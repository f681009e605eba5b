//! Task creation: kind resolution, parent validation and the
//! kind-directed factory with its spaced-repetition schedule.
//!
//! A task's kind is derived, never settable: it is the linked category's
//! kind, or event when no category is linked. A creation request runs
//! through kind resolution, then parent validation, then the factory
//! for the resolved kind; every failure is reported before anything
//! would be persisted.

use vstd::prelude::*;
use crate::clock::{now_schedulable, DAY_SECONDS, MAX_SCHEDULABLE};
use crate::errors::DomainError;
use crate::models::{opt_strslice_view, CategoryView, Kind, NewTask, NewTaskView, TaskStatus};
use crate::repository::{
    cat_id_pred, categories_wf, find_first_index, task_id_exists, task_id_pred, Repository,
    RepositoryView,
};

verus! {

/// The kind a creation request resolves to: the linked category's kind,
/// event when no category is referenced, nothing when the reference
/// does not resolve.
pub open spec fn resolved_kind(categories: Seq<CategoryView>, category_id: Option<i32>) -> Option<
    Kind,
> {
    match category_id {
        None => Some(Kind::Event),
        Some(cid) => {
            let i = find_first_index(categories, cat_id_pred(cid));
            if i == -1 {
                None
            } else {
                Some(categories[i].kind)
            }
        },
    }
}

/// A task referencing a stored category resolves to that category's
/// kind, and one referencing no category resolves to event.
pub proof fn lemma_resolved_kind(
    categories: Seq<CategoryView>,
    next_id: i32,
    i: int,
)
    requires
        categories_wf(categories, next_id),
        0 <= i < categories.len(),
    ensures
        resolved_kind(categories, Some(categories[i].id)) == Some(categories[i].kind),
        resolved_kind(categories, None) == Some(Kind::Event),
{
    let cid = categories[i].id;
    crate::repository::lemma_find_first_index(categories, cat_id_pred(cid));
    let j = find_first_index(categories, cat_id_pred(cid));
    assert(cat_id_pred(cid)(categories[i]));
    assert(j >= 0);
    assert(cat_id_pred(cid)(categories[j]));
    if j != i {
        if j < i {
            assert(categories[j].id != categories[i].id);
        } else {
            assert(categories[i].id != categories[j].id);
        }
        assert(false);
    }
}

/// Resolves the kind of a creation request, `CategoryNotFound` when the
/// reference does not resolve.
pub fn resolve_task_type(repo: &Repository, category_id: Option<i32>) -> (r: Result<
    Kind,
    DomainError,
>)
    ensures
        match r {
            Ok(k) => resolved_kind(repo@.categories, category_id) == Some(k),
            Err(e) => {
                &&& category_id is Some
                &&& resolved_kind(repo@.categories, category_id) is None
                &&& e == DomainError::CategoryNotFound(category_id.unwrap())
            },
        },
{
    match category_id {
        None => Ok(Kind::Event),
        Some(cid) => match repo.get_category_by_id(cid) {
            Ok(c) => Ok(c.kind),
            Err(_) => Err(DomainError::CategoryNotFound(cid)),
        },
    }
}

/// Confirms that a referenced parent task exists; a request without a
/// parent passes unconditionally.
pub fn validate_parent_task(repo: &Repository, parent_id: Option<i32>) -> (r: Result<
    (),
    DomainError,
>)
    ensures
        r is Ok <==> (parent_id is None || task_id_exists(repo@.tasks, parent_id.unwrap())),
        r matches Err(e) ==> e == DomainError::ParentTaskNotFound(parent_id.unwrap()),
{
    match parent_id {
        None => Ok(()),
        Some(pid) => {
            if repo.task_exists(pid) {
                Ok(())
            } else {
                Err(DomainError::ParentTaskNotFound(pid))
            }
        },
    }
}

/// The fixed spaced-repetition cadence anchored at `now`: a checkpoint
/// now, one two days later, one five days later — exactly three,
/// strictly increasing.
pub fn generate_recalls(now: i64) -> (r: Vec<i64>)
    requires
        now <= MAX_SCHEDULABLE,
    ensures
        r@.len() == 3,
        r@[0] == now,
        r@[1] == now + 2 * DAY_SECONDS,
        r@[2] == now + 5 * DAY_SECONDS,
        forall|i: int, j: int| 0 <= i < j < r@.len() ==> r@[i] < r@[j],
{
    let mut v: Vec<i64> = Vec::new();
    v.push(now);
    v.push(now + 2 * DAY_SECONDS);
    v.push(now + 5 * DAY_SECONDS);
    v
}

/// A root project task: parentless, waiting to be started by hand.
pub open spec fn main_project_task(
    title: Seq<char>,
    description: Option<Seq<char>>,
    category_id: Option<i32>,
    due_date: Option<Seq<char>>,
    now: i64,
) -> NewTaskView {
    NewTaskView {
        title: title,
        description: description,
        status: TaskStatus::NotInitialized,
        kind: Kind::Project,
        parent_id: None,
        category_id: category_id,
        due_date: due_date,
        last_recall: None,
        recalls: None,
        created_at: now,
        updated_at: Some(now),
    }
}

/// A project subtask: starts on the to-do list under its parent.
pub open spec fn project_subtask(
    title: Seq<char>,
    description: Option<Seq<char>>,
    category_id: Option<i32>,
    parent_id: Option<i32>,
    due_date: Option<Seq<char>>,
    now: i64,
) -> NewTaskView {
    NewTaskView {
        title: title,
        description: description,
        status: TaskStatus::ToDo,
        kind: Kind::Project,
        parent_id: parent_id,
        category_id: category_id,
        due_date: due_date,
        last_recall: None,
        recalls: None,
        created_at: now,
        updated_at: Some(now),
    }
}

/// A study task: carries its recall schedule and a last-recall stamp
/// equal to its creation time; a declared parent is ignored.
pub open spec fn study_task(
    title: Seq<char>,
    description: Option<Seq<char>>,
    category_id: Option<i32>,
    due_date: Option<Seq<char>>,
    now: i64,
) -> NewTaskView {
    NewTaskView {
        title: title,
        description: description,
        status: TaskStatus::ToDo,
        kind: Kind::Study,
        parent_id: None,
        category_id: category_id,
        due_date: due_date,
        last_recall: Some(now),
        recalls: Some(
            seq![now, (now + 2 * DAY_SECONDS) as i64, (now + 5 * DAY_SECONDS) as i64],
        ),
        created_at: now,
        updated_at: Some(now),
    }
}

/// An event task: standalone, due date required; neither category nor
/// parent is kept.
pub open spec fn event_task(
    title: Seq<char>,
    description: Option<Seq<char>>,
    due_date: Option<Seq<char>>,
    now: i64,
) -> NewTaskView {
    NewTaskView {
        title: title,
        description: description,
        status: TaskStatus::ToDo,
        kind: Kind::Event,
        parent_id: None,
        category_id: None,
        due_date: due_date,
        last_recall: None,
        recalls: None,
        created_at: now,
        updated_at: Some(now),
    }
}

/// Builds a root project task.
pub fn prepare_main_project_task(
    title: &str,
    description: Option<&str>,
    category_id: Option<i32>,
    due_date: Option<&str>,
    now: i64,
) -> (r: Result<NewTask, DomainError>)
    ensures
        r is Ok,
        r matches Ok(t) ==> t@ == main_project_task(
            title@,
            opt_strslice_view(description),
            category_id,
            opt_strslice_view(due_date),
            now,
        ),
{
    let t = NewTask {
        title: title.to_owned(),
        description: match description {
            Some(s) => Some(s.to_owned()),
            None => None,
        },
        status: TaskStatus::NotInitialized,
        kind: Kind::Project,
        parent_id: None,
        category_id,
        due_date: match due_date {
            Some(s) => Some(s.to_owned()),
            None => None,
        },
        last_recall: None,
        recalls: None,
        created_at: now,
        updated_at: Some(now),
    };
    proof {
        assert(t@ =~= main_project_task(
            title@,
            opt_strslice_view(description),
            category_id,
            opt_strslice_view(due_date),
            now,
        ));
    }
    Ok(t)
}

/// Builds a project subtask under an already-validated parent.
pub fn prepare_project_subtask(
    title: &str,
    description: Option<&str>,
    category_id: Option<i32>,
    parent_id: Option<i32>,
    due_date: Option<&str>,
    now: i64,
) -> (r: Result<NewTask, DomainError>)
    ensures
        r is Ok,
        r matches Ok(t) ==> t@ == project_subtask(
            title@,
            opt_strslice_view(description),
            category_id,
            parent_id,
            opt_strslice_view(due_date),
            now,
        ),
{
    let t = NewTask {
        title: title.to_owned(),
        description: match description {
            Some(s) => Some(s.to_owned()),
            None => None,
        },
        status: TaskStatus::ToDo,
        kind: Kind::Project,
        parent_id,
        category_id,
        due_date: match due_date {
            Some(s) => Some(s.to_owned()),
            None => None,
        },
        last_recall: None,
        recalls: None,
        created_at: now,
        updated_at: Some(now),
    };
    proof {
        assert(t@ =~= project_subtask(
            title@,
            opt_strslice_view(description),
            category_id,
            parent_id,
            opt_strslice_view(due_date),
            now,
        ));
    }
    Ok(t)
}

/// Builds a study task with its recall schedule anchored at `now`.
pub fn prepare_study_task(
    title: &str,
    description: Option<&str>,
    category_id: Option<i32>,
    due_date: Option<&str>,
    now: i64,
) -> (r: Result<NewTask, DomainError>)
    requires
        now <= MAX_SCHEDULABLE,
    ensures
        r is Ok,
        r matches Ok(t) ==> t@ == study_task(
            title@,
            opt_strslice_view(description),
            category_id,
            opt_strslice_view(due_date),
            now,
        ),
{
    let recalls = generate_recalls(now);
    let t = NewTask {
        title: title.to_owned(),
        description: match description {
            Some(s) => Some(s.to_owned()),
            None => None,
        },
        status: TaskStatus::ToDo,
        kind: Kind::Study,
        parent_id: None,
        category_id,
        due_date: match due_date {
            Some(s) => Some(s.to_owned()),
            None => None,
        },
        last_recall: Some(now),
        recalls: Some(recalls),
        created_at: now,
        updated_at: Some(now),
    };
    proof {
        assert(t@.recalls.unwrap() =~= study_task(
            title@,
            opt_strslice_view(description),
            category_id,
            opt_strslice_view(due_date),
            now,
        ).recalls.unwrap());
        assert(t@ =~= study_task(
            title@,
            opt_strslice_view(description),
            category_id,
            opt_strslice_view(due_date),
            now,
        ));
    }
    Ok(t)
}

/// Builds an event task; `MissingDueDate` when no due date is given.
pub fn prepare_event_task(
    title: &str,
    description: Option<&str>,
    due_date: Option<&str>,
    now: i64,
) -> (r: Result<NewTask, DomainError>)
    ensures
        r is Ok <==> due_date is Some,
        r matches Ok(t) ==> t@ == event_task(
            title@,
            opt_strslice_view(description),
            opt_strslice_view(due_date),
            now,
        ),
        r matches Err(e) ==> e == DomainError::MissingDueDate,
{
    if due_date.is_none() {
        return Err(DomainError::MissingDueDate);
    }
    let t = NewTask {
        title: title.to_owned(),
        description: match description {
            Some(s) => Some(s.to_owned()),
            None => None,
        },
        status: TaskStatus::ToDo,
        kind: Kind::Event,
        parent_id: None,
        category_id: None,
        due_date: match due_date {
            Some(s) => Some(s.to_owned()),
            None => None,
        },
        last_recall: None,
        recalls: None,
        created_at: now,
        updated_at: Some(now),
    };
    proof {
        assert(t@ =~= event_task(
            title@,
            opt_strslice_view(description),
            opt_strslice_view(due_date),
            now,
        ));
    }
    Ok(t)
}

/// The condition under which task creation succeeds: the category
/// reference resolves, a referenced parent exists, and an event task
/// carries a due date.
pub open spec fn task_create_ok(
    repo: RepositoryView,
    category_id: Option<i32>,
    parent_id: Option<i32>,
    due_date_present: bool,
) -> bool {
    &&& resolved_kind(repo.categories, category_id) is Some
    &&& (parent_id is Some ==> task_id_exists(repo.tasks, parent_id.unwrap()))
    &&& (resolved_kind(repo.categories, category_id) == Some(Kind::Event) ==> due_date_present)
}

/// The failure a rejected creation request reports, in the order the
/// checks run: kind resolution, then parent validation, then the due
/// date an event requires.
pub open spec fn task_create_err(
    repo: RepositoryView,
    category_id: Option<i32>,
    parent_id: Option<i32>,
) -> DomainError {
    if resolved_kind(repo.categories, category_id) is None {
        DomainError::CategoryNotFound(category_id.unwrap())
    } else if parent_id is Some && !task_id_exists(repo.tasks, parent_id.unwrap()) {
        DomainError::ParentTaskNotFound(parent_id.unwrap())
    } else {
        DomainError::MissingDueDate
    }
}

/// An event task without a due date is always refused with the
/// due-date error, whatever the other arguments hold.
pub proof fn lemma_event_requires_due_date(
    repo: RepositoryView,
    category_id: Option<i32>,
    parent_id: Option<i32>,
)
    requires
        resolved_kind(repo.categories, category_id) == Some(Kind::Event),
        parent_id is Some ==> task_id_exists(repo.tasks, parent_id.unwrap()),
    ensures
        !task_create_ok(repo, category_id, parent_id, false),
        task_create_err(repo, category_id, parent_id) == DomainError::MissingDueDate,
{
}

/// A subtask referencing a parent that does not exist is always refused
/// with the parent-not-found error, whatever the other arguments hold —
/// provided the category reference itself resolves, which is checked
/// first.
pub proof fn lemma_subtask_requires_parent(
    repo: RepositoryView,
    category_id: Option<i32>,
    parent_id: i32,
    due_date_present: bool,
)
    requires
        resolved_kind(repo.categories, category_id) is Some,
        !task_id_exists(repo.tasks, parent_id),
    ensures
        !task_create_ok(repo, category_id, Some(parent_id), due_date_present),
        task_create_err(repo, category_id, Some(parent_id)) == DomainError::ParentTaskNotFound(
            parent_id,
        ),
{
}

/// Validates a creation request and assembles the task the resolved
/// kind calls for: a parentless project starts `not_initialized`, a
/// project subtask and every study or event task start `to_do`, a study
/// task carries the three-checkpoint recall schedule anchored at its
/// creation time, and an event task must carry a due date. The creation
/// timestamp is read from the wall clock.
pub fn prepare_new_task(
    repo: &Repository,
    title: &str,
    description: Option<&str>,
    category_id: Option<i32>,
    parent_id: Option<i32>,
    due_date: Option<&str>,
) -> (r: Result<NewTask, DomainError>)
    requires
        repo.wf(),
    ensures
        r is Ok <==> task_create_ok(repo@, category_id, parent_id, due_date is Some),
        r matches Err(e) ==> e == task_create_err(repo@, category_id, parent_id),
        r matches Ok(t) ==> {
            let k = resolved_kind(repo@.categories, category_id).unwrap();
            &&& t@.kind == k
            &&& t@ == match k {
                Kind::Project => if parent_id is Some {
                    project_subtask(
                        title@,
                        opt_strslice_view(description),
                        category_id,
                        parent_id,
                        opt_strslice_view(due_date),
                        t@.created_at,
                    )
                } else {
                    main_project_task(
                        title@,
                        opt_strslice_view(description),
                        category_id,
                        opt_strslice_view(due_date),
                        t@.created_at,
                    )
                },
                Kind::Study => study_task(
                    title@,
                    opt_strslice_view(description),
                    category_id,
                    opt_strslice_view(due_date),
                    t@.created_at,
                ),
                Kind::Event => event_task(
                    title@,
                    opt_strslice_view(description),
                    opt_strslice_view(due_date),
                    t@.created_at,
                ),
            }
            &&& k == Kind::Study ==> {
                let rs = t@.recalls.unwrap();
                &&& t@.recalls is Some
                &&& rs.len() == 3
                &&& (forall|i: int, j: int| 0 <= i < j < rs.len() ==> rs[i] < rs[j])
                &&& rs[0] == t@.created_at
                &&& t@.last_recall == Some(t@.created_at)
                &&& rs[2] == t@.created_at + 5 * DAY_SECONDS
            }
        },
{
    let kind = resolve_task_type(repo, category_id)?;
    validate_parent_task(repo, parent_id)?;
    let now = now_schedulable();
    match kind {
        Kind::Project => {
            if parent_id.is_some() {
                prepare_project_subtask(title, description, category_id, parent_id, due_date, now)
            } else {
                prepare_main_project_task(title, description, category_id, due_date, now)
            }
        },
        Kind::Study => prepare_study_task(title, description, category_id, due_date, now),
        Kind::Event => prepare_event_task(title, description, due_date, now),
    }
}

/// Removes the task with the given id and reports it back;
/// `TaskNotFound` when no row was removed.
pub fn delete_task(repo: &mut Repository, task_id: i32) -> (r: Result<i32, DomainError>)
    requires
        old(repo).wf(),
    ensures
        final(repo).wf(),
        ({
            let i = find_first_index(old(repo)@.tasks, task_id_pred(task_id));
            match r {
                Ok(id) => i >= 0 && id == task_id && final(repo)@ == (RepositoryView {
                    tasks: old(repo)@.tasks.remove(i),
                    ..old(repo)@
                }),
                Err(e) => {
                    &&& i == -1
                    &&& e == DomainError::TaskNotFound(task_id)
                    &&& final(repo)@ == old(repo)@
                },
            }
        }),
{
    proof {
        crate::repository::lemma_find_first_index(old(repo)@.tasks, task_id_pred(task_id));
    }
    let deleted = repo.delete(task_id);
    if deleted > 0 {
        Ok(task_id)
    } else {
        Err(DomainError::TaskNotFound(task_id))
    }
}

} // verus!
