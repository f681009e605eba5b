//! The in-memory model of the persistent store.
//!
//! A [`Repository`] owns all mutable state the domain rules read and
//! write: categories, tasks, folders and files, each keyed by an integer
//! identity assigned at creation. Identities grow strictly, so a folder's
//! parent reference always points to a folder created strictly earlier —
//! the structural invariant that keeps the ancestor chain acyclic and
//! path derivation terminating. The real storage engine sits outside the
//! library and is expected to uphold the same invariants (unique ids,
//! referential integrity, cascading deletes).

use vstd::prelude::*;
use crate::errors::DomainError;
use crate::lifecycle::{allowed_transition, can_transition};
use crate::models::{
    clone_bytes, clone_opt_i64s, clone_opt_string, opt_i64s_view, Category, CategoryView, File, FileView,
    Folder, FolderView, NewCategory, NewCategoryView, NewFile, NewFileView, NewTask, NewTaskView,
    Task, TaskStatus, TaskView, UpdateTaskData,
};

verus! {

/// The first index of `s` satisfying `p`, or -1 if none does.
pub open spec fn find_first_index<T>(s: Seq<T>, p: spec_fn(T) -> bool) -> int
    decreases s.len(),
{
    if s.len() == 0 {
        -1
    } else if p(s[0]) {
        0
    } else {
        let r = find_first_index(s.drop_first(), p);
        if r == -1 {
            -1
        } else {
            r + 1
        }
    }
}

/// `find_first_index` returns -1 exactly when nothing matches, and
/// otherwise the first matching position.
pub proof fn lemma_find_first_index<T>(s: Seq<T>, p: spec_fn(T) -> bool)
    ensures
        find_first_index(s, p) >= -1,
        find_first_index(s, p) == -1 ==> forall|j: int| 0 <= j < s.len() ==> !p(s[j]),
        find_first_index(s, p) >= 0 ==> find_first_index(s, p) < s.len() && p(
            s[find_first_index(s, p)],
        ) && (forall|j: int| 0 <= j < find_first_index(s, p) ==> !p(s[j])),
    decreases s.len(),
{
    if s.len() == 0 {
    } else if p(s[0]) {
    } else {
        let d = s.drop_first();
        lemma_find_first_index(d, p);
        let r = find_first_index(d, p);
        if r == -1 {
            assert forall|j: int| 0 <= j < s.len() implies !p(s[j]) by {
                if j > 0 {
                    assert(!p(d[j - 1]));
                }
            }
        } else {
            assert(p(s[r + 1])) by {
                assert(p(d[r]));
            }
            assert forall|j: int| 0 <= j < r + 1 implies !p(s[j]) by {
                if j > 0 {
                    assert(!p(d[j - 1]));
                }
            }
        }
    }
}

/// Matches the category with the given id.
pub open spec fn cat_id_pred(id: i32) -> spec_fn(CategoryView) -> bool {
    |c: CategoryView| c.id == id
}

/// Matches the task with the given id.
pub open spec fn task_id_pred(id: i32) -> spec_fn(TaskView) -> bool {
    |t: TaskView| t.id == id
}

/// Matches the folder with the given id.
pub open spec fn folder_id_pred(id: i32) -> spec_fn(FolderView) -> bool {
    |f: FolderView| f.id == Some(id)
}

/// Matches the file with the given id.
pub open spec fn file_id_pred(id: i32) -> spec_fn(FileView) -> bool {
    |f: FileView| f.id == Some(id)
}

/// Whether some folder of `folders` carries the given id.
pub open spec fn folder_id_exists(folders: Seq<FolderView>, id: i32) -> bool {
    exists|j: int| 0 <= j < folders.len() && folders[j].id == Some(id)
}

/// Whether some task of `tasks` carries the given id.
pub open spec fn task_id_exists(tasks: Seq<TaskView>, id: i32) -> bool {
    exists|j: int| 0 <= j < tasks.len() && tasks[j].id == id
}

/// Matches the tasks linked to the given category.
pub open spec fn task_category_pred(category_id: i32) -> spec_fn(TaskView) -> bool {
    |t: TaskView| t.category_id == Some(category_id)
}

/// Matches the tasks that are not done.
pub open spec fn task_pending_pred() -> spec_fn(TaskView) -> bool {
    |t: TaskView| t.status != TaskStatus::Done
}

/// Matches the files attached to the given folder.
pub open spec fn file_folder_pred(folder_id: i32) -> spec_fn(FileView) -> bool {
    |f: FileView| f.folder_id == folder_id
}

/// The stored task built from `nv` under the given identity.
pub open spec fn task_from_new(nv: NewTaskView, id: i32) -> TaskView {
    TaskView {
        id: id,
        title: nv.title,
        description: nv.description,
        status: nv.status,
        kind: nv.kind,
        parent_id: nv.parent_id,
        category_id: nv.category_id,
        due_date: nv.due_date,
        last_recall: nv.last_recall,
        recalls: nv.recalls,
        created_at: nv.created_at,
        updated_at: nv.updated_at,
    }
}

/// The stored file built from `nv` under the given identity.
pub open spec fn file_from_new(nv: NewFileView, id: i32) -> FileView {
    FileView {
        id: Some(id),
        name: nv.name,
        is_favorite: nv.is_favorite,
        file_type: nv.file_type,
        link: nv.link,
        content: nv.content,
        folder_id: nv.folder_id,
        created_at: nv.created_at,
        updated_at: nv.updated_at,
    }
}

/// The mathematical view of the store: the four entity sequences in
/// creation order, and the next identity each will assign.
#[verifier::ext_equal]
pub ghost struct RepositoryView {
    pub categories: Seq<CategoryView>,
    pub tasks: Seq<TaskView>,
    pub folders: Seq<FolderView>,
    pub files: Seq<FileView>,
    pub next_category_id: i32,
    pub next_task_id: i32,
    pub next_folder_id: i32,
    pub next_file_id: i32,
}

/// Category identities are positive, below the next to be assigned, and
/// unique.
pub open spec fn categories_wf(cats: Seq<CategoryView>, next_id: i32) -> bool {
    &&& 1 <= next_id
    &&& forall|i: int| 0 <= i < cats.len() ==> 1 <= #[trigger] cats[i].id < next_id
    &&& forall|i: int, j: int|
        0 <= i < j < cats.len() ==> #[trigger] cats[i].id != #[trigger] cats[j].id
}

/// Task identities are positive, below the next to be assigned, and
/// unique.
pub open spec fn tasks_wf(tasks: Seq<TaskView>, next_id: i32) -> bool {
    &&& 1 <= next_id
    &&& forall|i: int| 0 <= i < tasks.len() ==> 1 <= #[trigger] tasks[i].id < next_id
    &&& forall|i: int, j: int|
        0 <= i < j < tasks.len() ==> #[trigger] tasks[i].id != #[trigger] tasks[j].id
}

/// Folder identities are assigned, positive, below the next to be
/// assigned, and unique; every parent reference points to an existing
/// folder created strictly earlier, which keeps the ancestor chain
/// acyclic.
pub open spec fn folders_wf(folders: Seq<FolderView>, next_id: i32) -> bool {
    &&& 1 <= next_id
    &&& forall|i: int|
        0 <= i < folders.len() ==> (#[trigger] folders[i].id) is Some && 1
            <= folders[i].id.unwrap() < next_id
    &&& forall|i: int, j: int|
        0 <= i < j < folders.len() ==> #[trigger] folders[i].id != #[trigger] folders[j].id
    &&& forall|i: int|
        0 <= i < folders.len() && (#[trigger] folders[i].parent_id) is Some ==> folder_id_exists(
            folders,
            folders[i].parent_id.unwrap(),
        ) && folders[i].parent_id.unwrap() < folders[i].id.unwrap()
}

/// File identities are assigned, positive, below the next to be
/// assigned, and unique.
pub open spec fn files_wf(files: Seq<FileView>, next_id: i32) -> bool {
    &&& 1 <= next_id
    &&& forall|i: int|
        0 <= i < files.len() ==> (#[trigger] files[i].id) is Some && 1 <= files[i].id.unwrap()
            < next_id
    &&& forall|i: int, j: int|
        0 <= i < j < files.len() ==> #[trigger] files[i].id != #[trigger] files[j].id
}

/// The in-memory store of all four entity kinds.
pub struct Repository {
    categories: Vec<Category>,
    tasks: Vec<Task>,
    folders: Vec<Folder>,
    files: Vec<File>,
    next_category_id: i32,
    next_task_id: i32,
    next_folder_id: i32,
    next_file_id: i32,
}

impl View for Repository {
    type V = RepositoryView;

    closed spec fn view(&self) -> RepositoryView {
        RepositoryView {
            categories: self.categories.deep_view(),
            tasks: self.tasks.deep_view(),
            folders: self.folders.deep_view(),
            files: self.files.deep_view(),
            next_category_id: self.next_category_id,
            next_task_id: self.next_task_id,
            next_folder_id: self.next_folder_id,
            next_file_id: self.next_file_id,
        }
    }
}

/// The store's invariant, established by [`Repository::new`] and
/// preserved by every operation.
pub open spec fn repo_wf(r: RepositoryView) -> bool {
    &&& categories_wf(r.categories, r.next_category_id)
    &&& tasks_wf(r.tasks, r.next_task_id)
    &&& folders_wf(r.folders, r.next_folder_id)
    &&& files_wf(r.files, r.next_file_id)
}

/// The stored category built from `nv` under the given identity.
pub open spec fn category_from_new(nv: NewCategoryView, id: i32) -> CategoryView {
    CategoryView {
        id: id,
        name: nv.name,
        description: nv.description,
        kind: nv.kind,
        status: nv.status,
        created_at: nv.created_at,
        updated_at: nv.updated_at,
    }
}

impl Repository {
    /// Whether the store's invariant holds.
    pub open spec fn wf(&self) -> bool {
        repo_wf(self@)
    }

    /// An empty store; the first entity of each kind gets identity 1.
    pub fn new() -> (r: Self)
        ensures
            r.wf(),
            r@.categories =~= Seq::<CategoryView>::empty(),
            r@.tasks =~= Seq::<TaskView>::empty(),
            r@.folders =~= Seq::<FolderView>::empty(),
            r@.files =~= Seq::<FileView>::empty(),
            r@.next_category_id == 1,
            r@.next_task_id == 1,
            r@.next_folder_id == 1,
            r@.next_file_id == 1,
    {
        Repository {
            categories: Vec::new(),
            tasks: Vec::new(),
            folders: Vec::new(),
            files: Vec::new(),
            next_category_id: 1,
            next_task_id: 1,
            next_folder_id: 1,
            next_file_id: 1,
        }
    }

    /// Mirrors a category row read back from the backing store, keeping
    /// its stored identity; accepted only in ascending id order, so the
    /// invariant is preserved. Returns whether the row was taken.
    pub fn load_category(&mut self, row: Category) -> (r: bool)
        requires
            old(self).wf(),
        ensures
            final(self).wf(),
            r == (row@.id >= old(self)@.next_category_id && row@.id < i32::MAX),
            r ==> final(self)@ == (RepositoryView {
                categories: old(self)@.categories.push(row@),
                next_category_id: (row@.id + 1) as i32,
                ..old(self)@
            }),
            !r ==> final(self)@ == old(self)@,
    {
        if row.id >= self.next_category_id && row.id < i32::MAX {
            let next = row.id + 1;
            let ghost pre = self@;
            let ghost rv = row@;
            self.categories.push(row);
            self.next_category_id = next;
            proof {
                assert(self.categories.deep_view() =~= pre.categories.push(rv));
                assert(self@ =~= (RepositoryView {
                    categories: pre.categories.push(rv),
                    next_category_id: (rv.id + 1) as i32,
                    ..pre
                }));
            }
            true
        } else {
            false
        }
    }

    /// Mirrors a task row read back from the backing store, keeping its
    /// stored identity; accepted only in ascending id order. Returns
    /// whether the row was taken.
    pub fn load_task(&mut self, row: Task) -> (r: bool)
        requires
            old(self).wf(),
        ensures
            final(self).wf(),
            r == (row@.id >= old(self)@.next_task_id && row@.id < i32::MAX),
            r ==> final(self)@ == (RepositoryView {
                tasks: old(self)@.tasks.push(row@),
                next_task_id: (row@.id + 1) as i32,
                ..old(self)@
            }),
            !r ==> final(self)@ == old(self)@,
    {
        if row.id >= self.next_task_id && row.id < i32::MAX {
            let next = row.id + 1;
            let ghost pre = self@;
            let ghost rv = row@;
            self.tasks.push(row);
            self.next_task_id = next;
            proof {
                assert(self.tasks.deep_view() =~= pre.tasks.push(rv));
                assert(self@ =~= (RepositoryView {
                    tasks: pre.tasks.push(rv),
                    next_task_id: (rv.id + 1) as i32,
                    ..pre
                }));
            }
            true
        } else {
            false
        }
    }

    /// Mirrors a folder row read back from the backing store, keeping
    /// its stored identity; accepted only in ascending id order and with
    /// a resolving parent reference, the invariants the store itself
    /// upholds. Returns whether the row was taken.
    pub fn load_folder(&mut self, row: Folder) -> (r: bool)
        requires
            old(self).wf(),
        ensures
            final(self).wf(),
            r == (row@.id is Some && row@.id.unwrap() >= old(self)@.next_folder_id && row@.id.unwrap() < i32::MAX && (
            row@.parent_id is Some ==> folder_id_exists(
                old(self)@.folders,
                row@.parent_id.unwrap(),
            ))),
            r ==> final(self)@ == (RepositoryView {
                folders: old(self)@.folders.push(row@),
                next_folder_id: (row@.id.unwrap() + 1) as i32,
                ..old(self)@
            }),
            !r ==> final(self)@ == old(self)@,
    {
        let id = match row.id {
            Some(x) => x,
            None => {
                return false;
            },
        };
        if id < self.next_folder_id || id == i32::MAX {
            return false;
        }
        match row.parent_id {
            Some(p) => {
                if !self.folder_exists(p) {
                    return false;
                }
            },
            None => {},
        }
        let next = id + 1;
        let ghost pre = self@;
        let ghost rv = row@;
        self.folders.push(row);
        self.next_folder_id = next;
        proof {
            assert(self.folders.deep_view() =~= pre.folders.push(rv));
            assert(self@ =~= (RepositoryView {
                folders: pre.folders.push(rv),
                next_folder_id: (rv.id.unwrap() + 1) as i32,
                ..pre
            }));
            assert(folders_wf(self@.folders, self@.next_folder_id)) by {
                let cur = self@.folders;
                assert forall|i: int|
                    0 <= i < cur.len() && (#[trigger] cur[i].parent_id) is Some implies
                    folder_id_exists(cur, cur[i].parent_id.unwrap())
                        && cur[i].parent_id.unwrap() < cur[i].id.unwrap() by {
                    let p = cur[i].parent_id.unwrap();
                    if i < pre.folders.len() {
                        assert(folder_id_exists(pre.folders, p));
                        let j = choose|j: int|
                            0 <= j < pre.folders.len() && pre.folders[j].id == Some(p);
                        assert(cur[j].id == Some(p));
                    } else {
                        assert(cur[i] == rv);
                        assert(folder_id_exists(pre.folders, p));
                        let j = choose|j: int|
                            0 <= j < pre.folders.len() && pre.folders[j].id == Some(p);
                        assert(cur[j].id == Some(p));
                        assert(1 <= pre.folders[j].id.unwrap() < pre.next_folder_id);
                    }
                }
            }
        }
        true
    }

    /// Mirrors a file row read back from the backing store, keeping its
    /// stored identity; accepted only in ascending id order. Returns
    /// whether the row was taken.
    pub fn load_file(&mut self, row: File) -> (r: bool)
        requires
            old(self).wf(),
        ensures
            final(self).wf(),
            r == (row@.id is Some && row@.id.unwrap() >= old(self)@.next_file_id && row@.id.unwrap() < i32::MAX),
            r ==> final(self)@ == (RepositoryView {
                files: old(self)@.files.push(row@),
                next_file_id: (row@.id.unwrap() + 1) as i32,
                ..old(self)@
            }),
            !r ==> final(self)@ == old(self)@,
    {
        let id = match row.id {
            Some(x) => x,
            None => {
                return false;
            },
        };
        if id < self.next_file_id || id == i32::MAX {
            return false;
        }
        let next = id + 1;
        let ghost pre = self@;
        let ghost rv = row@;
        self.files.push(row);
        self.next_file_id = next;
        proof {
            assert(self.files.deep_view() =~= pre.files.push(rv));
            assert(self@ =~= (RepositoryView {
                files: pre.files.push(rv),
                next_file_id: (rv.id.unwrap() + 1) as i32,
                ..pre
            }));
        }
        true
    }

    /// Inserts a prepared category and returns the stored row, identity
    /// assigned.
    pub fn create_category(&mut self, new_category: NewCategory) -> (r: Category)
        requires
            old(self).wf(),
            old(self)@.next_category_id < i32::MAX,
        ensures
            final(self).wf(),
            r@ == category_from_new(new_category@, old(self)@.next_category_id),
            final(self)@ == (RepositoryView {
                categories: old(self)@.categories.push(r@),
                next_category_id: (old(self)@.next_category_id + 1) as i32,
                ..old(self)@
            }),
    {
        let id = self.next_category_id;
        let c = Category {
            id,
            name: new_category.name,
            description: new_category.description,
            kind: new_category.kind,
            status: new_category.status,
            created_at: new_category.created_at,
            updated_at: new_category.updated_at,
        };
        let stored = c.clone();
        self.categories.push(stored);
        self.next_category_id = id + 1;
        proof {
            assert(self.categories.deep_view() =~= old(self).categories.deep_view().push(c@));
            assert(self@ =~= (RepositoryView {
                categories: old(self)@.categories.push(c@),
                next_category_id: (old(self)@.next_category_id + 1) as i32,
                ..old(self)@
            }));
        }
        c
    }

    /// The category with the given id, or `CategoryNotFound`.
    pub fn get_category_by_id(&self, category_id: i32) -> (r: Result<Category, DomainError>)
        ensures
            ({
                let i = find_first_index(self@.categories, cat_id_pred(category_id));
                match r {
                    Ok(c) => i >= 0 && c@ == self@.categories[i],
                    Err(e) => i == -1 && e == DomainError::CategoryNotFound(category_id),
                }
            }),
    {
        let n = self.categories.len();
        let mut k: usize = 0;
        while k < n
            invariant
                n == self.categories.len(),
                k <= n,
                forall|j: int| 0 <= j < k ==> !cat_id_pred(category_id)(self@.categories[j]),
            decreases n - k,
        {
            if self.categories[k].id == category_id {
                proof {
                    lemma_find_first_index(self@.categories, cat_id_pred(category_id));
                    assert(cat_id_pred(category_id)(self@.categories[k as int]));
                    assert(find_first_index(self@.categories, cat_id_pred(category_id))
                        == k as int);
                }
                return Ok(self.categories[k].clone());
            }
            k = k + 1;
        }
        proof {
            lemma_find_first_index(self@.categories, cat_id_pred(category_id));
        }
        Err(DomainError::CategoryNotFound(category_id))
    }

    /// All categories, in creation order.
    pub fn get_all_categories(&self) -> (r: Vec<Category>)
        ensures
            r.deep_view() == self@.categories,
    {
        let n = self.categories.len();
        let mut out: Vec<Category> = Vec::new();
        let mut k: usize = 0;
        while k < n
            invariant
                n == self.categories.len(),
                k <= n,
                out.deep_view() =~= self@.categories.subrange(0, k as int),
            decreases n - k,
        {
            let ghost pre_out = out.deep_view();
            out.push(self.categories[k].clone());
            proof {
                assert(out.deep_view() =~= pre_out.push(self@.categories[k as int]));
                assert(out.deep_view() =~= self@.categories.subrange(0, k + 1));
            }
            k = k + 1;
        }
        proof {
            assert(out.deep_view() =~= self@.categories);
        }
        out
    }

    /// Rewrites the category with the given id from `updated` — name,
    /// description, kind, status and update timestamp; the creation
    /// timestamp is kept. Returns the stored row, or `CategoryNotFound`.
    pub fn update_category(&mut self, category_id: i32, updated: NewCategory) -> (r: Result<
        Category,
        DomainError,
    >)
        requires
            old(self).wf(),
        ensures
            final(self).wf(),
            ({
                let i = find_first_index(old(self)@.categories, cat_id_pred(category_id));
                match r {
                    Ok(c) => {
                        &&& i >= 0
                        &&& c@ == (CategoryView {
                            id: category_id,
                            name: updated@.name,
                            description: updated@.description,
                            kind: updated@.kind,
                            status: updated@.status,
                            created_at: old(self)@.categories[i].created_at,
                            updated_at: updated@.updated_at,
                        })
                        &&& final(self)@ == (RepositoryView {
                            categories: old(self)@.categories.update(i, c@),
                            ..old(self)@
                        })
                    },
                    Err(e) => {
                        &&& i == -1
                        &&& e == DomainError::CategoryNotFound(category_id)
                        &&& final(self)@ == old(self)@
                    },
                }
            }),
    {
        let n = self.categories.len();
        let mut k: usize = 0;
        while k < n
            invariant
                n == self.categories.len(),
                k <= n,
                *self == *old(self),
                old(self).wf(),
                forall|j: int| 0 <= j < k ==> !cat_id_pred(category_id)(self@.categories[j]),
            decreases n - k,
        {
            if self.categories[k].id == category_id {
                proof {
                    lemma_find_first_index(old(self)@.categories, cat_id_pred(category_id));
                    assert(cat_id_pred(category_id)(self@.categories[k as int]));
                    assert(find_first_index(old(self)@.categories, cat_id_pred(category_id))
                        == k as int);
                }
                let c = Category {
                    id: category_id,
                    name: updated.name,
                    description: updated.description,
                    kind: updated.kind,
                    status: updated.status,
                    created_at: self.categories[k].created_at,
                    updated_at: updated.updated_at,
                };
                let stored = c.clone();
                let ghost pre = self@;
                let ghost pre_vec = self.categories@;
                self.categories.remove(k);
                self.categories.insert(k, stored);
                proof {
                    assert(self.categories@ =~= pre_vec.update(k as int, stored));
                    assert(self.categories.deep_view() =~= pre.categories.update(k as int, c@));
                    assert(self@ =~= (RepositoryView {
                        categories: pre.categories.update(k as int, c@),
                        ..pre
                    }));
                    assert(categories_wf(self@.categories, self@.next_category_id)) by {
                        let cur = self@.categories;
                        assert forall|a: int, b: int| 0 <= a < b < cur.len() implies cur[a].id
                            != cur[b].id by {
                            assert(pre.categories[a].id != pre.categories[b].id);
                        }
                    }
                }
                return Ok(c);
            }
            k = k + 1;
        }
        proof {
            lemma_find_first_index(old(self)@.categories, cat_id_pred(category_id));
        }
        Err(DomainError::CategoryNotFound(category_id))
    }

    /// Removes the category with the given id; the number of rows
    /// removed (0 or 1). Dependent tasks are the storage engine's
    /// cascade to clean up; the domain rules never read them afterwards.
    pub fn delete_category(&mut self, category_id: i32) -> (r: usize)
        requires
            old(self).wf(),
        ensures
            final(self).wf(),
            ({
                let i = find_first_index(old(self)@.categories, cat_id_pred(category_id));
                if i >= 0 {
                    r == 1 && final(self)@ == (RepositoryView {
                        categories: old(self)@.categories.remove(i),
                        ..old(self)@
                    })
                } else {
                    r == 0 && final(self)@ == old(self)@
                }
            }),
    {
        let n = self.categories.len();
        let mut k: usize = 0;
        while k < n
            invariant
                n == self.categories.len(),
                k <= n,
                *self == *old(self),
                old(self).wf(),
                forall|j: int| 0 <= j < k ==> !cat_id_pred(category_id)(self@.categories[j]),
            decreases n - k,
        {
            if self.categories[k].id == category_id {
                proof {
                    lemma_find_first_index(old(self)@.categories, cat_id_pred(category_id));
                    assert(cat_id_pred(category_id)(self@.categories[k as int]));
                    assert(find_first_index(old(self)@.categories, cat_id_pred(category_id))
                        == k as int);
                }
                let ghost pre = self@;
                self.categories.remove(k);
                proof {
                    assert(self.categories.deep_view() =~= pre.categories.remove(k as int));
                    assert(self@ =~= (RepositoryView {
                        categories: pre.categories.remove(k as int),
                        ..pre
                    }));
                    assert(categories_wf(self@.categories, self@.next_category_id)) by {
                        let cur = self@.categories;
                        assert forall|a: int, b: int| 0 <= a < b < cur.len() implies cur[a].id
                            != cur[b].id by {
                            let a0 = if a < k as int { a } else { a + 1 };
                            let b0 = if b < k as int { b } else { b + 1 };
                            assert(cur[a] == pre.categories[a0]);
                            assert(cur[b] == pre.categories[b0]);
                        }
                    }
                }
                return 1;
            }
            k = k + 1;
        }
        proof {
            lemma_find_first_index(old(self)@.categories, cat_id_pred(category_id));
        }
        0
    }

    /// Inserts a prepared task and returns the stored row, identity
    /// assigned.
    pub fn create(&mut self, new_task: &NewTask) -> (r: Task)
        requires
            old(self).wf(),
            old(self)@.next_task_id < i32::MAX,
        ensures
            final(self).wf(),
            r@ == task_from_new(new_task@, old(self)@.next_task_id),
            final(self)@ == (RepositoryView {
                tasks: old(self)@.tasks.push(r@),
                next_task_id: (old(self)@.next_task_id + 1) as i32,
                ..old(self)@
            }),
    {
        let id = self.next_task_id;
        let t = Task {
            id,
            title: new_task.title.clone(),
            description: clone_opt_string(&new_task.description),
            status: new_task.status,
            kind: new_task.kind,
            parent_id: new_task.parent_id,
            category_id: new_task.category_id,
            due_date: clone_opt_string(&new_task.due_date),
            last_recall: new_task.last_recall,
            recalls: clone_opt_i64s(&new_task.recalls),
            created_at: new_task.created_at,
            updated_at: new_task.updated_at,
        };
        proof {
            assert(t@ =~= task_from_new(new_task@, id));
        }
        let stored = t.clone();
        self.tasks.push(stored);
        self.next_task_id = id + 1;
        proof {
            assert(self.tasks.deep_view() =~= old(self).tasks.deep_view().push(t@));
            assert(self@ =~= (RepositoryView {
                tasks: old(self)@.tasks.push(t@),
                next_task_id: (old(self)@.next_task_id + 1) as i32,
                ..old(self)@
            }));
        }
        t
    }

    /// The task with the given id, or `TaskNotFound`.
    pub fn get_by_id(&self, task_id: i32) -> (r: Result<Task, DomainError>)
        ensures
            ({
                let i = find_first_index(self@.tasks, task_id_pred(task_id));
                match r {
                    Ok(t) => i >= 0 && t@ == self@.tasks[i],
                    Err(e) => i == -1 && e == DomainError::TaskNotFound(task_id),
                }
            }),
    {
        let n = self.tasks.len();
        let mut k: usize = 0;
        while k < n
            invariant
                n == self.tasks.len(),
                k <= n,
                forall|j: int| 0 <= j < k ==> !task_id_pred(task_id)(self@.tasks[j]),
            decreases n - k,
        {
            if self.tasks[k].id == task_id {
                proof {
                    lemma_find_first_index(self@.tasks, task_id_pred(task_id));
                    assert(task_id_pred(task_id)(self@.tasks[k as int]));
                    assert(find_first_index(self@.tasks, task_id_pred(task_id)) == k as int);
                }
                return Ok(self.tasks[k].clone());
            }
            k = k + 1;
        }
        proof {
            lemma_find_first_index(self@.tasks, task_id_pred(task_id));
        }
        Err(DomainError::TaskNotFound(task_id))
    }

    /// All tasks, in creation order.
    pub fn list(&self) -> (r: Vec<Task>)
        ensures
            r.deep_view() == self@.tasks,
    {
        let n = self.tasks.len();
        let mut out: Vec<Task> = Vec::new();
        let mut k: usize = 0;
        while k < n
            invariant
                n == self.tasks.len(),
                k <= n,
                out.deep_view() =~= self@.tasks.subrange(0, k as int),
            decreases n - k,
        {
            let ghost pre_out = out.deep_view();
            out.push(self.tasks[k].clone());
            proof {
                assert(out.deep_view() =~= pre_out.push(self@.tasks[k as int]));
                assert(out.deep_view() =~= self@.tasks.subrange(0, k + 1));
            }
            k = k + 1;
        }
        proof {
            assert(out.deep_view() =~= self@.tasks);
        }
        out
    }

    /// The tasks linked to the given category, in creation order.
    pub fn get_tasks_by_category_id(&self, category_id_value: i32) -> (r: Vec<Task>)
        ensures
            r.deep_view() == self@.tasks.filter(task_category_pred(category_id_value)),
    {
        let n = self.tasks.len();
        let mut out: Vec<Task> = Vec::new();
        let mut k: usize = 0;
        while k < n
            invariant
                n == self.tasks.len(),
                k <= n,
                out.deep_view() =~= self@.tasks.subrange(0, k as int).filter(
                    task_category_pred(category_id_value),
                ),
            decreases n - k,
        {
            let ghost p = task_category_pred(category_id_value);
            let ghost pre_out = out.deep_view();
            let keep = match self.tasks[k].category_id {
                Some(c) => c == category_id_value,
                None => false,
            };
            proof {
                reveal(Seq::filter);
                assert(keep == p(self@.tasks[k as int]));
                let sub1 = self@.tasks.subrange(0, k + 1);
                assert(sub1.drop_last() =~= self@.tasks.subrange(0, k as int));
                assert(sub1.drop_last() == self@.tasks.subrange(0, k as int));
                assert(sub1.last() == self@.tasks[k as int]);
            }
            if keep {
                out.push(self.tasks[k].clone());
                proof {
                    reveal(Seq::filter);
                    assert(out.deep_view() =~= pre_out.push(self@.tasks[k as int]));
                    assert(out.deep_view() =~= self@.tasks.subrange(0, k + 1).filter(p));
                }
            } else {
                proof {
                    reveal(Seq::filter);
                    assert(out.deep_view() =~= self@.tasks.subrange(0, k + 1).filter(p));
                }
            }
            k = k + 1;
        }
        proof {
            assert(self@.tasks.subrange(0, n as int) =~= self@.tasks);
        }
        out
    }

    /// The tasks whose status is not `done`, in creation order.
    pub fn get_pending_tasks(&self) -> (r: Vec<Task>)
        ensures
            r.deep_view() == self@.tasks.filter(task_pending_pred()),
    {
        let n = self.tasks.len();
        let mut out: Vec<Task> = Vec::new();
        let mut k: usize = 0;
        while k < n
            invariant
                n == self.tasks.len(),
                k <= n,
                out.deep_view() =~= self@.tasks.subrange(0, k as int).filter(
                    task_pending_pred(),
                ),
            decreases n - k,
        {
            let ghost p = task_pending_pred();
            let ghost pre_out = out.deep_view();
            let keep = match self.tasks[k].status {
                TaskStatus::Done => false,
                _ => true,
            };
            proof {
                reveal(Seq::filter);
                assert(keep == p(self@.tasks[k as int]));
                let sub1 = self@.tasks.subrange(0, k + 1);
                assert(sub1.drop_last() =~= self@.tasks.subrange(0, k as int));
                assert(sub1.drop_last() == self@.tasks.subrange(0, k as int));
                assert(sub1.last() == self@.tasks[k as int]);
            }
            if keep {
                out.push(self.tasks[k].clone());
                proof {
                    reveal(Seq::filter);
                    assert(out.deep_view() =~= pre_out.push(self@.tasks[k as int]));
                    assert(out.deep_view() =~= self@.tasks.subrange(0, k + 1).filter(p));
                }
            } else {
                proof {
                    reveal(Seq::filter);
                    assert(out.deep_view() =~= self@.tasks.subrange(0, k + 1).filter(p));
                }
            }
            k = k + 1;
        }
        proof {
            assert(self@.tasks.subrange(0, n as int) =~= self@.tasks);
        }
        out
    }

    /// Whether a task with the given id exists.
    pub fn task_exists(&self, task_id: i32) -> (r: bool)
        ensures
            r == task_id_exists(self@.tasks, task_id),
    {
        let n = self.tasks.len();
        let mut k: usize = 0;
        while k < n
            invariant
                n == self.tasks.len(),
                k <= n,
                forall|j: int| 0 <= j < k ==> self@.tasks[j].id != task_id,
            decreases n - k,
        {
            if self.tasks[k].id == task_id {
                proof {
                    assert(self@.tasks[k as int].id == task_id);
                }
                return true;
            }
            k = k + 1;
        }
        false
    }

    /// Removes the task with the given id; the number of rows removed
    /// (0 or 1). Descendant subtasks are the storage engine's cascade to
    /// clean up.
    pub fn delete(&mut self, task_id: i32) -> (r: usize)
        requires
            old(self).wf(),
        ensures
            final(self).wf(),
            ({
                let i = find_first_index(old(self)@.tasks, task_id_pred(task_id));
                if i >= 0 {
                    r == 1 && final(self)@ == (RepositoryView {
                        tasks: old(self)@.tasks.remove(i),
                        ..old(self)@
                    })
                } else {
                    r == 0 && final(self)@ == old(self)@
                }
            }),
    {
        let n = self.tasks.len();
        let mut k: usize = 0;
        while k < n
            invariant
                n == self.tasks.len(),
                k <= n,
                *self == *old(self),
                old(self).wf(),
                forall|j: int| 0 <= j < k ==> !task_id_pred(task_id)(self@.tasks[j]),
            decreases n - k,
        {
            if self.tasks[k].id == task_id {
                proof {
                    lemma_find_first_index(old(self)@.tasks, task_id_pred(task_id));
                    assert(task_id_pred(task_id)(self@.tasks[k as int]));
                    assert(find_first_index(old(self)@.tasks, task_id_pred(task_id)) == k as int);
                }
                let ghost pre = self@;
                self.tasks.remove(k);
                proof {
                    assert(self.tasks.deep_view() =~= pre.tasks.remove(k as int));
                    assert(self@ =~= (RepositoryView { tasks: pre.tasks.remove(k as int), ..pre }));
                    assert(tasks_wf(self@.tasks, self@.next_task_id)) by {
                        let cur = self@.tasks;
                        assert forall|a: int, b: int| 0 <= a < b < cur.len() implies cur[a].id
                            != cur[b].id by {
                            let a0 = if a < k as int {
                                a
                            } else {
                                a + 1
                            };
                            let b0 = if b < k as int {
                                b
                            } else {
                                b + 1
                            };
                            assert(cur[a] == pre.tasks[a0]);
                            assert(cur[b] == pre.tasks[b0]);
                        }
                    }
                }
                return 1;
            }
            k = k + 1;
        }
        proof {
            lemma_find_first_index(old(self)@.tasks, task_id_pred(task_id));
        }
        0
    }

    /// Applies a whitelisted status transition to the task with the
    /// given id; `TaskNotFound` or `InvalidStatusTransition` otherwise.
    pub fn update_status(&mut self, task_id_value: i32, new_status: TaskStatus) -> (r: Result<
        (),
        DomainError,
    >)
        requires
            old(self).wf(),
        ensures
            final(self).wf(),
            ({
                let i = find_first_index(old(self)@.tasks, task_id_pred(task_id_value));
                match r {
                    Ok(u) => {
                        &&& i >= 0
                        &&& allowed_transition(old(self)@.tasks[i].status, new_status)
                        &&& final(self)@ == (RepositoryView {
                            tasks: old(self)@.tasks.update(
                                i,
                                (TaskView { status: new_status, ..old(self)@.tasks[i] }),
                            ),
                            ..old(self)@
                        })
                    },
                    Err(e) => {
                        &&& final(self)@ == old(self)@
                        &&& if i == -1 {
                            e == DomainError::TaskNotFound(task_id_value)
                        } else {
                            !allowed_transition(old(self)@.tasks[i].status, new_status) && e
                                == DomainError::InvalidStatusTransition
                        }
                    },
                }
            }),
    {
        let n = self.tasks.len();
        let mut k: usize = 0;
        while k < n
            invariant
                n == self.tasks.len(),
                k <= n,
                *self == *old(self),
                old(self).wf(),
                forall|j: int| 0 <= j < k ==> !task_id_pred(task_id_value)(self@.tasks[j]),
            decreases n - k,
        {
            if self.tasks[k].id == task_id_value {
                proof {
                    lemma_find_first_index(old(self)@.tasks, task_id_pred(task_id_value));
                    assert(task_id_pred(task_id_value)(self@.tasks[k as int]));
                    assert(find_first_index(old(self)@.tasks, task_id_pred(task_id_value))
                        == k as int);
                }
                if !can_transition(self.tasks[k].status, new_status) {
                    return Err(DomainError::InvalidStatusTransition);
                }
                let ghost pre = self@;
                self.tasks[k].status = new_status;
                proof {
                    assert(self.tasks.deep_view() =~= pre.tasks.update(
                        k as int,
                        (TaskView { status: new_status, ..pre.tasks[k as int] }),
                    ));
                    assert(self@ =~= (RepositoryView {
                        tasks: pre.tasks.update(
                            k as int,
                            (TaskView { status: new_status, ..pre.tasks[k as int] }),
                        ),
                        ..pre
                    }));
                    assert(tasks_wf(self@.tasks, self@.next_task_id)) by {
                        let cur = self@.tasks;
                        assert forall|a: int, b: int| 0 <= a < b < cur.len() implies cur[a].id
                            != cur[b].id by {
                            assert(pre.tasks[a].id != pre.tasks[b].id);
                        }
                    }
                }
                return Ok(());
            }
            k = k + 1;
        }
        proof {
            lemma_find_first_index(old(self)@.tasks, task_id_pred(task_id_value));
        }
        Err(DomainError::TaskNotFound(task_id_value))
    }

    /// Flips the task with the given id to `done` or back to
    /// `in_progress`, losing any finer prior status; a silent no-op when
    /// the id is unknown, as a storage update of zero rows would be.
    pub fn set_done(&mut self, task_id_value: i32, done: bool)
        requires
            old(self).wf(),
        ensures
            final(self).wf(),
            ({
                let i = find_first_index(old(self)@.tasks, task_id_pred(task_id_value));
                let st = if done {
                    TaskStatus::Done
                } else {
                    TaskStatus::InProgress
                };
                if i >= 0 {
                    final(self)@ == (RepositoryView {
                        tasks: old(self)@.tasks.update(
                            i,
                            (TaskView { status: st, ..old(self)@.tasks[i] }),
                        ),
                        ..old(self)@
                    })
                } else {
                    final(self)@ == old(self)@
                }
            }),
    {
        let new_status = if done {
            TaskStatus::Done
        } else {
            TaskStatus::InProgress
        };
        let n = self.tasks.len();
        let mut k: usize = 0;
        while k < n
            invariant
                n == self.tasks.len(),
                k <= n,
                *self == *old(self),
                old(self).wf(),
                new_status == (if done {
                    TaskStatus::Done
                } else {
                    TaskStatus::InProgress
                }),
                forall|j: int| 0 <= j < k ==> !task_id_pred(task_id_value)(self@.tasks[j]),
            decreases n - k,
        {
            if self.tasks[k].id == task_id_value {
                proof {
                    lemma_find_first_index(old(self)@.tasks, task_id_pred(task_id_value));
                    assert(task_id_pred(task_id_value)(self@.tasks[k as int]));
                    assert(find_first_index(old(self)@.tasks, task_id_pred(task_id_value))
                        == k as int);
                }
                let ghost pre = self@;
                self.tasks[k].status = new_status;
                proof {
                    assert(self.tasks.deep_view() =~= pre.tasks.update(
                        k as int,
                        (TaskView { status: new_status, ..pre.tasks[k as int] }),
                    ));
                    assert(self@ =~= (RepositoryView {
                        tasks: pre.tasks.update(
                            k as int,
                            (TaskView { status: new_status, ..pre.tasks[k as int] }),
                        ),
                        ..pre
                    }));
                    assert(tasks_wf(self@.tasks, self@.next_task_id)) by {
                        let cur = self@.tasks;
                        assert forall|a: int, b: int| 0 <= a < b < cur.len() implies cur[a].id
                            != cur[b].id by {
                            assert(pre.tasks[a].id != pre.tasks[b].id);
                        }
                    }
                }
                return ;
            }
            k = k + 1;
        }
        proof {
            lemma_find_first_index(old(self)@.tasks, task_id_pred(task_id_value));
        }
    }

    /// Replaces the recall bookkeeping of the task with the given id
    /// wholesale: the last-recall timestamp and the whole schedule. A
    /// silent no-op when the id is unknown, as a storage update of zero
    /// rows would be.
    pub fn update_recall_info(
        &mut self,
        task_id_value: i32,
        new_last_recall: Option<i64>,
        new_recalls: Option<Vec<i64>>,
    )
        requires
            old(self).wf(),
        ensures
            final(self).wf(),
            ({
                let i = find_first_index(old(self)@.tasks, task_id_pred(task_id_value));
                if i >= 0 {
                    final(self)@ == (RepositoryView {
                        tasks: old(self)@.tasks.update(
                            i,
                            (TaskView {
                                last_recall: new_last_recall,
                                recalls: opt_i64s_view(new_recalls),
                                ..old(self)@.tasks[i]
                            }),
                        ),
                        ..old(self)@
                    })
                } else {
                    final(self)@ == old(self)@
                }
            }),
    {
        let n = self.tasks.len();
        let mut k: usize = 0;
        while k < n
            invariant
                n == self.tasks.len(),
                k <= n,
                *self == *old(self),
                old(self).wf(),
                forall|j: int| 0 <= j < k ==> !task_id_pred(task_id_value)(self@.tasks[j]),
            decreases n - k,
        {
            if self.tasks[k].id == task_id_value {
                proof {
                    lemma_find_first_index(old(self)@.tasks, task_id_pred(task_id_value));
                    assert(task_id_pred(task_id_value)(self@.tasks[k as int]));
                    assert(find_first_index(old(self)@.tasks, task_id_pred(task_id_value))
                        == k as int);
                }
                let ghost pre = self@;
                self.tasks[k].last_recall = new_last_recall;
                self.tasks[k].recalls = new_recalls;
                proof {
                    assert(self.tasks.deep_view() =~= pre.tasks.update(
                        k as int,
                        (TaskView {
                            last_recall: new_last_recall,
                            recalls: opt_i64s_view(new_recalls),
                            ..pre.tasks[k as int]
                        }),
                    ));
                    assert(self@ =~= (RepositoryView {
                        tasks: pre.tasks.update(
                            k as int,
                            (TaskView {
                                last_recall: new_last_recall,
                                recalls: opt_i64s_view(new_recalls),
                                ..pre.tasks[k as int]
                            }),
                        ),
                        ..pre
                    }));
                    assert(tasks_wf(self@.tasks, self@.next_task_id)) by {
                        let cur = self@.tasks;
                        assert forall|a: int, b: int| 0 <= a < b < cur.len() implies cur[a].id
                            != cur[b].id by {
                            assert(pre.tasks[a].id != pre.tasks[b].id);
                        }
                    }
                }
                return ;
            }
            k = k + 1;
        }
        proof {
            lemma_find_first_index(old(self)@.tasks, task_id_pred(task_id_value));
        }
    }

    /// Rewrites the editable fields of the task with the given id from
    /// `data`; a `None` field is left unchanged. Returns the stored row,
    /// or `TaskNotFound`.
    pub fn update_task(&mut self, task_id_value: i32, data: UpdateTaskData) -> (r: Result<
        Task,
        DomainError,
    >)
        requires
            old(self).wf(),
        ensures
            final(self).wf(),
            ({
                let i = find_first_index(old(self)@.tasks, task_id_pred(task_id_value));
                match r {
                    Ok(t) => {
                        &&& i >= 0
                        &&& t@ == (TaskView {
                            title: if data@.title is Some {
                                data@.title.unwrap()
                            } else {
                                old(self)@.tasks[i].title
                            },
                            description: if data@.description is Some {
                                data@.description
                            } else {
                                old(self)@.tasks[i].description
                            },
                            due_date: if data@.due_date is Some {
                                data@.due_date
                            } else {
                                old(self)@.tasks[i].due_date
                            },
                            ..old(self)@.tasks[i]
                        })
                        &&& final(self)@ == (RepositoryView {
                            tasks: old(self)@.tasks.update(i, t@),
                            ..old(self)@
                        })
                    },
                    Err(e) => {
                        &&& i == -1
                        &&& e == DomainError::TaskNotFound(task_id_value)
                        &&& final(self)@ == old(self)@
                    },
                }
            }),
    {
        let n = self.tasks.len();
        let mut k: usize = 0;
        while k < n
            invariant
                n == self.tasks.len(),
                k <= n,
                *self == *old(self),
                old(self).wf(),
                forall|j: int| 0 <= j < k ==> !task_id_pred(task_id_value)(self@.tasks[j]),
            decreases n - k,
        {
            if self.tasks[k].id == task_id_value {
                proof {
                    lemma_find_first_index(old(self)@.tasks, task_id_pred(task_id_value));
                    assert(task_id_pred(task_id_value)(self@.tasks[k as int]));
                    assert(find_first_index(old(self)@.tasks, task_id_pred(task_id_value))
                        == k as int);
                }
                let stored = &self.tasks[k];
                let t = Task {
                    id: stored.id,
                    title: match &data.title {
                        Some(s) => s.clone(),
                        None => stored.title.clone(),
                    },
                    description: match &data.description {
                        Some(s) => Some(s.clone()),
                        None => clone_opt_string(&stored.description),
                    },
                    status: stored.status,
                    kind: stored.kind,
                    parent_id: stored.parent_id,
                    category_id: stored.category_id,
                    due_date: match &data.due_date {
                        Some(s) => Some(s.clone()),
                        None => clone_opt_string(&stored.due_date),
                    },
                    last_recall: stored.last_recall,
                    recalls: clone_opt_i64s(&stored.recalls),
                    created_at: stored.created_at,
                    updated_at: stored.updated_at,
                };
                let out = t.clone();
                let ghost pre = self@;
                self.tasks.remove(k);
                self.tasks.insert(k, t);
                proof {
                    assert(self.tasks.deep_view() =~= pre.tasks.update(k as int, out@));
                    assert(self@ =~= (RepositoryView {
                        tasks: pre.tasks.update(k as int, out@),
                        ..pre
                    }));
                    assert(tasks_wf(self@.tasks, self@.next_task_id)) by {
                        let cur = self@.tasks;
                        assert forall|a: int, b: int| 0 <= a < b < cur.len() implies cur[a].id
                            != cur[b].id by {
                            assert(pre.tasks[a].id != pre.tasks[b].id);
                        }
                    }
                }
                return Ok(out);
            }
            k = k + 1;
        }
        proof {
            lemma_find_first_index(old(self)@.tasks, task_id_pred(task_id_value));
        }
        Err(DomainError::TaskNotFound(task_id_value))
    }

    /// The stored categories, for the category services' scans.
    pub(crate) fn categories_ref(&self) -> (r: &Vec<Category>)
        ensures
            r.deep_view() == self@.categories,
    {
        &self.categories
    }

    /// The stored folders, for the folder services' scans.
    pub(crate) fn folders_ref(&self) -> (r: &Vec<Folder>)
        ensures
            r.deep_view() == self@.folders,
    {
        &self.folders
    }

    /// Whether a folder with the given id exists.
    pub fn folder_exists(&self, folder_id: i32) -> (r: bool)
        ensures
            r == folder_id_exists(self@.folders, folder_id),
    {
        let n = self.folders.len();
        let mut k: usize = 0;
        while k < n
            invariant
                n == self.folders.len(),
                k <= n,
                forall|j: int| 0 <= j < k ==> self@.folders[j].id != Some(folder_id),
            decreases n - k,
        {
            let hit = match self.folders[k].id {
                Some(x) => x == folder_id,
                None => false,
            };
            if hit {
                proof {
                    assert(self@.folders[k as int].id == Some(folder_id));
                }
                return true;
            }
            k = k + 1;
        }
        false
    }

    /// Inserts a prepared folder and returns the stored row, identity
    /// assigned; `ParentFolderNotFound` when the parent reference does
    /// not resolve, as the store's referential constraint would refuse
    /// it.
    pub fn add_folder(&mut self, new_folder: &Folder) -> (r: Result<Folder, DomainError>)
        requires
            old(self).wf(),
            old(self)@.next_folder_id < i32::MAX,
        ensures
            final(self).wf(),
            ({
                let pid = new_folder@.parent_id;
                match r {
                    Ok(f) => {
                        &&& (pid is Some ==> folder_id_exists(old(self)@.folders, pid.unwrap()))
                        &&& f@ == (FolderView {
                            id: Some(old(self)@.next_folder_id),
                            ..new_folder@
                        })
                        &&& final(self)@ == (RepositoryView {
                            folders: old(self)@.folders.push(f@),
                            next_folder_id: (old(self)@.next_folder_id + 1) as i32,
                            ..old(self)@
                        })
                    },
                    Err(e) => {
                        &&& pid is Some
                        &&& !folder_id_exists(old(self)@.folders, pid.unwrap())
                        &&& e == DomainError::ParentFolderNotFound(pid.unwrap())
                        &&& final(self)@ == old(self)@
                    },
                }
            }),
    {
        match new_folder.parent_id {
            Some(p) => {
                if !self.folder_exists(p) {
                    return Err(DomainError::ParentFolderNotFound(p));
                }
            },
            None => {},
        }
        let id = self.next_folder_id;
        let f = Folder {
            id: Some(id),
            name: new_folder.name.clone(),
            path: new_folder.path.clone(),
            created_at: new_folder.created_at,
            last_accessed: new_folder.last_accessed,
            parent_id: new_folder.parent_id,
        };
        proof {
            assert(f@ =~= (FolderView { id: Some(id), ..new_folder@ }));
        }
        let stored = f.clone();
        self.folders.push(stored);
        self.next_folder_id = id + 1;
        proof {
            let ghost pre = old(self)@;
            assert(self.folders.deep_view() =~= pre.folders.push(f@));
            assert(self@ =~= (RepositoryView {
                folders: pre.folders.push(f@),
                next_folder_id: (pre.next_folder_id + 1) as i32,
                ..pre
            }));
            assert(folders_wf(self@.folders, self@.next_folder_id)) by {
                let cur = self@.folders;
                assert forall|i: int|
                    0 <= i < cur.len() && (#[trigger] cur[i].parent_id) is Some implies
                    folder_id_exists(cur, cur[i].parent_id.unwrap())
                        && cur[i].parent_id.unwrap() < cur[i].id.unwrap() by {
                    let p = cur[i].parent_id.unwrap();
                    if i < pre.folders.len() {
                        assert(folder_id_exists(pre.folders, p));
                        let j = choose|j: int|
                            0 <= j < pre.folders.len() && pre.folders[j].id == Some(p);
                        assert(cur[j].id == Some(p));
                    } else {
                        assert(cur[i] == f@);
                        assert(folder_id_exists(pre.folders, p));
                        let j = choose|j: int|
                            0 <= j < pre.folders.len() && pre.folders[j].id == Some(p);
                        assert(cur[j].id == Some(p));
                        assert(1 <= pre.folders[j].id.unwrap() < pre.next_folder_id);
                    }
                }
            }
        }
        Ok(f)
    }

    /// All folders, in creation order.
    pub fn get_all_folders(&self) -> (r: Vec<Folder>)
        ensures
            r.deep_view() == self@.folders,
    {
        let n = self.folders.len();
        let mut out: Vec<Folder> = Vec::new();
        let mut k: usize = 0;
        while k < n
            invariant
                n == self.folders.len(),
                k <= n,
                out.deep_view() =~= self@.folders.subrange(0, k as int),
            decreases n - k,
        {
            let ghost pre_out = out.deep_view();
            out.push(self.folders[k].clone());
            proof {
                assert(out.deep_view() =~= pre_out.push(self@.folders[k as int]));
                assert(out.deep_view() =~= self@.folders.subrange(0, k + 1));
            }
            k = k + 1;
        }
        proof {
            assert(out.deep_view() =~= self@.folders);
        }
        out
    }

    /// The folder with the given id, if any.
    pub fn get_folder_by_id(&self, folder_id: i32) -> (r: Option<Folder>)
        ensures
            ({
                let i = find_first_index(self@.folders, folder_id_pred(folder_id));
                match r {
                    Some(f) => i >= 0 && f@ == self@.folders[i],
                    None => i == -1,
                }
            }),
    {
        let n = self.folders.len();
        let mut k: usize = 0;
        while k < n
            invariant
                n == self.folders.len(),
                k <= n,
                forall|j: int| 0 <= j < k ==> !folder_id_pred(folder_id)(self@.folders[j]),
            decreases n - k,
        {
            let hit = match self.folders[k].id {
                Some(x) => x == folder_id,
                None => false,
            };
            if hit {
                proof {
                    lemma_find_first_index(self@.folders, folder_id_pred(folder_id));
                    assert(folder_id_pred(folder_id)(self@.folders[k as int]));
                    assert(find_first_index(self@.folders, folder_id_pred(folder_id)) == k as int);
                }
                return Some(self.folders[k].clone());
            }
            proof {
                assert(!folder_id_pred(folder_id)(self@.folders[k as int]));
            }
            k = k + 1;
        }
        proof {
            lemma_find_first_index(self@.folders, folder_id_pred(folder_id));
        }
        None
    }

    /// Inserts a prepared file and returns the stored row, identity
    /// assigned.
    pub fn add_file(&mut self, new_file: &NewFile) -> (r: File)
        requires
            old(self).wf(),
            old(self)@.next_file_id < i32::MAX,
        ensures
            final(self).wf(),
            r@ == file_from_new(new_file@, old(self)@.next_file_id),
            final(self)@ == (RepositoryView {
                files: old(self)@.files.push(r@),
                next_file_id: (old(self)@.next_file_id + 1) as i32,
                ..old(self)@
            }),
    {
        let id = self.next_file_id;
        let f = File {
            id: Some(id),
            name: new_file.name.clone(),
            is_favorite: new_file.is_favorite,
            file_type: new_file.file_type.clone(),
            link: clone_opt_string(&new_file.link),
            content: clone_bytes(&new_file.content),
            folder_id: new_file.folder_id,
            created_at: new_file.created_at,
            updated_at: new_file.updated_at,
        };
        proof {
            assert(f@ =~= file_from_new(new_file@, id));
        }
        let stored = f.clone();
        self.files.push(stored);
        self.next_file_id = id + 1;
        proof {
            assert(self.files.deep_view() =~= old(self).files.deep_view().push(f@));
            assert(self@ =~= (RepositoryView {
                files: old(self)@.files.push(f@),
                next_file_id: (old(self)@.next_file_id + 1) as i32,
                ..old(self)@
            }));
        }
        f
    }

    /// All files, in creation order.
    pub fn get_all_files(&self) -> (r: Vec<File>)
        ensures
            r.deep_view() == self@.files,
    {
        let n = self.files.len();
        let mut out: Vec<File> = Vec::new();
        let mut k: usize = 0;
        while k < n
            invariant
                n == self.files.len(),
                k <= n,
                out.deep_view() =~= self@.files.subrange(0, k as int),
            decreases n - k,
        {
            let ghost pre_out = out.deep_view();
            out.push(self.files[k].clone());
            proof {
                assert(out.deep_view() =~= pre_out.push(self@.files[k as int]));
                assert(out.deep_view() =~= self@.files.subrange(0, k + 1));
            }
            k = k + 1;
        }
        proof {
            assert(out.deep_view() =~= self@.files);
        }
        out
    }

    /// The file with the given id, if any.
    pub fn get_file_by_id(&self, file_id: i32) -> (r: Option<File>)
        ensures
            ({
                let i = find_first_index(self@.files, file_id_pred(file_id));
                match r {
                    Some(f) => i >= 0 && f@ == self@.files[i],
                    None => i == -1,
                }
            }),
    {
        let n = self.files.len();
        let mut k: usize = 0;
        while k < n
            invariant
                n == self.files.len(),
                k <= n,
                forall|j: int| 0 <= j < k ==> !file_id_pred(file_id)(self@.files[j]),
            decreases n - k,
        {
            let hit = match self.files[k].id {
                Some(x) => x == file_id,
                None => false,
            };
            if hit {
                proof {
                    lemma_find_first_index(self@.files, file_id_pred(file_id));
                    assert(file_id_pred(file_id)(self@.files[k as int]));
                    assert(find_first_index(self@.files, file_id_pred(file_id)) == k as int);
                }
                return Some(self.files[k].clone());
            }
            proof {
                assert(!file_id_pred(file_id)(self@.files[k as int]));
            }
            k = k + 1;
        }
        proof {
            lemma_find_first_index(self@.files, file_id_pred(file_id));
        }
        None
    }

    /// The files attached to the given folder, in creation order.
    pub fn get_files_by_folder_id(&self, folder_id_param: i32) -> (r: Vec<File>)
        ensures
            r.deep_view() == self@.files.filter(file_folder_pred(folder_id_param)),
    {
        let n = self.files.len();
        let mut out: Vec<File> = Vec::new();
        let mut k: usize = 0;
        while k < n
            invariant
                n == self.files.len(),
                k <= n,
                out.deep_view() =~= self@.files.subrange(0, k as int).filter(
                    file_folder_pred(folder_id_param),
                ),
            decreases n - k,
        {
            let ghost p = file_folder_pred(folder_id_param);
            let ghost pre_out = out.deep_view();
            let keep = self.files[k].folder_id == folder_id_param;
            proof {
                reveal(Seq::filter);
                assert(keep == p(self@.files[k as int]));
                let sub1 = self@.files.subrange(0, k + 1);
                assert(sub1.drop_last() =~= self@.files.subrange(0, k as int));
                assert(sub1.drop_last() == self@.files.subrange(0, k as int));
                assert(sub1.last() == self@.files[k as int]);
            }
            if keep {
                out.push(self.files[k].clone());
                proof {
                    reveal(Seq::filter);
                    assert(out.deep_view() =~= pre_out.push(self@.files[k as int]));
                    assert(out.deep_view() =~= self@.files.subrange(0, k + 1).filter(p));
                }
            } else {
                proof {
                    reveal(Seq::filter);
                    assert(out.deep_view() =~= self@.files.subrange(0, k + 1).filter(p));
                }
            }
            k = k + 1;
        }
        proof {
            assert(self@.files.subrange(0, n as int) =~= self@.files);
        }
        out
    }

    /// Rewrites every field but the identity of the file with the given
    /// id from `updated_file`, and returns `updated_file` back; a silent
    /// no-op when the id is unknown, as a storage update of zero rows
    /// would be.
    pub fn update_file(&mut self, file_id: i32, updated_file: File) -> (r: File)
        requires
            old(self).wf(),
        ensures
            final(self).wf(),
            r@ == updated_file@,
            ({
                let i = find_first_index(old(self)@.files, file_id_pred(file_id));
                if i >= 0 {
                    final(self)@ == (RepositoryView {
                        files: old(self)@.files.update(
                            i,
                            (FileView { id: old(self)@.files[i].id, ..updated_file@ }),
                        ),
                        ..old(self)@
                    })
                } else {
                    final(self)@ == old(self)@
                }
            }),
    {
        let n = self.files.len();
        let mut k: usize = 0;
        while k < n
            invariant
                n == self.files.len(),
                k <= n,
                *self == *old(self),
                old(self).wf(),
                forall|j: int| 0 <= j < k ==> !file_id_pred(file_id)(self@.files[j]),
            decreases n - k,
        {
            let hit = match self.files[k].id {
                Some(x) => x == file_id,
                None => false,
            };
            if hit {
                proof {
                    lemma_find_first_index(old(self)@.files, file_id_pred(file_id));
                    assert(file_id_pred(file_id)(self@.files[k as int]));
                    assert(find_first_index(old(self)@.files, file_id_pred(file_id)) == k as int);
                }
                let f = File {
                    id: self.files[k].id,
                    name: updated_file.name.clone(),
                    is_favorite: updated_file.is_favorite,
                    file_type: updated_file.file_type.clone(),
                    link: clone_opt_string(&updated_file.link),
                    content: clone_bytes(&updated_file.content),
                    folder_id: updated_file.folder_id,
                    created_at: updated_file.created_at,
                    updated_at: updated_file.updated_at,
                };
                let ghost pre = self@;
                self.files.remove(k);
                self.files.insert(k, f);
                proof {
                    assert(self.files.deep_view() =~= pre.files.update(
                        k as int,
                        (FileView { id: pre.files[k as int].id, ..updated_file@ }),
                    ));
                    assert(self@ =~= (RepositoryView {
                        files: pre.files.update(
                            k as int,
                            (FileView { id: pre.files[k as int].id, ..updated_file@ }),
                        ),
                        ..pre
                    }));
                    assert(files_wf(self@.files, self@.next_file_id)) by {
                        let cur = self@.files;
                        assert forall|a: int, b: int| 0 <= a < b < cur.len() implies cur[a].id
                            != cur[b].id by {
                            assert(pre.files[a].id != pre.files[b].id);
                        }
                    }
                }
                return updated_file;
            }
            proof {
                assert(!file_id_pred(file_id)(self@.files[k as int]));
            }
            k = k + 1;
        }
        proof {
            lemma_find_first_index(old(self)@.files, file_id_pred(file_id));
        }
        updated_file
    }

    /// Removes the file with the given id; the number of rows removed
    /// (0 or 1).
    pub fn delete_file(&mut self, file_id: i32) -> (r: usize)
        requires
            old(self).wf(),
        ensures
            final(self).wf(),
            ({
                let i = find_first_index(old(self)@.files, file_id_pred(file_id));
                if i >= 0 {
                    r == 1 && final(self)@ == (RepositoryView {
                        files: old(self)@.files.remove(i),
                        ..old(self)@
                    })
                } else {
                    r == 0 && final(self)@ == old(self)@
                }
            }),
    {
        let n = self.files.len();
        let mut k: usize = 0;
        while k < n
            invariant
                n == self.files.len(),
                k <= n,
                *self == *old(self),
                old(self).wf(),
                forall|j: int| 0 <= j < k ==> !file_id_pred(file_id)(self@.files[j]),
            decreases n - k,
        {
            let hit = match self.files[k].id {
                Some(x) => x == file_id,
                None => false,
            };
            if hit {
                proof {
                    lemma_find_first_index(old(self)@.files, file_id_pred(file_id));
                    assert(file_id_pred(file_id)(self@.files[k as int]));
                    assert(find_first_index(old(self)@.files, file_id_pred(file_id)) == k as int);
                }
                let ghost pre = self@;
                self.files.remove(k);
                proof {
                    assert(self.files.deep_view() =~= pre.files.remove(k as int));
                    assert(self@ =~= (RepositoryView { files: pre.files.remove(k as int), ..pre }));
                    assert(files_wf(self@.files, self@.next_file_id)) by {
                        let cur = self@.files;
                        assert forall|a: int, b: int| 0 <= a < b < cur.len() implies cur[a].id
                            != cur[b].id by {
                            let a0 = if a < k as int {
                                a
                            } else {
                                a + 1
                            };
                            let b0 = if b < k as int {
                                b
                            } else {
                                b + 1
                            };
                            assert(cur[a] == pre.files[a0]);
                            assert(cur[b] == pre.files[b0]);
                        }
                    }
                }
                return 1;
            }
            proof {
                assert(!file_id_pred(file_id)(self@.files[k as int]));
            }
            k = k + 1;
        }
        proof {
            lemma_find_first_index(old(self)@.files, file_id_pred(file_id));
        }
        0
    }
}

} // verus!
