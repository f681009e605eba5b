//! The organizer's entities and the closed value sets they range over.
//!
//! Task and category kinds and statuses are closed enums rather than free
//! strings, so every dispatch over them is total. Timestamps are plain
//! seconds since the Unix epoch; textual rendering is a storage concern
//! that stays outside the library. Each entity has a mathematical view
//! used by every contract.

use vstd::prelude::*;
use crate::casing::str_eq;

verus! {

/// The task/category classification that drives all branching logic.
#[derive(Clone, Copy, Debug, PartialEq, Eq, Structural)]
pub enum Kind {
    Project,
    Study,
    Event,
}

/// A task's lifecycle status.
#[derive(Clone, Copy, Debug, PartialEq, Eq, Structural)]
pub enum TaskStatus {
    NotInitialized,
    ToDo,
    InProgress,
    Done,
    Recall,
}

/// A category's own status.
#[derive(Clone, Copy, Debug, PartialEq, Eq, Structural)]
pub enum CategoryStatus {
    Active,
    Archived,
    Completed,
    OnHold,
}

/// The textual form of a kind, as stored and exchanged with callers.
pub open spec fn kind_str(k: Kind) -> Seq<char> {
    match k {
        Kind::Project => "project"@,
        Kind::Study => "study"@,
        Kind::Event => "event"@,
    }
}

/// The kind denoted by a string, if any.
pub open spec fn parse_kind_spec(s: Seq<char>) -> Option<Kind> {
    if s == "project"@ {
        Some(Kind::Project)
    } else if s == "study"@ {
        Some(Kind::Study)
    } else if s == "event"@ {
        Some(Kind::Event)
    } else {
        None
    }
}

/// The textual form of a task status.
pub open spec fn task_status_str(s: TaskStatus) -> Seq<char> {
    match s {
        TaskStatus::NotInitialized => "not_initialized"@,
        TaskStatus::ToDo => "to_do"@,
        TaskStatus::InProgress => "in_progress"@,
        TaskStatus::Done => "done"@,
        TaskStatus::Recall => "recall"@,
    }
}

/// The task status denoted by a string, if any.
pub open spec fn parse_task_status_spec(s: Seq<char>) -> Option<TaskStatus> {
    if s == "not_initialized"@ {
        Some(TaskStatus::NotInitialized)
    } else if s == "to_do"@ {
        Some(TaskStatus::ToDo)
    } else if s == "in_progress"@ {
        Some(TaskStatus::InProgress)
    } else if s == "done"@ {
        Some(TaskStatus::Done)
    } else if s == "recall"@ {
        Some(TaskStatus::Recall)
    } else {
        None
    }
}

/// The textual form of a category status.
pub open spec fn category_status_str(s: CategoryStatus) -> Seq<char> {
    match s {
        CategoryStatus::Active => "active"@,
        CategoryStatus::Archived => "archived"@,
        CategoryStatus::Completed => "completed"@,
        CategoryStatus::OnHold => "on_hold"@,
    }
}

/// The category status denoted by a string, if any.
pub open spec fn parse_category_status_spec(s: Seq<char>) -> Option<CategoryStatus> {
    if s == "active"@ {
        Some(CategoryStatus::Active)
    } else if s == "archived"@ {
        Some(CategoryStatus::Archived)
    } else if s == "completed"@ {
        Some(CategoryStatus::Completed)
    } else if s == "on_hold"@ {
        Some(CategoryStatus::OnHold)
    } else {
        None
    }
}

impl Kind {
    /// The stored string for this kind.
    pub fn as_str(&self) -> (r: &'static str)
        ensures
            r@ == kind_str(*self),
    {
        match self {
            Kind::Project => "project",
            Kind::Study => "study",
            Kind::Event => "event",
        }
    }

    /// Parses a kind string; `None` for anything but project, study, event.
    pub fn parse(s: &str) -> (r: Option<Kind>)
        ensures
            r == parse_kind_spec(s@),
    {
        if str_eq(s, "project") {
            Some(Kind::Project)
        } else if str_eq(s, "study") {
            Some(Kind::Study)
        } else if str_eq(s, "event") {
            Some(Kind::Event)
        } else {
            None
        }
    }
}

impl TaskStatus {
    /// The stored string for this status.
    pub fn as_str(&self) -> (r: &'static str)
        ensures
            r@ == task_status_str(*self),
    {
        match self {
            TaskStatus::NotInitialized => "not_initialized",
            TaskStatus::ToDo => "to_do",
            TaskStatus::InProgress => "in_progress",
            TaskStatus::Done => "done",
            TaskStatus::Recall => "recall",
        }
    }

    /// Parses a status string; `None` for anything outside the closed set.
    pub fn parse(s: &str) -> (r: Option<TaskStatus>)
        ensures
            r == parse_task_status_spec(s@),
    {
        if str_eq(s, "not_initialized") {
            Some(TaskStatus::NotInitialized)
        } else if str_eq(s, "to_do") {
            Some(TaskStatus::ToDo)
        } else if str_eq(s, "in_progress") {
            Some(TaskStatus::InProgress)
        } else if str_eq(s, "done") {
            Some(TaskStatus::Done)
        } else if str_eq(s, "recall") {
            Some(TaskStatus::Recall)
        } else {
            None
        }
    }
}

impl CategoryStatus {
    /// The stored string for this status.
    pub fn as_str(&self) -> (r: &'static str)
        ensures
            r@ == category_status_str(*self),
    {
        match self {
            CategoryStatus::Active => "active",
            CategoryStatus::Archived => "archived",
            CategoryStatus::Completed => "completed",
            CategoryStatus::OnHold => "on_hold",
        }
    }

    /// Parses a status string; `None` for anything outside the closed set.
    pub fn parse(s: &str) -> (r: Option<CategoryStatus>)
        ensures
            r == parse_category_status_spec(s@),
    {
        if str_eq(s, "active") {
            Some(CategoryStatus::Active)
        } else if str_eq(s, "archived") {
            Some(CategoryStatus::Archived)
        } else if str_eq(s, "completed") {
            Some(CategoryStatus::Completed)
        } else if str_eq(s, "on_hold") {
            Some(CategoryStatus::OnHold)
        } else {
            None
        }
    }
}

/// The view of an optional string.
pub open spec fn opt_str_view(o: Option<String>) -> Option<Seq<char>> {
    match o {
        Some(s) => Some(s@),
        None => None,
    }
}

/// The view of an optional string slice.
pub open spec fn opt_strslice_view(o: Option<&str>) -> Option<Seq<char>> {
    match o {
        Some(s) => Some(s@),
        None => None,
    }
}

/// The view of an optional timestamp list.
pub open spec fn opt_i64s_view(o: Option<Vec<i64>>) -> Option<Seq<i64>> {
    match o {
        Some(v) => Some(v@),
        None => None,
    }
}

/// Clones an optional string.
pub fn clone_opt_string(o: &Option<String>) -> (r: Option<String>)
    ensures
        r == *o,
{
    match o {
        Some(s) => Some(s.clone()),
        None => None,
    }
}

/// Clones an optional timestamp list.
pub fn clone_opt_i64s(o: &Option<Vec<i64>>) -> (r: Option<Vec<i64>>)
    ensures
        opt_i64s_view(r) == opt_i64s_view(*o),
{
    match o {
        Some(v) => {
            let c = v.clone();
            proof {
                assert forall|i: int| 0 <= i < v@.len() implies c@[i] == v@[i] by {
                    assert(cloned::<i64>(v@[i], c@[i]));
                }
                assert(c@ =~= v@);
            }
            Some(c)
        },
        None => None,
    }
}

/// Clones a byte vector.
pub fn clone_bytes(v: &Vec<u8>) -> (r: Vec<u8>)
    ensures
        r@ == v@,
{
    let c = v.clone();
    proof {
        assert forall|i: int| 0 <= i < v@.len() implies c@[i] == v@[i] by {
            assert(cloned::<u8>(v@[i], c@[i]));
        }
        assert(c@ =~= v@);
    }
    c
}

/// A stored category.
#[derive(Debug, PartialEq)]
pub struct Category {
    pub id: i32,
    pub name: String,
    pub description: Option<String>,
    pub kind: Kind,
    pub status: CategoryStatus,
    pub created_at: i64,
    pub updated_at: Option<i64>,
}

/// The mathematical view of a category.
#[verifier::ext_equal]
pub ghost struct CategoryView {
    pub id: i32,
    pub name: Seq<char>,
    pub description: Option<Seq<char>>,
    pub kind: Kind,
    pub status: CategoryStatus,
    pub created_at: i64,
    pub updated_at: Option<i64>,
}

impl View for Category {
    type V = CategoryView;

    open spec fn view(&self) -> CategoryView {
        CategoryView {
            id: self.id,
            name: self.name@,
            description: opt_str_view(self.description),
            kind: self.kind,
            status: self.status,
            created_at: self.created_at,
            updated_at: self.updated_at,
        }
    }
}

impl DeepView for Category {
    type V = CategoryView;

    open spec fn deep_view(&self) -> CategoryView {
        self.view()
    }
}

impl Clone for Category {
    fn clone(&self) -> (r: Self)
        ensures
            r@ == self@,
    {
        Category {
            id: self.id,
            name: self.name.clone(),
            description: clone_opt_string(&self.description),
            kind: self.kind,
            status: self.status,
            created_at: self.created_at,
            updated_at: self.updated_at,
        }
    }
}

/// A category value prepared for insertion; identity is assigned on
/// creation.
#[derive(Debug, PartialEq)]
pub struct NewCategory {
    pub name: String,
    pub description: Option<String>,
    pub kind: Kind,
    pub status: CategoryStatus,
    pub created_at: i64,
    pub updated_at: Option<i64>,
}

/// The mathematical view of a category to be created.
#[verifier::ext_equal]
pub ghost struct NewCategoryView {
    pub name: Seq<char>,
    pub description: Option<Seq<char>>,
    pub kind: Kind,
    pub status: CategoryStatus,
    pub created_at: i64,
    pub updated_at: Option<i64>,
}

impl View for NewCategory {
    type V = NewCategoryView;

    open spec fn view(&self) -> NewCategoryView {
        NewCategoryView {
            name: self.name@,
            description: opt_str_view(self.description),
            kind: self.kind,
            status: self.status,
            created_at: self.created_at,
            updated_at: self.updated_at,
        }
    }
}

/// A stored task.
#[derive(Debug, PartialEq)]
pub struct Task {
    pub id: i32,
    pub title: String,
    pub description: Option<String>,
    pub status: TaskStatus,
    pub kind: Kind,
    pub parent_id: Option<i32>,
    pub category_id: Option<i32>,
    pub due_date: Option<String>,
    pub last_recall: Option<i64>,
    pub recalls: Option<Vec<i64>>,
    pub created_at: i64,
    pub updated_at: Option<i64>,
}

/// The mathematical view of a task.
#[verifier::ext_equal]
pub ghost struct TaskView {
    pub id: i32,
    pub title: Seq<char>,
    pub description: Option<Seq<char>>,
    pub status: TaskStatus,
    pub kind: Kind,
    pub parent_id: Option<i32>,
    pub category_id: Option<i32>,
    pub due_date: Option<Seq<char>>,
    pub last_recall: Option<i64>,
    pub recalls: Option<Seq<i64>>,
    pub created_at: i64,
    pub updated_at: Option<i64>,
}

impl View for Task {
    type V = TaskView;

    open spec fn view(&self) -> TaskView {
        TaskView {
            id: self.id,
            title: self.title@,
            description: opt_str_view(self.description),
            status: self.status,
            kind: self.kind,
            parent_id: self.parent_id,
            category_id: self.category_id,
            due_date: opt_str_view(self.due_date),
            last_recall: self.last_recall,
            recalls: opt_i64s_view(self.recalls),
            created_at: self.created_at,
            updated_at: self.updated_at,
        }
    }
}

impl DeepView for Task {
    type V = TaskView;

    open spec fn deep_view(&self) -> TaskView {
        self.view()
    }
}

impl Clone for Task {
    fn clone(&self) -> (r: Self)
        ensures
            r@ == self@,
    {
        let r = Task {
            id: self.id,
            title: self.title.clone(),
            description: clone_opt_string(&self.description),
            status: self.status,
            kind: self.kind,
            parent_id: self.parent_id,
            category_id: self.category_id,
            due_date: clone_opt_string(&self.due_date),
            last_recall: self.last_recall,
            recalls: clone_opt_i64s(&self.recalls),
            created_at: self.created_at,
            updated_at: self.updated_at,
        };
        proof {
            assert(r@ =~= self@);
        }
        r
    }
}

/// A task value prepared for insertion; identity is assigned on creation.
#[derive(Debug, PartialEq)]
pub struct NewTask {
    pub title: String,
    pub description: Option<String>,
    pub status: TaskStatus,
    pub kind: Kind,
    pub parent_id: Option<i32>,
    pub category_id: Option<i32>,
    pub due_date: Option<String>,
    pub last_recall: Option<i64>,
    pub recalls: Option<Vec<i64>>,
    pub created_at: i64,
    pub updated_at: Option<i64>,
}

/// The mathematical view of a task to be created.
#[verifier::ext_equal]
pub ghost struct NewTaskView {
    pub title: Seq<char>,
    pub description: Option<Seq<char>>,
    pub status: TaskStatus,
    pub kind: Kind,
    pub parent_id: Option<i32>,
    pub category_id: Option<i32>,
    pub due_date: Option<Seq<char>>,
    pub last_recall: Option<i64>,
    pub recalls: Option<Seq<i64>>,
    pub created_at: i64,
    pub updated_at: Option<i64>,
}

impl View for NewTask {
    type V = NewTaskView;

    open spec fn view(&self) -> NewTaskView {
        NewTaskView {
            title: self.title@,
            description: opt_str_view(self.description),
            status: self.status,
            kind: self.kind,
            parent_id: self.parent_id,
            category_id: self.category_id,
            due_date: opt_str_view(self.due_date),
            last_recall: self.last_recall,
            recalls: opt_i64s_view(self.recalls),
            created_at: self.created_at,
            updated_at: self.updated_at,
        }
    }
}

/// A partial update of a task's editable fields; `None` leaves a field
/// unchanged.
#[derive(Debug, PartialEq)]
pub struct UpdateTaskData {
    pub title: Option<String>,
    pub description: Option<String>,
    pub due_date: Option<String>,
}

/// The mathematical view of a partial task update.
#[verifier::ext_equal]
pub ghost struct UpdateTaskDataView {
    pub title: Option<Seq<char>>,
    pub description: Option<Seq<char>>,
    pub due_date: Option<Seq<char>>,
}

impl View for UpdateTaskData {
    type V = UpdateTaskDataView;

    open spec fn view(&self) -> UpdateTaskDataView {
        UpdateTaskDataView {
            title: opt_str_view(self.title),
            description: opt_str_view(self.description),
            due_date: opt_str_view(self.due_date),
        }
    }
}

/// A stored folder. The path is derived from the ancestor chain and
/// cached; it is never user-supplied.
#[derive(Debug, PartialEq)]
pub struct Folder {
    pub id: Option<i32>,
    pub name: String,
    pub path: String,
    pub created_at: i64,
    pub last_accessed: Option<i64>,
    pub parent_id: Option<i32>,
}

/// The mathematical view of a folder.
#[verifier::ext_equal]
pub ghost struct FolderView {
    pub id: Option<i32>,
    pub name: Seq<char>,
    pub path: Seq<char>,
    pub created_at: i64,
    pub last_accessed: Option<i64>,
    pub parent_id: Option<i32>,
}

impl View for Folder {
    type V = FolderView;

    open spec fn view(&self) -> FolderView {
        FolderView {
            id: self.id,
            name: self.name@,
            path: self.path@,
            created_at: self.created_at,
            last_accessed: self.last_accessed,
            parent_id: self.parent_id,
        }
    }
}

impl DeepView for Folder {
    type V = FolderView;

    open spec fn deep_view(&self) -> FolderView {
        self.view()
    }
}

impl Clone for Folder {
    fn clone(&self) -> (r: Self)
        ensures
            r@ == self@,
    {
        Folder {
            id: self.id,
            name: self.name.clone(),
            path: self.path.clone(),
            created_at: self.created_at,
            last_accessed: self.last_accessed,
            parent_id: self.parent_id,
        }
    }
}

/// A stored file: either external-link or binary content, attached to a
/// folder.
#[derive(Debug, PartialEq)]
pub struct File {
    pub id: Option<i32>,
    pub name: String,
    pub is_favorite: bool,
    pub file_type: String,
    pub link: Option<String>,
    pub content: Vec<u8>,
    pub folder_id: i32,
    pub created_at: i64,
    pub updated_at: Option<i64>,
}

/// The mathematical view of a file.
#[verifier::ext_equal]
pub ghost struct FileView {
    pub id: Option<i32>,
    pub name: Seq<char>,
    pub is_favorite: bool,
    pub file_type: Seq<char>,
    pub link: Option<Seq<char>>,
    pub content: Seq<u8>,
    pub folder_id: i32,
    pub created_at: i64,
    pub updated_at: Option<i64>,
}

impl View for File {
    type V = FileView;

    open spec fn view(&self) -> FileView {
        FileView {
            id: self.id,
            name: self.name@,
            is_favorite: self.is_favorite,
            file_type: self.file_type@,
            link: opt_str_view(self.link),
            content: self.content@,
            folder_id: self.folder_id,
            created_at: self.created_at,
            updated_at: self.updated_at,
        }
    }
}

impl DeepView for File {
    type V = FileView;

    open spec fn deep_view(&self) -> FileView {
        self.view()
    }
}

impl Clone for File {
    fn clone(&self) -> (r: Self)
        ensures
            r@ == self@,
    {
        let r = File {
            id: self.id,
            name: self.name.clone(),
            is_favorite: self.is_favorite,
            file_type: self.file_type.clone(),
            link: clone_opt_string(&self.link),
            content: clone_bytes(&self.content),
            folder_id: self.folder_id,
            created_at: self.created_at,
            updated_at: self.updated_at,
        };
        proof {
            assert(r@ =~= self@);
        }
        r
    }
}

/// A file value prepared for insertion; identity is assigned on creation.
#[derive(Debug, PartialEq)]
pub struct NewFile {
    pub name: String,
    pub is_favorite: bool,
    pub file_type: String,
    pub link: Option<String>,
    pub content: Vec<u8>,
    pub folder_id: i32,
    pub created_at: i64,
    pub updated_at: Option<i64>,
}

/// The mathematical view of a file to be created.
#[verifier::ext_equal]
pub ghost struct NewFileView {
    pub name: Seq<char>,
    pub is_favorite: bool,
    pub file_type: Seq<char>,
    pub link: Option<Seq<char>>,
    pub content: Seq<u8>,
    pub folder_id: i32,
    pub created_at: i64,
    pub updated_at: Option<i64>,
}

impl View for NewFile {
    type V = NewFileView;

    open spec fn view(&self) -> NewFileView {
        NewFileView {
            name: self.name@,
            is_favorite: self.is_favorite,
            file_type: self.file_type@,
            link: opt_str_view(self.link),
            content: self.content@,
            folder_id: self.folder_id,
            created_at: self.created_at,
            updated_at: self.updated_at,
        }
    }
}

} // verus!
