//! Folder creation rules and canonical path derivation.
//!
//! A folder's path is a pure function of its ancestor chain: the root
//! (the one folder without a parent) has the sentinel path `/` and
//! contributes no segment; every other folder extends its parent's path
//! with `/` and its own name. Creation enforces the single-root rule,
//! the root's name, and case-insensitive sibling-name uniqueness.

use vstd::prelude::*;
use vstd::string::*;
use crate::casing::{eq_ignore_case, str_eq_ignore_case};
use crate::clock::now_timestamp;
use crate::errors::DomainError;
use crate::models::{Folder, FolderView};
use crate::repository::{
    find_first_index, folder_id_exists, folder_id_pred, folders_wf, lemma_find_first_index,
    Repository,
};

verus! {

/// The sentinel path of the hierarchy's root.
pub open spec fn root_path() -> Seq<char> {
    seq!['/']
}

/// `parent` extended by the segment `name`, without doubling the
/// separator after the root.
pub open spec fn join_path(parent: Seq<char>, name: Seq<char>) -> Seq<char> {
    if parent == root_path() {
        root_path() + name
    } else {
        parent + seq!['/'] + name
    }
}

/// The canonical path of the folder with the given id, derived by
/// walking the ancestor chain. Meaningful under [`folders_wf`], whose
/// strictly-earlier parent rule bounds the walk; a broken chain yields
/// the empty sequence.
pub open spec fn folder_path(folders: Seq<FolderView>, id: i32) -> Seq<char>
    decreases id,
{
    let i = find_first_index(folders, folder_id_pred(id));
    if i == -1 {
        Seq::empty()
    } else {
        let f = folders[i];
        match f.parent_id {
            None => root_path(),
            Some(p) => if 0 <= p < id {
                join_path(folder_path(folders, p), f.name)
            } else {
                Seq::empty()
            },
        }
    }
}

/// The segment names along the ancestor chain of the folder with the
/// given id, root-first; the root itself contributes none.
pub open spec fn chain_names(folders: Seq<FolderView>, id: i32) -> Seq<Seq<char>>
    decreases id,
{
    let i = find_first_index(folders, folder_id_pred(id));
    if i == -1 {
        Seq::empty()
    } else {
        let f = folders[i];
        match f.parent_id {
            None => Seq::empty(),
            Some(p) => if 0 <= p < id {
                chain_names(folders, p).push(f.name)
            } else {
                Seq::empty()
            },
        }
    }
}

/// The path spelled by a root-first list of segment names.
pub open spec fn path_from_names(names: Seq<Seq<char>>) -> Seq<char>
    decreases names.len(),
{
    if names.len() == 0 {
        root_path()
    } else {
        join_path(path_from_names(names.drop_last()), names.last())
    }
}

/// Under the store invariant, a folder's path is spelled exactly by the
/// names along its ancestor chain.
pub proof fn lemma_folder_path_from_chain(
    folders: Seq<FolderView>,
    next_id: i32,
    id: i32,
)
    requires
        folders_wf(folders, next_id),
        folder_id_exists(folders, id),
    ensures
        folder_path(folders, id) == path_from_names(chain_names(folders, id)),
    decreases id,
{
    lemma_find_first_index(folders, folder_id_pred(id));
    let i = find_first_index(folders, folder_id_pred(id));
    assert(i >= 0) by {
        if i == -1 {
            let j = choose|j: int| 0 <= j < folders.len() && folders[j].id == Some(id);
            assert(folder_id_pred(id)(folders[j]));
        }
    }
    let f = folders[i];
    assert(folder_id_pred(id)(f));
    match f.parent_id {
        None => {},
        Some(p) => {
            assert(folder_id_exists(folders, p) && p < f.id.unwrap());
            let j = choose|j: int| 0 <= j < folders.len() && folders[j].id == Some(p);
            assert(1 <= folders[j].id.unwrap());
            assert(0 <= p < id);
            lemma_folder_path_from_chain(folders, next_id, p);
            let names = chain_names(folders, p).push(f.name);
            assert(names.drop_last() =~= chain_names(folders, p));
            assert(names.last() == f.name);
        },
    }
}

/// Path derivation is a pure function of the ancestor chain: two stores
/// whose chains for a folder spell the same names derive the same path,
/// whatever else they hold.
pub proof fn lemma_path_pure_in_chain(
    folders1: Seq<FolderView>,
    next_id1: i32,
    folders2: Seq<FolderView>,
    next_id2: i32,
    id: i32,
)
    requires
        folders_wf(folders1, next_id1),
        folders_wf(folders2, next_id2),
        folder_id_exists(folders1, id),
        folder_id_exists(folders2, id),
        chain_names(folders1, id) == chain_names(folders2, id),
    ensures
        folder_path(folders1, id) == folder_path(folders2, id),
{
    lemma_folder_path_from_chain(folders1, next_id1, id);
    lemma_folder_path_from_chain(folders2, next_id2, id);
}

/// Whether some folder has no parent.
pub open spec fn rootless_exists(folders: Seq<FolderView>) -> bool {
    exists|j: int| 0 <= j < folders.len() && folders[j].parent_id is None
}

/// Whether some folder under `parent_id` already carries a
/// case-insensitively equal name.
pub open spec fn sibling_name_exists(
    folders: Seq<FolderView>,
    parent_id: Option<i32>,
    name: Seq<char>,
) -> bool {
    exists|j: int|
        0 <= j < folders.len() && folders[j].parent_id == parent_id && eq_ignore_case(
            folders[j].name,
            name,
        )
}

/// The condition under which folder creation succeeds: a rootless folder
/// needs the name "root", no existing rootless folder and no
/// case-insensitive sibling; a nested folder needs an existing parent
/// and no case-insensitive sibling.
pub open spec fn folder_create_ok(
    folders: Seq<FolderView>,
    name: Seq<char>,
    parent_id: Option<i32>,
) -> bool {
    match parent_id {
        None => !rootless_exists(folders) && eq_ignore_case(name, "root"@)
            && !sibling_name_exists(folders, None, name),
        Some(p) => !sibling_name_exists(folders, Some(p), name) && folder_id_exists(folders, p),
    }
}

/// Once any rootless folder is stored, no second rootless folder can
/// ever be created, whatever name is tried.
pub proof fn lemma_single_root(folders: Seq<FolderView>, f: FolderView, name2: Seq<char>)
    requires
        f.parent_id is None,
    ensures
        rootless_exists(folders.push(f)),
        !folder_create_ok(folders.push(f), name2, None),
{
    assert(folders.push(f)[folders.len() as int] == f);
}

/// Once a folder is stored, no sibling with a case-insensitively equal
/// name can ever be created under the same parent.
pub proof fn lemma_sibling_names_unique(folders: Seq<FolderView>, f: FolderView, name2: Seq<char>)
    requires
        eq_ignore_case(f.name, name2),
    ensures
        sibling_name_exists(folders.push(f), f.parent_id, name2),
        !folder_create_ok(folders.push(f), name2, f.parent_id),
{
    assert(folders.push(f)[folders.len() as int] == f);
}

/// The rank along which an ancestor walk descends: parent identities
/// strictly shrink under [`folders_wf`].
pub open spec fn parent_rank(parent_id: Option<i32>) -> int {
    match parent_id {
        None => 0,
        Some(p) => p + 1,
    }
}

/// `parent` extended by the segment `name`.
fn join_segments(parent: &String, name: &str) -> (r: String)
    ensures
        r@ == join_path(parent@, name@),
{
    let is_root = parent.unicode_len() == 1 && parent.as_str().get_char(0) == '/';
    proof {
        reveal_strlit("/");
        assert(is_root == (parent@ =~= root_path()));
    }
    if is_root {
        parent.clone().concat(name)
    } else {
        parent.clone().concat("/").concat(name)
    }
}

/// The canonical path under which a child of `parent_id` would live:
/// the root sentinel `/` for no parent, else the parent's own derived
/// path. Fails with `ParentFolderNotFound` when the reference does not
/// resolve.
pub fn build_path_from_parent(repo: &Repository, parent_id: Option<i32>) -> (r: Result<
    String,
    DomainError,
>)
    requires
        repo.wf(),
    ensures
        match r {
            Ok(s) => match parent_id {
                None => s@ == root_path(),
                Some(p) => folder_id_exists(repo@.folders, p) && s@ == folder_path(
                    repo@.folders,
                    p,
                ),
            },
            Err(e) => {
                &&& parent_id is Some
                &&& !folder_id_exists(repo@.folders, parent_id.unwrap())
                &&& e == DomainError::ParentFolderNotFound(parent_id.unwrap())
            },
        },
    decreases parent_rank(parent_id),
{
    match parent_id {
        None => {
            let s = "/".to_owned();
            proof {
                reveal_strlit("/");
                assert(s@ =~= root_path());
            }
            Ok(s)
        },
        Some(pid) => {
            proof {
                lemma_find_first_index(repo@.folders, folder_id_pred(pid));
            }
            match repo.get_folder_by_id(pid) {
                None => {
                    proof {
                        let ghost folders = repo@.folders;
                        if folder_id_exists(folders, pid) {
                            let j = choose|j: int|
                                0 <= j < folders.len() && folders[j].id == Some(pid);
                            assert(folder_id_pred(pid)(folders[j]));
                        }
                    }
                    Err(DomainError::ParentFolderNotFound(pid))
                },
                Some(parent_folder) => {
                    let ghost folders = repo@.folders;
                    let ghost i = find_first_index(folders, folder_id_pred(pid));
                    proof {
                        assert(parent_folder@ == folders[i]);
                        assert(folder_id_pred(pid)(folders[i]));
                        assert(folders[i].id == Some(pid));
                        assert(folder_id_exists(folders, pid)) by {
                            assert(folders[i].id == Some(pid));
                        }
                    }
                    match parent_folder.parent_id {
                        None => {
                            let s = "/".to_owned();
                            proof {
                                reveal_strlit("/");
                                assert(s@ =~= root_path());
                            }
                            Ok(s)
                        },
                        Some(gp) => {
                            proof {
                                assert(folders[i].parent_id == Some(gp));
                                assert(folder_id_exists(folders, gp) && gp
                                    < folders[i].id.unwrap());
                                let j = choose|j: int|
                                    0 <= j < folders.len() && folders[j].id == Some(gp);
                                assert(1 <= folders[j].id.unwrap());
                                assert(0 <= gp < pid);
                            }
                            let parent_path = build_path_from_parent(
                                repo,
                                parent_folder.parent_id,
                            )?;
                            let s = join_segments(&parent_path, parent_folder.name.as_str());
                            proof {
                                assert(s@ == join_path(folder_path(folders, gp), folders[i].name));
                            }
                            Ok(s)
                        },
                    }
                },
            }
        },
    }
}

/// Whether a folder under `parent_id` already carries a
/// case-insensitively equal name.
pub fn folder_name_exists(repo: &Repository, parent_id: Option<i32>, name_to_check: &str) -> (r:
    bool)
    ensures
        r == sibling_name_exists(repo@.folders, parent_id, name_to_check@),
{
    let folders = repo.folders_ref();
    let n = folders.len();
    let mut k: usize = 0;
    while k < n
        invariant
            n == folders.len(),
            k <= n,
            folders.deep_view() == repo@.folders,
            forall|j: int|
                0 <= j < k ==> !(repo@.folders[j].parent_id == parent_id && eq_ignore_case(
                    repo@.folders[j].name,
                    name_to_check@,
                )),
        decreases n - k,
    {
        let same_parent = match (&folders[k].parent_id, &parent_id) {
            (Some(a), Some(b)) => *a == *b,
            (None, None) => true,
            _ => false,
        };
        if same_parent && str_eq_ignore_case(folders[k].name.as_str(), name_to_check) {
            proof {
                assert(repo@.folders[k as int].parent_id == parent_id && eq_ignore_case(
                    repo@.folders[k as int].name,
                    name_to_check@,
                ));
            }
            return true;
        }
        k = k + 1;
    }
    false
}

/// Whether a rootless folder is already stored.
fn rootless_folder_exists(repo: &Repository) -> (r: bool)
    ensures
        r == rootless_exists(repo@.folders),
{
    let folders = repo.folders_ref();
    let n = folders.len();
    let mut k: usize = 0;
    while k < n
        invariant
            n == folders.len(),
            k <= n,
            folders.deep_view() == repo@.folders,
            forall|j: int| 0 <= j < k ==> !(repo@.folders[j].parent_id is None),
        decreases n - k,
    {
        let hit = match folders[k].parent_id {
            None => true,
            Some(_) => false,
        };
        if hit {
            proof {
                assert(repo@.folders[k as int].parent_id is None);
            }
            return true;
        }
        k = k + 1;
    }
    false
}

/// Validates and assembles a folder ready for insertion. A rootless
/// folder is refused when a rootless folder already exists (whatever the
/// new name) or when its name is not case-insensitively "root"; its path
/// is the sentinel `/`. A nested folder is refused when a sibling
/// carries a case-insensitively equal name or when the parent reference
/// does not resolve; its path extends the parent's derived path with its
/// name. The creation timestamp is read from the wall clock.
pub fn prepare_new_folder(repo: &Repository, name: String, parent_id: Option<i32>) -> (r: Result<
    Folder,
    DomainError,
>)
    requires
        repo.wf(),
    ensures
        r is Ok <==> folder_create_ok(repo@.folders, name@, parent_id),
        match r {
            Ok(f) => {
                &&& f@.id is None
                &&& f@.name == name@
                &&& f@.parent_id == parent_id
                &&& f@.last_accessed is None
                &&& f@.path == match parent_id {
                    None => root_path(),
                    Some(p) => join_path(folder_path(repo@.folders, p), name@),
                }
            },
            Err(e) => match parent_id {
                None => if rootless_exists(repo@.folders) {
                    e == DomainError::RootAlreadyExists
                } else if !eq_ignore_case(name@, "root"@) {
                    e == DomainError::InvalidRootName
                } else {
                    sibling_name_exists(repo@.folders, None, name@) && e
                        == DomainError::DuplicateSiblingName
                },
                Some(p) => if sibling_name_exists(repo@.folders, Some(p), name@) {
                    e == DomainError::DuplicateSiblingName
                } else {
                    !folder_id_exists(repo@.folders, p) && e == DomainError::ParentFolderNotFound(
                        p,
                    )
                },
            },
        },
{
    let is_rootless = match parent_id {
        None => true,
        Some(_) => false,
    };
    if is_rootless {
        if rootless_folder_exists(repo) {
            return Err(DomainError::RootAlreadyExists);
        }
        if !str_eq_ignore_case(name.as_str(), "root") {
            return Err(DomainError::InvalidRootName);
        }
    }
    if folder_name_exists(repo, parent_id, name.as_str()) {
        return Err(DomainError::DuplicateSiblingName);
    }
    let parent_path = build_path_from_parent(repo, parent_id)?;
    let full_path = match parent_id {
        None => parent_path,
        Some(_) => join_segments(&parent_path, name.as_str()),
    };
    Ok(
        Folder {
            id: None,
            name,
            path: full_path,
            created_at: now_timestamp(),
            last_accessed: None,
            parent_id,
        },
    )
}

} // verus!
