//! The database registry: which databases the application knows, which
//! one is active, and the last directory browsed.
//!
//! The registry lives in a configuration file on disk; reading and
//! writing that file, creating database files and connecting to them
//! happen outside the library, which works on the in-memory
//! [`AppConfig`] value and leaves persistence to the caller. Registered
//! names are unique; lookups take the first match, which under that
//! invariant is the only one.

use vstd::prelude::*;
use vstd::string::*;
use crate::casing::str_eq;
use crate::errors::ConfigError;
use crate::repository::{find_first_index, lemma_find_first_index};

verus! {

/// Metadata of one registered database.
#[derive(Debug, PartialEq)]
pub struct DatabaseMetadata {
    pub name: String,
    pub path: String,
    pub created_at: String,
    pub last_accessed: Option<String>,
    pub is_active: bool,
}

/// The mathematical view of a database entry.
#[verifier::ext_equal]
pub ghost struct DatabaseMetadataView {
    pub name: Seq<char>,
    pub path: Seq<char>,
    pub created_at: Seq<char>,
    pub last_accessed: Option<Seq<char>>,
    pub is_active: bool,
}

impl View for DatabaseMetadata {
    type V = DatabaseMetadataView;

    open spec fn view(&self) -> DatabaseMetadataView {
        DatabaseMetadataView {
            name: self.name@,
            path: self.path@,
            created_at: self.created_at@,
            last_accessed: crate::models::opt_str_view(self.last_accessed),
            is_active: self.is_active,
        }
    }
}

impl DeepView for DatabaseMetadata {
    type V = DatabaseMetadataView;

    open spec fn deep_view(&self) -> DatabaseMetadataView {
        self.view()
    }
}

impl Clone for DatabaseMetadata {
    fn clone(&self) -> (r: Self)
        ensures
            r@ == self@,
    {
        DatabaseMetadata {
            name: self.name.clone(),
            path: self.path.clone(),
            created_at: self.created_at.clone(),
            last_accessed: crate::models::clone_opt_string(&self.last_accessed),
            is_active: self.is_active,
        }
    }
}

/// The application configuration.
#[derive(Debug, PartialEq)]
pub struct AppConfig {
    pub active_db: Option<String>,
    pub databases: Vec<DatabaseMetadata>,
    pub last_directory: Option<String>,
}

/// The mathematical view of the configuration.
#[verifier::ext_equal]
pub ghost struct AppConfigView {
    pub active_db: Option<Seq<char>>,
    pub databases: Seq<DatabaseMetadataView>,
    pub last_directory: Option<Seq<char>>,
}

impl View for AppConfig {
    type V = AppConfigView;

    open spec fn view(&self) -> AppConfigView {
        AppConfigView {
            active_db: crate::models::opt_str_view(self.active_db),
            databases: self.databases.deep_view(),
            last_directory: crate::models::opt_str_view(self.last_directory),
        }
    }
}

impl Default for AppConfig {
    /// An empty registry: no databases, none active, no directory.
    fn default() -> (r: Self)
        ensures
            r@.active_db is None,
            r@.databases =~= Seq::<DatabaseMetadataView>::empty(),
            r@.last_directory is None,
    {
        AppConfig { active_db: None, databases: Vec::new(), last_directory: None }
    }
}

/// Registered database names are unique.
pub open spec fn config_wf(c: AppConfigView) -> bool {
    forall|i: int, j: int|
        0 <= i < j < c.databases.len() ==> #[trigger] c.databases[i].name
            != #[trigger] c.databases[j].name
}

/// Matches the entry with the given name.
pub open spec fn db_name_pred(name: Seq<char>) -> spec_fn(DatabaseMetadataView) -> bool {
    |d: DatabaseMetadataView| d.name == name
}

/// Whether some entry already points at the given path.
pub open spec fn db_path_taken(dbs: Seq<DatabaseMetadataView>, path: Seq<char>) -> bool {
    exists|j: int| 0 <= j < dbs.len() && dbs[j].path == path
}

/// The index of the entry with the given name, or -1.
fn find_db_index(databases: &Vec<DatabaseMetadata>, name: &str) -> (r: Option<usize>)
    ensures
        ({
            let i = find_first_index(databases.deep_view(), db_name_pred(name@));
            match r {
                Some(k) => k < databases.len() && k as int == i,
                None => i == -1,
            }
        }),
{
    let n = databases.len();
    let mut k: usize = 0;
    while k < n
        invariant
            n == databases.len(),
            k <= n,
            forall|j: int| 0 <= j < k ==> !db_name_pred(name@)(databases.deep_view()[j]),
        decreases n - k,
    {
        if str_eq(databases[k].name.as_str(), name) {
            proof {
                lemma_find_first_index(databases.deep_view(), db_name_pred(name@));
                assert(db_name_pred(name@)(databases.deep_view()[k as int]));
                assert(find_first_index(databases.deep_view(), db_name_pred(name@)) == k as int);
            }
            return Some(k);
        }
        k = k + 1;
    }
    proof {
        lemma_find_first_index(databases.deep_view(), db_name_pred(name@));
    }
    None
}

/// Whether some entry already points at the given path.
fn db_path_exists(databases: &Vec<DatabaseMetadata>, path: &str) -> (r: bool)
    ensures
        r == db_path_taken(databases.deep_view(), path@),
{
    let n = databases.len();
    let mut k: usize = 0;
    while k < n
        invariant
            n == databases.len(),
            k <= n,
            forall|j: int| 0 <= j < k ==> databases.deep_view()[j].path != path@,
        decreases n - k,
    {
        if str_eq(databases[k].path.as_str(), path) {
            proof {
                assert(databases.deep_view()[k as int].path == path@);
            }
            return true;
        }
        k = k + 1;
    }
    false
}

/// One discovered database folded into the registry: skipped when its
/// path is already registered, otherwise stored under its name,
/// replacing an entry that already carries it.
pub open spec fn merge_one(
    dbs: Seq<DatabaseMetadataView>,
    d: DatabaseMetadataView,
) -> Seq<DatabaseMetadataView> {
    if db_path_taken(dbs, d.path) {
        dbs
    } else {
        let i = find_first_index(dbs, db_name_pred(d.name));
        if i == -1 {
            dbs.push(d)
        } else {
            dbs.update(i, d)
        }
    }
}

/// The discovered databases folded into the registry, first to last.
pub open spec fn merge_dbs(
    dbs: Seq<DatabaseMetadataView>,
    found: Seq<DatabaseMetadataView>,
) -> Seq<DatabaseMetadataView>
    decreases found.len(),
{
    if found.len() == 0 {
        dbs
    } else {
        merge_dbs(merge_one(dbs, found[0]), found.drop_first())
    }
}

/// Folding one entry in keeps names unique.
proof fn lemma_merge_one_wf(dbs: Seq<DatabaseMetadataView>, d: DatabaseMetadataView)
    requires
        forall|i: int, j: int|
            0 <= i < j < dbs.len() ==> #[trigger] dbs[i].name != #[trigger] dbs[j].name,
    ensures
        forall|i: int, j: int|
            0 <= i < j < merge_one(dbs, d).len() ==> #[trigger] merge_one(dbs, d)[i].name
                != #[trigger] merge_one(dbs, d)[j].name,
{
    let out = merge_one(dbs, d);
    if !db_path_taken(dbs, d.path) {
        lemma_find_first_index(dbs, db_name_pred(d.name));
        let i = find_first_index(dbs, db_name_pred(d.name));
        if i == -1 {
            assert forall|a: int, b: int| 0 <= a < b < out.len() implies out[a].name
                != out[b].name by {
                if b < dbs.len() {
                    assert(dbs[a].name != dbs[b].name);
                } else {
                    assert(!db_name_pred(d.name)(dbs[a]));
                }
            }
        } else {
            assert(db_name_pred(d.name)(dbs[i]));
            assert forall|a: int, b: int| 0 <= a < b < out.len() implies out[a].name
                != out[b].name by {
                assert(dbs[a].name != dbs[b].name);
            }
        }
    }
}

/// The manager of the database registry. Reading and writing the
/// configuration file, and everything else that touches the machine,
/// happens outside the library; these operations compute what the
/// caller then persists.
pub struct ConfigManager;

impl ConfigManager {
    /// The configuration file's path under the given configuration
    /// directory.
    pub fn get_config_path(config_dir: &str) -> (r: String)
        ensures
            r@ == config_dir@ + "/config.json"@,
    {
        config_dir.to_owned().concat("/config.json")
    }

    /// The entry the registry marks active, if the active name resolves.
    pub fn get_active_db(config: &AppConfig) -> (r: Option<DatabaseMetadata>)
        ensures
            ({
                match config@.active_db {
                    None => r is None,
                    Some(nm) => {
                        let i = find_first_index(config@.databases, db_name_pred(nm));
                        match r {
                            Some(d) => i >= 0 && d@ == config@.databases[i],
                            None => i == -1,
                        }
                    },
                }
            }),
    {
        match &config.active_db {
            None => None,
            Some(nm) => match find_db_index(&config.databases, nm.as_str()) {
                Some(k) => Some(config.databases[k].clone()),
                None => None,
            },
        }
    }

    /// Marks the named database active and stamps its last access;
    /// `DatabaseNotFound` when the name is not registered.
    pub fn set_active_db(config: &mut AppConfig, name: &str, accessed_at: &str) -> (r: Result<
        (),
        ConfigError,
    >)
        requires
            config_wf(old(config)@),
        ensures
            config_wf(final(config)@),
            ({
                let i = find_first_index(old(config)@.databases, db_name_pred(name@));
                match r {
                    Ok(u) => i >= 0 && final(config)@ == (AppConfigView {
                        active_db: Some(name@),
                        databases: old(config)@.databases.update(
                            i,
                            (DatabaseMetadataView {
                                last_accessed: Some(accessed_at@),
                                ..old(config)@.databases[i]
                            }),
                        ),
                        ..old(config)@
                    }),
                    Err(e) => i == -1 && e == ConfigError::DatabaseNotFound && final(config)@
                        == old(config)@,
                }
            }),
    {
        match find_db_index(&config.databases, name) {
            None => Err(ConfigError::DatabaseNotFound),
            Some(k) => {
                let ghost pre = config@;
                let entry = &config.databases[k];
                let updated = DatabaseMetadata {
                    name: entry.name.clone(),
                    path: entry.path.clone(),
                    created_at: entry.created_at.clone(),
                    last_accessed: Some(accessed_at.to_owned()),
                    is_active: entry.is_active,
                };
                config.databases.remove(k);
                config.databases.insert(k, updated);
                config.active_db = Some(name.to_owned());
                proof {
                    assert(config.databases.deep_view() =~= pre.databases.update(
                        k as int,
                        (DatabaseMetadataView {
                            last_accessed: Some(accessed_at@),
                            ..pre.databases[k as int]
                        }),
                    ));
                    assert(config@ =~= (AppConfigView {
                        active_db: Some(name@),
                        databases: pre.databases.update(
                            k as int,
                            (DatabaseMetadataView {
                                last_accessed: Some(accessed_at@),
                                ..pre.databases[k as int]
                            }),
                        ),
                        ..pre
                    }));
                    assert(config_wf(config@)) by {
                        assert forall|a: int, b: int|
                            0 <= a < b < config@.databases.len() implies #[trigger] config@
                            .databases[a].name != #[trigger] config@.databases[b].name by {
                            assert(pre.databases[a].name != pre.databases[b].name);
                        }
                    }
                }
                Ok(())
            },
        }
    }

    /// Registers a database under a fresh name, making it active when
    /// none is; `DatabaseExists` when the name is already registered.
    /// The caller creates the database file itself and stamps the
    /// creation time.
    pub fn add_database(config: &mut AppConfig, name: &str, db_path: &str, created_at: &str) -> (r:
        Result<(), ConfigError>)
        requires
            config_wf(old(config)@),
        ensures
            config_wf(final(config)@),
            ({
                let i = find_first_index(old(config)@.databases, db_name_pred(name@));
                match r {
                    Ok(u) => i == -1 && final(config)@ == (AppConfigView {
                        active_db: if old(config)@.active_db is None {
                            Some(name@)
                        } else {
                            old(config)@.active_db
                        },
                        databases: old(config)@.databases.push(
                            (DatabaseMetadataView {
                                name: name@,
                                path: db_path@,
                                created_at: created_at@,
                                last_accessed: None,
                                is_active: false,
                            }),
                        ),
                        ..old(config)@
                    }),
                    Err(e) => i >= 0 && e == ConfigError::DatabaseExists && final(config)@ == old(
                        config,
                    )@,
                }
            }),
    {
        match find_db_index(&config.databases, name) {
            Some(_) => Err(ConfigError::DatabaseExists),
            None => {
                let ghost pre = config@;
                proof {
                    lemma_find_first_index(pre.databases, db_name_pred(name@));
                }
                let entry = DatabaseMetadata {
                    name: name.to_owned(),
                    path: db_path.to_owned(),
                    created_at: created_at.to_owned(),
                    last_accessed: None,
                    is_active: false,
                };
                config.databases.push(entry);
                if config.active_db.is_none() {
                    config.active_db = Some(name.to_owned());
                    proof {
                        assert(config.databases.deep_view() =~= pre.databases.push(
                            (DatabaseMetadataView {
                                name: name@,
                                path: db_path@,
                                created_at: created_at@,
                                last_accessed: None,
                                is_active: false,
                            }),
                        ));
                        assert(config@ =~= (AppConfigView {
                            active_db: Some(name@),
                            databases: config.databases.deep_view(),
                            ..pre
                        }));
                    }
                } else {
                    proof {
                        assert(config.databases.deep_view() =~= pre.databases.push(
                            (DatabaseMetadataView {
                                name: name@,
                                path: db_path@,
                                created_at: created_at@,
                                last_accessed: None,
                                is_active: false,
                            }),
                        ));
                        assert(config@ =~= (AppConfigView {
                            databases: config.databases.deep_view(),
                            ..pre
                        }));
                    }
                }
                proof {
                    assert(config_wf(config@)) by {
                        let cur = config@.databases;
                        assert forall|a: int, b: int| 0 <= a < b < cur.len() implies #[trigger] cur[a].name != #[trigger] cur[b].name by {
                            if b < pre.databases.len() {
                                assert(pre.databases[a].name != pre.databases[b].name);
                            } else {
                                assert(!db_name_pred(name@)(pre.databases[a]));
                            }
                        }
                    }
                }
                Ok(())
            },
        }
    }

    /// Unregisters the named database and returns its entry so the
    /// caller can remove the file; when it was active, the first
    /// remaining entry (if any) becomes active. `DatabaseNotFound` when
    /// the name is not registered.
    pub fn remove_database(config: &mut AppConfig, name: &str) -> (r: Result<
        DatabaseMetadata,
        ConfigError,
    >)
        requires
            config_wf(old(config)@),
        ensures
            config_wf(final(config)@),
            ({
                let i = find_first_index(old(config)@.databases, db_name_pred(name@));
                match r {
                    Ok(d) => {
                        &&& i >= 0
                        &&& d@ == old(config)@.databases[i]
                        &&& final(config)@.databases == old(config)@.databases.remove(i)
                        &&& final(config)@.last_directory == old(config)@.last_directory
                        &&& final(config)@.active_db == if old(config)@.active_db == Some(name@) {
                            if final(config)@.databases.len() == 0 {
                                None
                            } else {
                                Some(final(config)@.databases[0].name)
                            }
                        } else {
                            old(config)@.active_db
                        }
                    },
                    Err(e) => i == -1 && e == ConfigError::DatabaseNotFound && final(config)@
                        == old(config)@,
                }
            }),
    {
        match find_db_index(&config.databases, name) {
            None => Err(ConfigError::DatabaseNotFound),
            Some(k) => {
                let ghost pre = config@;
                let removed = config.databases.remove(k);
                proof {
                    assert(config.databases.deep_view() =~= pre.databases.remove(k as int));
                }
                let was_active = match &config.active_db {
                    Some(a) => str_eq(a.as_str(), name),
                    None => false,
                };
                if was_active {
                    if config.databases.len() == 0 {
                        config.active_db = None;
                    } else {
                        config.active_db = Some(config.databases[0].name.clone());
                    }
                }
                proof {
                    assert(config_wf(config@)) by {
                        let cur = config@.databases;
                        assert forall|a: int, b: int| 0 <= a < b < cur.len() implies #[trigger] cur[a].name != #[trigger] cur[b].name by {
                            let a0 = if a < k as int {
                                a
                            } else {
                                a + 1
                            };
                            let b0 = if b < k as int {
                                b
                            } else {
                                b + 1
                            };
                            assert(cur[a] == pre.databases[a0]);
                            assert(cur[b] == pre.databases[b0]);
                        }
                    }
                }
                Ok(removed)
            },
        }
    }

    /// Remembers the last directory browsed.
    pub fn set_last_directory(config: &mut AppConfig, path: String)
        ensures
            final(config)@ == (AppConfigView { last_directory: Some(path@), ..old(config)@ }),
    {
        let ghost pre = config@;
        config.last_directory = Some(path);
        proof {
            assert(config@ =~= (AppConfigView { last_directory: config@.last_directory, ..pre }));
        }
    }

    /// The last directory browsed, if any.
    pub fn get_last_directory(config: &AppConfig) -> (r: Option<String>)
        ensures
            crate::models::opt_str_view(r) == config@.last_directory,
    {
        crate::models::clone_opt_string(&config.last_directory)
    }

    /// Every registered entry, its active flag set from the registry's
    /// active name.
    pub fn list_databases(config: &AppConfig) -> (r: Vec<DatabaseMetadata>)
        ensures
            r.deep_view().len() == config@.databases.len(),
            forall|i: int|
                0 <= i < config@.databases.len() ==> r.deep_view()[i]
                    == (DatabaseMetadataView {
                    is_active: config@.active_db == Some(config@.databases[i].name),
                    ..config@.databases[i]
                }),
    {
        let n = config.databases.len();
        let mut out: Vec<DatabaseMetadata> = Vec::new();
        let mut k: usize = 0;
        while k < n
            invariant
                n == config.databases.len(),
                k <= n,
                out.deep_view().len() == k,
                forall|i: int|
                    0 <= i < k ==> out.deep_view()[i] == (DatabaseMetadataView {
                        is_active: config@.active_db == Some(config@.databases[i].name),
                        ..config@.databases[i]
                    }),
            decreases n - k,
        {
            let entry = &config.databases[k];
            let active = match &config.active_db {
                Some(a) => str_eq(a.as_str(), entry.name.as_str()),
                None => false,
            };
            let ghost pre_out = out.deep_view();
            out.push(
                DatabaseMetadata {
                    name: entry.name.clone(),
                    path: entry.path.clone(),
                    created_at: entry.created_at.clone(),
                    last_accessed: crate::models::clone_opt_string(&entry.last_accessed),
                    is_active: active,
                },
            );
            proof {
                assert(out.deep_view() =~= pre_out.push(
                    (DatabaseMetadataView {
                        is_active: config@.active_db == Some(config@.databases[k as int].name),
                        ..config@.databases[k as int]
                    }),
                ));
            }
            k = k + 1;
        }
        out
    }

    /// Folds a directory scan into the registry: every discovered
    /// database whose path is not yet registered is stored under its
    /// name, replacing an entry that already carries that name. The
    /// caller scans the directory and stamps the discovery times.
    pub fn refresh_databases(config: &mut AppConfig, discovered: &Vec<DatabaseMetadata>)
        requires
            config_wf(old(config)@),
        ensures
            config_wf(final(config)@),
            final(config)@ == (AppConfigView {
                databases: merge_dbs(old(config)@.databases, discovered.deep_view()),
                ..old(config)@
            }),
    {
        let n = discovered.len();
        proof {
            let found = discovered.deep_view();
            assert(found.subrange(0, 0).len() == 0);
            assert(merge_dbs(old(config)@.databases, found.subrange(0, 0)) == old(
                config,
            )@.databases);
            assert(found.subrange(0, n as int) =~= found);
            assert(config@ =~= (AppConfigView {
                databases: merge_dbs(old(config)@.databases, found.subrange(0, 0)),
                ..old(config)@
            }));
        }
        let mut k: usize = 0;
        while k < n
            invariant
                n == discovered.len(),
                k <= n,
                config_wf(config@),
                config@ == (AppConfigView {
                    databases: merge_dbs(
                        old(config)@.databases,
                        discovered.deep_view().subrange(0, k as int),
                    ),
                    ..old(config)@
                }),
                merge_dbs(old(config)@.databases, discovered.deep_view()) == merge_dbs(
                    config@.databases,
                    discovered.deep_view().subrange(k as int, n as int),
                ),
            decreases n - k,
        {
            let ghost pre = config@;
            let ghost found = discovered.deep_view();
            let d = &discovered[k];
            if !db_path_exists(&config.databases, d.path.as_str()) {
                let entry = d.clone();
                match find_db_index(&config.databases, d.name.as_str()) {
                    None => {
                        config.databases.push(entry);
                        proof {
                            assert(config.databases.deep_view() =~= pre.databases.push(
                                found[k as int],
                            ));
                        }
                    },
                    Some(i) => {
                        config.databases.remove(i);
                        config.databases.insert(i, entry);
                        proof {
                            assert(config.databases.deep_view() =~= pre.databases.update(
                                i as int,
                                found[k as int],
                            ));
                        }
                    },
                }
            }
            proof {
                assert(config@.databases =~= merge_one(pre.databases, found[k as int]));
                lemma_merge_one_wf(pre.databases, found[k as int]);
                assert(config@ =~= (AppConfigView {
                    databases: merge_one(pre.databases, found[k as int]),
                    ..pre
                }));
                let rest_pre = found.subrange(k as int, n as int);
                let rest_post = found.subrange(k + 1, n as int);
                assert(rest_pre[0] == found[k as int]);
                assert(rest_pre.drop_first() =~= rest_post);
                assert(merge_dbs(pre.databases, rest_pre) == merge_dbs(
                    config@.databases,
                    rest_post,
                ));
                assert(found.subrange(0, k + 1).drop_last() =~= found.subrange(0, k as int));
                assert(merge_dbs(old(config)@.databases, found.subrange(0, k + 1)) == config@
                    .databases) by {
                    lemma_merge_dbs_snoc(old(config)@.databases, found, k as int);
                }
            }
            k = k + 1;
        }
        proof {
            assert(discovered.deep_view().subrange(0, n as int) =~= discovered.deep_view());
        }
    }
}

/// Folding a prefix one longer folds the next entry into the prefix's
/// result.
proof fn lemma_merge_dbs_snoc(dbs: Seq<DatabaseMetadataView>, found: Seq<DatabaseMetadataView>, k: int)
    requires
        0 <= k < found.len(),
    ensures
        merge_dbs(dbs, found.subrange(0, k + 1)) == merge_one(
            merge_dbs(dbs, found.subrange(0, k)),
            found[k],
        ),
    decreases k,
{
    let pre = found.subrange(0, k);
    let post = found.subrange(0, k + 1);
    if k == 0 {
        assert(post.len() == 1);
        assert(post[0] == found[0]);
        assert(post.drop_first() =~= Seq::<DatabaseMetadataView>::empty());
        assert(pre =~= Seq::<DatabaseMetadataView>::empty());
        assert(merge_dbs(dbs, pre) == dbs);
        assert(merge_dbs(merge_one(dbs, found[0]), post.drop_first()) == merge_one(dbs, found[0]));
    } else {
        lemma_merge_dbs_snoc(merge_one(dbs, found[0]), found.drop_first(), k - 1);
        assert(found.drop_first().subrange(0, k - 1 + 1) =~= post.drop_first());
        assert(found.drop_first().subrange(0, k - 1) =~= pre.drop_first());
        assert(found.drop_first()[k - 1] == found[k]);
        assert(pre[0] == found[0]);
        assert(post[0] == found[0]);
        assert(merge_dbs(dbs, post) == merge_dbs(merge_one(dbs, found[0]), post.drop_first()));
        assert(merge_dbs(dbs, pre) == merge_dbs(merge_one(dbs, found[0]), pre.drop_first()));
    }
}

} // verus!
