//! The persistence plan: the ordered insert statements that a run executes.
//!
//! For each repository aggregate, its repository row comes first and its
//! package rows follow in package order, so executing the plan front to back
//! keeps the foreign-key ordering. Planning fails, and yields no statements
//! at all, as soon as a repository with packages has no configuration entry.

use vstd::prelude::*;

use crate::config::{RepoConfig, RepoConfigView, get_root_url, lookup_root_url};
use crate::package::{Database, DatabaseView, PackageView};
use crate::row::{PackageRow, RowView, make_row, row_of};

verus! {

/// One insert statement of the plan.
pub enum Statement {
    InsertRepo { name: String },
    InsertPackage { row: PackageRow },
}

/// Mathematical image of a `Statement`.
#[verifier::ext_equal]
pub ghost enum StatementView {
    InsertRepo { name: Seq<char> },
    InsertPackage { row: RowView },
}

impl View for Statement {
    type V = StatementView;

    open spec fn view(&self) -> StatementView {
        match self {
            Statement::InsertRepo { name } => StatementView::InsertRepo { name: name@ },
            Statement::InsertPackage { row } => StatementView::InsertPackage { row: row@ },
        }
    }
}

impl DeepView for Statement {
    type V = StatementView;

    open spec fn deep_view(&self) -> StatementView {
        self.view()
    }
}

/// Planning fails on this aggregate: it has package rows to insert, but no
/// configuration entry gives its repository a root URL.
pub open spec fn db_missing_config(db: DatabaseView, cfgs: Seq<RepoConfigView>) -> bool {
    db.packages.len() > 0 && lookup_root_url(cfgs, db.name) is None
}

/// Every aggregate that needs a root URL has one: planning succeeds.
pub open spec fn plan_ok(dbs: Seq<DatabaseView>, cfgs: Seq<RepoConfigView>) -> bool {
    forall|i: int| 0 <= i < dbs.len() ==> !db_missing_config(#[trigger] dbs[i], cfgs)
}

/// The root URL planning uses for `db`; empty when none is configured, in
/// which case it is never used (the aggregate has no packages, or planning
/// has already failed).
pub open spec fn root_of(db: DatabaseView, cfgs: Seq<RepoConfigView>) -> Seq<char> {
    match lookup_root_url(cfgs, db.name) {
        Some(u) => u,
        None => Seq::<char>::empty(),
    }
}

/// The statements planned for one aggregate: its repository row, then one
/// package row per package, in package order.
pub open spec fn db_plan(db: DatabaseView, cfgs: Seq<RepoConfigView>) -> Seq<StatementView> {
    seq![StatementView::InsertRepo { name: db.name }] + db.packages.map_values(
        |p: PackageView| StatementView::InsertPackage { row: row_of(p, root_of(db, cfgs), db.name) },
    )
}

/// The statements planned for the whole run: each aggregate's statements in
/// aggregate order.
pub open spec fn plan_spec(dbs: Seq<DatabaseView>, cfgs: Seq<RepoConfigView>) -> Seq<StatementView>
    decreases dbs.len(),
{
    if dbs.len() == 0 {
        Seq::<StatementView>::empty()
    } else {
        plan_spec(dbs.drop_last(), cfgs) + db_plan(dbs.last(), cfgs)
    }
}

/// Why a run cannot be planned.
#[derive(Debug)]
pub enum IngestError {
    /// A repository with packages to persist has no configuration entry of
    /// its name; the field names the repository.
    MissingRepoConfig { repo: String },
}

/// Plan the whole run over the populated aggregates and the configuration.
///
/// On success the returned statements are exactly `plan_spec`: repository
/// rows before their package rows, in order. Planning fails if and only if
/// some aggregate with packages lacks a configuration entry, names the first
/// such repository, and then yields no statements at all.
pub fn build_plan(databases: &Vec<Database>, configs: &Vec<RepoConfig>) -> (r: Result<
    Vec<Statement>,
    IngestError,
>)
    ensures
        match r {
            Ok(stmts) => {
                &&& plan_ok(databases.deep_view(), configs.deep_view())
                &&& stmts.deep_view() == plan_spec(databases.deep_view(), configs.deep_view())
            },
            Err(e) => {
                &&& !plan_ok(databases.deep_view(), configs.deep_view())
                &&& match e {
                    IngestError::MissingRepoConfig { repo } => exists|i: int|
                        0 <= i < databases.deep_view().len()
                            && #[trigger] db_missing_config(
                            databases.deep_view()[i],
                            configs.deep_view(),
                        ) && repo@ == databases.deep_view()[i].name && (forall|j: int|
                            0 <= j < i ==> !db_missing_config(
                                databases.deep_view()[j],
                                configs.deep_view(),
                            )),
                }
            },
        },
{
    let ghost dbs: Seq<DatabaseView> = databases.deep_view();
    let ghost cfgs: Seq<RepoConfigView> = configs.deep_view();
    let mut stmts: Vec<Statement> = Vec::new();
    proof {
        assert(dbs.take(0) =~= Seq::<DatabaseView>::empty());
        assert(stmts.deep_view() =~= plan_spec(dbs.take(0), cfgs));
    }
    let n = databases.len();
    for i in 0..n
        invariant
            n == databases.len(),
            dbs == databases.deep_view(),
            cfgs == configs.deep_view(),
            stmts.deep_view() == plan_spec(dbs.take(i as int), cfgs),
            forall|j: int| 0 <= j < i ==> !db_missing_config(#[trigger] dbs[j], cfgs),
    {
        let db = &databases[i];
        let ghost before_db = stmts.deep_view();
        stmts.push(Statement::InsertRepo { name: db.name.clone() });
        proof {
            assert(stmts.deep_view() =~= before_db.push(
                StatementView::InsertRepo { name: dbs[i as int].name },
            ));
        }
        if db.packages.len() > 0 {
            let root = match get_root_url(configs, &db.name) {
                Some(u) => u,
                None => {
                    proof {
                        assert(db_missing_config(dbs[i as int], cfgs));
                    }
                    return Err(IngestError::MissingRepoConfig { repo: db.name.clone() });
                },
            };
            let ghost row_fn = |p: PackageView| StatementView::InsertPackage {
                row: row_of(p, root_of(dbs[i as int], cfgs), dbs[i as int].name),
            };
            let ghost pkgs: Seq<PackageView> = dbs[i as int].packages;
            proof {
                assert(root@ == root_of(dbs[i as int], cfgs));
                assert(pkgs.take(0) =~= Seq::<PackageView>::empty());
                assert(stmts.deep_view() =~= before_db.push(
                    StatementView::InsertRepo { name: dbs[i as int].name },
                ) + pkgs.take(0).map_values(row_fn));
            }
            let m = db.packages.len();
            for j in 0..m
                invariant
                    n == databases.len(),
                    dbs == databases.deep_view(),
                    cfgs == configs.deep_view(),
                    0 <= i < n,
                    db == &databases[i as int],
                    m == db.packages.len(),
                    pkgs == dbs[i as int].packages,
                    root@ == root_of(dbs[i as int], cfgs),
                    row_fn == (|p: PackageView| StatementView::InsertPackage {
                        row: row_of(p, root_of(dbs[i as int], cfgs), dbs[i as int].name),
                    }),
                    before_db == plan_spec(dbs.take(i as int), cfgs),
                    stmts.deep_view() == before_db.push(
                        StatementView::InsertRepo { name: dbs[i as int].name },
                    ) + pkgs.take(j as int).map_values(row_fn),
            {
                let ghost before_pkg = stmts.deep_view();
                let row = make_row(&db.packages[j], &root, &db.name);
                stmts.push(Statement::InsertPackage { row });
                proof {
                    assert(db.packages[j as int]@ == pkgs[j as int]);
                    assert(stmts.deep_view() =~= before_pkg.push(row_fn(pkgs[j as int])));
                    assert(pkgs.take(j + 1).map_values(row_fn) =~= pkgs.take(j as int).map_values(
                        row_fn,
                    ).push(row_fn(pkgs[j as int])));
                    assert(stmts.deep_view() =~= before_db.push(
                        StatementView::InsertRepo { name: dbs[i as int].name },
                    ) + pkgs.take(j + 1).map_values(row_fn));
                }
            }
            proof {
                assert(pkgs.take(m as int) =~= pkgs);
            }
        } else {
            proof {
                assert(dbs[i as int].packages.map_values(
                    |p: PackageView| StatementView::InsertPackage {
                        row: row_of(p, root_of(dbs[i as int], cfgs), dbs[i as int].name),
                    },
                ) =~= Seq::<StatementView>::empty());
            }
        }
        proof {
            assert(dbs.take(i + 1).drop_last() =~= dbs.take(i as int));
            assert(dbs.take(i + 1).last() == dbs[i as int]);
            assert(plan_spec(dbs.take(i + 1), cfgs) == plan_spec(dbs.take(i as int), cfgs)
                + db_plan(dbs[i as int], cfgs));
            assert(stmts.deep_view() =~= plan_spec(dbs.take(i + 1), cfgs));
        }
    }
    proof {
        assert(dbs.take(n as int) =~= dbs);
    }
    Ok(stmts)
}

/// If any repository with packages lacks its configuration entry, no plan
/// exists: nothing — in particular no package row of that repository — is
/// ever handed to execution.
pub proof fn lemma_missing_config_fails(
    dbs: Seq<DatabaseView>,
    cfgs: Seq<RepoConfigView>,
    i: int,
)
    requires
        0 <= i < dbs.len(),
        db_missing_config(dbs[i], cfgs),
    ensures
        !plan_ok(dbs, cfgs),
{
}

/// The statements planned for one aggregate, spelt out: its repository row,
/// then exactly one package row per package, in package order — no package
/// lost, none duplicated.
pub proof fn lemma_db_plan_shape(db: DatabaseView, cfgs: Seq<RepoConfigView>)
    ensures
        db_plan(db, cfgs).len() == 1 + db.packages.len(),
        db_plan(db, cfgs)[0] == (StatementView::InsertRepo { name: db.name }),
        forall|j: int|
            0 <= j < db.packages.len() ==> db_plan(db, cfgs)[j + 1]
                == (StatementView::InsertPackage {
                row: row_of(#[trigger] db.packages[j], root_of(db, cfgs), db.name),
            }),
{
}

/// Executing a successful plan front to back respects the foreign-key
/// ordering: every package row is preceded by the row of its repository.
pub proof fn lemma_plan_repo_row_first(dbs: Seq<DatabaseView>, cfgs: Seq<RepoConfigView>)
    ensures
        forall|k: int|
            0 <= k < plan_spec(dbs, cfgs).len() ==> match #[trigger] plan_spec(dbs, cfgs)[k] {
                StatementView::InsertPackage { row } => exists|k2: int|
                    0 <= k2 < k && #[trigger] plan_spec(dbs, cfgs)[k2]
                        == (StatementView::InsertRepo { name: row.repo }),
                StatementView::InsertRepo { .. } => true,
            },
    decreases dbs.len(),
{
    if dbs.len() > 0 {
        let prefix = dbs.drop_last();
        let last = dbs.last();
        lemma_plan_repo_row_first(prefix, cfgs);
        let whole = plan_spec(dbs, cfgs);
        let front = plan_spec(prefix, cfgs);
        let tail = db_plan(last, cfgs);
        assert forall|k: int| 0 <= k < whole.len() implies match #[trigger] whole[k] {
            StatementView::InsertPackage { row } => exists|k2: int|
                0 <= k2 < k && #[trigger] whole[k2] == (StatementView::InsertRepo {
                    name: row.repo,
                }),
            StatementView::InsertRepo { .. } => true,
        } by {
            if k < front.len() {
                assert(whole[k] == front[k]);
                match front[k] {
                    StatementView::InsertPackage { row } => {
                        let k2 = choose|k2: int|
                            0 <= k2 < k && #[trigger] front[k2] == (StatementView::InsertRepo {
                                name: row.repo,
                            });
                        assert(whole[k2] == front[k2]);
                    },
                    StatementView::InsertRepo { .. } => {},
                }
            } else {
                assert(whole[k] == tail[k - front.len()]);
                if k - front.len() == 0 {
                    assert(tail[0] == StatementView::InsertRepo { name: last.name });
                } else {
                    let j = k - front.len() - 1;
                    assert(tail[j + 1] == last.packages.map_values(
                        |p: PackageView| StatementView::InsertPackage {
                            row: row_of(p, root_of(last, cfgs), last.name),
                        },
                    )[j]);
                    assert(whole[front.len() as int] == tail[0]);
                    assert(tail[0] == StatementView::InsertRepo { name: last.name });
                }
            }
        }
    }
}

/// Every package row of a successful plan carries the download URL derived
/// from its repository's configured root URL and its package's file name.
pub proof fn lemma_plan_download_urls(dbs: Seq<DatabaseView>, cfgs: Seq<RepoConfigView>)
    requires
        plan_ok(dbs, cfgs),
    ensures
        forall|k: int|
            0 <= k < plan_spec(dbs, cfgs).len() ==> match #[trigger] plan_spec(dbs, cfgs)[k] {
                StatementView::InsertPackage { row } => match lookup_root_url(cfgs, row.repo) {
                    Some(root) => row.download_url == root + row.file_name,
                    None => false,
                },
                StatementView::InsertRepo { .. } => true,
            },
    decreases dbs.len(),
{
    if dbs.len() > 0 {
        let prefix = dbs.drop_last();
        let last = dbs.last();
        assert(forall|i: int| 0 <= i < prefix.len() ==> #[trigger] prefix[i] == dbs[i]);
        assert(plan_ok(prefix, cfgs));
        lemma_plan_download_urls(prefix, cfgs);
        assert(last == dbs[dbs.len() - 1]);
        assert(!db_missing_config(last, cfgs));
        let whole = plan_spec(dbs, cfgs);
        let front = plan_spec(prefix, cfgs);
        let tail = db_plan(last, cfgs);
        assert forall|k: int| 0 <= k < whole.len() implies match #[trigger] whole[k] {
            StatementView::InsertPackage { row } => match lookup_root_url(cfgs, row.repo) {
                Some(root) => row.download_url == root + row.file_name,
                None => false,
            },
            StatementView::InsertRepo { .. } => true,
        } by {
            if k < front.len() {
                assert(whole[k] == front[k]);
            } else {
                assert(whole[k] == tail[k - front.len()]);
                if k - front.len() == 0 {
                    assert(tail[0] == StatementView::InsertRepo { name: last.name });
                } else {
                    let j = k - front.len() - 1;
                    assert(tail[j + 1] == last.packages.map_values(
                        |p: PackageView| StatementView::InsertPackage {
                            row: row_of(p, root_of(last, cfgs), last.name),
                        },
                    )[j]);
                    assert(last.packages.len() > 0);
                    assert(lookup_root_url(cfgs, last.name) is Some);
                }
            }
        }
    }
}

} // verus!
