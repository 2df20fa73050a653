//! Repository scanner: turn the entries found under the package root into
//! repository aggregates, skipping the fixed sentinel entries.

use vstd::prelude::*;

use crate::package::{Database, DatabaseView, PackageView};

verus! {

/// The sentinel entries that live beside the repository directories under the
/// package root and are never repositories themselves.
pub open spec fn is_sentinel(name: Seq<char>) -> bool {
    ||| name == "starttime"@
    ||| name == "endtime"@
    ||| name == ".gitkeep"@
    ||| name == "aur.json"@
}

/// Executable sentinel test; decides exactly `is_sentinel`.
pub fn name_is_sentinel(name: &String) -> (r: bool)
    ensures
        r == is_sentinel(name@),
{
    let s1 = "starttime".to_owned();
    let s2 = "endtime".to_owned();
    let s3 = ".gitkeep".to_owned();
    let s4 = "aur.json".to_owned();
    *name == s1 || *name == s2 || *name == s3 || *name == s4
}

/// The empty aggregate that the scanner makes for a surviving entry `name`.
pub open spec fn db_of_name(name: Seq<char>) -> DatabaseView {
    DatabaseView { name, packages: Seq::<PackageView>::empty() }
}

/// What scanning a sequence of entry names yields: the names in order, the
/// sentinels dropped, each survivor as an empty aggregate.
pub open spec fn scan_spec(names: Seq<Seq<char>>) -> Seq<DatabaseView>
    decreases names.len(),
{
    if names.len() == 0 {
        Seq::<DatabaseView>::empty()
    } else if is_sentinel(names.last()) {
        scan_spec(names.drop_last())
    } else {
        scan_spec(names.drop_last()).push(db_of_name(names.last()))
    }
}

/// Scan the entries found immediately under the package root: one empty
/// aggregate per non-sentinel entry, in enumeration order.
pub fn scan_repositories(entries: Vec<String>) -> (dbs: Vec<Database>)
    ensures
        dbs.deep_view() == scan_spec(entries.deep_view()),
{
    let ghost names: Seq<Seq<char>> = entries.deep_view();
    let mut dbs: Vec<Database> = Vec::new();
    proof {
        assert(names.take(0) =~= Seq::<Seq<char>>::empty());
        assert(dbs.deep_view() =~= scan_spec(names.take(0)));
    }
    let n = entries.len();
    for i in 0..n
        invariant
            n == entries.len(),
            names == entries.deep_view(),
            dbs.deep_view() == scan_spec(names.take(i as int)),
    {
        let ghost prev = dbs.deep_view();
        if !name_is_sentinel(&entries[i]) {
            let db = Database::new(entries[i].clone());
            dbs.push(db);
            proof {
                assert(dbs.deep_view() =~= prev.push(db_of_name(names[i as int])));
            }
        }
        proof {
            assert(names.take(i + 1).drop_last() =~= names.take(i as int));
            assert(names.take(i + 1).last() == names[i as int]);
        }
    }
    proof {
        assert(names.take(n as int) =~= names);
    }
    dbs
}

/// No sentinel entry yields an aggregate: every scanned name is non-sentinel,
/// whatever the entries were.
pub proof fn lemma_scan_excludes_sentinels(names: Seq<Seq<char>>)
    ensures
        forall|i: int|
            0 <= i < scan_spec(names).len() ==> !is_sentinel(#[trigger] scan_spec(names)[i].name),
    decreases names.len(),
{
    if names.len() > 0 {
        let prefix = names.drop_last();
        lemma_scan_excludes_sentinels(prefix);
        if !is_sentinel(names.last()) {
            let s = scan_spec(prefix).push(db_of_name(names.last()));
            assert(scan_spec(names) == s);
            assert forall|i: int| 0 <= i < s.len() implies !is_sentinel(#[trigger] s[i].name) by {
                if i < scan_spec(prefix).len() {
                    assert(s[i] == scan_spec(prefix)[i]);
                } else {
                    assert(s[i] == db_of_name(names.last()));
                }
            }
        }
    }
}

/// How often the scanner's output names a repository `name`.
pub open spec fn count_named(dbs: Seq<DatabaseView>, name: Seq<char>) -> nat
    decreases dbs.len(),
{
    if dbs.len() == 0 {
        0
    } else {
        count_named(dbs.drop_last(), name) + (if dbs.last().name == name {
            1nat
        } else {
            0nat
        })
    }
}

/// A name that occurs in no entry yields no aggregate.
pub proof fn lemma_scan_absent_name(names: Seq<Seq<char>>, name: Seq<char>)
    requires
        forall|i: int| 0 <= i < names.len() ==> #[trigger] names[i] != name,
    ensures
        count_named(scan_spec(names), name) == 0,
    decreases names.len(),
{
    if names.len() > 0 {
        let prefix = names.drop_last();
        assert(names.last() == names[names.len() - 1]);
        assert(forall|i: int| 0 <= i < prefix.len() ==> #[trigger] prefix[i] == names[i]);
        lemma_scan_absent_name(prefix, name);
        if !is_sentinel(names.last()) {
            let s = scan_spec(prefix).push(db_of_name(names.last()));
            assert(s.drop_last() =~= scan_spec(prefix));
            assert(s.last() == db_of_name(names.last()));
        }
    }
}

/// Every non-sentinel entry yields exactly one aggregate bearing its name,
/// provided the entries are pairwise distinct (directory names are).
pub proof fn lemma_scan_exactly_one(names: Seq<Seq<char>>, k: int)
    requires
        forall|i: int, j: int| 0 <= i < j < names.len() ==> names[i] != names[j],
        0 <= k < names.len(),
        !is_sentinel(names[k]),
    ensures
        count_named(scan_spec(names), names[k]) == 1,
        exists|i: int|
            0 <= i < scan_spec(names).len() && #[trigger] scan_spec(names)[i].name == names[k],
    decreases names.len(),
{
    lemma_scan_one_count(names, k);
    lemma_count_positive_exists(scan_spec(names), names[k]);
}

/// Induction behind `lemma_scan_exactly_one`: the count alone.
proof fn lemma_scan_one_count(names: Seq<Seq<char>>, k: int)
    requires
        forall|i: int, j: int| 0 <= i < j < names.len() ==> names[i] != names[j],
        0 <= k < names.len(),
        !is_sentinel(names[k]),
    ensures
        count_named(scan_spec(names), names[k]) == 1,
    decreases names.len(),
{
    let prefix = names.drop_last();
    assert(forall|i: int| 0 <= i < prefix.len() ==> #[trigger] prefix[i] == names[i]);
    assert(names.last() == names[names.len() - 1]);
    if k == names.len() - 1 {
        lemma_scan_absent_name(prefix, names[k]);
        let s = scan_spec(prefix).push(db_of_name(names.last()));
        assert(s.drop_last() =~= scan_spec(prefix));
        assert(s.last() == db_of_name(names.last()));
    } else {
        lemma_scan_one_count(prefix, k);
        assert(names.last() != names[k]);
        if !is_sentinel(names.last()) {
            let s = scan_spec(prefix).push(db_of_name(names.last()));
            assert(s.drop_last() =~= scan_spec(prefix));
            assert(s.last() == db_of_name(names.last()));
        }
    }
}

/// A counted name is borne by some aggregate: from `count_named` positive an
/// index can be produced.
proof fn lemma_count_positive_exists(dbs: Seq<DatabaseView>, name: Seq<char>)
    requires
        count_named(dbs, name) > 0,
    ensures
        exists|i: int| 0 <= i < dbs.len() && #[trigger] dbs[i].name == name,
    decreases dbs.len(),
{
    if dbs.len() > 0 {
        if dbs.last().name == name {
            assert(dbs[dbs.len() - 1].name == name);
        } else {
            lemma_count_positive_exists(dbs.drop_last(), name);
        }
    }
}

} // verus!
