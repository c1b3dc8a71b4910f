use vstd::prelude::*;
use crate::config::AppConfig;
use crate::order::{
    sorted_by_name, sort_by_name, is_sorted_by_name, lemma_sorted_is_sorted,
    lemma_sort_sorted_fixed, lemma_sort_contains, unique_names, lemma_sort_unique,
};

verus! {

/// Some record of `s` carries the name `n`.
pub open spec fn has_name(s: Seq<AppConfig>, n: Seq<char>) -> bool {
    exists|i: int| 0 <= i < s.len() && #[trigger] s[i].name@ == n
}

pub open spec fn as_unmanaged(app: AppConfig) -> AppConfig {
    AppConfig { is_managed: false, ..app }
}

pub open spec fn as_managed(app: AppConfig) -> AppConfig {
    AppConfig { is_managed: true, ..app }
}

/// Every record of `s`, marked managed.
pub open spec fn all_managed(s: Seq<AppConfig>) -> Seq<AppConfig> {
    Seq::new(s.len(), |i: int| as_managed(s[i]))
}

/// `m` followed by the records of `u` whose name is not there yet (the
/// first of each name wins), those marked unmanaged.
pub open spec fn union_by_name(m: Seq<AppConfig>, u: Seq<AppConfig>) -> Seq<AppConfig>
    decreases u.len(),
{
    if u.len() == 0 {
        m
    } else {
        let r = union_by_name(m, u.drop_last());
        if has_name(r, u.last().name@) {
            r
        } else {
            r.push(as_unmanaged(u.last()))
        }
    }
}

/// The reconciled registry: the union by name of the managed records `m` and
/// the OS-discovered records `u`, managed records winning, in name order.
pub open spec fn merged(m: Seq<AppConfig>, u: Seq<AppConfig>) -> Seq<AppConfig> {
    sorted_by_name(union_by_name(m, u))
}

/// Whether some record of `apps` is named `name`.
pub fn contains_name(apps: &Vec<AppConfig>, name: &String) -> (r: bool)
    ensures
        r == has_name(apps@, name@),
{
    let mut i: usize = 0;
    while i < apps.len()
        invariant
            i <= apps@.len(),
            forall|k: int| 0 <= k < i ==> apps@[k].name@ != name@,
        decreases apps.len() - i,
    {
        if apps[i].name == *name {
            return true;
        }
        i = i + 1;
    }
    false
}

/// Merges the managed registry with the OS-discovered entries: union by
/// name, a managed record winning over a discovered one of the same name,
/// discovered-only records marked unmanaged, the whole sorted by name,
/// ignoring case.
pub fn merge(managed: Vec<AppConfig>, os_discovered: Vec<AppConfig>) -> (r: Vec<AppConfig>)
    ensures
        r@ == merged(managed@, os_discovered@),
        is_sorted_by_name(r@),
{
    let mut apps = managed;
    let mut i: usize = 0;
    while i < os_discovered.len()
        invariant
            i <= os_discovered@.len(),
            apps@ == union_by_name(managed@, os_discovered@.subrange(0, i as int)),
        decreases os_discovered.len() - i,
    {
        proof {
            assert(os_discovered@.subrange(0, i + 1).drop_last() =~= os_discovered@.subrange(
                0,
                i as int,
            ));
        }
        let candidate = &os_discovered[i];
        if !contains_name(&apps, &candidate.name) {
            let mut entry = candidate.clone();
            entry.is_managed = false;
            apps.push(entry);
        }
        i = i + 1;
    }
    proof {
        assert(os_discovered@.subrange(0, os_discovered@.len() as int) =~= os_discovered@);
        lemma_sorted_is_sorted(apps@);
    }
    sort_by_name(apps)
}

/// Marks every record of `apps` as managed.
pub fn mark_managed(apps: &mut Vec<AppConfig>)
    ensures
        final(apps)@ == all_managed(old(apps)@),
{
    let ghost start = apps@;
    let mut i: usize = 0;
    while i < apps.len()
        invariant
            apps@.len() == start.len(),
            i <= start.len(),
            forall|k: int| 0 <= k < i ==> apps@[k] == as_managed(start[k]),
            forall|k: int| i <= k < start.len() ==> apps@[k] == start[k],
        decreases start.len() - i,
    {
        let mut entry = apps[i].clone();
        entry.is_managed = true;
        apps.set(i, entry);
        i = i + 1;
    }
    assert(apps@ =~= all_managed(start));
}

/// The working registry at startup: the records of the persisted managed
/// config, marked managed, merged with the entries found in the OS
/// autostart source.
pub fn load_all_apps(managed: Vec<AppConfig>, os_discovered: Vec<AppConfig>) -> (r: Vec<AppConfig>)
    ensures
        r@ == merged(all_managed(managed@), os_discovered@),
{
    let mut managed = managed;
    mark_managed(&mut managed);
    merge(managed, os_discovered)
}

proof fn lemma_union_has_names(m: Seq<AppConfig>, u: Seq<AppConfig>, j: int)
    requires
        0 <= j < u.len(),
    ensures
        has_name(union_by_name(m, u), u[j].name@),
    decreases u.len(),
{
    let r = union_by_name(m, u.drop_last());
    if j < u.len() - 1 {
        lemma_union_has_names(m, u.drop_last(), j);
        assert(u.drop_last()[j] == u[j]);
        if !has_name(r, u.last().name@) {
            let k = choose|k: int| 0 <= k < r.len() && #[trigger] r[k].name@ == u[j].name@;
            assert(r.push(as_unmanaged(u.last()))[k].name@ == u[j].name@);
        }
    } else if !has_name(r, u.last().name@) {
        assert(r.push(as_unmanaged(u.last()))[r.len() as int].name@ == u[j].name@);
    }
}

proof fn lemma_union_known_names(m: Seq<AppConfig>, u: Seq<AppConfig>)
    requires
        forall|j: int| 0 <= j < u.len() ==> has_name(m, #[trigger] u[j].name@),
    ensures
        union_by_name(m, u) == m,
    decreases u.len(),
{
    if u.len() > 0 {
        assert forall|j: int| 0 <= j < u.drop_last().len() implies has_name(
            m,
            #[trigger] u.drop_last()[j].name@,
        ) by {
            assert(u.drop_last()[j] == u[j]);
        }
        lemma_union_known_names(m, u.drop_last());
        assert(has_name(m, u[u.len() - 1].name@));
    }
}

/// Reconciling again against the same OS-discovered entries changes nothing.
pub proof fn lemma_merge_idempotent(m: Seq<AppConfig>, u: Seq<AppConfig>)
    ensures
        merged(merged(m, u), u) == merged(m, u),
{
    let v = union_by_name(m, u);
    let r = merged(m, u);
    assert forall|j: int| 0 <= j < u.len() implies has_name(r, #[trigger] u[j].name@) by {
        lemma_union_has_names(m, u, j);
        let k = choose|k: int| 0 <= k < v.len() && #[trigger] v[k].name@ == u[j].name@;
        assert(v.contains(v[k]));
        lemma_sort_contains(v, v[k]);
        let q = choose|q: int| 0 <= q < r.len() && r[q] == v[k];
        assert(r[q].name@ == u[j].name@);
    }
    lemma_union_known_names(r, u);
    lemma_sorted_is_sorted(v);
    lemma_sort_sorted_fixed(r);
}

proof fn lemma_union_origin(m: Seq<AppConfig>, u: Seq<AppConfig>, y: AppConfig)
    requires
        union_by_name(m, u).contains(y),
    ensures
        m.contains(y) || (!has_name(m, y.name@) && !y.is_managed && exists|j: int|
            0 <= j < u.len() && #[trigger] as_unmanaged(u[j]) == y),
    decreases u.len(),
{
    if u.len() > 0 {
        let d = u.drop_last();
        let r = union_by_name(m, d);
        if has_name(r, u.last().name@) {
            lemma_union_origin(m, d, y);
            if !m.contains(y) {
                let j = choose|j: int| 0 <= j < d.len() && #[trigger] as_unmanaged(d[j]) == y;
                assert(as_unmanaged(u[j]) == y);
            }
        } else {
            let k = choose|k: int| 0 <= k < r.push(as_unmanaged(u.last())).len() && r.push(
                as_unmanaged(u.last()),
            )[k] == y;
            if k < r.len() {
                assert(r[k] == y);
                lemma_union_origin(m, d, y);
                if !m.contains(y) {
                    let j = choose|j: int| 0 <= j < d.len() && #[trigger] as_unmanaged(d[j]) == y;
                    assert(as_unmanaged(u[j]) == y);
                }
            } else {
                assert(y == as_unmanaged(u[u.len() - 1]));
                lemma_union_prefix_names(m, d);
                if has_name(m, y.name@) {
                    let q = choose|q: int| 0 <= q < m.len() && #[trigger] m[q].name@ == y.name@;
                    assert(r[q] == m[q]);
                    assert(r[q].name@ == u.last().name@);
                }
            }
        }
    }
}

proof fn lemma_union_prefix_names(m: Seq<AppConfig>, u: Seq<AppConfig>)
    ensures
        union_by_name(m, u).len() >= m.len(),
        forall|q: int| 0 <= q < m.len() ==> union_by_name(m, u)[q] == m[q],
    decreases u.len(),
{
    if u.len() > 0 {
        lemma_union_prefix_names(m, u.drop_last());
    }
}

/// A record of the reconciled registry whose name is among the managed
/// records is one of them, so its conditions and its managed flag come from
/// the managed side; every other record is an OS-discovered one, marked
/// unmanaged.
pub proof fn lemma_merge_precedence(m: Seq<AppConfig>, u: Seq<AppConfig>, i: int)
    requires
        0 <= i < merged(m, u).len(),
    ensures
        has_name(m, merged(m, u)[i].name@) ==> m.contains(merged(m, u)[i]),
        !has_name(m, merged(m, u)[i].name@) ==> !merged(m, u)[i].is_managed && exists|j: int|
            0 <= j < u.len() && #[trigger] as_unmanaged(u[j]) == merged(m, u)[i],
{
    let v = union_by_name(m, u);
    let y = merged(m, u)[i];
    assert(merged(m, u).contains(y));
    lemma_sort_contains(v, y);
    lemma_union_origin(m, u, y);
    if m.contains(y) {
        let q = choose|q: int| 0 <= q < m.len() && m[q] == y;
        assert(m[q].name@ == y.name@);
    }
}

proof fn lemma_union_unique(m: Seq<AppConfig>, u: Seq<AppConfig>)
    requires
        unique_names(m),
    ensures
        unique_names(union_by_name(m, u)),
    decreases u.len(),
{
    if u.len() > 0 {
        lemma_union_unique(m, u.drop_last());
        let r = union_by_name(m, u.drop_last());
        if !has_name(r, u.last().name@) {
            let w = r.push(as_unmanaged(u.last()));
            assert forall|i: int, j: int| 0 <= i < j < w.len() implies #[trigger] w[i].name@
                != #[trigger] w[j].name@ by {
                if j < r.len() {
                    assert(w[i] == r[i] && w[j] == r[j]);
                } else {
                    assert(w[i] == r[i]);
                }
            }
        }
    }
}

/// When the managed records have distinct names, so does the reconciled
/// registry: each name stands for one record.
pub proof fn lemma_merge_unique(m: Seq<AppConfig>, u: Seq<AppConfig>)
    requires
        unique_names(m),
    ensures
        unique_names(merged(m, u)),
{
    lemma_union_unique(m, u);
    lemma_sort_unique(union_by_name(m, u));
}

} // verus!
