use vstd::prelude::*;
use crate::config::AppConfig;

verus! {

/// What `str::to_lowercase` returns for a text.
pub uninterp spec fn lower_of(s: Seq<char>) -> Seq<char>;

/// Relies on `str::to_lowercase`: the lowercase form depends on the text alone.
#[verifier::external_body]
pub(crate) fn lowercase(s: &String) -> (r: String)
    ensures
        r@ == lower_of(s@),
{
    s.to_lowercase()
}

/// Lexicographic order by code point from position `i` on: `a` comes before
/// `b` when, at the first position where they differ, its character is
/// smaller, or when it is a proper prefix of `b`.
pub open spec fn text_lt_from(a: Seq<char>, b: Seq<char>, i: int) -> bool
    decreases a.len() - i,
{
    if i < 0 || i >= a.len() {
        0 <= i < b.len()
    } else if i >= b.len() {
        false
    } else if (a[i] as u32) < (b[i] as u32) {
        true
    } else if a[i] == b[i] {
        text_lt_from(a, b, i + 1)
    } else {
        false
    }
}

/// `a` sorts strictly before `b` (the order of `str`'s `Ord`).
pub open spec fn text_lt(a: Seq<char>, b: Seq<char>) -> bool {
    text_lt_from(a, b, 0)
}

/// The case-insensitive sort key of a record.
pub open spec fn name_key(app: AppConfig) -> Seq<char> {
    lower_of(app.name@)
}

/// `x` sorts strictly before `y` by name, case-insensitively.
pub open spec fn precedes(x: AppConfig, y: AppConfig) -> bool {
    text_lt(name_key(x), name_key(y))
}

/// Whether `a` sorts strictly before `b`.
pub fn text_less(a: &String, b: &String) -> (r: bool)
    ensures
        r == text_lt(a@, b@),
{
    let sa = a.as_str();
    let sb = b.as_str();
    let la = sa.unicode_len();
    let lb = sb.unicode_len();
    let mut i: usize = 0;
    while i < la && i < lb
        invariant
            la == a@.len(),
            lb == b@.len(),
            sa@ == a@,
            sb@ == b@,
            text_lt_from(a@, b@, 0) == text_lt_from(a@, b@, i as int),
        decreases la - i,
    {
        let ca = sa.get_char(i);
        let cb = sb.get_char(i);
        if (ca as u32) < (cb as u32) {
            return true;
        }
        if ca != cb {
            return false;
        }
        i = i + 1;
    }
    i >= la && i < lb
}

/// Whether record `x` sorts strictly before record `y` by name, ignoring case.
pub fn name_precedes(x: &AppConfig, y: &AppConfig) -> (r: bool)
    ensures
        r == precedes(*x, *y),
{
    let kx = lowercase(&x.name);
    let ky = lowercase(&y.name);
    text_less(&kx, &ky)
}

proof fn lemma_text_lt_from_asym(a: Seq<char>, b: Seq<char>, i: int)
    requires
        0 <= i,
    ensures
        text_lt_from(a, b, i) ==> !text_lt_from(b, a, i),
    decreases a.len() - i,
{
    if i < a.len() && i < b.len() && a[i] == b[i] {
        lemma_text_lt_from_asym(a, b, i + 1);
    }
}

/// No two texts sort strictly before each other.
pub proof fn lemma_text_lt_asym(a: Seq<char>, b: Seq<char>)
    ensures
        text_lt(a, b) ==> !text_lt(b, a),
{
    lemma_text_lt_from_asym(a, b, 0);
}

/// `x` placed into `t` after every record that does not sort after it.
pub open spec fn insert_by_name(t: Seq<AppConfig>, x: AppConfig) -> Seq<AppConfig>
    decreases t.len(),
{
    if t.len() == 0 {
        seq![x]
    } else if precedes(x, t.last()) {
        insert_by_name(t.drop_last(), x).push(t.last())
    } else {
        t.push(x)
    }
}

/// Stable insertion sort by name, case-insensitively.
pub open spec fn sorted_by_name(s: Seq<AppConfig>) -> Seq<AppConfig>
    decreases s.len(),
{
    if s.len() == 0 {
        Seq::empty()
    } else {
        insert_by_name(sorted_by_name(s.drop_last()), s.last())
    }
}

pub open spec fn in_order_at(s: Seq<AppConfig>, i: int) -> bool {
    !precedes(s[i + 1], s[i])
}

/// No record sorts strictly before the one in front of it.
pub open spec fn is_sorted_by_name(s: Seq<AppConfig>) -> bool {
    forall|i: int| 0 <= i < s.len() - 1 ==> #[trigger] in_order_at(s, i)
}

proof fn lemma_insert_at(t: Seq<AppConfig>, x: AppConfig, j: int)
    requires
        0 <= j <= t.len(),
        forall|k: int| j <= k < t.len() ==> precedes(x, #[trigger] t[k]),
        j > 0 ==> !precedes(x, t[j - 1]),
    ensures
        insert_by_name(t, x) == t.insert(j, x),
    decreases t.len(),
{
    if t.len() == 0 {
        assert(t.insert(j, x) =~= seq![x]);
    } else if j == t.len() {
        assert(t.insert(j, x) =~= t.push(x));
    } else {
        assert(precedes(x, t[t.len() - 1]));
        lemma_insert_at(t.drop_last(), x, j);
        assert(t.drop_last().insert(j, x).push(t.last()) =~= t.insert(j, x));
    }
}

/// Sorts `apps` by name, case-insensitively; records with equal keys keep
/// their relative order.
pub fn sort_by_name(apps: Vec<AppConfig>) -> (r: Vec<AppConfig>)
    ensures
        r@ == sorted_by_name(apps@),
{
    let mut result: Vec<AppConfig> = Vec::new();
    let mut i: usize = 0;
    while i < apps.len()
        invariant
            i <= apps@.len(),
            result@ == sorted_by_name(apps@.subrange(0, i as int)),
        decreases apps.len() - i,
    {
        proof {
            assert(apps@.subrange(0, i + 1).drop_last() =~= apps@.subrange(0, i as int));
        }
        let x = apps[i].clone();
        let mut j: usize = result.len();
        while j > 0 && name_precedes(&x, &result[j - 1])
            invariant
                j <= result@.len(),
                forall|k: int| j <= k < result@.len() ==> precedes(x, #[trigger] result@[k]),
            decreases j,
        {
            j = j - 1;
        }
        proof {
            lemma_insert_at(result@, x, j as int);
        }
        result.insert(j, x);
        i = i + 1;
    }
    proof {
        assert(apps@.subrange(0, apps@.len() as int) =~= apps@);
    }
    result
}

proof fn lemma_insert_last(t: Seq<AppConfig>, x: AppConfig)
    ensures
        insert_by_name(t, x).len() == t.len() + 1,
        insert_by_name(t, x).last() == x || (t.len() > 0 && insert_by_name(t, x).last()
            == t.last()),
    decreases t.len(),
{
    if t.len() > 0 && precedes(x, t.last()) {
        lemma_insert_last(t.drop_last(), x);
    }
}

proof fn lemma_insert_keeps_order(t: Seq<AppConfig>, x: AppConfig)
    requires
        is_sorted_by_name(t),
    ensures
        is_sorted_by_name(insert_by_name(t, x)),
    decreases t.len(),
{
    if t.len() > 0 {
        let n = t.len();
        if precedes(x, t.last()) {
            let d = t.drop_last();
            assert forall|i: int| 0 <= i < d.len() - 1 implies #[trigger] in_order_at(d, i) by {
                assert(in_order_at(t, i));
            }
            lemma_insert_keeps_order(d, x);
            lemma_insert_last(d, x);
            let r = insert_by_name(d, x);
            lemma_text_lt_asym(name_key(x), name_key(t.last()));
            if n >= 2 {
                assert(in_order_at(t, n - 2));
            }
            assert forall|i: int| 0 <= i < r.push(t.last()).len() - 1 implies #[trigger] in_order_at(
                r.push(t.last()),
                i,
            ) by {
                if i < r.len() - 1 {
                    assert(in_order_at(r, i));
                }
            }
        } else {
            assert forall|i: int| 0 <= i < t.push(x).len() - 1 implies #[trigger] in_order_at(
                t.push(x),
                i,
            ) by {
                if i < n - 1 {
                    assert(in_order_at(t, i));
                }
            }
        }
    }
}

/// The sort puts every record in name order.
pub proof fn lemma_sorted_is_sorted(s: Seq<AppConfig>)
    ensures
        is_sorted_by_name(sorted_by_name(s)),
        sorted_by_name(s).len() == s.len(),
    decreases s.len(),
{
    if s.len() > 0 {
        lemma_sorted_is_sorted(s.drop_last());
        lemma_insert_keeps_order(sorted_by_name(s.drop_last()), s.last());
        lemma_insert_last(sorted_by_name(s.drop_last()), s.last());
    }
}

/// Sorting a sequence that is already in name order leaves it as it is.
pub proof fn lemma_sort_sorted_fixed(s: Seq<AppConfig>)
    requires
        is_sorted_by_name(s),
    ensures
        sorted_by_name(s) == s,
    decreases s.len(),
{
    if s.len() > 0 {
        let d = s.drop_last();
        assert forall|i: int| 0 <= i < d.len() - 1 implies #[trigger] in_order_at(d, i) by {
            assert(in_order_at(s, i));
        }
        lemma_sort_sorted_fixed(d);
        if s.len() >= 2 {
            assert(in_order_at(s, s.len() - 2));
        }
        assert(d.push(s.last()) =~= s);
    }
}

proof fn lemma_insert_contains(t: Seq<AppConfig>, x: AppConfig, y: AppConfig)
    ensures
        insert_by_name(t, x).contains(y) <==> (t.contains(y) || y == x),
    decreases t.len(),
{
    if t.len() > 0 && precedes(x, t.last()) {
        let d = t.drop_last();
        lemma_insert_contains(d, x, y);
        let r = insert_by_name(d, x);
        if r.push(t.last()).contains(y) {
            let k = choose|k: int| 0 <= k < r.push(t.last()).len() && r.push(t.last())[k] == y;
            if k < r.len() {
                assert(r[k] == y);
                if d.contains(y) {
                    let m = choose|m: int| 0 <= m < d.len() && d[m] == y;
                    assert(t[m] == y);
                }
            } else {
                assert(t[t.len() - 1] == y);
            }
        }
        if t.contains(y) {
            let m = choose|m: int| 0 <= m < t.len() && t[m] == y;
            if m < t.len() - 1 {
                assert(d[m] == y);
                assert(r.contains(y));
                let k = choose|k: int| 0 <= k < r.len() && r[k] == y;
                assert(r.push(t.last())[k] == y);
            } else {
                assert(r.push(t.last())[r.len() as int] == y);
            }
        }
        if y == x {
            assert(r.contains(y));
            let k = choose|k: int| 0 <= k < r.len() && r[k] == y;
            assert(r.push(t.last())[k] == y);
        }
    } else if t.len() > 0 {
        if t.push(x).contains(y) {
            let k = choose|k: int| 0 <= k < t.push(x).len() && t.push(x)[k] == y;
            if k < t.len() {
                assert(t[k] == y);
            }
        }
        if t.contains(y) {
            let m = choose|m: int| 0 <= m < t.len() && t[m] == y;
            assert(t.push(x)[m] == y);
        }
        if y == x {
            assert(t.push(x)[t.len() as int] == y);
        }
    } else {
        if y == x {
            assert(seq![x][0] == y);
        }
    }
}

/// The sort keeps exactly the records it was given.
pub proof fn lemma_sort_contains(s: Seq<AppConfig>, y: AppConfig)
    ensures
        sorted_by_name(s).contains(y) <==> s.contains(y),
    decreases s.len(),
{
    if s.len() > 0 {
        let d = s.drop_last();
        lemma_sort_contains(d, y);
        lemma_insert_contains(sorted_by_name(d), s.last(), y);
        if s.contains(y) {
            let m = choose|m: int| 0 <= m < s.len() && s[m] == y;
            if m < s.len() - 1 {
                assert(d[m] == y);
            }
        }
        if d.contains(y) {
            let m = choose|m: int| 0 <= m < d.len() && d[m] == y;
            assert(s[m] == y);
        }
    }
}

/// No two records of `s` share a name.
pub open spec fn unique_names(s: Seq<AppConfig>) -> bool {
    forall|i: int, j: int| 0 <= i < j < s.len() ==> #[trigger] s[i].name@ != #[trigger] s[j].name@
}

proof fn lemma_insert_unique(t: Seq<AppConfig>, x: AppConfig)
    requires
        unique_names(t),
        forall|k: int| 0 <= k < t.len() ==> #[trigger] t[k].name@ != x.name@,
    ensures
        unique_names(insert_by_name(t, x)),
    decreases t.len(),
{
    if t.len() > 0 && precedes(x, t.last()) {
        let d = t.drop_last();
        assert forall|k: int| 0 <= k < d.len() implies #[trigger] d[k].name@ != x.name@ by {
            assert(d[k] == t[k]);
        }
        lemma_insert_unique(d, x);
        let r = insert_by_name(d, x);
        assert forall|k: int| 0 <= k < r.len() implies #[trigger] r[k].name@ != t.last().name@ by {
            assert(r.contains(r[k]));
            lemma_insert_contains(d, x, r[k]);
            if d.contains(r[k]) {
                let q = choose|q: int| 0 <= q < d.len() && d[q] == r[k];
                assert(t[q] == r[k]);
                assert(t[q].name@ != t[t.len() - 1].name@);
            }
        }
        lemma_insert_last(d, x);
        let w = r.push(t.last());
        assert forall|i: int, j: int| 0 <= i < j < w.len() implies #[trigger] w[i].name@
            != #[trigger] w[j].name@ by {
            if j < r.len() {
                assert(w[i] == r[i] && w[j] == r[j]);
            } else {
                assert(w[i] == r[i]);
            }
        }
    } else if t.len() > 0 {
        let w = t.push(x);
        assert forall|i: int, j: int| 0 <= i < j < w.len() implies #[trigger] w[i].name@
            != #[trigger] w[j].name@ by {
            if j < t.len() {
                assert(w[i] == t[i] && w[j] == t[j]);
            } else {
                assert(w[i] == t[i]);
            }
        }
    }
}

/// Sorting keeps names unique.
pub proof fn lemma_sort_unique(s: Seq<AppConfig>)
    requires
        unique_names(s),
    ensures
        unique_names(sorted_by_name(s)),
    decreases s.len(),
{
    if s.len() > 0 {
        let d = s.drop_last();
        assert forall|i: int, j: int| 0 <= i < j < d.len() implies #[trigger] d[i].name@
            != #[trigger] d[j].name@ by {
            assert(d[i] == s[i] && d[j] == s[j]);
        }
        lemma_sort_unique(d);
        let r = sorted_by_name(d);
        assert forall|k: int| 0 <= k < r.len() implies #[trigger] r[k].name@ != s.last().name@ by {
            assert(r.contains(r[k]));
            lemma_sort_contains(d, r[k]);
            let q = choose|q: int| 0 <= q < d.len() && d[q] == r[k];
            assert(s[q] == r[k]);
            assert(s[q].name@ != s[s.len() - 1].name@);
        }
        lemma_insert_unique(r, s.last());
    }
}

} // verus!
