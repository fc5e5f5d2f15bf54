//! Process snapshot records and the visible-list pipeline: stable sorting
//! by the selected field, per-category bucketing, grid-box preview capping
//! and scroll-offset slicing.

use vstd::prelude::*;

use vstd::relations::sorted_by;

use crate::app::ProcessSort;
use crate::category::{categorize_process, spec_categorize, ProcessCategory};
use crate::text::{lemma_lex_le_antisym, lemma_lex_le_total, lemma_lex_le_trans, lex_le, str_lex_le};

verus! {

/// One process row of a telemetry snapshot. CPU load is carried in
/// hundredths of a percent so that the whole record is made of plain
/// comparable values.
#[derive(Debug, Clone)]
pub struct ProcessInfo {
    pub pid: u32,
    pub name: String,
    pub cpu_centi: u64,
    pub memory: u64,
    pub status: String,
    pub category: ProcessCategory,
}

impl ProcessInfo {
    /// Build a record for one process; its category is computed from the
    /// name by the categorizer.
    pub fn new(pid: u32, name: String, cpu_centi: u64, memory: u64, status: String) -> (r:
        ProcessInfo)
        ensures
            r.pid == pid,
            r.name == name,
            r.cpu_centi == cpu_centi,
            r.memory == memory,
            r.status == status,
            r.category == spec_categorize(name@),
    {
        let category = categorize_process(name.as_str());
        ProcessInfo { pid, name, cpu_centi, memory, status, category }
    }
}

/// Field order with its natural direction: ascending by value, with names
/// ordered lexicographically.
pub open spec fn field_le(field: ProcessSort, a: ProcessInfo, b: ProcessInfo) -> bool {
    match field {
        ProcessSort::Cpu => a.cpu_centi <= b.cpu_centi,
        ProcessSort::Memory => a.memory <= b.memory,
        ProcessSort::Name => lex_le(a.name@, b.name@),
        ProcessSort::Pid => a.pid <= b.pid,
    }
}

/// The comparison the sort uses: the field order when ascending, its
/// reversal when descending.
pub open spec fn key_le(field: ProcessSort, asc: bool, a: ProcessInfo, b: ProcessInfo) -> bool {
    if asc {
        field_le(field, a, b)
    } else {
        field_le(field, b, a)
    }
}

/// Two records carry the same key for the given field.
pub open spec fn key_eq(field: ProcessSort, a: ProcessInfo, b: ProcessInfo) -> bool {
    field_le(field, a, b) && field_le(field, b, a)
}

/// The sort comparison as a binary relation value.
pub open spec fn le_fn(field: ProcessSort, asc: bool) -> spec_fn(ProcessInfo, ProcessInfo) -> bool {
    |a: ProcessInfo, b: ProcessInfo| key_le(field, asc, a, b)
}

/// The predicate selecting the records that share `r`'s key.
pub open spec fn eq_fn(field: ProcessSort, r: ProcessInfo) -> spec_fn(ProcessInfo) -> bool {
    |x: ProcessInfo| key_eq(field, x, r)
}

/// Any two records are related one way or the other by the field order.
pub proof fn lemma_field_le_total(field: ProcessSort, a: ProcessInfo, b: ProcessInfo)
    ensures
        field_le(field, a, b) || field_le(field, b, a),
{
    match field {
        ProcessSort::Name => lemma_lex_le_total(a.name@, b.name@),
        _ => {},
    }
}

/// The field order is transitive.
pub proof fn lemma_field_le_trans(field: ProcessSort, a: ProcessInfo, b: ProcessInfo, c: ProcessInfo)
    requires
        field_le(field, a, b),
        field_le(field, b, c),
    ensures
        field_le(field, a, c),
{
    match field {
        ProcessSort::Name => lemma_lex_le_trans(a.name@, b.name@, c.name@),
        _ => {},
    }
}

/// The sort comparison is total, in either direction.
pub proof fn lemma_key_le_total(field: ProcessSort, asc: bool, a: ProcessInfo, b: ProcessInfo)
    ensures
        key_le(field, asc, a, b) || key_le(field, asc, b, a),
{
    lemma_field_le_total(field, a, b);
}

/// The sort comparison is transitive, in either direction.
pub proof fn lemma_key_le_trans(
    field: ProcessSort,
    asc: bool,
    a: ProcessInfo,
    b: ProcessInfo,
    c: ProcessInfo,
)
    requires
        key_le(field, asc, a, b),
        key_le(field, asc, b, c),
    ensures
        key_le(field, asc, a, c),
{
    if asc {
        lemma_field_le_trans(field, a, b, c);
    } else {
        lemma_field_le_trans(field, c, b, a);
    }
}

fn field_le_exec(field: ProcessSort, a: &ProcessInfo, b: &ProcessInfo) -> (r: bool)
    ensures
        r == field_le(field, *a, *b),
{
    match field {
        ProcessSort::Cpu => a.cpu_centi <= b.cpu_centi,
        ProcessSort::Memory => a.memory <= b.memory,
        ProcessSort::Name => str_lex_le(a.name.as_str(), b.name.as_str()),
        ProcessSort::Pid => a.pid <= b.pid,
    }
}

fn key_le_exec(field: ProcessSort, asc: bool, a: &ProcessInfo, b: &ProcessInfo) -> (r: bool)
    ensures
        r == key_le(field, asc, *a, *b),
{
    if asc {
        field_le_exec(field, a, b)
    } else {
        field_le_exec(field, b, a)
    }
}

/// `out` is `input` stably sorted for the given field and direction: a
/// permutation, ordered by the sort comparison, in which the records of
/// each key class keep their original relative order.
pub open spec fn sorted_reordering_of(
    out: Seq<ProcessInfo>,
    input: Seq<ProcessInfo>,
    field: ProcessSort,
    asc: bool,
) -> bool {
    &&& out.len() == input.len()
    &&& out.to_multiset() == input.to_multiset()
    &&& sorted_by(out, le_fn(field, asc))
    &&& forall|r: ProcessInfo| #[trigger] out.filter(eq_fn(field, r)) == input.filter(
        eq_fn(field, r),
    )
}

proof fn lemma_filter_singleton(x: ProcessInfo, p: spec_fn(ProcessInfo) -> bool)
    ensures
        seq![x].filter(p) == if p(x) {
            seq![x]
        } else {
            Seq::<ProcessInfo>::empty()
        },
{
    reveal(Seq::filter);
    let s = seq![x];
    assert(s.drop_last() =~= Seq::<ProcessInfo>::empty());
    assert(Seq::<ProcessInfo>::empty().filter(p) =~= Seq::<ProcessInfo>::empty());
    if p(x) {
        assert(s.filter(p) =~= seq![x]);
    } else {
        assert(s.filter(p) =~= Seq::<ProcessInfo>::empty());
    }
}

/// Moving one record in front of a block of records that are all strictly
/// after it in the sort order does not change any key class's subsequence.
proof fn lemma_filter_swap_block(
    x: ProcessInfo,
    b: Seq<ProcessInfo>,
    field: ProcessSort,
    asc: bool,
    r: ProcessInfo,
)
    requires
        forall|k: int| 0 <= k < b.len() ==> !key_le(field, asc, #[trigger] b[k], x),
    ensures
        (seq![x] + b).filter(eq_fn(field, r)) == (b + seq![x]).filter(eq_fn(field, r)),
{
    broadcast use Seq::filter_distributes_over_add;

    let p = eq_fn(field, r);
    lemma_filter_singleton(x, p);
    if p(x) {
        assert forall|k: int| 0 <= k < b.len() implies !p(b[k]) by {
            if p(b[k]) {
                lemma_field_le_trans(field, b[k], r, x);
                lemma_field_le_trans(field, x, r, b[k]);
                assert(key_le(field, asc, b[k], x));
            }
        }
        assert(b.all(|y: ProcessInfo| !p(y)));
        b.lemma_all_neg_filter_empty(p);
        assert(b.filter(p) =~= Seq::<ProcessInfo>::empty());
    }
    assert(seq![x].filter(p) + b.filter(p) =~= b.filter(p) + seq![x].filter(p));
}

proof fn lemma_insertion_step_sorted(
    pre: Seq<ProcessInfo>,
    post: Seq<ProcessInfo>,
    field: ProcessSort,
    asc: bool,
    i: int,
    j: int,
)
    requires
        0 <= j <= i < pre.len(),
        post == pre.remove(i).insert(j, pre[i]),
        sorted_by(pre.take(i), le_fn(field, asc)),
        forall|k: int| j <= k < i ==> !key_le(field, asc, #[trigger] pre[k], pre[i]),
        j > 0 ==> key_le(field, asc, pre[j - 1], pre[i]),
    ensures
        sorted_by(post.take(i + 1), le_fn(field, asc)),
{
    let le = le_fn(field, asc);
    let x = pre[i];
    let aa = pre.subrange(0, j);
    let bb = pre.subrange(j, i);
    let cc = pre.subrange(i + 1, pre.len() as int);
    assert(pre.remove(i) =~= pre.subrange(0, i) + cc);
    assert(post =~= aa + seq![x] + bb + cc);
    let newp = post.take(i + 1);
    assert(newp =~= aa + seq![x] + bb);
    assert forall|p2: int, q2: int| 0 <= p2 < q2 < i implies le(pre[p2], pre[q2]) by {
        assert(pre.take(i)[p2] == pre[p2]);
        assert(pre.take(i)[q2] == pre[q2]);
        assert(le(pre.take(i)[p2], pre.take(i)[q2]));
    }
    assert forall|p: int, q: int| 0 <= p < q < newp.len() implies le(newp[p], newp[q]) by {
        if q < j {
            assert(le(pre[p], pre[q]));
        } else if q == j {
            assert(le(pre[j - 1], x));
            if p < j - 1 {
                lemma_key_le_trans(field, asc, pre[p], pre[j - 1], x);
            }
        } else if p < j {
            assert(newp[q] == pre[q - 1]);
            assert(le(pre[p], pre[q - 1]));
        } else if p == j {
            assert(newp[q] == pre[q - 1]);
            assert(!key_le(field, asc, pre[q - 1], x));
            lemma_key_le_total(field, asc, x, pre[q - 1]);
        } else {
            assert(newp[p] == pre[p - 1]);
            assert(newp[q] == pre[q - 1]);
            assert(le(pre[p - 1], pre[q - 1]));
        }
    }
}

proof fn lemma_insertion_step_multiset(
    pre: Seq<ProcessInfo>,
    post: Seq<ProcessInfo>,
    i: int,
    j: int,
)
    requires
        0 <= j <= i < pre.len(),
        post == pre.remove(i).insert(j, pre[i]),
    ensures
        post.to_multiset() == pre.to_multiset(),
{
    broadcast use vstd::multiset::group_multiset_axioms;

    let x = pre[i];
    vstd::seq_lib::to_multiset_remove::<ProcessInfo>(pre, i);
    vstd::seq_lib::to_multiset_insert::<ProcessInfo>(pre.remove(i), j, x);
    assert(post.to_multiset() == pre.to_multiset().remove(x).insert(x));
    assert(pre.contains(x)) by {
        assert(pre[i] == x);
    }
    pre.to_multiset_ensures();
    assert(pre.to_multiset().count(x) > 0);
    assert(post.to_multiset() =~= pre.to_multiset());
}

proof fn lemma_insertion_step_filter(
    pre: Seq<ProcessInfo>,
    post: Seq<ProcessInfo>,
    field: ProcessSort,
    asc: bool,
    i: int,
    j: int,
    r: ProcessInfo,
)
    requires
        0 <= j <= i < pre.len(),
        post == pre.remove(i).insert(j, pre[i]),
        forall|k: int| j <= k < i ==> !key_le(field, asc, #[trigger] pre[k], pre[i]),
    ensures
        post.filter(eq_fn(field, r)) == pre.filter(eq_fn(field, r)),
{
    broadcast use Seq::filter_distributes_over_add;

    let x = pre[i];
    let aa = pre.subrange(0, j);
    let bb = pre.subrange(j, i);
    let cc = pre.subrange(i + 1, pre.len() as int);
    assert(pre.remove(i) =~= pre.subrange(0, i) + cc);
    assert(post =~= aa + (seq![x] + bb) + cc);
    assert(pre =~= aa + (bb + seq![x]) + cc);
    assert(forall|k: int| 0 <= k < bb.len() ==> !key_le(field, asc, #[trigger] bb[k], x));
    let p = eq_fn(field, r);
    lemma_filter_swap_block(x, bb, field, asc, r);
    assert((aa + (seq![x] + bb) + cc).filter(p) == aa.filter(p) + (seq![x] + bb).filter(p)
        + cc.filter(p));
    assert((aa + (bb + seq![x]) + cc).filter(p) == aa.filter(p) + (bb + seq![x]).filter(p)
        + cc.filter(p));
}

/// Stable sort of a snapshot list by the given field and direction
/// (insertion sort: equal keys keep their original relative order).
pub fn sort_processes(list: Vec<ProcessInfo>, field: ProcessSort, asc: bool) -> (out: Vec<
    ProcessInfo,
>)
    ensures
        sorted_reordering_of(out@, list@, field, asc),
{
    let ghost orig = list@;
    let mut v = list;
    let n = v.len();
    if n <= 1 {
        assert(v@.to_multiset() =~= orig.to_multiset());
        return v;
    }
    let mut i: usize = 1;
    while i < n
        invariant
            1 <= i <= n,
            n == v@.len(),
            n == orig.len(),
            sorted_by(v@.take(i as int), le_fn(field, asc)),
            v@.to_multiset() == orig.to_multiset(),
            forall|r: ProcessInfo| #[trigger] v@.filter(eq_fn(field, r)) == orig.filter(
                eq_fn(field, r),
            ),
        decreases n - i,
    {
        let mut j: usize = i;
        while j > 0 && !key_le_exec(field, asc, &v[j - 1], &v[i])
            invariant
                j <= i < n == v@.len(),
                forall|k: int| j <= k < i ==> !key_le(field, asc, #[trigger] v@[k], v@[i as int]),
            decreases j,
        {
            j = j - 1;
        }
        let ghost pre = v@;
        let x = v.remove(i);
        v.insert(j, x);
        proof {
            let ii = i as int;
            let jj = j as int;
            assert(v@ == pre.remove(ii).insert(jj, pre[ii]));
            lemma_insertion_step_sorted(pre, v@, field, asc, ii, jj);
            lemma_insertion_step_multiset(pre, v@, ii, jj);
            assert forall|r: ProcessInfo| #[trigger] v@.filter(eq_fn(field, r)) == orig.filter(
                eq_fn(field, r),
            ) by {
                lemma_insertion_step_filter(pre, v@, field, asc, ii, jj, r);
            }
        }
        i = i + 1;
    }
    assert(v@.take(n as int) =~= v@);
    v
}

/// `x` is labelled with the category `cat`.
pub open spec fn has_category(x: ProcessInfo, cat: ProcessCategory) -> bool {
    x.category == cat
}

/// The predicate selecting the records of one category.
pub open spec fn cat_fn(cat: ProcessCategory) -> spec_fn(ProcessInfo) -> bool {
    |x: ProcessInfo| has_category(x, cat)
}

/// The records of one category, in snapshot order.
pub fn category_bucket(list: Vec<ProcessInfo>, cat: ProcessCategory) -> (r: Vec<ProcessInfo>)
    ensures
        r@ == list@.filter(cat_fn(cat)),
{
    let ghost orig = list@;
    let mut rest = list;
    let mut r: Vec<ProcessInfo> = Vec::new();
    let mut i: usize = 0;
    let n = rest.len();
    proof {
        reveal(Seq::filter);
        assert(orig.take(0).filter(cat_fn(cat)) =~= Seq::<ProcessInfo>::empty());
        assert(rest@ =~= orig.skip(0));
    }
    while i < n
        invariant
            i <= n,
            n == orig.len(),
            rest@ == orig.skip(i as int),
            r@ == orig.take(i as int).filter(cat_fn(cat)),
        decreases n - i,
    {
        let ghost pre = rest@;
        let x = rest.remove(0);
        proof {
            let p = cat_fn(cat);
            assert(pre.remove(0) =~= orig.skip(i + 1));
            assert(x == orig[i as int]);
            assert(orig.take(i + 1) =~= orig.take(i as int).push(orig[i as int]));
            orig.take(i as int).lemma_filter_push(orig[i as int], p);
            assert(p(x) == has_category(x, cat));
            assert(p(x) ==> orig.take(i + 1).filter(p) == orig.take(i as int).filter(p).push(x));
            assert(!p(x) ==> orig.take(i + 1).filter(p) == orig.take(i as int).filter(p));
        }
        if x.category == cat {
            r.push(x);
        }
        i = i + 1;
    }
    proof {
        assert(orig.take(n as int) =~= orig);
    }
    r
}

/// Sort stability, as a law: whatever the direction, the records sharing
/// any one key appear in the output exactly as they appear in the input,
/// in the same relative order.
pub proof fn lemma_sort_preserves_key_classes(
    out: Seq<ProcessInfo>,
    input: Seq<ProcessInfo>,
    field: ProcessSort,
    asc: bool,
    r: ProcessInfo,
)
    requires
        sorted_reordering_of(out, input, field, asc),
    ensures
        out.filter(eq_fn(field, r)) == input.filter(eq_fn(field, r)),
{
}

/// Two sequences sorted the same way, holding the same records, with no
/// two records sharing a key, are identical.
proof fn lemma_sorted_key_distinct_unique(
    x: Seq<ProcessInfo>,
    y: Seq<ProcessInfo>,
    field: ProcessSort,
    asc: bool,
)
    requires
        sorted_by(x, le_fn(field, asc)),
        sorted_by(y, le_fn(field, asc)),
        x.to_multiset() == y.to_multiset(),
        forall|p: int, q: int| 0 <= p < q < x.len() ==> !key_eq(field, #[trigger] x[p], #[trigger] x[q]),
    ensures
        x == y,
    decreases x.len(),
{
    let le = le_fn(field, asc);
    x.to_multiset_ensures();
    y.to_multiset_ensures();
    assert(x.len() == y.len());
    if x.len() == 0 {
        assert(x =~= y);
    } else {
        assert(y.contains(y[0]));
        assert(y.to_multiset().count(y[0]) > 0);
        assert(x.contains(y[0]));
        let i = choose|i: int| 0 <= i < x.len() && x[i] == y[0];
        assert(x.contains(x[0]));
        assert(x.to_multiset().count(x[0]) > 0);
        assert(y.contains(x[0]));
        let k = choose|k: int| 0 <= k < y.len() && y[k] == x[0];
        if i > 0 && k > 0 {
            assert(le(x[0], x[i]));
            assert(le(y[0], y[k]));
            assert(key_le(field, asc, x[0], y[0]));
            assert(key_le(field, asc, y[0], x[0]));
            assert(key_eq(field, x[0], x[i]));
            assert(false);
        }
        assert(x[0] == y[0]);
        let xt = x.drop_first();
        let yt = y.drop_first();
        assert(x.remove(0) =~= xt);
        assert(y.remove(0) =~= yt);
        vstd::seq_lib::to_multiset_remove::<ProcessInfo>(x, 0);
        vstd::seq_lib::to_multiset_remove::<ProcessInfo>(y, 0);
        assert(xt.to_multiset() == yt.to_multiset());
        assert forall|p: int, q: int| 0 <= p < q < xt.len() implies le(xt[p], xt[q]) by {
            assert(xt[p] == x[p + 1]);
            assert(xt[q] == x[q + 1]);
            assert(le(x[p + 1], x[q + 1]));
        }
        assert forall|p: int, q: int| 0 <= p < q < yt.len() implies le(yt[p], yt[q]) by {
            assert(yt[p] == y[p + 1]);
            assert(yt[q] == y[q + 1]);
            assert(le(y[p + 1], y[q + 1]));
        }
        assert forall|p: int, q: int| 0 <= p < q < xt.len() implies !key_eq(
            field,
            xt[p],
            xt[q],
        ) by {
            assert(xt[p] == x[p + 1]);
            assert(xt[q] == x[q + 1]);
        }
        lemma_sorted_key_distinct_unique(xt, yt, field, asc);
        assert forall|m: int| 0 <= m < x.len() implies x[m] == y[m] by {
            if m >= 1 {
                assert(x[m] == xt[m - 1]);
                assert(y[m] == yt[m - 1]);
            }
        }
        assert(x =~= y);
    }
}

/// Sorting by name descending and then ascending yields exactly reversed
/// orders, provided no two records share a name.
pub proof fn lemma_name_sort_reversal(
    input: Seq<ProcessInfo>,
    by_desc: Seq<ProcessInfo>,
    by_asc: Seq<ProcessInfo>,
)
    requires
        sorted_reordering_of(by_desc, input, ProcessSort::Name, false),
        sorted_reordering_of(by_asc, input, ProcessSort::Name, true),
        forall|p: int, q: int|
            0 <= p < q < input.len() ==> (#[trigger] input[p]).name@ != (#[trigger] input[q]).name@,
    ensures
        by_asc == by_desc.reverse(),
{
    let n = by_desc.len() as int;
    let rev = by_desc.reverse();
    let le_desc = le_fn(ProcessSort::Name, false);
    let le_asc = le_fn(ProcessSort::Name, true);
    assert forall|p: int, q: int| 0 <= p < q < rev.len() implies le_asc(rev[p], rev[q]) by {
        assert(rev[p] == by_desc[n - 1 - p]);
        assert(rev[q] == by_desc[n - 1 - q]);
        assert(le_desc(by_desc[n - 1 - q], by_desc[n - 1 - p]));
    }
    by_desc.lemma_reverse_to_multiset();
    input.to_multiset_ensures();
    by_asc.to_multiset_ensures();
    // no record appears twice in the input, since names are distinct
    assert forall|p: int, q: int|
        0 <= p < input.len() && 0 <= q < input.len() && p != q implies input[p] != input[q] by {
        if p < q {
            assert(input[p].name@ != input[q].name@);
        } else {
            assert(input[q].name@ != input[p].name@);
        }
    }
    assert(input.no_duplicates());
    input.lemma_multiset_has_no_duplicates();
    assert(forall|v: ProcessInfo|
        by_asc.to_multiset().contains(v) ==> #[trigger] by_asc.to_multiset().count(v) == 1);
    by_asc.lemma_multiset_has_no_duplicates_conv();
    // hence no two rows of the ascending result share a name
    assert forall|p: int, q: int| 0 <= p < q < by_asc.len() implies !key_eq(
        ProcessSort::Name,
        by_asc[p],
        by_asc[q],
    ) by {
        if key_eq(ProcessSort::Name, by_asc[p], by_asc[q]) {
            lemma_lex_le_antisym(by_asc[p].name@, by_asc[q].name@);
            assert(by_asc[p].name@ == by_asc[q].name@);
            assert(by_asc[p] != by_asc[q]);
            assert(by_asc.contains(by_asc[p]));
            assert(by_asc.contains(by_asc[q]));
            assert(by_asc.to_multiset().count(by_asc[p]) > 0);
            assert(by_asc.to_multiset().count(by_asc[q]) > 0);
            assert(input.to_multiset().count(by_asc[p]) > 0);
            assert(input.to_multiset().count(by_asc[q]) > 0);
            assert(input.contains(by_asc[p]));
            assert(input.contains(by_asc[q]));
            let a = choose|a: int| 0 <= a < input.len() && input[a] == by_asc[p as int];
            let b = choose|b: int| 0 <= b < input.len() && input[b] == by_asc[q as int];
            assert(a != b);
            if a < b {
                assert(input[a].name@ != input[b].name@);
            } else {
                assert(input[b].name@ != input[a].name@);
            }
            assert(false);
        }
    }
    lemma_sorted_key_distinct_unique(by_asc, rev, ProcessSort::Name, true);
}

/// One mounted disk of a telemetry snapshot.
#[derive(Debug, Clone)]
pub struct DiskInfo {
    pub name: String,
    pub mount_point: String,
    pub total_space: u64,
    pub available_space: u64,
}

/// The first rows of a grid box: at most ten records, whatever the scroll
/// offset says — grid boxes are not scrollable.
pub open spec fn spec_preview(list: Seq<ProcessInfo>) -> Seq<ProcessInfo> {
    if list.len() <= 10 {
        list
    } else {
        list.take(10)
    }
}

/// Cap a grid box to its fixed preview row count.
pub fn preview_rows(list: Vec<ProcessInfo>) -> (r: Vec<ProcessInfo>)
    ensures
        r@ == spec_preview(list@),
{
    let mut v = list;
    if v.len() > 10 {
        v.truncate(10);
    }
    v
}

/// What remains of a sorted, filtered list after the scroll offset skips
/// rows from its front; an offset beyond the end leaves nothing.
pub open spec fn spec_visible(list: Seq<ProcessInfo>, scroll: nat) -> Seq<ProcessInfo> {
    if scroll <= list.len() {
        list.skip(scroll as int)
    } else {
        Seq::empty()
    }
}

/// Apply the scroll offset to the current list.
pub fn visible_slice(list: Vec<ProcessInfo>, scroll: usize) -> (r: Vec<ProcessInfo>)
    ensures
        r@ == spec_visible(list@, scroll as nat),
{
    let ghost orig = list@;
    let mut rest = list;
    if scroll >= rest.len() {
        let r: Vec<ProcessInfo> = Vec::new();
        assert(r@ =~= spec_visible(orig, scroll as nat));
        return r;
    }
    let mut k: usize = 0;
    proof {
        assert(rest@ =~= orig.skip(0));
    }
    while k < scroll
        invariant
            k <= scroll,
            scroll < orig.len(),
            rest@ == orig.skip(k as int),
        decreases scroll - k,
    {
        let ghost pre = rest@;
        let _ = rest.remove(0);
        proof {
            assert(pre.remove(0) =~= orig.skip(k + 1));
        }
        k = k + 1;
    }
    rest
}

} // verus!
