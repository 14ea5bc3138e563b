//! The orders in which the process list can be shown, and a stable sort
//! that arranges processes in them.

use vstd::prelude::*;
use vstd::seq_lib::group_to_multiset_ensures;
use vstd::seq_lib::to_multiset_insert;
use vstd::seq_lib::to_multiset_remove;
use vstd::utf8::encode_utf8;

use crate::collector::{infos, ProcessInfo, ProcessMemory};
use crate::ui::widgets::SortMode;

verus! {

/// Lexicographic order on byte strings: the order of `str` and `String`.
pub open spec fn bytes_lt(a: Seq<u8>, b: Seq<u8>) -> bool
    decreases a.len(),
{
    if b.len() == 0 {
        false
    } else if a.len() == 0 {
        true
    } else if a[0] != b[0] {
        a[0] < b[0]
    } else {
        bytes_lt(a.drop_first(), b.drop_first())
    }
}

/// The bytes by which a process name is ordered.
pub open spec fn name_bytes(p: ProcessInfo) -> Seq<u8> {
    encode_utf8(p.name)
}

/// `a` is shown strictly before `b` in the given order.
pub open spec fn before(mode: SortMode, a: ProcessInfo, b: ProcessInfo) -> bool {
    match mode {
        SortMode::Rss => a.rss > b.rss,
        SortMode::Pss => a.pss > b.pss,
        SortMode::Private => a.private > b.private,
        SortMode::Name => bytes_lt(name_bytes(a), name_bytes(b)),
        SortMode::Pid => a.pid < b.pid,
    }
}

/// `a` and `b` have the same sort key in the given order.
pub open spec fn same_key(mode: SortMode, a: ProcessInfo, b: ProcessInfo) -> bool {
    match mode {
        SortMode::Rss => a.rss == b.rss,
        SortMode::Pss => a.pss == b.pss,
        SortMode::Private => a.private == b.private,
        SortMode::Name => name_bytes(a) == name_bytes(b),
        SortMode::Pid => a.pid == b.pid,
    }
}

/// No element of `r` is shown before an element that precedes it.
pub open spec fn ordered(mode: SortMode, r: Seq<ProcessInfo>) -> bool {
    forall|i: int, j: int| 0 <= i < j < r.len() ==> !before(mode, #[trigger] r[j], #[trigger] r[i])
}

/// Membership in the sort-key class of `x`.
pub open spec fn key_pred(mode: SortMode, x: ProcessInfo) -> spec_fn(ProcessInfo) -> bool {
    |y: ProcessInfo| same_key(mode, x, y)
}

/// The elements of `s` that share the sort key of `x`, in their order in `s`.
pub open spec fn key_class(mode: SortMode, s: Seq<ProcessInfo>, x: ProcessInfo) -> Seq<ProcessInfo> {
    s.filter(key_pred(mode, x))
}

/// `r` is `s` sorted stably: a rearrangement of `s`, ordered, and with the
/// elements of every key class in the order they had in `s`.
pub open spec fn is_stable_sort(mode: SortMode, s: Seq<ProcessInfo>, r: Seq<ProcessInfo>) -> bool {
    &&& r.to_multiset() == s.to_multiset()
    &&& ordered(mode, r)
    &&& forall|x: ProcessInfo| #[trigger] key_class(mode, r, x) == key_class(mode, s, x)
}

proof fn lemma_bytes_lt_irreflexive(a: Seq<u8>)
    ensures
        !bytes_lt(a, a),
    decreases a.len(),
{
    if a.len() > 0 {
        lemma_bytes_lt_irreflexive(a.drop_first());
    }
}

proof fn lemma_bytes_lt_transitive(a: Seq<u8>, b: Seq<u8>, c: Seq<u8>)
    requires
        bytes_lt(a, b),
        bytes_lt(b, c),
    ensures
        bytes_lt(a, c),
    decreases a.len(),
{
    if a.len() > 0 && a[0] == b[0] && b[0] == c[0] {
        lemma_bytes_lt_transitive(a.drop_first(), b.drop_first(), c.drop_first());
    }
}

proof fn lemma_bytes_lt_total(a: Seq<u8>, b: Seq<u8>)
    ensures
        bytes_lt(a, b) || bytes_lt(b, a) || a == b,
    decreases a.len(),
{
    if a.len() > 0 && b.len() > 0 && a[0] == b[0] {
        lemma_bytes_lt_total(a.drop_first(), b.drop_first());
        if a.drop_first() == b.drop_first() {
            assert(a =~= seq![a[0]] + a.drop_first());
            assert(b =~= seq![b[0]] + b.drop_first());
        }
    } else if a.len() == 0 && b.len() == 0 {
        assert(a =~= b);
    }
}

/// Each of the orders is a strict weak order whose classes are the key
/// classes: irreflexive, transitive, and two elements are unordered exactly
/// when they share a key.
pub proof fn lemma_order_laws(mode: SortMode, a: ProcessInfo, b: ProcessInfo, c: ProcessInfo)
    ensures
        !before(mode, a, a),
        before(mode, a, b) && before(mode, b, c) ==> before(mode, a, c),
        same_key(mode, a, b) <==> (!before(mode, a, b) && !before(mode, b, a)),
        same_key(mode, a, a),
        same_key(mode, a, b) ==> same_key(mode, b, a),
        same_key(mode, a, b) && same_key(mode, b, c) ==> same_key(mode, a, c),
        same_key(mode, a, b) && before(mode, a, c) ==> before(mode, b, c),
        same_key(mode, a, b) && before(mode, c, a) ==> before(mode, c, b),
{
    if mode == SortMode::Name {
        lemma_bytes_lt_irreflexive(name_bytes(a));
        lemma_bytes_lt_irreflexive(name_bytes(b));
        lemma_bytes_lt_total(name_bytes(a), name_bytes(b));
        if before(mode, a, b) && before(mode, b, c) {
            lemma_bytes_lt_transitive(name_bytes(a), name_bytes(b), name_bytes(c));
        }
    }
}


/// Inserting `x` just before the first element that it precedes extends a
/// stable sort of `s` to a stable sort of `s` followed by `x`.
proof fn lemma_insert_keeps_stable_sort(
    mode: SortMode,
    s: Seq<ProcessInfo>,
    r: Seq<ProcessInfo>,
    x: ProcessInfo,
    k: int,
)
    requires
        is_stable_sort(mode, s, r),
        0 <= k <= r.len(),
        forall|m: int| 0 <= m < k ==> !before(mode, x, #[trigger] r[m]),
        k < r.len() ==> before(mode, x, r[k]),
    ensures
        is_stable_sort(mode, s.push(x), r.insert(k, x)),
{
    broadcast use group_to_multiset_ensures;

    let n = r.insert(k, x);
    to_multiset_insert(r, k, x);
    assert forall|i: int, j: int| 0 <= i < j < n.len() implies !before(mode, #[trigger] n[j], #[trigger] n[i]) by {
        if i < k && j == k {
        } else if i == k && j > k {
            lemma_order_laws(mode, r[j - 1], x, r[k]);
            if j - 1 > k {
                assert(!before(mode, r[j - 1], r[k]));
            }
        } else if i < k && j > k {
            assert(!before(mode, r[j - 1], r[i]));
        } else if i > k {
            assert(!before(mode, r[j - 1], r[i - 1]));
        } else {
            assert(!before(mode, r[j], r[i]));
        }
    }
    assert forall|c: ProcessInfo| #[trigger] key_class(mode, n, c) == key_class(mode, s.push(x), c) by {
        let p = key_pred(mode, c);
        let front = r.take(k);
        let back = r.skip(k);
        assert(r =~= front + back);
        assert(n =~= front.push(x) + back);
        Seq::filter_distributes_over_add(front, back, p);
        Seq::filter_distributes_over_add(front.push(x), back, p);
        front.lemma_filter_push(x, p);
        s.lemma_filter_push(x, p);
        if same_key(mode, c, x) {
            assert forall|m: int| 0 <= m < back.len() implies !p(#[trigger] back[m]) by {
                lemma_order_laws(mode, c, x, back[m]);
                lemma_order_laws(mode, x, back[m], r[k]);
                lemma_order_laws(mode, back[m], c, r[k]);
                if m > 0 {
                    assert(!before(mode, r[k + m], r[k]));
                }
            }
            back.lemma_all_neg_filter_empty(p);
            assert(back.filter(p) =~= Seq::<ProcessInfo>::empty());
            assert(front.filter(p) + back.filter(p) =~= front.filter(p));
            assert(front.filter(p).push(x) + back.filter(p) =~= front.filter(p).push(x));
        }
        assert(key_class(mode, r, c) == key_class(mode, s, c));
    }
}

/// A stable sort is unique: any two stable sorts of the same list in the
/// same order are the same list.
#[verifier::spinoff_prover]
#[verifier::rlimit(40)]
pub proof fn lemma_stable_sort_unique(mode: SortMode, s: Seq<ProcessInfo>, r1: Seq<ProcessInfo>, r2: Seq<ProcessInfo>)
    requires
        is_stable_sort(mode, s, r1),
        is_stable_sort(mode, s, r2),
    ensures
        r1 == r2,
    decreases r1.len(),
{
    broadcast use group_to_multiset_ensures;

    r1.to_multiset_ensures();
    r2.to_multiset_ensures();
    if r1.len() == 0 {
        assert(r2.len() == 0);
        assert(r1 =~= r2);
    } else {
        assert(r2.len() == r1.len());
        let a = r1[0];
        let b = r2[0];
        assert(r1.to_multiset().count(b) > 0);
        assert(r2.to_multiset().count(a) > 0);
        let j1 = choose|j: int| 0 <= j < r1.len() && r1[j] == b;
        let j2 = choose|j: int| 0 <= j < r2.len() && r2[j] == a;
        lemma_order_laws(mode, a, b, a);
        if j1 > 0 {
            assert(!before(mode, r1[j1], r1[0]));
        }
        if j2 > 0 {
            assert(!before(mode, r2[j2], r2[0]));
        }
        assert(same_key(mode, a, b));
        let t1 = r1.drop_first();
        let t2 = r2.drop_first();
        assert(r1 =~= seq![a] + t1);
        assert(r2 =~= seq![b] + t2);
        // the key class of `a` starts with `a` in `r1` and with `b` in `r2`
        t1.lemma_filter_prepend(a, key_pred(mode, a));
        t2.lemma_filter_prepend(b, key_pred(mode, a));
        assert(key_class(mode, r1, a) == key_class(mode, r2, a));
        assert(key_class(mode, r1, a)[0] == a);
        assert(key_class(mode, r2, a)[0] == b);
        assert(a == b);
        // the tails are stable sorts of the first tail
        to_multiset_remove(r1, 0);
        to_multiset_remove(r2, 0);
        assert(r1.remove(0) =~= t1);
        assert(r2.remove(0) =~= t2);
        assert forall|i: int, j: int| 0 <= i < j < t2.len() implies !before(mode, #[trigger] t2[j], #[trigger] t2[i]) by {
            assert(!before(mode, r2[j + 1], r2[i + 1]));
        }
        assert forall|i: int, j: int| 0 <= i < j < t1.len() implies !before(mode, #[trigger] t1[j], #[trigger] t1[i]) by {
            assert(!before(mode, r1[j + 1], r1[i + 1]));
        }
        assert forall|c: ProcessInfo| #[trigger] key_class(mode, t2, c) == key_class(mode, t1, c) by {
            t1.lemma_filter_prepend(a, key_pred(mode, c));
            t2.lemma_filter_prepend(a, key_pred(mode, c));
            assert(key_class(mode, r1, c) == key_class(mode, r2, c));
            if same_key(mode, c, a) {
                assert(key_class(mode, t1, c) =~= key_class(mode, r1, c).drop_first());
                assert(key_class(mode, t2, c) =~= key_class(mode, r2, c).drop_first());
            } else {
                assert(key_class(mode, t1, c) =~= key_class(mode, r1, c));
                assert(key_class(mode, t2, c) =~= key_class(mode, r2, c));
            }
        }
        lemma_stable_sort_unique(mode, t1, t1, t2);
        assert(r1 =~= r2);
    }
}

/// Sorting a stably sorted list again in the same order leaves it as it is.
pub proof fn lemma_stable_sort_idempotent(mode: SortMode, s: Seq<ProcessInfo>, r: Seq<ProcessInfo>, r2: Seq<ProcessInfo>)
    requires
        is_stable_sort(mode, s, r),
        is_stable_sort(mode, r, r2),
    ensures
        r2 == r,
{
    assert(is_stable_sort(mode, r, r));
    lemma_stable_sort_unique(mode, r, r, r2);
}

/// `a` comes before `b` in byte order, stated without recursion: at the
/// first position where they differ `a` holds the smaller byte, or `a` is a
/// proper prefix of `b`.
pub open spec fn byte_order_lt(a: Seq<u8>, b: Seq<u8>) -> bool {
    ||| exists|i: int|
        0 <= i < a.len() && i < b.len() && #[trigger] a[i] < b[i] && (forall|j: int| 0 <= j < i ==> a[j] == b[j])
    ||| a.len() < b.len() && (forall|j: int| 0 <= j < a.len() ==> a[j] == b[j])
}

/// The name order is plain lexicographic byte order.
pub proof fn lemma_bytes_lt_is_byte_order(a: Seq<u8>, b: Seq<u8>)
    ensures
        bytes_lt(a, b) <==> byte_order_lt(a, b),
    decreases a.len(),
{
    if b.len() == 0 {
    } else if a.len() == 0 {
    } else if a[0] != b[0] {
        if a[0] < b[0] {
            assert(byte_order_lt(a, b)) by {
                assert(0 < a.len() && 0 < b.len() && a[0] < b[0]);
            }
        } else {
            if byte_order_lt(a, b) {
                if exists|i: int|
                    0 <= i < a.len() && i < b.len() && #[trigger] a[i] < b[i] && (forall|j: int| 0 <= j < i ==> a[j] == b[j]) {
                    let i = choose|i: int|
                        0 <= i < a.len() && i < b.len() && #[trigger] a[i] < b[i] && (forall|j: int| 0 <= j < i ==> a[j] == b[j]);
                    if i > 0 {
                        assert(a[0] == b[0]);
                    }
                } else {
                    assert(a[0] == b[0]);
                }
            }
        }
    } else {
        let ta = a.drop_first();
        let tb = b.drop_first();
        lemma_bytes_lt_is_byte_order(ta, tb);
        if byte_order_lt(ta, tb) {
            if exists|i: int|
                0 <= i < ta.len() && i < tb.len() && #[trigger] ta[i] < tb[i] && (forall|j: int| 0 <= j < i ==> ta[j] == tb[j]) {
                let i = choose|i: int|
                    0 <= i < ta.len() && i < tb.len() && #[trigger] ta[i] < tb[i] && (forall|j: int| 0 <= j < i ==> ta[j] == tb[j]);
                assert forall|j: int| 0 <= j < i + 1 implies a[j] == b[j] by {
                    if j > 0 {
                        assert(ta[j - 1] == tb[j - 1]);
                    }
                }
                assert(a[i + 1] < b[i + 1]);
            } else {
                assert forall|j: int| 0 <= j < a.len() implies a[j] == b[j] by {
                    if j > 0 {
                        assert(ta[j - 1] == tb[j - 1]);
                    }
                }
            }
        }
        if byte_order_lt(a, b) {
            if exists|i: int|
                0 <= i < a.len() && i < b.len() && #[trigger] a[i] < b[i] && (forall|j: int| 0 <= j < i ==> a[j] == b[j]) {
                let i = choose|i: int|
                    0 <= i < a.len() && i < b.len() && #[trigger] a[i] < b[i] && (forall|j: int| 0 <= j < i ==> a[j] == b[j]);
                assert(i > 0);
                assert forall|j: int| 0 <= j < i - 1 implies ta[j] == tb[j] by {
                    assert(a[j + 1] == b[j + 1]);
                }
                assert(ta[i - 1] < tb[i - 1]);
            } else {
                assert forall|j: int| 0 <= j < ta.len() implies ta[j] == tb[j] by {
                    assert(a[j + 1] == b[j + 1]);
                }
            }
        }
    }
}

/// What each order means: in the memory orders a process is shown before
/// another exactly when its figure is larger (largest first); by name,
/// exactly when its name comes first in byte order; by pid, exactly when its
/// pid is smaller. Two processes share a key exactly when the figure, the
/// name's bytes or the pid are equal.
pub proof fn lemma_mode_meaning(a: ProcessInfo, b: ProcessInfo)
    ensures
        before(SortMode::Rss, a, b) <==> a.rss > b.rss,
        before(SortMode::Pss, a, b) <==> a.pss > b.pss,
        before(SortMode::Private, a, b) <==> a.private > b.private,
        before(SortMode::Name, a, b) <==> byte_order_lt(encode_utf8(a.name), encode_utf8(b.name)),
        before(SortMode::Pid, a, b) <==> a.pid < b.pid,
        same_key(SortMode::Rss, a, b) <==> a.rss == b.rss,
        same_key(SortMode::Pss, a, b) <==> a.pss == b.pss,
        same_key(SortMode::Private, a, b) <==> a.private == b.private,
        same_key(SortMode::Name, a, b) <==> encode_utf8(a.name) == encode_utf8(b.name),
        same_key(SortMode::Pid, a, b) <==> a.pid == b.pid,
{
    lemma_bytes_lt_is_byte_order(encode_utf8(a.name), encode_utf8(b.name));
}

/// A stable sort shows the processes largest figure first in the memory
/// orders, by ascending pid in the pid order, and never a name after one
/// that comes later in byte order in the name order; and processes with the
/// same figure, name or pid keep the order they had in the input.
pub proof fn lemma_stable_sort_meaning(mode: SortMode, s: Seq<ProcessInfo>, r: Seq<ProcessInfo>)
    requires
        is_stable_sort(mode, s, r),
    ensures
        r.to_multiset() == s.to_multiset(),
        forall|i: int, j: int| #![trigger r[i], r[j]] 0 <= i < j < r.len() ==> match mode {
            SortMode::Rss => r[i].rss >= r[j].rss,
            SortMode::Pss => r[i].pss >= r[j].pss,
            SortMode::Private => r[i].private >= r[j].private,
            SortMode::Name => !byte_order_lt(encode_utf8(r[j].name), encode_utf8(r[i].name)),
            SortMode::Pid => r[i].pid <= r[j].pid,
        },
        mode == SortMode::Rss ==> forall|v: u64| #[trigger] with_rss(r, v) == with_rss(s, v),
        mode == SortMode::Pss ==> forall|v: u64| #[trigger] with_pss(r, v) == with_pss(s, v),
        mode == SortMode::Private ==> forall|v: u64| #[trigger] with_private(r, v) == with_private(s, v),
        mode == SortMode::Name ==> forall|v: Seq<u8>| #[trigger] with_name_bytes(r, v) == with_name_bytes(s, v),
        mode == SortMode::Pid ==> forall|v: u32| #[trigger] with_pid(r, v) == with_pid(s, v),
{
    assert forall|i: int, j: int| #![trigger r[i], r[j]] 0 <= i < j < r.len() implies match mode {
        SortMode::Rss => r[i].rss >= r[j].rss,
        SortMode::Pss => r[i].pss >= r[j].pss,
        SortMode::Private => r[i].private >= r[j].private,
        SortMode::Name => !byte_order_lt(encode_utf8(r[j].name), encode_utf8(r[i].name)),
        SortMode::Pid => r[i].pid <= r[j].pid,
    } by {
        assert(!before(mode, r[j], r[i]));
        lemma_mode_meaning(r[j], r[i]);
    }
    if mode == SortMode::Rss {
        assert forall|v: u64| #[trigger] with_rss(r, v) == with_rss(s, v) by {
            let x = ProcessInfo { rss: v, ..arbitrary_info() };
            assert(key_class(mode, r, x) == key_class(mode, s, x));
            assert(key_pred(mode, x) =~= (|y: ProcessInfo| y.rss == v));
        }
    } else if mode == SortMode::Pss {
        assert forall|v: u64| #[trigger] with_pss(r, v) == with_pss(s, v) by {
            let x = ProcessInfo { pss: v, ..arbitrary_info() };
            assert(key_class(mode, r, x) == key_class(mode, s, x));
            assert(key_pred(mode, x) =~= (|y: ProcessInfo| y.pss == v));
        }
    } else if mode == SortMode::Private {
        assert forall|v: u64| #[trigger] with_private(r, v) == with_private(s, v) by {
            let x = ProcessInfo { private: v, ..arbitrary_info() };
            assert(key_class(mode, r, x) == key_class(mode, s, x));
            assert(key_pred(mode, x) =~= (|y: ProcessInfo| y.private == v));
        }
    } else if mode == SortMode::Pid {
        assert forall|v: u32| #[trigger] with_pid(r, v) == with_pid(s, v) by {
            let x = ProcessInfo { pid: v, ..arbitrary_info() };
            assert(key_class(mode, r, x) == key_class(mode, s, x));
            assert(key_pred(mode, x) =~= (|y: ProcessInfo| y.pid == v));
        }
    } else {
        assert forall|v: Seq<u8>| #[trigger] with_name_bytes(r, v) == with_name_bytes(s, v) by {
            if exists|y: ProcessInfo| encode_utf8(y.name) == v {
                let y0 = choose|y: ProcessInfo| encode_utf8(y.name) == v;
                assert(key_class(mode, r, y0) == key_class(mode, s, y0));
                assert(key_pred(mode, y0) =~= (|y: ProcessInfo| encode_utf8(y.name) == v));
            } else {
                r.lemma_all_neg_filter_empty(|y: ProcessInfo| encode_utf8(y.name) == v);
                s.lemma_all_neg_filter_empty(|y: ProcessInfo| encode_utf8(y.name) == v);
                assert(with_name_bytes(r, v) =~= with_name_bytes(s, v));
            }
        }
    }
}

/// Some process value, to build others from.
spec fn arbitrary_info() -> ProcessInfo {
    ProcessInfo { pid: 0, name: Seq::empty(), rss: 0, pss: 0, private: 0 }
}

/// The processes of `s` with the given resident set size, in their order.
pub open spec fn with_rss(s: Seq<ProcessInfo>, v: u64) -> Seq<ProcessInfo> {
    s.filter(|y: ProcessInfo| y.rss == v)
}

/// The processes of `s` with the given proportional set size, in their order.
pub open spec fn with_pss(s: Seq<ProcessInfo>, v: u64) -> Seq<ProcessInfo> {
    s.filter(|y: ProcessInfo| y.pss == v)
}

/// The processes of `s` with the given private memory, in their order.
pub open spec fn with_private(s: Seq<ProcessInfo>, v: u64) -> Seq<ProcessInfo> {
    s.filter(|y: ProcessInfo| y.private == v)
}

/// The processes of `s` whose name has the given bytes, in their order.
pub open spec fn with_name_bytes(s: Seq<ProcessInfo>, v: Seq<u8>) -> Seq<ProcessInfo> {
    s.filter(|y: ProcessInfo| encode_utf8(y.name) == v)
}

/// The processes of `s` with the given pid, in their order.
pub open spec fn with_pid(s: Seq<ProcessInfo>, v: u32) -> Seq<ProcessInfo> {
    s.filter(|y: ProcessInfo| y.pid == v)
}

/// Whether `a` is shown strictly before `b` in the given order.
pub fn sorts_before(mode: SortMode, a: &ProcessMemory, b: &ProcessMemory) -> (res: bool)
    ensures
        res == before(mode, a@, b@),
        mode == SortMode::Rss ==> (res <==> a.rss > b.rss),
        mode == SortMode::Pss ==> (res <==> a.pss > b.pss),
        mode == SortMode::Private ==> (res <==> a.private > b.private),
        mode == SortMode::Name ==> (res <==> byte_order_lt(encode_utf8(a.name@), encode_utf8(b.name@))),
        mode == SortMode::Pid ==> (res <==> a.pid < b.pid),
{
    proof {
        lemma_mode_meaning(a@, b@);
    }
    match mode {
        SortMode::Rss => a.rss > b.rss,
        SortMode::Pss => a.pss > b.pss,
        SortMode::Private => a.private > b.private,
        SortMode::Name => bytes_less(a.name.as_str().as_bytes(), b.name.as_str().as_bytes()),
        SortMode::Pid => a.pid < b.pid,
    }
}

/// Lexicographic comparison of two byte strings.
pub fn bytes_less(a: &[u8], b: &[u8]) -> (res: bool)
    ensures
        res == bytes_lt(a@, b@),
        res == byte_order_lt(a@, b@),
{
    proof {
        lemma_bytes_lt_is_byte_order(a@, b@);
    }
    let mut i: usize = 0;
    assert(a@.skip(0) =~= a@);
    assert(b@.skip(0) =~= b@);
    while i < a.len() && i < b.len()
        invariant
            i <= a@.len(),
            i <= b@.len(),
            bytes_lt(a@, b@) == bytes_lt(a@.skip(i as int), b@.skip(i as int)),
            bytes_lt(a@, b@) == byte_order_lt(a@, b@),
        decreases a@.len() - i,
    {
        if a[i] != b[i] {
            return a[i] < b[i];
        }
        assert(a@.skip(i as int).drop_first() =~= a@.skip(i + 1));
        assert(b@.skip(i as int).drop_first() =~= b@.skip(i + 1));
        i = i + 1;
    }
    i < b.len()
}

/// The first position in `r` holding an element that `p` is shown before.
fn insertion_point(mode: SortMode, r: &Vec<ProcessMemory>, p: &ProcessMemory) -> (k: usize)
    ensures
        k <= r@.len(),
        forall|m: int| 0 <= m < k ==> !before(mode, p@, #[trigger] infos(r@)[m]),
        k < r@.len() ==> before(mode, p@, infos(r@)[k as int]),
{
    let mut k: usize = 0;
    while k < r.len()
        invariant
            k <= r@.len(),
            forall|m: int| 0 <= m < k ==> !before(mode, p@, #[trigger] infos(r@)[m]),
        decreases r@.len() - k,
    {
        if sorts_before(mode, p, &r[k]) {
            return k;
        }
        k = k + 1;
    }
    k
}

/// A stable sort of `procs` in the given order: a copy of the list,
/// ordered, with processes of equal key in the order they had.
pub fn stable_sort(mode: SortMode, procs: &Vec<ProcessMemory>) -> (r: Vec<ProcessMemory>)
    ensures
        is_stable_sort(mode, infos(procs@), infos(r@)),
{
    let mut r: Vec<ProcessMemory> = Vec::new();
    let n = procs.len();
    assert(infos(procs@).take(0) =~= infos(r@));
    for i in 0..n
        invariant
            n == procs@.len(),
            is_stable_sort(mode, infos(procs@).take(i as int), infos(r@)),
    {
        let p = procs[i].clone();
        let k = insertion_point(mode, &r, &p);
        let ghost before_insert = infos(r@);
        proof {
            lemma_insert_keeps_stable_sort(mode, infos(procs@).take(i as int), before_insert, p@, k as int);
        }
        r.insert(k, p);
        assert(infos(r@) =~= before_insert.insert(k as int, p@));
        assert(infos(procs@).take(i + 1) =~= infos(procs@).take(i as int).push(p@));
    }
    assert(infos(procs@).take(n as int) =~= infos(procs@));
    r
}

} // verus!
