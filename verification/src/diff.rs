//! The differencing combinators: relations that pin down the result of
//! comparing one node, the executable comparisons, and the generic engine
//! for optional fields, keyed collections and value-identity sequences.
//!
//! Keyed collections are merged by occurrence: the n-th entry with a given
//! key in the old collection is compared with the n-th entry carrying the
//! same key in the new one, so duplicate keys pair deterministically,
//! first occurrence first.  Entries whose key and occurrence exist on one
//! side only become `Removed` (old side, kept in old order) or `Added`
//! (new side, appended in new order).
use vstd::prelude::*;

use crate::diff_core::{DiffResult, MapDiff, VecDiff};

verus! {

broadcast use vstd::std_specs::vec::group_vec_axioms;

// ---------------------------------------------------------------------------
// Key counting for the occurrence-based merge.
// ---------------------------------------------------------------------------
/// How many of the first `n` keys equal `k`.
pub open spec fn kc(ks: Seq<Seq<char>>, k: Seq<char>, n: nat) -> nat
    decreases n,
{
    if n == 0 {
        0
    } else if n > ks.len() {
        kc(ks, k, ks.len())
    } else {
        kc(ks, k, (n - 1) as nat) + if ks[n - 1] == k {
            1nat
        } else {
            0nat
        }
    }
}

/// The occurrence index of entry `i` among entries with the same key.
pub open spec fn occ(ks: Seq<Seq<char>>, i: int) -> nat {
    kc(ks, ks[i], i as nat)
}

/// Whether old entry `i` has a partner of the same key and occurrence in the
/// new key sequence.
pub open spec fn matched(oldks: Seq<Seq<char>>, newks: Seq<Seq<char>>, i: int) -> bool {
    occ(oldks, i) < kc(newks, oldks[i], newks.len())
}

/// Whether new entry `j` has no partner in the old key sequence.
pub open spec fn leftover(oldks: Seq<Seq<char>>, newks: Seq<Seq<char>>, j: int) -> bool {
    occ(newks, j) >= kc(oldks, newks[j], oldks.len())
}

/// How many of the first `n` new entries are leftover.
pub open spec fn addc(oldks: Seq<Seq<char>>, newks: Seq<Seq<char>>, n: nat) -> nat
    decreases n,
{
    if n == 0 {
        0
    } else if n > newks.len() {
        addc(oldks, newks, newks.len())
    } else {
        addc(oldks, newks, (n - 1) as nat) + if leftover(oldks, newks, n - 1) {
            1nat
        } else {
            0nat
        }
    }
}

/// The keys of an entry sequence, in order.
pub open spec fn keys_of<T>(s: Seq<(String, T)>) -> Seq<Seq<char>> {
    s.map_values(|e: (String, T)| e.0@)
}

pub proof fn lemma_kc_mono(ks: Seq<Seq<char>>, k: Seq<char>, n1: nat, n2: nat)
    requires
        n1 <= n2,
    ensures
        kc(ks, k, n1) <= kc(ks, k, n2),
    decreases n2,
{
    if n2 > ks.len() {
        if n1 < ks.len() {
            lemma_kc_mono(ks, k, n1, ks.len());
        }
    } else if n2 > n1 {
        lemma_kc_mono(ks, k, n1, (n2 - 1) as nat);
    }
}

/// Counting past the end counts the whole sequence.
pub proof fn lemma_kc_over(ks: Seq<Seq<char>>, k: Seq<char>, n: nat)
    requires
        n >= ks.len(),
    ensures
        kc(ks, k, n) == kc(ks, k, ks.len()),
    decreases n,
{
    if n > ks.len() {
    }
}

/// An entry is always counted by the total count of its own key.
pub proof fn lemma_occ_lt_total(ks: Seq<Seq<char>>, i: int)
    requires
        0 <= i < ks.len(),
    ensures
        occ(ks, i) < kc(ks, ks[i], ks.len()),
{
    assert(kc(ks, ks[i], (i + 1) as nat) == occ(ks, i) + 1);
    lemma_kc_mono(ks, ks[i], (i + 1) as nat, ks.len());
}

/// Two entries with the same key and the same occurrence index are the same
/// entry.
pub proof fn lemma_occ_unique(ks: Seq<Seq<char>>, j1: int, j2: int)
    requires
        0 <= j1 < ks.len(),
        0 <= j2 < ks.len(),
        ks[j1] == ks[j2],
        occ(ks, j1) == occ(ks, j2),
    ensures
        j1 == j2,
{
    if j1 < j2 {
        assert(kc(ks, ks[j1], (j1 + 1) as nat) == occ(ks, j1) + 1);
        lemma_kc_mono(ks, ks[j1], (j1 + 1) as nat, j2 as nat);
    } else if j2 < j1 {
        assert(kc(ks, ks[j2], (j2 + 1) as nat) == occ(ks, j2) + 1);
        lemma_kc_mono(ks, ks[j2], (j2 + 1) as nat, j1 as nat);
    }
}

/// Merging a key sequence with itself leaves nothing over.
pub proof fn lemma_addc_self_zero(ks: Seq<Seq<char>>, n: nat)
    requires
        n <= ks.len(),
    ensures
        addc(ks, ks, n) == 0,
    decreases n,
{
    if n > 0 {
        lemma_addc_self_zero(ks, (n - 1) as nat);
        lemma_occ_lt_total(ks, n - 1);
    }
}

// ---------------------------------------------------------------------------
// Scalar field comparisons.
// ---------------------------------------------------------------------------
/// Relation between an optional string field of the two versions and its
/// diff: absent on both sides, present on one, or compared by content with
/// the new value as payload.
pub open spec fn dr_str_ok(d: DiffResult<String>, a: Option<String>, b: Option<String>) -> bool {
    match (a, b) {
        (Option::None, Option::None) => d is Absent,
        (Option::Some(x), Option::None) => d matches DiffResult::Removed(p) && p@ == x@,
        (Option::None, Option::Some(y)) => d matches DiffResult::Added(p) && p@ == y@,
        (Option::Some(x), Option::Some(y)) => if x@ == y@ {
            d matches DiffResult::Same(p) && p@ == y@
        } else {
            d matches DiffResult::Updated(p) && p@ == y@
        },
    }
}

pub fn diff_opt_string(a: &Option<String>, b: &Option<String>) -> (d: DiffResult<String>)
    ensures
        dr_str_ok(d, *a, *b),
{
    match (a, b) {
        (Option::None, Option::None) => DiffResult::Absent,
        (Option::Some(x), Option::None) => DiffResult::Removed(x.clone()),
        (Option::None, Option::Some(y)) => DiffResult::Added(y.clone()),
        (Option::Some(x), Option::Some(y)) => {
            if *x == *y {
                DiffResult::Same(y.clone())
            } else {
                DiffResult::Updated(y.clone())
            }
        },
    }
}

pub open spec fn added_str_ok(d: DiffResult<String>, t: Option<String>) -> bool {
    match t {
        Option::None => d is Absent,
        Option::Some(x) => d matches DiffResult::Added(p) && p@ == x@,
    }
}

pub fn added_opt_string(t: &Option<String>) -> (d: DiffResult<String>)
    ensures
        added_str_ok(d, *t),
{
    match t {
        Option::None => DiffResult::Absent,
        Option::Some(x) => DiffResult::Added(x.clone()),
    }
}

pub open spec fn removed_str_ok(d: DiffResult<String>, t: Option<String>) -> bool {
    match t {
        Option::None => d is Absent,
        Option::Some(x) => d matches DiffResult::Removed(p) && p@ == x@,
    }
}

pub fn removed_opt_string(t: &Option<String>) -> (d: DiffResult<String>)
    ensures
        removed_str_ok(d, *t),
{
    match t {
        Option::None => DiffResult::Absent,
        Option::Some(x) => DiffResult::Removed(x.clone()),
    }
}

/// Relation for an optional field of any copyable value with exact equality.
pub open spec fn dr_copy_ok<V>(d: DiffResult<V>, a: Option<V>, b: Option<V>, eq: bool) -> bool {
    match (a, b) {
        (Option::None, Option::None) => d is Absent,
        (Option::Some(x), Option::None) => d matches DiffResult::Removed(p) && p == x,
        (Option::None, Option::Some(y)) => d matches DiffResult::Added(p) && p == y,
        (Option::Some(x), Option::Some(y)) => if eq {
            d matches DiffResult::Same(p) && p == y
        } else {
            d matches DiffResult::Updated(p) && p == y
        },
    }
}

pub fn diff_opt_bool(a: &Option<bool>, b: &Option<bool>) -> (d: DiffResult<bool>)
    ensures
        dr_copy_ok(
            d,
            *a,
            *b,
            (a matches Option::Some(x) && b matches Option::Some(y)) ==> a->0 == b->0,
        ),
{
    match (a, b) {
        (Option::None, Option::None) => DiffResult::Absent,
        (Option::Some(x), Option::None) => DiffResult::Removed(*x),
        (Option::None, Option::Some(y)) => DiffResult::Added(*y),
        (Option::Some(x), Option::Some(y)) => {
            if *x == *y {
                DiffResult::Same(*y)
            } else {
                DiffResult::Updated(*y)
            }
        },
    }
}

pub fn diff_opt_u64(a: &Option<u64>, b: &Option<u64>) -> (d: DiffResult<u64>)
    ensures
        dr_copy_ok(
            d,
            *a,
            *b,
            (a matches Option::Some(x) && b matches Option::Some(y)) ==> a->0 == b->0,
        ),
{
    match (a, b) {
        (Option::None, Option::None) => DiffResult::Absent,
        (Option::Some(x), Option::None) => DiffResult::Removed(*x),
        (Option::None, Option::Some(y)) => DiffResult::Added(*y),
        (Option::Some(x), Option::Some(y)) => {
            if *x == *y {
                DiffResult::Same(*y)
            } else {
                DiffResult::Updated(*y)
            }
        },
    }
}

pub fn diff_opt_num(a: &Option<crate::json::JsonNum>, b: &Option<crate::json::JsonNum>) -> (d:
    DiffResult<crate::json::JsonNum>)
    ensures
        dr_copy_ok(
            d,
            *a,
            *b,
            (a matches Option::Some(x) && b matches Option::Some(y)) ==> crate::json::json_num_eq(
                a->0,
                b->0,
            ),
        ),
{
    match (a, b) {
        (Option::None, Option::None) => DiffResult::Absent,
        (Option::Some(x), Option::None) => DiffResult::Removed(*x),
        (Option::None, Option::Some(y)) => DiffResult::Added(*y),
        (Option::Some(x), Option::Some(y)) => {
            if crate::json::json_num_equal(x, y) {
                DiffResult::Same(*y)
            } else {
                DiffResult::Updated(*y)
            }
        },
    }
}

/// A scalar diff, of whatever payload, that records no change.
pub open spec fn dr_flat_same<V>(d: DiffResult<V>) -> bool {
    d is Absent || d is Same
}

// ---------------------------------------------------------------------------
// The element contract: what it means to diff, add or remove one value of a
// node type, and what a changeless payload looks like.
// ---------------------------------------------------------------------------
pub trait DiffElem: Sized {
    /// The diff payload produced for this node type.
    type D;

    /// Relation pinning the diff of two present values; the result is `Same`
    /// or `Updated`, never anything else.
    spec fn elem_ok(d: DiffResult<Self::D>, a: Self, b: Self) -> bool;

    /// Relation pinning the payload built for a value present only in the
    /// new version.
    spec fn added_ok(p: Self::D, t: Self) -> bool;

    /// Relation pinning the payload built for a value present only in the
    /// old version.
    spec fn removed_ok(p: Self::D, t: Self) -> bool;

    /// The payload records no change anywhere below it.
    spec fn d_same(p: Self::D) -> bool;

    fn diff(a: &Self, b: &Self) -> (d: DiffResult<Self::D>)
        ensures
            Self::elem_ok(d, *a, *b),
    ;

    fn added(t: &Self) -> (p: Self::D)
        ensures
            Self::added_ok(p, *t),
    ;

    fn removed(t: &Self) -> (p: Self::D)
        ensures
            Self::removed_ok(p, *t),
    ;

    /// Diffing a value against itself yields `Same` with a changeless
    /// payload.
    proof fn lemma_self(t: Self, d: DiffResult<Self::D>)
        requires
            Self::elem_ok(d, t, t),
        ensures
            d matches DiffResult::Same(p) && Self::d_same(p),
    ;
}

// ---------------------------------------------------------------------------
// Optional composite fields.
// ---------------------------------------------------------------------------
pub open spec fn opt_elem_ok<T: DiffElem>(
    d: DiffResult<T::D>,
    a: Option<T>,
    b: Option<T>,
) -> bool {
    match (a, b) {
        (Option::None, Option::None) => d is Absent,
        (Option::Some(x), Option::None) => d matches DiffResult::Removed(p) && T::removed_ok(p, x),
        (Option::None, Option::Some(y)) => d matches DiffResult::Added(p) && T::added_ok(p, y),
        (Option::Some(x), Option::Some(y)) => T::elem_ok(d, x, y),
    }
}

pub fn diff_opt_elem<T: DiffElem>(a: &Option<T>, b: &Option<T>) -> (d: DiffResult<T::D>)
    ensures
        opt_elem_ok::<T>(d, *a, *b),
{
    match (a, b) {
        (Option::None, Option::None) => DiffResult::Absent,
        (Option::Some(x), Option::None) => DiffResult::Removed(T::removed(x)),
        (Option::None, Option::Some(y)) => DiffResult::Added(T::added(y)),
        (Option::Some(x), Option::Some(y)) => T::diff(x, y),
    }
}

pub open spec fn opt_added_ok<T: DiffElem>(d: DiffResult<T::D>, t: Option<T>) -> bool {
    match t {
        Option::None => d is Absent,
        Option::Some(x) => d matches DiffResult::Added(p) && T::added_ok(p, x),
    }
}

pub fn added_opt_elem<T: DiffElem>(t: &Option<T>) -> (d: DiffResult<T::D>)
    ensures
        opt_added_ok::<T>(d, *t),
{
    match t {
        Option::None => DiffResult::Absent,
        Option::Some(x) => DiffResult::Added(T::added(x)),
    }
}

pub open spec fn opt_removed_ok<T: DiffElem>(d: DiffResult<T::D>, t: Option<T>) -> bool {
    match t {
        Option::None => d is Absent,
        Option::Some(x) => d matches DiffResult::Removed(p) && T::removed_ok(p, x),
    }
}

pub fn removed_opt_elem<T: DiffElem>(t: &Option<T>) -> (d: DiffResult<T::D>)
    ensures
        opt_removed_ok::<T>(d, *t),
{
    match t {
        Option::None => DiffResult::Absent,
        Option::Some(x) => DiffResult::Removed(T::removed(x)),
    }
}

/// A diff of an optional composite field that records no change.
pub open spec fn opt_d_same<T: DiffElem>(d: DiffResult<T::D>) -> bool {
    match d {
        DiffResult::Absent => true,
        DiffResult::Same(p) => T::d_same(p),
        _ => false,
    }
}

pub proof fn lemma_opt_self<T: DiffElem>(t: Option<T>, d: DiffResult<T::D>)
    requires
        opt_elem_ok::<T>(d, t, t),
    ensures
        opt_d_same::<T>(d),
        t is Some ==> d is Same,
        t is None ==> d is Absent,
{
    match t {
        Option::None => {},
        Option::Some(x) => {
            T::lemma_self(x, d);
        },
    }
}

// ---------------------------------------------------------------------------
// Keyed collections.
// ---------------------------------------------------------------------------
/// Relation pinning the merge of two keyed entry sequences: one output entry
/// per old entry in old order — compared with its occurrence partner where
/// one exists, `Removed` otherwise — then one `Added` entry per leftover new
/// entry, in new order.
pub open spec fn map_diff_ok<T: DiffElem>(
    m: Seq<(String, DiffResult<T::D>)>,
    old: Seq<(String, T)>,
    new: Seq<(String, T)>,
) -> bool {
    let oldks = keys_of(old);
    let newks = keys_of(new);
    &&& m.len() == old.len() + addc(oldks, newks, new.len() as nat)
    &&& forall|i: int|
        0 <= i < old.len() ==> {
            &&& (#[trigger] m[i]).0@ == oldks[i]
            &&& (matched(oldks, newks, i) ==> forall|j: int|
                0 <= j < new.len() && newks[j] == oldks[i] && occ(newks, j) == occ(oldks, i)
                    ==> T::elem_ok((#[trigger] m[i]).1, old[i].1, (#[trigger] new[j]).1))
            &&& (!matched(oldks, newks, i) ==> (m[i].1 matches DiffResult::Removed(p)
                && T::removed_ok(p, old[i].1)))
        }
    &&& forall|j: int|
        #![trigger new[j]]
        0 <= j < new.len() && leftover(oldks, newks, j) ==> {
            let t = old.len() + addc(oldks, newks, j as nat);
            &&& m[t as int].0@ == newks[j]
            &&& (m[t as int].1 matches DiffResult::Added(p) && T::added_ok(p, new[j].1))
        }
}

/// A merged collection that records no change: every entry compared equal.
pub open spec fn map_d_same<T: DiffElem>(m: Seq<(String, DiffResult<T::D>)>) -> bool {
    forall|i: int|
        0 <= i < m.len() ==> ((#[trigger] m[i]).1 matches DiffResult::Same(p) && T::d_same(p))
}

/// How many of the first `n` keys of `entries` equal `k`.
pub(crate) fn count_key_prefix<T>(entries: &Vec<(String, T)>, k: &String, n: usize) -> (c: usize)
    requires
        n <= entries@.len(),
    ensures
        c == kc(keys_of(entries@), k@, n as nat),
        c <= n,
{
    let mut c: usize = 0;
    let mut i: usize = 0;
    while i < n
        invariant
            n <= entries@.len(),
            0 <= i <= n,
            c == kc(keys_of(entries@), k@, i as nat),
            c <= i,
        decreases n - i,
    {
        if entries[i].0 == *k {
            c = c + 1;
        }
        i = i + 1;
    }
    c
}

/// The index of the occurrence-`m` entry with key `k`, if the collection has
/// that many.
pub(crate) fn find_occurrence<T>(entries: &Vec<(String, T)>, k: &String, m: usize) -> (r: Option<usize>)
    ensures
        match r {
            Option::Some(j) => j < entries@.len() && keys_of(entries@)[j as int] == k@ && occ(
                keys_of(entries@),
                j as int,
            ) == m,
            Option::None => kc(keys_of(entries@), k@, entries@.len() as nat) <= m,
        },
{
    let ghost ks = keys_of(entries@);
    let mut cnt: usize = 0;
    let mut j: usize = 0;
    while j < entries.len()
        invariant
            0 <= j <= entries@.len(),
            ks == keys_of(entries@),
            cnt == kc(ks, k@, j as nat),
            cnt <= m,
        decreases entries@.len() - j,
    {
        if entries[j].0 == *k {
            if cnt == m {
                return Some(j);
            }
            cnt = cnt + 1;
        }
        j = j + 1;
    }
    proof {
        if kc(ks, k@, entries@.len() as nat) > m {
        }
    }
    None
}

/// Merge two keyed entry collections into their difference.
pub fn map_diff_elems<T: DiffElem>(old: &Vec<(String, T)>, new: &Vec<(String, T)>) -> (m: MapDiff<
    T::D,
>)
    ensures
        map_diff_ok::<T>(m@, old@, new@),
{
    let ghost oldks = keys_of(old@);
    let ghost newks = keys_of(new@);
    let mut m: MapDiff<T::D> = Vec::new();
    let mut i: usize = 0;
    while i < old.len()
        invariant
            0 <= i <= old@.len(),
            oldks == keys_of(old@),
            newks == keys_of(new@),
            m@.len() == i,
            forall|q: int|
                0 <= q < i ==> {
                    &&& (#[trigger] m@[q]).0@ == oldks[q]
                    &&& (matched(oldks, newks, q) ==> forall|j: int|
                        0 <= j < new@.len() && newks[j] == oldks[q] && occ(newks, j) == occ(
                            oldks,
                            q,
                        ) ==> T::elem_ok((#[trigger] m@[q]).1, old@[q].1, (#[trigger] new@[j]).1))
                    &&& (!matched(oldks, newks, q) ==> (m@[q].1 matches DiffResult::Removed(p)
                        && T::removed_ok(p, old@[q].1)))
                },
        decreases old@.len() - i,
    {
        let mo = count_key_prefix(old, &old[i].0, i);
        proof {
            assert(oldks[i as int] == old@[i as int].0@);
            assert(mo == occ(oldks, i as int));
        }
        let found = find_occurrence(new, &old[i].0, mo);
        match found {
            Option::Some(j) => {
                let d = T::diff(&old[i].1, &new[j].1);
                let key = old[i].0.clone();
                proof {
                    lemma_occ_lt_total(newks, j as int);
                    assert(matched(oldks, newks, i as int));
                    assert forall|j2: int|
                        0 <= j2 < new@.len() && newks[j2] == oldks[i as int] && occ(newks, j2)
                            == occ(oldks, i as int) implies j2 == j as int by {
                        lemma_occ_unique(newks, j2, j as int);
                    }
                }
                m.push((key, d));
            },
            Option::None => {
                let p = T::removed(&old[i].1);
                let key = old[i].0.clone();
                proof {
                    assert(!matched(oldks, newks, i as int));
                }
                m.push((key, DiffResult::Removed(p)));
            },
        }
        i = i + 1;
    }
    let mut j: usize = 0;
    while j < new.len()
        invariant
            0 <= j <= new@.len(),
            oldks == keys_of(old@),
            newks == keys_of(new@),
            m@.len() == old@.len() + addc(oldks, newks, j as nat),
            forall|q: int|
                0 <= q < old@.len() ==> {
                    &&& (#[trigger] m@[q]).0@ == oldks[q]
                    &&& (matched(oldks, newks, q) ==> forall|j2: int|
                        0 <= j2 < new@.len() && newks[j2] == oldks[q] && occ(newks, j2) == occ(
                            oldks,
                            q,
                        ) ==> T::elem_ok((#[trigger] m@[q]).1, old@[q].1, (#[trigger] new@[j2]).1))
                    &&& (!matched(oldks, newks, q) ==> (m@[q].1 matches DiffResult::Removed(p)
                        && T::removed_ok(p, old@[q].1)))
                },
            forall|q: int|
                #![trigger new@[q]]
                0 <= q < j && leftover(oldks, newks, q) ==> {
                    let t = old@.len() + addc(oldks, newks, q as nat);
                    &&& m@[t as int].0@ == newks[q]
                    &&& (m@[t as int].1 matches DiffResult::Added(p) && T::added_ok(p, new@[q].1))
                },
        decreases new@.len() - j,
    {
        let mn = count_key_prefix(new, &new[j].0, j);
        let co = count_key_prefix(old, &new[j].0, old.len());
        proof {
            assert(newks[j as int] == new@[j as int].0@);
            assert(mn == occ(newks, j as int));
            assert(co == kc(oldks, newks[j as int], oldks.len() as nat));
        }
        if mn >= co {
            let p = T::added(&new[j].1);
            let key = new[j].0.clone();
            proof {
                assert(leftover(oldks, newks, j as int));
            }
            m.push((key, DiffResult::Added(p)));
        } else {
            proof {
                assert(!leftover(oldks, newks, j as int));
            }
        }
        proof {
            assert(addc(oldks, newks, (j + 1) as nat) == addc(oldks, newks, j as nat)
                + if leftover(oldks, newks, j as int) {
                1nat
            } else {
                0nat
            });
            assert forall|q: int|
                #![trigger new@[q]]
                0 <= q < j + 1 && leftover(oldks, newks, q) implies {
                let t = old@.len() + addc(oldks, newks, q as nat);
                &&& m@[t as int].0@ == newks[q]
                &&& (m@[t as int].1 matches DiffResult::Added(p) && T::added_ok(p, new@[q].1))
            } by {
                if q < j {
                    lemma_addc_mono(oldks, newks, (q + 1) as nat, j as nat);
                }
            }
        }
        j = j + 1;
    }
    m
}

/// Diffing a keyed collection against itself compares every entry with
/// itself and adds nothing.
pub proof fn lemma_map_self<T: DiffElem>(s: Seq<(String, T)>, m: Seq<(String, DiffResult<T::D>)>)
    requires
        map_diff_ok::<T>(m, s, s),
    ensures
        m.len() == s.len(),
        map_d_same::<T>(m),
        forall|i: int| 0 <= i < m.len() ==> (#[trigger] m[i]).0@ == keys_of(s)[i],
{
    let ks = keys_of(s);
    lemma_addc_self_zero(ks, s.len() as nat);
    assert forall|i: int| 0 <= i < m.len() implies (#[trigger] m[i]).1 matches DiffResult::Same(p)
        && T::d_same(p) by {
        lemma_occ_lt_total(ks, i);
        assert(matched(ks, ks, i));
        assert(T::elem_ok(m[i].1, s[i].1, s[i].1));
        T::lemma_self(s[i].1, m[i].1);
    }
}

/// For collections whose keys are unique on each side, the merged keys are
/// exactly the union of old and new keys: every old and new key appears,
/// and (by the companion lemma) none appears twice.
#[verifier::rlimit(60)]
#[verifier::spinoff_prover]
pub proof fn lemma_map_keys<T: DiffElem>(
    m: Seq<(String, DiffResult<T::D>)>,
    old: Seq<(String, T)>,
    new: Seq<(String, T)>,
)
    requires
        map_diff_ok::<T>(m, old, new),
    ensures
        forall|i: int|
            #![trigger old[i]]
            0 <= i < old.len() ==> exists|q: int| 0 <= q < m.len() && (#[trigger] m[q]).0@
                == keys_of(old)[i],
        forall|j: int|
            #![trigger new[j]]
            0 <= j < new.len() ==> exists|q: int| 0 <= q < m.len() && (#[trigger] m[q]).0@
                == keys_of(new)[j],
        forall|q: int|
            #![trigger m[q]]
            0 <= q < m.len() ==> (exists|i: int| 0 <= i < old.len() && keys_of(old)[i] == m[q].0@)
                || (exists|j: int| 0 <= j < new.len() && keys_of(new)[j] == m[q].0@),
{
    let oldks = keys_of(old);
    let newks = keys_of(new);
    lemma_map_keys_cover::<T>(m, old, new);
    assert forall|i: int| #![trigger old[i]] 0 <= i < old.len() implies exists|q: int|
        0 <= q < m.len() && (#[trigger] m[q]).0@ == oldks[i] by {
        assert(m[i].0@ == oldks[i]);
    }
    assert forall|j: int| #![trigger new[j]] 0 <= j < new.len() implies exists|q: int|
        0 <= q < m.len() && (#[trigger] m[q]).0@ == newks[j] by {
        if leftover(oldks, newks, j) {
            let t = old.len() + addc(oldks, newks, j as nat);
            lemma_addc_mono(oldks, newks, (j + 1) as nat, new.len() as nat);
            assert(m[t as int].0@ == newks[j]);
        } else {
            lemma_occ_surjective(oldks, newks[j], occ(newks, j), oldks.len() as nat);
            let i = choose|i: int|
                0 <= i < oldks.len() && oldks[i] == newks[j] && occ(oldks, i) == occ(newks, j);
            assert(m[i].0@ == oldks[i]);
        }
    }
    assert forall|q: int| #![trigger m[q]] 0 <= q < m.len() implies (exists|i: int|
        0 <= i < old.len() && keys_of(old)[i] == m[q].0@) || (exists|j: int|
        0 <= j < new.len() && keys_of(new)[j] == m[q].0@) by {
        if q < old.len() {
            assert(keys_of(old)[q] == m[q].0@);
        } else {
            let j = addc_inv::<T>(m, old, new, q);
            assert(keys_of(new)[j] == m[q].0@);
        }
    }
}

/// With unique keys, an old key never coincides with a leftover new key.
proof fn lemma_no_cross_key(oldks: Seq<Seq<char>>, newks: Seq<Seq<char>>, q1: int, j2: int)
    requires
        forall|i1: int, i2: int| 0 <= i1 < i2 < oldks.len() ==> oldks[i1] != oldks[i2],
        forall|j1: int, j2a: int| 0 <= j1 < j2a < newks.len() ==> newks[j1] != newks[j2a],
        0 <= q1 < oldks.len(),
        0 <= j2 < newks.len(),
        leftover(oldks, newks, j2),
    ensures
        oldks[q1] != newks[j2],
{
    lemma_unique_occ_zero(oldks);
    lemma_unique_occ_zero(newks);
    if oldks[q1] == newks[j2] {
        assert(occ(newks, j2) == 0);
        assert(kc(oldks, newks[j2], (q1 + 1) as nat) >= 1);
        lemma_kc_mono(oldks, newks[j2], (q1 + 1) as nat, oldks.len() as nat);
        assert(!leftover(oldks, newks, j2));
    }
}

/// One pair of distinct merge positions carries distinct keys, when the
/// input keys are unique on each side.
#[verifier::rlimit(60)]
#[verifier::spinoff_prover]
proof fn lemma_map_pair_distinct<T: DiffElem>(
    m: Seq<(String, DiffResult<T::D>)>,
    old: Seq<(String, T)>,
    new: Seq<(String, T)>,
    q1: int,
    q2: int,
)
    requires
        map_diff_ok::<T>(m, old, new),
        forall|i1: int, i2: int|
            0 <= i1 < i2 < old.len() ==> keys_of(old)[i1] != keys_of(old)[i2],
        forall|j1: int, j2: int|
            0 <= j1 < j2 < new.len() ==> keys_of(new)[j1] != keys_of(new)[j2],
        0 <= q1 < q2 < m.len(),
    ensures
        m[q1].0@ != m[q2].0@,
{
    let oldks = keys_of(old);
    let newks = keys_of(new);
    if q1 < old.len() && q2 < old.len() {
        assert(m[q1].0@ == oldks[q1]);
        assert(m[q2].0@ == oldks[q2]);
    } else if q1 < old.len() && q2 >= old.len() {
        lemma_addc_surjective(oldks, newks, new.len() as nat, (q2 - old.len()) as nat);
        let j2 = choose|j: int|
            0 <= j < new.len() && leftover(oldks, newks, j) && addc(oldks, newks, j as nat) == q2
                - old.len();
        assert(new[j2] == new[j2]);
        assert(m[q1].0@ == oldks[q1]);
        assert(m[q2].0@ == newks[j2]);
        lemma_no_cross_key(oldks, newks, q1, j2);
    } else {
        lemma_addc_surjective(oldks, newks, new.len() as nat, (q1 - old.len()) as nat);
        lemma_addc_surjective(oldks, newks, new.len() as nat, (q2 - old.len()) as nat);
        let j1 = choose|j: int|
            0 <= j < new.len() && leftover(oldks, newks, j) && addc(oldks, newks, j as nat) == q1
                - old.len();
        let j2 = choose|j: int|
            0 <= j < new.len() && leftover(oldks, newks, j) && addc(oldks, newks, j as nat) == q2
                - old.len();
        assert(new[j1] == new[j1]);
        assert(new[j2] == new[j2]);
        assert(m[q1].0@ == newks[j1]);
        assert(m[q2].0@ == newks[j2]);
        if j1 < j2 {
            lemma_addc_mono(oldks, newks, (j1 + 1) as nat, j2 as nat);
        } else if j2 < j1 {
            lemma_addc_mono(oldks, newks, (j2 + 1) as nat, j1 as nat);
        }
        if m[q1].0@ == m[q2].0@ {
            assert(newks[j1] == newks[j2]);
            assert(j1 != j2);
        }
    }
}

/// For collections whose keys are unique on each side, no key appears twice
/// in the merge.
pub proof fn lemma_map_keys_unique<T: DiffElem>(
    m: Seq<(String, DiffResult<T::D>)>,
    old: Seq<(String, T)>,
    new: Seq<(String, T)>,
)
    requires
        map_diff_ok::<T>(m, old, new),
        forall|i1: int, i2: int|
            0 <= i1 < i2 < old.len() ==> keys_of(old)[i1] != keys_of(old)[i2],
        forall|j1: int, j2: int|
            0 <= j1 < j2 < new.len() ==> keys_of(new)[j1] != keys_of(new)[j2],
    ensures
        forall|q1: int, q2: int| 0 <= q1 < q2 < m.len() ==> (#[trigger] m[q1]).0@ != (
        #[trigger] m[q2]).0@,
{
    assert forall|q1: int, q2: int| 0 <= q1 < q2 < m.len() implies (#[trigger] m[q1]).0@ != (
    #[trigger] m[q2]).0@ by {
        lemma_map_pair_distinct::<T>(m, old, new, q1, q2);
    }
}

/// Monotonicity of the leftover count.
pub proof fn lemma_addc_mono(oldks: Seq<Seq<char>>, newks: Seq<Seq<char>>, n1: nat, n2: nat)
    requires
        n1 <= n2,
        n2 <= newks.len(),
    ensures
        addc(oldks, newks, n1) <= addc(oldks, newks, n2),
    decreases n2,
{
    if n2 > n1 {
        lemma_addc_mono(oldks, newks, n1, (n2 - 1) as nat);
    }
}

/// In a duplicate-free key sequence every occurrence index is zero.
pub proof fn lemma_unique_occ_zero(ks: Seq<Seq<char>>)
    requires
        forall|i1: int, i2: int| 0 <= i1 < i2 < ks.len() ==> ks[i1] != ks[i2],
    ensures
        forall|i: int| 0 <= i < ks.len() ==> occ(ks, i) == 0,
        forall|i: int| 0 <= i < ks.len() ==> kc(ks, #[trigger] ks[i], ks.len() as nat) == 1,
{
    assert forall|i: int| 0 <= i < ks.len() implies occ(ks, i) == 0 by {
        lemma_kc_unique_prefix(ks, ks[i], i as nat, i);
    }
    assert forall|i: int| 0 <= i < ks.len() implies kc(ks, #[trigger] ks[i], ks.len() as nat)
        == 1 by {
        lemma_kc_unique_total(ks, i);
    }
}

/// With no duplicate keys, a prefix not containing index `w` counts none of
/// key `ks[w]`.
proof fn lemma_kc_unique_prefix(ks: Seq<Seq<char>>, k: Seq<char>, n: nat, w: int)
    requires
        forall|i1: int, i2: int| 0 <= i1 < i2 < ks.len() ==> ks[i1] != ks[i2],
        0 <= w < ks.len(),
        n <= w,
        k == ks[w],
    ensures
        kc(ks, k, n) == 0,
    decreases n,
{
    if n > 0 {
        lemma_kc_unique_prefix(ks, k, (n - 1) as nat, w);
    }
}

/// With no duplicate keys, the total count of a present key is one.
proof fn lemma_kc_unique_total(ks: Seq<Seq<char>>, w: int)
    requires
        forall|i1: int, i2: int| 0 <= i1 < i2 < ks.len() ==> ks[i1] != ks[i2],
        0 <= w < ks.len(),
    ensures
        kc(ks, ks[w], ks.len() as nat) == 1,
{
    lemma_kc_count_from(ks, ks[w], ks.len() as nat, w);
}

/// Counting a key equal to `ks[w]` over the first `n` entries yields one if
/// `w < n` and zero otherwise, when keys are unique.
proof fn lemma_kc_count_from(ks: Seq<Seq<char>>, k: Seq<char>, n: nat, w: int)
    requires
        forall|i1: int, i2: int| 0 <= i1 < i2 < ks.len() ==> ks[i1] != ks[i2],
        0 <= w < ks.len(),
        k == ks[w],
        n <= ks.len(),
    ensures
        kc(ks, k, n) == if w < n {
            1nat
        } else {
            0nat
        },
    decreases n,
{
    if n > 0 {
        lemma_kc_count_from(ks, k, (n - 1) as nat, w);
    }
}

/// The source index of tail entry `q` of a merge: the leftover new entry
/// whose running leftover count places it at `q`.
spec fn addc_inv<T: DiffElem>(
    m: Seq<(String, DiffResult<T::D>)>,
    old: Seq<(String, T)>,
    new: Seq<(String, T)>,
    q: int,
) -> int {
    choose|j: int|
        0 <= j < new.len() && leftover(keys_of(old), keys_of(new), j) && old.len() + addc(
            keys_of(old),
            keys_of(new),
            j as nat,
        ) == q && (#[trigger] m[q]).0@ == keys_of(new)[j]
}

/// Every tail entry of a merge comes from some leftover new entry.
proof fn lemma_map_keys_cover<T: DiffElem>(
    m: Seq<(String, DiffResult<T::D>)>,
    old: Seq<(String, T)>,
    new: Seq<(String, T)>,
)
    requires
        map_diff_ok::<T>(m, old, new),
    ensures
        forall|q: int|
            old.len() <= q < m.len() ==> {
                let j = addc_inv::<T>(m, old, new, q);
                0 <= j < new.len() && leftover(keys_of(old), keys_of(new), j) && old.len() + addc(
                    keys_of(old),
                    keys_of(new),
                    j as nat,
                ) == q && (#[trigger] m[q]).0@ == keys_of(new)[j]
            },
{
    let oldks = keys_of(old);
    let newks = keys_of(new);
    assert forall|q: int| old.len() <= q < m.len() implies {
        let j = addc_inv::<T>(m, old, new, q);
        0 <= j < new.len() && leftover(oldks, newks, j) && old.len() + addc(oldks, newks, j as nat)
            == q && (#[trigger] m[q]).0@ == newks[j]
    } by {
        let t = q - old.len();
        lemma_addc_surjective(oldks, newks, new.len() as nat, t as nat);
        let jw = choose|jw: int|
            0 <= jw < new.len() && leftover(oldks, newks, jw) && addc(oldks, newks, jw as nat)
                == t;
        assert(m[(old.len() + addc(oldks, newks, jw as nat)) as int].0@ == newks[jw]);
        assert(0 <= jw < new.len() && leftover(oldks, newks, jw) && old.len() + addc(
            oldks,
            newks,
            jw as nat,
        ) == q && m[q].0@ == newks[jw]);
    }
}

/// Every occurrence index below the total count of a key is held by some
/// entry with that key.
proof fn lemma_occ_surjective(ks: Seq<Seq<char>>, k: Seq<char>, w: nat, n: nat)
    requires
        n <= ks.len(),
        w < kc(ks, k, n),
    ensures
        exists|i: int| 0 <= i < n && ks[i] == k && occ(ks, i) == w,
    decreases n,
{
    if n > 0 {
        if ks[n - 1] == k && kc(ks, k, (n - 1) as nat) == w {
            assert(0 <= n - 1 < n && ks[n - 1] == k && occ(ks, n - 1) == w);
        } else {
            lemma_occ_surjective(ks, k, w, (n - 1) as nat);
        }
    }
}

/// Every tail offset below the final leftover count is hit by some leftover
/// entry.
proof fn lemma_addc_surjective(oldks: Seq<Seq<char>>, newks: Seq<Seq<char>>, n: nat, t: nat)
    requires
        n <= newks.len(),
        t < addc(oldks, newks, n),
    ensures
        exists|j: int|
            0 <= j < n && leftover(oldks, newks, j) && addc(oldks, newks, j as nat) == t,
    decreases n,
{
    if n > 0 {
        if leftover(oldks, newks, n - 1) && addc(oldks, newks, (n - 1) as nat) == t {
            assert(0 <= n - 1 < n && leftover(oldks, newks, n - 1) && addc(
                oldks,
                newks,
                (n - 1) as nat,
            ) == t);
        } else {
            lemma_addc_surjective(oldks, newks, (n - 1) as nat, t);
        }
    }
}

// ---------------------------------------------------------------------------
// Value-identity sequences (enum literals and other atomic lists).
// ---------------------------------------------------------------------------
/// An element matched by structural value identity.
pub trait AtomEq: Sized {
    spec fn aeq(a: Self, b: Self) -> bool;

    proof fn lemma_aeq_refl(a: Self)
        ensures
            Self::aeq(a, a),
    ;

    proof fn lemma_aeq_sym(a: Self, b: Self)
        requires
            Self::aeq(a, b),
        ensures
            Self::aeq(b, a),
    ;

    proof fn lemma_aeq_trans(a: Self, b: Self, c: Self)
        requires
            Self::aeq(a, b),
            Self::aeq(b, c),
        ensures
            Self::aeq(a, c),
    ;

    fn aeq_exec(a: &Self, b: &Self) -> (r: bool)
        ensures
            r == Self::aeq(*a, *b),
    ;
}

/// An atomic element that can be copied up to identity.
pub trait AtomDup: AtomEq {
    fn dup(t: &Self) -> (r: Self)
        ensures
            Self::aeq(r, *t),
    ;
}

/// How many of the first `n` elements are identical to `k`.
pub open spec fn ackc<V: AtomEq>(s: Seq<V>, k: V, n: nat) -> nat
    decreases n,
{
    if n == 0 {
        0
    } else if n > s.len() {
        ackc(s, k, s.len())
    } else {
        ackc(s, k, (n - 1) as nat) + if V::aeq(s[n - 1], k) {
            1nat
        } else {
            0nat
        }
    }
}

/// The occurrence index of element `i` among identical elements before it.
pub open spec fn aocc<V: AtomEq>(s: Seq<V>, i: int) -> nat {
    ackc(s, s[i], i as nat)
}

/// Whether old element `i` has an identical partner of the same occurrence
/// in the new sequence.
pub open spec fn amatched<V: AtomEq>(old: Seq<V>, new: Seq<V>, i: int) -> bool {
    aocc(old, i) < ackc(new, old[i], new.len())
}

/// Whether new element `j` has no identical partner in the old sequence.
pub open spec fn aleftover<V: AtomEq>(old: Seq<V>, new: Seq<V>, j: int) -> bool {
    aocc(new, j) >= ackc(old, new[j], old.len())
}

/// How many of the first `n` new elements are leftover.
pub open spec fn aaddc<V: AtomEq>(old: Seq<V>, new: Seq<V>, n: nat) -> nat
    decreases n,
{
    if n == 0 {
        0
    } else if n > new.len() {
        aaddc(old, new, new.len())
    } else {
        aaddc(old, new, (n - 1) as nat) + if aleftover(old, new, n - 1) {
            1nat
        } else {
            0nat
        }
    }
}

/// Relation pinning the diff of a value-identity sequence: one result per
/// old element in order — `Same` where an identical partner exists in the
/// new sequence, occurrence for occurrence, `Removed` otherwise — then one
/// `Added` per leftover new element, in order.  Elements are atomic: there
/// is no `Updated`.
pub open spec fn vec_atoms_ok<V: AtomEq>(r: Seq<DiffResult<V>>, old: Seq<V>, new: Seq<V>) -> bool {
    &&& r.len() == old.len() + aaddc(old, new, new.len())
    &&& forall|i: int|
        #![trigger old[i]]
        0 <= i < old.len() ==> {
            &&& (amatched(old, new, i) ==> (r[i] matches DiffResult::Same(p) && V::aeq(p, old[i])))
            &&& (!amatched(old, new, i) ==> (r[i] matches DiffResult::Removed(p) && V::aeq(
                p,
                old[i],
            )))
        }
    &&& forall|j: int|
        #![trigger new[j]]
        0 <= j < new.len() && aleftover(old, new, j) ==> {
            let t = old.len() + aaddc(old, new, j as nat);
            r[t as int] matches DiffResult::Added(p) && V::aeq(p, new[j])
        }
}

fn count_atoms<V: AtomEq>(s: &Vec<V>, k: &V, n: usize) -> (c: usize)
    requires
        n <= s@.len(),
    ensures
        c == ackc(s@, *k, n as nat),
        c <= n,
{
    let mut c: usize = 0;
    let mut i: usize = 0;
    while i < n
        invariant
            n <= s@.len(),
            0 <= i <= n,
            c == ackc(s@, *k, i as nat),
            c <= i,
        decreases n - i,
    {
        if V::aeq_exec(&s[i], k) {
            c = c + 1;
        }
        i = i + 1;
    }
    c
}

/// Diff a value-identity sequence.
pub fn diff_vec_atoms<V: AtomDup>(old: &Vec<V>, new: &Vec<V>) -> (r: VecDiff<V>)
    ensures
        vec_atoms_ok::<V>(r@, old@, new@),
{
    let mut r: VecDiff<V> = Vec::new();
    let mut i: usize = 0;
    while i < old.len()
        invariant
            0 <= i <= old@.len(),
            r@.len() == i,
            forall|q: int|
                #![trigger old@[q]]
                0 <= q < i ==> {
                    &&& (amatched(old@, new@, q) ==> (r@[q] matches DiffResult::Same(p) && V::aeq(
                        p,
                        old@[q],
                    )))
                    &&& (!amatched(old@, new@, q) ==> (r@[q] matches DiffResult::Removed(p)
                        && V::aeq(p, old@[q])))
                },
        decreases old@.len() - i,
    {
        let mo = count_atoms(old, &old[i], i);
        let cn = count_atoms(new, &old[i], new.len());
        let p = V::dup(&old[i]);
        if mo < cn {
            r.push(DiffResult::Same(p));
        } else {
            r.push(DiffResult::Removed(p));
        }
        i = i + 1;
    }
    let mut j: usize = 0;
    while j < new.len()
        invariant
            0 <= j <= new@.len(),
            r@.len() == old@.len() + aaddc(old@, new@, j as nat),
            forall|q: int|
                #![trigger old@[q]]
                0 <= q < old@.len() ==> {
                    &&& (amatched(old@, new@, q) ==> (r@[q] matches DiffResult::Same(p) && V::aeq(
                        p,
                        old@[q],
                    )))
                    &&& (!amatched(old@, new@, q) ==> (r@[q] matches DiffResult::Removed(p)
                        && V::aeq(p, old@[q])))
                },
            forall|q: int|
                #![trigger new@[q]]
                0 <= q < j && aleftover(old@, new@, q) ==> {
                    let t = old@.len() + aaddc(old@, new@, q as nat);
                    r@[t as int] matches DiffResult::Added(p) && V::aeq(p, new@[q])
                },
        decreases new@.len() - j,
    {
        let mn = count_atoms(new, &new[j], j);
        let co = count_atoms(old, &new[j], old.len());
        if mn >= co {
            let p = V::dup(&new[j]);
            r.push(DiffResult::Added(p));
        }
        proof {
            assert(aaddc(old@, new@, (j + 1) as nat) == aaddc(old@, new@, j as nat) + if aleftover(
                old@,
                new@,
                j as int,
            ) {
                1nat
            } else {
                0nat
            });
            assert forall|q: int|
                #![trigger new@[q]]
                0 <= q < j + 1 && aleftover(old@, new@, q) implies {
                let t = old@.len() + aaddc(old@, new@, q as nat);
                r@[t as int] matches DiffResult::Added(p) && V::aeq(p, new@[q])
            } by {
                if q < j {
                    lemma_aaddc_mono::<V>(old@, new@, (q + 1) as nat, j as nat);
                }
            }
        }
        j = j + 1;
    }
    r
}

proof fn lemma_aaddc_mono<V: AtomEq>(old: Seq<V>, new: Seq<V>, n1: nat, n2: nat)
    requires
        n1 <= n2,
        n2 <= new.len(),
    ensures
        aaddc(old, new, n1) <= aaddc(old, new, n2),
    decreases n2,
{
    if n2 > n1 {
        lemma_aaddc_mono::<V>(old, new, n1, (n2 - 1) as nat);
    }
}

proof fn lemma_ackc_mono<V: AtomEq>(s: Seq<V>, k: V, n1: nat, n2: nat)
    requires
        n1 <= n2,
    ensures
        ackc(s, k, n1) <= ackc(s, k, n2),
    decreases n2,
{
    if n2 > s.len() {
        if n1 < s.len() {
            lemma_ackc_mono::<V>(s, k, n1, s.len());
        }
    } else if n2 > n1 {
        lemma_ackc_mono::<V>(s, k, n1, (n2 - 1) as nat);
    }
}

/// Every element is counted by the total count of elements identical to it.
proof fn lemma_aocc_lt_total<V: AtomEq>(s: Seq<V>, i: int)
    requires
        0 <= i < s.len(),
    ensures
        aocc(s, i) < ackc(s, s[i], s.len()),
{
    V::lemma_aeq_refl(s[i]);
    assert(ackc(s, s[i], (i + 1) as nat) == aocc(s, i) + 1);
    lemma_ackc_mono::<V>(s, s[i], (i + 1) as nat, s.len());
}

proof fn lemma_aaddc_self_zero<V: AtomEq>(s: Seq<V>, n: nat)
    requires
        n <= s.len(),
    ensures
        aaddc(s, s, n) == 0,
    decreases n,
{
    if n > 0 {
        lemma_aaddc_self_zero::<V>(s, (n - 1) as nat);
        lemma_aocc_lt_total::<V>(s, n - 1);
    }
}

/// Diffing a value-identity sequence against itself keeps every element and
/// adds nothing.
pub proof fn lemma_vec_atoms_self<V: AtomEq>(s: Seq<V>, r: Seq<DiffResult<V>>)
    requires
        vec_atoms_ok::<V>(r, s, s),
    ensures
        r.len() == s.len(),
        forall|i: int| 0 <= i < r.len() ==> (#[trigger] r[i]) is Same,
{
    lemma_aaddc_self_zero::<V>(s, s.len());
    assert forall|i: int| 0 <= i < r.len() implies (#[trigger] r[i]) is Same by {
        lemma_aocc_lt_total::<V>(s, i);
        assert(amatched(s, s, i));
        assert(s[i] == s[i]);
    }
}

// ---------------------------------------------------------------------------
// Whole collections present on one side only.
// ---------------------------------------------------------------------------
pub open spec fn map_added_ok<T: DiffElem>(
    m: Seq<(String, DiffResult<T::D>)>,
    s: Seq<(String, T)>,
) -> bool {
    &&& m.len() == s.len()
    &&& forall|i: int|
        0 <= i < s.len() ==> (#[trigger] m[i]).0@ == keys_of(s)[i] && (m[i].1
            matches DiffResult::Added(p) && T::added_ok(p, s[i].1))
}

pub fn map_added_elems<T: DiffElem>(s: &Vec<(String, T)>) -> (m: MapDiff<T::D>)
    ensures
        map_added_ok::<T>(m@, s@),
{
    let mut m: MapDiff<T::D> = Vec::new();
    let mut i: usize = 0;
    while i < s.len()
        invariant
            0 <= i <= s@.len(),
            m@.len() == i,
            forall|q: int|
                0 <= q < i ==> (#[trigger] m@[q]).0@ == keys_of(s@)[q] && (m@[q].1
                    matches DiffResult::Added(p) && T::added_ok(p, s@[q].1)),
        decreases s@.len() - i,
    {
        let p = T::added(&s[i].1);
        let key = s[i].0.clone();
        m.push((key, DiffResult::Added(p)));
        i = i + 1;
    }
    m
}

pub open spec fn map_removed_ok<T: DiffElem>(
    m: Seq<(String, DiffResult<T::D>)>,
    s: Seq<(String, T)>,
) -> bool {
    &&& m.len() == s.len()
    &&& forall|i: int|
        0 <= i < s.len() ==> (#[trigger] m[i]).0@ == keys_of(s)[i] && (m[i].1
            matches DiffResult::Removed(p) && T::removed_ok(p, s[i].1))
}

pub fn map_removed_elems<T: DiffElem>(s: &Vec<(String, T)>) -> (m: MapDiff<T::D>)
    ensures
        map_removed_ok::<T>(m@, s@),
{
    let mut m: MapDiff<T::D> = Vec::new();
    let mut i: usize = 0;
    while i < s.len()
        invariant
            0 <= i <= s@.len(),
            m@.len() == i,
            forall|q: int|
                0 <= q < i ==> (#[trigger] m@[q]).0@ == keys_of(s@)[q] && (m@[q].1
                    matches DiffResult::Removed(p) && T::removed_ok(p, s@[q].1)),
        decreases s@.len() - i,
    {
        let p = T::removed(&s[i].1);
        let key = s[i].0.clone();
        m.push((key, DiffResult::Removed(p)));
        i = i + 1;
    }
    m
}

/// Every entry of a merged collection compared equal (tags only).
pub open spec fn map_all_same<T: DiffElem>(m: Seq<(String, DiffResult<T::D>)>) -> bool {
    forall|i: int| 0 <= i < m.len() ==> (#[trigger] m[i]).1 is Same
}

fn map_entries_all_same<T: DiffElem>(m: &MapDiff<T::D>) -> (r: bool)
    ensures
        r == map_all_same::<T>(m@),
{
    let mut i: usize = 0;
    while i < m.len()
        invariant
            0 <= i <= m@.len(),
            forall|q: int| 0 <= q < i ==> (#[trigger] m@[q]).1 is Same,
        decreases m@.len() - i,
    {
        if !m[i].1.is_same() {
            return false;
        }
        i = i + 1;
    }
    true
}

/// Relation for an optional keyed-collection field.
pub open spec fn dr_map_ok<T: DiffElem>(
    d: DiffResult<MapDiff<T::D>>,
    a: Option<Vec<(String, T)>>,
    b: Option<Vec<(String, T)>>,
) -> bool {
    match (a, b) {
        (Option::None, Option::None) => d is Absent,
        (Option::Some(x), Option::None) => d matches DiffResult::Removed(m) && map_removed_ok::<
            T,
        >(m@, x@),
        (Option::None, Option::Some(y)) => d matches DiffResult::Added(m) && map_added_ok::<T>(
            m@,
            y@,
        ),
        (Option::Some(x), Option::Some(y)) => match d {
            DiffResult::Same(m) => map_diff_ok::<T>(m@, x@, y@) && map_all_same::<T>(m@),
            DiffResult::Updated(m) => map_diff_ok::<T>(m@, x@, y@) && !map_all_same::<T>(m@),
            _ => false,
        },
    }
}

pub fn diff_opt_map<T: DiffElem>(
    a: &Option<Vec<(String, T)>>,
    b: &Option<Vec<(String, T)>>,
) -> (d: DiffResult<MapDiff<T::D>>)
    ensures
        dr_map_ok::<T>(d, *a, *b),
{
    match (a, b) {
        (Option::None, Option::None) => DiffResult::Absent,
        (Option::Some(x), Option::None) => DiffResult::Removed(map_removed_elems(x)),
        (Option::None, Option::Some(y)) => DiffResult::Added(map_added_elems(y)),
        (Option::Some(x), Option::Some(y)) => {
            let m = map_diff_elems(x, y);
            if map_entries_all_same::<T>(&m) {
                DiffResult::Same(m)
            } else {
                DiffResult::Updated(m)
            }
        },
    }
}

/// A diff of an optional keyed-collection field that records no change.
pub open spec fn map_field_d_same<T: DiffElem>(d: DiffResult<MapDiff<T::D>>) -> bool {
    match d {
        DiffResult::Absent => true,
        DiffResult::Same(m) => map_d_same::<T>(m@),
        _ => false,
    }
}

pub proof fn lemma_map_field_self<T: DiffElem>(
    t: Option<Vec<(String, T)>>,
    d: DiffResult<MapDiff<T::D>>,
)
    requires
        dr_map_ok::<T>(d, t, t),
    ensures
        map_field_d_same::<T>(d),
        d is Absent || d is Same,
{
    match t {
        Option::None => {},
        Option::Some(s) => {
            match d {
                DiffResult::Same(m) => {
                    lemma_map_self::<T>(s@, m@);
                },
                DiffResult::Updated(m) => {
                    lemma_map_self::<T>(s@, m@);
                    assert(map_all_same::<T>(m@));
                },
                _ => {},
            }
        },
    }
}

// ---------------------------------------------------------------------------
// Optional value-identity sequence fields.
// ---------------------------------------------------------------------------
pub open spec fn atoms_added_ok<V: AtomEq>(r: Seq<DiffResult<V>>, s: Seq<V>) -> bool {
    &&& r.len() == s.len()
    &&& forall|i: int|
        0 <= i < s.len() ==> ((#[trigger] r[i]) matches DiffResult::Added(p) && V::aeq(p, s[i]))
}

pub open spec fn atoms_removed_ok<V: AtomEq>(r: Seq<DiffResult<V>>, s: Seq<V>) -> bool {
    &&& r.len() == s.len()
    &&& forall|i: int|
        0 <= i < s.len() ==> ((#[trigger] r[i]) matches DiffResult::Removed(p) && V::aeq(p, s[i]))
}

pub open spec fn atoms_all_same<V>(r: Seq<DiffResult<V>>) -> bool {
    forall|i: int| 0 <= i < r.len() ==> (#[trigger] r[i]) is Same
}

fn atoms_added_vec<V: AtomDup>(s: &Vec<V>) -> (r: VecDiff<V>)
    ensures
        atoms_added_ok::<V>(r@, s@),
{
    let mut r: VecDiff<V> = Vec::new();
    let mut i: usize = 0;
    while i < s.len()
        invariant
            0 <= i <= s@.len(),
            r@.len() == i,
            forall|q: int|
                0 <= q < i ==> ((#[trigger] r@[q]) matches DiffResult::Added(p) && V::aeq(
                    p,
                    s@[q],
                )),
        decreases s@.len() - i,
    {
        let p = V::dup(&s[i]);
        r.push(DiffResult::Added(p));
        i = i + 1;
    }
    r
}

fn atoms_removed_vec<V: AtomDup>(s: &Vec<V>) -> (r: VecDiff<V>)
    ensures
        atoms_removed_ok::<V>(r@, s@),
{
    let mut r: VecDiff<V> = Vec::new();
    let mut i: usize = 0;
    while i < s.len()
        invariant
            0 <= i <= s@.len(),
            r@.len() == i,
            forall|q: int|
                0 <= q < i ==> ((#[trigger] r@[q]) matches DiffResult::Removed(p) && V::aeq(
                    p,
                    s@[q],
                )),
        decreases s@.len() - i,
    {
        let p = V::dup(&s[i]);
        r.push(DiffResult::Removed(p));
        i = i + 1;
    }
    r
}

fn atoms_vec_all_same<V>(r: &VecDiff<V>) -> (b: bool)
    ensures
        b == atoms_all_same::<V>(r@),
{
    let mut i: usize = 0;
    while i < r.len()
        invariant
            0 <= i <= r@.len(),
            forall|q: int| 0 <= q < i ==> (#[trigger] r@[q]) is Same,
        decreases r@.len() - i,
    {
        if !r[i].is_same() {
            return false;
        }
        i = i + 1;
    }
    true
}

/// Relation for an optional value-identity sequence field.
pub open spec fn dr_atoms_ok<V: AtomEq>(
    d: DiffResult<VecDiff<V>>,
    a: Option<Vec<V>>,
    b: Option<Vec<V>>,
) -> bool {
    match (a, b) {
        (Option::None, Option::None) => d is Absent,
        (Option::Some(x), Option::None) => d matches DiffResult::Removed(r) && atoms_removed_ok::<
            V,
        >(r@, x@),
        (Option::None, Option::Some(y)) => d matches DiffResult::Added(r) && atoms_added_ok::<V>(
            r@,
            y@,
        ),
        (Option::Some(x), Option::Some(y)) => match d {
            DiffResult::Same(r) => vec_atoms_ok::<V>(r@, x@, y@) && atoms_all_same::<V>(r@),
            DiffResult::Updated(r) => vec_atoms_ok::<V>(r@, x@, y@) && !atoms_all_same::<V>(r@),
            _ => false,
        },
    }
}

pub fn diff_opt_atoms<V: AtomDup>(a: &Option<Vec<V>>, b: &Option<Vec<V>>) -> (d: DiffResult<
    VecDiff<V>,
>)
    ensures
        dr_atoms_ok::<V>(d, *a, *b),
{
    match (a, b) {
        (Option::None, Option::None) => DiffResult::Absent,
        (Option::Some(x), Option::None) => DiffResult::Removed(atoms_removed_vec(x)),
        (Option::None, Option::Some(y)) => DiffResult::Added(atoms_added_vec(y)),
        (Option::Some(x), Option::Some(y)) => {
            let r = diff_vec_atoms(x, y);
            if atoms_vec_all_same::<V>(&r) {
                DiffResult::Same(r)
            } else {
                DiffResult::Updated(r)
            }
        },
    }
}

pub open spec fn atoms_field_d_same<V>(d: DiffResult<VecDiff<V>>) -> bool {
    match d {
        DiffResult::Absent => true,
        DiffResult::Same(r) => atoms_all_same::<V>(r@),
        _ => false,
    }
}

pub proof fn lemma_atoms_field_self<V: AtomEq>(t: Option<Vec<V>>, d: DiffResult<VecDiff<V>>)
    requires
        dr_atoms_ok::<V>(d, t, t),
    ensures
        atoms_field_d_same::<V>(d),
        d is Absent || d is Same,
{
    match t {
        Option::None => {},
        Option::Some(s) => {
            match d {
                DiffResult::Same(r) => {
                    lemma_vec_atoms_self::<V>(s@, r@);
                },
                DiffResult::Updated(r) => {
                    lemma_vec_atoms_self::<V>(s@, r@);
                    assert(atoms_all_same::<V>(r@));
                },
                _ => {},
            }
        },
    }
}

// ---------------------------------------------------------------------------
// Sequences keyed by a natural identity, with recursive element diffs
// (operation parameters: identity is name plus location, or the reference).
// ---------------------------------------------------------------------------
/// Identical identities count the same.
proof fn lemma_ackc_cong<V: AtomEq>(s: Seq<V>, k1: V, k2: V, n: nat)
    requires
        V::aeq(k1, k2),
    ensures
        ackc(s, k1, n) == ackc(s, k2, n),
    decreases n,
{
    if n > s.len() {
        lemma_ackc_cong::<V>(s, k1, k2, s.len());
    } else if n > 0 {
        lemma_ackc_cong::<V>(s, k1, k2, (n - 1) as nat);
        if V::aeq(s[n - 1], k1) && !V::aeq(s[n - 1], k2) {
            V::lemma_aeq_trans(s[n - 1], k1, k2);
        }
        if V::aeq(s[n - 1], k2) && !V::aeq(s[n - 1], k1) {
            V::lemma_aeq_sym(k1, k2);
            V::lemma_aeq_trans(s[n - 1], k2, k1);
        }
    }
}

/// Two elements of one identity and one occurrence index are one element.
proof fn lemma_aocc_unique<V: AtomEq>(s: Seq<V>, j1: int, j2: int)
    requires
        0 <= j1 < s.len(),
        0 <= j2 < s.len(),
        V::aeq(s[j1], s[j2]),
        aocc(s, j1) == aocc(s, j2),
    ensures
        j1 == j2,
{
    if j1 < j2 {
        V::lemma_aeq_refl(s[j1]);
        assert(ackc(s, s[j1], (j1 + 1) as nat) == aocc(s, j1) + 1);
        lemma_ackc_mono::<V>(s, s[j1], (j1 + 1) as nat, j2 as nat);
        V::lemma_aeq_sym(s[j1], s[j2]);
        lemma_ackc_cong::<V>(s, s[j2], s[j1], j2 as nat);
    } else if j2 < j1 {
        V::lemma_aeq_refl(s[j2]);
        assert(ackc(s, s[j2], (j2 + 1) as nat) == aocc(s, j2) + 1);
        lemma_ackc_mono::<V>(s, s[j2], (j2 + 1) as nat, j1 as nat);
        lemma_ackc_cong::<V>(s, s[j1], s[j2], j1 as nat);
    }
}

fn find_by_ident<V: AtomEq>(s: &Vec<V>, k: &V, m: usize) -> (r: Option<usize>)
    ensures
        match r {
            Option::Some(j) => j < s@.len() && V::aeq(s@[j as int], *k) && ackc(s@, *k, j as nat)
                == m,
            Option::None => ackc(s@, *k, s@.len()) <= m,
        },
{
    let mut cnt: usize = 0;
    let mut j: usize = 0;
    while j < s.len()
        invariant
            0 <= j <= s@.len(),
            cnt == ackc(s@, *k, j as nat),
            cnt <= m,
        decreases s@.len() - j,
    {
        if V::aeq_exec(&s[j], k) {
            if cnt == m {
                return Some(j);
            }
            cnt = cnt + 1;
        }
        j = j + 1;
    }
    None
}

/// Relation pinning the identity-keyed merge of two element sequences: one
/// result per old element in old order — compared with its identity-and-
/// occurrence partner where one exists, `Removed` otherwise — then one
/// `Added` per leftover new element, in new order.
pub open spec fn ident_merge_ok<T: DiffElem + AtomEq>(
    r: Seq<DiffResult<T::D>>,
    old: Seq<T>,
    new: Seq<T>,
) -> bool {
    &&& r.len() == old.len() + aaddc(old, new, new.len())
    &&& forall|i: int|
        #![trigger old[i]]
        0 <= i < old.len() ==> {
            &&& (amatched(old, new, i) ==> forall|j: int|
                0 <= j < new.len() && T::aeq(#[trigger] new[j], old[i]) && aocc(new, j) == aocc(
                    old,
                    i,
                ) ==> T::elem_ok(r[i], old[i], new[j]))
            &&& (!amatched(old, new, i) ==> (r[i] matches DiffResult::Removed(p) && T::removed_ok(
                p,
                old[i],
            )))
        }
    &&& forall|j: int|
        #![trigger new[j]]
        0 <= j < new.len() && aleftover(old, new, j) ==> {
            let t = old.len() + aaddc(old, new, j as nat);
            r[t as int] matches DiffResult::Added(p) && T::added_ok(p, new[j])
        }
}

/// Merge two identity-keyed element sequences into their difference.
pub fn ident_merge_elems<T: DiffElem + AtomEq>(old: &Vec<T>, new: &Vec<T>) -> (r: VecDiff<T::D>)
    ensures
        ident_merge_ok::<T>(r@, old@, new@),
{
    let mut r: VecDiff<T::D> = Vec::new();
    let mut i: usize = 0;
    while i < old.len()
        invariant
            0 <= i <= old@.len(),
            r@.len() == i,
            forall|q: int|
                #![trigger old@[q]]
                0 <= q < i ==> {
                    &&& (amatched(old@, new@, q) ==> forall|j: int|
                        0 <= j < new@.len() && T::aeq(#[trigger] new@[j], old@[q]) && aocc(
                            new@,
                            j,
                        ) == aocc(old@, q) ==> T::elem_ok(r@[q], old@[q], new@[j]))
                    &&& (!amatched(old@, new@, q) ==> (r@[q] matches DiffResult::Removed(p)
                        && T::removed_ok(p, old@[q])))
                },
        decreases old@.len() - i,
    {
        let mo = count_atoms(old, &old[i], i);
        let found = find_by_ident(new, &old[i], mo);
        match found {
            Option::Some(j) => {
                let d = T::diff(&old[i], &new[j]);
                proof {
                    let oi = old@[i as int];
                    let jj = j as int;
                    assert(ackc(new@, oi, j as nat) == aocc(old@, i as int));
                    assert(ackc(new@, oi, (jj + 1) as nat) == aocc(old@, i as int) + 1);
                    lemma_ackc_mono::<T>(new@, oi, (jj + 1) as nat, new@.len());
                    assert(amatched(old@, new@, i as int));
                    lemma_ackc_cong::<T>(new@, new@[jj], oi, jj as nat);
                    assert(aocc(new@, jj) == aocc(old@, i as int));
                    assert forall|j2: int|
                        0 <= j2 < new@.len() && T::aeq(#[trigger] new@[j2], oi) && aocc(new@, j2)
                            == aocc(old@, i as int) implies j2 == jj by {
                        T::lemma_aeq_sym(new@[jj], oi);
                        T::lemma_aeq_trans(new@[j2], oi, new@[jj]);
                        lemma_aocc_unique::<T>(new@, j2, jj);
                    }
                }
                r.push(d);
            },
            Option::None => {
                let p = T::removed(&old[i]);
                proof {
                    assert(!amatched(old@, new@, i as int));
                }
                r.push(DiffResult::Removed(p));
            },
        }
        i = i + 1;
    }
    let mut j: usize = 0;
    while j < new.len()
        invariant
            0 <= j <= new@.len(),
            r@.len() == old@.len() + aaddc(old@, new@, j as nat),
            forall|q: int|
                #![trigger old@[q]]
                0 <= q < old@.len() ==> {
                    &&& (amatched(old@, new@, q) ==> forall|j2: int|
                        0 <= j2 < new@.len() && T::aeq(#[trigger] new@[j2], old@[q]) && aocc(
                            new@,
                            j2,
                        ) == aocc(old@, q) ==> T::elem_ok(r@[q], old@[q], new@[j2]))
                    &&& (!amatched(old@, new@, q) ==> (r@[q] matches DiffResult::Removed(p)
                        && T::removed_ok(p, old@[q])))
                },
            forall|q: int|
                #![trigger new@[q]]
                0 <= q < j && aleftover(old@, new@, q) ==> {
                    let t = old@.len() + aaddc(old@, new@, q as nat);
                    r@[t as int] matches DiffResult::Added(p) && T::added_ok(p, new@[q])
                },
        decreases new@.len() - j,
    {
        let mn = count_atoms(new, &new[j], j);
        let co = count_atoms(old, &new[j], old.len());
        if mn >= co {
            let p = T::added(&new[j]);
            proof {
                assert(aleftover(old@, new@, j as int));
            }
            r.push(DiffResult::Added(p));
        } else {
            proof {
                assert(!aleftover(old@, new@, j as int));
            }
        }
        proof {
            assert(aaddc(old@, new@, (j + 1) as nat) == aaddc(old@, new@, j as nat) + if aleftover(
                old@,
                new@,
                j as int,
            ) {
                1nat
            } else {
                0nat
            });
            assert forall|q: int|
                #![trigger new@[q]]
                0 <= q < j + 1 && aleftover(old@, new@, q) implies {
                let t = old@.len() + aaddc(old@, new@, q as nat);
                r@[t as int] matches DiffResult::Added(p) && T::added_ok(p, new@[q])
            } by {
                if q < j {
                    lemma_aaddc_mono::<T>(old@, new@, (q + 1) as nat, j as nat);
                }
            }
        }
        j = j + 1;
    }
    r
}

/// Merging an identity-keyed sequence with itself compares every element
/// with itself and adds nothing.
pub proof fn lemma_ident_merge_self<T: DiffElem + AtomEq>(s: Seq<T>, r: Seq<DiffResult<T::D>>)
    requires
        ident_merge_ok::<T>(r, s, s),
    ensures
        r.len() == s.len(),
        forall|i: int|
            0 <= i < r.len() ==> ((#[trigger] r[i]) matches DiffResult::Same(p) && T::d_same(p)),
{
    lemma_aaddc_self_zero::<T>(s, s.len());
    assert forall|i: int| 0 <= i < r.len() implies ((#[trigger] r[i]) matches DiffResult::Same(p)
        && T::d_same(p)) by {
        lemma_aocc_lt_total::<T>(s, i);
        assert(amatched(s, s, i));
        T::lemma_aeq_refl(s[i]);
        assert(T::elem_ok(r[i], s[i], s[i]));
        T::lemma_self(s[i], r[i]);
    }
}

/// Relation for an optional identity-keyed sequence field.
pub open spec fn dr_ident_ok<T: DiffElem + AtomEq>(
    d: DiffResult<VecDiff<T::D>>,
    a: Option<Vec<T>>,
    b: Option<Vec<T>>,
) -> bool {
    match (a, b) {
        (Option::None, Option::None) => d is Absent,
        (Option::Some(x), Option::None) => d matches DiffResult::Removed(r) && elems_removed_ok::<
            T,
        >(r@, x@),
        (Option::None, Option::Some(y)) => d matches DiffResult::Added(r) && elems_added_ok::<T>(
            r@,
            y@,
        ),
        (Option::Some(x), Option::Some(y)) => match d {
            DiffResult::Same(r) => ident_merge_ok::<T>(r@, x@, y@) && atoms_all_same::<T::D>(r@),
            DiffResult::Updated(r) => ident_merge_ok::<T>(r@, x@, y@) && !atoms_all_same::<T::D>(
                r@,
            ),
            _ => false,
        },
    }
}

pub open spec fn elems_added_ok<T: DiffElem>(r: Seq<DiffResult<T::D>>, s: Seq<T>) -> bool {
    &&& r.len() == s.len()
    &&& forall|i: int|
        0 <= i < s.len() ==> ((#[trigger] r[i]) matches DiffResult::Added(p) && T::added_ok(
            p,
            s[i],
        ))
}

pub open spec fn elems_removed_ok<T: DiffElem>(r: Seq<DiffResult<T::D>>, s: Seq<T>) -> bool {
    &&& r.len() == s.len()
    &&& forall|i: int|
        0 <= i < s.len() ==> ((#[trigger] r[i]) matches DiffResult::Removed(p) && T::removed_ok(
            p,
            s[i],
        ))
}

fn elems_added_vec<T: DiffElem>(s: &Vec<T>) -> (r: VecDiff<T::D>)
    ensures
        elems_added_ok::<T>(r@, s@),
{
    let mut r: VecDiff<T::D> = Vec::new();
    let mut i: usize = 0;
    while i < s.len()
        invariant
            0 <= i <= s@.len(),
            r@.len() == i,
            forall|q: int|
                0 <= q < i ==> ((#[trigger] r@[q]) matches DiffResult::Added(p) && T::added_ok(
                    p,
                    s@[q],
                )),
        decreases s@.len() - i,
    {
        let p = T::added(&s[i]);
        r.push(DiffResult::Added(p));
        i = i + 1;
    }
    r
}

fn elems_removed_vec<T: DiffElem>(s: &Vec<T>) -> (r: VecDiff<T::D>)
    ensures
        elems_removed_ok::<T>(r@, s@),
{
    let mut r: VecDiff<T::D> = Vec::new();
    let mut i: usize = 0;
    while i < s.len()
        invariant
            0 <= i <= s@.len(),
            r@.len() == i,
            forall|q: int|
                0 <= q < i ==> ((#[trigger] r@[q]) matches DiffResult::Removed(p)
                    && T::removed_ok(p, s@[q])),
        decreases s@.len() - i,
    {
        let p = T::removed(&s[i]);
        r.push(DiffResult::Removed(p));
        i = i + 1;
    }
    r
}

pub fn diff_opt_ident<T: DiffElem + AtomEq>(a: &Option<Vec<T>>, b: &Option<Vec<T>>) -> (d:
    DiffResult<VecDiff<T::D>>)
    ensures
        dr_ident_ok::<T>(d, *a, *b),
{
    match (a, b) {
        (Option::None, Option::None) => DiffResult::Absent,
        (Option::Some(x), Option::None) => DiffResult::Removed(elems_removed_vec(x)),
        (Option::None, Option::Some(y)) => DiffResult::Added(elems_added_vec(y)),
        (Option::Some(x), Option::Some(y)) => {
            let r = ident_merge_elems(x, y);
            if atoms_vec_all_same_d::<T>(&r) {
                DiffResult::Same(r)
            } else {
                DiffResult::Updated(r)
            }
        },
    }
}

fn atoms_vec_all_same_d<T: DiffElem>(r: &VecDiff<T::D>) -> (b: bool)
    ensures
        b == atoms_all_same::<T::D>(r@),
{
    let mut i: usize = 0;
    while i < r.len()
        invariant
            0 <= i <= r@.len(),
            forall|q: int| 0 <= q < i ==> (#[trigger] r@[q]) is Same,
        decreases r@.len() - i,
    {
        if !r[i].is_same() {
            return false;
        }
        i = i + 1;
    }
    true
}

/// A diff of an optional identity-keyed sequence field with no change.
pub open spec fn ident_field_d_same<T: DiffElem>(d: DiffResult<VecDiff<T::D>>) -> bool {
    match d {
        DiffResult::Absent => true,
        DiffResult::Same(r) => forall|i: int|
            0 <= i < r@.len() ==> ((#[trigger] r@[i]) matches DiffResult::Same(p) && T::d_same(p)),
        _ => false,
    }
}

pub proof fn lemma_ident_field_self<T: DiffElem + AtomEq>(
    t: Option<Vec<T>>,
    d: DiffResult<VecDiff<T::D>>,
)
    requires
        dr_ident_ok::<T>(d, t, t),
    ensures
        ident_field_d_same::<T>(d),
        d is Absent || d is Same,
{
    match t {
        Option::None => {},
        Option::Some(s) => {
            match d {
                DiffResult::Same(r) => {
                    lemma_ident_merge_self::<T>(s@, r@);
                },
                DiffResult::Updated(r) => {
                    lemma_ident_merge_self::<T>(s@, r@);
                    assert(atoms_all_same::<T::D>(r@));
                },
                _ => {},
            }
        },
    }
}

// ---------------------------------------------------------------------------
// Remaining scalar field comparisons: copyable values present on one side,
// free-form values, type designators, unknown-field bags.
// ---------------------------------------------------------------------------
pub open spec fn added_copy_ok<V>(d: DiffResult<V>, t: Option<V>) -> bool {
    match t {
        Option::None => d is Absent,
        Option::Some(x) => d matches DiffResult::Added(p) && p == x,
    }
}

pub fn added_opt_copy<V: Copy>(t: &Option<V>) -> (d: DiffResult<V>)
    ensures
        added_copy_ok(d, *t),
{
    match t {
        Option::None => DiffResult::Absent,
        Option::Some(x) => DiffResult::Added(*x),
    }
}

pub open spec fn removed_copy_ok<V>(d: DiffResult<V>, t: Option<V>) -> bool {
    match t {
        Option::None => d is Absent,
        Option::Some(x) => d matches DiffResult::Removed(p) && p == x,
    }
}

pub fn removed_opt_copy<V: Copy>(t: &Option<V>) -> (d: DiffResult<V>)
    ensures
        removed_copy_ok(d, *t),
{
    match t {
        Option::None => DiffResult::Absent,
        Option::Some(x) => DiffResult::Removed(*x),
    }
}

/// Relation for an optional free-form value field, compared whole.
pub open spec fn dr_json_ok(
    d: DiffResult<crate::json::JsonValue>,
    a: Option<crate::json::JsonValue>,
    b: Option<crate::json::JsonValue>,
) -> bool {
    match (a, b) {
        (Option::None, Option::None) => d is Absent,
        (Option::Some(x), Option::None) => d matches DiffResult::Removed(p)
            && crate::json::json_eq(p, x),
        (Option::None, Option::Some(y)) => d matches DiffResult::Added(p) && crate::json::json_eq(
            p,
            y,
        ),
        (Option::Some(x), Option::Some(y)) => if crate::json::json_eq(x, y) {
            d matches DiffResult::Same(p) && crate::json::json_eq(p, y)
        } else {
            d matches DiffResult::Updated(p) && crate::json::json_eq(p, y)
        },
    }
}

pub fn diff_opt_json(
    a: &Option<crate::json::JsonValue>,
    b: &Option<crate::json::JsonValue>,
) -> (d: DiffResult<crate::json::JsonValue>)
    ensures
        dr_json_ok(d, *a, *b),
{
    match (a, b) {
        (Option::None, Option::None) => DiffResult::Absent,
        (Option::Some(x), Option::None) => DiffResult::Removed(crate::json::json_dup(x)),
        (Option::None, Option::Some(y)) => DiffResult::Added(crate::json::json_dup(y)),
        (Option::Some(x), Option::Some(y)) => {
            if crate::json::json_equal(x, y) {
                DiffResult::Same(crate::json::json_dup(y))
            } else {
                DiffResult::Updated(crate::json::json_dup(y))
            }
        },
    }
}

pub open spec fn added_json_ok(d: DiffResult<crate::json::JsonValue>, t: Option<
    crate::json::JsonValue,
>) -> bool {
    match t {
        Option::None => d is Absent,
        Option::Some(x) => d matches DiffResult::Added(p) && crate::json::json_eq(p, x),
    }
}

pub fn added_opt_json(t: &Option<crate::json::JsonValue>) -> (d: DiffResult<
    crate::json::JsonValue,
>)
    ensures
        added_json_ok(d, *t),
{
    match t {
        Option::None => DiffResult::Absent,
        Option::Some(x) => DiffResult::Added(crate::json::json_dup(x)),
    }
}

pub open spec fn removed_json_ok(d: DiffResult<crate::json::JsonValue>, t: Option<
    crate::json::JsonValue,
>) -> bool {
    match t {
        Option::None => d is Absent,
        Option::Some(x) => d matches DiffResult::Removed(p) && crate::json::json_eq(p, x),
    }
}

pub fn removed_opt_json(t: &Option<crate::json::JsonValue>) -> (d: DiffResult<
    crate::json::JsonValue,
>)
    ensures
        removed_json_ok(d, *t),
{
    match t {
        Option::None => DiffResult::Absent,
        Option::Some(x) => DiffResult::Removed(crate::json::json_dup(x)),
    }
}

/// Structural equality of a type designator: one name, or a list of names.
pub open spec fn type_eq(
    a: crate::diff_core::Either<String, Vec<String>>,
    b: crate::diff_core::Either<String, Vec<String>>,
) -> bool {
    match (a, b) {
        (crate::diff_core::Either::Left(x), crate::diff_core::Either::Left(y)) => x@ == y@,
        (crate::diff_core::Either::Right(xs), crate::diff_core::Either::Right(ys)) => {
            &&& xs@.len() == ys@.len()
            &&& forall|i: int| 0 <= i < xs@.len() ==> (#[trigger] xs@[i])@ == ys@[i]@
        },
        _ => false,
    }
}

fn type_equal(
    a: &crate::diff_core::Either<String, Vec<String>>,
    b: &crate::diff_core::Either<String, Vec<String>>,
) -> (r: bool)
    ensures
        r == type_eq(*a, *b),
{
    match (a, b) {
        (crate::diff_core::Either::Left(x), crate::diff_core::Either::Left(y)) => *x == *y,
        (crate::diff_core::Either::Right(xs), crate::diff_core::Either::Right(ys)) => {
            if xs.len() != ys.len() {
                return false;
            }
            let mut i: usize = 0;
            while i < xs.len()
                invariant
                    xs@.len() == ys@.len(),
                    0 <= i <= xs@.len(),
                    a == crate::diff_core::Either::<String, Vec<String>>::Right(*xs),
                    b == crate::diff_core::Either::<String, Vec<String>>::Right(*ys),
                    forall|j: int| 0 <= j < i ==> (#[trigger] xs@[j])@ == ys@[j]@,
                decreases xs@.len() - i,
            {
                if !(xs[i] == ys[i]) {
                    return false;
                }
                i = i + 1;
            }
            true
        },
        _ => false,
    }
}

fn type_dup(t: &crate::diff_core::Either<String, Vec<String>>) -> (r: crate::diff_core::Either<
    String,
    Vec<String>,
>)
    ensures
        type_eq(r, *t),
{
    match t {
        crate::diff_core::Either::Left(x) => crate::diff_core::Either::Left(x.clone()),
        crate::diff_core::Either::Right(xs) => {
            let mut out: Vec<String> = Vec::new();
            let mut i: usize = 0;
            while i < xs.len()
                invariant
                    0 <= i <= xs@.len(),
                    out@.len() == i,
                    forall|j: int| 0 <= j < i ==> (#[trigger] out@[j])@ == xs@[j]@,
                decreases xs@.len() - i,
            {
                out.push(xs[i].clone());
                i = i + 1;
            }
            crate::diff_core::Either::Right(out)
        },
    }
}

/// Relation for an optional type-designator field, compared whole.
pub open spec fn dr_type_ok(
    d: DiffResult<crate::diff_core::Either<String, Vec<String>>>,
    a: Option<crate::diff_core::Either<String, Vec<String>>>,
    b: Option<crate::diff_core::Either<String, Vec<String>>>,
) -> bool {
    match (a, b) {
        (Option::None, Option::None) => d is Absent,
        (Option::Some(x), Option::None) => d matches DiffResult::Removed(p) && type_eq(p, x),
        (Option::None, Option::Some(y)) => d matches DiffResult::Added(p) && type_eq(p, y),
        (Option::Some(x), Option::Some(y)) => if type_eq(x, y) {
            d matches DiffResult::Same(p) && type_eq(p, y)
        } else {
            d matches DiffResult::Updated(p) && type_eq(p, y)
        },
    }
}

pub fn diff_opt_type(
    a: &Option<crate::diff_core::Either<String, Vec<String>>>,
    b: &Option<crate::diff_core::Either<String, Vec<String>>>,
) -> (d: DiffResult<crate::diff_core::Either<String, Vec<String>>>)
    ensures
        dr_type_ok(d, *a, *b),
{
    match (a, b) {
        (Option::None, Option::None) => DiffResult::Absent,
        (Option::Some(x), Option::None) => DiffResult::Removed(type_dup(x)),
        (Option::None, Option::Some(y)) => DiffResult::Added(type_dup(y)),
        (Option::Some(x), Option::Some(y)) => {
            if type_equal(x, y) {
                DiffResult::Same(type_dup(y))
            } else {
                DiffResult::Updated(type_dup(y))
            }
        },
    }
}

pub open spec fn added_type_ok(
    d: DiffResult<crate::diff_core::Either<String, Vec<String>>>,
    t: Option<crate::diff_core::Either<String, Vec<String>>>,
) -> bool {
    match t {
        Option::None => d is Absent,
        Option::Some(x) => d matches DiffResult::Added(p) && type_eq(p, x),
    }
}

pub fn added_opt_type(t: &Option<crate::diff_core::Either<String, Vec<String>>>) -> (d: DiffResult<
    crate::diff_core::Either<String, Vec<String>>,
>)
    ensures
        added_type_ok(d, *t),
{
    match t {
        Option::None => DiffResult::Absent,
        Option::Some(x) => DiffResult::Added(type_dup(x)),
    }
}

pub open spec fn removed_type_ok(
    d: DiffResult<crate::diff_core::Either<String, Vec<String>>>,
    t: Option<crate::diff_core::Either<String, Vec<String>>>,
) -> bool {
    match t {
        Option::None => d is Absent,
        Option::Some(x) => d matches DiffResult::Removed(p) && type_eq(p, x),
    }
}

pub fn removed_opt_type(t: &Option<crate::diff_core::Either<String, Vec<String>>>) -> (d:
    DiffResult<crate::diff_core::Either<String, Vec<String>>>)
    ensures
        removed_type_ok(d, *t),
{
    match t {
        Option::None => DiffResult::Absent,
        Option::Some(x) => DiffResult::Removed(type_dup(x)),
    }
}

/// Relation for an unknown-field bag, always present and compared whole by
/// structural value equality; a difference is a single `Updated` carrying
/// the new bag.
pub open spec fn dr_bag_ok(
    d: DiffResult<Vec<(String, crate::json::JsonValue)>>,
    a: Vec<(String, crate::json::JsonValue)>,
    b: Vec<(String, crate::json::JsonValue)>,
) -> bool {
    if crate::json::json_entries_eq(a@, b@) {
        d matches DiffResult::Same(p) && crate::json::json_entries_eq(p@, b@)
    } else {
        d matches DiffResult::Updated(p) && crate::json::json_entries_eq(p@, b@)
    }
}

pub fn diff_bag(
    a: &Vec<(String, crate::json::JsonValue)>,
    b: &Vec<(String, crate::json::JsonValue)>,
) -> (d: DiffResult<Vec<(String, crate::json::JsonValue)>>)
    ensures
        dr_bag_ok(d, *a, *b),
{
    if crate::json::json_entries_equal(a, b) {
        DiffResult::Same(crate::json::json_entries_dup(b))
    } else {
        DiffResult::Updated(crate::json::json_entries_dup(b))
    }
}

pub open spec fn added_bag_ok(
    d: DiffResult<Vec<(String, crate::json::JsonValue)>>,
    t: Vec<(String, crate::json::JsonValue)>,
) -> bool {
    d matches DiffResult::Added(p) && crate::json::json_entries_eq(p@, t@)
}

pub fn added_bag(t: &Vec<(String, crate::json::JsonValue)>) -> (d: DiffResult<
    Vec<(String, crate::json::JsonValue)>,
>)
    ensures
        added_bag_ok(d, *t),
{
    DiffResult::Added(crate::json::json_entries_dup(t))
}

pub open spec fn removed_bag_ok(
    d: DiffResult<Vec<(String, crate::json::JsonValue)>>,
    t: Vec<(String, crate::json::JsonValue)>,
) -> bool {
    d matches DiffResult::Removed(p) && crate::json::json_entries_eq(p@, t@)
}

pub fn removed_bag(t: &Vec<(String, crate::json::JsonValue)>) -> (d: DiffResult<
    Vec<(String, crate::json::JsonValue)>,
>)
    ensures
        removed_bag_ok(d, *t),
{
    DiffResult::Removed(crate::json::json_entries_dup(t))
}

// ---------------------------------------------------------------------------
// One-sided wrappers for whole collection fields.
// ---------------------------------------------------------------------------
pub open spec fn map_field_added_ok<T: DiffElem>(
    d: DiffResult<MapDiff<T::D>>,
    t: Option<Vec<(String, T)>>,
) -> bool {
    match t {
        Option::None => d is Absent,
        Option::Some(s) => d matches DiffResult::Added(m) && map_added_ok::<T>(m@, s@),
    }
}

pub fn added_opt_map<T: DiffElem>(t: &Option<Vec<(String, T)>>) -> (d: DiffResult<MapDiff<T::D>>)
    ensures
        map_field_added_ok::<T>(d, *t),
{
    match t {
        Option::None => DiffResult::Absent,
        Option::Some(s) => DiffResult::Added(map_added_elems(s)),
    }
}

pub open spec fn map_field_removed_ok<T: DiffElem>(
    d: DiffResult<MapDiff<T::D>>,
    t: Option<Vec<(String, T)>>,
) -> bool {
    match t {
        Option::None => d is Absent,
        Option::Some(s) => d matches DiffResult::Removed(m) && map_removed_ok::<T>(m@, s@),
    }
}

pub fn removed_opt_map<T: DiffElem>(t: &Option<Vec<(String, T)>>) -> (d: DiffResult<
    MapDiff<T::D>,
>)
    ensures
        map_field_removed_ok::<T>(d, *t),
{
    match t {
        Option::None => DiffResult::Absent,
        Option::Some(s) => DiffResult::Removed(map_removed_elems(s)),
    }
}

pub open spec fn atoms_field_added_ok<V: AtomEq>(d: DiffResult<VecDiff<V>>, t: Option<
    Vec<V>,
>) -> bool {
    match t {
        Option::None => d is Absent,
        Option::Some(s) => d matches DiffResult::Added(r) && atoms_added_ok::<V>(r@, s@),
    }
}

pub fn added_opt_atoms<V: AtomDup>(t: &Option<Vec<V>>) -> (d: DiffResult<VecDiff<V>>)
    ensures
        atoms_field_added_ok::<V>(d, *t),
{
    match t {
        Option::None => DiffResult::Absent,
        Option::Some(s) => DiffResult::Added(atoms_added_vec(s)),
    }
}

pub open spec fn atoms_field_removed_ok<V: AtomEq>(d: DiffResult<VecDiff<V>>, t: Option<
    Vec<V>,
>) -> bool {
    match t {
        Option::None => d is Absent,
        Option::Some(s) => d matches DiffResult::Removed(r) && atoms_removed_ok::<V>(r@, s@),
    }
}

pub fn removed_opt_atoms<V: AtomDup>(t: &Option<Vec<V>>) -> (d: DiffResult<VecDiff<V>>)
    ensures
        atoms_field_removed_ok::<V>(d, *t),
{
    match t {
        Option::None => DiffResult::Absent,
        Option::Some(s) => DiffResult::Removed(atoms_removed_vec(s)),
    }
}

pub open spec fn ident_field_added_ok<T: DiffElem>(d: DiffResult<VecDiff<T::D>>, t: Option<
    Vec<T>,
>) -> bool {
    match t {
        Option::None => d is Absent,
        Option::Some(s) => d matches DiffResult::Added(r) && elems_added_ok::<T>(r@, s@),
    }
}

pub fn added_opt_ident<T: DiffElem>(t: &Option<Vec<T>>) -> (d: DiffResult<VecDiff<T::D>>)
    ensures
        ident_field_added_ok::<T>(d, *t),
{
    match t {
        Option::None => DiffResult::Absent,
        Option::Some(s) => DiffResult::Added(elems_added_vec(s)),
    }
}

pub open spec fn ident_field_removed_ok<T: DiffElem>(d: DiffResult<VecDiff<T::D>>, t: Option<
    Vec<T>,
>) -> bool {
    match t {
        Option::None => d is Absent,
        Option::Some(s) => d matches DiffResult::Removed(r) && elems_removed_ok::<T>(r@, s@),
    }
}

pub fn removed_opt_ident<T: DiffElem>(t: &Option<Vec<T>>) -> (d: DiffResult<VecDiff<T::D>>)
    ensures
        ident_field_removed_ok::<T>(d, *t),
{
    match t {
        Option::None => DiffResult::Absent,
        Option::Some(s) => DiffResult::Removed(elems_removed_vec(s)),
    }
}

/// Relation for a required string field, present in every version.
pub open spec fn dr_req_str_ok(d: DiffResult<String>, a: String, b: String) -> bool {
    if a@ == b@ {
        d matches DiffResult::Same(p) && p@ == b@
    } else {
        d matches DiffResult::Updated(p) && p@ == b@
    }
}

pub fn diff_req_string(a: &String, b: &String) -> (d: DiffResult<String>)
    ensures
        dr_req_str_ok(d, *a, *b),
{
    if *a == *b {
        DiffResult::Same(b.clone())
    } else {
        DiffResult::Updated(b.clone())
    }
}

pub open spec fn added_req_str_ok(d: DiffResult<String>, t: String) -> bool {
    d matches DiffResult::Added(p) && p@ == t@
}

pub fn added_req_string(t: &String) -> (d: DiffResult<String>)
    ensures
        added_req_str_ok(d, *t),
{
    DiffResult::Added(t.clone())
}

pub open spec fn removed_req_str_ok(d: DiffResult<String>, t: String) -> bool {
    d matches DiffResult::Removed(p) && p@ == t@
}

pub fn removed_req_string(t: &String) -> (d: DiffResult<String>)
    ensures
        removed_req_str_ok(d, *t),
{
    DiffResult::Removed(t.clone())
}

// ---------------------------------------------------------------------------
// Direction symmetry, for the node kinds compared here.
// ---------------------------------------------------------------------------
/// Swapping old and new turns an added scalar field into a removed one and
/// vice versa, leaves an equal field equal, and makes each direction's
/// updated payload the other direction's source value.
pub proof fn lemma_dr_str_sym(
    a: Option<String>,
    b: Option<String>,
    d1: DiffResult<String>,
    d2: DiffResult<String>,
)
    requires
        dr_str_ok(d1, a, b),
        dr_str_ok(d2, b, a),
    ensures
        d1 is Added <==> d2 is Removed,
        d1 is Removed <==> d2 is Added,
        d1 is Same <==> d2 is Same,
        d1 is Updated <==> d2 is Updated,
        d1 is Absent <==> d2 is Absent,
        d1 is Updated ==> d1.payload()@ == b->0@ && d2.payload()@ == a->0@,
{
}

/// Swapping old and new mirrors a value-identity sequence diff: an element
/// the forward diff drops is exactly an element the backward diff adds, and
/// an element it keeps has a partner kept by the backward diff.
pub proof fn lemma_vec_atoms_sym<V: AtomEq>(
    old: Seq<V>,
    new: Seq<V>,
    r1: Seq<DiffResult<V>>,
    r2: Seq<DiffResult<V>>,
)
    requires
        vec_atoms_ok::<V>(r1, old, new),
        vec_atoms_ok::<V>(r2, new, old),
    ensures
        forall|i: int|
            #![trigger r1[i]]
            0 <= i < old.len() ==> (r1[i] is Removed <==> aleftover(new, old, i)),
        forall|i: int|
            #![trigger r1[i]]
            0 <= i < old.len() && r1[i] is Removed ==> {
                let t = new.len() + aaddc(new, old, i as nat);
                r2[t as int] matches DiffResult::Added(p) && V::aeq(p, old[i])
            },
        forall|i: int|
            #![trigger r1[i]]
            0 <= i < old.len() ==> (r1[i] is Same <==> amatched(old, new, i)),
{
    assert forall|i: int| #![trigger r1[i]] 0 <= i < old.len() implies (r1[i] is Removed
        <==> aleftover(new, old, i)) && (r1[i] is Same <==> amatched(old, new, i)) by {
        assert(old[i] == old[i]);
        assert(amatched(old, new, i) == !aleftover(new, old, i));
    }
    assert forall|i: int|
        #![trigger r1[i]]
        0 <= i < old.len() && r1[i] is Removed implies {
        let t = new.len() + aaddc(new, old, i as nat);
        r2[t as int] matches DiffResult::Added(p) && V::aeq(p, old[i])
    } by {
        assert(old[i] == old[i]);
        assert(aleftover(new, old, i));
    }
}

} // verus!
