//! Aggregate counts over a document difference: how many operations the
//! comparison saw, and how many were added, updated or removed.
use vstd::prelude::*;

use crate::diff::DiffElem;
use crate::json::{JsonNum, JsonValue};
use crate::diff_core::{DiffResult, DiffState};
use crate::schema::{HttpSchema, MayBeRef310, Path};
use crate::schema_diff::{HttpSchemaDiff, MayBeRefDiff, OperationDiff, PathDiff};

verus! {

/// Operation counts of one comparison run.
#[derive(Debug)]
pub struct DiffStats {
    pub paths_all: usize,
    pub paths_added: usize,
    pub paths_updated: usize,
    pub paths_removed: usize,
}

impl DiffStats {
    /// The four counts as an ordered key-to-value bag of plain document
    /// values, ready for the reporting layer.
    pub fn as_map(&self) -> (r: Vec<(String, JsonValue)>)
        ensures
            r@.len() == 4,
            r@[0].0@ == "paths_all"@ && r@[0].1 == JsonValue::Num(
                JsonNum::PosInt(self.paths_all as u64),
            ),
            r@[1].0@ == "paths_added"@ && r@[1].1 == JsonValue::Num(
                JsonNum::PosInt(self.paths_added as u64),
            ),
            r@[2].0@ == "paths_updated"@ && r@[2].1 == JsonValue::Num(
                JsonNum::PosInt(self.paths_updated as u64),
            ),
            r@[3].0@ == "paths_removed"@ && r@[3].1 == JsonValue::Num(
                JsonNum::PosInt(self.paths_removed as u64),
            ),
    {
        let mut r: Vec<(String, JsonValue)> = Vec::new();
        r.push(("paths_all".to_string(), JsonValue::Num(JsonNum::PosInt(self.paths_all as u64))));
        r.push((
            "paths_added".to_string(),
            JsonValue::Num(JsonNum::PosInt(self.paths_added as u64)),
        ));
        r.push((
            "paths_updated".to_string(),
            JsonValue::Num(JsonNum::PosInt(self.paths_updated as u64)),
        ));
        r.push((
            "paths_removed".to_string(),
            JsonValue::Num(JsonNum::PosInt(self.paths_removed as u64)),
        ));
        r
    }
}

/// One where an operation slot holds a node present in either version.
pub open spec fn op_present(d: DiffResult<OperationDiff>) -> int {
    if !(d is Absent) {
        1
    } else {
        0
    }
}

/// One where an operation slot was observed in the given change state.
pub open spec fn op_in(d: DiffResult<OperationDiff>, s: DiffState) -> int {
    if d.state() == s {
        1
    } else {
        0
    }
}

/// Present operations of one path item, over its eight method slots.
pub open spec fn path_present(p: PathDiff) -> int {
    op_present(p.get) + op_present(p.post) + op_present(p.put) + op_present(p.patch) + op_present(
        p.delete,
    ) + op_present(p.head) + op_present(p.options) + op_present(p.trace)
}

/// Operations of one path item observed in the given change state.
pub open spec fn path_in(p: PathDiff, s: DiffState) -> int {
    op_in(p.get, s) + op_in(p.post, s) + op_in(p.put, s) + op_in(p.patch, s) + op_in(p.delete, s)
        + op_in(p.head, s) + op_in(p.options, s) + op_in(p.trace, s)
}

/// The inline path item of one paths entry, where there is one: referenced
/// path items contribute no operation counts.
pub open spec fn entry_path(e: (String, DiffResult<MayBeRefDiff<PathDiff>>)) -> Option<PathDiff> {
    if e.1 is Absent {
        Option::None
    } else {
        match e.1.payload() {
            MayBeRefDiff::Value(pdr) => if pdr is Absent {
                Option::None
            } else {
                Option::Some(pdr.payload())
            },
            _ => Option::None,
        }
    }
}

pub open spec fn entry_present(e: (String, DiffResult<MayBeRefDiff<PathDiff>>)) -> int {
    match entry_path(e) {
        Option::Some(p) => path_present(p),
        Option::None => 0,
    }
}

pub open spec fn entry_in(e: (String, DiffResult<MayBeRefDiff<PathDiff>>), s: DiffState) -> int {
    match entry_path(e) {
        Option::Some(p) => path_in(p, s),
        Option::None => 0,
    }
}

/// Present operations over the first `n` paths entries.
pub open spec fn count_present(
    s: Seq<(String, DiffResult<MayBeRefDiff<PathDiff>>)>,
    n: nat,
) -> int
    decreases n,
{
    if n == 0 || n > s.len() {
        0
    } else {
        count_present(s, (n - 1) as nat) + entry_present(s[n - 1])
    }
}

/// Operations in the given change state over the first `n` paths entries.
pub open spec fn count_in(
    s: Seq<(String, DiffResult<MayBeRefDiff<PathDiff>>)>,
    st: DiffState,
    n: nat,
) -> int
    decreases n,
{
    if n == 0 || n > s.len() {
        0
    } else {
        count_in(s, st, (n - 1) as nat) + entry_in(s[n - 1], st)
    }
}

impl HttpSchemaDiff {
    /// Count, over every inline path item of the difference, the operations
    /// that exist in at least one version, and how many of them were added,
    /// updated or removed.
    pub fn stats(&self) -> (r: DiffStats)
        requires
            !(self.paths is Absent) ==> self.paths.payload()@.len() <= 0x0fff_ffff,
        ensures
            self.paths is Absent ==> r.paths_all == 0 && r.paths_added == 0 && r.paths_updated
                == 0 && r.paths_removed == 0,
            !(self.paths is Absent) ==> {
                let s = self.paths.payload()@;
                &&& r.paths_all == count_present(s, s.len())
                &&& r.paths_added == count_in(s, DiffState::Added, s.len())
                &&& r.paths_updated == count_in(s, DiffState::Updated, s.len())
                &&& r.paths_removed == count_in(s, DiffState::Removed, s.len())
            },
    {
        let mut paths_all: usize = 0;
        let mut paths_added: usize = 0;
        let mut paths_updated: usize = 0;
        let mut paths_removed: usize = 0;
        match self.paths.get() {
            Option::None => {},
            Option::Some(paths) => {
                let ghost s = paths@;
                let mut i: usize = 0;
                while i < paths.len()
                    invariant
                        0 <= i <= paths@.len(),
                        s == paths@,
                        paths@.len() <= 0x0fff_ffff,
                        paths_added + paths_updated + paths_removed <= paths_all,
                        paths_all <= i * 8,
                        paths_all == count_present(s, i as nat),
                        paths_added == count_in(s, DiffState::Added, i as nat),
                        paths_updated == count_in(s, DiffState::Updated, i as nat),
                        paths_removed == count_in(s, DiffState::Removed, i as nat),
                    decreases paths@.len() - i,
                {
                    match paths[i].1.get() {
                        Option::Some(MayBeRefDiff::Value(path_diff_result)) => {
                            match path_diff_result.get() {
                                Option::Some(path) => {
                                    proof {
                                        assert(entry_path(s[i as int]) == Option::Some(*path));
                                    }
                                    let ops = [
                                        &path.get,
                                        &path.post,
                                        &path.put,
                                        &path.patch,
                                        &path.delete,
                                        &path.head,
                                        &path.options,
                                        &path.trace,
                                    ];
                                    let ghost all0 = paths_all as int;
                                    let ghost add0 = paths_added as int;
                                    let ghost upd0 = paths_updated as int;
                                    let ghost rem0 = paths_removed as int;
                                    let mut k: usize = 0;
                                    while k < 8
                                        invariant
                                            0 <= k <= 8,
                                            i < paths@.len(),
                                            paths@.len() <= 0x0fff_ffff,
                                            all0 <= i * 8,
                                            add0 + upd0 + rem0 <= all0,
                                            ops@.len() == 8,
                                            *ops@[0] == path.get,
                                            *ops@[1] == path.post,
                                            *ops@[2] == path.put,
                                            *ops@[3] == path.patch,
                                            *ops@[4] == path.delete,
                                            *ops@[5] == path.head,
                                            *ops@[6] == path.options,
                                            *ops@[7] == path.trace,
                                            paths_all <= all0 + k,
                                            paths_added + paths_updated + paths_removed
                                                <= paths_all,
                                            paths_all == all0 + slots_present(*path, k as nat),
                                            paths_added == add0 + slots_in(
                                                *path,
                                                DiffState::Added,
                                                k as nat,
                                            ),
                                            paths_updated == upd0 + slots_in(
                                                *path,
                                                DiffState::Updated,
                                                k as nat,
                                            ),
                                            paths_removed == rem0 + slots_in(
                                                *path,
                                                DiffState::Removed,
                                                k as nat,
                                            ),
                                        decreases 8 - k,
                                    {
                                        let operation = ops[k];
                                        proof {
                                            assert(*ops@[k as int] == slot(*path, k as nat));
                                        }
                                        if operation.is_present() {
                                            paths_all = paths_all + 1;
                                        }
                                        if operation.is_none() || operation.is_same() {
                                        } else if operation.is_added() {
                                            paths_added = paths_added + 1;
                                        } else if operation.is_updated() {
                                            paths_updated = paths_updated + 1;
                                        } else if operation.is_removed() {
                                            paths_removed = paths_removed + 1;
                                        }
                                        k = k + 1;
                                    }
                                    proof {
                                        reveal_with_fuel(slots_present, 9);
                                        reveal_with_fuel(slots_in, 9);
                                        assert(slots_present(*path, 8) == path_present(*path));
                                        assert(slots_in(*path, DiffState::Added, 8) == path_in(
                                            *path,
                                            DiffState::Added,
                                        ));
                                        assert(slots_in(*path, DiffState::Updated, 8) == path_in(
                                            *path,
                                            DiffState::Updated,
                                        ));
                                        assert(slots_in(*path, DiffState::Removed, 8) == path_in(
                                            *path,
                                            DiffState::Removed,
                                        ));
                                    }
                                },
                                Option::None => {
                                    proof {
                                        assert(entry_path(s[i as int]) is None);
                                    }
                                },
                            }
                        },
                        _ => {
                            proof {
                                assert(entry_path(s[i as int]) is None);
                            }
                        },
                    }
                    i = i + 1;
                }
            },
        }
        DiffStats { paths_all, paths_added, paths_updated, paths_removed }
    }

    /// The document version string recorded by the new side of the
    /// comparison, or the empty string where none is present.
    pub fn version(&self) -> (r: String)
        ensures
            match self.info {
                DiffResult::Absent => r@ == Seq::<char>::empty(),
                _ => match self.info.payload().version {
                    DiffResult::Absent => r@ == Seq::<char>::empty(),
                    _ => r@ == self.info.payload().version.payload()@,
                },
            },
    {
        match self.info.get() {
            Option::Some(info) => match info.version.get() {
                Option::Some(version) => version.clone(),
                Option::None => String::new(),
            },
            Option::None => String::new(),
        }
    }
}


/// Over a paths collection that records no change anywhere, no operation is
/// classified added, updated or removed; together with the `stats` contract
/// and the idempotence law of the differ, the statistics of a self-diff
/// count only present operations.
pub proof fn lemma_unchanged_counts_zero(
    s: Seq<(String, DiffResult<MayBeRefDiff<PathDiff>>)>,
    st: DiffState,
    n: nat,
)
    requires
        forall|i: int|
            0 <= i < s.len() ==> ((#[trigger] s[i]).1 matches DiffResult::Same(q) && <MayBeRef310<
                Path,
            > as DiffElem>::d_same(q)),
        st == DiffState::Added || st == DiffState::Updated || st == DiffState::Removed,
    ensures
        count_in(s, st, n) == 0,
    decreases n,
{
    if n > 0 && n <= s.len() {
        lemma_unchanged_counts_zero(s, st, (n - 1) as nat);
        let e = s[n - 1];
        assert(e.1 matches DiffResult::Same(q) && <MayBeRef310<Path> as DiffElem>::d_same(q));
        match entry_path(e) {
            Option::None => {},
            Option::Some(p) => {
                assert(crate::differ::path_d_same(p));
                assert(entry_in(e, st) == 0);
            },
        }
    }
}

/// Diffing a document against itself yields statistics that classify no
/// operation as added, updated or removed: the counts `stats` is bound to
/// return over such a difference are zero.
pub proof fn lemma_self_diff_counts_zero(t: HttpSchema, d: DiffResult<HttpSchemaDiff>)
    requires
        crate::differ::http_schema_diff_ok(d, t, t),
    ensures
        d is Same,
        !(d->Same_0.paths is Absent) ==> {
            let s = d->Same_0.paths.payload()@;
            &&& count_in(s, DiffState::Added, s.len()) == 0
            &&& count_in(s, DiffState::Updated, s.len()) == 0
            &&& count_in(s, DiffState::Removed, s.len()) == 0
        },
{
    crate::differ::lemma_diff_self_unchanged(t, d);
    let p = d->Same_0;
    if !(p.paths is Absent) {
        assert(crate::diff::map_field_d_same::<MayBeRef310<Path>>(p.paths));
        let s = p.paths.payload()@;
        lemma_unchanged_counts_zero(s, DiffState::Added, s.len());
        lemma_unchanged_counts_zero(s, DiffState::Updated, s.len());
        lemma_unchanged_counts_zero(s, DiffState::Removed, s.len());
    }
}

/// The `k`-th method slot of a path item, in the order the counting loop
/// walks them.
pub open spec fn slot(p: PathDiff, k: nat) -> DiffResult<OperationDiff> {
    if k == 0 {
        p.get
    } else if k == 1 {
        p.post
    } else if k == 2 {
        p.put
    } else if k == 3 {
        p.patch
    } else if k == 4 {
        p.delete
    } else if k == 5 {
        p.head
    } else if k == 6 {
        p.options
    } else {
        p.trace
    }
}

/// Present operations among the first `k` method slots.
pub open spec fn slots_present(p: PathDiff, k: nat) -> int
    decreases k,
{
    if k == 0 {
        0
    } else {
        slots_present(p, (k - 1) as nat) + op_present(slot(p, (k - 1) as nat))
    }
}

/// Operations in the given change state among the first `k` method slots.
pub open spec fn slots_in(p: PathDiff, s: DiffState, k: nat) -> int
    decreases k,
{
    if k == 0 {
        0
    } else {
        slots_in(p, s, (k - 1) as nat) + op_in(slot(p, (k - 1) as nat), s)
    }
}

} // verus!
