//! Parity-gate arithmetic and validation of the excused-trial list.
//!
//! Exit codes: 0 pass; 1 a failing trial is not excused, or too few passed;
//! 2 duplicate excused id; 3 excused id not in the manifest; 4 the R0 gate is
//! on but the excused list is not empty; 5 more than `EXCUSED_CAP` excused;
//! 6 the excused file does not parse (decided by the caller that parses it).

use vstd::prelude::*;

use crate::text::same_text;

verus! {

/// Most trials that may be excused at the final gate.
pub const EXCUSED_CAP: usize = 7;

/// Required floor under the frozen manifest of 237 trials (`237 - EXCUSED_CAP`).
pub const R10_REQUIRED_FLOOR: usize = 230;

/// A set of trial ids: no id occurs twice.
pub struct IdSet {
    items: Vec<String>,
}

impl IdSet {
    /// The ids, in insertion order.
    pub closed spec fn ids(&self) -> Seq<Seq<char>> {
        self.items@.map_values(|s: String| s@)
    }

    #[verifier::type_invariant]
    closed spec fn distinct(&self) -> bool {
        forall|i: int, j: int|
            0 <= i < self.items@.len() && 0 <= j < self.items@.len() && i != j
                ==> #[trigger] self.items@[i]@ != #[trigger] self.items@[j]@
    }

    pub open spec fn has(&self, id: Seq<char>) -> bool {
        self.ids().contains(id)
    }

    pub fn new() -> (r: Self)
        ensures
            r.ids().len() == 0,
    {
        IdSet { items: Vec::new() }
    }

    pub fn len(&self) -> (r: usize)
        ensures
            r == self.ids().len(),
    {
        self.items.len()
    }

    pub fn is_empty(&self) -> (r: bool)
        ensures
            r == (self.ids().len() == 0),
    {
        self.items.len() == 0
    }

    /// Id at a position (insertion order).
    pub fn get(&self, i: usize) -> (r: &str)
        requires
            i < self.ids().len(),
        ensures
            r@ == self.ids()[i as int],
    {
        self.items[i].as_str()
    }

    pub fn contains(&self, id: &str) -> (r: bool)
        ensures
            r == self.has(id@),
    {
        let mut i: usize = 0;
        while i < self.items.len()
            invariant
                i <= self.items@.len(),
                forall|j: int| 0 <= j < i ==> self.items@[j]@ != id@,
            decreases self.items@.len() - i,
        {
            if same_text(self.items[i].as_str(), id) {
                assert(self.ids()[i as int] == id@);
                return true;
            }
            i = i + 1;
        }
        assert forall|j: int| 0 <= j < self.ids().len() implies self.ids()[j] != id@ by {
            assert(self.ids()[j] == self.items@[j]@);
        }
        false
    }

    /// Adds `id`; `false` (and no change) when it is already present.
    pub fn insert(&mut self, id: String) -> (added: bool)
        ensures
            added == !old(self).has(id@),
            added ==> final(self).ids() == old(self).ids().push(id@),
            !added ==> final(self).ids() == old(self).ids(),
    {
        if self.contains(id.as_str()) {
            return false;
        }
        proof {
            use_type_invariant(&*self);
        }
        let ghost before = self.ids();
        let mut items: Vec<String> = Vec::new();
        std::mem::swap(&mut items, &mut self.items);
        let ghost old_items = items@;
        items.push(id);
        proof {
            assert forall|i: int, j: int|
                0 <= i < items@.len() && 0 <= j < items@.len() && i != j implies #[trigger] items@[i]@
                != #[trigger] items@[j]@ by {
                if i < old_items.len() && j < old_items.len() {
                    assert(old_items[i]@ != old_items[j]@);
                } else if i < old_items.len() {
                    assert(before[i] == old_items[i]@);
                } else {
                    assert(before[j] == old_items[j]@);
                }
            }
        }
        self.items = items;
        proof {
            assert(self.ids() =~= before.push(id@));
        }
        true
    }
}

/// One excused trial.
#[derive(Debug, Clone)]
pub struct ExcusedRow {
    pub id: String,
    pub rationale: String,
    pub approved_at: String,
    pub approved_by: String,
}

/// Outcome of the parity gate, one per exit code.
#[derive(Debug, Clone, Copy, PartialEq, Eq, Structural)]
pub enum GateExit {
    Pass,
    RegressionOrShort,
    DuplicateExcused,
    UnknownExcusedId,
    R0GateViolation,
    ExcusedOverCap,
    TomlInvalid,
}

impl GateExit {
    /// Process exit code of the outcome.
    pub fn code(self) -> (r: i32)
        ensures
            r == (match self {
                GateExit::Pass => 0i32,
                GateExit::RegressionOrShort => 1i32,
                GateExit::DuplicateExcused => 2i32,
                GateExit::UnknownExcusedId => 3i32,
                GateExit::R0GateViolation => 4i32,
                GateExit::ExcusedOverCap => 5i32,
                GateExit::TomlInvalid => 6i32,
            }),
    {
        match self {
            GateExit::Pass => 0,
            GateExit::RegressionOrShort => 1,
            GateExit::DuplicateExcused => 2,
            GateExit::UnknownExcusedId => 3,
            GateExit::R0GateViolation => 4,
            GateExit::ExcusedOverCap => 5,
            GateExit::TomlInvalid => 6,
        }
    }
}

/// The ids of the excused rows, in order.
pub open spec fn row_ids(rows: Seq<ExcusedRow>) -> Seq<Seq<char>> {
    rows.map_values(|r: ExcusedRow| r.id@)
}

/// Row `k` repeats an earlier id.
pub open spec fn dup_at(ids: Seq<Seq<char>>, k: int) -> bool {
    exists|j: int| 0 <= j < k && ids[j] == ids[k]
}

/// Row `k` repeats an earlier id or names a trial outside the manifest.
pub open spec fn bad_at(ids: Seq<Seq<char>>, manifest: IdSet, k: int) -> bool {
    dup_at(ids, k) || !manifest.has(ids[k])
}

/// Row `k` is the first bad row.
pub open spec fn first_bad(ids: Seq<Seq<char>>, manifest: IdSet, k: int) -> bool {
    &&& 0 <= k < ids.len()
    &&& bad_at(ids, manifest, k)
    &&& forall|j: int| 0 <= j < k ==> !bad_at(ids, manifest, j)
}

/// Validate the excused rows against the manifest and the R0 switch. The first
/// bad row decides (a repeat before an unknown id); then the R0 gate, then the cap.
/// On success the excused ids come back as a set, in row order.
pub fn validate_excused(excused: &[ExcusedRow], manifest_ids: &IdSet, r0_gate_enabled: bool) -> (r: Result<
    IdSet,
    GateExit,
>)
    ensures
        forall|k: int|
            #![trigger first_bad(row_ids(excused@), *manifest_ids, k)]
            first_bad(row_ids(excused@), *manifest_ids, k) ==> r == Err::<IdSet, GateExit>(
                if dup_at(row_ids(excused@), k) {
                    GateExit::DuplicateExcused
                } else {
                    GateExit::UnknownExcusedId
                },
            ),
        (forall|k: int| 0 <= k < excused@.len() ==> !bad_at(row_ids(excused@), *manifest_ids, k)) ==> {
            if r0_gate_enabled && excused@.len() > 0 {
                r == Err::<IdSet, GateExit>(GateExit::R0GateViolation)
            } else if excused@.len() > EXCUSED_CAP {
                r == Err::<IdSet, GateExit>(GateExit::ExcusedOverCap)
            } else {
                r matches Ok(set) && set.ids() == row_ids(excused@)
            }
        },
{
    let ghost ids = row_ids(excused@);
    let mut seen = IdSet::new();
    let mut i: usize = 0;
    while i < excused.len()
        invariant
            i <= excused@.len(),
            ids == row_ids(excused@),
            seen.ids() == ids.subrange(0, i as int),
            forall|j: int| 0 <= j < i ==> !bad_at(ids, *manifest_ids, j),
        decreases excused@.len() - i,
    {
        let ghost pre = seen.ids();
        let added = seen.insert(excused[i].id.clone());
        if !added {
            proof {
                assert(ids[i as int] == excused@[i as int].id@);
                let j = choose|j: int| 0 <= j < pre.len() && pre[j] == ids[i as int];
                assert(ids[j] == pre[j]);
                assert(dup_at(ids, i as int));
                assert(first_bad(ids, *manifest_ids, i as int));
                assert forall|k: int| first_bad(ids, *manifest_ids, k) implies k == i by {
                    if k < i {
                        assert(!bad_at(ids, *manifest_ids, k));
                    }
                    if k > i {
                        assert(!bad_at(ids, *manifest_ids, i as int));
                    }
                }
            }
            return Err(GateExit::DuplicateExcused);
        }
        proof {
            assert(ids[i as int] == excused@[i as int].id@);
            assert(seen.ids() =~= ids.subrange(0, i + 1));
            assert(!dup_at(ids, i as int)) by {
                if dup_at(ids, i as int) {
                    let j = choose|j: int| 0 <= j < i && ids[j] == ids[i as int];
                    assert(pre[j] == ids[j]);
                    assert(pre.contains(ids[i as int]));
                }
            }
        }
        if !manifest_ids.contains(excused[i].id.as_str()) {
            proof {
                assert(first_bad(ids, *manifest_ids, i as int));
                assert forall|k: int| first_bad(ids, *manifest_ids, k) implies k == i by {
                    if k < i {
                        assert(!bad_at(ids, *manifest_ids, k));
                    }
                    if k > i {
                        assert(!bad_at(ids, *manifest_ids, i as int));
                    }
                }
            }
            return Err(GateExit::UnknownExcusedId);
        }
        i = i + 1;
    }
    proof {
        assert(ids.subrange(0, excused@.len() as int) =~= ids);
        assert forall|k: int| !first_bad(ids, *manifest_ids, k) by {
            if 0 <= k < excused@.len() {
                assert(!bad_at(ids, *manifest_ids, k));
            }
        }
    }
    if r0_gate_enabled && !seen.is_empty() {
        return Err(GateExit::R0GateViolation);
    }
    if seen.len() > EXCUSED_CAP {
        return Err(GateExit::ExcusedOverCap);
    }
    Ok(seen)
}

/// `manifest_len - EXCUSED_CAP`, floored at zero.
pub open spec fn required_passing(manifest_len: usize) -> int {
    if manifest_len >= EXCUSED_CAP {
        manifest_len - EXCUSED_CAP
    } else {
        0
    }
}

/// Every failing trial is excused, at least
/// `manifest_len - EXCUSED_CAP` trials succeed, and at most `EXCUSED_CAP` are excused.
pub open spec fn gate_passes(manifest_len: usize, passing: IdSet, failing: IdSet, excused: IdSet) -> bool {
    &&& forall|i: int| 0 <= i < failing.ids().len() ==> excused.has(#[trigger] failing.ids()[i])
    &&& passing.ids().len() >= required_passing(manifest_len)
    &&& excused.ids().len() <= EXCUSED_CAP
}

/// Pass conditions: at least `manifest_len - EXCUSED_CAP` trials succeed (any
/// number when the manifest is smaller), every failing trial is excused, and at
/// most `EXCUSED_CAP` are excused. Failing trials, excused or not, never count
/// toward the successes needed.
pub proof fn law_gate_pass_conditions(manifest_len: usize, passing: IdSet, failing: IdSet, excused: IdSet)
    ensures
        gate_passes(manifest_len, passing, failing, excused) <==> {
            &&& passing.ids().len() + EXCUSED_CAP >= manifest_len
            &&& forall|i: int| 0 <= i < failing.ids().len() ==> excused.has(#[trigger] failing.ids()[i])
            &&& excused.ids().len() <= EXCUSED_CAP
        },
{
}

/// A pass stays a pass with more passing trials and the same failing and excused
/// ones.
pub proof fn law_gate_monotone(
    manifest_len: usize,
    passing: IdSet,
    more_passing: IdSet,
    failing: IdSet,
    excused: IdSet,
)
    requires
        more_passing.ids().len() >= passing.ids().len(),
        gate_passes(manifest_len, passing, failing, excused),
    ensures
        gate_passes(manifest_len, more_passing, failing, excused),
{
}

/// Final gate arithmetic: `Pass` exactly when [`gate_passes`], else `RegressionOrShort`.
pub fn gate_arithmetic(manifest_len: usize, passing: &IdSet, failing: &IdSet, excused: &IdSet) -> (r: GateExit)
    ensures
        r == (if gate_passes(manifest_len, *passing, *failing, *excused) {
            GateExit::Pass
        } else {
            GateExit::RegressionOrShort
        }),
{
    let required = manifest_len.saturating_sub(EXCUSED_CAP);
    let mut all_failures_excused = true;
    let mut i: usize = 0;
    while i < failing.len()
        invariant
            i <= failing.ids().len(),
            all_failures_excused == forall|j: int| 0 <= j < i ==> excused.has(#[trigger] failing.ids()[j]),
        decreases failing.ids().len() - i,
    {
        if !excused.contains(failing.get(i)) {
            all_failures_excused = false;
        }
        i = i + 1;
    }
    if all_failures_excused && passing.len() >= required && excused.len() <= EXCUSED_CAP {
        GateExit::Pass
    } else {
        GateExit::RegressionOrShort
    }
}

} // verus!
