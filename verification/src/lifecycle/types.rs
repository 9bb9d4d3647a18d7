//! Identity, state, event, journal and effect types of the order lifecycle.

use vstd::prelude::*;
use vstd::string::StringExecFns;

use crate::text::{decimal, lemma_decimal_injective, push_decimal};

verus! {

// ─── Identity / value types ───────────────────────────────────────────────────

/// Deterministic client order id: the recovery key for `SubmitUnknown`.
#[derive(Debug, Hash, PartialOrd, Ord)]
pub struct ClientOrderId(pub String);

/// Venue order id (opaque string from a create response or a backfill).
#[derive(Debug, Hash, PartialOrd, Ord)]
pub struct VenueOrderId(pub String);

/// Authoritative fill id (WS or GET fills). Accounting is keyed by it.
#[derive(Debug, Hash, PartialOrd, Ord)]
pub struct FillId(pub String);

/// Submit attempt id (supplied by the shell; durable in `SubmitStarted`).
#[derive(Debug, Hash, PartialOrd, Ord)]
pub struct AttemptId(pub String);

impl ClientOrderId {
    pub fn as_str(&self) -> (r: &str)
        ensures
            r@ == self.0@,
    {
        self.0.as_str()
    }
}

/// Text of the client order id for `(market, strategy, seq)`: `market|strategy|seq`.
pub open spec fn client_order_id_text(market: Seq<char>, strategy: Seq<char>, seq: u64) -> Seq<char> {
    market + "|"@ + strategy + "|"@ + decimal(seq as nat)
}

/// Deterministic client order id: the same `(market, strategy, seq)` always yields
/// the same id, so restart and backfill can recompute and match it.
pub fn derive_client_order_id(market: &str, strategy: &str, seq: u64) -> (r: ClientOrderId)
    ensures
        r.0@ == client_order_id_text(market@, strategy@, seq),
{
    let mut s = String::from_str(market);
    s.append("|");
    s.append(strategy);
    s.append("|");
    push_decimal(&mut s, seq as u128);
    ClientOrderId(s)
}

/// For one market and strategy, distinct sequence numbers give distinct client order ids.
pub proof fn law_client_order_id_injective(market: Seq<char>, strategy: Seq<char>, a: u64, b: u64)
    requires
        client_order_id_text(market, strategy, a) == client_order_id_text(market, strategy, b),
    ensures
        a == b,
{
    let p = market + "|"@ + strategy + "|"@;
    let ta = client_order_id_text(market, strategy, a);
    let tb = client_order_id_text(market, strategy, b);
    assert(ta =~= p + decimal(a as nat));
    assert(tb =~= p + decimal(b as nat));
    assert(ta.subrange(p.len() as int, ta.len() as int) =~= decimal(a as nat));
    assert(tb.subrange(p.len() as int, tb.len() as int) =~= decimal(b as nat));
    lemma_decimal_injective(a as nat, b as nat);
}

/// A text with no `|`.
pub open spec fn bar_free(t: Seq<char>) -> bool {
    forall|i: int| 0 <= i < t.len() ==> #[trigger] t[i] != '|'
}

/// Two texts that are bar-free up to the first `|` of each agree on where it is.
proof fn lemma_first_bar(x: Seq<char>, y: Seq<char>, t1: Seq<char>, t2: Seq<char>)
    requires
        bar_free(x),
        bar_free(y),
        x + "|"@ + t1 == y + "|"@ + t2,
    ensures
        x == y,
        t1 == t2,
{
    reveal_strlit("|");
    let a = x + "|"@ + t1;
    let b = y + "|"@ + t2;
    if x.len() < y.len() {
        assert(a[x.len() as int] == '|');
        assert(b[x.len() as int] == y[x.len() as int]);
    } else if y.len() < x.len() {
        assert(b[y.len() as int] == '|');
        assert(a[y.len() as int] == x[y.len() as int]);
    } else {
        assert(x =~= a.subrange(0, x.len() as int));
        assert(y =~= b.subrange(0, y.len() as int));
        assert(t1 =~= a.subrange(x.len() as int + 1, a.len() as int));
        assert(t2 =~= b.subrange(y.len() as int + 1, b.len() as int));
    }
}

/// Client order ids are injective: markets and strategies without `|` and
/// sequence numbers that give the same id are the same.
pub proof fn law_client_order_id_unique(
    m1: Seq<char>,
    s1: Seq<char>,
    a: u64,
    m2: Seq<char>,
    s2: Seq<char>,
    b: u64,
)
    requires
        bar_free(m1),
        bar_free(s1),
        bar_free(m2),
        bar_free(s2),
        client_order_id_text(m1, s1, a) == client_order_id_text(m2, s2, b),
    ensures
        m1 == m2,
        s1 == s2,
        a == b,
{
    let t1 = s1 + "|"@ + decimal(a as nat);
    let t2 = s2 + "|"@ + decimal(b as nat);
    assert(client_order_id_text(m1, s1, a) =~= m1 + "|"@ + t1);
    assert(client_order_id_text(m2, s2, b) =~= m2 + "|"@ + t2);
    lemma_first_bar(m1, m2, t1, t2);
    lemma_first_bar(s1, s2, decimal(a as nat), decimal(b as nat));
    lemma_decimal_injective(a as nat, b as nat);
}

impl Clone for ClientOrderId {
    fn clone(&self) -> (r: Self)
        ensures
            r == *self,
    {
        ClientOrderId(self.0.clone())
    }
}

impl Clone for VenueOrderId {
    fn clone(&self) -> (r: Self)
        ensures
            r == *self,
    {
        VenueOrderId(self.0.clone())
    }
}

impl Clone for FillId {
    fn clone(&self) -> (r: Self)
        ensures
            r == *self,
    {
        FillId(self.0.clone())
    }
}

impl Clone for AttemptId {
    fn clone(&self) -> (r: Self)
        ensures
            r == *self,
    {
        AttemptId(self.0.clone())
    }
}

impl PartialEq for ClientOrderId {
    fn eq(&self, other: &Self) -> (r: bool) {
        self.0 == other.0
    }
}

impl Eq for ClientOrderId {}

impl vstd::std_specs::cmp::PartialEqSpecImpl for ClientOrderId {
    open spec fn obeys_eq_spec() -> bool {
        true
    }

    open spec fn eq_spec(&self, other: &Self) -> bool {
        self.0@ == other.0@
    }
}

impl PartialEq for VenueOrderId {
    fn eq(&self, other: &Self) -> (r: bool) {
        self.0 == other.0
    }
}

impl Eq for VenueOrderId {}

impl vstd::std_specs::cmp::PartialEqSpecImpl for VenueOrderId {
    open spec fn obeys_eq_spec() -> bool {
        true
    }

    open spec fn eq_spec(&self, other: &Self) -> bool {
        self.0@ == other.0@
    }
}

impl PartialEq for FillId {
    fn eq(&self, other: &Self) -> (r: bool) {
        self.0 == other.0
    }
}

impl Eq for FillId {}

impl vstd::std_specs::cmp::PartialEqSpecImpl for FillId {
    open spec fn obeys_eq_spec() -> bool {
        true
    }

    open spec fn eq_spec(&self, other: &Self) -> bool {
        self.0@ == other.0@
    }
}

impl PartialEq for AttemptId {
    fn eq(&self, other: &Self) -> (r: bool) {
        self.0 == other.0
    }
}

impl Eq for AttemptId {}

impl vstd::std_specs::cmp::PartialEqSpecImpl for AttemptId {
    open spec fn obeys_eq_spec() -> bool {
        true
    }

    open spec fn eq_spec(&self, other: &Self) -> bool {
        self.0@ == other.0@
    }
}

/// Two optional venue ids denote the same venue (by text).
pub open spec fn same_opt_venue(a: Option<VenueOrderId>, b: Option<VenueOrderId>) -> bool {
    match (a, b) {
        (None, None) => true,
        (Some(x), Some(y)) => x.0@ == y.0@,
        _ => false,
    }
}

/// Local side mirror.
#[derive(Debug, Clone, Copy, PartialEq, Eq, Hash, Structural)]
pub enum Side {
    BuyYes,
    SellYes,
}

// ─── Reconcile target ─────────────────────────────────────────────────────────

/// Known venue terminal intent while still reconciling fill attribution.
#[derive(Debug, Clone, Copy, PartialEq, Eq, Hash, Structural)]
pub enum ReconcileTerminal {
    Canceled,
    Filled,
}

/// Target final state once attribution catches up to `venue_filled_qty`.
#[derive(Debug, PartialEq, Eq)]
pub struct ReconcileTarget {
    pub terminal: ReconcileTerminal,
    pub venue_filled_qty: u64,
    /// Last venue-reported remaining for this terminal intent (`None` = not observed).
    pub venue_remaining_qty: Option<u64>,
}

impl Clone for ReconcileTarget {
    fn clone(&self) -> (r: Self)
        ensures
            r == *self,
    {
        ReconcileTarget {
            terminal: self.terminal,
            venue_filled_qty: self.venue_filled_qty,
            venue_remaining_qty: self.venue_remaining_qty,
        }
    }
}

// ─── Halt / reject reasons ────────────────────────────────────────────────────

#[derive(Debug, PartialEq, Eq)]
pub enum HaltReason {
    /// Response fill_count / remaining disagree with the fill_id aggregate.
    ImmediateFillCrossCheckMismatch {
        response_fill_count: u64,
        attributed_fill_qty: u64,
        response_remaining_count: u64,
        implied_remaining: u64,
    },
    /// qty / avg_price / fee cross-check mismatch (structured detail).
    CrossCheckMismatch { detail: String },
    /// Backfill deadline elapsed, still no fill_id.
    ImmediateFillUnresolved,
    /// Exhaustive backfill found no client_order_id match.
    UnknownNoMatch,
    /// Resubmit requested but venue idempotency not proven.
    UnprovenIdempotentResubmit,
    /// Late authoritative fill after terminal/halt was declared.
    PostTerminalFill,
    /// Fill would push attributed qty past the order total.
    OverFill { attributed_fill_qty: u64, fill_qty: u64, order_qty: u64 },
    /// Create response claims zero fills but local fills are already attributed.
    ResponseZeroButLocalFills { attributed_fill_qty: u64, remaining_count: u64 },
    /// Two or more venue orders share the client_order_id.
    AmbiguousMatch { count: usize },
    /// Same fill_id seen with two different payloads.
    ConflictingFillPayload { fill_id: FillId },
    /// Same fill_id first seen with fee=None, later with fee=Some.
    FeeArrivedAfterNone { fill_id: FillId },
    /// Fee accumulation overflowed u64.
    FeeOverflow { fill_id: FillId },
    /// Fill's venue_order_id does not belong to the matched parent order.
    FillOwnershipMismatch { fill_id: FillId, expected: VenueOrderId, got: VenueOrderId },
    /// Known parent venue id replaced by a different id.
    OwnershipConflict { expected: VenueOrderId, got: VenueOrderId },
    /// Evidence claims a fill obligation above the order qty.
    ObligationExceedsOrderQty { fill_obligation: u64, order_qty: u64 },
    /// Parent venue is known but an attributed fill has no provenance.
    UnverifiedFillProvenance { fill_id: FillId },
    /// Operator / shell-injected halt.
    Operator(String),
}

impl Clone for HaltReason {
    fn clone(&self) -> (r: Self)
        ensures
            r == *self,
    {
        match self {
            HaltReason::ImmediateFillCrossCheckMismatch {
                response_fill_count,
                attributed_fill_qty,
                response_remaining_count,
                implied_remaining,
            } => HaltReason::ImmediateFillCrossCheckMismatch {
                response_fill_count: *response_fill_count,
                attributed_fill_qty: *attributed_fill_qty,
                response_remaining_count: *response_remaining_count,
                implied_remaining: *implied_remaining,
            },
            HaltReason::CrossCheckMismatch { detail } => HaltReason::CrossCheckMismatch {
                detail: detail.clone(),
            },
            HaltReason::ImmediateFillUnresolved => HaltReason::ImmediateFillUnresolved,
            HaltReason::UnknownNoMatch => HaltReason::UnknownNoMatch,
            HaltReason::UnprovenIdempotentResubmit => HaltReason::UnprovenIdempotentResubmit,
            HaltReason::PostTerminalFill => HaltReason::PostTerminalFill,
            HaltReason::OverFill { attributed_fill_qty, fill_qty, order_qty } => HaltReason::OverFill {
                attributed_fill_qty: *attributed_fill_qty,
                fill_qty: *fill_qty,
                order_qty: *order_qty,
            },
            HaltReason::ResponseZeroButLocalFills { attributed_fill_qty, remaining_count } =>
                HaltReason::ResponseZeroButLocalFills {
                attributed_fill_qty: *attributed_fill_qty,
                remaining_count: *remaining_count,
            },
            HaltReason::AmbiguousMatch { count } => HaltReason::AmbiguousMatch { count: *count },
            HaltReason::ConflictingFillPayload { fill_id } => HaltReason::ConflictingFillPayload {
                fill_id: fill_id.clone(),
            },
            HaltReason::FeeArrivedAfterNone { fill_id } => HaltReason::FeeArrivedAfterNone {
                fill_id: fill_id.clone(),
            },
            HaltReason::FeeOverflow { fill_id } => HaltReason::FeeOverflow {
                fill_id: fill_id.clone(),
            },
            HaltReason::FillOwnershipMismatch { fill_id, expected, got } =>
                HaltReason::FillOwnershipMismatch {
                fill_id: fill_id.clone(),
                expected: expected.clone(),
                got: got.clone(),
            },
            HaltReason::OwnershipConflict { expected, got } => HaltReason::OwnershipConflict {
                expected: expected.clone(),
                got: got.clone(),
            },
            HaltReason::ObligationExceedsOrderQty { fill_obligation, order_qty } =>
                HaltReason::ObligationExceedsOrderQty {
                fill_obligation: *fill_obligation,
                order_qty: *order_qty,
            },
            HaltReason::UnverifiedFillProvenance { fill_id } =>
                HaltReason::UnverifiedFillProvenance { fill_id: fill_id.clone() },
            HaltReason::Operator(s) => HaltReason::Operator(s.clone()),
        }
    }
}

#[derive(Debug, Clone, PartialEq, Eq)]
pub enum RejectReason {
    /// Illegal transition for the current state.
    IllegalTransition { state: String, event: String },
    /// StartSubmit / SubmitResponse out of order.
    OrderInvariantViolated { detail: String },
    /// Duplicate PrepareSubmit.
    AlreadyPrepared,
    /// Event not applicable.
    NotApplicable { detail: String },
}

// ─── Cancel outcome ───────────────────────────────────────────────────────────

/// Typed cancel outcome.
#[derive(Debug, Clone, Copy, PartialEq, Eq, Hash, Structural)]
pub enum CancelOutcome {
    /// Venue confirmed canceled.
    Canceled,
    /// Cancel request accepted; not yet terminal confirmation.
    Accepted,
    /// Order not found at venue: reconcile, not canceled.
    NotFound,
    /// Already terminal at venue.
    AlreadyTerminal,
    /// Cancel rejected; order still live.
    Rejected,
    /// Transport-layer unknown: reconcile.
    TransportUnknown,
    /// Generic unknown: reconcile.
    Unknown,
}

// ─── Fills ────────────────────────────────────────────────────────────────────

/// First-seen fill payload stored for conflict detection.
#[derive(Debug, PartialEq, Eq)]
pub struct FillPayload {
    pub qty: u64,
    pub price_cents: u64,
    pub fee: Option<u64>,
    pub venue_order_id: Option<VenueOrderId>,
    /// Fill timestamp (ns) for response-domain membership.
    pub ts_ns: i64,
}

impl Clone for FillPayload {
    fn clone(&self) -> (r: Self)
        ensures
            r == *self,
    {
        FillPayload {
            qty: self.qty,
            price_cents: self.price_cents,
            fee: self.fee,
            venue_order_id: self.venue_order_id.clone(),
            ts_ns: self.ts_ns,
        }
    }
}

/// Two payloads agree field by field (venue ids compared by text).
pub open spec fn payload_same(a: FillPayload, b: FillPayload) -> bool {
    &&& a.qty == b.qty
    &&& a.price_cents == b.price_cents
    &&& a.fee == b.fee
    &&& same_opt_venue(a.venue_order_id, b.venue_order_id)
    &&& a.ts_ns == b.ts_ns
}

/// Snapshot boundary for create-response domain membership.
#[derive(Debug, Clone, Copy, PartialEq, Eq, Hash, Structural)]
pub enum SnapshotBoundary {
    TsNs(i64),
    Sequence(u64),
}

/// One attributed fill (WS or GET), always with its authoritative `fill_id`.
#[derive(Debug, PartialEq, Eq)]
pub struct FillRecord {
    pub fill_id: FillId,
    pub qty: u64,
    pub price_cents: u64,
    pub ts_ns: i64,
    /// Parent venue order of this fill, when known.
    pub venue_order_id: Option<VenueOrderId>,
    /// Venue-reported fee for this fill.
    pub fee_cents: Option<u64>,
}

impl Clone for FillRecord {
    fn clone(&self) -> (r: Self)
        ensures
            r == *self,
    {
        FillRecord {
            fill_id: self.fill_id.clone(),
            qty: self.qty,
            price_cents: self.price_cents,
            ts_ns: self.ts_ns,
            venue_order_id: self.venue_order_id.clone(),
            fee_cents: self.fee_cents,
        }
    }
}

/// Matched order row from a backfill (fetched by the shell, matched here).
#[derive(Debug, Clone, PartialEq, Eq)]
pub struct BackfillOrderRecord {
    pub client_order_id: ClientOrderId,
    pub venue_order_id: VenueOrderId,
    pub status: BackfillOrderStatus,
    pub filled_qty: u64,
    pub remaining_qty: u64,
    pub fills: Vec<FillRecord>,
}

#[derive(Debug, Clone, Copy, PartialEq, Eq, Hash, Structural)]
pub enum BackfillOrderStatus {
    Open,
    Partial,
    Filled,
    Canceled,
}

// ─── Order state ──────────────────────────────────────────────────────────────

/// Per-order lifecycle state.
#[derive(Debug, PartialEq, Eq)]
pub enum OrderState {
    /// No durable intent yet.
    New,
    /// `SubmitPrepared` journaled; HTTP not yet authorized.
    SubmitPrepared,
    /// `SubmitStarted` journaled before the HTTP send.
    SubmitStarted { attempt_id: AttemptId },
    /// Submit timeout / transport unknown; never resubmitted automatically.
    SubmitUnknown,
    /// Live on venue with zero attributed fills.
    Accepted { venue_order_id: VenueOrderId },
    /// Live with some attributed fills.
    Partial { venue_order_id: VenueOrderId, filled_qty: u64, remaining_qty: u64 },
    /// Fully filled and attributed by fill_id.
    Filled,
    /// Cancel requested; awaiting a typed outcome or reconcile.
    CancelPending {
        venue_order_id: VenueOrderId,
        filled_qty: u64,
        remaining_qty: u64,
        response_fill_count: Option<u64>,
        response_avg_price_cents: Option<u64>,
        response_fee_cents: Option<u64>,
        reconcile_target: Option<ReconcileTarget>,
    },
    /// Venue terminal status known but fill attribution incomplete.
    ReconcilePending {
        venue_order_id: VenueOrderId,
        filled_qty: u64,
        remaining_qty: u64,
        target: ReconcileTarget,
        response_fill_count: Option<u64>,
        response_avg_price_cents: Option<u64>,
        response_fee_cents: Option<u64>,
    },
    /// Cancel confirmed terminal.
    Canceled,
    /// Generic reconciled terminal.
    Terminal,
    /// Create response reported fills but no authoritative fill_id yet.
    ImmediateFillUnattributed {
        venue_order_id: VenueOrderId,
        response_fill_count: u64,
        response_remaining_count: u64,
        response_avg_price_cents: Option<u64>,
        response_fee_cents: Option<u64>,
    },
    /// Backfill deadline elapsed still without fill_id.
    ImmediateFillUnresolved,
    /// Exhaustive backfill found no matching client_order_id.
    UnknownNoMatch,
    /// Explicit halt with reason.
    Halted { reason: HaltReason },
}

impl Clone for OrderState {
    fn clone(&self) -> (r: Self)
        ensures
            r == *self,
    {
        match self {
            OrderState::New => OrderState::New,
            OrderState::SubmitPrepared => OrderState::SubmitPrepared,
            OrderState::SubmitStarted { attempt_id } => OrderState::SubmitStarted {
                attempt_id: attempt_id.clone(),
            },
            OrderState::SubmitUnknown => OrderState::SubmitUnknown,
            OrderState::Accepted { venue_order_id } => OrderState::Accepted {
                venue_order_id: venue_order_id.clone(),
            },
            OrderState::Partial { venue_order_id, filled_qty, remaining_qty } => OrderState::Partial {
                venue_order_id: venue_order_id.clone(),
                filled_qty: *filled_qty,
                remaining_qty: *remaining_qty,
            },
            OrderState::Filled => OrderState::Filled,
            OrderState::CancelPending {
                venue_order_id,
                filled_qty,
                remaining_qty,
                response_fill_count,
                response_avg_price_cents,
                response_fee_cents,
                reconcile_target,
            } => OrderState::CancelPending {
                venue_order_id: venue_order_id.clone(),
                filled_qty: *filled_qty,
                remaining_qty: *remaining_qty,
                response_fill_count: *response_fill_count,
                response_avg_price_cents: *response_avg_price_cents,
                response_fee_cents: *response_fee_cents,
                reconcile_target: reconcile_target.clone(),
            },
            OrderState::ReconcilePending {
                venue_order_id,
                filled_qty,
                remaining_qty,
                target,
                response_fill_count,
                response_avg_price_cents,
                response_fee_cents,
            } => OrderState::ReconcilePending {
                venue_order_id: venue_order_id.clone(),
                filled_qty: *filled_qty,
                remaining_qty: *remaining_qty,
                target: target.clone(),
                response_fill_count: *response_fill_count,
                response_avg_price_cents: *response_avg_price_cents,
                response_fee_cents: *response_fee_cents,
            },
            OrderState::Canceled => OrderState::Canceled,
            OrderState::Terminal => OrderState::Terminal,
            OrderState::ImmediateFillUnattributed {
                venue_order_id,
                response_fill_count,
                response_remaining_count,
                response_avg_price_cents,
                response_fee_cents,
            } => OrderState::ImmediateFillUnattributed {
                venue_order_id: venue_order_id.clone(),
                response_fill_count: *response_fill_count,
                response_remaining_count: *response_remaining_count,
                response_avg_price_cents: *response_avg_price_cents,
                response_fee_cents: *response_fee_cents,
            },
            OrderState::ImmediateFillUnresolved => OrderState::ImmediateFillUnresolved,
            OrderState::UnknownNoMatch => OrderState::UnknownNoMatch,
            OrderState::Halted { reason } => OrderState::Halted { reason: reason.clone() },
        }
    }
}

/// True terminals: the only states in which the reservation is released.
pub open spec fn is_true_terminal(s: OrderState) -> bool {
    s is Filled || s is Canceled || s is Terminal
}

/// Halt states (reservation stays full, new exposure blocked).
pub open spec fn is_halt_state(s: OrderState) -> bool {
    s is ImmediateFillUnresolved || s is UnknownNoMatch || s is Halted
}

/// States frozen for restart safety: true terminals and halt states.
pub open spec fn is_frozen(s: OrderState) -> bool {
    is_true_terminal(s) || is_halt_state(s)
}

impl OrderState {
    pub fn is_terminal_or_halt(&self) -> (r: bool)
        ensures
            r == is_frozen(*self),
    {
        match self {
            OrderState::Filled
            | OrderState::Canceled
            | OrderState::Terminal
            | OrderState::ImmediateFillUnresolved
            | OrderState::UnknownNoMatch
            | OrderState::Halted { .. } => true,
            _ => false,
        }
    }
}

// ─── Events ───────────────────────────────────────────────────────────────────

/// Input event to the pure state machine.
#[derive(Debug, Clone, PartialEq, Eq)]
pub enum OrderEvent {
    /// Durable prepare.
    PrepareSubmit,
    /// Durable started marker before the HTTP send.
    StartSubmit { attempt_id: AttemptId },
    /// Create response; `fill_count` / `remaining_count` are cross-check only.
    SubmitResponse {
        venue_order_id: VenueOrderId,
        fill_count: u64,
        remaining_count: u64,
        avg_price_cents: Option<u64>,
        fee_cents: Option<u64>,
        snapshot_boundary: Option<SnapshotBoundary>,
    },
    /// Submit timeout / transport unknown.
    SubmitTimeout,
    /// Authoritative fill keyed by `fill_id`.
    Fill {
        fill_id: FillId,
        qty: u64,
        price_cents: u64,
        ts_ns: i64,
        venue_order_id: Option<VenueOrderId>,
        fee_cents: Option<u64>,
    },
    /// Strategy/shell requests cancel.
    CancelRequested,
    /// Typed cancel outcome from venue / transport.
    CancelOutcome(CancelOutcome),
    /// Backfill result after `SubmitUnknown`.
    UnknownBackfillResult { exhaustive: bool, matched: Vec<BackfillOrderRecord> },
    /// Fill-id backfill result while `ImmediateFillUnattributed`.
    ImmediateFillBackfillResult { fills: Vec<FillRecord> },
    /// Backfill deadline elapsed.
    BackfillDeadlineElapsed,
    /// Shell attempts a resubmit of the same client_order_id.
    RequestResubmit { venue_idempotent_proven: bool },
    /// Reconcile result for the cancel-unknown / open-order authority path.
    ReconcileResult {
        status: BackfillOrderStatus,
        venue_order_id: Option<VenueOrderId>,
        filled_qty: u64,
        remaining_qty: u64,
        fills: Vec<FillRecord>,
        authority_complete: bool,
    },
}

// ─── Journal records and effects ──────────────────────────────────────────────

/// Journal record the shell must append+fsync when listed in effects.
#[derive(Debug, Clone, PartialEq, Eq)]
pub enum JournalRecord {
    SubmitPrepared { client_order_id: ClientOrderId },
    SubmitStarted { attempt_id: AttemptId },
    SubmitResponse {
        venue_order_id: VenueOrderId,
        fill_count: u64,
        remaining_count: u64,
        avg_price_cents: Option<u64>,
        fee_cents: Option<u64>,
        snapshot_boundary: Option<SnapshotBoundary>,
    },
    SubmitUnknown,
    Fill {
        fill_id: FillId,
        qty: u64,
        price_cents: u64,
        ts_ns: i64,
        fee_cents: Option<u64>,
        venue_order_id: Option<VenueOrderId>,
    },
    /// Fee enrichment after an initial None; delta applied to the attributed fee.
    FeeCorrection { fill_id: FillId, delta_fee_cents: u64 },
    CancelRequested,
    CancelOutcome(CancelOutcome),
    CancelRequestedCid { client_order_id: ClientOrderId },
    CancelOutcomeCid { client_order_id: ClientOrderId, outcome: CancelOutcome },
    VenueBoundCid { client_order_id: ClientOrderId, venue_order_id: VenueOrderId },
    ImmediateFillUnattributed {
        venue_order_id: VenueOrderId,
        fill_count: u64,
        remaining_count: u64,
        avg_price_cents: Option<u64>,
        fee_cents: Option<u64>,
    },
    ImmediateFillUnresolved,
    UnknownNoMatch,
    Halted { reason: HaltReason },
    /// Durable parent venue bind.
    VenueBound { venue_order_id: VenueOrderId },
    /// Durable obligation high-water raise, with the post-raise generation.
    ObligationRaised { fill_obligation: u64, authority_epoch: u64 },
    /// Authority latched at generation `epoch`.
    AuthorityLatched { epoch: u64 },
    /// Authority invalidated; new epoch after the bump.
    AuthorityInvalidated { epoch: u64 },
    /// Non-terminal reconcile snapshot that mutates ctx evidence.
    ReconcileObserved {
        venue_order_id: VenueOrderId,
        venue_filled_qty: u64,
        venue_remaining_qty: u64,
        shell_authority_complete: bool,
        authority_epoch: u64,
    },
    /// True terminal with its rebuild snapshot.
    OrderTerminal {
        kind: TerminalKind,
        venue_order_id: Option<VenueOrderId>,
        fill_obligation: u64,
        authority_complete: bool,
        authority_epoch: u64,
        attributed_fill_qty: u64,
        attributed_fee_cents: u64,
    },
}

#[derive(Debug, Clone, Copy, PartialEq, Eq, Hash, Structural)]
pub enum TerminalKind {
    Filled,
    Canceled,
    Terminal,
}

/// Pure effect description; the shell performs it.
#[derive(Debug, Clone, PartialEq, Eq)]
pub enum Effect {
    /// append+fsync before the shell proceeds.
    AppendFsync(JournalRecord),
    /// GET fills backfill for immediate-fill attribution.
    BackfillFills { venue_order_id: VenueOrderId },
    /// Paginated orders+fills for `SubmitUnknown` recovery.
    BackfillUnknown { client_order_id: ClientOrderId },
    /// Cancel path needs reconcile.
    ReconcileCancel { venue_order_id: Option<VenueOrderId> },
    /// Authority incomplete: shell must re-fetch open orders + fills authority.
    RequestAuthorityReconcile { venue_order_id: Option<VenueOrderId>, client_order_id: ClientOrderId },
    /// Book cash/position/fees for this fill_id.
    AccountFill { fill_id: FillId, qty: u64, price_cents: u64, ts_ns: i64, fee_cents: u64 },
    /// Correct the attributed fee after None→Some enrichment.
    AccountFeeCorrection { fill_id: FillId, delta_fee_cents: u64 },
    /// True terminal: release the reservation.
    ReleaseReservation,
    /// Re-reserve the full amount after a late post-terminal fill.
    ReserveFull,
    /// Block new exposure at the account owner (halt paths).
    HaltNewExposure,
}

impl Effect {
    pub fn is_resubmit(&self) -> (r: bool)
        ensures
            !r,
    {
        false
    }

    pub fn is_io_effect(&self) -> (r: bool)
        ensures
            r == (self is AppendFsync || self is BackfillFills || self is BackfillUnknown
                || self is ReconcileCancel || self is RequestAuthorityReconcile
                || self is HaltNewExposure || self is ReserveFull),
    {
        match self {
            Effect::AppendFsync(_)
            | Effect::BackfillFills { .. }
            | Effect::BackfillUnknown { .. }
            | Effect::ReconcileCancel { .. }
            | Effect::RequestAuthorityReconcile { .. }
            | Effect::HaltNewExposure
            | Effect::ReserveFull => true,
            _ => false,
        }
    }

    pub fn is_account_fill(&self) -> (r: bool)
        ensures
            r == (self is AccountFill),
    {
        match self {
            Effect::AccountFill { .. } => true,
            _ => false,
        }
    }

    pub fn is_fee_correction(&self) -> (r: bool)
        ensures
            r == (self is AccountFeeCorrection),
    {
        match self {
            Effect::AccountFeeCorrection { .. } => true,
            _ => false,
        }
    }
}

/// No effect in `s` releases the reservation.
pub open spec fn no_release(s: Seq<Effect>) -> bool {
    forall|i: int| 0 <= i < s.len() ==> !(#[trigger] s[i] is ReleaseReservation)
}

/// `s` ends with exactly one `ReleaseReservation`, and has no other.
pub open spec fn single_final_release(s: Seq<Effect>) -> bool {
    &&& s.len() > 0
    &&& s.last() is ReleaseReservation
    &&& no_release(s.drop_last())
}

// ─── Reservation predicate ────────────────────────────────────────────────────

/// Reservation hold for this order.
#[derive(Debug, Clone, Copy, PartialEq, Eq, Hash, Structural)]
pub enum ReservationHold {
    /// Full initial reservation still held.
    Full,
    /// Released after a true terminal.
    Released,
}

/// Reservation held predicate: released only on `Canceled`, `Filled`, `Terminal`.
pub fn reservation_held(state: &OrderState) -> (r: ReservationHold)
    ensures
        (r == ReservationHold::Released) <==> is_true_terminal(*state),
{
    match state {
        OrderState::Canceled | OrderState::Filled | OrderState::Terminal => ReservationHold::Released,
        _ => ReservationHold::Full,
    }
}

} // verus!
