//! Transition outcomes, the halt helpers, and the predicates that every
//! transition is proved to obey.

use vstd::prelude::*;

use super::ctx::{authority_fresh, entries_qty, OrderCtx};
use super::rebuild::{journaled_after, lemma_halt_journaled, record_effects};
use super::types::{
    is_halt_state, is_true_terminal, no_release, single_final_release, Effect, HaltReason,
    JournalRecord, OrderEvent, OrderState, RejectReason, SnapshotBoundary,
};
use crate::text::owned;
use vstd::string::StringExecFns;

verus! {

#[derive(Debug, Clone, PartialEq, Eq)]
pub enum TransitionOutcome {
    Accept { new_state: OrderState, effects: Vec<Effect> },
    Reject { reason: RejectReason },
    Halt { new_state: OrderState, reason: HaltReason, effects: Vec<Effect> },
}

/// Effects of an outcome (empty for a reject).
pub open spec fn outcome_effects(o: TransitionOutcome) -> Seq<Effect> {
    match o {
        TransitionOutcome::Accept { effects, .. } => effects@,
        TransitionOutcome::Halt { effects, .. } => effects@,
        TransitionOutcome::Reject { .. } => Seq::empty(),
    }
}

/// No effect in `s` books a fill.
pub open spec fn no_account_fill(s: Seq<Effect>) -> bool {
    forall|i: int| 0 <= i < s.len() ==> !(#[trigger] s[i] is AccountFill)
}

pub proof fn lemma_no_account_fill_concat(a: Seq<Effect>, b: Seq<Effect>)
    requires
        no_account_fill(a),
        no_account_fill(b),
    ensures
        no_account_fill(a + b),
{
    assert forall|i: int| 0 <= i < (a + b).len() implies !(#[trigger] (a + b)[i] is AccountFill) by {
        if i < a.len() {
            assert((a + b)[i] == a[i]);
        } else {
            assert((a + b)[i] == b[i - a.len()]);
        }
    }
}

pub proof fn lemma_no_account_fill_count(s: Seq<Effect>)
    requires
        no_account_fill(s),
    ensures
        count_account_fills(s) == 0,
    decreases s.len(),
{
    if s.len() > 0 {
        assert(no_account_fill(s.drop_last())) by {
            assert forall|i: int| 0 <= i < s.drop_last().len() implies !(#[trigger] s.drop_last()[i] is AccountFill) by {
                assert(s.drop_last()[i] == s[i]);
            }
        }
        lemma_no_account_fill_count(s.drop_last());
    }
}

/// Number of `AccountFill` effects in a sequence.
pub open spec fn count_account_fills(s: Seq<Effect>) -> nat
    decreases s.len(),
{
    if s.len() == 0 {
        0
    } else {
        count_account_fills(s.drop_last()) + if s.last() is AccountFill {
            1nat
        } else {
            0nat
        }
    }
}

impl TransitionOutcome {
    pub fn effects(&self) -> (r: &[Effect])
        ensures
            r@ == outcome_effects(*self),
    {
        match self {
            TransitionOutcome::Accept { effects, .. } => effects.as_slice(),
            TransitionOutcome::Halt { effects, .. } => effects.as_slice(),
            TransitionOutcome::Reject { .. } => {
                let e: &[Effect] = &[];
                assert(e@ =~= Seq::<Effect>::empty());
                e
            },
        }
    }

    pub fn new_state(&self) -> (r: Option<&OrderState>)
        ensures
            match *self {
                TransitionOutcome::Accept { new_state, .. } => r == Some(&new_state),
                TransitionOutcome::Halt { new_state, .. } => r == Some(&new_state),
                TransitionOutcome::Reject { .. } => r is None,
            },
    {
        match self {
            TransitionOutcome::Accept { new_state, .. } => Some(new_state),
            TransitionOutcome::Halt { new_state, .. } => Some(new_state),
            TransitionOutcome::Reject { .. } => None,
        }
    }

    pub fn is_reject(&self) -> (r: bool)
        ensures
            r == (*self is Reject),
    {
        match self {
            TransitionOutcome::Reject { .. } => true,
            _ => false,
        }
    }

    pub fn is_halt(&self) -> (r: bool)
        ensures
            r == (*self is Halt),
    {
        match self {
            TransitionOutcome::Halt { .. } => true,
            _ => false,
        }
    }

    /// Whether any effect asks for a resubmit (none can: there is no such effect).
    pub fn has_resubmit_effect(&self) -> (r: bool)
        ensures
            !r,
    {
        let effects = self.effects();
        let mut i: usize = 0;
        while i < effects.len()
            invariant
                i <= effects@.len(),
            decreases effects@.len() - i,
        {
            if effects[i].is_resubmit() {
                return true;
            }
            i = i + 1;
        }
        false
    }

    pub fn account_fill_count(&self) -> (r: usize)
        ensures
            r == count_account_fills(outcome_effects(*self)),
    {
        let effects = self.effects();
        let mut n: usize = 0;
        let mut i: usize = 0;
        while i < effects.len()
            invariant
                i <= effects@.len(),
                n == count_account_fills(effects@.subrange(0, i as int)),
                n <= i,
            decreases effects@.len() - i,
        {
            proof {
                assert(effects@.subrange(0, i + 1).drop_last() =~= effects@.subrange(0, i as int));
            }
            if effects[i].is_account_fill() {
                n = n + 1;
            }
            i = i + 1;
        }
        proof {
            assert(effects@.subrange(0, effects@.len() as int) =~= effects@);
        }
        n
    }

    /// Put `prefix` in front of the effects of an accept or a halt.
    pub(crate) fn prepend_effects(self, prefix: Vec<Effect>) -> (r: Self)
        ensures
            match self {
                TransitionOutcome::Accept { new_state, effects } => r == TransitionOutcome::Accept {
                    new_state,
                    effects: r->Accept_effects,
                } && r->Accept_effects@ == prefix@ + effects@,
                TransitionOutcome::Halt { new_state, reason, effects } => r
                    == TransitionOutcome::Halt { new_state, reason, effects: r->Halt_effects }
                    && r->Halt_effects@ == prefix@ + effects@,
                TransitionOutcome::Reject { .. } => r == self,
            },
    {
        let mut prefix = prefix;
        match self {
            TransitionOutcome::Accept { new_state, effects } => {
                let mut effects = effects;
                prefix.append(&mut effects);
                TransitionOutcome::Accept { new_state, effects: prefix }
            },
            TransitionOutcome::Halt { new_state, reason, effects } => {
                let mut effects = effects;
                prefix.append(&mut effects);
                TransitionOutcome::Halt { new_state, reason, effects: prefix }
            },
            other => other,
        }
    }
}

// ─── Gate predicates ─────────────────────────────────────────────────────────

/// The response snapshot boundary is one whose membership is implemented (timestamps).
pub open spec fn reliable_boundary(ctx: OrderCtx) -> bool {
    ctx.response_snapshot_boundary matches Some(SnapshotBoundary::TsNs(_))
}

/// |notional − avg·count| ≤ count (one cent per contract), vacuous for count 0.
pub open spec fn notional_within(notional: u128, avg: u64, count: u64) -> bool {
    count == 0 || {
        let expected = avg as int * count as int;
        let diff = if notional as int >= expected {
            notional as int - expected
        } else {
            expected - notional as int
        };
        diff <= count as int
    }
}

/// Response-domain integrity: with a reliable boundary and a declared count, the
/// in-domain qty equals the count and the avg / fee cross-checks pass.
pub open spec fn domain_closed(ctx: OrderCtx) -> bool {
    (ctx.response_fill_count is Some && reliable_boundary(ctx)) ==> {
        let rc = ctx.response_fill_count->0;
        &&& ctx.response_domain_qty == rc
        &&& (ctx.response_fee_cents matches Some(f) ==> f == ctx.response_domain_fee_cents)
        &&& (ctx.response_avg_price_cents matches Some(a) ==> notional_within(
            ctx.response_domain_notional_cents,
            a,
            rc,
        ))
    }
}

/// Once the parent venue is bound, every applied fill names that venue.
pub open spec fn provenance_verified(ctx: OrderCtx) -> bool {
    ctx.venue_order_id matches Some(v) ==> forall|i: int|
        0 <= i < ctx.applied_fills.entries_view().len() ==> {
            let p = (#[trigger] ctx.applied_fills.entries_view()[i]).1;
            p.venue_order_id matches Some(w) && w.0@ == v.0@
        }
}

/// Everything that must hold of the context when the reservation is released.
pub open spec fn release_gates(ctx: OrderCtx, s: OrderState) -> bool {
    &&& authority_fresh(ctx)
    &&& ctx.attributed_fill_qty == ctx.fill_obligation
    &&& provenance_verified(ctx)
    &&& domain_closed(ctx)
    &&& (s is Filled ==> ctx.attributed_fill_qty == ctx.qty)
}

/// Shape of a halt: a halt state, no release, new exposure blocked last.
pub open spec fn halt_shape(new_state: OrderState, reason: HaltReason, effects: Seq<Effect>) -> bool {
    &&& is_halt_state(new_state)
    &&& no_release(effects)
    &&& effects.len() > 0
    &&& effects.last() is HaltNewExposure
    &&& (new_state matches OrderState::Halted { reason: r } ==> r == reason)
}

/// What every transition out of a non-frozen state obeys: a release comes only with
/// a true terminal whose gates hold, once and last; halts have the halt shape.
pub open spec fn outcome_sound(o: TransitionOutcome, ctx: OrderCtx) -> bool {
    match o {
        TransitionOutcome::Accept { new_state, effects } => {
            &&& !is_halt_state(new_state)
            &&& is_true_terminal(new_state) ==> single_final_release(effects@) && release_gates(
                ctx,
                new_state,
            )
            &&& !is_true_terminal(new_state) ==> no_release(effects@)
        },
        TransitionOutcome::Halt { new_state, reason, effects } => halt_shape(
            new_state,
            reason,
            effects@,
        ),
        TransitionOutcome::Reject { .. } => true,
    }
}

/// How the context may change across a transition.
pub open spec fn ctx_evolves(a: OrderCtx, b: OrderCtx) -> bool {
    &&& b.client_order_id == a.client_order_id
    &&& b.market == a.market
    &&& b.strategy == a.strategy
    &&& b.side == a.side
    &&& b.price_cents == a.price_cents
    &&& b.qty == a.qty
    &&& b.fill_obligation >= a.fill_obligation
    &&& b.attributed_fill_qty >= a.attributed_fill_qty
    &&& b.authority_epoch >= a.authority_epoch
    &&& (a.venue_order_id is Some ==> b.venue_order_id == a.venue_order_id)
    &&& a.applied_fills.keys_within(&b.applied_fills)
    &&& (a.fill_obligation <= a.qty ==> b.fill_obligation <= b.qty)
    &&& (a.attributed_fill_qty <= a.qty ==> b.attributed_fill_qty <= b.qty)
    &&& (a.authority_latched_epoch <= a.authority_epoch ==> b.authority_latched_epoch
        <= b.authority_epoch)
    &&& (a.attributed_fill_qty <= a.fill_obligation ==> b.attributed_fill_qty <= b.fill_obligation)
    &&& (fill_sum_holds(a) ==> fill_sum_holds(b))
}

/// The attributed qty is the total qty of the applied fills.
pub open spec fn fill_sum_holds(c: OrderCtx) -> bool {
    c.attributed_fill_qty == entries_qty(c.applied_fills.entries_view())
}

pub proof fn lemma_evolves_refl(a: OrderCtx)
    ensures
        ctx_evolves(a, a),
{
}

pub proof fn lemma_evolves_trans(a: OrderCtx, b: OrderCtx, c: OrderCtx)
    requires
        ctx_evolves(a, b),
        ctx_evolves(b, c),
    ensures
        ctx_evolves(a, c),
{
    assert forall|k: Seq<char>| a.applied_fills.has_key(k) implies #[trigger] c.applied_fills.has_key(
        k,
    ) by {
        assert(b.applied_fills.has_key(k));
    }
}

// ─── Outcome builders ─────────────────────────────────────────────────────────

pub(crate) fn accept(new_state: OrderState, effects: Vec<Effect>) -> (r: TransitionOutcome)
    ensures
        r == (TransitionOutcome::Accept { new_state, effects }),
{
    TransitionOutcome::Accept { new_state, effects }
}

/// Every halt appends a durable `Halted` record and blocks new exposure.
pub(crate) fn halt_with_reason(reason: HaltReason, prior: Vec<Effect>) -> (r: TransitionOutcome)
    ensures
        r is Halt,
        r->Halt_new_state == (OrderState::Halted { reason }),
        r->Halt_reason == reason,
        r->Halt_effects@ == prior@ + seq![
            Effect::AppendFsync(JournalRecord::Halted { reason }),
            Effect::HaltNewExposure,
        ],
        no_release(prior@) ==> halt_shape(r->Halt_new_state, r->Halt_reason, r->Halt_effects@),
        no_account_fill(prior@) ==> no_account_fill(r->Halt_effects@),
        forall|c: OrderCtx| #[trigger] journaled_after(c, prior@, r->Halt_effects@, c),
{
    let ghost prior0 = prior@;
    let mut prior = prior;
    prior.push(Effect::AppendFsync(JournalRecord::Halted { reason: reason.clone() }));
    prior.push(Effect::HaltNewExposure);
    let r = TransitionOutcome::Halt {
        new_state: OrderState::Halted { reason: reason.clone() },
        reason,
        effects: prior,
    };
    proof {
        assert(r->Halt_effects@ =~= prior0 + seq![
            Effect::AppendFsync(JournalRecord::Halted { reason: r->Halt_reason }),
            Effect::HaltNewExposure,
        ]);
        assert forall|c: OrderCtx| #[trigger] journaled_after(c, prior0, r->Halt_effects@, c) by {
            lemma_halt_journaled(c, prior0, r->Halt_reason);
        }
        let e = r->Halt_effects@;
        assert forall|i: int| 0 <= i < e.len() && no_release(prior@) implies !(#[trigger] e[i] is ReleaseReservation) by {
            if i < prior@.len() {
                assert(e[i] == prior@[i]);
            }
        }
        assert forall|i: int| 0 <= i < e.len() && no_account_fill(prior@) implies !(#[trigger] e[i] is AccountFill) by {
            if i < prior@.len() {
                assert(e[i] == prior@[i]);
            }
        }
    }
    r
}

/// Whether the effects already journal a halt record.
fn has_halt_journal(effects: &Vec<Effect>) -> (r: bool)
    ensures
        r == exists|i: int| 0 <= i < effects@.len() && is_halt_journal(#[trigger] effects@[i]),
{
    let mut i: usize = 0;
    while i < effects.len()
        invariant
            i <= effects@.len(),
            forall|j: int| 0 <= j < i ==> !is_halt_journal(#[trigger] effects@[j]),
        decreases effects@.len() - i,
    {
        match &effects[i] {
            Effect::AppendFsync(JournalRecord::Halted { .. })
            | Effect::AppendFsync(JournalRecord::ImmediateFillUnresolved)
            | Effect::AppendFsync(JournalRecord::UnknownNoMatch) => {
                return true;
            },
            _ => {},
        }
        i = i + 1;
    }
    false
}

pub open spec fn is_halt_journal(e: Effect) -> bool {
    e matches Effect::AppendFsync(j) && (j is Halted || j is ImmediateFillUnresolved
        || j is UnknownNoMatch)
}

/// Halt into a specific halt state, journaling the reason unless a halt record is
/// already present, and blocking new exposure unless already blocked.
pub(crate) fn halt_with_reason_state(new_state: OrderState, reason: HaltReason, prior: Vec<Effect>) -> (r:
    TransitionOutcome)
    requires
        new_state is ImmediateFillUnresolved || new_state is UnknownNoMatch,
        prior@.len() == 1,
        prior@[0] matches Effect::AppendFsync(j) && (j is ImmediateFillUnresolved
            || j is UnknownNoMatch),
    ensures
        r == (TransitionOutcome::Halt {
            new_state,
            reason,
            effects: r->Halt_effects,
        }),
        r->Halt_effects@ == prior@.push(Effect::HaltNewExposure),
        halt_shape(new_state, reason, r->Halt_effects@),
{
    let mut prior = prior;
    let already = has_halt_journal(&prior);
    proof {
        assert(is_halt_journal(prior@[prior@.len() - 1]));
    }
    if !already {
        prior.push(Effect::AppendFsync(JournalRecord::Halted { reason: reason.clone() }));
    }
    let mut blocked = false;
    let mut i: usize = 0;
    while i < prior.len()
        invariant
            i <= prior@.len(),
            blocked == exists|j: int| 0 <= j < i && (#[trigger] prior@[j]) is HaltNewExposure,
        decreases prior@.len() - i,
    {
        if let Effect::HaltNewExposure = &prior[i] {
            blocked = true;
        }
        i = i + 1;
    }
    if !blocked {
        prior.push(Effect::HaltNewExposure);
    }
    proof {
        assert(!blocked) by {
            if blocked {
                let j = choose|j: int| 0 <= j < 1 && (#[trigger] prior@[j]) is HaltNewExposure;
            }
        }
        let e = prior@;
        assert forall|i: int| 0 <= i < e.len() implies !(#[trigger] e[i] is ReleaseReservation) by {
            if i == 0 {
            }
        }
    }
    TransitionOutcome::Halt { new_state, reason, effects: prior }
}

pub(crate) fn push_journal(effects: &mut Vec<Effect>, jr: Option<JournalRecord>)
    ensures
        jr matches Some(j) ==> final(effects)@ == old(effects)@.push(Effect::AppendFsync(j)),
        jr is None ==> final(effects)@ == old(effects)@,
        final(effects)@ == old(effects)@ + record_effects(jr),
        no_release(old(effects)@) ==> no_release(final(effects)@),
        no_account_fill(old(effects)@) ==> no_account_fill(final(effects)@),
{
    if let Some(jr) = jr {
        push_effect(effects, Effect::AppendFsync(jr));
    }
    proof {
        assert(final(effects)@ =~= old(effects)@ + record_effects(jr));
    }
}

/// Append an effect that is not a release.
pub(crate) fn push_effect(effects: &mut Vec<Effect>, e: Effect)
    requires
        !(e is ReleaseReservation),
    ensures
        final(effects)@ == old(effects)@.push(e),
        no_release(old(effects)@) ==> no_release(final(effects)@),
        (no_account_fill(old(effects)@) && !(e is AccountFill)) ==> no_account_fill(final(effects)@),
{
    effects.push(e);
    proof {
        assert forall|i: int| 0 <= i < final(effects)@.len() && no_release(old(effects)@) implies !(#[trigger] final(effects)@[i] is ReleaseReservation) by {
            if i < old(effects)@.len() {
                assert(final(effects)@[i] == old(effects)@[i]);
            }
        }
        assert forall|i: int|
            0 <= i < final(effects)@.len() && no_account_fill(old(effects)@) && !(e is AccountFill) implies !(#[trigger] final(effects)@[i] is AccountFill) by {
            if i < old(effects)@.len() {
                assert(final(effects)@[i] == old(effects)@[i]);
            }
        }
    }
}

/// A single non-release effect.
pub(crate) fn one_effect(e: Effect) -> (r: Vec<Effect>)
    requires
        !(e is ReleaseReservation),
    ensures
        r@ == seq![e],
        no_release(r@),
        !(e is AccountFill) ==> no_account_fill(r@),
{
    let mut v: Vec<Effect> = Vec::new();
    push_effect(&mut v, e);
    assert(v@ =~= seq![e]);
    v
}

pub proof fn lemma_no_release_concat(a: Seq<Effect>, b: Seq<Effect>)
    requires
        no_release(a),
        no_release(b),
    ensures
        no_release(a + b),
{
    assert forall|i: int| 0 <= i < (a + b).len() implies !(#[trigger] (a + b)[i] is ReleaseReservation) by {
        if i < a.len() {
            assert((a + b)[i] == a[i]);
        } else {
            assert((a + b)[i] == b[i - a.len()]);
        }
    }
}

/// Prepending effects without a release keeps a sound outcome sound.
pub proof fn lemma_prepend_sound(o: TransitionOutcome, prefix: Seq<Effect>, r: TransitionOutcome, ctx: OrderCtx)
    requires
        outcome_sound(o, ctx),
        no_release(prefix),
        match o {
            TransitionOutcome::Accept { new_state, effects } => r is Accept && r->Accept_new_state == new_state
                && r->Accept_effects@ == prefix + effects@,
            TransitionOutcome::Halt { new_state, reason, effects } => r is Halt && r->Halt_new_state
                == new_state && r->Halt_reason == reason && r->Halt_effects@ == prefix + effects@,
            TransitionOutcome::Reject { .. } => r == o,
        },
    ensures
        outcome_sound(r, ctx),
{
    match o {
        TransitionOutcome::Accept { new_state, effects } => {
            let e = effects@;
            if is_true_terminal(new_state) {
                assert((prefix + e).drop_last() =~= prefix + e.drop_last());
                lemma_no_release_concat(prefix, e.drop_last());
                assert((prefix + e).last() == e.last());
            } else {
                lemma_no_release_concat(prefix, e);
            }
        },
        TransitionOutcome::Halt { effects, .. } => {
            lemma_no_release_concat(prefix, effects@);
            assert((prefix + effects@).last() == effects@.last());
        },
        TransitionOutcome::Reject { .. } => {},
    }
}

/// Label of a state variant.
pub open spec fn state_label(s: OrderState) -> Seq<char> {
    match s {
        OrderState::New => "New"@,
        OrderState::SubmitPrepared => "SubmitPrepared"@,
        OrderState::SubmitStarted { .. } => "SubmitStarted"@,
        OrderState::SubmitUnknown => "SubmitUnknown"@,
        OrderState::Accepted { .. } => "Accepted"@,
        OrderState::Partial { .. } => "Partial"@,
        OrderState::Filled => "Filled"@,
        OrderState::CancelPending { .. } => "CancelPending"@,
        OrderState::ReconcilePending { .. } => "ReconcilePending"@,
        OrderState::Canceled => "Canceled"@,
        OrderState::Terminal => "Terminal"@,
        OrderState::ImmediateFillUnattributed { .. } => "ImmediateFillUnattributed"@,
        OrderState::ImmediateFillUnresolved => "ImmediateFillUnresolved"@,
        OrderState::UnknownNoMatch => "UnknownNoMatch"@,
        OrderState::Halted { .. } => "Halted"@,
    }
}

/// Label of an event variant.
pub open spec fn event_label(e: OrderEvent) -> Seq<char> {
    match e {
        OrderEvent::PrepareSubmit => "PrepareSubmit"@,
        OrderEvent::StartSubmit { .. } => "StartSubmit"@,
        OrderEvent::SubmitResponse { .. } => "SubmitResponse"@,
        OrderEvent::SubmitTimeout => "SubmitTimeout"@,
        OrderEvent::Fill { .. } => "Fill"@,
        OrderEvent::CancelRequested => "CancelRequested"@,
        OrderEvent::CancelOutcome(_) => "CancelOutcome"@,
        OrderEvent::UnknownBackfillResult { .. } => "UnknownBackfillResult"@,
        OrderEvent::ImmediateFillBackfillResult { .. } => "ImmediateFillBackfillResult"@,
        OrderEvent::BackfillDeadlineElapsed => "BackfillDeadlineElapsed"@,
        OrderEvent::RequestResubmit { .. } => "RequestResubmit"@,
        OrderEvent::ReconcileResult { .. } => "ReconcileResult"@,
    }
}

pub(crate) fn state_name(s: &OrderState) -> (r: &'static str)
    ensures
        r@ == state_label(*s),
{
    match s {
        OrderState::New => "New",
        OrderState::SubmitPrepared => "SubmitPrepared",
        OrderState::SubmitStarted { .. } => "SubmitStarted",
        OrderState::SubmitUnknown => "SubmitUnknown",
        OrderState::Accepted { .. } => "Accepted",
        OrderState::Partial { .. } => "Partial",
        OrderState::Filled => "Filled",
        OrderState::CancelPending { .. } => "CancelPending",
        OrderState::ReconcilePending { .. } => "ReconcilePending",
        OrderState::Canceled => "Canceled",
        OrderState::Terminal => "Terminal",
        OrderState::ImmediateFillUnattributed { .. } => "ImmediateFillUnattributed",
        OrderState::ImmediateFillUnresolved => "ImmediateFillUnresolved",
        OrderState::UnknownNoMatch => "UnknownNoMatch",
        OrderState::Halted { .. } => "Halted",
    }
}

pub(crate) fn event_name(e: &OrderEvent) -> (r: &'static str)
    ensures
        r@ == event_label(*e),
{
    match e {
        OrderEvent::PrepareSubmit => "PrepareSubmit",
        OrderEvent::StartSubmit { .. } => "StartSubmit",
        OrderEvent::SubmitResponse { .. } => "SubmitResponse",
        OrderEvent::SubmitTimeout => "SubmitTimeout",
        OrderEvent::Fill { .. } => "Fill",
        OrderEvent::CancelRequested => "CancelRequested",
        OrderEvent::CancelOutcome(_) => "CancelOutcome",
        OrderEvent::UnknownBackfillResult { .. } => "UnknownBackfillResult",
        OrderEvent::ImmediateFillBackfillResult { .. } => "ImmediateFillBackfillResult",
        OrderEvent::BackfillDeadlineElapsed => "BackfillDeadlineElapsed",
        OrderEvent::RequestResubmit { .. } => "RequestResubmit",
        OrderEvent::ReconcileResult { .. } => "ReconcileResult",
    }
}

/// Reject as an illegal transition, naming the state and the event.
pub(crate) fn reject_illegal(state: &OrderState, event: &OrderEvent) -> (r: TransitionOutcome)
    ensures
        r matches TransitionOutcome::Reject { reason: RejectReason::IllegalTransition { state: s, event: e } }
            && s@ == state_label(*state) && e@ == event_label(*event),
{
    TransitionOutcome::Reject {
        reason: RejectReason::IllegalTransition {
            state: owned(state_name(state)),
            event: owned(event_name(event)),
        },
    }
}

/// The text a frozen state answers to an event it ignores.
pub open spec fn frozen_ignore_text(s: OrderState, e: OrderEvent) -> Seq<char> {
    "restart-safe: state \""@ + state_label(s) + "\" ignores event "@ + event_label(e)
}

pub(crate) fn frozen_ignore_detail(state: &OrderState, event: &OrderEvent) -> (r: String)
    ensures
        r@ == frozen_ignore_text(*state, *event),
{
    let mut s = owned("restart-safe: state \"");
    s.append(state_name(state));
    s.append("\" ignores event ");
    s.append(event_name(event));
    s
}

} // verus!
