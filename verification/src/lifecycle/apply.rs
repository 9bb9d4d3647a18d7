//! `apply_event`: the pure transition function of one order, and its laws.

use vstd::prelude::*;

use super::account::{authority_invalidate_effects, resolve_reconcile_venue, venue_agrees};
use super::finalize::{closes_with, ProposedTerminal};
use super::backfill::{
    observed_ctx, open_lands, open_status, apply_unknown_backfill, backfill_routed, route_from_backfill_status, unknown_backfill_post,
};
use super::cancel::{
    apply_cancel_outcome, apply_fill_dedup_only, apply_fill_while_open, booked_cancel_pending, booked_in_place, booked_live, booked_toward_target,
    cancel_outcome_admitted, cancel_outcome_routed, cancel_snapshot_known, live_consistent, pending_fill_post,
};
use super::ctx::{invalidated, OrderCtx};
use super::fills::{attempt_exact, fill_is_noop, try_account_fill, AccountAttempt};
use super::outcome::{
    accept, count_account_fills, ctx_evolves, fill_sum_holds, event_label, frozen_ignore_detail, frozen_ignore_text,
    halt_shape, halt_with_reason, halt_with_reason_state, lemma_evolves_trans,
    lemma_no_account_fill_count, lemma_prepend_sound, one_effect, outcome_effects, outcome_sound,
    push_effect, push_journal, reject_illegal, TransitionOutcome,
};
use super::submit::{
    apply_immediate_fill_backfill, apply_submit_response, halted_with, response_post,
    unattributed_routed,
};
use super::types::{
    is_frozen, is_halt_state, is_true_terminal, no_release, reservation_held, Effect, FillRecord,
    CancelOutcome, HaltReason, JournalRecord, OrderEvent, OrderState, ReconcileTerminal, RejectReason,
    ReservationHold,
};
use super::rebuild::{
    fold_step, journaled, lemma_journaled_after, lemma_journaled_concat, lemma_journaled_refl,
    lemma_journaled_after_free_ext, lemma_record_journaled, law_journal_replays_cancel_request,
    law_fill_booking_journaled, attempt_effects, record_effects, step_replays,
};
use crate::text::owned;

verus! {

/// Facts every step obeys.
pub open spec fn step_post(state: OrderState, old_ctx: OrderCtx, new_ctx: OrderCtx, r: TransitionOutcome) -> bool {
    &&& ctx_evolves(old_ctx, new_ctx)
    &&& (r is Reject ==> new_ctx == old_ctx)
    &&& outcome_sound(r, new_ctx)
}

/// The steps whose journal replay is proved: every state and event, from a context
/// whose obligation is within the order qty, with these exceptions. A venue
/// observation (unknown-order backfill, reconcile result) needs a latched authority
/// not to lag the obligation (its replay clears such a latch, the live step keeps
/// it). A cancel outcome while cancel-pending, and an attribution while the
/// immediate fill is unattributed, need the state's response snapshot (and a
/// reconcile target's venue remaining) not to be news to the context: the step
/// copies them into the context without a record.
pub open spec fn replay_covered(state: OrderState, ctx: OrderCtx, event: OrderEvent) -> bool {
    &&& ctx.fill_obligation <= ctx.qty
    &&& ((event is UnknownBackfillResult || event is ReconcileResult) ==> (ctx.authority_complete
        ==> ctx.attributed_fill_qty >= ctx.fill_obligation))
    &&& (state matches OrderState::CancelPending {
        response_fill_count: rfc,
        response_avg_price_cents: avg,
        response_fee_cents: fee,
        reconcile_target: t,
        ..
    } ==> (event is CancelOutcome ==> cancel_snapshot_known(ctx, rfc, avg, fee, t)))
    &&& (state matches OrderState::ImmediateFillUnattributed {
        response_avg_price_cents: avg,
        response_fee_cents: fee,
        ..
    } ==> (ctx.response_avg_price_cents is Some || avg is None) && (ctx.response_fee_cents is Some
        || fee is None))
}

/// The fill event re-delivers an applied fill with identical economic fields.
pub open spec fn event_is_noop_fill(ctx: OrderCtx, event: OrderEvent) -> bool {
    event matches OrderEvent::Fill { fill_id, qty, price_cents, ts_ns, venue_order_id, fee_cents }
        && fill_is_noop(ctx, fill_id.0@, qty, price_cents, venue_order_id, fee_cents)
}

/// An accepted fill event leaves its fill recorded with the event's economic fields.
pub open spec fn fill_settled(new_ctx: OrderCtx, event: OrderEvent, r: TransitionOutcome) -> bool {
    (event is Fill && r is Accept) ==> event_is_noop_fill(new_ctx, event)
}

/// States in which a fill event is booked (or re-delivered) in place.
pub open spec fn books_fills_in_place(state: OrderState) -> bool {
    state is SubmitStarted || state is SubmitUnknown || state is Accepted || state is Partial
        || state is CancelPending || state is ReconcilePending || is_frozen(state)
}

/// The cancel-pending state entered from a live order.
pub open spec fn cancel_pending_from(
    ctx: OrderCtx,
    venue_order_id: super::types::VenueOrderId,
    response_fill_count: Option<u64>,
    response_avg_price_cents: Option<u64>,
    response_fee_cents: Option<u64>,
) -> OrderState {
    OrderState::CancelPending {
        venue_order_id,
        filled_qty: ctx.attributed_fill_qty,
        remaining_qty: if ctx.attributed_fill_qty <= ctx.qty {
            (ctx.qty - ctx.attributed_fill_qty) as u64
        } else {
            0
        },
        response_fill_count,
        response_avg_price_cents,
        response_fee_cents,
        reconcile_target: None,
    }
}

fn cancel_requested_effects(ctx: &mut OrderCtx) -> (r: Vec<Effect>)
    ensures
        *final(ctx) == invalidated(*old(ctx)),
        r@ == seq![
            Effect::AppendFsync(JournalRecord::AuthorityInvalidated { epoch: final(ctx).authority_epoch }),
            Effect::AppendFsync(JournalRecord::CancelRequestedCid { client_order_id: old(ctx).client_order_id }),
        ],
        no_release(r@),
{
    let mut effects = authority_invalidate_effects(ctx);
    push_effect(
        &mut effects,
        Effect::AppendFsync(JournalRecord::CancelRequestedCid { client_order_id: ctx.client_order_id.clone() }),
    );
    effects
}

fn step_new(state: &OrderState, ctx: &mut OrderCtx, event: &OrderEvent) -> (r: TransitionOutcome)
    requires
        *state is New,
    ensures
        step_post(*state, *old(ctx), *final(ctx), r),
        *final(ctx) == *old(ctx),
        event is PrepareSubmit ==> r == (TransitionOutcome::Accept {
            new_state: OrderState::SubmitPrepared,
            effects: r->Accept_effects,
        }) && r->Accept_effects@ == seq![
            Effect::AppendFsync(JournalRecord::SubmitPrepared { client_order_id: old(ctx).client_order_id }),
        ],
        !(event is PrepareSubmit) ==> (r matches TransitionOutcome::Reject {
            reason: RejectReason::IllegalTransition { state: s, event: e },
        } && s@ == "New"@ && e@ == event_label(*event)),
        replay_covered(*state, *old(ctx), *event) ==> step_replays(*old(ctx), r, *final(ctx)),
{
    proof {
        let j = JournalRecord::SubmitPrepared { client_order_id: ctx.client_order_id };
        assert(fold_step(*ctx, j, Ok::<OrderCtx, HaltReason>(*ctx)));
        lemma_record_journaled(*ctx, j, *ctx);
    }
    match event {
        OrderEvent::PrepareSubmit => accept(
            OrderState::SubmitPrepared,
            one_effect(
                Effect::AppendFsync(JournalRecord::SubmitPrepared { client_order_id: ctx.client_order_id.clone() }),
            ),
        ),
        _ => reject_illegal(state, event),
    }
}

/// Literal detail of a response that skipped `SubmitStarted`.
pub open spec fn skip_started_text() -> Seq<char> {
    "SubmitResponse requires SubmitStarted (Started must be fsynced before HTTP/response)"@
}

fn step_prepared(state: &OrderState, ctx: &mut OrderCtx, event: &OrderEvent) -> (r: TransitionOutcome)
    requires
        *state is SubmitPrepared,
    ensures
        step_post(*state, *old(ctx), *final(ctx), r),
        *final(ctx) == *old(ctx),
        (*event matches OrderEvent::StartSubmit { attempt_id }) ==> r == (TransitionOutcome::Accept {
            new_state: OrderState::SubmitStarted { attempt_id: event->attempt_id },
            effects: r->Accept_effects,
        }) && r->Accept_effects@ == seq![
            Effect::AppendFsync(JournalRecord::SubmitStarted { attempt_id: event->attempt_id }),
        ],
        event is SubmitResponse ==> (r matches TransitionOutcome::Reject {
            reason: RejectReason::OrderInvariantViolated { detail },
        } && detail@ == skip_started_text()),
        event is SubmitTimeout ==> (r matches TransitionOutcome::Reject {
            reason: RejectReason::OrderInvariantViolated { detail },
        } && detail@ == "SubmitTimeout only valid from SubmitStarted"@),
        event is PrepareSubmit ==> r == (TransitionOutcome::Reject { reason: RejectReason::AlreadyPrepared }),
        !(event is StartSubmit) ==> r is Reject,
        replay_covered(*state, *old(ctx), *event) ==> step_replays(*old(ctx), r, *final(ctx)),
{
    if let OrderEvent::StartSubmit { attempt_id } = event {
        proof {
            lemma_record_journaled(*ctx, JournalRecord::SubmitStarted { attempt_id: *attempt_id }, *ctx);
        }
    }
    match event {
        OrderEvent::StartSubmit { attempt_id } => accept(
            OrderState::SubmitStarted { attempt_id: attempt_id.clone() },
            one_effect(Effect::AppendFsync(JournalRecord::SubmitStarted { attempt_id: attempt_id.clone() })),
        ),
        OrderEvent::SubmitResponse { .. } => TransitionOutcome::Reject {
            reason: RejectReason::OrderInvariantViolated {
                detail: owned(
                    "SubmitResponse requires SubmitStarted (Started must be fsynced before HTTP/response)",
                ),
            },
        },
        OrderEvent::SubmitTimeout => TransitionOutcome::Reject {
            reason: RejectReason::OrderInvariantViolated {
                detail: owned("SubmitTimeout only valid from SubmitStarted"),
            },
        },
        OrderEvent::PrepareSubmit => TransitionOutcome::Reject { reason: RejectReason::AlreadyPrepared },
        _ => reject_illegal(state, event),
    }
}

fn step_started(state: &OrderState, ctx: &mut OrderCtx, event: &OrderEvent) -> (r: TransitionOutcome)
    requires
        *state is SubmitStarted,
    ensures
        step_post(*state, *old(ctx), *final(ctx), r),
        fill_settled(*final(ctx), *event, r),
        (*event is Fill && r is Accept) ==> r->Accept_new_state == *state,
        *event is SubmitResponse ==> count_account_fills(outcome_effects(r)) == 0,
        event is SubmitTimeout ==> *final(ctx) == *old(ctx) && r == (TransitionOutcome::Accept {
            new_state: OrderState::SubmitUnknown,
            effects: r->Accept_effects,
        }) && r->Accept_effects@ == seq![
            Effect::AppendFsync(JournalRecord::SubmitUnknown),
            Effect::BackfillUnknown { client_order_id: old(ctx).client_order_id },
        ],
        event_is_noop_fill(*old(ctx), *event) ==> *final(ctx) == *old(ctx) && r == (TransitionOutcome::Accept {
            new_state: *state,
            effects: r->Accept_effects,
        }) && r->Accept_effects@.len() == 0,
        !(event is SubmitResponse || event is SubmitTimeout || event is Fill) ==> r is Reject,
        *event matches OrderEvent::SubmitResponse {
            venue_order_id,
            fill_count,
            remaining_count,
            avg_price_cents,
            fee_cents,
            snapshot_boundary,
        } ==> response_post(
            *old(ctx),
            *final(ctx),
            venue_order_id,
            fill_count,
            remaining_count,
            avg_price_cents,
            fee_cents,
            snapshot_boundary,
            r,
        ),
        replay_covered(*state, *old(ctx), *event) ==> step_replays(*old(ctx), r, *final(ctx)),
        *event matches OrderEvent::Fill { fill_id, qty, price_cents, ts_ns, venue_order_id, fee_cents } ==> exists|a: AccountAttempt|
            attempt_exact(*old(ctx), *final(ctx), fill_id, qty, price_cents, ts_ns, venue_order_id, fee_cents, false, a)
                && #[trigger] booked_in_place(*state, a, r),
{
    match event {
        OrderEvent::SubmitResponse {
            venue_order_id,
            fill_count,
            remaining_count,
            avg_price_cents,
            fee_cents,
            snapshot_boundary,
        } => {
            let r = apply_submit_response(
                ctx,
                venue_order_id.clone(),
                *fill_count,
                *remaining_count,
                *avg_price_cents,
                *fee_cents,
                *snapshot_boundary,
            );
            proof {
                lemma_no_account_fill_count(outcome_effects(r));
            }
            r
        },
        OrderEvent::SubmitTimeout => {
            let mut effects = one_effect(Effect::AppendFsync(JournalRecord::SubmitUnknown));
            push_effect(&mut effects, Effect::BackfillUnknown { client_order_id: ctx.client_order_id.clone() });
            proof {
                lemma_record_journaled(*ctx, JournalRecord::SubmitUnknown, *ctx);
                lemma_journaled_refl(*ctx, seq![Effect::BackfillUnknown { client_order_id: ctx.client_order_id }]);
                lemma_journaled_concat(
                    *ctx,
                    record_effects(Some(JournalRecord::SubmitUnknown)),
                    *ctx,
                    seq![Effect::BackfillUnknown { client_order_id: ctx.client_order_id }],
                    *ctx,
                );
                assert(effects@ =~= record_effects(Some(JournalRecord::SubmitUnknown)) + seq![
                    Effect::BackfillUnknown { client_order_id: ctx.client_order_id },
                ]);
            }
            accept(OrderState::SubmitUnknown, effects)
        },
        OrderEvent::Fill { fill_id, qty, price_cents, ts_ns, venue_order_id, fee_cents } => apply_fill_while_open(
            state,
            ctx,
            fill_id,
            *qty,
            *price_cents,
            *ts_ns,
            venue_order_id,
            *fee_cents,
        ),
        OrderEvent::StartSubmit { .. } => TransitionOutcome::Reject {
            reason: RejectReason::OrderInvariantViolated { detail: owned("already SubmitStarted") },
        },
        _ => reject_illegal(state, event),
    }
}

fn step_unknown(state: &OrderState, ctx: &mut OrderCtx, event: &OrderEvent) -> (r: TransitionOutcome)
    requires
        *state is SubmitUnknown,
    ensures
        step_post(*state, *old(ctx), *final(ctx), r),
        fill_settled(*final(ctx), *event, r),
        (*event is Fill && r is Accept) ==> r->Accept_new_state == *state,
        *event matches OrderEvent::UnknownBackfillResult { exhaustive, matched } ==> unknown_backfill_post(
            *old(ctx),
            *final(ctx),
            exhaustive,
            matched@,
            r,
        ),
        event == (OrderEvent::RequestResubmit { venue_idempotent_proven: false }) ==> *final(ctx) == *old(ctx)
            && r == (TransitionOutcome::Halt {
            new_state: OrderState::Halted { reason: HaltReason::UnprovenIdempotentResubmit },
            reason: HaltReason::UnprovenIdempotentResubmit,
            effects: r->Halt_effects,
        }) && r->Halt_effects@ == seq![
            Effect::AppendFsync(JournalRecord::Halted { reason: HaltReason::UnprovenIdempotentResubmit }),
            Effect::HaltNewExposure,
        ],
        event == (OrderEvent::RequestResubmit { venue_idempotent_proven: true }) ==> (r matches TransitionOutcome::Reject {
            reason: RejectReason::NotApplicable { .. },
        }),
        (*event matches OrderEvent::UnknownBackfillResult { exhaustive, .. } && !exhaustive) ==> *final(ctx)
            == *old(ctx),
        event_is_noop_fill(*old(ctx), *event) ==> *final(ctx) == *old(ctx) && r == (TransitionOutcome::Accept {
            new_state: *state,
            effects: r->Accept_effects,
        }) && r->Accept_effects@.len() == 0,
        !(event is UnknownBackfillResult || event is RequestResubmit || event is Fill) ==> r is Reject,
        replay_covered(*state, *old(ctx), *event) ==> step_replays(*old(ctx), r, *final(ctx)),
        *event matches OrderEvent::Fill { fill_id, qty, price_cents, ts_ns, venue_order_id, fee_cents } ==> exists|a: AccountAttempt|
            attempt_exact(*old(ctx), *final(ctx), fill_id, qty, price_cents, ts_ns, venue_order_id, fee_cents, false, a)
                && #[trigger] booked_in_place(*state, a, r),
{
    match event {
        OrderEvent::UnknownBackfillResult { exhaustive, matched } => apply_unknown_backfill(
            ctx,
            *exhaustive,
            matched.as_slice(),
        ),
        OrderEvent::RequestResubmit { venue_idempotent_proven } => {
            if *venue_idempotent_proven {
                TransitionOutcome::Reject {
                    reason: RejectReason::NotApplicable {
                        detail: owned(
                            "core never emits resubmit; shell must open a new prepared attempt under proven venue-idempotency policy",
                        ),
                    },
                }
            } else {
                let r = halt_with_reason(HaltReason::UnprovenIdempotentResubmit, Vec::new());
                proof {
                    assert(r->Halt_effects@ =~= seq![
                        Effect::AppendFsync(JournalRecord::Halted { reason: HaltReason::UnprovenIdempotentResubmit }),
                        Effect::HaltNewExposure,
                    ]);
                    lemma_journaled_refl(*ctx, Seq::<Effect>::empty());
                    lemma_journaled_after(*ctx, Seq::<Effect>::empty(), *ctx, outcome_effects(r), *ctx);
                }
                r
            }
        },
        OrderEvent::Fill { fill_id, qty, price_cents, ts_ns, venue_order_id, fee_cents } => apply_fill_dedup_only(
            ctx,
            fill_id,
            *qty,
            *price_cents,
            *ts_ns,
            venue_order_id,
            *fee_cents,
            state.clone(),
        ),
        _ => reject_illegal(state, event),
    }
}

fn step_live(state: &OrderState, ctx: &mut OrderCtx, event: &OrderEvent) -> (r: TransitionOutcome)
    requires
        *state is Accepted || *state is Partial,
    ensures
        step_post(*state, *old(ctx), *final(ctx), r),
        fill_settled(*final(ctx), *event, r),
        (*event is Fill && r is Accept) ==> (r->Accept_new_state == *state || live_consistent(
            *final(ctx),
            r->Accept_new_state,
        )),
        *state matches OrderState::Accepted { venue_order_id: v } ==> (event is CancelRequested
            ==> *final(ctx) == invalidated(*old(ctx)) && r == (TransitionOutcome::Accept {
            new_state: cancel_pending_from(
                *old(ctx),
                v,
                old(ctx).response_fill_count,
                old(ctx).response_avg_price_cents,
                old(ctx).response_fee_cents,
            ),
            effects: r->Accept_effects,
        }) && r->Accept_effects@ == seq![
            Effect::AppendFsync(JournalRecord::AuthorityInvalidated { epoch: final(ctx).authority_epoch }),
            Effect::AppendFsync(JournalRecord::CancelRequestedCid { client_order_id: old(ctx).client_order_id }),
        ]),
        *state matches OrderState::Partial { venue_order_id: v, .. } ==> (event is CancelRequested
            ==> *final(ctx) == invalidated(*old(ctx)) && r == (TransitionOutcome::Accept {
            new_state: cancel_pending_from(
                *old(ctx),
                v,
                old(ctx).response_fill_count,
                old(ctx).response_avg_price_cents,
                old(ctx).response_fee_cents,
            ),
            effects: r->Accept_effects,
        }) && r->Accept_effects@ == seq![
            Effect::AppendFsync(JournalRecord::AuthorityInvalidated { epoch: final(ctx).authority_epoch }),
            Effect::AppendFsync(JournalRecord::CancelRequestedCid { client_order_id: old(ctx).client_order_id }),
        ]),
        event_is_noop_fill(*old(ctx), *event) ==> *final(ctx) == *old(ctx) && r == (TransitionOutcome::Accept {
            new_state: *state,
            effects: r->Accept_effects,
        }) && r->Accept_effects@.len() == 0,
        !(event is CancelRequested || event is Fill) ==> r is Reject,
        replay_covered(*state, *old(ctx), *event) ==> step_replays(*old(ctx), r, *final(ctx)),
        *event matches OrderEvent::Fill { fill_id, qty, price_cents, ts_ns, venue_order_id, fee_cents } ==> exists|a: AccountAttempt, c1: OrderCtx|
            attempt_exact(*old(ctx), c1, fill_id, qty, price_cents, ts_ns, venue_order_id, fee_cents, false, a)
                && #[trigger] booked_live(*state, c1, *final(ctx), a, r),
{
    match event {
        OrderEvent::Fill { fill_id, qty, price_cents, ts_ns, venue_order_id, fee_cents } => apply_fill_while_open(
            state,
            ctx,
            fill_id,
            *qty,
            *price_cents,
            *ts_ns,
            venue_order_id,
            *fee_cents,
        ),
        OrderEvent::CancelRequested => {
            let vid = match state {
                OrderState::Accepted { venue_order_id } => venue_order_id.clone(),
                OrderState::Partial { venue_order_id, .. } => venue_order_id.clone(),
                _ => {
                    assert(false);
                    return reject_illegal(state, event);
                },
            };
            let ghost c0 = *ctx;
            let effects = cancel_requested_effects(ctx);
            proof {
                law_journal_replays_cancel_request(c0);
                assert(effects@ == cancel_request_journal(c0, invalidated(c0)));
            }
            accept(
                OrderState::CancelPending {
                    venue_order_id: vid,
                    filled_qty: ctx.attributed_fill_qty,
                    remaining_qty: ctx.remaining_qty(),
                    response_fill_count: ctx.response_fill_count,
                    response_avg_price_cents: ctx.response_avg_price_cents,
                    response_fee_cents: ctx.response_fee_cents,
                    reconcile_target: None,
                },
                effects,
            )
        },
        _ => reject_illegal(state, event),
    }
}

/// Where a reconcile result lands when it does not halt: the venue status routes
/// the order (see [`backfill_routed`]) under the event's venue id, or the state's
/// when the event carries none.
pub open spec fn reconcile_routed(
    c: OrderCtx,
    state_vid: super::types::VenueOrderId,
    event: OrderEvent,
    r: TransitionOutcome,
) -> bool {
    event matches OrderEvent::ReconcileResult {
        status,
        venue_order_id: vid,
        filled_qty,
        remaining_qty,
        authority_complete,
        ..
    } ==> (r is Accept ==> backfill_routed(
        c,
        match vid {
            Some(e) => e,
            None => state_vid,
        },
        status,
        filled_qty,
        remaining_qty,
        authority_complete,
        false,
        r->Accept_new_state,
    ))
}

/// A reconcile result with no fills to book, a venue filled qty within the order
/// qty and attribution not beyond it closes on a canceled or filled venue status
/// (see [`closes_with`]) from the context it leaves, and lands as [`open_lands`]
/// says on an open one; the context it leaves is the bound context with the
/// observation taken (see [`observed_ctx`]).
pub open spec fn reconcile_lands(
    c0: OrderCtx,
    cf: OrderCtx,
    state_vid: super::types::VenueOrderId,
    event: OrderEvent,
    r: TransitionOutcome,
) -> bool {
    event matches OrderEvent::ReconcileResult {
        status,
        venue_order_id: vid,
        filled_qty,
        remaining_qty,
        fills,
        authority_complete,
    } ==> ((fills@.len() == 0 && filled_qty <= c0.qty) ==> cf == observed_ctx(
        c0,
        filled_qty,
        remaining_qty,
        authority_complete,
    )) && ((fills@.len()
        == 0 && filled_qty <= c0.qty && cf.attributed_fill_qty <= filled_qty) ==> {
        &&& status is Canceled ==> closes_with(cf, ProposedTerminal::Canceled, r)
        &&& status is Filled ==> closes_with(
            cf,
            ProposedTerminal::Filled { venue_authoritative_filled: filled_qty, venue_remaining_qty: remaining_qty },
            r,
        )
        &&& open_status(status) ==> open_lands(
            cf,
            match vid {
                Some(e) => e,
                None => state_vid,
            },
            filled_qty,
            remaining_qty,
            false,
            r,
        )
    })
}

/// A reconcile result while cancel- or reconcile-pending: bind venues (a conflict after
/// a first bind still journals it), then route by venue status.
fn reconcile_result(
    ctx: &mut OrderCtx,
    state_vid: &super::types::VenueOrderId,
    event: &OrderEvent,
) -> (r: TransitionOutcome)
    requires
        event is ReconcileResult,
    ensures
        ctx_evolves(*old(ctx), *final(ctx)),
        outcome_sound(r, *final(ctx)),
        !(r is Reject),
        reconcile_routed(*final(ctx), *state_vid, *event, r),
        (*event matches OrderEvent::ReconcileResult { venue_order_id: ev, .. } && venue_agrees(*old(ctx), *state_vid, ev))
            ==> reconcile_lands(*old(ctx), *final(ctx), *state_vid, *event, r),
        (old(ctx).fill_obligation <= old(ctx).qty && (old(ctx).authority_complete ==> old(ctx).attributed_fill_qty
            >= old(ctx).fill_obligation)) ==> journaled(*old(ctx), outcome_effects(r), *final(ctx)),
{
    let ghost c0 = *ctx;
    match event {
        OrderEvent::ReconcileResult {
            status,
            venue_order_id: vid,
            filled_qty,
            remaining_qty,
            fills,
            authority_complete,
        } => {
            let (v, bind_jr) = match resolve_reconcile_venue(ctx, state_vid, vid) {
                Ok(x) => x,
                Err((reason, bind_jr)) => {
                    let mut effects: Vec<Effect> = Vec::new();
                    push_journal(&mut effects, bind_jr);
                    let ghost e = effects@;
                    let r = halt_with_reason(reason, effects);
                    proof {
                        assert(e =~= record_effects(bind_jr));
                        lemma_journaled_after(c0, e, *ctx, outcome_effects(r), *ctx);
                    }
                    return r;
                },
            };
            let ghost c1 = *ctx;
            let mut prefix: Vec<Effect> = Vec::new();
            push_journal(&mut prefix, bind_jr);
            let o = route_from_backfill_status(
                ctx,
                v,
                *status,
                *filled_qty,
                *remaining_qty,
                fills.as_slice(),
                *authority_complete,
                false,
            );
            proof {
                lemma_evolves_trans(c0, c1, *ctx);
            }
            let ghost pre = prefix@;
            let r = o.prepend_effects(prefix);
            proof {
                lemma_prepend_sound(o, pre, r, *ctx);
                assert(pre =~= record_effects(bind_jr));
                if c0.fill_obligation <= c0.qty && (c0.authority_complete ==> c0.attributed_fill_qty >= c0.fill_obligation) {
                    lemma_journaled_concat(c0, pre, c1, outcome_effects(o), *ctx);
                    assert(outcome_effects(r) =~= pre + outcome_effects(o));
                }
            }
            r
        },
        _ => {
            assert(false);
            halt_with_reason(HaltReason::PostTerminalFill, Vec::new())
        },
    }
}

fn step_cancel_pending(state: &OrderState, ctx: &mut OrderCtx, event: &OrderEvent) -> (r: TransitionOutcome)
    requires
        *state is CancelPending,
    ensures
        step_post(*state, *old(ctx), *final(ctx), r),
        fill_settled(*final(ctx), *event, r),
        (*event is Fill && r is Accept) ==> pending_fill_post(*state, *final(ctx), r->Accept_new_state),
        *state matches OrderState::CancelPending { venue_order_id: sv, .. } ==> reconcile_routed(*final(ctx), sv, *event, r),
        *state matches OrderState::CancelPending { venue_order_id: sv, .. } ==> ((*event matches OrderEvent::ReconcileResult {
            venue_order_id: ev,
            ..
        } && venue_agrees(*old(ctx), sv, ev)) ==> reconcile_lands(*old(ctx), *final(ctx), sv, *event, r)),
        (*state matches OrderState::CancelPending { reconcile_target: None, .. }) ==> (*event matches OrderEvent::Fill { fill_id, qty, price_cents, ts_ns, venue_order_id, fee_cents } ==> exists|a: AccountAttempt, c1: OrderCtx|
            attempt_exact(*old(ctx), c1, fill_id, qty, price_cents, ts_ns, venue_order_id, fee_cents, false, a)
                && #[trigger] booked_cancel_pending(*state, c1, *final(ctx), a, r)),
        *state matches OrderState::CancelPending { venue_order_id: sv, reconcile_target: Some(st), .. } ==> (*event matches OrderEvent::Fill { fill_id, qty, price_cents, ts_ns, venue_order_id, fee_cents } ==> exists|a: AccountAttempt, c1: OrderCtx|
            attempt_exact(*old(ctx), c1, fill_id, qty, price_cents, ts_ns, venue_order_id, fee_cents, false, a)
                && #[trigger] booked_toward_target(*state, sv, st, c1, *final(ctx), a, r)),
        event is CancelRequested ==> *final(ctx) == *old(ctx) && r == (TransitionOutcome::Accept {
            new_state: *state,
            effects: r->Accept_effects,
        }) && r->Accept_effects@.len() == 0,
        *state matches OrderState::CancelPending {
            venue_order_id: v,
            filled_qty: f,
            remaining_qty: q,
            reconcile_target: t,
            ..
        } ==> (*event matches OrderEvent::CancelOutcome(outcome) ==> (r is Accept ==> cancel_outcome_routed(
            *final(ctx),
            v,
            f,
            q,
            t,
            outcome,
            r->Accept_new_state,
        ))),
        *state matches OrderState::CancelPending {
            venue_order_id: v,
            response_fill_count: rc,
            reconcile_target: t,
            ..
        } ==> ((*event is CancelOutcome && cancel_outcome_admitted(*old(ctx), v, rc, t)) ==> r is Accept),
        event is CancelOutcome ==> final(ctx).attributed_fill_qty == old(ctx).attributed_fill_qty,
        event is CancelOutcome ==> !final(ctx).authority_complete && (r is Accept ==> !is_true_terminal(
            r->Accept_new_state,
        )),
        event_is_noop_fill(*old(ctx), *event) ==> *final(ctx) == *old(ctx) && r == (TransitionOutcome::Accept {
            new_state: *state,
            effects: r->Accept_effects,
        }) && r->Accept_effects@.len() == 0,
        !(event is CancelRequested || event is CancelOutcome || event is Fill || event is ReconcileResult)
            ==> r is Reject,
        replay_covered(*state, *old(ctx), *event) ==> step_replays(*old(ctx), r, *final(ctx)),
{
    match (state, event) {
        (
            OrderState::CancelPending {
                venue_order_id,
                filled_qty,
                remaining_qty,
                response_fill_count,
                response_avg_price_cents,
                response_fee_cents,
                reconcile_target,
            },
            OrderEvent::CancelOutcome(outcome),
        ) => apply_cancel_outcome(
            ctx,
            venue_order_id,
            *filled_qty,
            *remaining_qty,
            *response_fill_count,
            *response_avg_price_cents,
            *response_fee_cents,
            reconcile_target.clone(),
            *outcome,
        ),
        (_, OrderEvent::Fill { fill_id, qty, price_cents, ts_ns, venue_order_id, fee_cents }) => apply_fill_while_open(
            state,
            ctx,
            fill_id,
            *qty,
            *price_cents,
            *ts_ns,
            venue_order_id,
            *fee_cents,
        ),
        (OrderState::CancelPending { venue_order_id, .. }, OrderEvent::ReconcileResult { .. }) => {
            reconcile_result(ctx, venue_order_id, event)
        },
        (_, OrderEvent::CancelRequested) => {
            let r = accept(state.clone(), Vec::new());
            assert(r->Accept_effects@.len() == 0);
            r
        },
        _ => reject_illegal(state, event),
    }
}

fn step_reconcile_pending(state: &OrderState, ctx: &mut OrderCtx, event: &OrderEvent) -> (r: TransitionOutcome)
    requires
        *state is ReconcilePending,
    ensures
        step_post(*state, *old(ctx), *final(ctx), r),
        fill_settled(*final(ctx), *event, r),
        (*event is Fill && r is Accept) ==> pending_fill_post(*state, *final(ctx), r->Accept_new_state),
        *state matches OrderState::ReconcilePending { venue_order_id: sv, .. } ==> reconcile_routed(*final(ctx), sv, *event, r),
        *state matches OrderState::ReconcilePending { venue_order_id: sv, .. } ==> ((*event matches OrderEvent::ReconcileResult {
            venue_order_id: ev,
            ..
        } && venue_agrees(*old(ctx), sv, ev)) ==> reconcile_lands(*old(ctx), *final(ctx), sv, *event, r)),
        *state matches OrderState::ReconcilePending { venue_order_id: sv, target: st, .. } ==> (*event matches OrderEvent::Fill { fill_id, qty, price_cents, ts_ns, venue_order_id, fee_cents } ==> exists|a: AccountAttempt, c1: OrderCtx|
            attempt_exact(*old(ctx), c1, fill_id, qty, price_cents, ts_ns, venue_order_id, fee_cents, false, a)
                && #[trigger] booked_toward_target(*state, sv, st, c1, *final(ctx), a, r)),
        (event is CancelRequested || event is CancelOutcome) ==> *final(ctx) == *old(ctx) && r == (
        TransitionOutcome::Accept { new_state: *state, effects: r->Accept_effects })
            && r->Accept_effects@.len() == 0,
        event_is_noop_fill(*old(ctx), *event) ==> *final(ctx) == *old(ctx) && r == (TransitionOutcome::Accept {
            new_state: *state,
            effects: r->Accept_effects,
        }) && r->Accept_effects@.len() == 0,
        !(event is CancelRequested || event is CancelOutcome || event is Fill || event is ReconcileResult)
            ==> r is Reject,
        replay_covered(*state, *old(ctx), *event) ==> step_replays(*old(ctx), r, *final(ctx)),
{
    match (state, event) {
        (_, OrderEvent::Fill { fill_id, qty, price_cents, ts_ns, venue_order_id, fee_cents }) => apply_fill_while_open(
            state,
            ctx,
            fill_id,
            *qty,
            *price_cents,
            *ts_ns,
            venue_order_id,
            *fee_cents,
        ),
        (OrderState::ReconcilePending { venue_order_id, .. }, OrderEvent::ReconcileResult { .. }) => {
            reconcile_result(ctx, venue_order_id, event)
        },
        (_, OrderEvent::CancelRequested) | (_, OrderEvent::CancelOutcome(_)) => {
            let r = accept(state.clone(), Vec::new());
            assert(r->Accept_effects@.len() == 0);
            r
        },
        _ => reject_illegal(state, event),
    }
}

/// The cancel-pending state entered from `ImmediateFillUnattributed`: the response
/// snapshot is carried over, the reservation stays full.
pub open spec fn cancel_pending_from_unattributed(ctx: OrderCtx, state: OrderState) -> OrderState {
    OrderState::CancelPending {
        venue_order_id: state->ImmediateFillUnattributed_venue_order_id,
        filled_qty: ctx.attributed_fill_qty,
        remaining_qty: if ctx.attributed_fill_qty <= ctx.qty {
            (ctx.qty - ctx.attributed_fill_qty) as u64
        } else {
            0
        },
        response_fill_count: Some(state->ImmediateFillUnattributed_response_fill_count),
        response_avg_price_cents: state->ImmediateFillUnattributed_response_avg_price_cents,
        response_fee_cents: state->ImmediateFillUnattributed_response_fee_cents,
        reconcile_target: None,
    }
}

/// The cancel requests of a live or unattributed order: authority is invalidated
/// and the cancel journaled.
pub open spec fn cancel_request_journal(old_ctx: OrderCtx, new_ctx: OrderCtx) -> Seq<Effect> {
    seq![
        Effect::AppendFsync(JournalRecord::AuthorityInvalidated { epoch: new_ctx.authority_epoch }),
        Effect::AppendFsync(JournalRecord::CancelRequestedCid { client_order_id: old_ctx.client_order_id }),
    ]
}

fn step_unattributed(state: &OrderState, ctx: &mut OrderCtx, event: &OrderEvent) -> (r: TransitionOutcome)
    requires
        *state is ImmediateFillUnattributed,
    ensures
        step_post(*state, *old(ctx), *final(ctx), r),
        *state matches OrderState::ImmediateFillUnattributed {
            venue_order_id: v,
            response_fill_count: rfc,
            response_remaining_count: rrc,
            response_avg_price_cents: avg,
            response_fee_cents: fee,
        } ==> ((*event is ImmediateFillBackfillResult || *event is Fill) ==> (r is Accept ==> unattributed_routed(
            *final(ctx),
            v,
            rfc,
            rrc,
            avg,
            fee,
            r->Accept_new_state,
        ))),
        *event is CancelRequested ==> *final(ctx) == invalidated(*old(ctx))
            && r == (TransitionOutcome::Accept {
            new_state: cancel_pending_from_unattributed(*old(ctx), *state),
            effects: r->Accept_effects,
        }) && r->Accept_effects@ == cancel_request_journal(*old(ctx), *final(ctx)),
        event is BackfillDeadlineElapsed ==> *final(ctx) == *old(ctx) && r == (TransitionOutcome::Halt {
            new_state: OrderState::ImmediateFillUnresolved,
            reason: HaltReason::ImmediateFillUnresolved,
            effects: r->Halt_effects,
        }) && r->Halt_effects@ == seq![
            Effect::AppendFsync(JournalRecord::ImmediateFillUnresolved),
            Effect::HaltNewExposure,
        ],
        !(event is ImmediateFillBackfillResult || event is Fill || event is CancelRequested
            || event is BackfillDeadlineElapsed) ==> r is Reject,
        replay_covered(*state, *old(ctx), *event) ==> step_replays(*old(ctx), r, *final(ctx)),
{
    match (state, event) {
        (
            OrderState::ImmediateFillUnattributed {
                venue_order_id,
                response_fill_count,
                response_remaining_count,
                response_avg_price_cents,
                response_fee_cents,
            },
            OrderEvent::ImmediateFillBackfillResult { fills },
        ) => apply_immediate_fill_backfill(
            ctx,
            venue_order_id,
            *response_fill_count,
            *response_remaining_count,
            *response_avg_price_cents,
            *response_fee_cents,
            fills.as_slice(),
        ),
        (
            OrderState::ImmediateFillUnattributed {
                venue_order_id,
                response_fill_count,
                response_remaining_count,
                response_avg_price_cents,
                response_fee_cents,
            },
            OrderEvent::Fill { fill_id, qty, price_cents, ts_ns, venue_order_id: fill_vid, fee_cents },
        ) => {
            let fills = vec![
                FillRecord {
                    fill_id: fill_id.clone(),
                    qty: *qty,
                    price_cents: *price_cents,
                    ts_ns: *ts_ns,
                    venue_order_id: fill_vid.clone(),
                    fee_cents: *fee_cents,
                },
            ];
            apply_immediate_fill_backfill(
                ctx,
                venue_order_id,
                *response_fill_count,
                *response_remaining_count,
                *response_avg_price_cents,
                *response_fee_cents,
                fills.as_slice(),
            )
        },
        (
            OrderState::ImmediateFillUnattributed {
                venue_order_id,
                response_fill_count,
                response_avg_price_cents,
                response_fee_cents,
                ..
            },
            OrderEvent::CancelRequested,
        ) => {
            let ghost c0 = *ctx;
            let effects = cancel_requested_effects(ctx);
            proof {
                law_journal_replays_cancel_request(c0);
                assert(effects@ == cancel_request_journal(c0, invalidated(c0)));
            }
            accept(
                OrderState::CancelPending {
                    venue_order_id: venue_order_id.clone(),
                    filled_qty: ctx.attributed_fill_qty,
                    remaining_qty: ctx.remaining_qty(),
                    response_fill_count: Some(*response_fill_count),
                    response_avg_price_cents: *response_avg_price_cents,
                    response_fee_cents: *response_fee_cents,
                    reconcile_target: None,
                },
                effects,
            )
        },
        (_, OrderEvent::BackfillDeadlineElapsed) => {
            let r = halt_with_reason_state(
                OrderState::ImmediateFillUnresolved,
                HaltReason::ImmediateFillUnresolved,
                one_effect(Effect::AppendFsync(JournalRecord::ImmediateFillUnresolved)),
            );
            proof {
                assert(r->Halt_effects@ =~= seq![
                    Effect::AppendFsync(JournalRecord::ImmediateFillUnresolved),
                    Effect::HaltNewExposure,
                ]);
                lemma_record_journaled(*ctx, JournalRecord::ImmediateFillUnresolved, *ctx);
                lemma_journaled_refl(*ctx, seq![Effect::HaltNewExposure]);
                lemma_journaled_concat(
                    *ctx,
                    record_effects(Some(JournalRecord::ImmediateFillUnresolved)),
                    *ctx,
                    seq![Effect::HaltNewExposure],
                    *ctx,
                );
                assert(r->Halt_effects@ =~= record_effects(Some(JournalRecord::ImmediateFillUnresolved)) + seq![
                    Effect::HaltNewExposure,
                ]);
            }
            r
        },
        _ => reject_illegal(state, event),
    }
}

/// The effects a late fill adds in frozen state `s`: re-reserve when released.
pub open spec fn late_fill_reserve(s: OrderState) -> Seq<Effect> {
    if is_true_terminal(s) {
        seq![Effect::ReserveFull]
    } else {
        Seq::<Effect>::empty()
    }
}

/// The outcome of a late fill booked by `a` in frozen state `s`: a no-op or an
/// enrichment stays in `s`; a new fill (`PostTerminalFill`) or a refused one halts
/// after the booking's effects and a re-reservation when released.
pub open spec fn booked_frozen(s: OrderState, a: AccountAttempt, r: TransitionOutcome) -> bool {
    match a {
        AccountAttempt::NoOp => r == (TransitionOutcome::Accept { new_state: s, effects: r->Accept_effects })
            && r->Accept_effects@.len() == 0,
        AccountAttempt::Enriched { effects } => r == (TransitionOutcome::Accept { new_state: s, effects: r->Accept_effects })
            && r->Accept_effects@ == effects@,
        AccountAttempt::Applied { effects } => halted_with(r, HaltReason::PostTerminalFill, effects@ + late_fill_reserve(s)),
        AccountAttempt::Halt { reason, effects } => halted_with(r, reason, effects@ + late_fill_reserve(s)),
    }
}

/// What a frozen (terminal or halted) state answers.
pub open spec fn frozen_post(state: OrderState, old_ctx: OrderCtx, new_ctx: OrderCtx, event: OrderEvent, r: TransitionOutcome) -> bool {
    &&& ctx_evolves(old_ctx, new_ctx)
    &&& no_release(outcome_effects(r))
    &&& (!(event is Fill) ==> new_ctx == old_ctx && (r matches TransitionOutcome::Reject {
        reason: RejectReason::NotApplicable { detail },
    } && detail@ == frozen_ignore_text(state, event)))
    &&& (event is Fill ==> !(r is Reject))
    &&& (r is Accept ==> r->Accept_new_state == state)
    &&& (r matches TransitionOutcome::Halt { new_state, reason, effects } ==> halt_shape(new_state, reason, effects@)
        && new_state is Halted && (is_true_terminal(state) ==> effects@.len() >= 3
        && effects@[effects@.len() - 3] is ReserveFull))
}

/// Restart-in-terminal safety: further events produce no new I/O, except a late new
/// fill, which is booked (ownership-checked), re-reserves if released, and halts.
/// Same-fill_id enrichment is metadata only.
#[verifier::rlimit(40)]
fn restart_safe_handle(state: &OrderState, ctx: &mut OrderCtx, event: &OrderEvent) -> (r: TransitionOutcome)
    requires
        is_frozen(*state),
    ensures
        frozen_post(*state, *old(ctx), *final(ctx), *event, r),
        fill_settled(*final(ctx), *event, r),
        event_is_noop_fill(*old(ctx), *event) ==> *final(ctx) == *old(ctx) && r == (TransitionOutcome::Accept {
            new_state: *state,
            effects: r->Accept_effects,
        }) && r->Accept_effects@.len() == 0,
        replay_covered(*state, *old(ctx), *event) ==> step_replays(*old(ctx), r, *final(ctx)),
        *event matches OrderEvent::Fill { fill_id, qty, price_cents, ts_ns, venue_order_id, fee_cents } ==> exists|a: AccountAttempt|
            attempt_exact(*old(ctx), *final(ctx), fill_id, qty, price_cents, ts_ns, venue_order_id, fee_cents, false, a)
                && #[trigger] booked_frozen(*state, a, r),
{
    if let OrderEvent::Fill { fill_id, qty, price_cents, ts_ns, venue_order_id, fee_cents } = event {
        let ghost c0 = *ctx;
        let attempt = try_account_fill(ctx, fill_id, *qty, *price_cents, *ts_ns, venue_order_id, *fee_cents);
        let ghost c1 = *ctx;
        let ghost ga = attempt;
        proof {
            law_fill_booking_journaled(c0, c1, *fill_id, *qty, *price_cents, *ts_ns, *venue_order_id, *fee_cents, ga);
        }
        match attempt {
            AccountAttempt::NoOp => {
                let r = accept(state.clone(), Vec::new());
                assert(r->Accept_effects@.len() == 0);
                proof {
                    assert(outcome_effects(r) =~= attempt_effects(ga));
                    assert(booked_frozen(*state, ga, r));
                }
                return r;
            },
            AccountAttempt::Halt { reason, effects } => {
                let mut effects = effects;
                let ghost e0 = effects@;
                if let ReservationHold::Released = reservation_held(state) {
                    push_effect(&mut effects, Effect::ReserveFull);
                }
                let ghost e1 = effects@;
                let r = halt_with_reason(reason, effects);
                proof {
                    let e = r->Halt_effects@;
                    assert(e.len() >= 2);
                    assert(e1.subrange(0, e0.len() as int) =~= e0);
                    lemma_journaled_after_free_ext(c1, e0, e1);
                    lemma_journaled_after(c0, e0, c1, e1, c1);
                    lemma_journaled_after(c0, e1, c1, outcome_effects(r), c1);
                    assert(e1 =~= e0 + late_fill_reserve(*state));
                    assert(booked_frozen(*state, ga, r));
                }
                return r;
            },
            AccountAttempt::Enriched { effects } => {
                let r = accept(state.clone(), effects);
                proof {
                    assert(booked_frozen(*state, ga, r));
                }
                return r;
            },
            AccountAttempt::Applied { effects } => {
                let mut effects = effects;
                let ghost e0 = effects@;
                if let ReservationHold::Released = reservation_held(state) {
                    push_effect(&mut effects, Effect::ReserveFull);
                }
                let ghost e1 = effects@;
                let r = halt_with_reason(HaltReason::PostTerminalFill, effects);
                proof {
                    assert(e1.subrange(0, e0.len() as int) =~= e0);
                    lemma_journaled_after_free_ext(c1, e0, e1);
                    lemma_journaled_after(c0, e0, c1, e1, c1);
                    lemma_journaled_after(c0, e1, c1, outcome_effects(r), c1);
                    assert(e1 =~= e0 + late_fill_reserve(*state));
                    assert(booked_frozen(*state, ga, r));
                }
                return r;
            },
        }
    }
    TransitionOutcome::Reject { reason: RejectReason::NotApplicable { detail: frozen_ignore_detail(state, event) } }
}

/// What every transition obeys, whatever the state and event: the context only
/// evolves (identity fixed; obligation, attributed qty, epoch and fill-id set only
/// grow; a bound venue never changes); a reject leaves it untouched;
/// `ReleaseReservation` appears exactly when a non-frozen state reaches a true
/// terminal, once and last, with every release gate holding; halts block new
/// exposure; frozen states answer only late fills; an accepted fill stays recorded
/// and its re-delivery is a no-op; and replaying the journal records the step
/// emitted reproduces its context (or its halt) wherever [`replay_covered`] holds.
pub open spec fn transition_laws(
    state: OrderState,
    old_ctx: OrderCtx,
    event: OrderEvent,
    new_ctx: OrderCtx,
    r: TransitionOutcome,
) -> bool {
    &&& ctx_evolves(old_ctx, new_ctx)
    &&& (r is Reject ==> new_ctx == old_ctx)
    &&& (!is_frozen(state) ==> outcome_sound(r, new_ctx))
    &&& (is_frozen(state) ==> frozen_post(state, old_ctx, new_ctx, event, r))
    &&& (!no_release(outcome_effects(r)) <==> (r is Accept && is_true_terminal(r->Accept_new_state)
        && !is_frozen(state)))
    &&& (r is Halt ==> is_halt_state(r->Halt_new_state))
    &&& (books_fills_in_place(state) ==> fill_settled(new_ctx, event, r))
    &&& ((books_fills_in_place(state) && event_is_noop_fill(old_ctx, event)) ==> new_ctx == old_ctx
        && r == (TransitionOutcome::Accept { new_state: state, effects: r->Accept_effects })
        && r->Accept_effects@.len() == 0)
    &&& (replay_covered(state, old_ctx, event) ==> step_replays(old_ctx, r, new_ctx))
}

/// Everything one step promises: [`transition_laws`] always, and the exact result
/// of the submit, timeout, resubmit and cancel-request steps, of fills in every
/// state, and of the cancel outcomes and reconcile results stated below.
pub open spec fn event_post(state: OrderState, c0: OrderCtx, event: OrderEvent, c1: OrderCtx, r: TransitionOutcome) -> bool {
    &&& transition_laws(state, c0, event, c1, r)
    // a late fill in a frozen state: a no-op or enrichment stays, anything else halts
    &&& is_frozen(state) ==> (event matches OrderEvent::Fill { fill_id, qty, price_cents, ts_ns, venue_order_id, fee_cents } ==> exists|a: AccountAttempt|
        attempt_exact(c0, c1, fill_id, qty, price_cents, ts_ns, venue_order_id, fee_cents, false, a)
            && #[trigger] booked_frozen(state, a, r))
    // a fill before the response, or while the submit is unknown, is booked in place exactly
    &&& (state is SubmitStarted || state is SubmitUnknown) ==> (event matches OrderEvent::Fill { fill_id, qty, price_cents, ts_ns, venue_order_id, fee_cents } ==> exists|a: AccountAttempt|
        attempt_exact(c0, c1, fill_id, qty, price_cents, ts_ns, venue_order_id, fee_cents, false, a)
            && #[trigger] booked_in_place(state, a, r))
    // a create response is taken only once the submit has started, and its
    // aggregate counts are never booked as fills
    &&& (event is SubmitResponse && !(state is SubmitStarted)) ==> r is Reject
    &&& event is SubmitResponse ==> count_account_fills(outcome_effects(r)) == 0
    // a fill on a live order keeps the state or moves it consistently with the context
    &&& ((state is Accepted || state is Partial) && event is Fill && r is Accept) ==> (r->Accept_new_state
        == state || live_consistent(c1, r->Accept_new_state))
    // and is booked exactly; a fill that leaves part of the order open answers
    // the matching live state
    &&& (state is Accepted || state is Partial) ==> (event matches OrderEvent::Fill { fill_id, qty, price_cents, ts_ns, venue_order_id, fee_cents } ==> exists|a: AccountAttempt, cb: OrderCtx|
        attempt_exact(c0, cb, fill_id, qty, price_cents, ts_ns, venue_order_id, fee_cents, false, a)
            && #[trigger] booked_live(state, cb, c1, a, r))
    &&& (event is Fill && r is Accept) ==> pending_fill_post(state, c1, r->Accept_new_state)
    // a fill on a cancel- or reconcile-pending order is booked exactly; without a
    // reconcile target one that leaves part of the order open answers `CancelPending`
    // with the new counts, toward a target one still short of it waits in `ReconcilePending`
    &&& (state matches OrderState::CancelPending { reconcile_target: None, .. }) ==> (event matches OrderEvent::Fill { fill_id, qty, price_cents, ts_ns, venue_order_id, fee_cents } ==> exists|a: AccountAttempt, cb: OrderCtx|
        attempt_exact(c0, cb, fill_id, qty, price_cents, ts_ns, venue_order_id, fee_cents, false, a)
            && #[trigger] booked_cancel_pending(state, cb, c1, a, r))
    &&& state matches OrderState::CancelPending { venue_order_id: sv, reconcile_target: Some(st), .. } ==> (event matches OrderEvent::Fill { fill_id, qty, price_cents, ts_ns, venue_order_id, fee_cents } ==> exists|a: AccountAttempt, cb: OrderCtx|
        attempt_exact(c0, cb, fill_id, qty, price_cents, ts_ns, venue_order_id, fee_cents, false, a)
            && #[trigger] booked_toward_target(state, sv, st, cb, c1, a, r))
    &&& state matches OrderState::ReconcilePending { venue_order_id: sv, target: st, .. } ==> (event matches OrderEvent::Fill { fill_id, qty, price_cents, ts_ns, venue_order_id, fee_cents } ==> exists|a: AccountAttempt, cb: OrderCtx|
        attempt_exact(c0, cb, fill_id, qty, price_cents, ts_ns, venue_order_id, fee_cents, false, a)
            && #[trigger] booked_toward_target(state, sv, st, cb, c1, a, r))
    // a timeout is taken only while the submit is in flight
    &&& (event is SubmitTimeout && !(state is SubmitStarted)) ==> r is Reject
    // prepare only from `New`, start only from `SubmitPrepared`
    &&& (event is PrepareSubmit && !(state is New)) ==> r is Reject
    &&& (event is StartSubmit && !(state is SubmitPrepared)) ==> r is Reject
    &&& (state is New && event is PrepareSubmit) ==> c1 == c0 && r == (TransitionOutcome::Accept {
        new_state: OrderState::SubmitPrepared,
        effects: r->Accept_effects,
    }) && r->Accept_effects@ == seq![
        Effect::AppendFsync(JournalRecord::SubmitPrepared { client_order_id: c0.client_order_id }),
    ]
    &&& (state is SubmitPrepared && (event matches OrderEvent::StartSubmit { attempt_id })) ==> c1
        == c0 && r == (TransitionOutcome::Accept {
        new_state: OrderState::SubmitStarted { attempt_id: event->attempt_id },
        effects: r->Accept_effects,
    }) && r->Accept_effects@ == seq![
        Effect::AppendFsync(JournalRecord::SubmitStarted { attempt_id: event->attempt_id }),
    ]
    &&& (state is SubmitPrepared && event is SubmitResponse) ==> (r matches TransitionOutcome::Reject {
        reason: RejectReason::OrderInvariantViolated { detail },
    } && detail@ == skip_started_text())
    &&& (state is SubmitPrepared && event is SubmitTimeout) ==> (r matches TransitionOutcome::Reject {
        reason: RejectReason::OrderInvariantViolated { detail },
    } && detail@ == "SubmitTimeout only valid from SubmitStarted"@)
    &&& state is SubmitStarted ==> (event matches OrderEvent::SubmitResponse {
        venue_order_id,
        fill_count,
        remaining_count,
        avg_price_cents,
        fee_cents,
        snapshot_boundary,
    } ==> response_post(
        c0,
        c1,
        venue_order_id,
        fill_count,
        remaining_count,
        avg_price_cents,
        fee_cents,
        snapshot_boundary,
        r,
    ))
    &&& (state is SubmitStarted && event is SubmitTimeout) ==> c1 == c0 && r == (
    TransitionOutcome::Accept { new_state: OrderState::SubmitUnknown, effects: r->Accept_effects })
        && r->Accept_effects@ == seq![
        Effect::AppendFsync(JournalRecord::SubmitUnknown),
        Effect::BackfillUnknown { client_order_id: c0.client_order_id },
    ]
    &&& (state is SubmitUnknown && event == (OrderEvent::RequestResubmit { venue_idempotent_proven: false }))
        ==> r == (TransitionOutcome::Halt {
        new_state: OrderState::Halted { reason: HaltReason::UnprovenIdempotentResubmit },
        reason: HaltReason::UnprovenIdempotentResubmit,
        effects: r->Halt_effects,
    }) && r->Halt_effects@ == seq![
        Effect::AppendFsync(JournalRecord::Halted { reason: HaltReason::UnprovenIdempotentResubmit }),
        Effect::HaltNewExposure,
    ]
    &&& state is SubmitUnknown ==> (event matches OrderEvent::UnknownBackfillResult { exhaustive, matched }
        ==> unknown_backfill_post(c0, c1, exhaustive, matched@, r))
    &&& ((state is CancelPending || state is ReconcilePending) && event is CancelRequested) ==> c1
        == c0 && r == (TransitionOutcome::Accept { new_state: state, effects: r->Accept_effects })
        && r->Accept_effects@.len() == 0
    &&& (state is ReconcilePending && event is CancelOutcome) ==> c1 == c0 && r == (
    TransitionOutcome::Accept { new_state: state, effects: r->Accept_effects })
        && r->Accept_effects@.len() == 0
    &&& state matches OrderState::CancelPending {
        venue_order_id: v,
        filled_qty: f,
        remaining_qty: q,
        reconcile_target: t,
        ..
    } ==> (event matches OrderEvent::CancelOutcome(outcome) ==> (r is Accept ==> cancel_outcome_routed(
        c1,
        v,
        f,
        q,
        t,
        outcome,
        r->Accept_new_state,
    )))
    &&& state matches OrderState::CancelPending {
        venue_order_id: v,
        response_fill_count: rc,
        reconcile_target: t,
        ..
    } ==> ((event is CancelOutcome && cancel_outcome_admitted(c0, v, rc, t)) ==> r is Accept)
    &&& state matches OrderState::CancelPending { venue_order_id: sv, .. } ==> reconcile_routed(
        c1,
        sv,
        event,
        r,
    )
    &&& state matches OrderState::ReconcilePending { venue_order_id: sv, .. } ==> reconcile_routed(
        c1,
        sv,
        event,
        r,
    )
    // a reconcile result on the order's own venue closes on a canceled or filled
    // venue status
    &&& state matches OrderState::CancelPending { venue_order_id: sv, .. } ==> ((event matches OrderEvent::ReconcileResult {
        venue_order_id: ev,
        ..
    } && venue_agrees(c0, sv, ev)) ==> reconcile_lands(c0, c1, sv, event, r))
    &&& state matches OrderState::ReconcilePending { venue_order_id: sv, .. } ==> ((event matches OrderEvent::ReconcileResult {
        venue_order_id: ev,
        ..
    } && venue_agrees(c0, sv, ev)) ==> reconcile_lands(c0, c1, sv, event, r))
    &&& (state is CancelPending && event is CancelOutcome) ==> c1.attributed_fill_qty == c0.attributed_fill_qty
    &&& (state is CancelPending && event is CancelOutcome) ==> !c1.authority_complete && (r is Accept
        ==> !is_true_terminal(r->Accept_new_state))
    &&& state matches OrderState::Accepted { venue_order_id: v } ==> (event is CancelRequested
        ==> c1 == invalidated(c0) && r == (TransitionOutcome::Accept {
        new_state: cancel_pending_from(
            c0,
            v,
            c0.response_fill_count,
            c0.response_avg_price_cents,
            c0.response_fee_cents,
        ),
        effects: r->Accept_effects,
    }) && r->Accept_effects@ == cancel_request_journal(c0, c1))
    &&& state matches OrderState::Partial { venue_order_id: v, .. } ==> (event is CancelRequested
        ==> c1 == invalidated(c0) && r == (TransitionOutcome::Accept {
        new_state: cancel_pending_from(
            c0,
            v,
            c0.response_fill_count,
            c0.response_avg_price_cents,
            c0.response_fee_cents,
        ),
        effects: r->Accept_effects,
    }) && r->Accept_effects@ == cancel_request_journal(c0, c1))
    &&& state matches OrderState::ImmediateFillUnattributed {
        venue_order_id: v,
        response_fill_count: rfc,
        response_remaining_count: rrc,
        response_avg_price_cents: avg,
        response_fee_cents: fee,
    } ==> ((event is ImmediateFillBackfillResult || event is Fill) ==> (r is Accept ==> unattributed_routed(
        c1,
        v,
        rfc,
        rrc,
        avg,
        fee,
        r->Accept_new_state,
    )))
    &&& (state is ImmediateFillUnattributed && event is CancelRequested) ==> c1 == invalidated(c0)
        && r == (TransitionOutcome::Accept {
        new_state: cancel_pending_from_unattributed(c0, state),
        effects: r->Accept_effects,
    }) && r->Accept_effects@ == cancel_request_journal(c0, c1)
    &&& (state is ImmediateFillUnattributed && event is BackfillDeadlineElapsed) ==> c1 == c0
        && r == (TransitionOutcome::Halt {
        new_state: OrderState::ImmediateFillUnresolved,
        reason: HaltReason::ImmediateFillUnresolved,
        effects: r->Halt_effects,
    }) && r->Halt_effects@ == seq![
        Effect::AppendFsync(JournalRecord::ImmediateFillUnresolved),
        Effect::HaltNewExposure,
    ]
}

/// Apply one event to one order, as [`event_post`] states.
pub fn apply_event(state: &OrderState, ctx: &mut OrderCtx, event: &OrderEvent) -> (r: TransitionOutcome)
    ensures
        event_post(*state, *old(ctx), *event, *final(ctx), r),
{
    if state.is_terminal_or_halt() {
        return restart_safe_handle(state, ctx, event);
    }
    match state {
        OrderState::New => step_new(state, ctx, event),
        OrderState::SubmitPrepared => step_prepared(state, ctx, event),
        OrderState::SubmitStarted { .. } => step_started(state, ctx, event),
        OrderState::SubmitUnknown => step_unknown(state, ctx, event),
        OrderState::Accepted { .. } | OrderState::Partial { .. } => step_live(state, ctx, event),
        OrderState::CancelPending { .. } => step_cancel_pending(state, ctx, event),
        OrderState::ReconcilePending { .. } => step_reconcile_pending(state, ctx, event),
        OrderState::ImmediateFillUnattributed { .. } => step_unattributed(state, ctx, event),
        _ => reject_illegal(state, event),
    }
}

/// A rejected cancel gives the order back its live state, and that state agrees
/// with the context: `Accepted` only while nothing is attributed, otherwise
/// `Partial` with the attributed qty filled and the rest of the order remaining
/// (for a cancel-pending order whose recorded fills do not run ahead of
/// attribution and that is not fully attributed).
pub proof fn law_rejected_cancel_restores_live_state(
    state: OrderState,
    c0: OrderCtx,
    c1: OrderCtx,
    r: TransitionOutcome,
)
    requires
        state matches OrderState::CancelPending { filled_qty, .. } && filled_qty <= c0.attributed_fill_qty,
        c0.attributed_fill_qty < c0.qty,
        event_post(state, c0, OrderEvent::CancelOutcome(CancelOutcome::Rejected), c1, r),
        r is Accept,
    ensures
        r->Accept_new_state is Accepted || r->Accept_new_state is Partial,
        live_consistent(c1, r->Accept_new_state),
        c0.attributed_fill_qty > 0 ==> r->Accept_new_state == (OrderState::Partial {
            venue_order_id: state->CancelPending_venue_order_id,
            filled_qty: c0.attributed_fill_qty,
            remaining_qty: (c0.qty - c0.attributed_fill_qty) as u64,
        }),
        c0.attributed_fill_qty == 0 ==> r->Accept_new_state == (OrderState::Accepted {
            venue_order_id: state->CancelPending_venue_order_id,
        }),
{
}

/// A cancel the venue reports as already terminal, when the order does not close,
/// waits in `ReconcilePending` toward `Filled` once there is fill evidence (a
/// positive obligation) and toward `Canceled` only without any; a confirmed cancel
/// always waits toward `Canceled`. The target's filled qty is the larger of the
/// obligation and the attributed qty.
pub proof fn law_cancel_outcome_reconcile_target(
    state: OrderState,
    c0: OrderCtx,
    outcome: CancelOutcome,
    c1: OrderCtx,
    r: TransitionOutcome,
)
    requires
        state is CancelPending,
        outcome is AlreadyTerminal || outcome is Canceled,
        event_post(state, c0, OrderEvent::CancelOutcome(outcome), c1, r),
        r is Accept,
    ensures
        r->Accept_new_state matches OrderState::ReconcilePending { target, filled_qty, .. } && filled_qty
            == c1.attributed_fill_qty && target.venue_filled_qty == (if c1.fill_obligation >= c1.attributed_fill_qty {
            c1.fill_obligation
        } else {
            c1.attributed_fill_qty
        }) && (outcome is Canceled ==> target.terminal == ReconcileTerminal::Canceled) && (outcome is AlreadyTerminal
            ==> (c0.fill_obligation > 0 ==> target.terminal == ReconcileTerminal::Filled) && (c1.fill_obligation == 0
            ==> target.terminal == ReconcileTerminal::Canceled)),
{
}

/// A frozen order (true terminal or halted) does no new work on anything but a
/// fill: the event is refused as not applicable, with no effect and the context
/// untouched.
pub proof fn law_frozen_ignores_non_fill_events(
    state: OrderState,
    c0: OrderCtx,
    event: OrderEvent,
    c1: OrderCtx,
    r: TransitionOutcome,
)
    requires
        transition_laws(state, c0, event, c1, r),
        is_frozen(state),
        !(event is Fill),
    ensures
        c1 == c0,
        r matches TransitionOutcome::Reject { reason: RejectReason::NotApplicable { detail } } && detail@
            == frozen_ignore_text(state, event),
        outcome_effects(r).len() == 0,
{
}

/// Fill accounting is kept by every transition: the attributed qty stays the total
/// qty of the applied fills, attributed qty stays within the obligation and the
/// obligation within the order qty; both only grow, no applied fill is forgotten
/// and a bound venue never changes.
pub proof fn law_fill_accounting_kept(
    state: OrderState,
    c0: OrderCtx,
    event: OrderEvent,
    c1: OrderCtx,
    r: TransitionOutcome,
)
    requires
        transition_laws(state, c0, event, c1, r),
        fill_sum_holds(c0),
        c0.attributed_fill_qty <= c0.fill_obligation <= c0.qty,
    ensures
        fill_sum_holds(c1),
        c1.attributed_fill_qty <= c1.fill_obligation <= c1.qty,
        c1.fill_obligation >= c0.fill_obligation,
        c1.attributed_fill_qty >= c0.attributed_fill_qty,
        c0.applied_fills.keys_within(&c1.applied_fills),
        c0.venue_order_id is Some ==> c1.venue_order_id == c0.venue_order_id,
{
}

/// Re-delivering a fill event that an order accepted is a no-op, as long as the
/// order stays in a state that books fills in place: the context is unchanged and
/// the outcome is an effect-free accept in the same state.
pub proof fn law_fill_redelivery_idempotent(
    state: OrderState,
    ctx0: OrderCtx,
    event: OrderEvent,
    ctx1: OrderCtx,
    first: TransitionOutcome,
    ctx2: OrderCtx,
    second: TransitionOutcome,
)
    requires
        event is Fill,
        books_fills_in_place(state),
        transition_laws(state, ctx0, event, ctx1, first),
        first is Accept,
        books_fills_in_place(first->Accept_new_state),
        transition_laws(first->Accept_new_state, ctx1, event, ctx2, second),
    ensures
        ctx2 == ctx1,
        second matches TransitionOutcome::Accept { new_state, effects } && new_state == first->Accept_new_state
            && effects@.len() == 0,
{
}

} // verus!
