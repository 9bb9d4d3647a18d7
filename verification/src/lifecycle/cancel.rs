//! Fills while live / cancel-pending / reconcile-pending, and typed cancel outcomes.

use vstd::prelude::*;

use super::account::{
    authority_invalidate_effects, bound, foreign_fill_at, bind_venue_id, note_authority_complete, note_fill_evidence,
};
use super::backfill::live_state;
use super::ctx::{invalidated, OrderCtx};
use super::fills::{attempt_exact, fill_is_noop, try_account_fill, AccountAttempt};
use super::finalize::{
    closes_toward, fallback_state, finalize_pass, no_foreign_fill, finalize_reconcile_target, not_ready_for_terminal, target_proposal,
    terminal_record,
    try_finalize_terminal, ProposedTerminal,
};
use super::outcome::{
    accept, ctx_evolves, halt_with_reason, lemma_evolves_trans, outcome_effects, outcome_sound,
    push_effect, push_journal, TransitionOutcome,
};
use super::rebuild::{
    journaled, journaled_after, lemma_journaled_after, lemma_journaled_after_record,
    lemma_journaled_after_refl, lemma_journaled_after_trans, law_fill_booking_journaled,
    attempt_effects, after_obligation_raised, fold_step, lemma_journaled_after_free_ext,
    lemma_journaled_concat, lemma_journaled_refl, lemma_record_journaled, record_effects,
};
use super::submit::{filled_routed, latched, route_live_or_filled};
use super::types::{
    is_frozen, is_true_terminal, no_release, CancelOutcome, Effect, FillId, HaltReason,
    JournalRecord, OrderState, ReconcileTarget, ReconcileTerminal, VenueOrderId,
};
use crate::text::{owned, text2};

verus! {

/// Where a fill on a cancel- or reconcile-pending order lands when it does not
/// halt: without a reconcile target it stays `CancelPending` with the new counts
/// (or closes as `Filled` once the whole order is attributed); with a target it
/// waits in `ReconcilePending` or reaches the target's terminal once attribution
/// catches the venue's filled qty.
pub open spec fn pending_fill_routed(
    c: OrderCtx,
    v: VenueOrderId,
    reconcile_target: Option<ReconcileTarget>,
    s: OrderState,
) -> bool {
    match reconcile_target {
        None => (c.attributed_fill_qty <= c.qty && s == (OrderState::CancelPending {
            venue_order_id: v,
            filled_qty: c.attributed_fill_qty,
            remaining_qty: (c.qty - c.attributed_fill_qty) as u64,
            response_fill_count: c.response_fill_count,
            response_avg_price_cents: c.response_avg_price_cents,
            response_fee_cents: c.response_fee_cents,
            reconcile_target: None,
        })) || (c.attributed_fill_qty == c.qty && (s is Filled || s is ReconcilePending)),
        Some(t) => s is ReconcilePending || (c.attributed_fill_qty == t.venue_filled_qty && s == (
        match t.terminal {
            ReconcileTerminal::Canceled => OrderState::Canceled,
            ReconcileTerminal::Filled => OrderState::Filled,
        })),
    }
}

/// `CancelPending` on `v` (with no reconcile target) carrying the attributed and
/// remaining qty and the create-response snapshot of `c`.
pub open spec fn cancel_pending_with(c: OrderCtx, v: VenueOrderId) -> OrderState {
    OrderState::CancelPending {
        venue_order_id: v,
        filled_qty: c.attributed_fill_qty,
        remaining_qty: (c.qty - c.attributed_fill_qty) as u64,
        response_fill_count: c.response_fill_count,
        response_avg_price_cents: c.response_avg_price_cents,
        response_fee_cents: c.response_fee_cents,
        reconcile_target: None,
    }
}

/// The context after venue fill evidence `vf` is noted on `c`, and the record
/// that journals the raise when the obligation moved.
pub open spec fn evidence_noted(c: OrderCtx, vf: u64) -> (OrderCtx, Option<JournalRecord>) {
    if vf > c.fill_obligation {
        let raised = OrderCtx { fill_obligation: vf, ..c };
        let c1 = if c.attributed_fill_qty < vf {
            invalidated(raised)
        } else {
            raised
        };
        (c1, Some(JournalRecord::ObligationRaised { fill_obligation: vf, authority_epoch: c1.authority_epoch }))
    } else {
        (c, None)
    }
}

/// `ReconcilePending` on `v` toward `t`, carrying the attributed and remaining
/// qty and the create-response snapshot of `c`.
pub open spec fn reconcile_pending_with(c: OrderCtx, v: VenueOrderId, t: ReconcileTarget) -> OrderState {
    OrderState::ReconcilePending {
        venue_order_id: v,
        filled_qty: c.attributed_fill_qty,
        remaining_qty: (c.qty - c.attributed_fill_qty) as u64,
        target: t,
        response_fill_count: c.response_fill_count,
        response_avg_price_cents: c.response_avg_price_cents,
        response_fee_cents: c.response_fee_cents,
    }
}

/// With a reconcile target `t`, from `c` after booking effects `e`: while
/// attribution is still short of the venue's filled qty the evidence is noted and
/// the order waits in `ReconcilePending`; once it matches that qty (and the
/// obligation), authority is latched when the whole order is attributed and the
/// order closes toward the target as [`closes_toward`] says; evidence above the
/// order qty halts.
pub open spec fn toward_target(
    t: ReconcileTarget,
    v: VenueOrderId,
    c: OrderCtx,
    cf: OrderCtx,
    e: Seq<Effect>,
    r: TransitionOutcome,
) -> bool {
    &&& c.attributed_fill_qty < t.venue_filled_qty <= c.qty ==> {
        &&& cf == evidence_noted(c, t.venue_filled_qty).0
        &&& r == (TransitionOutcome::Accept {
            new_state: reconcile_pending_with(cf, v, t),
            effects: r->Accept_effects,
        })
        &&& r->Accept_effects@ == e + record_effects(evidence_noted(c, t.venue_filled_qty).1)
    }
    &&& (c.attributed_fill_qty == t.venue_filled_qty <= c.qty && c.fill_obligation <= t.venue_filled_qty) ==> {
        let ce = evidence_noted(c, t.venue_filled_qty);
        let full = c.attributed_fill_qty == c.qty;
        let cl = if full {
            latched(ce.0)
        } else {
            ce.0
        };
        let latch = if full {
            seq![Effect::AppendFsync(JournalRecord::AuthorityLatched { epoch: ce.0.authority_epoch })]
        } else {
            Seq::<Effect>::empty()
        };
        &&& cf == cl
        &&& closes_toward(cl, target_proposal(cl, t), e + record_effects(ce.1) + latch, r)
    }
    &&& (c.attributed_fill_qty <= c.qty && t.venue_filled_qty > c.qty) ==> {
        let reason = HaltReason::ObligationExceedsOrderQty { fill_obligation: t.venue_filled_qty, order_qty: c.qty };
        &&& cf == c
        &&& r == (TransitionOutcome::Halt {
            new_state: OrderState::Halted { reason },
            reason,
            effects: r->Halt_effects,
        })
        &&& r->Halt_effects@ == e + seq![
            Effect::AppendFsync(JournalRecord::Halted { reason }),
            Effect::HaltNewExposure,
        ]
    }
}

/// After a fill while cancel/reconcile-pending: never release with lag; finalize
/// through the choke point once attribution catches the target.
pub(crate) fn after_fill_cancel_or_reconcile(
    ctx: &mut OrderCtx,
    venue_order_id: VenueOrderId,
    reconcile_target: Option<ReconcileTarget>,
    effects: Vec<Effect>,
    last_fill_qty: u64,
    is_enrichment: bool,
) -> (r: TransitionOutcome)
    requires
        no_release(effects@),
    ensures
        ctx_evolves(*old(ctx), *final(ctx)),
        outcome_sound(r, *final(ctx)),
        !(r is Reject),
        final(ctx).applied_fills == old(ctx).applied_fills,
        r is Accept ==> pending_fill_routed(*final(ctx), venue_order_id, reconcile_target, r->Accept_new_state),
        old(ctx).fill_obligation <= old(ctx).qty ==> journaled_after(*old(ctx), effects@, outcome_effects(r), *final(ctx)),
        reconcile_target matches Some(t) ==> toward_target(t, venue_order_id, *old(ctx), *final(ctx), effects@, r),
        (reconcile_target is None && old(ctx).attributed_fill_qty == old(ctx).qty && !is_enrichment)
            ==> filled_routed(*old(ctx), *final(ctx), effects@, r),
        (reconcile_target is None && old(ctx).attributed_fill_qty <= old(ctx).qty && (old(ctx).attributed_fill_qty
            < old(ctx).qty || is_enrichment)) ==> *final(ctx) == *old(ctx)
            && r == (TransitionOutcome::Accept {
            new_state: cancel_pending_with(*old(ctx), venue_order_id),
            effects: r->Accept_effects,
        }) && r->Accept_effects@ == effects@,
{
    let ghost c0 = *ctx;
    let ghost e0 = effects@;
    let mut effects = effects;
    let remaining = match ctx.remaining_qty_checked() {
        Some(r) => r,
        None => {
            return halt_with_reason(
                HaltReason::OverFill {
                    attributed_fill_qty: ctx.attributed_fill_qty,
                    fill_qty: last_fill_qty,
                    order_qty: ctx.qty,
                },
                effects,
            );
        },
    };
    if let Some(target) = &reconcile_target {
        match note_fill_evidence(ctx, target.venue_filled_qty) {
            Ok(jr) => {
                push_journal(&mut effects, jr);
                proof {
                    lemma_journaled_after_record(c0, e0, jr, *ctx);
                }
            },
            Err(reason) => return halt_with_reason(reason, effects),
        }
        let ghost c_ev = *ctx;
        let ghost e_ev = effects@;
        if ctx.attributed_fill_qty > target.venue_filled_qty {
            if ctx.attributed_fill_qty <= ctx.qty {
                let fallback = target.terminal;
                let vr = target.venue_remaining_qty;
                let r = not_ready_for_terminal(ctx, venue_order_id, effects, fallback, true, vr);
                proof {
                    if c0.fill_obligation <= c0.qty {
                        lemma_journaled_after_trans(c0, e0, e_ev, c_ev, outcome_effects(r), *ctx);
                    }
                }
                return r;
            }
            let r = halt_with_reason(
                HaltReason::CrossCheckMismatch {
                    detail: text2(
                        "attributed_fill_qty=",
                        ctx.attributed_fill_qty as u128,
                        " > target.venue_filled_qty=",
                        target.venue_filled_qty as u128,
                    ),
                },
                effects,
            );
            proof {
                if c0.fill_obligation <= c0.qty {
                    lemma_journaled_after_trans(c0, e0, e_ev, c_ev, outcome_effects(r), *ctx);
                }
            }
            return r;
        }
        if ctx.attributed_fill_qty == target.venue_filled_qty && ctx.attributed_fill_qty
            == ctx.fill_obligation {
            let ghost c1 = *ctx;
            if ctx.attributed_fill_qty == ctx.qty {
                let jr = note_authority_complete(ctx, true);
                push_journal(&mut effects, jr);
                proof {
                    lemma_journaled_after_record(c1, e_ev, jr, *ctx);
                }
            } else {
                proof {
                    lemma_journaled_after_refl(c1, e_ev);
                }
            }
            proof {
                lemma_evolves_trans(c0, c1, *ctx);
            }
            let ghost c2 = *ctx;
            let ghost e2 = effects@;
            let r = finalize_reconcile_target(ctx, target, effects, venue_order_id);
            proof {
                if c0.fill_obligation <= c0.qty {
                    lemma_journaled_after_trans(c0, e0, e_ev, c_ev, e2, c2);
                    lemma_journaled_after_trans(c0, e0, e2, c2, outcome_effects(r), *ctx);
                }
            }
            return r;
        }
        proof {
            if c0.fill_obligation <= c0.qty {
                lemma_journaled_after_refl(c_ev, e_ev);
                lemma_journaled_after_trans(c0, e0, e_ev, c_ev, e_ev, c_ev);
            }
        }
        return accept(
            OrderState::ReconcilePending {
                venue_order_id,
                filled_qty: ctx.attributed_fill_qty,
                remaining_qty: remaining,
                target: target.clone(),
                response_fill_count: ctx.response_fill_count,
                response_avg_price_cents: ctx.response_avg_price_cents,
                response_fee_cents: ctx.response_fee_cents,
            },
            effects,
        );
    }
    if remaining == 0 && !is_enrichment {
        let jr = note_authority_complete(ctx, true);
        push_journal(&mut effects, jr);
        let filled = ctx.attributed_fill_qty;
        let r = try_finalize_terminal(
            ctx,
            ProposedTerminal::Filled { venue_authoritative_filled: filled, venue_remaining_qty: 0 },
            venue_order_id,
            effects,
            ReconcileTerminal::Filled,
        );
        proof {
            if c0.fill_obligation <= c0.qty {
                lemma_journaled_after_record(c0, e0, jr, *ctx);
                lemma_journaled_after_trans(c0, e0, effects@, *ctx, outcome_effects(r), *ctx);
            }
            let p = ProposedTerminal::Filled { venue_authoritative_filled: filled, venue_remaining_qty: 0 };
            if finalize_pass(*ctx, p) {
                assert(r->Accept_effects@ =~= e0 + seq![
                    Effect::AppendFsync(JournalRecord::AuthorityLatched { epoch: c0.authority_epoch }),
                    Effect::AppendFsync(terminal_record(*ctx, p)),
                    Effect::ReleaseReservation,
                ]);
            }
        }
        return r;
    }
    proof {
        lemma_journaled_after_refl(c0, e0);
    }
    accept(
        OrderState::CancelPending {
            venue_order_id,
            filled_qty: ctx.attributed_fill_qty,
            remaining_qty: remaining,
            response_fill_count: ctx.response_fill_count,
            response_avg_price_cents: ctx.response_avg_price_cents,
            response_fee_cents: ctx.response_fee_cents,
            reconcile_target: None,
        },
        effects,
    )
}

/// A live or closing state that agrees with the context: `Accepted` before any
/// fill, `Partial` with the attributed and remaining qty, `Filled` once the whole
/// order is attributed, or waiting in `ReconcilePending`.
pub open spec fn live_consistent(c: OrderCtx, s: OrderState) -> bool {
    match s {
        OrderState::Accepted { .. } => c.attributed_fill_qty == 0,
        OrderState::Partial { filled_qty, remaining_qty, .. } => filled_qty == c.attributed_fill_qty
            && c.attributed_fill_qty < c.qty && remaining_qty == c.qty - c.attributed_fill_qty,
        OrderState::Filled => c.attributed_fill_qty == c.qty,
        OrderState::ReconcilePending { .. } => true,
        _ => false,
    }
}

/// A fill accepted by a cancel- or reconcile-pending order keeps the state (a
/// re-delivery or enrichment) or follows [`pending_fill_routed`].
pub open spec fn pending_fill_post(state: OrderState, c: OrderCtx, s: OrderState) -> bool {
    &&& state matches OrderState::CancelPending { venue_order_id: v, reconcile_target: t, .. } ==> (s == state
        || pending_fill_routed(c, v, t, s))
    &&& state matches OrderState::ReconcilePending { venue_order_id: v, target: t, .. } ==> (s == state
        || pending_fill_routed(c, v, Some(t), s))
}

/// The outcome of a fill booked in place in state `s` by the booking attempt `a`:
/// an accept in `s` with the booking's effects, or the booking's halt.
pub open spec fn booked_in_place(s: OrderState, a: AccountAttempt, r: TransitionOutcome) -> bool {
    match a {
        AccountAttempt::Halt { reason, effects } => r == (TransitionOutcome::Halt {
            new_state: OrderState::Halted { reason },
            reason,
            effects: r->Halt_effects,
        }) && r->Halt_effects@ == effects@ + seq![
            Effect::AppendFsync(JournalRecord::Halted { reason }),
            Effect::HaltNewExposure,
        ],
        _ => r == (TransitionOutcome::Accept { new_state: s, effects: r->Accept_effects }) && r->Accept_effects@
            == attempt_effects(a),
    }
}

/// The outcome of a fill on a live order, booked by the attempt `a` into `c1`:
/// a new fill that leaves part of the order open keeps `c1` and answers the
/// matching `Accepted` / `Partial` state with the booking's effects; one that
/// completes the order closes it as [`filled_routed`] says; anything else is
/// booked in place.
pub open spec fn booked_live(
    s: OrderState,
    c1: OrderCtx,
    cf: OrderCtx,
    a: AccountAttempt,
    r: TransitionOutcome,
) -> bool {
    match a {
        AccountAttempt::Applied { effects } => {
            &&& c1.attributed_fill_qty < c1.qty ==> {
                &&& cf == c1
                &&& r is Accept
                &&& r->Accept_effects@ == effects@
                &&& exists|v: VenueOrderId| r->Accept_new_state == #[trigger] live_state(c1, v)
                &&& (c1.venue_order_id matches Some(v) ==> r->Accept_new_state == live_state(c1, v))
            }
            &&& c1.attributed_fill_qty == c1.qty ==> filled_routed(c1, cf, effects@, r)
        },
        _ => cf == c1 && booked_in_place(s, a, r),
    }
}

/// The outcome of a fill on a cancel-pending order without a reconcile target,
/// booked by the attempt `a` into `c1`: a new fill that leaves part of the order
/// open, or an enrichment, keeps `c1` and answers `CancelPending` with the new
/// counts and the booking's effects; a new fill that completes the order closes
/// it as [`filled_routed`] says; a no-op or a refusal is booked in place.
pub open spec fn booked_cancel_pending(
    s: OrderState,
    c1: OrderCtx,
    cf: OrderCtx,
    a: AccountAttempt,
    r: TransitionOutcome,
) -> bool {
    match a {
        AccountAttempt::Applied { effects } => {
            &&& c1.attributed_fill_qty < c1.qty ==> pending_kept(s, c1, cf, effects@, r)
            &&& c1.attributed_fill_qty == c1.qty ==> filled_routed(c1, cf, effects@, r)
        },
        AccountAttempt::Enriched { effects } => c1.attributed_fill_qty <= c1.qty ==> pending_kept(s, c1, cf, effects@, r),
        _ => cf == c1 && booked_in_place(s, a, r),
    }
}

/// `c1` stays as it is and answers `CancelPending` on the venue id of `s` with
/// the effects `e`.
pub open spec fn pending_kept(
    s: OrderState,
    c1: OrderCtx,
    cf: OrderCtx,
    e: Seq<Effect>,
    r: TransitionOutcome,
) -> bool {
    cf == c1 && r == (TransitionOutcome::Accept {
        new_state: cancel_pending_with(c1, s->CancelPending_venue_order_id),
        effects: r->Accept_effects,
    }) && r->Accept_effects@ == e
}

/// The outcome of a fill on an order pending toward the reconcile target `t` on
/// venue `v`, booked by the attempt `a` into `c1`: a new or enriched fill goes on
/// [`toward_target`]; a no-op or a refusal is booked in place.
pub open spec fn booked_toward_target(
    s: OrderState,
    v: VenueOrderId,
    t: ReconcileTarget,
    c1: OrderCtx,
    cf: OrderCtx,
    a: AccountAttempt,
    r: TransitionOutcome,
) -> bool {
    match a {
        AccountAttempt::Applied { effects } => toward_target(t, v, c1, cf, effects@, r),
        AccountAttempt::Enriched { effects } => toward_target(t, v, c1, cf, effects@, r),
        _ => cf == c1 && booked_in_place(s, a, r),
    }
}

/// A fill while `SubmitStarted`, live, cancel-pending or reconcile-pending.
pub(crate) fn apply_fill_while_open(
    state: &OrderState,
    ctx: &mut OrderCtx,
    fill_id: &FillId,
    qty: u64,
    price_cents: u64,
    ts_ns: i64,
    fill_venue: &Option<VenueOrderId>,
    fee_cents: Option<u64>,
) -> (r: TransitionOutcome)
    requires
        !is_frozen(*state),
    ensures
        ctx_evolves(*old(ctx), *final(ctx)),
        outcome_sound(r, *final(ctx)),
        !(r is Reject),
        fill_is_noop(*old(ctx), fill_id.0@, qty, price_cents, *fill_venue, fee_cents) ==> *final(ctx)
            == *old(ctx) && r == (TransitionOutcome::Accept { new_state: *state, effects: r->Accept_effects })
            && r->Accept_effects@.len() == 0,
        r is Accept ==> fill_is_noop(*final(ctx), fill_id.0@, qty, price_cents, *fill_venue, fee_cents),
        (*state is SubmitStarted && r is Accept) ==> r->Accept_new_state == *state,
        ((*state is Accepted || *state is Partial) && r is Accept) ==> (r->Accept_new_state == *state
            || live_consistent(*final(ctx), r->Accept_new_state)),
        r is Accept ==> pending_fill_post(*state, *final(ctx), r->Accept_new_state),
        old(ctx).fill_obligation <= old(ctx).qty ==> journaled(*old(ctx), outcome_effects(r), *final(ctx)),
        *state is SubmitStarted ==> exists|a: AccountAttempt|
            attempt_exact(*old(ctx), *final(ctx), *fill_id, qty, price_cents, ts_ns, *fill_venue, fee_cents, false, a)
                && #[trigger] booked_in_place(*state, a, r),
        (*state is Accepted || *state is Partial) ==> exists|a: AccountAttempt, c1: OrderCtx|
            attempt_exact(*old(ctx), c1, *fill_id, qty, price_cents, ts_ns, *fill_venue, fee_cents, false, a)
                && #[trigger] booked_live(*state, c1, *final(ctx), a, r),
        (*state matches OrderState::CancelPending { reconcile_target: None, .. }) ==> exists|a: AccountAttempt, c1: OrderCtx|
            attempt_exact(*old(ctx), c1, *fill_id, qty, price_cents, ts_ns, *fill_venue, fee_cents, false, a)
                && #[trigger] booked_cancel_pending(*state, c1, *final(ctx), a, r),
        *state matches OrderState::CancelPending { venue_order_id: v, reconcile_target: Some(t), .. } ==> exists|a: AccountAttempt, c1: OrderCtx|
            attempt_exact(*old(ctx), c1, *fill_id, qty, price_cents, ts_ns, *fill_venue, fee_cents, false, a)
                && #[trigger] booked_toward_target(*state, v, t, c1, *final(ctx), a, r),
        *state matches OrderState::ReconcilePending { venue_order_id: v, target: t, .. } ==> exists|a: AccountAttempt, c1: OrderCtx|
            attempt_exact(*old(ctx), c1, *fill_id, qty, price_cents, ts_ns, *fill_venue, fee_cents, false, a)
                && #[trigger] booked_toward_target(*state, v, t, c1, *final(ctx), a, r),
{
    let ghost c0 = *ctx;
    let attempt = try_account_fill(ctx, fill_id, qty, price_cents, ts_ns, fill_venue, fee_cents);
    let ghost c1 = *ctx;
    let ghost ga = attempt;
    proof {
        law_fill_booking_journaled(c0, c1, *fill_id, qty, price_cents, ts_ns, *fill_venue, fee_cents, ga);
    }
    match attempt {
        AccountAttempt::NoOp => {
            let r = accept(state.clone(), Vec::new());
            proof {
                assert(r->Accept_effects@.len() == 0);
                assert(outcome_effects(r) =~= attempt_effects(ga));
                assert(booked_in_place(*state, ga, r));
                assert(booked_live(*state, c1, *ctx, ga, r));
                assert(booked_cancel_pending(*state, c1, *ctx, ga, r));
                match state {
                    OrderState::CancelPending { venue_order_id: v, reconcile_target: Some(t), .. } => {
                        assert(booked_toward_target(*state, *v, *t, c1, *ctx, ga, r));
                    },
                    OrderState::ReconcilePending { venue_order_id: v, target: t, .. } => {
                        assert(booked_toward_target(*state, *v, *t, c1, *ctx, ga, r));
                    },
                    _ => {},
                }
            }
            r
        },
        AccountAttempt::Halt { reason, effects } => {
            let ghost e = effects@;
            let r = halt_with_reason(reason, effects);
            proof {
                lemma_journaled_after(c0, e, c1, outcome_effects(r), c1);
                assert(booked_in_place(*state, ga, r));
                assert(booked_live(*state, c1, *ctx, ga, r));
                assert(booked_cancel_pending(*state, c1, *ctx, ga, r));
                match state {
                    OrderState::CancelPending { venue_order_id: v, reconcile_target: Some(t), .. } => {
                        assert(booked_toward_target(*state, *v, *t, c1, *ctx, ga, r));
                    },
                    OrderState::ReconcilePending { venue_order_id: v, target: t, .. } => {
                        assert(booked_toward_target(*state, *v, *t, c1, *ctx, ga, r));
                    },
                    _ => {},
                }
            }
            r
        },
        AccountAttempt::Enriched { effects } => {
            let ghost e = effects@;
            match state {
                OrderState::CancelPending { venue_order_id: v, reconcile_target, .. } => {
                    let r = after_fill_cancel_or_reconcile(ctx, v.clone(), reconcile_target.clone(), effects, 0, true);
                    proof {
                        if reconcile_target is None {
                            assert(booked_cancel_pending(*state, c1, *ctx, ga, r));
                        }
                        match reconcile_target {
                            Some(t) => {
                                assert(booked_toward_target(*state, *v, *t, c1, *ctx, ga, r));
                            },
                            None => {},
                        }
                        lemma_evolves_trans(c0, c1, *ctx);
                        if c0.fill_obligation <= c0.qty {
                            lemma_journaled_after(c0, e, c1, outcome_effects(r), *ctx);
                        }
                    }
                    r
                },
                OrderState::ReconcilePending { venue_order_id: v, target, .. } => {
                    let r = after_fill_cancel_or_reconcile(ctx, v.clone(), Some(target.clone()), effects, 0, true);
                    proof {
                        assert(booked_toward_target(*state, *v, *target, c1, *ctx, ga, r));
                        lemma_evolves_trans(c0, c1, *ctx);
                        if c0.fill_obligation <= c0.qty {
                            lemma_journaled_after(c0, e, c1, outcome_effects(r), *ctx);
                        }
                    }
                    r
                },
                _ => {
                    let r = accept(state.clone(), effects);
                    proof {
                        assert(booked_in_place(*state, ga, r));
                        assert(booked_live(*state, c1, *ctx, ga, r));
                    }
                    r
                },
            }
        },
        AccountAttempt::Applied { effects } => {
            let ghost e = effects@;
            match state {
                OrderState::SubmitStarted { .. } => {
                    let r = accept(state.clone(), effects);
                    proof {
                        assert(booked_in_place(*state, ga, r));
                    }
                    r
                },
                OrderState::CancelPending { venue_order_id: v, reconcile_target, .. } => {
                    let r = after_fill_cancel_or_reconcile(ctx, v.clone(), reconcile_target.clone(), effects, qty, false);
                    proof {
                        if reconcile_target is None {
                            assert(booked_cancel_pending(*state, c1, *ctx, ga, r));
                        }
                        match reconcile_target {
                            Some(t) => {
                                assert(booked_toward_target(*state, *v, *t, c1, *ctx, ga, r));
                            },
                            None => {},
                        }
                        lemma_evolves_trans(c0, c1, *ctx);
                        if c0.fill_obligation <= c0.qty {
                            lemma_journaled_after(c0, e, c1, outcome_effects(r), *ctx);
                        }
                    }
                    r
                },
                OrderState::ReconcilePending { venue_order_id: v, target, .. } => {
                    let r = after_fill_cancel_or_reconcile(ctx, v.clone(), Some(target.clone()), effects, qty, false);
                    proof {
                        assert(booked_toward_target(*state, *v, *target, c1, *ctx, ga, r));
                        lemma_evolves_trans(c0, c1, *ctx);
                        if c0.fill_obligation <= c0.qty {
                            lemma_journaled_after(c0, e, c1, outcome_effects(r), *ctx);
                        }
                    }
                    r
                },
                _ => {
                    let vid = match &ctx.venue_order_id {
                        Some(v) => v.clone(),
                        None => VenueOrderId(owned("unknown")),
                    };
                    let ghost gvid = vid;
                    let r = route_live_or_filled(ctx, vid, effects);
                    proof {
                        if c1.attributed_fill_qty < c1.qty {
                            assert(r->Accept_new_state == live_state(c1, gvid));
                        }
                        assert(booked_live(*state, c1, *ctx, ga, r));
                        lemma_evolves_trans(c0, c1, *ctx);
                        if c0.fill_obligation <= c0.qty {
                            lemma_journaled_after(c0, e, c1, outcome_effects(r), *ctx);
                        }
                    }
                    r
                },
            }
        },
    }
}

/// Fills while `SubmitUnknown`: attribute by fill_id, stay in the given state.
pub(crate) fn apply_fill_dedup_only(
    ctx: &mut OrderCtx,
    fill_id: &FillId,
    qty: u64,
    price_cents: u64,
    ts_ns: i64,
    fill_venue: &Option<VenueOrderId>,
    fee_cents: Option<u64>,
    stay: OrderState,
) -> (r: TransitionOutcome)
    requires
        !is_frozen(stay),
    ensures
        ctx_evolves(*old(ctx), *final(ctx)),
        outcome_sound(r, *final(ctx)),
        !(r is Reject),
        r is Accept ==> r->Accept_new_state == stay,
        fill_is_noop(*old(ctx), fill_id.0@, qty, price_cents, *fill_venue, fee_cents) ==> *final(ctx)
            == *old(ctx) && r == (TransitionOutcome::Accept { new_state: stay, effects: r->Accept_effects })
            && r->Accept_effects@.len() == 0,
        r is Accept ==> fill_is_noop(*final(ctx), fill_id.0@, qty, price_cents, *fill_venue, fee_cents),
        journaled(*old(ctx), outcome_effects(r), *final(ctx)),
        exists|a: AccountAttempt|
            attempt_exact(*old(ctx), *final(ctx), *fill_id, qty, price_cents, ts_ns, *fill_venue, fee_cents, false, a)
                && #[trigger] booked_in_place(stay, a, r),
{
    let ghost c0 = *ctx;
    let attempt = try_account_fill(ctx, fill_id, qty, price_cents, ts_ns, fill_venue, fee_cents);
    let ghost c1 = *ctx;
    let ghost ga = attempt;
    proof {
        law_fill_booking_journaled(c0, c1, *fill_id, qty, price_cents, ts_ns, *fill_venue, fee_cents, ga);
    }
    match attempt {
        AccountAttempt::NoOp => {
            let r = accept(stay, Vec::new());
            proof {
                assert(r->Accept_effects@.len() == 0);
                assert(outcome_effects(r) =~= attempt_effects(ga));
                assert(booked_in_place(stay, ga, r));
            }
            r
        },
        AccountAttempt::Halt { reason, effects } => {
            let ghost e = effects@;
            let r = halt_with_reason(reason, effects);
            proof {
                lemma_journaled_after(c0, e, c1, outcome_effects(r), c1);
                assert(booked_in_place(stay, ga, r));
            }
            r
        },
        AccountAttempt::Applied { effects } | AccountAttempt::Enriched { effects } => {
            let r = accept(stay, effects);
            proof {
                assert(booked_in_place(stay, ga, r));
            }
            r
        },
    }
}

/// The state a cancel outcome lands in when it does not halt: a confirmed or
/// already-terminal cancel waits in `ReconcilePending` (authority was just
/// invalidated); an accepted or unknown cancel stays `CancelPending`; a rejected
/// cancel restores the live state.
pub open spec fn cancel_outcome_routed(
    c: OrderCtx,
    v: VenueOrderId,
    filled_qty: u64,
    remaining_qty: u64,
    reconcile_target: Option<ReconcileTarget>,
    outcome: CancelOutcome,
    s: OrderState,
) -> bool {
    let pending = OrderState::CancelPending {
        venue_order_id: v,
        filled_qty,
        remaining_qty,
        response_fill_count: c.response_fill_count,
        response_avg_price_cents: c.response_avg_price_cents,
        response_fee_cents: c.response_fee_cents,
        reconcile_target,
    };
    match outcome {
        CancelOutcome::Canceled => s == fallback_state(c, v, ReconcileTerminal::Canceled, c.last_venue_remaining_qty),
        CancelOutcome::AlreadyTerminal => s == fallback_state(
            c,
            v,
            if c.fill_obligation > 0 {
                ReconcileTerminal::Filled
            } else {
                ReconcileTerminal::Canceled
            },
            c.last_venue_remaining_qty,
        ),
        CancelOutcome::Accepted | CancelOutcome::NotFound | CancelOutcome::TransportUnknown
        | CancelOutcome::Unknown => s == pending,
        CancelOutcome::Rejected => s == (if filled_qty == 0 && c.attributed_fill_qty == 0 {
            OrderState::Accepted { venue_order_id: v }
        } else {
            OrderState::Partial {
                venue_order_id: v,
                filled_qty: if c.attributed_fill_qty >= filled_qty {
                    c.attributed_fill_qty
                } else {
                    filled_qty
                },
                remaining_qty: if c.attributed_fill_qty <= c.qty {
                    (c.qty - c.attributed_fill_qty) as u64
                } else {
                    0
                },
            }
        }),
    }
}

/// A cancel outcome that the order can take without halting: the counts it
/// carries stay within the order qty and the venue it names owns the order and
/// every fill that names a venue.
pub open spec fn cancel_outcome_admitted(
    c: OrderCtx,
    v: VenueOrderId,
    response_fill_count: Option<u64>,
    reconcile_target: Option<ReconcileTarget>,
) -> bool {
    &&& (response_fill_count matches Some(n) ==> n <= c.qty)
    &&& (reconcile_target matches Some(t) ==> t.venue_filled_qty <= c.qty)
    &&& (c.venue_order_id matches Some(e) ==> e.0@ == v.0@)
    &&& forall|i: int|
        0 <= i < c.applied_fills.entries_view().len() ==> ((#[trigger] c.applied_fills.entries_view()[i]).1.venue_order_id
            matches Some(w) ==> w.0@ == v.0@)
}

/// The cancel outcome's snapshot adds nothing to the context (whose obligation is
/// within the order qty): a response count, avg or fee it carries is already
/// known, and a reconcile target's venue remaining is the one last observed.
pub open spec fn cancel_snapshot_known(
    c: OrderCtx,
    response_fill_count: Option<u64>,
    response_avg: Option<u64>,
    response_fee: Option<u64>,
    reconcile_target: Option<ReconcileTarget>,
) -> bool {
    &&& c.fill_obligation <= c.qty
    &&& (response_fill_count is Some ==> c.response_fill_count is Some)
    &&& (response_avg is Some ==> c.response_avg_price_cents is Some)
    &&& (response_fee is Some ==> c.response_fee_cents is Some)
    &&& (reconcile_target matches Some(t) && t.venue_remaining_qty matches Some(rv)
        ==> c.last_venue_remaining_qty == Some(rv))
}

/// Replaying an obligation raise (and the invalidation it caused) reaches the
/// raised context.
proof fn lemma_raise_replay(
    cs: OrderCtx,
    cr: OrderCtx,
    rc: u64,
    raised_jr: Option<JournalRecord>,
    inv_jr: Option<JournalRecord>,
)
    requires
        rc <= cs.qty,
        rc <= cs.fill_obligation ==> cr == cs,
        rc > cs.fill_obligation ==> cr == (if cs.attributed_fill_qty < rc {
            invalidated(OrderCtx { fill_obligation: rc, ..cs })
        } else {
            OrderCtx { fill_obligation: rc, ..cs }
        }),
        raised_jr == (if cr.fill_obligation > cs.fill_obligation {
            Some(JournalRecord::ObligationRaised { fill_obligation: cr.fill_obligation, authority_epoch: cr.authority_epoch })
        } else {
            None
        }),
        inv_jr == (if cr.authority_epoch != cs.authority_epoch {
            Some(JournalRecord::AuthorityInvalidated { epoch: cr.authority_epoch })
        } else {
            None
        }),
    ensures
        journaled(cs, record_effects(raised_jr) + record_effects(inv_jr), cr),
{
    let y = match raised_jr {
        Some(j) => after_obligation_raised(cs, cr.fill_obligation, cr.authority_epoch)->Ok_0,
        None => cs,
    };
    if raised_jr is Some {
        assert(fold_step(cs, raised_jr->0, Ok::<OrderCtx, HaltReason>(y)));
        lemma_record_journaled(cs, raised_jr->0, y);
    } else {
        lemma_journaled_refl(cs, record_effects(raised_jr));
    }
    assert(y == cr);
    if inv_jr is Some {
        assert(fold_step(y, inv_jr->0, Ok::<OrderCtx, HaltReason>(cr)));
        lemma_record_journaled(y, inv_jr->0, cr);
    } else {
        lemma_journaled_refl(y, record_effects(inv_jr));
    }
    lemma_journaled_concat(cs, record_effects(raised_jr), y, record_effects(inv_jr), cr);
}

/// An admitted cancel outcome binds on a context with the same fills and venue.
proof fn lemma_admitted_binds(
    c0: OrderCtx,
    c2: OrderCtx,
    v: VenueOrderId,
    rc: Option<u64>,
    t: Option<ReconcileTarget>,
)
    requires
        cancel_outcome_admitted(c0, v, rc, t),
        c2.applied_fills == c0.applied_fills,
        c2.venue_order_id == c0.venue_order_id,
    ensures
        bound(c2, v) is Ok,
{
    if c2.venue_order_id is None {
        assert forall|i: int| 0 <= i < c2.applied_fills.entries_view().len() implies !foreign_fill_at(c2, i, v.0@) by {
            assert(c0.applied_fills.entries_view()[i] == c2.applied_fills.entries_view()[i]);
        }
    }
}

/// Once bound to the admitted venue, no fill names another venue.
proof fn lemma_admitted_no_foreign(
    c0: OrderCtx,
    c3: OrderCtx,
    v: VenueOrderId,
    rc: Option<u64>,
    t: Option<ReconcileTarget>,
)
    requires
        cancel_outcome_admitted(c0, v, rc, t),
        c3.applied_fills == c0.applied_fills,
        c3.venue_order_id matches Some(b) && b.0@ == v.0@,
    ensures
        no_foreign_fill(c3),
{
    let b = c3.venue_order_id->0;
    assert forall|i: int| 0 <= i < c3.applied_fills.entries_view().len() implies ((#[trigger] c3.applied_fills.entries_view()[i]).1.venue_order_id
        matches Some(w) ==> w.0@ == b.0@) by {
        assert(c0.applied_fills.entries_view()[i] == c3.applied_fills.entries_view()[i]);
    }
}

/// Seven-way cancel outcome routing; terminals only through the choke point.
#[verifier::rlimit(60)]
pub(crate) fn apply_cancel_outcome(
    ctx: &mut OrderCtx,
    venue_order_id: &VenueOrderId,
    filled_qty: u64,
    remaining_qty: u64,
    response_fill_count: Option<u64>,
    response_avg: Option<u64>,
    response_fee: Option<u64>,
    reconcile_target: Option<ReconcileTarget>,
    outcome: CancelOutcome,
) -> (r: TransitionOutcome)
    ensures
        ctx_evolves(*old(ctx), *final(ctx)),
        outcome_sound(r, *final(ctx)),
        !(r is Reject),
        !final(ctx).authority_complete,
        cancel_outcome_admitted(*old(ctx), *venue_order_id, response_fill_count, reconcile_target) ==> r is Accept,
        final(ctx).attributed_fill_qty == old(ctx).attributed_fill_qty,
        r is Accept ==> !is_true_terminal(r->Accept_new_state),
        r is Accept ==> cancel_outcome_routed(
            *final(ctx),
            *venue_order_id,
            filled_qty,
            remaining_qty,
            reconcile_target,
            outcome,
            r->Accept_new_state,
        ),
        (r is Accept && (outcome is NotFound || outcome is TransportUnknown || outcome is Unknown)) ==> r->Accept_effects@.len() > 0
            && r->Accept_effects@.last() == (Effect::ReconcileCancel { venue_order_id: Some(*venue_order_id) }),
        cancel_snapshot_known(*old(ctx), response_fill_count, response_avg, response_fee, reconcile_target)
            ==> journaled(*old(ctx), outcome_effects(r), *final(ctx)),
{
    let ghost c0 = *ctx;
    let ghost pre_ok = cancel_snapshot_known(c0, response_fill_count, response_avg, response_fee, reconcile_target);
    let ghost adm = cancel_outcome_admitted(c0, *venue_order_id, response_fill_count, reconcile_target);
    let mut effects = authority_invalidate_effects(ctx);
    let ghost ci = *ctx;
    let ghost e_i = effects@;
    let coc = JournalRecord::CancelOutcomeCid { client_order_id: ctx.client_order_id.clone(), outcome };
    push_effect(&mut effects, Effect::AppendFsync(coc));
    proof {
        assert(fold_step(ci, coc, Ok::<OrderCtx, HaltReason>(ci)));
        lemma_record_journaled(ci, coc, ci);
        lemma_journaled_concat(c0, e_i, ci, record_effects(Some(coc)), ci);
        assert(effects@ =~= e_i + record_effects(Some(coc)));
    }
    if let Some(rc) = response_fill_count {
        ctx.response_fill_count = match ctx.response_fill_count {
            Some(x) => Some(x),
            None => Some(rc),
        };
        let ghost cs = *ctx;
        let ghost e_s = effects@;
        proof {
            if pre_ok {
                assert(cs == ci);
            }
        }
        let obl_before = ctx.fill_obligation;
        let epoch_before = ctx.authority_epoch;
        if let Err(reason) = ctx.raise_fill_obligation(rc) {
            assert(!adm);
            let r = halt_with_reason(reason, effects);
            proof {
                if pre_ok {
                    lemma_journaled_after(c0, e_s, cs, outcome_effects(r), cs);
                }
            }
            return r;
        }
        let ghost cr = *ctx;
        let mut raised_jr: Option<JournalRecord> = None;
        if ctx.fill_obligation > obl_before {
            raised_jr = Some(
                JournalRecord::ObligationRaised {
                    fill_obligation: ctx.fill_obligation,
                    authority_epoch: ctx.authority_epoch,
                },
            );
        }
        let ghost g_raised = raised_jr;
        push_journal(&mut effects, raised_jr);
        let mut inv_jr: Option<JournalRecord> = None;
        if ctx.authority_epoch != epoch_before {
            inv_jr = Some(JournalRecord::AuthorityInvalidated { epoch: ctx.authority_epoch });
        }
        let ghost g_inv = inv_jr;
        push_journal(&mut effects, inv_jr);
        proof {
            if pre_ok {
                lemma_raise_replay(cs, cr, rc, g_raised, g_inv);
                lemma_journaled_concat(c0, e_s, cs, record_effects(g_raised) + record_effects(g_inv), cr);
                assert(effects@ =~= e_s + (record_effects(g_raised) + record_effects(g_inv)));
            }
        }
    }
    if response_avg.is_some() {
        ctx.response_avg_price_cents = match ctx.response_avg_price_cents {
            Some(x) => Some(x),
            None => response_avg,
        };
    }
    if response_fee.is_some() {
        ctx.response_fee_cents = match ctx.response_fee_cents {
            Some(x) => Some(x),
            None => response_fee,
        };
    }
    let ghost c1 = *ctx;
    assert(ctx_evolves(c0, c1));
    assert(c1.applied_fills == c0.applied_fills && c1.venue_order_id == c0.venue_order_id && c1.qty == c0.qty);
    proof {
        if pre_ok {
            assert(journaled(c0, effects@, c1));
        }
    }
    if let Some(t) = &reconcile_target {
        let ghost e_t = effects@;
        let ghost ct = *ctx;
        match note_fill_evidence(ctx, t.venue_filled_qty) {
            Ok(jr) => {
                push_journal(&mut effects, jr);
                proof {
                    if pre_ok {
                        lemma_journaled_concat(c0, e_t, ct, record_effects(jr), *ctx);
                    }
                }
            },
            Err(reason) => {
                assert(!adm);
                let r = halt_with_reason(reason, effects);
                proof {
                    if pre_ok {
                        lemma_journaled_after(c0, e_t, ct, outcome_effects(r), ct);
                    }
                }
                return r;
            },
        }
        if let Some(rv) = t.venue_remaining_qty {
            ctx.note_venue_remaining(rv);
        }
    }
    let ghost c2 = *ctx;
    assert(c2.applied_fills == c0.applied_fills && c2.venue_order_id == c0.venue_order_id);
    proof {
        if adm {
            lemma_admitted_binds(c0, c2, *venue_order_id, response_fill_count, reconcile_target);
        }
        lemma_evolves_trans(c0, c1, c2);
        if pre_ok {
            assert(journaled(c0, effects@, c2));
        }
    }
    let ghost e_b = effects@;
    match bind_venue_id(ctx, venue_order_id) {
        Ok(jr) => {
            push_journal(&mut effects, jr);
            proof {
                if pre_ok {
                    lemma_journaled_concat(c0, e_b, c2, record_effects(jr), *ctx);
                }
            }
        },
        Err(reason) => {
            let r = halt_with_reason(reason, effects);
            proof {
                if pre_ok {
                    lemma_journaled_after(c0, e_b, c2, outcome_effects(r), c2);
                }
            }
            return r;
        },
    }
    proof {
        lemma_evolves_trans(c0, c2, *ctx);
    }
    let ghost c3 = *ctx;
    let ghost e3 = effects@;
    proof {
        if adm {
            lemma_admitted_no_foreign(c0, c3, *venue_order_id, response_fill_count, reconcile_target);
        }
    }
    let r = cancel_outcome_tail(
        ctx,
        venue_order_id,
        filled_qty,
        remaining_qty,
        reconcile_target,
        outcome,
        effects,
    );
    proof {
        if pre_ok {
            lemma_journaled_after(c0, e3, c3, outcome_effects(r), c3);
        }
    }
    r
}

/// Where a cancel outcome lands once the context holds it.
fn cancel_outcome_tail(
    ctx: &OrderCtx,
    venue_order_id: &VenueOrderId,
    filled_qty: u64,
    remaining_qty: u64,
    reconcile_target: Option<ReconcileTarget>,
    outcome: CancelOutcome,
    effects: Vec<Effect>,
) -> (r: TransitionOutcome)
    requires
        no_release(effects@),
        !ctx.authority_complete,
    ensures
        outcome_sound(r, *ctx),
        !(r is Reject),
        r is Accept ==> !is_true_terminal(r->Accept_new_state),
        r is Accept ==> cancel_outcome_routed(
            *ctx,
            *venue_order_id,
            filled_qty,
            remaining_qty,
            reconcile_target,
            outcome,
            r->Accept_new_state,
        ),
        (r is Accept && (outcome is NotFound || outcome is TransportUnknown || outcome is Unknown)) ==> r->Accept_effects@.len() > 0
            && r->Accept_effects@.last() == (Effect::ReconcileCancel { venue_order_id: Some(*venue_order_id) }),
        ctx.fill_obligation <= ctx.qty ==> journaled_after(*ctx, effects@, outcome_effects(r), *ctx),
        (!(outcome is Canceled || outcome is AlreadyTerminal) || no_foreign_fill(*ctx)) ==> r is Accept,
{
    let ghost e0 = effects@;
    proof {
        lemma_journaled_after_refl(*ctx, e0);
    }
    let mut effects = effects;
    match outcome {
        CancelOutcome::Canceled => try_finalize_terminal(
            ctx,
            ProposedTerminal::Canceled,
            venue_order_id.clone(),
            effects,
            ReconcileTerminal::Canceled,
        ),
        CancelOutcome::AlreadyTerminal => {
            let fallback = if ctx.fill_obligation > 0 {
                ReconcileTerminal::Filled
            } else {
                ReconcileTerminal::Canceled
            };
            try_finalize_terminal(ctx, ProposedTerminal::Terminal, venue_order_id.clone(), effects, fallback)
        },
        CancelOutcome::Accepted => accept(
            OrderState::CancelPending {
                venue_order_id: venue_order_id.clone(),
                filled_qty,
                remaining_qty,
                response_fill_count: ctx.response_fill_count,
                response_avg_price_cents: ctx.response_avg_price_cents,
                response_fee_cents: ctx.response_fee_cents,
                reconcile_target,
            },
            effects,
        ),
        CancelOutcome::Rejected => {
            if filled_qty == 0 && ctx.attributed_fill_qty == 0 {
                accept(OrderState::Accepted { venue_order_id: venue_order_id.clone() }, effects)
            } else {
                let f = if ctx.attributed_fill_qty >= filled_qty {
                    ctx.attributed_fill_qty
                } else {
                    filled_qty
                };
                accept(
                    OrderState::Partial {
                        venue_order_id: venue_order_id.clone(),
                        filled_qty: f,
                        remaining_qty: ctx.remaining_qty(),
                    },
                    effects,
                )
            }
        },
        CancelOutcome::NotFound | CancelOutcome::TransportUnknown | CancelOutcome::Unknown => {
            push_effect(
                &mut effects,
                Effect::ReconcileCancel { venue_order_id: Some(venue_order_id.clone()) },
            );
            proof {
                assert(effects@.subrange(0, e0.len() as int) =~= e0);
                lemma_journaled_after_free_ext(*ctx, e0, effects@);
            }
            accept(
                OrderState::CancelPending {
                    venue_order_id: venue_order_id.clone(),
                    filled_qty,
                    remaining_qty,
                    response_fill_count: ctx.response_fill_count,
                    response_avg_price_cents: ctx.response_avg_price_cents,
                    response_fee_cents: ctx.response_fee_cents,
                    reconcile_target,
                },
                effects,
            )
        },
    }
}

} // verus!
