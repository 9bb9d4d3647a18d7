//! `SubmitUnknown` backfill matching and venue-status routing.

use vstd::prelude::*;

use super::account::{bind_venue_id, bound, note_authority_complete, note_fill_evidence};
use super::ctx::{invalidated, OrderCtx};
use super::finalize::{closes_with, try_finalize_terminal, ProposedTerminal};
use super::outcome::{
    accept, ctx_evolves, halt_with_reason, halt_with_reason_state, lemma_evolves_trans,
    lemma_no_release_concat, lemma_prepend_sound, one_effect, outcome_effects, outcome_sound,
    push_effect, push_journal, TransitionOutcome,
};
use super::fills::{try_account_fill_record, AccountAttempt};
use super::submit::{account_fill_batch, batch_booked, first_bind_journal, halted_with, latched};
use super::cancel::evidence_noted;
use super::rebuild::{
    journaled, journaled_after, lemma_journaled_after, lemma_journaled_after_free_ext,
    lemma_journaled_after_refl, lemma_journaled_after_trans, lemma_journaled_concat,
    lemma_journaled_refl, lemma_record_journaled, record_effects, after_reconcile_observed,
    attempt_effects, fold_step, law_fill_booking_journaled,
};
use super::types::{
    no_release, BackfillOrderRecord, BackfillOrderStatus, Effect, FillRecord, HaltReason,
    JournalRecord, OrderState, ReconcileTarget, ReconcileTerminal, VenueOrderId,
};
use crate::text::{owned, text2};
use vstd::string::StringExecFns;

verus! {

/// The live state of an order with this context: `Accepted` before any fill,
/// else `Partial` with the attributed and the remaining qty.
pub open spec fn live_state(c: OrderCtx, v: VenueOrderId) -> OrderState {
    if c.attributed_fill_qty == 0 {
        OrderState::Accepted { venue_order_id: v }
    } else {
        OrderState::Partial {
            venue_order_id: v,
            filled_qty: c.attributed_fill_qty,
            remaining_qty: if c.attributed_fill_qty <= c.qty {
                (c.qty - c.attributed_fill_qty) as u64
            } else {
                0
            },
        }
    }
}

/// The state a venue status routes to when it does not halt (`c` is the context
/// afterwards). A `SubmitUnknown` match without exhaustive shell authority stays
/// matching-pending; terminals come only through the release choke point (or wait
/// in `ReconcilePending`); a live status commits the live state once every venue
/// fill is attributed and the venue's remaining agrees.
pub open spec fn backfill_routed(
    c: OrderCtx,
    v: VenueOrderId,
    status: BackfillOrderStatus,
    venue_filled_qty: u64,
    venue_remaining_qty: u64,
    shell_authority_complete: bool,
    from_submit_unknown: bool,
    s: OrderState,
) -> bool {
    let waits = from_submit_unknown && !shell_authority_complete;
    match status {
        BackfillOrderStatus::Canceled => if waits {
            s is Canceled || s is SubmitUnknown
        } else {
            s is Canceled || s is ReconcilePending
        },
        BackfillOrderStatus::Filled => if waits {
            s is Filled || s is SubmitUnknown
        } else {
            s is Filled || s is ReconcilePending
        },
        BackfillOrderStatus::Open | BackfillOrderStatus::Partial => if waits {
            s is SubmitUnknown
        } else {
            s == live_state(c, v) && (c.attributed_fill_qty == venue_filled_qty ==> (c.attributed_fill_qty
                <= c.qty && venue_remaining_qty == c.qty - c.attributed_fill_qty))
        },
    }
}

/// Non-terminal reconcile: full reservation, keep backfilling / asking for authority.
pub(crate) fn continue_reconcile_pending(
    ctx: &OrderCtx,
    venue_order_id: VenueOrderId,
    venue_filled_qty: u64,
    effects: Vec<Effect>,
    from_submit_unknown: bool,
    authority_complete: bool,
    target: Option<ReconcileTarget>,
) -> (r: TransitionOutcome)
    requires
        no_release(effects@),
    ensures
        outcome_sound(r, *ctx),
        r is Accept,
        !super::types::is_true_terminal(r->Accept_new_state),
        r->Accept_new_state == (if from_submit_unknown && !authority_complete {
            OrderState::SubmitUnknown
        } else if target is Some {
            OrderState::ReconcilePending {
                venue_order_id,
                filled_qty: ctx.attributed_fill_qty,
                remaining_qty: if ctx.attributed_fill_qty <= ctx.qty {
                    (ctx.qty - ctx.attributed_fill_qty) as u64
                } else {
                    0
                },
                target: target->0,
                response_fill_count: ctx.response_fill_count,
                response_avg_price_cents: ctx.response_avg_price_cents,
                response_fee_cents: ctx.response_fee_cents,
            }
        } else {
            live_state(*ctx, venue_order_id)
        }),
        journaled_after(*ctx, effects@, outcome_effects(r), *ctx),
{
    let ghost e0 = effects@;
    let mut effects = effects;
    if ctx.attributed_fill_qty < venue_filled_qty {
        push_effect(&mut effects, Effect::BackfillFills { venue_order_id: venue_order_id.clone() });
    } else if from_submit_unknown && !authority_complete {
        push_effect(&mut effects, Effect::BackfillUnknown { client_order_id: ctx.client_order_id.clone() });
    } else if !authority_complete {
        push_effect(
            &mut effects,
            Effect::RequestAuthorityReconcile {
                venue_order_id: Some(venue_order_id.clone()),
                client_order_id: ctx.client_order_id.clone(),
            },
        );
        push_effect(&mut effects, Effect::BackfillFills { venue_order_id: venue_order_id.clone() });
    } else {
        push_effect(&mut effects, Effect::BackfillFills { venue_order_id: venue_order_id.clone() });
    }
    proof {
        assert(effects@.subrange(0, e0.len() as int) =~= e0);
        assert forall|i: int| e0.len() <= i < effects@.len() implies !(#[trigger] effects@[i] is AppendFsync) by {}
        lemma_journaled_after_free_ext(*ctx, e0, effects@);
    }
    if from_submit_unknown && !authority_complete {
        return accept(OrderState::SubmitUnknown, effects);
    }
    let remaining = ctx.remaining_qty();
    if let Some(t) = target {
        return accept(
            OrderState::ReconcilePending {
                venue_order_id,
                filled_qty: ctx.attributed_fill_qty,
                remaining_qty: remaining,
                target: t,
                response_fill_count: ctx.response_fill_count,
                response_avg_price_cents: ctx.response_avg_price_cents,
                response_fee_cents: ctx.response_fee_cents,
            },
            effects,
        );
    }
    if ctx.attributed_fill_qty == 0 {
        accept(OrderState::Accepted { venue_order_id }, effects)
    } else {
        accept(
            OrderState::Partial { venue_order_id, filled_qty: ctx.attributed_fill_qty, remaining_qty: remaining },
            effects,
        )
    }
}

/// Whether the effects already ask for the unknown-order backfill.
fn has_backfill_unknown(effects: &Vec<Effect>) -> (r: bool)
    ensures
        r == exists|k: int| 0 <= k < effects@.len() && #[trigger] effects@[k] is BackfillUnknown,
{
    let mut i: usize = 0;
    while i < effects.len()
        invariant
            i <= effects@.len(),
            forall|k: int| 0 <= k < i ==> !(#[trigger] effects@[k] is BackfillUnknown),
        decreases effects@.len() - i,
    {
        if let Effect::BackfillUnknown { .. } = &effects[i] {
            return true;
        }
        i = i + 1;
    }
    false
}

/// A not-ready terminal during `SubmitUnknown` without exhaustive authority stays
/// matching-pending so further pages can still find an ambiguous match.
fn keep_matching_pending(ctx: &OrderCtx, o: TransitionOutcome) -> (r: TransitionOutcome)
    requires
        outcome_sound(o, *ctx),
        !(o is Reject),
    ensures
        outcome_sound(r, *ctx),
        !(r is Reject),
        (o matches TransitionOutcome::Accept { new_state: OrderState::ReconcilePending { .. }, .. }) ==> r is Accept
            && r->Accept_new_state is SubmitUnknown,
        !(o matches TransitionOutcome::Accept { new_state: OrderState::ReconcilePending { .. }, .. }) ==> r == o,
        journaled_after(*ctx, outcome_effects(o), outcome_effects(r), *ctx),
{
    match o {
        TransitionOutcome::Accept { new_state: OrderState::ReconcilePending { .. }, effects } => {
            let ghost e0 = effects@;
            let mut e = effects;
            if !has_backfill_unknown(&e) {
                push_effect(&mut e, Effect::BackfillUnknown { client_order_id: ctx.client_order_id.clone() });
            }
            proof {
                assert(e@.subrange(0, e0.len() as int) =~= e0);
                lemma_journaled_after_free_ext(*ctx, e0, e@);
            }
            accept(OrderState::SubmitUnknown, e)
        },
        other => {
            proof {
                lemma_journaled_after_refl(*ctx, outcome_effects(other));
            }
            other
        },
    }
}

/// Replaying a venue observation (without shell authority) and the obligation raise
/// it caused: the context the live step reached, except that a latched authority
/// lagging behind an obligation the observation does not raise is cleared.
proof fn lemma_observed_replay(
    cb: OrderCtx,
    c2: OrderCtx,
    v: VenueOrderId,
    vf: u64,
    vr: u64,
    jr: Option<JournalRecord>,
)
    requires
        cb.venue_order_id matches Some(b) && b.0@ == v.0@,
        vf <= cb.qty,
        ({
            let c1 = OrderCtx { last_venue_remaining_qty: Some(vr), ..cb };
            &&& vf <= c1.fill_obligation ==> c2 == c1 && jr is None
            &&& vf > c1.fill_obligation ==> c2 == (if c1.attributed_fill_qty < vf {
                invalidated(OrderCtx { fill_obligation: vf, ..c1 })
            } else {
                OrderCtx { fill_obligation: vf, ..c1 }
            }) && jr == Some(
                JournalRecord::ObligationRaised { fill_obligation: vf, authority_epoch: c2.authority_epoch },
            )
        }),
    ensures
        journaled(
            cb,
            record_effects(
                Some(
                    JournalRecord::ReconcileObserved {
                        venue_order_id: v,
                        venue_filled_qty: vf,
                        venue_remaining_qty: vr,
                        shell_authority_complete: false,
                        authority_epoch: cb.authority_epoch,
                    },
                ),
            ) + record_effects(jr),
            if cb.authority_complete && cb.attributed_fill_qty < cb.fill_obligation && vf <= cb.fill_obligation {
                OrderCtx { authority_complete: false, ..c2 }
            } else {
                c2
            },
        ),
{
    let c1 = OrderCtx { last_venue_remaining_qty: Some(vr), ..cb };
    let ro = JournalRecord::ReconcileObserved {
        venue_order_id: v,
        venue_filled_qty: vf,
        venue_remaining_qty: vr,
        shell_authority_complete: false,
        authority_epoch: cb.authority_epoch,
    };
    let y = after_reconcile_observed(cb, v, vf, vr, false, cb.authority_epoch)->Ok_0;
    assert(bound(cb, v) == Ok::<OrderCtx, HaltReason>(cb));
    assert(fold_step(cb, ro, Ok::<OrderCtx, HaltReason>(y)));
    lemma_record_journaled(cb, ro, y);
    let z = if cb.authority_complete && cb.attributed_fill_qty < cb.fill_obligation && vf <= cb.fill_obligation {
        OrderCtx { authority_complete: false, ..c2 }
    } else {
        c2
    };
    if vf <= c1.fill_obligation {
        assert(y == z);
        lemma_journaled_refl(y, record_effects(jr));
    } else {
        let j = jr->0;
        assert(fold_step(y, j, Ok::<OrderCtx, HaltReason>(z)));
        lemma_record_journaled(y, j, z);
    }
    lemma_journaled_concat(cb, record_effects(Some(ro)), y, record_effects(jr), z);
}

/// The venue reports the order still open (fully or partly).
pub open spec fn open_status(status: BackfillOrderStatus) -> bool {
    status is Open || status is Partial
}

/// Where an open venue status lands from `c` when attribution is not beyond the
/// venue's filled qty: back to `SubmitUnknown` while still matching without
/// authority; waiting while attribution lags; live (`Accepted` / `Partial`) once
/// it matches and the venue remaining agrees.
pub open spec fn open_lands(
    c: OrderCtx,
    v: VenueOrderId,
    vf: u64,
    vr: u64,
    still_matching: bool,
    r: TransitionOutcome,
) -> bool {
    &&& still_matching ==> r is Accept && r->Accept_new_state is SubmitUnknown
    &&& (!still_matching && c.attributed_fill_qty < vf) ==> r is Accept
    &&& (!still_matching && c.attributed_fill_qty == vf && c.attributed_fill_qty <= c.qty && vr == c.qty
        - c.attributed_fill_qty) ==> r is Accept && r->Accept_new_state == live_state(c, v)
}

/// Route an observed venue status (the context already holds the observation).
fn route_observed(
    ctx: &OrderCtx,
    venue_order_id: VenueOrderId,
    status: BackfillOrderStatus,
    venue_filled_qty: u64,
    venue_remaining_qty: u64,
    effects: Vec<Effect>,
    shell_authority_complete: bool,
    from_submit_unknown: bool,
) -> (r: TransitionOutcome)
    requires
        no_release(effects@),
    ensures
        outcome_sound(r, *ctx),
        !(r is Reject),
        r is Accept ==> ctx.attributed_fill_qty <= venue_filled_qty && backfill_routed(
            *ctx,
            venue_order_id,
            status,
            venue_filled_qty,
            venue_remaining_qty,
            shell_authority_complete,
            from_submit_unknown,
            r->Accept_new_state,
        ),
        ctx.fill_obligation <= ctx.qty ==> journaled_after(*ctx, effects@, outcome_effects(r), *ctx),
        (status is Canceled && ctx.attributed_fill_qty <= venue_filled_qty && !(from_submit_unknown
            && !shell_authority_complete)) ==> closes_with(*ctx, ProposedTerminal::Canceled, r),
        (status is Filled && ctx.attributed_fill_qty <= venue_filled_qty && !(from_submit_unknown
            && !shell_authority_complete)) ==> closes_with(
            *ctx,
            ProposedTerminal::Filled { venue_authoritative_filled: venue_filled_qty, venue_remaining_qty },
            r,
        ),
        ctx.attributed_fill_qty > venue_filled_qty ==> (r matches TransitionOutcome::Halt {
            reason: HaltReason::CrossCheckMismatch { .. },
            ..
        }),
        (open_status(status) && ctx.attributed_fill_qty <= venue_filled_qty) ==> open_lands(
            *ctx,
            venue_order_id,
            venue_filled_qty,
            venue_remaining_qty,
            from_submit_unknown && !shell_authority_complete,
            r,
        ),
{
    let ghost e0 = effects@;
    proof {
        lemma_journaled_after_refl(*ctx, e0);
    }
    let mut effects = effects;
    if ctx.attributed_fill_qty > venue_filled_qty {
        return halt_with_reason(
            HaltReason::CrossCheckMismatch {
                detail: text2(
                    "attributed_fill_qty=",
                    ctx.attributed_fill_qty as u128,
                    " > venue_filled_qty=",
                    venue_filled_qty as u128,
                ),
            },
            effects,
        );
    }
    match status {
        BackfillOrderStatus::Canceled => {
            let o = try_finalize_terminal(
                ctx,
                ProposedTerminal::Canceled,
                venue_order_id.clone(),
                effects,
                ReconcileTerminal::Canceled,
            );
            if from_submit_unknown && !shell_authority_complete {
                let r = keep_matching_pending(ctx, o);
                proof {
                    if ctx.fill_obligation <= ctx.qty {
                        lemma_journaled_after_trans(*ctx, e0, outcome_effects(o), *ctx, outcome_effects(r), *ctx);
                    }
                }
                return r;
            }
            o
        },
        BackfillOrderStatus::Filled => {
            let o = try_finalize_terminal(
                ctx,
                ProposedTerminal::Filled {
                    venue_authoritative_filled: venue_filled_qty,
                    venue_remaining_qty,
                },
                venue_order_id.clone(),
                effects,
                ReconcileTerminal::Filled,
            );
            if from_submit_unknown && !shell_authority_complete {
                let r = keep_matching_pending(ctx, o);
                proof {
                    if ctx.fill_obligation <= ctx.qty {
                        lemma_journaled_after_trans(*ctx, e0, outcome_effects(o), *ctx, outcome_effects(r), *ctx);
                    }
                }
                return r;
            }
            o
        },
        BackfillOrderStatus::Open | BackfillOrderStatus::Partial => {
            if from_submit_unknown && !shell_authority_complete {
                if ctx.attributed_fill_qty < venue_filled_qty {
                    push_effect(&mut effects, Effect::BackfillFills { venue_order_id: venue_order_id.clone() });
                }
                push_effect(
                    &mut effects,
                    Effect::BackfillUnknown { client_order_id: ctx.client_order_id.clone() },
                );
                proof {
                    assert(effects@.subrange(0, e0.len() as int) =~= e0);
                    assert forall|i: int| e0.len() <= i < effects@.len() implies !(#[trigger] effects@[i] is AppendFsync) by {}
                    lemma_journaled_after_free_ext(*ctx, e0, effects@);
                }
                return accept(OrderState::SubmitUnknown, effects);
            }
            let fills_fully_attributed = ctx.attributed_fill_qty == venue_filled_qty;
            if !fills_fully_attributed {
                return continue_reconcile_pending(
                    ctx,
                    venue_order_id,
                    venue_filled_qty,
                    effects,
                    from_submit_unknown,
                    shell_authority_complete,
                    None,
                );
            }
            let remaining = match ctx.remaining_qty_checked() {
                Some(r) => r,
                None => {
                    return halt_with_reason(
                        HaltReason::OverFill {
                            attributed_fill_qty: ctx.attributed_fill_qty,
                            fill_qty: 0,
                            order_qty: ctx.qty,
                        },
                        effects,
                    );
                },
            };
            if venue_remaining_qty != remaining {
                return halt_with_reason(
                    HaltReason::CrossCheckMismatch {
                        detail: text2(
                            "venue_remaining=",
                            venue_remaining_qty as u128,
                            " != local_remaining=",
                            remaining as u128,
                        ),
                    },
                    effects,
                );
            }
            if ctx.attributed_fill_qty == 0 {
                accept(OrderState::Accepted { venue_order_id }, effects)
            } else {
                accept(
                    OrderState::Partial {
                        venue_order_id,
                        filled_qty: ctx.attributed_fill_qty,
                        remaining_qty: remaining,
                    },
                    effects,
                )
            }
        },
    }
}

/// The context after a venue observation on the bound context `cb`: the venue
/// remaining noted, the filled qty taken as obligation evidence, and authority
/// latched when the shell proved it complete.
pub open spec fn observed_ctx(cb: OrderCtx, vf: u64, vr: u64, shell_authority_complete: bool) -> OrderCtx {
    let c2 = evidence_noted(OrderCtx { last_venue_remaining_qty: Some(vr), ..cb }, vf).0;
    if shell_authority_complete {
        latched(c2)
    } else {
        c2
    }
}

/// Route by venue status; terminals and releases only through the choke point.
/// Shell authority evidence latches ctx; it is never fed into the release gate.
pub(crate) fn route_from_backfill_status(
    ctx: &mut OrderCtx,
    venue_order_id: VenueOrderId,
    status: BackfillOrderStatus,
    venue_filled_qty: u64,
    venue_remaining_qty: u64,
    extra_fills: &[FillRecord],
    shell_authority_complete: bool,
    from_submit_unknown: bool,
) -> (r: TransitionOutcome)
    ensures
        ctx_evolves(*old(ctx), *final(ctx)),
        outcome_sound(r, *final(ctx)),
        !(r is Reject),
        r is Accept ==> final(ctx).attributed_fill_qty <= venue_filled_qty && backfill_routed(
            *final(ctx),
            venue_order_id,
            status,
            venue_filled_qty,
            venue_remaining_qty,
            shell_authority_complete,
            from_submit_unknown,
            r->Accept_new_state,
        ),
        (old(ctx).fill_obligation <= old(ctx).qty && (old(ctx).authority_complete
            ==> old(ctx).attributed_fill_qty >= old(ctx).fill_obligation || (shell_authority_complete
            && extra_fills@.len() == 0))) ==> journaled(*old(ctx), outcome_effects(r), *final(ctx)),
        // a venue id the order cannot take halts with the bind's refusal, nothing changed
        bound(*old(ctx), venue_order_id) matches Err(e) ==> *final(ctx) == *old(ctx) && halted_with(
            r,
            e,
            Seq::<Effect>::empty(),
        ),
        // a venue filled qty above the order qty halts once the observation is journaled
        bound(*old(ctx), venue_order_id) matches Ok(cb) ==> (venue_filled_qty > old(ctx).qty ==> *final(ctx)
            == (OrderCtx { last_venue_remaining_qty: Some(venue_remaining_qty), ..cb }) && halted_with(
            r,
            HaltReason::ObligationExceedsOrderQty { fill_obligation: venue_filled_qty, order_qty: old(ctx).qty },
            first_bind_journal(*old(ctx), venue_order_id) + seq![
                Effect::AppendFsync(
                    JournalRecord::ReconcileObserved {
                        venue_order_id,
                        venue_filled_qty,
                        venue_remaining_qty,
                        shell_authority_complete: false,
                        authority_epoch: cb.authority_epoch,
                    },
                ),
            ],
        )),
        // the fills are booked in order from the observed context; a refused one halts
        // with its own reason, the context as that fill found it
        bound(*old(ctx), venue_order_id) matches Ok(cb) ==> (venue_filled_qty <= old(ctx).qty ==> exists|
            c3: OrderCtx,
            br: Option<HaltReason>,
        |
            #[trigger] batch_booked(
                evidence_noted(OrderCtx { last_venue_remaining_qty: Some(venue_remaining_qty), ..cb }, venue_filled_qty).0,
                extra_fills@,
                c3,
                br,
            ) && (br matches Some(reason) ==> *final(ctx) == c3 && r is Halt && r->Halt_reason == reason)),
        // with no fills to book, the observation leaves exactly `observed_ctx`;
        // attribution beyond the venue's filled qty halts as a cross-check mismatch,
        // a canceled or filled venue status closes from there, an open one lands as
        // `open_lands` says
        bound(*old(ctx), venue_order_id) matches Ok(cb) ==> ((extra_fills@.len() == 0 && venue_filled_qty
            <= old(ctx).qty) ==> {
            &&& *final(ctx) == observed_ctx(cb, venue_filled_qty, venue_remaining_qty, shell_authority_complete)
            &&& (status is Canceled && final(ctx).attributed_fill_qty <= venue_filled_qty && !(from_submit_unknown
                && !shell_authority_complete)) ==> closes_with(*final(ctx), ProposedTerminal::Canceled, r)
            &&& (status is Filled && final(ctx).attributed_fill_qty <= venue_filled_qty && !(from_submit_unknown
                && !shell_authority_complete)) ==> closes_with(
                *final(ctx),
                ProposedTerminal::Filled { venue_authoritative_filled: venue_filled_qty, venue_remaining_qty },
                r,
            )
            &&& final(ctx).attributed_fill_qty > venue_filled_qty ==> (r matches TransitionOutcome::Halt {
                reason: HaltReason::CrossCheckMismatch { .. },
                ..
            })
            &&& (open_status(status) && final(ctx).attributed_fill_qty <= venue_filled_qty) ==> open_lands(
                *final(ctx),
                venue_order_id,
                venue_filled_qty,
                venue_remaining_qty,
                from_submit_unknown && !shell_authority_complete,
                r,
            )
        }),
{
    let ghost c0 = *ctx;
    let ghost pre_ok = c0.fill_obligation <= c0.qty && (c0.authority_complete ==> c0.attributed_fill_qty
        >= c0.fill_obligation || (shell_authority_complete && extra_fills@.len() == 0));
    let mut effects: Vec<Effect> = Vec::new();
    match bind_venue_id(ctx, &venue_order_id) {
        Ok(jr) => {
            push_journal(&mut effects, jr);
            proof {
                assert(effects@ =~= record_effects(jr));
            }
        },
        Err(reason) => {
            let r = halt_with_reason(reason, Vec::new());
            proof {
                lemma_journaled_refl(c0, Seq::<Effect>::empty());
                lemma_journaled_after(c0, Seq::<Effect>::empty(), c0, outcome_effects(r), c0);
            }
            return r;
        },
    }
    let ghost cb = *ctx;
    let ghost e_b = effects@;
    ctx.note_venue_remaining(venue_remaining_qty);
    let ghost c1 = *ctx;
    let ro = JournalRecord::ReconcileObserved {
        venue_order_id: venue_order_id.clone(),
        venue_filled_qty,
        venue_remaining_qty,
        shell_authority_complete: false,
        authority_epoch: ctx.authority_epoch,
    };
    push_effect(&mut effects, Effect::AppendFsync(ro));
    let ghost e_ro = effects@;
    match note_fill_evidence(ctx, venue_filled_qty) {
        Ok(jr) => {
            push_journal(&mut effects, jr);
            proof {
                lemma_observed_replay(cb, *ctx, venue_order_id, venue_filled_qty, venue_remaining_qty, jr);
                assert(effects@ =~= e_b + (record_effects(Some(ro)) + record_effects(jr)));
                lemma_journaled_concat(c0, e_b, cb, record_effects(Some(ro)) + record_effects(jr), if cb.authority_complete
                    && cb.attributed_fill_qty < cb.fill_obligation && venue_filled_qty <= cb.fill_obligation {
                    OrderCtx { authority_complete: false, ..*ctx }
                } else {
                    *ctx
                });
            }
        },
        Err(reason) => {
            let r = halt_with_reason(reason, effects);
            proof {
                let y = after_reconcile_observed(cb, venue_order_id, venue_filled_qty, venue_remaining_qty, false, cb.authority_epoch)->Ok_0;
                assert(bound(cb, venue_order_id) == Ok::<OrderCtx, HaltReason>(cb));
                assert(y == c1);
                assert(fold_step(cb, ro, Ok::<OrderCtx, HaltReason>(c1)));
                lemma_record_journaled(cb, ro, c1);
                lemma_journaled_concat(c0, e_b, cb, record_effects(Some(ro)), c1);
                assert(e_ro =~= e_b + record_effects(Some(ro)));
                lemma_journaled_after(c0, e_ro, c1, outcome_effects(r), c1);
            }
            return r;
        },
    }
    let ghost c2 = *ctx;
    let ghost diverged = cb.authority_complete && cb.attributed_fill_qty < cb.fill_obligation
        && venue_filled_qty <= cb.fill_obligation;
    let ghost z2 = if diverged {
        OrderCtx { authority_complete: false, ..c2 }
    } else {
        c2
    };
    proof {
        lemma_evolves_trans(c0, c1, c2);
    }
    let ghost e2 = effects@;
    let br = account_fill_batch(ctx, extra_fills, &mut effects);
    let ghost cb3 = *ctx;
    assert(batch_booked(c2, extra_fills@, cb3, br));
    if let Some(reason) = br {
        proof {
            lemma_evolves_trans(c0, c2, *ctx);
        }
        let ghost e3 = effects@;
        let r = halt_with_reason(reason, effects);
        proof {
            if pre_ok {
                assert(!diverged || extra_fills@.len() == 0);
                lemma_journaled_after(c0, e2, c2, e3, *ctx);
                lemma_journaled_after(c0, e3, *ctx, outcome_effects(r), *ctx);
            }
        }
        return r;
    }
    let ghost c3 = *ctx;
    let ghost e3 = effects@;
    let jr = note_authority_complete(ctx, shell_authority_complete);
    push_journal(&mut effects, jr);
    proof {
        lemma_evolves_trans(c0, c2, c3);
        lemma_evolves_trans(c0, c3, *ctx);
        if pre_ok {
            if diverged {
                assert(shell_authority_complete && extra_fills@.len() == 0);
                assert(c3 == c2);
                assert(e3 == e2);
                let j = jr->0;
                assert(fold_step(z2, j, Ok::<OrderCtx, HaltReason>(*ctx)));
                lemma_record_journaled(z2, j, *ctx);
                lemma_journaled_concat(c0, e2, z2, record_effects(jr), *ctx);
            } else {
                lemma_journaled_after(c0, e2, c2, e3, c3);
                lemma_journaled_concat(c0, e3, c3, record_effects(jr), *ctx);
            }
        }
    }
    let ghost c4 = *ctx;
    if shell_authority_complete {
        let ro2 = JournalRecord::ReconcileObserved {
            venue_order_id: venue_order_id.clone(),
            venue_filled_qty,
            venue_remaining_qty,
            shell_authority_complete,
            authority_epoch: ctx.authority_epoch,
        };
        let ghost e_prev = effects@;
        proof {
            if pre_ok {
                assert(bound(c4, venue_order_id) == Ok::<OrderCtx, HaltReason>(c4));
                assert(fold_step(c4, ro2, Ok::<OrderCtx, HaltReason>(c4)));
                lemma_record_journaled(c4, ro2, c4);
                lemma_journaled_concat(c0, effects@, c4, record_effects(Some(ro2)), c4);
            }
        }
        push_effect(&mut effects, Effect::AppendFsync(ro2));
        proof {
            assert(effects@ =~= e_prev + record_effects(Some(ro2)));
        }
    }
    let ghost e4 = effects@;
    let r = route_observed(
        ctx,
        venue_order_id,
        status,
        venue_filled_qty,
        venue_remaining_qty,
        effects,
        shell_authority_complete,
        from_submit_unknown,
    );
    proof {
        if pre_ok {
            lemma_journaled_after(c0, e4, c4, outcome_effects(r), c4);
        }
    }
    r
}

/// Text of a backfill client-order-id mismatch.
fn cid_mismatch_detail(got: &str, expected: &str) -> (r: String)
    ensures
        r@ == "backfill client_order_id mismatch: got "@ + got@ + ", expected "@ + expected@,
{
    let mut s = owned("backfill client_order_id mismatch: got ");
    s.append(got);
    s.append(", expected ");
    s.append(expected);
    s
}

/// What a unique backfill match answers: a foreign client order id halts with the
/// context untouched; a non-exhaustive match stays matching-pending and books
/// nothing; an exhaustive one routes by the venue status with shell authority.
pub open spec fn unique_match_post(
    c0: OrderCtx,
    c: OrderCtx,
    exhaustive: bool,
    rec: BackfillOrderRecord,
    r: TransitionOutcome,
) -> bool {
    if rec.client_order_id.0@ != c0.client_order_id.0@ {
        &&& c == c0
        &&& r matches TransitionOutcome::Halt { reason: HaltReason::Operator(detail), .. }
        &&& detail@ == "backfill client_order_id mismatch: got "@ + rec.client_order_id.0@ + ", expected "@
            + c0.client_order_id.0@
    } else if !exhaustive {
        &&& c == c0
        &&& r == (TransitionOutcome::Accept { new_state: OrderState::SubmitUnknown, effects: r->Accept_effects })
        &&& r->Accept_effects@ == if rec.filled_qty > 0 && rec.fills@.len() == 0 {
            seq![
                Effect::BackfillUnknown { client_order_id: c0.client_order_id },
                Effect::BackfillFills { venue_order_id: rec.venue_order_id },
            ]
        } else {
            seq![Effect::BackfillUnknown { client_order_id: c0.client_order_id }]
        }
    } else {
        r is Accept ==> backfill_routed(
            c,
            rec.venue_order_id,
            rec.status,
            rec.filled_qty,
            rec.remaining_qty,
            true,
            true,
            r->Accept_new_state,
        )
    }
}

/// What a backfill result answers in `SubmitUnknown`: a non-exhaustive page never
/// changes the context; two or more matches halt as ambiguous before anything is
/// booked; none halts `UnknownNoMatch` when exhaustive and keeps searching
/// otherwise; a unique match follows [`unique_match_post`].
pub open spec fn unknown_backfill_post(
    c0: OrderCtx,
    c: OrderCtx,
    exhaustive: bool,
    matched: Seq<BackfillOrderRecord>,
    r: TransitionOutcome,
) -> bool {
    &&& !exhaustive ==> c == c0
    &&& matched.len() >= 2 ==> c == c0 && (r matches TransitionOutcome::Halt {
        reason: HaltReason::AmbiguousMatch { count },
        ..
    } && count == matched.len())
    &&& matched.len() == 0 && exhaustive ==> c == c0 && r == (TransitionOutcome::Halt {
        new_state: OrderState::UnknownNoMatch,
        reason: HaltReason::UnknownNoMatch,
        effects: r->Halt_effects,
    }) && r->Halt_effects@ == seq![
        Effect::AppendFsync(JournalRecord::UnknownNoMatch),
        Effect::HaltNewExposure,
    ]
    &&& matched.len() == 0 && !exhaustive ==> r == (TransitionOutcome::Accept {
        new_state: OrderState::SubmitUnknown,
        effects: r->Accept_effects,
    }) && r->Accept_effects@ == seq![Effect::BackfillUnknown { client_order_id: c0.client_order_id }]
    &&& matched.len() == 1 ==> unique_match_post(c0, c, exhaustive, matched[0], r)
}

/// Pure match on shell-injected backfill records after `SubmitUnknown`:
/// none / exactly one / ambiguous; nothing is booked before an exhaustive unique match.
pub(crate) fn apply_unknown_backfill(ctx: &mut OrderCtx, exhaustive: bool, matched: &[BackfillOrderRecord]) -> (r:
    TransitionOutcome)
    ensures
        ctx_evolves(*old(ctx), *final(ctx)),
        outcome_sound(r, *final(ctx)),
        !(r is Reject),
        !exhaustive ==> *final(ctx) == *old(ctx),
        matched@.len() >= 2 ==> *final(ctx) == *old(ctx) && (r matches TransitionOutcome::Halt {
            reason: HaltReason::AmbiguousMatch { count },
            ..
        } && count == matched@.len()),
        matched@.len() == 0 && exhaustive ==> r == (TransitionOutcome::Halt {
            new_state: OrderState::UnknownNoMatch,
            reason: HaltReason::UnknownNoMatch,
            effects: r->Halt_effects,
        }) && r->Halt_effects@ == seq![
            Effect::AppendFsync(JournalRecord::UnknownNoMatch),
            Effect::HaltNewExposure,
        ],
        matched@.len() == 0 && !exhaustive ==> r == (TransitionOutcome::Accept {
            new_state: OrderState::SubmitUnknown,
            effects: r->Accept_effects,
        }) && r->Accept_effects@ == seq![Effect::BackfillUnknown { client_order_id: old(ctx).client_order_id }],
        matched@.len() == 1 ==> unique_match_post(*old(ctx), *final(ctx), exhaustive, matched@[0], r),
        unknown_backfill_post(*old(ctx), *final(ctx), exhaustive, matched@, r),
        (old(ctx).fill_obligation <= old(ctx).qty && (old(ctx).authority_complete
            ==> old(ctx).attributed_fill_qty >= old(ctx).fill_obligation)) ==> journaled(
            *old(ctx),
            outcome_effects(r),
            *final(ctx),
        ),
{
    let ghost c0 = *ctx;
    let ghost pre_ok = c0.fill_obligation <= c0.qty && (c0.authority_complete ==> c0.attributed_fill_qty
        >= c0.fill_obligation);
    proof {
        lemma_journaled_refl(c0, Seq::<Effect>::empty());
    }
    let n = matched.len();
    if n == 0 {
        if exhaustive {
            let r = halt_with_reason_state(
                OrderState::UnknownNoMatch,
                HaltReason::UnknownNoMatch,
                one_effect(Effect::AppendFsync(JournalRecord::UnknownNoMatch)),
            );
            proof {
                lemma_record_journaled(c0, JournalRecord::UnknownNoMatch, c0);
                lemma_journaled_refl(c0, seq![Effect::HaltNewExposure]);
                lemma_journaled_concat(c0, record_effects(Some(JournalRecord::UnknownNoMatch)), c0, seq![Effect::HaltNewExposure], c0);
                assert(outcome_effects(r) =~= record_effects(Some(JournalRecord::UnknownNoMatch)) + seq![Effect::HaltNewExposure]);
            }
            return r;
        }
        proof {
            lemma_journaled_refl(c0, seq![Effect::BackfillUnknown { client_order_id: c0.client_order_id }]);
        }
        return accept(
            OrderState::SubmitUnknown,
            one_effect(Effect::BackfillUnknown { client_order_id: ctx.client_order_id.clone() }),
        );
    }
    if n >= 2 {
        let r = halt_with_reason(HaltReason::AmbiguousMatch { count: n }, Vec::new());
        proof {
            lemma_journaled_after(c0, Seq::<Effect>::empty(), c0, outcome_effects(r), c0);
        }
        return r;
    }
    let rec = &matched[0];
    if !(rec.client_order_id.0 == ctx.client_order_id.0) {
        let reason = HaltReason::Operator(
            cid_mismatch_detail(rec.client_order_id.0.as_str(), ctx.client_order_id.0.as_str()),
        );
        let r = halt_with_reason(reason, Vec::new());
        proof {
            lemma_journaled_after(c0, Seq::<Effect>::empty(), c0, outcome_effects(r), c0);
        }
        return r;
    }
    if !exhaustive {
        let mut effects = one_effect(Effect::BackfillUnknown { client_order_id: ctx.client_order_id.clone() });
        if rec.filled_qty > 0 && rec.fills.len() == 0 {
            push_effect(&mut effects, Effect::BackfillFills { venue_order_id: rec.venue_order_id.clone() });
            assert(effects@ =~= seq![
                Effect::BackfillUnknown { client_order_id: c0.client_order_id },
                Effect::BackfillFills { venue_order_id: rec.venue_order_id },
            ]);
        } else {
            assert(effects@ =~= seq![Effect::BackfillUnknown { client_order_id: c0.client_order_id }]);
        }
        proof {
            assert forall|i: int| 0 <= i < effects@.len() implies !(#[trigger] effects@[i] is AppendFsync) by {}
            lemma_journaled_refl(c0, effects@);
        }
        return accept(OrderState::SubmitUnknown, effects);
    }
    // exhaustive + unique: bind venue, account fills, route
    let mut effects: Vec<Effect> = Vec::new();
    match bind_venue_id(ctx, &rec.venue_order_id) {
        Ok(jr) => {
            push_journal(&mut effects, jr);
            proof {
                assert(effects@ =~= record_effects(jr));
            }
        },
        Err(reason) => {
            let r = halt_with_reason(reason, Vec::new());
            proof {
                lemma_journaled_after(c0, Seq::<Effect>::empty(), c0, outcome_effects(r), c0);
            }
            return r;
        },
    }
    let ghost cb = *ctx;
    let ghost e_b = effects@;
    ctx.note_venue_remaining(rec.remaining_qty);
    let ghost c1 = *ctx;
    let ro = JournalRecord::ReconcileObserved {
        venue_order_id: rec.venue_order_id.clone(),
        venue_filled_qty: rec.filled_qty,
        venue_remaining_qty: rec.remaining_qty,
        shell_authority_complete: false,
        authority_epoch: ctx.authority_epoch,
    };
    push_effect(&mut effects, Effect::AppendFsync(ro));
    let ghost e_ro = effects@;
    match note_fill_evidence(ctx, rec.filled_qty) {
        Ok(jr) => {
            push_journal(&mut effects, jr);
            proof {
                lemma_observed_replay(cb, *ctx, rec.venue_order_id, rec.filled_qty, rec.remaining_qty, jr);
                assert(effects@ =~= e_b + (record_effects(Some(ro)) + record_effects(jr)));
                if pre_ok {
                    lemma_journaled_concat(c0, e_b, cb, record_effects(Some(ro)) + record_effects(jr), *ctx);
                }
            }
        },
        Err(reason) => {
            let r = halt_with_reason(reason, effects);
            proof {
                let y = after_reconcile_observed(cb, rec.venue_order_id, rec.filled_qty, rec.remaining_qty, false, cb.authority_epoch)->Ok_0;
                assert(bound(cb, rec.venue_order_id) == Ok::<OrderCtx, HaltReason>(cb));
                assert(y == c1);
                assert(fold_step(cb, ro, Ok::<OrderCtx, HaltReason>(c1)));
                lemma_record_journaled(cb, ro, c1);
                lemma_journaled_concat(c0, e_b, cb, record_effects(Some(ro)), c1);
                assert(e_ro =~= e_b + record_effects(Some(ro)));
                lemma_journaled_after(c0, e_ro, c1, outcome_effects(r), c1);
            }
            return r;
        },
    }
    let ghost c2 = *ctx;
    let ghost e2 = effects@;
    let jr = note_authority_complete(ctx, true);
    push_journal(&mut effects, jr);
    let ghost c3 = *ctx;
    proof {
        lemma_evolves_trans(c0, c1, c2);
        lemma_evolves_trans(c0, c2, c3);
        if pre_ok {
            lemma_journaled_concat(c0, e2, c2, record_effects(jr), c3);
        }
    }
    let mut i: usize = 0;
    while i < rec.fills.len()
        invariant
            i <= rec.fills@.len(),
            ctx_evolves(c0, *ctx),
            c0 == *old(ctx),
            no_release(effects@),
            exhaustive,
            matched@.len() == 1,
            rec == matched@[0],
            rec.client_order_id.0@ == c0.client_order_id.0@,
            pre_ok == (c0.fill_obligation <= c0.qty && (c0.authority_complete ==> c0.attributed_fill_qty
                >= c0.fill_obligation)),
            pre_ok ==> journaled(c0, effects@, *ctx),
        decreases rec.fills@.len() - i,
    {
        let f = &rec.fills[i];
        if f.venue_order_id.is_none() {
            let ghost e_h = effects@;
            let r = halt_with_reason(
                HaltReason::FillOwnershipMismatch {
                    fill_id: f.fill_id.clone(),
                    expected: rec.venue_order_id.clone(),
                    got: VenueOrderId(owned("<missing>")),
                },
                effects,
            );
            proof {
                if pre_ok {
                    lemma_journaled_after(c0, e_h, *ctx, outcome_effects(r), *ctx);
                }
            }
            return r;
        }
        let ghost before = *ctx;
        let ghost eb = effects@;
        let attempt = try_account_fill_record(ctx, f);
        let ghost ga = attempt;
        proof {
            lemma_evolves_trans(c0, before, *ctx);
            law_fill_booking_journaled(before, *ctx, f.fill_id, f.qty, f.price_cents, f.ts_ns, f.venue_order_id, f.fee_cents, ga);
            if pre_ok {
                lemma_journaled_concat(c0, eb, before, attempt_effects(ga), *ctx);
            }
        }
        match attempt {
            AccountAttempt::NoOp => {
                proof {
                    assert(eb + attempt_effects(ga) =~= eb);
                }
            },
            AccountAttempt::Applied { effects: e } | AccountAttempt::Enriched { effects: e } => {
                let mut e = e;
                proof {
                    lemma_no_release_concat(effects@, e@);
                }
                effects.append(&mut e);
            },
            AccountAttempt::Halt { reason, effects: e } => {
                let mut e = e;
                proof {
                    lemma_no_release_concat(effects@, e@);
                }
                effects.append(&mut e);
                let ghost e_h = effects@;
                proof {
                    assert(e_h =~= eb + attempt_effects(ga));
                }
                let r = halt_with_reason(reason, effects);
                proof {
                    if pre_ok {
                        lemma_journaled_after(c0, e_h, *ctx, outcome_effects(r), *ctx);
                    }
                }
                return r;
            },
        }
        i = i + 1;
    }
    let ghost c4 = *ctx;
    let ghost e4 = effects@;
    let jr = note_authority_complete(ctx, true);
    push_journal(&mut effects, jr);
    let ghost c5 = *ctx;
    proof {
        lemma_evolves_trans(c0, c4, c5);
        if pre_ok {
            lemma_journaled_concat(c0, e4, c4, record_effects(jr), c5);
        }
    }
    let o = route_from_backfill_status(
        ctx,
        rec.venue_order_id.clone(),
        rec.status,
        rec.filled_qty,
        rec.remaining_qty,
        &[],
        true,
        true,
    );
    proof {
        lemma_evolves_trans(c0, c5, *ctx);
    }
    let ghost prefix = effects@;
    let r = o.prepend_effects(effects);
    proof {
        lemma_prepend_sound(o, prefix, r, *ctx);
        if pre_ok {
            lemma_journaled_concat(c0, prefix, c5, outcome_effects(o), *ctx);
            assert(outcome_effects(r) =~= prefix + outcome_effects(o));
        }
    }
    r
}

} // verus!
