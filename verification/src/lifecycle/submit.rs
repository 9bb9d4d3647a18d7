//! Create response and immediate-fill attribution.

use vstd::prelude::*;

use super::account::{
    bind_venue_id, bound, fee_cross_check_mismatch, has_reliable_boundary, lemma_recomputed_fields,
    lemma_recomputed_frame, note_authority_complete, notional_avg_mismatch,
    recompute_response_domain, recomputed, response_domain_overfill_detail,
};
use super::backfill::live_state;
use super::ctx::{invalidated, OrderCtx};
use super::outcome::reliable_boundary;
use super::fills::{attempt_exact, domain_overfilled, try_account_fill_record, AccountAttempt};
use super::cancel::evidence_noted;
use super::finalize::{closes_toward, finalize_pass, terminal_record, try_finalize_terminal, ProposedTerminal};
use super::outcome::{
    accept, ctx_evolves, notional_within, halt_with_reason, lemma_evolves_trans, lemma_no_account_fill_concat,
    lemma_no_release_concat, no_account_fill, outcome_effects, one_effect, outcome_sound,
    push_effect, push_journal, TransitionOutcome,
};
use super::rebuild::{
    fold_step, journaled_after, lemma_first_record_halts, lemma_journaled_after,
    lemma_journaled_after_record, lemma_journaled_after_refl, lemma_journaled_after_trans,
    lemma_journaled_concat, lemma_journaled_refl, lemma_journaled_after_free_ext,
    lemma_record_journaled, record_effects, step_replays, after_obligation_raised, attempt_effects,
    journaled, law_fill_booking_journaled, lemma_journaled_after_append,
};
use super::types::{
    no_release, Effect, FillRecord, HaltReason, JournalRecord, OrderState, ReconcileTerminal,
    SnapshotBoundary, VenueOrderId,
};
use crate::text::{decimal, text2};

verus! {

/// `c` with authority latched at its current epoch.
pub open spec fn latched(c: OrderCtx) -> OrderCtx {
    OrderCtx { authority_complete: true, authority_latched_epoch: c.authority_epoch, ..c }
}

/// A fully attributed order closing after `effects`: authority is latched and
/// journaled; when every release gate holds the order is `Filled` with its terminal
/// record and the release, otherwise it halts or waits in `ReconcilePending`.
pub open spec fn filled_routed(c: OrderCtx, cf: OrderCtx, effects: Seq<Effect>, r: TransitionOutcome) -> bool {
    let p = ProposedTerminal::Filled { venue_authoritative_filled: c.attributed_fill_qty, venue_remaining_qty: 0 };
    &&& cf == latched(c)
    &&& finalize_pass(cf, p) ==> r == (TransitionOutcome::Accept {
        new_state: OrderState::Filled,
        effects: r->Accept_effects,
    }) && r->Accept_effects@ == effects + seq![
        Effect::AppendFsync(JournalRecord::AuthorityLatched { epoch: c.authority_epoch }),
        Effect::AppendFsync(terminal_record(cf, p)),
        Effect::ReleaseReservation,
    ]
    &&& !finalize_pass(cf, p) ==> (r is Halt || (r is Accept && r->Accept_new_state is ReconcilePending))
}

/// Route by local remaining: full attribution finalizes Filled (full fill-id
/// coverage is fill-complete evidence), otherwise Accepted / Partial.
pub(crate) fn route_live_or_filled(ctx: &mut OrderCtx, venue_order_id: VenueOrderId, effects: Vec<Effect>) -> (r:
    TransitionOutcome)
    requires
        no_release(effects@),
    ensures
        ctx_evolves(*old(ctx), *final(ctx)),
        outcome_sound(r, *final(ctx)),
        !(r is Reject),
        final(ctx).applied_fills == old(ctx).applied_fills,
        final(ctx).attributed_fill_qty == old(ctx).attributed_fill_qty,
        final(ctx).response_domain_qty == old(ctx).response_domain_qty,
        final(ctx).response_snapshot_boundary == old(ctx).response_snapshot_boundary,
        (old(ctx).attributed_fill_qty == old(ctx).qty && r is Accept) ==> (r->Accept_new_state is Filled
            || r->Accept_new_state is ReconcilePending),
        old(ctx).attributed_fill_qty > old(ctx).qty ==> r is Halt,
        no_account_fill(effects@) ==> no_account_fill(outcome_effects(r)),
        old(ctx).fill_obligation <= old(ctx).qty ==> journaled_after(*old(ctx), effects@, outcome_effects(r), *final(ctx)),
        old(ctx).attributed_fill_qty == old(ctx).qty ==> filled_routed(*old(ctx), *final(ctx), effects@, r),
        old(ctx).attributed_fill_qty <= old(ctx).qty && old(ctx).attributed_fill_qty
            < old(ctx).qty ==> *final(ctx) == *old(ctx) && r == (TransitionOutcome::Accept {
            new_state: if old(ctx).attributed_fill_qty == 0 {
                OrderState::Accepted { venue_order_id }
            } else {
                OrderState::Partial {
                    venue_order_id,
                    filled_qty: old(ctx).attributed_fill_qty,
                    remaining_qty: (old(ctx).qty - old(ctx).attributed_fill_qty) as u64,
                }
            },
            effects,
        }),
{
    let remaining = match ctx.remaining_qty_checked() {
        Some(r) => r,
        None => {
            return halt_with_reason(
                HaltReason::OverFill {
                    attributed_fill_qty: ctx.attributed_fill_qty,
                    fill_qty: 0,
                    order_qty: ctx.qty,
                },
                effects,
            );
        },
    };
    if remaining == 0 {
        let ghost e0 = effects@;
        let mut effects = effects;
        let jr = note_authority_complete(ctx, true);
        push_journal(&mut effects, jr);
        let filled = ctx.attributed_fill_qty;
        let r = try_finalize_terminal(
            ctx,
            ProposedTerminal::Filled { venue_authoritative_filled: filled, venue_remaining_qty: 0 },
            venue_order_id,
            effects,
            ReconcileTerminal::Filled,
        );
        proof {
            if old(ctx).fill_obligation <= old(ctx).qty {
                lemma_journaled_after_record(*old(ctx), e0, jr, *ctx);
                lemma_journaled_after_trans(*old(ctx), e0, effects@, *ctx, outcome_effects(r), *ctx);
            }
            let p = ProposedTerminal::Filled { venue_authoritative_filled: filled, venue_remaining_qty: 0 };
            if finalize_pass(*ctx, p) {
                assert(r->Accept_effects@ =~= e0 + seq![
                    Effect::AppendFsync(JournalRecord::AuthorityLatched { epoch: old(ctx).authority_epoch }),
                    Effect::AppendFsync(terminal_record(*ctx, p)),
                    Effect::ReleaseReservation,
                ]);
            }
        }
        r
    } else if ctx.attributed_fill_qty == 0 {
        proof {
            lemma_journaled_after_refl(*ctx, effects@);
        }
        accept(OrderState::Accepted { venue_order_id }, effects)
    } else {
        proof {
            lemma_journaled_after_refl(*ctx, effects@);
        }
        accept(
            OrderState::Partial {
                venue_order_id,
                filled_qty: ctx.attributed_fill_qty,
                remaining_qty: remaining,
            },
            effects,
        )
    }
}

/// Journal record of a create response.
fn submit_response_record(
    venue_order_id: &VenueOrderId,
    fill_count: u64,
    remaining_count: u64,
    avg_price_cents: Option<u64>,
    fee_cents: Option<u64>,
    snapshot_boundary: Option<SnapshotBoundary>,
) -> (r: JournalRecord)
    ensures
        r == (JournalRecord::SubmitResponse {
            venue_order_id: *venue_order_id,
            fill_count,
            remaining_count,
            avg_price_cents,
            fee_cents,
            snapshot_boundary,
        }),
{
    JournalRecord::SubmitResponse {
        venue_order_id: venue_order_id.clone(),
        fill_count,
        remaining_count,
        avg_price_cents,
        fee_cents,
        snapshot_boundary,
    }
}

/// The journal effect of a create response.
pub open spec fn response_effect(
    v: VenueOrderId,
    fill_count: u64,
    remaining_count: u64,
    avg_price_cents: Option<u64>,
    fee_cents: Option<u64>,
    snapshot_boundary: Option<SnapshotBoundary>,
) -> Effect {
    Effect::AppendFsync(
        JournalRecord::SubmitResponse {
            venue_order_id: v,
            fill_count,
            remaining_count,
            avg_price_cents,
            fee_cents,
            snapshot_boundary,
        },
    )
}

/// The journal of a first bind of the parent venue (nothing when already bound).
pub open spec fn first_bind_journal(c: OrderCtx, v: VenueOrderId) -> Seq<Effect> {
    if c.venue_order_id is None {
        seq![Effect::AppendFsync(JournalRecord::VenueBoundCid { client_order_id: c.client_order_id, venue_order_id: v })]
    } else {
        seq![]
    }
}

/// Detail of a zero-fill response whose remaining count is neither zero nor the order qty.
pub open spec fn zero_fill_mismatch_text(remaining_count: u64, qty: u64) -> Seq<char> {
    "fill_count=0 remaining_count="@ + decimal(remaining_count as nat) + " != order_qty="@ + decimal(
        qty as nat,
    )
}

/// `r` halts with `reason` after the effects `prior`.
pub open spec fn halted_with(r: TransitionOutcome, reason: HaltReason, prior: Seq<Effect>) -> bool {
    &&& r == (TransitionOutcome::Halt {
        new_state: OrderState::Halted { reason },
        reason,
        effects: r->Halt_effects,
    })
    &&& r->Halt_effects@ == prior + seq![
        Effect::AppendFsync(JournalRecord::Halted { reason }),
        Effect::HaltNewExposure,
    ]
}

/// What a create response does once the venue id is bound (`c` is the context after
/// the bind and the remaining-count note, `pre` the journal so far).
pub open spec fn response_routed(
    c: OrderCtx,
    final_ctx: OrderCtx,
    v: VenueOrderId,
    fill_count: u64,
    remaining_count: u64,
    avg_price_cents: Option<u64>,
    fee_cents: Option<u64>,
    snapshot_boundary: Option<SnapshotBoundary>,
    pre: Seq<Effect>,
    r: TransitionOutcome,
) -> bool {
    &&& (fill_count == 0 && c.attributed_fill_qty == 0 && remaining_count == c.qty) ==> final_ctx == c
        && r == (TransitionOutcome::Accept { new_state: OrderState::Accepted { venue_order_id: v }, effects: r->Accept_effects })
        && r->Accept_effects@ == pre
    &&& (fill_count == 0 && c.attributed_fill_qty == 0 && remaining_count != c.qty && remaining_count != 0) ==> final_ctx
        == c && (r matches TransitionOutcome::Halt { reason: HaltReason::CrossCheckMismatch { detail }, .. }
        && detail@ == zero_fill_mismatch_text(remaining_count, c.qty) && halted_with(r, r->Halt_reason, pre))
    &&& (fill_count == 0 && c.attributed_fill_qty == 0 && remaining_count == 0 && c.qty != 0) ==> final_ctx
        == latched(c) && closes_toward(
        latched(c),
        ProposedTerminal::Canceled,
        pre + seq![Effect::AppendFsync(JournalRecord::AuthorityLatched { epoch: c.authority_epoch })],
        r,
    )
    &&& (fill_count == 0 && c.attributed_fill_qty != 0 && remaining_count == c.qty && c.attributed_fill_qty < c.qty) ==> final_ctx
        == c && r == (TransitionOutcome::Accept {
        new_state: OrderState::Partial {
            venue_order_id: v,
            filled_qty: c.attributed_fill_qty,
            remaining_qty: (c.qty - c.attributed_fill_qty) as u64,
        },
        effects: r->Accept_effects,
    }) && r->Accept_effects@ == pre
    &&& (fill_count == 0 && c.attributed_fill_qty != 0 && remaining_count == c.qty && c.attributed_fill_qty == c.qty)
        ==> filled_routed(c, final_ctx, pre, r)
    &&& (fill_count == 0 && c.attributed_fill_qty != 0 && remaining_count != c.qty) ==> final_ctx == c && halted_with(
        r,
        HaltReason::ResponseZeroButLocalFills { attributed_fill_qty: c.attributed_fill_qty, remaining_count },
        pre,
    )
    &&& fill_count > c.qty ==> halted_with(
        r,
        HaltReason::ObligationExceedsOrderQty { fill_obligation: fill_count, order_qty: c.qty },
        pre,
    )
    &&& (0 < fill_count <= c.qty && c.attributed_fill_qty > 0) ==> {
        let c3 = response_taken(c, fill_count, remaining_count, avg_price_cents, fee_cents, snapshot_boundary);
        let c2 = recomputed(evidence_noted(c3, fill_count).0);
        &&& domain_overfilled(c2) ==> final_ctx == c2 && (r matches TransitionOutcome::Halt {
            reason: HaltReason::CrossCheckMismatch { .. },
            ..
        })
        &&& !domain_overfilled(c2) ==> unattributed_resolved(
            c2,
            final_ctx,
            v,
            fill_count,
            remaining_count,
            avg_price_cents,
            fee_cents,
            pre + response_raise_journal(c3, fill_count) + seq![
                Effect::AppendFsync(
                    JournalRecord::ImmediateFillUnattributed {
                        venue_order_id: v,
                        fill_count,
                        remaining_count,
                        avg_price_cents,
                        fee_cents,
                    },
                ),
                Effect::BackfillFills { venue_order_id: v },
            ],
            r,
        )
    }
    &&& (0 < fill_count <= c.qty && c.attributed_fill_qty == 0 && c.applied_fills.entries_view().len() == 0) ==> (r matches TransitionOutcome::Accept { new_state, effects }
        && new_state == (OrderState::ImmediateFillUnattributed {
        venue_order_id: v,
        response_fill_count: fill_count,
        response_remaining_count: remaining_count,
        response_avg_price_cents: avg_price_cents,
        response_fee_cents: fee_cents,
    }) && effects@.len() >= 2 && effects@.last() == (Effect::BackfillFills { venue_order_id: v })
        && effects@[effects@.len() - 2] == Effect::AppendFsync(
        JournalRecord::ImmediateFillUnattributed {
            venue_order_id: v,
            fill_count,
            remaining_count,
            avg_price_cents,
            fee_cents,
        },
    ))
}

/// What a create response answers: a refused bind halts with the response journaled
/// and the context untouched; otherwise [`response_routed`].
pub open spec fn response_post(
    c0: OrderCtx,
    final_ctx: OrderCtx,
    v: VenueOrderId,
    fill_count: u64,
    remaining_count: u64,
    avg_price_cents: Option<u64>,
    fee_cents: Option<u64>,
    snapshot_boundary: Option<SnapshotBoundary>,
    r: TransitionOutcome,
) -> bool {
    let rec = response_effect(v, fill_count, remaining_count, avg_price_cents, fee_cents, snapshot_boundary);
    match bound(c0, v) {
        Err(e) => final_ctx == c0 && halted_with(r, e, seq![rec]),
        Ok(c1) => response_routed(
            OrderCtx { last_venue_remaining_qty: Some(remaining_count), ..c1 },
            final_ctx,
            v,
            fill_count,
            remaining_count,
            avg_price_cents,
            fee_cents,
            snapshot_boundary,
            seq![rec] + first_bind_journal(c0, v),
            r,
        ),
    }
}

/// The response fill count is not yet covered: by the in-domain qty under a
/// reliable boundary, else by the attributed qty.
pub open spec fn awaiting_attribution(c: OrderCtx, response_fill_count: u64) -> bool {
    if reliable_boundary(c) {
        c.response_domain_qty < response_fill_count
    } else {
        c.attributed_fill_qty < response_fill_count
    }
}

/// Where an immediate-fill attribution lands when it does not halt: it keeps
/// waiting while the response count is not covered; otherwise it goes live, or
/// toward `Filled` once the whole order is attributed.
pub open spec fn unattributed_routed(
    c: OrderCtx,
    v: VenueOrderId,
    response_fill_count: u64,
    response_remaining_count: u64,
    response_avg_price_cents: Option<u64>,
    response_fee_cents: Option<u64>,
    s: OrderState,
) -> bool {
    if awaiting_attribution(c, response_fill_count) {
        s == (OrderState::ImmediateFillUnattributed {
            venue_order_id: v,
            response_fill_count,
            response_remaining_count,
            response_avg_price_cents,
            response_fee_cents,
        })
    } else if c.attributed_fill_qty < c.qty {
        s == live_state(c, v)
    } else {
        s is Filled || s is ReconcilePending
    }
}

/// `c` holding a create response's snapshot.
pub open spec fn response_taken(
    c: OrderCtx,
    fill_count: u64,
    remaining_count: u64,
    avg: Option<u64>,
    fee: Option<u64>,
    sb: Option<SnapshotBoundary>,
) -> OrderCtx {
    OrderCtx {
        response_fill_count: Some(fill_count),
        response_remaining_count: Some(remaining_count),
        response_avg_price_cents: avg,
        response_fee_cents: fee,
        response_snapshot_boundary: sb,
        ..c
    }
}

/// The records that journal taking a response fill count as evidence on `c`: the
/// obligation raise, and the authority invalidation when the raise left
/// attribution behind.
pub open spec fn response_raise_journal(c: OrderCtx, fill_count: u64) -> Seq<Effect> {
    let cr = evidence_noted(c, fill_count).0;
    record_effects(evidence_noted(c, fill_count).1) + if cr.authority_epoch != c.authority_epoch {
        seq![Effect::AppendFsync(JournalRecord::AuthorityInvalidated { epoch: cr.authority_epoch })]
    } else {
        Seq::<Effect>::empty()
    }
}

/// The response snapshot `c` takes for the attribution check: its avg and fee,
/// where it has none yet.
pub open spec fn snapshot_filled(c: OrderCtx, avg: Option<u64>, fee: Option<u64>) -> OrderCtx {
    OrderCtx {
        response_avg_price_cents: if c.response_avg_price_cents is None {
            avg
        } else {
            c.response_avg_price_cents
        },
        response_fee_cents: if c.response_fee_cents is None {
            fee
        } else {
            c.response_fee_cents
        },
        ..c
    }
}

/// Attribution that covers the response count but contradicts it: under a reliable
/// boundary, an in-domain qty above the count, a remaining count other than the
/// order's rest, or an avg / fee the domain disagrees with; otherwise attribution
/// above the order qty.
pub open spec fn attribution_refused(c: OrderCtx, rfc: u64, rrc: u64, avg: Option<u64>, fee: Option<u64>) -> bool {
    if reliable_boundary(c) {
        ||| c.response_domain_qty != rfc
        ||| (if c.qty >= rfc { c.qty - rfc } else { 0 }) != rrc
        ||| (match (if avg is Some { avg } else { c.response_avg_price_cents }) {
            Some(a) => !notional_within(c.response_domain_notional_cents, a, rfc),
            None => false,
        })
        ||| (match (if fee is Some { fee } else { c.response_fee_cents }) {
            Some(f) => f != c.response_domain_fee_cents,
            None => false,
        })
    } else {
        c.attributed_fill_qty > c.qty
    }
}

/// How an immediate fill is resolved from `c` after effects `e`: it keeps waiting
/// (nothing changed) while the response count is not covered; a contradiction
/// halts with the context untouched; otherwise the response snapshot is taken and
/// the order goes live, or closes as `Filled` once the whole order is attributed.
pub open spec fn unattributed_resolved(
    c: OrderCtx,
    cf: OrderCtx,
    v: VenueOrderId,
    rfc: u64,
    rrc: u64,
    avg: Option<u64>,
    fee: Option<u64>,
    e: Seq<Effect>,
    r: TransitionOutcome,
) -> bool {
    let c1 = snapshot_filled(c, avg, fee);
    &&& awaiting_attribution(c, rfc) ==> cf == c && r == (TransitionOutcome::Accept {
        new_state: OrderState::ImmediateFillUnattributed {
            venue_order_id: v,
            response_fill_count: rfc,
            response_remaining_count: rrc,
            response_avg_price_cents: avg,
            response_fee_cents: fee,
        },
        effects: r->Accept_effects,
    }) && r->Accept_effects@ == e
    &&& (!awaiting_attribution(c, rfc) && attribution_refused(c, rfc, rrc, avg, fee)) ==> cf == c && r is Halt
        && r->Halt_effects@ == e + seq![
        Effect::AppendFsync(JournalRecord::Halted { reason: r->Halt_reason }),
        Effect::HaltNewExposure,
    ]
    &&& (!awaiting_attribution(c, rfc) && !attribution_refused(c, rfc, rrc, avg, fee) && c1.attributed_fill_qty
        < c1.qty) ==> cf == c1 && r == (TransitionOutcome::Accept {
        new_state: live_state(c1, v),
        effects: r->Accept_effects,
    }) && r->Accept_effects@ == e
    &&& (!awaiting_attribution(c, rfc) && !attribution_refused(c, rfc, rrc, avg, fee) && c1.attributed_fill_qty
        == c1.qty) ==> filled_routed(c1, cf, e, r)
}

/// Replaying a create response with fills (the response record, the first bind,
/// the obligation raise and the authority invalidation) reaches the context the
/// live step left before routing.
proof fn lemma_response_replay(
    c0: OrderCtx,
    c3: OrderCtx,
    cr: OrderCtx,
    c2: OrderCtx,
    v: VenueOrderId,
    fill_count: u64,
    remaining_count: u64,
    avg_price_cents: Option<u64>,
    fee_cents: Option<u64>,
    snapshot_boundary: Option<SnapshotBoundary>,
    bind_jr: Option<JournalRecord>,
    raised_jr: Option<JournalRecord>,
    invalidated_jr: Option<JournalRecord>,
)
    requires
        fill_count > 0,
        fill_count <= c3.qty,
        bound(c0, v) is Ok,
        c3 == (OrderCtx {
            response_fill_count: Some(fill_count),
            response_remaining_count: Some(remaining_count),
            response_avg_price_cents: avg_price_cents,
            response_fee_cents: fee_cents,
            response_snapshot_boundary: snapshot_boundary,
            last_venue_remaining_qty: Some(remaining_count),
            ..bound(c0, v)->Ok_0
        }),
        fill_count <= c3.fill_obligation ==> cr == c3,
        fill_count > c3.fill_obligation ==> {
            let raised = OrderCtx { fill_obligation: fill_count, ..c3 };
            if c3.attributed_fill_qty < fill_count {
                cr == invalidated(raised)
            } else {
                cr == raised
            }
        },
        c2 == recomputed(cr),
        bind_jr matches Some(j) ==> j == (JournalRecord::VenueBoundCid { client_order_id: c0.client_order_id, venue_order_id: v }),
        raised_jr == (if cr.fill_obligation > c3.fill_obligation {
            Some(JournalRecord::ObligationRaised { fill_obligation: cr.fill_obligation, authority_epoch: cr.authority_epoch })
        } else {
            None
        }),
        invalidated_jr == (if cr.authority_epoch != c3.authority_epoch {
            Some(JournalRecord::AuthorityInvalidated { epoch: cr.authority_epoch })
        } else {
            None
        }),
    ensures
        journaled(
            c0,
            record_effects(
                Some(
                    JournalRecord::SubmitResponse {
                        venue_order_id: v,
                        fill_count,
                        remaining_count,
                        avg_price_cents,
                        fee_cents,
                        snapshot_boundary,
                    },
                ),
            ) + record_effects(bind_jr) + record_effects(raised_jr) + record_effects(invalidated_jr),
            c2,
        ),
{
    let sr = JournalRecord::SubmitResponse {
        venue_order_id: v,
        fill_count,
        remaining_count,
        avg_price_cents,
        fee_cents,
        snapshot_boundary,
    };
    let c4 = OrderCtx {
        fill_obligation: if fill_count > c3.fill_obligation {
            fill_count
        } else {
            c3.fill_obligation
        },
        ..c3
    };
    lemma_recomputed_frame(c3, c4.fill_obligation, c3.authority_epoch, c3.authority_complete);
    lemma_recomputed_frame(c3, cr.fill_obligation, cr.authority_epoch, cr.authority_complete);
    assert(c4 == OrderCtx {
        fill_obligation: c4.fill_obligation,
        authority_epoch: c3.authority_epoch,
        authority_complete: c3.authority_complete,
        ..c3
    });
    assert(cr == OrderCtx {
        fill_obligation: cr.fill_obligation,
        authority_epoch: cr.authority_epoch,
        authority_complete: cr.authority_complete,
        ..c3
    });
    let y0 = recomputed(c4);
    lemma_recomputed_fields(c4);
    lemma_recomputed_fields(cr);
    assert(fold_step(c0, sr, Ok::<OrderCtx, HaltReason>(y0)));
    lemma_record_journaled(c0, sr, y0);
    assert(bound(y0, v) == Ok::<OrderCtx, HaltReason>(y0));
    if bind_jr is Some {
        lemma_record_journaled(y0, bind_jr->0, y0);
    } else {
        lemma_journaled_refl(y0, record_effects(bind_jr));
    }
    lemma_journaled_concat(c0, record_effects(Some(sr)), y0, record_effects(bind_jr), y0);
    let y1 = match raised_jr {
        Some(j) => after_obligation_raised(y0, cr.fill_obligation, cr.authority_epoch)->Ok_0,
        None => y0,
    };
    if raised_jr is Some {
        assert(fold_step(y0, raised_jr->0, Ok::<OrderCtx, HaltReason>(y1)));
        lemma_record_journaled(y0, raised_jr->0, y1);
    } else {
        lemma_journaled_refl(y0, record_effects(raised_jr));
    }
    assert(y1 == c2);
    if invalidated_jr is Some {
        assert(fold_step(y1, invalidated_jr->0, Ok::<OrderCtx, HaltReason>(c2)));
        lemma_record_journaled(y1, invalidated_jr->0, c2);
    } else {
        lemma_journaled_refl(y1, record_effects(invalidated_jr));
    }
    let ea = record_effects(Some(sr)) + record_effects(bind_jr);
    lemma_journaled_concat(c0, ea, y0, record_effects(raised_jr), y1);
    lemma_journaled_concat(c0, ea + record_effects(raised_jr), y1, record_effects(invalidated_jr), c2);
}

/// A create response that reports fills: keep the snapshot, raise the obligation
/// to the response count, rebuild the domain, then wait for attribution (or
/// resolve it at once when fills were booked before the response).
#[verifier::rlimit(60)]
fn response_with_fills(
    ctx: &mut OrderCtx,
    venue_order_id: VenueOrderId,
    fill_count: u64,
    remaining_count: u64,
    avg_price_cents: Option<u64>,
    fee_cents: Option<u64>,
    snapshot_boundary: Option<SnapshotBoundary>,
    effects: Vec<Effect>,
    Ghost(c0): Ghost<OrderCtx>,
    Ghost(bind_jr): Ghost<Option<JournalRecord>>,
) -> (r: TransitionOutcome)
    requires
        fill_count > 0,
        bound(c0, venue_order_id) is Ok,
        *old(ctx) == (OrderCtx { last_venue_remaining_qty: Some(remaining_count), ..bound(c0, venue_order_id)->Ok_0 }),
        bind_jr matches Some(j) ==> j == (JournalRecord::VenueBoundCid {
            client_order_id: c0.client_order_id,
            venue_order_id,
        }),
        effects@ == record_effects(
            Some(
                JournalRecord::SubmitResponse {
                    venue_order_id,
                    fill_count,
                    remaining_count,
                    avg_price_cents,
                    fee_cents,
                    snapshot_boundary,
                },
            ),
        ) + record_effects(bind_jr),
        no_release(effects@),
        no_account_fill(effects@),
    ensures
        ctx_evolves(*old(ctx), *final(ctx)),
        outcome_sound(r, *final(ctx)),
        !(r is Reject),
        no_account_fill(outcome_effects(r)),
        fill_count > old(ctx).qty ==> halted_with(
            r,
            HaltReason::ObligationExceedsOrderQty { fill_obligation: fill_count, order_qty: old(ctx).qty },
            effects@,
        ),
        (fill_count <= old(ctx).qty && old(ctx).attributed_fill_qty == 0 && old(ctx).applied_fills.entries_view().len() == 0)
            ==> (r matches TransitionOutcome::Accept { new_state, effects: out } && new_state == (
        OrderState::ImmediateFillUnattributed {
            venue_order_id,
            response_fill_count: fill_count,
            response_remaining_count: remaining_count,
            response_avg_price_cents: avg_price_cents,
            response_fee_cents: fee_cents,
        }) && out@.len() >= 2 && out@.last() == (Effect::BackfillFills { venue_order_id })
            && out@[out@.len() - 2] == Effect::AppendFsync(
            JournalRecord::ImmediateFillUnattributed {
                venue_order_id,
                fill_count,
                remaining_count,
                avg_price_cents,
                fee_cents,
            },
        )),
        c0.fill_obligation <= c0.qty ==> step_replays(c0, r, *final(ctx)),
        // fills already attributed: the response is resolved against them at once
        (fill_count <= old(ctx).qty && old(ctx).attributed_fill_qty > 0) ==> {
            let c3 = response_taken(*old(ctx), fill_count, remaining_count, avg_price_cents, fee_cents, snapshot_boundary);
            let c2 = recomputed(evidence_noted(c3, fill_count).0);
            let e = effects@ + response_raise_journal(c3, fill_count);
            &&& domain_overfilled(c2) ==> *final(ctx) == c2 && (r matches TransitionOutcome::Halt {
                reason: HaltReason::CrossCheckMismatch { .. },
                ..
            })
            &&& !domain_overfilled(c2) ==> unattributed_resolved(
                c2,
                *final(ctx),
                venue_order_id,
                fill_count,
                remaining_count,
                avg_price_cents,
                fee_cents,
                e + seq![
                    Effect::AppendFsync(
                        JournalRecord::ImmediateFillUnattributed {
                            venue_order_id,
                            fill_count,
                            remaining_count,
                            avg_price_cents,
                            fee_cents,
                        },
                    ),
                    Effect::BackfillFills { venue_order_id },
                ],
                r,
            )
        },
{
    let ghost c1 = *ctx;
    let ghost sr = JournalRecord::SubmitResponse {
        venue_order_id,
        fill_count,
        remaining_count,
        avg_price_cents,
        fee_cents,
        snapshot_boundary,
    };
    let mut effects = effects;
    ctx.response_fill_count = Some(fill_count);
    ctx.response_remaining_count = Some(remaining_count);
    ctx.response_avg_price_cents = avg_price_cents;
    ctx.response_fee_cents = fee_cents;
    ctx.response_snapshot_boundary = snapshot_boundary;
    let ghost c3 = *ctx;
    assert(c3 == response_taken(c1, fill_count, remaining_count, avg_price_cents, fee_cents, snapshot_boundary));
    let ghost e_pre = effects@;
    let obl_before = ctx.fill_obligation;
    let epoch_before = ctx.authority_epoch;
    if let Err(reason) = ctx.raise_fill_obligation(fill_count) {
        let r = halt_with_reason(reason, effects);
        proof {
            let rest = record_effects(bind_jr) + seq![
                Effect::AppendFsync(JournalRecord::Halted { reason }),
                Effect::HaltNewExposure,
            ];
            assert(outcome_effects(r) =~= seq![Effect::AppendFsync(sr)] + rest);
            assert(fold_step(c0, sr, Err::<OrderCtx, HaltReason>(reason)));
            lemma_first_record_halts(c0, sr, rest, reason);
        }
        return r;
    }
    let ghost cr = *ctx;
    assert(cr == evidence_noted(c3, fill_count).0);
    let mut raised_jr: Option<JournalRecord> = None;
    if ctx.fill_obligation > obl_before {
        raised_jr = Some(
            JournalRecord::ObligationRaised {
                fill_obligation: ctx.fill_obligation,
                authority_epoch: ctx.authority_epoch,
            },
        );
    }
    let ghost g_raised = raised_jr;
    push_journal(&mut effects, raised_jr);
    let mut invalidated_jr: Option<JournalRecord> = None;
    if ctx.authority_epoch != epoch_before {
        invalidated_jr = Some(JournalRecord::AuthorityInvalidated { epoch: ctx.authority_epoch });
    }
    let ghost g_invalidated = invalidated_jr;
    push_journal(&mut effects, invalidated_jr);
    assert(effects@ =~= e_pre + response_raise_journal(c3, fill_count));
    recompute_response_domain(ctx);
    let ghost c2 = *ctx;
    assert(ctx_evolves(c1, c2));
    proof {
        lemma_response_replay(
            c0,
            c3,
            cr,
            c2,
            venue_order_id,
            fill_count,
            remaining_count,
            avg_price_cents,
            fee_cents,
            snapshot_boundary,
            bind_jr,
            g_raised,
            g_invalidated,
        );
        assert(effects@ =~= e_pre + record_effects(g_raised) + record_effects(g_invalidated));
    }
    let ghost e2 = effects@;
    if let Some(detail) = response_domain_overfill_detail(ctx) {
        let r = halt_with_reason(HaltReason::CrossCheckMismatch { detail }, effects);
        proof {
            lemma_journaled_after(c0, e2, c2, outcome_effects(r), c2);
        }
        return r;
    }
    let ifu = JournalRecord::ImmediateFillUnattributed {
        venue_order_id: venue_order_id.clone(),
        fill_count,
        remaining_count,
        avg_price_cents,
        fee_cents,
    };
    proof {
        assert(bound(c2, venue_order_id) == Ok::<OrderCtx, HaltReason>(c2));
        assert(fold_step(c2, ifu, Ok::<OrderCtx, HaltReason>(c2)));
        lemma_record_journaled(c2, ifu, c2);
        lemma_journaled_concat(c0, e2, c2, record_effects(Some(ifu)), c2);
    }
    push_effect(&mut effects, Effect::AppendFsync(ifu));
    let ghost e3 = effects@;
    push_effect(&mut effects, Effect::BackfillFills { venue_order_id: venue_order_id.clone() });
    proof {
        assert(e3 =~= e2 + record_effects(Some(ifu)));
        assert(effects@.subrange(0, e3.len() as int) =~= e3);
        lemma_journaled_after_free_ext(c2, e3, effects@);
        lemma_journaled_after(c0, e3, c2, effects@, c2);
    }
    if ctx.attributed_fill_qty > 0 {
        let ghost e4 = effects@;
        assert(e4 =~= e_pre + response_raise_journal(c3, fill_count) + seq![
            Effect::AppendFsync(ifu),
            Effect::BackfillFills { venue_order_id },
        ]);
        let r = resolve_unattributed(
            ctx,
            venue_order_id,
            fill_count,
            remaining_count,
            avg_price_cents,
            fee_cents,
            Vec::new(),
            effects,
        );
        proof {
            lemma_evolves_trans(c1, c2, *ctx);
            assert(Seq::<Effect>::empty() + e4 =~= e4);
            if c0.fill_obligation <= c0.qty {
                lemma_journaled_after(c0, e4, c2, outcome_effects(r), *ctx);
            }
        }
        return r;
    }
    accept(
        OrderState::ImmediateFillUnattributed {
            venue_order_id,
            response_fill_count: fill_count,
            response_remaining_count: remaining_count,
            response_avg_price_cents: avg_price_cents,
            response_fee_cents: fee_cents,
        },
        effects,
    )
}

/// Create response from `SubmitStarted`: bind the venue id, then zero-fill routing or
/// `ImmediateFillUnattributed` (response counts are cross-check only, never booked).
pub(crate) fn apply_submit_response(
    ctx: &mut OrderCtx,
    venue_order_id: VenueOrderId,
    fill_count: u64,
    remaining_count: u64,
    avg_price_cents: Option<u64>,
    fee_cents: Option<u64>,
    snapshot_boundary: Option<SnapshotBoundary>,
) -> (r: TransitionOutcome)
    ensures
        ctx_evolves(*old(ctx), *final(ctx)),
        outcome_sound(r, *final(ctx)),
        !(r is Reject),
        no_account_fill(outcome_effects(r)),
        response_post(
            *old(ctx),
            *final(ctx),
            venue_order_id,
            fill_count,
            remaining_count,
            avg_price_cents,
            fee_cents,
            snapshot_boundary,
            r,
        ),
        old(ctx).fill_obligation <= old(ctx).qty ==> step_replays(*old(ctx), r, *final(ctx)),
{
    let ghost c0 = *ctx;
    let ghost sr = JournalRecord::SubmitResponse {
        venue_order_id,
        fill_count,
        remaining_count,
        avg_price_cents,
        fee_cents,
        snapshot_boundary,
    };
    let bind_jr = match bind_venue_id(ctx, &venue_order_id) {
        Ok(jr) => jr,
        Err(reason) => {
            proof {
                assert(fold_step(c0, sr, Err::<OrderCtx, HaltReason>(reason)));
            }
            let effects = one_effect(
                Effect::AppendFsync(
                    submit_response_record(
                        &venue_order_id,
                        fill_count,
                        remaining_count,
                        avg_price_cents,
                        fee_cents,
                        snapshot_boundary,
                    ),
                ),
            );
            let r = halt_with_reason(reason, effects);
            proof {
                assert(outcome_effects(r) =~= seq![Effect::AppendFsync(sr)] + seq![
                    Effect::AppendFsync(JournalRecord::Halted { reason }),
                    Effect::HaltNewExposure,
                ]);
                lemma_first_record_halts(c0, sr, seq![
                    Effect::AppendFsync(JournalRecord::Halted { reason }),
                    Effect::HaltNewExposure,
                ], reason);
            }
            return r;
        },
    };
    let mut effects = one_effect(
        Effect::AppendFsync(
            submit_response_record(
                &venue_order_id,
                fill_count,
                remaining_count,
                avg_price_cents,
                fee_cents,
                snapshot_boundary,
            ),
        ),
    );
    push_journal(&mut effects, bind_jr);
    ctx.note_venue_remaining(remaining_count);
    let ghost c1 = *ctx;
    assert(ctx_evolves(c0, c1));
    let ghost pre = seq![response_effect(venue_order_id, fill_count, remaining_count, avg_price_cents, fee_cents, snapshot_boundary)]
        + first_bind_journal(c0, venue_order_id);
    assert(effects@ =~= pre);
    assert(c1 == OrderCtx { last_venue_remaining_qty: Some(remaining_count), ..bound(c0, venue_order_id)->Ok_0 });
    proof {
        assert(effects@ =~= record_effects(Some(sr)) + record_effects(bind_jr));
        if fill_count == 0 {
            assert(fold_step(c0, sr, Ok::<OrderCtx, HaltReason>(c1)));
            lemma_record_journaled(c0, sr, c1);
            assert(bound(c1, venue_order_id) == Ok::<OrderCtx, HaltReason>(c1));
            if bind_jr is Some {
                lemma_record_journaled(c1, bind_jr->0, c1);
            } else {
                lemma_journaled_refl(c1, record_effects(bind_jr));
            }
            lemma_journaled_concat(c0, record_effects(Some(sr)), c1, record_effects(bind_jr), c1);
        }
    }
    if fill_count == 0 {
        if ctx.attributed_fill_qty != 0 {
            if remaining_count == ctx.qty {
                let ghost e1 = effects@;
                let r = route_live_or_filled(ctx, venue_order_id, effects);
                proof {
                    lemma_evolves_trans(c0, c1, *ctx);
                    if c0.fill_obligation <= c0.qty {
                        lemma_journaled_after(c0, e1, c1, outcome_effects(r), *ctx);
                    }
                }
                return r;
            }
            let reason = HaltReason::ResponseZeroButLocalFills {
                attributed_fill_qty: ctx.attributed_fill_qty,
                remaining_count,
            };
            let ghost e1 = effects@;
            let r = halt_with_reason(reason, effects);
            proof {
                lemma_journaled_after(c0, e1, c1, outcome_effects(r), c1);
            }
            return r;
        }
        if remaining_count != ctx.qty {
            if remaining_count == 0 {
                let ghost e1 = effects@;
                let jr = note_authority_complete(ctx, true);
                push_journal(&mut effects, jr);
                let r = try_finalize_terminal(
                    ctx,
                    ProposedTerminal::Canceled,
                    venue_order_id,
                    effects,
                    ReconcileTerminal::Canceled,
                );
                proof {
                    if finalize_pass(*ctx, ProposedTerminal::Canceled) {
                        assert(r->Accept_effects@ =~= e1 + seq![
                            Effect::AppendFsync(JournalRecord::AuthorityLatched { epoch: c1.authority_epoch }),
                        ] + seq![
                            Effect::AppendFsync(terminal_record(*ctx, ProposedTerminal::Canceled)),
                            Effect::ReleaseReservation,
                        ]);
                    }
                    if c0.fill_obligation <= c0.qty {
                        lemma_journaled_after_record(c1, e1, jr, *ctx);
                        lemma_journaled_after_trans(c1, e1, effects@, *ctx, outcome_effects(r), *ctx);
                        lemma_journaled_after(c0, e1, c1, outcome_effects(r), *ctx);
                    }
                }
                return r;
            }
            let reason = HaltReason::CrossCheckMismatch {
                detail: text2(
                    "fill_count=0 remaining_count=",
                    remaining_count as u128,
                    " != order_qty=",
                    ctx.qty as u128,
                ),
            };
            let ghost e1 = effects@;
            let r = halt_with_reason(reason, effects);
            proof {
                lemma_journaled_after(c0, e1, c1, outcome_effects(r), c1);
            }
            return r;
        }
        return accept(OrderState::Accepted { venue_order_id }, effects);
    }
    let r = response_with_fills(
        ctx,
        venue_order_id,
        fill_count,
        remaining_count,
        avg_price_cents,
        fee_cents,
        snapshot_boundary,
        effects,
        Ghost(c0),
        Ghost(bind_jr),
    );
    proof {
        lemma_evolves_trans(c0, c1, *ctx);
    }
    r
}

/// Booking the fill records `fills` in order from `c` ends in `cf`: each is
/// booked exactly as [`attempt_exact`] says, and the first refusal stops the batch
/// with its reason (`r`), the context as that fill found it.
pub open spec fn batch_booked(c: OrderCtx, fills: Seq<FillRecord>, cf: OrderCtx, r: Option<HaltReason>) -> bool
    decreases fills.len(),
{
    if fills.len() == 0 {
        cf == c && r is None
    } else {
        let f = fills[0];
        exists|a: AccountAttempt, c1: OrderCtx|
            #[trigger] attempt_exact(c, c1, f.fill_id, f.qty, f.price_cents, f.ts_ns, f.venue_order_id, f.fee_cents, false, a)
                && if a is Halt {
                cf == c1 && r == Some(a->Halt_reason)
            } else {
                batch_booked(c1, fills.drop_first(), cf, r)
            }
    }
}

/// Book a batch of fill records; the first halt stops the batch.
pub(crate) fn account_fill_batch(ctx: &mut OrderCtx, fills: &[FillRecord], effects: &mut Vec<Effect>) -> (r:
    Option<HaltReason>)
    requires
        no_release(old(effects)@),
    ensures
        ctx_evolves(*old(ctx), *final(ctx)),
        no_release(final(effects)@),
        journaled_after(*old(ctx), old(effects)@, final(effects)@, *final(ctx)),
        final(ctx).response_avg_price_cents == old(ctx).response_avg_price_cents,
        final(ctx).response_fee_cents == old(ctx).response_fee_cents,
        fills@.len() == 0 ==> *final(ctx) == *old(ctx) && final(effects)@ == old(effects)@ && r is None,
        final(ctx).last_venue_remaining_qty == old(ctx).last_venue_remaining_qty,
        batch_booked(*old(ctx), fills@, *final(ctx), r),
{
    let ghost c0 = *ctx;
    let ghost e0 = effects@;
    proof {
        lemma_journaled_after_refl(c0, e0);
    }
    proof {
        assert(fills@.subrange(0, fills@.len() as int) =~= fills@);
    }
    let mut i: usize = 0;
    while i < fills.len()
        invariant
            i <= fills@.len(),
            ctx_evolves(c0, *ctx),
            c0 == *old(ctx),
            e0 == old(effects)@,
            no_release(effects@),
            journaled_after(c0, e0, effects@, *ctx),
            ctx.response_avg_price_cents == c0.response_avg_price_cents,
            ctx.response_fee_cents == c0.response_fee_cents,
            fills@.len() == 0 ==> *ctx == c0 && effects@ == e0,
            ctx.last_venue_remaining_qty == c0.last_venue_remaining_qty,
            forall|cf: OrderCtx, r: Option<HaltReason>|
                #[trigger] batch_booked(*ctx, fills@.subrange(i as int, fills@.len() as int), cf, r) ==> batch_booked(
                    c0,
                    fills@,
                    cf,
                    r,
                ),
        decreases fills@.len() - i,
    {
        let ghost before = *ctx;
        let ghost eb = effects@;
        let attempt = try_account_fill_record(ctx, &fills[i]);
        let ghost ga = attempt;
        proof {
            lemma_evolves_trans(c0, before, *ctx);
            let f = fills@[i as int];
            law_fill_booking_journaled(before, *ctx, f.fill_id, f.qty, f.price_cents, f.ts_ns, f.venue_order_id, f.fee_cents, ga);
            lemma_journaled_after_append(before, eb, attempt_effects(ga), *ctx);
            lemma_journaled_after_trans(c0, e0, eb, before, eb + attempt_effects(ga), *ctx);
        }
        match attempt {
            AccountAttempt::NoOp => {
                proof {
                    assert(eb + attempt_effects(ga) =~= eb);
                }
            },
            AccountAttempt::Applied { effects: e } | AccountAttempt::Enriched { effects: e } => {
                let mut e = e;
                proof {
                    lemma_no_release_concat(effects@, e@);
                }
                effects.append(&mut e);
            },
            AccountAttempt::Halt { reason, effects: e } => {
                let mut e = e;
                proof {
                    lemma_no_release_concat(effects@, e@);
                    lemma_batch_step(before, fills@, i as int, ga, *ctx, *ctx, Some(reason));
                }
                effects.append(&mut e);
                return Some(reason);
            },
        }
        proof {
            assert forall|cf: OrderCtx, r: Option<HaltReason>|
                #[trigger] batch_booked(*ctx, fills@.subrange(i + 1, fills@.len() as int), cf, r) implies batch_booked(
                    c0,
                    fills@,
                    cf,
                    r,
                ) by {
                lemma_batch_step(before, fills@, i as int, ga, *ctx, cf, r);
            }
        }
        i = i + 1;
    }
    proof {
        assert(fills@.subrange(i as int, fills@.len() as int).len() == 0);
        assert(batch_booked(*ctx, fills@.subrange(i as int, fills@.len() as int), *ctx, None));
    }
    None
}

/// One more booked fill extends a batch.
proof fn lemma_batch_step(
    c: OrderCtx,
    fills: Seq<FillRecord>,
    i: int,
    a: AccountAttempt,
    c1: OrderCtx,
    cf: OrderCtx,
    r: Option<HaltReason>,
)
    requires
        0 <= i < fills.len(),
        attempt_exact(
            c,
            c1,
            fills[i].fill_id,
            fills[i].qty,
            fills[i].price_cents,
            fills[i].ts_ns,
            fills[i].venue_order_id,
            fills[i].fee_cents,
            false,
            a,
        ),
        a is Halt ==> cf == c1 && r == Some(a->Halt_reason),
        !(a is Halt) ==> batch_booked(c1, fills.subrange(i + 1, fills.len() as int), cf, r),
    ensures
        batch_booked(c, fills.subrange(i, fills.len() as int), cf, r),
{
    let s = fills.subrange(i, fills.len() as int);
    assert(s[0] == fills[i]);
    assert(s.drop_first() =~= fills.subrange(i + 1, fills.len() as int));
}

/// Apply fills under `ImmediateFillUnattributed`, then cross-check against the response.
pub(crate) fn apply_immediate_fill_backfill(
    ctx: &mut OrderCtx,
    venue_order_id: &VenueOrderId,
    response_fill_count: u64,
    response_remaining_count: u64,
    response_avg_price_cents: Option<u64>,
    response_fee_cents: Option<u64>,
    fills: &[FillRecord],
) -> (r: TransitionOutcome)
    ensures
        ctx_evolves(*old(ctx), *final(ctx)),
        outcome_sound(r, *final(ctx)),
        !(r is Reject),
        r is Accept ==> unattributed_routed(
            *final(ctx),
            *venue_order_id,
            response_fill_count,
            response_remaining_count,
            response_avg_price_cents,
            response_fee_cents,
            r->Accept_new_state,
        ),
        (old(ctx).fill_obligation <= old(ctx).qty && (old(ctx).response_avg_price_cents is Some
            || response_avg_price_cents is None) && (old(ctx).response_fee_cents is Some || response_fee_cents is None))
            ==> journaled(*old(ctx), outcome_effects(r), *final(ctx)),
{
    let ghost c0 = *ctx;
    let mut effects: Vec<Effect> = Vec::new();
    match bind_venue_id(ctx, venue_order_id) {
        Ok(jr) => {
            push_journal(&mut effects, jr);
            proof {
                assert(effects@ =~= record_effects(jr));
            }
        },
        Err(reason) => {
            let r = halt_with_reason(reason, Vec::new());
            proof {
                lemma_journaled_refl(c0, Seq::<Effect>::empty());
                lemma_journaled_after(c0, Seq::<Effect>::empty(), c0, outcome_effects(r), c0);
            }
            return r;
        },
    }
    let ghost c1 = *ctx;
    let ghost e1 = effects@;
    if let Some(reason) = account_fill_batch(ctx, fills, &mut effects) {
        proof {
            lemma_evolves_trans(c0, c1, *ctx);
            lemma_journaled_after(c0, e1, c1, effects@, *ctx);
        }
        let ghost e2 = effects@;
        let r = halt_with_reason(reason, effects);
        proof {
            lemma_journaled_after(c0, e2, *ctx, outcome_effects(r), *ctx);
        }
        return r;
    }
    let ghost c2 = *ctx;
    proof {
        lemma_evolves_trans(c0, c1, c2);
        lemma_journaled_after(c0, e1, c1, effects@, c2);
    }
    let ghost e2 = effects@;
    let r = resolve_unattributed(
        ctx,
        venue_order_id.clone(),
        response_fill_count,
        response_remaining_count,
        response_avg_price_cents,
        response_fee_cents,
        effects,
        Vec::new(),
    );
    proof {
        lemma_evolves_trans(c0, c2, *ctx);
        assert(e2 + Seq::<Effect>::empty() =~= e2);
        if c0.fill_obligation <= c0.qty && (c0.response_avg_price_cents is Some || response_avg_price_cents is None)
            && (c0.response_fee_cents is Some || response_fee_cents is None) {
            lemma_journaled_after(c0, e2, c2, outcome_effects(r), *ctx);
        }
    }
    r
}

/// Cross-check the attributed fills against the response snapshot (domain-scoped
/// with a reliable boundary, obligation-only otherwise), then route.
pub(crate) fn resolve_unattributed(
    ctx: &mut OrderCtx,
    venue_order_id: VenueOrderId,
    response_fill_count: u64,
    response_remaining_count: u64,
    response_avg_price_cents: Option<u64>,
    response_fee_cents: Option<u64>,
    prior_effects: Vec<Effect>,
    enter_effects: Vec<Effect>,
) -> (r: TransitionOutcome)
    requires
        no_release(prior_effects@),
        no_release(enter_effects@),
    ensures
        ctx_evolves(*old(ctx), *final(ctx)),
        outcome_sound(r, *final(ctx)),
        !(r is Reject),
        (no_account_fill(prior_effects@) && no_account_fill(enter_effects@)) ==> no_account_fill(outcome_effects(r)),
        r is Accept ==> unattributed_routed(
            *final(ctx),
            venue_order_id,
            response_fill_count,
            response_remaining_count,
            response_avg_price_cents,
            response_fee_cents,
            r->Accept_new_state,
        ),
        (old(ctx).fill_obligation <= old(ctx).qty && (old(ctx).response_avg_price_cents is Some
            || response_avg_price_cents is None) && (old(ctx).response_fee_cents is Some || response_fee_cents is None))
            ==> journaled_after(*old(ctx), prior_effects@ + enter_effects@, outcome_effects(r), *final(ctx)),
        unattributed_resolved(
            *old(ctx),
            *final(ctx),
            venue_order_id,
            response_fill_count,
            response_remaining_count,
            response_avg_price_cents,
            response_fee_cents,
            prior_effects@ + enter_effects@,
            r,
        ),
{
    let ghost pe = prior_effects@ + enter_effects@;
    proof {
        lemma_journaled_after_refl(*ctx, pe);
    }
    let mut prior_effects = prior_effects;
    let mut enter_effects = enter_effects;
    proof {
        lemma_no_release_concat(prior_effects@, enter_effects@);
        if no_account_fill(prior_effects@) && no_account_fill(enter_effects@) {
            lemma_no_account_fill_concat(prior_effects@, enter_effects@);
        }
    }
    let unattributed = OrderState::ImmediateFillUnattributed {
        venue_order_id: venue_order_id.clone(),
        response_fill_count,
        response_remaining_count,
        response_avg_price_cents,
        response_fee_cents,
    };
    let has_boundary = has_reliable_boundary(ctx);
    if has_boundary {
        if ctx.response_domain_qty < response_fill_count {
            prior_effects.append(&mut enter_effects);
            return accept(unattributed, prior_effects);
        }
        if ctx.response_domain_qty != response_fill_count {
            let implied_remaining = ctx.qty.saturating_sub(ctx.response_domain_qty);
            let reason = HaltReason::ImmediateFillCrossCheckMismatch {
                response_fill_count,
                attributed_fill_qty: ctx.response_domain_qty,
                response_remaining_count,
                implied_remaining,
            };
            prior_effects.append(&mut enter_effects);
            return halt_with_reason(reason, prior_effects);
        }
        let response_implied_remaining = ctx.qty.saturating_sub(response_fill_count);
        if response_implied_remaining != response_remaining_count {
            let reason = HaltReason::ImmediateFillCrossCheckMismatch {
                response_fill_count,
                attributed_fill_qty: ctx.response_domain_qty,
                response_remaining_count,
                implied_remaining: response_implied_remaining,
            };
            prior_effects.append(&mut enter_effects);
            return halt_with_reason(reason, prior_effects);
        }
    } else {
        if ctx.attributed_fill_qty < response_fill_count {
            prior_effects.append(&mut enter_effects);
            return accept(unattributed, prior_effects);
        }
        if ctx.remaining_qty_checked().is_none() {
            prior_effects.append(&mut enter_effects);
            return halt_with_reason(
                HaltReason::OverFill {
                    attributed_fill_qty: ctx.attributed_fill_qty,
                    fill_qty: 0,
                    order_qty: ctx.qty,
                },
                prior_effects,
            );
        }
    }
    if has_boundary && ctx.response_domain_qty == response_fill_count {
        let resp_avg = match response_avg_price_cents {
            Some(a) => Some(a),
            None => ctx.response_avg_price_cents,
        };
        if let Some(avg) = resp_avg {
            if let Some(detail) = notional_avg_mismatch(
                ctx.response_domain_notional_cents,
                avg,
                response_fill_count,
            ) {
                prior_effects.append(&mut enter_effects);
                return halt_with_reason(HaltReason::CrossCheckMismatch { detail }, prior_effects);
            }
        }
        let resp_fee = match response_fee_cents {
            Some(f) => Some(f),
            None => ctx.response_fee_cents,
        };
        if let Some(detail) = fee_cross_check_mismatch(resp_fee, ctx.response_domain_fee_cents) {
            prior_effects.append(&mut enter_effects);
            return halt_with_reason(HaltReason::CrossCheckMismatch { detail }, prior_effects);
        }
    }
    if ctx.response_avg_price_cents.is_none() {
        ctx.response_avg_price_cents = response_avg_price_cents;
    }
    if ctx.response_fee_cents.is_none() {
        ctx.response_fee_cents = response_fee_cents;
    }
    let ghost c1 = *ctx;
    assert(!awaiting_attribution(c1, response_fill_count));
    prior_effects.append(&mut enter_effects);
    let r = route_live_or_filled(ctx, venue_order_id, prior_effects);
    proof {
        lemma_evolves_trans(*old(ctx), c1, *ctx);
        if old(ctx).fill_obligation <= old(ctx).qty && (old(ctx).response_avg_price_cents is Some
            || response_avg_price_cents is None) && (old(ctx).response_fee_cents is Some || response_fee_cents is None) {
            assert(c1 == *old(ctx));
        }
    }
    r
}

} // verus!
