//! Crash restart: fold durable journal records back into an `OrderCtx`.

use vstd::prelude::*;

use super::account::{
    bind_venue_id, bound, domain_zeroed, foreign_fill_at, lemma_domain_fold_fields,
    lemma_domain_fold_frame, max_u64, recompute_response_domain, recomputed,
    restore_fill_obligation,
};
use super::ctx::{invalidated, OrderCtx};
use super::fills::{
    attempt_exact, event_payload, existing_refused, existing_upgrades, fee_or_zero, fill_replayed,
    fills_updated, live_new_effects, new_fill_admitted, try_account_fill_for_fold, upgraded_payload,
    AccountAttempt,
};
use super::apply::cancel_request_journal;
use super::outcome::{outcome_effects, TransitionOutcome};
use super::finalize::{finalize_pass, terminal_record, ProposedTerminal};
use super::types::{
    payload_same, same_opt_venue, Effect, FillId, FillPayload, HaltReason, JournalRecord,
    SnapshotBoundary, VenueOrderId,
};

verus! {

// ─── One record ──────────────────────────────────────────────────────────────

/// Restoring the fill obligation from durable evidence (never above the order qty).
pub open spec fn restored(c: OrderCtx, evidence: u64) -> Result<OrderCtx, HaltReason> {
    if evidence > c.qty {
        Err(HaltReason::ObligationExceedsOrderQty { fill_obligation: evidence, order_qty: c.qty })
    } else {
        Ok(
            OrderCtx {
                fill_obligation: if evidence > c.fill_obligation {
                    evidence
                } else {
                    c.fill_obligation
                },
                ..c
            },
        )
    }
}

/// Raised obligation with lag clears live authority.
pub open spec fn lag_clears(c: OrderCtx) -> OrderCtx {
    if c.attributed_fill_qty < c.fill_obligation {
        OrderCtx { authority_complete: false, ..c }
    } else {
        c
    }
}

pub open spec fn after_submit_response(
    c: OrderCtx,
    venue_order_id: VenueOrderId,
    fill_count: u64,
    remaining_count: u64,
    avg_price_cents: Option<u64>,
    fee_cents: Option<u64>,
    snapshot_boundary: Option<SnapshotBoundary>,
) -> Result<OrderCtx, HaltReason> {
    match bound(c, venue_order_id) {
        Err(e) => Err(e),
        Ok(c1) => {
            let c2 = OrderCtx { last_venue_remaining_qty: Some(remaining_count), ..c1 };
            if fill_count > 0 {
                let c3 = OrderCtx {
                    response_fill_count: Some(fill_count),
                    response_remaining_count: Some(remaining_count),
                    response_avg_price_cents: avg_price_cents,
                    response_fee_cents: fee_cents,
                    response_snapshot_boundary: snapshot_boundary,
                    ..c2
                };
                match restored(c3, fill_count) {
                    Err(e) => Err(e),
                    Ok(c4) => Ok(recomputed(c4)),
                }
            } else {
                Ok(c2)
            }
        },
    }
}

pub open spec fn after_immediate_unattributed(
    c: OrderCtx,
    venue_order_id: VenueOrderId,
    fill_count: u64,
    remaining_count: u64,
    avg_price_cents: Option<u64>,
    fee_cents: Option<u64>,
) -> Result<OrderCtx, HaltReason> {
    match bound(c, venue_order_id) {
        Err(e) => Err(e),
        Ok(c1) => restored(
            OrderCtx {
                response_fill_count: Some(fill_count),
                response_remaining_count: Some(remaining_count),
                response_avg_price_cents: avg_price_cents,
                response_fee_cents: fee_cents,
                last_venue_remaining_qty: Some(remaining_count),
                ..c1
            },
            fill_count,
        ),
    }
}

pub open spec fn after_obligation_raised(c: OrderCtx, fill_obligation: u64, epoch: u64) -> Result<
    OrderCtx,
    HaltReason,
> {
    match restored(c, fill_obligation) {
        Err(e) => Err(e),
        Ok(c1) => Ok(lag_clears(OrderCtx { authority_epoch: max_u64(epoch, c1.authority_epoch), ..c1 })),
    }
}

pub open spec fn after_reconcile_observed(
    c: OrderCtx,
    venue_order_id: VenueOrderId,
    venue_filled_qty: u64,
    venue_remaining_qty: u64,
    shell_authority_complete: bool,
    epoch: u64,
) -> Result<OrderCtx, HaltReason> {
    match bound(c, venue_order_id) {
        Err(e) => Err(e),
        Ok(c1) => {
            let c2 = OrderCtx {
                last_venue_remaining_qty: Some(venue_remaining_qty),
                authority_epoch: max_u64(epoch, c1.authority_epoch),
                ..c1
            };
            if venue_filled_qty > c2.qty {
                Ok(c2)
            } else {
                match restored(c2, venue_filled_qty) {
                    Err(e) => Err(e),
                    Ok(c3) => if shell_authority_complete {
                        Ok(
                            OrderCtx {
                                authority_complete: true,
                                authority_latched_epoch: c3.authority_epoch,
                                ..c3
                            },
                        )
                    } else {
                        Ok(lag_clears(c3))
                    },
                }
            }
        },
    }
}

pub open spec fn after_order_terminal(
    c: OrderCtx,
    venue_order_id: Option<VenueOrderId>,
    fill_obligation: u64,
    authority_complete: bool,
    epoch: u64,
    attributed_fill_qty: u64,
    attributed_fee_cents: u64,
) -> Result<OrderCtx, HaltReason> {
    let b = match venue_order_id {
        Some(v) => bound(c, v),
        None => Ok(c),
    };
    match b {
        Err(e) => Err(e),
        Ok(c1) => match restored(c1, fill_obligation) {
            Err(e) => Err(e),
            Ok(c2) => {
                let c3 = OrderCtx { authority_epoch: max_u64(epoch, c2.authority_epoch), ..c2 };
                let c4 = if authority_complete {
                    OrderCtx { authority_complete: true, authority_latched_epoch: epoch, ..c3 }
                } else {
                    c3
                };
                Ok(
                    OrderCtx {
                        attributed_fill_qty: max_u64(attributed_fill_qty, c4.attributed_fill_qty),
                        attributed_fee_cents: max_u64(attributed_fee_cents, c4.attributed_fee_cents),
                        ..c4
                    },
                )
            },
        },
    }
}

/// Folding one record into `c` may give `r`. Every record has one result, up to
/// the stored order of the fill map: a fill is booked in restore mode; a fee
/// correction fills in a missing fee once.
pub open spec fn fold_step(c: OrderCtx, rec: JournalRecord, r: Result<OrderCtx, HaltReason>) -> bool {
    match rec {
        JournalRecord::SubmitPrepared { client_order_id } => r == Ok::<OrderCtx, HaltReason>(
            OrderCtx { client_order_id, ..c },
        ),
        JournalRecord::SubmitResponse {
            venue_order_id,
            fill_count,
            remaining_count,
            avg_price_cents,
            fee_cents,
            snapshot_boundary,
        } => r == after_submit_response(
            c,
            venue_order_id,
            fill_count,
            remaining_count,
            avg_price_cents,
            fee_cents,
            snapshot_boundary,
        ),
        JournalRecord::Fill { fill_id, qty, price_cents, ts_ns, fee_cents, venue_order_id } => fill_replayed(
            c,
            fill_id,
            qty,
            price_cents,
            ts_ns,
            venue_order_id,
            fee_cents,
            r,
        ),
        JournalRecord::FeeCorrection { fill_id, delta_fee_cents } => match c.applied_fills.lookup(fill_id.0@) {
            Some(p) => if p.fee is None {
                if c.attributed_fee_cents + delta_fee_cents > u64::MAX {
                    r == Err::<OrderCtx, HaltReason>(HaltReason::FeeOverflow { fill_id })
                } else {
                    r matches Ok(c1) && c1 == (OrderCtx {
                        attributed_fee_cents: (c.attributed_fee_cents + delta_fee_cents) as u64,
                        applied_fills: c1.applied_fills,
                        ..c
                    }) && fills_updated(
                        c.applied_fills,
                        c1.applied_fills,
                        fill_id,
                        FillPayload { fee: Some(delta_fee_cents), ..p },
                    )
                }
            } else {
                r == Ok::<OrderCtx, HaltReason>(c)
            },
            None => r == Ok::<OrderCtx, HaltReason>(c),
        },
        JournalRecord::CancelRequested
        | JournalRecord::CancelOutcome(_)
        | JournalRecord::CancelRequestedCid { .. }
        | JournalRecord::CancelOutcomeCid { .. } => r == Ok::<OrderCtx, HaltReason>(
            if c.authority_complete {
                invalidated(c)
            } else {
                c
            },
        ),
        JournalRecord::ImmediateFillUnattributed {
            venue_order_id,
            fill_count,
            remaining_count,
            avg_price_cents,
            fee_cents,
        } => r == after_immediate_unattributed(
            c,
            venue_order_id,
            fill_count,
            remaining_count,
            avg_price_cents,
            fee_cents,
        ),
        JournalRecord::VenueBound { venue_order_id } => r == bound(c, venue_order_id),
        JournalRecord::VenueBoundCid { venue_order_id, .. } => r == bound(c, venue_order_id),
        JournalRecord::ObligationRaised { fill_obligation, authority_epoch } => r == after_obligation_raised(
            c,
            fill_obligation,
            authority_epoch,
        ),
        JournalRecord::AuthorityLatched { epoch } => r == Ok::<OrderCtx, HaltReason>(
            OrderCtx {
                authority_epoch: max_u64(epoch, c.authority_epoch),
                authority_complete: true,
                authority_latched_epoch: epoch,
                ..c
            },
        ),
        JournalRecord::AuthorityInvalidated { epoch } => r == Ok::<OrderCtx, HaltReason>(
            OrderCtx { authority_epoch: max_u64(epoch, c.authority_epoch), authority_complete: false, ..c },
        ),
        JournalRecord::ReconcileObserved {
            venue_order_id,
            venue_filled_qty,
            venue_remaining_qty,
            shell_authority_complete,
            authority_epoch,
        } => r == after_reconcile_observed(
            c,
            venue_order_id,
            venue_filled_qty,
            venue_remaining_qty,
            shell_authority_complete,
            authority_epoch,
        ),
        JournalRecord::OrderTerminal {
            venue_order_id,
            fill_obligation,
            authority_complete,
            authority_epoch,
            attributed_fill_qty,
            attributed_fee_cents,
            ..
        } => r == after_order_terminal(
            c,
            venue_order_id,
            fill_obligation,
            authority_complete,
            authority_epoch,
            attributed_fill_qty,
            attributed_fee_cents,
        ),
        JournalRecord::SubmitStarted { .. }
        | JournalRecord::SubmitUnknown
        | JournalRecord::ImmediateFillUnresolved
        | JournalRecord::UnknownNoMatch
        | JournalRecord::Halted { .. } => r == Ok::<OrderCtx, HaltReason>(c),
    }
}

/// Folding `recs` in order from `base` succeeds with `c`.
pub open spec fn reaches(base: OrderCtx, recs: Seq<JournalRecord>, c: OrderCtx) -> bool
    decreases recs.len(),
{
    if recs.len() == 0 {
        c == base
    } else {
        exists|m: OrderCtx|
            #![trigger fold_step(m, recs.last(), Ok::<OrderCtx, HaltReason>(c))]
            reaches(base, recs.drop_last(), m) && fold_step(m, recs.last(), Ok::<OrderCtx, HaltReason>(c))
    }
}

// ─── The fold is deterministic ───────────────────────────────────────────────

/// Two contexts agree field by field, the fill map entry by entry.
pub open spec fn same_ctx(a: OrderCtx, b: OrderCtx) -> bool {
    &&& a == (OrderCtx { applied_fills: a.applied_fills, ..b })
    &&& a.applied_fills.entries_view() == b.applied_fills.entries_view()
}

proof fn lemma_bound_det(a: OrderCtx, b: OrderCtx, v: VenueOrderId)
    requires
        same_ctx(a, b),
    ensures
        (bound(a, v) is Ok) == (bound(b, v) is Ok),
        bound(a, v) is Ok ==> same_ctx(bound(a, v)->Ok_0, bound(b, v)->Ok_0),
{
    let n = a.applied_fills.entries_view().len();
    assert forall|i: int| foreign_fill_at(a, i, v.0@) == #[trigger] foreign_fill_at(b, i, v.0@) by {}
    let fa = forall|i: int| 0 <= i < n ==> !foreign_fill_at(a, i, v.0@);
    let fb = forall|i: int| 0 <= i < n ==> !foreign_fill_at(b, i, v.0@);
    if fa {
        assert forall|i: int| 0 <= i < n implies !foreign_fill_at(b, i, v.0@) by {
            assert(!foreign_fill_at(a, i, v.0@));
        }
    }
    if fb {
        assert forall|i: int| 0 <= i < n implies !foreign_fill_at(a, i, v.0@) by {
            assert(!foreign_fill_at(b, i, v.0@));
        }
    }
    assert(fa == fb);
}

proof fn lemma_recomputed_det(a: OrderCtx, b: OrderCtx)
    requires
        same_ctx(a, b),
    ensures
        same_ctx(recomputed(a), recomputed(b)),
{
    let f = a.applied_fills.entries_view();
    lemma_domain_fold_frame(domain_zeroed(a), domain_zeroed(b), f);
    lemma_domain_fold_fields(domain_zeroed(a), f);
    lemma_domain_fold_fields(domain_zeroed(b), f);
}

proof fn lemma_restored_det(a: OrderCtx, b: OrderCtx, e: u64)
    requires
        same_ctx(a, b),
    ensures
        (restored(a, e) is Ok) == (restored(b, e) is Ok),
        restored(a, e) is Ok ==> same_ctx(restored(a, e)->Ok_0, restored(b, e)->Ok_0),
{
}

/// Folding one record is deterministic: from agreeing contexts, a successful
/// fold on one succeeds on the other with an agreeing result.
pub proof fn lemma_fold_step_det(
    a: OrderCtx,
    b: OrderCtx,
    rec: JournalRecord,
    x: OrderCtx,
    rb: Result<OrderCtx, HaltReason>,
)
    requires
        same_ctx(a, b),
        fold_step(a, rec, Ok::<OrderCtx, HaltReason>(x)),
        fold_step(b, rec, rb),
    ensures
        rb matches Ok(y) && same_ctx(x, y),
{
    assert forall|k: Seq<char>| #[trigger] a.applied_fills.lookup(k) == b.applied_fills.lookup(k) by {}
    match rec {
        JournalRecord::SubmitResponse {
            venue_order_id,
            fill_count,
            remaining_count,
            avg_price_cents,
            fee_cents,
            snapshot_boundary,
        } => {
            lemma_bound_det(a, b, venue_order_id);
            let a1 = bound(a, venue_order_id)->Ok_0;
            let b1 = bound(b, venue_order_id)->Ok_0;
            let a3 = OrderCtx {
                response_fill_count: Some(fill_count),
                response_remaining_count: Some(remaining_count),
                response_avg_price_cents: avg_price_cents,
                response_fee_cents: fee_cents,
                response_snapshot_boundary: snapshot_boundary,
                last_venue_remaining_qty: Some(remaining_count),
                ..a1
            };
            let b3 = OrderCtx {
                response_fill_count: Some(fill_count),
                response_remaining_count: Some(remaining_count),
                response_avg_price_cents: avg_price_cents,
                response_fee_cents: fee_cents,
                response_snapshot_boundary: snapshot_boundary,
                last_venue_remaining_qty: Some(remaining_count),
                ..b1
            };
            if fill_count > 0 {
                lemma_restored_det(a3, b3, fill_count);
                lemma_recomputed_det(restored(a3, fill_count)->Ok_0, restored(b3, fill_count)->Ok_0);
            }
        },
        JournalRecord::Fill { fill_id, qty, price_cents, ts_ns, fee_cents, venue_order_id } => {
            assert(a.applied_fills.with_entry(fill_id, event_payload(qty, price_cents, ts_ns, venue_order_id, fee_cents))
                == b.applied_fills.with_entry(fill_id, event_payload(qty, price_cents, ts_ns, venue_order_id, fee_cents)));
            match a.applied_fills.lookup(fill_id.0@) {
                Some(prev) => {
                    assert(a.applied_fills.with_entry(fill_id, upgraded_payload(prev, venue_order_id, fee_cents))
                        == b.applied_fills.with_entry(fill_id, upgraded_payload(prev, venue_order_id, fee_cents)));
                },
                None => {},
            }
        },
        JournalRecord::FeeCorrection { fill_id, delta_fee_cents } => {
            match a.applied_fills.lookup(fill_id.0@) {
                Some(p) => {
                    assert(a.applied_fills.with_entry(fill_id, FillPayload { fee: Some(delta_fee_cents), ..p })
                        == b.applied_fills.with_entry(fill_id, FillPayload { fee: Some(delta_fee_cents), ..p }));
                },
                None => {},
            }
        },
        JournalRecord::ImmediateFillUnattributed { venue_order_id, fill_count, .. } => {
            lemma_bound_det(a, b, venue_order_id);
        },
        JournalRecord::VenueBound { venue_order_id } => {
            lemma_bound_det(a, b, venue_order_id);
        },
        JournalRecord::VenueBoundCid { venue_order_id, .. } => {
            lemma_bound_det(a, b, venue_order_id);
        },
        JournalRecord::ReconcileObserved { venue_order_id, .. } => {
            lemma_bound_det(a, b, venue_order_id);
        },
        JournalRecord::OrderTerminal { venue_order_id, .. } => {
            if venue_order_id is Some {
                lemma_bound_det(a, b, venue_order_id->0);
            }
        },
        _ => {},
    }
}

/// Folding a journal is deterministic: two contexts it reaches agree.
pub proof fn lemma_reaches_det(base: OrderCtx, recs: Seq<JournalRecord>, x: OrderCtx, y: OrderCtx)
    requires
        reaches(base, recs, x),
        reaches(base, recs, y),
    ensures
        same_ctx(x, y),
    decreases recs.len(),
{
    if recs.len() > 0 {
        let mx = choose|m: OrderCtx|
            #![trigger fold_step(m, recs.last(), Ok::<OrderCtx, HaltReason>(x))]
            reaches(base, recs.drop_last(), m) && fold_step(m, recs.last(), Ok::<OrderCtx, HaltReason>(x));
        let my = choose|m: OrderCtx|
            #![trigger fold_step(m, recs.last(), Ok::<OrderCtx, HaltReason>(y))]
            reaches(base, recs.drop_last(), m) && fold_step(m, recs.last(), Ok::<OrderCtx, HaltReason>(y));
        lemma_reaches_det(base, recs.drop_last(), mx, my);
        lemma_fold_step_det(mx, my, recs.last(), x, Ok::<OrderCtx, HaltReason>(y));
    }
}

/// A journal that replays has every prefix replaying, each next record folding.
pub proof fn lemma_reaches_prefix(base: OrderCtx, recs: Seq<JournalRecord>, c: OrderCtx, i: int)
    requires
        reaches(base, recs, c),
        0 <= i < recs.len(),
    ensures
        exists|m: OrderCtx, m2: OrderCtx|
            reaches(base, recs.subrange(0, i), m) && #[trigger] fold_step(m, recs[i], Ok::<OrderCtx, HaltReason>(m2)),
    decreases recs.len(),
{
    let m = choose|m: OrderCtx|
        #![trigger fold_step(m, recs.last(), Ok::<OrderCtx, HaltReason>(c))]
        reaches(base, recs.drop_last(), m) && fold_step(m, recs.last(), Ok::<OrderCtx, HaltReason>(c));
    if i == recs.len() - 1 {
        assert(recs.drop_last() =~= recs.subrange(0, i));
        assert(fold_step(m, recs[i], Ok::<OrderCtx, HaltReason>(c)));
    } else {
        lemma_reaches_prefix(base, recs.drop_last(), m, i);
        assert(recs.drop_last().subrange(0, i) =~= recs.subrange(0, i));
        assert(recs.drop_last()[i] == recs[i]);
    }
}

// ─── Exec fold ───────────────────────────────────────────────────────────────

fn max_of(a: u64, b: u64) -> (r: u64)
    ensures
        r == max_u64(a, b),
{
    if a >= b {
        a
    } else {
        b
    }
}

/// Bind for the fold: the journal the live path would emit is not needed here.
fn bind_for_fold(ctx: &mut OrderCtx, v: &VenueOrderId) -> (r: Result<(), HaltReason>)
    ensures
        match bound(*old(ctx), *v) {
            Ok(c) => r is Ok && *final(ctx) == c,
            Err(e) => r == Err::<(), HaltReason>(e),
        },
{
    match bind_venue_id(ctx, v) {
        Ok(_) => Ok(()),
        Err(e) => Err(e),
    }
}

fn restore_for_fold(ctx: &mut OrderCtx, evidence: u64) -> (r: Result<(), HaltReason>)
    ensures
        match restored(*old(ctx), evidence) {
            Ok(c) => r is Ok && *final(ctx) == c,
            Err(e) => r == Err::<(), HaltReason>(e),
        },
{
    restore_fill_obligation(ctx, evidence)
}

fn fold_fee_correction(ctx: &mut OrderCtx, fill_id: &super::types::FillId, delta_fee_cents: u64) -> (r: Result<
    (),
    HaltReason,
>)
    ensures
        r is Ok ==> fold_step(
            *old(ctx),
            JournalRecord::FeeCorrection { fill_id: *fill_id, delta_fee_cents },
            Ok(*final(ctx)),
        ),
        r matches Err(e) ==> fold_step(
            *old(ctx),
            JournalRecord::FeeCorrection { fill_id: *fill_id, delta_fee_cents },
            Err(e),
        ),
{
    let upd: Option<FillPayload> = match ctx.applied_fills.get(fill_id) {
        Some(p) => if p.fee.is_none() {
            let mut q = p.clone();
            q.fee = Some(delta_fee_cents);
            Some(q)
        } else {
            None
        },
        None => None,
    };
    match upd {
        None => Ok(()),
        Some(q) => match ctx.attributed_fee_cents.checked_add(delta_fee_cents) {
            None => Err(HaltReason::FeeOverflow { fill_id: fill_id.clone() }),
            Some(total) => {
                ctx.attributed_fee_cents = total;
                ctx.applied_fills.insert(fill_id.clone(), q);
                Ok(())
            },
        },
    }
}

/// Fold one record into the context.
fn fold_record(ctx: &mut OrderCtx, rec: &JournalRecord) -> (r: Result<(), HaltReason>)
    ensures
        r is Ok ==> fold_step(*old(ctx), *rec, Ok(*final(ctx))),
        r matches Err(e) ==> fold_step(*old(ctx), *rec, Err(e)),
{
    let ghost c0 = *ctx;
    match rec {
        JournalRecord::SubmitPrepared { client_order_id } => {
            ctx.client_order_id = client_order_id.clone();
            Ok(())
        },
        JournalRecord::SubmitResponse {
            venue_order_id,
            fill_count,
            remaining_count,
            avg_price_cents,
            fee_cents,
            snapshot_boundary,
        } => {
            if let Err(e) = bind_for_fold(ctx, venue_order_id) {
                return Err(e);
            }
            ctx.note_venue_remaining(*remaining_count);
            if *fill_count > 0 {
                ctx.response_fill_count = Some(*fill_count);
                ctx.response_remaining_count = Some(*remaining_count);
                ctx.response_avg_price_cents = *avg_price_cents;
                ctx.response_fee_cents = *fee_cents;
                ctx.response_snapshot_boundary = *snapshot_boundary;
                if let Err(e) = restore_for_fold(ctx, *fill_count) {
                    return Err(e);
                }
                recompute_response_domain(ctx);
            }
            Ok(())
        },
        JournalRecord::Fill { fill_id, qty, price_cents, ts_ns, fee_cents, venue_order_id } => {
            let a = try_account_fill_for_fold(
                ctx,
                fill_id,
                *qty,
                *price_cents,
                *ts_ns,
                venue_order_id,
                *fee_cents,
            );
            match a {
                AccountAttempt::Halt { reason, .. } => Err(reason),
                _ => Ok(()),
            }
        },
        JournalRecord::FeeCorrection { fill_id, delta_fee_cents } => fold_fee_correction(
            ctx,
            fill_id,
            *delta_fee_cents,
        ),
        JournalRecord::CancelRequested
        | JournalRecord::CancelOutcome(_)
        | JournalRecord::CancelRequestedCid { .. }
        | JournalRecord::CancelOutcomeCid { .. } => {
            if ctx.authority_complete {
                ctx.invalidate_authority();
            }
            Ok(())
        },
        JournalRecord::ImmediateFillUnattributed {
            venue_order_id,
            fill_count,
            remaining_count,
            avg_price_cents,
            fee_cents,
        } => {
            if let Err(e) = bind_for_fold(ctx, venue_order_id) {
                return Err(e);
            }
            ctx.response_fill_count = Some(*fill_count);
            ctx.response_remaining_count = Some(*remaining_count);
            ctx.response_avg_price_cents = *avg_price_cents;
            ctx.response_fee_cents = *fee_cents;
            ctx.note_venue_remaining(*remaining_count);
            restore_for_fold(ctx, *fill_count)
        },
        JournalRecord::VenueBound { venue_order_id } => bind_for_fold(ctx, venue_order_id),
        JournalRecord::VenueBoundCid { venue_order_id, .. } => bind_for_fold(ctx, venue_order_id),
        JournalRecord::ObligationRaised { fill_obligation, authority_epoch } => {
            if let Err(e) = restore_for_fold(ctx, *fill_obligation) {
                return Err(e);
            }
            ctx.authority_epoch = max_of(*authority_epoch, ctx.authority_epoch);
            if ctx.attributed_fill_qty < ctx.fill_obligation {
                ctx.authority_complete = false;
            }
            Ok(())
        },
        JournalRecord::AuthorityLatched { epoch } => {
            ctx.authority_epoch = max_of(*epoch, ctx.authority_epoch);
            ctx.authority_complete = true;
            ctx.authority_latched_epoch = *epoch;
            Ok(())
        },
        JournalRecord::AuthorityInvalidated { epoch } => {
            ctx.authority_epoch = max_of(*epoch, ctx.authority_epoch);
            ctx.authority_complete = false;
            Ok(())
        },
        JournalRecord::ReconcileObserved {
            venue_order_id,
            venue_filled_qty,
            venue_remaining_qty,
            shell_authority_complete,
            authority_epoch,
        } => {
            if let Err(e) = bind_for_fold(ctx, venue_order_id) {
                return Err(e);
            }
            ctx.note_venue_remaining(*venue_remaining_qty);
            ctx.authority_epoch = max_of(*authority_epoch, ctx.authority_epoch);
            if *venue_filled_qty <= ctx.qty {
                if let Err(e) = restore_for_fold(ctx, *venue_filled_qty) {
                    return Err(e);
                }
                if *shell_authority_complete {
                    ctx.latch_authority_complete();
                } else if ctx.attributed_fill_qty < ctx.fill_obligation {
                    ctx.authority_complete = false;
                }
            }
            Ok(())
        },
        JournalRecord::OrderTerminal {
            venue_order_id,
            fill_obligation,
            authority_complete,
            authority_epoch,
            attributed_fill_qty,
            attributed_fee_cents,
            ..
        } => {
            if let Some(v) = venue_order_id {
                if let Err(e) = bind_for_fold(ctx, v) {
                    return Err(e);
                }
            }
            if let Err(e) = restore_for_fold(ctx, *fill_obligation) {
                return Err(e);
            }
            ctx.authority_epoch = max_of(*authority_epoch, ctx.authority_epoch);
            if *authority_complete {
                ctx.authority_complete = true;
                ctx.authority_latched_epoch = *authority_epoch;
            }
            if *attributed_fill_qty > ctx.attributed_fill_qty {
                ctx.attributed_fill_qty = *attributed_fill_qty;
            }
            if *attributed_fee_cents > ctx.attributed_fee_cents {
                ctx.attributed_fee_cents = *attributed_fee_cents;
            }
            Ok(())
        },
        JournalRecord::SubmitStarted { .. }
        | JournalRecord::SubmitUnknown
        | JournalRecord::ImmediateFillUnresolved
        | JournalRecord::UnknownNoMatch
        | JournalRecord::Halted { .. } => Ok(()),
    }
}

/// Fold durable journal records into an [`OrderCtx`] for crash restart. Identity
/// comes from `base`; fill, obligation, authority and response snapshots are
/// rebuilt from the records in order. A bind, obligation or fill error stops the
/// fold and is returned.
pub fn rebuild_ctx_from_journal(base: OrderCtx, records: &[JournalRecord]) -> (r: Result<OrderCtx, HaltReason>)
    ensures
        r matches Ok(c) ==> reaches(base, records@, c),
        r matches Err(e) ==> exists|i: int, m: OrderCtx|
            #![trigger fold_step(m, records@[i], Err::<OrderCtx, HaltReason>(e))]
            0 <= i < records@.len() && reaches(base, records@.subrange(0, i), m) && fold_step(
                m,
                records@[i],
                Err::<OrderCtx, HaltReason>(e),
            ),
        records@.len() == 0 ==> r == Ok::<OrderCtx, HaltReason>(base),
        // a journal that replays to `c` rebuilds exactly `c`
        forall|c: OrderCtx| #[trigger] reaches(base, records@, c) ==> (r matches Ok(c2) && same_ctx(c2, c)),
        // a journal whose replay stops never rebuilds a context
        forall|e: HaltReason| #[trigger] replay_halts(base, records@, e) ==> r is Err,
{
    let mut ctx = base;
    let mut i: usize = 0;
    proof {
        assert(records@.subrange(0, 0).len() == 0);
    }
    while i < records.len()
        invariant
            i <= records@.len(),
            reaches(base, records@.subrange(0, i as int), ctx),
        decreases records@.len() - i,
    {
        let ghost m = ctx;
        match fold_record(&mut ctx, &records[i]) {
            Ok(()) => {
                proof {
                    let s = records@.subrange(0, i + 1);
                    assert(s.drop_last() =~= records@.subrange(0, i as int));
                    assert(s.last() == records@[i as int]);
                    assert(fold_step(m, s.last(), Ok::<OrderCtx, HaltReason>(ctx)));
                    assert(reaches(base, s, ctx));
                }
            },
            Err(e) => {
                proof {
                    assert(fold_step(m, records@[i as int], Err::<OrderCtx, HaltReason>(e)));
                    assert forall|c: OrderCtx| #[trigger] reaches(base, records@, c) implies false by {
                        lemma_reaches_prefix(base, records@, c, i as int);
                        let (m1, m2) = choose|m1: OrderCtx, m2: OrderCtx|
                            reaches(base, records@.subrange(0, i as int), m1) && #[trigger] fold_step(
                                m1,
                                records@[i as int],
                                Ok::<OrderCtx, HaltReason>(m2),
                            );
                        lemma_reaches_det(base, records@.subrange(0, i as int), m1, m);
                        lemma_fold_step_det(m1, m, records@[i as int], m2, Err::<OrderCtx, HaltReason>(e));
                    }
                }
                return Err(e);
            },
        }
        i = i + 1;
    }
    proof {
        assert(records@.subrange(0, records@.len() as int) =~= records@);
        assert forall|c: OrderCtx| #[trigger] reaches(base, records@, c) implies same_ctx(ctx, c) by {
            lemma_reaches_det(base, records@, ctx, c);
        }
        assert forall|e: HaltReason| #[trigger] replay_halts(base, records@, e) implies false by {
            let (k, m) = choose|k: int, m: OrderCtx|
                #![trigger fold_step(m, records@[k], Err::<OrderCtx, HaltReason>(e))]
                0 <= k < records@.len() && reaches(base, records@.subrange(0, k), m) && fold_step(
                    m,
                    records@[k],
                    Err::<OrderCtx, HaltReason>(e),
                );
            lemma_reaches_prefix(base, records@, ctx, k);
            let (m1, m2) = choose|m1: OrderCtx, m2: OrderCtx|
                reaches(base, records@.subrange(0, k), m1) && #[trigger] fold_step(
                    m1,
                    records@[k],
                    Ok::<OrderCtx, HaltReason>(m2),
                );
            lemma_reaches_det(base, records@.subrange(0, k), m1, m);
            lemma_fold_step_det(m1, m, records@[k], m2, Err::<OrderCtx, HaltReason>(e));
        }
    }
    Ok(ctx)
}

// ─── Journal replay of single steps ──────────────────────────────────────────

/// The journal records among `effects`, in order.
pub open spec fn journal_of(effects: Seq<Effect>) -> Seq<JournalRecord>
    decreases effects.len(),
{
    if effects.len() == 0 {
        Seq::empty()
    } else {
        journal_of(effects.drop_last()) + match effects.last() {
            Effect::AppendFsync(j) => seq![j],
            _ => Seq::empty(),
        }
    }
}

/// Replaying the journal records among `effects` from `c0` reaches `c1`: the
/// change from `c0` to `c1` is journaled by `effects`.
pub open spec fn journaled(c0: OrderCtx, effects: Seq<Effect>, c1: OrderCtx) -> bool {
    reaches(c0, journal_of(effects), c1)
}

/// `out` extends `prior`, and the effects added after `prior` journal the change
/// from `c0` to `c1`.
pub open spec fn journaled_after(c0: OrderCtx, prior: Seq<Effect>, out: Seq<Effect>, c1: OrderCtx) -> bool {
    &&& prior.len() <= out.len()
    &&& out.subrange(0, prior.len() as int) == prior
    &&& journaled(c0, out.subrange(prior.len() as int, out.len() as int), c1)
}

/// No effect of `effects` appends a journal record.
pub open spec fn journal_free(effects: Seq<Effect>) -> bool {
    forall|i: int| 0 <= i < effects.len() ==> !(#[trigger] effects[i] is AppendFsync)
}

pub proof fn lemma_journal_free(effects: Seq<Effect>)
    requires
        journal_free(effects),
    ensures
        journal_of(effects) == Seq::<JournalRecord>::empty(),
    decreases effects.len(),
{
    if effects.len() > 0 {
        let d = effects.drop_last();
        assert forall|i: int| 0 <= i < d.len() implies !(#[trigger] d[i] is AppendFsync) by {
            assert(d[i] == effects[i]);
        }
        lemma_journal_free(d);
        assert(!(effects[effects.len() - 1] is AppendFsync));
        assert(journal_of(effects) =~= Seq::<JournalRecord>::empty());
    } else {
        assert(journal_of(effects) =~= Seq::<JournalRecord>::empty());
    }
}

pub proof fn lemma_reaches_concat(c0: OrderCtx, s1: Seq<JournalRecord>, m: OrderCtx, s2: Seq<JournalRecord>, c1: OrderCtx)
    requires
        reaches(c0, s1, m),
        reaches(m, s2, c1),
    ensures
        reaches(c0, s1 + s2, c1),
    decreases s2.len(),
{
    if s2.len() == 0 {
        assert(s1 + s2 =~= s1);
    } else {
        let m2 = choose|m2: OrderCtx|
            #![trigger fold_step(m2, s2.last(), Ok::<OrderCtx, HaltReason>(c1))]
            reaches(m, s2.drop_last(), m2) && fold_step(m2, s2.last(), Ok::<OrderCtx, HaltReason>(c1));
        lemma_reaches_concat(c0, s1, m, s2.drop_last(), m2);
        assert((s1 + s2).drop_last() =~= s1 + s2.drop_last());
        assert((s1 + s2).last() == s2.last());
        lemma_reaches_push(c0, s1 + s2.drop_last(), m2, s2.last(), c1);
        assert((s1 + s2.drop_last()).push(s2.last()) =~= s1 + s2);
    }
}

pub proof fn lemma_journaled_refl(c: OrderCtx, effects: Seq<Effect>)
    requires
        journal_free(effects),
    ensures
        journaled(c, effects, c),
{
    lemma_journal_free(effects);
}

pub proof fn lemma_journaled_concat(c0: OrderCtx, e1: Seq<Effect>, m: OrderCtx, e2: Seq<Effect>, c1: OrderCtx)
    requires
        journaled(c0, e1, m),
        journaled(m, e2, c1),
    ensures
        journaled(c0, e1 + e2, c1),
{
    lemma_journal_of_concat(e1, e2);
    lemma_reaches_concat(c0, journal_of(e1), m, journal_of(e2), c1);
}

/// A journaled prefix followed by journaled additions journals the whole.
pub proof fn lemma_journaled_after(c0: OrderCtx, prior: Seq<Effect>, m: OrderCtx, out: Seq<Effect>, c1: OrderCtx)
    requires
        journaled(c0, prior, m),
        journaled_after(m, prior, out, c1),
    ensures
        journaled(c0, out, c1),
{
    let added = out.subrange(prior.len() as int, out.len() as int);
    assert(out =~= prior + added);
    lemma_journaled_concat(c0, prior, m, added, c1);
}

/// Two journaled extensions in turn are one journaled extension.
pub proof fn lemma_journaled_after_trans(
    c0: OrderCtx,
    p: Seq<Effect>,
    q: Seq<Effect>,
    m: OrderCtx,
    out: Seq<Effect>,
    c1: OrderCtx,
)
    requires
        journaled_after(c0, p, q, m),
        journaled_after(m, q, out, c1),
    ensures
        journaled_after(c0, p, out, c1),
{
    let a1 = q.subrange(p.len() as int, q.len() as int);
    let a2 = out.subrange(q.len() as int, out.len() as int);
    lemma_journaled_concat(c0, a1, m, a2, c1);
    assert(out.subrange(0, p.len() as int) =~= p);
    assert(out.subrange(p.len() as int, out.len() as int) =~= a1 + a2);
}

/// Appending effects that journal nothing (given as an extension), with the context unchanged.
pub proof fn lemma_journaled_after_free_ext(c: OrderCtx, prior: Seq<Effect>, out: Seq<Effect>)
    requires
        prior.len() <= out.len(),
        out.subrange(0, prior.len() as int) == prior,
        forall|i: int| prior.len() <= i < out.len() ==> !(#[trigger] out[i] is AppendFsync),
    ensures
        journaled_after(c, prior, out, c),
{
    let added = out.subrange(prior.len() as int, out.len() as int);
    assert forall|i: int| 0 <= i < added.len() implies !(#[trigger] added[i] is AppendFsync) by {
        assert(added[i] == out[i + prior.len()]);
    }
    lemma_journaled_refl(c, added);
}

/// Adding nothing journals no change.
pub proof fn lemma_journaled_after_refl(c: OrderCtx, e: Seq<Effect>)
    ensures
        journaled_after(c, e, e, c),
{
    assert(e.subrange(0, e.len() as int) =~= e);
    assert(e.subrange(e.len() as int, e.len() as int) =~= Seq::<Effect>::empty());
    assert(journal_of(Seq::<Effect>::empty()) =~= Seq::<JournalRecord>::empty());
}

/// Replaying `recs` from `base` stops with `e` at some record.
pub open spec fn replay_halts(base: OrderCtx, recs: Seq<JournalRecord>, e: HaltReason) -> bool {
    exists|i: int, m: OrderCtx|
        #![trigger fold_step(m, recs[i], Err::<OrderCtx, HaltReason>(e))]
        0 <= i < recs.len() && reaches(base, recs.subrange(0, i), m) && fold_step(
            m,
            recs[i],
            Err::<OrderCtx, HaltReason>(e),
        )
}

/// Replaying the journal of a step's outcome reproduces the step: it reaches the
/// context after the step or, for a halt, stops with the halt's reason.
pub open spec fn step_replays(c0: OrderCtx, r: TransitionOutcome, c1: OrderCtx) -> bool {
    ||| journaled(c0, outcome_effects(r), c1)
    ||| (r is Halt && replay_halts(c0, journal_of(outcome_effects(r)), r->Halt_reason))
}

/// A replay that stops still stops once more records follow.
pub proof fn lemma_replay_halts_extend(base: OrderCtx, j1: Seq<JournalRecord>, j2: Seq<JournalRecord>, e: HaltReason)
    requires
        replay_halts(base, j1, e),
    ensures
        replay_halts(base, j1 + j2, e),
{
    let (i, m) = choose|i: int, m: OrderCtx|
        #![trigger fold_step(m, j1[i], Err::<OrderCtx, HaltReason>(e))]
        0 <= i < j1.len() && reaches(base, j1.subrange(0, i), m) && fold_step(m, j1[i], Err::<OrderCtx, HaltReason>(e));
    assert((j1 + j2).subrange(0, i) =~= j1.subrange(0, i));
    assert((j1 + j2)[i] == j1[i]);
}

/// A replay that reaches `m` and then stops on the records after it.
pub proof fn lemma_replay_halts_after(
    base: OrderCtx,
    j1: Seq<JournalRecord>,
    m: OrderCtx,
    j2: Seq<JournalRecord>,
    e: HaltReason,
)
    requires
        reaches(base, j1, m),
        replay_halts(m, j2, e),
    ensures
        replay_halts(base, j1 + j2, e),
{
    let (i, m2) = choose|i: int, m2: OrderCtx|
        #![trigger fold_step(m2, j2[i], Err::<OrderCtx, HaltReason>(e))]
        0 <= i < j2.len() && reaches(m, j2.subrange(0, i), m2) && fold_step(m2, j2[i], Err::<OrderCtx, HaltReason>(e));
    lemma_reaches_concat(base, j1, m, j2.subrange(0, i), m2);
    let k = j1.len() + i;
    assert((j1 + j2).subrange(0, k) =~= j1 + j2.subrange(0, i));
    assert((j1 + j2)[k] == j2[i]);
}

/// A halt whose first journaled record already fails to replay with the halt's reason.
pub proof fn lemma_first_record_halts(c0: OrderCtx, rec: JournalRecord, rest: Seq<Effect>, e: HaltReason)
    requires
        fold_step(c0, rec, Err::<OrderCtx, HaltReason>(e)),
    ensures
        replay_halts(c0, journal_of(seq![Effect::AppendFsync(rec)] + rest), e),
{
    lemma_journal_of_concat(seq![Effect::AppendFsync(rec)], rest);
    lemma_journal_of_one(Effect::AppendFsync(rec));
    let recs = journal_of(seq![Effect::AppendFsync(rec)] + rest);
    assert(recs[0] == rec);
    assert(recs.subrange(0, 0) =~= Seq::<JournalRecord>::empty());
    assert(reaches(c0, recs.subrange(0, 0), c0));
    assert(fold_step(c0, recs[0], Err::<OrderCtx, HaltReason>(e)));
}

/// Journaled effects appended after `prior`.
pub proof fn lemma_journaled_after_append(c0: OrderCtx, prior: Seq<Effect>, added: Seq<Effect>, c1: OrderCtx)
    requires
        journaled(c0, added, c1),
    ensures
        journaled_after(c0, prior, prior + added, c1),
{
    let out = prior + added;
    assert(out.subrange(0, prior.len() as int) =~= prior);
    assert(out.subrange(prior.len() as int, out.len() as int) =~= added);
}

/// The effect that journals an optional record.
pub open spec fn record_effects(jr: Option<JournalRecord>) -> Seq<Effect> {
    match jr {
        Some(j) => seq![Effect::AppendFsync(j)],
        None => Seq::<Effect>::empty(),
    }
}

/// One journaled record (or none) appended after `prior`.
pub proof fn lemma_journaled_after_record(c0: OrderCtx, prior: Seq<Effect>, jr: Option<JournalRecord>, c1: OrderCtx)
    requires
        journaled(c0, record_effects(jr), c1),
    ensures
        journaled_after(c0, prior, prior + record_effects(jr), c1),
{
    let out = prior + record_effects(jr);
    assert(out.subrange(0, prior.len() as int) =~= prior);
    assert(out.subrange(prior.len() as int, out.len() as int) =~= record_effects(jr));
}

/// A record that replays to `c1` from `c0`, as one journaled effect.
pub proof fn lemma_record_journaled(c0: OrderCtx, j: JournalRecord, c1: OrderCtx)
    requires
        fold_step(c0, j, Ok::<OrderCtx, HaltReason>(c1)),
    ensures
        journaled(c0, record_effects(Some(j)), c1),
{
    lemma_journal_of_one(Effect::AppendFsync(j));
    lemma_reaches_one(c0, j, c1);
}

/// Halting appends the `Halted` record, which replays without change.
pub proof fn lemma_halt_journaled(c: OrderCtx, prior: Seq<Effect>, reason: HaltReason)
    ensures
        journaled_after(
            c,
            prior,
            prior + seq![Effect::AppendFsync(JournalRecord::Halted { reason }), Effect::HaltNewExposure],
            c,
        ),
{
    let x1 = Effect::AppendFsync(JournalRecord::Halted { reason });
    let x2 = Effect::HaltNewExposure;
    let out = prior + seq![x1, x2];
    assert(out.subrange(0, prior.len() as int) =~= prior);
    assert(out.subrange(prior.len() as int, out.len() as int) =~= seq![x1, x2]);
    lemma_journal_of_two(x1, x2);
    lemma_journal_of_two(x1, x1);
    assert(journal_of(seq![x1, x2]) =~= seq![JournalRecord::Halted { reason }]);
    lemma_reaches_one(c, JournalRecord::Halted { reason }, c);
}

pub proof fn lemma_journal_of_concat(a: Seq<Effect>, b: Seq<Effect>)
    ensures
        journal_of(a + b) == journal_of(a) + journal_of(b),
    decreases b.len(),
{
    if b.len() == 0 {
        assert(a + b =~= a);
        assert(journal_of(a) + journal_of(b) =~= journal_of(a));
    } else {
        lemma_journal_of_concat(a, b.drop_last());
        assert((a + b).drop_last() =~= a + b.drop_last());
        assert((a + b).last() == b.last());
        assert(journal_of(a + b) =~= journal_of(a) + journal_of(b));
    }
}

pub proof fn lemma_journal_of_one(x: Effect)
    ensures
        journal_of(seq![x]) == match x {
            Effect::AppendFsync(j) => seq![j],
            _ => Seq::<JournalRecord>::empty(),
        },
{
    let e = seq![x].drop_last();
    assert(e =~= Seq::<Effect>::empty());
    assert(seq![x].last() == x);
    assert(journal_of(e) == Seq::<JournalRecord>::empty());
    let t = match x {
        Effect::AppendFsync(j) => seq![j],
        _ => Seq::<JournalRecord>::empty(),
    };
    assert(journal_of(seq![x]) == journal_of(e) + t);
    assert(Seq::<JournalRecord>::empty() + t =~= t);
}

pub proof fn lemma_reaches_push(c0: OrderCtx, s: Seq<JournalRecord>, m: OrderCtx, rec: JournalRecord, c1: OrderCtx)
    requires
        reaches(c0, s, m),
        fold_step(m, rec, Ok::<OrderCtx, HaltReason>(c1)),
    ensures
        reaches(c0, s.push(rec), c1),
{
    assert(s.push(rec).drop_last() =~= s);
    assert(s.push(rec).last() == rec);
}

pub proof fn lemma_journal_of_two(x: Effect, y: Effect)
    ensures
        journal_of(seq![x]) == journal_of(Seq::<Effect>::empty()) + match x {
            Effect::AppendFsync(j) => seq![j],
            _ => Seq::<JournalRecord>::empty(),
        },
        journal_of(seq![x, y]) == journal_of(seq![x]) + match y {
            Effect::AppendFsync(j) => seq![j],
            _ => Seq::<JournalRecord>::empty(),
        },
{
    assert(seq![x].drop_last() =~= Seq::<Effect>::empty());
    assert(seq![x].last() == x);
    assert(seq![x, y].drop_last() =~= seq![x]);
    assert(seq![x, y].last() == y);
}

pub proof fn lemma_reaches_one(c0: OrderCtx, rec: JournalRecord, c1: OrderCtx)
    requires
        fold_step(c0, rec, Ok::<OrderCtx, HaltReason>(c1)),
    ensures
        reaches(c0, seq![rec], c1),
{
    let s = seq![rec];
    assert(s.drop_last() =~= Seq::<JournalRecord>::empty());
    assert(s.last() == rec);
    assert(reaches(c0, s.drop_last(), c0));
    assert(fold_step(c0, s.last(), Ok::<OrderCtx, HaltReason>(c1)));
}

pub proof fn lemma_reaches_two(c0: OrderCtx, a: JournalRecord, m: OrderCtx, b: JournalRecord, c1: OrderCtx)
    requires
        fold_step(c0, a, Ok::<OrderCtx, HaltReason>(m)),
        fold_step(m, b, Ok::<OrderCtx, HaltReason>(c1)),
    ensures
        reaches(c0, seq![a, b], c1),
{
    lemma_reaches_one(c0, a, m);
    let s = seq![a, b];
    assert(s.drop_last() =~= seq![a]);
    assert(s.last() == b);
    assert(reaches(c0, s.drop_last(), m));
    assert(fold_step(m, s.last(), Ok::<OrderCtx, HaltReason>(c1)));
}

/// Replaying the journal of a cancel request (authority invalidated, cancel
/// journaled) reproduces the invalidated context of the live step.
pub proof fn law_journal_replays_cancel_request(c0: OrderCtx)
    ensures
        reaches(c0, journal_of(cancel_request_journal(c0, invalidated(c0))), invalidated(c0)),
{
    let c1 = invalidated(c0);
    let e = cancel_request_journal(c0, c1);
    let a = JournalRecord::AuthorityInvalidated { epoch: c1.authority_epoch };
    let b = JournalRecord::CancelRequestedCid { client_order_id: c0.client_order_id };
    lemma_journal_of_two(Effect::AppendFsync(a), Effect::AppendFsync(b));
    assert(e == seq![Effect::AppendFsync(a), Effect::AppendFsync(b)]);
    assert(journal_of(e) =~= seq![a, b]);
    assert(c1 == OrderCtx { authority_epoch: max_u64(c1.authority_epoch, c0.authority_epoch), authority_complete: false, ..c0 });
    lemma_reaches_two(c0, a, c1, b, c1);
}

/// The effects a booking attempt carries.
pub open spec fn attempt_effects(a: AccountAttempt) -> Seq<Effect> {
    match a {
        AccountAttempt::NoOp => Seq::empty(),
        AccountAttempt::Applied { effects } => effects@,
        AccountAttempt::Enriched { effects } => effects@,
        AccountAttempt::Halt { effects, .. } => effects@,
    }
}

/// A live fill booking never changes the context without journaling the change:
/// replaying the journal records among its effects (in restore mode, from the
/// context before it) reaches the context after it. This holds for every
/// outcome: a new fill, an enrichment, a no-op, a refusal, and a halt that
/// carries the booked fill.
pub proof fn law_fill_booking_journaled(
    c0: OrderCtx,
    c1: OrderCtx,
    fill_id: FillId,
    qty: u64,
    price: u64,
    ts: i64,
    venue: Option<VenueOrderId>,
    fee: Option<u64>,
    a: AccountAttempt,
)
    requires
        attempt_exact(c0, c1, fill_id, qty, price, ts, venue, fee, false, a),
    ensures
        reaches(c0, journal_of(attempt_effects(a)), c1),
{
    let k = fill_id.0@;
    match c0.applied_fills.lookup(k) {
        None => {
            if !new_fill_admitted(c0, qty, venue, fee) {
                assert(attempt_effects(a) =~= Seq::<Effect>::empty());
                assert(journal_of(attempt_effects(a)) =~= Seq::<JournalRecord>::empty());
            } else {
                let e = invalidated(c0).authority_epoch;
                let n = c0.attributed_fill_qty + qty;
                let x1 = Effect::AppendFsync(JournalRecord::AuthorityInvalidated { epoch: e });
                let mid = if n > c0.fill_obligation {
                    seq![
                        Effect::AppendFsync(
                            JournalRecord::ObligationRaised { fill_obligation: n as u64, authority_epoch: e },
                        ),
                    ]
                } else {
                    Seq::<Effect>::empty()
                };
                let rec = JournalRecord::Fill {
                    fill_id,
                    qty,
                    price_cents: price,
                    ts_ns: ts,
                    fee_cents: fee,
                    venue_order_id: venue,
                };
                let x3 = Effect::AppendFsync(rec);
                let x4 = Effect::AccountFill { fill_id, qty, price_cents: price, ts_ns: ts, fee_cents: fee_or_zero(fee) };
                let effs = live_new_effects(c0, fill_id, qty, price, ts, venue, fee);
                assert(attempt_effects(a) == effs);
                assert(effs =~= seq![x1] + mid + seq![x3, x4]);
                lemma_journal_of_concat(seq![x1] + mid, seq![x3, x4]);
                lemma_journal_of_concat(seq![x1], mid);
                lemma_journal_of_one(x1);
                lemma_journal_of_two(x3, x4);
                lemma_journal_of_two(x3, x3);
                let m1 = invalidated(c0);
                assert(fold_step(c0, JournalRecord::AuthorityInvalidated { epoch: e }, Ok::<OrderCtx, HaltReason>(m1)));
                lemma_reaches_one(c0, JournalRecord::AuthorityInvalidated { epoch: e }, m1);
                let m2 = OrderCtx { fill_obligation: max_u64(n as u64, c0.fill_obligation), ..m1 };
                let pre = seq![JournalRecord::AuthorityInvalidated { epoch: e }];
                if n > c0.fill_obligation {
                    let ro = JournalRecord::ObligationRaised { fill_obligation: n as u64, authority_epoch: e };
                    lemma_journal_of_one(mid[0]);
                    assert(mid =~= seq![mid[0]]);
                    assert(after_obligation_raised(m1, n as u64, e) == Ok::<OrderCtx, HaltReason>(m2));
                    lemma_reaches_push(c0, pre, m1, ro, m2);
                    assert(journal_of(seq![x1] + mid) =~= pre.push(ro));
                    assert(fill_replayed(m2, fill_id, qty, price, ts, venue, fee, Ok::<OrderCtx, HaltReason>(c1)));
                    lemma_reaches_push(c0, pre.push(ro), m2, rec, c1);
                    assert(journal_of(attempt_effects(a)) =~= pre.push(ro).push(rec));
                } else {
                    assert(m2 == m1);
                    assert(journal_of(mid) =~= Seq::<JournalRecord>::empty());
                    assert(journal_of(seq![x1] + mid) =~= pre);
                    assert(fill_replayed(m1, fill_id, qty, price, ts, venue, fee, Ok::<OrderCtx, HaltReason>(c1)));
                    lemma_reaches_push(c0, pre, m1, rec, c1);
                    assert(journal_of(attempt_effects(a)) =~= pre.push(rec));
                }
            }
        },
        Some(prev) => {
            if payload_same(prev, event_payload(qty, price, ts, venue, fee)) || existing_refused(
                c0,
                prev,
                qty,
                price,
                venue,
                fee,
            ) || !existing_upgrades(prev, venue, fee) {
                assert(attempt_effects(a) =~= Seq::<Effect>::empty());
                assert(journal_of(attempt_effects(a)) =~= Seq::<JournalRecord>::empty());
            } else {
                let up = upgraded_payload(prev, venue, fee);
                let rec = JournalRecord::Fill {
                    fill_id,
                    qty: prev.qty,
                    price_cents: prev.price_cents,
                    ts_ns: prev.ts_ns,
                    fee_cents: up.fee,
                    venue_order_id: up.venue_order_id,
                };
                assert(prev.venue_order_id is Some ==> same_opt_venue(prev.venue_order_id, up.venue_order_id));
                assert(upgraded_payload(prev, up.venue_order_id, up.fee) == up);
                assert(fill_replayed(
                    c0,
                    fill_id,
                    prev.qty,
                    prev.price_cents,
                    prev.ts_ns,
                    up.venue_order_id,
                    up.fee,
                    Ok::<OrderCtx, HaltReason>(c1),
                ));
                lemma_reaches_one(c0, rec, c1);
                let x1 = Effect::AppendFsync(rec);
                if prev.fee is None && fee is Some {
                    let fc = JournalRecord::FeeCorrection { fill_id, delta_fee_cents: fee->0 };
                    let x2 = Effect::AppendFsync(fc);
                    let x3 = Effect::AccountFeeCorrection { fill_id, delta_fee_cents: fee->0 };
                    lemma_journal_of_concat(seq![x1], seq![x2, x3]);
                    lemma_journal_of_one(x1);
                    lemma_journal_of_two(x2, x3);
                    lemma_journal_of_two(x2, x2);
                    assert(attempt_effects(a) =~= seq![x1] + seq![x2, x3]);
                    assert(fold_step(c1, fc, Ok::<OrderCtx, HaltReason>(c1)));
                    lemma_reaches_push(c0, seq![rec], c1, fc, c1);
                    assert(journal_of(attempt_effects(a)) =~= seq![rec].push(fc));
                } else {
                    lemma_journal_of_one(x1);
                    assert(attempt_effects(a) =~= seq![x1]);
                }
            }
        },
    }
}

/// A release's terminal record replays without change on the context that
/// passed the release gates (with the obligation within the order qty).
pub proof fn lemma_terminal_replay(c: OrderCtx, p: ProposedTerminal)
    requires
        finalize_pass(c, p),
        c.fill_obligation <= c.qty,
    ensures
        fold_step(c, terminal_record(c, p), Ok::<OrderCtx, HaltReason>(c)),
{
    assert(restored(c, c.fill_obligation) == Ok::<OrderCtx, HaltReason>(c));
    if c.venue_order_id is Some {
        assert(bound(c, c.venue_order_id->0) == Ok::<OrderCtx, HaltReason>(c));
    }
}

} // verus!
