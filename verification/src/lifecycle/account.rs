//! Venue identity binding, obligation / authority evidence, and fill accounting.

use vstd::prelude::*;

use super::ctx::{invalidated, OrderCtx};
use super::outcome::{ctx_evolves, notional_within, reliable_boundary};
use super::rebuild::{journal_of, journaled, lemma_record_journaled, record_effects};
use super::types::{
    no_release, payload_same, same_opt_venue, Effect, FillId, FillPayload, HaltReason,
    JournalRecord, SnapshotBoundary, VenueOrderId,
};
use crate::text::{decimal, owned, push_decimal, text2};
use vstd::string::StringExecFns;

verus! {

// ─── Venue identity ───────────────────────────────────────────────────────────

pub(crate) fn opt_venue_eq(a: &Option<VenueOrderId>, b: &Option<VenueOrderId>) -> (r: bool)
    ensures
        r == same_opt_venue(*a, *b),
{
    match (a, b) {
        (None, None) => true,
        (Some(x), Some(y)) => x.0 == y.0,
        _ => false,
    }
}

pub(crate) fn payload_eq(a: &FillPayload, b: &FillPayload) -> (r: bool)
    ensures
        r == payload_same(*a, *b),
{
    a.qty == b.qty && a.price_cents == b.price_cents && a.fee == b.fee && opt_venue_eq(
        &a.venue_order_id,
        &b.venue_order_id,
    ) && a.ts_ns == b.ts_ns
}

/// An applied fill names a venue other than `v`.
pub open spec fn foreign_fill_at(ctx: OrderCtx, i: int, v: Seq<char>) -> bool {
    ctx.applied_fills.entries_view()[i].1.venue_order_id matches Some(w) && w.0@ != v
}

/// `i` is the first applied fill naming a venue other than `v`.
pub open spec fn first_foreign(c: OrderCtx, v: Seq<char>, i: int) -> bool {
    &&& 0 <= i < c.applied_fills.entries_view().len()
    &&& foreign_fill_at(c, i, v)
    &&& forall|j: int| 0 <= j < i ==> !foreign_fill_at(c, j, v)
}

/// Binding `v` as the parent venue: a known id must match; a first bind requires
/// every fill booked so far to name `v` (or no venue).
pub open spec fn bound(c: OrderCtx, v: VenueOrderId) -> Result<OrderCtx, HaltReason> {
    match c.venue_order_id {
        Some(e) => if e.0@ == v.0@ {
            Ok(c)
        } else {
            Err(HaltReason::OwnershipConflict { expected: e, got: v })
        },
        None => if forall|i: int|
            0 <= i < c.applied_fills.entries_view().len() ==> !foreign_fill_at(c, i, v.0@) {
            Ok(OrderCtx { venue_order_id: Some(v), ..c })
        } else {
            let i = choose|i: int| first_foreign(c, v.0@, i);
            let f = c.applied_fills.entries_view()[i];
            Err(HaltReason::FillOwnershipMismatch { fill_id: f.0, expected: v, got: f.1.venue_order_id->0 })
        },
    }
}

/// Bind (or verify) the parent venue id. A different known id is an ownership
/// conflict; a first bind checks the fills booked while the id was unknown.
pub(crate) fn bind_venue_id(ctx: &mut OrderCtx, new_id: &VenueOrderId) -> (r: Result<
    Option<JournalRecord>,
    HaltReason,
>)
    ensures
        ctx_evolves(*old(ctx), *final(ctx)),
        r is Ok ==> (final(ctx).venue_order_id matches Some(b) && b.0@ == new_id.0@),
        r is Err ==> *final(ctx) == *old(ctx),
        r matches Ok(Some(j)) ==> j == (JournalRecord::VenueBoundCid {
            client_order_id: old(ctx).client_order_id,
            venue_order_id: *new_id,
        }) && old(ctx).venue_order_id is None && *final(ctx) == (OrderCtx {
            venue_order_id: Some(*new_id),
            ..*old(ctx)
        }),
        r matches Ok(None) ==> *final(ctx) == *old(ctx),
        r matches Ok(jr) ==> journaled(*old(ctx), record_effects(jr), *final(ctx)),
        old(ctx).venue_order_id is None && r is Ok ==> r matches Ok(Some(_)),
        old(ctx).venue_order_id is None && r is Err ==> r matches Err(HaltReason::FillOwnershipMismatch { .. }),
        match bound(*old(ctx), *new_id) {
            Ok(c) => r is Ok && *final(ctx) == c,
            Err(e) => r == Err::<Option<JournalRecord>, HaltReason>(e),
        },
        old(ctx).venue_order_id matches Some(e) ==> (if e.0@ == new_id.0@ {
            r == Ok::<Option<JournalRecord>, HaltReason>(None)
        } else {
            r == Err::<Option<JournalRecord>, HaltReason>(
                HaltReason::OwnershipConflict { expected: e, got: *new_id },
            )
        }),
        old(ctx).venue_order_id is None ==> (r is Ok <==> forall|i: int|
            0 <= i < old(ctx).applied_fills.entries_view().len() ==> !foreign_fill_at(
                *old(ctx),
                i,
                new_id.0@,
            )),
        r matches Err(HaltReason::FillOwnershipMismatch { fill_id, expected, got }) ==> (exists|i: int|
            0 <= i < old(ctx).applied_fills.entries_view().len() && foreign_fill_at(
                *old(ctx),
                i,
                new_id.0@,
            ) && fill_id == old(ctx).applied_fills.entries_view()[i].0 && expected == *new_id
                && Some(got) == old(ctx).applied_fills.entries_view()[i].1.venue_order_id
                && forall|j: int| 0 <= j < i ==> !foreign_fill_at(*old(ctx), j, new_id.0@)),
{
    match &ctx.venue_order_id {
        None => {
            let n = ctx.applied_fills.len();
            let mut i: usize = 0;
            while i < n
                invariant
                    n == ctx.applied_fills.entries_view().len(),
                    i <= n,
                    ctx.venue_order_id is None,
                    *ctx == *old(ctx),
                    forall|j: int| 0 <= j < i ==> !foreign_fill_at(*ctx, j, new_id.0@),
                decreases n - i,
            {
                let e = ctx.applied_fills.entry(i);
                if let Some(got) = &e.1.venue_order_id {
                    if !(got.0 == new_id.0) {
                        proof {
                            assert(foreign_fill_at(*ctx, i as int, new_id.0@));
                            assert(first_foreign(*ctx, new_id.0@, i as int));
                            let k = choose|k: int| first_foreign(*ctx, new_id.0@, k);
                            if k < i {
                                assert(foreign_fill_at(*ctx, k, new_id.0@));
                            }
                            if i < k {
                                assert(foreign_fill_at(*ctx, i as int, new_id.0@));
                            }
                            assert(k == i);
                        }
                        return Err(
                            HaltReason::FillOwnershipMismatch {
                                fill_id: e.0.clone(),
                                expected: new_id.clone(),
                                got: got.clone(),
                            },
                        );
                    }
                }
                i = i + 1;
            }
            let cid = ctx.client_order_id.clone();
            ctx.venue_order_id = Some(new_id.clone());
            let j = JournalRecord::VenueBoundCid { client_order_id: cid, venue_order_id: new_id.clone() };
            proof {
                lemma_record_journaled(*old(ctx), j, *ctx);
            }
            Ok(Some(j))
        },
        Some(existing) => {
            if existing.0 == new_id.0 {
                proof {
                    assert(journal_of(record_effects(None)) =~= Seq::<JournalRecord>::empty());
                }
                Ok(None)
            } else {
                Err(HaltReason::OwnershipConflict { expected: existing.clone(), got: new_id.clone() })
            }
        },
    }
}

/// The order is bound to the state's venue and the event names no other.
pub open spec fn venue_agrees(c: OrderCtx, state_vid: VenueOrderId, event_vid: Option<VenueOrderId>) -> bool {
    &&& c.venue_order_id matches Some(b) && b.0@ == state_vid.0@
    &&& (event_vid matches Some(e) ==> e.0@ == state_vid.0@)
}

/// Resolve the venue id of a reconcile result: bind the state's id, then the
/// event's id when present; a conflict after the first bind carries its journal.
pub(crate) fn resolve_reconcile_venue(
    ctx: &mut OrderCtx,
    state_vid: &VenueOrderId,
    event_vid: &Option<VenueOrderId>,
) -> (r: Result<(VenueOrderId, Option<JournalRecord>), (HaltReason, Option<JournalRecord>)>)
    ensures
        ctx_evolves(*old(ctx), *final(ctx)),
        r matches Ok((v, _)) ==> (final(ctx).venue_order_id matches Some(b) && b.0@ == v.0@) && (
        match *event_vid {
            Some(e) => v == e,
            None => v == *state_vid,
        }),
        r matches Ok((_, Some(j))) ==> j is VenueBoundCid,
        r matches Err((_, Some(j))) ==> j is VenueBoundCid,
        r matches Ok((_, jr)) ==> journaled(*old(ctx), record_effects(jr), *final(ctx)),
        r matches Err((_, jr)) ==> journaled(*old(ctx), record_effects(jr), *final(ctx)),
        *final(ctx) == (OrderCtx { venue_order_id: final(ctx).venue_order_id, ..*old(ctx) }),
        venue_agrees(*old(ctx), *state_vid, *event_vid) ==> (r matches Ok((_, None)) && *final(ctx) == *old(ctx)),
{
    let mut bind_jr = match bind_venue_id(ctx, state_vid) {
        Ok(jr) => jr,
        Err(reason) => {
            proof {
                assert(journal_of(record_effects(None)) =~= Seq::<JournalRecord>::empty());
            }
            return Err((reason, None));
        },
    };
    let ghost mid = *ctx;
    match event_vid {
        Some(ev) => {
            match bind_venue_id(ctx, ev) {
                Ok(Some(jr)) => bind_jr = Some(jr),
                Ok(None) => {},
                Err(reason) => {
                    proof {
                        super::outcome::lemma_evolves_trans(*old(ctx), mid, *ctx);
                    }
                    return Err((reason, bind_jr));
                },
            }
            proof {
                super::outcome::lemma_evolves_trans(*old(ctx), mid, *ctx);
            }
            Ok((ev.clone(), bind_jr))
        },
        None => Ok((state_vid.clone(), bind_jr)),
    }
}

// ─── Obligation / authority evidence ─────────────────────────────────────────

/// Raise the obligation from venue evidence; journals the raise when it moved.
pub(crate) fn note_fill_evidence(ctx: &mut OrderCtx, venue_filled: u64) -> (r: Result<
    Option<JournalRecord>,
    HaltReason,
>)
    ensures
        ctx_evolves(*old(ctx), *final(ctx)),
        venue_filled > old(ctx).qty ==> r == Err::<Option<JournalRecord>, HaltReason>(
            HaltReason::ObligationExceedsOrderQty {
                fill_obligation: venue_filled,
                order_qty: old(ctx).qty,
            },
        ) && *final(ctx) == *old(ctx),
        venue_filled <= old(ctx).qty ==> r is Ok && final(ctx).fill_obligation == (if venue_filled
            > old(ctx).fill_obligation {
            venue_filled
        } else {
            old(ctx).fill_obligation
        }),
        venue_filled <= old(ctx).qty && venue_filled <= old(ctx).fill_obligation ==> r == Ok::<
            Option<JournalRecord>,
            HaltReason,
        >(None) && *final(ctx) == *old(ctx),
        r matches Ok(Some(j)) ==> j == (JournalRecord::ObligationRaised {
            fill_obligation: final(ctx).fill_obligation,
            authority_epoch: final(ctx).authority_epoch,
        }),
        final(ctx).attributed_fill_qty == old(ctx).attributed_fill_qty,
        final(ctx).applied_fills == old(ctx).applied_fills,
        final(ctx).authority_complete ==> old(ctx).authority_complete,
        r matches Ok(jr) ==> journaled(*old(ctx), record_effects(jr), *final(ctx)),
        venue_filled <= old(ctx).qty && venue_filled > old(ctx).fill_obligation ==> {
            let raised = OrderCtx { fill_obligation: venue_filled, ..*old(ctx) };
            &&& *final(ctx) == if old(ctx).attributed_fill_qty < venue_filled {
                invalidated(raised)
            } else {
                raised
            }
            &&& r == Ok::<Option<JournalRecord>, HaltReason>(
                Some(
                    JournalRecord::ObligationRaised {
                        fill_obligation: venue_filled,
                        authority_epoch: final(ctx).authority_epoch,
                    },
                ),
            )
        },
{
    let before = ctx.fill_obligation;
    ctx.raise_fill_obligation(venue_filled)?;
    let mut jr = None;
    if ctx.fill_obligation > before {
        let j = JournalRecord::ObligationRaised {
            fill_obligation: ctx.fill_obligation,
            authority_epoch: ctx.authority_epoch,
        };
        proof {
            lemma_record_journaled(*old(ctx), j, *ctx);
        }
        jr = Some(j);
    } else {
        proof {
            assert(journal_of(record_effects(None)) =~= Seq::<JournalRecord>::empty());
        }
    }
    Ok(jr)
}

/// Set the obligation high-water only (no authority side effects). Used by the fold.
pub(crate) fn restore_fill_obligation(ctx: &mut OrderCtx, evidence: u64) -> (r: Result<(), HaltReason>)
    ensures
        evidence > old(ctx).qty ==> r == Err::<(), HaltReason>(
            HaltReason::ObligationExceedsOrderQty {
                fill_obligation: evidence,
                order_qty: old(ctx).qty,
            },
        ) && *final(ctx) == *old(ctx),
        evidence <= old(ctx).qty ==> r is Ok && *final(ctx) == (OrderCtx {
            fill_obligation: if evidence > old(ctx).fill_obligation {
                evidence
            } else {
                old(ctx).fill_obligation
            },
            ..*old(ctx)
        }),
{
    if evidence > ctx.qty {
        return Err(
            HaltReason::ObligationExceedsOrderQty { fill_obligation: evidence, order_qty: ctx.qty },
        );
    }
    if evidence > ctx.fill_obligation {
        ctx.fill_obligation = evidence;
    }
    Ok(())
}

/// Latch authority from shell-proven evidence; journals the latch.
pub(crate) fn note_authority_complete(ctx: &mut OrderCtx, complete: bool) -> (r: Option<JournalRecord>)
    ensures
        complete ==> *final(ctx) == (OrderCtx {
            authority_complete: true,
            authority_latched_epoch: old(ctx).authority_epoch,
            ..*old(ctx)
        }) && r == Some(JournalRecord::AuthorityLatched { epoch: old(ctx).authority_epoch }),
        !complete ==> *final(ctx) == *old(ctx) && r is None,
        ctx_evolves(*old(ctx), *final(ctx)),
        journaled(*old(ctx), record_effects(r), *final(ctx)),
{
    if complete {
        ctx.latch_authority_complete();
        let j = JournalRecord::AuthorityLatched { epoch: ctx.authority_epoch };
        proof {
            lemma_record_journaled(*old(ctx), j, *ctx);
        }
        Some(j)
    } else {
        proof {
            assert(journal_of(record_effects(None)) =~= Seq::<JournalRecord>::empty());
        }
        None
    }
}

/// Invalidate the authority generation and journal it.
pub(crate) fn authority_invalidate_effects(ctx: &mut OrderCtx) -> (r: Vec<Effect>)
    ensures
        *final(ctx) == invalidated(*old(ctx)),
        r@ == seq![
            Effect::AppendFsync(JournalRecord::AuthorityInvalidated { epoch: final(ctx).authority_epoch }),
        ],
        ctx_evolves(*old(ctx), *final(ctx)),
        no_release(r@),
        journaled(*old(ctx), r@, *final(ctx)),
{
    ctx.invalidate_authority();
    let r = vec![Effect::AppendFsync(JournalRecord::AuthorityInvalidated { epoch: ctx.authority_epoch })];
    proof {
        assert(r@ =~= record_effects(Some(JournalRecord::AuthorityInvalidated { epoch: ctx.authority_epoch })));
        lemma_record_journaled(*old(ctx), JournalRecord::AuthorityInvalidated { epoch: ctx.authority_epoch }, *ctx);
        assert(r@.len() == 1);
        assert forall|i: int| 0 <= i < r@.len() implies !(#[trigger] r@[i] is ReleaseReservation) by {}
    }
    r
}

// ─── Response snapshot domain ────────────────────────────────────────────────

pub fn has_reliable_boundary(ctx: &OrderCtx) -> (r: bool)
    ensures
        r == reliable_boundary(*ctx),
{
    match ctx.response_snapshot_boundary {
        Some(SnapshotBoundary::TsNs(_)) => true,
        _ => false,
    }
}

/// A fill timestamp belongs to the response snapshot domain (timestamp boundary only).
pub open spec fn in_domain(ctx: OrderCtx, ts_ns: i64) -> bool {
    ctx.response_snapshot_boundary matches Some(SnapshotBoundary::TsNs(b)) && ts_ns <= b
}

pub(crate) fn fill_in_response_domain(ctx: &OrderCtx, ts_ns: i64) -> (r: bool)
    ensures
        r == in_domain(*ctx, ts_ns),
{
    match ctx.response_snapshot_boundary {
        Some(SnapshotBoundary::TsNs(boundary)) => ts_ns <= boundary,
        Some(SnapshotBoundary::Sequence(_)) => false,
        None => false,
    }
}

/// The text of a domain overfill.
pub open spec fn domain_overfill_text(q: u64, rc: u64) -> Seq<char> {
    "response_domain_qty="@ + decimal(q as nat) + " > response_fill_count="@ + decimal(rc as nat)
}

pub(crate) fn domain_overfill_detail(q: u64, rc: u64) -> (r: String)
    ensures
        r@ == domain_overfill_text(q, rc),
{
    text2("response_domain_qty=", q as u128, " > response_fill_count=", rc as u128)
}

/// In-domain qty above the declared response fill count.
pub(crate) fn response_domain_overfill_detail(ctx: &OrderCtx) -> (r: Option<String>)
    ensures
        r is Some <==> (ctx.response_fill_count is Some && reliable_boundary(*ctx)
            && ctx.response_domain_qty > ctx.response_fill_count->0),
        r matches Some(s) ==> s@ == domain_overfill_text(
            ctx.response_domain_qty,
            ctx.response_fill_count->0,
        ),
{
    let rc = match ctx.response_fill_count {
        Some(rc) => rc,
        None => return None,
    };
    if has_reliable_boundary(ctx) && ctx.response_domain_qty > rc {
        Some(domain_overfill_detail(ctx.response_domain_qty, rc))
    } else {
        None
    }
}

pub open spec fn max_u64(a: u64, b: u64) -> u64 {
    if a >= b {
        a
    } else {
        b
    }
}

pub open spec fn sat_add_u64(a: u64, b: u64) -> u64 {
    if a + b > u64::MAX {
        u64::MAX
    } else {
        (a + b) as u64
    }
}

pub open spec fn sat_add_u128(a: u128, b: u128) -> u128 {
    if a + b > u128::MAX {
        u128::MAX
    } else {
        (a + b) as u128
    }
}

/// The context after accumulating one fill into the response snapshot domain.
pub open spec fn accumulated(ctx: OrderCtx, qty: u64, price: u64, fee: Option<u64>, ts: i64) -> OrderCtx {
    if ctx.response_fill_count is Some && reliable_boundary(ctx) && in_domain(ctx, ts) {
        OrderCtx {
            response_domain_qty: sat_add_u64(ctx.response_domain_qty, qty),
            response_domain_notional_cents: sat_add_u128(
                ctx.response_domain_notional_cents,
                (qty as int * price as int) as u128,
            ),
            response_domain_fee_cents: match fee {
                Some(f) => sat_add_u64(ctx.response_domain_fee_cents, f),
                None => ctx.response_domain_fee_cents,
            },
            ..ctx
        }
    } else {
        ctx
    }
}

/// Accumulate a fill into the response snapshot domain by identity (no truncation).
pub(crate) fn accumulate_response_domain(
    ctx: &mut OrderCtx,
    qty: u64,
    price_cents: u64,
    fee_cents: Option<u64>,
    ts_ns: i64,
)
    ensures
        *final(ctx) == accumulated(*old(ctx), qty, price_cents, fee_cents, ts_ns),
{
    if ctx.response_fill_count.is_none() {
        return ;
    }
    if !has_reliable_boundary(ctx) {
        return ;
    }
    if !fill_in_response_domain(ctx, ts_ns) {
        return ;
    }
    ctx.response_domain_qty = ctx.response_domain_qty.saturating_add(qty);
    proof {
        assert((qty as int) * (price_cents as int) <= u64::MAX as int * u64::MAX as int) by (nonlinear_arith)
            requires
                qty <= u64::MAX,
                price_cents <= u64::MAX,
        ;
        assert(u64::MAX as int * u64::MAX as int <= u128::MAX as int);
    }
    let notional = qty as u128 * price_cents as u128;
    ctx.response_domain_notional_cents = ctx.response_domain_notional_cents.saturating_add(notional);
    if let Some(f) = fee_cents {
        ctx.response_domain_fee_cents = ctx.response_domain_fee_cents.saturating_add(f);
    }
}

/// Fold the applied fills (stored order) into the response domain.
pub open spec fn domain_fold(ctx: OrderCtx, fills: Seq<(FillId, FillPayload)>) -> OrderCtx
    decreases fills.len(),
{
    if fills.len() == 0 {
        ctx
    } else {
        let p = fills.last().1;
        accumulated(domain_fold(ctx, fills.drop_last()), p.qty, p.price_cents, p.fee, p.ts_ns)
    }
}

/// The domain accumulators reset to zero.
pub open spec fn domain_zeroed(ctx: OrderCtx) -> OrderCtx {
    OrderCtx {
        response_domain_qty: 0,
        response_domain_notional_cents: 0,
        response_domain_fee_cents: 0,
        ..ctx
    }
}

/// The context after rebuilding the response domain from the applied fills.
pub open spec fn recomputed(ctx: OrderCtx) -> OrderCtx {
    if ctx.response_fill_count is None || !reliable_boundary(ctx) {
        domain_zeroed(ctx)
    } else {
        domain_fold(domain_zeroed(ctx), ctx.applied_fills.entries_view())
    }
}

pub proof fn lemma_domain_fold_fields(ctx: OrderCtx, fills: Seq<(FillId, FillPayload)>)
    ensures
        domain_fold(ctx, fills) == (OrderCtx {
            response_domain_qty: domain_fold(ctx, fills).response_domain_qty,
            response_domain_notional_cents: domain_fold(ctx, fills).response_domain_notional_cents,
            response_domain_fee_cents: domain_fold(ctx, fills).response_domain_fee_cents,
            ..ctx
        }),
    decreases fills.len(),
{
    if fills.len() > 0 {
        lemma_domain_fold_fields(ctx, fills.drop_last());
    }
}

/// The domain fold reads only the response snapshot and the domain accumulators.
pub proof fn lemma_domain_fold_frame(a: OrderCtx, b: OrderCtx, fills: Seq<(FillId, FillPayload)>)
    requires
        a.response_fill_count == b.response_fill_count,
        a.response_snapshot_boundary == b.response_snapshot_boundary,
        a.response_domain_qty == b.response_domain_qty,
        a.response_domain_notional_cents == b.response_domain_notional_cents,
        a.response_domain_fee_cents == b.response_domain_fee_cents,
    ensures
        domain_fold(a, fills).response_domain_qty == domain_fold(b, fills).response_domain_qty,
        domain_fold(a, fills).response_domain_notional_cents == domain_fold(b, fills).response_domain_notional_cents,
        domain_fold(a, fills).response_domain_fee_cents == domain_fold(b, fills).response_domain_fee_cents,
    decreases fills.len(),
{
    if fills.len() > 0 {
        lemma_domain_fold_frame(a, b, fills.drop_last());
        lemma_domain_fold_fields(a, fills.drop_last());
        lemma_domain_fold_fields(b, fills.drop_last());
    }
}

/// Recomputing the domain changes the domain accumulators only.
pub proof fn lemma_recomputed_fields(c: OrderCtx)
    ensures
        recomputed(c) == (OrderCtx {
            response_domain_qty: recomputed(c).response_domain_qty,
            response_domain_notional_cents: recomputed(c).response_domain_notional_cents,
            response_domain_fee_cents: recomputed(c).response_domain_fee_cents,
            ..c
        }),
{
    lemma_domain_fold_fields(domain_zeroed(c), c.applied_fills.entries_view());
}

/// Recomputing the domain commutes with a change of obligation or authority.
pub proof fn lemma_recomputed_frame(c: OrderCtx, obligation: u64, epoch: u64, complete: bool)
    ensures
        recomputed(
            OrderCtx { fill_obligation: obligation, authority_epoch: epoch, authority_complete: complete, ..c },
        ) == (OrderCtx {
            fill_obligation: obligation,
            authority_epoch: epoch,
            authority_complete: complete,
            ..recomputed(c)
        }),
{
    let c2 = OrderCtx { fill_obligation: obligation, authority_epoch: epoch, authority_complete: complete, ..c };
    if !(c.response_fill_count is None || !reliable_boundary(c)) {
        let f = c.applied_fills.entries_view();
        lemma_domain_fold_frame(domain_zeroed(c), domain_zeroed(c2), f);
        lemma_domain_fold_fields(domain_zeroed(c), f);
        lemma_domain_fold_fields(domain_zeroed(c2), f);
    }
}

/// Rebuild the response domain from applied fills (WS-before-response path).
pub(crate) fn recompute_response_domain(ctx: &mut OrderCtx)
    ensures
        *final(ctx) == recomputed(*old(ctx)),
        *final(ctx) == (OrderCtx {
            response_domain_qty: final(ctx).response_domain_qty,
            response_domain_notional_cents: final(ctx).response_domain_notional_cents,
            response_domain_fee_cents: final(ctx).response_domain_fee_cents,
            ..*old(ctx)
        }),
{
    ctx.response_domain_qty = 0;
    ctx.response_domain_notional_cents = 0;
    ctx.response_domain_fee_cents = 0;
    if ctx.response_fill_count.is_none() || !has_reliable_boundary(ctx) {
        return ;
    }
    let ghost start = *ctx;
    let n = ctx.applied_fills.len();
    let mut i: usize = 0;
    while i < n
        invariant
            i <= n,
            n == start.applied_fills.entries_view().len(),
            *ctx == domain_fold(start, start.applied_fills.entries_view().subrange(0, i as int)),
        decreases n - i,
    {
        proof {
            lemma_domain_fold_fields(start, start.applied_fills.entries_view().subrange(0, i as int));
        }
        let (q, p, f, t) = {
            let e = ctx.applied_fills.entry(i);
            (e.1.qty, e.1.price_cents, e.1.fee, e.1.ts_ns)
        };
        accumulate_response_domain(ctx, q, p, f, t);
        proof {
            let s = start.applied_fills.entries_view();
            assert(s.subrange(0, i + 1).drop_last() =~= s.subrange(0, i as int));
        }
        i = i + 1;
    }
    proof {
        assert(start.applied_fills.entries_view().subrange(0, n as int)
            =~= start.applied_fills.entries_view());
        lemma_domain_fold_fields(start, start.applied_fills.entries_view());
    }
}

// ─── Cross-check texts ───────────────────────────────────────────────────────

/// Text of an avg/notional mismatch.
pub open spec fn avg_mismatch_text(notional: u128, avg: u64, count: u64) -> Seq<char> {
    "avg/notional mismatch: response_avg="@ + decimal(avg as nat) + " fill_count="@ + decimal(
        count as nat,
    ) + " expected_notional="@ + decimal((avg as int * count as int) as nat)
        + " attributed_notional="@ + decimal(notional as nat) + " tol=±"@ + decimal(count as nat)
}

/// Notional cross-check vs response avg·fill_count with ±(fill_count × 1¢) tolerance.
pub(crate) fn notional_avg_mismatch(attributed_notional: u128, response_avg: u64, fill_count: u64) -> (r:
    Option<String>)
    ensures
        r is None <==> notional_within(attributed_notional, response_avg, fill_count),
        r matches Some(s) ==> s@ == avg_mismatch_text(attributed_notional, response_avg, fill_count),
{
    if fill_count == 0 {
        return None;
    }
    proof {
        assert((response_avg as int) * (fill_count as int) <= u64::MAX as int * u64::MAX as int) by (nonlinear_arith)
            requires
                response_avg <= u64::MAX,
                fill_count <= u64::MAX,
        ;
        assert(u64::MAX as int * u64::MAX as int <= u128::MAX as int);
    }
    let expected = response_avg as u128 * fill_count as u128;
    let tol = fill_count as u128;
    let diff = if attributed_notional >= expected {
        attributed_notional - expected
    } else {
        expected - attributed_notional
    };
    if diff > tol {
        let mut s = owned("avg/notional mismatch: response_avg=");
        push_decimal(&mut s, response_avg as u128);
        s.append(" fill_count=");
        push_decimal(&mut s, fill_count as u128);
        s.append(" expected_notional=");
        push_decimal(&mut s, expected);
        s.append(" attributed_notional=");
        push_decimal(&mut s, attributed_notional);
        s.append(" tol=±");
        push_decimal(&mut s, tol);
        Some(s)
    } else {
        None
    }
}

/// Text of a fee mismatch.
pub open spec fn fee_mismatch_text(resp: u64, attributed: u64) -> Seq<char> {
    "fee mismatch: response_fee_cents="@ + decimal(resp as nat) + " attributed_fee_cents="@
        + decimal(attributed as nat)
}

/// Response fee vs Σ venue-reported fill fees.
pub(crate) fn fee_cross_check_mismatch(response_fee: Option<u64>, attributed_fee: u64) -> (r: Option<
    String,
>)
    ensures
        r is Some <==> (response_fee matches Some(f) && f != attributed_fee),
        r matches Some(s) ==> s@ == fee_mismatch_text(response_fee->0, attributed_fee),
{
    let resp = match response_fee {
        Some(f) => f,
        None => return None,
    };
    if resp != attributed_fee {
        Some(
            text2(
                "fee mismatch: response_fee_cents=",
                resp as u128,
                " attributed_fee_cents=",
                attributed_fee as u128,
            ),
        )
    } else {
        None
    }
}

} // verus!
