//! Fill booking: ownership check, payload conflict / enrichment, checked overfill.

use vstd::prelude::*;

use super::account::{
    accumulate_response_domain, accumulated, domain_overfill_text, fill_in_response_domain,
    in_domain, max_u64, opt_venue_eq, payload_eq, response_domain_overfill_detail,
    restore_fill_obligation, sat_add_u128, sat_add_u64,
};
use super::ctx::{invalidated, AppliedFills, OrderCtx};
use super::outcome::{ctx_evolves, reliable_boundary};
use super::types::{
    no_release, payload_same, same_opt_venue, Effect, FillId, FillPayload, FillRecord, HaltReason,
    JournalRecord, VenueOrderId,
};
use crate::text::owned;

verus! {

/// Result of trying to book one fill.
pub enum AccountAttempt {
    /// Same fill_id, same payload: nothing to do.
    NoOp,
    /// New fill_id booked.
    Applied { effects: Vec<Effect> },
    /// Same fill_id: fee / provenance enrichment only, no new qty.
    Enriched { effects: Vec<Effect> },
    Halt { reason: HaltReason, effects: Vec<Effect> },
}

/// The payload a fill event carries.
pub open spec fn event_payload(
    qty: u64,
    price_cents: u64,
    ts_ns: i64,
    venue: Option<VenueOrderId>,
    fee: Option<u64>,
) -> FillPayload {
    FillPayload { qty, price_cents, fee, venue_order_id: venue, ts_ns }
}

/// Re-delivery of an already applied fill with the same economic fields.
pub open spec fn fill_is_noop(
    ctx: OrderCtx,
    k: Seq<char>,
    qty: u64,
    price_cents: u64,
    venue: Option<VenueOrderId>,
    fee: Option<u64>,
) -> bool {
    ctx.applied_fills.lookup(k) matches Some(p) && p.qty == qty && p.price_cents == price_cents
        && p.fee == fee && same_opt_venue(p.venue_order_id, venue)
}

/// A new fill's venue matches the bound parent (or no parent is bound yet).
pub open spec fn fill_owned(ctx: OrderCtx, venue: Option<VenueOrderId>) -> bool {
    ctx.venue_order_id matches Some(v) ==> (venue matches Some(w) && w.0@ == v.0@)
}

/// Facts common to every booking attempt.
pub open spec fn attempt_post(
    old_ctx: OrderCtx,
    new_ctx: OrderCtx,
    k: Seq<char>,
    qty: u64,
    price_cents: u64,
    ts_ns: i64,
    venue: Option<VenueOrderId>,
    fee: Option<u64>,
    restore_mode: bool,
    r: AccountAttempt,
) -> bool {
    &&& ctx_evolves(old_ctx, new_ctx)
    &&& forall|k2: Seq<char>| k2 != k ==> #[trigger] new_ctx.applied_fills.lookup(k2) == old_ctx.applied_fills.lookup(k2)
    &&& (r is NoOp <==> fill_is_noop(old_ctx, k, qty, price_cents, venue, fee))
    &&& (r is NoOp ==> new_ctx == old_ctx)
    &&& (!(r is Halt) ==> fill_is_noop(new_ctx, k, qty, price_cents, venue, fee))
    &&& match r {
        AccountAttempt::NoOp => true,
        AccountAttempt::Applied { effects } => {
            &&& !old_ctx.applied_fills.has_key(k)
            &&& fill_owned(old_ctx, venue)
            &&& new_ctx.applied_fills.lookup(k) == Some(event_payload(qty, price_cents, ts_ns, venue, fee))
            &&& new_ctx.attributed_fill_qty == old_ctx.attributed_fill_qty + qty
            &&& new_ctx.attributed_fill_qty <= new_ctx.qty
            &&& new_ctx.fill_obligation >= new_ctx.attributed_fill_qty
            &&& new_ctx.venue_order_id == old_ctx.venue_order_id
            &&& no_release(effects@)
            &&& (restore_mode ==> effects@.len() == 0)
            &&& (!restore_mode ==> !new_ctx.authority_complete)
        },
        AccountAttempt::Enriched { effects } => {
            &&& old_ctx.applied_fills.has_key(k)
            &&& new_ctx.attributed_fill_qty == old_ctx.attributed_fill_qty
            &&& new_ctx.fill_obligation == old_ctx.fill_obligation
            &&& new_ctx.authority_complete == old_ctx.authority_complete
            &&& new_ctx.authority_epoch == old_ctx.authority_epoch
            &&& new_ctx.authority_latched_epoch == old_ctx.authority_latched_epoch
            &&& new_ctx.venue_order_id == old_ctx.venue_order_id
            &&& new_ctx.applied_fills.lookup(k) matches Some(p) && p.qty == qty && p.price_cents == price_cents
            &&& no_release(effects@)
        },
        AccountAttempt::Halt { effects, .. } => no_release(effects@),
    }
}

/// The fee a fill contributes to the attributed total (`None` counts 0).
pub open spec fn fee_or_zero(fee: Option<u64>) -> u64 {
    match fee {
        Some(f) => f,
        None => 0,
    }
}

/// A first sighting passes ownership, the checked overfill and the fee total.
pub open spec fn new_fill_admitted(c: OrderCtx, qty: u64, venue: Option<VenueOrderId>, fee: Option<u64>) -> bool {
    &&& fill_owned(c, venue)
    &&& c.attributed_fill_qty + qty <= c.qty
    &&& c.attributed_fee_cents + fee_or_zero(fee) <= u64::MAX
}

/// Why a first sighting that is not admitted is refused.
pub open spec fn new_fill_refusal(
    c: OrderCtx,
    fill_id: FillId,
    qty: u64,
    venue: Option<VenueOrderId>,
    fee: Option<u64>,
    reason: HaltReason,
) -> bool {
    if !fill_owned(c, venue) {
        reason matches HaltReason::FillOwnershipMismatch { fill_id: f, expected: e, got: g } && f == fill_id
            && e == c.venue_order_id->0 && (venue matches Some(w) ==> g == w) && (venue is None ==> g.0@
            == "<missing>"@)
    } else if c.attributed_fill_qty + qty > c.qty {
        reason == HaltReason::OverFill { attributed_fill_qty: c.attributed_fill_qty, fill_qty: qty, order_qty: c.qty }
    } else {
        reason == HaltReason::FeeOverflow { fill_id }
    }
}

/// The context with one more fill attributed (qty, notional, fee).
pub open spec fn booked_shape(c: OrderCtx, qty: u64, price: u64, fee: Option<u64>) -> OrderCtx {
    OrderCtx {
        attributed_fill_qty: (c.attributed_fill_qty + qty) as u64,
        attributed_notional_cents: sat_add_u128(c.attributed_notional_cents, (qty as int * price as int) as u128),
        attributed_fee_cents: (c.attributed_fee_cents + fee_or_zero(fee)) as u64,
        ..c
    }
}

/// The context after restoring a new fill from the journal: booked, obligation
/// raised to the attributed qty, response domain accumulated.
pub open spec fn restore_shape(c: OrderCtx, qty: u64, price: u64, ts: i64, fee: Option<u64>) -> OrderCtx {
    let b = booked_shape(c, qty, price, fee);
    accumulated(
        OrderCtx { fill_obligation: max_u64(b.attributed_fill_qty, c.fill_obligation), ..b },
        qty,
        price,
        fee,
        ts,
    )
}

/// The context after booking a new fill live: as restored, with authority invalidated.
pub open spec fn live_shape(c: OrderCtx, qty: u64, price: u64, ts: i64, fee: Option<u64>) -> OrderCtx {
    let b = booked_shape(c, qty, price, fee);
    accumulated(
        OrderCtx { fill_obligation: max_u64(b.attributed_fill_qty, c.fill_obligation), ..invalidated(b) },
        qty,
        price,
        fee,
        ts,
    )
}

/// In-domain qty above the declared response fill count.
pub open spec fn domain_overfilled(c: OrderCtx) -> bool {
    c.response_fill_count is Some && reliable_boundary(c) && c.response_domain_qty > c.response_fill_count->0
}

/// The effects of booking a new fill live: authority invalidated, obligation raised
/// when it grows, the fill journaled and accounted.
pub open spec fn live_new_effects(
    c: OrderCtx,
    fill_id: FillId,
    qty: u64,
    price: u64,
    ts: i64,
    venue: Option<VenueOrderId>,
    fee: Option<u64>,
) -> Seq<Effect> {
    let epoch = invalidated(c).authority_epoch;
    let n = c.attributed_fill_qty + qty;
    seq![Effect::AppendFsync(JournalRecord::AuthorityInvalidated { epoch })] + (if n > c.fill_obligation {
        seq![
            Effect::AppendFsync(
                JournalRecord::ObligationRaised { fill_obligation: n as u64, authority_epoch: epoch },
            ),
        ]
    } else {
        Seq::<Effect>::empty()
    }) + seq![
        Effect::AppendFsync(
            JournalRecord::Fill { fill_id, qty, price_cents: price, ts_ns: ts, fee_cents: fee, venue_order_id: venue },
        ),
        Effect::AccountFill { fill_id, qty, price_cents: price, ts_ns: ts, fee_cents: fee_or_zero(fee) },
    ]
}

/// Exact result of the first sighting of a fill.
pub open spec fn new_fill_exact(
    c0: OrderCtx,
    c1: OrderCtx,
    fill_id: FillId,
    qty: u64,
    price: u64,
    ts: i64,
    venue: Option<VenueOrderId>,
    fee: Option<u64>,
    restore_mode: bool,
    r: AccountAttempt,
) -> bool {
    if !new_fill_admitted(c0, qty, venue, fee) {
        &&& c1 == c0
        &&& r matches AccountAttempt::Halt { reason, effects }
        &&& effects@.len() == 0
        &&& new_fill_refusal(c0, fill_id, qty, venue, fee, r->Halt_reason)
    } else {
        let s = if restore_mode {
            restore_shape(c0, qty, price, ts, fee)
        } else {
            live_shape(c0, qty, price, ts, fee)
        };
        &&& c1 == OrderCtx { applied_fills: c1.applied_fills, ..s }
        &&& fills_updated(c0.applied_fills, c1.applied_fills, fill_id, event_payload(qty, price, ts, venue, fee))
        &&& if restore_mode {
            r matches AccountAttempt::Applied { effects } && effects@.len() == 0
        } else if domain_overfilled(s) {
            &&& r matches AccountAttempt::Halt { reason: HaltReason::CrossCheckMismatch { detail }, effects }
            &&& r->Halt_reason->CrossCheckMismatch_detail@ == domain_overfill_text(
                s.response_domain_qty,
                s.response_fill_count->0,
            )
            &&& r->Halt_effects@ == live_new_effects(c0, fill_id, qty, price, ts, venue, fee)
        } else {
            r matches AccountAttempt::Applied { effects } && effects@ == live_new_effects(
                c0,
                fill_id,
                qty,
                price,
                ts,
                venue,
                fee,
            )
        }
    }
}

/// A venue that would upgrade a fill disagrees with the bound parent.
pub open spec fn foreign_upgrade(c: OrderCtx, venue: Option<VenueOrderId>) -> bool {
    venue matches Some(w) && c.venue_order_id matches Some(b) && w.0@ != b.0@
}

/// A re-delivered fill is refused: qty or price changed, a known venue or fee
/// changed or dropped, a venue upgrade against the bound parent, or a fee
/// enrichment that overflows the attributed fee total.
pub open spec fn existing_refused(
    c: OrderCtx,
    prev: FillPayload,
    qty: u64,
    price: u64,
    venue: Option<VenueOrderId>,
    fee: Option<u64>,
) -> bool {
    ||| prev.qty != qty || prev.price_cents != price
    ||| (prev.venue_order_id is Some && !same_opt_venue(prev.venue_order_id, venue))
    ||| (prev.venue_order_id is None && foreign_upgrade(c, venue))
    ||| (prev.fee is Some && prev.fee != fee)
    ||| (prev.fee is None && fee is Some && c.attributed_fee_cents + fee->0 > u64::MAX)
}

/// Why a refused re-delivery is refused (checks in order: qty/price, venue, fee).
pub open spec fn existing_refusal(
    c: OrderCtx,
    fill_id: FillId,
    prev: FillPayload,
    qty: u64,
    price: u64,
    venue: Option<VenueOrderId>,
    fee: Option<u64>,
    reason: HaltReason,
) -> bool {
    if prev.qty != qty || prev.price_cents != price {
        reason == HaltReason::ConflictingFillPayload { fill_id }
    } else if prev.venue_order_id is Some && !same_opt_venue(prev.venue_order_id, venue) {
        reason == HaltReason::ConflictingFillPayload { fill_id }
    } else if prev.venue_order_id is None && foreign_upgrade(c, venue) {
        reason == HaltReason::FillOwnershipMismatch { fill_id, expected: c.venue_order_id->0, got: venue->0 }
    } else if prev.fee is Some && prev.fee != fee {
        reason == HaltReason::ConflictingFillPayload { fill_id }
    } else {
        reason == HaltReason::FeeOverflow { fill_id }
    }
}

/// The re-delivery adds a venue or a fee that the recorded payload lacked.
pub open spec fn existing_upgrades(prev: FillPayload, venue: Option<VenueOrderId>, fee: Option<u64>) -> bool {
    (prev.venue_order_id is None && venue is Some) || (prev.fee is None && fee is Some)
}

/// The recorded payload with the missing venue / fee filled in.
pub open spec fn upgraded_payload(prev: FillPayload, venue: Option<VenueOrderId>, fee: Option<u64>) -> FillPayload {
    FillPayload {
        venue_order_id: if prev.venue_order_id is None {
            venue
        } else {
            prev.venue_order_id
        },
        fee: if prev.fee is None {
            fee
        } else {
            prev.fee
        },
        ..prev
    }
}

/// The context after a fee enrichment (attributed fee, and the domain fee when
/// the fill lies in the response domain).
pub open spec fn enriched_shape(c: OrderCtx, prev: FillPayload, fee: Option<u64>) -> OrderCtx {
    if prev.fee is None && fee is Some {
        let f = fee->0;
        OrderCtx {
            response_domain_fee_cents: if in_domain(c, prev.ts_ns) && c.response_fill_count is Some {
                sat_add_u64(c.response_domain_fee_cents, f)
            } else {
                c.response_domain_fee_cents
            },
            attributed_fee_cents: (c.attributed_fee_cents + f) as u64,
            ..c
        }
    } else {
        c
    }
}

/// The effects of an enrichment: the upgraded fill journaled, then the fee correction.
pub open spec fn enriched_effects(
    fill_id: FillId,
    prev: FillPayload,
    venue: Option<VenueOrderId>,
    fee: Option<u64>,
) -> Seq<Effect> {
    let up = upgraded_payload(prev, venue, fee);
    seq![
        Effect::AppendFsync(
            JournalRecord::Fill {
                fill_id,
                qty: prev.qty,
                price_cents: prev.price_cents,
                ts_ns: prev.ts_ns,
                fee_cents: up.fee,
                venue_order_id: up.venue_order_id,
            },
        ),
    ] + if prev.fee is None && fee is Some {
        seq![
            Effect::AppendFsync(JournalRecord::FeeCorrection { fill_id, delta_fee_cents: fee->0 }),
            Effect::AccountFeeCorrection { fill_id, delta_fee_cents: fee->0 },
        ]
    } else {
        Seq::<Effect>::empty()
    }
}

/// Exact result of a re-delivered fill with recorded payload `prev`.
pub open spec fn existing_fill_exact(
    c0: OrderCtx,
    c1: OrderCtx,
    fill_id: FillId,
    prev: FillPayload,
    qty: u64,
    price: u64,
    ts: i64,
    venue: Option<VenueOrderId>,
    fee: Option<u64>,
    r: AccountAttempt,
) -> bool {
    if payload_same(prev, event_payload(qty, price, ts, venue, fee)) {
        r is NoOp && c1 == c0
    } else if existing_refused(c0, prev, qty, price, venue, fee) {
        &&& c1 == c0
        &&& r matches AccountAttempt::Halt { reason, effects }
        &&& effects@.len() == 0
        &&& existing_refusal(c0, fill_id, prev, qty, price, venue, fee, r->Halt_reason)
    } else if !existing_upgrades(prev, venue, fee) {
        r is NoOp && c1 == c0
    } else {
        &&& c1 == OrderCtx { applied_fills: c1.applied_fills, ..enriched_shape(c0, prev, fee) }
        &&& fills_updated(c0.applied_fills, c1.applied_fills, fill_id, upgraded_payload(prev, venue, fee))
        &&& r matches AccountAttempt::Enriched { effects }
        &&& r->Enriched_effects@ == enriched_effects(fill_id, prev, venue, fee)
    }
}

/// Exact result of booking a fill.
pub open spec fn attempt_exact(
    c0: OrderCtx,
    c1: OrderCtx,
    fill_id: FillId,
    qty: u64,
    price: u64,
    ts: i64,
    venue: Option<VenueOrderId>,
    fee: Option<u64>,
    restore_mode: bool,
    r: AccountAttempt,
) -> bool {
    match c0.applied_fills.lookup(fill_id.0@) {
        Some(prev) => existing_fill_exact(c0, c1, fill_id, prev, qty, price, ts, venue, fee, r),
        None => new_fill_exact(c0, c1, fill_id, qty, price, ts, venue, fee, restore_mode, r),
    }
}

/// Replaying a journaled fill (restore mode) from `c` gives `r`: the booking's
/// refusal as an error, otherwise the booked, enriched or unchanged context.
pub open spec fn fill_replayed(
    c: OrderCtx,
    fill_id: FillId,
    qty: u64,
    price: u64,
    ts: i64,
    venue: Option<VenueOrderId>,
    fee: Option<u64>,
    r: Result<OrderCtx, HaltReason>,
) -> bool {
    match c.applied_fills.lookup(fill_id.0@) {
        None => if !new_fill_admitted(c, qty, venue, fee) {
            r matches Err(e) && new_fill_refusal(c, fill_id, qty, venue, fee, e)
        } else {
            r matches Ok(c1) && c1 == (OrderCtx {
                applied_fills: c1.applied_fills,
                ..restore_shape(c, qty, price, ts, fee)
            }) && fills_updated(c.applied_fills, c1.applied_fills, fill_id, event_payload(qty, price, ts, venue, fee))
        },
        Some(prev) => if payload_same(prev, event_payload(qty, price, ts, venue, fee)) {
            r == Ok::<OrderCtx, HaltReason>(c)
        } else if existing_refused(c, prev, qty, price, venue, fee) {
            r matches Err(e) && existing_refusal(c, fill_id, prev, qty, price, venue, fee, e)
        } else if !existing_upgrades(prev, venue, fee) {
            r == Ok::<OrderCtx, HaltReason>(c)
        } else {
            r matches Ok(c1) && c1 == (OrderCtx { applied_fills: c1.applied_fills, ..enriched_shape(c, prev, fee) })
                && fills_updated(c.applied_fills, c1.applied_fills, fill_id, upgraded_payload(prev, venue, fee))
        },
    }
}

/// The fill map is `a` with `k` mapped to `p` (stored as `insert` stores it).
pub open spec fn fills_updated(a: AppliedFills, b: AppliedFills, k: FillId, p: FillPayload) -> bool {
    &&& b.entries_view() == a.with_entry(k, p)
    &&& b.lookup(k.0@) == Some(p)
    &&& forall|k2: Seq<char>| k2 != k.0@ ==> #[trigger] b.lookup(k2) == a.lookup(k2)
    &&& forall|k2: Seq<char>| #[trigger] b.has_key(k2) <==> (a.has_key(k2) || k2 == k.0@)
}

fn ownership_halt(fill_id: &FillId, expected: &VenueOrderId, got: VenueOrderId) -> (r: AccountAttempt)
    ensures
        r matches AccountAttempt::Halt { effects, reason } && effects@.len() == 0 && reason
            == (HaltReason::FillOwnershipMismatch { fill_id: *fill_id, expected: *expected, got }),
{
    AccountAttempt::Halt {
        reason: HaltReason::FillOwnershipMismatch {
            fill_id: fill_id.clone(),
            expected: expected.clone(),
            got,
        },
        effects: Vec::new(),
    }
}

fn conflict_halt(fill_id: &FillId) -> (r: AccountAttempt)
    ensures
        r matches AccountAttempt::Halt { effects, reason } && effects@.len() == 0 && reason
            == (HaltReason::ConflictingFillPayload { fill_id: *fill_id }),
{
    AccountAttempt::Halt {
        reason: HaltReason::ConflictingFillPayload { fill_id: fill_id.clone() },
        effects: Vec::new(),
    }
}

/// Re-delivery of a known fill_id: no-op, enrichment (venue or fee None→Some) or conflict.
fn account_existing_fill(
    ctx: &mut OrderCtx,
    fill_id: &FillId,
    prev: FillPayload,
    qty: u64,
    price_cents: u64,
    ts_ns: i64,
    fill_venue: &Option<VenueOrderId>,
    fee_cents: Option<u64>,
) -> (r: AccountAttempt)
    requires
        old(ctx).applied_fills.lookup(fill_id.0@) == Some(prev),
    ensures
        attempt_post(
            *old(ctx),
            *final(ctx),
            fill_id.0@,
            qty,
            price_cents,
            ts_ns,
            *fill_venue,
            fee_cents,
            false,
            r,
        ),
        existing_fill_exact(*old(ctx), *final(ctx), *fill_id, prev, qty, price_cents, ts_ns, *fill_venue, fee_cents, r),
        !(r is Applied),
{
    let ghost old_ctx = *ctx;
    let new_payload = FillPayload {
        qty,
        price_cents,
        fee: fee_cents,
        venue_order_id: fill_venue.clone(),
        ts_ns,
    };
    if payload_eq(&prev, &new_payload) {
        return AccountAttempt::NoOp;
    }
    if prev.qty != qty || prev.price_cents != price_cents {
        return conflict_halt(fill_id);
    }
    let mut upgraded = prev.clone();
    let mut effects: Vec<Effect> = Vec::new();
    let mut changed = false;
    // venue provenance upgrade None → Some(v)
    match (&prev.venue_order_id, fill_venue) {
        (None, Some(v)) => {
            if let Some(bound) = &ctx.venue_order_id {
                if !(v.0 == bound.0) {
                    return ownership_halt(fill_id, bound, v.clone());
                }
            }
            upgraded.venue_order_id = Some(v.clone());
            changed = true;
        },
        (Some(old_v), Some(new_v)) => {
            if !(old_v.0 == new_v.0) {
                return conflict_halt(fill_id);
            }
        },
        (Some(_), None) => {
            return conflict_halt(fill_id);
        },
        (None, None) => {},
    }
    // fee None → Some(f) is enrichment
    match (prev.fee, fee_cents) {
        (None, Some(f)) => {
            let new_fee_total = match ctx.attributed_fee_cents.checked_add(f) {
                Some(v) => v,
                None => {
                    return AccountAttempt::Halt {
                        reason: HaltReason::FeeOverflow { fill_id: fill_id.clone() },
                        effects: Vec::new(),
                    };
                },
            };
            if fill_in_response_domain(ctx, prev.ts_ns) {
                if ctx.response_fill_count.is_some() {
                    ctx.response_domain_fee_cents = ctx.response_domain_fee_cents.saturating_add(f);
                }
            }
            ctx.attributed_fee_cents = new_fee_total;
            upgraded.fee = Some(f);
            changed = true;
            effects.push(
                Effect::AppendFsync(
                    JournalRecord::FeeCorrection { fill_id: fill_id.clone(), delta_fee_cents: f },
                ),
            );
            effects.push(Effect::AccountFeeCorrection { fill_id: fill_id.clone(), delta_fee_cents: f });
        },
        (Some(a), Some(b)) => {
            if a != b {
                return conflict_halt(fill_id);
            }
        },
        (Some(_), None) => {
            return conflict_halt(fill_id);
        },
        (None, None) => {},
    }
    if !changed {
        // only the timestamp differs: stable fill_id, no-op
        if prev.ts_ns != ts_ns && prev.fee == fee_cents && opt_venue_eq(&prev.venue_order_id, fill_venue) {
            return AccountAttempt::NoOp;
        }
        return conflict_halt(fill_id);
    }
    let ghost mid = *ctx;
    proof {
        assert(upgraded == upgraded_payload(prev, *fill_venue, fee_cents));
        assert(mid == enriched_shape(old_ctx, prev, fee_cents));
    }
    let upgraded_ts = upgraded.ts_ns;
    let upgraded_fee = upgraded.fee;
    let upgraded_venue = upgraded.venue_order_id.clone();
    ctx.applied_fills.insert(fill_id.clone(), upgraded);
    effects.insert(
        0,
        Effect::AppendFsync(
            JournalRecord::Fill {
                fill_id: fill_id.clone(),
                qty,
                price_cents,
                ts_ns: upgraded_ts,
                fee_cents: upgraded_fee,
                venue_order_id: upgraded_venue,
            },
        ),
    );
    proof {
        assert forall|k: Seq<char>| old_ctx.applied_fills.has_key(k) implies #[trigger] ctx.applied_fills.has_key(k) by {}
        assert forall|i: int| 0 <= i < effects@.len() implies !(#[trigger] effects@[i] is ReleaseReservation) by {}
        assert(effects@ =~= enriched_effects(*fill_id, prev, *fill_venue, fee_cents));
    }
    AccountAttempt::Enriched { effects }
}

/// First sighting of a fill_id: ownership, checked overfill and fee, then book.
fn account_new_fill(
    ctx: &mut OrderCtx,
    fill_id: &FillId,
    qty: u64,
    price_cents: u64,
    ts_ns: i64,
    fill_venue: &Option<VenueOrderId>,
    fee_cents: Option<u64>,
    restore_mode: bool,
) -> (r: AccountAttempt)
    requires
        !old(ctx).applied_fills.has_key(fill_id.0@),
    ensures
        attempt_post(
            *old(ctx),
            *final(ctx),
            fill_id.0@,
            qty,
            price_cents,
            ts_ns,
            *fill_venue,
            fee_cents,
            restore_mode,
            r,
        ),
        new_fill_exact(*old(ctx), *final(ctx), *fill_id, qty, price_cents, ts_ns, *fill_venue, fee_cents, restore_mode, r),
        !(r is NoOp) && !(r is Enriched),
{
    let ghost old_ctx = *ctx;
    if let Some(expected) = &ctx.venue_order_id {
        match fill_venue {
            Some(got) => {
                if !(got.0 == expected.0) {
                    return ownership_halt(fill_id, expected, got.clone());
                }
            },
            None => {
                return ownership_halt(fill_id, expected, VenueOrderId(owned("<missing>")));
            },
        }
    }
    let new_attr = match ctx.attributed_fill_qty.checked_add(qty) {
        Some(v) => v,
        None => {
            return AccountAttempt::Halt {
                reason: HaltReason::OverFill {
                    attributed_fill_qty: ctx.attributed_fill_qty,
                    fill_qty: qty,
                    order_qty: ctx.qty,
                },
                effects: Vec::new(),
            };
        },
    };
    if new_attr > ctx.qty {
        return AccountAttempt::Halt {
            reason: HaltReason::OverFill {
                attributed_fill_qty: ctx.attributed_fill_qty,
                fill_qty: qty,
                order_qty: ctx.qty,
            },
            effects: Vec::new(),
        };
    }
    let fee_for_account = match fee_cents {
        Some(f) => f,
        None => 0,
    };
    let new_fee_total = match ctx.attributed_fee_cents.checked_add(fee_for_account) {
        Some(v) => v,
        None => {
            return AccountAttempt::Halt {
                reason: HaltReason::FeeOverflow { fill_id: fill_id.clone() },
                effects: Vec::new(),
            };
        },
    };
    let new_payload = FillPayload {
        qty,
        price_cents,
        fee: fee_cents,
        venue_order_id: fill_venue.clone(),
        ts_ns,
    };
    ctx.applied_fills.insert(fill_id.clone(), new_payload);
    ctx.attributed_fill_qty = new_attr;
    proof {
        assert((qty as int) * (price_cents as int) <= u64::MAX as int * u64::MAX as int) by (nonlinear_arith)
            requires
                qty <= u64::MAX,
                price_cents <= u64::MAX,
        ;
        assert(u64::MAX as int * u64::MAX as int <= u128::MAX as int);
    }
    ctx.attributed_notional_cents = ctx.attributed_notional_cents.saturating_add(
        qty as u128 * price_cents as u128,
    );
    ctx.attributed_fee_cents = new_fee_total;
    let ghost booked = *ctx;
    proof {
        assert forall|k: Seq<char>| old_ctx.applied_fills.has_key(k) implies #[trigger] booked.applied_fills.has_key(k) by {}
    }
    let mut effects: Vec<Effect> = Vec::new();
    if restore_mode {
        if let Err(reason) = restore_fill_obligation(ctx, new_attr) {
            return AccountAttempt::Halt { reason, effects: Vec::new() };
        }
    } else {
        ctx.invalidate_authority();
        effects.push(Effect::AppendFsync(JournalRecord::AuthorityInvalidated { epoch: ctx.authority_epoch }));
        let obl_before = ctx.fill_obligation;
        if let Err(reason) = ctx.raise_fill_obligation(new_attr) {
            effects.push(
                Effect::AppendFsync(
                    JournalRecord::Fill {
                        fill_id: fill_id.clone(),
                        qty,
                        price_cents,
                        ts_ns,
                        fee_cents,
                        venue_order_id: fill_venue.clone(),
                    },
                ),
            );
            effects.push(
                Effect::AccountFill {
                    fill_id: fill_id.clone(),
                    qty,
                    price_cents,
                    ts_ns,
                    fee_cents: fee_for_account,
                },
            );
            proof {
                assert forall|i: int| 0 <= i < effects@.len() implies !(#[trigger] effects@[i] is ReleaseReservation) by {}
            }
            return AccountAttempt::Halt { reason, effects };
        }
        if ctx.fill_obligation > obl_before {
            effects.push(
                Effect::AppendFsync(
                    JournalRecord::ObligationRaised {
                        fill_obligation: ctx.fill_obligation,
                        authority_epoch: ctx.authority_epoch,
                    },
                ),
            );
        }
        effects.push(
            Effect::AppendFsync(
                JournalRecord::Fill {
                    fill_id: fill_id.clone(),
                    qty,
                    price_cents,
                    ts_ns,
                    fee_cents,
                    venue_order_id: fill_venue.clone(),
                },
            ),
        );
        effects.push(
            Effect::AccountFill {
                fill_id: fill_id.clone(),
                qty,
                price_cents,
                ts_ns,
                fee_cents: fee_for_account,
            },
        );
    }
    let ghost pre_domain = *ctx;
    proof {
        let b = booked_shape(old_ctx, qty, price_cents, fee_cents);
        assert(booked == OrderCtx { applied_fills: booked.applied_fills, ..b });
        if restore_mode {
            assert(pre_domain == OrderCtx {
                applied_fills: booked.applied_fills,
                fill_obligation: max_u64(b.attributed_fill_qty, old_ctx.fill_obligation),
                ..b
            });
        } else {
            assert(pre_domain == OrderCtx {
                applied_fills: booked.applied_fills,
                fill_obligation: max_u64(b.attributed_fill_qty, old_ctx.fill_obligation),
                ..invalidated(b)
            });
            assert(effects@ =~= live_new_effects(old_ctx, *fill_id, qty, price_cents, ts_ns, *fill_venue, fee_cents));
        }
    }
    accumulate_response_domain(ctx, qty, price_cents, fee_cents, ts_ns);
    proof {
        assert forall|i: int| 0 <= i < effects@.len() implies !(#[trigger] effects@[i] is ReleaseReservation) by {}
    }
    if !restore_mode {
        if let Some(detail) = response_domain_overfill_detail(ctx) {
            return AccountAttempt::Halt { reason: HaltReason::CrossCheckMismatch { detail }, effects };
        }
    }
    AccountAttempt::Applied { effects }
}

/// Core fill booking. All fill accounting goes through here.
pub(crate) fn account_fill_core(
    ctx: &mut OrderCtx,
    fill_id: &FillId,
    qty: u64,
    price_cents: u64,
    ts_ns: i64,
    fill_venue: &Option<VenueOrderId>,
    fee_cents: Option<u64>,
    restore_mode: bool,
) -> (r: AccountAttempt)
    ensures
        attempt_post(
            *old(ctx),
            *final(ctx),
            fill_id.0@,
            qty,
            price_cents,
            ts_ns,
            *fill_venue,
            fee_cents,
            restore_mode,
            r,
        ),
        attempt_exact(*old(ctx), *final(ctx), *fill_id, qty, price_cents, ts_ns, *fill_venue, fee_cents, restore_mode, r),
{
    let prev: Option<FillPayload> = match ctx.applied_fills.get(fill_id) {
        Some(p) => Some(p.clone()),
        None => None,
    };
    match prev {
        Some(prev) => account_existing_fill(
            ctx,
            fill_id,
            prev,
            qty,
            price_cents,
            ts_ns,
            fill_venue,
            fee_cents,
        ),
        None => account_new_fill(
            ctx,
            fill_id,
            qty,
            price_cents,
            ts_ns,
            fill_venue,
            fee_cents,
            restore_mode,
        ),
    }
}

/// Live booking of a fill event (authority invalidation, full journaling).
pub(crate) fn try_account_fill(
    ctx: &mut OrderCtx,
    fill_id: &FillId,
    qty: u64,
    price_cents: u64,
    ts_ns: i64,
    fill_venue: &Option<VenueOrderId>,
    fee_cents: Option<u64>,
) -> (r: AccountAttempt)
    ensures
        attempt_post(
            *old(ctx),
            *final(ctx),
            fill_id.0@,
            qty,
            price_cents,
            ts_ns,
            *fill_venue,
            fee_cents,
            false,
            r,
        ),
        attempt_exact(*old(ctx), *final(ctx), *fill_id, qty, price_cents, ts_ns, *fill_venue, fee_cents, false, r),
{
    account_fill_core(ctx, fill_id, qty, price_cents, ts_ns, fill_venue, fee_cents, false)
}

/// Live booking of a fill record.
pub(crate) fn try_account_fill_record(ctx: &mut OrderCtx, f: &FillRecord) -> (r: AccountAttempt)
    ensures
        attempt_post(
            *old(ctx),
            *final(ctx),
            f.fill_id.0@,
            f.qty,
            f.price_cents,
            f.ts_ns,
            f.venue_order_id,
            f.fee_cents,
            false,
            r,
        ),
        attempt_exact(*old(ctx), *final(ctx), f.fill_id, f.qty, f.price_cents, f.ts_ns, f.venue_order_id, f.fee_cents, false, r),
{
    account_fill_core(ctx, &f.fill_id, f.qty, f.price_cents, f.ts_ns, &f.venue_order_id, f.fee_cents, false)
}

/// Journal-fold fill restore: book qty/fee/domain without authority side effects.
pub(crate) fn try_account_fill_for_fold(
    ctx: &mut OrderCtx,
    fill_id: &FillId,
    qty: u64,
    price_cents: u64,
    ts_ns: i64,
    fill_venue: &Option<VenueOrderId>,
    fee_cents: Option<u64>,
) -> (r: AccountAttempt)
    ensures
        attempt_post(
            *old(ctx),
            *final(ctx),
            fill_id.0@,
            qty,
            price_cents,
            ts_ns,
            *fill_venue,
            fee_cents,
            true,
            r,
        ),
        attempt_exact(*old(ctx), *final(ctx), *fill_id, qty, price_cents, ts_ns, *fill_venue, fee_cents, true, r),
{
    account_fill_core(ctx, fill_id, qty, price_cents, ts_ns, fill_venue, fee_cents, true)
}

} // verus!
