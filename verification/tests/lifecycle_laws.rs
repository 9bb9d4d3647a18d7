//! Concrete instances of the lifecycle laws proved in the library.

use omsrs::lifecycle::{
    apply_event, derive_client_order_id, rebuild_ctx_from_journal, replay, reservation_held,
    AttemptId, BackfillOrderStatus, CancelOutcome, Effect, FillId, FillRecord, HaltReason,
    JournalRecord, OrderCtx, OrderEvent, OrderState, RejectReason, ReservationHold, Side,
    TransitionOutcome, VenueOrderId,
};

fn fresh_ctx() -> OrderCtx {
    OrderCtx::new(
        derive_client_order_id("MKT-L", "laws", 3),
        "MKT-L",
        "laws",
        Side::BuyYes,
        45,
        10,
    )
}

fn venue(s: &str) -> VenueOrderId {
    VenueOrderId(s.into())
}

fn full_fill_events() -> Vec<OrderEvent> {
    vec![
        OrderEvent::PrepareSubmit,
        OrderEvent::StartSubmit { attempt_id: AttemptId("a-1".into()) },
        OrderEvent::SubmitResponse {
            venue_order_id: venue("V-L"),
            fill_count: 10,
            remaining_count: 0,
            avg_price_cents: Some(45),
            fee_cents: Some(1),
            snapshot_boundary: None,
        },
        OrderEvent::ImmediateFillBackfillResult {
            fills: vec![FillRecord {
                fill_id: FillId("FL".into()),
                qty: 10,
                price_cents: 45,
                ts_ns: 1000,
                venue_order_id: Some(venue("V-L")),
                fee_cents: Some(1),
            }],
        },
    ]
}

fn releases(effects: &[Effect]) -> usize {
    effects
        .iter()
        .filter(|e| matches!(e, Effect::ReleaseReservation))
        .count()
}

#[test]
fn law_replay_releases_once_then_stays_frozen() {
    let mut events = full_fill_events();
    // After the terminal: a re-delivered fill (a no-op), then a retried cancel,
    // which the frozen state refuses and which stops the replay.
    events.push(OrderEvent::Fill {
        fill_id: FillId("FL".into()),
        qty: 10,
        price_cents: 45,
        ts_ns: 1000,
        venue_order_id: Some(venue("V-L")),
        fee_cents: Some(1),
    });
    events.push(OrderEvent::CancelRequested);
    let r = replay(OrderState::New, fresh_ctx(), &events);
    assert!(matches!(r.reject, Some(RejectReason::NotApplicable { .. })));
    assert_eq!(r.halt, None);
    assert_eq!(r.state, OrderState::Filled);
    assert_eq!(releases(&r.effects), 1);
    assert_eq!(r.ctx.attributed_fill_qty, 10);
}

#[test]
fn law_replay_from_frozen_never_releases() {
    let events = full_fill_events();
    let r = replay(OrderState::Canceled, fresh_ctx(), &events);
    assert_eq!(releases(&r.effects), 0);
    assert_eq!(r.state, OrderState::Canceled);
    assert!(matches!(r.reject, Some(RejectReason::NotApplicable { .. })));
}

#[test]
fn law_replay_of_nothing_is_identity() {
    let ctx = fresh_ctx();
    let r = replay(OrderState::New, ctx.clone(), &[]);
    assert_eq!(r.state, OrderState::New);
    assert_eq!(r.ctx, ctx);
    assert!(r.effects.is_empty());
    assert_eq!(r.reject, None);
    assert_eq!(r.halt, None);
}

#[test]
fn law_reject_leaves_ctx_unchanged() {
    let mut ctx = fresh_ctx();
    let before = ctx.clone();
    let o = apply_event(&OrderState::New, &mut ctx, &OrderEvent::SubmitTimeout);
    assert!(o.is_reject());
    assert_eq!(ctx, before);
}

#[test]
fn law_fill_redelivery_is_noop_in_partial() {
    let mut ctx = fresh_ctx();
    let s = apply_event(&OrderState::New, &mut ctx, &OrderEvent::PrepareSubmit)
        .new_state()
        .unwrap()
        .clone();
    let s = apply_event(&s, &mut ctx, &OrderEvent::StartSubmit { attempt_id: AttemptId("a".into()) })
        .new_state()
        .unwrap()
        .clone();
    let s = apply_event(
        &s,
        &mut ctx,
        &OrderEvent::SubmitResponse {
            venue_order_id: venue("V-P"),
            fill_count: 0,
            remaining_count: 10,
            avg_price_cents: None,
            fee_cents: None,
            snapshot_boundary: None,
        },
    )
    .new_state()
    .unwrap()
    .clone();
    assert!(matches!(s, OrderState::Accepted { .. }));
    let fill = OrderEvent::Fill {
        fill_id: FillId("FP".into()),
        qty: 3,
        price_cents: 44,
        ts_ns: 7,
        venue_order_id: Some(venue("V-P")),
        fee_cents: Some(2),
    };
    let first = apply_event(&s, &mut ctx, &fill);
    let s1 = first.new_state().unwrap().clone();
    assert!(matches!(s1, OrderState::Partial { filled_qty: 3, remaining_qty: 7, .. }));
    let after_first = ctx.clone();
    let second = apply_event(&s1, &mut ctx, &fill);
    assert_eq!(
        second,
        TransitionOutcome::Accept { new_state: s1.clone(), effects: vec![] }
    );
    assert_eq!(ctx, after_first);
}

#[test]
fn law_client_order_id_text_and_injective_in_seq() {
    let a = derive_client_order_id("M", "S", 12);
    let b = derive_client_order_id("M", "S", 120);
    assert_eq!(a.as_str(), "M|S|12");
    assert_eq!(b.as_str(), "M|S|120");
    assert_ne!(a, b);
    assert_eq!(derive_client_order_id("", "", 0).as_str(), "||0");
    assert_eq!(
        derive_client_order_id("X", "Y", u64::MAX).as_str(),
        "X|Y|18446744073709551615"
    );
}

#[test]
fn law_rebuild_of_empty_journal_is_base() {
    let base = fresh_ctx();
    let rebuilt = rebuild_ctx_from_journal(base.clone(), &[]).unwrap();
    assert_eq!(rebuilt, base);
}

#[test]
fn rebuild_binds_then_refuses_other_venue() {
    let base = fresh_ctx();
    let records = vec![
        JournalRecord::VenueBound { venue_order_id: venue("V-1") },
        JournalRecord::VenueBound { venue_order_id: venue("V-2") },
    ];
    let err = rebuild_ctx_from_journal(base, &records).unwrap_err();
    assert_eq!(
        err,
        HaltReason::OwnershipConflict { expected: venue("V-1"), got: venue("V-2") }
    );
}

#[test]
fn rebuild_obligation_above_qty_halts() {
    let base = fresh_ctx();
    let records = vec![JournalRecord::ObligationRaised { fill_obligation: 11, authority_epoch: 4 }];
    let err = rebuild_ctx_from_journal(base, &records).unwrap_err();
    assert_eq!(
        err,
        HaltReason::ObligationExceedsOrderQty { fill_obligation: 11, order_qty: 10 }
    );
}

#[test]
fn rebuild_authority_records_take_max_epoch() {
    let base = fresh_ctx();
    let records = vec![
        JournalRecord::AuthorityInvalidated { epoch: 5 },
        JournalRecord::AuthorityLatched { epoch: 3 },
    ];
    let c = rebuild_ctx_from_journal(base, &records).unwrap();
    assert_eq!(c.authority_epoch, 5);
    assert!(c.authority_complete);
    assert_eq!(c.authority_latched_epoch, 3);
    assert!(!c.authority_is_fresh());
}

#[test]
fn rebuild_fee_correction_fills_missing_fee_once() {
    let base = fresh_ctx();
    let records = vec![
        JournalRecord::Fill {
            fill_id: FillId("FF".into()),
            qty: 2,
            price_cents: 45,
            ts_ns: 1,
            fee_cents: None,
            venue_order_id: Some(venue("V-F")),
        },
        JournalRecord::FeeCorrection { fill_id: FillId("FF".into()), delta_fee_cents: 3 },
        JournalRecord::FeeCorrection { fill_id: FillId("FF".into()), delta_fee_cents: 3 },
    ];
    let c = rebuild_ctx_from_journal(base, &records).unwrap();
    assert_eq!(c.attributed_fill_qty, 2);
    assert_eq!(c.attributed_fee_cents, 3);
    assert_eq!(c.applied_fills.get(&FillId("FF".into())).unwrap().fee, Some(3));
}

#[test]
fn reservation_released_only_on_true_terminals() {
    assert_eq!(reservation_held(&OrderState::Filled), ReservationHold::Released);
    assert_eq!(reservation_held(&OrderState::Canceled), ReservationHold::Released);
    assert_eq!(reservation_held(&OrderState::Terminal), ReservationHold::Released);
    assert_eq!(reservation_held(&OrderState::UnknownNoMatch), ReservationHold::Full);
    assert_eq!(reservation_held(&OrderState::SubmitUnknown), ReservationHold::Full);
}

fn journal_records(effects: &[Effect]) -> Vec<JournalRecord> {
    effects
        .iter()
        .filter_map(|e| match e {
            Effect::AppendFsync(j) => Some(j.clone()),
            _ => None,
        })
        .collect()
}

#[test]
fn law_run_journal_rebuilds_live_ctx_full_fill() {
    let r = replay(OrderState::New, fresh_ctx(), &full_fill_events());
    assert_eq!(r.state, OrderState::Filled);
    let rebuilt = rebuild_ctx_from_journal(fresh_ctx(), &journal_records(&r.effects)).unwrap();
    assert_eq!(rebuilt, r.ctx);
}

#[test]
fn law_run_journal_rebuilds_live_ctx_through_cancel_and_reconcile() {
    let events = vec![
        OrderEvent::PrepareSubmit,
        OrderEvent::StartSubmit { attempt_id: AttemptId("a-2".into()) },
        OrderEvent::SubmitResponse {
            venue_order_id: venue("V-R"),
            fill_count: 0,
            remaining_count: 10,
            avg_price_cents: None,
            fee_cents: None,
            snapshot_boundary: None,
        },
        OrderEvent::Fill {
            fill_id: FillId("R1".into()),
            qty: 3,
            price_cents: 45,
            ts_ns: 10,
            venue_order_id: Some(venue("V-R")),
            fee_cents: Some(2),
        },
        OrderEvent::CancelRequested,
        OrderEvent::CancelOutcome(CancelOutcome::Accepted),
        OrderEvent::ReconcileResult {
            status: BackfillOrderStatus::Canceled,
            venue_order_id: Some(venue("V-R")),
            filled_qty: 4,
            remaining_qty: 0,
            fills: vec![FillRecord {
                fill_id: FillId("R2".into()),
                qty: 1,
                price_cents: 44,
                ts_ns: 20,
                venue_order_id: Some(venue("V-R")),
                fee_cents: Some(1),
            }],
            authority_complete: true,
        },
    ];
    let r = replay(OrderState::New, fresh_ctx(), &events);
    assert_eq!(r.reject, None);
    assert_eq!(r.halt, None);
    assert_eq!(r.ctx.attributed_fill_qty, 4);
    let rebuilt = rebuild_ctx_from_journal(fresh_ctx(), &journal_records(&r.effects)).unwrap();
    assert_eq!(rebuilt, r.ctx);
}

#[test]
fn law_fill_booking_journal_replays_from_the_context_before() {
    let mut ctx = fresh_ctx();
    let s = OrderState::Accepted { venue_order_id: venue("V-F") };
    let _ = apply_event(
        &OrderState::SubmitStarted { attempt_id: AttemptId("a-3".into()) },
        &mut ctx,
        &OrderEvent::SubmitResponse {
            venue_order_id: venue("V-F"),
            fill_count: 0,
            remaining_count: 10,
            avg_price_cents: None,
            fee_cents: None,
            snapshot_boundary: None,
        },
    );
    let before = ctx.clone();
    let o = apply_event(
        &s,
        &mut ctx,
        &OrderEvent::Fill {
            fill_id: FillId("F1".into()),
            qty: 4,
            price_cents: 45,
            ts_ns: 5,
            venue_order_id: Some(venue("V-F")),
            fee_cents: None,
        },
    );
    let effects = match &o {
        TransitionOutcome::Accept { effects, .. } => effects.clone(),
        other => panic!("fill must be accepted: {other:?}"),
    };
    // authority invalidated, obligation raised, the fill journaled and accounted
    assert_eq!(journal_records(&effects).len(), 3);
    assert_eq!(rebuild_ctx_from_journal(before.clone(), &journal_records(&effects)).unwrap(), ctx);
    // the fee enrichment of the same fill replays too, and only once
    let before2 = ctx.clone();
    let o2 = apply_event(
        &OrderState::Partial { venue_order_id: venue("V-F"), filled_qty: 4, remaining_qty: 6 },
        &mut ctx,
        &OrderEvent::Fill {
            fill_id: FillId("F1".into()),
            qty: 4,
            price_cents: 45,
            ts_ns: 5,
            venue_order_id: Some(venue("V-F")),
            fee_cents: Some(3),
        },
    );
    assert!(matches!(o2, TransitionOutcome::Accept { .. }));
    assert_eq!(ctx.attributed_fee_cents, 3);
    let e2 = match &o2 {
        TransitionOutcome::Accept { effects, .. } => effects.clone(),
        _ => unreachable!(),
    };
    assert_eq!(rebuild_ctx_from_journal(before2, &journal_records(&e2)).unwrap(), ctx);
}

#[test]
fn law_halt_journal_replay_stops_with_the_same_reason() {
    let mut ctx = fresh_ctx();
    let before = ctx.clone();
    let o = apply_event(
        &OrderState::SubmitStarted { attempt_id: AttemptId("a-4".into()) },
        &mut ctx,
        &OrderEvent::SubmitResponse {
            venue_order_id: venue("V-H"),
            fill_count: 11,
            remaining_count: 0,
            avg_price_cents: None,
            fee_cents: None,
            snapshot_boundary: None,
        },
    );
    let (reason, effects) = match &o {
        TransitionOutcome::Halt { reason, effects, .. } => (reason.clone(), effects.clone()),
        other => panic!("must halt: {other:?}"),
    };
    assert_eq!(reason, HaltReason::ObligationExceedsOrderQty { fill_obligation: 11, order_qty: 10 });
    assert_eq!(rebuild_ctx_from_journal(before, &journal_records(&effects)), Err(reason));
}

#[test]
fn law_unknown_backfill_journal_rebuilds_live_ctx() {
    let events = vec![
        OrderEvent::PrepareSubmit,
        OrderEvent::StartSubmit { attempt_id: AttemptId("a-5".into()) },
        OrderEvent::SubmitTimeout,
        OrderEvent::UnknownBackfillResult {
            exhaustive: true,
            matched: vec![omsrs::lifecycle::BackfillOrderRecord {
                client_order_id: fresh_ctx().client_order_id,
                venue_order_id: venue("V-U"),
                status: BackfillOrderStatus::Partial,
                filled_qty: 2,
                remaining_qty: 8,
                fills: vec![FillRecord {
                    fill_id: FillId("U1".into()),
                    qty: 2,
                    price_cents: 45,
                    ts_ns: 7,
                    venue_order_id: Some(venue("V-U")),
                    fee_cents: Some(1),
                }],
            }],
        },
    ];
    let r = replay(OrderState::New, fresh_ctx(), &events);
    assert_eq!(r.reject, None);
    let rebuilt = rebuild_ctx_from_journal(fresh_ctx(), &journal_records(&r.effects)).unwrap();
    assert_eq!(rebuilt, r.ctx);
}

fn live_order(vid: &str) -> (OrderState, OrderCtx) {
    let events = vec![
        OrderEvent::PrepareSubmit,
        OrderEvent::StartSubmit { attempt_id: AttemptId("a-9".into()) },
        OrderEvent::SubmitResponse {
            venue_order_id: venue(vid),
            fill_count: 0,
            remaining_count: 10,
            avg_price_cents: None,
            fee_cents: None,
            snapshot_boundary: None,
        },
    ];
    let r = replay(OrderState::New, fresh_ctx(), &events);
    assert_eq!(r.reject, None);
    assert_eq!(r.halt, None);
    (r.state, r.ctx)
}

fn fill(id: &str, qty: u64, vid: &str) -> OrderEvent {
    OrderEvent::Fill {
        fill_id: FillId(id.into()),
        qty,
        price_cents: 45,
        ts_ns: 7,
        venue_order_id: Some(venue(vid)),
        fee_cents: Some(1),
    }
}

#[test]
fn live_fill_partial_then_complete_closes_filled_with_release_last() {
    let (state, mut ctx) = live_order("V-P");
    assert_eq!(state, OrderState::Accepted { venue_order_id: venue("V-P") });
    let before = ctx.clone();
    match apply_event(&state, &mut ctx, &fill("P1", 4, "V-P")) {
        TransitionOutcome::Accept { new_state, effects } => {
            assert_eq!(
                new_state,
                OrderState::Partial { venue_order_id: venue("V-P"), filled_qty: 4, remaining_qty: 6 }
            );
            assert_eq!(releases(&effects), 0);
            assert!(!effects.is_empty());
        },
        other => panic!("unexpected {:?}", other),
    }
    assert_eq!(ctx.attributed_fill_qty, 4);
    assert_ne!(ctx, before);
    let state = OrderState::Partial { venue_order_id: venue("V-P"), filled_qty: 4, remaining_qty: 6 };
    let epoch_before = ctx.authority_epoch;
    match apply_event(&state, &mut ctx, &fill("P2", 6, "V-P")) {
        TransitionOutcome::Accept { new_state, effects } => {
            assert_eq!(new_state, OrderState::Filled);
            let n = effects.len();
            assert!(n >= 3);
            // the booking moves the authority generation on; the latch takes the new one
            assert!(ctx.authority_epoch > epoch_before);
            assert_eq!(
                effects[n - 3],
                Effect::AppendFsync(JournalRecord::AuthorityLatched { epoch: ctx.authority_epoch })
            );
            assert!(matches!(effects[n - 2], Effect::AppendFsync(JournalRecord::OrderTerminal { .. })));
            assert_eq!(effects[n - 1], Effect::ReleaseReservation);
            assert_eq!(releases(&effects), 1);
        },
        other => panic!("unexpected {:?}", other),
    }
    assert!(ctx.authority_complete);
    assert_eq!(ctx.authority_latched_epoch, ctx.authority_epoch);
}

#[test]
fn cancel_pending_fill_keeps_cancel_pending_with_new_counts() {
    let (state, mut ctx) = live_order("V-C");
    let r = apply_event(&state, &mut ctx, &OrderEvent::CancelRequested);
    let state = match r {
        TransitionOutcome::Accept { new_state, .. } => new_state,
        other => panic!("unexpected {:?}", other),
    };
    assert!(matches!(state, OrderState::CancelPending { reconcile_target: None, .. }));
    match apply_event(&state, &mut ctx, &fill("C1", 3, "V-C")) {
        TransitionOutcome::Accept { new_state, effects } => {
            assert_eq!(
                new_state,
                OrderState::CancelPending {
                    venue_order_id: venue("V-C"),
                    filled_qty: 3,
                    remaining_qty: 7,
                    response_fill_count: ctx.response_fill_count,
                    response_avg_price_cents: ctx.response_avg_price_cents,
                    response_fee_cents: ctx.response_fee_cents,
                    reconcile_target: None,
                }
            );
            assert_eq!(releases(&effects), 0);
        },
        other => panic!("unexpected {:?}", other),
    }
    assert_eq!(ctx.attributed_fill_qty, 3);
}

#[test]
fn reconcile_pending_fill_short_of_target_waits_with_new_counts() {
    let (state, mut ctx) = live_order("V-W");
    let state = match apply_event(&state, &mut ctx, &fill("W1", 3, "V-W")) {
        TransitionOutcome::Accept { new_state, .. } => new_state,
        other => panic!("unexpected {:?}", other),
    };
    let state = match apply_event(&state, &mut ctx, &OrderEvent::CancelRequested) {
        TransitionOutcome::Accept { new_state, .. } => new_state,
        other => panic!("unexpected {:?}", other),
    };
    let reconcile = OrderEvent::ReconcileResult {
        status: BackfillOrderStatus::Canceled,
        venue_order_id: Some(venue("V-W")),
        filled_qty: 5,
        remaining_qty: 0,
        fills: vec![],
        authority_complete: false,
    };
    let state = match apply_event(&state, &mut ctx, &reconcile) {
        TransitionOutcome::Accept { new_state, .. } => new_state,
        other => panic!("unexpected {:?}", other),
    };
    let target = match &state {
        OrderState::ReconcilePending { target, .. } => target.clone(),
        other => panic!("unexpected {:?}", other),
    };
    assert_eq!(target.venue_filled_qty, 5);
    assert_eq!(ctx.fill_obligation, 5);
    match apply_event(&state, &mut ctx, &fill("W2", 1, "V-W")) {
        TransitionOutcome::Accept { new_state, effects } => {
            assert_eq!(
                new_state,
                OrderState::ReconcilePending {
                    venue_order_id: venue("V-W"),
                    filled_qty: 4,
                    remaining_qty: 6,
                    target: target.clone(),
                    response_fill_count: ctx.response_fill_count,
                    response_avg_price_cents: ctx.response_avg_price_cents,
                    response_fee_cents: ctx.response_fee_cents,
                }
            );
            assert_eq!(releases(&effects), 0);
        },
        other => panic!("unexpected {:?}", other),
    }
    assert_eq!(ctx.attributed_fill_qty, 4);
    // evidence already at the obligation: nothing more is raised
    assert_eq!(ctx.fill_obligation, 5);
}

#[test]
fn reconcile_pending_fill_reaching_target_closes_filled_with_release_last() {
    let (state, mut ctx) = live_order("V-T");
    let state = match apply_event(&state, &mut ctx, &fill("T1", 3, "V-T")) {
        TransitionOutcome::Accept { new_state, .. } => new_state,
        other => panic!("unexpected {:?}", other),
    };
    let state = match apply_event(&state, &mut ctx, &OrderEvent::CancelRequested) {
        TransitionOutcome::Accept { new_state, .. } => new_state,
        other => panic!("unexpected {:?}", other),
    };
    let reconcile = OrderEvent::ReconcileResult {
        status: BackfillOrderStatus::Filled,
        venue_order_id: Some(venue("V-T")),
        filled_qty: 10,
        remaining_qty: 0,
        fills: vec![],
        authority_complete: true,
    };
    let state = match apply_event(&state, &mut ctx, &reconcile) {
        TransitionOutcome::Accept { new_state, .. } => new_state,
        other => panic!("unexpected {:?}", other),
    };
    assert!(matches!(state, OrderState::ReconcilePending { .. }));
    match apply_event(&state, &mut ctx, &fill("T2", 7, "V-T")) {
        TransitionOutcome::Accept { new_state, effects } => {
            assert_eq!(new_state, OrderState::Filled);
            let n = effects.len();
            assert!(n >= 3);
            assert_eq!(
                effects[n - 3],
                Effect::AppendFsync(JournalRecord::AuthorityLatched { epoch: ctx.authority_epoch })
            );
            assert!(matches!(effects[n - 2], Effect::AppendFsync(JournalRecord::OrderTerminal { .. })));
            assert_eq!(effects[n - 1], Effect::ReleaseReservation);
            assert_eq!(releases(&effects), 1);
        },
        other => panic!("unexpected {:?}", other),
    }
    assert_eq!(ctx.attributed_fill_qty, 10);
    assert!(ctx.authority_complete);
}

#[test]
fn law_fill_accounting_kept_over_a_run() {
    let (state, mut ctx) = live_order("V-A");
    let mut state = state;
    for (id, q) in [("A1", 2u64), ("A2", 3u64), ("A1", 2u64), ("A3", 1u64)] {
        match apply_event(&state, &mut ctx, &fill(id, q, "V-A")) {
            TransitionOutcome::Accept { new_state, .. } => state = new_state,
            other => panic!("unexpected {:?}", other),
        }
        let mut sum = 0u64;
        for i in 0..ctx.applied_fills.len() {
            sum += ctx.applied_fills.entry(i).1.qty;
        }
        assert_eq!(ctx.attributed_fill_qty, sum);
        assert!(ctx.attributed_fill_qty <= ctx.fill_obligation);
        assert!(ctx.fill_obligation <= ctx.qty);
    }
    assert_eq!(ctx.attributed_fill_qty, 6);
    assert_eq!(ctx.applied_fills.len(), 3);
}

#[test]
fn law_client_order_id_unique_across_markets_and_strategies() {
    let a = derive_client_order_id("M1", "s", 12);
    let b = derive_client_order_id("M1", "s1", 2);
    assert_ne!(a, b);
    assert_eq!(a.as_str(), "M1|s|12");
    assert_eq!(b.as_str(), "M1|s1|2");
    assert_ne!(a, derive_client_order_id("M2", "s", 12));
    assert_ne!(a, derive_client_order_id("M1", "s", 13));
}

#[test]
fn order_ctx_new_keeps_market_and_strategy() {
    let c = fresh_ctx();
    assert_eq!(c.market, "MKT-L");
    assert_eq!(c.strategy, "laws");
}

/// The boundary of the journal-rebuild law: a venue observation that meets a
/// latched authority lagging the obligation keeps the latch live, while its
/// journal replay clears it.
#[test]
fn rebuild_clears_a_latch_that_lags_the_obligation() {
    let reconcile = |filled_qty: u64, authority_complete: bool| OrderEvent::ReconcileResult {
        status: BackfillOrderStatus::Canceled,
        venue_order_id: Some(venue("V-X")),
        filled_qty,
        remaining_qty: 0,
        fills: vec![],
        authority_complete,
    };
    let events = vec![
        OrderEvent::PrepareSubmit,
        OrderEvent::StartSubmit { attempt_id: AttemptId("a-x".into()) },
        OrderEvent::SubmitResponse {
            venue_order_id: venue("V-X"),
            fill_count: 0,
            remaining_count: 10,
            avg_price_cents: None,
            fee_cents: None,
            snapshot_boundary: None,
        },
        OrderEvent::CancelRequested,
        reconcile(5, true),
        reconcile(3, false),
    ];
    let r = replay(OrderState::New, fresh_ctx(), &events);
    assert_eq!(r.reject, None);
    assert_eq!(r.halt, None);
    assert!(r.ctx.authority_complete);
    assert!(r.ctx.attributed_fill_qty < r.ctx.fill_obligation);
    let rebuilt = rebuild_ctx_from_journal(fresh_ctx(), &journal_records(&r.effects)).unwrap();
    assert!(!rebuilt.authority_complete);
    assert_eq!(rebuilt.fill_obligation, r.ctx.fill_obligation);
    assert_eq!(rebuilt.authority_epoch, r.ctx.authority_epoch);
}

#[test]
fn response_after_fills_already_booked_resolves_at_once() {
    let started = OrderState::SubmitStarted { attempt_id: AttemptId("a-r".into()) };
    let mut ctx = fresh_ctx();
    // a fill arrives while the submit is in flight and is booked in place
    match apply_event(&started, &mut ctx, &fill("R1", 4, "V-R")) {
        TransitionOutcome::Accept { new_state, .. } => assert_eq!(new_state, started),
        other => panic!("unexpected {:?}", other),
    }
    let response = OrderEvent::SubmitResponse {
        venue_order_id: venue("V-R"),
        fill_count: 4,
        remaining_count: 6,
        avg_price_cents: Some(45),
        fee_cents: None,
        snapshot_boundary: None,
    };
    match apply_event(&started, &mut ctx, &response) {
        TransitionOutcome::Accept { new_state, .. } => assert_eq!(
            new_state,
            OrderState::Partial { venue_order_id: venue("V-R"), filled_qty: 4, remaining_qty: 6 }
        ),
        other => panic!("unexpected {:?}", other),
    }
}
