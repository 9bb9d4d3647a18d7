//! Scenario tests of the order lifecycle state machine.

#![allow(unused_imports, unused_variables, unused_mut)]

use omsrs::lifecycle::{
    apply_event, derive_client_order_id, has_reliable_boundary, rebuild_ctx_from_journal, replay,
    reservation_held, AttemptId, BackfillOrderRecord, BackfillOrderStatus, CancelOutcome,
    ClientOrderId, Effect, FillId, FillPayload, FillRecord, HaltReason, JournalRecord, OrderCtx,
    OrderEvent, OrderState, ProposedTerminal, ReconcileTarget, ReconcileTerminal, RejectReason,
    ReplayResult, ReservationHold, Side, SnapshotBoundary, TerminalKind, TransitionOutcome,
    VenueOrderId,
};

fn ctx_default() -> OrderCtx {
    OrderCtx::new(
        derive_client_order_id("KXBTC-M", "hoff-mm", 1),
        "KXBTC-M",
        "hoff-mm",
        Side::BuyYes,
        45,
        10,
    )
}

fn assert_ctx_fold_equiv(mem: &OrderCtx, records: &[JournalRecord]) {
    let base = OrderCtx::new(
        mem.client_order_id.clone(),
        &mem.market,
        &mem.strategy,
        mem.side,
        mem.price_cents,
        mem.qty,
    );
    let rebuilt = rebuild_ctx_from_journal(base, records)
        .unwrap_or_else(|e| panic!("assert_ctx_fold_equiv: rebuild failed: {e:?}"));
    assert_eq!(
        rebuilt.attributed_fill_qty, mem.attributed_fill_qty,
        "fold attributed_fill_qty"
    );
    assert_eq!(
        rebuilt.fill_obligation, mem.fill_obligation,
        "fold fill_obligation"
    );
    assert_eq!(
        rebuilt.response_domain_qty, mem.response_domain_qty,
        "fold response_domain_qty"
    );
    assert_eq!(
        rebuilt.response_domain_notional_cents, mem.response_domain_notional_cents,
        "fold response_domain_notional_cents"
    );
    assert_eq!(
        rebuilt.response_domain_fee_cents, mem.response_domain_fee_cents,
        "fold response_domain_fee_cents"
    );
    assert_eq!(
        rebuilt.attributed_fee_cents, mem.attributed_fee_cents,
        "fold attributed_fee_cents"
    );
    assert_eq!(
        rebuilt.authority_epoch, mem.authority_epoch,
        "fold authority_epoch"
    );
    assert_eq!(
        rebuilt.authority_latched_epoch, mem.authority_latched_epoch,
        "fold authority_latched_epoch"
    );
    assert_eq!(
        rebuilt.authority_complete, mem.authority_complete,
        "fold authority_complete"
    );
    assert_eq!(
        rebuilt.venue_order_id, mem.venue_order_id,
        "fold venue_order_id"
    );
    assert_eq!(
        rebuilt.applied_fills, mem.applied_fills,
        "fold applied_fills (fill_id → payload full fields)"
    );
    assert_eq!(
        rebuilt.last_venue_remaining_qty, mem.last_venue_remaining_qty,
        "fold last_venue_remaining_qty"
    );
}

fn prepare_started(ctx: &mut OrderCtx) -> OrderState {
    let mut s = OrderState::New;
    let o = apply_event(&s, ctx, &OrderEvent::PrepareSubmit);
    s = o.new_state().unwrap().clone();
    let o = apply_event(
        &s,
        ctx,
        &OrderEvent::StartSubmit {
            attempt_id: AttemptId("a1".into()),
        },
    );
    assert!(
        o.effects()
            .iter()
            .any(|e| matches!(e, Effect::AppendFsync(JournalRecord::SubmitStarted { .. }))),
        "StartSubmit must fsync Started before HTTP/response"
    );
    o.new_state().unwrap().clone()
}

fn vid(s: &str) -> VenueOrderId {
    VenueOrderId(s.into())
}
fn fid(s: &str) -> FillId {
    FillId(s.into())
}
fn fill_rec_v(id: &str, qty: u64, price: u64, ts: i64, v: &str) -> FillRecord {
    FillRecord {
        fill_id: fid(id),
        qty,
        price_cents: price,
        ts_ns: ts,
        venue_order_id: Some(vid(v)),
        fee_cents: None,
    }
}
fn fill_rec_vf(id: &str, qty: u64, price: u64, ts: i64, v: &str, fee: u64) -> FillRecord {
    FillRecord {
        fill_id: fid(id),
        qty,
        price_cents: price,
        ts_ns: ts,
        venue_order_id: Some(vid(v)),
        fee_cents: Some(fee),
    }
}

#[test]
fn client_order_id_deterministic() {
    let a = derive_client_order_id("MKT", "strat", 7);
    let b = derive_client_order_id("MKT", "strat", 7);
    assert_eq!(a, b);
    assert_eq!(a.as_str(), "MKT|strat|7");
}

#[test]
fn client_order_id_differs_by_seq_market_strategy() {
    let base = derive_client_order_id("M", "S", 1);
    assert_ne!(base, derive_client_order_id("M", "S", 2));
    assert_ne!(base, derive_client_order_id("M2", "S", 1));
    assert_ne!(base, derive_client_order_id("M", "S2", 1));
}

#[test]
fn inv_order_prepare_started_response() {
    let mut ctx = ctx_default();
    let mut s = OrderState::New;
    let o = apply_event(&s, &mut ctx, &OrderEvent::PrepareSubmit);
    assert!(matches!(o.new_state(), Some(OrderState::SubmitPrepared)));
    s = o.new_state().unwrap().clone();
    assert!(
        o.effects()
            .iter()
            .any(|e| matches!(e, Effect::AppendFsync(JournalRecord::SubmitPrepared { .. })))
    );

    let o = apply_event(
        &s,
        &mut ctx,
        &OrderEvent::StartSubmit {
            attempt_id: AttemptId("att-1".into()),
        },
    );
    assert!(matches!(
        o.new_state(),
        Some(OrderState::SubmitStarted { .. })
    ));
    let started_fsync = o
        .effects()
        .iter()
        .any(|e| matches!(e, Effect::AppendFsync(JournalRecord::SubmitStarted { .. })));
    assert!(started_fsync);

    s = o.new_state().unwrap().clone();
    let o = apply_event(
        &s,
        &mut ctx,
        &OrderEvent::SubmitResponse {
            venue_order_id: vid("V1"),
            fill_count: 0,
            remaining_count: 10,
            avg_price_cents: None,
            fee_cents: None,
            snapshot_boundary: None,
        },
    );
    assert!(matches!(o.new_state(), Some(OrderState::Accepted { .. })));
}

#[test]
fn inv_order_skip_started_rejects_response() {
    let mut ctx = ctx_default();
    let s = OrderState::New;
    let o = apply_event(&s, &mut ctx, &OrderEvent::PrepareSubmit);
    let s = o.new_state().unwrap().clone();
    let o = apply_event(
        &s,
        &mut ctx,
        &OrderEvent::SubmitResponse {
            venue_order_id: vid("V1"),
            fill_count: 0,
            remaining_count: 10,
            avg_price_cents: None,
            fee_cents: None,
            snapshot_boundary: None,
        },
    );
    assert!(o.is_reject(), "skip Started must Reject: {o:?}");
    assert!(matches!(
        o,
        TransitionOutcome::Reject {
            reason: RejectReason::OrderInvariantViolated { .. }
        }
    ));
}

#[test]
fn inv_timeout_to_unknown_no_resubmit() {
    let mut ctx = ctx_default();
    let s = prepare_started(&mut ctx);
    let o = apply_event(&s, &mut ctx, &OrderEvent::SubmitTimeout);
    assert!(matches!(o.new_state(), Some(OrderState::SubmitUnknown)));
    assert_eq!(
        o.effects(),
        &[
            Effect::AppendFsync(JournalRecord::SubmitUnknown),
            Effect::BackfillUnknown {
                client_order_id: ctx.client_order_id.clone(),
            },
        ]
    );
    assert_eq!(
        reservation_held(o.new_state().unwrap()),
        ReservationHold::Full
    );
}

fn to_cancel_pending(ctx: &mut OrderCtx) -> OrderState {
    let s = prepare_started(ctx);
    let o = apply_event(
        &s,
        ctx,
        &OrderEvent::SubmitResponse {
            venue_order_id: vid("V1"),
            fill_count: 0,
            remaining_count: 10,
            avg_price_cents: None,
            fee_cents: None,
            snapshot_boundary: None,
        },
    );
    let s = o.new_state().unwrap().clone();
    let o = apply_event(&s, ctx, &OrderEvent::CancelRequested);
    o.new_state().unwrap().clone()
}

fn authority_reconcile_canceled(filled: u64, remaining: u64) -> OrderEvent {
    OrderEvent::ReconcileResult {
        status: BackfillOrderStatus::Canceled,
        venue_order_id: Some(vid("V1")),
        filled_qty: filled,
        remaining_qty: remaining,
        fills: vec![],
        authority_complete: true,
    }
}

fn cancel_to_terminal_with_authority(ctx: &mut OrderCtx, s: OrderState) -> TransitionOutcome {
    let o = apply_event(&s, ctx, &OrderEvent::CancelOutcome(CancelOutcome::Canceled));
    assert!(
        !o.effects()
            .iter()
            .any(|e| matches!(e, Effect::ReleaseReservation))
    );
    let s = o.new_state().unwrap().clone();
    apply_event(
        &s,
        ctx,
        &authority_reconcile_canceled(ctx.attributed_fill_qty, ctx.remaining_qty()),
    )
}

#[test]
fn inv_canceled_zero_zero_rest_is_normal_release() {
    let mut ctx = ctx_default();
    let s = to_cancel_pending(&mut ctx);
    let o = apply_event(
        &s,
        &mut ctx,
        &OrderEvent::CancelOutcome(CancelOutcome::Canceled),
    );
    let s = o.new_state().unwrap().clone();
    let o = apply_event(
        &s,
        &mut ctx,
        &OrderEvent::ReconcileResult {
            status: BackfillOrderStatus::Canceled,
            venue_order_id: Some(vid("V1")),
            filled_qty: 0,
            remaining_qty: 0,
            fills: vec![],
            authority_complete: true,
        },
    );
    assert_eq!(
        o.new_state(),
        Some(&OrderState::Canceled),
        "0/0 零成交撤是 Kalshi 常态，必须正常终态（加守恒门 = false-halt 恢复流）"
    );
    assert!(
        o.effects().iter().any(|e| matches!(e, Effect::ReleaseReservation)),
        "0/0 canceled 必须 Release（锁预留 = 资金锁死）"
    );
    let mut ctx2 = ctx_default();
    let cid2 = ctx2.client_order_id.clone();
    let s2 = OrderState::SubmitUnknown;
    let o2 = apply_event(
        &s2,
        &mut ctx2,
        &OrderEvent::UnknownBackfillResult {
            exhaustive: true,
            matched: vec![BackfillOrderRecord {
                client_order_id: cid2,
                venue_order_id: vid("V2"),
                status: BackfillOrderStatus::Canceled,
                filled_qty: 0,
                remaining_qty: 0,
                fills: vec![],
            }],
        },
    );
    assert_eq!(
        o2.new_state(),
        Some(&OrderState::Canceled),
        "超时恢复 backfill 的 0/0 canceled 必须干净收口（98.7% 常态形态）"
    );
    assert!(
        o2.effects().iter().any(|e| matches!(e, Effect::ReleaseReservation)),
        "恢复流必须释放预留"
    );
}

#[test]
fn inv_cancel_canceled_is_terminal_released() {
    let mut ctx = ctx_default();
    let s = to_cancel_pending(&mut ctx);
    let o = apply_event(
        &s,
        &mut ctx,
        &OrderEvent::CancelOutcome(CancelOutcome::Canceled),
    );
    assert_ne!(o.new_state(), Some(&OrderState::Canceled));
    assert!(
        !o.effects()
            .iter()
            .any(|e| matches!(e, Effect::ReleaseReservation))
    );
    let s = o.new_state().unwrap().clone();
    let o = apply_event(&s, &mut ctx, &authority_reconcile_canceled(0, 10));
    assert_eq!(o.new_state(), Some(&OrderState::Canceled));
    assert_eq!(
        reservation_held(&OrderState::Canceled),
        ReservationHold::Released
    );
    assert!(
        o.effects()
            .iter()
            .any(|e| matches!(e, Effect::ReleaseReservation))
    );
    assert!(ctx.authority_complete);
}

#[test]
fn inv_cancel_already_terminal_released() {
    let mut ctx = ctx_default();
    let s = to_cancel_pending(&mut ctx);
    let o = apply_event(
        &s,
        &mut ctx,
        &OrderEvent::CancelOutcome(CancelOutcome::AlreadyTerminal),
    );
    assert_ne!(o.new_state(), Some(&OrderState::Terminal));
    assert!(
        !o.effects()
            .iter()
            .any(|e| matches!(e, Effect::ReleaseReservation))
    );
    let s = o.new_state().unwrap().clone();
    let o = apply_event(
        &s,
        &mut ctx,
        &OrderEvent::ReconcileResult {
            status: BackfillOrderStatus::Canceled,
            venue_order_id: Some(vid("V1")),
            filled_qty: 0,
            remaining_qty: 10,
            fills: vec![],
            authority_complete: true,
        },
    );
    assert_eq!(o.new_state(), Some(&OrderState::Canceled));
    assert_eq!(
        reservation_held(&OrderState::Canceled),
        ReservationHold::Released
    );
}

#[test]
fn inv_cancel_accepted_stays_pending_not_canceled() {
    let mut ctx = ctx_default();
    let s = to_cancel_pending(&mut ctx);
    let o = apply_event(
        &s,
        &mut ctx,
        &OrderEvent::CancelOutcome(CancelOutcome::Accepted),
    );
    assert!(matches!(
        o.new_state(),
        Some(OrderState::CancelPending { .. })
    ));
    assert_eq!(
        reservation_held(o.new_state().unwrap()),
        ReservationHold::Full
    );
    assert!(
        !o.effects()
            .iter()
            .any(|e| matches!(e, Effect::ReleaseReservation))
    );
}

#[test]
fn inv_cancel_rejected_restores_live() {
    let mut ctx = ctx_default();
    let s = to_cancel_pending(&mut ctx);
    let o = apply_event(
        &s,
        &mut ctx,
        &OrderEvent::CancelOutcome(CancelOutcome::Rejected),
    );
    assert!(matches!(o.new_state(), Some(OrderState::Accepted { .. })));
    assert_eq!(
        reservation_held(o.new_state().unwrap()),
        ReservationHold::Full
    );
}

#[test]
fn inv_cancel_not_found_reconcile_not_canceled() {
    let mut ctx = ctx_default();
    let s = to_cancel_pending(&mut ctx);
    let o = apply_event(
        &s,
        &mut ctx,
        &OrderEvent::CancelOutcome(CancelOutcome::NotFound),
    );
    assert!(matches!(
        o.new_state(),
        Some(OrderState::CancelPending { .. })
    ));
    assert!(
        o.effects()
            .iter()
            .any(|e| matches!(e, Effect::ReconcileCancel { .. }))
    );
    assert!(
        !o.effects()
            .iter()
            .any(|e| matches!(e, Effect::ReleaseReservation))
    );
}

#[test]
fn inv_cancel_transport_unknown_reconcile_not_canceled() {
    let mut ctx = ctx_default();
    let s = to_cancel_pending(&mut ctx);
    let o = apply_event(
        &s,
        &mut ctx,
        &OrderEvent::CancelOutcome(CancelOutcome::TransportUnknown),
    );
    assert!(matches!(
        o.new_state(),
        Some(OrderState::CancelPending { .. })
    ));
    assert!(
        o.effects()
            .iter()
            .any(|e| matches!(e, Effect::ReconcileCancel { .. }))
    );
    assert_eq!(
        reservation_held(o.new_state().unwrap()),
        ReservationHold::Full
    );
}

#[test]
fn inv_cancel_unknown_reconcile_not_canceled() {
    let mut ctx = ctx_default();
    let s = to_cancel_pending(&mut ctx);
    let o = apply_event(
        &s,
        &mut ctx,
        &OrderEvent::CancelOutcome(CancelOutcome::Unknown),
    );
    assert!(matches!(
        o.new_state(),
        Some(OrderState::CancelPending { .. })
    ));
    assert!(
        o.effects()
            .iter()
            .any(|e| matches!(e, Effect::ReconcileCancel { .. }))
    );
    assert_eq!(
        reservation_held(o.new_state().unwrap()),
        ReservationHold::Full
    );
}

#[test]
fn inv_reservation_held_matrix() {
    let released = [
        OrderState::Canceled,
        OrderState::Filled,
        OrderState::Terminal,
    ];
    for s in &released {
        assert_eq!(reservation_held(s), ReservationHold::Released, "{s:?}");
    }
    let full = [
        OrderState::New,
        OrderState::SubmitPrepared,
        OrderState::SubmitStarted {
            attempt_id: AttemptId("a".into()),
        },
        OrderState::SubmitUnknown,
        OrderState::Accepted {
            venue_order_id: vid("V"),
        },
        OrderState::Partial {
            venue_order_id: vid("V"),
            filled_qty: 1,
            remaining_qty: 9,
        },
        OrderState::CancelPending {
            venue_order_id: vid("V"),
            filled_qty: 0,
            remaining_qty: 10,
            response_fill_count: None,
            response_avg_price_cents: None,
            response_fee_cents: None,
            reconcile_target: None,
        },
        OrderState::ReconcilePending {
            venue_order_id: vid("V"),
            filled_qty: 2,
            remaining_qty: 8,
            target: ReconcileTarget {
                terminal: ReconcileTerminal::Canceled,
                venue_filled_qty: 4,
                venue_remaining_qty: Some(6),
            },
            response_fill_count: Some(4),
            response_avg_price_cents: None,
            response_fee_cents: None,
        },
        OrderState::ImmediateFillUnattributed {
            venue_order_id: vid("V"),
            response_fill_count: 5,
            response_remaining_count: 5,
            response_avg_price_cents: None,
            response_fee_cents: None,
        },
        OrderState::ImmediateFillUnresolved,
        OrderState::UnknownNoMatch,
        OrderState::Halted {
            reason: HaltReason::UnknownNoMatch,
        },
    ];
    for s in &full {
        assert_eq!(reservation_held(s), ReservationHold::Full, "{s:?}");
    }
}

#[test]
fn inv_restart_safe_terminal_no_new_io() {
    let ctx = ctx_default();
    let events = vec![
        OrderEvent::PrepareSubmit,
        OrderEvent::StartSubmit {
            attempt_id: AttemptId("a1".into()),
        },
        OrderEvent::SubmitResponse {
            venue_order_id: vid("V1"),
            fill_count: 0,
            remaining_count: 10,
            avg_price_cents: None,
            fee_cents: None,
            snapshot_boundary: None,
        },
        OrderEvent::CancelRequested,
        OrderEvent::CancelOutcome(CancelOutcome::Canceled),
        OrderEvent::ReconcileResult {
            status: BackfillOrderStatus::Canceled,
            venue_order_id: Some(vid("V1")),
            filled_qty: 0,
            remaining_qty: 10,
            fills: vec![],
            authority_complete: true,
        },
    ];
    let r = replay(OrderState::New, ctx.clone(), &events);
    assert_eq!(r.state, OrderState::Canceled);
    assert_eq!(reservation_held(&r.state), ReservationHold::Released);

    let mut ctx2 = r.ctx.clone();
    let o = apply_event(
        &r.state,
        &mut ctx2,
        &OrderEvent::CancelOutcome(CancelOutcome::Canceled),
    );
    assert!(o.is_reject());
    assert!(o.effects().is_empty());
    assert_eq!(reservation_held(&r.state), ReservationHold::Released);
}

#[test]
fn inv_restart_safe_frozen_late_fill_accounts_and_halts() {
    let mut ctx = ctx_default();
    let s = prepare_started(&mut ctx);
    let o = apply_event(&s, &mut ctx, &OrderEvent::SubmitTimeout);
    let s = o.new_state().unwrap().clone();
    let o = apply_event(
        &s,
        &mut ctx,
        &OrderEvent::UnknownBackfillResult {
            exhaustive: true,
            matched: vec![],
        },
    );
    assert!(o.is_halt());
    assert_eq!(o.new_state(), Some(&OrderState::UnknownNoMatch));
    assert_eq!(
        reservation_held(&OrderState::UnknownNoMatch),
        ReservationHold::Full
    );

    let o2 = apply_event(
        &OrderState::UnknownNoMatch,
        &mut ctx,
        &OrderEvent::Fill {
            fill_id: fid("late-F"),
            qty: 2,
            price_cents: 40,
            ts_ns: 99,
            venue_order_id: None,
            fee_cents: None,
        },
    );
    assert!(o2.is_halt());
    assert!(matches!(
        o2,
        TransitionOutcome::Halt {
            reason: HaltReason::PostTerminalFill,
            ..
        }
    ));
    assert_eq!(o2.account_fill_count(), 1);
    assert!(
        o2.effects()
            .iter()
            .any(|e| matches!(e, Effect::AppendFsync(JournalRecord::Fill { .. })))
    );
    assert!(
        o2.effects()
            .iter()
            .any(|e| matches!(e, Effect::AccountFill { .. }))
    );
    assert_eq!(
        reservation_held(o2.new_state().unwrap()),
        ReservationHold::Full
    );
    assert_eq!(ctx.attributed_fill_qty, 2);

    let s = o2.new_state().unwrap().clone();
    let o3 = apply_event(
        &s,
        &mut ctx,
        &OrderEvent::Fill {
            fill_id: fid("late-F"),
            qty: 2,
            price_cents: 40,
            ts_ns: 99,
            venue_order_id: None,
            fee_cents: None,
        },
    );
    assert_eq!(o3.account_fill_count(), 0);
    assert!(o3.effects().is_empty());
    assert_eq!(ctx.attributed_fill_qty, 2);
}

#[test]
fn b2_golden_post_only_zero_fill() {
    let mut ctx = ctx_default();
    let s = prepare_started(&mut ctx);
    let o = apply_event(
        &s,
        &mut ctx,
        &OrderEvent::SubmitResponse {
            venue_order_id: vid("V-po"),
            fill_count: 0,
            remaining_count: 10,
            avg_price_cents: None,
            fee_cents: None,
            snapshot_boundary: None,
        },
    );
    assert!(matches!(
        o.new_state(),
        Some(OrderState::Accepted {
            venue_order_id
        }) if venue_order_id == &vid("V-po")
    ));
    assert_eq!(o.account_fill_count(), 0, "zero fill → no accounting");
    assert_eq!(
        reservation_held(o.new_state().unwrap()),
        ReservationHold::Full
    );
    assert!(!o.is_halt());
}

#[test]
fn b2_golden_ioc_full_fill() {
    let mut ctx = ctx_default();
    let s = prepare_started(&mut ctx);
    let o = apply_event(
        &s,
        &mut ctx,
        &OrderEvent::SubmitResponse {
            venue_order_id: vid("V-ioc"),
            fill_count: 10,
            remaining_count: 0,
            avg_price_cents: Some(45),
            fee_cents: Some(1),
            snapshot_boundary: None,
        },
    );
    let s = o.new_state().unwrap().clone();
    assert!(matches!(s, OrderState::ImmediateFillUnattributed { .. }));
    assert_eq!(o.account_fill_count(), 0);
    assert_eq!(reservation_held(&s), ReservationHold::Full);
    assert!(
        o.effects()
            .iter()
            .any(|e| matches!(e, Effect::BackfillFills { .. }))
    );

    let o = apply_event(
        &s,
        &mut ctx,
        &OrderEvent::ImmediateFillBackfillResult {
            fills: vec![fill_rec_vf("F1", 10, 45, 1000, "V-ioc", 1)],
        },
    );
    assert_eq!(o.new_state(), Some(&OrderState::Filled));
    assert_eq!(o.account_fill_count(), 1);
    assert_eq!(
        reservation_held(&OrderState::Filled),
        ReservationHold::Released
    );
    assert!(
        o.effects()
            .iter()
            .any(|e| matches!(e, Effect::ReleaseReservation))
    );
    assert!(!o.is_halt());
    assert_eq!(ctx.response_avg_price_cents, Some(45));
    assert_eq!(ctx.response_fee_cents, Some(1));
}

#[test]
fn b2_golden_ioc_partial_fill() {
    let mut ctx = ctx_default();
    let s = prepare_started(&mut ctx);
    let o = apply_event(
        &s,
        &mut ctx,
        &OrderEvent::SubmitResponse {
            venue_order_id: vid("V-part"),
            fill_count: 4,
            remaining_count: 6,
            avg_price_cents: Some(45),
            fee_cents: None,
            snapshot_boundary: None,
        },
    );
    let s = o.new_state().unwrap().clone();
    assert!(matches!(s, OrderState::ImmediateFillUnattributed { .. }));
    assert_eq!(reservation_held(&s), ReservationHold::Full);
    assert_eq!(o.account_fill_count(), 0);

    let o = apply_event(
        &s,
        &mut ctx,
        &OrderEvent::ImmediateFillBackfillResult {
            fills: vec![fill_rec_v("Fp", 4, 45, 2000, "V-part")],
        },
    );
    match o.new_state() {
        Some(OrderState::Partial {
            filled_qty,
            remaining_qty,
            ..
        }) => {
            assert_eq!(*filled_qty, 4);
            assert_eq!(*remaining_qty, 6);
        }
        other => panic!("expected Partial, got {other:?}"),
    }
    assert_eq!(o.account_fill_count(), 1);
    assert_eq!(
        reservation_held(o.new_state().unwrap()),
        ReservationHold::Full
    );
    assert!(!o.is_halt());
    assert_eq!(ctx.response_avg_price_cents, Some(45));
}

#[test]
fn b2_golden_response_before_ws() {
    let mut ctx = ctx_default();
    let s = prepare_started(&mut ctx);
    let o = apply_event(
        &s,
        &mut ctx,
        &OrderEvent::SubmitResponse {
            venue_order_id: vid("V-rb"),
            fill_count: 3,
            remaining_count: 7,
            avg_price_cents: Some(44),
            fee_cents: Some(2),
            snapshot_boundary: None,
        },
    );
    let s = o.new_state().unwrap().clone();
    assert!(matches!(s, OrderState::ImmediateFillUnattributed { .. }));
    assert_eq!(o.account_fill_count(), 0);
    assert_eq!(reservation_held(&s), ReservationHold::Full);
    assert!(!o.is_halt());
    match &s {
        OrderState::ImmediateFillUnattributed {
            response_avg_price_cents,
            response_fee_cents,
            ..
        } => {
            assert_eq!(*response_avg_price_cents, Some(44));
            assert_eq!(*response_fee_cents, Some(2));
        }
        _ => unreachable!(),
    }

    let o = apply_event(
        &s,
        &mut ctx,
        &OrderEvent::Fill {
            fill_id: fid("F-ws"),
            qty: 3,
            price_cents: 44,
            ts_ns: 3000,
            venue_order_id: Some(vid("V-rb")),
            fee_cents: Some(2),
        },
    );
    assert!(matches!(
        o.new_state(),
        Some(OrderState::Partial {
            filled_qty: 3,
            remaining_qty: 7,
            ..
        })
    ));
    assert_eq!(o.account_fill_count(), 1);
    assert_eq!(ctx.attributed_fill_qty, 3);
    assert_eq!(
        reservation_held(o.new_state().unwrap()),
        ReservationHold::Full
    );
    assert!(!o.is_halt());
    assert_eq!(ctx.response_avg_price_cents, Some(44));
    assert_eq!(ctx.response_fee_cents, Some(2));

    let s = o.new_state().unwrap().clone();
    let o2 = apply_event(
        &s,
        &mut ctx,
        &OrderEvent::Fill {
            fill_id: fid("F-ws"),
            qty: 3,
            price_cents: 44,
            ts_ns: 3000,
            venue_order_id: Some(vid("V-rb")),
            fee_cents: Some(2),
        },
    );
    assert_eq!(o2.account_fill_count(), 0);
    assert_eq!(ctx.attributed_fill_qty, 3);
    assert!(!o2.is_halt());
}

#[test]
fn b2_golden_ws_before_response() {
    let mut ctx = ctx_default();
    let s = prepare_started(&mut ctx);
    let o = apply_event(
        &s,
        &mut ctx,
        &OrderEvent::Fill {
            fill_id: fid("F-early"),
            qty: 5,
            price_cents: 45,
            ts_ns: 100,
            venue_order_id: None,
            fee_cents: None,
        },
    );
    assert!(matches!(
        o.new_state(),
        Some(OrderState::SubmitStarted { .. })
    ));
    assert_eq!(o.account_fill_count(), 1);
    assert_eq!(ctx.attributed_fill_qty, 5);
    assert_eq!(
        reservation_held(o.new_state().unwrap()),
        ReservationHold::Full
    );
    assert!(!o.is_halt());

    let s = o.new_state().unwrap().clone();
    let o = apply_event(
        &s,
        &mut ctx,
        &OrderEvent::SubmitResponse {
            venue_order_id: vid("V-wsb"),
            fill_count: 5,
            remaining_count: 5,
            avg_price_cents: Some(45),
            fee_cents: None,
            snapshot_boundary: None,
        },
    );
    assert!(
        matches!(
            o.new_state(),
            Some(OrderState::Partial {
                filled_qty: 5,
                remaining_qty: 5,
                ..
            })
        ),
        "got {:?}",
        o.new_state()
    );
    assert_eq!(
        o.account_fill_count(),
        0,
        "must not re-account already-applied fill_id"
    );
    assert_eq!(ctx.attributed_fill_qty, 5);
    assert_eq!(
        reservation_held(o.new_state().unwrap()),
        ReservationHold::Full
    );
    assert!(!o.is_halt());
    assert_eq!(ctx.response_avg_price_cents, Some(45));

    let s = o.new_state().unwrap().clone();
    let o = apply_event(
        &s,
        &mut ctx,
        &OrderEvent::Fill {
            fill_id: fid("F-early"),
            qty: 5,
            price_cents: 45,
            ts_ns: 100,
            venue_order_id: Some(vid("V-wsb")),
            fee_cents: None,
        },
    );
    assert_eq!(o.account_fill_count(), 0);
    assert_eq!(ctx.attributed_fill_qty, 5);
}

#[test]
fn b2_golden_backfill_timeout() {
    let mut ctx = ctx_default();
    let s = prepare_started(&mut ctx);
    let o = apply_event(
        &s,
        &mut ctx,
        &OrderEvent::SubmitResponse {
            venue_order_id: vid("V-to"),
            fill_count: 2,
            remaining_count: 8,
            avg_price_cents: None,
            fee_cents: None,
            snapshot_boundary: None,
        },
    );
    let s = o.new_state().unwrap().clone();
    assert!(matches!(s, OrderState::ImmediateFillUnattributed { .. }));

    let o = apply_event(&s, &mut ctx, &OrderEvent::BackfillDeadlineElapsed);
    assert!(o.is_halt());
    assert_eq!(o.new_state(), Some(&OrderState::ImmediateFillUnresolved));
    assert_eq!(
        reservation_held(&OrderState::ImmediateFillUnresolved),
        ReservationHold::Full
    );
    assert_eq!(o.account_fill_count(), 0, "no fill_id → never account");
    assert!(
        o.effects()
            .iter()
            .any(|e| matches!(e, Effect::HaltNewExposure))
    );
    assert!(
        !o.effects()
            .iter()
            .any(|e| matches!(e, Effect::ReleaseReservation))
    );
}

#[test]
fn cross_check_mismatch_halts() {
    let mut ctx = ctx_default();
    let s = prepare_started(&mut ctx);
    let o = apply_event(
        &s,
        &mut ctx,
        &OrderEvent::SubmitResponse {
            venue_order_id: vid("V-x"),
            fill_count: 5,
            remaining_count: 3,
            avg_price_cents: None,
            fee_cents: None,
            snapshot_boundary: Some(SnapshotBoundary::TsNs(100)),
        },
    );
    let s = o.new_state().unwrap().clone();
    let o = apply_event(
        &s,
        &mut ctx,
        &OrderEvent::ImmediateFillBackfillResult {
            fills: vec![fill_rec_vf("Fx", 5, 45, 1, "V-x", 0)],
        },
    );
    assert!(o.is_halt());
    assert!(matches!(
        o,
        TransitionOutcome::Halt {
            reason: HaltReason::ImmediateFillCrossCheckMismatch { .. },
            ..
        }
    ));
    assert_eq!(
        reservation_held(o.new_state().unwrap()),
        ReservationHold::Full
    );
}

#[test]
fn fill_id_dedup_same_fill_twice() {
    let mut ctx = ctx_default();
    let s = prepare_started(&mut ctx);
    let o = apply_event(
        &s,
        &mut ctx,
        &OrderEvent::SubmitResponse {
            venue_order_id: vid("V-d"),
            fill_count: 0,
            remaining_count: 10,
            avg_price_cents: None,
            fee_cents: None,
            snapshot_boundary: None,
        },
    );
    let s = o.new_state().unwrap().clone();
    let fill = OrderEvent::Fill {
        fill_id: fid("same"),
        qty: 2,
        price_cents: 40,
        ts_ns: 1,
        venue_order_id: Some(vid("V-d")),
        fee_cents: None,
    };
    let o1 = apply_event(&s, &mut ctx, &fill);
    assert_eq!(o1.account_fill_count(), 1);
    assert_eq!(ctx.attributed_fill_qty, 2);
    let s = o1.new_state().unwrap().clone();
    let o2 = apply_event(&s, &mut ctx, &fill);
    assert_eq!(o2.account_fill_count(), 0);
    assert_eq!(ctx.attributed_fill_qty, 2);
}

#[test]
fn fill_id_dedup_ws_and_backfill_same_id() {
    let mut ctx = ctx_default();
    let s = prepare_started(&mut ctx);
    let o = apply_event(
        &s,
        &mut ctx,
        &OrderEvent::SubmitResponse {
            venue_order_id: vid("V-dd"),
            fill_count: 3,
            remaining_count: 7,
            avg_price_cents: None,
            fee_cents: None,
            snapshot_boundary: None,
        },
    );
    let s = o.new_state().unwrap().clone();
    assert!(matches!(s, OrderState::ImmediateFillUnattributed { .. }));
    let o = apply_event(
        &s,
        &mut ctx,
        &OrderEvent::Fill {
            fill_id: fid("shared"),
            qty: 3,
            price_cents: 41,
            ts_ns: 5,
            venue_order_id: Some(vid("V-dd")),
            fee_cents: None,
        },
    );
    assert_eq!(o.account_fill_count(), 1);
    let s = o.new_state().unwrap().clone();
    assert!(matches!(s, OrderState::Partial { .. }));
    let mut ctx2 = ctx_default();
    let s2 = prepare_started(&mut ctx2);
    let o = apply_event(
        &s2,
        &mut ctx2,
        &OrderEvent::SubmitResponse {
            venue_order_id: vid("V-dd2"),
            fill_count: 6,
            remaining_count: 4,
            avg_price_cents: None,
            fee_cents: None,
            snapshot_boundary: None,
        },
    );
    let s2 = o.new_state().unwrap().clone();
    let o = apply_event(
        &s2,
        &mut ctx2,
        &OrderEvent::Fill {
            fill_id: fid("shared"),
            qty: 3,
            price_cents: 41,
            ts_ns: 5,
            venue_order_id: Some(vid("V-dd2")),
            fee_cents: None,
        },
    );
    assert_eq!(o.account_fill_count(), 1);
    let s2 = o.new_state().unwrap().clone();
    assert!(matches!(s2, OrderState::ImmediateFillUnattributed { .. }));
    let o = apply_event(
        &s2,
        &mut ctx2,
        &OrderEvent::ImmediateFillBackfillResult {
            fills: vec![
                fill_rec_v("shared", 3, 41, 5, "V-dd2"),
                fill_rec_v("F2", 3, 41, 6, "V-dd2"),
            ],
        },
    );
    assert_eq!(o.account_fill_count(), 1, "only F2 newly accounted");
    assert_eq!(ctx2.attributed_fill_qty, 6);
    assert!(matches!(o.new_state(), Some(OrderState::Partial { .. })));
}

#[test]
fn c_backfill_match_to_filled() {
    let mut ctx = ctx_default();
    let s = prepare_started(&mut ctx);
    let o = apply_event(&s, &mut ctx, &OrderEvent::SubmitTimeout);
    let s = o.new_state().unwrap().clone();
    assert!(matches!(s, OrderState::SubmitUnknown));

    let coid = ctx.client_order_id.clone();
    let o = apply_event(
        &s,
        &mut ctx,
        &OrderEvent::UnknownBackfillResult {
            exhaustive: true,
            matched: vec![BackfillOrderRecord {
                client_order_id: coid,
                venue_order_id: vid("V-found"),
                status: BackfillOrderStatus::Filled,
                filled_qty: 10,
                remaining_qty: 0,
                fills: vec![fill_rec_v("F-bf", 10, 45, 9, "V-found")],
            }],
        },
    );
    assert_eq!(o.new_state(), Some(&OrderState::Filled));
    assert_eq!(o.account_fill_count(), 1);
    assert_eq!(
        reservation_held(&OrderState::Filled),
        ReservationHold::Released
    );
    assert!(!o.effects().iter().any(|e| matches!(
        e,
        Effect::BackfillUnknown { .. } // no continue after terminal
    )));
    assert!(
        o.effects()
            .iter()
            .any(|e| matches!(e, Effect::ReleaseReservation))
    );
    assert!(!o.has_resubmit_effect());
}

#[test]
fn c_backfill_no_match_unknown_no_match_halt() {
    let mut ctx = ctx_default();
    let s = prepare_started(&mut ctx);
    let o = apply_event(&s, &mut ctx, &OrderEvent::SubmitTimeout);
    let s = o.new_state().unwrap().clone();
    let o = apply_event(
        &s,
        &mut ctx,
        &OrderEvent::UnknownBackfillResult {
            exhaustive: true,
            matched: vec![],
        },
    );
    assert!(o.is_halt());
    assert_eq!(o.new_state(), Some(&OrderState::UnknownNoMatch));
    assert!(matches!(
        o,
        TransitionOutcome::Halt {
            reason: HaltReason::UnknownNoMatch,
            ..
        }
    ));
    assert_eq!(
        reservation_held(&OrderState::UnknownNoMatch),
        ReservationHold::Full
    );
    assert!(
        !o.effects()
            .iter()
            .any(|e| matches!(e, Effect::ReleaseReservation))
    );
    assert!(!o.has_resubmit_effect());
}

#[test]
fn c_unproven_resubmit_halts_no_resubmit_effect() {
    let mut ctx = ctx_default();
    let s = prepare_started(&mut ctx);
    let o = apply_event(&s, &mut ctx, &OrderEvent::SubmitTimeout);
    let s = o.new_state().unwrap().clone();
    let o = apply_event(
        &s,
        &mut ctx,
        &OrderEvent::RequestResubmit {
            venue_idempotent_proven: false,
        },
    );
    assert!(o.is_halt());
    assert!(matches!(
        o,
        TransitionOutcome::Halt {
            reason: HaltReason::UnprovenIdempotentResubmit,
            ..
        }
    ));
    assert_eq!(
        o.effects(),
        &[
            Effect::AppendFsync(JournalRecord::Halted {
                reason: HaltReason::UnprovenIdempotentResubmit,
            }),
            Effect::HaltNewExposure,
        ]
    );
    assert_eq!(
        reservation_held(o.new_state().unwrap()),
        ReservationHold::Full
    );
}

#[test]
fn c_non_exhaustive_no_match_stays_unknown() {
    let mut ctx = ctx_default();
    let s = prepare_started(&mut ctx);
    let o = apply_event(&s, &mut ctx, &OrderEvent::SubmitTimeout);
    let s = o.new_state().unwrap().clone();
    let o = apply_event(
        &s,
        &mut ctx,
        &OrderEvent::UnknownBackfillResult {
            exhaustive: false,
            matched: vec![],
        },
    );
    assert_eq!(o.new_state(), Some(&OrderState::SubmitUnknown));
    assert!(!o.is_halt());
    assert!(
        o.effects()
            .iter()
            .any(|e| matches!(e, Effect::BackfillUnknown { .. }))
    );
    assert!(
        !o.effects()
            .iter()
            .any(|e| matches!(e, Effect::ReleaseReservation))
    );
}

#[test]
fn d1_non_exhaustive_filled_stays_reconcile_pending() {
    let mut ctx = ctx_default();
    let s = prepare_started(&mut ctx);
    let o = apply_event(&s, &mut ctx, &OrderEvent::SubmitTimeout);
    let s = o.new_state().unwrap().clone();
    let coid = ctx.client_order_id.clone();
    let o = apply_event(
        &s,
        &mut ctx,
        &OrderEvent::UnknownBackfillResult {
            exhaustive: false,
            matched: vec![BackfillOrderRecord {
                client_order_id: coid,
                venue_order_id: vid("V-ne"),
                status: BackfillOrderStatus::Filled,
                filled_qty: 10,
                remaining_qty: 0,
                fills: vec![], // no fill pages yet
            }],
        },
    );
    assert_ne!(o.new_state(), Some(&OrderState::Filled));
    assert!(
        !o.effects()
            .iter()
            .any(|e| matches!(e, Effect::ReleaseReservation))
    );
    assert_eq!(
        reservation_held(o.new_state().unwrap()),
        ReservationHold::Full
    );
    assert!(matches!(o.new_state(), Some(OrderState::SubmitUnknown)));
    assert!(o.effects().iter().any(|e| matches!(
        e,
        Effect::BackfillFills { .. } | Effect::BackfillUnknown { .. }
    )));
    assert_eq!(ctx.attributed_fill_qty, 0);
}

#[test]
fn d1_exhaustive_missing_fills_no_release() {
    let mut ctx = ctx_default();
    let s = prepare_started(&mut ctx);
    let o = apply_event(&s, &mut ctx, &OrderEvent::SubmitTimeout);
    let s = o.new_state().unwrap().clone();
    let coid = ctx.client_order_id.clone();
    let o = apply_event(
        &s,
        &mut ctx,
        &OrderEvent::UnknownBackfillResult {
            exhaustive: true,
            matched: vec![BackfillOrderRecord {
                client_order_id: coid,
                venue_order_id: vid("V-miss"),
                status: BackfillOrderStatus::Filled,
                filled_qty: 10,
                remaining_qty: 0,
                fills: vec![fill_rec_v("only-partial", 4, 45, 1, "V-miss")],
            }],
        },
    );
    assert_ne!(o.new_state(), Some(&OrderState::Filled));
    assert!(
        !o.effects()
            .iter()
            .any(|e| matches!(e, Effect::ReleaseReservation))
    );
    assert_eq!(
        reservation_held(o.new_state().unwrap()),
        ReservationHold::Full
    );
    assert_eq!(o.account_fill_count(), 1);
    assert_eq!(ctx.attributed_fill_qty, 4);
    assert!(matches!(
        o.new_state(),
        Some(OrderState::ReconcilePending {
            filled_qty: 4,
            target: ReconcileTarget {
                terminal: ReconcileTerminal::Filled,
                venue_filled_qty: 10,
                ..
            },
            ..
        })
    ));
    assert!(
        o.effects()
            .iter()
            .any(|e| matches!(e, Effect::BackfillFills { .. }))
    );
}

#[test]
fn d2_late_fill_on_canceled_accounts_reserve_full() {
    let mut ctx = ctx_default();
    let s = to_cancel_pending(&mut ctx);
    let o = apply_event(
        &s,
        &mut ctx,
        &OrderEvent::Fill {
            fill_id: fid("F-pre"),
            qty: 3,
            price_cents: 41,
            ts_ns: 1,
            venue_order_id: Some(vid("V1")),
            fee_cents: None,
        },
    );
    let s = o.new_state().unwrap().clone();
    assert!(matches!(s, OrderState::CancelPending { .. }));
    let o = apply_event(
        &s,
        &mut ctx,
        &OrderEvent::CancelOutcome(CancelOutcome::Canceled),
    );
    assert_ne!(
        o.new_state(),
        Some(&OrderState::Canceled),
        "F1: cancel alone no release"
    );
    let s = o.new_state().unwrap().clone();
    let o = apply_event(
        &s,
        &mut ctx,
        &OrderEvent::ReconcileResult {
            status: BackfillOrderStatus::Canceled,
            venue_order_id: Some(vid("V1")),
            filled_qty: 3,
            remaining_qty: 7,
            fills: vec![],
            authority_complete: true,
        },
    );
    assert_eq!(o.new_state(), Some(&OrderState::Canceled));
    assert_eq!(
        reservation_held(&OrderState::Canceled),
        ReservationHold::Released
    );
    assert_eq!(ctx.attributed_fill_qty, 3);

    let o = apply_event(
        &OrderState::Canceled,
        &mut ctx,
        &OrderEvent::Fill {
            fill_id: fid("F-late"),
            qty: 2,
            price_cents: 42,
            ts_ns: 9,
            venue_order_id: Some(vid("V1")),
            fee_cents: None,
        },
    );
    assert!(o.is_halt());
    assert!(matches!(
        o,
        TransitionOutcome::Halt {
            reason: HaltReason::PostTerminalFill,
            ..
        }
    ));
    assert_eq!(o.account_fill_count(), 1);
    assert!(o.effects().iter().any(|e| matches!(e, Effect::ReserveFull)));
    assert!(
        o.effects()
            .iter()
            .any(|e| matches!(e, Effect::AppendFsync(JournalRecord::Fill { .. })))
    );
    assert!(
        o.effects()
            .iter()
            .any(|e| matches!(e, Effect::AccountFill { .. }))
    );
    assert_eq!(ctx.attributed_fill_qty, 5);
    assert_eq!(
        reservation_held(o.new_state().unwrap()),
        ReservationHold::Full
    );
}

#[test]
fn d3_overfill_halts() {
    let mut ctx = ctx_default();
    let s = prepare_started(&mut ctx);
    let o = apply_event(
        &s,
        &mut ctx,
        &OrderEvent::SubmitResponse {
            venue_order_id: vid("V-of"),
            fill_count: 0,
            remaining_count: 10,
            avg_price_cents: None,
            fee_cents: None,
            snapshot_boundary: None,
        },
    );
    let s = o.new_state().unwrap().clone();
    let o = apply_event(
        &s,
        &mut ctx,
        &OrderEvent::Fill {
            fill_id: fid("F-big"),
            qty: 11,
            price_cents: 40,
            ts_ns: 1,
            venue_order_id: Some(vid("V-of")),
            fee_cents: None,
        },
    );
    assert!(o.is_halt());
    assert!(matches!(
        o,
        TransitionOutcome::Halt {
            reason: HaltReason::OverFill { .. },
            ..
        }
    ));
    assert_eq!(ctx.attributed_fill_qty, 0, "must not book overfill");
    assert!(
        !o.effects()
            .iter()
            .any(|e| matches!(e, Effect::ReleaseReservation))
    );
    assert_eq!(
        reservation_held(o.new_state().unwrap()),
        ReservationHold::Full
    );
}

#[test]
fn d4_zero_response_with_prior_ws_fills_halts() {
    let mut ctx = ctx_default();
    let s = prepare_started(&mut ctx);
    let o = apply_event(
        &s,
        &mut ctx,
        &OrderEvent::Fill {
            fill_id: fid("F-ws"),
            qty: 4,
            price_cents: 45,
            ts_ns: 1,
            venue_order_id: None,
            fee_cents: None,
        },
    );
    let s = o.new_state().unwrap().clone();
    assert_eq!(ctx.attributed_fill_qty, 4);
    let o = apply_event(
        &s,
        &mut ctx,
        &OrderEvent::SubmitResponse {
            venue_order_id: vid("V-z"),
            fill_count: 0,
            remaining_count: 10,
            avg_price_cents: None,
            fee_cents: None,
            snapshot_boundary: None,
        },
    );
    assert!(
        matches!(
            o.new_state(),
            Some(OrderState::Partial { filled_qty: 4, remaining_qty: 6, .. })
        ),
        "A5：抢跑 fill + 全量驻留 response = Partial（domain 外新证据）: {o:?}"
    );
    assert!(!matches!(o.new_state(), Some(OrderState::Accepted { .. })));
    assert_eq!(ctx.attributed_fill_qty, 4, "fill 已入账不回滚");
}

#[test]
fn d4_avg_price_mismatch_halts() {
    let mut ctx = ctx_default();
    let s = prepare_started(&mut ctx);
    let o = apply_event(
        &s,
        &mut ctx,
        &OrderEvent::SubmitResponse {
            venue_order_id: vid("V-avg"),
            fill_count: 4,
            remaining_count: 6,
            avg_price_cents: Some(50), // claims 50
            fee_cents: Some(1),
            snapshot_boundary: Some(SnapshotBoundary::TsNs(100)),
        },
    );
    let s = o.new_state().unwrap().clone();
    match &s {
        OrderState::ImmediateFillUnattributed {
            response_avg_price_cents: Some(50),
            response_fee_cents: Some(1),
            ..
        } => {}
        other => panic!("avg/fee not preserved: {other:?}"),
    }
    let o = apply_event(
        &s,
        &mut ctx,
        &OrderEvent::ImmediateFillBackfillResult {
            fills: vec![fill_rec_vf("Fa", 4, 40, 1, "V-avg", 1)], // notional 160 vs 50*4=200
        },
    );
    assert!(o.is_halt());
    assert!(matches!(
        o,
        TransitionOutcome::Halt {
            reason: HaltReason::CrossCheckMismatch { .. },
            ..
        }
    ));
    assert_eq!(ctx.response_avg_price_cents, Some(50));
    assert_eq!(ctx.response_fee_cents, Some(1));
}

#[test]
fn d5_unattributed_cancel_to_pending() {
    let mut ctx = ctx_default();
    let s = prepare_started(&mut ctx);
    let o = apply_event(
        &s,
        &mut ctx,
        &OrderEvent::SubmitResponse {
            venue_order_id: vid("V-c5b"),
            fill_count: 6,
            remaining_count: 4,
            avg_price_cents: None,
            fee_cents: None,
            snapshot_boundary: None,
        },
    );
    let s = o.new_state().unwrap().clone();
    let o = apply_event(
        &s,
        &mut ctx,
        &OrderEvent::Fill {
            fill_id: fid("F-part"),
            qty: 4,
            price_cents: 45,
            ts_ns: 1,
            venue_order_id: Some(vid("V-c5b")),
            fee_cents: None,
        },
    );
    let s = o.new_state().unwrap().clone();
    assert!(matches!(s, OrderState::ImmediateFillUnattributed { .. }));
    assert_eq!(ctx.attributed_fill_qty, 4);

    let o = apply_event(&s, &mut ctx, &OrderEvent::CancelRequested);
    assert!(matches!(
        o.new_state(),
        Some(OrderState::CancelPending {
            filled_qty: 4,
            remaining_qty: 6,
            response_fill_count: Some(6),
            ..
        })
    ));
    assert!(!o.is_reject());
    assert_eq!(
        reservation_held(o.new_state().unwrap()),
        ReservationHold::Full
    );
    assert_eq!(ctx.attributed_fill_qty, 4);
}

#[test]
fn d6_ambiguous_match_halts() {
    let mut ctx = ctx_default();
    let s = prepare_started(&mut ctx);
    let o = apply_event(&s, &mut ctx, &OrderEvent::SubmitTimeout);
    let s = o.new_state().unwrap().clone();
    let coid = ctx.client_order_id.clone();
    let o = apply_event(
        &s,
        &mut ctx,
        &OrderEvent::UnknownBackfillResult {
            exhaustive: true,
            matched: vec![
                BackfillOrderRecord {
                    client_order_id: coid.clone(),
                    venue_order_id: vid("V-a"),
                    status: BackfillOrderStatus::Open,
                    filled_qty: 0,
                    remaining_qty: 10,
                    fills: vec![],
                },
                BackfillOrderRecord {
                    client_order_id: coid,
                    venue_order_id: vid("V-b"),
                    status: BackfillOrderStatus::Open,
                    filled_qty: 0,
                    remaining_qty: 10,
                    fills: vec![],
                },
            ],
        },
    );
    assert!(o.is_halt());
    assert!(matches!(
        o,
        TransitionOutcome::Halt {
            reason: HaltReason::AmbiguousMatch { count: 2 },
            ..
        }
    ));
    assert!(
        !o.effects()
            .iter()
            .any(|e| matches!(e, Effect::ReleaseReservation))
    );
}

#[test]
fn d6_fill_ownership_mismatch_halts() {
    let mut ctx = ctx_default();
    let s = prepare_started(&mut ctx);
    let o = apply_event(&s, &mut ctx, &OrderEvent::SubmitTimeout);
    let s = o.new_state().unwrap().clone();
    let coid = ctx.client_order_id.clone();
    let o = apply_event(
        &s,
        &mut ctx,
        &OrderEvent::UnknownBackfillResult {
            exhaustive: true,
            matched: vec![BackfillOrderRecord {
                client_order_id: coid,
                venue_order_id: vid("V-parent"),
                status: BackfillOrderStatus::Partial,
                filled_qty: 3,
                remaining_qty: 7,
                fills: vec![fill_rec_v("F-sib", 3, 45, 1, "V-SIBLING")],
            }],
        },
    );
    assert!(o.is_halt());
    assert!(matches!(
        o,
        TransitionOutcome::Halt {
            reason: HaltReason::FillOwnershipMismatch { .. },
            ..
        }
    ));
    assert_eq!(ctx.attributed_fill_qty, 0);
}

#[test]
fn d7_conflicting_fill_payload_halts() {
    let mut ctx = ctx_default();
    let s = prepare_started(&mut ctx);
    let o = apply_event(
        &s,
        &mut ctx,
        &OrderEvent::SubmitResponse {
            venue_order_id: vid("V-cf"),
            fill_count: 0,
            remaining_count: 10,
            avg_price_cents: None,
            fee_cents: None,
            snapshot_boundary: None,
        },
    );
    let s = o.new_state().unwrap().clone();
    let o = apply_event(
        &s,
        &mut ctx,
        &OrderEvent::Fill {
            fill_id: fid("F1"),
            qty: 1,
            price_cents: 40,
            ts_ns: 1,
            venue_order_id: Some(vid("V-cf")),
            fee_cents: None,
        },
    );
    assert_eq!(o.account_fill_count(), 1);
    let s = o.new_state().unwrap().clone();
    let o = apply_event(
        &s,
        &mut ctx,
        &OrderEvent::Fill {
            fill_id: fid("F1"),
            qty: 4,
            price_cents: 40,
            ts_ns: 2,
            venue_order_id: Some(vid("V-cf")),
            fee_cents: None,
        },
    );
    assert!(o.is_halt());
    assert!(matches!(
        o,
        TransitionOutcome::Halt {
            reason: HaltReason::ConflictingFillPayload { .. },
            ..
        }
    ));
    assert_eq!(
        ctx.attributed_fill_qty, 1,
        "must not apply conflicting payload"
    );
}

#[test]
fn replay_fold_equals_stepwise() {
    let events = vec![
        OrderEvent::PrepareSubmit,
        OrderEvent::StartSubmit {
            attempt_id: AttemptId("r1".into()),
        },
        OrderEvent::SubmitResponse {
            venue_order_id: vid("Vr"),
            fill_count: 0,
            remaining_count: 10,
            avg_price_cents: None,
            fee_cents: None,
            snapshot_boundary: None,
        },
        OrderEvent::Fill {
            fill_id: fid("Fr1"),
            qty: 4,
            price_cents: 42,
            ts_ns: 10,
            venue_order_id: Some(vid("Vr")),
            fee_cents: None,
        },
        OrderEvent::Fill {
            fill_id: fid("Fr2"),
            qty: 6,
            price_cents: 43,
            ts_ns: 11,
            venue_order_id: Some(vid("Vr")),
            fee_cents: None,
        },
    ];
    let r = replay(OrderState::New, ctx_default(), &events);
    assert_eq!(r.state, OrderState::Filled);
    assert!(r.reject.is_none());
    assert!(r.halt.is_none());

    let mut ctx = ctx_default();
    let mut s = OrderState::New;
    for ev in &events {
        let o = apply_event(&s, &mut ctx, ev);
        s = o.new_state().expect("step ok").clone();
    }
    assert_eq!(s, r.state);
    assert_eq!(ctx.attributed_fill_qty, r.ctx.attributed_fill_qty);
    assert_eq!(ctx.applied_fills, r.ctx.applied_fills);
}

#[test]
fn replay_started_fsync_before_response_in_effect_order() {
    let events = [
        OrderEvent::PrepareSubmit,
        OrderEvent::StartSubmit {
            attempt_id: AttemptId("ord".into()),
        },
        OrderEvent::SubmitResponse {
            venue_order_id: vid("Vo"),
            fill_count: 0,
            remaining_count: 10,
            avg_price_cents: None,
            fee_cents: None,
            snapshot_boundary: None,
        },
    ];
    let r = replay(OrderState::New, ctx_default(), &events);
    let mut seen_started = false;
    let mut seen_response = false;
    for e in &r.effects {
        match e {
            Effect::AppendFsync(JournalRecord::SubmitStarted { .. }) => {
                assert!(!seen_response, "Started fsync must precede Response");
                seen_started = true;
            }
            Effect::AppendFsync(JournalRecord::SubmitResponse { .. }) => {
                assert!(seen_started, "Response requires prior Started fsync effect");
                seen_response = true;
            }
            _ => {}
        }
    }
    assert!(seen_started && seen_response);
}

#[test]
fn e1_cancel_outcome_with_unattributed_obligation_no_release() {
    let mut ctx = ctx_default();
    let s = prepare_started(&mut ctx);
    let o = apply_event(
        &s,
        &mut ctx,
        &OrderEvent::SubmitResponse {
            venue_order_id: vid("V-e1"),
            fill_count: 6,
            remaining_count: 4,
            avg_price_cents: Some(45),
            fee_cents: Some(3),
            snapshot_boundary: None,
        },
    );
    let s = o.new_state().unwrap().clone();
    let o = apply_event(
        &s,
        &mut ctx,
        &OrderEvent::Fill {
            fill_id: fid("F-a"),
            qty: 4,
            price_cents: 45,
            ts_ns: 1,
            venue_order_id: Some(vid("V-e1")),
            fee_cents: Some(2),
        },
    );
    let s = o.new_state().unwrap().clone();
    assert!(matches!(s, OrderState::ImmediateFillUnattributed { .. }));
    assert_eq!(ctx.attributed_fill_qty, 4);

    let o = apply_event(&s, &mut ctx, &OrderEvent::CancelRequested);
    let s = o.new_state().unwrap().clone();
    match &s {
        OrderState::CancelPending {
            response_fill_count: Some(6),
            response_avg_price_cents: Some(45),
            response_fee_cents: Some(3),
            filled_qty: 4,
            ..
        } => {}
        other => panic!("obligation not carried: {other:?}"),
    }
    assert_eq!(reservation_held(&s), ReservationHold::Full);

    let o = apply_event(
        &s,
        &mut ctx,
        &OrderEvent::CancelOutcome(CancelOutcome::Canceled),
    );
    assert_ne!(o.new_state(), Some(&OrderState::Canceled));
    assert!(
        !o.effects()
            .iter()
            .any(|e| matches!(e, Effect::ReleaseReservation))
    );
    assert_eq!(
        reservation_held(o.new_state().unwrap()),
        ReservationHold::Full
    );
    assert!(matches!(
        o.new_state(),
        Some(OrderState::ReconcilePending {
            target: ReconcileTarget {
                terminal: ReconcileTerminal::Canceled,
                venue_filled_qty: 6,
                ..
            },
            ..
        })
    ));
    assert!(
        o.effects()
            .iter()
            .any(|e| matches!(e, Effect::BackfillFills { .. }))
    );
    assert_eq!(ctx.attributed_fill_qty, 4);
    assert_eq!(
        ctx.fill_obligation, 6,
        "R2: response fill_count obligation survives cancel"
    );
}

#[test]
fn e2_authority_complete_false_blocks_terminal() {
    let mut ctx = ctx_default();
    let s = to_cancel_pending(&mut ctx);
    let o = apply_event(
        &s,
        &mut ctx,
        &OrderEvent::Fill {
            fill_id: fid("F1"),
            qty: 4,
            price_cents: 45,
            ts_ns: 1,
            venue_order_id: Some(vid("V1")),
            fee_cents: None,
        },
    );
    let s = o.new_state().unwrap().clone();
    let o = apply_event(
        &s,
        &mut ctx,
        &OrderEvent::CancelOutcome(CancelOutcome::NotFound),
    );
    let s = o.new_state().unwrap().clone();
    assert!(matches!(s, OrderState::CancelPending { .. }));

    let o = apply_event(
        &s,
        &mut ctx,
        &OrderEvent::ReconcileResult {
            status: BackfillOrderStatus::Canceled,
            venue_order_id: Some(vid("V1")),
            filled_qty: 4,
            remaining_qty: 6,
            fills: vec![],
            authority_complete: false,
        },
    );
    assert_ne!(o.new_state(), Some(&OrderState::Canceled));
    assert!(
        !o.effects()
            .iter()
            .any(|e| matches!(e, Effect::ReleaseReservation))
    );
    assert_eq!(
        reservation_held(o.new_state().unwrap()),
        ReservationHold::Full
    );
    assert!(matches!(
        o.new_state(),
        Some(OrderState::ReconcilePending {
            target: ReconcileTarget {
                terminal: ReconcileTerminal::Canceled,
                venue_filled_qty: 4,
                ..
            },
            ..
        })
    ));
}

#[test]
fn e2_authority_complete_true_allows_terminal() {
    let mut ctx = ctx_default();
    let s = to_cancel_pending(&mut ctx);
    let o = apply_event(
        &s,
        &mut ctx,
        &OrderEvent::Fill {
            fill_id: fid("F1"),
            qty: 4,
            price_cents: 45,
            ts_ns: 1,
            venue_order_id: Some(vid("V1")),
            fee_cents: None,
        },
    );
    let s = o.new_state().unwrap().clone();
    let o = apply_event(
        &s,
        &mut ctx,
        &OrderEvent::CancelOutcome(CancelOutcome::NotFound),
    );
    let s = o.new_state().unwrap().clone();
    let o = apply_event(
        &s,
        &mut ctx,
        &OrderEvent::ReconcileResult {
            status: BackfillOrderStatus::Canceled,
            venue_order_id: Some(vid("V1")),
            filled_qty: 4,
            remaining_qty: 6,
            fills: vec![],
            authority_complete: true,
        },
    );
    assert_eq!(o.new_state(), Some(&OrderState::Canceled));
    assert!(
        o.effects()
            .iter()
            .any(|e| matches!(e, Effect::ReleaseReservation))
    );
    assert_eq!(
        reservation_held(&OrderState::Canceled),
        ReservationHold::Released
    );
    assert_eq!(ctx.attributed_fill_qty, 4);
}

#[test]
fn e3_fee_mismatch_halts() {
    let mut ctx = ctx_default();
    let s = prepare_started(&mut ctx);
    let o = apply_event(
        &s,
        &mut ctx,
        &OrderEvent::SubmitResponse {
            venue_order_id: vid("V-fee"),
            fill_count: 4,
            remaining_count: 6,
            avg_price_cents: Some(45),
            fee_cents: Some(100),
            snapshot_boundary: Some(SnapshotBoundary::TsNs(100)),
        },
    );
    let s = o.new_state().unwrap().clone();
    assert!(o.effects().iter().any(|e| matches!(
        e,
        Effect::AppendFsync(JournalRecord::SubmitResponse {
            fee_cents: Some(100),
            avg_price_cents: Some(45),
            ..
        })
    )));
    assert!(o.effects().iter().any(|e| matches!(
        e,
        Effect::AppendFsync(JournalRecord::ImmediateFillUnattributed {
            fee_cents: Some(100),
            avg_price_cents: Some(45),
            ..
        })
    )));

    let o = apply_event(
        &s,
        &mut ctx,
        &OrderEvent::ImmediateFillBackfillResult {
            fills: vec![fill_rec_vf("Ff", 4, 45, 1, "V-fee", 1)], // fee 1 ≠ 100
        },
    );
    assert!(o.is_halt());
    assert!(matches!(
        o,
        TransitionOutcome::Halt {
            reason: HaltReason::CrossCheckMismatch { .. },
            ..
        }
    ));
    let detail = match &o {
        TransitionOutcome::Halt {
            reason: HaltReason::CrossCheckMismatch { detail },
            ..
        } => detail.clone(),
        _ => String::new(),
    };
    assert!(detail.contains("fee"), "detail={detail}");
    assert_eq!(ctx.attributed_fee_cents, 1);
    assert_eq!(ctx.response_fee_cents, Some(100));
    assert!(
        !o.effects()
            .iter()
            .any(|e| matches!(e, Effect::ReleaseReservation))
    );
    assert!(
        o.effects()
            .iter()
            .any(|e| matches!(e, Effect::AccountFill { fee_cents: 1, .. }))
    );
}

#[test]
fn e4_restart_rebuild_avg_fee_still_cross_checks() {
    let mut ctx = ctx_default();
    ctx.response_fill_count = Some(3);
    ctx.response_remaining_count = Some(7);
    ctx.response_avg_price_cents = Some(50);
    ctx.response_fee_cents = Some(9);
    ctx.response_snapshot_boundary = Some(SnapshotBoundary::TsNs(100));

    let s = OrderState::ImmediateFillUnattributed {
        venue_order_id: vid("V-e4"),
        response_fill_count: 3,
        response_remaining_count: 7,
        response_avg_price_cents: Some(50),
        response_fee_cents: Some(9),
    };
    let o = apply_event(
        &s,
        &mut ctx,
        &OrderEvent::ImmediateFillBackfillResult {
            fills: vec![fill_rec_vf("Fe4", 3, 40, 1, "V-e4", 9)],
        },
    );
    assert!(o.is_halt());
    assert!(matches!(
        o,
        TransitionOutcome::Halt {
            reason: HaltReason::CrossCheckMismatch { .. },
            ..
        }
    ));
    assert_eq!(ctx.response_avg_price_cents, Some(50));
    assert_eq!(ctx.response_fee_cents, Some(9));
}

#[test]
fn e5_canceled_target_finalizes_after_fills() {
    let mut ctx = ctx_default();
    let s = prepare_started(&mut ctx);
    let o = apply_event(&s, &mut ctx, &OrderEvent::SubmitTimeout);
    let s = o.new_state().unwrap().clone();
    let coid = ctx.client_order_id.clone();
    let o = apply_event(
        &s,
        &mut ctx,
        &OrderEvent::UnknownBackfillResult {
            exhaustive: true,
            matched: vec![BackfillOrderRecord {
                client_order_id: coid,
                venue_order_id: vid("V-e5"),
                status: BackfillOrderStatus::Canceled,
                filled_qty: 4,
                remaining_qty: 6,
                fills: vec![fill_rec_v("F1", 2, 45, 1, "V-e5")],
            }],
        },
    );
    assert!(matches!(
        o.new_state(),
        Some(OrderState::ReconcilePending {
            filled_qty: 2,
            target: ReconcileTarget {
                terminal: ReconcileTerminal::Canceled,
                venue_filled_qty: 4,
                ..
            },
            ..
        })
    ));
    assert_eq!(
        reservation_held(o.new_state().unwrap()),
        ReservationHold::Full
    );
    assert!(
        !o.effects()
            .iter()
            .any(|e| matches!(e, Effect::ReleaseReservation))
    );
    assert_eq!(ctx.attributed_fill_qty, 2);

    let s = o.new_state().unwrap().clone();
    let o = apply_event(
        &s,
        &mut ctx,
        &OrderEvent::Fill {
            fill_id: fid("F2"),
            qty: 2,
            price_cents: 45,
            ts_ns: 2,
            venue_order_id: Some(vid("V-e5")),
            fee_cents: None,
        },
    );
    assert_eq!(ctx.attributed_fill_qty, 4);
    assert_eq!(o.account_fill_count(), 1);
    assert!(!ctx.authority_is_fresh(), "G1: new fill clears authority");
    assert_ne!(o.new_state(), Some(&OrderState::Canceled));
    assert!(
        !o.effects()
            .iter()
            .any(|e| matches!(e, Effect::ReleaseReservation))
    );
    assert!(matches!(
        o.new_state(),
        Some(OrderState::ReconcilePending { .. })
    ));
    assert!(
        o.effects()
            .iter()
            .any(|e| matches!(e, Effect::RequestAuthorityReconcile { .. }))
    );
    let s = o.new_state().unwrap().clone();
    let o = apply_event(
        &s,
        &mut ctx,
        &OrderEvent::ReconcileResult {
            status: BackfillOrderStatus::Canceled,
            venue_order_id: Some(vid("V-e5")),
            filled_qty: 4,
            remaining_qty: 6,
            fills: vec![],
            authority_complete: true,
        },
    );
    assert_eq!(o.new_state(), Some(&OrderState::Canceled));
    assert!(
        o.effects()
            .iter()
            .any(|e| matches!(e, Effect::ReleaseReservation))
    );
    assert_eq!(
        reservation_held(&OrderState::Canceled),
        ReservationHold::Released
    );
}

#[test]
fn e6_fill_missing_venue_id_halts() {
    let mut ctx = ctx_default();
    let s = prepare_started(&mut ctx);
    let o = apply_event(
        &s,
        &mut ctx,
        &OrderEvent::SubmitResponse {
            venue_order_id: vid("V-own"),
            fill_count: 0,
            remaining_count: 10,
            avg_price_cents: None,
            fee_cents: None,
            snapshot_boundary: None,
        },
    );
    let s = o.new_state().unwrap().clone();
    let o = apply_event(
        &s,
        &mut ctx,
        &OrderEvent::Fill {
            fill_id: fid("Fx"),
            qty: 1,
            price_cents: 40,
            ts_ns: 1,
            venue_order_id: None, // missing while parent known
            fee_cents: None,
        },
    );
    assert!(o.is_halt());
    assert!(matches!(
        o,
        TransitionOutcome::Halt {
            reason: HaltReason::FillOwnershipMismatch { .. },
            ..
        }
    ));
    assert_eq!(ctx.attributed_fill_qty, 0);
    assert!(
        !o.effects()
            .iter()
            .any(|e| matches!(e, Effect::AccountFill { .. }))
    );
}

#[test]
fn e7_non_exhaustive_open_stays_pending_then_ambiguous() {
    let mut ctx = ctx_default();
    let s = prepare_started(&mut ctx);
    let o = apply_event(&s, &mut ctx, &OrderEvent::SubmitTimeout);
    let s = o.new_state().unwrap().clone();
    let coid = ctx.client_order_id.clone();

    let o = apply_event(
        &s,
        &mut ctx,
        &OrderEvent::UnknownBackfillResult {
            exhaustive: false,
            matched: vec![BackfillOrderRecord {
                client_order_id: coid.clone(),
                venue_order_id: vid("V-a"),
                status: BackfillOrderStatus::Open,
                filled_qty: 0,
                remaining_qty: 10,
                fills: vec![],
            }],
        },
    );
    assert_eq!(o.new_state(), Some(&OrderState::SubmitUnknown));
    assert!(!matches!(o.new_state(), Some(OrderState::Accepted { .. })));
    assert_eq!(
        reservation_held(o.new_state().unwrap()),
        ReservationHold::Full
    );
    assert!(
        o.effects()
            .iter()
            .any(|e| matches!(e, Effect::BackfillUnknown { .. }))
    );

    let s = o.new_state().unwrap().clone();
    let o = apply_event(
        &s,
        &mut ctx,
        &OrderEvent::UnknownBackfillResult {
            exhaustive: false,
            matched: vec![
                BackfillOrderRecord {
                    client_order_id: coid.clone(),
                    venue_order_id: vid("V-a"),
                    status: BackfillOrderStatus::Open,
                    filled_qty: 0,
                    remaining_qty: 10,
                    fills: vec![],
                },
                BackfillOrderRecord {
                    client_order_id: coid,
                    venue_order_id: vid("V-b"),
                    status: BackfillOrderStatus::Open,
                    filled_qty: 0,
                    remaining_qty: 10,
                    fills: vec![],
                },
            ],
        },
    );
    assert!(o.is_halt());
    assert!(matches!(
        o,
        TransitionOutcome::Halt {
            reason: HaltReason::AmbiguousMatch { count: 2 },
            ..
        }
    ));
    assert!(
        !o.effects()
            .iter()
            .any(|e| matches!(e, Effect::ReleaseReservation))
    );
}

#[test]
fn e7_exhaustive_open_commits_accepted() {
    let mut ctx = ctx_default();
    let s = prepare_started(&mut ctx);
    let o = apply_event(&s, &mut ctx, &OrderEvent::SubmitTimeout);
    let s = o.new_state().unwrap().clone();
    let coid = ctx.client_order_id.clone();
    let o = apply_event(
        &s,
        &mut ctx,
        &OrderEvent::UnknownBackfillResult {
            exhaustive: true,
            matched: vec![BackfillOrderRecord {
                client_order_id: coid,
                venue_order_id: vid("V-ok"),
                status: BackfillOrderStatus::Open,
                filled_qty: 0,
                remaining_qty: 10,
                fills: vec![],
            }],
        },
    );
    assert!(matches!(
        o.new_state(),
        Some(OrderState::Accepted {
            venue_order_id
        }) if venue_order_id == &vid("V-ok")
    ));
    assert_eq!(
        reservation_held(o.new_state().unwrap()),
        ReservationHold::Full
    );
}

#[test]
fn e8_notional_tolerance_passes() {
    let mut ctx = ctx_default();
    let s = prepare_started(&mut ctx);
    let o = apply_event(
        &s,
        &mut ctx,
        &OrderEvent::SubmitResponse {
            venue_order_id: vid("V-e8"),
            fill_count: 3,
            remaining_count: 7,
            avg_price_cents: Some(45),
            fee_cents: None,
            snapshot_boundary: Some(SnapshotBoundary::TsNs(100)),
        },
    );
    let s = o.new_state().unwrap().clone();
    let o = apply_event(
        &s,
        &mut ctx,
        &OrderEvent::ImmediateFillBackfillResult {
            fills: vec![
                fill_rec_v("Fa", 1, 44, 1, "V-e8"),
                fill_rec_v("Fb", 2, 45, 2, "V-e8"),
            ],
        },
    );
    assert!(
        matches!(
            o.new_state(),
            Some(OrderState::Partial {
                filled_qty: 3,
                remaining_qty: 7,
                ..
            })
        ),
        "got {:?}",
        o.new_state()
    );
    assert!(!o.is_halt());
    assert_eq!(ctx.attributed_notional_cents, 134);
    assert_eq!(ctx.attributed_fill_qty, 3);
    assert_eq!(ctx.attributed_avg_price_cents(), Some(44));
}

#[test]
fn e8_notional_over_tolerance_halts() {
    let mut ctx = ctx_default();
    let s = prepare_started(&mut ctx);
    let o = apply_event(
        &s,
        &mut ctx,
        &OrderEvent::SubmitResponse {
            venue_order_id: vid("V-e8b"),
            fill_count: 3,
            remaining_count: 7,
            avg_price_cents: Some(50),
            fee_cents: None,
            snapshot_boundary: Some(SnapshotBoundary::TsNs(100)),
        },
    );
    let s = o.new_state().unwrap().clone();
    let o = apply_event(
        &s,
        &mut ctx,
        &OrderEvent::ImmediateFillBackfillResult {
            fills: vec![fill_rec_v("Fx", 3, 40, 1, "V-e8b")],
        },
    );
    assert!(o.is_halt());
    assert!(matches!(
        o,
        TransitionOutcome::Halt {
            reason: HaltReason::CrossCheckMismatch { .. },
            ..
        }
    ));
}

#[test]
fn e9_d1_exhaustive_gate_isolated_from_attribution() {
    let mut ctx = ctx_default();
    let s = prepare_started(&mut ctx);
    let o = apply_event(&s, &mut ctx, &OrderEvent::SubmitTimeout);
    let s = o.new_state().unwrap().clone();
    let coid = ctx.client_order_id.clone();
    let o = apply_event(
        &s,
        &mut ctx,
        &OrderEvent::UnknownBackfillResult {
            exhaustive: false,
            matched: vec![BackfillOrderRecord {
                client_order_id: coid,
                venue_order_id: vid("V-iso"),
                status: BackfillOrderStatus::Filled,
                filled_qty: 10,
                remaining_qty: 0,
                fills: vec![fill_rec_v("Fall", 10, 45, 1, "V-iso")],
            }],
        },
    );
    assert_ne!(o.new_state(), Some(&OrderState::Filled));
    assert!(
        !o.effects()
            .iter()
            .any(|e| matches!(e, Effect::ReleaseReservation))
    );
    assert_eq!(
        ctx.attributed_fill_qty, 0,
        "R5: no accounting before exhaustive+unique"
    );
    assert_eq!(o.account_fill_count(), 0);
    assert_eq!(
        reservation_held(o.new_state().unwrap()),
        ReservationHold::Full
    );
    assert_eq!(o.new_state(), Some(&OrderState::SubmitUnknown));
    assert!(o.effects().iter().any(|e| matches!(
        e,
        Effect::BackfillUnknown { .. } | Effect::BackfillFills { .. }
    )));
}

#[test]
fn e9_golden_ioc_full_exact_effects() {
    let mut ctx = ctx_default();
    let s = prepare_started(&mut ctx);
    let o = apply_event(
        &s,
        &mut ctx,
        &OrderEvent::SubmitResponse {
            venue_order_id: vid("V-g"),
            fill_count: 10,
            remaining_count: 0,
            avg_price_cents: Some(45),
            fee_cents: Some(5),
            snapshot_boundary: None,
        },
    );
    assert_eq!(
        o.effects(),
        &[
            Effect::AppendFsync(JournalRecord::SubmitResponse {
                venue_order_id: vid("V-g"),
                fill_count: 10,
                remaining_count: 0,
                avg_price_cents: Some(45),
                fee_cents: Some(5),
                snapshot_boundary: None,
            }),
            Effect::AppendFsync(JournalRecord::VenueBoundCid {
                client_order_id: ClientOrderId("KXBTC-M|hoff-mm|1".into()),
                venue_order_id: vid("V-g"),
            }),
            Effect::AppendFsync(JournalRecord::ObligationRaised {
                fill_obligation: 10,
                authority_epoch: 1,
            }),
            Effect::AppendFsync(JournalRecord::AuthorityInvalidated { epoch: 1 }),
            Effect::AppendFsync(JournalRecord::ImmediateFillUnattributed {
                venue_order_id: vid("V-g"),
                fill_count: 10,
                remaining_count: 0,
                avg_price_cents: Some(45),
                fee_cents: Some(5),
            }),
            Effect::BackfillFills {
                venue_order_id: vid("V-g"),
            },
        ]
    );
    let s = o.new_state().unwrap().clone();
    let o = apply_event(
        &s,
        &mut ctx,
        &OrderEvent::ImmediateFillBackfillResult {
            fills: vec![fill_rec_vf("Fg", 10, 45, 1, "V-g", 5)],
        },
    );
    assert_eq!(o.new_state(), Some(&OrderState::Filled));
    assert_eq!(
        o.effects(),
        &[
            Effect::AppendFsync(JournalRecord::AuthorityInvalidated { epoch: 2 }),
            Effect::AppendFsync(JournalRecord::Fill {
                fill_id: fid("Fg"),
                qty: 10,
                price_cents: 45,
                ts_ns: 1,
                fee_cents: Some(5),
                venue_order_id: Some(vid("V-g")),
            }),
            Effect::AccountFill {
                fill_id: fid("Fg"),
                qty: 10,
                price_cents: 45,
                ts_ns: 1,
                fee_cents: 5,
            },
            Effect::AppendFsync(JournalRecord::AuthorityLatched { epoch: 2 }),
            Effect::AppendFsync(JournalRecord::OrderTerminal {
                kind: TerminalKind::Filled,
                venue_order_id: Some(vid("V-g")),
                fill_obligation: 10,
                authority_complete: true,
                authority_epoch: 2,
                attributed_fill_qty: 10,
                attributed_fee_cents: 5,
            }),
            Effect::ReleaseReservation,
        ]
    );
    assert!(!o.has_resubmit_effect());
    assert_eq!(ctx.attributed_fee_cents, 5);
    assert_eq!(ctx.response_avg_price_cents, Some(45));
    assert_eq!(ctx.response_fee_cents, Some(5));
}

#[test]
fn r1_release_reservation_only_via_try_finalize() {
    let mut ctx = ctx_default();
    let s = to_cancel_pending(&mut ctx);
    let o = apply_event(
        &s,
        &mut ctx,
        &OrderEvent::CancelOutcome(CancelOutcome::Canceled),
    );
    assert_eq!(
        o.effects()
            .iter()
            .filter(|e| matches!(e, Effect::ReleaseReservation))
            .count(),
        0,
        "F1: cancel must not forge authority/release"
    );
    let s = o.new_state().unwrap().clone();
    let o = apply_event(&s, &mut ctx, &authority_reconcile_canceled(0, 10));
    assert_eq!(o.new_state(), Some(&OrderState::Canceled));
    assert_eq!(
        o.effects()
            .iter()
            .filter(|e| matches!(e, Effect::ReleaseReservation))
            .count(),
        1
    );
}

#[test]
fn r2_obligation_survives_reject_then_blocks_cancel_release() {
    let mut ctx = ctx_default();
    let s = prepare_started(&mut ctx);
    let o = apply_event(
        &s,
        &mut ctx,
        &OrderEvent::SubmitResponse {
            venue_order_id: vid("V-r2"),
            fill_count: 6,
            remaining_count: 4,
            avg_price_cents: Some(45),
            fee_cents: None,
            snapshot_boundary: None,
        },
    );
    let s = o.new_state().unwrap().clone();
    assert_eq!(ctx.fill_obligation, 6);
    let o = apply_event(
        &s,
        &mut ctx,
        &OrderEvent::Fill {
            fill_id: fid("Fa"),
            qty: 4,
            price_cents: 45,
            ts_ns: 1,
            venue_order_id: Some(vid("V-r2")),
            fee_cents: None,
        },
    );
    let s = o.new_state().unwrap().clone();
    assert!(matches!(s, OrderState::ImmediateFillUnattributed { .. }));
    let o = apply_event(&s, &mut ctx, &OrderEvent::CancelRequested);
    let s = o.new_state().unwrap().clone();
    let o = apply_event(
        &s,
        &mut ctx,
        &OrderEvent::CancelOutcome(CancelOutcome::Rejected),
    );
    let s = o.new_state().unwrap().clone();
    assert!(matches!(
        s,
        OrderState::Partial { .. } | OrderState::Accepted { .. }
    ));
    assert_eq!(
        ctx.fill_obligation, 6,
        "R2: Rejected must not drop obligation"
    );
    let o = apply_event(&s, &mut ctx, &OrderEvent::CancelRequested);
    let s = o.new_state().unwrap().clone();
    let o = apply_event(
        &s,
        &mut ctx,
        &OrderEvent::CancelOutcome(CancelOutcome::Canceled),
    );
    assert_ne!(o.new_state(), Some(&OrderState::Canceled));
    assert!(
        !o.effects()
            .iter()
            .any(|e| matches!(e, Effect::ReleaseReservation))
    );
    assert_eq!(ctx.fill_obligation, 6);
    assert_eq!(ctx.attributed_fill_qty, 4);
}

#[test]
fn r5_non_exhaustive_candidate_buffered_no_account_then_ambiguous() {
    let mut ctx = ctx_default();
    let s = prepare_started(&mut ctx);
    let o = apply_event(&s, &mut ctx, &OrderEvent::SubmitTimeout);
    let s = o.new_state().unwrap().clone();
    let coid = ctx.client_order_id.clone();
    let o = apply_event(
        &s,
        &mut ctx,
        &OrderEvent::UnknownBackfillResult {
            exhaustive: false,
            matched: vec![BackfillOrderRecord {
                client_order_id: coid.clone(),
                venue_order_id: vid("V-a"),
                status: BackfillOrderStatus::Filled,
                filled_qty: 10,
                remaining_qty: 0,
                fills: vec![fill_rec_v("Fall", 10, 45, 1, "V-a")],
            }],
        },
    );
    assert_eq!(o.new_state(), Some(&OrderState::SubmitUnknown));
    assert_eq!(o.account_fill_count(), 0);
    assert_eq!(ctx.attributed_fill_qty, 0);
    let s = o.new_state().unwrap().clone();
    let o = apply_event(
        &s,
        &mut ctx,
        &OrderEvent::UnknownBackfillResult {
            exhaustive: false,
            matched: vec![
                BackfillOrderRecord {
                    client_order_id: coid.clone(),
                    venue_order_id: vid("V-a"),
                    status: BackfillOrderStatus::Filled,
                    filled_qty: 10,
                    remaining_qty: 0,
                    fills: vec![fill_rec_v("Fall", 10, 45, 1, "V-a")],
                },
                BackfillOrderRecord {
                    client_order_id: coid,
                    venue_order_id: vid("V-b"),
                    status: BackfillOrderStatus::Open,
                    filled_qty: 0,
                    remaining_qty: 10,
                    fills: vec![],
                },
            ],
        },
    );
    assert!(o.is_halt());
    assert!(matches!(
        o,
        TransitionOutcome::Halt {
            reason: HaltReason::AmbiguousMatch { count: 2 },
            ..
        }
    ));
    assert_eq!(ctx.attributed_fill_qty, 0, "no pollution");
    assert!(
        !o.effects()
            .iter()
            .any(|e| matches!(e, Effect::AccountFill { .. }))
    );
}

#[test]
fn r3_reconcile_venue_id_substitution_halts() {
    let mut ctx = ctx_default();
    let s = to_cancel_pending(&mut ctx);
    assert_eq!(ctx.venue_order_id, Some(vid("V1")));
    let o = apply_event(
        &s,
        &mut ctx,
        &OrderEvent::ReconcileResult {
            status: BackfillOrderStatus::Canceled,
            venue_order_id: Some(vid("V-OTHER")),
            filled_qty: 0,
            remaining_qty: 10,
            fills: vec![],
            authority_complete: true,
        },
    );
    assert!(o.is_halt());
    assert!(matches!(
        o,
        TransitionOutcome::Halt {
            reason: HaltReason::OwnershipConflict { .. },
            ..
        }
    ));
    assert!(
        !o.effects()
            .iter()
            .any(|e| matches!(e, Effect::ReleaseReservation))
    );
}

#[test]
fn b1_cancel_pending_mutate_before_halt_emits_venue_bound_fold_equiv() {
    let mut ctx = ctx_default();
    assert_eq!(ctx.venue_order_id, None, "fixture: unbound ctx");
    let state = OrderState::CancelPending {
        venue_order_id: vid("A"),
        filled_qty: 0,
        remaining_qty: 10,
        response_fill_count: None,
        response_avg_price_cents: None,
        response_fee_cents: None,
        reconcile_target: None,
    };
    let o = apply_event(
        &state,
        &mut ctx,
        &OrderEvent::ReconcileResult {
            status: BackfillOrderStatus::Canceled,
            venue_order_id: Some(vid("B")),
            filled_qty: 0,
            remaining_qty: 10,
            fills: vec![],
            authority_complete: true,
        },
    );
    assert!(o.is_halt(), "B1 CancelPending: must Halt: {o:?}");
    assert!(
        matches!(
            o,
            TransitionOutcome::Halt {
                reason: HaltReason::OwnershipConflict { .. },
                ..
            }
        ),
        "B1 CancelPending: OwnershipConflict: {o:?}"
    );
    assert_eq!(
        ctx.venue_order_id,
        Some(vid("A")),
        "B1: memory venue must be A after mutate-then-conflict"
    );

    let eff = o.effects();
    let vb_pos = eff.iter().position(|e| {
        matches!(
            e,
            Effect::AppendFsync(JournalRecord::VenueBoundCid { venue_order_id, .. })
                if venue_order_id == &vid("A")
        )
    });
    let halt_pos = eff
        .iter()
        .position(|e| matches!(e, Effect::AppendFsync(JournalRecord::Halted { .. })));
    assert!(
        vb_pos.is_some(),
        "B1 CancelPending: Halt effects must include VenueBound(A) \
         (catches missing push_journal(bind_jr)): {eff:?}"
    );
    assert!(
        halt_pos.is_some() && vb_pos.unwrap() < halt_pos.unwrap(),
        "B1 CancelPending: VenueBound(A) must precede Halted: {eff:?}"
    );

    let mut journals = Vec::new();
    for e in eff {
        if let Effect::AppendFsync(jr) = e {
            journals.push(jr.clone());
        }
    }
    assert_ctx_fold_equiv(&ctx, &journals);
    assert_eq!(
        ctx.venue_order_id,
        Some(vid("A")),
        "B1 CancelPending: fold-equiv leaves memory venue Some(A)"
    );
}

#[test]
fn b1_reconcile_pending_mutate_before_halt_emits_venue_bound_fold_equiv() {
    let mut ctx = ctx_default();
    assert_eq!(ctx.venue_order_id, None, "fixture: unbound ctx");
    let state = OrderState::ReconcilePending {
        venue_order_id: vid("A"),
        filled_qty: 0,
        remaining_qty: 10,
        target: ReconcileTarget {
            terminal: ReconcileTerminal::Canceled,
            venue_filled_qty: 0,
            venue_remaining_qty: Some(10),
        },
        response_fill_count: None,
        response_avg_price_cents: None,
        response_fee_cents: None,
    };
    let o = apply_event(
        &state,
        &mut ctx,
        &OrderEvent::ReconcileResult {
            status: BackfillOrderStatus::Canceled,
            venue_order_id: Some(vid("B")),
            filled_qty: 0,
            remaining_qty: 10,
            fills: vec![],
            authority_complete: true,
        },
    );
    assert!(o.is_halt(), "B1 ReconcilePending: must Halt: {o:?}");
    assert!(
        matches!(
            o,
            TransitionOutcome::Halt {
                reason: HaltReason::OwnershipConflict { .. },
                ..
            }
        ),
        "B1 ReconcilePending: OwnershipConflict: {o:?}"
    );
    assert_eq!(
        ctx.venue_order_id,
        Some(vid("A")),
        "B1: memory venue must be A after mutate-then-conflict"
    );

    let eff = o.effects();
    let vb_pos = eff.iter().position(|e| {
        matches!(
            e,
            Effect::AppendFsync(JournalRecord::VenueBoundCid { venue_order_id, .. })
                if venue_order_id == &vid("A")
        )
    });
    let halt_pos = eff
        .iter()
        .position(|e| matches!(e, Effect::AppendFsync(JournalRecord::Halted { .. })));
    assert!(
        vb_pos.is_some(),
        "B1 ReconcilePending: Halt effects must include VenueBound(A) \
         (catches missing push_journal(bind_jr)): {eff:?}"
    );
    assert!(
        halt_pos.is_some() && vb_pos.unwrap() < halt_pos.unwrap(),
        "B1 ReconcilePending: VenueBound(A) must precede Halted: {eff:?}"
    );

    let mut journals = Vec::new();
    for e in eff {
        if let Effect::AppendFsync(jr) = e {
            journals.push(jr.clone());
        }
    }
    assert_ctx_fold_equiv(&ctx, &journals);
    assert_eq!(
        ctx.venue_order_id,
        Some(vid("A")),
        "B1 ReconcilePending: fold-equiv leaves memory venue Some(A)"
    );
}

#[test]
fn r3_sibling_fill_wrong_venue_halts() {
    let mut ctx = ctx_default();
    let s = prepare_started(&mut ctx);
    let o = apply_event(
        &s,
        &mut ctx,
        &OrderEvent::SubmitResponse {
            venue_order_id: vid("V-own"),
            fill_count: 0,
            remaining_count: 10,
            avg_price_cents: None,
            fee_cents: None,
            snapshot_boundary: None,
        },
    );
    let s = o.new_state().unwrap().clone();
    let o = apply_event(
        &s,
        &mut ctx,
        &OrderEvent::Fill {
            fill_id: fid("Fsib"),
            qty: 1,
            price_cents: 40,
            ts_ns: 1,
            venue_order_id: Some(vid("V-SIBLING")),
            fee_cents: None,
        },
    );
    assert!(o.is_halt());
    assert!(matches!(
        o,
        TransitionOutcome::Halt {
            reason: HaltReason::FillOwnershipMismatch { .. },
            ..
        }
    ));
    assert_eq!(ctx.attributed_fill_qty, 0);
}

#[test]
fn r3_terminal_late_fill_wrong_venue_halts() {
    let mut ctx = ctx_default();
    let s = to_cancel_pending(&mut ctx);
    let o = cancel_to_terminal_with_authority(&mut ctx, s);
    assert_eq!(o.new_state(), Some(&OrderState::Canceled));
    let o = apply_event(
        &OrderState::Canceled,
        &mut ctx,
        &OrderEvent::Fill {
            fill_id: fid("F-late-bad"),
            qty: 1,
            price_cents: 40,
            ts_ns: 9,
            venue_order_id: Some(vid("V-OTHER")),
            fee_cents: None,
        },
    );
    assert!(o.is_halt());
    assert!(matches!(
        o,
        TransitionOutcome::Halt {
            reason: HaltReason::FillOwnershipMismatch { .. },
            ..
        }
    ));
    assert_eq!(ctx.attributed_fill_qty, 0);
}

#[test]
fn r4_fee_none_then_some_upgrades() {
    let mut ctx = ctx_default();
    let s = prepare_started(&mut ctx);
    let o = apply_event(
        &s,
        &mut ctx,
        &OrderEvent::SubmitResponse {
            venue_order_id: vid("V-fee"),
            fill_count: 0,
            remaining_count: 10,
            avg_price_cents: None,
            fee_cents: None,
            snapshot_boundary: None,
        },
    );
    let s = o.new_state().unwrap().clone();
    let o = apply_event(
        &s,
        &mut ctx,
        &OrderEvent::Fill {
            fill_id: fid("F1"),
            qty: 2,
            price_cents: 45,
            ts_ns: 1,
            venue_order_id: Some(vid("V-fee")),
            fee_cents: None,
        },
    );
    let s = o.new_state().unwrap().clone();
    assert_eq!(ctx.attributed_fill_qty, 2);
    assert_eq!(ctx.attributed_fee_cents, 0);
    let o = apply_event(
        &s,
        &mut ctx,
        &OrderEvent::Fill {
            fill_id: fid("F1"),
            qty: 2,
            price_cents: 45,
            ts_ns: 1,
            venue_order_id: Some(vid("V-fee")),
            fee_cents: Some(5),
        },
    );
    assert!(!o.is_halt(), "fee None→Some must upgrade: {o:?}");
    assert_eq!(ctx.attributed_fill_qty, 2, "must not re-apply qty");
    assert_eq!(ctx.attributed_fee_cents, 5, "fee ledger corrected");
    assert!(o.effects().iter().any(|e| matches!(
        e,
        Effect::AccountFeeCorrection {
            delta_fee_cents: 5,
            ..
        }
    )));
    assert_eq!(
        ctx.applied_fills.get(&fid("F1")).and_then(|p| p.fee),
        Some(5)
    );
}

#[test]
fn r4_fee_some_conflict_halts() {
    let mut ctx = ctx_default();
    let s = prepare_started(&mut ctx);
    let o = apply_event(
        &s,
        &mut ctx,
        &OrderEvent::SubmitResponse {
            venue_order_id: vid("V-fee2"),
            fill_count: 0,
            remaining_count: 10,
            avg_price_cents: None,
            fee_cents: None,
            snapshot_boundary: None,
        },
    );
    let s = o.new_state().unwrap().clone();
    let o = apply_event(
        &s,
        &mut ctx,
        &OrderEvent::Fill {
            fill_id: fid("F1"),
            qty: 1,
            price_cents: 45,
            ts_ns: 1,
            venue_order_id: Some(vid("V-fee2")),
            fee_cents: Some(1),
        },
    );
    let s = o.new_state().unwrap().clone();
    let o = apply_event(
        &s,
        &mut ctx,
        &OrderEvent::Fill {
            fill_id: fid("F1"),
            qty: 1,
            price_cents: 45,
            ts_ns: 1,
            venue_order_id: Some(vid("V-fee2")),
            fee_cents: Some(2),
        },
    );
    assert!(o.is_halt());
    assert!(matches!(
        o,
        TransitionOutcome::Halt {
            reason: HaltReason::ConflictingFillPayload { .. },
            ..
        }
    ));
}

#[test]
fn r4_journal_fill_carries_fee_and_venue() {
    let mut ctx = ctx_default();
    let s = prepare_started(&mut ctx);
    let o = apply_event(
        &s,
        &mut ctx,
        &OrderEvent::SubmitResponse {
            venue_order_id: vid("V-j"),
            fill_count: 0,
            remaining_count: 10,
            avg_price_cents: None,
            fee_cents: None,
            snapshot_boundary: None,
        },
    );
    let s = o.new_state().unwrap().clone();
    let o = apply_event(
        &s,
        &mut ctx,
        &OrderEvent::Fill {
            fill_id: fid("Fj"),
            qty: 3,
            price_cents: 41,
            ts_ns: 7,
            venue_order_id: Some(vid("V-j")),
            fee_cents: Some(2),
        },
    );
    assert!(o.effects().iter().any(|e| matches!(
        e,
        Effect::AppendFsync(JournalRecord::Fill {
            fill_id,
            qty: 3,
            price_cents: 41,
            ts_ns: 7,
            fee_cents: Some(2),
            venue_order_id: Some(v),
        }) if fill_id == &fid("Fj") && v == &vid("V-j")
    )));
}

#[test]
fn r6_cross_check_domain_ignores_post_response_fills() {
    let mut ctx = ctx_default();
    let s = prepare_started(&mut ctx);
    let o = apply_event(
        &s,
        &mut ctx,
        &OrderEvent::SubmitResponse {
            venue_order_id: vid("V-dom"),
            fill_count: 2,
            remaining_count: 8,
            avg_price_cents: Some(45),
            fee_cents: Some(2),
            snapshot_boundary: Some(SnapshotBoundary::TsNs(2)),
        },
    );
    let s = o.new_state().unwrap().clone();
    let o = apply_event(
        &s,
        &mut ctx,
        &OrderEvent::ImmediateFillBackfillResult {
            fills: vec![
                fill_rec_vf("F1", 1, 45, 1, "V-dom", 1),
                fill_rec_vf("F2", 1, 45, 2, "V-dom", 1),
            ],
        },
    );
    let s = o.new_state().unwrap().clone();
    assert!(matches!(s, OrderState::Partial { filled_qty: 2, .. }));
    let o = apply_event(
        &s,
        &mut ctx,
        &OrderEvent::Fill {
            fill_id: fid("F3"),
            qty: 1,
            price_cents: 10,
            ts_ns: 3,
            venue_order_id: Some(vid("V-dom")),
            fee_cents: Some(99),
        },
    );
    let s = o.new_state().unwrap().clone();
    assert!(
        !o.is_halt(),
        "post-response fill must not cross-check-halt: {o:?}"
    );
    let o = apply_event(&s, &mut ctx, &OrderEvent::CancelRequested);
    let s = o.new_state().unwrap().clone();
    let o = apply_event(
        &s,
        &mut ctx,
        &OrderEvent::CancelOutcome(CancelOutcome::Canceled),
    );
    assert!(
        !o.effects()
            .iter()
            .any(|e| matches!(e, Effect::ReleaseReservation))
    );
    let s = o.new_state().unwrap().clone();
    let o = apply_event(
        &s,
        &mut ctx,
        &OrderEvent::ReconcileResult {
            status: BackfillOrderStatus::Canceled,
            venue_order_id: Some(vid("V-dom")),
            filled_qty: 3,
            remaining_qty: 7,
            fills: vec![],
            authority_complete: true,
        },
    );
    assert_eq!(o.new_state(), Some(&OrderState::Canceled), "got {:?}", o);
    assert!(
        o.effects()
            .iter()
            .any(|e| matches!(e, Effect::ReleaseReservation))
    );
    assert!(!o.is_halt());
}

#[test]
fn r6_authority_incomplete_emits_request_authority() {
    let mut ctx = ctx_default();
    let s = to_cancel_pending(&mut ctx);
    let o = apply_event(
        &s,
        &mut ctx,
        &OrderEvent::Fill {
            fill_id: fid("F1"),
            qty: 4,
            price_cents: 45,
            ts_ns: 1,
            venue_order_id: Some(vid("V1")),
            fee_cents: None,
        },
    );
    let s = o.new_state().unwrap().clone();
    let o = apply_event(
        &s,
        &mut ctx,
        &OrderEvent::ReconcileResult {
            status: BackfillOrderStatus::Canceled,
            venue_order_id: Some(vid("V1")),
            filled_qty: 4,
            remaining_qty: 6,
            fills: vec![],
            authority_complete: false,
        },
    );
    assert_ne!(o.new_state(), Some(&OrderState::Canceled));
    assert!(
        !o.effects()
            .iter()
            .any(|e| matches!(e, Effect::ReleaseReservation))
    );
    assert!(
        o.effects()
            .iter()
            .any(|e| matches!(e, Effect::RequestAuthorityReconcile { .. })),
        "effects={:?}",
        o.effects()
    );
}

#[test]
fn r6_client_id_mismatch_durable_halted() {
    let mut ctx = ctx_default();
    let s = prepare_started(&mut ctx);
    let o = apply_event(&s, &mut ctx, &OrderEvent::SubmitTimeout);
    let s = o.new_state().unwrap().clone();
    let o = apply_event(
        &s,
        &mut ctx,
        &OrderEvent::UnknownBackfillResult {
            exhaustive: true,
            matched: vec![BackfillOrderRecord {
                client_order_id: ClientOrderId("OTHER|x|1".into()),
                venue_order_id: vid("V-x"),
                status: BackfillOrderStatus::Open,
                filled_qty: 0,
                remaining_qty: 10,
                fills: vec![],
            }],
        },
    );
    assert!(o.is_halt());
    assert!(
        o.effects()
            .iter()
            .any(|e| matches!(e, Effect::AppendFsync(JournalRecord::Halted { .. })))
    );
    assert!(
        o.effects()
            .iter()
            .any(|e| matches!(e, Effect::HaltNewExposure))
    );
}

#[test]
fn e5_authority_false_keeps_reconcile_pending() {
    let mut ctx = ctx_default();
    let s = prepare_started(&mut ctx);
    let o = apply_event(&s, &mut ctx, &OrderEvent::SubmitTimeout);
    let s = o.new_state().unwrap().clone();
    let coid = ctx.client_order_id.clone();
    let o = apply_event(
        &s,
        &mut ctx,
        &OrderEvent::UnknownBackfillResult {
            exhaustive: true,
            matched: vec![BackfillOrderRecord {
                client_order_id: coid,
                venue_order_id: vid("V-e5b"),
                status: BackfillOrderStatus::Canceled,
                filled_qty: 4,
                remaining_qty: 6,
                fills: vec![fill_rec_v("F1", 2, 45, 1, "V-e5b")],
            }],
        },
    );
    let s = o.new_state().unwrap().clone();
    assert!(matches!(s, OrderState::ReconcilePending { .. }));
    let o = apply_event(
        &s,
        &mut ctx,
        &OrderEvent::ReconcileResult {
            status: BackfillOrderStatus::Canceled,
            venue_order_id: Some(vid("V-e5b")),
            filled_qty: 4,
            remaining_qty: 6,
            fills: vec![],
            authority_complete: false,
        },
    );
    assert_ne!(o.new_state(), Some(&OrderState::Canceled));
    assert!(
        !o.effects()
            .iter()
            .any(|e| matches!(e, Effect::ReleaseReservation))
    );
    assert!(matches!(
        o.new_state(),
        Some(OrderState::ReconcilePending { .. })
    ));
}

#[test]
fn e4_journal_record_rebuild_cross_checks() {
    let base = ctx_default();
    let records = vec![
        JournalRecord::SubmitPrepared {
            client_order_id: base.client_order_id.clone(),
        },
        JournalRecord::SubmitStarted {
            attempt_id: AttemptId("a1".into()),
        },
        JournalRecord::SubmitResponse {
            venue_order_id: vid("V-e4j"),
            fill_count: 3,
            remaining_count: 7,
            avg_price_cents: Some(50),
            fee_cents: Some(9),
            snapshot_boundary: Some(SnapshotBoundary::TsNs(100)),
        },
    ];
    let mut ctx = rebuild_ctx_from_journal(base, &records).expect("rebuild ok");
    assert_eq!(ctx.response_avg_price_cents, Some(50));
    assert_eq!(ctx.response_fee_cents, Some(9));
    assert_eq!(ctx.response_fill_count, Some(3));
    assert_eq!(ctx.venue_order_id, Some(vid("V-e4j")));
    assert_eq!(
        ctx.response_snapshot_boundary,
        Some(SnapshotBoundary::TsNs(100))
    );

    let s = OrderState::ImmediateFillUnattributed {
        venue_order_id: vid("V-e4j"),
        response_fill_count: 3,
        response_remaining_count: 7,
        response_avg_price_cents: Some(50),
        response_fee_cents: Some(9),
    };
    let o = apply_event(
        &s,
        &mut ctx,
        &OrderEvent::ImmediateFillBackfillResult {
            fills: vec![fill_rec_vf("Fe4j", 3, 40, 1, "V-e4j", 9)],
        },
    );
    assert!(o.is_halt());
    assert!(matches!(
        o,
        TransitionOutcome::Halt {
            reason: HaltReason::CrossCheckMismatch { .. },
            ..
        }
    ));
}

#[test]
fn replay_fills_with_fee_and_notional() {
    let ctx0 = ctx_default();
    let events = vec![
        OrderEvent::PrepareSubmit,
        OrderEvent::StartSubmit {
            attempt_id: AttemptId("a1".into()),
        },
        OrderEvent::SubmitResponse {
            venue_order_id: vid("V-rp"),
            fill_count: 4,
            remaining_count: 6,
            avg_price_cents: Some(45),
            fee_cents: Some(4),
            snapshot_boundary: None,
        },
        OrderEvent::ImmediateFillBackfillResult {
            fills: vec![
                fill_rec_vf("F1", 2, 45, 1, "V-rp", 2),
                fill_rec_vf("F2", 2, 45, 2, "V-rp", 2),
            ],
        },
    ];
    let r = replay(OrderState::New, ctx0, &events);
    assert!(matches!(
        r.state,
        OrderState::Partial {
            filled_qty: 4,
            remaining_qty: 6,
            ..
        }
    ));
    assert_eq!(r.ctx.attributed_fill_qty, 4);
    assert_eq!(r.ctx.attributed_fee_cents, 4);
    assert_eq!(r.ctx.attributed_notional_cents, 180);
    assert_eq!(r.ctx.fill_obligation, 4);
    assert_eq!(r.halt, None);
    assert_eq!(r.reject, None);
}

#[test]
fn f1_authority_false_target_fill_no_release() {
    let mut ctx = ctx_default();
    let s = to_cancel_pending(&mut ctx);
    let o = apply_event(
        &s,
        &mut ctx,
        &OrderEvent::ReconcileResult {
            status: BackfillOrderStatus::Canceled,
            venue_order_id: Some(vid("V1")),
            filled_qty: 4,
            remaining_qty: 6,
            fills: vec![],
            authority_complete: false,
        },
    );
    assert!(!ctx.authority_complete);
    assert!(
        !o.effects()
            .iter()
            .any(|e| matches!(e, Effect::ReleaseReservation))
    );
    let s = o.new_state().unwrap().clone();
    assert!(matches!(s, OrderState::ReconcilePending { .. }));
    let o = apply_event(
        &s,
        &mut ctx,
        &OrderEvent::Fill {
            fill_id: fid("F-tgt"),
            qty: 4,
            price_cents: 45,
            ts_ns: 1,
            venue_order_id: Some(vid("V1")),
            fee_cents: None,
        },
    );
    assert_eq!(ctx.attributed_fill_qty, 4);
    assert_eq!(ctx.fill_obligation, 4);
    assert!(!ctx.authority_complete);
    assert_ne!(o.new_state(), Some(&OrderState::Canceled));
    assert!(
        !o.effects()
            .iter()
            .any(|e| matches!(e, Effect::ReleaseReservation))
    );
    assert!(matches!(
        o.new_state(),
        Some(OrderState::ReconcilePending { .. })
    ));
    assert!(
        o.effects()
            .iter()
            .any(|e| matches!(e, Effect::RequestAuthorityReconcile { .. }))
    );
}

#[test]
fn f1_cancel_outcome_never_latches_authority() {
    let mut ctx = ctx_default();
    let s = to_cancel_pending(&mut ctx);
    let o = apply_event(
        &s,
        &mut ctx,
        &OrderEvent::CancelOutcome(CancelOutcome::Canceled),
    );
    assert!(!ctx.authority_complete);
    assert_ne!(o.new_state(), Some(&OrderState::Canceled));
    assert!(
        !o.effects()
            .iter()
            .any(|e| matches!(e, Effect::ReleaseReservation))
    );
}

#[test]
fn f2_none_venue_provenance_upgrade_no_halt() {
    let mut ctx = ctx_default();
    let s = prepare_started(&mut ctx);
    let o = apply_event(
        &s,
        &mut ctx,
        &OrderEvent::Fill {
            fill_id: fid("F1"),
            qty: 2,
            price_cents: 45,
            ts_ns: 1,
            venue_order_id: None,
            fee_cents: None,
        },
    );
    let s = o.new_state().unwrap().clone();
    assert_eq!(ctx.attributed_fill_qty, 2);
    assert!(
        ctx.applied_fills
            .get(&fid("F1"))
            .unwrap()
            .venue_order_id
            .is_none()
    );
    let o = apply_event(
        &s,
        &mut ctx,
        &OrderEvent::SubmitResponse {
            venue_order_id: vid("V-A"),
            fill_count: 2,
            remaining_count: 8,
            avg_price_cents: Some(45),
            fee_cents: None,
            snapshot_boundary: Some(SnapshotBoundary::TsNs(10)),
        },
    );
    assert!(!o.is_halt(), "bind with prior None-venue fill: {o:?}");
    assert_eq!(ctx.venue_order_id, Some(vid("V-A")));
    let s = o.new_state().unwrap().clone();
    let o = apply_event(
        &s,
        &mut ctx,
        &OrderEvent::Fill {
            fill_id: fid("F1"),
            qty: 2,
            price_cents: 45,
            ts_ns: 1,
            venue_order_id: Some(vid("V-A")),
            fee_cents: None,
        },
    );
    assert!(!o.is_halt(), "provenance upgrade must not Halt: {o:?}");
    assert_eq!(ctx.attributed_fill_qty, 2, "no double qty");
    assert_eq!(
        ctx.applied_fills.get(&fid("F1")).unwrap().venue_order_id,
        Some(vid("V-A"))
    );
}

#[test]
fn f2_none_venue_upgrade_wrong_venue_halts() {
    let mut ctx = ctx_default();
    let s = prepare_started(&mut ctx);
    let o = apply_event(
        &s,
        &mut ctx,
        &OrderEvent::Fill {
            fill_id: fid("F1"),
            qty: 2,
            price_cents: 45,
            ts_ns: 1,
            venue_order_id: None,
            fee_cents: None,
        },
    );
    let s = o.new_state().unwrap().clone();
    let o = apply_event(
        &s,
        &mut ctx,
        &OrderEvent::SubmitResponse {
            venue_order_id: vid("V-A"),
            fill_count: 2,
            remaining_count: 8,
            avg_price_cents: Some(45),
            fee_cents: None,
            snapshot_boundary: Some(SnapshotBoundary::TsNs(10)),
        },
    );
    let s = o.new_state().unwrap().clone();
    let o = apply_event(
        &s,
        &mut ctx,
        &OrderEvent::Fill {
            fill_id: fid("F1"),
            qty: 2,
            price_cents: 45,
            ts_ns: 1,
            venue_order_id: Some(vid("V-OTHER")),
            fee_cents: None,
        },
    );
    assert!(o.is_halt());
    assert!(matches!(
        o,
        TransitionOutcome::Halt {
            reason: HaltReason::FillOwnershipMismatch { .. },
            ..
        }
    ));
}

#[test]
fn f3_filled_with_venue_remaining_no_release() {
    let mut ctx = ctx_default();
    let s = prepare_started(&mut ctx);
    let o = apply_event(&s, &mut ctx, &OrderEvent::SubmitTimeout);
    let s = o.new_state().unwrap().clone();
    let coid = ctx.client_order_id.clone();
    let o = apply_event(
        &s,
        &mut ctx,
        &OrderEvent::UnknownBackfillResult {
            exhaustive: true,
            matched: vec![BackfillOrderRecord {
                client_order_id: coid,
                venue_order_id: vid("V-f3"),
                status: BackfillOrderStatus::Filled,
                filled_qty: 10,
                remaining_qty: 1, // contradict Filled
                fills: vec![fill_rec_v("Fall", 10, 45, 1, "V-f3")],
            }],
        },
    );
    assert_ne!(o.new_state(), Some(&OrderState::Filled));
    assert!(
        !o.effects()
            .iter()
            .any(|e| matches!(e, Effect::ReleaseReservation))
    );
    assert!(ctx.authority_complete); // exhaustive latched, but F3 gate blocks
}

#[test]
fn f3_venue_filled_over_qty_halts() {
    let mut ctx = ctx_default();
    let s = prepare_started(&mut ctx);
    let o = apply_event(&s, &mut ctx, &OrderEvent::SubmitTimeout);
    let s = o.new_state().unwrap().clone();
    let coid = ctx.client_order_id.clone();
    let o = apply_event(
        &s,
        &mut ctx,
        &OrderEvent::UnknownBackfillResult {
            exhaustive: true,
            matched: vec![BackfillOrderRecord {
                client_order_id: coid,
                venue_order_id: vid("V-over"),
                status: BackfillOrderStatus::Filled,
                filled_qty: 12, // > qty=10
                remaining_qty: 0,
                fills: vec![],
            }],
        },
    );
    assert!(o.is_halt());
    assert!(matches!(
        o,
        TransitionOutcome::Halt {
            reason: HaltReason::ObligationExceedsOrderQty { .. } | HaltReason::OverFill { .. },
            ..
        }
    ));
    assert!(
        !o.effects()
            .iter()
            .any(|e| matches!(e, Effect::ReleaseReservation))
    );
}

#[test]
fn f4_obligation_exceeds_qty_halts() {
    let base = ctx_default();
    let mut ctx = base.clone();
    let s = to_cancel_pending(&mut ctx);
    let o = apply_event(
        &s,
        &mut ctx,
        &OrderEvent::ReconcileResult {
            status: BackfillOrderStatus::Canceled,
            venue_order_id: Some(vid("V1")),
            filled_qty: 99,
            remaining_qty: 0,
            fills: vec![],
            authority_complete: true,
        },
    );
    assert!(o.is_halt());
    assert!(matches!(
        o,
        TransitionOutcome::Halt {
            reason: HaltReason::ObligationExceedsOrderQty {
                fill_obligation: 99,
                order_qty: 10,
            },
            ..
        }
    ));
    let eff = o.effects();
    assert!(
        eff.iter().any(|e| matches!(
            e,
            Effect::AppendFsync(JournalRecord::ReconcileObserved {
                venue_remaining_qty: 0,
                venue_filled_qty: 99,
                ..
            })
        )),
        "B3/A2: Halt must carry ReconcileObserved: {eff:?}"
    );
    assert_eq!(
        ctx.last_venue_remaining_qty,
        Some(0),
        "B3 memory remaining after note_venue_remaining"
    );

    let mut journals = vec![
        JournalRecord::SubmitPrepared {
            client_order_id: base.client_order_id.clone(),
        },
        JournalRecord::SubmitStarted {
            attempt_id: AttemptId("a1".into()),
        },
        JournalRecord::SubmitResponse {
            venue_order_id: vid("V1"),
            fill_count: 0,
            remaining_count: 10,
            avg_price_cents: None,
            fee_cents: None,
            snapshot_boundary: None,
        },
        JournalRecord::CancelRequested,
    ];
    for e in eff {
        if let Effect::AppendFsync(jr) = e {
            journals.push(jr.clone());
        }
    }
    assert_ctx_fold_equiv(&ctx, &journals);
    assert_eq!(
        ctx.last_venue_remaining_qty,
        Some(0),
        "B3 fold remaining via helper ≡ memory Some(0)"
    );
}

#[test]
fn f5_fee_none_to_some_corrects_ledger() {
    let mut ctx = ctx_default();
    let s = prepare_started(&mut ctx);
    let o = apply_event(
        &s,
        &mut ctx,
        &OrderEvent::SubmitResponse {
            venue_order_id: vid("V-f5"),
            fill_count: 0,
            remaining_count: 10,
            avg_price_cents: None,
            fee_cents: None,
            snapshot_boundary: None,
        },
    );
    let s = o.new_state().unwrap().clone();
    let o = apply_event(
        &s,
        &mut ctx,
        &OrderEvent::Fill {
            fill_id: fid("Ff5"),
            qty: 3,
            price_cents: 40,
            ts_ns: 1,
            venue_order_id: Some(vid("V-f5")),
            fee_cents: None,
        },
    );
    let s = o.new_state().unwrap().clone();
    assert_eq!(ctx.attributed_fee_cents, 0);
    let o = apply_event(
        &s,
        &mut ctx,
        &OrderEvent::Fill {
            fill_id: fid("Ff5"),
            qty: 3,
            price_cents: 40,
            ts_ns: 1,
            venue_order_id: Some(vid("V-f5")),
            fee_cents: Some(7),
        },
    );
    assert!(!o.is_halt());
    assert_eq!(ctx.attributed_fee_cents, 7);
    assert_eq!(ctx.attributed_fill_qty, 3);
}

#[test]
fn f6_response_domain_identity_not_arrival_order() {
    let mut ctx = ctx_default();
    let s = prepare_started(&mut ctx);
    let o = apply_event(
        &s,
        &mut ctx,
        &OrderEvent::SubmitResponse {
            venue_order_id: vid("V-f6"),
            fill_count: 2,
            remaining_count: 8,
            avg_price_cents: Some(45),
            fee_cents: Some(2),
            snapshot_boundary: Some(SnapshotBoundary::TsNs(10)),
        },
    );
    let s = o.new_state().unwrap().clone();
    let o = apply_event(
        &s,
        &mut ctx,
        &OrderEvent::Fill {
            fill_id: fid("F-out"),
            qty: 1,
            price_cents: 10,
            ts_ns: 20,
            venue_order_id: Some(vid("V-f6")),
            fee_cents: Some(99),
        },
    );
    let s = o.new_state().unwrap().clone();
    assert_eq!(
        ctx.response_domain_qty, 0,
        "out-of-domain must not accumulate"
    );
    assert_eq!(ctx.attributed_fill_qty, 1);
    assert!(!o.is_halt());
    let o = apply_event(
        &s,
        &mut ctx,
        &OrderEvent::ImmediateFillBackfillResult {
            fills: vec![
                fill_rec_vf("F1", 1, 45, 5, "V-f6", 1),
                fill_rec_vf("F2", 1, 45, 6, "V-f6", 1),
            ],
        },
    );
    assert_eq!(ctx.response_domain_qty, 2);
    assert_eq!(ctx.response_domain_fee_cents, 2);
    assert_eq!(ctx.response_domain_notional_cents, 90);
    assert_eq!(ctx.attributed_fill_qty, 3);
    let _ = o;
}

#[test]
fn f7_journal_rebuild_matches_event_apply_ctx() {
    let base = ctx_default();
    let events = vec![
        OrderEvent::PrepareSubmit,
        OrderEvent::StartSubmit {
            attempt_id: AttemptId("a1".into()),
        },
        OrderEvent::SubmitResponse {
            venue_order_id: vid("V-j7"),
            fill_count: 4,
            remaining_count: 6,
            avg_price_cents: Some(45),
            fee_cents: Some(4),
            snapshot_boundary: Some(SnapshotBoundary::TsNs(100)),
        },
        OrderEvent::ImmediateFillBackfillResult {
            fills: vec![
                fill_rec_vf("F1", 2, 45, 1, "V-j7", 2),
                fill_rec_vf("F2", 2, 45, 2, "V-j7", 2),
            ],
        },
    ];
    let applied = replay(OrderState::New, base.clone(), &events);
    assert_eq!(applied.halt, None);
    assert_eq!(applied.reject, None);

    let mut journals = Vec::new();
    for e in &applied.effects {
        if let Effect::AppendFsync(jr) = e {
            journals.push(jr.clone());
        }
    }
    assert!(
        journals
            .iter()
            .any(|j| matches!(j, JournalRecord::Fill { .. })),
        "expected Fill journals"
    );
    let rebuilt = rebuild_ctx_from_journal(base, &journals).expect("rebuild ok");
    assert_eq!(rebuilt.venue_order_id, applied.ctx.venue_order_id);
    assert_eq!(rebuilt.attributed_fill_qty, applied.ctx.attributed_fill_qty);
    assert_eq!(rebuilt.fill_obligation, applied.ctx.fill_obligation);
    assert_eq!(
        rebuilt.attributed_fee_cents,
        applied.ctx.attributed_fee_cents
    );
    assert_eq!(
        rebuilt.attributed_notional_cents,
        applied.ctx.attributed_notional_cents
    );
    assert_eq!(rebuilt.applied_fills, applied.ctx.applied_fills);
    assert_eq!(rebuilt.response_fill_count, applied.ctx.response_fill_count);
    assert_eq!(
        rebuilt.response_avg_price_cents,
        applied.ctx.response_avg_price_cents
    );
    assert_eq!(rebuilt.response_fee_cents, applied.ctx.response_fee_cents);
    assert_eq!(
        rebuilt.response_snapshot_boundary,
        applied.ctx.response_snapshot_boundary
    );
    assert_eq!(rebuilt.authority_complete, applied.ctx.authority_complete);
    assert_eq!(rebuilt.authority_epoch, applied.ctx.authority_epoch);
}

#[test]
fn f7_order_terminal_journal_enriched() {
    let mut ctx = ctx_default();
    let s = prepare_started(&mut ctx);
    let o = apply_event(
        &s,
        &mut ctx,
        &OrderEvent::SubmitResponse {
            venue_order_id: vid("V-term"),
            fill_count: 10,
            remaining_count: 0,
            avg_price_cents: Some(45),
            fee_cents: Some(5),
            snapshot_boundary: Some(SnapshotBoundary::TsNs(100)),
        },
    );
    let s = o.new_state().unwrap().clone();
    let o = apply_event(
        &s,
        &mut ctx,
        &OrderEvent::ImmediateFillBackfillResult {
            fills: vec![fill_rec_vf("Fall", 10, 45, 1, "V-term", 5)],
        },
    );
    assert_eq!(o.new_state(), Some(&OrderState::Filled));
    assert!(o.effects().iter().any(|e| matches!(
        e,
        Effect::AppendFsync(JournalRecord::OrderTerminal {
            kind: TerminalKind::Filled,
            venue_order_id: Some(v),
            fill_obligation: 10,
            authority_complete: true,
            attributed_fill_qty: 10,
            attributed_fee_cents: 5,
            ..
        }) if v == &vid("V-term")
    )));
}

#[test]
fn f8_single_release_requires_authority_latch() {
    let mut ctx = ctx_default();
    let s = to_cancel_pending(&mut ctx);
    let o = apply_event(
        &s,
        &mut ctx,
        &OrderEvent::CancelOutcome(CancelOutcome::Canceled),
    );
    assert_eq!(
        o.effects()
            .iter()
            .filter(|e| matches!(e, Effect::ReleaseReservation))
            .count(),
        0
    );
    assert!(!ctx.authority_complete);
    let s = o.new_state().unwrap().clone();
    let o = apply_event(&s, &mut ctx, &authority_reconcile_canceled(0, 10));
    assert!(ctx.authority_complete);
    assert_eq!(
        o.effects()
            .iter()
            .filter(|e| matches!(e, Effect::ReleaseReservation))
            .count(),
        1
    );
    assert_eq!(o.new_state(), Some(&OrderState::Canceled));
}

#[test]
fn g1_cancel_requested_invalidates_live_authority() {
    let mut ctx = ctx_default();
    let s = prepare_started(&mut ctx);
    let o = apply_event(&s, &mut ctx, &OrderEvent::SubmitTimeout);
    let s = o.new_state().unwrap().clone();
    let coid = ctx.client_order_id.clone();
    let o = apply_event(
        &s,
        &mut ctx,
        &OrderEvent::UnknownBackfillResult {
            exhaustive: true,
            matched: vec![BackfillOrderRecord {
                client_order_id: coid,
                venue_order_id: vid("V-g1a"),
                status: BackfillOrderStatus::Open,
                filled_qty: 0,
                remaining_qty: 10,
                fills: vec![],
            }],
        },
    );
    assert_eq!(
        o.new_state(),
        Some(&OrderState::Accepted {
            venue_order_id: vid("V-g1a"),
        })
    );
    assert!(
        ctx.authority_is_fresh(),
        "exhaustive open latches authority"
    );
    let epoch_before = ctx.authority_epoch;
    let s = o.new_state().unwrap().clone();
    let o = apply_event(&s, &mut ctx, &OrderEvent::CancelRequested);
    assert!(matches!(
        o.new_state(),
        Some(OrderState::CancelPending { .. })
    ));
    assert!(
        !ctx.authority_is_fresh(),
        "G1: CancelRequested clears latch"
    );
    assert!(ctx.authority_epoch > epoch_before);
    assert!(o.effects().iter().any(|e| matches!(
        e,
        Effect::AppendFsync(JournalRecord::AuthorityInvalidated { .. })
    )));
    let s = o.new_state().unwrap().clone();
    let o = apply_event(
        &s,
        &mut ctx,
        &OrderEvent::CancelOutcome(CancelOutcome::Canceled),
    );
    assert_ne!(o.new_state(), Some(&OrderState::Canceled));
    assert!(
        !o.effects()
            .iter()
            .any(|e| matches!(e, Effect::ReleaseReservation))
    );
    assert!(
        o.effects()
            .iter()
            .any(|e| matches!(e, Effect::RequestAuthorityReconcile { .. }))
    );
}

#[test]
fn g1_new_fill_and_obligation_raise_clear_authority() {
    let mut ctx = ctx_default();
    let s = prepare_started(&mut ctx);
    let o = apply_event(
        &s,
        &mut ctx,
        &OrderEvent::SubmitResponse {
            venue_order_id: vid("V-g1c"),
            fill_count: 0,
            remaining_count: 10,
            avg_price_cents: None,
            fee_cents: None,
            snapshot_boundary: None,
        },
    );
    let s = o.new_state().unwrap().clone();
    let o = apply_event(
        &s,
        &mut ctx,
        &OrderEvent::Fill {
            fill_id: fid("Fa2"),
            qty: 2,
            price_cents: 45,
            ts_ns: 1,
            venue_order_id: Some(vid("V-g1c")),
            fee_cents: None,
        },
    );
    let s = o.new_state().unwrap().clone();
    let o = apply_event(&s, &mut ctx, &OrderEvent::CancelRequested);
    let s = o.new_state().unwrap().clone();
    let o = apply_event(
        &s,
        &mut ctx,
        &OrderEvent::ReconcileResult {
            status: BackfillOrderStatus::Canceled,
            venue_order_id: Some(vid("V-g1c")),
            filled_qty: 4,
            remaining_qty: 6,
            fills: vec![],
            authority_complete: true,
        },
    );
    assert!(matches!(
        o.new_state(),
        Some(OrderState::ReconcilePending { .. })
    ));
    assert!(
        ctx.authority_is_fresh(),
        "shell latched post-cancel authority"
    );
    assert_eq!(ctx.fill_obligation, 4);
    let s = o.new_state().unwrap().clone();
    let o = apply_event(
        &s,
        &mut ctx,
        &OrderEvent::Fill {
            fill_id: fid("Fb2"),
            qty: 2,
            price_cents: 45,
            ts_ns: 2,
            venue_order_id: Some(vid("V-g1c")),
            fee_cents: None,
        },
    );
    assert_eq!(ctx.attributed_fill_qty, 4);
    assert!(
        !ctx.authority_is_fresh(),
        "G1: new fill_id clears authority"
    );
    assert_ne!(o.new_state(), Some(&OrderState::Canceled));
    assert!(
        !o.effects()
            .iter()
            .any(|e| matches!(e, Effect::ReleaseReservation))
    );
    let s = o.new_state().unwrap().clone();
    let o = apply_event(
        &s,
        &mut ctx,
        &OrderEvent::ReconcileResult {
            status: BackfillOrderStatus::Canceled,
            venue_order_id: Some(vid("V-g1c")),
            filled_qty: 6,
            remaining_qty: 4,
            fills: vec![],
            authority_complete: true,
        },
    );
    assert_eq!(ctx.fill_obligation, 6);
    assert_eq!(ctx.attributed_fill_qty, 4);
    assert!(
        !o.effects()
            .iter()
            .any(|e| matches!(e, Effect::ReleaseReservation))
    );
    assert!(matches!(
        o.new_state(),
        Some(OrderState::ReconcilePending { .. })
    ));
}

#[test]
fn g2_none_provenance_blocks_release() {
    let mut ctx = ctx_default();
    let s = prepare_started(&mut ctx);
    let o = apply_event(
        &s,
        &mut ctx,
        &OrderEvent::Fill {
            fill_id: fid("Fn"),
            qty: 10,
            price_cents: 45,
            ts_ns: 1,
            venue_order_id: None,
            fee_cents: Some(1),
        },
    );
    let s = o.new_state().unwrap().clone();
    assert_eq!(ctx.attributed_fill_qty, 10);
    assert!(
        ctx.applied_fills
            .get(&fid("Fn"))
            .unwrap()
            .venue_order_id
            .is_none()
    );
    let o = apply_event(
        &s,
        &mut ctx,
        &OrderEvent::SubmitResponse {
            venue_order_id: vid("V-g2"),
            fill_count: 10,
            remaining_count: 0,
            avg_price_cents: Some(45),
            fee_cents: Some(1),
            snapshot_boundary: Some(SnapshotBoundary::TsNs(100)),
        },
    );
    assert_ne!(o.new_state(), Some(&OrderState::Filled));
    assert!(
        !o.effects()
            .iter()
            .any(|e| matches!(e, Effect::ReleaseReservation))
    );
    if let Some(st) = o.new_state() {
        assert!(
            matches!(
                st,
                OrderState::ReconcilePending { .. }
                    | OrderState::ImmediateFillUnattributed { .. }
                    | OrderState::Partial { .. }
                    | OrderState::Accepted { .. }
            ),
            "unexpected state: {st:?}"
        );
    }
    let _ = o;
}

#[test]
fn g3_venue_remaining_persisted_blocks_enrichment_release() {
    let mut ctx = ctx_default();
    let s = prepare_started(&mut ctx);
    let o = apply_event(&s, &mut ctx, &OrderEvent::SubmitTimeout);
    let s = o.new_state().unwrap().clone();
    let coid = ctx.client_order_id.clone();
    let o = apply_event(
        &s,
        &mut ctx,
        &OrderEvent::UnknownBackfillResult {
            exhaustive: true,
            matched: vec![BackfillOrderRecord {
                client_order_id: coid,
                venue_order_id: vid("V-g3"),
                status: BackfillOrderStatus::Filled,
                filled_qty: 10,
                remaining_qty: 1,
                fills: vec![fill_rec_v("Fg3", 10, 45, 1, "V-g3")],
            }],
        },
    );
    assert_ne!(o.new_state(), Some(&OrderState::Filled));
    assert!(
        !o.effects()
            .iter()
            .any(|e| matches!(e, Effect::ReleaseReservation))
    );
    let s = o.new_state().unwrap().clone();
    assert!(matches!(
        s,
        OrderState::ReconcilePending {
            target: ReconcileTarget {
                venue_remaining_qty: Some(1),
                ..
            },
            ..
        }
    ));
    let o = apply_event(
        &s,
        &mut ctx,
        &OrderEvent::Fill {
            fill_id: fid("Fg3"),
            qty: 10,
            price_cents: 45,
            ts_ns: 1,
            venue_order_id: Some(vid("V-g3")),
            fee_cents: Some(3),
        },
    );
    assert!(!o.is_halt(), "G5: enrichment not Halt: {o:?}");
    assert_ne!(o.new_state(), Some(&OrderState::Filled));
    assert!(
        !o.effects()
            .iter()
            .any(|e| matches!(e, Effect::ReleaseReservation))
    );
    assert_eq!(ctx.attributed_fee_cents, 3);
    if let Some(OrderState::ReconcilePending { target, .. }) = o.new_state() {
        assert_eq!(target.venue_remaining_qty, Some(1));
    }
}

#[test]
fn g4_journal_fold_equiv_nonterminal_reconcile_and_terminal() {
    let base = ctx_default();
    let events = vec![
        OrderEvent::PrepareSubmit,
        OrderEvent::StartSubmit {
            attempt_id: AttemptId("a1".into()),
        },
        OrderEvent::SubmitTimeout,
        OrderEvent::UnknownBackfillResult {
            exhaustive: true,
            matched: vec![BackfillOrderRecord {
                client_order_id: base.client_order_id.clone(),
                venue_order_id: vid("V-g4"),
                status: BackfillOrderStatus::Canceled,
                filled_qty: 0,
                remaining_qty: 10,
                fills: vec![],
            }],
        },
    ];
    let applied = replay(OrderState::New, base.clone(), &events);
    assert_eq!(applied.halt, None);
    assert_eq!(applied.state, OrderState::Canceled);
    let mut journals = Vec::new();
    for e in &applied.effects {
        if let Effect::AppendFsync(jr) = e {
            journals.push(jr.clone());
        }
    }
    assert!(
        journals
            .iter()
            .any(|j| matches!(j, JournalRecord::VenueBound { .. }))
            || journals
                .iter()
                .any(|j| matches!(j, JournalRecord::ReconcileObserved { .. })),
        "expected venue/reconcile journals: {journals:?}"
    );
    assert!(journals.iter().any(|j| matches!(
        j,
        JournalRecord::OrderTerminal {
            attributed_fill_qty: 0,
            ..
        }
    )));
    let rebuilt = rebuild_ctx_from_journal(base, &journals).expect("rebuild");
    assert_eq!(rebuilt.venue_order_id, applied.ctx.venue_order_id);
    assert_eq!(rebuilt.fill_obligation, applied.ctx.fill_obligation);
    assert_eq!(
        rebuilt.authority_is_fresh(),
        applied.ctx.authority_is_fresh()
    );
    assert_eq!(rebuilt.attributed_fill_qty, applied.ctx.attributed_fill_qty);
    assert_eq!(
        rebuilt.attributed_fee_cents,
        applied.ctx.attributed_fee_cents
    );
    assert_eq!(rebuilt.authority_epoch, applied.ctx.authority_epoch);
}

#[test]
fn g5_frozen_enrichment_no_halt_vs_new_fill_halt() {
    let mut ctx = ctx_default();
    let s = prepare_started(&mut ctx);
    let o = apply_event(
        &s,
        &mut ctx,
        &OrderEvent::SubmitResponse {
            venue_order_id: vid("V-g5b"),
            fill_count: 0,
            remaining_count: 10,
            avg_price_cents: None,
            fee_cents: None,
            snapshot_boundary: None,
        },
    );
    let s = o.new_state().unwrap().clone();
    let o = apply_event(
        &s,
        &mut ctx,
        &OrderEvent::Fill {
            fill_id: fid("Fe"),
            qty: 10,
            price_cents: 45,
            ts_ns: 1,
            venue_order_id: Some(vid("V-g5b")),
            fee_cents: None,
        },
    );
    assert_eq!(o.new_state(), Some(&OrderState::Filled));
    let s = OrderState::Filled;
    let o = apply_event(
        &s,
        &mut ctx,
        &OrderEvent::Fill {
            fill_id: fid("Fe"),
            qty: 10,
            price_cents: 45,
            ts_ns: 1,
            venue_order_id: Some(vid("V-g5b")),
            fee_cents: Some(7),
        },
    );
    assert!(!o.is_halt(), "G5 enrichment must not Halt: {o:?}");
    assert_eq!(o.new_state(), Some(&OrderState::Filled));
    assert!(!o.effects().iter().any(|e| matches!(e, Effect::ReserveFull)));
    assert_eq!(ctx.attributed_fee_cents, 7);
    let o = apply_event(
        &s,
        &mut ctx,
        &OrderEvent::Fill {
            fill_id: fid("F-late"),
            qty: 1,
            price_cents: 45,
            ts_ns: 2,
            venue_order_id: Some(vid("V-g5b")),
            fee_cents: None,
        },
    );
    assert!(o.is_halt());
    assert!(o.effects().iter().any(|e| matches!(e, Effect::ReserveFull)));
}

#[test]
fn g6_b2_domain_qty_not_global_attributed() {
    let mut ctx = ctx_default();
    let s = prepare_started(&mut ctx);
    let o = apply_event(
        &s,
        &mut ctx,
        &OrderEvent::SubmitResponse {
            venue_order_id: vid("V-g6"),
            fill_count: 2,
            remaining_count: 8,
            avg_price_cents: Some(45),
            fee_cents: Some(2),
            snapshot_boundary: Some(SnapshotBoundary::TsNs(10)),
        },
    );
    let s = o.new_state().unwrap().clone();
    let o = apply_event(
        &s,
        &mut ctx,
        &OrderEvent::Fill {
            fill_id: fid("F-out"),
            qty: 1,
            price_cents: 10,
            ts_ns: 20,
            venue_order_id: Some(vid("V-g6")),
            fee_cents: Some(99),
        },
    );
    let s = o.new_state().unwrap().clone();
    assert_eq!(ctx.attributed_fill_qty, 1);
    assert_eq!(ctx.response_domain_qty, 0);
    let o = apply_event(
        &s,
        &mut ctx,
        &OrderEvent::ImmediateFillBackfillResult {
            fills: vec![
                fill_rec_vf("F1", 1, 45, 5, "V-g6", 1),
                fill_rec_vf("F2", 1, 45, 6, "V-g6", 1),
            ],
        },
    );
    assert_eq!(ctx.response_domain_qty, 2);
    assert_eq!(ctx.attributed_fill_qty, 3);
    assert!(
        !matches!(
            o,
            TransitionOutcome::Halt {
                reason: HaltReason::ImmediateFillCrossCheckMismatch { .. },
                ..
            }
        ),
        "G6 false Halt: {o:?}"
    );
    assert!(matches!(
        o.new_state(),
        Some(OrderState::Partial {
            filled_qty: 3,
            remaining_qty: 7,
            ..
        })
    ));
}

#[test]
fn h1_domain_unclosed_blocks_release_despite_global_obligation() {
    let mut ctx = ctx_default();
    let s = prepare_started(&mut ctx);
    let o = apply_event(
        &s,
        &mut ctx,
        &OrderEvent::SubmitResponse {
            venue_order_id: vid("V-h1"),
            fill_count: 2,
            remaining_count: 8,
            avg_price_cents: Some(45),
            fee_cents: Some(2),
            snapshot_boundary: Some(SnapshotBoundary::TsNs(10)),
        },
    );
    let s = o.new_state().unwrap().clone();
    let o = apply_event(
        &s,
        &mut ctx,
        &OrderEvent::Fill {
            fill_id: fid("F-out"),
            qty: 2,
            price_cents: 45,
            ts_ns: 20,
            venue_order_id: Some(vid("V-h1")),
            fee_cents: Some(2),
        },
    );
    let s = o.new_state().unwrap().clone();
    assert_eq!(ctx.attributed_fill_qty, 2);
    assert_eq!(ctx.fill_obligation, 2);
    assert_eq!(ctx.response_domain_qty, 0, "H1 setup: domain unclosed");
    let o = apply_event(&s, &mut ctx, &OrderEvent::CancelRequested);
    let s = o.new_state().unwrap().clone();
    let o = apply_event(
        &s,
        &mut ctx,
        &OrderEvent::CancelOutcome(CancelOutcome::Canceled),
    );
    let s = o.new_state().unwrap().clone();
    let o = apply_event(
        &s,
        &mut ctx,
        &OrderEvent::ReconcileResult {
            status: BackfillOrderStatus::Canceled,
            venue_order_id: Some(vid("V-h1")),
            filled_qty: 2,
            remaining_qty: 8,
            fills: vec![],
            authority_complete: true,
        },
    );
    assert!(
        !o.effects()
            .iter()
            .any(|e| matches!(e, Effect::ReleaseReservation)),
        "H1: must not release with unclosed domain: {o:?}"
    );
    assert_ne!(o.new_state(), Some(&OrderState::Canceled));
    assert!(
        o.effects()
            .iter()
            .any(|e| matches!(e, Effect::BackfillFills { .. }))
            || o.effects()
                .iter()
                .any(|e| matches!(e, Effect::RequestAuthorityReconcile { .. })),
        "H1: not_ready should drive backfill/authority: {o:?}"
    );
    assert!(matches!(
        o.new_state(),
        Some(OrderState::ReconcilePending { .. })
    ));
}

#[test]
fn m1_domain_overfill_halts_no_truncate() {
    let base = ctx_default();
    let mut ctx = base.clone();
    let s = prepare_started(&mut ctx);
    let o = apply_event(
        &s,
        &mut ctx,
        &OrderEvent::SubmitResponse {
            venue_order_id: vid("V-m1"),
            fill_count: 2,
            remaining_count: 8,
            avg_price_cents: Some(45),
            fee_cents: Some(2),
            snapshot_boundary: Some(SnapshotBoundary::TsNs(100)),
        },
    );
    let mut journals: Vec<JournalRecord> = vec![
        JournalRecord::SubmitPrepared {
            client_order_id: base.client_order_id.clone(),
        },
        JournalRecord::SubmitStarted {
            attempt_id: AttemptId("a1".into()),
        },
    ];
    for e in o.effects() {
        if let Effect::AppendFsync(jr) = e {
            journals.push(jr.clone());
        }
    }
    let s = o.new_state().unwrap().clone();
    let o = apply_event(
        &s,
        &mut ctx,
        &OrderEvent::Fill {
            fill_id: fid("F-over"),
            qty: 3,
            price_cents: 45,
            ts_ns: 1,
            venue_order_id: Some(vid("V-m1")),
            fee_cents: Some(3),
        },
    );
    assert!(o.is_halt(), "M1: domain overfill must Halt: {o:?}");
    assert!(matches!(
        o,
        TransitionOutcome::Halt {
            reason: HaltReason::CrossCheckMismatch { .. },
            ..
        }
    ));
    assert_eq!(ctx.response_domain_qty, 3);
    assert_eq!(ctx.attributed_fill_qty, 3);
    assert_eq!(ctx.fill_obligation, 3);

    let eff = o.effects();
    assert!(
        eff.iter().any(|e| matches!(
            e,
            Effect::AppendFsync(JournalRecord::Fill {
                fill_id,
                qty: 3,
                ..
            }) if fill_id == &fid("F-over")
        )),
        "A1: Halt must carry JournalRecord::Fill: {eff:?}"
    );
    assert!(
        eff.iter().any(|e| matches!(
            e,
            Effect::AccountFill {
                fill_id,
                qty: 3,
                ..
            } if fill_id == &fid("F-over")
        )),
        "A1: Halt must carry AccountFill: {eff:?}"
    );
    assert!(
        eff.iter().any(|e| matches!(
            e,
            Effect::AppendFsync(JournalRecord::AuthorityInvalidated { .. })
        )),
        "A1: Halt must carry AuthorityInvalidated: {eff:?}"
    );
    assert!(
        eff.iter().any(|e| matches!(
            e,
            Effect::AppendFsync(JournalRecord::ObligationRaised {
                fill_obligation: 3,
                ..
            })
        )),
        "A1: Halt must carry ObligationRaised: {eff:?}"
    );

    for e in eff {
        if let Effect::AppendFsync(jr) = e {
            journals.push(jr.clone());
        }
    }
    assert_ctx_fold_equiv(&ctx, &journals);
}

#[test]
fn a1_domain_overfill_halt_carries_fill_records_fold_equiv() {
    let base = ctx_default();
    let mut ctx = base.clone();
    let s = prepare_started(&mut ctx);
    let o = apply_event(
        &s,
        &mut ctx,
        &OrderEvent::SubmitResponse {
            venue_order_id: vid("V-a1"),
            fill_count: 2,
            remaining_count: 8,
            avg_price_cents: Some(45),
            fee_cents: Some(2),
            snapshot_boundary: Some(SnapshotBoundary::TsNs(100)),
        },
    );
    let mut journals: Vec<JournalRecord> = vec![
        JournalRecord::SubmitPrepared {
            client_order_id: base.client_order_id.clone(),
        },
        JournalRecord::SubmitStarted {
            attempt_id: AttemptId("a1".into()),
        },
    ];
    for e in o.effects() {
        if let Effect::AppendFsync(jr) = e {
            journals.push(jr.clone());
        }
    }
    let s = o.new_state().unwrap().clone();
    let o = apply_event(
        &s,
        &mut ctx,
        &OrderEvent::Fill {
            fill_id: fid("F-a1"),
            qty: 3,
            price_cents: 45,
            ts_ns: 50,
            venue_order_id: Some(vid("V-a1")),
            fee_cents: Some(3),
        },
    );
    assert!(o.is_halt());
    assert!(matches!(
        o,
        TransitionOutcome::Halt {
            reason: HaltReason::CrossCheckMismatch { .. },
            ..
        }
    ));
    let eff = o.effects();
    assert!(
        eff.iter()
            .any(|e| matches!(e, Effect::AppendFsync(JournalRecord::Fill { .. })))
    );
    assert!(eff.iter().any(|e| matches!(e, Effect::AccountFill { .. })));
    assert!(eff.iter().any(|e| {
        matches!(
            e,
            Effect::AppendFsync(JournalRecord::AuthorityInvalidated { .. })
        )
    }));
    assert!(eff.iter().any(|e| {
        matches!(
            e,
            Effect::AppendFsync(JournalRecord::ObligationRaised { .. })
        )
    }));
    for e in eff {
        if let Effect::AppendFsync(jr) = e {
            journals.push(jr.clone());
        }
    }
    assert_ctx_fold_equiv(&ctx, &journals);
}

#[test]
fn l1_seq_boundary_degrades_to_obligation_only() {
    let mut ctx = ctx_default();
    let s = prepare_started(&mut ctx);
    let o = apply_event(
        &s,
        &mut ctx,
        &OrderEvent::SubmitResponse {
            venue_order_id: vid("V-l1"),
            fill_count: 10,
            remaining_count: 0,
            avg_price_cents: Some(45),
            fee_cents: Some(5),
            snapshot_boundary: Some(SnapshotBoundary::Sequence(99)),
        },
    );
    let s = o.new_state().unwrap().clone();
    assert!(
        !has_reliable_boundary(&ctx),
        "L1: Seq must not claim reliable boundary"
    );
    let o = apply_event(
        &s,
        &mut ctx,
        &OrderEvent::ImmediateFillBackfillResult {
            fills: vec![fill_rec_vf("Fall", 10, 45, 1, "V-l1", 5)],
        },
    );
    assert_eq!(
        o.new_state(),
        Some(&OrderState::Filled),
        "L1: obligation-only full fill should terminal: {o:?}"
    );
    assert!(
        o.effects()
            .iter()
            .any(|e| matches!(e, Effect::ReleaseReservation))
    );
    assert_eq!(ctx.response_domain_qty, 0, "Seq domain must not accumulate");
    assert!(!o.is_halt());
}

#[test]
fn m2_zero_fill_then_full_live_fill_epoch_fold_equiv() {
    let base = ctx_default();
    let mut ctx = base.clone();
    let s = prepare_started(&mut ctx);
    let o = apply_event(
        &s,
        &mut ctx,
        &OrderEvent::SubmitResponse {
            venue_order_id: vid("V-m2"),
            fill_count: 0,
            remaining_count: 10,
            avg_price_cents: None,
            fee_cents: None,
            snapshot_boundary: None,
        },
    );
    let s = o.new_state().unwrap().clone();
    assert_eq!(ctx.fill_obligation, 0);
    assert_eq!(ctx.authority_epoch, 0);
    let o = apply_event(
        &s,
        &mut ctx,
        &OrderEvent::Fill {
            fill_id: fid("F-m2"),
            qty: 10,
            price_cents: 45,
            ts_ns: 1,
            venue_order_id: Some(vid("V-m2")),
            fee_cents: Some(1),
        },
    );
    assert_eq!(o.new_state(), Some(&OrderState::Filled));
    assert_eq!(ctx.authority_epoch, 1);
    assert_eq!(ctx.authority_latched_epoch, 1);
    assert!(ctx.authority_is_fresh());

    let mut journals = vec![
        JournalRecord::SubmitPrepared {
            client_order_id: base.client_order_id.clone(),
        },
        JournalRecord::SubmitStarted {
            attempt_id: AttemptId("a1".into()),
        },
    ];
    let applied = replay(
        OrderState::New,
        base.clone(),
        &[
            OrderEvent::PrepareSubmit,
            OrderEvent::StartSubmit {
                attempt_id: AttemptId("a1".into()),
            },
            OrderEvent::SubmitResponse {
                venue_order_id: vid("V-m2"),
                fill_count: 0,
                remaining_count: 10,
                avg_price_cents: None,
                fee_cents: None,
                snapshot_boundary: None,
            },
            OrderEvent::Fill {
                fill_id: fid("F-m2"),
                qty: 10,
                price_cents: 45,
                ts_ns: 1,
                venue_order_id: Some(vid("V-m2")),
                fee_cents: Some(1),
            },
        ],
    );
    assert_eq!(applied.halt, None);
    assert_eq!(applied.state, OrderState::Filled);
    journals.clear();
    for e in &applied.effects {
        if let Effect::AppendFsync(jr) = e {
            journals.push(jr.clone());
        }
    }
    assert!(
        journals.iter().any(|j| matches!(
            j,
            JournalRecord::ObligationRaised {
                fill_obligation: 10,
                ..
            }
        )),
        "M2: fill must emit ObligationRaised: {journals:?}"
    );
    assert!(
        journals
            .iter()
            .any(|j| matches!(j, JournalRecord::AuthorityInvalidated { epoch: 1 })),
        "M2: fill must emit AuthorityInvalidated for fold restore: {journals:?}"
    );

    let rebuilt = rebuild_ctx_from_journal(base, &journals).expect("fold ok");
    assert_eq!(
        rebuilt.authority_epoch, applied.ctx.authority_epoch,
        "M2 epoch memory vs fold"
    );
    assert_eq!(
        rebuilt.authority_latched_epoch, applied.ctx.authority_latched_epoch,
        "M2 latched_epoch memory vs fold"
    );
    assert_eq!(rebuilt.authority_complete, applied.ctx.authority_complete);
    assert_eq!(rebuilt.fill_obligation, applied.ctx.fill_obligation);
    assert_eq!(rebuilt.attributed_fill_qty, applied.ctx.attributed_fill_qty);
    assert_eq!(
        rebuilt.authority_is_fresh(),
        applied.ctx.authority_is_fresh(),
        "M2 authority_is_fresh must match after fold"
    );
}

#[test]
fn l2_halt_path_venue_remaining_fold_equiv() {
    let base = ctx_default();
    let mut ctx = base.clone();
    let s = prepare_started(&mut ctx);
    let o = apply_event(&s, &mut ctx, &OrderEvent::SubmitTimeout);
    let s = o.new_state().unwrap().clone();
    let coid = ctx.client_order_id.clone();
    let o = apply_event(
        &s,
        &mut ctx,
        &OrderEvent::UnknownBackfillResult {
            exhaustive: true,
            matched: vec![BackfillOrderRecord {
                client_order_id: coid,
                venue_order_id: vid("V-l2"),
                status: BackfillOrderStatus::Open,
                filled_qty: 4,
                remaining_qty: 6,
                fills: vec![FillRecord {
                    fill_id: fid("F-nov"),
                    qty: 4,
                    price_cents: 45,
                    ts_ns: 1,
                    venue_order_id: None, // missing provenance → Halt
                    fee_cents: None,
                }],
            }],
        },
    );
    assert!(o.is_halt(), "L2 setup must Halt on missing venue: {o:?}");
    assert_eq!(
        ctx.last_venue_remaining_qty,
        Some(6),
        "L2 memory must have remaining before Halt"
    );

    let mut journals = Vec::new();
    for e in o.effects() {
        if let Effect::AppendFsync(jr) = e {
            journals.push(jr.clone());
        }
    }
    let mut full = vec![
        JournalRecord::SubmitPrepared {
            client_order_id: base.client_order_id.clone(),
        },
        JournalRecord::SubmitStarted {
            attempt_id: AttemptId("a1".into()),
        },
        JournalRecord::SubmitUnknown,
    ];
    full.extend(journals);
    assert!(
        full.iter().any(|j| matches!(
            j,
            JournalRecord::ReconcileObserved {
                venue_remaining_qty: 6,
                ..
            }
        )),
        "L2: ReconcileObserved must precede Halt-prone fills: {full:?}"
    );

    let rebuilt = rebuild_ctx_from_journal(base, &full).expect("fold ok");
    assert_eq!(
        rebuilt.last_venue_remaining_qty,
        Some(6),
        "L2 fold remaining must equal memory Some(6)"
    );
    assert_eq!(
        rebuilt.last_venue_remaining_qty,
        ctx.last_venue_remaining_qty
    );
    assert_eq!(rebuilt.venue_order_id, ctx.venue_order_id);
    assert_eq!(rebuilt.fill_obligation, ctx.fill_obligation);
    assert_eq!(rebuilt.authority_epoch, ctx.authority_epoch);
}

#[test]
fn a2_obligation_exceed_halt_carries_reconcile_observed_fold_equiv() {
    let base = ctx_default();
    let mut ctx = base.clone();
    let s = prepare_started(&mut ctx);
    let o = apply_event(&s, &mut ctx, &OrderEvent::SubmitTimeout);
    let s = o.new_state().unwrap().clone();
    let coid = ctx.client_order_id.clone();
    let o = apply_event(
        &s,
        &mut ctx,
        &OrderEvent::UnknownBackfillResult {
            exhaustive: true,
            matched: vec![BackfillOrderRecord {
                client_order_id: coid,
                venue_order_id: vid("V-a2"),
                status: BackfillOrderStatus::Filled,
                filled_qty: 12, // > qty=10
                remaining_qty: 0,
                fills: vec![],
            }],
        },
    );
    assert!(o.is_halt(), "A2: obligation exceed must Halt: {o:?}");
    assert!(matches!(
        o,
        TransitionOutcome::Halt {
            reason: HaltReason::ObligationExceedsOrderQty { .. },
            ..
        }
    ));
    assert_eq!(
        ctx.last_venue_remaining_qty,
        Some(0),
        "A2 memory remaining after note_venue_remaining"
    );

    let mut journals = Vec::new();
    for e in o.effects() {
        if let Effect::AppendFsync(jr) = e {
            journals.push(jr.clone());
        }
    }
    assert!(
        journals.iter().any(|j| matches!(
            j,
            JournalRecord::ReconcileObserved {
                venue_remaining_qty: 0,
                venue_filled_qty: 12,
                ..
            }
        )),
        "A2: Halt effects must include ReconcileObserved: {journals:?}"
    );

    let mut full = vec![
        JournalRecord::SubmitPrepared {
            client_order_id: base.client_order_id.clone(),
        },
        JournalRecord::SubmitStarted {
            attempt_id: AttemptId("a1".into()),
        },
        JournalRecord::SubmitUnknown,
    ];
    full.extend(journals);
    assert_ctx_fold_equiv(&ctx, &full);
    assert_eq!(
        ctx.last_venue_remaining_qty,
        Some(0),
        "A2 fold-equiv remaining still Some(0)"
    );
}

#[test]
fn g2_provenance_upgrade_eventually_releases() {
    let mut ctx = ctx_default();
    let s = prepare_started(&mut ctx);
    let o = apply_event(
        &s,
        &mut ctx,
        &OrderEvent::Fill {
            fill_id: fid("Fn2"),
            qty: 10,
            price_cents: 45,
            ts_ns: 1,
            venue_order_id: None,
            fee_cents: Some(1),
        },
    );
    let s = o.new_state().unwrap().clone();
    let o = apply_event(
        &s,
        &mut ctx,
        &OrderEvent::SubmitResponse {
            venue_order_id: vid("V-g2b"),
            fill_count: 10,
            remaining_count: 0,
            avg_price_cents: Some(45),
            fee_cents: Some(1),
            snapshot_boundary: None,
        },
    );
    assert!(
        !o.effects()
            .iter()
            .any(|e| matches!(e, Effect::ReleaseReservation))
    );
    let s = o.new_state().unwrap().clone();
    let o = apply_event(
        &s,
        &mut ctx,
        &OrderEvent::Fill {
            fill_id: fid("Fn2"),
            qty: 10,
            price_cents: 45,
            ts_ns: 1,
            venue_order_id: Some(vid("V-g2b")),
            fee_cents: Some(1),
        },
    );
    assert!(!o.is_halt(), "G2 upgrade must not Halt: {o:?}");
    assert_eq!(
        ctx.applied_fills
            .get(&fid("Fn2"))
            .and_then(|p| p.venue_order_id.clone()),
        Some(vid("V-g2b"))
    );
    if o.effects()
        .iter()
        .any(|e| matches!(e, Effect::ReleaseReservation))
    {
        assert_eq!(o.new_state(), Some(&OrderState::Filled));
        return;
    }
    let s = o.new_state().unwrap().clone();
    let o = apply_event(
        &s,
        &mut ctx,
        &OrderEvent::ReconcileResult {
            status: BackfillOrderStatus::Filled,
            venue_order_id: Some(vid("V-g2b")),
            filled_qty: 10,
            remaining_qty: 0,
            fills: vec![],
            authority_complete: true,
        },
    );
    assert!(
        o.effects()
            .iter()
            .any(|e| matches!(e, Effect::ReleaseReservation)),
        "G2: after provenance upgrade must eventually release: {o:?}"
    );
    assert_eq!(o.new_state(), Some(&OrderState::Filled));
}

#[test]
fn g5_new_qty_fill_on_partial_terminal_post_terminal_halt() {
    let mut ctx = ctx_default();
    let s = prepare_started(&mut ctx);
    let o = apply_event(
        &s,
        &mut ctx,
        &OrderEvent::SubmitResponse {
            venue_order_id: vid("V-g5c"),
            fill_count: 0,
            remaining_count: 10,
            avg_price_cents: None,
            fee_cents: None,
            snapshot_boundary: None,
        },
    );
    let s = o.new_state().unwrap().clone();
    let o = apply_event(
        &s,
        &mut ctx,
        &OrderEvent::Fill {
            fill_id: fid("F-part"),
            qty: 4,
            price_cents: 45,
            ts_ns: 1,
            venue_order_id: Some(vid("V-g5c")),
            fee_cents: None,
        },
    );
    let s = o.new_state().unwrap().clone();
    assert_eq!(ctx.attributed_fill_qty, 4);
    let o = apply_event(&s, &mut ctx, &OrderEvent::CancelRequested);
    let s = o.new_state().unwrap().clone();
    let o = apply_event(
        &s,
        &mut ctx,
        &OrderEvent::CancelOutcome(CancelOutcome::Canceled),
    );
    let s = o.new_state().unwrap().clone();
    let o = apply_event(
        &s,
        &mut ctx,
        &OrderEvent::ReconcileResult {
            status: BackfillOrderStatus::Canceled,
            venue_order_id: Some(vid("V-g5c")),
            filled_qty: 4,
            remaining_qty: 6,
            fills: vec![],
            authority_complete: true,
        },
    );
    assert_eq!(o.new_state(), Some(&OrderState::Canceled));
    assert!(
        o.effects()
            .iter()
            .any(|e| matches!(e, Effect::ReleaseReservation))
    );
    let s = OrderState::Canceled;
    let o = apply_event(
        &s,
        &mut ctx,
        &OrderEvent::Fill {
            fill_id: fid("F-late-new"),
            qty: 1,
            price_cents: 45,
            ts_ns: 2,
            venue_order_id: Some(vid("V-g5c")),
            fee_cents: None,
        },
    );
    assert!(o.is_halt());
    assert!(
        matches!(
            o,
            TransitionOutcome::Halt {
                reason: HaltReason::PostTerminalFill,
                ..
            }
        ),
        "G5: true new qty must be PostTerminalFill not OverFill: {o:?}"
    );
    assert!(o.effects().iter().any(|e| matches!(e, Effect::ReserveFull)));
    assert_eq!(
        ctx.attributed_fill_qty, 5,
        "late fill was applied before Halt"
    );
}

#[test]
fn a1_ioc_full_miss_zero_zero_is_canceled_release() {
    let mut ctx = ctx_default();
    let s = prepare_started(&mut ctx);
    let o = apply_event(
        &s,
        &mut ctx,
        &OrderEvent::SubmitResponse {
            venue_order_id: vid("V1"),
            fill_count: 0,
            remaining_count: 0,
            avg_price_cents: None,
            fee_cents: None,
            snapshot_boundary: None,
        },
    );
    assert_eq!(
        o.new_state(),
        Some(&OrderState::Canceled),
        "IOC 全 miss 必须落 Canceled 终态(修前 Halt 杀 loop): {o:?}"
    );
    assert!(
        o.effects()
            .iter()
            .any(|e| matches!(e, Effect::ReleaseReservation)),
        "零成交终局必须放资金"
    );
}

#[test]
fn a5_ws_fill_before_zero_fill_response_is_partial_not_halt() {
    let mut ctx = ctx_default();
    let s = prepare_started(&mut ctx);
    let o = apply_event(
        &s,
        &mut ctx,
        &OrderEvent::Fill {
            fill_id: fid("F1"),
            qty: 4,
            price_cents: 45,
            ts_ns: 1,
            venue_order_id: Some(vid("V1")),
            fee_cents: None,
        },
    );
    let s = o.new_state().unwrap().clone();
    let o = apply_event(
        &s,
        &mut ctx,
        &OrderEvent::SubmitResponse {
            venue_order_id: vid("V1"),
            fill_count: 0,
            remaining_count: 10,
            avg_price_cents: None,
            fee_cents: None,
            snapshot_boundary: None,
        },
    );
    assert!(
        matches!(
            o.new_state(),
            Some(OrderState::Partial { filled_qty: 4, remaining_qty: 6, .. })
        ),
        "抢跑 fill + 全量驻留 response = Partial 非矛盾: {o:?}"
    );
    let mut ctx2 = ctx_default();
    let s2 = prepare_started(&mut ctx2);
    let o2 = apply_event(
        &s2,
        &mut ctx2,
        &OrderEvent::Fill {
            fill_id: fid("F1"),
            qty: 4,
            price_cents: 45,
            ts_ns: 1,
            venue_order_id: Some(vid("V1")),
            fee_cents: None,
        },
    );
    let s2 = o2.new_state().unwrap().clone();
    let o2 = apply_event(
        &s2,
        &mut ctx2,
        &OrderEvent::SubmitResponse {
            venue_order_id: vid("V1"),
            fill_count: 0,
            remaining_count: 0,
            avg_price_cents: None,
            fee_cents: None,
            snapshot_boundary: None,
        },
    );
    assert!(
        matches!(
            o2.new_state(),
            Some(OrderState::Halted { reason: HaltReason::ResponseZeroButLocalFills { .. } })
        ),
        "response(0,0)+本地 fill = 真矛盾必须保持 halt: {o2:?}"
    );
}

#[test]
fn a3_reconcile_pending_cancel_requested_is_idempotent() {
    let mut ctx = ctx_default();
    let s = to_cancel_pending(&mut ctx);
    let o = apply_event(
        &s,
        &mut ctx,
        &OrderEvent::Fill {
            fill_id: fid("F1"),
            qty: 4,
            price_cents: 45,
            ts_ns: 1,
            venue_order_id: Some(vid("V1")),
            fee_cents: None,
        },
    );
    let s = o.new_state().unwrap().clone();
    let o = apply_event(
        &s,
        &mut ctx,
        &OrderEvent::CancelOutcome(CancelOutcome::NotFound),
    );
    let s = o.new_state().unwrap().clone();
    let o = apply_event(
        &s,
        &mut ctx,
        &OrderEvent::ReconcileResult {
            status: BackfillOrderStatus::Canceled,
            venue_order_id: Some(vid("V1")),
            filled_qty: 4,
            remaining_qty: 6,
            fills: vec![],
            authority_complete: false,
        },
    );
    let s = o.new_state().unwrap().clone();
    assert!(matches!(s, OrderState::ReconcilePending { .. }));
    let o = apply_event(&s, &mut ctx, &OrderEvent::CancelRequested);
    assert!(!o.is_reject(), "ReconcilePending 重撤必须幂等放行(修前 reject 杀 loop): {o:?}");
    assert_eq!(o.new_state(), Some(&s), "no-op 保持原态");
    assert!(o.effects().is_empty(), "幂等重试零 effect");
}

#[test]
fn a2_late_fill_full_coverage_finalizes_from_reconcile_pending() {
    let mut ctx = ctx_default();
    let s = to_cancel_pending(&mut ctx);
    let o = apply_event(
        &s,
        &mut ctx,
        &OrderEvent::ReconcileResult {
            status: BackfillOrderStatus::Canceled,
            venue_order_id: Some(vid("V1")),
            filled_qty: 10,
            remaining_qty: 0,
            fills: vec![],
            authority_complete: true,
        },
    );
    let s = o.new_state().unwrap().clone();
    assert!(
        matches!(s, OrderState::ReconcilePending { .. }),
        "attributed(0)<obligation(10) ⇒ 先挂 ReconcilePending: {s:?}"
    );
    let o = apply_event(
        &s,
        &mut ctx,
        &OrderEvent::Fill {
            fill_id: fid("F1"),
            qty: 10,
            price_cents: 45,
            ts_ns: 2,
            venue_order_id: Some(vid("V1")),
            fee_cents: None,
        },
    );
    let ns = o.new_state().unwrap().clone();
    assert!(
        !matches!(ns, OrderState::ReconcilePending { .. }),
        "追平后必须离开 ReconcilePending(修前永卡=资金锁死): {ns:?}"
    );
    assert!(
        ns.is_terminal_or_halt() && !matches!(ns, OrderState::Halted { .. }),
        "全量覆盖 ⇒ 干净终态非 halt: {ns:?}"
    );
    assert!(
        o.effects()
            .iter()
            .any(|e| matches!(e, Effect::ReleaseReservation)),
        "终态必须放资金"
    );
}

#[test]
fn a3b_shell_cancel_sequence_reaches_terminal_from_reconcile_pending() {
    let mut ctx = ctx_default();
    let s = to_cancel_pending(&mut ctx);
    let o = apply_event(
        &s,
        &mut ctx,
        &OrderEvent::Fill {
            fill_id: fid("F1"),
            qty: 4,
            price_cents: 45,
            ts_ns: 1,
            venue_order_id: Some(vid("V1")),
            fee_cents: None,
        },
    );
    let s = o.new_state().unwrap().clone();
    let o = apply_event(&s, &mut ctx, &OrderEvent::CancelOutcome(CancelOutcome::NotFound));
    let s = o.new_state().unwrap().clone();
    let o = apply_event(
        &s,
        &mut ctx,
        &OrderEvent::ReconcileResult {
            status: BackfillOrderStatus::Canceled,
            venue_order_id: Some(vid("V1")),
            filled_qty: 4,
            remaining_qty: 6,
            fills: vec![],
            authority_complete: false,
        },
    );
    let s = o.new_state().unwrap().clone();
    assert!(matches!(s, OrderState::ReconcilePending { .. }));
    let o = apply_event(&s, &mut ctx, &OrderEvent::CancelRequested);
    assert!(!o.is_reject());
    let s = o.new_state().unwrap().clone();
    let o = apply_event(&s, &mut ctx, &OrderEvent::CancelOutcome(CancelOutcome::Canceled));
    assert!(!o.is_reject(), "★ CancelOutcome 必须容忍(修前 reject=死点挪后一跳): {o:?}");
    let s = o.new_state().unwrap().clone();
    let o = apply_event(
        &s,
        &mut ctx,
        &OrderEvent::ReconcileResult {
            status: BackfillOrderStatus::Canceled,
            venue_order_id: Some(vid("V1")),
            filled_qty: 4,
            remaining_qty: 0,
            fills: vec![],
            authority_complete: true,
        },
    );
    let ns = o.new_state().unwrap().clone();
    assert!(
        ns.is_terminal_or_halt() && !matches!(ns, OrderState::Halted { .. }),
        "authority 重供后必须到干净终态: {ns:?}"
    );
    assert!(
        o.effects().iter().any(|e| matches!(e, Effect::ReleaseReservation)),
        "终态放资金"
    );
}

#[test]
fn a5b_full_preempt_fill_finalizes_filled_and_mid_mismatch_still_halts() {
    let mut ctx = ctx_default();
    let s = prepare_started(&mut ctx);
    let o = apply_event(
        &s,
        &mut ctx,
        &OrderEvent::Fill {
            fill_id: fid("F1"),
            qty: 10,
            price_cents: 45,
            ts_ns: 1,
            venue_order_id: Some(vid("V1")),
            fee_cents: None,
        },
    );
    let s = o.new_state().unwrap().clone();
    let o = apply_event(
        &s,
        &mut ctx,
        &OrderEvent::SubmitResponse {
            venue_order_id: vid("V1"),
            fill_count: 0,
            remaining_count: 10,
            avg_price_cents: None,
            fee_cents: None,
            snapshot_boundary: None,
        },
    );
    assert!(
        matches!(o.new_state(), Some(OrderState::Filled { .. })),
        "全量抢跑必须 Filled 非 Partial{{10,0}} 僵尸: {o:?}"
    );
    assert!(
        o.effects().iter().any(|e| matches!(e, Effect::ReleaseReservation)),
        "Filled 必须放资金"
    );
    let mut ctx3 = ctx_default();
    let s3 = prepare_started(&mut ctx3);
    let o3 = apply_event(
        &s3,
        &mut ctx3,
        &OrderEvent::Fill {
            fill_id: fid("F1"),
            qty: 4,
            price_cents: 45,
            ts_ns: 1,
            venue_order_id: Some(vid("V1")),
            fee_cents: None,
        },
    );
    let s3 = o3.new_state().unwrap().clone();
    let o3 = apply_event(
        &s3,
        &mut ctx3,
        &OrderEvent::SubmitResponse {
            venue_order_id: vid("V1"),
            fill_count: 0,
            remaining_count: 6,
            avg_price_cents: None,
            fee_cents: None,
            snapshot_boundary: None,
        },
    );
    assert!(
        matches!(
            o3.new_state(),
            Some(OrderState::Halted { reason: HaltReason::ResponseZeroButLocalFills { .. } })
        ),
        "response(0,6)+attributed=4 中段矛盾必须保钉 halt: {o3:?}"
    );
}

#[test]
fn a4_late_fill_beyond_target_floor_reraises_not_halt() {
    let mut ctx = ctx_default();
    let s = to_cancel_pending(&mut ctx);
    let o = apply_event(
        &s,
        &mut ctx,
        &OrderEvent::Fill {
            fill_id: fid("F1"),
            qty: 3,
            price_cents: 45,
            ts_ns: 1,
            venue_order_id: Some(vid("V1")),
            fee_cents: None,
        },
    );
    let s = o.new_state().unwrap().clone();
    let o = apply_event(
        &s,
        &mut ctx,
        &OrderEvent::CancelOutcome(CancelOutcome::NotFound),
    );
    let s = o.new_state().unwrap().clone();
    let o = apply_event(
        &s,
        &mut ctx,
        &OrderEvent::ReconcileResult {
            status: BackfillOrderStatus::Canceled,
            venue_order_id: Some(vid("V1")),
            filled_qty: 3,
            remaining_qty: 7,
            fills: vec![],
            authority_complete: false,
        },
    );
    let s = o.new_state().unwrap().clone();
    assert!(matches!(
        s,
        OrderState::ReconcilePending {
            target: ReconcileTarget { venue_filled_qty: 3, .. },
            ..
        }
    ));
    let o = apply_event(
        &s,
        &mut ctx,
        &OrderEvent::Fill {
            fill_id: fid("F2"),
            qty: 1,
            price_cents: 45,
            ts_ns: 2,
            venue_order_id: Some(vid("V1")),
            fee_cents: None,
        },
    );
    let ns = o.new_state().unwrap().clone();
    assert!(
        !matches!(ns, OrderState::Halted { .. }),
        "越过本地地板 ≤qty 不是 venue 矛盾(修前假阳性 Halt): {ns:?}"
    );
    assert!(
        matches!(
            &ns,
            OrderState::ReconcilePending {
                target: ReconcileTarget { venue_filled_qty: 4, .. },
                ..
            }
        ),
        "地板抬升重合成 target=4: {ns:?}"
    );
    assert_eq!(ctx.attributed_fill_qty, 4);
}

#[test]
fn cancel_requested_on_cancel_pending_is_idempotent_noop() {
    let state = OrderState::CancelPending {
        venue_order_id: VenueOrderId("w1".into()),
        filled_qty: 0,
        remaining_qty: 500,
        response_fill_count: None,
        response_avg_price_cents: None,
        response_fee_cents: None,
        reconcile_target: None,
    };
    let mut ctx = OrderCtx::new(
        derive_client_order_id("KXBTC-M", "hoff-mm", 1),
        "KXBTC-M",
        "hoff-mm",
        Side::BuyYes,
        50,
        500,
    );
    let out = apply_event(&state, &mut ctx, &OrderEvent::CancelRequested);
    match out {
        TransitionOutcome::Accept { new_state, effects } => {
            assert!(
                matches!(new_state, OrderState::CancelPending { ref venue_order_id, .. }
                    if venue_order_id.0 == "w1"),
                "state 必须原样保持 CancelPending"
            );
            assert!(effects.is_empty(), "重试不许重复记 journal（零 effect）");
        }
        other => panic!("cancel 重试必须 Accept(no-op)，实际 {other:?} —— \
            reject 会让宿主 bail 进程死"),
    }
}
