//! The single terminal choke point: the only producer of `ReleaseReservation`.

use vstd::prelude::*;

use super::account::{
    fee_cross_check_mismatch, has_reliable_boundary, notional_avg_mismatch, domain_overfill_detail,
};
use super::ctx::{authority_fresh, OrderCtx};
use super::outcome::{
    accept, domain_closed, no_account_fill, outcome_effects, push_effect, halt_with_reason,
    outcome_sound, provenance_verified, TransitionOutcome,
};
use super::rebuild::{
    journal_of, journaled_after, lemma_journal_of_concat, lemma_journal_of_one,
    lemma_journaled_after_free_ext, lemma_journaled_after_trans, lemma_reaches_one,
    lemma_terminal_replay,
};
use super::types::{
    is_true_terminal, no_release, Effect, HaltReason, JournalRecord, OrderState, ReconcileTarget,
    ReconcileTerminal, TerminalKind, VenueOrderId,
};

verus! {

/// Proposed true-terminal kind for the choke point.
#[derive(Debug, Clone, Copy, PartialEq, Eq, Structural)]
pub enum ProposedTerminal {
    Filled {
        /// Venue-authoritative filled qty (must equal order qty for Filled).
        venue_authoritative_filled: u64,
        /// Venue-reported remaining (must be 0 for a Filled release).
        venue_remaining_qty: u64,
    },
    Canceled,
    Terminal,
}

pub open spec fn proposed_state(p: ProposedTerminal) -> OrderState {
    match p {
        ProposedTerminal::Filled { .. } => OrderState::Filled,
        ProposedTerminal::Canceled => OrderState::Canceled,
        ProposedTerminal::Terminal => OrderState::Terminal,
    }
}

pub open spec fn proposed_kind(p: ProposedTerminal) -> TerminalKind {
    match p {
        ProposedTerminal::Filled { .. } => TerminalKind::Filled,
        ProposedTerminal::Canceled => TerminalKind::Canceled,
        ProposedTerminal::Terminal => TerminalKind::Terminal,
    }
}

/// All release gates hold for this proposal.
pub open spec fn finalize_pass(ctx: OrderCtx, p: ProposedTerminal) -> bool {
    &&& provenance_verified(ctx)
    &&& authority_fresh(ctx)
    &&& ctx.attributed_fill_qty == ctx.fill_obligation
    &&& domain_closed(ctx)
    &&& (p matches ProposedTerminal::Filled { venue_authoritative_filled: vf, venue_remaining_qty: vr }
        ==> vf == ctx.qty && vr == 0 && ctx.attributed_fill_qty == ctx.qty)
}

/// The terminal journal record of a release.
pub open spec fn terminal_record(ctx: OrderCtx, p: ProposedTerminal) -> JournalRecord {
    JournalRecord::OrderTerminal {
        kind: proposed_kind(p),
        venue_order_id: ctx.venue_order_id,
        fill_obligation: ctx.fill_obligation,
        authority_complete: true,
        authority_epoch: ctx.authority_epoch,
        attributed_fill_qty: ctx.attributed_fill_qty,
        attributed_fee_cents: ctx.attributed_fee_cents,
    }
}

/// The reconcile-pending state a failed finalize falls back to.
pub open spec fn fallback_state(
    ctx: OrderCtx,
    venue_order_id: VenueOrderId,
    fallback: ReconcileTerminal,
    venue_remaining: Option<u64>,
) -> OrderState {
    OrderState::ReconcilePending {
        venue_order_id,
        filled_qty: ctx.attributed_fill_qty,
        remaining_qty: if ctx.attributed_fill_qty <= ctx.qty {
            (ctx.qty - ctx.attributed_fill_qty) as u64
        } else {
            0
        },
        target: ReconcileTarget {
            terminal: fallback,
            venue_filled_qty: if ctx.fill_obligation >= ctx.attributed_fill_qty {
                ctx.fill_obligation
            } else {
                ctx.attributed_fill_qty
            },
            venue_remaining_qty: match venue_remaining {
                Some(r) => Some(r),
                None => ctx.last_venue_remaining_qty,
            },
        },
        response_fill_count: ctx.response_fill_count,
        response_avg_price_cents: ctx.response_avg_price_cents,
        response_fee_cents: ctx.response_fee_cents,
    }
}

/// Effects a not-ready fallback may add after the given ones.
pub open spec fn is_reconcile_request(e: Effect) -> bool {
    e is BackfillFills || e is RequestAuthorityReconcile || e is ReconcileCancel
}

/// The effects of a not-ready fallback after `prior`: a fill backfill while
/// attribution lags the obligation; an authority reconcile request when asked for
/// or when attribution has caught up; and, when asked for authority, a reconcile
/// cancel unless one is already queued.
pub open spec fn not_ready_effects(
    c: OrderCtx,
    v: VenueOrderId,
    prior: Seq<Effect>,
    request_authority: bool,
) -> Seq<Effect> {
    let e1 = lag_backfill(c, v, prior);
    if request_authority || c.attributed_fill_qty >= c.fill_obligation {
        let e2 = e1.push(
            Effect::RequestAuthorityReconcile { venue_order_id: Some(v), client_order_id: c.client_order_id },
        );
        if request_authority && !has_reconcile_cancel(e2) {
            e2.push(Effect::ReconcileCancel { venue_order_id: Some(v) })
        } else {
            e2
        }
    } else {
        e1
    }
}

/// `prior`, with a fill backfill for `v` while attribution lags the obligation.
pub open spec fn lag_backfill(c: OrderCtx, v: VenueOrderId, prior: Seq<Effect>) -> Seq<Effect> {
    if c.attributed_fill_qty < c.fill_obligation {
        prior.push(Effect::BackfillFills { venue_order_id: v })
    } else {
        prior
    }
}

/// A reconcile cancel is already queued in `effects`.
pub open spec fn has_reconcile_cancel(effects: Seq<Effect>) -> bool {
    exists|k: int| 0 <= k < effects.len() && #[trigger] effects[k] is ReconcileCancel
}

/// Closing from `c` toward a proposal: when every release gate holds the order
/// reaches the proposed terminal, its effects ending with the terminal record and
/// the release; otherwise it halts or waits in `ReconcilePending`.
pub open spec fn closes_with(c: OrderCtx, p: ProposedTerminal, r: TransitionOutcome) -> bool {
    &&& finalize_pass(c, p) ==> {
        &&& r is Accept
        &&& r->Accept_new_state == proposed_state(p)
        &&& r->Accept_effects@.len() >= 2
        &&& r->Accept_effects@[r->Accept_effects@.len() - 2] == Effect::AppendFsync(terminal_record(c, p))
        &&& r->Accept_effects@.last() == Effect::ReleaseReservation
    }
    &&& !finalize_pass(c, p) ==> (r is Halt || (r is Accept && r->Accept_new_state is ReconcilePending))
}

/// No applied fill names a venue other than the bound one.
pub open spec fn no_foreign_fill(c: OrderCtx) -> bool {
    c.venue_order_id matches Some(e) ==> forall|i: int|
        0 <= i < c.applied_fills.entries_view().len() ==> ((#[trigger] c.applied_fills.entries_view()[i]).1.venue_order_id
            matches Some(w) ==> w.0@ == e.0@)
}

/// The venue remaining a proposal carries into a fallback: the proposed fill's,
/// else the last seen.
pub open spec fn proposed_remaining(c: OrderCtx, p: ProposedTerminal) -> Option<u64> {
    match p {
        ProposedTerminal::Filled { venue_remaining_qty, .. } => Some(venue_remaining_qty),
        _ => c.last_venue_remaining_qty,
    }
}

/// Non-terminal path when finalize gates fail: ReconcilePending + backfill / authority requests.
pub(crate) fn not_ready_for_terminal(
    ctx: &OrderCtx,
    venue_order_id: VenueOrderId,
    effects: Vec<Effect>,
    fallback_terminal: ReconcileTerminal,
    request_authority: bool,
    venue_remaining_qty: Option<u64>,
) -> (r: TransitionOutcome)
    ensures
        r matches TransitionOutcome::Accept { new_state, effects: out } && new_state == fallback_state(
            *ctx,
            venue_order_id,
            fallback_terminal,
            venue_remaining_qty,
        ) && out@ == not_ready_effects(*ctx, venue_order_id, effects@, request_authority)
            && out@.subrange(0, effects@.len() as int) == effects@ && (forall|i: int|
            effects@.len() <= i < out@.len() ==> is_reconcile_request(#[trigger] out@[i])) && (
        no_release(effects@) ==> no_release(out@)) && (no_account_fill(effects@) ==> no_account_fill(out@)),
        journaled_after(*ctx, effects@, outcome_effects(r), *ctx),
{
    let mut effects = effects;
    let ghost prior = effects@;
    let target_qty = if ctx.fill_obligation >= ctx.attributed_fill_qty {
        ctx.fill_obligation
    } else {
        ctx.attributed_fill_qty
    };
    let venue_remaining_qty = match venue_remaining_qty {
        Some(r) => Some(r),
        None => ctx.last_venue_remaining_qty,
    };
    if ctx.attributed_fill_qty < ctx.fill_obligation {
        effects.push(Effect::BackfillFills { venue_order_id: venue_order_id.clone() });
    }
    let ghost e1 = effects@;
    proof {
        assert(e1 == if ctx.attributed_fill_qty < ctx.fill_obligation {
            prior.push(Effect::BackfillFills { venue_order_id })
        } else {
            prior
        });
    }
    if request_authority || ctx.attributed_fill_qty >= ctx.fill_obligation {
        effects.push(
            Effect::RequestAuthorityReconcile {
                venue_order_id: Some(venue_order_id.clone()),
                client_order_id: ctx.client_order_id.clone(),
            },
        );
        let ghost e2 = effects@;
        proof {
            assert(e2 == e1.push(
                Effect::RequestAuthorityReconcile { venue_order_id: Some(venue_order_id), client_order_id: ctx.client_order_id },
            ));
        }
        if request_authority {
            let mut has_cancel = false;
            let mut i: usize = 0;
            while i < effects.len()
                invariant
                    i <= effects@.len(),
                    effects@ == e2,
                    has_cancel == exists|k: int| 0 <= k < i && #[trigger] effects@[k] is ReconcileCancel,
                decreases effects@.len() - i,
            {
                if let Effect::ReconcileCancel { .. } = &effects[i] {
                    has_cancel = true;
                }
                i = i + 1;
            }
            proof {
                assert(i == e2.len());
                assert(has_cancel == exists|k: int| 0 <= k < e2.len() && #[trigger] e2[k] is ReconcileCancel);
            }
            if !has_cancel {
                effects.push(Effect::ReconcileCancel { venue_order_id: Some(venue_order_id.clone()) });
            }
        }
        proof {
            if request_authority && !has_reconcile_cancel(e2) {
                assert(effects@ =~= e2.push(Effect::ReconcileCancel { venue_order_id: Some(venue_order_id) }));
            } else {
                assert(effects@ =~= e2);
            }
            assert(effects@ =~= not_ready_effects(*ctx, venue_order_id, prior, request_authority));
        }
    } else {
        proof {
            assert(effects@ =~= not_ready_effects(*ctx, venue_order_id, prior, request_authority));
        }
    }
    proof {
        assert(effects@.subrange(0, prior.len() as int) =~= prior);
        assert forall|i: int| 0 <= i < effects@.len() && no_release(prior) implies !(#[trigger] effects@[i] is ReleaseReservation) by {
            if i < prior.len() {
                assert(effects@[i] == prior[i]);
            }
        }
        assert forall|i: int| 0 <= i < effects@.len() && no_account_fill(prior) implies !(#[trigger] effects@[i] is AccountFill) by {
            if i < prior.len() {
                assert(effects@[i] == prior[i]);
            }
        }
    }
    proof {
        lemma_journaled_after_free_ext(*ctx, prior, effects@);
    }
    accept(
        OrderState::ReconcilePending {
            venue_order_id,
            filled_qty: ctx.attributed_fill_qty,
            remaining_qty: ctx.remaining_qty(),
            target: ReconcileTarget {
                terminal: fallback_terminal,
                venue_filled_qty: target_qty,
                venue_remaining_qty,
            },
            response_fill_count: ctx.response_fill_count,
            response_avg_price_cents: ctx.response_avg_price_cents,
            response_fee_cents: ctx.response_fee_cents,
        },
        effects,
    )
}

/// Unique producer of `ReleaseReservation` and of true terminal states. Every gate
/// must pass; otherwise ReconcilePending (recoverable) or Halt (contradiction).
pub(crate) fn try_finalize_terminal(
    ctx: &OrderCtx,
    proposed: ProposedTerminal,
    venue_order_id: VenueOrderId,
    prior_effects: Vec<Effect>,
    fallback_terminal: ReconcileTerminal,
) -> (r: TransitionOutcome)
    requires
        no_release(prior_effects@),
    ensures
        outcome_sound(r, *ctx),
        !(r is Reject),
        r matches TransitionOutcome::Accept { new_state, .. } ==> new_state == proposed_state(proposed)
            || new_state is ReconcilePending,
        (r matches TransitionOutcome::Accept { new_state, .. } && is_true_terminal(new_state))
            <==> finalize_pass(*ctx, proposed),
        finalize_pass(*ctx, proposed) ==> r == (TransitionOutcome::Accept {
            new_state: proposed_state(proposed),
            effects: r->Accept_effects,
        }) && r->Accept_effects@ == prior_effects@ + seq![
            Effect::AppendFsync(terminal_record(*ctx, proposed)),
            Effect::ReleaseReservation,
        ],
        no_account_fill(prior_effects@) ==> no_account_fill(outcome_effects(r)),
        ctx.fill_obligation <= ctx.qty ==> journaled_after(*ctx, prior_effects@, outcome_effects(r), *ctx),
        // without a foreign fill, a gate that can still be met later waits in
        // `ReconcilePending` toward the fallback
        (no_foreign_fill(*ctx) && (!provenance_verified(*ctx) || !authority_fresh(*ctx) || ctx.attributed_fill_qty
            != ctx.fill_obligation)) ==> r is Accept && r->Accept_new_state == fallback_state(
            *ctx,
            venue_order_id,
            fallback_terminal,
            proposed_remaining(*ctx, proposed),
        ),
        closes_with(*ctx, proposed, r),
        // an applied fill without a venue id asks for the fills and for authority
        (no_foreign_fill(*ctx) && !provenance_verified(*ctx)) ==> r->Accept_effects@ == not_ready_effects(
            *ctx,
            venue_order_id,
            prior_effects@.push(Effect::BackfillFills { venue_order_id }),
            true,
        ),
        (r is Accept && r->Accept_new_state is ReconcilePending && !(proposed is Filled)) ==> r->Accept_new_state
            == fallback_state(*ctx, venue_order_id, fallback_terminal, proposed_remaining(*ctx, proposed)),
        // gates that can still be met later fall back to waiting in `ReconcilePending`
        (provenance_verified(*ctx) && (!authority_fresh(*ctx) || ctx.attributed_fill_qty != ctx.fill_obligation))
            ==> r is Accept && r->Accept_new_state == fallback_state(
            *ctx,
            venue_order_id,
            fallback_terminal,
            proposed_remaining(*ctx, proposed),
        ) && r->Accept_effects@ == not_ready_effects(*ctx, venue_order_id, prior_effects@, !authority_fresh(*ctx)),
{
    let mut effects = prior_effects;
    let ghost input = effects@;
    let proposed_venue_remaining = match &proposed {
        ProposedTerminal::Filled { venue_remaining_qty, .. } => Some(*venue_remaining_qty),
        _ => ctx.last_venue_remaining_qty,
    };
    assert(proposed_venue_remaining == proposed_remaining(*ctx, proposed));
    // ownership re-check + None-provenance block
    if let Some(expected) = &ctx.venue_order_id {
        let n = ctx.applied_fills.len();
        let mut i: usize = 0;
        while i < n
            invariant
                i <= n,
                n == ctx.applied_fills.entries_view().len(),
                ctx.venue_order_id == Some(*expected),
                no_release(effects@),
                effects@ == input,
                input == prior_effects@,
                proposed_venue_remaining == proposed_remaining(*ctx, proposed),
                forall|j: int|
                    0 <= j < i ==> ((#[trigger] ctx.applied_fills.entries_view()[j]).1.venue_order_id matches Some(w)
                        && w.0@ == expected.0@),
            decreases n - i,
        {
            let e = ctx.applied_fills.entry(i);
            match &e.1.venue_order_id {
                Some(got) => {
                    if !(got.0 == expected.0) {
                        let reason = HaltReason::FillOwnershipMismatch {
                            fill_id: e.0.clone(),
                            expected: expected.clone(),
                            got: got.clone(),
                        };
                        return halt_with_reason(reason, effects);
                    }
                },
                None => {
                    let ghost prior = effects@;
                    push_effect(&mut effects, Effect::BackfillFills { venue_order_id: venue_order_id.clone() });
                    proof {
                        assert forall|k: int| 0 <= k < effects@.len() implies !(#[trigger] effects@[k] is ReleaseReservation) by {
                            if k < prior.len() {
                                assert(effects@[k] == prior[k]);
                            }
                        }
                    }
                    let r = not_ready_for_terminal(
                        ctx,
                        venue_order_id,
                        effects,
                        fallback_terminal,
                        true,
                        proposed_venue_remaining,
                    );
                    proof {
                        assert(effects@.subrange(0, prior.len() as int) =~= prior);
                        lemma_journaled_after_free_ext(*ctx, prior, effects@);
                        lemma_journaled_after_trans(*ctx, prior, effects@, *ctx, outcome_effects(r), *ctx);
                    }
                    return r;
                },
            }
            i = i + 1;
        }
    }
    assert(provenance_verified(*ctx));
    // authority complete and on the current generation
    if !ctx.authority_is_fresh() {
        return not_ready_for_terminal(
            ctx,
            venue_order_id,
            effects,
            fallback_terminal,
            true,
            proposed_venue_remaining,
        );
    }
    // attributed == obligation
    if ctx.attributed_fill_qty != ctx.fill_obligation {
        return not_ready_for_terminal(
            ctx,
            venue_order_id,
            effects,
            fallback_terminal,
            false,
            proposed_venue_remaining,
        );
    }
    // response-domain integrity, then avg / fee on the domain
    if let Some(rc) = ctx.response_fill_count {
        if has_reliable_boundary(ctx) {
            if ctx.response_domain_qty < rc {
                let ghost prior = effects@;
                push_effect(&mut effects, Effect::BackfillFills { venue_order_id: venue_order_id.clone() });
                proof {
                    assert forall|k: int| 0 <= k < effects@.len() implies !(#[trigger] effects@[k] is ReleaseReservation) by {
                        if k < prior.len() {
                            assert(effects@[k] == prior[k]);
                        }
                    }
                }
                let r = not_ready_for_terminal(
                    ctx,
                    venue_order_id,
                    effects,
                    fallback_terminal,
                    true,
                    proposed_venue_remaining,
                );
                proof {
                    assert(effects@.subrange(0, prior.len() as int) =~= prior);
                    lemma_journaled_after_free_ext(*ctx, prior, effects@);
                    lemma_journaled_after_trans(*ctx, prior, effects@, *ctx, outcome_effects(r), *ctx);
                }
                return r;
            }
            if ctx.response_domain_qty > rc {
                return halt_with_reason(
                    HaltReason::CrossCheckMismatch { detail: domain_overfill_detail(ctx.response_domain_qty, rc) },
                    effects,
                );
            }
            if let Some(avg) = ctx.response_avg_price_cents {
                if let Some(detail) = notional_avg_mismatch(ctx.response_domain_notional_cents, avg, rc) {
                    return halt_with_reason(HaltReason::CrossCheckMismatch { detail }, effects);
                }
            }
            if let Some(detail) = fee_cross_check_mismatch(ctx.response_fee_cents, ctx.response_domain_fee_cents) {
                return halt_with_reason(HaltReason::CrossCheckMismatch { detail }, effects);
            }
        }
    }
    assert(domain_closed(*ctx));
    // Filled-specific: venue filled == qty, venue remaining 0, local remaining 0
    if let ProposedTerminal::Filled { venue_authoritative_filled, venue_remaining_qty } = &proposed {
        if *venue_authoritative_filled > ctx.qty {
            return halt_with_reason(
                HaltReason::OverFill {
                    attributed_fill_qty: ctx.attributed_fill_qty,
                    fill_qty: venue_authoritative_filled.saturating_sub(ctx.attributed_fill_qty),
                    order_qty: ctx.qty,
                },
                effects,
            );
        }
        let remaining = match ctx.remaining_qty_checked() {
            Some(r) => r,
            None => {
                return halt_with_reason(
                    HaltReason::OverFill {
                        attributed_fill_qty: ctx.attributed_fill_qty,
                        fill_qty: 0,
                        order_qty: ctx.qty,
                    },
                    effects,
                );
            },
        };
        if *venue_authoritative_filled != ctx.qty || *venue_remaining_qty != 0 || remaining != 0 {
            if ctx.attributed_fill_qty > ctx.qty {
                return halt_with_reason(
                    HaltReason::OverFill {
                        attributed_fill_qty: ctx.attributed_fill_qty,
                        fill_qty: 0,
                        order_qty: ctx.qty,
                    },
                    effects,
                );
            }
            return not_ready_for_terminal(
                ctx,
                venue_order_id,
                effects,
                ReconcileTerminal::Filled,
                false,
                Some(*venue_remaining_qty),
            );
        }
    }
    // all gates passed: the unique release site
    let (kind, new_state) = match proposed {
        ProposedTerminal::Filled { .. } => (TerminalKind::Filled, OrderState::Filled),
        ProposedTerminal::Canceled => (TerminalKind::Canceled, OrderState::Canceled),
        ProposedTerminal::Terminal => (TerminalKind::Terminal, OrderState::Terminal),
    };
    let ghost prior = effects@;
    effects.push(
        Effect::AppendFsync(
            JournalRecord::OrderTerminal {
                kind,
                venue_order_id: ctx.venue_order_id.clone(),
                fill_obligation: ctx.fill_obligation,
                authority_complete: ctx.authority_is_fresh(),
                authority_epoch: ctx.authority_epoch,
                attributed_fill_qty: ctx.attributed_fill_qty,
                attributed_fee_cents: ctx.attributed_fee_cents,
            },
        ),
    );
    effects.push(Effect::ReleaseReservation);
    proof {
        assert(effects@.drop_last() =~= prior.push(Effect::AppendFsync(terminal_record(*ctx, proposed))));
        assert forall|k: int| 0 <= k < effects@.drop_last().len() implies !(#[trigger] effects@.drop_last()[k] is ReleaseReservation) by {
            if k < prior.len() {
                assert(effects@.drop_last()[k] == prior[k]);
            }
        }
        assert(effects@ =~= prior + seq![
            Effect::AppendFsync(terminal_record(*ctx, proposed)),
            Effect::ReleaseReservation,
        ]);
        assert forall|k: int| 0 <= k < effects@.len() && no_account_fill(prior) implies !(#[trigger] effects@[k] is AccountFill) by {
            if k < prior.len() {
                assert(effects@[k] == prior[k]);
            }
        }
        if ctx.fill_obligation <= ctx.qty {
            let x1 = Effect::AppendFsync(terminal_record(*ctx, proposed));
            let x2 = Effect::ReleaseReservation;
            assert(effects@.subrange(0, prior.len() as int) =~= prior);
            assert(effects@.subrange(prior.len() as int, effects@.len() as int) =~= seq![x1] + seq![x2]);
            lemma_journal_of_concat(seq![x1], seq![x2]);
            lemma_journal_of_one(x1);
            lemma_journal_of_one(x2);
            assert(journal_of(seq![x1] + seq![x2]) =~= seq![terminal_record(*ctx, proposed)]);
            lemma_terminal_replay(*ctx, proposed);
            lemma_reaches_one(*ctx, terminal_record(*ctx, proposed), *ctx);
        }
    }
    accept(new_state, effects)
}

/// The proposal that closing toward the reconcile target `t` makes from `c`: a
/// cancel, or a fill with the venue's filled qty and the venue remaining (the
/// target's, else the last seen, else zero exactly when the venue filled the
/// whole order).
pub open spec fn target_proposal(c: OrderCtx, t: ReconcileTarget) -> ProposedTerminal {
    match t.terminal {
        ReconcileTerminal::Canceled => ProposedTerminal::Canceled,
        ReconcileTerminal::Filled => ProposedTerminal::Filled {
            venue_authoritative_filled: t.venue_filled_qty,
            venue_remaining_qty: match t.venue_remaining_qty {
                Some(r) => r,
                None => match c.last_venue_remaining_qty {
                    Some(r) => r,
                    None => if t.venue_filled_qty == c.qty {
                        0
                    } else {
                        1
                    },
                },
            },
        },
    }
}

/// Closing from `c` toward a proposal after `effects`: when every release gate
/// holds the order reaches the proposed terminal with its terminal record and the
/// release; otherwise it halts or waits in `ReconcilePending`.
pub open spec fn closes_toward(c: OrderCtx, p: ProposedTerminal, effects: Seq<Effect>, r: TransitionOutcome) -> bool {
    &&& finalize_pass(c, p) ==> r == (TransitionOutcome::Accept {
        new_state: proposed_state(p),
        effects: r->Accept_effects,
    }) && r->Accept_effects@ == effects + seq![
        Effect::AppendFsync(terminal_record(c, p)),
        Effect::ReleaseReservation,
    ]
    &&& !finalize_pass(c, p) ==> (r is Halt || (r is Accept && r->Accept_new_state is ReconcilePending))
}

/// Attribution caught the reconcile target: finalize through the choke point, using
/// the persisted venue remaining (never a synthetic 0 when remaining was seen).
pub(crate) fn finalize_reconcile_target(
    ctx: &OrderCtx,
    target: &ReconcileTarget,
    effects: Vec<Effect>,
    venue_order_id: VenueOrderId,
) -> (r: TransitionOutcome)
    requires
        no_release(effects@),
    ensures
        outcome_sound(r, *ctx),
        !(r is Reject),
        r matches TransitionOutcome::Accept { new_state, .. } ==> (new_state is ReconcilePending || new_state == (
        match target.terminal {
            ReconcileTerminal::Canceled => OrderState::Canceled,
            ReconcileTerminal::Filled => OrderState::Filled,
        })),
        ctx.fill_obligation <= ctx.qty ==> journaled_after(*ctx, effects@, outcome_effects(r), *ctx),
        closes_toward(*ctx, target_proposal(*ctx, *target), effects@, r),
{
    match target.terminal {
        ReconcileTerminal::Canceled => try_finalize_terminal(
            ctx,
            ProposedTerminal::Canceled,
            venue_order_id,
            effects,
            ReconcileTerminal::Canceled,
        ),
        ReconcileTerminal::Filled => {
            let venue_remaining_qty = match target.venue_remaining_qty {
                Some(r) => r,
                None => match ctx.last_venue_remaining_qty {
                    Some(r) => r,
                    None => {
                        if target.venue_filled_qty == ctx.qty {
                            0
                        } else {
                            1
                        }
                    },
                },
            };
            try_finalize_terminal(
                ctx,
                ProposedTerminal::Filled {
                    venue_authoritative_filled: target.venue_filled_qty,
                    venue_remaining_qty,
                },
                venue_order_id,
                effects,
                ReconcileTerminal::Filled,
            )
        },
    }
}

} // verus!
