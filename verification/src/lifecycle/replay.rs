//! `replay`: fold a sequence of events through `apply_event`.

use vstd::prelude::*;

use super::apply::{apply_event, event_post, replay_covered, transition_laws};
use super::rebuild::{
    journal_of, journaled, lemma_journal_of_concat, lemma_journaled_concat,
    lemma_replay_halts_after, lemma_replay_halts_extend, replay_halts,
};
use super::ctx::OrderCtx;
use super::outcome::{
    ctx_evolves, lemma_evolves_refl, lemma_evolves_trans, outcome_effects, TransitionOutcome,
};
use super::types::{
    is_frozen, no_release, single_final_release, Effect, HaltReason, JournalRecord, OrderEvent,
    OrderState, RejectReason,
};

verus! {

/// Number of `ReleaseReservation` effects in `s`.
pub open spec fn release_count(s: Seq<Effect>) -> nat
    decreases s.len(),
{
    if s.len() == 0 {
        0
    } else {
        release_count(s.drop_last()) + if s.last() is ReleaseReservation {
            1nat
        } else {
            0nat
        }
    }
}

pub proof fn lemma_release_count_concat(a: Seq<Effect>, b: Seq<Effect>)
    ensures
        release_count(a + b) == release_count(a) + release_count(b),
    decreases b.len(),
{
    if b.len() == 0 {
        assert(a + b =~= a);
    } else {
        lemma_release_count_concat(a, b.drop_last());
        assert((a + b).drop_last() =~= a + b.drop_last());
    }
}

pub proof fn lemma_no_release_count(s: Seq<Effect>)
    ensures
        no_release(s) <==> release_count(s) == 0,
    decreases s.len(),
{
    if s.len() > 0 {
        lemma_no_release_count(s.drop_last());
        if no_release(s) {
            assert(no_release(s.drop_last()));
        }
        if release_count(s) == 0 {
            assert forall|i: int| 0 <= i < s.len() implies !(#[trigger] s[i] is ReleaseReservation) by {
                if i < s.len() - 1 {
                    assert(s.drop_last()[i] == s[i]);
                }
            }
        }
    }
}

pub proof fn lemma_single_release_count(s: Seq<Effect>)
    requires
        single_final_release(s),
    ensures
        release_count(s) == 1,
{
    lemma_no_release_count(s.drop_last());
}

/// The state after an outcome (a reject keeps the state).
pub open spec fn next_state(s: OrderState, o: TransitionOutcome) -> OrderState {
    match o {
        TransitionOutcome::Accept { new_state, .. } => new_state,
        TransitionOutcome::Halt { new_state, .. } => new_state,
        TransitionOutcome::Reject { .. } => s,
    }
}

/// The effects of the outcomes, in order.
pub open spec fn effects_of(outs: Seq<TransitionOutcome>) -> Seq<Effect>
    decreases outs.len(),
{
    if outs.len() == 0 {
        Seq::empty()
    } else {
        effects_of(outs.drop_last()) + outcome_effects(outs.last())
    }
}

/// The reason of the last halt among the outcomes.
pub open spec fn last_halt(outs: Seq<TransitionOutcome>) -> Option<HaltReason>
    decreases outs.len(),
{
    if outs.len() == 0 {
        None
    } else if outs.last() is Halt {
        Some(outs.last()->Halt_reason)
    } else {
        last_halt(outs.drop_last())
    }
}

/// `states`, `ctxs` and `outs` are a run of single transitions over the first
/// `outs.len()` events: each step obeys [`event_post`] and moves to the next
/// state, and only the last step may be a reject.
pub open spec fn is_run(
    s0: OrderState,
    c0: OrderCtx,
    events: Seq<OrderEvent>,
    states: Seq<OrderState>,
    ctxs: Seq<OrderCtx>,
    outs: Seq<TransitionOutcome>,
) -> bool {
    &&& outs.len() <= events.len()
    &&& states.len() == outs.len() + 1
    &&& ctxs.len() == outs.len() + 1
    &&& states[0] == s0
    &&& ctxs[0] == c0
    &&& forall|i: int|
        #![trigger outs[i]]
        0 <= i < outs.len() ==> event_post(states[i], ctxs[i], events[i], ctxs[i + 1], outs[i])
            && states[i + 1] == next_state(states[i], outs[i])
    &&& forall|i: int| #![trigger outs[i]] 0 <= i < outs.len() - 1 ==> !(outs[i] is Reject)
}

/// What a replay returns for a run: the last state and context, every effect in
/// order, the reject that stopped it (if any), and the last halt reason.
pub open spec fn replay_of(
    events: Seq<OrderEvent>,
    states: Seq<OrderState>,
    ctxs: Seq<OrderCtx>,
    outs: Seq<TransitionOutcome>,
    res: ReplayResult,
) -> bool {
    &&& res.state == states.last()
    &&& res.ctx == ctxs.last()
    &&& res.effects@ == effects_of(outs)
    &&& res.halt == last_halt(outs)
    &&& res.reject == (if outs.len() > 0 && outs.last() is Reject {
        Some(outs.last()->Reject_reason)
    } else {
        None
    })
    &&& res.reject is None ==> outs.len() == events.len()
}

/// What a replay ends with.
#[derive(Debug, Clone, PartialEq, Eq)]
pub struct ReplayResult {
    pub state: OrderState,
    pub ctx: OrderCtx,
    pub effects: Vec<Effect>,
    pub reject: Option<RejectReason>,
    pub halt: Option<HaltReason>,
}

/// Fold `events` through [`apply_event`]. A reject stops the fold and is returned;
/// a halt continues in the halted state (later events meet the frozen path).
///
/// Proved here: the context only evolves; the reservation is released at most once
/// over the whole sequence (never when starting frozen), and once released or halted
/// the order stays frozen.
pub fn replay(state: OrderState, ctx: OrderCtx, events: &[OrderEvent]) -> (res: ReplayResult)
    ensures
        ctx_evolves(ctx, res.ctx),
        release_count(res.effects@) <= 1,
        is_frozen(state) ==> no_release(res.effects@),
        !no_release(res.effects@) ==> !is_frozen(state) && is_frozen(res.state),
        res.halt is Some ==> is_frozen(res.state),
        is_frozen(state) ==> is_frozen(res.state),
        exists|states: Seq<OrderState>, ctxs: Seq<OrderCtx>, outs: Seq<TransitionOutcome>|
            #![trigger is_run(state, ctx, events@, states, ctxs, outs)]
            is_run(state, ctx, events@, states, ctxs, outs) && replay_of(events@, states, ctxs, outs, res),
        events@.len() == 0 ==> res == (ReplayResult {
            state,
            ctx,
            effects: res.effects,
            reject: None,
            halt: None,
        }) && res.effects@.len() == 0,
{
    let mut st = state;
    let mut cx = ctx;
    let mut all_effects: Vec<Effect> = Vec::new();
    let mut halted: Option<HaltReason> = None;
    let ghost mut states: Seq<OrderState> = seq![state];
    let ghost mut ctxs: Seq<OrderCtx> = seq![ctx];
    let ghost mut outs: Seq<TransitionOutcome> = Seq::empty();
    proof {
        lemma_evolves_refl(ctx);
        lemma_no_release_count(all_effects@);
    }
    let mut i: usize = 0;
    while i < events.len()
        invariant
            i <= events.len(),
            ctx_evolves(ctx, cx),
            release_count(all_effects@) <= 1,
            is_frozen(state) ==> release_count(all_effects@) == 0,
            release_count(all_effects@) > 0 ==> !is_frozen(state) && is_frozen(st),
            halted is Some ==> is_frozen(st),
            is_frozen(state) ==> is_frozen(st),
            i == 0 ==> st == state && cx == ctx && all_effects@.len() == 0 && halted is None,
            outs.len() == i,
            is_run(state, ctx, events@, states, ctxs, outs),
            forall|j: int| #![trigger outs[j]] 0 <= j < outs.len() ==> !(outs[j] is Reject),
            st == states.last(),
            cx == ctxs.last(),
            all_effects@ == effects_of(outs),
            halted == last_halt(outs),
        decreases events.len() - i,
    {
        let ghost c_before = cx;
        let ghost s_before = st;
        let o = apply_event(&st, &mut cx, &events[i]);
        let ghost go = o;
        proof {
            lemma_evolves_trans(ctx, c_before, cx);
            let e = outcome_effects(o);
            lemma_no_release_count(e);
            if !no_release(e) {
                lemma_single_release_count(e);
            }
            let outs2 = outs.push(go);
            let states2 = states.push(next_state(s_before, go));
            let ctxs2 = ctxs.push(cx);
            assert(outs2.drop_last() =~= outs);
            assert(outs2.last() == go);
            assert forall|j: int| #![trigger outs2[j]] 0 <= j < outs2.len() implies event_post(
                states2[j],
                ctxs2[j],
                events@[j],
                ctxs2[j + 1],
                outs2[j],
            ) && states2[j + 1] == next_state(states2[j], outs2[j]) by {
                if j < outs.len() {
                    assert(outs2[j] == outs[j]);
                }
            }
            assert forall|j: int| #![trigger outs2[j]] 0 <= j < outs2.len() - 1 implies !(outs2[j] is Reject) by {
                assert(outs2[j] == outs[j]);
            }
            assert(is_run(state, ctx, events@, states2, ctxs2, outs2));
            outs = outs2;
            states = states2;
            ctxs = ctxs2;
        }
        match o {
            TransitionOutcome::Accept { new_state, effects } => {
                let mut effects = effects;
                let ghost e = effects@;
                let ghost prev = all_effects@;
                all_effects.append(&mut effects);
                proof {
                    lemma_release_count_concat(prev, e);
                }
                st = new_state;
            },
            TransitionOutcome::Halt { new_state, reason, effects } => {
                let mut effects = effects;
                let ghost e = effects@;
                let ghost prev = all_effects@;
                all_effects.append(&mut effects);
                proof {
                    lemma_release_count_concat(prev, e);
                }
                st = new_state;
                halted = Some(reason);
            },
            TransitionOutcome::Reject { reason } => {
                proof {
                    lemma_no_release_count(all_effects@);
                    assert(all_effects@ =~= effects_of(outs));
                    assert(is_run(state, ctx, events@, states, ctxs, outs));
                    let res = ReplayResult { state: st, ctx: cx, effects: all_effects, reject: Some(reason), halt: halted };
                    assert(replay_of(events@, states, ctxs, outs, res));
                }
                return ReplayResult { state: st, ctx: cx, effects: all_effects, reject: Some(reason), halt: halted };
            },
        }
        i = i + 1;
    }
    proof {
        lemma_no_release_count(all_effects@);
    }
    ReplayResult { state: st, ctx: cx, effects: all_effects, reject: None, halt: halted }
}

/// The run's first `n` steps replay (see [`law_run_journal_replays`]).
proof fn lemma_run_replays_upto(
    s0: OrderState,
    c0: OrderCtx,
    events: Seq<OrderEvent>,
    states: Seq<OrderState>,
    ctxs: Seq<OrderCtx>,
    outs: Seq<TransitionOutcome>,
    n: int,
)
    requires
        is_run(s0, c0, events, states, ctxs, outs),
        forall|i: int| 0 <= i < outs.len() ==> #[trigger] replay_covered(states[i], ctxs[i], events[i]),
        0 <= n <= outs.len(),
    ensures
        journaled(c0, effects_of(outs.subrange(0, n)), ctxs[n]) || exists|i: int|
            #![trigger outs[i]]
            0 <= i < n && outs[i] is Halt && replay_halts(
                c0,
                journal_of(effects_of(outs.subrange(0, n))),
                outs[i]->Halt_reason,
            ),
    decreases n,
{
    if n == 0 {
        assert(effects_of(outs.subrange(0, 0)) =~= Seq::<Effect>::empty());
        assert(journal_of(Seq::<Effect>::empty()) =~= Seq::<JournalRecord>::empty());
    } else {
        let k = n - 1;
        lemma_run_replays_upto(s0, c0, events, states, ctxs, outs, k);
        let pre = outs.subrange(0, k);
        assert(outs.subrange(0, n).drop_last() =~= pre);
        assert(outs.subrange(0, n).last() == outs[k]);
        let e1 = effects_of(pre);
        let e2 = outcome_effects(outs[k]);
        assert(effects_of(outs.subrange(0, n)) == e1 + e2);
        lemma_journal_of_concat(e1, e2);
        assert(transition_laws(states[k], ctxs[k], events[k], ctxs[k + 1], outs[k]));
        assert(replay_covered(states[k], ctxs[k], events[k]));
        if journaled(c0, e1, ctxs[k]) {
            if journaled(ctxs[k], e2, ctxs[k + 1]) {
                lemma_journaled_concat(c0, e1, ctxs[k], e2, ctxs[k + 1]);
            } else {
                lemma_replay_halts_after(c0, journal_of(e1), ctxs[k], journal_of(e2), outs[k]->Halt_reason);
            }
        } else {
            let i = choose|i: int|
                #![trigger outs[i]]
                0 <= i < k && outs[i] is Halt && replay_halts(c0, journal_of(e1), outs[i]->Halt_reason);
            lemma_replay_halts_extend(c0, journal_of(e1), journal_of(e2), outs[i]->Halt_reason);
        }
    }
}

/// Crash restart over a run: when every step of the run is covered (see
/// [`replay_covered`]), replaying the journal records of all its effects, in order,
/// from the run's first context reaches its last context, or stops with the reason
/// of one of the run's halts.
pub proof fn law_run_journal_replays(
    s0: OrderState,
    c0: OrderCtx,
    events: Seq<OrderEvent>,
    states: Seq<OrderState>,
    ctxs: Seq<OrderCtx>,
    outs: Seq<TransitionOutcome>,
)
    requires
        is_run(s0, c0, events, states, ctxs, outs),
        forall|i: int| 0 <= i < outs.len() ==> #[trigger] replay_covered(states[i], ctxs[i], events[i]),
    ensures
        journaled(c0, effects_of(outs), ctxs.last()) || exists|i: int|
            #![trigger outs[i]]
            0 <= i < outs.len() && outs[i] is Halt && replay_halts(
                c0,
                journal_of(effects_of(outs)),
                outs[i]->Halt_reason,
            ),
{
    lemma_run_replays_upto(s0, c0, events, states, ctxs, outs, outs.len() as int);
    assert(outs.subrange(0, outs.len() as int) =~= outs);
}

} // verus!
