//! The query racer's decision logic.
//!
//! Two protocol queries run outside the library; the racer is the pure state
//! machine that the polling loop drives.  Each poll hands it one observation
//! — still pending, or one query finished with its outcome — and the racer
//! answers with the next state and the action to perform.  Whichever query
//! finishes first decides the primary render; the other is awaited only as a
//! fallback after a failure, and once a render is committed nothing further
//! is ever rendered.  The twenty-second bound (two hundred polls at a tenth
//! of a second) is advisory: it asks for a warning and keeps waiting.

use vstd::prelude::*;

use crate::status::{BedrockStatus, JavaStatus};

verus! {

/// Which queries the racer still waits on.
#[derive(Clone, Copy, Debug, PartialEq, Eq, Structural)]
pub enum RacePhase {
    /// Both queries outstanding.
    BothPending,
    /// Bedrock failed; only Java is awaited.
    AwaitJava,
    /// Java failed; only Bedrock is awaited.
    AwaitBedrock,
    /// A render or the final failure is committed.
    Done,
}

/// The racer's state: the phase and how many polls the current wait has
/// seen.
#[derive(Clone, Copy, Debug, PartialEq, Eq, Structural)]
pub struct RaceState {
    pub phase: RacePhase,
    pub ticks: u64,
}

/// One observation handed to the racer: nothing finished yet, or one query
/// finished, successfully or not.  When both are seen finished at once, the
/// loop reports Bedrock first.
pub enum RaceEvent {
    Pending,
    JavaDone(Option<JavaStatus>),
    BedrockDone(Option<BedrockStatus>),
}

/// What the loop must do next.
pub enum RaceAction {
    /// Sleep one poll interval and observe again.
    Wait,
    /// Print the advisory timeout warning, then as `Wait`.
    WarnTimeout,
    /// Render the Java result; the race is over.
    ShowJava(JavaStatus),
    /// Render the Bedrock result; the race is over.
    ShowBedrock(BedrockStatus),
    /// Report the final failure; the race is over.
    Fail,
}

/// The state a race starts in.
pub open spec fn initial_race_state() -> RaceState {
    RaceState { phase: RacePhase::BothPending, ticks: 0 }
}

/// How many polls make the advisory timeout.
pub open spec fn warn_polls() -> u64 {
    200
}

/// One more poll, staying put at the counter's top.
pub open spec fn tick_inc(t: u64) -> u64 {
    if t == u64::MAX {
        t
    } else {
        (t + 1) as u64
    }
}

/// The racer's whole transition table.
pub open spec fn race_step_spec(s: RaceState, e: RaceEvent) -> (RaceState, RaceAction) {
    match s.phase {
        RacePhase::BothPending => match e {
            RaceEvent::Pending => (
                RaceState { phase: RacePhase::BothPending, ticks: tick_inc(s.ticks) },
                if s.ticks >= warn_polls() {
                    RaceAction::WarnTimeout
                } else {
                    RaceAction::Wait
                },
            ),
            RaceEvent::BedrockDone(Some(b)) => (
                RaceState { phase: RacePhase::Done, ticks: s.ticks },
                RaceAction::ShowBedrock(b),
            ),
            RaceEvent::BedrockDone(None) => (
                RaceState { phase: RacePhase::AwaitJava, ticks: 0 },
                RaceAction::Wait,
            ),
            RaceEvent::JavaDone(Some(j)) => (
                RaceState { phase: RacePhase::Done, ticks: s.ticks },
                RaceAction::ShowJava(j),
            ),
            RaceEvent::JavaDone(None) => (
                RaceState { phase: RacePhase::AwaitBedrock, ticks: 0 },
                RaceAction::Wait,
            ),
        },
        RacePhase::AwaitJava => match e {
            RaceEvent::Pending => (
                RaceState { phase: RacePhase::AwaitJava, ticks: tick_inc(s.ticks) },
                if s.ticks >= warn_polls() {
                    RaceAction::WarnTimeout
                } else {
                    RaceAction::Wait
                },
            ),
            RaceEvent::JavaDone(Some(j)) => (
                RaceState { phase: RacePhase::Done, ticks: s.ticks },
                RaceAction::ShowJava(j),
            ),
            RaceEvent::JavaDone(None) => (
                RaceState { phase: RacePhase::Done, ticks: s.ticks },
                RaceAction::Fail,
            ),
            RaceEvent::BedrockDone(_) => (s, RaceAction::Wait),
        },
        RacePhase::AwaitBedrock => match e {
            RaceEvent::Pending => (
                RaceState { phase: RacePhase::AwaitBedrock, ticks: tick_inc(s.ticks) },
                if s.ticks >= warn_polls() {
                    RaceAction::WarnTimeout
                } else {
                    RaceAction::Wait
                },
            ),
            RaceEvent::BedrockDone(Some(b)) => (
                RaceState { phase: RacePhase::Done, ticks: s.ticks },
                RaceAction::ShowBedrock(b),
            ),
            RaceEvent::BedrockDone(None) => (
                RaceState { phase: RacePhase::Done, ticks: s.ticks },
                RaceAction::Fail,
            ),
            RaceEvent::JavaDone(_) => (s, RaceAction::Wait),
        },
        RacePhase::Done => (s, RaceAction::Wait),
    }
}

/// Builds the state a race starts in.
pub fn initial_race() -> (r: RaceState)
    ensures
        r == initial_race_state(),
{
    RaceState { phase: RacePhase::BothPending, ticks: 0 }
}

/// Takes one racer step: the next state and the action for this poll.
pub fn race_step(s: RaceState, e: RaceEvent) -> (r: (RaceState, RaceAction))
    ensures
        r == race_step_spec(s, e),
{
    match s.phase {
        RacePhase::BothPending => match e {
            RaceEvent::Pending => {
                let warn = s.ticks >= 200;
                let t = if s.ticks == u64::MAX {
                    s.ticks
                } else {
                    s.ticks + 1
                };
                (
                    RaceState { phase: RacePhase::BothPending, ticks: t },
                    if warn {
                        RaceAction::WarnTimeout
                    } else {
                        RaceAction::Wait
                    },
                )
            },
            RaceEvent::BedrockDone(Some(b)) => (
                RaceState { phase: RacePhase::Done, ticks: s.ticks },
                RaceAction::ShowBedrock(b),
            ),
            RaceEvent::BedrockDone(None) => (
                RaceState { phase: RacePhase::AwaitJava, ticks: 0 },
                RaceAction::Wait,
            ),
            RaceEvent::JavaDone(Some(j)) => (
                RaceState { phase: RacePhase::Done, ticks: s.ticks },
                RaceAction::ShowJava(j),
            ),
            RaceEvent::JavaDone(None) => (
                RaceState { phase: RacePhase::AwaitBedrock, ticks: 0 },
                RaceAction::Wait,
            ),
        },
        RacePhase::AwaitJava => match e {
            RaceEvent::Pending => {
                let warn = s.ticks >= 200;
                let t = if s.ticks == u64::MAX {
                    s.ticks
                } else {
                    s.ticks + 1
                };
                (
                    RaceState { phase: RacePhase::AwaitJava, ticks: t },
                    if warn {
                        RaceAction::WarnTimeout
                    } else {
                        RaceAction::Wait
                    },
                )
            },
            RaceEvent::JavaDone(Some(j)) => (
                RaceState { phase: RacePhase::Done, ticks: s.ticks },
                RaceAction::ShowJava(j),
            ),
            RaceEvent::JavaDone(None) => (
                RaceState { phase: RacePhase::Done, ticks: s.ticks },
                RaceAction::Fail,
            ),
            RaceEvent::BedrockDone(_) => (s, RaceAction::Wait),
        },
        RacePhase::AwaitBedrock => match e {
            RaceEvent::Pending => {
                let warn = s.ticks >= 200;
                let t = if s.ticks == u64::MAX {
                    s.ticks
                } else {
                    s.ticks + 1
                };
                (
                    RaceState { phase: RacePhase::AwaitBedrock, ticks: t },
                    if warn {
                        RaceAction::WarnTimeout
                    } else {
                        RaceAction::Wait
                    },
                )
            },
            RaceEvent::BedrockDone(Some(b)) => (
                RaceState { phase: RacePhase::Done, ticks: s.ticks },
                RaceAction::ShowBedrock(b),
            ),
            RaceEvent::BedrockDone(None) => (
                RaceState { phase: RacePhase::Done, ticks: s.ticks },
                RaceAction::Fail,
            ),
            RaceEvent::JavaDone(_) => (s, RaceAction::Wait),
        },
        RacePhase::Done => (s, RaceAction::Wait),
    }
}

// ---------------------------------------------------------------------------
// Whole runs of the race
// ---------------------------------------------------------------------------

/// The actions a run over the given observations emits, in order.
pub open spec fn race_run(s: RaceState, evs: Seq<RaceEvent>) -> Seq<RaceAction>
    decreases evs.len(),
{
    if evs.len() == 0 {
        Seq::empty()
    } else {
        let (s2, a) = race_step_spec(s, evs[0]);
        seq![a] + race_run(s2, evs.skip(1))
    }
}

/// The state a run over the given observations ends in.
pub open spec fn race_run_state(s: RaceState, evs: Seq<RaceEvent>) -> RaceState
    decreases evs.len(),
{
    if evs.len() == 0 {
        s
    } else {
        race_run_state(race_step_spec(s, evs[0]).0, evs.skip(1))
    }
}

/// An action that renders a result.
pub open spec fn is_render(a: RaceAction) -> bool {
    a is ShowJava || a is ShowBedrock
}

/// The rendering actions of a run, in order.
pub open spec fn renders(actions: Seq<RaceAction>) -> Seq<RaceAction>
    decreases actions.len(),
{
    if actions.len() == 0 {
        Seq::empty()
    } else if is_render(actions[0]) {
        seq![actions[0]] + renders(actions.skip(1))
    } else {
        renders(actions.skip(1))
    }
}

/// Every observation still pending.
pub open spec fn all_pending(evs: Seq<RaceEvent>) -> bool {
    forall|i: int| 0 <= i < evs.len() ==> evs[i] is Pending
}

/// A run splits at any point: the actions of the whole are the actions of
/// the first part followed by those of the rest, run from where the first
/// part ended.
pub proof fn lemma_race_run_append(s: RaceState, evs1: Seq<RaceEvent>, evs2: Seq<RaceEvent>)
    ensures
        race_run(s, evs1 + evs2) == race_run(s, evs1) + race_run(race_run_state(s, evs1), evs2),
        race_run_state(s, evs1 + evs2) == race_run_state(race_run_state(s, evs1), evs2),
    decreases evs1.len(),
{
    if evs1.len() == 0 {
        assert(evs1 + evs2 =~= evs2);
        assert(race_run(s, evs1) + race_run(race_run_state(s, evs1), evs2) =~= race_run(s, evs2));
    } else {
        let (s2, a) = race_step_spec(s, evs1[0]);
        lemma_race_run_append(s2, evs1.skip(1), evs2);
        assert((evs1 + evs2)[0] == evs1[0]);
        assert((evs1 + evs2).skip(1) =~= evs1.skip(1) + evs2);
        assert(seq![a] + (race_run(s2, evs1.skip(1)) + race_run(
            race_run_state(s2, evs1.skip(1)),
            evs2,
        )) =~= (seq![a] + race_run(s2, evs1.skip(1))) + race_run(
            race_run_state(s2, evs1.skip(1)),
            evs2,
        ));
    }
}

/// `renders` splits over concatenation.
pub proof fn lemma_renders_append(a: Seq<RaceAction>, b: Seq<RaceAction>)
    ensures
        renders(a + b) == renders(a) + renders(b),
    decreases a.len(),
{
    if a.len() == 0 {
        assert(a + b =~= b);
        assert(renders(a) + renders(b) =~= renders(b));
    } else {
        lemma_renders_append(a.skip(1), b);
        assert((a + b)[0] == a[0]);
        assert((a + b).skip(1) =~= a.skip(1) + b);
        if is_render(a[0]) {
            assert(seq![a[0]] + (renders(a.skip(1)) + renders(b)) =~= (seq![a[0]] + renders(
                a.skip(1),
            )) + renders(b));
        }
    }
}

/// What `renders` makes of a single action.
pub proof fn lemma_renders_single(a: RaceAction)
    ensures
        renders(seq![a]) == if is_render(a) {
            seq![a]
        } else {
            Seq::<RaceAction>::empty()
        },
{
    assert(seq![a].skip(1) =~= Seq::<RaceAction>::empty());
    assert(renders(Seq::<RaceAction>::empty()) == Seq::<RaceAction>::empty());
    if is_render(a) {
        assert(renders(seq![a]) =~= seq![a]);
    }
}

/// Pending observations keep the phase, and render nothing.
pub proof fn lemma_pending_run(s: RaceState, evs: Seq<RaceEvent>)
    requires
        all_pending(evs),
    ensures
        race_run_state(s, evs).phase == s.phase,
        renders(race_run(s, evs)) == Seq::<RaceAction>::empty(),
    decreases evs.len(),
{
    if evs.len() > 0 {
        assert(evs[0] is Pending);
        let (s2, a) = race_step_spec(s, evs[0]);
        assert(s2.phase == s.phase);
        assert(!is_render(a));
        assert(forall|i: int| 0 <= i < evs.skip(1).len() ==> evs.skip(1)[i] == evs[i + 1]);
        lemma_pending_run(s2, evs.skip(1));
        assert(race_run(s, evs) == seq![a] + race_run(s2, evs.skip(1)));
        lemma_renders_append(seq![a], race_run(s2, evs.skip(1)));
        lemma_renders_single(a);
        assert(renders(race_run(s, evs)) =~= Seq::<RaceAction>::empty());
    }
}

/// Once the race is decided, nothing is ever rendered again.
pub proof fn lemma_done_renders_nothing(s: RaceState, evs: Seq<RaceEvent>)
    requires
        s.phase is Done,
    ensures
        renders(race_run(s, evs)) == Seq::<RaceAction>::empty(),
    decreases evs.len(),
{
    if evs.len() > 0 {
        let (s2, a) = race_step_spec(s, evs[0]);
        assert(s2 == s);
        assert(!is_render(a));
        lemma_done_renders_nothing(s2, evs.skip(1));
        assert(race_run(s, evs) == seq![a] + race_run(s2, evs.skip(1)));
        lemma_renders_append(seq![a], race_run(s2, evs.skip(1)));
        lemma_renders_single(a);
        assert(renders(race_run(s, evs)) =~= Seq::<RaceAction>::empty());
    }
}

/// When Bedrock reports success while Java is still unresolved, the run
/// renders the Bedrock result and nothing else — whatever the Java query
/// later does.
pub proof fn lemma_bedrock_first_wins(
    pend: Seq<RaceEvent>,
    b: BedrockStatus,
    rest: Seq<RaceEvent>,
)
    requires
        all_pending(pend),
    ensures
        renders(
            race_run(
                initial_race_state(),
                pend + seq![RaceEvent::BedrockDone(Some(b))] + rest,
            ),
        ) == seq![RaceAction::ShowBedrock(b)],
{
    let s0 = initial_race_state();
    let mid = seq![RaceEvent::BedrockDone(Some(b))] + rest;
    assert(pend + seq![RaceEvent::BedrockDone(Some(b))] + rest =~= pend + mid);
    lemma_race_run_append(s0, pend, mid);
    lemma_renders_append(race_run(s0, pend), race_run(race_run_state(s0, pend), mid));
    lemma_pending_run(s0, pend);
    let s1 = race_run_state(s0, pend);
    assert(s1.phase is BothPending);
    let (s2, a) = race_step_spec(s1, RaceEvent::BedrockDone(Some(b)));
    assert(a == RaceAction::ShowBedrock(b));
    assert(s2.phase is Done);
    assert(mid[0] == RaceEvent::BedrockDone(Some(b)));
    assert(mid.skip(1) =~= rest);
    lemma_done_renders_nothing(s2, rest);
    assert(race_run(s1, mid) == seq![a] + race_run(s2, rest));
    lemma_renders_append(seq![a], race_run(s2, rest));
    lemma_renders_single(a);
    assert(renders(race_run(s0, pend + mid)) =~= seq![RaceAction::ShowBedrock(b)]);
}

/// When Bedrock fails first and Java later succeeds, the run renders the
/// Java result and nothing else.
pub proof fn lemma_bedrock_fails_java_wins(
    pend1: Seq<RaceEvent>,
    pend2: Seq<RaceEvent>,
    j: JavaStatus,
    rest: Seq<RaceEvent>,
)
    requires
        all_pending(pend1),
        all_pending(pend2),
    ensures
        renders(
            race_run(
                initial_race_state(),
                pend1 + seq![RaceEvent::BedrockDone(None)] + pend2 + seq![
                    RaceEvent::JavaDone(Some(j)),
                ] + rest,
            ),
        ) == seq![RaceAction::ShowJava(j)],
{
    let s0 = initial_race_state();
    let evs = pend1 + seq![RaceEvent::BedrockDone(None)] + pend2 + seq![
        RaceEvent::JavaDone(Some(j)),
    ] + rest;
    let mid = seq![RaceEvent::BedrockDone(None)] + (pend2 + (seq![
        RaceEvent::JavaDone(Some(j)),
    ] + rest));
    assert(evs =~= pend1 + mid);
    lemma_race_run_append(s0, pend1, mid);
    lemma_renders_append(race_run(s0, pend1), race_run(race_run_state(s0, pend1), mid));
    lemma_pending_run(s0, pend1);
    let s1 = race_run_state(s0, pend1);
    assert(s1.phase is BothPending);
    let (s2, a1) = race_step_spec(s1, RaceEvent::BedrockDone(None));
    assert(s2.phase is AwaitJava);
    assert(!is_render(a1));
    assert(mid[0] == RaceEvent::BedrockDone(None));
    assert(mid.skip(1) =~= pend2 + (seq![RaceEvent::JavaDone(Some(j))] + rest));
    assert(race_run(s1, mid) == seq![a1] + race_run(s2, pend2 + (seq![
        RaceEvent::JavaDone(Some(j)),
    ] + rest)));
    lemma_race_run_append(s2, pend2, seq![RaceEvent::JavaDone(Some(j))] + rest);
    lemma_pending_run(s2, pend2);
    let s3 = race_run_state(s2, pend2);
    assert(s3.phase is AwaitJava);
    let (s4, a2) = race_step_spec(s3, RaceEvent::JavaDone(Some(j)));
    assert(a2 == RaceAction::ShowJava(j));
    assert(s4.phase is Done);
    let tail = seq![RaceEvent::JavaDone(Some(j))] + rest;
    assert(tail[0] == RaceEvent::JavaDone(Some(j)));
    assert(tail.skip(1) =~= rest);
    lemma_done_renders_nothing(s4, rest);
    assert(race_run(s3, tail) == seq![a2] + race_run(s4, rest));
    lemma_renders_append(seq![a1], race_run(s2, pend2 + tail));
    lemma_renders_append(race_run(s2, pend2), race_run(s3, tail));
    lemma_renders_append(seq![a2], race_run(s4, rest));
    lemma_renders_single(a1);
    lemma_renders_single(a2);
    assert(renders(race_run(s0, evs)) =~= seq![RaceAction::ShowJava(j)]);
}

} // verus!
