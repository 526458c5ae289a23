use vstd::prelude::*;

use crate::event::Msg;

verus! {

/// Where the relay of one job stands.
#[derive(PartialEq, Eq, Structural, Clone, Copy, Debug)]
pub enum Phase {
    /// No terminal event has been seen: output lines pass through.
    Streaming,
    /// The first terminal event was seen, cleanup was ordered and the event
    /// passed on; everything after it is dropped.
    Finished,
}

/// What the relay asks its runner to do with the event just received.
#[derive(PartialEq, Eq, Structural, Clone, Copy, Debug)]
pub enum RelayAction {
    /// Pass the event on to the caller-facing stream.
    Forward,
    /// Tear the job down, then pass the event on and stop reading.
    CleanupThenForward,
    /// Drop the event: the job has already ended.
    Discard,
}

/// The transition of the relay on one event.
pub open spec fn step_spec(p: Phase, m: Msg) -> (Phase, RelayAction) {
    match p {
        Phase::Streaming => if m.is_terminal() {
            (Phase::Finished, RelayAction::CleanupThenForward)
        } else {
            (Phase::Streaming, RelayAction::Forward)
        },
        Phase::Finished => (Phase::Finished, RelayAction::Discard),
    }
}

/// The actions taken, from phase `p`, on the inbound events `ins` in order.
pub open spec fn actions(p: Phase, ins: Seq<Msg>) -> Seq<RelayAction>
    decreases ins.len(),
{
    if ins.len() == 0 {
        Seq::empty()
    } else {
        let (q, a) = step_spec(p, ins[0]);
        seq![a] + actions(q, ins.drop_first())
    }
}

/// How many times cleanup is ordered in `acts`.
pub open spec fn cleanup_count(acts: Seq<RelayAction>) -> nat
    decreases acts.len(),
{
    if acts.len() == 0 {
        0
    } else {
        (if acts[0] == RelayAction::CleanupThenForward { 1nat } else { 0nat })
            + cleanup_count(acts.drop_first())
    }
}

/// The events that reach the caller-facing stream: those of `ins` whose
/// action in `acts` passes them on.
pub open spec fn outbound(ins: Seq<Msg>, acts: Seq<RelayAction>) -> Seq<Msg>
    decreases ins.len(),
{
    if ins.len() == 0 || acts.len() == 0 {
        Seq::empty()
    } else {
        let rest = outbound(ins.drop_first(), acts.drop_first());
        if acts[0] == RelayAction::Discard {
            rest
        } else {
            seq![ins[0]] + rest
        }
    }
}

/// Whether some event of `s` is terminal.
pub open spec fn has_terminal(s: Seq<Msg>) -> bool
    decreases s.len(),
{
    s.len() > 0 && (s[0].is_terminal() || has_terminal(s.drop_first()))
}

/// How many events of `s` are terminal.
pub open spec fn terminal_count(s: Seq<Msg>) -> nat
    decreases s.len(),
{
    if s.len() == 0 {
        0
    } else {
        (if s[0].is_terminal() { 1nat } else { 0nat }) + terminal_count(s.drop_first())
    }
}

/// The event relay of one job: merges the reader's and the timer's events
/// into one stream that ends at the first terminal event.
pub struct Relay {
    pub phase: Phase,
}

impl Relay {
    /// A relay that has seen no event yet.
    pub fn new() -> (r: Relay)
        ensures
            r.phase == Phase::Streaming,
    {
        Relay { phase: Phase::Streaming }
    }

    /// Takes one inbound event and says what to do with it.
    pub fn step(&mut self, m: &Msg) -> (a: RelayAction)
        ensures
            (final(self).phase, a) == step_spec(old(self).phase, *m),
    {
        match self.phase {
            Phase::Streaming => if m.is_terminal() {
                self.phase = Phase::Finished;
                RelayAction::CleanupThenForward
            } else {
                RelayAction::Forward
            },
            Phase::Finished => RelayAction::Discard,
        }
    }

    /// Whether the relay has stopped reading.
    pub fn is_finished(&self) -> (r: bool)
        ensures
            r == (self.phase == Phase::Finished),
    {
        self.phase == Phase::Finished
    }
}

pub(crate) proof fn lemma_finished_discards(ins: Seq<Msg>)
    ensures
        cleanup_count(actions(Phase::Finished, ins)) == 0,
        outbound(ins, actions(Phase::Finished, ins)) == Seq::<Msg>::empty(),
    decreases ins.len(),
{
    if ins.len() > 0 {
        let acts = actions(Phase::Finished, ins);
        lemma_finished_discards(ins.drop_first());
        assert(acts.drop_first() == actions(Phase::Finished, ins.drop_first()));
    }
}

/// Cleanup is ordered exactly once for a job whose inbound events hold a
/// terminal event, and never for one whose events hold none.
pub proof fn lemma_cleanup_exactly_once(ins: Seq<Msg>)
    ensures
        cleanup_count(actions(Phase::Streaming, ins)) == (if has_terminal(ins) { 1nat } else { 0nat }),
    decreases ins.len(),
{
    if ins.len() > 0 {
        let acts = actions(Phase::Streaming, ins);
        let (q, a) = step_spec(Phase::Streaming, ins[0]);
        assert(acts.drop_first() == actions(q, ins.drop_first()));
        if ins[0].is_terminal() {
            lemma_finished_discards(ins.drop_first());
        } else {
            lemma_cleanup_exactly_once(ins.drop_first());
        }
    }
}

/// Exactly one terminal event reaches the caller-facing stream of a job whose
/// inbound events hold one, and it is the last event passed on.
pub proof fn lemma_one_terminal_delivered(ins: Seq<Msg>)
    ensures
        terminal_count(outbound(ins, actions(Phase::Streaming, ins))) == (if has_terminal(ins) { 1nat } else { 0nat }),
        has_terminal(ins) ==> outbound(ins, actions(Phase::Streaming, ins)).last().is_terminal(),
    decreases ins.len(),
{
    if ins.len() > 0 {
        let acts = actions(Phase::Streaming, ins);
        let (q, a) = step_spec(Phase::Streaming, ins[0]);
        assert(acts.drop_first() == actions(q, ins.drop_first()));
        let out = outbound(ins, acts);
        if ins[0].is_terminal() {
            lemma_finished_discards(ins.drop_first());
            assert(out == seq![ins[0]] + Seq::<Msg>::empty());
            assert(out.drop_first() =~= Seq::<Msg>::empty());
            assert(terminal_count(out.drop_first()) == 0);
            assert(out[0] == ins[0]);
        } else {
            lemma_one_terminal_delivered(ins.drop_first());
            let rest = outbound(ins.drop_first(), acts.drop_first());
            assert(out == seq![ins[0]] + rest);
            assert(out.drop_first() =~= rest);
            assert(out[0] == ins[0]);
            assert(has_terminal(ins) == has_terminal(ins.drop_first()));
            if has_terminal(ins) {
                assert(rest.len() > 0);
                assert(out.last() == rest.last());
            }
        }
    }
}

/// Since the timeout guard always fires, every job's inbound events hold a
/// terminal event: the caller then receives exactly one, never zero.
pub proof fn lemma_timer_guarantees_terminal(ins: Seq<Msg>)
    requires
        ins.contains(Msg::Timeout),
    ensures
        has_terminal(ins),
        cleanup_count(actions(Phase::Streaming, ins)) == 1,
        terminal_count(outbound(ins, actions(Phase::Streaming, ins))) == 1,
    decreases ins.len(),
{
    if !(ins[0] is Timeout) {
        let i = choose|i: int| 0 <= i < ins.len() && ins[i] == Msg::Timeout;
        assert(ins.drop_first()[i - 1] == Msg::Timeout);
        lemma_timer_guarantees_terminal(ins.drop_first());
    }
    lemma_cleanup_exactly_once(ins);
    lemma_one_terminal_delivered(ins);
}

} // verus!
