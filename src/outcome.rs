use vstd::prelude::*;
use vstd::utf8::{decode_utf8, valid_utf8};

use crate::event::Msg;
use crate::relay::{actions, cleanup_count, lemma_cleanup_exactly_once, lemma_finished_discards, outbound, has_terminal, Phase};

verus! {

/// What the caller of a job receives.
pub enum Outcome {
    /// The code ran to completion: its output lines joined by newlines.
    Success(String),
    /// The job failed; the text says why.
    ServerError(String),
    /// The job ran past its limit, given in seconds.
    TimedOut(u64),
    /// The submitted bytes were not valid UTF-8 text.
    BadRequest,
}

/// The mathematical value of an [`Outcome`].
pub enum OutcomeView {
    Success(Seq<char>),
    ServerError(Seq<char>),
    TimedOut(u64),
    BadRequest,
}

impl View for Outcome {
    type V = OutcomeView;

    open spec fn view(&self) -> OutcomeView {
        match self {
            Outcome::Success(s) => OutcomeView::Success(s@),
            Outcome::ServerError(s) => OutcomeView::ServerError(s@),
            Outcome::TimedOut(t) => OutcomeView::TimedOut(*t),
            Outcome::BadRequest => OutcomeView::BadRequest,
        }
    }
}

/// The lines `ls` joined by single newlines.
pub open spec fn join_lines(ls: Seq<Seq<char>>) -> Seq<char>
    decreases ls.len(),
{
    if ls.len() == 0 {
        Seq::empty()
    } else if ls.len() == 1 {
        ls[0]
    } else {
        join_lines(ls.drop_last()) + seq!['\n'] + ls.last()
    }
}

/// The text of each string of `v`.
pub open spec fn texts(v: Seq<String>) -> Seq<Seq<char>> {
    v.map_values(|l: String| l@)
}

/// The outcome of a stream whose output lines so far are `acc` and whose
/// remaining events are `s`: the first terminal event decides it, and a
/// stream that ends without one counts as a success.
pub open spec fn outcome_from(acc: Seq<Seq<char>>, s: Seq<Msg>, limit: u64) -> OutcomeView
    decreases s.len(),
{
    if s.len() == 0 {
        OutcomeView::Success(join_lines(acc))
    } else {
        match s[0] {
            Msg::Stdout(l) => outcome_from(acc.push(l@), s.drop_first(), limit),
            Msg::EOF => OutcomeView::Success(join_lines(acc)),
            Msg::Error(e) => OutcomeView::ServerError(e@),
            Msg::Timeout => OutcomeView::TimedOut(limit),
        }
    }
}

/// The outcome that the caller receives from the event stream `s` of a job
/// whose limit is `limit` seconds.
pub open spec fn caller_outcome(s: Seq<Msg>, limit: u64) -> OutcomeView {
    outcome_from(Seq::empty(), s, limit)
}

/// Joins the lines by single newlines.
pub fn join_lines_exec(lines: &Vec<String>) -> (r: String)
    ensures
        r@ == join_lines(texts(lines@)),
{
    let mut r = String::new();
    let mut i: usize = 0;
    while i < lines.len()
        invariant
            i <= lines.len(),
            r@ == join_lines(texts(lines@.subrange(0, i as int))),
        decreases lines.len() - i,
    {
        let ghost prev = texts(lines@.subrange(0, i as int));
        let ghost next = texts(lines@.subrange(0, i + 1));
        assert(next.drop_last() =~= prev);
        assert(next.last() == lines@[i as int]@);
        if i > 0 {
            proof {
                reveal_strlit("\n");
            }
            r.append("\n");
        } else {
            assert(prev =~= Seq::<Seq<char>>::empty());
        }
        r.append(lines[i].as_str());
        i = i + 1;
    }
    assert(lines@.subrange(0, i as int) =~= lines@);
    r
}

/// Gathers the caller-facing events of one job into its outcome.
pub struct Collector {
    pub lines: Vec<String>,
    pub limit: u64,
}

impl Collector {
    /// A collector for a job whose limit is `limit` seconds.
    pub fn new(limit: u64) -> (r: Collector)
        ensures
            r.lines@ == Seq::<String>::empty(),
            r.limit == limit,
    {
        Collector { lines: Vec::new(), limit }
    }

    /// Takes the next event: an output line is kept and gives `None`; a
    /// terminal event gives the outcome.
    pub fn accept(&mut self, m: Msg) -> (r: Option<Outcome>)
        ensures
            final(self).limit == old(self).limit,
            m is Stdout ==> r is None && final(self).lines@ == old(self).lines@.push(m->Stdout_0),
            m.is_terminal() ==> r is Some && r->0@ == outcome_from(texts(old(self).lines@), seq![m], old(self).limit),
    {
        match m {
            Msg::Stdout(l) => {
                self.lines.push(l);
                None
            },
            Msg::EOF => Some(Outcome::Success(join_lines_exec(&self.lines))),
            Msg::Error(e) => Some(Outcome::ServerError(e)),
            Msg::Timeout => Some(Outcome::TimedOut(self.limit)),
        }
    }

    /// The outcome of a stream that ended without a terminal event: a
    /// success with the lines gathered so far.
    pub fn finish(&self) -> (r: Outcome)
        ensures
            r@ == outcome_from(texts(self.lines@), Seq::empty(), self.limit),
    {
        Outcome::Success(join_lines_exec(&self.lines))
    }
}

/// The outcome that the caller receives from the event stream `msgs` of a
/// job whose limit is `limit` seconds.
pub fn outcome_of(msgs: Vec<Msg>, limit: u64) -> (r: Outcome)
    ensures
        r@ == caller_outcome(msgs@, limit),
{
    let mut c = Collector::new(limit);
    let mut rest = msgs;
    assert(texts(c.lines@) =~= Seq::<Seq<char>>::empty());
    while rest.len() > 0
        invariant
            c.limit == limit,
            outcome_from(texts(c.lines@), rest@, limit) == caller_outcome(msgs@, limit),
        decreases rest.len(),
    {
        let ghost before = rest@;
        let ghost lines_before = c.lines@;
        let m = rest.remove(0);
        assert(rest@ =~= before.drop_first());
        match c.accept(m) {
            Some(o) => {
                return o;
            },
            None => {
                assert(texts(c.lines@) =~= texts(lines_before).push(m->Stdout_0@));
            },
        }
    }
    c.finish()
}

/// Relies on std's `String::from_utf8`: it succeeds exactly when the bytes
/// are valid UTF-8, and then holds the text they encode.
#[verifier::external_body]
fn decode_text(bytes: Vec<u8>) -> (r: Option<String>)
    ensures
        r is Some <==> valid_utf8(bytes@),
        r is Some ==> r->0@ == decode_utf8(bytes@),
{
    String::from_utf8(bytes).ok()
}

/// Reads a submission: its text when the bytes are valid UTF-8, else the
/// bad-request outcome, before any job exists.
pub fn admit_request(bytes: Vec<u8>) -> (r: Result<String, Outcome>)
    ensures
        r is Ok <==> valid_utf8(bytes@),
        r is Ok ==> r->Ok_0@ == decode_utf8(bytes@),
        r is Err ==> r->Err_0@ == OutcomeView::BadRequest,
{
    match decode_text(bytes) {
        Some(code) => Ok(code),
        None => Err(Outcome::BadRequest),
    }
}

/// The events that report the output lines `ls`, in order.
pub open spec fn stdout_msgs(ls: Seq<String>) -> Seq<Msg> {
    ls.map_values(|l: String| Msg::Stdout(l))
}

proof fn lemma_relay_prefix(pre: Seq<String>, t: Msg, after: Seq<Msg>)
    requires
        t.is_terminal(),
    ensures
        ({
            let ins = stdout_msgs(pre) + seq![t] + after;
            &&& outbound(ins, actions(Phase::Streaming, ins)) == stdout_msgs(pre) + seq![t]
            &&& has_terminal(ins)
        }),
    decreases pre.len(),
{
    let ins = stdout_msgs(pre) + seq![t] + after;
    let acts = actions(Phase::Streaming, ins);
    if pre.len() == 0 {
        assert(stdout_msgs(pre) =~= Seq::<Msg>::empty());
        assert(ins[0] == t);
        assert(ins.drop_first() =~= after);
        lemma_finished_discards(after);
        assert(acts.drop_first() == actions(Phase::Finished, after));
        assert(stdout_msgs(pre) + seq![t] =~= seq![t] + Seq::<Msg>::empty());
    } else {
        let tail = pre.drop_first();
        lemma_relay_prefix(tail, t, after);
        assert(ins[0] == Msg::Stdout(pre[0]));
        assert(ins.drop_first() =~= stdout_msgs(tail) + seq![t] + after);
        assert(acts.drop_first() == actions(Phase::Streaming, ins.drop_first()));
        assert(stdout_msgs(pre) + seq![t] =~= seq![ins[0]] + (stdout_msgs(tail) + seq![t]));
    }
}

proof fn lemma_outcome_prefix(acc: Seq<Seq<char>>, pre: Seq<String>, t: Msg, limit: u64)
    requires
        t.is_terminal(),
    ensures
        outcome_from(acc, stdout_msgs(pre) + seq![t], limit)
            == outcome_from(acc + texts(pre), seq![t], limit),
    decreases pre.len(),
{
    let s = stdout_msgs(pre) + seq![t];
    if pre.len() == 0 {
        assert(s =~= seq![t]);
        assert(acc + texts(pre) =~= acc);
    } else {
        let tail = pre.drop_first();
        lemma_outcome_prefix(acc.push(pre[0]@), tail, t, limit);
        assert(s[0] == Msg::Stdout(pre[0]));
        assert(s.drop_first() =~= stdout_msgs(tail) + seq![t]);
        assert(acc.push(pre[0]@) + texts(tail) =~= acc + texts(pre));
    }
}

/// A job whose code prints the lines `lines` and exits cleanly before the
/// timer fires is torn down once, and its caller receives every line,
/// joined by newlines, as a success; whatever arrives later is dropped.
pub proof fn lemma_clean_run_succeeds(lines: Seq<String>, later: Seq<Msg>, limit: u64)
    ensures
        ({
            let ins = stdout_msgs(lines) + seq![Msg::EOF] + later;
            &&& cleanup_count(actions(Phase::Streaming, ins)) == 1
            &&& caller_outcome(outbound(ins, actions(Phase::Streaming, ins)), limit)
                == OutcomeView::Success(join_lines(texts(lines)))
        }),
{
    let ins = stdout_msgs(lines) + seq![Msg::EOF] + later;
    lemma_relay_prefix(lines, Msg::EOF, later);
    lemma_cleanup_exactly_once(ins);
    lemma_outcome_prefix(Seq::empty(), lines, Msg::EOF, limit);
    assert(Seq::<Seq<char>>::empty() + texts(lines) =~= texts(lines));
}

/// A job whose timer fires before its code has finished is torn down once,
/// and its caller receives the timeout outcome naming the limit, not a
/// success, whatever output came before.
pub proof fn lemma_overrun_times_out(lines: Seq<String>, later: Seq<Msg>, limit: u64)
    ensures
        ({
            let ins = stdout_msgs(lines) + seq![Msg::Timeout] + later;
            &&& cleanup_count(actions(Phase::Streaming, ins)) == 1
            &&& caller_outcome(outbound(ins, actions(Phase::Streaming, ins)), limit)
                == OutcomeView::TimedOut(limit)
        }),
{
    let ins = stdout_msgs(lines) + seq![Msg::Timeout] + later;
    lemma_relay_prefix(lines, Msg::Timeout, later);
    lemma_cleanup_exactly_once(ins);
    lemma_outcome_prefix(Seq::empty(), lines, Msg::Timeout, limit);
}

} // verus!
