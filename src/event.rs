use vstd::prelude::*;

verus! {

/// One event of a running job, as produced by the output reader or the
/// timeout guard.
pub enum Msg {
    /// A line of the instance's standard output.
    Stdout(String),
    /// The instance's output ended and its process exited.
    EOF,
    /// The job failed; the text says why.
    Error(String),
    /// The configured wall-clock limit passed.
    Timeout,
}

impl Msg {
    /// Whether the event ends the job.
    pub open spec fn is_terminal_spec(&self) -> bool {
        !(self is Stdout)
    }

    /// Whether the event ends the job: every variant but an output line.
    #[verifier::when_used_as_spec(is_terminal_spec)]
    pub fn is_terminal(&self) -> (r: bool)
        ensures
            r == self.is_terminal_spec(),
    {
        match self {
            Msg::Stdout(_) => false,
            _ => true,
        }
    }
}

/// The event for one line read from the instance's output: the line itself,
/// or a failure with the reason it could not be read as text.
pub fn line_event(line: Result<String, String>) -> (m: Msg)
    ensures
        line is Ok ==> m == Msg::Stdout(line->Ok_0),
        line is Err ==> m == Msg::Error(line->Err_0),
{
    match line {
        Ok(l) => Msg::Stdout(l),
        Err(reason) => Msg::Error(reason),
    }
}

/// The event once the output has ended, from the result of waiting for the
/// instance's process: the end of output, or a failure with the reason the
/// exit could not be confirmed.
pub fn exit_event(waited: Result<(), String>) -> (m: Msg)
    ensures
        waited is Ok ==> m == Msg::EOF,
        waited is Err ==> m == Msg::Error(waited->Err_0),
{
    match waited {
        Ok(()) => Msg::EOF,
        Err(reason) => Msg::Error(reason),
    }
}

} // verus!
