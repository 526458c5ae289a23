use vstd::prelude::*;

verus! {

/// The steps that bring a job from its arrival to a running instance.
#[derive(PartialEq, Eq, Structural, Clone, Copy, Debug)]
pub enum Stage {
    /// Create the workspace directory.
    CreateWorkspace,
    /// Write the build descriptor into the workspace.
    WriteDescriptor,
    /// Write the submitted code into the workspace.
    WriteScript,
    /// Have the engine build the image.
    Build,
    /// Have the engine start an instance.
    Run,
    /// The instance runs; its events go to the relay.
    Streaming,
    /// A step failed: the job ends here.
    Aborted,
}

/// Whether the stage hands work to the isolation engine.
pub open spec fn uses_engine(s: Stage) -> bool {
    s == Stage::Build || s == Stage::Run
}

/// The stage after `s`, given whether its work succeeded.
pub open spec fn next_stage_spec(s: Stage, ok: bool) -> Stage {
    match s {
        Stage::Streaming => Stage::Streaming,
        Stage::Aborted => Stage::Aborted,
        _ => if !ok {
            Stage::Aborted
        } else {
            match s {
                Stage::CreateWorkspace => Stage::WriteDescriptor,
                Stage::WriteDescriptor => Stage::WriteScript,
                Stage::WriteScript => Stage::Build,
                Stage::Build => Stage::Run,
                _ => Stage::Streaming,
            }
        },
    }
}

/// The stages entered from `s` as the results `oks` come in, one per step.
pub open spec fn stages_from(s: Stage, oks: Seq<bool>) -> Seq<Stage>
    decreases oks.len(),
{
    if oks.len() == 0 {
        Seq::empty()
    } else {
        let n = next_stage_spec(s, oks[0]);
        seq![n] + stages_from(n, oks.drop_first())
    }
}

/// Where the setup of one job stands.
pub struct Setup {
    pub stage: Stage,
}

impl Setup {
    /// The setup of a job that has just arrived.
    pub fn new() -> (r: Setup)
        ensures
            r.stage == Stage::CreateWorkspace,
    {
        Setup { stage: Stage::CreateWorkspace }
    }

    /// Records the result of the current stage's work and moves on.
    pub fn advance(&mut self, ok: bool) -> (r: Stage)
        ensures
            r == final(self).stage,
            final(self).stage == next_stage_spec(old(self).stage, ok),
    {
        let n = match self.stage {
            Stage::Streaming => Stage::Streaming,
            Stage::Aborted => Stage::Aborted,
            Stage::CreateWorkspace => if ok { Stage::WriteDescriptor } else { Stage::Aborted },
            Stage::WriteDescriptor => if ok { Stage::WriteScript } else { Stage::Aborted },
            Stage::WriteScript => if ok { Stage::Build } else { Stage::Aborted },
            Stage::Build => if ok { Stage::Run } else { Stage::Aborted },
            Stage::Run => if ok { Stage::Streaming } else { Stage::Aborted },
        };
        self.stage = n;
        n
    }
}

proof fn lemma_stages_len(s: Stage, oks: Seq<bool>)
    ensures
        stages_from(s, oks).len() == oks.len(),
    decreases oks.len(),
{
    if oks.len() > 0 {
        lemma_stages_len(next_stage_spec(s, oks[0]), oks.drop_first());
    }
}

proof fn lemma_aborted_stays(oks: Seq<bool>)
    ensures
        forall|i: int| 0 <= i < oks.len() ==> #[trigger] stages_from(Stage::Aborted, oks)[i] == Stage::Aborted,
    decreases oks.len(),
{
    if oks.len() > 0 {
        lemma_aborted_stays(oks.drop_first());
        lemma_stages_len(Stage::Aborted, oks.drop_first());
        let st = stages_from(Stage::Aborted, oks);
        assert forall|i: int| 0 <= i < oks.len() implies #[trigger] st[i] == Stage::Aborted by {
            if i > 0 {
                assert(st[i] == stages_from(Stage::Aborted, oks.drop_first())[i - 1]);
            }
        }
    }
}

/// A job whose workspace could not be created aborts, and the engine is
/// never asked to build or run anything for it, whatever follows.
pub proof fn lemma_failed_workspace_skips_engine(oks: Seq<bool>)
    requires
        oks.len() > 0,
        !oks[0],
    ensures
        stages_from(Stage::CreateWorkspace, oks)[0] == Stage::Aborted,
        forall|i: int| 0 <= i < oks.len() ==> !uses_engine(#[trigger] stages_from(Stage::CreateWorkspace, oks)[i]),
{
    let st = stages_from(Stage::CreateWorkspace, oks);
    lemma_aborted_stays(oks.drop_first());
    lemma_stages_len(Stage::Aborted, oks.drop_first());
    assert forall|i: int| 0 <= i < oks.len() implies !uses_engine(#[trigger] st[i]) by {
        if i > 0 {
            assert(st[i] == stages_from(Stage::Aborted, oks.drop_first())[i - 1]);
        }
    }
}

} // verus!
