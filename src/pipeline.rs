//! The run of a project's generators in their fixed order, stopping at the
//! first failure.
//!
//! The pipeline decides; its caller does the work. The caller asks for the
//! current artifact, generates and writes it, and records the outcome.
use vstd::prelude::*;
use crate::config::ProjectType;
use crate::generator::{ArtifactKind, GenerationError};

verus! {

#[derive(Debug, Clone, PartialEq, Eq)]
pub enum PipelineState {
    /// Not started.
    Pending,
    /// The generator at this position of the order is due.
    Running(usize),
    /// A generator failed; none after it runs.
    Failed(GenerationError),
    /// Every generator succeeded.
    Done,
}

/// A run of the generators of one project family.
#[derive(Debug, Clone, PartialEq, Eq)]
pub struct Pipeline {
    pub family: ProjectType,
    pub stages: Vec<ArtifactKind>,
    pub state: PipelineState,
}

/// The generators of `family`, in the order they run.
pub open spec fn stage_order(family: ProjectType) -> Seq<ArtifactKind> {
    let common = seq![
        ArtifactKind::BuildFile,
        ArtifactKind::ComposeFile,
        ArtifactKind::CiPipeline,
        ArtifactKind::DeploymentPlaybook,
    ];
    match family {
        ProjectType::Dotnet => common,
        ProjectType::Angular => common.push(ArtifactKind::ReverseProxyConfig),
    }
}

/// The state after starting, from `s`, a run of `n` generators.
pub open spec fn start_state(s: PipelineState, n: nat) -> PipelineState {
    match s {
        PipelineState::Pending => if n == 0 {
            PipelineState::Done
        } else {
            PipelineState::Running(0)
        },
        _ => s,
    }
}

/// The state after recording `outcome` in `s`, in a run of `n` generators.
/// Outside a running state nothing changes.
pub open spec fn next_state(s: PipelineState, n: nat, outcome: Result<(), GenerationError>) -> PipelineState {
    match s {
        PipelineState::Running(i) => match outcome {
            Err(e) => PipelineState::Failed(e),
            Ok(()) => if i + 1 < n {
                PipelineState::Running((i + 1) as usize)
            } else {
                PipelineState::Done
            },
        },
        _ => s,
    }
}

/// The state after recording each of `outcomes[..k]` in turn.
pub open spec fn after_outcomes(
    s: PipelineState,
    n: nat,
    outcomes: Seq<Result<(), GenerationError>>,
    k: int,
) -> PipelineState
    decreases k,
{
    if k <= 0 {
        s
    } else {
        next_state(after_outcomes(s, n, outcomes, k - 1), n, outcomes[k - 1])
    }
}

/// The artifact due in `s`, if any.
pub open spec fn due(s: PipelineState, stages: Seq<ArtifactKind>) -> Option<ArtifactKind> {
    match s {
        PipelineState::Running(i) => if i < stages.len() {
            Some(stages[i as int])
        } else {
            None
        },
        _ => None,
    }
}

impl Pipeline {
    /// The pipeline is well formed: its stages are its family's order and a
    /// running state points into them.
    pub open spec fn wf(&self) -> bool {
        &&& self.stages@ == stage_order(self.family)
        &&& self.state matches PipelineState::Running(i) ==> i < self.stages.len()
    }

    /// A pending run of the generators of `family`.
    pub fn new(family: ProjectType) -> (r: Pipeline)
        ensures
            r.wf(),
            r.family == family,
            r.state == PipelineState::Pending,
    {
        let mut stages: Vec<ArtifactKind> = Vec::new();
        stages.push(ArtifactKind::BuildFile);
        stages.push(ArtifactKind::ComposeFile);
        stages.push(ArtifactKind::CiPipeline);
        stages.push(ArtifactKind::DeploymentPlaybook);
        if family == ProjectType::Angular {
            stages.push(ArtifactKind::ReverseProxyConfig);
        }
        assert(stages@ =~= stage_order(family));
        Pipeline { family, stages, state: PipelineState::Pending }
    }

    /// Starts a pending run; the first generator becomes due.
    pub fn start(&mut self)
        requires
            old(self).wf(),
        ensures
            final(self).wf(),
            final(self).family == old(self).family,
            final(self).stages == old(self).stages,
            final(self).state == start_state(old(self).state, old(self).stages.len() as nat),
    {
        if let PipelineState::Pending = self.state {
            if self.stages.len() == 0 {
                self.state = PipelineState::Done;
            } else {
                self.state = PipelineState::Running(0);
            }
        }
    }

    /// The artifact whose generator is due, or `None` once the run is over.
    pub fn current(&self) -> (r: Option<ArtifactKind>)
        requires
            self.wf(),
        ensures
            r == due(self.state, self.stages@),
    {
        match &self.state {
            PipelineState::Running(i) => Some(self.stages[*i]),
            _ => None,
        }
    }

    /// Records how the due generator went: success makes the next one due or
    /// ends the run, failure ends it at once.
    pub fn record(&mut self, outcome: Result<(), GenerationError>)
        requires
            old(self).wf(),
        ensures
            final(self).wf(),
            final(self).family == old(self).family,
            final(self).stages == old(self).stages,
            final(self).state == next_state(old(self).state, old(self).stages.len() as nat, outcome),
    {
        if let PipelineState::Running(i) = self.state {
            match outcome {
                Err(e) => {
                    self.state = PipelineState::Failed(e);
                },
                Ok(()) => {
                    if i + 1 < self.stages.len() {
                        self.state = PipelineState::Running(i + 1);
                    } else {
                        self.state = PipelineState::Done;
                    }
                },
            }
        }
    }

    /// Whether every generator succeeded.
    pub fn is_done(&self) -> (r: bool)
        ensures
            r == (self.state == PipelineState::Done),
    {
        match self.state {
            PipelineState::Done => true,
            _ => false,
        }
    }

    /// The failure that ended the run, if one did.
    pub fn failure(&self) -> (r: Option<&GenerationError>)
        ensures
            match self.state {
                PipelineState::Failed(e) => r == Some(&e),
                _ => r is None,
            },
    {
        match &self.state {
            PipelineState::Failed(e) => Some(e),
            _ => None,
        }
    }
}

/// Fail-fast: once the generator at position `i` fails, the run stays failed
/// with that error whatever is recorded afterwards, and no later generator is
/// ever due, so none runs and nothing of theirs is written or backed up.
pub proof fn lemma_fail_fast(
    family: ProjectType,
    i: usize,
    e: GenerationError,
    later: Seq<Result<(), GenerationError>>,
    k: int,
)
    requires
        i < stage_order(family).len(),
        0 <= k <= later.len(),
    ensures
        ({
            let n = stage_order(family).len() as nat;
            let failed = next_state(PipelineState::Running(i), n, Err(e));
            &&& failed == PipelineState::Failed(e)
            &&& after_outcomes(failed, n, later, k) == PipelineState::Failed(e)
            &&& due(after_outcomes(failed, n, later, k), stage_order(family)) is None
        }),
    decreases k,
{
    if k > 0 {
        lemma_fail_fast(family, i, e, later, k - 1);
    }
}

/// Generators run in their declared order: while every one succeeds, after
/// `k` successes the generator at position `k` is due, and after all of them
/// the run is done.
pub proof fn lemma_runs_in_order(family: ProjectType, successes: Seq<Result<(), GenerationError>>, k: int)
    requires
        0 <= k <= successes.len(),
        k <= stage_order(family).len(),
        forall|j: int| 0 <= j < successes.len() ==> #[trigger] successes[j] is Ok,
    ensures
        ({
            let stages = stage_order(family);
            let n = stages.len() as nat;
            let s = after_outcomes(start_state(PipelineState::Pending, n), n, successes, k);
            &&& k < n ==> s == PipelineState::Running(k as usize) && due(s, stages) == Some(stages[k])
            &&& k == n ==> s == PipelineState::Done
        }),
    decreases k,
{
    let stages = stage_order(family);
    let n = stages.len() as nat;
    if k > 0 {
        lemma_runs_in_order(family, successes, k - 1);
        assert(successes[k - 1] is Ok);
    }
}

} // verus!
