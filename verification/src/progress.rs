//! Progress events of a push and their normalised form.

use vstd::prelude::*;

verus! {

/// The phase a push is in, as shown to the user.
#[derive(Clone, Copy, Debug, PartialEq, Eq, Structural)]
pub enum PushProgressState {
    /// Objects are being added to the pack.
    PackingAddingObject,
    /// Deltas between packed objects are being computed.
    PackingDeltafiction,
    /// The pack is being transferred to the remote.
    Pushing,
}

/// A phase and how far it has advanced, in percent.
#[derive(Clone, Copy, Debug, PartialEq, Eq, Structural)]
pub struct PushProgress {
    /// The current phase.
    pub state: PushProgressState,
    /// Completion of the phase, from 0 to 100.
    pub progress: u8,
}

/// The larger of two counters.
pub open spec fn max_count(current: nat, total: nat) -> nat {
    if current >= total {
        current
    } else {
        total
    }
}

/// `floor(current / max(current, total) * 100)`, and 0 where both counters
/// are 0.
pub open spec fn percent(current: nat, total: nat) -> nat {
    let whole = max_count(current, total);
    if whole == 0 {
        0
    } else {
        (current * 100) / whole
    }
}

/// A percentage never exceeds 100, whatever the counters are.
pub proof fn lemma_percent_bounded(current: nat, total: nat)
    ensures
        percent(current, total) <= 100,
{
    let whole = max_count(current, total);
    if whole > 0 {
        assert((current * 100) / whole <= 100) by (nonlinear_arith)
            requires
                whole > 0,
                current <= whole,
        ;
    }
}

/// Once `current` has reached `total` (and is not 0) the phase is complete.
pub proof fn lemma_percent_complete(current: nat, total: nat)
    requires
        current >= total,
        current > 0,
    ensures
        percent(current, total) == 100,
{
    assert((current * 100) / current == 100) by (nonlinear_arith)
        requires
            current > 0,
    ;
}

/// For a fixed total, a larger counter never gives a smaller percentage.
pub proof fn lemma_percent_monotonic(earlier: nat, later: nat, total: nat)
    requires
        earlier <= later,
    ensures
        percent(earlier, total) <= percent(later, total),
{
    lemma_percent_bounded(earlier, total);
    if later >= total {
        if later > 0 {
            lemma_percent_complete(later, total);
        }
    } else {
        assert((earlier * 100) / total <= (later * 100) / total) by (nonlinear_arith)
            requires
                earlier <= later,
                total > 0,
        ;
    }
}

/// The stage of building the pack that is sent.
#[derive(Clone, Copy, Debug, PartialEq, Eq, Structural)]
pub enum PackStage {
    /// Objects are being added to the pack.
    AddingObjects,
    /// Deltas are being computed.
    Deltafication,
}

/// A raw progress event, as the backend reports it while a job runs.
#[derive(Clone, Copy, Debug, PartialEq, Eq, Structural)]
pub enum ProgressNotification {
    /// Objects received (a phase of fetching, not of pushing).
    Transfer {
        /// Objects received so far.
        objects: usize,
        /// Objects to receive.
        total_objects: usize,
    },
    /// The pack is being transferred to the remote.
    PushTransfer {
        /// Objects sent so far.
        current: usize,
        /// Objects to send.
        total: usize,
        /// Bytes sent so far.
        bytes: usize,
    },
    /// The pack is being built.
    Packing {
        /// The stage of building.
        stage: PackStage,
        /// Objects to handle in this stage.
        total: usize,
        /// Objects handled so far.
        current: usize,
    },
    /// The sentinel: no further event follows in this run.
    Done,
}

/// The normalised form of a raw event. Packing and transfer are reported
/// with their own phase and percentage; the sentinel and every event that is
/// no phase of a push count as a finished transfer.
pub open spec fn normalize(event: ProgressNotification) -> PushProgress {
    match event {
        ProgressNotification::Packing { stage, total, current } => PushProgress {
            state: match stage {
                PackStage::AddingObjects => PushProgressState::PackingAddingObject,
                PackStage::Deltafication => PushProgressState::PackingDeltafiction,
            },
            progress: percent(current as nat, total as nat) as u8,
        },
        ProgressNotification::PushTransfer { current, total, bytes } => PushProgress {
            state: PushProgressState::Pushing,
            progress: percent(current as nat, total as nat) as u8,
        },
        ProgressNotification::Transfer { .. } | ProgressNotification::Done => PushProgress {
            state: PushProgressState::Pushing,
            progress: 100,
        },
    }
}

/// Every normalised event is well formed.
pub proof fn lemma_normalize_wf(event: ProgressNotification)
    ensures
        normalize(event).wf(),
{
    match event {
        ProgressNotification::Packing { stage, total, current } => {
            lemma_percent_bounded(current as nat, total as nat);
        },
        ProgressNotification::PushTransfer { current, total, bytes } => {
            lemma_percent_bounded(current as nat, total as nat);
        },
        _ => {},
    }
}

/// Within one phase and for one total, the percentage shown does not go
/// down while the backend's counter does not.
pub proof fn lemma_normalize_monotonic(
    stage: PackStage,
    total: usize,
    earlier: usize,
    later: usize,
)
    requires
        earlier <= later,
    ensures
        normalize(ProgressNotification::Packing { stage, total, current: earlier }).state
            == normalize(ProgressNotification::Packing { stage, total, current: later }).state,
        normalize(ProgressNotification::Packing { stage, total, current: earlier }).progress
            <= normalize(ProgressNotification::Packing { stage, total, current: later }).progress,
        normalize(ProgressNotification::PushTransfer { current: earlier, total, bytes: 0 }).progress
            <= normalize(
            ProgressNotification::PushTransfer { current: later, total, bytes: 0 },
        ).progress,
{
    lemma_percent_monotonic(earlier as nat, later as nat, total as nat);
    lemma_percent_bounded(earlier as nat, total as nat);
    lemma_percent_bounded(later as nat, total as nat);
}

impl PushProgress {
    /// A progress value is well formed when its percentage is at most 100.
    pub open spec fn wf(self) -> bool {
        self.progress <= 100
    }

    /// Progress of `state` with `current` of `total` units done.
    pub fn new(state: PushProgressState, current: usize, total: usize) -> (res: Self)
        ensures
            res.state == state,
            res.progress as nat == percent(current as nat, total as nat),
            res.wf(),
    {
        let whole: usize = if current >= total { current } else { total };
        proof {
            lemma_percent_bounded(current as nat, total as nat);
        }
        if whole == 0 {
            return PushProgress { state, progress: 0 };
        }
        let scaled: u128 = (current as u128) * 100;
        let ratio: u128 = scaled / (whole as u128);
        PushProgress { state, progress: ratio as u8 }
    }
}

impl From<ProgressNotification> for PushProgress {
    fn from(progress: ProgressNotification) -> (res: Self) {
        proof {
            lemma_normalize_wf(progress);
        }
        match progress {
            ProgressNotification::Packing { stage, total, current } => match stage {
                PackStage::AddingObjects => PushProgress::new(
                    PushProgressState::PackingAddingObject,
                    current,
                    total,
                ),
                PackStage::Deltafication => PushProgress::new(
                    PushProgressState::PackingDeltafiction,
                    current,
                    total,
                ),
            },
            ProgressNotification::PushTransfer { current, total, bytes } => PushProgress::new(
                PushProgressState::Pushing,
                current,
                total,
            ),
            ProgressNotification::Transfer { objects, total_objects } => PushProgress::new(
                PushProgressState::Pushing,
                1,
                1,
            ),
            ProgressNotification::Done => PushProgress::new(PushProgressState::Pushing, 1, 1),
        }
    }
}

impl vstd::std_specs::convert::FromSpecImpl<ProgressNotification> for PushProgress {
    open spec fn obeys_from_spec() -> bool {
        true
    }

    open spec fn from_spec(progress: ProgressNotification) -> Self {
        normalize(progress)
    }
}

} // verus!
