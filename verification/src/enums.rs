//! The closed vocabularies the server stores: modulations, alarm states,
//! metrics, rollup resolutions and work order statuses, each with the label
//! it carries in the database and on the wire.
use vstd::prelude::*;

use crate::text::same_text;

verus! {

/// Modulation scheme of a monitored channel.
#[derive(Debug, Clone, Copy, PartialEq, Eq, Hash, Structural)]
pub enum Modulation {
    /// Analog FM broadcast.
    Fm,
    /// Digital Audio Broadcasting, Band III.
    Dab,
}

/// Where an alarm sits in its lifecycle.
#[derive(Debug, Clone, Copy, PartialEq, Eq, Hash, Structural)]
pub enum AlarmState {
    /// Raised by the detector, nobody has looked at it.
    Open,
    /// An operator has seen it and taken ownership.
    Acknowledged,
    /// A technician is checking the station.
    UnderVerification,
    /// Resolved, with the field result recorded.
    Closed,
}

/// A derived signal-quality dimension.
#[derive(Debug, Clone, Copy, PartialEq, Eq, PartialOrd, Ord, Hash, Structural)]
pub enum Metric {
    /// Signal strength in dBFS.
    SignalStrength,
    /// Signal-to-noise ratio in dB.
    SignalToNoise,
    /// Observed minus expected carrier frequency, in Hz.
    CarrierOffset,
    /// Share of demodulated blocks that failed, 0.0 to 1.0.
    DemodErrorRate,
    /// Share of the channel bandwidth carrying energy, 0.0 to 1.0.
    SpectrumOccupancy,
}

/// How wide a rollup bucket is.
#[derive(Debug, Clone, Copy, PartialEq, Eq, Hash, Structural)]
pub enum RollupResolution {
    /// One hour of windows.
    Hourly,
    /// One day of windows.
    Daily,
    /// Seven days of windows, starting Monday.
    Weekly,
}

/// Where a dispatched work order has got to.
#[derive(Debug, Clone, Copy, PartialEq, Eq, Hash, Structural)]
pub enum WorkOrderStatus {
    /// Sent to a technician, not yet reported back.
    Assigned,
    /// The technician has been to the station and recorded what they found.
    Completed,
}

impl Modulation {
    /// The stored label of each variant.
    pub open spec fn label_of(self) -> Seq<char> {
        match self {
            Modulation::Fm => "fm"@,
            Modulation::Dab => "dab"@,
        }
    }

    /// The variant a stored label names, if any.
    pub open spec fn parse_label(label: Seq<char>) -> Option<Modulation> {
        if label == "fm"@ {
            Some(Modulation::Fm)
        } else if label == "dab"@ {
            Some(Modulation::Dab)
        } else {
            None
        }
    }

    /// The `PostgreSQL` label for this variant.
    pub fn label(self) -> (label: &'static str)
        ensures
            label@ == self.label_of(),
    {
        match self {
            Modulation::Fm => "fm",
            Modulation::Dab => "dab",
        }
    }

    /// The variant a stored label names.
    pub fn from_label(label: &str) -> (parsed: Option<Modulation>)
        ensures
            parsed == Modulation::parse_label(label@),
    {
        if same_text(label, "fm") {
            Some(Modulation::Fm)
        } else if same_text(label, "dab") {
            Some(Modulation::Dab)
        } else {
            None
        }
    }
}

impl AlarmState {
    /// The stored label of each variant.
    pub open spec fn label_of(self) -> Seq<char> {
        match self {
            AlarmState::Open => "open"@,
            AlarmState::Acknowledged => "acknowledged"@,
            AlarmState::UnderVerification => "under_verification"@,
            AlarmState::Closed => "closed"@,
        }
    }

    /// The variant a stored label names, if any.
    pub open spec fn parse_label(label: Seq<char>) -> Option<AlarmState> {
        if label == "open"@ {
            Some(AlarmState::Open)
        } else if label == "acknowledged"@ {
            Some(AlarmState::Acknowledged)
        } else if label == "under_verification"@ {
            Some(AlarmState::UnderVerification)
        } else if label == "closed"@ {
            Some(AlarmState::Closed)
        } else {
            None
        }
    }

    /// The `PostgreSQL` label for this variant.
    pub fn label(self) -> (label: &'static str)
        ensures
            label@ == self.label_of(),
    {
        match self {
            AlarmState::Open => "open",
            AlarmState::Acknowledged => "acknowledged",
            AlarmState::UnderVerification => "under_verification",
            AlarmState::Closed => "closed",
        }
    }

    /// The variant a stored label names.
    pub fn from_label(label: &str) -> (parsed: Option<AlarmState>)
        ensures
            parsed == AlarmState::parse_label(label@),
    {
        if same_text(label, "open") {
            Some(AlarmState::Open)
        } else if same_text(label, "acknowledged") {
            Some(AlarmState::Acknowledged)
        } else if same_text(label, "under_verification") {
            Some(AlarmState::UnderVerification)
        } else if same_text(label, "closed") {
            Some(AlarmState::Closed)
        } else {
            None
        }
    }
}

impl Metric {
    /// The stored label of each variant.
    pub open spec fn label_of(self) -> Seq<char> {
        match self {
            Metric::SignalStrength => "signal_strength"@,
            Metric::SignalToNoise => "signal_to_noise"@,
            Metric::CarrierOffset => "carrier_offset"@,
            Metric::DemodErrorRate => "demod_error_rate"@,
            Metric::SpectrumOccupancy => "spectrum_occupancy"@,
        }
    }

    /// The variant a stored label names, if any.
    pub open spec fn parse_label(label: Seq<char>) -> Option<Metric> {
        if label == "signal_strength"@ {
            Some(Metric::SignalStrength)
        } else if label == "signal_to_noise"@ {
            Some(Metric::SignalToNoise)
        } else if label == "carrier_offset"@ {
            Some(Metric::CarrierOffset)
        } else if label == "demod_error_rate"@ {
            Some(Metric::DemodErrorRate)
        } else if label == "spectrum_occupancy"@ {
            Some(Metric::SpectrumOccupancy)
        } else {
            None
        }
    }

    /// The `PostgreSQL` label for this variant.
    pub fn label(self) -> (label: &'static str)
        ensures
            label@ == self.label_of(),
    {
        match self {
            Metric::SignalStrength => "signal_strength",
            Metric::SignalToNoise => "signal_to_noise",
            Metric::CarrierOffset => "carrier_offset",
            Metric::DemodErrorRate => "demod_error_rate",
            Metric::SpectrumOccupancy => "spectrum_occupancy",
        }
    }

    /// The variant a stored label names.
    pub fn from_label(label: &str) -> (parsed: Option<Metric>)
        ensures
            parsed == Metric::parse_label(label@),
    {
        if same_text(label, "signal_strength") {
            Some(Metric::SignalStrength)
        } else if same_text(label, "signal_to_noise") {
            Some(Metric::SignalToNoise)
        } else if same_text(label, "carrier_offset") {
            Some(Metric::CarrierOffset)
        } else if same_text(label, "demod_error_rate") {
            Some(Metric::DemodErrorRate)
        } else if same_text(label, "spectrum_occupancy") {
            Some(Metric::SpectrumOccupancy)
        } else {
            None
        }
    }
}

impl RollupResolution {
    /// The stored label of each variant.
    pub open spec fn label_of(self) -> Seq<char> {
        match self {
            RollupResolution::Hourly => "hourly"@,
            RollupResolution::Daily => "daily"@,
            RollupResolution::Weekly => "weekly"@,
        }
    }

    /// The variant a stored label names, if any.
    pub open spec fn parse_label(label: Seq<char>) -> Option<RollupResolution> {
        if label == "hourly"@ {
            Some(RollupResolution::Hourly)
        } else if label == "daily"@ {
            Some(RollupResolution::Daily)
        } else if label == "weekly"@ {
            Some(RollupResolution::Weekly)
        } else {
            None
        }
    }

    /// The `PostgreSQL` label for this variant.
    pub fn label(self) -> (label: &'static str)
        ensures
            label@ == self.label_of(),
    {
        match self {
            RollupResolution::Hourly => "hourly",
            RollupResolution::Daily => "daily",
            RollupResolution::Weekly => "weekly",
        }
    }

    /// The variant a stored label names.
    pub fn from_label(label: &str) -> (parsed: Option<RollupResolution>)
        ensures
            parsed == RollupResolution::parse_label(label@),
    {
        if same_text(label, "hourly") {
            Some(RollupResolution::Hourly)
        } else if same_text(label, "daily") {
            Some(RollupResolution::Daily)
        } else if same_text(label, "weekly") {
            Some(RollupResolution::Weekly)
        } else {
            None
        }
    }
}

impl WorkOrderStatus {
    /// The stored label of each variant.
    pub open spec fn label_of(self) -> Seq<char> {
        match self {
            WorkOrderStatus::Assigned => "assigned"@,
            WorkOrderStatus::Completed => "completed"@,
        }
    }

    /// The variant a stored label names, if any.
    pub open spec fn parse_label(label: Seq<char>) -> Option<WorkOrderStatus> {
        if label == "assigned"@ {
            Some(WorkOrderStatus::Assigned)
        } else if label == "completed"@ {
            Some(WorkOrderStatus::Completed)
        } else {
            None
        }
    }

    /// The `PostgreSQL` label for this variant.
    pub fn label(self) -> (label: &'static str)
        ensures
            label@ == self.label_of(),
    {
        match self {
            WorkOrderStatus::Assigned => "assigned",
            WorkOrderStatus::Completed => "completed",
        }
    }

    /// The variant a stored label names.
    pub fn from_label(label: &str) -> (parsed: Option<WorkOrderStatus>)
        ensures
            parsed == WorkOrderStatus::parse_label(label@),
    {
        if same_text(label, "assigned") {
            Some(WorkOrderStatus::Assigned)
        } else if same_text(label, "completed") {
            Some(WorkOrderStatus::Completed)
        } else {
            None
        }
    }
}

/// Every metric's label reads back as that metric.
pub proof fn lemma_metric_label_round_trip(metric: Metric)
    ensures
        Metric::parse_label(metric.label_of()) == Some(metric),
{
    reveal_strlit("signal_strength");
    reveal_strlit("signal_to_noise");
    reveal_strlit("carrier_offset");
    reveal_strlit("demod_error_rate");
    reveal_strlit("spectrum_occupancy");
    assert("signal_strength"@ != "signal_to_noise"@ && "signal_strength"@ != "carrier_offset"@
        && "signal_strength"@ != "demod_error_rate"@ && "signal_strength"@ != "spectrum_occupancy"@
        && "signal_to_noise"@ != "carrier_offset"@ && "signal_to_noise"@ != "demod_error_rate"@
        && "signal_to_noise"@ != "spectrum_occupancy"@ && "carrier_offset"@ != "demod_error_rate"@
        && "carrier_offset"@ != "spectrum_occupancy"@
        && "demod_error_rate"@ != "spectrum_occupancy"@) by {
        assert("signal_strength"@[7] != "signal_to_noise"@[7]);
        assert("signal_strength"@.len() != "carrier_offset"@.len());
        assert("signal_strength"@[0] != "demod_error_rate"@[0]);
        assert("signal_strength"@[1] != "spectrum_occupancy"@[1]);
        assert("signal_to_noise"@[0] != "carrier_offset"@[0]);
        assert("signal_to_noise"@[0] != "demod_error_rate"@[0]);
        assert("signal_to_noise"@[1] != "spectrum_occupancy"@[1]);
        assert("carrier_offset"@[0] != "demod_error_rate"@[0]);
        assert("carrier_offset"@[0] != "spectrum_occupancy"@[0]);
        assert("demod_error_rate"@[0] != "spectrum_occupancy"@[0]);
    }
}

/// Every alarm state's label reads back as that state.
pub proof fn lemma_alarm_state_label_round_trip(state: AlarmState)
    ensures
        AlarmState::parse_label(state.label_of()) == Some(state),
{
    reveal_strlit("open");
    reveal_strlit("acknowledged");
    reveal_strlit("under_verification");
    reveal_strlit("closed");
    assert("open"@[0] != "acknowledged"@[0]);
    assert("open"@[0] != "under_verification"@[0]);
    assert("open"@[0] != "closed"@[0]);
    assert("acknowledged"@[0] != "under_verification"@[0]);
    assert("acknowledged"@[0] != "closed"@[0]);
    assert("under_verification"@[0] != "closed"@[0]);
}

/// Every modulation's label reads back as that modulation.
pub proof fn lemma_modulation_label_round_trip(modulation: Modulation)
    ensures
        Modulation::parse_label(modulation.label_of()) == Some(modulation),
{
    reveal_strlit("fm");
    reveal_strlit("dab");
    assert("fm"@[0] != "dab"@[0]);
}

/// Every rollup resolution's label reads back as that resolution.
pub proof fn lemma_resolution_label_round_trip(resolution: RollupResolution)
    ensures
        RollupResolution::parse_label(resolution.label_of()) == Some(resolution),
{
    reveal_strlit("hourly");
    reveal_strlit("daily");
    reveal_strlit("weekly");
    assert("hourly"@[0] != "daily"@[0]);
    assert("hourly"@[0] != "weekly"@[0]);
    assert("daily"@[0] != "weekly"@[0]);
}

/// Every work order status's label reads back as that status.
pub proof fn lemma_work_order_status_label_round_trip(status: WorkOrderStatus)
    ensures
        WorkOrderStatus::parse_label(status.label_of()) == Some(status),
{
    reveal_strlit("assigned");
    reveal_strlit("completed");
    assert("assigned"@[0] != "completed"@[0]);
}

} // verus!
