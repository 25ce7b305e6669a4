//! The integer side of the agent's configuration: which hardware a receiver
//! choice drives, and the checks on the transform length and the intervals.
use vstd::prelude::*;

use crate::enums::Modulation;
use crate::source::Device;

verus! {

/// Which receiver the agent drives.
#[derive(Debug, Clone, Copy, PartialEq, Eq, Structural)]
pub enum Receiver {
    /// RTL-SDR Blog V4-class dongle.
    RtlSdr,
    /// Airspy Mini.
    AirspyMini,
    /// No hardware: an in-process generator of FM-modulated IQ.
    Synthetic,
}

impl Receiver {
    pub open spec fn device_of(self) -> Device {
        match self {
            Receiver::RtlSdr | Receiver::Synthetic => Device::RtlSdr,
            Receiver::AirspyMini => Device::AirspyMini,
        }
    }

    /// The family whose limits apply; the generator runs under the RTL-SDR's.
    pub fn device(self) -> (device: Device)
        ensures
            device == self.device_of(),
    {
        match self {
            Receiver::RtlSdr | Receiver::Synthetic => Device::RtlSdr,
            Receiver::AirspyMini => Device::AirspyMini,
        }
    }
}

/// `n` is `2^k` for some `k >= 0`.
pub open spec fn is_power_of_two(n: nat) -> bool
    decreases n,
{
    if n == 1 {
        true
    } else if n == 0 || n % 2 == 1 {
        false
    } else {
        is_power_of_two(n / 2)
    }
}

/// Why a configuration cannot be used, as far as its integers go.
#[derive(Debug, Clone, Copy, PartialEq, Eq, Structural)]
pub enum ConfigError {
    /// The transform length is not a power of two, which the FFT rejects.
    FftSizeNotPowerOfTwo { size: usize },
}

/// Accept a transform length the FFT can plan: a power of two.
pub fn check_fft_size(size: usize) -> (checked: Result<(), ConfigError>)
    ensures
        is_power_of_two(size as nat) <==> checked is Ok,
        !is_power_of_two(size as nat) ==> checked == Err::<(), ConfigError>(
            ConfigError::FftSizeNotPowerOfTwo { size },
        ),
{
    let mut n: usize = size;
    while n > 1 && n % 2 == 0
        invariant
            is_power_of_two(n as nat) == is_power_of_two(size as nat),
        decreases n,
    {
        n = n / 2;
    }
    if n == 1 {
        Ok(())
    } else {
        Err(ConfigError::FftSizeNotPowerOfTwo { size })
    }
}

/// Window functions applied before each transform.
#[derive(Debug, Clone, Copy, PartialEq, Eq, Structural)]
pub enum Window {
    /// Rectangular, meaning no window at all.
    Rectangular,
    /// Hann, periodic form.
    Hann,
}

/// Occupied FM bandwidth in Hz (Carson: 2*(75 kHz + 15 kHz)).
pub const FM_BANDWIDTH_HZ: u32 = 180_000;

/// Occupied DAB ensemble bandwidth in Hz.
pub const DAB_BANDWIDTH_HZ: u32 = 1_536_000;

/// What the node was asked to measure on one channel; the modulation is
/// `None` where the plan left it unspecified.
#[derive(Debug, Clone, Copy, PartialEq, Eq, Structural)]
pub struct ChannelSpec {
    pub frequency_hz: u64,
    pub modulation: Option<Modulation>,
    /// Occupied bandwidth in Hz, or zero for the modulation default.
    pub bandwidth_hz: u32,
}

impl ChannelSpec {
    /// The bandwidth to measure over: the one asked for, or the
    /// modulation's default where that is zero.
    pub fn effective_bandwidth_hz(&self) -> (bandwidth: u32)
        ensures
            bandwidth == (if self.bandwidth_hz > 0 {
                self.bandwidth_hz
            } else if self.modulation == Some(Modulation::Dab) {
                DAB_BANDWIDTH_HZ
            } else {
                FM_BANDWIDTH_HZ
            }),
    {
        if self.bandwidth_hz > 0 {
            return self.bandwidth_hz;
        }
        match self.modulation {
            Some(Modulation::Dab) => DAB_BANDWIDTH_HZ,
            _ => FM_BANDWIDTH_HZ,
        }
    }
}

/// An interval in whole seconds, never below one.
pub fn at_least_one_second(seconds: u64) -> (interval: u64)
    ensures
        interval == (if seconds < 1 { 1 } else { seconds }),
{
    if seconds < 1 {
        1
    } else {
        seconds
    }
}

} // verus!
