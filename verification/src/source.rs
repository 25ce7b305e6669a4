//! Receiver families, their limits, and the checks made before a receiver is
//! opened or tuned.
use vstd::prelude::*;

verus! {

/// Lowest carrier the in-process generator can be tuned to.
pub const SYNTHETIC_MIN_HZ: u64 = 87_500_000;

/// Highest carrier the in-process generator can be tuned to.
pub const SYNTHETIC_MAX_HZ: u64 = 240_000_000;

/// Receiver families the agent supports.
#[derive(Debug, Clone, Copy, PartialEq, Eq, Structural)]
pub enum Device {
    /// RTL-SDR Blog V4-class dongle, up to 2.4 MSPS.
    RtlSdr,
    /// Airspy Mini, up to 6 MSPS.
    AirspyMini,
}

impl Device {
    pub open spec fn driver_key(self) -> Seq<char> {
        match self {
            Device::RtlSdr => "rtlsdr"@,
            Device::AirspyMini => "airspy"@,
        }
    }

    pub open spec fn max_rate(self) -> u32 {
        match self {
            Device::RtlSdr => 2_400_000,
            Device::AirspyMini => 6_000_000,
        }
    }

    /// The `SoapySDR` driver key that selects this family.
    pub fn driver(self) -> (key: &'static str)
        ensures
            key@ == self.driver_key(),
    {
        match self {
            Device::RtlSdr => "rtlsdr",
            Device::AirspyMini => "airspy",
        }
    }

    /// The highest sample rate the family delivers, in samples per second.
    pub fn max_sample_rate_hz(self) -> (rate: u32)
        ensures
            rate == self.max_rate(),
    {
        match self {
            Device::RtlSdr => 2_400_000,
            Device::AirspyMini => 6_000_000,
        }
    }
}

/// Receiver configuration for one sampling session. The gain, a float, stays
/// with the code that drives the hardware.
#[derive(Debug, Clone, Copy, PartialEq, Eq, Structural)]
pub struct DeviceConfig {
    pub device: Device,
    pub sample_rate_hz: u32,
}

/// Why the front end could not be opened or read.
#[derive(Debug, Clone, Copy, PartialEq, Eq, Structural)]
pub enum SourceError {
    /// No device of the configured family is attached.
    NoDevice { device: Device },
    /// The configured sample rate is above what the family supports.
    SampleRateTooHigh { requested: u32, maximum: u32 },
    /// The driver dropped samples.
    Overflow,
    /// The requested frequency is outside what a tuner can be asked for.
    FrequencyOutOfRange { frequency_hz: u64 },
}

/// Reject a sample rate the configured family cannot deliver.
pub fn check_sample_rate(config: &DeviceConfig) -> (checked: Result<(), SourceError>)
    ensures
        config.sample_rate_hz <= config.device.max_rate() <==> checked is Ok,
        config.sample_rate_hz > config.device.max_rate() ==> checked == Err::<(), SourceError>(
            SourceError::SampleRateTooHigh {
                requested: config.sample_rate_hz,
                maximum: config.device.max_rate(),
            },
        ),
{
    let maximum = config.device.max_sample_rate_hz();
    if config.sample_rate_hz > maximum {
        return Err(SourceError::SampleRateTooHigh { requested: config.sample_rate_hz, maximum });
    }
    Ok(())
}

/// The frequency a hardware tuner is asked for: the request itself, when it
/// fits the 32 bits the driver call is made with.
pub fn tuner_frequency(frequency_hz: u64) -> (tuned: Result<u32, SourceError>)
    ensures
        frequency_hz <= u32::MAX ==> tuned == Ok::<u32, SourceError>(frequency_hz as u32),
        frequency_hz > u32::MAX ==> tuned == Err::<u32, SourceError>(
            SourceError::FrequencyOutOfRange { frequency_hz },
        ),
{
    if frequency_hz <= 0xffff_ffff {
        Ok(frequency_hz as u32)
    } else {
        Err(SourceError::FrequencyOutOfRange { frequency_hz })
    }
}

/// Whether the in-process generator can be tuned to `frequency_hz`: the FM
/// band up to the top of band III.
pub fn check_synthetic_tuning(frequency_hz: u64) -> (checked: Result<(), SourceError>)
    ensures
        SYNTHETIC_MIN_HZ <= frequency_hz <= SYNTHETIC_MAX_HZ <==> checked is Ok,
        !(SYNTHETIC_MIN_HZ <= frequency_hz <= SYNTHETIC_MAX_HZ) ==> checked == Err::<
            (),
            SourceError,
        >(SourceError::FrequencyOutOfRange { frequency_hz }),
{
    if frequency_hz < SYNTHETIC_MIN_HZ || frequency_hz > SYNTHETIC_MAX_HZ {
        return Err(SourceError::FrequencyOutOfRange { frequency_hz });
    }
    Ok(())
}

} // verus!
