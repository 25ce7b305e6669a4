use spektra::config::{check_fft_size, ConfigError, Receiver};
use spektra::source::{
    check_sample_rate, check_synthetic_tuning, tuner_frequency, Device, DeviceConfig, SourceError,
};

#[test]
fn rejects_a_rate_the_receiver_cannot_reach() {
    let config = DeviceConfig {
        device: Device::RtlSdr,
        sample_rate_hz: 6_000_000,
    };

    match check_sample_rate(&config) {
        Err(SourceError::SampleRateTooHigh { requested, maximum }) => {
            assert_eq!(requested, 6_000_000);
            assert_eq!(maximum, 2_400_000);
        }
        other => panic!("expected a rate rejection, got {other:?}"),
    }
}

#[test]
fn accepts_a_rate_the_receiver_can_reach() {
    let config = DeviceConfig {
        device: Device::AirspyMini,
        sample_rate_hz: 6_000_000,
    };

    check_sample_rate(&config).expect("6 MSPS is inside the Airspy Mini's range");
}

#[test]
fn driver_keys_are_the_soapy_ones() {
    assert_eq!(Device::RtlSdr.driver(), "rtlsdr");
    assert_eq!(Device::AirspyMini.driver(), "airspy");
}

#[test]
fn each_family_names_its_top_rate() {
    assert_eq!(Device::RtlSdr.max_sample_rate_hz(), 2_400_000);
    assert_eq!(Device::AirspyMini.max_sample_rate_hz(), 6_000_000);
}

#[test]
fn a_frequency_past_thirty_two_bits_cannot_be_tuned() {
    assert_eq!(tuner_frequency(100_000_000), Ok(100_000_000));
    assert_eq!(
        tuner_frequency(5_000_000_000),
        Err(SourceError::FrequencyOutOfRange {
            frequency_hz: 5_000_000_000
        })
    );
}

#[test]
fn the_generator_covers_fm_to_band_three() {
    assert!(check_synthetic_tuning(87_500_000).is_ok());
    assert!(check_synthetic_tuning(240_000_000).is_ok());
    assert_eq!(
        check_synthetic_tuning(87_499_999),
        Err(SourceError::FrequencyOutOfRange {
            frequency_hz: 87_499_999
        })
    );
    assert!(check_synthetic_tuning(240_000_001).is_err());
}

#[test]
fn rejects_a_transform_length_the_fft_cannot_plan() {
    match check_fft_size(6000) {
        Err(ConfigError::FftSizeNotPowerOfTwo { size }) => assert_eq!(size, 6000),
        other => panic!("expected a power-of-two rejection, got {other:?}"),
    }
}

#[test]
fn powers_of_two_are_plannable() {
    for size in [1_usize, 2, 1024, 32_768] {
        assert!(check_fft_size(size).is_ok(), "{size}");
    }
    assert!(check_fft_size(0).is_err());
    assert!(check_fft_size(3).is_err());
}

#[test]
fn the_generator_runs_under_the_rtl_limits() {
    assert_eq!(Receiver::Synthetic.device(), Device::RtlSdr);
    assert_eq!(Receiver::RtlSdr.device(), Device::RtlSdr);
    assert_eq!(Receiver::AirspyMini.device(), Device::AirspyMini);
}

#[test]
fn an_interval_is_at_least_a_second() {
    assert_eq!(spektra::config::at_least_one_second(0), 1);
    assert_eq!(spektra::config::at_least_one_second(60), 60);
}
