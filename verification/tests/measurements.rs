use spektra::enums::Modulation;
use spektra::ingest::{
    check_live, check_measurements, BandRefusal, ChannelCheck, LiveRefusal, MeasurementRefusal,
    Stamp, StatsRefusal, WindowRefusal,
};

fn stamp(seconds: i64) -> Option<Stamp> {
    Some(Stamp { seconds, nanos: 0 })
}

fn channel(frequency_hz: u64, readings: Vec<Result<(), StatsRefusal>>) -> ChannelCheck {
    ChannelCheck {
        frequency_hz,
        modulation: Some(Modulation::Fm),
        readings,
    }
}

#[test]
fn a_sound_report_is_accepted() {
    let channels = vec![channel(96_500_000, vec![Ok(()), Ok(())])];
    assert_eq!(
        check_measurements("1", "1", stamp(0), stamp(60), &channels),
        Ok(())
    );
}

#[test]
fn a_report_is_refused_for_its_first_fault() {
    let good = vec![channel(96_500_000, vec![Ok(())])];
    assert_eq!(
        check_measurements("0", "1", stamp(0), stamp(60), &good),
        Err(MeasurementRefusal::UnsupportedVersion)
    );
    assert_eq!(
        check_measurements("1", "1", stamp(60), stamp(60), &good),
        Err(MeasurementRefusal::Window(WindowRefusal::NotAdvancing))
    );
    assert_eq!(
        check_measurements("1", "1", stamp(0), stamp(86_401), &good),
        Err(MeasurementRefusal::Window(WindowRefusal::TooLong))
    );
    assert_eq!(
        check_measurements("1", "1", stamp(0), stamp(60), &Vec::new()),
        Err(MeasurementRefusal::NoChannels)
    );

    let channels = vec![
        channel(96_500_000, vec![Ok(())]),
        channel(120_000_000, vec![Ok(())]),
        channel(96_500_000, Vec::new()),
    ];
    assert_eq!(
        check_measurements("1", "1", stamp(0), stamp(60), &channels),
        Err(MeasurementRefusal::Band(BandRefusal::OutsideFm {
            frequency_hz: 120_000_000
        }))
    );

    let channels = vec![channel(
        96_500_000,
        vec![Ok(()), Err(StatsRefusal::MeanOutside), Err(StatsRefusal::NoSamples)],
    )];
    assert_eq!(
        check_measurements("1", "1", stamp(0), stamp(60), &channels),
        Err(MeasurementRefusal::Stats(StatsRefusal::MeanOutside))
    );
}

#[test]
fn a_live_sample_needs_readings_in_range() {
    let fm = Some(Modulation::Fm);
    assert_eq!(check_live("1", "1", 96_500_000, fm, &vec![true, true]), Ok(()));
    assert_eq!(
        check_live("1", "1", 96_500_000, fm, &Vec::new()),
        Err(LiveRefusal::NoReadings)
    );
    assert_eq!(
        check_live("1", "1", 96_500_000, fm, &vec![true, false]),
        Err(LiveRefusal::ValueOutOfRange)
    );
    assert_eq!(
        check_live("1", "1", 96_500_000, None, &vec![true]),
        Err(LiveRefusal::Band(BandRefusal::UnknownModulation))
    );
}
