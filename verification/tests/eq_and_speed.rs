use spotuify::eq::{
    clamp_band_tenths, eq_frequencies_hz, preset_bands_at, preset_name_at, EqBands, EqSettings,
    EQ_BAND_COUNT, EQ_MAX_TENTHS, EQ_MIN_TENTHS, EQ_PRESET_COUNT,
};
use spotuify::speed::{split_rate, PlaybackSpeed, RateText};

#[test]
fn playback_speed_clamps_and_steps() {
    assert_eq!(PlaybackSpeed::from_hundredths(10), PlaybackSpeed::min());
    assert_eq!(PlaybackSpeed::from_hundredths(900), PlaybackSpeed::max());
    assert_eq!(PlaybackSpeed::from_hundredths(125).hundredths(), 125);
    assert_eq!(PlaybackSpeed::normal().faster().hundredths(), 110);
    assert_eq!(PlaybackSpeed::min().slower(), PlaybackSpeed::min());
    assert_eq!(PlaybackSpeed::max().faster(), PlaybackSpeed::max());
    assert_eq!(PlaybackSpeed::from_hundredths(345).faster().hundredths(), 350);
    assert_eq!(PlaybackSpeed::from_hundredths(55).slower().hundredths(), 50);
    assert_eq!(PlaybackSpeed::normal().faster().slower(), PlaybackSpeed::default());
    assert!(PlaybackSpeed::normal().is_normal());
    assert!(!PlaybackSpeed::max().is_normal());
}

#[test]
fn playback_speed_is_shown_without_needless_digits() {
    assert_eq!(PlaybackSpeed::from_hundredths(150).label(), "1.5x");
    assert_eq!(PlaybackSpeed::from_hundredths(125).label(), "1.25x");
    assert_eq!(PlaybackSpeed::normal().label(), "1x");
    assert_eq!(PlaybackSpeed::from_hundredths(105).label(), "1.05x");
    assert_eq!(PlaybackSpeed::min().label(), "0.5x");
}

#[test]
fn written_rates_are_taken_apart() {
    let rate = |numeral: &str, percent: bool| RateText {
        numeral: numeral.to_string(),
        percent,
    };
    assert_eq!(split_rate("1.5x"), rate("1.5", false));
    assert_eq!(split_rate("150%"), rate("150", true));
    assert_eq!(split_rate("2"), rate("2", false));
    assert_eq!(split_rate("fast"), rate("fast", false));
    assert_eq!(split_rate("  1.5×xX "), rate("1.5", false));
    assert_eq!(split_rate(" 150 %"), rate("150", true));
    assert_eq!(split_rate("x"), rate("", false));
}

#[test]
fn eq_presets_are_named_uniquely_and_within_range() {
    assert_eq!(EQ_PRESET_COUNT, 16);
    assert_eq!(preset_name_at(0), "Flat");
    let mut names: Vec<String> = (0..EQ_PRESET_COUNT)
        .map(|i| preset_name_at(i).to_lowercase())
        .collect();
    names.sort();
    let unique = names.len();
    names.dedup();
    assert_eq!(names.len(), unique, "preset names must be unique");
    for i in 0..EQ_PRESET_COUNT {
        let name = preset_name_at(i);
        for tenths in preset_bands_at(i) {
            assert!(
                (EQ_MIN_TENTHS..=EQ_MAX_TENTHS).contains(&tenths),
                "{name} band {tenths} out of range"
            );
        }
    }
    assert!(eq_frequencies_hz()
        .windows(2)
        .all(|pair| pair[0] < pair[1]));
    assert_eq!(eq_frequencies_hz().len(), EQ_BAND_COUNT);
}

#[test]
fn eq_preset_lookup_is_case_insensitive_and_flat_is_default() {
    assert_eq!(EqSettings::default(), EqSettings::flat());
    assert!(EqSettings::flat().is_flat());
    assert_eq!(EqSettings::flat().preset(), Some("Flat"));
    let rock = EqSettings::from_preset("rOcK").unwrap();
    assert_eq!(rock.preset(), Some("Rock"));
    assert_eq!(f64::from(rock.bands_tenths()[0]) / 10.0, 5.0);
    assert!(!rock.is_flat());
    assert_eq!(
        EqSettings::from_preset("  bass boost ").unwrap().preset(),
        Some("Bass Boost")
    );
    assert!(EqSettings::from_preset("nope").is_none());
}

#[test]
fn eq_bands_reject_gains_outside_the_supported_range() {
    assert!(EqBands::from_gains(&[0; EQ_BAND_COUNT]).is_some());
    assert!(EqBands::from_gains(&[120; EQ_BAND_COUNT]).is_some());
    assert!(EqBands::from_gains(&[-120; EQ_BAND_COUNT]).is_some());
    for bad in [121i64, -121, 1000, i64::MAX, i64::MIN] {
        let mut bands = [0i64; EQ_BAND_COUNT];
        bands[3] = bad;
        assert!(
            EqBands::from_gains(&bands).is_none(),
            "{bad} tenths must be rejected, not clamped"
        );
    }
    assert!(EqBands::from_gains(&[0, 10]).is_none());
    assert_eq!(
        EqBands::from_gains(&[14; EQ_BAND_COUNT]).unwrap().tenths()[0],
        14
    );
}

#[test]
fn eq_band_edit_clears_the_preset_and_clamps() {
    let edited = EqSettings::from_preset("Rock")
        .unwrap()
        .with_band_tenths(4, -30);
    assert_eq!(edited.preset(), None);
    assert_eq!(edited.label(), "Custom");
    assert_eq!(edited.bands_tenths()[4], -30);
    assert_eq!(edited.bands_tenths()[0], 50);
    assert_eq!(edited.with_band_tenths(0, 990).bands_tenths()[0], 120);
    assert_eq!(edited.with_band_tenths(0, -990).bands_tenths()[0], -120);
    assert_eq!(
        edited.with_band_tenths(10, 60).bands_tenths(),
        edited.bands_tenths()
    );
    assert_eq!(edited.with_band_tenths(0, 0).bands_tenths()[0], 0);
    assert_eq!(clamp_band_tenths(7), 7);
    assert_eq!(edited.bands().tenths(), edited.bands_tenths());
    assert_eq!(
        EqSettings::from_bands(EqBands::from_tenths([3; 10])).bands_tenths(),
        [3; 10]
    );
}

#[test]
fn eq_preset_cycle_wraps_and_custom_exits_to_flat() {
    let flat = EqSettings::flat();
    assert_eq!(flat.next_preset().preset(), Some("Rock"));
    let last = EqSettings::from_preset("Small Speakers").unwrap();
    assert_eq!(last.next_preset().preset(), Some("Flat"));
    let custom = flat.with_band_tenths(0, 60);
    assert_eq!(custom.next_preset().preset(), Some("Flat"));
    let mut curve = flat.clone();
    for _ in 0..16 {
        curve = curve.next_preset();
    }
    assert_eq!(curve, flat);
    assert_eq!(curve.label(), "Flat");
}

#[test]
fn stored_curves_keep_their_name() {
    let stored = EqSettings::from_parts(Some("Old".to_string()), EqBands::from_tenths([5; 10]));
    assert_eq!(stored.label(), "Old");
    assert_eq!(stored.bands_tenths(), [5; 10]);
    // A name that is no preset's steps to the first one.
    assert_eq!(stored.next_preset(), EqSettings::flat());
    let rock = EqSettings::from_preset("rock").unwrap();
    assert_eq!(
        EqSettings::from_parts(Some("Rock".to_string()), rock.bands()),
        rock
    );
}
