use easywifi::channels::{
    actionable_channels_for_interface, actionable_ht_modes_for_interface, available_band_options,
    channel_band_kind, channel_capability_band, channel_frequency_mhz,
    channel_is_usable_for_current_ui, fallback_band_from_channel_number,
    fallback_frequency_mhz_for_channel, filter_channels_for_band,
    filter_usable_capability_channels, infer_band_from_channels,
    lock_ht_mode_choices_from_capability, mode_allowed_for_channel, modes_for_channel,
    SpectrumBand, SupportedChannel,
};

fn strings(v: &[&str]) -> Vec<String> {
    v.iter().map(|s| s.to_string()).collect()
}

fn ch(channel: u16, frequency_mhz: Option<u32>, enabled: bool) -> SupportedChannel {
    SupportedChannel { channel, frequency_mhz, enabled }
}

#[test]
fn band_kinds_of_channels() {
    assert_eq!(channel_band_kind(1), "2.4");
    assert_eq!(channel_band_kind(14), "2.4");
    assert_eq!(channel_band_kind(36), "5");
    assert_eq!(channel_band_kind(177), "5");
    assert_eq!(channel_band_kind(181), "6");
    assert_eq!(channel_band_kind(0), "6");
    assert_eq!(channel_band_kind(20), "6");
}

#[test]
fn modes_allowed_per_band() {
    assert!(mode_allowed_for_channel(" ht40+ ", 6));
    assert!(!mode_allowed_for_channel("80MHz", 6));
    assert!(mode_allowed_for_channel("80MHz", 36));
    assert!(!mode_allowed_for_channel("NOHT", 200));
    assert!(mode_allowed_for_channel("160MHz", 200));
    assert!(!mode_allowed_for_channel("", 6));
    assert!(!mode_allowed_for_channel("HT20 device capability", 6));
}

#[test]
fn modes_for_a_channel_are_trimmed_sorted_and_distinct() {
    let requested = strings(&["HT40-", " HT20 ", "80MHz", "HT20", ""]);
    assert_eq!(modes_for_channel(&requested, 6), strings(&["HT20", "HT40-"]));
    assert_eq!(modes_for_channel(&requested, 36), strings(&["80MHz", "HT20", "HT40-"]));
}

#[test]
fn actionable_ht_modes_always_offer_ht20() {
    assert_eq!(actionable_ht_modes_for_interface(&[]), strings(&["HT20"]));
    let listed = strings(&["HT40+", "VHT80", " 80MHz ", "HT40+", "HT20 device capability"]);
    assert_eq!(actionable_ht_modes_for_interface(&listed), strings(&["80MHz", "HT20", "HT40+"]));
}

#[test]
fn actionable_channels_are_enabled_positive_and_sorted() {
    let details = [ch(11, None, true), ch(1, None, true), ch(0, None, true), ch(36, None, false), ch(1, None, true)];
    assert_eq!(actionable_channels_for_interface(&details), vec![1, 11]);
    assert_eq!(actionable_channels_for_interface(&[]), Vec::<u16>::new());
}

#[test]
fn band_inferred_from_channels() {
    assert_eq!(infer_band_from_channels(&[1, 6, 11], None), "2.4");
    assert_eq!(infer_band_from_channels(&[36, 40], Some(1)), "5");
    assert_eq!(infer_band_from_channels(&[], Some(200)), "6");
    assert_eq!(infer_band_from_channels(&[1, 36], None), "all");
    assert_eq!(infer_band_from_channels(&[], None), "all");
}

#[test]
fn fallback_band_and_frequency() {
    assert_eq!(fallback_band_from_channel_number(6), SpectrumBand::Ghz2_4);
    assert_eq!(fallback_band_from_channel_number(15), SpectrumBand::Ghz5);
    assert_eq!(fallback_band_from_channel_number(0), SpectrumBand::Ghz6);
    assert_eq!(fallback_frequency_mhz_for_channel(1), Some(2412));
    assert_eq!(fallback_frequency_mhz_for_channel(14), Some(2484));
    assert_eq!(fallback_frequency_mhz_for_channel(36), Some(5180));
    assert_eq!(fallback_frequency_mhz_for_channel(181), Some(6855));
    assert_eq!(fallback_frequency_mhz_for_channel(234), None);
}

#[test]
fn bands_of_frequencies_and_labels() {
    assert_eq!(SpectrumBand::from_frequency_mhz(Some(2437)), SpectrumBand::Ghz2_4);
    assert_eq!(SpectrumBand::from_frequency_mhz(Some(5180)), SpectrumBand::Ghz5);
    assert_eq!(SpectrumBand::from_frequency_mhz(Some(5955)), SpectrumBand::Ghz6);
    assert_eq!(SpectrumBand::from_frequency_mhz(Some(900)), SpectrumBand::Unknown);
    assert_eq!(SpectrumBand::from_frequency_mhz(None), SpectrumBand::Unknown);
    assert_eq!(SpectrumBand::Ghz2_4.label(), "2.4 GHz");
    assert_eq!(SpectrumBand::Unknown.label(), "Unknown");
}

#[test]
fn capability_channels() {
    assert_eq!(channel_frequency_mhz(&ch(6, None, true)), Some(2437));
    assert_eq!(channel_frequency_mhz(&ch(6, Some(2440), true)), Some(2440));
    assert_eq!(channel_capability_band(&ch(1, Some(5955), true)), SpectrumBand::Ghz6);
    assert_eq!(channel_capability_band(&ch(36, Some(100), true)), SpectrumBand::Ghz5);
    let noht = strings(&["NOHT"]);
    let ht = strings(&["HT20"]);
    assert!(!channel_is_usable_for_current_ui(&ch(14, None, true), &ht));
    assert!(channel_is_usable_for_current_ui(&ch(14, None, true), &noht));
    assert!(channel_is_usable_for_current_ui(&ch(6, None, false), &ht));
}

#[test]
fn usable_channels_sorted_by_frequency_without_repeats() {
    let channels = [ch(36, None, true), ch(1, None, true), ch(14, None, true), ch(1, None, true), ch(1, None, false)];
    let usable = filter_usable_capability_channels(&channels, &strings(&["HT20"]));
    assert_eq!(usable, vec![ch(1, None, true), ch(1, None, false), ch(36, None, true)]);
}

#[test]
fn band_options_and_filtering() {
    let channels = [ch(36, None, true), ch(1, None, true), ch(6, None, true), ch(1, None, false)];
    assert_eq!(
        available_band_options(&channels),
        vec![("2.4".to_string(), "2.4 GHz".to_string()), ("5".to_string(), "5 GHz".to_string())]
    );
    assert_eq!(filter_channels_for_band(&channels, &SpectrumBand::Ghz2_4), vec![1, 6]);
    assert_eq!(filter_channels_for_band(&channels, &SpectrumBand::Unknown), vec![1, 6, 36]);
    assert_eq!(filter_channels_for_band(&channels, &SpectrumBand::Ghz6), Vec::<u16>::new());
}

#[test]
fn lock_mode_choices() {
    let modes = strings(&["HT40-", "device capability", "HT40-", "NOHT"]);
    assert_eq!(lock_ht_mode_choices_from_capability(&modes), strings(&["HT20", "HT40-", "NOHT"]));
}
