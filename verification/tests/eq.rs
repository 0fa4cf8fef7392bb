use ncspot::eq::{band_name, find_preset, preset_name, resolve_band, EQ_NUM_BANDS};

#[test]
fn resolve_band_by_name_and_index() {
    assert_eq!(resolve_band("bass"), Some(1));
    assert_eq!(resolve_band("3"), Some(3));
    assert_eq!(resolve_band("unknown"), None);
    assert_eq!(resolve_band("10"), None);
}

#[test]
fn every_band_resolves_by_its_name() {
    for i in 0..EQ_NUM_BANDS {
        assert_eq!(resolve_band(band_name(i)), Some(i));
    }
    assert_eq!(resolve_band("super"), Some(9));
    assert_eq!(resolve_band("+2"), Some(2));
    assert_eq!(resolve_band("-1"), None);
}

#[test]
fn presets_are_found_by_name() {
    assert_eq!(find_preset("flat"), Some(0));
    assert_eq!(find_preset("bass_boost"), Some(1));
    assert_eq!(find_preset("vocal"), Some(3));
    assert_eq!(find_preset("nope"), None);
    assert_eq!(preset_name(2), "treble_boost");
}
