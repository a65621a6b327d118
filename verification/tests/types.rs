use momentum_app::types::Encoder;

#[test]
fn encoder_names_round_trip() {
    for e in Encoder::ALL {
        assert_eq!(Encoder::parse(e.name()), Some(e));
    }
    assert_eq!(Encoder::X264.name(), "libx264");
    assert_eq!(Encoder::Nvenc.name(), "h264_nvenc");
    assert_eq!(Encoder::Amf.name(), "h264_amf");
}

#[test]
fn settings_strings_are_trimmed_and_short_names_accepted() {
    assert_eq!(Encoder::parse("  nvenc "), Some(Encoder::Nvenc));
    assert_eq!(Encoder::parse("amf"), Some(Encoder::Amf));
    assert_eq!(Encoder::parse("x264"), Some(Encoder::X264));
    assert_eq!(Encoder::parse("auto"), None);
    assert_eq!(Encoder::parse(""), None);
    assert_eq!(Encoder::parse("NVENC"), None);
}
