use kaze::settings::{ColorScheme, ThemeSettings};
use kaze::theme::{resolve, ResolvedScheme, Rgb};

#[test]
fn parses_valid_hex() {
    let c = Rgb::from_hex("#ff8800");
    assert_eq!(c, Rgb { r: 0xff, g: 0x88, b: 0x00 });
}

#[test]
fn falls_back_on_bad_hex() {
    let c = Rgb::from_hex("not-a-color");
    assert_eq!(c, Rgb { r: 0x7c, g: 0x6c, b: 0xf0 });
}

#[test]
fn resolves_system_scheme_against_dark_flag() {
    let settings = ThemeSettings {
        color_scheme: ColorScheme::System,
        ..ThemeSettings::default()
    };
    assert_eq!(resolve(&settings, true).scheme, ResolvedScheme::Dark);
    assert_eq!(resolve(&settings, false).scheme, ResolvedScheme::Light);
}

#[test]
fn explicit_schemes_ignore_the_dark_flag() {
    let light = ThemeSettings { color_scheme: ColorScheme::Light, ..ThemeSettings::default() };
    let dark = ThemeSettings { color_scheme: ColorScheme::Dark, ..ThemeSettings::default() };
    assert_eq!(resolve(&light, true).scheme, ResolvedScheme::Light);
    assert_eq!(resolve(&dark, false).scheme, ResolvedScheme::Dark);
}

#[test]
fn clamps_sidebar_width() {
    let mut settings = ThemeSettings::default();
    settings.sidebar_width_px = 10;
    assert_eq!(resolve(&settings, false).sidebar_width_px, 160);
    settings.sidebar_width_px = 999;
    assert_eq!(resolve(&settings, false).sidebar_width_px, 480);
    settings.sidebar_width_px = 300;
    assert_eq!(resolve(&settings, false).sidebar_width_px, 300);
}

#[test]
fn resolve_carries_accent_and_flags() {
    let settings = ThemeSettings {
        accent_color: "#010203".to_string(),
        animations_enabled: false,
        compact_mode: true,
        ..ThemeSettings::default()
    };
    let t = resolve(&settings, false);
    assert_eq!(t.accent, Rgb { r: 1, g: 2, b: 3 });
    assert!(!t.animations_enabled);
    assert!(t.compact_mode);
}

#[test]
fn hex_ignores_whitespace_and_leading_hashes() {
    assert_eq!(Rgb::from_hex("  ##AbCdEf\n"), Rgb { r: 0xab, g: 0xcd, b: 0xef });
    assert_eq!(Rgb::from_hex("\u{3000}123456"), Rgb { r: 0x12, g: 0x34, b: 0x56 });
}

#[test]
fn hex_pairs_must_be_two_digits() {
    let default = Rgb { r: 0x7c, g: 0x6c, b: 0xf0 };
    assert_eq!(Rgb::from_hex("+f+f+f"), default);
    assert_eq!(Rgb::from_hex("#++ffff"), default);
}

#[test]
fn hex_of_wrong_length_or_bad_digits_falls_back() {
    let default = Rgb { r: 0x7c, g: 0x6c, b: 0xf0 };
    assert_eq!(Rgb::from_hex("#fff"), default);
    assert_eq!(Rgb::from_hex("#ff88001"), default);
    assert_eq!(Rgb::from_hex("#gg8800"), default);
    assert_eq!(Rgb::from_hex("# ff8800"), default);
    assert_eq!(Rgb::from_hex("-1-1-1"), default);
    assert_eq!(Rgb::from_hex("ééé"), default);
}

#[test]
fn to_css_writes_decimal_components() {
    assert_eq!(Rgb { r: 255, g: 136, b: 0 }.to_css(), "rgb(255, 136, 0)");
    assert_eq!(Rgb { r: 7, g: 42, b: 100 }.to_css(), "rgb(7, 42, 100)");
}

#[test]
fn non_ascii_six_bytes_fall_back() {
    let default = Rgb { r: 0x7c, g: 0x6c, b: 0xf0 };
    assert_eq!(Rgb::from_hex("aébcd"), default);
    assert_eq!(Rgb::from_hex("aé€"), default);
}

#[test]
fn hex_text_parses_back() {
    for c in [Rgb { r: 0, g: 0, b: 0 }, Rgb { r: 255, g: 10, b: 171 }] {
        assert_eq!(Rgb::from_hex(&format!("#{:02x}{:02x}{:02x}", c.r, c.g, c.b)), c);
        assert_eq!(Rgb::from_hex(&format!("{:02X}{:02X}{:02X}", c.r, c.g, c.b)), c);
    }
}
