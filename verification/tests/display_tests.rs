use ptp_trace::codec::{PtpClockAccuracy, PtpClockClass};
use ptp_trace::display::{
    format_clock_accuracy, format_clock_class, format_clock_identity, is_suitable_interface_name,
    parse_theme, theme_help_text, SortColumn, ThemeName,
};
use ptp_trace::identity::ClockIdentity;

#[test]
fn test_sort_column_cycle() {
    // Stepping forward through all ten columns returns to the start,
    // and previous undoes next.
    let mut c = SortColumn::State;
    for _ in 0..10 {
        let n = c.next();
        assert_eq!(n.previous(), c);
        c = n;
    }
    assert_eq!(c, SortColumn::State);
}

#[test]
fn test_sort_column_names() {
    assert_eq!(SortColumn::State.display_name(), "State");
    assert_eq!(SortColumn::ClockIdentity.display_name(), "Clock Identity");
    assert_eq!(SortColumn::SelectedTransmitter.display_name(), "Selected Transmitter");
    assert_eq!(SortColumn::MessageCount.display_name(), "Msg Count");
}

#[test]
fn test_theme_name_round_trip() {
    for theme in ThemeName::all_themes() {
        assert_eq!(ThemeName::from_str(theme.as_str()), Some(theme));
    }
    assert_eq!(ThemeName::from_str("MONOKAI"), Some(ThemeName::Monokai));
    assert_eq!(ThemeName::from_str("Default"), Some(ThemeName::Default));
    assert_eq!(ThemeName::from_str("solarized"), None);
    assert_eq!(ThemeName::from_str(""), None);
}

#[test]
fn test_parse_theme() {
    assert_eq!(parse_theme("matrix"), Ok("matrix".to_string()));
    assert_eq!(
        parse_theme("Matrix"),
        Err("Invalid theme 'Matrix'. Available themes: default, monokai, matrix".to_string())
    );
    assert_eq!(
        parse_theme("none"),
        Err("Invalid theme 'none'. Available themes: default, monokai, matrix".to_string())
    );
}

#[test]
fn test_theme_help_text() {
    assert_eq!(
        theme_help_text(),
        "Color theme to use (available: default, monokai, matrix)"
    );
}

#[test]
fn test_format_clock_class() {
    assert_eq!(format_clock_class(None), "N/A");
    assert_eq!(format_clock_class(Some(PtpClockClass::new(6))), "6");
    assert_eq!(format_clock_class(Some(PtpClockClass::new(58))), "58");
    assert_eq!(format_clock_class(Some(PtpClockClass::new(248))), "248");
}

#[test]
fn test_format_clock_accuracy() {
    assert_eq!(format_clock_accuracy(None), "N/A");
    assert_eq!(format_clock_accuracy(Some(PtpClockAccuracy::new(0x20))), "32");
    assert_eq!(format_clock_accuracy(Some(PtpClockAccuracy::new(0))), "0");
}

#[test]
fn test_format_clock_identity() {
    let id = ClockIdentity::new([0x00, 0x1b, 0x21, 0xff, 0xfe, 0x12, 0x34, 0x56]);
    assert_eq!(format_clock_identity(&id), "00:1b:21:ff:fe:12:34:56");
}

#[test]
fn test_is_suitable_interface_name() {
    assert!(is_suitable_interface_name("eth0"));
    assert!(is_suitable_interface_name("enp3s0"));
    assert!(!is_suitable_interface_name("veth12ab"));
    assert!(!is_suitable_interface_name("docker0"));
    assert!(!is_suitable_interface_name("br-44f1"));
    assert!(!is_suitable_interface_name("lo"));
    assert!(!is_suitable_interface_name("wlan0"));
    assert!(!is_suitable_interface_name("wg0"));
    assert!(!is_suitable_interface_name("idrac"));
}
