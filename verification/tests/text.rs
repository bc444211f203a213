use niri_taskbar::text::{last_component, to_decimal};

#[test]
fn last_component_follows_the_last_dot() {
    assert_eq!(last_component("org.gnome.Nautilus"), "Nautilus");
    assert_eq!(last_component("firefox"), "firefox");
    assert_eq!(last_component("a."), "");
    assert_eq!(last_component(".a"), "a");
    assert_eq!(last_component(""), "");
    assert_eq!(last_component("ü.é.日本"), "日本");
}

#[test]
fn last_component_agrees_with_split() {
    for s in ["", ".", "..", "a", "a.b", "a.b.", ".a.b", "ß.ß"] {
        assert_eq!(Some(last_component(s)), s.split('.').next_back());
    }
}

#[test]
fn decimal_notation_has_no_leading_zeros() {
    assert_eq!(to_decimal(0), "0");
    assert_eq!(to_decimal(7), "7");
    assert_eq!(to_decimal(10), "10");
    assert_eq!(to_decimal(1234567890), "1234567890");
    assert_eq!(to_decimal(u64::MAX), u64::MAX.to_string());
}
