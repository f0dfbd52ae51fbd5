use osvwm::keyboard::{KeyRepeatSettings, KeyboardBackend};

#[test]
fn test_layout_code_to_name() {
    assert_eq!(KeyboardBackend::layout_code_to_name("us", None), "English (US)");
    assert_eq!(KeyboardBackend::layout_code_to_name("de", None), "German");
    assert_eq!(
        KeyboardBackend::layout_code_to_name("us", Some("dvorak")),
        "English (US) (Dvorak)"
    );
}

#[test]
fn layout_names_of_unknown_codes_and_variants() {
    assert_eq!(KeyboardBackend::layout_code_to_name("xx", None), "xx");
    assert_eq!(KeyboardBackend::layout_code_to_name("fr", Some("bepo")), "French (bepo)");
    assert_eq!(KeyboardBackend::layout_code_to_name("gb", Some("intl")), "English (UK) (International)");
    assert_eq!(KeyboardBackend::layout_code_to_name("gb", Some("")), "English (UK)");
}

#[test]
fn test_default_repeat_settings() {
    let settings = KeyRepeatSettings::default();
    assert_eq!(settings.delay, 500);
    assert_eq!(settings.rate, 25);
}

#[test]
fn current_layout_from_localectl() {
    let out = "   System Locale: LANG=en_US.UTF-8\n       VC Keymap: de\n      X11 Layout: de\n     X11 Variant: nodeadkeys\n";
    let l = KeyboardBackend::parse_localectl_output(out);
    assert_eq!(l.code, "de");
    assert_eq!(l.variant, Some("nodeadkeys".to_string()));
    assert_eq!(l.name, "German (nodeadkeys)");
    let fallback = KeyboardBackend::get_current_layout(None, None);
    assert_eq!(fallback.code, "us");
    assert_eq!(fallback.name, "English (US)");
}

#[test]
fn current_layout_from_setxkbmap() {
    let out = "rules:      evdev\nmodel:      pc105\nlayout:     us\nvariant:    colemak\n";
    let l = KeyboardBackend::get_current_layout(None, Some(out));
    assert_eq!(l.code, "us");
    assert_eq!(l.name, "English (US) (Colemak)");
}

#[test]
fn repeat_settings_from_xset() {
    let out = "Keyboard Control:\n  auto repeat delay:  660    repeat rate:  25\n";
    assert_eq!(
        KeyboardBackend::parse_xset_output(out),
        Some(KeyRepeatSettings { delay: 660, rate: 25 })
    );
    assert_eq!(KeyboardBackend::parse_xset_output("nothing here\n"), None);
    assert_eq!(KeyboardBackend::get_repeat_settings(None), KeyRepeatSettings::default());
}

#[test]
fn layout_and_variant_lists() {
    let layouts = KeyboardBackend::list_layouts(Some("us\n\nde\n"));
    assert_eq!(layouts.len(), 2);
    assert_eq!(layouts[1].name, "German");
    assert!(KeyboardBackend::list_layouts(None).is_empty());
    assert_eq!(
        KeyboardBackend::list_variants(Some("dvorak\nintl\n")),
        vec!["dvorak".to_string(), "intl".to_string()]
    );
    assert_eq!(
        KeyboardBackend::setxkbmap_layout_args("de", Some("nodeadkeys")),
        vec!["-layout", "de", "-variant", "nodeadkeys"]
    );
    assert_eq!(
        KeyboardBackend::localectl_layout_args("us", None),
        vec!["set-x11-keymap", "us"]
    );
}
