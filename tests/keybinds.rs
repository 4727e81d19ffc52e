use tap::config::{get_editor, Config, Keybind, KeybindError};

#[test]
fn test_keybind_parse_alt() {
    let kb = Keybind::parse("Alt-e").unwrap();
    assert_eq!(kb, Keybind::Alt('e'));
}

#[test]
fn test_keybind_parse_ctrl() {
    let kb = Keybind::parse("Ctrl-c").unwrap();
    assert_eq!(kb, Keybind::Ctrl('c'));
}

#[test]
fn test_keybind_matches_alt() {
    let kb = Keybind::Alt('e');
    assert_eq!(kb.matches(&[0x1b, b'e']), Some(2));
    assert_eq!(kb.matches(&[0x1b, b'x']), None);
    assert_eq!(kb.matches(&[0x1b]), None);
}

#[test]
fn test_keybind_matches_ctrl() {
    let kb = Keybind::Ctrl('c');
    assert_eq!(kb.matches(&[0x03]), Some(1));
    assert_eq!(kb.matches(&[0x04]), None);
}

#[test]
fn test_default_config() {
    let config = Config::default();
    assert_eq!(config.keybinds.editor, "Alt-e");
    assert_eq!(config.timing.escape_timeout_ms, 50);
}

#[test]
fn test_ctrl_e_end_to_end() {
    let kb = Keybind::parse("Ctrl-e").unwrap();
    assert_eq!(kb, Keybind::Ctrl('e'));
    assert_eq!(kb.matches(&[0x05]), Some(1));
}

#[test]
fn test_kitty_protocol_alt_e() {
    let kb = Keybind::Alt('e');
    let kitty_seq = b"\x1b[101;3u";
    assert_eq!(kb.matches(kitty_seq), Some(8));
}

#[test]
fn test_kitty_protocol_ctrl_e() {
    let kb = Keybind::Ctrl('e');
    let kitty_seq = b"\x1b[101;5u";
    assert_eq!(kb.matches(kitty_seq), Some(8));
}

#[test]
fn test_kitty_protocol_wrong_modifier() {
    let kb = Keybind::Alt('e');
    let kitty_seq = b"\x1b[101;5u";
    assert_eq!(kb.matches(kitty_seq), None);
}

#[test]
fn parse_modifier_in_any_case() {
    assert_eq!(Keybind::parse("ALT-x").unwrap(), Keybind::Alt('x'));
    assert_eq!(Keybind::parse("cTrL-E").unwrap(), Keybind::Ctrl('e'));
    assert_eq!(Keybind::parse("Alt-E").unwrap(), Keybind::Alt('E'));
}

#[test]
fn parse_takes_first_char_of_key() {
    assert_eq!(Keybind::parse("Alt-enter").unwrap(), Keybind::Alt('e'));
}

#[test]
fn parse_errors() {
    assert_eq!(Keybind::parse("Alte"), Err(KeybindError::InvalidFormat));
    assert_eq!(Keybind::parse("Alt-e-x"), Err(KeybindError::InvalidFormat));
    assert_eq!(Keybind::parse("Alt-"), Err(KeybindError::MissingKey));
    assert_eq!(Keybind::parse("Shift-e"), Err(KeybindError::UnknownModifier));
    assert_eq!(Keybind::parse("Shift-"), Err(KeybindError::MissingKey));
}

#[test]
fn from_parts_takes_lowered_modifier() {
    assert_eq!(Keybind::from_parts("alt", "q"), Ok(Keybind::Alt('q')));
    assert_eq!(Keybind::from_parts("ctrl", "Q"), Ok(Keybind::Ctrl('q')));
    assert_eq!(Keybind::from_parts("Alt", "q"), Err(KeybindError::UnknownModifier));
    assert_eq!(Keybind::from_parts("alt", ""), Err(KeybindError::MissingKey));
}

#[test]
fn enhanced_match_takes_plus_sign_and_extra_fields() {
    let kb = Keybind::Alt('e');
    assert_eq!(kb.matches(b"\x1b[+101;3u"), Some(9));
    assert_eq!(kb.matches(b"\x1b[101;3;7uzz"), Some(10));
    assert_eq!(kb.matches(b"\x1b[101u"), None);
    assert_eq!(kb.matches(b"\x1b[101;\xffu"), None);
}

#[test]
fn enhanced_match_rejects_overflowing_codepoint() {
    let kb = Keybind::Ctrl('e');
    assert_eq!(kb.matches(b"\x1b[4294967397;5u"), None);
}

#[test]
fn both_encodings_of_a_keybind_match() {
    for kb in [Keybind::Alt('e'), Keybind::Ctrl('e'), Keybind::Alt('1'), Keybind::Ctrl('z')] {
        let (c, m) = match kb {
            Keybind::Alt(c) => (c, 3),
            Keybind::Ctrl(c) => (c, 5),
        };
        let enhanced = format!("\x1b[{};{}u", c as u32, m);
        assert_eq!(kb.matches(enhanced.as_bytes()), Some(enhanced.len()));
        let legacy: Vec<u8> = match kb {
            Keybind::Alt(c) => vec![0x1b, c as u8],
            Keybind::Ctrl(c) => vec![(c as u8) & 0x1f],
        };
        assert_eq!(kb.matches(&legacy), Some(legacy.len()));
    }
}

#[test]
fn editor_choice_order() {
    let mut config = Config::default();
    assert_eq!(get_editor(&config, Some("nano".to_string()), Some("emacs".to_string())), "nano");
    assert_eq!(get_editor(&config, None, Some("emacs".to_string())), "emacs");
    assert_eq!(get_editor(&config, None, None), "vi");
    config.editor = Some("hx".to_string());
    assert_eq!(get_editor(&config, Some("nano".to_string()), None), "hx");
}
