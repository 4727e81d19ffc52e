use tap::kitty::{translate_all_csi_u, translate_csi_u_to_traditional, KittyState};

#[test]
fn test_translate_ctrl_c() {
    let input = b"\x1b[99;5u";
    let (translated, consumed) = translate_csi_u_to_traditional(input).unwrap();
    assert_eq!(translated, vec![0x03]);
    assert_eq!(consumed, input.len());
}

#[test]
fn test_translate_ctrl_d() {
    let input = b"\x1b[100;5u";
    let (translated, consumed) = translate_csi_u_to_traditional(input).unwrap();
    assert_eq!(translated, vec![0x04]);
    assert_eq!(consumed, input.len());
}

#[test]
fn test_translate_alt_e() {
    let input = b"\x1b[101;3u";
    let (translated, consumed) = translate_csi_u_to_traditional(input).unwrap();
    assert_eq!(translated, vec![0x1b, b'e']);
    assert_eq!(consumed, input.len());
}

#[test]
fn test_translate_plain_a() {
    let input = b"\x1b[97u";
    let (translated, consumed) = translate_csi_u_to_traditional(input).unwrap();
    assert_eq!(translated, vec![b'a']);
    assert_eq!(consumed, input.len());
}

#[test]
fn test_translate_enter() {
    let input = b"\x1b[13u";
    let (translated, consumed) = translate_csi_u_to_traditional(input).unwrap();
    assert_eq!(translated, vec![0x0d]);
    assert_eq!(consumed, input.len());
}

#[test]
fn test_kitty_state_push() {
    let mut state = KittyState::new();
    assert!(!state.inner_supports_kitty);
    state.process_pty_output(b"\x1b[>1u");
    assert!(state.inner_supports_kitty);
    state.process_pty_output(b"\x1b[<u");
    assert!(!state.inner_supports_kitty);
}

#[test]
fn test_kitty_state_set() {
    let mut state = KittyState::new();
    state.process_pty_output(b"\x1b[=1m");
    assert!(state.inner_supports_kitty);
    state.process_pty_output(b"\x1b[=0m");
    assert!(!state.inner_supports_kitty);
}

#[test]
fn test_translate_all() {
    let input = b"hello\x1b[99;5uworld";
    let result = translate_all_csi_u(input);
    assert_eq!(result, b"hello\x03world");
}

fn tr(input: &[u8]) -> Option<Vec<u8>> {
    translate_csi_u_to_traditional(input).map(|(t, _)| t)
}

#[test]
fn special_keys() {
    assert_eq!(tr(b"\x1b[27u"), Some(vec![0x1b]));
    assert_eq!(tr(b"\x1b[13;3u"), Some(vec![0x1b, 0x0d]));
    assert_eq!(tr(b"\x1b[9u"), Some(vec![0x09]));
    assert_eq!(tr(b"\x1b[9;2u"), Some(b"\x1b[Z".to_vec()));
    assert_eq!(tr(b"\x1b[9;4u"), Some(b"\x1b\x1b[Z".to_vec()));
    assert_eq!(tr(b"\x1b[127u"), Some(vec![0x7f]));
    assert_eq!(tr(b"\x1b[127;5u"), Some(vec![0x08]));
    assert_eq!(tr(b"\x1b[127;7u"), Some(vec![0x1b, 0x08]));
}

#[test]
fn letters_and_symbols() {
    assert_eq!(tr(b"\x1b[97;4u"), Some(vec![0x1b, b'A']));
    assert_eq!(tr(b"\x1b[65;3u"), Some(vec![0x1b, b'a']));
    assert_eq!(tr(b"\x1b[65;5u"), Some(vec![0x01]));
    assert_eq!(tr(b"\x1b[97;7u"), Some(vec![0x1b, 0x01]));
    assert_eq!(tr(b"\x1b[91;5u"), Some(vec![0x1b]));
    assert_eq!(tr(b"\x1b[92;5u"), Some(vec![0x1c]));
    assert_eq!(tr(b"\x1b[93;5u"), Some(vec![0x1d]));
    assert_eq!(tr(b"\x1b[54;5u"), Some(vec![0x1e]));
    assert_eq!(tr(b"\x1b[45;5u"), Some(vec![0x1f]));
    assert_eq!(tr(b"\x1b[50;5u"), Some(vec![0x00]));
    assert_eq!(tr(b"\x1b[49;7u"), Some(vec![0x1b, b'1']));
    assert_eq!(tr(b"\x1b[49;3u"), Some(vec![0x1b, b'1']));
    assert_eq!(tr(b"\x1b[49u"), Some(vec![b'1']));
    assert_eq!(tr(b"\x1b[233u"), None);
}

#[test]
fn protocol_requests_are_not_keys() {
    assert_eq!(tr(b"\x1b[>1u"), None);
    assert_eq!(tr(b"\x1b[<u"), None);
    assert_eq!(tr(b"\x1b[?u"), None);
    assert_eq!(tr(b"\x1b[=1;1u"), None);
    assert_eq!(tr(b"\x1b[u"), None);
    assert_eq!(translate_all_csi_u(b"\x1b[>1u\x1b[?u"), b"\x1b[>1u\x1b[?u".to_vec());
}

#[test]
fn identity_without_key_events() {
    let input = b"plain text \x1b[31m red \x1b[0m and \x1b[A arrows";
    assert_eq!(translate_all_csi_u(input), input.to_vec());
    assert_eq!(translate_all_csi_u(b""), Vec::<u8>::new());
}

#[test]
fn enhanced_translates_to_legacy() {
    for c in b'a'..=b'z' {
        let alt = format!("\x1b[{};3u", c);
        assert_eq!(translate_all_csi_u(alt.as_bytes()), vec![0x1b, c]);
        let ctrl = format!("\x1b[{};5u", c);
        assert_eq!(translate_all_csi_u(ctrl.as_bytes()), vec![c & 0x1f]);
    }
}

#[test]
fn translated_key_u_is_the_only_ending_in_u() {
    assert_eq!(tr(b"\x1b[117u"), Some(vec![b'u']));
    assert_eq!(tr(b"\x1b[85;3u"), Some(vec![0x1b, b'u']));
    assert_eq!(tr(b"\x1b[118u"), Some(vec![b'v']));
}

#[test]
fn kitty_state_ignores_other_output() {
    let mut state = KittyState::new();
    state.process_pty_output(b"text \x1b[31m \x1b[>u");
    assert!(!state.inner_supports_kitty);
    state.process_pty_output(b"\x1b[>0;1u");
    assert!(state.inner_supports_kitty);
    state.process_pty_output(b"\x1b[=00m");
    assert!(!state.inner_supports_kitty);
    state.process_pty_output(b"\x1b[>99999999999999u");
    assert!(state.inner_supports_kitty);
}

#[test]
fn single_event_buffers() {
    assert_eq!(translate_all_csi_u(b"\x1b[233;5u"), b"\x1b[233;5u".to_vec());
    assert_eq!(translate_all_csi_u(b"\x1b[97;4u"), vec![0x1b, b'A']);
    assert_eq!(translate_all_csi_u(b"\x1b[97;1u"), vec![b'a']);
    assert_eq!(translate_all_csi_u(b"\x1b[13;3u"), vec![0x1b, 0x0d]);
    for cp in 32u32..127 {
        let data = format!("\x1b[{cp}u");
        let out = translate_all_csi_u(data.as_bytes());
        assert_eq!(out, vec![cp as u8]);
        if cp != 117 && cp != 85 {
            assert_ne!(out.last(), Some(&b'u'));
        }
    }
}
