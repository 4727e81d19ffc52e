use tap::config::Config;
use tap::input::{InputProcessor, InputResult, KeybindAction};

const ESC_BYTE: u8 = 0x1b;

fn default_processor() -> InputProcessor {
    let config = Config::default();
    InputProcessor::new(&config).unwrap()
}

#[test]
fn test_passthrough_normal_input() {
    let mut proc = default_processor();
    match proc.process(b"hello") {
        InputResult::Passthrough(bytes) => assert_eq!(bytes, b"hello"),
        _ => panic!("Expected passthrough"),
    }
}

#[test]
fn test_escape_triggers_pending() {
    let mut proc = default_processor();
    match proc.process(&[ESC_BYTE]) {
        InputResult::NeedMore => {}
        _ => panic!("Expected NeedMore for lone ESC"),
    }
    assert!(proc.has_pending_escape());
}

#[test]
fn test_alt_e_triggers_action() {
    let mut proc = default_processor();
    match proc.process(&[ESC_BYTE, b'e']) {
        InputResult::Action(KeybindAction::OpenEditor) => {}
        _ => panic!("Expected OpenEditor action"),
    }
}

#[test]
fn test_pending_escape_then_e() {
    let mut proc = default_processor();
    match proc.process(&[ESC_BYTE]) {
        InputResult::NeedMore => {}
        _ => panic!("Expected NeedMore"),
    }
    match proc.process(b"e") {
        InputResult::Action(KeybindAction::OpenEditor) => {}
        _ => panic!("Expected OpenEditor action"),
    }
}

#[test]
fn test_pending_escape_timeout() {
    let mut proc = default_processor();
    proc.process(&[ESC_BYTE]);
    match proc.timeout_escape() {
        InputResult::Passthrough(bytes) => assert_eq!(bytes, vec![ESC_BYTE]),
        _ => panic!("Expected passthrough of ESC"),
    }
    assert!(!proc.has_pending_escape());
}

#[test]
fn test_escape_then_other_key() {
    let mut proc = default_processor();
    proc.process(&[ESC_BYTE]);
    match proc.process(b"x") {
        InputResult::Passthrough(bytes) => assert_eq!(bytes, vec![ESC_BYTE, b'x']),
        _ => panic!("Expected passthrough"),
    }
}

#[test]
fn test_ctrl_e_triggers_action() {
    let mut config = Config::default();
    config.keybinds.editor = "Ctrl-e".to_string();
    let mut proc = InputProcessor::new(&config).unwrap();
    match proc.process(&[0x05]) {
        InputResult::Action(KeybindAction::OpenEditor) => {}
        other => panic!("Expected OpenEditor action, got {:?}", other),
    }
}

#[test]
fn enhanced_alt_e_triggers_action() {
    let mut proc = default_processor();
    match proc.process(b"\x1b[101;3u") {
        InputResult::Action(KeybindAction::OpenEditor) => {}
        other => panic!("Expected OpenEditor action, got {:?}", other),
    }
}

#[test]
fn empty_read_releases_held_escape() {
    let mut proc = default_processor();
    match proc.process(&[]) {
        InputResult::Passthrough(bytes) => assert!(bytes.is_empty()),
        other => panic!("unexpected {:?}", other),
    }
    proc.process(&[ESC_BYTE]);
    match proc.process(&[]) {
        InputResult::Passthrough(bytes) => assert_eq!(bytes, vec![ESC_BYTE]),
        other => panic!("unexpected {:?}", other),
    }
    assert!(!proc.has_pending_escape());
}

#[test]
fn timeout_without_escape_sends_nothing() {
    let mut proc = default_processor();
    match proc.timeout_escape() {
        InputResult::Passthrough(bytes) => assert!(bytes.is_empty()),
        other => panic!("unexpected {:?}", other),
    }
}

#[test]
fn escape_rounds_send_one_escape_each() {
    let mut proc = default_processor();
    let mut sent: Vec<u8> = Vec::new();
    for _ in 0..3 {
        if let InputResult::Passthrough(b) = proc.process(&[ESC_BYTE]) {
            sent.extend(b);
        }
        if let InputResult::Passthrough(b) = proc.timeout_escape() {
            sent.extend(b);
        }
        if let InputResult::Passthrough(b) = proc.timeout_escape() {
            sent.extend(b);
        }
    }
    assert_eq!(sent, vec![ESC_BYTE, ESC_BYTE, ESC_BYTE]);
}

#[test]
fn escape_timeout_from_config() {
    let mut config = Config::default();
    config.timing.escape_timeout_ms = 120;
    let proc = InputProcessor::new(&config).unwrap();
    assert_eq!(proc.escape_timeout_ms(), 120);
    assert_eq!(proc.escape_timeout(), std::time::Duration::from_millis(120));
}

#[test]
fn bad_keybind_is_refused() {
    let mut config = Config::default();
    config.keybinds.editor = "Meta-e".to_string();
    assert!(InputProcessor::new(&config).is_err());
}

#[test]
fn configured_detach_keybind_fires() {
    let mut config = Config::default();
    config.keybinds.detach = Some("Ctrl-d".to_string());
    let mut proc = InputProcessor::new(&config).unwrap();
    match proc.process(&[0x04]) {
        InputResult::Action(KeybindAction::Detach) => {}
        other => panic!("Expected Detach action, got {:?}", other),
    }
    match proc.process(&[0x1b, b'e']) {
        InputResult::Action(KeybindAction::OpenEditor) => {}
        other => panic!("Expected OpenEditor action, got {:?}", other),
    }
    config.keybinds.detach = Some("Hyper-d".to_string());
    assert!(InputProcessor::new(&config).is_err());
}
