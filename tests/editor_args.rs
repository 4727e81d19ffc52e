use tap::editor::{build_editor_args, EditorKind, Position};

#[test]
fn test_detect_vim() {
    assert_eq!(EditorKind::detect("vim"), EditorKind::Vim);
    assert_eq!(EditorKind::detect("nvim"), EditorKind::Vim);
    assert_eq!(EditorKind::detect("/usr/bin/vim"), EditorKind::Vim);
    assert_eq!(EditorKind::detect("/opt/homebrew/bin/nvim"), EditorKind::Vim);
}

#[test]
fn test_detect_vscode() {
    assert_eq!(EditorKind::detect("code"), EditorKind::VsCode);
    assert_eq!(EditorKind::detect("cursor"), EditorKind::VsCode);
    assert_eq!(EditorKind::detect("/usr/local/bin/code"), EditorKind::VsCode);
}

#[test]
fn test_detect_others() {
    assert_eq!(EditorKind::detect("nano"), EditorKind::Nano);
    assert_eq!(EditorKind::detect("emacs"), EditorKind::Emacs);
    assert_eq!(EditorKind::detect("hx"), EditorKind::Helix);
    assert_eq!(EditorKind::detect("unknown-editor"), EditorKind::Unknown);
}

#[test]
fn test_vim_args() {
    let (args, file) = build_editor_args("vim", "/tmp/test.txt", Some(Position::line(42)));
    assert_eq!(args, vec!["+42"]);
    assert_eq!(file, "/tmp/test.txt");
}

#[test]
fn test_vscode_args() {
    let (args, file) = build_editor_args("cursor", "/tmp/test.txt", Some(Position::new(42, Some(10))));
    assert_eq!(args, vec!["-g"]);
    assert_eq!(file, "/tmp/test.txt:42:10");
}

#[test]
fn test_helix_args() {
    let (args, file) = build_editor_args("hx", "/tmp/test.txt", Some(Position::line(42)));
    assert!(args.is_empty());
    assert_eq!(file, "/tmp/test.txt:42");
}

#[test]
fn test_nano_args() {
    let (args, file) = build_editor_args("nano", "/tmp/test.txt", Some(Position::new(42, Some(5))));
    assert_eq!(args, vec!["+42,5"]);
    assert_eq!(file, "/tmp/test.txt");
}

#[test]
fn test_no_position() {
    let (args, file) = build_editor_args("vim", "/tmp/test.txt", None);
    assert!(args.is_empty());
    assert_eq!(file, "/tmp/test.txt");
}

#[test]
fn emacs_and_vscode_defaults() {
    let (args, file) = build_editor_args("/usr/bin/emacsclient", "a.txt", Some(Position::new(7, Some(3))));
    assert_eq!(args, vec!["+7:3"]);
    assert_eq!(file, "a.txt");
    let (args, _) = build_editor_args("emacs", "a.txt", Some(Position::line(7)));
    assert_eq!(args, vec!["+7"]);
    let (args, file) = build_editor_args("code", "a.txt", Some(Position::line(1000)));
    assert_eq!(args, vec!["-g"]);
    assert_eq!(file, "a.txt:1000:1");
    let (args, file) = build_editor_args("ed", "a.txt", Some(Position::line(3)));
    assert!(args.is_empty());
    assert_eq!(file, "a.txt");
    let (args, _) = build_editor_args("nano", "a.txt", Some(Position::line(0)));
    assert_eq!(args, vec!["+0"]);
}

#[test]
fn detect_more_names() {
    assert_eq!(EditorKind::detect("vimdiff"), EditorKind::Vim);
    assert_eq!(EditorKind::detect("view"), EditorKind::Vim);
    assert_eq!(EditorKind::detect("vscodium"), EditorKind::VsCode);
    assert_eq!(EditorKind::detect("code-insiders"), EditorKind::VsCode);
    assert_eq!(EditorKind::detect("pico"), EditorKind::Nano);
    assert_eq!(EditorKind::detect("/bin/helix"), EditorKind::Helix);
    assert_eq!(EditorKind::detect(""), EditorKind::Unknown);
}

#[test]
fn detect_reads_the_final_path_component() {
    assert_eq!(EditorKind::detect("vim/"), EditorKind::Vim);
    assert_eq!(EditorKind::detect("/usr/bin/nvim//"), EditorKind::Vim);
    assert_eq!(EditorKind::detect("/usr/bin/hx/."), EditorKind::Helix);
    assert_eq!(EditorKind::detect("/usr/bin/code/./"), EditorKind::VsCode);
    assert_eq!(EditorKind::detect("/"), EditorKind::Unknown);
    assert_eq!(EditorKind::detect("."), EditorKind::Unknown);
    assert_eq!(EditorKind::detect("/usr/bin/.."), EditorKind::Unknown);
    let (args, file) = build_editor_args("/usr/bin/vim/", "f.txt", Some(Position::line(3)));
    assert_eq!(args, vec!["+3"]);
    assert_eq!(file, "f.txt");
}
