use tap::scrollback::ScrollbackBuffer;

#[test]
fn test_push_simple_text() {
    let mut buf = ScrollbackBuffer::new();
    buf.push(b"hello world");
    assert_eq!(buf.get_lines(None).trim(), "hello world");
}

#[test]
fn test_push_with_newlines() {
    let mut buf = ScrollbackBuffer::new();
    buf.push(b"line1\r\nline2\r\nline3");
    let content = buf.get_lines(None);
    assert!(content.contains("line1"));
    assert!(content.contains("line2"));
    assert!(content.contains("line3"));
}

#[test]
fn test_get_last_n_lines() {
    let mut buf = ScrollbackBuffer::new();
    buf.push(b"line1\r\nline2\r\nline3\r\nline4\r\n");
    let last_two = buf.get_lines(Some(2));
    assert!(last_two.contains("line3") || last_two.contains("line4"));
}

#[test]
fn test_cursor_position() {
    let mut buf = ScrollbackBuffer::new();
    buf.push(b"hello\r\nworld");
    let (row, col) = buf.cursor_position();
    assert_eq!(row, 1);
    assert_eq!(col, 5);
}

#[test]
fn test_strips_ansi_escapes() {
    let mut buf = ScrollbackBuffer::new();
    buf.push(b"\x1b[31mred text\x1b[0m");
    let content = buf.get_lines(None);
    assert!(content.contains("red text"));
    assert!(!content.contains("\x1b[31m"));
    assert!(!content.contains("[31m"));
}

#[test]
fn test_alternate_screen_shows_only_alternate_content() {
    let mut buf = ScrollbackBuffer::new();
    buf.push(b"main line 1\r\nmain line 2\r\nmain line 3");
    buf.push(b"\x1b[?1049h");
    buf.push(b"alternate content here");
    let content = buf.get_lines(None);
    assert!(content.contains("alternate content here"), "should contain alternate content");
    assert!(
        !content.contains("main line 1"),
        "should NOT contain main screen content when in alternate mode"
    );
    assert!(
        !content.contains("main line 2"),
        "should NOT contain main screen content when in alternate mode"
    );
}

#[test]
fn test_vim_like_workflow() {
    let mut buf = ScrollbackBuffer::new();
    buf.push(b"$ ls -la\r\nfile1.txt\r\nfile2.txt\r\n$ vim file1.txt\r\n");
    buf.push(b"\x1b[?1049h");
    buf.push(b"Hello from file1.txt\r\nThis is vim editing mode");
    let content_in_vim = buf.get_lines(None);
    assert!(content_in_vim.contains("Hello from file1.txt"));
    assert!(!content_in_vim.contains("$ ls -la"), "shell history should not be visible while in vim");
    buf.push(b"\x1b[?1049l");
    let content_after_vim = buf.get_lines(None);
    assert!(content_after_vim.contains("$ ls -la"), "shell history should be restored after exiting vim");
    assert!(content_after_vim.contains("file1.txt"), "ls output should be visible after exiting vim");
}

#[test]
fn test_multiple_alternate_screen_cycles() {
    let mut buf = ScrollbackBuffer::new();
    buf.push(b"session start\r\n");
    for i in 1..=3 {
        buf.push(b"\x1b[?1049h");
        buf.push(format!("editor session {i}").as_bytes());
        let in_alt = buf.get_lines(None);
        assert!(in_alt.contains(&format!("editor session {i}")));
        assert!(!in_alt.contains("session start"));
        buf.push(b"\x1b[?1049l");
        let in_main = buf.get_lines(None);
        assert!(in_main.contains("session start"));
    }
}

#[test]
fn test_alternate_screen_isolation() {
    let mut buf = ScrollbackBuffer::new();
    for i in 1..=50 {
        buf.push(format!("history line {i}\r\n").as_bytes());
    }
    buf.push(b"\x1b[?1049h");
    buf.push(b"TUI application interface");
    let content = buf.get_lines(None);
    assert!(content.contains("TUI application interface"));
    assert!(
        !content.contains("history line 1"),
        "scrollback history should not leak into alternate screen view"
    );
    assert!(
        !content.contains("history line 50"),
        "scrollback history should not leak into alternate screen view"
    );
}

#[test]
fn empty_store_reads_empty() {
    let buf = ScrollbackBuffer::new();
    assert_eq!(buf.get_lines(None), "");
    assert_eq!(buf.get_lines(Some(3)), "");
    assert_eq!(buf.cursor_position(), (0, 0));
}

#[test]
fn hello_world_scenario() {
    let mut buf = ScrollbackBuffer::new();
    buf.push(b"hello world\r\n");
    assert_eq!(buf.get_lines(None).trim(), "hello world");
    assert_eq!(buf.cursor_position(), (1, 0));
}

#[test]
fn reads_repeat_until_next_push() {
    let mut buf = ScrollbackBuffer::new();
    buf.push(b"a\r\nb\r\nc");
    let first = buf.get_lines(None);
    let second = buf.get_lines(None);
    assert_eq!(first, second);
    assert_eq!(buf.get_lines(Some(2)), buf.get_lines(Some(2)));
    buf.push(b"d");
    assert_ne!(buf.get_lines(None), first);
}

#[test]
fn replaying_bytes_gives_same_screen() {
    let raw: &[u8] = b"one\r\ntwo\x1b[1;31m three\x1b[0m\r\n\x1b[2Afour";
    let mut a = ScrollbackBuffer::new();
    a.push(raw);
    let mut b = ScrollbackBuffer::new();
    b.push(&raw[..7]);
    b.push(&raw[7..]);
    assert_eq!(a.get_lines(None), b.get_lines(None));
    assert_eq!(a.cursor_position(), b.cursor_position());
}

#[test]
fn screen_keeps_most_recent_lines() {
    let mut buf = ScrollbackBuffer::new();
    for i in 0..100 {
        buf.push(format!("row {i}\r\n").as_bytes());
    }
    let content = buf.get_lines(None);
    let lines: Vec<&str> = content.lines().filter(|l| !l.is_empty()).collect();
    assert_eq!(lines.len(), 23);
    assert_eq!(lines[0], "row 77");
    assert_eq!(lines[22], "row 99");
}

#[test]
fn alternate_screen_round_trip_restores_view() {
    let mut buf = ScrollbackBuffer::new();
    buf.push(b"before\r\nprompt $ ");
    let before = buf.get_lines(None);
    buf.push(b"\x1b[?1049hfull screen app\x1b[?1049l");
    assert_eq!(buf.get_lines(None), before);
}

#[test]
fn last_lines_join_with_newline() {
    let mut buf = ScrollbackBuffer::new();
    buf.push(b"l1\r\nl2\r\nl3");
    let all = buf.get_lines(None);
    let n = all.lines().count();
    assert_eq!(buf.get_lines(Some(0)), "");
    let two = buf.get_lines(Some(2));
    let expected: Vec<&str> = all.lines().skip(n - 2).collect();
    assert_eq!(two, expected.join("\n"));
}

#[test]
fn last_lines_of_text() {
    assert_eq!(tap::text::last_lines_of("a\nb\r\nc\n", 2), "b\nc");
    assert_eq!(tap::text::last_lines_of("a\nb", 5), "a\nb");
    assert_eq!(tap::text::last_lines_of("", 5), "");
    assert_eq!(tap::text::line_count("a\n\nb\n"), 3);
    assert_eq!(tap::text::line_count("x\r"), 1);
}
