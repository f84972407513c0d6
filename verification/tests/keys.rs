use mcp_pty_server::keys::process_special_keys;

#[test]
fn plain_text_is_sent_unchanged() {
    assert_eq!(process_special_keys("hello world"), b"hello world".to_vec());
    assert_eq!(process_special_keys(""), Vec::<u8>::new());
    assert_eq!(process_special_keys("gr\u{fc}n \u{4e2d}"), "gr\u{fc}n \u{4e2d}".as_bytes().to_vec());
}

#[test]
fn enter_ends_a_command() {
    let sent = process_special_keys("ls -la[ENTER]");
    assert_eq!(sent, b"ls -la\r".to_vec());
    assert_eq!(sent.len(), 7);
}

#[test]
fn caret_and_bracketed_controls_agree() {
    assert_eq!(process_special_keys("^C"), vec![3]);
    assert_eq!(process_special_keys("^c"), vec![3]);
    assert_eq!(process_special_keys("[CTRL+C]"), vec![3]);
    assert_eq!(process_special_keys("[CTRL+c]"), vec![3]);
    assert_eq!(process_special_keys("^A^Z"), vec![1, 26]);
    for letter in b'A'..=b'Z' {
        let caret = format!("x^{}y", letter as char);
        let bracketed = format!("x[CTRL+{}]y", letter as char);
        assert_eq!(process_special_keys(&caret), vec![b'x', letter - 64, b'y']);
        assert_eq!(process_special_keys(&bracketed), process_special_keys(&caret));
    }
}

#[test]
fn escapes_are_single_bytes() {
    assert_eq!(process_special_keys("a\\nb\\rc\\td"), b"a\nb\rc\td".to_vec());
    assert_eq!(process_special_keys("\\x1b[A"), vec![0x1b, b'[', b'A']);
    assert_eq!(process_special_keys("\\xfF\\x00"), vec![0xff, 0x00]);
}

#[test]
fn named_keys_send_their_sequences() {
    let cases: Vec<(&str, &[u8])> = vec![
        ("[ENTER]", b"\r"),
        ("[TAB]", b"\t"),
        ("[SHIFT+TAB]", b"\x1b[Z"),
        ("[ESCAPE]", b"\x1b"),
        ("[BACKSPACE]", b"\x7f"),
        ("[DELETE]", b"\x1b[3~"),
        ("[UP]", b"\x1b[A"),
        ("[DOWN]", b"\x1b[B"),
        ("[RIGHT]", b"\x1b[C"),
        ("[LEFT]", b"\x1b[D"),
        ("[HOME]", b"\x1b[H"),
        ("[END]", b"\x1b[F"),
        ("[PGUP]", b"\x1b[5~"),
        ("[PGDN]", b"\x1b[6~"),
        ("[F1]", b"\x1bOP"),
        ("[F2]", b"\x1bOQ"),
        ("[F3]", b"\x1bOR"),
        ("[F4]", b"\x1bOS"),
        ("[F5]", b"\x1b[15~"),
        ("[F6]", b"\x1b[17~"),
        ("[F7]", b"\x1b[18~"),
        ("[F8]", b"\x1b[19~"),
        ("[F9]", b"\x1b[20~"),
        ("[F10]", b"\x1b[21~"),
        ("[F11]", b"\x1b[23~"),
        ("[F12]", b"\x1b[24~"),
        ("[PASTE_START]", b"\x1b[200~"),
        ("[PASTE_END]", b"\x1b[201~"),
    ];
    for (name, bytes) in cases {
        assert_eq!(process_special_keys(name), bytes.to_vec(), "{}", name);
        let inside = format!("a{}b", name);
        let mut expected = vec![b'a'];
        expected.extend_from_slice(bytes);
        expected.push(b'b');
        assert_eq!(process_special_keys(&inside), expected, "{}", name);
    }
}

#[test]
fn what_is_no_placeholder_passes() {
    for text in ["^", "^1", "\\", "\\q", "\\x", "\\x4", "\\xg0", "[", "[]", "[FOO]", "[ENTER", "[CTRL+1]", "[CTRL+AB]", "[F13]"] {
        assert_eq!(process_special_keys(text), text.as_bytes().to_vec(), "{}", text);
    }
    assert_eq!(process_special_keys("[[UP]]"), b"[\x1b[A]".to_vec());
    assert_eq!(process_special_keys("^^C"), vec![b'^', 3]);
}
