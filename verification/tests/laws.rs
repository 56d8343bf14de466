use termkey::KeyDesc;
use termkey::TermKey;
use termkey::TermKeyEvent;
use termkey::TermKeyFormat;
use termkey::TermKeyResult;
use termkey::TermKeySym;
use termkey::X_TermKey_Canon;
use termkey::X_TermKey_Flag;
use termkey::X_TermKey_KeyMod;

fn drain(tk: &mut TermKey) -> Vec<TermKeyEvent> {
    let mut out = Vec::new();
    loop {
        match tk.getkey() {
            TermKeyResult::Key(k) => out.push(k),
            _ => break,
        }
    }
    out
}

#[test]
fn incremental_feed_matches_batch() {
    // the same bytes fed one at a time and all at once decode to the
    // same events
    let bytes = "h\x1b[A\x1b[<0;30;30M\x01\u{00A0}x".as_bytes();

    let mut whole = TermKey::new_abstract("vt100", X_TermKey_Flag::empty());
    whole.push_bytes(bytes);
    let batch = drain(&mut whole);

    let mut pieces = TermKey::new_abstract("vt100", X_TermKey_Flag::empty());
    let mut incremental = Vec::new();
    for b in bytes {
        pieces.push_bytes(&[*b]);
        for k in drain(&mut pieces) {
            incremental.push(k);
        }
    }

    assert_eq!(batch.len(), 6);
    assert_eq!(incremental.len(), batch.len());
    for i in 0..batch.len() {
        assert!(incremental[i] == batch[i]);
    }
}

#[test]
fn ss3_prefix_completes_to_up() {
    // an SS3 prefix waits, and completing it gives the same event as
    // pushing the whole sequence at once
    let mut tk = TermKey::new_abstract("vt100", X_TermKey_Flag::empty());
    tk.push_bytes("\x1bOA".as_bytes());
    let all_at_once = match tk.getkey() {
        TermKeyResult::Key(k) => k,
        r => panic!("expected a key, got {:?}", r),
    };
    assert!(matches!(
        all_at_once,
        TermKeyEvent::KeySymEvent { sym: TermKeySym::TERMKEY_SYM_UP, .. }
    ));

    tk.push_bytes("\x1bO".as_bytes());
    assert!(matches!(tk.getkey(), TermKeyResult::Again));
    tk.push_bytes("A".as_bytes());
    match tk.getkey() {
        TermKeyResult::Key(k) => assert!(k == all_at_once),
        r => panic!("expected a key, got {:?}", r),
    }
}

#[test]
fn mouse_protocols_agree() {
    // X10, rxvt and SGR encodings of a button-1 press decode to the
    // same kind and button, with each encoding's own coordinates
    let mut tk = TermKey::new_abstract("vt100", X_TermKey_Flag::empty());

    tk.push_bytes("\x1b[M !!".as_bytes());
    let x10 = drain(&mut tk);
    tk.push_bytes("\x1b[0;20;20M".as_bytes());
    let rxvt = drain(&mut tk);
    tk.push_bytes("\x1b[<0;30;30M".as_bytes());
    let sgr = drain(&mut tk);

    let expect = [(x10, 1, 1), (rxvt, 20, 20), (sgr, 30, 30)];
    for (events, eline, ecol) in expect {
        assert_eq!(events.len(), 1);
        match events[0] {
            TermKeyEvent::MouseEvent { ev, button, line, col, .. } => {
                assert_eq!(ev, termkey::TermKeyMouseEvent::TERMKEY_MOUSE_PRESS);
                assert_eq!(button, 1);
                assert_eq!(line, eline);
                assert_eq!(col, ecol);
            }
            _ => panic!("expected a mouse event"),
        }
    }
}

#[test]
fn rxvt_mouse_coordinates_keep_wire_order() {
    // the rxvt parameters after the button are column, then line
    let mut tk = TermKey::new_abstract("vt100", X_TermKey_Flag::empty());
    tk.push_bytes("\x1b[0;5;7M".as_bytes());
    match tk.getkey() {
        TermKeyResult::Key(TermKeyEvent::MouseEvent { ev, button, line, col, .. }) => {
            assert_eq!(ev, termkey::TermKeyMouseEvent::TERMKEY_MOUSE_PRESS);
            assert_eq!(button, 1);
            assert_eq!(col, 5);
            assert_eq!(line, 7);
        }
        r => panic!("expected a mouse event, got {:?}", r),
    }
    // the same press in the SGR encoding, for comparison
    tk.push_bytes("\x1b[<0;5;7M".as_bytes());
    match tk.getkey() {
        TermKeyResult::Key(TermKeyEvent::MouseEvent { button, line, col, .. }) => {
            assert_eq!(button, 1);
            assert_eq!(col, 5);
            assert_eq!(line, 7);
        }
        r => panic!("expected a mouse event, got {:?}", r),
    }
}

#[test]
fn canonicalization_is_idempotent() {
    // applying SPACESYMBOL canonicalization twice yields the same
    // description as applying it once
    let mut tk = TermKey::new_abstract("vt100", X_TermKey_Flag::spacesymbol());
    let space = KeyDesc::DescUnicode { cp: 0x20, mods: 0 };
    let once = tk.canonicalise(space);
    let twice = tk.canonicalise(once);
    assert_eq!(once, KeyDesc::DescKeySym { sym: TermKeySym::TERMKEY_SYM_SPACE, mods: 0 });
    assert_eq!(twice, once);

    let mut plain = TermKey::new_abstract("vt100", X_TermKey_Flag::empty());
    plain.set_canonflags(X_TermKey_Canon::delbs());
    let del = KeyDesc::DescKeySym { sym: TermKeySym::TERMKEY_SYM_DEL, mods: 0 };
    let once = plain.canonicalise(del);
    let twice = plain.canonicalise(once);
    assert_eq!(once, KeyDesc::DescKeySym { sym: TermKeySym::TERMKEY_SYM_BACKSPACE, mods: 0 });
    assert_eq!(twice, once);
}

#[test]
fn stopped_session_reports_error() {
    let mut tk = TermKey::new_abstract("vt100", X_TermKey_Flag::empty());
    tk.push_bytes("h".as_bytes());
    tk.stop();
    match tk.getkey() {
        TermKeyResult::Error { errno } => assert_eq!(errno, 22),
        r => panic!("expected an error, got {:?}", r),
    }
    match tk.advisereadable() {
        TermKeyResult::Error { errno } => assert_eq!(errno, 22),
        r => panic!("expected an error, got {:?}", r),
    }
    tk.start();
    assert!(matches!(tk.getkey(), TermKeyResult::Key(_)));
    assert!(matches!(tk.advisereadable(), TermKeyResult::Again));
}

#[test]
fn push_reports_overflow_by_short_count() {
    let mut tk = TermKey::new_abstract("vt100", X_TermKey_Flag::empty());
    let big = vec![b'x'; 300];
    assert_eq!(tk.push_bytes(&big), 256);
    assert_eq!(tk.push_bytes(&big), 0);
    assert_eq!(tk.get_buffer_remaining(), 0);
    assert_eq!(tk.set_buffer_size(100), 0);
    assert_ne!(tk.set_buffer_size(400), 0);
    assert_eq!(tk.push_bytes("y".as_bytes()), 1);
}

#[test]
fn force_resolves_lone_escape() {
    let mut tk = TermKey::new_abstract("vt100", X_TermKey_Flag::empty());
    tk.push_bytes("\x1b".as_bytes());
    assert!(matches!(tk.getkey(), TermKeyResult::Again));
    match tk.getkey_force() {
        TermKeyResult::Key(TermKeyEvent::KeySymEvent { sym, .. }) => {
            assert_eq!(sym, TermKeySym::TERMKEY_SYM_ESCAPE);
        }
        r => panic!("expected the Escape key, got {:?}", r),
    }
    assert!(matches!(tk.getkey(), TermKeyResult::None_));

    // a forced truncated UTF-8 sequence resolves to the replacement
    // character
    tk.push_bytes(&[0xE0, 0xA0]);
    assert!(matches!(tk.getkey(), TermKeyResult::Again));
    match tk.getkey_force() {
        TermKeyResult::Key(TermKeyEvent::UnicodeEvent { codepoint, .. }) => {
            assert_eq!(codepoint, '\u{FFFD}');
        }
        r => panic!("expected the replacement character, got {:?}", r),
    }
}

#[test]
fn format_parse_round_trip_examples() {
    // format(parse(s)) gives back the canonical spelling of s
    let mut tk = TermKey::new_abstract("vt100", X_TermKey_Flag::empty());
    let cases = [
        ("C-b", TermKeyFormat::empty()),
        ("Ctrl-b", TermKeyFormat::longmod()),
        ("Meta-c", TermKeyFormat::longmod().union(TermKeyFormat::altismeta())),
        ("^B", TermKeyFormat::caretctrl()),
        ("Up", TermKeyFormat::empty()),
        ("page up", TermKeyFormat::lowerspace()),
        ("F12", TermKeyFormat::empty()),
        ("C-A-x", TermKeyFormat::empty()),
        ("<C-b>", TermKeyFormat::wrapbracket()),
        ("<Up>", TermKeyFormat::wrapbracket()),
        ("<M-Home>", TermKeyFormat::wrapbracket().union(TermKeyFormat::altismeta())),
    ];
    for (s, fmt) in cases {
        let (key, rest) = tk.strpkey(s, fmt).unwrap_or_else(|| panic!("{} did not parse", s));
        assert_eq!(rest, "", "{} left a remainder", s);
        let rendered = tk.strfkey(key, fmt);
        assert_eq!(rendered.as_str(), s, "round trip of {}", s);
    }
}

#[test]
fn waittime_is_configurable() {
    let mut tk = TermKey::new_abstract("vt100", X_TermKey_Flag::empty());
    assert_eq!(tk.get_waittime(), 50);
    tk.set_waittime(120);
    assert_eq!(tk.get_waittime(), 120);
}

#[test]
fn utf8_boundary_codepoints() {
    // the boundary encodings of each UTF-8 length decode exactly
    let mut tk = TermKey::new_abstract("vt100", X_TermKey_Flag::utf8());
    let cases: [(&[u8], char); 5] = [
        (&[0xC2, 0xA0], '\u{00A0}'),
        (&[0xDF, 0xBF], '\u{07FF}'),
        (&[0xE0, 0xA0, 0x80], '\u{0800}'),
        (&[0xF0, 0x90, 0x80, 0x80], '\u{10000}'),
        (&[0xF4, 0x8F, 0xBF, 0xBF], '\u{10FFFF}'),
    ];
    for (bytes, cp) in cases {
        tk.push_bytes(bytes);
        match tk.getkey() {
            TermKeyResult::Key(TermKeyEvent::UnicodeEvent { codepoint, .. }) => {
                assert_eq!(codepoint, cp);
            }
            r => panic!("expected {:?}, got {:?}", cp, r),
        }
    }
    // an overlong encoding is rejected as the replacement character
    tk.push_bytes(&[0xE0, 0x80, 0x80]);
    match tk.getkey() {
        TermKeyResult::Key(TermKeyEvent::UnicodeEvent { codepoint, .. }) => {
            assert_eq!(codepoint, '\u{FFFD}');
        }
        r => panic!("expected the replacement character, got {:?}", r),
    }
}

#[test]
fn event_ordering_is_total_across_variants() {
    let uni = TermKeyEvent::UnicodeEvent {
        codepoint: 'z',
        mods: X_TermKey_KeyMod::ctrl(),
        utf8: termkey::Utf8Char { bytes: [0; 7] },
    };
    let sym = TermKeyEvent::KeySymEvent {
        sym: TermKeySym::TERMKEY_SYM_UP,
        mods: X_TermKey_KeyMod::empty(),
    };
    let mouse = TermKeyEvent::MouseEvent {
        ev: termkey::TermKeyMouseEvent::TERMKEY_MOUSE_PRESS,
        mods: X_TermKey_KeyMod::empty(),
        button: 1,
        line: 1,
        col: 1,
    };
    let pos = TermKeyEvent::PositionEvent { line: 1, col: 1 };
    let mode = TermKeyEvent::ModeReportEvent { initial: 0, mode: 4, value: 1 };
    assert!(uni < sym);
    assert!(sym < mouse);
    assert!(mouse < pos);
    assert!(pos < mode);
}
