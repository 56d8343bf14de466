use termkey::Tap;
use termkey::TermKey;
use termkey::TermKeyEvent;
use termkey::TermKeyResult;
use termkey::TermKeySym;
use termkey::X_TermKey_Flag;
use termkey::X_TermKey_KeyMod;

#[test]
fn test_01base() {
    let mut tap = Tap::new();
    tap.plan_tests(6);

    {
        let mut tk = TermKey::new_abstract("vt100", X_TermKey_Flag::empty());

        tap.ok(true, "termkey_new_abstract");

        tap.is_int(tk.get_buffer_size(), 256, "termkey_get_buffer_size");
        tap.ok(tk.is_started(), "termkey_is_started true after construction");

        tk.stop();

        tap.ok(!tk.is_started(), "termkey_is_started false after termkey_stop()");

        tk.start();

        tap.ok(tk.is_started(), "termkey_is_started true after termkey_start()");
    }

    tap.ok(true, "termkey_free");
    assert!(tap.passed());
}

#[test]
fn test_02getkey() {
    let mut tap = Tap::new();
    tap.plan_tests(31);

    let mut tk = TermKey::new_abstract("vt100", X_TermKey_Flag::empty());

    tap.is_int(tk.get_buffer_remaining(), 256, "buffer free initially 256");

    match tk.getkey() {
        TermKeyResult::None_ => tap.pass("getkey yields RES_NONE when empty"),
        _ => tap.fail("getkey yields RES_NONE when empty"),
    }

    tap.is_int(tk.push_bytes("h".as_bytes()), 1, "push_bytes returns 1");

    tap.is_int(tk.get_buffer_remaining(), 255, "buffer free 255 after push_bytes");

    match tk.getkey() {
        TermKeyResult::Key(key) => {
            tap.pass("getkey yields RES_KEY after h");

            match key {
                TermKeyEvent::UnicodeEvent { codepoint, mods, utf8 } => {
                    tap.pass("key.type after h");
                    tap.is_int(codepoint, 'h', "key.code.number after h");
                    tap.ok(mods.is_empty(), "key.modifiers after h");
                    tap.is_str(utf8.s().as_str(), "h", "key.utf8 after h");
                }
                _ => tap.bypass(4, "key.type after h"),
            }
        }
        _ => tap.bypass(5, "getkey yields RES_KEY after h"),
    }

    tap.is_int(tk.get_buffer_remaining(), 256, "buffer free 256 after getkey");

    match tk.getkey() {
        TermKeyResult::None_ => tap.pass("getkey yields RES_NONE a second time"),
        _ => tap.fail("getkey yields RES_NONE a second time"),
    }

    tk.push_bytes("\x01".as_bytes());

    match tk.getkey() {
        TermKeyResult::Key(key) => {
            tap.pass("getkey yields RES_KEY after C-a");

            match key {
                TermKeyEvent::UnicodeEvent { codepoint, mods, utf8: _ } => {
                    tap.pass("key.type after C-a");
                    tap.is_int(codepoint, 'a', "key.code.number after C-a");
                    tap.ok(mods == X_TermKey_KeyMod::ctrl(), "key.modifiers after C-a");
                }
                _ => tap.bypass(3, "key.type after C-a"),
            }
        }
        _ => tap.bypass(4, "getkey yields RES_KEY after C-a"),
    }

    tk.push_bytes("\x1bOA".as_bytes());

    match tk.getkey() {
        TermKeyResult::Key(key) => {
            tap.pass("getkey yields RES_KEY after Up");

            match key {
                TermKeyEvent::KeySymEvent { sym, mods } => {
                    tap.pass("key.type after Up");
                    tap.is_int(sym, TermKeySym::TERMKEY_SYM_UP, "key.code.sym after Up");
                    tap.ok(mods.is_empty(), "key.modifiers after Up");
                }
                _ => tap.bypass(3, "key.type after Up"),
            }
        }
        _ => tap.bypass(4, "getkey yields RES_KEY after Up"),
    }

    tap.is_int(tk.push_bytes("\x1bO".as_bytes()), 2, "push_bytes returns 2");

    tap.is_int(tk.get_buffer_remaining(), 254, "buffer free 254 after partial write");

    match tk.getkey() {
        TermKeyResult::Again => tap.pass("getkey yields RES_AGAIN after partial write"),
        _ => tap.fail("getkey yields RES_AGAIN after partial write"),
    }

    tk.push_bytes("C".as_bytes());

    match tk.getkey() {
        TermKeyResult::Key(key) => {
            tap.pass("getkey yields RES_KEY after Right completion");

            match key {
                TermKeyEvent::KeySymEvent { sym, mods } => {
                    tap.pass("key.type after Right completion");
                    tap.is_int(sym, TermKeySym::TERMKEY_SYM_RIGHT, "key.code.sym after Right completion");
                    tap.ok(mods.is_empty(), "key.modifiers after Right completion");
                }
                _ => tap.bypass(3, "key.type after Right completion"),
            }
        }
        _ => tap.bypass(4, "getkey yields RES_KEY after Right completion"),
    }

    tap.is_int(tk.get_buffer_remaining(), 256, "buffer free 256 after completion");

    tk.push_bytes("\x1b[27;5u".as_bytes());

    match tk.getkey() {
        TermKeyResult::Key(key) => {
            tap.pass("getkey yields RES_KEY after Ctrl-Escape");

            match key {
                TermKeyEvent::KeySymEvent { sym, mods } => {
                    tap.pass("key.type after Ctrl-Escape");
                    tap.is_int(sym, TermKeySym::TERMKEY_SYM_ESCAPE, "key.code.sym after Ctrl-Escape");
                    tap.ok(mods == X_TermKey_KeyMod::ctrl(), "key.modifiers after Ctrl-Escape");
                }
                _ => tap.bypass(3, "key.type after Ctrl-Escape"),
            }
        }
        _ => tap.bypass(4, "getkey yields RES_KEY after Ctrl-Escape"),
    }
    assert!(tap.passed());
}

#[test]
fn test_04flags() {
    let mut tap = Tap::new();
    tap.plan_tests(8);

    let mut tk = TermKey::new_abstract("vt100", X_TermKey_Flag::empty());

    tk.push_bytes(" ".as_bytes());
    match tk.getkey() {
        TermKeyResult::Key(key) => {
            tap.pass("getkey yields RES_KEY after space");

            match key {
                TermKeyEvent::UnicodeEvent { codepoint, mods, utf8: _ } => {
                    tap.pass("key.type after space");
                    tap.is_int(codepoint, ' ', "key.code.number after space");
                    tap.ok(mods.is_empty(), "key.modifiers after space");
                }
                _ => tap.bypass(3, "key.type after space"),
            }
        }
        _ => tap.bypass(4, "getkey yields RES_KEY after space"),
    }

    tk.set_flags(X_TermKey_Flag::spacesymbol());

    tk.push_bytes(" ".as_bytes());
    match tk.getkey() {
        TermKeyResult::Key(key) => {
            tap.pass("getkey yields RES_KEY after space");

            match key {
                TermKeyEvent::KeySymEvent { sym, mods } => {
                    tap.pass("key.type after space with FLAG_SPACESYMBOL");
                    tap.is_int(
                        sym,
                        TermKeySym::TERMKEY_SYM_SPACE,
                        "key.code.number after space with FLAG_SPACESYMBOL",
                    );
                    tap.ok(mods.is_empty(), "key.modifiers after space with FLAG_SPACESYMBOL");
                }
                _ => tap.bypass(3, "key.type after space with FLAG_SPACESYMBOL"),
            }
        }
        _ => tap.bypass(4, "getkey yields RES_KEY after space"),
    }
    assert!(tap.passed());
}

#[test]
fn test_06buffer() {
    let mut tap = Tap::new();
    tap.plan_tests(9);

    let mut tk = TermKey::new_abstract("vt100", X_TermKey_Flag::empty());

    tap.is_int(tk.get_buffer_remaining(), 256, "buffer free initially 256");
    tap.is_int(tk.get_buffer_size(), 256, "buffer size initially 256");

    tap.is_int(tk.push_bytes("h".as_bytes()), 1, "push_bytes returns 1");

    tap.is_int(tk.get_buffer_remaining(), 255, "buffer free 255 after push_bytes");
    tap.is_int(tk.get_buffer_size(), 256, "buffer size 256 after push_bytes");

    tap.ok(tk.set_buffer_size(512) != 0, "buffer set size OK");

    tap.is_int(tk.get_buffer_remaining(), 511, "buffer free 511 after push_bytes");
    tap.is_int(tk.get_buffer_size(), 512, "buffer size 512 after push_bytes");

    match tk.getkey() {
        TermKeyResult::Key(_) => tap.pass("buffered key still useable after resize"),
        _ => tap.bypass(1, "buffered key still useable after resize"),
    }
    assert!(tap.passed());
}
