use termkey::Tap;
use termkey::TermKey;
use termkey::TermKeyEvent;
use termkey::TermKeyFormat;
use termkey::TermKeyMouseEvent;
use termkey::TermKeyResult;
use termkey::X_TermKey_Flag;
use termkey::X_TermKey_KeyMod;

#[test]
fn test_30mouse() {
    let mut tap = Tap::new();
    tap.plan_tests(60);

    let mut tk = TermKey::new_abstract("vt100", X_TermKey_Flag::empty());

    {
        tk.push_bytes("\x1b[M !!".as_bytes());

        match tk.getkey() {
            TermKeyResult::Key(key) => {
                tap.pass("getkey yields RES_KEY for mouse press");

                match key {
                    TermKeyEvent::MouseEvent { ev, mods, button, line, col } => {
                        tap.pass("key.type for mouse press");

                        tap.pass("interpret_mouse yields RES_KEY");

                        tap.is_int(ev, TermKeyMouseEvent::TERMKEY_MOUSE_PRESS, "mouse event for press");
                        tap.is_int(button, 1, "mouse button for press");
                        tap.is_int(line, 1, "mouse line for press");
                        tap.is_int(col, 1, "mouse column for press");
                        tap.ok(mods.is_empty(), "modifiers for press");

                        let buffer = tk.strfkey(key, TermKeyFormat::empty());
                        tap.is_int(buffer.len(), 13, "string length for press");
                        tap.is_str(buffer.as_str(), "MousePress(1)", "string buffer for press");

                        let buffer = tk.strfkey(key, TermKeyFormat::mouse_pos());
                        tap.is_int(buffer.len(), 21, "string length for press");
                        tap.is_str(
                            buffer.as_str(),
                            "MousePress(1) @ (1,1)",
                            "string buffer for press",
                        );
                    }
                    _ => tap.bypass(11, "key.type for mouse press"),
                }
            }
            _ => tap.bypass(12, "getkey yields RES_KEY for mouse press"),
        }
    }

    {
        tk.push_bytes("\x1b[M@\"!".as_bytes());

        match tk.getkey() {
            TermKeyResult::Key(key) => match key {
                TermKeyEvent::MouseEvent { ev, mods, button, line, col } => {
                    tap.pass("interpret_mouse yields RES_KEY");

                    tap.is_int(ev, TermKeyMouseEvent::TERMKEY_MOUSE_DRAG, "mouse event for drag");
                    tap.is_int(button, 1, "mouse button for drag");
                    tap.is_int(line, 1, "mouse line for drag");
                    tap.is_int(col, 2, "mouse column for drag");
                    tap.ok(mods.is_empty(), "modifiers for press");
                }
                _ => tap.bypass(6, "interpret_mouse yields RES_KEY"),
            },
            _ => tap.bypass(6, "interpret_mouse yields RES_KEY"),
        }

        tk.push_bytes("\x1b[M##!".as_bytes());

        match tk.getkey() {
            TermKeyResult::Key(key) => match key {
                TermKeyEvent::MouseEvent { ev, mods, button: _, line, col } => {
                    tap.pass("interpret_mouse yields RES_KEY");

                    tap.is_int(ev, TermKeyMouseEvent::TERMKEY_MOUSE_RELEASE, "mouse event for release");
                    tap.is_int(line, 1, "mouse line for release");
                    tap.is_int(col, 3, "mouse column for release");
                    tap.ok(mods.is_empty(), "modifiers for press");
                }
                _ => tap.bypass(5, "interpret_mouse yields RES_KEY"),
            },
            _ => tap.bypass(5, "interpret_mouse yields RES_KEY"),
        }
    }

    {
        tk.push_bytes("\x1b[M0++".as_bytes());

        match tk.getkey() {
            TermKeyResult::Key(key) => match key {
                TermKeyEvent::MouseEvent { ev, mods, button, line, col } => {
                    tap.pass("interpret_mouse yields RES_KEY");

                    tap.is_int(ev, TermKeyMouseEvent::TERMKEY_MOUSE_PRESS, "mouse event for Ctrl-press");
                    tap.is_int(button, 1, "mouse button for Ctrl-press");
                    tap.is_int(line, 11, "mouse line for Ctrl-press");
                    tap.is_int(col, 11, "mouse column for Ctrl-press");
                    tap.is_int(mods, X_TermKey_KeyMod::ctrl(), "modifiers for Ctrl-press");

                    let buffer = tk.strfkey(key, TermKeyFormat::empty());
                    tap.is_int(buffer.len(), 15, "string length for Ctrl-press");
                    tap.is_str(buffer.as_str(), "C-MousePress(1)", "string buffer for Ctrl-press");
                }
                _ => tap.bypass(8, "interpret_mouse yields RES_KEY"),
            },
            _ => tap.bypass(8, "interpret_mouse yields RES_KEY"),
        }
    }

    // rxvt protocol
    {
        tk.push_bytes("\x1b[0;20;20M".as_bytes());

        match tk.getkey() {
            TermKeyResult::Key(key) => {
                tap.pass("getkey yields RES_KEY for mouse press rxvt protocol");
                match key {
                    TermKeyEvent::MouseEvent { ev, mods, button, line, col } => {
                        tap.pass("key.type for mouse press rxvt protocol");

                        tap.pass("interpret_mouse yields RES_KEY");

                        tap.is_int(
                            ev,
                            TermKeyMouseEvent::TERMKEY_MOUSE_PRESS,
                            "mouse event for press rxvt protocol",
                        );
                        tap.is_int(button, 1, "mouse button for press rxvt protocol");
                        tap.is_int(line, 20, "mouse line for press rxvt protocol");
                        tap.is_int(col, 20, "mouse column for press rxvt protocol");
                        tap.ok(mods.is_empty(), "modifiers for press rxvt protocol");
                    }
                    _ => tap.bypass(7, "key.type for mouse press rxvt protocol"),
                }
            }
            _ => tap.bypass(8, "getkey yields RES_KEY for mouse press rxvt protocol"),
        }
    }

    {
        tk.push_bytes("\x1b[3;20;20M".as_bytes());

        match tk.getkey() {
            TermKeyResult::Key(key) => {
                tap.pass("getkey yields RES_KEY for mouse release rxvt protocol");
                match key {
                    TermKeyEvent::MouseEvent { ev, mods, button: _, line, col } => {
                        tap.pass("key.type for mouse release rxvt protocol");

                        tap.pass("interpret_mouse yields RES_KEY");

                        tap.is_int(
                            ev,
                            TermKeyMouseEvent::TERMKEY_MOUSE_RELEASE,
                            "mouse event for release rxvt protocol",
                        );
                        tap.is_int(line, 20, "mouse line for release rxvt protocol");
                        tap.is_int(col, 20, "mouse column for release rxvt protocol");
                        tap.ok(mods.is_empty(), "modifiers for release rxvt protocol");
                    }
                    _ => tap.bypass(6, "key.type for mouse release rxvt protocol"),
                }
            }
            _ => tap.bypass(7, "getkey yields RES_KEY for mouse release rxvt protocol"),
        }
    }

    // SGR protocol
    {
        tk.push_bytes("\x1b[<0;30;30M".as_bytes());

        match tk.getkey() {
            TermKeyResult::Key(key) => {
                tap.pass("getkey yields RES_KEY for mouse press SGR encoding");
                match key {
                    TermKeyEvent::MouseEvent { ev, mods, button, line, col } => {
                        tap.pass("key.type for mouse press SGR encoding");

                        tap.pass("interpret_mouse yields RES_KEY");

                        tap.is_int(ev, TermKeyMouseEvent::TERMKEY_MOUSE_PRESS, "mouse event for press SGR");
                        tap.is_int(button, 1, "mouse button for press SGR");
                        tap.is_int(line, 30, "mouse line for press SGR");
                        tap.is_int(col, 30, "mouse column for press SGR");
                        tap.ok(mods.is_empty(), "modifiers for press SGR");
                    }
                    _ => tap.bypass(7, "key.type for mouse press SGR encoding"),
                }
            }
            _ => tap.bypass(8, "getkey yields RES_KEY for mouse press SGR encoding"),
        }
    }

    {
        tk.push_bytes("\x1b[<0;30;30m".as_bytes());

        match tk.getkey() {
            TermKeyResult::Key(key) => {
                tap.pass("getkey yields RES_KEY for mouse release SGR encoding");
                match key {
                    TermKeyEvent::MouseEvent { ev, mods: _, button: _, line: _, col: _ } => {
                        tap.pass("key.type for mouse release SGR encoding");

                        tap.pass("interpret_mouse yields RES_KEY");

                        tap.is_int(ev, TermKeyMouseEvent::TERMKEY_MOUSE_RELEASE, "mouse event for release SGR");
                    }
                    _ => tap.bypass(3, "key.type for mouse release SGR encoding"),
                }
            }
            _ => tap.bypass(4, "getkey yields RES_KEY for mouse release SGR encoding"),
        }
    }

    {
        tk.push_bytes("\x1b[<0;500;300M".as_bytes());

        match tk.getkey() {
            TermKeyResult::Key(key) => match key {
                TermKeyEvent::MouseEvent { ev: _, mods: _, button: _, line, col } => {
                    tap.is_int(line, 300, "mouse line for press SGR wide");
                    tap.is_int(col, 500, "mouse column for press SGR wide");
                }
                _ => tap.bypass(2, "mouse line/column for press SGR wide"),
            },
            _ => tap.bypass(2, "mouse line/column for press SGR wide"),
        }
    }
    assert!(tap.passed());
}

#[test]
fn test_31position() {
    let mut tap = Tap::new();
    tap.plan_tests(8);

    let mut tk = TermKey::new_abstract("vt100", X_TermKey_Flag::empty());

    tk.push_bytes("\x1b[?15;7R".as_bytes());

    match tk.getkey() {
        TermKeyResult::Key(key) => {
            tap.pass("getkey yields RES_KEY for position report");
            match key {
                TermKeyEvent::PositionEvent { line, col } => {
                    tap.pass("key.type for position report");

                    tap.pass("interpret_position yields RES_KEY");

                    tap.is_int(line, 15, "line for position report");
                    tap.is_int(col, 7, "column for position report");
                }
                _ => tap.bypass(4, "key.type for position report"),
            }
        }
        _ => tap.bypass(5, "getkey yields RES_KEY for position report"),
    }

    /* A plain CSI R is likely to be <F3> though.
     * This is tricky :/
     */
    tk.push_bytes("\x1b[R".as_bytes());

    match tk.getkey() {
        TermKeyResult::Key(key) => {
            tap.pass("getkey yields RES_KEY for <F3>");

            match key {
                TermKeyEvent::FunctionEvent { mods: _, num } => {
                    tap.pass("key.type for <F3>");
                    tap.is_int(num, 3, "key.code.number for <F3>");
                }
                _ => tap.bypass(2, "key.type for <F3>"),
            }
        }
        _ => tap.bypass(3, "getkey yields RES_KEY for <F3>"),
    }
    assert!(tap.passed());
}

#[test]
fn test_32modereport() {
    let mut tap = Tap::new();
    tap.plan_tests(12);

    let mut tk = TermKey::new_abstract("vt100", X_TermKey_Flag::empty());

    tk.push_bytes("\x1b[?1;2$y".as_bytes());

    match tk.getkey() {
        TermKeyResult::Key(key) => {
            tap.pass("getkey yields RES_KEY for mode report");
            match key {
                TermKeyEvent::ModeReportEvent { initial, mode, value } => {
                    tap.pass("key.type for mode report");

                    tap.pass("interpret_modereoprt yields RES_KEY");

                    tap.is_int(initial, '?' as i32, "initial indicator from mode report");
                    tap.is_int(mode, 1, "mode number from mode report");
                    tap.is_int(value, 2, "mode value from mode report");
                }
                _ => tap.bypass(5, "key.type for mode report"),
            }
        }
        _ => tap.bypass(6, "getkey yields RES_KEY for mode report"),
    }

    tk.push_bytes("\x1b[4;1$y".as_bytes());

    match tk.getkey() {
        TermKeyResult::Key(key) => {
            tap.pass("getkey yields RES_KEY for mode report");

            match key {
                TermKeyEvent::ModeReportEvent { initial, mode, value } => {
                    tap.pass("key.type for mode report");

                    tap.pass("interpret_modereoprt yields RES_KEY");

                    tap.is_int(initial, 0, "initial indicator from mode report");
                    tap.is_int(mode, 4, "mode number from mode report");
                    tap.is_int(value, 1, "mode value from mode report");
                }
                _ => tap.bypass(5, "key.type for mode report"),
            }
        }
        _ => tap.bypass(6, "getkey yields RES_KEY for mode report"),
    }
    assert!(tap.passed());
}

#[test]
fn test_39csi() {
    let mut tap = Tap::new();
    tap.plan_tests(15);

    let mut tk = TermKey::new_abstract("vt100", X_TermKey_Flag::empty());

    tk.push_bytes("\x1b[5;25v".as_bytes());

    match tk.getkey() {
        TermKeyResult::Key(key) => {
            tap.pass("getkey yields RES_KEY for CSI v");

            match key {
                TermKeyEvent::UnknownCsiEvent => {
                    tap.pass("key.type for unknown CSI");

                    tap.pass("skipping interpret_csi");

                    tap.pass("skipping nargs == 2");
                    tap.pass("skipping args[0] == 5");
                    tap.pass("skipping args[1] == 25");
                    tap.pass("skipping cmd == 'v'");
                }
                _ => tap.bypass(6, "key.type for unknown CSI"),
            }
        }
        _ => tap.bypass(7, "getkey yields RES_KEY for CSI v"),
    }

    tk.push_bytes("\x1b[?w".as_bytes());

    match tk.getkey() {
        TermKeyResult::Key(key) => {
            tap.pass("getkey yields RES_KEY for CSI ? w");
            match key {
                TermKeyEvent::UnknownCsiEvent => {
                    tap.pass("key.type for unknown CSI");
                    tap.pass("skipping interpret_csi");
                    tap.pass("skipping cmd == '?' cat 'w'");
                }
                _ => tap.bypass(3, "key.type for unknown CSI"),
            }
        }
        _ => tap.bypass(4, "getkey yields RES_KEY for CSI ? w"),
    }

    tk.push_bytes("\x1b[?$x".as_bytes());

    match tk.getkey() {
        TermKeyResult::Key(key) => {
            tap.pass("getkey yields RES_KEY for CSI ? $x");
            match key {
                TermKeyEvent::UnknownCsiEvent => {
                    tap.pass("key.type for unknown CSI");
                    tap.pass("skipping interpret_csi");
                    tap.pass("skipping cmd == '$' cat '?' cat 'x'");
                }
                _ => tap.bypass(3, "key.type for unknown CSI"),
            }
        }
        _ => tap.bypass(4, "getkey yields RES_KEY for CSI ? $x"),
    }
    assert!(tap.passed());
}
