use termkey::Tap;
use termkey::TermKey;
use termkey::TermKeyEvent;
use termkey::TermKeyFormat;
use termkey::TermKeySym;
use termkey::X_TermKey_Canon;
use termkey::X_TermKey_Flag;
use termkey::X_TermKey_KeyMod;

fn check_unicode(
    tap: &mut Tap,
    parsed: Option<(TermKeyEvent, &str)>,
    cp: char,
    mods: X_TermKey_KeyMod,
    s: &str,
    endp: &str,
    label: &str,
) {
    match parsed {
        Some((key, end)) => {
            match key {
                TermKeyEvent::UnicodeEvent { codepoint, mods: m, utf8 } => {
                    tap.pass(&format!("key.type for {}", label));
                    tap.is_int(codepoint, cp, &format!("key.code.codepoint for {}", label));
                    tap.ok(m == mods, &format!("key.modifiers for {}", label));
                    tap.is_str(utf8.s().as_str(), s, &format!("key.utf8 for {}", label));
                }
                _ => tap.bypass(4, &format!("key.type for {}", label)),
            }
            tap.is_str(end, endp, &format!("consumed entire input for {}", label));
        }
        None => tap.bypass(5, &format!("key.type for {}", label)),
    }
}

#[test]
fn test_12strpkey() {
    let mut tap = Tap::new();
    tap.plan_tests(62);

    let mut tk = TermKey::new_abstract("vt100", X_TermKey_Flag::empty());

    {
        let r = tk.strpkey("A", TermKeyFormat::empty());
        check_unicode(&mut tap, r, 'A', X_TermKey_KeyMod::empty(), "A", "", "unicode/A/0");
    }
    {
        let r = tk.strpkey("A and more", TermKeyFormat::empty());
        check_unicode(
            &mut tap,
            r,
            'A',
            X_TermKey_KeyMod::empty(),
            "A",
            " and more",
            "unicode/A/0 trailing",
        );
    }
    {
        let r = tk.strpkey("C-b", TermKeyFormat::empty());
        check_unicode(&mut tap, r, 'b', X_TermKey_KeyMod::ctrl(), "b", "", "unicode/b/CTRL");
    }
    {
        let r = tk.strpkey("Ctrl-b", TermKeyFormat::longmod());
        check_unicode(&mut tap, r, 'b', X_TermKey_KeyMod::ctrl(), "b", "", "unicode/b/CTRL longmod");
    }
    {
        let r = tk.strpkey("^B", TermKeyFormat::caretctrl());
        check_unicode(&mut tap, r, 'b', X_TermKey_KeyMod::ctrl(), "b", "", "unicode/b/CTRL caretctrl");
    }
    {
        let r = tk.strpkey("A-c", TermKeyFormat::empty());
        check_unicode(&mut tap, r, 'c', X_TermKey_KeyMod::alt(), "c", "", "unicode/c/ALT");
    }
    {
        let r = tk.strpkey("Alt-c", TermKeyFormat::longmod());
        check_unicode(&mut tap, r, 'c', X_TermKey_KeyMod::alt(), "c", "", "unicode/c/ALT longmod");
    }
    {
        let r = tk.strpkey("M-c", TermKeyFormat::altismeta());
        check_unicode(&mut tap, r, 'c', X_TermKey_KeyMod::alt(), "c", "", "unicode/c/ALT altismeta");
    }
    {
        let r = tk.strpkey("Meta-c", TermKeyFormat::altismeta().union(TermKeyFormat::longmod()));
        check_unicode(
            &mut tap,
            r,
            'c',
            X_TermKey_KeyMod::alt(),
            "c",
            "",
            "unicode/c/ALT altismeta+longmod",
        );
    }
    {
        let r = tk.strpkey(
            "meta c",
            TermKeyFormat::altismeta()
                .union(TermKeyFormat::longmod())
                .union(TermKeyFormat::spacemod())
                .union(TermKeyFormat::lowermod()),
        );
        check_unicode(
            &mut tap,
            r,
            'c',
            X_TermKey_KeyMod::alt(),
            "c",
            "",
            "unicode/c/ALT altismeta+long/space+lowermod",
        );
    }
    {
        let r = tk.strpkey(
            "ctrl alt page up",
            TermKeyFormat::longmod()
                .union(TermKeyFormat::spacemod())
                .union(TermKeyFormat::lowermod())
                .union(TermKeyFormat::lowerspace()),
        );
        match r {
            Some((key, end)) => {
                match key {
                    TermKeyEvent::KeySymEvent { sym, mods } => {
                        tap.pass("key.type for sym/PageUp/CTRL+ALT long/space/lowermod+lowerspace");
                        tap.is_int(
                            sym,
                            TermKeySym::TERMKEY_SYM_PAGEUP,
                            "key.code.codepoint for sym/PageUp/CTRL+ALT long/space/lowermod+lowerspace",
                        );
                        tap.ok(
                            mods == X_TermKey_KeyMod::alt().union(X_TermKey_KeyMod::ctrl()),
                            "key.modifiers for sym/PageUp/CTRL+ALT long/space/lowermod+lowerspace",
                        );
                    }
                    _ => tap.bypass(
                        3,
                        "key.type for sym/PageUp/CTRL+ALT long/space/lowermod+lowerspace",
                    ),
                }
                tap.is_str(
                    end,
                    "",
                    "consumed entire input for sym/PageUp/CTRL+ALT long/space/lowermod+lowerspace",
                );
            }
            None => tap.bypass(4, "key.type for sym/PageUp/CTRL+ALT long/space/lowermod+lowerspace"),
        }
    }
    {
        let r = tk.strpkey("Up", TermKeyFormat::empty());
        match r {
            Some((key, end)) => {
                match key {
                    TermKeyEvent::KeySymEvent { sym, mods } => {
                        tap.pass("key.type for sym/Up/0");
                        tap.is_int(sym, TermKeySym::TERMKEY_SYM_UP, "key.code.codepoint for sym/Up/0");
                        tap.ok(mods.is_empty(), "key.modifiers for sym/Up/0");
                    }
                    _ => tap.bypass(3, "key.type for sym/Up/0"),
                }
                tap.is_str(end, "", "consumed entire input for sym/Up/0");
            }
            None => tap.bypass(4, "key.type for sym/Up/0"),
        }
    }
    {
        let r = tk.strpkey("F5", TermKeyFormat::empty());
        match r {
            Some((key, end)) => {
                match key {
                    TermKeyEvent::FunctionEvent { num, mods } => {
                        tap.pass("key.type for func/5/0");
                        tap.is_int(num, 5, "key.code.number for func/5/0");
                        tap.ok(mods.is_empty(), "key.modifiers for func/5/0");
                    }
                    _ => tap.bypass(3, "key.type for func/5/0"),
                }
                tap.is_str(end, "", "consumed entire input for func/5/0");
            }
            None => tap.bypass(4, "key.type for func/5/0"),
        }
    }
    assert!(tap.passed());
}

#[test]
fn test_20canon() {
    let mut tap = Tap::new();
    tap.plan_tests(26);

    let mut tk = TermKey::new_abstract("vt100", X_TermKey_Flag::empty());

    {
        let r = tk.strpkey(" ", TermKeyFormat::empty());
        check_unicode(&mut tap, r, ' ', X_TermKey_KeyMod::empty(), " ", "", "SP/unicode");
    }
    {
        let r = tk.strpkey("Space", TermKeyFormat::empty());
        check_unicode(&mut tap, r, ' ', X_TermKey_KeyMod::empty(), " ", "", "Space/unicode");
    }
    let cflags = tk.get_canonflags();
    tk.set_canonflags(cflags.union(X_TermKey_Canon::spacesymbol()));
    {
        let r = tk.strpkey(" ", TermKeyFormat::empty());
        match r {
            Some((key, end)) => {
                match key {
                    TermKeyEvent::KeySymEvent { sym, mods } => {
                        tap.pass("key.type for SP/symbol");
                        tap.is_int(sym, TermKeySym::TERMKEY_SYM_SPACE, "key.code.codepoint for SP/symbol");
                        tap.ok(mods.is_empty(), "key.modifiers for SP/symbol");
                    }
                    _ => tap.bypass(3, "key.type for SP/symbol"),
                }
                tap.is_str(end, "", "consumed entire input for SP/symbol");
            }
            None => tap.bypass(4, "key.type for SP/symbol"),
        }
    }
    {
        let r = tk.strpkey("Space", TermKeyFormat::empty());
        match r {
            Some((key, end)) => {
                match key {
                    TermKeyEvent::KeySymEvent { sym, mods } => {
                        tap.pass("key.type for Space/symbol");
                        tap.is_int(
                            sym,
                            TermKeySym::TERMKEY_SYM_SPACE,
                            "key.code.codepoint for Space/symbol",
                        );
                        tap.ok(mods.is_empty(), "key.modifiers for Space/symbol");
                    }
                    _ => tap.bypass(3, "key.type for Space/symbol"),
                }
                tap.is_str(end, "", "consumed entire input for Space/symbol");
            }
            None => tap.bypass(4, "key.type for Space/symbol"),
        }
    }
    {
        let r = tk.strpkey("DEL", TermKeyFormat::empty());
        match r {
            Some((key, end)) => {
                match key {
                    TermKeyEvent::KeySymEvent { sym, mods } => {
                        tap.pass("key.type for Del/unconverted");
                        tap.is_int(
                            sym,
                            TermKeySym::TERMKEY_SYM_DEL,
                            "key.code.codepoint for Del/unconverted",
                        );
                        tap.ok(mods.is_empty(), "key.modifiers for Del/unconverted");
                    }
                    _ => tap.bypass(3, "key.type for Del/unconverted"),
                }
                tap.is_str(end, "", "consumed entire input for Del/unconverted");
            }
            None => tap.bypass(4, "key.type for Del/unconverted"),
        }
    }
    let cflags = tk.get_canonflags();
    tk.set_canonflags(cflags.union(X_TermKey_Canon::delbs()));
    {
        let r = tk.strpkey("DEL", TermKeyFormat::empty());
        match r {
            Some((key, end)) => {
                match key {
                    TermKeyEvent::KeySymEvent { sym, mods } => {
                        tap.pass("key.type for Del/as-backspace");
                        tap.is_int(
                            sym,
                            TermKeySym::TERMKEY_SYM_BACKSPACE,
                            "key.code.codepoint for Del/as-backspace",
                        );
                        tap.ok(mods.is_empty(), "key.modifiers for Del/as-backspace");
                    }
                    _ => tap.bypass(3, "key.type for Del/as-backspace"),
                }
                tap.is_str(end, "", "consumed entire input for Del/as-backspace");
            }
            None => tap.bypass(4, "key.type for Del/as-backspace"),
        }
    }
    assert!(tap.passed());
}
