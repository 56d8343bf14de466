use termkey::Tap;
use termkey::TermKey;
use termkey::TermKeyEvent;
use termkey::TermKeyFormat;
use termkey::TermKeySym;
use termkey::Utf8Char;
use termkey::X_TermKey_Flag;
use termkey::X_TermKey_KeyMod;

#[test]
fn test_11strfkey() {
    let mut tap = Tap::new();
    tap.plan_tests(44);

    let mut tk = TermKey::new_abstract("vt100", X_TermKey_Flag::empty());

    let key = TermKeyEvent::UnicodeEvent {
        codepoint: 'A',
        mods: X_TermKey_KeyMod::empty(),
        utf8: Utf8Char { bytes: [0, 0, 0, 0, 0, 0, 0] },
    };

    let buffer = tk.strfkey(key, TermKeyFormat::empty());
    tap.is_int(buffer.len(), 1, "length for unicode/A/0");
    tap.is_str(buffer.as_str(), "A", "buffer for unicode/A/0");

    let buffer = tk.strfkey(key, TermKeyFormat::wrapbracket());
    tap.is_int(buffer.len(), 1, "length for unicode/A/0 wrapbracket");
    tap.is_str(buffer.as_str(), "A", "buffer for unicode/A/0 wrapbracket");

    let key = TermKeyEvent::UnicodeEvent {
        codepoint: 'b',
        mods: X_TermKey_KeyMod::ctrl(),
        utf8: Utf8Char { bytes: [0, 0, 0, 0, 0, 0, 0] },
    };

    let buffer = tk.strfkey(key, TermKeyFormat::empty());
    tap.is_int(buffer.len(), 3, "length for unicode/b/CTRL");
    tap.is_str(buffer.as_str(), "C-b", "buffer for unicode/b/CTRL");

    let buffer = tk.strfkey(key, TermKeyFormat::longmod());
    tap.is_int(buffer.len(), 6, "length for unicode/b/CTRL longmod");
    tap.is_str(buffer.as_str(), "Ctrl-b", "buffer for unicode/b/CTRL longmod");

    let buffer = tk.strfkey(key, TermKeyFormat::longmod().union(TermKeyFormat::spacemod()));
    tap.is_int(buffer.len(), 6, "length for unicode/b/CTRL longmod|spacemod");
    tap.is_str(buffer.as_str(), "Ctrl b", "buffer for unicode/b/CTRL longmod|spacemod");

    let buffer = tk.strfkey(key, TermKeyFormat::longmod().union(TermKeyFormat::lowermod()));
    tap.is_int(buffer.len(), 6, "length for unicode/b/CTRL longmod|lowermod");
    tap.is_str(buffer.as_str(), "ctrl-b", "buffer for unicode/b/CTRL longmod|lowermod");

    let buffer = tk.strfkey(
        key,
        TermKeyFormat::longmod()
            .union(TermKeyFormat::spacemod())
            .union(TermKeyFormat::lowermod()),
    );
    tap.is_int(buffer.len(), 6, "length for unicode/b/CTRL longmod|spacemod|lowermode");
    tap.is_str(buffer.as_str(), "ctrl b", "buffer for unicode/b/CTRL longmod|spacemod|lowermode");

    let buffer = tk.strfkey(key, TermKeyFormat::caretctrl());
    tap.is_int(buffer.len(), 2, "length for unicode/b/CTRL caretctrl");
    tap.is_str(buffer.as_str(), "^B", "buffer for unicode/b/CTRL caretctrl");

    let buffer = tk.strfkey(key, TermKeyFormat::wrapbracket());
    tap.is_int(buffer.len(), 5, "length for unicode/b/CTRL wrapbracket");
    tap.is_str(buffer.as_str(), "<C-b>", "buffer for unicode/b/CTRL wrapbracket");

    let key = TermKeyEvent::UnicodeEvent {
        codepoint: 'c',
        mods: X_TermKey_KeyMod::alt(),
        utf8: Utf8Char { bytes: [0, 0, 0, 0, 0, 0, 0] },
    };

    let buffer = tk.strfkey(key, TermKeyFormat::empty());
    tap.is_int(buffer.len(), 3, "length for unicode/c/ALT");
    tap.is_str(buffer.as_str(), "A-c", "buffer for unicode/c/ALT");

    let buffer = tk.strfkey(key, TermKeyFormat::longmod());
    tap.is_int(buffer.len(), 5, "length for unicode/c/ALT longmod");
    tap.is_str(buffer.as_str(), "Alt-c", "buffer for unicode/c/ALT longmod");

    let buffer = tk.strfkey(key, TermKeyFormat::altismeta());
    tap.is_int(buffer.len(), 3, "length for unicode/c/ALT altismeta");
    tap.is_str(buffer.as_str(), "M-c", "buffer for unicode/c/ALT altismeta");

    let buffer = tk.strfkey(key, TermKeyFormat::longmod().union(TermKeyFormat::altismeta()));
    tap.is_int(buffer.len(), 6, "length for unicode/c/ALT longmod|altismeta");
    tap.is_str(buffer.as_str(), "Meta-c", "buffer for unicode/c/ALT longmod|altismeta");

    let key = TermKeyEvent::KeySymEvent {
        sym: TermKeySym::TERMKEY_SYM_UP,
        mods: X_TermKey_KeyMod::empty(),
    };

    let buffer = tk.strfkey(key, TermKeyFormat::empty());
    tap.is_int(buffer.len(), 2, "length for sym/Up/0");
    tap.is_str(buffer.as_str(), "Up", "buffer for sym/Up/0");

    let buffer = tk.strfkey(key, TermKeyFormat::wrapbracket());
    tap.is_int(buffer.len(), 4, "length for sym/Up/0 wrapbracket");
    tap.is_str(buffer.as_str(), "<Up>", "buffer for sym/Up/0 wrapbracket");

    let key = TermKeyEvent::KeySymEvent {
        sym: TermKeySym::TERMKEY_SYM_PAGEUP,
        mods: X_TermKey_KeyMod::empty(),
    };

    let buffer = tk.strfkey(key, TermKeyFormat::empty());
    tap.is_int(buffer.len(), 6, "length for sym/PageUp/0");
    tap.is_str(buffer.as_str(), "PageUp", "buffer for sym/PageUp/0");

    let buffer = tk.strfkey(key, TermKeyFormat::lowerspace());
    tap.is_int(buffer.len(), 7, "length for sym/PageUp/0 lowerspace");
    tap.is_str(buffer.as_str(), "page up", "buffer for sym/PageUp/0 lowerspace");

    if true {
        tap.pass("skipping small buffer test 1");
        tap.pass("skipping small buffer test 2");
        tap.pass("skipping small buffer test 3");
        tap.pass("skipping small buffer test 4");
    }

    let key = TermKeyEvent::FunctionEvent { num: 5, mods: X_TermKey_KeyMod::empty() };

    let buffer = tk.strfkey(key, TermKeyFormat::empty());
    tap.is_int(buffer.len(), 2, "length for func/5/0");
    tap.is_str(buffer.as_str(), "F5", "buffer for func/5/0");

    let buffer = tk.strfkey(key, TermKeyFormat::wrapbracket());
    tap.is_int(buffer.len(), 4, "length for func/5/0 wrapbracket");
    tap.is_str(buffer.as_str(), "<F5>", "buffer for func/5/0 wrapbracket");

    let buffer = tk.strfkey(key, TermKeyFormat::lowerspace());
    tap.is_int(buffer.len(), 2, "length for func/5/0 lowerspace");
    tap.is_str(buffer.as_str(), "f5", "buffer for func/5/0 lowerspace");
    assert!(tap.passed());
}
