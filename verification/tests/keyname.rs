use termkey::Tap;
use termkey::TermKey;
use termkey::TermKeySym;
use termkey::X_TermKey_Flag;

#[test]
fn test_10keyname() {
    let mut tap = Tap::new();
    tap.plan_tests(10);

    let mut tk = TermKey::new_abstract("vt100", X_TermKey_Flag::empty());

    let mut sym;
    sym = tk.keyname2sym("Space");
    tap.is_int(sym, TermKeySym::TERMKEY_SYM_SPACE, "keyname2sym Space");

    sym = tk.keyname2sym("SomeUnknownKey");
    tap.is_int(sym, TermKeySym::TERMKEY_SYM_UNKNOWN, "keyname2sym SomeUnknownKey");

    match tk.lookup_keyname("Up", &mut sym) {
        Some(end) => {
            tap.pass("termkey_get_keyname Up returns non-NULL");
            tap.is_str(end, "", "termkey_get_keyname Up return points at endofstring");
            tap.is_int(sym, TermKeySym::TERMKEY_SYM_UP, "termkey_get_keyname Up yields Up symbol");
        }
        None => tap.bypass(3, "termkey_get_keyname Up returns non-NULL"),
    }

    match tk.lookup_keyname("DownMore", &mut sym) {
        Some(end) => {
            tap.pass("termkey_get_keyname DownMore returns non-NULL");
            tap.is_str(end, "More", "termkey_get_keyname DownMore return points at More");
            tap.is_int(
                sym,
                TermKeySym::TERMKEY_SYM_DOWN,
                "termkey_get_keyname DownMore yields Down symbol",
            );
        }
        None => tap.bypass(3, "termkey_get_keyname DownMore returns non-NULL"),
    }

    match tk.lookup_keyname("SomeUnknownKey", &mut sym) {
        None => tap.pass("termkey_get_keyname SomeUnknownKey returns NULL"),
        Some(_) => tap.bypass(1, "termkey_get_keyname SomeUnknownKey returns NULL"),
    }

    tap.is_str(
        tk.get_keyname(TermKeySym::TERMKEY_SYM_SPACE),
        "Space",
        "get_keyname SPACE",
    );
    assert!(tap.passed());
}
