use termkey::Tap;
use termkey::TermKey;
use termkey::TermKeyEvent;
use termkey::TermKeyResult;
use termkey::X_TermKey_Flag;

fn expect_key3(tk: &mut TermKey, tap: &mut Tap, bytes: &[u8], cp: char, label: &str) {
    tk.push_bytes(bytes);
    match tk.getkey() {
        TermKeyResult::Key(key) => {
            tap.pass(&format!("getkey yields RES_KEY {}", label));
            match key {
                TermKeyEvent::UnicodeEvent { codepoint, mods: _, utf8: _ } => {
                    tap.pass(&format!("key.type {}", label));
                    tap.is_int(codepoint, cp, &format!("key.code.number {}", label));
                }
                _ => tap.bypass(2, &format!("key.type {}", label)),
            }
        }
        _ => tap.bypass(3, &format!("getkey yields RES_KEY {}", label)),
    }
}

fn expect_key2(tk: &mut TermKey, tap: &mut Tap, bytes: &[u8], cp: char, label: &str) {
    tk.push_bytes(bytes);
    match tk.getkey() {
        TermKeyResult::Key(key) => {
            tap.pass(&format!("getkey yields RES_KEY {}", label));
            match key {
                TermKeyEvent::UnicodeEvent { codepoint, mods: _, utf8: _ } => {
                    tap.is_int(codepoint, cp, &format!("key.code.number {}", label));
                }
                _ => tap.bypass(1, &format!("key.code.number {}", label)),
            }
        }
        _ => tap.bypass(2, &format!("getkey yields RES_KEY {}", label)),
    }
}

fn expect_again(tk: &mut TermKey, tap: &mut Tap, bytes: &[u8], label: &str) {
    tk.push_bytes(bytes);
    match tk.getkey() {
        TermKeyResult::Again => tap.pass(&format!("getkey yields RES_AGAIN {}", label)),
        _ => tap.bypass(1, &format!("getkey yields RES_AGAIN {}", label)),
    }
}

#[test]
fn test_03utf8() {
    let mut tap = Tap::new();
    tap.plan_tests(57);

    let mut tk = TermKey::new_abstract("vt100", X_TermKey_Flag::utf8());

    expect_key3(&mut tk, &mut tap, "a".as_bytes(), 'a', "low ASCII");

    /* 2-byte UTF-8 range is U+0080 to U+07FF (0xDF 0xBF) */
    /* However, we'd best avoid the C1 range, so we'll start at U+00A0 (0xC2 0xA0) */

    expect_key3(&mut tk, &mut tap, &[0xC2, 0xA0], '\u{00A0}', "UTF-8 2 low");
    expect_key3(&mut tk, &mut tap, &[0xDF, 0xBF], '\u{07FF}', "UTF-8 2 high");

    /* 3-byte UTF-8 range is U+0800 (0xE0 0xA0 0x80) to U+FFFD (0xEF 0xBF 0xBD) */

    expect_key3(&mut tk, &mut tap, &[0xE0, 0xA0, 0x80], '\u{0800}', "UTF-8 3 low");
    expect_key3(&mut tk, &mut tap, &[0xEF, 0xBF, 0xBD], '\u{FFFD}', "UTF-8 3 high");

    /* 4-byte UTF-8 range is U+10000 (0xF0 0x90 0x80 0x80) to U+10FFFF (0xF4 0x8F 0xBF 0xBF) */

    expect_key3(&mut tk, &mut tap, &[0xF0, 0x90, 0x80, 0x80], '\u{10000}', "UTF-8 4 low");
    expect_key3(&mut tk, &mut tap, &[0xF4, 0x8F, 0xBF, 0xBF], '\u{10FFFF}', "UTF-8 4 high");

    /* Invalid continuations */

    expect_key2(&mut tk, &mut tap, &[0xC2, b'!'], '\u{FFFD}', "UTF-8 2 invalid cont");
    expect_key2(&mut tk, &mut tap, &[], '!', "UTF-8 2 invalid after");

    expect_key2(&mut tk, &mut tap, &[0xE0, b'!'], '\u{FFFD}', "UTF-8 3 invalid cont");
    expect_key2(&mut tk, &mut tap, &[], '!', "UTF-8 3 invalid after");

    expect_key2(&mut tk, &mut tap, &[0xE0, 0xA0, b'!'], '\u{FFFD}', "UTF-8 3 invalid cont 2");
    expect_key2(&mut tk, &mut tap, &[], '!', "UTF-8 3 invalid after");

    expect_key2(&mut tk, &mut tap, &[0xF0, b'!'], '\u{FFFD}', "UTF-8 4 invalid cont");
    expect_key2(&mut tk, &mut tap, &[], '!', "UTF-8 4 invalid after");

    expect_key2(&mut tk, &mut tap, &[0xF0, 0x90, b'!'], '\u{FFFD}', "UTF-8 4 invalid cont 2");
    expect_key2(&mut tk, &mut tap, &[], '!', "UTF-8 4 invalid after");

    expect_key2(&mut tk, &mut tap, &[0xF0, 0x90, 0x80, b'!'], '\u{FFFD}', "UTF-8 4 invalid cont 3");
    expect_key2(&mut tk, &mut tap, &[], '!', "UTF-8 4 invalid after");

    /* Partials */

    expect_again(&mut tk, &mut tap, &[0xC2], "UTF-8 2 partial");
    expect_key2(&mut tk, &mut tap, &[0xA0], '\u{00A0}', "UTF-8 2 partial");

    expect_again(&mut tk, &mut tap, &[0xE0], "UTF-8 3 partial");
    expect_again(&mut tk, &mut tap, &[0xA0], "UTF-8 3 partial");
    expect_key2(&mut tk, &mut tap, &[0x80], '\u{0800}', "UTF-8 3 partial");

    expect_again(&mut tk, &mut tap, &[0xF0], "UTF-8 4 partial");
    expect_again(&mut tk, &mut tap, &[0x90], "UTF-8 4 partial");
    expect_again(&mut tk, &mut tap, &[0x80], "UTF-8 4 partial");
    expect_key2(&mut tk, &mut tap, &[0x80], '\u{10000}', "UTF-8 4 partial");

    assert!(tap.passed());
}
