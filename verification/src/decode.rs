//! The mathematical model of the escape-sequence recognizer.
//!
//! `spec_peek` says, for any buffered byte sequence and flag set, what
//! one decode step yields: nothing, a request for more bytes, or a key
//! description together with how many bytes it consumes.  The session's
//! executable decoder is proved equal to this model.

use vstd::prelude::*;

use crate::event::KeyDesc;
use crate::event::TermKeyMouseEvent;
use crate::flags::MOD_ALT;
use crate::flags::MOD_CTRL;
use crate::flags::MOD_SHIFT;
use crate::flags::X_TermKey_Flag;
use crate::keysym::TermKeySym;

verus! {

/// What one decode step yields on a given buffer.
pub enum Peek {
    /// The buffer holds nothing.
    PeekNone,
    /// The buffer holds a strict prefix of a longer sequence.
    PeekAgain,
    /// A complete key, consuming the given number of leading bytes.
    PeekKey(KeyDesc, int),
}

/// Whether `c` ends a CSI sequence.
pub open spec fn is_csi_final(c: u8) -> bool {
    0x40 <= c <= 0x7E
}

/// Whether `c` is a CSI intermediate byte.
pub open spec fn is_csi_inter(c: u8) -> bool {
    0x20 <= c <= 0x2F
}

/// Whether `c` is a UTF-8 continuation byte.
pub open spec fn is_cont(c: u8) -> bool {
    0x80 <= c < 0xC0
}

/// Whether `c` is a decimal digit.
pub open spec fn is_digit(c: u8) -> bool {
    0x30 <= c <= 0x39
}

/// The index of the first CSI final byte at or after `i`, or `b.len()`
/// if none is buffered yet.
pub open spec fn first_final(b: Seq<u8>, i: int) -> int
    decreases b.len() - i,
{
    if i < 0 || i >= b.len() {
        b.len() as int
    } else if is_csi_final(b[i]) {
        i
    } else {
        first_final(b, i + 1)
    }
}

/// The index of the first byte in `[i, end)` that is not a UTF-8
/// continuation byte, or `end` if they all are.
pub open spec fn first_bad_cont(b: Seq<u8>, i: int, end: int) -> int
    decreases end - i,
{
    if i < 0 || i >= end || i >= b.len() {
        end
    } else if !is_cont(b[i]) {
        i
    } else {
        first_bad_cont(b, i + 1, end)
    }
}

/// The symbolic key a C0 control code maps to, if any.
pub open spec fn c0_sym(cp: u32) -> Option<TermKeySym> {
    if cp == 0x09 {
        Some(TermKeySym::TERMKEY_SYM_TAB)
    } else if cp == 0x0D {
        Some(TermKeySym::TERMKEY_SYM_ENTER)
    } else if cp == 0x1B {
        Some(TermKeySym::TERMKEY_SYM_ESCAPE)
    } else {
        None
    }
}

/// The letter a C0 control code stands for: codes of Ctrl-letters map
/// to the lower-case letter, the rest to the punctuation at +0x40.
pub open spec fn ctrl_letter(cp: u32) -> u32 {
    if 1 <= cp <= 26 {
        (cp + 0x60) as u32
    } else {
        (cp + 0x40) as u32
    }
}

/// The key a single decoded code point produces, before
/// canonicalization.  `base_mods` carries an Alt modifier picked up
/// from an ESC prefix.
pub open spec fn spec_emit(cp: u32, flags: X_TermKey_Flag, base_mods: u16) -> KeyDesc {
    if cp == 0 {
        // NUL is Ctrl-Space.
        KeyDesc::DescKeySym {
            sym: TermKeySym::TERMKEY_SYM_SPACE,
            mods: base_mods | MOD_CTRL,
        }
    } else if cp < 0x20 {
        if flags.spec_nointerpret() {
            KeyDesc::DescUnicode { cp, mods: base_mods }
        } else if c0_sym(cp) is Some {
            KeyDesc::DescKeySym { sym: c0_sym(cp)->Some_0, mods: base_mods }
        } else {
            KeyDesc::DescUnicode { cp: ctrl_letter(cp), mods: base_mods | MOD_CTRL }
        }
    } else if cp == 0x7F {
        if flags.spec_nointerpret() {
            KeyDesc::DescUnicode { cp, mods: base_mods }
        } else {
            KeyDesc::DescKeySym { sym: TermKeySym::TERMKEY_SYM_DEL, mods: base_mods }
        }
    } else if cp < 0x80 {
        KeyDesc::DescUnicode { cp, mods: base_mods }
    } else if cp < 0xA0 {
        // A C1 control byte can only be a Ctrl-Alt-modified G0 byte.
        KeyDesc::DescUnicode {
            cp: (cp - 0x40) as u32,
            mods: base_mods | MOD_ALT | MOD_CTRL,
        }
    } else {
        KeyDesc::DescUnicode { cp, mods: base_mods }
    }
}

/// The scalar value of the complete `n`-byte UTF-8 sequence at the
/// head of `b`.
pub open spec fn utf8_value(b: Seq<u8>, n: int) -> int
    recommends
        2 <= n <= 4,
        b.len() >= n,
{
    if n == 2 {
        (b[0] - 0xC0) * 0x40 + (b[1] - 0x80)
    } else if n == 3 {
        (b[0] - 0xE0) * 0x1000 + (b[1] - 0x80) * 0x40 + (b[2] - 0x80)
    } else {
        (b[0] - 0xF0) * 0x40000 + (b[1] - 0x80) * 0x1000 + (b[2] - 0x80) * 0x40 + (b[3] - 0x80)
    }
}

/// The least scalar value an `n`-byte sequence may encode; anything
/// smaller is an overlong encoding.
pub open spec fn utf8_min(n: int) -> int {
    if n == 2 {
        0x80
    } else if n == 3 {
        0x800
    } else {
        0x10000
    }
}

/// One decode step on a multi-byte UTF-8 sequence whose lead byte
/// announces `n` bytes in all.  A byte that breaks the continuation
/// pattern leaves the sequence before it consumed as the replacement
/// character and itself buffered; an overlong encoding, a surrogate or
/// a value beyond the Unicode range consumes the whole sequence as the
/// replacement character.
pub open spec fn spec_utf8_more(b: Seq<u8>, n: int, flags: X_TermKey_Flag, base_mods: u16) -> Peek
    recommends
        2 <= n <= 4,
        b.len() >= 1,
{
    let avail = if b.len() < n {
        b.len() as int
    } else {
        n
    };
    let k = first_bad_cont(b, 1, avail);
    if k < avail {
        Peek::PeekKey(spec_emit(0xFFFD, flags, base_mods), k)
    } else if b.len() < n {
        Peek::PeekAgain
    } else {
        let v = utf8_value(b, n);
        if v < utf8_min(n) || (0xD800 <= v && v < 0xE000) || v > 0x10FFFF {
            Peek::PeekKey(spec_emit(0xFFFD, flags, base_mods), n)
        } else {
            Peek::PeekKey(spec_emit(v as u32, flags, base_mods), n)
        }
    }
}

/// One decode step on a buffer that does not start with ESC (or whose
/// ESC has already been stripped): a plain byte, or a UTF-8 sequence
/// unless the raw flag is set.
pub open spec fn spec_peek_simple(b: Seq<u8>, flags: X_TermKey_Flag, base_mods: u16) -> Peek
    recommends
        b.len() >= 1,
{
    let c0 = b[0];
    if c0 < 0x80 || flags.spec_raw() {
        Peek::PeekKey(spec_emit(c0 as u32, flags, base_mods), 1)
    } else if is_cont(c0) || c0 > 0xF4 {
        Peek::PeekKey(spec_emit(0xFFFD, flags, base_mods), 1)
    } else {
        let n: int = if c0 < 0xE0 {
            2
        } else if c0 < 0xF0 {
            3
        } else {
            4
        };
        spec_utf8_more(b, n, flags, base_mods)
    }
}

/// The key a complete SS3 sequence `ESC O c` produces.
pub open spec fn ss3_desc(c: u8) -> KeyDesc {
    if c == 0x41 {
        KeyDesc::DescKeySym { sym: TermKeySym::TERMKEY_SYM_UP, mods: 0 }
    } else if c == 0x42 {
        KeyDesc::DescKeySym { sym: TermKeySym::TERMKEY_SYM_DOWN, mods: 0 }
    } else if c == 0x43 {
        KeyDesc::DescKeySym { sym: TermKeySym::TERMKEY_SYM_RIGHT, mods: 0 }
    } else if c == 0x44 {
        KeyDesc::DescKeySym { sym: TermKeySym::TERMKEY_SYM_LEFT, mods: 0 }
    } else if c == 0x45 {
        KeyDesc::DescKeySym { sym: TermKeySym::TERMKEY_SYM_BEGIN, mods: 0 }
    } else if c == 0x46 {
        KeyDesc::DescKeySym { sym: TermKeySym::TERMKEY_SYM_END, mods: 0 }
    } else if c == 0x48 {
        KeyDesc::DescKeySym { sym: TermKeySym::TERMKEY_SYM_HOME, mods: 0 }
    } else if 0x50 <= c && c <= 0x53 {
        KeyDesc::DescFunction { num: (c - 0x4F) as i32, mods: 0 }
    } else {
        KeyDesc::DescCsi
    }
}

/// The kind, button and modifiers a mouse report with packed button
/// byte `cb` carries.  Bits 2 to 4 carry the modifiers, bit 5 marks a
/// drag, bits 0, 1, 6 and 7 select the button; a low button code of 3
/// is a release.  `sgr_release` marks the SGR protocol's lower-case
/// final byte, which reports a release with the button kept.
pub open spec fn mouse_desc(cb: int, x: int, y: int, sgr_release: bool) -> KeyDesc
    recommends
        cb >= 0,
{
    let drag = (cb / 32) % 2 == 1;
    let mods = (((cb / 4) % 8) as u16);
    let code = cb % 4 + 64 * ((cb / 64) % 4);
    let ev = if code == 3 || sgr_release {
        TermKeyMouseEvent::TERMKEY_MOUSE_RELEASE
    } else if code <= 2 || code == 64 || code == 65 {
        if drag {
            TermKeyMouseEvent::TERMKEY_MOUSE_DRAG
        } else {
            TermKeyMouseEvent::TERMKEY_MOUSE_PRESS
        }
    } else {
        TermKeyMouseEvent::TERMKEY_MOUSE_UNKNOWN
    };
    let button: i32 = if code <= 2 {
        (code + 1) as i32
    } else if code == 64 || code == 65 {
        (code - 60) as i32
    } else {
        0
    };
    KeyDesc::DescMouse { ev, mods, button, line: y as i32, col: x as i32 }
}

/// The start of the run of intermediate bytes that ends `t`.
pub open spec fn inter_start(t: Seq<u8>) -> int
    decreases t.len(),
{
    if t.len() == 0 {
        0
    } else if is_csi_inter(t[t.len() - 1]) {
        inter_start(t.take(t.len() - 1))
    } else {
        t.len() as int
    }
}

/// Whether every byte of `t` is a digit or a parameter separator.
pub open spec fn params_clean(t: Seq<u8>) -> bool {
    forall|j: int| 0 <= j < t.len() ==> is_digit(#[trigger] t[j]) || t[j] == 0x3B
}

/// The index of the first `;` at or after `i`, or `t.len()`.
pub open spec fn first_semi(t: Seq<u8>, i: int) -> int
    decreases t.len() - i,
{
    if i < 0 || i >= t.len() {
        t.len() as int
    } else if t[i] == 0x3B {
        i
    } else {
        first_semi(t, i + 1)
    }
}

/// The value of a run of decimal digits, saturating at `i32::MAX`.
pub open spec fn dec_sat(s: Seq<u8>) -> i32
    decreases s.len(),
{
    if s.len() == 0 {
        0
    } else {
        let p = dec_sat(s.take(s.len() - 1));
        let v = p * 10 + (s[s.len() - 1] - 0x30);
        if v > 0x7FFFFFFF {
            0x7FFFFFFF
        } else {
            v as i32
        }
    }
}

/// The value of one parameter slot: an empty slot stands for a
/// missing parameter and is reported as -1.
pub open spec fn param_val(s: Seq<u8>) -> i32 {
    if s.len() == 0 {
        -1i32
    } else {
        dec_sat(s)
    }
}

/// The parameter list encoded in `t`, split on `;`.
pub open spec fn parse_params(t: Seq<u8>) -> Seq<i32>
    decreases t.len(),
{
    if t.len() == 0 {
        seq![]
    } else {
        let k = first_semi(t, 0);
        if 0 <= k < t.len() {
            seq![param_val(t.take(k))] + parse_params(t.skip(k + 1))
        } else {
            seq![param_val(t)]
        }
    }
}

/// The modifier bits a CSI modifier parameter encodes: the parameter
/// is the bit value plus one, Shift, Alt, Ctrl from the low bits.
pub open spec fn csi_mods(ps: Seq<i32>) -> u16 {
    if ps.len() >= 2 && ps[1] >= 1 {
        (((ps[1] - 1) % 8) as u16)
    } else {
        0
    }
}

/// Whether `v` holds a Unicode scalar value.
pub open spec fn param_scalar(v: i32) -> bool {
    0 <= v && (v < 0xD800 || (0xE000 <= v && v <= 0x10FFFF))
}

/// The key a complete `ESC [ ... ~` sequence produces: a symbolic or
/// function key selected by the first parameter, with the second as
/// modifiers; number 27 embeds a code point as the third parameter.
pub open spec fn tilde_desc(ps: Seq<i32>, flags: X_TermKey_Flag) -> KeyDesc {
    if ps.len() < 1 {
        KeyDesc::DescCsi
    } else {
        let n = ps[0];
        let m = csi_mods(ps);
        if n == 1 {
            KeyDesc::DescKeySym { sym: TermKeySym::TERMKEY_SYM_FIND, mods: m }
        } else if n == 2 {
            KeyDesc::DescKeySym { sym: TermKeySym::TERMKEY_SYM_INSERT, mods: m }
        } else if n == 3 {
            KeyDesc::DescKeySym { sym: TermKeySym::TERMKEY_SYM_DELETE, mods: m }
        } else if n == 4 {
            KeyDesc::DescKeySym { sym: TermKeySym::TERMKEY_SYM_SELECT, mods: m }
        } else if n == 5 {
            KeyDesc::DescKeySym { sym: TermKeySym::TERMKEY_SYM_PAGEUP, mods: m }
        } else if n == 6 {
            KeyDesc::DescKeySym { sym: TermKeySym::TERMKEY_SYM_PAGEDOWN, mods: m }
        } else if n == 7 {
            KeyDesc::DescKeySym { sym: TermKeySym::TERMKEY_SYM_HOME, mods: m }
        } else if n == 8 {
            KeyDesc::DescKeySym { sym: TermKeySym::TERMKEY_SYM_END, mods: m }
        } else if 11 <= n && n <= 15 {
            KeyDesc::DescFunction { num: (n - 10) as i32, mods: m }
        } else if 17 <= n && n <= 21 {
            KeyDesc::DescFunction { num: (n - 11) as i32, mods: m }
        } else if n == 23 || n == 24 {
            KeyDesc::DescFunction { num: (n - 12) as i32, mods: m }
        } else if n == 27 {
            if ps.len() >= 3 && param_scalar(ps[2]) {
                spec_emit(ps[2] as u32, flags, m)
            } else {
                KeyDesc::DescCsi
            }
        } else {
            KeyDesc::DescCsi
        }
    }
}

/// The key a complete CSI sequence produces, classified by its leading
/// marker, parameters, intermediate bytes and final byte.
pub open spec fn csi_desc(body: Seq<u8>, fin: u8, flags: X_TermKey_Flag) -> KeyDesc {
    let marker: u8 = if body.len() > 0 && 0x3C <= body[0] && body[0] <= 0x3F {
        body[0]
    } else {
        0
    };
    let rest = if marker != 0 {
        body.skip(1)
    } else {
        body
    };
    let istart = inter_start(rest);
    let inter = rest.skip(istart);
    let ptext = rest.take(istart);
    if !params_clean(ptext) {
        KeyDesc::DescCsi
    } else {
        let ps = parse_params(ptext);
        if inter.len() > 0 {
            if inter == seq![0x24u8] && fin == 0x79 && (marker == 0 || marker == 0x3F) && ps.len()
                == 2 && ps[0] >= 0 && ps[1] >= 0 {
                KeyDesc::DescModeReport {
                    initial: if marker == 0x3F {
                        63
                    } else {
                        0
                    },
                    mode: ps[0],
                    value: ps[1],
                }
            } else {
                KeyDesc::DescCsi
            }
        } else if marker == 0x3C && (fin == 0x4D || fin == 0x6D) {
            if ps.len() == 3 && ps[0] >= 0 && ps[1] >= 0 && ps[2] >= 0 {
                mouse_desc(ps[0] as int, ps[1] as int, ps[2] as int, fin == 0x6D)
            } else {
                KeyDesc::DescCsi
            }
        } else if marker == 0x3F {
            if fin == 0x52 && ps.len() == 2 && ps[0] >= 0 && ps[1] >= 0 {
                KeyDesc::DescPosition { line: ps[0], col: ps[1] }
            } else {
                KeyDesc::DescCsi
            }
        } else if marker != 0 {
            KeyDesc::DescCsi
        } else if fin == 0x41 {
            KeyDesc::DescKeySym { sym: TermKeySym::TERMKEY_SYM_UP, mods: csi_mods(ps) }
        } else if fin == 0x42 {
            KeyDesc::DescKeySym { sym: TermKeySym::TERMKEY_SYM_DOWN, mods: csi_mods(ps) }
        } else if fin == 0x43 {
            KeyDesc::DescKeySym { sym: TermKeySym::TERMKEY_SYM_RIGHT, mods: csi_mods(ps) }
        } else if fin == 0x44 {
            KeyDesc::DescKeySym { sym: TermKeySym::TERMKEY_SYM_LEFT, mods: csi_mods(ps) }
        } else if fin == 0x45 {
            KeyDesc::DescKeySym { sym: TermKeySym::TERMKEY_SYM_BEGIN, mods: csi_mods(ps) }
        } else if fin == 0x46 {
            KeyDesc::DescKeySym { sym: TermKeySym::TERMKEY_SYM_END, mods: csi_mods(ps) }
        } else if fin == 0x48 {
            KeyDesc::DescKeySym { sym: TermKeySym::TERMKEY_SYM_HOME, mods: csi_mods(ps) }
        } else if 0x50 <= fin && fin <= 0x53 {
            KeyDesc::DescFunction { num: (fin - 0x4F) as i32, mods: csi_mods(ps) }
        } else if fin == 0x5A {
            KeyDesc::DescKeySym { sym: TermKeySym::TERMKEY_SYM_TAB, mods: MOD_SHIFT | csi_mods(ps) }
        } else if fin == 0x75 {
            if ps.len() >= 1 && param_scalar(ps[0]) {
                spec_emit(ps[0] as u32, flags, csi_mods(ps))
            } else {
                KeyDesc::DescCsi
            }
        } else if fin == 0x4D {
            // the rxvt protocol: button byte, then column, then line
            if ps.len() == 3 && ps[0] >= 0 && ps[1] >= 0 && ps[2] >= 0 {
                mouse_desc(ps[0] as int, ps[1] as int, ps[2] as int, false)
            } else {
                KeyDesc::DescCsi
            }
        } else if fin == 0x52 {
            if ps.len() == 2 && ps[0] >= 0 && ps[1] >= 0 {
                KeyDesc::DescPosition { line: ps[0], col: ps[1] }
            } else if ps.len() == 0 {
                KeyDesc::DescFunction { num: 3, mods: 0 }
            } else {
                KeyDesc::DescCsi
            }
        } else if fin == 0x7E {
            tilde_desc(ps, flags)
        } else {
            KeyDesc::DescCsi
        }
    }
}

/// One decode step on a buffer that starts with `ESC [`.
pub open spec fn spec_peek_csi(b: Seq<u8>, flags: X_TermKey_Flag) -> Peek
    recommends
        b.len() >= 2,
        b[0] == 0x1B,
        b[1] == 0x5B,
{
    let e = first_final(b, 2);
    if e >= b.len() {
        Peek::PeekAgain
    } else if b[e] == 0x4D && e == 2 {
        // The X10 protocol: three raw bytes follow the final `M`.
        if b.len() < 6 {
            Peek::PeekAgain
        } else {
            Peek::PeekKey(
                mouse_desc(
                    ((b[3] + 224) % 256) as int,
                    ((b[4] + 224) % 256) as int,
                    ((b[5] + 224) % 256) as int,
                    false,
                ),
                6,
            )
        }
    } else {
        Peek::PeekKey(csi_desc(b.subrange(2, e), b[e], flags), e + 1)
    }
}

/// One decode step on a buffer that starts with ESC.
pub open spec fn spec_peek_esc(b: Seq<u8>, flags: X_TermKey_Flag) -> Peek
    recommends
        b.len() >= 1,
        b[0] == 0x1B,
{
    if b.len() == 1 {
        Peek::PeekAgain
    } else if b[1] == 0x5B {
        spec_peek_csi(b, flags)
    } else if b[1] == 0x4F {
        if b.len() < 3 {
            Peek::PeekAgain
        } else {
            Peek::PeekKey(ss3_desc(b[2]), 3)
        }
    } else {
        match spec_peek_simple(b.skip(1), flags, MOD_ALT) {
            Peek::PeekKey(d, n) => Peek::PeekKey(d, n + 1),
            Peek::PeekAgain => Peek::PeekAgain,
            Peek::PeekNone => Peek::PeekNone,
        }
    }
}

/// One decode step on the buffered bytes: what the next poll yields
/// and how many bytes it consumes, before canonicalization.
pub open spec fn spec_peek(b: Seq<u8>, flags: X_TermKey_Flag) -> Peek {
    if b.len() == 0 {
        Peek::PeekNone
    } else if b[0] == 0x1B {
        spec_peek_esc(b, flags)
    } else {
        spec_peek_simple(b, flags, 0)
    }
}

} // verus!

use crate::flags::FLAG_NOINTERPRET;
use crate::flags::FLAG_RAW;

verus! {

/// What one executable decode step yields.
pub enum PeekRes {
    RNone,
    RAgain,
    RKey(KeyDesc, usize),
}

/// Whether the executable result `r` is the modelled result `p`.
pub open spec fn peek_matches(r: PeekRes, p: Peek) -> bool {
    match p {
        Peek::PeekNone => r is RNone,
        Peek::PeekAgain => r is RAgain,
        Peek::PeekKey(d, n) => r matches PeekRes::RKey(d2, n2) && d2 == d && n2 == n,
    }
}

/// The symbolic key a C0 control code maps to, if any.
fn c0_sym_exec(cp: u32) -> (r: Option<TermKeySym>)
    ensures
        r == c0_sym(cp),
{
    if cp == 0x09 {
        Some(TermKeySym::TERMKEY_SYM_TAB)
    } else if cp == 0x0D {
        Some(TermKeySym::TERMKEY_SYM_ENTER)
    } else if cp == 0x1B {
        Some(TermKeySym::TERMKEY_SYM_ESCAPE)
    } else {
        None
    }
}

/// The key a single decoded code point produces.
pub fn emit_codepoint(cp: u32, flags: X_TermKey_Flag, base_mods: u16) -> (d: KeyDesc)
    requires
        cp <= 0x10FFFF,
    ensures
        d == spec_emit(cp, flags, base_mods),
{
    let nointerpret = flags.bits & FLAG_NOINTERPRET != 0;
    if cp == 0 {
        KeyDesc::DescKeySym { sym: TermKeySym::TERMKEY_SYM_SPACE, mods: base_mods | MOD_CTRL }
    } else if cp < 0x20 {
        if nointerpret {
            KeyDesc::DescUnicode { cp, mods: base_mods }
        } else {
            match c0_sym_exec(cp) {
                Some(sym) => KeyDesc::DescKeySym { sym, mods: base_mods },
                None => {
                    let letter = if 1 <= cp && cp <= 26 {
                        cp + 0x60
                    } else {
                        cp + 0x40
                    };
                    KeyDesc::DescUnicode { cp: letter, mods: base_mods | MOD_CTRL }
                },
            }
        }
    } else if cp == 0x7F {
        if nointerpret {
            KeyDesc::DescUnicode { cp, mods: base_mods }
        } else {
            KeyDesc::DescKeySym { sym: TermKeySym::TERMKEY_SYM_DEL, mods: base_mods }
        }
    } else if cp < 0x80 {
        KeyDesc::DescUnicode { cp, mods: base_mods }
    } else if cp < 0xA0 {
        KeyDesc::DescUnicode { cp: cp - 0x40, mods: base_mods | MOD_ALT | MOD_CTRL }
    } else {
        KeyDesc::DescUnicode { cp, mods: base_mods }
    }
}

/// One decode step from offset `off`, for a plain byte or a UTF-8
/// sequence.
#[verifier::loop_isolation(false)]
fn peek_simple(buf: &Vec<u8>, off: usize, flags: X_TermKey_Flag, base_mods: u16) -> (r: PeekRes)
    requires
        off < buf@.len(),
    ensures
        peek_matches(r, spec_peek_simple(buf@.skip(off as int), flags, base_mods)),
        r matches PeekRes::RKey(d, n) ==> n <= 4,
{
    let ghost s = buf@.skip(off as int);
    let c0 = buf[off];
    assert(s[0] == c0);
    if c0 < 0x80 || (flags.bits & FLAG_RAW != 0) {
        PeekRes::RKey(emit_codepoint(c0 as u32, flags, base_mods), 1)
    } else if c0 < 0xC0 || c0 > 0xF4 {
        PeekRes::RKey(emit_codepoint(0xFFFD, flags, base_mods), 1)
    } else {
        let n: usize = if c0 < 0xE0 {
            2
        } else if c0 < 0xF0 {
            3
        } else {
            4
        };
        let have = buf.len() - off;
        let avail: usize = if have < n {
            have
        } else {
            n
        };
        let mut j: usize = 1;
        while j < avail
            invariant
                1 <= j <= avail,
                avail <= have,
                have == buf@.len() - off,
                off < buf@.len(),
                s == buf@.skip(off as int),
                avail <= n,
                first_bad_cont(s, 1, avail as int) == first_bad_cont(s, j as int, avail as int),
                forall|i: int| 1 <= i < j ==> is_cont(s[i]),
            decreases avail - j,
        {
            let c = buf[off + j];
            proof {
                assert(s.len() == have);
                assert(s[j as int] == c);
            }
            if !(0x80 <= c && c < 0xC0) {
                proof {
                    assert(!is_cont(s[j as int]));
                    assert(first_bad_cont(s, j as int, avail as int) == j);
                }
                return PeekRes::RKey(emit_codepoint(0xFFFD, flags, base_mods), j);
            }
            proof {
                assert(is_cont(s[j as int]));
                assert(first_bad_cont(s, j as int, avail as int) == first_bad_cont(
                    s,
                    j + 1,
                    avail as int,
                ));
            }
            j += 1;
        }
        proof {
            assert(first_bad_cont(s, avail as int, avail as int) == avail);
            assert(first_bad_cont(s, 1, avail as int) == avail);
        }
        if have < n {
            PeekRes::RAgain
        } else {
            let v: u32 = if n == 2 {
                (c0 as u32 - 0xC0) * 0x40 + (buf[off + 1] as u32 - 0x80)
            } else if n == 3 {
                (c0 as u32 - 0xE0) * 0x1000 + (buf[off + 1] as u32 - 0x80) * 0x40 + (buf[off
                    + 2] as u32 - 0x80)
            } else {
                (c0 as u32 - 0xF0) * 0x40000 + (buf[off + 1] as u32 - 0x80) * 0x1000 + (buf[off
                    + 2] as u32 - 0x80) * 0x40 + (buf[off + 3] as u32 - 0x80)
            };
            proof {
                assert(forall|i: int| 0 <= i < s.len() ==> s[i] == buf@[off + i]);
                assert(v == utf8_value(s, n as int));
            }
            let min: u32 = if n == 2 {
                0x80
            } else if n == 3 {
                0x800
            } else {
                0x10000
            };
            if v < min || (0xD800 <= v && v < 0xE000) || v > 0x10FFFF {
                PeekRes::RKey(emit_codepoint(0xFFFD, flags, base_mods), n)
            } else {
                PeekRes::RKey(emit_codepoint(v, flags, base_mods), n)
            }
        }
    }
}

/// The key a complete SS3 sequence produces.
fn ss3_desc_exec(c: u8) -> (r: KeyDesc)
    ensures
        r == ss3_desc(c),
{
    if c == 0x41 {
        KeyDesc::DescKeySym { sym: TermKeySym::TERMKEY_SYM_UP, mods: 0 }
    } else if c == 0x42 {
        KeyDesc::DescKeySym { sym: TermKeySym::TERMKEY_SYM_DOWN, mods: 0 }
    } else if c == 0x43 {
        KeyDesc::DescKeySym { sym: TermKeySym::TERMKEY_SYM_RIGHT, mods: 0 }
    } else if c == 0x44 {
        KeyDesc::DescKeySym { sym: TermKeySym::TERMKEY_SYM_LEFT, mods: 0 }
    } else if c == 0x45 {
        KeyDesc::DescKeySym { sym: TermKeySym::TERMKEY_SYM_BEGIN, mods: 0 }
    } else if c == 0x46 {
        KeyDesc::DescKeySym { sym: TermKeySym::TERMKEY_SYM_END, mods: 0 }
    } else if c == 0x48 {
        KeyDesc::DescKeySym { sym: TermKeySym::TERMKEY_SYM_HOME, mods: 0 }
    } else if 0x50 <= c && c <= 0x53 {
        KeyDesc::DescFunction { num: (c - 0x4F) as i32, mods: 0 }
    } else {
        KeyDesc::DescCsi
    }
}

/// The kind, button and modifiers of a mouse report.
fn mouse_desc_exec(cb: i32, x: i32, y: i32, sgr_release: bool) -> (r: KeyDesc)
    requires
        cb >= 0,
    ensures
        r == mouse_desc(cb as int, x as int, y as int, sgr_release),
{
    let drag = (cb / 32) % 2 == 1;
    let mods = ((cb / 4) % 8) as u16;
    let code = cb % 4 + 64 * ((cb / 64) % 4);
    let ev = if code == 3 || sgr_release {
        TermKeyMouseEvent::TERMKEY_MOUSE_RELEASE
    } else if code <= 2 || code == 64 || code == 65 {
        if drag {
            TermKeyMouseEvent::TERMKEY_MOUSE_DRAG
        } else {
            TermKeyMouseEvent::TERMKEY_MOUSE_PRESS
        }
    } else {
        TermKeyMouseEvent::TERMKEY_MOUSE_UNKNOWN
    };
    let button: i32 = if code <= 2 {
        code + 1
    } else if code == 64 || code == 65 {
        code - 60
    } else {
        0
    };
    KeyDesc::DescMouse { ev, mods, button, line: y, col: x }
}

/// The value of one run of decimal digits, saturating at `i32::MAX`.
fn dec_sat_exec(t: &Vec<u8>, from: usize, to: usize) -> (r: i32)
    requires
        from <= to <= t@.len(),
        forall|j: int| from <= j < to ==> is_digit(#[trigger] t@[j]),
    ensures
        r == dec_sat(t@.subrange(from as int, to as int)),
{
    let mut cur: i32 = 0;
    let mut j: usize = from;
    while j < to
        invariant
            from <= j <= to <= t@.len(),
            forall|k: int| from <= k < to ==> is_digit(#[trigger] t@[k]),
            cur == dec_sat(t@.subrange(from as int, j as int)),
            cur >= 0,
        decreases to - j,
    {
        let c = t[j];
        proof {
            assert(is_digit(t@[j as int]));
        }
        let d: i32 = (c - 0x30) as i32;
        assert(0 <= d <= 9);
        let next: i32 = if cur > 214748364 {
            0x7FFFFFFF
        } else if cur == 214748364 {
            if d > 7 {
                0x7FFFFFFF
            } else {
                2147483640 + d
            }
        } else {
            cur * 10 + d
        };
        proof {
            let pre = t@.subrange(from as int, j as int);
            let post = t@.subrange(from as int, j + 1 as int);
            assert(post.take(post.len() - 1) =~= pre);
            assert(post[post.len() - 1] == t@[j as int]);
        }
        cur = next;
        j += 1;
    }
    proof {
        assert(t@.subrange(from as int, to as int) =~= t@.subrange(from as int, to as int));
    }
    cur
}

/// The parameter list encoded in `t[from..to]`, split on `;`.
fn parse_params_exec(t: &Vec<u8>, from: usize, to: usize) -> (r: Vec<i32>)
    requires
        from <= to <= t@.len(),
        forall|j: int|
            from <= j < to ==> is_digit(#[trigger] t@[j]) || t@[j] == 0x3B,
    ensures
        r@ == parse_params(t@.subrange(from as int, to as int)),
{
    let mut out: Vec<i32> = Vec::new();
    let mut i: usize = from;
    while i < to
        invariant
            from <= i <= to <= t@.len(),
            forall|j: int|
                from <= j < to ==> is_digit(#[trigger] t@[j]) || t@[j] == 0x3B,
            parse_params(t@.subrange(from as int, to as int)) == out@ + parse_params(
                t@.subrange(i as int, to as int),
            ),
        decreases to - i,
    {
        // find the next separator
        let mut k: usize = i;
        while k < to && t[k] != 0x3B
            invariant
                i <= k <= to <= t@.len(),
                forall|j: int| i <= j < k ==> t@[j] != 0x3B,
                first_semi(t@.subrange(i as int, to as int), 0) == first_semi(
                    t@.subrange(i as int, to as int),
                    k - i,
                ),
            decreases to - k,
        {
            proof {
                let seg = t@.subrange(i as int, to as int);
                assert(seg[k - i] == t@[k as int]);
                assert(first_semi(seg, k - i) == first_semi(seg, k - i + 1));
            }
            k += 1;
        }
        proof {
            let seg = t@.subrange(i as int, to as int);
            if k < to {
                assert(seg[k - i] == t@[k as int]);
                assert(first_semi(seg, k - i) == k - i);
            } else {
                assert(first_semi(seg, k - i) == seg.len());
            }
        }
        let v: i32 = if k == i {
            -1
        } else {
            let d = dec_sat_exec(t, i, k);
            proof {
                assert(t@.subrange(i as int, to as int).take(k - i) =~= t@.subrange(
                    i as int,
                    k as int,
                ));
            }
            d
        };
        proof {
            let seg = t@.subrange(i as int, to as int);
            assert(seg.len() > 0);
            if k < to {
                assert(param_val(seg.take(k - i)) == v);
                assert(seg.skip(k - i + 1) =~= t@.subrange(k + 1 as int, to as int));
            } else {
                assert(param_val(seg) == v);
            }
        }
        out.push(v);
        if k < to {
            i = k + 1;
        } else {
            i = to;
            proof {
                assert(t@.subrange(to as int, to as int).len() == 0);
            }
        }
    }
    proof {
        assert(t@.subrange(i as int, to as int).len() == 0);
        assert(parse_params(t@.subrange(i as int, to as int)) =~= Seq::<i32>::empty());
        assert(out@ + Seq::<i32>::empty() =~= out@);
    }
    out
}

/// The modifier bits a CSI modifier parameter encodes.
fn csi_mods_exec(ps: &Vec<i32>) -> (r: u16)
    ensures
        r == csi_mods(ps@),
{
    if ps.len() >= 2 {
        let p = ps[1];
        if p >= 1 {
            (((p - 1) % 8) as u16)
        } else {
            0
        }
    } else {
        0
    }
}

/// The key a complete `ESC [ ... ~` sequence produces.
fn tilde_desc_exec(ps: &Vec<i32>, flags: X_TermKey_Flag) -> (r: KeyDesc)
    ensures
        r == tilde_desc(ps@, flags),
{
    if ps.len() < 1 {
        return KeyDesc::DescCsi;
    }
    let n = ps[0];
    let m = csi_mods_exec(ps);
    if n == 1 {
        KeyDesc::DescKeySym { sym: TermKeySym::TERMKEY_SYM_FIND, mods: m }
    } else if n == 2 {
        KeyDesc::DescKeySym { sym: TermKeySym::TERMKEY_SYM_INSERT, mods: m }
    } else if n == 3 {
        KeyDesc::DescKeySym { sym: TermKeySym::TERMKEY_SYM_DELETE, mods: m }
    } else if n == 4 {
        KeyDesc::DescKeySym { sym: TermKeySym::TERMKEY_SYM_SELECT, mods: m }
    } else if n == 5 {
        KeyDesc::DescKeySym { sym: TermKeySym::TERMKEY_SYM_PAGEUP, mods: m }
    } else if n == 6 {
        KeyDesc::DescKeySym { sym: TermKeySym::TERMKEY_SYM_PAGEDOWN, mods: m }
    } else if n == 7 {
        KeyDesc::DescKeySym { sym: TermKeySym::TERMKEY_SYM_HOME, mods: m }
    } else if n == 8 {
        KeyDesc::DescKeySym { sym: TermKeySym::TERMKEY_SYM_END, mods: m }
    } else if 11 <= n && n <= 15 {
        KeyDesc::DescFunction { num: n - 10, mods: m }
    } else if 17 <= n && n <= 21 {
        KeyDesc::DescFunction { num: n - 11, mods: m }
    } else if n == 23 || n == 24 {
        KeyDesc::DescFunction { num: n - 12, mods: m }
    } else if n == 27 {
        if ps.len() >= 3 {
            let cp = ps[2];
            if 0 <= cp && (cp < 0xD800 || (0xE000 <= cp && cp <= 0x10FFFF)) {
                emit_codepoint(cp as u32, flags, m)
            } else {
                KeyDesc::DescCsi
            }
        } else {
            KeyDesc::DescCsi
        }
    } else {
        KeyDesc::DescCsi
    }
}

/// Whether `c` is a CSI intermediate byte.
fn is_inter_byte(c: u8) -> (r: bool)
    ensures
        r == is_csi_inter(c),
{
    0x20 <= c && c <= 0x2F
}

/// Whether `c` ends a CSI sequence.
fn is_final_byte(c: u8) -> (r: bool)
    ensures
        r == is_csi_final(c),
{
    0x40 <= c && c <= 0x7E
}

/// The key a complete CSI body and final byte produce.
#[verifier::rlimit(60)]
#[verifier::loop_isolation(false)]
fn csi_desc_exec(body: &Vec<u8>, fin: u8, flags: X_TermKey_Flag) -> (r: KeyDesc)
    ensures
        r == csi_desc(body@, fin, flags),
{
    let blen = body.len();
    let has_marker = blen > 0 && 0x3C <= body[0] && body[0] <= 0x3F;
    let marker: u8 = if has_marker {
        body[0]
    } else {
        0
    };
    let pstart: usize = if has_marker {
        1
    } else {
        0
    };
    let ghost rest = if marker != 0 {
        body@.skip(1)
    } else {
        body@
    };
    proof {
        assert(rest =~= body@.subrange(pstart as int, blen as int));
        assert(rest.take(blen - pstart) =~= rest);
    }
    // strip the run of intermediate bytes before the final byte
    let mut k: usize = blen;
    while k > pstart && is_inter_byte(body[k - 1])
        invariant
            pstart <= k <= blen,
            blen == body@.len(),
            rest =~= body@.subrange(pstart as int, blen as int),
            inter_start(rest) == inter_start(rest.take(k - pstart)),
        decreases k,
    {
        proof {
            let pre = rest.take(k - pstart);
            assert(pre[pre.len() - 1] == rest[k - pstart - 1]);
            assert(rest[k - pstart - 1] == body@[k - 1]);
            assert(is_csi_inter(pre[pre.len() - 1]));
            assert(pre.take(pre.len() - 1) =~= rest.take(k - pstart - 1));
            assert(inter_start(pre) == inter_start(rest.take(k - pstart - 1)));
        }
        k -= 1;
    }
    proof {
        if k == pstart {
            assert(rest.take(0).len() == 0);
            assert(inter_start(rest.take(0)) == 0);
        } else {
            let pre = rest.take(k - pstart);
            assert(pre[pre.len() - 1] == rest[k - pstart - 1]);
            assert(rest[k - pstart - 1] == body@[k - 1]);
            assert(!is_csi_inter(pre[pre.len() - 1]));
            assert(inter_start(pre) == pre.len());
        }
        assert(inter_start(rest) == k - pstart);
    }
    let istart = k;
    // the parameter text must hold only digits and separators
    let mut j: usize = pstart;
    while j < istart
        invariant
            pstart <= j <= istart <= blen,
            blen == body@.len(),
            forall|i: int|
                pstart <= i < j ==> is_digit(#[trigger] body@[i]) || body@[i] == 0x3B,
        decreases istart - j,
    {
        let c = body[j];
        if !((0x30 <= c && c <= 0x39) || c == 0x3B) {
            proof {
                let ptext = rest.take(istart - pstart);
                assert(rest[j - pstart] == body@[j as int]);
                assert(ptext[j - pstart] == c);
                assert(!(is_digit(ptext[j - pstart]) || ptext[j - pstart] == 0x3B));
                assert(!params_clean(ptext));
            }
            return KeyDesc::DescCsi;
        }
        j += 1;
    }
    proof {
        let ptext = rest.take(istart - pstart);
        assert(forall|i: int|
            0 <= i < ptext.len() ==> ptext[i] == body@[pstart + i]);
        assert(params_clean(ptext));
        assert(ptext =~= body@.subrange(pstart as int, istart as int));
    }
    let ps = parse_params_exec(body, pstart, istart);
    let has_inter = istart < blen;
    let inter_is_dollar = blen - istart == 1 && body[istart] == 0x24;
    proof {
        let inter = rest.skip(istart - pstart);
        assert(inter =~= body@.subrange(istart as int, blen as int));
        if has_inter {
            assert(inter.len() > 0);
            if inter_is_dollar {
                assert(inter =~= seq![0x24u8]);
            } else if blen - istart == 1 {
                assert(inter[0] == body@[istart as int]);
                assert(inter[0] != 0x24);
                assert(seq![0x24u8][0] == 0x24);
                assert(inter != seq![0x24u8]);
            } else {
                assert(inter.len() != seq![0x24u8].len());
                assert(inter != seq![0x24u8]);
            }
        }
    }
    if has_inter {
        if inter_is_dollar && fin == 0x79 && (marker == 0 || marker == 0x3F) && ps.len() == 2 {
            let p0 = ps[0];
            let p1 = ps[1];
            if p0 >= 0 && p1 >= 0 {
                KeyDesc::DescModeReport {
                    initial: if marker == 0x3F {
                        63
                    } else {
                        0
                    },
                    mode: p0,
                    value: p1,
                }
            } else {
                KeyDesc::DescCsi
            }
        } else {
            KeyDesc::DescCsi
        }
    } else if marker == 0x3C && (fin == 0x4D || fin == 0x6D) {
        if ps.len() == 3 {
            let p0 = ps[0];
            let p1 = ps[1];
            let p2 = ps[2];
            if p0 >= 0 && p1 >= 0 && p2 >= 0 {
                mouse_desc_exec(p0, p1, p2, fin == 0x6D)
            } else {
                KeyDesc::DescCsi
            }
        } else {
            KeyDesc::DescCsi
        }
    } else if marker == 0x3F {
        if fin == 0x52 && ps.len() == 2 {
            let p0 = ps[0];
            let p1 = ps[1];
            if p0 >= 0 && p1 >= 0 {
                KeyDesc::DescPosition { line: p0, col: p1 }
            } else {
                KeyDesc::DescCsi
            }
        } else {
            KeyDesc::DescCsi
        }
    } else if marker != 0 {
        KeyDesc::DescCsi
    } else if fin == 0x41 {
        KeyDesc::DescKeySym { sym: TermKeySym::TERMKEY_SYM_UP, mods: csi_mods_exec(&ps) }
    } else if fin == 0x42 {
        KeyDesc::DescKeySym { sym: TermKeySym::TERMKEY_SYM_DOWN, mods: csi_mods_exec(&ps) }
    } else if fin == 0x43 {
        KeyDesc::DescKeySym { sym: TermKeySym::TERMKEY_SYM_RIGHT, mods: csi_mods_exec(&ps) }
    } else if fin == 0x44 {
        KeyDesc::DescKeySym { sym: TermKeySym::TERMKEY_SYM_LEFT, mods: csi_mods_exec(&ps) }
    } else if fin == 0x45 {
        KeyDesc::DescKeySym { sym: TermKeySym::TERMKEY_SYM_BEGIN, mods: csi_mods_exec(&ps) }
    } else if fin == 0x46 {
        KeyDesc::DescKeySym { sym: TermKeySym::TERMKEY_SYM_END, mods: csi_mods_exec(&ps) }
    } else if fin == 0x48 {
        KeyDesc::DescKeySym { sym: TermKeySym::TERMKEY_SYM_HOME, mods: csi_mods_exec(&ps) }
    } else if 0x50 <= fin && fin <= 0x53 {
        KeyDesc::DescFunction { num: (fin - 0x4F) as i32, mods: csi_mods_exec(&ps) }
    } else if fin == 0x5A {
        KeyDesc::DescKeySym {
            sym: TermKeySym::TERMKEY_SYM_TAB,
            mods: MOD_SHIFT | csi_mods_exec(&ps),
        }
    } else if fin == 0x75 {
        if ps.len() >= 1 {
            let p0 = ps[0];
            if 0 <= p0 && (p0 < 0xD800 || (0xE000 <= p0 && p0 <= 0x10FFFF)) {
                emit_codepoint(p0 as u32, flags, csi_mods_exec(&ps))
            } else {
                KeyDesc::DescCsi
            }
        } else {
            KeyDesc::DescCsi
        }
    } else if fin == 0x4D {
        // the rxvt protocol: button byte, then column, then line
        if ps.len() == 3 {
            let p0 = ps[0];
            let p1 = ps[1];
            let p2 = ps[2];
            if p0 >= 0 && p1 >= 0 && p2 >= 0 {
                mouse_desc_exec(p0, p1, p2, false)
            } else {
                KeyDesc::DescCsi
            }
        } else {
            KeyDesc::DescCsi
        }
    } else if fin == 0x52 {
        if ps.len() == 2 {
            let p0 = ps[0];
            let p1 = ps[1];
            if p0 >= 0 && p1 >= 0 {
                KeyDesc::DescPosition { line: p0, col: p1 }
            } else {
                KeyDesc::DescCsi
            }
        } else if ps.len() == 0 {
            KeyDesc::DescFunction { num: 3, mods: 0 }
        } else {
            KeyDesc::DescCsi
        }
    } else if fin == 0x7E {
        tilde_desc_exec(&ps, flags)
    } else {
        KeyDesc::DescCsi
    }
}

/// One decode step on a buffer that starts with `ESC [`.
#[verifier::loop_isolation(false)]
fn peek_csi(buf: &Vec<u8>, flags: X_TermKey_Flag) -> (r: PeekRes)
    requires
        buf@.len() >= 2,
        buf@[0] == 0x1B,
        buf@[1] == 0x5B,
    ensures
        peek_matches(r, spec_peek_csi(buf@, flags)),
{
    let len = buf.len();
    let mut e: usize = 2;
    while e < len && !is_final_byte(buf[e])
        invariant
            2 <= e <= len,
            len == buf@.len(),
            first_final(buf@, 2) == first_final(buf@, e as int),
        decreases len - e,
    {
        proof {
            assert(!is_csi_final(buf@[e as int]));
            assert(first_final(buf@, e as int) == first_final(buf@, e + 1));
        }
        e += 1;
    }
    if e >= len {
        assert(first_final(buf@, 2) == len);
        return PeekRes::RAgain;
    }
    assert(is_csi_final(buf@[e as int]));
    assert(first_final(buf@, 2) == e);
    let fin = buf[e];
    if fin == 0x4D && e == 2 {
        if len < 6 {
            PeekRes::RAgain
        } else {
            let cb = (buf[3] as i32 + 224) % 256;
            let x = (buf[4] as i32 + 224) % 256;
            let y = (buf[5] as i32 + 224) % 256;
            PeekRes::RKey(mouse_desc_exec(cb, x, y, false), 6)
        }
    } else {
        let mut body: Vec<u8> = Vec::new();
        let mut i: usize = 2;
        while i < e
            invariant
                2 <= i <= e < len,
                len == buf@.len(),
                body@ =~= buf@.subrange(2, i as int),
            decreases e - i,
        {
            body.push(buf[i]);
            i += 1;
        }
        assert(body@ =~= buf@.subrange(2, e as int));
        PeekRes::RKey(csi_desc_exec(&body, fin, flags), e + 1)
    }
}

/// One decode step on the buffered bytes, before canonicalization.
pub fn peek_buffer(buf: &Vec<u8>, flags: X_TermKey_Flag) -> (r: PeekRes)
    ensures
        peek_matches(r, spec_peek(buf@, flags)),
{
    let len = buf.len();
    if len == 0 {
        return PeekRes::RNone;
    }
    let c0 = buf[0];
    if c0 == 0x1B {
        if len == 1 {
            PeekRes::RAgain
        } else if buf[1] == 0x5B {
            peek_csi(buf, flags)
        } else if buf[1] == 0x4F {
            if len < 3 {
                PeekRes::RAgain
            } else {
                PeekRes::RKey(ss3_desc_exec(buf[2]), 3)
            }
        } else {
            match peek_simple(buf, 1, flags, MOD_ALT) {
                PeekRes::RKey(d, n) => PeekRes::RKey(d, n + 1),
                PeekRes::RAgain => PeekRes::RAgain,
                PeekRes::RNone => PeekRes::RNone,
            }
        }
    } else {
        proof {
            assert(buf@.skip(0) =~= buf@);
        }
        peek_simple(buf, 0, flags, 0)
    }
}

} // verus!

verus! {

/// Bounds and characterization of `first_bad_cont`.
pub proof fn lemma_fbc_char(b: Seq<u8>, i: int, end: int)
    requires
        0 <= i <= end <= b.len(),
    ensures
        i <= first_bad_cont(b, i, end) <= end,
        forall|j: int| i <= j < first_bad_cont(b, i, end) ==> is_cont(#[trigger] b[j]),
        first_bad_cont(b, i, end) < end ==> !is_cont(b[first_bad_cont(b, i, end)]),
    decreases end - i,
{
    if i < end {
        if is_cont(b[i]) {
            lemma_fbc_char(b, i + 1, end);
        }
    }
}

/// Bounds and characterization of `first_final`.
pub proof fn lemma_ff_char(b: Seq<u8>, i: int)
    requires
        0 <= i <= b.len(),
    ensures
        i <= first_final(b, i) <= b.len(),
        forall|j: int| i <= j < first_final(b, i) ==> !is_csi_final(#[trigger] b[j]),
        first_final(b, i) < b.len() ==> is_csi_final(b[first_final(b, i)]),
    decreases b.len() - i,
{
    if i < b.len() {
        if !is_csi_final(b[i]) {
            lemma_ff_char(b, i + 1);
        }
    }
}

/// A key emitted from a Unicode scalar value is well formed.
pub proof fn lemma_emit_wf(cp: u32, flags: X_TermKey_Flag, base_mods: u16)
    requires
        crate::chars::is_scalar_value(cp),
    ensures
        crate::event::desc_wf(spec_emit(cp, flags, base_mods)),
{
}

/// A key produced by the plain-byte decoder is well formed and consumes
/// between one byte and the whole buffer; the plain-byte decoder never
/// reports an empty buffer.
pub proof fn lemma_peek_simple_wf(b: Seq<u8>, flags: X_TermKey_Flag, base_mods: u16)
    requires
        b.len() >= 1,
    ensures
        !(spec_peek_simple(b, flags, base_mods) is PeekNone),
        spec_peek_simple(b, flags, base_mods) matches Peek::PeekKey(d, n) ==> {
            &&& crate::event::desc_wf(d)
            &&& 1 <= n <= b.len()
        },
{
    let c0 = b[0];
    if c0 < 0x80 || flags.spec_raw() {
        lemma_emit_wf(c0 as u32, flags, base_mods);
    } else if is_cont(c0) || c0 > 0xF4 {
        lemma_emit_wf(0xFFFD, flags, base_mods);
    } else {
        let n: int = if c0 < 0xE0 {
            2
        } else if c0 < 0xF0 {
            3
        } else {
            4
        };
        let avail = if b.len() < n {
            b.len() as int
        } else {
            n
        };
        lemma_fbc_char(b, 1, avail);
        let k = first_bad_cont(b, 1, avail);
        if k < avail {
            lemma_emit_wf(0xFFFD, flags, base_mods);
        } else if b.len() >= n {
            let v = utf8_value(b, n);
            if v < utf8_min(n) || (0xD800 <= v && v < 0xE000) || v > 0x10FFFF {
                lemma_emit_wf(0xFFFD, flags, base_mods);
            } else {
                assert(0 <= v <= 0x10FFFF);
                lemma_emit_wf(v as u32, flags, base_mods);
            }
        }
    }
}

/// A key produced by the CSI dispatcher is well formed.
pub proof fn lemma_csi_desc_wf(body: Seq<u8>, fin: u8, flags: X_TermKey_Flag)
    ensures
        crate::event::desc_wf(csi_desc(body, fin, flags)),
{
    let marker: u8 = if body.len() > 0 && 0x3C <= body[0] && body[0] <= 0x3F {
        body[0]
    } else {
        0
    };
    let rest = if marker != 0 {
        body.skip(1)
    } else {
        body
    };
    let istart = inter_start(rest);
    let ptext = rest.take(istart);
    if params_clean(ptext) {
        let ps = parse_params(ptext);
        if ps.len() >= 1 && param_scalar(ps[0]) {
            lemma_emit_wf(ps[0] as u32, flags, csi_mods(ps));
        }
        if ps.len() >= 3 && param_scalar(ps[2]) {
            lemma_emit_wf(ps[2] as u32, flags, csi_mods(ps));
        }
    }
}

/// Every key the recognizer yields is well formed and consumes between
/// one byte and the whole buffer; an empty result means an empty
/// buffer.
pub proof fn lemma_peek_wf(b: Seq<u8>, flags: X_TermKey_Flag)
    ensures
        spec_peek(b, flags) is PeekNone <==> b.len() == 0,
        spec_peek(b, flags) matches Peek::PeekKey(d, n) ==> {
            &&& crate::event::desc_wf(d)
            &&& 1 <= n <= b.len()
        },
{
    if b.len() == 0 {
    } else if b[0] == 0x1B {
        if b.len() == 1 {
        } else if b[1] == 0x5B {
            lemma_ff_char(b, 2);
            let e = first_final(b, 2);
            if e < b.len() {
                if b[e] == 0x4D && e == 2 {
                } else {
                    lemma_csi_desc_wf(b.subrange(2, e), b[e], flags);
                }
            }
        } else if b[1] == 0x4F {
        } else {
            lemma_peek_simple_wf(b.skip(1), flags, MOD_ALT);
        }
    } else {
        lemma_peek_simple_wf(b, flags, 0);
    }
}

} // verus!

use crate::event::spec_canon;
use crate::flags::X_TermKey_Canon;

verus! {

/// `first_bad_cont` is pinned by its characterization.
proof fn lemma_fbc_is(b: Seq<u8>, i: int, end: int, k: int)
    requires
        0 <= i <= k <= end <= b.len(),
        forall|j: int| i <= j < k ==> is_cont(#[trigger] b[j]),
        k < end ==> !is_cont(b[k]),
    ensures
        first_bad_cont(b, i, end) == k,
    decreases k - i,
{
    if i < k {
        lemma_fbc_is(b, i + 1, end, k);
    }
}

/// `first_final` is pinned by its characterization.
proof fn lemma_ff_is(b: Seq<u8>, i: int, e: int)
    requires
        0 <= i <= e <= b.len(),
        forall|j: int| i <= j < e ==> !is_csi_final(#[trigger] b[j]),
        e < b.len() ==> is_csi_final(b[e]),
    ensures
        first_final(b, i) == e,
    decreases e - i,
{
    if i < e {
        lemma_ff_is(b, i + 1, e);
    }
}

/// A completed plain-byte or UTF-8 key does not change when more bytes
/// arrive after it.
proof fn lemma_peek_simple_ext(b: Seq<u8>, ext: Seq<u8>, flags: X_TermKey_Flag, base_mods: u16)
    requires
        b.len() >= 1,
        spec_peek_simple(b, flags, base_mods) is PeekKey,
    ensures
        spec_peek_simple(b + ext, flags, base_mods) == spec_peek_simple(b, flags, base_mods),
{
    let be = b + ext;
    assert(be[0] == b[0]);
    let c0 = b[0];
    if c0 < 0x80 || flags.spec_raw() {
    } else if is_cont(c0) || c0 > 0xF4 {
    } else {
        let n: int = if c0 < 0xE0 {
            2
        } else if c0 < 0xF0 {
            3
        } else {
            4
        };
        let avail_b = if b.len() < n {
            b.len() as int
        } else {
            n
        };
        let avail_e = if be.len() < n {
            be.len() as int
        } else {
            n
        };
        lemma_fbc_char(b, 1, avail_b);
        let k = first_bad_cont(b, 1, avail_b);
        assert(forall|j: int| 0 <= j < b.len() ==> be[j] == b[j]);
        if k < avail_b {
            lemma_fbc_is(be, 1, avail_e, k);
        } else if b.len() >= n {
            lemma_fbc_is(be, 1, avail_e, n);
        } else {
            // the model reported Again, not a key
            assert(spec_peek_simple(b, flags, base_mods) is PeekAgain);
        }
    }
}

/// A completed key does not change when more bytes arrive after it:
/// the recognizer decides each event from the bytes it consumes alone,
/// so later input never rewrites an earlier event.
pub proof fn lemma_peek_key_ext(b: Seq<u8>, ext: Seq<u8>, flags: X_TermKey_Flag)
    requires
        spec_peek(b, flags) is PeekKey,
    ensures
        spec_peek(b + ext, flags) == spec_peek(b, flags),
{
    let be = b + ext;
    lemma_peek_wf(b, flags);
    assert(b.len() >= 1);
    assert(forall|j: int| 0 <= j < b.len() ==> be[j] == b[j]);
    if b[0] == 0x1B {
        if b.len() == 1 {
        } else if b[1] == 0x5B {
            lemma_ff_char(b, 2);
            let e = first_final(b, 2);
            assert(spec_peek_csi(b, flags) is PeekKey);
            assert(e < b.len());
            lemma_ff_is(be, 2, e);
            if b[e] == 0x4D && e == 2 {
                assert(b.len() >= 6);
            } else {
                assert(be.subrange(2, e) =~= b.subrange(2, e));
            }
        } else if b[1] == 0x4F {
            assert(b.len() >= 3);
        } else {
            assert(b.skip(1).len() >= 1);
            assert(spec_peek_simple(b.skip(1), flags, MOD_ALT) is PeekKey);
            assert(be.skip(1) =~= b.skip(1) + ext);
            lemma_peek_simple_ext(b.skip(1), ext, flags, MOD_ALT);
        }
    } else {
        lemma_peek_simple_ext(b, ext, flags, 0);
    }
}

/// Every completed event the buffered bytes hold, in order, after
/// canonicalization.
pub open spec fn spec_events(b: Seq<u8>, flags: X_TermKey_Flag, canon: X_TermKey_Canon) -> Seq<
    KeyDesc,
>
    decreases b.len(),
{
    match spec_peek(b, flags) {
        Peek::PeekKey(d, n) => {
            if 1 <= n <= b.len() {
                seq![spec_canon(d, canon)] + spec_events(b.skip(n), flags, canon)
            } else {
                seq![]
            }
        },
        _ => seq![],
    }
}

/// The bytes left buffered after every completed event is polled out.
pub open spec fn spec_residual(b: Seq<u8>, flags: X_TermKey_Flag) -> Seq<u8>
    decreases b.len(),
{
    match spec_peek(b, flags) {
        Peek::PeekKey(d, n) => {
            if 1 <= n <= b.len() {
                spec_residual(b.skip(n), flags)
            } else {
                b
            }
        },
        _ => b,
    }
}

/// Chunking does not change the decoded events: draining the buffer
/// after feeding `b` and then draining again after feeding `ext`
/// yields exactly the events of feeding `b + ext` whole.  Applied
/// byte by byte this says that incremental delivery and all-at-once
/// delivery produce the same event sequence.
pub proof fn lemma_feed_in_pieces(
    b: Seq<u8>,
    ext: Seq<u8>,
    flags: X_TermKey_Flag,
    canon: X_TermKey_Canon,
)
    ensures
        spec_events(b + ext, flags, canon) == spec_events(b, flags, canon) + spec_events(
            spec_residual(b, flags) + ext,
            flags,
            canon,
        ),
        spec_residual(b + ext, flags) == spec_residual(spec_residual(b, flags) + ext, flags),
    decreases b.len(),
{
    lemma_peek_wf(b, flags);
    match spec_peek(b, flags) {
        Peek::PeekKey(d, n) => {
            lemma_peek_key_ext(b, ext, flags);
            assert((b + ext).skip(n) =~= b.skip(n) + ext);
            lemma_feed_in_pieces(b.skip(n), ext, flags, canon);
            assert(seq![spec_canon(d, canon)] + (spec_events(b.skip(n), flags, canon)
                + spec_events(spec_residual(b.skip(n), flags) + ext, flags, canon)) =~= (seq![
                spec_canon(d, canon),
            ] + spec_events(b.skip(n), flags, canon)) + spec_events(
                spec_residual(b.skip(n), flags) + ext,
                flags,
                canon,
            ));
        },
        Peek::PeekAgain => {
            assert(spec_events(b, flags, canon) =~= Seq::<KeyDesc>::empty());
            assert(Seq::<KeyDesc>::empty() + spec_events(b + ext, flags, canon) =~= spec_events(
                b + ext,
                flags,
                canon,
            ));
        },
        Peek::PeekNone => {
            assert(b.len() == 0);
            assert(b + ext =~= ext);
            assert(spec_residual(b, flags) + ext =~= ext);
            assert(spec_events(b, flags, canon) =~= Seq::<KeyDesc>::empty());
            assert(Seq::<KeyDesc>::empty() + spec_events(ext, flags, canon) =~= spec_events(
                ext,
                flags,
                canon,
            ));
        },
    }
}

} // verus!

verus! {

/// The code point of the first character encoded in a `Utf8Char`'s
/// bytes; malformed bytes give the replacement character.
pub open spec fn utf8char_code(b: Seq<u8>) -> u32 {
    if b.len() == 0 {
        0xFFFD
    } else if b[0] < 0x80 {
        b[0] as u32
    } else if b[0] < 0xC2 || b[0] > 0xF4 {
        0xFFFD
    } else {
        let n: int = if b[0] < 0xE0 {
            2
        } else if b[0] < 0xF0 {
            3
        } else {
            4
        };
        if b.len() < n {
            0xFFFD
        } else if first_bad_cont(b, 1, n) < n {
            0xFFFD
        } else {
            let v = utf8_value(b, n);
            if v < utf8_min(n) || (0xD800 <= v && v < 0xE000) || v > 0x10FFFF {
                0xFFFD
            } else {
                v as u32
            }
        }
    }
}

impl crate::event::Utf8Char {
    /// The first character encoded in the bytes, as a one-character
    /// string; malformed bytes give the replacement character.
    pub fn s(&self) -> (r: String)
        ensures
            r@.len() == 1,
            r@[0] as u32 == utf8char_code(self.bytes@),
    {
        proof {
            broadcast use vstd::array::group_array_axioms;
        }
        let b0 = self.bytes[0];
        let code: u32 = if b0 < 0x80 {
            b0 as u32
        } else if b0 < 0xC2 || b0 > 0xF4 {
            0xFFFD
        } else {
            let n: usize = if b0 < 0xE0 {
                2
            } else if b0 < 0xF0 {
                3
            } else {
                4
            };
            let mut j: usize = 1;
            let mut bad = false;
            while j < n
                invariant
                    1 <= j <= n <= 4,
                    self.bytes@.len() == 7,
                    !bad ==> first_bad_cont(self.bytes@, 1, n as int) == first_bad_cont(
                        self.bytes@,
                        j as int,
                        n as int,
                    ),
                    bad ==> first_bad_cont(self.bytes@, 1, n as int) < n,
                decreases n - j,
            {
                let c = self.bytes[j];
                if !(0x80 <= c && c < 0xC0) {
                    proof {
                        if !bad {
                            assert(first_bad_cont(self.bytes@, j as int, n as int) == j);
                        }
                    }
                    bad = true;
                }
                proof {
                    if !bad {
                        assert(first_bad_cont(self.bytes@, j as int, n as int) == first_bad_cont(
                            self.bytes@,
                            j + 1,
                            n as int,
                        ));
                    }
                }
                j += 1;
            }
            if bad {
                0xFFFD
            } else {
                proof {
                    assert(first_bad_cont(self.bytes@, n as int, n as int) == n);
                    lemma_fbc_char(self.bytes@, 1, n as int);
                }
                let v: u32 = if n == 2 {
                    (b0 as u32 - 0xC0) * 0x40 + (self.bytes[1] as u32 - 0x80)
                } else if n == 3 {
                    (b0 as u32 - 0xE0) * 0x1000 + (self.bytes[1] as u32 - 0x80) * 0x40
                        + (self.bytes[2] as u32 - 0x80)
                } else {
                    (b0 as u32 - 0xF0) * 0x40000 + (self.bytes[1] as u32 - 0x80) * 0x1000
                        + (self.bytes[2] as u32 - 0x80) * 0x40 + (self.bytes[3] as u32 - 0x80)
                };
                proof {
                    assert(v == utf8_value(self.bytes@, n as int));
                }
                let min: u32 = if n == 2 {
                    0x80
                } else if n == 3 {
                    0x800
                } else {
                    0x10000
                };
                if v < min || (0xD800 <= v && v < 0xE000) || v > 0x10FFFF {
                    0xFFFD
                } else {
                    v
                }
            }
        };
        assert(code == utf8char_code(self.bytes@));
        let c: char = match crate::chars::char_from_u32(code) {
            Some(c) => c,
            None => ' ',
        };
        let mut out = String::new();
        crate::chars::push_char(&mut out, c);
        proof {
            assert(out@ =~= Seq::<char>::empty().push(c));
        }
        out
    }
}

} // verus!
