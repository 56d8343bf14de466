//! Rendering an event as a human-readable key name.
//!
//! `spec_format` is the model: it says, character for character, what
//! string an event renders to under a set of format flags.  The
//! executable formatter is proved equal to it, and the parser is its
//! left inverse.

use vstd::prelude::*;

use crate::chars::push_char;
use crate::event::TermKeyEvent;
use crate::event::TermKeyMouseEvent;
use crate::flags::TermKeyFormat;
use crate::flags::MOD_ALT;
use crate::flags::MOD_CTRL;
use crate::flags::MOD_SHIFT;
use crate::keysym::TermKeySym;

verus! {

/// Whether `c` is an ASCII upper-case letter.
pub open spec fn is_upper(c: char) -> bool {
    'A' <= c <= 'Z'
}

/// Whether `c` is an ASCII lower-case letter.
pub open spec fn is_lower(c: char) -> bool {
    'a' <= c <= 'z'
}

/// The lower-case form of an ASCII letter; other characters are kept.
pub open spec fn lower_char(c: char) -> char {
    if c == 'A' {
        'a'
    } else    if c == 'B' {
        'b'
    } else    if c == 'C' {
        'c'
    } else    if c == 'D' {
        'd'
    } else    if c == 'E' {
        'e'
    } else    if c == 'F' {
        'f'
    } else    if c == 'G' {
        'g'
    } else    if c == 'H' {
        'h'
    } else    if c == 'I' {
        'i'
    } else    if c == 'J' {
        'j'
    } else    if c == 'K' {
        'k'
    } else    if c == 'L' {
        'l'
    } else    if c == 'M' {
        'm'
    } else    if c == 'N' {
        'n'
    } else    if c == 'O' {
        'o'
    } else    if c == 'P' {
        'p'
    } else    if c == 'Q' {
        'q'
    } else    if c == 'R' {
        'r'
    } else    if c == 'S' {
        's'
    } else    if c == 'T' {
        't'
    } else    if c == 'U' {
        'u'
    } else    if c == 'V' {
        'v'
    } else    if c == 'W' {
        'w'
    } else    if c == 'X' {
        'x'
    } else    if c == 'Y' {
        'y'
    } else    if c == 'Z' {
        'z'
    } else {
        c
    }
}

/// The upper-case form of an ASCII letter; other characters are kept.
pub open spec fn upper_char(c: char) -> char {
    if c == 'a' {
        'A'
    } else    if c == 'b' {
        'B'
    } else    if c == 'c' {
        'C'
    } else    if c == 'd' {
        'D'
    } else    if c == 'e' {
        'E'
    } else    if c == 'f' {
        'F'
    } else    if c == 'g' {
        'G'
    } else    if c == 'h' {
        'H'
    } else    if c == 'i' {
        'I'
    } else    if c == 'j' {
        'J'
    } else    if c == 'k' {
        'K'
    } else    if c == 'l' {
        'L'
    } else    if c == 'm' {
        'M'
    } else    if c == 'n' {
        'N'
    } else    if c == 'o' {
        'O'
    } else    if c == 'p' {
        'P'
    } else    if c == 'q' {
        'Q'
    } else    if c == 'r' {
        'R'
    } else    if c == 's' {
        'S'
    } else    if c == 't' {
        'T'
    } else    if c == 'u' {
        'U'
    } else    if c == 'v' {
        'V'
    } else    if c == 'w' {
        'W'
    } else    if c == 'x' {
        'X'
    } else    if c == 'y' {
        'Y'
    } else    if c == 'z' {
        'Z'
    } else {
        c
    }
}

/// The separator between a modifier name and what follows it.
pub open spec fn spec_sep(fmt: TermKeyFormat) -> char {
    if fmt.spec_spacemod() {
        ' '
    } else {
        '-'
    }
}

/// The name of the Ctrl modifier under the given flags.
pub open spec fn spec_ctrl_name(fmt: TermKeyFormat) -> Seq<char> {
    if fmt.spec_longmod() {
        if fmt.spec_lowermod() {
            "ctrl"@
        } else {
            "Ctrl"@
        }
    } else {
        if fmt.spec_lowermod() {
            "c"@
        } else {
            "C"@
        }
    }
}

/// The name of the Alt modifier under the given flags.
pub open spec fn spec_alt_name(fmt: TermKeyFormat) -> Seq<char> {
    if fmt.spec_altismeta() {
        if fmt.spec_longmod() {
            if fmt.spec_lowermod() {
                "meta"@
            } else {
                "Meta"@
            }
        } else {
            if fmt.spec_lowermod() {
                "m"@
            } else {
                "M"@
            }
        }
    } else {
        if fmt.spec_longmod() {
            if fmt.spec_lowermod() {
                "alt"@
            } else {
                "Alt"@
            }
        } else {
            if fmt.spec_lowermod() {
                "a"@
            } else {
                "A"@
            }
        }
    }
}

/// The name of the Shift modifier under the given flags.
pub open spec fn spec_shift_name(fmt: TermKeyFormat) -> Seq<char> {
    if fmt.spec_longmod() {
        if fmt.spec_lowermod() {
            "shift"@
        } else {
            "Shift"@
        }
    } else {
        if fmt.spec_lowermod() {
            "s"@
        } else {
            "S"@
        }
    }
}

/// The rendered modifier prefix: Ctrl, then Alt, then Shift, each
/// followed by the separator.  The order is fixed.
pub open spec fn spec_mods_prefix(bits: u16, fmt: TermKeyFormat) -> Seq<char> {
    (if bits & MOD_CTRL != 0 {
        spec_ctrl_name(fmt) + seq![spec_sep(fmt)]
    } else {
        Seq::<char>::empty()
    }) + (if bits & MOD_ALT != 0 {
        spec_alt_name(fmt) + seq![spec_sep(fmt)]
    } else {
        Seq::<char>::empty()
    }) + (if bits & MOD_SHIFT != 0 {
        spec_shift_name(fmt) + seq![spec_sep(fmt)]
    } else {
        Seq::<char>::empty()
    })
}

/// The decimal digit character for `d`.
pub open spec fn spec_digit_char(d: int) -> char {
    if d == 0 {
        '0'
    } else if d == 1 {
        '1'
    } else if d == 2 {
        '2'
    } else if d == 3 {
        '3'
    } else if d == 4 {
        '4'
    } else if d == 5 {
        '5'
    } else if d == 6 {
        '6'
    } else if d == 7 {
        '7'
    } else if d == 8 {
        '8'
    } else {
        '9'
    }
}

/// The decimal rendering of an integer.
pub open spec fn spec_decimal(n: int) -> Seq<char>
    decreases
            (if n < 0 {
                1 - n
            } else {
                n
            }),
{
    if n < 0 {
        seq!['-'] + spec_decimal(-n)
    } else if n < 10 {
        seq![spec_digit_char(n)]
    } else {
        spec_decimal(n / 10) + seq![spec_digit_char(n % 10)]
    }
}

/// A key name lowered with a space before each inner word: `PageUp`
/// becomes `page up`.
pub open spec fn spec_camel(t: Seq<char>) -> Seq<char>
    decreases t.len(),
{
    if t.len() == 0 {
        Seq::<char>::empty()
    } else {
        spec_camel(t.take(t.len() - 1)) + (if is_upper(t[t.len() - 1]) && t.len() > 1 {
            seq![' ', lower_char(t[t.len() - 1])]
        } else {
            seq![lower_char(t[t.len() - 1])]
        })
    }
}

/// The display form of a symbol's name under the given flags.
pub open spec fn spec_display_name(sym: TermKeySym, fmt: TermKeyFormat) -> Seq<char> {
    if fmt.spec_lowerspace() {
        spec_camel(sym.spec_name())
    } else {
        sym.spec_name()
    }
}

/// The name of a mouse event kind.
pub open spec fn spec_mouse_ev_name(ev: TermKeyMouseEvent) -> Seq<char> {
    match ev {
        TermKeyMouseEvent::TERMKEY_MOUSE_UNKNOWN => "MouseUnknown"@,
        TermKeyMouseEvent::TERMKEY_MOUSE_PRESS => "MousePress"@,
        TermKeyMouseEvent::TERMKEY_MOUSE_DRAG => "MouseDrag"@,
        TermKeyMouseEvent::TERMKEY_MOUSE_RELEASE => "MouseRelease"@,
    }
}

/// Whether caret notation applies: the caret flag is set, Ctrl is
/// held, and the code point is an ASCII lower-case letter.
pub open spec fn caret_applies(e: TermKeyEvent, fmt: TermKeyFormat) -> bool {
    &&& fmt.spec_caretctrl()
    &&& e matches TermKeyEvent::UnicodeEvent { codepoint, mods, .. }
    &&& mods.bits & MOD_CTRL != 0
    &&& is_lower(codepoint)
}

/// The rendering of an event under the given format flags, before
/// bracket wrapping.
pub open spec fn spec_format_core(e: TermKeyEvent, fmt: TermKeyFormat) -> Seq<char> {
    match e {
        TermKeyEvent::UnicodeEvent { codepoint, mods, .. } => {
            if caret_applies(e, fmt) {
                spec_mods_prefix(mods.bits & !MOD_CTRL, fmt) + seq!['^', upper_char(codepoint)]
            } else {
                spec_mods_prefix(mods.bits, fmt) + seq![codepoint]
            }
        },
        TermKeyEvent::FunctionEvent { num, mods } => spec_mods_prefix(mods.bits, fmt) + seq![
            if fmt.spec_lowerspace() {
                'f'
            } else {
                'F'
            },
        ] + spec_decimal(num as int),
        TermKeyEvent::KeySymEvent { sym, mods } => spec_mods_prefix(mods.bits, fmt)
            + spec_display_name(sym, fmt),
        TermKeyEvent::MouseEvent { ev, mods, button, line, col } => spec_mods_prefix(mods.bits, fmt)
            + spec_mouse_ev_name(ev) + seq!['('] + spec_decimal(button as int) + seq![')'] + (
        if fmt.spec_mouse_pos() {
            " @ ("@ + spec_decimal(col as int) + seq![','] + spec_decimal(line as int) + seq![')']
        } else {
            Seq::<char>::empty()
        }),
        _ => Seq::<char>::empty(),
    }
}

/// Whether the rendering is wrapped in angle brackets: only under the
/// wrap flag, and only for special keys, that is everything except an
/// unmodified Unicode key.
pub open spec fn spec_wraps(e: TermKeyEvent, fmt: TermKeyFormat) -> bool {
    &&& fmt.spec_wrapbracket()
    &&& !(e matches TermKeyEvent::UnicodeEvent { mods, .. } && mods.bits == 0)
    &&& !(e is PositionEvent) && !(e is ModeReportEvent) && !(e is UnknownCsiEvent)
}

/// The full rendering of an event under the given format flags.
/// Position reports, mode reports and unrecognized escape sequences
/// render as the empty string.
pub open spec fn spec_format(e: TermKeyEvent, fmt: TermKeyFormat) -> Seq<char> {
    if spec_wraps(e, fmt) {
        seq!['<'] + spec_format_core(e, fmt) + seq!['>']
    } else {
        spec_format_core(e, fmt)
    }
}

/// The lower-case form of an ASCII letter.
pub fn lower_char_x(c: char) -> (r: char)
    ensures
        r == lower_char(c),
{
    if c == 'A' {
        'a'
    } else    if c == 'B' {
        'b'
    } else    if c == 'C' {
        'c'
    } else    if c == 'D' {
        'd'
    } else    if c == 'E' {
        'e'
    } else    if c == 'F' {
        'f'
    } else    if c == 'G' {
        'g'
    } else    if c == 'H' {
        'h'
    } else    if c == 'I' {
        'i'
    } else    if c == 'J' {
        'j'
    } else    if c == 'K' {
        'k'
    } else    if c == 'L' {
        'l'
    } else    if c == 'M' {
        'm'
    } else    if c == 'N' {
        'n'
    } else    if c == 'O' {
        'o'
    } else    if c == 'P' {
        'p'
    } else    if c == 'Q' {
        'q'
    } else    if c == 'R' {
        'r'
    } else    if c == 'S' {
        's'
    } else    if c == 'T' {
        't'
    } else    if c == 'U' {
        'u'
    } else    if c == 'V' {
        'v'
    } else    if c == 'W' {
        'w'
    } else    if c == 'X' {
        'x'
    } else    if c == 'Y' {
        'y'
    } else    if c == 'Z' {
        'z'
    } else {
        c
    }
}

/// The upper-case form of an ASCII letter.
pub fn upper_char_x(c: char) -> (r: char)
    ensures
        r == upper_char(c),
{
    if c == 'a' {
        'A'
    } else    if c == 'b' {
        'B'
    } else    if c == 'c' {
        'C'
    } else    if c == 'd' {
        'D'
    } else    if c == 'e' {
        'E'
    } else    if c == 'f' {
        'F'
    } else    if c == 'g' {
        'G'
    } else    if c == 'h' {
        'H'
    } else    if c == 'i' {
        'I'
    } else    if c == 'j' {
        'J'
    } else    if c == 'k' {
        'K'
    } else    if c == 'l' {
        'L'
    } else    if c == 'm' {
        'M'
    } else    if c == 'n' {
        'N'
    } else    if c == 'o' {
        'O'
    } else    if c == 'p' {
        'P'
    } else    if c == 'q' {
        'Q'
    } else    if c == 'r' {
        'R'
    } else    if c == 's' {
        'S'
    } else    if c == 't' {
        'T'
    } else    if c == 'u' {
        'U'
    } else    if c == 'v' {
        'V'
    } else    if c == 'w' {
        'W'
    } else    if c == 'x' {
        'X'
    } else    if c == 'y' {
        'Y'
    } else    if c == 'z' {
        'Z'
    } else {
        c
    }
}

/// Appends the decimal digit character for `d`.
fn push_digit(s: &mut String, d: u32)
    requires
        d < 10,
    ensures
        final(s)@ == old(s)@.push(spec_digit_char(d as int)),
{
    let c: char = if d == 0 {
        '0'
    } else if d == 1 {
        '1'
    } else if d == 2 {
        '2'
    } else if d == 3 {
        '3'
    } else if d == 4 {
        '4'
    } else if d == 5 {
        '5'
    } else if d == 6 {
        '6'
    } else if d == 7 {
        '7'
    } else if d == 8 {
        '8'
    } else {
        '9'
    };
    push_char(s, c);
}

/// Appends the decimal rendering of `n`.
fn push_udecimal(s: &mut String, n: u32)
    ensures
        final(s)@ == old(s)@ + spec_decimal(n as int),
    decreases n,
{
    if n < 10 {
        push_digit(s, n);
        proof {
            assert(old(s)@.push(spec_digit_char(n as int)) =~= old(s)@ + spec_decimal(n as int));
        }
    } else {
        push_udecimal(s, n / 10);
        push_digit(s, n % 10);
        proof {
            assert((old(s)@ + spec_decimal(n as int / 10)).push(spec_digit_char(n as int % 10))
                =~= old(s)@ + spec_decimal(n as int));
        }
    }
}

/// Appends the decimal rendering of `n`, sign included.
fn push_decimal(s: &mut String, n: i32)
    ensures
        final(s)@ == old(s)@ + spec_decimal(n as int),
{
    if n >= 0 {
        push_udecimal(s, n as u32);
        proof {
            assert(n as u32 as int == n as int);
        }
    } else {
        push_char(s, '-');
        let m: u32 = (-(n as i64)) as u32;
        proof {
            assert(m as int == -(n as int));
        }
        push_udecimal(s, m);
        proof {
            assert(old(s)@.push('-') + spec_decimal(m as int) =~= old(s)@ + spec_decimal(
                n as int,
            ));
        }
    }
}

/// The name of the Ctrl modifier under the given flags.
pub fn ctrl_name_str(fmt: TermKeyFormat) -> (r: &'static str)
    ensures
        r@ == spec_ctrl_name(fmt),
{
    if fmt.bits & crate::flags::FORMAT_LONGMOD != 0 {
        if fmt.bits & crate::flags::FORMAT_LOWERMOD != 0 {
            "ctrl"
        } else {
            "Ctrl"
        }
    } else {
        if fmt.bits & crate::flags::FORMAT_LOWERMOD != 0 {
            "c"
        } else {
            "C"
        }
    }
}

/// The name of the Alt modifier under the given flags.
pub fn alt_name_str(fmt: TermKeyFormat) -> (r: &'static str)
    ensures
        r@ == spec_alt_name(fmt),
{
    if fmt.bits & crate::flags::FORMAT_ALTISMETA != 0 {
        if fmt.bits & crate::flags::FORMAT_LONGMOD != 0 {
            if fmt.bits & crate::flags::FORMAT_LOWERMOD != 0 {
                "meta"
            } else {
                "Meta"
            }
        } else {
            if fmt.bits & crate::flags::FORMAT_LOWERMOD != 0 {
                "m"
            } else {
                "M"
            }
        }
    } else {
        if fmt.bits & crate::flags::FORMAT_LONGMOD != 0 {
            if fmt.bits & crate::flags::FORMAT_LOWERMOD != 0 {
                "alt"
            } else {
                "Alt"
            }
        } else {
            if fmt.bits & crate::flags::FORMAT_LOWERMOD != 0 {
                "a"
            } else {
                "A"
            }
        }
    }
}

/// The name of the Shift modifier under the given flags.
pub fn shift_name_str(fmt: TermKeyFormat) -> (r: &'static str)
    ensures
        r@ == spec_shift_name(fmt),
{
    if fmt.bits & crate::flags::FORMAT_LONGMOD != 0 {
        if fmt.bits & crate::flags::FORMAT_LOWERMOD != 0 {
            "shift"
        } else {
            "Shift"
        }
    } else {
        if fmt.bits & crate::flags::FORMAT_LOWERMOD != 0 {
            "s"
        } else {
            "S"
        }
    }
}

/// The separator between a modifier name and what follows it.
pub fn sep_char(fmt: TermKeyFormat) -> (r: char)
    ensures
        r == spec_sep(fmt),
{
    if fmt.bits & crate::flags::FORMAT_SPACEMOD != 0 {
        ' '
    } else {
        '-'
    }
}

/// Appends the modifier prefix in the fixed order Ctrl, Alt, Shift.
fn push_mods_prefix(s: &mut String, bits: u16, fmt: TermKeyFormat)
    ensures
        final(s)@ == old(s)@ + spec_mods_prefix(bits, fmt),
{
    let sep = sep_char(fmt);
    let ghost at_start = s@;
    if bits & MOD_CTRL != 0 {
        s.append(ctrl_name_str(fmt));
        push_char(s, sep);
    }
    let ghost after_ctrl = s@;
    if bits & MOD_ALT != 0 {
        s.append(alt_name_str(fmt));
        push_char(s, sep);
    }
    let ghost after_alt = s@;
    if bits & MOD_SHIFT != 0 {
        s.append(shift_name_str(fmt));
        push_char(s, sep);
    }
    proof {
        assert(final(s)@ =~= at_start + spec_mods_prefix(bits, fmt));
    }
}

/// The display form of a symbol's name: lowered with spaces at word
/// breaks when the lower-space flag is set.
pub fn display_name_string(sym: TermKeySym, fmt: TermKeyFormat) -> (r: String)
    ensures
        r@ == spec_display_name(sym, fmt),
{
    let name = crate::keysym::keyname_str(sym);
    if fmt.bits & crate::flags::FORMAT_LOWERSPACE != 0 {
        camel_to_spaces(name)
    } else {
        String::from_str(name)
    }
}

/// Lowers a name and inserts a space before each inner upper-case
/// letter.
pub fn camel_to_spaces(name: &str) -> (r: String)
    ensures
        r@ == spec_camel(name@),
{
    let mut out = String::new();
    let len = name.unicode_len();
    let mut i: usize = 0;
    while i < len
        invariant
            i <= len,
            len == name@.len(),
            out@ == spec_camel(name@.take(i as int)),
        decreases len - i,
    {
        let c = name.get_char(i);
        let lc = lower_char_x(c);
        if ('A' <= c && c <= 'Z') && i > 0 {
            push_char(&mut out, ' ');
            push_char(&mut out, lc);
        } else {
            push_char(&mut out, lc);
        }
        proof {
            let pre = name@.take(i as int);
            let post = name@.take(i + 1 as int);
            assert(post.take(post.len() - 1) =~= pre);
            assert(post[post.len() - 1] == name@[i as int]);
            assert(out@ =~= spec_camel(post));
        }
        i += 1;
    }
    proof {
        assert(name@.take(len as int) =~= name@);
    }
    out
}

/// Renders an event as a string under the given format flags, exactly
/// as the model `spec_format` says.
pub fn format_event(key: &TermKeyEvent, fmt: TermKeyFormat) -> (r: String)
    ensures
        r@ == spec_format(*key, fmt),
{
    let mut core = String::new();
    let wraps: bool;
    match key {
        TermKeyEvent::UnicodeEvent { codepoint, mods, .. } => {
            wraps = (fmt.bits & crate::flags::FORMAT_WRAPBRACKET != 0) && mods.bits != 0;
            let caret = (fmt.bits & crate::flags::FORMAT_CARETCTRL != 0) && (mods.bits & MOD_CTRL
                != 0) && ('a' <= *codepoint && *codepoint <= 'z');
            if caret {
                push_mods_prefix(&mut core, mods.bits & !MOD_CTRL, fmt);
                push_char(&mut core, '^');
                push_char(&mut core, upper_char_x(*codepoint));
                proof {
                    assert(core@ =~= spec_format_core(*key, fmt));
                }
            } else {
                push_mods_prefix(&mut core, mods.bits, fmt);
                push_char(&mut core, *codepoint);
                proof {
                    assert(core@ =~= spec_format_core(*key, fmt));
                }
            }
        },
        TermKeyEvent::FunctionEvent { num, mods } => {
            wraps = fmt.bits & crate::flags::FORMAT_WRAPBRACKET != 0;
            push_mods_prefix(&mut core, mods.bits, fmt);
            if fmt.bits & crate::flags::FORMAT_LOWERSPACE != 0 {
                push_char(&mut core, 'f');
            } else {
                push_char(&mut core, 'F');
            }
            push_decimal(&mut core, *num);
            proof {
                assert(core@ =~= spec_format_core(*key, fmt));
            }
        },
        TermKeyEvent::KeySymEvent { sym, mods } => {
            wraps = fmt.bits & crate::flags::FORMAT_WRAPBRACKET != 0;
            push_mods_prefix(&mut core, mods.bits, fmt);
            let dn = display_name_string(*sym, fmt);
            core.append(dn.as_str());
            proof {
                assert(core@ =~= spec_format_core(*key, fmt));
            }
        },
        TermKeyEvent::MouseEvent { ev, mods, button, line, col } => {
            wraps = fmt.bits & crate::flags::FORMAT_WRAPBRACKET != 0;
            push_mods_prefix(&mut core, mods.bits, fmt);
            match ev {
                TermKeyMouseEvent::TERMKEY_MOUSE_UNKNOWN => core.append("MouseUnknown"),
                TermKeyMouseEvent::TERMKEY_MOUSE_PRESS => core.append("MousePress"),
                TermKeyMouseEvent::TERMKEY_MOUSE_DRAG => core.append("MouseDrag"),
                TermKeyMouseEvent::TERMKEY_MOUSE_RELEASE => core.append("MouseRelease"),
            }
            push_char(&mut core, '(');
            push_decimal(&mut core, *button);
            push_char(&mut core, ')');
            if fmt.bits & crate::flags::FORMAT_MOUSE_POS != 0 {
                core.append(" @ (");
                push_decimal(&mut core, *col);
                push_char(&mut core, ',');
                push_decimal(&mut core, *line);
                push_char(&mut core, ')');
            }
            proof {
                assert(core@ =~= spec_format_core(*key, fmt));
            }
        },
        _ => {
            wraps = false;
            proof {
                assert(core@ =~= spec_format_core(*key, fmt));
            }
        },
    }
    if wraps {
        let mut out = String::from_str("<");
        out.append(core.as_str());
        out.append(">");
        proof {
            reveal_strlit("<");
            reveal_strlit(">");
            assert(out@ =~= spec_format(*key, fmt));
        }
        out
    } else {
        proof {
            assert(core@ =~= spec_format(*key, fmt));
        }
        core
    }
}

} // verus!

verus! {

impl crate::session::TermKey {
    /// Renders an event as a string under the given format flags,
    /// exactly as the model `spec_format` says.
    pub fn strfkey(&mut self, key: TermKeyEvent, format: TermKeyFormat) -> (r: String)
        ensures
            *final(self) == *old(self),
            r@ == spec_format(key, format),
    {
        format_event(&key, format)
    }
}

} // verus!
