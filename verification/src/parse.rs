//! Parsing a human-readable key name back into an event.
//!
//! `spec_parse` is the model: it strips modifier tokens in the exact
//! spellings the formatter uses, then the longest matching key name, a
//! function-key number, or a single character, and reports how many
//! characters were consumed.  The remainder of the string is handed
//! back to the caller.

use vstd::prelude::*;

use crate::event::KeyDesc;
use crate::flags::TermKeyFormat;
use crate::flags::MOD_ALT;
use crate::flags::MOD_CTRL;
use crate::flags::MOD_SHIFT;
use crate::format::is_upper;
use crate::format::lower_char;
use crate::format::spec_alt_name;
use crate::format::spec_ctrl_name;
use crate::format::spec_display_name;
use crate::format::spec_sep;
use crate::format::spec_shift_name;
use crate::keysym::spec_sym_at;
use crate::keysym::sym_at;
use crate::keysym::TermKeySym;
use crate::keysym::SYM_COUNT;

verus! {

/// Whether `c` is a decimal digit character.
pub open spec fn is_digit_char(c: char) -> bool {
    '0' <= c <= '9'
}

/// The value of a decimal digit character.
pub open spec fn digit_val(c: char) -> int {
    if c == '0' {
        0
    } else if c == '1' {
        1
    } else if c == '2' {
        2
    } else if c == '3' {
        3
    } else if c == '4' {
        4
    } else if c == '5' {
        5
    } else if c == '6' {
        6
    } else if c == '7' {
        7
    } else if c == '8' {
        8
    } else {
        9
    }
}

/// The index of the first non-digit character at or after `i`, or
/// `s.len()`.
pub open spec fn digit_run(s: Seq<char>, i: int) -> int
    decreases s.len() - i,
{
    if i < 0 || i >= s.len() {
        s.len() as int
    } else if !is_digit_char(s[i]) {
        i
    } else {
        digit_run(s, i + 1)
    }
}

/// The value of a run of decimal digit characters, saturating at
/// `i32::MAX`.
pub open spec fn dec_val_chars(s: Seq<char>) -> i32
    decreases s.len(),
{
    if s.len() == 0 {
        0
    } else {
        let p = dec_val_chars(s.take(s.len() - 1));
        let v = p * 10 + digit_val(s[s.len() - 1]);
        if v > 0x7FFFFFFF {
            0x7FFFFFFF
        } else {
            v as i32
        }
    }
}

/// The modifier bits and consumed length of the leading run of
/// modifier tokens: each token is a modifier name in the exact
/// spelling the format flags select, followed by the separator.
pub open spec fn spec_parse_mods(s: Seq<char>, fmt: TermKeyFormat) -> (u16, int)
    decreases s.len(),
{
    let ct = spec_ctrl_name(fmt) + seq![spec_sep(fmt)];
    let at = spec_alt_name(fmt) + seq![spec_sep(fmt)];
    let st = spec_shift_name(fmt) + seq![spec_sep(fmt)];
    if ct.is_prefix_of(s) {
        let r = spec_parse_mods(s.skip(ct.len() as int), fmt);
        ((r.0 | MOD_CTRL), r.1 + ct.len())
    } else if at.is_prefix_of(s) {
        let r = spec_parse_mods(s.skip(at.len() as int), fmt);
        ((r.0 | MOD_ALT), r.1 + at.len())
    } else if st.is_prefix_of(s) {
        let r = spec_parse_mods(s.skip(st.len() as int), fmt);
        ((r.0 | MOD_SHIFT), r.1 + st.len())
    } else {
        (0u16, 0int)
    }
}

/// The greedy longest-prefix lookup over the key name table from
/// position `i` on: the longest display name that is a prefix of `s`,
/// the earliest table entry winning ties.  The two sentinels take no
/// part.
pub open spec fn spec_lookup_from(s: Seq<char>, fmt: TermKeyFormat, i: int) -> Option<
    (TermKeySym, int),
>
    decreases SYM_COUNT - i,
{
    if i < 2 || i >= SYM_COUNT {
        None
    } else {
        let rest = spec_lookup_from(s, fmt, i + 1);
        let nm = spec_display_name(spec_sym_at(i), fmt);
        if nm.len() >= 1 && nm.is_prefix_of(s) {
            match rest {
                None => Some((spec_sym_at(i), nm.len() as int)),
                Some((rs, rl)) => {
                    if nm.len() >= rl {
                        Some((spec_sym_at(i), nm.len() as int))
                    } else {
                        rest
                    }
                },
            }
        } else {
            rest
        }
    }
}

/// The greedy longest-prefix lookup over the whole key name table.
pub open spec fn spec_lookup(s: Seq<char>, fmt: TermKeyFormat) -> Option<(TermKeySym, int)> {
    spec_lookup_from(s, fmt, 2)
}

/// The first table symbol whose name is exactly `name`, or the
/// `UNKNOWN` sentinel.
pub open spec fn spec_keyname2sym_from(name: Seq<char>, i: int) -> TermKeySym
    decreases SYM_COUNT - i,
{
    if i < 2 || i >= SYM_COUNT {
        TermKeySym::TERMKEY_SYM_UNKNOWN
    } else if spec_sym_at(i).spec_name() == name {
        spec_sym_at(i)
    } else {
        spec_keyname2sym_from(name, i + 1)
    }
}

/// The symbol a key name denotes, or the `UNKNOWN` sentinel.
pub open spec fn spec_keyname2sym(name: Seq<char>) -> TermKeySym {
    spec_keyname2sym_from(name, 2)
}

/// The base key at the head of `s`: caret notation, a symbolic key
/// name, `F` with a number, or a single character.
pub open spec fn spec_parse_base(s: Seq<char>, fmt: TermKeyFormat) -> Option<(KeyDesc, int)> {
    if s.len() == 0 {
        None
    } else if fmt.spec_caretctrl() && s.len() >= 2 && s[0] == '^' && is_upper(s[1]) {
        Some((KeyDesc::DescUnicode { cp: lower_char(s[1]) as u32, mods: MOD_CTRL }, 2))
    } else {
        match spec_lookup(s, fmt) {
            Some((sym, n)) => Some((KeyDesc::DescKeySym { sym, mods: 0 }, n)),
            None => {
                let fc = if fmt.spec_lowerspace() {
                    'f'
                } else {
                    'F'
                };
                if s[0] == fc && s.len() >= 2 && is_digit_char(s[1]) {
                    let e = digit_run(s, 1);
                    Some(
                        (
                            KeyDesc::DescFunction {
                                num: dec_val_chars(s.subrange(1, e)),
                                mods: 0,
                            },
                            e,
                        ),
                    )
                } else {
                    Some((KeyDesc::DescUnicode { cp: s[0] as u32, mods: 0 }, 1))
                }
            },
        }
    }
}

/// The description with the given modifier bits added.
pub open spec fn with_mods(d: KeyDesc, bits: u16) -> KeyDesc {
    match d {
        KeyDesc::DescUnicode { cp, mods } => KeyDesc::DescUnicode { cp, mods: mods | bits },
        KeyDesc::DescFunction { num, mods } => KeyDesc::DescFunction { num, mods: mods | bits },
        KeyDesc::DescKeySym { sym, mods } => KeyDesc::DescKeySym { sym, mods: mods | bits },
        _ => d,
    }
}

/// The key at the head of `s` without bracket handling: modifier
/// tokens first, then the base key.  `None` means the head of the
/// string is not a key.
pub open spec fn spec_parse_plain(s: Seq<char>, fmt: TermKeyFormat) -> Option<(KeyDesc, int)> {
    let m = spec_parse_mods(s, fmt);
    if 0 <= m.1 <= s.len() {
        match spec_parse_base(s.skip(m.1), fmt) {
            Some((d, n)) => Some((with_mods(d, m.0), m.1 + n)),
            None => None,
        }
    } else {
        None
    }
}

/// The key at the head of `s` under the given format flags, before
/// canonicalization, together with how many characters it takes.
/// Under the wrap-bracket flag a key wrapped in angle brackets is
/// unwrapped; anything else falls back to the plain reading.  `None`
/// means the head of the string is not a key.
pub open spec fn spec_parse(s: Seq<char>, fmt: TermKeyFormat) -> Option<(KeyDesc, int)> {
    if fmt.spec_wrapbracket() && s.len() >= 1 && s[0] == '<' {
        match spec_parse_plain(s.skip(1), fmt) {
            Some((d, n)) => {
                if 1 + n < s.len() && s[1 + n] == '>' {
                    Some((d, n + 2))
                } else {
                    spec_parse_plain(s, fmt)
                }
            },
            None => spec_parse_plain(s, fmt),
        }
    } else {
        spec_parse_plain(s, fmt)
    }
}

/// Whether `p` is a prefix of `s` from position `pos` on.
pub fn str_prefix_at(s: &str, pos: usize, p: &str) -> (b: bool)
    requires
        pos <= s@.len(),
    ensures
        b == p@.is_prefix_of(s@.skip(pos as int)),
{
    let slen = s.unicode_len();
    let plen = p.unicode_len();
    if slen - pos < plen {
        proof {
            assert(!p@.is_prefix_of(s@.skip(pos as int)));
        }
        return false;
    }
    let mut j: usize = 0;
    while j < plen
        invariant
            j <= plen,
            plen == p@.len(),
            slen == s@.len(),
            pos + plen <= slen,
            forall|i: int| 0 <= i < j ==> p@[i] == s@[pos + i],
        decreases plen - j,
    {
        let sc = s.get_char(pos + j);
        let pc = p.get_char(j);
        if sc != pc {
            proof {
                assert(s@.skip(pos as int)[j as int] == s@[pos + j]);
                assert(!p@.is_prefix_of(s@.skip(pos as int)));
            }
            return false;
        }
        j += 1;
    }
    proof {
        assert(p@ =~= s@.skip(pos as int).subrange(0, plen as int));
    }
    true
}

/// Whether two strings hold the same characters.
pub fn str_eq(a: &str, b: &str) -> (r: bool)
    ensures
        r == (a@ == b@),
{
    let alen = a.unicode_len();
    let blen = b.unicode_len();
    if alen != blen {
        return false;
    }
    let mut j: usize = 0;
    while j < alen
        invariant
            j <= alen,
            alen == a@.len(),
            alen == b@.len(),
            forall|i: int| 0 <= i < j ==> a@[i] == b@[i],
        decreases alen - j,
    {
        if a.get_char(j) != b.get_char(j) {
            return false;
        }
        j += 1;
    }
    proof {
        assert(a@ =~= b@);
    }
    true
}

/// The leading modifier tokens from position `pos` on.
fn parse_mods_at(s: &str, pos: usize, fmt: TermKeyFormat) -> (r: (u16, usize))
    requires
        pos <= s@.len(),
    ensures
        ({
            let m = spec_parse_mods(s@.skip(pos as int), fmt);
            r.0 == m.0 && r.1 as int == m.1 && pos + r.1 <= s@.len()
        }),
    decreases s@.len() - pos,
{
    let slen = s.unicode_len();
    proof {
        assert(s@.len() == slen);
    }
    let sep = crate::format::sep_char(fmt);
    let mut ct = String::from_str(crate::format::ctrl_name_str(fmt));
    crate::chars::push_char(&mut ct, sep);
    let mut at = String::from_str(crate::format::alt_name_str(fmt));
    crate::chars::push_char(&mut at, sep);
    let mut st = String::from_str(crate::format::shift_name_str(fmt));
    crate::chars::push_char(&mut st, sep);
    proof {
        assert(ct@ == spec_ctrl_name(fmt) + seq![spec_sep(fmt)]);
        assert(at@ == spec_alt_name(fmt) + seq![spec_sep(fmt)]);
        assert(st@ == spec_shift_name(fmt) + seq![spec_sep(fmt)]);
    }
    if str_prefix_at(s, pos, ct.as_str()) {
        let tl = ct.as_str().unicode_len();
        proof {
            assert(ct@.len() >= 1);
            assert(s@.skip(pos as int).skip(tl as int) =~= s@.skip(pos + tl));
        }
        let r = parse_mods_at(s, pos + tl, fmt);
        ((r.0 | MOD_CTRL), r.1 + tl)
    } else if str_prefix_at(s, pos, at.as_str()) {
        let tl = at.as_str().unicode_len();
        proof {
            assert(at@.len() >= 1);
            assert(s@.skip(pos as int).skip(tl as int) =~= s@.skip(pos + tl));
        }
        let r = parse_mods_at(s, pos + tl, fmt);
        ((r.0 | MOD_ALT), r.1 + tl)
    } else if str_prefix_at(s, pos, st.as_str()) {
        let tl = st.as_str().unicode_len();
        proof {
            assert(st@.len() >= 1);
            assert(s@.skip(pos as int).skip(tl as int) =~= s@.skip(pos + tl));
        }
        let r = parse_mods_at(s, pos + tl, fmt);
        ((r.0 | MOD_SHIFT), r.1 + tl)
    } else {
        (0, 0)
    }
}

/// The greedy longest-prefix lookup over the key name table, from
/// position `pos` on.
#[verifier::loop_isolation(false)]
pub fn lookup_sym_at(s: &str, pos: usize, fmt: TermKeyFormat) -> (r: Option<(TermKeySym, usize)>)
    requires
        pos <= s@.len(),
    ensures
        ({
            let m = spec_lookup(s@.skip(pos as int), fmt);
            match m {
                None => r is None,
                Some((sy, n)) => (r matches Some((rsy, rn)) && rsy == sy && rn as int == n && pos
                    + rn <= s@.len()),
            }
        }),
{
    let ghost tail = s@.skip(pos as int);
    let mut cur: Option<(TermKeySym, usize)> = None;
    let mut i: usize = SYM_COUNT;
    while i > 2
        invariant
            2 <= i <= SYM_COUNT,
            match spec_lookup_from(tail, fmt, i as int) {
                None => cur is None,
                Some((sy, n)) => (cur matches Some((cs, cn)) && cs == sy && cn as int == n && pos
                    + cn <= s@.len()),
            },
        decreases i,
    {
        i -= 1;
        let sym = sym_at(i);
        let nm = crate::format::display_name_string(sym, fmt);
        let nlen = nm.as_str().unicode_len();
        if nlen >= 1 && str_prefix_at(s, pos, nm.as_str()) {
            proof {
                assert(nm@.is_prefix_of(tail));
                assert(nm@.len() <= tail.len());
            }
            match cur {
                Some((_, cn)) => {
                    if nlen >= cn {
                        cur = Some((sym, nlen));
                    }
                },
                None => {
                    cur = Some((sym, nlen));
                },
            }
        }
    }
    cur
}

/// The first table symbol whose name is exactly `name`, or the
/// `UNKNOWN` sentinel.
#[verifier::loop_isolation(false)]
pub fn keyname2sym_exec(name: &str) -> (r: TermKeySym)
    ensures
        r == spec_keyname2sym(name@),
{
    let mut i: usize = 2;
    while i < SYM_COUNT
        invariant
            2 <= i <= SYM_COUNT,
            spec_keyname2sym(name@) == spec_keyname2sym_from(name@, i as int),
        decreases SYM_COUNT - i,
    {
        let sym = sym_at(i);
        let nm = crate::keysym::keyname_str(sym);
        if str_eq(nm, name) {
            return sym;
        }
        i += 1;
    }
    TermKeySym::TERMKEY_SYM_UNKNOWN
}

/// The value of the run of digits in `s[from..to]`, saturating at
/// `i32::MAX`.
#[verifier::loop_isolation(false)]
fn dec_val_at(s: &str, from: usize, to: usize) -> (r: i32)
    requires
        from <= to <= s@.len(),
        forall|j: int| from <= j < to ==> is_digit_char(#[trigger] s@[j]),
    ensures
        r == dec_val_chars(s@.subrange(from as int, to as int)),
{
    let mut cur: i32 = 0;
    let mut j: usize = from;
    while j < to
        invariant
            from <= j <= to,
            cur == dec_val_chars(s@.subrange(from as int, j as int)),
            cur >= 0,
        decreases to - j,
    {
        let c = s.get_char(j);
        proof {
            assert(is_digit_char(s@[j as int]));
        }
        let d: i32 = if c == '0' {
            0
        } else if c == '1' {
            1
        } else if c == '2' {
            2
        } else if c == '3' {
            3
        } else if c == '4' {
            4
        } else if c == '5' {
            5
        } else if c == '6' {
            6
        } else if c == '7' {
            7
        } else if c == '8' {
            8
        } else {
            9
        };
        let next: i32 = if cur > 214748364 {
            0x7FFFFFFF
        } else if cur == 214748364 {
            if d > 7 {
                0x7FFFFFFF
            } else {
                2147483640 + d
            }
        } else {
            cur * 10 + d
        };
        proof {
            let pre = s@.subrange(from as int, j as int);
            let post = s@.subrange(from as int, j + 1 as int);
            assert(post.take(post.len() - 1) =~= pre);
            assert(post[post.len() - 1] == s@[j as int]);
        }
        cur = next;
        j += 1;
    }
    cur
}

/// Whether the character at position `e` is a decimal digit.
fn is_digit_at(s: &str, e: usize) -> (b: bool)
    requires
        e < s@.len(),
    ensures
        b == is_digit_char(s@[e as int]),
{
    let c = s.get_char(e);
    '0' <= c && c <= '9'
}

/// The base key at the head of `s` from position `pos` on.
#[verifier::loop_isolation(false)]
fn parse_base_at(s: &str, pos: usize, fmt: TermKeyFormat) -> (r: Option<(KeyDesc, usize)>)
    requires
        pos <= s@.len(),
    ensures
        ({
            let m = spec_parse_base(s@.skip(pos as int), fmt);
            match m {
                None => r is None,
                Some((d, n)) => (r matches Some((rd, rn)) && rd == d && rn as int == n && pos + rn
                    <= s@.len() && crate::event::desc_wf(rd)),
            }
        }),
{
    let ghost tail = s@.skip(pos as int);
    let len = s.unicode_len();
    if pos >= len {
        return None;
    }
    let c0 = s.get_char(pos);
    proof {
        assert(tail[0] == s@[pos as int]);
    }
    if (fmt.bits & crate::flags::FORMAT_CARETCTRL != 0) && len - pos >= 2 && c0 == '^' {
        let c1 = s.get_char(pos + 1);
        proof {
            assert(tail[1] == s@[pos + 1]);
        }
        if 'A' <= c1 && c1 <= 'Z' {
            let lc = crate::format::lower_char_x(c1);
            proof {
                assert(crate::chars::is_scalar_value(lc as u32));
            }
            return Some((KeyDesc::DescUnicode { cp: lc as u32, mods: MOD_CTRL }, 2));
        }
    }
    match lookup_sym_at(s, pos, fmt) {
        Some((sym, n)) => Some((KeyDesc::DescKeySym { sym, mods: 0 }, n)),
        None => {
            let fc: char = if fmt.bits & crate::flags::FORMAT_LOWERSPACE != 0 {
                'f'
            } else {
                'F'
            };
            if c0 == fc && len - pos >= 2 {
                let c1 = s.get_char(pos + 1);
                proof {
                    assert(tail[1] == s@[pos + 1]);
                }
                if '0' <= c1 && c1 <= '9' {
                    // find the end of the digit run
                    let mut e: usize = pos + 1;
                    while e < len && is_digit_at(s, e)
                        invariant
                            pos + 1 <= e <= len,
                            forall|j: int| pos + 1 <= j < e ==> is_digit_char(#[trigger] s@[j]),
                            digit_run(tail, 1) == digit_run(tail, e - pos),
                        decreases len - e,
                    {
                        proof {
                            assert(tail[e - pos] == s@[e as int]);
                            assert(digit_run(tail, e - pos) == digit_run(tail, e - pos + 1));
                        }
                        e += 1;
                    }
                    proof {
                        if e < len {
                            assert(tail[e - pos] == s@[e as int]);
                        }
                        assert(digit_run(tail, 1) == e - pos);
                        assert(tail.subrange(1, e - pos) =~= s@.subrange(pos + 1, e as int));
                    }
                    let num = dec_val_at(s, pos + 1, e);
                    return Some((KeyDesc::DescFunction { num, mods: 0 }, e - pos));
                }
            }
            proof {
                assert(crate::chars::is_scalar_value(c0 as u32));
            }
            Some((KeyDesc::DescUnicode { cp: c0 as u32, mods: 0 }, 1))
        },
    }
}

/// The key at the head of `s` without bracket handling, from
/// position `pos` on.
fn parse_plain_at(s: &str, pos: usize, fmt: TermKeyFormat) -> (r: Option<(KeyDesc, usize)>)
    requires
        pos <= s@.len(),
    ensures
        ({
            let m = spec_parse_plain(s@.skip(pos as int), fmt);
            match m {
                None => r is None,
                Some((d, n)) => (r matches Some((rd, rn)) && rd == d && rn as int == n && pos + rn
                    <= s@.len() && crate::event::desc_wf(rd)),
            }
        }),
{
    let slen = s.unicode_len();
    proof {
        assert(s@.len() == slen);
    }
    let ghost tail0 = s@.skip(pos as int);
    let m = parse_mods_at(s, pos, fmt);
    proof {
        assert(tail0.skip(spec_parse_mods(tail0, fmt).1) =~= s@.skip(pos + m.1));
    }
    match parse_base_at(s, pos + m.1, fmt) {
        Some((d, n)) => {
            let bits = m.0;
            let out = match d {
                KeyDesc::DescUnicode { cp, mods } => KeyDesc::DescUnicode {
                    cp,
                    mods: mods | bits,
                },
                KeyDesc::DescFunction { num, mods } => KeyDesc::DescFunction {
                    num,
                    mods: mods | bits,
                },
                KeyDesc::DescKeySym { sym, mods } => KeyDesc::DescKeySym {
                    sym,
                    mods: mods | bits,
                },
                _ => d,
            };
            Some((out, m.1 + n))
        },
        None => None,
    }
}

/// The key at the head of `s` under the given format flags, before
/// canonicalization, and how many characters it takes.
pub fn parse_key(s: &str, fmt: TermKeyFormat) -> (r: Option<(KeyDesc, usize)>)
    ensures
        ({
            let m = spec_parse(s@, fmt);
            match m {
                None => r is None,
                Some((d, n)) => (r matches Some((rd, rn)) && rd == d && rn as int == n && rn
                    <= s@.len() && crate::event::desc_wf(rd)),
            }
        }),
{
    let slen = s.unicode_len();
    proof {
        assert(s@.len() == slen);
        assert(s@.skip(0) =~= s@);
    }
    if (fmt.bits & crate::flags::FORMAT_WRAPBRACKET != 0) && slen >= 1 && s.get_char(0) == '<' {
        match parse_plain_at(s, 1, fmt) {
            Some((d, n)) => {
                if 1 + n < slen && s.get_char(1 + n) == '>' {
                    Some((d, n + 2))
                } else {
                    parse_plain_at(s, 0, fmt)
                }
            },
            None => parse_plain_at(s, 0, fmt),
        }
    } else {
        parse_plain_at(s, 0, fmt)
    }
}

} // verus!

verus! {

impl crate::session::TermKey {
    /// Parses the longest key token at the head of `s` under the given
    /// format flags, canonicalizes it, and returns it with the unparsed
    /// remainder; `None` means the head of the string is not a key.
    /// The accepted strings and the decoded key are exactly what the
    /// model `spec_parse` says.
    pub fn strpkey<'a>(&mut self, s: &'a str, format: TermKeyFormat) -> (r: Option<
        (crate::event::TermKeyEvent, &'a str),
    >)
        ensures
            *final(self) == *old(self),
            match spec_parse(s@, format) {
                None => r is None,
                Some((d, n)) => (r matches Some((k, rest)) && crate::event::desc_matches(
                    k,
                    crate::event::spec_canon(d, old(self).spec_canonflags()),
                ) && rest@ == s@.skip(n)),
            },
    {
        match parse_key(s, format) {
            None => None,
            Some((d, n)) => {
                let cd = self.canonicalise(d);
                let k = crate::event::desc_to_event(cd);
                let len = s.unicode_len();
                let rest = s.substring_char(n, len);
                proof {
                    assert(rest@ =~= s@.skip(n as int));
                }
                Some((k, rest))
            },
        }
    }

    /// The canonical display name of a symbol; the `UNKNOWN` sentinel
    /// maps to a fixed placeholder.
    pub fn get_keyname(&mut self, sym: TermKeySym) -> (r: &'static str)
        ensures
            *final(self) == *old(self),
            r@ == sym.spec_name(),
    {
        crate::keysym::keyname_str(sym)
    }

    /// Looks up the longest key name at the head of `s`; on a match the
    /// symbol is stored in `sym` and the unconsumed remainder returned.
    pub fn lookup_keyname<'a>(&mut self, s: &'a str, sym: &mut TermKeySym) -> (r: Option<&'a str>)
        ensures
            *final(self) == *old(self),
            match spec_lookup(s@, TermKeyFormat { bits: 0 }) {
                None => r is None && *final(sym) == *old(sym),
                Some((sy, n)) => (r matches Some(rest) && rest@ == s@.skip(n) && *final(sym)
                    == sy),
            },
    {
        proof {
            assert(s@.skip(0) =~= s@);
        }
        let len = s.unicode_len();
        match lookup_sym_at(s, 0, TermKeyFormat { bits: 0 }) {
            Some((sy, n)) => {
                *sym = sy;
                let rest = s.substring_char(n, len);
                proof {
                    assert(rest@ =~= s@.skip(n as int));
                }
                Some(rest)
            },
            None => None,
        }
    }

    /// The symbol a key name denotes exactly, or the `UNKNOWN`
    /// sentinel; the lookup never fails with an error.
    pub fn keyname2sym(&mut self, keyname: &str) -> (r: TermKeySym)
        ensures
            *final(self) == *old(self),
            r == spec_keyname2sym(keyname@),
    {
        keyname2sym_exec(keyname)
    }
}

} // verus!

verus! {

/// What `strpkey` hands back is already canonical: its contract
/// exposes `spec_canon(d, c)` for the parsed description `d`, and
/// canonicalizing that again changes nothing, nor does
/// canonicalization ever touch the modifier set.
pub proof fn lemma_strpkey_canonical(
    s: Seq<char>,
    fmt: TermKeyFormat,
    c: crate::flags::X_TermKey_Canon,
)
    ensures
        spec_parse(s, fmt) matches Some((d, n)) ==> {
            &&& crate::event::spec_canon(crate::event::spec_canon(d, c), c)
                == crate::event::spec_canon(d, c)
            &&& crate::event::desc_mods(crate::event::spec_canon(d, c))
                == crate::event::desc_mods(d)
        },
{
    match spec_parse(s, fmt) {
        Some((d, n)) => {
            crate::event::lemma_canon_idempotent(d, c);
            crate::event::lemma_canon_keeps_mods(d, c);
        },
        None => {},
    }
}

} // verus!
