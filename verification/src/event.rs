//! The decoded event types, their canonicalization, and their ordering.

use vstd::prelude::*;

use crate::chars::char_from_u32;
use crate::chars::is_scalar_value;
use crate::flags::X_TermKey_Canon;
use crate::flags::X_TermKey_KeyMod;
use crate::keysym::TermKeySym;
use core::cmp::Ordering;
use vstd::std_specs::cmp::PartialEqSpec;
use vstd::std_specs::cmp::PartialOrdSpec;

verus! {

/// The raw UTF-8 bytes that produced a Unicode event, zero-padded.
#[derive(Clone, Copy, Debug)]
pub struct Utf8Char {
    pub bytes: [u8; 7],
}

/// What kind of mouse event a mouse report carries.
#[allow(non_camel_case_types)]
#[derive(Clone, Copy, PartialEq, Eq, Structural, Debug)]
pub enum TermKeyMouseEvent {
    TERMKEY_MOUSE_UNKNOWN,
    TERMKEY_MOUSE_PRESS,
    TERMKEY_MOUSE_DRAG,
    TERMKEY_MOUSE_RELEASE,
}

impl TermKeyMouseEvent {
    /// The position of this kind in the comparison order.
    pub open spec fn spec_rank(self) -> int {
        match self {
            TermKeyMouseEvent::TERMKEY_MOUSE_UNKNOWN => 0,
            TermKeyMouseEvent::TERMKEY_MOUSE_PRESS => 1,
            TermKeyMouseEvent::TERMKEY_MOUSE_DRAG => 2,
            TermKeyMouseEvent::TERMKEY_MOUSE_RELEASE => 3,
        }
    }

    /// The position of this kind in the comparison order.
    pub fn rank(&self) -> (r: u8)
        ensures
            r == self.spec_rank(),
    {
        match self {
            TermKeyMouseEvent::TERMKEY_MOUSE_UNKNOWN => 0,
            TermKeyMouseEvent::TERMKEY_MOUSE_PRESS => 1,
            TermKeyMouseEvent::TERMKEY_MOUSE_DRAG => 2,
            TermKeyMouseEvent::TERMKEY_MOUSE_RELEASE => 3,
        }
    }
}

/// A decoded input event.  Exactly one variant is active at a time;
/// the modifier set has the same meaning in every variant.
#[derive(Clone, Copy, Debug)]
pub enum TermKeyEvent {
    UnknownCsiEvent,
    UnicodeEvent { codepoint: char, mods: X_TermKey_KeyMod, utf8: Utf8Char },
    FunctionEvent { num: i32, mods: X_TermKey_KeyMod },
    KeySymEvent { sym: TermKeySym, mods: X_TermKey_KeyMod },
    MouseEvent {
        ev: TermKeyMouseEvent,
        mods: X_TermKey_KeyMod,
        button: i32,
        line: i32,
        col: i32,
    },
    PositionEvent { line: i32, col: i32 },
    ModeReportEvent { initial: i32, mode: i32, value: i32 },
}

/// What one decode step produces, or why it produced nothing.
#[derive(Clone, Copy, Debug)]
pub enum TermKeyResult {
    None_,
    Key(TermKeyEvent),
    Eof,
    Again,
    Error { errno: i32 },
}

/// The error code reported for decode calls on a stopped session.
pub const ERRNO_STOPPED: i32 = 22;

/// The UTF-8 encoding of code point `cp`, zero-padded to seven bytes.
pub open spec fn spec_utf8_seq(cp: u32) -> Seq<u8> {
    if cp < 0x80 {
        seq![cp as u8, 0u8, 0u8, 0u8, 0u8, 0u8, 0u8]
    } else if cp < 0x800 {
        seq![(0xC0 + cp / 0x40) as u8, (0x80 + cp % 0x40) as u8, 0u8, 0u8, 0u8, 0u8, 0u8]
    } else if cp < 0x10000 {
        seq![
            (0xE0 + cp / 0x1000) as u8,
            (0x80 + (cp / 0x40) % 0x40) as u8,
            (0x80 + cp % 0x40) as u8,
            0u8,
            0u8,
            0u8,
            0u8,
        ]
    } else {
        seq![
            (0xF0 + cp / 0x40000) as u8,
            (0x80 + (cp / 0x1000) % 0x40) as u8,
            (0x80 + (cp / 0x40) % 0x40) as u8,
            (0x80 + cp % 0x40) as u8,
            0u8,
            0u8,
            0u8,
        ]
    }
}

/// The UTF-8 encoding of `cp`, zero-padded to seven bytes.
pub fn fill_utf8(cp: u32) -> (b: [u8; 7])
    requires
        cp <= 0x10FFFF,
    ensures
        b@ == spec_utf8_seq(cp),
{
    proof {
        broadcast use vstd::array::group_array_axioms;
    }
    if cp < 0x80 {
        let b = [cp as u8, 0u8, 0u8, 0u8, 0u8, 0u8, 0u8];
        assert(b@ =~= spec_utf8_seq(cp));
        b
    } else if cp < 0x800 {
        let b = [(0xC0 + cp / 0x40) as u8, (0x80 + cp % 0x40) as u8, 0u8, 0u8, 0u8, 0u8, 0u8];
        assert(b@ =~= spec_utf8_seq(cp));
        b
    } else if cp < 0x10000 {
        let b = [
            (0xE0 + cp / 0x1000) as u8,
            (0x80 + (cp / 0x40) % 0x40) as u8,
            (0x80 + cp % 0x40) as u8,
            0u8,
            0u8,
            0u8,
            0u8,
        ];
        assert(b@ =~= spec_utf8_seq(cp));
        b
    } else {
        let b = [
            (0xF0 + cp / 0x40000) as u8,
            (0x80 + (cp / 0x1000) % 0x40) as u8,
            (0x80 + (cp / 0x40) % 0x40) as u8,
            (0x80 + cp % 0x40) as u8,
            0u8,
            0u8,
            0u8,
        ];
        assert(b@ =~= spec_utf8_seq(cp));
        b
    }
}

/// A plain-valued description of a decoded key.  The decoder and the
/// parser speak about their results through this type; `desc_matches`
/// relates it to the public event type.
#[derive(Clone, Copy, PartialEq, Eq, Debug)]
pub enum KeyDesc {
    DescUnicode { cp: u32, mods: u16 },
    DescFunction { num: i32, mods: u16 },
    DescKeySym { sym: TermKeySym, mods: u16 },
    DescMouse { ev: TermKeyMouseEvent, mods: u16, button: i32, line: i32, col: i32 },
    DescPosition { line: i32, col: i32 },
    DescModeReport { initial: i32, mode: i32, value: i32 },
    DescCsi,
}

/// Whether a description is well formed: a Unicode description must
/// carry a Unicode scalar value.
pub open spec fn desc_wf(d: KeyDesc) -> bool {
    match d {
        KeyDesc::DescUnicode { cp, mods } => is_scalar_value(cp),
        _ => true,
    }
}

/// Whether event `e` is the event described by `d`.
pub open spec fn desc_matches(e: TermKeyEvent, d: KeyDesc) -> bool {
    match d {
        KeyDesc::DescUnicode { cp, mods } => {
            &&& e matches TermKeyEvent::UnicodeEvent { codepoint, mods: m, utf8 }
            &&& codepoint as u32 == cp
            &&& m.bits == mods
            &&& utf8.bytes@ == spec_utf8_seq(cp)
        },
        KeyDesc::DescFunction { num, mods } => e == (TermKeyEvent::FunctionEvent {
            num,
            mods: X_TermKey_KeyMod { bits: mods },
        }),
        KeyDesc::DescKeySym { sym, mods } => e == (TermKeyEvent::KeySymEvent {
            sym,
            mods: X_TermKey_KeyMod { bits: mods },
        }),
        KeyDesc::DescMouse { ev, mods, button, line, col } => e == (TermKeyEvent::MouseEvent {
            ev,
            mods: X_TermKey_KeyMod { bits: mods },
            button,
            line,
            col,
        }),
        KeyDesc::DescPosition { line, col } => e == (TermKeyEvent::PositionEvent { line, col }),
        KeyDesc::DescModeReport { initial, mode, value } => e == (TermKeyEvent::ModeReportEvent {
            initial,
            mode,
            value,
        }),
        KeyDesc::DescCsi => e == TermKeyEvent::UnknownCsiEvent,
    }
}

/// Builds the public event described by `d`.
pub fn desc_to_event(d: KeyDesc) -> (e: TermKeyEvent)
    requires
        desc_wf(d),
    ensures
        desc_matches(e, d),
{
    match d {
        KeyDesc::DescUnicode { cp, mods } => {
            let c = char_from_u32(cp);
            let codepoint = match c {
                Some(cc) => cc,
                None => ' ',
            };
            TermKeyEvent::UnicodeEvent {
                codepoint,
                mods: X_TermKey_KeyMod { bits: mods },
                utf8: Utf8Char { bytes: fill_utf8(cp) },
            }
        },
        KeyDesc::DescFunction { num, mods } => TermKeyEvent::FunctionEvent {
            num,
            mods: X_TermKey_KeyMod { bits: mods },
        },
        KeyDesc::DescKeySym { sym, mods } => TermKeyEvent::KeySymEvent {
            sym,
            mods: X_TermKey_KeyMod { bits: mods },
        },
        KeyDesc::DescMouse { ev, mods, button, line, col } => TermKeyEvent::MouseEvent {
            ev,
            mods: X_TermKey_KeyMod { bits: mods },
            button,
            line,
            col,
        },
        KeyDesc::DescPosition { line, col } => TermKeyEvent::PositionEvent { line, col },
        KeyDesc::DescModeReport { initial, mode, value } => TermKeyEvent::ModeReportEvent {
            initial,
            mode,
            value,
        },
        KeyDesc::DescCsi => TermKeyEvent::UnknownCsiEvent,
    }
}

/// The canonicalization of `d` under the canonical flags `canon`:
/// with SPACESYMBOL the space character becomes the symbolic Space key
/// and without it the symbolic Space key becomes the space character;
/// with DELBS the DEL key becomes Backspace.
pub open spec fn spec_canon(d: KeyDesc, canon: X_TermKey_Canon) -> KeyDesc {
    if canon.spec_spacesymbol() && d matches KeyDesc::DescUnicode { cp: 32u32, .. } {
        KeyDesc::DescKeySym { sym: TermKeySym::TERMKEY_SYM_SPACE, mods: desc_mods(d) }
    } else if !canon.spec_spacesymbol() && d matches KeyDesc::DescKeySym {
        sym: TermKeySym::TERMKEY_SYM_SPACE,
        ..
    } {
        KeyDesc::DescUnicode { cp: 32u32, mods: desc_mods(d) }
    } else if canon.spec_delbs() && d matches KeyDesc::DescKeySym {
        sym: TermKeySym::TERMKEY_SYM_DEL,
        ..
    } {
        KeyDesc::DescKeySym { sym: TermKeySym::TERMKEY_SYM_BACKSPACE, mods: desc_mods(d) }
    } else {
        d
    }
}

/// The modifier bits a description carries; zero for descriptions
/// without modifiers.
pub open spec fn desc_mods(d: KeyDesc) -> u16 {
    match d {
        KeyDesc::DescUnicode { cp, mods } => mods,
        KeyDesc::DescFunction { num, mods } => mods,
        KeyDesc::DescKeySym { sym, mods } => mods,
        KeyDesc::DescMouse { ev, mods, button, line, col } => mods,
        KeyDesc::DescPosition { line, col } => 0,
        KeyDesc::DescModeReport { initial, mode, value } => 0,
        KeyDesc::DescCsi => 0,
    }
}

/// The canonicalization of `d` under `canon`.
pub fn canon_desc(d: KeyDesc, canon: X_TermKey_Canon) -> (r: KeyDesc)
    ensures
        r == spec_canon(d, canon),
{
    let space = canon.bits & crate::flags::CANON_SPACESYMBOL != 0;
    let delbs = canon.bits & crate::flags::CANON_DELBS != 0;
    match d {
        KeyDesc::DescUnicode { cp, mods } => {
            if space && cp == 32 {
                KeyDesc::DescKeySym { sym: TermKeySym::TERMKEY_SYM_SPACE, mods }
            } else {
                d
            }
        },
        KeyDesc::DescKeySym { sym, mods } => {
            match sym {
                TermKeySym::TERMKEY_SYM_SPACE => {
                    if !space {
                        KeyDesc::DescUnicode { cp: 32, mods }
                    } else {
                        d
                    }
                },
                TermKeySym::TERMKEY_SYM_DEL => {
                    if delbs {
                        KeyDesc::DescKeySym { sym: TermKeySym::TERMKEY_SYM_BACKSPACE, mods }
                    } else {
                        d
                    }
                },
                _ => d,
            }
        },
        _ => d,
    }
}

/// Canonicalization never changes the modifier set.
pub proof fn lemma_canon_keeps_mods(d: KeyDesc, canon: X_TermKey_Canon)
    ensures
        desc_mods(spec_canon(d, canon)) == desc_mods(d),
{
}

/// Canonicalization is idempotent: applying it twice yields the same
/// description as applying it once.
pub proof fn lemma_canon_idempotent(d: KeyDesc, canon: X_TermKey_Canon)
    ensures
        spec_canon(spec_canon(d, canon), canon) == spec_canon(d, canon),
{
}

/// The position of an event's variant in the comparison order.
pub open spec fn spec_type_rank(e: TermKeyEvent) -> int {
    match e {
        TermKeyEvent::UnknownCsiEvent => 0,
        TermKeyEvent::UnicodeEvent { .. } => 1,
        TermKeyEvent::FunctionEvent { .. } => 2,
        TermKeyEvent::KeySymEvent { .. } => 3,
        TermKeyEvent::MouseEvent { .. } => 4,
        TermKeyEvent::PositionEvent { .. } => 5,
        TermKeyEvent::ModeReportEvent { .. } => 6,
    }
}

/// The order of two integers.
pub open spec fn spec_ord(a: int, b: int) -> Ordering {
    if a < b {
        Ordering::Less
    } else if a == b {
        Ordering::Equal
    } else {
        Ordering::Greater
    }
}

/// The second order where the first is `Equal`, else the first.
pub open spec fn spec_chain(first: Ordering, rest: Ordering) -> Ordering {
    match first {
        Ordering::Equal => rest,
        _ => first,
    }
}

/// The total comparison order on events: variants in the order
/// UnknownCsi, Unicode, Function, KeySym, Mouse, Position, ModeReport.
/// Within the Unicode variant the modifier set is compared first and
/// the code point second; the other variants compare their payload
/// fields in order with the modifier set last.
pub open spec fn spec_event_cmp(a: TermKeyEvent, b: TermKeyEvent) -> Ordering {
    if spec_type_rank(a) != spec_type_rank(b) {
        spec_ord(spec_type_rank(a), spec_type_rank(b))
    } else {
        match (a, b) {
            (
                TermKeyEvent::UnicodeEvent { codepoint: c1, mods: m1, .. },
                TermKeyEvent::UnicodeEvent { codepoint: c2, mods: m2, .. },
            ) => spec_chain(spec_ord(m1.bits as int, m2.bits as int), spec_ord(c1 as int, c2 as int)),
            (
                TermKeyEvent::FunctionEvent { num: n1, mods: m1 },
                TermKeyEvent::FunctionEvent { num: n2, mods: m2 },
            ) => spec_chain(spec_ord(n1 as int, n2 as int), spec_ord(m1.bits as int, m2.bits as int)),
            (
                TermKeyEvent::KeySymEvent { sym: s1, mods: m1 },
                TermKeyEvent::KeySymEvent { sym: s2, mods: m2 },
            ) => spec_chain(
                spec_ord(s1.spec_index(), s2.spec_index()),
                spec_ord(m1.bits as int, m2.bits as int),
            ),
            (
                TermKeyEvent::MouseEvent { ev: e1, mods: m1, button: b1, line: l1, col: o1 },
                TermKeyEvent::MouseEvent { ev: e2, mods: m2, button: b2, line: l2, col: o2 },
            ) => spec_chain(
                spec_ord(e1.spec_rank(), e2.spec_rank()),
                spec_chain(
                    spec_ord(b1 as int, b2 as int),
                    spec_chain(
                        spec_ord(l1 as int, l2 as int),
                        spec_chain(
                            spec_ord(o1 as int, o2 as int),
                            spec_ord(m1.bits as int, m2.bits as int),
                        ),
                    ),
                ),
            ),
            (
                TermKeyEvent::PositionEvent { line: l1, col: o1 },
                TermKeyEvent::PositionEvent { line: l2, col: o2 },
            ) => spec_chain(spec_ord(l1 as int, l2 as int), spec_ord(o1 as int, o2 as int)),
            (
                TermKeyEvent::ModeReportEvent { initial: i1, mode: d1, value: v1 },
                TermKeyEvent::ModeReportEvent { initial: i2, mode: d2, value: v2 },
            ) => spec_chain(
                spec_ord(i1 as int, i2 as int),
                spec_chain(spec_ord(d1 as int, d2 as int), spec_ord(v1 as int, v2 as int)),
            ),
            _ => Ordering::Equal,
        }
    }
}

/// The order of two machine integers, widened to `i64`.
fn ord_i64(a: i64, b: i64) -> (r: Ordering)
    ensures
        r == spec_ord(a as int, b as int),
{
    if a < b {
        Ordering::Less
    } else if a == b {
        Ordering::Equal
    } else {
        Ordering::Greater
    }
}

/// The second order where the first is `Equal`, else the first.
fn chain_ord(first: Ordering, rest: Ordering) -> (r: Ordering)
    ensures
        r == spec_chain(first, rest),
{
    match first {
        Ordering::Equal => rest,
        _ => first,
    }
}

/// The comparison order of two events.
pub fn cmp_events(a: &TermKeyEvent, b: &TermKeyEvent) -> (r: Ordering)
    ensures
        r == spec_event_cmp(*a, *b),
{
    match (a, b) {
        (
            TermKeyEvent::UnicodeEvent { codepoint: c1, mods: m1, .. },
            TermKeyEvent::UnicodeEvent { codepoint: c2, mods: m2, .. },
        ) => chain_ord(
            ord_i64(m1.bits as i64, m2.bits as i64),
            ord_i64(*c1 as u32 as i64, *c2 as u32 as i64),
        ),
        (
            TermKeyEvent::FunctionEvent { num: n1, mods: m1 },
            TermKeyEvent::FunctionEvent { num: n2, mods: m2 },
        ) => chain_ord(ord_i64(*n1 as i64, *n2 as i64), ord_i64(m1.bits as i64, m2.bits as i64)),
        (
            TermKeyEvent::KeySymEvent { sym: s1, mods: m1 },
            TermKeyEvent::KeySymEvent { sym: s2, mods: m2 },
        ) => chain_ord(
            ord_i64(s1.index() as i64, s2.index() as i64),
            ord_i64(m1.bits as i64, m2.bits as i64),
        ),
        (
            TermKeyEvent::MouseEvent { ev: e1, mods: m1, button: b1, line: l1, col: o1 },
            TermKeyEvent::MouseEvent { ev: e2, mods: m2, button: b2, line: l2, col: o2 },
        ) => chain_ord(
            ord_i64(e1.rank() as i64, e2.rank() as i64),
            chain_ord(
                ord_i64(*b1 as i64, *b2 as i64),
                chain_ord(
                    ord_i64(*l1 as i64, *l2 as i64),
                    chain_ord(
                        ord_i64(*o1 as i64, *o2 as i64),
                        ord_i64(m1.bits as i64, m2.bits as i64),
                    ),
                ),
            ),
        ),
        (
            TermKeyEvent::PositionEvent { line: l1, col: o1 },
            TermKeyEvent::PositionEvent { line: l2, col: o2 },
        ) => chain_ord(ord_i64(*l1 as i64, *l2 as i64), ord_i64(*o1 as i64, *o2 as i64)),
        (
            TermKeyEvent::ModeReportEvent { initial: i1, mode: d1, value: v1 },
            TermKeyEvent::ModeReportEvent { initial: i2, mode: d2, value: v2 },
        ) => chain_ord(
            ord_i64(*i1 as i64, *i2 as i64),
            chain_ord(ord_i64(*d1 as i64, *d2 as i64), ord_i64(*v1 as i64, *v2 as i64)),
        ),
        _ => {
            let r1 = type_rank(a);
            let r2 = type_rank(b);
            ord_i64(r1 as i64, r2 as i64)
        },
    }
}

/// The position of an event's variant in the comparison order.
fn type_rank(e: &TermKeyEvent) -> (r: u8)
    ensures
        r == spec_type_rank(*e),
{
    match e {
        TermKeyEvent::UnknownCsiEvent => 0,
        TermKeyEvent::UnicodeEvent { .. } => 1,
        TermKeyEvent::FunctionEvent { .. } => 2,
        TermKeyEvent::KeySymEvent { .. } => 3,
        TermKeyEvent::MouseEvent { .. } => 4,
        TermKeyEvent::PositionEvent { .. } => 5,
        TermKeyEvent::ModeReportEvent { .. } => 6,
    }
}

impl PartialEq for TermKeyEvent {
    /// Two events are equal when the comparison order places neither
    /// before the other; the raw UTF-8 bytes of a Unicode event do not
    /// take part.
    fn eq(&self, other: &TermKeyEvent) -> (r: bool) {
        matches!(cmp_events(self, other), Ordering::Equal)
    }
}

impl vstd::std_specs::cmp::PartialEqSpecImpl for TermKeyEvent {
    open spec fn obeys_eq_spec() -> bool {
        true
    }

    open spec fn eq_spec(&self, other: &TermKeyEvent) -> bool {
        spec_event_cmp(*self, *other) == Ordering::Equal
    }
}

impl PartialOrd for TermKeyEvent {
    /// Events are ordered by `spec_event_cmp`: the variant first, then
    /// within Unicode the modifier set before the code point, and
    /// within the other variants the payload fields in order.
    fn partial_cmp(&self, other: &TermKeyEvent) -> (r: Option<Ordering>) {
        Some(cmp_events(self, other))
    }
}

impl vstd::std_specs::cmp::PartialOrdSpecImpl for TermKeyEvent {
    open spec fn obeys_partial_cmp_spec() -> bool {
        true
    }

    open spec fn partial_cmp_spec(&self, other: &TermKeyEvent) -> Option<Ordering> {
        Some(spec_event_cmp(*self, *other))
    }
}

} // verus!

verus! {

/// The comparison order sorts the variants: Unicode events come before
/// KeySym events, KeySym before Mouse, Mouse before Position, and
/// Position before ModeReport.  Within the Unicode variant the
/// modifier set is compared first and the code point second, so an
/// unmodified key sorts before any Ctrl-modified key, and with equal
/// modifiers `A` sorts before `B`.
pub proof fn lemma_event_order(a: TermKeyEvent, b: TermKeyEvent)
    ensures
        a is UnicodeEvent && b is KeySymEvent ==> spec_event_cmp(a, b) == Ordering::Less,
        a is KeySymEvent && b is MouseEvent ==> spec_event_cmp(a, b) == Ordering::Less,
        a is MouseEvent && b is PositionEvent ==> spec_event_cmp(a, b) == Ordering::Less,
        a is PositionEvent && b is ModeReportEvent ==> spec_event_cmp(a, b) == Ordering::Less,
        (a matches TermKeyEvent::UnicodeEvent { codepoint: c1, mods: m1, .. } && b matches
            TermKeyEvent::UnicodeEvent { codepoint: c2, mods: m2, .. } && m1.bits < m2.bits)
            ==> spec_event_cmp(a, b) == Ordering::Less,
        (a matches TermKeyEvent::UnicodeEvent { codepoint: c1, mods: m1, .. } && b matches
            TermKeyEvent::UnicodeEvent { codepoint: c2, mods: m2, .. } && m1.bits == m2.bits && (
        c1 as int) < (c2 as int)) ==> spec_event_cmp(a, b) == Ordering::Less,
{
}

/// The comparison order is what `<` and `partial_cmp` on events go by.
pub proof fn lemma_event_partial_cmp(a: TermKeyEvent, b: TermKeyEvent)
    ensures
        a.partial_cmp_spec(&b) == Some(spec_event_cmp(a, b)),
        a.eq_spec(&b) == (spec_event_cmp(a, b) == Ordering::Equal),
{
}

} // verus!
