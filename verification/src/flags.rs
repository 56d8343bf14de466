//! Bit-set types for modifiers and for the session's behaviour flags.
//!
//! Each set is a small fixed-width bit field with total union,
//! intersection and difference operations.  The flag values themselves
//! are exposed as constructor methods rather than constants so that the
//! contracts can speak about the `bits` field directly.

use vstd::prelude::*;

verus! {

/// Bit for the Shift modifier.
pub const MOD_SHIFT: u16 = 1;

/// Bit for the Alt modifier.
pub const MOD_ALT: u16 = 2;

/// Bit for the Ctrl modifier.
pub const MOD_CTRL: u16 = 4;

/// A bit-set of keyboard modifiers over {Shift, Alt, Ctrl}.
#[allow(non_camel_case_types)]
#[derive(Clone, Copy, PartialEq, Eq, Structural, Debug)]
pub struct X_TermKey_KeyMod {
    pub bits: u16,
}

impl X_TermKey_KeyMod {
    /// Whether the Shift bit is set.
    pub open spec fn spec_shift(self) -> bool {
        self.bits & MOD_SHIFT != 0
    }

    /// Whether the Alt bit is set.
    pub open spec fn spec_alt(self) -> bool {
        self.bits & MOD_ALT != 0
    }

    /// Whether the Ctrl bit is set.
    pub open spec fn spec_ctrl(self) -> bool {
        self.bits & MOD_CTRL != 0
    }

    /// The set with no modifier held.
    pub fn empty() -> (r: Self)
        ensures
            r.bits == 0,
    {
        X_TermKey_KeyMod { bits: 0 }
    }

    /// The set holding only Shift.
    pub fn shift() -> (r: Self)
        ensures
            r.bits == MOD_SHIFT,
    {
        X_TermKey_KeyMod { bits: MOD_SHIFT }
    }

    /// The set holding only Alt.
    pub fn alt() -> (r: Self)
        ensures
            r.bits == MOD_ALT,
    {
        X_TermKey_KeyMod { bits: MOD_ALT }
    }

    /// The set holding only Ctrl.
    pub fn ctrl() -> (r: Self)
        ensures
            r.bits == MOD_CTRL,
    {
        X_TermKey_KeyMod { bits: MOD_CTRL }
    }

    /// Whether no modifier is held.
    pub fn is_empty(&self) -> (r: bool)
        ensures
            r == (self.bits == 0),
    {
        self.bits == 0
    }

    /// The union of two modifier sets.
    pub fn union(self, other: Self) -> (r: Self)
        ensures
            r.bits == (self.bits | other.bits),
    {
        X_TermKey_KeyMod { bits: self.bits | other.bits }
    }

    /// The intersection of two modifier sets.
    pub fn intersect(self, other: Self) -> (r: Self)
        ensures
            r.bits == (self.bits & other.bits),
    {
        X_TermKey_KeyMod { bits: self.bits & other.bits }
    }

    /// The difference of two modifier sets.
    pub fn minus(self, other: Self) -> (r: Self)
        ensures
            r.bits == (self.bits & !other.bits),
    {
        X_TermKey_KeyMod { bits: self.bits & !other.bits }
    }

    /// Whether every modifier of `other` is also held in `self`.
    pub fn contains(self, other: Self) -> (r: bool)
        ensures
            r == (self.bits & other.bits == other.bits),
    {
        self.bits & other.bits == other.bits
    }
}

/// Flag: do not interpret C0 control codes or DEL as symbolic keys.
pub const FLAG_NOINTERPRET: u16 = 1;

/// Flag: convert keypad symbols to their plain equivalents.
pub const FLAG_CONVERTKP: u16 = 2;

/// Flag: the input is raw bytes, not UTF-8.
pub const FLAG_RAW: u16 = 4;

/// Flag: the input is definitely UTF-8.
pub const FLAG_UTF8: u16 = 8;

/// Flag: do not touch terminal modes on construction (kept for
/// compatibility with callers; the core itself never performs I/O).
pub const FLAG_NOTERMIOS: u16 = 16;

/// Flag: also set the space-is-symbolic canonical flag.
pub const FLAG_SPACESYMBOL: u16 = 32;

/// Flag: allow Ctrl-C to be read as a normal key.
pub const FLAG_CTRLC: u16 = 64;

/// Flag: report an error on interrupted reads rather than retrying.
pub const FLAG_EINTR: u16 = 128;

/// A bit-set of session behaviour flags.
#[allow(non_camel_case_types)]
#[derive(Clone, Copy, PartialEq, Eq, Structural, Debug)]
pub struct X_TermKey_Flag {
    pub bits: u16,
}

impl X_TermKey_Flag {
    /// Whether the raw-bytes flag is set.
    pub open spec fn spec_raw(self) -> bool {
        self.bits & FLAG_RAW != 0
    }

    /// Whether the no-interpret flag is set.
    pub open spec fn spec_nointerpret(self) -> bool {
        self.bits & FLAG_NOINTERPRET != 0
    }

    /// The empty flag set.
    pub fn empty() -> (r: Self)
        ensures
            r.bits == 0,
    {
        X_TermKey_Flag { bits: 0 }
    }

    /// The set holding only the no-interpret flag.
    pub fn nointerpret() -> (r: Self)
        ensures
            r.bits == FLAG_NOINTERPRET,
    {
        X_TermKey_Flag { bits: FLAG_NOINTERPRET }
    }

    /// The set holding only the raw-bytes flag.
    pub fn raw() -> (r: Self)
        ensures
            r.bits == FLAG_RAW,
    {
        X_TermKey_Flag { bits: FLAG_RAW }
    }

    /// The set holding only the UTF-8 flag.
    pub fn utf8() -> (r: Self)
        ensures
            r.bits == FLAG_UTF8,
    {
        X_TermKey_Flag { bits: FLAG_UTF8 }
    }

    /// The set holding only the no-termios flag.
    pub fn notermios() -> (r: Self)
        ensures
            r.bits == FLAG_NOTERMIOS,
    {
        X_TermKey_Flag { bits: FLAG_NOTERMIOS }
    }

    /// The set holding only the space-is-symbolic flag.
    pub fn spacesymbol() -> (r: Self)
        ensures
            r.bits == FLAG_SPACESYMBOL,
    {
        X_TermKey_Flag { bits: FLAG_SPACESYMBOL }
    }

    /// Whether no flag is set.
    pub fn is_empty(&self) -> (r: bool)
        ensures
            r == (self.bits == 0),
    {
        self.bits == 0
    }

    /// The union of two flag sets.
    pub fn union(self, other: Self) -> (r: Self)
        ensures
            r.bits == (self.bits | other.bits),
    {
        X_TermKey_Flag { bits: self.bits | other.bits }
    }

    /// Whether every flag of `other` is also set in `self`.
    pub fn contains(self, other: Self) -> (r: bool)
        ensures
            r == (self.bits & other.bits == other.bits),
    {
        self.bits & other.bits == other.bits
    }
}

/// Canonical flag: space is reported as the symbolic Space key.
pub const CANON_SPACESYMBOL: u16 = 1;

/// Canonical flag: the DEL key is reported as Backspace.
pub const CANON_DELBS: u16 = 2;

/// A bit-set of canonicalization flags.
#[allow(non_camel_case_types)]
#[derive(Clone, Copy, PartialEq, Eq, Structural, Debug)]
pub struct X_TermKey_Canon {
    pub bits: u16,
}

impl X_TermKey_Canon {
    /// Whether space is canonicalized to the symbolic Space key.
    pub open spec fn spec_spacesymbol(self) -> bool {
        self.bits & CANON_SPACESYMBOL != 0
    }

    /// Whether DEL is canonicalized to Backspace.
    pub open spec fn spec_delbs(self) -> bool {
        self.bits & CANON_DELBS != 0
    }

    /// The empty canonical flag set.
    pub fn empty() -> (r: Self)
        ensures
            r.bits == 0,
    {
        X_TermKey_Canon { bits: 0 }
    }

    /// The set holding only the space-is-symbolic flag.
    pub fn spacesymbol() -> (r: Self)
        ensures
            r.bits == CANON_SPACESYMBOL,
    {
        X_TermKey_Canon { bits: CANON_SPACESYMBOL }
    }

    /// The set holding only the DEL-as-Backspace flag.
    pub fn delbs() -> (r: Self)
        ensures
            r.bits == CANON_DELBS,
    {
        X_TermKey_Canon { bits: CANON_DELBS }
    }

    /// The union of two canonical flag sets.
    pub fn union(self, other: Self) -> (r: Self)
        ensures
            r.bits == (self.bits | other.bits),
    {
        X_TermKey_Canon { bits: self.bits | other.bits }
    }
}

/// Format flag: long modifier names such as `Ctrl-` instead of `C-`.
pub const FORMAT_LONGMOD: u16 = 1;

/// Format flag: caret notation `^X` for Ctrl-modified letters.
pub const FORMAT_CARETCTRL: u16 = 2;

/// Format flag: name the Alt modifier `Meta`/`M` instead of `Alt`/`A`.
pub const FORMAT_ALTISMETA: u16 = 4;

/// Format flag: wrap special keys in angle brackets like `<Escape>`.
pub const FORMAT_WRAPBRACKET: u16 = 8;

/// Format flag: a space between modifier and key instead of a hyphen.
pub const FORMAT_SPACEMOD: u16 = 16;

/// Format flag: lower-case modifier names.
pub const FORMAT_LOWERMOD: u16 = 32;

/// Format flag: lower-case key names with spaces at word breaks.
pub const FORMAT_LOWERSPACE: u16 = 64;

/// Format flag: include the mouse position, as in `@ (col,line)`.
pub const FORMAT_MOUSE_POS: u16 = 256;

/// A bit-set of key formatting flags.
#[derive(Clone, Copy, PartialEq, Eq, Structural, Debug)]
pub struct TermKeyFormat {
    pub bits: u16,
}

impl TermKeyFormat {
    /// Whether long modifier names are used.
    pub open spec fn spec_longmod(self) -> bool {
        self.bits & FORMAT_LONGMOD != 0
    }

    /// Whether caret notation is used for Ctrl.
    pub open spec fn spec_caretctrl(self) -> bool {
        self.bits & FORMAT_CARETCTRL != 0
    }

    /// Whether Alt is named Meta.
    pub open spec fn spec_altismeta(self) -> bool {
        self.bits & FORMAT_ALTISMETA != 0
    }

    /// Whether special keys are wrapped in angle brackets.
    pub open spec fn spec_wrapbracket(self) -> bool {
        self.bits & FORMAT_WRAPBRACKET != 0
    }

    /// Whether a space separates modifier and key.
    pub open spec fn spec_spacemod(self) -> bool {
        self.bits & FORMAT_SPACEMOD != 0
    }

    /// Whether modifier names are lower-cased.
    pub open spec fn spec_lowermod(self) -> bool {
        self.bits & FORMAT_LOWERMOD != 0
    }

    /// Whether key names are lower-cased with spaces at word breaks.
    pub open spec fn spec_lowerspace(self) -> bool {
        self.bits & FORMAT_LOWERSPACE != 0
    }

    /// Whether the mouse position is included.
    pub open spec fn spec_mouse_pos(self) -> bool {
        self.bits & FORMAT_MOUSE_POS != 0
    }

    /// The empty format flag set.
    pub fn empty() -> (r: Self)
        ensures
            r.bits == 0,
    {
        TermKeyFormat { bits: 0 }
    }

    /// The set holding only the long-modifier flag.
    pub fn longmod() -> (r: Self)
        ensures
            r.bits == FORMAT_LONGMOD,
    {
        TermKeyFormat { bits: FORMAT_LONGMOD }
    }

    /// The set holding only the caret-Ctrl flag.
    pub fn caretctrl() -> (r: Self)
        ensures
            r.bits == FORMAT_CARETCTRL,
    {
        TermKeyFormat { bits: FORMAT_CARETCTRL }
    }

    /// The set holding only the Alt-is-Meta flag.
    pub fn altismeta() -> (r: Self)
        ensures
            r.bits == FORMAT_ALTISMETA,
    {
        TermKeyFormat { bits: FORMAT_ALTISMETA }
    }

    /// The set holding only the wrap-bracket flag.
    pub fn wrapbracket() -> (r: Self)
        ensures
            r.bits == FORMAT_WRAPBRACKET,
    {
        TermKeyFormat { bits: FORMAT_WRAPBRACKET }
    }

    /// The set holding only the space-separator flag.
    pub fn spacemod() -> (r: Self)
        ensures
            r.bits == FORMAT_SPACEMOD,
    {
        TermKeyFormat { bits: FORMAT_SPACEMOD }
    }

    /// The set holding only the lower-case-modifier flag.
    pub fn lowermod() -> (r: Self)
        ensures
            r.bits == FORMAT_LOWERMOD,
    {
        TermKeyFormat { bits: FORMAT_LOWERMOD }
    }

    /// The set holding only the lower-space flag.
    pub fn lowerspace() -> (r: Self)
        ensures
            r.bits == FORMAT_LOWERSPACE,
    {
        TermKeyFormat { bits: FORMAT_LOWERSPACE }
    }

    /// The set holding only the mouse-position flag.
    pub fn mouse_pos() -> (r: Self)
        ensures
            r.bits == FORMAT_MOUSE_POS,
    {
        TermKeyFormat { bits: FORMAT_MOUSE_POS }
    }

    /// The union of two format flag sets.
    pub fn union(self, other: Self) -> (r: Self)
        ensures
            r.bits == (self.bits | other.bits),
    {
        TermKeyFormat { bits: self.bits | other.bits }
    }
}

} // verus!
