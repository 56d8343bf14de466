//! The fixed table of named symbolic keys and their canonical names.

use vstd::prelude::*;

verus! {

/// A named symbolic key, drawn from a fixed table, plus the `UNKNOWN`
/// and `NONE` sentinels.
#[allow(non_camel_case_types)]
#[derive(Clone, Copy, PartialEq, Eq, Structural, Debug)]
pub enum TermKeySym {
    TERMKEY_SYM_UNKNOWN,
    TERMKEY_SYM_NONE,
    TERMKEY_SYM_BACKSPACE,
    TERMKEY_SYM_TAB,
    TERMKEY_SYM_ENTER,
    TERMKEY_SYM_ESCAPE,
    TERMKEY_SYM_SPACE,
    TERMKEY_SYM_DEL,
    TERMKEY_SYM_UP,
    TERMKEY_SYM_DOWN,
    TERMKEY_SYM_LEFT,
    TERMKEY_SYM_RIGHT,
    TERMKEY_SYM_BEGIN,
    TERMKEY_SYM_FIND,
    TERMKEY_SYM_INSERT,
    TERMKEY_SYM_DELETE,
    TERMKEY_SYM_SELECT,
    TERMKEY_SYM_PAGEUP,
    TERMKEY_SYM_PAGEDOWN,
    TERMKEY_SYM_HOME,
    TERMKEY_SYM_END,
    TERMKEY_SYM_CANCEL,
    TERMKEY_SYM_CLEAR,
    TERMKEY_SYM_CLOSE,
    TERMKEY_SYM_COMMAND,
    TERMKEY_SYM_COPY,
    TERMKEY_SYM_EXIT,
    TERMKEY_SYM_HELP,
    TERMKEY_SYM_MARK,
    TERMKEY_SYM_MESSAGE,
    TERMKEY_SYM_MOVE,
    TERMKEY_SYM_OPEN,
    TERMKEY_SYM_OPTIONS,
    TERMKEY_SYM_PRINT,
    TERMKEY_SYM_REDO,
    TERMKEY_SYM_REFERENCE,
    TERMKEY_SYM_REFRESH,
    TERMKEY_SYM_REPLACE,
    TERMKEY_SYM_RESTART,
    TERMKEY_SYM_RESUME,
    TERMKEY_SYM_SAVE,
    TERMKEY_SYM_SUSPEND,
    TERMKEY_SYM_UNDO,
    TERMKEY_SYM_KP0,
    TERMKEY_SYM_KP1,
    TERMKEY_SYM_KP2,
    TERMKEY_SYM_KP3,
    TERMKEY_SYM_KP4,
    TERMKEY_SYM_KP5,
    TERMKEY_SYM_KP6,
    TERMKEY_SYM_KP7,
    TERMKEY_SYM_KP8,
    TERMKEY_SYM_KP9,
    TERMKEY_SYM_KPENTER,
    TERMKEY_SYM_KPPLUS,
    TERMKEY_SYM_KPMINUS,
    TERMKEY_SYM_KPMULT,
    TERMKEY_SYM_KPDIV,
    TERMKEY_SYM_KPCOMMA,
    TERMKEY_SYM_KPPERIOD,
    TERMKEY_SYM_KPEQUALS,
}

/// How many symbols the table holds, the two sentinels included.
pub const SYM_COUNT: usize = 61;

impl TermKeySym {
    /// The position of this symbol in the table.
    pub open spec fn spec_index(self) -> int {
        match self {
            TermKeySym::TERMKEY_SYM_UNKNOWN => 0,
            TermKeySym::TERMKEY_SYM_NONE => 1,
            TermKeySym::TERMKEY_SYM_BACKSPACE => 2,
            TermKeySym::TERMKEY_SYM_TAB => 3,
            TermKeySym::TERMKEY_SYM_ENTER => 4,
            TermKeySym::TERMKEY_SYM_ESCAPE => 5,
            TermKeySym::TERMKEY_SYM_SPACE => 6,
            TermKeySym::TERMKEY_SYM_DEL => 7,
            TermKeySym::TERMKEY_SYM_UP => 8,
            TermKeySym::TERMKEY_SYM_DOWN => 9,
            TermKeySym::TERMKEY_SYM_LEFT => 10,
            TermKeySym::TERMKEY_SYM_RIGHT => 11,
            TermKeySym::TERMKEY_SYM_BEGIN => 12,
            TermKeySym::TERMKEY_SYM_FIND => 13,
            TermKeySym::TERMKEY_SYM_INSERT => 14,
            TermKeySym::TERMKEY_SYM_DELETE => 15,
            TermKeySym::TERMKEY_SYM_SELECT => 16,
            TermKeySym::TERMKEY_SYM_PAGEUP => 17,
            TermKeySym::TERMKEY_SYM_PAGEDOWN => 18,
            TermKeySym::TERMKEY_SYM_HOME => 19,
            TermKeySym::TERMKEY_SYM_END => 20,
            TermKeySym::TERMKEY_SYM_CANCEL => 21,
            TermKeySym::TERMKEY_SYM_CLEAR => 22,
            TermKeySym::TERMKEY_SYM_CLOSE => 23,
            TermKeySym::TERMKEY_SYM_COMMAND => 24,
            TermKeySym::TERMKEY_SYM_COPY => 25,
            TermKeySym::TERMKEY_SYM_EXIT => 26,
            TermKeySym::TERMKEY_SYM_HELP => 27,
            TermKeySym::TERMKEY_SYM_MARK => 28,
            TermKeySym::TERMKEY_SYM_MESSAGE => 29,
            TermKeySym::TERMKEY_SYM_MOVE => 30,
            TermKeySym::TERMKEY_SYM_OPEN => 31,
            TermKeySym::TERMKEY_SYM_OPTIONS => 32,
            TermKeySym::TERMKEY_SYM_PRINT => 33,
            TermKeySym::TERMKEY_SYM_REDO => 34,
            TermKeySym::TERMKEY_SYM_REFERENCE => 35,
            TermKeySym::TERMKEY_SYM_REFRESH => 36,
            TermKeySym::TERMKEY_SYM_REPLACE => 37,
            TermKeySym::TERMKEY_SYM_RESTART => 38,
            TermKeySym::TERMKEY_SYM_RESUME => 39,
            TermKeySym::TERMKEY_SYM_SAVE => 40,
            TermKeySym::TERMKEY_SYM_SUSPEND => 41,
            TermKeySym::TERMKEY_SYM_UNDO => 42,
            TermKeySym::TERMKEY_SYM_KP0 => 43,
            TermKeySym::TERMKEY_SYM_KP1 => 44,
            TermKeySym::TERMKEY_SYM_KP2 => 45,
            TermKeySym::TERMKEY_SYM_KP3 => 46,
            TermKeySym::TERMKEY_SYM_KP4 => 47,
            TermKeySym::TERMKEY_SYM_KP5 => 48,
            TermKeySym::TERMKEY_SYM_KP6 => 49,
            TermKeySym::TERMKEY_SYM_KP7 => 50,
            TermKeySym::TERMKEY_SYM_KP8 => 51,
            TermKeySym::TERMKEY_SYM_KP9 => 52,
            TermKeySym::TERMKEY_SYM_KPENTER => 53,
            TermKeySym::TERMKEY_SYM_KPPLUS => 54,
            TermKeySym::TERMKEY_SYM_KPMINUS => 55,
            TermKeySym::TERMKEY_SYM_KPMULT => 56,
            TermKeySym::TERMKEY_SYM_KPDIV => 57,
            TermKeySym::TERMKEY_SYM_KPCOMMA => 58,
            TermKeySym::TERMKEY_SYM_KPPERIOD => 59,
            TermKeySym::TERMKEY_SYM_KPEQUALS => 60,
        }
    }

    /// The canonical display name of this symbol.  The `UNKNOWN`
    /// sentinel maps to a fixed placeholder.
    pub open spec fn spec_name(self) -> Seq<char> {
        match self {
            TermKeySym::TERMKEY_SYM_UNKNOWN => "UNKNOWN"@,
            TermKeySym::TERMKEY_SYM_NONE => "NONE"@,
            TermKeySym::TERMKEY_SYM_BACKSPACE => "Backspace"@,
            TermKeySym::TERMKEY_SYM_TAB => "Tab"@,
            TermKeySym::TERMKEY_SYM_ENTER => "Enter"@,
            TermKeySym::TERMKEY_SYM_ESCAPE => "Escape"@,
            TermKeySym::TERMKEY_SYM_SPACE => "Space"@,
            TermKeySym::TERMKEY_SYM_DEL => "DEL"@,
            TermKeySym::TERMKEY_SYM_UP => "Up"@,
            TermKeySym::TERMKEY_SYM_DOWN => "Down"@,
            TermKeySym::TERMKEY_SYM_LEFT => "Left"@,
            TermKeySym::TERMKEY_SYM_RIGHT => "Right"@,
            TermKeySym::TERMKEY_SYM_BEGIN => "Begin"@,
            TermKeySym::TERMKEY_SYM_FIND => "Find"@,
            TermKeySym::TERMKEY_SYM_INSERT => "Insert"@,
            TermKeySym::TERMKEY_SYM_DELETE => "Delete"@,
            TermKeySym::TERMKEY_SYM_SELECT => "Select"@,
            TermKeySym::TERMKEY_SYM_PAGEUP => "PageUp"@,
            TermKeySym::TERMKEY_SYM_PAGEDOWN => "PageDown"@,
            TermKeySym::TERMKEY_SYM_HOME => "Home"@,
            TermKeySym::TERMKEY_SYM_END => "End"@,
            TermKeySym::TERMKEY_SYM_CANCEL => "Cancel"@,
            TermKeySym::TERMKEY_SYM_CLEAR => "Clear"@,
            TermKeySym::TERMKEY_SYM_CLOSE => "Close"@,
            TermKeySym::TERMKEY_SYM_COMMAND => "Command"@,
            TermKeySym::TERMKEY_SYM_COPY => "Copy"@,
            TermKeySym::TERMKEY_SYM_EXIT => "Exit"@,
            TermKeySym::TERMKEY_SYM_HELP => "Help"@,
            TermKeySym::TERMKEY_SYM_MARK => "Mark"@,
            TermKeySym::TERMKEY_SYM_MESSAGE => "Message"@,
            TermKeySym::TERMKEY_SYM_MOVE => "Move"@,
            TermKeySym::TERMKEY_SYM_OPEN => "Open"@,
            TermKeySym::TERMKEY_SYM_OPTIONS => "Options"@,
            TermKeySym::TERMKEY_SYM_PRINT => "Print"@,
            TermKeySym::TERMKEY_SYM_REDO => "Redo"@,
            TermKeySym::TERMKEY_SYM_REFERENCE => "Reference"@,
            TermKeySym::TERMKEY_SYM_REFRESH => "Refresh"@,
            TermKeySym::TERMKEY_SYM_REPLACE => "Replace"@,
            TermKeySym::TERMKEY_SYM_RESTART => "Restart"@,
            TermKeySym::TERMKEY_SYM_RESUME => "Resume"@,
            TermKeySym::TERMKEY_SYM_SAVE => "Save"@,
            TermKeySym::TERMKEY_SYM_SUSPEND => "Suspend"@,
            TermKeySym::TERMKEY_SYM_UNDO => "Undo"@,
            TermKeySym::TERMKEY_SYM_KP0 => "KP0"@,
            TermKeySym::TERMKEY_SYM_KP1 => "KP1"@,
            TermKeySym::TERMKEY_SYM_KP2 => "KP2"@,
            TermKeySym::TERMKEY_SYM_KP3 => "KP3"@,
            TermKeySym::TERMKEY_SYM_KP4 => "KP4"@,
            TermKeySym::TERMKEY_SYM_KP5 => "KP5"@,
            TermKeySym::TERMKEY_SYM_KP6 => "KP6"@,
            TermKeySym::TERMKEY_SYM_KP7 => "KP7"@,
            TermKeySym::TERMKEY_SYM_KP8 => "KP8"@,
            TermKeySym::TERMKEY_SYM_KP9 => "KP9"@,
            TermKeySym::TERMKEY_SYM_KPENTER => "KPEnter"@,
            TermKeySym::TERMKEY_SYM_KPPLUS => "KPPlus"@,
            TermKeySym::TERMKEY_SYM_KPMINUS => "KPMinus"@,
            TermKeySym::TERMKEY_SYM_KPMULT => "KPMult"@,
            TermKeySym::TERMKEY_SYM_KPDIV => "KPDiv"@,
            TermKeySym::TERMKEY_SYM_KPCOMMA => "KPComma"@,
            TermKeySym::TERMKEY_SYM_KPPERIOD => "KPPeriod"@,
            TermKeySym::TERMKEY_SYM_KPEQUALS => "KPEquals"@,
        }
    }

    /// The position of this symbol in the table.
    pub fn index(&self) -> (r: usize)
        ensures
            r == self.spec_index(),
            r < SYM_COUNT,
    {
        match self {
            TermKeySym::TERMKEY_SYM_UNKNOWN => 0,
            TermKeySym::TERMKEY_SYM_NONE => 1,
            TermKeySym::TERMKEY_SYM_BACKSPACE => 2,
            TermKeySym::TERMKEY_SYM_TAB => 3,
            TermKeySym::TERMKEY_SYM_ENTER => 4,
            TermKeySym::TERMKEY_SYM_ESCAPE => 5,
            TermKeySym::TERMKEY_SYM_SPACE => 6,
            TermKeySym::TERMKEY_SYM_DEL => 7,
            TermKeySym::TERMKEY_SYM_UP => 8,
            TermKeySym::TERMKEY_SYM_DOWN => 9,
            TermKeySym::TERMKEY_SYM_LEFT => 10,
            TermKeySym::TERMKEY_SYM_RIGHT => 11,
            TermKeySym::TERMKEY_SYM_BEGIN => 12,
            TermKeySym::TERMKEY_SYM_FIND => 13,
            TermKeySym::TERMKEY_SYM_INSERT => 14,
            TermKeySym::TERMKEY_SYM_DELETE => 15,
            TermKeySym::TERMKEY_SYM_SELECT => 16,
            TermKeySym::TERMKEY_SYM_PAGEUP => 17,
            TermKeySym::TERMKEY_SYM_PAGEDOWN => 18,
            TermKeySym::TERMKEY_SYM_HOME => 19,
            TermKeySym::TERMKEY_SYM_END => 20,
            TermKeySym::TERMKEY_SYM_CANCEL => 21,
            TermKeySym::TERMKEY_SYM_CLEAR => 22,
            TermKeySym::TERMKEY_SYM_CLOSE => 23,
            TermKeySym::TERMKEY_SYM_COMMAND => 24,
            TermKeySym::TERMKEY_SYM_COPY => 25,
            TermKeySym::TERMKEY_SYM_EXIT => 26,
            TermKeySym::TERMKEY_SYM_HELP => 27,
            TermKeySym::TERMKEY_SYM_MARK => 28,
            TermKeySym::TERMKEY_SYM_MESSAGE => 29,
            TermKeySym::TERMKEY_SYM_MOVE => 30,
            TermKeySym::TERMKEY_SYM_OPEN => 31,
            TermKeySym::TERMKEY_SYM_OPTIONS => 32,
            TermKeySym::TERMKEY_SYM_PRINT => 33,
            TermKeySym::TERMKEY_SYM_REDO => 34,
            TermKeySym::TERMKEY_SYM_REFERENCE => 35,
            TermKeySym::TERMKEY_SYM_REFRESH => 36,
            TermKeySym::TERMKEY_SYM_REPLACE => 37,
            TermKeySym::TERMKEY_SYM_RESTART => 38,
            TermKeySym::TERMKEY_SYM_RESUME => 39,
            TermKeySym::TERMKEY_SYM_SAVE => 40,
            TermKeySym::TERMKEY_SYM_SUSPEND => 41,
            TermKeySym::TERMKEY_SYM_UNDO => 42,
            TermKeySym::TERMKEY_SYM_KP0 => 43,
            TermKeySym::TERMKEY_SYM_KP1 => 44,
            TermKeySym::TERMKEY_SYM_KP2 => 45,
            TermKeySym::TERMKEY_SYM_KP3 => 46,
            TermKeySym::TERMKEY_SYM_KP4 => 47,
            TermKeySym::TERMKEY_SYM_KP5 => 48,
            TermKeySym::TERMKEY_SYM_KP6 => 49,
            TermKeySym::TERMKEY_SYM_KP7 => 50,
            TermKeySym::TERMKEY_SYM_KP8 => 51,
            TermKeySym::TERMKEY_SYM_KP9 => 52,
            TermKeySym::TERMKEY_SYM_KPENTER => 53,
            TermKeySym::TERMKEY_SYM_KPPLUS => 54,
            TermKeySym::TERMKEY_SYM_KPMINUS => 55,
            TermKeySym::TERMKEY_SYM_KPMULT => 56,
            TermKeySym::TERMKEY_SYM_KPDIV => 57,
            TermKeySym::TERMKEY_SYM_KPCOMMA => 58,
            TermKeySym::TERMKEY_SYM_KPPERIOD => 59,
            TermKeySym::TERMKEY_SYM_KPEQUALS => 60,
        }
    }
}

/// The symbol stored at position `i` of the table.
pub fn sym_from_index(i: usize) -> (r: TermKeySym)
    requires
        i < SYM_COUNT,
    ensures
        r.spec_index() == i,
{
    match i {
        0 => TermKeySym::TERMKEY_SYM_UNKNOWN,
        1 => TermKeySym::TERMKEY_SYM_NONE,
        2 => TermKeySym::TERMKEY_SYM_BACKSPACE,
        3 => TermKeySym::TERMKEY_SYM_TAB,
        4 => TermKeySym::TERMKEY_SYM_ENTER,
        5 => TermKeySym::TERMKEY_SYM_ESCAPE,
        6 => TermKeySym::TERMKEY_SYM_SPACE,
        7 => TermKeySym::TERMKEY_SYM_DEL,
        8 => TermKeySym::TERMKEY_SYM_UP,
        9 => TermKeySym::TERMKEY_SYM_DOWN,
        10 => TermKeySym::TERMKEY_SYM_LEFT,
        11 => TermKeySym::TERMKEY_SYM_RIGHT,
        12 => TermKeySym::TERMKEY_SYM_BEGIN,
        13 => TermKeySym::TERMKEY_SYM_FIND,
        14 => TermKeySym::TERMKEY_SYM_INSERT,
        15 => TermKeySym::TERMKEY_SYM_DELETE,
        16 => TermKeySym::TERMKEY_SYM_SELECT,
        17 => TermKeySym::TERMKEY_SYM_PAGEUP,
        18 => TermKeySym::TERMKEY_SYM_PAGEDOWN,
        19 => TermKeySym::TERMKEY_SYM_HOME,
        20 => TermKeySym::TERMKEY_SYM_END,
        21 => TermKeySym::TERMKEY_SYM_CANCEL,
        22 => TermKeySym::TERMKEY_SYM_CLEAR,
        23 => TermKeySym::TERMKEY_SYM_CLOSE,
        24 => TermKeySym::TERMKEY_SYM_COMMAND,
        25 => TermKeySym::TERMKEY_SYM_COPY,
        26 => TermKeySym::TERMKEY_SYM_EXIT,
        27 => TermKeySym::TERMKEY_SYM_HELP,
        28 => TermKeySym::TERMKEY_SYM_MARK,
        29 => TermKeySym::TERMKEY_SYM_MESSAGE,
        30 => TermKeySym::TERMKEY_SYM_MOVE,
        31 => TermKeySym::TERMKEY_SYM_OPEN,
        32 => TermKeySym::TERMKEY_SYM_OPTIONS,
        33 => TermKeySym::TERMKEY_SYM_PRINT,
        34 => TermKeySym::TERMKEY_SYM_REDO,
        35 => TermKeySym::TERMKEY_SYM_REFERENCE,
        36 => TermKeySym::TERMKEY_SYM_REFRESH,
        37 => TermKeySym::TERMKEY_SYM_REPLACE,
        38 => TermKeySym::TERMKEY_SYM_RESTART,
        39 => TermKeySym::TERMKEY_SYM_RESUME,
        40 => TermKeySym::TERMKEY_SYM_SAVE,
        41 => TermKeySym::TERMKEY_SYM_SUSPEND,
        42 => TermKeySym::TERMKEY_SYM_UNDO,
        43 => TermKeySym::TERMKEY_SYM_KP0,
        44 => TermKeySym::TERMKEY_SYM_KP1,
        45 => TermKeySym::TERMKEY_SYM_KP2,
        46 => TermKeySym::TERMKEY_SYM_KP3,
        47 => TermKeySym::TERMKEY_SYM_KP4,
        48 => TermKeySym::TERMKEY_SYM_KP5,
        49 => TermKeySym::TERMKEY_SYM_KP6,
        50 => TermKeySym::TERMKEY_SYM_KP7,
        51 => TermKeySym::TERMKEY_SYM_KP8,
        52 => TermKeySym::TERMKEY_SYM_KP9,
        53 => TermKeySym::TERMKEY_SYM_KPENTER,
        54 => TermKeySym::TERMKEY_SYM_KPPLUS,
        55 => TermKeySym::TERMKEY_SYM_KPMINUS,
        56 => TermKeySym::TERMKEY_SYM_KPMULT,
        57 => TermKeySym::TERMKEY_SYM_KPDIV,
        58 => TermKeySym::TERMKEY_SYM_KPCOMMA,
        59 => TermKeySym::TERMKEY_SYM_KPPERIOD,
        _ => TermKeySym::TERMKEY_SYM_KPEQUALS,
    }
}

/// The canonical display name of a symbol, as a string slice.
pub fn keyname_str(sym: TermKeySym) -> (r: &'static str)
    ensures
        r@ == sym.spec_name(),
{
    match sym {
        TermKeySym::TERMKEY_SYM_UNKNOWN => "UNKNOWN",
        TermKeySym::TERMKEY_SYM_NONE => "NONE",
        TermKeySym::TERMKEY_SYM_BACKSPACE => "Backspace",
        TermKeySym::TERMKEY_SYM_TAB => "Tab",
        TermKeySym::TERMKEY_SYM_ENTER => "Enter",
        TermKeySym::TERMKEY_SYM_ESCAPE => "Escape",
        TermKeySym::TERMKEY_SYM_SPACE => "Space",
        TermKeySym::TERMKEY_SYM_DEL => "DEL",
        TermKeySym::TERMKEY_SYM_UP => "Up",
        TermKeySym::TERMKEY_SYM_DOWN => "Down",
        TermKeySym::TERMKEY_SYM_LEFT => "Left",
        TermKeySym::TERMKEY_SYM_RIGHT => "Right",
        TermKeySym::TERMKEY_SYM_BEGIN => "Begin",
        TermKeySym::TERMKEY_SYM_FIND => "Find",
        TermKeySym::TERMKEY_SYM_INSERT => "Insert",
        TermKeySym::TERMKEY_SYM_DELETE => "Delete",
        TermKeySym::TERMKEY_SYM_SELECT => "Select",
        TermKeySym::TERMKEY_SYM_PAGEUP => "PageUp",
        TermKeySym::TERMKEY_SYM_PAGEDOWN => "PageDown",
        TermKeySym::TERMKEY_SYM_HOME => "Home",
        TermKeySym::TERMKEY_SYM_END => "End",
        TermKeySym::TERMKEY_SYM_CANCEL => "Cancel",
        TermKeySym::TERMKEY_SYM_CLEAR => "Clear",
        TermKeySym::TERMKEY_SYM_CLOSE => "Close",
        TermKeySym::TERMKEY_SYM_COMMAND => "Command",
        TermKeySym::TERMKEY_SYM_COPY => "Copy",
        TermKeySym::TERMKEY_SYM_EXIT => "Exit",
        TermKeySym::TERMKEY_SYM_HELP => "Help",
        TermKeySym::TERMKEY_SYM_MARK => "Mark",
        TermKeySym::TERMKEY_SYM_MESSAGE => "Message",
        TermKeySym::TERMKEY_SYM_MOVE => "Move",
        TermKeySym::TERMKEY_SYM_OPEN => "Open",
        TermKeySym::TERMKEY_SYM_OPTIONS => "Options",
        TermKeySym::TERMKEY_SYM_PRINT => "Print",
        TermKeySym::TERMKEY_SYM_REDO => "Redo",
        TermKeySym::TERMKEY_SYM_REFERENCE => "Reference",
        TermKeySym::TERMKEY_SYM_REFRESH => "Refresh",
        TermKeySym::TERMKEY_SYM_REPLACE => "Replace",
        TermKeySym::TERMKEY_SYM_RESTART => "Restart",
        TermKeySym::TERMKEY_SYM_RESUME => "Resume",
        TermKeySym::TERMKEY_SYM_SAVE => "Save",
        TermKeySym::TERMKEY_SYM_SUSPEND => "Suspend",
        TermKeySym::TERMKEY_SYM_UNDO => "Undo",
        TermKeySym::TERMKEY_SYM_KP0 => "KP0",
        TermKeySym::TERMKEY_SYM_KP1 => "KP1",
        TermKeySym::TERMKEY_SYM_KP2 => "KP2",
        TermKeySym::TERMKEY_SYM_KP3 => "KP3",
        TermKeySym::TERMKEY_SYM_KP4 => "KP4",
        TermKeySym::TERMKEY_SYM_KP5 => "KP5",
        TermKeySym::TERMKEY_SYM_KP6 => "KP6",
        TermKeySym::TERMKEY_SYM_KP7 => "KP7",
        TermKeySym::TERMKEY_SYM_KP8 => "KP8",
        TermKeySym::TERMKEY_SYM_KP9 => "KP9",
        TermKeySym::TERMKEY_SYM_KPENTER => "KPEnter",
        TermKeySym::TERMKEY_SYM_KPPLUS => "KPPlus",
        TermKeySym::TERMKEY_SYM_KPMINUS => "KPMinus",
        TermKeySym::TERMKEY_SYM_KPMULT => "KPMult",
        TermKeySym::TERMKEY_SYM_KPDIV => "KPDiv",
        TermKeySym::TERMKEY_SYM_KPCOMMA => "KPComma",
        TermKeySym::TERMKEY_SYM_KPPERIOD => "KPPeriod",
        TermKeySym::TERMKEY_SYM_KPEQUALS => "KPEquals",
    }
}

} // verus!

verus! {

/// The symbol stored at position `i` of the table, as a
/// specification-level function.
pub open spec fn spec_sym_at(i: int) -> TermKeySym {
    if i == 0 { TermKeySym::TERMKEY_SYM_UNKNOWN }
    else if i == 1 { TermKeySym::TERMKEY_SYM_NONE }
    else if i == 2 { TermKeySym::TERMKEY_SYM_BACKSPACE }
    else if i == 3 { TermKeySym::TERMKEY_SYM_TAB }
    else if i == 4 { TermKeySym::TERMKEY_SYM_ENTER }
    else if i == 5 { TermKeySym::TERMKEY_SYM_ESCAPE }
    else if i == 6 { TermKeySym::TERMKEY_SYM_SPACE }
    else if i == 7 { TermKeySym::TERMKEY_SYM_DEL }
    else if i == 8 { TermKeySym::TERMKEY_SYM_UP }
    else if i == 9 { TermKeySym::TERMKEY_SYM_DOWN }
    else if i == 10 { TermKeySym::TERMKEY_SYM_LEFT }
    else if i == 11 { TermKeySym::TERMKEY_SYM_RIGHT }
    else if i == 12 { TermKeySym::TERMKEY_SYM_BEGIN }
    else if i == 13 { TermKeySym::TERMKEY_SYM_FIND }
    else if i == 14 { TermKeySym::TERMKEY_SYM_INSERT }
    else if i == 15 { TermKeySym::TERMKEY_SYM_DELETE }
    else if i == 16 { TermKeySym::TERMKEY_SYM_SELECT }
    else if i == 17 { TermKeySym::TERMKEY_SYM_PAGEUP }
    else if i == 18 { TermKeySym::TERMKEY_SYM_PAGEDOWN }
    else if i == 19 { TermKeySym::TERMKEY_SYM_HOME }
    else if i == 20 { TermKeySym::TERMKEY_SYM_END }
    else if i == 21 { TermKeySym::TERMKEY_SYM_CANCEL }
    else if i == 22 { TermKeySym::TERMKEY_SYM_CLEAR }
    else if i == 23 { TermKeySym::TERMKEY_SYM_CLOSE }
    else if i == 24 { TermKeySym::TERMKEY_SYM_COMMAND }
    else if i == 25 { TermKeySym::TERMKEY_SYM_COPY }
    else if i == 26 { TermKeySym::TERMKEY_SYM_EXIT }
    else if i == 27 { TermKeySym::TERMKEY_SYM_HELP }
    else if i == 28 { TermKeySym::TERMKEY_SYM_MARK }
    else if i == 29 { TermKeySym::TERMKEY_SYM_MESSAGE }
    else if i == 30 { TermKeySym::TERMKEY_SYM_MOVE }
    else if i == 31 { TermKeySym::TERMKEY_SYM_OPEN }
    else if i == 32 { TermKeySym::TERMKEY_SYM_OPTIONS }
    else if i == 33 { TermKeySym::TERMKEY_SYM_PRINT }
    else if i == 34 { TermKeySym::TERMKEY_SYM_REDO }
    else if i == 35 { TermKeySym::TERMKEY_SYM_REFERENCE }
    else if i == 36 { TermKeySym::TERMKEY_SYM_REFRESH }
    else if i == 37 { TermKeySym::TERMKEY_SYM_REPLACE }
    else if i == 38 { TermKeySym::TERMKEY_SYM_RESTART }
    else if i == 39 { TermKeySym::TERMKEY_SYM_RESUME }
    else if i == 40 { TermKeySym::TERMKEY_SYM_SAVE }
    else if i == 41 { TermKeySym::TERMKEY_SYM_SUSPEND }
    else if i == 42 { TermKeySym::TERMKEY_SYM_UNDO }
    else if i == 43 { TermKeySym::TERMKEY_SYM_KP0 }
    else if i == 44 { TermKeySym::TERMKEY_SYM_KP1 }
    else if i == 45 { TermKeySym::TERMKEY_SYM_KP2 }
    else if i == 46 { TermKeySym::TERMKEY_SYM_KP3 }
    else if i == 47 { TermKeySym::TERMKEY_SYM_KP4 }
    else if i == 48 { TermKeySym::TERMKEY_SYM_KP5 }
    else if i == 49 { TermKeySym::TERMKEY_SYM_KP6 }
    else if i == 50 { TermKeySym::TERMKEY_SYM_KP7 }
    else if i == 51 { TermKeySym::TERMKEY_SYM_KP8 }
    else if i == 52 { TermKeySym::TERMKEY_SYM_KP9 }
    else if i == 53 { TermKeySym::TERMKEY_SYM_KPENTER }
    else if i == 54 { TermKeySym::TERMKEY_SYM_KPPLUS }
    else if i == 55 { TermKeySym::TERMKEY_SYM_KPMINUS }
    else if i == 56 { TermKeySym::TERMKEY_SYM_KPMULT }
    else if i == 57 { TermKeySym::TERMKEY_SYM_KPDIV }
    else if i == 58 { TermKeySym::TERMKEY_SYM_KPCOMMA }
    else if i == 59 { TermKeySym::TERMKEY_SYM_KPPERIOD }
    else { TermKeySym::TERMKEY_SYM_KPEQUALS }
}

/// The table position and the table lookup invert each other.
pub proof fn lemma_sym_at_index(i: int)
    requires
        0 <= i < SYM_COUNT,
    ensures
        spec_sym_at(i).spec_index() == i,
{
}

/// The symbol stored at position `i` of the table.
pub fn sym_at(i: usize) -> (r: TermKeySym)
    requires
        i < SYM_COUNT,
    ensures
        r == spec_sym_at(i as int),
        r.spec_index() == i,
{
    let r = sym_from_index(i);
    proof {
        lemma_sym_at_index(i as int);
        assert(r.spec_index() == spec_sym_at(i as int).spec_index());
    }
    r
}

} // verus!
