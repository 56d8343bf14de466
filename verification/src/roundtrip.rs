//! The formatting round trip: parsing what the formatter produced
//! gives back the same key.
//!
//! The proofs rest on a few shape facts about the name table: key
//! names are at least two characters long and never contain a
//! separator, a bracket or a caret, and never carry a digit in their
//! second position.

use vstd::prelude::*;

use crate::event::KeyDesc;
use crate::event::TermKeyEvent;
use crate::event::Utf8Char;
use crate::flags::TermKeyFormat;
use crate::flags::X_TermKey_KeyMod;
use crate::flags::MOD_ALT;
use crate::flags::MOD_CTRL;
use crate::flags::MOD_SHIFT;
use crate::format::is_lower;
use crate::format::is_upper;
use crate::format::lower_char;
use crate::format::spec_alt_name;
use crate::format::spec_camel;
use crate::format::spec_ctrl_name;
use crate::format::spec_display_name;
use crate::format::spec_decimal;
use crate::format::spec_digit_char;
use crate::format::spec_format;
use crate::format::spec_format_core;
use crate::format::spec_mods_prefix;
use crate::format::spec_sep;
use crate::format::spec_shift_name;
use crate::format::caret_applies;
use crate::format::spec_wraps;
use crate::format::upper_char;
use crate::keysym::spec_sym_at;
use crate::keysym::TermKeySym;
use crate::keysym::SYM_COUNT;
use crate::parse::dec_val_chars;
use crate::parse::digit_run;
use crate::parse::is_digit_char;
use crate::parse::spec_lookup;
use crate::parse::spec_lookup_from;
use crate::parse::spec_parse;
use crate::parse::spec_parse_base;
use crate::parse::spec_parse_mods;
use crate::parse::spec_parse_plain;
use crate::parse::with_mods;

verus! {

/// Whether `c` may appear in a table key name: no separators,
/// brackets, carets or semicolons, so a name can never collide with
/// the punctuation the formatter emits around it.
pub open spec fn plain_name_char(c: char) -> bool {
    c != '-' && c != ' ' && c != '>' && c != '<' && c != '^'
}

/// Every table name is at least two characters of plain name
/// characters, with no digit in second position; it starts with an
/// upper-case letter, and only the keypad, delete and paging names
/// carry another upper-case letter inside.
pub proof fn lemma_name_shape(i: int)
    requires
        2 <= i < SYM_COUNT,
    ensures
        spec_sym_at(i).spec_name().len() >= 2,
        forall|j: int|
            0 <= j < spec_sym_at(i).spec_name().len() ==> plain_name_char(
                #[trigger] spec_sym_at(i).spec_name()[j],
            ),
        !is_digit_char(spec_sym_at(i).spec_name()[1]),
        is_upper(spec_sym_at(i).spec_name()[0]),
        spec_sym_at(i).spec_name()[0] == 'K' || spec_sym_at(i).spec_name()[0] == 'D'
            || spec_sym_at(i).spec_name()[0] == 'P' || (forall|j: int|
            1 <= j < spec_sym_at(i).spec_name().len() ==> !is_upper(
                #[trigger] spec_sym_at(i).spec_name()[j],
            )),
{
        if i == 2 {
            reveal_strlit("Backspace");
            assert(spec_sym_at(2).spec_name() == "Backspace"@);
            assert("Backspace"@.len() == 9);
            assert(forall|j: int| 0 <= j < "Backspace"@.len() ==> plain_name_char(#[trigger] "Backspace"@[j]));
            assert(!is_digit_char("Backspace"@[1]));
            assert(is_upper("Backspace"@[0]));
            assert(forall|j: int| 1 <= j < "Backspace"@.len() ==> !is_upper(#[trigger] "Backspace"@[j]));
        }
        if i == 3 {
            reveal_strlit("Tab");
            assert(spec_sym_at(3).spec_name() == "Tab"@);
            assert("Tab"@.len() == 3);
            assert(forall|j: int| 0 <= j < "Tab"@.len() ==> plain_name_char(#[trigger] "Tab"@[j]));
            assert(!is_digit_char("Tab"@[1]));
            assert(is_upper("Tab"@[0]));
            assert(forall|j: int| 1 <= j < "Tab"@.len() ==> !is_upper(#[trigger] "Tab"@[j]));
        }
        if i == 4 {
            reveal_strlit("Enter");
            assert(spec_sym_at(4).spec_name() == "Enter"@);
            assert("Enter"@.len() == 5);
            assert(forall|j: int| 0 <= j < "Enter"@.len() ==> plain_name_char(#[trigger] "Enter"@[j]));
            assert(!is_digit_char("Enter"@[1]));
            assert(is_upper("Enter"@[0]));
            assert(forall|j: int| 1 <= j < "Enter"@.len() ==> !is_upper(#[trigger] "Enter"@[j]));
        }
        if i == 5 {
            reveal_strlit("Escape");
            assert(spec_sym_at(5).spec_name() == "Escape"@);
            assert("Escape"@.len() == 6);
            assert(forall|j: int| 0 <= j < "Escape"@.len() ==> plain_name_char(#[trigger] "Escape"@[j]));
            assert(!is_digit_char("Escape"@[1]));
            assert(is_upper("Escape"@[0]));
            assert(forall|j: int| 1 <= j < "Escape"@.len() ==> !is_upper(#[trigger] "Escape"@[j]));
        }
        if i == 6 {
            reveal_strlit("Space");
            assert(spec_sym_at(6).spec_name() == "Space"@);
            assert("Space"@.len() == 5);
            assert(forall|j: int| 0 <= j < "Space"@.len() ==> plain_name_char(#[trigger] "Space"@[j]));
            assert(!is_digit_char("Space"@[1]));
            assert(is_upper("Space"@[0]));
            assert(forall|j: int| 1 <= j < "Space"@.len() ==> !is_upper(#[trigger] "Space"@[j]));
        }
        if i == 7 {
            reveal_strlit("DEL");
            assert(spec_sym_at(7).spec_name() == "DEL"@);
            assert("DEL"@.len() == 3);
            assert(forall|j: int| 0 <= j < "DEL"@.len() ==> plain_name_char(#[trigger] "DEL"@[j]));
            assert(!is_digit_char("DEL"@[1]));
            assert(is_upper("DEL"@[0]));
        }
        if i == 8 {
            reveal_strlit("Up");
            assert(spec_sym_at(8).spec_name() == "Up"@);
            assert("Up"@.len() == 2);
            assert(forall|j: int| 0 <= j < "Up"@.len() ==> plain_name_char(#[trigger] "Up"@[j]));
            assert(!is_digit_char("Up"@[1]));
            assert(is_upper("Up"@[0]));
            assert(forall|j: int| 1 <= j < "Up"@.len() ==> !is_upper(#[trigger] "Up"@[j]));
        }
        if i == 9 {
            reveal_strlit("Down");
            assert(spec_sym_at(9).spec_name() == "Down"@);
            assert("Down"@.len() == 4);
            assert(forall|j: int| 0 <= j < "Down"@.len() ==> plain_name_char(#[trigger] "Down"@[j]));
            assert(!is_digit_char("Down"@[1]));
            assert(is_upper("Down"@[0]));
            assert(forall|j: int| 1 <= j < "Down"@.len() ==> !is_upper(#[trigger] "Down"@[j]));
        }
        if i == 10 {
            reveal_strlit("Left");
            assert(spec_sym_at(10).spec_name() == "Left"@);
            assert("Left"@.len() == 4);
            assert(forall|j: int| 0 <= j < "Left"@.len() ==> plain_name_char(#[trigger] "Left"@[j]));
            assert(!is_digit_char("Left"@[1]));
            assert(is_upper("Left"@[0]));
            assert(forall|j: int| 1 <= j < "Left"@.len() ==> !is_upper(#[trigger] "Left"@[j]));
        }
        if i == 11 {
            reveal_strlit("Right");
            assert(spec_sym_at(11).spec_name() == "Right"@);
            assert("Right"@.len() == 5);
            assert(forall|j: int| 0 <= j < "Right"@.len() ==> plain_name_char(#[trigger] "Right"@[j]));
            assert(!is_digit_char("Right"@[1]));
            assert(is_upper("Right"@[0]));
            assert(forall|j: int| 1 <= j < "Right"@.len() ==> !is_upper(#[trigger] "Right"@[j]));
        }
        if i == 12 {
            reveal_strlit("Begin");
            assert(spec_sym_at(12).spec_name() == "Begin"@);
            assert("Begin"@.len() == 5);
            assert(forall|j: int| 0 <= j < "Begin"@.len() ==> plain_name_char(#[trigger] "Begin"@[j]));
            assert(!is_digit_char("Begin"@[1]));
            assert(is_upper("Begin"@[0]));
            assert(forall|j: int| 1 <= j < "Begin"@.len() ==> !is_upper(#[trigger] "Begin"@[j]));
        }
        if i == 13 {
            reveal_strlit("Find");
            assert(spec_sym_at(13).spec_name() == "Find"@);
            assert("Find"@.len() == 4);
            assert(forall|j: int| 0 <= j < "Find"@.len() ==> plain_name_char(#[trigger] "Find"@[j]));
            assert(!is_digit_char("Find"@[1]));
            assert(is_upper("Find"@[0]));
            assert(forall|j: int| 1 <= j < "Find"@.len() ==> !is_upper(#[trigger] "Find"@[j]));
        }
        if i == 14 {
            reveal_strlit("Insert");
            assert(spec_sym_at(14).spec_name() == "Insert"@);
            assert("Insert"@.len() == 6);
            assert(forall|j: int| 0 <= j < "Insert"@.len() ==> plain_name_char(#[trigger] "Insert"@[j]));
            assert(!is_digit_char("Insert"@[1]));
            assert(is_upper("Insert"@[0]));
            assert(forall|j: int| 1 <= j < "Insert"@.len() ==> !is_upper(#[trigger] "Insert"@[j]));
        }
        if i == 15 {
            reveal_strlit("Delete");
            assert(spec_sym_at(15).spec_name() == "Delete"@);
            assert("Delete"@.len() == 6);
            assert(forall|j: int| 0 <= j < "Delete"@.len() ==> plain_name_char(#[trigger] "Delete"@[j]));
            assert(!is_digit_char("Delete"@[1]));
            assert(is_upper("Delete"@[0]));
            assert(forall|j: int| 1 <= j < "Delete"@.len() ==> !is_upper(#[trigger] "Delete"@[j]));
        }
        if i == 16 {
            reveal_strlit("Select");
            assert(spec_sym_at(16).spec_name() == "Select"@);
            assert("Select"@.len() == 6);
            assert(forall|j: int| 0 <= j < "Select"@.len() ==> plain_name_char(#[trigger] "Select"@[j]));
            assert(!is_digit_char("Select"@[1]));
            assert(is_upper("Select"@[0]));
            assert(forall|j: int| 1 <= j < "Select"@.len() ==> !is_upper(#[trigger] "Select"@[j]));
        }
        if i == 17 {
            reveal_strlit("PageUp");
            assert(spec_sym_at(17).spec_name() == "PageUp"@);
            assert("PageUp"@.len() == 6);
            assert(forall|j: int| 0 <= j < "PageUp"@.len() ==> plain_name_char(#[trigger] "PageUp"@[j]));
            assert(!is_digit_char("PageUp"@[1]));
            assert(is_upper("PageUp"@[0]));
        }
        if i == 18 {
            reveal_strlit("PageDown");
            assert(spec_sym_at(18).spec_name() == "PageDown"@);
            assert("PageDown"@.len() == 8);
            assert(forall|j: int| 0 <= j < "PageDown"@.len() ==> plain_name_char(#[trigger] "PageDown"@[j]));
            assert(!is_digit_char("PageDown"@[1]));
            assert(is_upper("PageDown"@[0]));
        }
        if i == 19 {
            reveal_strlit("Home");
            assert(spec_sym_at(19).spec_name() == "Home"@);
            assert("Home"@.len() == 4);
            assert(forall|j: int| 0 <= j < "Home"@.len() ==> plain_name_char(#[trigger] "Home"@[j]));
            assert(!is_digit_char("Home"@[1]));
            assert(is_upper("Home"@[0]));
            assert(forall|j: int| 1 <= j < "Home"@.len() ==> !is_upper(#[trigger] "Home"@[j]));
        }
        if i == 20 {
            reveal_strlit("End");
            assert(spec_sym_at(20).spec_name() == "End"@);
            assert("End"@.len() == 3);
            assert(forall|j: int| 0 <= j < "End"@.len() ==> plain_name_char(#[trigger] "End"@[j]));
            assert(!is_digit_char("End"@[1]));
            assert(is_upper("End"@[0]));
            assert(forall|j: int| 1 <= j < "End"@.len() ==> !is_upper(#[trigger] "End"@[j]));
        }
        if i == 21 {
            reveal_strlit("Cancel");
            assert(spec_sym_at(21).spec_name() == "Cancel"@);
            assert("Cancel"@.len() == 6);
            assert(forall|j: int| 0 <= j < "Cancel"@.len() ==> plain_name_char(#[trigger] "Cancel"@[j]));
            assert(!is_digit_char("Cancel"@[1]));
            assert(is_upper("Cancel"@[0]));
            assert(forall|j: int| 1 <= j < "Cancel"@.len() ==> !is_upper(#[trigger] "Cancel"@[j]));
        }
        if i == 22 {
            reveal_strlit("Clear");
            assert(spec_sym_at(22).spec_name() == "Clear"@);
            assert("Clear"@.len() == 5);
            assert(forall|j: int| 0 <= j < "Clear"@.len() ==> plain_name_char(#[trigger] "Clear"@[j]));
            assert(!is_digit_char("Clear"@[1]));
            assert(is_upper("Clear"@[0]));
            assert(forall|j: int| 1 <= j < "Clear"@.len() ==> !is_upper(#[trigger] "Clear"@[j]));
        }
        if i == 23 {
            reveal_strlit("Close");
            assert(spec_sym_at(23).spec_name() == "Close"@);
            assert("Close"@.len() == 5);
            assert(forall|j: int| 0 <= j < "Close"@.len() ==> plain_name_char(#[trigger] "Close"@[j]));
            assert(!is_digit_char("Close"@[1]));
            assert(is_upper("Close"@[0]));
            assert(forall|j: int| 1 <= j < "Close"@.len() ==> !is_upper(#[trigger] "Close"@[j]));
        }
        if i == 24 {
            reveal_strlit("Command");
            assert(spec_sym_at(24).spec_name() == "Command"@);
            assert("Command"@.len() == 7);
            assert(forall|j: int| 0 <= j < "Command"@.len() ==> plain_name_char(#[trigger] "Command"@[j]));
            assert(!is_digit_char("Command"@[1]));
            assert(is_upper("Command"@[0]));
            assert(forall|j: int| 1 <= j < "Command"@.len() ==> !is_upper(#[trigger] "Command"@[j]));
        }
        if i == 25 {
            reveal_strlit("Copy");
            assert(spec_sym_at(25).spec_name() == "Copy"@);
            assert("Copy"@.len() == 4);
            assert(forall|j: int| 0 <= j < "Copy"@.len() ==> plain_name_char(#[trigger] "Copy"@[j]));
            assert(!is_digit_char("Copy"@[1]));
            assert(is_upper("Copy"@[0]));
            assert(forall|j: int| 1 <= j < "Copy"@.len() ==> !is_upper(#[trigger] "Copy"@[j]));
        }
        if i == 26 {
            reveal_strlit("Exit");
            assert(spec_sym_at(26).spec_name() == "Exit"@);
            assert("Exit"@.len() == 4);
            assert(forall|j: int| 0 <= j < "Exit"@.len() ==> plain_name_char(#[trigger] "Exit"@[j]));
            assert(!is_digit_char("Exit"@[1]));
            assert(is_upper("Exit"@[0]));
            assert(forall|j: int| 1 <= j < "Exit"@.len() ==> !is_upper(#[trigger] "Exit"@[j]));
        }
        if i == 27 {
            reveal_strlit("Help");
            assert(spec_sym_at(27).spec_name() == "Help"@);
            assert("Help"@.len() == 4);
            assert(forall|j: int| 0 <= j < "Help"@.len() ==> plain_name_char(#[trigger] "Help"@[j]));
            assert(!is_digit_char("Help"@[1]));
            assert(is_upper("Help"@[0]));
            assert(forall|j: int| 1 <= j < "Help"@.len() ==> !is_upper(#[trigger] "Help"@[j]));
        }
        if i == 28 {
            reveal_strlit("Mark");
            assert(spec_sym_at(28).spec_name() == "Mark"@);
            assert("Mark"@.len() == 4);
            assert(forall|j: int| 0 <= j < "Mark"@.len() ==> plain_name_char(#[trigger] "Mark"@[j]));
            assert(!is_digit_char("Mark"@[1]));
            assert(is_upper("Mark"@[0]));
            assert(forall|j: int| 1 <= j < "Mark"@.len() ==> !is_upper(#[trigger] "Mark"@[j]));
        }
        if i == 29 {
            reveal_strlit("Message");
            assert(spec_sym_at(29).spec_name() == "Message"@);
            assert("Message"@.len() == 7);
            assert(forall|j: int| 0 <= j < "Message"@.len() ==> plain_name_char(#[trigger] "Message"@[j]));
            assert(!is_digit_char("Message"@[1]));
            assert(is_upper("Message"@[0]));
            assert(forall|j: int| 1 <= j < "Message"@.len() ==> !is_upper(#[trigger] "Message"@[j]));
        }
        if i == 30 {
            reveal_strlit("Move");
            assert(spec_sym_at(30).spec_name() == "Move"@);
            assert("Move"@.len() == 4);
            assert(forall|j: int| 0 <= j < "Move"@.len() ==> plain_name_char(#[trigger] "Move"@[j]));
            assert(!is_digit_char("Move"@[1]));
            assert(is_upper("Move"@[0]));
            assert(forall|j: int| 1 <= j < "Move"@.len() ==> !is_upper(#[trigger] "Move"@[j]));
        }
        if i == 31 {
            reveal_strlit("Open");
            assert(spec_sym_at(31).spec_name() == "Open"@);
            assert("Open"@.len() == 4);
            assert(forall|j: int| 0 <= j < "Open"@.len() ==> plain_name_char(#[trigger] "Open"@[j]));
            assert(!is_digit_char("Open"@[1]));
            assert(is_upper("Open"@[0]));
            assert(forall|j: int| 1 <= j < "Open"@.len() ==> !is_upper(#[trigger] "Open"@[j]));
        }
        if i == 32 {
            reveal_strlit("Options");
            assert(spec_sym_at(32).spec_name() == "Options"@);
            assert("Options"@.len() == 7);
            assert(forall|j: int| 0 <= j < "Options"@.len() ==> plain_name_char(#[trigger] "Options"@[j]));
            assert(!is_digit_char("Options"@[1]));
            assert(is_upper("Options"@[0]));
            assert(forall|j: int| 1 <= j < "Options"@.len() ==> !is_upper(#[trigger] "Options"@[j]));
        }
        if i == 33 {
            reveal_strlit("Print");
            assert(spec_sym_at(33).spec_name() == "Print"@);
            assert("Print"@.len() == 5);
            assert(forall|j: int| 0 <= j < "Print"@.len() ==> plain_name_char(#[trigger] "Print"@[j]));
            assert(!is_digit_char("Print"@[1]));
            assert(is_upper("Print"@[0]));
            assert(forall|j: int| 1 <= j < "Print"@.len() ==> !is_upper(#[trigger] "Print"@[j]));
        }
        if i == 34 {
            reveal_strlit("Redo");
            assert(spec_sym_at(34).spec_name() == "Redo"@);
            assert("Redo"@.len() == 4);
            assert(forall|j: int| 0 <= j < "Redo"@.len() ==> plain_name_char(#[trigger] "Redo"@[j]));
            assert(!is_digit_char("Redo"@[1]));
            assert(is_upper("Redo"@[0]));
            assert(forall|j: int| 1 <= j < "Redo"@.len() ==> !is_upper(#[trigger] "Redo"@[j]));
        }
        if i == 35 {
            reveal_strlit("Reference");
            assert(spec_sym_at(35).spec_name() == "Reference"@);
            assert("Reference"@.len() == 9);
            assert(forall|j: int| 0 <= j < "Reference"@.len() ==> plain_name_char(#[trigger] "Reference"@[j]));
            assert(!is_digit_char("Reference"@[1]));
            assert(is_upper("Reference"@[0]));
            assert(forall|j: int| 1 <= j < "Reference"@.len() ==> !is_upper(#[trigger] "Reference"@[j]));
        }
        if i == 36 {
            reveal_strlit("Refresh");
            assert(spec_sym_at(36).spec_name() == "Refresh"@);
            assert("Refresh"@.len() == 7);
            assert(forall|j: int| 0 <= j < "Refresh"@.len() ==> plain_name_char(#[trigger] "Refresh"@[j]));
            assert(!is_digit_char("Refresh"@[1]));
            assert(is_upper("Refresh"@[0]));
            assert(forall|j: int| 1 <= j < "Refresh"@.len() ==> !is_upper(#[trigger] "Refresh"@[j]));
        }
        if i == 37 {
            reveal_strlit("Replace");
            assert(spec_sym_at(37).spec_name() == "Replace"@);
            assert("Replace"@.len() == 7);
            assert(forall|j: int| 0 <= j < "Replace"@.len() ==> plain_name_char(#[trigger] "Replace"@[j]));
            assert(!is_digit_char("Replace"@[1]));
            assert(is_upper("Replace"@[0]));
            assert(forall|j: int| 1 <= j < "Replace"@.len() ==> !is_upper(#[trigger] "Replace"@[j]));
        }
        if i == 38 {
            reveal_strlit("Restart");
            assert(spec_sym_at(38).spec_name() == "Restart"@);
            assert("Restart"@.len() == 7);
            assert(forall|j: int| 0 <= j < "Restart"@.len() ==> plain_name_char(#[trigger] "Restart"@[j]));
            assert(!is_digit_char("Restart"@[1]));
            assert(is_upper("Restart"@[0]));
            assert(forall|j: int| 1 <= j < "Restart"@.len() ==> !is_upper(#[trigger] "Restart"@[j]));
        }
        if i == 39 {
            reveal_strlit("Resume");
            assert(spec_sym_at(39).spec_name() == "Resume"@);
            assert("Resume"@.len() == 6);
            assert(forall|j: int| 0 <= j < "Resume"@.len() ==> plain_name_char(#[trigger] "Resume"@[j]));
            assert(!is_digit_char("Resume"@[1]));
            assert(is_upper("Resume"@[0]));
            assert(forall|j: int| 1 <= j < "Resume"@.len() ==> !is_upper(#[trigger] "Resume"@[j]));
        }
        if i == 40 {
            reveal_strlit("Save");
            assert(spec_sym_at(40).spec_name() == "Save"@);
            assert("Save"@.len() == 4);
            assert(forall|j: int| 0 <= j < "Save"@.len() ==> plain_name_char(#[trigger] "Save"@[j]));
            assert(!is_digit_char("Save"@[1]));
            assert(is_upper("Save"@[0]));
            assert(forall|j: int| 1 <= j < "Save"@.len() ==> !is_upper(#[trigger] "Save"@[j]));
        }
        if i == 41 {
            reveal_strlit("Suspend");
            assert(spec_sym_at(41).spec_name() == "Suspend"@);
            assert("Suspend"@.len() == 7);
            assert(forall|j: int| 0 <= j < "Suspend"@.len() ==> plain_name_char(#[trigger] "Suspend"@[j]));
            assert(!is_digit_char("Suspend"@[1]));
            assert(is_upper("Suspend"@[0]));
            assert(forall|j: int| 1 <= j < "Suspend"@.len() ==> !is_upper(#[trigger] "Suspend"@[j]));
        }
        if i == 42 {
            reveal_strlit("Undo");
            assert(spec_sym_at(42).spec_name() == "Undo"@);
            assert("Undo"@.len() == 4);
            assert(forall|j: int| 0 <= j < "Undo"@.len() ==> plain_name_char(#[trigger] "Undo"@[j]));
            assert(!is_digit_char("Undo"@[1]));
            assert(is_upper("Undo"@[0]));
            assert(forall|j: int| 1 <= j < "Undo"@.len() ==> !is_upper(#[trigger] "Undo"@[j]));
        }
        if i == 43 {
            reveal_strlit("KP0");
            assert(spec_sym_at(43).spec_name() == "KP0"@);
            assert("KP0"@.len() == 3);
            assert(forall|j: int| 0 <= j < "KP0"@.len() ==> plain_name_char(#[trigger] "KP0"@[j]));
            assert(!is_digit_char("KP0"@[1]));
            assert(is_upper("KP0"@[0]));
        }
        if i == 44 {
            reveal_strlit("KP1");
            assert(spec_sym_at(44).spec_name() == "KP1"@);
            assert("KP1"@.len() == 3);
            assert(forall|j: int| 0 <= j < "KP1"@.len() ==> plain_name_char(#[trigger] "KP1"@[j]));
            assert(!is_digit_char("KP1"@[1]));
            assert(is_upper("KP1"@[0]));
        }
        if i == 45 {
            reveal_strlit("KP2");
            assert(spec_sym_at(45).spec_name() == "KP2"@);
            assert("KP2"@.len() == 3);
            assert(forall|j: int| 0 <= j < "KP2"@.len() ==> plain_name_char(#[trigger] "KP2"@[j]));
            assert(!is_digit_char("KP2"@[1]));
            assert(is_upper("KP2"@[0]));
        }
        if i == 46 {
            reveal_strlit("KP3");
            assert(spec_sym_at(46).spec_name() == "KP3"@);
            assert("KP3"@.len() == 3);
            assert(forall|j: int| 0 <= j < "KP3"@.len() ==> plain_name_char(#[trigger] "KP3"@[j]));
            assert(!is_digit_char("KP3"@[1]));
            assert(is_upper("KP3"@[0]));
        }
        if i == 47 {
            reveal_strlit("KP4");
            assert(spec_sym_at(47).spec_name() == "KP4"@);
            assert("KP4"@.len() == 3);
            assert(forall|j: int| 0 <= j < "KP4"@.len() ==> plain_name_char(#[trigger] "KP4"@[j]));
            assert(!is_digit_char("KP4"@[1]));
            assert(is_upper("KP4"@[0]));
        }
        if i == 48 {
            reveal_strlit("KP5");
            assert(spec_sym_at(48).spec_name() == "KP5"@);
            assert("KP5"@.len() == 3);
            assert(forall|j: int| 0 <= j < "KP5"@.len() ==> plain_name_char(#[trigger] "KP5"@[j]));
            assert(!is_digit_char("KP5"@[1]));
            assert(is_upper("KP5"@[0]));
        }
        if i == 49 {
            reveal_strlit("KP6");
            assert(spec_sym_at(49).spec_name() == "KP6"@);
            assert("KP6"@.len() == 3);
            assert(forall|j: int| 0 <= j < "KP6"@.len() ==> plain_name_char(#[trigger] "KP6"@[j]));
            assert(!is_digit_char("KP6"@[1]));
            assert(is_upper("KP6"@[0]));
        }
        if i == 50 {
            reveal_strlit("KP7");
            assert(spec_sym_at(50).spec_name() == "KP7"@);
            assert("KP7"@.len() == 3);
            assert(forall|j: int| 0 <= j < "KP7"@.len() ==> plain_name_char(#[trigger] "KP7"@[j]));
            assert(!is_digit_char("KP7"@[1]));
            assert(is_upper("KP7"@[0]));
        }
        if i == 51 {
            reveal_strlit("KP8");
            assert(spec_sym_at(51).spec_name() == "KP8"@);
            assert("KP8"@.len() == 3);
            assert(forall|j: int| 0 <= j < "KP8"@.len() ==> plain_name_char(#[trigger] "KP8"@[j]));
            assert(!is_digit_char("KP8"@[1]));
            assert(is_upper("KP8"@[0]));
        }
        if i == 52 {
            reveal_strlit("KP9");
            assert(spec_sym_at(52).spec_name() == "KP9"@);
            assert("KP9"@.len() == 3);
            assert(forall|j: int| 0 <= j < "KP9"@.len() ==> plain_name_char(#[trigger] "KP9"@[j]));
            assert(!is_digit_char("KP9"@[1]));
            assert(is_upper("KP9"@[0]));
        }
        if i == 53 {
            reveal_strlit("KPEnter");
            assert(spec_sym_at(53).spec_name() == "KPEnter"@);
            assert("KPEnter"@.len() == 7);
            assert(forall|j: int| 0 <= j < "KPEnter"@.len() ==> plain_name_char(#[trigger] "KPEnter"@[j]));
            assert(!is_digit_char("KPEnter"@[1]));
            assert(is_upper("KPEnter"@[0]));
        }
        if i == 54 {
            reveal_strlit("KPPlus");
            assert(spec_sym_at(54).spec_name() == "KPPlus"@);
            assert("KPPlus"@.len() == 6);
            assert(forall|j: int| 0 <= j < "KPPlus"@.len() ==> plain_name_char(#[trigger] "KPPlus"@[j]));
            assert(!is_digit_char("KPPlus"@[1]));
            assert(is_upper("KPPlus"@[0]));
        }
        if i == 55 {
            reveal_strlit("KPMinus");
            assert(spec_sym_at(55).spec_name() == "KPMinus"@);
            assert("KPMinus"@.len() == 7);
            assert(forall|j: int| 0 <= j < "KPMinus"@.len() ==> plain_name_char(#[trigger] "KPMinus"@[j]));
            assert(!is_digit_char("KPMinus"@[1]));
            assert(is_upper("KPMinus"@[0]));
        }
        if i == 56 {
            reveal_strlit("KPMult");
            assert(spec_sym_at(56).spec_name() == "KPMult"@);
            assert("KPMult"@.len() == 6);
            assert(forall|j: int| 0 <= j < "KPMult"@.len() ==> plain_name_char(#[trigger] "KPMult"@[j]));
            assert(!is_digit_char("KPMult"@[1]));
            assert(is_upper("KPMult"@[0]));
        }
        if i == 57 {
            reveal_strlit("KPDiv");
            assert(spec_sym_at(57).spec_name() == "KPDiv"@);
            assert("KPDiv"@.len() == 5);
            assert(forall|j: int| 0 <= j < "KPDiv"@.len() ==> plain_name_char(#[trigger] "KPDiv"@[j]));
            assert(!is_digit_char("KPDiv"@[1]));
            assert(is_upper("KPDiv"@[0]));
        }
        if i == 58 {
            reveal_strlit("KPComma");
            assert(spec_sym_at(58).spec_name() == "KPComma"@);
            assert("KPComma"@.len() == 7);
            assert(forall|j: int| 0 <= j < "KPComma"@.len() ==> plain_name_char(#[trigger] "KPComma"@[j]));
            assert(!is_digit_char("KPComma"@[1]));
            assert(is_upper("KPComma"@[0]));
        }
        if i == 59 {
            reveal_strlit("KPPeriod");
            assert(spec_sym_at(59).spec_name() == "KPPeriod"@);
            assert("KPPeriod"@.len() == 8);
            assert(forall|j: int| 0 <= j < "KPPeriod"@.len() ==> plain_name_char(#[trigger] "KPPeriod"@[j]));
            assert(!is_digit_char("KPPeriod"@[1]));
            assert(is_upper("KPPeriod"@[0]));
        }
        if i == 60 {
            reveal_strlit("KPEquals");
            assert(spec_sym_at(60).spec_name() == "KPEquals"@);
            assert("KPEquals"@.len() == 8);
            assert(forall|j: int| 0 <= j < "KPEquals"@.len() ==> plain_name_char(#[trigger] "KPEquals"@[j]));
            assert(!is_digit_char("KPEquals"@[1]));
            assert(is_upper("KPEquals"@[0]));
        }
}

} // verus!

verus! {

/// Lowering a name with spaces never shortens it.
proof fn lemma_camel_len(t: Seq<char>)
    ensures
        spec_camel(t).len() >= t.len(),
    decreases t.len(),
{
    if t.len() > 0 {
        lemma_camel_len(t.take(t.len() - 1));
    }
}

/// Lowering a prefix of a name gives a prefix of the lowered name.
proof fn lemma_camel_prefix(t: Seq<char>, k: int)
    requires
        0 <= k <= t.len(),
    ensures
        spec_camel(t.take(k)).is_prefix_of(spec_camel(t)),
    decreases t.len(),
{
    if k == t.len() {
        assert(t.take(k) =~= t);
    } else {
        lemma_camel_prefix(t.take(t.len() - 1), k);
        assert(t.take(t.len() - 1).take(k) =~= t.take(k));
        let pre = spec_camel(t.take(t.len() - 1));
        let whole = spec_camel(t);
        assert(pre.is_prefix_of(whole));
        let p = spec_camel(t.take(k));
        assert(p.is_prefix_of(pre));
        assert(p =~= pre.subrange(0, p.len() as int));
        assert(p =~= whole.subrange(0, p.len() as int));
    }
}

/// The first two characters of a lowered name: the lowered first
/// character, then either a space or the lowered second character.
proof fn lemma_camel_index(t: Seq<char>)
    requires
        t.len() >= 2,
    ensures
        spec_camel(t).len() >= 2,
        spec_camel(t)[0] == lower_char(t[0]),
        spec_camel(t)[1] == ' ' || spec_camel(t)[1] == lower_char(t[1]),
{
    lemma_camel_len(t);
    lemma_camel_prefix(t, 2);
    let two = spec_camel(t.take(2));
    let one = spec_camel(t.take(2).take(1));
    assert(t.take(2).take(1) =~= t.take(1));
    assert(spec_camel(t.take(1)) == spec_camel(t.take(1).take(0)) + (if is_upper(t.take(1)[0])
        && t.take(1).len() > 1 {
        seq![' ', lower_char(t.take(1)[0])]
    } else {
        seq![lower_char(t.take(1)[0])]
    }));
    assert(t.take(1)[0] == t[0]);
    assert(spec_camel(t.take(1).take(0)).len() == 0);
    assert(spec_camel(t.take(1)) =~= seq![lower_char(t[0])]);
    assert(t.take(2)[1] == t[1]);
    assert(two == spec_camel(t.take(1)) + (if is_upper(t[1]) && t.take(2).len() > 1 {
        seq![' ', lower_char(t[1])]
    } else {
        seq![lower_char(t[1])]
    }));
    assert(two[0] == lower_char(t[0]));
    assert(two[1] == (if is_upper(t[1]) {
        ' '
    } else {
        lower_char(t[1])
    }));
    assert(spec_camel(t)[0] == two[0]);
    assert(spec_camel(t)[1] == two[1]);
}

/// The display name of every table entry is at least two characters,
/// does not start with a separator, caret or bracket, and has no
/// digit, separator, caret or bracket in second position.
proof fn lemma_display_shape(i: int, fmt: TermKeyFormat)
    requires
        2 <= i < SYM_COUNT,
    ensures
        spec_display_name(spec_sym_at(i), fmt).len() >= 2,
        !is_digit_char(spec_display_name(spec_sym_at(i), fmt)[1]),
        spec_display_name(spec_sym_at(i), fmt)[1] != '>',
        forall|j: int|
            0 <= j < spec_display_name(spec_sym_at(i), fmt).len()
                ==> #[trigger] spec_display_name(spec_sym_at(i), fmt)[j] != '>',
        spec_display_name(spec_sym_at(i), fmt)[0] != '^',
{
    let nm = spec_sym_at(i).spec_name();
    lemma_name_shape(i);
    if fmt.spec_lowerspace() {
        lemma_camel_index(nm);
        assert(plain_name_char(nm[1]));
        let l = lower_char(nm[1]);
        assert(!is_digit_char(l));
        assert(l != '>');
        assert(forall|j: int| 0 <= j < nm.len() ==> #[trigger] nm[j] != '>');
        lemma_camel_no_gt(nm);
        assert(lower_char(nm[0]) != '^');
    }
}

/// Each modifier token is at least two characters, ends with the
/// separator, and starts with its own letter; no token holds a
/// bracket.
proof fn lemma_token_shape(fmt: TermKeyFormat)
    ensures
        ({
            let sep = spec_sep(fmt);
            let ct = spec_ctrl_name(fmt) + seq![sep];
            let at = spec_alt_name(fmt) + seq![sep];
            let st = spec_shift_name(fmt) + seq![sep];
            &&& ct.len() >= 2 && ct[ct.len() - 1] == sep && (ct[0] == 'C' || ct[0] == 'c')
            &&& at.len() >= 2 && at[at.len() - 1] == sep && (at[0] == 'A' || at[0] == 'a' || at[0]
                == 'M' || at[0] == 'm')
            &&& st.len() >= 2 && st[st.len() - 1] == sep && (st[0] == 'S' || st[0] == 's')
            &&& forall|j: int| 0 <= j < ct.len() ==> #[trigger] ct[j] != '>' && ct[j] != '<'
            &&& forall|j: int| 0 <= j < at.len() ==> #[trigger] at[j] != '>' && at[j] != '<'
            &&& forall|j: int| 0 <= j < st.len() ==> #[trigger] st[j] != '>' && st[j] != '<'
            &&& (ct.len() == 2 ==> ct[1] == sep) && (at.len() == 2 ==> at[1] == sep) && (st.len()
                == 2 ==> st[1] == sep)
            &&& fmt.spec_lowermod() ==> (ct[0] == 'c' && (at[0] == 'a' || at[0] == 'm') && st[0]
                == 's')
            &&& !fmt.spec_lowermod() ==> (is_upper(ct[0]) && is_upper(at[0]) && is_upper(st[0]))
            &&& sep == '-' || sep == ' '
        }),
{
    reveal_strlit("Ctrl");
    reveal_strlit("ctrl");
    reveal_strlit("C");
    reveal_strlit("c");
    reveal_strlit("Alt");
    reveal_strlit("alt");
    reveal_strlit("A");
    reveal_strlit("a");
    reveal_strlit("Meta");
    reveal_strlit("meta");
    reveal_strlit("M");
    reveal_strlit("m");
    reveal_strlit("Shift");
    reveal_strlit("shift");
    reveal_strlit("S");
    reveal_strlit("s");
}

} // verus!

verus! {

/// The table position and the table lookup invert each other.
proof fn lemma_sym_roundtrip(sym: TermKeySym)
    ensures
        spec_sym_at(sym.spec_index()) == sym,
{
}

/// A lookup over entries none of whose display names lead `s` finds
/// nothing.
proof fn lemma_lookup_from_none(s: Seq<char>, fmt: TermKeyFormat, i: int)
    requires
        forall|j: int|
            i <= j < SYM_COUNT && 2 <= j ==> !(spec_display_name(spec_sym_at(j), fmt).len() >= 1
                && spec_display_name(spec_sym_at(j), fmt).is_prefix_of(s)),
    ensures
        spec_lookup_from(s, fmt, i) is None,
    decreases SYM_COUNT - i,
{
    if 2 <= i < SYM_COUNT {
        lemma_lookup_from_none(s, fmt, i + 1);
    }
}

/// What a successful lookup returns: a table entry whose display name
/// leads `s`, of the greatest length among such entries; and the
/// lookup succeeds whenever some entry's display name leads `s`.
proof fn lemma_lookup_bounds(s: Seq<char>, fmt: TermKeyFormat, i: int)
    requires
        2 <= i,
    ensures
        spec_lookup_from(s, fmt, i) matches Some((sy, n)) ==> {
            &&& 2 <= sy.spec_index() < SYM_COUNT
            &&& i <= sy.spec_index()
            &&& spec_sym_at(sy.spec_index()) == sy
            &&& spec_display_name(sy, fmt).len() == n
            &&& n >= 1
            &&& spec_display_name(sy, fmt).is_prefix_of(s)
            &&& forall|j: int|
                i <= j < SYM_COUNT ==> (spec_display_name(spec_sym_at(j), fmt).len() >= 1
                    && spec_display_name(spec_sym_at(j), fmt).is_prefix_of(s)
                    ==> spec_display_name(#[trigger] spec_sym_at(j), fmt).len() <= n)
        },
        (exists|j: int|
            i <= j < SYM_COUNT && spec_display_name(#[trigger] spec_sym_at(j), fmt).len() >= 1
                && spec_display_name(spec_sym_at(j), fmt).is_prefix_of(s)) ==> spec_lookup_from(
            s,
            fmt,
            i,
        ) is Some,
    decreases SYM_COUNT - i,
{
    if i < SYM_COUNT {
        lemma_lookup_bounds(s, fmt, i + 1);
        let nm = spec_display_name(spec_sym_at(i), fmt);
        if nm.len() >= 1 && nm.is_prefix_of(s) {
            lemma_sym_at_index_self(i);
        }
    }
}

/// The table position of the entry at position `i` is `i`.
proof fn lemma_sym_at_index_self(i: int)
    requires
        0 <= i < SYM_COUNT,
    ensures
        spec_sym_at(i).spec_index() == i,
{
}

} // verus!

verus! {

/// A sequence leads its own concatenations.
proof fn lemma_prefix_concat(a: Seq<char>, b: Seq<char>)
    ensures
        a.is_prefix_of(a + b),
{
    assert((a + b).subrange(0, a.len() as int) =~= a);
}

/// Dropping a concatenation's first part leaves its second.
proof fn lemma_skip_concat(a: Seq<char>, b: Seq<char>)
    ensures
        (a + b).skip(a.len() as int) == b,
{
    assert((a + b).skip(a.len() as int) =~= b);
}

/// The modifier bits rebuilt from their three flags are the bits.
proof fn lemma_collect_bits(bits: u16)
    requires
        bits < 8,
    ensures
        ({
            let v1 = if bits & MOD_SHIFT != 0 { 0u16 | MOD_SHIFT } else { 0u16 };
            let v2 = if bits & MOD_ALT != 0 { v1 | MOD_ALT } else { v1 };
            let v3 = if bits & MOD_CTRL != 0 { v2 | MOD_CTRL } else { v2 };
            v3 == bits
        }),
{
    assert(({
        let v1 = if bits & 1u16 != 0 { 0u16 | 1u16 } else { 0u16 };
        let v2 = if bits & 2u16 != 0 { v1 | 2u16 } else { v1 };
        let v3 = if bits & 4u16 != 0 { v2 | 4u16 } else { v2 };
        v3 == bits
    })) by (bit_vector)
        requires
            bits < 8,
    ;
}

/// Parsing the modifier tokens the formatter emitted gives back the
/// same modifier bits and consumes exactly the emitted prefix,
/// provided what follows does not itself start with a modifier token.
#[verifier::rlimit(80)]
proof fn lemma_mods_roundtrip(bits: u16, fmt: TermKeyFormat, rest: Seq<char>)
    requires
        bits < 8,
        !(spec_ctrl_name(fmt) + seq![spec_sep(fmt)]).is_prefix_of(rest),
        !(spec_alt_name(fmt) + seq![spec_sep(fmt)]).is_prefix_of(rest),
        !(spec_shift_name(fmt) + seq![spec_sep(fmt)]).is_prefix_of(rest),
    ensures
        spec_parse_mods(spec_mods_prefix(bits, fmt) + rest, fmt) == (
            bits,
            spec_mods_prefix(bits, fmt).len() as int,
        ),
{
    lemma_token_shape(fmt);
    lemma_collect_bits(bits);
    let sep = spec_sep(fmt);
    let ct = spec_ctrl_name(fmt) + seq![sep];
    let at = spec_alt_name(fmt) + seq![sep];
    let st = spec_shift_name(fmt) + seq![sep];
    let has_c = bits & MOD_CTRL != 0;
    let has_a = bits & MOD_ALT != 0;
    let has_s = bits & MOD_SHIFT != 0;
    let ps = if has_s {
        st
    } else {
        Seq::<char>::empty()
    };
    let pa = if has_a {
        at
    } else {
        Seq::<char>::empty()
    };
    let pc = if has_c {
        ct
    } else {
        Seq::<char>::empty()
    };
    assert(spec_mods_prefix(bits, fmt) == (pc + pa) + ps);
    assert(spec_parse_mods(rest, fmt) == (0u16, 0int));

    // the shift level
    let s1 = ps + rest;
    if has_s {
        assert(s1[0] == st[0]);
        if ct.is_prefix_of(s1) {
            assert(ct[0] == s1[0]);
            assert(false);
        }
        if at.is_prefix_of(s1) {
            assert(at[0] == s1[0]);
            assert(false);
        }
        lemma_prefix_concat(st, rest);
        lemma_skip_concat(st, rest);
        assert(spec_parse_mods(s1, fmt) == ((0u16 | MOD_SHIFT), 0 + st.len() as int));
    } else {
        assert(s1 =~= rest);
        assert(spec_parse_mods(s1, fmt) == (0u16, 0int));
    }
    let r1 = spec_parse_mods(s1, fmt);
    assert(r1.1 == ps.len());

    // the alt level
    let s2 = pa + s1;
    if has_a {
        assert(s2[0] == at[0]);
        if ct.is_prefix_of(s2) {
            assert(ct[0] == s2[0]);
            assert(false);
        }
        lemma_prefix_concat(at, s1);
        lemma_skip_concat(at, s1);
        assert(spec_parse_mods(s2, fmt) == ((r1.0 | MOD_ALT), r1.1 + at.len()));
    } else {
        assert(s2 =~= s1);
    }
    let r2 = spec_parse_mods(s2, fmt);
    assert(r2.1 == pa.len() + ps.len());

    // the ctrl level
    let s3 = pc + s2;
    if has_c {
        assert(s3[0] == ct[0]);
        lemma_prefix_concat(ct, s2);
        lemma_skip_concat(ct, s2);
        assert(spec_parse_mods(s3, fmt) == ((r2.0 | MOD_CTRL), r2.1 + ct.len()));
    } else {
        assert(s3 =~= s2);
    }
    let r3 = spec_parse_mods(s3, fmt);
    assert(r3.1 == pc.len() + pa.len() + ps.len());
    assert(r3.0 == bits);

    assert(spec_mods_prefix(bits, fmt) + rest =~= s3);
    assert(spec_mods_prefix(bits, fmt).len() == pc.len() + pa.len() + ps.len());
}

} // verus!

verus! {

/// A string of at most one character matches no table name.
proof fn lemma_lookup_none_short(s: Seq<char>, fmt: TermKeyFormat)
    requires
        s.len() <= 1,
    ensures
        spec_lookup(s, fmt) is None,
{
    assert forall|j: int| 2 <= j < SYM_COUNT implies !(spec_display_name(spec_sym_at(j), fmt).len()
        >= 1 && spec_display_name(spec_sym_at(j), fmt).is_prefix_of(s)) by {
        lemma_display_shape(j, fmt);
    }
    lemma_lookup_from_none(s, fmt, 2);
}

/// A two-character string closed by a bracket matches no table name.
proof fn lemma_lookup_none_bracket(s: Seq<char>, fmt: TermKeyFormat)
    requires
        s.len() == 2,
        s[1] == '>',
    ensures
        spec_lookup(s, fmt) is None,
{
    assert forall|j: int| 2 <= j < SYM_COUNT implies !(spec_display_name(spec_sym_at(j), fmt).len()
        >= 1 && spec_display_name(spec_sym_at(j), fmt).is_prefix_of(s)) by {
        lemma_display_shape(j, fmt);
        let nm = spec_display_name(spec_sym_at(j), fmt);
        if nm.len() >= 1 && nm.is_prefix_of(s) {
            assert(nm.len() == 2);
            assert(nm[1] == s[1]);
            assert(false);
        }
    }
    lemma_lookup_from_none(s, fmt, 2);
}

/// A single character, possibly closed by a bracket, reads back as
/// that character.
proof fn lemma_parse_base_char(cp: char, fmt: TermKeyFormat, s: Seq<char>)
    requires
        s.len() >= 1,
        s[0] == cp,
        s.len() <= 2,
        s.len() == 2 ==> s[1] == '>',
    ensures
        spec_parse_base(s, fmt) == Some((KeyDesc::DescUnicode { cp: cp as u32, mods: 0u16 }, 1int)),
{
    if s.len() <= 1 {
        lemma_lookup_none_short(s, fmt);
    } else {
        lemma_lookup_none_bracket(s, fmt);
    }
}

/// A caret and an upper-case letter, possibly closed by a bracket,
/// read back as the Ctrl-modified lower-case letter.
proof fn lemma_parse_base_caret(c: char, fmt: TermKeyFormat, s: Seq<char>)
    requires
        fmt.spec_caretctrl(),
        is_lower(c),
        s.len() >= 2,
        s[0] == '^',
        s[1] == upper_char(c),
        s.len() <= 3,
        s.len() == 3 ==> s[2] == '>',
    ensures
        spec_parse_base(s, fmt) == Some(
            (KeyDesc::DescUnicode { cp: c as u32, mods: MOD_CTRL }, 2int),
        ),
{
    assert(is_upper(upper_char(c)));
    assert(lower_char(upper_char(c)) == c);
}

} // verus!

verus! {

/// Why what follows the emitted modifier prefix never reads as one
/// more modifier token: the base begins with a caret, or is a single
/// character, possibly closed by a bracket.
proof fn lemma_base_no_token(fmt: TermKeyFormat, rest: Seq<char>)
    requires
        rest.len() >= 1,
        rest[0] == '^' || rest.len() <= 1 || (rest.len() == 2 && rest[1] == '>'),
    ensures
        !(spec_ctrl_name(fmt) + seq![spec_sep(fmt)]).is_prefix_of(rest),
        !(spec_alt_name(fmt) + seq![spec_sep(fmt)]).is_prefix_of(rest),
        !(spec_shift_name(fmt) + seq![spec_sep(fmt)]).is_prefix_of(rest),
{
    lemma_token_shape(fmt);
    let sep = spec_sep(fmt);
    let ct = spec_ctrl_name(fmt) + seq![sep];
    let at = spec_alt_name(fmt) + seq![sep];
    let st = spec_shift_name(fmt) + seq![sep];
    if ct.is_prefix_of(rest) {
        assert(ct[0] == rest[0]);
        assert(ct.len() == 2 && ct[1] == rest[1]);
        assert(false);
    }
    if at.is_prefix_of(rest) {
        assert(at[0] == rest[0]);
        assert(at.len() == 2 && at[1] == rest[1]);
        assert(false);
    }
    if st.is_prefix_of(rest) {
        assert(st[0] == rest[0]);
        assert(st.len() == 2 && st[1] == rest[1]);
        assert(false);
    }
}

/// Formatting a Unicode key and parsing the result gives back the
/// same code point and modifier set, consuming the whole string: the
/// parser is a left inverse of the formatter on character keys, under
/// every combination of format flags.
#[verifier::rlimit(100)]
#[verifier::spinoff_prover]
pub proof fn lemma_format_parse_unicode(
    codepoint: char,
    mods: X_TermKey_KeyMod,
    utf8: Utf8Char,
    fmt: TermKeyFormat,
)
    requires
        mods.bits < 8,
    ensures
        ({
            let e = TermKeyEvent::UnicodeEvent { codepoint, mods, utf8 };
            let out = spec_format(e, fmt);
            spec_parse(out, fmt) == Some(
                (
                    KeyDesc::DescUnicode { cp: codepoint as u32, mods: mods.bits },
                    out.len() as int,
                ),
            )
        }),
{
    let e = TermKeyEvent::UnicodeEvent { codepoint, mods, utf8 };
    let out = spec_format(e, fmt);
    let caret = caret_applies(e, fmt);
    let b: u16 = mods.bits;
    let pb: u16 = if caret {
        mods.bits & !MOD_CTRL
    } else {
        mods.bits
    };
    assert((b & !MOD_CTRL) < 8) by (bit_vector)
        requires
            b < 8,
    ;
    let base = if caret {
        seq!['^', upper_char(codepoint)]
    } else {
        seq![codepoint]
    };
    let prefix = spec_mods_prefix(pb, fmt);
    let core = spec_format_core(e, fmt);
    assert(core == prefix + base);
    lemma_token_shape(fmt);

    let desc_base = if caret {
        KeyDesc::DescUnicode { cp: codepoint as u32, mods: MOD_CTRL }
    } else {
        KeyDesc::DescUnicode { cp: codepoint as u32, mods: 0u16 }
    };
    let merged = if caret {
        MOD_CTRL | pb
    } else {
        0u16 | pb
    };
    assert(caret ==> mods.bits & MOD_CTRL != 0);
    if caret {
        assert(MOD_CTRL | (b & !MOD_CTRL) == b) by (bit_vector)
            requires
                b & MOD_CTRL != 0,
        ;
    } else {
        assert(0u16 | b == b) by (bit_vector);
    }
    assert(merged == mods.bits);

    if spec_wraps(e, fmt) {
        assert(out == (seq!['<'] + core) + seq!['>']);
        assert(out.len() == core.len() + 2);
        assert(out[0] == '<');
        let inner = out.skip(1);
        assert(inner =~= core + seq!['>']);
        let rest = base + seq!['>'];
        assert(inner =~= prefix + rest);
        lemma_base_no_token(fmt, rest);
        lemma_mods_roundtrip(pb, fmt, rest);
        assert(spec_parse_mods(inner, fmt) == (pb, prefix.len() as int));
        lemma_skip_concat(prefix, rest);
        assert(inner.skip(prefix.len() as int) == rest);
        if caret {
            lemma_parse_base_caret(codepoint, fmt, rest);
            assert(spec_parse_base(rest, fmt) == Some((desc_base, 2int)));
        } else {
            lemma_parse_base_char(codepoint, fmt, rest);
            assert(spec_parse_base(rest, fmt) == Some((desc_base, 1int)));
        }
        let n = prefix.len() + base.len();
        assert(spec_parse_plain(inner, fmt) == Some((with_mods(desc_base, pb), n as int)));
        assert(with_mods(desc_base, pb) == KeyDesc::DescUnicode {
            cp: codepoint as u32,
            mods: merged,
        });
        assert(1 + n < out.len());
        assert(out[1 + n as int] == '>');
        assert(spec_parse(out, fmt) == Some(
            (KeyDesc::DescUnicode { cp: codepoint as u32, mods: mods.bits }, n + 2int),
        ));
        assert(n + 2 == out.len());
    } else {
        assert(out == core);
        if fmt.spec_wrapbracket() && out.len() >= 1 && out[0] == '<' {
            // an unmodified `<` key: the bracketed reading finds no
            // key and falls back to the plain one
            assert(!caret);
            assert(mods.bits == 0) by {
                if mods.bits != 0 {
                    assert(spec_wraps(e, fmt));
                }
            }
            assert(prefix =~= Seq::<char>::empty());
            assert(out =~= seq![codepoint]);
            assert(out.len() == 1);
            let inner = out.skip(1);
            assert(inner.len() == 0);
            lemma_base_no_token(fmt, seq![codepoint]);
            assert(!(spec_ctrl_name(fmt) + seq![spec_sep(fmt)]).is_prefix_of(inner));
            assert(!(spec_alt_name(fmt) + seq![spec_sep(fmt)]).is_prefix_of(inner));
            assert(!(spec_shift_name(fmt) + seq![spec_sep(fmt)]).is_prefix_of(inner));
            assert(spec_parse_mods(inner, fmt) == (0u16, 0int));
            assert(inner.skip(0) =~= inner);
            assert(spec_parse_base(inner, fmt) is None);
            assert(spec_parse_plain(inner, fmt) is None);
        }
        let rest = base;
        lemma_base_no_token(fmt, rest);
        lemma_mods_roundtrip(pb, fmt, rest);
        assert(out =~= prefix + rest);
        assert(spec_parse_mods(out, fmt) == (pb, prefix.len() as int));
        lemma_skip_concat(prefix, rest);
        if caret {
            lemma_parse_base_caret(codepoint, fmt, rest);
        } else {
            lemma_parse_base_char(codepoint, fmt, rest);
        }
        let n = prefix.len() + base.len();
        assert(spec_parse_plain(out, fmt) == Some((with_mods(desc_base, pb), n as int)));
        assert(n == out.len());
        assert(with_mods(desc_base, pb) == KeyDesc::DescUnicode {
            cp: codepoint as u32,
            mods: mods.bits,
        });
    }
}

} // verus!

verus! {

/// The decimal rendering of a bounded number is all digits and reads
/// back as the number.
proof fn lemma_decimal_roundtrip(m: int)
    requires
        0 <= m <= 0x7FFFFFFF,
    ensures
        spec_decimal(m).len() >= 1,
        forall|j: int| 0 <= j < spec_decimal(m).len() ==> is_digit_char(#[trigger] spec_decimal(m)[j]),
        dec_val_chars(spec_decimal(m)) == m,
    decreases m,
{
    let s = spec_decimal(m);
    if m < 10 {
        assert(s == seq![spec_digit_char(m)]);
        assert(s.take(0) =~= Seq::<char>::empty());
        assert(dec_val_chars(s.take(0)) == 0);
    } else {
        lemma_decimal_roundtrip(m / 10);
        let pre = spec_decimal(m / 10);
        assert(s == pre + seq![spec_digit_char(m % 10)]);
        assert(s.take(s.len() - 1) =~= pre);
        assert(s[s.len() - 1] == spec_digit_char(m % 10));
        assert(dec_val_chars(s) == m);
    }
}

/// `digit_run` is pinned by its characterization.
proof fn lemma_digit_run_is(s: Seq<char>, i: int, e: int)
    requires
        0 <= i <= e <= s.len(),
        forall|j: int| i <= j < e ==> is_digit_char(#[trigger] s[j]),
        e < s.len() ==> !is_digit_char(s[e]),
    ensures
        digit_run(s, i) == e,
    decreases e - i,
{
    if i < e {
        lemma_digit_run_is(s, i + 1, e);
    }
}

/// No table name leads a function-key rendering: its second
/// character is a digit.
proof fn lemma_lookup_none_fstring(rest: Seq<char>, fmt: TermKeyFormat)
    requires
        rest.len() >= 2,
        is_digit_char(rest[1]),
    ensures
        spec_lookup(rest, fmt) is None,
{
    assert forall|j: int| 2 <= j < SYM_COUNT implies !(spec_display_name(spec_sym_at(j), fmt).len()
        >= 1 && spec_display_name(spec_sym_at(j), fmt).is_prefix_of(rest)) by {
        lemma_display_shape(j, fmt);
        let nm = spec_display_name(spec_sym_at(j), fmt);
        if nm.len() >= 1 && nm.is_prefix_of(rest) {
            assert(nm[1] == rest[1]);
            assert(false);
        }
    }
    lemma_lookup_from_none(rest, fmt, 2);
}

/// An emitted modifier prefix never starts with a bracket.
proof fn lemma_prefix_not_lt(b: u16, fmt: TermKeyFormat)
    requires
        b < 8,
    ensures
        spec_mods_prefix(b, fmt).len() > 0 ==> spec_mods_prefix(b, fmt)[0] != '<',
{
    lemma_token_shape(fmt);
    let sep = spec_sep(fmt);
    let ct = spec_ctrl_name(fmt) + seq![sep];
    let at = spec_alt_name(fmt) + seq![sep];
    let st = spec_shift_name(fmt) + seq![sep];
    let prefix = spec_mods_prefix(b, fmt);
    if prefix.len() > 0 {
        if b & MOD_CTRL != 0 {
            assert(prefix[0] == ct[0]);
        } else if b & MOD_ALT != 0 {
            assert(prefix =~= (at + (if b & MOD_SHIFT != 0 {
                st
            } else {
                Seq::<char>::empty()
            })));
            assert(prefix[0] == at[0]);
        } else {
            assert(b & MOD_SHIFT != 0);
            assert(prefix =~= st);
            assert(prefix[0] == st[0]);
        }
    }
}

/// A function-key rendering, possibly closed by a bracket, reads
/// back as the function key.
proof fn lemma_parse_base_fstring(num: i32, fmt: TermKeyFormat, tail: Seq<char>)
    requires
        num >= 0,
        tail.len() == 0 || (tail.len() == 1 && tail[0] == '>'),
    ensures
        ({
            let fc: char = if fmt.spec_lowerspace() {
                'f'
            } else {
                'F'
            };
            let dec = spec_decimal(num as int);
            let rest = (seq![fc] + dec) + tail;
            spec_parse_base(rest, fmt) == Some(
                (KeyDesc::DescFunction { num, mods: 0u16 }, (1 + dec.len()) as int),
            )
        }),
{
    let fc: char = if fmt.spec_lowerspace() {
        'f'
    } else {
        'F'
    };
    let dec = spec_decimal(num as int);
    lemma_decimal_roundtrip(num as int);
    let rest = (seq![fc] + dec) + tail;
    assert(rest[0] == fc);
    assert(rest[1] == dec[0]);
    assert(is_digit_char(rest[1]));
    assert(rest[0] != '^');
    lemma_lookup_none_fstring(rest, fmt);
    assert(forall|j: int| 1 <= j < 1 + dec.len() as int ==> is_digit_char(#[trigger] rest[j]));
    assert((1 + dec.len() as int) < rest.len() ==> !is_digit_char(rest[1 + dec.len() as int]));
    lemma_digit_run_is(rest, 1, 1 + dec.len() as int);
    assert(rest.subrange(1, 1 + dec.len() as int) =~= dec);
}

/// Formatting a function key and parsing the result gives back the
/// same key number and modifier set, consuming the whole string.
#[verifier::rlimit(100)]
#[verifier::spinoff_prover]
pub proof fn lemma_format_parse_function(num: i32, mods: X_TermKey_KeyMod, fmt: TermKeyFormat)
    requires
        mods.bits < 8,
        num >= 0,
    ensures
        ({
            let e = TermKeyEvent::FunctionEvent { num, mods };
            let out = spec_format(e, fmt);
            spec_parse(out, fmt) == Some(
                (KeyDesc::DescFunction { num, mods: mods.bits }, out.len() as int),
            )
        }),
{
    let e = TermKeyEvent::FunctionEvent { num, mods };
    let out = spec_format(e, fmt);
    let b: u16 = mods.bits;
    let fc: char = if fmt.spec_lowerspace() {
        'f'
    } else {
        'F'
    };
    let dec = spec_decimal(num as int);
    lemma_decimal_roundtrip(num as int);
    let base = seq![fc] + dec;
    let prefix = spec_mods_prefix(b, fmt);
    let core = spec_format_core(e, fmt);
    assert(core =~= prefix + base);
    lemma_token_shape(fmt);
    assert(0u16 | b == b) by (bit_vector);

    let wrapped = spec_wraps(e, fmt);
    let tail: Seq<char> = if wrapped {
        seq!['>']
    } else {
        Seq::<char>::empty()
    };
    let rest = base + tail;
    assert(rest[0] == fc);

    // no modifier token leads the base
    let sep = spec_sep(fmt);
    let ct = spec_ctrl_name(fmt) + seq![sep];
    let at = spec_alt_name(fmt) + seq![sep];
    let st = spec_shift_name(fmt) + seq![sep];
    if ct.is_prefix_of(rest) {
        assert(ct[0] == rest[0]);
        assert(false);
    }
    if at.is_prefix_of(rest) {
        assert(at[0] == rest[0]);
        assert(false);
    }
    if st.is_prefix_of(rest) {
        assert(st[0] == rest[0]);
        assert(false);
    }
    lemma_mods_roundtrip(b, fmt, rest);
    lemma_parse_base_fstring(num, fmt, tail);
    assert(spec_parse_base(rest, fmt) == Some(
        (KeyDesc::DescFunction { num, mods: 0u16 }, (1 + dec.len()) as int),
    ));

    let n = prefix.len() + base.len();
    if wrapped {
        assert(out == (seq!['<'] + core) + seq!['>']);
        assert(out.len() == core.len() + 2);
        assert(out[0] == '<');
        let inner = out.skip(1);
        assert(inner =~= core + seq!['>']);
        assert(inner =~= prefix + rest);
        assert(spec_parse_mods(inner, fmt) == (b, prefix.len() as int));
        lemma_skip_concat(prefix, rest);
        assert(spec_parse_plain(inner, fmt) == Some(
            (
                with_mods(KeyDesc::DescFunction { num, mods: 0u16 }, b),
                n as int,
            ),
        ));
        assert(with_mods(KeyDesc::DescFunction { num, mods: 0u16 }, b)
            == KeyDesc::DescFunction { num, mods: b });
        assert(1 + n < out.len());
        assert(out[1 + n as int] == '>');
        assert(n + 2 == out.len());
    } else {
        assert(out == core);
        assert(out.len() >= 1);
        lemma_prefix_not_lt(b, fmt);
        if prefix.len() == 0 {
            assert(out[0] == rest[0]);
            assert(out[0] != '<');
        } else {
            assert(out[0] == prefix[0]);
            assert(out[0] != '<');
        }
        assert(out =~= prefix + rest);
        assert(spec_parse_mods(out, fmt) == (b, prefix.len() as int));
        lemma_skip_concat(prefix, rest);
        assert(spec_parse_plain(out, fmt) == Some(
            (
                with_mods(KeyDesc::DescFunction { num, mods: 0u16 }, b),
                n as int,
            ),
        ));
        assert(n == out.len());
    }
}

} // verus!

verus! {

/// Formatting a symbolic key and parsing the result gives back a
/// symbolic key with the same display name and the same modifier
/// set, consuming the whole string.  (Two table entries never share
/// a name, so equal display names mean the same key.)
#[verifier::rlimit(100)]
#[verifier::spinoff_prover]
pub proof fn lemma_format_parse_keysym(sym: TermKeySym, mods: X_TermKey_KeyMod, fmt: TermKeyFormat)
    requires
        mods.bits < 8,
        2 <= sym.spec_index() < SYM_COUNT,
    ensures
        ({
            let e = TermKeyEvent::KeySymEvent { sym, mods };
            let out = spec_format(e, fmt);
            match spec_parse(out, fmt) {
                Some((d, n)) => {
                    &&& d matches KeyDesc::DescKeySym { sym: s2, mods: m2 }
                    &&& m2 == mods.bits
                    &&& spec_display_name(s2, fmt) == spec_display_name(sym, fmt)
                    &&& n == out.len()
                },
                None => false,
            }
        }),
{
    let e = TermKeyEvent::KeySymEvent { sym, mods };
    let out = spec_format(e, fmt);
    let b: u16 = mods.bits;
    let si = sym.spec_index();
    lemma_sym_roundtrip(sym);
    lemma_name_shape(si);
    lemma_display_shape(si, fmt);
    let disp = spec_display_name(sym, fmt);
    let prefix = spec_mods_prefix(b, fmt);
    let core = spec_format_core(e, fmt);
    assert(core == prefix + disp);
    lemma_token_shape(fmt);
    assert(0u16 | b == b) by (bit_vector);

    let wrapped = spec_wraps(e, fmt);
    let tail: Seq<char> = if wrapped {
        seq!['>']
    } else {
        Seq::<char>::empty()
    };
    let rest = disp + tail;
    assert(rest.len() == disp.len() + tail.len());
    assert(forall|j: int| 0 <= j < disp.len() ==> rest[j] == disp[j]);

    // no modifier token leads the display name
    let sep = spec_sep(fmt);
    let ct = spec_ctrl_name(fmt) + seq![sep];
    let at = spec_alt_name(fmt) + seq![sep];
    let st = spec_shift_name(fmt) + seq![sep];
    lemma_tok_not_display_prefix(ct, fmt, si, tail);
    lemma_tok_not_display_prefix(at, fmt, si, tail);
    lemma_tok_not_display_prefix(st, fmt, si, tail);
    lemma_mods_roundtrip(b, fmt, rest);

    // the caret reading does not apply
    assert(rest[0] == disp[0]);
    assert(rest[0] != '^');

    // the table lookup finds an entry with exactly this display name
    lemma_prefix_concat(disp, tail);
    assert(spec_display_name(spec_sym_at(si), fmt).len() >= 1 && spec_display_name(
        spec_sym_at(si),
        fmt,
    ).is_prefix_of(rest));
    lemma_lookup_bounds(rest, fmt, 2);
    assert(spec_lookup(rest, fmt) is Some);
    let (sy, n1) = spec_lookup(rest, fmt)->Some_0;
    assert(spec_display_name(sy, fmt).len() == n1);
    assert(n1 >= disp.len());
    let syi = sy.spec_index();
    assert(2 <= syi < SYM_COUNT && spec_sym_at(syi) == sy);
    lemma_display_shape(syi, fmt);
    let nm2 = spec_display_name(sy, fmt);
    if n1 > disp.len() {
        assert(nm2.is_prefix_of(rest));
        assert(nm2[disp.len() as int] == rest[disp.len() as int]);
        assert(wrapped && rest[disp.len() as int] == '>');
        assert(false);
    }
    assert(n1 == disp.len());
    assert(nm2 =~= rest.subrange(0, n1 as int));
    assert(rest.subrange(0, disp.len() as int) =~= disp);
    assert(nm2 == disp);

    assert(spec_parse_base(rest, fmt) == Some((KeyDesc::DescKeySym { sym: sy, mods: 0u16 }, n1)));
    let n = prefix.len() + disp.len();
    if wrapped {
        assert(out == (seq!['<'] + core) + seq!['>']);
        assert(out.len() == core.len() + 2);
        assert(out[0] == '<');
        let inner = out.skip(1);
        assert(inner =~= core + seq!['>']);
        assert(inner =~= prefix + rest);
        assert(spec_parse_mods(inner, fmt) == (b, prefix.len() as int));
        lemma_skip_concat(prefix, rest);
        assert(spec_parse_plain(inner, fmt) == Some(
            (KeyDesc::DescKeySym { sym: sy, mods: b }, n as int),
        ));
        assert(1 + n < out.len());
        assert(out[1 + n as int] == '>');
        assert(n + 2 == out.len());
    } else {
        assert(!fmt.spec_wrapbracket());
        assert(out == core);
        assert(out =~= prefix + rest);
        assert(spec_parse_mods(out, fmt) == (b, prefix.len() as int));
        lemma_skip_concat(prefix, rest);
        assert(spec_parse_plain(out, fmt) == Some(
            (KeyDesc::DescKeySym { sym: sy, mods: b }, n as int),
        ));
        assert(n == out.len());
    }
}

} // verus!

verus! {

/// A name with no inner upper-case letter lowers without gaining
/// spaces: each character simply lowers in place.
proof fn lemma_camel_plain(t: Seq<char>)
    requires
        forall|j: int| 1 <= j < t.len() ==> !is_upper(#[trigger] t[j]),
    ensures
        spec_camel(t).len() == t.len(),
        forall|j: int| 0 <= j < t.len() ==> spec_camel(t)[j] == lower_char(#[trigger] t[j]),
    decreases t.len(),
{
    if t.len() > 0 {
        let pre = t.take(t.len() - 1);
        lemma_camel_plain(pre);
        assert(forall|j: int| 0 <= j < pre.len() ==> pre[j] == t[j]);
    }
}

/// Lowering a name without brackets gives a name without brackets.
proof fn lemma_camel_no_gt(t: Seq<char>)
    requires
        forall|j: int| 0 <= j < t.len() ==> #[trigger] t[j] != '>',
    ensures
        forall|j: int| 0 <= j < spec_camel(t).len() ==> #[trigger] spec_camel(t)[j] != '>',
    decreases t.len(),
{
    if t.len() > 0 {
        let pre = t.take(t.len() - 1);
        assert(forall|j: int| 0 <= j < pre.len() ==> pre[j] == #[trigger] t[j]);
        lemma_camel_no_gt(pre);
        assert(lower_char(t[t.len() - 1]) != '>');
        let suffix = if is_upper(t[t.len() - 1]) && t.len() > 1 {
            seq![' ', lower_char(t[t.len() - 1])]
        } else {
            seq![lower_char(t[t.len() - 1])]
        };
        assert(spec_camel(t) == spec_camel(pre) + suffix);
        assert(forall|j: int| 0 <= j < suffix.len() ==> #[trigger] suffix[j] != '>');
        assert(forall|j: int|
            0 <= j < spec_camel(t).len() ==> #[trigger] spec_camel(t)[j] != '>') by {
            assert(forall|j: int|
                0 <= j < spec_camel(pre).len() ==> #[trigger] spec_camel(pre)[j] != '>');
            assert(forall|j: int|
                0 <= j < spec_camel(t).len() ==> spec_camel(t)[j] == (if j < spec_camel(
                    pre,
                ).len() {
                    spec_camel(pre)[j]
                } else {
                    suffix[j - spec_camel(pre).len()]
                }));
        }
    }
}

/// No modifier token leads a display name, with or without a closing
/// bracket after it: the token would have to place its separator or
/// its own first letter where the name cannot hold one.
proof fn lemma_tok_not_display_prefix(
    tok: Seq<char>,
    fmt: TermKeyFormat,
    si: int,
    tail: Seq<char>,
)
    requires
        2 <= si < SYM_COUNT,
        tok.len() >= 2,
        tok[tok.len() - 1] == spec_sep(fmt),
        spec_sep(fmt) == '-' || spec_sep(fmt) == ' ',
        fmt.spec_lowermod() ==> (tok[0] == 'c' || tok[0] == 'a' || tok[0] == 'm' || tok[0] == 's'),
        !fmt.spec_lowermod() ==> is_upper(tok[0]),
        tail.len() == 0 || (tail.len() == 1 && tail[0] == '>'),
    ensures
        !tok.is_prefix_of(spec_display_name(spec_sym_at(si), fmt) + tail),
{
    lemma_name_shape(si);
    let name = spec_sym_at(si).spec_name();
    let disp = spec_display_name(spec_sym_at(si), fmt);
    let rest = disp + tail;
    let sep = spec_sep(fmt);
    let k = tok.len() - 1;
    if tok.is_prefix_of(rest) {
        assert(tok[0] == rest[0]);
        assert(tok[k] == rest[k]);
        if !fmt.spec_lowerspace() {
            assert(disp == name);
            if k < name.len() {
                assert(rest[k] == name[k]);
                assert(plain_name_char(name[k]));
                assert(false);
            } else {
                assert(k == name.len());
                assert(rest[k] == '>');
                assert(false);
            }
        } else {
            lemma_camel_index(name);
            assert(rest[0] == disp[0]);
            assert(disp[0] == lower_char(name[0]));
            assert(is_upper(name[0]));
            assert(is_lower(lower_char(name[0])));
            if !fmt.spec_lowermod() {
                assert(is_upper(tok[0]));
                assert(false);
            } else {
                assert(lower_char(name[0]) == tok[0]);
                assert(name[0] == 'C' || name[0] == 'A' || name[0] == 'M' || name[0] == 'S');
                assert(forall|j: int| 1 <= j < name.len() ==> !is_upper(#[trigger] name[j]));
                lemma_camel_plain(name);
                assert(disp.len() == name.len());
                if k < name.len() {
                    assert(rest[k] == disp[k]);
                    assert(disp[k] == lower_char(name[k]));
                    assert(plain_name_char(name[k]));
                    assert(lower_char(name[k]) != '-' && lower_char(name[k]) != ' ');
                    assert(false);
                } else {
                    assert(k == name.len());
                    assert(rest[k] == '>');
                    assert(false);
                }
            }
        }
    }
}

} // verus!

verus! {

/// The value of a digit run is never negative.
proof fn lemma_dec_val_nonneg(s: Seq<char>)
    ensures
        dec_val_chars(s) >= 0,
    decreases s.len(),
{
    if s.len() > 0 {
        lemma_dec_val_nonneg(s.take(s.len() - 1));
    }
}

/// The modifier bits the parser collects always fit the three-flag
/// domain, and it never consumes more than the string holds.
pub proof fn lemma_parse_mods_bound(s: Seq<char>, fmt: TermKeyFormat)
    ensures
        spec_parse_mods(s, fmt).0 < 8,
        0 <= spec_parse_mods(s, fmt).1 <= s.len(),
    decreases s.len(),
{
    let ct = spec_ctrl_name(fmt) + seq![spec_sep(fmt)];
    let at = spec_alt_name(fmt) + seq![spec_sep(fmt)];
    let st = spec_shift_name(fmt) + seq![spec_sep(fmt)];
    if ct.is_prefix_of(s) {
        lemma_parse_mods_bound(s.skip(ct.len() as int), fmt);
        let x = spec_parse_mods(s.skip(ct.len() as int), fmt).0;
        assert(x | 4u16 < 8) by (bit_vector)
            requires
                x < 8,
        ;
    } else if at.is_prefix_of(s) {
        lemma_parse_mods_bound(s.skip(at.len() as int), fmt);
        let x = spec_parse_mods(s.skip(at.len() as int), fmt).0;
        assert(x | 2u16 < 8) by (bit_vector)
            requires
                x < 8,
        ;
    } else if st.is_prefix_of(s) {
        lemma_parse_mods_bound(s.skip(st.len() as int), fmt);
        let x = spec_parse_mods(s.skip(st.len() as int), fmt).0;
        assert(x | 1u16 < 8) by (bit_vector)
            requires
                x < 8,
        ;
    }
}

/// Every key the plain reading yields lies in the round-trip
/// theorems' domain: its modifier bits fit the three flags, a
/// function key's number is not negative, and a symbolic key comes
/// from the name table proper.
proof fn lemma_parse_plain_domain(s: Seq<char>, fmt: TermKeyFormat)
    ensures
        spec_parse_plain(s, fmt) matches Some((d, n)) ==> {
            &&& crate::event::desc_mods(d) < 8
            &&& (d matches KeyDesc::DescFunction { num, .. } ==> num >= 0)
            &&& (d matches KeyDesc::DescKeySym { sym, .. } ==> 2 <= sym.spec_index()
                < SYM_COUNT)
        },
{
    lemma_parse_mods_bound(s, fmt);
    let m = spec_parse_mods(s, fmt);
    let mb = m.0;
    if 0 <= m.1 <= s.len() {
        let t = s.skip(m.1);
        match spec_parse_base(t, fmt) {
            Some((bd, bn)) => {
                match bd {
                    KeyDesc::DescUnicode { cp, mods } => {
                        let x = mb;
                        assert(0u16 | x < 8 && 4u16 | x < 8) by (bit_vector)
                            requires
                                x < 8,
                        ;
                    },
                    KeyDesc::DescFunction { num, mods } => {
                        let x = mb;
                        assert(0u16 | x < 8) by (bit_vector)
                            requires
                                x < 8,
                        ;
                        if t.len() > 0 && !(fmt.spec_caretctrl() && t.len() >= 2 && t[0] == '^'
                            && is_upper(t[1])) && spec_lookup(t, fmt) is None {
                            let e = digit_run(t, 1);
                            lemma_dec_val_nonneg(t.subrange(1, e));
                        }
                    },
                    KeyDesc::DescKeySym { sym, mods } => {
                        let x = mb;
                        assert(0u16 | x < 8) by (bit_vector)
                            requires
                                x < 8,
                        ;
                        lemma_lookup_bounds(t, fmt, 2);
                    },
                    _ => {},
                }
            },
            None => {},
        }
    }
}

/// Every key the parser yields lies in the round-trip theorems'
/// domain.
pub proof fn lemma_parse_domain(s: Seq<char>, fmt: TermKeyFormat)
    ensures
        spec_parse(s, fmt) matches Some((d, n)) ==> {
            &&& crate::event::desc_mods(d) < 8
            &&& (d matches KeyDesc::DescFunction { num, .. } ==> num >= 0)
            &&& (d matches KeyDesc::DescKeySym { sym, .. } ==> 2 <= sym.spec_index()
                < SYM_COUNT)
        },
{
    lemma_parse_plain_domain(s, fmt);
    if fmt.spec_wrapbracket() && s.len() >= 1 && s[0] == '<' {
        lemma_parse_plain_domain(s.skip(1), fmt);
    }
}

/// Parsing then formatting reaches a fixed point: any key the parser
/// yields renders to its canonical spelling, and that spelling parses
/// back to exactly the same key — for a symbolic key, to one with the
/// same display name.  Together with the format-then-parse theorems
/// this says the rendering of a parsed key is canonical.
pub proof fn lemma_parse_then_format(
    s: Seq<char>,
    fmt: TermKeyFormat,
    codepoint: char,
    utf8: Utf8Char,
)
    ensures
        (spec_parse(s, fmt) matches Some((d, n)) && d matches KeyDesc::DescUnicode { cp, mods }
            && codepoint as u32 == cp) ==> ({
            let out = spec_format(
                TermKeyEvent::UnicodeEvent {
                    codepoint,
                    mods: X_TermKey_KeyMod { bits: spec_parse(s, fmt)->Some_0.0->DescUnicode_mods },
                    utf8,
                },
                fmt,
            );
            spec_parse(out, fmt) == Some((spec_parse(s, fmt)->Some_0.0, out.len() as int))
        }),
        (spec_parse(s, fmt) matches Some((d, n)) && d matches KeyDesc::DescFunction {
            num,
            mods,
        }) ==> ({
            let pd = spec_parse(s, fmt)->Some_0.0;
            let out = spec_format(
                TermKeyEvent::FunctionEvent {
                    num: pd->DescFunction_num,
                    mods: X_TermKey_KeyMod { bits: pd->DescFunction_mods },
                },
                fmt,
            );
            spec_parse(out, fmt) == Some((pd, out.len() as int))
        }),
        (spec_parse(s, fmt) matches Some((d, n)) && d matches KeyDesc::DescKeySym {
            sym,
            mods,
        }) ==> ({
            let pd = spec_parse(s, fmt)->Some_0.0;
            let out = spec_format(
                TermKeyEvent::KeySymEvent {
                    sym: pd->DescKeySym_sym,
                    mods: X_TermKey_KeyMod { bits: pd->DescKeySym_mods },
                },
                fmt,
            );
            match spec_parse(out, fmt) {
                Some((d2, n2)) => {
                    &&& d2 matches KeyDesc::DescKeySym { sym: s2, mods: m2 }
                    &&& m2 == pd->DescKeySym_mods
                    &&& spec_display_name(s2, fmt) == spec_display_name(pd->DescKeySym_sym, fmt)
                    &&& n2 == out.len()
                },
                None => false,
            }
        }),
{
    lemma_parse_domain(s, fmt);
    match spec_parse(s, fmt) {
        Some((d, n)) => {
            match d {
                KeyDesc::DescUnicode { cp, mods } => {
                    if codepoint as u32 == cp {
                        lemma_format_parse_unicode(
                            codepoint,
                            X_TermKey_KeyMod { bits: mods },
                            utf8,
                            fmt,
                        );
                    }
                },
                KeyDesc::DescFunction { num, mods } => {
                    lemma_format_parse_function(num, X_TermKey_KeyMod { bits: mods }, fmt);
                },
                KeyDesc::DescKeySym { sym, mods } => {
                    lemma_format_parse_keysym(sym, X_TermKey_KeyMod { bits: mods }, fmt);
                },
                _ => {},
            }
        },
        None => {},
    }
}

} // verus!

verus! {

/// Only the Space entry of the table is named `Space`.
proof fn lemma_space_name_unique(j: int)
    requires
        2 <= j < SYM_COUNT,
        spec_sym_at(j).spec_name() == "Space"@,
    ensures
        j == 6,
{
    reveal_strlit("Space");
    if j != 6 {
        if j == 2 {
            reveal_strlit("Backspace");
            assert(spec_sym_at(2).spec_name().len() == 9);
            assert(false);
        }
        if j == 3 {
            reveal_strlit("Tab");
            assert(spec_sym_at(3).spec_name().len() == 3);
            assert(false);
        }
        if j == 4 {
            reveal_strlit("Enter");
            assert(spec_sym_at(4).spec_name()[0] == 'E');
            assert(false);
        }
        if j == 5 {
            reveal_strlit("Escape");
            assert(spec_sym_at(5).spec_name().len() == 6);
            assert(false);
        }
        if j == 6 {
        }
        if j == 7 {
            reveal_strlit("DEL");
            assert(spec_sym_at(7).spec_name().len() == 3);
            assert(false);
        }
        if j == 8 {
            reveal_strlit("Up");
            assert(spec_sym_at(8).spec_name().len() == 2);
            assert(false);
        }
        if j == 9 {
            reveal_strlit("Down");
            assert(spec_sym_at(9).spec_name().len() == 4);
            assert(false);
        }
        if j == 10 {
            reveal_strlit("Left");
            assert(spec_sym_at(10).spec_name().len() == 4);
            assert(false);
        }
        if j == 11 {
            reveal_strlit("Right");
            assert(spec_sym_at(11).spec_name()[0] == 'R');
            assert(false);
        }
        if j == 12 {
            reveal_strlit("Begin");
            assert(spec_sym_at(12).spec_name()[0] == 'B');
            assert(false);
        }
        if j == 13 {
            reveal_strlit("Find");
            assert(spec_sym_at(13).spec_name().len() == 4);
            assert(false);
        }
        if j == 14 {
            reveal_strlit("Insert");
            assert(spec_sym_at(14).spec_name().len() == 6);
            assert(false);
        }
        if j == 15 {
            reveal_strlit("Delete");
            assert(spec_sym_at(15).spec_name().len() == 6);
            assert(false);
        }
        if j == 16 {
            reveal_strlit("Select");
            assert(spec_sym_at(16).spec_name().len() == 6);
            assert(false);
        }
        if j == 17 {
            reveal_strlit("PageUp");
            assert(spec_sym_at(17).spec_name().len() == 6);
            assert(false);
        }
        if j == 18 {
            reveal_strlit("PageDown");
            assert(spec_sym_at(18).spec_name().len() == 8);
            assert(false);
        }
        if j == 19 {
            reveal_strlit("Home");
            assert(spec_sym_at(19).spec_name().len() == 4);
            assert(false);
        }
        if j == 20 {
            reveal_strlit("End");
            assert(spec_sym_at(20).spec_name().len() == 3);
            assert(false);
        }
        if j == 21 {
            reveal_strlit("Cancel");
            assert(spec_sym_at(21).spec_name().len() == 6);
            assert(false);
        }
        if j == 22 {
            reveal_strlit("Clear");
            assert(spec_sym_at(22).spec_name()[0] == 'C');
            assert(false);
        }
        if j == 23 {
            reveal_strlit("Close");
            assert(spec_sym_at(23).spec_name()[0] == 'C');
            assert(false);
        }
        if j == 24 {
            reveal_strlit("Command");
            assert(spec_sym_at(24).spec_name().len() == 7);
            assert(false);
        }
        if j == 25 {
            reveal_strlit("Copy");
            assert(spec_sym_at(25).spec_name().len() == 4);
            assert(false);
        }
        if j == 26 {
            reveal_strlit("Exit");
            assert(spec_sym_at(26).spec_name().len() == 4);
            assert(false);
        }
        if j == 27 {
            reveal_strlit("Help");
            assert(spec_sym_at(27).spec_name().len() == 4);
            assert(false);
        }
        if j == 28 {
            reveal_strlit("Mark");
            assert(spec_sym_at(28).spec_name().len() == 4);
            assert(false);
        }
        if j == 29 {
            reveal_strlit("Message");
            assert(spec_sym_at(29).spec_name().len() == 7);
            assert(false);
        }
        if j == 30 {
            reveal_strlit("Move");
            assert(spec_sym_at(30).spec_name().len() == 4);
            assert(false);
        }
        if j == 31 {
            reveal_strlit("Open");
            assert(spec_sym_at(31).spec_name().len() == 4);
            assert(false);
        }
        if j == 32 {
            reveal_strlit("Options");
            assert(spec_sym_at(32).spec_name().len() == 7);
            assert(false);
        }
        if j == 33 {
            reveal_strlit("Print");
            assert(spec_sym_at(33).spec_name()[0] == 'P');
            assert(false);
        }
        if j == 34 {
            reveal_strlit("Redo");
            assert(spec_sym_at(34).spec_name().len() == 4);
            assert(false);
        }
        if j == 35 {
            reveal_strlit("Reference");
            assert(spec_sym_at(35).spec_name().len() == 9);
            assert(false);
        }
        if j == 36 {
            reveal_strlit("Refresh");
            assert(spec_sym_at(36).spec_name().len() == 7);
            assert(false);
        }
        if j == 37 {
            reveal_strlit("Replace");
            assert(spec_sym_at(37).spec_name().len() == 7);
            assert(false);
        }
        if j == 38 {
            reveal_strlit("Restart");
            assert(spec_sym_at(38).spec_name().len() == 7);
            assert(false);
        }
        if j == 39 {
            reveal_strlit("Resume");
            assert(spec_sym_at(39).spec_name().len() == 6);
            assert(false);
        }
        if j == 40 {
            reveal_strlit("Save");
            assert(spec_sym_at(40).spec_name().len() == 4);
            assert(false);
        }
        if j == 41 {
            reveal_strlit("Suspend");
            assert(spec_sym_at(41).spec_name().len() == 7);
            assert(false);
        }
        if j == 42 {
            reveal_strlit("Undo");
            assert(spec_sym_at(42).spec_name().len() == 4);
            assert(false);
        }
        if j == 43 {
            reveal_strlit("KP0");
            assert(spec_sym_at(43).spec_name().len() == 3);
            assert(false);
        }
        if j == 44 {
            reveal_strlit("KP1");
            assert(spec_sym_at(44).spec_name().len() == 3);
            assert(false);
        }
        if j == 45 {
            reveal_strlit("KP2");
            assert(spec_sym_at(45).spec_name().len() == 3);
            assert(false);
        }
        if j == 46 {
            reveal_strlit("KP3");
            assert(spec_sym_at(46).spec_name().len() == 3);
            assert(false);
        }
        if j == 47 {
            reveal_strlit("KP4");
            assert(spec_sym_at(47).spec_name().len() == 3);
            assert(false);
        }
        if j == 48 {
            reveal_strlit("KP5");
            assert(spec_sym_at(48).spec_name().len() == 3);
            assert(false);
        }
        if j == 49 {
            reveal_strlit("KP6");
            assert(spec_sym_at(49).spec_name().len() == 3);
            assert(false);
        }
        if j == 50 {
            reveal_strlit("KP7");
            assert(spec_sym_at(50).spec_name().len() == 3);
            assert(false);
        }
        if j == 51 {
            reveal_strlit("KP8");
            assert(spec_sym_at(51).spec_name().len() == 3);
            assert(false);
        }
        if j == 52 {
            reveal_strlit("KP9");
            assert(spec_sym_at(52).spec_name().len() == 3);
            assert(false);
        }
        if j == 53 {
            reveal_strlit("KPEnter");
            assert(spec_sym_at(53).spec_name().len() == 7);
            assert(false);
        }
        if j == 54 {
            reveal_strlit("KPPlus");
            assert(spec_sym_at(54).spec_name().len() == 6);
            assert(false);
        }
        if j == 55 {
            reveal_strlit("KPMinus");
            assert(spec_sym_at(55).spec_name().len() == 7);
            assert(false);
        }
        if j == 56 {
            reveal_strlit("KPMult");
            assert(spec_sym_at(56).spec_name().len() == 6);
            assert(false);
        }
        if j == 57 {
            reveal_strlit("KPDiv");
            assert(spec_sym_at(57).spec_name()[0] == 'K');
            assert(false);
        }
        if j == 58 {
            reveal_strlit("KPComma");
            assert(spec_sym_at(58).spec_name().len() == 7);
            assert(false);
        }
        if j == 59 {
            reveal_strlit("KPPeriod");
            assert(spec_sym_at(59).spec_name().len() == 8);
            assert(false);
        }
        if j == 60 {
            reveal_strlit("KPEquals");
            assert(spec_sym_at(60).spec_name().len() == 8);
            assert(false);
        }
    }
}

} // verus!

verus! {

/// The two spellings of the space key under the plain format flags:
/// the space character and the name `Space` both parse fully to the
/// space key, and canonicalization maps either reading to the flagged
/// form — the symbolic Space key under SPACESYMBOL, the plain space
/// character without it.  Through `strpkey`'s contract this pins both
/// spellings at the session, with and without the flag.
#[verifier::spinoff_prover]
pub proof fn lemma_space_spellings(c: crate::flags::X_TermKey_Canon)
    ensures
        spec_parse(" "@, TermKeyFormat { bits: 0 }) == Some(
            (KeyDesc::DescUnicode { cp: 32u32, mods: 0u16 }, 1int),
        ),
        spec_parse("Space"@, TermKeyFormat { bits: 0 }) == Some(
            (KeyDesc::DescKeySym { sym: TermKeySym::TERMKEY_SYM_SPACE, mods: 0u16 }, 5int),
        ),
        c.spec_spacesymbol() ==> crate::event::spec_canon(
            KeyDesc::DescUnicode { cp: 32u32, mods: 0u16 },
            c,
        ) == (KeyDesc::DescKeySym { sym: TermKeySym::TERMKEY_SYM_SPACE, mods: 0u16 })
            && crate::event::spec_canon(
            KeyDesc::DescKeySym { sym: TermKeySym::TERMKEY_SYM_SPACE, mods: 0u16 },
            c,
        ) == (KeyDesc::DescKeySym { sym: TermKeySym::TERMKEY_SYM_SPACE, mods: 0u16 }),
        !c.spec_spacesymbol() ==> crate::event::spec_canon(
            KeyDesc::DescUnicode { cp: 32u32, mods: 0u16 },
            c,
        ) == (KeyDesc::DescUnicode { cp: 32u32, mods: 0u16 }) && crate::event::spec_canon(
            KeyDesc::DescKeySym { sym: TermKeySym::TERMKEY_SYM_SPACE, mods: 0u16 },
            c,
        ) == (KeyDesc::DescUnicode { cp: 32u32, mods: 0u16 }),
{
    let fmt0 = TermKeyFormat { bits: 0 };
    assert(0u16 & 1u16 == 0 && 0u16 & 2u16 == 0 && 0u16 & 4u16 == 0 && 0u16 & 8u16 == 0 && 0u16
        & 16u16 == 0 && 0u16 & 32u16 == 0 && 0u16 & 64u16 == 0 && 0u16 & 256u16 == 0 && 0u16
        | 0u16 == 0u16) by (bit_vector);
    lemma_token_shape(fmt0);
    reveal_strlit(" ");
    reveal_strlit("Space");
    reveal_strlit("S");
    let sep = spec_sep(fmt0);
    let ct = spec_ctrl_name(fmt0) + seq![sep];
    let at = spec_alt_name(fmt0) + seq![sep];
    let st = spec_shift_name(fmt0) + seq![sep];

    // the space-character spelling
    let s1 = " "@;
    assert(s1.len() == 1);
    if ct.is_prefix_of(s1) {
        assert(ct.len() <= 1);
        assert(false);
    }
    if at.is_prefix_of(s1) {
        assert(at.len() <= 1);
        assert(false);
    }
    if st.is_prefix_of(s1) {
        assert(st.len() <= 1);
        assert(false);
    }
    assert(spec_parse_mods(s1, fmt0) == (0u16, 0int));
    assert(s1.skip(0) =~= s1);
    lemma_lookup_none_short(s1, fmt0);
    assert(s1[0] == ' ');
    assert(' ' as u32 == 32);
    assert(spec_parse_base(s1, fmt0) == Some(
        (KeyDesc::DescUnicode { cp: 32u32, mods: 0u16 }, 1int),
    ));
    assert(spec_parse(s1, fmt0) == Some((KeyDesc::DescUnicode { cp: 32u32, mods: 0u16 }, 1int)));

    // the Space-name spelling
    let s2 = "Space"@;
    assert(s2.len() == 5);
    assert(s2[0] == 'S' && s2[1] == 'p');
    if ct.is_prefix_of(s2) {
        assert(ct[0] == s2[0]);
        assert(false);
    }
    if at.is_prefix_of(s2) {
        assert(at[0] == s2[0]);
        assert(false);
    }
    if st.is_prefix_of(s2) {
        assert(st.len() == 2);
        assert(st[1] == s2[1]);
        assert(false);
    }
    assert(spec_parse_mods(s2, fmt0) == (0u16, 0int));
    assert(s2.skip(0) =~= s2);
    assert(spec_display_name(spec_sym_at(6), fmt0) == "Space"@);
    assert("Space"@.is_prefix_of(s2)) by {
        assert(s2.subrange(0, 5) =~= s2);
    }
    lemma_lookup_bounds(s2, fmt0, 2);
    assert(spec_lookup(s2, fmt0) is Some);
    let (sy, n) = spec_lookup(s2, fmt0)->Some_0;
    assert(spec_display_name(sy, fmt0).len() == n);
    assert(n >= 5 && n <= 5);
    assert(spec_display_name(sy, fmt0) =~= s2.subrange(0, 5));
    assert(s2.subrange(0, 5) =~= s2);
    assert(sy.spec_name() == "Space"@);
    lemma_space_name_unique(sy.spec_index());
    assert(spec_sym_at(6) == TermKeySym::TERMKEY_SYM_SPACE);
    assert(sy == TermKeySym::TERMKEY_SYM_SPACE);
    assert(spec_parse_base(s2, fmt0) == Some(
        (KeyDesc::DescKeySym { sym: TermKeySym::TERMKEY_SYM_SPACE, mods: 0u16 }, 5int),
    ));
    assert(spec_parse(s2, fmt0) == Some(
        (KeyDesc::DescKeySym { sym: TermKeySym::TERMKEY_SYM_SPACE, mods: 0u16 }, 5int),
    ));
}

} // verus!
