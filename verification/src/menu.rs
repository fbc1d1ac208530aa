//! The interactive menu's decision: which operation an operator's input
//! line selects. Reading and printing stay outside; the mapping from input
//! to operation is fixed here.

use vstd::prelude::*;
use crate::status::token_is;
use crate::text::{trim_chars, trimmed};

verus! {

/// The operations the menu offers. Anything but the six listed inputs is
/// `Invalid`, which is reported and re-prompted, never a crash.
#[derive(Debug, PartialEq, Eq, Clone, Copy)]
pub enum MenuChoice {
    Install,
    Remove,
    Status,
    Diagnostics,
    CheckUpdates,
    Exit,
    Invalid,
}

/// The operation an input line selects, once trimmed of surrounding
/// whitespace.
pub open spec fn menu_choice_spec(input: Seq<char>) -> MenuChoice {
    let t = trimmed(input);
    if t == seq!['1'] {
        MenuChoice::Install
    } else if t == seq!['2'] {
        MenuChoice::Remove
    } else if t == seq!['3'] {
        MenuChoice::Status
    } else if t == seq!['4'] {
        MenuChoice::Diagnostics
    } else if t == seq!['5'] {
        MenuChoice::CheckUpdates
    } else if t == seq!['6'] {
        MenuChoice::Exit
    } else {
        MenuChoice::Invalid
    }
}

/// Reads an operator's menu input line.
pub fn parse_menu_choice(input: &Vec<char>) -> (c: MenuChoice)
    ensures
        c == menu_choice_spec(input@),
{
    let t = trim_chars(input);
    if token_is(&t, '1') {
        MenuChoice::Install
    } else if token_is(&t, '2') {
        MenuChoice::Remove
    } else if token_is(&t, '3') {
        MenuChoice::Status
    } else if token_is(&t, '4') {
        MenuChoice::Diagnostics
    } else if token_is(&t, '5') {
        MenuChoice::CheckUpdates
    } else if token_is(&t, '6') {
        MenuChoice::Exit
    } else {
        MenuChoice::Invalid
    }
}

} // verus!
