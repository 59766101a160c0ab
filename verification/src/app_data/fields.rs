//! The editing rules that weapons and systems share: free text is replaced by
//! what was typed, and a number that was entered is clamped to its slider.

use vstd::prelude::*;

verus! {

/// The least cost that an entity can be given.
pub const COST_MIN: i32 = -5;

/// The greatest cost that an entity can be given.
pub const COST_MAX: i32 = 10;

/// `value`, or the bound of `low ..= high` that it lies beyond.
pub open spec fn clamped(value: i32, low: i32, high: i32) -> i32 {
    if value < low {
        low
    } else if value > high {
        high
    } else {
        value
    }
}

/// A clamped number lies within the bounds, and a number within the bounds is
/// left as it is.
pub proof fn lemma_clamped(value: i32, low: i32, high: i32)
    requires
        low <= high,
    ensures
        low <= clamped(value, low, high) <= high,
        low <= value <= high ==> clamped(value, low, high) == value,
{
}

/// A number behind a slider over `low ..= high`: what was entered, clamped, or
/// the number as it was where nothing was entered.
pub open spec fn slid(value: i32, entered: Option<i32>, low: i32, high: i32) -> i32 {
    match entered {
        Some(number) => clamped(number, low, high),
        None => value,
    }
}

/// A text behind an edit field: what was typed, or the text as it was.
pub open spec fn edited_text(text: Seq<char>, typed: Option<Seq<char>>) -> Seq<char> {
    match typed {
        Some(new_text) => new_text,
        None => text,
    }
}

/// A chosen member of an enumeration, or the member as it was.
pub open spec fn chosen<T>(member: T, choice: Option<T>) -> T {
    match choice {
        Some(new_member) => new_member,
        None => member,
    }
}

/// Brings `value` into `low ..= high`.
pub fn clamp(value: i32, low: i32, high: i32) -> (bounded: i32)
    ensures
        bounded == clamped(value, low, high),
{
    if value < low {
        low
    } else if value > high {
        high
    } else {
        value
    }
}

/// Applies what was entered into a slider over `low ..= high`.
pub fn slide(value: &mut i32, entered: Option<i32>, low: i32, high: i32)
    ensures
        *final(value) == slid(*old(value), entered, low, high),
{
    if let Some(number) = entered {
        *value = clamp(number, low, high);
    }
}

/// Applies what was typed into an edit field.
pub fn edit_text(text: &mut String, typed: &Option<String>)
    ensures
        final(text)@ == edited_text(old(text)@, typed.deep_view()),
{
    if let Some(new_text) = typed {
        *text = new_text.clone();
    }
}

} // verus!
