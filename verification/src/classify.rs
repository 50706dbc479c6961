//! Classification of single bytes into the categories that select a display colour.

use vstd::prelude::*;

verus! {

/// Semantic category of a byte.
#[derive(Clone, Copy, Debug, PartialEq, Eq, Structural)]
pub enum Category {
    /// Visible, non-space ASCII (33 to 126).
    Printable,
    /// ASCII space, tab, line feed, form feed or carriage return.
    Whitespace,
    /// Remaining ASCII control characters (0 to 31, and 127).
    Control,
    /// Bytes outside the 7-bit range (128 and above).
    Extended,
    /// Total default; no byte reaches it.
    Other,
}

/// The colours the viewer paints with.
#[derive(Clone, Copy, Debug, PartialEq, Eq, Structural)]
pub enum Paint {
    /// The terminal's default colour.
    Reset,
    Cyan,
    Red,
    Yellow,
    Green,
    White,
    Black,
}

/// Visible, non-space ASCII.
pub open spec fn is_graphic(byte: u8) -> bool {
    33 <= byte <= 126
}

/// Space, horizontal tab, line feed, form feed, carriage return.
pub open spec fn is_whitespace(byte: u8) -> bool {
    byte == 32 || byte == 9 || byte == 10 || byte == 12 || byte == 13
}

/// ASCII control characters: 0 to 31, and 127.
pub open spec fn is_control(byte: u8) -> bool {
    byte <= 31 || byte == 127
}

/// The category of a byte: the first matching rule wins.
pub open spec fn category_of(byte: u8) -> Category {
    if is_graphic(byte) {
        Category::Printable
    } else if is_whitespace(byte) {
        Category::Whitespace
    } else if is_control(byte) {
        Category::Control
    } else if byte >= 128 {
        Category::Extended
    } else {
        Category::Other
    }
}

/// The fixed colour of each category.
pub open spec fn color_of(category: Category) -> Paint {
    match category {
        Category::Printable => Paint::Cyan,
        Category::Whitespace => Paint::Red,
        Category::Control => Paint::Reset,
        Category::Extended => Paint::Yellow,
        Category::Other => Paint::Green,
    }
}

/// Whether `byte` is visible, non-space ASCII.
pub fn byte_is_graphic(byte: u8) -> (res: bool)
    ensures
        res == is_graphic(byte),
{
    33 <= byte && byte <= 126
}

/// Whether `byte` is ASCII whitespace.
pub fn byte_is_whitespace(byte: u8) -> (res: bool)
    ensures
        res == is_whitespace(byte),
{
    byte == 32 || byte == 9 || byte == 10 || byte == 12 || byte == 13
}

/// Whether `byte` is an ASCII control character.
pub fn byte_is_control(byte: u8) -> (res: bool)
    ensures
        res == is_control(byte),
{
    byte <= 31 || byte == 127
}

/// Classifies a byte. Total over all 256 values.
pub fn classify(byte: u8) -> (res: Category)
    ensures
        res == category_of(byte),
{
    if byte_is_graphic(byte) {
        Category::Printable
    } else if byte_is_whitespace(byte) {
        Category::Whitespace
    } else if byte_is_control(byte) {
        Category::Control
    } else if byte >= 128 {
        Category::Extended
    } else {
        Category::Other
    }
}

/// The display colour of a category.
pub fn category_color(category: Category) -> (res: Paint)
    ensures
        res == color_of(category),
{
    match category {
        Category::Printable => Paint::Cyan,
        Category::Whitespace => Paint::Red,
        Category::Control => Paint::Reset,
        Category::Extended => Paint::Yellow,
        Category::Other => Paint::Green,
    }
}

/// The display colour of a byte, by its category.
pub fn get_color_by_category(byte: u8) -> (res: Paint)
    ensures
        res == color_of(category_of(byte)),
{
    category_color(classify(byte))
}

/// Every byte falls in exactly one of the four reachable categories, and the
/// categories split the byte range as documented; `Other` is never produced.
pub proof fn lemma_classification_is_a_partition(byte: u8)
    ensures
        category_of(byte) != Category::Other,
        category_of(byte) == Category::Printable <==> 33 <= byte <= 126,
        category_of(byte) == Category::Whitespace <==> (byte == 32 || byte == 9 || byte == 10
            || byte == 12 || byte == 13),
        category_of(byte) == Category::Control <==> ((byte <= 31 || byte == 127) && byte != 9
            && byte != 10 && byte != 12 && byte != 13),
        category_of(byte) == Category::Extended <==> byte >= 128,
{
}

} // verus!
