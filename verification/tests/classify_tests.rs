use termhex::classify::{
    byte_is_control, byte_is_graphic, byte_is_whitespace, category_color, classify,
    get_color_by_category, Category, Paint,
};

#[test]
fn letter_is_printable() {
    assert_eq!(classify(65), Category::Printable);
}

#[test]
fn line_feed_is_whitespace() {
    assert_eq!(classify(10), Category::Whitespace);
}

#[test]
fn high_byte_is_extended() {
    assert_eq!(classify(200), Category::Extended);
}

#[test]
fn category_boundaries() {
    assert_eq!(classify(0), Category::Control);
    assert_eq!(classify(8), Category::Control);
    assert_eq!(classify(9), Category::Whitespace);
    assert_eq!(classify(11), Category::Control);
    assert_eq!(classify(12), Category::Whitespace);
    assert_eq!(classify(13), Category::Whitespace);
    assert_eq!(classify(31), Category::Control);
    assert_eq!(classify(32), Category::Whitespace);
    assert_eq!(classify(33), Category::Printable);
    assert_eq!(classify(126), Category::Printable);
    assert_eq!(classify(127), Category::Control);
    assert_eq!(classify(128), Category::Extended);
    assert_eq!(classify(255), Category::Extended);
}

#[test]
fn classification_is_total_and_agrees_with_std() {
    for b in 0..=255u8 {
        let expected = if b.is_ascii_graphic() {
            Category::Printable
        } else if b.is_ascii_whitespace() {
            Category::Whitespace
        } else if b.is_ascii_control() {
            Category::Control
        } else {
            Category::Extended
        };
        assert_eq!(classify(b), expected);
        assert_eq!(classify(b), classify(b));
        assert_ne!(classify(b), Category::Other);
        assert_eq!(byte_is_graphic(b), b.is_ascii_graphic());
        assert_eq!(byte_is_whitespace(b), b.is_ascii_whitespace());
        assert_eq!(byte_is_control(b), b.is_ascii_control());
    }
}

#[test]
fn colours_by_category() {
    assert_eq!(category_color(Category::Printable), Paint::Cyan);
    assert_eq!(category_color(Category::Whitespace), Paint::Red);
    assert_eq!(category_color(Category::Control), Paint::Reset);
    assert_eq!(category_color(Category::Extended), Paint::Yellow);
    assert_eq!(category_color(Category::Other), Paint::Green);
    assert_eq!(get_color_by_category(b'A'), Paint::Cyan);
    assert_eq!(get_color_by_category(b' '), Paint::Red);
    assert_eq!(get_color_by_category(0), Paint::Reset);
    assert_eq!(get_color_by_category(0xff), Paint::Yellow);
}
