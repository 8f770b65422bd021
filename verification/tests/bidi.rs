use unicode_shaper::cjk::is_cjk;
use unicode_shaper::ubidi::Chunk;
use unicode_shaper::ubidi::Type;
use unicode_shaper::ubidi::get_type;
use unicode_shaper::ubidi::is_neutral;
use unicode_shaper::ubidi::is_rtl;
use unicode_shaper::ubidi::is_weak;
use unicode_shaper::ubidi::process_bidi_text;

#[test]
fn ubidi_basic_string() {
    let my_string = "Hello, 你好";
    let utf16_slice: Vec<u16> = my_string.encode_utf16().collect();
    let utf16_ref: &[u16] = &utf16_slice;
    let result: &[u16] = &process_bidi_text(utf16_ref);
    assert_eq!(result, utf16_ref);
}

#[test]
fn ubidi_arabic_string() {
    let input_utf16_ref: &[u16] = &[65203, 65276, 65249, 1779, 1785];
    let expected_utf16_ref: &[u16] = &[1779, 1785, 65249, 65276, 65203];
    let result: &[u16] = &process_bidi_text(input_utf16_ref);
    assert_ne!(result, input_utf16_ref);
    assert_eq!(result, expected_utf16_ref);
}

#[test]
fn ubidi_hebrew_string() {
    let input_utf16_ref: &[u16] = &[1468, 1489];
    let expected_utf16_ref: &[u16] = &[1489, 1468];
    let result: &[u16] = &process_bidi_text(input_utf16_ref);
    assert_ne!(result, input_utf16_ref);
    assert_eq!(result, expected_utf16_ref);
}

#[test]
fn check_is_rtl() {
    assert!(is_rtl(&0x05C3));
    assert!(!is_rtl(&0x01));
}

#[test]
fn check_is_cjk() {
    assert!(is_cjk(&0x4E00));
    assert!(!is_cjk(&0x01));
}

#[test]
fn classifies_directions() {
    assert!(is_neutral(&0x0020));
    assert!(is_weak(&0x05B4));
    assert_eq!(get_type(&0x05D0), Type::Rtl);
    assert_eq!(get_type(&0x0041), Type::Ltr);
    assert_eq!(get_type(&0x0020), Type::Neutral);
    assert_eq!(get_type(&0x0031), Type::Weak);
}

#[test]
fn mirrors_brackets_in_rtl_runs() {
    // alef, an opening parenthesis, bet: one right-to-left run; the
    // reversal mirrors the parenthesis
    let input: &[u16] = &[1488, 40, 1489];
    let expected: &[u16] = &[1489, 41, 1488];
    let result: &[u16] = &process_bidi_text(input);
    assert_eq!(result, expected);
}

#[test]
fn combining_mark_stays_with_its_base() {
    // a weak combining mark between right-to-left letters is carried
    // along, not reordered away from its base
    let input: &[u16] = &[1489, 1468, 1488];
    let expected: &[u16] = &[1488, 1468, 1489];
    let result: &[u16] = &process_bidi_text(input);
    assert_eq!(result, expected);
}

#[test]
fn joins_lines_with_line_feed() {
    // two left-to-right lines, the second after a carriage return
    let input: &[u16] = &[65, 66, 0x000D, 67];
    let expected: &[u16] = &[65, 66, 0x000A, 67];
    let result: &[u16] = &process_bidi_text(input);
    assert_eq!(result, expected);
}

#[test]
fn chunk_accessors_round_trip() {
    let mut c = Chunk::new(2, 5, Type::Neutral);
    assert_eq!(c.get_start(), 2);
    assert_eq!(c.get_end(), 5);
    assert!(c.is_type(Type::Neutral));
    c.set_type(Type::Rtl);
    assert!(c.is_type(Type::Rtl));
    let other = Chunk::new(0, 1, Type::Ltr);
    c.set_chunk_type(&other);
    assert!(c.is_type(Type::Ltr));
}

#[test]
fn weak_run_precedes_rtl_run_in_ltr_text() {
    // in left-to-right dominant text, a weak digit run after a
    // right-to-left run changes place with it
    let input: &[u16] = &[65, 1488, 49];
    let expected: &[u16] = &[65, 49, 1488];
    let result: &[u16] = &process_bidi_text(input);
    assert_eq!(result, expected);
}
