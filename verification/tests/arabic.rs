use unicode_shaper::arabic::shape_arabic;
use unicode_shaper::buginese::is_buginese;
use unicode_shaper::javanese::is_javanese;
use unicode_shaper::khmer::is_khmer;
use unicode_shaper::myanmar::is_myanmar;
use unicode_shaper::options::NEW_TAIL_CHAR;
use unicode_shaper::options::U_SHAPE_AGGREGATE_TASHKEEL;
use unicode_shaper::options::U_SHAPE_LAMALEF_BEGIN;
use unicode_shaper::options::U_SHAPE_LAMALEF_END;
use unicode_shaper::options::U_SHAPE_LETTERS_SHAPE;
use unicode_shaper::options::U_SHAPE_LETTERS_SHAPE_TASHKEEL_ISOLATED;
use unicode_shaper::options::U_SHAPE_TASHKEEL_BEGIN;
use unicode_shaper::options::U_SHAPE_TASHKEEL_END;
use unicode_shaper::options::U_SHAPE_TASHKEEL_RESIZE;
use unicode_shaper::options::UShapeVariables;
use unicode_shaper::shape::shared_shaper;
use unicode_shaper::tamil::is_tamil;
use unicode_shaper::thai::is_thai;
use unicode_shaper::tibetan::is_tibetan;
use unicode_shaper::ubidi::Type;
use unicode_shaper::ubidi::find_dominant_type;
use unicode_shaper::ubidi::mirror_adjust_string;

#[test]
fn shapes_a_lone_letter_to_its_isolated_form() {
    // beh in logical order becomes its isolated presentation form
    let input: &[u16] = &[0x0628];
    let result = shape_arabic(input, &U_SHAPE_LETTERS_SHAPE);
    assert_eq!(result, vec![0xFE8F]);
}

#[test]
fn composes_the_lam_alef_ligature() {
    // lam then alef in logical order ligate, and the freed cell is dropped
    let input: &[u16] = &[0x0644, 0x0627];
    let result = shape_arabic(input, &U_SHAPE_LETTERS_SHAPE);
    assert_eq!(result, vec![0xFEFB]);
}

#[test]
fn tashkeel_resize_removes_the_diacritic() {
    // beh with a fatha: the resize option removes the diacritic entirely
    let input: &[u16] = &[0x0628, 0x064E];
    let options = U_SHAPE_LETTERS_SHAPE | U_SHAPE_TASHKEEL_RESIZE;
    let result = shape_arabic(input, &options);
    assert_eq!(result, vec![0xFE8F]);
}

#[test]
fn aggregates_a_fatha_shadda_pair() {
    // the aggregation option combines the fatha and the shadda into one
    // presentation form before shaping
    let input: &[u16] = &[0x0628, 0x064E, 0x0651];
    let options = U_SHAPE_LETTERS_SHAPE_TASHKEEL_ISOLATED | U_SHAPE_AGGREGATE_TASHKEEL;
    let result = shape_arabic(input, &options);
    assert_eq!(result, vec![0xFE8F, 0xFC60]);
}

#[test]
fn shared_shaper_swaps_each_match() {
    let mut buffer: Vec<u16> = vec![10, 20, 30];
    shared_shaper(&mut buffer, &[20]);
    assert_eq!(buffer, vec![20, 10, 30]);
}

#[test]
fn dominant_type_skips_weak_and_neutral() {
    // a digit and a space precede the first strong letter
    assert_eq!(find_dominant_type(&[0x0031, 0x0020, 0x05D0]), Type::Rtl);
    assert_eq!(find_dominant_type(&[0x0031, 0x0020, 0x0041]), Type::Ltr);
    assert_eq!(find_dominant_type(&[0x0031, 0x0020]), Type::Ltr);
}

#[test]
fn mirror_adjust_swaps_bracket_pairs() {
    let mut buffer: Vec<u16> = vec![40, 65, 41, 60];
    mirror_adjust_string(&mut buffer);
    assert_eq!(buffer, vec![41, 65, 40, 62]);
}

#[test]
fn script_classifiers_know_their_blocks() {
    assert!(is_myanmar(&0x1000));
    assert!(!is_myanmar(&0x0041));
    assert!(is_buginese(&0x1A00));
    assert!(!is_buginese(&0x0041));
    assert!(is_javanese(&0xA980));
    assert!(!is_javanese(&0x0041));
    assert!(is_khmer(&0x1780));
    assert!(!is_khmer(&0x0041));
    assert!(is_tibetan(&0x0F40));
    assert!(!is_tibetan(&0x0041));
    assert!(is_tamil(&0x0B95));
    assert!(!is_tamil(&0x0041));
    assert!(is_thai(&0xFE70));
    assert!(!is_thai(&0x0041));
}

#[test]
fn shape_variables_carry_their_fields() {
    let base = UShapeVariables::base();
    assert_eq!(base.tail_char, NEW_TAIL_CHAR);
    assert_eq!(base.u_shape_lamalef_begin, U_SHAPE_LAMALEF_BEGIN);
    assert_eq!(base.u_shape_lamalef_end, U_SHAPE_LAMALEF_END);
    assert_eq!(base.u_shape_tashkeel_begin, U_SHAPE_TASHKEEL_BEGIN);
    assert_eq!(base.u_shape_tashkeel_end, U_SHAPE_TASHKEEL_END);
    assert_eq!(base.spaces_relative_to_text_begin_end, 0);
    let custom = UShapeVariables::new(0x200B, 1, 2, 3, 4, 1);
    assert_eq!(custom.tail_char, 0x200B);
    assert_eq!(custom.u_shape_lamalef_begin, 1);
    assert_eq!(custom.u_shape_lamalef_end, 2);
    assert_eq!(custom.u_shape_tashkeel_begin, 3);
    assert_eq!(custom.u_shape_tashkeel_end, 4);
    assert_eq!(custom.spaces_relative_to_text_begin_end, 1);
}
