use unicode_shaper::buginese::shape_buginese;
use unicode_shaper::javanese::shape_javanese;
use unicode_shaper::khmer::shape_khmer;
use unicode_shaper::myanmar::shape_myanmar;
use unicode_shaper::tamil::shape_tamil;
use unicode_shaper::tibetan::shape_tibetan;

#[test]
fn javanese_javanese_test() {
    let input: &[u16] = &[0xA98F, 0xA9C0, 0xA98F, 0xA9BF, 0xA9BE, 0xA9BA, 0xA9BA, 0xA9B7];
    let expected: &[u16] = &[0xA9BA, 0xA9BA, 0xA98F, 0xA9C0, 0xA98F, 0xA9BF, 0xA9BE, 0xA9B7];
    let mut result = input.to_vec();
    shape_javanese(&mut result);
    assert_eq!(result, expected);
}

#[test]
fn javanese_2_test() {
    let input = "ꦧꦺꦲꦏ꧀ꦠꦸꦩꦿꦥ꧀ꦲ";
    let expected: &[u16] =
        &[43450, 43431, 43442, 43407, 43456, 43424, 43448, 43433, 43455, 43429, 43456, 43442];
    let input_utf16_slice: Vec<u16> = input.encode_utf16().collect();
    let input_utf16_ref: &[u16] = &input_utf16_slice;
    let mut result = input_utf16_ref.to_vec();
    shape_javanese(&mut result);
    assert_eq!(result, expected);
}

#[test]
fn khmer_test() {
    let input: &[u16] = &[0x1A00, 0x1A19, 0x034F, 0x1A19, 0x034F, 0x1A17];
    let expected: &[u16] = &[0x1A00, 0x1A19, 0x034F, 0x1A19, 0x034F, 0x1A17];
    let mut result = input.to_vec();
    shape_khmer(&mut result);
    assert_eq!(result, expected);
}

#[test]
fn khmer_2_test() {
    let input = "ᨔᨗᨔᨗᨊᨗᨊ";
    let expected: &[u16] = &[6676, 6679, 6676, 6679, 6666, 6679, 6666];
    let input_utf16_slice: Vec<u16> = input.encode_utf16().collect();
    let input_utf16_ref: &[u16] = &input_utf16_slice;
    let mut result = input_utf16_ref.to_vec();
    shape_khmer(&mut result);
    assert_eq!(result, expected);
}

#[test]
fn myanmar_myanmar_complex_2_test() {
    let input: &[u16] = &[
        0x1004, 0x103A, 0x1039, 0x1000, 0x1039, 0x1000, 0x103B, 0x103C, 0x103D, 0x1031, 0x1031,
        0x102D, 0x102F, 0x1036, 0x102C, 0x1036,
    ];
    let expected: &[u16] = &[
        0x1031, 0x1031, 0x103C, 0x1000, 0x1004, 0x103A, 0x1039, 0x1039, 0x1000, 0x103B, 0x103D,
        0x102D, 0x1036, 0x102F, 0x102C, 0x1036,
    ];
    let mut result = input.to_vec();
    shape_myanmar(&mut result);
    assert_eq!(result, expected);
}

#[test]
fn myanmar_complex_test() {
    let input = "င်္က္ကျြွှေို့်ာှီ့ၤဲံ့းႍ";
    let expected: &[u16] = &[
        4145, 4156, 4096, 4100, 4154, 4153, 4153, 4096, 4155, 4157, 4158, 4141, 4143, 4151, 4154,
        4140, 4158, 4142, 4151, 4196, 4146, 4150, 4151, 4152, 4237,
    ];
    let input_utf16_slice: Vec<u16> = input.encode_utf16().collect();
    let input_utf16_ref: &[u16] = &input_utf16_slice;
    let mut result = input_utf16_ref.to_vec();
    shape_myanmar(&mut result);
    assert_eq!(result, expected);
}

#[test]
fn myanmar_complex_3_test() {
    let input = "မြန်မာ";
    let expected: &[u16] = &[4156, 4121, 4116, 4154, 4121, 4140];
    let input_utf16_slice: Vec<u16> = input.encode_utf16().collect();
    let input_utf16_ref: &[u16] = &input_utf16_slice;
    let mut result = input_utf16_ref.to_vec();
    shape_myanmar(&mut result);
    assert_eq!(result, expected);
}

#[test]
fn shape_buginese_buginese_test() {
    let input: &[u16] = &[0x1A00, 0x1A19, 0x034F, 0x1A19, 0x034F, 0x1A17];
    let expected: &[u16] = &[0x1A19, 0x034F, 0x1A19, 0x034F, 0x1A17, 0x1A00];
    let mut result = input.to_vec();
    shape_buginese(&mut result);
    assert_eq!(result, expected);
}

#[test]
fn buginese_2_test() {
    let input = "ᨔᨗᨔᨗᨊᨗᨊ";
    let expected: &[u16] = &[6679, 6676, 6679, 6676, 6679, 6666, 6666];
    let input_utf16_slice: Vec<u16> = input.encode_utf16().collect();
    let input_utf16_ref: &[u16] = &input_utf16_slice;
    let mut result = input_utf16_ref.to_vec();
    shape_buginese(&mut result);
    assert_eq!(result, expected);
}

#[test]
fn buginese_3_test() {
    let input = "ᨑᨗ ᨍᨍᨗᨕᨂᨗ";
    let expected: &[u16] = &[6679, 6673, 32, 6679, 6669, 6669, 6679, 6677, 6658];
    let input_utf16_slice: Vec<u16> = input.encode_utf16().collect();
    let input_utf16_ref: &[u16] = &input_utf16_slice;
    let mut result = input_utf16_ref.to_vec();
    shape_buginese(&mut result);
    assert_eq!(result, expected);
}

#[test]
fn tibetan_test_above_base() {
    let input = "བོད་རང་སྐྱོང་ལྗོངས།";
    let expected: &[u16] = &[
        3964, 3926, 3921, 3851, 3938, 3908, 3851, 3964, 3942, 3984, 4017, 3908, 3851, 3964, 3939,
        3991, 3908, 3942, 3853,
    ];
    let input_utf16_slice: Vec<u16> = input.encode_utf16().collect();
    let input_utf16_ref: &[u16] = &input_utf16_slice;
    let mut result = input_utf16_ref.to_vec();
    shape_tibetan(&mut result);
    assert_eq!(result, expected);
}

#[test]
fn tibetan_test_below_base() {
    let input = "གུསར";
    let expected: &[u16] = &[3956, 3906, 3942, 3938];
    let input_utf16_slice: Vec<u16> = input.encode_utf16().collect();
    let input_utf16_ref: &[u16] = &input_utf16_slice;
    let mut result = input_utf16_ref.to_vec();
    shape_tibetan(&mut result);
    assert_eq!(result, expected);
}

#[test]
fn tibetan_test_compound_vowel() {
    let input = "གཱིསར";
    let expected: &[u16] = &[3955, 3906, 3942, 3938];
    let input_utf16_slice: Vec<u16> = input.encode_utf16().collect();
    let input_utf16_ref: &[u16] = &input_utf16_slice;
    let mut result = input_utf16_ref.to_vec();
    shape_tibetan(&mut result);
    assert_eq!(result, expected);
}

#[test]
fn tamil_vowel_swaps_with_predecessor() {
    let input: &[u16] = &[0x0B95, 3006];
    let expected: &[u16] = &[3006, 0x0B95];
    let mut result = input.to_vec();
    shape_tamil(&mut result);
    assert_eq!(result, expected);
}

#[test]
fn khmer_pre_base_vowel_moves_to_front() {
    let input: &[u16] = &[0x1780, 0x17C1];
    let expected: &[u16] = &[0x17C1, 0x1780];
    let mut result = input.to_vec();
    shape_khmer(&mut result);
    assert_eq!(result, expected);
}

#[test]
fn shapers_keep_the_length() {
    let samples: &[&[u16]] = &[
        &[0x1004, 0x103A, 0x1039, 0x1000, 0x1031, 0x1036],
        &[0x1A00, 0x1A19, 0x034F, 0x1A17],
        &[0xA98F, 0xA9BA, 0xA9B7],
        &[0x1780, 0x17C1, 0x17B7],
        &[3906, 3956, 3942],
        &[0x0B95, 3006, 3007],
    ];
    for sample in samples {
        let mut m = sample.to_vec();
        shape_myanmar(&mut m);
        assert_eq!(m.len(), sample.len());
        let mut b = sample.to_vec();
        shape_buginese(&mut b);
        assert_eq!(b.len(), sample.len());
        let mut j = sample.to_vec();
        shape_javanese(&mut j);
        assert_eq!(j.len(), sample.len());
        let mut k = sample.to_vec();
        shape_khmer(&mut k);
        assert_eq!(k.len(), sample.len());
        let mut t = sample.to_vec();
        shape_tibetan(&mut t);
        assert_eq!(t.len(), sample.len());
        let mut ta = sample.to_vec();
        shape_tamil(&mut ta);
        assert_eq!(ta.len(), sample.len());
    }
}

#[test]
fn whitespace_bounds_the_cluster() {
    // the space splits the cluster, so the pre-base vowel stays on its
    // own side of it and the space keeps its place
    let input: &[u16] = &[0x1000, 0x0020, 0x1031];
    let expected: &[u16] = &[0x1000, 0x0020, 0x1031];
    let mut result = input.to_vec();
    shape_myanmar(&mut result);
    assert_eq!(result, expected);
}

#[test]
fn pre_base_vowel_moves_within_its_cluster() {
    let input: &[u16] = &[0x1000, 0x1031];
    let expected: &[u16] = &[0x1031, 0x1000];
    let mut result = input.to_vec();
    shape_myanmar(&mut result);
    assert_eq!(result, expected);
}

#[test]
fn anusvara_crosses_every_below_base_vowel() {
    // the anusvara swaps left past the below-base vowel even at the
    // cluster's very start
    let input: &[u16] = &[0x102F, 0x1036];
    let expected: &[u16] = &[0x1036, 0x102F];
    let mut result = input.to_vec();
    shape_myanmar(&mut result);
    assert_eq!(result, expected);
}

#[test]
fn tibetan_vowel_without_head_letter_stays() {
    // no head letter precedes the vowel mark, so no relocation occurs
    let input: &[u16] = &[0x0F00, 0x0F72];
    let expected: &[u16] = &[0x0F00, 0x0F72];
    let mut result = input.to_vec();
    shape_tibetan(&mut result);
    assert_eq!(result, expected);
}
