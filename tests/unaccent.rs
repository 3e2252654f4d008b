use unaccent::{remove_combining_marks, unaccent};

#[test]
fn test_basic_characters() {
    assert_eq!(unaccent("José"), "Jose");
    assert_eq!(unaccent("João"), "Joao");
    assert_eq!(unaccent("Água"), "Agua");
    assert_eq!(unaccent("Müller"), "Muller");
}

#[test]
fn test_mixed_characters() {
    assert_eq!(unaccent("crème brûlée"), "creme brulee");
    assert_eq!(unaccent("coração"), "coracao");
    assert_eq!(unaccent("niño"), "nino");
    assert_eq!(unaccent("über"), "uber");
}

#[test]
fn test_no_accents() {
    assert_eq!(unaccent("hello"), "hello");
    assert_eq!(unaccent("world"), "world");
}

#[test]
fn test_empty_string() {
    assert_eq!(unaccent(""), "");
}

#[test]
fn test_special_characters() {
    assert_eq!(unaccent("@#!$%"), "@#!$%");
    assert_eq!(unaccent("12345"), "12345");
}

#[test]
fn test_unicode_characters() {
    assert_eq!(unaccent("你好"), "你好");
    assert_eq!(unaccent("résumé"), "resume");
    assert_eq!(unaccent("coöperate"), "cooperate");
}

#[test]
fn test_korean_text() {
    assert_eq!(unaccent("한글"), "한글");
    assert_eq!(unaccent("한국어"), "한국어");
    assert_eq!(unaccent("안녕하세요"), "안녕하세요");
}

#[test]
fn single_mark_removed() {
    assert_eq!(unaccent("café"), "cafe");
    assert_eq!(unaccent("Café au lait"), "Cafe au lait");
}

#[test]
fn two_marks_removed() {
    // e with dot below and circumflex; u with diaeresis and acute
    assert_eq!(unaccent("\u{1EC7}"), "e");
    assert_eq!(unaccent("\u{01D8}"), "u");
    assert_eq!(unaccent("Vi\u{1EC7}t"), "Viet");
}

#[test]
fn decomposed_input_loses_its_marks() {
    assert_eq!(unaccent("e\u{0301}\u{0323}"), "e");
    assert_eq!(unaccent("a\u{0300}b"), "ab");
}

#[test]
fn letters_without_decomposition_are_kept() {
    assert_eq!(unaccent("ø"), "ø");
    assert_eq!(unaccent("Ø"), "Ø");
    assert_eq!(unaccent("ł"), "ł");
    assert_eq!(unaccent("đ"), "đ");
    assert_eq!(unaccent("óòôöõøō"), "oooooøo");
}

#[test]
fn unaccent_is_idempotent() {
    for t in ["crème brûlée", "\u{1EC7}", "한글", "Ångström", "", "ø"] {
        let once = unaccent(t);
        assert_eq!(unaccent(&once), once);
    }
}

#[test]
fn base_characters_keep_their_order() {
    let chars = vec!['e', '\u{0301}', 'a', '\u{0300}', '\u{0323}', 'b'];
    assert_eq!(remove_combining_marks(&chars), vec!['e', 'a', 'b']);
    assert_eq!(remove_combining_marks(&vec!['\u{0301}']), Vec::<char>::new());
    assert_eq!(remove_combining_marks(&Vec::new()), Vec::<char>::new());
    assert_eq!(remove_combining_marks(&vec!['x', 'y']), vec!['x', 'y']);
}

#[test]
fn conjoining_jamo_are_composed() {
    // neither jamo decomposes nor is a mark, yet composition joins them
    assert_eq!(unaccent("\u{1100}\u{1161}"), "\u{AC00}");
}

#[test]
fn output_holds_no_combining_mark() {
    let out = unaccent("Ångström ệ ǘ naïve");
    assert_eq!(out, "Angstrom e u naive");
}
