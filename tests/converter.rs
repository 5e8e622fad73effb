use manchu_converter::{
    convert_graphemes, convert_latin_to_manchu_unicode, get_latin_manchu_map,
    words_to_manchu_unicode, ManchuConverter,
};

#[test]
fn it_works() {
    let latin_manchu_map = get_latin_manchu_map();
    let result = convert_latin_to_manchu_unicode("takūrafi", &latin_manchu_map, &None).unwrap();
    assert_eq!(
        result,
        vec![0x1868, 0x1820, 0x1874, 0x1861, 0x1875, 0x1820, 0x1876, 0x1873]
    );

    let text = "cooha be acaha";
    let r = text.convert_to_manchu(&None).unwrap();
    assert_eq!(r, "ᠴᠣᠣᡥᠠ ᠪᡝ ᠠᠴᠠᡥᠠ");

    let text_ng = "wesimburengge";
    let r_ng = text_ng.convert_to_manchu(&None).unwrap();
    assert_eq!(r_ng, "ᠸᡝᠰᡳᠮᠪᡠᡵᡝᠩᡤᡝ");

    let text = "cooha be\nacaha";
    let r = text.convert_to_manchu(&None).unwrap();
    assert_eq!(r, "ᠴᠣᠣᡥᠠ ᠪᡝ\nᠠᠴᠠᡥᠠ");
}

fn codes(word: &str) -> Vec<u16> {
    let map = get_latin_manchu_map();
    convert_latin_to_manchu_unicode(word, &map, &None).unwrap()
}

#[test]
fn doc_example_manju() {
    assert_eq!("manju".convert_to_manchu(&None).unwrap(), "\u{182E}\u{1820}\u{1828}\u{1835}\u{1860}");
}

#[test]
fn single_spellings_map_one_to_one() {
    assert_eq!(codes("abe"), vec![0x1820, 0x182A, 0x185D]);
    assert_eq!(codes("n"), vec![0x1828]);
    assert_eq!(codes("g"), vec![0x1864]);
    assert_eq!(codes("vx"), vec![0x1861, 0x1867]);
    assert_eq!(codes("ūš"), vec![0x1861, 0x1867]);
}

#[test]
fn ng_is_one_unit() {
    assert_eq!(codes("ng"), vec![0x1829]);
    assert_eq!(codes("nga"), vec![0x1829, 0x1820]);
    assert_eq!(codes("gn"), vec![0x1864, 0x1828]);
    assert_eq!(codes("wesimburengge").len(), "wesimburengge".len() - 1);
}

#[test]
fn multi_character_units() {
    assert_eq!(codes("dz"), vec![0x186F]);
    assert_eq!(codes("k'"), vec![0x183B]);
    assert_eq!(codes("g'"), vec![0x186C]);
    assert_eq!(codes("h'"), vec![0x186D]);
    assert_eq!(codes("ts'"), vec![0x186E]);
    assert_eq!(codes("c'y"), vec![0x1871]);
    assert_eq!(codes("ts'e"), vec![0x186E, 0x185D]);
}

#[test]
fn short_lookahead_at_word_end() {
    assert_eq!(codes("ts"), vec![0x1868, 0x1830]);
    assert_eq!(codes("c"), vec![0x1834]);
    let map = get_latin_manchu_map();
    assert!(convert_latin_to_manchu_unicode("c'", &map, &None).is_err());
}

#[test]
fn takurafi_longest_match() {
    assert_eq!(
        codes("takūrafi"),
        vec![0x1868, 0x1820, 0x1874, 0x1861, 0x1875, 0x1820, 0x1876, 0x1873]
    );
}

#[test]
fn unmappable_word_fails_in_both_modes() {
    let map = get_latin_manchu_map();
    assert_eq!(
        convert_latin_to_manchu_unicode("a1", &map, &None),
        Err("Error: Valid syllable not found in \"a1\"".to_string())
    );
    assert!(convert_latin_to_manchu_unicode("a1", &map, &Some(true)).is_err());
    assert!(convert_latin_to_manchu_unicode("Manju", &map, &None).is_err());
    assert!(convert_latin_to_manchu_unicode("u\u{304}", &map, &None).is_err());
}

#[test]
fn graphemes_are_matched_as_units() {
    let map = get_latin_manchu_map();
    assert_eq!(convert_graphemes(&vec!["n", "g"], &map), Some(vec![0x1829]));
    assert_eq!(convert_graphemes(&vec!["ng"], &map), Some(vec![0x1829]));
    assert_eq!(convert_graphemes(&vec!["a", "b"], &map), Some(vec![0x1820, 0x182A]));
    assert_eq!(convert_graphemes(&vec!["ab"], &map), None);
    assert_eq!(convert_graphemes(&vec![], &map), Some(vec![]));
}

#[test]
fn words_are_space_joined() {
    assert_eq!(
        "cooha be acaha".convert_to_manchu(&None).unwrap(),
        "ᠴᠣᠣᡥᠠ ᠪᡝ ᠠᠴᠠᡥᠠ"
    );
    assert_eq!(
        "  cooha \t be  ".convert_to_manchu(&None).unwrap(),
        "ᠴᠣᠣᡥᠠ ᠪᡝ"
    );
}

#[test]
fn lines_are_kept() {
    assert_eq!(
        "cooha be\nacaha".convert_to_manchu(&None).unwrap(),
        "ᠴᠣᠣᡥᠠ ᠪᡝ\nᠠᠴᠠᡥᠠ"
    );
    assert_eq!(
        "cooha be\r\nacaha\n".convert_to_manchu(&None).unwrap(),
        "ᠴᠣᠣᡥᠠ ᠪᡝ\nᠠᠴᠠᡥᠠ"
    );
    assert_eq!("be\n\nbe".convert_to_manchu(&None).unwrap(), "ᠪᡝ\n\nᠪᡝ");
}

#[test]
fn failure_names_only_unmappable_words() {
    assert_eq!(
        "cooha 3be".convert_to_manchu(&None),
        Err("Error: Valid syllable not found in [\"3be\"]".to_string())
    );
    assert_eq!(
        "x1 be\nacaha y2 x1".convert_to_manchu(&Some(false)),
        Err("Error: Valid syllable not found in [\"x1\", \"y2\", \"x1\"]".to_string())
    );
}

#[test]
fn tolerant_mode_keeps_unmappable_words() {
    assert_eq!(
        "cooha 3be".convert_to_manchu(&Some(true)),
        Ok("ᠴᠣᠣᡥᠠ 3be".to_string())
    );
    assert_eq!(
        "x1 be\nQ".convert_to_manchu(&Some(true)),
        Ok("x1 ᠪᡝ\nQ".to_string())
    );
}

#[test]
fn empty_text_converts_to_empty() {
    assert_eq!("".convert_to_manchu(&None), Ok(String::new()));
    assert_eq!("".convert_to_manchu(&Some(true)), Ok(String::new()));
}

#[test]
fn line_of_words() {
    let map = get_latin_manchu_map();
    assert_eq!(
        words_to_manchu_unicode(vec!["cooha", "be"], &map, &None),
        Ok("ᠴᠣᠣᡥᠠ ᠪᡝ".to_string())
    );
    assert_eq!(
        words_to_manchu_unicode(vec!["cooha", "9", "z"], &map, &None),
        Err(Err("Error: Valid syllable not found in [\"9\", \"z\"]".to_string()))
    );
    assert_eq!(
        words_to_manchu_unicode(vec!["cooha", "9"], &map, &Some(true)),
        Ok("ᠴᠣᠣᡥᠠ 9".to_string())
    );
    assert_eq!(words_to_manchu_unicode(vec![], &map, &None), Ok(String::new()));
}

#[test]
fn table_lookup() {
    let map = get_latin_manchu_map();
    assert_eq!(map.get("a"), Some(0x1820));
    assert_eq!(map.get("c'y"), Some(0x1871));
    assert_eq!(map.get("ng"), Some(0x1829));
    assert_eq!(map.get("q"), None);
    assert_eq!(map.get(""), None);
    assert_eq!(map.get("nga"), None);
}
