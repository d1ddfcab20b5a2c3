use genpi::kana::{halfwidth_units, is_hiragana_char, NotHiragana};
use genpi::name::Name;

fn name(first_kana: &str, last_kana: &str) -> Name {
    Name {
        first_name: "太郎".to_owned(),
        first_name_kana: first_kana.to_owned(),
        last_name: "山田".to_owned(),
        last_name_kana: last_kana.to_owned(),
    }
}

#[test]
fn katakana_is_hiragana_moved_up_by_0x60() {
    let all: String = (0x3041u32..=0x3096)
        .map(|code| char::from_u32(code).unwrap())
        .collect();
    let rendered = Name::hiragana_to_katakana(&all).unwrap();
    assert_eq!(rendered.chars().count(), 86);
    for (h, k) in all.chars().zip(rendered.chars()) {
        assert_eq!(k as u32, h as u32 + 0x60);
    }
    assert_eq!(Name::hiragana_to_katakana("たろう").unwrap(), "タロウ");
    assert_eq!(Name::hiragana_to_katakana("やまだ").unwrap(), "ヤマダ");
    assert_eq!(Name::hiragana_to_katakana("").unwrap(), "");
}

#[test]
fn halfwidth_of_voiced_sounds_has_a_mark() {
    assert_eq!(Name::hiragana_to_halfwidth_kana("たろう").unwrap(), "ﾀﾛｳ");
    assert_eq!(Name::hiragana_to_halfwidth_kana("やまだ").unwrap(), "ﾔﾏﾀﾞ");
    assert_eq!(Name::hiragana_to_halfwidth_kana("ぱぴぷぺぽ").unwrap(), "ﾊﾟﾋﾟﾌﾟﾍﾟﾎﾟ");
    assert_eq!(Name::hiragana_to_halfwidth_kana("ゔ").unwrap(), "ｳﾞ");
    assert_eq!(Name::hiragana_to_halfwidth_kana("").unwrap(), "");
    assert_eq!(halfwidth_units('が'), ('ｶ', Some('ﾞ')));
    assert_eq!(halfwidth_units('ぽ'), ('ﾎ', Some('ﾟ')));
    assert_eq!(halfwidth_units('ん'), ('ﾝ', None));
}

#[test]
fn halfwidth_of_small_letters() {
    assert_eq!(
        Name::hiragana_to_halfwidth_kana("ぁぃぅぇぉっゃゅょ").unwrap(),
        "ｧｨｩｪｫｯｬｭｮ"
    );
    assert_eq!(Name::hiragana_to_halfwidth_kana("をん").unwrap(), "ｦﾝ");
}

#[test]
fn rare_letters_borrow_the_nearest_halfwidth_letter() {
    assert_eq!(Name::hiragana_to_halfwidth_kana("ゎ").unwrap(), "ﾜ");
    assert_eq!(Name::hiragana_to_halfwidth_kana("ゐ").unwrap(), "ｲ");
    assert_eq!(Name::hiragana_to_halfwidth_kana("ゑ").unwrap(), "ｴ");
    assert_eq!(Name::hiragana_to_halfwidth_kana("ゕ").unwrap(), "ｶ");
    assert_eq!(Name::hiragana_to_halfwidth_kana("ゖ").unwrap(), "ｹ");
}

#[test]
fn whole_syllabary_in_halfwidth() {
    let all: String = (0x3041u32..=0x3096)
        .map(|code| char::from_u32(code).unwrap())
        .collect();
    let expected = "ｧｱｨｲｩｳｪｴｫｵｶｶﾞｷｷﾞｸｸﾞｹｹﾞｺｺﾞｻｻﾞｼｼﾞｽｽﾞｾｾﾞｿｿﾞﾀﾀﾞﾁﾁﾞｯﾂﾂﾞﾃﾃﾞﾄﾄﾞﾅﾆﾇﾈﾉﾊﾊﾞﾊﾟﾋﾋﾞﾋﾟﾌﾌﾞﾌﾟﾍﾍﾞﾍﾟﾎﾎﾞﾎﾟﾏﾐﾑﾒﾓｬﾔｭﾕｮﾖﾗﾘﾙﾚﾛﾜﾜｲｴｦﾝｳﾞｶｹ";
    assert_eq!(Name::hiragana_to_halfwidth_kana(&all).unwrap(), expected);
}

#[test]
fn characters_outside_the_block_are_not_hiragana() {
    for outside in ['a', ' ', 'ア', 'ｱ', '山', '\u{3040}', '\u{3097}', '\u{309B}', 'ー'] {
        assert!(!is_hiragana_char(outside));
        let text = format!("あ{}い", outside);
        assert_eq!(
            Name::hiragana_to_katakana(&text),
            Err(NotHiragana { ch: outside })
        );
        assert_eq!(
            Name::hiragana_to_halfwidth_kana(&text),
            Err(NotHiragana { ch: outside })
        );
        assert!(!Name::is_hiragana_str(&text));
    }
    assert!(is_hiragana_char('\u{3041}'));
    assert!(is_hiragana_char('\u{3096}'));
}

#[test]
fn the_first_offender_is_reported() {
    assert_eq!(
        Name::hiragana_to_katakana("あxいy"),
        Err(NotHiragana { ch: 'x' })
    );
    assert_eq!(
        Name::hiragana_to_halfwidth_kana("yあx"),
        Err(NotHiragana { ch: 'y' })
    );
}

#[test]
fn names_are_rendered_in_both_readings() {
    let rendered = name("たろう", "やまだ").in_katakana();
    assert_eq!(rendered.first_name, "太郎");
    assert_eq!(rendered.first_name_kana, "タロウ");
    assert_eq!(rendered.last_name, "山田");
    assert_eq!(rendered.last_name_kana, "ヤマダ");
    let rendered = name("たろう", "やまだ").in_halfwidth_kana();
    assert_eq!(rendered.first_name, "太郎");
    assert_eq!(rendered.first_name_kana, "ﾀﾛｳ");
    assert_eq!(rendered.last_name, "山田");
    assert_eq!(rendered.last_name_kana, "ﾔﾏﾀﾞ");
}

#[test]
fn kana_check_looks_at_both_readings() {
    assert!(name("たろう", "やまだ").kana_is_hiragana());
    assert!(!name("タロウ", "やまだ").kana_is_hiragana());
    assert!(!name("たろう", "やま だ").kana_is_hiragana());
    assert!(name("", "").kana_is_hiragana());
}
