use imp_ror::disambiguate::{clean_double_script_codes, clean_japanese_script_codes, script_code};
use imp_ror::language::{fallback_language, normalize_language, substitutions_are_settled, LanguageSubstitution};
use imp_ror::reference::{standard_country_languages, standard_script_ranges, standard_substitutions};
use imp_ror::names::NameType;
use imp_ror::script::{add_script_codes, lookup, scanned_chars, script_code_text, ScriptRange, ScriptTag};

#[test]
fn zurich_is_latin() {
    let table = standard_script_ranges();
    assert_eq!(add_script_codes(&table, "Zürich"), vec![ScriptTag::Latn, ScriptTag::Latn2]);
    assert_eq!(script_code(&table, "Zürich", false), vec![ScriptTag::Latn]);
}

#[test]
fn tokyo_university_is_han_or_japanese() {
    let table = standard_script_ranges();
    assert_eq!(script_code(&table, "東京大学", false), vec![ScriptTag::Hani]);
    assert_eq!(script_code(&table, "東京大学", true), vec![ScriptTag::Jpan]);
}

#[test]
fn leading_parenthesis_is_skipped() {
    let table = vec![
        ScriptRange { tag: ScriptTag::Latn, start: 0x20, end: 0x7A },
        ScriptRange { tag: ScriptTag::Hani, start: 0x4E00, end: 0x9FFF },
    ];
    let tags = add_script_codes(&table, "(日本) Japan");
    assert_eq!(tags[0], ScriptTag::Hani);
    assert_eq!(tags, vec![ScriptTag::Hani, ScriptTag::Latn]);
    assert_eq!(add_script_codes(&table, "Japan (日本)"), vec![ScriptTag::Latn, ScriptTag::Hani]);
}

#[test]
fn cyrillic_with_digits_is_cyrillic() {
    let table = standard_script_ranges();
    assert_eq!(add_script_codes(&table, "2024 Москва"), vec![ScriptTag::Latn, ScriptTag::Cyrl]);
    assert_eq!(script_code(&table, "2024 Москва", false), vec![ScriptTag::Cyrl]);
    assert_eq!(add_script_codes(&table, "Москва2024"), vec![ScriptTag::Cyrl, ScriptTag::Latn]);
    assert_eq!(script_code(&table, "Москва2024", false), vec![ScriptTag::Cyrl]);
    assert_eq!(script_code(&table, "Αθήνα 2004", false), vec![ScriptTag::Grek]);
}

#[test]
fn latin_letters_beside_cyrillic_are_kept() {
    let table = standard_script_ranges();
    assert_eq!(script_code(&table, "Москва Paris", false), vec![ScriptTag::Cyrl, ScriptTag::Latn]);
}

#[test]
fn stray_character_is_absorbed() {
    let table = standard_script_ranges();
    assert_eq!(script_code(&table, "Moscow University Я", false), vec![ScriptTag::Latn]);
    assert_eq!(script_code(&table, "Московский университет Q", false), vec![ScriptTag::Cyrl]);
}

#[test]
fn kana_is_japanese() {
    let table = standard_script_ranges();
    assert_eq!(script_code(&table, "ヤマシタ コージョーセン ビョーイン", false), vec![ScriptTag::Jpan]);
    assert_eq!(script_code(&table, "やまし た こうじょう せん びょう いん", false), vec![ScriptTag::Jpan]);
    assert_eq!(script_code(&table, "Yamashita ヤマシタ", false), vec![ScriptTag::Latn, ScriptTag::Jpan]);
}

#[test]
fn names_of_the_test_data_get_their_scripts() {
    let table = standard_script_ranges();
    assert_eq!(
        script_code(&table, "Institute of Reflective Investigation and Specialization", false),
        vec![ScriptTag::Latn]
    );
    assert_eq!(
        script_code(&table, "Інститут Рефлексивних Досліджень & Спеціалізації", false),
        vec![ScriptTag::Cyrl]
    );
    assert_eq!(script_code(&table, "Yamashita Kōjōsen Byōin", false), vec![ScriptTag::Latn]);
}

#[test]
fn unmatched_characters_give_no_tag() {
    let table = standard_script_ranges();
    assert_eq!(add_script_codes(&table, "---"), Vec::<ScriptTag>::new());
    assert_eq!(lookup(&table, '&'), None);
    assert_eq!(lookup(&table, 'Я'), Some(ScriptTag::Cyrl));
}

#[test]
fn country_table_and_substitutions() {
    let countries = standard_country_languages();
    assert_eq!(fallback_language(&countries, "JP"), Some("ja".to_string()));
    assert_eq!(fallback_language(&countries, "FR"), None);
    let subs = standard_substitutions();
    assert_eq!(normalize_language(&subs, &"sh".to_string()), "sr");
    assert_eq!(normalize_language(&subs, &"de".to_string()), "de");
    assert!(substitutions_are_settled(&subs));
    let chained = vec![
        LanguageSubstitution { deprecated: "a".to_string(), current: "b".to_string() },
        LanguageSubstitution { deprecated: "b".to_string(), current: "c".to_string() },
    ];
    assert!(!substitutions_are_settled(&chained));
}

#[test]
fn japanese_stage_alone() {
    assert_eq!(clean_japanese_script_codes(&vec![ScriptTag::Hira, ScriptTag::Kana, ScriptTag::Hani], false), Some(vec![ScriptTag::Jpan]));
    assert_eq!(clean_japanese_script_codes(&vec![ScriptTag::Hani], false), None);
    assert_eq!(clean_japanese_script_codes(&vec![ScriptTag::Hani], true), Some(vec![ScriptTag::Jpan]));
    assert_eq!(clean_japanese_script_codes(&vec![ScriptTag::Latn, ScriptTag::Hani], true), Some(vec![ScriptTag::Latn, ScriptTag::Jpan]));
    assert_eq!(clean_japanese_script_codes(&vec![ScriptTag::Latn, ScriptTag::Hani, ScriptTag::Cyrl], true), None);
}

#[test]
fn pair_stage_alone() {
    let table = standard_script_ranges();
    let chars = scanned_chars("Athens 2004 Αθ");
    let tags = add_script_codes(&table, "Athens 2004 Αθ");
    assert_eq!(tags, vec![ScriptTag::Latn, ScriptTag::Grek]);
    assert_eq!(clean_double_script_codes(&table, &chars, &tags), Some(vec![ScriptTag::Latn]));
    let chars = scanned_chars("Αθήνα Rome");
    let tags = add_script_codes(&table, "Αθήνα Rome");
    assert_eq!(clean_double_script_codes(&table, &chars, &tags), None);
}

#[test]
fn script_codes_as_text() {
    assert_eq!(script_code_text(&vec![ScriptTag::Latn, ScriptTag::Cyrl]), "Latn, Cyrl");
    assert_eq!(script_code_text(&vec![ScriptTag::Jpan]), "Jpan");
    assert_eq!(script_code_text(&vec![]), "");
    assert_eq!(ScriptTag::Latn2.code(), "Latn2");
    assert_eq!(NameType::Acronym.word(), "acronym");
}
