use imp_ror::names::NameType;
use imp_ror::ror::{extract_id_from, name_records, Name, NonRequiredDataVecs};

#[test]
fn test_extracting_id() {
    let test_id = "https://ror.org/123456789".to_string();
    assert_eq!(extract_id_from(&(test_id)), "123456789")
}

#[test]
fn extracting_id_keeps_last_nine_characters_only() {
    let test_id = "https://ror.org/05s6t3255".to_string();
    assert_eq!(extract_id_from(&test_id), "05s6t3255");
}

#[test]
fn new_column_vectors_are_empty() {
    let v = NonRequiredDataVecs::new(20);
    assert!(v.links.is_empty());
    assert!(v.rel_ids.is_empty());
    assert!(v.doms.is_empty());
    assert!(v.is_prefs.is_empty());
}

#[test]
fn dump_names_become_records() {
    let names = vec![
        Name { value: "Bond University".to_string(), lang: Some("en".to_string()), types: vec!["ror_display".to_string(), "label".to_string()] },
        Name { value: "BU".to_string(), lang: None, types: vec!["acronym".to_string(), "alias".to_string()] },
        Name { value: "Only Display".to_string(), lang: None, types: vec!["ror_display".to_string()] },
        Name { value: "Unknown".to_string(), lang: None, types: vec!["other".to_string()] },
    ];
    let recs = name_records(&"006jxzx88".to_string(), &names);
    assert_eq!(recs.len(), 4);
    assert_eq!(recs[0].value, "Bond University");
    assert_eq!(recs[0].name_type, NameType::Label);
    assert_eq!(recs[0].is_preferred_display, Some(true));
    assert_eq!(recs[0].language, Some("en".to_string()));
    assert_eq!(recs[1].name_type, NameType::Acronym);
    assert_eq!(recs[1].is_preferred_display, None);
    assert_eq!(recs[2].name_type, NameType::Alias);
    assert_eq!(recs[3].value, "Only Display");
    assert_eq!(recs[3].name_type, NameType::Label);
    assert_eq!(recs[3].is_preferred_display, Some(true));
    assert_eq!(recs[3].organization_id, "006jxzx88");
}
