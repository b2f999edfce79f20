use imp_ror::names::{NameRecord, NameType};
use imp_ror::pipeline::{process_organization, PipelineError, ReferenceData};
use imp_ror::script::ScriptTag;

fn rec(value: &str, t: NameType, preferred: Option<bool>, lang: Option<&str>) -> NameRecord {
    NameRecord::new("org1".to_string(), value.to_string(), t, preferred, lang.map(|l| l.to_string()))
}

#[test]
fn language_is_inferred_from_country() {
    let refs = ReferenceData::standard();
    let names = vec![rec("東京大学", NameType::Label, Some(true), None)];
    let out = process_organization(&refs, &Some("JP".to_string()), names).unwrap();
    assert_eq!(out.names[0].language, Some("ja".to_string()));
    assert_eq!(out.names[0].script, vec![ScriptTag::Jpan]);
}

#[test]
fn language_stays_unknown_without_country() {
    let refs = ReferenceData::standard();
    let names = vec![rec("東京大学", NameType::Label, Some(true), None)];
    let out = process_organization(&refs, &None, names).unwrap();
    assert_eq!(out.names[0].language, None);
    assert_eq!(out.names[0].script, vec![ScriptTag::Hani]);
}

#[test]
fn latin_names_get_no_inferred_language() {
    let refs = ReferenceData::standard();
    let names = vec![rec("Tokyo University", NameType::Label, None, None)];
    let out = process_organization(&refs, &Some("JP".to_string()), names).unwrap();
    assert_eq!(out.names[0].language, None);
    assert_eq!(out.names[0].script, vec![ScriptTag::Latn]);
}

#[test]
fn deprecated_language_code_is_replaced() {
    let refs = ReferenceData::standard();
    let names = vec![rec("Beograd", NameType::Label, None, Some("sh"))];
    let out = process_organization(&refs, &None, names).unwrap();
    assert_eq!(out.names[0].language, Some("sr".to_string()));
}

#[test]
fn several_preferred_names_fail_the_organisation() {
    let refs = ReferenceData::standard();
    let names = vec![
        rec("Acme", NameType::Label, Some(true), None),
        rec("Acme Corporation", NameType::Label, Some(true), None),
    ];
    let out = process_organization(&refs, &None, names);
    assert!(matches!(out, Err(PipelineError::SeveralPreferred)));
}

#[test]
fn malformed_records_are_set_aside() {
    let refs = ReferenceData::standard();
    let names = vec![
        rec("", NameType::Label, None, None),
        rec("Acme", NameType::Label, Some(true), None),
        NameRecord::new(String::new(), "Orphan".to_string(), NameType::Alias, None, None),
    ];
    let out = process_organization(&refs, &None, names).unwrap();
    assert_eq!(out.names.len(), 1);
    assert_eq!(out.rejected.len(), 2);
    assert_eq!(out.rejected[1].value, "Orphan");
}

#[test]
fn multi_script_names_are_counted() {
    let refs = ReferenceData::standard();
    let names = vec![
        rec("Москва Paris", NameType::Label, None, None),
        rec("Paris", NameType::Alias, None, None),
    ];
    let out = process_organization(&refs, &None, names).unwrap();
    assert_eq!(out.multi_script, 1);
    assert_eq!(out.names[0].script, vec![ScriptTag::Cyrl, ScriptTag::Latn]);
}

#[test]
fn pipeline_on_its_own_output_changes_nothing() {
    let refs = ReferenceData::standard();
    let names = vec![
        rec("Acme", NameType::Label, Some(true), None),
        rec("ACME", NameType::Alias, None, Some("sh")),
        rec("東京大学", NameType::Alias, None, None),
        rec("東京 Acme 大学", NameType::Alias, None, None),
        rec("Other", NameType::Label, None, Some("en")),
        rec("other", NameType::Label, None, Some("fr")),
    ];
    let country = Some("JP".to_string());
    let first = process_organization(&refs, &country, names).unwrap();
    assert_eq!(first.audit.len(), 2);
    let preferred = first.names.iter().filter(|n| n.is_preferred_display == Some(true)).count();
    assert!(preferred <= 1);
    let again: Vec<NameRecord> = first.names.iter().map(|n| n.duplicate()).collect();
    let second = process_organization(&refs, &country, again).unwrap();
    assert!(second.audit.is_empty());
    assert!(second.rejected.is_empty());
    assert_eq!(second.names.len(), first.names.len());
    for (a, b) in first.names.iter().zip(second.names.iter()) {
        assert_eq!(a.value, b.value);
        assert_eq!(a.language, b.language);
        assert_eq!(a.script, b.script);
    }
}

#[test]
fn organisation_without_names_is_fine() {
    let refs = ReferenceData::standard();
    let out = process_organization(&refs, &Some("JP".to_string()), Vec::new()).unwrap();
    assert!(out.names.is_empty());
    assert!(out.audit.is_empty());
    assert_eq!(out.multi_script, 0);
}
