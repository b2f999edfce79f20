use imp_ror::cascade::{remove_dups, resolve_duplicates, AuditEntry, DropReason, KeyedRecord, OverrideEntry};
use imp_ror::names::{NameRecord, NameType};
use imp_ror::reference::standard_overrides;

fn rec(org: &str, value: &str, t: NameType, preferred: Option<bool>, lang: Option<&str>) -> NameRecord {
    NameRecord::new(org.to_string(), value.to_string(), t, preferred, lang.map(|l| l.to_string()))
}

fn values(names: &Vec<NameRecord>) -> Vec<(String, NameType)> {
    names.iter().map(|n| (n.value.clone(), n.name_type)).collect()
}

fn reasons(audit: &Vec<AuditEntry>) -> Vec<DropReason> {
    audit.iter().map(|a| a.reason).collect()
}

#[test]
fn preferred_record_wins_regardless_of_language() {
    let names = vec![
        rec("o1", "Acme", NameType::Label, Some(true), None),
        rec("o1", "Acme", NameType::Label, Some(false), Some("fr")),
    ];
    let (kept, audit) = remove_dups(names, &Vec::new());
    assert_eq!(kept.len(), 1);
    assert_eq!(kept[0].is_preferred_display, Some(true));
    assert_eq!(kept[0].language, None);
    assert_eq!(reasons(&audit), vec![DropReason::NotPreferred]);
    assert_eq!(audit[0].record.language, Some("fr".to_string()));
}

#[test]
fn unknown_preference_counts_as_not_preferred() {
    let names = vec![
        rec("o1", "ACME", NameType::Alias, None, None),
        rec("o1", "Acme", NameType::Label, Some(true), None),
    ];
    let (kept, audit) = remove_dups(names, &Vec::new());
    assert_eq!(values(&kept), vec![("Acme".to_string(), NameType::Label)]);
    assert_eq!(reasons(&audit), vec![DropReason::NotPreferred]);
}

#[test]
fn alias_is_dropped_beside_label() {
    let names = vec![
        rec("o1", "RMIT", NameType::Label, None, None),
        rec("o1", "RMIT", NameType::Alias, None, None),
    ];
    let (kept, audit) = remove_dups(names, &Vec::new());
    assert_eq!(values(&kept), vec![("RMIT".to_string(), NameType::Label)]);
    assert_eq!(reasons(&audit), vec![DropReason::AliasOfLabel]);
}

#[test]
fn acronym_is_dropped_beside_long_other_name() {
    let names = vec![
        rec("o1", "UNESCO", NameType::Acronym, None, None),
        rec("o1", "UNESCO", NameType::Label, None, None),
    ];
    let (kept, audit) = remove_dups(names, &Vec::new());
    assert_eq!(values(&kept), vec![("UNESCO".to_string(), NameType::Label)]);
    assert_eq!(reasons(&audit), vec![DropReason::AcronymPair]);
    assert_eq!(audit[0].record.name_type, NameType::Acronym);
}

#[test]
fn short_other_name_is_dropped_beside_acronym() {
    let names = vec![
        rec("o1", "CERN", NameType::Acronym, None, None),
        rec("o1", "Cern", NameType::Alias, None, None),
    ];
    let (kept, audit) = remove_dups(names, &Vec::new());
    assert_eq!(values(&kept), vec![("CERN".to_string(), NameType::Acronym)]);
    assert_eq!(reasons(&audit), vec![DropReason::AcronymPair]);
    assert_eq!(audit[0].record.value, "Cern");
}

#[test]
fn override_list_removes_the_named_record() {
    let names = vec![
        rec("00bep5t26", "Biblioteca de Catalunya", NameType::Label, None, Some("gl")),
        rec("00bep5t26", "Biblioteca de Catalunya", NameType::Label, None, Some("ca")),
    ];
    let (kept, audit) = remove_dups(names, &standard_overrides());
    assert_eq!(kept.len(), 1);
    assert_eq!(kept[0].language, Some("ca".to_string()));
    assert_eq!(reasons(&audit), vec![DropReason::ManualOverride]);
}

#[test]
fn override_leaves_a_record_without_duplicate_alone() {
    let names = vec![rec("00bep5t26", "Biblioteca de Catalunya", NameType::Label, None, Some("gl"))];
    let (kept, audit) = remove_dups(names, &standard_overrides());
    assert_eq!(kept.len(), 1);
    assert!(audit.is_empty());
}

#[test]
fn fallback_drops_the_earliest_record() {
    let names = vec![
        rec("o1", "Acme", NameType::Label, None, Some("en")),
        rec("o1", "ACME", NameType::Label, None, Some("de")),
    ];
    let (kept, audit) = remove_dups(names, &Vec::new());
    assert_eq!(kept.len(), 1);
    assert_eq!(kept[0].value, "ACME");
    assert_eq!(reasons(&audit), vec![DropReason::LowestSequence]);
    assert_eq!(audit[0].record.value, "Acme");
}

#[test]
fn fallback_repeats_until_one_record_is_left() {
    let names = vec![
        rec("o1", "Acme", NameType::Label, None, Some("en")),
        rec("o1", "acme", NameType::Label, None, Some("de")),
        rec("o1", "ACME", NameType::Label, None, Some("fr")),
    ];
    let (kept, audit) = remove_dups(names, &Vec::new());
    assert_eq!(kept.len(), 1);
    assert_eq!(kept[0].value, "ACME");
    assert_eq!(reasons(&audit), vec![DropReason::LowestSequence, DropReason::LowestSequence]);
    assert_eq!(audit[0].record.value, "Acme");
    assert_eq!(audit[1].record.value, "acme");
}

#[test]
fn different_organisations_never_collide() {
    let names = vec![
        rec("o1", "Acme", NameType::Label, None, None),
        rec("o2", "Acme", NameType::Label, None, None),
    ];
    let (kept, audit) = remove_dups(names, &Vec::new());
    assert_eq!(kept.len(), 2);
    assert!(audit.is_empty());
}

#[test]
fn cascade_output_is_unique_and_stable() {
    let names = vec![
        rec("o1", "Acme", NameType::Label, Some(true), None),
        rec("o1", "ACME", NameType::Alias, None, None),
        rec("o1", "Acme Corp", NameType::Alias, None, None),
        rec("o1", "acme corp", NameType::Label, None, None),
        rec("o1", "AC", NameType::Acronym, None, None),
        rec("o1", "ac", NameType::Alias, None, None),
        rec("o1", "Other", NameType::Label, None, Some("en")),
        rec("o1", "OTHER", NameType::Label, None, Some("fr")),
    ];
    let (kept, audit) = remove_dups(names, &Vec::new());
    assert_eq!(audit.len(), 4);
    for i in 0..kept.len() {
        for j in 0..kept.len() {
            if i != j {
                assert_ne!(kept[i].value.to_lowercase(), kept[j].value.to_lowercase());
            }
        }
    }
    let again: Vec<NameRecord> = kept.iter().map(|n| n.duplicate()).collect();
    let (kept2, audit2) = remove_dups(again, &Vec::new());
    assert!(audit2.is_empty());
    assert_eq!(values(&kept2), values(&kept));
}

#[test]
fn custom_override_entries_apply() {
    let overrides = vec![OverrideEntry {
        organization_id: "o9".to_string(),
        value: "Labor Spiez".to_string(),
        language: "rm".to_string(),
    }];
    let names = vec![
        rec("o9", "Labor Spiez", NameType::Label, None, Some("rm")),
        rec("o9", "Labor Spiez", NameType::Label, None, Some("de")),
    ];
    let (kept, _) = remove_dups(names, &overrides);
    assert_eq!(kept.len(), 1);
    assert_eq!(kept[0].language, Some("de".to_string()));
}

#[test]
fn groups_follow_the_keys_given() {
    let keyed = vec![
        KeyedRecord { record: rec("o1", "Colour Lab", NameType::Label, None, None), key: "color lab".to_string() },
        KeyedRecord { record: rec("o1", "Color Lab", NameType::Alias, None, None), key: "color lab".to_string() },
        KeyedRecord { record: rec("o1", "COLOR LAB", NameType::Alias, None, None), key: "COLOR LAB".to_string() },
    ];
    let (kept, audit) = resolve_duplicates(keyed, &Vec::new());
    assert_eq!(kept.len(), 2);
    assert_eq!(kept[0].record.value, "Colour Lab");
    assert_eq!(kept[1].record.value, "COLOR LAB");
    assert_eq!(reasons(&audit), vec![DropReason::AliasOfLabel]);
}

#[test]
fn empty_input_gives_empty_output() {
    let (kept, audit) = remove_dups(Vec::new(), &standard_overrides());
    assert!(kept.is_empty());
    assert!(audit.is_empty());
}
