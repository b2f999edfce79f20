use imp_ror::file_name::{get_data_date, get_data_version, is_compliant_file_name, is_compliant_version};

#[test]
fn check_file_name_regex_works_1() {
    let test_file_name = "v1.50 2024-12-11.json".to_string();
    assert_eq!(is_compliant_file_name(&test_file_name), true);
    assert_eq!(get_data_version(&test_file_name), "v1.50");
    assert_eq!(get_data_date(&test_file_name), "2024-12-11");
}

#[test]
fn check_file_name_regex_works_2() {
    let test_file_name = "v1.50-2024-12-11.json".to_string();
    assert_eq!(is_compliant_file_name(&test_file_name), true);
    assert_eq!(get_data_version(&test_file_name), "v1.50");
    assert_eq!(get_data_date(&test_file_name), "2024-12-11");
}

#[test]
fn check_file_name_regex_works_3() {
    let test_file_name = "v1.50 20241211.json".to_string();
    assert_eq!(is_compliant_file_name(&test_file_name), true);
    assert_eq!(get_data_version(&test_file_name), "v1.50");
    assert_eq!(get_data_date(&test_file_name), "2024-12-11");
}

#[test]
fn check_file_name_regex_works_4() {
    let test_file_name = "v1.50-20241211.json".to_string();
    assert_eq!(is_compliant_file_name(&test_file_name), true);
    assert_eq!(get_data_version(&test_file_name), "v1.50");
    assert_eq!(get_data_date(&test_file_name), "2024-12-11");
}

#[test]
fn check_file_name_regex_works_5() {
    let test_file_name = "v1.50-2024-1211.json".to_string();
    assert_eq!(is_compliant_file_name(&test_file_name), true);
    assert_eq!(get_data_version(&test_file_name), "v1.50");
    assert_eq!(get_data_date(&test_file_name), "2024-12-11");
}

#[test]
fn check_file_name_regex_works_6() {
    let test_file_name = "v1.59-2025-01-23-ror-data_schema_v2.json".to_string();
    assert_eq!(is_compliant_file_name(&test_file_name), true);
    assert_eq!(get_data_version(&test_file_name), "v1.59");
    assert_eq!(get_data_date(&test_file_name), "2025-01-23");
}

#[test]
fn check_file_name_regex_works_7() {
    let test_file_name = "1.50 2024-12-11.json".to_string();
    assert_eq!(is_compliant_file_name(&test_file_name), false);
    let test_file_name = "v1.50--2024-12-11.json".to_string();
    assert_eq!(is_compliant_file_name(&test_file_name), false);
    let test_file_name = "v1.50  20241211.json".to_string();
    assert_eq!(is_compliant_file_name(&test_file_name), false);
    let test_file_name = "v1.50 20242211.json".to_string();
    assert_eq!(is_compliant_file_name(&test_file_name), false);
    let test_file_name = "v1.50.20241211.json".to_string();
    assert_eq!(is_compliant_file_name(&test_file_name), false);
}

#[test]
fn date_that_is_no_calendar_day_gives_nothing() {
    assert_eq!(get_data_date("v1.50 2023-02-29.json"), "");
    assert_eq!(get_data_date("v1.50 2024-02-29.json"), "2024-02-29");
    assert_eq!(get_data_date("no date here"), "");
}

#[test]
fn version_needs_a_leading_v_and_digits() {
    assert_eq!(get_data_version("v1.2.3.4 2024-01-01"), "v1.2.3");
    assert_eq!(get_data_version("x1.2"), "");
    assert!(is_compliant_version("v12"));
    assert!(!is_compliant_version("v.1"));
}
