use imp_ror::cli::{cli_pars_from, RawFlags};
use imp_ror::setup::{choose_data_date, params_for_setting_up, resolve_params};
use imp_ror::config::{AppError, Config, DBPars, DataPars, FilePars};

fn raw() -> RawFlags {
    RawFlags { a: false, i: false, r: false, p: false, t: false, x: false, y: false, j: false, c: false, m: false, z: false }
}

fn config(src: &str, version: &str, date: &str) -> Config {
    Config {
        data_details: DataPars { data_version: version.to_string(), data_date: date.to_string() },
        files: FilePars {
            data_folder_path: "data".to_string(),
            log_folder_path: "logs".to_string(),
            output_folder_path: "".to_string(),
            src_file_name: src.to_string(),
        },
        db_pars: DBPars {
            db_host: "localhost".to_string(),
            db_user: "u".to_string(),
            db_password: "p".to_string(),
            db_port: 5432,
            db_name: "ror".to_string(),
        },
    }
}

#[test]
fn no_letters_means_import() {
    let res = cli_pars_from(String::new(), String::new(), String::new(), raw());
    assert!(res.flags.import_ror);
    assert!(!res.flags.process_data && !res.flags.export_text && !res.flags.export_csv);
    assert!(!res.flags.create_config && !res.flags.create_lookups && !res.flags.create_summary);
    assert!(!res.flags.test_run);
    assert_eq!(res.data_date, "");
}

#[test]
fn a_letter_means_import_process_and_text() {
    let res = cli_pars_from(String::new(), String::new(), String::new(), RawFlags { a: true, ..raw() });
    assert!(res.flags.import_ror && res.flags.process_data && res.flags.export_text);
    assert!(!res.flags.export_csv && !res.flags.export_full_csv);
}

#[test]
fn i_letter_means_all_set_up_and_nothing_else() {
    let res = cli_pars_from("f.json".to_string(), "v1".to_string(), "2025-01-01".to_string(), RawFlags { i: true, r: true, ..raw() });
    assert!(res.flags.create_config && res.flags.create_lookups && res.flags.create_summary);
    assert!(!res.flags.import_ror && !res.flags.test_run);
    assert_eq!(res.source_file, "");
    assert_eq!(res.data_version, "");
}

#[test]
fn x_letter_alone_does_not_import() {
    let res = cli_pars_from("f.json".to_string(), String::new(), String::new(), RawFlags { x: true, z: true, ..raw() });
    assert!(!res.flags.import_ror && res.flags.export_csv && res.flags.test_run);
    assert_eq!(res.source_file, "f.json");
}

#[test]
fn version_and_date_come_from_file_name() {
    let cli = cli_pars_from(String::new(), String::new(), String::new(), raw());
    let p = resolve_params(cli, config("v1.58 20241211.json", "", ""), true).unwrap();
    assert_eq!(p.data_version, "v1.58");
    assert_eq!(p.data_date, "2024-12-11");
    assert_eq!(p.log_folder, "logs");
    assert_eq!(p.output_folder, "data");
    assert_eq!(p.source_file_name, "v1.58 20241211.json");
}

#[test]
fn version_and_date_fall_back_to_command_line_then_config() {
    let cli = cli_pars_from(String::new(), "v2".to_string(), "2025-13-40".to_string(), raw());
    let p = resolve_params(cli, config("data.json", "v1", "2025-02-03"), true).unwrap();
    assert_eq!(p.data_version, "v2");
    assert_eq!(p.data_date, "2025-02-03");
}

#[test]
fn import_needs_data_folder_and_date() {
    let cli = cli_pars_from(String::new(), String::new(), String::new(), raw());
    match resolve_params(cli, config("v1.58 20241211.json", "", ""), false) {
        Err(AppError::MissingProgramParameter(p)) => assert_eq!(p, "data_folder"),
        _ => panic!("expected a missing parameter"),
    }
    let cli = cli_pars_from(String::new(), String::new(), String::new(), raw());
    match resolve_params(cli, config("data.json", "v1", "not a date"), true) {
        Err(AppError::MissingProgramParameter(p)) => assert_eq!(p, "data_date"),
        _ => panic!("expected a missing parameter"),
    }
}

#[test]
fn test_run_uses_fixed_version() {
    let cli = cli_pars_from(String::new(), String::new(), String::new(), RawFlags { z: true, ..raw() });
    let p = resolve_params(cli, config("data.json", "", ""), true).unwrap();
    assert_eq!(p.data_version, "v99");
    assert_eq!(p.data_date, "2030-01-01");
}

#[test]
fn date_choice_prefers_command_line() {
    let a = "2025-01-01".to_string();
    let b = "2024-01-01".to_string();
    assert_eq!(choose_data_date(&a, true, &b, true), "2025-01-01");
    assert_eq!(choose_data_date(&a, false, &b, true), "2024-01-01");
    assert_eq!(choose_data_date(&a, false, &b, false), "");
    let p = params_for_setting_up(cli_pars_from(String::new(), String::new(), String::new(), RawFlags { c: true, ..raw() }).flags);
    assert!(p.flags.create_lookups);
    assert_eq!(p.data_folder, "");
}
