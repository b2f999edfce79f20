//! The program's parameters, merged from the command line and the
//! configuration file; the command line wins where both give a value.

use vstd::prelude::*;
use vstd::string::*;
use crate::cli::{CliPars, Flags};
use crate::config::{AppError, Config};
use crate::file_name::{
    compliant_file_name, data_date_of, data_version_of, get_data_date, get_data_version,
    is_compliant_file_name,
};

verus! {

/// The parameters of one run.
#[derive(Debug)]
pub struct InitParams {
    pub data_folder: String,
    pub log_folder: String,
    pub output_folder: String,
    pub source_file_name: String,
    pub data_version: String,
    pub data_date: String,
    pub flags: Flags,
}

/// Whether chrono reads a text as a `yyyy-mm-dd` date.
pub uninterp spec fn iso_date_accepted(s: Seq<char>) -> bool;

/// Relies on chrono's `NaiveDate::parse_from_str` with the format
/// `%Y-%m-%d`: whether it succeeds depends on the text alone.
#[verifier::external_body]
fn parses_as_iso_date(s: &str) -> (r: bool)
    ensures
        r == iso_date_accepted(s@),
{
    chrono::NaiveDate::parse_from_str(s, "%Y-%m-%d").is_ok()
}

/// The date of the data: the command line's if it reads as a date, else the
/// configuration's if that does, else nothing.
pub open spec fn chosen_date(cli_date: Seq<char>, cli_ok: bool, config_date: Seq<char>, config_ok: bool) -> Seq<char> {
    let d = if cli_ok {
        cli_date
    } else {
        Seq::empty()
    };
    if d.len() == 0 {
        if config_ok {
            config_date
        } else {
            Seq::empty()
        }
    } else {
        d
    }
}

/// Picks the date of the data; `cli_ok` and `config_ok` say whether each
/// candidate reads as a date.
pub fn choose_data_date(cli_date: &String, cli_ok: bool, config_date: &String, config_ok: bool) -> (r: String)
    ensures
        r@ == chosen_date(cli_date@, cli_ok, config_date@, config_ok),
{
    if cli_ok && cli_date.as_str().unicode_len() > 0 {
        cli_date.clone()
    } else if config_ok {
        config_date.clone()
    } else {
        String::new()
    }
}

/// The parameters for set-up work, which needs none but the flags.
pub fn params_for_setting_up(flags: Flags) -> (r: InitParams)
    ensures
        r.flags == flags,
        r.data_folder@.len() == 0 && r.log_folder@.len() == 0 && r.output_folder@.len() == 0,
        r.source_file_name@.len() == 0 && r.data_version@.len() == 0 && r.data_date@.len() == 0,
{
    InitParams {
        data_folder: String::new(),
        log_folder: String::new(),
        output_folder: String::new(),
        source_file_name: String::new(),
        data_version: String::new(),
        data_date: String::new(),
        flags,
    }
}

pub open spec fn missing_parameter(e: AppError, name: Seq<char>) -> bool {
    e matches AppError::MissingProgramParameter(p) && p@ == name
}

/// A folder, or the data folder where it is empty and the data folder exists.
pub open spec fn folder_or_data(folder: Seq<char>, data_folder: Seq<char>, data_exists: bool) -> Seq<char> {
    if folder.len() == 0 && data_exists {
        data_folder
    } else {
        folder
    }
}

/// The source file: the command line's, else the configuration's.
pub open spec fn source_of(cli: Seq<char>, config: Seq<char>) -> Seq<char> {
    if cli.len() == 0 {
        config
    } else {
        cli
    }
}

/// Version and date as the source file's name gives them, or those of a test.
pub open spec fn named_version(source: Seq<char>, test_run: bool) -> Seq<char> {
    if test_run {
        "v99"@
    } else if compliant_file_name(source) {
        data_version_of(source)
    } else {
        Seq::empty()
    }
}

pub open spec fn named_date(source: Seq<char>, test_run: bool) -> Seq<char> {
    if test_run {
        "2030-01-01"@
    } else if compliant_file_name(source) {
        data_date_of(source)
    } else {
        Seq::empty()
    }
}

fn version_and_date(source: &String, test_run: bool) -> (r: (String, String))
    ensures
        r.0@ == named_version(source@, test_run),
        r.1@ == named_date(source@, test_run),
{
    if test_run {
        (String::from_str("v99"), String::from_str("2030-01-01"))
    } else if is_compliant_file_name(source.as_str()) {
        (get_data_version(source.as_str()), get_data_date(source.as_str()))
    } else {
        (String::new(), String::new())
    }
}

/// The parameters of a run that imports, processes or exports data, given
/// the completed command line, the checked configuration and whether the
/// data folder exists. The version and date come from the source file's name
/// where it gives both; else from the command line, then the configuration.
/// An import needs an existing data folder, a source file, a version and a
/// date.
pub fn resolve_params(cli_pars: CliPars, config: Config, data_folder_exists: bool) -> (r: Result<
    InitParams,
    AppError,
>)
    ensures
        ({
            let import = cli_pars.flags.import_ror;
            let source = source_of(cli_pars.source_file@, config.files.src_file_name@);
            let v0 = named_version(source, cli_pars.flags.test_run);
            let d0 = named_date(source, cli_pars.flags.test_run);
            let from_file = v0.len() > 0 && d0.len() > 0;
            let v1 = if cli_pars.data_version@.len() > 0 {
                cli_pars.data_version@
            } else {
                config.data_details.data_version@
            };
            let d1 = chosen_date(
                cli_pars.data_date@,
                iso_date_accepted(cli_pars.data_date@),
                config.data_details.data_date@,
                iso_date_accepted(config.data_details.data_date@),
            );
            if !data_folder_exists && import {
                r matches Err(e) && missing_parameter(e, "data_folder"@)
            } else if source.len() == 0 && import {
                r matches Err(e) && missing_parameter(e, "src_file_name"@)
            } else if !from_file && v1.len() == 0 && import {
                r matches Err(e) && missing_parameter(e, "data_version"@)
            } else if !from_file && d1.len() == 0 && import {
                r matches Err(e) && missing_parameter(e, "data_date"@)
            } else {
                r matches Ok(p) && p.flags == cli_pars.flags && p.data_folder@
                    == config.files.data_folder_path@ && p.log_folder@ == folder_or_data(
                    config.files.log_folder_path@,
                    config.files.data_folder_path@,
                    data_folder_exists,
                ) && p.output_folder@ == folder_or_data(
                    config.files.output_folder_path@,
                    config.files.data_folder_path@,
                    data_folder_exists,
                ) && p.source_file_name@ == source && p.data_version@ == (if from_file {
                    v0
                } else {
                    v1
                }) && p.data_date@ == (if from_file {
                    d0
                } else {
                    d1
                })
            }
        }),
{
    let flags = cli_pars.flags;
    let files = config.files;
    let data_pars = config.data_details;
    if !data_folder_exists && flags.import_ror {
        return Err(AppError::MissingProgramParameter(String::from_str("data_folder")));
    }
    let data_folder = files.data_folder_path;
    let log_folder = if files.log_folder_path.as_str().unicode_len() == 0 && data_folder_exists {
        data_folder.clone()
    } else {
        files.log_folder_path
    };
    let output_folder = if files.output_folder_path.as_str().unicode_len() == 0 && data_folder_exists {
        data_folder.clone()
    } else {
        files.output_folder_path
    };
    let source_file_name = if cli_pars.source_file.as_str().unicode_len() == 0 {
        files.src_file_name
    } else {
        cli_pars.source_file
    };
    if source_file_name.as_str().unicode_len() == 0 && flags.import_ror {
        return Err(AppError::MissingProgramParameter(String::from_str("src_file_name")));
    }
    let (mut data_version, mut data_date) = version_and_date(&source_file_name, flags.test_run);
    if data_version.as_str().unicode_len() == 0 || data_date.as_str().unicode_len() == 0 {
        data_version = if cli_pars.data_version.as_str().unicode_len() > 0 {
            cli_pars.data_version
        } else {
            data_pars.data_version
        };
        if data_version.as_str().unicode_len() == 0 && flags.import_ror {
            return Err(AppError::MissingProgramParameter(String::from_str("data_version")));
        }
        let cli_ok = parses_as_iso_date(cli_pars.data_date.as_str());
        let config_ok = parses_as_iso_date(data_pars.data_date.as_str());
        data_date = choose_data_date(&cli_pars.data_date, cli_ok, &data_pars.data_date, config_ok);
        if data_date.as_str().unicode_len() == 0 && flags.import_ror {
            return Err(AppError::MissingProgramParameter(String::from_str("data_date")));
        }
    }
    Ok(InitParams {
        data_folder,
        log_folder,
        output_folder,
        source_file_name,
        data_version,
        data_date,
        flags,
    })
}

} // verus!
