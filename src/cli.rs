//! The command line's flags and values, and the rules that complete them.

use vstd::prelude::*;

verus! {

/// The actions that the program takes.
#[derive(Debug, Clone, Copy)]
pub struct Flags {
    pub import_ror: bool,
    pub process_data: bool,
    pub export_text: bool,
    pub export_csv: bool,
    pub export_full_csv: bool,
    pub create_config: bool,
    pub create_lookups: bool,
    pub create_summary: bool,
    pub test_run: bool,
}

/// The command line, read and completed.
#[derive(Debug)]
pub struct CliPars {
    pub source_file: String,
    pub data_version: String,
    pub data_date: String,
    pub flags: Flags,
}

/// The flags as given on the command line, one per letter.
#[derive(Debug, Clone, Copy)]
pub struct RawFlags {
    /// all of import, process and text export
    pub a: bool,
    /// initialise: config, lookups and summary tables
    pub i: bool,
    pub r: bool,
    pub p: bool,
    pub t: bool,
    pub x: bool,
    pub y: bool,
    pub j: bool,
    pub c: bool,
    pub m: bool,
    pub z: bool,
}

/// The flags that follow from the letters given. Any of `i`, `c`, `m`, `j`
/// asks for set-up work alone (`i` for all three kinds); otherwise `a` asks
/// for import, processing and text export, and with no action letter at all
/// the import is done.
pub open spec fn resolved_flags(raw: RawFlags) -> Flags {
    if raw.i || raw.c || raw.m || raw.j {
        Flags {
            import_ror: false,
            process_data: false,
            export_text: false,
            export_csv: false,
            export_full_csv: false,
            create_config: raw.j || raw.i,
            create_lookups: raw.c || raw.i,
            create_summary: raw.m || raw.i,
            test_run: false,
        }
    } else {
        let none = !raw.r && !raw.p && !raw.t && !raw.x && !raw.y;
        Flags {
            import_ror: raw.r || raw.a || none,
            process_data: raw.p || raw.a,
            export_text: raw.t || raw.a,
            export_csv: raw.x,
            export_full_csv: raw.y,
            create_config: false,
            create_lookups: false,
            create_summary: false,
            test_run: raw.z,
        }
    }
}

/// Whether the flags ask for set-up work, which ignores everything else.
pub open spec fn setting_up(raw: RawFlags) -> bool {
    raw.i || raw.c || raw.m || raw.j
}

/// The completed command line: the flags that follow from the letters, and
/// the values given, which set-up work drops.
pub fn cli_pars_from(source_file: String, data_version: String, data_date: String, raw: RawFlags) -> (r:
    CliPars)
    ensures
        r.flags == resolved_flags(raw),
        setting_up(raw) ==> r.source_file@.len() == 0 && r.data_version@.len() == 0
            && r.data_date@.len() == 0,
        !setting_up(raw) ==> r.source_file@ == source_file@ && r.data_version@ == data_version@
            && r.data_date@ == data_date@,
{
    if raw.i || raw.c || raw.m || raw.j {
        let flags = Flags {
            import_ror: false,
            process_data: false,
            export_text: false,
            export_csv: false,
            export_full_csv: false,
            create_config: raw.j || raw.i,
            create_lookups: raw.c || raw.i,
            create_summary: raw.m || raw.i,
            test_run: false,
        };
        CliPars { source_file: String::new(), data_version: String::new(), data_date: String::new(), flags }
    } else {
        let none = !raw.r && !raw.p && !raw.t && !raw.x && !raw.y;
        let flags = Flags {
            import_ror: raw.r || raw.a || none,
            process_data: raw.p || raw.a,
            export_text: raw.t || raw.a,
            export_csv: raw.x,
            export_full_csv: raw.y,
            create_config: false,
            create_lookups: false,
            create_summary: false,
            test_run: raw.z,
        };
        CliPars { source_file, data_version, data_date, flags }
    }
}

} // verus!
