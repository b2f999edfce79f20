//! The records of the organisation registry's data dump, as far as the
//! library reads them, and the column vectors that batch them for storage.

use vstd::prelude::*;
use vstd::string::*;
use crate::names::{opt_view, views, NameRecord, NameRecordView, NameType};
use crate::text::copy_opt_string;

verus! {

/// A name of an organisation in the dump.
#[derive(Debug)]
pub struct Name {
    pub value: String,
    pub lang: Option<String>,
    pub types: Vec<String>,
}

/// An identifier of the organisation in another registry.
#[derive(Debug, Clone)]
pub struct ExternalId {
    pub id_type: String,
    pub all: Vec<String>,
    pub preferred: Option<String>,
}

/// A web link of the organisation.
#[derive(Debug, Clone)]
pub struct Link {
    pub link_type: String,
    pub value: String,
}

/// A relationship to another organisation.
#[derive(Debug, Clone)]
pub struct Relationship {
    pub rel_type: String,
    pub label: String,
    pub id: String,
}

/// When the record was created and last changed.
#[derive(Debug)]
pub struct Admin {
    pub created: DateSchema,
    pub last_modified: DateSchema,
}

/// A date and the schema version in force on it.
#[derive(Debug)]
pub struct DateSchema {
    pub date: String,
    pub schema_version: String,
}

/// Column vectors for the optional parts of a batch of records: links,
/// external identifiers, relationships and domains.
#[derive(Debug)]
pub struct NonRequiredDataVecs {
    pub link_db_ids: Vec<String>,
    pub link_types: Vec<String>,
    pub links: Vec<String>,
    pub id_db_ids: Vec<String>,
    pub id_types: Vec<String>,
    pub id_values: Vec<String>,
    pub is_prefs: Vec<Option<bool>>,
    pub rel_db_ids: Vec<String>,
    pub rel_types: Vec<String>,
    pub rel_ids: Vec<String>,
    pub rel_labels: Vec<String>,
    pub dom_db_ids: Vec<String>,
    pub doms: Vec<String>,
}

impl NonRequiredDataVecs {
    /// Empty vectors, each with room for `vsize` entries.
    pub fn new(vsize: usize) -> (r: Self)
        ensures
            r.link_db_ids@.len() == 0,
            r.link_types@.len() == 0,
            r.links@.len() == 0,
            r.id_db_ids@.len() == 0,
            r.id_types@.len() == 0,
            r.id_values@.len() == 0,
            r.is_prefs@.len() == 0,
            r.rel_db_ids@.len() == 0,
            r.rel_types@.len() == 0,
            r.rel_ids@.len() == 0,
            r.rel_labels@.len() == 0,
            r.dom_db_ids@.len() == 0,
            r.doms@.len() == 0,
    {
        NonRequiredDataVecs {
            link_db_ids: Vec::with_capacity(vsize),
            link_types: Vec::with_capacity(vsize),
            links: Vec::with_capacity(vsize),
            id_db_ids: Vec::with_capacity(vsize),
            id_types: Vec::with_capacity(vsize),
            id_values: Vec::with_capacity(vsize),
            is_prefs: Vec::with_capacity(vsize),
            rel_db_ids: Vec::with_capacity(vsize),
            rel_types: Vec::with_capacity(vsize),
            rel_ids: Vec::with_capacity(vsize),
            rel_labels: Vec::with_capacity(vsize),
            dom_db_ids: Vec::with_capacity(vsize),
            doms: Vec::with_capacity(vsize),
        }
    }
}

/// The registry identifier at the end of a full identifier URL: its last
/// nine characters.
pub fn extract_id_from(full_id: &String) -> (r: &str)
    requires
        full_id@.len() >= 9,
    ensures
        r@ == full_id@.subrange(full_id@.len() - 9, full_id@.len() as int),
{
    let s = full_id.as_str();
    let n = s.unicode_len();
    s.substring_char(n - 9, n)
}

/// The kind of name that a type word of the dump stands for.
pub open spec fn name_type_of(word: Seq<char>) -> Option<NameType> {
    if word == "label"@ {
        Some(NameType::Label)
    } else if word == "alias"@ {
        Some(NameType::Alias)
    } else if word == "acronym"@ {
        Some(NameType::Acronym)
    } else {
        None
    }
}

pub open spec fn type_words(n: Name) -> Seq<Seq<char>> {
    n.types@.map_values(|w: String| w@)
}

pub open spec fn row(org: Seq<char>, n: Name, t: NameType, preferred: Option<bool>) -> NameRecordView {
    NameRecordView {
        organization_id: org,
        value: n.value@,
        name_type: t,
        is_preferred_display: preferred,
        language: opt_view(n.lang),
        script: Seq::empty(),
    }
}

/// One record for each of the first `k` type words of `n` that name a kind.
pub open spec fn typed_rows(org: Seq<char>, n: Name, preferred: Option<bool>, k: int) -> Seq<NameRecordView>
    decreases k,
{
    if k <= 0 {
        Seq::empty()
    } else {
        let p = typed_rows(org, n, preferred, k - 1);
        match name_type_of(type_words(n)[k - 1]) {
            Some(t) => p.push(row(org, n, t, preferred)),
            None => p,
        }
    }
}

/// The records that a name of the dump gives: a name whose only type is the
/// display mark is a label marked for display; otherwise one record per
/// kind listed, marked for display where the display mark is listed too.
pub open spec fn rows_of_name(org: Seq<char>, n: Name) -> Seq<NameRecordView> {
    let words = type_words(n);
    if words == seq!["ror_display"@] {
        seq![row(org, n, NameType::Label, Some(true))]
    } else {
        let preferred = if words.contains("ror_display"@) {
            Some(true)
        } else {
            None
        };
        typed_rows(org, n, preferred, words.len() as int)
    }
}

/// The records of the first `k` names, in order.
pub open spec fn rows_of_names(org: Seq<char>, names: Seq<Name>, k: int) -> Seq<NameRecordView>
    decreases k,
{
    if k <= 0 {
        Seq::empty()
    } else {
        rows_of_names(org, names, k - 1) + rows_of_name(org, names[k - 1])
    }
}

fn name_type_from(word: &String) -> (r: Option<NameType>)
    ensures
        r == name_type_of(word@),
{
    if *word == String::from_str("label") {
        Some(NameType::Label)
    } else if *word == String::from_str("alias") {
        Some(NameType::Alias)
    } else if *word == String::from_str("acronym") {
        Some(NameType::Acronym)
    } else {
        None
    }
}

fn has_display_mark(n: &Name) -> (r: bool)
    ensures
        r == type_words(*n).contains("ror_display"@),
{
    let ghost w = type_words(*n);
    let mark = String::from_str("ror_display");
    let mut i: usize = 0;
    while i < n.types.len()
        invariant
            i <= n.types.len(),
            w == type_words(*n),
            mark@ == "ror_display"@,
            forall|k: int| 0 <= k < i ==> w[k] != "ror_display"@,
        decreases n.types.len() - i,
    {
        if n.types[i] == mark {
            assert(w[i as int] == "ror_display"@);
            return true;
        }
        i = i + 1;
    }
    false
}

/// Appends the records that name `n` of organisation `org` gives.
fn push_rows(org: &String, n: &Name, out: &mut Vec<NameRecord>)
    ensures
        views(final(out)@) == views(old(out)@) + rows_of_name(org@, *n),
{
    let ghost w = type_words(*n);
    let ghost o0 = views(out@);
    let mark = String::from_str("ror_display");
    if n.types.len() == 1 && n.types[0] == mark {
        assert(w =~= seq!["ror_display"@]);
        out.push(NameRecord {
            organization_id: org.clone(),
            value: n.value.clone(),
            name_type: NameType::Label,
            is_preferred_display: Some(true),
            language: copy_opt_string(&n.lang),
            script: Vec::new(),
        });
        assert(views(out@) =~= o0 + rows_of_name(org@, *n));
        return;
    }
    assert(w != seq!["ror_display"@]) by {
        if w == seq!["ror_display"@] {
            assert(w.len() == 1 && w[0] == mark@);
        }
    }
    let preferred = if has_display_mark(n) {
        Some(true)
    } else {
        None
    };
    let mut i: usize = 0;
    while i < n.types.len()
        invariant
            i <= n.types.len(),
            w == type_words(*n),
            views(out@) == o0 + typed_rows(org@, *n, preferred, i as int),
        decreases n.types.len() - i,
    {
        let ghost before = views(out@);
        match name_type_from(&n.types[i]) {
            Some(t) => {
                out.push(NameRecord {
                    organization_id: org.clone(),
                    value: n.value.clone(),
                    name_type: t,
                    is_preferred_display: preferred,
                    language: copy_opt_string(&n.lang),
                    script: Vec::new(),
                });
                assert(views(out@) =~= before.push(row(org@, *n, t, preferred)));
                assert(o0 + typed_rows(org@, *n, preferred, i + 1) =~= (o0 + typed_rows(org@, *n, preferred, i as int)).push(row(org@, *n, t, preferred)));
            },
            None => {},
        }
        i = i + 1;
    }
}

/// The name records of an organisation with identifier `org`, from the
/// names of its record in the dump, in order.
pub fn name_records(org: &String, names: &Vec<Name>) -> (r: Vec<NameRecord>)
    ensures
        views(r@) == rows_of_names(org@, names@, names@.len() as int),
{
    let mut out: Vec<NameRecord> = Vec::new();
    let mut i: usize = 0;
    assert(views(out@) =~= Seq::<NameRecordView>::empty());
    while i < names.len()
        invariant
            i <= names.len(),
            views(out@) == rows_of_names(org@, names@, i as int),
        decreases names.len() - i,
    {
        push_rows(org, &names[i], &mut out);
        i = i + 1;
    }
    out
}

} // verus!
