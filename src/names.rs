//! The name records of an organisation and the tables that steer their
//! canonicalisation.

use vstd::prelude::*;
use crate::script::ScriptTag;
use crate::text::copy_opt_string;

verus! {

/// The declared kind of a name.
#[derive(Clone, Copy, Debug, PartialEq, Eq, Structural)]
pub enum NameType {
    Label,
    Alias,
    Acronym,
}

/// The word for a kind of name.
pub open spec fn type_word(t: NameType) -> Seq<char> {
    match t {
        NameType::Label => "label"@,
        NameType::Alias => "alias"@,
        NameType::Acronym => "acronym"@,
    }
}

impl NameType {
    /// The word for this kind of name.
    pub fn word(&self) -> (r: &'static str)
        ensures
            r@ == type_word(*self),
    {
        match self {
            NameType::Label => "label",
            NameType::Alias => "alias",
            NameType::Acronym => "acronym",
        }
    }
}

/// One name of one organisation.
#[derive(Debug)]
pub struct NameRecord {
    pub organization_id: String,
    pub value: String,
    pub name_type: NameType,
    /// `None` when the source does not say; it counts as not preferred.
    pub is_preferred_display: Option<bool>,
    pub language: Option<String>,
    /// The script code, one tag or several; empty while none is known.
    pub script: Vec<ScriptTag>,
}

/// The mathematical content of a [`NameRecord`].
pub struct NameRecordView {
    pub organization_id: Seq<char>,
    pub value: Seq<char>,
    pub name_type: NameType,
    pub is_preferred_display: Option<bool>,
    pub language: Option<Seq<char>>,
    pub script: Seq<ScriptTag>,
}

pub open spec fn opt_view(o: Option<String>) -> Option<Seq<char>> {
    match o {
        Some(s) => Some(s@),
        None => None,
    }
}

impl View for NameRecord {
    type V = NameRecordView;

    open spec fn view(&self) -> NameRecordView {
        NameRecordView {
            organization_id: self.organization_id@,
            value: self.value@,
            name_type: self.name_type,
            is_preferred_display: self.is_preferred_display,
            language: opt_view(self.language),
            script: self.script@,
        }
    }
}

/// The views of a sequence of records.
pub open spec fn views(s: Seq<NameRecord>) -> Seq<NameRecordView> {
    s.map_values(|r: NameRecord| r@)
}

impl NameRecordView {
    /// Whether the source marks this name as the display name.
    pub open spec fn preferred(self) -> bool {
        self.is_preferred_display == Some(true)
    }
}

/// A copy of a list of script tags.
pub fn copy_tags(t: &Vec<ScriptTag>) -> (r: Vec<ScriptTag>)
    ensures
        r@ == t@,
{
    let mut r: Vec<ScriptTag> = Vec::new();
    let mut i: usize = 0;
    while i < t.len()
        invariant
            i <= t.len(),
            r@ == t@.subrange(0, i as int),
        decreases t.len() - i,
    {
        r.push(t[i]);
        i = i + 1;
        assert(r@ =~= t@.subrange(0, i as int));
    }
    assert(r@ =~= t@);
    r
}

impl NameRecord {
    /// A new record with no script code yet.
    pub fn new(
        organization_id: String,
        value: String,
        name_type: NameType,
        is_preferred_display: Option<bool>,
        language: Option<String>,
    ) -> (r: NameRecord)
        ensures
            r.organization_id == organization_id,
            r.value == value,
            r.name_type == name_type,
            r.is_preferred_display == is_preferred_display,
            r.language == language,
            r.script@.len() == 0,
    {
        NameRecord {
            organization_id,
            value,
            name_type,
            is_preferred_display,
            language,
            script: Vec::new(),
        }
    }

    /// A copy of this record.
    pub fn duplicate(&self) -> (r: NameRecord)
        ensures
            r@ == self@,
    {
        NameRecord {
            organization_id: self.organization_id.clone(),
            value: self.value.clone(),
            name_type: self.name_type,
            is_preferred_display: self.is_preferred_display,
            language: copy_opt_string(&self.language),
            script: copy_tags(&self.script),
        }
    }
}

} // verus!
