//! Resolution of duplicate names: records of one organisation whose values
//! agree once lower-cased are reduced to one by a fixed sequence of rules,
//! each applied to every duplicate group before the groups are formed anew.

use vstd::prelude::*;
use crate::names::{views, NameRecord, NameRecordView, NameType};
use crate::text::{lower_of, lowercase};

verus! {

/// The rule that removed a record.
#[derive(Clone, Copy, Debug, PartialEq, Eq, Structural)]
pub enum DropReason {
    /// A name not marked for display, beside one of equal value that is.
    NotPreferred,
    /// An alias beside a label of equal value.
    AliasOfLabel,
    /// An acronym beside a name of equal value longer than five characters,
    /// or a name of at most five characters beside an acronym of equal value.
    AcronymPair,
    /// A record named in the list of manual overrides.
    ManualOverride,
    /// The earliest record of a group that no other rule resolved.
    LowestSequence,
}

/// A record that the manual override rule removes wherever it is duplicated.
#[derive(Debug)]
pub struct OverrideEntry {
    pub organization_id: String,
    pub value: String,
    pub language: String,
}

pub struct OverrideView {
    pub organization_id: Seq<char>,
    pub value: Seq<char>,
    pub language: Seq<char>,
}

impl View for OverrideEntry {
    type V = OverrideView;

    open spec fn view(&self) -> OverrideView {
        OverrideView {
            organization_id: self.organization_id@,
            value: self.value@,
            language: self.language@,
        }
    }
}

pub open spec fn override_views(s: Seq<OverrideEntry>) -> Seq<OverrideView> {
    s.map_values(|e: OverrideEntry| e@)
}

/// A removed record and the rule that removed it.
#[derive(Debug)]
pub struct AuditEntry {
    pub record: NameRecord,
    pub reason: DropReason,
}

pub struct AuditView {
    pub record: NameRecordView,
    pub reason: DropReason,
}

impl View for AuditEntry {
    type V = AuditView;

    open spec fn view(&self) -> AuditView {
        AuditView { record: self.record@, reason: self.reason }
    }
}

pub open spec fn audit_views(s: Seq<AuditEntry>) -> Seq<AuditView> {
    s.map_values(|e: AuditEntry| e@)
}

/// A record with the key that groups it: its value, lower-cased.
#[derive(Debug)]
pub struct KeyedRecord {
    pub record: NameRecord,
    pub key: String,
}

pub struct KeyedView {
    pub record: NameRecordView,
    pub key: Seq<char>,
}

impl View for KeyedRecord {
    type V = KeyedView;

    open spec fn view(&self) -> KeyedView {
        KeyedView { record: self.record@, key: self.key@ }
    }
}

pub open spec fn keyed_views(s: Seq<KeyedRecord>) -> Seq<KeyedView> {
    s.map_values(|k: KeyedRecord| k@)
}

/// The records of a keyed list.
pub open spec fn records_of(s: Seq<KeyedView>) -> Seq<NameRecordView> {
    s.map_values(|k: KeyedView| k.record)
}

/// Each record keyed by its lower-cased value.
pub open spec fn keyed_by_lowercase(s: Seq<NameRecordView>) -> Seq<KeyedView> {
    s.map_values(|r: NameRecordView| KeyedView { record: r, key: lower_of(r.value) })
}

/// Two records fall in one duplicate group: same organisation, same key.
pub open spec fn same_key(a: KeyedView, b: KeyedView) -> bool {
    a.record.organization_id == b.record.organization_id && a.key == b.key
}

/// Another record of `l` shares the key of record `i`.
pub open spec fn has_duplicate(l: Seq<KeyedView>, i: int) -> bool {
    exists|j: int| 0 <= j < l.len() && j != i && #[trigger] same_key(l[j], l[i])
}

/// No two records of `l` share a key.
pub open spec fn no_duplicates(l: Seq<KeyedView>) -> bool {
    forall|i: int, j: int|
        0 <= i < l.len() && 0 <= j < l.len() && i != j ==> !#[trigger] same_key(l[i], l[j])
}

pub open spec fn drops_not_preferred(l: Seq<KeyedView>, i: int) -> bool {
    &&& !l[i].record.preferred()
    &&& exists|j: int| 0 <= j < l.len() && #[trigger] same_key(l[j], l[i]) && l[j].record.preferred()
}

pub open spec fn drops_alias(l: Seq<KeyedView>, i: int) -> bool {
    &&& l[i].record.name_type == NameType::Alias
    &&& exists|j: int|
        0 <= j < l.len() && #[trigger] same_key(l[j], l[i]) && l[j].record.name_type == NameType::Label
}

/// Some record of the group of `i` is of type `t`.
pub open spec fn group_has_type(l: Seq<KeyedView>, i: int, t: NameType) -> bool {
    exists|j: int| 0 <= j < l.len() && #[trigger] same_key(l[j], l[i]) && l[j].record.name_type == t
}

/// Some record of the group of `i` is no acronym and longer than five characters.
pub open spec fn group_has_long_other(l: Seq<KeyedView>, i: int) -> bool {
    exists|j: int|
        0 <= j < l.len() && #[trigger] same_key(l[j], l[i]) && l[j].record.name_type
            != NameType::Acronym && l[j].record.value.len() > 5
}

pub open spec fn drops_acronym_pair(l: Seq<KeyedView>, i: int) -> bool {
    if l[i].record.name_type == NameType::Acronym {
        group_has_long_other(l, i)
    } else {
        l[i].record.value.len() <= 5 && group_has_type(l, i, NameType::Acronym)
    }
}

pub open spec fn override_matches(e: OverrideView, r: NameRecordView) -> bool {
    &&& e.organization_id == r.organization_id
    &&& e.value == r.value
    &&& r.language == Some(e.language)
}

pub open spec fn listed(ov: Seq<OverrideView>, r: NameRecordView) -> bool {
    exists|k: int| 0 <= k < ov.len() && #[trigger] override_matches(ov[k], r)
}

pub open spec fn drops_override(l: Seq<KeyedView>, ov: Seq<OverrideView>, i: int) -> bool {
    has_duplicate(l, i) && listed(ov, l[i].record)
}

/// Record `i` is duplicated and no earlier record shares its key.
pub open spec fn drops_lowest(l: Seq<KeyedView>, i: int) -> bool {
    &&& has_duplicate(l, i)
    &&& forall|j: int| 0 <= j < i ==> !#[trigger] same_key(l[j], l[i])
}

/// Whether `rule` removes record `i` of `l`.
pub open spec fn drops(rule: DropReason, l: Seq<KeyedView>, ov: Seq<OverrideView>, i: int) -> bool {
    match rule {
        DropReason::NotPreferred => drops_not_preferred(l, i),
        DropReason::AliasOfLabel => drops_alias(l, i),
        DropReason::AcronymPair => drops_acronym_pair(l, i),
        DropReason::ManualOverride => drops_override(l, ov, i),
        DropReason::LowestSequence => drops_lowest(l, i),
    }
}

/// The records among the first `n` of `l` that `rule` keeps, in order.
pub open spec fn kept(rule: DropReason, l: Seq<KeyedView>, ov: Seq<OverrideView>, n: int) -> Seq<
    KeyedView,
>
    decreases n,
{
    if n <= 0 {
        Seq::empty()
    } else if drops(rule, l, ov, n - 1) {
        kept(rule, l, ov, n - 1)
    } else {
        kept(rule, l, ov, n - 1).push(l[n - 1])
    }
}

/// The records among the first `n` of `l` that `rule` removes, in order.
pub open spec fn removed(rule: DropReason, l: Seq<KeyedView>, ov: Seq<OverrideView>, n: int) -> Seq<
    AuditView,
>
    decreases n,
{
    if n <= 0 {
        Seq::empty()
    } else if drops(rule, l, ov, n - 1) {
        removed(rule, l, ov, n - 1).push(AuditView { record: l[n - 1].record, reason: rule })
    } else {
        removed(rule, l, ov, n - 1)
    }
}

/// The records of `l` that `rule` keeps.
pub open spec fn apply(rule: DropReason, l: Seq<KeyedView>, ov: Seq<OverrideView>) -> Seq<KeyedView> {
    kept(rule, l, ov, l.len() as int)
}

/// What `rule` removes from `l`, as audit entries.
pub open spec fn apply_log(rule: DropReason, l: Seq<KeyedView>, ov: Seq<OverrideView>) -> Seq<AuditView> {
    removed(rule, l, ov, l.len() as int)
}

/// The first four rules, one after the other, and what they removed.
pub open spec fn first_rules(l: Seq<KeyedView>, ov: Seq<OverrideView>) -> (Seq<KeyedView>, Seq<AuditView>) {
    let l1 = apply(DropReason::NotPreferred, l, ov);
    let l2 = apply(DropReason::AliasOfLabel, l1, ov);
    let l3 = apply(DropReason::AcronymPair, l2, ov);
    let l4 = apply(DropReason::ManualOverride, l3, ov);
    (
        l4,
        apply_log(DropReason::NotPreferred, l, ov) + apply_log(DropReason::AliasOfLabel, l1, ov)
            + apply_log(DropReason::AcronymPair, l2, ov) + apply_log(
            DropReason::ManualOverride,
            l3,
            ov,
        ),
    )
}

/// The whole cascade: the first four rules, then, while duplicates remain,
/// the removal of the earliest record of each group and another round.
/// Gives the records kept and the audit log of those removed.
pub open spec fn cascade(l: Seq<KeyedView>, ov: Seq<OverrideView>) -> (Seq<KeyedView>, Seq<AuditView>)
    decreases l.len(),
{
    let (l4, log4) = first_rules(l, ov);
    if no_duplicates(l4) {
        (l4, log4)
    } else {
        let l5 = apply(DropReason::LowestSequence, l4, ov);
        proof {
            lemma_first_rules_len(l, ov);
            lemma_lowest_shrinks(l4, ov);
        }
        let (r, lg) = cascade(l5, ov);
        (r, log4 + apply_log(DropReason::LowestSequence, l4, ov) + lg)
    }
}

pub proof fn lemma_kept_len(rule: DropReason, l: Seq<KeyedView>, ov: Seq<OverrideView>, n: int)
    requires
        0 <= n,
    ensures
        kept(rule, l, ov, n).len() <= n,
        (exists|k: int| 0 <= k < n && drops(rule, l, ov, k)) ==> kept(rule, l, ov, n).len() < n,
    decreases n,
{
    if n > 0 {
        lemma_kept_len(rule, l, ov, n - 1);
        if exists|k: int| 0 <= k < n && drops(rule, l, ov, k) {
            let k = choose|k: int| 0 <= k < n && drops(rule, l, ov, k);
            if k < n - 1 {
                assert(exists|k: int| 0 <= k < n - 1 && drops(rule, l, ov, k));
            }
        }
    }
}

pub proof fn lemma_first_rules_len(l: Seq<KeyedView>, ov: Seq<OverrideView>)
    ensures
        first_rules(l, ov).0.len() <= l.len(),
{
    let l1 = apply(DropReason::NotPreferred, l, ov);
    let l2 = apply(DropReason::AliasOfLabel, l1, ov);
    let l3 = apply(DropReason::AcronymPair, l2, ov);
    lemma_kept_len(DropReason::NotPreferred, l, ov, l.len() as int);
    lemma_kept_len(DropReason::AliasOfLabel, l1, ov, l1.len() as int);
    lemma_kept_len(DropReason::AcronymPair, l2, ov, l2.len() as int);
    lemma_kept_len(DropReason::ManualOverride, l3, ov, l3.len() as int);
}

/// The first record of `l` that shares the key of record `i`, searching from `k`.
proof fn lemma_first_same(l: Seq<KeyedView>, i: int, k: int) -> (m: int)
    requires
        0 <= k <= i < l.len(),
        forall|j: int| 0 <= j < k ==> !#[trigger] same_key(l[j], l[i]),
    ensures
        k <= m <= i,
        same_key(l[m], l[i]),
        forall|j: int| 0 <= j < m ==> !#[trigger] same_key(l[j], l[i]),
    decreases i - k,
{
    if same_key(l[k], l[i]) {
        k
    } else {
        lemma_first_same(l, i, k + 1)
    }
}

pub proof fn lemma_lowest_shrinks(l: Seq<KeyedView>, ov: Seq<OverrideView>)
    requires
        !no_duplicates(l),
    ensures
        apply(DropReason::LowestSequence, l, ov).len() < l.len(),
{
    let (i, j) = choose|i: int, j: int|
        0 <= i < l.len() && 0 <= j < l.len() && i != j && #[trigger] same_key(l[i], l[j]);
    let m = lemma_first_same(l, i, 0);
    if m == i {
        assert(same_key(l[j], l[m]));
    } else {
        assert(same_key(l[i], l[m]));
    }
    assert(has_duplicate(l, m));
    assert forall|k: int| 0 <= k < m implies !#[trigger] same_key(l[k], l[m]) by {
        assert(!same_key(l[k], l[i]));
    }
    assert(drops(DropReason::LowestSequence, l, ov, m));
    lemma_kept_len(DropReason::LowestSequence, l, ov, l.len() as int);
}

fn same_key_at(l: &Vec<KeyedRecord>, i: usize, j: usize) -> (r: bool)
    requires
        i < l.len(),
        j < l.len(),
    ensures
        r == same_key(keyed_views(l@)[i as int], keyed_views(l@)[j as int]),
{
    l[i].record.organization_id == l[j].record.organization_id && l[i].key == l[j].key
}

fn is_preferred(r: &NameRecord) -> (b: bool)
    ensures
        b == r@.preferred(),
{
    match r.is_preferred_display {
        Some(p) => p,
        None => false,
    }
}

/// Whether the group of record `i` holds a record marked for display.
fn group_has_preferred(l: &Vec<KeyedRecord>, i: usize) -> (r: bool)
    requires
        i < l.len(),
    ensures
        r == exists|j: int|
            0 <= j < l.len() && #[trigger] same_key(keyed_views(l@)[j], keyed_views(l@)[i as int])
                && keyed_views(l@)[j].record.preferred(),
{
    let ghost v = keyed_views(l@);
    let mut j: usize = 0;
    while j < l.len()
        invariant
                i < l.len(),
            j <= l.len(),
            v == keyed_views(l@),
            forall|k: int| 0 <= k < j ==> !(#[trigger] same_key(v[k], v[i as int]) && v[k].record.preferred()),
        decreases l.len() - j,
    {
        if same_key_at(l, j, i) && is_preferred(&l[j].record) {
            assert(same_key(v[j as int], v[i as int]) && v[j as int].record.preferred());
            return true;
        }
        j = j + 1;
    }
    false
}

fn group_has_type_at(l: &Vec<KeyedRecord>, i: usize, t: NameType) -> (r: bool)
    requires
        i < l.len(),
    ensures
        r == group_has_type(keyed_views(l@), i as int, t),
{
    let ghost v = keyed_views(l@);
    let mut j: usize = 0;
    while j < l.len()
        invariant
                i < l.len(),
            j <= l.len(),
            v == keyed_views(l@),
            forall|k: int| 0 <= k < j ==> !(#[trigger] same_key(v[k], v[i as int]) && v[k].record.name_type == t),
        decreases l.len() - j,
    {
        if same_key_at(l, j, i) && l[j].record.name_type == t {
            assert(same_key(v[j as int], v[i as int]) && v[j as int].record.name_type == t);
            return true;
        }
        j = j + 1;
    }
    false
}

fn group_has_long_other_at(l: &Vec<KeyedRecord>, i: usize) -> (r: bool)
    requires
        i < l.len(),
    ensures
        r == group_has_long_other(keyed_views(l@), i as int),
{
    let ghost v = keyed_views(l@);
    let mut j: usize = 0;
    while j < l.len()
        invariant
                i < l.len(),
            j <= l.len(),
            v == keyed_views(l@),
            forall|k: int|
                0 <= k < j ==> !(#[trigger] same_key(v[k], v[i as int]) && v[k].record.name_type
                    != NameType::Acronym && v[k].record.value.len() > 5),
        decreases l.len() - j,
    {
        if same_key_at(l, j, i) && l[j].record.name_type != NameType::Acronym
            && l[j].record.value.as_str().unicode_len() > 5 {
            assert(same_key(v[j as int], v[i as int]));
            return true;
        }
        j = j + 1;
    }
    false
}

fn has_duplicate_at(l: &Vec<KeyedRecord>, i: usize) -> (r: bool)
    requires
        i < l.len(),
    ensures
        r == has_duplicate(keyed_views(l@), i as int),
{
    let ghost v = keyed_views(l@);
    let mut j: usize = 0;
    while j < l.len()
        invariant
                i < l.len(),
            j <= l.len(),
            v == keyed_views(l@),
            forall|k: int| 0 <= k < j && k != i ==> !#[trigger] same_key(v[k], v[i as int]),
        decreases l.len() - j,
    {
        if j != i && same_key_at(l, j, i) {
            assert(same_key(v[j as int], v[i as int]));
            return true;
        }
        j = j + 1;
    }
    false
}

/// Whether no record before `i` shares its key.
fn earliest_of_group(l: &Vec<KeyedRecord>, i: usize) -> (r: bool)
    requires
        i < l.len(),
    ensures
        r == forall|j: int| 0 <= j < i ==> !#[trigger] same_key(keyed_views(l@)[j], keyed_views(l@)[i as int]),
{
    let ghost v = keyed_views(l@);
    let mut j: usize = 0;
    while j < i
        invariant
                i < l.len(),
            j <= i,
            v == keyed_views(l@),
            forall|k: int| 0 <= k < j ==> !#[trigger] same_key(v[k], v[i as int]),
        decreases i - j,
    {
        if same_key_at(l, j, i) {
            assert(same_key(v[j as int], v[i as int]));
            return false;
        }
        j = j + 1;
    }
    true
}

fn override_matches_at(e: &OverrideEntry, r: &NameRecord) -> (b: bool)
    ensures
        b == override_matches(e@, r@),
{
    if e.organization_id == r.organization_id && e.value == r.value {
        match &r.language {
            Some(lang) => *lang == e.language,
            None => false,
        }
    } else {
        false
    }
}

/// Whether the override list names `r`.
fn is_listed(ov: &Vec<OverrideEntry>, r: &NameRecord) -> (b: bool)
    ensures
        b == listed(override_views(ov@), r@),
{
    let ghost o = override_views(ov@);
    let mut k: usize = 0;
    while k < ov.len()
        invariant
            k <= ov.len(),
            o == override_views(ov@),
            forall|m: int| 0 <= m < k ==> !#[trigger] override_matches(o[m], r@),
        decreases ov.len() - k,
    {
        if override_matches_at(&ov[k], r) {
            assert(override_matches(o[k as int], r@));
            return true;
        }
        k = k + 1;
    }
    false
}

/// Whether `rule` removes record `i` of `l`.
fn rule_drops(
    rule: DropReason,
    l: &Vec<KeyedRecord>,
    ov: &Vec<OverrideEntry>,
    i: usize,
) -> (r: bool)
    requires
        i < l.len(),
    ensures
        r == drops(rule, keyed_views(l@), override_views(ov@), i as int),
{
    match rule {
        DropReason::NotPreferred => !is_preferred(&l[i].record) && group_has_preferred(l, i),
        DropReason::AliasOfLabel => l[i].record.name_type == NameType::Alias && group_has_type_at(
            l,
            i,
            NameType::Label,
        ),
        DropReason::AcronymPair => {
            if l[i].record.name_type == NameType::Acronym {
                group_has_long_other_at(l, i)
            } else {
                l[i].record.value.as_str().unicode_len() <= 5 && group_has_type_at(
                    l,
                    i,
                    NameType::Acronym,
                )
            }
        },
        DropReason::ManualOverride => has_duplicate_at(l, i) && is_listed(ov, &l[i].record),
        DropReason::LowestSequence => has_duplicate_at(l, i) && earliest_of_group(l, i),
    }
}

impl KeyedRecord {
    /// A copy of this keyed record.
    pub fn duplicate(&self) -> (r: KeyedRecord)
        ensures
            r@ == self@,
    {
        KeyedRecord { record: self.record.duplicate(), key: self.key.clone() }
    }
}

/// Applies `rule` once to every duplicate group of `l`: gives the records it
/// keeps and appends those it removes to `log`.
fn apply_rule(
    rule: DropReason,
    l: &Vec<KeyedRecord>,
    ov: &Vec<OverrideEntry>,
    log: &mut Vec<AuditEntry>,
) -> (r: Vec<KeyedRecord>)
    ensures
        keyed_views(r@) == apply(rule, keyed_views(l@), override_views(ov@)),
        audit_views(final(log)@) == audit_views(old(log)@) + apply_log(
            rule,
            keyed_views(l@),
            override_views(ov@),
        ),
{
    let ghost v = keyed_views(l@);
    let ghost o = override_views(ov@);
    let ghost log0 = audit_views(log@);
    let mut r: Vec<KeyedRecord> = Vec::new();
    let mut i: usize = 0;
    while i < l.len()
        invariant
            i <= l.len(),
            v == keyed_views(l@),
            o == override_views(ov@),
            keyed_views(r@) == kept(rule, v, o, i as int),
            audit_views(log@) == log0 + removed(rule, v, o, i as int),
        decreases l.len() - i,
    {
        let d = rule_drops(rule, l, ov, i);
        let ghost r0 = r@;
        let ghost g0 = log@;
        if d {
            log.push(AuditEntry { record: l[i].record.duplicate(), reason: rule });
            assert(audit_views(log@) =~= audit_views(g0).push(
                AuditView { record: v[i as int].record, reason: rule },
            ));
        } else {
            r.push(l[i].duplicate());
            assert(keyed_views(r@) =~= keyed_views(r0).push(v[i as int]));
        }
        i = i + 1;
    }
    r
}

/// Whether two records of `l` share a key.
fn has_any_duplicate(l: &Vec<KeyedRecord>) -> (r: bool)
    ensures
        r == !no_duplicates(keyed_views(l@)),
{
    let ghost v = keyed_views(l@);
    let mut i: usize = 0;
    while i < l.len()
        invariant
            i <= l.len(),
            v == keyed_views(l@),
            forall|k: int| 0 <= k < i ==> !#[trigger] has_duplicate(v, k),
        decreases l.len() - i,
    {
        if has_duplicate_at(l, i) {
            let ghost j = choose|j: int| 0 <= j < v.len() && j != i && #[trigger] same_key(v[j], v[i as int]);
            assert(same_key(v[j], v[i as int]));
            return true;
        }
        i = i + 1;
    }
    assert forall|a: int, b: int| 0 <= a < v.len() && 0 <= b < v.len() && a != b implies !#[trigger] same_key(
        v[a],
        v[b],
    ) by {
        if same_key(v[a], v[b]) {
            assert(has_duplicate(v, b));
        }
    }
    false
}

/// Resolves every duplicate group of `names`, given with their keys, by the
/// cascade of rules: gives the records kept, in input order, and
/// the audit log of those removed, in the order of removal.
pub fn resolve_duplicates(names: Vec<KeyedRecord>, overrides: &Vec<OverrideEntry>) -> (r: (
    Vec<KeyedRecord>,
    Vec<AuditEntry>,
))
    ensures
        keyed_views(r.0@) == cascade(keyed_views(names@), override_views(overrides@)).0,
        audit_views(r.1@) == cascade(keyed_views(names@), override_views(overrides@)).1,
{
    let ghost input = keyed_views(names@);
    let ghost o = override_views(overrides@);
    let mut log: Vec<AuditEntry> = Vec::new();
    let mut l = names;
    assert(audit_views(log@) =~= Seq::<AuditView>::empty());
    loop
        invariant
            o == override_views(overrides@),
            input == keyed_views(names@),
            cascade(input, o).0 == cascade(keyed_views(l@), o).0,
            cascade(input, o).1 == audit_views(log@) + cascade(keyed_views(l@), o).1,
        decreases l.len(),
    {
        let ghost g0 = audit_views(log@);
        let l1 = apply_rule(DropReason::NotPreferred, &l, overrides, &mut log);
        let l2 = apply_rule(DropReason::AliasOfLabel, &l1, overrides, &mut log);
        let l3 = apply_rule(DropReason::AcronymPair, &l2, overrides, &mut log);
        let l4 = apply_rule(DropReason::ManualOverride, &l3, overrides, &mut log);
        let ghost first = first_rules(keyed_views(l@), o);
        assert(keyed_views(l4@) == first.0);
        assert(audit_views(log@) =~= g0 + first.1);
        if !has_any_duplicate(&l4) {
            assert(cascade(keyed_views(l@), o) == first);
            assert(cascade(input, o).1 =~= audit_views(log@));
            return (l4, log);
        }
        let l5 = apply_rule(DropReason::LowestSequence, &l4, overrides, &mut log);
        proof {
            lemma_first_rules_len(keyed_views(l@), o);
            lemma_lowest_shrinks(keyed_views(l4@), o);
            let rest = cascade(keyed_views(l5@), o);
            assert(cascade(keyed_views(l@), o).1 =~= first.1 + apply_log(
                DropReason::LowestSequence,
                keyed_views(l4@),
                o,
            ) + rest.1);
            assert(audit_views(log@) + rest.1 =~= g0 + cascade(keyed_views(l@), o).1);
        }
        l = l5;
    }
}

/// Each record with its value lower-cased as key.
fn key_by_lowercase(names: Vec<NameRecord>) -> (r: Vec<KeyedRecord>)
    ensures
        keyed_views(r@) == keyed_by_lowercase(views(names@)),
{
    let mut r: Vec<KeyedRecord> = Vec::new();
    let mut i: usize = 0;
    while i < names.len()
        invariant
            i <= names.len(),
            keyed_views(r@) == keyed_by_lowercase(views(names@)).subrange(0, i as int),
        decreases names.len() - i,
    {
        let ghost r0 = keyed_views(r@);
        let key = lowercase(names[i].value.as_str());
        r.push(KeyedRecord { record: names[i].duplicate(), key });
        assert(keyed_views(r@) =~= r0.push(KeyedView { record: names@[i as int]@, key: lower_of(names@[i as int].value@) }));
        assert(keyed_views(r@) =~= keyed_by_lowercase(views(names@)).subrange(0, i + 1));
        i = i + 1;
    }
    assert(keyed_by_lowercase(views(names@)).subrange(0, names@.len() as int) =~= keyed_by_lowercase(views(names@)));
    r
}

/// The records of a keyed list, keys dropped.
fn unkeyed(l: Vec<KeyedRecord>) -> (r: Vec<NameRecord>)
    ensures
        views(r@) == records_of(keyed_views(l@)),
{
    let mut r: Vec<NameRecord> = Vec::new();
    let mut i: usize = 0;
    while i < l.len()
        invariant
            i <= l.len(),
            views(r@) == records_of(keyed_views(l@)).subrange(0, i as int),
        decreases l.len() - i,
    {
        let ghost r0 = views(r@);
        r.push(l[i].record.duplicate());
        assert(views(r@) =~= r0.push(l@[i as int].record@));
        assert(views(r@) =~= records_of(keyed_views(l@)).subrange(0, i + 1));
        i = i + 1;
    }
    assert(records_of(keyed_views(l@)).subrange(0, l@.len() as int) =~= records_of(keyed_views(l@)));
    r
}

/// Resolves every duplicate group of `names`, records of one organisation
/// falling in one group when their values agree once lower-cased: gives the
/// records kept, in input order, and the audit log of those
/// removed, in the order of removal.
pub fn remove_dups(names: Vec<NameRecord>, overrides: &Vec<OverrideEntry>) -> (r: (
    Vec<NameRecord>,
    Vec<AuditEntry>,
))
    ensures
        views(r.0@) == records_of(cascade(keyed_by_lowercase(views(names@)), override_views(overrides@)).0),
        audit_views(r.1@) == cascade(keyed_by_lowercase(views(names@)), override_views(overrides@)).1,
{
    let keyed = key_by_lowercase(names);
    let (kept, log) = resolve_duplicates(keyed, overrides);
    (unkeyed(kept), log)
}

/// The number of records of `s` marked for display.
pub open spec fn preferred_count(s: Seq<NameRecordView>) -> nat
    decreases s.len(),
{
    if s.len() == 0 {
        0
    } else {
        preferred_count(s.drop_last()) + if s.last().preferred() {
            1nat
        } else {
            0nat
        }
    }
}

proof fn lemma_kept_preferred(rule: DropReason, l: Seq<KeyedView>, ov: Seq<OverrideView>, n: int)
    requires
        0 <= n <= l.len(),
    ensures
        preferred_count(records_of(kept(rule, l, ov, n))) <= preferred_count(records_of(l.subrange(0, n))),
    decreases n,
{
    if n > 0 {
        lemma_kept_preferred(rule, l, ov, n - 1);
        assert(records_of(l.subrange(0, n)).drop_last() =~= records_of(l.subrange(0, n - 1)));
        let k = kept(rule, l, ov, n - 1);
        assert(records_of(k.push(l[n - 1])).drop_last() =~= records_of(k));
    }
}

proof fn lemma_apply_preferred(rule: DropReason, l: Seq<KeyedView>, ov: Seq<OverrideView>)
    ensures
        preferred_count(records_of(apply(rule, l, ov))) <= preferred_count(records_of(l)),
{
    lemma_kept_preferred(rule, l, ov, l.len() as int);
    assert(l.subrange(0, l.len() as int) =~= l);
}

/// The cascade only removes records: it never raises the number of records
/// marked for display.
pub proof fn lemma_cascade_preferred(l: Seq<KeyedView>, ov: Seq<OverrideView>)
    ensures
        preferred_count(records_of(cascade(l, ov).0)) <= preferred_count(records_of(l)),
    decreases l.len(),
{
    let l1 = apply(DropReason::NotPreferred, l, ov);
    let l2 = apply(DropReason::AliasOfLabel, l1, ov);
    let l3 = apply(DropReason::AcronymPair, l2, ov);
    let l4 = apply(DropReason::ManualOverride, l3, ov);
    lemma_apply_preferred(DropReason::NotPreferred, l, ov);
    lemma_apply_preferred(DropReason::AliasOfLabel, l1, ov);
    lemma_apply_preferred(DropReason::AcronymPair, l2, ov);
    lemma_apply_preferred(DropReason::ManualOverride, l3, ov);
    if !no_duplicates(l4) {
        lemma_first_rules_len(l, ov);
        lemma_lowest_shrinks(l4, ov);
        lemma_apply_preferred(DropReason::LowestSequence, l4, ov);
        lemma_cascade_preferred(apply(DropReason::LowestSequence, l4, ov), ov);
    }
}

/// Uniqueness: after the cascade no two records share an organisation and a
/// lower-cased value.
pub proof fn lemma_cascade_unique(l: Seq<KeyedView>, ov: Seq<OverrideView>)
    ensures
        no_duplicates(cascade(l, ov).0),
    decreases l.len(),
{
    let l4 = first_rules(l, ov).0;
    if !no_duplicates(l4) {
        lemma_first_rules_len(l, ov);
        lemma_lowest_shrinks(l4, ov);
        lemma_cascade_unique(apply(DropReason::LowestSequence, l4, ov), ov);
    }
}

/// Without duplicates, no rule removes anything.
proof fn lemma_no_drops(rule: DropReason, l: Seq<KeyedView>, ov: Seq<OverrideView>, i: int)
    requires
        no_duplicates(l),
        0 <= i < l.len(),
    ensures
        !drops(rule, l, ov, i),
{
    if drops(rule, l, ov, i) {
        let j = choose|j: int| 0 <= j < l.len() && #[trigger] same_key(l[j], l[i]) && j != i;
        assert(same_key(l[j], l[i]));
    }
}

proof fn lemma_kept_all(rule: DropReason, l: Seq<KeyedView>, ov: Seq<OverrideView>, n: int)
    requires
        no_duplicates(l),
        0 <= n <= l.len(),
    ensures
        kept(rule, l, ov, n) == l.subrange(0, n),
        removed(rule, l, ov, n) == Seq::<AuditView>::empty(),
    decreases n,
{
    if n > 0 {
        lemma_kept_all(rule, l, ov, n - 1);
        lemma_no_drops(rule, l, ov, n - 1);
        assert(l.subrange(0, n - 1).push(l[n - 1]) =~= l.subrange(0, n));
    }
}

proof fn lemma_apply_all(rule: DropReason, l: Seq<KeyedView>, ov: Seq<OverrideView>)
    requires
        no_duplicates(l),
    ensures
        apply(rule, l, ov) == l,
        apply_log(rule, l, ov) == Seq::<AuditView>::empty(),
{
    lemma_kept_all(rule, l, ov, l.len() as int);
    assert(l.subrange(0, l.len() as int) =~= l);
}

/// A list without duplicates passes the cascade unchanged, with nothing
/// removed.
pub proof fn lemma_cascade_fixed(l: Seq<KeyedView>, ov: Seq<OverrideView>)
    requires
        no_duplicates(l),
    ensures
        cascade(l, ov).0 == l,
        cascade(l, ov).1 == Seq::<AuditView>::empty(),
{
    lemma_apply_all(DropReason::NotPreferred, l, ov);
    lemma_apply_all(DropReason::AliasOfLabel, l, ov);
    lemma_apply_all(DropReason::AcronymPair, l, ov);
    lemma_apply_all(DropReason::ManualOverride, l, ov);
    let e = Seq::<AuditView>::empty();
    assert(e + e + e + e =~= e);
}

/// Idempotence of the cascade: run on its own result it removes nothing more.
pub proof fn lemma_cascade_idempotent(l: Seq<KeyedView>, ov: Seq<OverrideView>)
    ensures
        cascade(cascade(l, ov).0, ov).0 == cascade(l, ov).0,
        cascade(cascade(l, ov).0, ov).1 == Seq::<AuditView>::empty(),
{
    lemma_cascade_unique(l, ov);
    lemma_cascade_fixed(cascade(l, ov).0, ov);
}

proof fn lemma_kept_within(rule: DropReason, l: Seq<KeyedView>, ov: Seq<OverrideView>, n: int)
    requires
        0 <= n <= l.len(),
    ensures
        forall|k: int| 0 <= k < kept(rule, l, ov, n).len() ==> l.contains(#[trigger] kept(rule, l, ov, n)[k]),
    decreases n,
{
    if n > 0 {
        lemma_kept_within(rule, l, ov, n - 1);
        let p = kept(rule, l, ov, n - 1);
        assert forall|k: int| 0 <= k < kept(rule, l, ov, n).len() implies l.contains(#[trigger] kept(rule, l, ov, n)[k]) by {
            if k < p.len() {
                assert(kept(rule, l, ov, n)[k] == p[k]);
            } else {
                assert(kept(rule, l, ov, n)[k] == l[n - 1]);
            }
        }
    }
}

proof fn lemma_apply_within(rule: DropReason, l: Seq<KeyedView>, ov: Seq<OverrideView>, x: KeyedView)
    requires
        apply(rule, l, ov).contains(x),
    ensures
        l.contains(x),
{
    lemma_kept_within(rule, l, ov, l.len() as int);
    let k = choose|k: int| 0 <= k < apply(rule, l, ov).len() && apply(rule, l, ov)[k] == x;
    assert(l.contains(apply(rule, l, ov)[k]));
}

/// Every record that the cascade keeps comes from its input.
pub proof fn lemma_cascade_within(l: Seq<KeyedView>, ov: Seq<OverrideView>, x: KeyedView)
    requires
        cascade(l, ov).0.contains(x),
    ensures
        l.contains(x),
    decreases l.len(),
{
    let l1 = apply(DropReason::NotPreferred, l, ov);
    let l2 = apply(DropReason::AliasOfLabel, l1, ov);
    let l3 = apply(DropReason::AcronymPair, l2, ov);
    let l4 = apply(DropReason::ManualOverride, l3, ov);
    if no_duplicates(l4) {
        lemma_apply_within(DropReason::ManualOverride, l3, ov, x);
    } else {
        lemma_first_rules_len(l, ov);
        lemma_lowest_shrinks(l4, ov);
        let l5 = apply(DropReason::LowestSequence, l4, ov);
        lemma_cascade_within(l5, ov, x);
        lemma_apply_within(DropReason::LowestSequence, l4, ov, x);
        lemma_apply_within(DropReason::ManualOverride, l3, ov, x);
    }
    lemma_apply_within(DropReason::AcronymPair, l2, ov, x);
    lemma_apply_within(DropReason::AliasOfLabel, l1, ov, x);
    lemma_apply_within(DropReason::NotPreferred, l, ov, x);
}

} // verus!
