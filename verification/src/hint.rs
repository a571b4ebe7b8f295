use crate::pattern::is_match;
use crate::pattern::pattern_matches;
use crate::search::first_where;
use crate::search::lemma_first_where_is;
use crate::search::lemma_first_where_none;
use crate::text::chars_of;
use crate::text::entry;
use crate::text::entry_at;
use crate::text::same_chars;
use crate::text::trim;
use crate::text::trimmed;
use serde_json::Value;
use vstd::prelude::*;

verus! {

/// The pattern of a hint that is a connector's name already: the name of a
/// family of connectors at the start, directly followed by a dash.
pub const CONNECTOR: &'static str = r"^(e?DP|HDMI|DVI|VGA|USB-C|LVDS|Virtual|X11)-";

/// The key under which the compositor gives an output's connector name.
pub const KEY_NAME: &'static str = "name";

/// The key under which the compositor gives the maker of the display.
pub const KEY_MAKE: &'static str = "make";

/// The key under which the compositor gives the model of the display.
pub const KEY_MODEL: &'static str = "model";

/// The key under which the compositor gives the serial number of the display.
pub const KEY_SERIAL: &'static str = "serial";

/// The key under which the compositor gives the description of the display.
pub const KEY_DESCRIPTION: &'static str = "description";

/// What the compositor knows of one output.
#[derive(Clone, Debug, PartialEq, Eq)]
pub struct CompositorOutputRecord {
    /// The connector's name; empty where the compositor gave none.
    pub name: String,
    pub make: Option<String>,
    pub model: Option<String>,
    pub serial: Option<String>,
    pub description: Option<String>,
}

/// What a `CompositorOutputRecord` stands for.
pub ghost struct RecordModel {
    pub name: Seq<char>,
    pub make: Option<Seq<char>>,
    pub model: Option<Seq<char>>,
    pub serial: Option<Seq<char>>,
    pub description: Option<Seq<char>>,
}

impl View for CompositorOutputRecord {
    type V = RecordModel;

    open spec fn view(&self) -> RecordModel {
        RecordModel {
            name: self.name@,
            make: self.make.deep_view(),
            model: self.model.deep_view(),
            serial: self.serial.deep_view(),
            description: self.description.deep_view(),
        }
    }
}

impl DeepView for CompositorOutputRecord {
    type V = RecordModel;

    open spec fn deep_view(&self) -> RecordModel {
        self@
    }
}

/// What `serde_json` makes of `json` and `keys`: nothing where
/// `serde_json::from_str` refuses the text or the value it gives is no
/// array; otherwise one row for each item of the array, in order, and in
/// each row one entry for each key, in order: the text that `Value::get`
/// finds under the key where `Value::as_str` takes it for a string, nothing
/// where the item has no such key or holds something else under it.
pub uninterp spec fn json_string_fields(json: Seq<char>, keys: Seq<Seq<char>>) -> Option<
    Seq<Seq<Option<Seq<char>>>>,
>;

/// Parses `json` with `serde_json::from_str`, takes the array out of the
/// value with `Value::as_array`, and looks each of `keys` up in each item
/// with `Value::get` and `Value::as_str`. Nothing is proved of the parser:
/// the result is only known to be `json_string_fields` of the text and the
/// keys.
#[verifier::external_body]
pub(crate) fn string_fields(json: &str, keys: &Vec<&str>) -> (rows: Option<Vec<Vec<Option<String>>>>)
    ensures
        rows.deep_view() == json_string_fields(json@, keys.deep_view()),
{
    let document: Value = serde_json::from_str(json).ok()?;
    let items = document.as_array()?;
    Some(
        items.iter().map(
            |item|
                keys.iter().map(
                    |key| item.get(*key).and_then(|field| field.as_str()).map(|s| s.to_string()),
                ).collect(),
        ).collect(),
    )
}

/// The keys that a record is read from, in the order of a row's entries.
pub open spec fn record_keys() -> Seq<Seq<char>> {
    seq![KEY_NAME@, KEY_MAKE@, KEY_MODEL@, KEY_SERIAL@, KEY_DESCRIPTION@]
}

/// `field`, or the empty text where it is absent.
pub open spec fn or_empty(field: Option<Seq<char>>) -> Seq<char> {
    match field {
        Some(text) => text,
        None => Seq::empty(),
    }
}

/// The record that a row of fields stands for.
pub open spec fn record_of(row: Seq<Option<Seq<char>>>) -> RecordModel {
    RecordModel {
        name: or_empty(entry(row, 0)),
        make: entry(row, 1),
        model: entry(row, 2),
        serial: entry(row, 3),
        description: entry(row, 4),
    }
}

/// The records that rows of fields stand for.
pub open spec fn records_of(rows: Seq<Seq<Option<Seq<char>>>>) -> Seq<RecordModel> {
    Seq::new(rows.len(), |i: int| record_of(rows[i]))
}

/// The records that the compositor's listing `json` holds; none where the
/// listing cannot be read as an array.
pub open spec fn listing_of(json: Seq<char>) -> Option<Seq<RecordModel>> {
    match json_string_fields(json, record_keys()) {
        Some(rows) => Some(records_of(rows)),
        None => None,
    }
}

/// A copy of `field`.
fn copy_field(field: Option<&String>) -> (copy: Option<String>)
    ensures
        copy.deep_view() == field.deep_view(),
{
    match field {
        Some(text) => Some(text.clone()),
        None => None,
    }
}

/// The record that a row of fields stands for.
pub fn record_from_row(row: &Vec<Option<String>>) -> (record: CompositorOutputRecord)
    ensures
        record@ == record_of(row.deep_view()),
{
    let name = match entry_at(row, 0) {
        Some(text) => text.clone(),
        None => String::new(),
    };
    CompositorOutputRecord {
        name,
        make: copy_field(entry_at(row, 1)),
        model: copy_field(entry_at(row, 2)),
        serial: copy_field(entry_at(row, 3)),
        description: copy_field(entry_at(row, 4)),
    }
}

/// The records that rows of fields stand for.
pub fn records_from_rows(rows: &Vec<Vec<Option<String>>>) -> (records: Vec<CompositorOutputRecord>)
    ensures
        records.deep_view() == records_of(rows.deep_view()),
{
    let mut records: Vec<CompositorOutputRecord> = Vec::new();
    let mut i: usize = 0;
    while i < rows.len()
        invariant
            i <= rows.len(),
            records.len() == i,
            forall|j: int| 0 <= j < i ==> records[j]@ == record_of(rows[j].deep_view()),
        decreases rows.len() - i,
    {
        records.push(record_from_row(&rows[i]));
        i += 1;
    }
    records
}

/// The records that the compositor's listing `json` holds.
pub fn parse_listing(json: &str) -> (records: Option<Vec<CompositorOutputRecord>>)
    ensures
        records.deep_view() == listing_of(json@),
{
    let keys: Vec<&str> = vec![KEY_NAME, KEY_MAKE, KEY_MODEL, KEY_SERIAL, KEY_DESCRIPTION];
    assert(keys.deep_view() =~= record_keys());
    match string_fields(json, &keys) {
        Some(rows) => Some(records_from_rows(&rows)),
        None => None,
    }
}

/// The text by which a record identifies its display where it has no
/// description: maker, model and serial number, one blank between them,
/// without white space at either end.
pub open spec fn identity_of(record: RecordModel) -> Seq<char> {
    trim(
        or_empty(record.make) + seq![' '] + or_empty(record.model) + seq![' '] + or_empty(
            record.serial,
        ),
    )
}

/// Whether `hint` names the display of `record`: it is not empty and is the
/// record's description or its identity.
pub open spec fn refers_to(hint: Seq<char>, record: RecordModel) -> bool {
    ||| or_empty(record.description).len() > 0 && or_empty(record.description) == hint
    ||| identity_of(record).len() > 0 && identity_of(record) == hint
}

/// The records whose display `hint` names.
pub open spec fn referring(hint: Seq<char>) -> spec_fn(RecordModel) -> bool {
    |record: RecordModel| refers_to(hint, record)
}

/// The connector of the first record whose display `hint` names.
pub open spec fn resolve_in(hint: Seq<char>, records: Seq<RecordModel>) -> Option<Seq<char>> {
    match first_where(records, 0, referring(hint)) {
        Some(at) => Some(records[at].name),
        None => None,
    }
}

/// The characters of `field`, or none where it is absent.
fn field_chars(field: &Option<String>) -> (chars: Vec<char>)
    ensures
        chars@ == or_empty(field.deep_view()),
{
    match field {
        Some(text) => chars_of(text.as_str()),
        None => Vec::new(),
    }
}

/// Whether `hint` names the display of `record`.
pub fn hint_refers_to(hint: &[char], record: &CompositorOutputRecord) -> (refers: bool)
    ensures
        refers == refers_to(hint@, record@),
{
    let description = field_chars(&record.description);
    if description.len() > 0 && same_chars(description.as_slice(), hint) {
        return true;
    }
    let mut identity = field_chars(&record.make);
    let mut model = field_chars(&record.model);
    let mut serial = field_chars(&record.serial);
    identity.push(' ');
    identity.append(&mut model);
    identity.push(' ');
    identity.append(&mut serial);
    assert(identity@ =~= or_empty(record@.make) + seq![' '] + or_empty(record@.model) + seq![' ']
        + or_empty(record@.serial));
    let inner = trimmed(identity.as_slice());
    inner.len() > 0 && same_chars(inner, hint)
}

/// The connector of the first record whose display `hint` names.
pub fn resolve_in_records(hint: &str, records: &Vec<CompositorOutputRecord>) -> (name: Option<String>)
    ensures
        name.deep_view() == resolve_in(hint@, records.deep_view()),
        (match name {
            Some(connector) => exists|at: int|
                0 <= at < records.len() && refers_to(hint@, #[trigger] records[at]@)
                    && connector@ == records[at].name@ && forall|j: int|
                    0 <= j < at ==> !refers_to(hint@, #[trigger] records[j]@),
            None => forall|j: int|
                0 <= j < records.len() ==> !refers_to(hint@, #[trigger] records[j]@),
        }),
{
    let wanted = chars_of(hint);
    let mut i: usize = 0;
    while i < records.len()
        invariant
            i <= records.len(),
            wanted@ == hint@,
            forall|j: int| 0 <= j < i ==> !refers_to(hint@, #[trigger] records[j]@),
        decreases records.len() - i,
    {
        if hint_refers_to(wanted.as_slice(), &records[i]) {
            proof {
                lemma_first_where_is(records.deep_view(), 0, referring(hint@), i as int);
            }
            return Some(records[i].name.clone());
        }
        i += 1;
    }
    proof {
        lemma_first_where_none(records.deep_view(), 0, referring(hint@));
    }
    None
}

/// Whether `hint` is a connector's name already.
pub open spec fn is_connector(hint: Seq<char>) -> bool {
    pattern_matches(CONNECTOR@, hint)
}

/// Whether the compositor's listing is needed to tell which connector
/// `hint` names: it is unless the hint is a connector's name already.
pub fn needs_listing(hint: &str) -> (needed: bool)
    ensures
        needed == !is_connector(hint@),
{
    !is_match(CONNECTOR, hint)
}

/// The connector that `hint` names, given whether it is a connector's name
/// already and the compositor's records where they could be had: the hint
/// itself where it is a connector's name, whatever the records; otherwise
/// the connector of the first record whose display the hint names.
pub open spec fn resolution_of(
    hint: Seq<char>,
    connector: bool,
    records: Option<Seq<RecordModel>>,
) -> Option<Seq<char>> {
    if connector {
        Some(hint)
    } else {
        match records {
            Some(records) => resolve_in(hint, records),
            None => None,
        }
    }
}

/// The records that the compositor's listing holds, where there is a
/// listing and it can be read.
pub open spec fn records_in(listing: Option<Seq<char>>) -> Option<Seq<RecordModel>> {
    match listing {
        Some(json) => listing_of(json),
        None => None,
    }
}

/// The connector that `hint` names, given the compositor's listing where it
/// could be had.
pub open spec fn connector_of(hint: Seq<char>, listing: Option<Seq<char>>) -> Option<Seq<char>> {
    resolution_of(hint, is_connector(hint), records_in(listing))
}

/// The connector that `hint` names, given whether it is a connector's name
/// already and the compositor's records where they could be had.
pub fn resolve_hint(
    hint: &str,
    connector: bool,
    records: Option<&Vec<CompositorOutputRecord>>,
) -> (name: Option<String>)
    ensures
        name.deep_view() == resolution_of(hint@, connector, records.deep_view()),
{
    if connector {
        return Some(hint.to_owned());
    }
    match records {
        Some(records) => resolve_in_records(hint, records),
        None => None,
    }
}

/// The connector that `hint` names, given the compositor's listing where it
/// could be had. The listing is not read where the hint is a connector's
/// name already.
pub fn map_hint_to_connector(hint: &str, listing: Option<&str>) -> (name: Option<String>)
    ensures
        name.deep_view() == connector_of(hint@, listing.deep_view()),
        is_connector(hint@) ==> name.deep_view() == Some(hint@),
{
    if !needs_listing(hint) {
        return resolve_hint(hint, true, None);
    }
    let records = match listing {
        Some(json) => parse_listing(json),
        None => None,
    };
    resolve_hint(hint, false, records.as_ref())
}

/// A hint that is a connector's name already resolves to itself, whatever
/// the compositor's listing holds and whether or not there is one.
pub proof fn lemma_connector_resolves_to_itself(hint: Seq<char>, listing: Option<Seq<char>>)
    requires
        is_connector(hint),
    ensures
        connector_of(hint, listing) == Some(hint),
{
}

/// A hint that is the identity of the record at `at`, and names the display
/// of no record before it, resolves to the connector of that record. The
/// record's description plays no part.
pub proof fn lemma_identity_resolves(hint: Seq<char>, records: Seq<RecordModel>, at: int)
    requires
        0 <= at < records.len(),
        hint.len() > 0,
        identity_of(records[at]) == hint,
        forall|j: int| 0 <= j < at ==> !refers_to(hint, #[trigger] records[j]),
    ensures
        resolve_in(hint, records) == Some(records[at].name),
{
    lemma_first_where_is(records, 0, referring(hint), at);
}

/// A hint that is the description of the record at `at`, and names the
/// display of no record before it, resolves to the connector of that
/// record.
pub proof fn lemma_description_resolves(hint: Seq<char>, records: Seq<RecordModel>, at: int)
    requires
        0 <= at < records.len(),
        hint.len() > 0,
        records[at].description == Some(hint),
        forall|j: int| 0 <= j < at ==> !refers_to(hint, #[trigger] records[j]),
    ensures
        resolve_in(hint, records) == Some(records[at].name),
{
    lemma_first_where_is(records, 0, referring(hint), at);
}

/// A hint that is no connector's name and is the identity of a record of
/// the compositor's listing, while it names the display of no record before
/// that one, stands for the connector of that record.
pub proof fn lemma_identity_resolves_through_listing(
    hint: Seq<char>,
    json: Seq<char>,
    records: Seq<RecordModel>,
    at: int,
)
    requires
        !is_connector(hint),
        listing_of(json) == Some(records),
        0 <= at < records.len(),
        hint.len() > 0,
        identity_of(records[at]) == hint,
        forall|j: int| 0 <= j < at ==> !refers_to(hint, #[trigger] records[j]),
    ensures
        connector_of(hint, Some(json)) == Some(records[at].name),
{
    lemma_identity_resolves(hint, records, at);
}

/// The empty hint names no display.
pub proof fn lemma_empty_hint_names_nothing(records: Seq<RecordModel>)
    ensures
        resolve_in(Seq::empty(), records) is None,
{
    lemma_first_where_none(records, 0, referring(Seq::empty()));
}

} // verus!
