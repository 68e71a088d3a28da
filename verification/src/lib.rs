//! Column-wise enrichment of textual IP addresses from GeoIP databases.
//!
//! A column of raw text cells is turned into a column of attributes: the
//! organization or the number of the autonomous system of an address, the
//! name of its city, or the code of its country. Each cell is read as an
//! address and looked up in an ASN or a City database. A cell that is
//! null, that is no address, or for which the database holds no value
//! gives the empty text.
use vstd::prelude::*;

pub mod address;
pub mod config;
pub mod database;
pub mod forms;
pub mod record;
pub mod registry;
pub mod text;

use crate::address::{lemma_address_is_ascii, parse, parse_address, Address};
use crate::config::{database_path, directory_of, joined, DatabaseKind, DatabaseUnavailable};
use crate::database::{source_outcome, GeoDatabaseHandle};
use crate::text::{lossy_text, opt_text, or_empty, replacement, text_or_empty, utf8_lossy};

verus! {

/// The loaded ASN database.
pub struct GeoipASNState {
    reader: GeoDatabaseHandle,
}

/// The loaded City database.
pub struct GeoipCityState {
    reader: GeoDatabaseHandle,
}

impl GeoipASNState {
    /// The database of this state.
    pub closed spec fn database(self) -> GeoDatabaseHandle {
        self.reader
    }

    /// Whether the database answers for every address.
    pub open spec fn intact(self) -> bool {
        forall|address: Address| self.database().answers_asn(address)
    }

    /// The state around an open database.
    pub fn new(reader: GeoDatabaseHandle) -> (r: Self)
        ensures
            r.database() == reader,
    {
        GeoipASNState { reader }
    }

    /// The database of this state.
    pub fn reader(&self) -> (r: &GeoDatabaseHandle)
        ensures
            *r == self.database(),
    {
        &self.reader
    }

    /// Reads the mapping of the ASN database file, which was found under
    /// the configured directory. A mapping that the reader refuses gives
    /// the failure to report, which names the path of the file.
    pub fn load(map: maxminddb::Mmap, configured: Option<&str>) -> (r: Result<Self, DatabaseUnavailable>)
        requires
            GeoDatabaseHandle::readable(map),
        ensures
            match source_outcome(map)->0 {
                Ok(handle) => r is Ok && r->Ok_0.database() == handle,
                Err(_) => r is Err && r->Err_0.kind == DatabaseKind::Asn && r->Err_0.path@ == joined(
                    directory_of(configured),
                    DatabaseKind::Asn.file_name(),
                ),
            },
    {
        let path = database_path(configured, DatabaseKind::Asn);
        match GeoDatabaseHandle::load(map, DatabaseKind::Asn, path) {
            Ok(reader) => Ok(GeoipASNState { reader }),
            Err(failure) => Err(failure),
        }
    }
}

impl GeoipCityState {
    /// The database of this state.
    pub closed spec fn database(self) -> GeoDatabaseHandle {
        self.reader
    }

    /// Whether the database answers for every address.
    pub open spec fn intact(self) -> bool {
        forall|address: Address| self.database().answers_city(address)
    }

    /// The state around an open database.
    pub fn new(reader: GeoDatabaseHandle) -> (r: Self)
        ensures
            r.database() == reader,
    {
        GeoipCityState { reader }
    }

    /// The database of this state.
    pub fn reader(&self) -> (r: &GeoDatabaseHandle)
        ensures
            *r == self.database(),
    {
        &self.reader
    }

    /// Reads the mapping of the City database file, which was found under
    /// the configured directory. A mapping that the reader refuses gives
    /// the failure to report, which names the path of the file.
    pub fn load(map: maxminddb::Mmap, configured: Option<&str>) -> (r: Result<Self, DatabaseUnavailable>)
        requires
            GeoDatabaseHandle::readable(map),
        ensures
            match source_outcome(map)->0 {
                Ok(handle) => r is Ok && r->Ok_0.database() == handle,
                Err(_) => r is Err && r->Err_0.kind == DatabaseKind::City && r->Err_0.path@ == joined(
                    directory_of(configured),
                    DatabaseKind::City.file_name(),
                ),
            },
    {
        let path = database_path(configured, DatabaseKind::City);
        match GeoDatabaseHandle::load(map, DatabaseKind::City, path) {
            Ok(reader) => Ok(GeoipCityState { reader }),
            Err(failure) => Err(failure),
        }
    }
}

/// One attribute that can be read for an address: a lookup in a database
/// of one kind, and the field of the record that is handed out.
pub trait AttributeExtractor {
    /// The state that holds the database of the kind that the attribute is
    /// read from.
    type State;

    /// Whether the database answers for `address`.
    spec fn answers(state: &Self::State, address: Address) -> bool;

    /// The attribute of `address`: the text of the field, or none where
    /// the database holds no record for the address or the record lacks
    /// the field.
    spec fn attribute(state: &Self::State, address: Address) -> Option<Seq<char>>;

    /// Reads the attribute of `address` with one lookup.
    fn extract(state: &Self::State, address: &Address) -> (r: Option<String>)
        requires
            Self::answers(state, *address),
        ensures
            opt_text(r) == Self::attribute(state, *address),
    ;
}

/// The organization of the autonomous system of an address.
pub struct GeoipAsnOrgScalar {}

/// The number of the autonomous system of an address, in decimal.
pub struct GeoipAsnNumScalar {}

/// The name of the city of an address.
pub struct GeoipCityScalar {}

/// The two-letter code of the country of an address.
pub struct GeoipCountryIsoScalar {}

impl AttributeExtractor for GeoipAsnOrgScalar {
    type State = GeoipASNState;

    open spec fn answers(state: &GeoipASNState, address: Address) -> bool {
        state.database().answers_asn(address)
    }

    open spec fn attribute(state: &GeoipASNState, address: Address) -> Option<Seq<char>> {
        match state.database().asn_entry(address) {
            Some(entry) => entry.organization_text(),
            None => None,
        }
    }

    fn extract(state: &GeoipASNState, address: &Address) -> (r: Option<String>) {
        match state.reader().asn_record(address) {
            Some(record) => record.organization_text(),
            None => None,
        }
    }
}

impl AttributeExtractor for GeoipAsnNumScalar {
    type State = GeoipASNState;

    open spec fn answers(state: &GeoipASNState, address: Address) -> bool {
        state.database().answers_asn(address)
    }

    open spec fn attribute(state: &GeoipASNState, address: Address) -> Option<Seq<char>> {
        match state.database().asn_entry(address) {
            Some(entry) => entry.number_text(),
            None => None,
        }
    }

    fn extract(state: &GeoipASNState, address: &Address) -> (r: Option<String>) {
        match state.reader().asn_record(address) {
            Some(record) => record.number_text(),
            None => None,
        }
    }
}

impl AttributeExtractor for GeoipCityScalar {
    type State = GeoipCityState;

    open spec fn answers(state: &GeoipCityState, address: Address) -> bool {
        state.database().answers_city(address)
    }

    open spec fn attribute(state: &GeoipCityState, address: Address) -> Option<Seq<char>> {
        match state.database().city_entry(address) {
            Some(entry) => entry.city_name(),
            None => None,
        }
    }

    fn extract(state: &GeoipCityState, address: &Address) -> (r: Option<String>) {
        match state.reader().city_record(address) {
            Some(record) => record.city_name(),
            None => None,
        }
    }
}

impl AttributeExtractor for GeoipCountryIsoScalar {
    type State = GeoipCityState;

    open spec fn answers(state: &GeoipCityState, address: Address) -> bool {
        state.database().answers_city(address)
    }

    open spec fn attribute(state: &GeoipCityState, address: Address) -> Option<Seq<char>> {
        match state.database().city_entry(address) {
            Some(entry) => entry.country_iso(),
            None => None,
        }
    }

    fn extract(state: &GeoipCityState, address: &Address) -> (r: Option<String>) {
        match state.reader().city_record(address) {
            Some(record) => record.country_iso(),
            None => None,
        }
    }
}

/// Whether the database of `state` answers for every address.
pub open spec fn answers_all<E: AttributeExtractor>(state: &E::State) -> bool {
    forall|address: Address| E::answers(state, address)
}

/// The attribute of a text: that of the address that it writes, or none
/// where it writes no address.
pub open spec fn text_attribute<E: AttributeExtractor>(state: &E::State, text: Seq<char>) -> Option<
    Seq<char>,
> {
    match parse_address(text) {
        Some(address) => E::attribute(state, address),
        None => None,
    }
}

/// The attribute of a raw cell: that of its bytes read as text.
pub open spec fn cell_attribute<E: AttributeExtractor>(state: &E::State, cell: Seq<u8>) -> Option<
    Seq<char>,
> {
    text_attribute::<E>(state, utf8_lossy(cell))
}

/// The view of a cell of an input column: its bytes, or none for a null.
pub open spec fn cell_bytes(cell: Option<Vec<u8>>) -> Option<Seq<u8>> {
    match cell {
        Some(bytes) => Some(bytes@),
        None => None,
    }
}

/// The output for one row: the attribute of the cell, or the empty text
/// where the cell is null or has no attribute.
pub open spec fn row_output<E: AttributeExtractor>(state: &E::State, cell: Option<Seq<u8>>) -> Seq<
    char,
> {
    match cell {
        Some(bytes) => text_or_empty(cell_attribute::<E>(state, bytes)),
        None => Seq::empty(),
    }
}

/// The output for a column: the output for each of its rows, in order.
pub open spec fn column_output<E: AttributeExtractor>(
    state: &E::State,
    input: Seq<Option<Seq<u8>>>,
) -> Seq<Seq<char>> {
    Seq::new(input.len(), |i: int| row_output::<E>(state, input[i]))
}

/// What is known of the text of a raw cell without reading it: bytes that
/// are UTF-8 are read as the text that they encode, and the text of other
/// bytes holds the replacement character.
pub open spec fn read_as_text(cell: Seq<u8>) -> bool {
    if vstd::utf8::valid_utf8(cell) {
        utf8_lossy(cell) == vstd::utf8::decode_utf8(cell)
    } else {
        utf8_lossy(cell).contains(replacement())
    }
}

/// A text that holds the replacement character writes no address.
pub proof fn lemma_replaced_text_is_no_address(text: Seq<char>)
    requires
        text.contains(replacement()),
    ensures
        parse_address(text) is None,
{
    let i = choose|i: int| 0 <= i < text.len() && text[i] == replacement();
    lemma_address_is_ascii(text, i);
}

/// Reads the attribute of a text: parses it and, where it is an address,
/// looks the address up once.
pub fn lookup_text<E: AttributeExtractor>(state: &E::State, text: &str) -> (r: Option<String>)
    requires
        parse_address(text@) matches Some(address) ==> E::answers(state, address),
    ensures
        opt_text(r) == text_attribute::<E>(state, text@),
{
    match parse(text) {
        Some(address) => E::extract(state, &address),
        None => None,
    }
}

/// Reads the attribute of a raw cell: its bytes are read as UTF-8, with
/// invalid sequences replaced, and the text is looked up.
pub fn lookup_cell<E: AttributeExtractor>(state: &E::State, ip: &[u8]) -> (r: Option<String>)
    requires
        answers_all::<E>(state),
    ensures
        opt_text(r) == cell_attribute::<E>(state, ip@),
        read_as_text(ip@),
{
    let text = lossy_text(ip);
    lookup_text::<E>(state, text.as_str())
}

impl GeoipAsnOrgScalar {
    /// The organization of the autonomous system of the address in a raw
    /// cell.
    pub fn lookup_ip(db: &GeoipASNState, ip: &[u8]) -> (r: Option<String>)
        requires
            db.intact(),
        ensures
            opt_text(r) == cell_attribute::<GeoipAsnOrgScalar>(db, ip@),
            read_as_text(ip@),
    {
        lookup_cell::<GeoipAsnOrgScalar>(db, ip)
    }
}

impl GeoipAsnNumScalar {
    /// The number of the autonomous system of the address in a raw cell.
    pub fn lookup_ip(db: &GeoipASNState, ip: &[u8]) -> (r: Option<String>)
        requires
            db.intact(),
        ensures
            opt_text(r) == cell_attribute::<GeoipAsnNumScalar>(db, ip@),
            read_as_text(ip@),
    {
        lookup_cell::<GeoipAsnNumScalar>(db, ip)
    }
}

impl GeoipCityScalar {
    /// The name of the city of the address in a raw cell.
    pub fn lookup_ip(db: &GeoipCityState, ip: &[u8]) -> (r: Option<String>)
        requires
            db.intact(),
        ensures
            opt_text(r) == cell_attribute::<GeoipCityScalar>(db, ip@),
            read_as_text(ip@),
    {
        lookup_cell::<GeoipCityScalar>(db, ip)
    }
}

impl GeoipCountryIsoScalar {
    /// The code of the country of the address in a raw cell.
    pub fn lookup_ip(db: &GeoipCityState, ip: &[u8]) -> (r: Option<String>)
        requires
            db.intact(),
        ensures
            opt_text(r) == cell_attribute::<GeoipCountryIsoScalar>(db, ip@),
            read_as_text(ip@),
    {
        lookup_cell::<GeoipCountryIsoScalar>(db, ip)
    }
}

/// Turns a column of raw cells into the column of their attributes.
///
/// The output has one text for each row of the input, in the same order.
/// A null cell gives the empty text without being parsed or looked up; any
/// other cell gives its attribute, or the empty text where it has none.
pub fn invoke_wrapper<E: AttributeExtractor>(state: &E::State, input: &Vec<Option<Vec<u8>>>) -> (output: Vec<String>)
    requires
        answers_all::<E>(state),
    ensures
        output.len() == input.len(),
        forall|i: int|
            0 <= i < input.len() ==> (#[trigger] output[i])@ == row_output::<E>(
                state,
                cell_bytes(input[i]),
            ),
        forall|i: int|
            0 <= i < input.len() && input[i] is Some ==> read_as_text((#[trigger] input[i])->0@),
        output@.map_values(|text: String| text@) == column_output::<E>(
            state,
            input@.map_values(|cell: Option<Vec<u8>>| cell_bytes(cell)),
        ),
{
    let mut output: Vec<String> = Vec::new();
    let count: usize = input.len();
    let mut i: usize = 0;
    while i < count
        invariant
            count == input.len(),
            i <= count,
            output.len() == i,
            answers_all::<E>(state),
            forall|j: int|
                0 <= j < i ==> (#[trigger] output[j])@ == row_output::<E>(state, cell_bytes(input[j])),
            forall|j: int| 0 <= j < i && input[j] is Some ==> read_as_text((#[trigger] input[j])->0@),
        decreases count - i,
    {
        let text = match &input[i] {
            None => String::new(),
            Some(cell) => or_empty(lookup_cell::<E>(state, cell.as_slice())),
        };
        output.push(text);
        i = i + 1;
    }
    assert(output@.map_values(|text: String| text@) =~= column_output::<E>(
        state,
        input@.map_values(|cell: Option<Vec<u8>>| cell_bytes(cell)),
    ));
    output
}

/// A cell that writes no address has no attribute, whatever the database
/// holds, and its row is the empty text.
pub proof fn lemma_unparsed_cell_is_empty<E: AttributeExtractor>(state: &E::State, cell: Seq<u8>)
    requires
        parse_address(utf8_lossy(cell)) is None,
    ensures
        cell_attribute::<E>(state, cell) is None,
        row_output::<E>(state, Some(cell)) == Seq::<char>::empty(),
{
}

/// A cell whose bytes are not UTF-8 is read as a text that writes no
/// address, so its row is the empty text.
pub proof fn lemma_invalid_cell_is_empty<E: AttributeExtractor>(state: &E::State, cell: Seq<u8>)
    requires
        !vstd::utf8::valid_utf8(cell),
        read_as_text(cell),
    ensures
        row_output::<E>(state, Some(cell)) == Seq::<char>::empty(),
{
    lemma_replaced_text_is_no_address(utf8_lossy(cell));
}

/// The row of a null cell is the empty text, whatever the database holds.
pub proof fn lemma_null_row_is_empty<E: AttributeExtractor>(state: &E::State, other: &E::State)
    ensures
        row_output::<E>(state, None) == Seq::<char>::empty(),
        row_output::<E>(state, None) == row_output::<E>(other, None),
{
}

/// Rows do not bear on one another: the output of a column that is handed
/// in as two parts is the output of the whole, part after part.
pub proof fn lemma_column_in_parts<E: AttributeExtractor>(
    state: &E::State,
    front: Seq<Option<Seq<u8>>>,
    back: Seq<Option<Seq<u8>>>,
)
    ensures
        column_output::<E>(state, front + back) == column_output::<E>(state, front) + column_output::<
            E,
        >(state, back),
{
    assert(column_output::<E>(state, front + back) =~= column_output::<E>(state, front)
        + column_output::<E>(state, back));
}

/// The output of a row is that of any row with the same cell, wherever the
/// two stand in their columns.
pub proof fn lemma_equal_cells_equal_rows<E: AttributeExtractor>(
    state: &E::State,
    one: Seq<Option<Seq<u8>>>,
    i: int,
    other: Seq<Option<Seq<u8>>>,
    j: int,
)
    requires
        0 <= i < one.len(),
        0 <= j < other.len(),
        one[i] == other[j],
    ensures
        column_output::<E>(state, one)[i] == column_output::<E>(state, other)[j],
{
}

} // verus!
