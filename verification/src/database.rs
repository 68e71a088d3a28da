//! Database handles and the lookups that they answer.
//!
//! A handle is a read-only database whose bytes lie in a mapping of its
//! file. The reader that decodes them is the `maxminddb` crate's; a handle
//! keeps one for its lifetime and never changes it, so what it answers for
//! an address is a fixed property of the handle. The mapped file is taken
//! not to change while the handle lives.
//!
//! The reader indexes into the mapped bytes as the database's own metadata,
//! search tree and pointers direct it. On a damaged file it may therefore
//! panic or fail to return. The contracts below leave such databases out:
//! an address is in the domain of a handle's answers exactly where the
//! reader returns for it.
use vstd::prelude::*;
use maxminddb::geoip2;
use crate::address::Address;
use crate::config::{DatabaseKind, DatabaseUnavailable};
use crate::record::{AsnEntry, AsnRecord, CityBlock, CityEntry, CityRecord, CountryBlock, LocalName};

verus! {

/// `maxminddb::Mmap`: the read-only mapping of a file. Nothing is known of
/// its bytes here; it is handed to the reader as it is.
#[verifier::external_type_specification]
#[verifier::external_body]
pub struct ExMmap(maxminddb::Mmap);

/// `maxminddb::MaxMindDbError`: the error of the reader. It is carried to
/// the place where it is mapped to the library's own failure.
#[verifier::external_type_specification]
#[verifier::external_body]
pub struct ExMaxMindDbError(maxminddb::MaxMindDbError);

/// An open database: the `maxminddb::Reader` over the mapping of its file.
/// The reader is kept behind this type; what is known of it is what the
/// contracts of this module say of `source_outcome`, `asn_answers` and
/// `city_answers`.
#[verifier::external_body]
pub struct GeoDatabaseHandle {
    reader: maxminddb::Reader<maxminddb::Mmap>,
}

/// What a database answers for one address: the record of the network that
/// holds the address, that no network holds it, or that the entry could not
/// be decoded.
pub enum Answer<R> {
    Found(R),
    Missing,
    Failed,
}

/// What `maxminddb::Reader::from_source` returns for a mapping: the reader
/// or its error. `None` stands for a mapping on which it does not return.
pub uninterp spec fn source_outcome(map: maxminddb::Mmap) -> Option<
    Result<GeoDatabaseHandle, maxminddb::MaxMindDbError>,
>;

/// What the database answers when it is asked for the ASN record of an
/// address. Its domain holds the addresses for which the reader returns.
pub uninterp spec fn asn_answers(handle: GeoDatabaseHandle) -> Map<Address, Answer<AsnEntry>>;

/// What the database answers when it is asked for the City record of an
/// address. Its domain holds the addresses for which the reader returns.
pub uninterp spec fn city_answers(handle: GeoDatabaseHandle) -> Map<Address, Answer<CityEntry>>;

/// The answer that a returned ASN lookup stands for.
pub open spec fn asn_answer(found: Result<Option<AsnRecord>, maxminddb::MaxMindDbError>) -> Answer<
    AsnEntry,
> {
    match found {
        Ok(Some(record)) => Answer::Found(record@),
        Ok(None) => Answer::Missing,
        Err(_) => Answer::Failed,
    }
}

/// The answer that a returned City lookup stands for.
pub open spec fn city_answer(
    found: Result<Option<CityRecord>, maxminddb::MaxMindDbError>,
) -> Answer<CityEntry> {
    match found {
        Ok(Some(record)) => Answer::Found(record@),
        Ok(None) => Answer::Missing,
        Err(_) => Answer::Failed,
    }
}

/// Calls `maxminddb::Reader::from_source` on the mapping. Where the reader
/// returns, the result is what `source_outcome` names: the handle around
/// the reader, or the reader's error.
#[verifier::external_body]
fn read_source(map: maxminddb::Mmap) -> (r: Result<GeoDatabaseHandle, maxminddb::MaxMindDbError>)
    requires
        source_outcome(map) is Some,
    ensures
        source_outcome(map) == Some(r),
{
    maxminddb::Reader::from_source(map).map(|reader| GeoDatabaseHandle { reader })
}

/// Calls `maxminddb::Reader::lookup` for a `geoip2::Asn` record. The
/// result holds the two fields of the record as they were decoded, and
/// stands for the answer that `asn_answers` names for the address.
#[verifier::external_body]
fn lookup_asn(handle: &GeoDatabaseHandle, address: &Address) -> (r: Result<
    Option<AsnRecord>,
    maxminddb::MaxMindDbError,
>)
    requires
        asn_answers(*handle).dom().contains(*address),
    ensures
        asn_answer(r) == asn_answers(*handle)[*address],
{
    let ip = match *address {
        Address::V4(octets) => octets.into(),
        Address::V6(groups) => groups.into(),
    };
    Ok(
        handle.reader.lookup::<geoip2::Asn>(ip)?.map(
            |rec| AsnRecord {
                number: rec.autonomous_system_number,
                organization: rec.autonomous_system_organization.map(|s| s.to_string()),
            },
        ),
    )
}

/// Calls `maxminddb::Reader::lookup` for a `geoip2::City` record. The
/// result holds the names of the city block, in the order of their
/// locales, and the code of the country block, as they were decoded, and
/// stands for the answer that `city_answers` names for the address.
#[verifier::external_body]
fn lookup_city(handle: &GeoDatabaseHandle, address: &Address) -> (r: Result<
    Option<CityRecord>,
    maxminddb::MaxMindDbError,
>)
    requires
        city_answers(*handle).dom().contains(*address),
    ensures
        city_answer(r) == city_answers(*handle)[*address],
{
    let ip = match *address {
        Address::V4(octets) => octets.into(),
        Address::V6(groups) => groups.into(),
    };
    Ok(
        handle.reader.lookup::<geoip2::City>(ip)?.map(
            |rec| CityRecord {
                city: rec.city.map(|c| CityBlock { names: c.names.map(|m| m.iter().map(|(k, v)| LocalName { locale: k.to_string(), name: v.to_string() }).collect()) }),
                country: rec.country.map(|c| CountryBlock { iso_code: c.iso_code.map(|s| s.to_string()) }),
            },
        ),
    )
}

/// The record of a returned lookup: the one that was found, or none where
/// the address is missing or its entry could not be decoded.
pub fn found_record<R>(found: Result<Option<R>, maxminddb::MaxMindDbError>) -> (r: Option<R>)
    ensures
        r == match found {
            Ok(Some(record)) => Some(record),
            _ => None,
        },
{
    match found {
        Ok(Some(record)) => Some(record),
        Ok(None) => None,
        Err(_) => None,
    }
}

/// The database that reading a mapping gave, or the failure to report
/// where the reader refused it.
pub fn opened(
    outcome: Result<GeoDatabaseHandle, maxminddb::MaxMindDbError>,
    kind: DatabaseKind,
    path: String,
) -> (r: Result<GeoDatabaseHandle, DatabaseUnavailable>)
    ensures
        r == match outcome {
            Ok(handle) => Ok::<GeoDatabaseHandle, DatabaseUnavailable>(handle),
            Err(_) => Err(DatabaseUnavailable { kind, path }),
        },
{
    match outcome {
        Ok(handle) => Ok(handle),
        Err(_) => Err(DatabaseUnavailable { kind, path }),
    }
}

impl GeoDatabaseHandle {
    /// Whether the reader returns when it is given the mapping: see the
    /// module.
    pub open spec fn readable(map: maxminddb::Mmap) -> bool {
        source_outcome(map) is Some
    }

    /// Reads the mapping of a database file of the given kind, which was
    /// found at `path`. A mapping that the reader refuses gives the failure
    /// to report, which names the path.
    pub fn load(map: maxminddb::Mmap, kind: DatabaseKind, path: String) -> (r: Result<
        GeoDatabaseHandle,
        DatabaseUnavailable,
    >)
        requires
            Self::readable(map),
        ensures
            r == match source_outcome(map)->0 {
                Ok(handle) => Ok::<GeoDatabaseHandle, DatabaseUnavailable>(handle),
                Err(_) => Err(DatabaseUnavailable { kind, path }),
            },
    {
        opened(read_source(map), kind, path)
    }

    /// Whether the database answers for `address` when it is asked for an
    /// ASN record.
    pub open spec fn answers_asn(self, address: Address) -> bool {
        asn_answers(self).dom().contains(address)
    }

    /// Whether the database answers for `address` when it is asked for a
    /// City record.
    pub open spec fn answers_city(self, address: Address) -> bool {
        city_answers(self).dom().contains(address)
    }

    /// The ASN record that the database holds for `address`, if any.
    pub open spec fn asn_entry(self, address: Address) -> Option<AsnEntry> {
        match asn_answers(self)[address] {
            Answer::Found(entry) => Some(entry),
            _ => None,
        }
    }

    /// The City record that the database holds for `address`, if any.
    pub open spec fn city_entry(self, address: Address) -> Option<CityEntry> {
        match city_answers(self)[address] {
            Answer::Found(entry) => Some(entry),
            _ => None,
        }
    }

    /// Looks the ASN record of `address` up. An address that no network of
    /// the database holds, and one whose entry cannot be decoded, have none.
    pub fn asn_record(&self, address: &Address) -> (r: Option<AsnRecord>)
        requires
            self.answers_asn(*address),
        ensures
            match r {
                Some(record) => self.asn_entry(*address) == Some(record@),
                None => self.asn_entry(*address) is None,
            },
    {
        found_record(lookup_asn(self, address))
    }

    /// Looks the City record of `address` up. An address that no network of
    /// the database holds, and one whose entry cannot be decoded, have none.
    pub fn city_record(&self, address: &Address) -> (r: Option<CityRecord>)
        requires
            self.answers_city(*address),
        ensures
            match r {
                Some(record) => self.city_entry(*address) == Some(record@),
                None => self.city_entry(*address) is None,
            },
    {
        found_record(lookup_city(self, address))
    }
}

} // verus!
