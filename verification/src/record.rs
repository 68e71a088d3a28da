//! The records that a database holds for an address, and the attributes
//! that are read out of them.
//!
//! Each record type holds, as plain values, the fields that the library
//! reads. Its view is the mathematical record that contracts speak of.
use vstd::prelude::*;
use crate::text::{decimal, decimal_text, opt_text};

verus! {

/// The view of [`AsnRecord`].
pub struct AsnEntry {
    pub number: Option<u32>,
    pub organization: Option<Seq<char>>,
}

/// What an ASN database holds for a network: the number of the autonomous
/// system and the name of its organization, either of which may be missing.
#[derive(Debug)]
pub struct AsnRecord {
    pub number: Option<u32>,
    pub organization: Option<String>,
}

impl View for AsnRecord {
    type V = AsnEntry;

    open spec fn view(&self) -> AsnEntry {
        AsnEntry { number: self.number, organization: opt_text(self.organization) }
    }
}

/// The view of [`LocalName`]: a locale and the name in it.
pub struct LocalNameEntry {
    pub locale: Seq<char>,
    pub name: Seq<char>,
}

/// A name in one locale.
#[derive(Debug)]
pub struct LocalName {
    pub locale: String,
    pub name: String,
}

impl View for LocalName {
    type V = LocalNameEntry;

    open spec fn view(&self) -> LocalNameEntry {
        LocalNameEntry { locale: self.locale@, name: self.name@ }
    }
}

/// The view of [`CityBlock`].
pub struct CityBlockEntry {
    pub names: Option<Seq<LocalNameEntry>>,
}

/// The city block of a city record: the names of the city, by locale.
#[derive(Debug)]
pub struct CityBlock {
    pub names: Option<Vec<LocalName>>,
}

impl View for CityBlock {
    type V = CityBlockEntry;

    open spec fn view(&self) -> CityBlockEntry {
        CityBlockEntry {
            names: match self.names {
                Some(names) => Some(names@.map_values(|n: LocalName| n@)),
                None => None,
            },
        }
    }
}

/// The view of [`CountryBlock`].
pub struct CountryBlockEntry {
    pub iso_code: Option<Seq<char>>,
}

/// The country block of a city record: the two-letter code of the country.
#[derive(Debug)]
pub struct CountryBlock {
    pub iso_code: Option<String>,
}

impl View for CountryBlock {
    type V = CountryBlockEntry;

    open spec fn view(&self) -> CountryBlockEntry {
        CountryBlockEntry { iso_code: opt_text(self.iso_code) }
    }
}

/// The view of [`CityRecord`].
pub struct CityEntry {
    pub city: Option<CityBlockEntry>,
    pub country: Option<CountryBlockEntry>,
}

/// What a City database holds for a network, as far as the library reads
/// it: the city block and the country block, either of which may be missing.
#[derive(Debug)]
pub struct CityRecord {
    pub city: Option<CityBlock>,
    pub country: Option<CountryBlock>,
}

impl View for CityRecord {
    type V = CityEntry;

    open spec fn view(&self) -> CityEntry {
        CityEntry {
            city: match self.city {
                Some(block) => Some(block@),
                None => None,
            },
            country: match self.country {
                Some(block) => Some(block@),
                None => None,
            },
        }
    }
}

/// The locale in which city names are resolved.
pub open spec fn name_locale() -> Seq<char> {
    seq!['e', 'n']
}

/// The name that stands under `locale` in `names`: that of the first entry
/// with this locale.
pub open spec fn name_in(names: Seq<LocalNameEntry>, locale: Seq<char>) -> Option<Seq<char>>
    decreases names.len(),
{
    if names.len() == 0 {
        None
    } else if names[0].locale == locale {
        Some(names[0].name)
    } else {
        name_in(names.drop_first(), locale)
    }
}

impl AsnEntry {
    /// The organization name, if the record has one.
    pub open spec fn organization_text(self) -> Option<Seq<char>> {
        self.organization
    }

    /// The AS number in decimal, if the record has one.
    pub open spec fn number_text(self) -> Option<Seq<char>> {
        match self.number {
            Some(n) => Some(decimal_text(n as nat)),
            None => None,
        }
    }
}

impl CityEntry {
    /// The name of the city in the library's locale. There is none where
    /// the city block, its names, or the entry of that locale is missing.
    pub open spec fn city_name(self) -> Option<Seq<char>> {
        match self.city {
            Some(block) => match block.names {
                Some(names) => name_in(names, name_locale()),
                None => None,
            },
            None => None,
        }
    }

    /// The two-letter code of the country. There is none where the country
    /// block or its code is missing.
    pub open spec fn country_iso(self) -> Option<Seq<char>> {
        match self.country {
            Some(block) => block.iso_code,
            None => None,
        }
    }
}

/// Looks `locale` up in `names`.
pub fn find_name(names: &Vec<LocalName>, locale: &String) -> (r: Option<String>)
    ensures
        opt_text(r) == name_in(names@.map_values(|n: LocalName| n@), locale@),
{
    let ghost all = names@.map_values(|n: LocalName| n@);
    let mut i: usize = 0;
    assert(all.subrange(0, all.len() as int) =~= all);
    while i < names.len()
        invariant
            i <= names.len(),
            all == names@.map_values(|n: LocalName| n@),
            name_in(all, locale@) == name_in(all.subrange(i as int, all.len() as int), locale@),
        decreases names.len() - i,
    {
        let ghost rest = all.subrange(i as int, all.len() as int);
        assert(rest[0] == names@[i as int]@);
        if names[i].locale == *locale {
            return Some(names[i].name.clone());
        }
        proof {
            assert(rest.drop_first() =~= all.subrange(i + 1, all.len() as int));
        }
        i = i + 1;
    }
    None
}

impl AsnRecord {
    /// The organization name, if the record has one.
    pub fn organization_text(&self) -> (r: Option<String>)
        ensures
            opt_text(r) == self@.organization_text(),
    {
        match &self.organization {
            Some(name) => Some(name.clone()),
            None => None,
        }
    }

    /// The AS number in decimal, if the record has one.
    pub fn number_text(&self) -> (r: Option<String>)
        ensures
            opt_text(r) == self@.number_text(),
    {
        match self.number {
            Some(n) => Some(decimal(n)),
            None => None,
        }
    }
}

impl CityRecord {
    /// The name of the city in the library's locale, if the record has one.
    pub fn city_name(&self) -> (r: Option<String>)
        ensures
            opt_text(r) == self@.city_name(),
    {
        match &self.city {
            Some(block) => match &block.names {
                Some(names) => {
                    let locale = "en".to_owned();
                    proof {
                        reveal_strlit("en");
                        assert(locale@ =~= name_locale());
                    }
                    find_name(names, &locale)
                },
                None => None,
            },
            None => None,
        }
    }

    /// The two-letter code of the country, if the record has one.
    pub fn country_iso(&self) -> (r: Option<String>)
        ensures
            opt_text(r) == self@.country_iso(),
    {
        match &self.country {
            Some(block) => match &block.iso_code {
                Some(code) => Some(code.clone()),
                None => None,
            },
            None => None,
        }
    }
}

} // verus!
