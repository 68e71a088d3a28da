//! The registry of loaded databases.
//!
//! A registry holds at most one database of each kind. A database is
//! installed when it is first needed and stays for the life of the
//! registry: a later installation of the same kind changes nothing. The
//! registry decides what is to be done; opening and mapping the file is
//! left to its user, which hands the mapping in.
use vstd::prelude::*;
use crate::config::{database_path, default_directory, joined, DatabaseKind, DatabaseUnavailable};
use crate::database::{source_outcome, GeoDatabaseHandle};
use crate::{GeoipASNState, GeoipCityState};

verus! {

/// What is to be done before a database of some kind can be used.
#[derive(Debug)]
pub enum Step {
    /// The database is loaded: nothing is to be done.
    Ready,
    /// The file at this path is to be opened and mapped, and the mapping
    /// installed.
    Open(String),
}

/// The registry of loaded databases: one slot for each kind, and the
/// directory that was configured for the files.
pub struct DatabaseHandleRegistry {
    directory: Option<String>,
    asn: Option<GeoipASNState>,
    city: Option<GeoipCityState>,
}

/// Whether a mapping is read as a database.
pub open spec fn accepted(map: maxminddb::Mmap) -> bool {
    source_outcome(map) matches Some(Ok(_))
}

/// The database that an accepted mapping is read as.
pub open spec fn database_in(map: maxminddb::Mmap) -> GeoDatabaseHandle {
    source_outcome(map)->0->Ok_0
}

impl DatabaseHandleRegistry {
    /// The configured directory, if one was configured.
    pub closed spec fn configured(self) -> Option<Seq<char>> {
        match self.directory {
            Some(dir) => Some(dir@),
            None => None,
        }
    }

    /// The loaded ASN database, if there is one.
    pub closed spec fn asn_database(self) -> Option<GeoDatabaseHandle> {
        match self.asn {
            Some(state) => Some(state.database()),
            None => None,
        }
    }

    /// The loaded City database, if there is one.
    pub closed spec fn city_database(self) -> Option<GeoDatabaseHandle> {
        match self.city {
            Some(state) => Some(state.database()),
            None => None,
        }
    }

    /// The loaded database of the given kind, if there is one.
    pub open spec fn database(self, kind: DatabaseKind) -> Option<GeoDatabaseHandle> {
        match kind {
            DatabaseKind::Asn => self.asn_database(),
            DatabaseKind::City => self.city_database(),
        }
    }

    /// The path at which the database of the given kind is expected.
    pub open spec fn path(self, kind: DatabaseKind) -> Seq<char> {
        joined(
            match self.configured() {
                Some(dir) => dir,
                None => default_directory(),
            },
            kind.file_name(),
        )
    }

    /// The registry after a mapping was handed in for `kind`: a loaded
    /// database stays; an empty slot takes the database that the mapping is
    /// read as, and stays empty where the mapping is refused.
    pub open spec fn installed(self, kind: DatabaseKind, map: maxminddb::Mmap, after: Self) -> bool {
        &&& after.configured() == self.configured()
        &&& forall|other: DatabaseKind| other != kind ==> after.database(other) == self.database(other)
        &&& after.database(kind) == if self.database(kind) is Some {
            self.database(kind)
        } else if accepted(map) {
            Some(database_in(map))
        } else {
            None
        }
    }

    /// An empty registry for the databases under the configured directory.
    pub fn new(directory: Option<String>) -> (r: Self)
        ensures
            r.configured() == match directory {
                Some(dir) => Some(dir@),
                None => None,
            },
            r.database(DatabaseKind::Asn) is None,
            r.database(DatabaseKind::City) is None,
    {
        DatabaseHandleRegistry { directory, asn: None, city: None }
    }

    /// Whether the database of the given kind is loaded.
    pub fn is_loaded(&self, kind: DatabaseKind) -> (r: bool)
        ensures
            r == self.database(kind) is Some,
    {
        match kind {
            DatabaseKind::Asn => self.asn.is_some(),
            DatabaseKind::City => self.city.is_some(),
        }
    }

    /// The path at which the database of the given kind is expected.
    pub fn expected_path(&self, kind: DatabaseKind) -> (r: String)
        ensures
            r@ == self.path(kind),
    {
        match &self.directory {
            Some(dir) => database_path(Some(dir.as_str()), kind),
            None => database_path(None, kind),
        }
    }

    /// What is to be done before the database of the given kind can be
    /// used: nothing once it is loaded, and before that the opening of its
    /// file.
    pub fn step(&self, kind: DatabaseKind) -> (r: Step)
        ensures
            match r {
                Step::Ready => self.database(kind) is Some,
                Step::Open(path) => self.database(kind) is None && path@ == self.path(kind),
            },
    {
        if self.is_loaded(kind) {
            Step::Ready
        } else {
            Step::Open(self.expected_path(kind))
        }
    }

    /// The loaded ASN database, if there is one.
    pub fn acquire_asn(&self) -> (r: Option<&GeoipASNState>)
        ensures
            match r {
                Some(state) => self.database(DatabaseKind::Asn) == Some(state.database()),
                None => self.database(DatabaseKind::Asn) is None,
            },
    {
        self.asn.as_ref()
    }

    /// The loaded City database, if there is one.
    pub fn acquire_city(&self) -> (r: Option<&GeoipCityState>)
        ensures
            match r {
                Some(state) => self.database(DatabaseKind::City) == Some(state.database()),
                None => self.database(DatabaseKind::City) is None,
            },
    {
        self.city.as_ref()
    }

    /// Hands in the mapping of the file of the given kind.
    ///
    /// Where the database of this kind is loaded already, the registry
    /// stays as it is and the mapping is dropped unread. Otherwise the
    /// mapping is read: the database is installed, or, where the mapping is
    /// refused, the slot stays empty and the failure to report is returned.
    /// The result says whether a database was installed by this call.
    pub fn install(&mut self, kind: DatabaseKind, map: maxminddb::Mmap) -> (r: Result<
        bool,
        DatabaseUnavailable,
    >)
        requires
            old(self).database(kind) is None ==> GeoDatabaseHandle::readable(map),
        ensures
            old(self).installed(kind, map, *final(self)),
            match r {
                Ok(fresh) => final(self).database(kind) is Some && fresh == (old(self).database(kind) is None),
                Err(failure) => final(self).database(kind) is None && failure.kind == kind
                    && failure.path@ == old(self).path(kind),
            },
    {
        if self.is_loaded(kind) {
            return Ok(false);
        }
        match kind {
            DatabaseKind::Asn => {
                let loaded = match &self.directory {
                    Some(dir) => GeoipASNState::load(map, Some(dir.as_str())),
                    None => GeoipASNState::load(map, None),
                };
                match loaded {
                    Ok(state) => {
                        self.asn = Some(state);
                        Ok(true)
                    },
                    Err(failure) => Err(failure),
                }
            },
            DatabaseKind::City => {
                let loaded = match &self.directory {
                    Some(dir) => GeoipCityState::load(map, Some(dir.as_str())),
                    None => GeoipCityState::load(map, None),
                };
                match loaded {
                    Ok(state) => {
                        self.city = Some(state);
                        Ok(true)
                    },
                    Err(failure) => Err(failure),
                }
            },
        }
    }
}

/// A database is installed at most once: when two mappings are handed in
/// for one kind, one after the other, and the first was accepted, the
/// database that the registry holds after the second is the one it held
/// after the first.
pub proof fn lemma_installed_once(
    start: DatabaseHandleRegistry,
    kind: DatabaseKind,
    first: maxminddb::Mmap,
    middle: DatabaseHandleRegistry,
    second: maxminddb::Mmap,
    end: DatabaseHandleRegistry,
)
    requires
        start.installed(kind, first, middle),
        middle.installed(kind, second, end),
        start.database(kind) is Some || accepted(first),
    ensures
        middle.database(kind) is Some,
        end.database(kind) == middle.database(kind),
{
}

/// Handing a mapping in for one kind leaves the database of the other
/// kind as it was.
pub proof fn lemma_install_keeps_other(
    start: DatabaseHandleRegistry,
    kind: DatabaseKind,
    map: maxminddb::Mmap,
    end: DatabaseHandleRegistry,
    other: DatabaseKind,
)
    requires
        start.installed(kind, map, end),
        other != kind,
    ensures
        end.database(other) == start.database(other),
{
}

} // verus!
