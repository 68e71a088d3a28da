//! Where the database files are found, and what is said when one cannot
//! be loaded.
//!
//! The files lie in one directory, which an environment variable may
//! configure. Each kind of database has a fixed file name in it.
use vstd::prelude::*;
use vstd::string::StringExecFns;
use vstd::string::StrSliceExecFns;

verus! {

/// The kind of a database, which selects its file and the attributes that
/// can be read from it.
#[derive(Clone, Copy, Debug, PartialEq, Eq, Structural)]
pub enum DatabaseKind {
    Asn,
    City,
}

/// The directory that holds the databases where none is configured.
pub open spec fn default_directory() -> Seq<char> {
    "/usr/share/GeoIP"@
}

impl DatabaseKind {
    /// The name of the file that holds the database of this kind.
    pub open spec fn file_name(self) -> Seq<char> {
        match self {
            DatabaseKind::Asn => "GeoLite2-ASN.mmdb"@,
            DatabaseKind::City => "GeoLite2-City.mmdb"@,
        }
    }

    /// The name of the file that holds the database of this kind.
    pub fn file(self) -> (r: &'static str)
        ensures
            r@ == self.file_name(),
    {
        match self {
            DatabaseKind::Asn => "GeoLite2-ASN.mmdb",
            DatabaseKind::City => "GeoLite2-City.mmdb",
        }
    }
}

/// The path of `file` in the directory `dir`: the two joined by one `/`,
/// which is left out where the directory is empty or ends in one.
pub open spec fn joined(dir: Seq<char>, file: Seq<char>) -> Seq<char> {
    if dir.len() == 0 || dir.last() == '/' {
        dir + file
    } else {
        dir + seq!['/'] + file
    }
}

/// The directory that holds the databases: the configured one, or the
/// default where none is configured.
pub open spec fn directory_of(configured: Option<&str>) -> Seq<char> {
    match configured {
        Some(dir) => dir@,
        None => default_directory(),
    }
}

/// The text that reports a database that could not be loaded from `path`.
pub open spec fn failure_text(path: Seq<char>) -> Seq<char> {
    "Could not load mmdb file, trying to read "@ + path + ". Use MAXMIND_MMDB_DIR"@
}

/// The name of the environment variable that configures the directory of
/// the databases.
pub fn directory_variable() -> (r: &'static str)
    ensures
        r@ == "MAXMIND_MMDB_DIR"@,
{
    "MAXMIND_MMDB_DIR"
}

/// The path of the database of the given kind, under the configured
/// directory or, where none is configured, under the default one.
pub fn database_path(configured: Option<&str>, kind: DatabaseKind) -> (r: String)
    ensures
        r@ == joined(directory_of(configured), kind.file_name()),
{
    let dir: &str = match configured {
        Some(dir) => dir,
        None => "/usr/share/GeoIP",
    };
    let n: usize = dir.unicode_len();
    let mut path = String::from_str(dir);
    if n > 0 && dir.get_char(n - 1) != '/' {
        path.append("/");
        proof {
            reveal_strlit("/");
            assert("/"@ =~= seq!['/']);
        }
    }
    path.append(kind.file());
    path
}

/// A database that could not be loaded. Nothing can be looked up in a
/// database of this kind; the failure is reported once, when the database
/// is first needed.
#[derive(Debug)]
pub struct DatabaseUnavailable {
    /// The kind of the database.
    pub kind: DatabaseKind,
    /// The path at which the database was expected.
    pub path: String,
}

impl DatabaseUnavailable {
    /// The report of the failure, which names the expected path and the
    /// variable that configures the directory.
    pub fn message(&self) -> (r: String)
        ensures
            r@ == failure_text(self.path@),
    {
        let mut text = String::from_str("Could not load mmdb file, trying to read ");
        text.append(self.path.as_str());
        text.append(". Use MAXMIND_MMDB_DIR");
        text
    }
}

} // verus!
