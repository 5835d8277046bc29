//! Git-backed package sources, as far as the build core cares: a remote is
//! cloned into a local database, a database is checked out at a pinned
//! revision, and that revision is the package's source fingerprint. Running
//! git itself is the surrounding driver's job; the values it reports — command
//! output bytes, whether HEAD already matches — come in as plain data.

use vstd::prelude::*;
use vstd::string::*;

use crate::strutil::{spec_trim_right, trim_right};

verus! {

/// Where a remote repository lives: a local path or a remote URL.
pub enum Location {
    Local(String),
    Remote(String),
}

/// The text of a location.
pub open spec fn spec_location_text(l: Location) -> Seq<char> {
    match l {
        Location::Local(s) => s@,
        Location::Remote(s) => s@,
    }
}

impl Clone for Location {
    fn clone(&self) -> (r: Self)
        ensures
            r == *self,
    {
        match self {
            Location::Local(s) => Location::Local(s.clone()),
            Location::Remote(s) => Location::Remote(s.clone()),
        }
    }
}

impl Location {
    /// The location's text, as a lockfile records it.
    pub fn to_text(&self) -> (r: &str)
        ensures
            r@ == spec_location_text(*self),
    {
        match self {
            Location::Local(s) => s.as_str(),
            Location::Remote(s) => s.as_str(),
        }
    }
}

/// A named reference into a repository: the default branch, or any other
/// branch, tag or revision by name.
pub enum GitReference {
    Master,
    Other(String),
}

/// The text of a reference.
pub open spec fn spec_reference_text(r: GitReference) -> Seq<char> {
    match r {
        GitReference::Master => "master"@,
        GitReference::Other(s) => s@,
    }
}

impl Clone for GitReference {
    fn clone(&self) -> (r: Self)
        ensures
            r == *self,
    {
        match self {
            GitReference::Master => GitReference::Master,
            GitReference::Other(s) => GitReference::Other(s.clone()),
        }
    }
}

impl GitReference {
    /// Reads a reference from its text: `"master"` is the default branch,
    /// anything else names itself.
    pub fn for_str(string: &str) -> (r: GitReference)
        ensures
            string@ == "master"@ ==> r == GitReference::Master,
            string@ != "master"@ ==> (r matches GitReference::Other(s) && s@ == string@),
    {
        if crate::strutil::str_eq(string, "master") {
            GitReference::Master
        } else {
            GitReference::Other(string.to_owned())
        }
    }

    /// The reference's text.
    pub fn as_slice(&self) -> (r: &str)
        ensures
            r@ == spec_reference_text(*self),
    {
        match self {
            GitReference::Master => "master",
            GitReference::Other(s) => s.as_str(),
        }
    }
}

/// A resolved revision: the pinned commit a checkout stands at. Its text is
/// the fingerprint of a git-sourced package.
pub struct GitRevision(pub String);

impl Clone for GitRevision {
    fn clone(&self) -> (r: Self)
        ensures
            r == *self,
    {
        GitRevision(self.0.clone())
    }
}

/// What `String::from_utf8_lossy` decodes the given bytes to: a pure function
/// of the bytes alone.
pub uninterp spec fn utf8_lossy_of(bytes: Seq<u8>) -> Seq<char>;

/// Relies on `String::from_utf8_lossy`: decodes UTF-8 leniently, replacing
/// invalid sequences; the result depends on the bytes alone, and empty input
/// decodes to the empty string.
#[verifier::external_body]
fn to_str(vec: &[u8]) -> (r: String)
    ensures
        r@ == utf8_lossy_of(vec@),
        vec@.len() == 0 ==> r@.len() == 0,
{
    String::from_utf8_lossy(vec).into_owned()
}

/// The text of a finished git command's output: decoded leniently, with
/// trailing whitespace removed.
pub fn git_output_text(output: &[u8]) -> (r: String)
    ensures
        r@ == spec_trim_right(utf8_lossy_of(output@)),
{
    let s = to_str(output);
    trim_right(s.as_str())
}

impl GitRevision {
    /// Wraps a revision's text.
    pub fn new(text: String) -> (r: GitRevision)
        ensures
            r.0 == text,
    {
        GitRevision(text)
    }

    /// The revision named by a `rev-parse` output.
    pub fn from_output(output: &[u8]) -> (r: GitRevision)
        ensures
            r.0@ == spec_trim_right(utf8_lossy_of(output@)),
    {
        GitRevision(git_output_text(output))
    }

    /// The revision's text.
    pub fn as_slice(&self) -> (r: &str)
        ensures
            r@ == self.0@,
    {
        self.0.as_str()
    }

    /// Two revisions name the same commit exactly when their texts agree.
    pub fn eq_rev(&self, other: &GitRevision) -> (r: bool)
        ensures
            r == (self.0@ == other.0@),
    {
        crate::strutil::str_eq(self.0.as_str(), other.0.as_str())
    }
}

/// A remote repository; it gets cloned into a local [`GitDatabase`].
pub struct GitRemote {
    pub location: Location,
}

impl Clone for GitRemote {
    fn clone(&self) -> (r: Self)
        ensures
            r == *self,
    {
        GitRemote { location: self.location.clone() }
    }
}

/// A local clone of a remote repository's database; multiple checkouts can be
/// cloned from it.
pub struct GitDatabase {
    pub remote: GitRemote,
    pub path: String,
}

impl Clone for GitDatabase {
    fn clone(&self) -> (r: Self)
        ensures
            r == *self,
    {
        GitDatabase { remote: self.remote.clone(), path: self.path.clone() }
    }
}

/// A local checkout of one revision of a database.
pub struct GitCheckout {
    pub database: GitDatabase,
    pub location: String,
    pub revision: GitRevision,
}

/// The plain form of a remote, as a lockfile encodes it.
pub struct EncodableGitRemote {
    pub location: String,
}

/// The plain form of a database, as a lockfile encodes it.
pub struct EncodableGitDatabase {
    pub remote: GitRemote,
    pub path: String,
}

/// The plain form of a checkout, as a lockfile encodes it.
pub struct EncodableGitCheckout {
    pub database: GitDatabase,
    pub location: String,
    pub revision: String,
}

impl GitRemote {
    /// A remote at the given location.
    pub fn new(location: &Location) -> (r: GitRemote)
        ensures
            r.location == *location,
    {
        GitRemote { location: location.clone() }
    }

    /// Where the remote lives.
    pub fn get_location(&self) -> (r: &Location)
        ensures
            r == &self.location,
    {
        &self.location
    }

    /// The database of this remote at an already-cloned local path.
    pub fn db_at(&self, db_path: &str) -> (r: GitDatabase)
        ensures
            r.remote == *self,
            r.path@ == db_path@,
    {
        GitDatabase { remote: self.clone(), path: db_path.to_owned() }
    }

    /// What the lockfile records of this remote.
    pub fn to_encodable(&self) -> (r: EncodableGitRemote)
        ensures
            r.location@ == spec_location_text(self.location),
    {
        EncodableGitRemote { location: self.location.to_text().to_owned() }
    }
}

impl GitDatabase {
    /// Where the database lives.
    pub fn get_path(&self) -> (r: &String)
        ensures
            r == &self.path,
    {
        &self.path
    }

    /// What the lockfile records of this database.
    pub fn to_encodable(&self) -> (r: EncodableGitDatabase)
        ensures
            r.remote == self.remote,
            r.path@ == self.path@,
    {
        EncodableGitDatabase { remote: self.remote.clone(), path: self.path.clone() }
    }
}

/// Whether copying a checkout to `rev` must fetch and reset first: only a
/// checkout whose HEAD already names `rev` is left alone.
pub fn needs_update(head: Option<&GitRevision>, rev: &GitRevision) -> (r: bool)
    ensures
        r == !(head matches Some(h) && h.0@ == rev.0@),
{
    match head {
        Some(h) => !h.eq_rev(rev),
        None => true,
    }
}

impl GitCheckout {
    /// A checkout of `database` at `revision`, located at `into`. Whether the
    /// working tree must still be cloned is the caller's to decide.
    pub fn new(into: &str, database: GitDatabase, revision: GitRevision) -> (r: GitCheckout)
        ensures
            r.location@ == into@,
            r.database == database,
            r.revision == revision,
    {
        GitCheckout { location: into.to_owned(), database, revision }
    }

    /// The database path this checkout was cloned from.
    pub fn get_source(&self) -> (r: &String)
        ensures
            r == &self.database.path,
    {
        self.database.get_path()
    }

    /// The pinned revision's text: the source fingerprint of every package of
    /// this checkout.
    pub fn get_rev(&self) -> (r: &str)
        ensures
            r@ == self.revision.0@,
    {
        self.revision.as_slice()
    }

    /// What the lockfile records of this checkout.
    pub fn to_encodable(&self) -> (r: EncodableGitCheckout)
        ensures
            r.database == self.database,
            r.location@ == self.location@,
            r.revision@ == self.revision.0@,
    {
        EncodableGitCheckout {
            database: self.database.clone(),
            location: self.location.clone(),
            revision: self.revision.0.clone(),
        }
    }
}

} // verus!
