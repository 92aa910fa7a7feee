//! The index store: a durable mapping from a file's key to its record.
//!
//! The records live in a keyed backend that the caller drives.  This module
//! fixes what is asked of that backend (a fetch by key, or a [`Change`]), what
//! each of its answers means ([`Fetched`], [`Written`]), and the model of a
//! healthy backend against which the store's laws are stated ([`Index`]).

use vstd::prelude::*;

verus! {

/// What can go wrong in the index store.
#[derive(Debug)]
pub enum Error {
    /// The storage backend reported a failure; the text is its report.
    KV(String),
    /// A store that was expected to exist has no backing location.
    KVInitError,
    /// A record could not be decoded or encoded; the text is the codec's report.
    JSON(String),
    /// No record is stored under the key.
    NotFound,
}

/// The payload of a record: the file's last-known location.
#[derive(Debug)]
pub struct FileData {
    pub path: String,
}

impl View for FileData {
    type V = Seq<char>;

    open spec fn view(&self) -> Seq<char> {
        self.path@
    }
}

impl Clone for FileData {
    fn clone(&self) -> (r: FileData)
        ensures
            r == *self,
    {
        FileData { path: self.path.clone() }
    }
}

impl PartialEq for FileData {
    fn eq(&self, other: &FileData) -> (r: bool) {
        self.path == other.path
    }
}

impl vstd::std_specs::cmp::PartialEqSpecImpl for FileData {
    open spec fn obeys_eq_spec() -> bool {
        true
    }

    open spec fn eq_spec(&self, other: &FileData) -> bool {
        self.path@ == other.path@
    }
}

/// One record of the index: a file's key and its payload.
#[derive(Debug)]
pub struct File {
    pub name: String,
    pub data: FileData,
}

/// A record as mathematics: the key and the location, as character sequences.
pub struct FileView {
    pub name: Seq<char>,
    pub path: Seq<char>,
}

impl View for File {
    type V = FileView;

    open spec fn view(&self) -> FileView {
        FileView { name: self.name@, path: self.data.path@ }
    }
}

impl PartialEq for File {
    fn eq(&self, other: &File) -> (r: bool) {
        self.name == other.name && self.data.path == other.data.path
    }
}

impl vstd::std_specs::cmp::PartialEqSpecImpl for File {
    open spec fn obeys_eq_spec() -> bool {
        true
    }

    open spec fn eq_spec(&self, other: &File) -> bool {
        self@ == other@
    }
}

/// A change that the storage backend is asked to make.
#[derive(Debug)]
pub enum Change {
    /// Store `data` under `key`, replacing whatever was there.
    Put { key: String, data: FileData },
    /// Drop whatever is stored under `key`.
    Delete { key: String },
}

/// A change as mathematics.
pub enum ChangeView {
    Put { key: Seq<char>, path: Seq<char> },
    Delete { key: Seq<char> },
}

impl View for Change {
    type V = ChangeView;

    open spec fn view(&self) -> ChangeView {
        match *self {
            Change::Put { key, data } => ChangeView::Put { key: key@, path: data.path@ },
            Change::Delete { key } => ChangeView::Delete { key: key@ },
        }
    }
}

/// What the backend answered when asked for the record under a key.
#[derive(Debug)]
pub enum Fetched {
    /// A record is stored under the key, and this is its payload.
    Found(FileData),
    /// Nothing is stored under the key.
    Missing,
    /// Something is stored under the key but does not decode; the text says why.
    Corrupt(String),
    /// The backend could not be asked; the text is its report.
    Failed(String),
}

/// What the backend answered when asked to make a change.
#[derive(Debug)]
pub enum Written {
    /// The change was made.  Deleting a key that held nothing counts as made.
    Done,
    /// The payload could not be encoded; the text says why.
    Rejected(String),
    /// The backend could not make the change; the text is its report.
    Failed(String),
}

/// The contents of a healthy backend: for each key that holds a record, the
/// location stored in it.
pub type Index = Map<Seq<char>, Seq<char>>;

/// The index after a healthy backend has made the change `c`.
pub open spec fn apply_change(index: Index, c: ChangeView) -> Index {
    match c {
        ChangeView::Put { key, path } => index.insert(key, path),
        ChangeView::Delete { key } => index.remove(key),
    }
}

/// The index after a healthy backend has made the changes `cs`, first to last.
pub open spec fn apply_changes(index: Index, cs: Seq<ChangeView>) -> Index
    decreases cs.len(),
{
    if cs.len() == 0 {
        index
    } else {
        apply_change(apply_changes(index, cs.drop_last()), cs.last())
    }
}

/// Whether `fetched` is what a healthy backend holding `index` answers when
/// asked for `key`.
pub open spec fn answers(index: Index, key: Seq<char>, fetched: Fetched) -> bool {
    if index.contains_key(key) {
        fetched matches Fetched::Found(d) && d@ == index[key]
    } else {
        fetched is Missing
    }
}

/// The configuration of a store, as the `kv` crate holds it.
#[verifier::external_type_specification]
#[verifier::external_body]
pub struct ExConfig(kv::Config);

/// The configuration that `kv::Config::new` builds for a store at `path`:
/// that location, and the crate's defaults for everything else.
pub uninterp spec fn config_for(path: Seq<char>) -> kv::Config;

/// Calls `kv::Config::new`, which builds a configuration from the path it is
/// given and from constants.  The contract claims only that the result is the
/// one that belongs to `path`: the call reads nothing else.
#[verifier::external_body]
fn config_at(path: &String) -> (config: kv::Config)
    ensures
        config == config_for(path@),
{
    kv::Config::new(path)
}

/// The index store.
///
/// `path` is the backing location, `name` a label for it, and `config` what
/// the backend is opened with: the configuration that belongs to `path`.  `loaded` tells whether the store was opened on
/// the promise that the location already exists.
#[derive(Debug)]
pub struct Fdb {
    pub name: String,
    pub path: String,
    pub config: kv::Config,
    pub loaded: bool,
}

impl Fdb {
    /// A store at `p` that may or may not exist yet: the first change creates
    /// it.  Nothing is read or created here.
    pub fn new(p: String, n: String) -> (fdb: Fdb)
        ensures
            fdb == (Fdb { name: n, path: p, config: config_for(p@), loaded: false }),
    {
        let config = config_at(&p);
        Fdb { name: n, path: p, config, loaded: false }
    }

    /// A store at `p` that is expected to exist already.  Nothing is read
    /// here: `is_initialized` reports a location that is absent.
    pub fn load(p: String, n: String) -> (fdb: Fdb)
        ensures
            fdb == (Fdb { name: n, path: p, config: config_for(p@), loaded: true }),
    {
        let config = config_at(&p);
        Fdb { name: n, path: p, config, loaded: true }
    }

    /// What `is_initialized` returns, given whether the backing location is
    /// `present`.
    pub open spec fn is_initialized_spec(self, present: bool) -> Result<bool, Error> {
        if present {
            Ok(true)
        } else if self.loaded {
            Err(Error::KVInitError)
        } else {
            Ok(false)
        }
    }

    /// Whether the backing location exists, given what the caller found at
    /// `path`.  An absent location is a failure only for a store that was
    /// loaded.
    pub fn is_initialized(&self, present: bool) -> (r: Result<bool, Error>)
        ensures
            r == self.is_initialized_spec(present),
    {
        if present {
            Ok(true)
        } else if self.loaded {
            Err(Error::KVInitError)
        } else {
            Ok(false)
        }
    }

    /// What `check` returns for each answer of the backend.
    pub open spec fn check_spec(fetched: Fetched) -> Result<bool, Error> {
        match fetched {
            Fetched::Found(_) => Ok(true),
            Fetched::Corrupt(_) => Ok(true),
            Fetched::Missing => Ok(false),
            Fetched::Failed(report) => Err(Error::KV(report)),
        }
    }

    /// Whether a record exists under the key that `fetched` answers for.
    /// Absence is an answer, not a failure; a record that does not decode
    /// still exists.
    pub fn check(&self, fetched: Fetched) -> (r: Result<bool, Error>)
        ensures
            r == Self::check_spec(fetched),
    {
        match fetched {
            Fetched::Found(_) => Ok(true),
            Fetched::Corrupt(_) => Ok(true),
            Fetched::Missing => Ok(false),
            Fetched::Failed(report) => Err(Error::KV(report)),
        }
    }

    /// The change that stores the record `f` under its own key.
    pub fn add(&self, f: &File) -> (c: Change)
        ensures
            c == (Change::Put { key: f.name, data: f.data }),
            c@ == (ChangeView::Put { key: f@.name, path: f@.path }),
    {
        Change::Put { key: f.name.clone(), data: f.data.clone() }
    }

    /// What `get` returns for the key `n` and each answer of the backend.
    pub open spec fn get_spec(n: String, fetched: Fetched) -> Result<File, Error> {
        match fetched {
            Fetched::Found(data) => Ok(File { name: n, data }),
            Fetched::Missing => Err(Error::NotFound),
            Fetched::Corrupt(report) => Err(Error::JSON(report)),
            Fetched::Failed(report) => Err(Error::KV(report)),
        }
    }

    /// The record under the key `n`, given the backend's answer for `n`.
    pub fn get(&self, n: &String, fetched: Fetched) -> (r: Result<File, Error>)
        ensures
            r == Self::get_spec(*n, fetched),
    {
        match fetched {
            Fetched::Found(data) => Ok(File { name: n.clone(), data }),
            Fetched::Missing => Err(Error::NotFound),
            Fetched::Corrupt(report) => Err(Error::JSON(report)),
            Fetched::Failed(report) => Err(Error::KV(report)),
        }
    }

    /// The change that replaces the payload under the key `n` by `d`.  It is
    /// the same upsert as `add` makes, and creates the record where none was.
    pub fn update(&self, n: &String, d: FileData) -> (c: Change)
        ensures
            c == (Change::Put { key: *n, data: d }),
            c@ == (ChangeView::Put { key: n@, path: d@ }),
    {
        Change::Put { key: n.clone(), data: d }
    }

    /// The change that drops the record under the key `n`.
    pub fn remove(&self, n: &String) -> (c: Change)
        ensures
            c == (Change::Delete { key: *n }),
            c@ == (ChangeView::Delete { key: n@ }),
    {
        Change::Delete { key: n.clone() }
    }

    /// What `settle` returns for each answer of the backend.
    pub open spec fn settle_spec(written: Written) -> Result<(), Error> {
        match written {
            Written::Done => Ok(()),
            Written::Rejected(report) => Err(Error::JSON(report)),
            Written::Failed(report) => Err(Error::KV(report)),
        }
    }

    /// The result of `add`, `update` or `remove`, given the backend's answer to
    /// the change.
    pub fn settle(&self, written: Written) -> (r: Result<(), Error>)
        ensures
            r == Self::settle_spec(written),
    {
        match written {
            Written::Done => Ok(()),
            Written::Rejected(report) => Err(Error::JSON(report)),
            Written::Failed(report) => Err(Error::KV(report)),
        }
    }
}

/// Round trip: once a healthy backend has stored a record, asking for its key
/// gives back a record with the same key and the same location.
pub proof fn law_add_then_get(index: Index, f: File, fetched: Fetched)
    requires
        answers(apply_change(index, (Change::Put { key: f.name, data: f.data })@), f.name@, fetched),
    ensures
        Fdb::get_spec(f.name, fetched) matches Ok(g) && g@ == f@,
        Fdb::check_spec(fetched) == Ok::<bool, Error>(true),
{
}

/// An update replaces: after it the key holds the new location, whatever it
/// held before.
pub proof fn law_update_then_get(index: Index, n: String, d: FileData, fetched: Fetched)
    requires
        answers(apply_change(index, (Change::Put { key: n, data: d })@), n@, fetched),
    ensures
        Fdb::get_spec(n, fetched) matches Ok(g) && g@ == (FileView { name: n@, path: d@ }),
{
}

/// Absence: a key that holds nothing checks as false and reads as not found,
/// and removing it leaves a healthy backend as it was.
pub proof fn law_absent_key(index: Index, n: String, fetched: Fetched)
    requires
        !index.contains_key(n@),
        answers(index, n@, fetched),
    ensures
        Fdb::check_spec(fetched) == Ok::<bool, Error>(false),
        Fdb::get_spec(n, fetched) == Err::<File, Error>(Error::NotFound),
        apply_change(index, (Change::Delete { key: n })@) == index,
        Fdb::settle_spec(Written::Done) == Ok::<(), Error>(()),
{
    assert(index.remove(n@) =~= index);
}

/// Removal: after a healthy backend has dropped a key, the key checks as
/// false, whether or not it held a record before.
pub proof fn law_remove_then_check(index: Index, n: String, fetched: Fetched)
    requires
        answers(apply_change(index, (Change::Delete { key: n })@), n@, fetched),
    ensures
        Fdb::check_spec(fetched) == Ok::<bool, Error>(false),
{
}

} // verus!
