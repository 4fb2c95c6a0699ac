//! The structs and traits that define a filesystem backend.
//!
//! A backend implements [`DavFileSystem`]; the protocol layer above drives
//! it through that trait and never sees the concrete storage. Paths arrive
//! here pre-normalized and are treated as opaque byte sequences.

use vstd::prelude::*;
use vstd::string::StringExecFns;
use crate::etag::{etag_chars, etag_for};

verus! {

/// Result codes produced by a filesystem backend.
///
/// These classify an outcome rather than describe it: the protocol layer
/// above owns the mapping of each kind to a user-visible response.
#[derive(Debug, Clone, Copy, PartialEq, Eq, Structural)]
pub enum FsError {
    /// The operation is a recognized capability that this backend does not have.
    NotImplemented,
    /// Catch-all for backend-internal failures.
    GeneralFailure,
    /// Creation with fail-if-exists semantics collided with a present node.
    Exists,
    /// The target is absent.
    NotFound,
    /// Permission was denied.
    Forbidden,
    /// The backend is out of space.
    InsufficientStorage,
    /// Symbolic-link or similar cyclic resolution exceeded a bound.
    LoopDetected,
    /// The path exceeds a backend limit.
    PathTooLong,
    /// The payload exceeds a backend limit.
    TooLarge,
    /// The target requires following a remote reference the backend cannot resolve.
    IsRemote,
}

impl FsError {
    /// A short, fixed description of this class of error, for callers
    /// that need one line of text; the kind itself is the real signal.
    pub fn description(&self) -> (r: String)
        ensures
            r@ == "DavFileSystem error"@,
    {
        proof {
            reveal_strlit("DavFileSystem error");
        }
        String::from_str("DavFileSystem error")
    }
}

/// The result type every backend operation returns.
pub type FsResult<T> = Result<T, FsError>;

/// A point in time: whole seconds relative to the epoch (negative means
/// before it) plus a sub-second offset in nanoseconds.
#[derive(Debug, Clone, Copy, PartialEq, Eq, Structural)]
pub struct FsTime {
    /// Whole seconds since the epoch; negative for times before it.
    pub secs: i64,
    /// Nanoseconds within the second, below 1_000_000_000 for a well-formed time.
    pub nanos: u32,
}

impl FsTime {
    /// A well-formed time keeps its sub-second part below one second.
    pub open spec fn wf(self) -> bool {
        self.nanos < 1_000_000_000
    }

    /// The time in whole microseconds since the epoch; meaningful when
    /// `secs >= 0`.
    pub open spec fn epoch_micros(self) -> int {
        self.secs * 1_000_000 + self.nanos / 1000
    }

    /// The duration since the epoch in whole microseconds, or `None` for
    /// a time before the epoch.
    pub fn micros_since_epoch(&self) -> (r: Option<u128>)
        ensures
            r matches Some(m) ==> self.secs >= 0 && m == self.epoch_micros(),
            r is None ==> self.secs < 0,
    {
        if self.secs >= 0 {
            let whole: u128 = (self.secs as u128) * 1_000_000;
            Some(whole + (self.nanos / 1000) as u128)
        } else {
            None
        }
    }
}

/// A storage path as the protocol layer hands it down: an opaque,
/// pre-normalized byte sequence. This layer never interprets its syntax.
#[derive(Debug)]
pub struct DavPath {
    /// The raw path bytes.
    pub bytes: Vec<u8>,
}

impl View for DavPath {
    type V = Seq<u8>;

    open spec fn view(&self) -> Seq<u8> {
        self.bytes@
    }
}

impl DavPath {
    /// Wraps an already normalized byte path.
    pub fn new(bytes: Vec<u8>) -> (r: DavPath)
        ensures
            r@ == bytes@,
    {
        DavPath { bytes }
    }

    /// The raw bytes of the path.
    pub fn as_bytes(&self) -> (r: &[u8])
        ensures
            r@ == self@,
    {
        self.bytes.as_slice()
    }
}

/// A WebDAV property: a named, namespaced, opaquely-valued attribute of a
/// node. `xml` is the raw payload; it may be absent to request or remove
/// the property without carrying a value.
#[derive(Debug)]
pub struct DavProp {
    /// The property name.
    pub name: String,
    /// An optional namespace prefix.
    pub prefix: Option<String>,
    /// An optional namespace URI.
    pub namespace: Option<String>,
    /// The opaque payload, if any.
    pub xml: Option<Vec<u8>>,
}

/// The mathematical value of a property.
#[verifier::ext_equal]
pub struct PropModel {
    /// The property name.
    pub name: Seq<char>,
    /// An optional namespace prefix.
    pub prefix: Option<Seq<char>>,
    /// An optional namespace URI.
    pub namespace: Option<Seq<char>>,
    /// The opaque payload, if any.
    pub xml: Option<Seq<u8>>,
}

/// The identity of a property: two properties address the same property
/// exactly when name and namespace match.
#[verifier::ext_equal]
pub struct PropKey {
    /// The property name.
    pub name: Seq<char>,
    /// The namespace URI, if any.
    pub namespace: Option<Seq<char>>,
}

impl PropModel {
    /// The `(name, namespace)` identity of this property.
    pub open spec fn key(self) -> PropKey {
        PropKey { name: self.name, namespace: self.namespace }
    }
}

impl DavProp {
    /// The mathematical value of this property.
    pub open spec fn model(self) -> PropModel {
        PropModel {
            name: self.name@,
            prefix: match self.prefix {
                Some(p) => Some(p@),
                None => None,
            },
            namespace: match self.namespace {
                Some(n) => Some(n@),
                None => None,
            },
            xml: match self.xml {
                Some(x) => Some(x@),
                None => None,
            },
        }
    }

    /// Whether this property addresses the same property as `other`:
    /// name and namespace match.
    pub fn same_key(&self, other: &DavProp) -> (r: bool)
        ensures
            r == (self.model().key() == other.model().key()),
    {
        let names_match = self.name == other.name;
        let ns_match = match &self.namespace {
            Some(a) => match &other.namespace {
                Some(b) => *a == *b,
                None => false,
            },
            None => other.namespace.is_none(),
        };
        proof {
            if names_match && ns_match {
                assert(self.model().key() =~~= other.model().key());
            }
        }
        names_match && ns_match
    }
}

/// How a file handle should be acquired. The flags carry intent only:
/// a backend validates combinations at `open` time.
#[derive(Debug, Clone, Copy, PartialEq, Eq, Structural)]
pub struct OpenOptions {
    /// Open for reading.
    pub read: bool,
    /// Open for writing.
    pub write: bool,
    /// Open in write-append mode.
    pub append: bool,
    /// Truncate the file first when writing.
    pub truncate: bool,
    /// Create the file if it does not exist.
    pub create: bool,
    /// Create a new file; fail if it already exists.
    pub create_new: bool,
}

impl OpenOptions {
    /// Options with every flag cleared.
    pub fn new() -> (r: OpenOptions)
        ensures
            !r.read && !r.write && !r.append && !r.truncate && !r.create && !r.create_new,
    {
        OpenOptions {
            read: false,
            write: false,
            append: false,
            truncate: false,
            create: false,
            create_new: false,
        }
    }

    /// The read-only preset: `read` set and every other flag cleared.
    pub fn read() -> (r: OpenOptions)
        ensures
            r.read && !r.write && !r.append && !r.truncate && !r.create && !r.create_new,
    {
        OpenOptions {
            read: true,
            write: false,
            append: false,
            truncate: false,
            create: false,
            create_new: false,
        }
    }

    /// The write-only preset: `write` set and every other flag cleared.
    pub fn write() -> (r: OpenOptions)
        ensures
            !r.read && r.write && !r.append && !r.truncate && !r.create && !r.create_new,
    {
        OpenOptions {
            read: false,
            write: true,
            append: false,
            truncate: false,
            create: false,
            create_new: false,
        }
    }
}

/// The shared fallback of every optional operation: the capability is
/// recognized but this backend does not have it.
pub fn not_implemented<T>() -> (r: FsResult<T>)
    ensures
        r == FsResult::<T>::Err(FsError::NotImplemented),
{
    Err(FsError::NotImplemented)
}

/// Duplication of a metadata snapshot: `box_clone` hands back the same
/// snapshot. Implemented by every metadata type so that boxed snapshots
/// can be duplicated.
pub trait BoxCloneMd: Sized {
    /// Duplicates the snapshot.
    fn box_clone(&self) -> (r: Box<Self>)
        ensures
            *r == *self,
    ;
}

/// Duplication of a filesystem handle: the duplicate is an independent
/// handle referring to the same backend state, so one handle per
/// concurrent request costs no backend re-initialization.
pub trait BoxCloneFs: Sized {
    /// The abstract backend state that duplicated handles share.
    type State;

    /// The backend state this handle refers to.
    spec fn fs_state(&self) -> Self::State;

    /// Duplicates the handle; the duplicate refers to the same state.
    fn box_clone(&self) -> (r: Box<Self>)
        ensures
            (*r).fs_state() == self.fs_state(),
    ;
}

/// A metadata snapshot of one node: type, length and timestamps, owned
/// independently of the node it describes. It may become stale; it never
/// changes once taken.
pub trait DavMetaData: BoxCloneMd {
    /// The snapshot's length in bytes.
    spec fn spec_len(&self) -> u64;

    /// The snapshot's modification time, if the backend records one.
    spec fn spec_modified(&self) -> FsResult<FsTime>;

    /// Whether the snapshot describes a directory.
    spec fn spec_is_dir(&self) -> bool;

    /// The length of the node in bytes.
    fn len(&self) -> (r: u64)
        ensures
            r == self.spec_len(),
    ;

    /// The modification time of the node.
    fn modified(&self) -> (r: FsResult<FsTime>)
        ensures
            r == self.spec_modified(),
    ;

    /// Whether the node is a directory.
    fn is_dir(&self) -> (r: bool)
        ensures
            r == self.spec_is_dir(),
    ;

    /// The entity tag of the node. The default derives it purely from
    /// length and modification time (see [`etag_chars`]); backends with a
    /// better identifier override it.
    fn etag(&self) -> (r: String)
        default_ensures
            r@ == etag_chars(self.spec_len(), self.spec_modified()),
    {
        etag_for(self.len(), self.modified())
    }

    /// Whether the node is a plain file. Default: exactly the opposite
    /// of `is_dir`.
    fn is_file(&self) -> (r: bool)
        default_ensures
            r == !self.spec_is_dir(),
    {
        !self.is_dir()
    }

    /// Whether the node is a symbolic link. Default: `false`.
    fn is_symlink(&self) -> (r: bool)
        default_ensures
            r == false,
    {
        false
    }

    /// Last access time. Default: not implemented.
    fn accessed(&self) -> (r: FsResult<FsTime>)
        default_ensures
            r == FsResult::<FsTime>::Err(FsError::NotImplemented),
    {
        not_implemented()
    }

    /// Creation time. Default: not implemented.
    fn created(&self) -> (r: FsResult<FsTime>)
        default_ensures
            r == FsResult::<FsTime>::Err(FsError::NotImplemented),
    {
        not_implemented()
    }

    /// Status change time. Default: not implemented.
    fn status_changed(&self) -> (r: FsResult<FsTime>)
        default_ensures
            r == FsResult::<FsTime>::Err(FsError::NotImplemented),
    {
        not_implemented()
    }

    /// Whether the file is executable. Default: not implemented.
    fn executable(&self) -> (r: FsResult<bool>)
        default_ensures
            r == FsResult::<bool>::Err(FsError::NotImplemented),
    {
        not_implemented()
    }
}

/// Two metadata snapshots with the same length and the same modification
/// time derive the same entity tag; the snapshots need not come from the
/// same backend. Together with [`crate::etag::lemma_etag_injective`] this
/// pins the derived tag down: it changes exactly when the length or the
/// microsecond timestamp changes.
pub proof fn lemma_etag_deterministic<M1: DavMetaData, M2: DavMetaData>(m1: &M1, m2: &M2)
    requires
        m1.spec_len() == m2.spec_len(),
        m1.spec_modified() == m2.spec_modified(),
    ensures
        etag_chars(m1.spec_len(), m1.spec_modified())
            == etag_chars(m2.spec_len(), m2.spec_modified()),
{
}

/// One directory entry: a child node's name together with access to its
/// metadata.
pub trait DavDirEntry: Sized {
    /// The metadata type this entry hands out.
    type Meta: DavMetaData;

    /// The entry's name: a raw byte sequence, not guaranteed valid text.
    spec fn spec_name(&self) -> Seq<u8>;

    /// The metadata this entry resolves to.
    spec fn spec_metadata(&self) -> FsResult<Self::Meta>;

    /// The name of the entry.
    fn name(&self) -> (r: Vec<u8>)
        ensures
            r@ == self.spec_name(),
    ;

    /// The metadata of the entry. May be expensive; the kind probes below
    /// let a backend answer more cheaply.
    fn metadata(&self) -> (r: FsResult<Self::Meta>)
        ensures
            r == self.spec_metadata(),
    ;

    /// Whether the entry is a directory. Default: from `metadata`.
    fn is_dir(&self) -> (r: FsResult<bool>)
        default_ensures
            match self.spec_metadata() {
                Ok(m) => r == FsResult::<bool>::Ok(m.spec_is_dir()),
                Err(e) => r == FsResult::<bool>::Err(e),
            },
    {
        match self.metadata() {
            Ok(m) => Ok(m.is_dir()),
            Err(e) => Err(e),
        }
    }

    /// Whether the entry is a plain file. Default: from `metadata`.
    fn is_file(&self) -> (r: FsResult<bool>)
        default_ensures
            self.spec_metadata() matches Err(e) ==> r == FsResult::<bool>::Err(e),
            self.spec_metadata() is Ok ==> r is Ok,
    {
        match self.metadata() {
            Ok(m) => Ok(m.is_file()),
            Err(e) => Err(e),
        }
    }

    /// Whether the entry is a symbolic link. Default: from `metadata`.
    fn is_symlink(&self) -> (r: FsResult<bool>)
        default_ensures
            self.spec_metadata() matches Err(e) ==> r == FsResult::<bool>::Err(e),
            self.spec_metadata() is Ok ==> r is Ok,
    {
        match self.metadata() {
            Ok(m) => Ok(m.is_symlink()),
            Err(e) => Err(e),
        }
    }
}

/// Where a seek starts from.
#[derive(Debug, Clone, Copy, PartialEq, Eq, Structural)]
pub enum SeekFrom {
    /// An absolute offset from the start.
    Start(u64),
    /// A signed offset from the current position.
    Current(i64),
    /// A signed offset from the end of the content.
    End(i64),
}

/// The bytes a read of at most `count` bytes at `pos` yields: up to
/// `count` bytes from `pos`, stopping at the end of the content.
pub open spec fn read_result(content: Seq<u8>, pos: nat, count: nat) -> Seq<u8> {
    if pos >= content.len() {
        Seq::empty()
    } else if pos + count <= content.len() {
        content.subrange(pos as int, (pos + count) as int)
    } else {
        content.subrange(pos as int, content.len() as int)
    }
}

/// The content after writing `data` at `pos`: the gap between the old end
/// and `pos`, if any, is filled with zero bytes.
pub open spec fn write_at(content: Seq<u8>, pos: nat, data: Seq<u8>) -> Seq<u8> {
    let padded = if content.len() >= pos {
        content
    } else {
        content + Seq::new((pos - content.len()) as nat, |i: int| 0u8)
    };
    let tail = if padded.len() >= pos + data.len() {
        padded.subrange((pos + data.len()) as int, padded.len() as int)
    } else {
        Seq::empty()
    };
    padded.subrange(0, pos as int) + data + tail
}

/// The position a seek asks for, which may be negative or beyond `u64`.
pub open spec fn seek_target(len: nat, pos: nat, from: SeekFrom) -> int {
    match from {
        SeekFrom::Start(n) => n as int,
        SeekFrom::Current(d) => pos + d,
        SeekFrom::End(d) => len + d,
    }
}

/// A live, stateful session on one open node: positioned read, write and
/// seek over its content, plus access to its metadata.
pub trait DavFile: Sized {
    /// The metadata type this handle hands out.
    type Meta: DavMetaData;

    /// The metadata of the open node.
    spec fn spec_metadata(&self) -> FsResult<Self::Meta>;

    /// The content this handle currently sees.
    spec fn spec_content(&self) -> Seq<u8>;

    /// The current read/write position.
    spec fn spec_pos(&self) -> nat;

    /// The metadata of the open node.
    fn metadata(&self) -> (r: FsResult<Self::Meta>)
        ensures
            r == self.spec_metadata(),
    ;

    /// Reads at most `count` bytes at the current position and advances
    /// the position by what was read.
    fn read(&mut self, count: usize) -> (r: FsResult<Vec<u8>>)
        ensures
            r matches Ok(v) ==> {
                &&& v@ == read_result(old(self).spec_content(), old(self).spec_pos(), count as nat)
                &&& final(self).spec_content() == old(self).spec_content()
                &&& final(self).spec_pos() == old(self).spec_pos() + v@.len()
                &&& final(self).spec_metadata() == old(self).spec_metadata()
            },
    ;

    /// Writes all of `data` at the current position and advances the
    /// position past it; a gap beyond the old end is zero-filled.
    fn write(&mut self, data: &[u8]) -> (r: FsResult<()>)
        ensures
            r matches Ok(_) ==> {
                &&& final(self).spec_content() == write_at(old(self).spec_content(), old(self).spec_pos(), data@)
                &&& final(self).spec_pos() == old(self).spec_pos() + data@.len()
            },
    ;

    /// Moves the position; the target may lie beyond the end. Fails at
    /// least when the target is negative or does not fit in `u64`.
    fn seek(&mut self, from: SeekFrom) -> (r: FsResult<u64>)
        ensures
            r matches Ok(p) ==> {
                &&& p == seek_target(old(self).spec_content().len(), old(self).spec_pos(), from)
                &&& final(self).spec_pos() == p as nat
                &&& final(self).spec_content() == old(self).spec_content()
                &&& final(self).spec_metadata() == old(self).spec_metadata()
            },
            !(0 <= seek_target(old(self).spec_content().len(), old(self).spec_pos(), from) <= u64::MAX) ==> r is Err,
    ;
}

/// The forward-only, finite sequence of entries one `read_dir` call
/// produced. Each call to `next` yields the front entry or ends the
/// sequence; a backend failing mid-sequence ends it early.
pub trait DavReadDir: Sized {
    /// The entry type this sequence yields.
    type Entry: DavDirEntry;

    /// The entries not yet yielded.
    spec fn spec_remaining(&self) -> Seq<Self::Entry>;

    /// Yields the next entry, or `None` once the sequence has ended.
    fn next(&mut self) -> (r: Option<Self::Entry>)
        ensures
            match r {
                Some(e) => {
                    &&& old(self).spec_remaining().len() > 0
                    &&& e.spec_name() == old(self).spec_remaining()[0].spec_name()
                    &&& e.spec_metadata() == old(self).spec_remaining()[0].spec_metadata()
                    &&& final(self).spec_remaining() == old(self).spec_remaining().drop_first()
                },
                None => final(self).spec_remaining().len() == 0,
            },
    ;
}

/// The filesystem contract: the root capability object bound to one
/// backend. `open`, `read_dir` and `metadata` are required; every other
/// operation is optional and defaults to `NotImplemented` (and to no
/// change of the backend), so a backend opts in operation by operation.
pub trait DavFileSystem: BoxCloneFs {
    /// The file handle type `open` hands out.
    type File: DavFile;

    /// The entry sequence type `read_dir` hands out.
    type ReadDir: DavReadDir;

    /// The metadata type `metadata` hands out.
    type Meta: DavMetaData;

    /// Whether a node is present at `path`.
    spec fn spec_exists(&self, path: Seq<u8>) -> bool;

    /// What `metadata` returns for `path`.
    spec fn spec_metadata(&self, path: Seq<u8>) -> FsResult<Self::Meta>;

    /// Opens a file. Honors [`OpenOptions`]: with `create_new` set a
    /// present target is refused with `Exists`; an absent target without
    /// `create` or `create_new` is refused with `NotFound`.
    fn open(&self, path: &DavPath, options: OpenOptions) -> (r: FsResult<Self::File>)
        ensures
            options.create_new && self.spec_exists(path@)
                ==> (r matches Err(e) && e == FsError::Exists),
            !self.spec_exists(path@) && !options.create && !options.create_new
                ==> (r matches Err(e) && e == FsError::NotFound),
    ;

    /// Lists the immediate children of a directory as a forward-only,
    /// finite sequence in no guaranteed order.
    fn read_dir(&self, path: &DavPath) -> (r: FsResult<Self::ReadDir>);

    /// The metadata of the node at `path`, resolved through links if the
    /// backend has that concept.
    fn metadata(&self, path: &DavPath) -> (r: FsResult<Self::Meta>)
        ensures
            r == self.spec_metadata(path@),
    ;

    /// The metadata of the node at `path` itself: for a symbolic link,
    /// the link rather than its target. Default: same as `metadata`.
    fn symlink_metadata(&self, path: &DavPath) -> (r: FsResult<Self::Meta>)
        default_ensures
            r == self.spec_metadata(path@),
    {
        self.metadata(path)
    }

    /// Creates a directory. Default: not implemented, no change.
    fn create_dir(&mut self, path: &DavPath) -> (r: FsResult<()>)
        default_ensures
            r == FsResult::<()>::Err(FsError::NotImplemented),
            *final(self) == *old(self),
    {
        not_implemented()
    }

    /// Removes a directory. Default: not implemented, no change.
    fn remove_dir(&mut self, path: &DavPath) -> (r: FsResult<()>)
        default_ensures
            r == FsResult::<()>::Err(FsError::NotImplemented),
            *final(self) == *old(self),
    {
        not_implemented()
    }

    /// Removes a file. Default: not implemented, no change.
    fn remove_file(&mut self, path: &DavPath) -> (r: FsResult<()>)
        default_ensures
            r == FsResult::<()>::Err(FsError::NotImplemented),
            *final(self) == *old(self),
    {
        not_implemented()
    }

    /// Renames a node. Source and destination must be the same node type;
    /// an existing destination file is replaced, an existing destination
    /// directory is an error. Default: not implemented, no change.
    fn rename(&mut self, from: &DavPath, to: &DavPath) -> (r: FsResult<()>)
        default_ensures
            r == FsResult::<()>::Err(FsError::NotImplemented),
            *final(self) == *old(self),
    {
        not_implemented()
    }

    /// Copies a file, carrying its properties over when the backend has
    /// them. Default: not implemented, no change.
    fn copy(&mut self, from: &DavPath, to: &DavPath) -> (r: FsResult<()>)
        default_ensures
            r == FsResult::<()>::Err(FsError::NotImplemented),
            *final(self) == *old(self),
    {
        not_implemented()
    }

    /// Sets the access time of a node. Default: not implemented, no change.
    fn set_accessed(&mut self, path: &DavPath, tm: FsTime) -> (r: FsResult<()>)
        default_ensures
            r == FsResult::<()>::Err(FsError::NotImplemented),
            *final(self) == *old(self),
    {
        not_implemented()
    }

    /// Sets the modification time of a node. Default: not implemented, no change.
    fn set_modified(&mut self, path: &DavPath, tm: FsTime) -> (r: FsResult<()>)
        default_ensures
            r == FsResult::<()>::Err(FsError::NotImplemented),
            *final(self) == *old(self),
    {
        not_implemented()
    }

    /// Whether this backend supports properties: the cheap capability
    /// probe callers check before property operations. Default: `false`.
    fn have_props(&self, path: &DavPath) -> (r: bool)
        default_ensures
            r == false,
    {
        false
    }

    /// Applies property insertions (`set`) and deletions (`remove`) as one
    /// batch and reports one result per property, so one refused property
    /// does not fail the rest. Default: not implemented, no change.
    fn patch_props(&mut self, path: &DavPath, set: Vec<DavProp>, remove: Vec<DavProp>)
        -> (r: FsResult<Vec<(FsResult<()>, DavProp)>>)
        default_ensures
            r matches Err(e) && e == FsError::NotImplemented,
            *final(self) == *old(self),
    {
        not_implemented()
    }

    /// Lists the properties of a node; with `do_content` cleared the
    /// payloads may be omitted. Default: not implemented.
    fn get_props(&self, path: &DavPath, do_content: bool) -> (r: FsResult<Vec<DavProp>>)
        default_ensures
            r matches Err(e) && e == FsError::NotImplemented,
    {
        not_implemented()
    }

    /// Fetches one property's payload. Default: not implemented.
    fn get_prop(&self, path: &DavPath, prop: DavProp) -> (r: FsResult<Vec<u8>>)
        default_ensures
            r matches Err(e) && e == FsError::NotImplemented,
    {
        not_implemented()
    }

    /// The space used and, when known, the total space of this
    /// filesystem; an absent total means unknown or unbounded, not zero.
    /// Default: not implemented.
    fn get_quota(&self) -> (r: FsResult<(u64, Option<u64>)>)
        default_ensures
            r matches Err(e) && e == FsError::NotImplemented,
    {
        not_implemented()
    }
}

} // verus!
