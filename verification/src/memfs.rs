//! In-memory backends for the filesystem contract.
//!
//! [`MemFs`] is a flat in-memory node store: every node is recorded under
//! its full path, and a directory lists its children by name. It
//! implements the required operations and opts into creation, removal,
//! renaming, copying and the property operations. [`NullFs`] is the minimal backend: it
//! implements only the three required operations and inherits every
//! default.

use vstd::prelude::*;
use crate::fs::{
    BoxCloneFs, BoxCloneMd, DavDirEntry, DavFile, DavFileSystem, DavMetaData, DavPath, DavProp,
    DavReadDir, FsError, FsResult, FsTime, OpenOptions, PropKey, PropModel, SeekFrom, read_result,
    write_at,
};

verus! {

/// A plain metadata snapshot: length, modification time and node type.
#[derive(Debug, Clone, Copy)]
pub struct MemMeta {
    /// Length of the node in bytes.
    pub len: u64,
    /// Modification time, if recorded.
    pub modified: FsResult<FsTime>,
    /// Whether the node is a directory.
    pub is_dir: bool,
}

impl BoxCloneMd for MemMeta {
    fn box_clone(&self) -> (r: Box<MemMeta>) {
        Box::new(*self)
    }
}

impl DavMetaData for MemMeta {
    open spec fn spec_len(&self) -> u64 {
        self.len
    }

    open spec fn spec_modified(&self) -> FsResult<FsTime> {
        self.modified
    }

    open spec fn spec_is_dir(&self) -> bool {
        self.is_dir
    }

    fn len(&self) -> u64 {
        self.len
    }

    fn modified(&self) -> FsResult<FsTime> {
        self.modified
    }

    fn is_dir(&self) -> bool {
        self.is_dir
    }
}

/// Copies a byte vector.
fn clone_bytes(v: &Vec<u8>) -> (r: Vec<u8>)
    ensures
        r@ == v@,
{
    let r = v.clone();
    proof {
        assert forall|i: int| 0 <= i < v@.len() implies r@[i] == v@[i] by {
            assert(cloned::<u8>(v@[i], r@[i]));
        }
        assert(r@ =~= v@);
    }
    r
}

/// Whether two byte vectors hold the same bytes.
fn bytes_eq(a: &Vec<u8>, b: &Vec<u8>) -> (r: bool)
    ensures
        r == (a@ == b@),
{
    if a.len() != b.len() {
        return false;
    }
    let mut i: usize = 0;
    while i < a.len()
        invariant
            i <= a.len(),
            a.len() == b.len(),
            forall|j: int| 0 <= j < i ==> a@[j] == b@[j],
        decreases a.len() - i,
    {
        if a[i] != b[i] {
            return false;
        }
        i += 1;
    }
    proof {
        assert(a@ =~= b@);
    }
    true
}

/// A file handle of [`MemFs`]: a session over one node's content with a
/// read/write position. The handle owns its view of the content.
#[derive(Debug)]
pub struct MemFile {
    /// The content this handle sees.
    pub content: Vec<u8>,
    /// The current position.
    pub pos: u64,
    /// The modification time of the open node, if recorded.
    pub modified: FsResult<FsTime>,
}

impl DavFile for MemFile {
    type Meta = MemMeta;

    open spec fn spec_metadata(&self) -> FsResult<MemMeta> {
        Ok(MemMeta { len: self.content@.len() as u64, modified: self.modified, is_dir: false })
    }

    open spec fn spec_content(&self) -> Seq<u8> {
        self.content@
    }

    open spec fn spec_pos(&self) -> nat {
        self.pos as nat
    }

    fn metadata(&self) -> (r: FsResult<MemMeta>) {
        Ok(MemMeta { len: self.content.len() as u64, modified: self.modified, is_dir: false })
    }

    fn read(&mut self, count: usize) -> (r: FsResult<Vec<u8>>) {
        let len = self.content.len();
        if self.pos >= len as u64 {
            let v: Vec<u8> = Vec::new();
            return Ok(v);
        }
        let start = self.pos as usize;
        let n = if count <= len - start {
            count
        } else {
            len - start
        };
        let mut v: Vec<u8> = Vec::new();
        let mut i: usize = 0;
        while i < n
            invariant
                i <= n,
                start + n <= usize::MAX,
                start + n <= self.content@.len(),
                v@ == self.content@.subrange(start as int, (start + i) as int),
            decreases n - i,
        {
            v.push(self.content[start + i]);
            proof {
                assert(v@ =~= self.content@.subrange(start as int, (start + i + 1) as int));
            }
            i += 1;
        }
        proof {
            assert(v@ == read_result(self.content@, self.pos as nat, count as nat));
        }
        self.pos = self.pos + n as u64;
        Ok(v)
    }

    fn write(&mut self, data: &[u8]) -> (r: FsResult<()>) {
        if self.pos > usize::MAX as u64 {
            return Err(FsError::TooLarge);
        }
        let start = self.pos as usize;
        if start > usize::MAX - data.len() {
            return Err(FsError::TooLarge);
        }
        let end = start + data.len();
        let ghost old_content = self.content@;
        let ghost padded = if old_content.len() >= start as nat {
            old_content
        } else {
            old_content + Seq::new((start as nat - old_content.len()) as nat, |i: int| 0u8)
        };
        let mut newc: Vec<u8> = Vec::new();
        let mut i: usize = 0;
        while i < start
            invariant
                i <= start,
                old_content == self.content@,
                padded.len() >= start,
                forall|k: int| 0 <= k < padded.len()
                    ==> padded[k] == (if k < old_content.len() { old_content[k] } else { 0u8 }),
                newc@.len() == i,
                forall|k: int| 0 <= k < i ==> newc@[k] == padded[k],
            decreases start - i,
        {
            if i < self.content.len() {
                let b = self.content[i];
                newc.push(b);
            } else {
                newc.push(0);
            }
            i += 1;
        }
        let mut j: usize = 0;
        while j < data.len()
            invariant
                j <= data@.len(),
                newc@.len() == start + j,
                forall|k: int| 0 <= k < start ==> newc@[k] == padded[k],
                forall|k: int| 0 <= k < j ==> newc@[start + k] == data@[k],
            decreases data@.len() - j,
        {
            let b = data[j];
            newc.push(b);
            j += 1;
        }
        let mut t: usize = end;
        while t < self.content.len()
            invariant
                end <= t,
                old_content == self.content@,
                t <= self.content@.len() || t == end,
                newc@.len() == start + data@.len() + (t - end),
                forall|k: int| 0 <= k < start ==> newc@[k] == padded[k],
                forall|k: int| 0 <= k < data@.len() ==> newc@[start + k] == data@[k],
                forall|k: int| end <= k < t ==> newc@[start + data@.len() + (k - end)] == old_content[k],
            decreases self.content@.len() - t,
        {
            let b = self.content[t];
            newc.push(b);
            t += 1;
        }
        proof {
            assert(newc@ =~= write_at(old_content, self.pos as nat, data@));
        }
        self.content = newc;
        self.pos = end as u64;
        Ok(())
    }

    fn seek(&mut self, from: SeekFrom) -> (r: FsResult<u64>) {
        let len_here = self.content.len() as u64;
        let target: i128 = match from {
            SeekFrom::Start(n) => n as i128,
            SeekFrom::Current(d) => self.pos as i128 + d as i128,
            SeekFrom::End(d) => len_here as i128 + d as i128,
        };
        if target < 0 || target > u64::MAX as i128 {
            return Err(FsError::GeneralFailure);
        }
        self.pos = target as u64;
        Ok(self.pos)
    }
}

/// A directory entry of [`MemFs`]: a name and the metadata it resolved to
/// when the listing was taken.
#[derive(Debug)]
pub struct MemDirEntry {
    /// The entry's name.
    pub name: Vec<u8>,
    /// The entry's metadata, as resolved at listing time.
    pub meta: FsResult<MemMeta>,
}

impl DavDirEntry for MemDirEntry {
    type Meta = MemMeta;

    open spec fn spec_name(&self) -> Seq<u8> {
        self.name@
    }

    open spec fn spec_metadata(&self) -> FsResult<MemMeta> {
        self.meta
    }

    fn name(&self) -> (r: Vec<u8>) {
        clone_bytes(&self.name)
    }

    fn metadata(&self) -> (r: FsResult<MemMeta>) {
        self.meta
    }
}

/// The entry sequence a [`MemFs`] directory listing produces.
#[derive(Debug)]
pub struct MemReadDir {
    /// The entries not yet yielded, front first.
    pub entries: Vec<MemDirEntry>,
}

impl DavReadDir for MemReadDir {
    type Entry = MemDirEntry;

    open spec fn spec_remaining(&self) -> Seq<MemDirEntry> {
        self.entries@
    }

    fn next(&mut self) -> (r: Option<MemDirEntry>) {
        if self.entries.len() > 0 {
            let e = self.entries.remove(0);
            proof {
                assert(self.entries@ =~= old(self).entries@.drop_first());
            }
            Some(e)
        } else {
            None
        }
    }
}

/// The mathematical value of one stored node.
#[verifier::ext_equal]
pub struct NodeModel {
    /// The node's full path.
    pub path: Seq<u8>,
    /// Whether the node is a directory.
    pub is_dir: bool,
    /// The file content; empty for a directory.
    pub content: Seq<u8>,
    /// The modification time, if recorded.
    pub modified: FsResult<FsTime>,
    /// For a directory, the names of its children.
    pub children: Seq<Seq<u8>>,
    /// The node's extended properties.
    pub props: Seq<PropModel>,
}

/// The metadata snapshot a node yields.
pub open spec fn node_meta(n: NodeModel) -> MemMeta {
    MemMeta { len: n.content.len() as u64, modified: n.modified, is_dir: n.is_dir }
}

/// One stored node of [`MemFs`], recorded under its full path.
#[derive(Debug)]
pub struct MemNode {
    /// The node's full path.
    pub path: Vec<u8>,
    /// Whether the node is a directory.
    pub is_dir: bool,
    /// The file content; empty for a directory.
    pub content: Vec<u8>,
    /// The modification time, if recorded.
    pub modified: FsResult<FsTime>,
    /// For a directory, the names of its children.
    pub children: Vec<Vec<u8>>,
    /// The node's extended properties.
    pub props: Vec<DavProp>,
}

impl MemNode {
    /// The mathematical value of this node.
    pub open spec fn model(self) -> NodeModel {
        NodeModel {
            path: self.path@,
            is_dir: self.is_dir,
            content: self.content@,
            modified: self.modified,
            children: self.children@.map_values(|c: Vec<u8>| c@),
            props: self.props@.map_values(|p: DavProp| p.model()),
        }
    }
}

/// The position of the first node recorded under `path`, if any.
pub open spec fn path_index(nodes: Seq<NodeModel>, path: Seq<u8>) -> Option<int>
    decreases nodes.len(),
{
    if nodes.len() == 0 {
        None
    } else if nodes[0].path == path {
        Some(0)
    } else {
        match path_index(nodes.drop_first(), path) {
            Some(i) => Some(i + 1),
            None => None,
        }
    }
}

/// The first node recorded under `path`, if any.
pub open spec fn find_node(nodes: Seq<NodeModel>, path: Seq<u8>) -> Option<NodeModel> {
    match path_index(nodes, path) {
        Some(i) => Some(nodes[i]),
        None => None,
    }
}

proof fn lemma_path_index_first(nodes: Seq<NodeModel>, path: Seq<u8>, i: int)
    requires
        0 <= i < nodes.len(),
        nodes[i].path == path,
        forall|j: int| 0 <= j < i ==> nodes[j].path != path,
    ensures
        path_index(nodes, path) == Some(i),
    decreases nodes.len(),
{
    if i > 0 {
        lemma_path_index_first(nodes.drop_first(), path, i - 1);
    }
}

proof fn lemma_path_index_none(nodes: Seq<NodeModel>, path: Seq<u8>)
    requires
        forall|j: int| 0 <= j < nodes.len() ==> nodes[j].path != path,
    ensures
        path_index(nodes, path) is None,
    decreases nodes.len(),
{
    if nodes.len() > 0 {
        lemma_path_index_none(nodes.drop_first(), path);
    }
}

/// The full path of `name` inside the directory at `parent`.
pub open spec fn join_path(parent: Seq<u8>, name: Seq<u8>) -> Seq<u8> {
    parent + seq![47u8] + name
}

/// Joins a directory path and a child name; 47 is the byte `/`.
fn join(parent: &Vec<u8>, name: &Vec<u8>) -> (r: Vec<u8>)
    ensures
        r@ == join_path(parent@, name@),
{
    let mut r = clone_bytes(parent);
    r.push(47);
    let mut i: usize = 0;
    while i < name.len()
        invariant
            i <= name.len(),
            r@ == parent@ + seq![47u8] + name@.subrange(0, i as int),
        decreases name.len() - i,
    {
        r.push(name[i]);
        proof {
            assert(r@ =~= parent@ + seq![47u8] + name@.subrange(0, i + 1 as int));
        }
        i += 1;
    }
    proof {
        assert(r@ =~= join_path(parent@, name@));
    }
    r
}

/// What `metadata` answers for the child `name` of the directory at
/// `parent`: the child's snapshot, or `NotFound` for a dangling name.
pub open spec fn child_meta(nodes: Seq<NodeModel>, parent: Seq<u8>, name: Seq<u8>) -> FsResult<MemMeta> {
    match find_node(nodes, join_path(parent, name)) {
        Some(c) => Ok(node_meta(c)),
        None => Err(FsError::NotFound),
    }
}

/// Whether `name` is on the protected list.
pub open spec fn prop_protected(protected: Seq<Seq<char>>, name: Seq<char>) -> bool {
    exists|i: int| 0 <= i < protected.len() && protected[i] == name
}

/// The per-property outcome of patching a property called `name`:
/// protected names are refused with `Forbidden`.
pub open spec fn patch_status(protected: Seq<Seq<char>>, name: Seq<char>) -> FsResult<()> {
    if prop_protected(protected, name) {
        Err(FsError::Forbidden)
    } else {
        Ok(())
    }
}

/// The property set without every property addressed by `key`.
pub open spec fn remove_prop(props: Seq<PropModel>, key: PropKey) -> Seq<PropModel>
    decreases props.len(),
{
    if props.len() == 0 {
        Seq::empty()
    } else {
        let rest = remove_prop(props.drop_last(), key);
        if props.last().key() == key {
            rest
        } else {
            rest.push(props.last())
        }
    }
}

/// The property set with `p` inserted or updated: any property under the
/// same key goes, `p` comes last.
pub open spec fn set_prop(props: Seq<PropModel>, p: PropModel) -> Seq<PropModel> {
    remove_prop(props, p.key()).push(p)
}

/// The property set after the insertions of one patch batch, applied in
/// order; protected names change nothing.
pub open spec fn apply_sets(props: Seq<PropModel>, protected: Seq<Seq<char>>, set: Seq<PropModel>) -> Seq<PropModel>
    decreases set.len(),
{
    if set.len() == 0 {
        props
    } else {
        let rest = apply_sets(props, protected, set.drop_last());
        if prop_protected(protected, set.last().name) {
            rest
        } else {
            set_prop(rest, set.last())
        }
    }
}

/// The property set after the deletions of one patch batch, applied in
/// order; protected names change nothing.
pub open spec fn apply_removes(props: Seq<PropModel>, protected: Seq<Seq<char>>, remove: Seq<PropModel>) -> Seq<PropModel>
    decreases remove.len(),
{
    if remove.len() == 0 {
        props
    } else {
        let rest = apply_removes(props, protected, remove.drop_last());
        if prop_protected(protected, remove.last().name) {
            rest
        } else {
            remove_prop(rest, remove.last().key())
        }
    }
}

/// The first property addressed by `key`, if any.
pub open spec fn lookup_prop(props: Seq<PropModel>, key: PropKey) -> Option<PropModel>
    decreases props.len(),
{
    if props.len() == 0 {
        None
    } else if props[0].key() == key {
        Some(props[0])
    } else {
        lookup_prop(props.drop_first(), key)
    }
}

proof fn lemma_lookup_first(props: Seq<PropModel>, key: PropKey, i: int)
    requires
        0 <= i < props.len(),
        props[i].key() == key,
        forall|j: int| 0 <= j < i ==> props[j].key() != key,
    ensures
        lookup_prop(props, key) == Some(props[i]),
    decreases props.len(),
{
    if i > 0 {
        lemma_lookup_first(props.drop_first(), key, i - 1);
    }
}

proof fn lemma_lookup_none(props: Seq<PropModel>, key: PropKey)
    requires
        forall|j: int| 0 <= j < props.len() ==> props[j].key() != key,
    ensures
        lookup_prop(props, key) is None,
    decreases props.len(),
{
    if props.len() > 0 {
        lemma_lookup_none(props.drop_first(), key);
    }
}

/// A property without its payload.
pub open spec fn strip_xml(p: PropModel) -> PropModel {
    PropModel { name: p.name, prefix: p.prefix, namespace: p.namespace, xml: None }
}

/// Builds the property list without every property addressed like `key_prop`.
fn remove_prop_exec(props: &Vec<DavProp>, key_prop: &DavProp) -> (r: Vec<DavProp>)
    ensures
        r@.map_values(|q: DavProp| q.model())
            == remove_prop(props@.map_values(|q: DavProp| q.model()), key_prop.model().key()),
{
    let ghost models = props@.map_values(|q: DavProp| q.model());
    let ghost key = key_prop.model().key();
    let mut r: Vec<DavProp> = Vec::new();
    let mut i: usize = 0;
    while i < props.len()
        invariant
            i <= props@.len(),
            models == props@.map_values(|q: DavProp| q.model()),
            key == key_prop.model().key(),
            r@.map_values(|q: DavProp| q.model()) == remove_prop(models.take(i as int), key),
        decreases props@.len() - i,
    {
        proof {
            assert(models.take(i + 1).drop_last() =~= models.take(i as int));
            assert(models.take(i + 1).last() == models[i as int]);
        }
        if !props[i].same_key(key_prop) {
            r.push(clone_prop(&props[i]));
        }
        proof {
            assert(r@.map_values(|q: DavProp| q.model()) =~= remove_prop(models.take(i + 1), key));
        }
        i += 1;
    }
    proof {
        assert(models.take(props@.len() as int) =~= models);
    }
    r
}

/// Builds the property list with `p` inserted or updated.
fn set_prop_exec(props: &Vec<DavProp>, p: &DavProp) -> (r: Vec<DavProp>)
    ensures
        r@.map_values(|q: DavProp| q.model())
            == set_prop(props@.map_values(|q: DavProp| q.model()), p.model()),
{
    let mut r = remove_prop_exec(props, p);
    r.push(clone_prop(p));
    proof {
        assert(r@.map_values(|q: DavProp| q.model())
            =~= set_prop(props@.map_values(|q: DavProp| q.model()), p.model()));
    }
    r
}

/// Whether `p` lies inside the directory at `d`: it is longer, starts
/// with `d`, and the next byte is the separator (47 is the byte `/`).
pub open spec fn path_in_dir(p: Seq<u8>, d: Seq<u8>) -> bool {
    p.len() > d.len() && p.subrange(0, d.len() as int) == d && p[d.len() as int] == 47u8
}

/// The path `p` after renaming the node at `from` to `to`: the node
/// itself and everything inside it move; other paths stay.
pub open spec fn relocate_path(p: Seq<u8>, from: Seq<u8>, to: Seq<u8>) -> Seq<u8> {
    if p == from {
        to
    } else if path_in_dir(p, from) {
        to + p.subrange(from.len() as int, p.len() as int)
    } else {
        p
    }
}

/// The node `n` after renaming the node at `from` to `to`.
pub open spec fn relocate_node(n: NodeModel, from: Seq<u8>, to: Seq<u8>) -> NodeModel {
    NodeModel { path: relocate_path(n.path, from, to), ..n }
}

/// Every node after renaming the node at `from` to `to`.
pub open spec fn rename_nodes(nodes: Seq<NodeModel>, from: Seq<u8>, to: Seq<u8>) -> Seq<NodeModel> {
    nodes.map_values(|n: NodeModel| relocate_node(n, from, to))
}

/// The node store without the node at `path`, if there is one.
pub open spec fn drop_path(nodes: Seq<NodeModel>, path: Seq<u8>) -> Seq<NodeModel> {
    match path_index(nodes, path) {
        Some(i) => nodes.remove(i),
        None => nodes,
    }
}

/// Whether the path `p` lies inside the directory at `d`.
fn starts_in_dir(p: &Vec<u8>, d: &Vec<u8>) -> (r: bool)
    ensures
        r == path_in_dir(p@, d@),
{
    if p.len() <= d.len() {
        return false;
    }
    if p[d.len()] != 47 {
        return false;
    }
    let mut i: usize = 0;
    while i < d.len()
        invariant
            i <= d@.len(),
            p@.len() > d@.len(),
            forall|j: int| 0 <= j < i ==> p@[j] == d@[j],
        decreases d@.len() - i,
    {
        if p[i] != d[i] {
            proof {
                assert(p@.subrange(0, d@.len() as int)[i as int] == p@[i as int]);
            }
            return false;
        }
        i += 1;
    }
    proof {
        assert(p@.subrange(0, d@.len() as int) =~= d@);
    }
    true
}

/// Builds the path `p` after renaming the node at `from` to `to`.
fn relocate_path_exec(p: &Vec<u8>, from: &Vec<u8>, to: &Vec<u8>) -> (r: Vec<u8>)
    ensures
        r@ == relocate_path(p@, from@, to@),
{
    if bytes_eq(p, from) {
        return clone_bytes(to);
    }
    if starts_in_dir(p, from) {
        let mut r = clone_bytes(to);
        proof {
            assert(r@ =~= to@ + p@.subrange(from@.len() as int, from@.len() as int));
        }
        let mut i: usize = from.len();
        while i < p.len()
            invariant
                from@.len() <= i,
                i <= p@.len(),
                r@ == to@ + p@.subrange(from@.len() as int, i as int),
            decreases p@.len() - i,
        {
            r.push(p[i]);
            proof {
                assert(r@ =~= to@ + p@.subrange(from@.len() as int, i + 1));
            }
            i += 1;
        }
        proof {
            assert(r@ == relocate_path(p@, from@, to@));
        }
        r
    } else {
        clone_bytes(p)
    }
}

/// The bytes stored across every recorded node's content.
pub open spec fn used_bytes(nodes: Seq<NodeModel>) -> int
    decreases nodes.len(),
{
    if nodes.len() == 0 {
        0
    } else {
        used_bytes(nodes.drop_last()) + nodes.last().content.len()
    }
}

proof fn lemma_used_bytes_nonneg(nodes: Seq<NodeModel>)
    ensures
        used_bytes(nodes) >= 0,
    decreases nodes.len(),
{
    if nodes.len() > 0 {
        lemma_used_bytes_nonneg(nodes.drop_last());
    }
}

/// The abstract backend state of a [`MemFs`].
#[verifier::ext_equal]
pub struct FsModel {
    /// The stored nodes.
    pub nodes: Seq<NodeModel>,
    /// The names of protected properties.
    pub protected: Seq<Seq<char>>,
}

/// A flat in-memory node store. Every node is recorded under its full
/// path; a directory lists its children by name. Property names on the
/// `protected` list refuse patching with `Forbidden`.
#[derive(Debug)]
pub struct MemFs {
    /// The stored nodes.
    pub nodes: Vec<MemNode>,
    /// The names of protected properties.
    pub protected: Vec<String>,
}

impl MemFs {
    /// The mathematical value of the stored nodes.
    pub open spec fn nodes_model(self) -> Seq<NodeModel> {
        self.nodes@.map_values(|n: MemNode| n.model())
    }

    /// The names of the protected properties.
    pub open spec fn protected_model(self) -> Seq<Seq<char>> {
        self.protected@.map_values(|s: String| s@)
    }

    /// The abstract backend state.
    pub open spec fn model(self) -> FsModel {
        FsModel { nodes: self.nodes_model(), protected: self.protected_model() }
    }

    /// An empty store.
    pub fn new() -> (r: MemFs)
        ensures
            r.nodes_model() == Seq::<NodeModel>::empty(),
            r.protected_model() == Seq::<Seq<char>>::empty(),
    {
        let r = MemFs { nodes: Vec::new(), protected: Vec::new() };
        proof {
            assert(r.nodes_model() =~= Seq::<NodeModel>::empty());
            assert(r.protected_model() =~= Seq::<Seq<char>>::empty());
        }
        r
    }

    /// The index of the node recorded under `path`, if any.
    fn find(&self, path: &Vec<u8>) -> (r: Option<usize>)
        ensures
            match r {
                Some(i) => i < self.nodes@.len() && path_index(self.nodes_model(), path@) == Some(i as int),
                None => path_index(self.nodes_model(), path@) is None,
            },
    {
        let mut i: usize = 0;
        while i < self.nodes.len()
            invariant
                i <= self.nodes@.len(),
                forall|j: int| 0 <= j < i ==> self.nodes_model()[j].path != path@,
            decreases self.nodes@.len() - i,
        {
            if bytes_eq(&self.nodes[i].path, path) {
                proof {
                    lemma_path_index_first(self.nodes_model(), path@, i as int);
                }
                return Some(i);
            }
            i += 1;
        }
        proof {
            lemma_path_index_none(self.nodes_model(), path@);
        }
        None
    }

    /// Whether `name` is on the protected list.
    fn is_protected(&self, name: &String) -> (r: bool)
        ensures
            r == prop_protected(self.protected_model(), name@),
    {
        let mut i: usize = 0;
        while i < self.protected.len()
            invariant
                i <= self.protected@.len(),
                forall|j: int| 0 <= j < i ==> self.protected_model()[j] != name@,
            decreases self.protected@.len() - i,
        {
            if self.protected[i] == *name {
                proof {
                    assert(self.protected_model()[i as int] == name@);
                }
                return true;
            }
            i += 1;
        }
        false
    }
}

/// Copies a property; the copy has the same mathematical value.
fn clone_prop(p: &DavProp) -> (r: DavProp)
    ensures
        r.model() == p.model(),
{
    let name = p.name.clone();
    let prefix = match &p.prefix {
        Some(s) => Some(s.clone()),
        None => None,
    };
    let namespace = match &p.namespace {
        Some(s) => Some(s.clone()),
        None => None,
    };
    let xml = match &p.xml {
        Some(v) => Some(clone_bytes(v)),
        None => None,
    };
    let r = DavProp { name, prefix, namespace, xml };
    proof {
        assert(r.model() =~~= p.model());
    }
    r
}

/// Copies a list of names.
fn clone_names(v: &Vec<Vec<u8>>) -> (r: Vec<Vec<u8>>)
    ensures
        r@.len() == v@.len(),
        forall|i: int| 0 <= i < v@.len() ==> r@[i]@ == v@[i]@,
{
    let mut r: Vec<Vec<u8>> = Vec::new();
    let mut i: usize = 0;
    while i < v.len()
        invariant
            i <= v@.len(),
            r@.len() == i,
            forall|j: int| 0 <= j < i ==> r@[j]@ == v@[j]@,
        decreases v@.len() - i,
    {
        r.push(clone_bytes(&v[i]));
        i += 1;
    }
    r
}

/// Copies a list of properties; the copies have the same mathematical values.
fn clone_props(v: &Vec<DavProp>) -> (r: Vec<DavProp>)
    ensures
        r@.len() == v@.len(),
        forall|i: int| 0 <= i < v@.len() ==> r@[i].model() == v@[i].model(),
{
    let mut r: Vec<DavProp> = Vec::new();
    let mut i: usize = 0;
    while i < v.len()
        invariant
            i <= v@.len(),
            r@.len() == i,
            forall|j: int| 0 <= j < i ==> r@[j].model() == v@[j].model(),
        decreases v@.len() - i,
    {
        r.push(clone_prop(&v[i]));
        i += 1;
    }
    r
}

/// Copies a node; the copy has the same mathematical value.
fn clone_node(n: &MemNode) -> (r: MemNode)
    ensures
        r.model() == n.model(),
{
    let r = MemNode {
        path: clone_bytes(&n.path),
        is_dir: n.is_dir,
        content: clone_bytes(&n.content),
        modified: n.modified,
        children: clone_names(&n.children),
        props: clone_props(&n.props),
    };
    proof {
        assert(r.model().children =~~= n.model().children);
        assert(r.model().props =~~= n.model().props);
        assert(r.model() =~~= n.model());
    }
    r
}

impl BoxCloneFs for MemFs {
    type State = FsModel;

    open spec fn fs_state(&self) -> FsModel {
        self.model()
    }

    fn box_clone(&self) -> (r: Box<MemFs>) {
        let mut nodes: Vec<MemNode> = Vec::new();
        let mut i: usize = 0;
        while i < self.nodes.len()
            invariant
                i <= self.nodes@.len(),
                nodes@.len() == i,
                forall|j: int| 0 <= j < i ==> nodes@[j].model() == self.nodes_model()[j],
            decreases self.nodes@.len() - i,
        {
            nodes.push(clone_node(&self.nodes[i]));
            i += 1;
        }
        let mut protected: Vec<String> = Vec::new();
        let mut k: usize = 0;
        while k < self.protected.len()
            invariant
                k <= self.protected@.len(),
                protected@.len() == k,
                forall|j: int| 0 <= j < k ==> protected@[j]@ == self.protected_model()[j],
            decreases self.protected@.len() - k,
        {
            protected.push(self.protected[k].clone());
            k += 1;
        }
        let r = MemFs { nodes, protected };
        proof {
            assert(r.nodes_model() =~~= self.nodes_model());
            assert(r.protected_model() =~~= self.protected_model());
            assert(r.model() =~~= self.model());
        }
        Box::new(r)
    }
}

impl DavFileSystem for MemFs {
    type File = MemFile;

    type ReadDir = MemReadDir;

    type Meta = MemMeta;

    open spec fn spec_exists(&self, path: Seq<u8>) -> bool {
        find_node(self.nodes_model(), path) is Some
    }

    open spec fn spec_metadata(&self, path: Seq<u8>) -> FsResult<MemMeta> {
        match find_node(self.nodes_model(), path) {
            Some(n) => Ok(node_meta(n)),
            None => Err(FsError::NotFound),
        }
    }

    /// Opens a file. `create_new` on a present node is `Exists`; an absent
    /// node without a create flag is `NotFound`; a directory refuses a
    /// file handle with `GeneralFailure`. The handle is a snapshot of the
    /// node: what is written through it stays in the handle, and a file
    /// opened into existence starts empty, with no recorded modification
    /// time, without entering the store.
    fn open(&self, path: &DavPath, options: OpenOptions) -> (r: FsResult<MemFile>)
        ensures
            match find_node(self.nodes_model(), path@) {
                Some(n) => {
                    if options.create_new {
                        r == FsResult::<MemFile>::Err(FsError::Exists)
                    } else if n.is_dir {
                        r == FsResult::<MemFile>::Err(FsError::GeneralFailure)
                    } else {
                        &&& r matches Ok(f)
                        &&& f.spec_content() == (if options.write && options.truncate { Seq::<u8>::empty() } else { n.content })
                        &&& f.spec_pos() == (if options.append { f.spec_content().len() } else { 0nat })
                        &&& f.modified == n.modified
                    }
                },
                None => {
                    if options.create || options.create_new {
                        &&& r matches Ok(f)
                        &&& f.spec_content() == Seq::<u8>::empty()
                        &&& f.spec_pos() == 0nat
                        &&& f.modified == FsResult::<FsTime>::Err(FsError::NotImplemented)
                    } else {
                        r == FsResult::<MemFile>::Err(FsError::NotFound)
                    }
                },
            },
    {
        match self.find(&path.bytes) {
            Some(i) => {
                if options.create_new {
                    return Err(FsError::Exists);
                }
                let node = &self.nodes[i];
                if node.is_dir {
                    return Err(FsError::GeneralFailure);
                }
                let content = if options.write && options.truncate {
                    Vec::new()
                } else {
                    clone_bytes(&node.content)
                };
                let pos = if options.append {
                    content.len() as u64
                } else {
                    0
                };
                Ok(MemFile { content, pos, modified: node.modified })
            },
            None => {
                if options.create || options.create_new {
                    Ok(MemFile { content: Vec::new(), pos: 0, modified: Err(FsError::NotImplemented) })
                } else {
                    Err(FsError::NotFound)
                }
            },
        }
    }

    /// Lists the recorded children of the directory at `path`. Each entry
    /// carries the metadata its name resolved to at listing time; a name
    /// without a node resolves to `NotFound`. A file refuses a listing
    /// with `GeneralFailure`.
    fn read_dir(&self, path: &DavPath) -> (r: FsResult<MemReadDir>)
        ensures
            match find_node(self.nodes_model(), path@) {
                Some(n) => {
                    if n.is_dir {
                        &&& r matches Ok(rd)
                        &&& rd.spec_remaining().len() == n.children.len()
                        &&& forall|i: int| 0 <= i < n.children.len()
                            ==> (#[trigger] rd.spec_remaining()[i]).spec_name() == n.children[i]
                                && rd.spec_remaining()[i].spec_metadata() == child_meta(self.nodes_model(), path@, n.children[i])
                    } else {
                        r == FsResult::<MemReadDir>::Err(FsError::GeneralFailure)
                    }
                },
                None => r == FsResult::<MemReadDir>::Err(FsError::NotFound),
            },
    {
        match self.find(&path.bytes) {
            Some(i) => {
                if !self.nodes[i].is_dir {
                    return Err(FsError::GeneralFailure);
                }
                let ghost n = self.nodes_model()[i as int];
                let mut entries: Vec<MemDirEntry> = Vec::new();
                let mut k: usize = 0;
                while k < self.nodes[i].children.len()
                    invariant
                        i < self.nodes@.len(),
                        k <= self.nodes@[i as int].children@.len(),
                        n == self.nodes_model()[i as int],
                        entries@.len() == k,
                        forall|j: int| 0 <= j < k
                            ==> (#[trigger] entries@[j]).spec_name() == n.children[j]
                                && entries@[j].spec_metadata() == child_meta(self.nodes_model(), path@, n.children[j]),
                    decreases self.nodes@[i as int].children@.len() - k,
                {
                    let name = clone_bytes(&self.nodes[i].children[k]);
                    let joined = join(&path.bytes, &name);
                    let meta = match self.find(&joined) {
                        Some(ci) => {
                            let c = &self.nodes[ci];
                            Ok(MemMeta { len: c.content.len() as u64, modified: c.modified, is_dir: c.is_dir })
                        },
                        None => Err(FsError::NotFound),
                    };
                    entries.push(MemDirEntry { name, meta });
                    k += 1;
                }
                Ok(MemReadDir { entries })
            },
            None => Err(FsError::NotFound),
        }
    }

    fn metadata(&self, path: &DavPath) -> (r: FsResult<MemMeta>) {
        match self.find(&path.bytes) {
            Some(i) => {
                let node = &self.nodes[i];
                Ok(MemMeta { len: node.content.len() as u64, modified: node.modified, is_dir: node.is_dir })
            },
            None => Err(FsError::NotFound),
        }
    }

    /// Creates a directory node under `path`; a present node refuses
    /// with `Exists`. The new directory starts with no recorded children
    /// and no modification time.
    fn create_dir(&mut self, path: &DavPath) -> (r: FsResult<()>)
        ensures
            match find_node(old(self).nodes_model(), path@) {
                Some(_) => r == FsResult::<()>::Err(FsError::Exists)
                    && final(self).model() == old(self).model(),
                None => {
                    &&& r == FsResult::<()>::Ok(())
                    &&& final(self).nodes_model() == old(self).nodes_model().push(NodeModel {
                        path: path@,
                        is_dir: true,
                        content: Seq::empty(),
                        modified: Err(FsError::NotImplemented),
                        children: Seq::empty(),
                        props: Seq::empty(),
                    })
                    &&& final(self).protected_model() == old(self).protected_model()
                },
            },
    {
        match self.find(&path.bytes) {
            Some(_) => Err(FsError::Exists),
            None => {
                let node = MemNode {
                    path: clone_bytes(&path.bytes),
                    is_dir: true,
                    content: Vec::new(),
                    modified: Err(FsError::NotImplemented),
                    children: Vec::new(),
                    props: Vec::new(),
                };
                self.nodes.push(node);
                proof {
                    assert(self.nodes_model() =~~= old(self).nodes_model().push(NodeModel {
                        path: path@,
                        is_dir: true,
                        content: Seq::empty(),
                        modified: Err(FsError::NotImplemented),
                        children: Seq::empty(),
                        props: Seq::empty(),
                    }));
                }
                Ok(())
            },
        }
    }

    /// Removes the directory node at `path`. A file refuses with
    /// `Forbidden`; an absent node with `NotFound`.
    fn remove_dir(&mut self, path: &DavPath) -> (r: FsResult<()>)
        ensures
            match path_index(old(self).nodes_model(), path@) {
                Some(i) => {
                    if old(self).nodes_model()[i].is_dir {
                        &&& r == FsResult::<()>::Ok(())
                        &&& final(self).nodes_model() == old(self).nodes_model().remove(i)
                        &&& final(self).protected_model() == old(self).protected_model()
                    } else {
                        r == FsResult::<()>::Err(FsError::Forbidden)
                            && final(self).model() == old(self).model()
                    }
                },
                None => r == FsResult::<()>::Err(FsError::NotFound)
                    && final(self).model() == old(self).model(),
            },
    {
        match self.find(&path.bytes) {
            Some(i) => {
                if !self.nodes[i].is_dir {
                    return Err(FsError::Forbidden);
                }
                self.nodes.remove(i);
                proof {
                    assert(self.nodes_model() =~~= old(self).nodes_model().remove(i as int));
                }
                Ok(())
            },
            None => Err(FsError::NotFound),
        }
    }

    /// Removes the file node at `path`. A directory refuses with
    /// `Forbidden`; an absent node with `NotFound`.
    fn remove_file(&mut self, path: &DavPath) -> (r: FsResult<()>)
        ensures
            match path_index(old(self).nodes_model(), path@) {
                Some(i) => {
                    if old(self).nodes_model()[i].is_dir {
                        r == FsResult::<()>::Err(FsError::Forbidden)
                            && final(self).model() == old(self).model()
                    } else {
                        &&& r == FsResult::<()>::Ok(())
                        &&& final(self).nodes_model() == old(self).nodes_model().remove(i)
                        &&& final(self).protected_model() == old(self).protected_model()
                    }
                },
                None => r == FsResult::<()>::Err(FsError::NotFound)
                    && final(self).model() == old(self).model(),
            },
    {
        match self.find(&path.bytes) {
            Some(i) => {
                if self.nodes[i].is_dir {
                    return Err(FsError::Forbidden);
                }
                self.nodes.remove(i);
                proof {
                    assert(self.nodes_model() =~~= old(self).nodes_model().remove(i as int));
                }
                Ok(())
            },
            None => Err(FsError::NotFound),
        }
    }

    /// Renames the node at `from` to `to`, relocating everything recorded
    /// inside it. The destination, when present, must be a file and the
    /// source must be one too: then the destination is replaced; any other
    /// collision is refused with `Forbidden`. Renaming a node to itself
    /// changes nothing.
    fn rename(&mut self, from: &DavPath, to: &DavPath) -> (r: FsResult<()>)
        ensures
            match find_node(old(self).nodes_model(), from@) {
                None => (r matches Err(e) && e == FsError::NotFound)
                    && final(self).model() == old(self).model(),
                Some(src) => {
                    if from@ == to@ {
                        r == FsResult::<()>::Ok(()) && final(self).model() == old(self).model()
                    } else {
                        match find_node(old(self).nodes_model(), to@) {
                            Some(dst) => {
                                if dst.is_dir || src.is_dir {
                                    (r matches Err(e) && e == FsError::Forbidden)
                                        && final(self).model() == old(self).model()
                                } else {
                                    &&& r == FsResult::<()>::Ok(())
                                    &&& final(self).nodes_model()
                                        == rename_nodes(drop_path(old(self).nodes_model(), to@), from@, to@)
                                    &&& final(self).protected_model() == old(self).protected_model()
                                }
                            },
                            None => {
                                &&& r == FsResult::<()>::Ok(())
                                &&& final(self).nodes_model()
                                    == rename_nodes(old(self).nodes_model(), from@, to@)
                                &&& final(self).protected_model() == old(self).protected_model()
                            },
                        }
                    }
                },
            },
    {
        let from_idx = match self.find(&from.bytes) {
            Some(i) => i,
            None => {
                return Err(FsError::NotFound);
            },
        };
        if bytes_eq(&from.bytes, &to.bytes) {
            return Ok(());
        }
        let src_is_dir = self.nodes[from_idx].is_dir;
        match self.find(&to.bytes) {
            Some(ti) => {
                if self.nodes[ti].is_dir || src_is_dir {
                    return Err(FsError::Forbidden);
                }
                self.nodes.remove(ti);
                proof {
                    assert(self.nodes_model() =~= drop_path(old(self).nodes_model(), to@));
                }
            },
            None => {
                proof {
                    assert(self.nodes_model() == drop_path(old(self).nodes_model(), to@));
                }
            },
        }
        let ghost base = self.nodes_model();
        let mut i: usize = 0;
        while i < self.nodes.len()
            invariant
                i <= self.nodes@.len(),
                self.nodes@.len() == base.len(),
                base == drop_path(old(self).nodes_model(), to@),
                self.protected_model() == old(self).protected_model(),
                forall|j: int| 0 <= j < i
                    ==> self.nodes_model()[j] == relocate_node(base[j], from@, to@),
                forall|j: int| i <= j < base.len() ==> self.nodes_model()[j] == base[j],
            decreases base.len() - i,
        {
            let ghost prev = self.nodes@;
            let mut node = self.nodes.remove(i);
            proof {
                assert(node.model() == base[i as int]);
            }
            let new_path = relocate_path_exec(&node.path, &from.bytes, &to.bytes);
            node.path = new_path;
            let ghost node_v = node;
            proof {
                assert(node_v.model() =~~= relocate_node(base[i as int], from@, to@));
            }
            self.nodes.insert(i, node);
            proof {
                assert(self.nodes@ =~= prev.update(i as int, node_v));
                assert forall|j: int| 0 <= j < i + 1
                    implies self.nodes_model()[j] == relocate_node(base[j], from@, to@) by {
                    if j == i {
                        assert(self.nodes@[j] == node_v);
                        assert(self.nodes_model()[j] == node_v.model());
                    } else {
                        assert(self.nodes@[j] == prev[j]);
                        assert(self.nodes_model()[j] == prev[j].model());
                        assert(prev.map_values(|n: MemNode| n.model())[j] == prev[j].model());
                        assert(prev.map_values(|n: MemNode| n.model())[j] == relocate_node(base[j], from@, to@));
                    }
                }
            }
            i += 1;
        }
        proof {
            assert(self.nodes_model() =~= rename_nodes(base, from@, to@));
        }
        Ok(())
    }

    /// Copies the file at `from` to `to`, content and properties alike.
    /// A directory on either side refuses with `Forbidden`; an existing
    /// destination file is replaced. Copying a file onto itself changes
    /// nothing.
    fn copy(&mut self, from: &DavPath, to: &DavPath) -> (r: FsResult<()>)
        ensures
            match find_node(old(self).nodes_model(), from@) {
                None => (r matches Err(e) && e == FsError::NotFound)
                    && final(self).model() == old(self).model(),
                Some(src) => {
                    if src.is_dir {
                        (r matches Err(e) && e == FsError::Forbidden)
                            && final(self).model() == old(self).model()
                    } else if from@ == to@ {
                        r == FsResult::<()>::Ok(()) && final(self).model() == old(self).model()
                    } else {
                        match find_node(old(self).nodes_model(), to@) {
                            Some(dst) => {
                                if dst.is_dir {
                                    (r matches Err(e) && e == FsError::Forbidden)
                                        && final(self).model() == old(self).model()
                                } else {
                                    &&& r == FsResult::<()>::Ok(())
                                    &&& final(self).nodes_model()
                                        == drop_path(old(self).nodes_model(), to@)
                                            .push(NodeModel { path: to@, ..src })
                                    &&& final(self).protected_model() == old(self).protected_model()
                                }
                            },
                            None => {
                                &&& r == FsResult::<()>::Ok(())
                                &&& final(self).nodes_model()
                                    == old(self).nodes_model().push(NodeModel { path: to@, ..src })
                                &&& final(self).protected_model() == old(self).protected_model()
                            },
                        }
                    }
                },
            },
    {
        let from_idx = match self.find(&from.bytes) {
            Some(i) => i,
            None => {
                return Err(FsError::NotFound);
            },
        };
        if self.nodes[from_idx].is_dir {
            return Err(FsError::Forbidden);
        }
        if bytes_eq(&from.bytes, &to.bytes) {
            return Ok(());
        }
        let ghost src = self.nodes_model()[from_idx as int];
        let mut node = clone_node(&self.nodes[from_idx]);
        node.path = clone_bytes(&to.bytes);
        proof {
            assert(node.model() =~~= (NodeModel { path: to@, ..src }));
        }
        match self.find(&to.bytes) {
            Some(ti) => {
                if self.nodes[ti].is_dir {
                    return Err(FsError::Forbidden);
                }
                self.nodes.remove(ti);
                proof {
                    assert(self.nodes_model() =~= drop_path(old(self).nodes_model(), to@));
                }
            },
            None => {
                proof {
                    assert(self.nodes_model() == drop_path(old(self).nodes_model(), to@));
                }
            },
        }
        let ghost mid = self.nodes_model();
        self.nodes.push(node);
        proof {
            assert(self.nodes_model() =~~= mid.push(NodeModel { path: to@, ..src }));
        }
        Ok(())
    }

    /// Sets the recorded modification time of the node at `path`.
    fn set_modified(&mut self, path: &DavPath, tm: FsTime) -> (r: FsResult<()>)
        ensures
            match path_index(old(self).nodes_model(), path@) {
                Some(i) => {
                    &&& r == FsResult::<()>::Ok(())
                    &&& final(self).nodes_model() == old(self).nodes_model().update(i, NodeModel {
                        modified: Ok(tm),
                        ..old(self).nodes_model()[i]
                    })
                    &&& final(self).protected_model() == old(self).protected_model()
                },
                None => r == FsResult::<()>::Err(FsError::NotFound)
                    && final(self).model() == old(self).model(),
            },
    {
        match self.find(&path.bytes) {
            Some(i) => {
                let ghost prev = self.nodes@;
                let mut node = self.nodes.remove(i);
                node.modified = Ok(tm);
                let ghost node_v = node;
                self.nodes.insert(i, node);
                proof {
                    assert(old(self).nodes_model()[i as int] == old(self).nodes@[i as int].model());
                    assert(self.nodes@ =~= prev.update(i as int, node_v));
                    assert(node_v.model() =~~= (NodeModel {
                        modified: Ok(tm),
                        ..old(self).nodes_model()[i as int]
                    }));
                    assert(self.nodes_model() =~~= old(self).nodes_model().update(i as int, node_v.model()));
                }
                Ok(())
            },
            None => Err(FsError::NotFound),
        }
    }

    /// Applies the `set` insertions, then the `remove` deletions, to the
    /// node at `path`, in order, and reports one result per property:
    /// `Ok` for an applied change, `Forbidden` for a protected name.
    /// Only an absent node fails the call itself.
    fn patch_props(&mut self, path: &DavPath, set: Vec<DavProp>, remove: Vec<DavProp>)
        -> (r: FsResult<Vec<(FsResult<()>, DavProp)>>)
        ensures
            match path_index(old(self).nodes_model(), path@) {
                Some(i) => {
                    &&& r matches Ok(results)
                    &&& results@.len() == set@.len() + remove@.len()
                    &&& forall|k: int| 0 <= k < set@.len()
                        ==> (#[trigger] results@[k]).0
                                == patch_status(old(self).protected_model(), set@[k].model().name)
                            && results@[k].1.model() == set@[k].model()
                    &&& forall|k: int| 0 <= k < remove@.len()
                        ==> (#[trigger] results@[set@.len() + k]).0
                                == patch_status(old(self).protected_model(), remove@[k].model().name)
                            && results@[set@.len() + k].1.model() == remove@[k].model()
                    &&& final(self).nodes_model() == old(self).nodes_model().update(i, NodeModel {
                        props: apply_removes(
                            apply_sets(
                                old(self).nodes_model()[i].props,
                                old(self).protected_model(),
                                set@.map_values(|q: DavProp| q.model()),
                            ),
                            old(self).protected_model(),
                            remove@.map_values(|q: DavProp| q.model()),
                        ),
                        ..old(self).nodes_model()[i]
                    })
                    &&& final(self).protected_model() == old(self).protected_model()
                },
                None => (r matches Err(e) && e == FsError::NotFound)
                    && final(self).model() == old(self).model(),
            },
    {
        let idx = match self.find(&path.bytes) {
            Some(i) => i,
            None => {
                return Err(FsError::NotFound);
            },
        };
        let ghost old_node = self.nodes_model()[idx as int];
        let ghost prot = self.protected_model();
        let ghost set_models = set@.map_values(|q: DavProp| q.model());
        let ghost remove_models = remove@.map_values(|q: DavProp| q.model());
        let mut node = self.nodes.remove(idx);
        let mut results: Vec<(FsResult<()>, DavProp)> = Vec::new();
        let mut k: usize = 0;
        while k < set.len()
            invariant
                k <= set@.len(),
                prot == self.protected_model(),
                set_models == set@.map_values(|q: DavProp| q.model()),
                results@.len() == k,
                node.model().path == old_node.path,
                node.model().is_dir == old_node.is_dir,
                node.model().content == old_node.content,
                node.model().modified == old_node.modified,
                node.model().children == old_node.children,
                node.props@.map_values(|q: DavProp| q.model())
                    == apply_sets(old_node.props, prot, set_models.take(k as int)),
                forall|j: int| 0 <= j < k
                    ==> (#[trigger] results@[j]).0 == patch_status(prot, set_models[j].name)
                        && results@[j].1.model() == set_models[j],
            decreases set@.len() - k,
        {
            proof {
                assert(set_models.take(k + 1).drop_last() =~= set_models.take(k as int));
                assert(set_models.take(k + 1).last() == set_models[k as int]);
            }
            let p = &set[k];
            if self.is_protected(&p.name) {
                results.push((Err(FsError::Forbidden), clone_prop(p)));
            } else {
                let new_props = set_prop_exec(&node.props, p);
                node.props = new_props;
                results.push((Ok(()), clone_prop(p)));
            }
            k += 1;
        }
        proof {
            assert(set_models.take(set@.len() as int) =~= set_models);
        }
        let mut m: usize = 0;
        while m < remove.len()
            invariant
                m <= remove@.len(),
                prot == self.protected_model(),
                remove_models == remove@.map_values(|q: DavProp| q.model()),
                set_models == set@.map_values(|q: DavProp| q.model()),
                results@.len() == set@.len() + m,
                node.model().path == old_node.path,
                node.model().is_dir == old_node.is_dir,
                node.model().content == old_node.content,
                node.model().modified == old_node.modified,
                node.model().children == old_node.children,
                node.props@.map_values(|q: DavProp| q.model())
                    == apply_removes(
                        apply_sets(old_node.props, prot, set_models),
                        prot,
                        remove_models.take(m as int),
                    ),
                forall|j: int| 0 <= j < set@.len()
                    ==> (#[trigger] results@[j]).0 == patch_status(prot, set_models[j].name)
                        && results@[j].1.model() == set_models[j],
                forall|j: int| 0 <= j < m
                    ==> (#[trigger] results@[set@.len() + j]).0 == patch_status(prot, remove_models[j].name)
                        && results@[set@.len() + j].1.model() == remove_models[j],
            decreases remove@.len() - m,
        {
            proof {
                assert(remove_models.take(m + 1).drop_last() =~= remove_models.take(m as int));
                assert(remove_models.take(m + 1).last() == remove_models[m as int]);
            }
            let p = &remove[m];
            if self.is_protected(&p.name) {
                results.push((Err(FsError::Forbidden), clone_prop(p)));
            } else {
                let new_props = remove_prop_exec(&node.props, p);
                node.props = new_props;
                results.push((Ok(()), clone_prop(p)));
            }
            m += 1;
        }
        proof {
            assert(remove_models.take(remove@.len() as int) =~= remove_models);
        }
        self.nodes.insert(idx, node);
        proof {
            assert(self.nodes@ =~= old(self).nodes@.update(idx as int, self.nodes@[idx as int]));
            assert(self.nodes@[idx as int].model() =~~= NodeModel {
                props: apply_removes(
                    apply_sets(old_node.props, prot, set_models),
                    prot,
                    remove_models,
                ),
                ..old_node
            });
            assert(self.nodes_model() =~~= old(self).nodes_model().update(idx as int, NodeModel {
                props: apply_removes(
                    apply_sets(old_node.props, prot, set_models),
                    prot,
                    remove_models,
                ),
                ..old_node
            }));
        }
        Ok(results)
    }

    /// Lists the properties of the node at `path`; with `do_content`
    /// cleared the payloads are omitted.
    fn get_props(&self, path: &DavPath, do_content: bool) -> (r: FsResult<Vec<DavProp>>)
        ensures
            match find_node(self.nodes_model(), path@) {
                Some(n) => {
                    &&& r matches Ok(list)
                    &&& list@.len() == n.props.len()
                    &&& forall|k: int| 0 <= k < n.props.len()
                        ==> (#[trigger] list@[k]).model()
                            == (if do_content { n.props[k] } else { strip_xml(n.props[k]) })
                },
                None => r == FsResult::<Vec<DavProp>>::Err(FsError::NotFound),
            },
    {
        match self.find(&path.bytes) {
            Some(i) => {
                let node = &self.nodes[i];
                let ghost n = self.nodes_model()[i as int];
                let mut list: Vec<DavProp> = Vec::new();
                let mut k: usize = 0;
                while k < node.props.len()
                    invariant
                        i < self.nodes@.len(),
                        node == &self.nodes@[i as int],
                        n == self.nodes_model()[i as int],
                        k <= node.props@.len(),
                        list@.len() == k,
                        forall|j: int| 0 <= j < k
                            ==> (#[trigger] list@[j]).model()
                                == (if do_content { n.props[j] } else { strip_xml(n.props[j]) }),
                    decreases node.props@.len() - k,
                {
                    let p = clone_prop(&node.props[k]);
                    if do_content {
                        list.push(p);
                    } else {
                        let q = DavProp { name: p.name, prefix: p.prefix, namespace: p.namespace, xml: None };
                        proof {
                            assert(q.model() =~~= strip_xml(n.props[k as int]));
                        }
                        list.push(q);
                    }
                    k += 1;
                }
                Ok(list)
            },
            None => Err(FsError::NotFound),
        }
    }

    /// Fetches the payload of the one property of the node at `path`
    /// addressed like `prop`; an absent node, an absent property and a
    /// property without a payload are all `NotFound`.
    fn get_prop(&self, path: &DavPath, prop: DavProp) -> (r: FsResult<Vec<u8>>)
        ensures
            match find_node(self.nodes_model(), path@) {
                Some(n) => match lookup_prop(n.props, prop.model().key()) {
                    Some(pm) => match pm.xml {
                        Some(x) => r matches Ok(v) && v@ == x,
                        None => r == FsResult::<Vec<u8>>::Err(FsError::NotFound),
                    },
                    None => r == FsResult::<Vec<u8>>::Err(FsError::NotFound),
                },
                None => r == FsResult::<Vec<u8>>::Err(FsError::NotFound),
            },
    {
        match self.find(&path.bytes) {
            Some(i) => {
                let node = &self.nodes[i];
                let ghost n = self.nodes_model()[i as int];
                let mut k: usize = 0;
                while k < node.props.len()
                    invariant
                        i < self.nodes@.len(),
                        path_index(self.nodes_model(), path@) == Some(i as int),
                        node == &self.nodes@[i as int],
                        n == self.nodes_model()[i as int],
                        k <= node.props@.len(),
                        forall|j: int| 0 <= j < k ==> n.props[j].key() != prop.model().key(),
                    decreases node.props@.len() - k,
                {
                    if node.props[k].same_key(&prop) {
                        proof {
                            assert(n.props[k as int] == node.props@[k as int].model());
                            lemma_lookup_first(n.props, prop.model().key(), k as int);
                        }
                        match &node.props[k].xml {
                            Some(x) => {
                                proof {
                                    assert(n.props[k as int].xml == Some(x@));
                                }
                                return Ok(clone_bytes(x));
                            },
                            None => {
                                proof {
                                    assert(n.props[k as int].xml is None);
                                }
                                return Err(FsError::NotFound);
                            },
                        }
                    }
                    k += 1;
                }
                proof {
                    lemma_lookup_none(n.props, prop.model().key());
                }
                Err(FsError::NotFound)
            },
            None => Err(FsError::NotFound),
        }
    }

    /// Reports the bytes stored across all nodes, saturating at
    /// `u64::MAX`; the total space of an in-memory store is unknown.
    fn get_quota(&self) -> (r: FsResult<(u64, Option<u64>)>)
        ensures
            r matches Ok(q) && q.1 is None && q.0 == (
                if used_bytes(self.nodes_model()) <= u64::MAX {
                    used_bytes(self.nodes_model())
                } else {
                    u64::MAX as int
                }
            ),
    {
        let mut used: u64 = 0;
        let mut i: usize = 0;
        while i < self.nodes.len()
            invariant
                i <= self.nodes@.len(),
                used == (if used_bytes(self.nodes_model().take(i as int)) <= u64::MAX {
                    used_bytes(self.nodes_model().take(i as int))
                } else {
                    u64::MAX as int
                }),
            decreases self.nodes@.len() - i,
        {
            proof {
                assert(self.nodes_model().take(i + 1).drop_last() =~= self.nodes_model().take(i as int));
                assert(self.nodes_model().take(i + 1).last() == self.nodes_model()[i as int]);
                lemma_used_bytes_nonneg(self.nodes_model().take(i as int));
            }
            let len = self.nodes[i].content.len();
            used = if (len as u64) > u64::MAX - used {
                u64::MAX
            } else {
                used + len as u64
            };
            i += 1;
        }
        proof {
            assert(self.nodes_model().take(self.nodes@.len() as int) =~= self.nodes_model());
        }
        Ok((used, None))
    }

    /// This backend supports properties on every node.
    fn have_props(&self, path: &DavPath) -> (r: bool)
        ensures
            r == true,
    {
        true
    }
}

/// The minimal backend: an empty tree with only the three required
/// operations; every optional operation keeps its default.
#[derive(Debug, Clone, Copy)]
pub struct NullFs;

impl BoxCloneFs for NullFs {
    type State = ();

    open spec fn fs_state(&self) -> () {
        ()
    }

    fn box_clone(&self) -> (r: Box<NullFs>) {
        Box::new(NullFs)
    }
}

impl DavFileSystem for NullFs {
    type File = MemFile;

    type ReadDir = MemReadDir;

    type Meta = MemMeta;

    open spec fn spec_exists(&self, path: Seq<u8>) -> bool {
        false
    }

    open spec fn spec_metadata(&self, path: Seq<u8>) -> FsResult<MemMeta> {
        Err(FsError::NotFound)
    }

    /// Nothing exists and nothing can be created here.
    fn open(&self, path: &DavPath, options: OpenOptions) -> (r: FsResult<MemFile>)
        ensures
            r == FsResult::<MemFile>::Err(FsError::NotFound),
    {
        Err(FsError::NotFound)
    }

    /// Nothing exists here.
    fn read_dir(&self, path: &DavPath) -> (r: FsResult<MemReadDir>)
        ensures
            r == FsResult::<MemReadDir>::Err(FsError::NotFound),
    {
        Err(FsError::NotFound)
    }

    fn metadata(&self, path: &DavPath) -> (r: FsResult<MemMeta>) {
        Err(FsError::NotFound)
    }
}

impl MemFs {
    /// Records a file node under `path`.
    pub fn add_file(&mut self, path: Vec<u8>, content: Vec<u8>, modified: FsTime)
        ensures
            final(self).nodes_model() == old(self).nodes_model().push(NodeModel {
                path: path@,
                is_dir: false,
                content: content@,
                modified: Ok(modified),
                children: Seq::empty(),
                props: Seq::empty(),
            }),
            final(self).protected_model() == old(self).protected_model(),
    {
        let node = MemNode {
            path,
            is_dir: false,
            content,
            modified: Ok(modified),
            children: Vec::new(),
            props: Vec::new(),
        };
        self.nodes.push(node);
        proof {
            assert(self.nodes_model() =~~= old(self).nodes_model().push(NodeModel {
                path: path@,
                is_dir: false,
                content: content@,
                modified: Ok(modified),
                children: Seq::empty(),
                props: Seq::empty(),
            }));
        }
    }

    /// Records a directory node under `path`, listing `children` by name.
    pub fn add_dir(&mut self, path: Vec<u8>, children: Vec<Vec<u8>>, modified: FsTime)
        ensures
            final(self).nodes_model() == old(self).nodes_model().push(NodeModel {
                path: path@,
                is_dir: true,
                content: Seq::empty(),
                modified: Ok(modified),
                children: children@.map_values(|c: Vec<u8>| c@),
                props: Seq::empty(),
            }),
            final(self).protected_model() == old(self).protected_model(),
    {
        let node = MemNode {
            path,
            is_dir: true,
            content: Vec::new(),
            modified: Ok(modified),
            children,
            props: Vec::new(),
        };
        self.nodes.push(node);
        proof {
            assert(self.nodes_model() =~~= old(self).nodes_model().push(NodeModel {
                path: path@,
                is_dir: true,
                content: Seq::empty(),
                modified: Ok(modified),
                children: children@.map_values(|c: Vec<u8>| c@),
                props: Seq::empty(),
            }));
        }
    }

    /// Marks a property name as protected: patching it is refused with
    /// `Forbidden`.
    pub fn protect(&mut self, name: String)
        ensures
            final(self).nodes_model() == old(self).nodes_model(),
            final(self).protected_model() == old(self).protected_model().push(name@),
    {
        self.protected.push(name);
        proof {
            assert(self.nodes_model() =~~= old(self).nodes_model());
            assert(self.protected_model() =~~= old(self).protected_model().push(name@));
        }
    }
}

} // verus!
