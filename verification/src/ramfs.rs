//! The in-memory file tree, held as an arena: nodes live in one vector
//! and refer to each other by index, so the tree needs no shared mutable
//! ownership. A directory is a list of uniquely named entries, seen by
//! the contracts as a map from names to node indices; a file is its
//! bytes.

use vstd::prelude::*;

verus! {

/// Why a file-tree operation was refused.
#[derive(Clone, Copy, Debug, PartialEq, Eq, Structural)]
pub enum FsError {
    /// The directory already has an entry of that name.
    AlreadyExists,
    /// The node addressed as a directory is not one.
    NotADirectory,
    /// The node addressed as a file is not one.
    NotAFile,
    /// No entry of that name exists.
    NotFound,
}

impl FsError {
    /// The wording of each refusal.
    pub fn message(self) -> &'static str {
        match self {
            FsError::AlreadyExists => "Entry already exists",
            FsError::NotADirectory => "Not a directory",
            FsError::NotAFile => "Not a file",
            FsError::NotFound => "Entry not found",
        }
    }
}

/// One directory slot: a name and the index of the node it links.
pub struct DirEntry {
    pub name: Vec<u8>,
    pub node: usize,
}

/// A node of the tree.
pub enum Node {
    Directory { entries: Vec<DirEntry> },
    File { content: Vec<u8> },
}

/// The shape of a node as the contracts see it.
#[verifier::ext_equal]
pub ghost enum NodeModel {
    Directory { entries: Map<Seq<u8>, int> },
    File { content: Seq<u8> },
}

/// Whether some slot carries this name.
pub open spec fn has_entry(es: Seq<DirEntry>, name: Seq<u8>) -> bool {
    exists|i: int| 0 <= i < es.len() && es[i].name@ == name
}

/// The node index a name links to (meaningful under unique names).
pub open spec fn entry_node(es: Seq<DirEntry>, name: Seq<u8>) -> int {
    es[choose|i: int| 0 <= i < es.len() && es[i].name@ == name].node as int
}

/// A directory's slots as a map from names to node indices.
pub open spec fn entries_map(es: Seq<DirEntry>) -> Map<Seq<u8>, int> {
    Map::new(|n: Seq<u8>| has_entry(es, n), |n: Seq<u8>| entry_node(es, n))
}

/// No two slots carry the same name.
pub open spec fn entries_unique(es: Seq<DirEntry>) -> bool {
    forall|i: int, j: int| 0 <= i < j < es.len() ==> es[i].name@ != es[j].name@
}

impl View for Node {
    type V = NodeModel;

    open spec fn view(&self) -> NodeModel {
        match self {
            Node::Directory { entries } => NodeModel::Directory { entries: entries_map(entries@) },
            Node::File { content } => NodeModel::File { content: content@ },
        }
    }
}

/// Representation invariant of one node: unique names, links in range.
pub open spec fn node_inv(n: Node, len: int) -> bool {
    match n {
        Node::Directory { entries } => {
            &&& entries_unique(entries@)
            &&& forall|j: int| 0 <= j < entries@.len() ==> (#[trigger] entries@[j]).node < len
        },
        Node::File { .. } => true,
    }
}

/// A byte-for-byte copy of a slice.
fn copy_bytes(data: &[u8]) -> (v: Vec<u8>)
    ensures
        v@ == data@,
{
    let mut v: Vec<u8> = Vec::new();
    let n = data.len();
    let mut i: usize = 0;
    while i < n
        invariant
            i <= n,
            n == data@.len(),
            v@ =~= data@.take(i as int),
        decreases n - i,
    {
        v.push(*vstd::slice::slice_index_get(data, i));
        i = i + 1;
    }
    proof {
        assert(v@ =~= data@);
    }
    v
}

/// Whether two byte strings are equal.
pub fn bytes_eq(a: &[u8], b: &[u8]) -> (r: bool)
    ensures
        r <==> a@ == b@,
{
    let n = a.len();
    if n != b.len() {
        proof {
            assert(a@ != b@);
        }
        return false;
    }
    let mut i: usize = 0;
    while i < n
        invariant
            i <= n,
            n == a@.len() == b@.len(),
            forall|j: int| 0 <= j < i ==> a@[j] == b@[j],
        decreases n - i,
    {
        if *vstd::slice::slice_index_get(a, i) != *vstd::slice::slice_index_get(b, i) {
            proof {
                assert(a@ != b@);
            }
            return false;
        }
        i = i + 1;
    }
    proof {
        assert(a@ =~= b@);
    }
    true
}

/// The slot carrying a name, if any.
fn find_entry(entries: &Vec<DirEntry>, name: &[u8]) -> (r: Option<usize>)
    ensures
        r matches Some(i) ==> i < entries@.len() && entries@[i as int].name@ == name@,
        r is None ==> !has_entry(entries@, name@),
{
    let n = entries.len();
    let mut i: usize = 0;
    while i < n
        invariant
            i <= n,
            n == entries@.len(),
            forall|j: int| 0 <= j < i ==> (#[trigger] entries@[j]).name@ != name@,
        decreases n - i,
    {
        if bytes_eq(entries[i].name.as_slice(), name) {
            return Some(i);
        }
        i = i + 1;
    }
    None
}

/// The file tree: an arena of nodes, with the root directory at index
/// zero from the start.
pub struct Fs {
    nodes: Vec<Node>,
}

impl View for Fs {
    type V = Seq<NodeModel>;

    closed spec fn view(&self) -> Seq<NodeModel> {
        Seq::new(self.nodes@.len(), |i: int| self.nodes@[i]@)
    }
}

impl Fs {
    /// Representation invariant: every directory has unique names and
    /// every link stays inside the arena.
    pub closed spec fn wf(&self) -> bool {
        forall|i: int|
            0 <= i < self.nodes@.len() ==> node_inv(
                #[trigger] self.nodes@[i],
                self.nodes@.len() as int,
            )
    }

    /// A tree holding one empty root directory, at index zero.
    pub fn new() -> (fs: Fs)
        ensures
            fs@ =~= seq![NodeModel::Directory { entries: Map::empty() }],
            fs.wf(),
    {
        let mut nodes: Vec<Node> = Vec::new();
        nodes.push(Node::Directory { entries: Vec::new() });
        let fs = Fs { nodes };
        proof {
            assert(entries_map(Seq::<DirEntry>::empty()) =~= Map::<Seq<u8>, int>::empty());
            assert(fs@ =~~= seq![NodeModel::Directory { entries: Map::empty() }]);
        }
        fs
    }

    /// How many nodes the arena holds.
    pub fn node_count(&self) -> (n: usize)
        ensures
            n == self@.len(),
    {
        self.nodes.len()
    }

    /// Allocates a fresh empty directory and says where it lives.
    pub fn new_dir(&mut self) -> (idx: usize)
        requires
            old(self).wf(),
            old(self)@.len() < usize::MAX,
        ensures
            idx == old(self)@.len(),
            final(self)@ =~~= old(self)@.push(NodeModel::Directory { entries: Map::empty() }),
            final(self).wf(),
    {
        let idx = self.nodes.len();
        self.nodes.push(Node::Directory { entries: Vec::new() });
        proof {
            assert(entries_map(Seq::<DirEntry>::empty()) =~= Map::<Seq<u8>, int>::empty());
            assert(self@ =~~= old(self)@.push(NodeModel::Directory { entries: Map::empty() }));
            assert forall|i: int| 0 <= i < self.nodes@.len() implies node_inv(
                #[trigger] self.nodes@[i],
                self.nodes@.len() as int,
            ) by {
                if i < self.nodes@.len() - 1 {
                    assert(node_inv(self.nodes@[i], old(self).nodes@.len() as int));
                }
            }
        }
        idx
    }

    /// Allocates a fresh empty file and says where it lives.
    pub fn new_file(&mut self) -> (idx: usize)
        requires
            old(self).wf(),
            old(self)@.len() < usize::MAX,
        ensures
            idx == old(self)@.len(),
            final(self)@ =~~= old(self)@.push(NodeModel::File { content: Seq::empty() }),
            final(self).wf(),
    {
        let idx = self.nodes.len();
        self.nodes.push(Node::File { content: Vec::new() });
        proof {
            assert(self@ =~~= old(self)@.push(NodeModel::File { content: Seq::empty() }));
            assert forall|i: int| 0 <= i < self.nodes@.len() implies node_inv(
                #[trigger] self.nodes@[i],
                self.nodes@.len() as int,
            ) by {
                if i < self.nodes@.len() - 1 {
                    assert(node_inv(self.nodes@[i], old(self).nodes@.len() as int));
                }
            }
        }
        idx
    }

    /// Links a node into a directory under a fresh name; refuses a name
    /// already present or a target that is not a directory.
    pub fn add_entry(&mut self, dir: usize, name: &[u8], node: usize) -> (r: Result<(), FsError>)
        requires
            old(self).wf(),
            dir < old(self)@.len(),
            node < old(self)@.len(),
        ensures
            match old(self)@[dir as int] {
                NodeModel::Directory { entries } => {
                    if entries.contains_key(name@) {
                        r == Err::<(), FsError>(FsError::AlreadyExists)
                            && final(self)@ == old(self)@
                    } else {
                        r == Ok::<(), FsError>(()) && final(self)@ == old(self)@.update(
                            dir as int,
                            NodeModel::Directory { entries: entries.insert(name@, node as int) },
                        )
                    }
                },
                NodeModel::File { .. } => r == Err::<(), FsError>(FsError::NotADirectory)
                    && final(self)@ == old(self)@,
            },
            final(self).wf(),
    {
        let taken = self.nodes.remove(dir);
        match taken {
            Node::Directory { mut entries } => {
                if find_entry(&entries, name).is_some() {
                    self.nodes.insert(dir, Node::Directory { entries });
                    proof {
                        assert(self.nodes@ =~= old(self).nodes@);
                        assert(self@ =~~= old(self)@);
                    }
                    Err(FsError::AlreadyExists)
                } else {
                    let ghost es = entries@;
                    let entry = DirEntry { name: copy_bytes(name), node };
                    entries.push(entry);
                    self.nodes.insert(dir, Node::Directory { entries });
                    proof {
                        let e = DirEntry { name: entry.name, node: entry.node };
                        assert(node_inv(old(self).nodes@[dir as int], old(self).nodes@.len() as int));
                        lemma_entries_push(es, entry);
                        assert(self.nodes@ =~= old(self).nodes@.update(
                            dir as int,
                            Node::Directory { entries: self.nodes@[dir as int]->Directory_entries },
                        ));
                        assert(self@ =~~= old(self)@.update(
                            dir as int,
                            NodeModel::Directory {
                                entries: entries_map(es).insert(name@, node as int),
                            },
                        ));
                        assert forall|i: int| 0 <= i < self.nodes@.len() implies node_inv(
                            #[trigger] self.nodes@[i],
                            self.nodes@.len() as int,
                        ) by {
                            if i != dir {
                                assert(self.nodes@[i] == old(self).nodes@[i]);
                            }
                        }
                    }
                    Ok(())
                }
            },
            other => {
                self.nodes.insert(dir, other);
                proof {
                    assert(self.nodes@ =~= old(self).nodes@);
                    assert(self@ =~~= old(self)@);
                }
                Err(FsError::NotADirectory)
            },
        }
    }

    /// Looks a name up in a directory; anything but a directory, or an
    /// absent name, yields nothing.
    pub fn get_entry(&self, dir: usize, name: &[u8]) -> (r: Option<usize>)
        requires
            self.wf(),
            dir < self@.len(),
        ensures
            match self@[dir as int] {
                NodeModel::Directory { entries } => {
                    if entries.contains_key(name@) {
                        r matches Some(i) && i as int == entries[name@] && i < self@.len()
                    } else {
                        r is None
                    }
                },
                NodeModel::File { .. } => r is None,
            },
    {
        match &self.nodes[dir] {
            Node::Directory { entries } => {
                match find_entry(entries, name) {
                    Some(i) => {
                        proof {
                            assert(node_inv(self.nodes@[dir as int], self.nodes@.len() as int));
                            lemma_entry_lookup(entries@, i as int);
                        }
                        Some(entries[i].node)
                    },
                    None => None,
                }
            },
            _ => None,
        }
    }

    /// Replaces a file's bytes; refuses a target that is not a file.
    pub fn write_file(&mut self, file: usize, data: &[u8]) -> (r: Result<(), FsError>)
        requires
            old(self).wf(),
            file < old(self)@.len(),
        ensures
            match old(self)@[file as int] {
                NodeModel::File { .. } => r == Ok::<(), FsError>(())
                    && final(self)@ == old(self)@.update(
                    file as int,
                    NodeModel::File { content: data@ },
                ),
                NodeModel::Directory { .. } => r == Err::<(), FsError>(FsError::NotAFile)
                    && final(self)@ == old(self)@,
            },
            final(self).wf(),
    {
        let taken = self.nodes.remove(file);
        match taken {
            Node::File { content: _ } => {
                self.nodes.insert(file, Node::File { content: copy_bytes(data) });
                proof {
                    assert(self@ =~~= old(self)@.update(
                        file as int,
                        NodeModel::File { content: data@ },
                    ));
                    assert forall|i: int| 0 <= i < self.nodes@.len() implies node_inv(
                        #[trigger] self.nodes@[i],
                        self.nodes@.len() as int,
                    ) by {
                        if i != file {
                            assert(self.nodes@[i] == old(self).nodes@[i]);
                        }
                    }
                }
                Ok(())
            },
            other => {
                self.nodes.insert(file, other);
                proof {
                    assert(self.nodes@ =~= old(self).nodes@);
                    assert(self@ =~~= old(self)@);
                }
                Err(FsError::NotAFile)
            },
        }
    }

    /// A copy of a file's bytes; refuses a target that is not a file.
    pub fn read_file(&self, file: usize) -> (r: Result<Vec<u8>, FsError>)
        requires
            file < self@.len(),
        ensures
            match self@[file as int] {
                NodeModel::File { content } => r matches Ok(v) && v@ == content,
                NodeModel::Directory { .. } => r == Err::<Vec<u8>, FsError>(FsError::NotAFile),
            },
    {
        match &self.nodes[file] {
            Node::File { content } => Ok(copy_bytes(content.as_slice())),
            _ => Err(FsError::NotAFile),
        }
    }

    /// Unlinks a name from a directory; refuses an absent name or a
    /// target that is not a directory. The unlinked node itself stays in
    /// the arena.
    pub fn remove_entry(&mut self, dir: usize, name: &[u8]) -> (r: Result<(), FsError>)
        requires
            old(self).wf(),
            dir < old(self)@.len(),
        ensures
            match old(self)@[dir as int] {
                NodeModel::Directory { entries } => {
                    if entries.contains_key(name@) {
                        r == Ok::<(), FsError>(()) && final(self)@ == old(self)@.update(
                            dir as int,
                            NodeModel::Directory { entries: entries.remove(name@) },
                        )
                    } else {
                        r == Err::<(), FsError>(FsError::NotFound) && final(self)@ == old(self)@
                    }
                },
                NodeModel::File { .. } => r == Err::<(), FsError>(FsError::NotADirectory)
                    && final(self)@ == old(self)@,
            },
            final(self).wf(),
    {
        let taken = self.nodes.remove(dir);
        match taken {
            Node::Directory { mut entries } => {
                match find_entry(&entries, name) {
                    Some(i) => {
                        let ghost es = entries@;
                        entries.remove(i);
                        self.nodes.insert(dir, Node::Directory { entries });
                        proof {
                            assert(node_inv(
                                old(self).nodes@[dir as int],
                                old(self).nodes@.len() as int,
                            ));
                            lemma_entry_lookup(es, i as int);
                            lemma_entries_remove(es, i as int);
                            assert(es[i as int].name@ == name@);
                            assert(self@ =~~= old(self)@.update(
                                dir as int,
                                NodeModel::Directory { entries: entries_map(es).remove(name@) },
                            ));
                            assert forall|k: int| 0 <= k < self.nodes@.len() implies node_inv(
                                #[trigger] self.nodes@[k],
                                self.nodes@.len() as int,
                            ) by {
                                if k != dir {
                                    assert(self.nodes@[k] == old(self).nodes@[k]);
                                }
                            }
                        }
                        Ok(())
                    },
                    None => {
                        self.nodes.insert(dir, Node::Directory { entries });
                        proof {
                            assert(self.nodes@ =~= old(self).nodes@);
                            assert(self@ =~~= old(self)@);
                        }
                        Err(FsError::NotFound)
                    },
                }
            },
            other => {
                self.nodes.insert(dir, other);
                proof {
                    assert(self.nodes@ =~= old(self).nodes@);
                    assert(self@ =~~= old(self)@);
                }
                Err(FsError::NotADirectory)
            },
        }
    }
}

impl Fs {
    /// Whether the node at this index is a directory.
    pub fn is_dir(&self, i: usize) -> (r: bool)
        requires
            i < self@.len(),
        ensures
            r <==> self@[i as int] is Directory,
    {
        match &self.nodes[i] {
            Node::Directory { .. } => true,
            _ => false,
        }
    }

    /// The names a directory holds, each linking some node in it.
    pub fn entry_names(&self, dir: usize) -> (names: Vec<Vec<u8>>)
        requires
            self.wf(),
            dir < self@.len(),
        ensures
            match self@[dir as int] {
                NodeModel::Directory { entries } => forall|i: int|
                    0 <= i < names@.len() ==> entries.contains_key((#[trigger] names@[i])@),
                NodeModel::File { .. } => names@.len() == 0,
            },
    {
        match &self.nodes[dir] {
            Node::Directory { entries } => {
                let n = entries.len();
                let mut names: Vec<Vec<u8>> = Vec::new();
                let mut i: usize = 0;
                while i < n
                    invariant
                        i <= n,
                        n == entries@.len(),
                        self.wf(),
                        dir < self.nodes@.len(),
                        self.nodes@[dir as int] == (Node::Directory { entries: *entries }),
                        forall|j: int|
                            0 <= j < names@.len() ==> entries_map(entries@).contains_key(
                                (#[trigger] names@[j])@,
                            ),
                    decreases n - i,
                {
                    proof {
                        assert(node_inv(self.nodes@[dir as int], self.nodes@.len() as int));
                        lemma_entry_lookup(entries@, i as int);
                    }
                    names.push(copy_bytes(entries[i].name.as_slice()));
                    i = i + 1;
                }
                names
            },
            _ => Vec::new(),
        }
    }

    /// A name under which a directory links the given node, if any.
    pub fn name_of(&self, dir: usize, child: usize) -> (r: Option<Vec<u8>>)
        requires
            self.wf(),
            dir < self@.len(),
        ensures
            match self@[dir as int] {
                NodeModel::Directory { entries } => match r {
                    Some(nm) => entries.contains_key(nm@) && entries[nm@] == child as int,
                    None => forall|n: Seq<u8>|
                        entries.contains_key(n) ==> entries[n] != child as int,
                },
                NodeModel::File { .. } => r is None,
            },
    {
        match &self.nodes[dir] {
            Node::Directory { entries } => {
                let n = entries.len();
                let mut i: usize = 0;
                while i < n
                    invariant
                        i <= n,
                        n == entries@.len(),
                        self.wf(),
                        dir < self.nodes@.len(),
                        self.nodes@[dir as int] == (Node::Directory { entries: *entries }),
                        forall|j: int| 0 <= j < i ==> (#[trigger] entries@[j]).node != child,
                    decreases n - i,
                {
                    if entries[i].node == child {
                        proof {
                            assert(node_inv(self.nodes@[dir as int], self.nodes@.len() as int));
                            lemma_entry_lookup(entries@, i as int);
                        }
                        return Some(copy_bytes(entries[i].name.as_slice()));
                    }
                    i = i + 1;
                }
                proof {
                    assert forall|nm: Seq<u8>| entries_map(entries@).dom().contains(nm) implies
                        entries_map(entries@)[nm] != child as int by {
                        let j = choose|j: int| 0 <= j < entries@.len() && entries@[j].name@ == nm;
                        assert(entries@[j].node != child);
                    }
                }
                None
            },
            _ => None,
        }
    }
}

/// A name looked up in a uniquely named directory finds exactly the slot
/// that carries it.
pub proof fn lemma_entry_lookup(es: Seq<DirEntry>, i: int)
    requires
        entries_unique(es),
        0 <= i < es.len(),
    ensures
        entries_map(es).dom().contains(es[i].name@),
        entries_map(es)[es[i].name@] == es[i].node as int,
{
    let n = es[i].name@;
    assert(has_entry(es, n));
    let j = choose|j: int| 0 <= j < es.len() && es[j].name@ == n;
    if i != j {
        if i < j {
            assert(es[i].name@ != es[j].name@);
        } else {
            assert(es[j].name@ != es[i].name@);
        }
    }
}

/// Appending a fresh name extends a directory's map by exactly that
/// binding and keeps the names unique.
pub proof fn lemma_entries_push(es: Seq<DirEntry>, e: DirEntry)
    requires
        entries_unique(es),
        !has_entry(es, e.name@),
    ensures
        entries_unique(es.push(e)),
        entries_map(es.push(e)) =~= entries_map(es).insert(e.name@, e.node as int),
{
    let es2 = es.push(e);
    assert forall|i: int, j: int| 0 <= i < j < es2.len() implies es2[i].name@ != es2[j].name@ by {
        if j == es.len() {
            assert(es2[i] == es[i]);
            if es[i].name@ == e.name@ {
                assert(has_entry(es, e.name@));
            }
        } else {
            assert(es2[i] == es[i] && es2[j] == es[j]);
        }
    }
    let m2 = entries_map(es2);
    let mi = entries_map(es).insert(e.name@, e.node as int);
    assert forall|n: Seq<u8>| #[trigger] m2.dom().contains(n) implies mi.dom().contains(n)
        && m2[n] == mi[n] by {
        let i = choose|i: int| 0 <= i < es2.len() && es2[i].name@ == n;
        if i < es.len() {
            assert(es2[i] == es[i]);
            assert(has_entry(es, n));
            assert(n != e.name@);
            let j = choose|j: int| 0 <= j < es.len() && es[j].name@ == n;
            if i != j {
                if i < j {
                    assert(es[i].name@ != es[j].name@);
                } else {
                    assert(es[j].name@ != es[i].name@);
                }
            }
            assert(m2[n] == es[i].node as int);
        } else {
            assert(es2[i] == e);
            assert(n == e.name@);
        }
    }
    assert forall|n: Seq<u8>| #[trigger] mi.dom().contains(n) implies m2.dom().contains(n) by {
        if n == e.name@ {
            assert(es2[es.len() as int] == e);
            assert(has_entry(es2, n));
        } else {
            let j = choose|j: int| 0 <= j < es.len() && es[j].name@ == n;
            assert(es2[j] == es[j]);
            assert(has_entry(es2, n));
        }
    }
    assert(m2 =~= mi);
}

/// Dropping one slot removes exactly its binding from a uniquely named
/// directory's map and keeps the names unique.
pub proof fn lemma_entries_remove(es: Seq<DirEntry>, i: int)
    requires
        entries_unique(es),
        0 <= i < es.len(),
    ensures
        entries_unique(es.remove(i)),
        entries_map(es.remove(i)) =~= entries_map(es).remove(es[i].name@),
{
    let es2 = es.remove(i);
    assert forall|a: int, b: int| 0 <= a < b < es2.len() implies es2[a].name@ != es2[b].name@ by {
        let a0 = if a < i { a } else { a + 1 };
        let b0 = if b < i { b } else { b + 1 };
        assert(es2[a] == es[a0] && es2[b] == es[b0]);
        assert(es[a0].name@ != es[b0].name@);
    }
    let m2 = entries_map(es2);
    let mr = entries_map(es).remove(es[i].name@);
    assert forall|n: Seq<u8>| #[trigger] m2.dom().contains(n) implies mr.dom().contains(n)
        && m2[n] == mr[n] by {
        let a = choose|a: int| 0 <= a < es2.len() && es2[a].name@ == n;
        let a0 = if a < i { a } else { a + 1 };
        assert(es2[a] == es[a0]);
        assert(has_entry(es, n));
        if a0 < i {
            assert(es[a0].name@ != es[i].name@);
        } else {
            assert(es[i].name@ != es[a0].name@);
        }
        let j = choose|j: int| 0 <= j < es.len() && es[j].name@ == n;
        if a0 != j {
            if a0 < j {
                assert(es[a0].name@ != es[j].name@);
            } else {
                assert(es[j].name@ != es[a0].name@);
            }
        }
        assert(m2[n] == es[a0].node as int);
    }
    assert forall|n: Seq<u8>| #[trigger] mr.dom().contains(n) implies m2.dom().contains(n) by {
        let j = choose|j: int| 0 <= j < es.len() && es[j].name@ == n;
        if j != i {
            let a = if j < i { j } else { j - 1 };
            assert(es2[a] == es[j]);
            assert(has_entry(es2, n));
        } else {
            assert(n == es[i].name@);
        }
    }
    assert(m2 =~= mr);
}

} // verus!
