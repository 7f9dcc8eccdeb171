use vstd::prelude::*;

use crate::digest::{compute_digest, md5_of, Digest};
use crate::path::{lemma_path_order, path_less, path_lt};

verus! {

/// A path in the unified key space: relative, with `/` as separator.
pub type FilePath = String;

/// The digest and the bytes of one file.
pub type FileMetaData = (Digest, Vec<u8>);

/// What is known of one side of a path: its digest and its bytes.
pub type Side = (u128, Seq<u8>);

/// How one path stands across the local tree and the remote store.
#[derive(Debug, Clone, PartialEq, Eq)]
pub enum FileKind {
    OnlyInRemote { hash: Digest, contents: Vec<u8> },
    OnlyInLocal { hash: Digest, contents: Vec<u8> },
    ExistsInBoth {
        local_hash: Digest,
        local_contents: Vec<u8>,
        remote_hash: Digest,
        remote_contents: Vec<u8>,
    },
}

/// The mathematical value of a [`FileKind`].
pub enum FileState {
    RemoteOnly { digest: u128, contents: Seq<u8> },
    LocalOnly { digest: u128, contents: Seq<u8> },
    Present {
        local_digest: u128,
        local_contents: Seq<u8>,
        remote_digest: u128,
        remote_contents: Seq<u8>,
    },
}

impl View for FileKind {
    type V = FileState;

    open spec fn view(&self) -> FileState {
        match self {
            FileKind::OnlyInRemote { hash, contents } => FileState::RemoteOnly {
                digest: hash.value,
                contents: contents@,
            },
            FileKind::OnlyInLocal { hash, contents } => FileState::LocalOnly {
                digest: hash.value,
                contents: contents@,
            },
            FileKind::ExistsInBoth { local_hash, local_contents, remote_hash, remote_contents } => {
                FileState::Present {
                    local_digest: local_hash.value,
                    local_contents: local_contents@,
                    remote_digest: remote_hash.value,
                    remote_contents: remote_contents@,
                }
            },
        }
    }
}

/// The classification of path `k`, which is in `local` or in `remote`:
/// it carries the side of each input that holds `k`, unchanged.
pub open spec fn state_of(
    local: Map<Seq<char>, Side>,
    remote: Map<Seq<char>, Side>,
    k: Seq<char>,
) -> FileState {
    if local.contains_key(k) && remote.contains_key(k) {
        FileState::Present {
            local_digest: local[k].0,
            local_contents: local[k].1,
            remote_digest: remote[k].0,
            remote_contents: remote[k].1,
        }
    } else if local.contains_key(k) {
        FileState::LocalOnly { digest: local[k].0, contents: local[k].1 }
    } else {
        FileState::RemoteOnly { digest: remote[k].0, contents: remote[k].1 }
    }
}

/// Both sides exist and their digests agree: nothing to push or pull.
pub open spec fn is_in_sync(s: FileState) -> bool {
    match s {
        FileState::Present { local_digest, remote_digest, .. } => local_digest == remote_digest,
        _ => false,
    }
}

/// A push would change the remote store: the file exists locally and is
/// not already in sync.
pub open spec fn pushable(s: FileState) -> bool {
    s is LocalOnly || (s is Present && !is_in_sync(s))
}

/// A pull would change the local tree: the file exists remotely and is not
/// already in sync.
pub open spec fn pullable(s: FileState) -> bool {
    s is RemoteOnly || (s is Present && !is_in_sync(s))
}

impl FileKind {
    /// A copy of this classification, with the same digests and bytes.
    pub fn snapshot(&self) -> (r: FileKind)
        ensures
            r@ == self@,
    {
        match self {
            FileKind::OnlyInRemote { hash, contents } => FileKind::OnlyInRemote {
                hash: *hash,
                contents: copy_bytes(contents),
            },
            FileKind::OnlyInLocal { hash, contents } => FileKind::OnlyInLocal {
                hash: *hash,
                contents: copy_bytes(contents),
            },
            FileKind::ExistsInBoth { local_hash, local_contents, remote_hash, remote_contents } => {
                FileKind::ExistsInBoth {
                    local_hash: *local_hash,
                    local_contents: copy_bytes(local_contents),
                    remote_hash: *remote_hash,
                    remote_contents: copy_bytes(remote_contents),
                }
            },
        }
    }

    /// Whether both sides exist with equal digests.
    pub fn is_in_sync(&self) -> (r: bool)
        ensures
            r == is_in_sync(self@),
    {
        match self {
            FileKind::ExistsInBoth { local_hash, remote_hash, .. } => local_hash == remote_hash,
            _ => false,
        }
    }

    /// Whether a push is offered for this file.
    pub fn can_push(&self) -> (r: bool)
        ensures
            r == pushable(self@),
    {
        match self {
            FileKind::OnlyInRemote { .. } => false,
            FileKind::OnlyInLocal { .. } => true,
            FileKind::ExistsInBoth { local_hash, remote_hash, .. } => local_hash != remote_hash,
        }
    }

    /// Whether a pull is offered for this file.
    pub fn can_pull(&self) -> (r: bool)
        ensures
            r == pullable(self@),
    {
        match self {
            FileKind::OnlyInRemote { .. } => true,
            FileKind::OnlyInLocal { .. } => false,
            FileKind::ExistsInBoth { local_hash, remote_hash, .. } => local_hash != remote_hash,
        }
    }
}

/// The paths of `s` ascend strictly in path order.
pub open spec fn keys_sorted(s: Seq<(Seq<char>, FileState)>) -> bool {
    forall|i: int, j: int| 0 <= i < j < s.len() ==> path_lt(#[trigger] s[i].0, #[trigger] s[j].0)
}

/// `out` is the reconciliation of `local` and `remote`: one entry for each
/// path of either input, in path order, each classified by `state_of`.
pub open spec fn is_reconciliation(
    out: Seq<(Seq<char>, FileState)>,
    local: Map<Seq<char>, Side>,
    remote: Map<Seq<char>, Side>,
) -> bool {
    &&& keys_sorted(out)
    &&& forall|i: int|
        0 <= i < out.len() ==> (local.contains_key(#[trigger] out[i].0) || remote.contains_key(
            out[i].0,
        )) && out[i].1 == state_of(local, remote, out[i].0)
    &&& forall|k: Seq<char>|
        local.contains_key(k) || remote.contains_key(k) ==> exists|i: int|
            0 <= i < out.len() && #[trigger] out[i].0 == k
}

pub open spec fn entries_view(s: Seq<(String, FileKind)>) -> Seq<(Seq<char>, FileState)> {
    s.map_values(|e: (String, FileKind)| (e.0@, e.1@))
}


/// The files one side's scan produced, keyed by path: each path at most
/// once, as in a hash map.
pub struct FileMap {
    entries: Vec<(FilePath, FileMetaData)>,
    model: Ghost<Map<Seq<char>, Side>>,
}

impl View for FileMap {
    type V = Map<Seq<char>, Side>;

    closed spec fn view(&self) -> Map<Seq<char>, Side> {
        self.model@
    }
}

/// `entries` hold exactly the finite map `model`: each path once, with its
/// digest and bytes.
spec fn entries_match(entries: Seq<(FilePath, FileMetaData)>, model: Map<Seq<char>, Side>) -> bool {
    &&& forall|i: int|
        0 <= i < entries.len() ==> model.contains_key(#[trigger] entries[i].0@) && model[entries[i].0@]
            == (entries[i].1.0.value, entries[i].1.1@)
    &&& forall|k: Seq<char>|
        model.contains_key(k) ==> exists|i: int| 0 <= i < entries.len() && #[trigger] entries[i].0@ == k
    &&& forall|i: int, j: int|
        0 <= i < j < entries.len() ==> #[trigger] entries[i].0@ != #[trigger] entries[j].0@
    &&& model.dom().finite()
    &&& model.len() == entries.len()
}

impl FileMap {
    #[verifier::type_invariant]
    spec fn wf(&self) -> bool {
        entries_match(self.entries@, self.model@)
    }

    /// An empty file set.
    pub fn new() -> (r: FileMap)
        ensures
            r@ == Map::<Seq<char>, Side>::empty(),
    {
        FileMap { entries: Vec::new(), model: Ghost(Map::empty()) }
    }

    /// The number of paths.
    pub fn len(&self) -> (r: usize)
        ensures
            r == self@.len(),
            self@.dom().finite(),
    {
        proof {
            use_type_invariant(self);
        }
        self.entries.len()
    }

    /// Records `path` with the given digest and bytes, replacing what was
    /// recorded for it before.
    pub fn insert(&mut self, path: FilePath, hash: Digest, contents: Vec<u8>)
        ensures
            final(self)@ == old(self)@.insert(path@, (hash.value, contents@)),
    {
        proof {
            use_type_invariant(&*self);
        }
        let mut taken = FileMap::new();
        std::mem::swap(&mut taken, self);
        let FileMap { mut entries, model } = taken;
        let ghost side: Side = (hash.value, contents@);
        let ghost old_model = model@;
        let ghost old_entries = entries@;
        let ghost new_model = old_model.insert(path@, side);
        assert(old_model == old(self)@);
        let n = entries.len();
        let mut i: usize = 0;
        while i < n
            invariant
                i <= n,
                n == entries.len(),
                entries@ == old_entries,
                entries_match(old_entries, old_model),
                old_model == old(self)@,
                side == (hash.value, contents@),
                new_model == old_model.insert(path@, side),
                forall|j: int| 0 <= j < i ==> entries@[j].0@ != path@,
            decreases n - i,
        {
            if entries[i].0 == path {
                proof {
                    assert(entries@[i as int].0@ == path@);
                    assert(old_model.contains_key(path@));
                }
                entries[i] = (path, (hash, contents));
                proof {
                    assert(new_model.dom() =~= old_model.dom());
                    assert forall|j: int| 0 <= j < entries.len() implies new_model.contains_key(
                        #[trigger] entries@[j].0@,
                    ) && new_model[entries@[j].0@] == (entries@[j].1.0.value, entries@[j].1.1@) by {
                        if j != i {
                            assert(old_entries[j].0@ != old_entries[i as int].0@);
                        }
                    }
                    assert forall|j: int| 0 <= j < n implies #[trigger] entries@[j].0@
                        == old_entries[j].0@ by {}
                    assert forall|k: Seq<char>| new_model.contains_key(k) implies exists|j: int|
                        0 <= j < entries.len() && #[trigger] entries@[j].0@ == k by {
                        let j = choose|j: int| 0 <= j < n && #[trigger] old_entries[j].0@ == k;
                        assert(entries@[j].0@ == k);
                    }
                }
                *self = FileMap { entries, model: Ghost(new_model) };
                return ;
            }
            i = i + 1;
        }
        proof {
            assert(!old_model.contains_key(path@));
        }
        entries.push((path, (hash, contents)));
        proof {
            assert forall|k: Seq<char>| new_model.contains_key(k) implies exists|j: int|
                0 <= j < entries.len() && #[trigger] entries@[j].0@ == k by {
                if k == path@ {
                    assert(entries@[n as int].0@ == k);
                } else {
                    let j = choose|j: int| 0 <= j < n && #[trigger] old_entries[j].0@ == k;
                    assert(entries@[j].0@ == k);
                }
            }
        }
        *self = FileMap { entries, model: Ghost(new_model) };
    }

    /// Records `path` with `contents` and the MD5 digest of `contents`.
    pub fn insert_file(&mut self, path: FilePath, contents: Vec<u8>)
        ensures
            final(self)@ == old(self)@.insert(path@, (md5_of(contents@), contents@)),
    {
        let hash = compute_digest(&contents);
        self.insert(path, hash, contents);
    }
}

/// The unified classification: one entry per path, in path order.
#[derive(Debug, PartialEq, Eq)]
pub struct FileViewer {
    files: Vec<(FilePath, FileKind)>,
}

impl FileViewer {
    #[verifier::type_invariant]
    spec fn sorted(&self) -> bool {
        keys_sorted(entries_view(self.files@))
    }
}

impl View for FileViewer {
    type V = Seq<(Seq<char>, FileState)>;

    closed spec fn view(&self) -> Seq<(Seq<char>, FileState)> {
        entries_view(self.files@)
    }
}

/// The position where `key` stands or would be inserted in the sorted
/// entries `files`, and whether it is there.
fn locate(files: &Vec<(FilePath, FileKind)>, key: &FilePath) -> (r: (bool, usize))
    requires
        keys_sorted(entries_view(files@)),
    ensures
        r.1 <= files.len(),
        forall|i: int| 0 <= i < r.1 ==> path_lt(#[trigger] files@[i].0@, key@),
        r.0 ==> r.1 < files.len() && files@[r.1 as int].0@ == key@,
        !r.0 ==> forall|i: int| r.1 <= i < files.len() ==> path_lt(key@, #[trigger] files@[i].0@),
{
    let ghost v = entries_view(files@);
    let mut i: usize = 0;
    while i < files.len() && path_less(&files[i].0, key)
        invariant
            i <= files.len(),
            v == entries_view(files@),
            keys_sorted(v),
            forall|j: int| 0 <= j < i ==> path_lt(#[trigger] files@[j].0@, key@),
        decreases files.len() - i,
    {
        i = i + 1;
    }
    if i < files.len() && files[i].0 == *key {
        return (true, i);
    }
    proof {
        if i < files.len() {
            let fi = files@[i as int].0@;
            assert(v[i as int].0 == fi);
            lemma_path_order(key@, fi, key@);
            assert forall|j: int| i <= j < files.len() implies path_lt(
                key@,
                #[trigger] files@[j].0@,
            ) by {
                if j > i {
                    assert(v[j].0 == files@[j].0@);
                    assert(path_lt(v[i as int].0, v[j].0));
                    lemma_path_order(key@, fi, files@[j].0@);
                }
            }
        }
    }
    (false, i)
}

impl FileViewer {
    /// An empty classification.
    pub fn new() -> (r: FileViewer)
        ensures
            r@ == Seq::<(Seq<char>, FileState)>::empty(),
    {
        let r = FileViewer { files: Vec::new() };
        assert(r@ =~= Seq::<(Seq<char>, FileState)>::empty());
        r
    }

    /// The number of paths.
    pub fn len(&self) -> (r: usize)
        ensures
            r == self@.len(),
    {
        self.files.len()
    }

    pub fn is_empty(&self) -> (r: bool)
        ensures
            r == (self@.len() == 0),
    {
        self.files.len() == 0
    }

    /// The path and classification at position `index`.
    pub fn nth(&self, index: usize) -> (r: (&FilePath, &FileKind))
        requires
            index < self@.len(),
        ensures
            r.0@ == self@[index as int].0,
            r.1@ == self@[index as int].1,
    {
        let e = &self.files[index];
        (&e.0, &e.1)
    }

    /// The classification of `path`, if it is one of the paths.
    pub fn get(&self, path: &FilePath) -> (r: Option<&FileKind>)
        ensures
            r.is_some() <==> exists|i: int| 0 <= i < self@.len() && #[trigger] self@[i].0 == path@,
            r.is_some() ==> exists|i: int|
                0 <= i < self@.len() && #[trigger] self@[i].0 == path@ && self@[i].1 == r.unwrap()@,
    {
        proof {
            use_type_invariant(self);
        }
        let (found, pos) = locate(&self.files, path);
        if found {
            assert(self@[pos as int].0 == path@);
            Some(&self.files[pos].1)
        } else {
            proof {
                lemma_path_order(path@, path@, path@);
                assert forall|i: int| 0 <= i < self@.len() implies #[trigger] self@[i].0 != path@ by {
                    assert(self@[i].0 == self.files@[i].0@);
                }
            }
            None
        }
    }

    /// Reconciles the two scans: every path of either input appears once,
    /// in path order, as `OnlyInLocal`, `OnlyInRemote` or `ExistsInBoth`
    /// according to which inputs hold it, with each side's digest and bytes
    /// taken over unchanged.
    pub fn create_viewer(local: &FileMap, remote: &FileMap) -> (r: FileViewer)
        ensures
            is_reconciliation(r@, local@, remote@),
    {
        proof {
            use_type_invariant(local);
            use_type_invariant(remote);
        }
        let mut out: Vec<(FilePath, FileKind)> = Vec::new();
        let ghost no_local = Map::<Seq<char>, Side>::empty();
        let ghost mut seen: Map<Seq<char>, Side> = Map::empty();
        assert(entries_view(out@) =~= Seq::<(Seq<char>, FileState)>::empty());
        let n = remote.entries.len();
        let mut j: usize = 0;
        while j < n
            invariant
                j <= n,
                n == remote.entries.len(),
                remote.wf(),
                no_local == Map::<Seq<char>, Side>::empty(),
                is_reconciliation(entries_view(out@), no_local, seen),
                forall|k: Seq<char>|
                    seen.contains_key(k) ==> exists|i: int|
                        0 <= i < j && #[trigger] remote.entries@[i].0@ == k,
                forall|i: int|
                    0 <= i < j ==> seen.contains_key(#[trigger] remote.entries@[i].0@),
                forall|k: Seq<char>| seen.contains_key(k) ==> seen[k] == remote@[k],
            decreases n - j,
        {
            let key = &remote.entries[j].0;
            let (found, pos) = locate(&out, key);
            let ghost before = entries_view(out@);
            let ghost side: Side = (remote.entries@[j as int].1.0.value, remote.entries@[j as int].1.1@);
            proof {
                assert(remote@.contains_key(key@));
                if seen.contains_key(key@) {
                    let i = choose|i: int| 0 <= i < j && #[trigger] remote.entries@[i].0@ == key@;
                    assert(remote.entries@[i].0@ != remote.entries@[j as int].0@);
                }
                if found {
                    assert(before[pos as int].0 == key@);
                }
            }
            let kind = FileKind::OnlyInRemote {
                hash: remote.entries[j].1.0,
                contents: copy_bytes(&remote.entries[j].1.1),
            };
            out.insert(pos, (key.clone(), kind));
            proof {
                let ghost new_seen = seen.insert(key@, side);
                let after = entries_view(out@);
                assert(after =~= before.insert(pos as int, (key@, kind@)));
                assert forall|k: Seq<char>| new_seen.contains_key(k) implies exists|i: int|
                    0 <= i < after.len() && #[trigger] after[i].0 == k by {
                    if k == key@ {
                        assert(after[pos as int].0 == k);
                    } else {
                        let i = choose|i: int| 0 <= i < before.len() && #[trigger] before[i].0 == k;
                        if i < pos {
                            assert(after[i].0 == k);
                        } else {
                            assert(after[i + 1].0 == k);
                        }
                    }
                }
                assert forall|k: Seq<char>| new_seen.contains_key(k) implies exists|i: int|
                    0 <= i < j + 1 && #[trigger] remote.entries@[i].0@ == k by {
                    if k == key@ {
                        assert(remote.entries@[j as int].0@ == k);
                    }
                }
                seen = new_seen;
            }
            j = j + 1;
        }
        proof {
            assert(seen =~= remote@);
        }
        let ghost mut merged: Map<Seq<char>, Side> = Map::empty();
        let m = local.entries.len();
        let mut j: usize = 0;
        while j < m
            invariant
                j <= m,
                m == local.entries.len(),
                local.wf(),
                remote.wf(),
                is_reconciliation(entries_view(out@), merged, remote@),
                forall|k: Seq<char>|
                    merged.contains_key(k) ==> exists|i: int|
                        0 <= i < j && #[trigger] local.entries@[i].0@ == k,
                forall|i: int|
                    0 <= i < j ==> merged.contains_key(#[trigger] local.entries@[i].0@),
                forall|k: Seq<char>| merged.contains_key(k) ==> merged[k] == local@[k],
            decreases m - j,
        {
            let key = &local.entries[j].0;
            let (found, pos) = locate(&out, key);
            let ghost before = entries_view(out@);
            let ghost side: Side = (local.entries@[j as int].1.0.value, local.entries@[j as int].1.1@);
            let ghost new_merged = merged.insert(key@, side);
            proof {
                assert(local@.contains_key(key@));
                if merged.contains_key(key@) {
                    let i = choose|i: int| 0 <= i < j && #[trigger] local.entries@[i].0@ == key@;
                    assert(local.entries@[i].0@ != local.entries@[j as int].0@);
                }
            }
            let local_hash = local.entries[j].1.0;
            let local_contents = copy_bytes(&local.entries[j].1.1);
            if found {
                proof {
                    assert(before[pos as int].0 == key@);
                }
                let kind = match &out[pos].1 {
                    FileKind::OnlyInRemote { hash, contents } => FileKind::ExistsInBoth {
                        local_hash,
                        local_contents,
                        remote_hash: *hash,
                        remote_contents: copy_bytes(contents),
                    },
                    _ => {
                        proof {
                            assert(before[pos as int].1 == state_of(merged, remote@, key@));
                        }
                        FileKind::OnlyInLocal { hash: local_hash, contents: local_contents }
                    },
                };
                proof {
                    assert(remote@.contains_key(key@));
                    assert(kind@ == state_of(new_merged, remote@, key@));
                }
                out[pos] = (key.clone(), kind);
                proof {
                    let after = entries_view(out@);
                    assert(after =~= before.update(pos as int, (key@, kind@)));
                    lemma_path_order(key@, key@, key@);
                    assert forall|i: int| 0 <= i < after.len() implies (new_merged.contains_key(
                        #[trigger] after[i].0,
                    ) || remote@.contains_key(after[i].0)) && after[i].1 == state_of(
                        new_merged,
                        remote@,
                        after[i].0,
                    ) by {
                        if i != pos {
                            assert(after[i] == before[i]);
                            if i < pos {
                                assert(path_lt(before[i].0, before[pos as int].0));
                            } else {
                                assert(path_lt(before[pos as int].0, before[i].0));
                            }
                        }
                    }
                    assert forall|k: Seq<char>|
                        new_merged.contains_key(k) || remote@.contains_key(k) implies exists|i: int|
                        0 <= i < after.len() && #[trigger] after[i].0 == k by {
                        let i = choose|i: int| 0 <= i < before.len() && #[trigger] before[i].0 == k;
                        assert(after[i].0 == k);
                    }
                }
            } else {
                let kind = FileKind::OnlyInLocal { hash: local_hash, contents: local_contents };
                proof {
                    if remote@.contains_key(key@) {
                        let i = choose|i: int| 0 <= i < before.len() && #[trigger] before[i].0 == key@;
                        assert(out@[i].0@ == key@);
                        lemma_path_order(key@, key@, key@);
                    }
                    assert(kind@ == state_of(new_merged, remote@, key@));
                }
                out.insert(pos, (key.clone(), kind));
                proof {
                    let after = entries_view(out@);
                    assert(after =~= before.insert(pos as int, (key@, kind@)));
                    assert forall|i: int| 0 <= i < after.len() implies (new_merged.contains_key(
                        #[trigger] after[i].0,
                    ) || remote@.contains_key(after[i].0)) && after[i].1 == state_of(
                        new_merged,
                        remote@,
                        after[i].0,
                    ) by {
                        if i < pos {
                            assert(after[i] == before[i]);
                        } else if i > pos {
                            assert(after[i] == before[i - 1]);
                        }
                    }
                    assert forall|k: Seq<char>|
                        new_merged.contains_key(k) || remote@.contains_key(k) implies exists|i: int|
                        0 <= i < after.len() && #[trigger] after[i].0 == k by {
                        if k == key@ {
                            assert(after[pos as int].0 == k);
                        } else {
                            let i = choose|i: int| 0 <= i < before.len() && #[trigger] before[i].0 == k;
                            if i < pos {
                                assert(after[i].0 == k);
                            } else {
                                assert(after[i + 1].0 == k);
                            }
                        }
                    }
                }
            }
            proof {
                assert forall|k: Seq<char>| new_merged.contains_key(k) implies exists|i: int|
                    0 <= i < j + 1 && #[trigger] local.entries@[i].0@ == k by {
                    if k == key@ {
                        assert(local.entries@[j as int].0@ == k);
                    }
                }
                merged = new_merged;
            }
            j = j + 1;
        }
        proof {
            assert(merged =~= local@);
        }
        FileViewer { files: out }
    }
}

pub(crate) fn copy_bytes(v: &Vec<u8>) -> (r: Vec<u8>)
    ensures
        r@ == v@,
{
    let r = v.clone();
    assert(r@ =~= v@);
    r
}

} // verus!
