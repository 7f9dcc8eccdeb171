use vstd::prelude::*;

use crate::digest::md5_of;
use crate::error::{Error, LoadingLocalFiles};
use crate::files::{copy_bytes, FileMap, FilePath, Side};
use crate::path::{relative_path, relative_to};

verus! {

/// The file set that recording each `(path, bytes)` of `files` in turn
/// gives, each with the MD5 digest of its bytes; a later path replaces an
/// earlier equal one.
pub open spec fn indexed(files: Seq<(Seq<char>, Seq<u8>)>) -> Map<Seq<char>, Side>
    decreases files.len(),
{
    if files.len() == 0 {
        Map::empty()
    } else {
        let (p, b) = files.last();
        indexed(files.drop_last()).insert(p, (md5_of(b), b))
    }
}

/// Every path of `files` lies below the directory `root`.
pub open spec fn all_below(root: Seq<char>, files: Seq<(Seq<char>, Seq<u8>)>) -> bool {
    forall|i: int| 0 <= i < files.len() ==> (#[trigger] relative_to(files[i].0, root)) is Some
}

/// `files` with each path taken relative to `root`.
pub open spec fn relative_files(root: Seq<char>, files: Seq<(Seq<char>, Seq<u8>)>) -> Seq<
    (Seq<char>, Seq<u8>),
> {
    files.map_values(|f: (Seq<char>, Seq<u8>)| (relative_to(f.0, root).unwrap(), f.1))
}

pub open spec fn files_view(files: Seq<(FilePath, Vec<u8>)>) -> Seq<(Seq<char>, Seq<u8>)> {
    files.map_values(|f: (FilePath, Vec<u8>)| (f.0@, f.1@))
}

/// The file set of the objects a remote listing returned, keyed as listed,
/// each with the MD5 digest of its bytes.
pub fn index_files(files: &Vec<(FilePath, Vec<u8>)>) -> (r: FileMap)
    ensures
        r@ == indexed(files_view(files@)),
{
    let ghost all = files_view(files@);
    let mut out = FileMap::new();
    let n = files.len();
    let mut i: usize = 0;
    while i < n
        invariant
            i <= n,
            n == files.len(),
            all == files_view(files@),
            out@ == indexed(all.subrange(0, i as int)),
        decreases n - i,
    {
        assert(all.subrange(0, i + 1).drop_last() =~= all.subrange(0, i as int));
        out.insert_file(files[i].0.clone(), copy_bytes(&files[i].1));
        i = i + 1;
    }
    assert(all.subrange(0, n as int) =~= all);
    out
}

/// The file set of a local scan of the directory `root`: each file keyed by
/// its path relative to `root`, with the MD5 digest of its bytes. A file
/// whose path does not lie below `root` fails the scan.
pub fn local_files(root: &String, files: &Vec<(FilePath, Vec<u8>)>) -> (r: Result<FileMap, Error>)
    ensures
        r is Ok <==> all_below(root@, files_view(files@)),
        r is Err ==> r == Err::<FileMap, Error>(Error::LoadingLocalFiles(LoadingLocalFiles::FileSystem)),
        r is Ok ==> r->Ok_0@ == indexed(relative_files(root@, files_view(files@))),
{
    let ghost all = files_view(files@);
    let ghost rel = relative_files(root@, all);
    let mut out = FileMap::new();
    let n = files.len();
    let mut i: usize = 0;
    while i < n
        invariant
            i <= n,
            n == files.len(),
            all == files_view(files@),
            rel == relative_files(root@, all),
            forall|j: int| 0 <= j < i ==> (#[trigger] relative_to(all[j].0, root@)) is Some,
            out@ == indexed(rel.subrange(0, i as int)),
        decreases n - i,
    {
        match relative_path(&files[i].0, root) {
            Some(key) => {
                assert(rel.subrange(0, i + 1).drop_last() =~= rel.subrange(0, i as int));
                out.insert_file(key, copy_bytes(&files[i].1));
            },
            None => {
                assert(relative_to(all[i as int].0, root@) is None);
                return Err(Error::LoadingLocalFiles(LoadingLocalFiles::FileSystem));
            },
        }
        i = i + 1;
    }
    assert(rel.subrange(0, n as int) =~= rel);
    Ok(out)
}

} // verus!
