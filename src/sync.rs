use vstd::prelude::*;

use crate::error::Error;
use crate::files::{FileKind, FileState};

verus! {

/// An object to store remotely: `contents` under `key` in `bucket`.
#[derive(Debug, Clone)]
pub struct Upload {
    pub bucket: String,
    pub key: String,
    pub contents: Vec<u8>,
}

/// A file to write locally: `contents` at `target`.
#[derive(Debug, Clone)]
pub struct Download {
    pub target: String,
    pub contents: Vec<u8>,
}

/// The local bytes of a file, where it exists locally.
pub open spec fn local_bytes(s: FileState) -> Option<Seq<u8>> {
    match s {
        FileState::RemoteOnly { .. } => None,
        FileState::LocalOnly { contents, .. } => Some(contents),
        FileState::Present { local_contents, .. } => Some(local_contents),
    }
}

/// The remote bytes of a file, where it exists remotely.
pub open spec fn remote_bytes(s: FileState) -> Option<Seq<u8>> {
    match s {
        FileState::RemoteOnly { contents, .. } => Some(contents),
        FileState::LocalOnly { .. } => None,
        FileState::Present { remote_contents, .. } => Some(remote_contents),
    }
}

/// The path `name` below the directory `root`.
pub open spec fn joined(root: Seq<char>, name: Seq<char>) -> Seq<char> {
    root.push('/') + name
}

/// The push of `path` to `bucket`: its local bytes under the key `path`.
/// A file that exists only remotely has nothing to push. On `Present` the
/// local side is pushed whether or not the digests differ.
pub fn push_to_remote(bucket: &String, path: &String, kind: &FileKind) -> (r: Result<Upload, Error>)
    ensures
        r is Err <==> local_bytes(kind@) is None,
        r is Err ==> r == Err::<Upload, Error>(Error::NothingToPush),
        r is Ok ==> r->Ok_0.bucket@ == bucket@ && r->Ok_0.key@ == path@ && r->Ok_0.contents@
            == local_bytes(kind@).unwrap(),
{
    let contents = match kind {
        FileKind::OnlyInRemote { .. } => {
            return Err(Error::NothingToPush);
        },
        FileKind::OnlyInLocal { contents, .. } => contents,
        FileKind::ExistsInBoth { local_contents, .. } => local_contents,
    };
    let upload = Upload { bucket: bucket.clone(), key: path.clone(), contents: crate::files::copy_bytes(contents) };
    Ok(upload)
}

/// The pull of `path` into the directory `local_root`: its remote bytes,
/// to be written at `local_root/path`. A file that exists only locally has
/// nothing to pull. On `Present` the remote side is pulled whether or not
/// the digests differ.
pub fn pull_from_remote(local_root: &String, path: &String, kind: &FileKind) -> (r: Result<Download, Error>)
    ensures
        r is Err <==> remote_bytes(kind@) is None,
        r is Err ==> r == Err::<Download, Error>(Error::NothingToPull),
        r is Ok ==> r->Ok_0.target@ == joined(local_root@, path@) && r->Ok_0.contents@
            == remote_bytes(kind@).unwrap(),
{
    let contents = match kind {
        FileKind::OnlyInRemote { contents, .. } => contents,
        FileKind::OnlyInLocal { .. } => {
            return Err(Error::NothingToPull);
        },
        FileKind::ExistsInBoth { remote_contents, .. } => remote_contents,
    };
    let mut target = local_root.clone();
    proof {
        reveal_strlit("/");
    }
    target.append("/");
    target.append(path.as_str());
    assert(target@ =~= joined(local_root@, path@));
    Ok(Download { target, contents: crate::files::copy_bytes(contents) })
}

} // verus!
