//! Free space on the drive that receives the extracted files.

use vstd::prelude::*;
use vstd::utf8::encode_utf8;

use crate::errors::{EngineError, EngineResult};
use crate::paths::{path_has_prefix, path_starts_with};
use crate::text::concat2;

verus! {

/// The space of one mounted drive.
#[derive(Debug)]
pub struct DiskSpaceInfo {
    pub mount_point: String,
    pub total_bytes: u64,
    pub available_bytes: u64,
}

impl Clone for DiskSpaceInfo {
    fn clone(&self) -> (r: Self)
        ensures
            r == *self,
    {
        DiskSpaceInfo {
            mount_point: self.mount_point.clone(),
            total_bytes: self.total_bytes,
            available_bytes: self.available_bytes,
        }
    }
}

/// The length in bytes of a drive's mount point.
pub open spec fn mount_point_len(d: DiskSpaceInfo) -> nat {
    encode_utf8(d.mount_point@).len()
}

/// The drive `d` holds the path `target`.
pub open spec fn holds_path(d: DiskSpaceInfo, target: Seq<char>) -> bool {
    path_starts_with(target, d.mount_point@)
}

/// Drive `i` of `disks` is the one that holds `target`: of the drives
/// that hold it, it has the longest mount point, and it is the last such.
pub open spec fn is_drive_for(disks: Seq<DiskSpaceInfo>, target: Seq<char>, i: int) -> bool {
    &&& 0 <= i < disks.len()
    &&& holds_path(disks[i], target)
    &&& forall|j: int|
        0 <= j < disks.len() && #[trigger] holds_path(disks[j], target) ==> mount_point_len(disks[j])
            <= mount_point_len(disks[i]) && (j > i ==> mount_point_len(disks[j]) < mount_point_len(
            disks[i]))
}

/// The drive, among the mounted `disks`, that holds `target`, which is
/// the existing path that `path` names or else the parent of `path`.
/// Fails with an archive error naming `path` when no drive holds it.
pub fn select_disk(path: &str, target: &str, disks: &[DiskSpaceInfo]) -> (r: EngineResult<DiskSpaceInfo>)
    ensures
        (forall|j: int| 0 <= j < disks@.len() ==> !#[trigger] holds_path(disks@[j], target@)) ==> (
        r matches Err(EngineError::Archive(m)) && m@ == "No mounted drive found for "@ + path@),
        (exists|j: int| 0 <= j < disks@.len() && #[trigger] holds_path(disks@[j], target@)) ==> (
        r matches Ok(d) && exists|i: int| is_drive_for(disks@, target@, i) && d == disks@[i]),
{
    let mut best: Option<usize> = None;
    let mut best_len: usize = 0;
    let mut i: usize = 0;
    while i < disks.len()
        invariant
            i <= disks.len(),
            best is None ==> forall|j: int| 0 <= j < i ==> !#[trigger] holds_path(disks@[j], target@),
            best matches Some(b) ==> b < i && best_len == mount_point_len(disks@[b as int])
                && holds_path(disks@[b as int], target@) && forall|j: int|
                0 <= j < i && #[trigger] holds_path(disks@[j], target@) ==> mount_point_len(disks@[j])
                    <= best_len && (j > b ==> mount_point_len(disks@[j]) < best_len),
        decreases disks.len() - i,
    {
        if path_has_prefix(target, disks[i].mount_point.as_str()) {
            let len = disks[i].mount_point.as_str().as_bytes().len();
            match best {
                None => {
                    best = Some(i);
                    best_len = len;
                },
                Some(_) => {
                    if len >= best_len {
                        best = Some(i);
                        best_len = len;
                    }
                },
            }
        } else {
            assert(!holds_path(disks@[i as int], target@));
        }
        i += 1;
    }
    match best {
        None => Err(EngineError::Archive(concat2("No mounted drive found for ", path))),
        Some(b) => {
            assert(is_drive_for(disks@, target@, b as int));
            Ok(disks[b].clone())
        },
    }
}

} // verus!
