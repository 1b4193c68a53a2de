//! Loading a directory tree into a VFS: where each file lands. The
//! directory walk and the file reads are made by the caller, which writes
//! each file through `IsolateVfs::write`.
use vstd::prelude::*;
use crate::text::{chars_of, push_str};
use crate::vfs::disk::child_text;

verus! {

/// The VFS path of a directory entry named `file_name` loaded under
/// `mount_point`: appended directly where the mount point ends with `/`,
/// else after a `/`.
pub fn vfs_entry_path(mount_point: &str, file_name: &str) -> (r: String)
    ensures
        r@ == child_text(mount_point@, file_name@),
{
    let m = chars_of(mount_point);
    let mut r = String::new();
    push_str(&mut r, mount_point);
    if !(m.len() > 0 && m[m.len() - 1] == '/') {
        crate::text::push_char(&mut r, '/');
    }
    push_str(&mut r, file_name);
    proof {
        assert(r@ =~= child_text(mount_point@, file_name@));
    }
    r
}

} // verus!
