//! Storage quotas shared by the VFS backends: the check a write must pass
//! and the counter updates that follow a write or a delete.
use vstd::prelude::*;
use crate::text::push_str;
use crate::vfs::types::{ResourceLimits, VfsError};

verus! {

/// The quota a write of `len` bytes would exceed, if any, as (resource,
/// limit, current): a file larger than the size limit; a new file when
/// the file count is at its limit; or a total above the storage limit
/// (the total after the write is the current total plus `len` minus the
/// replaced file's size).
pub open spec fn quota_problem(
    limits: ResourceLimits,
    count: usize,
    total: usize,
    is_new: bool,
    old_size: usize,
    len: nat,
) -> Option<(Seq<char>, u32, u32)> {
    if len > limits.file_size_bytes_max {
        Some(("file_size"@, limits.file_size_bytes_max, len as u32))
    } else if is_new && count >= limits.files_count_max {
        Some(("file_count"@, limits.files_count_max, count as u32))
    } else if total + len < old_size || total + len - old_size > limits.total_storage_bytes_max {
        Some(("total_storage"@, limits.total_storage_bytes_max, total as u32))
    } else {
        None
    }
}

/// Check a write of `content_len` bytes against the limits (see
/// `quota_problem`).
pub fn check_quota(
    limits: &ResourceLimits,
    file_count: usize,
    total_bytes: usize,
    content_len: usize,
    is_new: bool,
    old_size: usize,
) -> (r: Result<(), VfsError>)
    ensures
        match quota_problem(
            *limits,
            file_count,
            total_bytes,
            is_new,
            old_size,
            content_len as nat,
        ) {
            None => r is Ok,
            Some((res, limit, current)) => r matches Err(
                VfsError::QuotaExceeded { resource, limit: l, current: c },
            ) && resource@ == res && l == limit && c == current,
        },
{
    if content_len > limits.file_size_bytes_max as usize {
        let mut resource = String::new();
        push_str(&mut resource, "file_size");
        return Err(
            VfsError::QuotaExceeded {
                resource,
                limit: limits.file_size_bytes_max,
                current: content_len as u32,
            },
        );
    }
    if is_new && file_count >= limits.files_count_max as usize {
        let mut resource = String::new();
        push_str(&mut resource, "file_count");
        return Err(
            VfsError::QuotaExceeded {
                resource,
                limit: limits.files_count_max,
                current: file_count as u32,
            },
        );
    }
    let max_total = limits.total_storage_bytes_max as usize;
    let over = if total_bytes < old_size {
        old_size - total_bytes > content_len || content_len - (old_size - total_bytes)
            > max_total
    } else {
        let kept = total_bytes - old_size;
        kept > max_total || content_len > max_total - kept
    };
    if over {
        let mut resource = String::new();
        push_str(&mut resource, "total_storage");
        return Err(
            VfsError::QuotaExceeded {
                resource,
                limit: limits.total_storage_bytes_max,
                current: total_bytes as u32,
            },
        );
    }
    Ok(())
}


/// The counters after a write of `content_len` bytes: one more file when the
/// path was new, and the total moved by the size difference. Both counters
/// wrap on overflow, as atomic counters do.
pub open spec fn counters_after_write(
    file_count: usize,
    total_bytes: usize,
    is_new: bool,
    old_size: usize,
    content_len: usize,
) -> (usize, usize) {
    if is_new {
        (file_count.wrapping_add(1), total_bytes.wrapping_add(content_len))
    } else if content_len > old_size {
        (file_count, total_bytes.wrapping_add((content_len - old_size) as usize))
    } else {
        (file_count, total_bytes.wrapping_sub((old_size - content_len) as usize))
    }
}

/// The counters after a write (see `counters_after_write`).
pub fn update_after_write(
    file_count: usize,
    total_bytes: usize,
    is_new: bool,
    old_size: usize,
    content_len: usize,
) -> (r: (usize, usize))
    ensures
        r == counters_after_write(file_count, total_bytes, is_new, old_size, content_len),
{
    if is_new {
        (file_count.wrapping_add(1), total_bytes.wrapping_add(content_len))
    } else if content_len > old_size {
        (file_count, total_bytes.wrapping_add(content_len - old_size))
    } else {
        (file_count, total_bytes.wrapping_sub(old_size - content_len))
    }
}

/// A quota check that passed leaves room for the write: the counters after
/// it are the exact sums, without wrapping, and the total stays within the
/// storage limit.
pub proof fn law_admitted_write_fits(
    limits: ResourceLimits,
    file_count: usize,
    total_bytes: usize,
    is_new: bool,
    old_size: usize,
    content_len: usize,
)
    requires
        quota_problem(limits, file_count, total_bytes, is_new, old_size, content_len as nat) is None,
        !is_new || old_size == 0,
    ensures
        counters_after_write(file_count, total_bytes, is_new, old_size, content_len).1
            == total_bytes + content_len - old_size,
        counters_after_write(file_count, total_bytes, is_new, old_size, content_len).1
            <= limits.total_storage_bytes_max,
        counters_after_write(file_count, total_bytes, is_new, old_size, content_len).0 == file_count
            + if is_new {
            1int
        } else {
            0int
        },
{
}

} // verus!
