use vstd::prelude::*;

verus! {

/// Four-character codes and other 32-bit tags used across the framework.
pub type OSType = u32;

/// The framework's status code space: zero is success, each failure category
/// is a distinct negative integer that callers may match on.
pub type OSStatus = i32;

/// Runtime type identifier reported by an object's registry entry.
pub type CFTypeID = u32;

/// Counts of items held by queues.
pub type CMItemCount = usize;

} // verus!
