//! Copies between the host and a guest's linear memory.
use crate::abi::{in_memory, memory_range, ERR_RANGE};
use vstd::prelude::*;

verus! {

/// A view of a guest's linear memory.
#[verifier::external_type_specification]
#[verifier::external_body]
pub struct ExMemoryView<'a>(wasmer::MemoryView<'a>);

/// The error of a copy that leaves the memory, carried through unread.
#[verifier::external_type_specification]
#[verifier::external_body]
pub struct ExMemoryAccessError(wasmer::MemoryAccessError);

/// The bytes that a view spans, fixed when the view was made.
pub uninterp spec fn memory_size(view: wasmer::MemoryView<'_>) -> u64;

/// Each of the bytes stood at its place behind `offset`, at some time since the
/// view was made. The guest can write to its memory at any time, so no more is
/// known of what a read finds, nor of how long a write lasts.
pub uninterp spec fn held(view: wasmer::MemoryView<'_>, offset: u64, bytes: Seq<u8>) -> bool;

/// `wasmer::MemoryView::data_size`: the bytes that the view spans.
#[verifier::external_body]
fn data_size(view: &wasmer::MemoryView<'_>) -> (size: u64)
    ensures
        size == memory_size(*view),
{
    view.data_size()
}

/// `wasmer::MemoryView::read` into a buffer of `len` bytes: the whole buffer is
/// filled from `offset` on when the range lies inside the view. Which bytes stand
/// there is up to the guest.
#[verifier::external_body]
fn copy_out(view: &wasmer::MemoryView<'_>, offset: u64, len: usize) -> (bytes: Result<
    Vec<u8>,
    wasmer::MemoryAccessError,
>)
    requires
        in_memory(memory_size(*view), offset, len as int),
    ensures
        bytes matches Ok(bytes) && bytes@.len() == len && held(*view, offset, bytes@),
{
    let mut bytes = vec![0; len];
    view.read(offset, &mut bytes)?;
    Ok(bytes)
}

/// `wasmer::MemoryView::write`: the bytes are copied to `offset` when their range
/// lies inside the view. That the guest leaves them there is not claimed.
#[verifier::external_body]
fn copy_in(view: &wasmer::MemoryView<'_>, offset: u64, bytes: &[u8]) -> (copied: Result<
    (),
    wasmer::MemoryAccessError,
>)
    requires
        in_memory(memory_size(*view), offset, bytes@.len() as int),
    ensures
        copied is Ok,
        copied is Ok ==> held(*view, offset, bytes@),
{
    view.write(offset, bytes)
}

/// Whether `len` bytes at `offset` lie inside guest memory.
pub fn spans(view: &wasmer::MemoryView<'_>, offset: u64, len: usize) -> (inside: bool)
    ensures
        inside == in_memory(memory_size(*view), offset, len as int),
{
    memory_range(data_size(view), offset, len).is_ok()
}

/// Copies `len` bytes at `offset` out of guest memory, or nothing when any part
/// of the range lies outside.
pub fn read_bytes(view: &wasmer::MemoryView<'_>, offset: u64, len: usize) -> (bytes: Result<
    Vec<u8>,
    i32,
>)
    ensures
        match bytes {
            Ok(bytes) => in_memory(memory_size(*view), offset, len as int) && bytes@.len() == len
                && held(*view, offset, bytes@),
            Err(code) => !in_memory(memory_size(*view), offset, len as int) && code == ERR_RANGE,
        },
{
    match memory_range(data_size(view), offset, len) {
        Err(code) => Err(code),
        Ok(range) => match copy_out(view, range.offset, range.len) {
            Ok(bytes) => Ok(bytes),
            Err(_) => Err(ERR_RANGE),
        },
    }
}

/// Copies `bytes` to `offset` in guest memory, or nothing when any part of the
/// range lies outside.
pub fn write_bytes(view: &wasmer::MemoryView<'_>, offset: u64, bytes: &[u8]) -> (copied: Result<
    (),
    i32,
>)
    ensures
        copied == (if in_memory(memory_size(*view), offset, bytes@.len() as int) {
            Ok::<(), i32>(())
        } else {
            Err::<(), i32>(ERR_RANGE)
        }),
        copied is Ok ==> held(*view, offset, bytes@),
{
    match memory_range(data_size(view), offset, bytes.len()) {
        Err(code) => Err(code),
        Ok(range) => match copy_in(view, range.offset, bytes) {
            Ok(_) => Ok(()),
            Err(_) => Err(ERR_RANGE),
        },
    }
}

} // verus!
