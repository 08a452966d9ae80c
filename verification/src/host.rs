//! The seven guest-facing imports, up to the device and from the device on.
//!
//! The function of an import's name checks the guest's numbers and handles,
//! copies from guest memory, and says what the device is to be asked for; a
//! `_finish` or `_deliver` function takes what the device reported and settles
//! ownership, quotas and the status code. In between, a `_range` function names
//! the guest memory to touch, and an `_admit` function decides on what was read
//! there. Every import validates guest memory ranges and session-owned handles
//! before the device is touched, and a device failure becomes a status code.
use crate::abi::{
    copy_status, dispatch_dims, dispatch_ok, guest_transfer_range, in_memory, transfer_len_ok,
    unsigned, wasm_u32, MemoryRange, ERR_GPU, ERR_HANDLE, ERR_QUOTA, ERR_RANGE, ERR_SHADER,
    MAX_SHADER_BYTES, SUCCESS, TRANSFER_ALIGNMENT,
};
use crate::device::{recordable, scope_code, BridgeView, ErrorScopes, GpuBridge};
use crate::memory::{held, memory_size, read_bytes, spans, write_bytes};
use crate::session::{GpuSession, SessionView};
use vstd::prelude::*;
use vstd::string::*;
use vstd::utf8::*;

verus! {

/// A guest's linear memory, carried through unread.
#[verifier::external_type_specification]
#[verifier::external_body]
pub struct ExMemory(wasmer::Memory);

/// Per-instance environment of every import.
///
/// `memory` is `None` until the guest's linear memory is known: immediately
/// for a core module, and after instantiation for a WASIX guest whose memory
/// is exported rather than imported (see [`crate::hook`]).
#[derive(Debug)]
pub struct HostEnv {
    pub memory: Option<wasmer::Memory>,
    pub session: GpuSession,
}

/// Everything the session owns is live on the bridge, with the same length.
pub open spec fn owned_live(session: SessionView, bridge: BridgeView) -> bool {
    &&& session.buffers.submap_of(bridge.buffers)
    &&& session.pipelines.subset_of(bridge.pipelines)
}

/// The two sessions own no handle in common.
pub open spec fn disjoint_sessions(a: SessionView, b: SessionView) -> bool {
    &&& a.buffers.dom().disjoint(b.buffers.dom())
    &&& a.pipelines.disjoint(b.pipelines)
}

/// A memory is bound.
fn guest_memory(env: &HostEnv) -> (bound: Result<(), i32>)
    ensures
        bound == (if env.memory is Some {
            Ok::<(), i32>(())
        } else {
            Err::<(), i32>(ERR_RANGE)
        }),
{
    if env.memory.is_some() {
        Ok(())
    } else {
        Err(ERR_RANGE)
    }
}

// ---------------------------------------------------------------------------
// buffer_upload
// ---------------------------------------------------------------------------

/// What `buffer_upload(ptr, len)` reads from guest memory, or why not.
pub open spec fn upload_plan(bound: bool, ptr: i32, len: i32) -> Result<MemoryRange, i32> {
    if transfer_len_ok(unsigned(len)) && bound {
        Ok(MemoryRange { offset: unsigned(ptr) as u64, len: unsigned(len) as usize })
    } else {
        Err(ERR_RANGE)
    }
}

/// The guest memory to read for an upload.
pub fn upload_range(env: &HostEnv, ptr: i32, len: i32) -> (range: Result<MemoryRange, i32>)
    ensures
        range == upload_plan(env.memory is Some, ptr, len),
{
    match guest_transfer_range(ptr, len) {
        Err(code) => Err(code),
        Ok((offset, bytes)) => match guest_memory(env) {
            Err(code) => Err(code),
            Ok(_) => Ok(MemoryRange { offset, len: bytes }),
        },
    }
}

/// Takes the bytes that were read, and hands them on when the session's quota
/// has room for them.
pub fn buffer_upload_admit(env: &HostEnv, read: Result<Vec<u8>, i32>) -> (contents: Result<
    Vec<u8>,
    i32,
>)
    requires
        env.session.wf(),
    ensures
        contents == (match read {
            Err(code) => Err::<Vec<u8>, i32>(code),
            Ok(bytes) => if env.session@.has_room(bytes@.len() as int) {
                Ok(bytes)
            } else {
                Err(ERR_QUOTA)
            },
        }),
{
    match read {
        Err(code) => Err(code),
        Ok(bytes) => {
            if env.session.can_allocate_buffer(bytes.len()) {
                Ok(bytes)
            } else {
                Err(ERR_QUOTA)
            }
        },
    }
}

/// The size of the memory that a view spans; nothing spans nothing.
pub open spec fn span(view: Option<&wasmer::MemoryView<'_>>) -> u64 {
    match view {
        Some(view) => memory_size(*view),
        None => 0,
    }
}

/// The bytes stood at `offset` in the memory that a view spans.
pub open spec fn seen(view: Option<&wasmer::MemoryView<'_>>, offset: int, bytes: Seq<u8>) -> bool {
    view matches Some(view) && held(*view, offset as u64, bytes)
}

/// Why `buffer_upload(ptr, len)` does not reach the device, if it does not: its
/// range is not one of guest memory, or the quota has no room.
pub open spec fn upload_refusal(
    bound: bool,
    size: u64,
    session: SessionView,
    ptr: i32,
    len: i32,
) -> Option<i32> {
    match upload_plan(bound, ptr, len) {
        Err(code) => Some(code),
        Ok(range) => if !in_memory(size, range.offset, range.len as int) {
            Some(ERR_RANGE)
        } else if !session.has_room(range.len as int) {
            Some(ERR_QUOTA)
        } else {
            None
        },
    }
}

/// `buffer_upload(ptr, len)` up to the device: the contents of the new buffer,
/// or the status that the guest gets instead.
pub fn buffer_upload(
    env: &HostEnv,
    view: Option<&wasmer::MemoryView<'_>>,
    ptr: i32,
    len: i32,
) -> (contents: Result<Vec<u8>, i32>)
    requires
        env.session.wf(),
    ensures
        match contents {
            Ok(bytes) => upload_refusal(
                env.memory is Some && view is Some,
                span(view),
                env.session@,
                ptr,
                len,
            ) is None && bytes@.len() == unsigned(len) && seen(view, unsigned(ptr), bytes@),
            Err(code) => upload_refusal(
                env.memory is Some && view is Some,
                span(view),
                env.session@,
                ptr,
                len,
            ) == Some(code),
        },
{
    let range = match upload_range(env, ptr, len) {
        Ok(range) => range,
        Err(code) => {
            return Err(code);
        },
    };
    match view {
        None => Err(ERR_RANGE),
        Some(view) => buffer_upload_admit(env, read_bytes(view, range.offset, range.len)),
    }
}

/// Settles an upload of `len` admitted bytes: the new handle, now owned by the
/// session, or the code of the captured error.
pub fn buffer_upload_finish(
    env: &mut HostEnv,
    bridge: &mut GpuBridge,
    len: usize,
    scopes: ErrorScopes,
    elapsed: u128,
) -> (status: i32)
    requires
        old(env).session.wf(),
        old(bridge).wf(),
        owned_live(old(env).session@, old(bridge)@),
        old(env).session@.has_room(len as int),
        scopes.clean() ==> old(bridge)@.can_issue() && recordable(
            old(bridge)@.timing.upload,
            elapsed,
        ),
    ensures
        final(env).session.wf(),
        final(bridge).wf(),
        final(env).memory == old(env).memory,
        match scope_code(scopes, ERR_GPU) {
            Some(code) => {
                &&& status == code
                &&& final(env).session@ == old(env).session@
                &&& final(bridge)@ == old(bridge)@
            },
            None => {
                &&& status == old(bridge)@.next_handle
                &&& final(env).session@ == old(env).session@.with_buffer(status, len)
                &&& final(bridge)@ == old(bridge)@.with_buffer(len, elapsed)
            },
        },
        owned_live(final(env).session@, final(bridge)@),
        import_step(old(env).session@, old(bridge)@, final(env).session@, final(bridge)@),
{
    let ghost s0 = env.session@;
    let ghost b0 = bridge@;
    match bridge.finish_upload(len, scopes, elapsed) {
        Ok(handle) => {
            assert(!b0.buffers.contains_key(handle));
            env.session.track_buffer(handle, len);
            assert(adds_buffer(s0, b0, env.session@, bridge@, len, elapsed));
            handle
        },
        Err(code) => {
            assert(bridge@ == BridgeView { timing: bridge@.timing, ..b0 });
            code
        },
    }
}

// ---------------------------------------------------------------------------
// buffer_read
// ---------------------------------------------------------------------------

/// What `buffer_read(handle, ptr, len)` copies where, or why the buffer may not
/// be read so far.
pub open spec fn read_plan(
    session: SessionView,
    bridge: BridgeView,
    handle: i32,
    ptr: i32,
    len: i32,
) -> Result<MemoryRange, i32> {
    if !transfer_len_ok(unsigned(len)) {
        Err(ERR_RANGE)
    } else if !session.buffers.contains_key(handle) {
        Err(ERR_HANDLE)
    } else {
        match bridge.read_error(handle, unsigned(len)) {
            Some(code) => Err(code),
            None => Ok(
                MemoryRange { offset: unsigned(ptr) as u64, len: unsigned(len) as usize },
            ),
        }
    }
}

/// Why `buffer_read(handle, ptr, len)` does not reach the device, if it does
/// not: the buffer may not be read so far, or its bytes have no place in guest
/// memory.
pub open spec fn read_refusal(
    bound: bool,
    size: u64,
    session: SessionView,
    bridge: BridgeView,
    handle: i32,
    ptr: i32,
    len: i32,
) -> Option<i32> {
    match read_plan(session, bridge, handle, ptr, len) {
        Err(code) => Some(code),
        Ok(range) => if !bound || !in_memory(size, range.offset, range.len as int) {
            Some(ERR_RANGE)
        } else {
            None
        },
    }
}

/// `buffer_read(handle, ptr, len)` up to the device: the range of guest memory
/// that the readback goes to, or the status that the guest gets instead.
pub fn buffer_read(
    env: &HostEnv,
    bridge: &GpuBridge,
    view: Option<&wasmer::MemoryView<'_>>,
    handle: i32,
    ptr: i32,
    len: i32,
) -> (range: Result<MemoryRange, i32>)
    ensures
        match range {
            Ok(range) => read_refusal(
                env.memory is Some && view is Some,
                span(view),
                env.session@,
                bridge@,
                handle,
                ptr,
                len,
            ) is None && range.offset == unsigned(ptr) && range.len == unsigned(len),
            Err(code) => read_refusal(
                env.memory is Some && view is Some,
                span(view),
                env.session@,
                bridge@,
                handle,
                ptr,
                len,
            ) == Some(code),
        },
{
    let (offset, bytes) = match guest_transfer_range(ptr, len) {
        Ok(range) => range,
        Err(code) => {
            return Err(code);
        },
    };
    if !env.session.owns_buffer(handle) {
        return Err(ERR_HANDLE);
    }
    if let Err(code) = bridge.read_buffer(handle, bytes) {
        return Err(code);
    }
    if let Err(code) = guest_memory(env) {
        return Err(code);
    }
    match view {
        None => Err(ERR_RANGE),
        Some(view) => if spans(view, offset, bytes) {
            Ok(MemoryRange { offset, len: bytes })
        } else {
            Err(ERR_RANGE)
        },
    }
}

/// Settles a readback: the bytes to copy into guest memory, or why there is
/// nothing to copy or no memory to copy it to.
pub fn buffer_read_finish(
    env: &HostEnv,
    bridge: &mut GpuBridge,
    scopes: ErrorScopes,
    mapped: Option<Vec<u8>>,
    elapsed: u128,
) -> (data: Result<Vec<u8>, i32>)
    requires
        old(bridge).wf(),
        scopes.clean() && mapped is Some ==> recordable(old(bridge)@.timing.readback, elapsed),
    ensures
        final(bridge).wf(),
        match (scope_code(scopes, ERR_GPU), mapped) {
            (Some(code), _) => data == Err::<Vec<u8>, i32>(code) && final(bridge)@ == old(bridge)@,
            (None, None) => data == Err::<Vec<u8>, i32>(ERR_GPU) && final(bridge)@ == old(bridge)@,
            (None, Some(bytes)) => {
                &&& data == (if env.memory is Some {
                    Ok::<Vec<u8>, i32>(bytes)
                } else {
                    Err::<Vec<u8>, i32>(ERR_RANGE)
                })
                &&& final(bridge)@ == old(bridge)@.with_readback_time(elapsed)
            },
        },
        import_step(env.session@, old(bridge)@, env.session@, final(bridge)@),
{
    let ghost b0 = bridge@;
    let settled = bridge.finish_read_buffer(scopes, mapped, elapsed);
    assert(bridge@ == BridgeView { timing: bridge@.timing, ..b0 });
    match settled {
        Err(code) => Err(code),
        Ok(bytes) => match guest_memory(env) {
            Err(code) => Err(code),
            Ok(_) => Ok(bytes),
        },
    }
}

/// `buffer_read(handle, ptr, len)` from the device on: copies what was read
/// back to the admitted range of guest memory.
pub fn buffer_read_deliver(
    env: &HostEnv,
    bridge: &mut GpuBridge,
    view: Option<&wasmer::MemoryView<'_>>,
    offset: u64,
    scopes: ErrorScopes,
    mapped: Option<Vec<u8>>,
    elapsed: u128,
) -> (status: i32)
    requires
        old(bridge).wf(),
        scopes.clean() && mapped is Some ==> recordable(old(bridge)@.timing.readback, elapsed),
    ensures
        final(bridge).wf(),
        match (scope_code(scopes, ERR_GPU), mapped) {
            (Some(code), _) => status == code && final(bridge)@ == old(bridge)@,
            (None, None) => status == ERR_GPU && final(bridge)@ == old(bridge)@,
            (None, Some(bytes)) => {
                &&& status == (if env.memory is Some && view is Some && in_memory(
                    span(view),
                    offset,
                    bytes@.len() as int,
                ) {
                    SUCCESS
                } else {
                    ERR_RANGE
                })
                &&& status == SUCCESS ==> seen(view, offset as int, bytes@)
                &&& final(bridge)@ == old(bridge)@.with_readback_time(elapsed)
            },
        },
        import_step(env.session@, old(bridge)@, env.session@, final(bridge)@),
{
    let bytes = match buffer_read_finish(env, bridge, scopes, mapped, elapsed) {
        Ok(bytes) => bytes,
        Err(code) => {
            return code;
        },
    };
    match view {
        None => ERR_RANGE,
        Some(view) => copy_status(write_bytes(view, offset, bytes.as_slice())),
    }
}

// ---------------------------------------------------------------------------
// buffer_write
// ---------------------------------------------------------------------------

/// What `buffer_write(handle, offset, ptr, len)` reads from guest memory and
/// where in the buffer it goes, or why not.
pub open spec fn write_plan(
    bound: bool,
    session: SessionView,
    handle: i32,
    offset: i32,
    ptr: i32,
    len: i32,
) -> Result<(MemoryRange, usize), i32> {
    if !transfer_len_ok(unsigned(len)) || unsigned(offset) % TRANSFER_ALIGNMENT as int != 0 {
        Err(ERR_RANGE)
    } else if !session.buffers.contains_key(handle) {
        Err(ERR_HANDLE)
    } else if !bound {
        Err(ERR_RANGE)
    } else {
        Ok(
            (
                MemoryRange { offset: unsigned(ptr) as u64, len: unsigned(len) as usize },
                unsigned(offset) as usize,
            ),
        )
    }
}

/// The guest memory to read, and the buffer offset to write it to, when a
/// guest refreshes part of a GPU-resident buffer (a minibatch, a parameter
/// block) without reallocating it. Same alignment and range rules as upload.
pub fn write_range(env: &HostEnv, handle: i32, offset: i32, ptr: i32, len: i32) -> (plan: Result<
    (MemoryRange, usize),
    i32,
>)
    ensures
        plan == write_plan(env.memory is Some, env.session@, handle, offset, ptr, len),
{
    match guest_transfer_range(ptr, len) {
        Err(code) => Err(code),
        Ok((start, bytes)) => {
            let offset: usize = wasm_u32(offset) as usize;
            if offset % TRANSFER_ALIGNMENT != 0 {
                return Err(ERR_RANGE);
            }
            if !env.session.owns_buffer(handle) {
                return Err(ERR_HANDLE);
            }
            match guest_memory(env) {
                Err(code) => Err(code),
                Ok(_) => Ok((MemoryRange { offset: start, len: bytes }, offset)),
            }
        },
    }
}

/// Takes the bytes that were read, and hands them on when they end inside the
/// buffer.
pub fn buffer_write_admit(
    bridge: &GpuBridge,
    handle: i32,
    offset: usize,
    read: Result<Vec<u8>, i32>,
) -> (contents: Result<Vec<u8>, i32>)
    ensures
        contents == (match read {
            Err(code) => Err::<Vec<u8>, i32>(code),
            Ok(bytes) => match bridge@.write_error(handle, offset as int, bytes@.len() as int) {
                Some(code) => Err(code),
                None => Ok(bytes),
            },
        }),
{
    match read {
        Err(code) => Err(code),
        Ok(bytes) => match bridge.write_buffer(handle, offset, bytes.len()) {
            Err(code) => Err(code),
            Ok(_) => Ok(bytes),
        },
    }
}

/// Why `buffer_write(handle, offset, ptr, len)` does not reach the device, if it
/// does not.
pub open spec fn write_refusal(
    bound: bool,
    size: u64,
    session: SessionView,
    bridge: BridgeView,
    handle: i32,
    offset: i32,
    ptr: i32,
    len: i32,
) -> Option<i32> {
    match write_plan(bound, session, handle, offset, ptr, len) {
        Err(code) => Some(code),
        Ok((range, at)) => if !in_memory(size, range.offset, range.len as int) {
            Some(ERR_RANGE)
        } else {
            bridge.write_error(handle, at as int, range.len as int)
        },
    }
}

/// `buffer_write(handle, offset, ptr, len)` up to the device: where in the
/// buffer to write what, or the status that the guest gets instead.
pub fn buffer_write(
    env: &HostEnv,
    bridge: &GpuBridge,
    view: Option<&wasmer::MemoryView<'_>>,
    handle: i32,
    offset: i32,
    ptr: i32,
    len: i32,
) -> (contents: Result<(usize, Vec<u8>), i32>)
    ensures
        match contents {
            Ok((at, bytes)) => write_refusal(
                env.memory is Some && view is Some,
                span(view),
                env.session@,
                bridge@,
                handle,
                offset,
                ptr,
                len,
            ) is None && at == unsigned(offset) && bytes@.len() == unsigned(len) && seen(
                view,
                unsigned(ptr),
                bytes@,
            ),
            Err(code) => write_refusal(
                env.memory is Some && view is Some,
                span(view),
                env.session@,
                bridge@,
                handle,
                offset,
                ptr,
                len,
            ) == Some(code),
        },
{
    let (range, at) = match write_range(env, handle, offset, ptr, len) {
        Ok(plan) => plan,
        Err(code) => {
            return Err(code);
        },
    };
    match view {
        None => Err(ERR_RANGE),
        Some(view) => {
            let read = read_bytes(view, range.offset, range.len);
            match buffer_write_admit(bridge, handle, at, read) {
                Ok(bytes) => Ok((at, bytes)),
                Err(code) => Err(code),
            }
        },
    }
}

/// Settles an admitted write.
pub fn buffer_write_finish(
    env: &HostEnv,
    bridge: &mut GpuBridge,
    scopes: ErrorScopes,
    elapsed: u128,
) -> (status: i32)
    requires
        old(bridge).wf(),
        scopes.clean() ==> recordable(old(bridge)@.timing.upload, elapsed),
    ensures
        final(bridge).wf(),
        match scope_code(scopes, ERR_GPU) {
            Some(code) => status == code && final(bridge)@ == old(bridge)@,
            None => status == SUCCESS && final(bridge)@ == old(bridge)@.with_upload_time(elapsed),
        },
        import_step(env.session@, old(bridge)@, env.session@, final(bridge)@),
{
    let ghost b0 = bridge@;
    let status: i32 = bridge.finish_write_buffer(scopes, elapsed);
    assert(bridge@ == BridgeView { timing: bridge@.timing, ..b0 });
    status
}

// ---------------------------------------------------------------------------
// buffer_release
// ---------------------------------------------------------------------------

/// Gives a session-owned buffer back. A handle that the session does not own
/// is refused, and neither side changes.
pub fn buffer_release(env: &mut HostEnv, bridge: &mut GpuBridge, handle: i32) -> (status: i32)
    requires
        old(env).session.wf(),
        old(bridge).wf(),
    ensures
        final(env).session.wf(),
        final(bridge).wf(),
        final(env).memory == old(env).memory,
        final(env).session@ == old(env).session@.without_buffer(handle),
        if old(env).session@.buffers.contains_key(handle) {
            &&& status == (if old(bridge)@.buffers.contains_key(handle) {
                SUCCESS
            } else {
                ERR_HANDLE
            })
            &&& final(bridge)@ == old(bridge)@.without_buffer(handle)
        } else {
            &&& status == ERR_HANDLE
            &&& final(env).session@ == old(env).session@
            &&& final(bridge)@ == old(bridge)@
        },
        import_step(old(env).session@, old(bridge)@, final(env).session@, final(bridge)@),
{
    let ghost s0 = env.session@;
    let ghost b0 = bridge@;
    if !env.session.forget_buffer(handle) {
        assert(bridge@ == BridgeView { timing: bridge@.timing, ..b0 });
        return ERR_HANDLE;
    }
    let status: i32 = bridge.release_buffer(handle);
    assert(drops_buffer(s0, b0, env.session@, bridge@, handle));
    status
}

// ---------------------------------------------------------------------------
// pipeline_create
// ---------------------------------------------------------------------------

/// What `pipeline_create(ptr, len)` reads from guest memory, or why not.
pub open spec fn shader_plan(bound: bool, ptr: i32, len: i32) -> Result<MemoryRange, i32> {
    if 0 < unsigned(len) <= MAX_SHADER_BYTES && bound {
        Ok(MemoryRange { offset: unsigned(ptr) as u64, len: unsigned(len) as usize })
    } else {
        Err(ERR_RANGE)
    }
}

/// The guest memory that holds the shader text.
pub fn shader_range(env: &HostEnv, ptr: i32, len: i32) -> (range: Result<MemoryRange, i32>)
    ensures
        range == shader_plan(env.memory is Some, ptr, len),
{
    let bytes: usize = wasm_u32(len) as usize;
    if bytes == 0 || bytes > MAX_SHADER_BYTES {
        return Err(ERR_RANGE);
    }
    match guest_memory(env) {
        Err(code) => Err(code),
        Ok(_) => Ok(MemoryRange { offset: wasm_u32(ptr) as u64, len: bytes }),
    }
}

/// Takes the bytes that were read, and hands them on as text when they are
/// UTF-8 and the session's quota has room for a pipeline. The text check comes
/// first.
pub fn pipeline_create_admit(env: &HostEnv, read: Result<Vec<u8>, i32>) -> (source: Result<
    String,
    i32,
>)
    requires
        env.session.wf(),
    ensures
        match read {
            Err(code) => source == Err::<String, i32>(code),
            Ok(bytes) => if !valid_utf8(bytes@) {
                source == Err::<String, i32>(ERR_SHADER)
            } else if !env.session@.has_pipeline_room() {
                source == Err::<String, i32>(ERR_QUOTA)
            } else {
                source matches Ok(text) && encode_utf8(text@) == bytes@
            },
        },
{
    match read {
        Err(code) => Err(code),
        Ok(bytes) => match std::str::from_utf8(bytes.as_slice()) {
            Err(_) => Err(ERR_SHADER),
            Ok(text) => {
                if env.session.can_allocate_pipeline() {
                    Ok(text.to_owned())
                } else {
                    Err(ERR_QUOTA)
                }
            },
        },
    }
}

/// `pipeline_create(ptr, len)` up to the device: the shader text, or the status
/// that the guest gets instead. What the text says is up to the guest.
pub fn pipeline_create(
    env: &HostEnv,
    view: Option<&wasmer::MemoryView<'_>>,
    ptr: i32,
    len: i32,
) -> (source: Result<String, i32>)
    requires
        env.session.wf(),
    ensures
        ({
            let readable = shader_plan(env.memory is Some && view is Some, ptr, len) matches Ok(
                range,
            ) && in_memory(span(view), range.offset, range.len as int);
            match source {
                Ok(text) => readable && env.session@.has_pipeline_room() && encode_utf8(
                    text@,
                ).len() == unsigned(len) && seen(view, unsigned(ptr), encode_utf8(text@)),
                Err(code) => if !readable {
                    code == ERR_RANGE
                } else {
                    exists|bytes: Seq<u8>| #[trigger]
                        seen(view, unsigned(ptr), bytes) && bytes.len() == unsigned(len)
                            && if valid_utf8(bytes) {
                            code == ERR_QUOTA && !env.session@.has_pipeline_room()
                        } else {
                            code == ERR_SHADER
                        }
                },
            }
        }),
{
    let range = match shader_range(env, ptr, len) {
        Ok(range) => range,
        Err(code) => {
            return Err(code);
        },
    };
    match view {
        None => Err(ERR_RANGE),
        Some(memory) => {
            let read = read_bytes(memory, range.offset, range.len);
            assert(read is Ok ==> seen(view, unsigned(ptr), read->Ok_0@));
            pipeline_create_admit(env, read)
        },
    }
}

/// Settles the creation of an admitted pipeline: the new handle, now owned by
/// the session, or the code of the captured error.
pub fn pipeline_create_finish(
    env: &mut HostEnv,
    bridge: &mut GpuBridge,
    scopes: ErrorScopes,
    elapsed: u128,
) -> (status: i32)
    requires
        old(env).session.wf(),
        old(bridge).wf(),
        owned_live(old(env).session@, old(bridge)@),
        old(env).session@.has_pipeline_room(),
        scopes.clean() ==> old(bridge)@.can_issue() && recordable(
            old(bridge)@.timing.pipeline_create,
            elapsed,
        ),
    ensures
        final(env).session.wf(),
        final(bridge).wf(),
        final(env).memory == old(env).memory,
        match scope_code(scopes, ERR_SHADER) {
            Some(code) => {
                &&& status == code
                &&& final(env).session@ == old(env).session@
                &&& final(bridge)@ == old(bridge)@
            },
            None => {
                &&& status == old(bridge)@.next_handle
                &&& final(env).session@ == old(env).session@.with_pipeline(status)
                &&& final(bridge)@ == old(bridge)@.with_pipeline(elapsed)
            },
        },
        owned_live(final(env).session@, final(bridge)@),
        import_step(old(env).session@, old(bridge)@, final(env).session@, final(bridge)@),
{
    let ghost s0 = env.session@;
    let ghost b0 = bridge@;
    match bridge.finish_create_pipeline(scopes, elapsed) {
        Ok(handle) => {
            env.session.track_pipeline(handle);
            assert(adds_pipeline(s0, b0, env.session@, bridge@, elapsed));
            handle
        },
        Err(code) => {
            assert(bridge@ == BridgeView { timing: bridge@.timing, ..b0 });
            code
        },
    }
}

// ---------------------------------------------------------------------------
// pipeline_dispatch
// ---------------------------------------------------------------------------

/// The workgroups that a dispatch submits, or why it may not.
pub open spec fn dispatch_plan(
    session: SessionView,
    bridge: BridgeView,
    pipeline: i32,
    buffer: i32,
    x: i32,
    y: i32,
    z: i32,
) -> Result<Seq<u32>, i32> {
    if !dispatch_ok(unsigned(x), unsigned(y), unsigned(z)) {
        Err(ERR_RANGE)
    } else if !session.pipelines.contains(pipeline) || !session.buffers.contains_key(buffer) {
        Err(ERR_HANDLE)
    } else {
        match bridge.dispatch_error(pipeline, buffer) {
            Some(code) => Err(code),
            None => Ok(seq![unsigned(x) as u32, unsigned(y) as u32, unsigned(z) as u32]),
        }
    }
}

/// Admits a dispatch of a session-owned pipeline over a session-owned buffer.
pub fn pipeline_dispatch(
    env: &HostEnv,
    bridge: &GpuBridge,
    pipeline: i32,
    buffer: i32,
    x: i32,
    y: i32,
    z: i32,
) -> (dims: Result<[u32; 3], i32>)
    ensures
        match dims {
            Ok(dims) => dispatch_plan(env.session@, bridge@, pipeline, buffer, x, y, z) == Ok::<
                Seq<u32>,
                i32,
            >(dims@),
            Err(code) => dispatch_plan(env.session@, bridge@, pipeline, buffer, x, y, z) == Err::<
                Seq<u32>,
                i32,
            >(code),
        },
        dims matches Ok(dims) ==> dims@[0] as int == unsigned(x) && dims@[1] as int == unsigned(y)
            && dims@[2] as int == unsigned(z),
{
    match dispatch_dims(x, y, z) {
        Err(code) => Err(code),
        Ok(dims) => {
            if !env.session.owns_pipeline(pipeline) || !env.session.owns_buffer(buffer) {
                return Err(ERR_HANDLE);
            }
            match bridge.dispatch(pipeline, buffer) {
                Err(code) => Err(code),
                Ok(_) => Ok(dims),
            }
        },
    }
}

/// Settles an admitted dispatch.
pub fn pipeline_dispatch_finish(
    env: &HostEnv,
    bridge: &mut GpuBridge,
    scopes: ErrorScopes,
    elapsed: u128,
) -> (status: i32)
    requires
        old(bridge).wf(),
    ensures
        final(bridge).wf(),
        match scope_code(scopes, ERR_GPU) {
            Some(code) => status == code && final(bridge)@ == old(bridge)@,
            None => status == SUCCESS && final(bridge)@ == old(bridge)@.with_dispatch_time(elapsed),
        },
        import_step(env.session@, old(bridge)@, env.session@, final(bridge)@),
{
    let ghost b0 = bridge@;
    let status: i32 = bridge.finish_dispatch(scopes, elapsed);
    assert(bridge@ == BridgeView { timing: bridge@.timing, ..b0 });
    status
}

// ---------------------------------------------------------------------------
// pipeline_release
// ---------------------------------------------------------------------------

/// Gives a session-owned pipeline back. A handle that the session does not own
/// is refused, and neither side changes.
pub fn pipeline_release(env: &mut HostEnv, bridge: &mut GpuBridge, handle: i32) -> (status: i32)
    requires
        old(env).session.wf(),
        old(bridge).wf(),
    ensures
        final(env).session.wf(),
        final(bridge).wf(),
        final(env).memory == old(env).memory,
        final(env).session@ == old(env).session@.without_pipeline(handle),
        if old(env).session@.pipelines.contains(handle) {
            &&& status == (if old(bridge)@.pipelines.contains(handle) {
                SUCCESS
            } else {
                ERR_HANDLE
            })
            &&& final(bridge)@ == old(bridge)@.without_pipeline(handle)
        } else {
            &&& status == ERR_HANDLE
            &&& final(env).session@ == old(env).session@
            &&& final(bridge)@ == old(bridge)@
        },
        import_step(old(env).session@, old(bridge)@, final(env).session@, final(bridge)@),
{
    let ghost s0 = env.session@;
    let ghost b0 = bridge@;
    if !env.session.forget_pipeline(handle) {
        assert(bridge@ == BridgeView { timing: bridge@.timing, ..b0 });
        return ERR_HANDLE;
    }
    let status: i32 = bridge.release_pipeline(handle);
    assert(drops_pipeline(s0, b0, env.session@, bridge@, handle));
    status
}

// ---------------------------------------------------------------------------
// What holds across calls
// ---------------------------------------------------------------------------

/// An admitted buffer appears on both sides under the next handle.
pub open spec fn adds_buffer(
    s0: SessionView,
    b0: BridgeView,
    s1: SessionView,
    b1: BridgeView,
    len: usize,
    elapsed: u128,
) -> bool {
    &&& s0.has_room(len as int)
    &&& b0.can_issue()
    &&& s1 == s0.with_buffer(b0.next_handle, len)
    &&& b1 == b0.with_buffer(len, elapsed)
}

/// An admitted pipeline appears on both sides under the next handle.
pub open spec fn adds_pipeline(
    s0: SessionView,
    b0: BridgeView,
    s1: SessionView,
    b1: BridgeView,
    elapsed: u128,
) -> bool {
    &&& s0.has_pipeline_room()
    &&& b0.can_issue()
    &&& s1 == s0.with_pipeline(b0.next_handle)
    &&& b1 == b0.with_pipeline(elapsed)
}

/// An owned buffer disappears on both sides.
pub open spec fn drops_buffer(
    s0: SessionView,
    b0: BridgeView,
    s1: SessionView,
    b1: BridgeView,
    handle: i32,
) -> bool {
    &&& s0.buffers.contains_key(handle)
    &&& s1 == s0.without_buffer(handle)
    &&& b1 == b0.without_buffer(handle)
}

/// An owned pipeline disappears on both sides.
pub open spec fn drops_pipeline(
    s0: SessionView,
    b0: BridgeView,
    s1: SessionView,
    b1: BridgeView,
    handle: i32,
) -> bool {
    &&& s0.pipelines.contains(handle)
    &&& s1 == s0.without_pipeline(handle)
    &&& b1 == b0.without_pipeline(handle)
}

/// Everything that one import call of a session can do to the session and to
/// the bridge.
pub open spec fn import_step(
    s0: SessionView,
    b0: BridgeView,
    s1: SessionView,
    b1: BridgeView,
) -> bool {
    ||| s1 == s0 && b1 == BridgeView { timing: b1.timing, ..b0 }
    ||| exists|len: usize, elapsed: u128| #[trigger] adds_buffer(s0, b0, s1, b1, len, elapsed)
    ||| exists|elapsed: u128| #[trigger] adds_pipeline(s0, b0, s1, b1, elapsed)
    ||| exists|handle: i32| #[trigger] drops_buffer(s0, b0, s1, b1, handle)
    ||| exists|handle: i32| #[trigger] drops_pipeline(s0, b0, s1, b1, handle)
}

} // verus!
