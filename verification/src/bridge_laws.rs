//! What the bridge does with a guest's numbers, said in terms of those numbers
//! alone.
use crate::abi::{
    dispatch_ok, in_memory, transfer_len_ok, unsigned, uses_bridge, HostImport, ERR_GPU,
    ERR_HANDLE, ERR_QUOTA, ERR_RANGE, ERR_SHADER, SUCCESS,
};
use crate::device::{micros, recordable, scope_code, BridgeView, ErrorScopes, TimingView};
use crate::guest::{end_of, CallOutcome, GuestEnd, GuestRuntime};
use crate::hook::memory_choice;
use crate::host::{
    dispatch_plan, read_refusal, seen, shader_plan, span, upload_plan, upload_refusal,
    write_refusal,
};
use crate::linking::{import_key, HostFunctions};
use crate::memory::{held, memory_size};
use crate::session::{
    default_limits, lemma_total_bytes_insert, total_bytes, SessionLimits, SessionView,
};
use vstd::prelude::*;

verus! {

/// Guest numbers are read modulo 2^32: the value lies in that range and differs
/// from the carried number by a multiple of it.
pub proof fn law_unsigned_is_modular(value: i32)
    ensures
        0 <= unsigned(value) < 0x1_0000_0000,
        (unsigned(value) - value) % 0x1_0000_0000 == 0,
        value >= 0 <==> unsigned(value) < 0x8000_0000,
{
}

/// A transfer is a positive number of 32-bit words.
pub proof fn law_transfers_are_whole_words(words: int)
    ensures
        transfer_len_ok(4 * words) <==> words >= 1,
        !transfer_len_ok(4 * words + 1),
        !transfer_len_ok(4 * words + 2),
        !transfer_len_ok(4 * words + 3),
{
}

/// A range lies in memory just where its first byte does, or the end of memory
/// if it is empty, and its last byte does.
pub proof fn law_ranges_end_in_memory(size: u64, offset: u64, len: int)
    requires
        0 <= len,
    ensures
        len == 0 ==> (in_memory(size, offset, len) <==> offset <= size),
        len > 0 ==> (in_memory(size, offset, len) <==> forall|i: int|
            0 <= i < len ==> #[trigger] (offset + i) < size),
{
    if len > 0 && (forall|i: int| 0 <= i < len ==> #[trigger] (offset + i) < size) {
        assert(offset + (len - 1) < size);
    }
}

/// The codes that a guest tells apart.
pub proof fn law_status_codes()
    ensures
        SUCCESS == 0,
        ERR_RANGE == -1,
        ERR_HANDLE == -2,
        ERR_GPU == -3,
        ERR_QUOTA == -4,
        ERR_SHADER == -5,
{
}

/// A dispatch takes at least one workgroup and at most 65535 in each dimension,
/// and at most 65536 in all; the dimensions can be exchanged.
pub proof fn law_dispatch_bounds(x: int, y: int, z: int)
    ensures
        dispatch_ok(x, y, z) ==> 1 <= x <= 65535 && 1 <= y <= 65535 && 1 <= z <= 65535 && x * y * z
            <= 65536,
        1 <= x < 65536 && 1 <= y < 65536 && 1 <= z < 65536 && x * y * z <= 65536 ==> dispatch_ok(
            x,
            y,
            z,
        ),
        dispatch_ok(x, y, z) == dispatch_ok(y, x, z),
        dispatch_ok(x, y, z) == dispatch_ok(x, z, y),
        dispatch_ok(x, 1, 1) <==> 1 <= x <= 65535,
{
    assert(x * y * z == y * x * z && x * y * z == x * z * y && x * 1 * 1 == x)
        by (nonlinear_arith);
}

/// A dispatch that is admitted hands the device exactly the workgroups that the
/// guest asked for, in their order. It is admitted just where the dimensions are
/// in bounds, the session owns both handles, and both are live.
pub proof fn law_dispatches_are_handed_on(
    session: SessionView,
    bridge: BridgeView,
    pipeline: i32,
    buffer: i32,
    x: i32,
    y: i32,
    z: i32,
)
    ensures
        match dispatch_plan(session, bridge, pipeline, buffer, x, y, z) {
            Ok(dims) => {
                &&& dims.len() == 3
                &&& dims[0] as int == unsigned(x)
                &&& dims[1] as int == unsigned(y)
                &&& dims[2] as int == unsigned(z)
            },
            Err(code) => code == ERR_RANGE || code == ERR_HANDLE,
        },
        dispatch_plan(session, bridge, pipeline, buffer, x, y, z) is Ok <==> {
            &&& dispatch_ok(unsigned(x), unsigned(y), unsigned(z))
            &&& session.pipelines.contains(pipeline) && bridge.pipelines.contains(pipeline)
            &&& session.buffers.contains_key(buffer) && bridge.buffers.contains_key(buffer)
        },
        dispatch_plan(session, bridge, pipeline, buffer, x, y, z) == Err::<Seq<u32>, i32>(ERR_RANGE)
            <==> !dispatch_ok(unsigned(x), unsigned(y), unsigned(z)),
{
}

/// What stood at a pointer is what stood at that place of the view.
pub proof fn law_seen_is_held(view: Option<&wasmer::MemoryView<'_>>, offset: u64, bytes: Seq<u8>)
    ensures
        view matches Some(memory) ==> (seen(view, offset as int, bytes) <==> held(
            *memory,
            offset,
            bytes,
        )) && span(view) == memory_size(*memory),
        view is None ==> !seen(view, offset as int, bytes) && span(view) == 0,
{
}

/// An upload reaches the device just where its length is a positive number of
/// words, there is a memory that it lies in, and the session may hold one more
/// buffer and that many more bytes. A range is refused before a quota.
pub proof fn law_uploads_are_bounded(
    bound: bool,
    size: u64,
    session: SessionView,
    ptr: i32,
    len: i32,
)
    ensures
        ({
            let ranged = bound && unsigned(len) >= 1 && unsigned(len) % 4 == 0 && unsigned(ptr)
                + unsigned(len) <= size;
            let room = session.buffers.dom().len() + 1 <= session.limits.max_buffers
                && total_bytes(session.buffers) + unsigned(len) <= session.limits.max_bytes;
            let refusal = upload_refusal(bound, size, session, ptr, len);
            &&& refusal is None <==> ranged && room
            &&& refusal == Some(ERR_RANGE) <==> !ranged
            &&& refusal == Some(ERR_QUOTA) <==> ranged && !room
        }),
        upload_plan(bound, ptr, len) matches Ok(range) ==> range.offset == unsigned(ptr)
            && range.len == unsigned(len),
{
}

/// A readback reaches the device just where its length is a positive number of
/// words within the session's own live buffer, and it lies in guest memory.
pub proof fn law_readbacks_are_bounded(
    bound: bool,
    size: u64,
    session: SessionView,
    bridge: BridgeView,
    handle: i32,
    ptr: i32,
    len: i32,
)
    ensures
        ({
            let whole = unsigned(len) >= 1 && unsigned(len) % 4 == 0;
            let owned = session.buffers.contains_key(handle) && bridge.buffers.contains_key(handle);
            let refusal = read_refusal(bound, size, session, bridge, handle, ptr, len);
            &&& refusal is None <==> whole && owned && unsigned(len) <= bridge.buffers[handle]
                && bound && unsigned(ptr) + unsigned(len) <= size
            &&& refusal == Some(ERR_HANDLE) <==> whole && !owned
            &&& refusal is Some ==> refusal == Some(ERR_HANDLE) || refusal == Some(ERR_RANGE)
        }),
{
}

/// A write reaches the device just where its length is a positive number of
/// words, its offset a number of words, and it ends inside the session's own
/// live buffer and comes from guest memory.
pub proof fn law_writes_are_bounded(
    bound: bool,
    size: u64,
    session: SessionView,
    bridge: BridgeView,
    handle: i32,
    offset: i32,
    ptr: i32,
    len: i32,
)
    ensures
        ({
            let whole = unsigned(len) >= 1 && unsigned(len) % 4 == 0 && unsigned(offset) % 4 == 0;
            let ranged = bound && unsigned(ptr) + unsigned(len) <= size;
            let refusal = write_refusal(bound, size, session, bridge, handle, offset, ptr, len);
            &&& refusal is None <==> whole && ranged && session.buffers.contains_key(handle)
                && bridge.buffers.contains_key(handle) && unsigned(offset) + unsigned(len)
                <= bridge.buffers[handle]
            &&& refusal == Some(ERR_HANDLE) <==> whole && (!session.buffers.contains_key(handle)
                || ranged && !bridge.buffers.contains_key(handle))
            &&& refusal is Some ==> refusal == Some(ERR_HANDLE) || refusal == Some(ERR_RANGE)
        }),
{
}

/// A shader text is read just where it has 1 to 16384 bytes and there is a
/// memory, and it is read from where the guest says.
pub proof fn law_shaders_are_bounded(bound: bool, ptr: i32, len: i32)
    ensures
        match shader_plan(bound, ptr, len) {
            Ok(range) => bound && 1 <= unsigned(len) <= 16384 && range.offset == unsigned(ptr)
                && range.len == unsigned(len),
            Err(code) => code == ERR_RANGE && !(bound && 1 <= unsigned(len) <= 16384),
        },
{
}

/// There is room for a buffer or a pipeline just where the session still keeps
/// its limits with it.
pub proof fn law_room_is_what_the_limits_leave(session: SessionView, handle: i32, len: usize)
    requires
        session.within_limits(),
        !session.buffers.contains_key(handle),
        !session.pipelines.contains(handle),
    ensures
        session.has_room(len as int) <==> session.with_buffer(handle, len).within_limits(),
        session.has_pipeline_room() <==> session.with_pipeline(handle).within_limits(),
        session.has_room(len as int) <==> session.buffers.dom().len() + 1
            <= session.limits.max_buffers && total_bytes(session.buffers) + len
            <= session.limits.max_bytes,
        session.has_pipeline_room() <==> session.pipelines.len() + 1
            <= session.limits.max_pipelines,
{
    lemma_total_bytes_insert(session.buffers, handle, len);
    assert(session.buffers.insert(handle, len).dom() =~= session.buffers.dom().insert(handle));
}

/// Bytes are counted buffer by buffer: none for none, and a new buffer adds its
/// length to what the others hold.
pub proof fn law_bytes_are_counted_by_buffer(buffers: Map<i32, usize>, handle: i32, len: usize)
    requires
        buffers.dom().finite(),
        !buffers.contains_key(handle),
    ensures
        total_bytes(Map::empty()) == 0,
        total_bytes(buffers.insert(handle, len)) == total_bytes(buffers) + len,
        total_bytes(map![handle => len]) == len,
{
    lemma_total_bytes_insert(buffers, handle, len);
    lemma_total_bytes_insert(Map::<i32, usize>::empty(), handle, len);
    assert(map![handle => len] =~= Map::<i32, usize>::empty().insert(handle, len));
}

/// A session starts with nothing, whatever its limits; without any it may hold
/// eight buffers, a mebibyte and four pipelines.
pub proof fn law_sessions_start_empty(limits: SessionLimits)
    ensures
        SessionView::fresh(limits).buffers == Map::<i32, usize>::empty(),
        SessionView::fresh(limits).pipelines == Set::<i32>::empty(),
        SessionView::fresh(limits).limits == limits,
        SessionView::fresh(limits).within_limits(),
        default_limits().max_buffers == 8,
        default_limits().max_bytes == 1024 * 1024,
        default_limits().max_pipelines == 4,
{
    law_bytes_are_counted_by_buffer(Map::empty(), 0, 0);
}

/// Ownership changes for the one handle that is named and for no other.
pub proof fn law_ownership_changes_one_handle(
    session: SessionView,
    handle: i32,
    len: usize,
    other: i32,
)
    requires
        other != handle,
    ensures
        session.with_buffer(handle, len).buffers.contains_key(handle),
        session.with_buffer(handle, len).buffers[handle] == len,
        session.with_buffer(handle, len).pipelines == session.pipelines,
        session.with_buffer(handle, len).limits == session.limits,
        session.with_buffer(handle, len).buffers.contains_key(other)
            == session.buffers.contains_key(other),
        session.buffers.contains_key(other) ==> session.with_buffer(handle, len).buffers[other]
            == session.buffers[other],
        !session.without_buffer(handle).buffers.contains_key(handle),
        session.without_buffer(handle).buffers.contains_key(other) == session.buffers.contains_key(
            other,
        ),
        session.buffers.contains_key(other) ==> session.without_buffer(handle).buffers[other]
            == session.buffers[other],
        session.without_buffer(handle).pipelines == session.pipelines,
        session.with_pipeline(handle).pipelines.contains(handle),
        session.with_pipeline(handle).pipelines.contains(other) == session.pipelines.contains(
            other,
        ),
        session.with_pipeline(handle).buffers == session.buffers,
        !session.without_pipeline(handle).pipelines.contains(handle),
        session.without_pipeline(handle).pipelines.contains(other) == session.pipelines.contains(
            other,
        ),
        session.without_pipeline(handle).buffers == session.buffers,
{
}

/// The bridge's buffers and pipelines change for the one handle that is named.
pub proof fn law_liveness_changes_one_handle(
    bridge: BridgeView,
    len: usize,
    elapsed: u128,
    handle: i32,
    other: i32,
)
    requires
        other != handle,
        bridge.can_issue(),
    ensures
        ({
            let uploaded = bridge.with_buffer(len, elapsed);
            let created = bridge.with_pipeline(elapsed);
            let new = bridge.next_handle;
            &&& uploaded.next_handle == new + 1
            &&& uploaded.buffers.contains_key(new) && uploaded.buffers[new] == len
            &&& other != new ==> uploaded.buffers.contains_key(other)
                == bridge.buffers.contains_key(other)
            &&& other != new && bridge.buffers.contains_key(other) ==> uploaded.buffers[other]
                == bridge.buffers[other]
            &&& uploaded.pipelines == bridge.pipelines
            &&& created.next_handle == new + 1
            &&& created.pipelines.contains(new)
            &&& other != new ==> created.pipelines.contains(other) == bridge.pipelines.contains(
                other,
            )
            &&& created.buffers == bridge.buffers
        }),
        !bridge.without_buffer(handle).buffers.contains_key(handle),
        bridge.without_buffer(handle).buffers.contains_key(other) == bridge.buffers.contains_key(
            other,
        ),
        bridge.without_buffer(handle).pipelines == bridge.pipelines,
        bridge.without_buffer(handle).next_handle == bridge.next_handle,
        !bridge.without_pipeline(handle).pipelines.contains(handle),
        bridge.without_pipeline(handle).pipelines.contains(other) == bridge.pipelines.contains(
            other,
        ),
        bridge.without_pipeline(handle).buffers == bridge.buffers,
        bridge.without_pipeline(handle).next_handle == bridge.next_handle,
{
}

/// A bridge starts with nothing live, nothing recorded and handle 1. Issuing a
/// handle, and the end of a resource, leave everything else as it is, and the
/// end of a session ends what the session owns and nothing else.
pub proof fn law_bridge_keeps_the_rest(
    bridge: BridgeView,
    session: SessionView,
    handle: i32,
    other: i32,
    name: Seq<char>,
    backend: Seq<char>,
)
    requires
        other != handle,
    ensures
        ({
            let fresh = BridgeView::fresh(name, backend);
            &&& fresh.adapter_name == name && fresh.backend == backend
            &&& fresh.next_handle == 1
            &&& fresh.buffers == Map::<i32, usize>::empty()
            &&& fresh.pipelines == Set::<i32>::empty()
            &&& fresh.timing == TimingView::zero()
        }),
        bridge.can_issue() <==> bridge.next_handle < 0x7fff_ffff,
        bridge.can_issue() ==> bridge.with_handle_issued() == (BridgeView {
            next_handle: (1 + bridge.next_handle) as i32,
            ..bridge
        }),
        bridge.without_buffer(handle).timing == bridge.timing,
        bridge.without_pipeline(handle).timing == bridge.timing,
        bridge.buffers.contains_key(other) ==> bridge.without_buffer(handle).buffers[other]
            == bridge.buffers[other],
        ({
            let left = bridge.without_session(session);
            &&& left.buffers.contains_key(other) <==> bridge.buffers.contains_key(other)
                && !session.buffers.contains_key(other)
            &&& left.buffers.contains_key(other) ==> left.buffers[other] == bridge.buffers[other]
            &&& left.pipelines.contains(other) <==> bridge.pipelines.contains(other)
                && !session.pipelines.contains(other)
            &&& left.timing == bridge.timing && left.next_handle == bridge.next_handle
            &&& left.adapter_name == bridge.adapter_name && left.backend == bridge.backend
        }),
{
}

/// Time that can be recorded is added to its own account, and to no other; a
/// dispatch is recorded as one more sample behind the others.
pub proof fn law_time_goes_to_its_account(bridge: BridgeView, len: usize, elapsed: u128)
    ensures
        ({
            let before = bridge.timing;
            let upload = bridge.with_buffer(len, elapsed).timing;
            let create = bridge.with_pipeline(elapsed).timing;
            let write = bridge.with_upload_time(elapsed).timing;
            let dispatch = bridge.with_dispatch_time(elapsed).timing;
            let read = bridge.with_readback_time(elapsed).timing;
            &&& recordable(before.upload, elapsed) ==> upload.upload - before.upload == elapsed
            &&& upload.pipeline_create == before.pipeline_create && upload.readback
                == before.readback && upload.dispatches == before.dispatches
            &&& write == upload
            &&& recordable(before.pipeline_create, elapsed) ==> create.pipeline_create
                - before.pipeline_create == elapsed
            &&& create.upload == before.upload && create.readback == before.readback
                && create.dispatches == before.dispatches
            &&& dispatch.dispatches.len() == before.dispatches.len() + 1
            &&& dispatch.dispatches.last() == elapsed
            &&& dispatch.dispatches.drop_last() == before.dispatches
            &&& dispatch.upload == before.upload && dispatch.pipeline_create
                == before.pipeline_create && dispatch.readback == before.readback
            &&& recordable(before.readback, elapsed) ==> read.readback - before.readback == elapsed
            &&& read.upload == before.upload && read.pipeline_create == before.pipeline_create
                && read.dispatches == before.dispatches
        }),
        TimingView::zero().upload == 0,
        TimingView::zero().pipeline_create == 0,
        TimingView::zero().readback == 0,
        TimingView::zero().dispatches.len() == 0,
{
    assert(bridge.timing.dispatches.push(elapsed).drop_last() =~= bridge.timing.dispatches);
}

/// A duration holds up to 2^64 - 1 seconds and 999999999 nanoseconds.
pub proof fn law_recordable_time(total: u128, elapsed: u128)
    ensures
        recordable(total, elapsed) <==> (total + elapsed) / 1_000_000_000
            <= 0xffff_ffff_ffff_ffff,
{
}

/// Microseconds are nanoseconds rounded down, sample by sample.
pub proof fn law_micros_round_down(samples: Seq<u128>, i: int)
    requires
        0 <= i < samples.len(),
    ensures
        micros(samples).len() == samples.len(),
        1000 * micros(samples)[i] <= samples[i] < 1000 * micros(samples)[i] + 1000,
{
}

/// An allocation failure is a device error whatever else was captured; a
/// validation failure alone gets the code that was asked for; no failure, none.
pub proof fn law_captured_errors(validation: bool, code: i32)
    ensures
        scope_code(ErrorScopes { out_of_memory: true, validation }, code) == Some(ERR_GPU),
        scope_code(ErrorScopes { out_of_memory: false, validation: true }, code) == Some(code),
        scope_code(ErrorScopes { out_of_memory: false, validation: false }, code) is None,
{
}

/// A module uses the bridge just where one of its imports comes from the
/// namespace, under whatever name.
pub proof fn law_bridge_use_is_any_import(
    a: Seq<(Seq<char>, Seq<char>)>,
    b: Seq<(Seq<char>, Seq<char>)>,
    module: Seq<char>,
    name: Seq<char>,
)
    ensures
        uses_bridge(a + b) == (uses_bridge(a) || uses_bridge(b)),
        uses_bridge(seq![(module, name)]) <==> module == "wasmer_gpu_v0"@,
        !uses_bridge(Seq::empty()),
{
    let both = a + b;
    if uses_bridge(a) {
        let i = choose|i: int|
            0 <= i < a.len() && (#[trigger] a[i]).0 == crate::abi::NAMESPACE@;
        assert(both[i] == a[i]);
    }
    if uses_bridge(b) {
        let i = choose|i: int|
            0 <= i < b.len() && (#[trigger] b[i]).0 == crate::abi::NAMESPACE@;
        assert(both[a.len() + i] == b[i]);
    }
    if uses_bridge(both) {
        let i = choose|i: int|
            0 <= i < both.len() && (#[trigger] both[i]).0 == crate::abi::NAMESPACE@;
        if i < a.len() {
            assert(a[i] == both[i]);
        } else {
            assert(b[i - a.len()] == both[i]);
        }
    }
    let one = seq![(module, name)];
    assert(one[0] == (module, name));
}

/// The names under which guests import the host functions.
pub proof fn law_import_names(import: HostImport)
    ensures
        import.spec_name() == "buffer_upload"@ <==> import is BufferUpload,
        import.spec_name() == "buffer_read"@ <==> import is BufferRead,
        import.spec_name() == "buffer_write"@ <==> import is BufferWrite,
        import.spec_name() == "buffer_release"@ <==> import is BufferRelease,
        import.spec_name() == "pipeline_create"@ <==> import is PipelineCreate,
        import.spec_name() == "pipeline_dispatch"@ <==> import is PipelineDispatch,
        import.spec_name() == "pipeline_release"@ <==> import is PipelineRelease,
{
    reveal_strlit("buffer_upload");
    reveal_strlit("buffer_read");
    reveal_strlit("buffer_write");
    reveal_strlit("buffer_release");
    reveal_strlit("pipeline_create");
    reveal_strlit("pipeline_dispatch");
    reveal_strlit("pipeline_release");
    assert("buffer_upload"@.len() == 13 && "buffer_read"@.len() == 11 && "buffer_write"@.len() == 12
        && "buffer_release"@.len() == 14 && "pipeline_create"@.len() == 15
        && "pipeline_dispatch"@.len() == 17 && "pipeline_release"@.len() == 16);
}

/// Every import stands in the bridge's namespace for the function of its name.
pub proof fn law_functions_behind_imports(functions: HostFunctions, import: HostImport)
    ensures
        import_key(import).0 == "wasmer_gpu_v0"@,
        import_key(import).1 == import.spec_name(),
        functions.of(HostImport::BufferUpload) == functions.buffer_upload,
        functions.of(HostImport::BufferRead) == functions.buffer_read,
        functions.of(HostImport::BufferWrite) == functions.buffer_write,
        functions.of(HostImport::BufferRelease) == functions.buffer_release,
        functions.of(HostImport::PipelineCreate) == functions.pipeline_create,
        functions.of(HostImport::PipelineDispatch) == functions.pipeline_dispatch,
        functions.of(HostImport::PipelineRelease) == functions.pipeline_release,
{
}

/// A guest's memory is the imported one wherever there is one.
pub proof fn law_imported_memory_comes_first(
    memory: wasmer::Memory,
    other: Option<wasmer::Memory>,
)
    ensures
        memory_choice(Some(memory), other) == Some(memory),
        memory_choice(None, other) == other,
{
}

/// A core guest's status is what it returns; a WASIX guest's is its exit code,
/// or success where it just returns. Nothing else is a status.
pub proof fn law_guest_status(value: i32, capture: bool)
    ensures
        end_of(GuestRuntime::Core, CallOutcome::Returned(value), capture) == Some(
            GuestEnd { status: Some(value), trapped: false },
        ),
        end_of(GuestRuntime::Wasix, CallOutcome::Exited(value), capture) == Some(
            GuestEnd { status: Some(value), trapped: false },
        ),
        end_of(GuestRuntime::Wasix, CallOutcome::Returned(value), capture) == Some(
            GuestEnd { status: Some(0), trapped: false },
        ),
        end_of(GuestRuntime::Core, CallOutcome::Trapped, true) == Some(
            GuestEnd { status: None, trapped: true },
        ),
        end_of(GuestRuntime::Wasix, CallOutcome::Trapped, true) == Some(
            GuestEnd { status: None, trapped: true },
        ),
        end_of(GuestRuntime::Core, CallOutcome::Exited(value), true) == Some(
            GuestEnd { status: None, trapped: true },
        ),
        end_of(GuestRuntime::Core, CallOutcome::Trapped, false) is None,
        end_of(GuestRuntime::Wasix, CallOutcome::Trapped, false) is None,
        end_of(GuestRuntime::Core, CallOutcome::Exited(value), false) is None,
{
}

} // verus!
