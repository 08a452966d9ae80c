//! What a readback returns, over a device that keeps the bytes of every buffer.
//!
//! The device itself is outside: here it is a map from handles to bytes, which
//! an upload fills, a write or a dispatch changes, and a release empties.
use crate::abi::{transfer_len_ok, ERR_GPU, ERR_HANDLE, ERR_RANGE};
use crate::device::{scope_code, BridgeView, ErrorScopes};
use crate::session::SessionView;
use vstd::prelude::*;

verus! {

/// Something that a bridge and its device do together.
pub enum DeviceOp {
    Upload { bytes: Seq<u8>, elapsed: u128 },
    CreatePipeline { elapsed: u128 },
    Write { handle: i32, offset: nat, bytes: Seq<u8>, elapsed: u128 },
    /// The shader leaves `result` in the buffer.
    Dispatch { pipeline: i32, buffer: i32, result: Seq<u8>, elapsed: u128 },
    Read { elapsed: u128 },
    ReleaseBuffer { handle: i32 },
    ReleasePipeline { handle: i32 },
    Close { session: SessionView },
}

/// The bytes with `patch` written over them from `offset` on.
pub open spec fn patched(bytes: Seq<u8>, offset: nat, patch: Seq<u8>) -> Seq<u8> {
    Seq::new(
        bytes.len(),
        |i: int| if offset <= i < offset + patch.len() {
            patch[i - offset]
        } else {
            bytes[i]
        },
    )
}

/// The bridge admits the operation, and the device performs it without error.
pub open spec fn performable(bridge: BridgeView, op: DeviceOp) -> bool {
    match op {
        DeviceOp::Upload { bytes, .. } => bridge.can_issue() && bytes.len() <= usize::MAX,
        DeviceOp::CreatePipeline { .. } => bridge.can_issue(),
        DeviceOp::Write { handle, offset, bytes, .. } => bridge.write_error(
            handle,
            offset as int,
            bytes.len() as int,
        ) is None,
        DeviceOp::Dispatch { pipeline, buffer, result, .. } => bridge.dispatch_error(
            pipeline,
            buffer,
        ) is None && result.len() == bridge.buffers[buffer],
        _ => true,
    }
}

/// The bridge after the operation.
pub open spec fn bridge_after(bridge: BridgeView, op: DeviceOp) -> BridgeView {
    match op {
        DeviceOp::Upload { bytes, elapsed } => bridge.with_buffer(bytes.len() as usize, elapsed),
        DeviceOp::CreatePipeline { elapsed } => bridge.with_pipeline(elapsed),
        DeviceOp::Write { elapsed, .. } => bridge.with_upload_time(elapsed),
        DeviceOp::Dispatch { elapsed, .. } => bridge.with_dispatch_time(elapsed),
        DeviceOp::Read { elapsed } => bridge.with_readback_time(elapsed),
        DeviceOp::ReleaseBuffer { handle } => bridge.without_buffer(handle),
        DeviceOp::ReleasePipeline { handle } => bridge.without_pipeline(handle),
        DeviceOp::Close { session } => bridge.without_session(session),
    }
}

/// What the device holds after the operation.
pub open spec fn contents_after(
    bridge: BridgeView,
    contents: Map<i32, Seq<u8>>,
    op: DeviceOp,
) -> Map<i32, Seq<u8>> {
    match op {
        DeviceOp::Upload { bytes, .. } => contents.insert(bridge.next_handle, bytes),
        DeviceOp::Write { handle, offset, bytes, .. } => contents.insert(
            handle,
            patched(contents[handle], offset, bytes),
        ),
        DeviceOp::Dispatch { buffer, result, .. } => contents.insert(buffer, result),
        DeviceOp::ReleaseBuffer { handle } => contents.remove(handle),
        DeviceOp::Close { session } => contents.remove_keys(session.buffers.dom()),
        _ => contents,
    }
}

/// The operation writes, dispatches over or releases that buffer.
pub open spec fn touches(op: DeviceOp, buffer: i32) -> bool {
    match op {
        DeviceOp::Write { handle, .. } => handle == buffer,
        DeviceOp::Dispatch { buffer: over, .. } => over == buffer,
        DeviceOp::ReleaseBuffer { handle } => handle == buffer,
        DeviceOp::Close { session } => session.buffers.contains_key(buffer),
        _ => false,
    }
}

/// The device holds exactly the live buffers, each in its length.
pub open spec fn keeps(bridge: BridgeView, contents: Map<i32, Seq<u8>>) -> bool {
    &&& contents.dom() == bridge.buffers.dom()
    &&& forall|h: i32| #[trigger]
        bridge.buffers.contains_key(h) ==> contents[h].len() == bridge.buffers[h]
}

/// What a readback of the first `len` bytes comes to: why it is refused, what
/// the device reported, or the bytes.
pub open spec fn read_result(
    bridge: BridgeView,
    contents: Map<i32, Seq<u8>>,
    scopes: ErrorScopes,
    handle: i32,
    len: int,
) -> Result<Seq<u8>, i32> {
    match bridge.read_error(handle, len) {
        Some(code) => Err(code),
        None => match scope_code(scopes, ERR_GPU) {
            Some(code) => Err(code),
            None => Ok(contents[handle].take(len)),
        },
    }
}

/// A run of operations: the bridge and the device before the first one and after
/// each of them.
pub open spec fn device_run(
    states: Seq<(BridgeView, Map<i32, Seq<u8>>)>,
    ops: Seq<DeviceOp>,
) -> bool {
    &&& states.len() == ops.len() + 1
    &&& states[0].0.consistent()
    &&& keeps(states[0].0, states[0].1)
    &&& forall|i: int| #![trigger ops[i]]
        0 <= i < ops.len() ==> performable(states[i].0, ops[i]) && states[i + 1] == (
            bridge_after(states[i].0, ops[i]),
            contents_after(states[i].0, states[i].1, ops[i]),
        )
}

/// An operation keeps the bookkeeping, and leaves alone what it does not touch.
proof fn lemma_op(bridge: BridgeView, contents: Map<i32, Seq<u8>>, op: DeviceOp)
    requires
        bridge.consistent(),
        keeps(bridge, contents),
        performable(bridge, op),
    ensures
        bridge_after(bridge, op).consistent(),
        keeps(bridge_after(bridge, op), contents_after(bridge, contents, op)),
        forall|h: i32| #[trigger]
            bridge.buffers.contains_key(h) && !touches(op, h) ==> bridge_after(
                bridge,
                op,
            ).buffers.contains_key(h) && contents_after(bridge, contents, op)[h] == contents[h],
{
    let after = bridge_after(bridge, op);
    let held = contents_after(bridge, contents, op);
    assert(bridge.buffers.dom() == contents.dom());
    assert forall|h: i32| held.contains_key(h) == after.buffers.contains_key(h) by {
        assert(contents.contains_key(h) == bridge.buffers.contains_key(h));
    }
    assert(held.dom() =~= after.buffers.dom());
    assert(after.buffers.dom().subset_of(bridge.buffers.dom().insert(bridge.next_handle)));
    assert(after.pipelines.subset_of(bridge.pipelines.insert(bridge.next_handle)));
    assert forall|h: i32| #[trigger] after.buffers.contains_key(h) implies held[h].len()
        == after.buffers[h] by {
        assert(h != bridge.next_handle ==> bridge.buffers.contains_key(h));
    }
}

/// Every state of a run is well kept.
proof fn lemma_run(states: Seq<(BridgeView, Map<i32, Seq<u8>>)>, ops: Seq<DeviceOp>, i: int)
    requires
        device_run(states, ops),
        0 <= i <= ops.len(),
    ensures
        states[i].0.consistent(),
        keeps(states[i].0, states[i].1),
    decreases i,
{
    if i > 0 {
        lemma_run(states, ops, i - 1);
        let op = ops[i - 1];
        lemma_op(states[i - 1].0, states[i - 1].1, op);
    }
}

/// A buffer that nothing touches keeps its bytes.
proof fn lemma_untouched(
    states: Seq<(BridgeView, Map<i32, Seq<u8>>)>,
    ops: Seq<DeviceOp>,
    from: int,
    to: int,
    handle: i32,
)
    requires
        device_run(states, ops),
        0 <= from <= to <= ops.len(),
        states[from].0.buffers.contains_key(handle),
        forall|i: int| from <= i < to ==> !touches(#[trigger] ops[i], handle),
    ensures
        states[to].0.buffers.contains_key(handle),
        states[to].1[handle] == states[from].1[handle],
    decreases to,
{
    if from < to {
        lemma_untouched(states, ops, from, to - 1, handle);
        lemma_run(states, ops, to - 1);
        let op = ops[to - 1];
        lemma_op(states[to - 1].0, states[to - 1].1, op);
    }
}

/// A guest reads back what it uploaded. After an upload in step `at`, and as long
/// as nothing writes, dispatches over or releases that buffer, a readback that
/// the device performs without error returns the first `len` uploaded bytes for
/// any transfer length up to that of the upload; any other length is out of
/// range. A handle without a live buffer is refused whatever the length. The
/// readback itself changes neither the buffers nor what is live.
pub proof fn law_uploads_are_read_back(
    states: Seq<(BridgeView, Map<i32, Seq<u8>>)>,
    ops: Seq<DeviceOp>,
    at: int,
    scopes: ErrorScopes,
    other: i32,
    len: int,
    elapsed: u128,
)
    requires
        device_run(states, ops),
        0 <= at < ops.len(),
        ops[at] is Upload,
        forall|i: int| at < i < ops.len() ==> !touches(#[trigger] ops[i], states[at].0.next_handle),
        scopes.clean(),
    ensures
        ({
            let handle = states[at].0.next_handle;
            let bytes = ops[at]->Upload_bytes;
            let (bridge, contents) = states.last();
            let read = DeviceOp::Read { elapsed };
            &&& read_result(bridge, contents, scopes, handle, len) == (if transfer_len_ok(len)
                && len <= bytes.len() {
                Ok::<Seq<u8>, i32>(bytes.take(len))
            } else {
                Err::<Seq<u8>, i32>(ERR_RANGE)
            })
            &&& !bridge.buffers.contains_key(other) ==> read_result(
                bridge,
                contents,
                scopes,
                other,
                len,
            ) == Err::<Seq<u8>, i32>(ERR_HANDLE)
            &&& contents_after(bridge, contents, read) == contents
            &&& bridge_after(bridge, read) == (BridgeView {
                timing: bridge_after(bridge, read).timing,
                ..bridge
            })
        }),
{
    let handle = states[at].0.next_handle;
    let last = ops.len() as int;
    let op = ops[at];
    assert(states[at + 1].0.buffers.contains_key(handle));
    assert(states[at + 1].1[handle] == op->Upload_bytes);
    lemma_untouched(states, ops, at + 1, last, handle);
    lemma_run(states, ops, last);
    assert(states.last() == states[last]);
    assert(states[last].0.buffers[handle] == op->Upload_bytes.len());
}

/// A guest reads back what it wrote: right after a write, a readback of the whole
/// buffer holds the written bytes from the offset on, and everything else as it
/// was.
pub proof fn law_writes_are_read_back(
    bridge: BridgeView,
    contents: Map<i32, Seq<u8>>,
    handle: i32,
    offset: nat,
    bytes: Seq<u8>,
    elapsed: u128,
    scopes: ErrorScopes,
)
    requires
        bridge.consistent(),
        keeps(bridge, contents),
        bridge.write_error(handle, offset as int, bytes.len() as int) is None,
        transfer_len_ok(bridge.buffers[handle] as int),
        scopes.clean(),
    ensures
        ({
            let op = DeviceOp::Write { handle, offset, bytes, elapsed };
            let before = contents[handle];
            let end = (offset + bytes.len()) as int;
            &&& read_result(
                bridge_after(bridge, op),
                contents_after(bridge, contents, op),
                scopes,
                handle,
                bridge.buffers[handle] as int,
            ) == Ok::<Seq<u8>, i32>(before.take(offset as int) + bytes + before.skip(end))
        }),
{
    let op = DeviceOp::Write { handle, offset, bytes, elapsed };
    let before = contents[handle];
    let end = (offset + bytes.len()) as int;
    let after = patched(before, offset, bytes);
    assert(bridge.buffers.contains_key(handle));
    assert(before.len() == bridge.buffers[handle]);
    assert(after.take(before.len() as int) =~= before.take(offset as int) + bytes + before.skip(
        end,
    ));
}

} // verus!
