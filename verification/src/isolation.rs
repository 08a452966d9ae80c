//! What the imports guarantee across calls: quotas, handle hygiene, isolation
//! between sessions and reclamation.
//!
//! [`import_step`] is what the contract of every import call in
//! [`crate::host`] promises of the session and the bridge; the laws below
//! follow for every guest, however it behaves.
use crate::abi::{transfer_len_ok, unsigned, MemoryRange, ERR_HANDLE};
use crate::device::BridgeView;
use crate::host::{
    adds_buffer, dispatch_plan, disjoint_sessions, drops_buffer, drops_pipeline, import_step,
    owned_live, read_plan, read_refusal, write_plan, write_refusal,
};
use crate::session::{
    lemma_total_bytes_insert, lemma_total_bytes_remove, total_bytes, SessionView,
};
use vstd::prelude::*;

verus! {

/// A session and its bridge fit together: quotas are kept, handles are
/// consistent, and what the session owns is live.
pub open spec fn coherent(session: SessionView, bridge: BridgeView) -> bool {
    &&& session.within_limits()
    &&& bridge.consistent()
    &&& owned_live(session, bridge)
}

/// No import call breaks the bookkeeping: a coherent session stays coherent,
/// so its quotas are never exceeded and everything it owns stays live.
pub proof fn law_imports_keep_bookkeeping(
    s0: SessionView,
    b0: BridgeView,
    s1: SessionView,
    b1: BridgeView,
)
    requires
        coherent(s0, b0),
        import_step(s0, b0, s1, b1),
    ensures
        coherent(s1, b1),
        s1.limits == s0.limits,
{
    if exists|len: usize, elapsed: u128| #[trigger] adds_buffer(s0, b0, s1, b1, len, elapsed) {
        let (len, elapsed) = choose|len: usize, elapsed: u128| #[trigger]
            adds_buffer(s0, b0, s1, b1, len, elapsed);
        assert(!b0.buffers.contains_key(b0.next_handle));
        assert(!s0.buffers.contains_key(b0.next_handle));
        lemma_total_bytes_insert(s0.buffers, b0.next_handle, len);
    } else if exists|handle: i32| #[trigger] drops_buffer(s0, b0, s1, b1, handle) {
        let handle = choose|handle: i32| #[trigger] drops_buffer(s0, b0, s1, b1, handle);
        lemma_total_bytes_remove(s0.buffers, handle);
        assert forall|h: i32| s1.pipelines.contains(h) implies b1.pipelines.contains(h) by {
            assert(s0.pipelines.contains(h));
        }
    } else if exists|handle: i32| #[trigger] drops_pipeline(s0, b0, s1, b1, handle) {
        let handle = choose|handle: i32| #[trigger] drops_pipeline(s0, b0, s1, b1, handle);
        assert forall|h: i32| s1.pipelines.contains(h) implies b1.pipelines.contains(h) by {
            assert(s0.pipelines.contains(h));
        }
    }
}

/// A handle that an import call brings to life was not live before, is larger
/// than every handle issued so far, and no handle is ever issued twice: the
/// counter never goes back.
pub proof fn law_new_handles_are_fresh(
    s0: SessionView,
    b0: BridgeView,
    s1: SessionView,
    b1: BridgeView,
    handle: i32,
)
    requires
        coherent(s0, b0),
        import_step(s0, b0, s1, b1),
    ensures
        b0.next_handle <= b1.next_handle,
        (b1.buffers.contains_key(handle) || b1.pipelines.contains(handle)) && !(
        b0.buffers.contains_key(handle) || b0.pipelines.contains(handle)) ==> handle
            == b0.next_handle && handle < b1.next_handle,
        !b0.buffers.contains_key(b0.next_handle) && !b0.pipelines.contains(b0.next_handle),
{
}

/// A buffer handle never names a pipeline, and a pipeline handle is refused
/// wherever a buffer is asked for, and the other way round.
pub proof fn law_kinds_are_never_confused(
    session: SessionView,
    bridge: BridgeView,
    handle: i32,
    other: i32,
    a: i32,
    b: i32,
    c: i32,
)
    requires
        coherent(session, bridge),
    ensures
        !(bridge.buffers.contains_key(handle) && bridge.pipelines.contains(handle)),
        bridge.pipelines.contains(handle) ==> {
            &&& read_plan(session, bridge, handle, a, b) is Err
            &&& write_plan(true, session, handle, a, b, c) is Err
            &&& dispatch_plan(session, bridge, other, handle, a, b, c) is Err
        },
        bridge.buffers.contains_key(handle) ==> dispatch_plan(
            session,
            bridge,
            handle,
            other,
            a,
            b,
            c,
        ) is Err,
{
    if bridge.pipelines.contains(handle) && session.buffers.contains_key(handle) {
        assert(bridge.buffers.contains_key(handle));
    }
    if bridge.buffers.contains_key(handle) && session.pipelines.contains(handle) {
        assert(bridge.pipelines.contains(handle));
    }
}

/// A session can only use what it owns: a readback, write or dispatch that is
/// admitted names handles of the session itself, all of them live, and stays
/// inside the buffer. A readback or write stays inside guest memory, too.
pub proof fn law_admitted_requests_stay_inside(
    bound: bool,
    size: u64,
    session: SessionView,
    bridge: BridgeView,
    handle: i32,
    pipeline: i32,
    offset: i32,
    ptr: i32,
    len: i32,
    z: i32,
)
    requires
        coherent(session, bridge),
    ensures
        read_refusal(bound, size, session, bridge, handle, ptr, len) is None ==> {
            &&& session.buffers.contains_key(handle)
            &&& bridge.buffers.contains_key(handle)
            &&& 0 < unsigned(len) <= bridge.buffers[handle]
            &&& bound && unsigned(ptr) + unsigned(len) <= size
        },
        write_refusal(bound, size, session, bridge, handle, offset, ptr, len) is None ==> {
            &&& session.buffers.contains_key(handle)
            &&& bridge.buffers.contains_key(handle)
            &&& 0 < unsigned(len)
            &&& unsigned(offset) + unsigned(len) <= bridge.buffers[handle]
            &&& bound && unsigned(ptr) + unsigned(len) <= size
        },
        dispatch_plan(session, bridge, pipeline, handle, ptr, len, z) is Ok
            ==> session.pipelines.contains(pipeline) && session.buffers.contains_key(handle)
            && bridge.pipelines.contains(pipeline) && bridge.buffers.contains_key(handle),
{
}

/// Forgetting a buffer undoes tracking it, whatever the quota: the byte count
/// rises and falls by its length, every question about room is answered as
/// before, and it cannot be forgotten twice.
pub proof fn law_forgetting_undoes_tracking(
    session: SessionView,
    handle: i32,
    len: usize,
    wanted: int,
)
    requires
        session.buffers.dom().finite(),
        !session.buffers.contains_key(handle),
    ensures
        ({
            let owning = session.with_buffer(handle, len);
            let forgotten = owning.without_buffer(handle);
            &&& owning.buffers.contains_key(handle)
            &&& total_bytes(owning.buffers) == total_bytes(session.buffers) + len
            &&& forgotten == session
            &&& forgotten.has_room(wanted) == session.has_room(wanted)
            &&& !forgotten.buffers.contains_key(handle)
            &&& forgotten.without_buffer(handle) == forgotten
        }),
{
    lemma_total_bytes_insert(session.buffers, handle, len);
    assert(session.buffers.insert(handle, len).remove(handle) =~= session.buffers);
    assert(session.buffers.remove(handle) =~= session.buffers);
}

/// Whatever one session does, another session keeps everything it owns: its
/// buffers stay live with their lengths, its pipelines stay live, and the two
/// never come to share a handle.
pub proof fn law_sessions_are_isolated(
    s0: SessionView,
    b0: BridgeView,
    s1: SessionView,
    b1: BridgeView,
    other: SessionView,
)
    requires
        coherent(s0, b0),
        coherent(other, b0),
        disjoint_sessions(s0, other),
        import_step(s0, b0, s1, b1),
    ensures
        coherent(other, b1),
        disjoint_sessions(s1, other),
{
    law_imports_keep_bookkeeping(s0, b0, s1, b1);
    assert forall|h: i32| #[trigger] other.buffers.contains_key(h) implies b1.buffers.contains_key(h)
        && b1.buffers[h] == other.buffers[h] && !s1.buffers.contains_key(h) by {
        assert(b0.buffers.contains_key(h));
        assert(!s0.buffers.dom().contains(h));
    }
    assert forall|h: i32| #[trigger] other.pipelines.contains(h) implies b1.pipelines.contains(h)
        && !s1.pipelines.contains(h) by {
        assert(b0.pipelines.contains(h));
    }
    assert(s1.buffers.dom().disjoint(other.buffers.dom())) by {
        assert forall|h: i32| !(s1.buffers.dom().contains(h) && other.buffers.dom().contains(h)) by {
            if other.buffers.contains_key(h) {
                assert(!s1.buffers.contains_key(h));
            }
        }
    }
    assert(s1.pipelines.disjoint(other.pipelines));
}

/// Giving a new buffer back restores the session and the set of live buffers.
pub proof fn law_release_undoes_upload(s0: SessionView, b0: BridgeView, len: usize, elapsed: u128)
    requires
        coherent(s0, b0),
    ensures
        s0.with_buffer(b0.next_handle, len).without_buffer(b0.next_handle) == s0,
        b0.with_buffer(len, elapsed).without_buffer(b0.next_handle).buffers == b0.buffers,
        b0.with_buffer(len, elapsed).without_buffer(b0.next_handle).pipelines == b0.pipelines,
{
    assert(!b0.buffers.contains_key(b0.next_handle));
    assert(!s0.buffers.contains_key(b0.next_handle));
    assert(s0.buffers.insert(b0.next_handle, len).remove(b0.next_handle) =~= s0.buffers);
    assert(b0.buffers.insert(b0.next_handle, len).remove(b0.next_handle) =~= b0.buffers);
}

/// Giving a new pipeline back restores the session and the set of live
/// pipelines.
pub proof fn law_release_undoes_create(s0: SessionView, b0: BridgeView, elapsed: u128)
    requires
        coherent(s0, b0),
    ensures
        s0.with_pipeline(b0.next_handle).without_pipeline(b0.next_handle) == s0,
        b0.with_pipeline(elapsed).without_pipeline(b0.next_handle).buffers == b0.buffers,
        b0.with_pipeline(elapsed).without_pipeline(b0.next_handle).pipelines == b0.pipelines,
{
    assert(!b0.pipelines.contains(b0.next_handle));
    assert(!s0.pipelines.contains(b0.next_handle)) by {
        if s0.pipelines.contains(b0.next_handle) {
            assert(b0.pipelines.contains(b0.next_handle));
        }
    }
    assert(s0.pipelines.insert(b0.next_handle).remove(b0.next_handle) =~= s0.pipelines);
    assert(b0.pipelines.insert(b0.next_handle).remove(b0.next_handle) =~= b0.pipelines);
}

/// A released buffer is refused from then on, in every import that names one.
pub proof fn law_released_buffers_are_refused(
    session: SessionView,
    bridge: BridgeView,
    handle: i32,
    pipeline: i32,
    a: i32,
    b: i32,
    c: i32,
)
    ensures
        ({
            let after = session.without_buffer(handle);
            &&& transfer_len_ok(unsigned(b)) ==> read_plan(after, bridge, handle, a, b) == Err::<
                MemoryRange,
                i32,
            >(ERR_HANDLE)
            &&& transfer_len_ok(unsigned(c)) && unsigned(a) % 4 == 0 ==> write_plan(
                true,
                after,
                handle,
                a,
                b,
                c,
            ) == Err::<(MemoryRange, usize), i32>(ERR_HANDLE)
            &&& dispatch_plan(after, bridge, pipeline, handle, a, b, c) is Err
            &&& !after.buffers.contains_key(handle)
        }),
{
}

/// A run of one guest instance: the session and the bridge after each import
/// call, starting with a fresh session.
pub open spec fn guest_run(run: Seq<(SessionView, BridgeView)>) -> bool {
    &&& run.len() > 0
    &&& run[0].0 == SessionView::fresh(run[0].0.limits)
    &&& run[0].1.consistent()
    &&& forall|i: int| #![trigger run[i + 1]]
        0 <= i < run.len() - 1 ==> import_step(run[i].0, run[i].1, run[i + 1].0, run[i + 1].1)
}

/// What is live beyond the session's own is what was live before it began.
pub open spec fn accounts_for(start: BridgeView, session: SessionView, bridge: BridgeView) -> bool {
    &&& bridge.buffers.remove_keys(session.buffers.dom()) == start.buffers
    &&& bridge.pipelines.difference(session.pipelines) == start.pipelines
    &&& start.next_handle <= bridge.next_handle
}

/// One import call keeps the account.
proof fn lemma_step_keeps_account(
    start: BridgeView,
    s0: SessionView,
    b0: BridgeView,
    s1: SessionView,
    b1: BridgeView,
)
    requires
        start.consistent(),
        coherent(s0, b0),
        accounts_for(start, s0, b0),
        import_step(s0, b0, s1, b1),
    ensures
        accounts_for(start, s1, b1),
{
    let left0 = b0.buffers.remove_keys(s0.buffers.dom());
    let left1 = b1.buffers.remove_keys(s1.buffers.dom());
    assert(left1 =~= left0) by {
        assert forall|h: i32| left1.contains_key(h) == left0.contains_key(h) by {}
    }
    let rest0 = b0.pipelines.difference(s0.pipelines);
    let rest1 = b1.pipelines.difference(s1.pipelines);
    assert(rest1 =~= rest0);
}

/// Every prefix of a run keeps the bookkeeping and the account.
proof fn lemma_run_keeps_account(run: Seq<(SessionView, BridgeView)>, i: int)
    requires
        guest_run(run),
        0 <= i < run.len(),
    ensures
        coherent(run[i].0, run[i].1),
        accounts_for(run[0].1, run[i].0, run[i].1),
    decreases i,
{
    if i == 0 {
        assert(run[0].1.buffers.remove_keys(run[0].0.buffers.dom()) =~= run[0].1.buffers);
        assert(run[0].1.pipelines.difference(run[0].0.pipelines) =~= run[0].1.pipelines);
    } else {
        lemma_run_keeps_account(run, i - 1);
        assert(import_step(run[i - 1].0, run[i - 1].1, run[i - 1 + 1].0, run[i - 1 + 1].1));
        law_imports_keep_bookkeeping(run[i - 1].0, run[i - 1].1, run[i].0, run[i].1);
        lemma_step_keeps_account(
            run[0].1,
            run[i - 1].0,
            run[i - 1].1,
            run[i].0,
            run[i].1,
        );
    }
}

/// Closing a session reclaims everything: after any run of import calls, of a
/// guest that finished, leaked, exited early or trapped, the live buffers and
/// pipelines are again exactly those from before the session began.
pub proof fn law_closing_reclaims_everything(run: Seq<(SessionView, BridgeView)>)
    requires
        guest_run(run),
    ensures
        run.last().1.without_session(run.last().0).buffers == run[0].1.buffers,
        run.last().1.without_session(run.last().0).pipelines == run[0].1.pipelines,
        run.last().0.within_limits(),
{
    lemma_run_keeps_account(run, run.len() - 1);
}

/// Quotas are kept throughout a run of import calls.
pub proof fn law_sessions_keep_their_limits(run: Seq<(SessionView, BridgeView)>, i: int)
    requires
        guest_run(run),
        0 <= i < run.len(),
    ensures
        run[i].0.within_limits(),
        run[i].0.limits == run[0].0.limits,
    decreases i,
{
    lemma_run_keeps_account(run, i);
    if i > 0 {
        law_sessions_keep_their_limits(run, i - 1);
        lemma_run_keeps_account(run, i - 1);
        assert(import_step(run[i - 1].0, run[i - 1].1, run[i - 1 + 1].0, run[i - 1 + 1].1));
        law_imports_keep_bookkeeping(run[i - 1].0, run[i - 1].1, run[i].0, run[i].1);
    }
}

/// What can happen to a bridge: an import call of any session, the end of a
/// session, a handle given out, or the draining of the recorded costs.
pub open spec fn bridge_step(b0: BridgeView, b1: BridgeView) -> bool {
    ||| exists|s0: SessionView, s1: SessionView| #[trigger] import_step(s0, b0, s1, b1)
    ||| exists|session: SessionView| b1 == #[trigger] b0.without_session(session)
    ||| b0.can_issue() && b1 == b0.with_handle_issued()
    ||| b1 == BridgeView { timing: b1.timing, ..b0 }
}

/// The life of one bridge, whichever sessions use it.
pub open spec fn bridge_run(run: Seq<BridgeView>) -> bool {
    &&& run.len() > 0
    &&& run[0].consistent()
    &&& forall|i: int| #![trigger run[i + 1]]
        0 <= i < run.len() - 1 ==> bridge_step(run[i], run[i + 1])
}

/// The handle names something live.
pub open spec fn live(bridge: BridgeView, handle: i32) -> bool {
    bridge.buffers.contains_key(handle) || bridge.pipelines.contains(handle)
}

/// The counter gives out the handle in step `i`: it moves past it, or something
/// comes to life under it.
pub open spec fn issued(run: Seq<BridgeView>, i: int, handle: i32) -> bool {
    &&& 0 <= i < run.len() - 1
    &&& {
        ||| run[i].next_handle == handle && run[i + 1].next_handle != handle
        ||| !live(run[i], handle) && live(run[i + 1], handle)
    }
}

/// A step keeps the bridge consistent, and brings nothing to life but the next
/// handle, which it then moves past.
proof fn lemma_bridge_step(b0: BridgeView, b1: BridgeView)
    requires
        b0.consistent(),
        bridge_step(b0, b1),
    ensures
        b1.consistent(),
        b1.next_handle == b0.next_handle || b1.next_handle == b0.next_handle + 1,
        forall|h: i32| #[trigger]
            live(b1, h) && !live(b0, h) ==> h == b0.next_handle && b1.next_handle == h + 1,
        b1.buffers.dom().subset_of(b0.buffers.dom().insert(b0.next_handle)),
        b1.pipelines.subset_of(b0.pipelines.insert(b0.next_handle)),
{
    if exists|session: SessionView| b1 == #[trigger] b0.without_session(session) {
        let session = choose|session: SessionView| b1 == #[trigger] b0.without_session(session);
        assert(b1.buffers.dom().subset_of(b0.buffers.dom()));
        assert(b1.pipelines.subset_of(b0.pipelines));
    }
}

/// Every bridge of a run is consistent, and the counter only rises.
proof fn lemma_bridge_run(run: Seq<BridgeView>, i: int, j: int)
    requires
        bridge_run(run),
        0 <= i <= j < run.len(),
    ensures
        run[i].consistent(),
        run[j].consistent(),
        run[i].next_handle <= run[j].next_handle,
    decreases j,
{
    if j > 0 {
        if i < j {
            lemma_bridge_run(run, i, j - 1);
        } else {
            lemma_bridge_run(run, i - 1, j - 1);
        }
        assert(bridge_step(run[j - 1], run[j - 1 + 1]));
        lemma_bridge_step(run[j - 1], run[j]);
    }
}

/// One counter serves both kinds and all sessions: every handle that a bridge
/// issues is the next number, from 1 up; later handles are larger than earlier
/// ones, so none is ever issued twice; and none names both a buffer and a
/// pipeline.
pub proof fn law_handles_count_up(run: Seq<BridgeView>, i: int, j: int, first: i32, second: i32)
    requires
        bridge_run(run),
        issued(run, i, first),
        issued(run, j, second),
        i <= j,
    ensures
        1 <= first == run[i].next_handle,
        run[i + 1].next_handle == first + 1,
        i < j ==> first < second,
        i == j ==> first == second,
        run[i + 1].consistent(),
        !(run[i + 1].buffers.contains_key(first) && run[i + 1].pipelines.contains(first)),
{
    lemma_bridge_run(run, i, i + 1);
    lemma_bridge_run(run, j, j + 1);
    assert(bridge_step(run[i], run[i + 1]));
    assert(bridge_step(run[j], run[j + 1]));
    lemma_bridge_step(run[i], run[i + 1]);
    lemma_bridge_step(run[j], run[j + 1]);
    assert(live(run[i + 1], first) || run[i].next_handle == first);
    assert(live(run[j + 1], second) || run[j].next_handle == second);
    if i < j {
        lemma_bridge_run(run, i + 1, j);
    }
}

/// A handle that was given out and does not name a buffer, or a pipeline, never
/// comes to name one.
proof fn lemma_kinds_last(run: Seq<BridgeView>, i: int, j: int, handle: i32)
    requires
        bridge_run(run),
        0 <= i <= j < run.len(),
        handle < run[i].next_handle,
    ensures
        handle < run[j].next_handle,
        run[j].buffers.contains_key(handle) ==> run[i].buffers.contains_key(handle),
        run[j].pipelines.contains(handle) ==> run[i].pipelines.contains(handle),
    decreases j - i,
{
    if i < j {
        lemma_kinds_last(run, i, j - 1, handle);
        lemma_bridge_run(run, i, j - 1);
        assert(bridge_step(run[j - 1], run[j - 1 + 1]));
        lemma_bridge_step(run[j - 1], run[j]);
        assert(run[j].buffers.contains_key(handle) ==> run[j].buffers.dom().contains(handle));
    }
}

/// A handle that ever names a buffer never names a pipeline, before or after.
pub proof fn law_handles_have_one_kind(run: Seq<BridgeView>, i: int, j: int, handle: i32)
    requires
        bridge_run(run),
        0 <= i < run.len(),
        0 <= j < run.len(),
    ensures
        !(run[i].buffers.contains_key(handle) && run[j].pipelines.contains(handle)),
{
    if run[i].buffers.contains_key(handle) && run[j].pipelines.contains(handle) {
        lemma_bridge_run(run, i, i);
        lemma_bridge_run(run, j, j);
        if i <= j {
            lemma_kinds_last(run, i, j, handle);
        } else {
            lemma_kinds_last(run, j, i, handle);
        }
    }
}

/// Giving out a handle changes the counter alone, and what is given out names
/// nothing yet. A new buffer and a new pipeline take their handles from there.
pub proof fn law_one_counter_serves_both_kinds(bridge: BridgeView, len: usize, elapsed: u128)
    requires
        bridge.consistent(),
        bridge.can_issue(),
    ensures
        1 <= bridge.next_handle,
        !live(bridge, bridge.next_handle),
        bridge.with_handle_issued().consistent(),
        bridge.with_handle_issued().next_handle == bridge.next_handle + 1,
        bridge.with_handle_issued() == (BridgeView {
            next_handle: bridge.with_handle_issued().next_handle,
            ..bridge
        }),
        bridge.with_buffer(len, elapsed) == (BridgeView {
            buffers: bridge.buffers.insert(bridge.next_handle, len),
            timing: bridge.with_buffer(len, elapsed).timing,
            ..bridge.with_handle_issued()
        }),
        bridge.with_pipeline(elapsed) == (BridgeView {
            pipelines: bridge.pipelines.insert(bridge.next_handle),
            timing: bridge.with_pipeline(elapsed).timing,
            ..bridge.with_handle_issued()
        }),
{
}

} // verus!
