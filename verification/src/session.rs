//! Per-instance sessions: which handles a guest instance owns, and how much
//! of its quota they use.
use crate::device::{BridgeView, GpuBridge};
use std::collections::{BTreeMap, BTreeSet};
use vstd::prelude::*;

verus! {

broadcast use vstd::std_specs::btree::group_btree_axioms;

/// What one guest instance may hold at a time.
#[derive(Clone, Copy, Debug, PartialEq, Eq, Structural)]
pub struct SessionLimits {
    pub max_buffers: usize,
    pub max_bytes: usize,
    pub max_pipelines: usize,
}

/// The budget of a session that asks for nothing else.
pub open spec fn default_limits() -> SessionLimits {
    SessionLimits { max_buffers: 8, max_bytes: 1_048_576, max_pipelines: 4 }
}

impl Default for SessionLimits {
    fn default() -> (limits: Self)
        ensures
            limits == default_limits(),
    {
        SessionLimits { max_buffers: 8, max_bytes: 1_048_576, max_pipelines: 4 }
    }
}

/// The sum of all lengths in `buffers`.
pub open spec fn total_bytes(buffers: Map<i32, usize>) -> nat
    decreases buffers.dom().len(),
{
    if buffers.dom().finite() && buffers.dom().len() > 0 {
        let handle = buffers.dom().choose();
        buffers[handle] as nat + total_bytes(buffers.remove(handle))
    } else {
        0
    }
}

/// Any handle can be taken out of the sum first.
pub proof fn lemma_total_bytes_remove(buffers: Map<i32, usize>, handle: i32)
    requires
        buffers.dom().finite(),
        buffers.contains_key(handle),
    ensures
        total_bytes(buffers) == buffers[handle] as nat + total_bytes(buffers.remove(handle)),
    decreases buffers.dom().len(),
{
    let first = buffers.dom().choose();
    assert(buffers.dom().contains(first));
    if first != handle {
        lemma_total_bytes_remove(buffers.remove(first), handle);
        lemma_total_bytes_remove(buffers.remove(handle), first);
        assert(buffers.remove(first).remove(handle) =~= buffers.remove(handle).remove(first));
    }
}

/// A new handle adds its length to the sum.
pub proof fn lemma_total_bytes_insert(buffers: Map<i32, usize>, handle: i32, len: usize)
    requires
        buffers.dom().finite(),
        !buffers.contains_key(handle),
    ensures
        total_bytes(buffers.insert(handle, len)) == total_bytes(buffers) + len,
{
    lemma_total_bytes_remove(buffers.insert(handle, len), handle);
    assert(buffers.insert(handle, len).remove(handle) =~= buffers);
}

/// What a session owns: buffer handles with their lengths, and pipelines.
#[verifier::ext_equal]
pub struct SessionView {
    pub buffers: Map<i32, usize>,
    pub pipelines: Set<i32>,
    pub limits: SessionLimits,
}

impl SessionView {
    /// A session that owns nothing.
    pub open spec fn fresh(limits: SessionLimits) -> SessionView {
        SessionView { buffers: Map::empty(), pipelines: Set::empty(), limits }
    }

    /// One more buffer of `len` bytes fits into the quota.
    pub open spec fn has_room(self, len: int) -> bool {
        &&& self.buffers.dom().len() < self.limits.max_buffers
        &&& total_bytes(self.buffers) + len <= self.limits.max_bytes
    }

    /// One more pipeline fits into the quota.
    pub open spec fn has_pipeline_room(self) -> bool {
        self.pipelines.len() < self.limits.max_pipelines
    }

    /// The session is finite and no quota is exceeded.
    pub open spec fn within_limits(self) -> bool {
        &&& self.buffers.dom().finite()
        &&& self.pipelines.finite()
        &&& self.buffers.dom().len() <= self.limits.max_buffers
        &&& total_bytes(self.buffers) <= self.limits.max_bytes
        &&& self.pipelines.len() <= self.limits.max_pipelines
    }

    pub open spec fn with_buffer(self, handle: i32, len: usize) -> SessionView {
        SessionView { buffers: self.buffers.insert(handle, len), ..self }
    }

    pub open spec fn without_buffer(self, handle: i32) -> SessionView {
        SessionView { buffers: self.buffers.remove(handle), ..self }
    }

    pub open spec fn with_pipeline(self, handle: i32) -> SessionView {
        SessionView { pipelines: self.pipelines.insert(handle), ..self }
    }

    pub open spec fn without_pipeline(self, handle: i32) -> SessionView {
        SessionView { pipelines: self.pipelines.remove(handle), ..self }
    }
}

/// Ownership and quota bookkeeping of one guest instance.
#[derive(Debug)]
pub struct GpuSession {
    buffers: BTreeMap<i32, usize>,
    pipelines: BTreeSet<i32>,
    live_bytes: usize,
    limits: SessionLimits,
}

impl View for GpuSession {
    type V = SessionView;

    closed spec fn view(&self) -> SessionView {
        SessionView { buffers: self.buffers@, pipelines: self.pipelines@, limits: self.limits }
    }
}

impl GpuSession {
    /// The byte count is the sum over the owned buffers.
    pub closed spec fn wf(&self) -> bool {
        &&& self@.buffers.dom().finite()
        &&& self@.pipelines.finite()
        &&& self.live_bytes == total_bytes(self.buffers@)
    }

    pub fn new(limits: SessionLimits) -> (session: GpuSession)
        ensures
            session.wf(),
            session@ == SessionView::fresh(limits),
    {
        GpuSession { buffers: BTreeMap::new(), pipelines: BTreeSet::new(), live_bytes: 0, limits }
    }

    pub fn can_allocate_buffer(&self, len: usize) -> (fits: bool)
        requires
            self.wf(),
        ensures
            fits == self@.has_room(len as int),
    {
        if self.buffers.len() < self.limits.max_buffers {
            match self.live_bytes.checked_add(len) {
                Some(bytes) => bytes <= self.limits.max_bytes,
                None => false,
            }
        } else {
            false
        }
    }

    pub fn can_allocate_pipeline(&self) -> (fits: bool)
        requires
            self.wf(),
        ensures
            fits == self@.has_pipeline_room(),
    {
        self.pipelines.len() < self.limits.max_pipelines
    }

    /// Takes ownership of a buffer, whether or not
    /// [`GpuSession::can_allocate_buffer`] would admit it.
    pub fn track_buffer(&mut self, handle: i32, len: usize)
        requires
            old(self).wf(),
            total_bytes(old(self)@.buffers) + len <= usize::MAX,
            !old(self)@.buffers.contains_key(handle),
        ensures
            final(self).wf(),
            final(self)@ == old(self)@.with_buffer(handle, len),
    {
        proof {
            lemma_total_bytes_insert(self.buffers@, handle, len);
        }
        self.live_bytes = self.live_bytes + len;
        self.buffers.insert(handle, len);
    }

    /// Takes ownership of a pipeline, whether or not
    /// [`GpuSession::can_allocate_pipeline`] would admit it.
    pub fn track_pipeline(&mut self, handle: i32)
        requires
            old(self).wf(),
        ensures
            final(self).wf(),
            final(self)@ == old(self)@.with_pipeline(handle),
    {
        self.pipelines.insert(handle);
    }

    pub fn owns_buffer(&self, handle: i32) -> (owned: bool)
        ensures
            owned == self@.buffers.contains_key(handle),
    {
        self.buffers.contains_key(&handle)
    }

    pub fn owns_pipeline(&self, handle: i32) -> (owned: bool)
        ensures
            owned == self@.pipelines.contains(handle),
    {
        self.pipelines.contains(&handle)
    }

    /// Gives up a buffer; false, and no change, when it is not owned.
    pub fn forget_buffer(&mut self, handle: i32) -> (owned: bool)
        requires
            old(self).wf(),
        ensures
            final(self).wf(),
            owned == old(self)@.buffers.contains_key(handle),
            final(self)@ == old(self)@.without_buffer(handle),
            !owned ==> final(self)@ == old(self)@,
    {
        proof {
            if self.buffers@.contains_key(handle) {
                lemma_total_bytes_remove(self.buffers@, handle);
            } else {
                assert(self.buffers@.remove(handle) =~= self.buffers@);
            }
        }
        match self.buffers.remove(&handle) {
            Some(len) => {
                self.live_bytes = self.live_bytes.saturating_sub(len);
                true
            },
            None => false,
        }
    }

    /// Gives up a pipeline; false, and no change, when it is not owned.
    pub fn forget_pipeline(&mut self, handle: i32) -> (owned: bool)
        requires
            old(self).wf(),
        ensures
            final(self).wf(),
            owned == old(self)@.pipelines.contains(handle),
            final(self)@ == old(self)@.without_pipeline(handle),
            !owned ==> final(self)@ == old(self)@,
    {
        assert(!self.pipelines@.contains(handle) ==> self.pipelines@.remove(handle)
            =~= self.pipelines@);
        self.pipelines.remove(&handle)
    }

    /// The buffers still owned, each once.
    pub fn buffer_handles(&self) -> (handles: Vec<i32>)
        ensures
            handles@.to_set() == self@.buffers.dom(),
            handles@.no_duplicates(),
    {
        let mut handles: Vec<i32> = Vec::new();
        let ghost keys = vstd::std_specs::iter::IteratorSpec::remaining(
            &vstd::std_specs::btree::spec_keys_iter(&self.buffers),
        );
        for handle in it: self.buffers.keys()
            invariant
                it.seq() == keys,
                handles@ == keys.take(it.index()).unref(),
        {
            handles.push(*handle);
        }
        assert(keys.take(keys.len() as int) =~= keys);
        assert(handles@ == keys.unref());
        assert forall|i: int, j: int|
            0 <= i < handles@.len() && 0 <= j < handles@.len() && i != j implies handles@[i]
            != handles@[j] by {
            assert(keys[i] != keys[j]);
        }
        handles
    }

    /// The pipelines still owned, each once.
    pub fn pipeline_handles(&self) -> (handles: Vec<i32>)
        ensures
            handles@.to_set() == self@.pipelines,
            handles@.no_duplicates(),
    {
        let mut handles: Vec<i32> = Vec::new();
        let ghost keys = vstd::std_specs::iter::IteratorSpec::remaining(
            &vstd::std_specs::btree::spec_btree_keys_iter(&self.pipelines),
        );
        for handle in it: self.pipelines.iter()
            invariant
                it.seq() == keys,
                handles@ == keys.take(it.index()).unref(),
        {
            handles.push(*handle);
        }
        assert(keys.take(keys.len() as int) =~= keys);
        assert(handles@ == keys.unref());
        assert forall|i: int, j: int|
            0 <= i < handles@.len() && 0 <= j < handles@.len() && i != j implies handles@[i]
            != handles@[j] by {
            assert(keys[i] != keys[j]);
        }
        handles
    }

    /// Ends the session: everything it still owns is released on the bridge,
    /// whatever the guest did or failed to do before.
    pub fn close(self, bridge: &mut GpuBridge) -> (released: Released)
        requires
            old(bridge).wf(),
        ensures
            final(bridge).wf(),
            final(bridge)@ == old(bridge)@.without_session(self@),
            released.buffers@.to_set() == self@.buffers.dom(),
            released.buffers@.no_duplicates(),
            released.pipelines@.to_set() == self@.pipelines,
            released.pipelines@.no_duplicates(),
    {
        let buffers = self.buffer_handles();
        let pipelines = self.pipeline_handles();
        let mut i: usize = 0;
        while i < buffers.len()
            invariant
                i <= buffers.len(),
                bridge.wf(),
                bridge@ == (BridgeView {
                    buffers: old(bridge)@.buffers.remove_keys(buffers@.take(i as int).to_set()),
                    ..old(bridge)@
                }),
            decreases buffers.len() - i,
        {
            let ghost before = bridge@;
            let _ = bridge.release_buffer(buffers[i]);
            assert(buffers@.take(i + 1) =~= buffers@.take(i as int).push(buffers@[i as int]));
            proof {
                lemma_push_to_set(buffers@.take(i as int), buffers@[i as int]);
                assert(before.buffers.remove(buffers@[i as int]) =~= old(bridge)@.buffers.remove_keys(
                    buffers@.take(i + 1).to_set(),
                ));
            }
            i = i + 1;
        }
        assert(buffers@.take(buffers@.len() as int) =~= buffers@);
        let mut k: usize = 0;
        while k < pipelines.len()
            invariant
                k <= pipelines.len(),
                bridge.wf(),
                bridge@ == (BridgeView {
                    buffers: old(bridge)@.buffers.remove_keys(buffers@.to_set()),
                    pipelines: old(bridge)@.pipelines.difference(
                        pipelines@.take(k as int).to_set(),
                    ),
                    ..old(bridge)@
                }),
            decreases pipelines.len() - k,
        {
            let ghost before = bridge@;
            let _ = bridge.release_pipeline(pipelines[k]);
            assert(pipelines@.take(k + 1) =~= pipelines@.take(k as int).push(pipelines@[k as int]));
            proof {
                lemma_push_to_set(pipelines@.take(k as int), pipelines@[k as int]);
                assert(before.pipelines.remove(pipelines@[k as int])
                    =~= old(bridge)@.pipelines.difference(pipelines@.take(k + 1).to_set()));
            }
            k = k + 1;
        }
        assert(pipelines@.take(pipelines@.len() as int) =~= pipelines@);
        Released { buffers, pipelines }
    }
}

/// The set of a sequence that grows by one element.
proof fn lemma_push_to_set(items: Seq<i32>, item: i32)
    ensures
        items.push(item).to_set() == items.to_set().insert(item),
{
    assert forall|x: i32| items.push(item).to_set().contains(x) == items.to_set().insert(
        item,
    ).contains(x) by {
        if items.contains(x) {
            let i = choose|i: int| 0 <= i < items.len() && items[i] == x;
            assert(items.push(item)[i] == x);
        }
        assert(items.push(item)[items.len() as int] == item);
        if items.push(item).contains(x) && x != item {
            let i = choose|i: int| 0 <= i < items.push(item).len() && items.push(item)[i] == x;
            assert(items[i] == x);
        }
    }
    assert(items.push(item).to_set() =~= items.to_set().insert(item));
}

/// The handles that a closed session gave back.
#[derive(Debug)]
pub struct Released {
    pub buffers: Vec<i32>,
    pub pipelines: Vec<i32>,
}

} // verus!
