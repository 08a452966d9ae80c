//! The device bridge: which buffers and pipelines are live on the device,
//! under which handles, and what their creation and use has cost.
//!
//! Each device operation is decided here in two parts. The first says whether
//! the operation may be submitted; the second takes what the device reported
//! and settles the status code and the bookkeeping. The submission itself, and
//! the device objects behind the handles, belong to the caller.
use crate::abi::{valid_transfer_len, ERR_GPU, ERR_HANDLE, ERR_RANGE, ERR_SHADER, SUCCESS};
use crate::session::SessionView;
use std::collections::{BTreeMap, BTreeSet};
use vstd::prelude::*;

verus! {

broadcast use vstd::std_specs::btree::group_btree_axioms;

/// Longest span of time that is ever recorded, in nanoseconds: that of
/// `std::time::Duration::MAX`.
pub const MAX_NANOS: u128 = 18446744073709551615999999999;

/// Accumulated device-side wall-clock costs, in nanoseconds, since the last
/// [`GpuBridge::drain_timing`]. Dispatch samples are recorded individually so
/// cold and warm submissions can be told apart instead of summed.
#[derive(Clone, Debug)]
pub struct Timing {
    pub upload: u128,
    pub pipeline_create: u128,
    pub dispatches: Vec<u128>,
    pub readback: u128,
}

#[verifier::ext_equal]
pub struct TimingView {
    pub upload: u128,
    pub pipeline_create: u128,
    pub dispatches: Seq<u128>,
    pub readback: u128,
}

impl TimingView {
    /// Nothing recorded.
    pub open spec fn zero() -> TimingView {
        TimingView { upload: 0, pipeline_create: 0, dispatches: Seq::empty(), readback: 0 }
    }
}

impl View for Timing {
    type V = TimingView;

    open spec fn view(&self) -> TimingView {
        TimingView {
            upload: self.upload,
            pipeline_create: self.pipeline_create,
            dispatches: self.dispatches@,
            readback: self.readback,
        }
    }
}

impl Default for Timing {
    fn default() -> (timing: Self)
        ensures
            timing@ == TimingView::zero(),
    {
        Timing { upload: 0, pipeline_create: 0, dispatches: Vec::new(), readback: 0 }
    }
}

/// `total` and one more sample still make a representable duration.
pub open spec fn recordable(total: u128, elapsed: u128) -> bool {
    total + elapsed <= MAX_NANOS
}

/// Whether `total` and one more sample make a representable duration.
fn fits_after(total: u128, elapsed: u128) -> (fits: bool)
    ensures
        fits == recordable(total, elapsed),
{
    match total.checked_add(elapsed) {
        Some(sum) => sum <= MAX_NANOS,
        None => false,
    }
}

/// Nanoseconds as whole microseconds.
pub open spec fn micros(samples: Seq<u128>) -> Seq<u128> {
    samples.map_values(|ns: u128| ns / 1000)
}

/// Nanoseconds as whole microseconds.
pub fn to_micros(samples: &Vec<u128>) -> (rounded: Vec<u128>)
    ensures
        rounded@ == micros(samples@),
{
    let mut rounded: Vec<u128> = Vec::new();
    let mut i: usize = 0;
    while i < samples.len()
        invariant
            i <= samples.len(),
            rounded@ == micros(samples@.take(i as int)),
        decreases samples.len() - i,
    {
        rounded.push(samples[i] / 1000);
        i = i + 1;
        assert(rounded@ =~= micros(samples@.take(i as int)));
    }
    assert(samples@.take(i as int) =~= samples@);
    rounded
}

/// Names and live resource counts of a bridge at one moment.
#[derive(Clone, Debug)]
pub struct BridgeSnapshot {
    pub adapter_name: String,
    pub backend: String,
    pub live_buffers: usize,
    pub live_pipelines: usize,
}

/// What a pair of device error scopes captured around one operation.
#[derive(Clone, Copy, Debug, PartialEq, Eq, Structural)]
pub struct ErrorScopes {
    pub out_of_memory: bool,
    pub validation: bool,
}

impl ErrorScopes {
    /// Neither scope captured an error.
    pub open spec fn clean(self) -> bool {
        !self.out_of_memory && !self.validation
    }
}

/// The status code of captured errors: allocation failures are always
/// [`ERR_GPU`], and only without one does a validation failure count.
pub open spec fn scope_code(scopes: ErrorScopes, validation_code: i32) -> Option<i32> {
    if scopes.out_of_memory {
        Some(ERR_GPU)
    } else if scopes.validation {
        Some(validation_code)
    } else {
        None
    }
}

/// Turns what both scopes captured into a status code, if they captured
/// anything. Validation failures map to `validation_code`; allocation failures
/// always map to [`ERR_GPU`].
pub fn pop_error_scopes(scopes: ErrorScopes, validation_code: i32) -> (code: Option<i32>)
    ensures
        code == scope_code(scopes, validation_code),
{
    if scopes.out_of_memory {
        return Some(ERR_GPU);
    }
    if scopes.validation {
        return Some(validation_code);
    }
    None
}

/// The adapter that the system offered.
#[derive(Debug)]
pub struct AdapterInfo {
    pub name: String,
    pub backend: String,
    pub is_cpu: bool,
}

/// Why no bridge can be made.
#[derive(Clone, Copy, Debug, PartialEq, Eq, Structural)]
pub enum AdapterError {
    /// No hardware GPU adapter is available.
    NoAdapter,
    /// Only a CPU adapter is; it is not presented as hardware GPU.
    CpuAdapter,
}

impl AdapterError {
    pub open spec fn spec_message(self) -> Seq<char> {
        match self {
            AdapterError::NoAdapter => "no hardware GPU adapter available"@,
            AdapterError::CpuAdapter =>
                "wgpu selected a CPU adapter; refusing to present this as hardware GPU"@,
        }
    }

    pub fn message(self) -> (text: &'static str)
        ensures
            text@ == self.spec_message(),
    {
        match self {
            AdapterError::NoAdapter => "no hardware GPU adapter available",
            AdapterError::CpuAdapter =>
                "wgpu selected a CPU adapter; refusing to present this as hardware GPU",
        }
    }
}

/// What is live on the device.
#[verifier::ext_equal]
pub struct BridgeView {
    pub adapter_name: Seq<char>,
    pub backend: Seq<char>,
    pub next_handle: i32,
    pub buffers: Map<i32, usize>,
    pub pipelines: Set<i32>,
    pub timing: TimingView,
}

impl BridgeView {
    /// Every live handle was issued by the one counter, and none of them names
    /// both a buffer and a pipeline.
    pub open spec fn consistent(self) -> bool {
        &&& 1 <= self.next_handle
        &&& self.buffers.dom().finite()
        &&& self.pipelines.finite()
        &&& forall|h: i32| #[trigger]
            self.buffers.contains_key(h) ==> 1 <= h < self.next_handle && !self.pipelines.contains(h)
        &&& forall|h: i32| #[trigger] self.pipelines.contains(h) ==> 1 <= h < self.next_handle
    }

    /// A bridge just made: nothing live, nothing recorded.
    pub open spec fn fresh(adapter_name: Seq<char>, backend: Seq<char>) -> BridgeView {
        BridgeView {
            adapter_name,
            backend,
            next_handle: 1,
            buffers: Map::empty(),
            pipelines: Set::empty(),
            timing: TimingView::zero(),
        }
    }

    /// One more handle can be issued.
    pub open spec fn can_issue(self) -> bool {
        self.next_handle < i32::MAX
    }

    /// The next handle is given out, and nothing else changes.
    pub open spec fn with_handle_issued(self) -> BridgeView {
        BridgeView { next_handle: (self.next_handle + 1) as i32, ..self }
    }

    /// A buffer of `len` bytes becomes live under the next handle.
    pub open spec fn with_buffer(self, len: usize, elapsed: u128) -> BridgeView {
        BridgeView {
            next_handle: (self.next_handle + 1) as i32,
            buffers: self.buffers.insert(self.next_handle, len),
            timing: TimingView { upload: (self.timing.upload + elapsed) as u128, ..self.timing },
            ..self
        }
    }

    /// A pipeline becomes live under the next handle.
    pub open spec fn with_pipeline(self, elapsed: u128) -> BridgeView {
        BridgeView {
            next_handle: (self.next_handle + 1) as i32,
            pipelines: self.pipelines.insert(self.next_handle),
            timing: TimingView {
                pipeline_create: (self.timing.pipeline_create + elapsed) as u128,
                ..self.timing
            },
            ..self
        }
    }

    pub open spec fn without_buffer(self, handle: i32) -> BridgeView {
        BridgeView { buffers: self.buffers.remove(handle), ..self }
    }

    pub open spec fn without_pipeline(self, handle: i32) -> BridgeView {
        BridgeView { pipelines: self.pipelines.remove(handle), ..self }
    }

    pub open spec fn with_upload_time(self, elapsed: u128) -> BridgeView {
        BridgeView {
            timing: TimingView { upload: (self.timing.upload + elapsed) as u128, ..self.timing },
            ..self
        }
    }

    pub open spec fn with_dispatch_time(self, elapsed: u128) -> BridgeView {
        BridgeView {
            timing: TimingView { dispatches: self.timing.dispatches.push(elapsed), ..self.timing },
            ..self
        }
    }

    pub open spec fn with_readback_time(self, elapsed: u128) -> BridgeView {
        BridgeView {
            timing: TimingView {
                readback: (self.timing.readback + elapsed) as u128,
                ..self.timing
            },
            ..self
        }
    }

    /// Everything that `session` owns is gone.
    pub open spec fn without_session(self, session: SessionView) -> BridgeView {
        BridgeView {
            buffers: self.buffers.remove_keys(session.buffers.dom()),
            pipelines: self.pipelines.difference(session.pipelines),
            ..self
        }
    }

    /// Why a dispatch may not be submitted, if it may not.
    pub open spec fn dispatch_error(self, pipeline: i32, buffer: i32) -> Option<i32> {
        if self.pipelines.contains(pipeline) && self.buffers.contains_key(buffer) {
            None
        } else {
            Some(ERR_HANDLE)
        }
    }

    /// Why a readback of the first `len` bytes may not be submitted, if it may
    /// not.
    pub open spec fn read_error(self, handle: i32, len: int) -> Option<i32> {
        if !self.buffers.contains_key(handle) {
            Some(ERR_HANDLE)
        } else if !crate::abi::transfer_len_ok(len) || self.buffers[handle] < len {
            Some(ERR_RANGE)
        } else {
            None
        }
    }

    /// Why a write of `len` bytes at `offset` may not be submitted, if it may
    /// not.
    pub open spec fn write_error(self, handle: i32, offset: int, len: int) -> Option<i32> {
        if !self.buffers.contains_key(handle) {
            Some(ERR_HANDLE)
        } else if offset + len > self.buffers[handle] {
            Some(ERR_RANGE)
        } else {
            None
        }
    }
}

/// Handles and costs of everything live on one device.
#[derive(Debug)]
pub struct GpuBridge {
    adapter_name: String,
    backend: String,
    next_handle: i32,
    buffers: BTreeMap<i32, usize>,
    pipelines: BTreeSet<i32>,
    timing: Timing,
}

impl View for GpuBridge {
    type V = BridgeView;

    closed spec fn view(&self) -> BridgeView {
        BridgeView {
            adapter_name: self.adapter_name@,
            backend: self.backend@,
            next_handle: self.next_handle,
            buffers: self.buffers@,
            pipelines: self.pipelines@,
            timing: self.timing@,
        }
    }
}

/// Lets an offered adapter through unless there is none or it is a CPU.
pub fn select_adapter(offered: Option<AdapterInfo>) -> (adapter: Result<AdapterInfo, AdapterError>)
    ensures
        adapter == (match offered {
            None => Err::<AdapterInfo, AdapterError>(AdapterError::NoAdapter),
            Some(info) => if info.is_cpu {
                Err(AdapterError::CpuAdapter)
            } else {
                Ok(info)
            },
        }),
{
    match offered {
        None => Err(AdapterError::NoAdapter),
        Some(info) => {
            if info.is_cpu {
                Err(AdapterError::CpuAdapter)
            } else {
                Ok(info)
            }
        },
    }
}

impl GpuBridge {
    /// The handle bookkeeping is consistent.
    pub open spec fn wf(&self) -> bool {
        self@.consistent()
    }

    /// A bridge to the device of a selected adapter.
    pub fn new(adapter: AdapterInfo) -> (bridge: GpuBridge)
        ensures
            bridge.wf(),
            bridge@ == BridgeView::fresh(adapter.name@, adapter.backend@),
    {
        GpuBridge {
            adapter_name: adapter.name,
            backend: adapter.backend,
            next_handle: 1,
            buffers: BTreeMap::new(),
            pipelines: BTreeSet::new(),
            timing: Timing::default(),
        }
    }

    pub fn snapshot(&self) -> (snapshot: BridgeSnapshot)
        ensures
            snapshot.adapter_name@ == self@.adapter_name,
            snapshot.backend@ == self@.backend,
            snapshot.live_buffers == self@.buffers.dom().len(),
            snapshot.live_pipelines == self@.pipelines.len(),
    {
        BridgeSnapshot {
            adapter_name: self.adapter_name.clone(),
            backend: self.backend.clone(),
            live_buffers: self.buffers.len(),
            live_pipelines: self.pipelines.len(),
        }
    }

    /// Hands out the recorded costs and starts over.
    pub fn drain_timing(&mut self) -> (timing: Timing)
        ensures
            timing@ == old(self)@.timing,
            final(self)@ == (BridgeView { timing: TimingView::zero(), ..old(self)@ }),
    {
        let mut timing = Timing::default();
        std::mem::swap(&mut timing, &mut self.timing);
        timing
    }

    /// Whether there is a handle left to give out.
    pub fn can_issue(&self) -> (can: bool)
        ensures
            can == self@.can_issue(),
    {
        self.next_handle < i32::MAX
    }

    /// Whether the cost of one more upload or write can be recorded.
    pub fn can_record_upload(&self, elapsed: u128) -> (can: bool)
        ensures
            can == recordable(self@.timing.upload, elapsed),
    {
        fits_after(self.timing.upload, elapsed)
    }

    /// Whether the cost of one more pipeline can be recorded.
    pub fn can_record_pipeline(&self, elapsed: u128) -> (can: bool)
        ensures
            can == recordable(self@.timing.pipeline_create, elapsed),
    {
        fits_after(self.timing.pipeline_create, elapsed)
    }

    /// Whether the cost of one more readback can be recorded.
    pub fn can_record_readback(&self, elapsed: u128) -> (can: bool)
        ensures
            can == recordable(self@.timing.readback, elapsed),
    {
        fits_after(self.timing.readback, elapsed)
    }

    /// One counter for both resource kinds, so a buffer handle can never alias
    /// a pipeline handle; kind confusion is caught by the per-kind maps.
    pub fn allocate_handle(&mut self) -> (handle: i32)
        requires
            old(self)@.can_issue(),
        ensures
            handle == old(self)@.next_handle,
            final(self)@ == old(self)@.with_handle_issued(),
            old(self).wf() ==> final(self).wf(),
    {
        let handle: i32 = self.next_handle;
        self.next_handle = self.next_handle + 1;
        handle
    }

    /// Settles the creation of a buffer of `len` bytes: its handle, or the
    /// code of the captured error, which leaves the bridge as it was.
    pub fn finish_upload(&mut self, len: usize, scopes: ErrorScopes, elapsed: u128) -> (handle:
        Result<i32, i32>)
        requires
            old(self).wf(),
            scopes.clean() ==> old(self)@.can_issue() && recordable(
                old(self)@.timing.upload,
                elapsed,
            ),
        ensures
            final(self).wf(),
            match scope_code(scopes, ERR_GPU) {
                Some(code) => handle == Err::<i32, i32>(code) && final(self)@ == old(self)@,
                None => handle == Ok::<i32, i32>(old(self)@.next_handle) && final(self)@ == old(
                    self,
                )@.with_buffer(len, elapsed),
            },
    {
        if let Some(code) = pop_error_scopes(scopes, ERR_GPU) {
            return Err(code);
        }
        let handle: i32 = self.allocate_handle();
        self.buffers.insert(handle, len);
        self.timing.upload = self.timing.upload + elapsed;
        Ok(handle)
    }

    /// Settles the creation of a pipeline: its handle, or the code of the
    /// captured error, which leaves the bridge as it was.
    pub fn finish_create_pipeline(&mut self, scopes: ErrorScopes, elapsed: u128) -> (handle: Result<
        i32,
        i32,
    >)
        requires
            old(self).wf(),
            scopes.clean() ==> old(self)@.can_issue() && recordable(
                old(self)@.timing.pipeline_create,
                elapsed,
            ),
        ensures
            final(self).wf(),
            match scope_code(scopes, ERR_SHADER) {
                Some(code) => handle == Err::<i32, i32>(code) && final(self)@ == old(self)@,
                None => handle == Ok::<i32, i32>(old(self)@.next_handle) && final(self)@ == old(
                    self,
                )@.with_pipeline(elapsed),
            },
    {
        if let Some(code) = pop_error_scopes(scopes, ERR_SHADER) {
            return Err(code);
        }
        let handle: i32 = self.allocate_handle();
        self.pipelines.insert(handle);
        self.timing.pipeline_create = self.timing.pipeline_create + elapsed;
        Ok(handle)
    }

    /// A dispatch may be submitted when both handles are live and of the
    /// right kind.
    pub fn dispatch(&self, pipeline: i32, buffer: i32) -> (admitted: Result<(), i32>)
        ensures
            admitted == (match self@.dispatch_error(pipeline, buffer) {
                Some(code) => Err::<(), i32>(code),
                None => Ok(()),
            }),
    {
        if self.pipelines.contains(&pipeline) && self.buffers.contains_key(&buffer) {
            Ok(())
        } else {
            Err(ERR_HANDLE)
        }
    }

    /// Settles a dispatch; a clean one is recorded as one more sample.
    pub fn finish_dispatch(&mut self, scopes: ErrorScopes, elapsed: u128) -> (status: i32)
        requires
            old(self).wf(),
        ensures
            final(self).wf(),
            match scope_code(scopes, ERR_GPU) {
                Some(code) => status == code && final(self)@ == old(self)@,
                None => status == SUCCESS && final(self)@ == old(self)@.with_dispatch_time(elapsed),
            },
    {
        if let Some(code) = pop_error_scopes(scopes, ERR_GPU) {
            return code;
        }
        self.timing.dispatches.push(elapsed);
        SUCCESS
    }

    /// The first `len` bytes of a live buffer may be read back when `len` is a
    /// valid transfer length no longer than the buffer.
    pub fn read_buffer(&self, handle: i32, len: usize) -> (admitted: Result<(), i32>)
        ensures
            admitted == (match self@.read_error(handle, len as int) {
                Some(code) => Err::<(), i32>(code),
                None => Ok(()),
            }),
    {
        match self.buffers.get(&handle) {
            None => Err(ERR_HANDLE),
            Some(size) => {
                if !valid_transfer_len(len) || *size < len {
                    Err(ERR_RANGE)
                } else {
                    Ok(())
                }
            },
        }
    }

    /// Settles a readback, where `mapped` holds the bytes if the staging
    /// buffer could be mapped.
    pub fn finish_read_buffer(
        &mut self,
        scopes: ErrorScopes,
        mapped: Option<Vec<u8>>,
        elapsed: u128,
    ) -> (data: Result<Vec<u8>, i32>)
        requires
            old(self).wf(),
            scopes.clean() && mapped is Some ==> recordable(old(self)@.timing.readback, elapsed),
        ensures
            final(self).wf(),
            match (scope_code(scopes, ERR_GPU), mapped) {
                (Some(code), _) => data == Err::<Vec<u8>, i32>(code) && final(self)@ == old(self)@,
                (None, None) => data == Err::<Vec<u8>, i32>(ERR_GPU) && final(self)@ == old(self)@,
                (None, Some(bytes)) => data == Ok::<Vec<u8>, i32>(bytes) && final(self)@ == old(
                    self,
                )@.with_readback_time(elapsed),
            },
    {
        if let Some(code) = pop_error_scopes(scopes, ERR_GPU) {
            return Err(code);
        }
        match mapped {
            None => Err(ERR_GPU),
            Some(bytes) => {
                self.timing.readback = self.timing.readback + elapsed;
                Ok(bytes)
            },
        }
    }

    /// `len` bytes may be written at `offset` of a live buffer when they end
    /// inside it.
    pub fn write_buffer(&self, handle: i32, offset: usize, len: usize) -> (admitted: Result<(), i32>)
        ensures
            admitted == (match self@.write_error(handle, offset as int, len as int) {
                Some(code) => Err::<(), i32>(code),
                None => Ok(()),
            }),
    {
        match self.buffers.get(&handle) {
            None => Err(ERR_HANDLE),
            Some(size) => match offset.checked_add(len) {
                None => Err(ERR_RANGE),
                Some(end) => {
                    if end > *size {
                        Err(ERR_RANGE)
                    } else {
                        Ok(())
                    }
                },
            },
        }
    }

    /// Settles a write; a clean one counts towards the upload time.
    pub fn finish_write_buffer(&mut self, scopes: ErrorScopes, elapsed: u128) -> (status: i32)
        requires
            old(self).wf(),
            scopes.clean() ==> recordable(old(self)@.timing.upload, elapsed),
        ensures
            final(self).wf(),
            match scope_code(scopes, ERR_GPU) {
                Some(code) => status == code && final(self)@ == old(self)@,
                None => status == SUCCESS && final(self)@ == old(self)@.with_upload_time(elapsed),
            },
    {
        if let Some(code) = pop_error_scopes(scopes, ERR_GPU) {
            return code;
        }
        self.timing.upload = self.timing.upload + elapsed;
        SUCCESS
    }

    /// Ends a buffer's life; an unknown handle is refused and changes nothing.
    pub fn release_buffer(&mut self, handle: i32) -> (status: i32)
        requires
            old(self).wf(),
        ensures
            final(self).wf(),
            status == (if old(self)@.buffers.contains_key(handle) {
                SUCCESS
            } else {
                ERR_HANDLE
            }),
            final(self)@ == old(self)@.without_buffer(handle),
            status == ERR_HANDLE ==> final(self)@ == old(self)@,
    {
        assert(!self.buffers@.contains_key(handle) ==> self.buffers@.remove(handle)
            =~= self.buffers@);
        match self.buffers.remove(&handle) {
            Some(_) => SUCCESS,
            None => ERR_HANDLE,
        }
    }

    /// Ends a pipeline's life; an unknown handle is refused and changes
    /// nothing.
    pub fn release_pipeline(&mut self, handle: i32) -> (status: i32)
        requires
            old(self).wf(),
        ensures
            final(self).wf(),
            status == (if old(self)@.pipelines.contains(handle) {
                SUCCESS
            } else {
                ERR_HANDLE
            }),
            final(self)@ == old(self)@.without_pipeline(handle),
            status == ERR_HANDLE ==> final(self)@ == old(self)@,
    {
        assert(!self.pipelines@.contains(handle) ==> self.pipelines@.remove(handle)
            =~= self.pipelines@);
        if self.pipelines.remove(&handle) {
            SUCCESS
        } else {
            ERR_HANDLE
        }
    }
}

} // verus!
