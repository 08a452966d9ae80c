//! The `wasmer_gpu_v0` import surface: status codes, limits, the import list
//! and the validation of guest-supplied numbers.
//!
//! Guest pointers, lengths and dimensions are wasm32 unsigned values carried
//! in `i32`; every function here reads them through [`unsigned`].
use vstd::prelude::*;

verus! {

/// Import namespace. Provisional; not a standardized ABI claim.
pub const NAMESPACE: &'static str = "wasmer_gpu_v0";

/// Compute entry point every guest kernel must export.
pub const ENTRY_POINT: &'static str = "main";

pub const SUCCESS: i32 = 0;

/// Range, size, alignment or dispatch-dimension violation.
pub const ERR_RANGE: i32 = -1;

/// Handle unknown to this instance, released, or of the wrong kind.
pub const ERR_HANDLE: i32 = -2;

/// Captured device allocation or runtime error.
pub const ERR_GPU: i32 = -3;

/// Per-instance buffer, byte or pipeline quota exhausted.
pub const ERR_QUOTA: i32 = -4;

/// Shader text rejected: not UTF-8, failed WGSL validation, or incompatible
/// with the fixed binding contract.
pub const ERR_SHADER: i32 = -5;

/// Every transfer length and buffer offset is a multiple of this.
pub const TRANSFER_ALIGNMENT: usize = 4;

pub const MAX_SHADER_BYTES: usize = 16384;

/// WebGPU `maxComputeWorkgroupsPerDimension`.
pub const MAX_WORKGROUPS_PER_DIMENSION: u32 = 65535;

/// Host-imposed cap on `x * y * z` workgroups per dispatch.
pub const MAX_WORKGROUPS_PER_DISPATCH: u64 = 65536;

/// The wasm32 unsigned value carried by `value`.
pub open spec fn unsigned(value: i32) -> int {
    if value >= 0 {
        value as int
    } else {
        value + 0x1_0000_0000
    }
}

/// Reads `value` as a wasm32 unsigned number.
pub fn wasm_u32(value: i32) -> (number: u32)
    ensures
        number as int == unsigned(value),
{
    assert(value >= 0 ==> (value as u32) as i64 == value as i64) by (bit_vector);
    assert(value < 0 ==> (value as u32) as i64 == value as i64 + 0x1_0000_0000i64) by (bit_vector);
    value as u32
}

/// A transfer moves at least one byte and whole alignment units.
pub open spec fn transfer_len_ok(len: int) -> bool {
    len > 0 && len % TRANSFER_ALIGNMENT as int == 0
}

pub fn valid_transfer_len(len: usize) -> (ok: bool)
    ensures
        ok == transfer_len_ok(len as int),
{
    len > 0 && len % TRANSFER_ALIGNMENT == 0
}

/// `len` bytes of guest memory starting at `offset`.
#[derive(Clone, Copy, Debug, PartialEq, Eq, Structural)]
pub struct MemoryRange {
    pub offset: u64,
    pub len: usize,
}

/// The guest range `(ptr, len)` of a buffer transfer, or [`ERR_RANGE`] when
/// the length is not a valid transfer length. Bounds are checked when the
/// range meets a memory ([`memory_range`]).
pub fn guest_transfer_range(ptr: i32, len: i32) -> (range: Result<(u64, usize), i32>)
    ensures
        match range {
            Ok((offset, bytes)) => transfer_len_ok(unsigned(len)) && offset as int == unsigned(ptr)
                && bytes as int == unsigned(len),
            Err(code) => !transfer_len_ok(unsigned(len)) && code == ERR_RANGE,
        },
{
    let bytes: usize = wasm_u32(len) as usize;
    if !valid_transfer_len(bytes) {
        return Err(ERR_RANGE);
    }
    Ok((wasm_u32(ptr) as u64, bytes))
}

/// `[offset, offset + len)` lies inside a memory of `data_size` bytes.
pub open spec fn in_memory(data_size: u64, offset: u64, len: int) -> bool {
    offset + len <= data_size
}

/// The range of `len` bytes at `offset` in a guest memory of `data_size` bytes,
/// or [`ERR_RANGE`] when any part of it lies outside.
pub fn memory_range(data_size: u64, offset: u64, len: usize) -> (range: Result<MemoryRange, i32>)
    ensures
        range == (if in_memory(data_size, offset, len as int) {
            Ok::<MemoryRange, i32>(MemoryRange { offset, len })
        } else {
            Err::<MemoryRange, i32>(ERR_RANGE)
        }),
{
    match offset.checked_add(len as u64) {
        None => Err(ERR_RANGE),
        Some(end) => {
            if end > data_size {
                Err(ERR_RANGE)
            } else {
                Ok(MemoryRange { offset, len })
            }
        },
    }
}

/// The status that a completed or refused memory copy hands to the guest.
pub fn copy_status(copied: Result<(), i32>) -> (status: i32)
    ensures
        status == (match copied {
            Ok(_) => SUCCESS,
            Err(code) => code,
        }),
{
    match copied {
        Ok(_) => SUCCESS,
        Err(code) => code,
    }
}

/// Each dimension is within its limit and so is the number of workgroups.
pub open spec fn dispatch_ok(x: int, y: int, z: int) -> bool {
    &&& 0 < x <= MAX_WORKGROUPS_PER_DIMENSION
    &&& 0 < y <= MAX_WORKGROUPS_PER_DIMENSION
    &&& 0 < z <= MAX_WORKGROUPS_PER_DIMENSION
    &&& x * y * z <= MAX_WORKGROUPS_PER_DISPATCH
}

/// The workgroup counts of a dispatch, or [`ERR_RANGE`] when one of them is
/// zero or too large, or when their product is.
pub fn dispatch_dims(x: i32, y: i32, z: i32) -> (dims: Result<[u32; 3], i32>)
    ensures
        match dims {
            Ok(dims) => dispatch_ok(unsigned(x), unsigned(y), unsigned(z)) && dims@ == seq![
                unsigned(x) as u32,
                unsigned(y) as u32,
                unsigned(z) as u32,
            ],
            Err(code) => !dispatch_ok(unsigned(x), unsigned(y), unsigned(z)) && code == ERR_RANGE,
        },
{
    let dx: u32 = wasm_u32(x);
    let dy: u32 = wasm_u32(y);
    let dz: u32 = wasm_u32(z);
    if dx == 0 || dx > MAX_WORKGROUPS_PER_DIMENSION || dy == 0 || dy > MAX_WORKGROUPS_PER_DIMENSION
        || dz == 0 || dz > MAX_WORKGROUPS_PER_DIMENSION {
        return Err(ERR_RANGE);
    }
    proof {
        assert(0 <= dx as int * dy as int <= 65535 * 65535) by (nonlinear_arith)
            requires
                dx <= 65535,
                dy <= 65535,
        ;
        let plane: int = dx as int * dy as int;
        assert(0 <= plane * dz as int <= 65535 * 65535 * 65535) by (nonlinear_arith)
            requires
                0 <= plane <= 65535 * 65535,
                dz <= 65535,
        ;
    }
    let total: u64 = dx as u64 * dy as u64 * dz as u64;
    if total > MAX_WORKGROUPS_PER_DISPATCH {
        return Err(ERR_RANGE);
    }
    let dims: [u32; 3] = [dx, dy, dz];
    assert(dims@ =~= seq![unsigned(x) as u32, unsigned(y) as u32, unsigned(z) as u32]);
    Ok(dims)
}

/// One entry of a module's import section.
#[derive(Debug)]
pub struct ImportName {
    pub module: String,
    pub name: String,
}

/// Module and field name of every entry.
pub open spec fn import_pairs(imports: Seq<ImportName>) -> Seq<(Seq<char>, Seq<char>)> {
    imports.map_values(|import: ImportName| (import.module@, import.name@))
}

/// Some import comes from the bridge namespace.
pub open spec fn uses_bridge(imports: Seq<(Seq<char>, Seq<char>)>) -> bool {
    exists|i: int| 0 <= i < imports.len() && (#[trigger] imports[i]).0 == NAMESPACE@
}

/// True when one of these imports comes from the bridge namespace.
pub fn imports_use_bridge(imports: &Vec<ImportName>) -> (uses: bool)
    ensures
        uses == uses_bridge(import_pairs(imports@)),
{
    let ghost pairs = import_pairs(imports@);
    let mut i: usize = 0;
    while i < imports.len()
        invariant
            i <= imports.len(),
            pairs == import_pairs(imports@),
            forall|j: int| 0 <= j < i ==> (#[trigger] pairs[j]).0 != NAMESPACE@,
        decreases imports.len() - i,
    {
        assert(pairs[i as int].0 == imports@[i as int].module@);
        if *imports[i].module.as_str() == *NAMESPACE {
            return true;
        }
        i = i + 1;
    }
    false
}

/// The host functions of the bridge.
#[derive(Clone, Copy, Debug, PartialEq, Eq, Structural)]
pub enum HostImport {
    BufferUpload,
    BufferRead,
    BufferWrite,
    BufferRelease,
    PipelineCreate,
    PipelineDispatch,
    PipelineRelease,
}

impl HostImport {
    /// The name under which guests import the function.
    pub open spec fn spec_name(self) -> Seq<char> {
        match self {
            HostImport::BufferUpload => "buffer_upload"@,
            HostImport::BufferRead => "buffer_read"@,
            HostImport::BufferWrite => "buffer_write"@,
            HostImport::BufferRelease => "buffer_release"@,
            HostImport::PipelineCreate => "pipeline_create"@,
            HostImport::PipelineDispatch => "pipeline_dispatch"@,
            HostImport::PipelineRelease => "pipeline_release"@,
        }
    }

    pub fn name(self) -> (name: &'static str)
        ensures
            name@ == self.spec_name(),
    {
        match self {
            HostImport::BufferUpload => "buffer_upload",
            HostImport::BufferRead => "buffer_read",
            HostImport::BufferWrite => "buffer_write",
            HostImport::BufferRelease => "buffer_release",
            HostImport::PipelineCreate => "pipeline_create",
            HostImport::PipelineDispatch => "pipeline_dispatch",
            HostImport::PipelineRelease => "pipeline_release",
        }
    }
}

} // verus!
