//! Whole import calls against a device that only remembers bytes.
use std::collections::BTreeMap;
use wasmer::sys::{BaseTunables, NativeEngineExt};
use wasmer::{Engine, Extern, Function, Imports, Memory, MemoryType, Module, Pages, Store};
use wasmer_gpu_demo::abi::{
    dispatch_dims, guest_transfer_range, imports_use_bridge, memory_range, valid_transfer_len,
    HostImport, ImportName, MemoryRange, ERR_GPU, ERR_HANDLE, ERR_QUOTA, ERR_RANGE, ERR_SHADER,
    NAMESPACE, SUCCESS,
};
use wasmer_gpu_demo::device::{
    pop_error_scopes, select_adapter, AdapterError, AdapterInfo, ErrorScopes, GpuBridge,
};
use wasmer_gpu_demo::guest::{compile_guest, read_output, write_input};
use wasmer_gpu_demo::hook::{GpuInstantiationHook, HookError};
use wasmer_gpu_demo::host::{
    buffer_read, buffer_read_deliver, buffer_read_finish, buffer_release, buffer_upload,
    buffer_upload_admit, buffer_upload_finish, buffer_write, buffer_write_admit,
    buffer_write_finish, pipeline_create, pipeline_create_admit, pipeline_create_finish,
    pipeline_dispatch, pipeline_dispatch_finish, pipeline_release, HostEnv,
};
use wasmer_gpu_demo::linking::{module_uses_bridge, register_imports, HostFunctions};
use wasmer_gpu_demo::memory::{read_bytes, spans, write_bytes};
use wasmer_gpu_demo::mnist_model::ModelKind;
use wasmer_gpu_demo::session::{GpuSession, SessionLimits};
use wasmer_gpu_demo::trainer::{BridgeCall, Config, Trainer};

const CLEAN: ErrorScopes = ErrorScopes { out_of_memory: false, validation: false };
const INVALID: ErrorScopes = ErrorScopes { out_of_memory: false, validation: true };
const EXHAUSTED: ErrorScopes = ErrorScopes { out_of_memory: true, validation: true };

struct Device {
    bridge: GpuBridge,
    contents: BTreeMap<i32, Vec<u8>>,
    scopes: ErrorScopes,
}

struct Guest {
    env: HostEnv,
    store: Store,
    memory: Memory,
}

fn device() -> Device {
    let adapter = AdapterInfo {
        name: "test adapter".to_string(),
        backend: "Vulkan".to_string(),
        is_cpu: false,
    };
    Device { bridge: GpuBridge::new(adapter), contents: BTreeMap::new(), scopes: CLEAN }
}

/// A store whose memories take no more address space than they need.
fn small_store() -> Store {
    let mut engine = Engine::default();
    engine.set_tunables(BaseTunables {
        static_memory_bound: Pages(0),
        static_memory_offset_guard_size: 0,
        dynamic_memory_offset_guard_size: 65_536,
    });
    Store::new(engine)
}

fn memory(store: &mut Store, pages: u32) -> Memory {
    Memory::new(store, MemoryType::new(pages, None, false)).expect("a memory")
}

fn guest_of(limits: SessionLimits, contents: &[u8]) -> Guest {
    let mut store = small_store();
    let memory = memory(&mut store, contents.len() as u32 / 65_536);
    memory.view(&store).write(0, contents).expect("fits");
    let env = HostEnv { memory: Some(memory.clone()), session: GpuSession::new(limits) };
    Guest { env, store, memory }
}

fn guest(limits: SessionLimits) -> Guest {
    let contents: Vec<u8> = (0..65_536u32).map(|i| (i % 251) as u8).collect();
    guest_of(limits, &contents)
}

impl Guest {
    fn bytes(&self, offset: u64, len: usize) -> Vec<u8> {
        let mut bytes = vec![0; len];
        self.memory.view(&self.store).read(offset, &mut bytes).expect("in range");
        bytes
    }

    fn upload(&mut self, device: &mut Device, ptr: i32, len: i32) -> i32 {
        let view = self.memory.view(&self.store);
        let bytes = match buffer_upload(&self.env, Some(&view), ptr, len) {
            Ok(bytes) => bytes,
            Err(code) => return code,
        };
        let scopes = device.scopes;
        let handle =
            buffer_upload_finish(&mut self.env, &mut device.bridge, bytes.len(), scopes, 10);
        if handle > 0 {
            device.contents.insert(handle, bytes);
        }
        handle
    }

    fn read(&mut self, device: &mut Device, handle: i32, ptr: i32, len: i32) -> i32 {
        let view = self.memory.view(&self.store);
        let admitted = buffer_read(&self.env, &device.bridge, Some(&view), handle, ptr, len);
        let range = match admitted {
            Ok(range) => range,
            Err(code) => return code,
        };
        let mapped = Some(device.contents[&handle][..range.len].to_vec());
        let scopes = device.scopes;
        buffer_read_deliver(
            &self.env,
            &mut device.bridge,
            Some(&view),
            range.offset,
            scopes,
            mapped,
            20,
        )
    }

    fn write(&mut self, device: &mut Device, handle: i32, offset: i32, ptr: i32, len: i32) -> i32 {
        let view = self.memory.view(&self.store);
        let plan = buffer_write(&self.env, &device.bridge, Some(&view), handle, offset, ptr, len);
        let (offset, bytes) = match plan {
            Ok(plan) => plan,
            Err(code) => return code,
        };
        let buffer = device.contents.get_mut(&handle).expect("admitted handles are live");
        buffer[offset..offset + bytes.len()].copy_from_slice(&bytes);
        let scopes = device.scopes;
        buffer_write_finish(&self.env, &mut device.bridge, scopes, 30)
    }

    fn create(&mut self, device: &mut Device, ptr: i32, len: i32) -> i32 {
        let view = self.memory.view(&self.store);
        match pipeline_create(&self.env, Some(&view), ptr, len) {
            Ok(source) => assert_eq!(source.into_bytes(), self.bytes(ptr as u64, len as usize)),
            Err(code) => return code,
        }
        let scopes = device.scopes;
        pipeline_create_finish(&mut self.env, &mut device.bridge, scopes, 40)
    }

    fn dispatch(&mut self, device: &mut Device, pipeline: i32, buffer: i32, dims: [i32; 3]) -> i32 {
        let [x, y, z] = dims;
        match pipeline_dispatch(&self.env, &device.bridge, pipeline, buffer, x, y, z) {
            Ok(_) => {
                let scopes = device.scopes;
                pipeline_dispatch_finish(&self.env, &mut device.bridge, scopes, 50)
            }
            Err(code) => code,
        }
    }
}

#[test]
fn what_is_uploaded_reads_back() {
    let mut device = device();
    let mut guest = guest(SessionLimits::default());
    let handle = guest.upload(&mut device, 100, 8);
    assert_eq!(handle, 1);
    assert_eq!(guest.read(&mut device, handle, 2_000, 8), SUCCESS);
    assert_eq!(guest.bytes(2_000, 8), guest.bytes(100, 8));
    assert_eq!(guest.write(&mut device, handle, 4, 500, 4), SUCCESS);
    assert_eq!(guest.read(&mut device, handle, 3_000, 8), SUCCESS);
    assert_eq!(guest.bytes(3_000, 4), guest.bytes(100, 4));
    assert_eq!(guest.bytes(3_004, 4), guest.bytes(500, 4));
    let timing = device.bridge.drain_timing();
    assert_eq!((timing.upload, timing.readback), (40, 40));
    assert_eq!(device.bridge.drain_timing().upload, 0);
}

#[test]
fn ranges_are_checked_before_anything_else() {
    let mut device = device();
    let mut guest = guest(SessionLimits::default());
    assert_eq!(guest.upload(&mut device, 0, 0), ERR_RANGE);
    assert_eq!(guest.upload(&mut device, 0, 6), ERR_RANGE);
    assert_eq!(guest.upload(&mut device, 65_532, 8), ERR_RANGE);
    assert_eq!(guest.upload(&mut device, -4, 4), ERR_RANGE);
    assert_eq!(guest.upload(&mut device, 65_532, 4), 1);
    assert_eq!(guest.read(&mut device, 1, 0, 3), ERR_RANGE);
    assert_eq!(guest.read(&mut device, 1, 0, 8), ERR_RANGE);
    assert_eq!(guest.read(&mut device, 99, 0, 3), ERR_RANGE);
    assert_eq!(guest.read(&mut device, 99, 0, 4), ERR_HANDLE);
    assert_eq!(guest.read(&mut device, 1, 65_536, 4), ERR_RANGE);
    assert_eq!(guest.read(&mut device, 1, 65_533, 4), ERR_RANGE);
    assert_eq!(guest.read(&mut device, 1, -4, 4), ERR_RANGE);
    assert_eq!(guest.write(&mut device, 1, 2, 0, 4), ERR_RANGE);
    assert_eq!(guest.write(&mut device, 1, 4, 0, 4), ERR_RANGE);
    assert_eq!(guest.write(&mut device, 1, -4, 0, 4), ERR_RANGE);
    assert_eq!(guest.write(&mut device, 2, 0, 0, 4), ERR_HANDLE);
    guest.env.memory = None;
    assert_eq!(guest.upload(&mut device, 0, 4), ERR_RANGE);
    assert_eq!(guest.read(&mut device, 1, 0, 4), ERR_RANGE);
    assert_eq!(guest.write(&mut device, 1, 0, 0, 4), ERR_RANGE);
    assert_eq!(guest.create(&mut device, 0, 4), ERR_RANGE);
    assert_eq!(buffer_read(&guest.env, &device.bridge, None, 1, 0, 4), Err(ERR_RANGE));
    // Nothing but the one upload ever reached the device.
    let timing = device.bridge.drain_timing();
    assert_eq!((timing.upload, timing.pipeline_create, timing.readback), (10, 0, 0));
}

#[test]
fn readbacks_are_refused_before_the_device_is_asked() {
    let mut device = device();
    let mut guest = guest(SessionLimits::default());
    let handle = guest.upload(&mut device, 0, 8);
    let view = guest.memory.view(&guest.store);
    let ask = |env: &HostEnv, ptr, len| {
        buffer_read(env, &device.bridge, Some(&view), handle, ptr, len)
    };
    assert_eq!(ask(&guest.env, 65_528, 8), Ok(MemoryRange { offset: 65_528, len: 8 }));
    assert_eq!(ask(&guest.env, 65_532, 8), Err(ERR_RANGE));
    assert_eq!(ask(&guest.env, 65_532, 4), Ok(MemoryRange { offset: 65_532, len: 4 }));
    assert_eq!(ask(&guest.env, 0, 12), Err(ERR_RANGE));
    assert_eq!(buffer_read(&guest.env, &device.bridge, None, handle, 0, 8), Err(ERR_RANGE));
    assert_eq!(buffer_read(&guest.env, &device.bridge, None, 99, 0, 8), Err(ERR_HANDLE));
    guest.env.memory = None;
    assert_eq!(ask(&guest.env, 0, 8), Err(ERR_RANGE));
    assert_eq!(device.bridge.drain_timing().readback, 0);
}

#[test]
fn forgetting_a_buffer_undoes_tracking_it() {
    let limits = SessionLimits { max_buffers: 2, max_bytes: 16, max_pipelines: 0 };
    let mut session = GpuSession::new(limits);
    session.track_buffer(7, 8);
    assert!(session.can_allocate_buffer(8) && !session.can_allocate_buffer(9));
    // Ownership can be taken beyond the quota; there is then no room for more.
    session.track_buffer(8, 100);
    session.track_pipeline(9);
    assert!(!session.can_allocate_buffer(0) && !session.can_allocate_pipeline());
    assert!(session.forget_buffer(8) && !session.forget_buffer(8));
    assert!(session.can_allocate_buffer(8) && !session.can_allocate_buffer(9));
    assert!(session.owns_buffer(7) && !session.owns_buffer(8) && session.owns_pipeline(9));
}

#[test]
fn handles_count_up_across_kinds_and_sessions() {
    let mut device = device();
    let mut first = guest(SessionLimits::default());
    let mut second = guest(SessionLimits::default());
    assert_eq!(first.upload(&mut device, 0, 4), 1);
    assert_eq!(second.create(&mut device, 0, 4), 2);
    assert_eq!(buffer_release(&mut first.env, &mut device.bridge, 1), SUCCESS);
    assert_eq!(first.create(&mut device, 0, 4), 3);
    second.env.session.close(&mut device.bridge);
    device.bridge.drain_timing();
    assert_eq!(first.upload(&mut device, 0, 4), 4);
}

#[test]
fn a_handle_given_out_is_used_up() {
    let mut device = device();
    let mut guest = guest(SessionLimits::default());
    assert_eq!(device.bridge.allocate_handle(), 1);
    assert_eq!(guest.upload(&mut device, 0, 4), 2);
    assert_eq!(device.bridge.allocate_handle(), 3);
    assert_eq!(guest.create(&mut device, 0, 4), 4);
    let after = device.bridge.snapshot();
    assert_eq!((after.live_buffers, after.live_pipelines), (1, 1));
    let copy = after.clone();
    assert_eq!((copy.adapter_name, copy.live_buffers), (after.adapter_name, 1));
    let timing = device.bridge.drain_timing();
    assert_eq!(timing.clone().upload, timing.upload);
}

#[test]
fn reads_return_the_first_bytes_of_what_was_uploaded() {
    let mut device = device();
    let mut guest = guest(SessionLimits::default());
    let handle = guest.upload(&mut device, 40, 12);
    // Nothing that happens to other buffers shows in this one.
    let other = guest.upload(&mut device, 300, 12);
    assert_eq!(guest.write(&mut device, other, 0, 600, 12), SUCCESS);
    assert_eq!(buffer_release(&mut guest.env, &mut device.bridge, other), SUCCESS);
    for len in [4, 8, 12] {
        assert_eq!(guest.read(&mut device, handle, 9_000, len), SUCCESS);
        assert_eq!(guest.bytes(9_000, len as usize), guest.bytes(40, len as usize));
    }
    for len in [0, 2, 16] {
        assert_eq!(guest.read(&mut device, handle, 9_000, len), ERR_RANGE);
    }
    assert_eq!(guest.read(&mut device, other, 9_000, 4), ERR_HANDLE);
    assert_eq!(device.bridge.snapshot().live_buffers, 1);
}

#[test]
fn failed_device_work_records_no_time() {
    let mut device = device();
    let mut guest = guest(SessionLimits::default());
    let handle = guest.upload(&mut device, 0, 4);
    device.bridge.drain_timing();
    let endless = u128::MAX;
    let failed = buffer_write_finish(&guest.env, &mut device.bridge, INVALID, endless);
    assert_eq!(failed, ERR_GPU);
    let failed = buffer_read_finish(&guest.env, &mut device.bridge, EXHAUSTED, None, endless);
    assert_eq!(failed, Err(ERR_GPU));
    let failed = buffer_read_finish(&guest.env, &mut device.bridge, CLEAN, None, endless);
    assert_eq!(failed, Err(ERR_GPU));
    let timing = device.bridge.drain_timing();
    assert_eq!((timing.upload, timing.readback), (0, 0));
    assert_eq!(guest.read(&mut device, handle, 0, 4), SUCCESS);
}

#[test]
fn quotas_bound_what_an_instance_holds() {
    let mut device = device();
    let limits = SessionLimits { max_buffers: 2, max_bytes: 16, max_pipelines: 1 };
    let mut guest = guest(limits);
    assert_eq!(guest.upload(&mut device, 0, 20), ERR_QUOTA);
    assert_eq!(guest.upload(&mut device, 0, 12), 1);
    assert_eq!(guest.upload(&mut device, 0, 8), ERR_QUOTA);
    assert_eq!(guest.upload(&mut device, 0, 4), 2);
    assert_eq!(buffer_release(&mut guest.env, &mut device.bridge, 1), SUCCESS);
    assert_eq!(guest.upload(&mut device, 0, 4), 3);
    assert_eq!(guest.upload(&mut device, 0, 4), ERR_QUOTA);
    assert_eq!(guest.create(&mut device, 0, 4), 4);
    assert_eq!(guest.create(&mut device, 0, 4), ERR_QUOTA);
    assert_eq!(pipeline_release(&mut guest.env, &mut device.bridge, 4), SUCCESS);
    assert_eq!(guest.create(&mut device, 0, 4), 5);
}

#[test]
fn released_handles_are_gone_and_never_come_back() {
    let mut device = device();
    let mut guest = guest(SessionLimits::default());
    let handle = guest.upload(&mut device, 0, 4);
    assert_eq!(buffer_release(&mut guest.env, &mut device.bridge, handle), SUCCESS);
    assert_eq!(buffer_release(&mut guest.env, &mut device.bridge, handle), ERR_HANDLE);
    assert_eq!(guest.read(&mut device, handle, 0, 4), ERR_HANDLE);
    assert_ne!(guest.upload(&mut device, 0, 4), handle);
    let pipeline = guest.create(&mut device, 0, 4);
    assert_eq!(pipeline_release(&mut guest.env, &mut device.bridge, pipeline), SUCCESS);
    assert_eq!(pipeline_release(&mut guest.env, &mut device.bridge, pipeline), ERR_HANDLE);
}

#[test]
fn buffers_and_pipelines_are_never_confused() {
    let mut device = device();
    let mut guest = guest(SessionLimits::default());
    let buffer = guest.upload(&mut device, 0, 4);
    let pipeline = guest.create(&mut device, 0, 4);
    assert_ne!(buffer, pipeline);
    assert_eq!(guest.dispatch(&mut device, pipeline, buffer, [1, 1, 1]), SUCCESS);
    assert_eq!(guest.dispatch(&mut device, buffer, pipeline, [1, 1, 1]), ERR_HANDLE);
    assert_eq!(buffer_release(&mut guest.env, &mut device.bridge, pipeline), ERR_HANDLE);
    assert_eq!(pipeline_release(&mut guest.env, &mut device.bridge, buffer), ERR_HANDLE);
    assert_eq!(device.bridge.drain_timing().dispatches, [50]);
}

#[test]
fn sessions_cannot_touch_each_other() {
    let mut device = device();
    let mut first = guest(SessionLimits::default());
    let mut second = guest(SessionLimits::default());
    let buffer = first.upload(&mut device, 0, 4);
    let pipeline = first.create(&mut device, 0, 4);
    assert_eq!(second.read(&mut device, buffer, 0, 4), ERR_HANDLE);
    assert_eq!(second.write(&mut device, buffer, 0, 0, 4), ERR_HANDLE);
    assert_eq!(second.dispatch(&mut device, pipeline, buffer, [1, 1, 1]), ERR_HANDLE);
    assert_eq!(buffer_release(&mut second.env, &mut device.bridge, buffer), ERR_HANDLE);
    let own = second.upload(&mut device, 0, 8);
    second.env.session.close(&mut device.bridge);
    let after = device.bridge.snapshot();
    assert_eq!((after.live_buffers, after.live_pipelines), (1, 1));
    assert_ne!(own, buffer);
    assert_eq!(first.read(&mut device, buffer, 0, 4), SUCCESS);
}

#[test]
fn closing_a_session_reclaims_everything() {
    let mut device = device();
    let mut guest = guest(SessionLimits::default());
    let kept = [guest.upload(&mut device, 0, 4), guest.upload(&mut device, 4, 8)];
    let pipeline = guest.create(&mut device, 0, 4);
    let released = guest.env.session.close(&mut device.bridge);
    assert_eq!(released.buffers, kept);
    assert_eq!(released.pipelines, [pipeline]);
    let after = device.bridge.snapshot();
    assert_eq!((after.live_buffers, after.live_pipelines), (0, 0));
    assert_eq!((after.adapter_name.as_str(), after.backend.as_str()), ("test adapter", "Vulkan"));
}

#[test]
fn device_errors_become_status_codes() {
    let mut device = device();
    let mut guest = guest(SessionLimits::default());
    let buffer = guest.upload(&mut device, 0, 4);
    let pipeline = guest.create(&mut device, 0, 4);
    for (scopes, shader_code) in [(INVALID, ERR_SHADER), (EXHAUSTED, ERR_GPU)] {
        device.scopes = scopes;
        assert_eq!(guest.upload(&mut device, 0, 4), ERR_GPU);
        assert_eq!(guest.create(&mut device, 0, 4), shader_code);
        assert_eq!(guest.dispatch(&mut device, pipeline, buffer, [1, 1, 1]), ERR_GPU);
        assert_eq!(guest.read(&mut device, buffer, 0, 4), ERR_GPU);
        assert_eq!(guest.write(&mut device, buffer, 0, 0, 4), ERR_GPU);
    }
    assert_eq!(
        buffer_read_finish(&guest.env, &mut device.bridge, CLEAN, None, 1),
        Err(ERR_GPU)
    );
    let after = device.bridge.snapshot();
    assert_eq!((after.live_buffers, after.live_pipelines), (1, 1));
    assert_eq!(pop_error_scopes(CLEAN, ERR_SHADER), None);
    assert_eq!(pop_error_scopes(INVALID, ERR_SHADER), Some(ERR_SHADER));
    assert_eq!(pop_error_scopes(EXHAUSTED, ERR_SHADER), Some(ERR_GPU));
}

#[test]
fn shaders_are_bounded_text() {
    let mut device = device();
    let mut guest = guest(SessionLimits::default());
    assert_eq!(guest.create(&mut device, 0, 0), ERR_RANGE);
    assert_eq!(guest.create(&mut device, 0, 16_385), ERR_RANGE);
    assert_eq!(guest.create(&mut device, 65_535, 2), ERR_RANGE);
    let broken = [b'f', 0xff, b'n'];
    assert_eq!(write_bytes(&guest.memory.view(&guest.store), 10, &broken), Ok(()));
    assert_eq!(guest.create(&mut device, 10, 3), ERR_SHADER);
    let text = "f\u{e9}\u{e9}".as_bytes();
    assert_eq!(write_bytes(&guest.memory.view(&guest.store), 10, text), Ok(()));
    assert_eq!(guest.create(&mut device, 10, 5), 1);
    assert_eq!(guest.create(&mut device, 10, 4), ERR_SHADER);
    let source = pipeline_create_admit(&guest.env, Ok(b"fn main() {}".to_vec()));
    assert_eq!(source, Ok("fn main() {}".to_string()));
}

#[test]
fn dispatch_dimensions_are_bounded() {
    assert_eq!(dispatch_dims(1, 2, 3), Ok([1, 2, 3]));
    assert_eq!(dispatch_dims(65_535, 1, 1), Ok([65_535, 1, 1]));
    assert_eq!(dispatch_dims(256, 256, 1), Ok([256, 256, 1]));
    assert_eq!(dispatch_dims(256, 257, 1), Err(ERR_RANGE));
    assert_eq!(dispatch_dims(65_536, 1, 1), Err(ERR_RANGE));
    assert_eq!(dispatch_dims(1, 0, 1), Err(ERR_RANGE));
    assert_eq!(dispatch_dims(1, 1, -1), Err(ERR_RANGE));
    assert_eq!(dispatch_dims(65_535, 65_535, 65_535), Err(ERR_RANGE));
}

#[test]
fn transfers_are_whole_words() {
    assert!(valid_transfer_len(4) && !valid_transfer_len(0) && !valid_transfer_len(5));
    assert_eq!(guest_transfer_range(-1, 8), Ok((0xffff_ffff, 8)));
    assert_eq!(guest_transfer_range(0, -4), Ok((0, 0xffff_fffc)));
    assert_eq!(guest_transfer_range(0, 7), Err(ERR_RANGE));
    assert_eq!(memory_range(10, u64::MAX, 1).err(), Some(ERR_RANGE));
    assert_eq!(memory_range(10, 10, 1).err(), Some(ERR_RANGE));
    assert_eq!(memory_range(10, 10, 0), Ok(MemoryRange { offset: 10, len: 0 }));
}

#[test]
fn copies_stay_inside_guest_memory() {
    let guest = guest(SessionLimits::default());
    let view = guest.memory.view(&guest.store);
    assert_eq!(read_bytes(&view, 250, 3), Ok(vec![250, 0, 1]));
    assert_eq!(read_bytes(&view, 65_534, 3), Err(ERR_RANGE));
    assert_eq!(read_bytes(&view, u64::MAX, 1), Err(ERR_RANGE));
    assert_eq!(write_bytes(&view, 251, &[7, 8]), Ok(()));
    assert_eq!(read_bytes(&view, 250, 4), Ok(vec![250, 7, 8, 2]));
    assert_eq!(write_bytes(&view, 65_535, &[9, 9]), Err(ERR_RANGE));
    assert_eq!(read_bytes(&view, 65_535, 1), Ok(vec![(65_535 % 251) as u8]));
    assert_eq!(read_bytes(&view, 65_536, 0), Ok(Vec::new()));
    assert!(spans(&view, 65_530, 6) && !spans(&view, 65_530, 7) && !spans(&view, u64::MAX, 1));
}

#[test]
fn results_stand_behind_inputs() {
    let guest = guest(SessionLimits::default());
    let view = guest.memory.view(&guest.store);
    let input = [0x0403_0201, 5];
    assert_eq!(write_input(&view, &input), Ok(()));
    assert_eq!(read_bytes(&view, 0, 8), Ok(vec![1, 2, 3, 4, 5, 0, 0, 0]));
    assert_eq!(
        read_output(&view, Some(&input), Some(SUCCESS)),
        Ok(Some(vec![8, 9, 10, 11, 12, 13, 14, 15]))
    );
    assert_eq!(read_output(&view, Some(&input), Some(ERR_GPU)), Ok(None));
    assert_eq!(read_output(&view, Some(&input), None), Ok(None));
    assert_eq!(read_output(&view, None, Some(SUCCESS)), Ok(None));
    let whole = vec![0; 16_384];
    assert_eq!(write_input(&view, &whole), Ok(()));
    assert_eq!(read_output(&view, Some(&whole), Some(SUCCESS)), Err(ERR_RANGE));
    assert_eq!(write_input(&view, &vec![0; 16_385]), Err(ERR_RANGE));
}

#[test]
fn decisions_follow_what_was_read() {
    let device = device();
    let guest = guest(SessionLimits { max_buffers: 1, max_bytes: 8, max_pipelines: 0 });
    assert_eq!(buffer_upload_admit(&guest.env, Ok(vec![1; 8])), Ok(vec![1; 8]));
    assert_eq!(buffer_upload_admit(&guest.env, Ok(vec![1; 12])), Err(ERR_QUOTA));
    assert_eq!(buffer_upload_admit(&guest.env, Err(ERR_RANGE)), Err(ERR_RANGE));
    assert_eq!(
        buffer_write_admit(&device.bridge, 1, 0, Ok(vec![1; 4])),
        Err(ERR_HANDLE)
    );
    assert_eq!(pipeline_create_admit(&guest.env, Ok(vec![b'a'])), Err(ERR_QUOTA));
    assert_eq!(pipeline_create_admit(&guest.env, Ok(vec![0xff])), Err(ERR_SHADER));
}

fn module(store: &Store, text: &str) -> Module {
    Module::new(store, compile_guest(text, false).expect("a module")).expect("a valid module")
}

const PLAIN: &str = "(module (import \"env\" \"memory\" (memory 1)))";
const BRIDGED: &str = "(module
    (import \"env\" \"memory\" (memory 1))
    (import \"wasmer_gpu_v0\" \"buffer_release\" (func (param i32) (result i32))))";

/// A host function that returns `code`, whatever it is given.
fn constant(store: &mut Store, code: i32) -> Extern {
    Function::new_typed(store, move || -> i32 { code }).into()
}

fn call(store: &mut Store, imports: &Imports, name: &str) -> i32 {
    let function = imports.get_export(NAMESPACE, name).expect("defined");
    let Extern::Function(function) = function else {
        panic!("{name} is no function");
    };
    function.call(store, &[]).expect("runs")[0].unwrap_i32()
}

#[test]
fn existing_imports_are_left_alone() {
    let store = &mut Store::default();
    let mut imports = Imports::new();
    let present = constant(store, -9);
    imports.define(NAMESPACE, "buffer_read", present.clone());
    imports.define("env", "buffer_upload", present);
    let functions = HostFunctions {
        buffer_upload: constant(store, 0),
        buffer_read: constant(store, 1),
        buffer_write: constant(store, 2),
        buffer_release: constant(store, 3),
        pipeline_create: constant(store, 4),
        pipeline_dispatch: constant(store, 5),
        pipeline_release: constant(store, 6),
    };
    register_imports(functions, &mut imports);
    let codes: Vec<i32> = [
        HostImport::BufferUpload,
        HostImport::BufferRead,
        HostImport::BufferWrite,
        HostImport::BufferRelease,
        HostImport::PipelineCreate,
        HostImport::PipelineDispatch,
        HostImport::PipelineRelease,
    ]
    .iter()
    .map(|import| call(store, &imports, import.name()))
    .collect();
    assert_eq!(codes, [0, -9, 2, 3, 4, 5, 6]);
    assert_eq!(imports.iter().count(), 8);
}

#[test]
fn modules_that_use_the_bridge_are_recognized() {
    let store = Store::default();
    assert!(module_uses_bridge(&module(&store, BRIDGED)));
    assert!(!module_uses_bridge(&module(&store, PLAIN)));
    assert!(!module_uses_bridge(&module(&store, "(module)")));
    let import = |module: &str| ImportName { module: module.to_string(), name: "x".to_string() };
    assert!(imports_use_bridge(&vec![import("env"), import("wasmer_gpu_v0")]));
    assert!(!imports_use_bridge(&vec![import("wasmer_gpu_v1")]));
}

#[test]
fn only_bridge_guests_get_a_session_and_a_memory() {
    let store = &mut small_store();
    let hook = GpuInstantiationHook::new(SessionLimits::default());
    let plain = module(store, PLAIN);
    let bridged = module(store, BRIDGED);
    let imported = memory(store, 1);
    let exported = memory(store, 1);
    let either = (Some(imported.clone()), Some(exported.clone()));
    assert!(hook.prepare_imports(&plain).is_none());
    let mut none = None;
    assert_eq!(hook.configure_new_instance(&plain, None, None, &mut none), Ok(()));
    assert_eq!(
        hook.configure_new_instance(&bridged, either.0.clone(), either.1.clone(), &mut none),
        Err(HookError::MissingState)
    );
    let mut state = hook.prepare_imports(&bridged);
    assert!(state.as_ref().is_some_and(|env| env.memory.is_none()));
    assert_eq!(
        hook.configure_new_instance(&bridged, None, None, &mut state),
        Err(HookError::NoMemory)
    );
    assert_eq!(hook.configure_new_instance(&bridged, None, either.1.clone(), &mut state), Ok(()));
    assert_eq!(state.as_ref().and_then(|env| env.memory.clone()), Some(exported));
    assert_eq!(hook.configure_new_instance(&bridged, either.0, either.1, &mut state), Ok(()));
    assert_eq!(state.and_then(|env| env.memory), Some(imported));
    assert_eq!(
        HookError::MissingState.message(),
        "missing wasmer-gpu instance state (imports were not prepared by this hook)"
    );
    assert_eq!(
        HookError::NoMemory.message(),
        "wasmer-gpu guest has neither an imported nor an exported memory"
    );
}

#[test]
fn only_hardware_adapters_are_accepted() {
    let cpu = AdapterInfo { name: String::new(), backend: String::new(), is_cpu: true };
    assert_eq!(select_adapter(None).err(), Some(AdapterError::NoAdapter));
    assert_eq!(select_adapter(Some(cpu)).err(), Some(AdapterError::CpuAdapter));
    assert_eq!(AdapterError::NoAdapter.message(), "no hardware GPU adapter available");
    assert_eq!(
        AdapterError::CpuAdapter.message(),
        "wgpu selected a CPU adapter; refusing to present this as hardware GPU"
    );
}

#[test]
fn default_limits_are_the_documented_ones() {
    let limits = SessionLimits::default();
    assert_eq!((limits.max_buffers, limits.max_bytes, limits.max_pipelines), (8, 1 << 20, 4));
}

#[test]
fn costs_beyond_any_duration_cannot_be_recorded() {
    let device = device();
    let longest = std::time::Duration::MAX.as_nanos();
    assert!(device.bridge.can_issue());
    assert!(device.bridge.can_record_upload(longest));
    assert!(!device.bridge.can_record_upload(longest + 1));
    assert!(!device.bridge.can_record_pipeline(u128::MAX));
    assert!(device.bridge.can_record_readback(0));
}

#[test]
fn the_bridge_admits_a_whole_training_run() {
    let mut device = device();
    let mut guest = guest_of(ModelKind::Cnn.session_limits(), &vec![b'a'; 4 << 20]);
    let config = Config {
        train_ptr: 0,
        train_n: 100,
        train_labels_ptr: 0,
        test_ptr: 0,
        test_n: 70,
        test_labels_ptr: 0,
        steps: 3,
        batch: 64,
        eval_every: 1,
        learning_rate: 0,
        seed: 1,
        progress_every: 1,
    };
    let mut trainer = Trainer::start(0, config).expect("usable configuration");
    let mut most = (0, 0);
    while trainer.step().is_some() {
        let status = match trainer.call() {
            Some(BridgeCall::BufferUpload { len }) => guest.upload(&mut device, 0, len),
            Some(BridgeCall::PipelineCreate { .. }) => guest.create(&mut device, 0, 100),
            Some(BridgeCall::BufferWrite { handle, offset, state_at, len }) => {
                guest.write(&mut device, handle, offset, state_at as i32 * 4, len)
            }
            Some(BridgeCall::PipelineDispatch { pipeline, buffer, x, y, z }) => {
                guest.dispatch(&mut device, pipeline, buffer, [x, y, z])
            }
            Some(BridgeCall::BufferRead { handle, len }) => guest.read(&mut device, handle, 0, len),
            Some(BridgeCall::PipelineRelease { handle }) => {
                pipeline_release(&mut guest.env, &mut device.bridge, handle)
            }
            Some(BridgeCall::BufferRelease { handle }) => {
                buffer_release(&mut guest.env, &mut device.bridge, handle)
            }
            None => SUCCESS,
        };
        let live = device.bridge.snapshot();
        most = (most.0.max(live.live_buffers), most.1.max(live.live_pipelines));
        assert_eq!(trainer.advance(status), Ok(()));
    }
    assert_eq!(most, (1, 6));
    let after = device.bridge.snapshot();
    assert_eq!((after.live_buffers, after.live_pipelines), (0, 0));
}
