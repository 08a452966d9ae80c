//! The smoke run: which guests carry which kernel or control, what counts as
//! a pass, and the report.
use crate::abi::SUCCESS;
use crate::args::texts;
use crate::device::{micros, to_micros, BridgeSnapshot};
use crate::guest::{GuestRun, GuestRuntime};
use crate::kernels::{collatz_count, collatz_reference, lowbias32_of, lowbias32_reference};
use crate::text::{
    bullets, decimal, listed, optional_decimal, push_bullets, push_decimal, push_list, push_optional, push_signed,
    push_truth, push_words, signed_decimal, truth, widened,
};
use vstd::prelude::*;
use vstd::string::*;

verus! {

/// The kernels that have a CPU reference.
#[derive(Clone, Copy, Debug, PartialEq, Eq, Structural)]
pub enum Kernel {
    Collatz,
    Lowbias32,
}

impl Kernel {
    /// What one dispatch makes of a buffer.
    pub open spec fn reference(self, words: Seq<u32>) -> Seq<u32> {
        match self {
            Kernel::Collatz => words.map_values(|n: u32| collatz_count(n)),
            Kernel::Lowbias32 => words.map_values(|n: u32| lowbias32_of(n)),
        }
    }

    /// What `rounds` dispatches over the same buffer make of it.
    pub open spec fn repeated(self, words: Seq<u32>, rounds: nat) -> Seq<u32>
        decreases rounds,
    {
        if rounds == 0 {
            words
        } else {
            self.reference(self.repeated(words, (rounds - 1) as nat))
        }
    }

    /// Applies the CPU reference `rounds` times.
    pub fn cpu_result(self, input: Vec<u32>, rounds: usize) -> (result: Vec<u32>)
        ensures
            result@ == self.repeated(input@, rounds as nat),
    {
        let ghost words = input@;
        let mut result = input;
        let mut round: usize = 0;
        while round < rounds
            invariant
                round <= rounds,
                result@ == self.repeated(words, round as nat),
            decreases rounds - round,
        {
            result = match self {
                Kernel::Collatz => collatz_reference(result.as_slice()),
                Kernel::Lowbias32 => lowbias32_reference(result.as_slice()),
            };
            round = round + 1;
        }
        result
    }
}

/// A guest that runs a kernel over synthetic input. The host writes the input
/// at guest offset 0 before `_start`; the guest is expected to leave its
/// result immediately after the input. `rounds` is how many times the guest
/// dispatches the same kernel over the same buffer, so the CPU reference is
/// applied the same number of times.
#[derive(Clone, Copy, Debug)]
pub struct KernelSpec {
    pub guest: &'static str,
    pub runtime: GuestRuntime,
    pub rounds: usize,
    pub kernel: Kernel,
}

impl KernelSpec {
    pub open spec fn spec_input(self) -> Seq<u32> {
        match self.kernel {
            Kernel::Collatz => seq![1u32, 2, 3, 4],
            Kernel::Lowbias32 => seq![0u32, 1, 2, 3, 42, 1000, 65_535, 4_294_967_295],
        }
    }

    /// The synthetic input.
    pub fn input(&self) -> (words: Vec<u32>)
        ensures
            words@ == self.spec_input(),
    {
        match self.kernel {
            Kernel::Collatz => vec![1, 2, 3, 4],
            Kernel::Lowbias32 => vec![0, 1, 2, 3, 42, 1000, 65_535, 4_294_967_295],
        }
    }
}

/// A negative or lifecycle control. `_start` returns 0 when the guest observed
/// the documented error codes; any other status is the failing check number.
#[derive(Clone, Copy, Debug)]
pub struct ControlSpec {
    pub guest: &'static str,
    pub runtime: GuestRuntime,
    pub with_input: bool,
    pub expect_trap: bool,
}

/// The kernel guests, in the order in which they run.
pub open spec fn kernel_specs() -> Seq<KernelSpec> {
    seq![
        KernelSpec {
            guest: "collatz_valid.wat",
            runtime: GuestRuntime::Core,
            rounds: 1,
            kernel: Kernel::Collatz,
        },
        KernelSpec {
            guest: "lowbias32_warm.wat",
            runtime: GuestRuntime::Core,
            rounds: 8,
            kernel: Kernel::Lowbias32,
        },
        KernelSpec {
            guest: "wasix_collatz.wat",
            runtime: GuestRuntime::Wasix,
            rounds: 1,
            kernel: Kernel::Collatz,
        },
    ]
}

/// The kernel guests, in the order in which they run.
pub fn kernels() -> (specs: Vec<KernelSpec>)
    ensures
        specs@ == kernel_specs(),
{
    let specs: Vec<KernelSpec> = vec![
        KernelSpec {
            guest: "collatz_valid.wat",
            runtime: GuestRuntime::Core,
            rounds: 1,
            kernel: Kernel::Collatz,
        },
        KernelSpec {
            guest: "lowbias32_warm.wat",
            runtime: GuestRuntime::Core,
            rounds: 8,
            kernel: Kernel::Lowbias32,
        },
        KernelSpec {
            guest: "wasix_collatz.wat",
            runtime: GuestRuntime::Wasix,
            rounds: 1,
            kernel: Kernel::Collatz,
        },
    ];
    assert(specs@ =~= kernel_specs());
    specs
}

/// A core guest that is expected to end normally.
pub open spec fn core_control(guest: &'static str, with_input: bool) -> ControlSpec {
    ControlSpec { guest, runtime: GuestRuntime::Core, with_input, expect_trap: false }
}

/// The control guests, in the order in which they run.
pub open spec fn control_specs() -> Seq<ControlSpec> {
    seq![
        core_control("invalid_range.wat", false),
        core_control("invalid_handle.wat", false),
        core_control("invalid_shader.wat", true),
        core_control("unaligned_read.wat", true),
        core_control("quota.wat", true),
        core_control("early_exit.wat", true),
        core_control("leak.wat", true),
        ControlSpec { expect_trap: true, ..core_control("trap_after_create.wat", true) },
        ControlSpec { runtime: GuestRuntime::Wasix, ..core_control("wasix_leak.wat", true) },
    ]
}

/// The control guests, in the order in which they run.
pub fn controls() -> (specs: Vec<ControlSpec>)
    ensures
        specs@ == control_specs(),
{
    let core = GuestRuntime::Core;
    let specs: Vec<ControlSpec> = vec![
        ControlSpec {
            guest: "invalid_range.wat",
            runtime: core,
            with_input: false,
            expect_trap: false,
        },
        ControlSpec {
            guest: "invalid_handle.wat",
            runtime: core,
            with_input: false,
            expect_trap: false,
        },
        ControlSpec {
            guest: "invalid_shader.wat",
            runtime: core,
            with_input: true,
            expect_trap: false,
        },
        ControlSpec {
            guest: "unaligned_read.wat",
            runtime: core,
            with_input: true,
            expect_trap: false,
        },
        ControlSpec { guest: "quota.wat", runtime: core, with_input: true, expect_trap: false },
        ControlSpec { guest: "early_exit.wat", runtime: core, with_input: true, expect_trap: false },
        ControlSpec { guest: "leak.wat", runtime: core, with_input: true, expect_trap: false },
        ControlSpec {
            guest: "trap_after_create.wat",
            runtime: core,
            with_input: true,
            expect_trap: true,
        },
        ControlSpec {
            guest: "wasix_leak.wat",
            runtime: GuestRuntime::Wasix,
            with_input: true,
            expect_trap: false,
        },
    ];
    assert(specs@ =~= control_specs());
    specs
}

impl ControlSpec {
    pub open spec fn spec_input(self) -> Option<Seq<u32>> {
        if self.with_input {
            Some(seq![1u32, 2, 3, 4])
        } else {
            None
        }
    }

    /// The synthetic input, for the controls that get one.
    pub fn input(&self) -> (words: Option<Vec<u32>>)
        ensures
            match words {
                Some(words) => self.spec_input() == Some(words@),
                None => self.spec_input() is None,
            },
    {
        if self.with_input {
            let words: Vec<u32> = vec![1, 2, 3, 4];
            assert(words@ =~= seq![1u32, 2, 3, 4]);
            Some(words)
        } else {
            None
        }
    }
}

#[derive(Debug)]
pub struct KernelReport {
    pub guest: &'static str,
    pub runtime: GuestRuntime,
    pub elements: usize,
    pub rounds: usize,
    pub status: i32,
    pub gpu_result: Vec<u32>,
    pub cpu_result: Vec<u32>,
    pub matches: bool,
    pub cpu_reference_ns: u128,
    pub upload_us: u128,
    pub pipeline_create_us: u128,
    pub dispatch_us: Vec<u128>,
    pub readback_us: u128,
    pub live_buffers_after: usize,
    pub live_pipelines_after: usize,
}

#[derive(Debug)]
pub struct ControlReport {
    pub guest: &'static str,
    pub runtime: GuestRuntime,
    pub status: Option<i32>,
    pub trapped: bool,
    pub passed: bool,
    pub live_buffers_after: usize,
    pub live_pipelines_after: usize,
}

/// Nothing that the guest created is still live.
pub open spec fn reclaimed(run: GuestRun) -> bool {
    run.live_buffers_after == 0 && run.live_pipelines_after == 0
}

/// A kernel run matches when the guest succeeded, its result is the CPU
/// reference's, it dispatched as often as it should, and nothing is left.
pub open spec fn kernel_matches(run: GuestRun, cpu_result: Seq<u32>, rounds: usize) -> bool {
    &&& run.status == Some(SUCCESS)
    &&& (match run.output {
        Some(output) => output@,
        None => Seq::empty(),
    }) == cpu_result
    &&& run.timing.dispatches@.len() == rounds
    &&& reclaimed(run)
}

/// A control passes when it trapped or succeeded, whichever it was meant to,
/// and nothing is left.
pub open spec fn control_passes(run: GuestRun, expect_trap: bool) -> bool {
    &&& if expect_trap {
        run.trapped
    } else {
        run.status == Some(SUCCESS)
    }
    &&& reclaimed(run)
}

fn same_words(a: &Vec<u32>, b: &Vec<u32>) -> (same: bool)
    ensures
        same == (a@ == b@),
{
    if a.len() != b.len() {
        return false;
    }
    let mut i: usize = 0;
    while i < a.len()
        invariant
            i <= a.len() == b.len(),
            a@.take(i as int) == b@.take(i as int),
        decreases a.len() - i,
    {
        if a[i] != b[i] {
            assert(a@[i as int] != b@[i as int]);
            return false;
        }
        i = i + 1;
        assert(a@.take(i as int) =~= b@.take(i as int));
    }
    assert(a@ =~= a@.take(i as int));
    assert(b@ =~= b@.take(i as int));
    true
}

/// Reports what a kernel guest's run came to, given what the CPU reference makes
/// of the kernel's input.
pub fn run_kernel(spec: &KernelSpec, run: GuestRun, cpu_result: Vec<u32>, cpu_reference_ns: u128) -> (report:
    KernelReport)
    requires
        cpu_result@ == spec.kernel.repeated(spec.spec_input(), spec.rounds as nat),
    ensures
        report.guest == spec.guest,
        report.runtime == spec.runtime,
        report.elements == spec.spec_input().len(),
        report.rounds == spec.rounds,
        report.status == match run.status {
            Some(status) => status,
            None => i32::MIN,
        },
        report.gpu_result@ == match run.output {
            Some(output) => output@,
            None => Seq::empty(),
        },
        report.cpu_result@ == spec.kernel.repeated(spec.spec_input(), spec.rounds as nat),
        report.matches == kernel_matches(run, report.cpu_result@, spec.rounds),
        report.cpu_reference_ns == cpu_reference_ns,
        report.upload_us == run.timing.upload / 1000,
        report.pipeline_create_us == run.timing.pipeline_create / 1000,
        report.dispatch_us@ == micros(run.timing.dispatches@),
        report.readback_us == run.timing.readback / 1000,
        report.live_buffers_after == run.live_buffers_after,
        report.live_pipelines_after == run.live_pipelines_after,
{
    let status: i32 = match run.status {
        Some(status) => status,
        None => i32::MIN,
    };
    let gpu_result: Vec<u32> = match run.output {
        Some(output) => output,
        None => Vec::new(),
    };
    let elements: usize = spec.input().len();
    let matches = status == SUCCESS && same_words(&gpu_result, &cpu_result)
        && run.timing.dispatches.len() == spec.rounds && run.live_buffers_after == 0
        && run.live_pipelines_after == 0;
    KernelReport {
        guest: spec.guest,
        runtime: spec.runtime,
        elements,
        rounds: spec.rounds,
        status,
        gpu_result,
        cpu_result,
        matches,
        cpu_reference_ns,
        upload_us: run.timing.upload / 1000,
        pipeline_create_us: run.timing.pipeline_create / 1000,
        dispatch_us: to_micros(&run.timing.dispatches),
        readback_us: run.timing.readback / 1000,
        live_buffers_after: run.live_buffers_after,
        live_pipelines_after: run.live_pipelines_after,
    }
}

/// Reports what a control guest's run came to.
pub fn run_control(spec: &ControlSpec, run: &GuestRun) -> (report: ControlReport)
    ensures
        report.guest == spec.guest,
        report.runtime == spec.runtime,
        report.status == run.status,
        report.trapped == run.trapped,
        report.passed == control_passes(*run, spec.expect_trap),
        report.live_buffers_after == run.live_buffers_after,
        report.live_pipelines_after == run.live_pipelines_after,
{
    let succeeded = match run.status {
        Some(status) => status == SUCCESS,
        None => false,
    };
    let outcome_ok = if spec.expect_trap {
        run.trapped
    } else {
        succeeded
    };
    ControlReport {
        guest: spec.guest,
        runtime: spec.runtime,
        status: run.status,
        trapped: run.trapped,
        passed: outcome_ok && run.live_buffers_after == 0 && run.live_pipelines_after == 0,
        live_buffers_after: run.live_buffers_after,
        live_pipelines_after: run.live_pipelines_after,
    }
}

/// Whether the report goes out as JSON: one of the arguments says so.
pub fn wants_json(args: &Vec<String>) -> (json: bool)
    ensures
        json == texts(args@).contains("--json"@),
{
    let mut i: usize = 0;
    while i < args.len()
        invariant
            i <= args.len(),
            forall|j: int| 0 <= j < i ==> #[trigger] texts(args@)[j] != "--json"@,
        decreases args.len() - i,
    {
        if *args[i].as_str() == *"--json" {
            assert(texts(args@)[i as int] == "--json"@);
            return true;
        }
        i = i + 1;
    }
    false
}

/// What the smoke run shows.
pub const SUBJECT: &'static str = "Wasmer core and WASIX guests -> wasmer_gpu_v0 host imports -> wgpu hardware compute, guest-supplied WGSL";

pub const WASMER_PIN: &'static str = "github.com/wasmerio/wasmer@6a844cff9bd2eb391ab91b7e41fee94260f0ec46";

pub const WASI_WEBGPU_PIN: &'static str = "sponsors/wasi-webgpu@6a776bada0b66d3dbf9da304a49ff2947ce4e1f8";

pub const WASI_GFX_RUNTIME_PIN: &'static str = "sponsors/wasi-gfx-runtime@772bc344d3d0e24ba2d3ee29fc0033fc6ccea81d";

pub const ABI: &'static str = "wasmer_gpu_v0: buffer_upload, buffer_read, buffer_release, pipeline_create, pipeline_dispatch, pipeline_release";

pub const LIMITATION_REFERENCE: &'static str = "wasi-webgpu and wasi-gfx-runtime are reference semantics only; this runner does not use Wasmtime or the component model.";

pub const LIMITATION_WASIX: &'static str = "WASIX coverage is one command guest instantiated through WasiEnvBuilder with the bridge registered as a PluggableRuntime InstantiationHook; no threads, side modules, filesystem or networking are exercised.";

pub const LIMITATION_SUBSET: &'static str = "The host exposes a bounded compute subset: one read_write storage binding, a fixed entry point, bounded dispatch dimensions, per-instance quotas. It is not full WebGPU, CUDA, graphics, zero-copy, GPU preemption, or distributed training.";

pub const LIMITATION_TIMING: &'static str = "Dispatch timings are host wall-clock around submit and wait on tiny inputs; they are not a speedup claim.";

pub const LIMITATION_LOCAL: &'static str = "No cloud runner, public upload, deployment, model call, or third-party probing is used.";

#[derive(Debug)]
pub struct SmokeReport {
    pub subject: &'static str,
    pub wasmer_pin: &'static str,
    pub wasi_webgpu_reference_pin: &'static str,
    pub wasi_gfx_runtime_reference_pin: &'static str,
    pub build_host_triple: String,
    pub adapter: String,
    pub backend: String,
    pub abi: &'static str,
    pub setup_us: u128,
    pub kernels: Vec<KernelReport>,
    pub controls: Vec<ControlReport>,
    pub all_kernels_match: bool,
    pub all_controls_pass: bool,
    pub resources_reclaimed: bool,
    pub limitations: Vec<&'static str>,
}

pub open spec fn all_match(kernels: Seq<KernelReport>) -> bool {
    forall|i: int| 0 <= i < kernels.len() ==> (#[trigger] kernels[i]).matches
}

pub open spec fn all_pass(controls: Seq<ControlReport>) -> bool {
    forall|i: int| 0 <= i < controls.len() ==> (#[trigger] controls[i]).passed
}

impl SmokeReport {
    /// What the report holds, given what the runs came to.
    pub open spec fn sums_up(
        self,
        build_host_triple: Seq<char>,
        snapshot: BridgeSnapshot,
        setup_us: u128,
        kernels: Seq<KernelReport>,
        controls: Seq<ControlReport>,
    ) -> bool {
        &&& self.subject == SUBJECT
        &&& self.wasmer_pin == WASMER_PIN
        &&& self.wasi_webgpu_reference_pin == WASI_WEBGPU_PIN
        &&& self.wasi_gfx_runtime_reference_pin == WASI_GFX_RUNTIME_PIN
        &&& self.build_host_triple@ == build_host_triple
        &&& self.adapter@ == snapshot.adapter_name@
        &&& self.backend@ == snapshot.backend@
        &&& self.abi == ABI
        &&& self.setup_us == setup_us
        &&& self.kernels@ == kernels
        &&& self.controls@ == controls
        &&& self.all_kernels_match == all_match(kernels)
        &&& self.all_controls_pass == all_pass(controls)
        &&& self.resources_reclaimed == (snapshot.live_buffers == 0 && snapshot.live_pipelines == 0)
        &&& self.limitations@ == seq![
            LIMITATION_REFERENCE,
            LIMITATION_WASIX,
            LIMITATION_SUBSET,
            LIMITATION_TIMING,
            LIMITATION_LOCAL,
        ]
    }

    /// Every kernel, every control and the final count of resources are as
    /// they should be.
    pub open spec fn spec_passed(self) -> bool {
        self.all_kernels_match && self.all_controls_pass && self.resources_reclaimed
    }

    /// Sums up the runs.
    pub fn new(
        build_host_triple: String,
        snapshot: BridgeSnapshot,
        setup_us: u128,
        kernels: Vec<KernelReport>,
        controls: Vec<ControlReport>,
    ) -> (report: SmokeReport)
        ensures
            report.sums_up(build_host_triple@, snapshot, setup_us, kernels@, controls@),
    {
        let mut all_kernels_match = true;
        let mut i: usize = 0;
        while i < kernels.len()
            invariant
                i <= kernels.len(),
                all_kernels_match == (forall|j: int|
                    0 <= j < i ==> (#[trigger] kernels@[j]).matches),
            decreases kernels.len() - i,
        {
            if !kernels[i].matches {
                all_kernels_match = false;
                assert(!kernels@[i as int].matches);
            }
            i = i + 1;
        }
        let mut all_controls_pass = true;
        let mut i: usize = 0;
        while i < controls.len()
            invariant
                i <= controls.len(),
                all_controls_pass == (forall|j: int|
                    0 <= j < i ==> (#[trigger] controls@[j]).passed),
            decreases controls.len() - i,
        {
            if !controls[i].passed {
                all_controls_pass = false;
                assert(!controls@[i as int].passed);
            }
            i = i + 1;
        }
        let limitations: Vec<&'static str> = vec![
            LIMITATION_REFERENCE,
            LIMITATION_WASIX,
            LIMITATION_SUBSET,
            LIMITATION_TIMING,
            LIMITATION_LOCAL,
        ];
        assert(limitations@ =~= seq![
            LIMITATION_REFERENCE,
            LIMITATION_WASIX,
            LIMITATION_SUBSET,
            LIMITATION_TIMING,
            LIMITATION_LOCAL,
        ]);
        SmokeReport {
            subject: SUBJECT,
            wasmer_pin: WASMER_PIN,
            wasi_webgpu_reference_pin: WASI_WEBGPU_PIN,
            wasi_gfx_runtime_reference_pin: WASI_GFX_RUNTIME_PIN,
            build_host_triple,
            adapter: snapshot.adapter_name,
            backend: snapshot.backend,
            abi: ABI,
            setup_us,
            kernels,
            controls,
            all_kernels_match,
            all_controls_pass,
            resources_reclaimed: snapshot.live_buffers == 0 && snapshot.live_pipelines == 0,
            limitations,
        }
    }

    /// Whether the smoke check as a whole succeeded.
    pub fn passed(&self) -> (passed: bool)
        ensures
            passed == self.spec_passed(),
    {
        self.all_kernels_match && self.all_controls_pass && self.resources_reclaimed
    }
}

/// The lines on one kernel guest, after `head`.
pub open spec fn kernel_lines(head: Seq<char>, k: KernelReport) -> Seq<char> {
    head + "  "@ + k.guest@ + " ["@ + k.runtime.spec_title() + "] ("@ + decimal(k.elements as nat)
        + " u32 x "@ + decimal(k.rounds as nat) + " round(s)): status="@ + signed_decimal(
        k.status as int,
    ) + " match="@ + truth(k.matches) + "\n    gpu: "@ + listed(widened(k.gpu_result@))
        + "\n    cpu: "@ + listed(widened(k.cpu_result@)) + "\n    upload="@ + decimal(
        k.upload_us as nat,
    ) + "us pipeline_create="@ + decimal(k.pipeline_create_us as nat) + "us dispatch="@ + listed(
        k.dispatch_us@,
    ) + "us readback="@ + decimal(k.readback_us as nat) + "us cpu_ref="@ + decimal(
        k.cpu_reference_ns as nat,
    ) + "ns\n"@
}

/// The lines on all kernel guests, after `head`.
pub open spec fn kernels_lines(head: Seq<char>, kernels: Seq<KernelReport>) -> Seq<char>
    decreases kernels.len(),
{
    if kernels.len() == 0 {
        head
    } else {
        kernel_lines(kernels_lines(head, kernels.drop_last()), kernels.last())
    }
}

/// The line on one control guest, after `head`.
pub open spec fn control_line(head: Seq<char>, c: ControlReport) -> Seq<char> {
    head + "  "@ + c.guest@ + " ["@ + c.runtime.spec_title() + "]: status="@ + optional_decimal(
        c.status,
    ) + " trapped="@ + truth(c.trapped) + " live_buffers="@ + decimal(c.live_buffers_after as nat)
        + " live_pipelines="@ + decimal(c.live_pipelines_after as nat) + " passed="@ + truth(
        c.passed,
    ) + "\n"@
}

/// The lines on all control guests, after `head`.
pub open spec fn controls_lines(head: Seq<char>, controls: Seq<ControlReport>) -> Seq<char>
    decreases controls.len(),
{
    if controls.len() == 0 {
        head
    } else {
        control_line(controls_lines(head, controls.drop_last()), controls.last())
    }
}

impl SmokeReport {
    /// The report for a reader at a terminal.
    pub open spec fn spec_human_report(self) -> Seq<char> {
        let head = "wasmer-gpu compute smoke\n========================\nsubject: "@ + self.subject@
            + "\nwasmer pin: "@ + self.wasmer_pin@ + "\nwasi-webgpu reference: "@
            + self.wasi_webgpu_reference_pin@ + "\nwasi-gfx-runtime reference: "@
            + self.wasi_gfx_runtime_reference_pin@ + "\nbuild host: "@ + self.build_host_triple@
            + "\nadapter: "@ + self.adapter@ + " ("@ + self.backend@ + ")\nabi: "@ + self.abi@
            + "\nsetup: "@ + decimal(self.setup_us as nat) + "us\nkernels:\n"@;
        let kernels = kernels_lines(head, self.kernels@) + "controls:\n"@;
        let controls = controls_lines(kernels, self.controls@) + "all kernels match: "@ + truth(
            self.all_kernels_match,
        ) + "\nall controls pass: "@ + truth(self.all_controls_pass) + "\nresources reclaimed: "@
            + truth(self.resources_reclaimed) + "\nlimitations:\n"@;
        bullets(controls, self.limitations@)
    }

    /// The report for a reader at a terminal.
    pub fn human_report(&self) -> (text: String)
        ensures
            text@ == self.spec_human_report(),
    {
        let mut text = "wasmer-gpu compute smoke\n========================\nsubject: ".to_owned();
        text.append(self.subject);
        text.append("\nwasmer pin: ");
        text.append(self.wasmer_pin);
        text.append("\nwasi-webgpu reference: ");
        text.append(self.wasi_webgpu_reference_pin);
        text.append("\nwasi-gfx-runtime reference: ");
        text.append(self.wasi_gfx_runtime_reference_pin);
        text.append("\nbuild host: ");
        text.append(self.build_host_triple.as_str());
        text.append("\nadapter: ");
        text.append(self.adapter.as_str());
        text.append(" (");
        text.append(self.backend.as_str());
        text.append(")\nabi: ");
        text.append(self.abi);
        text.append("\nsetup: ");
        push_decimal(&mut text, self.setup_us);
        text.append("us\nkernels:\n");
        let ghost head = text@;
        let mut i: usize = 0;
        assert(self.kernels@.take(0) =~= Seq::empty());
        while i < self.kernels.len()
            invariant
                i <= self.kernels.len(),
                text@ == kernels_lines(head, self.kernels@.take(i as int)),
            decreases self.kernels.len() - i,
        {
            push_kernel(&mut text, &self.kernels[i]);
            i = i + 1;
            assert(self.kernels@.take(i as int).drop_last() =~= self.kernels@.take(i - 1));
        }
        assert(self.kernels@.take(i as int) =~= self.kernels@);
        text.append("controls:\n");
        let ghost head = text@;
        let mut i: usize = 0;
        assert(self.controls@.take(0) =~= Seq::empty());
        while i < self.controls.len()
            invariant
                i <= self.controls.len(),
                text@ == controls_lines(head, self.controls@.take(i as int)),
            decreases self.controls.len() - i,
        {
            push_control(&mut text, &self.controls[i]);
            i = i + 1;
            assert(self.controls@.take(i as int).drop_last() =~= self.controls@.take(i - 1));
        }
        assert(self.controls@.take(i as int) =~= self.controls@);
        text.append("all kernels match: ");
        push_truth(&mut text, self.all_kernels_match);
        text.append("\nall controls pass: ");
        push_truth(&mut text, self.all_controls_pass);
        text.append("\nresources reclaimed: ");
        push_truth(&mut text, self.resources_reclaimed);
        text.append("\nlimitations:\n");
        push_bullets(&mut text, &self.limitations);
        text
    }
}

fn push_kernel(text: &mut String, k: &KernelReport)
    ensures
        final(text)@ == kernel_lines(old(text)@, *k),
{
    text.append("  ");
    text.append(k.guest);
    text.append(" [");
    text.append(k.runtime.title());
    text.append("] (");
    push_decimal(text, k.elements as u128);
    text.append(" u32 x ");
    push_decimal(text, k.rounds as u128);
    text.append(" round(s)): status=");
    push_signed(text, k.status);
    text.append(" match=");
    push_truth(text, k.matches);
    text.append("\n    gpu: ");
    push_words(text, &k.gpu_result);
    text.append("\n    cpu: ");
    push_words(text, &k.cpu_result);
    text.append("\n    upload=");
    push_decimal(text, k.upload_us);
    text.append("us pipeline_create=");
    push_decimal(text, k.pipeline_create_us);
    text.append("us dispatch=");
    push_list(text, &k.dispatch_us);
    text.append("us readback=");
    push_decimal(text, k.readback_us);
    text.append("us cpu_ref=");
    push_decimal(text, k.cpu_reference_ns);
    text.append("ns\n");
}

fn push_control(text: &mut String, c: &ControlReport)
    ensures
        final(text)@ == control_line(old(text)@, *c),
{
    text.append("  ");
    text.append(c.guest);
    text.append(" [");
    text.append(c.runtime.title());
    text.append("]: status=");
    push_optional(text, c.status);
    text.append(" trapped=");
    push_truth(text, c.trapped);
    text.append(" live_buffers=");
    push_decimal(text, c.live_buffers_after as u128);
    text.append(" live_pipelines=");
    push_decimal(text, c.live_pipelines_after as u128);
    text.append(" passed=");
    push_truth(text, c.passed);
    text.append("\n");
}

} // verus!
