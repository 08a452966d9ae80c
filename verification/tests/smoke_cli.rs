//! The smoke run's tables, references and reports. Expected kernel results are
//! computed independently of the crate.
use wasmer_gpu_demo::device::{BridgeSnapshot, Timing};
use wasmer_gpu_demo::encoding::words_to_bytes;
use wasmer_gpu_demo::guest::{
    compile_guest, finish_run, guest_end, output_range, CallOutcome, GuestEnd, GuestRun,
    GuestRuntime,
};
use wasmer_gpu_demo::kernels::{
    collatz_iterations, collatz_reference, lattice_hash, lowbias32, lowbias32_reference, OVERFLOW,
};
use wasmer_gpu_demo::smoke::{
    controls, kernels, run_control, run_kernel, wants_json, Kernel, SmokeReport,
};

const COLLATZ_EXPECTED: [u32; 4] = [0, 1, 7, 2];
const LOWBIAS32_8_ROUNDS_EXPECTED: [u32; 8] = [
    0,
    2_545_901_461,
    2_022_763_327,
    2_777_816_046,
    2_697_318_930,
    3_120_225_037,
    1_226_734_786,
    2_562_130_367,
];

fn snapshot(live_buffers: usize, live_pipelines: usize) -> BridgeSnapshot {
    BridgeSnapshot {
        adapter_name: "adapter".to_string(),
        backend: "Metal".to_string(),
        live_buffers,
        live_pipelines,
    }
}

/// A run of a kernel guest that leaves `result` behind its input.
fn kernel_run(outcome: CallOutcome, runtime: GuestRuntime, input: &[u32], result: &[u32], dispatches: usize) -> GuestRun {
    let end = guest_end(runtime, outcome, false).expect("an outcome");
    let bytes = output_range(Some(input), end.status).map(|(offset, len)| {
        let mut memory = words_to_bytes(input);
        memory.extend(words_to_bytes(result));
        memory[offset as usize..offset as usize + len].to_vec()
    });
    let timing = Timing {
        upload: 1_000,
        pipeline_create: 2_000,
        dispatches: vec![3_999; dispatches],
        readback: 4_000,
    };
    finish_run(end, bytes, timing, &snapshot(0, 0))
}

#[test]
fn smoke_binary_runs_guest_kernels_on_core_and_wasix_and_all_controls() {
    let mut kernel_reports = Vec::new();
    for spec in kernels() {
        let input = spec.input();
        let cpu_result = spec.kernel.cpu_result(spec.input(), spec.rounds);
        let gpu_result: &[u32] = match spec.kernel {
            Kernel::Collatz => &COLLATZ_EXPECTED,
            Kernel::Lowbias32 => &LOWBIAS32_8_ROUNDS_EXPECTED,
        };
        let outcome = match spec.runtime {
            GuestRuntime::Core => CallOutcome::Returned(0),
            GuestRuntime::Wasix => CallOutcome::Exited(0),
        };
        let run = kernel_run(outcome, spec.runtime, &input, gpu_result, spec.rounds);
        kernel_reports.push(run_kernel(&spec, run, cpu_result, 5));
    }
    let mut control_reports = Vec::new();
    for spec in controls() {
        let outcome = if spec.expect_trap { CallOutcome::Trapped } else { CallOutcome::Returned(0) };
        let end = guest_end(spec.runtime, outcome, spec.expect_trap).expect("an outcome");
        let run = finish_run(end, None, Timing::default(), &snapshot(0, 0));
        control_reports.push(run_control(&spec, &run));
    }
    let report = SmokeReport::new(
        "host".to_string(),
        snapshot(0, 0),
        9,
        kernel_reports,
        control_reports,
    );

    assert!(report.passed());
    assert!(report.all_kernels_match);
    assert!(report.all_controls_pass);
    assert!(report.resources_reclaimed);
    assert!(!report.build_host_triple.is_empty());

    let kernels = &report.kernels;
    assert_eq!(kernels.len(), 3);

    let collatz = &kernels[0];
    assert_eq!(collatz.guest, "collatz_valid.wat");
    assert_eq!(collatz.runtime, GuestRuntime::Core);
    assert_eq!(collatz.gpu_result, COLLATZ_EXPECTED);
    assert_eq!(collatz.cpu_result, COLLATZ_EXPECTED);
    assert!(collatz.matches);
    assert_eq!(collatz.dispatch_us.len(), 1);

    let hash = &kernels[1];
    assert_eq!(hash.guest, "lowbias32_warm.wat");
    assert_eq!(hash.rounds, 8);
    assert_eq!(hash.gpu_result, LOWBIAS32_8_ROUNDS_EXPECTED);
    assert_eq!(hash.cpu_result, LOWBIAS32_8_ROUNDS_EXPECTED);
    assert!(hash.matches);
    assert_eq!(hash.dispatch_us.len(), 8);

    let wasix = &kernels[2];
    assert_eq!(wasix.guest, "wasix_collatz.wat");
    assert_eq!(wasix.runtime, GuestRuntime::Wasix);
    assert_eq!(wasix.status, 0);
    assert_eq!(wasix.gpu_result, COLLATZ_EXPECTED);
    assert!(wasix.matches);
    assert_eq!(wasix.dispatch_us.len(), 1);

    let names: Vec<&str> = report.controls.iter().map(|c| c.guest).collect();
    assert_eq!(
        names,
        [
            "invalid_range.wat",
            "invalid_handle.wat",
            "invalid_shader.wat",
            "unaligned_read.wat",
            "quota.wat",
            "early_exit.wat",
            "leak.wat",
            "trap_after_create.wat",
            "wasix_leak.wat",
        ]
    );
    for control in &report.controls {
        assert!(control.passed, "control {}", control.guest);
        assert_eq!(control.live_buffers_after, 0);
        assert_eq!(control.live_pipelines_after, 0);
        if control.guest == "trap_after_create.wat" {
            assert!(control.trapped);
        } else {
            assert_eq!(control.status, Some(0));
        }
    }
}

#[test]
fn collatz_counts_steps_and_reports_overflow() {
    assert_eq!(collatz_iterations(0), 0);
    assert_eq!(collatz_iterations(27), 111);
    assert_eq!(collatz_iterations(0x5555_5555), OVERFLOW);
    assert_eq!(collatz_iterations(0xffff_ffff), OVERFLOW);
    assert_eq!(collatz_reference(&[1, 2, 3, 4]), COLLATZ_EXPECTED);
}

#[test]
fn lowbias32_hashes_one_round() {
    assert_eq!(lowbias32(0), 0);
    let once = lowbias32_reference(&[1]);
    assert_eq!(once, [lowbias32(1)]);
    assert_eq!(lowbias32(1), 1_753_845_952);
    assert_ne!(lowbias32(2), lowbias32(3));
}

#[test]
fn lattice_hashes_have_24_bits_and_wrap() {
    for (x, y, seed) in [(0, 0, 0), (-1, 5, 99), (i32::MIN, i32::MAX, u32::MAX)] {
        let mixed = (x as u32)
            .wrapping_mul(0x9e37_79b1)
            .wrapping_add((y as u32).wrapping_mul(0x85eb_ca6b))
            .wrapping_add(u32::wrapping_mul(seed, 0xc2b2_ae35));
        assert_eq!(lattice_hash(x, y, seed), lowbias32(mixed) >> 8);
        assert!(lattice_hash(x, y, seed) < 1 << 24);
    }
}

#[test]
fn a_call_ends_with_a_status_or_a_trap() {
    let status = |code| Some(GuestEnd { status: Some(code), trapped: false });
    let core = GuestRuntime::Core;
    let wasix = GuestRuntime::Wasix;
    assert_eq!(guest_end(core, CallOutcome::Returned(7), true), status(7));
    assert_eq!(guest_end(wasix, CallOutcome::Returned(7), true), status(0));
    assert_eq!(guest_end(wasix, CallOutcome::Exited(7), true), status(7));
    assert_eq!(guest_end(core, CallOutcome::Trapped, false), None);
    assert_eq!(guest_end(core, CallOutcome::Exited(7), false), None);
    assert_eq!(
        guest_end(wasix, CallOutcome::Trapped, true),
        Some(GuestEnd { status: None, trapped: true })
    );
}

#[test]
fn output_follows_the_input_of_a_successful_guest() {
    let input = [1u32, 2, 3];
    assert_eq!(output_range(Some(&input), Some(0)), Some((12, 12)));
    assert_eq!(output_range(Some(&input), Some(1)), None);
    assert_eq!(output_range(Some(&input), None), None);
    assert_eq!(output_range(None, Some(0)), None);
}

#[test]
fn a_kernel_that_differs_in_anything_does_not_match() {
    let spec = kernels()[0];
    let judge = |result: &[u32], dispatches, status| {
        let run = kernel_run(CallOutcome::Returned(status), spec.runtime, &spec.input(), result, dispatches);
        let cpu_result = spec.kernel.cpu_result(spec.input(), spec.rounds);
        run_kernel(&spec, run, cpu_result, 0)
    };
    assert!(judge(&[0, 1, 7, 2], 1, 0).matches);
    assert!(!judge(&[0, 1, 7, 3], 1, 0).matches);
    assert!(!judge(&[0, 1, 7, 2], 2, 0).matches);
    let failed = judge(&[0, 1, 7, 2], 1, 3);
    assert!(!failed.matches);
    assert_eq!(failed.status, 3);
    assert!(failed.gpu_result.is_empty());
    // A run without a status is reported as the smallest one.
    let end = GuestEnd { status: None, trapped: true };
    let run = finish_run(end, None, Timing::default(), &snapshot(0, 0));
    let cpu_result = spec.kernel.cpu_result(spec.input(), spec.rounds);
    let silent = run_kernel(&spec, run, cpu_result, 0);
    assert_eq!(silent.status, i32::MIN);
    assert_eq!(silent.cpu_result, COLLATZ_EXPECTED);
}

#[test]
fn a_control_passes_only_as_it_was_meant_to() {
    let specs = controls();
    let run = |status, trapped, live| GuestRun {
        status,
        trapped,
        output: None,
        timing: Timing::default(),
        live_buffers_after: live,
        live_pipelines_after: 0,
    };
    assert!(run_control(&specs[0], &run(Some(0), false, 0)).passed);
    assert!(!run_control(&specs[0], &run(Some(2), false, 0)).passed);
    assert!(!run_control(&specs[0], &run(None, true, 0)).passed);
    assert!(!run_control(&specs[0], &run(Some(0), false, 1)).passed);
    assert!(specs[7].expect_trap);
    assert!(run_control(&specs[7], &run(None, true, 0)).passed);
    assert!(!run_control(&specs[7], &run(Some(0), false, 0)).passed);
    assert_eq!(specs[0].input(), None);
    assert_eq!(specs[8].input(), Some(vec![1, 2, 3, 4]));
}

#[test]
fn the_smoke_report_reads_as_it_should() {
    let spec = kernels()[0];
    let run = kernel_run(CallOutcome::Returned(-3), spec.runtime, &spec.input(), &[], 1);
    let kernel = run_kernel(&spec, run, spec.kernel.cpu_result(spec.input(), 1), 77);
    let end = GuestEnd { status: None, trapped: true };
    let run = finish_run(end, None, Timing::default(), &snapshot(1, 2));
    let control = run_control(&controls()[7], &run);
    let report =
        SmokeReport::new("triple".to_string(), snapshot(1, 2), 12, vec![kernel], vec![control]);
    assert!(!report.all_kernels_match && !report.all_controls_pass && !report.passed());
    let text = report.human_report();
    let lines: Vec<&str> = text.lines().collect();
    assert_eq!(lines[0], "wasmer-gpu compute smoke");
    assert_eq!(lines[1], "========================");
    assert_eq!(lines[6], "build host: triple");
    assert_eq!(lines[7], "adapter: adapter (Metal)");
    assert_eq!(lines[9], "setup: 12us");
    assert_eq!(lines[10], "kernels:");
    assert_eq!(
        lines[11],
        "  collatz_valid.wat [Core] (4 u32 x 1 round(s)): status=-3 match=false"
    );
    assert_eq!(lines[12], "    gpu: []");
    assert_eq!(lines[13], "    cpu: [0, 1, 7, 2]");
    assert_eq!(
        lines[14],
        "    upload=1us pipeline_create=2us dispatch=[3]us readback=4us cpu_ref=77ns"
    );
    assert_eq!(lines[15], "controls:");
    assert_eq!(
        lines[16],
        "  trap_after_create.wat [Core]: status=None trapped=true live_buffers=1 live_pipelines=2 passed=false"
    );
    assert_eq!(lines[17], "all kernels match: false");
    assert_eq!(lines[20], "limitations:");
    assert_eq!(lines.len(), 26);
    assert!(text.ends_with("third-party probing is used.\n"));
}

#[test]
fn json_is_asked_for_by_one_argument() {
    assert!(wants_json(&vec!["x".to_string(), "--json".to_string()]));
    assert!(!wants_json(&vec!["--JSON".to_string()]));
    assert!(!wants_json(&vec![]));
}

#[test]
fn guests_are_assembled_from_text() {
    let wasm = compile_guest("(module)", false).expect("a module");
    assert_eq!(wasm, b"\0asm\x01\0\0\0");
    let error = compile_guest("(modul)", false).expect_err("no module");
    assert_eq!(error.context(), "compile WAT guest");
    let error = compile_guest("(", true).expect_err("no module");
    assert_eq!(error.context(), "compile embedded WAT guest");
    assert!(!error.cause.to_string().is_empty());
}
