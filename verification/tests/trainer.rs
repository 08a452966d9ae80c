//! The CNN trainer guest, step by step.
use wasmer_gpu_demo::mnist_host::GuestConfig;
use wasmer_gpu_demo::trainer::{
    initial_draws, stage_batch, BridgeCall, Config, Digits, Kernel, Step, Trainer, XorShift32,
    DRAWS, EXIT_CONFIG, EXIT_DISPATCH, EXIT_PIPELINE, EXIT_READ, EXIT_RELEASE, EXIT_UPLOAD,
    EXIT_WRITE, FRONT, OFF_X, OFF_Y, PARAMS, TOTAL,
};

fn config() -> Config {
    Config {
        train_ptr: 0,
        train_n: 100,
        train_labels_ptr: 0,
        test_ptr: 0,
        test_n: 70,
        test_labels_ptr: 0,
        steps: 3,
        batch: 64,
        eval_every: 2,
        learning_rate: 0.1f32.to_bits(),
        seed: 42,
        progress_every: 0,
    }
}

/// Everything that a run does when every call succeeds; handles count up from
/// 100.
fn run(config: Config) -> (Vec<Step>, Vec<BridgeCall>) {
    let mut trainer = Trainer::start(0, config).expect("usable configuration");
    let mut steps = Vec::new();
    let mut calls = Vec::new();
    let mut handle = 100;
    while let Some(step) = trainer.step() {
        steps.push(step);
        let mut status = 0;
        if let Some(call) = trainer.call() {
            calls.push(call);
            if matches!(step, Step::Upload | Step::CreatePipeline { .. }) {
                status = handle;
                handle += 1;
            }
        }
        assert_eq!(trainer.advance(status), Ok(()));
    }
    (steps, calls)
}

#[test]
fn a_run_sets_up_trains_evaluates_and_releases() {
    let (steps, calls) = run(config());
    assert_eq!(steps[0], Step::Initialize);
    assert_eq!(steps[1], Step::ReportWeights { tag: 0 });
    assert_eq!(steps[2], Step::Upload);
    assert_eq!(steps[8], Step::CreatePipeline { kernel: Kernel::ConvUpdate });
    // First training step: a whole batch, then the loss and the first update.
    assert_eq!(steps[9], Step::Stage { digits: Digits::Train, first: 0, n: 64 });
    assert_eq!(steps[10], Step::Write { at: 0, len: 16 });
    assert_eq!(steps[11], Step::Write { at: OFF_X, len: 64 * 784 });
    assert_eq!(steps[12], Step::Write { at: OFF_Y, len: 64 });
    assert_eq!(steps[13], Step::Dispatch { kernel: Kernel::ConvForward, groups: 64 * 72 });
    assert_eq!(steps[14], Step::Dispatch { kernel: Kernel::PoolForward, groups: 64 * 18 });
    assert_eq!(steps[15], Step::Dispatch { kernel: Kernel::FcForward, groups: 64 });
    assert_eq!(steps[16], Step::Dispatch { kernel: Kernel::FcBackward, groups: 64 * 18 });
    assert_eq!(steps[17], Step::Dispatch { kernel: Kernel::FcUpdate, groups: 181 });
    assert_eq!(steps[18], Step::Dispatch { kernel: Kernel::ConvUpdate, groups: 26 });
    assert_eq!(steps[19], Step::Read { len: FRONT });
    assert_eq!(steps[20], Step::ReportProgress { step: 0, samples_seen: 64, n: 64 });
    assert_eq!(steps[21], Step::ReportWeights { tag: 1 });
    // Second step: the rest of the training set, no progress, an evaluation.
    assert_eq!(steps[22], Step::Stage { digits: Digits::Train, first: 64, n: 36 });
    assert_eq!(steps[32], Step::Stage { digits: Digits::Test, first: 0, n: 64 });
    assert_eq!(steps[39], Step::Read { len: 720 });
    assert_eq!(steps[40], Step::ReportEvalProbs { first: 0, n: 64 });
    assert_eq!(steps[41], Step::Stage { digits: Digits::Test, first: 64, n: 6 });
    assert_eq!(steps[49], Step::ReportEvalProbs { first: 64, n: 6 });
    assert_eq!(steps[50], Step::ReportEvalDone { step: 1 });
    // Third and last step: 2 * 64 wraps around to 28.
    assert_eq!(steps[51], Step::Stage { digits: Digits::Train, first: 28, n: 64 });
    assert_eq!(steps[62], Step::ReportProgress { step: 2, samples_seen: 164, n: 64 });
    assert_eq!(steps[81], Step::ReportEvalDone { step: 2 });
    assert_eq!(steps[82], Step::Read { len: FRONT });
    assert_eq!(steps[83], Step::ReportWeights { tag: 2 });
    assert_eq!(steps[84], Step::ReleasePipeline { kernel: Kernel::ConvForward });
    assert_eq!(steps[90], Step::ReleaseBuffer);
    assert_eq!(steps.len(), 91);

    assert_eq!(calls[0], BridgeCall::BufferUpload { len: 3_494_824 });
    assert_eq!(
        calls[8],
        BridgeCall::BufferWrite { handle: 100, offset: 49_832, state_at: 12_458, len: 200_704 }
    );
    assert_eq!(
        calls[10],
        BridgeCall::PipelineDispatch { pipeline: 101, buffer: 100, x: 4_608, y: 1, z: 1 }
    );
    assert_eq!(calls[16], BridgeCall::BufferRead { handle: 100, len: 49_832 });
    assert_eq!(calls[calls.len() - 2], BridgeCall::PipelineRelease { handle: 106 });
    assert_eq!(calls[calls.len() - 1], BridgeCall::BufferRelease { handle: 100 });
}

#[test]
fn every_evaluation_covers_the_test_set() {
    let (steps, _) = run(Config { batch: 7, eval_every: 1, progress_every: 2, ..config() });
    let mut next = 0;
    let mut evaluations = 0;
    for step in steps {
        match step {
            Step::ReportEvalProbs { first, n } => {
                assert_eq!(first, next);
                next += n;
            }
            Step::ReportEvalDone { .. } => {
                assert_eq!(next, 70);
                next = 0;
                evaluations += 1;
            }
            Step::Write { at, len } => assert!(len > 0 && at + len <= TOTAL),
            _ => {}
        }
    }
    assert_eq!(evaluations, 3);
}

#[test]
fn a_failing_call_ends_the_run_with_its_stage() {
    let mut seen = Vec::new();
    for failing in 0..91 {
        let mut trainer = Trainer::start(0, config()).expect("usable configuration");
        for _ in 0..failing {
            assert_eq!(trainer.advance(1), Ok(()));
        }
        let step = trainer.step().expect("not finished");
        let moved = trainer.advance(-3);
        if let Err(code) = moved {
            assert!(trainer.call().is_some());
            // A failed step is still the current one.
            assert_eq!(trainer.step(), Some(step));
            let expected = match step {
                Step::Upload => EXIT_UPLOAD,
                Step::CreatePipeline { .. } => EXIT_PIPELINE,
                Step::Write { .. } => EXIT_WRITE,
                Step::Dispatch { .. } => EXIT_DISPATCH,
                Step::Read { .. } => EXIT_READ,
                Step::ReleasePipeline { .. } | Step::ReleaseBuffer => EXIT_RELEASE,
                other => panic!("{other:?} has no status"),
            };
            assert_eq!(code, expected);
            if !seen.contains(&code) {
                seen.push(code);
            }
        }
    }
    assert_eq!(seen, [12, 13, 14, 15, 16, 17]);
}

#[test]
fn an_unusable_configuration_is_refused() {
    assert_eq!(Trainer::start(-1, config()).err(), Some(EXIT_CONFIG));
    for unusable in [
        Config { train_n: 0, ..config() },
        Config { test_n: 0, ..config() },
        Config { steps: 0, ..config() },
    ] {
        assert_eq!(Trainer::start(0, unusable).err(), Some(EXIT_CONFIG));
    }
    // A batch out of range is held within it.
    let trainer_batch = |batch| match run(Config { batch, ..config() }).0[9] {
        Step::Stage { n, .. } => n,
        other => panic!("{other:?}"),
    };
    assert_eq!((trainer_batch(0), trainer_batch(1_000)), (1, 64));
}

#[test]
fn the_guest_reads_what_the_host_wrote() {
    let written = GuestConfig {
        train_ptr: 1,
        train_n: 2,
        train_labels_ptr: 3,
        test_ptr: 4,
        test_n: 5,
        test_labels_ptr: 6,
        steps: 7,
        batch: 8,
        eval_every: 9,
        learning_rate: 0x3dcc_cccd,
        seed: u32::MAX,
        progress_every: 12,
    };
    let read = Config::read(&written.to_bytes());
    assert_eq!((read.train_ptr, read.train_n, read.train_labels_ptr), (1, 2, 3));
    assert_eq!((read.test_ptr, read.test_n, read.test_labels_ptr), (4, 5, 6));
    assert_eq!((read.steps, read.batch, read.eval_every), (7, 8, 9));
    assert_eq!((read.learning_rate, read.seed, read.progress_every), (0x3dcc_cccd, u32::MAX, 12));
}

#[test]
fn xorshift_draws_known_numbers() {
    let mut rng = XorShift32(1);
    assert_eq!(rng.next(), 270_369);
    assert_eq!(rng.next(), 67_634_689);
    let draws = initial_draws(42);
    assert_eq!(draws.len(), DRAWS as usize);
    assert_eq!(DRAWS, 11_720);
    let mut rng = XorShift32(43);
    assert_eq!(draws[0], rng.next());
    assert_eq!(draws[1], rng.next());
    assert!(draws.iter().all(|&draw| draw != 0));
    assert_eq!(XorShift32(0).next(), 0);
}

#[test]
fn batches_are_cut_from_the_set() {
    let images: Vec<u8> = (0..3 * 784u32).map(|i| (i / 784) as u8).collect();
    let batch = stage_batch(&images, &[7, 8, 9], 1, 2);
    assert_eq!(batch.labels, [8, 9]);
    assert_eq!(batch.pixels.len(), 2 * 784);
    assert_eq!((batch.pixels[0], batch.pixels[784]), (1, 2));
    assert!(stage_batch(&images, &[7, 8, 9], 3, 0).pixels.is_empty());
    assert_eq!((PARAMS, TOTAL), (11_738, 873_706));
}
