//! The host's side of a training run.
use wasmer::sys::{BaseTunables, NativeEngineExt};
use wasmer::{Engine, Memory, MemoryType, Pages, Store};
use wasmer_gpu_demo::device::BridgeSnapshot;
use wasmer_gpu_demo::memory::{read_bytes, write_bytes};
use wasmer_gpu_demo::mnist_cli::{parse_options, Arg, Location, Options};
use wasmer_gpu_demo::mnist_data::{
    load_dataset, read_idx_images, read_idx_labels, Dataset, DatasetFiles, IdxError, Part,
};
use wasmer_gpu_demo::mnist_host::{
    check_training, checks_passed, expectation, log_name, read_f32s, test_split, train_split,
    Differences, GuestConfig, HostState, RunError,
};
use wasmer_gpu_demo::mnist_model::{
    float_is_finite, float_is_nan, float_is_negative, float_is_zero, order_key, ModelKind,
    CNN_PARAMS, SOFTMAX_PARAMS,
};
use wasmer_gpu_demo::sha256::sha256_hex;

fn args(texts: &[&str]) -> Vec<Arg> {
    texts
        .iter()
        .map(|text| Arg {
            text: text.to_string(),
            float: text.parse::<f32>().ok().map(f32::to_bits),
        })
        .collect()
}

fn options(texts: &[&str]) -> Options {
    parse_options(&args(texts)).expect("accepted")
}

#[test]
fn an_empty_mnist_command_line_asks_for_the_defaults() {
    let options = options(&[]);
    assert_eq!(options.model, ModelKind::Cnn);
    assert_eq!((options.steps, options.batch, options.seed), (600, 64, 42));
    assert_eq!((options.eval_every, options.progress_every), (100, 10));
    assert_eq!((options.train_samples, options.test_samples), (12_000, 2_000));
    assert_eq!(f32::from_bits(options.learning_rate), 0.1);
    assert!(matches!(options.data_dir, Location::Project("data/mnist")));
    assert!(matches!(options.log_dir, Location::Project("data/mnist/runs")));
    assert!(matches!(
        options.guest,
        Location::Project("guest/mnist-cnn/mnist_cnn_guest.wasm")
    ));
}

#[test]
fn mnist_flags_are_read_from_left_to_right() {
    let options = options(&[
        "--model", "softmax", "--steps", "5", "--lr", "0", "--train", "7", "--test", "8",
        "--batch", "1", "--eval-every", "0", "--progress-every", "3", "--seed", "9", "--steps",
        "6", "--data-dir", "d", "--guest", "", "--log-dir", "l",
    ]);
    assert_eq!(options.model, ModelKind::Softmax);
    assert_eq!((options.steps, options.batch, options.seed), (6, 1, 9));
    assert_eq!((options.eval_every, options.progress_every), (0, 3));
    assert_eq!((options.train_samples, options.test_samples), (7, 8));
    assert_eq!(options.learning_rate, 0);
    assert!(matches!(options.data_dir, Location::Given(path) if path == "d"));
    assert!(matches!(options.guest, Location::Project("guest/mnist/mnist_guest.wasm")));
    assert!(matches!(options.log_dir, Location::Given(path) if path == "l"));
}

#[test]
fn a_learning_rate_that_is_no_number_falls_back_to_the_models() {
    assert_eq!(f32::from_bits(options(&["--lr", "NaN"]).learning_rate), 0.1);
    assert_eq!(
        f32::from_bits(options(&["--lr", "nan", "--model", "softmax"]).learning_rate),
        0.5
    );
    assert_eq!(options(&["--lr", "-0"]).learning_rate, (-0.0f32).to_bits());
}

#[test]
fn every_mnist_argument_error_has_its_message() {
    let message = |texts: &[&str]| parse_options(&args(texts)).expect_err("refused").message();
    assert_eq!(message(&["--steps"]), "--steps needs a value");
    assert_eq!(message(&["--model", "rnn"]), "--model must be cnn or softmax, not rnn");
    assert_eq!(message(&["--nope", "1"]), "unknown flag --nope");
    assert_eq!(message(&["--seed", "-1"]), "invalid digit found in string");
    assert_eq!(message(&["--lr", "fast"]), "invalid float literal");
    assert_eq!(message(&["--lr", ""]), "cannot parse float from empty string");
    assert_eq!(message(&["--lr", ""]), "".parse::<f32>().unwrap_err().to_string());
    assert_eq!(message(&["--lr", "x"]), "x".parse::<f32>().unwrap_err().to_string());
    assert_eq!(message(&["--batch", "0"]), "--batch must be 1..=64 (guest staging size)");
    assert_eq!(message(&["--batch", "65"]), "--batch must be 1..=64 (guest staging size)");
    assert_eq!(message(&["--steps", "0"]), "--steps must be 1..=100000");
    assert_eq!(message(&["--steps", "100001"]), "--steps must be 1..=100000");
    assert_eq!(message(&["--lr", "-0.1"]), "--lr must be finite and non-negative");
    assert_eq!(message(&["--lr", "inf"]), "--lr must be finite and non-negative");
    assert_eq!(
        message(&["--train", "18446744073709551616"]),
        "number too large to fit in target type"
    );
}

#[test]
fn float_bits_are_classified_like_floats() {
    let samples = [
        0.0,
        -0.0,
        1.0,
        -1.0,
        f32::MIN_POSITIVE / 2.0,
        -f32::MIN_POSITIVE / 2.0,
        f32::MAX,
        f32::MIN,
        f32::INFINITY,
        f32::NEG_INFINITY,
        f32::NAN,
        -f32::NAN,
    ];
    for a in samples {
        assert_eq!(float_is_nan(a.to_bits()), a.is_nan());
        assert_eq!(float_is_finite(a.to_bits()), a.is_finite());
        assert_eq!(float_is_negative(a.to_bits()), a < 0.0);
        assert_eq!(float_is_zero(a.to_bits()), a == 0.0);
        for b in samples {
            assert_eq!(order_key(a.to_bits()).cmp(&order_key(b.to_bits())), a.total_cmp(&b));
        }
    }
}

#[test]
fn models_have_their_sizes_and_budgets() {
    assert_eq!((ModelKind::Cnn.params(), ModelKind::Softmax.params()), (11_738, 7_850));
    assert_eq!((CNN_PARAMS, SOFTMAX_PARAMS), (11_738, 7_850));
    assert_eq!(f32::from_bits(ModelKind::Cnn.default_learning_rate()), 0.1);
    assert_eq!(f32::from_bits(ModelKind::Softmax.default_learning_rate()), 0.5);
    let cnn = ModelKind::Cnn.session_limits();
    assert_eq!((cnn.max_buffers, cnn.max_bytes, cnn.max_pipelines), (8, 8 << 20, 8));
    let softmax = ModelKind::Softmax.session_limits();
    assert_eq!((softmax.max_buffers, softmax.max_bytes, softmax.max_pipelines), (8, 1 << 20, 4));
    assert_eq!((ModelKind::Cnn.label(), ModelKind::Softmax.label()), ("cnn", "softmax"));
    assert!(ModelKind::Cnn.name().contains("11,738"));
    assert!(ModelKind::Softmax.name().starts_with("softmax regression 784->10"));
    assert!(ModelKind::Cnn.weights_layout().starts_with("cnn: W2 10x1152"));
    assert!(ModelKind::Softmax.weights_layout().starts_with("softmax: 10x784"));
}

fn idx(words: &[u32], body: &[u8]) -> Vec<u8> {
    let mut bytes: Vec<u8> = words.iter().flat_map(|word| word.to_be_bytes()).collect();
    bytes.extend(body);
    bytes
}

#[test]
fn idx_images_are_checked() {
    let pixels: Vec<u8> = (0..2 * 784u32).map(|i| (i % 256) as u8).collect();
    let good = idx(&[2051, 2, 28, 28], &pixels);
    let (read, digest) = read_idx_images(&good, 2).expect("well formed");
    assert_eq!(read, pixels);
    assert_eq!(digest, sha256_hex(&good));
    assert_eq!(read_idx_images(&good[..15], 2), Err(IdxError::Truncated));
    assert_eq!(read_idx_images(&good, 3), Err(IdxError::Header));
    assert_eq!(read_idx_images(&idx(&[2049, 2, 28, 28], &pixels), 2), Err(IdxError::Header));
    assert_eq!(read_idx_images(&idx(&[2051, 2, 28, 27], &pixels), 2), Err(IdxError::Header));
    assert_eq!(read_idx_images(&good[..good.len() - 1], 2), Err(IdxError::Length));
    assert_eq!(IdxError::Truncated.message("f"), "f is truncated");
    assert_eq!(IdxError::Header.message("f"), "f has an unexpected IDX header");
    assert_eq!(IdxError::Length.message("f"), "f has an unexpected length");
}

#[test]
fn idx_labels_are_checked() {
    let good = idx(&[2049, 3], &[0, 9, 5]);
    let (labels, digest) = read_idx_labels(&good, 3).expect("well formed");
    assert_eq!(labels, [0, 9, 5]);
    assert_eq!(digest, sha256_hex(&good));
    assert_eq!(read_idx_labels(&good[..7], 3), Err(IdxError::Truncated));
    assert_eq!(read_idx_labels(&good[..10], 3), Err(IdxError::HeaderOrLength));
    assert_eq!(read_idx_labels(&good, 4), Err(IdxError::HeaderOrLength));
    assert_eq!(read_idx_labels(&idx(&[2049, 3], &[0, 10, 5]), 3), Err(IdxError::Label));
    assert_eq!(
        IdxError::HeaderOrLength.message("f"),
        "f has an unexpected IDX header or length"
    );
    assert_eq!(IdxError::Label.message("f"), "f contains a label outside 0..9");
}

fn dataset(train: usize, test: usize) -> Dataset {
    let labels = |count: usize| -> Vec<u8> { (0..count).map(|i| (i % 10) as u8).collect() };
    let images = |count: usize| -> Vec<u8> { (0..count * 784).map(|i| (i % 253) as u8).collect() };
    let read = |part: Part, bytes: Vec<u8>| part.read(&bytes).expect("well formed");
    let files = DatasetFiles {
        train_images: read(Part::TrainImages, idx(&[2051, 60_000, 28, 28], &images(60_000))),
        train_labels: read(Part::TrainLabels, idx(&[2049, 60_000], &labels(60_000))),
        test_images: read(Part::TestImages, idx(&[2051, 10_000, 28, 28], &images(10_000))),
        test_labels: read(Part::TestLabels, idx(&[2049, 10_000], &labels(10_000))),
    };
    load_dataset(files, train, test)
}

#[test]
fn datasets_are_prefixes_and_find_their_place() {
    let set = dataset(12, 0);
    assert_eq!((set.train_labels.len(), set.test_labels.len()), (12, 1));
    assert_eq!((set.train_images.len(), set.test_images.len()), (12 * 784, 784));
    assert_eq!(set.train_labels[..12], [0, 1, 2, 3, 4, 5, 6, 7, 8, 9, 0, 1]);
    assert_eq!(set.train_images[..3], [0, 1, 2]);
    let names: Vec<&str> = set.digests.iter().map(|(name, _)| *name).collect();
    assert_eq!(
        names,
        [
            "train-images-idx3-ubyte",
            "train-labels-idx1-ubyte",
            "t10k-images-idx3-ubyte",
            "t10k-labels-idx1-ubyte",
        ]
    );
    assert!(set.digests.iter().all(|(_, digest)| digest.len() == 64));
    let placement = set.place(131_072);
    assert_eq!(placement.pages, 2);
    assert_eq!(placement.train_at, 131_072);
    assert_eq!(placement.train_labels_at, 131_072 + 9_408);
    assert_eq!(placement.test_at, 131_072 + 9_420);
    assert_eq!(placement.test_labels_at, 131_072 + 10_204);
    let config = GuestConfig::new(&options(&[]), &set).with_placement(&placement);
    assert_eq!((config.train_n, config.test_n), (12, 1));
    assert_eq!(config.test_labels_ptr, 141_276);
    let bytes = config.to_bytes();
    assert_eq!(bytes.len(), 48);
    assert_eq!(bytes[..8], [0, 0, 2, 0, 12, 0, 0, 0]);
    assert_eq!(bytes[36..40], 0.1f32.to_le_bytes());
}

fn state(labels: &[u8]) -> HostState {
    let config = GuestConfig {
        train_ptr: 1,
        train_n: 2,
        train_labels_ptr: 3,
        test_ptr: 4,
        test_n: 5,
        test_labels_ptr: 6,
        steps: 7,
        batch: 8,
        eval_every: 9,
        learning_rate: 0.5f32.to_bits(),
        seed: 11,
        progress_every: 12,
    };
    HostState::new(ModelKind::Cnn, config, labels.to_vec())
}

/// A store whose memories take no more address space than they need.
fn small_store() -> Store {
    let mut engine = Engine::default();
    engine.set_tunables(BaseTunables {
        static_memory_bound: Pages(0),
        static_memory_offset_guard_size: 0,
        dynamic_memory_offset_guard_size: 65_536,
    });
    Store::new(engine)
}

/// A store with a guest memory of one page, byte `i` of which is `i % 256`.
fn guest_memory() -> (Store, Memory) {
    let mut store = small_store();
    let memory = Memory::new(&mut store, MemoryType::new(1, None, false)).expect("a memory");
    let contents: Vec<u8> = (0..65_536u32).map(|i| i as u8).collect();
    memory.view(&store).write(0, &contents).expect("fits");
    (store, memory)
}

#[test]
fn datasets_are_fed_to_where_they_were_placed() {
    let (mut store, memory) = guest_memory();
    let dataset = Dataset {
        train_images: vec![1; 2 * 784],
        train_labels: vec![2, 3],
        test_images: vec![4; 784],
        test_labels: vec![5],
        digests: Vec::new(),
    };
    let placement = dataset.place(65_536);
    assert_eq!(placement.pages, 2);
    assert_eq!(dataset.feed(&memory.view(&store), &placement), Err(-1));
    memory.grow(&mut store, Pages(placement.pages)).expect("grows");
    let view = memory.view(&store);
    assert_eq!(dataset.feed(&view, &placement), Ok(()));
    let ends = read_bytes(&view, placement.train_labels_at - 1, 4);
    assert_eq!(ends, Ok(vec![1, 2, 3, 4]));
    assert_eq!(read_bytes(&view, placement.test_labels_at - 1, 3), Ok(vec![4, 5, 0]));
}

#[test]
fn the_configuration_is_written_once_there_is_a_memory() {
    let state = state(&[]);
    let (store, memory) = guest_memory();
    let view = memory.view(&store);
    assert_eq!(state.configure(None, 0), -1);
    assert_eq!(state.configure(Some(&view), 65_488), 0);
    assert_eq!(read_bytes(&view, 65_488, 48), Ok(state.config.to_bytes()));
    assert_eq!(read_bytes(&view, 65_487, 1), Ok(vec![207]));
    assert_eq!(state.configure(Some(&view), 65_489), -1);
    assert_eq!(state.configure(Some(&view), -1), -1);
}

#[test]
fn reported_floats_have_to_lie_in_memory() {
    let (store, memory) = guest_memory();
    let view = memory.view(&store);
    assert_eq!(read_f32s(None, 0, 1), None);
    assert_eq!(read_f32s(Some(&view), 4, 2), Some(vec![0x0706_0504, 0x0b0a_0908]));
    assert_eq!(read_f32s(Some(&view), 65_496, 10).map(|values| values.len()), Some(10));
    assert_eq!(read_f32s(Some(&view), 65_497, 10), None);
    assert_eq!(read_f32s(Some(&view), 0, -1), None);
    assert_eq!(read_f32s(Some(&view), 0, 0), Some(Vec::new()));
}

#[test]
fn reports_are_read_from_memory() {
    let (store, memory) = guest_memory();
    let view = memory.view(&store);
    let mut state = state(&[1, 2]);
    state.report_weights(Some(&view), 0, 0, 7_850);
    state.report_weights(Some(&view), 0, 18_588, 11_738);
    state.report_weights(None, 0, 0, 11_738);
    assert_eq!(state.initial_weights, None);
    state.report_weights(Some(&view), 0, 18_584, 11_738);
    let kept = state.initial_weights.as_ref().expect("kept");
    assert_eq!((kept.len(), kept[0]), (11_738, 0x9b9a_9998));
    let probs: Vec<u8> =
        [row(1), row(3)].concat().iter().flat_map(|bits| bits.to_le_bytes()).collect();
    assert_eq!(write_bytes(&view, 100, &probs), Ok(()));
    state.report_eval_probs(Some(&view), 0, 65_500, 20);
    state.report_eval_probs(None, 0, 100, 20);
    assert_eq!((state.eval_correct, state.eval_total), (0, 0));
    state.report_eval_probs(Some(&view), 0, 100, 20);
    assert_eq!((state.eval_correct, state.eval_total), (1, 2));
}

#[test]
fn weights_are_kept_by_their_tag() {
    let mut state = state(&[]);
    assert!(state.wants_weights(11_738));
    assert!(!state.wants_weights(7_850) && !state.wants_weights(-1));
    state.keep_weights(0, Some(vec![1]));
    state.keep_weights(3, Some(vec![9]));
    state.keep_weights(-1, Some(vec![9]));
    state.keep_weights(1, None);
    assert_eq!(state.initial_weights, Some(vec![1]));
    assert_eq!((&state.first_weights, &state.final_weights), (&None, &None));
    assert_eq!(state.finished(0), Err(RunError::MissingWeights));
    state.keep_weights(1, Some(vec![2]));
    state.keep_weights(2, Some(vec![3]));
    assert_eq!(state.finished(0), Ok(()));
    assert_eq!(state.finished(13), Err(RunError::Exit(13)));
    assert_eq!(
        RunError::Exit(-13).message(),
        "guest exited with status -13 (see guest/mnist/src/lib.rs EXIT_* for the failing stage)"
    );
    assert_eq!(
        RunError::MissingWeights.message(),
        "guest did not report initial, first-update and final parameters"
    );
    assert_eq!(RunError::CheckFailed.message(), "independent CPU check failed");
}

#[test]
fn the_first_and_the_last_loss_are_kept() {
    let mut state = state(&[]);
    assert!(!state.all_finite());
    assert!(state.report_progress(2.5f32.to_bits()));
    assert!(!state.report_progress(f32::NAN.to_bits()));
    assert_eq!(state.first_loss, Some(2.5f32.to_bits()));
    assert_eq!(state.last_loss, Some(f32::NAN.to_bits()));
    state.keep_weights(2, Some(vec![0, 1.5f32.to_bits()]));
    assert!(!state.all_finite());
    assert!(state.report_progress(0.25f32.to_bits()));
    assert!(state.all_finite());
    state.keep_weights(2, Some(vec![0, f32::INFINITY.to_bits()]));
    assert!(!state.all_finite());
}

/// A row of ten probabilities whose largest is at `class`.
fn row(class: usize) -> Vec<u32> {
    (0..10).map(|j| if j == class { 0.5f32 } else { 0.05 }.to_bits()).collect()
}

#[test]
fn evaluations_count_labelled_rows_and_show_the_first() {
    let labels: Vec<u8> = (0..30).map(|i| (i % 10) as u8).collect();
    let mut state = state(&labels);
    let probs: Vec<u32> = [row(0), row(1), row(7)].concat();
    state.count_probs(0, &probs);
    assert_eq!((state.eval_correct, state.eval_total), (2, 3));
    // Only one of these rows has a label, and it is beyond the gallery.
    state.count_probs(29, &[row(9), row(0)].concat());
    assert_eq!((state.eval_correct, state.eval_total), (3, 4));
    state.count_probs(30, &probs);
    state.count_probs(-1, &probs);
    state.count_probs(0, &vec![0; 9]);
    assert_eq!((state.eval_correct, state.eval_total), (3, 4));
    state.count_probs(23, &[row(3), row(4)].concat());
    let evaluation = state.report_eval_done();
    assert_eq!((evaluation.correct, evaluation.total), (5, 6));
    let shown: Vec<(usize, u8, usize)> =
        evaluation.items.iter().map(|g| (g.index, g.label, g.predicted)).collect();
    assert_eq!(shown, [(0, 0, 0), (1, 1, 1), (2, 2, 7), (23, 3, 3)]);
    assert_eq!(evaluation.items[2].probs, row(7));
    assert_eq!(state.last_accuracy, Some((5, 6)));
    assert_eq!((state.eval_correct, state.eval_total, state.gallery.len()), (0, 0, 0));
    let empty = state.report_eval_done();
    assert_eq!((empty.correct, empty.total, empty.items.len()), (0, 0, 0));
}

#[test]
fn the_last_of_equal_probabilities_is_predicted() {
    let mut state = state(&[9, 3, 4]);
    let flat: Vec<u32> = vec![0.1f32.to_bits(); 10];
    let mut zeros: Vec<u32> = vec![(-0.0f32).to_bits(); 10];
    zeros[3] = 0.0f32.to_bits();
    let mut strange: Vec<u32> = vec![f32::INFINITY.to_bits(); 10];
    strange[4] = f32::NAN.to_bits();
    state.count_probs(0, &[flat, zeros, strange].concat());
    assert_eq!((state.eval_correct, state.eval_total), (3, 3));
}

#[test]
fn the_final_check_follows_the_model_and_the_learning_rate() {
    let moved = Differences {
        total_is_zero: false,
        total_is_positive: true,
        first_is_positive: true,
        first_is_close: true,
    };
    let still = Differences {
        total_is_zero: true,
        total_is_positive: false,
        first_is_positive: false,
        first_is_close: true,
    };
    let half = 0.5f32.to_bits();
    let zero = (-0.0f32).to_bits();
    for model in [ModelKind::Cnn, ModelKind::Softmax] {
        assert!(check_training(model, half, moved, true));
        assert!(!check_training(model, half, moved, false));
        assert!(!check_training(model, half, still, true));
        assert!(check_training(model, zero, still, true));
        assert!(!check_training(model, zero, moved, true));
    }
    let late = Differences { first_is_positive: false, ..moved };
    assert!(!check_training(ModelKind::Cnn, half, late, true));
    assert!(check_training(ModelKind::Softmax, half, late, true));
    let far = Differences { first_is_close: false, ..moved };
    assert!(check_training(ModelKind::Cnn, half, far, true));
    assert!(!check_training(ModelKind::Softmax, half, far, true));
    assert_eq!(expectation(ModelKind::Cnn, zero), "parameters unchanged");
    assert_eq!(expectation(ModelKind::Cnn, half), "parameters changed, finite");
    assert_eq!(expectation(ModelKind::Softmax, half), "parameters changed");
}

#[test]
fn a_run_passes_only_with_nothing_left() {
    let after = |live_buffers, live_pipelines| BridgeSnapshot {
        adapter_name: String::new(),
        backend: String::new(),
        live_buffers,
        live_pipelines,
    };
    assert!(checks_passed(true, &after(0, 0)));
    assert!(!checks_passed(false, &after(0, 0)));
    assert!(!checks_passed(true, &after(1, 0)));
    assert!(!checks_passed(true, &after(0, 1)));
    assert_eq!(log_name(1_700_000_000), "run-1700000000.jsonl");
    assert_eq!(train_split(12_000), "first 12000 of the official 60,000 training images");
    assert_eq!(
        test_split(2_000),
        "first 2000 of the official 10,000 test images (never trained on)"
    );
}
