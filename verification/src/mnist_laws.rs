//! What the MNIST files, the dataset, the models and the reports of a run mean.
use crate::abi::unsigned;
use crate::encoding::le_words;
use crate::encoding_laws::{law_words_are_big_endian, number_of};
use crate::host::{seen, span};
use crate::mnist_cli::Options;
use crate::mnist_data::{
    images_error, labels_error, sample_count, Dataset, DatasetFiles, IdxError, Part, Placement,
    TEST_TOTAL, TRAIN_TOTAL,
};
use crate::mnist_host::{
    correct_rows, counted_probs, evaluated, floats_readable, floats_seen, kept_weights,
    labelled_rows, prediction, progressed, row, run_error, shown_rows, spec_expectation,
    training_passes, Differences, GuestConfig, GuessView, HostState, HostStateView, RunError,
};
use crate::mnist_model::{
    is_finite, is_nan, is_negative, is_zero, total_order, ModelKind, INPUTS,
};
use crate::sha256::be_word;
use vstd::prelude::*;

verus! {

// ---------------------------------------------------------------------------
// Data
// ---------------------------------------------------------------------------

/// Every count within the range is kept; only others are moved to the nearer
/// end.
pub proof fn law_sample_counts_are_kept(wanted: usize, total: usize)
    requires
        1 <= total,
    ensures
        1 <= wanted <= total ==> sample_count(wanted, total) == wanted,
        wanted == 0 ==> sample_count(wanted, total) == 1,
        wanted > total ==> sample_count(wanted, total) == total,
{
}

/// Of the 60000 training digits as many are used as are wanted, and likewise of
/// the 10000 test digits: the first ones of each file.
pub proof fn law_wanted_digits_are_loaded(
    files: DatasetFiles,
    dataset: Dataset,
    train: usize,
    test: usize,
    i: int,
)
    requires
        files.complete(),
        1 <= train <= 60_000,
        1 <= test <= 10_000,
        dataset.train_labels@ == files.train_labels.0@.take(
            sample_count(train, TRAIN_TOTAL) as int,
        ),
        dataset.train_images@ == files.train_images.0@.take(
            sample_count(train, TRAIN_TOTAL) * INPUTS,
        ),
        dataset.test_labels@ == files.test_labels.0@.take(sample_count(test, TEST_TOTAL) as int),
        dataset.test_images@ == files.test_images.0@.take(
            sample_count(test, TEST_TOTAL) * INPUTS,
        ),
    ensures
        dataset.train_labels@.len() == train,
        dataset.train_images@.len() == 784 * train,
        dataset.test_labels@.len() == test,
        dataset.test_images@.len() == 784 * test,
        0 <= i < train ==> dataset.train_labels@[i] == files.train_labels.0@[i],
        0 <= i < 784 * train ==> dataset.train_images@[i] == files.train_images.0@[i],
        0 <= i < test ==> dataset.test_labels@[i] == files.test_labels.0@[i],
        0 <= i < 784 * test ==> dataset.test_images@[i] == files.test_images.0@[i],
{
}

/// The four bytes from `at` on.
pub open spec fn four(bytes: Seq<u8>, at: int, a: u8, b: u8, c: u8, d: u8) -> bool {
    bytes[at] == a && bytes[at + 1] == b && bytes[at + 2] == c && bytes[at + 3] == d
}

/// An image file is accepted exactly if its header says unsigned bytes in three
/// dimensions, the expected count, 28 and 28, and 784 bytes follow for each
/// image. A file without room for the header is truncated; one with the right
/// header and another length has a wrong length.
pub proof fn law_image_files(bytes: Seq<u8>, expected: nat)
    ensures
        ({
            let header = bytes.len() >= 16 && four(bytes, 0, 0, 0, 8, 3) && number_of(
                bytes.subrange(4, 8),
            ) == expected && four(bytes, 8, 0, 0, 0, 28) && four(bytes, 12, 0, 0, 0, 28);
            let error = images_error(bytes, expected as int);
            &&& error is None <==> header && bytes.len() == 16 + 784 * expected
            &&& error == Some(IdxError::Truncated) <==> bytes.len() < 16
            &&& error == Some(IdxError::Header) <==> bytes.len() >= 16 && !header
            &&& error == Some(IdxError::Length) <==> header && bytes.len() != 16 + 784 * expected
        }),
{
    if bytes.len() >= 16 {
        law_words_are_big_endian(bytes, 4);
        assert(be_word(bytes, 0) == 2051 <==> four(bytes, 0, 0, 0, 8, 3));
        assert(be_word(bytes, 8) == 28 <==> four(bytes, 8, 0, 0, 0, 28));
        assert(be_word(bytes, 12) == 28 <==> four(bytes, 12, 0, 0, 0, 28));
    }
}

/// A label file is accepted exactly if its header says unsigned bytes in one
/// dimension and the expected count, one byte follows for each label, and none
/// of them is above 9.
pub proof fn law_label_files(bytes: Seq<u8>, expected: nat)
    ensures
        ({
            let sound = bytes.len() >= 8 && four(bytes, 0, 0, 0, 8, 1) && number_of(
                bytes.subrange(4, 8),
            ) == expected && bytes.len() == 8 + expected;
            let classes = forall|i: int| 0 <= i < expected ==> #[trigger] bytes.skip(8)[i] <= 9;
            let error = labels_error(bytes, expected as int);
            &&& error is None <==> sound && classes
            &&& error == Some(IdxError::Truncated) <==> bytes.len() < 8
            &&& error == Some(IdxError::HeaderOrLength) <==> bytes.len() >= 8 && !sound
            &&& error == Some(IdxError::Label) <==> sound && !classes
        }),
{
    if bytes.len() >= 8 {
        law_words_are_big_endian(bytes, 4);
        assert(be_word(bytes, 0) == 2049 <==> four(bytes, 0, 0, 0, 8, 1));
        if bytes.len() == 8 + expected {
            let rest = bytes.skip(8);
            if exists|i: int| 8 <= i < bytes.len() && #[trigger] bytes[i] > 9 {
                let i = choose|i: int| 8 <= i < bytes.len() && #[trigger] bytes[i] > 9;
                assert(rest[i - 8] > 9);
            }
            if exists|i: int| 0 <= i < expected && #[trigger] rest[i] > 9 {
                let i = choose|i: int| 0 <= i < expected && #[trigger] rest[i] > 9;
                assert(bytes[i + 8] > 9);
            }
        }
    }
}

/// Each part of the dataset is its own file, of 60000 or 10000 digits, whose
/// contents start behind a header of 16 bytes for images and 8 for labels.
pub proof fn law_parts_of_the_dataset(part: Part, bytes: Seq<u8>, i: int)
    ensures
        part is TrainImages ==> part.error(bytes) == images_error(bytes, 60_000)
            && part.spec_file_name() == "train-images-idx3-ubyte"@,
        part is TrainLabels ==> part.error(bytes) == labels_error(bytes, 60_000)
            && part.spec_file_name() == "train-labels-idx1-ubyte"@,
        part is TestImages ==> part.error(bytes) == images_error(bytes, 10_000)
            && part.spec_file_name() == "t10k-images-idx3-ubyte"@,
        part is TestLabels ==> part.error(bytes) == labels_error(bytes, 10_000)
            && part.spec_file_name() == "t10k-labels-idx1-ubyte"@,
        (part is TrainImages || part is TestImages) && bytes.len() >= 16 ==> {
            &&& part.contents(bytes).len() == bytes.len() - 16
            &&& 0 <= i < bytes.len() - 16 ==> part.contents(bytes)[i] == bytes[16 + i]
        },
        (part is TrainLabels || part is TestLabels) && bytes.len() >= 8 ==> {
            &&& part.contents(bytes).len() == bytes.len() - 8
            &&& 0 <= i < bytes.len() - 8 ==> part.contents(bytes)[i] == bytes[8 + i]
        },
{
}

/// The parts lie one behind the other from the base on, training set first and
/// images before labels, and the pages are those that they need and one more.
pub proof fn law_parts_lie_one_behind_the_other(dataset: Dataset, base: u64, placement: Placement)
    requires
        dataset.placed(base, placement),
    ensures
        ({
            let (a, b) = (dataset.train_images@.len(), dataset.train_labels@.len());
            let (c, d) = (dataset.test_images@.len(), dataset.test_labels@.len());
            &&& placement.train_at == base
            &&& placement.train_labels_at == base + a
            &&& placement.test_at == base + a + b
            &&& placement.test_labels_at == base + a + b + c
            &&& 65_536 * (placement.pages - 2) < a + b + c + d <= 65_536 * (placement.pages - 1)
        }),
{
}

/// The whole dataset lies in a memory exactly if each of its four parts ends in
/// it.
pub proof fn law_parts_in_memory(dataset: Dataset, size: u64, placement: Placement)
    ensures
        dataset.inside(size, placement) <==> {
            &&& placement.train_at + dataset.train_images@.len() <= size
            &&& placement.train_labels_at + dataset.train_labels@.len() <= size
            &&& placement.test_at + dataset.test_images@.len() <= size
            &&& placement.test_labels_at + dataset.test_labels@.len() <= size
        },
{
}

/// A dataset has a label for every image of 784 bytes, and every label is one of
/// the ten digits.
pub proof fn law_datasets_are_labelled(dataset: Dataset)
    ensures
        dataset.wf() <==> {
            &&& 1 <= dataset.train_labels@.len() <= 60_000
            &&& 1 <= dataset.test_labels@.len() <= 10_000
            &&& dataset.train_images@.len() == 784 * dataset.train_labels@.len()
            &&& dataset.test_images@.len() == 784 * dataset.test_labels@.len()
            &&& forall|i: int|
                0 <= i < dataset.train_labels@.len() ==> #[trigger] dataset.train_labels@[i] < 10
            &&& forall|i: int|
                0 <= i < dataset.test_labels@.len() ==> #[trigger] dataset.test_labels@[i] < 10
        },
{
}

// ---------------------------------------------------------------------------
// Floats
// ---------------------------------------------------------------------------

/// What a float is, by its sign, its exponent of eight bits and its fraction of
/// 23.
pub proof fn law_floats_by_their_fields(bits: u32)
    ensures
        ({
            let sign = bits as int / 0x8000_0000;
            let exponent = bits as int / 0x80_0000 % 256;
            let fraction = bits as int % 0x80_0000;
            &&& is_nan(bits) <==> exponent == 255 && fraction != 0
            &&& is_finite(bits) <==> exponent < 255
            &&& is_zero(bits) <==> exponent == 0 && fraction == 0
            &&& is_negative(bits) <==> sign == 1 && !is_zero(bits) && !is_nan(bits)
        }),
{
    let b = bits as int;
    assert(b / 0x80_0000 == b / 0x8000_0000 * 256 + b / 0x80_0000 % 256) by {
        assert(b / 0x80_0000 / 256 == b / 0x8000_0000);
    }
    assert(b % 0x8000_0000 == b / 0x80_0000 % 256 * 0x80_0000 + b % 0x80_0000);
}

/// The total order puts floats with a sign below those without one; those
/// without a sign stand as their bits do, and those with one the other way
/// round.
pub proof fn law_total_order_of_floats(a: u32, b: u32)
    ensures
        a >= 0x8000_0000 && b < 0x8000_0000 ==> total_order(a) < total_order(b),
        a < b && b < 0x8000_0000 ==> total_order(a) < total_order(b),
        a < b && a >= 0x8000_0000 ==> total_order(b) < total_order(a),
{
}

// ---------------------------------------------------------------------------
// Models
// ---------------------------------------------------------------------------

/// A model has as many parameters as its layers have weights and biases, and the
/// CNN is given 8 MiB and eight pipelines where the other one keeps the
/// defaults. The default rates are a tenth and a half.
pub proof fn law_models(model: ModelKind)
    ensures
        model is Cnn ==> model.spec_params() == 8 * 5 * 5 + 8 + 8 * 12 * 12 * 10 + 10,
        model is Softmax ==> model.spec_params() == 28 * 28 * 10 + 10,
        model is Cnn ==> model.spec_session_limits().max_bytes == 8 * 1024 * 1024
            && model.spec_session_limits().max_pipelines == 8,
        model is Softmax ==> model.spec_session_limits() == crate::session::default_limits(),
        model.spec_session_limits().max_buffers == crate::session::default_limits().max_buffers,
        model is Cnn ==> model.spec_default_learning_rate() == 123 * 0x80_0000 + 5_033_165,
        model is Softmax ==> model.spec_default_learning_rate() == 126 * 0x80_0000,
        model is Cnn ==> model.spec_label() == "cnn"@ && model.spec_guest()
            == "guest/mnist-cnn/mnist_cnn_guest.wasm"@,
        model is Softmax ==> model.spec_label() == "softmax"@ && model.spec_guest()
            == "guest/mnist/mnist_guest.wasm"@,
        model is Cnn ==> model.spec_name()
            == "small CNN: conv 5x5 x8 + ReLU -> max-pool 2x2 -> fc 1152->10 softmax (11,738 parameters), minibatch SGD"@
            && model.spec_weights_layout()
            == "cnn: W2 10x1152 row-major, b2 10, W1 8x5x5, b1 8, f32"@,
        model is Softmax ==> model.spec_name()
            == "softmax regression 784->10 (multinomial logistic regression), minibatch SGD"@
            && model.spec_weights_layout()
            == "softmax: 10x784 weights row-major then 10 biases, f32"@,
{
}

// ---------------------------------------------------------------------------
// Reports
// ---------------------------------------------------------------------------

/// The guest is told its configuration in twelve words, each at its place.
pub proof fn law_configuration_is_told_in_order(config: GuestConfig)
    ensures
        config.words().len() == 12,
        config.words()[0] == config.train_ptr,
        config.words()[1] == config.train_n,
        config.words()[2] == config.train_labels_ptr,
        config.words()[3] == config.test_ptr,
        config.words()[4] == config.test_n,
        config.words()[5] == config.test_labels_ptr,
        config.words()[6] == config.steps,
        config.words()[7] == config.batch,
        config.words()[8] == config.eval_every,
        config.words()[9] == config.learning_rate,
        config.words()[10] == config.seed,
        config.words()[11] == config.progress_every,
{
}

/// Floats can be read exactly if there is a memory and all four bytes of each of
/// them lie in it; what is read is the words that stood there.
pub proof fn law_floats_are_words_in_memory(
    view: Option<&wasmer::MemoryView<'_>>,
    ptr: i32,
    count: i32,
    bytes: Seq<u8>,
)
    ensures
        floats_readable(view, ptr, count) <==> view is Some && count >= 0 && unsigned(ptr) + 4
            * count <= span(view),
        bytes.len() % 4 == 0 && seen(view, unsigned(ptr), bytes) ==> floats_seen(
            view,
            ptr,
            le_words(bytes),
        ),
{
}

/// Reported parameters are kept under their tag and change nothing else; an
/// unknown tag, or parameters that could not be read, change nothing at all.
pub proof fn law_weights_are_kept_by_tag(state: HostStateView, tag: i32, values: Seq<u32>)
    ensures
        ({
            let kept = kept_weights(state, tag, Some(values));
            &&& kept.initial_weights == if tag == 0 {
                Some(values)
            } else {
                state.initial_weights
            }
            &&& kept.first_weights == if tag == 1 {
                Some(values)
            } else {
                state.first_weights
            }
            &&& kept.final_weights == if tag == 2 {
                Some(values)
            } else {
                state.final_weights
            }
            &&& kept.params == state.params && kept.config == state.config
            &&& kept.test_labels == state.test_labels
            &&& kept.eval_correct == state.eval_correct && kept.eval_total == state.eval_total
            &&& kept.gallery == state.gallery
            &&& kept.last_loss == state.last_loss && kept.first_loss == state.first_loss
            &&& kept.last_accuracy == state.last_accuracy
        }),
        kept_weights(state, tag, None) == state,
{
}

/// A reported row counts exactly if there is a label for it.
pub proof fn law_rows_with_a_label_count(labels: nat, first: int, rows: nat, i: int)
    requires
        0 <= i < rows,
    ensures
        0 <= labelled_rows(labels as int, first, rows as int) <= rows,
        i < labelled_rows(labels as int, first, rows as int) <==> 0 <= first && first + i < labels,
{
}

/// A row is the ten probabilities of one digit.
pub proof fn law_rows_of_ten(probs: Seq<u32>, i: int, class: int)
    requires
        0 <= i,
        10 * i + 10 <= probs.len(),
        0 <= class < 10,
    ensures
        row(probs, i).len() == 10,
        row(probs, i)[class] == probs[10 * i + class],
{
}

/// The rows that predict their label.
pub open spec fn right_rows(labels: Seq<u8>, first: int, probs: Seq<u32>, n: nat) -> Set<int> {
    Set::new(|i: int| 0 <= i < n && prediction(row(probs, i)) == labels[first + i])
}

/// Every row that predicts its label is counted once, and no other.
pub proof fn law_correct_rows_are_counted_once(
    labels: Seq<u8>,
    first: int,
    probs: Seq<u32>,
    n: nat,
)
    ensures
        right_rows(labels, first, probs, n).finite(),
        correct_rows(labels, first, probs, n) == right_rows(labels, first, probs, n).len(),
    decreases n,
{
    let rows = right_rows(labels, first, probs, n);
    if n == 0 {
        assert(rows =~= Set::empty());
    } else {
        let m = (n - 1) as nat;
        let before = right_rows(labels, first, probs, m);
        law_correct_rows_are_counted_once(labels, first, probs, m);
        if prediction(row(probs, m as int)) == labels[first + m] {
            assert(rows =~= before.insert(m as int));
        } else {
            assert(rows =~= before);
        }
    }
}

/// The gallery shows the first 24 test digits, each with its label, its ten
/// probabilities and what they speak for, in order.
pub proof fn law_gallery_shows_the_first_digits(
    labels: Seq<u8>,
    first: int,
    probs: Seq<u32>,
    n: nat,
    k: int,
)
    requires
        0 <= first,
    ensures
        ({
            let shown = shown_rows(labels, first, probs, n);
            &&& first + n <= 24 ==> shown.len() == n
            &&& first <= 24 && first + n >= 24 ==> shown.len() == 24 - first
            &&& first >= 24 ==> shown.len() == 0
            &&& 0 <= k < n && first + k < 24 ==> shown[k] == (GuessView {
                index: first + k,
                label: labels[first + k],
                predicted: prediction(row(probs, k)),
                probs: row(probs, k),
            })
        }),
    decreases n,
{
    if n > 0 {
        law_gallery_shows_the_first_digits(labels, first, probs, (n - 1) as nat, k);
    }
}

/// A report adds its labelled rows to the evaluation and changes nothing else.
pub proof fn law_reports_add_up(state: HostStateView, first: int, probs: Seq<u32>)
    ensures
        ({
            let after = counted_probs(state, first, probs);
            let rows = probs.len() as int / 10;
            let n = labelled_rows(state.test_labels.len() as int, first, rows);
            &&& after.eval_total - state.eval_total == n
            &&& after.eval_correct - state.eval_correct == correct_rows(
                state.test_labels,
                first,
                probs,
                n as nat,
            )
            &&& after.gallery == state.gallery + shown_rows(
                state.test_labels,
                first,
                probs,
                n as nat,
            )
            &&& after.params == state.params && after.config == state.config
            &&& after.test_labels == state.test_labels
            &&& after.initial_weights == state.initial_weights
            &&& after.first_weights == state.first_weights
            &&& after.final_weights == state.final_weights
            &&& after.last_loss == state.last_loss && after.first_loss == state.first_loss
            &&& after.last_accuracy == state.last_accuracy
        }),
{
}

/// The first loss that is reported stays the first one, the last one is the last
/// one, and nothing else changes.
pub proof fn law_first_and_last_loss(state: HostStateView, first: u32, last: u32)
    ensures
        ({
            let after = progressed(progressed(state, first), last);
            &&& after.last_loss == Some(last)
            &&& state.first_loss is None ==> after.first_loss == Some(first)
            &&& state.first_loss is Some ==> after.first_loss == state.first_loss
            &&& after == (HostStateView {
                first_loss: after.first_loss,
                last_loss: after.last_loss,
                ..state
            })
        }),
{
}

proof fn lemma_row_in_front(a: Seq<u32>, b: Seq<u32>, i: int)
    requires
        0 <= i,
        10 * i + 10 <= a.len(),
    ensures
        row(a + b, i) == row(a, i),
{
    assert(row(a + b, i) =~= row(a, i));
}

proof fn lemma_row_behind(a: Seq<u32>, b: Seq<u32>, n: int, i: int)
    requires
        0 <= i,
        10 * n == a.len(),
        10 * i + 10 <= b.len(),
    ensures
        row(a + b, n + i) == row(b, i),
{
    assert(row(a + b, n + i) =~= row(b, i));
}

/// Rows of two batches in a row count like those of both together.
proof fn lemma_counts_add_up(labels: Seq<u8>, first: int, a: Seq<u32>, b: Seq<u32>, n: nat, m: nat)
    requires
        10 * n == a.len(),
        10 * m <= b.len(),
    ensures
        correct_rows(labels, first, a + b, n + m) == correct_rows(labels, first, a, n)
            + correct_rows(labels, first + n, b, m),
        shown_rows(labels, first, a + b, n + m) == shown_rows(labels, first, a, n) + shown_rows(
            labels,
            first + n,
            b,
            m,
        ),
    decreases m,
{
    if m == 0 {
        lemma_counts_of_front(labels, first, a, b, n);
        assert(shown_rows(labels, first, a, n) + Seq::<GuessView>::empty() =~= shown_rows(
            labels,
            first,
            a,
            n,
        ));
    } else {
        let k = (m - 1) as nat;
        lemma_counts_add_up(labels, first, a, b, n, k);
        lemma_row_behind(a, b, n as int, k as int);
        assert(n + m - 1 == n + k);
        assert(first + n + k == first + (n + k));
        assert(shown_rows(labels, first, a + b, n + m) =~= shown_rows(labels, first, a, n)
            + shown_rows(labels, first + n, b, m));
    }
}

proof fn lemma_counts_of_front(labels: Seq<u8>, first: int, a: Seq<u32>, b: Seq<u32>, n: nat)
    requires
        10 * n <= a.len(),
    ensures
        correct_rows(labels, first, a + b, n) == correct_rows(labels, first, a, n),
        shown_rows(labels, first, a + b, n) == shown_rows(labels, first, a, n),
    decreases n,
{
    if n > 0 {
        lemma_counts_of_front(labels, first, a, b, (n - 1) as nat);
        lemma_row_in_front(a, b, n - 1);
    }
}

/// It makes no difference how an evaluation is cut into batches: two reports,
/// the second starting where the first ended, count like one report of both.
pub proof fn law_batches_count_like_the_whole(
    state: HostStateView,
    first: int,
    a: Seq<u32>,
    b: Seq<u32>,
)
    requires
        0 <= first,
        a.len() % 10 == 0,
        first + a.len() / 10 < state.test_labels.len(),
    ensures
        counted_probs(counted_probs(state, first, a), first + a.len() / 10, b) == counted_probs(
            state,
            first,
            a + b,
        ),
{
    let labels = state.test_labels;
    let n = (a.len() / 10) as nat;
    let m = labelled_rows(labels.len() as int, first + n, b.len() as int / 10) as nat;
    lemma_counts_add_up(labels, first, a, b, n, m);
    assert((a + b).len() / 10 == n + b.len() / 10);
    assert(labelled_rows(labels.len() as int, first, (a + b).len() as int / 10) == n + m);
    let twice = counted_probs(counted_probs(state, first, a), first + n, b);
    let once = counted_probs(state, first, a + b);
    assert(twice.gallery =~= once.gallery);
    assert(twice =~= once);
}

/// An evaluation is settled with what it counted, and the next one counts from
/// nothing; everything else stays.
pub proof fn law_evaluations_start_afresh(
    state: HostStateView,
    correct: usize,
    total: usize,
    first: int,
    probs: Seq<u32>,
)
    requires
        state.eval_correct == correct,
        state.eval_total == total,
    ensures
        ({
            let after = evaluated(state);
            let next = counted_probs(after, first, probs);
            let n = labelled_rows(state.test_labels.len() as int, first, probs.len() as int / 10);
            &&& after.last_accuracy == Some((correct, total))
            &&& next.eval_total == n
            &&& next.eval_correct == correct_rows(state.test_labels, first, probs, n as nat)
            &&& next.gallery == shown_rows(state.test_labels, first, probs, n as nat)
            &&& next.last_accuracy == after.last_accuracy
            &&& after == (HostStateView {
                last_accuracy: after.last_accuracy,
                eval_correct: 0,
                eval_total: 0,
                gallery: after.gallery,
                ..state
            })
        }),
{
    let n = labelled_rows(state.test_labels.len() as int, first, probs.len() as int / 10);
    assert(Seq::<GuessView>::empty() + shown_rows(state.test_labels, first, probs, n as nat)
        =~= shown_rows(state.test_labels, first, probs, n as nat));
}

/// A run is looked at further exactly if it ended with zero and left all three
/// sets of parameters; a bad status counts before missing parameters.
pub proof fn law_runs_that_ended_well(state: HostStateView, exit: i32)
    ensures
        ({
            let all = state.initial_weights is Some && state.first_weights is Some
                && state.final_weights is Some;
            &&& run_error(state, exit) is None <==> exit == 0 && all
            &&& run_error(state, exit) == Some(RunError::Exit(exit)) <==> exit != 0
            &&& run_error(state, exit) == Some(RunError::MissingWeights) <==> exit == 0 && !all
        }),
{
}

/// The guest is told the options and the sizes of both sets.
pub proof fn law_configuration_repeats_the_options(options: Options, dataset: Dataset)
    requires
        dataset.wf(),
    ensures
        ({
            let config = GuestConfig::unplaced(options, dataset);
            &&& config.train_n == dataset.train_labels@.len()
            &&& config.test_n == dataset.test_labels@.len()
            &&& config.steps == options.steps && config.batch == options.batch
            &&& config.eval_every == options.eval_every
            &&& config.progress_every == options.progress_every
            &&& config.learning_rate == options.learning_rate
            &&& config.seed == options.seed
        }),
{
}

/// All is finite exactly if there are final parameters, each of them finite, and
/// a last loss that is.
pub proof fn law_all_finite(state: HostState)
    ensures
        state.final_weights is None || state.last_loss is None ==> !state.spec_all_finite(),
        state.final_weights is Some && state.last_loss is Some ==> (state.spec_all_finite() <==> (
        forall|i: int|
            0 <= i < state.final_weights->0@.len() ==> is_finite(
                #[trigger] state.final_weights->0@[i],
            )) && is_finite(state.last_loss->0)),
{
}

/// A run at a rate of zero passes if nothing moved, another one if something
/// did; either way all has to be finite. Softmax has to stay close to the
/// reference in its first update, at any rate; the CNN has to move in it, unless
/// the rate is zero.
pub proof fn law_passing_runs(model: ModelKind, rate: u32, seen: Differences, all_finite: bool)
    ensures
        ({
            let passes = training_passes(model, rate, seen, all_finite);
            let zero = rate == 0 || rate == 0x8000_0000;
            &&& !all_finite ==> !passes
            &&& all_finite && zero && model is Cnn ==> passes == seen.total_is_zero
            &&& all_finite && zero && model is Softmax ==> passes == (seen.total_is_zero
                && seen.first_is_close)
            &&& all_finite && !zero && model is Cnn ==> passes == (seen.total_is_positive
                && seen.first_is_positive)
            &&& all_finite && !zero && model is Softmax ==> passes == (seen.total_is_positive
                && seen.first_is_close)
            &&& zero ==> spec_expectation(model, rate) == "parameters unchanged"@
            &&& !zero && model is Softmax ==> spec_expectation(model, rate)
                == "parameters changed"@
            &&& !zero && model is Cnn ==> spec_expectation(model, rate)
                == "parameters changed, finite"@
        }),
{
}

} // verus!
