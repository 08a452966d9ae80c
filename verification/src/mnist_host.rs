//! The host's side of a training run: the numbers that the guest asks for, and
//! what it makes of the numbers that the guest reports. Floats are kept by
//! their bits.
use crate::abi::{copy_status, unsigned, wasm_u32, ERR_RANGE, SUCCESS};
use crate::device::BridgeSnapshot;
use crate::encoding::{bytes_to_words, le_bytes, le_words, words_to_bytes};
use crate::host::{seen, span};
use crate::memory::{read_bytes, write_bytes};
use crate::mnist_cli::Options;
use crate::mnist_data::{Dataset, Placement};
use crate::mnist_model::{
    float_is_finite, float_is_zero, is_finite, is_zero, order_key, total_order, ModelKind, CLASSES,
};
use crate::text::{decimal, push_decimal, push_signed, signed_decimal};
use vstd::prelude::*;
use vstd::string::*;

verus! {

/// Held-out digits whose prediction confidences are reported at every
/// evaluation so a viewer can watch predictions change as training proceeds.
pub const GALLERY: usize = 24;

/// What the guest is told about its run, in the order in which it reads it.
#[derive(Clone, Copy, Debug, PartialEq, Eq, Structural)]
pub struct GuestConfig {
    pub train_ptr: u32,
    pub train_n: u32,
    pub train_labels_ptr: u32,
    pub test_ptr: u32,
    pub test_n: u32,
    pub test_labels_ptr: u32,
    pub steps: u32,
    pub batch: u32,
    pub eval_every: u32,
    pub learning_rate: u32,
    pub seed: u32,
    pub progress_every: u32,
}

impl GuestConfig {
    /// The words of the configuration.
    pub open spec fn words(self) -> Seq<u32> {
        seq![
            self.train_ptr,
            self.train_n,
            self.train_labels_ptr,
            self.test_ptr,
            self.test_n,
            self.test_labels_ptr,
            self.steps,
            self.batch,
            self.eval_every,
            self.learning_rate,
            self.seed,
            self.progress_every,
        ]
    }

    /// The configuration as it stands in guest memory.
    pub fn to_bytes(&self) -> (bytes: Vec<u8>)
        ensures
            bytes@ == le_bytes(self.words()),
            bytes@.len() == 48,
    {
        let words: [u32; 12] = [
            self.train_ptr,
            self.train_n,
            self.train_labels_ptr,
            self.test_ptr,
            self.test_n,
            self.test_labels_ptr,
            self.steps,
            self.batch,
            self.eval_every,
            self.learning_rate,
            self.seed,
            self.progress_every,
        ];
        assert(words@ =~= self.words());
        words_to_bytes(words.as_slice())
    }

    /// The configuration of a run over a dataset, before it is placed.
    pub open spec fn unplaced(options: Options, dataset: Dataset) -> GuestConfig {
        GuestConfig {
            train_ptr: 0,
            train_n: dataset.train_labels@.len() as u32,
            train_labels_ptr: 0,
            test_ptr: 0,
            test_n: dataset.test_labels@.len() as u32,
            test_labels_ptr: 0,
            steps: options.steps,
            batch: options.batch,
            eval_every: options.eval_every,
            learning_rate: options.learning_rate,
            seed: options.seed,
            progress_every: options.progress_every,
        }
    }

    /// The configuration of a run over a dataset, before it is placed.
    pub fn new(options: &Options, dataset: &Dataset) -> (config: GuestConfig)
        requires
            dataset.wf(),
        ensures
            config == (GuestConfig {
                train_ptr: 0,
                train_n: dataset.train_labels@.len() as u32,
                train_labels_ptr: 0,
                test_ptr: 0,
                test_n: dataset.test_labels@.len() as u32,
                test_labels_ptr: 0,
                steps: options.steps,
                batch: options.batch,
                eval_every: options.eval_every,
                learning_rate: options.learning_rate,
                seed: options.seed,
                progress_every: options.progress_every,
            }),
            config == GuestConfig::unplaced(*options, *dataset),
    {
        GuestConfig {
            train_ptr: 0,
            train_n: dataset.train_labels.len() as u32,
            train_labels_ptr: 0,
            test_ptr: 0,
            test_n: dataset.test_labels.len() as u32,
            test_labels_ptr: 0,
            steps: options.steps,
            batch: options.batch,
            eval_every: options.eval_every,
            learning_rate: options.learning_rate,
            seed: options.seed,
            progress_every: options.progress_every,
        }
    }

    /// The same configuration, pointing to where the dataset was placed.
    pub fn with_placement(self, placement: &Placement) -> (config: GuestConfig)
        ensures
            config == (GuestConfig {
                train_ptr: (placement.train_at % 0x1_0000_0000) as u32,
                train_labels_ptr: (placement.train_labels_at % 0x1_0000_0000) as u32,
                test_ptr: (placement.test_at % 0x1_0000_0000) as u32,
                test_labels_ptr: (placement.test_labels_at % 0x1_0000_0000) as u32,
                ..self
            }),
            placement.train_at < 0x1_0000_0000 ==> config.train_ptr == placement.train_at,
            placement.train_labels_at < 0x1_0000_0000 ==> config.train_labels_ptr
                == placement.train_labels_at,
            placement.test_at < 0x1_0000_0000 ==> config.test_ptr == placement.test_at,
            placement.test_labels_at < 0x1_0000_0000 ==> config.test_labels_ptr
                == placement.test_labels_at,
    {
        GuestConfig {
            train_ptr: (placement.train_at % 0x1_0000_0000) as u32,
            train_n: self.train_n,
            train_labels_ptr: (placement.train_labels_at % 0x1_0000_0000) as u32,
            test_ptr: (placement.test_at % 0x1_0000_0000) as u32,
            test_n: self.test_n,
            test_labels_ptr: (placement.test_labels_at % 0x1_0000_0000) as u32,
            steps: self.steps,
            batch: self.batch,
            eval_every: self.eval_every,
            learning_rate: self.learning_rate,
            seed: self.seed,
            progress_every: self.progress_every,
        }
    }
}

/// One held-out digit and what the model made of it.
#[derive(Debug)]
pub struct Guess {
    pub index: usize,
    pub label: u8,
    pub predicted: usize,
    pub probs: Vec<u32>,
}

#[verifier::ext_equal]
pub struct GuessView {
    pub index: int,
    pub label: u8,
    pub predicted: int,
    pub probs: Seq<u32>,
}

impl View for Guess {
    type V = GuessView;

    open spec fn view(&self) -> GuessView {
        GuessView {
            index: self.index as int,
            label: self.label,
            predicted: self.predicted as int,
            probs: self.probs@,
        }
    }
}

pub open spec fn guesses(gallery: Seq<Guess>) -> Seq<GuessView> {
    gallery.map_values(|guess: Guess| guess@)
}

/// Shared between the host imports and the runner.
#[derive(Debug)]
pub struct HostState {
    pub params: usize,
    pub config: GuestConfig,
    pub test_labels: Vec<u8>,
    pub initial_weights: Option<Vec<u32>>,
    pub first_weights: Option<Vec<u32>>,
    pub final_weights: Option<Vec<u32>>,
    pub eval_correct: usize,
    pub eval_total: usize,
    pub gallery: Vec<Guess>,
    pub last_loss: Option<u32>,
    /// Correct predictions out of all, at the last evaluation.
    pub last_accuracy: Option<(usize, usize)>,
    pub first_loss: Option<u32>,
}

#[verifier::ext_equal]
pub struct HostStateView {
    pub params: usize,
    pub config: GuestConfig,
    pub test_labels: Seq<u8>,
    pub initial_weights: Option<Seq<u32>>,
    pub first_weights: Option<Seq<u32>>,
    pub final_weights: Option<Seq<u32>>,
    pub eval_correct: int,
    pub eval_total: int,
    pub gallery: Seq<GuessView>,
    pub last_loss: Option<u32>,
    pub last_accuracy: Option<(usize, usize)>,
    pub first_loss: Option<u32>,
}

pub open spec fn values_of(weights: Option<Vec<u32>>) -> Option<Seq<u32>> {
    match weights {
        Some(values) => Some(values@),
        None => None,
    }
}

impl View for HostState {
    type V = HostStateView;

    open spec fn view(&self) -> HostStateView {
        HostStateView {
            params: self.params,
            config: self.config,
            test_labels: self.test_labels@,
            initial_weights: values_of(self.initial_weights),
            first_weights: values_of(self.first_weights),
            final_weights: values_of(self.final_weights),
            eval_correct: self.eval_correct as int,
            eval_total: self.eval_total as int,
            gallery: guesses(self.gallery@),
            last_loss: self.last_loss,
            last_accuracy: self.last_accuracy,
            first_loss: self.first_loss,
        }
    }
}

impl HostState {
    /// No more predictions are correct than were made.
    pub open spec fn wf(self) -> bool {
        self.eval_correct <= self.eval_total
    }

    pub fn new(model: ModelKind, config: GuestConfig, test_labels: Vec<u8>) -> (state: HostState)
        ensures
            state.wf(),
            state@ == (HostStateView {
                params: model.spec_params(),
                config,
                test_labels: test_labels@,
                initial_weights: None,
                first_weights: None,
                final_weights: None,
                eval_correct: 0,
                eval_total: 0,
                gallery: Seq::empty(),
                last_loss: None,
                last_accuracy: None,
                first_loss: None,
            }),
    {
        let state = HostState {
            params: model.params(),
            config,
            test_labels,
            initial_weights: None,
            first_weights: None,
            final_weights: None,
            eval_correct: 0,
            eval_total: 0,
            gallery: Vec::new(),
            last_loss: None,
            last_accuracy: None,
            first_loss: None,
        };
        assert(guesses(state.gallery@) =~= Seq::empty());
        state
    }

    /// `configure(out_ptr)`: writes the configuration to guest memory. Without
    /// a memory, or beyond its end, the guest gets a range error.
    pub fn configure(&self, view: Option<&wasmer::MemoryView<'_>>, out_ptr: i32) -> (status: i32)
        ensures
            status == (if view is Some && unsigned(out_ptr) + 48 <= span(view) {
                SUCCESS
            } else {
                ERR_RANGE
            }),
            status == SUCCESS ==> seen(view, unsigned(out_ptr), le_bytes(self.config.words())),
    {
        let bytes = self.config.to_bytes();
        match view {
            None => ERR_RANGE,
            Some(view) => copy_status(
                write_bytes(view, wasm_u32(out_ptr) as u64, bytes.as_slice()),
            ),
        }
    }

    /// Whether `report_weights` goes on to read `count` floats: only when that
    /// is the model's number of parameters.
    pub fn wants_weights(&self, count: i32) -> (wanted: bool)
        ensures
            wanted == (count >= 0 && count as int == self.params),
    {
        count >= 0 && count as u64 == self.params as u64
    }

    /// Keeps floats that were reported under a tag: 0 initial parameters, 1
    /// after the first update, 2 final. Other tags, and floats that could not be
    /// read, change nothing.
    pub fn keep_weights(&mut self, tag: i32, values: Option<Vec<u32>>)
        requires
            old(self).wf(),
        ensures
            final(self).wf(),
            final(self)@ == kept_weights(old(self)@, tag, values_of(values)),
    {
        match values {
            Some(values) => {
                if tag == 0 {
                    self.initial_weights = Some(values);
                } else if tag == 1 {
                    self.first_weights = Some(values);
                } else if tag == 2 {
                    self.final_weights = Some(values);
                }
            },
            None => {},
        }
    }

    /// `report_weights(tag, ptr, count)`: keeps the floats at `ptr`, if there
    /// are as many as the model has parameters and all of them lie in guest
    /// memory. What they are is up to the guest.
    pub fn report_weights(
        &mut self,
        view: Option<&wasmer::MemoryView<'_>>,
        tag: i32,
        ptr: i32,
        count: i32,
    )
        requires
            old(self).wf(),
            4 * count <= usize::MAX,
        ensures
            final(self).wf(),
            if count as int == old(self).params && floats_readable(view, ptr, count) {
                exists|values: Seq<u32>|
                    values.len() == count && floats_seen(view, ptr, values) && final(self)@
                        == #[trigger] kept_weights(
                        old(self)@,
                        tag,
                        Some(values),
                    )
            } else {
                final(self)@ == old(self)@
            },
    {
        if !self.wants_weights(count) {
            return;
        }
        let values = read_f32s(view, ptr, count);
        self.keep_weights(tag, values);
    }

    /// `report_progress(step, samples_seen, loss)`: keeps the first and the
    /// last loss, and says whether this one is finite.
    pub fn report_progress(&mut self, loss: u32) -> (finite: bool)
        requires
            old(self).wf(),
        ensures
            final(self).wf(),
            finite == is_finite(loss),
            final(self)@ == (HostStateView {
                first_loss: if old(self).first_loss is None {
                    Some(loss)
                } else {
                    old(self).first_loss
                },
                last_loss: Some(loss),
                ..old(self)@
            }),
            final(self)@ == progressed(old(self)@, loss),
    {
        if self.first_loss.is_none() {
            self.first_loss = Some(loss);
        }
        self.last_loss = Some(loss);
        float_is_finite(loss)
    }
}

/// The state with one more loss reported.
pub open spec fn progressed(state: HostStateView, loss: u32) -> HostStateView {
    HostStateView {
        first_loss: if state.first_loss is None {
            Some(loss)
        } else {
            state.first_loss
        },
        last_loss: Some(loss),
        ..state
    }
}

/// The state with floats kept under their tag.
pub open spec fn kept_weights(state: HostStateView, tag: i32, values: Option<Seq<u32>>) -> HostStateView {
    if values is None {
        state
    } else if tag == 0 {
        HostStateView { initial_weights: values, ..state }
    } else if tag == 1 {
        HostStateView { first_weights: values, ..state }
    } else if tag == 2 {
        HostStateView { final_weights: values, ..state }
    } else {
        state
    }
}

/// `count` floats at `ptr` lie in guest memory.
pub open spec fn floats_readable(
    view: Option<&wasmer::MemoryView<'_>>,
    ptr: i32,
    count: i32,
) -> bool {
    view is Some && count >= 0 && unsigned(ptr) + 4 * count <= span(view)
}

/// The floats stood at `ptr` in guest memory.
pub open spec fn floats_seen(
    view: Option<&wasmer::MemoryView<'_>>,
    ptr: i32,
    values: Seq<u32>,
) -> bool {
    exists|bytes: Seq<u8>| #[trigger]
        seen(view, unsigned(ptr), bytes) && bytes.len() == 4 * values.len() && values == le_words(
            bytes,
        )
}

/// Reads `count` floats at `ptr` from guest memory, if they lie there.
pub fn read_f32s(view: Option<&wasmer::MemoryView<'_>>, ptr: i32, count: i32) -> (values: Option<
    Vec<u32>,
>)
    requires
        4 * count <= usize::MAX,
    ensures
        values is Some <==> floats_readable(view, ptr, count),
        values matches Some(values) ==> values@.len() == count && floats_seen(view, ptr, values@),
{
    if count < 0 {
        return None;
    }
    match view {
        None => None,
        Some(memory) => match read_bytes(memory, wasm_u32(ptr) as u64, count as usize * 4) {
            Ok(bytes) => {
                assert(seen(view, unsigned(ptr), bytes@));
                Some(bytes_to_words(bytes.as_slice()))
            },
            Err(_) => None,
        },
    }
}

// ---------------------------------------------------------------------------
// Evaluation
// ---------------------------------------------------------------------------

/// The index of the largest of the first `n` probabilities in the total order
/// of floats; the last one where several are equal.
pub open spec fn best(row: Seq<u32>, n: nat) -> int
    decreases n,
{
    if n <= 1 {
        0
    } else {
        let before = best(row, (n - 1) as nat);
        if total_order(row[before]) <= total_order(row[n - 1]) {
            n - 1
        } else {
            before
        }
    }
}

/// The class that a row of probabilities speaks for.
pub open spec fn prediction(row: Seq<u32>) -> int {
    best(row, row.len())
}

/// The prediction is the last of the largest probabilities.
pub proof fn law_prediction_is_last_maximum(row: Seq<u32>, n: nat)
    requires
        1 <= n <= row.len(),
    ensures
        0 <= best(row, n) < n,
        forall|i: int| 0 <= i < n ==> total_order(#[trigger] row[i]) <= total_order(row[best(row, n)]),
        forall|i: int|
            best(row, n) < i < n ==> total_order(#[trigger] row[i]) < total_order(
                row[best(row, n)],
            ),
    decreases n,
{
    if n > 1 {
        law_prediction_is_last_maximum(row, (n - 1) as nat);
    }
}

/// Row `i` of a matrix of class probabilities.
pub open spec fn row(probs: Seq<u32>, i: int) -> Seq<u32> {
    probs.subrange(CLASSES * i, CLASSES * i + CLASSES)
}

/// How many of the reported rows have a label: rows beyond the last label are
/// not counted, nor is anything at a negative index.
pub open spec fn labelled_rows(labels: int, first_index: int, rows: int) -> int {
    if first_index < 0 || first_index >= labels {
        0
    } else if rows <= labels - first_index {
        rows
    } else {
        labels - first_index
    }
}

/// How many of the first `n` rows predict their label.
pub open spec fn correct_rows(labels: Seq<u8>, first: int, probs: Seq<u32>, n: nat) -> int
    decreases n,
{
    if n == 0 {
        0
    } else {
        let i = n - 1;
        correct_rows(labels, first, probs, i as nat) + if prediction(row(probs, i)) == labels[first
            + i] {
            1int
        } else {
            0int
        }
    }
}

/// What the first `n` rows add to the gallery.
pub open spec fn shown_rows(labels: Seq<u8>, first: int, probs: Seq<u32>, n: nat) -> Seq<GuessView>
    decreases n,
{
    if n == 0 {
        Seq::empty()
    } else {
        let i = n - 1;
        let before = shown_rows(labels, first, probs, i as nat);
        if first + i < GALLERY {
            before.push(
                GuessView {
                    index: first + i,
                    label: labels[first + i],
                    predicted: prediction(row(probs, i)),
                    probs: row(probs, i),
                },
            )
        } else {
            before
        }
    }
}

/// The state with all labelled rows counted.
pub open spec fn counted_probs(state: HostStateView, first: int, probs: Seq<u32>) -> HostStateView {
    let labels = state.test_labels;
    let rows = (probs.len() / CLASSES as nat) as int;
    let n = labelled_rows(labels.len() as int, first, rows) as nat;
    HostStateView {
        eval_total: state.eval_total + n,
        eval_correct: state.eval_correct + correct_rows(labels, first, probs, n),
        gallery: state.gallery + shown_rows(labels, first, probs, n),
        ..state
    }
}

/// The class that a row of probabilities speaks for.
fn predict(row: &Vec<u32>) -> (class: usize)
    requires
        row@.len() > 0,
    ensures
        class == prediction(row@),
        class < row@.len(),
{
    let mut chosen: usize = 0;
    let mut i: usize = 1;
    while i < row.len()
        invariant
            1 <= i <= row@.len(),
            chosen < i,
            chosen == best(row@, i as nat),
        decreases row@.len() - i,
    {
        if order_key(row[chosen]) <= order_key(row[i]) {
            chosen = i;
        }
        i = i + 1;
    }
    chosen
}

/// One row of class probabilities.
fn take_row(probs: &Vec<u32>, i: usize) -> (values: Vec<u32>)
    requires
        CLASSES * i + CLASSES <= probs@.len(),
    ensures
        values@ == row(probs@, i as int),
{
    let mut values: Vec<u32> = Vec::new();
    let len: usize = probs.len();
    let mut j: usize = 0;
    while j < CLASSES
        invariant
            j <= CLASSES,
            len == probs@.len(),
            CLASSES * i + CLASSES <= len,
            values@ == probs@.subrange(CLASSES * i, CLASSES * i + j),
        decreases CLASSES - j,
    {
        values.push(probs[CLASSES * i + j]);
        j = j + 1;
        assert(values@ =~= probs@.subrange(CLASSES * i, CLASSES * i + j));
    }
    values
}

impl HostState {
    /// Counts every labelled row of class probabilities, and shows the first
    /// ones.
    pub fn count_probs(&mut self, first_index: i32, probs: &Vec<u32>)
        requires
            old(self).wf(),
            old(self).eval_total + probs@.len() / CLASSES as nat <= usize::MAX,
        ensures
            final(self).wf(),
            final(self)@ == counted_probs(old(self)@, first_index as int, probs@),
    {
        let ghost start = self@;
        let ghost labels = self.test_labels@;
        let ghost first_at = first_index as int;
        let rows: usize = probs.len() / CLASSES;
        if first_index < 0 || first_index as u64 >= self.test_labels.len() as u64 {
            assert(self@.gallery =~= start.gallery + Seq::<GuessView>::empty());
            return;
        }
        let first: usize = first_index as usize;
        let room: usize = self.test_labels.len() - first;
        let n: usize = if rows <= room {
            rows
        } else {
            room
        };
        let mut offset: usize = 0;
        assert(self@.gallery =~= start.gallery + Seq::<GuessView>::empty());
        while offset < n
            invariant
                offset <= n,
                n <= rows,
                rows == probs@.len() / CLASSES as nat,
                first == first_at,
                first + n <= labels.len() <= usize::MAX,
                labels == self.test_labels@,
                self.wf(),
                start.eval_total + rows <= usize::MAX,
                self@ == (HostStateView {
                    eval_total: start.eval_total + offset,
                    eval_correct: start.eval_correct + correct_rows(
                        labels,
                        first_at,
                        probs@,
                        offset as nat,
                    ),
                    gallery: start.gallery + shown_rows(labels, first_at, probs@, offset as nat),
                    ..start
                }),
            decreases n - offset,
        {
            let label: u8 = self.test_labels[first + offset];
            let values = take_row(probs, offset);
            let predicted: usize = predict(&values);
            let ghost shown = shown_rows(labels, first_at, probs@, offset as nat);
            self.eval_total = self.eval_total + 1;
            if predicted as u64 == label as u64 {
                self.eval_correct = self.eval_correct + 1;
            }
            if first + offset < GALLERY {
                let ghost before = self.gallery@;
                let guess = Guess { index: first + offset, label, predicted, probs: values };
                let ghost seen = guess@;
                self.gallery.push(guess);
                assert(guesses(self.gallery@) =~= guesses(before).push(seen));
                assert((start.gallery + shown).push(seen) =~= start.gallery + shown.push(seen));
            }
            offset = offset + 1;
        }
    }

    /// `report_eval_probs(first_index, ptr, count)`: counts the rows at `ptr`,
    /// if they lie in guest memory. What they hold is up to the guest.
    pub fn report_eval_probs(
        &mut self,
        view: Option<&wasmer::MemoryView<'_>>,
        first_index: i32,
        ptr: i32,
        count: i32,
    )
        requires
            old(self).wf(),
            4 * count <= usize::MAX,
            old(self).eval_total + count / CLASSES as i32 <= usize::MAX,
        ensures
            final(self).wf(),
            if floats_readable(view, ptr, count) {
                exists|probs: Seq<u32>|
                    probs.len() == count && floats_seen(view, ptr, probs) && final(self)@
                        == #[trigger] counted_probs(
                        old(self)@,
                        first_index as int,
                        probs,
                    )
            } else {
                final(self)@ == old(self)@
            },
    {
        match read_f32s(view, ptr, count) {
            Some(probs) => self.count_probs(first_index, &probs),
            None => {},
        }
    }

    /// `report_eval_done(step)`: the counts of the evaluation and its gallery,
    /// after which the next one starts afresh.
    pub fn report_eval_done(&mut self) -> (evaluation: Evaluation)
        requires
            old(self).wf(),
        ensures
            final(self).wf(),
            evaluation.correct == old(self).eval_correct,
            evaluation.total == old(self).eval_total,
            guesses(evaluation.items@) == old(self)@.gallery,
            final(self)@ == (HostStateView {
                last_accuracy: Some((old(self).eval_correct, old(self).eval_total)),
                eval_correct: 0,
                eval_total: 0,
                gallery: Seq::empty(),
                ..old(self)@
            }),
            final(self)@ == evaluated(old(self)@),
    {
        let correct: usize = self.eval_correct;
        let total: usize = self.eval_total;
        self.last_accuracy = Some((correct, total));
        let mut items: Vec<Guess> = Vec::new();
        std::mem::swap(&mut items, &mut self.gallery);
        assert(guesses(self.gallery@) =~= Seq::empty());
        self.eval_correct = 0;
        self.eval_total = 0;
        Evaluation { correct, total, items }
    }
}

/// The state with the evaluation so far settled.
pub open spec fn evaluated(state: HostStateView) -> HostStateView {
    HostStateView {
        last_accuracy: Some((state.eval_correct as usize, state.eval_total as usize)),
        eval_correct: 0,
        eval_total: 0,
        gallery: Seq::empty(),
        ..state
    }
}

/// What one evaluation came to.
#[derive(Debug)]
pub struct Evaluation {
    pub correct: usize,
    pub total: usize,
    pub items: Vec<Guess>,
}

// ---------------------------------------------------------------------------
// The final check
// ---------------------------------------------------------------------------

/// Why a finished run is no success.
#[derive(Clone, Copy, Debug, PartialEq, Eq, Structural)]
pub enum RunError {
    /// The guest ended with that status.
    Exit(i32),
    /// Not all three sets of parameters were reported.
    MissingWeights,
    /// The parameters are not what training should have made of them.
    CheckFailed,
}

impl RunError {
    pub open spec fn spec_message(self) -> Seq<char> {
        match self {
            RunError::Exit(status) => "guest exited with status "@ + signed_decimal(status as int)
                + " (see guest/mnist/src/lib.rs EXIT_* for the failing stage)"@,
            RunError::MissingWeights =>
                "guest did not report initial, first-update and final parameters"@,
            RunError::CheckFailed => "independent CPU check failed"@,
        }
    }

    pub fn message(self) -> (text: String)
        ensures
            text@ == self.spec_message(),
    {
        match self {
            RunError::Exit(status) => {
                let mut text = "guest exited with status ".to_owned();
                push_signed(&mut text, status);
                text.append(" (see guest/mnist/src/lib.rs EXIT_* for the failing stage)");
                text
            },
            RunError::MissingWeights =>
                "guest did not report initial, first-update and final parameters".to_owned(),
            RunError::CheckFailed => "independent CPU check failed".to_owned(),
        }
    }
}

/// Why a run that ended with that status is no success, before its parameters
/// are looked at.
pub open spec fn run_error(state: HostStateView, exit: i32) -> Option<RunError> {
    if exit != 0 {
        Some(RunError::Exit(exit))
    } else if state.initial_weights is None || state.first_weights is None
        || state.final_weights is None {
        Some(RunError::MissingWeights)
    } else {
        None
    }
}

impl HostState {
    /// The guest ended well and reported all three sets of parameters.
    pub fn finished(&self, exit: i32) -> (ready: Result<(), RunError>)
        ensures
            ready == (if exit != 0 {
                Err::<(), RunError>(RunError::Exit(exit))
            } else if self@.initial_weights is None || self@.first_weights is None
                || self@.final_weights is None {
                Err::<(), RunError>(RunError::MissingWeights)
            } else {
                Ok::<(), RunError>(())
            }),
            ready matches Err(error) ==> run_error(self@, exit) == Some(error),
            ready is Ok ==> run_error(self@, exit) is None,
    {
        if exit != 0 {
            return Err(RunError::Exit(exit));
        }
        if self.initial_weights.is_none() || self.first_weights.is_none()
            || self.final_weights.is_none() {
            return Err(RunError::MissingWeights);
        }
        Ok(())
    }

    /// Every final parameter and the last loss is finite.
    pub open spec fn spec_all_finite(self) -> bool {
        &&& self.final_weights matches Some(values) && forall|i: int|
            0 <= i < values@.len() ==> is_finite(#[trigger] values@[i])
        &&& self.last_loss matches Some(loss) && is_finite(loss)
    }

    /// Every final parameter and the last loss is finite.
    pub fn all_finite(&self) -> (finite: bool)
        ensures
            finite == self.spec_all_finite(),
    {
        let loss_finite = match self.last_loss {
            Some(loss) => float_is_finite(loss),
            None => false,
        };
        match &self.final_weights {
            Some(values) => {
                let mut i: usize = 0;
                while i < values.len()
                    invariant
                        i <= values@.len(),
                        values_of(self.final_weights) == Some(values@),
                        forall|j: int| 0 <= j < i ==> is_finite(#[trigger] values@[j]),
                    decreases values@.len() - i,
                {
                    if !float_is_finite(values[i]) {
                        return false;
                    }
                    i = i + 1;
                }
                loss_finite
            },
            None => false,
        }
    }
}

/// How the reported parameters differ, as far as the check reads it.
#[derive(Clone, Copy, Debug, PartialEq, Eq, Structural)]
pub struct Differences {
    /// The largest difference between initial and final parameters is zero.
    pub total_is_zero: bool,
    /// It is greater than zero.
    pub total_is_positive: bool,
    /// The largest difference made by the first update is greater than zero.
    pub first_is_positive: bool,
    /// The first update is as close to the CPU reference as it has to be.
    pub first_is_close: bool,
}

/// Training changed the parameters, unless nothing was to be learned, and left
/// finite numbers. Softmax has to agree with the CPU reference on the first
/// update; the CNN has to have moved in it.
pub open spec fn training_passes(
    model: ModelKind,
    learning_rate: u32,
    differences: Differences,
    all_finite: bool,
) -> bool {
    let frozen = is_zero(learning_rate);
    &&& if frozen {
        differences.total_is_zero
    } else {
        differences.total_is_positive
    }
    &&& all_finite
    &&& match model {
        ModelKind::Softmax => differences.first_is_close,
        ModelKind::Cnn => differences.first_is_positive || frozen,
    }
}

/// Decides whether the parameters are what training should have made of them.
pub fn check_training(
    model: ModelKind,
    learning_rate: u32,
    differences: Differences,
    all_finite: bool,
) -> (passed: bool)
    ensures
        passed == training_passes(model, learning_rate, differences, all_finite),
{
    let frozen = float_is_zero(learning_rate);
    let changed_ok = if frozen {
        differences.total_is_zero
    } else {
        differences.total_is_positive
    };
    match model {
        ModelKind::Softmax => differences.first_is_close && changed_ok && all_finite,
        ModelKind::Cnn => changed_ok && all_finite && (differences.first_is_positive || frozen),
    }
}

/// What the check expects of the parameters, in words.
pub open spec fn spec_expectation(model: ModelKind, learning_rate: u32) -> Seq<char> {
    if is_zero(learning_rate) {
        "parameters unchanged"@
    } else if model is Softmax {
        "parameters changed"@
    } else {
        "parameters changed, finite"@
    }
}

/// What the check expects of the parameters, in words.
pub fn expectation(model: ModelKind, learning_rate: u32) -> (text: &'static str)
    ensures
        text@ == spec_expectation(model, learning_rate),
{
    if float_is_zero(learning_rate) {
        "parameters unchanged"
    } else {
        match model {
            ModelKind::Softmax => "parameters changed",
            ModelKind::Cnn => "parameters changed, finite",
        }
    }
}

/// The run as a whole: the parameters pass, and nothing is left on the device.
pub fn checks_passed(check_passed: bool, after: &BridgeSnapshot) -> (passed: bool)
    ensures
        passed == (check_passed && after.live_buffers == 0 && after.live_pipelines == 0),
{
    check_passed && after.live_buffers == 0 && after.live_pipelines == 0
}

/// The name of the log of a run that started so many seconds after the epoch.
pub fn log_name(seconds: u64) -> (name: String)
    ensures
        name@ == "run-"@ + decimal(seconds as nat) + ".jsonl"@,
{
    let mut name = "run-".to_owned();
    push_decimal(&mut name, seconds as u128);
    name.append(".jsonl");
    name
}

/// Which training images a run uses, in words.
pub fn train_split(count: usize) -> (text: String)
    ensures
        text@ == "first "@ + decimal(count as nat) + " of the official 60,000 training images"@,
{
    let mut text = "first ".to_owned();
    push_decimal(&mut text, count as u128);
    text.append(" of the official 60,000 training images");
    text
}

/// Which test images a run uses, in words.
pub fn test_split(count: usize) -> (text: String)
    ensures
        text@ == "first "@ + decimal(count as nat)
            + " of the official 10,000 test images (never trained on)"@,
{
    let mut text = "first ".to_owned();
    push_decimal(&mut text, count as u128);
    text.append(" of the official 10,000 test images (never trained on)");
    text
}

} // verus!
