//! The CNN trainer guest: what it asks of the bridge and reports to the host,
//! in which order, and how it ends.
//!
//! Architecture: conv 5x5 (8 filters, valid) -> ReLU -> max-pool 2x2 -> fully
//! connected 1152 -> 10 -> softmax. Six kernels per training step, three for
//! evaluation. The whole state lives in one buffer on the device; per step only
//! the header, the inputs and the labels are rewritten, and the leading regions
//! are read back.
use crate::abi::{transfer_len_ok, unsigned};
use crate::device::BridgeView;
use crate::encoding::{bytes_to_words, law_words_round_trip, le_bytes, le_words};
use crate::host::{dispatch_plan, owned_live, read_refusal, write_refusal};
use crate::mnist_host::{labelled_rows, GuestConfig};
use crate::mnist_model::ModelKind;
use crate::session::SessionView;
use vstd::prelude::*;

verus! {

pub const INPUTS: u32 = 784;

pub const CLASSES: u32 = 10;

pub const MAX_BATCH: u32 = 64;

pub const FILTERS: u32 = 8;

/// Side of a convolution kernel.
pub const K: u32 = 5;

/// Side of a convolved image.
pub const CONV: u32 = 24;

/// Side of a pooled image.
pub const POOL: u32 = 12;

/// Pooled values of one digit.
pub const FEAT: u32 = FILTERS * POOL * POOL;

/// W2, b2, W1, b1 in buffer order.
pub const PARAMS: u32 = CLASSES * FEAT + CLASSES + FILTERS * K * K + FILTERS;

/// Losses, behind a header of sixteen floats.
pub const OFF_L: u32 = 16;

/// Class probabilities.
pub const OFF_P: u32 = OFF_L + MAX_BATCH;

/// Weights of the fully connected layer.
pub const OFF_W2: u32 = OFF_P + MAX_BATCH * CLASSES;

/// Biases of the fully connected layer.
pub const OFF_B2: u32 = OFF_W2 + CLASSES * FEAT;

/// Weights of the convolution.
pub const OFF_W1: u32 = OFF_B2 + CLASSES;

/// Biases of the convolution.
pub const OFF_B1: u32 = OFF_W1 + FILTERS * K * K;

/// Inputs of the batch.
pub const OFF_X: u32 = OFF_B1 + FILTERS;

/// Labels of the batch.
pub const OFF_Y: u32 = OFF_X + MAX_BATCH * INPUTS;

/// Convolved images.
pub const OFF_CONV: u32 = OFF_Y + MAX_BATCH;

/// Pooled images.
pub const OFF_POOLED: u32 = OFF_CONV + MAX_BATCH * FILTERS * CONV * CONV;

/// Where each pooled value came from.
pub const OFF_ARGMAX: u32 = OFF_POOLED + MAX_BATCH * FEAT;

/// Gradients of the pooled images.
pub const OFF_DPOOLED: u32 = OFF_ARGMAX + MAX_BATCH * FEAT;

/// Gradients of the convolved images.
pub const OFF_DCONV: u32 = OFF_DPOOLED + MAX_BATCH * FEAT;

/// Floats of the whole state.
pub const TOTAL: u32 = OFF_DCONV + MAX_BATCH * FILTERS * CONV * CONV;

/// Floats of the leading regions that are read back.
pub const FRONT: u32 = OFF_B1 + FILTERS;

/// The regions follow one another and end with the buffer; what is read back
/// is everything up to the inputs, parameters last.
pub proof fn law_layout()
    ensures
        PARAMS == 11_738,
        OFF_W2 + PARAMS == OFF_X == FRONT,
        TOTAL == 873_706,
{
}

// Exit codes: 10 + stage, so a bridge error is attributable in the host log.
pub const EXIT_CONFIG: i32 = 11;

pub const EXIT_UPLOAD: i32 = 12;

pub const EXIT_PIPELINE: i32 = 13;

pub const EXIT_WRITE: i32 = 14;

pub const EXIT_DISPATCH: i32 = 15;

pub const EXIT_READ: i32 = 16;

pub const EXIT_RELEASE: i32 = 17;

// ---------------------------------------------------------------------------
// Random numbers
// ---------------------------------------------------------------------------

/// One step of the generator.
pub open spec fn xorshift(x: u32) -> u32 {
    let a = x ^ (x << 13);
    let b = a ^ (a >> 17);
    b ^ (b << 5)
}

#[derive(Clone, Copy, Debug, PartialEq, Eq, Structural)]
pub struct XorShift32(pub u32);

impl XorShift32 {
    /// Draws the next number.
    pub fn next(&mut self) -> (x: u32)
        ensures
            x == xorshift(old(self).0),
            final(self).0 == x,
    {
        let a: u32 = self.0 ^ (self.0 << 13);
        let b: u32 = a ^ (a >> 17);
        let x: u32 = b ^ (b << 5);
        self.0 = x;
        x
    }
}

/// The generator never gets stuck at zero, and no two states have the same
/// successor.
pub proof fn law_xorshift(x: u32, y: u32)
    ensures
        x != 0 ==> xorshift(x) != 0,
        xorshift(x) == xorshift(y) ==> x == y,
{
    let (ax, ay) = (x ^ (x << 13), y ^ (y << 13));
    let (bx, by) = (ax ^ (ax >> 17), ay ^ (ay >> 17));
    assert(x ^ (x << 13) == y ^ (y << 13) ==> x == y) by (bit_vector);
    assert(ax ^ (ax >> 17) == ay ^ (ay >> 17) ==> ax == ay) by (bit_vector);
    assert(bx ^ (bx << 5) == by ^ (by << 5) ==> bx == by) by (bit_vector);
    assert(x ^ (x << 13) == 0 ==> x == 0) by (bit_vector);
    assert(ax ^ (ax >> 17) == 0 ==> ax == 0) by (bit_vector);
    assert(bx ^ (bx << 5) == 0 ==> bx == 0) by (bit_vector);
}

/// The state after `k` draws.
pub open spec fn drawn(state: u32, k: nat) -> u32
    decreases k,
{
    if k == 0 {
        state
    } else {
        xorshift(drawn(state, (k - 1) as nat))
    }
}

/// The weights that are drawn: those of the fully connected layer, then those
/// of the convolution. All biases start at zero.
pub const DRAWS: u32 = CLASSES * FEAT + FILTERS * K * K;

/// The numbers that the initial weights are made from, in order.
pub fn initial_draws(seed: u32) -> (draws: Vec<u32>)
    ensures
        draws@.len() == DRAWS,
        forall|k: int| 0 <= k < DRAWS ==> #[trigger] draws@[k] == drawn(seed | 1, (k + 1) as nat),
        forall|k: int| 0 <= k < DRAWS ==> #[trigger] draws@[k] != 0,
        draws@[0] == xorshift(seed | 1),
        forall|k: int| 1 <= k < DRAWS ==> #[trigger] draws@[k] == xorshift(draws@[k - 1]),
{
    let mut rng = XorShift32(seed | 1);
    let mut draws: Vec<u32> = Vec::new();
    assert(seed | 1 != 0) by (bit_vector);
    let mut k: u32 = 0;
    while k < DRAWS
        invariant
            k <= DRAWS,
            draws@.len() == k,
            rng.0 == drawn(seed | 1, k as nat),
            rng.0 != 0,
            forall|j: int| 0 <= j < k ==> #[trigger] draws@[j] == drawn(seed | 1, (j + 1) as nat),
            forall|j: int| 0 <= j < k ==> #[trigger] draws@[j] != 0,
            k > 0 ==> draws@[0] == xorshift(seed | 1) && rng.0 == draws@[k - 1],
            forall|j: int| 1 <= j < k ==> #[trigger] draws@[j] == xorshift(draws@[j - 1]),
        decreases DRAWS - k,
    {
        proof {
            law_xorshift(rng.0, 0);
        }
        draws.push(rng.next());
        k = k + 1;
    }
    draws
}

// ---------------------------------------------------------------------------
// Configuration
// ---------------------------------------------------------------------------

/// What the host told the guest. The learning rate is given by its bits.
#[derive(Clone, Copy, Debug, PartialEq, Eq, Structural)]
pub struct Config {
    pub train_ptr: u32,
    pub train_n: u32,
    pub train_labels_ptr: u32,
    pub test_ptr: u32,
    pub test_n: u32,
    pub test_labels_ptr: u32,
    pub steps: u32,
    pub batch: u32,
    pub eval_every: u32,
    pub learning_rate: u32,
    pub seed: u32,
    pub progress_every: u32,
}

/// Bytes of a configuration in guest memory.
pub const CONFIG_BYTES: usize = 48;

impl Config {
    /// The configuration that twelve words make.
    pub open spec fn from_words(words: Seq<u32>) -> Config {
        Config {
            train_ptr: words[0],
            train_n: words[1],
            train_labels_ptr: words[2],
            test_ptr: words[3],
            test_n: words[4],
            test_labels_ptr: words[5],
            steps: words[6],
            batch: words[7],
            eval_every: words[8],
            learning_rate: words[9],
            seed: words[10],
            progress_every: words[11],
        }
    }

    /// Reads a configuration from guest memory.
    pub fn read(bytes: &[u8]) -> (config: Config)
        requires
            bytes@.len() == CONFIG_BYTES,
        ensures
            config == Config::from_words(le_words(bytes@)),
    {
        let words = bytes_to_words(bytes);
        Config {
            train_ptr: words[0],
            train_n: words[1],
            train_labels_ptr: words[2],
            test_ptr: words[3],
            test_n: words[4],
            test_labels_ptr: words[5],
            steps: words[6],
            batch: words[7],
            eval_every: words[8],
            learning_rate: words[9],
            seed: words[10],
            progress_every: words[11],
        }
    }

    /// There is something to train on, something to test with, and a step to
    /// take.
    pub open spec fn usable(self) -> bool {
        self.train_n != 0 && self.test_n != 0 && self.steps != 0
    }

    /// The samples of the whole run can be counted in 32 bits.
    pub open spec fn countable(self) -> bool {
        self.steps * self.spec_batch() <= u32::MAX
    }

    /// The batch size, within what the state has room for.
    pub open spec fn spec_batch(self) -> u32 {
        if self.batch < 1 {
            1
        } else if self.batch > MAX_BATCH {
            MAX_BATCH
        } else {
            self.batch
        }
    }

    /// The batch size, within what the state has room for.
    pub fn effective_batch(&self) -> (batch: u32)
        ensures
            batch == self.spec_batch(),
            1 <= batch <= MAX_BATCH,
    {
        if self.batch < 1 {
            1
        } else if self.batch > MAX_BATCH {
            MAX_BATCH
        } else {
            self.batch
        }
    }

    /// Where the batch of a training step starts.
    pub open spec fn batch_first(self, step: int) -> int {
        step * self.spec_batch() % self.train_n as int
    }

    /// How many digits the batch of a training step holds.
    pub open spec fn batch_size(self, step: int) -> int {
        smaller(self.spec_batch() as int, self.train_n - self.batch_first(step))
    }

    /// How many digits were trained on in the first `steps` steps.
    pub open spec fn samples(self, steps: nat) -> int
        decreases steps,
    {
        if steps == 0 {
            0
        } else {
            self.samples((steps - 1) as nat) + self.batch_size(steps - 1)
        }
    }

    pub open spec fn is_last(self, step: int) -> bool {
        step + 1 == self.steps
    }

    /// Something happens every so many steps; never where that is zero.
    pub open spec fn due(every: u32, step: int) -> bool {
        every != 0 && (step + 1) % every as int == 0
    }

    /// The loss is reported after the first and the last step, and at the
    /// given interval.
    pub open spec fn reports_progress(self, step: int) -> bool {
        step == 0 || Config::due(self.progress_every, step) || self.is_last(step)
    }

    /// The model is evaluated after the last step and at the given interval.
    pub open spec fn evaluates(self, step: int) -> bool {
        Config::due(self.eval_every, step) || self.is_last(step)
    }
}

/// The smaller of two numbers.
pub open spec fn smaller(a: int, b: int) -> int {
    if a <= b {
        a
    } else {
        b
    }
}

/// `a / b`, rounded up.
pub open spec fn div_ceil(a: int, b: int) -> int {
    (a + b - 1) / b
}

// ---------------------------------------------------------------------------
// The schedule
// ---------------------------------------------------------------------------

/// The set that a batch is taken from.
#[derive(Clone, Copy, Debug, PartialEq, Eq, Structural)]
pub enum Digits {
    Train,
    Test,
}

/// The guest's kernels, in the order in which their pipelines are created.
#[derive(Clone, Copy, Debug, PartialEq, Eq, Structural)]
pub enum Kernel {
    ConvForward,
    PoolForward,
    FcForward,
    FcBackward,
    FcUpdate,
    ConvUpdate,
}

impl Kernel {
    pub open spec fn spec_index(self) -> int {
        match self {
            Kernel::ConvForward => 0,
            Kernel::PoolForward => 1,
            Kernel::FcForward => 2,
            Kernel::FcBackward => 3,
            Kernel::FcUpdate => 4,
            Kernel::ConvUpdate => 5,
        }
    }

    /// The kernel's place in the order of creation.
    pub fn index(self) -> (index: usize)
        ensures
            index == self.spec_index(),
            index < 6,
    {
        match self {
            Kernel::ConvForward => 0,
            Kernel::PoolForward => 1,
            Kernel::FcForward => 2,
            Kernel::FcBackward => 3,
            Kernel::FcUpdate => 4,
            Kernel::ConvUpdate => 5,
        }
    }
}

/// One thing that the guest does. Positions and lengths in the state count
/// floats.
#[derive(Clone, Copy, Debug, PartialEq, Eq, Structural)]
pub enum Step {
    /// Draws the initial weights and fills in the header: the batch size and
    /// the learning rate.
    Initialize,
    /// Uploads the whole state.
    Upload,
    CreatePipeline { kernel: Kernel },
    /// Puts `n` digits from `first` on, their labels and their number into the
    /// staged state.
    Stage { digits: Digits, first: u32, n: u32 },
    /// Writes a part of the staged state to the buffer.
    Write { at: u32, len: u32 },
    Dispatch { kernel: Kernel, groups: u32 },
    /// Reads the front of the buffer back.
    Read { len: u32 },
    /// Reports the parameters, staged (tag 0) or read back.
    ReportWeights { tag: i32 },
    /// Reports the mean of the first `n` losses that were read back.
    ReportProgress { step: u32, samples_seen: u32, n: u32 },
    /// Reports the class probabilities of `n` digits.
    ReportEvalProbs { first: u32, n: u32 },
    ReportEvalDone { step: u32 },
    ReleasePipeline { kernel: Kernel },
    ReleaseBuffer,
}

/// The code that the guest exits with where the step's status is an error.
pub open spec fn exit_code(step: Step) -> Option<i32> {
    match step {
        Step::Upload => Some(EXIT_UPLOAD),
        Step::CreatePipeline { .. } => Some(EXIT_PIPELINE),
        Step::Write { .. } => Some(EXIT_WRITE),
        Step::Dispatch { .. } => Some(EXIT_DISPATCH),
        Step::Read { .. } => Some(EXIT_READ),
        Step::ReleasePipeline { .. } => Some(EXIT_RELEASE),
        Step::ReleaseBuffer => Some(EXIT_RELEASE),
        _ => None,
    }
}

/// Everything before the first training step.
pub open spec fn setup() -> Seq<Step> {
    seq![
        Step::Initialize,
        Step::ReportWeights { tag: 0 },
        Step::Upload,
        Step::CreatePipeline { kernel: Kernel::ConvForward },
        Step::CreatePipeline { kernel: Kernel::PoolForward },
        Step::CreatePipeline { kernel: Kernel::FcForward },
        Step::CreatePipeline { kernel: Kernel::FcBackward },
        Step::CreatePipeline { kernel: Kernel::FcUpdate },
        Step::CreatePipeline { kernel: Kernel::ConvUpdate },
    ]
}

/// Stages a batch, writes its header, inputs and labels, and runs conv+ReLU,
/// pool, fc+softmax over it.
pub open spec fn forward_pass(digits: Digits, first: int, n: int) -> Seq<Step> {
    seq![
        Step::Stage { digits, first: first as u32, n: n as u32 },
        Step::Write { at: 0, len: 16 },
        Step::Write { at: OFF_X, len: (n * INPUTS) as u32 },
        Step::Write { at: OFF_Y, len: n as u32 },
        Step::Dispatch {
            kernel: Kernel::ConvForward,
            groups: div_ceil(n * (FILTERS * CONV * CONV), 64) as u32,
        },
        Step::Dispatch { kernel: Kernel::PoolForward, groups: div_ceil(n * FEAT, 64) as u32 },
        Step::Dispatch { kernel: Kernel::FcForward, groups: n as u32 },
    ]
}

/// Routes the gradients back and updates both layers.
pub open spec fn backward_pass(n: int) -> Seq<Step> {
    seq![
        Step::Dispatch { kernel: Kernel::FcBackward, groups: div_ceil(n * FEAT, 64) as u32 },
        Step::Dispatch {
            kernel: Kernel::FcUpdate,
            groups: div_ceil(CLASSES * FEAT + CLASSES, 64) as u32,
        },
        Step::Dispatch {
            kernel: Kernel::ConvUpdate,
            groups: div_ceil(FILTERS * K * K + FILTERS, 8) as u32,
        },
    ]
}

impl Config {
    /// Evaluates the test set from `first` on, batch by batch.
    pub open spec fn evaluation(self, first: int) -> Seq<Step>
        decreases self.test_n - first,
    {
        if first >= self.test_n {
            Seq::empty()
        } else {
            let n = smaller(self.spec_batch() as int, self.test_n - first);
            forward_pass(Digits::Test, first, n) + seq![
                Step::Read { len: (OFF_P + MAX_BATCH * CLASSES) as u32 },
                Step::ReportEvalProbs { first: first as u32, n: n as u32 },
            ] + self.evaluation(first + n)
        }
    }

    /// What follows the update of a training step.
    pub open spec fn reporting(self, step: int) -> Seq<Step> {
        let progress = seq![
            Step::Read { len: FRONT },
            Step::ReportProgress {
                step: step as u32,
                samples_seen: self.samples((step + 1) as nat) as u32,
                n: self.batch_size(step) as u32,
            },
        ];
        if !self.reports_progress(step) {
            Seq::empty()
        } else if step == 0 {
            progress + seq![Step::ReportWeights { tag: 1 }]
        } else {
            progress
        }
    }

    /// One training step, with the reports and the evaluation that are due.
    pub open spec fn training_step(self, step: int) -> Seq<Step> {
        let n = self.batch_size(step);
        let update = forward_pass(Digits::Train, self.batch_first(step), n) + backward_pass(n)
            + self.reporting(step);
        if self.evaluates(step) {
            update + self.evaluation(0) + seq![Step::ReportEvalDone { step: step as u32 }]
        } else {
            update
        }
    }

    /// All training steps from `step` on.
    pub open spec fn training(self, step: int) -> Seq<Step>
        decreases self.steps - step,
    {
        if step >= self.steps {
            Seq::empty()
        } else {
            self.training_step(step) + self.training(step + 1)
        }
    }

    /// Everything that a run does, as long as nothing fails.
    pub open spec fn schedule(self) -> Seq<Step> {
        setup() + (self.training(0) + teardown())
    }
}

/// Everything after the last training step.
pub open spec fn teardown() -> Seq<Step> {
    seq![
        Step::Read { len: FRONT },
        Step::ReportWeights { tag: 2 },
        Step::ReleasePipeline { kernel: Kernel::ConvForward },
        Step::ReleasePipeline { kernel: Kernel::PoolForward },
        Step::ReleasePipeline { kernel: Kernel::FcForward },
        Step::ReleasePipeline { kernel: Kernel::FcBackward },
        Step::ReleasePipeline { kernel: Kernel::FcUpdate },
        Step::ReleasePipeline { kernel: Kernel::ConvUpdate },
        Step::ReleaseBuffer,
    ]
}

// ---------------------------------------------------------------------------
// Facts about batches
// ---------------------------------------------------------------------------

impl Config {
    /// Every training batch is a non-empty part of the training set.
    pub proof fn law_batches_stay_inside(self, step: int)
        requires
            self.usable(),
            0 <= step,
        ensures
            1 <= self.spec_batch() <= MAX_BATCH,
            0 <= self.batch_first(step) < self.train_n,
            1 <= self.batch_size(step) <= self.spec_batch(),
            self.batch_first(step) + self.batch_size(step) <= self.train_n,
    {
    }

    /// The samples grow by at most a batch with every step.
    pub proof fn lemma_samples(self, steps: nat)
        requires
            self.usable(),
        ensures
            0 <= self.samples(steps) <= steps * self.spec_batch(),
        decreases steps,
    {
        if steps > 0 {
            self.lemma_samples((steps - 1) as nat);
            self.law_batches_stay_inside(steps - 1);
            let batch = self.spec_batch() as int;
            assert((steps - 1) * batch + batch == steps * batch) by (nonlinear_arith);
        } else {
            assert(0 * self.spec_batch() == 0) by (nonlinear_arith);
        }
    }
}

// ---------------------------------------------------------------------------
// Running the schedule
// ---------------------------------------------------------------------------

/// The step opens something that later steps use.
pub open spec fn opens(step: Step) -> bool {
    step is Upload || step is CreatePipeline
}

/// None of the steps opens anything.
pub open spec fn opens_nothing(steps: Seq<Step>) -> bool {
    forall|i: int| 0 <= i < steps.len() ==> !opens(#[trigger] steps[i])
}

/// What the step reads or writes lies inside the state, and what it dispatches
/// is within reach of a batch.
pub open spec fn admissible(step: Step) -> bool {
    match step {
        Step::Write { at, len } => 1 <= len && at + len <= TOTAL,
        Step::Read { len } => 1 <= len <= TOTAL,
        Step::Dispatch { groups, .. } => 1 <= groups <= MAX_BATCH * 72,
        Step::Stage { n, .. } => 1 <= n <= MAX_BATCH,
        _ => true,
    }
}

/// All of the steps are admissible.
pub open spec fn all_admissible(steps: Seq<Step>) -> bool {
    forall|i: int| 0 <= i < steps.len() ==> admissible(#[trigger] steps[i])
}

proof fn lemma_passes(digits: Digits, first: int, n: int)
    requires
        1 <= n <= MAX_BATCH,
    ensures
        all_admissible(forward_pass(digits, first, n)),
        all_admissible(backward_pass(n)),
{
    lemma_image_sizes(n);
}

proof fn lemma_evaluation_steps(config: Config, first: int)
    requires
        config.usable(),
        0 <= first,
    ensures
        opens_nothing(config.evaluation(first)),
        all_admissible(config.evaluation(first)),
    decreases config.test_n - first,
{
    if first < config.test_n {
        let n = smaller(config.spec_batch() as int, config.test_n - first);
        lemma_passes(Digits::Test, first, n);
        lemma_evaluation_steps(config, first + n);
    }
}

proof fn lemma_training_steps(config: Config, step: int)
    requires
        config.usable(),
        0 <= step,
    ensures
        opens_nothing(config.training_step(step)),
        all_admissible(config.training_step(step)),
        config.training_step(step).len() > 0,
{
    config.law_batches_stay_inside(step);
    lemma_passes(Digits::Train, config.batch_first(step), config.batch_size(step));
    lemma_evaluation_steps(config, 0);
    let n = config.batch_size(step);
    let first = config.batch_first(step);
    assert(all_admissible(config.reporting(step)));
    assert(all_admissible(forward_pass(Digits::Train, first, n) + backward_pass(n)));
}

/// Everything that a run asks for lies inside the state buffer, and every
/// dispatch is small: no step can be refused for its numbers.
pub proof fn law_schedule_is_admissible(config: Config, step: int)
    requires
        config.usable(),
        0 <= step,
    ensures
        all_admissible(setup()),
        all_admissible(config.training(step)),
        all_admissible(teardown()),
    decreases config.steps - step,
{
    if step < config.steps {
        lemma_training_steps(config, step);
        law_schedule_is_admissible(config, step + 1);
    }
}

/// The sizes of a batch's images.
pub proof fn lemma_image_sizes(n: int)
    ensures
        n * INPUTS == 784 * n,
        n * (FILTERS * CONV * CONV) == 4608 * n,
        n * FEAT == 1152 * n,
{
    assert(FILTERS * CONV * CONV == 4608);
    assert(FEAT == 1152);
}

/// Appends the forward pass over a batch.
fn push_forward(steps: &mut Vec<Step>, digits: Digits, first: u32, n: u32)
    requires
        1 <= n <= MAX_BATCH,
    ensures
        final(steps)@ == old(steps)@ + forward_pass(digits, first as int, n as int),
{
    proof {
        lemma_image_sizes(n as int);
    }
    steps.push(Step::Stage { digits, first, n });
    steps.push(Step::Write { at: 0, len: 16 });
    steps.push(Step::Write { at: OFF_X, len: n * INPUTS });
    steps.push(Step::Write { at: OFF_Y, len: n });
    steps.push(
        Step::Dispatch {
            kernel: Kernel::ConvForward,
            groups: (n * (FILTERS * CONV * CONV) + 63) / 64,
        },
    );
    steps.push(Step::Dispatch { kernel: Kernel::PoolForward, groups: (n * FEAT + 63) / 64 });
    steps.push(Step::Dispatch { kernel: Kernel::FcForward, groups: n });
    assert(steps@ =~= old(steps)@ + forward_pass(digits, first as int, n as int));
}

/// Appends the backward pass over a batch.
fn push_backward(steps: &mut Vec<Step>, n: u32)
    requires
        1 <= n <= MAX_BATCH,
    ensures
        final(steps)@ == old(steps)@ + backward_pass(n as int),
{
    proof {
        lemma_image_sizes(n as int);
    }
    steps.push(Step::Dispatch { kernel: Kernel::FcBackward, groups: (n * FEAT + 63) / 64 });
    steps.push(
        Step::Dispatch { kernel: Kernel::FcUpdate, groups: (CLASSES * FEAT + CLASSES + 63) / 64 },
    );
    steps.push(
        Step::Dispatch { kernel: Kernel::ConvUpdate, groups: (FILTERS * K * K + FILTERS + 7) / 8 },
    );
    assert(steps@ =~= old(steps)@ + backward_pass(n as int));
}

/// Appends an evaluation of the whole test set.
fn push_evaluation(steps: &mut Vec<Step>, config: &Config, batch: u32)
    requires
        config.usable(),
        config.countable(),
        batch == config.spec_batch(),
    ensures
        final(steps)@ == old(steps)@ + config.evaluation(0),
{
    let ghost start = steps@;
    let ghost whole = start + config.evaluation(0);
    let mut first: u32 = 0;
    while first < config.test_n
        invariant
            config.usable(),
            config.countable(),
            1 <= batch <= MAX_BATCH,
            batch == config.spec_batch(),
            first <= config.test_n,
            steps@ + config.evaluation(first as int) == whole,
        decreases config.test_n - first,
    {
        let left: u32 = config.test_n - first;
        let n: u32 = if batch <= left {
            batch
        } else {
            left
        };
        let ghost before = steps@;
        push_forward(steps, Digits::Test, first, n);
        steps.push(Step::Read { len: OFF_P + MAX_BATCH * CLASSES });
        steps.push(Step::ReportEvalProbs { first, n });
        proof {
            let tail = config.evaluation(first + n);
            let mine = forward_pass(Digits::Test, first as int, n as int);
            let reads = seq![
                Step::Read { len: (OFF_P + MAX_BATCH * CLASSES) as u32 },
                Step::ReportEvalProbs { first, n },
            ];
            assert(config.evaluation(first as int) == mine + reads + tail);
            assert(steps@ =~= before + mine + reads);
            assert(before + (mine + reads + tail) =~= before + mine + reads + tail);
        }
        first = first + n;
    }
    assert(config.evaluation(first as int) =~= Seq::empty());
    assert(steps@ =~= whole);
}

/// A run of the guest, step by step.
#[derive(Debug)]
pub struct Trainer {
    config: Config,
    batch: u32,
    planned: u32,
    finishing: bool,
    queue: Vec<Step>,
    at: usize,
    samples_seen: u32,
    buffer: i32,
    pipelines: Vec<i32>,
}

impl Trainer {
    /// What the host configured.
    pub closed spec fn spec_config(&self) -> Config {
        self.config
    }

    /// Everything that is still to be done.
    pub closed spec fn remaining(&self) -> Seq<Step> {
        self.queue@.skip(self.at as int) + self.upcoming()
    }

    /// What is not planned in detail yet.
    spec fn upcoming(&self) -> Seq<Step> {
        if self.finishing {
            Seq::empty()
        } else {
            self.config.training(self.planned as int) + teardown()
        }
    }

    /// The handle of the state buffer, once it is uploaded.
    pub closed spec fn spec_buffer(&self) -> i32 {
        self.buffer
    }

    /// The handles of the pipelines, in the order of their creation.
    pub closed spec fn spec_pipelines(&self) -> Seq<i32> {
        self.pipelines@
    }

    pub closed spec fn wf(&self) -> bool {
        &&& self.config.usable()
        &&& self.config.countable()
        &&& self.batch == self.config.spec_batch()
        &&& self.planned <= self.config.steps
        &&& self.finishing ==> self.planned == self.config.steps
        &&& self.samples_seen == self.config.samples(self.planned as nat)
        &&& self.at <= self.queue@.len()
        &&& self.at == self.queue@.len() ==> self.finishing
        &&& self.pipelines@.len() <= 6
        &&& self.pipelines@.len() < 6 ==> {
            &&& self.planned == 0
            &&& !self.finishing
            &&& self.queue@ == setup()
            &&& self.pipelines@.len() == if self.at <= 3 {
                0
            } else {
                self.at - 3
            }
        }
        &&& self.pipelines@.len() == 6 ==> opens_nothing(self.queue@)
        &&& all_admissible(self.queue@)
    }

    /// Starts a run, given the status of the host's `configure` and what it
    /// filled in; or the code to exit with.
    pub fn start(status: i32, config: Config) -> (trainer: Result<Trainer, i32>)
        requires
            config.countable(),
        ensures
            match trainer {
                Ok(trainer) => status >= 0 && config.usable() && trainer.wf()
                    && trainer.spec_config() == config && trainer.remaining() == config.schedule()
                    && trainer.spec_pipelines() == Seq::<i32>::empty(),
                Err(code) => (status < 0 || !config.usable()) && code == EXIT_CONFIG,
            },
    {
        if status < 0 {
            return Err(EXIT_CONFIG);
        }
        if config.train_n == 0 || config.test_n == 0 || config.steps == 0 {
            return Err(EXIT_CONFIG);
        }
        let batch: u32 = config.effective_batch();
        let queue: Vec<Step> = vec![
            Step::Initialize,
            Step::ReportWeights { tag: 0 },
            Step::Upload,
            Step::CreatePipeline { kernel: Kernel::ConvForward },
            Step::CreatePipeline { kernel: Kernel::PoolForward },
            Step::CreatePipeline { kernel: Kernel::FcForward },
            Step::CreatePipeline { kernel: Kernel::FcBackward },
            Step::CreatePipeline { kernel: Kernel::FcUpdate },
            Step::CreatePipeline { kernel: Kernel::ConvUpdate },
        ];
        assert(queue@ =~= setup());
        assert(queue@.skip(0) =~= setup());
        Ok(
            Trainer {
                config,
                batch,
                planned: 0,
                finishing: false,
                queue,
                at: 0,
                samples_seen: 0,
                buffer: 0,
                pipelines: Vec::new(),
            },
        )
    }

    /// The next thing to do; nothing once the run is complete, when the guest
    /// exits with zero.
    pub fn step(&self) -> (step: Option<Step>)
        requires
            self.wf(),
        ensures
            match step {
                Some(step) => self.remaining().len() > 0 && step == self.remaining()[0],
                None => self.remaining().len() == 0,
            },
    {
        if self.at < self.queue.len() {
            Some(self.queue[self.at])
        } else {
            None
        }
    }

    /// Plans one training step.
    fn plan_step(&mut self)
        requires
            old(self).config.usable(),
            old(self).config.countable(),
            old(self).batch == old(self).config.spec_batch(),
            old(self).planned < old(self).config.steps,
            old(self).samples_seen == old(self).config.samples(old(self).planned as nat),
        ensures
            final(self).config == old(self).config,
            final(self).batch == old(self).batch,
            final(self).planned == old(self).planned + 1,
            final(self).finishing == old(self).finishing,
            final(self).queue@ == old(self).config.training_step(old(self).planned as int),
            final(self).at == 0,
            final(self).samples_seen == old(self).config.samples(final(self).planned as nat),
            final(self).buffer == old(self).buffer,
            final(self).pipelines == old(self).pipelines,
    {
        let config = self.config;
        let batch: u32 = self.batch;
        let step: u32 = self.planned;
        proof {
            config.law_batches_stay_inside(step as int);
            config.lemma_samples((step + 1) as nat);
            assert(0 <= step * batch <= 0xffff_ffff * 64) by (nonlinear_arith)
                requires
                    step <= 0xffff_ffff,
                    batch <= 64,
            ;
            assert((step + 1) * batch <= config.steps * batch) by (nonlinear_arith)
                requires
                    step + 1 <= config.steps,
                    0 <= batch,
            ;
        }
        let first: u32 = ((step as u64 * batch as u64) % config.train_n as u64) as u32;
        let left: u32 = config.train_n - first;
        let n: u32 = if batch <= left {
            batch
        } else {
            left
        };
        assert(first == config.batch_first(step as int));
        assert(n == config.batch_size(step as int));
        let samples_seen: u32 = self.samples_seen + n;
        let last = step + 1 == config.steps;
        let progress_due = config.progress_every != 0 && (step + 1) % config.progress_every == 0;
        let eval_due = config.eval_every != 0 && (step + 1) % config.eval_every == 0;
        let mut queue: Vec<Step> = Vec::new();
        push_forward(&mut queue, Digits::Train, first, n);
        push_backward(&mut queue, n);
        let ghost passes = forward_pass(Digits::Train, first as int, n as int) + backward_pass(
            n as int,
        );
        assert(queue@ =~= passes);
        if step == 0 || progress_due || last {
            queue.push(Step::Read { len: FRONT });
            queue.push(Step::ReportProgress { step, samples_seen, n });
            if step == 0 {
                queue.push(Step::ReportWeights { tag: 1 });
            }
        }
        assert(queue@ =~= passes + config.reporting(step as int));
        if eval_due || last {
            push_evaluation(&mut queue, &config, batch);
            queue.push(Step::ReportEvalDone { step });
        }
        assert(queue@ =~= config.training_step(step as int));
        self.queue = queue;
        self.at = 0;
        self.planned = step + 1;
        self.samples_seen = samples_seen;
    }

    /// Plans the end of the run.
    fn plan_teardown(&mut self)
        ensures
            *final(self) == (Trainer {
                queue: final(self).queue,
                at: 0,
                finishing: true,
                ..*old(self)
            }),
            final(self).queue@ == teardown(),
    {
        let queue: Vec<Step> = vec![
            Step::Read { len: FRONT },
            Step::ReportWeights { tag: 2 },
            Step::ReleasePipeline { kernel: Kernel::ConvForward },
            Step::ReleasePipeline { kernel: Kernel::PoolForward },
            Step::ReleasePipeline { kernel: Kernel::FcForward },
            Step::ReleasePipeline { kernel: Kernel::FcBackward },
            Step::ReleasePipeline { kernel: Kernel::FcUpdate },
            Step::ReleasePipeline { kernel: Kernel::ConvUpdate },
            Step::ReleaseBuffer,
        ];
        assert(queue@ =~= teardown());
        self.queue = queue;
        self.at = 0;
        self.finishing = true;
    }

    /// Takes the status of the step that was just done. A negative one ends the
    /// run with the code of the stage; otherwise the run moves on, and a new
    /// handle is kept.
    pub fn advance(&mut self, status: i32) -> (moved: Result<(), i32>)
        requires
            old(self).wf(),
            old(self).remaining().len() > 0,
        ensures
            final(self).wf(),
            final(self).spec_config() == old(self).spec_config(),
            ({
                let step = old(self).remaining()[0];
                match exit_code(step) {
                    Some(code) if status < 0 => moved == Err::<(), i32>(code) && *final(self)
                        == *old(self),
                    _ => {
                        &&& moved == Ok::<(), i32>(())
                        &&& final(self).remaining() == old(self).remaining().skip(1)
                        &&& final(self).spec_buffer() == if step is Upload {
                            status
                        } else {
                            old(self).spec_buffer()
                        }
                        &&& final(self).spec_pipelines() == if step is CreatePipeline {
                            old(self).spec_pipelines().push(status)
                        } else {
                            old(self).spec_pipelines()
                        }
                    },
                }
            }),
    {
        let len: usize = self.queue.len();
        let step = self.queue[self.at];
        assert(step == old(self).remaining()[0]);
        let code: Option<i32> = match step {
            Step::Upload => Some(EXIT_UPLOAD),
            Step::CreatePipeline { .. } => Some(EXIT_PIPELINE),
            Step::Write { .. } => Some(EXIT_WRITE),
            Step::Dispatch { .. } => Some(EXIT_DISPATCH),
            Step::Read { .. } => Some(EXIT_READ),
            Step::ReleasePipeline { .. } => Some(EXIT_RELEASE),
            Step::ReleaseBuffer => Some(EXIT_RELEASE),
            _ => None,
        };
        assert(code == exit_code(step));
        if let Some(code) = code {
            if status < 0 {
                return Err(code);
            }
        }
        match step {
            Step::Upload => {
                self.buffer = status;
            },
            Step::CreatePipeline { .. } => {
                self.pipelines.push(status);
            },
            _ => {},
        }
        let ghost queue = self.queue@;
        let ghost upcoming = self.upcoming();
        self.at = self.at + 1;
        assert(old(self).remaining().skip(1) =~= queue.skip(self.at as int) + upcoming);
        if self.at == len {
            proof {
                lemma_training_steps(self.config, self.planned as int);
            }
            if self.planned < self.config.steps {
                let ghost first = self.config.training_step(self.planned as int);
                let ghost rest = self.config.training(self.planned + 1);
                self.plan_step();
                assert(self.queue@.skip(0) =~= first);
                assert(queue.skip(queue.len() as int) + (first + rest + teardown()) =~= first + (rest
                    + teardown()));
            } else if !self.finishing {
                self.plan_teardown();
                assert(self.queue@.skip(0) =~= teardown());
                assert(queue.skip(queue.len() as int) + (Seq::<Step>::empty() + teardown())
                    =~= teardown() + Seq::<Step>::empty());
            }
        }
        Ok(())
    }
}

// ---------------------------------------------------------------------------
// Calls of the bridge
// ---------------------------------------------------------------------------

/// A call of a bridge import, with the numbers that the guest passes. Offsets
/// and lengths count bytes; `state_at` is where in the staged state the data
/// lies.
#[derive(Clone, Copy, Debug, PartialEq, Eq, Structural)]
pub enum BridgeCall {
    BufferUpload { len: i32 },
    PipelineCreate { kernel: Kernel },
    BufferWrite { handle: i32, offset: i32, state_at: u32, len: i32 },
    PipelineDispatch { pipeline: i32, buffer: i32, x: i32, y: i32, z: i32 },
    BufferRead { handle: i32, len: i32 },
    PipelineRelease { handle: i32 },
    BufferRelease { handle: i32 },
}

/// The call that a step makes, if it makes one.
pub open spec fn call_of(step: Step, buffer: i32, pipelines: Seq<i32>) -> Option<BridgeCall> {
    match step {
        Step::Upload => Some(BridgeCall::BufferUpload { len: (TOTAL * 4) as i32 }),
        Step::CreatePipeline { kernel } => Some(BridgeCall::PipelineCreate { kernel }),
        Step::Write { at, len } => Some(
            BridgeCall::BufferWrite {
                handle: buffer,
                offset: (at * 4) as i32,
                state_at: at,
                len: (len * 4) as i32,
            },
        ),
        Step::Dispatch { kernel, groups } => Some(
            BridgeCall::PipelineDispatch {
                pipeline: pipelines[kernel.spec_index()],
                buffer,
                x: groups as i32,
                y: 1,
                z: 1,
            },
        ),
        Step::Read { len } => Some(
            BridgeCall::BufferRead { handle: buffer, len: (len * 4) as i32 },
        ),
        Step::ReleasePipeline { kernel } => Some(
            BridgeCall::PipelineRelease { handle: pipelines[kernel.spec_index()] },
        ),
        Step::ReleaseBuffer => Some(BridgeCall::BufferRelease { handle: buffer }),
        _ => None,
    }
}

impl Trainer {
    /// The bridge call of the next step, if it makes one.
    pub fn call(&self) -> (call: Option<BridgeCall>)
        requires
            self.wf(),
        ensures
            call == (if self.remaining().len() == 0 {
                None
            } else {
                call_of(self.remaining()[0], self.spec_buffer(), self.spec_pipelines())
            }),
            call matches Some(BridgeCall::PipelineDispatch { .. }) ==> self.spec_pipelines().len()
                == 6,
            call matches Some(BridgeCall::PipelineRelease { .. }) ==> self.spec_pipelines().len()
                == 6,
    {
        if self.at >= self.queue.len() {
            return None;
        }
        let step = self.queue[self.at];
        assert(step == self.remaining()[0]);
        assert(admissible(step));
        let buffer: i32 = self.buffer;
        match step {
            Step::Upload => Some(BridgeCall::BufferUpload { len: (TOTAL * 4) as i32 }),
            Step::CreatePipeline { kernel } => Some(BridgeCall::PipelineCreate { kernel }),
            Step::Write { at, len } => Some(
                BridgeCall::BufferWrite {
                    handle: buffer,
                    offset: (at * 4) as i32,
                    state_at: at,
                    len: (len * 4) as i32,
                },
            ),
            Step::Dispatch { kernel, groups } => Some(
                BridgeCall::PipelineDispatch {
                    pipeline: self.pipelines[kernel.index()],
                    buffer,
                    x: groups as i32,
                    y: 1,
                    z: 1,
                },
            ),
            Step::Read { len } => Some(
                BridgeCall::BufferRead { handle: buffer, len: (len * 4) as i32 },
            ),
            Step::ReleasePipeline { kernel } => Some(
                BridgeCall::PipelineRelease { handle: self.pipelines[kernel.index()] },
            ),
            Step::ReleaseBuffer => Some(BridgeCall::BufferRelease { handle: buffer }),
            _ => None,
        }
    }
}

/// As long as the state buffer and the six pipelines are the session's and
/// live, the bridge admits every dispatch of a run, and every write and readback
/// whose bytes lie in guest memory.
pub proof fn law_bridge_admits_the_trainer(
    step: Step,
    buffer: i32,
    pipelines: Seq<i32>,
    session: SessionView,
    bridge: BridgeView,
    size: u64,
    ptr: i32,
)
    requires
        admissible(step),
        pipelines.len() == 6,
        forall|i: int| 0 <= i < 6 ==> session.pipelines.contains(#[trigger] pipelines[i]),
        session.buffers.contains_key(buffer),
        session.buffers[buffer] == TOTAL * 4,
        owned_live(session, bridge),
    ensures
        match call_of(step, buffer, pipelines) {
            Some(BridgeCall::BufferWrite { handle, offset, len, .. }) => unsigned(ptr) + unsigned(
                len,
            ) <= size ==> write_refusal(
                true,
                size,
                session,
                bridge,
                handle,
                offset,
                ptr,
                len,
            ) is None,
            Some(BridgeCall::PipelineDispatch { pipeline, buffer, x, y, z }) => dispatch_plan(
                session,
                bridge,
                pipeline,
                buffer,
                x,
                y,
                z,
            ) is Ok,
            Some(BridgeCall::BufferRead { handle, len }) => unsigned(ptr) + unsigned(len) <= size
                ==> read_refusal(true, size, session, bridge, handle, ptr, len) is None,
            _ => true,
        },
{
    match step {
        Step::Dispatch { kernel, groups } => {
            assert(session.pipelines.contains(pipelines[kernel.spec_index()]));
            assert(groups as int * 1 * 1 == groups);
        },
        _ => {},
    }
}

/// One state buffer and six pipelines fit into the session that the host gives
/// the CNN.
pub proof fn law_trainer_fits_its_session()
    ensures
        ({
            let limits = ModelKind::Cnn.spec_session_limits();
            &&& 1 <= limits.max_buffers
            &&& TOTAL * 4 <= limits.max_bytes
            &&& 6 <= limits.max_pipelines
            &&& transfer_len_ok(TOTAL * 4)
            &&& PARAMS == ModelKind::Cnn.spec_params()
        }),
{
}

/// The guest reads the very configuration that the host wrote.
pub proof fn law_config_crosses_over(config: GuestConfig)
    ensures
        Config::from_words(le_words(le_bytes(config.words()))) == (Config {
            train_ptr: config.train_ptr,
            train_n: config.train_n,
            train_labels_ptr: config.train_labels_ptr,
            test_ptr: config.test_ptr,
            test_n: config.test_n,
            test_labels_ptr: config.test_labels_ptr,
            steps: config.steps,
            batch: config.batch,
            eval_every: config.eval_every,
            learning_rate: config.learning_rate,
            seed: config.seed,
            progress_every: config.progress_every,
        }),
{
    law_words_round_trip(config.words());
}

/// How many test digits the steps report probabilities of.
pub open spec fn reported(steps: Seq<Step>) -> int
    decreases steps.len(),
{
    if steps.len() == 0 {
        0
    } else {
        reported(steps.drop_last()) + match steps.last() {
            Step::ReportEvalProbs { n, .. } => n as int,
            _ => 0int,
        }
    }
}

proof fn lemma_reported(a: Seq<Step>, b: Seq<Step>)
    ensures
        reported(a + b) == reported(a) + reported(b),
    decreases b.len(),
{
    if b.len() == 0 {
        assert(a + b =~= a);
    } else {
        lemma_reported(a, b.drop_last());
        assert((a + b).drop_last() =~= a + b.drop_last());
        assert((a + b).last() == b.last());
    }
}

/// A run opens the state buffer and one pipeline for each kernel before it
/// trains, opens nothing else, and releases all of them in the end.
pub proof fn law_run_releases_what_it_opens(config: Config, step: int, kernel: Kernel)
    requires
        config.usable(),
        0 <= step,
    ensures
        setup().contains(Step::Upload),
        setup().contains(Step::CreatePipeline { kernel }),
        opens_nothing(config.training(step)),
        opens_nothing(teardown()),
        teardown().contains(Step::ReleasePipeline { kernel }),
        teardown().contains(Step::ReleaseBuffer),
    decreases config.steps - step,
{
    let i = kernel.spec_index();
    assert(setup()[2] == Step::Upload);
    assert(setup()[3 + i] == Step::CreatePipeline { kernel });
    assert(teardown()[2 + i] == Step::ReleasePipeline { kernel });
    assert(teardown()[8] == Step::ReleaseBuffer);
    if step < config.steps {
        lemma_training_steps(config, step);
        law_run_releases_what_it_opens(config, step + 1, kernel);
    }
}

/// Every evaluation reports every test digit once, and no other. With a label
/// for each of them the host counts them all.
pub proof fn law_evaluation_covers_the_test_set(config: Config, first: int)
    requires
        config.usable(),
        0 <= first <= config.test_n,
    ensures
        reported(config.evaluation(first)) == config.test_n - first,
        forall|i: int|
            0 <= i < config.evaluation(first).len() ==> match #[trigger] config.evaluation(first)[i] {
                Step::ReportEvalProbs { first: at, n } => first <= at && at + n <= config.test_n
                    && labelled_rows(config.test_n as int, at as int, n as int) == n,
                _ => true,
            },
    decreases config.test_n - first,
{
    if first < config.test_n {
        let n = smaller(config.spec_batch() as int, config.test_n - first);
        law_evaluation_covers_the_test_set(config, first + n);
        let pass = forward_pass(Digits::Test, first, n);
        let reads = seq![
            Step::Read { len: (OFF_P + MAX_BATCH * CLASSES) as u32 },
            Step::ReportEvalProbs { first: first as u32, n: n as u32 },
        ];
        let rest = config.evaluation(first + n);
        lemma_reported(pass + reads, rest);
        lemma_reported(pass, reads);
        reveal_with_fuel(reported, 8);
        assert(reported(pass) == 0) by {
            assert(pass.drop_last().drop_last().drop_last().drop_last().drop_last().drop_last()
                .drop_last() =~= Seq::empty());
        }
        assert(reads.drop_last().drop_last() =~= Seq::empty());
        assert(reported(reads) == n);
    } else {
        assert(config.evaluation(first) =~= Seq::empty());
    }
}

// ---------------------------------------------------------------------------
// Staging
// ---------------------------------------------------------------------------

/// The digits of one batch: pixels to be scaled to [0, 1], and labels.
#[derive(Debug)]
pub struct Batch {
    pub pixels: Vec<u8>,
    pub labels: Vec<u8>,
}

/// A stretch of `bytes`.
fn slice_of(bytes: &[u8], from: usize, to: usize) -> (part: Vec<u8>)
    requires
        from <= to <= bytes@.len(),
    ensures
        part@ == bytes@.subrange(from as int, to as int),
{
    let mut part: Vec<u8> = Vec::new();
    let mut i: usize = from;
    while i < to
        invariant
            from <= i <= to <= bytes@.len(),
            part@ == bytes@.subrange(from as int, i as int),
        decreases to - i,
    {
        part.push(bytes[i]);
        i = i + 1;
        assert(part@ =~= bytes@.subrange(from as int, i as int));
    }
    part
}

/// Takes `n` images and labels from `first` on. Pixel `i` of the batch goes to
/// `OFF_X + i` in the staged state, and label `s` to `OFF_Y + s`.
pub fn stage_batch(images: &[u8], labels: &[u8], first: usize, n: usize) -> (batch: Batch)
    requires
        n <= MAX_BATCH,
        first + n <= labels@.len(),
        (first + n) * INPUTS <= images@.len(),
    ensures
        batch.pixels@ == images@.subrange(first * INPUTS, (first + n) * INPUTS),
        batch.labels@ == labels@.subrange(first as int, first + n),
        batch.labels@.len() == n,
        batch.pixels@.len() == 784 * n,
        forall|s: int| 0 <= s < n ==> #[trigger] batch.labels@[s] == labels@[first + s],
        forall|i: int|
            0 <= i < 784 * n ==> #[trigger] batch.pixels@[i] == images@[784 * first + i],
{
    let count: usize = labels.len();
    let len: usize = images.len();
    assert(first + n <= count && (first + n) * 784 <= len);
    Batch {
        pixels: slice_of(images, first * 784, (first + n) * 784),
        labels: slice_of(labels, first, first + n),
    }
}

} // verus!
