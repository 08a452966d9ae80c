//! What a training run does, said in terms of its configuration.
use crate::encoding::{le_word, le_words};
use crate::trainer::{
    backward_pass, call_of, drawn, exit_code, forward_pass, setup, teardown, xorshift, BridgeCall,
    Config, Digits, Kernel, Step, CLASSES, CONFIG_BYTES, CONV, DRAWS, EXIT_CONFIG, FEAT, FILTERS,
    INPUTS, K, MAX_BATCH,
    OFF_ARGMAX, OFF_B1, OFF_B2, OFF_CONV, OFF_DCONV, OFF_DPOOLED, OFF_L, OFF_P, OFF_POOLED, OFF_W1,
    OFF_W2, OFF_X, OFF_Y, POOL, TOTAL,
};
use vstd::arithmetic::div_mod::{
    lemma_fundamental_div_mod, lemma_fundamental_div_mod_converse, lemma_mod_self_0,
    lemma_small_mod,
};
use vstd::prelude::*;

verus! {

// ---------------------------------------------------------------------------
// Batches
// ---------------------------------------------------------------------------

/// The digits that a full batch has: as many as configured, from 1 to 64; none
/// is taken for one, and more than 64 for 64.
pub open spec fn full_batch(config: Config) -> int {
    if config.batch == 0 {
        1
    } else if config.batch <= 64 {
        config.batch as int
    } else {
        64
    }
}

/// The batch size is the configured one, from 1 to 64; none is taken for one,
/// and more than 64 for 64.
pub proof fn law_batch_size_is_the_configured_one(config: Config)
    ensures
        1 <= config.batch <= 64 ==> config.spec_batch() == config.batch,
        config.batch == 0 ==> config.spec_batch() == 1,
        config.batch > 64 ==> config.spec_batch() == 64,
{
}

/// Consecutive training batches are contiguous: the first one starts at digit
/// zero, and each one where the one before it ended. A batch is full unless the
/// training set ends in it, and the one after that counts on from the start.
pub proof fn law_batches_are_contiguous(config: Config, step: int)
    requires
        config.usable(),
        0 <= step,
    ensures
        ({
            let first = config.batch_first(step);
            let n = config.batch_size(step);
            let next = config.batch_first(step + 1);
            let full = full_batch(config);
            &&& config.batch_first(0) == 0
            &&& first == (step * full) % config.train_n as int
            &&& step * full < config.train_n ==> first == step * full
            &&& first + full <= config.train_n ==> n == full
            &&& first + full > config.train_n ==> first + n == config.train_n
            &&& first + n < config.train_n ==> next == first + n
            &&& first + full == config.train_n ==> next == 0
            &&& next == (first + full) % config.train_n as int
        }),
{
    let (b, t) = (full_batch(config), config.train_n as int);
    let first = config.batch_first(step);
    assert(config.spec_batch() == b);
    assert(0 * b == 0) by (nonlinear_arith);
    lemma_small_mod(0, t as nat);
    assert(0 <= step * b) by (nonlinear_arith)
        requires
            0 <= step,
            0 <= b,
    ;
    if step * b < t {
        lemma_small_mod((step * b) as nat, t as nat);
    }
    assert((step + 1) * b == step * b + b) by (nonlinear_arith);
    lemma_fundamental_div_mod(step * b, t);
    let q = (step * b) / t;
    assert(step * b + b == t * q + (first + b));
    lemma_fundamental_div_mod(first + b, t);
    let p = (first + b) / t;
    assert(t * q + t * p == t * (q + p)) by (nonlinear_arith);
    assert(t * (q + p) == (q + p) * t) by (nonlinear_arith);
    lemma_fundamental_div_mod_converse(step * b + b, t, q + p, (first + b) % t);
    if first + b < t {
        lemma_small_mod((first + b) as nat, t as nat);
    }
    if first + b == t {
        lemma_mod_self_0(t);
    }
}

/// Every step adds its batch to the samples, and as long as the training set is
/// not used up, every step adds a whole one.
pub proof fn law_samples_count_the_batches(config: Config, steps: nat)
    requires
        config.usable(),
    ensures
        config.samples(0) == 0,
        config.samples(steps + 1) == config.samples(steps) + config.batch_size(steps as int),
        steps * full_batch(config) <= config.train_n ==> config.samples(steps) == steps
            * full_batch(config),
    decreases steps,
{
    let b = full_batch(config);
    if steps == 0 {
        assert(0 * b == 0) by (nonlinear_arith);
    } else {
        let before = (steps - 1) as nat;
        law_samples_count_the_batches(config, before);
        law_batches_are_contiguous(config, before as int);
        assert(steps * b == before * b + b) by (nonlinear_arith)
            requires
                steps == before + 1,
        ;
    }
}

/// The training batches that a sequence of steps stages, in order: where each
/// starts, and how many digits it has.
pub open spec fn staged(steps: Seq<Step>) -> Seq<(u32, u32)>
    decreases steps.len(),
{
    if steps.len() == 0 {
        Seq::empty()
    } else {
        let before = staged(steps.drop_last());
        match steps.last() {
            Step::Stage { digits: Digits::Train, first, n } => before.push((first, n)),
            _ => before,
        }
    }
}

proof fn lemma_staged(a: Seq<Step>, b: Seq<Step>)
    ensures
        staged(a + b) == staged(a) + staged(b),
    decreases b.len(),
{
    if b.len() == 0 {
        assert(a + b =~= a);
        assert(staged(a) + staged(b) =~= staged(a));
    } else {
        lemma_staged(a, b.drop_last());
        assert((a + b).drop_last() =~= a + b.drop_last());
        assert((a + b).last() == b.last());
        assert(staged(a + b) =~= staged(a) + staged(b));
    }
}

/// A sequence without training batches.
proof fn lemma_staged_none(steps: Seq<Step>)
    requires
        forall|i: int|
            0 <= i < steps.len() ==> !(#[trigger] steps[i] matches Step::Stage {
                digits: Digits::Train,
                ..
            }),
    ensures
        staged(steps) == Seq::<(u32, u32)>::empty(),
    decreases steps.len(),
{
    if steps.len() > 0 {
        lemma_staged_none(steps.drop_last());
        assert(steps.last() == steps[steps.len() - 1]);
    }
}

proof fn lemma_evaluation_stages_none(config: Config, first: int)
    requires
        config.usable(),
        0 <= first,
    ensures
        staged(config.evaluation(first)) == Seq::<(u32, u32)>::empty(),
    decreases config.test_n - first,
{
    if first < config.test_n {
        let n = crate::trainer::smaller(config.spec_batch() as int, config.test_n - first);
        lemma_evaluation_stages_none(config, first + n);
        let pass = forward_pass(Digits::Test, first, n);
        let reads = seq![
            Step::Read { len: (OFF_P + MAX_BATCH * CLASSES) as u32 },
            Step::ReportEvalProbs { first: first as u32, n: n as u32 },
        ];
        lemma_staged_none(pass + reads);
        lemma_staged(pass + reads, config.evaluation(first + n));
        assert(staged(config.evaluation(first)) =~= Seq::empty());
    } else {
        lemma_staged_none(config.evaluation(first));
    }
}

proof fn lemma_training_step_stages_one(config: Config, step: int)
    requires
        config.usable(),
        0 <= step,
    ensures
        staged(config.training_step(step)) == seq![
            (config.batch_first(step) as u32, config.batch_size(step) as u32),
        ],
{
    let (first, n) = (config.batch_first(step), config.batch_size(step));
    let pass = forward_pass(Digits::Train, first, n);
    let back = backward_pass(n);
    let reports = config.reporting(step);
    let head = pass.take(1);
    let tail = pass.skip(1);
    assert(pass =~= head + tail);
    lemma_staged(head, tail);
    lemma_staged_none(tail);
    reveal_with_fuel(staged, 2);
    assert(head.drop_last() =~= Seq::empty());
    assert(staged(head) =~= seq![(first as u32, n as u32)]);
    lemma_staged_none(back);
    lemma_staged_none(reports);
    lemma_staged(pass, back);
    lemma_staged(pass + back, reports);
    let update = pass + back + reports;
    assert(staged(update) =~= seq![(first as u32, n as u32)]);
    if config.evaluates(step) {
        let done = seq![Step::ReportEvalDone { step: step as u32 }];
        lemma_evaluation_stages_none(config, 0);
        lemma_staged_none(done);
        lemma_staged(update, config.evaluation(0));
        lemma_staged(update + config.evaluation(0), done);
        assert(staged(config.training_step(step)) =~= seq![(first as u32, n as u32)]);
    }
}

proof fn lemma_training_stages(config: Config, step: int)
    requires
        config.usable(),
        0 <= step <= config.steps,
    ensures
        staged(config.training(step)).len() == config.steps - step,
        forall|i: int|
            0 <= i < config.steps - step ==> #[trigger] staged(config.training(step))[i] == (
                config.batch_first(step + i) as u32,
                config.batch_size(step + i) as u32,
            ),
    decreases config.steps - step,
{
    if step < config.steps {
        lemma_training_step_stages_one(config, step);
        lemma_training_stages(config, step + 1);
        lemma_staged(config.training_step(step), config.training(step + 1));
        let rest = staged(config.training(step + 1));
        assert forall|i: int| 0 <= i < config.steps - step implies #[trigger] staged(
            config.training(step),
        )[i] == (config.batch_first(step + i) as u32, config.batch_size(step + i) as u32) by {
            if i > 0 {
                assert(staged(config.training(step))[i] == rest[i - 1]);
                assert(step + 1 + (i - 1) == step + i);
            }
        }
    } else {
        lemma_staged_none(config.training(step));
    }
}

/// A whole run stages one training batch for each of its steps, in order, each
/// a non-empty part of the training set, and no training digit besides.
pub proof fn law_run_stages_every_batch_once(config: Config, k: int)
    requires
        config.usable(),
        0 <= k < config.steps,
    ensures
        ({
            let batches = staged(config.schedule());
            &&& batches.len() == config.steps
            &&& batches[k].0 == config.batch_first(k)
            &&& batches[k].1 == config.batch_size(k)
            &&& 1 <= batches[k].1
            &&& batches[k].0 + batches[k].1 <= config.train_n
        }),
{
    let train = config.training(0);
    lemma_training_stages(config, 0);
    lemma_staged_none(setup());
    lemma_staged_none(teardown());
    lemma_staged(train, teardown());
    lemma_staged(setup(), train + teardown());
    assert(staged(config.schedule()) =~= staged(train));
    assert(staged(train)[k] == (config.batch_first(0 + k) as u32, config.batch_size(0 + k) as u32));
    config.law_batches_stay_inside(k);
}

// ---------------------------------------------------------------------------
// Passes
// ---------------------------------------------------------------------------

/// Where each part of the state starts.
pub proof fn law_state_layout()
    ensures
        INPUTS == 784 && CLASSES == 10 && MAX_BATCH == 64,
        FILTERS == 8 && K == 5 && CONV == 24 && POOL == 12 && FEAT == 1_152,
        OFF_L == 16,
        OFF_P == OFF_L + 64,
        OFF_W2 == OFF_P + 640,
        OFF_B2 == OFF_W2 + 11_520,
        OFF_W1 == OFF_B2 + 10,
        OFF_B1 == OFF_W1 + 200,
        OFF_X == OFF_B1 + 8,
        OFF_Y == OFF_X + 50_176,
        OFF_CONV == OFF_Y + 64,
        OFF_POOLED == OFF_CONV + 294_912,
        OFF_ARGMAX == OFF_POOLED + 73_728,
        OFF_DPOOLED == OFF_ARGMAX + 73_728,
        OFF_DCONV == OFF_DPOOLED + 73_728,
        TOTAL == OFF_DCONV + 294_912,
        DRAWS == 11_720,
{
}

/// A forward pass stages its digits, writes the header, the inputs and the
/// labels of all of them, and runs one invocation for every value that each of
/// its three kernels computes, in workgroups of 64 (the last kernel: one group
/// a digit).
pub proof fn law_forward_pass(digits: Digits, first: u32, n: u32)
    requires
        1 <= n <= 64,
    ensures
        ({
            let pass = forward_pass(digits, first as int, n as int);
            &&& pass.len() == 7
            &&& pass[0] == (Step::Stage { digits, first, n })
            &&& pass[1] == (Step::Write { at: 0, len: 16 })
            &&& pass[2] == (Step::Write { at: 12_458, len: (784 * n) as u32 })
            &&& pass[3] == (Step::Write { at: 62_634, len: n })
            &&& pass[4] == (Step::Dispatch { kernel: Kernel::ConvForward, groups: (72 * n) as u32 })
            &&& pass[5] == (Step::Dispatch { kernel: Kernel::PoolForward, groups: (18 * n) as u32 })
            &&& pass[6] == (Step::Dispatch { kernel: Kernel::FcForward, groups: n })
            &&& 64 * (72 * n) == n * (8 * 24 * 24)
            &&& 64 * (18 * n) == n * (8 * 12 * 12)
        }),
{
    crate::trainer::lemma_image_sizes(n as int);
}

/// A backward pass runs one invocation for every pooled value of the batch, in
/// workgroups of 64, and updates every parameter of both layers: the 11530 of
/// the fully connected one in workgroups of 64, the 208 of the convolution in
/// workgroups of 8.
pub proof fn law_backward_pass(n: u32)
    requires
        1 <= n <= 64,
    ensures
        ({
            let pass = backward_pass(n as int);
            &&& pass.len() == 3
            &&& pass[0] == (Step::Dispatch { kernel: Kernel::FcBackward, groups: (18 * n) as u32 })
            &&& pass[1] == (Step::Dispatch { kernel: Kernel::FcUpdate, groups: 181 })
            &&& pass[2] == (Step::Dispatch { kernel: Kernel::ConvUpdate, groups: 26 })
            &&& 64 * 180 < 10 * 1_152 + 10 <= 64 * 181
            &&& 8 * 26 == 8 * 5 * 5 + 8
        }),
{
    crate::trainer::lemma_image_sizes(n as int);
}

/// A training step runs its batch forward and backward before anything else.
pub proof fn law_training_step_trains_first(config: Config, step: int)
    requires
        config.usable(),
        0 <= step,
    ensures
        ({
            let steps = config.training_step(step);
            let n = config.batch_size(step) as u32;
            &&& steps.len() >= 10
            &&& steps.take(7) == forward_pass(Digits::Train, config.batch_first(step), n as int)
            &&& steps.subrange(7, 10) == backward_pass(n as int)
        }),
{
    config.law_batches_stay_inside(step);
    let steps = config.training_step(step);
    let n = config.batch_size(step);
    assert(steps.take(7) =~= forward_pass(Digits::Train, config.batch_first(step), n));
    assert(steps.subrange(7, 10) =~= backward_pass(n));
}

/// Something is due after every `every` steps: after a step whose number,
/// counted from one, is a multiple of it.
pub proof fn law_due_at_multiples(every: u32, step: int, k: int)
    requires
        0 <= step,
    ensures
        every == 0 ==> !Config::due(every, step),
        every > 0 && step + 1 == k * every ==> Config::due(every, step),
        every > 0 && k * every < step + 1 < (k + 1) * every ==> !Config::due(every, step),
{
    if every > 0 {
        let e = every as int;
        if step + 1 == k * e {
            lemma_fundamental_div_mod_converse(step + 1, e, k, 0);
        }
        if k * e < step + 1 < (k + 1) * e {
            assert((k + 1) * e == k * e + e) by (nonlinear_arith);
            lemma_fundamental_div_mod_converse(step + 1, e, k, step + 1 - k * e);
        }
    }
}

/// The loss of a step is read back and reported after the first and the last
/// step and whenever it is due, with the samples seen up to and with this step;
/// the first report is followed by the parameters.
pub proof fn law_progress_reports(config: Config, step: u32)
    requires
        config.usable(),
        config.countable(),
        step < config.steps,
    ensures
        ({
            let due = step == 0 || step + 1 == config.steps || Config::due(
                config.progress_every,
                step as int,
            );
            let reports = config.reporting(step as int);
            &&& !due ==> reports.len() == 0
            &&& due ==> reports.len() == (if step == 0 {
                3int
            } else {
                2
            })
            &&& due ==> reports[0] == (Step::Read { len: 12_458 })
            &&& due ==> (reports[1] matches Step::ReportProgress { step: at, samples_seen, n } && at
                == step && samples_seen == config.samples((step + 1) as nat) && n
                == config.batch_size(step as int))
            &&& step == 0 ==> reports[2] == (Step::ReportWeights { tag: 1 })
        }),
{
    config.law_batches_stay_inside(step as int);
    config.lemma_samples((step + 1) as nat);
    let b = config.spec_batch() as int;
    assert((step + 1) * b <= config.steps * b) by (nonlinear_arith)
        requires
            step + 1 <= config.steps,
            0 <= b,
    ;
}

/// The test set is evaluated after the last step and whenever it is due, and at
/// no other time; the end of an evaluation is reported as that of its step.
pub proof fn law_evaluations(config: Config, step: u32)
    requires
        config.usable(),
        step < config.steps,
    ensures
        ({
            let due = step + 1 == config.steps || Config::due(config.eval_every, step as int);
            let steps = config.training_step(step as int);
            let before = 10 + config.reporting(step as int).len() as int;
            &&& steps.subrange(10, before) == config.reporting(step as int)
            &&& !due ==> steps.len() == before
            &&& due ==> steps.len() == before + config.evaluation(0).len() + 1
            &&& due ==> steps.subrange(before, steps.len() - 1) == config.evaluation(0)
            &&& due ==> steps.last() == (Step::ReportEvalDone { step })
        }),
{
    let steps = config.training_step(step as int);
    let before = 10 + config.reporting(step as int).len() as int;
    assert(steps.subrange(10, before) =~= config.reporting(step as int));
    if config.evaluates(step as int) {
        assert(steps.subrange(before, steps.len() - 1) =~= config.evaluation(0));
    }
}

/// An evaluation takes the test set in order, batch by batch: it runs each one
/// forward, reads the front of the state up to the end of the probabilities, and
/// reports those of this batch.
pub proof fn law_evaluation_goes_batch_by_batch(config: Config, first: int)
    requires
        config.usable(),
        0 <= first < config.test_n,
    ensures
        ({
            let left = config.test_n - first;
            let n = if full_batch(config) <= left {
                full_batch(config)
            } else {
                left
            };
            let steps = config.evaluation(first);
            &&& steps.len() >= 9
            &&& steps.take(7) == forward_pass(Digits::Test, first, n)
            &&& steps[7] == (Step::Read { len: 720 })
            &&& steps[8] == (Step::ReportEvalProbs { first: first as u32, n: n as u32 })
            &&& steps.skip(9) == config.evaluation(first + n)
            &&& config.evaluation(config.test_n as int).len() == 0
        }),
{
    let left = config.test_n - first;
    let n = if full_batch(config) <= left {
        full_batch(config)
    } else {
        left
    };
    let steps = config.evaluation(first);
    assert(steps.take(7) =~= forward_pass(Digits::Test, first, n));
    assert(steps.skip(9) =~= config.evaluation(first + n));
}

/// A run starts by drawing the weights, reporting them, uploading the state and
/// creating the six pipelines; it ends by reporting the weights once more and
/// releasing the pipelines, in the same order, and the buffer.
pub proof fn law_setup_and_teardown(kernel: Kernel)
    ensures
        setup().len() == 9,
        setup()[0] == Step::Initialize,
        setup()[1] == (Step::ReportWeights { tag: 0 }),
        setup()[2] == Step::Upload,
        setup()[3 + kernel.spec_index()] == (Step::CreatePipeline { kernel }),
        teardown().len() == 9,
        teardown()[0] == (Step::Read { len: 12_458 }),
        teardown()[1] == (Step::ReportWeights { tag: 2 }),
        teardown()[2 + kernel.spec_index()] == (Step::ReleasePipeline { kernel }),
        teardown()[8] == Step::ReleaseBuffer,
        0 <= kernel.spec_index() < 6,
        kernel.spec_index() == 0 <==> kernel is ConvForward,
        kernel.spec_index() == 1 <==> kernel is PoolForward,
        kernel.spec_index() == 2 <==> kernel is FcForward,
        kernel.spec_index() == 3 <==> kernel is FcBackward,
        kernel.spec_index() == 4 <==> kernel is FcUpdate,
        kernel.spec_index() == 5 <==> kernel is ConvUpdate,
{
}

/// Training follows setup and ends before teardown.
pub proof fn law_run_order(config: Config)
    ensures
        config.schedule().len() == config.training(0).len() + 18,
        config.schedule().take(9) == setup(),
        config.schedule().subrange(9, config.schedule().len() - 9) == config.training(0),
        config.schedule().skip(config.schedule().len() - 9) == teardown(),
{
    let whole = config.schedule();
    let train = config.training(0);
    let (first, last) = (setup(), teardown());
    assert(first.len() == 9 && last.len() == 9);
    lemma_three_parts(first, train, last);
    assert(whole == first + (train + last));
}

/// Three sequences one after the other, taken apart again.
proof fn lemma_three_parts(a: Seq<Step>, b: Seq<Step>, c: Seq<Step>)
    ensures
        ({
            let whole = a + (b + c);
            let (n, m) = (a.len() as int, a.len() + b.len() as int);
            &&& whole.len() == a.len() + b.len() + c.len()
            &&& whole.take(n) == a
            &&& whole.subrange(n, m) == b
            &&& whole.skip(m) == c
        }),
{
    let whole = a + (b + c);
    let (n, m) = (a.len() as int, a.len() + b.len() as int);
    assert(whole.take(n) =~= a);
    assert(whole.subrange(n, m) =~= b);
    assert(whole.skip(m) =~= c);
}

/// Step follows step, up to the last one.
pub proof fn law_steps_follow_one_another(config: Config, step: int)
    requires
        0 <= step < config.steps,
    ensures
        ({
            let n = config.training_step(step).len() as int;
            &&& config.training(step).take(n) == config.training_step(step)
            &&& config.training(step).skip(n) == config.training(step + 1)
            &&& config.training(config.steps as int).len() == 0
        }),
{
    let (one, rest) = (config.training_step(step), config.training(step + 1));
    lemma_three_parts(one, rest, Seq::empty());
    assert(rest + Seq::<Step>::empty() =~= rest);
    assert(config.training(step) == one + rest);
    assert((one + rest).skip(one.len() as int) =~= rest);
}

/// A failed bridge call ends the run with the code of its stage; what makes no
/// call has none. Before the first stage there is one for the configuration of
/// twelve words.
pub proof fn law_exit_codes(step: Step, buffer: i32, pipelines: Seq<i32>)
    ensures
        step is Upload ==> exit_code(step) == Some(12i32),
        step is CreatePipeline ==> exit_code(step) == Some(13i32),
        step is Write ==> exit_code(step) == Some(14i32),
        step is Dispatch ==> exit_code(step) == Some(15i32),
        step is Read ==> exit_code(step) == Some(16i32),
        step is ReleasePipeline || step is ReleaseBuffer ==> exit_code(step) == Some(17i32),
        exit_code(step) is Some <==> call_of(step, buffer, pipelines) is Some,
        EXIT_CONFIG == 11,
        CONFIG_BYTES == 48,
{
}

/// The bridge counts bytes where the guest counts floats of four; writes and
/// reads are of the state buffer, and a dispatch or a release is of the pipeline
/// that was created for the kernel.
pub proof fn law_calls_count_bytes(step: Step, buffer: i32, pipelines: Seq<i32>)
    requires
        crate::trainer::admissible(step),
    ensures
        match (step, call_of(step, buffer, pipelines)) {
            (Step::Upload, Some(BridgeCall::BufferUpload { len })) => len == 3_494_824,
            (Step::CreatePipeline { kernel: k }, Some(BridgeCall::PipelineCreate { kernel })) => kernel
                == k,
            (
                Step::Write { at, len: n },
                Some(BridgeCall::BufferWrite { handle, offset, state_at, len }),
            ) => handle == buffer && offset == 4 * at && state_at == at && len == 4 * n,
            (
                Step::Dispatch { kernel, groups },
                Some(BridgeCall::PipelineDispatch { pipeline, buffer: b, x, y, z }),
            ) => pipeline == pipelines[kernel.spec_index()] && b == buffer && x == groups && y == 1
                && z == 1,
            (Step::Read { len: n }, Some(BridgeCall::BufferRead { handle, len })) => handle == buffer
                && len == 4 * n,
            (Step::ReleasePipeline { kernel }, Some(BridgeCall::PipelineRelease { handle })) => handle
                == pipelines[kernel.spec_index()],
            (Step::ReleaseBuffer, Some(BridgeCall::BufferRelease { handle })) => handle == buffer,
            (_, Some(_)) => false,
            (_, None) => !(step is Upload || step is CreatePipeline || step is Write
                || step is Dispatch || step is Read || step is ReleasePipeline
                || step is ReleaseBuffer),
        },
{
}

/// The configuration is twelve words in guest memory, each field at its place.
pub proof fn law_configuration_words(bytes: Seq<u8>)
    requires
        bytes.len() == 48,
    ensures
        ({
            let config = Config::from_words(le_words(bytes));
            &&& config.train_ptr == le_word(bytes, 0)
            &&& config.train_n == le_word(bytes, 4)
            &&& config.train_labels_ptr == le_word(bytes, 8)
            &&& config.test_ptr == le_word(bytes, 12)
            &&& config.test_n == le_word(bytes, 16)
            &&& config.test_labels_ptr == le_word(bytes, 20)
            &&& config.steps == le_word(bytes, 24)
            &&& config.batch == le_word(bytes, 28)
            &&& config.eval_every == le_word(bytes, 32)
            &&& config.learning_rate == le_word(bytes, 36)
            &&& config.seed == le_word(bytes, 40)
            &&& config.progress_every == le_word(bytes, 44)
        }),
{
}

/// A run needs at least one digit to train on, one to test with and one step.
pub proof fn law_usable_configurations(config: Config)
    ensures
        config.usable() <==> config.train_n > 0 && config.test_n > 0 && config.steps > 0,
{
}

// ---------------------------------------------------------------------------
// Random numbers
// ---------------------------------------------------------------------------

/// The generator mixes its state with itself times 2^13, with what that gives
/// divided by 2^17, and with what that gives times 2^5, all in 32 bits.
pub proof fn law_generator_shifts(x: u32, a: u32, b: u32)
    requires
        a == x ^ ((x as u64 * 8_192) % 0x1_0000_0000) as u32,
        b == a ^ (a / 131_072),
    ensures
        xorshift(x) == b ^ ((b as u64 * 32) % 0x1_0000_0000) as u32,
{
    assert(a == x ^ (x << 13)) by (bit_vector)
        requires
            a == x ^ ((x as u64 * 8_192) % 0x1_0000_0000) as u32,
    ;
    assert(a / 131_072 == a >> 17) by (bit_vector);
    assert(b ^ (b << 5) == b ^ ((b as u64 * 32) % 0x1_0000_0000) as u32) by (bit_vector);
}

/// Draws go on where the draws before them ended.
pub proof fn law_draws_go_on(state: u32, a: nat, b: nat)
    ensures
        drawn(state, 0) == state,
        drawn(state, 1) == xorshift(state),
        drawn(state, a + b) == drawn(drawn(state, a), b),
    decreases b,
{
    reveal_with_fuel(drawn, 2);
    if b > 0 {
        law_draws_go_on(state, a, (b - 1) as nat);
        assert(a + b - 1 == a + (b - 1));
    }
}

} // verus!
