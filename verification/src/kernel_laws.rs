//! What the smoke kernels compute, and what counts as a pass.
use crate::device::BridgeSnapshot;
use crate::encoding::{base64_text, fnv1a64_of};
use crate::guest::GuestRun;
use crate::image::{common_pixels, ImageView};
use crate::image_laws::{law_differing_pixels_are_counted_once, pixels_apart};
use crate::image_run::{ImageJob, ImageReport, ImageRun};
use crate::kernels::{
    collatz_at, collatz_count, collatz_next, collatz_stops, law_collatz_count, lattice_hash_of,
    lowbias32_of, word_of, OVERFLOW,
};
use crate::smoke::{
    all_match, all_pass, control_line, control_passes, control_specs, controls_lines, kernel_lines,
    kernel_matches, kernel_specs, kernels_lines, ControlReport, ControlSpec, Kernel, KernelReport,
    KernelSpec, SmokeReport,
};
use crate::text::hex_double_word;
use vstd::arithmetic::div_mod::{lemma_add_mod_noop, lemma_mul_mod_noop_left};
use vstd::prelude::*;

verus! {

// ---------------------------------------------------------------------------
// Collatz
// ---------------------------------------------------------------------------

proof fn lemma_collatz_later(n: nat, k: nat)
    ensures
        collatz_at(n, k + 1) == collatz_at(collatz_next(n), k),
    decreases k,
{
    reveal_with_fuel(collatz_at, 2);
    if k > 0 {
        lemma_collatz_later(n, (k - 1) as nat);
    }
}

proof fn lemma_collatz_stops_later(n: nat, k: nat)
    requires
        n > 1,
    ensures
        collatz_stops(n, k + 1) <==> collatz_next(n) <= u32::MAX && collatz_stops(
            collatz_next(n),
            k,
        ),
        !collatz_stops(n, 0),
{
    let next = collatz_next(n);
    lemma_collatz_later(n, k);
    assert(collatz_at(n, 0) == n);
    if collatz_stops(n, k + 1) {
        assert(collatz_next(collatz_at(n, 0)) <= u32::MAX);
        assert forall|j: nat| j < k implies (#[trigger] collatz_at(next, j)) > 1 && collatz_next(
            collatz_at(next, j),
        ) <= u32::MAX by {
            lemma_collatz_later(n, j);
            assert(collatz_at(n, j + 1) > 1);
        }
    }
    if next <= u32::MAX && collatz_stops(next, k) {
        assert forall|j: nat| j < k + 1 implies (#[trigger] collatz_at(n, j)) > 1 && collatz_next(
            collatz_at(n, j),
        ) <= u32::MAX by {
            if j > 0 {
                lemma_collatz_later(n, (j - 1) as nat);
                assert(collatz_at(next, (j - 1) as nat) > 1);
            }
        }
    }
}

/// Zero and one take no step. From another number it is one step more than from
/// its half, if it is even, or from three times it and one, if it is odd; where
/// that leaves 32 bits, or goes on to leave them, the count says so.
pub proof fn law_collatz_counts_step_by_step(n: u32, next: u32)
    requires
        n > 1,
        n % 2 == 0 ==> next == n / 2,
        n % 2 == 1 ==> next == 3 * n + 1,
    ensures
        collatz_count(0) == 0,
        collatz_count(1) == 0,
        collatz_count(next) + 1 < 0xffff_ffff ==> collatz_count(n) == collatz_count(next) + 1,
        collatz_count(next) + 1 >= 0xffff_ffff ==> collatz_count(n) == 0xffff_ffff,
{
    assert(collatz_stops(0, 0u32 as nat));
    assert(collatz_stops(1, 0u32 as nat));
    law_collatz_count(0, 0);
    law_collatz_count(1, 0);
    assert(collatz_next(n as nat) == next as nat);
    let c = collatz_count(next);
    if c + 1 < OVERFLOW {
        law_collatz_count(next, c);
        lemma_collatz_stops_later(n as nat, c as nat);
        law_collatz_count(n, (c + 1) as u32);
    } else {
        let k = collatz_count(n);
        if k < OVERFLOW {
            law_collatz_count(n, k);
            if k == 0 {
                lemma_collatz_stops_later(n as nat, 0);
            } else {
                lemma_collatz_stops_later(n as nat, (k - 1) as nat);
                law_collatz_count(next, (k - 1) as u32);
            }
        }
    }
}

/// An odd number of which three times and one does not fit into 32 bits is
/// reported as leaving them.
pub proof fn law_collatz_leaves_32_bits(n: u32)
    requires
        n % 2 == 1,
        3 * n + 1 > 0xffff_ffff,
    ensures
        collatz_count(n) == 0xffff_ffff,
{
    let k = collatz_count(n);
    if k < OVERFLOW {
        law_collatz_count(n, k);
        if k == 0 {
            lemma_collatz_stops_later(n as nat, 0);
        } else {
            lemma_collatz_stops_later(n as nat, (k - 1) as nat);
        }
    }
}

// ---------------------------------------------------------------------------
// Hashes
// ---------------------------------------------------------------------------

/// The integer hash mixes the upper half in, multiplies, mixes the upper 17 bits
/// in, multiplies, and mixes the upper half in again, all in 32 bits.
pub proof fn law_integer_hash(x: u32, a: u32, b: u32, c: u32, d: u32)
    requires
        a == x ^ (x / 65_536),
        b == (a * 2_146_121_005) % 0x1_0000_0000,
        c == b ^ (b / 32_768),
        d == (c * 2_221_713_035) % 0x1_0000_0000,
    ensures
        lowbias32_of(x) == d ^ (d / 65_536),
{
    assert(x / 65_536 == x >> 16) by (bit_vector);
    assert(b / 32_768 == b >> 15) by (bit_vector);
    assert(d / 65_536 == d >> 16) by (bit_vector);
}

/// A lattice point is mixed into one word by three odd factors, modulo 2^32, and
/// the upper 24 bits of that word's hash are its value.
pub proof fn law_lattice_hash(x: i32, y: i32, seed: u32, mixed: u32)
    requires
        mixed == (x * 2_654_435_761 + y * 2_246_822_507 + seed * 3_266_489_909) % 0x1_0000_0000,
    ensures
        lattice_hash_of(x, y, seed) == lowbias32_of(mixed) / 256,
        lattice_hash_of(x, y, seed) < 0x100_0000,
{
    let m = 0x1_0000_0000int;
    let (wx, wy) = (word_of(x), word_of(y));
    assert(wx as int == x as int % m);
    assert(wy as int == y as int % m);
    let p = wx.wrapping_mul(0x9e37_79b1);
    let q = wy.wrapping_mul(0x85eb_ca6b);
    let r = seed.wrapping_mul(0xc2b2_ae35);
    lemma_mul_mod_noop_left(x as int, 2_654_435_761, m);
    lemma_mul_mod_noop_left(y as int, 2_246_822_507, m);
    assert(p as int == (x * 2_654_435_761) % m);
    assert(q as int == (y * 2_246_822_507) % m);
    assert(r as int == (seed * 3_266_489_909) % m);
    let s = p.wrapping_add(q);
    lemma_add_mod_noop(x * 2_654_435_761, y * 2_246_822_507, m);
    assert(s as int == (x * 2_654_435_761 + y * 2_246_822_507) % m);
    lemma_add_mod_noop(x * 2_654_435_761 + y * 2_246_822_507, seed * 3_266_489_909, m);
    assert(s.wrapping_add(r) == mixed);
    let h = lowbias32_of(mixed);
    assert(h >> 8 == h / 256 && h / 256 < 0x100_0000) by (bit_vector);
}

// ---------------------------------------------------------------------------
// The smoke run
// ---------------------------------------------------------------------------

/// A kernel works on every word by itself.
pub proof fn law_kernels_work_word_by_word(words: Seq<u32>, i: int)
    requires
        0 <= i < words.len(),
    ensures
        Kernel::Collatz.reference(words).len() == words.len(),
        Kernel::Lowbias32.reference(words).len() == words.len(),
        Kernel::Collatz.reference(words)[i] == collatz_count(words[i]),
        Kernel::Lowbias32.reference(words)[i] == lowbias32_of(words[i]),
{
}

/// Rounds go on where the rounds before them ended.
pub proof fn law_rounds_add_up(kernel: Kernel, words: Seq<u32>, a: nat, b: nat)
    ensures
        kernel.repeated(words, 0) == words,
        kernel.repeated(words, 1) == kernel.reference(words),
        kernel.repeated(words, a + b) == kernel.repeated(kernel.repeated(words, a), b),
    decreases b,
{
    assert(kernel.repeated(words, 1) == kernel.reference(kernel.repeated(words, 0)));
    if b > 0 {
        law_rounds_add_up(kernel, words, a, (b - 1) as nat);
        assert(a + b - 1 == a + (b - 1));
    }
}

/// The kernel guests and the control guests, with their inputs.
pub proof fn law_smoke_guests(spec: KernelSpec, control: ControlSpec)
    ensures
        kernel_specs().len() == 3,
        kernel_specs()[0].rounds == 1 && kernel_specs()[0].kernel is Collatz
            && kernel_specs()[0].runtime is Core,
        kernel_specs()[1].rounds == 8 && kernel_specs()[1].kernel is Lowbias32
            && kernel_specs()[1].runtime is Core,
        kernel_specs()[2].rounds == 1 && kernel_specs()[2].kernel is Collatz
            && kernel_specs()[2].runtime is Wasix,
        spec.kernel is Collatz ==> spec.spec_input() == seq![1u32, 2, 3, 4],
        spec.kernel is Lowbias32 ==> spec.spec_input() == seq![
            0u32,
            1,
            2,
            3,
            42,
            1_000,
            65_535,
            0xffff_ffff,
        ],
        control_specs().len() == 9,
        forall|i: int| 0 <= i < 9 ==> ((#[trigger] control_specs()[i]).expect_trap <==> i == 7),
        forall|i: int| 0 <= i < 9 ==> ((#[trigger] control_specs()[i]).with_input <==> i >= 2),
        forall|i: int| 0 <= i < 9 ==> ((#[trigger] control_specs()[i]).runtime is Wasix <==> i == 8),
        control.with_input ==> control.spec_input() == Some(seq![1u32, 2, 3, 4]),
        !control.with_input ==> control.spec_input() is None,
{
}

/// A kernel run matches exactly if the guest ended with zero, left the words
/// that the CPU computes, dispatched as often as it was to, and left nothing
/// live.
pub proof fn law_matching_kernel_runs(run: GuestRun, expected: Seq<u32>, rounds: usize)
    ensures
        run.output matches Some(output) ==> (kernel_matches(run, expected, rounds) <==> {
            &&& run.status == Some(0i32)
            &&& output@ == expected
            &&& run.timing.dispatches@.len() == rounds
            &&& run.live_buffers_after == 0
            &&& run.live_pipelines_after == 0
        }),
        run.output is None && expected.len() > 0 ==> !kernel_matches(run, expected, rounds),
{
}

/// A control passes exactly if nothing is left live and it trapped, if that is
/// what it was to do, or ended with zero.
pub proof fn law_passing_control_runs(run: GuestRun)
    ensures
        control_passes(run, true) <==> run.trapped && run.live_buffers_after == 0
            && run.live_pipelines_after == 0,
        control_passes(run, false) <==> run.status == Some(0i32) && run.live_buffers_after == 0
            && run.live_pipelines_after == 0,
{
}

/// A smoke run passes exactly if every kernel matched, every control passed and
/// nothing is live on the device; one that did not spoils the whole.
pub proof fn law_smoke_verdicts(
    report: SmokeReport,
    triple: Seq<char>,
    snapshot: BridgeSnapshot,
    setup_us: u128,
    kernels: Seq<KernelReport>,
    controls: Seq<ControlReport>,
    i: int,
)
    requires
        report.sums_up(triple, snapshot, setup_us, kernels, controls),
    ensures
        0 <= i < kernels.len() && !kernels[i].matches ==> !report.spec_passed(),
        0 <= i < controls.len() && !controls[i].passed ==> !report.spec_passed(),
        snapshot.live_buffers > 0 || snapshot.live_pipelines > 0 ==> !report.spec_passed(),
        snapshot.live_buffers == 0 && snapshot.live_pipelines == 0 && all_match(kernels)
            && all_pass(controls) ==> report.spec_passed(),
        (forall|j: int| 0 <= j < kernels.len() ==> (#[trigger] kernels[j]).matches) ==> all_match(
            kernels,
        ),
        (forall|j: int| 0 <= j < controls.len() ==> (#[trigger] controls[j]).passed) ==> all_pass(
            controls,
        ),
        report.kernels@ == kernels && report.controls@ == controls,
        report.setup_us == setup_us && report.build_host_triple@ == triple,
        report.adapter@ == snapshot.adapter_name@ && report.backend@ == snapshot.backend@,
{
}

/// The report has the lines of every guest, in order.
pub proof fn law_report_lines(
    head: Seq<char>,
    kernels: Seq<KernelReport>,
    kernel: KernelReport,
    controls: Seq<ControlReport>,
    control: ControlReport,
)
    ensures
        kernels_lines(head, Seq::empty()) == head,
        kernels_lines(head, kernels.push(kernel)) == kernel_lines(
            kernels_lines(head, kernels),
            kernel,
        ),
        controls_lines(head, Seq::empty()) == head,
        controls_lines(head, controls.push(control)) == control_line(
            controls_lines(head, controls),
            control,
        ),
{
    assert(kernels.push(kernel).drop_last() =~= kernels);
    assert(controls.push(control).drop_last() =~= controls);
}

/// An image run matches exactly if the guest ended with zero, no pixel differs
/// from what the CPU computes and nothing is left live; the report counts the
/// pixels that differ from that, and those that differ from the input.
pub proof fn law_image_verdicts(
    report: ImageReport,
    input: ImageView,
    expected: Seq<u8>,
    run: ImageRun,
)
    requires
        report.judges(input, expected, run),
    ensures
        ({
            let output = run.output.rgba@;
            let (n, m) = (common_pixels(expected, output), common_pixels(input.rgba, output));
            &&& report.mismatched_pixels == pixels_apart(expected, output, n).len()
            &&& report.changed_pixels == pixels_apart(input.rgba, output, m).len()
            &&& report.matches <==> run.exit_code == Some(0i32) && report.mismatched_pixels == 0
                && run.live_buffers_after == 0 && run.live_pipelines_after == 0
            &&& report.pixels == input.width * input.height
            &&& report.exit_code == run.exit_code
            &&& report.live_buffers_after == run.live_buffers_after
            &&& report.live_pipelines_after == run.live_pipelines_after
            &&& 1000 * report.upload_us <= run.timing.upload < 1000 * report.upload_us + 1000
            &&& 1000 * report.readback_us <= run.timing.readback < 1000 * report.readback_us + 1000
            &&& 1000 * report.pipeline_create_us <= run.timing.pipeline_create < 1000
                * report.pipeline_create_us + 1000
            &&& report.dispatch_us@.len() == run.timing.dispatches@.len()
            &&& report.input_fnv1a64@ == hex_double_word(fnv1a64_of(input.rgba))
            &&& report.output_fnv1a64@ == hex_double_word(fnv1a64_of(output))
            &&& report.input_rgba_b64@ == base64_text(input.rgba)
            &&& report.output_rgba_b64@ == base64_text(output)
        }),
{
    let output = run.output.rgba@;
    law_differing_pixels_are_counted_once(expected, output, common_pixels(expected, output));
    law_differing_pixels_are_counted_once(input.rgba, output, common_pixels(input.rgba, output));
}

/// An image report names the guest by its length and fingerprint, repeats what
/// was asked for, and finds everything reclaimed exactly if nothing is live.
pub proof fn law_image_descriptions(
    report: ImageReport,
    job: ImageJob,
    guest: Seq<u8>,
    snapshot: BridgeSnapshot,
)
    requires
        report.describes(job, guest, snapshot),
    ensures
        report.guest_bytes == guest.len(),
        report.guest_fnv1a64@ == hex_double_word(fnv1a64_of(guest)),
        report.resources_reclaimed <==> snapshot.live_buffers == 0 && snapshot.live_pipelines == 0,
        report.filter == job.filter && report.param == job.param,
        report.control == job.control && report.source == job.source,
        report.setup_us == job.setup_us && report.cpu_reference_us == job.cpu_reference_us,
        report.adapter@ == snapshot.adapter_name@ && report.backend@ == snapshot.backend@,
        report.build_host_triple@ == job.build_host_triple@,
{
}

} // verus!
