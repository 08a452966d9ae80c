//! One run of the image filter guest: what goes into its memory, where its
//! result lies, what counts as a match, and the report.
use crate::abi::{transfer_len_ok, ERR_RANGE, SUCCESS};
use crate::device::{micros, to_micros, BridgeSnapshot, Timing};
use crate::encoding::{base64, base64_text, fnv1a64, fnv1a64_of, le_bytes, push_le_word};
use crate::image::{
    common_pixels, count_differing_pixels, differing, law_identity_changes_nothing,
    law_no_difference_means_equal, Filter, Image, ImageView,
};
use crate::image_cli::{Control, MAX_SIDE};
use crate::memory::{held, memory_size, read_bytes, write_bytes};
use crate::session::SessionLimits;
use crate::text::{
    bullets, decimal, hex16, hex_double_word, listed, optional_decimal, push_bullets, push_decimal,
    push_list, push_optional, push_truth, truth,
};
use vstd::prelude::*;
use vstd::string::*;

verus! {

/// Where the header of the image region stands in guest memory.
pub const IMAGE_BASE: u64 = 16_384;

/// Width, height, filter and parameter, one word each.
pub const HEADER_BYTES: usize = 16;

/// The guest's file name.
pub const GUEST: &'static str = "image_filter.wat";

/// The shader slot that makes the guest touch no GPU handle at all.
pub const NO_DISPATCH_FILTER: u32 = 255;

/// Where the input comes from.
#[derive(Clone, Copy, Debug, PartialEq, Eq, Structural)]
pub enum Source {
    Generated,
    File,
}

impl Source {
    /// The source's name as reports spell it.
    pub open spec fn spec_title(self) -> Seq<char> {
        match self {
            Source::Generated => "Generated"@,
            Source::File => "File"@,
        }
    }

    /// The source's name as reports spell it.
    pub fn title(self) -> (title: &'static str)
        ensures
            title@ == self.spec_title(),
    {
        match self {
            Source::Generated => "Generated",
            Source::File => "File",
        }
    }
}

/// A raw file of the wrong length.
#[derive(Clone, Copy, Debug, PartialEq, Eq, Structural)]
pub struct LengthError {
    pub len: usize,
    pub width: u32,
    pub height: u32,
}

impl LengthError {
    pub open spec fn spec_message(self) -> Seq<char> {
        "raw RGBA8 input is "@ + decimal(self.len as nat) + " bytes; "@ + decimal(self.width as nat)
            + "x"@ + decimal(self.height as nat) + " needs exactly "@ + decimal(
            (self.width * self.height * 4) as nat,
        )
    }

    pub fn message(&self) -> (text: String)
        ensures
            text@ == self.spec_message(),
    {
        let mut text = "raw RGBA8 input is ".to_owned();
        push_decimal(&mut text, self.len as u128);
        text.append(" bytes; ");
        push_decimal(&mut text, self.width as u128);
        text.append("x");
        push_decimal(&mut text, self.height as u128);
        text.append(" needs exactly ");
        assert(0 <= self.width * self.height <= 0xffff_ffff * 0xffff_ffff) by (nonlinear_arith)
            requires
                0 <= self.width <= 0xffff_ffff,
                0 <= self.height <= 0xffff_ffff,
        ;
        push_decimal(&mut text, self.width as u128 * self.height as u128 * 4);
        text
    }
}

/// The intermediate product of an image's size fits where the size does.
proof fn lemma_area(width: u32, height: u32)
    requires
        width * height * 4 <= u32::MAX,
    ensures
        0 <= width * height <= width * height * 4,
{
    assert(0 <= width * height) by (nonlinear_arith);
}

/// Takes the bytes of a raw RGBA8 file as an image of the given size.
pub fn load_raw_rgba(rgba: Vec<u8>, width: u32, height: u32) -> (image: Result<Image, LengthError>)
    requires
        width * height * 4 <= u32::MAX,
    ensures
        match image {
            Ok(image) => rgba@.len() == width * height * 4 && image@.wf() && image.width == width
                && image.height == height && image.rgba@ == rgba@,
            Err(error) => rgba@.len() != width * height * 4 && error == (LengthError {
                len: rgba@.len() as usize,
                width,
                height,
            }),
        },
{
    proof {
        lemma_area(width, height);
    }
    let expected: u32 = width * height * 4;
    if rgba.len() as u64 != expected as u64 {
        return Err(LengthError { len: rgba.len(), width, height });
    }
    Ok(Image { width, height, rgba })
}

/// The shader slot that the guest is asked for.
pub open spec fn asked_filter(control: Control, filter: Filter) -> u32 {
    match control {
        Control::Plain => filter.spec_id(),
        Control::WrongShader => Filter::Identity.spec_id(),
        Control::NoDispatch => NO_DISPATCH_FILTER,
    }
}

/// The shader slot that the guest is asked for.
pub fn guest_filter(control: Control, filter: Filter) -> (slot: u32)
    ensures
        slot == asked_filter(control, filter),
{
    match control {
        Control::Plain => filter.id(),
        Control::WrongShader => Filter::Identity.id(),
        Control::NoDispatch => NO_DISPATCH_FILTER,
    }
}

/// The budget of the image guest's session.
pub open spec fn image_limits() -> SessionLimits {
    SessionLimits { max_buffers: 2, max_bytes: 4_194_304, max_pipelines: 2 }
}

/// The budget of the image guest's session.
pub fn session_limits() -> (limits: SessionLimits)
    ensures
        limits == image_limits(),
{
    SessionLimits { max_buffers: 2, max_bytes: 4_194_304, max_pipelines: 2 }
}

/// The image region before the run: header, input, and as many zero bytes for
/// the output.
pub open spec fn region_of(input: ImageView, filter: u32, param: u32) -> Seq<u8> {
    le_bytes(seq![input.width as u32, input.height as u32, filter, param]) + input.rgba + Seq::new(
        input.rgba.len(),
        |i: int| 0u8,
    )
}

/// Lays out the image region as the guest expects it at [`IMAGE_BASE`].
pub fn guest_region(input: &Image, filter: u32, param: u32) -> (region: Vec<u8>)
    ensures
        region@ == region_of(input@, filter, param),
{
    let mut region: Vec<u8> = Vec::new();
    push_le_word(&mut region, input.width);
    push_le_word(&mut region, input.height);
    push_le_word(&mut region, filter);
    push_le_word(&mut region, param);
    let ghost header = le_bytes(seq![input.width, input.height, filter, param]);
    assert(region@ =~= header);
    let len: usize = input.rgba.len();
    let mut i: usize = 0;
    while i < len
        invariant
            len == input.rgba@.len(),
            i <= len,
            region@ == header + input.rgba@.take(i as int),
        decreases len - i,
    {
        region.push(input.rgba[i]);
        i = i + 1;
        assert(region@ =~= header + input.rgba@.take(i as int));
    }
    assert(input.rgba@.take(i as int) =~= input.rgba@);
    let mut i: usize = 0;
    assert(region@ =~= header + input.rgba@ + Seq::new(0, |i: int| 0u8));
    while i < len
        invariant
            len == input.rgba@.len(),
            i <= len,
            region@ == header + input.rgba@ + Seq::new(i as nat, |i: int| 0u8),
        decreases len - i,
    {
        region.push(0);
        i = i + 1;
        assert(region@ =~= header + input.rgba@ + Seq::new(i as nat, |i: int| 0u8));
    }
    region
}

/// Where the guest leaves an output of `pixel_bytes` bytes.
pub fn output_offset(pixel_bytes: usize) -> (offset: u64)
    requires
        HEADER_BYTES + pixel_bytes <= usize::MAX,
        IMAGE_BASE + HEADER_BYTES + pixel_bytes <= u64::MAX,
    ensures
        offset == IMAGE_BASE + HEADER_BYTES + pixel_bytes,
{
    IMAGE_BASE + (HEADER_BYTES + pixel_bytes) as u64
}

/// Writes the image region to guest memory.
pub fn write_region(view: &wasmer::MemoryView<'_>, input: &Image, filter: u32, param: u32) -> (written:
    Result<(), i32>)
    ensures
        written == (if IMAGE_BASE + HEADER_BYTES + 2 * input.rgba@.len() <= memory_size(*view) {
            Ok::<(), i32>(())
        } else {
            Err::<(), i32>(ERR_RANGE)
        }),
        written is Ok ==> held(*view, IMAGE_BASE, region_of(input@, filter, param)),
{
    let region = guest_region(input, filter, param);
    proof {
        law_output_follows_input(input@, filter, param);
    }
    write_bytes(view, IMAGE_BASE, region.as_slice())
}

/// Reads the output of an image of that size from guest memory. What it holds
/// is up to the guest.
pub fn read_output(view: &wasmer::MemoryView<'_>, input: &Image) -> (output: Result<Image, i32>)
    requires
        HEADER_BYTES + input.rgba@.len() <= usize::MAX,
        IMAGE_BASE + HEADER_BYTES + input.rgba@.len() <= u64::MAX,
    ensures
        match output {
            Ok(output) => IMAGE_BASE + HEADER_BYTES + 2 * input.rgba@.len() <= memory_size(*view)
                && output.width == input.width && output.height == input.height
                && output.rgba@.len() == input.rgba@.len() && held(
                *view,
                (IMAGE_BASE + HEADER_BYTES + input.rgba@.len()) as u64,
                output.rgba@,
            ),
            Err(code) => IMAGE_BASE + HEADER_BYTES + 2 * input.rgba@.len() > memory_size(*view)
                && code == ERR_RANGE,
        },
{
    let pixel_bytes: usize = input.rgba.len();
    match read_bytes(view, output_offset(pixel_bytes), pixel_bytes) {
        Ok(rgba) => Ok(Image { width: input.width, height: input.height, rgba }),
        Err(code) => Err(code),
    }
}

/// The output lies in the image region, right behind the input.
pub proof fn law_output_follows_input(input: ImageView, filter: u32, param: u32)
    ensures
        region_of(input, filter, param).len() == HEADER_BYTES + 2 * input.rgba.len(),
        region_of(input, filter, param).subrange(
            HEADER_BYTES as int,
            HEADER_BYTES + input.rgba.len(),
        ) == input.rgba,
        region_of(input, filter, param).skip(HEADER_BYTES + input.rgba.len()) == Seq::new(
            input.rgba.len(),
            |i: int| 0u8,
        ),
{
    let region = region_of(input, filter, param);
    assert(region.subrange(16, HEADER_BYTES + input.rgba.len()) =~= input.rgba);
    assert(region.skip(HEADER_BYTES + input.rgba.len()) =~= Seq::new(input.rgba.len(), |i: int| 0u8));
}

/// The image region of every size that the command line admits fits the
/// session's byte quota, in whole transfer units.
pub proof fn law_region_fits_the_quota(input: ImageView, filter: u32, param: u32)
    requires
        input.wf(),
        input.width <= MAX_SIDE,
        input.height <= MAX_SIDE,
    ensures
        region_of(input, filter, param).len() <= image_limits().max_bytes,
        transfer_len_ok(region_of(input, filter, param).len() as int),
{
    law_output_follows_input(input, filter, param);
    assert(0 <= input.width * input.height <= 512 * 512) by (nonlinear_arith)
        requires
            0 <= input.width <= 512,
            0 <= input.height <= 512,
    ;
}

/// What one run of the guest left behind.
#[derive(Debug)]
pub struct ImageRun {
    pub exit_code: Option<i32>,
    pub output: Image,
    pub timing: Timing,
    pub live_buffers_after: usize,
    pub live_pipelines_after: usize,
}

/// A run matches when the guest succeeded, no pixel differs from what was
/// expected, and nothing is left.
pub open spec fn image_matches(run: ImageRun, expected: Seq<u8>) -> bool {
    &&& run.exit_code == Some(SUCCESS)
    &&& differing(expected, run.output.rgba@, common_pixels(expected, run.output.rgba@)) == 0
    &&& run.live_buffers_after == 0
    &&& run.live_pipelines_after == 0
}

/// A run that matches left exactly the expected pixels.
pub proof fn law_matching_output_is_expected(run: ImageRun, expected: ImageView)
    requires
        expected.wf(),
        run.output@.wf(),
        run.output@.width == expected.width,
        run.output@.height == expected.height,
    ensures
        image_matches(run, expected.rgba) <==> {
            &&& run.exit_code == Some(SUCCESS)
            &&& run.output@ == expected
            &&& run.live_buffers_after == 0
            &&& run.live_pipelines_after == 0
        },
{
    let a = expected.rgba;
    let b = run.output.rgba@;
    let n = common_pixels(a, b);
    law_no_difference_means_equal(a, b, n);
    assert(a.subrange(0, 4 * n as int) =~= a);
    assert(b.subrange(0, 4 * n as int) =~= b);
    assert(a == b ==> run.output@ =~= expected);
}

/// Neither control can pass: an output that is still the input, or still all
/// zeros, is a mismatch wherever the filter makes anything else of the input.
pub proof fn law_controls_are_mismatches(run: ImageRun, input: ImageView, filter: Filter, param: u32)
    requires
        input.wf(),
        run.output@.wf(),
        run.output@.width == input.width,
        run.output@.height == input.height,
        run.output@ == input.filter_image(Filter::Identity, param) || run.output.rgba@ == Seq::new(
            input.rgba.len(),
            |i: int| 0u8,
        ),
        run.output@ != input.filter_image(filter, param),
    ensures
        !image_matches(run, input.filter_image(filter, param).rgba),
        run.output@ == input.filter_image(Filter::Identity, param) ==> differing(
            input.rgba,
            run.output.rgba@,
            common_pixels(input.rgba, run.output.rgba@),
        ) == 0,
{
    law_identity_changes_nothing(input, param);
    law_matching_output_is_expected(run, input.filter_image(filter, param));
    let n = common_pixels(input.rgba, run.output.rgba@);
    law_no_difference_means_equal(input.rgba, run.output.rgba@, n);
}

/// What the image run shows.
pub const SUBJECT: &'static str = "WASIX guest -> wasmer_gpu_v0 -> wgpu hardware compute over an RGBA8 image, guest-supplied WGSL";

pub const WASMER_PIN: &'static str = "github.com/wasmerio/wasmer@6a844cff9bd2eb391ab91b7e41fee94260f0ec46";

pub const LIMITATION_BUFFER: &'static str = "One read_write storage buffer carries header, input and output; kernels are integer-only so the CPU reference is exact, not approximate.";

pub const LIMITATION_TIMING: &'static str = "Timings are host wall-clock around each bridge call on a small image; they are not a speedup claim.";

pub const LIMITATION_INPUT: &'static str = "Input is a generated scene or a bounded local raw RGBA8 file (at most 512x512); no network input.";

pub const LIMITATION_TRUST: &'static str = "Guest WGSL is trusted demo input from the owned guest module; nothing here preempts a nonterminating kernel.";

#[derive(Debug)]
pub struct ImageReport {
    pub subject: &'static str,
    pub guest: &'static str,
    pub guest_bytes: usize,
    pub guest_fnv1a64: String,
    pub runtime: &'static str,
    pub wasmer_pin: &'static str,
    pub build_host_triple: String,
    pub adapter: String,
    pub backend: String,
    pub source: Source,
    pub width: u32,
    pub height: u32,
    pub pixels: usize,
    pub filter: Filter,
    pub param: u32,
    pub control: Control,
    pub exit_code: Option<i32>,
    pub setup_us: u128,
    pub upload_us: u128,
    pub pipeline_create_us: u128,
    pub dispatch_us: Vec<u128>,
    pub readback_us: u128,
    pub cpu_reference_us: u128,
    pub matches: bool,
    pub mismatched_pixels: usize,
    pub changed_pixels: usize,
    pub input_fnv1a64: String,
    pub output_fnv1a64: String,
    pub input_rgba_b64: String,
    pub output_rgba_b64: String,
    pub live_buffers_after: usize,
    pub live_pipelines_after: usize,
    pub resources_reclaimed: bool,
    pub limitations: Vec<&'static str>,
}

/// What was asked for and what surrounds the run.
#[derive(Debug)]
pub struct ImageJob {
    pub filter: Filter,
    pub param: u32,
    pub control: Control,
    pub source: Source,
    pub build_host_triple: String,
    pub setup_us: u128,
    pub cpu_reference_us: u128,
}

impl ImageReport {
    /// What the report says of the job and the guest.
    pub open spec fn describes(self, job: ImageJob, guest: Seq<u8>, snapshot: BridgeSnapshot) -> bool {
        &&& self.subject == SUBJECT
        &&& self.guest == GUEST
        &&& self.guest_bytes == guest.len()
        &&& self.guest_fnv1a64@ == hex_double_word(fnv1a64_of(guest))
        &&& self.runtime@ == "wasix"@
        &&& self.wasmer_pin == WASMER_PIN
        &&& self.build_host_triple@ == job.build_host_triple@
        &&& self.adapter@ == snapshot.adapter_name@
        &&& self.backend@ == snapshot.backend@
        &&& self.source == job.source
        &&& self.filter == job.filter
        &&& self.param == job.param
        &&& self.control == job.control
        &&& self.setup_us == job.setup_us
        &&& self.cpu_reference_us == job.cpu_reference_us
        &&& self.resources_reclaimed == (snapshot.live_buffers == 0 && snapshot.live_pipelines == 0)
        &&& self.limitations@ == seq![
            LIMITATION_BUFFER,
            LIMITATION_TIMING,
            LIMITATION_INPUT,
            LIMITATION_TRUST,
        ]
    }

    /// What the report says of the run.
    pub open spec fn judges(self, input: ImageView, expected: Seq<u8>, run: ImageRun) -> bool {
        let output = run.output.rgba@;
        &&& self.width == input.width
        &&& self.height == input.height
        &&& self.pixels == input.width * input.height
        &&& self.exit_code == run.exit_code
        &&& self.upload_us == run.timing.upload / 1000
        &&& self.pipeline_create_us == run.timing.pipeline_create / 1000
        &&& self.dispatch_us@ == micros(run.timing.dispatches@)
        &&& self.readback_us == run.timing.readback / 1000
        &&& self.matches == image_matches(run, expected)
        &&& self.mismatched_pixels == differing(expected, output, common_pixels(expected, output))
        &&& self.changed_pixels == differing(
            input.rgba,
            output,
            common_pixels(input.rgba, output),
        )
        &&& self.input_fnv1a64@ == hex_double_word(fnv1a64_of(input.rgba))
        &&& self.output_fnv1a64@ == hex_double_word(fnv1a64_of(output))
        &&& self.input_rgba_b64@ == base64_text(input.rgba)
        &&& self.output_rgba_b64@ == base64_text(output)
        &&& self.live_buffers_after == run.live_buffers_after
        &&& self.live_pipelines_after == run.live_pipelines_after
    }

    /// Sums up a run, given the image that the CPU reference makes of the input.
    pub fn new(
        job: ImageJob,
        guest: &[u8],
        input: &Image,
        expected: &Image,
        run: ImageRun,
        snapshot: BridgeSnapshot,
    ) -> (report: ImageReport)
        requires
            input.width * input.height <= u32::MAX,
            expected@ == input@.filter_image(job.filter, job.param),
        ensures
            report.describes(job, guest@, snapshot),
            report.judges(input@, input@.filter_image(job.filter, job.param).rgba, run),
    {
        let output: &[u8] = run.output.rgba.as_slice();
        let mismatched_pixels: usize = count_differing_pixels(expected.rgba.as_slice(), output);
        let changed_pixels: usize = count_differing_pixels(input.rgba.as_slice(), output);
        let succeeded = match run.exit_code {
            Some(code) => code == SUCCESS,
            None => false,
        };
        let matches = succeeded && mismatched_pixels == 0 && run.live_buffers_after == 0
            && run.live_pipelines_after == 0;
        let limitations: Vec<&'static str> = vec![
            LIMITATION_BUFFER,
            LIMITATION_TIMING,
            LIMITATION_INPUT,
            LIMITATION_TRUST,
        ];
        assert(limitations@ =~= seq![
            LIMITATION_BUFFER,
            LIMITATION_TIMING,
            LIMITATION_INPUT,
            LIMITATION_TRUST,
        ]);
        assert(0 <= input.width * input.height) by (nonlinear_arith);
        ImageReport {
            subject: SUBJECT,
            guest: GUEST,
            guest_bytes: guest.len(),
            guest_fnv1a64: hex16(fnv1a64(guest)),
            runtime: "wasix",
            wasmer_pin: WASMER_PIN,
            build_host_triple: job.build_host_triple,
            adapter: snapshot.adapter_name,
            backend: snapshot.backend,
            source: job.source,
            width: input.width,
            height: input.height,
            pixels: (input.width * input.height) as usize,
            filter: job.filter,
            param: job.param,
            control: job.control,
            exit_code: run.exit_code,
            setup_us: job.setup_us,
            upload_us: run.timing.upload / 1000,
            pipeline_create_us: run.timing.pipeline_create / 1000,
            dispatch_us: to_micros(&run.timing.dispatches),
            readback_us: run.timing.readback / 1000,
            cpu_reference_us: job.cpu_reference_us,
            matches,
            mismatched_pixels,
            changed_pixels,
            input_fnv1a64: hex16(fnv1a64(input.rgba.as_slice())),
            output_fnv1a64: hex16(fnv1a64(output)),
            input_rgba_b64: base64(input.rgba.as_slice()),
            output_rgba_b64: base64(output),
            live_buffers_after: run.live_buffers_after,
            live_pipelines_after: run.live_pipelines_after,
            resources_reclaimed: snapshot.live_buffers == 0 && snapshot.live_pipelines == 0,
            limitations,
        }
    }

    /// Whether the image check as a whole succeeded.
    pub fn passed(&self) -> (passed: bool)
        ensures
            passed == (self.matches && self.resources_reclaimed),
    {
        self.matches && self.resources_reclaimed
    }

    /// The report for a reader at a terminal.
    pub open spec fn spec_human_report(self) -> Seq<char> {
        bullets(
            "wasmer-gpu image workbench\n==========================\nsubject: "@ + self.subject@
                + "\nguest: "@ + self.guest@ + " ["@ + self.runtime@ + "] embedded "@ + decimal(
                self.guest_bytes as nat,
            ) + " bytes fnv1a64="@ + self.guest_fnv1a64@ + "\nadapter: "@ + self.adapter@ + " ("@
                + self.backend@ + ")\nimage: "@ + decimal(self.width as nat) + "x"@ + decimal(
                self.height as nat,
            ) + " "@ + self.source.spec_title() + ", filter="@ + self.filter.spec_title()
                + " param="@ + decimal(self.param as nat) + " control="@
                + self.control.spec_title() + "\nexit code: "@ + optional_decimal(self.exit_code)
                + "\nsetup="@ + decimal(self.setup_us as nat) + "us upload="@ + decimal(
                self.upload_us as nat,
            ) + "us pipeline_create="@ + decimal(self.pipeline_create_us as nat)
                + "us dispatch="@ + listed(self.dispatch_us@) + "us readback="@ + decimal(
                self.readback_us as nat,
            ) + "us cpu_ref="@ + decimal(self.cpu_reference_us as nat)
                + "us\nmatches CPU reference: "@ + truth(self.matches) + " (mismatched "@ + decimal(
                self.mismatched_pixels as nat,
            ) + ", changed "@ + decimal(self.changed_pixels as nat) + " of "@ + decimal(
                self.pixels as nat,
            ) + " pixels)\ninput fnv1a64="@ + self.input_fnv1a64@ + " output fnv1a64="@
                + self.output_fnv1a64@ + "\nresources reclaimed: "@ + truth(
                self.resources_reclaimed,
            ) + "\nlimitations:\n"@,
            self.limitations@,
        )
    }

    /// The report for a reader at a terminal.
    pub fn human_report(&self) -> (text: String)
        ensures
            text@ == self.spec_human_report(),
    {
        let mut text =
            "wasmer-gpu image workbench\n==========================\nsubject: ".to_owned();
        text.append(self.subject);
        text.append("\nguest: ");
        text.append(self.guest);
        text.append(" [");
        text.append(self.runtime);
        text.append("] embedded ");
        push_decimal(&mut text, self.guest_bytes as u128);
        text.append(" bytes fnv1a64=");
        text.append(self.guest_fnv1a64.as_str());
        text.append("\nadapter: ");
        text.append(self.adapter.as_str());
        text.append(" (");
        text.append(self.backend.as_str());
        text.append(")\nimage: ");
        push_decimal(&mut text, self.width as u128);
        text.append("x");
        push_decimal(&mut text, self.height as u128);
        text.append(" ");
        text.append(self.source.title());
        text.append(", filter=");
        text.append(self.filter.title());
        text.append(" param=");
        push_decimal(&mut text, self.param as u128);
        text.append(" control=");
        text.append(self.control.title());
        text.append("\nexit code: ");
        push_optional(&mut text, self.exit_code);
        text.append("\nsetup=");
        push_decimal(&mut text, self.setup_us);
        text.append("us upload=");
        push_decimal(&mut text, self.upload_us);
        text.append("us pipeline_create=");
        push_decimal(&mut text, self.pipeline_create_us);
        text.append("us dispatch=");
        push_list(&mut text, &self.dispatch_us);
        text.append("us readback=");
        push_decimal(&mut text, self.readback_us);
        text.append("us cpu_ref=");
        push_decimal(&mut text, self.cpu_reference_us);
        text.append("us\nmatches CPU reference: ");
        push_truth(&mut text, self.matches);
        text.append(" (mismatched ");
        push_decimal(&mut text, self.mismatched_pixels as u128);
        text.append(", changed ");
        push_decimal(&mut text, self.changed_pixels as u128);
        text.append(" of ");
        push_decimal(&mut text, self.pixels as u128);
        text.append(" pixels)\ninput fnv1a64=");
        text.append(self.input_fnv1a64.as_str());
        text.append(" output fnv1a64=");
        text.append(self.output_fnv1a64.as_str());
        text.append("\nresources reclaimed: ");
        push_truth(&mut text, self.resources_reclaimed);
        text.append("\nlimitations:\n");
        push_bullets(&mut text, &self.limitations);
        text
    }
}

} // verus!
