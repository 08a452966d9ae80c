//! The image runner over a small deterministic image. Expected fingerprints
//! (FNV-1a 64) were computed by an independent implementation of the same
//! integer kernels.
use wasmer::sys::{BaseTunables, NativeEngineExt};
use wasmer::{Engine, Memory, MemoryType, Pages, Store};
use wasmer_gpu_demo::device::{BridgeSnapshot, Timing};
use wasmer_gpu_demo::encoding::{base64, fnv1a64};
use wasmer_gpu_demo::image::{count_differing_pixels, cpu_reference, Filter, Image};
use wasmer_gpu_demo::image_cli::{parse_args, ArgError, Control, Options};
use wasmer_gpu_demo::image_run::{
    guest_filter, guest_region, load_raw_rgba, output_offset, read_output, session_limits,
    write_region, ImageJob, ImageReport, ImageRun, Source,
};
use wasmer_gpu_demo::memory::{read_bytes, write_bytes};
use wasmer_gpu_demo::text::hex16;

const WIDTH: u32 = 8;
const HEIGHT: u32 = 6;
const GUEST_TEXT: &str = "(module)";
const INPUT_FNV: &str = "cd6031a4ea8506b5";
const EXPECTED: [(&str, Option<&str>, &str, &str, &str); 5] = [
    // filter, explicit param, output fnv1a64, first two pixels, last two pixels
    ("blur", None, "385eb960b6a84741", "1a070eff320c16ff", "6f8926ff4d9e28ff"),
    ("blur", Some("2"), "b7381cca0f70089b", "12040aff2b0812ff", "658d21ff3ca526ff"),
    ("blur", Some("1"), "1991432d90a73411", "0c0306ff280610ff", "528f20ff2eab26ff"),
    ("edges", None, "c95789d363f847b5", "151515ff282828ff", "101010ff282828ff"),
    ("emboss", None, "f75ca4684b7d9a92", "9f9f9fffbdbdbdff", "7d7d7dffbdbdbdff"),
];

const VARIED_ALPHA_INPUT_FNV: &str = "6807866dd6a2995d";
const VARIED_ALPHA_EXPECTED: [(&str, Option<&str>, &str, &str, &str); 5] = [
    ("blur", None, "059bbb06fd8d1329", "1a070e07320c163c", "6f8926d64d9e280b"),
    ("blur", Some("2"), "6675238b619ba66f", "12040a072b08123c", "658d21d63ca5260b"),
    ("blur", Some("1"), "89e50f6b63885c05", "0c0306072806103c", "528f20d62eab260b"),
    ("edges", None, "c12099770ba7853d", "151515072828283c", "101010d62828280b"),
    ("emboss", None, "7b67d53089001bb2", "9f9f9f07bdbdbd3c", "7d7d7dd6bdbdbd0b"),
];

/// Same RGB pattern either way; `varied_alpha` gives every pixel its own
/// alpha so a kernel that drops or replaces alpha cannot match.
fn pattern(varied_alpha: bool) -> Vec<u8> {
    let mut rgba = Vec::new();
    for y in 0..HEIGHT {
        for x in 0..WIDTH {
            let alpha = if varied_alpha {
                ((x * 53 + y * 29 + 7) % 256) as u8
            } else {
                255
            };
            rgba.extend_from_slice(&[
                ((x * 37 + y * 11) % 256) as u8,
                ((x * x * 3 + y * 7) % 256) as u8,
                (((x ^ y) * 16) % 256) as u8,
                alpha,
            ]);
        }
    }
    rgba
}

fn owned(args: &[&str]) -> Vec<String> {
    args.iter().map(|arg| arg.to_string()).collect()
}

fn options(args: &[&str]) -> Options {
    let mut all = vec!["--input", "pattern.rgba", "--width", "8", "--height", "6", "--json"];
    all.extend(args);
    parse_args(&owned(&all)).expect("accepted arguments")
}

/// What the guest leaves in its output region, given the region it was handed.
fn run_guest(region: &[u8], param: u32) -> Vec<u8> {
    let word = |i: usize| {
        u32::from_le_bytes([region[i], region[i + 1], region[i + 2], region[i + 3]])
    };
    assert_eq!(word(12), param);
    let input = Image {
        width: word(0),
        height: word(4),
        rgba: region[16..16 + (word(0) * word(4) * 4) as usize].to_vec(),
    };
    let filter = match word(8) {
        0 => Filter::Blur,
        1 => Filter::Edges,
        2 => Filter::Emboss,
        3 => Filter::Identity,
        _ => return region[16 + input.rgba.len()..].to_vec(),
    };
    cpu_reference(&input, filter, param).rgba
}

fn report_on(varied_alpha: bool, args: &[&str]) -> ImageReport {
    let options = options(args);
    let input = load_raw_rgba(pattern(varied_alpha), options.width, options.height)
        .expect("a raw image of the right length");
    let expected = cpu_reference(&input, options.filter, options.param);
    let slot = guest_filter(options.control, options.filter);
    let region = guest_region(&input, slot, options.param);
    let rgba = run_guest(&region, options.param);
    let dispatches = if slot == 255 { vec![] } else { vec![1_500] };
    let run = ImageRun {
        exit_code: Some(0),
        output: Image { width: options.width, height: options.height, rgba },
        timing: Timing { upload: 2_999, pipeline_create: 3_000, dispatches, readback: 4_001 },
        live_buffers_after: 0,
        live_pipelines_after: 0,
    };
    let job = ImageJob {
        filter: options.filter,
        param: options.param,
        control: options.control,
        source: Source::File,
        build_host_triple: "host".to_string(),
        setup_us: 7,
        cpu_reference_us: 8,
    };
    let snapshot = BridgeSnapshot {
        adapter_name: "adapter".to_string(),
        backend: "Vulkan".to_string(),
        live_buffers: 0,
        live_pipelines: 0,
    };
    ImageReport::new(job, GUEST_TEXT.as_bytes(), &input, &expected, run, snapshot)
}

fn report(args: &[&str]) -> ImageReport {
    report_on(false, args)
}

fn decode_base64(text: &str) -> Vec<u8> {
    const TABLE: &[u8; 64] = b"ABCDEFGHIJKLMNOPQRSTUVWXYZabcdefghijklmnopqrstuvwxyz0123456789+/";
    let mut out = Vec::new();
    let mut acc = 0u32;
    let mut bits = 0;
    for byte in text.bytes().filter(|&b| b != b'=') {
        let value = TABLE.iter().position(|&t| t == byte).expect("base64 alphabet") as u32;
        acc = (acc << 6) | value;
        bits += 6;
        if bits >= 8 {
            bits -= 8;
            out.push(((acc >> bits) & 0xff) as u8);
        }
    }
    out
}

fn hex(bytes: &[u8]) -> String {
    bytes.iter().map(|b| format!("{b:02x}")).collect()
}

#[test]
fn every_filter_matches_the_independent_reference() {
    for (filter, param, fnv, head, tail) in EXPECTED {
        let mut args = vec!["--filter", filter];
        if let Some(param) = param {
            args.extend(["--param", param]);
        }
        let report = report(&args);
        assert!(report.passed(), "{filter} did not pass");
        assert!(report.matches, "{filter}");
        assert_eq!(report.mismatched_pixels, 0);
        assert_eq!(report.changed_pixels, 48, "{filter} must change every pixel");
        assert_eq!(report.input_fnv1a64, INPUT_FNV);
        assert_eq!(report.output_fnv1a64, fnv, "{filter} output fingerprint");
        assert_eq!(report.runtime, "wasix");
        assert_eq!(report.source, Source::File);
        assert_eq!(report.guest, "image_filter.wat");
        assert_eq!(report.guest_fnv1a64, hex16(fnv1a64(GUEST_TEXT.as_bytes())));
        assert!(report.resources_reclaimed);
        assert_eq!(report.dispatch_us.len(), 1);
        assert!(!report.adapter.is_empty());
        let output = decode_base64(&report.output_rgba_b64);
        assert_eq!(output.len(), 8 * 6 * 4);
        assert_eq!(hex(&output[..8]), head, "{filter} first pixels");
        assert_eq!(hex(&output[output.len() - 8..]), tail, "{filter} last pixels");
        assert_eq!(decode_base64(&report.input_rgba_b64), pattern(false));
    }
}

#[test]
fn every_filter_carries_source_alpha_through() {
    for (filter, param, fnv, head, tail) in VARIED_ALPHA_EXPECTED {
        let mut args = vec!["--filter", filter];
        if let Some(param) = param {
            args.extend(["--param", param]);
        }
        let report = report_on(true, &args);
        assert!(report.passed(), "{filter} did not pass");
        assert!(report.matches, "{filter}");
        assert_eq!(report.input_fnv1a64, VARIED_ALPHA_INPUT_FNV);
        assert_eq!(report.output_fnv1a64, fnv, "{filter} varied-alpha fingerprint");
        let output = decode_base64(&report.output_rgba_b64);
        assert_eq!(hex(&output[..8]), head, "{filter} first pixels");
        assert_eq!(hex(&output[output.len() - 8..]), tail, "{filter} last pixels");
        let input = pattern(true);
        for (i, chunk) in output.chunks_exact(4).enumerate() {
            assert_eq!(chunk[3], input[i * 4 + 3], "{filter} alpha at pixel {i}");
        }
    }
}

#[test]
fn wrong_shader_control_is_reported_as_a_mismatch() {
    let report = report(&["--filter", "blur", "--control", "wrong-shader"]);
    assert!(!report.passed(), "the identity kernel must not pass as blur");
    assert!(!report.matches);
    assert_eq!(report.exit_code, Some(0), "the guest itself ran cleanly");
    assert_eq!(report.changed_pixels, 0, "identity leaves the input intact");
    assert!(report.mismatched_pixels > 0);
    assert!(report.resources_reclaimed);
}

#[test]
fn no_dispatch_control_is_reported_as_a_mismatch() {
    let report = report(&["--filter", "edges", "--control", "no-dispatch"]);
    assert!(!report.passed());
    assert!(!report.matches);
    assert_eq!(report.dispatch_us.len(), 0);
    assert!(report.mismatched_pixels > 0);
    let output = decode_base64(&report.output_rgba_b64);
    assert!(output.iter().all(|&b| b == 0), "untouched output region stays zero");
}

#[test]
fn blur_radius_past_five_is_refused_before_any_gpu_work() {
    let refused = parse_args(&owned(&["--filter", "blur", "--param", "6", "--json"]));
    let message = refused.expect_err("radius six is refused").message();
    assert!(message.contains("1..=5"));
    assert_eq!(message, "--param for Blur must be within 1..=5");
}

#[test]
fn oversized_dimensions_are_refused_before_any_gpu_work() {
    let refused = parse_args(&owned(&["--width", "513", "--height", "8", "--json"]));
    let message = refused.expect_err("a side of 513 is refused").message();
    assert!(message.contains("1..=512"));
    assert_eq!(message, "width and height must be within 1..=512");
}

#[test]
fn an_empty_image_command_line_asks_for_the_defaults() {
    let options = parse_args(&vec![]).expect("defaults");
    assert_eq!(options.filter, Filter::Blur);
    assert_eq!(options.param, 4);
    assert_eq!(options.control, Control::Plain);
    assert_eq!(options.input, None);
    assert_eq!((options.width, options.height), (512, 384));
    assert!(!options.json);
}

#[test]
fn the_last_image_flag_wins_and_the_default_follows_the_filter() {
    let args = owned(&["--filter", "blur", "--filter", "emboss", "--input", "a", "--input", "b"]);
    let options = parse_args(&args).expect("accepted");
    assert_eq!(options.filter, Filter::Emboss);
    assert_eq!(options.param, 1);
    assert_eq!(options.input.as_deref(), Some("b"));
}

#[test]
fn every_image_argument_error_has_its_message() {
    let message = |args: &[&str]| parse_args(&owned(args)).expect_err("refused").message();
    assert_eq!(message(&["--param"]), "--param needs a value");
    assert_eq!(
        message(&["--filter", "a\"b"]),
        "unknown filter \"a\\\"b\"; expected blur, edges, emboss or identity"
    );
    assert_eq!(
        message(&["--control", "x"]),
        "unknown control \"x\"; expected none, wrong-shader or no-dispatch"
    );
    assert_eq!(message(&["pic.png"]), "unknown argument \"pic.png\"");
    assert_eq!(message(&["--param", ""]), "--param: cannot parse integer from empty string");
    assert_eq!(message(&["--width", "1_0"]), "--width: invalid digit found in string");
    assert_eq!(
        message(&["--height", "4294967296"]),
        "--height: number too large to fit in target type"
    );
    assert_eq!(message(&["--height", "0"]), "width and height must be within 1..=512");
    assert_eq!(
        message(&["--filter", "edges", "--param", "17"]),
        "--param for Edges must be within 1..=16"
    );
    assert_eq!(
        message(&["--filter", "identity", "--param", "0"]),
        "--param for Identity must be within 1..=1"
    );
    // The first argument that cannot be understood is the one reported.
    assert!(matches!(
        parse_args(&owned(&["--bogus", "--filter", "nope"])),
        Err(ArgError::UnknownArgument { .. })
    ));
}

#[test]
fn filters_and_controls_are_found_by_name() {
    for (name, filter, id, default, max) in [
        ("blur", Filter::Blur, 0, 4, 5),
        ("edges", Filter::Edges, 1, 2, 16),
        ("emboss", Filter::Emboss, 2, 1, 16),
        ("identity", Filter::Identity, 3, 1, 1),
    ] {
        assert_eq!(Filter::parse(name).expect("known"), filter);
        assert_eq!(filter.id(), id);
        assert_eq!(filter.default_param(), default);
        assert_eq!(filter.max_param(), max);
    }
    assert_eq!(Filter::parse("Blur").expect_err("case matters").name, "Blur");
    assert_eq!(Control::parse("none").expect("known"), Control::Plain);
    assert_eq!(Control::parse("wrong-shader").expect("known"), Control::WrongShader);
    assert_eq!(Control::parse("no-dispatch").expect("known"), Control::NoDispatch);
    assert_eq!(Control::parse("").expect_err("unknown").name, "");
    assert_eq!(guest_filter(Control::Plain, Filter::Emboss), 2);
    assert_eq!(guest_filter(Control::WrongShader, Filter::Blur), 3);
    assert_eq!(guest_filter(Control::NoDispatch, Filter::Blur), 255);
}

#[test]
fn identity_changes_nothing() {
    let image = Image { width: WIDTH, height: HEIGHT, rgba: pattern(true) };
    assert_eq!(cpu_reference(&image, Filter::Identity, 1).rgba, pattern(true));
    assert_eq!(cpu_reference(&image, Filter::Identity, u32::MAX).rgba, pattern(true));
}

#[test]
fn flat_images_stay_flat_under_every_filter() {
    let rgba: Vec<u8> = [200u8, 3, 77, 9].repeat(20);
    let image = Image { width: 5, height: 4, rgba: rgba.clone() };
    for radius in 1..=5 {
        assert_eq!(cpu_reference(&image, Filter::Blur, radius).rgba, rgba);
    }
    assert_eq!(cpu_reference(&image, Filter::Edges, 16).rgba, [0u8, 0, 0, 9].repeat(20));
    assert_eq!(cpu_reference(&image, Filter::Emboss, 16).rgba, [128u8, 128, 128, 9].repeat(20));
}

#[test]
fn blur_weights_are_binomial_and_round_to_nearest() {
    // One white pixel in the middle of a black 3x3 image: 255 * 4 / 16 = 63.75.
    let mut rgba = [0u8, 0, 0, 255].repeat(9);
    rgba[16..19].copy_from_slice(&[255, 255, 255]);
    let image = Image { width: 3, height: 3, rgba };
    let out = cpu_reference(&image, Filter::Blur, 1).rgba;
    assert_eq!(out[16], 64);
    // 255 * 2 / 16 = 31.875 beside it and 255 / 16 = 15.9375 at the corners.
    assert_eq!(out[4], 32);
    assert_eq!(out[0], 16);
    // A radius beyond five is held at five, and zero or less at one.
    let at = |param| cpu_reference(&image, Filter::Blur, param).rgba;
    assert_eq!(at(9), at(5));
    assert_eq!(at(0), at(1));
    assert_eq!(at(u32::MAX), at(1));
}

#[test]
fn a_blur_stays_within_the_range_of_each_channel() {
    let input = Image { width: WIDTH, height: HEIGHT, rgba: pattern(true) };
    for radius in 1..=5 {
        let output = cpu_reference(&input, Filter::Blur, radius);
        for k in 0..3 {
            let channel = |image: &Image| -> Vec<u8> {
                image.rgba.iter().copied().skip(k).step_by(4).collect()
            };
            let (before, after) = (channel(&input), channel(&output));
            assert!(after.iter().min() >= before.iter().min());
            assert!(after.iter().max() <= before.iter().max());
        }
    }
}

#[test]
fn relief_is_divided_towards_zero_and_clamped() {
    // A step from black to white: to its right the relief is positive, and a
    // mirrored step gives negative ones that are clamped at zero.
    let bright = [255u8, 255, 255, 1];
    let dark = [0u8, 0, 0, 1];
    let rising = Image { width: 2, height: 1, rgba: [dark, bright].concat() };
    let falling = Image { width: 2, height: 1, rgba: [bright, dark].concat() };
    assert_eq!(cpu_reference(&rising, Filter::Emboss, 1).rgba[0], 255);
    assert_eq!(cpu_reference(&falling, Filter::Emboss, 1).rgba[0], 0);
    // Luminance 1 against 0 gives a relief of -3 beside it: 128 - 1, not - 2.
    let faint = Image { width: 2, height: 1, rgba: vec![2, 2, 2, 1, 1, 1, 1, 1] };
    assert_eq!(cpu_reference(&faint, Filter::Emboss, 1).rgba[0], 127);
}

#[test]
fn only_whole_pixels_that_both_sides_have_are_counted() {
    assert_eq!(count_differing_pixels(&[], &[1, 2, 3, 4]), 0);
    assert_eq!(count_differing_pixels(&[1, 2, 3, 4, 5], &[1, 2, 3, 4, 6]), 0);
    assert_eq!(count_differing_pixels(&[1, 2, 3, 4, 5, 6, 7, 8], &[1, 2, 3, 5]), 1);
    assert_eq!(
        count_differing_pixels(&[0, 0, 0, 0, 1, 1, 1, 1], &[0, 0, 0, 1, 1, 1, 1, 1]),
        1
    );
}

#[test]
fn a_raw_file_has_to_have_the_exact_length() {
    let error = load_raw_rgba(vec![0; 191], 8, 6).expect_err("one byte short");
    assert_eq!(error.message(), "raw RGBA8 input is 191 bytes; 8x6 needs exactly 192");
    assert!(load_raw_rgba(vec![0; 192], 8, 6).is_ok());
}

/// Five by four pixels without any symmetry.
fn uneven_image() -> Image {
    let rgba = (0..80u32).map(|i| (i * i * 37 + i * 11) as u8).collect();
    Image { width: 5, height: 4, rgba }
}

/// The pixels of the image, taken in the order of `indices`.
fn rearranged(image: &Image, indices: impl Iterator<Item = usize>) -> Image {
    let rgba = indices.flat_map(|i| image.rgba[4 * i..4 * i + 4].to_vec()).collect();
    Image { width: image.width, height: image.height, rgba }
}

fn mirrored(image: &Image) -> Image {
    let w = image.width as usize;
    rearranged(image, (0..w * image.height as usize).map(|i| i / w * w + (w - 1 - i % w)))
}

#[test]
fn mirroring_commutes_with_the_even_handed_filters() {
    let image = uneven_image();
    for (filter, param) in
        [(Filter::Blur, 1), (Filter::Blur, 5), (Filter::Edges, 2), (Filter::Identity, 1)]
    {
        let one = cpu_reference(&mirrored(&image), filter, param);
        let other = mirrored(&cpu_reference(&image, filter, param));
        assert_eq!(one.rgba, other.rgba);
        assert_ne!(mirrored(&image).rgba, image.rgba);
    }
    let one = cpu_reference(&mirrored(&image), Filter::Emboss, 1);
    let other = mirrored(&cpu_reference(&image, Filter::Emboss, 1));
    assert_ne!(one.rgba, other.rgba);
}

#[test]
fn turning_an_image_turns_its_relief_over() {
    let image = uneven_image();
    let turned = rearranged(&image, (0..20).rev());
    let mut inner = 0;
    for param in [1, 2, 16] {
        let a = cpu_reference(&image, Filter::Emboss, param).rgba;
        let b = cpu_reference(&turned, Filter::Emboss, param).rgba;
        for i in 0..20 {
            for c in 0..3 {
                match (a[4 * i + c] as u32, b[4 * (19 - i) + c] as u32) {
                    (0, there) => assert_eq!(there, 255),
                    (255, there) => assert!(there <= 1),
                    (here, there) => {
                        assert_eq!(here + there, 256);
                        inner += 1;
                    }
                }
            }
        }
    }
    assert!(inner > 0);
}

#[test]
fn the_guest_region_holds_header_input_and_zeros() {
    let image = Image { width: 1, height: 2, rgba: vec![1, 2, 3, 4, 5, 6, 7, 8] };
    let region = guest_region(&image, 3, 0x0102_0304);
    let expected: Vec<u8> = vec![
        1, 0, 0, 0, 2, 0, 0, 0, 3, 0, 0, 0, 4, 3, 2, 1, 1, 2, 3, 4, 5, 6, 7, 8, 0, 0, 0, 0, 0, 0,
        0, 0,
    ];
    assert_eq!(region, expected);
    assert_eq!(output_offset(8), 16_384 + 16 + 8);
    assert!(16 + 2 * 512 * 512 * 4 <= session_limits().max_bytes);
}

/// A store whose memories take no more address space than they need.
fn small_store() -> Store {
    let mut engine = Engine::default();
    engine.set_tunables(BaseTunables {
        static_memory_bound: Pages(0),
        static_memory_offset_guard_size: 0,
        dynamic_memory_offset_guard_size: 65_536,
    });
    Store::new(engine)
}

#[test]
fn the_region_and_the_output_lie_in_guest_memory() {
    let mut store = small_store();
    let memory = Memory::new(&mut store, MemoryType::new(1, None, false)).expect("a memory");
    let view = memory.view(&store);
    let image = Image { width: 1, height: 2, rgba: vec![1, 2, 3, 4, 5, 6, 7, 8] };
    assert_eq!(write_region(&view, &image, 3, 9), Ok(()));
    assert_eq!(read_bytes(&view, 16_384, 32), Ok(guest_region(&image, 3, 9)));
    assert_eq!(write_bytes(&view, output_offset(8), &[8, 7, 6, 5, 4, 3, 2, 1]), Ok(()));
    let output = read_output(&view, &image).expect("in memory");
    assert_eq!((output.width, output.height), (1, 2));
    assert_eq!(output.rgba, [8, 7, 6, 5, 4, 3, 2, 1]);
    let large = Image { width: 96, height: 64, rgba: vec![0; 24_576] };
    assert_eq!(write_region(&view, &large, 0, 0), Err(-1));
    assert!(matches!(read_output(&view, &large), Err(-1)));
}

#[test]
fn the_image_report_reads_as_it_should() {
    let report = report(&["--filter", "edges"]);
    assert_eq!(report.pixels, 48);
    assert_eq!(report.upload_us, 2);
    assert_eq!(report.readback_us, 4);
    assert_eq!(report.output_rgba_b64.len(), base64(&[0; 192]).len());
    let text = report.human_report();
    let lines: Vec<&str> = text.lines().collect();
    assert_eq!(lines[0], "wasmer-gpu image workbench");
    assert_eq!(lines[1], "==========================");
    assert_eq!(
        lines[3],
        format!(
            "guest: image_filter.wat [wasix] embedded 8 bytes fnv1a64={:016x}",
            fnv1a64(b"(module)")
        )
    );
    assert_eq!(lines[4], "adapter: adapter (Vulkan)");
    assert_eq!(lines[5], "image: 8x6 File, filter=Edges param=2 control=None");
    assert_eq!(lines[6], "exit code: Some(0)");
    assert_eq!(
        lines[7],
        "setup=7us upload=2us pipeline_create=3us dispatch=[1]us readback=4us cpu_ref=8us"
    );
    assert_eq!(
        lines[8],
        "matches CPU reference: true (mismatched 0, changed 48 of 48 pixels)"
    );
    assert_eq!(lines[9], "input fnv1a64=cd6031a4ea8506b5 output fnv1a64=c95789d363f847b5");
    assert_eq!(lines[10], "resources reclaimed: true");
    assert_eq!(lines[11], "limitations:");
    assert_eq!(lines.len(), 16);
    assert!(lines[12].starts_with("  - One read_write storage buffer"));
    assert!(text.ends_with("nonterminating kernel.\n"));
}

#[test]
fn leftover_resources_or_a_failing_guest_are_no_match() {
    let input = Image { width: 1, height: 1, rgba: vec![1, 2, 3, 4] };
    let judge = |exit_code: Option<i32>, live_buffers_after: usize| {
        let run = ImageRun {
            exit_code,
            output: Image { width: 1, height: 1, rgba: vec![1, 2, 3, 4] },
            timing: Timing::default(),
            live_buffers_after,
            live_pipelines_after: 0,
        };
        let job = ImageJob {
            filter: Filter::Identity,
            param: 1,
            control: Control::Plain,
            source: Source::Generated,
            build_host_triple: String::new(),
            setup_us: 0,
            cpu_reference_us: 0,
        };
        let snapshot = BridgeSnapshot {
            adapter_name: String::new(),
            backend: String::new(),
            live_buffers: live_buffers_after,
            live_pipelines: 0,
        };
        ImageReport::new(job, b"", &input, &input, run, snapshot)
    };
    assert!(judge(Some(0), 0).passed());
    assert!(!judge(Some(1), 0).matches);
    assert!(!judge(None, 0).matches);
    let leaking = judge(Some(0), 1);
    assert!(!leaking.matches && !leaking.resources_reclaimed && !leaking.passed());
}
