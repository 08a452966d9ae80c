//! What errors tell a reader: each says what went wrong, and of what.
use crate::args::NumberError;
use crate::device::AdapterError;
use crate::guest::{CompileError, GuestRuntime};
use crate::hook::HookError;
use crate::image::Filter;
use crate::image_cli::{self, Control};
use crate::image_run::{LengthError, Source};
use crate::mnist_cli;
use crate::mnist_data::IdxError;
use crate::mnist_host::RunError;
use crate::text::{debug_text, decimal, signed_decimal};
use vstd::prelude::*;

verus! {

/// A refused file is named first, and what is wrong with it after that.
pub proof fn law_file_messages(path: Seq<char>)
    ensures
        IdxError::Truncated.spec_message(path) == path + " is truncated"@,
        IdxError::Header.spec_message(path) == path + " has an unexpected IDX header"@,
        IdxError::Length.spec_message(path) == path + " has an unexpected length"@,
        IdxError::HeaderOrLength.spec_message(path) == path
            + " has an unexpected IDX header or length"@,
        IdxError::Label.spec_message(path) == path + " contains a label outside 0..9"@,
{
}

/// A refused number is explained in the words of the standard library.
pub proof fn law_number_messages()
    ensures
        NumberError::Empty.spec_message() == "cannot parse integer from empty string"@,
        NumberError::InvalidDigit.spec_message() == "invalid digit found in string"@,
        NumberError::TooLarge.spec_message() == "number too large to fit in target type"@,
{
}

/// A run that cannot start, or did not end well, says at which point.
pub proof fn law_run_messages(status: i32, error: CompileError)
    ensures
        AdapterError::NoAdapter.spec_message() == "no hardware GPU adapter available"@,
        AdapterError::CpuAdapter.spec_message()
            == "wgpu selected a CPU adapter; refusing to present this as hardware GPU"@,
        HookError::MissingState.spec_message()
            == "missing wasmer-gpu instance state (imports were not prepared by this hook)"@,
        HookError::NoMemory.spec_message()
            == "wasmer-gpu guest has neither an imported nor an exported memory"@,
        RunError::Exit(status).spec_message() == "guest exited with status "@ + signed_decimal(
            status as int,
        ) + " (see guest/mnist/src/lib.rs EXIT_* for the failing stage)"@,
        RunError::MissingWeights.spec_message()
            == "guest did not report initial, first-update and final parameters"@,
        RunError::CheckFailed.spec_message() == "independent CPU check failed"@,
        error.embedded ==> error.spec_context() == "compile embedded WAT guest"@,
        !error.embedded ==> error.spec_context() == "compile WAT guest"@,
{
}

/// A raw file of the wrong length is told both lengths: the one it has, and four
/// bytes for each pixel.
pub proof fn law_length_messages(error: LengthError)
    ensures
        error.spec_message() == "raw RGBA8 input is "@ + decimal(error.len as nat) + " bytes; "@
            + decimal(error.width as nat) + "x"@ + decimal(error.height as nat)
            + " needs exactly "@ + decimal((4 * (error.width * error.height)) as nat),
{
}

/// What is wrong with an MNIST command line.
pub proof fn law_mnist_messages(text: Seq<char>, cause: NumberError)
    ensures
        (mnist_cli::ArgErrorView::MissingValue { flag: text }).message() == text
            + " needs a value"@,
        (mnist_cli::ArgErrorView::UnknownModel { name: text }).message()
            == "--model must be cnn or softmax, not "@ + text,
        (mnist_cli::ArgErrorView::UnknownFlag { name: text }).message() == "unknown flag "@ + text,
        (mnist_cli::ArgErrorView::BadNumber { cause }).message() == cause.spec_message(),
        (mnist_cli::ArgErrorView::BadFloat { empty: true }).message()
            == "cannot parse float from empty string"@,
        (mnist_cli::ArgErrorView::BadFloat { empty: false }).message() == "invalid float literal"@,
        mnist_cli::ArgErrorView::BadBatch.message()
            == "--batch must be 1..=64 (guest staging size)"@,
        mnist_cli::ArgErrorView::BadSteps.message() == "--steps must be 1..=100000"@,
        mnist_cli::ArgErrorView::BadLearningRate.message()
            == "--lr must be finite and non-negative"@,
{
}

/// What is wrong with an image command line.
pub proof fn law_image_messages(text: Seq<char>, cause: NumberError, filter: Filter)
    ensures
        (image_cli::ArgErrorView::MissingValue { flag: text }).message() == text
            + " needs a value"@,
        (image_cli::ArgErrorView::UnknownFilter { name: text }).message() == "unknown filter "@
            + debug_text(text) + "; expected blur, edges, emboss or identity"@,
        (image_cli::ArgErrorView::UnknownControl { name: text }).message() == "unknown control "@
            + debug_text(text) + "; expected none, wrong-shader or no-dispatch"@,
        (image_cli::ArgErrorView::UnknownArgument { name: text }).message() == "unknown argument "@
            + debug_text(text),
        (image_cli::ArgErrorView::BadNumber { flag: text, cause }).message() == text + ": "@
            + cause.spec_message(),
        image_cli::ArgErrorView::BadSize.message() == "width and height must be within 1..="@
            + decimal(512),
        (image_cli::ArgErrorView::BadParam { filter }).message() == "--param for "@
            + filter.spec_title() + " must be within 1..="@ + decimal(
            filter.spec_max_param() as nat,
        ),
{
}

/// How reports spell the things they name.
pub proof fn law_titles()
    ensures
        Filter::Blur.spec_title() == "Blur"@,
        Filter::Edges.spec_title() == "Edges"@,
        Filter::Emboss.spec_title() == "Emboss"@,
        Filter::Identity.spec_title() == "Identity"@,
        Control::Plain.spec_title() == "None"@,
        Control::WrongShader.spec_title() == "WrongShader"@,
        Control::NoDispatch.spec_title() == "NoDispatch"@,
        Control::Plain.spec_name() == "none"@,
        Control::WrongShader.spec_name() == "wrong-shader"@,
        Control::NoDispatch.spec_name() == "no-dispatch"@,
        Source::Generated.spec_title() == "Generated"@,
        Source::File.spec_title() == "File"@,
        GuestRuntime::Core.spec_title() == "Core"@,
        GuestRuntime::Wasix.spec_title() == "Wasix"@,
{
}

} // verus!
