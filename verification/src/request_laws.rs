//! What a command line asks for.
use crate::args::{digits_value, leading_digits, number, unsigned_part, NumberError};
use crate::encoding_laws::{law_decimals_stand_for_their_number, value_of};
use crate::image::Filter;
use crate::image_cli::{self, Control};
use crate::mnist_cli::{self, ArgView, LocationView, Options};
use crate::mnist_model::{is_finite, is_nan, is_negative, ModelKind};
use crate::text::decimal;
use vstd::prelude::*;

verus! {

// ---------------------------------------------------------------------------
// Numbers
// ---------------------------------------------------------------------------

/// Nothing but decimal digits.
pub open spec fn only_digits(text: Seq<char>) -> bool {
    forall|i: int| 0 <= i < text.len() ==> '0' <= #[trigger] text[i] <= '9'
}

proof fn lemma_digits_value(digits: Seq<char>)
    requires
        only_digits(digits),
    ensures
        digits_value(digits) == value_of(digits),
        value_of(digits) >= 0,
    decreases digits.len(),
{
    if digits.len() > 0 {
        lemma_digits_value(digits.drop_last());
        assert('0' <= digits[digits.len() - 1] <= '9');
    }
}

proof fn lemma_leading(digits: Seq<char>, tail: Seq<char>)
    requires
        only_digits(digits),
        tail.len() > 0 ==> !('0' <= tail[0] <= '9'),
    ensures
        leading_digits(digits + tail) == digits.len(),
        (digits + tail).take(digits.len() as int) == digits,
    decreases digits.len(),
{
    let text = digits + tail;
    assert(text.take(digits.len() as int) =~= digits);
    if digits.len() == 0 {
        assert(text =~= tail);
    } else {
        let rest = digits.skip(1);
        assert(only_digits(rest)) by {
            assert forall|i: int| 0 <= i < rest.len() implies '0' <= #[trigger] rest[i] <= '9' by {
                assert(rest[i] == digits[i + 1]);
            }
        }
        lemma_leading(rest, tail);
        assert(text.skip(1) =~= rest + tail);
        assert('0' <= digits[0] <= '9');
        assert(text[0] == digits[0]);
    }
}

/// Digits stand for their number, if it is not too large, whatever zeros and
/// plus sign stand before it; anything behind them makes them no number, unless
/// they are too large already.
pub proof fn law_numbers_by_their_digits(digits: Seq<char>, tail: Seq<char>, max: u64)
    requires
        digits.len() > 0,
        only_digits(digits),
        tail.len() > 0 ==> !('0' <= tail[0] <= '9'),
    ensures
        value_of(digits) > max ==> number(digits + tail, max) == Err::<u64, NumberError>(
            NumberError::TooLarge,
        ),
        value_of(digits) <= max && tail.len() > 0 ==> number(digits + tail, max) == Err::<
            u64,
            NumberError,
        >(NumberError::InvalidDigit),
        value_of(digits) <= max && tail.len() == 0 ==> (number(digits + tail, max) matches Ok(n)
            && n == value_of(digits)),
        number(seq!['+'] + (digits + tail), max) == number(digits + tail, max),
{
    lemma_digits_value(digits);
    lemma_leading(digits, tail);
    let text = digits + tail;
    assert('0' <= digits[0] <= '9');
    assert(text[0] == digits[0]);
    assert(unsigned_part(text) == text);
    let plus = seq!['+'] + text;
    assert(plus.skip(1) =~= text);
    assert(unsigned_part(plus) == text);
}

/// A text without a digit at its front, behind an optional plus sign, is no
/// number; an empty one is reported as such.
pub proof fn law_texts_without_digits(text: Seq<char>, max: u64)
    ensures
        text.len() == 0 ==> number(text, max) == Err::<u64, NumberError>(NumberError::Empty),
        text.len() > 0 && text[0] != '+' && !('0' <= text[0] <= '9') ==> number(text, max) == Err::<
            u64,
            NumberError,
        >(NumberError::InvalidDigit),
        text == seq!['+'] ==> number(text, max) == Err::<u64, NumberError>(
            NumberError::InvalidDigit,
        ),
        text.len() > 1 && text[0] == '+' && !('0' <= text[1] <= '9') ==> number(text, max) == Err::<
            u64,
            NumberError,
        >(NumberError::InvalidDigit),
{
    let part = unsigned_part(text);
    assert(part.take(0) =~= Seq::empty());
    if text.len() > 1 && text[0] == '+' {
        assert(part[0] == text[1]);
    }
}

/// A number in decimal is read as itself where it is not too large.
pub proof fn law_decimals_are_read(n: nat, max: u64)
    ensures
        n <= max ==> (number(decimal(n), max) matches Ok(value) && value == n),
        n > max ==> number(decimal(n), max) == Err::<u64, NumberError>(NumberError::TooLarge),
{
    law_decimals_stand_for_their_number(n);
    law_numbers_by_their_digits(decimal(n), Seq::empty(), max);
    assert(decimal(n) + Seq::<char>::empty() =~= decimal(n));
}

// ---------------------------------------------------------------------------
// The MNIST runner
// ---------------------------------------------------------------------------

/// The flags of the MNIST runner differ.
proof fn lemma_mnist_flags()
    ensures
        "--steps"@.len() == 7 && "--steps"@[2] == 's',
        "--batch"@.len() == 7 && "--batch"@[2] == 'b',
        "--train"@.len() == 7 && "--train"@[2] == 't',
        "--model"@.len() == 7 && "--model"@[2] == 'm',
        "--guest"@.len() == 7 && "--guest"@[2] == 'g',
        "--test"@.len() == 6 && "--test"@[2] == 't',
        "--seed"@.len() == 6 && "--seed"@[2] == 's',
        "--lr"@.len() == 4,
        "--eval-every"@.len() == 12,
        "--progress-every"@.len() == 16,
        "--data-dir"@.len() == 10,
        "--log-dir"@.len() == 9,
        "cnn"@.len() == 3,
        "softmax"@.len() == 7,
{
    reveal_strlit("--steps");
    reveal_strlit("--batch");
    reveal_strlit("--train");
    reveal_strlit("--model");
    reveal_strlit("--guest");
    reveal_strlit("--test");
    reveal_strlit("--seed");
    reveal_strlit("--lr");
    reveal_strlit("--eval-every");
    reveal_strlit("--progress-every");
    reveal_strlit("--data-dir");
    reveal_strlit("--log-dir");
    reveal_strlit("cnn");
    reveal_strlit("softmax");
}

/// Each numeric flag sets the option of its name to its number, and no other
/// option.
pub proof fn law_numeric_flags_set_their_option(request: mnist_cli::Request, n: u32)
    ensures
        ({
            let value = ArgView { text: decimal(n as nat), float: None };
            let set = |flag: Seq<char>| mnist_cli::with_value(request, flag, value);
            &&& set("--steps"@) == Ok::<mnist_cli::Request, mnist_cli::ArgErrorView>(
                mnist_cli::Request { steps: n, ..request },
            )
            &&& set("--batch"@) == Ok::<mnist_cli::Request, mnist_cli::ArgErrorView>(
                mnist_cli::Request { batch: n, ..request },
            )
            &&& set("--eval-every"@) == Ok::<mnist_cli::Request, mnist_cli::ArgErrorView>(
                mnist_cli::Request { eval_every: n, ..request },
            )
            &&& set("--progress-every"@) == Ok::<mnist_cli::Request, mnist_cli::ArgErrorView>(
                mnist_cli::Request { progress_every: n, ..request },
            )
            &&& set("--train"@) == Ok::<mnist_cli::Request, mnist_cli::ArgErrorView>(
                mnist_cli::Request { train_samples: n as usize, ..request },
            )
            &&& set("--test"@) == Ok::<mnist_cli::Request, mnist_cli::ArgErrorView>(
                mnist_cli::Request { test_samples: n as usize, ..request },
            )
            &&& set("--seed"@) == Ok::<mnist_cli::Request, mnist_cli::ArgErrorView>(
                mnist_cli::Request { seed: n, ..request },
            )
        }),
{
    lemma_mnist_flags();
    law_decimals_are_read(n as nat, u32::MAX as u64);
    law_decimals_are_read(n as nat, usize::MAX as u64);
}

/// Each of the other flags sets the option of its name to its value, and no
/// other option.
pub proof fn law_other_flags_set_their_option(request: mnist_cli::Request, value: ArgView)
    ensures
        ({
            let set = |flag: Seq<char>| mnist_cli::with_value(request, flag, value);
            &&& set("--data-dir"@) == Ok::<mnist_cli::Request, mnist_cli::ArgErrorView>(
                mnist_cli::Request { data_dir: Some(value.text), ..request },
            )
            &&& set("--guest"@) == Ok::<mnist_cli::Request, mnist_cli::ArgErrorView>(
                mnist_cli::Request { guest: Some(value.text), ..request },
            )
            &&& set("--log-dir"@) == Ok::<mnist_cli::Request, mnist_cli::ArgErrorView>(
                mnist_cli::Request { log_dir: Some(value.text), ..request },
            )
            &&& value.float is Some ==> set("--lr"@) == Ok::<
                mnist_cli::Request,
                mnist_cli::ArgErrorView,
            >(mnist_cli::Request { learning_rate: value.float, ..request })
            &&& value.float is None ==> set("--lr"@) == Err::<
                mnist_cli::Request,
                mnist_cli::ArgErrorView,
            >(mnist_cli::ArgErrorView::BadFloat { empty: value.text.len() == 0 })
            &&& value.text == "cnn"@ ==> set("--model"@) == Ok::<
                mnist_cli::Request,
                mnist_cli::ArgErrorView,
            >(mnist_cli::Request { model: ModelKind::Cnn, ..request })
            &&& value.text == "softmax"@ ==> set("--model"@) == Ok::<
                mnist_cli::Request,
                mnist_cli::ArgErrorView,
            >(mnist_cli::Request { model: ModelKind::Softmax, ..request })
            &&& value.text != "cnn"@ && value.text != "softmax"@ ==> set("--model"@) == Err::<
                mnist_cli::Request,
                mnist_cli::ArgErrorView,
            >(mnist_cli::ArgErrorView::UnknownModel { name: value.text })
        }),
{
    lemma_mnist_flags();
}

/// Arguments are read from left to right: what stands behind understood ones is
/// read on top of what they ask for. A flag without a value and an unknown flag
/// are errors where they are reached.
pub proof fn law_mnist_arguments_are_read_in_order(
    request: mnist_cli::Request,
    a: Seq<ArgView>,
    b: Seq<ArgView>,
)
    ensures
        mnist_cli::read_request(request, Seq::empty()) == Ok::<
            mnist_cli::Request,
            mnist_cli::ArgErrorView,
        >(request),
        mnist_cli::read_request(request, a) matches Ok(so_far) ==> mnist_cli::read_request(
            request,
            a + b,
        ) == mnist_cli::read_request(so_far, b),
        a.len() == 2 && mnist_cli::is_flag(a[0].text) ==> mnist_cli::read_request(request, a)
            == mnist_cli::with_value(request, a[0].text, a[1]),
        a.len() > 0 && !mnist_cli::is_flag(a[0].text) ==> mnist_cli::read_request(request, a)
            == Err::<mnist_cli::Request, mnist_cli::ArgErrorView>(
            mnist_cli::ArgErrorView::UnknownFlag { name: a[0].text },
        ),
        a.len() == 1 && mnist_cli::is_flag(a[0].text) ==> mnist_cli::read_request(request, a)
            == Err::<mnist_cli::Request, mnist_cli::ArgErrorView>(
            mnist_cli::ArgErrorView::MissingValue { flag: a[0].text },
        ),
    decreases a.len(),
{
    reveal_with_fuel(mnist_cli::read_request, 2);
    if a.len() == 0 {
        assert(a + b =~= b);
    } else if mnist_cli::is_flag(a[0].text) && a.len() >= 2 {
        match mnist_cli::with_value(request, a[0].text, a[1]) {
            Ok(next) => {
                law_mnist_arguments_are_read_in_order(next, a.skip(2), b);
                assert((a + b).skip(2) =~= a.skip(2) + b);
            },
            Err(_) => {},
        }
    }
}

/// The flags of the MNIST runner, and no others.
pub proof fn law_mnist_flags(flag: Seq<char>)
    ensures
        mnist_cli::is_flag(flag) <==> {
            ||| flag == "--model"@
            ||| flag == "--steps"@
            ||| flag == "--batch"@
            ||| flag == "--lr"@
            ||| flag == "--eval-every"@
            ||| flag == "--progress-every"@
            ||| flag == "--train"@
            ||| flag == "--test"@
            ||| flag == "--seed"@
            ||| flag == "--data-dir"@
            ||| flag == "--guest"@
            ||| flag == "--log-dir"@
        },
{
}

/// An empty command line asks for 600 steps of 64 digits with the CNN.
pub proof fn law_mnist_defaults()
    ensures
        ({
            let request = mnist_cli::initial_request();
            &&& request.model is Cnn
            &&& request.steps == 600 && request.batch == 64
            &&& request.learning_rate is None
            &&& request.eval_every == 100 && request.progress_every == 10
            &&& request.train_samples == 12_000 && request.test_samples == 2_000
            &&& request.seed == 42
            &&& request.data_dir is None && request.guest is None && request.log_dir is None
            &&& mnist_cli::request_error(request) is None
        }),
{
}

/// A request is accepted exactly if it asks for 1 to 64 digits a step, 1 to
/// 100000 steps and a finite rate that is not negative; a rate that is not a
/// number, or not given, is the model's own.
pub proof fn law_accepted_mnist_requests(request: mnist_cli::Request)
    ensures
        ({
            let rate = mnist_cli::filled_rate(request);
            let error = mnist_cli::request_error(request);
            &&& request.learning_rate matches Some(bits) ==> (!is_nan(bits) ==> rate == bits)
            &&& request.learning_rate is None || is_nan(request.learning_rate->0) ==> rate
                == request.model.spec_default_learning_rate()
            &&& error is None <==> 1 <= request.batch <= 64 && 1 <= request.steps <= 100_000
                && is_finite(rate) && !is_negative(rate)
            &&& request.batch == 0 || request.batch > 64 ==> error == Some(
                mnist_cli::ArgErrorView::BadBatch,
            )
            &&& 1 <= request.batch <= 64 && (request.steps == 0 || request.steps > 100_000)
                ==> error == Some(mnist_cli::ArgErrorView::BadSteps)
            &&& 1 <= request.batch <= 64 && 1 <= request.steps <= 100_000 && (!is_finite(rate)
                || is_negative(rate)) ==> error == Some(mnist_cli::ArgErrorView::BadLearningRate)
        }),
{
}

/// Options carry every number of the request over, and the project's own files
/// where none are given.
pub proof fn law_options_carry_the_request_over(options: Options, request: mnist_cli::Request)
    requires
        options.fulfil(request),
    ensures
        options.model == request.model,
        options.steps == request.steps,
        options.batch == request.batch,
        options.learning_rate == mnist_cli::filled_rate(request),
        options.eval_every == request.eval_every,
        options.progress_every == request.progress_every,
        options.train_samples == request.train_samples,
        options.test_samples == request.test_samples,
        options.seed == request.seed,
        request.data_dir matches Some(path) ==> options.data_dir@ == LocationView::Given(path),
        request.data_dir is None ==> options.data_dir@ == LocationView::Project("data/mnist"@),
        request.log_dir matches Some(path) ==> options.log_dir@ == LocationView::Given(path),
        request.log_dir is None ==> options.log_dir@ == LocationView::Project("data/mnist/runs"@),
        request.guest matches Some(path) ==> (path.len() > 0 ==> options.guest@
            == LocationView::Given(path)),
        request.guest is None || request.guest->0.len() == 0 ==> options.guest@
            == LocationView::Project(request.model.spec_guest()),
{
}

// ---------------------------------------------------------------------------
// The image runner
// ---------------------------------------------------------------------------

/// The flags of the image runner differ.
proof fn lemma_image_flags()
    ensures
        "--filter"@.len() == 8,
        "--param"@.len() == 7 && "--param"@[2] == 'p',
        "--input"@.len() == 7 && "--input"@[2] == 'i',
        "--width"@.len() == 7 && "--width"@[2] == 'w',
        "--control"@.len() == 9,
        "--height"@.len() == 8 && "--height"@[2] == 'h' && "--filter"@[2] == 'f',
        "--json"@.len() == 6,
{
    reveal_strlit("--filter");
    reveal_strlit("--param");
    reveal_strlit("--input");
    reveal_strlit("--width");
    reveal_strlit("--control");
    reveal_strlit("--height");
    reveal_strlit("--json");
}

/// Each flag sets the option of its name to its value, and no other option.
pub proof fn law_image_flags_set_their_option(
    request: image_cli::Request,
    n: u32,
    filter: Filter,
    control: Control,
    path: Seq<char>,
)
    ensures
        ({
            let set = |flag: Seq<char>, value: Seq<char>| image_cli::with_value(request, flag, value);
            let number = decimal(n as nat);
            &&& set("--param"@, number) == Ok::<image_cli::Request, image_cli::ArgErrorView>(
                image_cli::Request { param: Some(n), ..request },
            )
            &&& set("--width"@, number) == Ok::<image_cli::Request, image_cli::ArgErrorView>(
                image_cli::Request { width: n, ..request },
            )
            &&& set("--height"@, number) == Ok::<image_cli::Request, image_cli::ArgErrorView>(
                image_cli::Request { height: n, ..request },
            )
            &&& set("--input"@, path) == Ok::<image_cli::Request, image_cli::ArgErrorView>(
                image_cli::Request { input: Some(path), ..request },
            )
            &&& set("--filter"@, filter.spec_name()) == Ok::<
                image_cli::Request,
                image_cli::ArgErrorView,
            >(image_cli::Request { filter, ..request })
            &&& set("--control"@, control.spec_name()) == Ok::<
                image_cli::Request,
                image_cli::ArgErrorView,
            >(image_cli::Request { control, ..request })
        }),
{
    lemma_image_flags();
    law_decimals_are_read(n as nat, u32::MAX as u64);
    crate::image_laws::law_filters_have_names(filter, filter.spec_name());
    image_cli::law_controls_are_distinct(control, control.spec_name());
}

/// Arguments are read from left to right: what stands behind understood ones is
/// read on top of what they ask for.
pub proof fn law_image_arguments_are_read_in_order(
    request: image_cli::Request,
    a: Seq<Seq<char>>,
    b: Seq<Seq<char>>,
)
    ensures
        image_cli::read_request(request, Seq::empty()) == Ok::<
            image_cli::Request,
            image_cli::ArgErrorView,
        >(request),
        image_cli::read_request(request, a) matches Ok(so_far) ==> image_cli::read_request(
            request,
            a + b,
        ) == image_cli::read_request(so_far, b),
        a.len() == 1 && a[0] == "--json"@ ==> image_cli::read_request(request, a) == Ok::<
            image_cli::Request,
            image_cli::ArgErrorView,
        >(image_cli::Request { json: true, ..request }),
        a.len() == 2 && image_cli::takes_value(a[0]) ==> image_cli::read_request(request, a)
            == image_cli::with_value(request, a[0], a[1]),
        a.len() == 1 && image_cli::takes_value(a[0]) ==> image_cli::read_request(request, a)
            == Err::<image_cli::Request, image_cli::ArgErrorView>(
            image_cli::ArgErrorView::MissingValue { flag: a[0] },
        ),
        a.len() > 0 && !image_cli::takes_value(a[0]) && a[0] != "--json"@
            ==> image_cli::read_request(request, a) == Err::<
            image_cli::Request,
            image_cli::ArgErrorView,
        >(image_cli::ArgErrorView::UnknownArgument { name: a[0] }),
    decreases a.len(),
{
    lemma_image_flags();
    reveal_with_fuel(image_cli::read_request, 2);
    if a.len() == 0 {
        assert(a + b =~= b);
    } else if a[0] == "--json"@ {
        law_image_arguments_are_read_in_order(
            image_cli::Request { json: true, ..request },
            a.skip(1),
            b,
        );
        assert((a + b).skip(1) =~= a.skip(1) + b);
    } else if image_cli::takes_value(a[0]) && a.len() >= 2 {
        match image_cli::with_value(request, a[0], a[1]) {
            Ok(next) => {
                law_image_arguments_are_read_in_order(next, a.skip(2), b);
                assert((a + b).skip(2) =~= a.skip(2) + b);
            },
            Err(_) => {},
        }
    }
}

/// The flags of the image runner that take a value, and no others.
pub proof fn law_image_flags(flag: Seq<char>)
    ensures
        image_cli::takes_value(flag) <==> {
            ||| flag == "--filter"@
            ||| flag == "--param"@
            ||| flag == "--control"@
            ||| flag == "--input"@
            ||| flag == "--width"@
            ||| flag == "--height"@
        },
{
}

/// An empty command line asks for the default blur of a 512x384 scene.
pub proof fn law_image_defaults()
    ensures
        ({
            let request = image_cli::initial_request();
            &&& request.filter is Blur && request.control is Plain
            &&& request.param is None && request.input is None
            &&& request.width == 512 && request.height == 384
            &&& !request.json
        }),
{
}

/// A request is accepted exactly if both sides are 1 to 512 and the parameter,
/// or the filter's own where none is given, is one that the filter takes; it is
/// otherwise unchanged.
pub proof fn law_accepted_image_requests(request: image_cli::Request)
    ensures
        ({
            let param = match request.param {
                Some(param) => param,
                None => request.filter.spec_default_param(),
            };
            let sized = 1 <= request.width <= 512 && 1 <= request.height <= 512;
            let apt = 1 <= param <= request.filter.spec_max_param();
            let checked = image_cli::checked_request(request);
            &&& !sized ==> checked == Err::<image_cli::Request, image_cli::ArgErrorView>(
                image_cli::ArgErrorView::BadSize,
            )
            &&& sized && !apt ==> checked == Err::<image_cli::Request, image_cli::ArgErrorView>(
                image_cli::ArgErrorView::BadParam { filter: request.filter },
            )
            &&& sized && apt ==> checked == Ok::<image_cli::Request, image_cli::ArgErrorView>(
                image_cli::Request { param: Some(param), ..request },
            )
        }),
{
}

/// A command line is read and only then checked.
pub proof fn law_image_requests_are_checked(args: Seq<Seq<char>>)
    ensures
        image_cli::read_request(image_cli::initial_request(), args) matches Ok(request)
            ==> image_cli::request_of(args) == image_cli::checked_request(request),
        image_cli::read_request(image_cli::initial_request(), args) matches Err(error)
            ==> image_cli::request_of(args) == Err::<image_cli::Request, image_cli::ArgErrorView>(
            error,
        ),
{
}

} // verus!
