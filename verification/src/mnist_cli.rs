//! The command line of the MNIST runner.
use crate::args::{number, parse_number, text_of, NumberError};
use crate::mnist_model::{
    float_is_finite, float_is_nan, float_is_negative, is_finite, is_nan, is_negative, ModelKind,
};
use vstd::prelude::*;
use vstd::string::*;

verus! {

/// One argument, and the bits of the 32-bit float that it writes, if it
/// writes one.
#[derive(Debug)]
pub struct Arg {
    pub text: String,
    pub float: Option<u32>,
}

#[verifier::ext_equal]
pub struct ArgView {
    pub text: Seq<char>,
    pub float: Option<u32>,
}

impl View for Arg {
    type V = ArgView;

    open spec fn view(&self) -> ArgView {
        ArgView { text: self.text@, float: self.float }
    }
}

pub open spec fn arg_views(args: Seq<Arg>) -> Seq<ArgView> {
    args.map_values(|arg: Arg| arg@)
}

/// A file or directory.
#[derive(Clone, Debug)]
pub enum Location {
    /// Below the project's own directory.
    Project(&'static str),
    /// As the command line gives it.
    Given(String),
}

pub enum LocationView {
    Project(Seq<char>),
    Given(Seq<char>),
}

impl View for Location {
    type V = LocationView;

    open spec fn view(&self) -> LocationView {
        match self {
            Location::Project(path) => LocationView::Project(path@),
            Location::Given(path) => LocationView::Given(path@),
        }
    }
}

/// What the MNIST runner was asked to do. The learning rate is given by its
/// bits.
#[derive(Clone, Debug)]
pub struct Options {
    pub model: ModelKind,
    pub steps: u32,
    pub batch: u32,
    pub learning_rate: u32,
    pub eval_every: u32,
    pub progress_every: u32,
    pub train_samples: usize,
    pub test_samples: usize,
    pub seed: u32,
    pub data_dir: Location,
    pub guest: Location,
    pub log_dir: Location,
}

/// What the arguments so far ask for.
#[verifier::ext_equal]
pub struct Request {
    pub model: ModelKind,
    pub steps: u32,
    pub batch: u32,
    pub learning_rate: Option<u32>,
    pub eval_every: u32,
    pub progress_every: u32,
    pub train_samples: usize,
    pub test_samples: usize,
    pub seed: u32,
    pub data_dir: Option<Seq<char>>,
    pub guest: Option<Seq<char>>,
    pub log_dir: Option<Seq<char>>,
}

/// An MNIST command line that asks for nothing that can be done.
#[derive(Debug)]
pub enum ArgError {
    MissingValue { flag: String },
    UnknownModel { name: String },
    UnknownFlag { name: String },
    BadNumber { cause: NumberError },
    BadFloat { empty: bool },
    BadBatch,
    BadSteps,
    BadLearningRate,
}

/// The texts of an [`ArgError`].
pub enum ArgErrorView {
    MissingValue { flag: Seq<char> },
    UnknownModel { name: Seq<char> },
    UnknownFlag { name: Seq<char> },
    BadNumber { cause: NumberError },
    BadFloat { empty: bool },
    BadBatch,
    BadSteps,
    BadLearningRate,
}

impl View for ArgError {
    type V = ArgErrorView;

    open spec fn view(&self) -> ArgErrorView {
        match self {
            ArgError::MissingValue { flag } => ArgErrorView::MissingValue { flag: flag@ },
            ArgError::UnknownModel { name } => ArgErrorView::UnknownModel { name: name@ },
            ArgError::UnknownFlag { name } => ArgErrorView::UnknownFlag { name: name@ },
            ArgError::BadNumber { cause } => ArgErrorView::BadNumber { cause: *cause },
            ArgError::BadFloat { empty } => ArgErrorView::BadFloat { empty: *empty },
            ArgError::BadBatch => ArgErrorView::BadBatch,
            ArgError::BadSteps => ArgErrorView::BadSteps,
            ArgError::BadLearningRate => ArgErrorView::BadLearningRate,
        }
    }
}

impl ArgErrorView {
    pub open spec fn message(self) -> Seq<char> {
        match self {
            ArgErrorView::MissingValue { flag } => flag + " needs a value"@,
            ArgErrorView::UnknownModel { name } => "--model must be cnn or softmax, not "@ + name,
            ArgErrorView::UnknownFlag { name } => "unknown flag "@ + name,
            ArgErrorView::BadNumber { cause } => cause.spec_message(),
            ArgErrorView::BadFloat { empty } => if empty {
                "cannot parse float from empty string"@
            } else {
                "invalid float literal"@
            },
            ArgErrorView::BadBatch => "--batch must be 1..=64 (guest staging size)"@,
            ArgErrorView::BadSteps => "--steps must be 1..=100000"@,
            ArgErrorView::BadLearningRate => "--lr must be finite and non-negative"@,
        }
    }
}

impl ArgError {
    pub fn message(&self) -> (text: String)
        ensures
            text@ == self@.message(),
    {
        match self {
            ArgError::MissingValue { flag } => {
                let mut text = flag.as_str().to_owned();
                text.append(" needs a value");
                text
            },
            ArgError::UnknownModel { name } => {
                let mut text = "--model must be cnn or softmax, not ".to_owned();
                text.append(name.as_str());
                text
            },
            ArgError::UnknownFlag { name } => {
                let mut text = "unknown flag ".to_owned();
                text.append(name.as_str());
                text
            },
            ArgError::BadNumber { cause } => cause.message(),
            ArgError::BadFloat { empty } => if *empty {
                "cannot parse float from empty string".to_owned()
            } else {
                "invalid float literal".to_owned()
            },
            ArgError::BadBatch => "--batch must be 1..=64 (guest staging size)".to_owned(),
            ArgError::BadSteps => "--steps must be 1..=100000".to_owned(),
            ArgError::BadLearningRate => "--lr must be finite and non-negative".to_owned(),
        }
    }
}

/// What an empty command line asks for.
pub open spec fn initial_request() -> Request {
    Request {
        model: ModelKind::Cnn,
        steps: 600,
        batch: 64,
        learning_rate: None,
        eval_every: 100,
        progress_every: 10,
        train_samples: 12_000,
        test_samples: 2_000,
        seed: 42,
        data_dir: None,
        guest: None,
        log_dir: None,
    }
}

/// The flags whose value is a number.
pub open spec fn takes_number(flag: Seq<char>) -> bool {
    ||| flag == "--steps"@
    ||| flag == "--batch"@
    ||| flag == "--eval-every"@
    ||| flag == "--progress-every"@
    ||| flag == "--train"@
    ||| flag == "--test"@
    ||| flag == "--seed"@
}

/// The flags; each is followed by a value.
pub open spec fn is_flag(flag: Seq<char>) -> bool {
    ||| takes_number(flag)
    ||| flag == "--model"@
    ||| flag == "--lr"@
    ||| flag == "--data-dir"@
    ||| flag == "--guest"@
    ||| flag == "--log-dir"@
}

/// The largest number that a flag takes.
pub open spec fn number_limit(flag: Seq<char>) -> u64 {
    if flag == "--train"@ || flag == "--test"@ {
        usize::MAX as u64
    } else {
        u32::MAX as u64
    }
}

/// `request` with one more numeric flag.
pub open spec fn with_number(request: Request, flag: Seq<char>, n: u64) -> Request {
    if flag == "--steps"@ {
        Request { steps: n as u32, ..request }
    } else if flag == "--batch"@ {
        Request { batch: n as u32, ..request }
    } else if flag == "--eval-every"@ {
        Request { eval_every: n as u32, ..request }
    } else if flag == "--progress-every"@ {
        Request { progress_every: n as u32, ..request }
    } else if flag == "--train"@ {
        Request { train_samples: n as usize, ..request }
    } else if flag == "--test"@ {
        Request { test_samples: n as usize, ..request }
    } else {
        Request { seed: n as u32, ..request }
    }
}

/// `request` with one more flag and its value.
pub open spec fn with_value(request: Request, flag: Seq<char>, value: ArgView) -> Result<
    Request,
    ArgErrorView,
> {
    if flag == "--model"@ {
        if value.text == "cnn"@ {
            Ok(Request { model: ModelKind::Cnn, ..request })
        } else if value.text == "softmax"@ {
            Ok(Request { model: ModelKind::Softmax, ..request })
        } else {
            Err(ArgErrorView::UnknownModel { name: value.text })
        }
    } else if flag == "--lr"@ {
        match value.float {
            Some(bits) => Ok(Request { learning_rate: Some(bits), ..request }),
            None => Err(ArgErrorView::BadFloat { empty: value.text.len() == 0 }),
        }
    } else if flag == "--data-dir"@ {
        Ok(Request { data_dir: Some(value.text), ..request })
    } else if flag == "--guest"@ {
        Ok(Request { guest: Some(value.text), ..request })
    } else if flag == "--log-dir"@ {
        Ok(Request { log_dir: Some(value.text), ..request })
    } else {
        match number(value.text, number_limit(flag)) {
            Ok(n) => Ok(with_number(request, flag, n)),
            Err(cause) => Err(ArgErrorView::BadNumber { cause }),
        }
    }
}

/// What the arguments ask for on top of `request`, read from left to right up
/// to the first one that cannot be understood.
pub open spec fn read_request(request: Request, args: Seq<ArgView>) -> Result<Request, ArgErrorView>
    decreases args.len(),
{
    if args.len() == 0 {
        Ok(request)
    } else if !is_flag(args[0].text) {
        Err(ArgErrorView::UnknownFlag { name: args[0].text })
    } else if args.len() == 1 {
        Err(ArgErrorView::MissingValue { flag: args[0].text })
    } else {
        match with_value(request, args[0].text, args[1]) {
            Ok(request) => read_request(request, args.skip(2)),
            Err(error) => Err(error),
        }
    }
}

impl Options {
    /// The options are those of the request, with the model's learning rate
    /// where none was given or what was given is not a number, and the
    /// project's own files where no others were.
    pub open spec fn fulfil(self, request: Request) -> bool {
        &&& self.model == request.model
        &&& self.steps == request.steps
        &&& self.batch == request.batch
        &&& self.learning_rate == filled_rate(request)
        &&& self.eval_every == request.eval_every
        &&& self.progress_every == request.progress_every
        &&& self.train_samples == request.train_samples
        &&& self.test_samples == request.test_samples
        &&& self.seed == request.seed
        &&& self.data_dir@ == located(request.data_dir, "data/mnist"@)
        &&& self.guest@ == (match request.guest {
            Some(path) if path.len() > 0 => LocationView::Given(path),
            _ => LocationView::Project(request.model.spec_guest()),
        })
        &&& self.log_dir@ == located(request.log_dir, "data/mnist/runs"@)
    }
}

/// A given path, or one of the project's own.
pub open spec fn located(given: Option<Seq<char>>, own: Seq<char>) -> LocationView {
    match given {
        Some(path) => LocationView::Given(path),
        None => LocationView::Project(own),
    }
}

/// The learning rate to train with.
pub open spec fn filled_rate(request: Request) -> u32 {
    match request.learning_rate {
        Some(bits) if !is_nan(bits) => bits,
        _ => request.model.spec_default_learning_rate(),
    }
}

/// What is wrong with a request, if anything is.
pub open spec fn request_error(request: Request) -> Option<ArgErrorView> {
    if !(1 <= request.batch <= 64) {
        Some(ArgErrorView::BadBatch)
    } else if !(1 <= request.steps <= 100_000) {
        Some(ArgErrorView::BadSteps)
    } else if !is_finite(filled_rate(request)) || is_negative(filled_rate(request)) {
        Some(ArgErrorView::BadLearningRate)
    } else {
        None
    }
}

fn given_or(given: Option<String>, own: &'static str) -> (location: Location)
    ensures
        location@ == located(text_of(given), own@),
{
    match given {
        Some(path) => Location::Given(path),
        None => Location::Project(own),
    }
}

/// Reads the arguments that follow the program's name.
pub fn parse_options(args: &Vec<Arg>) -> (options: Result<Options, ArgError>)
    ensures
        match (read_request(initial_request(), arg_views(args@)), options) {
            (Ok(request), Ok(options)) => request_error(request) is None && options.fulfil(request),
            (Ok(request), Err(error)) => request_error(request) == Some(error@),
            (Err(expected), Err(error)) => expected == error@,
            (Err(_), Ok(_)) => false,
        },
{
    let mut model = ModelKind::Cnn;
    let mut steps: u32 = 600;
    let mut batch: u32 = 64;
    let mut learning_rate: Option<u32> = None;
    let mut eval_every: u32 = 100;
    let mut progress_every: u32 = 10;
    let mut train_samples: usize = 12_000;
    let mut test_samples: usize = 2_000;
    let mut seed: u32 = 42;
    let mut data_dir: Option<String> = None;
    let mut guest: Option<String> = None;
    let mut log_dir: Option<String> = None;
    let ghost whole = arg_views(args@);
    let mut i: usize = 0;
    assert(whole.skip(0) =~= whole);
    while i < args.len()
        invariant
            i <= args.len(),
            whole == arg_views(args@),
            read_request(initial_request(), whole) == read_request(
                (Request {
                    model,
                    steps,
                    batch,
                    learning_rate,
                    eval_every,
                    progress_every,
                    train_samples,
                    test_samples,
                    seed,
                    data_dir: text_of(data_dir),
                    guest: text_of(guest),
                    log_dir: text_of(log_dir),
                }),
                whole.skip(i as int),
            ),
        decreases args.len() - i,
    {
        let flag: &str = args[i].text.as_str();
        let ghost rest = whole.skip(i as int);
        assert(rest[0] == args@[i as int]@);
        let count = *flag == *"--train" || *flag == *"--test";
        let word = *flag == *"--steps" || *flag == *"--batch" || *flag == *"--eval-every" || *flag
            == *"--progress-every" || *flag == *"--seed";
        if !count && !word && *flag != *"--model" && *flag != *"--lr" && *flag != *"--data-dir"
            && *flag != *"--guest" && *flag != *"--log-dir" {
            return Err(ArgError::UnknownFlag { name: flag.to_owned() });
        }
        if i + 1 == args.len() {
            return Err(ArgError::MissingValue { flag: flag.to_owned() });
        }
        let value: &Arg = &args[i + 1];
        let text: &str = value.text.as_str();
        assert(rest[1] == value@);
        if *flag == *"--model" {
            if *text == *"cnn" {
                model = ModelKind::Cnn;
            } else if *text == *"softmax" {
                model = ModelKind::Softmax;
            } else {
                return Err(ArgError::UnknownModel { name: text.to_owned() });
            }
        } else if *flag == *"--lr" {
            match value.float {
                Some(bits) => {
                    learning_rate = Some(bits);
                },
                None => {
                    return Err(ArgError::BadFloat { empty: text.unicode_len() == 0 });
                },
            }
        } else if *flag == *"--data-dir" {
            data_dir = Some(text.to_owned());
        } else if *flag == *"--guest" {
            guest = Some(text.to_owned());
        } else if *flag == *"--log-dir" {
            log_dir = Some(text.to_owned());
        } else {
            let limit: u64 = if count {
                usize::MAX as u64
            } else {
                0xffff_ffff
            };
            match parse_number(text, limit) {
                Ok(n) => {
                    if *flag == *"--steps" {
                        steps = n as u32;
                    } else if *flag == *"--batch" {
                        batch = n as u32;
                    } else if *flag == *"--eval-every" {
                        eval_every = n as u32;
                    } else if *flag == *"--progress-every" {
                        progress_every = n as u32;
                    } else if *flag == *"--train" {
                        train_samples = n as usize;
                    } else if *flag == *"--test" {
                        test_samples = n as usize;
                    } else {
                        seed = n as u32;
                    }
                },
                Err(cause) => {
                    return Err(ArgError::BadNumber { cause });
                },
            }
        }
        i = i + 2;
        assert(rest.skip(2) =~= whole.skip(i as int));
    }
    let learning_rate: u32 = match learning_rate {
        Some(bits) => if float_is_nan(bits) {
            model.default_learning_rate()
        } else {
            bits
        },
        None => model.default_learning_rate(),
    };
    let guest = match guest {
        Some(path) => if path.as_str().unicode_len() == 0 {
            Location::Project(model.guest())
        } else {
            Location::Given(path)
        },
        None => Location::Project(model.guest()),
    };
    if batch < 1 || batch > 64 {
        return Err(ArgError::BadBatch);
    }
    if steps == 0 || steps > 100_000 {
        return Err(ArgError::BadSteps);
    }
    if !float_is_finite(learning_rate) || float_is_negative(learning_rate) {
        return Err(ArgError::BadLearningRate);
    }
    Ok(
        Options {
            model,
            steps,
            batch,
            learning_rate,
            eval_every,
            progress_every,
            train_samples,
            test_samples,
            seed,
            data_dir: given_or(data_dir, "data/mnist"),
            guest,
            log_dir: given_or(log_dir, "data/mnist/runs"),
        },
    )
}

/// What an accepted command line asks for is in range.
pub proof fn law_accepted_requests_are_in_range(request: Request)
    requires
        request_error(request) is None,
    ensures
        1 <= request.batch <= 64,
        1 <= request.steps <= 100_000,
        is_finite(filled_rate(request)),
        !is_negative(filled_rate(request)),
        !is_nan(filled_rate(request)),
{
}

} // verus!
