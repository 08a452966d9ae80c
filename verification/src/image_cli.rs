//! The command line of the image runner.
use crate::args::{number, parse_number, text_of, texts, NumberError};
use crate::image::{Filter, UnknownName};
use crate::text::{debug_text, decimal, push_decimal, quoted};
use vstd::prelude::*;
use vstd::string::*;

verus! {

/// Largest side the guest memory and session quota are sized for.
pub const MAX_SIDE: u32 = 512;

/// What the guest is asked for in place of the requested filter.
#[derive(Clone, Copy, Debug, PartialEq, Eq, Structural)]
pub enum Control {
    /// The requested filter.
    Plain,
    /// Its identity kernel.
    WrongShader,
    /// No kernel at all.
    NoDispatch,
}

impl Control {
    pub open spec fn spec_name(self) -> Seq<char> {
        match self {
            Control::Plain => "none"@,
            Control::WrongShader => "wrong-shader"@,
            Control::NoDispatch => "no-dispatch"@,
        }
    }

    /// The control of that name.
    pub open spec fn named(name: Seq<char>) -> Option<Control> {
        if name == "none"@ {
            Some(Control::Plain)
        } else if name == "wrong-shader"@ {
            Some(Control::WrongShader)
        } else if name == "no-dispatch"@ {
            Some(Control::NoDispatch)
        } else {
            None
        }
    }

    pub fn parse(name: &str) -> (control: Result<Control, UnknownName>)
        ensures
            match control {
                Ok(control) => Control::named(name@) == Some(control),
                Err(unknown) => Control::named(name@) is None && unknown.name@ == name@,
            },
    {
        if *name == *"none" {
            Ok(Control::Plain)
        } else if *name == *"wrong-shader" {
            Ok(Control::WrongShader)
        } else if *name == *"no-dispatch" {
            Ok(Control::NoDispatch)
        } else {
            Err(UnknownName { name: name.to_owned() })
        }
    }
}

impl Control {
    /// The control's name as reports spell it.
    pub open spec fn spec_title(self) -> Seq<char> {
        match self {
            Control::Plain => "None"@,
            Control::WrongShader => "WrongShader"@,
            Control::NoDispatch => "NoDispatch"@,
        }
    }

    /// The control's name as reports spell it.
    pub fn title(self) -> (title: &'static str)
        ensures
            title@ == self.spec_title(),
    {
        match self {
            Control::Plain => "None",
            Control::WrongShader => "WrongShader",
            Control::NoDispatch => "NoDispatch",
        }
    }
}

/// Every control is found under its name and no other control is.
pub proof fn law_controls_are_distinct(control: Control, name: Seq<char>)
    ensures
        Control::named(control.spec_name()) == Some(control),
        Control::named(name) == Some(control) ==> name == control.spec_name(),
{
    reveal_strlit("none");
    reveal_strlit("wrong-shader");
    reveal_strlit("no-dispatch");
    assert("none"@.len() == 4);
    assert("wrong-shader"@.len() == 12);
    assert("no-dispatch"@.len() == 11);
}

/// What the image runner was asked to do.
#[derive(Debug)]
pub struct Options {
    pub filter: Filter,
    pub param: u32,
    pub control: Control,
    /// A raw RGBA8 file; without one the scene is generated.
    pub input: Option<String>,
    pub width: u32,
    pub height: u32,
    pub json: bool,
}

/// What the arguments so far ask for.
#[verifier::ext_equal]
pub struct Request {
    pub filter: Filter,
    pub param: Option<u32>,
    pub control: Control,
    pub input: Option<Seq<char>>,
    pub width: u32,
    pub height: u32,
    pub json: bool,
}

impl View for Options {
    type V = Request;

    open spec fn view(&self) -> Request {
        Request {
            filter: self.filter,
            param: Some(self.param),
            control: self.control,
            input: text_of(self.input),
            width: self.width,
            height: self.height,
            json: self.json,
        }
    }
}

/// An image command line that asks for nothing that can be done.
#[derive(Debug)]
pub enum ArgError {
    MissingValue { flag: String },
    UnknownFilter { name: String },
    UnknownControl { name: String },
    UnknownArgument { name: String },
    BadNumber { flag: String, cause: NumberError },
    BadSize,
    BadParam { filter: Filter },
}

/// The texts of an [`ArgError`].
pub enum ArgErrorView {
    MissingValue { flag: Seq<char> },
    UnknownFilter { name: Seq<char> },
    UnknownControl { name: Seq<char> },
    UnknownArgument { name: Seq<char> },
    BadNumber { flag: Seq<char>, cause: NumberError },
    BadSize,
    BadParam { filter: Filter },
}

impl View for ArgError {
    type V = ArgErrorView;

    open spec fn view(&self) -> ArgErrorView {
        match self {
            ArgError::MissingValue { flag } => ArgErrorView::MissingValue { flag: flag@ },
            ArgError::UnknownFilter { name } => ArgErrorView::UnknownFilter { name: name@ },
            ArgError::UnknownControl { name } => ArgErrorView::UnknownControl { name: name@ },
            ArgError::UnknownArgument { name } => ArgErrorView::UnknownArgument { name: name@ },
            ArgError::BadNumber { flag, cause } => ArgErrorView::BadNumber {
                flag: flag@,
                cause: *cause,
            },
            ArgError::BadSize => ArgErrorView::BadSize,
            ArgError::BadParam { filter } => ArgErrorView::BadParam { filter: *filter },
        }
    }
}

impl Filter {
    /// The filter's name as reports spell it.
    pub open spec fn spec_title(self) -> Seq<char> {
        match self {
            Filter::Blur => "Blur"@,
            Filter::Edges => "Edges"@,
            Filter::Emboss => "Emboss"@,
            Filter::Identity => "Identity"@,
        }
    }

    /// The filter's name as reports spell it.
    pub fn title(self) -> (title: &'static str)
        ensures
            title@ == self.spec_title(),
    {
        match self {
            Filter::Blur => "Blur",
            Filter::Edges => "Edges",
            Filter::Emboss => "Emboss",
            Filter::Identity => "Identity",
        }
    }
}

impl ArgErrorView {
    pub open spec fn message(self) -> Seq<char> {
        match self {
            ArgErrorView::MissingValue { flag } => flag + " needs a value"@,
            ArgErrorView::UnknownFilter { name } => "unknown filter "@ + debug_text(name)
                + "; expected blur, edges, emboss or identity"@,
            ArgErrorView::UnknownControl { name } => "unknown control "@ + debug_text(name)
                + "; expected none, wrong-shader or no-dispatch"@,
            ArgErrorView::UnknownArgument { name } => "unknown argument "@ + debug_text(name),
            ArgErrorView::BadNumber { flag, cause } => flag + ": "@ + cause.spec_message(),
            ArgErrorView::BadSize => "width and height must be within 1..="@ + decimal(
                MAX_SIDE as nat,
            ),
            ArgErrorView::BadParam { filter } => "--param for "@ + filter.spec_title()
                + " must be within 1..="@ + decimal(filter.spec_max_param() as nat),
        }
    }
}

impl ArgError {
    pub fn message(&self) -> (text: String)
        ensures
            text@ == self@.message(),
    {
        let mut text = String::new();
        match self {
            ArgError::MissingValue { flag } => {
                text.append(flag.as_str());
                text.append(" needs a value");
            },
            ArgError::UnknownFilter { name } => {
                text.append("unknown filter ");
                text.append(quoted(name.as_str()).as_str());
                text.append("; expected blur, edges, emboss or identity");
            },
            ArgError::UnknownControl { name } => {
                text.append("unknown control ");
                text.append(quoted(name.as_str()).as_str());
                text.append("; expected none, wrong-shader or no-dispatch");
            },
            ArgError::UnknownArgument { name } => {
                text.append("unknown argument ");
                text.append(quoted(name.as_str()).as_str());
            },
            ArgError::BadNumber { flag, cause } => {
                text.append(flag.as_str());
                text.append(": ");
                text.append(cause.message().as_str());
            },
            ArgError::BadSize => {
                text.append("width and height must be within 1..=");
                push_decimal(&mut text, MAX_SIDE as u128);
            },
            ArgError::BadParam { filter } => {
                text.append("--param for ");
                text.append(filter.title());
                text.append(" must be within 1..=");
                push_decimal(&mut text, filter.max_param() as u128);
            },
        }
        assert(text@ =~= self@.message());
        text
    }
}

/// What an empty command line asks for.
pub open spec fn initial_request() -> Request {
    Request {
        filter: Filter::Blur,
        param: None,
        control: Control::Plain,
        input: None,
        width: 512,
        height: 384,
        json: false,
    }
}

/// The flags that are followed by a value.
pub open spec fn takes_value(flag: Seq<char>) -> bool {
    ||| flag == "--filter"@
    ||| flag == "--param"@
    ||| flag == "--control"@
    ||| flag == "--input"@
    ||| flag == "--width"@
    ||| flag == "--height"@
}

/// `request` with one more flag and its value.
pub open spec fn with_value(request: Request, flag: Seq<char>, value: Seq<char>) -> Result<
    Request,
    ArgErrorView,
> {
    if flag == "--filter"@ {
        match Filter::named(value) {
            Some(filter) => Ok(Request { filter, ..request }),
            None => Err(ArgErrorView::UnknownFilter { name: value }),
        }
    } else if flag == "--control"@ {
        match Control::named(value) {
            Some(control) => Ok(Request { control, ..request }),
            None => Err(ArgErrorView::UnknownControl { name: value }),
        }
    } else if flag == "--input"@ {
        Ok(Request { input: Some(value), ..request })
    } else {
        match number(value, u32::MAX as u64) {
            Ok(n) => Ok(
                if flag == "--param"@ {
                    Request { param: Some(n as u32), ..request }
                } else if flag == "--width"@ {
                    Request { width: n as u32, ..request }
                } else {
                    Request { height: n as u32, ..request }
                },
            ),
            Err(cause) => Err(ArgErrorView::BadNumber { flag, cause }),
        }
    }
}

/// What the arguments ask for on top of `request`, read from left to right up
/// to the first one that cannot be understood.
pub open spec fn read_request(request: Request, args: Seq<Seq<char>>) -> Result<
    Request,
    ArgErrorView,
>
    decreases args.len(),
{
    if args.len() == 0 {
        Ok(request)
    } else if args[0] == "--json"@ {
        read_request(Request { json: true, ..request }, args.skip(1))
    } else if !takes_value(args[0]) {
        Err(ArgErrorView::UnknownArgument { name: args[0] })
    } else if args.len() == 1 {
        Err(ArgErrorView::MissingValue { flag: args[0] })
    } else {
        match with_value(request, args[0], args[1]) {
            Ok(request) => read_request(request, args.skip(2)),
            Err(error) => Err(error),
        }
    }
}

/// The request with the filter's default parameter filled in, if its size and
/// parameter are in range.
pub open spec fn checked_request(request: Request) -> Result<Request, ArgErrorView> {
    let param = match request.param {
        Some(param) => param,
        None => request.filter.spec_default_param(),
    };
    if !(1 <= request.width <= MAX_SIDE && 1 <= request.height <= MAX_SIDE) {
        Err(ArgErrorView::BadSize)
    } else if !(1 <= param <= request.filter.spec_max_param()) {
        Err(ArgErrorView::BadParam { filter: request.filter })
    } else {
        Ok(Request { param: Some(param), ..request })
    }
}

/// The whole command line.
pub open spec fn request_of(args: Seq<Seq<char>>) -> Result<Request, ArgErrorView> {
    match read_request(initial_request(), args) {
        Ok(request) => checked_request(request),
        Err(error) => Err(error),
    }
}

/// Reads the arguments that follow the program's name.
pub fn parse_args(args: &Vec<String>) -> (options: Result<Options, ArgError>)
    ensures
        match options {
            Ok(options) => request_of(texts(args@)) == Ok::<Request, ArgErrorView>(options@),
            Err(error) => request_of(texts(args@)) == Err::<Request, ArgErrorView>(error@),
        },
{
    let mut filter = Filter::Blur;
    let mut param: Option<u32> = None;
    let mut control = Control::Plain;
    let mut input: Option<String> = None;
    let mut width: u32 = 512;
    let mut height: u32 = 384;
    let mut json = false;
    let ghost whole = texts(args@);
    let mut i: usize = 0;
    assert(whole.skip(0) =~= whole);
    while i < args.len()
        invariant
            i <= args.len(),
            whole == texts(args@),
            read_request(initial_request(), whole) == read_request(
                Request { filter, param, control, input: text_of(input), width, height, json },
                whole.skip(i as int),
            ),
        decreases args.len() - i,
    {
        let arg: &str = args[i].as_str();
        let ghost rest = whole.skip(i as int);
        assert(rest[0] == arg@);
        if *arg == *"--json" {
            json = true;
            i = i + 1;
            assert(rest.skip(1) =~= whole.skip(i as int));
        } else if *arg != *"--filter" && *arg != *"--param" && *arg != *"--control" && *arg
            != *"--input" && *arg != *"--width" && *arg != *"--height" {
            return Err(ArgError::UnknownArgument { name: arg.to_owned() });
        } else if i + 1 == args.len() {
            return Err(ArgError::MissingValue { flag: arg.to_owned() });
        } else {
            let value: &str = args[i + 1].as_str();
            assert(rest[1] == value@);
            if *arg == *"--filter" {
                match Filter::parse(value) {
                    Ok(parsed) => {
                        filter = parsed;
                    },
                    Err(unknown) => {
                        return Err(ArgError::UnknownFilter { name: unknown.name });
                    },
                }
            } else if *arg == *"--control" {
                match Control::parse(value) {
                    Ok(parsed) => {
                        control = parsed;
                    },
                    Err(unknown) => {
                        return Err(ArgError::UnknownControl { name: unknown.name });
                    },
                }
            } else if *arg == *"--input" {
                input = Some(value.to_owned());
            } else {
                match parse_number(value, 0xffff_ffff) {
                    Ok(n) => {
                        if *arg == *"--param" {
                            param = Some(n as u32);
                        } else if *arg == *"--width" {
                            width = n as u32;
                        } else {
                            height = n as u32;
                        }
                    },
                    Err(cause) => {
                        return Err(ArgError::BadNumber { flag: arg.to_owned(), cause });
                    },
                }
            }
            i = i + 2;
            assert(rest.skip(2) =~= whole.skip(i as int));
        }
    }
    if width == 0 || height == 0 || width > MAX_SIDE || height > MAX_SIDE {
        return Err(ArgError::BadSize);
    }
    let param: u32 = match param {
        Some(param) => param,
        None => filter.default_param(),
    };
    if param < 1 || param > filter.max_param() {
        return Err(ArgError::BadParam { filter });
    }
    Ok(Options { filter, param, control, input, width, height, json })
}

/// What an accepted command line asks for can be done: the size is one that
/// guest memory is laid out for, and the parameter is one that the kernels'
/// integer arithmetic covers.
pub proof fn law_accepted_requests_are_in_range(args: Seq<Seq<char>>)
    requires
        request_of(args) is Ok,
    ensures
        ({
            let request = request_of(args)->Ok_0;
            &&& 1 <= request.width <= MAX_SIDE
            &&& 1 <= request.height <= MAX_SIDE
            &&& request.param matches Some(param) && 1 <= param
                <= request.filter.spec_max_param() <= 16
        }),
{
}

} // verus!
