//! Running one guest: its text form, how its run ended, and where its result
//! lies in its memory.
use crate::abi::{ERR_RANGE, SUCCESS};
use crate::device::{BridgeSnapshot, Timing};
use crate::encoding::{bytes_to_words, le_bytes, le_words, words_to_bytes};
use crate::memory::{held, memory_size, read_bytes, write_bytes};
use vstd::prelude::*;

verus! {

/// How a guest is instantiated. `Core` builds the import object by hand for a
/// core module with imported memory and an `i32`-returning `_start`. `Wasix`
/// runs a WASIX command guest (exported memory, void `_start`, exit through
/// `proc_exit`) whose bridge imports arrive via the runtime's instantiation
/// hook.
#[derive(Clone, Copy, Debug, PartialEq, Eq, Structural)]
pub enum GuestRuntime {
    Core,
    Wasix,
}

impl GuestRuntime {
    /// The runtime's name as reports spell it.
    pub open spec fn spec_title(self) -> Seq<char> {
        match self {
            GuestRuntime::Core => "Core"@,
            GuestRuntime::Wasix => "Wasix"@,
        }
    }

    /// The runtime's name as reports spell it.
    pub fn title(self) -> (title: &'static str)
        ensures
            title@ == self.spec_title(),
    {
        match self {
            GuestRuntime::Core => "Core",
            GuestRuntime::Wasix => "Wasix",
        }
    }
}

/// The error of the WAT parser, carried through unread.
#[verifier::external_type_specification]
#[verifier::external_body]
pub struct ExWatError(wat::Error);

/// The module that a WAT text stands for, in the binary format; nothing where
/// the text is not a module.
pub uninterp spec fn assembled(text: Seq<char>) -> Option<Seq<u8>>;

/// `wat::parse_str`: a well-formed WAT text gives the module's bytes, and any
/// other text is an error. Which bytes, or whether any, depends on the text
/// alone; the text format itself is not spelled out.
#[verifier::external_body]
fn parse_wat(text: &str) -> (wasm: Result<Vec<u8>, wat::Error>)
    ensures
        match wasm {
            Ok(bytes) => assembled(text@) == Some(bytes@),
            Err(_) => assembled(text@) is None,
        },
{
    wat::parse_str(text)
}

/// A guest text that is no module.
#[derive(Debug)]
pub struct CompileError {
    pub embedded: bool,
    pub cause: wat::Error,
}

impl CompileError {
    pub open spec fn spec_context(self) -> Seq<char> {
        if self.embedded {
            "compile embedded WAT guest"@
        } else {
            "compile WAT guest"@
        }
    }

    /// What failed; `cause` says why.
    pub fn context(&self) -> (text: &'static str)
        ensures
            text@ == self.spec_context(),
    {
        if self.embedded {
            "compile embedded WAT guest"
        } else {
            "compile WAT guest"
        }
    }
}

/// Assembles a guest's WAT text, either read from a file or embedded.
pub fn compile_guest(text: &str, embedded: bool) -> (wasm: Result<Vec<u8>, CompileError>)
    ensures
        match wasm {
            Ok(bytes) => assembled(text@) == Some(bytes@),
            Err(error) => assembled(text@) is None && error.embedded == embedded,
        },
{
    match parse_wat(text) {
        Ok(bytes) => Ok(bytes),
        Err(cause) => Err(CompileError { embedded, cause }),
    }
}

/// How calling a guest's `_start` ended.
#[derive(Clone, Copy, Debug, PartialEq, Eq, Structural)]
pub enum CallOutcome {
    /// It returned; a core guest's value is its status.
    Returned(i32),
    /// It ended the program with that code.
    Exited(i32),
    /// It trapped.
    Trapped,
}

/// A guest's status, if it left one, and whether it trapped instead.
#[derive(Clone, Copy, Debug, PartialEq, Eq, Structural)]
pub struct GuestEnd {
    pub status: Option<i32>,
    pub trapped: bool,
}

/// What a call's outcome says of the guest. A core guest reports its status by
/// returning it; a WASIX guest by its exit code, and a plain return is success.
/// Anything else is a trap, which is an outcome only where one is looked for.
pub open spec fn end_of(runtime: GuestRuntime, outcome: CallOutcome, capture_trap: bool) -> Option<
    GuestEnd,
> {
    match (runtime, outcome) {
        (GuestRuntime::Core, CallOutcome::Returned(status)) => Some(
            GuestEnd { status: Some(status), trapped: false },
        ),
        (GuestRuntime::Wasix, CallOutcome::Returned(_)) => Some(
            GuestEnd { status: Some(SUCCESS), trapped: false },
        ),
        (GuestRuntime::Wasix, CallOutcome::Exited(code)) => Some(
            GuestEnd { status: Some(code), trapped: false },
        ),
        _ => if capture_trap {
            Some(GuestEnd { status: None, trapped: true })
        } else {
            None
        },
    }
}

/// What a call's outcome says of the guest; nothing where the call failed and
/// no trap was looked for.
pub fn guest_end(runtime: GuestRuntime, outcome: CallOutcome, capture_trap: bool) -> (end: Option<
    GuestEnd,
>)
    ensures
        end == end_of(runtime, outcome, capture_trap),
{
    match (runtime, outcome) {
        (GuestRuntime::Core, CallOutcome::Returned(status)) => Some(
            GuestEnd { status: Some(status), trapped: false },
        ),
        (GuestRuntime::Wasix, CallOutcome::Returned(_)) => Some(
            GuestEnd { status: Some(SUCCESS), trapped: false },
        ),
        (GuestRuntime::Wasix, CallOutcome::Exited(code)) => Some(
            GuestEnd { status: Some(code), trapped: false },
        ),
        _ => if capture_trap {
            Some(GuestEnd { status: None, trapped: true })
        } else {
            None
        },
    }
}

/// Where to read a guest's result: right behind its input and as long, if
/// there was an input and the guest succeeded.
pub fn output_range(input: Option<&[u32]>, status: Option<i32>) -> (range: Option<(u64, usize)>)
    requires
        input matches Some(words) ==> 4 * words@.len() <= usize::MAX,
    ensures
        range is Some <==> input is Some && status == Some(SUCCESS),
        range matches Some((offset, len)) ==> offset == 4 * input->0@.len() && len == 4
            * input->0@.len(),
{
    match (input, status) {
        (Some(words), Some(code)) => if code == SUCCESS {
            let len: usize = 4 * words.len();
            Some((len as u64, len))
        } else {
            None
        },
        _ => None,
    }
}

/// Everything that one run of a guest left behind.
#[derive(Debug)]
pub struct GuestRun {
    pub status: Option<i32>,
    pub trapped: bool,
    pub output: Option<Vec<u32>>,
    pub timing: Timing,
    pub live_buffers_after: usize,
    pub live_pipelines_after: usize,
}

/// Writes a guest's input to the start of its memory.
pub fn write_input(view: &wasmer::MemoryView<'_>, input: &[u32]) -> (written: Result<(), i32>)
    ensures
        written == (if 4 * input@.len() <= memory_size(*view) {
            Ok::<(), i32>(())
        } else {
            Err::<(), i32>(ERR_RANGE)
        }),
        written is Ok ==> held(*view, 0, le_bytes(input@)),
{
    write_bytes(view, 0, words_to_bytes(input).as_slice())
}

/// Reads a guest's result from behind its input, if there is one to read. What
/// it holds is up to the guest.
pub fn read_output(
    view: &wasmer::MemoryView<'_>,
    input: Option<&[u32]>,
    status: Option<i32>,
) -> (output: Result<Option<Vec<u8>>, i32>)
    requires
        input matches Some(words) ==> 4 * words@.len() <= usize::MAX,
    ensures
        match output {
            Ok(None) => input is None || status != Some(SUCCESS),
            Ok(Some(bytes)) => input is Some && status == Some(SUCCESS) && 8 * input->0@.len()
                <= memory_size(*view) && bytes@.len() == 4 * input->0@.len() && held(
                *view,
                (4 * input->0@.len()) as u64,
                bytes@,
            ),
            Err(code) => input is Some && status == Some(SUCCESS) && 8 * input->0@.len()
                > memory_size(*view) && code == ERR_RANGE,
        },
{
    match output_range(input, status) {
        None => Ok(None),
        Some((offset, len)) => match read_bytes(view, offset, len) {
            Ok(bytes) => Ok(Some(bytes)),
            Err(code) => Err(code),
        },
    }
}

/// Settles a run: the bytes that were read from behind the input become the
/// output's words, and what is still live is what the bridge counts.
pub fn finish_run(
    end: GuestEnd,
    output: Option<Vec<u8>>,
    timing: Timing,
    after: &BridgeSnapshot,
) -> (run: GuestRun)
    ensures
        run.status == end.status,
        run.trapped == end.trapped,
        match output {
            Some(bytes) => run.output is Some && run.output->0@ == le_words(bytes@),
            None => run.output is None,
        },
        run.timing == timing,
        run.live_buffers_after == after.live_buffers,
        run.live_pipelines_after == after.live_pipelines,
{
    let output: Option<Vec<u32>> = match output {
        Some(bytes) => Some(bytes_to_words(bytes.as_slice())),
        None => None,
    };
    GuestRun {
        status: end.status,
        trapped: end.trapped,
        output,
        timing,
        live_buffers_after: after.live_buffers,
        live_pipelines_after: after.live_pipelines,
    }
}

} // verus!
