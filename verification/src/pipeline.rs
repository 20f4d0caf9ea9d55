//! The pure core of the two-stage pipeline: the orchestrator's mode
//! decision, the producer's interactive protocol as a step function, and
//! the consumer's per-request processing. Reading standard input,
//! spawning the two units and carrying requests over a channel is the
//! caller's concern; everything decided about the data happens here.

use vstd::prelude::*;
use crate::command::Command;
use crate::command::CommandParseError;
use crate::command::parse_command;
use crate::transform::TransformError;
use crate::transform::transform;
use crate::transform::transform_spec;
use crate::transform::transform_error_message;

verus! {

/// One unit of work handed from the producer to the consumer: a command
/// and the raw text it is to transform.
pub struct Request {
    pub command: Command,
    pub text: String,
}

impl Request {
    /// A request never carries `Exit`: the producer stops instead of
    /// sending one.
    pub open spec fn wf(self) -> bool {
        self.command != Command::Exit
    }
}

/// How one invocation runs, decided from the argument count alone:
/// exactly one argument beyond the program name selects the command with
/// text from standard input, two select the command with the text
/// inline, and any other count enters interactive mode.
#[derive(Debug)]
pub enum Mode {
    Interactive,
    CommandOnly(Command),
    CommandWithText(Command, String),
}

/// Decides the mode of one invocation from its argument list. An
/// unrecognized command token in a non-interactive invocation is the one
/// fatal error: the caller reports it and exits non-zero.
pub fn plan(args: &Vec<String>) -> (r: Result<Mode, CommandParseError>)
    ensures
        match r {
            Ok(m) => match m {
                Mode::Interactive => args@.len() != 2 && args@.len() != 3,
                Mode::CommandOnly(c) => args@.len() == 2 && parse_command(args@[1]@) == Some(c),
                Mode::CommandWithText(c, t) => args@.len() == 3 && parse_command(args@[1]@)
                    == Some(c) && t@ == args@[2]@,
            },
            Err(e) => (args@.len() == 2 || args@.len() == 3) && parse_command(args@[1]@) is None
                && e.invalid_command@ == args@[1]@,
        },
{
    if args.len() == 2 {
        match Command::from_str(args[1].as_str()) {
            Ok(c) => Ok(Mode::CommandOnly(c)),
            Err(e) => Err(e),
        }
    } else if args.len() == 3 {
        match Command::from_str(args[1].as_str()) {
            Ok(c) => Ok(Mode::CommandWithText(c, args[2].clone())),
            Err(e) => Err(e),
        }
    } else {
        Ok(Mode::Interactive)
    }
}

/// Where a command's text comes from when none was given inline: `csv`
/// consumes the whole remaining stream, every other command one line.
#[derive(Copy, Clone, Debug, PartialEq, Eq, Structural)]
pub enum InputSource {
    SingleLine,
    WholeStream,
}

/// Decides how much of standard input a command's text occupies.
pub fn input_source(command: Command) -> (r: InputSource)
    ensures
        r == (if command == Command::Csv {
            InputSource::WholeStream
        } else {
            InputSource::SingleLine
        }),
{
    match command {
        Command::Csv => InputSource::WholeStream,
        _ => InputSource::SingleLine,
    }
}

/// The producer's state between two lines of an interactive session: it
/// alternates between expecting a command token and expecting the text
/// for the command it just read, until `exit` or end of input finishes
/// it.
#[derive(Copy, Clone, Debug, PartialEq, Eq, Structural)]
pub enum ProducerState {
    AwaitCommand,
    AwaitText(Command),
    Finished,
}

impl ProducerState {
    /// The producer never waits for text of an `Exit` command: `exit`
    /// finishes the session at once.
    pub open spec fn wf(self) -> bool {
        match self {
            ProducerState::AwaitText(c) => c != Command::Exit,
            _ => true,
        }
    }
}

/// One step of the interactive protocol: feeds the producer the next
/// line of standard input (or `None` at end of input) and returns the
/// next state, at most one request to enqueue, and at most one parse
/// error to report. Requests come out in input order, and none follows
/// `Finished`.
pub fn producer_step(state: ProducerState, line: Option<String>) -> (r: (
    ProducerState,
    Option<Request>,
    Option<CommandParseError>,
))
    requires
        state.wf(),
    ensures
        r.0.wf(),
        r.1 matches Some(q) ==> q.wf(),
        match line {
            None => r.0 == ProducerState::Finished && r.1 is None && r.2 is None,
            Some(l) => match state {
                ProducerState::AwaitCommand => match parse_command(l@) {
                    Some(Command::Exit) => r.0 == ProducerState::Finished && r.1 is None
                        && r.2 is None,
                    Some(c) => r.0 == ProducerState::AwaitText(c) && r.1 is None && r.2 is None,
                    None => r.0 == ProducerState::AwaitCommand && r.1 is None && (
                    r.2 matches Some(e) && e.invalid_command@ == l@),
                },
                ProducerState::AwaitText(c) => r.0 == ProducerState::AwaitCommand && (
                r.1 matches Some(q) && q.command == c && q.text == l) && r.2 is None,
                ProducerState::Finished => r.0 == ProducerState::Finished && r.1 is None
                    && r.2 is None,
            },
        },
{
    match line {
        None => (ProducerState::Finished, None, None),
        Some(l) => match state {
            ProducerState::AwaitCommand => match Command::from_str(l.as_str()) {
                Ok(Command::Exit) => (ProducerState::Finished, None, None),
                Ok(c) => (ProducerState::AwaitText(c), None, None),
                Err(e) => (ProducerState::AwaitCommand, None, Some(e)),
            },
            ProducerState::AwaitText(c) => (
                ProducerState::AwaitCommand,
                Some(Request { command: c, text: l }),
                None,
            ),
            ProducerState::Finished => (ProducerState::Finished, None, None),
        },
    }
}

/// The decorative block the consumer prints around a transformed text.
pub open spec fn banner_of(s: Seq<char>) -> Seq<char> {
    "---------------------------\nTransformed text:\n"@ + s + "\n---------------------------"@
}

/// Wraps a transformed text in the fixed decorative banner.
pub fn format_output(string_mutation: &str) -> (r: String)
    ensures
        r@ == banner_of(string_mutation@),
{
    let mut out = String::from_str("---------------------------\nTransformed text:\n");
    out.append(string_mutation);
    out.append("\n---------------------------");
    proof {
        assert(out@ =~= banner_of(string_mutation@));
    }
    out
}

/// What the consumer does with one request: a block for standard output
/// on success, a diagnostic line for the error stream on failure.
pub enum ConsumerOutput {
    Printed(String),
    Reported(String),
}

/// The consumer's obligation for one request: the banner around the
/// transformed text when the transformation succeeds, its diagnostic
/// line when it fails.
pub open spec fn output_matches(req: Request, out: ConsumerOutput) -> bool {
    match transform_spec(req.command, req.text@) {
        Ok(t) => out matches ConsumerOutput::Printed(p) && p@ == banner_of(t),
        Err(e) => out matches ConsumerOutput::Reported(m) && m@ == transform_error_message(e),
    }
}

/// Processes one request: applies its transformation and renders either
/// the printed block or the diagnostic line. A failure is contained to
/// this request.
pub fn process(request: &Request) -> (r: ConsumerOutput)
    requires
        request.wf(),
    ensures
        output_matches(*request, r),
{
    match transform(request.command, request.text.as_str()) {
        Ok(s) => ConsumerOutput::Printed(format_output(s.as_str())),
        Err(e) => ConsumerOutput::Reported(e.message()),
    }
}

/// Processes a batch of requests in arrival order: the consumer drains
/// the channel first-in first-out, so output `i` always answers request
/// `i`, and every request is consumed exactly once.
pub fn process_all(requests: &Vec<Request>) -> (r: Vec<ConsumerOutput>)
    requires
        forall|i: int| 0 <= i < requests@.len() ==> (#[trigger] requests@[i]).wf(),
    ensures
        r@.len() == requests@.len(),
        forall|i: int|
            0 <= i < requests@.len() ==> output_matches(requests@[i], #[trigger] r@[i]),
{
    let mut out: Vec<ConsumerOutput> = Vec::new();
    let mut i: usize = 0;
    while i < requests.len()
        invariant
            i <= requests@.len(),
            out@.len() == i,
            forall|j: int| 0 <= j < requests@.len() ==> (#[trigger] requests@[j]).wf(),
            forall|j: int|
                0 <= j < i ==> output_matches(requests@[j], #[trigger] out@[j]),
        decreases requests@.len() - i,
    {
        let o = process(&requests[i]);
        out.push(o);
        i = i + 1;
    }
    out
}

/// A line of input as the producer sees it: without its terminating line
/// feed, and without a carriage return before that line feed.
pub open spec fn strip_eol(s: Seq<char>) -> Seq<char> {
    if s.len() > 0 && s.last() == '\n' {
        let t = s.drop_last();
        if t.len() > 0 && t.last() == '\r' {
            t.drop_last()
        } else {
            t
        }
    } else {
        s
    }
}

/// Removes one trailing line terminator, as a line reader leaves it.
pub fn strip_line_ending(line: &str) -> (r: String)
    ensures
        r@ == strip_eol(line@),
{
    let n: usize = line.unicode_len();
    if n > 0 && line.get_char(n - 1) == '\n' {
        if n > 1 && line.get_char(n - 2) == '\r' {
            let head = line.substring_char(0, n - 2);
            proof {
                assert(line@.subrange(0, n - 2) =~= line@.drop_last().drop_last());
            }
            String::from_str(head)
        } else {
            let head = line.substring_char(0, n - 1);
            proof {
                assert(line@.subrange(0, n - 1) =~= line@.drop_last());
            }
            String::from_str(head)
        }
    } else {
        String::from_str(line)
    }
}

} // verus!
