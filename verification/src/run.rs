//! A run, step by step. The run reads no file and writes none: it says
//! which file it wants read or written, and goes on when it is told how
//! that went.

use vstd::prelude::*;
use crate::camel::lowercase;
use crate::command::{read_failure_text, write_failure_text, Command, Error};
use crate::config::{build, Config, ConfigView};
use crate::transform::{
    ccus, conversion_of, convert, join_lines, snake_to_camel, unchanged, Conversion,
    ConversionView,
};

verus! {

/// Where a run stands, and with it what the run asks for next.
#[derive(Debug, PartialEq, Eq)]
pub enum Run {
    /// The run asks for the contents of the input file of `config`.
    Read { config: Config },
    /// The run asks for `text` to be written to the output file of
    /// `config`, in place of what the file held. `conversion` holds the
    /// converted lines and the notices, where the command converts.
    Write { config: Config, text: String, conversion: Option<Conversion> },
    /// The run is over, and `status` says how it went.
    Done { status: String },
}

/// What happened to a request of a run. An error comes with its
/// description.
#[derive(Debug, PartialEq, Eq)]
pub enum Event {
    /// The input file was read, or could not be read.
    Read(Result<String, String>),
    /// The output file was written, or could not be written.
    Written(Result<(), String>),
}

/// A `Run` with its texts as character sequences.
pub enum RunView {
    Read { config: ConfigView },
    Write { config: ConfigView, text: Seq<char>, conversion: Option<ConversionView> },
    Done { status: Seq<char> },
}

/// An `Event` with its texts as character sequences.
pub enum EventView {
    Read(Result<Seq<char>, Seq<char>>),
    Written(Result<(), Seq<char>>),
}

impl View for Run {
    type V = RunView;

    open spec fn view(&self) -> RunView {
        match self {
            Run::Read { config } => RunView::Read { config: config@ },
            Run::Write { config, text, conversion } => RunView::Write {
                config: config@,
                text: text@,
                conversion: match conversion {
                    Some(c) => Some(c@),
                    None => None,
                },
            },
            Run::Done { status } => RunView::Done { status: status@ },
        }
    }
}

impl View for Event {
    type V = EventView;

    open spec fn view(&self) -> EventView {
        match self {
            Event::Read(Ok(contents)) => EventView::Read(Ok(contents@)),
            Event::Read(Err(cause)) => EventView::Read(Err(cause@)),
            Event::Written(Ok(())) => EventView::Written(Ok(())),
            Event::Written(Err(cause)) => EventView::Written(Err(cause@)),
        }
    }
}

/// The status of a run that went well.
pub open spec fn success_text() -> Seq<char> {
    "Ok"@
}

/// The text that `command` makes of `contents`.
pub open spec fn transformed(command: Command, contents: Seq<char>, line_ending: Seq<char>) -> Seq<
    char,
> {
    match command {
        Command::USCC => snake_to_camel(contents, line_ending),
        Command::CCUS => unchanged(contents),
    }
}

/// Where a run with these arguments begins: it asks for the input file, or
/// it is over at once because the arguments are refused.
pub open spec fn started(args: Seq<Seq<char>>) -> RunView {
    match build(args) {
        Ok(config) => RunView::Read { config },
        Err(e) => RunView::Done { status: e.text() },
    }
}

/// Where a run stands after `event`.
///
/// A run that asked for the input file and got its contents asks for the
/// whole transformed text to be written; one that did not get them is over.
/// A run that asked for the output file to be written is over, well or
/// not. An event that the run did not ask for changes nothing.
pub open spec fn stepped(run: RunView, event: EventView, line_ending: Seq<char>) -> RunView {
    match (run, event) {
        (RunView::Read { config }, EventView::Read(Ok(contents))) => RunView::Write {
            config,
            text: transformed(config.command, contents, line_ending),
            conversion: match config.command {
                Command::USCC => Some(conversion_of(contents)),
                Command::CCUS => None,
            },
        },
        (RunView::Read { config }, EventView::Read(Err(cause))) => RunView::Done {
            status: read_failure_text(cause),
        },
        (RunView::Write { .. }, EventView::Written(Ok(()))) => RunView::Done {
            status: success_text(),
        },
        (RunView::Write { config, .. }, EventView::Written(Err(cause))) => RunView::Done {
            status: write_failure_text(config.out_file, cause),
        },
        _ => run,
    }
}

impl Run {
    /// Begins a run with the arguments of the program, the command word
    /// first.
    pub fn start(args: &[String]) -> (run: Run)
        ensures
            run@ == started(args.deep_view()),
    {
        match Config::new(args) {
            Ok(config) => Run::Read { config },
            Err(e) => Run::Done { status: e.message() },
        }
    }

    /// Takes the run one step on: `event` says what became of the request
    /// that the run stood at. `line_ending` is what the snake-to-camel
    /// transform puts between the lines of its output.
    pub fn step(self, event: Event, line_ending: &str) -> (next: Run)
        ensures
            next@ == stepped(self@, event@, line_ending@),
    {
        match self {
            Run::Read { config } => match event {
                Event::Read(Ok(contents)) => match config.command {
                    Command::USCC => {
                        let conversion = convert(contents.as_str());
                        let text = join_lines(&conversion.lines, line_ending);
                        Run::Write { config, text, conversion: Some(conversion) }
                    },
                    Command::CCUS => Run::Write { config, text: ccus(contents), conversion: None },
                },
                Event::Read(Err(cause)) => {
                    let error = Error::InputReadFailure { cause };
                    Run::Done { status: error.message() }
                },
                Event::Written(_) => Run::Read { config },
            },
            Run::Write { config, text, conversion } => match event {
                Event::Written(Ok(())) => Run::Done { status: "Ok".to_owned() },
                Event::Written(Err(cause)) => {
                    let error = Error::OutputWriteFailure { path: config.out_file, cause };
                    Run::Done { status: error.message() }
                },
                Event::Read(_) => Run::Write { config, text, conversion },
            },
            Run::Done { status } => Run::Done { status },
        }
    }
}

/// Where a run ends, if its first request is answered by `read` and its
/// second, if it makes one, by `written`.
pub open spec fn finished(
    args: Seq<Seq<char>>,
    read: Result<Seq<char>, Seq<char>>,
    written: Result<(), Seq<char>>,
    line_ending: Seq<char>,
) -> RunView {
    stepped(
        stepped(started(args), EventView::Read(read), line_ending),
        EventView::Written(written),
        line_ending,
    )
}

/// A run without arguments is over at once, and says that arguments are
/// missing.
pub proof fn lemma_no_arguments(args: Seq<Seq<char>>)
    requires
        args.len() == 0,
    ensures
        started(args) == (RunView::Done { status: "Not enough arguments"@ }),
{
}

/// A run whose only argument names neither command is over at once, and
/// says that the command is unknown.
pub proof fn lemma_unknown_command(token: Seq<char>)
    requires
        lowercase(token) != "uscc"@,
        lowercase(token) != "ccus"@,
    ensures
        started(seq![token]) == (RunView::Done { status: "Unknown command"@ }),
{
}

/// Every run ends after its two requests at the latest, and its status
/// tells how: the arguments were refused, the input file could not be
/// read, the output file could not be written, or all went well. A run
/// whose input file was read asks for the whole transformed text to be
/// written, and for nothing less.
pub proof fn lemma_run_outcome(
    args: Seq<Seq<char>>,
    read: Result<Seq<char>, Seq<char>>,
    written: Result<(), Seq<char>>,
    line_ending: Seq<char>,
)
    ensures
        finished(args, read, written, line_ending) == (RunView::Done {
            status: match build(args) {
                Err(e) => e.text(),
                Ok(config) => match read {
                    Err(cause) => read_failure_text(cause),
                    Ok(contents) => match written {
                        Err(cause) => write_failure_text(config.out_file, cause),
                        Ok(()) => success_text(),
                    },
                },
            },
        }),
        match (build(args), read) {
            (Ok(config), Ok(contents)) => match stepped(
                started(args),
                EventView::Read(read),
                line_ending,
            ) {
                RunView::Write { config: asked, text, .. } => asked == config && text
                    == transformed(config.command, contents, line_ending),
                _ => false,
            },
            _ => true,
        },
{
}

} // verus!
