//! What a run is told to do: the command and the two files.

use vstd::prelude::*;
use crate::command::{resolve, Command, Error};

verus! {

/// The command of a run, the file it reads and the file it writes.
#[derive(Debug, PartialEq, Eq)]
pub struct Config {
    /// The transform to apply.
    pub command: Command,
    /// The file to read; `in.txt` where the arguments name none.
    pub inp_file: String,
    /// The file to write; `out.txt` where the arguments name none.
    pub out_file: String,
}

/// A `Config` with its file names as character sequences.
pub struct ConfigView {
    pub command: Command,
    pub inp_file: Seq<char>,
    pub out_file: Seq<char>,
}

impl View for Config {
    type V = ConfigView;

    open spec fn view(&self) -> ConfigView {
        ConfigView { command: self.command, inp_file: self.inp_file@, out_file: self.out_file@ }
    }
}

/// The input file of a run that names none.
pub open spec fn default_input() -> Seq<char> {
    "in.txt"@
}

/// The output file of a run that names none.
pub open spec fn default_output() -> Seq<char> {
    "out.txt"@
}

/// The configuration that the arguments ask for. The first argument is the
/// command word, the second the input file, the third the output file;
/// further arguments do not count.
pub open spec fn build(args: Seq<Seq<char>>) -> Result<ConfigView, Error> {
    if args.len() == 0 {
        Err(Error::NotEnoughArguments)
    } else {
        match resolve(args[0]) {
            None => Err(Error::UnknownCommand),
            Some(command) => Ok(
                ConfigView {
                    command,
                    inp_file: if args.len() > 1 {
                        args[1]
                    } else {
                        default_input()
                    },
                    out_file: if args.len() > 2 {
                        args[2]
                    } else {
                        default_output()
                    },
                },
            ),
        }
    }
}

/// A run that names its command and nothing else reads and writes the
/// default files.
pub proof fn lemma_default_files(token: Seq<char>)
    requires
        resolve(token) is Some,
    ensures
        build(seq![token]) == Ok::<ConfigView, Error>(
            ConfigView {
                command: resolve(token)->0,
                inp_file: default_input(),
                out_file: default_output(),
            },
        ),
{
}

impl Config {
    /// Puts a configuration together from the arguments of a run.
    pub fn new(args: &[String]) -> (r: Result<Config, Error>)
        ensures
            match r {
                Ok(config) => build(args.deep_view()) == Ok::<ConfigView, Error>(config@),
                Err(e) => build(args.deep_view()) == Err::<ConfigView, Error>(e),
            },
    {
        if args.len() < 1 {
            return Err(Error::NotEnoughArguments);
        }
        let command = match Command::new(args[0].as_str()) {
            Ok(command) => command,
            Err(e) => {
                return Err(e);
            },
        };
        let inp_file = if args.len() > 1 {
            args[1].clone()
        } else {
            "in.txt".to_owned()
        };
        let out_file = if args.len() > 2 {
            args[2].clone()
        } else {
            "out.txt".to_owned()
        };
        Ok(Config { command, inp_file, out_file })
    }
}

} // verus!
