use crate::config::Config;
use crate::error::{error_of_failure, from_failure, IoFailure, IpcError};
use crate::message::Message;
use vstd::prelude::*;
use vstd::string::*;

verus! {

/// A run of the matrix commander program: its path, its arguments and what
/// it is to read on standard input.
#[derive(Clone, Debug)]
pub struct Invocation {
    pub program: String,
    pub args: Vec<String>,
    pub input: Vec<u8>,
}

impl Invocation {
    pub open spec fn arg_views(&self) -> Seq<Seq<char>> {
        self.args@.map_values(|s: String| s@)
    }
}

/// The arguments that deliver `m` to the commander's default room.
pub open spec fn delivery_args(m: Message) -> Seq<Seq<char>> {
    match m {
        Message::Plaintext { .. } => seq!["--message"@, "-"@],
        Message::Markdown { .. } => seq!["--message"@, "-"@, "--markdown"@],
        Message::Raw { name, .. } => seq!["--file"@, "-"@, "--file-name"@, name@],
    }
}

/// The delivery side: hands decoded messages to matrix commander.
#[derive(Clone, Debug)]
pub struct Matrix {
    matrix_path: String,
}

impl Matrix {
    pub closed spec fn program(&self) -> Seq<char> {
        self.matrix_path@
    }

    /// Creates the adapter for the configured matrix commander, once the
    /// run of `whoami(config)` has shown that the program exists and is set
    /// up; where that run failed, its failure is the result.
    pub fn new(config: &Config, whoami_run: Result<(), IoFailure>) -> (r: Result<Matrix, IpcError>)
        ensures
            whoami_run matches Err(f) ==> r == Err::<Matrix, IpcError>(error_of_failure(f)),
            whoami_run is Ok ==> (r matches Ok(m) && m.program() == config.MATRIX_PATH@),
    {
        match whoami_run {
            Ok(()) => Ok(Matrix { matrix_path: config.MATRIX_PATH.clone() }),
            Err(f) => Err(from_failure(f)),
        }
    }

    /// The run that asks the configured matrix commander for its user.
    pub fn whoami(config: &Config) -> (r: Invocation)
        ensures
            r.program@ == config.MATRIX_PATH@,
            r.arg_views() == seq!["--whoami"@],
            r.input@.len() == 0,
    {
        let mut args: Vec<String> = Vec::new();
        args.push(String::from_str("--whoami"));
        assert(args@.map_values(|s: String| s@) =~= seq!["--whoami"@]);
        Invocation { program: config.MATRIX_PATH.clone(), args, input: Vec::new() }
    }

    /// The run that sends `message` to matrix commander's default room: the
    /// payload goes to its standard input.
    pub fn send(&self, message: Message) -> (r: Invocation)
        ensures
            r.program@ == self.program(),
            r.arg_views() == delivery_args(message),
            r.input@ == message.payload(),
    {
        let mut args: Vec<String> = Vec::new();
        let ghost m = message;
        let input = match message {
            Message::Plaintext { text } => {
                args.push(String::from_str("--message"));
                args.push(String::from_str("-"));
                text
            },
            Message::Markdown { markdown } => {
                args.push(String::from_str("--message"));
                args.push(String::from_str("-"));
                args.push(String::from_str("--markdown"));
                markdown
            },
            Message::Raw { name, contents } => {
                args.push(String::from_str("--file"));
                args.push(String::from_str("-"));
                args.push(String::from_str("--file-name"));
                args.push(name);
                contents
            },
        };
        assert(args@.map_values(|s: String| s@) =~= delivery_args(m));
        Invocation { program: self.matrix_path.clone(), args, input }
    }
}

} // verus!
