//! The decisions of the worker program that the bootstrap protocol starts on
//! a host: which command its arguments ask for, and its exit status.

use vstd::prelude::*;
use crate::model::string_views;
use crate::text::str_eq;

verus! {

/// What the worker's arguments ask for.
#[derive(Debug, Clone, Copy, PartialEq, Eq, Structural)]
pub enum WorkerCommand {
    /// `--accept VERSION`: whether `VERSION` is this worker's version.
    Accept { accepted: bool },
    /// `--start`: announce `U` and serve.
    Start,
    /// Anything else: print the usage.
    Usage,
}

/// The command that `args` (the program path first) ask of a worker of
/// `version`.
pub open spec fn worker_command_spec(args: Seq<Seq<char>>, version: Seq<char>) -> WorkerCommand {
    if args.len() < 2 {
        WorkerCommand::Usage
    } else if args[1] == "--accept"@ {
        WorkerCommand::Accept { accepted: args[2] == version }
    } else if args[1] == "--start"@ {
        WorkerCommand::Start
    } else {
        WorkerCommand::Usage
    }
}

/// Whether the arguments are complete: the program path is there, and
/// `--accept` is followed by a version.
pub open spec fn worker_args_complete(args: Seq<Seq<char>>) -> bool {
    &&& args.len() >= 1
    &&& args.len() >= 2 && args[1] == "--accept"@ ==> args.len() >= 3
}

/// What each argument list asks for: `--start` as the second argument
/// starts the worker whatever follows it (the bootstrap line runs exactly
/// `worker --start`); `--accept V` accepts exactly when `V` is the worker's
/// version; any other second argument, or none, asks for the usage.
pub proof fn lemma_worker_commands(args: Seq<Seq<char>>, version: Seq<char>)
    requires
        worker_args_complete(args),
    ensures
        args.len() == 1 ==> worker_command_spec(args, version) == WorkerCommand::Usage,
        args.len() >= 2 && args[1] == "--start"@ ==> worker_command_spec(args, version)
            == WorkerCommand::Start,
        args.len() >= 2 && args[1] == "--accept"@ ==> worker_command_spec(args, version)
            == (WorkerCommand::Accept { accepted: args[2] == version }),
        args.len() >= 2 && args[1] != "--start"@ && args[1] != "--accept"@ ==> worker_command_spec(
            args,
            version,
        ) == WorkerCommand::Usage,
        args == seq![args[0], "--start"@] ==> worker_command_spec(args, version)
            == WorkerCommand::Start,
{
    reveal_strlit("--start");
    reveal_strlit("--accept");
    assert("--start"@ != "--accept"@) by {
        assert("--start"@[2] != "--accept"@[2]);
    }
}

/// The command that `args` (the program path first) ask of a worker of
/// `version`. Arguments after the first command and its operand are ignored.
pub fn worker_command(args: &Vec<String>, version: &str) -> (cmd: WorkerCommand)
    requires
        worker_args_complete(string_views(args@)),
    ensures
        cmd == worker_command_spec(string_views(args@), version@),
{
    assert(string_views(args@).len() == args@.len());
    if args.len() < 2 {
        return WorkerCommand::Usage;
    }
    assert(string_views(args@)[1] == args@[1]@);
    if str_eq(args[1].as_str(), "--accept") {
        assert(string_views(args@)[2] == args@[2]@);
        let accepted = str_eq(args[2].as_str(), version);
        WorkerCommand::Accept { accepted }
    } else if str_eq(args[1].as_str(), "--start") {
        WorkerCommand::Start
    } else {
        WorkerCommand::Usage
    }
}

/// The exit status for a command that ran to its end: 0 for an accepted
/// version or a finished start, 4 for a refused version, 2 after the usage.
pub fn exit_code(cmd: WorkerCommand) -> (code: i32)
    ensures
        code == match cmd {
            WorkerCommand::Accept { accepted } => if accepted {
                0i32
            } else {
                4i32
            },
            WorkerCommand::Start => 0i32,
            WorkerCommand::Usage => 2i32,
        },
{
    match cmd {
        WorkerCommand::Accept { accepted } => if accepted {
            0
        } else {
            4
        },
        WorkerCommand::Start => 0,
        WorkerCommand::Usage => 2,
    }
}

} // verus!
