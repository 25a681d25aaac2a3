//! Peels the executable name, an optional command and any remaining
//! arguments off an argument vector.
use crate::text::texts;
use vstd::prelude::*;

verus! {

/// Holds `argv[0]`, an optional command, and any remaining args.
#[derive(Debug, Clone)]
pub struct ExecutableArgs {
    /// The executable itself (`argv[0]`).
    pub executable: Option<String>,
    /// The first actual argument for command style program
    pub command: Option<String>,
    /// Everything else, if any.
    pub remaining_args: Vec<String>,
}

/// What an [`ExecutableArgs`] holds, as text.
pub struct ArgsModel {
    pub executable: Option<Seq<char>>,
    pub command: Option<Seq<char>>,
    pub remaining: Seq<Seq<char>>,
}

/// How an argument vector is divided: the first argument is the executable,
/// the second is the command when one is asked for, the others remain.
/// A vector that is too short leaves the later parts empty.
pub open spec fn split_args(with_command: bool, args: Seq<Seq<char>>) -> ArgsModel {
    let taken: int = if with_command { 2 } else { 1 };
    ArgsModel {
        executable: if args.len() >= 1 { Some(args[0]) } else { None },
        command: if with_command && args.len() >= 2 { Some(args[1]) } else { None },
        remaining: if args.len() > taken { args.subrange(taken, args.len() as int) } else { Seq::empty() },
    }
}

impl View for ExecutableArgs {
    type V = ArgsModel;

    open spec fn view(&self) -> ArgsModel {
        ArgsModel {
            executable: match self.executable {
                Some(s) => Some(s@),
                None => None,
            },
            command: match self.command {
                Some(s) => Some(s@),
                None => None,
            },
            remaining: texts(self.remaining_args@),
        }
    }
}

impl ExecutableArgs {
    /// Parse from an argument vector, with or without a command.
    pub fn from_iter(with_command: bool, args: Vec<String>) -> (parsed: Self)
        ensures
            parsed@ == split_args(with_command, texts(args@)),
    {
        let mut rest = args;
        let executable = if rest.len() > 0 { Some(rest.remove(0)) } else { None };
        let command = if with_command && rest.len() > 0 { Some(rest.remove(0)) } else { None };
        let parsed = ExecutableArgs { executable, command, remaining_args: rest };
        assert(parsed@.remaining =~= split_args(with_command, texts(args@)).remaining);
        parsed
    }

    /// Was there an `argv[0]`?
    pub fn has_executable(&self) -> (present: bool)
        ensures
            present == self@.executable.is_some(),
    {
        self.executable.is_some()
    }

    /// Was there a command?
    pub fn has_command(&self) -> (present: bool)
        ensures
            present == self@.command.is_some(),
    {
        self.command.is_some()
    }

    /// Get count of args after the command.
    pub fn args_count(&self) -> (count: usize)
        ensures
            count == self@.remaining.len(),
    {
        self.remaining_args.len()
    }
}

} // verus!
