//! The description of a command that runs inside a root. Nothing here starts
//! a process: the description says what to start and how.

use vstd::prelude::*;
use crate::environment::{Environment, EnvironmentView, Variables};

verus! {

/// What becomes of an output stream of the command.
#[derive(Clone, Copy, Debug, PartialEq, Eq, Structural)]
pub enum Stream {
    /// The command writes where its parent writes.
    Inherited,
    /// The output is captured for the parent to read.
    Piped,
}

/// What a [`CommandDescription`] stands for.
pub ghost struct CommandView {
    /// The program to start.
    pub program: Seq<char>,
    /// Its arguments, in order.
    pub args: Seq<Seq<char>>,
    /// The environment settings that it is started with.
    pub environment: EnvironmentView,
    /// What becomes of its standard output.
    pub stdout: Stream,
    /// What becomes of its standard error.
    pub stderr: Stream,
}

impl CommandView {
    /// The variables that the command sees when it is started from a
    /// process whose own variables are `inherited`.
    pub open spec fn variables(self, inherited: Variables) -> Variables {
        self.environment.variables(inherited)
    }
}

/// The character sequences that a sequence of owned strings stands for.
pub open spec fn strings_of(strings: Seq<String>) -> Seq<Seq<char>> {
    Seq::new(strings.len(), |i: int| strings[i]@)
}

/// The character sequences that a sequence of borrowed strings stands for.
pub open spec fn strs_of(strs: Seq<&str>) -> Seq<Seq<char>> {
    Seq::new(strs.len(), |i: int| strs[i]@)
}

/// The program that enters a root and runs a command there.
pub open spec fn entry_program() -> Seq<char> {
    "chroot"@
}

/// The command that runs `program` with `args` inside the root at `root`:
/// the entry program is handed the root, then the program, then the
/// program's arguments; both output streams are captured; the environment
/// settings are taken over as they are.
pub open spec fn chroot_command(
    root: Seq<char>,
    environment: EnvironmentView,
    program: Seq<char>,
    args: Seq<Seq<char>>,
) -> CommandView {
    CommandView {
        program: entry_program(),
        args: seq![root, program] + args,
        environment,
        stdout: Stream::Piped,
        stderr: Stream::Piped,
    }
}

/// A command, ready to be handed to whatever starts processes.
#[derive(Debug)]
pub struct CommandDescription {
    /// The program to start.
    pub program: String,
    /// Its arguments, in order.
    pub args: Vec<String>,
    /// The environment settings that it is started with.
    pub environment: Environment,
    /// What becomes of its standard output.
    pub stdout: Stream,
    /// What becomes of its standard error.
    pub stderr: Stream,
}

impl View for CommandDescription {
    type V = CommandView;

    open spec fn view(&self) -> CommandView {
        CommandView {
            program: self.program@,
            args: strings_of(self.args@),
            environment: self.environment@,
            stdout: self.stdout,
            stderr: self.stderr,
        }
    }
}

impl CommandDescription {
    /// Describes the command that runs `program` with `args` inside the
    /// root at `root`, under the given environment settings.
    pub fn chroot(root: &str, environment: &Environment, program: &str, args: &[&str]) -> (command:
        CommandDescription)
        ensures
            command@ == chroot_command(root@, environment@, program@, strs_of(args@)),
    {
        let mut all: Vec<String> = Vec::new();
        all.push(root.to_owned());
        all.push(program.to_owned());
        let ghost wanted = seq![root@, program@] + strs_of(args@);
        let mut i: usize = 0;
        assert(strings_of(all@) =~= wanted.take(2));
        while i < args.len()
            invariant
                i <= args@.len(),
                all@.len() == i + 2,
                wanted == seq![root@, program@] + strs_of(args@),
                strings_of(all@) == wanted.take(i + 2),
            decreases args@.len() - i,
        {
            let ghost before = all@;
            all.push(args[i].to_owned());
            assert forall|j: int| 0 <= j < i + 3 implies strings_of(all@)[j] == wanted[j] by {
                if j < i + 2 {
                    assert(all@[j] == before[j]);
                    assert(strings_of(before)[j] == wanted.take(i + 2)[j]);
                } else {
                    assert(wanted[j] == strs_of(args@)[j - 2]);
                }
            }
            assert(strings_of(all@) =~= wanted.take(i + 3));
            i += 1;
        }
        assert(wanted.take(i + 2) =~= wanted);
        CommandDescription {
            program: "chroot".to_owned(),
            args: all,
            environment: environment.duplicate(),
            stdout: Stream::Piped,
            stderr: Stream::Piped,
        }
    }

    /// The value that the command's own settings give the variable `key`:
    /// that of the last override that sets it, if any does.
    pub fn env_value(&self, key: &str) -> (value: Option<String>)
        ensures
            match value {
                Some(found) => crate::environment::last_write(self@.environment.overrides, key@)
                    == Some(found@),
                None => crate::environment::last_write(self@.environment.overrides, key@).is_none(),
            },
    {
        self.environment.get(key)
    }
}

} // verus!
