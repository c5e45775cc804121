//! The commands of the command line, by name.

use vstd::prelude::*;
use vstd::string::*;

use crate::text::same_text;
use crate::types::EditorEvent;

verus! {

/// What a command does when it is run.
#[derive(Clone, Copy, Debug, PartialEq, Eq, Structural)]
pub enum CommandFn {
    /// Asks the application to quit.
    Quit,
    /// Talks to the language server: `start <name>` asks the application to
    /// start the server `<name>`.
    Lsp,
}

#[derive(Clone, Debug)]
pub struct Command {
    pub name: String,
    pub description: String,
    pub execute: CommandFn,
}

/// `parts` joined by single spaces.
pub open spec fn spaced(parts: Seq<String>) -> Seq<char>
    decreases parts.len(),
{
    if parts.len() == 0 {
        Seq::empty()
    } else if parts.len() == 1 {
        parts[0]@
    } else {
        spaced(parts.drop_last()) + seq![' '] + parts.last()@
    }
}

/// The command of the last registration under `name`.
pub open spec fn registered(commands: Seq<Command>, name: Seq<char>) -> Option<CommandFn>
    decreases commands.len(),
{
    if commands.len() == 0 {
        None
    } else if commands.last().name@ == name {
        Some(commands.last().execute)
    } else {
        registered(commands.drop_last(), name)
    }
}

/// What running `action` with `args` asks of the application.
pub open spec fn requested(action: CommandFn, args: Seq<String>, event: EditorEvent) -> bool {
    match action {
        CommandFn::Quit => event == EditorEvent::QuitRequested,
        CommandFn::Lsp => if args.len() > 0 && args[0]@ == "start"@ {
            event matches EditorEvent::StartLsp(name) && name@ == spaced(
                args.subrange(1, args.len() as int),
            )
        } else {
            event == EditorEvent::Idle
        },
    }
}

/// The commands that were registered; a later registration under a name
/// replaces an earlier one.
pub struct CommandManager {
    pub commands: Vec<Command>,
}

impl CommandManager {
    pub fn new() -> (m: Self)
        ensures
            m.commands@.len() == 0,
    {
        Self { commands: Vec::new() }
    }

    /// Registers no command: the commands of the editor are registered by
    /// the application.
    pub fn register_commands(&mut self)
        ensures
            *final(self) == *old(self),
    {
    }

    pub fn register(&mut self, cmd: Command)
        ensures
            final(self).commands@ == old(self).commands@.push(cmd),
    {
        self.commands.push(cmd);
    }

    /// Runs the command `name` with `args` and returns what it asks of the
    /// application; a name that is not registered asks nothing.
    pub fn execute(&mut self, name: &str, args: Vec<String>) -> (event: EditorEvent)
        ensures
            *final(self) == *old(self),
            match registered(old(self).commands@, name@) {
                Some(action) => requested(action, args@, event),
                None => event == EditorEvent::Idle,
            },
    {
        let mut i: usize = self.commands.len();
        assert(self.commands@.subrange(0, i as int) =~= self.commands@);
        while i > 0
            invariant
                i <= self.commands.len(),
                registered(self.commands@, name@) == registered(
                    self.commands@.subrange(0, i as int),
                    name@,
                ),
            decreases i,
        {
            let ghost front = self.commands@.subrange(0, i as int);
            assert(front.last() == self.commands@[i - 1]);
            assert(front.drop_last() =~= self.commands@.subrange(0, i - 1));
            i = i - 1;
            if same_text(self.commands[i].name.as_str(), name) {
                return run(self.commands[i].execute, &args);
            }
        }
        EditorEvent::Idle
    }
}

/// Runs `action` with `args`.
pub fn run(action: CommandFn, args: &Vec<String>) -> (event: EditorEvent)
    ensures
        requested(action, args@, event),
{
    match action {
        CommandFn::Quit => EditorEvent::QuitRequested,
        CommandFn::Lsp => {
            if args.len() > 0 && same_text(args[0].as_str(), "start") {
                let mut name = String::new();
                let mut i: usize = 1;
                let ghost rest = args@.subrange(1, args.len() as int);
                assert(rest.subrange(0, 0) =~= Seq::<String>::empty());
                while i < args.len()
                    invariant
                        1 <= i <= args.len(),
                        rest == args@.subrange(1, args.len() as int),
                        name@ == spaced(rest.subrange(0, i - 1)),
                    decreases args.len() - i,
                {
                    let ghost done = rest.subrange(0, i - 1);
                    let ghost next = rest.subrange(0, i as int);
                    assert(next.drop_last() =~= done);
                    assert(next.last() == args@[i as int]);
                    if i > 1 {
                        crate::text::push_char(&mut name, ' ');
                    }
                    name.append(args[i].as_str());
                    assert(name@ =~= spaced(next)) by {
                        if i == 1 {
                            assert(done.len() == 0);
                        }
                    }
                    i = i + 1;
                }
                assert(rest.subrange(0, i - 1) =~= rest);
                EditorEvent::StartLsp(name)
            } else {
                EditorEvent::Idle
            }
        },
    }
}

} // verus!
