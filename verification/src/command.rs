//! The editor's ex-style commands: the registry of names and aliases,
//! and what running a command asks the application to do.

use vstd::prelude::*;

verus! {

/// One named command with its aliases and argument names.
pub struct Command {
    pub name: String,
    pub aliases: Vec<String>,
    pub args: Vec<String>,
}

impl Command {
    pub fn new(name: String, aliases: Vec<String>, args: Vec<String>) -> (c: Self)
        ensures
            c.name == name,
            c.aliases == aliases,
            c.args == args,
    {
        Self { name, aliases, args }
    }
}

/// The registry of commands the prompt understands, in a fixed order.
pub struct Commands {
    pub commands: Vec<Command>,
}

impl Commands {
    /// The built-in registry: `quit` (alias `q`) and `save` (alias `w`).
    pub fn new() -> (r: Self)
        ensures
            r.commands@.len() == 2,
            r.commands@[0].name@ == "quit"@,
            r.commands@[0].aliases@.len() == 1,
            r.commands@[0].aliases@[0]@ == "q"@,
            r.commands@[0].args@.len() == 0,
            r.commands@[1].name@ == "save"@,
            r.commands@[1].aliases@.len() == 1,
            r.commands@[1].aliases@[0]@ == "w"@,
            r.commands@[1].args@.len() == 0,
    {
        let mut commands: Vec<Command> = Vec::new();
        let mut quit_aliases: Vec<String> = Vec::new();
        quit_aliases.push("q".to_owned());
        commands.push(Command::new("quit".to_owned(), quit_aliases, Vec::new()));
        let mut save_aliases: Vec<String> = Vec::new();
        save_aliases.push("w".to_owned());
        commands.push(Command::new("save".to_owned(), save_aliases, Vec::new()));
        Self { commands }
    }
}

/// What a command, once parsed, asks the surrounding application to do.
#[derive(PartialEq, Eq, Clone, Copy, Structural, Debug)]
pub enum CommandResult {
    Quit,
    Save,
    Unrecognized,
}

} // verus!
