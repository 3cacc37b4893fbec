use vstd::prelude::*;
use vstd::string::StringExecFns;

use crate::task::same_text;

verus! {

/// The commands of the command-line front end.
#[derive(Clone, Copy, Debug, PartialEq, Eq, Structural)]
pub enum Command {
    Edit,
    Interactive,
    Order,
    Remind,
}

/// The command that a name selects.
pub open spec fn command_named(s: Seq<char>) -> Option<Command> {
    if s == "edit"@ {
        Some(Command::Edit)
    } else if s == "interactive"@ {
        Some(Command::Interactive)
    } else if s == "order"@ {
        Some(Command::Order)
    } else if s == "remind"@ {
        Some(Command::Remind)
    } else {
        None
    }
}

impl Command {
    /// Reads a command name; the error names what could not be read.
    pub fn parse(s: &str) -> (r: Result<Command, String>)
        ensures
            match command_named(s@) {
                Some(c) => r == Ok::<Command, String>(c),
                None => r is Err && r->Err_0@ == "failed to parse Command from '"@ + s@ + "'"@,
            },
    {
        if same_text(s, "edit") {
            Ok(Command::Edit)
        } else if same_text(s, "interactive") {
            Ok(Command::Interactive)
        } else if same_text(s, "order") {
            Ok(Command::Order)
        } else if same_text(s, "remind") {
            Ok(Command::Remind)
        } else {
            let mut m = String::from_str("failed to parse Command from '");
            m.append(s);
            m.append("'");
            Err(m)
        }
    }
}

impl std::str::FromStr for Command {
    type Err = String;

    fn from_str(s: &str) -> Result<Command, String> {
        Command::parse(s)
    }
}

} // verus!
