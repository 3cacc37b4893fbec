use vstd::prelude::*;
use vstd::string::StringExecFns;

pub use crate::commands::Command;

verus! {

/// The front end's settings.
pub struct Opt {
    pub editor: String,
    pub file_format: String,
    pub root_dir: String,
    pub command: Command,
    pub args: Vec<String>,
}

/// The text has the form that tilde expansion rewrites: `~` alone or
/// followed by `/`.
pub open spec fn expands_tilde(s: Seq<char>) -> bool {
    s.len() > 0 && s[0] == '~' && (s.len() == 1 || s[1] == '/')
}

/// Relies on `shellexpand::tilde`: text of another form comes back as it is;
/// `~` or `~/...` comes back as it is where there is no home directory, or
/// with the `~` replaced by the home directory's path.
#[verifier::external_body]
fn expand_tilde(s: &str) -> (r: String)
    ensures
        !expands_tilde(s@) ==> r@ == s@,
        expands_tilde(s@) ==> exists|home: Seq<char>| r@ == home + s@.skip(1),
{
    shellexpand::tilde(s).to_string()
}

impl Opt {
    /// Settings from the parsed command line: the editor given, else the
    /// one of the environment (`env_editor`), else `vi`; the note directory
    /// with a leading `~` expanded.
    pub fn from_args(
        editor: Option<String>,
        env_editor: Option<String>,
        file_format: String,
        root_dir: String,
        command: Command,
        args: Vec<String>,
    ) -> (r: Opt)
        ensures
            r.editor@ == match (editor, env_editor) {
                (Some(e), _) => e@,
                (None, Some(e)) => e@,
                (None, None) => "vi"@,
            },
            r.file_format == file_format,
            !expands_tilde(root_dir@) ==> r.root_dir@ == root_dir@,
            expands_tilde(root_dir@) ==> exists|home: Seq<char>| r.root_dir@ == home + root_dir@.skip(1),
            r.command == command,
            r.args@ == args@,
    {
        let editor = match editor {
            Some(e) => e,
            None => match env_editor {
                Some(e) => e,
                None => String::from_str("vi"),
            },
        };
        let root_dir = expand_tilde(root_dir.as_str());
        Opt { editor, file_format, root_dir, command, args }
    }
}

} // verus!
