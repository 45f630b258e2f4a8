//! The launcher's command-line options.

use vstd::prelude::*;
use vstd::string::*;
use crate::text::{same_text, parse_u16, u16_of};

verus! {

/// How children are launched: whether their output is captured and tagged,
/// and the port, if any, handed to the backend.
#[derive(Clone, Copy, Debug, PartialEq, Eq, Structural)]
pub struct ParsedArgs {
    pub distinguish_child_stdouts: bool,
    pub server_alternate_port: Option<u16>,
}

/// A token that was skipped, by its position in the argument list.
#[derive(Clone, Copy, Debug, PartialEq, Eq, Structural)]
pub enum ArgWarning {
    /// The port option had no value, or one that is not a port number.
    InvalidPort { position: usize },
    /// A token that names no option.
    InvalidArgument { position: usize },
}

/// The options before any token is read: output captured, no port.
pub open spec fn default_args() -> ParsedArgs {
    ParsedArgs { distinguish_child_stdouts: true, server_alternate_port: None }
}

/// The tokens that turn output capture off.
pub open spec fn is_inherit_flag(t: Seq<char>) -> bool {
    t == "inherit_stdouts"@ || t == "-m"@
}

/// The tokens that introduce a backend port.
pub open spec fn is_port_flag(t: Seq<char>) -> bool {
    t == "backend_port"@ || t == "-bp"@
}

/// The options and warnings that reading `argv` from position `i` onwards
/// gives, starting from `cfg` and `warns`. A port option always consumes
/// the token after it, valid or not.
pub open spec fn parse_tokens(
    argv: Seq<String>,
    i: int,
    cfg: ParsedArgs,
    warns: Seq<ArgWarning>,
) -> (ParsedArgs, Seq<ArgWarning>)
    decreases argv.len() + 1 - i,
{
    if i < 0 || i >= argv.len() {
        (cfg, warns)
    } else if is_inherit_flag(argv[i]@) {
        parse_tokens(argv, i + 1, ParsedArgs { distinguish_child_stdouts: false, ..cfg }, warns)
    } else if is_port_flag(argv[i]@) {
        if i + 1 < argv.len() && u16_of(argv[i + 1]@) is Some {
            parse_tokens(
                argv,
                i + 2,
                ParsedArgs { server_alternate_port: u16_of(argv[i + 1]@), ..cfg },
                warns,
            )
        } else {
            parse_tokens(
                argv,
                i + 2,
                cfg,
                warns.push(ArgWarning::InvalidPort { position: #[verifier::truncate] (i as usize) }),
            )
        }
    } else {
        parse_tokens(
            argv,
            i + 1,
            cfg,
            warns.push(ArgWarning::InvalidArgument { position: #[verifier::truncate] (i as usize) }),
        )
    }
}

impl ParsedArgs {
    /// Reads the options from a process's argument list; its first entry,
    /// the program's name, is skipped. Unknown tokens and bad port values
    /// are reported and otherwise ignored.
    pub fn parse(argv: &Vec<String>) -> (r: (ParsedArgs, Vec<ArgWarning>))
        ensures
            (r.0, r.1@) == parse_tokens(argv@, 1, default_args(), Seq::empty()),
    {
        let mut cfg = ParsedArgs { distinguish_child_stdouts: true, server_alternate_port: None };
        let mut warns: Vec<ArgWarning> = Vec::new();
        let mut i: usize = 1;
        let n = argv.len();
        while i < n
            invariant
                n == argv@.len(),
                1 <= i,
                parse_tokens(argv@, 1, default_args(), Seq::empty()) == parse_tokens(
                    argv@,
                    i as int,
                    cfg,
                    warns@,
                ),
            decreases n - i,
        {
            let t = argv[i].as_str();
            if same_text(t, "inherit_stdouts") || same_text(t, "-m") {
                cfg = ParsedArgs { distinguish_child_stdouts: false, ..cfg };
                i = i + 1;
            } else if same_text(t, "backend_port") || same_text(t, "-bp") {
                let port = if i + 1 < n {
                    parse_u16(argv[i + 1].as_str())
                } else {
                    None
                };
                if port.is_some() {
                    cfg = ParsedArgs { server_alternate_port: port, ..cfg };
                } else {
                    warns.push(ArgWarning::InvalidPort { position: i });
                }
                if i + 1 < n {
                    i = i + 2;
                } else {
                    proof {
                        reveal_with_fuel(parse_tokens, 2);
                    }
                    i = n;
                }
            } else {
                warns.push(ArgWarning::InvalidArgument { position: i });
                i = i + 1;
            }
        }
        (cfg, warns)
    }
}

} // verus!
