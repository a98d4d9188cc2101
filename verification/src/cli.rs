//! Invocation parsing for the peer role driver: the two supported shapes are
//! `server PORT` (bind locally, act as responder) and `client ADDRESS`
//! (connect out, act as initiator). Malformed arguments are rejected before
//! any connection is attempted.

use vstd::prelude::*;
use vstd::string::{StringExecFns, StringSliceAdditionalSpecFns};
use vstd::utf8::encode_utf8;
use crate::hexutil::spec_parse_radix;

verus! {

/// A parsed invocation: show usage, listen as responder on a port, or
/// connect as initiator to a remote address.
#[derive(Debug, PartialEq, Eq)]
pub enum Command {
    Help,
    Server(u16),
    Client(String),
}

/// The port a decimal digit string denotes, when it fits in 16 bits.
pub open spec fn spec_parse_port(s: Seq<char>) -> Option<u16> {
    match spec_parse_radix(encode_utf8(s), 10) {
        Some(v) => if v <= 0xFFFF {
            Some(v as u16)
        } else {
            None
        },
        None => None,
    }
}

/// Parse the argument list (program name already removed). The subcommand
/// decides the shape; its required operand must follow; anything after the
/// operand is ignored, as is anything after `-h`/`--help`.
pub fn parse_command(args: &Vec<String>) -> (r: Result<Command, String>)
    ensures
        args@.len() == 0 ==> (r matches Err(m) && m@ == "missing subcommand"@),
        args@.len() > 0 && args@[0]@ == "server"@ ==> (if args@.len() < 2 {
            r matches Err(m) && m@ == "server requires PORT"@
        } else {
            match spec_parse_port(args@[1]@) {
                Some(p) => r matches Ok(c) && c matches Command::Server(q) && q == p,
                None => r matches Err(m) && m@ == "invalid PORT"@,
            }
        }),
        args@.len() > 0 && args@[0]@ == "client"@ ==> (if args@.len() < 2 {
            r matches Err(m) && m@ == "client requires ADDRESS"@
        } else {
            r matches Ok(c) && c matches Command::Client(a) && a@ == args@[1]@
        }),
        args@.len() > 0 && (args@[0]@ == "-h"@ || args@[0]@ == "--help"@) ==> (r matches Ok(c)
            && c is Help),
        args@.len() > 0 && args@[0]@ != "server"@ && args@[0]@ != "client"@ && args@[0]@ != "-h"@
            && args@[0]@ != "--help"@ ==> (r matches Err(m) && m@
            == "expected 'server PORT' or 'client ADDRESS'"@),
{
    proof {
        reveal_strlit("server");
        reveal_strlit("client");
        reveal_strlit("-h");
        reveal_strlit("--help");
        assert("server"@.len() == 6 && "client"@.len() == 6 && "-h"@.len() == 2 && "--help"@.len()
            == 6);
        assert("server"@[0] == 's' && "client"@[0] == 'c' && "--help"@[0] == '-');
        assert("server"@ != "client"@);
        assert("server"@ != "-h"@);
        assert("server"@ != "--help"@);
        assert("client"@ != "-h"@);
        assert("client"@ != "--help"@);
        assert("-h"@ != "--help"@);
    }
    if args.len() == 0 {
        return Err("missing subcommand".to_owned());
    }
    let first: &String = &args[0];
    let server_word: String = "server".to_owned();
    let client_word: String = "client".to_owned();
    let help_short: String = "-h".to_owned();
    let help_long: String = "--help".to_owned();
    if first.eq(&server_word) {
        if args.len() < 2 {
            return Err("server requires PORT".to_owned());
        }
        let digits = args[1].as_str().as_bytes();
        match crate::hexutil::parse_radix(digits, 10) {
            Some(v) => {
                if v <= 0xFFFF {
                    Ok(Command::Server(v as u16))
                } else {
                    Err("invalid PORT".to_owned())
                }
            },
            None => Err("invalid PORT".to_owned()),
        }
    } else if first.eq(&client_word) {
        if args.len() < 2 {
            return Err("client requires ADDRESS".to_owned());
        }
        Ok(Command::Client(args[1].clone()))
    } else if first.eq(&help_short) || first.eq(&help_long) {
        Ok(Command::Help)
    } else {
        Err("expected 'server PORT' or 'client ADDRESS'".to_owned())
    }
}

} // verus!
