//! The command line.

use vstd::prelude::*;
use vstd::string::StringExecFns;

verus! {

/// What a command line asks for.
#[derive(Clone, Debug)]
pub enum Command {
    /// Run with the configuration at this path.
    Run(String),
    /// Print these lines and leave.
    Usage(Vec<&'static str>),
    /// Print this message and fail.
    Refuse(String),
}

/// What a command line asks for.
pub ghost enum Request {
    Run(Seq<char>),
    Usage(Seq<Seq<char>>),
    Refuse(Seq<char>),
}

impl View for Command {
    type V = Request;

    open spec fn view(&self) -> Request {
        match *self {
            Command::Run(path) => Request::Run(path@),
            Command::Usage(lines) => Request::Usage(
                lines@.map_values(|line: &'static str| line@),
            ),
            Command::Refuse(message) => Request::Refuse(message@),
        }
    }
}

/// The lines that explain the command line.
pub open spec fn usage_lines() -> Seq<Seq<char>> {
    seq![
        "Usage: tcp-monitor [--config <path>]"@,
        "  Default config path: /etc/tcp-monitor/config.toml"@,
        "  Log level:           LOG_LEVEL=debug (env var)"@,
    ]
}

/// What the arguments behind the program's name ask for. The first one decides;
/// only `--config` looks at the second, and none looks further.
pub open spec fn requested(args: Seq<String>) -> Request {
    if args.len() == 0 {
        Request::Run("/etc/tcp-monitor/config.toml"@)
    } else if args[0]@ == "--config"@ {
        if args.len() == 1 {
            Request::Refuse("error: --config requires a path argument"@)
        } else {
            Request::Run(args[1]@)
        }
    } else if args[0]@ == "--help"@ || args[0]@ == "-h"@ {
        Request::Usage(usage_lines())
    } else {
        Request::Refuse("error: unknown argument '"@ + args[0]@ + "'"@)
    }
}

/// Reads the arguments behind the program's name.
pub fn parse_config_path(args: &Vec<String>) -> (command: Command)
    ensures
        command@ == requested(args@),
{
    if args.len() == 0 {
        return Command::Run("/etc/tcp-monitor/config.toml".to_string());
    }
    let first = &args[0];
    if *first == "--config".to_string() {
        if args.len() == 1 {
            Command::Refuse("error: --config requires a path argument".to_string())
        } else {
            Command::Run(args[1].clone())
        }
    } else if *first == "--help".to_string() || *first == "-h".to_string() {
        let lines: Vec<&'static str> = vec![
            "Usage: tcp-monitor [--config <path>]",
            "  Default config path: /etc/tcp-monitor/config.toml",
            "  Log level:           LOG_LEVEL=debug (env var)",
        ];
        assert(lines@.map_values(|line: &'static str| line@) =~= usage_lines());
        Command::Usage(lines)
    } else {
        let mut message = "error: unknown argument '".to_string();
        message.append(first.as_str());
        message.append("'");
        Command::Refuse(message)
    }
}

/// Whoever asks for help first gets it, whatever follows.
pub proof fn law_help_is_given(args: Seq<String>)
    requires
        args.len() > 0,
        args[0]@ == "--help"@ || args[0]@ == "-h"@,
    ensures
        requested(args) == Request::Usage(usage_lines()),
{
    reveal_strlit("--config");
    reveal_strlit("--help");
    reveal_strlit("-h");
    assert("--config"@.len() == 8);
    assert("--help"@.len() == 6);
    assert("-h"@.len() == 2);
}

/// What comes behind the second argument makes no difference.
pub proof fn law_further_arguments_ignored(args: Seq<String>, more: Seq<String>)
    requires
        args.len() >= 2,
    ensures
        requested(args + more) == requested(args),
{
}

/// Without arguments the default configuration is used, and `--config` names
/// another one, whatever its path.
pub proof fn law_configuration_path(args: Seq<String>)
    ensures
        args.len() == 0 ==> requested(args) == Request::Run("/etc/tcp-monitor/config.toml"@),
        args.len() >= 2 && args[0]@ == "--config"@ ==> requested(args) == Request::Run(args[1]@),
        args.len() == 1 && args[0]@ == "--config"@ ==> requested(args) == Request::Refuse(
            "error: --config requires a path argument"@,
        ),
{
}

/// Any other first argument is refused by name.
pub proof fn law_unknown_arguments_refused(args: Seq<String>)
    requires
        args.len() > 0,
        args[0]@ != "--config"@,
        args[0]@ != "--help"@,
        args[0]@ != "-h"@,
    ensures
        requested(args) matches Request::Refuse(message) && message
            == "error: unknown argument '"@ + args[0]@ + "'"@,
{
}

/// What is done is what was asked for.
pub proof fn law_commands_as_requested(command: Command)
    ensures
        command matches Command::Run(path) ==> command@ == Request::Run(path@),
        command matches Command::Refuse(message) ==> command@ == Request::Refuse(message@),
        command matches Command::Usage(lines) ==> command@ is Usage && command@->Usage_0.len()
            == lines@.len() && forall|i: int|
            0 <= i < lines@.len() ==> #[trigger] command@->Usage_0[i] == lines@[i]@,
        command is Run <==> command@ is Run,
        command is Refuse <==> command@ is Refuse,
{
}

} // verus!
