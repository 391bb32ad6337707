//! The decisions of the `pulse` command line: which subcommand the
//! arguments ask for, which arguments are refused and how, what the verdict
//! report lists, and the exit status of a verdict.
//!
//! Usage:
//!   pulse snapshot              Capture a fresh host snapshot, print JSON.
//!   pulse diff A.json B.json    Compute drift (Diff) between two snapshots.
//!   pulse verdict A.json B.json [--watch PID ...]
//!                              Classify the drift as OK / WARN / ALERT.

use vstd::prelude::*;
use crate::snapshot::{connection_views, is_public, public_address, Connection, ConnectionView};
use crate::text::{decimal_u32, parse_u32, same_text};
use crate::verdict::Verdict;
use crate::watch::Diff;

verus! {

/// What the command line asks for.
#[derive(Debug)]
pub enum Command {
    /// Capture a fresh host snapshot and print it.
    Snapshot,
    /// Compute the drift between two snapshot files.
    Diff { baseline: String, current: String },
    /// Classify the drift between two snapshot files.
    Verdict { baseline: String, current: String, watched_pids: Vec<u32> },
    /// Print the usage text.
    Help,
}

/// Why the command line is refused.
#[derive(Debug)]
pub enum CliError {
    /// No subcommand at all.
    MissingSubcommand,
    /// `diff` without exactly two paths.
    DiffArity,
    /// `verdict` without its two paths.
    VerdictArity,
    /// `--watch` as the last argument.
    WatchNeedsPid,
    /// A `--watch` argument that is no PID.
    InvalidPid(String),
    /// An argument of `verdict` that is no option.
    UnexpectedArgument(String),
    /// A subcommand that does not exist.
    UnknownSubcommand(String),
}

/// The mathematical value of a [`Command`].
pub enum CommandView {
    Snapshot,
    Diff { baseline: Seq<char>, current: Seq<char> },
    Verdict { baseline: Seq<char>, current: Seq<char>, watched_pids: Seq<u32> },
    Help,
}

/// The mathematical value of a [`CliError`].
pub enum CliErrorView {
    MissingSubcommand,
    DiffArity,
    VerdictArity,
    WatchNeedsPid,
    InvalidPid(Seq<char>),
    UnexpectedArgument(Seq<char>),
    UnknownSubcommand(Seq<char>),
}

impl View for Command {
    type V = CommandView;

    open spec fn view(&self) -> CommandView {
        match self {
            Command::Snapshot => CommandView::Snapshot,
            Command::Diff { baseline, current } => CommandView::Diff {
                baseline: baseline@,
                current: current@,
            },
            Command::Verdict { baseline, current, watched_pids } => CommandView::Verdict {
                baseline: baseline@,
                current: current@,
                watched_pids: watched_pids@,
            },
            Command::Help => CommandView::Help,
        }
    }
}

impl View for CliError {
    type V = CliErrorView;

    open spec fn view(&self) -> CliErrorView {
        match self {
            CliError::MissingSubcommand => CliErrorView::MissingSubcommand,
            CliError::DiffArity => CliErrorView::DiffArity,
            CliError::VerdictArity => CliErrorView::VerdictArity,
            CliError::WatchNeedsPid => CliErrorView::WatchNeedsPid,
            CliError::InvalidPid(a) => CliErrorView::InvalidPid(a@),
            CliError::UnexpectedArgument(a) => CliErrorView::UnexpectedArgument(a@),
            CliError::UnknownSubcommand(a) => CliErrorView::UnknownSubcommand(a@),
        }
    }
}

/// The value of an outcome of [`parse_command`].
pub open spec fn outcome_view(r: Result<Command, CliError>) -> Result<CommandView, CliErrorView> {
    match r {
        Ok(c) => Ok(c@),
        Err(e) => Err(e@),
    }
}

/// The texts of the arguments.
pub open spec fn arg_views(args: Seq<String>) -> Seq<Seq<char>> {
    args.map_values(|a: String| a@)
}

/// The pids that the options `rest` of `verdict` watch: each option is
/// `--watch` or `-w` followed by a PID; anything else is refused.
pub open spec fn watch_list(rest: Seq<Seq<char>>) -> Result<Seq<u32>, CliErrorView>
    decreases rest.len(),
{
    if rest.len() == 0 {
        Ok(Seq::empty())
    } else if rest[0] == "--watch"@ || rest[0] == "-w"@ {
        if rest.len() < 2 {
            Err(CliErrorView::WatchNeedsPid)
        } else {
            match decimal_u32(rest[1]) {
                None => Err(CliErrorView::InvalidPid(rest[1])),
                Some(pid) => match watch_list(rest.skip(2)) {
                    Ok(pids) => Ok(seq![pid] + pids),
                    Err(e) => Err(e),
                },
            }
        }
    } else {
        Err(CliErrorView::UnexpectedArgument(rest[0]))
    }
}

/// What the arguments (without the program name) ask for.
pub open spec fn command_of(args: Seq<Seq<char>>) -> Result<CommandView, CliErrorView> {
    if args.len() == 0 {
        Err(CliErrorView::MissingSubcommand)
    } else if args[0] == "snapshot"@ {
        Ok(CommandView::Snapshot)
    } else if args[0] == "diff"@ {
        if args.len() != 3 {
            Err(CliErrorView::DiffArity)
        } else {
            Ok(CommandView::Diff { baseline: args[1], current: args[2] })
        }
    } else if args[0] == "verdict"@ {
        if args.len() < 3 {
            Err(CliErrorView::VerdictArity)
        } else {
            match watch_list(args.skip(3)) {
                Ok(pids) => Ok(
                    CommandView::Verdict { baseline: args[1], current: args[2], watched_pids: pids },
                ),
                Err(e) => Err(e),
            }
        }
    } else if args[0] == "help"@ || args[0] == "--help"@ || args[0] == "-h"@ {
        Ok(CommandView::Help)
    } else {
        Err(CliErrorView::UnknownSubcommand(args[0]))
    }
}

/// A copy of a text.
fn copy_text(s: &String) -> (r: String)
    ensures
        r@ == s@,
{
    s.clone()
}

/// The pids watched by the options `args[3..]` of `verdict`.
fn parse_watch_list(args: &Vec<String>) -> (r: Result<Vec<u32>, CliError>)
    requires
        args.len() >= 3,
    ensures
        match r {
            Ok(pids) => watch_list(arg_views(args@).skip(3)) == Ok::<Seq<u32>, CliErrorView>(
                pids@,
            ),
            Err(e) => watch_list(arg_views(args@).skip(3)) == Err::<Seq<u32>, CliErrorView>(e@),
        },
{
    let ghost av = arg_views(args@);
    let mut watched: Vec<u32> = Vec::new();
    let mut i: usize = 3;
    while i < args.len()
        invariant
            av == arg_views(args@),
            3 <= i <= args.len(),
            watch_list(av.skip(3)) == match watch_list(av.skip(i as int)) {
                Ok(pids) => Ok(watched@ + pids),
                Err(e) => Err(e),
            },
        decreases args.len() - i,
    {
        let ghost rest = av.skip(i as int);
        assert(rest[0] == args@[i as int]@);
        let arg = args[i].as_str();
        if same_text(arg, "--watch") || same_text(arg, "-w") {
            if i + 1 >= args.len() {
                return Err(CliError::WatchNeedsPid);
            }
            assert(rest[1] == args@[i + 1]@);
            match parse_u32(args[i + 1].as_str()) {
                Some(pid) => {
                    assert(rest.skip(2) =~= av.skip(i + 2));
                    let ghost before = watched@;
                    watched.push(pid);
                    proof {
                        match watch_list(av.skip(i + 2)) {
                            Ok(pids) => {
                                assert(before + (seq![pid] + pids) =~= watched@ + pids);
                            },
                            Err(e) => {},
                        }
                    }
                    i += 2;
                },
                None => {
                    return Err(CliError::InvalidPid(copy_text(&args[i + 1])));
                },
            }
        } else {
            return Err(CliError::UnexpectedArgument(copy_text(&args[i])));
        }
    }
    assert(av.skip(i as int) =~= Seq::<Seq<char>>::empty());
    assert(watched@ + Seq::<u32>::empty() =~= watched@);
    Ok(watched)
}

/// Read the command line (without the program name).
pub fn parse_command(args: &Vec<String>) -> (r: Result<Command, CliError>)
    ensures
        outcome_view(r) == command_of(arg_views(args@)),
{
    let ghost av = arg_views(args@);
    if args.len() == 0 {
        return Err(CliError::MissingSubcommand);
    }
    assert(av[0] == args@[0]@);
    let sub = args[0].as_str();
    if same_text(sub, "snapshot") {
        Ok(Command::Snapshot)
    } else if same_text(sub, "diff") {
        if args.len() != 3 {
            return Err(CliError::DiffArity);
        }
        assert(av[1] == args@[1]@ && av[2] == args@[2]@);
        Ok(Command::Diff { baseline: copy_text(&args[1]), current: copy_text(&args[2]) })
    } else if same_text(sub, "verdict") {
        if args.len() < 3 {
            return Err(CliError::VerdictArity);
        }
        assert(av[1] == args@[1]@ && av[2] == args@[2]@);
        match parse_watch_list(args) {
            Ok(watched_pids) => Ok(
                Command::Verdict {
                    baseline: copy_text(&args[1]),
                    current: copy_text(&args[2]),
                    watched_pids,
                },
            ),
            Err(e) => Err(e),
        }
    } else if same_text(sub, "help") || same_text(sub, "--help") || same_text(sub, "-h") {
        Ok(Command::Help)
    } else {
        Err(CliError::UnknownSubcommand(copy_text(&args[0])))
    }
}

/// The refusals after which the usage text is printed as well.
pub open spec fn error_shows_usage(e: CliErrorView) -> bool {
    match e {
        CliErrorView::MissingSubcommand => true,
        CliErrorView::DiffArity => true,
        CliErrorView::VerdictArity => true,
        CliErrorView::UnknownSubcommand(_) => true,
        _ => false,
    }
}

impl CliError {
    /// Whether the usage text follows the error message.
    pub fn shows_usage(&self) -> (r: bool)
        ensures
            r == error_shows_usage(self@),
    {
        match self {
            CliError::MissingSubcommand => true,
            CliError::DiffArity => true,
            CliError::VerdictArity => true,
            CliError::UnknownSubcommand(_) => true,
            _ => false,
        }
    }
}

/// The new external connections of a drift whose remote address is public,
/// in order: the `public_external` list of the verdict report.
pub fn public_external(d: &Diff) -> (r: Vec<Connection>)
    ensures
        connection_views(r@) == d@.new_external_connections.filter(
            |c: ConnectionView| public_address(c.remote_addr),
        ),
{
    let ghost all = d@.new_external_connections;
    let ghost pred = |c: ConnectionView| public_address(c.remote_addr);
    let mut r: Vec<Connection> = Vec::new();
    let mut i: usize = 0;
    while i < d.new_external_connections.len()
        invariant
            all == d@.new_external_connections,
            pred == (|c: ConnectionView| public_address(c.remote_addr)),
            i <= d.new_external_connections.len(),
            connection_views(r@) == all.take(i as int).filter(pred),
        decreases d.new_external_connections.len() - i,
    {
        let c = &d.new_external_connections[i];
        proof {
            reveal_with_fuel(Seq::filter, 1);
            assert(all.take(i + 1).drop_last() =~= all.take(i as int));
            assert(all[i as int] == c@);
        }
        if is_public(c.remote_addr.as_str()) {
            r.push(c.clone());
        }
        i += 1;
        assert(connection_views(r@) =~= all.take(i as int).filter(pred));
    }
    assert(all.take(d.new_external_connections.len() as int) =~= all);
    r
}

/// The exit status of `pulse verdict`: 1 for ALERT, 0 for OK and WARN.
pub fn verdict_exit_code(v: Verdict) -> (code: i32)
    ensures
        code == (if v == Verdict::Alert {
            1i32
        } else {
            0i32
        }),
{
    match v {
        Verdict::Alert => 1,
        _ => 0,
    }
}

} // verus!
