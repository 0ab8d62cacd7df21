//! Opening a finished download with the user's launcher.
use crate::platform::Platform;
use vstd::prelude::*;

verus! {

/// An argument of a command: a fixed text, or the path that was given.
#[derive(Debug, Clone, Copy, PartialEq, Eq)]
pub enum Arg<P> {
    Text(&'static str),
    Path(P),
}

/// Starts a program. An implementation must not wait for it to end.
pub trait Spawn<P>: Send + Sync + 'static {
    /// Start `program` with `args`; on failure say why.
    fn spawn(&self, program: &'static str, args: &Vec<Arg<P>>) -> Result<(), String>;
}

/// The launcher of a platform.
pub open spec fn launcher(platform: Platform) -> &'static str {
    match platform {
        Platform::Linux => "xdg-open",
        Platform::MacOs => "open",
        Platform::Windows => "cmd",
    }
}

/// The arguments that make a launcher open `path`. The empty text is the
/// window title, which `start` takes before the path.
pub open spec fn launcher_args<P>(platform: Platform, path: P) -> Seq<Arg<P>> {
    match platform {
        Platform::Windows => seq![
            Arg::Text("/c"),
            Arg::Text("start"),
            Arg::Text(""),
            Arg::Path(path),
        ],
        _ => seq![Arg::Path(path)],
    }
}

/// The command that opens `path`.
pub fn command_for<P>(platform: Platform, path: P) -> (r: (&'static str, Vec<Arg<P>>))
    ensures
        r.0 == launcher(platform),
        r.1@ == launcher_args(platform, path),
{
    let mut args: Vec<Arg<P>> = Vec::new();
    match platform {
        Platform::Linux => {
            args.push(Arg::Path(path));
            assert(args@ =~= launcher_args(platform, path));
            ("xdg-open", args)
        },
        Platform::MacOs => {
            args.push(Arg::Path(path));
            assert(args@ =~= launcher_args(platform, path));
            ("open", args)
        },
        Platform::Windows => {
            args.push(Arg::Text("/c"));
            args.push(Arg::Text("start"));
            args.push(Arg::Text(""));
            args.push(Arg::Path(path));
            assert(args@ =~= launcher_args(platform, path));
            ("cmd", args)
        },
    }
}

/// Open `path` with the platform's launcher: `spawn` is called with the
/// command that opens it. A failure is returned for the log; nothing else comes
/// of it.
pub fn open_path<P, S: Spawn<P>>(spawn: &S, platform: Platform, path: P) -> (r: Option<String>)
    ensures
        exists|args: Vec<Arg<P>>, outcome: Result<(), String>|
            args@ == launcher_args(platform, path) && #[trigger] call_ensures(
                S::spawn,
                (spawn, launcher(platform), &args),
                outcome,
            ) && r == outcome.err(),
{
    let (program, args) = command_for(platform, path);
    let outcome = spawn.spawn(program, &args);
    assert(call_ensures(S::spawn, (spawn, launcher(platform), &args), outcome));
    match outcome {
        Ok(_) => None,
        Err(reason) => Some(reason),
    }
}

/// The path is the last argument on every platform, and the only one that is
/// not fixed.
pub proof fn law_path_is_the_last_argument<P>(platform: Platform, path: P)
    ensures
        launcher_args(platform, path).last() == Arg::Path(path),
        forall|i: int|
            0 <= i < launcher_args(platform, path).len() - 1 ==> (#[trigger] launcher_args(
                platform,
                path,
            )[i]) is Text,
{
}

/// Each platform has its launcher, which gets the path as its last argument:
/// alone, or on Windows after the request to start it and an empty title.
pub proof fn law_launchers<P>(path: P)
    ensures
        launcher(Platform::Linux) == "xdg-open",
        launcher(Platform::MacOs) == "open",
        launcher(Platform::Windows) == "cmd",
        launcher_args(Platform::Linux, path) == seq![Arg::Path(path)],
        launcher_args(Platform::MacOs, path) == seq![Arg::Path(path)],
        launcher_args(Platform::Windows, path) == seq![
            Arg::Text("/c"),
            Arg::Text("start"),
            Arg::Text(""),
            Arg::Path(path),
        ],
{
}

} // verus!
