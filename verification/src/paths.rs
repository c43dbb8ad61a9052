//! The runtime location: the per-user ephemeral directory holding the
//! socket, the PID file, and (background mode) the captured output files.
//!
//! The environment reads happen outside this crate; the resolution decision
//! — prefer the platform's per-user runtime directory, fall back to the
//! temporary-directory variable, fail when neither resolves — is made here,
//! on the values those reads produced.

use vstd::prelude::*;
use vstd::string::StringExecFns;

verus! {

/// The path of `name` inside directory `dir`.
pub open spec fn joined(dir: Seq<char>, name: Seq<char>) -> Seq<char> {
    dir + seq!['/'] + name
}

/// The base directory the resolver settles on: the per-user runtime
/// directory when the platform has one, else the temporary directory, else
/// nothing (an unrecoverable configuration error).
pub open spec fn resolved_base(
    runtime_dir: Option<Seq<char>>,
    tmp_dir: Option<Seq<char>>,
) -> Option<Seq<char>> {
    if runtime_dir is Some {
        runtime_dir
    } else {
        tmp_dir
    }
}

/// Appends `/name` to a directory path.
fn join_under(dir: String, name: &str) -> (r: String)
    ensures
        r@ == joined(dir@, name@),
{
    let with_sep = dir.concat("/");
    proof {
        reveal_strlit("/");
        assert(with_sep@ =~= dir@ + seq!['/']);
    }
    let r = with_sep.concat(name);
    proof {
        assert(r@ =~= joined(dir@, name@));
    }
    r
}

/// Decides the daemon's runtime directory from what the environment offered:
/// the per-user runtime directory when available, else the temporary
/// directory, each with the service's own segment appended; `None` exactly
/// when neither was available.
pub fn resolve_runtime_dir(runtime_dir: Option<String>, tmp_dir: Option<String>) -> (r: Option<
    String,
>)
    ensures
        r is Some <==> resolved_base(
            match runtime_dir {
                Some(ref d) => Some(d@),
                None => None,
            },
            match tmp_dir {
                Some(ref d) => Some(d@),
                None => None,
            },
        ) is Some,
        r matches Some(out) ==> out@ == joined(
            resolved_base(
                match runtime_dir {
                    Some(ref d) => Some(d@),
                    None => None,
                },
                match tmp_dir {
                    Some(ref d) => Some(d@),
                    None => None,
                },
            ).unwrap(),
            "kak-tree-sitter"@,
        ),
{
    let base = match runtime_dir {
        Some(d) => d,
        None => match tmp_dir {
            Some(d) => d,
            None => {
                return None;
            },
        },
    };
    Some(join_under(base, "kak-tree-sitter"))
}

/// The socket path inside the runtime directory.
pub fn socket_path(dir: &str) -> (r: String)
    ensures
        r@ == joined(dir@, "socket"@),
{
    join_under(String::from_str(dir), "socket")
}

/// The PID-file path inside the runtime directory.
pub fn pid_file_path(dir: &str) -> (r: String)
    ensures
        r@ == joined(dir@, "pid"@),
{
    join_under(String::from_str(dir), "pid")
}

/// The captured-standard-output path used in background mode.
pub fn stdout_path(dir: &str) -> (r: String)
    ensures
        r@ == joined(dir@, "stdout.txt"@),
{
    join_under(String::from_str(dir), "stdout.txt")
}

/// The captured-standard-error path used in background mode.
pub fn stderr_path(dir: &str) -> (r: String)
    ensures
        r@ == joined(dir@, "stderr.txt"@),
{
    join_under(String::from_str(dir), "stderr.txt")
}

} // verus!
