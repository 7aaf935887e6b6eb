use vstd::prelude::*;

verus! {

use vstd::string::StringExecFns;
use crate::kvlist::{kv_map, kv_distinct, kv_get, kv_insert_if_absent, lemma_kv_map_domain};

/// Exit code reported when the shell or the child process could not be
/// started, or when waiting on the child failed; distinct from any exit code a
/// child reports for itself.
pub const PROCESS_FAILURE_CODE: i32 = 10;

/// Exit code a fatal command-line parse error is mapped to.
pub const PARSE_FAILURE_CODE: i32 = 101;

/// An error surfaced to the command line: an exit code and a message.
#[derive(Debug)]
pub struct CliError {
    pub code: i32,
    pub message: String,
}

impl CliError {
    pub fn new(code: i32, message: String) -> (r: Self)
        ensures
            r.code == code,
            r.message == message,
    {
        CliError { code, message }
    }
}

pub type CliResult = Result<i32, CliError>;

pub type CliParseResults = Result<(), CliParseError>;

/// A command-line parse failure; fatal ones end the run.
#[derive(Debug)]
pub struct CliParseError {
    pub fatal: bool,
    pub message: String,
}

impl From<CliParseError> for CliError {
    fn from(err: CliParseError) -> (r: CliError) {
        CliError::new(PARSE_FAILURE_CODE, err.message)
    }
}

impl vstd::std_specs::convert::FromSpecImpl<CliParseError> for CliError {
    open spec fn obeys_from_spec() -> bool {
        true
    }

    open spec fn from_spec(err: CliParseError) -> CliError {
        CliError { code: PARSE_FAILURE_CODE, message: err.message }
    }
}

/// The shell command line: the command followed by each argument, separated by
/// single spaces.
pub open spec fn spec_command_line(cmd: Seq<char>, args: Seq<String>) -> Seq<char>
    decreases args.len(),
{
    if args.len() == 0 {
        cmd
    } else {
        spec_command_line(cmd + seq![' '] + args[0]@, args.drop_first())
    }
}

pub fn compose_command_line(cmd: &str, args: &Vec<String>) -> (r: String)
    ensures
        r@ == spec_command_line(cmd@, args@),
{
    let mut s: String = cmd.to_owned();
    proof {
        reveal_strlit(" ");
        assert(args@.skip(0) =~= args@);
    }
    let mut i: usize = 0;
    while i < args.len()
        invariant
            i <= args@.len(),
            " "@ == seq![' '],
            spec_command_line(s@, args@.skip(i as int)) == spec_command_line(cmd@, args@),
        decreases args@.len() - i,
    {
        proof {
            assert(args@.skip(i as int)[0] == args@[i as int]);
            assert(args@.skip(i as int).drop_first() =~= args@.skip(i + 1));
        }
        s.append(" ");
        s.append(args[i].as_str());
        i += 1;
    }
    proof {
        assert(args@.skip(args@.len() as int) =~= Seq::<String>::empty());
    }
    s
}

/// The search path handed to a child: the directory holding this tool's own
/// executable, where it is known, goes in front of the inherited search path,
/// so that co-located plugins are found without a separate installation.
pub open spec fn spec_build_path(inherited: Seq<char>, exe_dir: Option<Seq<char>>) -> Seq<char> {
    match exe_dir {
        Some(d) => d + seq![':'] + inherited,
        None => inherited,
    }
}

pub fn build_path(path_var: Option<&String>, exe_dir: Option<&String>) -> (r: String)
    ensures
        r@ == spec_build_path(
            match path_var {
                Some(p) => p@,
                None => Seq::empty(),
            },
            match exe_dir {
                Some(d) => Some(d@),
                None => None,
            },
        ),
{
    let inherited: &str = match path_var {
        Some(p) => p.as_str(),
        None => "",
    };
    proof {
        reveal_strlit("");
        reveal_strlit(":");
    }
    match exe_dir {
        Some(d) => {
            let mut s: String = d.as_str().to_owned();
            s.append(":");
            s.append(inherited);
            proof {
                assert(s@ =~= d@ + seq![':'] + match path_var {
                    Some(p) => p@,
                    None => Seq::<char>::empty(),
                });
            }
            s
        },
        None => inherited.to_owned(),
    }
}

/// The key under which the search path is stored in the environment.
pub open spec fn path_key() -> Seq<char> {
    "PATH"@
}

/// The inherited search path as found in the given environment, or empty.
pub open spec fn spec_inherited_path(env: Map<Seq<char>, Seq<char>>) -> Seq<char> {
    if env.contains_key(path_key()) {
        env[path_key()]
    } else {
        Seq::empty()
    }
}

/// The environment handed to a child process: the inherited environment with
/// the search path rebuilt around this tool's own directory, and any
/// caller-supplied pairs overriding both.
pub open spec fn spec_child_env(
    inherited: Map<Seq<char>, Seq<char>>,
    exe_dir: Option<Seq<char>>,
    extra: Map<Seq<char>, Seq<char>>,
) -> Map<Seq<char>, Seq<char>> {
    inherited.insert(path_key(), spec_build_path(spec_inherited_path(inherited), exe_dir))
        .union_prefer_right(extra)
}

pub fn build_env_updates(
    inherited: &Vec<(String, String)>,
    exe_dir: Option<&String>,
    extra: &Vec<(String, String)>,
) -> (r: Vec<(String, String)>)
    requires
        kv_distinct(inherited@),
        kv_distinct(extra@),
    ensures
        kv_distinct(r@),
        kv_map(r@) == spec_child_env(
            kv_map(inherited@),
            match exe_dir {
                Some(d) => Some(d@),
                None => None,
            },
            kv_map(extra@),
        ),
{
    let ghost inh_map = kv_map(inherited@);
    let ghost extra_map = kv_map(extra@);
    let ghost exe_view: Option<Seq<char>> = match exe_dir {
        Some(d) => Some(d@),
        None => None,
    };
    let path_var = kv_get(inherited, "PATH");
    let new_path = build_path(path_var, exe_dir);
    proof {
        assert(new_path@ == spec_build_path(spec_inherited_path(inh_map), exe_view));
    }
    let mut out: Vec<(String, String)> = Vec::new();
    // The caller-supplied overrides are laid down first; every later key that
    // repeats one of them is skipped, so they win.
    let mut i: usize = 0;
    while i < extra.len()
        invariant
            kv_distinct(extra@),
            i <= extra@.len(),
            kv_distinct(out@),
            kv_map(out@) == kv_map(extra@.take(i as int)),
        decreases extra@.len() - i,
    {
        proof {
            lemma_kv_map_domain(extra@.take(i as int), extra@[i as int].0@);
            assert(forall|j: int| 0 <= j < i ==> extra@.take(i as int)[j] == extra@[j]);
            assert(!kv_map(extra@.take(i as int)).contains_key(extra@[i as int].0@));
        }
        kv_insert_if_absent(&mut out, extra[i].0.clone(), extra[i].1.clone());
        proof {
            assert(extra@.take(i + 1).drop_last() =~= extra@.take(i as int));
            assert(extra@.take(i + 1).last() == extra@[i as int]);
        }
        i += 1;
    }
    proof {
        assert(extra@.take(extra@.len() as int) =~= extra@);
    }

    let ghost path_value = new_path@;
    kv_insert_if_absent(&mut out, String::from_str("PATH"), new_path);
    proof {
        assert(inherited@.take(0) =~= Seq::<(String, String)>::empty());
        assert(kv_map(out@) =~= kv_map(inherited@.take(0)).insert(path_key(), path_value)
            .union_prefer_right(extra_map));
    }

    let mut i: usize = 0;
    while i < inherited.len()
        invariant
            kv_distinct(inherited@),
            i <= inherited@.len(),
            kv_distinct(out@),
            kv_map(out@) == kv_map(inherited@.take(i as int)).insert(path_key(), path_value)
                .union_prefer_right(extra_map),
            path_value == spec_build_path(spec_inherited_path(inh_map), exe_view),
            extra_map == kv_map(extra@),
            inh_map == kv_map(inherited@),
        decreases inherited@.len() - i,
    {
        let ghost before = out@;
        let ghost k = inherited@[i as int].0@;
        let ghost v = inherited@[i as int].1@;
        kv_insert_if_absent(&mut out, inherited[i].0.clone(), inherited[i].1.clone());
        proof {
            assert(inherited@.take(i + 1).drop_last() =~= inherited@.take(i as int));
            assert(inherited@.take(i + 1).last() == inherited@[i as int]);
            let prev = kv_map(inherited@.take(i as int));
            let next = kv_map(inherited@.take(i + 1));
            assert(next == prev.insert(k, v));
            lemma_kv_map_domain(before, k);
            lemma_kv_map_domain(extra@, k);
            lemma_kv_map_domain(inherited@.take(i as int), k);
            assert(forall|j: int| 0 <= j < i ==> inherited@.take(i as int)[j] == inherited@[j]);
            assert(!kv_map(inherited@.take(i as int)).contains_key(k));
            assert(kv_map(out@) =~= next.insert(path_key(), path_value).union_prefer_right(
                extra_map));
        }
        i += 1;
    }
    proof {
        assert(inherited@.take(inherited@.len() as int) =~= inherited@);
        assert(kv_map(out@) =~= spec_child_env(inh_map, exe_view, extra_map));
    }
    out
}

/// The exit code taken from a child's reported status; a child torn down by a
/// signal reports none and counts as code zero, as the original wait logic
/// treated it.
pub fn exit_code_of_status(code: Option<i32>) -> (r: i32)
    ensures
        r == match code {
            Some(c) => c,
            None => 0,
        },
{
    match code {
        Some(c) => c,
        None => 0,
    }
}

/// What came back from the operating system for one spawned child.
pub enum RawOutcome {
    /// The shell or the child could not be started; the message says why.
    SpawnFailed(String),
    /// Waiting on the child failed; the message says why.
    WaitFailed(String),
    /// The child ran; captured streams are empty in interactive mode.
    Exited { stdout: String, stderr: String, code: Option<i32> },
}

pub open spec fn spec_spawn_failure_message(m: Seq<char>) -> Seq<char> {
    "Unable to execute command: "@ + m
}

pub open spec fn spec_wait_failure_message(m: Seq<char>) -> Seq<char> {
    "Unable to wait for the command: "@ + m
}

/// Interprets one raw outcome: a start or wait failure becomes the fixed
/// process-failure error, and an exited child hands back its streams and code.
pub fn command_result(outcome: RawOutcome) -> (r: (String, String, Result<i32, CliError>))
    ensures
        match outcome {
            RawOutcome::SpawnFailed(m) => {
                &&& r.0@.len() == 0
                &&& r.1@.len() == 0
                &&& r.2 matches Err(e) && e.code == PROCESS_FAILURE_CODE && e.message@
                    == spec_spawn_failure_message(m@)
            },
            RawOutcome::WaitFailed(m) => {
                &&& r.0@.len() == 0
                &&& r.1@.len() == 0
                &&& r.2 matches Err(e) && e.code == PROCESS_FAILURE_CODE && e.message@
                    == spec_wait_failure_message(m@)
            },
            RawOutcome::Exited { stdout, stderr, code } => {
                &&& r.0@ == stdout@
                &&& r.1@ == stderr@
                &&& r.2 matches Ok(c) && c == (match code {
                    Some(c0) => c0,
                    None => 0,
                })
            },
        },
{
    match outcome {
        RawOutcome::SpawnFailed(m) => {
            let mut msg: String = String::from_str("Unable to execute command: ");
            msg.append(m.as_str());
            (String::new(), String::new(), Err(CliError::new(PROCESS_FAILURE_CODE, msg)))
        },
        RawOutcome::WaitFailed(m) => {
            let mut msg: String = String::from_str("Unable to wait for the command: ");
            msg.append(m.as_str());
            (String::new(), String::new(), Err(CliError::new(PROCESS_FAILURE_CODE, msg)))
        },
        RawOutcome::Exited { stdout, stderr, code } => {
            let c = exit_code_of_status(code);
            (stdout, stderr, Ok(c))
        },
    }
}

pub open spec fn spec_capture_failure_message(out: Seq<char>, err: Seq<char>) -> Seq<char> {
    "command failed\nstdout:\n"@ + out + "\nstderr:\n"@ + err
}

/// Interprets a captured-mode outcome: a clean exit hands back standard output
/// with trailing whitespace removed; a non-zero exit is a failure carrying
/// both captured streams for diagnostics.
pub fn output_result(outcome: RawOutcome) -> (r: Result<String, CliError>)
    ensures
        match outcome {
            RawOutcome::SpawnFailed(m) => r matches Err(e) && e.code == PROCESS_FAILURE_CODE
                && e.message@ == spec_spawn_failure_message(m@),
            RawOutcome::WaitFailed(m) => r matches Err(e) && e.code == PROCESS_FAILURE_CODE
                && e.message@ == spec_wait_failure_message(m@),
            RawOutcome::Exited { stdout, stderr, code } => {
                let c = match code {
                    Some(c0) => c0,
                    None => 0,
                };
                if c == 0 {
                    r matches Ok(s) && s@ == crate::text::spec_trim_trailing(stdout@)
                } else {
                    r matches Err(e) && e.code == c && e.message@
                        == spec_capture_failure_message(stdout@, stderr@)
                }
            },
        },
{
    match outcome {
        RawOutcome::SpawnFailed(m) => {
            let mut msg: String = String::from_str("Unable to execute command: ");
            msg.append(m.as_str());
            Err(CliError::new(PROCESS_FAILURE_CODE, msg))
        },
        RawOutcome::WaitFailed(m) => {
            let mut msg: String = String::from_str("Unable to wait for the command: ");
            msg.append(m.as_str());
            Err(CliError::new(PROCESS_FAILURE_CODE, msg))
        },
        RawOutcome::Exited { stdout, stderr, code } => {
            let c = exit_code_of_status(code);
            if c == 0 {
                Ok(crate::text::trim_trailing(stdout.as_str()))
            } else {
                let mut msg: String = String::from_str("command failed\nstdout:\n");
                msg.append(stdout.as_str());
                msg.append("\nstderr:\n");
                msg.append(stderr.as_str());
                Err(CliError::new(c, msg))
            }
        },
    }
}

} // verus!
