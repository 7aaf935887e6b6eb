use vstd::prelude::*;

verus! {

use vstd::string::StringExecFns;
use vstd::string::StrSliceExecFns;
use crate::text::{str_eq, str_starts_with, spec_starts_with, spec_trim_trailing};
use crate::executor::{
    CliError, CliParseError, RawOutcome, output_result, spec_spawn_failure_message,
    spec_wait_failure_message, spec_capture_failure_message,
};

/// Exit code of a checkout whose service could not be resolved.
pub const RESOLUTION_FAILURE_CODE: i32 = 2;

/// Exit code of a checkout that resolved its service but failed.
pub const CHECKOUT_FAILURE_CODE: i32 = 1;

/// What the checkout command line asked for.
#[derive(Debug)]
pub struct CheckoutRequest {
    pub service: Option<String>,
    pub repository: Option<String>,
    pub directory: Option<String>,
    pub list: bool,
}

/// The value of a `CheckoutRequest`.
pub ghost struct CheckoutModel {
    pub service: Option<Seq<char>>,
    pub repository: Option<Seq<char>>,
    pub directory: Option<Seq<char>>,
    pub list: bool,
}

impl CheckoutRequest {
    pub open spec fn model(&self) -> CheckoutModel {
        CheckoutModel {
            service: match self.service {
                Some(s) => Some(s@),
                None => None,
            },
            repository: match self.repository {
                Some(s) => Some(s@),
                None => None,
            },
            directory: match self.directory {
                Some(s) => Some(s@),
                None => None,
            },
            list: self.list,
        }
    }
}

pub open spec fn spec_empty_request() -> CheckoutModel {
    CheckoutModel { service: None, repository: None, directory: None, list: false }
}

/// One pass over the arguments: list and service flags are taken, other
/// flag-like arguments are left to the verbosity handling, and the first two
/// bare words are the repository and the target directory; later bare words
/// are ignored. A service flag without its value fails the parse.
pub open spec fn spec_parse_rec(args: Seq<String>, acc: CheckoutModel) -> Option<CheckoutModel>
    decreases args.len(),
{
    if args.len() == 0 {
        Some(acc)
    } else {
        let a = args[0]@;
        if a == "--list"@ || a == "-l"@ {
            spec_parse_rec(args.drop_first(), CheckoutModel { list: true, ..acc })
        } else if spec_starts_with(a, "--service="@) {
            spec_parse_rec(
                args.drop_first(),
                CheckoutModel { service: Some(a.skip("--service="@.len() as int)), ..acc },
            )
        } else if a == "-s"@ || a == "--service"@ {
            if args.len() == 1 {
                None
            } else {
                spec_parse_rec(args.skip(2), CheckoutModel { service: Some(args[1]@), ..acc })
            }
        } else if a.len() > 0 && a[0] == '-' {
            spec_parse_rec(args.drop_first(), acc)
        } else if acc.repository is None {
            spec_parse_rec(args.drop_first(), CheckoutModel { repository: Some(a), ..acc })
        } else if acc.directory is None {
            spec_parse_rec(args.drop_first(), CheckoutModel { directory: Some(a), ..acc })
        } else {
            spec_parse_rec(args.drop_first(), acc)
        }
    }
}

pub open spec fn spec_no_repository_message() -> Seq<char> {
    "No repository specified. Review `inc checkout --help` for options."@
}

pub open spec fn spec_missing_service_message() -> Seq<char> {
    "The --service option is missing its value"@
}

/// Parses the checkout command line. A request that names no repository and
/// does not ask for the listing fails fast, before anything is spawned.
#[verifier::loop_isolation(false)]
pub fn parse_checkout_args(args: &Vec<String>) -> (r: Result<CheckoutRequest, CliParseError>)
    ensures
        match spec_parse_rec(args@, spec_empty_request()) {
            Some(m) => if m.list || m.repository is Some {
                r matches Ok(req) && req.model() == m
            } else {
                r matches Err(e) && e.fatal && e.message@ == spec_no_repository_message()
            },
            None => r matches Err(e) && e.fatal && e.message@ == spec_missing_service_message(),
        },
{
    let mut req = CheckoutRequest { service: None, repository: None, directory: None, list: false };
    proof {
        assert(args@.skip(0) =~= args@);
        assert(req.model() == spec_empty_request());
        reveal_strlit("--service=");
    }
    let mut i: usize = 0;
    while i < args.len()
        invariant
            i <= args@.len(),
            spec_parse_rec(args@.skip(i as int), req.model()) == spec_parse_rec(
                args@, spec_empty_request()),
        decreases args@.len() - i,
    {
        proof {
            assert(args@.skip(i as int)[0] == args@[i as int]);
            assert(args@.skip(i as int).drop_first() =~= args@.skip(i + 1));
        }
        let a = args[i].as_str();
        if str_eq(a, "--list") || str_eq(a, "-l") {
            req.list = true;
            i += 1;
        } else if str_starts_with(a, "--service=") {
            let alen = a.unicode_len();
            let v = a.substring_char(10, alen);
            proof {
                assert("--service="@.len() == 10);
                assert(v@ =~= a@.skip(10));
            }
            req.service = Some(v.to_owned());
            i += 1;
        } else if str_eq(a, "-s") || str_eq(a, "--service") {
            if i + 1 >= args.len() {
                proof {
                    assert(args@.skip(i as int).len() == 1);
                }
                return Err(
                    CliParseError {
                        fatal: true,
                        message: "The --service option is missing its value".to_owned(),
                    },
                );
            }
            proof {
                assert(args@.skip(i as int)[1] == args@[i + 1]);
                assert(args@.skip(i as int).skip(2) =~= args@.skip(i + 2));
            }
            req.service = Some(args[i + 1].clone());
            i += 2;
        } else {
            let flag_like = a.unicode_len() > 0 && a.get_char(0) == '-';
            if flag_like {
                i += 1;
            } else if req.repository.is_none() {
                req.repository = Some(args[i].clone());
                i += 1;
            } else if req.directory.is_none() {
                req.directory = Some(args[i].clone());
                i += 1;
            } else {
                i += 1;
            }
        }
    }
    proof {
        assert(args@.skip(args@.len() as int) =~= Seq::<String>::empty());
    }
    if req.list || req.repository.is_some() {
        Ok(req)
    } else {
        Err(
            CliParseError {
                fatal: true,
                message: "No repository specified. Review `inc checkout --help` for options."
                    .to_owned(),
            },
        )
    }
}

/// The service a checkout uses: the one asked for on the command line, else
/// the home configuration's default provider, else the github service.
pub fn effective_service(requested: &Option<String>, home_default: &Option<String>) -> (r:
    String)
    ensures
        r@ == match requested {
            Some(s) => s@,
            None => match home_default {
                Some(h) => h@,
                None => "github"@,
            },
        },
{
    match requested {
        Some(s) => s.clone(),
        None => match home_default {
            Some(h) => h.clone(),
            None => "github".to_owned(),
        },
    }
}

/// The error a checkout reports when neither a statically known service nor a
/// matching executable resolves the requested name.
pub fn plugin_not_found_error(service: &str) -> (r: CliError)
    ensures
        r.code == RESOLUTION_FAILURE_CODE,
        r.message@ == "Unable to resolve checkout service: "@ + service@,
{
    let mut msg: String = "Unable to resolve checkout service: ".to_owned();
    msg.append(service);
    CliError::new(RESOLUTION_FAILURE_CODE, msg)
}

/// Interprets what a service plugin handed back: a clean exit gives the
/// resolved location, its single line trimmed; everything else is a
/// resolution failure, never partial success.
pub fn checkout_resolution_result(outcome: RawOutcome) -> (r: Result<String, CliError>)
    ensures
        match outcome {
            RawOutcome::SpawnFailed(m) => r matches Err(e) && e.code == RESOLUTION_FAILURE_CODE
                && e.message@ == spec_spawn_failure_message(m@),
            RawOutcome::WaitFailed(m) => r matches Err(e) && e.code == RESOLUTION_FAILURE_CODE
                && e.message@ == spec_wait_failure_message(m@),
            RawOutcome::Exited { stdout, stderr, code } => {
                let c = match code {
                    Some(c0) => c0,
                    None => 0,
                };
                if c == 0 {
                    r matches Ok(s) && s@ == spec_trim_trailing(stdout@)
                } else {
                    r matches Err(e) && e.code == RESOLUTION_FAILURE_CODE && e.message@
                        == spec_capture_failure_message(stdout@, stderr@)
                }
            },
        },
{
    match output_result(outcome) {
        Ok(u) => Ok(u),
        Err(e) => Err(CliError::new(RESOLUTION_FAILURE_CODE, e.message)),
    }
}

/// The exit code of a whole checkout: what the checkout itself reported, or
/// the fixed failure code where it could not run.
pub fn checkout_exit_code(result: &Result<i32, CliError>) -> (r: i32)
    ensures
        r == match *result {
            Ok(v) => v,
            Err(_) => CHECKOUT_FAILURE_CODE,
        },
{
    match result {
        Ok(v) => *v,
        Err(_) => CHECKOUT_FAILURE_CODE,
    }
}

} // verus!
