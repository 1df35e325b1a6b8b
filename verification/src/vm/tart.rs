//! The VM backend that delegates all lifecycle operations to the `tart` CLI.
use vstd::prelude::*;

use crate::text::{
    cat, decimal, decimal_text, from_utf8_lossy, lossy_text, parse_u64, parsed_u64, same,
    text_of, texts, trim, trimmed,
};
use crate::vm::{Vm, VmConfig};

verus! {

/// Default timeout for tart operations in seconds, by subcommand.
pub open spec fn default_seconds(subcommand: Seq<char>) -> u64 {
    if subcommand == "clone"@ {
        300
    } else if subcommand == "stop"@ || subcommand == "delete"@ {
        30
    } else {
        60
    }
}

/// The timeout in seconds: the override where it is a number, else the default.
pub open spec fn timeout_seconds(subcommand: Seq<char>, setting: Option<Seq<char>>) -> u64 {
    match setting {
        Some(s) => match parsed_u64(s) {
            Some(n) => n,
            None => default_seconds(subcommand),
        },
        None => default_seconds(subcommand),
    }
}

/// How a tart command ended.
pub enum TartOutcome {
    /// It was still running when its time was up.
    TimedOut,
    /// It could not be started.
    NotSpawned,
    /// It ran to its end.
    Exited {
        /// Whether it succeeded.
        success: bool,
        /// How it ended, in words.
        status: String,
        /// What it wrote to its standard error.
        stderr: Vec<u8>,
    },
}

/// The error of a tart command that failed.
pub open spec fn tart_error(subcommand: Seq<char>, seconds: u64, outcome: TartOutcome) -> Option<
    Seq<char>,
> {
    match outcome {
        TartOutcome::TimedOut => Some(
            "tart "@ + subcommand + " timed out after "@ + decimal(seconds as nat) + "s"@,
        ),
        TartOutcome::NotSpawned => Some("failed to spawn tart"@),
        TartOutcome::Exited { success, status, stderr } => {
            let detail = trimmed(lossy_text(stderr@));
            if success {
                None
            } else if detail.len() == 0 {
                Some("tart "@ + subcommand + " exited with "@ + status@)
            } else {
                Some("tart "@ + subcommand + " failed:\n"@ + detail)
            }
        },
    }
}

/// Default timeout for tart operations in seconds, by subcommand.
pub fn default_timeout(subcommand: &str) -> (r: u64)
    ensures
        r == default_seconds(subcommand@),
{
    if same(subcommand, "clone") {
        300
    } else if same(subcommand, "stop") || same(subcommand, "delete") {
        30
    } else {
        60
    }
}

/// The timeout in seconds: the override where it is a number, else the default.
pub fn timeout(subcommand: &str, setting: &Option<String>) -> (r: u64)
    ensures
        r == timeout_seconds(subcommand@, text_of(*setting)),
{
    if let Some(s) = setting {
        if let Some(n) = parse_u64(s.as_str()) {
            return n;
        }
    }
    default_timeout(subcommand)
}

/// VM backend that delegates all lifecycle operations to the `tart` CLI.
pub struct TartVm;

impl TartVm {
    /// The backend.
    pub fn new() -> (r: Self)
        ensures
            r == TartVm,
    {
        TartVm
    }

    /// The subcommand of a tart command line.
    pub fn subcommand(args: &Vec<String>) -> (r: String)
        ensures
            r@ == if args.len() > 0 {
                args@[0]@
            } else {
                "unknown"@
            },
    {
        if args.len() > 0 {
            args[0].clone()
        } else {
            "unknown".to_owned()
        }
    }

    /// What the end of a tart command means: success, or an error with its text.
    pub fn run_tart(args: &Vec<String>, seconds: u64, outcome: &TartOutcome) -> (r: Result<
        (),
        String,
    >)
        ensures
            ({
                let subcommand = if args.len() > 0 {
                    args@[0]@
                } else {
                    "unknown"@
                };
                match tart_error(subcommand, seconds, *outcome) {
                    None => r is Ok,
                    Some(text) => r matches Err(e) && e@ == text,
                }
            }),
    {
        let subcommand = TartVm::subcommand(args);
        match outcome {
            TartOutcome::TimedOut => {
                let mut e = cat("tart ", subcommand.as_str());
                e.append(" timed out after ");
                e.append(decimal_text(seconds).as_str());
                e.append("s");
                Err(e)
            },
            TartOutcome::NotSpawned => Err("failed to spawn tart".to_owned()),
            TartOutcome::Exited { success, status, stderr } => {
                if *success {
                    return Ok(());
                }
                let detail = trim(from_utf8_lossy(stderr).as_str());
                let mut e = cat("tart ", subcommand.as_str());
                if detail.as_str().is_empty() {
                    e.append(" exited with ");
                    e.append(status.as_str());
                } else {
                    e.append(" failed:\n");
                    e.append(detail.as_str());
                }
                Err(e)
            },
        }
    }
}

impl Default for TartVm {
    fn default() -> (r: Self)
        ensures
            r == TartVm,
    {
        TartVm::new()
    }
}

impl Vm for TartVm {
    fn create(&self, config: &VmConfig) -> (r: Vec<String>)
        ensures
            texts(r@) == seq!["clone"@, config.base_image@, config.name@],
    {
        let r = vec!["clone".to_owned(), config.base_image.clone(), config.name.clone()];
        assert(texts(r@) =~= seq!["clone"@, config.base_image@, config.name@]);
        r
    }

    fn stop(&self, name: &str) -> (r: Vec<String>)
        ensures
            texts(r@) == seq!["stop"@, name@],
    {
        let r = vec!["stop".to_owned(), name.to_owned()];
        assert(texts(r@) =~= seq!["stop"@, name@]);
        r
    }

    fn delete(&self, name: &str) -> (r: Vec<String>)
        ensures
            texts(r@) == seq!["delete"@, name@],
    {
        let r = vec!["delete".to_owned(), name.to_owned()];
        assert(texts(r@) =~= seq!["delete"@, name@]);
        r
    }
}

// ---------------------------------------------------------------------------
// Laws
// ---------------------------------------------------------------------------

/// The time that a tart command has: a setting that is a number decides, for every
/// subcommand and every number, and a setting that is none makes no difference. Else a
/// clone has five minutes, a stop and a deletion have half a minute, and any other
/// subcommand has one minute.
pub proof fn settings_decide_about_timeouts(subcommand: Seq<char>, n: u64, setting: Seq<char>)
    ensures
        timeout_seconds(subcommand, Some(decimal(n as nat))) == n,
        parsed_u64(setting) is None ==> timeout_seconds(subcommand, Some(setting))
            == timeout_seconds(subcommand, None),
        timeout_seconds("clone"@, None) == 300,
        timeout_seconds("stop"@, None) == 30,
        timeout_seconds("delete"@, None) == 30,
        subcommand != "clone"@ && subcommand != "stop"@ && subcommand != "delete"@
            ==> timeout_seconds(subcommand, None) == 60,
{
    crate::text::numbers_are_read_back(n, setting, 0);
    reveal_strlit("clone");
    reveal_strlit("stop");
    reveal_strlit("delete");
    assert("clone"@[0] == 'c' && "stop"@[0] == 's' && "delete"@[0] == 'd');
}

/// A tart command succeeds exactly where it ran to its end and reports success. An error
/// names the subcommand, and tells what the command wrote to its standard error, without
/// the white space around it, or else how it ended.
pub proof fn tart_errors_tell_what_happened(
    subcommand: Seq<char>,
    seconds: u64,
    success: bool,
    status: String,
    stderr: Vec<u8>,
)
    ensures
        ({
            let r = tart_error(
                subcommand,
                seconds,
                TartOutcome::Exited { success, status, stderr },
            );
            let detail = trimmed(lossy_text(stderr@));
            &&& r is None <==> success
            &&& !success && detail.len() > 0 ==> r == Some(
                "tart "@ + subcommand + " failed:\n"@ + detail,
            )
            &&& !success && detail.len() == 0 ==> r == Some(
                "tart "@ + subcommand + " exited with "@ + status@,
            )
        }),
        tart_error(subcommand, seconds, TartOutcome::TimedOut) == Some(
            "tart "@ + subcommand + " timed out after "@ + decimal(seconds as nat) + "s"@,
        ),
        tart_error(subcommand, seconds, TartOutcome::NotSpawned) == Some(
            "failed to spawn tart"@,
        ),
{
}

} // verus!
