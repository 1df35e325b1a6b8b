//! Waiting for a VM to come up.
use vstd::prelude::*;
use vstd::utf8::{decode_utf8, valid_utf8};

use crate::text::{cat, decimal, decimal_text, from_utf8, texts, trim, trimmed};

verus! {

/// The arguments of `tart ip` for a VM.
pub fn ip_args(vm_name: &str) -> (r: Vec<String>)
    ensures
        texts(r@) == seq!["ip"@, vm_name@, "--wait"@, "30"@],
{
    let r = vec!["ip".to_owned(), vm_name.to_owned(), "--wait".to_owned(), "30".to_owned()];
    assert(texts(r@) =~= seq!["ip"@, vm_name@, "--wait"@, "30"@]);
    r
}

/// How `tart ip` ended.
pub enum IpOutcome {
    /// It was still running when its time was up.
    TimedOut,
    /// It could not be started.
    NotSpawned,
    /// It ran to its end.
    Exited { success: bool, stdout: Vec<u8> },
}

/// The IP address that `tart ip` printed, or why there is none.
pub open spec fn ip_result(vm_name: Seq<char>, outcome: IpOutcome) -> Result<Seq<char>, Seq<char>> {
    match outcome {
        IpOutcome::TimedOut => Err("tart ip timed out"@),
        IpOutcome::NotSpawned => Err("failed to run tart ip"@),
        IpOutcome::Exited { success, stdout } => if !success {
            Err("tart ip failed for "@ + vm_name)
        } else if !valid_utf8(stdout@) {
            Err("tart ip output not utf8"@)
        } else if trimmed(decode_utf8(stdout@)).len() == 0 {
            Err("tart ip returned empty string for "@ + vm_name)
        } else {
            Ok(trimmed(decode_utf8(stdout@)))
        },
    }
}

/// The IP address of a running VM, from what `tart ip` printed.
pub fn get_vm_ip(vm_name: &str, outcome: IpOutcome) -> (r: Result<String, String>)
    ensures
        match r {
            Ok(ip) => ip_result(vm_name@, outcome) == Ok::<Seq<char>, Seq<char>>(ip@),
            Err(e) => ip_result(vm_name@, outcome) == Err::<Seq<char>, Seq<char>>(e@),
        },
{
    match outcome {
        IpOutcome::TimedOut => Err("tart ip timed out".to_owned()),
        IpOutcome::NotSpawned => Err("failed to run tart ip".to_owned()),
        IpOutcome::Exited { success, stdout } => {
            if !success {
                return Err(cat("tart ip failed for ", vm_name));
            }
            match from_utf8(stdout) {
                None => Err("tart ip output not utf8".to_owned()),
                Some(s) => {
                    let ip = trim(s.as_str());
                    if ip.as_str().is_empty() {
                        Err(cat("tart ip returned empty string for ", vm_name))
                    } else {
                        Ok(ip)
                    }
                },
            }
        },
    }
}

/// The interval in milliseconds around which the sleep after a failed attempt lies:
/// it starts at 200 and doubles, five times at most.
pub open spec fn base_interval(attempt: nat) -> nat
    decreases attempt,
{
    if attempt == 0 {
        200
    } else if attempt > 5 {
        base_interval(5)
    } else {
        2 * base_interval((attempt - 1) as nat)
    }
}

/// The sleep after a failed attempt: the interval less a quarter, and a jitter of up
/// to half of it that the clock's nanoseconds decide.
pub open spec fn backoff(attempt: nat, nanos: nat) -> nat {
    let base = base_interval(attempt);
    let quarter = base / 4;
    (base - quarter + nanos % (quarter * 2)) as nat
}

proof fn lemma_base_interval()
    ensures
        base_interval(0) == 200,
        base_interval(1) == 400,
        base_interval(2) == 800,
        base_interval(3) == 1600,
        base_interval(4) == 3200,
        base_interval(5) == 6400,
{
    reveal_with_fuel(base_interval, 7);
}

/// Compute a sleep duration in milliseconds with exponential backoff and jitter.
///
/// The base interval starts at 200ms and doubles each attempt; a jitter of ±25% is
/// applied using the nanoseconds of the system clock. It stays below 8s.
pub fn backoff_duration(attempt: u32, nanos: u32) -> (r: u64)
    ensures
        r == backoff(attempt as nat, nanos as nat),
        150 <= r < 8000,
{
    proof {
        lemma_base_interval();
    }
    let base: u64 = match attempt {
        0 => 200,
        1 => 400,
        2 => 800,
        3 => 1600,
        4 => 3200,
        _ => 6400,
    };
    assert(base == base_interval(attempt as nat));
    let quarter: u64 = base / 4;
    base - quarter + (nanos as u64) % (quarter * 2)
}

/// The jitter is at most a quarter of the interval either way, and the intervals
/// never shrink.
pub proof fn backoff_stays_near_its_interval(attempt: nat, nanos: nat)
    ensures
        base_interval(attempt) - base_interval(attempt) / 4 <= backoff(attempt, nanos),
        backoff(attempt, nanos) < base_interval(attempt) + base_interval(attempt) / 4,
        base_interval(attempt) <= base_interval(attempt + 1) <= 2 * base_interval(attempt),
{
    lemma_base_interval();
    if attempt > 5 {
        assert(base_interval(attempt) == 6400);
        assert(base_interval(attempt + 1) == 6400);
    } else {
        assert(attempt == 0 || attempt == 1 || attempt == 2 || attempt == 3 || attempt == 4
            || attempt == 5);
        assert(base_interval(6) == 6400);
    }
    let quarter = base_interval(attempt) / 4;
    assert(0 <= nanos % (quarter * 2) < quarter * 2);
}

/// What is done about an attempt to connect.
#[derive(Clone, Copy, Debug, PartialEq, Eq, Structural)]
pub enum SshAction {
    /// The connection stands.
    Ready,
    /// The time is up.
    GiveUp,
    /// Sleep for so many milliseconds, and try again.
    Sleep(u64),
}

/// A wait until a VM takes SSH connections.
#[derive(Clone, Copy, Debug, PartialEq, Eq, Structural)]
pub struct SshWait {
    /// How many attempts have failed.
    pub failed: u32,
}

impl SshWait {
    /// No attempt has been made.
    pub fn new() -> (r: Self)
        ensures
            r.failed == 0,
    {
        SshWait { failed: 0 }
    }

    /// Take note of an attempt. Even when the time is up, one last attempt counts.
    pub fn wait_for_ssh(&mut self, connected: bool, time_is_up: bool, nanos: u32) -> (r: SshAction)
        ensures
            r == if connected {
                SshAction::Ready
            } else if time_is_up {
                SshAction::GiveUp
            } else {
                SshAction::Sleep(backoff(old(self).failed as nat, nanos as nat) as u64)
            },
            final(self).failed == if connected || time_is_up || old(self).failed == u32::MAX {
                old(self).failed as int
            } else {
                old(self).failed + 1
            },
    {
        if connected {
            return SshAction::Ready;
        }
        if time_is_up {
            return SshAction::GiveUp;
        }
        let delay = backoff_duration(self.failed, nanos);
        if self.failed < u32::MAX {
            self.failed = self.failed + 1;
        }
        SshAction::Sleep(delay)
    }
}

/// The error of a wait that was given up; `cause` is the last failure.
pub fn not_ready(ip: &str, timeout_secs: u64, cause: &str) -> (r: String)
    ensures
        r@ == "SSH on "@ + ip@ + " not ready after "@ + decimal(timeout_secs as nat) + "s: "@
            + cause@,
{
    let mut r = cat("SSH on ", ip);
    r.append(" not ready after ");
    r.append(decimal_text(timeout_secs).as_str());
    r.append("s: ");
    r.append(cause);
    r
}

/// The intervals double from 200 to 6400 milliseconds, and stay there. Every nanosecond
/// of the clock makes the sleep a millisecond longer, until half of the interval is
/// reached and the sleep starts anew.
pub proof fn intervals_double(attempt: nat, nanos: nat)
    ensures
        base_interval(0) == 200,
        attempt < 5 ==> base_interval(attempt + 1) == 2 * base_interval(attempt),
        attempt >= 5 ==> base_interval(attempt) == 6400,
        nanos < base_interval(attempt) / 2 ==> backoff(attempt, nanos) == base_interval(attempt)
            - base_interval(attempt) / 4 + nanos,
        backoff(attempt, nanos + base_interval(attempt) / 2) == backoff(attempt, nanos),
{
    lemma_base_interval();
    if attempt > 5 {
        assert(base_interval(attempt) == 6400);
    } else {
        assert(attempt == 0 || attempt == 1 || attempt == 2 || attempt == 3 || attempt == 4
            || attempt == 5);
    }
    let half = base_interval(attempt) / 2;
    let quarter = base_interval(attempt) / 4;
    assert(half == quarter * 2 && half > 0);
    vstd::arithmetic::div_mod::lemma_mod_add_multiples_vanish(nanos as int, half as int);
    if nanos < half {
        vstd::arithmetic::div_mod::lemma_small_mod(nanos, half);
    }
    assert((half + nanos) % half == nanos % half);
}

/// An address is got exactly where `tart ip` succeeds and prints some text other than
/// white space: that text, without the white space around it.
pub proof fn addresses_are_printed(
    vm_name: Seq<char>,
    success: bool,
    stdout: Vec<u8>,
    ip: Seq<char>,
)
    ensures
        ({
            let r = ip_result(vm_name, IpOutcome::Exited { success, stdout });
            let text = trimmed(decode_utf8(stdout@));
            &&& r == Ok::<Seq<char>, Seq<char>>(ip) <==> success && valid_utf8(stdout@)
                && ip.len() > 0 && text == ip
            &&& !success ==> r == Err::<Seq<char>, Seq<char>>("tart ip failed for "@ + vm_name)
            &&& success && !valid_utf8(stdout@) ==> r == Err::<Seq<char>, Seq<char>>(
                "tart ip output not utf8"@,
            )
            &&& success && valid_utf8(stdout@) && text.len() == 0 ==> r == Err::<
                Seq<char>,
                Seq<char>,
            >("tart ip returned empty string for "@ + vm_name)
        }),
        ip_result(vm_name, IpOutcome::TimedOut) == Err::<Seq<char>, Seq<char>>(
            "tart ip timed out"@,
        ),
        ip_result(vm_name, IpOutcome::NotSpawned) == Err::<Seq<char>, Seq<char>>(
            "failed to run tart ip"@,
        ),
{
}

/// A wait ends well exactly where a connection stands, even when the time is up, and is
/// given up exactly where none does and the time is up; otherwise the sleep belongs to the
/// number of attempts that have failed, which grows by one.
pub proof fn waits_end_in_time(
    wait: &mut SshWait,
    connected: bool,
    time_is_up: bool,
    nanos: u32,
    r: SshAction,
)
    requires
        call_ensures(SshWait::wait_for_ssh, (wait, connected, time_is_up, nanos), r),
    ensures
        r == SshAction::Ready <==> connected,
        r == SshAction::GiveUp <==> !connected && time_is_up,
        r matches SshAction::Sleep(ms) ==> ms == backoff(
            old(wait).failed as nat,
            nanos as nat,
        ) as u64 && (old(wait).failed < u32::MAX ==> final(wait).failed == old(wait).failed + 1),
{
}

} // verus!
