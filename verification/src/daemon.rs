//! Daemon lifecycle decisions: reading the pid file, the liveliness probe,
//! and the self-healing removal of stale artifacts.
//!
//! The process-level work (spawning the detached process, sending signals,
//! reading and deleting files) is performed by the caller, which feeds the
//! observations in and carries the decided actions out.

use vstd::prelude::*;

verus! {

use crate::ipc::trim;
use crate::ipc::trim_to_chars;

/// Ten to the `n`.
pub open spec fn pow10(n: nat) -> int
    decreases n,
{
    if n == 0 {
        1
    } else {
        10 * pow10((n - 1) as nat)
    }
}

/// Powers of ten grow with the exponent.
proof fn lemma_pow10_mono(a: nat, b: nat)
    requires
        a <= b,
    ensures
        0 < pow10(a) <= pow10(b),
    decreases b,
{
    if b > 0 {
        if a == b {
            lemma_pow10_mono((a - 1) as nat, (b - 1) as nat);
        } else {
            lemma_pow10_mono(a, (b - 1) as nat);
        }
    }
}

/// The numeric value of a digit string, most significant first.
pub open spec fn digits_val(s: Seq<char>) -> int
    decreases s.len(),
{
    if s.len() == 0 {
        0
    } else {
        digits_val(s.drop_last()) * 10 + (s.last() as int - '0' as int)
    }
}

/// True when every character is a decimal digit.
pub open spec fn all_digits(s: Seq<char>) -> bool {
    forall|i: int| 0 <= i < s.len() ==> '0' <= #[trigger] s[i] && s[i] <= '9'
}

/// A digit string's value is bounded by ten to its length.
proof fn lemma_digits_val_bounds(s: Seq<char>)
    requires
        all_digits(s),
    ensures
        0 <= digits_val(s) < pow10(s.len() as nat),
    decreases s.len(),
{
    if s.len() > 0 {
        assert(all_digits(s.drop_last()));
        lemma_digits_val_bounds(s.drop_last());
    }
}

/// The process id written in `s`: optional blanks around an optional sign
/// and at most eighteen decimal digits, as a 32-bit integer; `None` on
/// anything else or on a value out of range.
pub open spec fn spec_parse_pid(s: Seq<char>) -> Option<i32> {
    let t = trim(s);
    let neg = t.len() > 0 && t[0] == '-';
    let ds = if t.len() > 0 && (t[0] == '-' || t[0] == '+') {
        t.skip(1)
    } else {
        t
    };
    if 0 < ds.len() <= 18 && all_digits(ds) {
        let v = if neg {
            -digits_val(ds)
        } else {
            digits_val(ds)
        };
        if i32::MIN <= v <= i32::MAX {
            Some(v as i32)
        } else {
            None
        }
    } else {
        None
    }
}

/// The decimal value of `c`, when it is a digit.
fn digit_val(c: char) -> (r: Option<u32>)
    ensures
        r is Some <==> ('0' <= c && c <= '9'),
        r matches Some(v) ==> v == c as int - '0' as int && v < 10,
{
    let u = c as u32;
    if 48 <= u && u <= 57 {
        Some(u - 48)
    } else {
        None
    }
}

/// The process id written in `s`, when one is.
pub fn parse_pid(s: &String) -> (r: Option<i32>)
    ensures
        r == spec_parse_pid(s@),
{
    let t = trim_to_chars(s);
    let ghost tv = t@;
    let mut start: usize = 0;
    let mut neg = false;
    if t.len() > 0 && (t[0] == '-' || t[0] == '+') {
        neg = t[0] == '-';
        start = 1;
    }
    let ghost ds = if tv.len() > 0 && (tv[0] == '-' || tv[0] == '+') {
        tv.skip(1)
    } else {
        tv
    };
    proof {
        assert(ds =~= tv.skip(start as int));
    }
    let n = t.len();
    if start == n || n - start > 18 {
        return None;
    }
    let mut i: usize = start;
    let mut val: u64 = 0;
    proof {
        assert(ds.take(0) =~= Seq::<char>::empty());
    }
    while i < n
        invariant
            start <= i <= n,
            n == tv.len(),
            tv == t@,
            tv == trim(s@),
            n - start <= 18,
            start == tv.len() - ds.len(),
            ds == (if tv.len() > 0 && (tv[0] == '-' || tv[0] == '+') {
                tv.skip(1)
            } else {
                tv
            }),
            ds =~= tv.skip(start as int),
            all_digits(ds.take(i - start)),
            val == digits_val(ds.take(i - start)),
        decreases n - i,
    {
        let c = t[i];
        let d = match digit_val(c) {
            Some(d) => d,
            None => {
                proof {
                    assert(ds[i - start] == c);
                    assert(!('0' <= ds[i - start] && ds[i - start] <= '9'));
                    assert(!all_digits(ds));
                }
                return None;
            },
        };
        proof {
            lemma_digits_val_bounds(ds.take(i - start));
            assert(pow10(17) == 100000000000000000) by {
                reveal_with_fuel(pow10, 18);
            }
            lemma_pow10_mono((i - start) as nat, 17);
            assert(val < 100000000000000000);
            assert(ds.take(i + 1 - start).drop_last() =~= ds.take(i - start));
            assert(ds.take(i + 1 - start).last() == c);
        }
        val = val * 10 + (d as u64);
        i = i + 1;
    }
    proof {
        assert(ds.take(i - start) =~= ds);
    }
    if neg {
        if val > 0x8000_0000u64 {
            return None;
        }
        let sv: i64 = -(val as i64);
        Some(sv as i32)
    } else {
        if val > 0x7FFF_FFFFu64 {
            return None;
        }
        Some(val as i32)
    }
}

/// What a liveliness probe decides.
#[derive(Debug, Clone, Copy, PartialEq, Eq, Structural)]
pub enum ProbeOutcome {
    /// No daemon: no pid file, or a stale one just scheduled for removal.
    NotRunning,
    /// The pid file exists but could not be read.
    ReadError,
    /// The pid file holds no valid process id.
    InvalidPid,
    /// A live daemon with this process id.
    Running(i32),
}

/// The decision of one liveliness probe: the outcome, and which artifacts
/// to delete.
#[derive(Debug, Clone, Copy, PartialEq, Eq, Structural)]
pub struct ProbeDecision {
    /// What the probe concluded.
    pub outcome: ProbeOutcome,
    /// Delete the pid file.
    pub remove_pid_file: bool,
    /// Delete the socket file.
    pub remove_socket_file: bool,
}

/// Decides what one liveliness probe must do.  `content` is the text of the
/// pid file when it exists and could be read; `alive` reports whether the
/// recorded process answered an existence check.  A pid file referencing a
/// dead process is removed, and the socket file is removed with it — the
/// two artifacts always go together, on every probe.
pub fn probe_decision(pid_file_exists: bool, content: Option<&String>, alive: bool) -> (r:
    ProbeDecision)
    ensures
        r.remove_pid_file == r.remove_socket_file,
        !pid_file_exists ==> r.outcome == ProbeOutcome::NotRunning && !r.remove_pid_file,
        pid_file_exists && content is None ==> r.outcome == ProbeOutcome::ReadError
            && !r.remove_pid_file,
        pid_file_exists ==> (content matches Some(c) && spec_parse_pid(c@) is None ==> r.outcome
            == ProbeOutcome::InvalidPid && !r.remove_pid_file),
        pid_file_exists && alive ==> (content matches Some(c) ==> (spec_parse_pid(c@) matches Some(
            pid,
        ) ==> r.outcome == ProbeOutcome::Running(pid) && !r.remove_pid_file)),
        pid_file_exists && !alive ==> (content matches Some(c) ==> (spec_parse_pid(c@) is Some
            ==> r.outcome == ProbeOutcome::NotRunning && r.remove_pid_file
            && r.remove_socket_file)),
{
    if !pid_file_exists {
        return ProbeDecision {
            outcome: ProbeOutcome::NotRunning,
            remove_pid_file: false,
            remove_socket_file: false,
        };
    }
    match content {
        None => ProbeDecision {
            outcome: ProbeOutcome::ReadError,
            remove_pid_file: false,
            remove_socket_file: false,
        },
        Some(c) => match parse_pid(c) {
            None => ProbeDecision {
                outcome: ProbeOutcome::InvalidPid,
                remove_pid_file: false,
                remove_socket_file: false,
            },
            Some(pid) => {
                if alive {
                    ProbeDecision {
                        outcome: ProbeOutcome::Running(pid),
                        remove_pid_file: false,
                        remove_socket_file: false,
                    }
                } else {
                    ProbeDecision {
                        outcome: ProbeOutcome::NotRunning,
                        remove_pid_file: true,
                        remove_socket_file: true,
                    }
                }
            },
        },
    }
}

/// Whether a daemon process is present: true exactly when the probe found a
/// live pid.  Responsiveness is judged separately, over the control socket.
pub fn status(probe: &ProbeDecision) -> (r: bool)
    ensures
        r == (probe.outcome is Running),
{
    match probe.outcome {
        ProbeOutcome::Running(_) => true,
        _ => false,
    }
}

/// Whether `start` must spawn a new daemon: only when none is running.
pub fn start_decision(already_running: bool) -> (r: bool)
    ensures
        r == !already_running,
{
    !already_running
}

} // verus!
