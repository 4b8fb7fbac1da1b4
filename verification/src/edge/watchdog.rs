//! The dead man's switch: how the watchdog reads its arguments, judges the
//! router's invariants, and decides, second by second, between waiting,
//! disarming and rolling back.
use vstd::prelude::*;
use crate::edge::rollback::{scan_tmp_mounts, tmp_in_memory, tmp_mounted};
use crate::json_text::string_views;
use crate::order::same_chars;
use crate::text::{
    all_digits, chars_of, digits_value, lines, owned, parse_unsigned, parse_unsigned_spec, starts_with_seq, text_with,
};

verus! {

/// What `str::parse::<i32>` gives: an optional sign, then at least one
/// digit, and a value in range.
pub open spec fn parse_i32_spec(s: Seq<char>) -> Option<int> {
    if s.len() > 0 && s[0] == '-' {
        let body = s.drop_first();
        if body.len() == 0 || !all_digits(body) || digits_value(body) > 2147483648 {
            None
        } else {
            Some(-(digits_value(body) as int))
        }
    } else {
        match parse_unsigned_spec(s, 2147483647) {
            Some(v) => Some(v as int),
            None => None,
        }
    }
}

/// Parses a signed 32-bit number as `str::parse::<i32>` does.
pub fn parse_i32(s: &[char]) -> (r: Option<i32>)
    ensures
        match r {
            Some(v) => parse_i32_spec(s@) == Some(v as int),
            None => parse_i32_spec(s@) is None,
        },
{
    if s.len() > 0 && s[0] == '-' {
        let mut body: Vec<char> = Vec::new();
        let mut k: usize = 1;
        while k < s.len()
            invariant
                1 <= k <= s.len(),
                body@ == s@.subrange(1, k as int),
            decreases s.len() - k,
        {
            body.push(s[k]);
            assert(s@.subrange(1, k + 1) =~= s@.subrange(1, k as int).push(s@[k as int]));
            k = k + 1;
        }
        assert(body@ =~= s@.drop_first());
        if body.len() > 0 && body[0] == '+' {
            proof {
                assert(!crate::text::is_digit(body@[0]));
            }
            return None;
        }
        match parse_unsigned(body.as_slice(), 2147483648) {
            Some(v) => {
                proof {
                    assert(!(body@.len() > 0 && body@[0] == '+'));
                }
                if v == 2147483648 {
                    Some(-2147483647i32 - 1)
                } else {
                    Some(-(v as i32))
                }
            },
            None => None,
        }
    } else {
        match parse_unsigned(s, 2147483647) {
            Some(v) => Some(v as i32),
            None => None,
        }
    }
}

/// How the watchdog was asked to run.
#[derive(Debug)]
pub enum WatchdogMode {
    /// Restore an interface's MTU unless `COMMIT` arrives on stdin.
    Legacy { ifname: String, prev_mtu: String, timeout_secs: i32 },
    /// Watch one transaction.
    Transaction { tx_id: String, timeout_secs: i32 },
    /// No transaction was named: print the usage and fail.
    Usage,
}

pub enum WatchdogModeView {
    Legacy { ifname: Seq<char>, prev_mtu: Seq<char>, timeout_secs: i32 },
    Transaction { tx_id: Seq<char>, timeout_secs: i32 },
    Usage,
}

impl View for WatchdogMode {
    type V = WatchdogModeView;

    open spec fn view(&self) -> WatchdogModeView {
        match self {
            WatchdogMode::Legacy { ifname, prev_mtu, timeout_secs } => WatchdogModeView::Legacy {
                ifname: ifname@,
                prev_mtu: prev_mtu@,
                timeout_secs: *timeout_secs,
            },
            WatchdogMode::Transaction { tx_id, timeout_secs } => WatchdogModeView::Transaction {
                tx_id: tx_id@,
                timeout_secs: *timeout_secs,
            },
            WatchdogMode::Usage => WatchdogModeView::Usage,
        }
    }
}

/// A number of seconds, or `dflt` where the text is none.
pub open spec fn secs_or(s: Seq<char>, dflt: i32) -> i32 {
    match parse_i32_spec(s) {
        Some(v) => v as i32,
        None => dflt,
    }
}

/// The flags from position `i` on: `--tx-id` and `--timeout` take the next
/// argument (the later wins); anything else is skipped.
pub open spec fn scan_flags(a: Seq<Seq<char>>, i: int, tx: Seq<char>, t: i32) -> (Seq<char>, i32)
    decreases a.len() - i,
{
    if i < 0 || i >= a.len() {
        (tx, t)
    } else if a[i] == "--tx-id"@ && i + 1 < a.len() {
        scan_flags(a, i + 2, a[i + 1], t)
    } else if a[i] == "--timeout"@ && i + 1 < a.len() {
        scan_flags(a, i + 2, tx, secs_or(a[i + 1], 60))
    } else {
        scan_flags(a, i + 1, tx, t)
    }
}

/// How the command line (program name first) asks the watchdog to run:
/// three positional arguments are the legacy form; otherwise the flags,
/// and without a transaction the usage.
pub open spec fn mode_spec(a: Seq<Seq<char>>) -> WatchdogModeView {
    if a.len() == 4 && !starts_with_seq(a[1], "-"@) {
        WatchdogModeView::Legacy { ifname: a[1], prev_mtu: a[2], timeout_secs: secs_or(a[3], 30) }
    } else {
        let (tx, t) = scan_flags(a, 1, seq![], 60);
        if tx.len() == 0 {
            WatchdogModeView::Usage
        } else {
            WatchdogModeView::Transaction { tx_id: tx, timeout_secs: t }
        }
    }
}

fn secs_of(s: &String, dflt: i32) -> (r: i32)
    ensures
        r == secs_or(s@, dflt),
{
    let cs = chars_of(s.as_str());
    match parse_i32(cs.as_slice()) {
        Some(v) => v,
        None => dflt,
    }
}

fn is_flag(s: &String, flag: &str) -> (r: bool)
    ensures
        r == (s@ == flag@),
{
    let a = chars_of(s.as_str());
    let b = chars_of(flag);
    same_chars(a.as_slice(), b.as_slice())
}

/// Reads the watchdog's command line.
pub fn watchdog_mode(args: &Vec<String>) -> (m: WatchdogMode)
    ensures
        m@ == mode_spec(string_views(args@)),
{
    let ghost a = string_views(args@);
    if args.len() == 4 {
        let first = chars_of(args[1].as_str());
        let dash = chars_of("-");
        if !crate::text::starts_with(first.as_slice(), dash.as_slice()) {
            return WatchdogMode::Legacy {
                ifname: args[1].clone(),
                prev_mtu: args[2].clone(),
                timeout_secs: secs_of(&args[3], 30),
            };
        }
    }
    let mut tx_id = String::new();
    let mut timeout_secs: i32 = 60;
    let mut i: usize = 1;
    while i < args.len()
        invariant
            a == string_views(args@),
            a.len() == args@.len(),
            1 <= i,
            scan_flags(a, 1, seq![], 60) == scan_flags(a, i as int, tx_id@, timeout_secs),
        decreases args.len() - i,
    {
        if is_flag(&args[i], "--tx-id") && i + 1 < args.len() {
            tx_id = args[i + 1].clone();
            i = i + 2;
        } else if is_flag(&args[i], "--timeout") && i + 1 < args.len() {
            timeout_secs = secs_of(&args[i + 1], 60);
            i = i + 2;
        } else {
            i = i + 1;
        }
    }
    if tx_id.as_str().is_empty() {
        WatchdogMode::Usage
    } else {
        WatchdogMode::Transaction { tx_id, timeout_secs }
    }
}

/// The marker the watchdog waits for.
pub fn watchdog_confirm_file(mode: &WatchdogMode) -> (p: String)
    ensures
        match mode@ {
            WatchdogModeView::Legacy { .. } => p@ == "/tmp/blueshoes_confirm_canary"@,
            WatchdogModeView::Transaction { tx_id, .. } => p@ == "/tmp/blueshoes_confirm_"@ + tx_id,
            WatchdogModeView::Usage => p@ == "/tmp/blueshoes_confirm_"@,
        },
{
    match mode {
        WatchdogMode::Legacy { .. } => owned("/tmp/blueshoes_confirm_canary"),
        WatchdogMode::Transaction { tx_id, .. } => text_with("/tmp/blueshoes_confirm_", tx_id.as_str()),
        WatchdogMode::Usage => owned("/tmp/blueshoes_confirm_"),
    }
}

/// How the watchdog judges `mount` output.
pub open spec fn watchdog_tmp_spec(mount_output: Seq<char>, allow_unmounted: bool) -> Result<(), Seq<char>> {
    let ls = lines(mount_output);
    if !tmp_mounted(ls) {
        if allow_unmounted {
            Ok(())
        } else {
            Err("No active mount point found for /tmp."@)
        }
    } else if !tmp_in_memory(ls) {
        Err("Constitutional contradiction: /tmp is not mounted as an ephemeral tmpfs/md memory allocation!"@)
    } else {
        Ok(())
    }
}

/// Judges `mount` output as the watchdog does.
pub fn watchdog_tmp_verdict(mount_output: &str, allow_unmounted: bool) -> (r: Result<(), String>)
    ensures
        match (r, watchdog_tmp_spec(mount_output@, allow_unmounted)) {
            (Ok(()), Ok(())) => true,
            (Err(m), Err(e)) => m@ == e,
            _ => false,
        },
{
    let (found, ephemeral) = scan_tmp_mounts(mount_output);
    if !found {
        if allow_unmounted {
            return Ok(());
        }
        return Err(owned("No active mount point found for /tmp."));
    }
    if !ephemeral {
        return Err(owned("Constitutional contradiction: /tmp is not mounted as an ephemeral tmpfs/md memory allocation!"));
    }
    Ok(())
}

/// The reason a failed compliance check gives for an emergency rollback.
pub fn compliance_failure(tmp: Result<(), String>, boot: Result<(), String>) -> (r: Option<String>)
    ensures
        match (tmp, boot) {
            (Err(e), _) => r matches Some(m) && m@ == "Ephemeral /tmp check failed: "@ + e@,
            (Ok(()), Err(e)) => r matches Some(m) && m@ == "Read-only /boot check failed: "@ + e@,
            (Ok(()), Ok(())) => r is None,
        },
{
    match tmp {
        Err(e) => Some(text_with("Ephemeral /tmp check failed: ", e.as_str())),
        Ok(()) => match boot {
            Err(e) => Some(text_with("Read-only /boot check failed: ", e.as_str())),
            Ok(()) => None,
        },
    }
}

/// What the watchdog does next.
#[derive(Debug, Clone, Copy, PartialEq, Eq, Structural)]
pub enum WatchdogAction {
    /// An invariant broke: roll back now and exit with status 101.
    EmergencyRollback,
    /// The transaction was confirmed: remove the marker and exit cleanly.
    Disarm,
    /// Sleep a second and look again.
    Wait,
    /// Time is up: roll back.
    Expire,
}

/// One tick of the watchdog, `elapsed` seconds in: time runs out first,
/// then a broken invariant, then a confirmation.
pub fn watchdog_step(elapsed: i64, timeout_secs: i32, compliant: bool, confirmed: bool) -> (a: WatchdogAction)
    ensures
        a == if elapsed >= timeout_secs {
            WatchdogAction::Expire
        } else if !compliant {
            WatchdogAction::EmergencyRollback
        } else if confirmed {
            WatchdogAction::Disarm
        } else {
            WatchdogAction::Wait
        },
{
    if elapsed >= timeout_secs as i64 {
        WatchdogAction::Expire
    } else if !compliant {
        WatchdogAction::EmergencyRollback
    } else if confirmed {
        WatchdogAction::Disarm
    } else {
        WatchdogAction::Wait
    }
}

/// The ZFS snapshot to roll back to: the configured one, else the stable
/// genesis snapshot.
pub fn zfs_snapshot_or_default(configured: Option<&str>) -> (s: String)
    ensures
        match configured {
            Some(c) => s@ == c@,
            None => s@ == "tank/blueshoes/runtime@genesis_stable"@,
        },
{
    match configured {
        Some(c) => owned(c),
        None => owned("tank/blueshoes/runtime@genesis_stable"),
    }
}

/// Where a rollback archive unpacks: `/etc` on a router with `/etc/config`,
/// else `/tmp`.
pub fn unpack_target(etc_config_exists: bool) -> (d: &'static str)
    ensures
        d@ == if etc_config_exists { "/etc"@ } else { "/tmp"@ },
{
    if etc_config_exists { "/etc" } else { "/tmp" }
}

} // verus!
