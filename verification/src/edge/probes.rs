//! What the read-only probes make of the files they read: `/proc/meminfo`,
//! `/etc/os-release`, `/proc/self/status` and the interface files under
//! `/sys/class/net`.
use vstd::prelude::*;
use crate::text::{
    chars_of, lines, parse_unsigned, parse_unsigned_spec, split_lines, split_whitespace, starts_with, starts_with_seq,
    string_of, trim, trim_seq, views_of, words,
};

verus! {

/// The second white-space separated field of a line, as a number of
/// kilobytes.
pub open spec fn kb_spec(line: Seq<char>) -> Option<u64> {
    let w = words(line);
    if w.len() >= 2 {
        match parse_unsigned_spec(w[1], u64::MAX as nat) {
            Some(v) => Some(v as u64),
            None => None,
        }
    } else {
        None
    }
}

/// Reads the kilobyte count of a `/proc/meminfo` line such as
/// `MemTotal:  1024 kB`.
pub fn parse_kb(line: &str) -> (r: Option<u64>)
    ensures
        r == kb_spec(line@),
{
    let cs = chars_of(line);
    let parts = split_whitespace(cs.as_slice());
    proof {
        assert(views_of(parts@).len() == parts@.len());
    }
    if parts.len() >= 2 {
        assert(views_of(parts@)[1] == parts@[1]@);
        parse_unsigned(parts[1].as_slice(), u64::MAX)
    } else {
        None
    }
}

/// The value of the last line that starts with `key`.
pub open spec fn last_kb(ls: Seq<Seq<char>>, key: Seq<char>) -> Option<u64>
    decreases ls.len(),
{
    if ls.len() == 0 {
        None
    } else if starts_with_seq(ls.last(), key) {
        kb_spec(ls.last())
    } else {
        last_kb(ls.drop_last(), key)
    }
}

fn line_starts(line: &[char], key: &str) -> (r: bool)
    ensures
        r == starts_with_seq(line@, key@),
{
    let k = chars_of(key);
    starts_with(line, k.as_slice())
}

/// The total and free memory that `/proc/meminfo` reports, in kilobytes.
pub fn meminfo_totals(contents: &str) -> (r: (Option<u64>, Option<u64>))
    ensures
        r.0 == last_kb(lines(contents@), "MemTotal:"@),
        r.1 == last_kb(lines(contents@), "MemFree:"@),
{
    let cs = chars_of(contents);
    let ls = split_lines(cs.as_slice());
    let ghost lv = views_of(ls@);
    let mut total: Option<u64> = None;
    let mut free: Option<u64> = None;
    let mut i: usize = 0;
    while i < ls.len()
        invariant
            lv == views_of(ls@),
            lv == lines(contents@),
            lv.len() == ls@.len(),
            i <= lv.len(),
            total == last_kb(lv.take(i as int), "MemTotal:"@),
            free == last_kb(lv.take(i as int), "MemFree:"@),
        decreases ls.len() - i,
    {
        let line = ls[i].as_slice();
        let ghost part = lv.take(i + 1);
        assert(part.drop_last() =~= lv.take(i as int));
        assert(part.last() == line@);
        let s = string_of(line);
        if line_starts(line, "MemTotal:") {
            total = parse_kb(s.as_str());
            proof {
                reveal_strlit("MemTotal:");
                reveal_strlit("MemFree:");
                assert(!starts_with_seq(line@, "MemFree:"@)) by {
                    assert(line@[3] == "MemTotal:"@[3]);
                }
            }
        } else if line_starts(line, "MemFree:") {
            free = parse_kb(s.as_str());
        }
        i = i + 1;
    }
    assert(lv.take(i as int) =~= lv);
    (total, free)
}

/// `s` with every leading copy of `p` removed (`trim_start_matches`).
pub open spec fn strip_all_prefix(s: Seq<char>, p: Seq<char>) -> Seq<char>
    decreases s.len(),
{
    if p.len() > 0 && starts_with_seq(s, p) {
        strip_all_prefix(s.skip(p.len() as int), p)
    } else {
        s
    }
}

/// `s` with every leading and trailing `c` removed (`trim_matches`).
pub open spec fn trim_char(s: Seq<char>, c: char) -> Seq<char>
    decreases s.len(),
{
    if s.len() > 0 && s[0] == c {
        trim_char(s.drop_first(), c)
    } else if s.len() > 0 && s.last() == c {
        trim_char(s.drop_last(), c)
    } else {
        s
    }
}

/// The first line of `/etc/os-release` that starts with `PRETTY_NAME=`,
/// its value without the key and without quotes.
pub open spec fn pretty_name(ls: Seq<Seq<char>>) -> Option<Seq<char>>
    decreases ls.len(),
{
    if ls.len() == 0 {
        None
    } else if starts_with_seq(ls[0], "PRETTY_NAME="@) {
        Some(trim_char(strip_all_prefix(ls[0], "PRETTY_NAME="@), '"'))
    } else {
        pretty_name(ls.drop_first())
    }
}

fn prefix_at(s: &[char], start: usize, p: &[char]) -> (r: bool)
    requires
        start <= s.len(),
    ensures
        r == starts_with_seq(s@.skip(start as int), p@),
{
    if p.len() > s.len() - start {
        return false;
    }
    let mut j: usize = 0;
    while j < p.len()
        invariant
            start <= s.len(),
            p.len() <= s.len() - start,
            j <= p.len(),
            forall|k: int| 0 <= k < j ==> s@[start + k] == p@[k],
        decreases p.len() - j,
    {
        if s[start + j] != p[j] {
            assert(s@.skip(start as int).take(p.len() as int)[j as int] != p@[j as int]);
            return false;
        }
        j = j + 1;
    }
    assert(s@.skip(start as int).take(p.len() as int) =~= p@);
    true
}

fn strip_all_prefix_exec(s: &[char], p: &[char]) -> (r: Vec<char>)
    ensures
        r@ == strip_all_prefix(s@, p@),
{
    let mut start: usize = 0;
    assert(s@.skip(0) =~= s@);
    while p.len() > 0 && prefix_at(s, start, p)
        invariant
            start <= s.len(),
            strip_all_prefix(s@, p@) == strip_all_prefix(s@.skip(start as int), p@),
        decreases s.len() - start,
    {
        assert(s@.skip(start as int).skip(p.len() as int) =~= s@.skip(start + p.len()));
        start = start + p.len();
    }
    let mut r: Vec<char> = Vec::new();
    let mut k: usize = start;
    while k < s.len()
        invariant
            start <= k <= s.len(),
            r@ == s@.subrange(start as int, k as int),
        decreases s.len() - k,
    {
        r.push(s[k]);
        assert(s@.subrange(start as int, k + 1) =~= s@.subrange(start as int, k as int).push(s@[k as int]));
        k = k + 1;
    }
    assert(s@.subrange(start as int, s.len() as int) =~= s@.skip(start as int));
    r
}

fn trim_char_exec(s: &[char], c: char) -> (r: Vec<char>)
    ensures
        r@ == trim_char(s@, c),
{
    let mut lo: usize = 0;
    let mut hi: usize = s.len();
    assert(s@.subrange(0, s@.len() as int) =~= s@);
    while lo < hi && s[lo] == c
        invariant
            lo <= hi <= s.len(),
            hi == s.len(),
            trim_char(s@, c) == trim_char(s@.subrange(lo as int, hi as int), c),
        decreases hi - lo,
    {
        assert(s@.subrange(lo as int, hi as int).drop_first() =~= s@.subrange(lo + 1, hi as int));
        lo = lo + 1;
    }
    while lo < hi && s[hi - 1] == c
        invariant
            lo <= hi <= s.len(),
            lo < hi ==> s@[lo as int] != c,
            trim_char(s@, c) == trim_char(s@.subrange(lo as int, hi as int), c),
        decreases hi - lo,
    {
        assert(s@.subrange(lo as int, hi as int).drop_last() =~= s@.subrange(lo as int, hi - 1));
        hi = hi - 1;
    }
    let mut r: Vec<char> = Vec::new();
    let mut k: usize = lo;
    while k < hi
        invariant
            lo <= k <= hi <= s.len(),
            r@ == s@.subrange(lo as int, k as int),
        decreases hi - k,
    {
        r.push(s[k]);
        assert(s@.subrange(lo as int, k + 1) =~= s@.subrange(lo as int, k as int).push(s@[k as int]));
        k = k + 1;
    }
    r
}

/// The operating system's name from `/etc/os-release`.
pub fn os_pretty_name(contents: &str) -> (r: Option<String>)
    ensures
        match r {
            Some(n) => pretty_name(lines(contents@)) == Some(n@),
            None => pretty_name(lines(contents@)) is None,
        },
{
    let cs = chars_of(contents);
    let ls = split_lines(cs.as_slice());
    let ghost lv = views_of(ls@);
    let key = chars_of("PRETTY_NAME=");
    let mut i: usize = 0;
    assert(lv.skip(0) =~= lv);
    while i < ls.len()
        invariant
            lv == views_of(ls@),
            lv == lines(contents@),
            lv.len() == ls@.len(),
            key@ == "PRETTY_NAME="@,
            i <= lv.len(),
            pretty_name(lv) == pretty_name(lv.skip(i as int)),
        decreases ls.len() - i,
    {
        let line = ls[i].as_slice();
        assert(lv.skip(i as int)[0] == line@);
        assert(lv.skip(i as int).drop_first() =~= lv.skip(i + 1));
        if starts_with(line, key.as_slice()) {
            let stripped = strip_all_prefix_exec(line, key.as_slice());
            let t = trim_char_exec(stripped.as_slice(), '"');
            return Some(string_of(t.as_slice()));
        }
        i = i + 1;
    }
    None
}

/// Whether `/proc/self/status` shows uid 0: the second field of the first
/// `Uid:` line.
pub open spec fn uid_is_root(ls: Seq<Seq<char>>) -> bool
    decreases ls.len(),
{
    if ls.len() == 0 {
        false
    } else if starts_with_seq(ls[0], "Uid:"@) {
        words(ls[0]).len() >= 2 && words(ls[0])[1] == "0"@
    } else {
        uid_is_root(ls.drop_first())
    }
}

/// Whether the process runs as root, by its status file.
pub fn runs_as_root(status: &str) -> (r: bool)
    ensures
        r == uid_is_root(lines(status@)),
{
    let cs = chars_of(status);
    let ls = split_lines(cs.as_slice());
    let ghost lv = views_of(ls@);
    let key = chars_of("Uid:");
    let zero = chars_of("0");
    let mut i: usize = 0;
    assert(lv.skip(0) =~= lv);
    while i < ls.len()
        invariant
            lv == views_of(ls@),
            lv == lines(status@),
            lv.len() == ls@.len(),
            key@ == "Uid:"@,
            zero@ == "0"@,
            i <= lv.len(),
            uid_is_root(lv) == uid_is_root(lv.skip(i as int)),
        decreases ls.len() - i,
    {
        let line = ls[i].as_slice();
        assert(lv.skip(i as int)[0] == line@);
        assert(lv.skip(i as int).drop_first() =~= lv.skip(i + 1));
        if starts_with(line, key.as_slice()) {
            let w = split_whitespace(line);
            assert(views_of(w@).len() == w@.len());
            if w.len() >= 2 {
                assert(views_of(w@)[1] == w@[1]@);
                return crate::order::same_chars(w[1].as_slice(), zero.as_slice());
            }
            return false;
        }
        i = i + 1;
    }
    false
}

/// The MTU an interface's `mtu` file holds.
pub fn parse_mtu(content: &str) -> (r: Option<u32>)
    ensures
        match r {
            Some(v) => parse_unsigned_spec(trim_seq(content@), u32::MAX as nat) == Some(v as nat),
            None => parse_unsigned_spec(trim_seq(content@), u32::MAX as nat) is None,
        },
{
    let cs = chars_of(content);
    let t = trim(cs.as_slice());
    match parse_unsigned(t.as_slice(), u32::MAX as u64) {
        Some(v) => Some(v as u32),
        None => None,
    }
}

/// An interface's state as its `operstate` file gives it.
pub fn operstate(content: &str) -> (r: String)
    ensures
        r@ == trim_seq(content@),
{
    let cs = chars_of(content);
    let t = trim(cs.as_slice());
    string_of(t.as_slice())
}

/// The MTU of one interface, if its file could be read and parsed.
#[derive(Debug)]
pub struct MtuStatus {
    pub interface: String,
    pub mtu: Option<u32>,
}

/// The MTU probe's report.
#[derive(Debug)]
pub struct MtuTelemetry {
    pub event_type: String,
    pub timestamp: u64,
    pub status: Vec<MtuStatus>,
}

/// The state of one interface.
#[derive(Debug)]
pub struct InterfaceStatus {
    pub interface: String,
    pub state: String,
    pub exists: bool,
}

/// The interface probe's report.
#[derive(Debug)]
pub struct InterfaceTelemetry {
    pub event_type: String,
    pub timestamp: u64,
    pub status: Vec<InterfaceStatus>,
}

/// The status of one interface from what reading its `operstate` gave.
pub fn interface_status(interface: &str, operstate_file: Option<&str>) -> (r: InterfaceStatus)
    ensures
        r.interface@ == interface@,
        r.exists == operstate_file is Some,
        match operstate_file {
            Some(c) => r.state@ == trim_seq(c@),
            None => r.state@ == "unknown"@,
        },
{
    match operstate_file {
        Some(c) => InterfaceStatus { interface: crate::text::owned(interface), state: operstate(c), exists: true },
        None => InterfaceStatus {
            interface: crate::text::owned(interface),
            state: crate::text::owned("unknown"),
            exists: false,
        },
    }
}

/// The MTU of one interface from what reading its `mtu` file gave.
pub fn mtu_status(interface: &str, mtu_file: Option<&str>) -> (r: MtuStatus)
    ensures
        r.interface@ == interface@,
        match mtu_file {
            Some(c) => match r.mtu {
                Some(v) => parse_unsigned_spec(trim_seq(c@), u32::MAX as nat) == Some(v as nat),
                None => parse_unsigned_spec(trim_seq(c@), u32::MAX as nat) is None,
            },
            None => r.mtu is None,
        },
{
    let mtu = match mtu_file {
        Some(c) => parse_mtu(c),
        None => None,
    };
    MtuStatus { interface: crate::text::owned(interface), mtu }
}

/// The doctor's status word.
pub fn doctor_status(release_file_readable: bool) -> (r: &'static str)
    ensures
        r@ == if release_file_readable { "ok"@ } else { "warning_not_FreeBSD"@ },
{
    if release_file_readable { "ok" } else { "warning_not_FreeBSD" }
}

/// The system probe's status word: memory figures read, and both
/// compliance checks passed.
pub fn system_status(mem_total_read: bool, tmp_compliant: bool, boot_compliant: bool) -> (r: &'static str)
    ensures
        r@ == if mem_total_read && tmp_compliant && boot_compliant { "ok"@ } else { "warn"@ },
{
    if mem_total_read && tmp_compliant && boot_compliant { "ok" } else { "warn" }
}

} // verus!
