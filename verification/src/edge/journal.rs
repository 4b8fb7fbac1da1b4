//! The local event journal (one JSON document per line) and the files of a
//! transaction: the rotating rollback archives and the confirmation marker.
use vstd::prelude::*;
use crate::text::{chars_of, decimal, lines, owned, push_decimal, split_lines, string_of, text_with, views_of};

verus! {

/// The last `n` lines, or all of them where `n` is zero (a window of zero
/// lines never fills, so nothing is ever dropped).
pub open spec fn tail_spec(ls: Seq<Seq<char>>, n: nat) -> Seq<Seq<char>> {
    if n == 0 || ls.len() <= n {
        ls
    } else {
        ls.skip(ls.len() - n)
    }
}

pub open spec fn texts(v: Seq<String>) -> Seq<Seq<char>> {
    v.map_values(|s: String| s@)
}

/// The journal's last `n` lines, oldest first.
pub fn tail_lines(contents: &str, n: usize) -> (r: Vec<String>)
    ensures
        texts(r@) == tail_spec(lines(contents@), n as nat),
{
    let cs = chars_of(contents);
    let ls = split_lines(cs.as_slice());
    let ghost lv = views_of(ls@);
    let mut out: Vec<String> = Vec::new();
    let mut i: usize = 0;
    while i < ls.len()
        invariant
            lv == views_of(ls@),
            lv == lines(contents@),
            lv.len() == ls@.len(),
            i <= lv.len(),
            texts(out@) == tail_spec(lv.take(i as int), n as nat),
        decreases ls.len() - i,
    {
        let ghost prev = lv.take(i as int);
        let ghost next = lv.take(i + 1);
        assert(next =~= prev.push(lv[i as int]));
        if out.len() == n && out.len() > 0 {
            out.remove(0);
        }
        let line = string_of(ls[i].as_slice());
        let ghost before = out@;
        out.push(line);
        proof {
            assert(texts(out@) =~= texts(before).push(lv[i as int]));
            if n > 0 && prev.len() >= n {
                assert(next.skip(next.len() - n) =~= prev.skip(prev.len() - n).drop_first().push(lv[i as int]));
            }
            if n > 0 && prev.len() == n {
                assert(prev.skip(0) =~= prev);
            }
        }
        i = i + 1;
    }
    assert(lv.take(i as int) =~= lv);
    out
}

/// Where the rollback archive of slot `i` lives.
pub open spec fn archive_path(i: nat) -> Seq<char> {
    "/tmp/blueshoes/rollbacks/rb_"@ + decimal(i) + ".tar.gz"@
}

/// The name of slot `i`'s archive.
pub fn archive_for(i: u64) -> (p: String)
    ensures
        p@ == archive_path(i as nat),
{
    let mut p = owned("/tmp/blueshoes/rollbacks/rb_");
    push_decimal(&mut p, i);
    p.append(".tar.gz");
    p
}

/// The renames that make room for a new archive, oldest first: slot 8 to
/// 9, then 7 to 8, and so on down to 0 to 1.
pub fn rollback_shift_plan() -> (r: Vec<(String, String)>)
    ensures
        r@.len() == 9,
        forall|k: int| 0 <= k < 9 ==> (#[trigger] r@[k]).0@ == archive_path((8 - k) as nat) && r@[k].1@ == archive_path(
            (9 - k) as nat,
        ),
{
    let mut r: Vec<(String, String)> = Vec::new();
    let mut i: u64 = 9;
    while i > 0
        invariant
            i <= 9,
            r@.len() == 9 - i,
            forall|k: int| 0 <= k < 9 - i ==> (#[trigger] r@[k]).0@ == archive_path((8 - k) as nat) && r@[k].1@
                == archive_path((9 - k) as nat),
        decreases i,
    {
        i = i - 1;
        r.push((archive_for(i), archive_for(i + 1)));
    }
    r
}

/// The marker whose appearance tells the watchdog a transaction is
/// confirmed.
pub fn confirm_file(tx_id: &str) -> (p: String)
    ensures
        p@ == "/tmp/blueshoes_confirm_"@ + tx_id@,
{
    text_with("/tmp/blueshoes_confirm_", tx_id)
}

/// The arguments that arm the watchdog for a transaction.
pub fn watchdog_arguments(tx_id: &str, timeout_secs: u64) -> (r: Vec<String>)
    ensures
        r@.len() == 4,
        r@[0]@ == "--tx-id"@,
        r@[1]@ == tx_id@,
        r@[2]@ == "--timeout"@,
        r@[3]@ == decimal(timeout_secs as nat),
{
    let mut t = String::new();
    push_decimal(&mut t, timeout_secs);
    assert(t@ =~= decimal(timeout_secs as nat));
    let mut r: Vec<String> = Vec::new();
    r.push(owned("--tx-id"));
    r.push(owned(tx_id));
    r.push(owned("--timeout"));
    r.push(t);
    r
}

} // verus!
