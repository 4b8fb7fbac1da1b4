//! Rollback anchors and the invariants the router must hold: `/tmp` lives
//! in memory, `/boot` cannot be written.
use vstd::prelude::*;
use crate::text::{
    ascii_lower, ascii_lower_seq, chars_of, contains, contains_seq, lines, owned, push_decimal, decimal, split_lines,
    text_with, views_of,
};

verus! {

/// What went wrong on the way back.
#[derive(Debug, Clone)]
pub enum RollbackError {
    Snapshot(String),
    Restore(String),
    NetworkReload(String),
    InvariantViolation(String),
}

/// A line of `mount` output that speaks of `/tmp` as a mount point.
pub open spec fn mentions_tmp(line: Seq<char>) -> bool {
    contains_seq(line, "on /tmp "@) || contains_seq(line, "on /tmp/ "@) || contains_seq(line, " /tmp "@)
}

/// A line whose lower-cased text names a memory file system. (The markers
/// hold no `i` and no `k`, the only ASCII letters that `to_lowercase` makes
/// of other characters, so lower-casing ASCII letters alone decides alike.)
pub open spec fn names_memory_fs(line: Seq<char>) -> bool {
    let lower = ascii_lower_seq(line);
    contains_seq(lower, "tmpfs"@) || contains_seq(lower, "mfs"@) || contains_seq(lower, "md"@) || contains_seq(
        lower,
        "memory"@,
    )
}

/// Some line mounts `/tmp`.
pub open spec fn tmp_mounted(ls: Seq<Seq<char>>) -> bool {
    exists|i: int| 0 <= i < ls.len() && #[trigger] mentions_tmp(ls[i])
}

/// Some line mounts `/tmp` on a memory file system.
pub open spec fn tmp_in_memory(ls: Seq<Seq<char>>) -> bool {
    exists|i: int| 0 <= i < ls.len() && #[trigger] mentions_tmp(ls[i]) && names_memory_fs(ls[i])
}

/// How a system's `mount` output is judged: `/tmp` must be mounted (where
/// `allow_unmounted` holds, as on macOS, a missing mount passes) and held in
/// memory.
pub open spec fn tmp_verdict(mount_output: Seq<char>, allow_unmounted: bool) -> Result<(), Seq<char>> {
    let ls = lines(mount_output);
    if !tmp_mounted(ls) {
        if allow_unmounted {
            Ok(())
        } else {
            Err("No active mount point found for /tmp. It must be explicitly mounted."@)
        }
    } else if !tmp_in_memory(ls) {
        Err("Constitutional contradiction: /tmp is not mounted as an ephemeral tmpfs/md memory allocation!"@)
    } else {
        Ok(())
    }
}

/// Where `mount` output has a line that mounts `/tmp` (it holds `on /tmp `,
/// `on /tmp/ ` or ` /tmp `) and whose ASCII lower-cased text holds `tmpfs`,
/// `mfs`, `md` or `memory`, `/tmp` is held in memory and the check passes.
pub proof fn law_tmp_on_memory_fs_passes(
    mount_output: Seq<char>,
    allow_unmounted: bool,
    i: int,
    mount_pattern: Seq<char>,
    t: int,
    marker: Seq<char>,
    k: int,
)
    requires
        0 <= i < lines(mount_output).len(),
        mount_pattern == "on /tmp "@ || mount_pattern == "on /tmp/ "@ || mount_pattern == " /tmp "@,
        0 <= t && t + mount_pattern.len() <= lines(mount_output)[i].len(),
        lines(mount_output)[i].subrange(t, t + mount_pattern.len()) == mount_pattern,
        marker == "tmpfs"@ || marker == "mfs"@ || marker == "md"@ || marker == "memory"@,
        0 <= k && k + marker.len() <= lines(mount_output)[i].len(),
        ascii_lower_seq(lines(mount_output)[i]).subrange(k, k + marker.len()) == marker,
    ensures
        tmp_verdict(mount_output, allow_unmounted) == Ok::<(), Seq<char>>(()),
{
    let ls = lines(mount_output);
    let l = ls[i];
    assert(crate::text::occurs_at(l, mount_pattern, t));
    assert(crate::text::occurs_at(ascii_lower_seq(l), marker, k));
    assert(mentions_tmp(l));
    assert(names_memory_fs(l));
    assert(tmp_mounted(ls));
    assert(tmp_in_memory(ls));
}

/// Where `/tmp` is mounted but no line that mounts it names a memory file
/// system (none of `tmpfs`, `mfs`, `md`, `memory` in its ASCII lower-cased
/// text), the check fails with the contradiction error.
pub proof fn law_tmp_on_disk_fails(mount_output: Seq<char>, allow_unmounted: bool, i: int)
    requires
        0 <= i < lines(mount_output).len(),
        contains_seq(lines(mount_output)[i], "on /tmp "@) || contains_seq(lines(mount_output)[i], "on /tmp/ "@)
            || contains_seq(lines(mount_output)[i], " /tmp "@),
        forall|j: int|
            0 <= j < lines(mount_output).len() && (contains_seq(#[trigger] lines(mount_output)[j], "on /tmp "@)
                || contains_seq(lines(mount_output)[j], "on /tmp/ "@) || contains_seq(lines(mount_output)[j], " /tmp "@))
                ==> !contains_seq(ascii_lower_seq(lines(mount_output)[j]), "tmpfs"@) && !contains_seq(
                ascii_lower_seq(lines(mount_output)[j]),
                "mfs"@,
            ) && !contains_seq(ascii_lower_seq(lines(mount_output)[j]), "md"@) && !contains_seq(
                ascii_lower_seq(lines(mount_output)[j]),
                "memory"@,
            ),
    ensures
        tmp_verdict(mount_output, allow_unmounted) == Err::<(), Seq<char>>(
            "Constitutional contradiction: /tmp is not mounted as an ephemeral tmpfs/md memory allocation!"@,
        ),
{
    let ls = lines(mount_output);
    assert(mentions_tmp(ls[i]));
    assert(tmp_mounted(ls));
    if tmp_in_memory(ls) {
        let j = choose|j: int| 0 <= j < ls.len() && #[trigger] mentions_tmp(ls[j]) && names_memory_fs(ls[j]);
        assert(contains_seq(ls[j], "on /tmp "@) || contains_seq(ls[j], "on /tmp/ "@) || contains_seq(ls[j], " /tmp "@));
    }
}

/// Where no line mounts `/tmp`, the check passes only when an unmounted
/// `/tmp` is allowed, and otherwise fails with the missing-mount error.
pub proof fn law_tmp_unmounted(mount_output: Seq<char>, allow_unmounted: bool)
    requires
        forall|j: int|
            0 <= j < lines(mount_output).len() ==> !contains_seq(#[trigger] lines(mount_output)[j], "on /tmp "@)
                && !contains_seq(lines(mount_output)[j], "on /tmp/ "@) && !contains_seq(lines(mount_output)[j], " /tmp "@),
    ensures
        allow_unmounted ==> tmp_verdict(mount_output, allow_unmounted) == Ok::<(), Seq<char>>(()),
        !allow_unmounted ==> tmp_verdict(mount_output, allow_unmounted) == Err::<(), Seq<char>>(
            "No active mount point found for /tmp. It must be explicitly mounted."@,
        ),
{
    let ls = lines(mount_output);
    if tmp_mounted(ls) {
        let j = choose|j: int| 0 <= j < ls.len() && #[trigger] mentions_tmp(ls[j]);
        assert(!contains_seq(ls[j], "on /tmp "@));
    }
}

fn has(hay: &[char], needle: &str) -> (r: bool)
    ensures
        r == contains_seq(hay@, needle@),
{
    let n = chars_of(needle);
    contains(hay, n.as_slice())
}

/// Whether `mount` output shows `/tmp` mounted, and mounted in memory.
pub fn scan_tmp_mounts(mount_output: &str) -> (r: (bool, bool))
    ensures
        r.0 == tmp_mounted(lines(mount_output@)),
        r.1 == tmp_in_memory(lines(mount_output@)),
{
    let cs = chars_of(mount_output);
    let ls = split_lines(cs.as_slice());
    let ghost lv = views_of(ls@);
    let mut found = false;
    let mut ephemeral = false;
    let mut i: usize = 0;
    while i < ls.len()
        invariant
            lv == views_of(ls@),
            lv == lines(mount_output@),
            lv.len() == ls@.len(),
            i <= lv.len(),
            found == exists|j: int| 0 <= j < i && #[trigger] mentions_tmp(lv[j]),
            !ephemeral,
            forall|j: int| 0 <= j < i ==> !(#[trigger] mentions_tmp(lv[j]) && names_memory_fs(lv[j])),
        decreases ls.len() - i,
    {
        let line = ls[i].as_slice();
        assert(line@ == lv[i as int]);
        let m = has(line, "on /tmp ") || has(line, "on /tmp/ ") || has(line, " /tmp ");
        assert(m == mentions_tmp(lv[i as int]));
        if m {
            found = true;
            let lower = ascii_lower(line);
            let l = lower.as_slice();
            let e = has(l, "tmpfs") || has(l, "mfs") || has(l, "md") || has(l, "memory");
            assert(e == names_memory_fs(lv[i as int]));
            if e {
                ephemeral = true;
                assert(mentions_tmp(lv[i as int]) && names_memory_fs(lv[i as int]));
                assert(tmp_mounted(lv));
                return (true, true);
            }
        }
        i = i + 1;
    }
    (found, ephemeral)
}

/// Judges `mount` output: `/tmp` must be mounted, in memory.
pub fn tmp_mount_verdict(mount_output: &str, allow_unmounted: bool) -> (r: Result<(), RollbackError>)
    ensures
        match (r, tmp_verdict(mount_output@, allow_unmounted)) {
            (Ok(()), Ok(())) => true,
            (Err(RollbackError::InvariantViolation(m)), Err(e)) => m@ == e,
            _ => false,
        },
{
    let (found, ephemeral) = scan_tmp_mounts(mount_output);
    if !found {
        if allow_unmounted {
            return Ok(());
        }
        return Err(RollbackError::InvariantViolation(owned("No active mount point found for /tmp. It must be explicitly mounted.")));
    }
    if !ephemeral {
        return Err(RollbackError::InvariantViolation(owned(
            "Constitutional contradiction: /tmp is not mounted as an ephemeral tmpfs/md memory allocation!",
        )));
    }
    Ok(())
}

/// Judges the attempt to write to `/boot`: a missing `/boot` passes, a
/// write that succeeded is a breach, and a write that failed, whatever the
/// reason, passes.
pub fn boot_write_verdict(boot_exists: bool, write_succeeded: bool) -> (r: Result<(), RollbackError>)
    ensures
        r is Ok <==> !(boot_exists && write_succeeded),
        r matches Err(RollbackError::InvariantViolation(m)) ==> m@ == "Constitutional breach: /boot (RHEKNEL_CORE) is writeable!"@,
        !(r matches Err(RollbackError::InvariantViolation(_))) ==> r is Ok,
{
    if boot_exists && write_succeeded {
        Err(RollbackError::InvariantViolation(owned("Constitutional breach: /boot (RHEKNEL_CORE) is writeable!")))
    } else {
        Ok(())
    }
}

/// Where the snapshot taken at `ts` is kept.
pub fn backup_path(ts: u64) -> (p: String)
    ensures
        p@ == "/tmp/bs_config_backup_"@ + decimal(ts as nat),
{
    let mut p = owned("/tmp/bs_config_backup_");
    push_decimal(&mut p, ts);
    p
}

/// The error for a backup path that does not exist.
pub fn missing_backup(backup_path: &str) -> (e: RollbackError)
    ensures
        e matches RollbackError::Restore(m) && m@ == "Backup path "@ + backup_path@ + " does not exist"@,
{
    let mut m = text_with("Backup path ", backup_path);
    m.append(" does not exist");
    RollbackError::Restore(m)
}

/// What `cp -a` copies back: the backup's contents, not the directory.
pub fn restore_source(backup_path: &str) -> (s: String)
    ensures
        s@ == backup_path@ + "/."@,
{
    let mut s = owned(backup_path);
    s.append("/.");
    s
}

/// The snapshot a ZFS rollback goes back to: `dataset@snapshot`.
pub fn zfs_target(dataset: &str, snapshot: &str) -> (t: String)
    ensures
        t@ == dataset@ + "@"@ + snapshot@,
{
    let mut t = owned(dataset);
    t.append("@");
    t.append(snapshot);
    t
}

} // verus!
