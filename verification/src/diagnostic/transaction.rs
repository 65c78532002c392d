//! Writing fixed texts so that all files change or none does.
//!
//! Every new text is first written beside its file, and every file is backed
//! up; only then are the files replaced, one after the other. What has to be
//! undone when a step fails is decided here. The steps themselves are carried
//! out by the caller.

use crate::diagnostic::fix::FixError;
use crate::table::{has, holds, insert_name, join, joined, views};
use crate::text::{cat, decimal, push_decimal, push_wide};
use vstd::prelude::*;

verus! {

/// A step that undoes something, for the file at a place.
#[derive(Debug, Clone, Copy, PartialEq, Eq, Structural)]
pub enum Undo {
    /// Removes the new text beside the file.
    RemoveStaged(usize),
    /// Removes the backup.
    RemoveBackup(usize),
    /// Puts the backup in the place of the file.
    Restore(usize),
}

/// The new texts from one place up to another.
pub open spec fn staged_range(lo: int, hi: int) -> Seq<Undo> {
    Seq::new(
        if lo < hi {
            (hi - lo) as nat
        } else {
            0
        },
        |i: int| Undo::RemoveStaged((lo + i) as usize),
    )
}

/// The backups from one place up to another.
pub open spec fn backup_range(lo: int, hi: int) -> Seq<Undo> {
    Seq::new(
        if lo < hi {
            (hi - lo) as nat
        } else {
            0
        },
        |i: int| Undo::RemoveBackup((lo + i) as usize),
    )
}

/// The first `n` files, from the last to the first.
pub open spec fn restores(n: int) -> Seq<Undo> {
    Seq::new(n as nat, |i: int| Undo::Restore((n - 1 - i) as usize))
}

/// What is undone where writing a new text failed.
pub open spec fn after_failed_stage(failed: int) -> Seq<Undo> {
    seq![Undo::RemoveStaged(failed as usize)] + staged_range(0, failed)
}

/// What is undone where backing a file up failed.
pub open spec fn after_failed_backup(failed: int, count: int) -> Seq<Undo> {
    staged_range(0, count) + restores(failed)
}

/// What is undone where replacing a file failed.
pub open spec fn after_failed_replacement(failed: int, count: int) -> Seq<Undo> {
    staged_range(failed, count) + restores(count)
}

/// What is undone where a file turned out to have changed meanwhile.
pub open spec fn after_foreign_change(changed: int, count: int) -> Seq<Undo> {
    staged_range(0, count) + restores(changed) + backup_range(changed, count)
}

fn push_staged(out: &mut Vec<Undo>, lo: usize, hi: usize)
    requires
        lo <= hi,
    ensures
        final(out)@ == old(out)@ + staged_range(lo as int, hi as int),
{
    let ghost front = out@;
    let mut i: usize = lo;
    assert(out@ =~= front + staged_range(lo as int, lo as int));
    while i < hi
        invariant
            lo <= i <= hi,
            out@ == front + staged_range(lo as int, i as int),
        decreases hi - i,
    {
        out.push(Undo::RemoveStaged(i));
        assert(out@ =~= front + staged_range(lo as int, i + 1));
        i += 1;
    }
}

fn push_backups(out: &mut Vec<Undo>, lo: usize, hi: usize)
    requires
        lo <= hi,
    ensures
        final(out)@ == old(out)@ + backup_range(lo as int, hi as int),
{
    let ghost front = out@;
    let mut i: usize = lo;
    assert(out@ =~= front + backup_range(lo as int, lo as int));
    while i < hi
        invariant
            lo <= i <= hi,
            out@ == front + backup_range(lo as int, i as int),
        decreases hi - i,
    {
        out.push(Undo::RemoveBackup(i));
        assert(out@ =~= front + backup_range(lo as int, i + 1));
        i += 1;
    }
}

fn push_restores(out: &mut Vec<Undo>, n: usize)
    ensures
        final(out)@ == old(out)@ + restores(n as int),
{
    let ghost front = out@;
    let mut i: usize = n;
    assert(out@ =~= front + restores(n as int).take(0));
    while i > 0
        invariant
            i <= n,
            out@ == front + restores(n as int).take(n - i),
        decreases i,
    {
        out.push(Undo::Restore((i - 1) as usize));
        assert(out@ =~= front + restores(n as int).take(n - i + 1));
        i -= 1;
    }
    assert(restores(n as int).take(n as int) =~= restores(n as int));
}

/// What is undone where writing a new text failed: nothing was replaced yet,
/// and the new texts so far are removed.
pub fn rollback_staging(failed: usize) -> (r: Vec<Undo>)
    ensures
        r@ == after_failed_stage(failed as int),
{
    let mut out: Vec<Undo> = Vec::new();
    out.push(Undo::RemoveStaged(failed));
    push_staged(&mut out, 0, failed);
    assert(out@ =~= after_failed_stage(failed as int));
    out
}

/// What is undone where backing a file up failed.
pub fn rollback_backup(failed: usize, count: usize) -> (r: Vec<Undo>)
    requires
        failed < count,
    ensures
        r@ == after_failed_backup(failed as int, count as int),
{
    let mut out: Vec<Undo> = Vec::new();
    push_staged(&mut out, 0, count);
    push_restores(&mut out, failed);
    assert(out@ =~= after_failed_backup(failed as int, count as int));
    out
}

/// What is undone where replacing a file failed, or reading it again in front
/// of that: the new texts that are left are removed, and all files restored.
pub fn rollback_replacement(failed: usize, count: usize) -> (r: Vec<Undo>)
    requires
        failed < count,
    ensures
        r@ == after_failed_replacement(failed as int, count as int),
{
    let mut out: Vec<Undo> = Vec::new();
    push_staged(&mut out, failed, count);
    push_restores(&mut out, count);
    assert(out@ =~= after_failed_replacement(failed as int, count as int));
    out
}

/// What is undone where a file turned out to have changed meanwhile: the files
/// in front of it are restored, and that file is left alone.
pub fn abort_stale_transaction(changed: usize, count: usize) -> (r: Vec<Undo>)
    requires
        changed < count,
    ensures
        r@ == after_foreign_change(changed as int, count as int),
{
    let mut out: Vec<Undo> = Vec::new();
    push_staged(&mut out, 0, count);
    push_restores(&mut out, changed);
    push_backups(&mut out, changed, count);
    assert(out@ =~= after_foreign_change(changed as int, count as int));
    out
}

/// What is cleaned up once all files are replaced.
pub fn committed(count: usize) -> (r: Vec<Undo>)
    ensures
        r@ == backup_range(0, count as int),
{
    let mut out: Vec<Undo> = Vec::new();
    push_backups(&mut out, 0, count);
    assert(out@ =~= backup_range(0, count as int));
    out
}

/// What a file holds.
pub enum Text {
    Original,
    Replacement,
    /// What somebody else wrote.
    Foreign,
}

/// A file during the transaction: what it holds, and whether its new text and
/// its backup stand beside it.
pub struct TargetState {
    pub text: Text,
    pub staged: bool,
    pub backup: bool,
}

/// The files after a step.
pub open spec fn undone(s: Seq<TargetState>, step: Undo) -> Seq<TargetState> {
    match step {
        Undo::RemoveStaged(i) => s.update(
            i as int,
            TargetState { staged: false, ..s[i as int] },
        ),
        Undo::RemoveBackup(i) => s.update(
            i as int,
            TargetState { backup: false, ..s[i as int] },
        ),
        Undo::Restore(i) => s.update(
            i as int,
            TargetState { text: Text::Original, backup: false, ..s[i as int] },
        ),
    }
}

/// The files after some steps.
pub open spec fn all_undone(s: Seq<TargetState>, steps: Seq<Undo>) -> Seq<TargetState>
    decreases steps.len(),
{
    if steps.len() == 0 {
        s
    } else {
        all_undone(undone(s, steps[0]), steps.drop_first())
    }
}

proof fn undone_in_parts(s: Seq<TargetState>, a: Seq<Undo>, b: Seq<Undo>)
    ensures
        all_undone(s, a + b) == all_undone(all_undone(s, a), b),
    decreases a.len(),
{
    if a.len() == 0 {
        assert(a + b =~= b);
    } else {
        assert((a + b).drop_first() =~= a.drop_first() + b);
        undone_in_parts(undone(s, a[0]), a.drop_first(), b);
    }
}

proof fn staged_removed(s: Seq<TargetState>, lo: int, hi: int)
    requires
        0 <= lo <= hi <= s.len() <= usize::MAX,
    ensures
        ({
            let r = all_undone(s, staged_range(lo, hi));
            &&& r.len() == s.len()
            &&& forall|i: int|
                0 <= i < s.len() ==> #[trigger] r[i] == (if lo <= i < hi {
                    TargetState { staged: false, ..s[i] }
                } else {
                    s[i]
                })
        }),
    decreases hi - lo,
{
    if lo < hi {
        assert(staged_range(lo, hi).drop_first() =~= staged_range(lo + 1, hi));
        staged_removed(undone(s, staged_range(lo, hi)[0]), lo + 1, hi);
    }
}

proof fn backups_removed(s: Seq<TargetState>, lo: int, hi: int)
    requires
        0 <= lo <= hi <= s.len() <= usize::MAX,
    ensures
        ({
            let r = all_undone(s, backup_range(lo, hi));
            &&& r.len() == s.len()
            &&& forall|i: int|
                0 <= i < s.len() ==> #[trigger] r[i] == (if lo <= i < hi {
                    TargetState { backup: false, ..s[i] }
                } else {
                    s[i]
                })
        }),
    decreases hi - lo,
{
    if lo < hi {
        assert(backup_range(lo, hi).drop_first() =~= backup_range(lo + 1, hi));
        backups_removed(undone(s, backup_range(lo, hi)[0]), lo + 1, hi);
    }
}

proof fn texts_restored(s: Seq<TargetState>, n: int)
    requires
        0 <= n <= s.len() <= usize::MAX,
    ensures
        ({
            let r = all_undone(s, restores(n));
            &&& r.len() == s.len()
            &&& forall|i: int|
                0 <= i < s.len() ==> #[trigger] r[i] == (if i < n {
                    TargetState { text: Text::Original, backup: false, ..s[i] }
                } else {
                    s[i]
                })
        }),
    decreases n,
{
    if n > 0 {
        assert(restores(n).drop_first() =~= restores(n - 1));
        texts_restored(undone(s, restores(n)[0]), n - 1);
    }
}

/// A file as it was before the transaction.
pub open spec fn untouched() -> TargetState {
    TargetState { text: Text::Original, staged: false, backup: false }
}

/// Where writing a new text fails, undoing leaves all files as they were.
pub proof fn failed_stage_leaves_no_trace(s: Seq<TargetState>, failed: int)
    requires
        0 <= failed < s.len() <= usize::MAX,
        forall|i: int|
            0 <= i < s.len() ==> (#[trigger] s[i]).text is Original && !s[i].backup && (i > failed
                ==> !s[i].staged),
    ensures
        all_undone(s, after_failed_stage(failed)).len() == s.len(),
        forall|i: int|
            0 <= i < s.len() ==> #[trigger] all_undone(s, after_failed_stage(failed))[i]
                == untouched(),
{
    let first = seq![Undo::RemoveStaged(failed as usize)];
    let rest = staged_range(0, failed);
    assert((first + rest).drop_first() =~= rest);
    staged_removed(undone(s, first[0]), 0, failed);
}

/// Where backing a file up fails, undoing leaves all files as they were.
pub proof fn failed_backup_leaves_no_trace(s: Seq<TargetState>, failed: int)
    requires
        0 <= failed < s.len() <= usize::MAX,
        forall|i: int|
            0 <= i < s.len() ==> (#[trigger] s[i]).text is Original && s[i].backup == (i < failed),
    ensures
        all_undone(s, after_failed_backup(failed, s.len() as int)).len() == s.len(),
        forall|i: int|
            0 <= i < s.len() ==> #[trigger] all_undone(
                s,
                after_failed_backup(failed, s.len() as int),
            )[i] == untouched(),
{
    let n = s.len() as int;
    undone_in_parts(s, staged_range(0, n), restores(failed));
    staged_removed(s, 0, n);
    texts_restored(all_undone(s, staged_range(0, n)), failed);
}

/// Where replacing a file fails, undoing leaves all files as they were: also
/// those that were replaced before.
pub proof fn failed_replacement_leaves_no_trace(s: Seq<TargetState>, failed: int)
    requires
        0 <= failed < s.len() <= usize::MAX,
        forall|i: int| 0 <= i < s.len() ==> (#[trigger] s[i]).backup && (i < failed ==> !s[i].staged),
    ensures
        all_undone(s, after_failed_replacement(failed, s.len() as int)).len() == s.len(),
        forall|i: int|
            0 <= i < s.len() ==> #[trigger] all_undone(
                s,
                after_failed_replacement(failed, s.len() as int),
            )[i] == untouched(),
{
    let n = s.len() as int;
    undone_in_parts(s, staged_range(failed, n), restores(n));
    staged_removed(s, failed, n);
    texts_restored(all_undone(s, staged_range(failed, n)), n);
}

/// Where a file turns out to have changed, undoing leaves all files as they
/// were before the transaction, and that file as somebody else wrote it.
pub proof fn foreign_change_survives(s: Seq<TargetState>, changed: int)
    requires
        0 <= changed < s.len() <= usize::MAX,
        forall|i: int|
            0 <= i < s.len() ==> (#[trigger] s[i]).backup && (i > changed ==> s[i].text is Original),
        s[changed].text is Foreign,
    ensures
        all_undone(s, after_foreign_change(changed, s.len() as int)).len() == s.len(),
        forall|i: int|
            0 <= i < s.len() ==> #[trigger] all_undone(
                s,
                after_foreign_change(changed, s.len() as int),
            )[i] == (if i == changed {
                TargetState { text: Text::Foreign, ..untouched() }
            } else {
                untouched()
            }),
{
    let n = s.len() as int;
    let a = staged_range(0, n);
    let b = restores(changed);
    let c = backup_range(changed, n);
    undone_in_parts(s, a + b, c);
    undone_in_parts(s, a, b);
    staged_removed(s, 0, n);
    texts_restored(all_undone(s, a), changed);
    backups_removed(all_undone(s, a + b), changed, n);
}

/// Once all files are replaced, cleaning up leaves only the new texts.
pub proof fn commit_leaves_replacements(s: Seq<TargetState>)
    requires
        s.len() <= usize::MAX,
        forall|i: int| 0 <= i < s.len() ==> (#[trigger] s[i]).text is Replacement && !s[i].staged,
    ensures
        all_undone(s, backup_range(0, s.len() as int)).len() == s.len(),
        forall|i: int|
            0 <= i < s.len() ==> #[trigger] all_undone(s, backup_range(0, s.len() as int))[i] == (
            TargetState { text: Text::Replacement, ..untouched() }),
{
    backups_removed(s, 0, s.len() as int);
}

/// The name of a file that a transaction writes beside another.
pub open spec fn transaction_name(
    file_name: Seq<char>,
    process: nat,
    number: nat,
    suffix: Seq<char>,
) -> Seq<char> {
    "."@ + file_name + ".mux-fix-"@ + decimal(process) + "-"@ + decimal(number) + "."@ + suffix
}

/// The name of the file that a transaction writes beside the file at a place.
pub fn transaction_file_name(
    file_name: &str,
    process: u32,
    transaction_id: u128,
    index: usize,
    suffix: &str,
) -> (r: String)
    requires
        transaction_id + index <= u128::MAX,
    ensures
        r@ == transaction_name(
            file_name@,
            process as nat,
            (transaction_id + index) as nat,
            suffix@,
        ),
{
    let mut out = cat(".", file_name);
    out.append(".mux-fix-");
    push_decimal(&mut out, process as u64);
    out.append("-");
    push_wide(&mut out, transaction_id + index as u128);
    out.append(".");
    out.append(suffix);
    out
}

/// Refuses a file that two edits lead to.
pub fn reject_duplicate_target(seen: &mut Vec<String>, target: &str) -> (r: Result<(), FixError>)
    ensures
        if holds(old(seen)@, target@) {
            &&& r matches Err(FixError::Transaction(m)) && m@
                == "multiple edits resolve to the same file: "@ + target@
            &&& final(seen)@ == old(seen)@
        } else {
            &&& r == Ok::<(), FixError>(())
            &&& forall|k: Seq<char>| #[trigger]
                holds(final(seen)@, k) == (k == target@ || holds(old(seen)@, k))
        },
{
    if has(seen, target) {
        return Err(
            FixError::Transaction(cat("multiple edits resolve to the same file: ", target)),
        );
    }
    insert_name(seen, target);
    Ok(())
}

/// Refuses what is no file.
pub fn reject_non_file(target: &str, is_file: bool) -> (r: Result<(), FixError>)
    ensures
        if is_file {
            r == Ok::<(), FixError>(())
        } else {
            r matches Err(FixError::Transaction(m)) && m@ == target@ + " is not a regular file"@
        },
{
    if is_file {
        Ok(())
    } else {
        Err(FixError::Transaction(cat(target, " is not a regular file")))
    }
}

/// Refuses a file that no longer holds the text that was analysed.
pub fn reject_stale_target(target: &str, same_text: bool) -> (r: Result<(), FixError>)
    ensures
        if same_text {
            r == Ok::<(), FixError>(())
        } else {
            r matches Err(FixError::Transaction(m)) && m@ == target@
                + " changed after analysis; refusing to overwrite it"@
        },
{
    if same_text {
        Ok(())
    } else {
        Err(
            FixError::Transaction(
                cat(target, " changed after analysis; refusing to overwrite it"),
            ),
        )
    }
}

/// The error of a file that cannot be locked.
pub fn lock_error(target: &str, error: &str) -> (r: FixError)
    ensures
        r matches FixError::Transaction(m) && m@ == "could not lock "@ + target@
            + " for editing: "@ + error@,
{
    let mut out = cat("could not lock ", target);
    out.append(" for editing: ");
    out.append(error);
    FixError::Transaction(out)
}

/// What is told of a file that could not be restored.
pub fn rollback_failure(removing: bool, target: &str, error: &str) -> (r: String)
    ensures
        r@ == (if removing {
            "remove "@
        } else {
            "restore "@
        }) + target@ + ": "@ + error@,
{
    let mut out = cat(if removing { "remove " } else { "restore " }, target);
    out.append(": ");
    out.append(error);
    out
}

/// The error of a step that failed. What undoing it failed at is told too.
pub fn rollback_error(
    failures: &Vec<String>,
    target: &str,
    error: String,
    operation: &str,
) -> (r: FixError)
    ensures
        if failures@.len() == 0 {
            r == FixError::Io(error)
        } else {
            r matches FixError::Transaction(m) && m@ == "could not "@ + operation@ + " "@ + target@
                + ": "@ + error@ + "; rollback also failed: "@ + joined(views(failures@), "; "@)
        },
{
    if failures.len() == 0 {
        return FixError::Io(error);
    }
    let mut out = cat("could not ", operation);
    out.append(" ");
    out.append(target);
    out.append(": ");
    out.append(error.as_str());
    out.append("; rollback also failed: ");
    out.append(join(failures, "; ").as_str());
    FixError::Transaction(out)
}

/// The error of a file that changed during the transaction.
pub fn stale_error(failures: &Vec<String>, target: &str) -> (r: FixError)
    ensures
        r matches FixError::Transaction(m) && m@ == target@
            + " changed during fix; refusing to overwrite it"@ + (if failures@.len() == 0 {
            seq![]
        } else {
            "; rollback also failed: "@ + joined(views(failures@), "; "@)
        }),
{
    let mut out = cat(target, " changed during fix; refusing to overwrite it");
    let ghost front = out@;
    if failures.len() > 0 {
        out.append("; rollback also failed: ");
        out.append(join(failures, "; ").as_str());
        assert(out@ =~= front + ("; rollback also failed: "@ + joined(views(failures@), "; "@)));
    } else {
        assert(out@ =~= front + seq![]);
    }
    FixError::Transaction(out)
}

} // verus!
