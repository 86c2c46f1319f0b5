//! The working directory: which files belong to a job, which of them may
//! be deleted, and which are in use and must be left alone.
//!
//! The service reads the directory and unlinks files; the rules here say
//! what to unlink.

use vstd::prelude::*;
use crate::error::{AppError, AppResult, ErrorKind};
use crate::security::joined_path;
use crate::text::{
    chars_of, is_prefix, push_chars, push_str, same_chars, starts_with, string_of, texts,
};
use crate::url_rules::joined;

verus! {

/// The working directory and the set of files that are in use.
pub struct CleanupService {
    working_dir: String,
    active_files: Vec<String>,
}

/// What is to be done about the files of a job: the paths to unlink and
/// the paths left alone because they are in use.
#[derive(Debug, Clone)]
pub struct CleanupPlan {
    pub to_delete: Vec<String>,
    pub skipped: Vec<String>,
}

/// The paths of the files named in `names` that belong to job `job_id` and
/// are in use (`in_use` true) or not (`in_use` false), in their order. A
/// file belongs to a job if its name starts with the job's identifier.
pub open spec fn job_paths(
    dir: Seq<char>,
    active: Set<Seq<char>>,
    job_id: Seq<char>,
    names: Seq<Seq<char>>,
    in_use: bool,
) -> Seq<Seq<char>>
    decreases names.len(),
{
    if names.len() == 0 {
        names
    } else {
        let before = job_paths(dir, active, job_id, names.drop_last(), in_use);
        let path = joined_path(dir, names.last());
        if is_prefix(job_id, names.last()) && active.contains(path) == in_use {
            before.push(path)
        } else {
            before
        }
    }
}

/// The words with which a cleanup that could not unlink every file fails.
pub open spec fn cleanup_errors_message(errors: Seq<Seq<char>>) -> Seq<char> {
    "Cleanup completed with errors: "@ + joined(errors, ", "@)
}

/// The instant, in seconds since the epoch, before which a file counts as
/// old: `hours_old` hours before `now`, and the epoch if that would be
/// earlier still.
pub open spec fn stale_cutoff(now_secs: int, hours_old: int) -> int {
    if now_secs >= hours_old * 3600 {
        now_secs - hours_old * 3600
    } else {
        0
    }
}

/// The names of the files last modified before `cutoff`, in their order.
pub open spec fn stale_names(files: Seq<(Seq<char>, int)>, cutoff: int) -> Seq<Seq<char>>
    decreases files.len(),
{
    if files.len() == 0 {
        Seq::empty()
    } else if files.last().1 < cutoff {
        stale_names(files.drop_last(), cutoff).push(files.last().0)
    } else {
        stale_names(files.drop_last(), cutoff)
    }
}

/// Cleanup unlinks the files of the job that are not in use, and nothing
/// else: a path is to be unlinked exactly if it is the path of a listed
/// file whose name starts with the job's identifier and that is not in use.
pub proof fn lemma_cleanup_scope(
    dir: Seq<char>,
    active: Set<Seq<char>>,
    job_id: Seq<char>,
    names: Seq<Seq<char>>,
    path: Seq<char>,
)
    ensures
        job_paths(dir, active, job_id, names, false).contains(path) <==> exists|i: int|
            0 <= i < names.len() && is_prefix(job_id, #[trigger] names[i]) && path == joined_path(
                dir,
                names[i],
            ) && !active.contains(path),
    decreases names.len(),
{
    let all = job_paths(dir, active, job_id, names, false);
    if names.len() > 0 {
        let front = names.drop_last();
        let before = job_paths(dir, active, job_id, front, false);
        let last = joined_path(dir, names.last());
        let takes_last = is_prefix(job_id, names.last()) && !active.contains(last);
        lemma_cleanup_scope(dir, active, job_id, front, path);
        if all.contains(path) {
            let k = choose|k: int| 0 <= k < all.len() && all[k] == path;
            if takes_last && k == all.len() - 1 {
                assert(names[names.len() - 1] == names.last());
            } else {
                assert(before[k] == path);
                assert(before.contains(path));
                let i = choose|i: int|
                    0 <= i < front.len() && is_prefix(job_id, #[trigger] front[i]) && path
                        == joined_path(dir, front[i]) && !active.contains(path);
                assert(names[i] == front[i]);
            }
        }
        if exists|i: int|
            0 <= i < names.len() && is_prefix(job_id, #[trigger] names[i]) && path == joined_path(
                dir,
                names[i],
            ) && !active.contains(path) {
            let i = choose|i: int|
                0 <= i < names.len() && is_prefix(job_id, #[trigger] names[i]) && path
                    == joined_path(dir, names[i]) && !active.contains(path);
            if i == names.len() - 1 {
                assert(all[all.len() - 1] == path);
            } else {
                assert(front[i] == names[i]);
                assert(before.contains(path));
                let k = choose|k: int| 0 <= k < before.len() && before[k] == path;
                assert(all[k] == path);
            }
        }
    }
}

impl CleanupService {
    /// The working directory.
    pub closed spec fn dir(&self) -> Seq<char> {
        self.working_dir@
    }

    /// The paths of the files in use.
    pub closed spec fn active(&self) -> Set<Seq<char>> {
        Set::new(|p: Seq<char>| exists|i: int| 0 <= i < self.active_files@.len() && (
        #[trigger] self.active_files@[i])@ == p)
    }

    /// The rules for `working_dir`, with no file in use.
    pub fn new(working_dir: String) -> (s: CleanupService)
        ensures
            s.dir() == working_dir@,
            s.active() == Set::<Seq<char>>::empty(),
    {
        let s = CleanupService { working_dir, active_files: Vec::new() };
        assert(s.active() =~= Set::<Seq<char>>::empty());
        s
    }

    /// The working directory.
    pub fn working_dir(&self) -> (d: &str)
        ensures
            d@ == self.dir(),
    {
        self.working_dir.as_str()
    }

    /// Whether the file at `file_path` is in use.
    pub fn is_file_active(&self, file_path: &str) -> (b: bool)
        ensures
            b == self.active().contains(file_path@),
    {
        let wanted = chars_of(file_path);
        let mut i: usize = 0;
        while i < self.active_files.len()
            invariant
                i <= self.active_files@.len(),
                wanted@ == file_path@,
                forall|j: int| 0 <= j < i ==> (#[trigger] self.active_files@[j])@ != file_path@,
            decreases self.active_files@.len() - i,
        {
            let here = chars_of(self.active_files[i].as_str());
            if same_chars(&here, &wanted) {
                return true;
            }
            i += 1;
        }
        false
    }

    /// Marks the file at `file_path` as in use, so that cleanup leaves it alone.
    pub fn mark_file_active(&mut self, file_path: &str) -> (r: AppResult<()>)
        ensures
            r is Ok,
            final(self).dir() == old(self).dir(),
            final(self).active() == old(self).active().insert(file_path@),
    {
        if !self.is_file_active(file_path) {
            let ghost before = self.active_files@;
            self.active_files.push(file_path.to_owned());
            proof {
                assert forall|p: Seq<char>|
                    self.active().contains(p) == old(self).active().insert(file_path@).contains(
                        p,
                    ) by {
                    if self.active().contains(p) {
                        let i = choose|i: int|
                            0 <= i < self.active_files@.len() && (
                            #[trigger] self.active_files@[i])@ == p;
                        if i < before.len() {
                            assert(before[i]@ == p);
                        }
                    }
                    if old(self).active().contains(p) {
                        let i = choose|i: int| 0 <= i < before.len() && (#[trigger] before[i])@
                            == p;
                        assert(self.active_files@[i]@ == p);
                    }
                    if p == file_path@ {
                        assert(self.active_files@[before.len() as int]@ == p);
                    }
                }
                assert(self.active() =~= old(self).active().insert(file_path@));
            }
        } else {
            assert(self.active() =~= old(self).active().insert(file_path@));
        }
        Ok(())
    }

    /// Marks the file at `file_path` as no longer in use.
    pub fn unmark_file_active(&mut self, file_path: &str) -> (r: AppResult<()>)
        ensures
            r is Ok,
            final(self).dir() == old(self).dir(),
            final(self).active() == old(self).active().remove(file_path@),
    {
        let wanted = chars_of(file_path);
        let ghost before = self.active_files@;
        let mut i: usize = 0;
        while i < self.active_files.len()
            invariant
                i <= self.active_files@.len(),
                wanted@ == file_path@,
                before == old(self).active_files@,
                self.working_dir == old(self).working_dir,
                forall|j: int| 0 <= j < i ==> (#[trigger] self.active_files@[j])@ != file_path@,
                forall|p: Seq<char>|
                    p != file_path@ ==> (self.active().contains(p) == old(self).active().contains(
                        p,
                    )),
            decreases self.active_files@.len() - i,
        {
            let here = chars_of(self.active_files[i].as_str());
            if same_chars(&here, &wanted) {
                let ghost cur = self.active_files@;
                let ghost cur_set = self.active();
                let _ = self.active_files.remove(i);
                proof {
                    let now = self.active_files@;
                    assert(now =~= cur.remove(i as int));
                    assert forall|p: Seq<char>| p != file_path@ implies self.active().contains(p)
                        == cur_set.contains(p) by {
                        if self.active().contains(p) {
                            let a = choose|a: int| 0 <= a < now.len() && (#[trigger] now[a])@ == p;
                            let b = if a < i {
                                a
                            } else {
                                a + 1
                            };
                            assert(cur[b]@ == p);
                        }
                        if cur_set.contains(p) {
                            let b = choose|b: int| 0 <= b < cur.len() && (#[trigger] cur[b])@ == p;
                            let a = if b < i {
                                b
                            } else {
                                b - 1
                            };
                            assert(now[a]@ == p);
                        }
                    }
                }
            } else {
                i += 1;
            }
        }
        assert(self.active() =~= old(self).active().remove(file_path@));
        Ok(())
    }

    /// Decides what to do about the files of job `job_id`, given the names
    /// of the files in the working directory: every file whose name starts
    /// with the identifier is to be unlinked, unless it is in use.
    pub fn plan_cleanup(&self, job_id: &str, names: &Vec<String>) -> (plan: CleanupPlan)
        ensures
            texts(plan.to_delete@) == job_paths(
                self.dir(),
                self.active(),
                job_id@,
                texts(names@),
                false,
            ),
            texts(plan.skipped@) == job_paths(
                self.dir(),
                self.active(),
                job_id@,
                texts(names@),
                true,
            ),
    {
        let id = chars_of(job_id);
        let dir = chars_of(self.working_dir.as_str());
        let ghost all = texts(names@);
        let mut to_delete: Vec<String> = Vec::new();
        let mut skipped: Vec<String> = Vec::new();
        let mut i: usize = 0;
        proof {
            assert(texts(to_delete@) =~= job_paths(
                self.dir(),
                self.active(),
                job_id@,
                all.take(0),
                false,
            ));
            assert(texts(skipped@) =~= job_paths(
                self.dir(),
                self.active(),
                job_id@,
                all.take(0),
                true,
            ));
        }
        while i < names.len()
            invariant
                i <= names@.len(),
                all == texts(names@),
                id@ == job_id@,
                dir@ == self.dir(),
                texts(to_delete@) == job_paths(
                    self.dir(),
                    self.active(),
                    job_id@,
                    all.take(i as int),
                    false,
                ),
                texts(skipped@) == job_paths(
                    self.dir(),
                    self.active(),
                    job_id@,
                    all.take(i as int),
                    true,
                ),
            decreases names@.len() - i,
        {
            proof {
                assert(all.take(i + 1).drop_last() =~= all.take(i as int));
                assert(all.take(i + 1).last() == names@[i as int]@);
            }
            let name = chars_of(names[i].as_str());
            if starts_with(&name, &id) {
                let mut path: Vec<char> = Vec::new();
                push_chars(&mut path, &dir);
                if dir.len() > 0 && dir[dir.len() - 1] != '/' {
                    push_str(&mut path, "/");
                }
                push_chars(&mut path, &name);
                assert(path@ =~= joined_path(self.dir(), name@));
                let text = string_of(&path);
                let ghost gone = texts(to_delete@);
                let ghost left = texts(skipped@);
                if self.is_file_active(text.as_str()) {
                    skipped.push(text);
                    assert(texts(skipped@) =~= left.push(path@));
                } else {
                    to_delete.push(text);
                    assert(texts(to_delete@) =~= gone.push(path@));
                }
            }
            i += 1;
        }
        assert(all.take(i as int) =~= all);
        CleanupPlan { to_delete, skipped }
    }

    /// The outcome of a cleanup, given what went wrong while unlinking:
    /// success if nothing did, else one failure that lists everything.
    pub fn cleanup_outcome(errors: &Vec<String>) -> (r: AppResult<()>)
        ensures
            match r {
                Ok(_) => errors@.len() == 0,
                Err(e) => errors@.len() > 0 && e@ == (
                    ErrorKind::Internal,
                    cleanup_errors_message(texts(errors@)),
                ),
            },
    {
        if errors.len() == 0 {
            return Ok(());
        }
        let mut m: Vec<char> = Vec::new();
        push_str(&mut m, "Cleanup completed with errors: ");
        let ghost head = m@;
        let ghost all = texts(errors@);
        let mut i: usize = 0;
        assert(m@ =~= head + joined(all.take(0), ", "@));
        while i < errors.len()
            invariant
                i <= errors@.len(),
                all == texts(errors@),
                head == "Cleanup completed with errors: "@,
                m@ == head + joined(all.take(i as int), ", "@),
            decreases errors@.len() - i,
        {
            proof {
                assert(all.take(i + 1).drop_last() =~= all.take(i as int));
                assert(all.take(i + 1).last() == all[i as int]);
                if i > 0 {
                    assert(all.take(i + 1).len() > 1);
                }
            }
            if i > 0 {
                push_str(&mut m, ", ");
            }
            push_str(&mut m, errors[i].as_str());
            assert(m@ =~= head + joined(all.take(i + 1), ", "@));
            i += 1;
        }
        assert(all.take(i as int) =~= all);
        Err(AppError::Internal(string_of(&m)))
    }

    /// The names of the files that were last modified more than `hours_old`
    /// hours before `now_secs`, given each file's name and the instant of
    /// its last modification in seconds since the epoch.
    pub fn stale_files(files: &Vec<(String, u64)>, now_secs: u64, hours_old: u64) -> (names: Vec<
        String,
    >)
        ensures
            texts(names@) == stale_names(
                Seq::new(files@.len(), |i: int| (files@[i].0@, files@[i].1 as int)),
                stale_cutoff(now_secs as int, hours_old as int),
            ),
    {
        let span: u128 = (hours_old as u128) * 3600;
        let cutoff: u64 = if (now_secs as u128) >= span {
            ((now_secs as u128) - span) as u64
        } else {
            0
        };
        let ghost all = Seq::new(files@.len(), |i: int| (files@[i].0@, files@[i].1 as int));
        let mut names: Vec<String> = Vec::new();
        let mut i: usize = 0;
        assert(texts(names@) =~= stale_names(all.take(0), cutoff as int));
        while i < files.len()
            invariant
                i <= files@.len(),
                all == Seq::new(files@.len(), |i: int| (files@[i].0@, files@[i].1 as int)),
                texts(names@) == stale_names(all.take(i as int), cutoff as int),
            decreases files@.len() - i,
        {
            proof {
                assert(all.take(i + 1).drop_last() =~= all.take(i as int));
                assert(all.take(i + 1).last() == all[i as int]);
            }
            let ghost before = texts(names@);
            if files[i].1 < cutoff {
                names.push(files[i].0.clone());
                assert(texts(names@) =~= before.push(files@[i as int].0@));
            }
            i += 1;
        }
        assert(all.take(i as int) =~= all);
        names
    }
}

} // verus!
