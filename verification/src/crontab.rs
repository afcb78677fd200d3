//! The scheduler's memory between polls: the schedule state and the
//! running run of each cron service, keyed by app and service.
use vstd::prelude::*;

use crate::cron::{
    cron_next_after, launch_due, next_schedule_state, schedule_is_current, CronError,
    CronScheduleState, RunningCronJob,
};
use crate::ids::{ts_before, Timestamp};

verus! {

/// An app identifier and a service identifier.
pub type JobKey = (u128, u128);

/// The value stored under `k`: the last entry with that key.
pub open spec fn lookup<V>(s: Seq<(JobKey, V)>, k: JobKey) -> Option<V>
    decreases s.len(),
{
    if s.len() == 0 {
        None
    } else if s.last().0 == k {
        Some(s.last().1)
    } else {
        lookup(s.drop_last(), k)
    }
}

/// No key occurs twice.
pub open spec fn keys_distinct<V>(s: Seq<(JobKey, V)>) -> bool {
    forall|i: int, j: int| 0 <= i < j < s.len() ==> s[i].0 != s[j].0
}

proof fn lemma_lookup_index<V>(s: Seq<(JobKey, V)>, k: JobKey)
    requires
        keys_distinct(s),
    ensures
        lookup(s, k) is None <==> forall|i: int| 0 <= i < s.len() ==> #[trigger] s[i].0 != k,
        forall|i: int| 0 <= i < s.len() && #[trigger] s[i].0 == k ==> lookup(s, k) == Some(s[i].1),
    decreases s.len(),
{
    if s.len() > 0 {
        let n = s.len() - 1;
        let t = s.drop_last();
        assert(keys_distinct(t));
        lemma_lookup_index(t, k);
        assert(forall|i: int| 0 <= i < t.len() ==> #[trigger] t[i] == s[i]);
        assert(s.last() == s[n]);
        if s[n].0 == k {
            assert forall|i: int| 0 <= i < s.len() && #[trigger] s[i].0 == k implies lookup(s, k)
                == Some(s[i].1) by {
                if i < n {
                    assert(s[i].0 != s[n].0);
                }
            }
        } else {
            assert forall|i: int| 0 <= i < s.len() && #[trigger] s[i].0 == k implies lookup(s, k)
                == Some(s[i].1) by {
                assert(i < n);
                assert(t[i].0 == k);
            }
            if forall|i: int| 0 <= i < t.len() ==> #[trigger] t[i].0 != k {
                assert forall|i: int| 0 <= i < s.len() implies #[trigger] s[i].0 != k by {
                    if i < n {
                        assert(t[i].0 != k);
                    }
                }
            }
        }
    }
}

proof fn lemma_lookup_update<V>(s: Seq<(JobKey, V)>, i: int, v: V, k: JobKey)
    requires
        keys_distinct(s),
        0 <= i < s.len(),
    ensures
        keys_distinct(s.update(i, (s[i].0, v))),
        lookup(s.update(i, (s[i].0, v)), k) == if k == s[i].0 {
            Some(v)
        } else {
            lookup(s, k)
        },
{
    let u = s.update(i, (s[i].0, v));
    assert forall|a: int, b: int| 0 <= a < b < u.len() implies u[a].0 != u[b].0 by {
        assert(u[a].0 == s[a].0);
        assert(u[b].0 == s[b].0);
    }
    lemma_lookup_index(s, k);
    lemma_lookup_index(u, k);
    if k == s[i].0 {
        assert(u[i].0 == k);
    } else {
        assert(forall|j: int| 0 <= j < u.len() ==> #[trigger] u[j].0 == s[j].0);
        if exists|j: int| 0 <= j < s.len() && #[trigger] s[j].0 == k {
            let j = choose|j: int| 0 <= j < s.len() && #[trigger] s[j].0 == k;
            assert(u[j] == s[j]);
        }
    }
}

proof fn lemma_lookup_push<V>(s: Seq<(JobKey, V)>, e: (JobKey, V), k: JobKey)
    requires
        keys_distinct(s),
        lookup(s, e.0) is None,
    ensures
        keys_distinct(s.push(e)),
        lookup(s.push(e), k) == if k == e.0 {
            Some(e.1)
        } else {
            lookup(s, k)
        },
{
    lemma_lookup_index(s, e.0);
    assert(s.push(e).drop_last() =~= s);
    let t = s.push(e);
    assert forall|a: int, b: int| 0 <= a < b < t.len() implies t[a].0 != t[b].0 by {
        if b == s.len() {
            assert(t[a] == s[a]);
        } else {
            assert(t[a] == s[a]);
            assert(t[b] == s[b]);
        }
    }
}

proof fn lemma_lookup_remove<V>(s: Seq<(JobKey, V)>, i: int, k: JobKey)
    requires
        keys_distinct(s),
        0 <= i < s.len(),
    ensures
        keys_distinct(s.remove(i)),
        lookup(s.remove(i), k) == if k == s[i].0 {
            None
        } else {
            lookup(s, k)
        },
{
    let t = s.remove(i);
    assert forall|a: int, b: int| 0 <= a < b < t.len() implies t[a].0 != t[b].0 by {
        let a2 = if a < i { a } else { a + 1 };
        let b2 = if b < i { b } else { b + 1 };
        assert(t[a] == s[a2]);
        assert(t[b] == s[b2]);
    }
    lemma_lookup_index(s, k);
    lemma_lookup_index(t, k);
    if k == s[i].0 {
        assert forall|j: int| 0 <= j < t.len() implies #[trigger] t[j].0 != k by {
            let j2 = if j < i { j } else { j + 1 };
            assert(t[j] == s[j2]);
        }
    } else {
        if exists|j: int| 0 <= j < s.len() && #[trigger] s[j].0 == k {
            let j = choose|j: int| 0 <= j < s.len() && #[trigger] s[j].0 == k;
            let j2 = if j < i { j } else { j - 1 };
            assert(t[j2] == s[j]);
        } else {
            assert forall|j: int| 0 <= j < t.len() implies #[trigger] t[j].0 != k by {
                let j2 = if j < i { j } else { j + 1 };
                assert(t[j] == s[j2]);
            }
        }
    }
}

fn find_key<V>(s: &Vec<(JobKey, V)>, k: JobKey) -> (r: Option<usize>)
    requires
        keys_distinct(s@),
    ensures
        match r {
            Some(i) => i < s@.len() && s@[i as int].0 == k && lookup(s@, k) == Some(s@[i as int].1),
            None => lookup(s@, k) is None,
        },
{
    let mut i: usize = 0;
    while i < s.len()
        invariant
            i <= s@.len(),
            keys_distinct(s@),
            forall|j: int| 0 <= j < i ==> #[trigger] s@[j].0 != k,
        decreases s.len() - i,
    {
        if s[i].0.0 == k.0 && s[i].0.1 == k.1 {
            proof {
                lemma_lookup_index(s@, k);
            }
            return Some(i);
        }
        i = i + 1;
    }
    proof {
        lemma_lookup_index(s@, k);
    }
    None
}

/// The schedule states and the runs in progress of the cron services.
pub struct CronTable {
    schedules: Vec<(JobKey, CronScheduleState)>,
    running: Vec<(JobKey, RunningCronJob)>,
}

impl CronTable {
    #[verifier::type_invariant]
    spec fn wf(&self) -> bool {
        keys_distinct(self.schedules@) && keys_distinct(self.running@)
    }

    /// The schedule state kept for a job.
    pub closed spec fn schedule_at(&self, k: JobKey) -> Option<CronScheduleState> {
        lookup(self.schedules@, k)
    }

    /// The run in progress of a job.
    pub closed spec fn running_at(&self, k: JobKey) -> Option<RunningCronJob> {
        lookup(self.running@, k)
    }

    /// An empty table.
    pub fn new() -> (r: CronTable)
        ensures
            forall|k: JobKey| #[trigger] r.schedule_at(k) is None && r.running_at(k) is None,
    {
        CronTable { schedules: Vec::new(), running: Vec::new() }
    }

    /// The schedule state of a job.
    pub fn schedule(&self, k: JobKey) -> (r: Option<&CronScheduleState>)
        ensures
            match r {
                Some(s) => self.schedule_at(k) == Some(*s),
                None => self.schedule_at(k) is None,
            },
    {
        proof {
            use_type_invariant(self);
        }
        match find_key(&self.schedules, k) {
            Some(i) => Some(&self.schedules[i].1),
            None => None,
        }
    }

    /// The run in progress of a job.
    pub fn running_job(&self, k: JobKey) -> (r: Option<&RunningCronJob>)
        ensures
            match r {
                Some(j) => self.running_at(k) == Some(*j),
                None => self.running_at(k) is None,
            },
    {
        proof {
            use_type_invariant(self);
        }
        match find_key(&self.running, k) {
            Some(i) => Some(&self.running[i].1),
            None => None,
        }
    }

    /// Whether a run of the job is in progress.
    pub fn is_running(&self, k: JobKey) -> (r: bool)
        ensures
            r == self.running_at(k) is Some,
    {
        self.running_job(k).is_some()
    }
}

fn contains_key(keys: &Vec<JobKey>, k: JobKey) -> (r: bool)
    ensures
        r == keys@.contains(k),
{
    let mut i: usize = 0;
    while i < keys.len()
        invariant
            i <= keys@.len(),
            forall|j: int| 0 <= j < i ==> #[trigger] keys@[j] != k,
        decreases keys.len() - i,
    {
        if keys[i].0 == k.0 && keys[i].1 == k.1 {
            proof {
                assert(keys@[i as int] == k);
            }
            return true;
        }
        i = i + 1;
    }
    false
}

/// Sets the value under `k`, in place when the key is present.
fn put<V>(s: &mut Vec<(JobKey, V)>, k: JobKey, v: V)
    requires
        keys_distinct(old(s)@),
    ensures
        keys_distinct(final(s)@),
        forall|k2: JobKey| #[trigger] lookup(final(s)@, k2) == if k2 == k {
            Some(v)
        } else {
            lookup(old(s)@, k2)
        },
{
    let ghost gv = v;
    match find_key(s, k) {
        Some(i) => {
            proof {
                assert forall|k2: JobKey| #[trigger] lookup(s@.update(i as int, (k, gv)), k2) == if k2
                    == k {
                    Some(gv)
                } else {
                    lookup(s@, k2)
                } by {
                    lemma_lookup_update(s@, i as int, gv, k2);
                }
                lemma_lookup_update(s@, i as int, gv, k);
            }
            s.set(i, (k, v));
        },
        None => {
            proof {
                assert forall|k2: JobKey| #[trigger] lookup(s@.push((k, gv)), k2) == if k2 == k {
                    Some(gv)
                } else {
                    lookup(s@, k2)
                } by {
                    lemma_lookup_push(s@, (k, gv), k2);
                }
                lemma_lookup_push(s@, (k, gv), k);
            }
            s.push((k, v));
        },
    }
}

/// Removes the value under `k`, returning it.
fn take_key<V>(s: &mut Vec<(JobKey, V)>, k: JobKey) -> (r: Option<V>)
    requires
        keys_distinct(old(s)@),
    ensures
        keys_distinct(final(s)@),
        r == lookup(old(s)@, k),
        forall|k2: JobKey| #[trigger] lookup(final(s)@, k2) == if k2 == k {
            None
        } else {
            lookup(old(s)@, k2)
        },
{
    match find_key(s, k) {
        Some(i) => {
            proof {
                assert forall|k2: JobKey| #[trigger] lookup(s@.remove(i as int), k2) == if k2 == k {
                    None
                } else {
                    lookup(s@, k2)
                } by {
                    lemma_lookup_remove(s@, i as int, k2);
                }
                lemma_lookup_remove(s@, i as int, k);
            }
            let (_, v) = s.remove(i);
            Some(v)
        },
        None => None,
    }
}

/// Keeps the entries whose key is listed.
fn keep_listed<V>(s: &mut Vec<(JobKey, V)>, keys: &Vec<JobKey>)
    requires
        keys_distinct(old(s)@),
    ensures
        keys_distinct(final(s)@),
        forall|k: JobKey| #[trigger] lookup(final(s)@, k) == if keys@.contains(k) {
            lookup(old(s)@, k)
        } else {
            None
        },
{
    let ghost orig = s@;
    let n = s.len();
    let mut rest: Vec<(JobKey, V)> = Vec::new();
    std::mem::swap(&mut rest, s);
    let mut i: usize = 0;
    proof {
        assert(orig.skip(0) =~= orig);
        assert(orig.take(0) =~= Seq::<(JobKey, V)>::empty());
    }
    while rest.len() > 0
        invariant
            i <= orig.len(),
            orig.len() == n,
            rest@ == orig.skip(i as int),
            keys_distinct(orig),
            keys_distinct(s@),
            forall|k: JobKey| #[trigger] lookup(s@, k) == if keys@.contains(k) {
                lookup(orig.take(i as int), k)
            } else {
                None
            },
        decreases rest.len(),
    {
        let ghost before = s@;
        proof {
            assert(orig.skip(i as int).len() > 0);
            assert(i < orig.len());
        }
        let e = rest.remove(0);
        proof {
            assert(orig.skip(i as int)[0] == orig[i as int]);
            assert(orig.skip(i + 1) =~= orig.skip(i as int).remove(0));
            let t = orig.take(i + 1);
            assert(t.drop_last() =~= orig.take(i as int));
            assert(t.last() == orig[i as int]);
            assert(keys_distinct(orig.take(i as int)));
            lemma_lookup_index(orig.take(i as int), e.0);
            assert forall|j: int| 0 <= j < orig.take(i as int).len() implies #[trigger] orig.take(
                i as int,
            )[j].0 != e.0 by {
                assert(orig.take(i as int)[j] == orig[j]);
            }
        }
        if contains_key(keys, e.0) {
            let ghost ge = e;
            proof {
                assert forall|k: JobKey| #[trigger] lookup(before.push(ge), k) == if k == ge.0 {
                    Some(ge.1)
                } else {
                    lookup(before, k)
                } by {
                    lemma_lookup_push(before, ge, k);
                }
                lemma_lookup_push(before, ge, ge.0);
            }
            s.push(e);
        }
        i = i + 1;
    }
    proof {
        assert(orig.take(i as int) =~= orig);
    }
}

impl CronTable {
    /// One poll of a cron service with a schedule, in an app with a running
    /// deployment: the schedule state is computed anew after `now` unless
    /// the kept one was made for the same pattern and deployment; the
    /// result says whether a run is due (none in progress and the next run
    /// time has come). Nothing changes when the pattern is refused.
    pub fn poll_job(&mut self, k: JobKey, schedule: &str, deployment_id: u128, now: Timestamp) -> (r:
        Result<bool, CronError>)
        ensures
            forall|k2: JobKey| #[trigger] final(self).running_at(k2) == old(self).running_at(k2),
            forall|k2: JobKey|
                k2 != k ==> #[trigger] final(self).schedule_at(k2) == old(self).schedule_at(k2),
            r is Err ==> final(self).schedule_at(k) == old(self).schedule_at(k),
            r matches Err(CronError::NoNextRun(p)) ==> p@ == schedule@ && cron_next_after(
                schedule@,
                now,
            ) is None,
            !crate::cron::cron_pattern_valid(schedule@) ==> r is Err,
            r matches Ok(due) ==> (final(self).schedule_at(k) matches Some(st) && (match old(
                self,
            ).schedule_at(k) {
                Some(o) => if o.schedule@ == schedule@ && o.deployment_id == deployment_id {
                    st == o
                } else {
                    st.schedule@ == schedule@ && st.deployment_id == deployment_id
                        && cron_next_after(schedule@, now) == Some(st.next_run_at)
                },
                None => st.schedule@ == schedule@ && st.deployment_id == deployment_id
                    && cron_next_after(schedule@, now) == Some(st.next_run_at),
            }) && due == (old(self).running_at(k) is None && !ts_before(now, st.next_run_at))),
    {
        proof {
            use_type_invariant(&*self);
        }
        let fresh = match next_schedule_state(schedule, deployment_id, now) {
            Ok(s) => s,
            Err(e) => return Err(e),
        };
        let keep = match find_key(&self.schedules, k) {
            Some(i) => schedule_is_current(&self.schedules[i].1, schedule, deployment_id),
            None => false,
        };
        if !keep {
            let mut tmp: Vec<_> = Vec::new();
            std::mem::swap(&mut tmp, &mut self.schedules);
            put(&mut tmp, k, fresh);
            std::mem::swap(&mut tmp, &mut self.schedules);
        }
        let running = self.is_running(k);
        let st = match self.schedule(k) {
            Some(st) => st,
            None => {
                return Err(CronError::NoNextRun(crate::text::owned(schedule)));
            },
        };
        Ok(launch_due(st, running, now))
    }

    /// Records a started run of a job, then computes its next run after
    /// `now`; the run stays recorded when that computation fails.
    pub fn record_launch(
        &mut self,
        k: JobKey,
        job: RunningCronJob,
        schedule: &str,
        deployment_id: u128,
        now: Timestamp,
    ) -> (r: Result<(), CronError>)
        ensures
            final(self).running_at(k) == Some(job),
            forall|k2: JobKey|
                k2 != k ==> #[trigger] final(self).running_at(k2) == old(self).running_at(k2),
            forall|k2: JobKey|
                k2 != k ==> #[trigger] final(self).schedule_at(k2) == old(self).schedule_at(k2),
            r is Err ==> final(self).schedule_at(k) == old(self).schedule_at(k),
            !crate::cron::cron_pattern_valid(schedule@) ==> r is Err,
            r is Ok ==> (final(self).schedule_at(k) matches Some(st) && st.schedule@ == schedule@
                && st.deployment_id == deployment_id && cron_next_after(schedule@, now) == Some(
                st.next_run_at,
            )),
    {
        proof {
            use_type_invariant(&*self);
        }
        let mut tmp: Vec<_> = Vec::new();
        std::mem::swap(&mut tmp, &mut self.running);
        put(&mut tmp, k, job);
        std::mem::swap(&mut tmp, &mut self.running);
        let next = match next_schedule_state(schedule, deployment_id, now) {
            Ok(s) => s,
            Err(e) => return Err(e),
        };
        let mut tmp: Vec<_> = Vec::new();
        std::mem::swap(&mut tmp, &mut self.schedules);
        put(&mut tmp, k, next);
        std::mem::swap(&mut tmp, &mut self.schedules);
        Ok(())
    }

    /// Forgets the run in progress of a job, once it has finished; returns
    /// it.
    pub fn finish(&mut self, k: JobKey) -> (r: Option<RunningCronJob>)
        ensures
            r == old(self).running_at(k),
            final(self).running_at(k) is None,
            forall|k2: JobKey|
                k2 != k ==> #[trigger] final(self).running_at(k2) == old(self).running_at(k2),
            forall|k2: JobKey| #[trigger] final(self).schedule_at(k2) == old(self).schedule_at(k2),
    {
        proof {
            use_type_invariant(&*self);
        }
        let mut tmp: Vec<_> = Vec::new();
        std::mem::swap(&mut tmp, &mut self.running);
        let r = take_key(&mut tmp, k);
        std::mem::swap(&mut tmp, &mut self.running);
        r
    }

    /// Drops the schedule states and runs of the jobs not seen in the last
    /// poll.
    pub fn retain_active(&mut self, active: &Vec<JobKey>)
        ensures
            forall|k: JobKey| #[trigger] final(self).schedule_at(k) == if active@.contains(k) {
                old(self).schedule_at(k)
            } else {
                None
            },
            forall|k: JobKey| #[trigger] final(self).running_at(k) == if active@.contains(k) {
                old(self).running_at(k)
            } else {
                None
            },
    {
        proof {
            use_type_invariant(&*self);
        }
        let mut tmp: Vec<_> = Vec::new();
        std::mem::swap(&mut tmp, &mut self.schedules);
        keep_listed(&mut tmp, active);
        std::mem::swap(&mut tmp, &mut self.schedules);
        let mut tmp2: Vec<_> = Vec::new();
        std::mem::swap(&mut tmp2, &mut self.running);
        keep_listed(&mut tmp2, active);
        std::mem::swap(&mut tmp2, &mut self.running);
    }
}

} // verus!
