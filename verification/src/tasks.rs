//! Per-project-key task registry: at most one live indexing job per key, a
//! mutable progress record per job, ETA estimation, and cooperative abort of
//! the job's cancellable handle. Callers supply clock readings (`now`) so
//! every update is pinned by its contract.

use vstd::prelude::*;
use tokio::task::JoinHandle;

verus! {

#[verifier::external_type_specification]
#[verifier::external_body]
#[verifier::reject_recursive_types(T)]
pub struct ExJoinHandle<T>(JoinHandle<T>);

#[verifier::external_type_specification]
#[verifier::external_body]
pub struct ExJoinError(tokio::task::JoinError);

/// Relies on tokio::task::JoinHandle::abort, which requests cancellation of
/// the task; nothing about its effect is assumed.
pub assume_specification<T>[ JoinHandle::<T>::abort ](h: &JoinHandle<T>)
;

/// The phase of an indexing job.
#[derive(Clone, Copy, PartialEq, Eq, Structural, Debug)]
pub enum Phase {
    Starting,
    Collecting,
    Uploading,
    Done,
    Failed,
    Aborted,
}

/// A job in a terminal phase no longer blocks a new `begin` for its key.
pub open spec fn is_terminal(p: Phase) -> bool {
    p == Phase::Done || p == Phase::Failed || p == Phase::Aborted
}

/// The live progress record of one indexing job.
#[derive(Debug)]
pub struct TaskProgress {
    pub phase: Phase,
    pub total: usize,
    pub new_total: usize,
    pub uploaded: usize,
    pub chunks_total: usize,
    pub chunk_index: usize,
    pub chunk_bytes: usize,
    pub percent: u8,
    pub started_at: u64,
    pub updated_at: u64,
    pub message: Option<String>,
}

/// Mathematical image of a progress record.
pub struct TaskView {
    pub phase: Phase,
    pub total: usize,
    pub new_total: usize,
    pub uploaded: usize,
    pub chunks_total: usize,
    pub chunk_index: usize,
    pub chunk_bytes: usize,
    pub percent: u8,
    pub started_at: u64,
    pub updated_at: u64,
    pub message: Option<Seq<char>>,
}

impl View for TaskProgress {
    type V = TaskView;

    open spec fn view(&self) -> TaskView {
        TaskView {
            phase: self.phase,
            total: self.total,
            new_total: self.new_total,
            uploaded: self.uploaded,
            chunks_total: self.chunks_total,
            chunk_index: self.chunk_index,
            chunk_bytes: self.chunk_bytes,
            percent: self.percent,
            started_at: self.started_at,
            updated_at: self.updated_at,
            message: match self.message {
                Some(ref m) => Some(m@),
                None => None,
            },
        }
    }
}

impl DeepView for TaskProgress {
    type V = TaskView;

    open spec fn deep_view(&self) -> TaskView {
        self@
    }
}

/// The record a job starts with.
pub open spec fn start_view(now: u64) -> TaskView {
    TaskView {
        phase: Phase::Starting,
        total: 0,
        new_total: 0,
        uploaded: 0,
        chunks_total: 0,
        chunk_index: 0,
        chunk_bytes: 0,
        percent: 0,
        started_at: now,
        updated_at: now,
        message: None,
    }
}

impl TaskProgress {
    /// A fresh record in phase `starting`, stamped with the given clock reading.
    pub fn new_start(now: u64) -> (r: TaskProgress)
        ensures
            r@ == start_view(now),
    {
        TaskProgress {
            phase: Phase::Starting,
            total: 0,
            new_total: 0,
            uploaded: 0,
            chunks_total: 0,
            chunk_index: 0,
            chunk_bytes: 0,
            percent: 0,
            started_at: now,
            updated_at: now,
            message: None,
        }
    }

    /// A field-for-field copy.
    fn duplicate(&self) -> (r: TaskProgress)
        ensures
            r@ == self@,
    {
        TaskProgress {
            phase: self.phase,
            total: self.total,
            new_total: self.new_total,
            uploaded: self.uploaded,
            chunks_total: self.chunks_total,
            chunk_index: self.chunk_index,
            chunk_bytes: self.chunk_bytes,
            percent: self.percent,
            started_at: self.started_at,
            updated_at: self.updated_at,
            message: match &self.message {
                Some(m) => Some(m.clone()),
                None => None,
            },
        }
    }
}

/// Percent complete: `uploaded / new_total`, 100 when nothing was new,
/// clamped to 100.
pub open spec fn percent_spec(uploaded: nat, new_total: nat) -> nat {
    if new_total == 0 {
        100
    } else if uploaded * 100 / new_total > 100 {
        100
    } else {
        uploaded * 100 / new_total
    }
}

/// Percent is monotone in the uploaded count: progress never goes backwards.
pub proof fn lemma_percent_monotone(u1: nat, u2: nat, new_total: nat)
    requires
        u1 <= u2,
    ensures
        percent_spec(u1, new_total) <= percent_spec(u2, new_total),
{
    if new_total != 0 {
        assert(u1 * 100 <= u2 * 100) by (nonlinear_arith)
            requires u1 <= u2,
        ;
        assert(u1 * 100 / new_total <= u2 * 100 / new_total) by (nonlinear_arith)
            requires u1 * 100 <= u2 * 100 && new_total >= 1,
        ;
    }
}

fn percent_for(uploaded: usize, new_total: usize) -> (r: u8)
    ensures
        r as nat == percent_spec(uploaded as nat, new_total as nat),
{
    if new_total == 0 {
        100
    } else {
        let p: u128 = (uploaded as u128) * 100 / (new_total as u128);
        if p > 100 {
            100
        } else {
            p as u8
        }
    }
}

/// A record after a phase change.
pub open spec fn with_phase(tv: TaskView, phase: Phase, now: u64) -> TaskView {
    TaskView { phase: phase, updated_at: now, ..tv }
}

/// A record after the upload totals become known.
pub open spec fn with_totals(tv: TaskView, new_total: usize, chunks_total: usize, total: usize, now: u64) -> TaskView {
    TaskView { new_total: new_total, chunks_total: chunks_total, total: total, updated_at: now, ..tv }
}

/// A record after one uploaded batch.
pub open spec fn with_chunk(tv: TaskView, uploaded: usize, chunk_index: usize, chunk_bytes: usize, now: u64) -> TaskView {
    TaskView {
        phase: Phase::Uploading,
        uploaded: uploaded,
        chunk_index: chunk_index,
        chunk_bytes: chunk_bytes,
        percent: percent_spec(uploaded as nat, tv.new_total as nat) as u8,
        updated_at: now,
        ..tv
    }
}

/// A record after its job finished.
pub open spec fn finished_view(tv: TaskView, now: u64) -> TaskView {
    TaskView { phase: Phase::Done, percent: 100, updated_at: now, ..tv }
}

/// A record after its job failed.
pub open spec fn failed_view(tv: TaskView, msg: Seq<char>, now: u64) -> TaskView {
    TaskView { phase: Phase::Failed, message: Some(msg), updated_at: now, ..tv }
}

/// A key is live while its record exists in a non-terminal phase; only a
/// terminal transition (`finish`, `fail`, `abort`) clears it.
pub open spec fn live_at(m: Map<Seq<char>, TaskView>, key: Seq<char>) -> bool {
    m.contains_key(key) && !is_terminal(m[key].phase)
}

/// At most one job per key: a successful `begin` leaves the key live, so a
/// second `begin` before a terminal transition must return false.
pub proof fn lemma_begin_at_most_one(m: Map<Seq<char>, TaskView>, key: Seq<char>, now: u64)
    requires
        !live_at(m, key),
    ensures
        live_at(m.insert(key, start_view(now)), key),
{
}

/// Every terminal transition clears liveness, so a later `begin` succeeds.
pub proof fn lemma_terminal_reopens(m: Map<Seq<char>, TaskView>, key: Seq<char>, tv: TaskView, now: u64, msg: Seq<char>)
    ensures
        !live_at(m.insert(key, finished_view(tv, now)), key),
        !live_at(m.insert(key, failed_view(tv, msg, now)), key),
        !live_at(m.insert(key, with_phase(tv, Phase::Aborted, now)), key),
{
}

/// The estimated seconds left for a job: defined when at least one batch has
/// finished, the batch total is known, and the clock has not gone backwards;
/// then it is the average elapsed seconds per finished batch (integer
/// division) times the remaining batch count, saturating at `u64::MAX`.
pub open spec fn eta_spec(tv: TaskView) -> Option<u64> {
    if tv.chunk_index > 0 && tv.chunks_total > 0 && tv.updated_at >= tv.started_at {
        let elapsed = tv.updated_at - tv.started_at;
        let avg = elapsed / (tv.chunk_index as int);
        let rem: int = if tv.chunks_total > tv.chunk_index {
            tv.chunks_total - tv.chunk_index
        } else {
            0
        };
        if avg * rem > u64::MAX {
            Some(u64::MAX)
        } else {
            Some((avg * rem) as u64)
        }
    } else {
        None
    }
}

/// Estimate the seconds left for a job from its progress record.
pub fn eta_secs(p: &TaskProgress) -> (r: Option<u64>)
    ensures
        r == eta_spec(p@),
{
    if p.chunk_index > 0 && p.chunks_total > 0 && p.updated_at >= p.started_at {
        let elapsed = p.updated_at - p.started_at;
        let avg = elapsed / (p.chunk_index as u64);
        let rem: u64 = if p.chunks_total > p.chunk_index {
            (p.chunks_total - p.chunk_index) as u64
        } else {
            0
        };
        proof {
            assert((avg as int) * (rem as int) <= u64::MAX * u64::MAX) by (nonlinear_arith)
                requires 0 <= avg <= u64::MAX && 0 <= rem <= u64::MAX,
            ;
        }
        let prod: u128 = (avg as u128) * (rem as u128);
        if prod > u64::MAX as u128 {
            Some(u64::MAX)
        } else {
            Some(prod as u64)
        }
    } else {
        None
    }
}

/// The task registry: progress records and cancellable handles, per key.
pub struct TaskManager {
    statuses: crate::assoc::AssocList<TaskProgress>,
    handles: Vec<(String, JoinHandle<()>)>,
}

/// Whether some entry of `s` is keyed by `key`.
spec fn has_handle(s: Seq<(String, JoinHandle<()>)>, key: Seq<char>) -> bool {
    exists|i: int| 0 <= i < s.len() && s[i].0@ == key
}

impl TaskManager {
    /// The progress records, as a map.
    pub closed spec fn tasks(&self) -> Map<Seq<char>, TaskView> {
        self.statuses@
    }

    /// Whether a cancellable handle is registered for the key.
    pub closed spec fn running(&self, key: Seq<char>) -> bool {
        has_handle(self.handles@, key)
    }

    pub closed spec fn wf(&self) -> bool {
        self.statuses.wf() && forall|i: int, j: int|
            0 <= i < j < self.handles@.len() ==> self.handles@[i].0@ != self.handles@[j].0@
    }

    pub fn new() -> (r: TaskManager)
        ensures
            r.wf(),
            r.tasks() == Map::<Seq<char>, TaskView>::empty(),
            forall|k: Seq<char>| !r.running(k),
    {
        TaskManager { statuses: crate::assoc::AssocList::new(), handles: Vec::new() }
    }

    /// The index of the handle for `key`, if one is registered.
    fn handle_index(&self, key: &String) -> (r: Option<usize>)
        ensures
            match r {
                Some(i) => i < self.handles@.len() && self.handles@[i as int].0@ == key@,
                None => !self.running(key@),
            },
    {
        let n = self.handles.len();
        let mut i: usize = 0;
        while i < n
            invariant
                i <= n,
                n == self.handles@.len(),
                forall|k: int| 0 <= k < i ==> self.handles@[k].0@ != key@,
            decreases n - i,
        {
            if self.handles[i].0 == *key {
                return Some(i);
            }
            i = i + 1;
        }
        None
    }

    /// Drop the handle for `key`, if any; every other key keeps its handle.
    fn remove_handle(&mut self, key: &String) -> (r: Option<JoinHandle<()>>)
        requires
            old(self).wf(),
        ensures
            final(self).wf(),
            final(self).tasks() == old(self).tasks(),
            !final(self).running(key@),
            r is Some <==> old(self).running(key@),
            forall|k2: Seq<char>|
                k2 != key@ ==> final(self).running(k2) == old(self).running(k2),
    {
        let idx_opt = self.handle_index(key);
        match idx_opt {
            Some(i) => {
                let ghost pre = self.handles@;
                let (_, h) = self.handles.remove(i);
                proof {
                    pre.remove_ensures(i as int);
                    let post = self.handles@;
                    assert(forall|a: int|
                        0 <= a < post.len() ==> post[a] == pre[a] || post[a] == pre[a + 1]);
                    assert(forall|a: int| 0 <= a < pre.len() && a != i ==> pre[a].0@ != key@);
                    assert(!final(self).running(key@)) by {
                        if exists|a: int| 0 <= a < post.len() && post[a].0@ == key@ {
                            let a = choose|a: int| 0 <= a < post.len() && post[a].0@ == key@;
                            assert(false);
                        }
                    }
                    assert(forall|k2: Seq<char>|
                        k2 != key@ ==> self.running(k2) == old(self).running(k2)) by {
                        assert forall|k2: Seq<char>|
                            k2 != key@ && old(self).running(k2) implies self.running(k2) by {
                            let a = choose|a: int| 0 <= a < pre.len() && pre[a].0@ == k2;
                            if a < i {
                                assert(post[a] == pre[a]);
                            } else {
                                assert(a > i);
                                assert(post[a - 1] == pre[a]);
                            }
                        }
                        assert forall|k2: Seq<char>|
                            k2 != key@ && self.running(k2) implies old(self).running(k2) by {
                            let a = choose|a: int| 0 <= a < post.len() && post[a].0@ == k2;
                        }
                    }
                }
                Some(h)
            },
            None => {
                proof {
                    assert(forall|k2: Seq<char>|
                        k2 != key@ ==> self.running(k2) == old(self).running(k2));
                }
                None
            },
        }
    }

    /// Atomic check-and-insert: succeed and create a fresh `starting` record
    /// if and only if no live (non-terminal) record exists for `key`. This is
    /// the sole concurrency gate for a key.
    pub fn begin(&mut self, key: &String, now: u64) -> (r: bool)
        requires
            old(self).wf(),
        ensures
            final(self).wf(),
            r == !live_at(old(self).tasks(), key@),
            r ==> final(self).tasks() == old(self).tasks().insert(key@, start_view(now)),
            !r ==> final(self).tasks() == old(self).tasks(),
            forall|k2: Seq<char>| final(self).running(k2) == old(self).running(k2),
    {
        let live = match self.statuses.get(key) {
            Some(st) => !(st.phase == Phase::Done || st.phase == Phase::Failed || st.phase
                == Phase::Aborted),
            None => false,
        };
        if live {
            return false;
        }
        self.statuses.set(key.clone(), TaskProgress::new_start(now));
        true
    }

    /// Register the job's cancellable handle, replacing any previous one.
    pub fn set_handle(&mut self, key: &String, h: JoinHandle<()>)
        requires
            old(self).wf(),
        ensures
            final(self).wf(),
            final(self).tasks() == old(self).tasks(),
            final(self).running(key@),
            forall|k2: Seq<char>|
                k2 != key@ ==> final(self).running(k2) == old(self).running(k2),
    {
        let _ = self.remove_handle(key);
        let ghost mid = self.handles@;
        self.handles.push((key.clone(), h));
        proof {
            let post = self.handles@;
            assert(post.drop_last() =~= mid);
            assert(post[post.len() - 1].0@ == key@);
            assert(forall|a: int| 0 <= a < mid.len() ==> mid[a].0@ != key@);
            assert(self.running(key@));
            assert(forall|k2: Seq<char>|
                k2 != key@ ==> self.running(k2) == old(self).running(k2)) by {
                assert forall|k2: Seq<char>| k2 != key@ && self.running(k2) implies exists|a: int|
                    0 <= a < mid.len() && mid[a].0@ == k2 by {
                    let a = choose|a: int| 0 <= a < post.len() && post[a].0@ == k2;
                    assert(a < mid.len());
                    assert(mid[a].0@ == k2);
                }
                assert forall|k2: Seq<char>|
                    k2 != key@ && (exists|a: int| 0 <= a < mid.len() && mid[a].0@ == k2) implies self.running(
                    k2,
                ) by {
                    let a = choose|a: int| 0 <= a < mid.len() && mid[a].0@ == k2;
                    assert(post[a].0@ == k2);
                }
            }
        }
    }

    /// Update the live record's phase and refresh its timestamp; a key with
    /// no record is left untouched.
    pub fn set_phase(&mut self, key: &String, phase: Phase, now: u64)
        requires
            old(self).wf(),
        ensures
            final(self).wf(),
            old(self).tasks().contains_key(key@) ==> final(self).tasks() == old(self).tasks()
                .insert(key@, with_phase(old(self).tasks()[key@], phase, now)),
            !old(self).tasks().contains_key(key@) ==> final(self).tasks() == old(self).tasks(),
            forall|k2: Seq<char>| final(self).running(k2) == old(self).running(k2),
    {
        let found = match self.statuses.get(key) {
            Some(st) => {
                let mut st2 = st.duplicate();
                st2.phase = phase;
                st2.updated_at = now;
                Some(st2)
            },
            None => None,
        };
        match found {
            Some(st2) => {
                self.statuses.set(key.clone(), st2);
            },
            None => {},
        }
    }

    /// Record the totals of an upload about to start.
    pub fn set_upload_totals(
        &mut self,
        key: &String,
        new_total: usize,
        chunks_total: usize,
        total: usize,
        now: u64,
    )
        requires
            old(self).wf(),
        ensures
            final(self).wf(),
            old(self).tasks().contains_key(key@) ==> final(self).tasks() == old(self).tasks()
                .insert(
                key@,
                with_totals(old(self).tasks()[key@], new_total, chunks_total, total, now),
            ),
            !old(self).tasks().contains_key(key@) ==> final(self).tasks() == old(self).tasks(),
            forall|k2: Seq<char>| final(self).running(k2) == old(self).running(k2),
    {
        let found = match self.statuses.get(key) {
            Some(st) => {
                let mut st2 = st.duplicate();
                st2.new_total = new_total;
                st2.chunks_total = chunks_total;
                st2.total = total;
                st2.updated_at = now;
                Some(st2)
            },
            None => None,
        };
        match found {
            Some(st2) => {
                self.statuses.set(key.clone(), st2);
            },
            None => {},
        }
    }

    /// Record one uploaded batch: counters, recomputed percent (100 when
    /// nothing was new), and the refreshed timestamp.
    pub fn on_chunk(&mut self, key: &String, uploaded: usize, chunk_index: usize, chunk_bytes: usize, now: u64)
        requires
            old(self).wf(),
        ensures
            final(self).wf(),
            old(self).tasks().contains_key(key@) ==> final(self).tasks() == old(self).tasks()
                .insert(
                key@,
                with_chunk(old(self).tasks()[key@], uploaded, chunk_index, chunk_bytes, now),
            ),
            !old(self).tasks().contains_key(key@) ==> final(self).tasks() == old(self).tasks(),
            forall|k2: Seq<char>| final(self).running(k2) == old(self).running(k2),
    {
        let found = match self.statuses.get(key) {
            Some(st) => {
                let mut st2 = st.duplicate();
                st2.phase = Phase::Uploading;
                st2.uploaded = uploaded;
                st2.chunk_index = chunk_index;
                st2.chunk_bytes = chunk_bytes;
                st2.percent = percent_for(uploaded, st2.new_total);
                st2.updated_at = now;
                Some(st2)
            },
            None => None,
        };
        match found {
            Some(st2) => {
                self.statuses.set(key.clone(), st2);
            },
            None => {},
        }
    }

    /// Terminal success: mark the record `done` at 100 percent and drop the
    /// handle, so a later `begin` for the key can succeed. The record stays
    /// readable for a final poll.
    pub fn finish(&mut self, key: &String, now: u64)
        requires
            old(self).wf(),
        ensures
            final(self).wf(),
            old(self).tasks().contains_key(key@) ==> final(self).tasks() == old(self).tasks()
                .insert(key@, finished_view(old(self).tasks()[key@], now)),
            !old(self).tasks().contains_key(key@) ==> final(self).tasks() == old(self).tasks(),
            !final(self).running(key@),
            forall|k2: Seq<char>|
                k2 != key@ ==> final(self).running(k2) == old(self).running(k2),
    {
        let found = match self.statuses.get(key) {
            Some(st) => {
                let mut st2 = st.duplicate();
                st2.phase = Phase::Done;
                st2.percent = 100;
                st2.updated_at = now;
                Some(st2)
            },
            None => None,
        };
        match found {
            Some(st2) => {
                self.statuses.set(key.clone(), st2);
            },
            None => {},
        }
        let _ = self.remove_handle(key);
    }

    /// Terminal failure: mark the record `failed` with the message and drop
    /// the handle.
    pub fn fail(&mut self, key: &String, msg: String, now: u64)
        requires
            old(self).wf(),
        ensures
            final(self).wf(),
            old(self).tasks().contains_key(key@) ==> final(self).tasks() == old(self).tasks()
                .insert(key@, failed_view(old(self).tasks()[key@], msg@, now)),
            !old(self).tasks().contains_key(key@) ==> final(self).tasks() == old(self).tasks(),
            !final(self).running(key@),
            forall|k2: Seq<char>|
                k2 != key@ ==> final(self).running(k2) == old(self).running(k2),
    {
        let found = match self.statuses.get(key) {
            Some(st) => {
                let mut st2 = st.duplicate();
                st2.phase = Phase::Failed;
                st2.message = Some(msg);
                st2.updated_at = now;
                Some(st2)
            },
            None => None,
        };
        match found {
            Some(st2) => {
                self.statuses.set(key.clone(), st2);
            },
            None => {},
        }
        let _ = self.remove_handle(key);
    }

    /// Cancel the running job for `key`: succeeds, aborts the handle and
    /// marks the record `aborted` exactly when a handle is registered; a
    /// second call (or a call with no running job) returns false and changes
    /// nothing.
    pub fn abort(&mut self, key: &String, now: u64) -> (r: bool)
        requires
            old(self).wf(),
        ensures
            final(self).wf(),
            r == old(self).running(key@),
            !final(self).running(key@),
            forall|k2: Seq<char>|
                k2 != key@ ==> final(self).running(k2) == old(self).running(k2),
            r && old(self).tasks().contains_key(key@) ==> final(self).tasks() == old(self).tasks()
                .insert(key@, with_phase(old(self).tasks()[key@], Phase::Aborted, now)),
            r && !old(self).tasks().contains_key(key@) ==> final(self).tasks() == old(
                self,
            ).tasks(),
            !r ==> final(self).tasks() == old(self).tasks(),
    {
        let removed = self.remove_handle(key);
        match removed {
            Some(h) => {
                h.abort();
                let found = match self.statuses.get(key) {
                    Some(st) => {
                        let mut st2 = st.duplicate();
                        st2.phase = Phase::Aborted;
                        st2.updated_at = now;
                        Some(st2)
                    },
                    None => None,
                };
                match found {
                    Some(st2) => {
                        self.statuses.set(key.clone(), st2);
                    },
                    None => {},
                }
                true
            },
            None => false,
        }
    }

    /// Whether a handle is currently registered for the key (not merely a
    /// progress record kept for a final poll).
    pub fn is_running(&self, key: &String) -> (r: bool)
        ensures
            r == self.running(key@),
    {
        match self.handle_index(key) {
            Some(_) => true,
            None => false,
        }
    }

    /// A copy of the progress record for `key`, if one exists.
    pub fn get(&self, key: &String) -> (r: Option<TaskProgress>)
        requires
            self.wf(),
        ensures
            match r {
                Some(st) => self.tasks().contains_key(key@) && st@ == self.tasks()[key@],
                None => !self.tasks().contains_key(key@),
            },
    {
        match self.statuses.get(key) {
            Some(st) => Some(st.duplicate()),
            None => None,
        }
    }
}

} // verus!
