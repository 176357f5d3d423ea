//! The scheduler: the authority over all jobs and tubes.
//!
//! Time is a number of seconds handed in by the caller, so every operation is
//! a function of the store, its arguments and that clock.
use vstd::prelude::*;

use crate::protocol::{BeanstalkCommand, CommandView};
use crate::wire::bytes_eq;

verus! {

/// The state of a job, with the data that belongs to that state.
#[derive(Clone, Copy, Debug, PartialEq, Eq, Structural)]
pub enum JobState {
    /// Eligible for reservation.
    Ready,
    /// Becomes ready at `until`.
    Delayed { until: u64 },
    /// Held by the session `owner`; reclaimed at `deadline`.
    Reserved { owner: u64, deadline: u64 },
    /// Parked until kicked.
    Buried,
}

impl JobState {
    /// The state's name in statistics.
    pub fn name(&self) -> (r: &'static str)
        ensures
            r@ == match self {
                JobState::Ready => "ready"@,
                JobState::Delayed { .. } => "delayed"@,
                JobState::Reserved { .. } => "reserved"@,
                JobState::Buried => "buried"@,
            },
    {
        match self {
            JobState::Ready => "ready",
            JobState::Delayed { .. } => "delayed",
            JobState::Reserved { .. } => "reserved",
            JobState::Buried => "buried",
        }
    }
}

/// What changes over a job's life: its state, priority and counters.
#[derive(Clone, Copy, Debug, PartialEq, Eq, Structural)]
pub struct JobMeta {
    pub state: JobState,
    pub pri: u32,
    pub reserves: u64,
    pub timeouts: u64,
    pub releases: u64,
    pub buries: u64,
    pub kicks: u64,
    /// Order in which the job was last buried; the oldest is kicked first.
    pub buried_seq: u64,
}

/// A job.
pub struct Job {
    pub id: u64,
    /// Index of the job's tube in the store.
    pub tube: usize,
    pub data: Vec<u8>,
    /// Clock reading at creation.
    pub created: u64,
    pub ttr: u32,
    pub meta: JobMeta,
}

/// A named queue of jobs.
pub struct Tube {
    pub name: Vec<u8>,
    /// Reservations skip the tube's jobs before this instant.
    pub paused_until: u64,
    pub total_jobs: u64,
    pub cmd_delete: u64,
    pub cmd_pause_tube: u64,
    /// The delay of the last `pause-tube`, in seconds.
    pub pause: u64,
}

/// How many commands of each kind the server has carried out.
#[derive(Clone, Copy, Debug, PartialEq, Eq, Structural)]
pub struct CommandCounts {
    pub cmd_put: u64,
    pub cmd_peek: u64,
    pub cmd_peek_ready: u64,
    pub cmd_peek_delayed: u64,
    pub cmd_peek_buried: u64,
    pub cmd_reserve: u64,
    pub cmd_reserve_with_timeout: u64,
    pub cmd_touch: u64,
    pub cmd_use: u64,
    pub cmd_watch: u64,
    pub cmd_ignore: u64,
    pub cmd_delete: u64,
    pub cmd_release: u64,
    pub cmd_bury: u64,
    pub cmd_kick: u64,
    pub cmd_stats: u64,
    pub cmd_stats_job: u64,
    pub cmd_stats_tube: u64,
    pub cmd_list_tubes: u64,
    pub cmd_list_tube_used: u64,
    pub cmd_list_tubes_watched: u64,
    pub cmd_pause_tube: u64,
}

/// The counts after one more command `cmd`.
pub open spec fn counted(c: CommandCounts, cmd: CommandView) -> CommandCounts {
    match cmd {
        CommandView::Put {..} => CommandCounts { cmd_put: c.cmd_put.saturating_add(1), ..c },
        CommandView::Peek {..} => CommandCounts { cmd_peek: c.cmd_peek.saturating_add(1), ..c },
        CommandView::PeekReady => CommandCounts { cmd_peek_ready: c.cmd_peek_ready.saturating_add(1), ..c },
        CommandView::PeekDelayed => CommandCounts { cmd_peek_delayed: c.cmd_peek_delayed.saturating_add(1), ..c },
        CommandView::PeekBuried => CommandCounts { cmd_peek_buried: c.cmd_peek_buried.saturating_add(1), ..c },
        CommandView::Reserve => CommandCounts { cmd_reserve: c.cmd_reserve.saturating_add(1), ..c },
        CommandView::ReserveJob {..} => CommandCounts { cmd_reserve: c.cmd_reserve.saturating_add(1), ..c },
        CommandView::ReserveWithTimeout {..} => CommandCounts { cmd_reserve_with_timeout: c.cmd_reserve_with_timeout.saturating_add(1), ..c },
        CommandView::Touch {..} => CommandCounts { cmd_touch: c.cmd_touch.saturating_add(1), ..c },
        CommandView::Use {..} => CommandCounts { cmd_use: c.cmd_use.saturating_add(1), ..c },
        CommandView::Watch {..} => CommandCounts { cmd_watch: c.cmd_watch.saturating_add(1), ..c },
        CommandView::Ignore {..} => CommandCounts { cmd_ignore: c.cmd_ignore.saturating_add(1), ..c },
        CommandView::Delete {..} => CommandCounts { cmd_delete: c.cmd_delete.saturating_add(1), ..c },
        CommandView::Release {..} => CommandCounts { cmd_release: c.cmd_release.saturating_add(1), ..c },
        CommandView::Bury {..} => CommandCounts { cmd_bury: c.cmd_bury.saturating_add(1), ..c },
        CommandView::Kick {..} => CommandCounts { cmd_kick: c.cmd_kick.saturating_add(1), ..c },
        CommandView::KickJob {..} => CommandCounts { cmd_kick: c.cmd_kick.saturating_add(1), ..c },
        CommandView::StatsServer => CommandCounts { cmd_stats: c.cmd_stats.saturating_add(1), ..c },
        CommandView::StatsJob {..} => CommandCounts { cmd_stats_job: c.cmd_stats_job.saturating_add(1), ..c },
        CommandView::StatsTube {..} => CommandCounts { cmd_stats_tube: c.cmd_stats_tube.saturating_add(1), ..c },
        CommandView::ListTubes => CommandCounts { cmd_list_tubes: c.cmd_list_tubes.saturating_add(1), ..c },
        CommandView::ListTubeUsed => CommandCounts { cmd_list_tube_used: c.cmd_list_tube_used.saturating_add(1), ..c },
        CommandView::ListTubesWatched => CommandCounts { cmd_list_tubes_watched: c.cmd_list_tubes_watched.saturating_add(1), ..c },
        CommandView::PauseTube {..} => CommandCounts { cmd_pause_tube: c.cmd_pause_tube.saturating_add(1), ..c },
        CommandView::Quit => c,
    }
}

impl CommandCounts {
    /// All counts at zero.
    pub fn new() -> (r: CommandCounts)
        ensures
            r.cmd_put == 0,
            r.cmd_peek == 0,
            r.cmd_peek_ready == 0,
            r.cmd_peek_delayed == 0,
            r.cmd_peek_buried == 0,
            r.cmd_reserve == 0,
            r.cmd_reserve_with_timeout == 0,
            r.cmd_touch == 0,
            r.cmd_use == 0,
            r.cmd_watch == 0,
            r.cmd_ignore == 0,
            r.cmd_delete == 0,
            r.cmd_release == 0,
            r.cmd_bury == 0,
            r.cmd_kick == 0,
            r.cmd_stats == 0,
            r.cmd_stats_job == 0,
            r.cmd_stats_tube == 0,
            r.cmd_list_tubes == 0,
            r.cmd_list_tube_used == 0,
            r.cmd_list_tubes_watched == 0,
            r.cmd_pause_tube == 0,
    {
        CommandCounts {
            cmd_put: 0,
            cmd_peek: 0,
            cmd_peek_ready: 0,
            cmd_peek_delayed: 0,
            cmd_peek_buried: 0,
            cmd_reserve: 0,
            cmd_reserve_with_timeout: 0,
            cmd_touch: 0,
            cmd_use: 0,
            cmd_watch: 0,
            cmd_ignore: 0,
            cmd_delete: 0,
            cmd_release: 0,
            cmd_bury: 0,
            cmd_kick: 0,
            cmd_stats: 0,
            cmd_stats_job: 0,
            cmd_stats_tube: 0,
            cmd_list_tubes: 0,
            cmd_list_tube_used: 0,
            cmd_list_tubes_watched: 0,
            cmd_pause_tube: 0,
        }
    }

    /// Counts one more command `cmd`.
    pub fn record(&mut self, cmd: &BeanstalkCommand)
        ensures
            *final(self) == counted(*old(self), cmd@),
    {
        match cmd {
            BeanstalkCommand::Put {..} => {
                self.cmd_put = self.cmd_put.saturating_add(1);
            },
            BeanstalkCommand::Peek {..} => {
                self.cmd_peek = self.cmd_peek.saturating_add(1);
            },
            BeanstalkCommand::PeekReady => {
                self.cmd_peek_ready = self.cmd_peek_ready.saturating_add(1);
            },
            BeanstalkCommand::PeekDelayed => {
                self.cmd_peek_delayed = self.cmd_peek_delayed.saturating_add(1);
            },
            BeanstalkCommand::PeekBuried => {
                self.cmd_peek_buried = self.cmd_peek_buried.saturating_add(1);
            },
            BeanstalkCommand::Reserve => {
                self.cmd_reserve = self.cmd_reserve.saturating_add(1);
            },
            BeanstalkCommand::ReserveJob {..} => {
                self.cmd_reserve = self.cmd_reserve.saturating_add(1);
            },
            BeanstalkCommand::ReserveWithTimeout {..} => {
                self.cmd_reserve_with_timeout = self.cmd_reserve_with_timeout.saturating_add(1);
            },
            BeanstalkCommand::Touch {..} => {
                self.cmd_touch = self.cmd_touch.saturating_add(1);
            },
            BeanstalkCommand::Use {..} => {
                self.cmd_use = self.cmd_use.saturating_add(1);
            },
            BeanstalkCommand::Watch {..} => {
                self.cmd_watch = self.cmd_watch.saturating_add(1);
            },
            BeanstalkCommand::Ignore {..} => {
                self.cmd_ignore = self.cmd_ignore.saturating_add(1);
            },
            BeanstalkCommand::Delete {..} => {
                self.cmd_delete = self.cmd_delete.saturating_add(1);
            },
            BeanstalkCommand::Release {..} => {
                self.cmd_release = self.cmd_release.saturating_add(1);
            },
            BeanstalkCommand::Bury {..} => {
                self.cmd_bury = self.cmd_bury.saturating_add(1);
            },
            BeanstalkCommand::Kick {..} => {
                self.cmd_kick = self.cmd_kick.saturating_add(1);
            },
            BeanstalkCommand::KickJob {..} => {
                self.cmd_kick = self.cmd_kick.saturating_add(1);
            },
            BeanstalkCommand::StatsServer => {
                self.cmd_stats = self.cmd_stats.saturating_add(1);
            },
            BeanstalkCommand::StatsJob {..} => {
                self.cmd_stats_job = self.cmd_stats_job.saturating_add(1);
            },
            BeanstalkCommand::StatsTube {..} => {
                self.cmd_stats_tube = self.cmd_stats_tube.saturating_add(1);
            },
            BeanstalkCommand::ListTubes => {
                self.cmd_list_tubes = self.cmd_list_tubes.saturating_add(1);
            },
            BeanstalkCommand::ListTubeUsed => {
                self.cmd_list_tube_used = self.cmd_list_tube_used.saturating_add(1);
            },
            BeanstalkCommand::ListTubesWatched => {
                self.cmd_list_tubes_watched = self.cmd_list_tubes_watched.saturating_add(1);
            },
            BeanstalkCommand::PauseTube {..} => {
                self.cmd_pause_tube = self.cmd_pause_tube.saturating_add(1);
            },
            BeanstalkCommand::Quit => {},
        }
    }
}

/// All jobs and tubes of the server.
pub struct Store {
    /// Jobs in order of creation, which is the order of their ids.
    pub jobs: Vec<Job>,
    /// Tubes; the first is `default`. Tubes are never removed.
    pub tubes: Vec<Tube>,
    /// The id the next job gets.
    pub next_id: u64,
    /// The order number the next buried job gets.
    pub bury_seq: u64,
    /// Reservations waiting for a job, in order of arrival.
    pub waiters: Vec<Waiter>,
    /// Commands carried out so far.
    pub commands: CommandCounts,
}

/// A reservation waiting for a job: the session's watch set when it asked,
/// and the instant it gives up, if any.
pub struct Waiter {
    pub session: Session,
    pub deadline: Option<u64>,
}

/// The index of the job with id `id`.
pub open spec fn job_index(jobs: Seq<Job>, id: u64) -> Option<int>
    decreases jobs.len(),
{
    if jobs.len() == 0 {
        None
    } else if jobs.last().id == id {
        Some(jobs.len() - 1)
    } else {
        job_index(jobs.drop_last(), id)
    }
}

/// The state a new job starts in.
pub open spec fn initial_state(delay: u32, now: u64) -> JobState {
    if delay == 0 {
        JobState::Ready
    } else {
        JobState::Delayed { until: now.saturating_add(delay as u64) }
    }
}

/// `new` is `old` with one job appended: `id` on `tube`, holding `data`.
pub open spec fn put_effect(
    old: Seq<Job>,
    new: Seq<Job>,
    id: u64,
    tube: usize,
    pri: u32,
    delay: u32,
    ttr: u32,
    data: Seq<u8>,
    now: u64,
) -> bool {
    &&& new.len() == old.len() + 1
    &&& new.take(old.len() as int) == old
    &&& new.last().id == id
    &&& new.last().tube == tube
    &&& new.last().data@ == data
    &&& new.last().created == now
    &&& new.last().ttr == ttr
    &&& new.last().meta == JobMeta {
        state: initial_state(delay, now),
        pri,
        reserves: 0,
        timeouts: 0,
        releases: 0,
        buries: 0,
        kicks: 0,
        buried_seq: 0,
    }
}

/// The same tubes under the same names.
pub open spec fn same_tube_names(old: Seq<Tube>, new: Seq<Tube>) -> bool {
    &&& new.len() == old.len()
    &&& forall|t: int| 0 <= t < old.len() ==> (#[trigger] new[t]).name@ == old[t].name@
}

pub open spec fn default_tube_name() -> Seq<u8> {
    crate::wire::ascii(seq!['d', 'e', 'f', 'a', 'u', 'l', 't'])
}

fn new_tube(name: Vec<u8>) -> (r: Tube)
    ensures
        r.name@ == name@,
        r.paused_until == 0,
        r.total_jobs == 0,
{
    Tube { name, paused_until: 0, total_jobs: 0, cmd_delete: 0, cmd_pause_tube: 0, pause: 0 }
}


/// `j` with its changing part replaced by `m`.
pub open spec fn with_meta(j: Job, m: JobMeta) -> Job {
    Job { meta: m, ..j }
}

/// Among the first `n` jobs, the one that `sel` picks with the smallest
/// `key`; the earliest of those with equal keys.
pub open spec fn first_min(
    jobs: Seq<Job>,
    n: int,
    sel: spec_fn(Job) -> bool,
    key: spec_fn(Job) -> int,
) -> Option<int>
    decreases n,
{
    if n <= 0 {
        None
    } else {
        let prev = first_min(jobs, n - 1, sel, key);
        if sel(jobs[n - 1]) && (prev is None || key(jobs[n - 1]) < key(jobs[prev->0])) {
            Some(n - 1)
        } else {
            prev
        }
    }
}

/// `first_min` picks a selected job whose key is smallest, and among equal
/// keys the earliest; it picks none only when no job is selected.
pub proof fn lemma_first_min(
    jobs: Seq<Job>,
    n: int,
    sel: spec_fn(Job) -> bool,
    key: spec_fn(Job) -> int,
)
    requires
        0 <= n <= jobs.len(),
    ensures
        first_min(jobs, n, sel, key) matches Some(b) ==> {
            &&& 0 <= b < n
            &&& sel(jobs[b])
            &&& forall|k: int|
                0 <= k < n && #[trigger] sel(jobs[k]) ==> key(jobs[b]) < key(jobs[k]) || (key(
                    jobs[b],
                ) == key(jobs[k]) && b <= k)
        },
        first_min(jobs, n, sel, key) is None ==> forall|k: int|
            0 <= k < n ==> !#[trigger] sel(jobs[k]),
    decreases n,
{
    if n > 0 {
        lemma_first_min(jobs, n - 1, sel, key);
    }
}

/// Ready jobs of a watched tube that is not paused.
pub open spec fn reservable(watched: Seq<usize>, tubes: Seq<Tube>, now: u64) -> spec_fn(Job) -> bool {
    |j: Job|
        j.meta.state == JobState::Ready && watched.contains(j.tube) && j.tube < tubes.len()
            && tubes[j.tube as int].paused_until <= now
}

pub open spec fn by_pri() -> spec_fn(Job) -> int {
    |j: Job| j.meta.pri as int
}

/// What a reservation by `owner` at `now` makes of a job.
pub open spec fn reserved_meta(j: Job, owner: u64, now: u64) -> JobMeta {
    JobMeta {
        state: JobState::Reserved { owner, deadline: now.saturating_add(j.ttr as u64) },
        reserves: j.meta.reserves.saturating_add(1),
        ..j.meta
    }
}

/// What the passing of time up to `now` makes of a job: a delay that ran
/// out makes it ready, and so does a time to run that ran out, counting a
/// timeout.
pub open spec fn tick_meta(m: JobMeta, now: u64) -> JobMeta {
    match m.state {
        JobState::Delayed { until } => if until <= now {
            JobMeta { state: JobState::Ready, ..m }
        } else {
            m
        },
        JobState::Reserved { owner, deadline } => if deadline <= now {
            JobMeta { state: JobState::Ready, timeouts: m.timeouts.saturating_add(1), ..m }
        } else {
            m
        },
        _ => m,
    }
}

/// Every job after the passing of time up to `now`.
pub open spec fn ticked(jobs: Seq<Job>, now: u64) -> Seq<Job> {
    Seq::new(jobs.len(), |i: int| with_meta(jobs[i], tick_meta(jobs[i].meta, now)))
}

/// The job `id` is reserved by the session `owner`.
pub open spec fn owned_by(jobs: Seq<Job>, id: u64, owner: u64) -> bool {
    job_index(jobs, id) matches Some(i) && jobs[i].meta.state matches JobState::Reserved {
        owner: o,
        ..
    } && o == owner
}

/// The jobs after `touch` of `id` by `owner` at `now`, and whether it
/// succeeded.
pub open spec fn touch_result(jobs: Seq<Job>, id: u64, owner: u64, now: u64) -> (Seq<Job>, bool) {
    if owned_by(jobs, id, owner) {
        let i = job_index(jobs, id)->0;
        (
            jobs.update(
                i,
                with_meta(
                    jobs[i],
                    JobMeta {
                        state: JobState::Reserved {
                            owner,
                            deadline: now.saturating_add(jobs[i].ttr as u64),
                        },
                        ..jobs[i].meta
                    },
                ),
            ),
            true,
        )
    } else {
        (jobs, false)
    }
}

pub open spec fn ready_on(t: usize) -> spec_fn(Job) -> bool {
    |j: Job| j.tube == t && j.meta.state == JobState::Ready
}

pub open spec fn delayed_on(t: usize) -> spec_fn(Job) -> bool {
    |j: Job| j.tube == t && j.meta.state is Delayed
}

pub open spec fn buried_on(t: usize) -> spec_fn(Job) -> bool {
    |j: Job| j.tube == t && j.meta.state == JobState::Buried
}

pub open spec fn by_until() -> spec_fn(Job) -> int {
    |j: Job|
        match j.meta.state {
            JobState::Delayed { until } => until as int,
            _ => 0,
        }
}

pub open spec fn by_buried_seq() -> spec_fn(Job) -> int {
    |j: Job| j.meta.buried_seq as int
}

/// How many jobs `sel` picks.
pub open spec fn count_sel(jobs: Seq<Job>, sel: spec_fn(Job) -> bool) -> nat
    decreases jobs.len(),
{
    if jobs.len() == 0 {
        0
    } else {
        count_sel(jobs.drop_last(), sel) + if sel(jobs.last()) {
            1nat
        } else {
            0nat
        }
    }
}

proof fn lemma_count_update(jobs: Seq<Job>, i: int, x: Job, sel: spec_fn(Job) -> bool)
    requires
        0 <= i < jobs.len(),
    ensures
        count_sel(jobs.update(i, x), sel) + (if sel(jobs[i]) {
            1nat
        } else {
            0nat
        }) == count_sel(jobs, sel) + (if sel(x) {
            1nat
        } else {
            0nat
        }),
    decreases jobs.len(),
{
    let u = jobs.update(i, x);
    if i < jobs.len() - 1 {
        assert(u.drop_last() =~= jobs.drop_last().update(i, x));
        lemma_count_update(jobs.drop_last(), i, x, sel);
    } else {
        assert(u.drop_last() =~= jobs.drop_last());
    }
}

proof fn lemma_count_none(jobs: Seq<Job>, sel: spec_fn(Job) -> bool)
    requires
        forall|k: int| 0 <= k < jobs.len() ==> !#[trigger] sel(jobs[k]),
    ensures
        count_sel(jobs, sel) == 0,
    decreases jobs.len(),
{
    if jobs.len() > 0 {
        assert forall|k: int| 0 <= k < jobs.len() - 1 implies !#[trigger] sel(jobs.drop_last()[k]) by {
            assert(jobs.drop_last()[k] == jobs[k]);
        }
        lemma_count_none(jobs.drop_last(), sel);
    }
}

/// What `kick` makes of a job it promotes.
pub open spec fn kicked_meta(m: JobMeta) -> JobMeta {
    JobMeta { state: JobState::Ready, kicks: m.kicks.saturating_add(1), ..m }
}

/// The jobs `kick` on tube `t` may promote: the buried ones, or the delayed
/// ones when none is buried.
pub open spec fn kick_main(jobs: Seq<Job>, t: usize) -> spec_fn(Job) -> bool {
    if count_sel(jobs, buried_on(t)) > 0 {
        buried_on(t)
    } else {
        delayed_on(t)
    }
}

/// `new` is what `kick` of tube `t` with `bound`, returning `r`, makes of
/// `old`: `r` jobs of the kind `kick_main` picks are promoted, no other job
/// changes.
pub open spec fn kick_effect(old: Seq<Job>, new: Seq<Job>, t: usize, bound: u64, r: u64) -> bool {
    &&& new.len() == old.len()
    &&& r as nat == kick_count(count_sel(old, buried_on(t)), count_sel(old, delayed_on(t)), bound as nat)
    &&& count_sel(old, buried_on(t)) > 0 ==> {
        &&& count_sel(new, buried_on(t)) == count_sel(old, buried_on(t)) - r
        &&& count_sel(new, delayed_on(t)) == count_sel(old, delayed_on(t))
    }
    &&& count_sel(old, buried_on(t)) == 0 ==> {
        &&& count_sel(new, buried_on(t)) == 0
        &&& count_sel(new, delayed_on(t)) == count_sel(old, delayed_on(t)) - r
    }
    &&& forall|i: int|
        0 <= i < old.len() ==> #[trigger] new[i] == old[i] || (kick_main(old, t)(old[i]) && new[i]
            == with_meta(old[i], kicked_meta(old[i].meta)))
}

/// The number of jobs `kick` promotes, from the numbers of buried and of
/// delayed jobs on the tube.
pub open spec fn kick_count(buried: nat, delayed: nat, bound: nat) -> nat {
    if buried > 0 {
        if bound < buried { bound } else { buried }
    } else {
        if bound < delayed { bound } else { delayed }
    }
}

/// The job `id` may be deleted by `owner`: it exists and is not reserved by
/// another session.
pub open spec fn deletable(jobs: Seq<Job>, id: u64, owner: u64) -> bool {
    job_index(jobs, id) matches Some(i) && match jobs[i].meta.state {
        JobState::Reserved { owner: o, .. } => o == owner,
        _ => true,
    }
}

/// A client's use and watch settings.
pub struct Session {
    /// Identifies the session as the owner of reserved jobs.
    pub id: u64,
    /// The tube `put` targets.
    pub used: usize,
    /// The tubes reservations draw from; never empty, without repeats.
    pub watched: Vec<usize>,
}

impl Session {
    pub open spec fn wf(&self, n_tubes: nat) -> bool {
        &&& self.watched@.len() >= 1
        &&& self.used < n_tubes
        &&& forall|i: int| 0 <= i < self.watched@.len() ==> #[trigger] self.watched@[i] < n_tubes
        &&& forall|i: int, j: int|
            0 <= i < j < self.watched@.len() ==> #[trigger] self.watched@[i]
                != #[trigger] self.watched@[j]
    }

    /// A session that uses and watches the tube `default`.
    pub fn new(id: u64) -> (r: Session)
        ensures
            r.id == id,
            r.used == 0,
            r.watched@ == seq![0usize],
            forall|n: nat| n >= 1 ==> r.wf(n),
    {
        let mut watched: Vec<usize> = Vec::new();
        watched.push(0);
        Session { id, used: 0, watched }
    }

    /// A copy of the session's settings.
    pub fn snapshot(&self) -> (r: Session)
        ensures
            r.id == self.id,
            r.used == self.used,
            r.watched@ == self.watched@,
    {
        let mut watched: Vec<usize> = Vec::new();
        let mut k: usize = 0;
        while k < self.watched.len()
            invariant
                0 <= k <= self.watched@.len(),
                watched@ == self.watched@.take(k as int),
            decreases self.watched@.len() - k,
        {
            watched.push(self.watched[k]);
            k += 1;
            assert(watched@ =~= self.watched@.take(k as int));
        }
        assert(self.watched@.take(k as int) =~= self.watched@);
        Session { id: self.id, used: self.used, watched }
    }

    /// Where tube `t` stands in the watch set.
    pub fn position_of(&self, t: usize) -> (r: Option<usize>)
        ensures
            match r {
                Some(p) => p < self.watched@.len() && self.watched@[p as int] == t,
                None => !self.watched@.contains(t),
            },
    {
        let mut p: usize = 0;
        while p < self.watched.len()
            invariant
                0 <= p <= self.watched@.len(),
                forall|k: int| 0 <= k < p ==> self.watched@[k] != t,
            decreases self.watched@.len() - p,
        {
            if self.watched[p] == t {
                return Some(p);
            }
            p += 1;
        }
        None
    }
}

impl Store {
    pub open spec fn wf(&self) -> bool {
        &&& self.jobs@.len() <= self.next_id
        &&& self.tubes@.len() >= 1
        &&& self.tubes@.len() < usize::MAX
        &&& forall|i: int, j: int|
            0 <= i < j < self.tubes@.len() ==> (#[trigger] self.tubes@[i]).name@
                != (#[trigger] self.tubes@[j]).name@
        &&& forall|i: int, j: int|
            0 <= i < j < self.jobs@.len() ==> (#[trigger] self.jobs@[i]).id
                < (#[trigger] self.jobs@[j]).id
        &&& forall|i: int|
            0 <= i < self.jobs@.len() ==> (#[trigger] self.jobs@[i]).id < self.next_id
                && self.jobs@[i].tube < self.tubes@.len()
    }

    /// A store with the tube `default` and no job.
    pub fn new() -> (r: Store)
        ensures
            r.wf(),
            r.jobs@.len() == 0,
            r.tubes@.len() == 1,
            r.tubes@[0].name@ == default_tube_name(),
            r.next_id == 1,
            r.waiters@.len() == 0,
    {
        let mut tubes: Vec<Tube> = Vec::new();
        tubes.push(new_tube(crate::wire::ascii_vec(&['d', 'e', 'f', 'a', 'u', 'l', 't'])));
        Store {
            jobs: Vec::new(),
            tubes,
            next_id: 1,
            bury_seq: 0,
            waiters: Vec::new(),
            commands: CommandCounts::new(),
        }
    }

    /// The index of the tube named `name`, if it exists.
    pub fn find_tube(&self, name: &[u8]) -> (r: Option<usize>)
        ensures
            match r {
                Some(t) => t < self.tubes@.len() && self.tubes@[t as int].name@ == name@,
                None => forall|t: int|
                    0 <= t < self.tubes@.len() ==> (#[trigger] self.tubes@[t]).name@ != name@,
            },
    {
        let mut t: usize = 0;
        while t < self.tubes.len()
            invariant
                0 <= t <= self.tubes@.len(),
                forall|k: int| 0 <= k < t ==> (#[trigger] self.tubes@[k]).name@ != name@,
            decreases self.tubes@.len() - t,
        {
            if bytes_eq(self.tubes[t].name.as_slice(), name) {
                return Some(t);
            }
            t += 1;
        }
        None
    }

    /// The index of the tube named `name`, created if it does not exist yet.
    pub fn tube_named(&mut self, name: &[u8]) -> (r: Option<usize>)
        requires
            old(self).wf(),
        ensures
            final(self).wf(),
            final(self).waiters@ == old(self).waiters@,
            final(self).jobs@ == old(self).jobs@,
            final(self).next_id == old(self).next_id,
            old(self).tubes@.len() <= final(self).tubes@.len() <= old(self).tubes@.len() + 1,
            forall|t: int|
                0 <= t < old(self).tubes@.len() ==> #[trigger] final(self).tubes@[t] == old(
                    self,
                ).tubes@[t],
            match r {
                Some(t) => t < final(self).tubes@.len() && final(self).tubes@[t as int].name@
                    == name@,
                None => final(self).tubes@ == old(self).tubes@ && old(self).tubes@.len() + 1
                    >= usize::MAX && forall|t: int|
                    0 <= t < old(self).tubes@.len() ==> (#[trigger] old(self).tubes@[t]).name@
                        != name@,
            },
            final(self).tubes@.len() == old(self).tubes@.len() + 1 ==> forall|t: int|
                0 <= t < old(self).tubes@.len() ==> (#[trigger] old(self).tubes@[t]).name@
                    != name@,
    {
        match self.find_tube(name) {
            Some(t) => Some(t),
            None => {
                if self.tubes.len() + 1 >= usize::MAX {
                    return None;
                }
                self.tubes.push(new_tube(vstd::slice::slice_to_vec(name)));
                Some(self.tubes.len() - 1)
            },
        }
    }

    /// The position of the job with id `id`.
    pub fn find_job(&self, id: u64) -> (r: Option<usize>)
        ensures
            r matches Some(i) ==> job_index(self.jobs@, id) == Some(i as int) && i
                < self.jobs@.len() && self.jobs@[i as int].id == id,
            r is None ==> job_index(self.jobs@, id) is None,
    {
        proof {
            lemma_job_index(self.jobs@, id);
        }
        let mut i = self.jobs.len();
        assert(self.jobs@.take(i as int) =~= self.jobs@);
        while i > 0
            invariant
                0 <= i <= self.jobs@.len(),
                job_index(self.jobs@, id) == job_index(self.jobs@.take(i as int), id),
            decreases i,
        {
            assert(self.jobs@.take(i as int).drop_last() =~= self.jobs@.take(i - 1));
            if self.jobs[i - 1].id == id {
                return Some(i - 1);
            }
            i -= 1;
        }
        None
    }

    /// Creates a job on tube `tube`; `None` once ids are used up.
    pub fn put(&mut self, tube: usize, pri: u32, delay: u32, ttr: u32, data: Vec<u8>, now: u64) -> (r:
        Option<u64>)
        requires
            old(self).wf(),
            tube < old(self).tubes@.len(),
        ensures
            final(self).wf(),
            final(self).waiters@ == old(self).waiters@,
            same_tube_names(old(self).tubes@, final(self).tubes@),
            old(self).next_id == u64::MAX ==> r is None && final(self).jobs@ == old(self).jobs@,
            old(self).next_id < u64::MAX ==> r == Some(old(self).next_id) && put_effect(
                old(self).jobs@,
                final(self).jobs@,
                old(self).next_id,
                tube,
                pri,
                delay,
                ttr,
                data@,
                now,
            ),
    {
        if self.next_id == u64::MAX {
            return None;
        }
        let id = self.next_id;
        let state = if delay == 0 {
            JobState::Ready
        } else {
            JobState::Delayed { until: now.saturating_add(delay as u64) }
        };
        self.jobs.push(
            Job {
                id,
                tube,
                data,
                created: now,
                ttr,
                meta: JobMeta {
                    state,
                    pri,
                    reserves: 0,
                    timeouts: 0,
                    releases: 0,
                    buries: 0,
                    kicks: 0,
                    buried_seq: 0,
                },
            },
        );
        self.next_id = id + 1;
        let mut t = self.tubes.remove(tube);
        t.total_jobs = t.total_jobs.saturating_add(1);
        self.tubes.insert(tube, t);
        assert(self.tubes@ =~= old(self).tubes@.update(tube as int, self.tubes@[tube as int]));
        assert(self.jobs@.take(old(self).jobs@.len() as int) =~= old(self).jobs@);
        Some(id)
    }

    /// Replaces the changing part of job `i`.
    fn set_meta(&mut self, i: usize, m: JobMeta)
        requires
            old(self).wf(),
            i < old(self).jobs@.len(),
        ensures
            final(self).wf(),
            final(self).jobs@ == old(self).jobs@.update(i as int, with_meta(old(self).jobs@[i as int], m)),
            final(self).tubes@ == old(self).tubes@,
            final(self).next_id == old(self).next_id,
            final(self).bury_seq == old(self).bury_seq,
            final(self).waiters@ == old(self).waiters@,
            final(self).commands == old(self).commands,
    {
        let mut j = self.jobs.remove(i);
        j.meta = m;
        self.jobs.insert(i, j);
        assert(self.jobs@ =~= old(self).jobs@.update(i as int, with_meta(old(self).jobs@[i as int], m)));
    }

    /// Applies the passing of time up to `now` to every job.
    pub fn tick(&mut self, now: u64)
        requires
            old(self).wf(),
        ensures
            final(self).wf(),
            final(self).tubes@ == old(self).tubes@,
            final(self).jobs@ == ticked(old(self).jobs@, now),
            final(self).waiters@ == old(self).waiters@,
            final(self).commands == old(self).commands,
    {
        let mut i: usize = 0;
        while i < self.jobs.len()
            invariant
                self.wf(),
                0 <= i <= self.jobs@.len(),
                self.jobs@.len() == old(self).jobs@.len(),
                self.tubes@ == old(self).tubes@,
                self.waiters@ == old(self).waiters@,
                self.commands == old(self).commands,
                forall|k: int|
                    0 <= k < i ==> #[trigger] self.jobs@[k] == with_meta(
                        old(self).jobs@[k],
                        tick_meta(old(self).jobs@[k].meta, now),
                    ),
                forall|k: int| i <= k < self.jobs@.len() ==> #[trigger] self.jobs@[k] == old(self).jobs@[k],
            decreases self.jobs@.len() - i,
        {
            let m = self.jobs[i].meta;
            let next = match m.state {
                JobState::Delayed { until } => if until <= now {
                    JobMeta { state: JobState::Ready, ..m }
                } else {
                    m
                },
                JobState::Reserved { owner, deadline } => if deadline <= now {
                    JobMeta { state: JobState::Ready, timeouts: m.timeouts.saturating_add(1), ..m }
                } else {
                    m
                },
                _ => m,
            };
            self.set_meta(i, next);
            assert(with_meta(old(self).jobs@[i as int], m) == old(self).jobs@[i as int]);
            i += 1;
        }
        assert(self.jobs@ =~= ticked(old(self).jobs@, now));
    }

    /// Whether tube `t` is watched and not paused at `now`.
    fn tube_open(&self, watched: &Session, t: usize, now: u64) -> (r: bool)
        requires
            t < self.tubes@.len(),
        ensures
            r == (watched.watched@.contains(t) && self.tubes@[t as int].paused_until <= now),
    {
        match watched.position_of(t) {
            Some(_) => self.tubes[t].paused_until <= now,
            None => false,
        }
    }

    /// Reserves for `session` the most urgent ready job of its watched tubes
    /// that are not paused: the lowest priority value, and the oldest among
    /// equal priorities. Returns the job's position; `None` when there is no
    /// such job.
    pub fn reserve(&mut self, session: &Session, now: u64) -> (r: Option<usize>)
        requires
            old(self).wf(),
        ensures
            final(self).wf(),
            final(self).tubes@ == old(self).tubes@,
            match first_min(
                old(self).jobs@,
                old(self).jobs@.len() as int,
                reservable(session.watched@, old(self).tubes@, now),
                by_pri(),
            ) {
                Some(b) => r == Some(b as usize) && final(self).jobs@ == old(
                    self,
                ).jobs@.update(b, with_meta(old(self).jobs@[b], reserved_meta(old(self).jobs@[b], session.id, now))),
                None => r is None && final(self).jobs@ == old(self).jobs@,
            },
            r matches Some(b) ==> b < old(self).jobs@.len() && b < final(self).jobs@.len() && (final(self).jobs@[b as int].meta.state matches JobState::Reserved {
                owner,
                ..
            } && owner == session.id) && old(self).jobs@[b as int].meta.state == JobState::Ready
                && final(self).jobs@ == old(self).jobs@.update(
                b as int,
                with_meta(old(self).jobs@[b as int], reserved_meta(old(self).jobs@[b as int], session.id, now)),
            ),
            final(self).waiters@ == old(self).waiters@,
    {
        let ghost sel = reservable(session.watched@, self.tubes@, now);
        let mut best: Option<usize> = None;
        let mut i: usize = 0;
        while i < self.jobs.len()
            invariant
                self.wf(),
                self.jobs@ == old(self).jobs@,
                self.tubes@ == old(self).tubes@,
                self.waiters@ == old(self).waiters@,
                sel == reservable(session.watched@, self.tubes@, now),
                0 <= i <= self.jobs@.len(),
                match best {
                    Some(b) => b < i && first_min(self.jobs@, i as int, sel, by_pri()) == Some(b as int),
                    None => first_min(self.jobs@, i as int, sel, by_pri()) is None,
                },
            decreases self.jobs@.len() - i,
        {
            let t = self.jobs[i].tube;
            let chosen = self.jobs[i].meta.state == JobState::Ready && self.tube_open(session, t, now);
            assert(chosen == sel(self.jobs@[i as int]));
            if chosen {
                match best {
                    Some(b) => {
                        if self.jobs[i].meta.pri < self.jobs[b].meta.pri {
                            best = Some(i);
                        }
                    },
                    None => {
                        best = Some(i);
                    },
                }
            }
            i += 1;
        }
        match best {
            Some(b) => {
                proof {
                    lemma_first_min(self.jobs@, self.jobs@.len() as int, sel, by_pri());
                }
                let m = self.jobs[b].meta;
                let deadline = now.saturating_add(self.jobs[b].ttr as u64);
                self.set_meta(
                    b,
                    JobMeta {
                        state: JobState::Reserved { owner: session.id, deadline },
                        reserves: m.reserves.saturating_add(1),
                        ..m
                    },
                );
                Some(b)
            },
            None => None,
        }
    }

    /// Refreshes the time to run of job `id` if the session `owner` holds
    /// it; otherwise changes nothing and returns `false`.
    pub fn touch(&mut self, owner: u64, id: u64, now: u64) -> (r: bool)
        requires
            old(self).wf(),
        ensures
            final(self).wf(),
            final(self).waiters@ == old(self).waiters@,
            final(self).tubes@ == old(self).tubes@,
            (final(self).jobs@, r) == touch_result(old(self).jobs@, id, owner, now),
    {
        match self.find_job(id) {
            Some(i) => {
                let m = self.jobs[i].meta;
                match m.state {
                    JobState::Reserved { owner: o, deadline: _ } => {
                        if o != owner {
                            return false;
                        }
                        let deadline = now.saturating_add(self.jobs[i].ttr as u64);
                        self.set_meta(
                            i,
                            JobMeta { state: JobState::Reserved { owner, deadline }, ..m },
                        );
                        true
                    },
                    _ => false,
                }
            },
            None => false,
        }
    }

    /// Makes tube `name` the one `put` targets, creating it if needed;
    /// `false` when no more tubes can be made.
    pub fn use_tube(&mut self, session: &mut Session, name: &[u8]) -> (r: bool)
        requires
            old(self).wf(),
            old(session).wf(old(self).tubes@.len()),
        ensures
            final(self).wf(),
            final(self).waiters@ == old(self).waiters@,
            final(self).jobs@ == old(self).jobs@,
            final(session).wf(final(self).tubes@.len()),
            final(session).id == old(session).id,
            final(session).watched@ == old(session).watched@,
            old(self).tubes@.len() <= final(self).tubes@.len() <= old(self).tubes@.len() + 1,
            forall|t: int|
                0 <= t < old(self).tubes@.len() ==> #[trigger] final(self).tubes@[t] == old(
                    self,
                ).tubes@[t],
            r ==> final(self).tubes@[final(session).used as int].name@ == name@,
            !r ==> {
                &&& final(session).used == old(session).used
                &&& final(self).tubes@ == old(self).tubes@
                &&& old(self).tubes@.len() + 1 >= usize::MAX
                &&& forall|t: int|
                    0 <= t < old(self).tubes@.len() ==> (#[trigger] old(self).tubes@[t]).name@
                        != name@
            },
    {
        match self.tube_named(name) {
            Some(t) => {
                session.used = t;
                true
            },
            None => false,
        }
    }

    /// Adds tube `name` to the watch set, creating it if needed, and returns
    /// the size of the watch set; `None` when no more tubes can be made.
    pub fn watch(&mut self, session: &mut Session, name: &[u8]) -> (r: Option<usize>)
        requires
            old(self).wf(),
            old(session).wf(old(self).tubes@.len()),
        ensures
            final(self).wf(),
            final(self).waiters@ == old(self).waiters@,
            final(self).jobs@ == old(self).jobs@,
            final(session).wf(final(self).tubes@.len()),
            final(session).id == old(session).id,
            final(session).used == old(session).used,
            old(self).tubes@.len() <= final(self).tubes@.len() <= old(self).tubes@.len() + 1,
            forall|t: int|
                0 <= t < old(self).tubes@.len() ==> #[trigger] final(self).tubes@[t] == old(
                    self,
                ).tubes@[t],
            match r {
                Some(n) => exists|t: int|
                    0 <= t < final(self).tubes@.len() && (#[trigger] final(self).tubes@[t]).name@
                        == name@ && final(session).watched@ == (if old(session).watched@.contains(
                        t as usize,
                    ) {
                        old(session).watched@
                    } else {
                        old(session).watched@.push(t as usize)
                    }) && n == final(session).watched@.len(),
                None => {
                    &&& final(session).watched@ == old(session).watched@
                    &&& final(self).tubes@ == old(self).tubes@
                    &&& old(self).tubes@.len() + 1 >= usize::MAX
                    &&& forall|t: int|
                        0 <= t < old(self).tubes@.len() ==> (#[trigger] old(self).tubes@[t]).name@
                            != name@
                },
            },
    {
        let t = match self.tube_named(name) {
            Some(t) => t,
            None => return None,
        };
        match session.position_of(t) {
            Some(p) => {
                assert(session.watched@[p as int] == t);
            },
            None => {
                session.watched.push(t);
                assert(session.watched@[session.watched@.len() - 1] == t);
                assert forall|i: int, j: int|
                    0 <= i < j < session.watched@.len() implies #[trigger] session.watched@[i]
                    != #[trigger] session.watched@[j] by {
                    if j == session.watched@.len() - 1 {
                        assert(old(session).watched@.contains(session.watched@[i]));
                    }
                }
                assert forall|u: usize| #[trigger]
                    old(session).watched@.contains(u) implies session.watched@.contains(u) by {
                    let k = choose|k: int| 0 <= k < old(session).watched@.len() && old(session).watched@[k] == u;
                    assert(session.watched@[k] == u);
                }
            },
        }
        assert(session.watched@.contains(t));
        assert(self.tubes@[t as int].name@ == name@);
        Some(session.watched.len())
    }

    /// Removes tube `name` from the watch set and returns the size of the
    /// watch set, or `None` (and changes nothing) when that tube is the only
    /// one watched.
    pub fn ignore(&self, session: &mut Session, name: &[u8]) -> (r: Option<usize>)
        requires
            self.wf(),
            old(session).wf(self.tubes@.len()),
        ensures
            final(session).wf(self.tubes@.len()),
            final(session).id == old(session).id,
            final(session).used == old(session).used,
            r is None <==> old(session).watched@.len() == 1 && self.tubes@[old(
                session,
            ).watched@[0] as int].name@ == name@,
            r is None ==> final(session).watched@ == old(session).watched@,
            r matches Some(n) ==> n == final(session).watched@.len() && forall|t: usize|
                #[trigger] final(session).watched@.contains(t) <==> old(session).watched@.contains(t)
                    && self.tubes@[t as int].name@ != name@,
    {
        let t = match self.find_tube(name) {
            Some(t) => t,
            None => {
                assert forall|t: usize| #[trigger]
                    session.watched@.contains(t) implies self.tubes@[t as int].name@ != name@ by {
                    let k = choose|k: int| 0 <= k < session.watched@.len() && session.watched@[k] == t;
                }
                return Some(session.watched.len());
            },
        };
        match session.position_of(t) {
            Some(p) => {
                if session.watched.len() == 1 {
                    return None;
                }
                session.watched.remove(p);
                assert forall|u: usize| #[trigger]
                    session.watched@.contains(u) <==> old(session).watched@.contains(u)
                        && self.tubes@[u as int].name@ != name@ by {
                    if old(session).watched@.contains(u) && self.tubes@[u as int].name@ != name@ {
                        let k = choose|k: int| 0 <= k < old(session).watched@.len() && old(session).watched@[k] == u;
                        if k < p {
                            assert(session.watched@[k] == u);
                        } else {
                            assert(k != p);
                            assert(session.watched@[k - 1] == u);
                        }
                    }
                    if session.watched@.contains(u) {
                        let k = choose|k: int| 0 <= k < session.watched@.len() && session.watched@[k] == u;
                        if k < p {
                            assert(old(session).watched@[k] == u);
                        } else {
                            assert(old(session).watched@[k + 1] == u);
                            assert(u != t);
                        }
                    }
                }
                Some(session.watched.len())
            },
            None => {
                assert forall|u: usize| #[trigger]
                    session.watched@.contains(u) implies self.tubes@[u as int].name@ != name@ by {
                    if self.tubes@[u as int].name@ == name@ {
                        let k = choose|k: int| 0 <= k < session.watched@.len() && session.watched@[k] == u;
                        assert(u == t);
                    }
                }
                if session.watched.len() == 1 {
                    assert(session.watched@.contains(session.watched@[0]));
                }
                Some(session.watched.len())
            },
        }
    }

    /// Position of the first job of tube `t` in the order of `kind`: 0 ready
    /// jobs by priority, 1 delayed jobs by the time they become ready, 2
    /// buried jobs by the order of burial; the earliest among equal keys.
    fn first_on(&self, t: usize, kind: u8) -> (r: Option<usize>)
        requires
            kind < 3,
        ensures
            match r {
                Some(b) => b < self.jobs@.len() && first_min(
                    self.jobs@,
                    self.jobs@.len() as int,
                    if kind == 0 { ready_on(t) } else if kind == 1 { delayed_on(t) } else { buried_on(t) },
                    if kind == 0 { by_pri() } else if kind == 1 { by_until() } else { by_buried_seq() },
                ) == Some(b as int),
                None => first_min(
                    self.jobs@,
                    self.jobs@.len() as int,
                    if kind == 0 { ready_on(t) } else if kind == 1 { delayed_on(t) } else { buried_on(t) },
                    if kind == 0 { by_pri() } else if kind == 1 { by_until() } else { by_buried_seq() },
                ) is None,
            },
    {
        let ghost sel = if kind == 0 { ready_on(t) } else if kind == 1 { delayed_on(t) } else { buried_on(t) };
        let ghost key = if kind == 0 { by_pri() } else if kind == 1 { by_until() } else { by_buried_seq() };
        let mut best: Option<usize> = None;
        let mut best_key: u64 = 0;
        let mut i: usize = 0;
        while i < self.jobs.len()
            invariant
                kind < 3,
                sel == (if kind == 0 { ready_on(t) } else if kind == 1 { delayed_on(t) } else { buried_on(t) }),
                key == (if kind == 0 { by_pri() } else if kind == 1 { by_until() } else { by_buried_seq() }),
                0 <= i <= self.jobs@.len(),
                match best {
                    Some(b) => b < i && first_min(self.jobs@, i as int, sel, key) == Some(b as int)
                        && best_key as int == key(self.jobs@[b as int]),
                    None => first_min(self.jobs@, i as int, sel, key) is None,
                },
            decreases self.jobs@.len() - i,
        {
            let j = &self.jobs[i];
            let (chosen, k) = if j.tube != t {
                (false, 0u64)
            } else if kind == 0 {
                (j.meta.state == JobState::Ready, j.meta.pri as u64)
            } else if kind == 1 {
                match j.meta.state {
                    JobState::Delayed { until } => (true, until),
                    _ => (false, 0u64),
                }
            } else {
                (j.meta.state == JobState::Buried, j.meta.buried_seq)
            };
            assert(chosen == sel(self.jobs@[i as int]));
            assert(chosen ==> k as int == key(self.jobs@[i as int]));
            if chosen {
                match best {
                    Some(_) => {
                        if k < best_key {
                            best = Some(i);
                            best_key = k;
                        }
                    },
                    None => {
                        best = Some(i);
                        best_key = k;
                    },
                }
            }
            i += 1;
        }
        best
    }

    /// The most urgent ready job of tube `t`.
    pub fn peek_ready(&self, t: usize) -> (r: Option<&Job>)
        ensures
            match first_min(self.jobs@, self.jobs@.len() as int, ready_on(t), by_pri()) {
                Some(b) => r matches Some(j) && *j == self.jobs@[b],
                None => r is None,
            },
    {
        match self.first_on(t, 0) {
            Some(b) => Some(&self.jobs[b]),
            None => None,
        }
    }

    /// The delayed job of tube `t` that becomes ready first.
    pub fn peek_delayed(&self, t: usize) -> (r: Option<&Job>)
        ensures
            match first_min(self.jobs@, self.jobs@.len() as int, delayed_on(t), by_until()) {
                Some(b) => r matches Some(j) && *j == self.jobs@[b],
                None => r is None,
            },
    {
        match self.first_on(t, 1) {
            Some(b) => Some(&self.jobs[b]),
            None => None,
        }
    }

    /// The buried job of tube `t` that was buried first.
    pub fn peek_buried(&self, t: usize) -> (r: Option<&Job>)
        ensures
            match first_min(self.jobs@, self.jobs@.len() as int, buried_on(t), by_buried_seq()) {
                Some(b) => r matches Some(j) && *j == self.jobs@[b],
                None => r is None,
            },
    {
        match self.first_on(t, 2) {
            Some(b) => Some(&self.jobs[b]),
            None => None,
        }
    }

    /// Promotes up to `bound` buried jobs of tube `t`, oldest first, or, when
    /// the tube has no buried job, up to `bound` delayed jobs, the earliest
    /// first. Returns how many were promoted.
    pub fn kick(&mut self, t: usize, bound: u64) -> (r: u64)
        requires
            old(self).wf(),
        ensures
            final(self).wf(),
            final(self).waiters@ == old(self).waiters@,
            final(self).tubes@ == old(self).tubes@,
            kick_effect(old(self).jobs@, final(self).jobs@, t, bound, r),
    {
        let first_buried = self.first_on(t, 2);
        let kind: u8 = if first_buried.is_some() { 2 } else { 1 };
        let ghost main = if kind == 2 { buried_on(t) } else { delayed_on(t) };
        let ghost other = if kind == 2 { delayed_on(t) } else { buried_on(t) };
        proof {
            lemma_first_min(self.jobs@, self.jobs@.len() as int, buried_on(t), by_buried_seq());
            if kind == 1 {
                lemma_count_none(self.jobs@, buried_on(t));
            } else {
                let b = first_buried->0 as int;
                let x = with_meta(self.jobs@[b], JobMeta { state: JobState::Ready, ..self.jobs@[b].meta });
                lemma_count_update(self.jobs@, b, x, buried_on(t));
                assert(count_sel(self.jobs@, buried_on(t)) > 0);
            }
        }
        let mut k: u64 = 0;
        let mut done = false;
        while k < bound && !done
            invariant
                self.wf(),
                self.tubes@ == old(self).tubes@,
                self.jobs@.len() == old(self).jobs@.len(),
                kind == 1 || kind == 2,
                main == (if kind == 2 { buried_on(t) } else { delayed_on(t) }),
                other == (if kind == 2 { delayed_on(t) } else { buried_on(t) }),
                count_sel(self.jobs@, main) + k == count_sel(old(self).jobs@, main),
                count_sel(self.jobs@, other) == count_sel(old(self).jobs@, other),
                done ==> count_sel(self.jobs@, main) == 0,
                k <= bound,
                self.waiters@ == old(self).waiters@,
                main == kick_main(old(self).jobs@, t),
                forall|q: int|
                    0 <= q < old(self).jobs@.len() ==> #[trigger] self.jobs@[q] == old(self).jobs@[q] || (
                    main(old(self).jobs@[q]) && self.jobs@[q] == with_meta(
                        old(self).jobs@[q],
                        kicked_meta(old(self).jobs@[q].meta),
                    )),
            decreases bound - k + (if done { 0int } else { 1int }),
        {
            match self.first_on(t, kind) {
                None => {
                    proof {
                        let key = if kind == 2 { by_buried_seq() } else { by_until() };
                        lemma_first_min(self.jobs@, self.jobs@.len() as int, main, key);
                        lemma_count_none(self.jobs@, main);
                    }
                    done = true;
                },
                Some(i) => {
                    proof {
                        let key = if kind == 2 { by_buried_seq() } else { by_until() };
                        lemma_first_min(self.jobs@, self.jobs@.len() as int, main, key);
                    }
                    let m = self.jobs[i].meta;
                    let next = JobMeta { state: JobState::Ready, kicks: m.kicks.saturating_add(1), ..m };
                    let ghost before = self.jobs@;
                    proof {
                        assert(main(before[i as int]));
                        assert(before[i as int] == old(self).jobs@[i as int]);
                    }
                    self.set_meta(i, next);
                    proof {
                        lemma_count_update(before, i as int, with_meta(before[i as int], next), main);
                        lemma_count_update(before, i as int, with_meta(before[i as int], next), other);
                        assert forall|q: int|
                            0 <= q < old(self).jobs@.len() implies #[trigger] self.jobs@[q] == old(self).jobs@[q] || (
                            main(old(self).jobs@[q]) && self.jobs@[q] == with_meta(
                                old(self).jobs@[q],
                                kicked_meta(old(self).jobs@[q].meta),
                            )) by {
                            if q != i {
                                assert(self.jobs@[q] == before[q]);
                            }
                        }
                    }
                    k += 1;
                }
            }
        }
        k
    }

    /// Promotes the buried or delayed job `id` to ready; `false` when there is
    /// no such job.
    pub fn kick_job(&mut self, id: u64) -> (r: bool)
        requires
            old(self).wf(),
        ensures
            final(self).wf(),
            final(self).waiters@ == old(self).waiters@,
            final(self).tubes@ == old(self).tubes@,
            r == (job_index(old(self).jobs@, id) matches Some(i) && (old(self).jobs@[i].meta.state
                is Buried || old(self).jobs@[i].meta.state is Delayed)),
            r ==> final(self).jobs@ == old(self).jobs@.update(
                job_index(old(self).jobs@, id)->0,
                with_meta(
                    old(self).jobs@[job_index(old(self).jobs@, id)->0],
                    JobMeta {
                        state: JobState::Ready,
                        kicks: old(self).jobs@[job_index(old(self).jobs@, id)->0].meta.kicks.saturating_add(1),
                        ..old(self).jobs@[job_index(old(self).jobs@, id)->0].meta
                    },
                ),
            ),
            !r ==> final(self).jobs@ == old(self).jobs@,
    {
        match self.find_job(id) {
            Some(i) => {
                let m = self.jobs[i].meta;
                match m.state {
                    JobState::Buried | JobState::Delayed { .. } => {
                        self.set_meta(i, JobMeta { state: JobState::Ready, kicks: m.kicks.saturating_add(1), ..m });
                        true
                    },
                    _ => false,
                }
            },
            None => false,
        }
    }

    /// Reserves job `id` for `owner` at once if it exists and is neither
    /// reserved nor buried. Returns the job's position.
    pub fn reserve_job(&mut self, owner: u64, id: u64, now: u64) -> (r: Option<usize>)
        requires
            old(self).wf(),
        ensures
            final(self).wf(),
            final(self).waiters@ == old(self).waiters@,
            final(self).tubes@ == old(self).tubes@,
            r is Some == (job_index(old(self).jobs@, id) matches Some(i) && !(
            old(self).jobs@[i].meta.state is Reserved) && !(old(self).jobs@[i].meta.state is Buried)),
            r matches Some(i) ==> i == job_index(old(self).jobs@, id)->0 && i < old(self).jobs@.len()
                && final(self).jobs@ == old(self).jobs@.update(
                i as int,
                with_meta(old(self).jobs@[i as int], reserved_meta(old(self).jobs@[i as int], owner, now)),
            ),
            r is None ==> final(self).jobs@ == old(self).jobs@,
    {
        match self.find_job(id) {
            Some(i) => {
                let m = self.jobs[i].meta;
                match m.state {
                    JobState::Reserved { .. } | JobState::Buried => None,
                    _ => {
                        let deadline = now.saturating_add(self.jobs[i].ttr as u64);
                        self.set_meta(
                            i,
                            JobMeta {
                                state: JobState::Reserved { owner, deadline },
                                reserves: m.reserves.saturating_add(1),
                                ..m
                            },
                        );
                        Some(i)
                    },
                }
            },
            None => None,
        }
    }

    /// Returns job `id`, held by `owner`, to the ready state, or to the
    /// delayed state when `delay` is not zero, with priority `pri`.
    pub fn release(&mut self, owner: u64, id: u64, pri: u32, delay: u32, now: u64) -> (r: bool)
        requires
            old(self).wf(),
        ensures
            final(self).wf(),
            final(self).waiters@ == old(self).waiters@,
            final(self).tubes@ == old(self).tubes@,
            r == owned_by(old(self).jobs@, id, owner),
            r ==> final(self).jobs@ == old(self).jobs@.update(
                job_index(old(self).jobs@, id)->0,
                with_meta(
                    old(self).jobs@[job_index(old(self).jobs@, id)->0],
                    JobMeta {
                        state: initial_state(delay, now),
                        pri,
                        releases: old(self).jobs@[job_index(old(self).jobs@, id)->0].meta.releases.saturating_add(1),
                        ..old(self).jobs@[job_index(old(self).jobs@, id)->0].meta
                    },
                ),
            ),
            !r ==> final(self).jobs@ == old(self).jobs@,
    {
        match self.find_job(id) {
            Some(i) => {
                let m = self.jobs[i].meta;
                match m.state {
                    JobState::Reserved { owner: o, deadline: _ } => {
                        if o != owner {
                            return false;
                        }
                        let state = if delay == 0 {
                            JobState::Ready
                        } else {
                            JobState::Delayed { until: now.saturating_add(delay as u64) }
                        };
                        self.set_meta(
                            i,
                            JobMeta { state, pri, releases: m.releases.saturating_add(1), ..m },
                        );
                        true
                    },
                    _ => false,
                }
            },
            None => false,
        }
    }

    /// Buries job `id`, held by `owner`, with priority `pri`.
    pub fn bury(&mut self, owner: u64, id: u64, pri: u32) -> (r: bool)
        requires
            old(self).wf(),
        ensures
            final(self).wf(),
            final(self).waiters@ == old(self).waiters@,
            final(self).tubes@ == old(self).tubes@,
            r == owned_by(old(self).jobs@, id, owner),
            r ==> final(self).jobs@ == old(self).jobs@.update(
                job_index(old(self).jobs@, id)->0,
                with_meta(
                    old(self).jobs@[job_index(old(self).jobs@, id)->0],
                    JobMeta {
                        state: JobState::Buried,
                        pri,
                        buries: old(self).jobs@[job_index(old(self).jobs@, id)->0].meta.buries.saturating_add(1),
                        buried_seq: old(self).bury_seq,
                        ..old(self).jobs@[job_index(old(self).jobs@, id)->0].meta
                    },
                ),
            ),
            !r ==> final(self).jobs@ == old(self).jobs@,
    {
        match self.find_job(id) {
            Some(i) => {
                let m = self.jobs[i].meta;
                match m.state {
                    JobState::Reserved { owner: o, deadline: _ } => {
                        if o != owner {
                            return false;
                        }
                        let seq = self.bury_seq;
                        self.set_meta(
                            i,
                            JobMeta {
                                state: JobState::Buried,
                                pri,
                                buries: m.buries.saturating_add(1),
                                buried_seq: seq,
                                ..m
                            },
                        );
                        self.bury_seq = seq.saturating_add(1);
                        true
                    },
                    _ => false,
                }
            },
            None => false,
        }
    }

    /// Deletes job `id` unless another session holds it.
    pub fn delete(&mut self, owner: u64, id: u64) -> (r: bool)
        requires
            old(self).wf(),
        ensures
            final(self).wf(),
            final(self).waiters@ == old(self).waiters@,
            same_tube_names(old(self).tubes@, final(self).tubes@),
            r == deletable(old(self).jobs@, id, owner),
            r ==> final(self).jobs@ == old(self).jobs@.remove(job_index(old(self).jobs@, id)->0),
            !r ==> final(self).jobs@ == old(self).jobs@,
    {
        match self.find_job(id) {
            Some(i) => {
                match self.jobs[i].meta.state {
                    JobState::Reserved { owner: o, deadline: _ } => {
                        if o != owner {
                            return false;
                        }
                    },
                    _ => {},
                }
                let job = self.jobs.remove(i);
                let t = job.tube;
                let mut tube = self.tubes.remove(t);
                tube.cmd_delete = tube.cmd_delete.saturating_add(1);
                self.tubes.insert(t, tube);
                assert(self.tubes@ =~= old(self).tubes@.update(t as int, self.tubes@[t as int]));
                assert forall|a: int, b: int| 0 <= a < b < self.jobs@.len() implies (#[trigger] self.jobs@[a]).id
                    < (#[trigger] self.jobs@[b]).id by {
                    let oa = if a < i { a } else { a + 1 };
                    let ob = if b < i { b } else { b + 1 };
                    assert(self.jobs@[a] == old(self).jobs@[oa]);
                    assert(self.jobs@[b] == old(self).jobs@[ob]);
                }
                assert forall|a: int| 0 <= a < self.jobs@.len() implies (#[trigger] self.jobs@[a]).id < self.next_id
                    && self.jobs@[a].tube < self.tubes@.len() by {
                    let oa = if a < i { a } else { a + 1 };
                    assert(self.jobs@[a] == old(self).jobs@[oa]);
                }
                true
            },
            None => false,
        }
    }

    /// Stops reservations from tube `name` until `now + delay`; `false` when
    /// the tube does not exist.
    pub fn pause_tube(&mut self, name: &[u8], delay: u32, now: u64) -> (r: bool)
        requires
            old(self).wf(),
        ensures
            final(self).wf(),
            final(self).waiters@ == old(self).waiters@,
            final(self).jobs@ == old(self).jobs@,
            same_tube_names(old(self).tubes@, final(self).tubes@),
            r == exists|t: int| 0 <= t < old(self).tubes@.len() && (#[trigger] old(self).tubes@[t]).name@ == name@,
            r ==> exists|t: int| 0 <= t < final(self).tubes@.len() && (#[trigger] final(self).tubes@[t]).name@ == name@
                && final(self).tubes@[t].paused_until == now.saturating_add(delay as u64),
    {
        match self.find_tube(name) {
            Some(t) => {
                let mut tube = self.tubes.remove(t);
                tube.paused_until = now.saturating_add(delay as u64);
                tube.cmd_pause_tube = tube.cmd_pause_tube.saturating_add(1);
                tube.pause = delay as u64;
                self.tubes.insert(t, tube);
                assert(self.tubes@ =~= old(self).tubes@.update(t as int, self.tubes@[t as int]));
                assert(self.tubes@[t as int].name@ == name@);
                true
            },
            None => false,
        }
    }

    /// The job with id `id`, whatever its state.
    pub fn peek(&self, id: u64) -> (r: Option<&Job>)
        ensures
            match job_index(self.jobs@, id) {
                Some(i) => r matches Some(j) && *j == self.jobs@[i],
                None => r is None,
            },
    {
        match self.find_job(id) {
            Some(i) => Some(&self.jobs[i]),
            None => None,
        }
    }
}

/// Facts about `job_index`.
pub proof fn lemma_job_index(jobs: Seq<Job>, id: u64)
    ensures
        job_index(jobs, id) matches Some(i) ==> 0 <= i < jobs.len() && jobs[i].id == id,
        job_index(jobs, id) is None ==> forall|k: int| 0 <= k < jobs.len() ==> #[trigger] jobs[k].id != id,
    decreases jobs.len(),
{
    if jobs.len() > 0 && jobs.last().id != id {
        lemma_job_index(jobs.drop_last(), id);
        assert forall|k: int| 0 <= k < jobs.len() - 1 implies #[trigger] jobs[k].id == jobs.drop_last()[k].id by {}
    }
}

/// A job that `put` created is found by the id it returned, with the body it
/// was given.
pub proof fn law_put_then_peek(
    old: Seq<Job>,
    new: Seq<Job>,
    id: u64,
    tube: usize,
    pri: u32,
    delay: u32,
    ttr: u32,
    data: Seq<u8>,
    now: u64,
)
    requires
        put_effect(old, new, id, tube, pri, delay, ttr, data, now),
    ensures
        job_index(new, id) == Some(old.len() as int),
        new[old.len() as int].data@ == data,
{
}

/// `touch` of a job that the session does not hold fails and changes
/// nothing, however often it is repeated.
pub proof fn law_touch_not_held(jobs: Seq<Job>, id: u64, owner: u64, now: u64, later: u64)
    requires
        !owned_by(jobs, id, owner),
    ensures
        touch_result(jobs, id, owner, now) == (jobs, false),
        touch_result(touch_result(jobs, id, owner, now).0, id, owner, later) == (jobs, false),
{
}

/// A reserved job whose time to run has run out becomes ready again, with
/// one more timeout, and can then be reserved by any session watching its
/// tube.
pub proof fn law_ttr_reclaim(
    j: Job,
    owner: u64,
    deadline: u64,
    now: u64,
    watched: Seq<usize>,
    tubes: Seq<Tube>,
)
    requires
        j.meta.state == (JobState::Reserved { owner, deadline }),
        deadline <= now,
        j.meta.timeouts < u64::MAX,
        watched.contains(j.tube),
        j.tube < tubes.len(),
        tubes[j.tube as int].paused_until <= now,
    ensures
        tick_meta(j.meta, now).state == JobState::Ready,
        tick_meta(j.meta, now).timeouts == j.meta.timeouts + 1,
        reservable(watched, tubes, now)(with_meta(j, tick_meta(j.meta, now))),
{
}

/// `reserve` hands out the selected job of lowest priority value, and the
/// earliest created among equal priorities.
pub proof fn law_reserve_order(jobs: Seq<Job>, watched: Seq<usize>, tubes: Seq<Tube>, now: u64)
    ensures
        first_min(jobs, jobs.len() as int, reservable(watched, tubes, now), by_pri()) matches Some(b)
            ==> forall|k: int|
            0 <= k < jobs.len() && #[trigger] reservable(watched, tubes, now)(jobs[k])
                ==> jobs[b].meta.pri < jobs[k].meta.pri || (jobs[b].meta.pri == jobs[k].meta.pri
                && b <= k),
        first_min(jobs, jobs.len() as int, reservable(watched, tubes, now), by_pri()) is None
            ==> forall|k: int| 0 <= k < jobs.len() ==> !#[trigger] reservable(watched, tubes, now)(jobs[k]),
{
    lemma_first_min(jobs, jobs.len() as int, reservable(watched, tubes, now), by_pri());
}

/// With buried jobs on the tube `kick` promotes only buried ones; once none
/// is left, the next `kick` promotes the delayed ones.
pub proof fn law_kick_buried_first(buried: nat, delayed: nat, bound: nat)
    requires
        buried > 0,
        bound >= buried,
    ensures
        kick_count(buried, delayed, bound) == buried,
        kick_count((buried - kick_count(buried, delayed, bound)) as nat, delayed, bound) == if bound
            < delayed {
            bound
        } else {
            delayed
        },
{
}

} // verus!
