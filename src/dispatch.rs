//! What the server does with each command of a session.
//!
//! The decisions stand here; the connection loop that reads, waits and writes
//! carries out the returned [`Action`].
use vstd::prelude::*;

use crate::framer::BodyRead;
use crate::parser::{parse_model, ParsingError};
use crate::protocol::{BeanstalkCommand, BeanstalkResponse, CommandView};
use crate::store::{
    buried_on, by_buried_seq, lemma_first_min, by_pri, by_until, count_sel, deletable, delayed_on, first_min,
    job_index, kick_count, owned_by, put_effect, ready_on, reservable, ticked, touch_result,
    kick_effect, kicked_meta, initial_state, reserved_meta, same_tube_names, with_meta, Job,
    JobMeta, JobState, Session, Store, Tube, Waiter,
};
use crate::wire::bytes_copy;

verus! {

/// Statistics of one job.
pub struct JobStats {
    pub id: u64,
    pub tube: Vec<u8>,
    pub state: JobState,
    pub pri: u32,
    /// Seconds since creation.
    pub age: u64,
    /// The delay the job was given, in seconds, while it is delayed.
    pub delay: u64,
    pub ttr: u32,
    /// Seconds until the job leaves the reserved or delayed state.
    pub time_left: u64,
    pub reserves: u64,
    pub timeouts: u64,
    pub releases: u64,
    pub buries: u64,
    pub kicks: u64,
}

/// Statistics of one tube.
pub struct TubeStats {
    pub name: Vec<u8>,
    /// Ready jobs with a priority below 1024.
    pub current_jobs_urgent: u64,
    pub current_jobs_ready: u64,
    pub current_jobs_reserved: u64,
    pub current_jobs_delayed: u64,
    pub current_jobs_buried: u64,
    pub total_jobs: u64,
    pub cmd_delete: u64,
    pub cmd_pause_tube: u64,
    /// Seconds until the tube is no longer paused.
    pub pause_time_left: u64,
    /// The delay of the last pause, in seconds.
    pub pause: u64,
    /// Waiting reservations that watch the tube.
    pub current_waiting: u64,
}

/// Statistics of the whole server that the store knows of.
pub struct ServerStats {
    pub current_jobs_urgent: u64,
    pub current_jobs_ready: u64,
    pub current_jobs_reserved: u64,
    pub current_jobs_delayed: u64,
    pub current_jobs_buried: u64,
    /// Jobs created in all tubes.
    pub total_jobs: u64,
    pub current_tubes: u64,
    pub max_job_size: u32,
    /// Sessions waiting for a reservation.
    pub current_waiting: u64,
    pub commands: crate::store::CommandCounts,
}

/// What the connection has to do next.
pub enum Action {
    /// Send this response.
    Respond(BeanstalkResponse),
    /// Read a job body of `n_bytes` bytes, then call [`finish_put`].
    ReadBody { pri: u32, delay: u32, ttr: u32, n_bytes: u32 },
    /// No job can be reserved yet: the reservation waits in the store until
    /// `deadline`, if any, and [`serve_waiters`] answers it.
    Wait { deadline: Option<u64> },
    /// Send the statistics of a job as YAML.
    SendJobStats(JobStats),
    /// Send the statistics of a tube as YAML.
    SendTubeStats(TubeStats),
    /// Send the statistics of the server as YAML.
    SendServerStats(ServerStats),
    /// Send these tube names as a YAML list.
    SendTubeList(Vec<Vec<u8>>),
    /// Close the connection.
    Close,
}

/// Ready jobs with a priority below 1024.
pub open spec fn urgent_on(t: usize) -> spec_fn(crate::store::Job) -> bool {
    |j: crate::store::Job| j.tube == t && j.meta.state == JobState::Ready && j.meta.pri < 1024
}

pub open spec fn reserved_on(t: usize) -> spec_fn(crate::store::Job) -> bool {
    |j: crate::store::Job| j.tube == t && j.meta.state is Reserved
}

/// Jobs in a given state, whatever their tube: 0 ready, 1 delayed,
/// 2 buried, 3 reserved, 4 urgent.
pub open spec fn in_state(kind: u8) -> spec_fn(crate::store::Job) -> bool {
    |j: crate::store::Job|
        if kind == 0 {
            j.meta.state == JobState::Ready
        } else if kind == 1 {
            j.meta.state is Delayed
        } else if kind == 2 {
            j.meta.state == JobState::Buried
        } else if kind == 3 {
            j.meta.state is Reserved
        } else {
            j.meta.state == JobState::Ready && j.meta.pri < 1024
        }
}

/// `b - a`, or zero when `a` is later.
pub open spec fn span(a: u64, b: u64) -> u64 {
    if a < b {
        (b - a) as u64
    } else {
        0
    }
}

/// `s` holds the statistics of job `j` at `now`.
pub open spec fn job_stats_of(s: JobStats, j: Job, tubes: Seq<Tube>, now: u64) -> bool {
    &&& s.id == j.id
    &&& s.tube@ == tubes[j.tube as int].name@
    &&& s.state == j.meta.state
    &&& s.pri == j.meta.pri
    &&& s.age == span(j.created, now)
    &&& s.delay == match j.meta.state {
        JobState::Delayed { until } => span(j.created, until),
        _ => 0,
    }
    &&& s.ttr == j.ttr
    &&& s.time_left == match j.meta.state {
        JobState::Delayed { until } => span(now, until),
        JobState::Reserved { deadline, .. } => span(now, deadline),
        _ => 0,
    }
    &&& s.reserves == j.meta.reserves
    &&& s.timeouts == j.meta.timeouts
    &&& s.releases == j.meta.releases
    &&& s.buries == j.meta.buries
    &&& s.kicks == j.meta.kicks
}

/// `s` holds the statistics of tube `t` among `jobs` at `now`.
pub open spec fn tube_stats_of(
    s: TubeStats,
    jobs: Seq<Job>,
    tubes: Seq<Tube>,
    waiters: Seq<Waiter>,
    t: usize,
    now: u64,
) -> bool {
    &&& s.pause == tubes[t as int].pause
    &&& s.current_waiting == waiting_on(waiters, t)
    &&& s.name@ == tubes[t as int].name@
    &&& s.current_jobs_ready == count_sel(jobs, ready_on(t))
    &&& s.current_jobs_delayed == count_sel(jobs, delayed_on(t))
    &&& s.current_jobs_buried == count_sel(jobs, buried_on(t))
    &&& s.current_jobs_reserved == count_sel(jobs, reserved_on(t))
    &&& s.current_jobs_urgent == count_sel(jobs, urgent_on(t))
    &&& s.total_jobs == tubes[t as int].total_jobs
    &&& s.cmd_delete == tubes[t as int].cmd_delete
    &&& s.cmd_pause_tube == tubes[t as int].cmd_pause_tube
    &&& s.pause_time_left == span(now, tubes[t as int].paused_until)
}

/// The number of waiting reservations that watch tube `t`.
pub open spec fn waiting_on(ws: Seq<Waiter>, t: usize) -> nat
    decreases ws.len(),
{
    if ws.len() == 0 {
        0
    } else {
        waiting_on(ws.drop_last(), t) + if ws.last().session.watched@.contains(t) {
            1nat
        } else {
            0nat
        }
    }
}

/// The number of waiting reservations that watch tube `t`.
fn count_waiting(store: &Store, t: usize) -> (r: u64)
    ensures
        r == waiting_on(store.waiters@, t),
{
    let mut n: u64 = 0;
    let mut i: usize = 0;
    while i < store.waiters.len()
        invariant
            0 <= i <= store.waiters@.len(),
            n == waiting_on(store.waiters@.take(i as int), t),
            n <= i,
        decreases store.waiters@.len() - i,
    {
        assert(store.waiters@.take(i as int + 1).drop_last() =~= store.waiters@.take(i as int));
        if store.waiters[i].session.position_of(t).is_some() {
            n += 1;
        }
        i += 1;
    }
    assert(store.waiters@.take(i as int) =~= store.waiters@);
    n
}

/// The jobs created in all tubes, saturating.
pub open spec fn total_jobs_of(tubes: Seq<Tube>) -> u64
    decreases tubes.len(),
{
    if tubes.len() == 0 {
        0
    } else {
        total_jobs_of(tubes.drop_last()).saturating_add(tubes.last().total_jobs)
    }
}

/// `s` holds the statistics of the server.
pub open spec fn server_stats_of(s: ServerStats, store: Store, jobs: Seq<Job>, max_job_size: u32) -> bool {
    &&& s.current_jobs_ready == count_sel(jobs, in_state(0))
    &&& s.current_jobs_delayed == count_sel(jobs, in_state(1))
    &&& s.current_jobs_buried == count_sel(jobs, in_state(2))
    &&& s.current_jobs_reserved == count_sel(jobs, in_state(3))
    &&& s.current_jobs_urgent == count_sel(jobs, in_state(4))
    &&& s.total_jobs == total_jobs_of(store.tubes@)
    &&& s.current_tubes == store.tubes@.len()
    &&& s.max_job_size == max_job_size
    &&& s.current_waiting == store.waiters@.len()
    &&& s.commands == store.commands
}

/// The number of jobs in state `kind` over all tubes.
fn count_all(store: &Store, kind: u8) -> (r: u64)
    requires
        store.jobs@.len() <= u64::MAX,
    ensures
        r == count_sel(store.jobs@, in_state(kind)),
{
    let mut n: u64 = 0;
    let mut i: usize = 0;
    while i < store.jobs.len()
        invariant
            0 <= i <= store.jobs@.len(),
            store.jobs@.len() <= u64::MAX,
            n == count_sel(store.jobs@.take(i as int), in_state(kind)),
            n <= i,
        decreases store.jobs@.len() - i,
    {
        let m = store.jobs[i].meta;
        let picked = match m.state {
            JobState::Ready => kind == 0 || (kind > 3 && m.pri < 1024),
            JobState::Delayed { .. } => kind == 1,
            JobState::Buried => kind == 2,
            JobState::Reserved { .. } => kind == 3,
        };
        assert(picked == in_state(kind)(store.jobs@[i as int]));
        assert(store.jobs@.take(i as int + 1).drop_last() =~= store.jobs@.take(i as int));
        if picked {
            n += 1;
        }
        i += 1;
    }
    assert(store.jobs@.take(i as int) =~= store.jobs@);
    n
}

/// The statistics of the server.
pub fn server_stats(store: &Store, max_job_size: u32) -> (r: ServerStats)
    requires
        store.jobs@.len() <= u64::MAX,
        store.tubes@.len() <= u64::MAX,
    ensures
        server_stats_of(r, *store, store.jobs@, max_job_size),
{
    let mut total: u64 = 0;
    let mut t: usize = 0;
    while t < store.tubes.len()
        invariant
            0 <= t <= store.tubes@.len(),
            total == total_jobs_of(store.tubes@.take(t as int)),
        decreases store.tubes@.len() - t,
    {
        assert(store.tubes@.take(t as int + 1).drop_last() =~= store.tubes@.take(t as int));
        total = total.saturating_add(store.tubes[t].total_jobs);
        t += 1;
    }
    assert(store.tubes@.take(t as int) =~= store.tubes@);
    ServerStats {
        current_jobs_urgent: count_all(store, 4),
        current_jobs_ready: count_all(store, 0),
        current_jobs_reserved: count_all(store, 3),
        current_jobs_delayed: count_all(store, 1),
        current_jobs_buried: count_all(store, 2),
        total_jobs: total,
        current_tubes: store.tubes.len() as u64,
        max_job_size,
        current_waiting: store.waiters.len() as u64,
        commands: store.commands,
    }
}

/// The number of jobs of tube `t` in state `kind`: 0 ready, 1 delayed,
/// 2 buried, 3 reserved, 4 ready with a priority below 1024.
fn count_jobs(store: &Store, t: usize, kind: u8) -> (r: u64)
    requires
        kind < 5,
        store.jobs@.len() <= u64::MAX,
    ensures
        r == count_sel(
            store.jobs@,
            if kind == 0 {
                ready_on(t)
            } else if kind == 1 {
                delayed_on(t)
            } else if kind == 2 {
                buried_on(t)
            } else if kind == 3 {
                reserved_on(t)
            } else {
                urgent_on(t)
            },
        ),
{
    let ghost sel = if kind == 0 {
        ready_on(t)
    } else if kind == 1 {
        delayed_on(t)
    } else if kind == 2 {
        buried_on(t)
    } else if kind == 3 {
        reserved_on(t)
    } else {
        urgent_on(t)
    };
    let mut n: u64 = 0;
    let mut i: usize = 0;
    while i < store.jobs.len()
        invariant
            0 <= i <= store.jobs@.len(),
            store.jobs@.len() <= u64::MAX,
            kind < 5,
            sel == (if kind == 0 {
                ready_on(t)
            } else if kind == 1 {
                delayed_on(t)
            } else if kind == 2 {
                buried_on(t)
            } else if kind == 3 {
                reserved_on(t)
            } else {
                urgent_on(t)
            }),
            n == count_sel(store.jobs@.take(i as int), sel),
            n <= i,
        decreases store.jobs@.len() - i,
    {
        let j = &store.jobs[i];
        let picked = j.tube == t && match j.meta.state {
            JobState::Ready => kind == 0 || (kind == 4 && j.meta.pri < 1024),
            JobState::Delayed { .. } => kind == 1,
            JobState::Buried => kind == 2,
            JobState::Reserved { .. } => kind == 3,
        };
        assert(picked == sel(store.jobs@[i as int]));
        assert(store.jobs@.take(i as int + 1).drop_last() =~= store.jobs@.take(i as int));
        if picked {
            n += 1;
        }
        i += 1;
    }
    assert(store.jobs@.take(i as int) =~= store.jobs@);
    n
}

/// `b - a`, or zero when `a` is later.
fn remaining(a: u64, b: u64) -> (r: u64)
    ensures
        r == span(a, b),
{
    if a < b {
        b - a
    } else {
        0
    }
}

/// The statistics of tube `t` at `now`.
pub fn tube_stats(store: &Store, t: usize, now: u64) -> (r: TubeStats)
    requires
        store.wf(),
        t < store.tubes@.len(),
        store.jobs@.len() <= u64::MAX,
    ensures
        tube_stats_of(r, store.jobs@, store.tubes@, store.waiters@, t, now),
{
    let tube = &store.tubes[t];
    TubeStats {
        name: bytes_copy(&tube.name),
        current_jobs_urgent: count_jobs(store, t, 4),
        current_jobs_ready: count_jobs(store, t, 0),
        current_jobs_reserved: count_jobs(store, t, 3),
        current_jobs_delayed: count_jobs(store, t, 1),
        current_jobs_buried: count_jobs(store, t, 2),
        total_jobs: tube.total_jobs,
        cmd_delete: tube.cmd_delete,
        cmd_pause_tube: tube.cmd_pause_tube,
        pause_time_left: remaining(now, tube.paused_until),
        pause: tube.pause,
        current_waiting: count_waiting(store, t),
    }
}

/// The statistics of the job at index `i` at `now`.
pub fn job_stats(store: &Store, i: usize, now: u64) -> (r: JobStats)
    requires
        store.wf(),
        i < store.jobs@.len(),
    ensures
        job_stats_of(r, store.jobs@[i as int], store.tubes@, now),
{
    let j = &store.jobs[i];
    let m = j.meta;
    let (delay, time_left) = match m.state {
        JobState::Delayed { until } => (remaining(j.created, until), remaining(now, until)),
        JobState::Reserved { owner: _, deadline } => (0, remaining(now, deadline)),
        _ => (0, 0),
    };
    JobStats {
        id: j.id,
        tube: bytes_copy(&store.tubes[j.tube].name),
        state: m.state,
        pri: m.pri,
        age: remaining(j.created, now),
        delay,
        ttr: j.ttr,
        time_left,
        reserves: m.reserves,
        timeouts: m.timeouts,
        releases: m.releases,
        buries: m.buries,
        kicks: m.kicks,
    }
}

/// The response to a `peek`-family lookup.
fn peeked(r: Option<&crate::store::Job>) -> (resp: BeanstalkResponse)
    ensures
        match r {
            Some(j) => resp matches BeanstalkResponse::Found { id, data } && id == j.id && data@
                == j.data@,
            None => resp is NotFound,
        },
{
    match r {
        Some(j) => BeanstalkResponse::Found { id: j.id, data: bytes_copy(&j.data) },
        None => BeanstalkResponse::NotFound,
    }
}

/// No job can be reserved by `session` at `now`.
pub open spec fn no_reservable(store: &Store, session: &Session, now: u64) -> bool {
    first_min(
        ticked(store.jobs@, now),
        store.jobs@.len() as int,
        reservable(session.watched@, store.tubes@, now),
        by_pri(),
    ) is None
}

/// The response to a `peek`-family lookup among the jobs `sel` picks.
pub open spec fn peek_answer(
    jobs: Seq<crate::store::Job>,
    sel: spec_fn(crate::store::Job) -> bool,
    key: spec_fn(crate::store::Job) -> int,
    resp: BeanstalkResponse,
) -> bool {
    match first_min(jobs, jobs.len() as int, sel, key) {
        Some(b) => resp matches BeanstalkResponse::Found { id, data } && id == jobs[b].id && data@
            == jobs[b].data@,
        None => resp is NotFound,
    }
}

/// The job `j` is held by `owner` and its time to run ends within the next
/// second.
pub open spec fn soon_at(j: crate::store::Job, owner: u64, now: u64) -> bool {
    j.meta.state matches JobState::Reserved { owner: o, deadline } && o == owner && now < deadline
        && deadline <= now + 1
}

/// `owner` holds a job whose time to run ends within the next second.
pub open spec fn deadline_soon(jobs: Seq<crate::store::Job>, owner: u64, now: u64) -> bool {
    exists|i: int| 0 <= i < jobs.len() && #[trigger] soon_at(jobs[i], owner, now)
}

/// Whether `owner` holds a job whose time to run ends within the next
/// second.
fn holds_deadline_soon(store: &Store, owner: u64, now: u64) -> (r: bool)
    ensures
        r == deadline_soon(store.jobs@, owner, now),
{
    let mut i: usize = 0;
    while i < store.jobs.len()
        invariant
            0 <= i <= store.jobs@.len(),
            forall|k: int| 0 <= k < i ==> !#[trigger] soon_at(store.jobs@[k], owner, now),
        decreases store.jobs@.len() - i,
    {
        match store.jobs[i].meta.state {
            JobState::Reserved { owner: o, deadline } => {
                if o == owner && now < deadline && deadline - now <= 1 {
                    assert(soon_at(store.jobs@[i as int], owner, now));
                    return true;
                }
            },
            _ => {},
        }
        i += 1;
    }
    false
}

/// Tries to reserve a job for `session`; the response, or `None` when no job
/// is available.
fn try_reserve(store: &mut Store, session: &Session, now: u64) -> (r: Option<BeanstalkResponse>)
    requires
        old(store).wf(),
    ensures
        final(store).wf(),
        final(store).tubes@ == old(store).tubes@,
        final(store).waiters@ == old(store).waiters@,
        r is None <==> no_reservable(old(store), session, now),
        reserve_answer(ticked(old(store).jobs@, now), final(store).jobs@, old(store).tubes@, session, now, r),
{
    store.tick(now);
    proof {
        assert(store.jobs@.len() == old(store).jobs@.len());
    }
    proof {
        lemma_first_min(
            store.jobs@,
            store.jobs@.len() as int,
            reservable(session.watched@, store.tubes@, now),
            by_pri(),
        );
    }
    match store.reserve(session, now) {
        Some(i) => {
            let id = store.jobs[i].id;
            let data = bytes_copy(&store.jobs[i].data);
            Some(BeanstalkResponse::Reserved { id, data })
        },
        None => None,
    }
}

/// What a reservation attempt of `session` at `now` makes of the ticked jobs
/// `tj`: the job `reserve` picks is handed out and held by the session, or
/// nothing changes.
pub open spec fn reserve_answer(
    tj: Seq<Job>,
    jobs: Seq<Job>,
    tubes: Seq<Tube>,
    session: &Session,
    now: u64,
    r: Option<BeanstalkResponse>,
) -> bool {
    match first_min(tj, tj.len() as int, reservable(session.watched@, tubes, now), by_pri()) {
        Some(b) => match r {
            Some(BeanstalkResponse::Reserved { id, data }) => id == tj[b].id && data@ == tj[b].data@
                && jobs == tj.update(b, with_meta(tj[b], reserved_meta(tj[b], session.id, now))),
            _ => false,
        },
        None => r is None && jobs == tj,
    }
}

/// The session's settings are as they were.
pub open spec fn same_session(a: Session, b: Session) -> bool {
    a.id == b.id && a.used == b.used && a.watched@ == b.watched@
}

/// Of the store only the jobs changed, to `jobs`.
pub open spec fn jobs_become(os: Store, ns: Store, jobs: Seq<Job>) -> bool {
    ns.jobs@ == jobs && ns.tubes@ == os.tubes@ && ns.waiters@ == os.waiters@
}

/// The tubes that existed are kept, and at most one was added.
pub open spec fn tubes_grow(os: Store, ns: Store) -> bool {
    &&& os.tubes@.len() <= ns.tubes@.len() <= os.tubes@.len() + 1
    &&& forall|t: int| 0 <= t < os.tubes@.len() ==> #[trigger] ns.tubes@[t] == os.tubes@[t]
}

/// No more tubes can be made, and none is named `name`.
pub open spec fn tubes_full(os: Store, name: Seq<u8>) -> bool {
    &&& os.tubes@.len() + 1 >= usize::MAX
    &&& forall|t: int| 0 <= t < os.tubes@.len() ==> (#[trigger] os.tubes@[t]).name@ != name
}

/// The outcome of a `reserve` or `reserve-with-timeout` that found no held
/// job about to expire: with `wait` `Some(d)` a reservation that finds no
/// job waits until `d`, with `None` it times out at once.
pub open spec fn reserve_outcome(
    os: Store,
    ns: Store,
    oss: Session,
    now: u64,
    r: Action,
    wait: Option<Option<u64>>,
) -> bool {
    let tj = ticked(os.jobs@, now);
    &&& ns.tubes@ == os.tubes@
    &&& match first_min(tj, tj.len() as int, reservable(oss.watched@, os.tubes@, now), by_pri()) {
        Some(b) => {
            &&& ns.waiters@ == os.waiters@
            &&& ns.jobs@ == tj.update(b, with_meta(tj[b], reserved_meta(tj[b], oss.id, now)))
            &&& match r {
                Action::Respond(BeanstalkResponse::Reserved { id, data }) => id == tj[b].id && data@
                    == tj[b].data@,
                _ => false,
            }
        },
        None => {
            &&& ns.jobs@ == tj
            &&& match wait {
                Some(d) => {
                    &&& r == Action::Wait { deadline: d }
                    &&& ns.waiters@.len() == os.waiters@.len() + 1
                    &&& ns.waiters@.take(os.waiters@.len() as int) == os.waiters@
                    &&& ns.waiters@.last().session.id == oss.id
                    &&& ns.waiters@.last().session.watched@ == oss.watched@
                    &&& ns.waiters@.last().deadline == d
                },
                None => ns.waiters@ == os.waiters@ && r matches Action::Respond(BeanstalkResponse::TimedOut),
            }
        },
    }
}

/// What `dispatch` of `cmd` by the session `oss` at `now` does: `os` and
/// `ns` are the store before and after, `nss` the session after, `r` the
/// action returned.
pub open spec fn dispatch_post(
    os: Store,
    ns: Store,
    oss: Session,
    nss: Session,
    cmd: CommandView,
    now: u64,
    max_job_size: u32,
    r: Action,
) -> bool {
    let tj = ticked(os.jobs@, now);
    match cmd {
        CommandView::Put { pri, delay, ttr, n_bytes } => {
            &&& same_session(oss, nss)
            &&& jobs_become(os, ns, os.jobs@)
            &&& if n_bytes > max_job_size {
                r matches Action::Respond(BeanstalkResponse::JobTooBig)
            } else {
                r == Action::ReadBody { pri, delay, ttr, n_bytes }
            }
        },
        CommandView::Reserve => {
            &&& same_session(oss, nss)
            &&& if deadline_soon(os.jobs@, oss.id, now) {
                r matches Action::Respond(BeanstalkResponse::DeadlineSoon) && jobs_become(
                    os,
                    ns,
                    os.jobs@,
                )
            } else {
                reserve_outcome(os, ns, oss, now, r, Some(None))
            }
        },
        CommandView::ReserveWithTimeout { timeout } => {
            &&& same_session(oss, nss)
            &&& if deadline_soon(os.jobs@, oss.id, now) {
                r matches Action::Respond(BeanstalkResponse::DeadlineSoon) && jobs_become(
                    os,
                    ns,
                    os.jobs@,
                )
            } else if timeout == 0 {
                reserve_outcome(os, ns, oss, now, r, None)
            } else {
                reserve_outcome(os, ns, oss, now, r, Some(Some(now.saturating_add(timeout as u64))))
            }
        },
        CommandView::ReserveJob { id } => {
            &&& same_session(oss, nss)
            &&& if job_index(tj, id) matches Some(i) && !(tj[i].meta.state is Reserved) && !(
            tj[i].meta.state is Buried) {
                let i = job_index(tj, id)->0;
                &&& jobs_become(
                    os,
                    ns,
                    tj.update(i, with_meta(tj[i], reserved_meta(tj[i], oss.id, now))),
                )
                &&& match r {
                    Action::Respond(BeanstalkResponse::Reserved { id: rid, data }) => rid == id
                        && data@ == tj[i].data@,
                    _ => false,
                }
            } else {
                r matches Action::Respond(BeanstalkResponse::NotFound) && jobs_become(os, ns, tj)
            }
        },
        CommandView::Release { id, pri, delay } => {
            &&& same_session(oss, nss)
            &&& if owned_by(os.jobs@, id, oss.id) {
                let i = job_index(os.jobs@, id)->0;
                &&& r matches Action::Respond(BeanstalkResponse::Released)
                &&& jobs_become(
                    os,
                    ns,
                    os.jobs@.update(
                        i,
                        with_meta(
                            os.jobs@[i],
                            JobMeta {
                                state: initial_state(delay, now),
                                pri,
                                releases: os.jobs@[i].meta.releases.saturating_add(1),
                                ..os.jobs@[i].meta
                            },
                        ),
                    ),
                )
            } else {
                r matches Action::Respond(BeanstalkResponse::NotFound) && jobs_become(
                    os,
                    ns,
                    os.jobs@,
                )
            }
        },
        CommandView::Bury { id, pri } => {
            &&& same_session(oss, nss)
            &&& if owned_by(os.jobs@, id, oss.id) {
                let i = job_index(os.jobs@, id)->0;
                &&& r matches Action::Respond(BeanstalkResponse::Buried)
                &&& jobs_become(
                    os,
                    ns,
                    os.jobs@.update(
                        i,
                        with_meta(
                            os.jobs@[i],
                            JobMeta {
                                state: JobState::Buried,
                                pri,
                                buries: os.jobs@[i].meta.buries.saturating_add(1),
                                buried_seq: os.bury_seq,
                                ..os.jobs@[i].meta
                            },
                        ),
                    ),
                )
            } else {
                r matches Action::Respond(BeanstalkResponse::NotFound) && jobs_become(
                    os,
                    ns,
                    os.jobs@,
                )
            }
        },
        CommandView::Delete { id } => {
            &&& same_session(oss, nss)
            &&& same_tube_names(os.tubes@, ns.tubes@)
            &&& ns.waiters@ == os.waiters@
            &&& if deletable(os.jobs@, id, oss.id) {
                r matches Action::Respond(BeanstalkResponse::Deleted) && ns.jobs@ == os.jobs@.remove(
                    job_index(os.jobs@, id)->0,
                )
            } else {
                r matches Action::Respond(BeanstalkResponse::NotFound) && ns.jobs@ == os.jobs@
            }
        },
        CommandView::Touch { id } => {
            &&& same_session(oss, nss)
            &&& ns.tubes@ == os.tubes@
            &&& ns.waiters@ == os.waiters@
            &&& match r {
                Action::Respond(resp) => (resp is Touched || resp is NotFound) && (ns.jobs@,
                resp is Touched) == touch_result(os.jobs@, id, oss.id, now),
                _ => false,
            }
        },
        CommandView::Watch { tube } => {
            &&& nss.id == oss.id
            &&& nss.used == oss.used
            &&& ns.jobs@ == os.jobs@
            &&& ns.waiters@ == os.waiters@
            &&& tubes_grow(os, ns)
            &&& match r {
                Action::Respond(BeanstalkResponse::Watching { count }) => exists|t: int|
                    0 <= t < ns.tubes@.len() && (#[trigger] ns.tubes@[t]).name@ == tube
                        && nss.watched@ == (if oss.watched@.contains(t as usize) {
                        oss.watched@
                    } else {
                        oss.watched@.push(t as usize)
                    }) && count == nss.watched@.len(),
                Action::Respond(BeanstalkResponse::OutOfMemory) => nss.watched@ == oss.watched@
                    && ns.tubes@ == os.tubes@ && tubes_full(os, tube),
                _ => false,
            }
        },
        CommandView::Ignore { tube } => {
            &&& nss.id == oss.id
            &&& nss.used == oss.used
            &&& jobs_become(os, ns, os.jobs@)
            &&& match r {
                Action::Respond(BeanstalkResponse::NotIgnored) => oss.watched@.len() == 1
                    && os.tubes@[oss.watched@[0] as int].name@ == tube && nss.watched@
                    == oss.watched@,
                Action::Respond(BeanstalkResponse::Watching { count }) => !(oss.watched@.len()
                    == 1 && os.tubes@[oss.watched@[0] as int].name@ == tube) && count
                    == nss.watched@.len() && forall|t: usize| #[trigger]
                    nss.watched@.contains(t) <==> oss.watched@.contains(t) && os.tubes@[t as int].name@
                        != tube,
                _ => false,
            }
        },
        CommandView::Use { tube } => {
            &&& nss.id == oss.id
            &&& nss.watched@ == oss.watched@
            &&& ns.jobs@ == os.jobs@
            &&& ns.waiters@ == os.waiters@
            &&& tubes_grow(os, ns)
            &&& match r {
                Action::Respond(BeanstalkResponse::Using { tube: u }) => u@ == tube
                    && ns.tubes@[nss.used as int].name@ == tube,
                Action::Respond(BeanstalkResponse::OutOfMemory) => nss.used == oss.used
                    && ns.tubes@ == os.tubes@ && tubes_full(os, tube),
                _ => false,
            }
        },
        CommandView::Peek { id } => {
            &&& same_session(oss, nss)
            &&& jobs_become(os, ns, os.jobs@)
            &&& match r {
                Action::Respond(resp) => match job_index(os.jobs@, id) {
                    Some(i) => resp matches BeanstalkResponse::Found { id: fid, data } && fid == id
                        && data@ == os.jobs@[i].data@,
                    None => resp is NotFound,
                },
                _ => false,
            }
        },
        CommandView::PeekReady => {
            &&& same_session(oss, nss)
            &&& jobs_become(os, ns, tj)
            &&& match r {
                Action::Respond(resp) => peek_answer(tj, ready_on(oss.used), by_pri(), resp),
                _ => false,
            }
        },
        CommandView::PeekDelayed => {
            &&& same_session(oss, nss)
            &&& jobs_become(os, ns, tj)
            &&& match r {
                Action::Respond(resp) => peek_answer(tj, delayed_on(oss.used), by_until(), resp),
                _ => false,
            }
        },
        CommandView::PeekBuried => {
            &&& same_session(oss, nss)
            &&& jobs_become(os, ns, os.jobs@)
            &&& match r {
                Action::Respond(resp) => peek_answer(
                    os.jobs@,
                    buried_on(oss.used),
                    by_buried_seq(),
                    resp,
                ),
                _ => false,
            }
        },
        CommandView::Kick { bound } => {
            &&& same_session(oss, nss)
            &&& ns.tubes@ == os.tubes@
            &&& ns.waiters@ == os.waiters@
            &&& match r {
                Action::Respond(BeanstalkResponse::KickedCount { count }) => kick_effect(
                    tj,
                    ns.jobs@,
                    oss.used,
                    bound,
                    count,
                ),
                _ => false,
            }
        },
        CommandView::KickJob { id } => {
            &&& same_session(oss, nss)
            &&& if job_index(tj, id) matches Some(i) && (tj[i].meta.state is Buried
                || tj[i].meta.state is Delayed) {
                let i = job_index(tj, id)->0;
                r matches Action::Respond(BeanstalkResponse::Kicked) && jobs_become(
                    os,
                    ns,
                    tj.update(i, with_meta(tj[i], kicked_meta(tj[i].meta))),
                )
            } else {
                r matches Action::Respond(BeanstalkResponse::NotFound) && jobs_become(os, ns, tj)
            }
        },
        CommandView::StatsJob { id } => {
            &&& same_session(oss, nss)
            &&& jobs_become(os, ns, tj)
            &&& match job_index(tj, id) {
                Some(i) => match r {
                    Action::SendJobStats(st) => job_stats_of(st, tj[i], os.tubes@, now),
                    _ => false,
                },
                None => r matches Action::Respond(BeanstalkResponse::NotFound),
            }
        },
        CommandView::StatsTube { tube } => {
            &&& same_session(oss, nss)
            &&& jobs_become(os, ns, tj)
            &&& match r {
                Action::SendTubeStats(st) => exists|t: int|
                    0 <= t < os.tubes@.len() && (#[trigger] os.tubes@[t]).name@ == tube
                        && tube_stats_of(st, tj, os.tubes@, os.waiters@, t as usize, now),
                Action::Respond(BeanstalkResponse::NotFound) => forall|t: int|
                    0 <= t < os.tubes@.len() ==> (#[trigger] os.tubes@[t]).name@ != tube,
                _ => false,
            }
        },
        CommandView::StatsServer => {
            &&& same_session(oss, nss)
            &&& jobs_become(os, ns, tj)
            &&& match r {
                Action::SendServerStats(st) => server_stats_of(st, os, tj, max_job_size),
                _ => false,
            }
        },
        CommandView::ListTubes => {
            &&& same_session(oss, nss)
            &&& jobs_become(os, ns, os.jobs@)
            &&& match r {
                Action::SendTubeList(names) => names@.len() == os.tubes@.len() && forall|k: int|
                    0 <= k < names@.len() ==> (#[trigger] names@[k])@ == os.tubes@[k].name@,
                _ => false,
            }
        },
        CommandView::ListTubeUsed => {
            &&& same_session(oss, nss)
            &&& jobs_become(os, ns, os.jobs@)
            &&& match r {
                Action::Respond(BeanstalkResponse::Using { tube }) => tube@ == os.tubes@[oss.used as int].name@,
                _ => false,
            }
        },
        CommandView::ListTubesWatched => {
            &&& same_session(oss, nss)
            &&& jobs_become(os, ns, os.jobs@)
            &&& match r {
                Action::SendTubeList(names) => names@.len() == oss.watched@.len() && forall|k: int|
                    0 <= k < names@.len() ==> (#[trigger] names@[k])@ == os.tubes@[oss.watched@[k] as int].name@,
                _ => false,
            }
        },
        CommandView::Quit => same_session(oss, nss) && jobs_become(os, ns, os.jobs@) && r is Close,
        CommandView::PauseTube { tube, delay } => {
            &&& same_session(oss, nss)
            &&& ns.jobs@ == os.jobs@
            &&& ns.waiters@ == os.waiters@
            &&& same_tube_names(os.tubes@, ns.tubes@)
            &&& match r {
                Action::Respond(BeanstalkResponse::Paused) => exists|t: int|
                    0 <= t < ns.tubes@.len() && (#[trigger] ns.tubes@[t]).name@ == tube
                        && ns.tubes@[t].paused_until == now.saturating_add(delay as u64),
                Action::Respond(BeanstalkResponse::NotFound) => forall|t: int|
                    0 <= t < os.tubes@.len() ==> (#[trigger] os.tubes@[t]).name@ != tube,
                _ => false,
            }
        },
    }
}

/// Carries out one command of `session` at `now`.
pub fn dispatch(
    store: &mut Store,
    session: &mut Session,
    cmd: BeanstalkCommand,
    now: u64,
    max_job_size: u32,
) -> (r: Action)
    requires
        old(store).wf(),
        old(session).wf(old(store).tubes@.len()),
    ensures
        final(store).wf(),
        final(session).wf(final(store).tubes@.len()),
        dispatch_post(*old(store), *final(store), *old(session), *final(session), cmd@, now, max_job_size, r),
{
    match cmd {
        BeanstalkCommand::Put { pri, delay, ttr, n_bytes } => {
            if n_bytes > max_job_size {
                Action::Respond(BeanstalkResponse::JobTooBig)
            } else {
                Action::ReadBody { pri, delay, ttr, n_bytes }
            }
        },
        BeanstalkCommand::Reserve => {
            if holds_deadline_soon(store, session.id, now) {
                return Action::Respond(BeanstalkResponse::DeadlineSoon);
            }
            match try_reserve(store, session, now) {
                Some(resp) => Action::Respond(resp),
                None => {
                    store.waiters.push(Waiter { session: session.snapshot(), deadline: None });
                    assert(store.waiters@.take(old(store).waiters@.len() as int) =~= old(store).waiters@);
                    Action::Wait { deadline: None }
                },
            }
        },
        BeanstalkCommand::ReserveWithTimeout { timeout } => {
            if holds_deadline_soon(store, session.id, now) {
                return Action::Respond(BeanstalkResponse::DeadlineSoon);
            }
            match try_reserve(store, session, now) {
                Some(resp) => Action::Respond(resp),
                None => {
                    if timeout == 0 {
                        Action::Respond(BeanstalkResponse::TimedOut)
                    } else {
                        let deadline = Some(now.saturating_add(timeout as u64));
                        store.waiters.push(Waiter { session: session.snapshot(), deadline });
                        assert(store.waiters@.take(old(store).waiters@.len() as int) =~= old(
                            store,
                        ).waiters@);
                        Action::Wait { deadline }
                    }
                },
            }
        },
        BeanstalkCommand::ReserveJob { id } => {
            store.tick(now);
            match store.reserve_job(session.id, id, now) {
                Some(i) => Action::Respond(
                    BeanstalkResponse::Reserved { id, data: bytes_copy(&store.jobs[i].data) },
                ),
                None => Action::Respond(BeanstalkResponse::NotFound),
            }
        },
        BeanstalkCommand::Release { id, pri, delay } => {
            if store.release(session.id, id, pri, delay, now) {
                Action::Respond(BeanstalkResponse::Released)
            } else {
                Action::Respond(BeanstalkResponse::NotFound)
            }
        },
        BeanstalkCommand::Delete { id } => {
            if store.delete(session.id, id) {
                Action::Respond(BeanstalkResponse::Deleted)
            } else {
                Action::Respond(BeanstalkResponse::NotFound)
            }
        },
        BeanstalkCommand::Bury { id, pri } => {
            if store.bury(session.id, id, pri) {
                Action::Respond(BeanstalkResponse::Buried)
            } else {
                Action::Respond(BeanstalkResponse::NotFound)
            }
        },
        BeanstalkCommand::Touch { id } => {
            if store.touch(session.id, id, now) {
                Action::Respond(BeanstalkResponse::Touched)
            } else {
                Action::Respond(BeanstalkResponse::NotFound)
            }
        },
        BeanstalkCommand::Watch { tube } => match store.watch(session, tube.as_slice()) {
            Some(n) => Action::Respond(BeanstalkResponse::Watching { count: n as u64 }),
            None => Action::Respond(BeanstalkResponse::OutOfMemory),
        },
        BeanstalkCommand::Ignore { tube } => match store.ignore(session, tube.as_slice()) {
            Some(n) => Action::Respond(BeanstalkResponse::Watching { count: n as u64 }),
            None => Action::Respond(BeanstalkResponse::NotIgnored),
        },
        BeanstalkCommand::Peek { id } => {
            proof {
                crate::store::lemma_job_index(store.jobs@, id);
            }
            let r = store.peek(id);
            Action::Respond(peeked(r))
        },
        BeanstalkCommand::PeekReady => {
            store.tick(now);
            let r = store.peek_ready(session.used);
            Action::Respond(peeked(r))
        },
        BeanstalkCommand::PeekDelayed => {
            store.tick(now);
            let r = store.peek_delayed(session.used);
            Action::Respond(peeked(r))
        },
        BeanstalkCommand::PeekBuried => {
            let r = store.peek_buried(session.used);
            Action::Respond(peeked(r))
        },
        BeanstalkCommand::Kick { bound } => {
            store.tick(now);
            let n = store.kick(session.used, bound);
            Action::Respond(BeanstalkResponse::KickedCount { count: n })
        },
        BeanstalkCommand::KickJob { id } => {
            store.tick(now);
            if store.kick_job(id) {
                Action::Respond(BeanstalkResponse::Kicked)
            } else {
                Action::Respond(BeanstalkResponse::NotFound)
            }
        },
        BeanstalkCommand::StatsJob { id } => {
            store.tick(now);
            match store.find_job(id) {
                Some(i) => Action::SendJobStats(job_stats(store, i, now)),
                None => Action::Respond(BeanstalkResponse::NotFound),
            }
        },
        BeanstalkCommand::StatsTube { tube } => {
            store.tick(now);
            match store.find_tube(tube.as_slice()) {
                Some(t) => Action::SendTubeStats(tube_stats(store, t, now)),
                None => Action::Respond(BeanstalkResponse::NotFound),
            }
        },
        BeanstalkCommand::StatsServer => {
            store.tick(now);
            Action::SendServerStats(server_stats(store, max_job_size))
        },
        BeanstalkCommand::ListTubes => {
            let mut names: Vec<Vec<u8>> = Vec::new();
            let mut t: usize = 0;
            while t < store.tubes.len()
                invariant
                    0 <= t <= store.tubes@.len(),
                    names@.len() == t,
                    forall|k: int| 0 <= k < t ==> (#[trigger] names@[k])@ == store.tubes@[k].name@,
                decreases store.tubes@.len() - t,
            {
                names.push(bytes_copy(&store.tubes[t].name));
                t += 1;
            }
            Action::SendTubeList(names)
        },
        BeanstalkCommand::ListTubeUsed => Action::Respond(
            BeanstalkResponse::Using { tube: bytes_copy(&store.tubes[session.used].name) },
        ),
        BeanstalkCommand::ListTubesWatched => {
            let mut names: Vec<Vec<u8>> = Vec::new();
            let mut k: usize = 0;
            while k < session.watched.len()
                invariant
                    session.wf(store.tubes@.len()),
                    0 <= k <= session.watched@.len(),
                    names@.len() == k,
                    forall|q: int|
                        0 <= q < k ==> (#[trigger] names@[q])@ == store.tubes@[session.watched@[q] as int].name@,
                decreases session.watched@.len() - k,
            {
                names.push(bytes_copy(&store.tubes[session.watched[k]].name));
                k += 1;
            }
            Action::SendTubeList(names)
        },
        BeanstalkCommand::Quit => Action::Close,
        BeanstalkCommand::PauseTube { tube, delay } => {
            if store.pause_tube(tube.as_slice(), delay, now) {
                Action::Respond(BeanstalkResponse::Paused)
            } else {
                Action::Respond(BeanstalkResponse::NotFound)
            }
        },
        BeanstalkCommand::Use { tube } => {
            if store.use_tube(session, tube.as_slice()) {
                Action::Respond(BeanstalkResponse::Using { tube })
            } else {
                Action::Respond(BeanstalkResponse::OutOfMemory)
            }
        },
    }
}

/// `s` with one more command `c` counted.
pub open spec fn with_count(s: Store, c: CommandView) -> Store {
    Store { commands: crate::store::counted(s.commands, c), ..s }
}

/// The longest command line, without its CRLF: 224 bytes with it.
pub const MAX_LINE_LEN: usize = 222;

/// Parses one command line of `session` and carries it out.
pub fn handle_line(
    store: &mut Store,
    session: &mut Session,
    line: &[u8],
    now: u64,
    max_job_size: u32,
) -> (r: Action)
    requires
        old(store).wf(),
        old(session).wf(old(store).tubes@.len()),
    ensures
        final(store).wf(),
        final(session).wf(final(store).tubes@.len()),
        if line@.len() > MAX_LINE_LEN {
            &&& r matches Action::Respond(BeanstalkResponse::BadFormat)
            &&& *final(store) == *old(store)
            &&& *final(session) == *old(session)
        } else {
            match parse_model(line@) {
                Ok(c) => {
                    &&& final(store).commands == crate::store::counted(old(store).commands, c)
                    &&& dispatch_post(
                        with_count(*old(store), c),
                        *final(store),
                        *old(session),
                        *final(session),
                        c,
                        now,
                        max_job_size,
                        r,
                    )
                },
                Err(e) => {
                    &&& *final(store) == *old(store)
                    &&& *final(session) == *old(session)
                    &&& match e {
                        ParsingError::BadFormat => r matches Action::Respond(BeanstalkResponse::BadFormat),
                        ParsingError::UnknownCommand => r matches Action::Respond(
                            BeanstalkResponse::UnknownCommand,
                        ),
                    }
                },
            }
        },
{
    if line.len() > MAX_LINE_LEN {
        return Action::Respond(BeanstalkResponse::BadFormat);
    }
    match BeanstalkCommand::parse(line) {
        Ok(cmd) => {
            // The command counts itself, so that `stats` reports itself too.
            let mut counts = store.commands;
            counts.record(&cmd);
            store.commands = counts;
            let r = dispatch(store, session, cmd, now, max_job_size);
            // Nothing in `dispatch` touches the counts.
            store.commands = counts;
            r
        },
        Err(ParsingError::BadFormat) => Action::Respond(BeanstalkResponse::BadFormat),
        Err(ParsingError::UnknownCommand) => Action::Respond(BeanstalkResponse::UnknownCommand),
    }
}

/// Creates the job whose body was read after a `put` header of `session`.
pub fn finish_put(
    store: &mut Store,
    session: &Session,
    pri: u32,
    delay: u32,
    ttr: u32,
    body: BodyRead,
    now: u64,
) -> (r: BeanstalkResponse)
    requires
        old(store).wf(),
        session.wf(old(store).tubes@.len()),
    ensures
        final(store).wf(),
        final(store).tubes@.len() == old(store).tubes@.len(),
        final(store).waiters@ == old(store).waiters@,
        match body {
            BodyRead::Body(data) => if old(store).next_id == u64::MAX {
                r is OutOfMemory && final(store).jobs@ == old(store).jobs@
            } else {
            r matches BeanstalkResponse::Inserted { id } && id == old(store).next_id && put_effect(
                old(store).jobs@,
                final(store).jobs@,
                id,
                session.used,
                pri,
                delay,
                ttr,
                data@,
                now,
            )
            },
            BodyRead::ExpectedCrlf => r is ExpectedCRLF && final(store).jobs@ == old(store).jobs@,
            BodyRead::Incomplete => r is InternalError && final(store).jobs@ == old(store).jobs@,
        },
{
    match body {
        BodyRead::Body(data) => match store.put(session.used, pri, delay, ttr, data, now) {
            Some(id) => BeanstalkResponse::Inserted { id },
            None => BeanstalkResponse::OutOfMemory,
        },
        BodyRead::ExpectedCrlf => BeanstalkResponse::ExpectedCRLF,
        BodyRead::Incomplete => BeanstalkResponse::InternalError,
    }
}

/// What serving does with one waiting reservation.
pub enum Served {
    /// It keeps waiting.
    Kept,
    /// Its session holds a job whose time to run is about to end.
    Warned,
    /// It gets the job at position `at`.
    Granted { at: int },
    /// Its deadline passed without a job.
    TimedOut,
}

/// Serving the waiter `w` at `now`: a session holding a job about to expire
/// is warned; otherwise it gets the job `reserve` would pick for its watch
/// set; otherwise it times out if its deadline has passed, or keeps waiting.
pub open spec fn serve_one(jobs: Seq<Job>, tubes: Seq<Tube>, w: Waiter, now: u64) -> (Seq<Job>, Served) {
    if deadline_soon(jobs, w.session.id, now) {
        (jobs, Served::Warned)
    } else {
        match first_min(jobs, jobs.len() as int, reservable(w.session.watched@, tubes, now), by_pri()) {
            Some(b) => (
                jobs.update(b, with_meta(jobs[b], reserved_meta(jobs[b], w.session.id, now))),
                Served::Granted { at: b },
            ),
            None => if w.deadline matches Some(d) && d <= now {
                (jobs, Served::TimedOut)
            } else {
                (jobs, Served::Kept)
            },
        }
    }
}

/// Serving the waiters `ws` one after the other, in order of arrival: the
/// jobs after, the waiters still waiting in their order, and each served
/// session with what it got, in order.
pub open spec fn serve_all(jobs: Seq<Job>, tubes: Seq<Tube>, ws: Seq<Waiter>, now: u64) -> (
    Seq<Job>,
    Seq<Waiter>,
    Seq<(u64, Served)>,
)
    decreases ws.len(),
{
    if ws.len() == 0 {
        (jobs, seq![], seq![])
    } else {
        let (j1, o) = serve_one(jobs, tubes, ws[0], now);
        let rest = serve_all(j1, tubes, ws.drop_first(), now);
        if o is Kept {
            (rest.0, seq![ws[0]] + rest.1, rest.2)
        } else {
            (rest.0, rest.1, seq![(ws[0].session.id, o)] + rest.2)
        }
    }
}

/// The response `g` is what `o` says the session gets, with the job at its
/// position in `jobs` held by that session.
pub open spec fn grant_matches(g: (u64, BeanstalkResponse), o: (u64, Served), jobs: Seq<Job>) -> bool {
    &&& g.0 == o.0
    &&& match o.1 {
        Served::Warned => g.1 is DeadlineSoon,
        Served::TimedOut => g.1 is TimedOut,
        Served::Granted { at } => {
            &&& 0 <= at < jobs.len()
            &&& jobs[at].meta.state matches JobState::Reserved { owner, .. } && owner == g.0
            &&& match g.1 {
                BeanstalkResponse::Reserved { id, data } => id == jobs[at].id && data@ == jobs[at].data@,
                _ => false,
            }
        },
        Served::Kept => false,
    }
}

/// Serves the waiting reservations at `now` in order of arrival, as
/// `serve_all` describes, after the passing of time. Returns each served
/// session's response; the others stay waiting, in the same order.
pub fn serve_waiters(store: &mut Store, now: u64) -> (r: Vec<(u64, BeanstalkResponse)>)
    requires
        old(store).wf(),
    ensures
        final(store).wf(),
        final(store).tubes@ == old(store).tubes@,
        ({
            let m = serve_all(ticked(old(store).jobs@, now), old(store).tubes@, old(store).waiters@, now);
            &&& final(store).jobs@ == m.0
            &&& final(store).waiters@ == m.1
            &&& r@.len() == m.2.len()
            &&& forall|k: int| 0 <= k < r@.len() ==> #[trigger] grant_matches(r@[k], m.2[k], final(store).jobs@)
        }),
{
    store.tick(now);
    let ghost total = serve_all(store.jobs@, store.tubes@, store.waiters@, now);
    let mut kept: Vec<Waiter> = Vec::new();
    let mut grants: Vec<(u64, BeanstalkResponse)> = Vec::new();
    let ghost mut served: Seq<(u64, Served)> = seq![];
    proof {
        assert(kept@ + total.1 =~= total.1);
        assert(served + total.2 =~= total.2);
    }
    while store.waiters.len() > 0
        invariant
            store.wf(),
            store.tubes@ == old(store).tubes@,
            total == serve_all(ticked(old(store).jobs@, now), old(store).tubes@, old(store).waiters@, now),
            ({
                let cur = serve_all(store.jobs@, store.tubes@, store.waiters@, now);
                &&& total.0 == cur.0
                &&& total.1 == kept@ + cur.1
                &&& total.2 == served + cur.2
            }),
            grants@.len() == served.len(),
            forall|k: int| 0 <= k < grants@.len() ==> #[trigger] grant_matches(grants@[k], served[k], store.jobs@),
        decreases store.waiters@.len(),
    {
        let ghost ws = store.waiters@;
        let ghost jobs = store.jobs@;
        let w = store.waiters.remove(0);
        proof {
            assert(store.waiters@ =~= ws.drop_first());
        }
        let ghost step = serve_one(jobs, store.tubes@, w, now);
        let ghost rest = serve_all(step.0, store.tubes@, store.waiters@, now);
        if holds_deadline_soon(store, w.session.id, now) {
            let ghost g = (w.session.id, Served::Warned);
            grants.push((w.session.id, BeanstalkResponse::DeadlineSoon));
            proof {
                assert(served.push(g) + rest.2 =~= served + (seq![g] + rest.2));
                served = served.push(g);
            }
            continue;
        }
        match store.reserve(&w.session, now) {
            Some(b) => {
                let id = store.jobs[b].id;
                let data = bytes_copy(&store.jobs[b].data);
                let ghost g = (w.session.id, Served::Granted { at: b as int });
                proof {
                    lemma_first_min(
                        jobs,
                        jobs.len() as int,
                        reservable(w.session.watched@, store.tubes@, now),
                        by_pri(),
                    );
                    assert forall|k: int| 0 <= k < grants@.len() implies #[trigger] grant_matches(
                        grants@[k],
                        served[k],
                        store.jobs@,
                    ) by {
                        assert(grant_matches(grants@[k], served[k], jobs));
                        match served[k].1 {
                            Served::Granted { at } => {
                                assert(at != b);
                                assert(store.jobs@[at] == jobs[at]);
                            },
                            _ => {},
                        }
                    }
                    assert(served.push(g) + rest.2 =~= served + (seq![g] + rest.2));
                }
                grants.push((w.session.id, BeanstalkResponse::Reserved { id, data }));
                proof {
                    served = served.push(g);
                }
            },
            None => {
                let expired = match w.deadline {
                    Some(d) => d <= now,
                    None => false,
                };
                if expired {
                    let ghost g = (w.session.id, Served::TimedOut);
                    grants.push((w.session.id, BeanstalkResponse::TimedOut));
                    proof {
                        assert(served.push(g) + rest.2 =~= served + (seq![g] + rest.2));
                        served = served.push(g);
                    }
                } else {
                    proof {
                        assert(kept@.push(w) + rest.1 =~= kept@ + (seq![w] + rest.1));
                    }
                    kept.push(w);
                }
            },
        }
    }
    store.waiters = kept;
    proof {
        assert(kept@ + seq![] =~= kept@);
        assert(served + seq![] =~= served);
    }
    grants
}

/// The waiters of other sessions than `id`, in their order.
pub open spec fn without_session(ws: Seq<Waiter>, id: u64) -> Seq<Waiter>
    decreases ws.len(),
{
    if ws.len() == 0 {
        seq![]
    } else if ws[0].session.id != id {
        seq![ws[0]] + without_session(ws.drop_first(), id)
    } else {
        without_session(ws.drop_first(), id)
    }
}

/// Drops the waiting reservations of session `id`, whose connection is
/// gone.
pub fn cancel_waiter(store: &mut Store, id: u64)
    requires
        old(store).wf(),
    ensures
        final(store).wf(),
        final(store).jobs@ == old(store).jobs@,
        final(store).tubes@ == old(store).tubes@,
        final(store).waiters@ == without_session(old(store).waiters@, id),
{
    let mut kept: Vec<Waiter> = Vec::new();
    proof {
        assert(kept@ + without_session(store.waiters@, id) =~= without_session(store.waiters@, id));
    }
    while store.waiters.len() > 0
        invariant
            store.wf(),
            store.jobs@ == old(store).jobs@,
            store.tubes@ == old(store).tubes@,
            kept@ + without_session(store.waiters@, id) == without_session(old(store).waiters@, id),
        decreases store.waiters@.len(),
    {
        let ghost ws = store.waiters@;
        let w = store.waiters.remove(0);
        proof {
            assert(store.waiters@ =~= ws.drop_first());
        }
        if w.session.id != id {
            proof {
                assert(kept@.push(w) + without_session(store.waiters@, id) =~= kept@ + (seq![w]
                    + without_session(store.waiters@, id)));
            }
            kept.push(w);
        }
    }
    proof {
        assert(kept@ + seq![] =~= kept@);
    }
    store.waiters = kept;
}

} // verus!
