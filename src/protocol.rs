//! The commands a client sends and the responses the server gives.
use vstd::prelude::*;

use crate::serialisable::BeanstalkSerialisable;
use crate::wire::{append_bytes, ascii, ascii_vec, crlf, decimal, push_decimal};

verus! {

/// A command sent by the client to the server.
#[derive(Clone, Debug, PartialEq, Eq)]
pub enum BeanstalkCommand {
    /// `put <pri> <delay> <ttr> <bytes>`: places a job on the used tube.
    Put { pri: u32, delay: u32, ttr: u32, n_bytes: u32 },
    /// `reserve`: waits for a job from the watched tubes.
    Reserve,
    /// `reserve-with-timeout <seconds>`: as `reserve`, but gives up after
    /// `timeout` seconds.
    ReserveWithTimeout { timeout: u32 },
    /// `reserve-job <id>`: reserves a given job if it is not already reserved.
    ReserveJob { id: u64 },
    /// `release <id> <pri> <delay>`: returns a reserved job to the ready or
    /// delayed state.
    Release { id: u64, pri: u32, delay: u32 },
    /// `delete <id>`: removes a job.
    Delete { id: u64 },
    /// `bury <id> <pri>`: parks a reserved job.
    Bury { id: u64, pri: u32 },
    /// `touch <id>`: refreshes the time to run of a reserved job.
    Touch { id: u64 },
    /// `watch <tube>`: adds a tube to the watch set.
    Watch { tube: Vec<u8> },
    /// `ignore <tube>`: removes a tube from the watch set.
    Ignore { tube: Vec<u8> },
    /// `peek <id>`: shows a job whatever its state.
    Peek { id: u64 },
    /// `peek-ready`: shows the next ready job of the used tube.
    PeekReady,
    /// `peek-delayed`: shows the delayed job of the used tube that is ready
    /// first.
    PeekDelayed,
    /// `peek-buried`: shows the oldest buried job of the used tube.
    PeekBuried,
    /// `kick <bound>`: promotes up to `bound` buried jobs, or delayed jobs when
    /// none is buried, of the used tube.
    Kick { bound: u64 },
    /// `kick-job <id>`: promotes one buried or delayed job.
    KickJob { id: u64 },
    /// `stats-job <id>`: statistics of a job.
    StatsJob { id: u64 },
    /// `stats-tube <tube>`: statistics of a tube.
    StatsTube { tube: Vec<u8> },
    /// `stats`: statistics of the server.
    StatsServer,
    /// `list-tubes`: the tubes that exist.
    ListTubes,
    /// `list-tube-used`: the used tube.
    ListTubeUsed,
    /// `list-tubes-watched`: the watched tubes.
    ListTubesWatched,
    /// `quit`: closes the connection.
    Quit,
    /// `pause-tube <tube> <delay>`: stops reservations from a tube for `delay`
    /// seconds.
    PauseTube { tube: Vec<u8>, delay: u32 },
    /// `use <tube>`: selects the tube that `put` targets.
    Use { tube: Vec<u8> },
}

/// A command with its byte fields seen as sequences.
pub enum CommandView {
    Put { pri: u32, delay: u32, ttr: u32, n_bytes: u32 },
    Reserve,
    ReserveWithTimeout { timeout: u32 },
    ReserveJob { id: u64 },
    Release { id: u64, pri: u32, delay: u32 },
    Delete { id: u64 },
    Bury { id: u64, pri: u32 },
    Touch { id: u64 },
    Watch { tube: Seq<u8> },
    Ignore { tube: Seq<u8> },
    Peek { id: u64 },
    PeekReady,
    PeekDelayed,
    PeekBuried,
    Kick { bound: u64 },
    KickJob { id: u64 },
    StatsJob { id: u64 },
    StatsTube { tube: Seq<u8> },
    StatsServer,
    ListTubes,
    ListTubeUsed,
    ListTubesWatched,
    Quit,
    PauseTube { tube: Seq<u8>, delay: u32 },
    Use { tube: Seq<u8> },
}

impl View for BeanstalkCommand {
    type V = CommandView;

    open spec fn view(&self) -> CommandView {
        match self {
            BeanstalkCommand::Put { pri, delay, ttr, n_bytes } => CommandView::Put {
                pri: *pri,
                delay: *delay,
                ttr: *ttr,
                n_bytes: *n_bytes,
            },
            BeanstalkCommand::Reserve => CommandView::Reserve,
            BeanstalkCommand::ReserveWithTimeout { timeout } => CommandView::ReserveWithTimeout {
                timeout: *timeout,
            },
            BeanstalkCommand::ReserveJob { id } => CommandView::ReserveJob { id: *id },
            BeanstalkCommand::Release { id, pri, delay } => CommandView::Release {
                id: *id,
                pri: *pri,
                delay: *delay,
            },
            BeanstalkCommand::Delete { id } => CommandView::Delete { id: *id },
            BeanstalkCommand::Bury { id, pri } => CommandView::Bury { id: *id, pri: *pri },
            BeanstalkCommand::Touch { id } => CommandView::Touch { id: *id },
            BeanstalkCommand::Watch { tube } => CommandView::Watch { tube: tube@ },
            BeanstalkCommand::Ignore { tube } => CommandView::Ignore { tube: tube@ },
            BeanstalkCommand::Peek { id } => CommandView::Peek { id: *id },
            BeanstalkCommand::PeekReady => CommandView::PeekReady,
            BeanstalkCommand::PeekDelayed => CommandView::PeekDelayed,
            BeanstalkCommand::PeekBuried => CommandView::PeekBuried,
            BeanstalkCommand::Kick { bound } => CommandView::Kick { bound: *bound },
            BeanstalkCommand::KickJob { id } => CommandView::KickJob { id: *id },
            BeanstalkCommand::StatsJob { id } => CommandView::StatsJob { id: *id },
            BeanstalkCommand::StatsTube { tube } => CommandView::StatsTube { tube: tube@ },
            BeanstalkCommand::StatsServer => CommandView::StatsServer,
            BeanstalkCommand::ListTubes => CommandView::ListTubes,
            BeanstalkCommand::ListTubeUsed => CommandView::ListTubeUsed,
            BeanstalkCommand::ListTubesWatched => CommandView::ListTubesWatched,
            BeanstalkCommand::Quit => CommandView::Quit,
            BeanstalkCommand::PauseTube { tube, delay } => CommandView::PauseTube {
                tube: tube@,
                delay: *delay,
            },
            BeanstalkCommand::Use { tube } => CommandView::Use { tube: tube@ },
        }
    }
}

/// All possible responses of the server.
pub enum BeanstalkResponse {
    /// Can be sent in response to any command: the server is short of memory. On the wire: `OUT_OF_MEMORY`.
    OutOfMemory,
    /// Can be sent in response to any command: a server defect. On the wire: `INTERNAL_ERROR`.
    InternalError,
    /// The request was malformed. On the wire: `BAD_FORMAT`.
    BadFormat,
    /// The request named no known command. On the wire: `UNKNOWN_COMMAND`.
    UnknownCommand,
    /// A job body was not followed by CRLF. On the wire: `EXPECTED_CRLF`.
    ExpectedCRLF,
    /// A job body was larger than the server accepts. On the wire: `JOB_TOO_BIG`.
    JobTooBig,
    /// The server is not accepting jobs. On the wire: `DRAINING`.
    Draining,
    /// A reserved job of the client is about to exceed its time to run. On the wire: `DEADLINE_SOON`.
    DeadlineSoon,
    /// A timed reservation expired with no job. On the wire: `TIMED_OUT`.
    TimedOut,
    /// The job or tube is unknown or not in the state the command needs. On the wire: `NOT_FOUND`.
    NotFound,
    /// The job was deleted. On the wire: `DELETED`.
    Deleted,
    /// The job was released. On the wire: `RELEASED`.
    Released,
    /// The job was buried. On the wire: `BURIED`.
    Buried,
    /// The job's time to run was refreshed. On the wire: `TOUCHED`.
    Touched,
    /// The ignore would have left the watch set empty. On the wire: `NOT_IGNORED`.
    NotIgnored,
    /// The job was kicked. On the wire: `KICKED`.
    Kicked,
    /// The tube was paused. On the wire: `PAUSED`.
    Paused,
    /// `put` created the job with this id. On the wire: `INSERTED <id>`.
    Inserted { id: u64 },
    /// `put` created the job with this id and buried it at once. On the wire: `BURIED <id>`.
    BuriedID { id: u64 },
    /// The number of tubes now watched. On the wire: `WATCHING <count>`.
    Watching { count: u64 },
    /// The number of jobs that `kick` promoted. On the wire: `KICKED <count>`.
    KickedCount { count: u64 },
    /// The used tube. On the wire: `USING <tube>`.
    Using { tube: Vec<u8> },
    /// A reserved job. On the wire: `RESERVED <id> <bytes>`, the body and CRLF.
    Reserved { id: u64, data: Vec<u8> },
    /// A peeked job. On the wire: `FOUND <id> <bytes>`, the body and CRLF.
    Found { id: u64, data: Vec<u8> },
    /// A statistics or list payload in YAML. On the wire: `OK <bytes>`, the
    /// payload and CRLF.
    OkData { data: Vec<u8> },
}

/// The text of a response line without its fields.
pub open spec fn line(w: Seq<char>) -> Seq<u8> {
    ascii(w) + crlf()
}

/// A keyword and a number.
pub open spec fn line_num(w: Seq<char>, n: nat) -> Seq<u8> {
    ascii(w) + decimal(n) + crlf()
}

/// A keyword, an id and a body.
pub open spec fn line_job(w: Seq<char>, id: nat, data: Seq<u8>) -> Seq<u8> {
    ascii(w) + decimal(id) + ascii(seq![' ']) + decimal(data.len()) + crlf() + data + crlf()
}

/// `<word><id> <bytes>`, CRLF, the body and CRLF.
fn job_line(w: &[char], id: u64, data: &Vec<u8>) -> (r: Vec<u8>)
    requires
        forall|i: int| 0 <= i < w@.len() ==> (w@[i] as u32) < 128,
    ensures
        r@ == line_job(w@, id as nat, data@),
{
    let mut r = ascii_vec(w);
    push_decimal(&mut r, id);
    r.push(' ' as u8);
    push_decimal(&mut r, data.len() as u64);
    append_bytes(&mut r, &['\r' as u8, '\n' as u8]);
    append_bytes(&mut r, data.as_slice());
    append_bytes(&mut r, &['\r' as u8, '\n' as u8]);
    assert(ascii(seq![' ']) =~= seq![' ' as u8]);
    assert(r@ =~= line_job(w@, id as nat, data@));
    r
}

impl BeanstalkSerialisable for BeanstalkResponse {
    open spec fn wire(&self) -> Seq<u8> {
        match self {
            BeanstalkResponse::OutOfMemory => line(seq!['O', 'U', 'T', '_', 'O', 'F', '_', 'M', 'E', 'M', 'O', 'R', 'Y']),
            BeanstalkResponse::InternalError => line(seq!['I', 'N', 'T', 'E', 'R', 'N', 'A', 'L', '_', 'E', 'R', 'R', 'O', 'R']),
            BeanstalkResponse::BadFormat => line(seq!['B', 'A', 'D', '_', 'F', 'O', 'R', 'M', 'A', 'T']),
            BeanstalkResponse::UnknownCommand => line(seq!['U', 'N', 'K', 'N', 'O', 'W', 'N', '_', 'C', 'O', 'M', 'M', 'A', 'N', 'D']),
            BeanstalkResponse::ExpectedCRLF => line(seq!['E', 'X', 'P', 'E', 'C', 'T', 'E', 'D', '_', 'C', 'R', 'L', 'F']),
            BeanstalkResponse::JobTooBig => line(seq!['J', 'O', 'B', '_', 'T', 'O', 'O', '_', 'B', 'I', 'G']),
            BeanstalkResponse::Draining => line(seq!['D', 'R', 'A', 'I', 'N', 'I', 'N', 'G']),
            BeanstalkResponse::DeadlineSoon => line(seq!['D', 'E', 'A', 'D', 'L', 'I', 'N', 'E', '_', 'S', 'O', 'O', 'N']),
            BeanstalkResponse::TimedOut => line(seq!['T', 'I', 'M', 'E', 'D', '_', 'O', 'U', 'T']),
            BeanstalkResponse::NotFound => line(seq!['N', 'O', 'T', '_', 'F', 'O', 'U', 'N', 'D']),
            BeanstalkResponse::Deleted => line(seq!['D', 'E', 'L', 'E', 'T', 'E', 'D']),
            BeanstalkResponse::Released => line(seq!['R', 'E', 'L', 'E', 'A', 'S', 'E', 'D']),
            BeanstalkResponse::Buried => line(seq!['B', 'U', 'R', 'I', 'E', 'D']),
            BeanstalkResponse::Touched => line(seq!['T', 'O', 'U', 'C', 'H', 'E', 'D']),
            BeanstalkResponse::NotIgnored => line(seq!['N', 'O', 'T', '_', 'I', 'G', 'N', 'O', 'R', 'E', 'D']),
            BeanstalkResponse::Kicked => line(seq!['K', 'I', 'C', 'K', 'E', 'D']),
            BeanstalkResponse::Paused => line(seq!['P', 'A', 'U', 'S', 'E', 'D']),
            BeanstalkResponse::Inserted { id } => line_num(seq!['I', 'N', 'S', 'E', 'R', 'T', 'E', 'D', ' '], *id as nat),
            BeanstalkResponse::BuriedID { id } => line_num(seq!['B', 'U', 'R', 'I', 'E', 'D', ' '], *id as nat),
            BeanstalkResponse::Watching { count } => line_num(seq!['W', 'A', 'T', 'C', 'H', 'I', 'N', 'G', ' '], *count as nat),
            BeanstalkResponse::KickedCount { count } => line_num(seq!['K', 'I', 'C', 'K', 'E', 'D', ' '], *count as nat),
            BeanstalkResponse::Using { tube } => ascii(seq!['U', 'S', 'I', 'N', 'G', ' ']) + tube@ + crlf(),
            BeanstalkResponse::Reserved { id, data } => line_job(seq!['R', 'E', 'S', 'E', 'R', 'V', 'E', 'D', ' '], *id as nat, data@),
            BeanstalkResponse::Found { id, data } => line_job(seq!['F', 'O', 'U', 'N', 'D', ' '], *id as nat, data@),
            BeanstalkResponse::OkData { data } => ascii(seq!['O', 'K', ' ']) + decimal(data@.len()) + crlf() + data@ + crlf(),
        }
    }

    fn serialise_beanstalk(&self) -> (r: Vec<u8>) {
        match self {
            BeanstalkResponse::OutOfMemory => ascii_vec(&['O', 'U', 'T', '_', 'O', 'F', '_', 'M', 'E', 'M', 'O', 'R', 'Y', '\r', '\n']),
            BeanstalkResponse::InternalError => ascii_vec(&['I', 'N', 'T', 'E', 'R', 'N', 'A', 'L', '_', 'E', 'R', 'R', 'O', 'R', '\r', '\n']),
            BeanstalkResponse::BadFormat => ascii_vec(&['B', 'A', 'D', '_', 'F', 'O', 'R', 'M', 'A', 'T', '\r', '\n']),
            BeanstalkResponse::UnknownCommand => ascii_vec(&['U', 'N', 'K', 'N', 'O', 'W', 'N', '_', 'C', 'O', 'M', 'M', 'A', 'N', 'D', '\r', '\n']),
            BeanstalkResponse::ExpectedCRLF => ascii_vec(&['E', 'X', 'P', 'E', 'C', 'T', 'E', 'D', '_', 'C', 'R', 'L', 'F', '\r', '\n']),
            BeanstalkResponse::JobTooBig => ascii_vec(&['J', 'O', 'B', '_', 'T', 'O', 'O', '_', 'B', 'I', 'G', '\r', '\n']),
            BeanstalkResponse::Draining => ascii_vec(&['D', 'R', 'A', 'I', 'N', 'I', 'N', 'G', '\r', '\n']),
            BeanstalkResponse::DeadlineSoon => ascii_vec(&['D', 'E', 'A', 'D', 'L', 'I', 'N', 'E', '_', 'S', 'O', 'O', 'N', '\r', '\n']),
            BeanstalkResponse::TimedOut => ascii_vec(&['T', 'I', 'M', 'E', 'D', '_', 'O', 'U', 'T', '\r', '\n']),
            BeanstalkResponse::NotFound => ascii_vec(&['N', 'O', 'T', '_', 'F', 'O', 'U', 'N', 'D', '\r', '\n']),
            BeanstalkResponse::Deleted => ascii_vec(&['D', 'E', 'L', 'E', 'T', 'E', 'D', '\r', '\n']),
            BeanstalkResponse::Released => ascii_vec(&['R', 'E', 'L', 'E', 'A', 'S', 'E', 'D', '\r', '\n']),
            BeanstalkResponse::Buried => ascii_vec(&['B', 'U', 'R', 'I', 'E', 'D', '\r', '\n']),
            BeanstalkResponse::Touched => ascii_vec(&['T', 'O', 'U', 'C', 'H', 'E', 'D', '\r', '\n']),
            BeanstalkResponse::NotIgnored => ascii_vec(&['N', 'O', 'T', '_', 'I', 'G', 'N', 'O', 'R', 'E', 'D', '\r', '\n']),
            BeanstalkResponse::Kicked => ascii_vec(&['K', 'I', 'C', 'K', 'E', 'D', '\r', '\n']),
            BeanstalkResponse::Paused => ascii_vec(&['P', 'A', 'U', 'S', 'E', 'D', '\r', '\n']),
            BeanstalkResponse::Inserted { id } => {
                let mut r = ascii_vec(&['I', 'N', 'S', 'E', 'R', 'T', 'E', 'D', ' ']);
                push_decimal(&mut r, *id as u64);
                append_bytes(&mut r, &['\r' as u8, '\n' as u8]);
                r
            },
            BeanstalkResponse::BuriedID { id } => {
                let mut r = ascii_vec(&['B', 'U', 'R', 'I', 'E', 'D', ' ']);
                push_decimal(&mut r, *id as u64);
                append_bytes(&mut r, &['\r' as u8, '\n' as u8]);
                r
            },
            BeanstalkResponse::Watching { count } => {
                let mut r = ascii_vec(&['W', 'A', 'T', 'C', 'H', 'I', 'N', 'G', ' ']);
                push_decimal(&mut r, *count as u64);
                append_bytes(&mut r, &['\r' as u8, '\n' as u8]);
                r
            },
            BeanstalkResponse::KickedCount { count } => {
                let mut r = ascii_vec(&['K', 'I', 'C', 'K', 'E', 'D', ' ']);
                push_decimal(&mut r, *count as u64);
                append_bytes(&mut r, &['\r' as u8, '\n' as u8]);
                r
            },
            BeanstalkResponse::Using { tube } => {
                let mut r = ascii_vec(&['U', 'S', 'I', 'N', 'G', ' ']);
                append_bytes(&mut r, tube.as_slice());
                append_bytes(&mut r, &['\r' as u8, '\n' as u8]);
                r
            },
            BeanstalkResponse::Reserved { id, data } => job_line(&['R', 'E', 'S', 'E', 'R', 'V', 'E', 'D', ' '], *id, data),
            BeanstalkResponse::Found { id, data } => job_line(&['F', 'O', 'U', 'N', 'D', ' '], *id, data),
            BeanstalkResponse::OkData { data } => {
                let mut r = ascii_vec(&['O', 'K', ' ']);
                push_decimal(&mut r, data.len() as u64);
                append_bytes(&mut r, &['\r' as u8, '\n' as u8]);
                append_bytes(&mut r, data.as_slice());
                append_bytes(&mut r, &['\r' as u8, '\n' as u8]);
                r
            },
        }
    }
}

} // verus!
