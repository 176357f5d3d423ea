//! Splits the bytes read from a connection into command lines and job bodies.
use vstd::prelude::*;

use bytes::BytesMut;

use crate::wire::{CR, LF};

verus! {

#[verifier::external_type_specification]
#[verifier::external_body]
pub struct ExBytesMut(bytes::BytesMut);

/// The bytes that a buffer holds.
pub uninterp spec fn buffered(b: BytesMut) -> Seq<u8>;

/// Relies on `BytesMut::new`: a buffer of length 0.
#[verifier::external_body]
fn buf_new() -> (r: BytesMut)
    ensures
        buffered(r) == Seq::<u8>::empty(),
{
    BytesMut::new()
}

/// Relies on `BytesMut::len`: the number of bytes held.
#[verifier::external_body]
fn buf_len(b: &BytesMut) -> (r: usize)
    ensures
        r == buffered(*b).len(),
{
    b.len()
}

/// Relies on indexing a `BytesMut` as a byte slice.
#[verifier::external_body]
fn buf_byte(b: &BytesMut, i: usize) -> (r: u8)
    requires
        i < buffered(*b).len(),
    ensures
        r == buffered(*b)[i as int],
{
    b[i]
}

/// Relies on `BytesMut::extend_from_slice`: appends the bytes.
#[verifier::external_body]
fn buf_extend(b: &mut BytesMut, data: &[u8])
    requires
        buffered(*old(b)).len() + data@.len() <= isize::MAX,
    ensures
        buffered(*final(b)) == buffered(*old(b)) + data@,
{
    b.extend_from_slice(data)
}

/// Relies on `BytesMut::split_to`: takes the first `at` bytes out of the
/// buffer.
#[verifier::external_body]
fn buf_split_to(b: &mut BytesMut, at: usize) -> (r: Vec<u8>)
    requires
        at <= buffered(*old(b)).len(),
    ensures
        r@ == buffered(*old(b)).take(at as int),
        buffered(*final(b)) == buffered(*old(b)).skip(at as int),
{
    b.split_to(at).to_vec()
}

/// A CRLF pair starts at `i`.
pub open spec fn crlf_at(s: Seq<u8>, i: int) -> bool {
    0 <= i && i + 1 < s.len() && s[i] == CR && s[i + 1] == LF
}

/// No CRLF pair starts before `n`.
pub open spec fn crlf_free_before(s: Seq<u8>, n: int) -> bool {
    forall|i: int| 0 <= i < n ==> !#[trigger] crlf_at(s, i)
}

/// The outcome of reading a job body.
#[derive(Debug)]
pub enum BodyRead {
    /// Not enough bytes are buffered yet; nothing was consumed.
    Incomplete,
    /// The body, whose CRLF was consumed with it.
    Body(Vec<u8>),
    /// The body was not followed by CRLF; the body and the two bytes that
    /// stood for the CRLF were consumed.
    ExpectedCrlf,
}

/// Reassembles CRLF-terminated lines out of the bytes read from a stream.
///
/// Bytes already shown free of a CRLF are not scanned again, so the work is
/// proportional to the bytes read.
pub struct LineReader {
    /// Bytes read but not yet handed out.
    buf: BytesMut,
    /// Index in `buf` before which no CRLF pair starts.
    maybe_crlf_from: usize,
}

impl View for LineReader {
    type V = Seq<u8>;

    closed spec fn view(&self) -> Seq<u8> {
        buffered(self.buf)
    }
}

impl LineReader {
    pub closed spec fn wf(&self) -> bool {
        &&& self.maybe_crlf_from == 0 || self.maybe_crlf_from < self@.len()
        &&& crlf_free_before(self@, self.maybe_crlf_from as int)
    }

    /// A reader with nothing buffered.
    pub fn new() -> (r: LineReader)
        ensures
            r.wf(),
            r@ == Seq::<u8>::empty(),
    {
        LineReader { buf: buf_new(), maybe_crlf_from: 0 }
    }

    /// The number of bytes buffered.
    pub fn buffered_len(&self) -> (r: usize)
        ensures
            r == self@.len(),
    {
        buf_len(&self.buf)
    }

    /// Appends bytes freshly read from the stream.
    pub fn fill(&mut self, data: &[u8])
        requires
            old(self).wf(),
            old(self)@.len() + data@.len() <= isize::MAX,
        ensures
            final(self).wf(),
            final(self)@ == old(self)@ + data@,
    {
        buf_extend(&mut self.buf, data);
        assert forall|i: int| 0 <= i < self.maybe_crlf_from implies !#[trigger] crlf_at(self@, i) by {
            assert(crlf_at(self@, i) == crlf_at(old(self)@, i));
        }
    }

    /// Hands out the next complete line, without its CRLF, or `None` when the
    /// buffer holds no CRLF yet.
    pub fn read_line(&mut self) -> (r: Option<Vec<u8>>)
        requires
            old(self).wf(),
        ensures
            final(self).wf(),
            match r {
                Some(line) => {
                    &&& crlf_at(old(self)@, line@.len() as int)
                    &&& crlf_free_before(old(self)@, line@.len() as int)
                    &&& line@ == old(self)@.take(line@.len() as int)
                    &&& final(self)@ == old(self)@.skip(line@.len() as int + 2)
                },
                None => {
                    &&& crlf_free_before(old(self)@, old(self)@.len() as int)
                    &&& final(self)@ == old(self)@
                },
            },
    {
        let len = buf_len(&self.buf);
        let mut i = self.maybe_crlf_from;
        while i + 1 < len
            invariant
                self.wf(),
                len == self@.len(),
                self@ == old(self)@,
                self.maybe_crlf_from <= i,
                i == 0 || i < len,
                crlf_free_before(self@, i as int),
            decreases len - i,
        {
            if buf_byte(&self.buf, i) == CR && buf_byte(&self.buf, i + 1) == LF {
                let mut line = buf_split_to(&mut self.buf, i + 2);
                line.truncate(i);
                assert(line@ =~= old(self)@.take(i as int));
                self.maybe_crlf_from = 0;
                assert(crlf_free_before(self@, 0));
                return Some(line);
            }
            i += 1;
        }
        assert forall|j: int| 0 <= j < len implies !#[trigger] crlf_at(self@, j) by {
            if j >= i {
                assert(j + 1 >= len);
            }
        }
        // Everything up to the last byte is now known to hold no CRLF; the last
        // byte may be a CR whose LF is still to come.
        self.maybe_crlf_from = if len == 0 {
            0
        } else {
            len - 1
        };
        None
    }

    /// Takes a job body of `n` bytes and the CRLF that must follow it,
    /// bypassing the search for lines.
    pub fn read_body(&mut self, n: usize) -> (r: BodyRead)
        requires
            old(self).wf(),
        ensures
            final(self).wf(),
            old(self)@.len() < n + 2 ==> r is Incomplete && final(self)@ == old(self)@,
            old(self)@.len() >= n + 2 ==> final(self)@ == old(self)@.skip(n as int + 2),
            old(self)@.len() >= n + 2 && crlf_at(old(self)@, n as int) ==> (r matches BodyRead::Body(
                b,
            ) && b@ == old(self)@.take(n as int)),
            old(self)@.len() >= n + 2 && !crlf_at(old(self)@, n as int) ==> r is ExpectedCrlf,
    {
        let len = buf_len(&self.buf);
        if len < 2 || len - 2 < n {
            return BodyRead::Incomplete;
        }
        let ends_with_crlf = buf_byte(&self.buf, n) == CR && buf_byte(&self.buf, n + 1) == LF;
        let mut body = buf_split_to(&mut self.buf, n + 2);
        self.maybe_crlf_from = 0;
        assert(crlf_free_before(self@, 0));
        if ends_with_crlf {
            body.truncate(n);
            assert(body@ =~= old(self)@.take(n as int));
            BodyRead::Body(body)
        } else {
            BodyRead::ExpectedCrlf
        }
    }
}

} // verus!
