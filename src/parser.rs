//! A parser for the command lines of the beanstalkd TCP protocol.
use vstd::prelude::*;

use crate::protocol::{BeanstalkCommand, CommandView};
use crate::serialisable::BeanstalkSerialisable;
use crate::wire::{ascii, decimal, SPACE};

verus! {

/// Why a command line could not be parsed.
#[derive(Clone, Copy, Debug, PartialEq, Eq, Structural)]
pub enum ParsingError {
    BadFormat,
    UnknownCommand,
}

impl ParsingError {
    /// A short human-readable description of the error.
    pub fn to_string(&self) -> (r: String)
        ensures
            r@ == (match self {
                ParsingError::BadFormat => "bad format"@,
                ParsingError::UnknownCommand => "unknown command"@,
            }),
    {
        match self {
            ParsingError::BadFormat => "bad format".to_string(),
            ParsingError::UnknownCommand => "unknown command".to_string(),
        }
    }
}

impl BeanstalkSerialisable for ParsingError {
    open spec fn wire(&self) -> Seq<u8> {
        match self {
            ParsingError::BadFormat => ascii(seq!['B', 'A', 'D', '_', 'F', 'O', 'R', 'M', 'A', 'T', '\r', '\n']),
            ParsingError::UnknownCommand => ascii(
                seq!['U', 'N', 'K', 'N', 'O', 'W', 'N', '_', 'C', 'O', 'M', 'M', 'A', 'N', 'D', '\r', '\n'],
            ),
        }
    }

    fn serialise_beanstalk(&self) -> (r: Vec<u8>) {
        match self {
            ParsingError::BadFormat => crate::wire::ascii_vec(
                &['B', 'A', 'D', '_', 'F', 'O', 'R', 'M', 'A', 'T', '\r', '\n'],
            ),
            ParsingError::UnknownCommand => crate::wire::ascii_vec(
                &['U', 'N', 'K', 'N', 'O', 'W', 'N', '_', 'C', 'O', 'M', 'M', 'A', 'N', 'D', '\r', '\n'],
            ),
        }
    }
}

// ---------------------------------------------------------------------------
// The grammar.

/// Length of the leading run of non-space bytes of `s`.
pub open spec fn token_len(s: Seq<u8>) -> nat
    decreases s.len(),
{
    if s.len() == 0 || s[0] == SPACE {
        0
    } else {
        1 + token_len(s.drop_first())
    }
}

/// `s` cut at every single space byte; consecutive spaces give empty tokens.
/// There is always at least one token.
pub open spec fn split_tokens(s: Seq<u8>) -> Seq<Seq<u8>>
    decreases s.len(),
{
    let n = token_len(s);
    if n < s.len() {
        seq![s.take(n as int)] + split_tokens(s.skip(n as int + 1))
    } else {
        seq![s]
    }
}

/// The fields that still follow a position of a line: `rest` is empty or
/// starts at the space before the next field.
pub open spec fn remaining_fields(rest: Seq<u8>) -> Seq<Seq<u8>> {
    if rest.len() == 0 {
        seq![]
    } else {
        split_tokens(rest.drop_first())
    }
}

pub open spec fn is_digit(c: u8) -> bool {
    '0' as u8 <= c <= '9' as u8
}

/// A non-empty run of ASCII digits.
pub open spec fn is_digits(t: Seq<u8>) -> bool {
    t.len() > 0 && forall|i: int| 0 <= i < t.len() ==> is_digit(#[trigger] t[i])
}

/// The number that a run of decimal digits denotes.
pub open spec fn digits_value(t: Seq<u8>) -> nat
    decreases t.len(),
{
    if t.len() == 0 {
        0
    } else {
        digits_value(t.drop_last()) * 10 + (t.last() - ('0' as u8)) as nat
    }
}

/// A numeric field that fits in 32 bits.
pub open spec fn u32_field(t: Seq<u8>) -> Option<u32> {
    if is_digits(t) && digits_value(t) <= u32::MAX {
        Some(digits_value(t) as u32)
    } else {
        None
    }
}

/// A numeric field that fits in 64 bits.
pub open spec fn u64_field(t: Seq<u8>) -> Option<u64> {
    if is_digits(t) && digits_value(t) <= u64::MAX {
        Some(digits_value(t) as u64)
    } else {
        None
    }
}

/// Whether `c` may stand in a tube name, at its first position or elsewhere.
pub open spec fn name_char(c: u8, is_first: bool) -> bool {
    ||| 'a' as u8 <= c <= 'z' as u8
    ||| 'A' as u8 <= c <= 'Z' as u8
    ||| '0' as u8 <= c <= '9' as u8
    ||| c == '+' as u8
    ||| c == '/' as u8
    ||| c == ';' as u8
    ||| c == '.' as u8
    ||| c == '$' as u8
    ||| c == '_' as u8
    ||| c == '(' as u8
    ||| c == ')' as u8
    ||| (c == '-' as u8 && !is_first)
}

/// A tube name: 1 to 200 bytes of the name alphabet, not starting with `-`.
pub open spec fn is_name(t: Seq<u8>) -> bool {
    &&& 0 < t.len() <= 200
    &&& forall|i: int| 0 <= i < t.len() ==> name_char(#[trigger] t[i], i == 0)
}

/// The result of a command taking no field.
pub open spec fn cmd0(f: Seq<Seq<u8>>, c: CommandView) -> Result<CommandView, ParsingError> {
    if f.len() == 0 {
        Ok(c)
    } else {
        Err(ParsingError::BadFormat)
    }
}

/// What a command line (without its CRLF) denotes.
pub open spec fn parse_model(line: Seq<u8>) -> Result<CommandView, ParsingError> {
    let t = split_tokens(line);
    let c = t[0];
    let f = t.drop_first();
    if c.len() == 0 {
        Err(ParsingError::BadFormat)
    } else if c == cmd_name_list_tube_used() {
        cmd0(f, CommandView::ListTubeUsed)
    } else if c == cmd_name_list_tubes_watched() {
        cmd0(f, CommandView::ListTubesWatched)
    } else if c == cmd_name_list_tubes() {
        cmd0(f, CommandView::ListTubes)
    } else if c == cmd_name_peek_buried() {
        cmd0(f, CommandView::PeekBuried)
    } else if c == cmd_name_peek_delayed() {
        cmd0(f, CommandView::PeekDelayed)
    } else if c == cmd_name_peek_ready() {
        cmd0(f, CommandView::PeekReady)
    } else if c == cmd_name_quit() {
        cmd0(f, CommandView::Quit)
    } else if c == cmd_name_reserve() {
        cmd0(f, CommandView::Reserve)
    } else if c == cmd_name_stats() {
        cmd0(f, CommandView::StatsServer)
    } else if c == cmd_name_delete() || c == cmd_name_kick() || c == cmd_name_kick_job() || c
        == cmd_name_peek() || c == cmd_name_reserve_job() || c == cmd_name_stats_job() || c
        == cmd_name_touch() {
        if f.len() == 1 && u64_field(f[0]) is Some {
            let v = u64_field(f[0]).unwrap();
            Ok(
                if c == cmd_name_delete() {
                    CommandView::Delete { id: v }
                } else if c == cmd_name_kick() {
                    CommandView::Kick { bound: v }
                } else if c == cmd_name_kick_job() {
                    CommandView::KickJob { id: v }
                } else if c == cmd_name_peek() {
                    CommandView::Peek { id: v }
                } else if c == cmd_name_reserve_job() {
                    CommandView::ReserveJob { id: v }
                } else if c == cmd_name_stats_job() {
                    CommandView::StatsJob { id: v }
                } else {
                    CommandView::Touch { id: v }
                },
            )
        } else {
            Err(ParsingError::BadFormat)
        }
    } else if c == cmd_name_reserve_with_timeout() {
        if f.len() == 1 && u32_field(f[0]) is Some {
            Ok(CommandView::ReserveWithTimeout { timeout: u32_field(f[0]).unwrap() })
        } else {
            Err(ParsingError::BadFormat)
        }
    } else if c == cmd_name_use() || c == cmd_name_watch() || c == cmd_name_ignore() || c
        == cmd_name_stats_tube() {
        if f.len() == 1 && is_name(f[0]) {
            Ok(
                if c == cmd_name_use() {
                    CommandView::Use { tube: f[0] }
                } else if c == cmd_name_watch() {
                    CommandView::Watch { tube: f[0] }
                } else if c == cmd_name_ignore() {
                    CommandView::Ignore { tube: f[0] }
                } else {
                    CommandView::StatsTube { tube: f[0] }
                },
            )
        } else {
            Err(ParsingError::BadFormat)
        }
    } else if c == cmd_name_bury() {
        if f.len() == 2 && u64_field(f[0]) is Some && u32_field(f[1]) is Some {
            Ok(CommandView::Bury { id: u64_field(f[0]).unwrap(), pri: u32_field(f[1]).unwrap() })
        } else {
            Err(ParsingError::BadFormat)
        }
    } else if c == cmd_name_pause_tube() {
        if f.len() == 2 && is_name(f[0]) && u32_field(f[1]) is Some {
            Ok(CommandView::PauseTube { tube: f[0], delay: u32_field(f[1]).unwrap() })
        } else {
            Err(ParsingError::BadFormat)
        }
    } else if c == cmd_name_release() {
        if f.len() == 3 && u64_field(f[0]) is Some && u32_field(f[1]) is Some && u32_field(
            f[2],
        ) is Some {
            Ok(
                CommandView::Release {
                    id: u64_field(f[0]).unwrap(),
                    pri: u32_field(f[1]).unwrap(),
                    delay: u32_field(f[2]).unwrap(),
                },
            )
        } else {
            Err(ParsingError::BadFormat)
        }
    } else if c == cmd_name_put() {
        if f.len() == 4 && u32_field(f[0]) is Some && u32_field(f[1]) is Some && u32_field(
            f[2],
        ) is Some && u32_field(f[3]) is Some {
            Ok(
                CommandView::Put {
                    pri: u32_field(f[0]).unwrap(),
                    delay: u32_field(f[1]).unwrap(),
                    ttr: u32_field(f[2]).unwrap(),
                    n_bytes: u32_field(f[3]).unwrap(),
                },
            )
        } else {
            Err(ParsingError::BadFormat)
        }
    } else {
        Err(ParsingError::UnknownCommand)
    }
}


// ---------------------------------------------------------------------------
// Facts about the grammar.

proof fn lemma_token_len(s: Seq<u8>)
    ensures
        token_len(s) <= s.len(),
        forall|j: int| 0 <= j < token_len(s) ==> s[j] != SPACE,
        token_len(s) < s.len() ==> s[token_len(s) as int] == SPACE,
    decreases s.len(),
{
    if s.len() > 0 && s[0] != SPACE {
        lemma_token_len(s.drop_first());
        assert forall|j: int| 0 <= j < token_len(s) implies s[j] != SPACE by {
            if j > 0 {
                assert(s[j] == s.drop_first()[j - 1]);
            }
        }
    }
}

proof fn lemma_token_len_is(s: Seq<u8>, n: nat)
    requires
        n <= s.len(),
        forall|j: int| 0 <= j < n ==> s[j] != SPACE,
        n == s.len() || s[n as int] == SPACE,
    ensures
        token_len(s) == n,
    decreases n,
{
    if n > 0 {
        assert(s[0] != SPACE);
        assert forall|j: int| 0 <= j < n - 1 implies s.drop_first()[j] != SPACE by {
            assert(s.drop_first()[j] == s[j + 1]);
        }
        lemma_token_len_is(s.drop_first(), (n - 1) as nat);
    }
}

/// Taking the first token of `s` leaves its other tokens as the remaining
/// fields.
proof fn lemma_split_step(s: Seq<u8>)
    ensures
        split_tokens(s).len() >= 1,
        split_tokens(s)[0] == s.take(token_len(s) as int),
        split_tokens(s).drop_first() == remaining_fields(s.skip(token_len(s) as int)),
        s.skip(token_len(s) as int).len() == 0 || s.skip(token_len(s) as int)[0] == SPACE,
{
    lemma_token_len(s);
    let n = token_len(s);
    if n < s.len() {
        assert(s.skip(n as int).drop_first() =~= s.skip(n as int + 1));
        assert(split_tokens(s).drop_first() =~= split_tokens(s.skip(n as int + 1)));
    } else {
        assert(s.take(n as int) =~= s);
        assert(split_tokens(s).drop_first() =~= seq![]);
    }
}

proof fn lemma_split_nonempty(s: Seq<u8>)
    ensures
        split_tokens(s).len() >= 1,
{
    lemma_split_step(s);
}

proof fn lemma_digits_step(t: Seq<u8>, i: int)
    requires
        0 <= i < t.len(),
    ensures
        digits_value(t.take(i + 1)) == digits_value(t.take(i)) * 10 + (t[i] - ('0' as u8)) as nat,
{
    assert(t.take(i + 1).drop_last() =~= t.take(i));
}

proof fn lemma_digits_prefix(t: Seq<u8>, k: int)
    requires
        0 <= k <= t.len(),
        forall|i: int| 0 <= i < t.len() ==> is_digit(#[trigger] t[i]),
    ensures
        digits_value(t) >= digits_value(t.take(k)),
    decreases t.len(),
{
    if k == t.len() {
        assert(t.take(k) =~= t);
    } else {
        let d = t.drop_last();
        assert forall|i: int| 0 <= i < d.len() implies is_digit(#[trigger] d[i]) by {
            assert(d[i] == t[i]);
        }
        lemma_digits_prefix(d, k);
        assert(d.take(k) =~= t.take(k));
        assert(is_digit(t[t.len() - 1]));
    }
}

// ---------------------------------------------------------------------------
// The parser.

fn token_is(t: &[u8], name: &[char]) -> (r: bool)
    ensures
        r == (t@ == ascii(name@)),
{
    if t.len() != name.len() {
        assert(t@.len() != ascii(name@).len());
        return false;
    }
    let mut i: usize = 0;
    while i < t.len()
        invariant
            t@.len() == name@.len(),
            0 <= i <= t@.len(),
            forall|j: int| 0 <= j < i ==> t@[j] == name@[j] as u8,
        decreases t@.len() - i,
    {
        if t[i] != name[i] as u8 {
            assert(t@[i as int] != ascii(name@)[i as int]);
            return false;
        }
        i += 1;
    }
    assert(t@ =~= ascii(name@));
    true
}

/// Whether `c` may stand in a tube name.
fn char_is_name_safe(c: u8, is_first: bool) -> (r: bool)
    ensures
        r == name_char(c, is_first),
{
    if ('a' as u8) <= c && c <= ('z' as u8) {
        true
    } else if ('A' as u8) <= c && c <= ('Z' as u8) {
        true
    } else if ('0' as u8) <= c && c <= ('9' as u8) {
        true
    } else if c == '+' as u8 || c == '/' as u8 || c == ';' as u8 || c == '.' as u8 || c == '$' as u8
        || c == '_' as u8 || c == '(' as u8 || c == ')' as u8 {
        true
    } else if c == '-' as u8 {
        // `-` is only name safe outside the first position
        !is_first
    } else {
        false
    }
}

/// A zero-copy cursor over a command line.
pub struct ParseState<'a> {
    pub from: &'a [u8],
}

impl<'a> ParseState<'a> {
    /// The cursor is at the end of the line or at the space before a field.
    pub open spec fn at_field(&self) -> bool {
        self.from@.len() == 0 || self.from@[0] == SPACE
    }

    /// The cursor stands at the space before a field.
    pub open spec fn field_start(&self) -> bool {
        self.from@.len() > 0 && self.from@[0] == SPACE
    }

    /// The fields that are still to be read.
    pub open spec fn fields(&self) -> Seq<Seq<u8>> {
        remaining_fields(self.from@)
    }

    /// A cursor at the start of `from`.
    pub fn from(from: &'a [u8]) -> (r: ParseState<'a>)
        ensures
            r.from@ == from@,
    {
        ParseState { from }
    }

    /// Returns `result` if the input is used up, and `BadFormat` otherwise.
    pub fn expect_done_and<R>(&self, result: R) -> (r: Result<R, ParsingError>)
        ensures
            r == (if self.from@.len() == 0 {
                Ok::<R, ParsingError>(result)
            } else {
                Err(ParsingError::BadFormat)
            }),
    {
        if self.from.len() == 0 {
            Ok(result)
        } else {
            Err(ParsingError::BadFormat)
        }
    }

    /// Consumes input up to a space byte or the end of the input, and returns
    /// it; `None` at the end of the input. At a space it returns an empty
    /// token.
    pub fn next_token(&mut self) -> (r: Option<&'a [u8]>)
        ensures
            old(self).from@.len() == 0 ==> r is None,
            old(self).from@.len() > 0 ==> r is Some && r->0@ == old(self).from@.take(
                token_len(old(self).from@) as int,
            ),
            final(self).from@ == old(self).from@.skip(token_len(old(self).from@) as int),
    {
        proof {
            lemma_token_len(self.from@);
        }
        if self.from.len() == 0 {
            assert(self.from@.skip(0) =~= self.from@);
            return None;
        }
        let mut idx: usize = 0;
        while idx < self.from.len() && self.from[idx] != SPACE
            invariant
                0 <= idx <= self.from@.len(),
                forall|j: int| 0 <= j < idx ==> self.from@[j] != SPACE,
            decreases self.from@.len() - idx,
        {
            idx += 1;
        }
        proof {
            lemma_token_len_is(self.from@, idx as nat);
        }
        let (token, rest) = self.from.split_at(idx);
        self.from = rest;
        Some(token)
    }

    /// Consumes a space.
    pub fn expect_space(&mut self) -> (r: Result<(), ParsingError>)
        ensures
            r is Ok <==> old(self).from@.len() > 0 && old(self).from@[0] == SPACE,
            r is Ok ==> final(self).from@ == old(self).from@.drop_first(),
            r is Err ==> r == Err::<(), ParsingError>(ParsingError::BadFormat) && final(self).from@
                == old(self).from@,
    {
        if self.from.len() > 0 && self.from[0] == SPACE {
            let (_, rest) = self.from.split_at(1);
            self.from = rest;
            Ok(())
        } else {
            Err(ParsingError::BadFormat)
        }
    }

    /// Consumes a token of non-zero length.
    pub fn expect_next_token(&mut self) -> (r: Result<&'a [u8], ParsingError>)
        ensures
            final(self).from@ == old(self).from@.skip(token_len(old(self).from@) as int),
            match r {
                Ok(t) => token_len(old(self).from@) > 0 && t@ == old(self).from@.take(
                    token_len(old(self).from@) as int,
                ),
                Err(e) => e == ParsingError::BadFormat && token_len(old(self).from@) == 0,
            },
    {
        proof {
            lemma_token_len(self.from@);
        }
        let token = match self.next_token() {
            Some(t) => t,
            None => return Err(ParsingError::BadFormat),
        };
        if token.len() == 0 {
            Err(ParsingError::BadFormat)
        } else {
            Ok(token)
        }
    }

    /// Consumes a space and the first token after it, which is the first of
    /// the remaining fields.
    fn next_field(&mut self) -> (r: Result<&'a [u8], ParsingError>)
        ensures
            match r {
                Ok(t) => {
                    &&& old(self).field_start()
                    &&& old(self).fields().len() > 0
                    &&& t@ == old(self).fields()[0]
                    &&& t@.len() > 0
                    &&& final(self).at_field()
                    &&& final(self).fields() == old(self).fields().drop_first()
                    &&& final(self).from@ == old(self).from@.skip(1 + t@.len() as int)
                },
                Err(e) => e == ParsingError::BadFormat && !(old(self).field_start() && old(
                    self,
                ).fields().len() > 0 && old(self).fields()[0].len() > 0),
            },
    {
        self.expect_space()?;
        let ghost f1 = self.from@;
        proof {
            lemma_split_step(f1);
            lemma_token_len(f1);
        }
        let t = self.expect_next_token()?;
        assert(t@.len() == token_len(f1));
        assert(f1 == old(self).from@.drop_first());
        assert(self.from@ =~= old(self).from@.skip(1 + t@.len() as int));
        Ok(t)
    }

    /// Consumes a space then a number that fits in 32 bits.
    pub fn expect_next_u32(&mut self) -> (r: Result<u32, ParsingError>)
        ensures
            match r {
                Ok(v) => {
                    &&& old(self).field_start()
                    &&& old(self).fields().len() > 0
                    &&& u32_field(old(self).fields()[0]) == Some(v)
                    &&& final(self).from@ == old(self).from@.skip(1 + old(self).fields()[0].len() as int)
                    &&& final(self).at_field()
                    &&& final(self).fields() == old(self).fields().drop_first()
                },
                Err(e) => e == ParsingError::BadFormat && !(old(self).field_start() && old(self).fields().len() > 0
                    && u32_field(old(self).fields()[0]) is Some),
            },
    {
        let token = self.next_field()?;
        let mut r: u32 = 0;
        let mut i: usize = 0;
        while i < token.len()
            invariant
                old(self).field_start(),
                old(self).fields().len() > 0,
                token@ == old(self).fields()[0],
                self.from@ == old(self).from@.skip(1 + old(self).fields()[0].len() as int),
                self.at_field(),
                self.fields() == old(self).fields().drop_first(),
                0 <= i <= token@.len(),
                forall|j: int| 0 <= j < i ==> is_digit(#[trigger] token@[j]),
                r == digits_value(token@.take(i as int)),
            decreases token@.len() - i,
        {
            let v = token[i];
            if !(('0' as u8) <= v && v <= ('9' as u8)) {
                assert(!is_digit(token@[i as int]));
                return Err(ParsingError::BadFormat);
            }
            proof {
                lemma_digits_step(token@, i as int);
            }
            let next = match r.checked_mul(10) {
                Some(m) => m.checked_add((v - ('0' as u8)) as u32),
                None => None,
            };
            match next {
                Some(n) => {
                    r = n;
                },
                None => {
                    proof {
                        if is_digits(token@) {
                            lemma_digits_prefix(token@, i as int + 1);
                        }
                    }
                    return Err(ParsingError::BadFormat);
                },
            }
            i += 1;
        }
        assert(token@.take(i as int) =~= token@);
        Ok(r)
    }

    /// Consumes a space then a number that fits in 64 bits.
    pub fn expect_next_u64(&mut self) -> (r: Result<u64, ParsingError>)
        ensures
            match r {
                Ok(v) => {
                    &&& old(self).field_start()
                    &&& old(self).fields().len() > 0
                    &&& u64_field(old(self).fields()[0]) == Some(v)
                    &&& final(self).from@ == old(self).from@.skip(1 + old(self).fields()[0].len() as int)
                    &&& final(self).at_field()
                    &&& final(self).fields() == old(self).fields().drop_first()
                },
                Err(e) => e == ParsingError::BadFormat && !(old(self).field_start() && old(self).fields().len() > 0
                    && u64_field(old(self).fields()[0]) is Some),
            },
    {
        let token = self.next_field()?;
        let mut r: u64 = 0;
        let mut i: usize = 0;
        while i < token.len()
            invariant
                old(self).field_start(),
                old(self).fields().len() > 0,
                token@ == old(self).fields()[0],
                self.from@ == old(self).from@.skip(1 + old(self).fields()[0].len() as int),
                self.at_field(),
                self.fields() == old(self).fields().drop_first(),
                0 <= i <= token@.len(),
                forall|j: int| 0 <= j < i ==> is_digit(#[trigger] token@[j]),
                r == digits_value(token@.take(i as int)),
            decreases token@.len() - i,
        {
            let v = token[i];
            if !(('0' as u8) <= v && v <= ('9' as u8)) {
                assert(!is_digit(token@[i as int]));
                return Err(ParsingError::BadFormat);
            }
            proof {
                lemma_digits_step(token@, i as int);
            }
            let next = match r.checked_mul(10) {
                Some(m) => m.checked_add((v - ('0' as u8)) as u64),
                None => None,
            };
            match next {
                Some(n) => {
                    r = n;
                },
                None => {
                    proof {
                        if is_digits(token@) {
                            lemma_digits_prefix(token@, i as int + 1);
                        }
                    }
                    return Err(ParsingError::BadFormat);
                },
            }
            i += 1;
        }
        assert(token@.take(i as int) =~= token@);
        Ok(r)
    }

    /// Consumes a space then a tube name.
    pub fn expect_next_name(&mut self) -> (r: Result<Vec<u8>, ParsingError>)
        ensures
            match r {
                Ok(v) => {
                    &&& old(self).field_start()
                    &&& old(self).fields().len() > 0
                    &&& is_name(old(self).fields()[0])
                    &&& final(self).from@ == old(self).from@.skip(1 + old(self).fields()[0].len() as int)
                    &&& v@ == old(self).fields()[0]
                    &&& final(self).at_field()
                    &&& final(self).fields() == old(self).fields().drop_first()
                },
                Err(e) => e == ParsingError::BadFormat && !(old(self).field_start() && old(self).fields().len() > 0
                    && is_name(old(self).fields()[0])),
            },
    {
        let token = self.next_field()?;
        let mut i: usize = 0;
        while i < token.len()
            invariant
                old(self).field_start(),
                old(self).fields().len() > 0,
                token@ == old(self).fields()[0],
                self.from@ == old(self).from@.skip(1 + old(self).fields()[0].len() as int),
                self.at_field(),
                self.fields() == old(self).fields().drop_first(),
                0 <= i <= token@.len(),
                forall|j: int| 0 <= j < i ==> name_char(#[trigger] token@[j], j == 0),
            decreases token@.len() - i,
        {
            if !char_is_name_safe(token[i], i == 0) {
                assert(!name_char(token@[i as int], i == 0));
                return Err(ParsingError::BadFormat);
            }
            i += 1;
        }
        if token.len() <= 200 {
            Ok(vstd::slice::slice_to_vec(token))
        } else {
            Err(ParsingError::BadFormat)
        }
    }
}

impl BeanstalkCommand {
    /// Parses one command line, without its CRLF.
    pub fn parse(value: &[u8]) -> (r: Result<BeanstalkCommand, ParsingError>)
        ensures
            match r {
                Ok(c) => parse_model(value@) == Ok::<CommandView, ParsingError>(c@),
                Err(e) => parse_model(value@) == Err::<CommandView, ParsingError>(e),
            },
    {
        let mut ps = ParseState::from(value);
        proof {
            lemma_split_step(value@);
            lemma_split_nonempty(value@);
        }
        let name = ps.expect_next_token()?;
        proof {
            let rest = ps.from@;
            if rest.len() > 0 {
                lemma_split_nonempty(rest.drop_first());
            }
        }
        let cmd = if token_is(name, &['l', 'i', 's', 't', '-', 't', 'u', 'b', 'e', '-', 'u', 's', 'e', 'd']) {
            BeanstalkCommand::ListTubeUsed
        } else if token_is(name, &['l', 'i', 's', 't', '-', 't', 'u', 'b', 'e', 's', '-', 'w', 'a', 't', 'c', 'h', 'e', 'd']) {
            BeanstalkCommand::ListTubesWatched
        } else if token_is(name, &['l', 'i', 's', 't', '-', 't', 'u', 'b', 'e', 's']) {
            BeanstalkCommand::ListTubes
        } else if token_is(name, &['p', 'e', 'e', 'k', '-', 'b', 'u', 'r', 'i', 'e', 'd']) {
            BeanstalkCommand::PeekBuried
        } else if token_is(name, &['p', 'e', 'e', 'k', '-', 'd', 'e', 'l', 'a', 'y', 'e', 'd']) {
            BeanstalkCommand::PeekDelayed
        } else if token_is(name, &['p', 'e', 'e', 'k', '-', 'r', 'e', 'a', 'd', 'y']) {
            BeanstalkCommand::PeekReady
        } else if token_is(name, &['q', 'u', 'i', 't']) {
            BeanstalkCommand::Quit
        } else if token_is(name, &['r', 'e', 's', 'e', 'r', 'v', 'e']) {
            BeanstalkCommand::Reserve
        } else if token_is(name, &['s', 't', 'a', 't', 's']) {
            BeanstalkCommand::StatsServer
        } else if token_is(name, &['d', 'e', 'l', 'e', 't', 'e']) {
            BeanstalkCommand::Delete { id: ps.expect_next_u64()? }
        } else if token_is(name, &['k', 'i', 'c', 'k']) {
            BeanstalkCommand::Kick { bound: ps.expect_next_u64()? }
        } else if token_is(name, &['k', 'i', 'c', 'k', '-', 'j', 'o', 'b']) {
            BeanstalkCommand::KickJob { id: ps.expect_next_u64()? }
        } else if token_is(name, &['p', 'e', 'e', 'k']) {
            BeanstalkCommand::Peek { id: ps.expect_next_u64()? }
        } else if token_is(name, &['r', 'e', 's', 'e', 'r', 'v', 'e', '-', 'j', 'o', 'b']) {
            BeanstalkCommand::ReserveJob { id: ps.expect_next_u64()? }
        } else if token_is(name, &['s', 't', 'a', 't', 's', '-', 'j', 'o', 'b']) {
            BeanstalkCommand::StatsJob { id: ps.expect_next_u64()? }
        } else if token_is(name, &['t', 'o', 'u', 'c', 'h']) {
            BeanstalkCommand::Touch { id: ps.expect_next_u64()? }
        } else if token_is(name, &['r', 'e', 's', 'e', 'r', 'v', 'e', '-', 'w', 'i', 't', 'h', '-', 't', 'i', 'm', 'e', 'o', 'u', 't']) {
            BeanstalkCommand::ReserveWithTimeout { timeout: ps.expect_next_u32()? }
        } else if token_is(name, &['u', 's', 'e']) {
            BeanstalkCommand::Use { tube: ps.expect_next_name()? }
        } else if token_is(name, &['w', 'a', 't', 'c', 'h']) {
            BeanstalkCommand::Watch { tube: ps.expect_next_name()? }
        } else if token_is(name, &['i', 'g', 'n', 'o', 'r', 'e']) {
            BeanstalkCommand::Ignore { tube: ps.expect_next_name()? }
        } else if token_is(name, &['s', 't', 'a', 't', 's', '-', 't', 'u', 'b', 'e']) {
            BeanstalkCommand::StatsTube { tube: ps.expect_next_name()? }
        } else if token_is(name, &['b', 'u', 'r', 'y']) {
            {
                let id = ps.expect_next_u64()?;
                let pri = ps.expect_next_u32()?;
                BeanstalkCommand::Bury { id, pri }
            }
        } else if token_is(name, &['p', 'a', 'u', 's', 'e', '-', 't', 'u', 'b', 'e']) {
            {
                let tube = ps.expect_next_name()?;
                let delay = ps.expect_next_u32()?;
                BeanstalkCommand::PauseTube { tube, delay }
            }
        } else if token_is(name, &['r', 'e', 'l', 'e', 'a', 's', 'e']) {
            {
                let id = ps.expect_next_u64()?;
                let pri = ps.expect_next_u32()?;
                let delay = ps.expect_next_u32()?;
                BeanstalkCommand::Release { id, pri, delay }
            }
        } else if token_is(name, &['p', 'u', 't']) {
            {
                let pri = ps.expect_next_u32()?;
                let delay = ps.expect_next_u32()?;
                let ttr = ps.expect_next_u32()?;
                let n_bytes = ps.expect_next_u32()?;
                BeanstalkCommand::Put { pri, delay, ttr, n_bytes }
            }
        } else {
            return Err(ParsingError::UnknownCommand);
        };
        proof {
            if ps.from@.len() > 0 {
                lemma_split_nonempty(ps.from@.drop_first());
            }
        }
        ps.expect_done_and(cmd)
    }
}

// ---------------------------------------------------------------------------
// Numeric fields written in decimal read back as the same numbers.

/// The text ` f0 f1 ...` that follows a command name.
pub open spec fn fields_suffix(f: Seq<Seq<u8>>) -> Seq<u8>
    decreases f.len(),
{
    if f.len() == 0 {
        seq![]
    } else {
        seq![SPACE] + f[0] + fields_suffix(f.drop_first())
    }
}

pub open spec fn space_free(t: Seq<u8>) -> bool {
    forall|i: int| 0 <= i < t.len() ==> #[trigger] t[i] != SPACE
}

proof fn lemma_split_single(a: Seq<u8>)
    requires
        space_free(a),
    ensures
        split_tokens(a) == seq![a],
{
    lemma_token_len_is(a, a.len());
}

proof fn lemma_split_prefix(a: Seq<u8>, b: Seq<u8>)
    requires
        space_free(a),
    ensures
        split_tokens(a + seq![SPACE] + b) == seq![a] + split_tokens(b),
{
    let s = a + seq![SPACE] + b;
    assert(s[a.len() as int] == SPACE);
    assert forall|j: int| 0 <= j < a.len() implies s[j] != SPACE by {
        assert(s[j] == a[j]);
    }
    lemma_token_len_is(s, a.len());
    assert(s.take(a.len() as int) =~= a);
    assert(s.skip(a.len() as int + 1) =~= b);
}

/// A line made of space-free tokens splits back into those tokens.
proof fn lemma_split_join(name: Seq<u8>, f: Seq<Seq<u8>>)
    requires
        space_free(name),
        forall|i: int| 0 <= i < f.len() ==> space_free(#[trigger] f[i]),
    ensures
        split_tokens(name + fields_suffix(f)) == seq![name] + f,
    decreases f.len(),
{
    if f.len() == 0 {
        assert(name + fields_suffix(f) =~= name);
        lemma_split_single(name);
        assert(seq![name] + f =~= seq![name]);
    } else {
        let rest = f.drop_first();
        assert forall|i: int| 0 <= i < rest.len() implies space_free(#[trigger] rest[i]) by {
            assert(rest[i] == f[i + 1]);
        }
        lemma_split_join(f[0], rest);
        assert(name + fields_suffix(f) =~= name + seq![SPACE] + (f[0] + fields_suffix(rest)));
        lemma_split_prefix(name, f[0] + fields_suffix(rest));
        assert(seq![name] + (seq![f[0]] + rest) =~= seq![name] + f);
    }
}

/// The decimal form of a number is a run of digits that denotes it.
pub proof fn lemma_decimal_digits(n: nat)
    ensures
        is_digits(decimal(n)),
        space_free(decimal(n)),
        digits_value(decimal(n)) == n,
    decreases n,
{
    if n >= 10 {
        lemma_decimal_digits(n / 10);
        let d = decimal(n);
        assert(d.drop_last() =~= decimal(n / 10));
        assert(d.last() == ('0' as u8 + n % 10) as u8);
        assert(n == (n / 10) * 10 + n % 10);
        assert forall|i: int| 0 <= i < d.len() implies is_digit(#[trigger] d[i]) by {
            if i < d.len() - 1 {
                assert(d[i] == decimal(n / 10)[i]);
            }
        }
    } else {
        assert(decimal(n).drop_last() =~= seq![]);
        assert(digits_value(seq![]) == 0);
    }
}

/// A number written in decimal reads back as a 32-bit field exactly when it
/// fits in 32 bits, and likewise for 64 bits.
pub proof fn law_numeric_field_round_trip(n: nat)
    ensures
        u32_field(decimal(n)) == (if n <= u32::MAX {
            Some(n as u32)
        } else {
            None
        }),
        u64_field(decimal(n)) == (if n <= u64::MAX {
            Some(n as u64)
        } else {
            None
        }),
{
    lemma_decimal_digits(n);
}


/// `put` with its four numbers written in decimal parses back to those
/// numbers when each fits in 32 bits; any number out of range gives
/// `BadFormat`.
pub proof fn law_put_round_trip(pri: nat, delay: nat, ttr: nat, n_bytes: nat)
    ensures
        parse_model(
            cmd_name_put() + fields_suffix(
                seq![decimal(pri), decimal(delay), decimal(ttr), decimal(n_bytes)],
            ),
        ) == (if pri <= u32::MAX && delay <= u32::MAX && ttr <= u32::MAX && n_bytes <= u32::MAX {
            Ok::<CommandView, ParsingError>(
                CommandView::Put {
                    pri: pri as u32,
                    delay: delay as u32,
                    ttr: ttr as u32,
                    n_bytes: n_bytes as u32,
                },
            )
        } else {
            Err(ParsingError::BadFormat)
        }),
{
    let f = seq![decimal(pri), decimal(delay), decimal(ttr), decimal(n_bytes)];
    lemma_decimal_digits(pri);
    lemma_decimal_digits(delay);
    lemma_decimal_digits(ttr);
    lemma_decimal_digits(n_bytes);
    assert forall|i: int| 0 <= i < 3 implies #[trigger] cmd_name_put()[i] != SPACE by {
        assert(i == 0 || i == 1 || i == 2);
    }
    assert forall|i: int| 0 <= i < f.len() implies space_free(#[trigger] f[i]) by {
        assert(f[i] == decimal(pri) || f[i] == decimal(delay) || f[i] == decimal(ttr) || f[i]
            == decimal(n_bytes));
    }
    lemma_split_join(cmd_name_put(), f);
    assert(cmd_name_put()[0] != cmd_name_use()[0]);
    assert((seq![cmd_name_put()] + f).drop_first() =~= f);
}

/// `release` with its id, priority and delay written in decimal parses back
/// to those numbers when the id fits in 64 bits and the others in 32 bits;
/// any number out of range gives `BadFormat`.
pub proof fn law_release_round_trip(id: nat, pri: nat, delay: nat)
    ensures
        parse_model(
            cmd_name_release() + fields_suffix(seq![decimal(id), decimal(pri), decimal(delay)]),
        ) == (if id <= u64::MAX && pri <= u32::MAX && delay <= u32::MAX {
            Ok::<CommandView, ParsingError>(
                CommandView::Release { id: id as u64, pri: pri as u32, delay: delay as u32 },
            )
        } else {
            Err(ParsingError::BadFormat)
        }),
{
    let f = seq![decimal(id), decimal(pri), decimal(delay)];
    lemma_decimal_digits(id);
    lemma_decimal_digits(pri);
    lemma_decimal_digits(delay);
    assert forall|i: int| 0 <= i < 7 implies #[trigger] cmd_name_release()[i] != SPACE by {
        assert(0 <= i < 7);
    }
    assert forall|i: int| 0 <= i < f.len() implies space_free(#[trigger] f[i]) by {
        assert(f[i] == decimal(id) || f[i] == decimal(pri) || f[i] == decimal(delay));
    }
    lemma_split_join(cmd_name_release(), f);
    assert(cmd_name_release()[2] != cmd_name_reserve()[2]);
    assert((seq![cmd_name_release()] + f).drop_first() =~= f);
}

// ---------------------------------------------------------------------------
// Command names.

/// The bytes of `list-tube-used`.
pub open spec fn cmd_name_list_tube_used() -> Seq<u8> {
    ascii(seq!['l', 'i', 's', 't', '-', 't', 'u', 'b', 'e', '-', 'u', 's', 'e', 'd'])
}

/// The bytes of `list-tubes-watched`.
pub open spec fn cmd_name_list_tubes_watched() -> Seq<u8> {
    ascii(seq!['l', 'i', 's', 't', '-', 't', 'u', 'b', 'e', 's', '-', 'w', 'a', 't', 'c', 'h', 'e', 'd'])
}

/// The bytes of `list-tubes`.
pub open spec fn cmd_name_list_tubes() -> Seq<u8> {
    ascii(seq!['l', 'i', 's', 't', '-', 't', 'u', 'b', 'e', 's'])
}

/// The bytes of `peek-buried`.
pub open spec fn cmd_name_peek_buried() -> Seq<u8> {
    ascii(seq!['p', 'e', 'e', 'k', '-', 'b', 'u', 'r', 'i', 'e', 'd'])
}

/// The bytes of `peek-delayed`.
pub open spec fn cmd_name_peek_delayed() -> Seq<u8> {
    ascii(seq!['p', 'e', 'e', 'k', '-', 'd', 'e', 'l', 'a', 'y', 'e', 'd'])
}

/// The bytes of `peek-ready`.
pub open spec fn cmd_name_peek_ready() -> Seq<u8> {
    ascii(seq!['p', 'e', 'e', 'k', '-', 'r', 'e', 'a', 'd', 'y'])
}

/// The bytes of `quit`.
pub open spec fn cmd_name_quit() -> Seq<u8> {
    ascii(seq!['q', 'u', 'i', 't'])
}

/// The bytes of `reserve`.
pub open spec fn cmd_name_reserve() -> Seq<u8> {
    ascii(seq!['r', 'e', 's', 'e', 'r', 'v', 'e'])
}

/// The bytes of `stats`.
pub open spec fn cmd_name_stats() -> Seq<u8> {
    ascii(seq!['s', 't', 'a', 't', 's'])
}

/// The bytes of `delete`.
pub open spec fn cmd_name_delete() -> Seq<u8> {
    ascii(seq!['d', 'e', 'l', 'e', 't', 'e'])
}

/// The bytes of `kick`.
pub open spec fn cmd_name_kick() -> Seq<u8> {
    ascii(seq!['k', 'i', 'c', 'k'])
}

/// The bytes of `kick-job`.
pub open spec fn cmd_name_kick_job() -> Seq<u8> {
    ascii(seq!['k', 'i', 'c', 'k', '-', 'j', 'o', 'b'])
}

/// The bytes of `peek`.
pub open spec fn cmd_name_peek() -> Seq<u8> {
    ascii(seq!['p', 'e', 'e', 'k'])
}

/// The bytes of `reserve-job`.
pub open spec fn cmd_name_reserve_job() -> Seq<u8> {
    ascii(seq!['r', 'e', 's', 'e', 'r', 'v', 'e', '-', 'j', 'o', 'b'])
}

/// The bytes of `stats-job`.
pub open spec fn cmd_name_stats_job() -> Seq<u8> {
    ascii(seq!['s', 't', 'a', 't', 's', '-', 'j', 'o', 'b'])
}

/// The bytes of `touch`.
pub open spec fn cmd_name_touch() -> Seq<u8> {
    ascii(seq!['t', 'o', 'u', 'c', 'h'])
}

/// The bytes of `reserve-with-timeout`.
pub open spec fn cmd_name_reserve_with_timeout() -> Seq<u8> {
    ascii(seq!['r', 'e', 's', 'e', 'r', 'v', 'e', '-', 'w', 'i', 't', 'h', '-', 't', 'i', 'm', 'e', 'o', 'u', 't'])
}

/// The bytes of `use`.
pub open spec fn cmd_name_use() -> Seq<u8> {
    ascii(seq!['u', 's', 'e'])
}

/// The bytes of `watch`.
pub open spec fn cmd_name_watch() -> Seq<u8> {
    ascii(seq!['w', 'a', 't', 'c', 'h'])
}

/// The bytes of `ignore`.
pub open spec fn cmd_name_ignore() -> Seq<u8> {
    ascii(seq!['i', 'g', 'n', 'o', 'r', 'e'])
}

/// The bytes of `stats-tube`.
pub open spec fn cmd_name_stats_tube() -> Seq<u8> {
    ascii(seq!['s', 't', 'a', 't', 's', '-', 't', 'u', 'b', 'e'])
}

/// The bytes of `bury`.
pub open spec fn cmd_name_bury() -> Seq<u8> {
    ascii(seq!['b', 'u', 'r', 'y'])
}

/// The bytes of `pause-tube`.
pub open spec fn cmd_name_pause_tube() -> Seq<u8> {
    ascii(seq!['p', 'a', 'u', 's', 'e', '-', 't', 'u', 'b', 'e'])
}

/// The bytes of `release`.
pub open spec fn cmd_name_release() -> Seq<u8> {
    ascii(seq!['r', 'e', 'l', 'e', 'a', 's', 'e'])
}

/// The bytes of `put`.
pub open spec fn cmd_name_put() -> Seq<u8> {
    ascii(seq!['p', 'u', 't'])
}

} // verus!
