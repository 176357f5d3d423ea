//! Rendering of raw command bytes for the logs.
use vstd::prelude::*;

verus! {

/// A lowercase hexadecimal digit.
pub open spec fn hex_digit(n: u8) -> u8 {
    if n < 10 {
        ('0' as u8 + n) as u8
    } else {
        ('a' as u8 + n - 10) as u8
    }
}

/// How `std::ascii::escape_default` writes one byte: `\t`, `\r`, `\n`,
/// `\'`, `\"` and `\\` for those six, printable ASCII as it is, and `\xNN`
/// for the rest.
pub open spec fn escape_byte(c: u8) -> Seq<u8> {
    let bs = '\\' as u8;
    if c == '\t' as u8 {
        seq![bs, 't' as u8]
    } else if c == '\r' as u8 {
        seq![bs, 'r' as u8]
    } else if c == '\n' as u8 {
        seq![bs, 'n' as u8]
    } else if c == '\'' as u8 || c == '"' as u8 || c == bs {
        seq![bs, c]
    } else if 0x20 <= c <= 0x7e {
        seq![c]
    } else {
        seq![bs, 'x' as u8, hex_digit(c / 16), hex_digit(c % 16)]
    }
}

/// Every byte of `s` escaped.
pub open spec fn escaped(s: Seq<u8>) -> Seq<u8>
    decreases s.len(),
{
    if s.len() == 0 {
        seq![]
    } else {
        escaped(s.drop_last()) + escape_byte(s.last())
    }
}

/// The characters of an ASCII byte string.
pub open spec fn ascii_chars(b: Seq<u8>) -> Seq<char> {
    Seq::new(b.len(), |i: int| b[i] as char)
}

/// Relies on `String::from_utf8`: ASCII bytes are valid UTF-8, one character
/// per byte.
#[verifier::external_body]
fn ascii_string(b: Vec<u8>) -> (r: String)
    requires
        forall|i: int| 0 <= i < b@.len() ==> b@[i] < 128,
    ensures
        r@ == ascii_chars(b@),
{
    String::from_utf8(b).unwrap()
}

fn push_hex_digit(out: &mut Vec<u8>, n: u8)
    requires
        n < 16,
    ensures
        final(out)@ == old(out)@.push(hex_digit(n)),
{
    if n < 10 {
        out.push('0' as u8 + n);
    } else {
        out.push('a' as u8 + n - 10);
    }
}

/// Appends `escape_byte(c)` to `out`.
fn push_escaped(out: &mut Vec<u8>, c: u8)
    ensures
        final(out)@ == old(out)@ + escape_byte(c),
{
    let bs = '\\' as u8;
    if c == '\t' as u8 {
        out.push(bs);
        out.push('t' as u8);
    } else if c == '\r' as u8 {
        out.push(bs);
        out.push('r' as u8);
    } else if c == '\n' as u8 {
        out.push(bs);
        out.push('n' as u8);
    } else if c == '\'' as u8 || c == '"' as u8 || c == bs {
        out.push(bs);
        out.push(c);
    } else if 0x20 <= c && c <= 0x7e {
        out.push(c);
    } else {
        out.push(bs);
        out.push('x' as u8);
        push_hex_digit(out, c / 16);
        push_hex_digit(out, c % 16);
    }
    assert(out@ =~= old(out)@ + escape_byte(c));
}

proof fn lemma_escaped_ascii(s: Seq<u8>)
    ensures
        forall|i: int| 0 <= i < escaped(s).len() ==> #[trigger] escaped(s)[i] < 128,
    decreases s.len(),
{
    if s.len() > 0 {
        lemma_escaped_ascii(s.drop_last());
        let e = escape_byte(s.last());
        assert(forall|i: int| 0 <= i < e.len() ==> #[trigger] e[i] < 128);
        assert forall|i: int| 0 <= i < escaped(s).len() implies #[trigger] escaped(s)[i] < 128 by {
            let p = escaped(s.drop_last());
            if i >= p.len() {
                assert(escaped(s)[i] == e[i - p.len()]);
            } else {
                assert(escaped(s)[i] == p[i]);
            }
        }
    }
}

/// The bytes of a command line with every byte escaped as
/// `std::ascii::escape_default` does, for the logs.
pub fn bytes_to_human_str(input: &[u8]) -> (r: String)
    ensures
        r@ == ascii_chars(escaped(input@)),
{
    let mut out: Vec<u8> = Vec::new();
    let mut i: usize = 0;
    while i < input.len()
        invariant
            0 <= i <= input@.len(),
            out@ == escaped(input@.take(i as int)),
        decreases input@.len() - i,
    {
        push_escaped(&mut out, input[i]);
        assert(input@.take(i as int + 1).drop_last() =~= input@.take(i as int));
        i += 1;
    }
    assert(input@.take(i as int) =~= input@);
    proof {
        lemma_escaped_ascii(input@);
    }
    ascii_string(out)
}

} // verus!
