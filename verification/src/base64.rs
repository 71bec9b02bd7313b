//! Standard base64 (RFC 4648, with `=` padding), used to embed font files
//! in the error pages.

use vstd::prelude::*;

use crate::text::push_char;

verus! {

/// The base64 alphabet: `A`-`Z`, `a`-`z`, `0`-`9`, `+`, `/`.
pub open spec fn b64_symbol(i: int) -> char {
    if i < 26 {
        (i + 65) as char
    } else if i < 52 {
        (i + 71) as char
    } else if i < 62 {
        (i - 4) as char
    } else if i == 62 {
        '+'
    } else {
        '/'
    }
}

/// The four characters that encode a group of `k` bytes (`1 <= k <= 3`),
/// the missing bytes counted as zero and their characters replaced by `=`.
pub open spec fn b64_group(b0: u8, b1: u8, b2: u8, k: int) -> Seq<char> {
    let n = b0 as int * 65536 + b1 as int * 256 + b2 as int;
    seq![
        b64_symbol((n / 262144) % 64),
        b64_symbol((n / 4096) % 64),
        if k > 1 {
            b64_symbol((n / 64) % 64)
        } else {
            '='
        },
        if k > 2 {
            b64_symbol(n % 64)
        } else {
            '='
        },
    ]
}

/// The base64 encoding of `bytes`: each group of three bytes in turn, the
/// last group padded.
pub open spec fn base64(bytes: Seq<u8>) -> Seq<char>
    decreases bytes.len(),
{
    if bytes.len() == 0 {
        Seq::empty()
    } else if bytes.len() == 1 {
        b64_group(bytes[0], 0, 0, 1)
    } else if bytes.len() == 2 {
        b64_group(bytes[0], bytes[1], 0, 2)
    } else {
        b64_group(bytes[0], bytes[1], bytes[2], 3) + base64(bytes.skip(3))
    }
}

/// The base64 encoding is four characters for every started group of three
/// bytes.
pub proof fn lemma_base64_len(bytes: Seq<u8>)
    ensures
        base64(bytes).len() == 4 * ((bytes.len() + 2) / 3),
    decreases bytes.len(),
{
    if bytes.len() >= 3 {
        lemma_base64_len(bytes.skip(3));
        assert((bytes.len() + 2) / 3 == (bytes.len() - 3 + 2) / 3 + 1);
    }
}

/// The character for symbol `i` of the alphabet.
fn symbol(i: u32) -> (c: char)
    requires
        i < 64,
    ensures
        c == b64_symbol(i as int),
{
    let b = i as u8;
    if b < 26 {
        (b + 65) as char
    } else if b < 52 {
        (b + 71) as char
    } else if b < 62 {
        (b - 4) as char
    } else if b == 62 {
        '+'
    } else {
        '/'
    }
}

/// Encodes `bytes` in standard base64 with padding.
pub fn base64_encode(bytes: &[u8]) -> (out: String)
    ensures
        out@ == base64(bytes@),
        out@.len() == 4 * ((bytes@.len() + 2) / 3),
{
    let mut out = String::new();
    let len = bytes.len();
    let mut i: usize = 0;
    assert(bytes@.skip(0) =~= bytes@);
    while i < len
        invariant
            len == bytes@.len(),
            i <= len,
            base64(bytes@) == out@ + base64(bytes@.skip(i as int)),
        decreases len - i,
    {
        let rest = len - i;
        let b0 = bytes[i];
        let b1: u8 = if rest > 1 {
            bytes[i + 1]
        } else {
            0
        };
        let b2: u8 = if rest > 2 {
            bytes[i + 2]
        } else {
            0
        };
        let n: u32 = (b0 as u32) * 65536 + (b1 as u32) * 256 + (b2 as u32);
        let ghost s = bytes@.skip(i as int);
        let ghost k: int = if rest > 2 {
            3
        } else {
            rest as int
        };
        let ghost before = out@;
        push_char(&mut out, symbol((n / 262144) % 64));
        push_char(&mut out, symbol((n / 4096) % 64));
        if rest > 1 {
            push_char(&mut out, symbol((n / 64) % 64));
        } else {
            push_char(&mut out, '=');
        }
        if rest > 2 {
            push_char(&mut out, symbol(n % 64));
        } else {
            push_char(&mut out, '=');
        }
        assert(out@ =~= before + b64_group(b0, b1, b2, k));
        if rest > 2 {
            assert(s[0] == b0 && s[1] == b1 && s[2] == b2);
            assert(s.skip(3) =~= bytes@.skip(i + 3));
            assert(base64(s) == b64_group(b0, b1, b2, 3) + base64(s.skip(3)));
            i = i + 3;
        } else {
            assert(s[0] == b0);
            if rest > 1 {
                assert(s[1] == b1);
            }
            assert(bytes@.skip(len as int) =~= Seq::<u8>::empty());
            i = len;
        }
    }
    assert(out@ + Seq::<char>::empty() =~= out@);
    proof {
        lemma_base64_len(bytes@);
    }
    out
}

} // verus!

verus! {

// ---------------------------------------------------------------------------
// Decoding, and the law that decoding undoes encoding
// ---------------------------------------------------------------------------

/// The value of a base64 character (`=` and other characters count as 0).
pub open spec fn b64_value(c: char) -> int {
    if 'A' <= c && c <= 'Z' {
        c as int - 65
    } else if 'a' <= c && c <= 'z' {
        c as int - 71
    } else if '0' <= c && c <= '9' {
        c as int + 4
    } else if c == '+' {
        62
    } else if c == '/' {
        63
    } else {
        0
    }
}

/// The bytes a group of four characters stands for: three, or fewer when
/// the group ends in padding.
pub open spec fn decode_quad(g: Seq<char>) -> Seq<u8> {
    let n = b64_value(g[0]) * 262144 + b64_value(g[1]) * 4096 + b64_value(g[2]) * 64 + b64_value(
        g[3],
    );
    let bytes = seq![(n / 65536) as u8, ((n / 256) % 256) as u8, (n % 256) as u8];
    if g[2] == '=' {
        bytes.take(1)
    } else if g[3] == '=' {
        bytes.take(2)
    } else {
        bytes
    }
}

/// RFC 4648 base64 decoding of well-formed input, group by group.
pub open spec fn base64_decoded(s: Seq<char>) -> Seq<u8>
    decreases s.len(),
{
    if s.len() < 4 {
        Seq::empty()
    } else {
        decode_quad(s.take(4)) + base64_decoded(s.skip(4))
    }
}

proof fn lemma_symbol_value(i: int)
    requires
        0 <= i < 64,
    ensures
        b64_value(b64_symbol(i)) == i,
        b64_symbol(i) != '=',
{
}

proof fn lemma_quad_arith(b0: u32, b1: u32, b2: u32)
    by (bit_vector)
    requires
        b0 < 256,
        b1 < 256,
        b2 < 256,
    ensures
        ((b0 * 65536 + b1 * 256 + b2) / 262144) % 64 * 262144 + ((b0 * 65536 + b1 * 256 + b2)
            / 4096) % 64 * 4096 + ((b0 * 65536 + b1 * 256 + b2) / 64) % 64 * 64 + (b0 * 65536
            + b1 * 256 + b2) % 64 == b0 * 65536 + b1 * 256 + b2,
        (b0 * 65536 + b1 * 256 + b2) / 65536 == b0,
        ((b0 * 65536 + b1 * 256 + b2) / 256) % 256 == b1,
        (b0 * 65536 + b1 * 256 + b2) % 256 == b2,
        b1 == 0 && b2 == 0 ==> ((b0 * 65536 + b1 * 256 + b2) / 64) % 64 == 0,
        b2 == 0 ==> (b0 * 65536 + b1 * 256 + b2) % 64 == 0,
{
}

/// Decoding one encoded group gives back its bytes.
proof fn lemma_decode_group(b0: u8, b1: u8, b2: u8, k: int)
    requires
        1 <= k <= 3,
        k < 2 ==> b1 == 0,
        k < 3 ==> b2 == 0,
    ensures
        decode_quad(b64_group(b0, b1, b2, k)) == seq![b0, b1, b2].take(k),
{
    let n = b0 as int * 65536 + b1 as int * 256 + b2 as int;
    lemma_quad_arith(b0 as u32, b1 as u32, b2 as u32);
    let d0 = (n / 262144) % 64;
    let d1 = (n / 4096) % 64;
    let d2 = (n / 64) % 64;
    let d3 = n % 64;
    lemma_symbol_value(d0);
    lemma_symbol_value(d1);
    lemma_symbol_value(d2);
    lemma_symbol_value(d3);
    let g = b64_group(b0, b1, b2, k);
    assert(b64_value(g[0]) * 262144 + b64_value(g[1]) * 4096 + b64_value(g[2]) * 64 + b64_value(
        g[3],
    ) == n);
    assert(decode_quad(g) =~= seq![b0, b1, b2].take(k));
}

/// Decoding undoes encoding: every byte string comes back from its base64
/// form.
pub proof fn lemma_base64_round_trip(bytes: Seq<u8>)
    ensures
        base64_decoded(base64(bytes)) == bytes,
    decreases bytes.len(),
{
    let e = base64(bytes);
    if bytes.len() == 0 {
    } else if bytes.len() < 3 {
        let k = bytes.len() as int;
        let b1: u8 = if k > 1 {
            bytes[1]
        } else {
            0
        };
        lemma_decode_group(bytes[0], b1, 0, k);
        assert(e == b64_group(bytes[0], b1, 0, k));
        assert(e.len() == 4);
        assert(e.take(4) =~= e);
        assert(e.skip(4) =~= Seq::<char>::empty());
        assert(base64_decoded(e.skip(4)) =~= Seq::<u8>::empty());
        assert(base64_decoded(e) == decode_quad(e.take(4)) + base64_decoded(e.skip(4)));
        assert(seq![bytes[0], b1, 0u8].take(k) =~= bytes);
    } else {
        let g = b64_group(bytes[0], bytes[1], bytes[2], 3);
        let rest = base64(bytes.skip(3));
        lemma_decode_group(bytes[0], bytes[1], bytes[2], 3);
        lemma_base64_round_trip(bytes.skip(3));
        assert((g + rest).take(4) =~= g);
        assert((g + rest).skip(4) =~= rest);
        assert(seq![bytes[0], bytes[1], bytes[2]].take(3) + bytes.skip(3) =~= bytes);
    }
}

} // verus!
