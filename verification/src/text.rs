//! Text building blocks: decimal and hexadecimal numerals, dotted IPv4
//! addresses, and hex dumps of byte sequences.

use vstd::prelude::*;

verus! {

/// Appends one character to a string.
///
/// Calls `String::push`, which std documents as appending the given `char` to
/// the end of the string; the contract states exactly that of the characters.
#[verifier::external_body]
pub fn push_char(out: &mut String, c: char)
    ensures
        final(out)@ == old(out)@.push(c),
{
    out.push(c);
}

/// The character of a decimal digit.
pub open spec fn digit_char(d: nat) -> char {
    (48 + d) as char
}

/// The character of a lower-case hexadecimal digit.
pub open spec fn hex_digit_char(d: nat) -> char {
    if d < 10 {
        (48 + d) as char
    } else {
        (87 + d) as char
    }
}

/// Decimal numeral of `n`, without leading zeros.
pub open spec fn decimal(n: nat) -> Seq<char>
    decreases n,
{
    if n < 10 {
        seq![digit_char(n)]
    } else {
        decimal(n / 10).push(digit_char(n % 10))
    }
}

/// Two lower-case hexadecimal digits of a byte.
pub open spec fn hex_byte(b: u8) -> Seq<char> {
    seq![hex_digit_char((b / 16) as nat), hex_digit_char((b % 16) as nat)]
}

/// The bytes as two-digit lower-case hexadecimal numbers separated by single
/// spaces.
pub open spec fn hex_dump(b: Seq<u8>) -> Seq<char>
    decreases b.len(),
{
    if b.len() == 0 {
        Seq::empty()
    } else if b.len() == 1 {
        hex_byte(b[0])
    } else {
        hex_dump(b.drop_last()).push(' ') + hex_byte(b.last())
    }
}

/// Dotted-quad form of an IPv4 address whose first octet is the least
/// significant byte of `addr` (the wire bytes read as a little-endian integer).
pub open spec fn ipv4_dotted(addr: u32) -> Seq<char> {
    decimal((addr % 256) as nat).push('.') + decimal(((addr / 256) % 256) as nat).push('.')
        + decimal(((addr / 65536) % 256) as nat).push('.') + decimal((addr / 16777216) as nat)
}

/// The character of decimal digit `d`.
pub fn digit(d: u64) -> (c: char)
    requires
        d < 10,
    ensures
        c == digit_char(d as nat),
{
    let c = match d {
        0 => '0',
        1 => '1',
        2 => '2',
        3 => '3',
        4 => '4',
        5 => '5',
        6 => '6',
        7 => '7',
        8 => '8',
        _ => '9',
    };
    c
}

/// The character of lower-case hexadecimal digit `d`.
pub fn hex_digit(d: u8) -> (c: char)
    requires
        d < 16,
    ensures
        c == hex_digit_char(d as nat),
{
    if d < 10 {
        digit(d as u64)
    } else {
        let c = match d {
            10 => 'a',
            11 => 'b',
            12 => 'c',
            13 => 'd',
            14 => 'e',
            _ => 'f',
        };
        c
    }
}

/// Appends the decimal numeral of `n`.
pub fn push_decimal(out: &mut String, n: u64)
    ensures
        final(out)@ == old(out)@ + decimal(n as nat),
    decreases n,
{
    if n >= 10 {
        push_decimal(out, n / 10);
    }
    push_char(out, digit(n % 10));
    assert(out@ =~= old(out)@ + decimal(n as nat));
}

/// Appends the two hexadecimal digits of a byte.
pub fn push_hex_byte(out: &mut String, b: u8)
    ensures
        final(out)@ == old(out)@ + hex_byte(b),
{
    push_char(out, hex_digit(b / 16));
    push_char(out, hex_digit(b % 16));
    assert(out@ =~= old(out)@ + hex_byte(b));
}

/// Appends a hex dump of the first `n` bytes of `bytes`.
pub fn push_hex_dump(out: &mut String, bytes: &[u8], n: usize)
    requires
        n <= bytes@.len(),
    ensures
        final(out)@ == old(out)@ + hex_dump(bytes@.subrange(0, n as int)),
{
    let mut i: usize = 0;
    while i < n
        invariant
            i <= n,
            n <= bytes@.len(),
            out@ == old(out)@ + hex_dump(bytes@.subrange(0, i as int)),
        decreases n - i,
    {
        let ghost prev = bytes@.subrange(0, i as int);
        let ghost before = out@;
        if i > 0 {
            push_char(out, ' ');
        }
        push_hex_byte(out, bytes[i]);
        i = i + 1;
        let ghost cur = bytes@.subrange(0, i as int);
        assert(cur.drop_last() =~= prev);
        assert(cur.last() == bytes@[i - 1]);
        if i == 1 {
            assert(prev.len() == 0);
            assert(hex_dump(prev) =~= Seq::empty());
            assert(out@ =~= old(out)@ + hex_byte(bytes@[0]));
        } else {
            assert(out@ =~= old(out)@ + (hex_dump(prev).push(' ') + hex_byte(cur.last())));
        }
    }
}

/// A hex dump of `bytes`: each byte as two lower-case hexadecimal digits,
/// separated by single spaces.
pub fn hex_string(bytes: &[u8]) -> (s: String)
    ensures
        s@ == hex_dump(bytes@),
{
    let mut out = String::new();
    push_hex_dump(&mut out, bytes, bytes.len());
    assert(bytes@.subrange(0, bytes@.len() as int) =~= bytes@);
    assert(out@ =~= hex_dump(bytes@));
    out
}

/// Appends the dotted-quad form of an IPv4 address (see [`ipv4_dotted`]).
pub fn push_ipv4(out: &mut String, addr: u32)
    ensures
        final(out)@ == old(out)@ + ipv4_dotted(addr),
{
    push_decimal(out, (addr % 256) as u64);
    push_char(out, '.');
    push_decimal(out, ((addr / 256) % 256) as u64);
    push_char(out, '.');
    push_decimal(out, ((addr / 65536) % 256) as u64);
    push_char(out, '.');
    push_decimal(out, (addr / 16777216) as u64);
    assert(out@ =~= old(out)@ + ipv4_dotted(addr));
}

/// The number a string of decimal digits denotes.
pub open spec fn digits_value(s: Seq<char>) -> int
    decreases s.len(),
{
    if s.len() == 0 {
        0
    } else {
        digits_value(s.drop_last()) * 10 + (s.last() as int - 48)
    }
}

/// The decimal numeral of `n` is a non-empty string of the characters `0`
/// to `9` that denotes `n`, with no leading zero unless `n` is zero.
pub proof fn law_decimal(n: nat)
    ensures
        decimal(n).len() >= 1,
        digits_value(decimal(n)) == n,
        forall|i: int| 0 <= i < decimal(n).len() ==> '0' <= #[trigger] decimal(n)[i] <= '9',
        n >= 1 ==> decimal(n)[0] != '0',
    decreases n,
{
    if n < 10 {
        assert(digit_char(n) as int == 48 + n);
        assert(decimal(n).drop_last() =~= Seq::<char>::empty());
        assert(digits_value(Seq::<char>::empty()) == 0);
    } else {
        law_decimal(n / 10);
        let d = decimal(n);
        let p = decimal(n / 10);
        assert(d.drop_last() =~= p);
        assert(d.last() == digit_char(n % 10));
        assert(digit_char(n % 10) as int == 48 + n % 10);
        assert(digits_value(d) == digits_value(p) * 10 + (n % 10));
        assert((n / 10) * 10 + n % 10 == n) by (nonlinear_arith);
        assert(d[0] == p[0]);
        assert forall|i: int| 0 <= i < d.len() implies '0' <= #[trigger] d[i] <= '9' by {
            if i < p.len() {
                assert(d[i] == p[i]);
            }
        }
    }
}

/// A hex dump has three characters per byte but the last: two lower-case
/// hexadecimal digits, high nibble first, then a space between bytes.
pub proof fn law_hex_dump(b: Seq<u8>)
    ensures
        hex_dump(b).len() == if b.len() == 0 {
            0
        } else {
            3 * b.len() - 1
        },
        forall|i: int|
            0 <= i < b.len() ==> {
                &&& hex_dump(b)[3 * i] as int == if #[trigger] b[i] / 16 < 10 {
                    48 + b[i] / 16
                } else {
                    87 + b[i] / 16
                }
                &&& hex_dump(b)[3 * i + 1] as int == if b[i] % 16 < 10 {
                    48 + b[i] % 16
                } else {
                    87 + b[i] % 16
                }
            },
        forall|k: int| 0 <= k < hex_dump(b).len() && k % 3 == 2 ==> #[trigger] hex_dump(b)[k] == ' ',
    decreases b.len(),
{
    if b.len() <= 1 {
        if b.len() == 1 {
            assert(hex_dump(b).len() == 2);
        }
    } else {
        let p = b.drop_last();
        law_hex_dump(p);
        let h = hex_dump(b);
        let hp = hex_dump(p);
        assert(h == hp.push(' ') + hex_byte(b.last()));
        assert forall|i: int| 0 <= i < b.len() implies {
            &&& hex_dump(b)[3 * i] as int == if #[trigger] b[i] / 16 < 10 {
                48 + b[i] / 16
            } else {
                87 + b[i] / 16
            }
            &&& hex_dump(b)[3 * i + 1] as int == if b[i] % 16 < 10 {
                48 + b[i] % 16
            } else {
                87 + b[i] % 16
            }
        } by {
            if i < p.len() {
                assert(p[i] == b[i]);
                assert(h[3 * i] == hp[3 * i]);
                assert(h[3 * i + 1] == hp[3 * i + 1]);
            } else {
                assert(h[3 * i] == hex_byte(b.last())[0]);
                assert(h[3 * i + 1] == hex_byte(b.last())[1]);
            }
        }
        assert forall|k: int| 0 <= k < h.len() && k % 3 == 2 implies #[trigger] h[k] == ' ' by {
            if k < hp.len() {
                assert(h[k] == hp[k]);
            } else {
                assert(k == hp.len());
                assert(h[k] == hp.push(' ')[hp.len() as int]);
            }
        }
    }
}

} // verus!
