//! Text produced from raw bytes and numbers.

use vstd::prelude::*;
use vstd::utf8::*;

verus! {

/// What `String::from_utf8_lossy` makes of a byte sequence: valid UTF-8 is
/// decoded, every invalid sequence becomes U+FFFD.
pub uninterp spec fn utf8_lossy(bytes: Seq<u8>) -> Seq<char>;

/// Decodes bytes as UTF-8, replacing invalid sequences
/// (`String::from_utf8_lossy`, then `Cow::into_owned`).
///
/// Trusted: the result is `utf8_lossy` of the bytes; where the bytes are valid
/// UTF-8 (as std documents) it is their plain decoding; since invalid
/// sequences become U+FFFD, a NUL character comes only from a NUL byte.
#[verifier::external_body]
pub fn lossy_string(bytes: &[u8]) -> (s: String)
    ensures
        s@ == utf8_lossy(bytes@),
        valid_utf8(bytes@) ==> s@ == decode_utf8(bytes@),
        !bytes@.contains(0u8) ==> !s@.contains('\0'),
{
    String::from_utf8_lossy(bytes).into_owned()
}

/// Appends one character (`String::push`).
///
/// Trusted: the string grows by exactly that character at its end.
#[verifier::external_body]
pub fn push_char(s: &mut String, c: char)
    ensures
        final(s)@ == old(s)@.push(c),
{
    s.push(c);
}

/// The lower-case hexadecimal digit for `d` (`0`..`9`, `a`..`f`).
pub open spec fn digit_char(d: int) -> char {
    if d < 10 {
        (48 + d) as char
    } else {
        (87 + d) as char
    }
}

/// The decimal digits of `n`, most significant first, without leading zeros.
pub open spec fn decimal(n: nat) -> Seq<char>
    decreases n,
{
    if n < 10 {
        seq![digit_char(n as int)]
    } else {
        decimal(n / 10).push(digit_char((n % 10) as int))
    }
}

/// The lower-case hexadecimal digits of `n`, most significant first, without
/// leading zeros.
pub open spec fn hex(n: nat) -> Seq<char>
    decreases n,
{
    if n < 16 {
        seq![digit_char(n as int)]
    } else {
        hex(n / 16).push(digit_char((n % 16) as int))
    }
}

/// The character of digit `d` (below 16).
pub fn digit(d: u8) -> (c: char)
    requires
        d < 16,
    ensures
        c == digit_char(d as int),
{
    if d < 10 {
        (48 + d) as char
    } else {
        (87 + d) as char
    }
}

/// Appends the decimal digits of `n` to `s`.
pub fn push_decimal(s: &mut String, n: u64)
    ensures
        final(s)@ == old(s)@ + decimal(n as nat),
    decreases n,
{
    if n >= 10 {
        push_decimal(s, n / 10);
    }
    push_char(s, digit((n % 10) as u8));
    proof {
        if n >= 10 {
            assert(old(s)@ + decimal(n as nat) =~= old(s)@ + decimal((n / 10) as nat) + seq![
                digit_char((n % 10) as int),
            ]);
        } else {
            assert(old(s)@ + decimal(n as nat) =~= old(s)@.push(digit_char((n % 10) as int)));
        }
    }
}

/// Appends the lower-case hexadecimal digits of `n` to `s`.
pub fn push_hex(s: &mut String, n: u64)
    ensures
        final(s)@ == old(s)@ + hex(n as nat),
    decreases n,
{
    if n >= 16 {
        push_hex(s, n / 16);
    }
    push_char(s, digit((n % 16) as u8));
    proof {
        if n >= 16 {
            assert(old(s)@ + hex(n as nat) =~= old(s)@ + hex((n / 16) as nat) + seq![
                digit_char((n % 16) as int),
            ]);
        } else {
            assert(old(s)@ + hex(n as nat) =~= old(s)@.push(digit_char((n % 16) as int)));
        }
    }
}

/// The decimal text of `n` (as `format!("{}", n)` writes it).
pub fn decimal_string(n: u64) -> (s: String)
    ensures
        s@ == decimal(n as nat),
{
    let mut s = String::new();
    push_decimal(&mut s, n);
    assert(s@ =~= decimal(n as nat));
    s
}

/// `n` copies of `c`.
pub open spec fn repeated(c: char, n: nat) -> Seq<char> {
    Seq::new(n, |_i: int| c)
}

/// The hexadecimal digits of `n`, with zeros in front up to `digits` digits.
pub open spec fn hex_padded(n: nat, digits: nat) -> Seq<char> {
    let h = hex(n);
    if h.len() < digits {
        repeated('0', (digits - h.len()) as nat) + h
    } else {
        h
    }
}

/// `t` with spaces after it up to `width` characters.
pub open spec fn padded_right(t: Seq<char>, width: nat) -> Seq<char> {
    if t.len() < width {
        t + repeated(' ', (width - t.len()) as nat)
    } else {
        t
    }
}

/// Appends `n` copies of `c`.
pub fn push_repeated(s: &mut String, c: char, n: usize)
    ensures
        final(s)@ == old(s)@ + repeated(c, n as nat),
{
    let mut i: usize = 0;
    while i < n
        invariant
            i <= n,
            s@ == old(s)@ + repeated(c, i as nat),
        decreases n - i,
    {
        push_char(s, c);
        i = i + 1;
        assert(s@ =~= old(s)@ + repeated(c, i as nat));
    }
}

/// The number of hexadecimal digits of `n`.
pub fn hex_len(n: u64) -> (r: usize)
    ensures
        r == hex(n as nat).len(),
        1 <= r <= 16,
    decreases n,
{
    if n < 16 {
        1
    } else {
        let r = hex_len(n / 16);
        proof {
            assert(n / 16 < 0x1000_0000_0000_0000) by (nonlinear_arith)
                requires
                    n < 0x1_0000_0000_0000_0000int,
            ;
            if r == 16 {
                lemma_hex_len_bound((n / 16) as nat);
            }
        }
        r + 1
    }
}

/// 16 to the power `k`.
pub open spec fn pow16(k: nat) -> nat
    decreases k,
{
    if k == 0 {
        1
    } else {
        16 * pow16((k - 1) as nat)
    }
}

/// A number below 16^15 has at most 15 hexadecimal digits.
proof fn lemma_hex_len_bound(n: nat)
    requires
        n < 0x1000_0000_0000_0000,
    ensures
        hex(n).len() <= 15,
{
    reveal_with_fuel(pow16, 16);
    assert(pow16(15) == 0x1000_0000_0000_0000);
    lemma_hex_len_below(n, 15);
}

/// A number below 16^k has at most k hexadecimal digits.
pub proof fn lemma_hex_len_below(n: nat, k: nat)
    requires
        k >= 1,
        n < pow16(k),
    ensures
        hex(n).len() <= k,
    decreases k,
{
    if n >= 16 {
        if k == 1 {
            assert(pow16(1) == 16);
        } else {
            let k1 = (k - 1) as nat;
            let p = pow16(k1);
            assert(n / 16 < p) by (nonlinear_arith)
                requires
                    n < 16 * p,
                    n >= 0,
            ;
            lemma_hex_len_below(n / 16, k1);
        }
    }
}

/// Appends the hexadecimal digits of `n`, zero-padded to `digits` digits.
pub fn push_hex_padded(s: &mut String, n: u64, digits: usize)
    ensures
        final(s)@ == old(s)@ + hex_padded(n as nat, digits as nat),
{
    let len = hex_len(n);
    if len < digits {
        push_repeated(s, '0', digits - len);
    }
    push_hex(s, n);
    assert(s@ =~= old(s)@ + hex_padded(n as nat, digits as nat));
}

/// Appends `t` with spaces after it up to `width` characters.
pub fn push_padded(s: &mut String, t: &str, width: usize)
    ensures
        final(s)@ == old(s)@ + padded_right(t@, width as nat),
{
    s.append(t);
    let len = t.unicode_len();
    if len < width {
        push_repeated(s, ' ', width - len);
    }
    assert(s@ =~= old(s)@ + padded_right(t@, width as nat));
}

/// A number below 16^digits is written in exactly `digits` zero-padded
/// hexadecimal digits (so `{:#010x}` of a `u32` always takes ten characters).
pub proof fn lemma_hex_padded_width(n: nat, digits: nat)
    requires
        digits >= 1,
        n < pow16(digits),
    ensures
        hex_padded(n, digits).len() == digits,
{
    lemma_hex_len_below(n, digits);
}

} // verus!
