//! Byte-text primitives shared by the tokenizer, the matcher and the message
//! renderers: ASCII case folding, whitespace, decimal rendering and parsing,
//! and first-occurrence search.

use vstd::prelude::*;

verus! {

/// ASCII whitespace: space, tab, line feed, carriage return. This is the
/// whole separator class of the crate's byte-level text model; no other
/// Unicode spacing character separates tokens.
pub open spec fn is_ws(b: u8) -> bool {
    b == 32 || b == 9 || b == 10 || b == 13
}

/// Executable twin of [`is_ws`].
pub fn is_ws_byte(b: u8) -> (r: bool)
    ensures
        r == is_ws(b),
{
    b == 32 || b == 9 || b == 10 || b == 13
}

/// ASCII lower-casing of one byte.
pub open spec fn lower(b: u8) -> u8 {
    if 65 <= b <= 90 {
        (b + 32) as u8
    } else {
        b
    }
}

/// A byte sequence lower-cased byte for byte.
pub open spec fn lower_seq(s: Seq<u8>) -> Seq<u8> {
    s.map_values(|b: u8| lower(b))
}

/// Executable twin of [`lower`].
pub fn lower_byte(b: u8) -> (r: u8)
    ensures
        r == lower(b),
{
    if 65 <= b && b <= 90 {
        b + 32
    } else {
        b
    }
}

/// Case-insensitive equality of two byte strings, ASCII only.
pub fn eq_ignore_case(a: &[u8], b: &[u8]) -> (r: bool)
    ensures
        r == (lower_seq(a@) == lower_seq(b@)),
{
    if a.len() != b.len() {
        assert(lower_seq(a@).len() == a@.len());
        assert(lower_seq(b@).len() == b@.len());
        return false;
    }
    let n = a.len();
    let mut i: usize = 0;
    while i < n
        invariant
            n == a@.len() == b@.len(),
            i <= n,
            forall|k: int| 0 <= k < i ==> lower(a@[k]) == lower(b@[k]),
        decreases n - i,
    {
        if lower_byte(a[i]) != lower_byte(b[i]) {
            assert(lower_seq(a@)[i as int] != lower_seq(b@)[i as int]);
            return false;
        }
        i += 1;
    }
    assert(lower_seq(a@) =~= lower_seq(b@));
    true
}

/// Ghost image of a list of byte strings.
pub open spec fn vecs_view(s: Seq<Vec<u8>>) -> Seq<Seq<u8>> {
    s.map_values(|v: Vec<u8>| v@)
}

/// Byte-for-byte equality of two byte strings.
pub fn bytes_eq(a: &[u8], b: &[u8]) -> (r: bool)
    ensures
        r == (a@ == b@),
{
    if a.len() != b.len() {
        return false;
    }
    let n = a.len();
    let mut i: usize = 0;
    while i < n
        invariant
            n == a@.len() == b@.len(),
            i <= n,
            forall|k: int| 0 <= k < i ==> a@[k] == b@[k],
        decreases n - i,
    {
        if a[i] != b[i] {
            return false;
        }
        i += 1;
    }
    assert(a@ =~= b@);
    true
}

/// Fresh copy of a byte string.
pub fn copy_bytes(v: &[u8]) -> (r: Vec<u8>)
    ensures
        r@ == v@,
{
    vstd::slice::slice_to_vec(v)
}

/// `p` stands at the front of `s`.
pub open spec fn starts_with(s: Seq<u8>, p: Seq<u8>) -> bool {
    p.len() <= s.len() && s.take(p.len() as int) == p
}

/// Executable prefix test, from position `at` of `s`.
pub fn starts_with_at(s: &[u8], at: usize, p: &[u8]) -> (r: bool)
    requires
        at <= s@.len(),
    ensures
        r == starts_with(s@.skip(at as int), p@),
{
    let ghost rest = s@.skip(at as int);
    let slen = s.len();
    if slen - at < p.len() {
        return false;
    }
    let n = p.len();
    let mut i: usize = 0;
    while i < n
        invariant
            at + n <= slen == s@.len(),
            n == p@.len(),
            i <= n,
            rest == s@.skip(at as int),
            forall|k: int| 0 <= k < i ==> rest[k] == p@[k],
        decreases n - i,
    {
        if s[at + i] != p[i] {
            assert(rest[i as int] != p@[i as int]);
            assert(rest.take(n as int)[i as int] == rest[i as int]);
            return false;
        }
        assert(rest[i as int] == p@[i as int]);
        i += 1;
    }
    assert(rest.take(n as int) =~= p@);
    true
}

/// Copy of `s[from..to]` as a fresh vector.
pub fn subvec(s: &[u8], from: usize, to: usize) -> (r: Vec<u8>)
    requires
        from <= to <= s@.len(),
    ensures
        r@ == s@.subrange(from as int, to as int),
{
    let mut out: Vec<u8> = Vec::new();
    let mut i = from;
    while i < to
        invariant
            from <= i <= to <= s@.len(),
            out@ == s@.subrange(from as int, i as int),
        decreases to - i,
    {
        out.push(s[i]);
        assert(out@ =~= s@.subrange(from as int, i + 1 as int));
        i += 1;
    }
    out
}

/// `needle` occurs in `s` starting at position `i`.
pub open spec fn occurs_at(s: Seq<u8>, needle: Seq<u8>, i: int) -> bool {
    0 <= i && i + needle.len() <= s.len() && s.subrange(i, i + needle.len()) == needle
}

/// Position of the first occurrence of `needle` in `s` at or after `i`.
pub open spec fn spec_find(s: Seq<u8>, needle: Seq<u8>, i: int) -> Option<int>
    decreases s.len() - i when 0 <= i
{
    if i + needle.len() > s.len() {
        None
    } else if needle.len() == 0 || s.subrange(i, i + needle.len()) == needle {
        Some(i)
    } else {
        spec_find(s, needle, i + 1)
    }
}

/// Position of the first occurrence of `needle` in `s`, if any.
///
/// The empty needle occurs at position zero of every haystack.
pub fn find_first(s: &[u8], needle: &[u8]) -> (r: Option<usize>)
    ensures
        match r {
            Some(i) => spec_find(s@, needle@, 0) == Some(i as int) && occurs_at(
                s@,
                needle@,
                i as int,
            ),
            None => spec_find(s@, needle@, 0) == None::<int>,
        },
{
    let slen = s.len();
    let nlen = needle.len();
    if nlen > slen {
        return None;
    }
    if nlen == 0 {
        assert(s@.subrange(0, 0) =~= needle@);
        return Some(0);
    }
    let mut i: usize = 0;
    while i <= slen - nlen
        invariant
            slen == s@.len(),
            nlen == needle@.len(),
            0 < nlen <= slen,
            i <= slen - nlen + 1,
            spec_find(s@, needle@, 0) == spec_find(s@, needle@, i as int),
        decreases slen - nlen + 1 - i,
    {
        if starts_with_at(s, i, needle) {
            proof {
                assert(s@.skip(i as int).take(nlen as int) =~= s@.subrange(
                    i as int,
                    i + nlen as int,
                ));
            }
            return Some(i);
        }
        proof {
            assert(s@.skip(i as int).take(nlen as int) =~= s@.subrange(
                i as int,
                i + nlen as int,
            ));
        }
        i += 1;
    }
    None
}

/// ASCII decimal digit.
pub open spec fn is_digit(b: u8) -> bool {
    48 <= b <= 57
}

/// Every byte of `s` is a decimal digit.
pub open spec fn all_digits(s: Seq<u8>) -> bool {
    forall|k: int| 0 <= k < s.len() ==> is_digit(s[k])
}

/// Value of a digit string read most significant digit first.
pub open spec fn dec_val(s: Seq<u8>) -> int
    decreases s.len(),
{
    if s.len() == 0 {
        0
    } else {
        dec_val(s.drop_last()) * 10 + (s.last() - 48)
    }
}

/// The token is an integer literal of this library's grammar: an optional
/// leading minus sign, then at least one decimal digit, with a value that fits
/// in `i64`.
pub open spec fn is_int_token(s: Seq<u8>) -> bool {
    if s.len() > 0 && s[0] == 45 {
        let d = s.skip(1);
        d.len() > 0 && all_digits(d) && dec_val(d) <= 0x8000_0000_0000_0000
    } else {
        s.len() > 0 && all_digits(s) && dec_val(s) <= 0x7fff_ffff_ffff_ffff
    }
}

/// Value of an integer literal.
pub open spec fn int_token_val(s: Seq<u8>) -> int {
    if s.len() > 0 && s[0] == 45 {
        -dec_val(s.skip(1))
    } else {
        dec_val(s)
    }
}

/// A digit string's value is never negative.
pub proof fn lemma_dec_val_nonneg(s: Seq<u8>)
    requires
        all_digits(s),
    ensures
        dec_val(s) >= 0,
    decreases s.len(),
{
    if s.len() > 0 {
        lemma_dec_val_nonneg(s.drop_last());
    }
}

/// Appending one digit multiplies the value by ten and adds the digit.
pub proof fn lemma_dec_val_step(s: Seq<u8>, k: int)
    requires
        0 <= k < s.len(),
    ensures
        dec_val(s.take(k + 1)) == dec_val(s.take(k)) * 10 + (s[k] - 48),
{
    assert(s.take(k + 1).drop_last() =~= s.take(k));
    assert(s.take(k + 1).last() == s[k]);
}

/// A digit string's value only grows as digits are appended.
pub proof fn lemma_dec_val_prefix_le(s: Seq<u8>, k: int, j: int)
    requires
        all_digits(s),
        0 <= k <= j <= s.len(),
    ensures
        dec_val(s.take(k)) <= dec_val(s.take(j)),
    decreases j - k,
{
    if k < j {
        lemma_dec_val_prefix_le(s, k, j - 1);
        lemma_dec_val_step(s, j - 1);
        assert(forall|m: int| 0 <= m < s.take(j - 1).len() ==> s.take(j - 1)[m] == s[m]);
        lemma_dec_val_nonneg(s.take(j - 1));
        assert(dec_val(s.take(j - 1)) * 10 + (s[j - 1] - 48) >= dec_val(s.take(j - 1))) by (nonlinear_arith)
            requires
                dec_val(s.take(j - 1)) >= 0,
                s[j - 1] >= 48,
        ;
    }
}

/// Parses the token as a signed 64-bit integer of this library's grammar:
/// an optional minus sign, then one or more decimal digits. Returns `None`
/// exactly when the token is not such a literal or its value does not fit.
pub fn parse_i64(s: &[u8]) -> (r: Option<i64>)
    ensures
        match r {
            Some(v) => is_int_token(s@) && v as int == int_token_val(s@),
            None => !is_int_token(s@),
        },
{
    let slen = s.len();
    let neg = slen > 0 && s[0] == 45;
    let off: usize = if neg {
        1
    } else {
        0
    };
    let ghost digits = s@.skip(off as int);
    proof {
        if !neg {
            assert(digits =~= s@);
        }
    }
    if slen == off {
        return None;
    }
    let limit: u64 = if neg {
        0x8000_0000_0000_0000
    } else {
        0x7fff_ffff_ffff_ffff
    };
    let mut acc: u64 = 0;
    let mut k = off;
    while k < slen
        invariant
            off <= k <= slen == s@.len(),
            off == if neg { 1int } else { 0int },
            neg == (slen > 0 && s@[0] == 45),
            digits == (if neg {
                s@.skip(1)
            } else {
                s@
            }),
            limit == (if neg {
                0x8000_0000_0000_0000u64
            } else {
                0x7fff_ffff_ffff_ffffu64
            }),
            all_digits(digits.take(k - off)),
            acc as int == dec_val(digits.take(k - off)),
            acc <= limit,
        decreases slen - k,
    {
        let b = s[k];
        assert(digits[k - off] == b);
        if b < 48 || b > 57 {
            proof {
                assert(!is_digit(digits[k - off]));
            }
            return None;
        }
        let d: u64 = (b - 48) as u64;
        proof {
            lemma_dec_val_step(digits, k - off);
            assert(forall|m: int| 0 <= m < k - off ==> digits.take(k - off)[m] == digits[m]);
            assert(forall|m: int|
                0 <= m < k + 1 - off ==> digits.take(k + 1 - off)[m] == digits[m]);
            assert(all_digits(digits.take(k + 1 - off)));
        }
        if acc > (limit - d) / 10 {
            proof {
                assert(acc * 10 + d > limit) by (nonlinear_arith)
                    requires
                        acc > (limit - d) / 10,
                        d <= 9,
                        d <= limit,
                ;
                assert(dec_val(digits.take(k + 1 - off)) == acc * 10 + d);
                if is_int_token(s@) {
                    assert(all_digits(digits));
                    lemma_dec_val_prefix_le(digits, k + 1 - off, digits.len() as int);
                    assert(digits.take(digits.len() as int) =~= digits);
                    assert(dec_val(digits) > limit);
                }
            }
            return None;
        }
        proof {
            assert(acc * 10 + d <= limit) by (nonlinear_arith)
                requires
                    acc <= (limit - d) / 10,
                    d <= 9,
                    d <= limit,
            ;
        }
        acc = acc * 10 + d;
        k += 1;
    }
    proof {
        assert(digits.take(slen - off) =~= digits);
    }
    if neg {
        if acc == 0x8000_0000_0000_0000 {
            Some(i64::MIN)
        } else {
            Some(-(acc as i64))
        }
    } else {
        Some(acc as i64)
    }
}

/// Appends a copy of `s` to `out`.
pub fn push_bytes(out: &mut Vec<u8>, s: &[u8])
    ensures
        final(out)@ == old(out)@ + s@,
{
    let n = s.len();
    let mut i: usize = 0;
    while i < n
        invariant
            i <= n == s@.len(),
            out@ == old(out)@ + s@.take(i as int),
        decreases n - i,
    {
        out.push(s[i]);
        proof {
            assert(old(out)@ + s@.take(i as int) + seq![s@[i as int]] =~= old(out)@ + s@.take(
                i + 1,
            ));
        }
        i += 1;
    }
    proof {
        assert(s@.take(n as int) =~= s@);
    }
}

/// `n` copies of one byte.
pub open spec fn repeat_byte(b: u8, n: nat) -> Seq<u8> {
    Seq::new(n, |i: int| b)
}

/// Appends `n` copies of `b` to `out`.
pub fn push_repeat(out: &mut Vec<u8>, b: u8, n: usize)
    ensures
        final(out)@ == old(out)@ + repeat_byte(b, n as nat),
{
    let mut i: usize = 0;
    while i < n
        invariant
            i <= n,
            out@ == old(out)@ + repeat_byte(b, i as nat),
        decreases n - i,
    {
        out.push(b);
        proof {
            assert(old(out)@ + repeat_byte(b, i as nat) + seq![b] =~= old(out)@ + repeat_byte(
                b,
                (i + 1) as nat,
            ));
        }
        i += 1;
    }
}

/// Decimal digits of `n`, most significant first, as ASCII bytes.
pub open spec fn dec_digits(n: nat) -> Seq<u8>
    decreases n,
{
    if n < 10 {
        seq![(48 + n) as u8]
    } else {
        dec_digits(n / 10).push((48 + n % 10) as u8)
    }
}

/// Appends the decimal rendering of `n` to `out`.
pub fn push_dec(out: &mut Vec<u8>, n: u64)
    ensures
        final(out)@ == old(out)@ + dec_digits(n as nat),
    decreases n,
{
    if n < 10 {
        out.push(48 + n as u8);
        assert(final(out)@ =~= old(out)@ + dec_digits(n as nat));
    } else {
        push_dec(out, n / 10);
        out.push(48 + (n % 10) as u8);
        assert(final(out)@ =~= old(out)@ + dec_digits(n as nat));
    }
}

} // verus!
