//! Byte-level wire codec for the line-oriented telemetry and control
//! protocol: decimal integers, the fixed literals of the record grammar,
//! booleans, and quoted strings, each with an exact decoding function and
//! a proof that decoding inverts encoding.

use vstd::prelude::*;
use vstd::string::StrSliceExecFns;
use crate::prostar::ChargeState;
use crate::prostar::LoadState;

verus! {

/// Map ASCII chars onto their byte values.
pub open spec fn char_bytes(cs: Seq<char>) -> Seq<u8> {
    cs.map_values(|c: char| c as u8)
}

/// True of the ASCII bytes '0' through '9'.
pub open spec fn is_digit(b: u8) -> bool {
    48 <= b <= 57
}

/// The decimal digits of `n`, most significant first, no leading zeros.
pub open spec fn u64_digits(n: nat) -> Seq<u8>
    decreases n,
{
    if n < 10 {
        seq![(n + 48) as u8]
    } else {
        u64_digits(n / 10).push((n % 10 + 48) as u8)
    }
}

/// The decimal form of a signed value: a minus sign before the magnitude.
pub open spec fn i64_digits(v: int) -> Seq<u8> {
    if v >= 0 {
        u64_digits(v as nat)
    } else {
        seq![45u8] + u64_digits((-v) as nat)
    }
}

pub open spec fn pow10(k: nat) -> nat
    decreases k,
{
    if k == 0 {
        1
    } else {
        10 * pow10((k - 1) as nat)
    }
}

/// Greedy decimal scan: consume digits from `i`, folding them onto `acc`;
/// the result is the folded value and the index of the first non-digit.
pub open spec fn dec_u64_rec(s: Seq<u8>, i: int, acc: nat) -> (nat, int)
    decreases s.len() - i,
{
    if 0 <= i < s.len() && is_digit(s[i]) {
        dec_u64_rec(s, i + 1, acc * 10 + (s[i] - 48) as nat)
    } else {
        (acc, i)
    }
}

/// Decode an unsigned decimal number at `i`: at least one digit must stand
/// there and the value must fit in a u64.
pub open spec fn dec_u64_at(s: Seq<u8>, i: int) -> Option<(u64, int)> {
    if 0 <= i < s.len() && is_digit(s[i]) {
        let (v, e) = dec_u64_rec(s, i, 0);
        if v <= u64::MAX {
            Some((v as u64, e))
        } else {
            None
        }
    } else {
        None
    }
}

/// Decode a signed decimal number at `i`.
pub open spec fn dec_i64_at(s: Seq<u8>, i: int) -> Option<(i64, int)> {
    if 0 <= i < s.len() && s[i] == 45 {
        match dec_u64_at(s, i + 1) {
            Some((m, e)) => if m <= 0x8000_0000_0000_0000u64 {
                Some(((-(m as int)) as i64, e))
            } else {
                None
            },
            None => None,
        }
    } else {
        match dec_u64_at(s, i) {
            Some((m, e)) => if m <= i64::MAX as u64 {
                Some((m as i64, e))
            } else {
                None
            },
            None => None,
        }
    }
}

/// Every byte of a decimal encoding is a digit.
pub proof fn lemma_u64_digits_are_digits(n: nat)
    ensures
        u64_digits(n).len() >= 1,
        forall|j: int| 0 <= j < u64_digits(n).len() ==> is_digit(#[trigger] u64_digits(n)[j]),
    decreases n,
{
    if n < 10 {
    } else {
        lemma_u64_digits_are_digits(n / 10);
    }
}

/// Scanning the digits of `n` folds exactly `n` onto the accumulator.
pub proof fn lemma_dec_rec_consumes(s: Seq<u8>, i: int, n: nat, acc: nat)
    requires
        0 <= i,
        i + u64_digits(n).len() <= s.len(),
        s.subrange(i, i + u64_digits(n).len() as int) == u64_digits(n),
    ensures
        dec_u64_rec(s, i, acc) == dec_u64_rec(
            s,
            i + u64_digits(n).len() as int,
            acc * pow10(u64_digits(n).len() as nat) + n,
        ),
    decreases n,
{
    let len = u64_digits(n).len() as int;
    if n < 10 {
        assert(s[i] == u64_digits(n)[0]);
        assert(s[i] == (n + 48) as u8);
        assert(is_digit(s[i]));
        assert(pow10(0) == 1);
        assert(pow10(1) == 10);
    } else {
        let hi = u64_digits(n / 10);
        let hlen = hi.len() as int;
        assert(u64_digits(n) == hi.push((n % 10 + 48) as u8));
        assert(s.subrange(i, i + hlen) =~= hi) by {
            assert forall|j: int| 0 <= j < hlen implies s.subrange(i, i + hlen)[j] == hi[j] by {
                assert(s.subrange(i, i + len)[j] == u64_digits(n)[j]);
            }
        }
        lemma_dec_rec_consumes(s, i, n / 10, acc);
        let mid = acc * pow10(hlen as nat) + n / 10;
        assert(s[i + hlen] == u64_digits(n)[hlen]);
        assert(s[i + hlen] == (n % 10 + 48) as u8);
        assert(is_digit(s[i + hlen]));
        assert(dec_u64_rec(s, i + hlen, mid) == dec_u64_rec(
            s,
            i + hlen + 1,
            mid * 10 + (s[i + hlen] - 48) as nat,
        ));
        assert(mid * 10 + (n % 10) == acc * pow10((hlen + 1) as nat) + n) by {
            assert(pow10((hlen + 1) as nat) == 10 * pow10(hlen as nat));
            assert((acc * pow10(hlen as nat) + n / 10) * 10 == acc * (pow10(hlen as nat) * 10)
                + (n / 10) * 10) by (nonlinear_arith);
            assert((n / 10) * 10 + n % 10 == n);
            assert(acc * (pow10(hlen as nat) * 10) == acc * (10 * pow10(hlen as nat)));
        }
    }
}

/// The folded value is never below the accumulator it started from.
pub proof fn lemma_dec_rec_ge_acc(s: Seq<u8>, i: int, acc: nat)
    ensures
        dec_u64_rec(s, i, acc).0 >= acc,
    decreases s.len() - i,
{
    if 0 <= i < s.len() && is_digit(s[i]) {
        lemma_dec_rec_ge_acc(s, i + 1, acc * 10 + (s[i] - 48) as nat);
    }
}

/// Decoding inverts encoding for unsigned decimals: where the bytes at `i`
/// are the digits of `n` followed by a non-digit or the end, the decoder
/// yields `n` and stops right after the digits.
pub proof fn lemma_dec_enc_u64(s: Seq<u8>, i: int, n: u64)
    requires
        0 <= i,
        i + u64_digits(n as nat).len() <= s.len(),
        s.subrange(i, i + u64_digits(n as nat).len() as int) == u64_digits(n as nat),
        i + u64_digits(n as nat).len() == s.len() || !is_digit(
            s[i + u64_digits(n as nat).len() as int],
        ),
    ensures
        dec_u64_at(s, i) == Some((n, i + u64_digits(n as nat).len() as int)),
{
    let len = u64_digits(n as nat).len() as int;
    lemma_u64_digits_are_digits(n as nat);
    assert(s[i] == u64_digits(n as nat)[0]);
    assert(is_digit(s[i]));
    lemma_dec_rec_consumes(s, i, n as nat, 0);
    assert(0 * pow10(u64_digits(n as nat).len() as nat) == 0) by (nonlinear_arith);
    assert(dec_u64_rec(s, i + len, n as nat) == (n as nat, i + len));
}

/// Decoding inverts encoding for signed decimals.
pub proof fn lemma_dec_enc_i64(s: Seq<u8>, i: int, v: i64)
    requires
        0 <= i,
        i + i64_digits(v as int).len() <= s.len(),
        s.subrange(i, i + i64_digits(v as int).len() as int) == i64_digits(v as int),
        i + i64_digits(v as int).len() == s.len() || !is_digit(
            s[i + i64_digits(v as int).len() as int],
        ),
    ensures
        dec_i64_at(s, i) == Some((v, i + i64_digits(v as int).len() as int)),
{
    let len = i64_digits(v as int).len() as int;
    if v >= 0 {
        lemma_dec_enc_u64(s, i, v as u64);
        lemma_u64_digits_are_digits(v as nat);
        assert(s[i] == u64_digits(v as nat)[0]);
        assert(s[i] != 45);
    } else {
        let m = (-(v as int)) as nat;
        let mlen = u64_digits(m).len() as int;
        assert(s[i] == i64_digits(v as int)[0]);
        assert(s[i] == 45);
        assert(s.subrange(i + 1, i + 1 + mlen) =~= u64_digits(m)) by {
            assert forall|j: int| 0 <= j < mlen implies s.subrange(i + 1, i + 1 + mlen)[j]
                == u64_digits(m)[j] by {
                assert(s.subrange(i, i + len)[j + 1] == i64_digits(v as int)[j + 1]);
            }
        }
        lemma_dec_enc_u64(s, i + 1, m as u64);
    }
}

/// Append the decimal digits of `n`.
pub fn enc_u64(n: u64, out: &mut Vec<u8>)
    ensures
        final(out)@ == old(out)@ + u64_digits(n as nat),
    decreases n,
{
    if n < 10 {
        out.push((n as u8) + 48);
        assert(out@ =~= old(out)@ + u64_digits(n as nat));
    } else {
        enc_u64(n / 10, out);
        out.push((n % 10) as u8 + 48);
        assert(out@ =~= old(out)@ + u64_digits(n as nat));
    }
}

/// Append the decimal form of `v`, minus sign first where negative.
pub fn enc_i64(v: i64, out: &mut Vec<u8>)
    ensures
        final(out)@ == old(out)@ + i64_digits(v as int),
{
    if v >= 0 {
        enc_u64(v as u64, out);
    } else {
        out.push(45);
        let m: u64 = (-(v as i128)) as u64;
        enc_u64(m, out);
        assert(out@ =~= old(out)@ + i64_digits(v as int));
    }
}

/// Decode an unsigned decimal at `pos`, exactly as `dec_u64_at` has it.
pub fn parse_u64(b: &Vec<u8>, pos: usize) -> (r: Option<(u64, usize)>)
    ensures
        match r {
            Some((v, e)) => pos <= e <= b@.len() && dec_u64_at(b@, pos as int) == Some((
                v,
                e as int,
            )),
            None => dec_u64_at(b@, pos as int) is None,
        },
{
    if pos >= b.len() || b[pos] < 48 || b[pos] > 57 {
        return None;
    }
    let mut i: usize = pos;
    let mut acc: u64 = 0;
    let ghost s = b@;
    while i < b.len() && 48 <= b[i] && b[i] <= 57
        invariant
            pos <= i <= b@.len(),
            s == b@,
            dec_u64_rec(s, pos as int, 0) == dec_u64_rec(s, i as int, acc as nat),
        decreases b@.len() - i,
    {
        let d: u64 = (b[i] - 48) as u64;
        proof {
            assert(is_digit(s[i as int]));
            assert(dec_u64_rec(s, i as int, acc as nat) == dec_u64_rec(
                s,
                i as int + 1,
                acc as nat * 10 + (s[i as int] - 48) as nat,
            ));
        }
        let na = match acc.checked_mul(10) {
            Some(x) => x.checked_add(d),
            None => None,
        };
        match na {
            Some(x) => {
                acc = x;
                i = i + 1;
            }
            None => {
                proof {
                    lemma_dec_rec_ge_acc(s, i as int + 1, acc as nat * 10 + (s[i as int]
                        - 48) as nat);
                    assert(dec_u64_rec(s, pos as int, 0).0 > u64::MAX);
                }
                return None;
            }
        }
    }
    assert(dec_u64_rec(s, i as int, acc as nat) == (acc as nat, i as int));
    Some((acc, i))
}

/// Decode a signed decimal at `pos`, exactly as `dec_i64_at` has it.
pub fn parse_i64(b: &Vec<u8>, pos: usize) -> (r: Option<(i64, usize)>)
    ensures
        match r {
            Some((v, e)) => pos <= e <= b@.len() && dec_i64_at(b@, pos as int) == Some((
                v,
                e as int,
            )),
            None => dec_i64_at(b@, pos as int) is None,
        },
{
    if pos < b.len() && b[pos] == 45 {
        match parse_u64(b, pos + 1) {
            Some((m, e)) => {
                if m <= 0x8000_0000_0000_0000u64 {
                    Some(((-(m as i128)) as i64, e))
                } else {
                    None
                }
            }
            None => None,
        }
    } else {
        match parse_u64(b, pos) {
            Some((m, e)) => {
                if m <= i64::MAX as u64 {
                    Some((m as i64, e))
                } else {
                    None
                }
            }
            None => None,
        }
    }
}

/// Decode the exact byte sequence `lit` at `i`: the index just past it, or
/// nothing if other bytes stand there.
pub open spec fn dec_lit(s: Seq<u8>, i: int, lit: Seq<u8>) -> Option<int> {
    if 0 <= i && i + lit.len() <= s.len() && s.subrange(i, i + lit.len() as int) == lit {
        Some(i + lit.len() as int)
    } else {
        None
    }
}

/// Expect the bytes of the ASCII literal `lit` at `pos`.
pub fn expect_lit(b: &Vec<u8>, pos: usize, lit: &str) -> (r: Option<usize>)
    requires
        lit.is_ascii(),
    ensures
        match r {
            Some(e) => pos <= e <= b@.len() && dec_lit(b@, pos as int, char_bytes(lit@))
                == Some(e as int),
            None => dec_lit(b@, pos as int, char_bytes(lit@)) is None,
        },
{
    let n: usize = lit.unicode_len();
    if pos > b.len() || n > b.len() - pos {
        return None;
    }
    let end: usize = pos + n;
    let mut j: usize = 0;
    while j < n
        invariant
            0 <= j <= n,
            lit.is_ascii(),
            n == char_bytes(lit@).len(),
            end == pos + n,
            end <= b@.len(),
            forall|k: int| 0 <= k < j ==> b@[pos + k] == char_bytes(lit@)[k],
        decreases n - j,
    {
        let idx: usize = pos + j;
        if b[idx] != lit.get_ascii(j) {
            assert(b@.subrange(pos as int, end as int) != char_bytes(lit@)) by {
                assert(b@.subrange(pos as int, end as int)[j as int] == b@[pos + j]);
            }
            return None;
        }
        j = j + 1;
    }
    assert(b@.subrange(pos as int, end as int) =~= char_bytes(lit@));
    Some(end)
}

/// Splitting a known concatenation: where the bytes from `i` to `j` are
/// `a + b`, the front is `a` and the back is `b`.
pub proof fn lemma_split(s: Seq<u8>, i: int, j: int, a: Seq<u8>, b: Seq<u8>)
    requires
        0 <= i <= j <= s.len(),
        s.subrange(i, j) == a + b,
    ensures
        j - i == a.len() + b.len(),
        s.subrange(i, i + a.len() as int) =~= a,
        s.subrange(i + a.len() as int, j) =~= b,
{
    let alen = a.len() as int;
    assert(s.subrange(i, j).len() == a.len() + b.len());
    assert forall|k: int| 0 <= k < a.len() implies s.subrange(i, i + a.len() as int)[k]
        == a[k] by {
        assert(s.subrange(i, j)[k] == (a + b)[k]);
        assert(s.subrange(i, j)[k] == s[i + k]);
        assert(s.subrange(i, i + alen)[k] == s[i + k]);
    }
    assert forall|k: int| 0 <= k < b.len() implies s.subrange(i + a.len() as int, j)[k]
        == b[k] by {
        assert((a + b)[alen + k] == b[k]);
        assert(s.subrange(i, j)[alen + k] == (a + b)[alen + k]);
        assert(s.subrange(i, j)[alen + k] == s[i + alen + k]);
        assert(s.subrange(i + alen, j)[k] == s[i + alen + k]);
    }
}

/// A boolean in the record grammar.
pub open spec fn enc_bool(v: bool) -> Seq<u8> {
    if v {
        char_bytes("true"@)
    } else {
        char_bytes("false"@)
    }
}

/// Decode a boolean at `i`.
pub open spec fn dec_bool_at(s: Seq<u8>, i: int) -> Option<(bool, int)> {
    match dec_lit(s, i, char_bytes("true"@)) {
        Some(e) => Some((true, e)),
        None => match dec_lit(s, i, char_bytes("false"@)) {
            Some(e) => Some((false, e)),
            None => None,
        },
    }
}

/// Where the byte `k` places into the window differs from `want`, the
/// literal does not decode there.
pub proof fn lemma_lit_differs(s: Seq<u8>, i: int, want: Seq<u8>, k: int)
    requires
        0 <= i,
        0 <= k < want.len(),
        i + k < s.len(),
        s[i + k] != want[k],
    ensures
        dec_lit(s, i, want) is None,
{
    if i + want.len() <= s.len() {
        assert(s.subrange(i, i + want.len() as int)[k] == s[i + k]);
    }
}

/// Decoding inverts encoding for booleans.
pub proof fn lemma_dec_enc_bool(s: Seq<u8>, i: int, v: bool)
    requires
        0 <= i,
        i + enc_bool(v).len() <= s.len(),
        s.subrange(i, i + enc_bool(v).len() as int) == enc_bool(v),
    ensures
        dec_bool_at(s, i) == Some((v, i + enc_bool(v).len() as int)),
{
    reveal_strlit("true");
    reveal_strlit("false");
    if v {
        assert(dec_lit(s, i, char_bytes("true"@)) == Some(i + 4));
    } else {
        assert(s[i] == char_bytes("false"@)[0]);
        lemma_lit_differs(s, i, char_bytes("true"@), 0);
        assert(dec_lit(s, i, char_bytes("false"@)) == Some(i + 5));
    }
}

/// Expect a boolean at `pos`.
pub fn parse_bool(b: &Vec<u8>, pos: usize) -> (r: Option<(bool, usize)>)
    ensures
        match r {
            Some((v, e)) => pos <= e <= b@.len() && dec_bool_at(b@, pos as int) == Some((
                v,
                e as int,
            )),
            None => dec_bool_at(b@, pos as int) is None,
        },
{
    proof {
        reveal_strlit("true");
        reveal_strlit("false");
    }
    match expect_lit(b, pos, "true") {
        Some(e) => Some((true, e)),
        None => match expect_lit(b, pos, "false") {
            Some(e) => Some((false, e)),
            None => None,
        },
    }
}

/// A quoted string: the content between two quote bytes, verbatim.
pub open spec fn enc_string(content: Seq<u8>) -> Seq<u8> {
    seq![34u8] + content + seq![34u8]
}

/// The index of the first quote byte at or after `j`.
pub open spec fn find_quote(s: Seq<u8>, j: int) -> Option<int>
    decreases s.len() - j,
{
    if 0 <= j < s.len() {
        if s[j] == 34 {
            Some(j)
        } else {
            find_quote(s, j + 1)
        }
    } else {
        None
    }
}

/// Decode a quoted string at `i`: the content bytes and the index just
/// past the closing quote.
pub open spec fn dec_string_at(s: Seq<u8>, i: int) -> Option<(Seq<u8>, int)> {
    if 0 <= i < s.len() && s[i] == 34 {
        match find_quote(s, i + 1) {
            Some(q) => Some((s.subrange(i + 1, q), q + 1)),
            None => None,
        }
    } else {
        None
    }
}

proof fn lemma_find_quote(s: Seq<u8>, j: int, q: int)
    requires
        0 <= j <= q < s.len(),
        s[q] == 34,
        forall|k: int| j <= k < q ==> s[k] != 34,
    ensures
        find_quote(s, j) == Some(q),
    decreases q - j,
{
    if j < q {
        lemma_find_quote(s, j + 1, q);
    }
}

/// Decoding inverts encoding for quote-free string content.
pub proof fn lemma_dec_enc_string(s: Seq<u8>, i: int, content: Seq<u8>)
    requires
        0 <= i,
        forall|k: int| 0 <= k < content.len() ==> #[trigger] content[k] != 34,
        i + enc_string(content).len() <= s.len(),
        s.subrange(i, i + enc_string(content).len() as int) == enc_string(content),
    ensures
        dec_string_at(s, i) == Some((content, i + enc_string(content).len() as int)),
{
    let len = enc_string(content).len() as int;
    let q = i + 1 + content.len() as int;
    assert(s[i] == enc_string(content)[0]);
    assert(s[q] == enc_string(content)[len - 1]);
    assert(s[q] == 34);
    assert forall|k: int| i + 1 <= k < q implies s[k] != 34 by {
        assert(s[k] == enc_string(content)[k - i]);
        assert(enc_string(content)[k - i] == content[k - i - 1]);
    }
    lemma_find_quote(s, i + 1, q);
    assert(s.subrange(i + 1, q) =~= content) by {
        assert forall|k: int| 0 <= k < content.len() implies s.subrange(i + 1, q)[k]
            == content[k] by {
            assert(s[i + 1 + k] == enc_string(content)[1 + k]);
        }
    }
}

/// Read a quoted string at `pos`, handing back its content bytes.
pub fn parse_string(b: &Vec<u8>, pos: usize) -> (r: Option<(Vec<u8>, usize)>)
    ensures
        match r {
            Some((v, e)) => pos <= e <= b@.len() && dec_string_at(b@, pos as int) == Some((
                v@,
                e as int,
            )),
            None => dec_string_at(b@, pos as int) is None,
        },
{
    if pos >= b.len() || b[pos] != 34 {
        return None;
    }
    let mut j: usize = pos + 1;
    let mut content: Vec<u8> = Vec::new();
    loop
        invariant
            pos + 1 <= j <= b@.len(),
            b@[pos as int] == 34,
            content@ == b@.subrange(pos as int + 1, j as int),
            forall|k: int| pos + 1 <= k < j ==> b@[k] != 34,
            find_quote(b@, pos as int + 1) == find_quote(b@, j as int),
        decreases b@.len() - j,
    {
        if j >= b.len() {
            return None;
        }
        let c = b[j];
        if c == 34 {
            proof {
                lemma_find_quote(b@, j as int, j as int);
            }
            return Some((content, j + 1));
        }
        content.push(c);
        j = j + 1;
        assert(content@ =~= b@.subrange(pos as int + 1, j as int));
    }
}

/// Relies on String::from_utf8: ASCII bytes decode to exactly one char per
/// byte, each char the byte's code point.
#[verifier::external_body]
pub fn ascii_to_string(b: Vec<u8>) -> (r: String)
    requires
        forall|k: int| 0 <= k < b@.len() ==> #[trigger] b@[k] < 128,
    ensures
        r@ == b@.map_values(|x: u8| x as char),
        char_bytes(r@) == b@,
{
    String::from_utf8(b).unwrap_or_default()
}

/// The bytes of an ASCII string, one per char.
pub fn string_bytes(s: &str) -> (r: Vec<u8>)
    requires
        s.is_ascii(),
    ensures
        r@ == char_bytes(s@),
{
    broadcast use vstd::string::is_ascii_spec_bytes;

    let r = s.as_bytes_vec();
    assert(r@ =~= char_bytes(s@));
    r
}

/// A named signed-integer member: the name literal (quotes and colon
/// included), the decimal value, one terminator byte.
pub open spec fn enc_field_i64(name: Seq<u8>, v: int, term: u8) -> Seq<u8> {
    name + i64_digits(v) + seq![term]
}

/// Decode a named signed-integer member.
pub open spec fn dec_field_i64(s: Seq<u8>, i: int, name: Seq<u8>, term: u8) -> Option<
    (i64, int),
> {
    match dec_lit(s, i, name) {
        Some(p) => match dec_i64_at(s, p) {
            Some((v, e)) => if e < s.len() && s[e] == term {
                Some((v, e + 1))
            } else {
                None
            },
            None => None,
        },
        None => None,
    }
}

/// Decoding inverts encoding for named signed-integer members.
pub proof fn lemma_dec_enc_field_i64(s: Seq<u8>, i: int, name: Seq<u8>, v: i64, term: u8)
    requires
        0 <= i,
        !is_digit(term),
        i + enc_field_i64(name, v as int, term).len() <= s.len(),
        s.subrange(i, i + enc_field_i64(name, v as int, term).len() as int) == enc_field_i64(
            name,
            v as int,
            term,
        ),
    ensures
        dec_field_i64(s, i, name, term) == Some((
            v,
            i + enc_field_i64(name, v as int, term).len() as int,
        )),
{
    let j = i + enc_field_i64(name, v as int, term).len() as int;
    assert(enc_field_i64(name, v as int, term) =~= name + (i64_digits(v as int) + seq![term]));
    lemma_split(s, i, j, name, i64_digits(v as int) + seq![term]);
    let p = i + name.len() as int;
    lemma_split(s, p, j, i64_digits(v as int), seq![term]);
    let e = p + i64_digits(v as int).len() as int;
    assert(s[e] == seq![term][0]);
    lemma_dec_enc_i64(s, p, v);
}

/// Expect a named signed-integer member at `pos`.
pub fn parse_field_i64(b: &Vec<u8>, pos: usize, name: &str, term: u8) -> (r: Option<
    (i64, usize),
>)
    requires
        name.is_ascii(),
    ensures
        match r {
            Some((v, e)) => pos <= e <= b@.len() && dec_field_i64(
                b@,
                pos as int,
                char_bytes(name@),
                term,
            ) == Some((v, e as int)),
            None => dec_field_i64(b@, pos as int, char_bytes(name@), term) is None,
        },
{
    match expect_lit(b, pos, name) {
        Some(p) => match parse_i64(b, p) {
            Some((v, e)) => {
                if e < b.len() && b[e] == term {
                    Some((v, e + 1))
                } else {
                    None
                }
            }
            None => None,
        },
        None => None,
    }
}

/// A named boolean member.
pub open spec fn enc_field_bool(name: Seq<u8>, v: bool, term: u8) -> Seq<u8> {
    name + enc_bool(v) + seq![term]
}

/// Decode a named boolean member.
pub open spec fn dec_field_bool(s: Seq<u8>, i: int, name: Seq<u8>, term: u8) -> Option<
    (bool, int),
> {
    match dec_lit(s, i, name) {
        Some(p) => match dec_bool_at(s, p) {
            Some((v, e)) => if e < s.len() && s[e] == term {
                Some((v, e + 1))
            } else {
                None
            },
            None => None,
        },
        None => None,
    }
}

/// Decoding inverts encoding for named boolean members.
pub proof fn lemma_dec_enc_field_bool(s: Seq<u8>, i: int, name: Seq<u8>, v: bool, term: u8)
    requires
        0 <= i,
        i + enc_field_bool(name, v, term).len() <= s.len(),
        s.subrange(i, i + enc_field_bool(name, v, term).len() as int) == enc_field_bool(
            name,
            v,
            term,
        ),
    ensures
        dec_field_bool(s, i, name, term) == Some((
            v,
            i + enc_field_bool(name, v, term).len() as int,
        )),
{
    let j = i + enc_field_bool(name, v, term).len() as int;
    assert(enc_field_bool(name, v, term) =~= name + (enc_bool(v) + seq![term]));
    lemma_split(s, i, j, name, enc_bool(v) + seq![term]);
    let p = i + name.len() as int;
    lemma_split(s, p, j, enc_bool(v), seq![term]);
    let e = p + enc_bool(v).len() as int;
    assert(s[e] == seq![term][0]);
    lemma_dec_enc_bool(s, p, v);
}

/// Expect a named boolean member at `pos`.
pub fn parse_field_bool(b: &Vec<u8>, pos: usize, name: &str, term: u8) -> (r: Option<
    (bool, usize),
>)
    requires
        name.is_ascii(),
    ensures
        match r {
            Some((v, e)) => pos <= e <= b@.len() && dec_field_bool(
                b@,
                pos as int,
                char_bytes(name@),
                term,
            ) == Some((v, e as int)),
            None => dec_field_bool(b@, pos as int, char_bytes(name@), term) is None,
        },
{
    match expect_lit(b, pos, name) {
        Some(p) => match parse_bool(b, p) {
            Some((v, e)) => {
                if e < b.len() && b[e] == term {
                    Some((v, e + 1))
                } else {
                    None
                }
            }
            None => None,
        },
        None => None,
    }
}

/// An optional signed integer: the word `null`, or the decimal value.
pub open spec fn enc_opt_i64(v: Option<i64>) -> Seq<u8> {
    match v {
        None => char_bytes("null"@),
        Some(x) => i64_digits(x as int),
    }
}

/// A named optional signed-integer member.
pub open spec fn enc_field_opt_i64(name: Seq<u8>, v: Option<i64>, term: u8) -> Seq<u8> {
    name + enc_opt_i64(v) + seq![term]
}

/// Decode a named optional signed-integer member.
pub open spec fn dec_field_opt_i64(s: Seq<u8>, i: int, name: Seq<u8>, term: u8) -> Option<
    (Option<i64>, int),
> {
    match dec_lit(s, i, name) {
        Some(p) => {
            let ve = match dec_lit(s, p, char_bytes("null"@)) {
                Some(e) => Some((None::<i64>, e)),
                None => match dec_i64_at(s, p) {
                    Some((x, e)) => Some((Some(x), e)),
                    None => None,
                },
            };
            match ve {
                Some((v, e)) => if e < s.len() && s[e] == term {
                    Some((v, e + 1))
                } else {
                    None
                },
                None => None,
            }
        },
        None => None,
    }
}

/// Decoding inverts encoding for named optional signed-integer members.
pub proof fn lemma_dec_enc_field_opt_i64(
    s: Seq<u8>,
    i: int,
    name: Seq<u8>,
    v: Option<i64>,
    term: u8,
)
    requires
        0 <= i,
        !is_digit(term),
        i + enc_field_opt_i64(name, v, term).len() <= s.len(),
        s.subrange(i, i + enc_field_opt_i64(name, v, term).len() as int) == enc_field_opt_i64(
            name,
            v,
            term,
        ),
    ensures
        dec_field_opt_i64(s, i, name, term) == Some((
            v,
            i + enc_field_opt_i64(name, v, term).len() as int,
        )),
{
    reveal_strlit("null");
    let j = i + enc_field_opt_i64(name, v, term).len() as int;
    assert(enc_field_opt_i64(name, v, term) =~= name + (enc_opt_i64(v) + seq![term]));
    lemma_split(s, i, j, name, enc_opt_i64(v) + seq![term]);
    let p = i + name.len() as int;
    lemma_split(s, p, j, enc_opt_i64(v), seq![term]);
    let e = p + enc_opt_i64(v).len() as int;
    assert(s[e] == seq![term][0]);
    match v {
        None => {
            assert(dec_lit(s, p, char_bytes("null"@)) == Some(p + 4));
        }
        Some(x) => {
            lemma_dec_enc_i64(s, p, x);
            assert(s[p] == i64_digits(x as int)[0]);
            if x >= 0 {
                lemma_u64_digits_are_digits(x as nat);
            }
            lemma_lit_differs(s, p, char_bytes("null"@), 0);
        }
    }
}

/// Expect a named optional signed-integer member at `pos`.
pub fn parse_field_opt_i64(b: &Vec<u8>, pos: usize, name: &str, term: u8) -> (r: Option<
    (Option<i64>, usize),
>)
    requires
        name.is_ascii(),
    ensures
        match r {
            Some((v, e)) => pos <= e <= b@.len() && dec_field_opt_i64(
                b@,
                pos as int,
                char_bytes(name@),
                term,
            ) == Some((v, e as int)),
            None => dec_field_opt_i64(b@, pos as int, char_bytes(name@), term) is None,
        },
{
    match expect_lit(b, pos, name) {
        Some(p) => {
            proof {
                reveal_strlit("null");
            }
            let ve = match expect_lit(b, p, "null") {
                Some(e) => Some((None, e)),
                None => match parse_i64(b, p) {
                    Some((x, e)) => Some((Some(x), e)),
                    None => None,
                },
            };
            match ve {
                Some((v, e)) => {
                    if e < b.len() && b[e] == term {
                        Some((v, e + 1))
                    } else {
                        None
                    }
                }
                None => None,
            }
        }
        None => None,
    }
}


/// True exactly when the vector holds the bytes of the ASCII literal.
pub fn bytes_eq_lit(v: &Vec<u8>, lit: &str) -> (r: bool)
    requires
        lit.is_ascii(),
    ensures
        r == (v@ == char_bytes(lit@)),
{
    let n: usize = lit.unicode_len();
    if v.len() != n {
        assert(v@ != char_bytes(lit@));
        return false;
    }
    let mut j: usize = 0;
    while j < n
        invariant
            0 <= j <= n,
            lit.is_ascii(),
            v@.len() == n,
            n == char_bytes(lit@).len(),
            forall|k: int| 0 <= k < j ==> v@[k] == char_bytes(lit@)[k],
        decreases n - j,
    {
        if v[j] != lit.get_ascii(j) {
            assert(v@ != char_bytes(lit@));
            return false;
        }
        j = j + 1;
    }
    assert(v@ =~= char_bytes(lit@));
    true
}

/// A charge state on the wire: the stage name quoted, or the raw register
/// value under the unknown tag.
pub open spec fn enc_cs(v: ChargeState) -> Seq<u8> {
    match v {
        ChargeState::UnknownState(x) => char_bytes("{\"UnknownState\":"@) + u64_digits(x as nat) + seq![125u8],
        ChargeState::Start => enc_string(char_bytes("Start"@)),
        ChargeState::NightCheck => enc_string(char_bytes("NightCheck"@)),
        ChargeState::Disconnect => enc_string(char_bytes("Disconnect"@)),
        ChargeState::Night => enc_string(char_bytes("Night"@)),
        ChargeState::Fault => enc_string(char_bytes("Fault"@)),
        ChargeState::BulkMPPT => enc_string(char_bytes("BulkMPPT"@)),
        ChargeState::Absorption => enc_string(char_bytes("Absorption"@)),
        ChargeState::Float => enc_string(char_bytes("Float"@)),
        ChargeState::Equalize => enc_string(char_bytes("Equalize"@)),
        ChargeState::Slave => enc_string(char_bytes("Slave"@)),
        ChargeState::Fixed => enc_string(char_bytes("Fixed"@)),
    }
}

/// The stage named by quoted-string content, if any.
pub open spec fn cs_of_name(c: Seq<u8>) -> Option<ChargeState> {
    if c == char_bytes("Start"@) {
        Some(ChargeState::Start)
    } else if c == char_bytes("NightCheck"@) {
        Some(ChargeState::NightCheck)
    } else if c == char_bytes("Disconnect"@) {
        Some(ChargeState::Disconnect)
    } else if c == char_bytes("Night"@) {
        Some(ChargeState::Night)
    } else if c == char_bytes("Fault"@) {
        Some(ChargeState::Fault)
    } else if c == char_bytes("BulkMPPT"@) {
        Some(ChargeState::BulkMPPT)
    } else if c == char_bytes("Absorption"@) {
        Some(ChargeState::Absorption)
    } else if c == char_bytes("Float"@) {
        Some(ChargeState::Float)
    } else if c == char_bytes("Equalize"@) {
        Some(ChargeState::Equalize)
    } else if c == char_bytes("Slave"@) {
        Some(ChargeState::Slave)
    } else if c == char_bytes("Fixed"@) {
        Some(ChargeState::Fixed)
    } else {
        None
    }
}

/// Decode a cs at `i`.
pub open spec fn dec_cs_at(s: Seq<u8>, i: int) -> Option<(ChargeState, int)> {
    if 0 <= i < s.len() && s[i] == 34 {
        match dec_string_at(s, i) {
            Some((c, e)) => match cs_of_name(c) {
                Some(v) => Some((v, e)),
                None => None,
            },
            None => None,
        }
    } else {
        match dec_lit(s, i, char_bytes("{\"UnknownState\":"@)) {
            Some(p) => match dec_u64_at(s, p) {
                Some((x, e)) => if x <= 65535 && e < s.len() && s[e] == 125 {
                    Some((ChargeState::UnknownState(x as u16), e + 1))
                } else {
                    None
                },
                None => None,
            },
            None => None,
        }
    }
}

/// Decoding inverts encoding for charge-state values.
pub proof fn lemma_dec_enc_cs(s: Seq<u8>, i: int, v: ChargeState)
    requires
        0 <= i,
        i + enc_cs(v).len() <= s.len(),
        s.subrange(i, i + enc_cs(v).len() as int) == enc_cs(v),
    ensures
        dec_cs_at(s, i) == Some((v, i + enc_cs(v).len() as int)),
{
    reveal_strlit("Start");
    reveal_strlit("NightCheck");
    reveal_strlit("Disconnect");
    reveal_strlit("Night");
    reveal_strlit("Fault");
    reveal_strlit("BulkMPPT");
    reveal_strlit("Absorption");
    reveal_strlit("Float");
    reveal_strlit("Equalize");
    reveal_strlit("Slave");
    reveal_strlit("Fixed");
    reveal_strlit("{\"UnknownState\":");
    let len = enc_cs(v).len() as int;
    match v {
        ChargeState::UnknownState(x) => {
            let tag = char_bytes("{\"UnknownState\":"@);
            assert(enc_cs(v) =~= tag + (u64_digits(x as nat) + seq![125u8]));
            lemma_split(s, i, i + len, tag, u64_digits(x as nat) + seq![125u8]);
            let p = i + tag.len() as int;
            lemma_split(s, p, i + len, u64_digits(x as nat), seq![125u8]);
            let dlen = u64_digits(x as nat).len() as int;
            assert(s.subrange(p + dlen, i + len)[0] == seq![125u8][0]);
            assert(s[p + dlen] == 125);
            lemma_dec_enc_u64(s, p, x as u64);
            assert(s[i] == tag[0]);
            assert(s[i] == 123);
        }
        ChargeState::Start => {
            let c = char_bytes("Start"@);
            assert(c.len() == 5);
            assert(c[0] == 83);
            assert(c[1] == 116);
            assert(c[2] == 97);
            assert(c[3] == 114);
            assert(c[4] == 116);
            lemma_dec_enc_string(s, i, c);
            assert(s[i] == enc_string(c)[0]);
        }
        ChargeState::NightCheck => {
            let c = char_bytes("NightCheck"@);
            assert(c.len() == 10);
            assert(c[0] == 78);
            assert(c[1] == 105);
            assert(c[2] == 103);
            assert(c[3] == 104);
            assert(c[4] == 116);
            assert(c[5] == 67);
            assert(c[6] == 104);
            assert(c[7] == 101);
            assert(c[8] == 99);
            assert(c[9] == 107);
            lemma_dec_enc_string(s, i, c);
            assert(s[i] == enc_string(c)[0]);
            assert(c != char_bytes("Start"@)) by {
                assert(char_bytes("Start"@)[0] == 83);
            }
        }
        ChargeState::Disconnect => {
            let c = char_bytes("Disconnect"@);
            assert(c.len() == 10);
            assert(c[0] == 68);
            assert(c[1] == 105);
            assert(c[2] == 115);
            assert(c[3] == 99);
            assert(c[4] == 111);
            assert(c[5] == 110);
            assert(c[6] == 110);
            assert(c[7] == 101);
            assert(c[8] == 99);
            assert(c[9] == 116);
            lemma_dec_enc_string(s, i, c);
            assert(s[i] == enc_string(c)[0]);
            assert(c != char_bytes("Start"@)) by {
                assert(char_bytes("Start"@)[0] == 83);
            }
            assert(c != char_bytes("NightCheck"@)) by {
                assert(char_bytes("NightCheck"@)[0] == 78);
            }
        }
        ChargeState::Night => {
            let c = char_bytes("Night"@);
            assert(c.len() == 5);
            assert(c[0] == 78);
            assert(c[1] == 105);
            assert(c[2] == 103);
            assert(c[3] == 104);
            assert(c[4] == 116);
            lemma_dec_enc_string(s, i, c);
            assert(s[i] == enc_string(c)[0]);
            assert(c != char_bytes("Start"@)) by {
                assert(char_bytes("Start"@)[0] == 83);
            }
            assert(c != char_bytes("NightCheck"@)) by {
                assert(c.len() != char_bytes("NightCheck"@).len());
            }
            assert(c != char_bytes("Disconnect"@)) by {
                assert(char_bytes("Disconnect"@)[0] == 68);
            }
        }
        ChargeState::Fault => {
            let c = char_bytes("Fault"@);
            assert(c.len() == 5);
            assert(c[0] == 70);
            assert(c[1] == 97);
            assert(c[2] == 117);
            assert(c[3] == 108);
            assert(c[4] == 116);
            lemma_dec_enc_string(s, i, c);
            assert(s[i] == enc_string(c)[0]);
            assert(c != char_bytes("Start"@)) by {
                assert(char_bytes("Start"@)[0] == 83);
            }
            assert(c != char_bytes("NightCheck"@)) by {
                assert(char_bytes("NightCheck"@)[0] == 78);
            }
            assert(c != char_bytes("Disconnect"@)) by {
                assert(char_bytes("Disconnect"@)[0] == 68);
            }
            assert(c != char_bytes("Night"@)) by {
                assert(char_bytes("Night"@)[0] == 78);
            }
        }
        ChargeState::BulkMPPT => {
            let c = char_bytes("BulkMPPT"@);
            assert(c.len() == 8);
            assert(c[0] == 66);
            assert(c[1] == 117);
            assert(c[2] == 108);
            assert(c[3] == 107);
            assert(c[4] == 77);
            assert(c[5] == 80);
            assert(c[6] == 80);
            assert(c[7] == 84);
            lemma_dec_enc_string(s, i, c);
            assert(s[i] == enc_string(c)[0]);
            assert(c != char_bytes("Start"@)) by {
                assert(char_bytes("Start"@)[0] == 83);
            }
            assert(c != char_bytes("NightCheck"@)) by {
                assert(char_bytes("NightCheck"@)[0] == 78);
            }
            assert(c != char_bytes("Disconnect"@)) by {
                assert(char_bytes("Disconnect"@)[0] == 68);
            }
            assert(c != char_bytes("Night"@)) by {
                assert(char_bytes("Night"@)[0] == 78);
            }
            assert(c != char_bytes("Fault"@)) by {
                assert(char_bytes("Fault"@)[0] == 70);
            }
        }
        ChargeState::Absorption => {
            let c = char_bytes("Absorption"@);
            assert(c.len() == 10);
            assert(c[0] == 65);
            assert(c[1] == 98);
            assert(c[2] == 115);
            assert(c[3] == 111);
            assert(c[4] == 114);
            assert(c[5] == 112);
            assert(c[6] == 116);
            assert(c[7] == 105);
            assert(c[8] == 111);
            assert(c[9] == 110);
            lemma_dec_enc_string(s, i, c);
            assert(s[i] == enc_string(c)[0]);
            assert(c != char_bytes("Start"@)) by {
                assert(char_bytes("Start"@)[0] == 83);
            }
            assert(c != char_bytes("NightCheck"@)) by {
                assert(char_bytes("NightCheck"@)[0] == 78);
            }
            assert(c != char_bytes("Disconnect"@)) by {
                assert(char_bytes("Disconnect"@)[0] == 68);
            }
            assert(c != char_bytes("Night"@)) by {
                assert(char_bytes("Night"@)[0] == 78);
            }
            assert(c != char_bytes("Fault"@)) by {
                assert(char_bytes("Fault"@)[0] == 70);
            }
            assert(c != char_bytes("BulkMPPT"@)) by {
                assert(char_bytes("BulkMPPT"@)[0] == 66);
            }
        }
        ChargeState::Float => {
            let c = char_bytes("Float"@);
            assert(c.len() == 5);
            assert(c[0] == 70);
            assert(c[1] == 108);
            assert(c[2] == 111);
            assert(c[3] == 97);
            assert(c[4] == 116);
            lemma_dec_enc_string(s, i, c);
            assert(s[i] == enc_string(c)[0]);
            assert(c != char_bytes("Start"@)) by {
                assert(char_bytes("Start"@)[0] == 83);
            }
            assert(c != char_bytes("NightCheck"@)) by {
                assert(char_bytes("NightCheck"@)[0] == 78);
            }
            assert(c != char_bytes("Disconnect"@)) by {
                assert(char_bytes("Disconnect"@)[0] == 68);
            }
            assert(c != char_bytes("Night"@)) by {
                assert(char_bytes("Night"@)[0] == 78);
            }
            assert(c != char_bytes("Fault"@)) by {
                assert(char_bytes("Fault"@)[1] == 97);
            }
            assert(c != char_bytes("BulkMPPT"@)) by {
                assert(char_bytes("BulkMPPT"@)[0] == 66);
            }
            assert(c != char_bytes("Absorption"@)) by {
                assert(char_bytes("Absorption"@)[0] == 65);
            }
        }
        ChargeState::Equalize => {
            let c = char_bytes("Equalize"@);
            assert(c.len() == 8);
            assert(c[0] == 69);
            assert(c[1] == 113);
            assert(c[2] == 117);
            assert(c[3] == 97);
            assert(c[4] == 108);
            assert(c[5] == 105);
            assert(c[6] == 122);
            assert(c[7] == 101);
            lemma_dec_enc_string(s, i, c);
            assert(s[i] == enc_string(c)[0]);
            assert(c != char_bytes("Start"@)) by {
                assert(char_bytes("Start"@)[0] == 83);
            }
            assert(c != char_bytes("NightCheck"@)) by {
                assert(char_bytes("NightCheck"@)[0] == 78);
            }
            assert(c != char_bytes("Disconnect"@)) by {
                assert(char_bytes("Disconnect"@)[0] == 68);
            }
            assert(c != char_bytes("Night"@)) by {
                assert(char_bytes("Night"@)[0] == 78);
            }
            assert(c != char_bytes("Fault"@)) by {
                assert(char_bytes("Fault"@)[0] == 70);
            }
            assert(c != char_bytes("BulkMPPT"@)) by {
                assert(char_bytes("BulkMPPT"@)[0] == 66);
            }
            assert(c != char_bytes("Absorption"@)) by {
                assert(char_bytes("Absorption"@)[0] == 65);
            }
            assert(c != char_bytes("Float"@)) by {
                assert(char_bytes("Float"@)[0] == 70);
            }
        }
        ChargeState::Slave => {
            let c = char_bytes("Slave"@);
            assert(c.len() == 5);
            assert(c[0] == 83);
            assert(c[1] == 108);
            assert(c[2] == 97);
            assert(c[3] == 118);
            assert(c[4] == 101);
            lemma_dec_enc_string(s, i, c);
            assert(s[i] == enc_string(c)[0]);
            assert(c != char_bytes("Start"@)) by {
                assert(char_bytes("Start"@)[1] == 116);
            }
            assert(c != char_bytes("NightCheck"@)) by {
                assert(char_bytes("NightCheck"@)[0] == 78);
            }
            assert(c != char_bytes("Disconnect"@)) by {
                assert(char_bytes("Disconnect"@)[0] == 68);
            }
            assert(c != char_bytes("Night"@)) by {
                assert(char_bytes("Night"@)[0] == 78);
            }
            assert(c != char_bytes("Fault"@)) by {
                assert(char_bytes("Fault"@)[0] == 70);
            }
            assert(c != char_bytes("BulkMPPT"@)) by {
                assert(char_bytes("BulkMPPT"@)[0] == 66);
            }
            assert(c != char_bytes("Absorption"@)) by {
                assert(char_bytes("Absorption"@)[0] == 65);
            }
            assert(c != char_bytes("Float"@)) by {
                assert(char_bytes("Float"@)[0] == 70);
            }
            assert(c != char_bytes("Equalize"@)) by {
                assert(char_bytes("Equalize"@)[0] == 69);
            }
        }
        ChargeState::Fixed => {
            let c = char_bytes("Fixed"@);
            assert(c.len() == 5);
            assert(c[0] == 70);
            assert(c[1] == 105);
            assert(c[2] == 120);
            assert(c[3] == 101);
            assert(c[4] == 100);
            lemma_dec_enc_string(s, i, c);
            assert(s[i] == enc_string(c)[0]);
            assert(c != char_bytes("Start"@)) by {
                assert(char_bytes("Start"@)[0] == 83);
            }
            assert(c != char_bytes("NightCheck"@)) by {
                assert(char_bytes("NightCheck"@)[0] == 78);
            }
            assert(c != char_bytes("Disconnect"@)) by {
                assert(char_bytes("Disconnect"@)[0] == 68);
            }
            assert(c != char_bytes("Night"@)) by {
                assert(char_bytes("Night"@)[0] == 78);
            }
            assert(c != char_bytes("Fault"@)) by {
                assert(char_bytes("Fault"@)[1] == 97);
            }
            assert(c != char_bytes("BulkMPPT"@)) by {
                assert(char_bytes("BulkMPPT"@)[0] == 66);
            }
            assert(c != char_bytes("Absorption"@)) by {
                assert(char_bytes("Absorption"@)[0] == 65);
            }
            assert(c != char_bytes("Float"@)) by {
                assert(char_bytes("Float"@)[1] == 108);
            }
            assert(c != char_bytes("Equalize"@)) by {
                assert(char_bytes("Equalize"@)[0] == 69);
            }
            assert(c != char_bytes("Slave"@)) by {
                assert(char_bytes("Slave"@)[0] == 83);
            }
        }
    }
}

/// Expect a cs at `pos`.
pub fn parse_cs(b: &Vec<u8>, pos: usize) -> (r: Option<(ChargeState, usize)>)
    ensures
        match r {
            Some((v, e)) => pos <= e <= b@.len() && dec_cs_at(b@, pos as int) == Some((
                v,
                e as int,
            )),
            None => dec_cs_at(b@, pos as int) is None,
        },
{
    proof {
        reveal_strlit("Start");
        reveal_strlit("NightCheck");
        reveal_strlit("Disconnect");
        reveal_strlit("Night");
        reveal_strlit("Fault");
        reveal_strlit("BulkMPPT");
        reveal_strlit("Absorption");
        reveal_strlit("Float");
        reveal_strlit("Equalize");
        reveal_strlit("Slave");
        reveal_strlit("Fixed");
        reveal_strlit("{\"UnknownState\":");
    }
    if pos < b.len() && b[pos] == 34 {
        match parse_string(b, pos) {
            Some((c, e)) => {
                if bytes_eq_lit(&c, "Start") {
                    Some((ChargeState::Start, e))
                } else if bytes_eq_lit(&c, "NightCheck") {
                    Some((ChargeState::NightCheck, e))
                } else if bytes_eq_lit(&c, "Disconnect") {
                    Some((ChargeState::Disconnect, e))
                } else if bytes_eq_lit(&c, "Night") {
                    Some((ChargeState::Night, e))
                } else if bytes_eq_lit(&c, "Fault") {
                    Some((ChargeState::Fault, e))
                } else if bytes_eq_lit(&c, "BulkMPPT") {
                    Some((ChargeState::BulkMPPT, e))
                } else if bytes_eq_lit(&c, "Absorption") {
                    Some((ChargeState::Absorption, e))
                } else if bytes_eq_lit(&c, "Float") {
                    Some((ChargeState::Float, e))
                } else if bytes_eq_lit(&c, "Equalize") {
                    Some((ChargeState::Equalize, e))
                } else if bytes_eq_lit(&c, "Slave") {
                    Some((ChargeState::Slave, e))
                } else if bytes_eq_lit(&c, "Fixed") {
                    Some((ChargeState::Fixed, e))
                } else {
                    None
                }
            }
            None => None,
        }
    } else {
        match expect_lit(b, pos, "{\"UnknownState\":") {
            Some(p) => match parse_u64(b, p) {
                Some((x, e)) => {
                    if x <= 65535 && e < b.len() && b[e] == 125 {
                        Some((ChargeState::UnknownState(x as u16), e + 1))
                    } else {
                        None
                    }
                }
                None => None,
            },
            None => None,
        }
    }
}
/// A load state on the wire: the stage name quoted, or the raw register
/// value under the unknown tag.
pub open spec fn enc_ls(v: LoadState) -> Seq<u8> {
    match v {
        LoadState::Unknown(x) => char_bytes("{\"Unknown\":"@) + u64_digits(x as nat) + seq![125u8],
        LoadState::Start => enc_string(char_bytes("Start"@)),
        LoadState::LVDWarning => enc_string(char_bytes("LVDWarning"@)),
        LoadState::LVD => enc_string(char_bytes("LVD"@)),
        LoadState::Fault => enc_string(char_bytes("Fault"@)),
        LoadState::Disconnect => enc_string(char_bytes("Disconnect"@)),
        LoadState::NormalOff => enc_string(char_bytes("NormalOff"@)),
        LoadState::Override => enc_string(char_bytes("Override"@)),
        LoadState::Normal => enc_string(char_bytes("Normal"@)),
        LoadState::NotUsed => enc_string(char_bytes("NotUsed"@)),
    }
}

/// The stage named by quoted-string content, if any.
pub open spec fn ls_of_name(c: Seq<u8>) -> Option<LoadState> {
    if c == char_bytes("Start"@) {
        Some(LoadState::Start)
    } else if c == char_bytes("LVDWarning"@) {
        Some(LoadState::LVDWarning)
    } else if c == char_bytes("LVD"@) {
        Some(LoadState::LVD)
    } else if c == char_bytes("Fault"@) {
        Some(LoadState::Fault)
    } else if c == char_bytes("Disconnect"@) {
        Some(LoadState::Disconnect)
    } else if c == char_bytes("NormalOff"@) {
        Some(LoadState::NormalOff)
    } else if c == char_bytes("Override"@) {
        Some(LoadState::Override)
    } else if c == char_bytes("Normal"@) {
        Some(LoadState::Normal)
    } else if c == char_bytes("NotUsed"@) {
        Some(LoadState::NotUsed)
    } else {
        None
    }
}

/// Decode a ls at `i`.
pub open spec fn dec_ls_at(s: Seq<u8>, i: int) -> Option<(LoadState, int)> {
    if 0 <= i < s.len() && s[i] == 34 {
        match dec_string_at(s, i) {
            Some((c, e)) => match ls_of_name(c) {
                Some(v) => Some((v, e)),
                None => None,
            },
            None => None,
        }
    } else {
        match dec_lit(s, i, char_bytes("{\"Unknown\":"@)) {
            Some(p) => match dec_u64_at(s, p) {
                Some((x, e)) => if x <= 65535 && e < s.len() && s[e] == 125 {
                    Some((LoadState::Unknown(x as u16), e + 1))
                } else {
                    None
                },
                None => None,
            },
            None => None,
        }
    }
}

/// Decoding inverts encoding for load-state values.
pub proof fn lemma_dec_enc_ls(s: Seq<u8>, i: int, v: LoadState)
    requires
        0 <= i,
        i + enc_ls(v).len() <= s.len(),
        s.subrange(i, i + enc_ls(v).len() as int) == enc_ls(v),
    ensures
        dec_ls_at(s, i) == Some((v, i + enc_ls(v).len() as int)),
{
    reveal_strlit("Start");
    reveal_strlit("LVDWarning");
    reveal_strlit("LVD");
    reveal_strlit("Fault");
    reveal_strlit("Disconnect");
    reveal_strlit("NormalOff");
    reveal_strlit("Override");
    reveal_strlit("Normal");
    reveal_strlit("NotUsed");
    reveal_strlit("{\"Unknown\":");
    let len = enc_ls(v).len() as int;
    match v {
        LoadState::Unknown(x) => {
            let tag = char_bytes("{\"Unknown\":"@);
            assert(enc_ls(v) =~= tag + (u64_digits(x as nat) + seq![125u8]));
            lemma_split(s, i, i + len, tag, u64_digits(x as nat) + seq![125u8]);
            let p = i + tag.len() as int;
            lemma_split(s, p, i + len, u64_digits(x as nat), seq![125u8]);
            let dlen = u64_digits(x as nat).len() as int;
            assert(s.subrange(p + dlen, i + len)[0] == seq![125u8][0]);
            assert(s[p + dlen] == 125);
            lemma_dec_enc_u64(s, p, x as u64);
            assert(s[i] == tag[0]);
            assert(s[i] == 123);
        }
        LoadState::Start => {
            let c = char_bytes("Start"@);
            assert(c.len() == 5);
            assert(c[0] == 83);
            assert(c[1] == 116);
            assert(c[2] == 97);
            assert(c[3] == 114);
            assert(c[4] == 116);
            lemma_dec_enc_string(s, i, c);
            assert(s[i] == enc_string(c)[0]);
        }
        LoadState::LVDWarning => {
            let c = char_bytes("LVDWarning"@);
            assert(c.len() == 10);
            assert(c[0] == 76);
            assert(c[1] == 86);
            assert(c[2] == 68);
            assert(c[3] == 87);
            assert(c[4] == 97);
            assert(c[5] == 114);
            assert(c[6] == 110);
            assert(c[7] == 105);
            assert(c[8] == 110);
            assert(c[9] == 103);
            lemma_dec_enc_string(s, i, c);
            assert(s[i] == enc_string(c)[0]);
            assert(c != char_bytes("Start"@)) by {
                assert(char_bytes("Start"@)[0] == 83);
            }
        }
        LoadState::LVD => {
            let c = char_bytes("LVD"@);
            assert(c.len() == 3);
            assert(c[0] == 76);
            assert(c[1] == 86);
            assert(c[2] == 68);
            lemma_dec_enc_string(s, i, c);
            assert(s[i] == enc_string(c)[0]);
            assert(c != char_bytes("Start"@)) by {
                assert(char_bytes("Start"@)[0] == 83);
            }
            assert(c != char_bytes("LVDWarning"@)) by {
                assert(c.len() != char_bytes("LVDWarning"@).len());
            }
        }
        LoadState::Fault => {
            let c = char_bytes("Fault"@);
            assert(c.len() == 5);
            assert(c[0] == 70);
            assert(c[1] == 97);
            assert(c[2] == 117);
            assert(c[3] == 108);
            assert(c[4] == 116);
            lemma_dec_enc_string(s, i, c);
            assert(s[i] == enc_string(c)[0]);
            assert(c != char_bytes("Start"@)) by {
                assert(char_bytes("Start"@)[0] == 83);
            }
            assert(c != char_bytes("LVDWarning"@)) by {
                assert(char_bytes("LVDWarning"@)[0] == 76);
            }
            assert(c != char_bytes("LVD"@)) by {
                assert(char_bytes("LVD"@)[0] == 76);
            }
        }
        LoadState::Disconnect => {
            let c = char_bytes("Disconnect"@);
            assert(c.len() == 10);
            assert(c[0] == 68);
            assert(c[1] == 105);
            assert(c[2] == 115);
            assert(c[3] == 99);
            assert(c[4] == 111);
            assert(c[5] == 110);
            assert(c[6] == 110);
            assert(c[7] == 101);
            assert(c[8] == 99);
            assert(c[9] == 116);
            lemma_dec_enc_string(s, i, c);
            assert(s[i] == enc_string(c)[0]);
            assert(c != char_bytes("Start"@)) by {
                assert(char_bytes("Start"@)[0] == 83);
            }
            assert(c != char_bytes("LVDWarning"@)) by {
                assert(char_bytes("LVDWarning"@)[0] == 76);
            }
            assert(c != char_bytes("LVD"@)) by {
                assert(char_bytes("LVD"@)[0] == 76);
            }
            assert(c != char_bytes("Fault"@)) by {
                assert(char_bytes("Fault"@)[0] == 70);
            }
        }
        LoadState::NormalOff => {
            let c = char_bytes("NormalOff"@);
            assert(c.len() == 9);
            assert(c[0] == 78);
            assert(c[1] == 111);
            assert(c[2] == 114);
            assert(c[3] == 109);
            assert(c[4] == 97);
            assert(c[5] == 108);
            assert(c[6] == 79);
            assert(c[7] == 102);
            assert(c[8] == 102);
            lemma_dec_enc_string(s, i, c);
            assert(s[i] == enc_string(c)[0]);
            assert(c != char_bytes("Start"@)) by {
                assert(char_bytes("Start"@)[0] == 83);
            }
            assert(c != char_bytes("LVDWarning"@)) by {
                assert(char_bytes("LVDWarning"@)[0] == 76);
            }
            assert(c != char_bytes("LVD"@)) by {
                assert(char_bytes("LVD"@)[0] == 76);
            }
            assert(c != char_bytes("Fault"@)) by {
                assert(char_bytes("Fault"@)[0] == 70);
            }
            assert(c != char_bytes("Disconnect"@)) by {
                assert(char_bytes("Disconnect"@)[0] == 68);
            }
        }
        LoadState::Override => {
            let c = char_bytes("Override"@);
            assert(c.len() == 8);
            assert(c[0] == 79);
            assert(c[1] == 118);
            assert(c[2] == 101);
            assert(c[3] == 114);
            assert(c[4] == 114);
            assert(c[5] == 105);
            assert(c[6] == 100);
            assert(c[7] == 101);
            lemma_dec_enc_string(s, i, c);
            assert(s[i] == enc_string(c)[0]);
            assert(c != char_bytes("Start"@)) by {
                assert(char_bytes("Start"@)[0] == 83);
            }
            assert(c != char_bytes("LVDWarning"@)) by {
                assert(char_bytes("LVDWarning"@)[0] == 76);
            }
            assert(c != char_bytes("LVD"@)) by {
                assert(char_bytes("LVD"@)[0] == 76);
            }
            assert(c != char_bytes("Fault"@)) by {
                assert(char_bytes("Fault"@)[0] == 70);
            }
            assert(c != char_bytes("Disconnect"@)) by {
                assert(char_bytes("Disconnect"@)[0] == 68);
            }
            assert(c != char_bytes("NormalOff"@)) by {
                assert(char_bytes("NormalOff"@)[0] == 78);
            }
        }
        LoadState::Normal => {
            let c = char_bytes("Normal"@);
            assert(c.len() == 6);
            assert(c[0] == 78);
            assert(c[1] == 111);
            assert(c[2] == 114);
            assert(c[3] == 109);
            assert(c[4] == 97);
            assert(c[5] == 108);
            lemma_dec_enc_string(s, i, c);
            assert(s[i] == enc_string(c)[0]);
            assert(c != char_bytes("Start"@)) by {
                assert(char_bytes("Start"@)[0] == 83);
            }
            assert(c != char_bytes("LVDWarning"@)) by {
                assert(char_bytes("LVDWarning"@)[0] == 76);
            }
            assert(c != char_bytes("LVD"@)) by {
                assert(char_bytes("LVD"@)[0] == 76);
            }
            assert(c != char_bytes("Fault"@)) by {
                assert(char_bytes("Fault"@)[0] == 70);
            }
            assert(c != char_bytes("Disconnect"@)) by {
                assert(char_bytes("Disconnect"@)[0] == 68);
            }
            assert(c != char_bytes("NormalOff"@)) by {
                assert(c.len() != char_bytes("NormalOff"@).len());
            }
            assert(c != char_bytes("Override"@)) by {
                assert(char_bytes("Override"@)[0] == 79);
            }
        }
        LoadState::NotUsed => {
            let c = char_bytes("NotUsed"@);
            assert(c.len() == 7);
            assert(c[0] == 78);
            assert(c[1] == 111);
            assert(c[2] == 116);
            assert(c[3] == 85);
            assert(c[4] == 115);
            assert(c[5] == 101);
            assert(c[6] == 100);
            lemma_dec_enc_string(s, i, c);
            assert(s[i] == enc_string(c)[0]);
            assert(c != char_bytes("Start"@)) by {
                assert(char_bytes("Start"@)[0] == 83);
            }
            assert(c != char_bytes("LVDWarning"@)) by {
                assert(char_bytes("LVDWarning"@)[0] == 76);
            }
            assert(c != char_bytes("LVD"@)) by {
                assert(char_bytes("LVD"@)[0] == 76);
            }
            assert(c != char_bytes("Fault"@)) by {
                assert(char_bytes("Fault"@)[0] == 70);
            }
            assert(c != char_bytes("Disconnect"@)) by {
                assert(char_bytes("Disconnect"@)[0] == 68);
            }
            assert(c != char_bytes("NormalOff"@)) by {
                assert(char_bytes("NormalOff"@)[2] == 114);
            }
            assert(c != char_bytes("Override"@)) by {
                assert(char_bytes("Override"@)[0] == 79);
            }
            assert(c != char_bytes("Normal"@)) by {
                assert(char_bytes("Normal"@)[2] == 114);
            }
        }
    }
}

/// Expect a ls at `pos`.
pub fn parse_ls(b: &Vec<u8>, pos: usize) -> (r: Option<(LoadState, usize)>)
    ensures
        match r {
            Some((v, e)) => pos <= e <= b@.len() && dec_ls_at(b@, pos as int) == Some((
                v,
                e as int,
            )),
            None => dec_ls_at(b@, pos as int) is None,
        },
{
    proof {
        reveal_strlit("Start");
        reveal_strlit("LVDWarning");
        reveal_strlit("LVD");
        reveal_strlit("Fault");
        reveal_strlit("Disconnect");
        reveal_strlit("NormalOff");
        reveal_strlit("Override");
        reveal_strlit("Normal");
        reveal_strlit("NotUsed");
        reveal_strlit("{\"Unknown\":");
    }
    if pos < b.len() && b[pos] == 34 {
        match parse_string(b, pos) {
            Some((c, e)) => {
                if bytes_eq_lit(&c, "Start") {
                    Some((LoadState::Start, e))
                } else if bytes_eq_lit(&c, "LVDWarning") {
                    Some((LoadState::LVDWarning, e))
                } else if bytes_eq_lit(&c, "LVD") {
                    Some((LoadState::LVD, e))
                } else if bytes_eq_lit(&c, "Fault") {
                    Some((LoadState::Fault, e))
                } else if bytes_eq_lit(&c, "Disconnect") {
                    Some((LoadState::Disconnect, e))
                } else if bytes_eq_lit(&c, "NormalOff") {
                    Some((LoadState::NormalOff, e))
                } else if bytes_eq_lit(&c, "Override") {
                    Some((LoadState::Override, e))
                } else if bytes_eq_lit(&c, "Normal") {
                    Some((LoadState::Normal, e))
                } else if bytes_eq_lit(&c, "NotUsed") {
                    Some((LoadState::NotUsed, e))
                } else {
                    None
                }
            }
            None => None,
        }
    } else {
        match expect_lit(b, pos, "{\"Unknown\":") {
            Some(p) => match parse_u64(b, p) {
                Some((x, e)) => {
                    if x <= 65535 && e < b.len() && b[e] == 125 {
                        Some((LoadState::Unknown(x as u16), e + 1))
                    } else {
                        None
                    }
                }
                None => None,
            },
            None => None,
        }
    }
}

/// Append the bytes of the ASCII literal `lit`.
pub fn push_lit(out: &mut Vec<u8>, lit: &str)
    requires
        lit.is_ascii(),
    ensures
        final(out)@ == old(out)@ + char_bytes(lit@),
{
    let n: usize = lit.unicode_len();
    let mut j: usize = 0;
    while j < n
        invariant
            0 <= j <= n,
            lit.is_ascii(),
            n == char_bytes(lit@).len(),
            out@ == old(out)@ + char_bytes(lit@).subrange(0, j as int),
        decreases n - j,
    {
        out.push(lit.get_ascii(j));
        j = j + 1;
        assert(out@ =~= old(out)@ + char_bytes(lit@).subrange(0, j as int));
    }
    assert(out@ =~= old(out)@ + char_bytes(lit@));
}

/// Append a named signed-integer member.
pub fn encode_field_i64(out: &mut Vec<u8>, name: &str, v: i64, term: u8)
    requires
        name.is_ascii(),
    ensures
        final(out)@ == old(out)@ + enc_field_i64(char_bytes(name@), v as int, term),
{
    push_lit(out, name);
    enc_i64(v, out);
    out.push(term);
    assert(out@ =~= old(out)@ + enc_field_i64(char_bytes(name@), v as int, term));
}

/// Append a named boolean member.
pub fn encode_field_bool(out: &mut Vec<u8>, name: &str, v: bool, term: u8)
    requires
        name.is_ascii(),
    ensures
        final(out)@ == old(out)@ + enc_field_bool(char_bytes(name@), v, term),
{
    proof {
        reveal_strlit("true");
        reveal_strlit("false");
    }
    push_lit(out, name);
    if v {
        push_lit(out, "true");
    } else {
        push_lit(out, "false");
    }
    out.push(term);
    assert(out@ =~= old(out)@ + enc_field_bool(char_bytes(name@), v, term));
}

/// Append a named optional signed-integer member.
pub fn encode_field_opt_i64(out: &mut Vec<u8>, name: &str, v: Option<i64>, term: u8)
    requires
        name.is_ascii(),
    ensures
        final(out)@ == old(out)@ + enc_field_opt_i64(char_bytes(name@), v, term),
{
    proof {
        reveal_strlit("null");
    }
    push_lit(out, name);
    match v {
        None => push_lit(out, "null"),
        Some(x) => enc_i64(x, out),
    }
    out.push(term);
    assert(out@ =~= old(out)@ + enc_field_opt_i64(char_bytes(name@), v, term));
}


/// Append a cs value.
pub fn encode_cs(out: &mut Vec<u8>, v: ChargeState)
    ensures
        final(out)@ == old(out)@ + enc_cs(v),
{
    proof {
        reveal_strlit("Start");
        reveal_strlit("\"Start\"");
        reveal_strlit("NightCheck");
        reveal_strlit("\"NightCheck\"");
        reveal_strlit("Disconnect");
        reveal_strlit("\"Disconnect\"");
        reveal_strlit("Night");
        reveal_strlit("\"Night\"");
        reveal_strlit("Fault");
        reveal_strlit("\"Fault\"");
        reveal_strlit("BulkMPPT");
        reveal_strlit("\"BulkMPPT\"");
        reveal_strlit("Absorption");
        reveal_strlit("\"Absorption\"");
        reveal_strlit("Float");
        reveal_strlit("\"Float\"");
        reveal_strlit("Equalize");
        reveal_strlit("\"Equalize\"");
        reveal_strlit("Slave");
        reveal_strlit("\"Slave\"");
        reveal_strlit("Fixed");
        reveal_strlit("\"Fixed\"");
        reveal_strlit("{\"UnknownState\":");
    }
    match v {
        ChargeState::UnknownState(x) => {
            push_lit(out, "{\"UnknownState\":");
            enc_u64(x as u64, out);
            out.push(125);
            assert(out@ =~= old(out)@ + enc_cs(v));
        }
        ChargeState::Start => {
            push_lit(out, "\"Start\"");
            assert(char_bytes("\"Start\""@) =~= enc_string(char_bytes("Start"@)));
        }
        ChargeState::NightCheck => {
            push_lit(out, "\"NightCheck\"");
            assert(char_bytes("\"NightCheck\""@) =~= enc_string(char_bytes("NightCheck"@)));
        }
        ChargeState::Disconnect => {
            push_lit(out, "\"Disconnect\"");
            assert(char_bytes("\"Disconnect\""@) =~= enc_string(char_bytes("Disconnect"@)));
        }
        ChargeState::Night => {
            push_lit(out, "\"Night\"");
            assert(char_bytes("\"Night\""@) =~= enc_string(char_bytes("Night"@)));
        }
        ChargeState::Fault => {
            push_lit(out, "\"Fault\"");
            assert(char_bytes("\"Fault\""@) =~= enc_string(char_bytes("Fault"@)));
        }
        ChargeState::BulkMPPT => {
            push_lit(out, "\"BulkMPPT\"");
            assert(char_bytes("\"BulkMPPT\""@) =~= enc_string(char_bytes("BulkMPPT"@)));
        }
        ChargeState::Absorption => {
            push_lit(out, "\"Absorption\"");
            assert(char_bytes("\"Absorption\""@) =~= enc_string(char_bytes("Absorption"@)));
        }
        ChargeState::Float => {
            push_lit(out, "\"Float\"");
            assert(char_bytes("\"Float\""@) =~= enc_string(char_bytes("Float"@)));
        }
        ChargeState::Equalize => {
            push_lit(out, "\"Equalize\"");
            assert(char_bytes("\"Equalize\""@) =~= enc_string(char_bytes("Equalize"@)));
        }
        ChargeState::Slave => {
            push_lit(out, "\"Slave\"");
            assert(char_bytes("\"Slave\""@) =~= enc_string(char_bytes("Slave"@)));
        }
        ChargeState::Fixed => {
            push_lit(out, "\"Fixed\"");
            assert(char_bytes("\"Fixed\""@) =~= enc_string(char_bytes("Fixed"@)));
        }
    }
}

/// A named cs member.
pub open spec fn enc_field_cs(name: Seq<u8>, v: ChargeState, term: u8) -> Seq<u8> {
    name + enc_cs(v) + seq![term]
}

/// Decode a named cs member.
pub open spec fn dec_field_cs(s: Seq<u8>, i: int, name: Seq<u8>, term: u8) -> Option<
    (ChargeState, int),
> {
    match dec_lit(s, i, name) {
        Some(p) => match dec_cs_at(s, p) {
            Some((v, e)) => if e < s.len() && s[e] == term {
                Some((v, e + 1))
            } else {
                None
            },
            None => None,
        },
        None => None,
    }
}

/// Decoding inverts encoding for named cs members.
pub proof fn lemma_dec_enc_field_cs(s: Seq<u8>, i: int, name: Seq<u8>, v: ChargeState, term: u8)
    requires
        0 <= i,
        i + enc_field_cs(name, v, term).len() <= s.len(),
        s.subrange(i, i + enc_field_cs(name, v, term).len() as int) == enc_field_cs(
            name,
            v,
            term,
        ),
    ensures
        dec_field_cs(s, i, name, term) == Some((
            v,
            i + enc_field_cs(name, v, term).len() as int,
        )),
{
    let j = i + enc_field_cs(name, v, term).len() as int;
    assert(enc_field_cs(name, v, term) =~= name + (enc_cs(v) + seq![term]));
    lemma_split(s, i, j, name, enc_cs(v) + seq![term]);
    let p = i + name.len() as int;
    lemma_split(s, p, j, enc_cs(v), seq![term]);
    let e = p + enc_cs(v).len() as int;
    assert(s[e] == seq![term][0]);
    lemma_dec_enc_cs(s, p, v);
}

/// Expect a named cs member at `pos`.
pub fn parse_field_cs(b: &Vec<u8>, pos: usize, name: &str, term: u8) -> (r: Option<
    (ChargeState, usize),
>)
    requires
        name.is_ascii(),
    ensures
        match r {
            Some((v, e)) => pos <= e <= b@.len() && dec_field_cs(
                b@,
                pos as int,
                char_bytes(name@),
                term,
            ) == Some((v, e as int)),
            None => dec_field_cs(b@, pos as int, char_bytes(name@), term) is None,
        },
{
    match expect_lit(b, pos, name) {
        Some(p) => match parse_cs(b, p) {
            Some((v, e)) => {
                if e < b.len() && b[e] == term {
                    Some((v, e + 1))
                } else {
                    None
                }
            }
            None => None,
        },
        None => None,
    }
}

/// Append a named cs member.
pub fn encode_field_cs(out: &mut Vec<u8>, name: &str, v: ChargeState, term: u8)
    requires
        name.is_ascii(),
    ensures
        final(out)@ == old(out)@ + enc_field_cs(char_bytes(name@), v, term),
{
    push_lit(out, name);
    encode_cs(out, v);
    out.push(term);
    assert(out@ =~= old(out)@ + enc_field_cs(char_bytes(name@), v, term));
}
/// Append a ls value.
pub fn encode_ls(out: &mut Vec<u8>, v: LoadState)
    ensures
        final(out)@ == old(out)@ + enc_ls(v),
{
    proof {
        reveal_strlit("Start");
        reveal_strlit("\"Start\"");
        reveal_strlit("LVDWarning");
        reveal_strlit("\"LVDWarning\"");
        reveal_strlit("LVD");
        reveal_strlit("\"LVD\"");
        reveal_strlit("Fault");
        reveal_strlit("\"Fault\"");
        reveal_strlit("Disconnect");
        reveal_strlit("\"Disconnect\"");
        reveal_strlit("NormalOff");
        reveal_strlit("\"NormalOff\"");
        reveal_strlit("Override");
        reveal_strlit("\"Override\"");
        reveal_strlit("Normal");
        reveal_strlit("\"Normal\"");
        reveal_strlit("NotUsed");
        reveal_strlit("\"NotUsed\"");
        reveal_strlit("{\"Unknown\":");
    }
    match v {
        LoadState::Unknown(x) => {
            push_lit(out, "{\"Unknown\":");
            enc_u64(x as u64, out);
            out.push(125);
            assert(out@ =~= old(out)@ + enc_ls(v));
        }
        LoadState::Start => {
            push_lit(out, "\"Start\"");
            assert(char_bytes("\"Start\""@) =~= enc_string(char_bytes("Start"@)));
        }
        LoadState::LVDWarning => {
            push_lit(out, "\"LVDWarning\"");
            assert(char_bytes("\"LVDWarning\""@) =~= enc_string(char_bytes("LVDWarning"@)));
        }
        LoadState::LVD => {
            push_lit(out, "\"LVD\"");
            assert(char_bytes("\"LVD\""@) =~= enc_string(char_bytes("LVD"@)));
        }
        LoadState::Fault => {
            push_lit(out, "\"Fault\"");
            assert(char_bytes("\"Fault\""@) =~= enc_string(char_bytes("Fault"@)));
        }
        LoadState::Disconnect => {
            push_lit(out, "\"Disconnect\"");
            assert(char_bytes("\"Disconnect\""@) =~= enc_string(char_bytes("Disconnect"@)));
        }
        LoadState::NormalOff => {
            push_lit(out, "\"NormalOff\"");
            assert(char_bytes("\"NormalOff\""@) =~= enc_string(char_bytes("NormalOff"@)));
        }
        LoadState::Override => {
            push_lit(out, "\"Override\"");
            assert(char_bytes("\"Override\""@) =~= enc_string(char_bytes("Override"@)));
        }
        LoadState::Normal => {
            push_lit(out, "\"Normal\"");
            assert(char_bytes("\"Normal\""@) =~= enc_string(char_bytes("Normal"@)));
        }
        LoadState::NotUsed => {
            push_lit(out, "\"NotUsed\"");
            assert(char_bytes("\"NotUsed\""@) =~= enc_string(char_bytes("NotUsed"@)));
        }
    }
}

/// A named ls member.
pub open spec fn enc_field_ls(name: Seq<u8>, v: LoadState, term: u8) -> Seq<u8> {
    name + enc_ls(v) + seq![term]
}

/// Decode a named ls member.
pub open spec fn dec_field_ls(s: Seq<u8>, i: int, name: Seq<u8>, term: u8) -> Option<
    (LoadState, int),
> {
    match dec_lit(s, i, name) {
        Some(p) => match dec_ls_at(s, p) {
            Some((v, e)) => if e < s.len() && s[e] == term {
                Some((v, e + 1))
            } else {
                None
            },
            None => None,
        },
        None => None,
    }
}

/// Decoding inverts encoding for named ls members.
pub proof fn lemma_dec_enc_field_ls(s: Seq<u8>, i: int, name: Seq<u8>, v: LoadState, term: u8)
    requires
        0 <= i,
        i + enc_field_ls(name, v, term).len() <= s.len(),
        s.subrange(i, i + enc_field_ls(name, v, term).len() as int) == enc_field_ls(
            name,
            v,
            term,
        ),
    ensures
        dec_field_ls(s, i, name, term) == Some((
            v,
            i + enc_field_ls(name, v, term).len() as int,
        )),
{
    let j = i + enc_field_ls(name, v, term).len() as int;
    assert(enc_field_ls(name, v, term) =~= name + (enc_ls(v) + seq![term]));
    lemma_split(s, i, j, name, enc_ls(v) + seq![term]);
    let p = i + name.len() as int;
    lemma_split(s, p, j, enc_ls(v), seq![term]);
    let e = p + enc_ls(v).len() as int;
    assert(s[e] == seq![term][0]);
    lemma_dec_enc_ls(s, p, v);
}

/// Expect a named ls member at `pos`.
pub fn parse_field_ls(b: &Vec<u8>, pos: usize, name: &str, term: u8) -> (r: Option<
    (LoadState, usize),
>)
    requires
        name.is_ascii(),
    ensures
        match r {
            Some((v, e)) => pos <= e <= b@.len() && dec_field_ls(
                b@,
                pos as int,
                char_bytes(name@),
                term,
            ) == Some((v, e as int)),
            None => dec_field_ls(b@, pos as int, char_bytes(name@), term) is None,
        },
{
    match expect_lit(b, pos, name) {
        Some(p) => match parse_ls(b, p) {
            Some((v, e)) => {
                if e < b.len() && b[e] == term {
                    Some((v, e + 1))
                } else {
                    None
                }
            }
            None => None,
        },
        None => None,
    }
}

/// Append a named ls member.
pub fn encode_field_ls(out: &mut Vec<u8>, name: &str, v: LoadState, term: u8)
    requires
        name.is_ascii(),
    ensures
        final(out)@ == old(out)@ + enc_field_ls(char_bytes(name@), v, term),
{
    push_lit(out, name);
    encode_ls(out, v);
    out.push(term);
    assert(out@ =~= old(out)@ + enc_field_ls(char_bytes(name@), v, term));
}


/// A named u16 member, carried as a decimal integer.
pub open spec fn dec_field_u16(s: Seq<u8>, i: int, name: Seq<u8>, term: u8) -> Option<
    (u16, int),
> {
    match dec_field_i64(s, i, name, term) {
        Some((x, e)) => if 0 <= x <= 0xffff {
            Some((x as u16, e))
        } else {
            None
        },
        None => None,
    }
}

/// Decoding inverts encoding for named u16 members.
pub proof fn lemma_dec_enc_field_u16(s: Seq<u8>, i: int, name: Seq<u8>, v: u16, term: u8)
    requires
        0 <= i,
        !is_digit(term),
        i + enc_field_i64(name, v as int, term).len() <= s.len(),
        s.subrange(i, i + enc_field_i64(name, v as int, term).len() as int) == enc_field_i64(
            name,
            v as int,
            term,
        ),
    ensures
        dec_field_u16(s, i, name, term) == Some((
            v,
            i + enc_field_i64(name, v as int, term).len() as int,
        )),
{
    lemma_dec_enc_field_i64(s, i, name, v as i64, term);
}

/// Expect a named u16 member at `pos`.
pub fn parse_field_u16(b: &Vec<u8>, pos: usize, name: &str, term: u8) -> (r: Option<
    (u16, usize),
>)
    requires
        name.is_ascii(),
    ensures
        match r {
            Some((v, e)) => pos <= e <= b@.len() && dec_field_u16(
                b@,
                pos as int,
                char_bytes(name@),
                term,
            ) == Some((v, e as int)),
            None => dec_field_u16(b@, pos as int, char_bytes(name@), term) is None,
        },
{
    match parse_field_i64(b, pos, name, term) {
        Some((x, e)) => {
            if 0 <= x && x <= 0xffff {
                Some((x as u16, e))
            } else {
                None
            }
        }
        None => None,
    }
}

/// A named u32 member, carried as a decimal integer.
pub open spec fn dec_field_u32(s: Seq<u8>, i: int, name: Seq<u8>, term: u8) -> Option<
    (u32, int),
> {
    match dec_field_i64(s, i, name, term) {
        Some((x, e)) => if 0 <= x <= 0xffffffff {
            Some((x as u32, e))
        } else {
            None
        },
        None => None,
    }
}

/// Decoding inverts encoding for named u32 members.
pub proof fn lemma_dec_enc_field_u32(s: Seq<u8>, i: int, name: Seq<u8>, v: u32, term: u8)
    requires
        0 <= i,
        !is_digit(term),
        i + enc_field_i64(name, v as int, term).len() <= s.len(),
        s.subrange(i, i + enc_field_i64(name, v as int, term).len() as int) == enc_field_i64(
            name,
            v as int,
            term,
        ),
    ensures
        dec_field_u32(s, i, name, term) == Some((
            v,
            i + enc_field_i64(name, v as int, term).len() as int,
        )),
{
    lemma_dec_enc_field_i64(s, i, name, v as i64, term);
}

/// Expect a named u32 member at `pos`.
pub fn parse_field_u32(b: &Vec<u8>, pos: usize, name: &str, term: u8) -> (r: Option<
    (u32, usize),
>)
    requires
        name.is_ascii(),
    ensures
        match r {
            Some((v, e)) => pos <= e <= b@.len() && dec_field_u32(
                b@,
                pos as int,
                char_bytes(name@),
                term,
            ) == Some((v, e as int)),
            None => dec_field_u32(b@, pos as int, char_bytes(name@), term) is None,
        },
{
    match parse_field_i64(b, pos, name, term) {
        Some((x, e)) => {
            if 0 <= x && x <= 0xffffffff {
                Some((x as u32, e))
            } else {
                None
            }
        }
        None => None,
    }
}

/// A named u8 member, carried as a decimal integer.
pub open spec fn dec_field_u8(s: Seq<u8>, i: int, name: Seq<u8>, term: u8) -> Option<
    (u8, int),
> {
    match dec_field_i64(s, i, name, term) {
        Some((x, e)) => if 0 <= x <= 0xff {
            Some((x as u8, e))
        } else {
            None
        },
        None => None,
    }
}

/// Decoding inverts encoding for named u8 members.
pub proof fn lemma_dec_enc_field_u8(s: Seq<u8>, i: int, name: Seq<u8>, v: u8, term: u8)
    requires
        0 <= i,
        !is_digit(term),
        i + enc_field_i64(name, v as int, term).len() <= s.len(),
        s.subrange(i, i + enc_field_i64(name, v as int, term).len() as int) == enc_field_i64(
            name,
            v as int,
            term,
        ),
    ensures
        dec_field_u8(s, i, name, term) == Some((
            v,
            i + enc_field_i64(name, v as int, term).len() as int,
        )),
{
    lemma_dec_enc_field_i64(s, i, name, v as i64, term);
}

/// Expect a named u8 member at `pos`.
pub fn parse_field_u8(b: &Vec<u8>, pos: usize, name: &str, term: u8) -> (r: Option<
    (u8, usize),
>)
    requires
        name.is_ascii(),
    ensures
        match r {
            Some((v, e)) => pos <= e <= b@.len() && dec_field_u8(
                b@,
                pos as int,
                char_bytes(name@),
                term,
            ) == Some((v, e as int)),
            None => dec_field_u8(b@, pos as int, char_bytes(name@), term) is None,
        },
{
    match parse_field_i64(b, pos, name, term) {
        Some((x, e)) => {
            if 0 <= x && x <= 0xff {
                Some((x as u8, e))
            } else {
                None
            }
        }
        None => None,
    }
}

/// Concatenation of byte sequences associates.
pub proof fn lemma_add_assoc(a: Seq<u8>, b: Seq<u8>, c: Seq<u8>)
    ensures
        (a + b) + c =~= a + (b + c),
{
}

/// What a found quote means: the index is in range, holds a quote, and no
/// quote stands before it.
pub proof fn lemma_find_quote_props(s: Seq<u8>, j: int)
    requires
        0 <= j,
    ensures
        match find_quote(s, j) {
            Some(q) => j <= q < s.len() && s[q] == 34 && forall|k: int|
                j <= k < q ==> s[k] != 34,
            None => true,
        },
    decreases s.len() - j,
{
    if 0 <= j < s.len() && s[j] != 34 {
        lemma_find_quote_props(s, j + 1);
    }
}

/// A decoded string accounts for exactly the bytes between its quotes.
pub proof fn lemma_dec_string_sound(s: Seq<u8>, i: int)
    requires
        0 <= i,
    ensures
        match dec_string_at(s, i) {
            Some((c, e)) => i + 2 <= e <= s.len() && s.subrange(i, e) == enc_string(c)
                && forall|k: int| 0 <= k < c.len() ==> #[trigger] c[k] != 34,
            None => true,
        },
{
    if i < s.len() && s[i] == 34 {
        lemma_find_quote_props(s, i + 1);
        match find_quote(s, i + 1) {
            Some(q) => {
                let c = s.subrange(i + 1, q);
                assert(s.subrange(i, q + 1) =~= enc_string(c));
            }
            None => {}
        }
    }
}

/// Append the bytes of another vector.
pub fn push_bytes(out: &mut Vec<u8>, b: &Vec<u8>)
    ensures
        final(out)@ == old(out)@ + b@,
{
    let n: usize = b.len();
    let mut j: usize = 0;
    while j < n
        invariant
            0 <= j <= n,
            n == b@.len(),
            out@ == old(out)@ + b@.subrange(0, j as int),
        decreases n - j,
    {
        out.push(b[j]);
        j = j + 1;
        assert(out@ =~= old(out)@ + b@.subrange(0, j as int));
    }
    assert(out@ =~= old(out)@ + b@);
}

/// True exactly when every byte is below 128.
pub fn all_below_128(v: &Vec<u8>) -> (r: bool)
    ensures
        r == (forall|t: int| 0 <= t < v@.len() ==> #[trigger] v@[t] < 128),
{
    let n: usize = v.len();
    let mut j: usize = 0;
    while j < n
        invariant
            0 <= j <= n,
            n == v@.len(),
            forall|t: int| 0 <= t < j ==> #[trigger] v@[t] < 128,
        decreases n - j,
    {
        if v[j] >= 128 {
            return false;
        }
        j = j + 1;
    }
    true
}

/// A byte of escaped string content on the wire: quote and backslash go
/// behind a backslash, every other byte stands verbatim.
pub open spec fn esc_byte(b: u8) -> Seq<u8> {
    if b == 34 || b == 92 {
        seq![92u8, b]
    } else {
        seq![b]
    }
}

/// String content with its quote and backslash bytes escaped.
pub open spec fn esc_bytes(c: Seq<u8>) -> Seq<u8>
    decreases c.len(),
{
    if c.len() == 0 {
        Seq::<u8>::empty()
    } else {
        esc_byte(c[0]) + esc_bytes(c.skip(1))
    }
}

/// An escaped quoted string: any content at all between the quotes.
pub open spec fn enc_estr(content: Seq<u8>) -> Seq<u8> {
    seq![34u8] + esc_bytes(content) + seq![34u8]
}

/// Decode escaped string content from `j` up to the closing quote.
pub open spec fn dec_estr_body(s: Seq<u8>, j: int) -> Option<(Seq<u8>, int)>
    decreases s.len() - j,
{
    if 0 <= j < s.len() {
        if s[j] == 34 {
            Some((Seq::<u8>::empty(), j + 1))
        } else if s[j] == 92 {
            if j + 1 < s.len() && (s[j + 1] == 34 || s[j + 1] == 92) {
                match dec_estr_body(s, j + 2) {
                    Some((c, e)) => Some((seq![s[j + 1]] + c, e)),
                    None => None,
                }
            } else {
                None
            }
        } else {
            match dec_estr_body(s, j + 1) {
                Some((c, e)) => Some((seq![s[j]] + c, e)),
                None => None,
            }
        }
    } else {
        None
    }
}

/// Decode an escaped quoted string at `i`.
pub open spec fn dec_estr_at(s: Seq<u8>, i: int) -> Option<(Seq<u8>, int)> {
    if 0 <= i < s.len() && s[i] == 34 {
        dec_estr_body(s, i + 1)
    } else {
        None
    }
}

proof fn lemma_dec_estr_body(s: Seq<u8>, j: int, content: Seq<u8>)
    requires
        0 <= j,
        j + esc_bytes(content).len() + 1 <= s.len(),
        s.subrange(j, j + esc_bytes(content).len() + 1) == esc_bytes(content) + seq![34u8],
    ensures
        dec_estr_body(s, j) == Some((content, j + esc_bytes(content).len() + 1)),
    decreases content.len(),
{
    if content.len() == 0 {
        assert(esc_bytes(content) + seq![34u8] =~= seq![34u8]);
        assert(s[j] == s.subrange(j, j + 1)[0]);
        assert(s[j] == 34);
    } else {
        let c0 = content[0];
        let eb = esc_byte(c0);
        let rest = content.skip(1);
        assert(esc_bytes(content) == eb + esc_bytes(rest));
        let total = j + esc_bytes(content).len() + 1;
        assert(esc_bytes(content) + seq![34u8] =~= eb + (esc_bytes(rest) + seq![34u8]));
        lemma_split(s, j, total, eb, esc_bytes(rest) + seq![34u8]);
        let j2 = j + eb.len() as int;
        lemma_dec_estr_body(s, j2, rest);
        if c0 == 34 || c0 == 92 {
            assert(s[j] == eb[0]);
            assert(s[j + 1] == eb[1]);
            assert(s[j] == 92 && s[j + 1] == c0);
            assert(seq![s[j + 1]] + rest =~= content);
        } else {
            assert(s[j] == eb[0]);
            assert(s[j] == c0);
            assert(seq![s[j]] + rest =~= content);
        }
    }
}

/// Decoding inverts encoding for escaped strings, whatever bytes the
/// content holds.
pub proof fn lemma_dec_enc_estr(s: Seq<u8>, i: int, content: Seq<u8>)
    requires
        0 <= i,
        i + enc_estr(content).len() <= s.len(),
        s.subrange(i, i + enc_estr(content).len() as int) == enc_estr(content),
    ensures
        dec_estr_at(s, i) == Some((content, i + enc_estr(content).len() as int)),
{
    let len = enc_estr(content).len() as int;
    assert(enc_estr(content) =~= seq![34u8] + (esc_bytes(content) + seq![34u8]));
    lemma_split(s, i, i + len, seq![34u8], esc_bytes(content) + seq![34u8]);
    assert(s[i] == seq![34u8][0]);
    lemma_dec_estr_body(s, i + 1, content);
}

proof fn lemma_esc_bytes_snoc(c: Seq<u8>, x: u8)
    ensures
        esc_bytes(c.push(x)) == esc_bytes(c) + esc_byte(x),
    decreases c.len(),
{
    let p = c.push(x);
    if c.len() == 0 {
        assert(p[0] == x);
        assert(p.skip(1) =~= Seq::<u8>::empty());
        assert(esc_bytes(p) == esc_byte(p[0]) + esc_bytes(p.skip(1)));
        assert(esc_bytes(Seq::<u8>::empty()) =~= Seq::<u8>::empty());
        assert(esc_byte(x) + Seq::<u8>::empty() =~= esc_byte(x));
        assert(esc_bytes(c) =~= Seq::<u8>::empty());
        assert(esc_bytes(c) + esc_byte(x) =~= esc_byte(x));
    } else {
        assert(p[0] == c[0]);
        assert(p.skip(1) =~= c.skip(1).push(x));
        lemma_esc_bytes_snoc(c.skip(1), x);
        assert(esc_bytes(p) == esc_byte(c[0]) + (esc_bytes(c.skip(1)) + esc_byte(x)));
        assert(esc_byte(c[0]) + (esc_bytes(c.skip(1)) + esc_byte(x)) =~= (esc_byte(c[0])
            + esc_bytes(c.skip(1))) + esc_byte(x));
    }
}

/// Append string content, escaping its quote and backslash bytes.
pub fn encode_esc_bytes(out: &mut Vec<u8>, c: &Vec<u8>)
    ensures
        final(out)@ == old(out)@ + esc_bytes(c@),
{
    let n: usize = c.len();
    let mut k: usize = 0;
    proof {
        assert(c@.take(0) =~= Seq::<u8>::empty());
        assert(esc_bytes(c@.take(0)) =~= Seq::<u8>::empty());
    }
    while k < n
        invariant
            0 <= k <= n,
            n == c@.len(),
            out@ == old(out)@ + esc_bytes(c@.take(k as int)),
        decreases n - k,
    {
        let x = c[k];
        let ghost pre = c@.take(k as int);
        if x == 34 || x == 92 {
            out.push(92);
            out.push(x);
        } else {
            out.push(x);
        }
        proof {
            lemma_esc_bytes_snoc(pre, c@[k as int]);
            assert(c@.take(k as int + 1) =~= pre.push(c@[k as int]));
            assert(out@ =~= old(out)@ + esc_bytes(c@.take(k as int + 1)));
        }
        k = k + 1;
    }
    proof {
        assert(c@.take(n as int) =~= c@);
    }
}

/// Read an escaped quoted string at `pos`, handing back its content bytes.
pub fn parse_estr(b: &Vec<u8>, pos: usize) -> (r: Option<(Vec<u8>, usize)>)
    ensures
        match r {
            Some((v, e)) => pos <= e <= b@.len() && dec_estr_at(b@, pos as int) == Some((
                v@,
                e as int,
            )),
            None => dec_estr_at(b@, pos as int) is None,
        },
{
    if pos >= b.len() || b[pos] != 34 {
        return None;
    }
    let mut j: usize = pos + 1;
    let mut content: Vec<u8> = Vec::new();
    loop
        invariant
            pos + 1 <= j <= b@.len(),
            b@[pos as int] == 34,
            match dec_estr_body(b@, j as int) {
                Some((c, e)) => dec_estr_body(b@, pos as int + 1) == Some((content@ + c, e)),
                None => dec_estr_body(b@, pos as int + 1) is None,
            },
        decreases b@.len() - j,
    {
        if j >= b.len() {
            return None;
        }
        let x = b[j];
        if x == 34 {
            proof {
                assert(content@ + Seq::<u8>::empty() =~= content@);
            }
            return Some((content, j + 1));
        }
        if x == 92 {
            if j + 1 < b.len() && (b[j + 1] == 34 || b[j + 1] == 92) {
                let y = b[j + 1];
                let ghost pre = content@;
                content.push(y);
                proof {
                    match dec_estr_body(b@, j as int + 2) {
                        Some((c, e)) => {
                            assert(pre + (seq![b@[j as int + 1]] + c) =~= content@ + c);
                        }
                        None => {}
                    }
                }
                j = j + 2;
            } else {
                return None;
            }
        } else {
            let ghost pre = content@;
            content.push(x);
            proof {
                match dec_estr_body(b@, j as int + 1) {
                    Some((c, e)) => {
                        assert(pre + (seq![b@[j as int]] + c) =~= content@ + c);
                    }
                    None => {}
                }
            }
            j = j + 1;
        }
    }
}

} // verus!
