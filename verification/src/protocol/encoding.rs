//! Byte-level text encodings used on the wire: lowercase hex, decimal
//! numbers, line splitting, whitespace and UTF-8 validity.
use vstd::prelude::*;
use vstd::utf8::valid_utf8;

verus! {

/// The lowercase hex digit for a value below 16.
pub open spec fn hex_digit(nibble: int) -> u8 {
    if nibble < 10 {
        (48 + nibble) as u8
    } else {
        (87 + nibble) as u8
    }
}

/// Lowercase hex encoding: two digits per byte, high nibble first.
pub open spec fn hex_lower(data: Seq<u8>) -> Seq<u8>
    decreases data.len(),
{
    if data.len() == 0 {
        seq![]
    } else {
        hex_lower(data.drop_last()) + seq![
            hex_digit(data.last() as int / 16),
            hex_digit(data.last() as int % 16),
        ]
    }
}

/// The decimal representation of a natural number, without sign or leading zeros.
pub open spec fn decimal(n: nat) -> Seq<u8>
    decreases n,
{
    if n < 10 {
        seq![(48 + n) as u8]
    } else {
        decimal(n / 10) + seq![(48 + n % 10) as u8]
    }
}

/// True when every byte is an ASCII byte.
pub open spec fn is_ascii_bytes(s: Seq<u8>) -> bool {
    forall|i: int| 0 <= i < s.len() ==> #[trigger] s[i] < 128
}

/// The index of the first `\n` in `s` at or after `from`, or `s.len()` if there is none.
pub open spec fn newline_index_from(s: Seq<u8>, from: int) -> int
    decreases s.len() - from,
{
    if from < 0 || from >= s.len() {
        s.len() as int
    } else if s[from] == 10 {
        from
    } else {
        newline_index_from(s, from + 1)
    }
}

/// The index of the first `\n` in `s`, or `s.len()` if there is none.
pub open spec fn newline_index(s: Seq<u8>) -> int {
    newline_index_from(s, 0)
}

/// The first line of `s` and the rest after it, as `str::lines` yields them:
/// a line ends at `\n`, a `\r` right before that `\n` is dropped, a last line
/// needs no terminator, and an empty input has no line.
pub open spec fn next_line(s: Seq<u8>) -> Option<(Seq<u8>, Seq<u8>)> {
    if s.len() == 0 {
        None
    } else {
        let i = newline_index(s);
        if i == s.len() {
            Some((s, Seq::<u8>::empty()))
        } else if i > 0 && s[i - 1] == 13 {
            Some((s.subrange(0, i - 1), s.subrange(i + 1, s.len() as int)))
        } else {
            Some((s.subrange(0, i), s.subrange(i + 1, s.len() as int)))
        }
    }
}

/// The length of the UTF-8 encoding of a Unicode whitespace character
/// (the `White_Space` property that `char::is_whitespace` tests) at the start
/// of `s`, or 0 if `s` does not start with one.
pub open spec fn whitespace_len(s: Seq<u8>) -> int {
    if s.len() >= 1 && ((9 <= s[0] && s[0] <= 13) || s[0] == 32) {
        1
    } else if s.len() >= 2 && s[0] == 0xC2 && (s[1] == 0x85 || s[1] == 0xA0) {
        2
    } else if s.len() >= 3 && ((s[0] == 0xE1 && s[1] == 0x9A && s[2] == 0x80) || (s[0] == 0xE2
        && s[1] == 0x80 && ((0x80 <= s[2] && s[2] <= 0x8A) || s[2] == 0xA8 || s[2] == 0xA9 || s[2]
        == 0xAF)) || (s[0] == 0xE2 && s[1] == 0x81 && s[2] == 0x9F) || (s[0] == 0xE3 && s[1]
        == 0x80 && s[2] == 0x80)) {
        3
    } else {
        0
    }
}

/// True when `s` is a concatenation of encoded Unicode whitespace characters.
pub open spec fn all_whitespace(s: Seq<u8>) -> bool
    decreases s.len(),
{
    s.len() == 0 || (whitespace_len(s) > 0 && all_whitespace(
        s.subrange(whitespace_len(s), s.len() as int),
    ))
}

/// `prefix` is a prefix of `s`.
pub open spec fn starts_with(s: Seq<u8>, prefix: Seq<u8>) -> bool {
    prefix.len() <= s.len() && s.subrange(0, prefix.len() as int) == prefix
}

/// `needle` occurs somewhere in `s`.
pub open spec fn contains_bytes(s: Seq<u8>, needle: Seq<u8>) -> bool {
    exists|i: int|
        0 <= i && i + needle.len() <= s.len() && #[trigger] s.subrange(i, i + needle.len())
            == needle
}

// ---------------------------------------------------------------------------
// Outside calls.
/// Lowercase hex encoding by `hex::encode`, which maps each byte to its two
/// digits from the table `0123456789abcdef`, high nibble first.
#[verifier::external_body]
pub(crate) fn hex_encode(data: &[u8]) -> (encoded: Vec<u8>)
    ensures
        encoded@ == hex_lower(data@),
{
    hex::encode(data).into_bytes()
}

/// The SHA-512 digest of a byte sequence, as `sha2::Sha512` computes it.
pub uninterp spec fn sha512_digest(data: Seq<u8>) -> Seq<u8>;

/// `<sha2::Sha512 as Digest>::digest`: the digest of `data`, named by
/// `sha512_digest`; its output type holds 64 bytes.
#[verifier::external_body]
pub(crate) fn sha512(data: &[u8]) -> (digest: Vec<u8>)
    ensures
        digest@ == sha512_digest(data@),
        digest@.len() == 64,
{
    <sha2::Sha512 as sha2::Digest>::digest(data).to_vec()
}

/// `std::str::from_utf8` succeeds exactly on well-formed UTF-8, the property
/// that vstd's `valid_utf8` defines.
#[verifier::external_body]
pub(crate) fn is_valid_utf8(bytes: &[u8]) -> (valid: bool)
    ensures
        valid == valid_utf8(bytes@),
{
    std::str::from_utf8(bytes).is_ok()
}

// ---------------------------------------------------------------------------
// Verified encodings.
/// The decimal digits of `n`.
pub fn decimal_digits(n: u64) -> (digits: Vec<u8>)
    ensures
        digits@ == decimal(n as nat),
    decreases n,
{
    if n < 10 {
        let mut v: Vec<u8> = Vec::new();
        v.push(48u8 + n as u8);
        assert(v@ =~= decimal(n as nat));
        v
    } else {
        let mut v = decimal_digits(n / 10);
        v.push(48u8 + (n % 10) as u8);
        assert(v@ =~= decimal(n as nat));
        v
    }
}

/// True when `s[from..]` is made only of encoded whitespace characters.
pub fn is_whitespace_from(s: &[u8], from: usize) -> (ws: bool)
    requires
        from <= s@.len(),
    ensures
        ws == all_whitespace(s@.subrange(from as int, s@.len() as int)),
{
    let mut pos: usize = from;
    while pos < s.len()
        invariant
            from <= pos <= s@.len(),
            all_whitespace(s@.subrange(from as int, s@.len() as int)) == all_whitespace(
                s@.subrange(pos as int, s@.len() as int),
            ),
        decreases s@.len() - pos,
    {
        let ghost rest = s@.subrange(pos as int, s@.len() as int);
        let n = s.len() - pos;
        let b0 = s[pos];
        let w: usize = if (9 <= b0 && b0 <= 13) || b0 == 32 {
            1
        } else if n >= 2 && b0 == 0xC2 && (s[pos + 1] == 0x85 || s[pos + 1] == 0xA0) {
            2
        } else if n >= 3 && ((b0 == 0xE1 && s[pos + 1] == 0x9A && s[pos + 2] == 0x80) || (b0
            == 0xE2 && s[pos + 1] == 0x80 && ((0x80 <= s[pos + 2] && s[pos + 2] <= 0x8A) || s[pos
            + 2] == 0xA8 || s[pos + 2] == 0xA9 || s[pos + 2] == 0xAF)) || (b0 == 0xE2 && s[pos
            + 1] == 0x81 && s[pos + 2] == 0x9F) || (b0 == 0xE3 && s[pos + 1] == 0x80 && s[pos + 2]
            == 0x80)) {
            3
        } else {
            0
        };
        assert(w == whitespace_len(rest));
        if w == 0 {
            return false;
        }
        assert(rest.subrange(w as int, rest.len() as int) =~= s@.subrange(
            pos + w,
            s@.len() as int,
        ));
        pos = pos + w;
    }
    true
}

/// The index of the first `\n` in `s` at or after `from`, or `s.len()` if there is none.
pub fn find_newline(s: &[u8], from: usize) -> (index: usize)
    requires
        from <= s@.len(),
    ensures
        index as int == newline_index_from(s@, from as int),
        index <= s@.len(),
{
    let mut i: usize = from;
    while i < s.len()
        invariant
            from <= i <= s@.len(),
            newline_index_from(s@, from as int) == newline_index_from(s@, i as int),
        decreases s@.len() - i,
    {
        if s[i] == 10 {
            return i;
        }
        i = i + 1;
    }
    i
}

/// Splits off the first line of `s` as `str::lines` does; returns the line and
/// the index where the rest starts.
pub fn split_first_line(s: &[u8]) -> (split: Option<(Vec<u8>, usize)>)
    ensures
        match split {
            None => next_line(s@) is None,
            Some((line, rest_start)) => {
                &&& rest_start <= s@.len()
                &&& next_line(s@) == Some((line@, s@.subrange(rest_start as int, s@.len() as int)))
            },
        },
{
    if s.len() == 0 {
        return None;
    }
    let i = find_newline(s, 0);
    if i == s.len() {
        let line = slice_prefix(s, s.len());
        assert(line@ =~= s@);
        assert(s@.subrange(s@.len() as int, s@.len() as int) =~= Seq::<u8>::empty());
        Some((line, s.len()))
    } else if i > 0 && s[i - 1] == 13 {
        Some((slice_prefix(s, i - 1), i + 1))
    } else {
        Some((slice_prefix(s, i), i + 1))
    }
}

/// A copy of the first `n` bytes of `s`.
pub fn slice_prefix(s: &[u8], n: usize) -> (prefix: Vec<u8>)
    requires
        n <= s@.len(),
    ensures
        prefix@ == s@.subrange(0, n as int),
{
    slice_range(s, 0, n)
}

/// A copy of `s[from..to]`.
pub fn slice_range(s: &[u8], from: usize, to: usize) -> (part: Vec<u8>)
    requires
        from <= to <= s@.len(),
    ensures
        part@ == s@.subrange(from as int, to as int),
{
    let mut v: Vec<u8> = Vec::new();
    let mut i: usize = from;
    while i < to
        invariant
            from <= i <= to <= s@.len(),
            v@ == s@.subrange(from as int, i as int),
        decreases to - i,
    {
        v.push(s[i]);
        assert(v@ =~= s@.subrange(from as int, i + 1));
        i = i + 1;
    }
    v
}

/// Appends all of `tail` to `v`.
pub fn extend_bytes(v: &mut Vec<u8>, tail: &[u8])
    ensures
        final(v)@ == old(v)@ + tail@,
{
    let mut i: usize = 0;
    while i < tail.len()
        invariant
            i <= tail@.len(),
            v@ == old(v)@ + tail@.subrange(0, i as int),
        decreases tail@.len() - i,
    {
        v.push(tail[i]);
        assert(tail@.subrange(0, i + 1) =~= tail@.subrange(0, i as int).push(tail@[i as int]));
        i = i + 1;
    }
    assert(tail@.subrange(0, tail@.len() as int) =~= tail@);
}

/// True when `s` starts with `prefix`.
pub fn bytes_start_with(s: &[u8], prefix: &[u8]) -> (yes: bool)
    ensures
        yes == starts_with(s@, prefix@),
{
    if prefix.len() > s.len() {
        return false;
    }
    let mut i: usize = 0;
    while i < prefix.len()
        invariant
            prefix@.len() <= s@.len(),
            i <= prefix@.len(),
            forall|j: int| 0 <= j < i ==> s@[j] == prefix@[j],
        decreases prefix@.len() - i,
    {
        if s[i] != prefix[i] {
            assert(s@.subrange(0, prefix@.len() as int)[i as int] != prefix@[i as int]);
            return false;
        }
        i = i + 1;
    }
    assert(s@.subrange(0, prefix@.len() as int) =~= prefix@);
    true
}

/// True when the two byte slices are equal.
pub fn bytes_equal(a: &[u8], b: &[u8]) -> (equal: bool)
    ensures
        equal == (a@ == b@),
{
    if a.len() != b.len() {
        return false;
    }
    let r = bytes_start_with(a, b);
    proof {
        if r {
            assert(a@.subrange(0, b@.len() as int) =~= a@);
        } else {
            if a@ == b@ {
                assert(a@.subrange(0, b@.len() as int) =~= a@);
            }
        }
    }
    r
}

} // verus!

verus! {

// ---------------------------------------------------------------------------
// Facts about the encodings.
/// A byte that lowercase hex encoding may produce.
pub open spec fn is_hex_char(b: u8) -> bool {
    (48 <= b && b <= 57) || (97 <= b && b <= 102)
}

/// Hex encoding doubles the length.
pub proof fn lemma_hex_len(data: Seq<u8>)
    ensures
        hex_lower(data).len() == 2 * data.len(),
    decreases data.len(),
{
    if data.len() > 0 {
        lemma_hex_len(data.drop_last());
    }
}

/// Hex encoding produces only the digits `0-9a-f`.
pub proof fn lemma_hex_chars(data: Seq<u8>)
    ensures
        forall|i: int| 0 <= i < hex_lower(data).len() ==> is_hex_char(#[trigger] hex_lower(data)[i]),
    decreases data.len(),
{
    if data.len() > 0 {
        lemma_hex_chars(data.drop_last());
        let prev = hex_lower(data.drop_last());
        let hi = data.last() as int / 16;
        let lo = data.last() as int % 16;
        assert(0 <= hi < 16 && 0 <= lo < 16);
        assert forall|i: int| 0 <= i < hex_lower(data).len() implies is_hex_char(
            #[trigger] hex_lower(data)[i],
        ) by {
            if i < prev.len() {
                assert(hex_lower(data)[i] == prev[i]);
            }
        }
    }
}

/// Distinct nibbles have distinct hex digits.
proof fn lemma_hex_digit_injective(u: int, v: int)
    requires
        0 <= u < 16,
        0 <= v < 16,
        hex_digit(u) == hex_digit(v),
    ensures
        u == v,
{
    assert(u < 10 ==> hex_digit(u) == 48 + u);
    assert(u >= 10 ==> hex_digit(u) == 87 + u);
    assert(v < 10 ==> hex_digit(v) == 48 + v);
    assert(v >= 10 ==> hex_digit(v) == 87 + v);
}

/// Two inputs with the same hex encoding are equal.
pub proof fn lemma_hex_injective(a: Seq<u8>, b: Seq<u8>)
    requires
        hex_lower(a) == hex_lower(b),
    ensures
        a == b,
    decreases a.len(),
{
    lemma_hex_len(a);
    lemma_hex_len(b);
    if a.len() > 0 {
        let pa = hex_lower(a.drop_last());
        let pb = hex_lower(b.drop_last());
        lemma_hex_len(a.drop_last());
        lemma_hex_len(b.drop_last());
        let n = pa.len() as int;
        assert(hex_lower(a)[n] == hex_lower(b)[n]);
        assert(hex_lower(a)[n + 1] == hex_lower(b)[n + 1]);
        let x = a.last() as int;
        let y = b.last() as int;
        let ta = seq![hex_digit(x / 16), hex_digit(x % 16)];
        let tb = seq![hex_digit(y / 16), hex_digit(y % 16)];
        assert(hex_lower(a) == pa + ta);
        assert(hex_lower(b) == pb + tb);
        assert(hex_lower(a)[n] == ta[0]);
        assert(hex_lower(b)[n] == tb[0]);
        assert(hex_lower(a)[n + 1] == ta[1]);
        assert(hex_lower(b)[n + 1] == tb[1]);
        assert(hex_digit(x / 16) == hex_digit(y / 16));
        assert(hex_digit(x % 16) == hex_digit(y % 16));
        lemma_hex_digit_injective(x / 16, y / 16);
        lemma_hex_digit_injective(x % 16, y % 16);
        assert(x == 16 * (x / 16) + x % 16);
        assert(y == 16 * (y / 16) + y % 16);
        assert(pa =~= hex_lower(a).subrange(0, n));
        assert(pb =~= hex_lower(b).subrange(0, n));
        lemma_hex_injective(a.drop_last(), b.drop_last());
        assert(a =~= a.drop_last().push(a.last()));
        assert(b =~= b.drop_last().push(b.last()));
    }
}

/// `10^k`.
pub open spec fn pow10(k: nat) -> nat
    decreases k,
{
    if k == 0 {
        1
    } else {
        10 * pow10((k - 1) as nat)
    }
}

/// A number below `10^k` has at most `k` decimal digits.
pub proof fn lemma_decimal_len(n: nat, k: nat)
    requires
        1 <= k,
        n < pow10(k),
    ensures
        decimal(n).len() <= k,
    decreases n,
{
    if n >= 10 {
        assert(pow10(k) == 10 * pow10((k - 1) as nat));
        assert(n / 10 < pow10((k - 1) as nat));
        if k == 1 {
            assert(pow10(0) == 1);
        } else {
            lemma_decimal_len(n / 10, (k - 1) as nat);
        }
    }
}

/// Every number below `2^64` has at most 20 decimal digits.
pub proof fn lemma_decimal_len_u64(n: u64)
    ensures
        decimal(n as nat).len() <= 20,
{
    reveal_with_fuel(pow10, 21);
    assert(pow10(20) == 100000000000000000000nat);
    lemma_decimal_len(n as nat, 20);
}

/// The number that a run of ASCII decimal digits denotes, most significant
/// digit first.
pub open spec fn decimal_value(digits: Seq<u8>) -> nat
    decreases digits.len(),
{
    if digits.len() == 0 {
        0
    } else {
        decimal_value(digits.drop_last()) * 10 + (digits.last() - 48) as nat
    }
}

/// The decimal text of a number reads back as that number.
pub proof fn lemma_decimal_value(n: nat)
    ensures
        decimal_value(decimal(n)) == n,
    decreases n,
{
    if n >= 10 {
        lemma_decimal_value(n / 10);
        let d = decimal(n);
        assert(d.drop_last() =~= decimal(n / 10));
        assert(d.last() == (48 + n % 10) as u8);
        assert(decimal_value(d) == decimal_value(d.drop_last()) * 10 + (d.last() - 48) as nat);
        assert((n / 10) * 10 + n % 10 == n);
    } else {
        let d = decimal(n);
        assert(d.drop_last() =~= Seq::<u8>::empty());
        assert(decimal_value(d) == decimal_value(d.drop_last()) * 10 + (d.last() - 48) as nat);
    }
}

/// Decimal digits are `0-9`.
pub proof fn lemma_decimal_chars(n: nat)
    ensures
        forall|i: int| 0 <= i < decimal(n).len() ==> 48 <= #[trigger] decimal(n)[i] <= 57,
    decreases n,
{
    if n >= 10 {
        lemma_decimal_chars(n / 10);
        let prev = decimal(n / 10);
        assert forall|i: int| 0 <= i < decimal(n).len() implies 48 <= #[trigger] decimal(n)[i]
            <= 57 by {
            if i < prev.len() {
                assert(decimal(n)[i] == prev[i]);
            }
        }
    }
}

/// A sequence of ASCII bytes is well-formed UTF-8.
pub proof fn lemma_ascii_valid_utf8(s: Seq<u8>)
    requires
        is_ascii_bytes(s),
    ensures
        valid_utf8(s),
{
    assert(s.subrange(0, 0) =~= Seq::<u8>::empty());
    assert(valid_utf8(Seq::<u8>::empty()));
    assert(forall|i: int|
        0 <= 0 <= i < s.len() <= s.len() ==> #[trigger] vstd::utf8::is_leading_byte_width_1(s[i]));
    vstd::utf8::partial_valid_utf8_extend_ascii_block(s, 0, s.len() as int);
    assert(s.subrange(0, s.len() as int) =~= s);
}

/// The newline search skips a stretch without `\n`.
pub proof fn lemma_newline_index_skip(s: Seq<u8>, from: int, to: int)
    requires
        0 <= from <= to <= s.len(),
        forall|i: int| from <= i < to ==> s[i] != 10,
    ensures
        newline_index_from(s, from) == newline_index_from(s, to),
    decreases to - from,
{
    if from < to {
        lemma_newline_index_skip(s, from + 1, to);
    }
}

/// The first line of `line ++ "\n" ++ rest`, where `line` has no `\n` and does
/// not end in `\r`, is `line`, and what follows is `rest`.
pub proof fn lemma_next_line_of(line: Seq<u8>, rest: Seq<u8>)
    requires
        forall|i: int| 0 <= i < line.len() ==> #[trigger] line[i] != 10,
        line.len() > 0 ==> line.last() != 13,
    ensures
        next_line(line.push(10) + rest) == Some((line, rest)),
{
    let s = line.push(10) + rest;
    let n = line.len() as int;
    assert(forall|i: int| 0 <= i < n ==> s[i] == line[i]);
    lemma_newline_index_skip(s, 0, n);
    assert(s[n] == 10);
    assert(newline_index(s) == n);
    assert(s.subrange(0, n) =~= line);
    assert(s.subrange(n + 1, s.len() as int) =~= rest);
}

/// A lone newline is whitespace.
pub proof fn lemma_newline_is_whitespace()
    ensures
        all_whitespace(seq![10u8]),
{
    let s = seq![10u8];
    assert(whitespace_len(s) == 1);
    assert(s.subrange(1, 1) =~= Seq::<u8>::empty());
    assert(all_whitespace(Seq::<u8>::empty()));
}

} // verus!

verus! {

/// True when `needle` occurs in `s` at position `at`.
fn matches_at(s: &[u8], at: usize, needle: &[u8]) -> (m: bool)
    requires
        at + needle@.len() <= s@.len(),
    ensures
        m == (s@.subrange(at as int, at + needle@.len()) == needle@),
{
    let n = s.len();
    let mut j: usize = 0;
    while j < needle.len()
        invariant
            at + needle@.len() <= s@.len(),
            n == s@.len(),
            j <= needle@.len(),
            forall|k: int| 0 <= k < j ==> s@[at + k] == needle@[k],
        decreases needle@.len() - j,
    {
        if s[at + j] != needle[j] {
            assert(s@.subrange(at as int, at + needle@.len())[j as int] != needle@[j as int]);
            return false;
        }
        j = j + 1;
    }
    assert(s@.subrange(at as int, at + needle@.len()) =~= needle@);
    true
}

/// True when `needle` occurs somewhere in `s`.
pub fn contains_subslice(s: &[u8], needle: &[u8]) -> (found: bool)
    ensures
        found == contains_bytes(s@, needle@),
{
    if needle.len() > s.len() {
        return false;
    }
    let last = s.len() - needle.len();
    let mut i: usize = 0;
    while i <= last
        invariant
            last + needle@.len() == s@.len(),
            forall|j: int|
                0 <= j < i ==> #[trigger] s@.subrange(j, j + needle@.len()) != needle@,
        decreases last + 1 - i,
    {
        if matches_at(s, i, needle) {
            return true;
        }
        if i == last {
            return false;
        }
        i = i + 1;
    }
    false
}

} // verus!
