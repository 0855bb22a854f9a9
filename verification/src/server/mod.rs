//! Server-side policy: which ports a client may ask the server to listen on.
use vstd::prelude::*;
use vstd::string::StrSliceExecFns;
use vstd::string::StringExecFns;

pub mod client_handler;
pub mod metrics_printer;
pub mod tcp_listener;

verus! {

/// A single port or an inclusive range of ports.
#[derive(Clone, Copy, Debug, PartialEq, Eq, Structural)]
pub enum PortSpec {
    Single(u16),
    Range(u16, u16),
}

impl PortSpec {
    /// The set of ports this specification admits.
    pub open spec fn spec_allows(self, port: u16) -> bool {
        match self {
            PortSpec::Single(allowed) => port == allowed,
            PortSpec::Range(start, end) => start <= port && port <= end,
        }
    }

    /// Returns true if the given port is allowed by this `PortSpec`.
    pub fn allows(&self, port: u16) -> (allowed: bool)
        ensures
            allowed == self.spec_allows(port),
    {
        match self {
            PortSpec::Single(allowed) => port == *allowed,
            PortSpec::Range(start, end) => port >= *start && port <= *end,
        }
    }
}

/// True when some specification in `specs` admits `port`.
pub open spec fn any_allows(specs: Seq<PortSpec>, port: u16) -> bool {
    exists|i: int| 0 <= i < specs.len() && (#[trigger] specs[i]).spec_allows(port)
}

/// A collection of port specifications that can be asked whether it admits a port.
pub trait AllowedPorts {
    spec fn allowed_set(&self, port: u16) -> bool;

    /// Returns true if any `PortSpec` in the collection allows the given port.
    fn allows(&self, port: u16) -> (allowed: bool)
        ensures
            allowed == self.allowed_set(port),
    ;
}

impl AllowedPorts for [PortSpec] {
    open spec fn allowed_set(&self, port: u16) -> bool {
        any_allows(self@, port)
    }

    fn allows(&self, port: u16) -> (allowed: bool) {
        let mut i: usize = 0;
        while i < self.len()
            invariant
                0 <= i <= self@.len(),
                forall|j: int| 0 <= j < i ==> !(#[trigger] self@[j]).spec_allows(port),
            decreases self@.len() - i,
        {
            if self[i].allows(port) {
                return true;
            }
            i = i + 1;
        }
        false
    }
}

// ---------------------------------------------------------------------------
// Parsing a port specification such as `443` or `1000-2000`.
/// Why text did not parse as a `u16`, as `core::num::IntErrorKind` names it.
#[derive(Clone, Copy, Debug, PartialEq, Eq, Structural)]
pub enum IntParseError {
    /// The text is empty.
    Empty,
    /// The text holds a character that is not a digit where one is needed.
    InvalidDigit,
    /// The number is larger than 65535.
    PosOverflow,
}

/// Why text did not parse as a `PortSpec`.
#[derive(Clone, Copy, Debug, PartialEq, Eq, Structural)]
pub enum PortSpecError {
    /// The part before `-` is not a port.
    InvalidStartPort(IntParseError),
    /// The part after `-` is not a port.
    InvalidEndPort(IntParseError),
    /// The range starts after it ends.
    InvalidRange(u16, u16),
    /// The text (without `-`) is not a port.
    InvalidPort(IntParseError),
}

/// The characters with the Unicode `White_Space` property, which `str::trim` removes.
pub open spec fn is_whitespace_char(c: char) -> bool {
    let u = c as u32;
    (9 <= u && u <= 13) || u == 32 || u == 0x85 || u == 0xA0 || u == 0x1680 || (0x2000 <= u && u
        <= 0x200A) || u == 0x2028 || u == 0x2029 || u == 0x202F || u == 0x205F || u == 0x3000
}

/// `s` without its leading whitespace.
pub open spec fn trim_start(s: Seq<char>) -> Seq<char>
    decreases s.len(),
{
    if s.len() > 0 && is_whitespace_char(s[0]) {
        trim_start(s.drop_first())
    } else {
        s
    }
}

/// `s` without its trailing whitespace.
pub open spec fn trim_end(s: Seq<char>) -> Seq<char>
    decreases s.len(),
{
    if s.len() > 0 && is_whitespace_char(s.last()) {
        trim_end(s.drop_last())
    } else {
        s
    }
}

/// `s` without leading and trailing whitespace, as `str::trim` returns it.
pub open spec fn trim(s: Seq<char>) -> Seq<char> {
    trim_end(trim_start(s))
}

/// The index of the first `c` in `s` at or after `from`, if any.
pub open spec fn char_index_from(s: Seq<char>, c: char, from: int) -> Option<int>
    decreases s.len() - from,
{
    if from < 0 || from >= s.len() {
        None
    } else if s[from] == c {
        Some(from)
    } else {
        char_index_from(s, c, from + 1)
    }
}

/// `s` split around its first `-`, as `str::split_once('-')` does.
pub open spec fn split_once_dash(s: Seq<char>) -> Option<(Seq<char>, Seq<char>)> {
    match char_index_from(s, '-', 0) {
        Some(i) => Some((s.subrange(0, i), s.subrange(i + 1, s.len() as int))),
        None => None,
    }
}

/// An ASCII decimal digit.
pub open spec fn is_digit_char(c: char) -> bool {
    48 <= (c as u32) && (c as u32) <= 57
}

/// Reads the digits of `d` onto `acc`, failing at the first character that is
/// not a digit or that would take the value past 65535.
pub open spec fn accumulate_u16(d: Seq<char>, acc: int) -> Result<u16, IntParseError>
    decreases d.len(),
{
    if d.len() == 0 {
        Ok(acc as u16)
    } else if !is_digit_char(d[0]) {
        Err(IntParseError::InvalidDigit)
    } else if acc * 10 + (d[0] as u32 - 48) > 65535 {
        Err(IntParseError::PosOverflow)
    } else {
        accumulate_u16(d.drop_first(), acc * 10 + (d[0] as u32 - 48))
    }
}

/// `u16::from_str`: an optional `+` and decimal digits.
pub open spec fn spec_parse_u16(s: Seq<char>) -> Result<u16, IntParseError> {
    if s.len() == 0 {
        Err(IntParseError::Empty)
    } else if s.len() == 1 && (s[0] == '+' || s[0] == '-') {
        Err(IntParseError::InvalidDigit)
    } else if s[0] == '+' {
        accumulate_u16(s.drop_first(), 0)
    } else {
        accumulate_u16(s, 0)
    }
}

/// A port specification read from text: the text is trimmed; if it holds a
/// `-`, both sides (trimmed again) are the bounds of a range that must not be
/// reversed, otherwise the whole is a single port.
pub open spec fn spec_parse_port_spec(s: Seq<char>) -> Result<PortSpec, PortSpecError> {
    let t = trim(s);
    match split_once_dash(t) {
        Some((a, b)) => match spec_parse_u16(trim(a)) {
            Err(e) => Err(PortSpecError::InvalidStartPort(e)),
            Ok(start) => match spec_parse_u16(trim(b)) {
                Err(e) => Err(PortSpecError::InvalidEndPort(e)),
                Ok(end) => if start > end {
                    Err(PortSpecError::InvalidRange(start, end))
                } else {
                    Ok(PortSpec::Range(start, end))
                },
            },
        },
        None => match spec_parse_u16(t) {
            Ok(port) => Ok(PortSpec::Single(port)),
            Err(e) => Err(PortSpecError::InvalidPort(e)),
        },
    }
}

fn is_whitespace_exec(c: char) -> (ws: bool)
    ensures
        ws == is_whitespace_char(c),
{
    let u = c as u32;
    (9 <= u && u <= 13) || u == 32 || u == 0x85 || u == 0xA0 || u == 0x1680 || (0x2000 <= u && u
        <= 0x200A) || u == 0x2028 || u == 0x2029 || u == 0x202F || u == 0x205F || u == 0x3000
}

/// The characters of `s`.
fn chars_of(s: &str) -> (chars: Vec<char>)
    ensures
        chars@ == s@,
{
    let n = s.unicode_len();
    let mut v: Vec<char> = Vec::new();
    let mut i: usize = 0;
    while i < n
        invariant
            n == s@.len(),
            i <= n,
            v@ == s@.subrange(0, i as int),
        decreases n - i,
    {
        let c = s.get_char(i);
        v.push(c);
        assert(v@ =~= s@.subrange(0, i + 1));
        i = i + 1;
    }
    assert(s@.subrange(0, n as int) =~= s@);
    v
}

proof fn lemma_trim_start_step(s: Seq<char>, i: int)
    requires
        0 <= i < s.len(),
        is_whitespace_char(s[i]),
    ensures
        trim_start(s.subrange(i, s.len() as int)) == trim_start(s.subrange(i + 1, s.len() as int)),
{
    assert(s.subrange(i, s.len() as int).drop_first() =~= s.subrange(i + 1, s.len() as int));
}

proof fn lemma_trim_end_step(s: Seq<char>, j: int)
    requires
        0 < j <= s.len(),
        is_whitespace_char(s[j - 1]),
    ensures
        trim_end(s.subrange(0, j)) == trim_end(s.subrange(0, j - 1)),
{
    assert(s.subrange(0, j).drop_last() =~= s.subrange(0, j - 1));
}

/// The bounds of `trim(s[from..to])` within `s`.
fn trim_bounds(s: &Vec<char>, from: usize, to: usize) -> (bounds: (usize, usize))
    requires
        from <= to <= s@.len(),
    ensures
        from <= bounds.0 <= bounds.1 <= to,
        trim(s@.subrange(from as int, to as int)) == s@.subrange(bounds.0 as int, bounds.1 as int),
{
    let ghost t = s@.subrange(from as int, to as int);
    let mut i: usize = from;
    while i < to && is_whitespace_exec(s[i])
        invariant
            from <= i <= to <= s@.len(),
            trim_start(t) == trim_start(s@.subrange(i as int, to as int)),
        decreases to - i,
    {
        proof {
            let u = s@.subrange(0, to as int);
            lemma_trim_start_step(u, i as int);
            assert(u.subrange(i as int, to as int) =~= s@.subrange(i as int, to as int));
            assert(u.subrange(i + 1, to as int) =~= s@.subrange(i + 1, to as int));
        }
        i = i + 1;
    }
    proof {
        let r = s@.subrange(i as int, to as int);
        if i < to {
            assert(r[0] == s@[i as int]);
        } else {
            assert(r.len() == 0);
        }
        assert(trim_start(r) == r);
    }
    let mut j: usize = to;
    while j > i && is_whitespace_exec(s[j - 1])
        invariant
            from <= i <= j <= to <= s@.len(),
            trim(t) == trim_end(s@.subrange(i as int, j as int)),
        decreases j - i,
    {
        proof {
            let u = s@.subrange(i as int, j as int);
            lemma_trim_end_step(u, (j - i) as int);
            assert(u.subrange(0, (j - i) as int) =~= u);
            assert(u.subrange(0, (j - i - 1) as int) =~= s@.subrange(i as int, j - 1));
        }
        j = j - 1;
    }
    proof {
        let r = s@.subrange(i as int, j as int);
        if j > i {
            assert(r.last() == s@[j - 1]);
        }
        assert(trim_end(r) == r);
    }
    (i, j)
}

/// The index of the first `-` in `s[from..to]`, relative to `from`, if any.
fn find_dash(s: &Vec<char>, from: usize, to: usize) -> (index: Option<usize>)
    requires
        from <= to <= s@.len(),
    ensures
        match (index, char_index_from(s@.subrange(from as int, to as int), '-', 0)) {
            (Some(i), Some(k)) => i as int == k && i < to - from,
            (None, None) => true,
            _ => false,
        },
{
    let ghost t = s@.subrange(from as int, to as int);
    let mut i: usize = from;
    while i < to
        invariant
            from <= i <= to <= s@.len(),
            t == s@.subrange(from as int, to as int),
            char_index_from(t, '-', 0) == char_index_from(t, '-', i - from),
        decreases to - i,
    {
        if s[i] == '-' {
            assert(t[i - from] == s@[i as int]);
            return Some(i - from);
        }
        assert(t[i - from] == s@[i as int]);
        i = i + 1;
    }
    None
}

/// Parses `s[from..to]` as `u16::from_str` does.
fn parse_u16_range(s: &Vec<char>, from: usize, to: usize) -> (parsed: Result<u16, IntParseError>)
    requires
        from <= to <= s@.len(),
    ensures
        parsed == spec_parse_u16(s@.subrange(from as int, to as int)),
{
    let ghost t = s@.subrange(from as int, to as int);
    if from == to {
        return Err(IntParseError::Empty);
    }
    assert(t[0] == s@[from as int]);
    if to - from == 1 && (s[from] == '+' || s[from] == '-') {
        return Err(IntParseError::InvalidDigit);
    }
    let start: usize = if s[from] == '+' {
        from + 1
    } else {
        from
    };
    proof {
        if s@[from as int] == '+' {
            assert(t.drop_first() =~= s@.subrange(start as int, to as int));
        } else {
            assert(t =~= s@.subrange(start as int, to as int));
        }
    }
    let ghost d = s@.subrange(start as int, to as int);
    let mut acc: u32 = 0;
    let mut i: usize = start;
    while i < to
        invariant
            start <= i <= to <= s@.len(),
            acc <= 65535,
            d == s@.subrange(start as int, to as int),
            spec_parse_u16(s@.subrange(from as int, to as int)) == accumulate_u16(d, 0),
            accumulate_u16(d, 0) == accumulate_u16(s@.subrange(i as int, to as int), acc as int),
        decreases to - i,
    {
        let ghost r = s@.subrange(i as int, to as int);
        assert(r[0] == s@[i as int]);
        assert(r.drop_first() =~= s@.subrange(i + 1, to as int));
        let c = s[i];
        let u = c as u32;
        if !(48 <= u && u <= 57) {
            return Err(IntParseError::InvalidDigit);
        }
        let next = acc * 10 + (u - 48);
        if next > 65535 {
            return Err(IntParseError::PosOverflow);
        }
        acc = next;
        i = i + 1;
    }
    assert(s@.subrange(i as int, to as int).len() == 0);
    Ok(acc as u16)
}

/// Parses a port specification: `443`, or a range such as `1000-2000`.
pub fn parse_port_spec(s: &str) -> (parsed: Result<PortSpec, PortSpecError>)
    ensures
        parsed == spec_parse_port_spec(s@),
{
    let chars = chars_of(s);
    let (ts, te) = trim_bounds(&chars, 0, chars.len());
    assert(chars@.subrange(0, chars@.len() as int) =~= chars@);
    let ghost t = chars@.subrange(ts as int, te as int);
    match find_dash(&chars, ts, te) {
        Some(k) => {
            let dash = ts + k;
            assert(t.subrange(0, k as int) =~= chars@.subrange(ts as int, dash as int));
            assert(t.subrange(k + 1, t.len() as int) =~= chars@.subrange(dash + 1, te as int));
            let (as_, ae) = trim_bounds(&chars, ts, dash);
            let start = match parse_u16_range(&chars, as_, ae) {
                Ok(p) => p,
                Err(e) => return Err(PortSpecError::InvalidStartPort(e)),
            };
            let (bs, be) = trim_bounds(&chars, dash + 1, te);
            let end = match parse_u16_range(&chars, bs, be) {
                Ok(p) => p,
                Err(e) => return Err(PortSpecError::InvalidEndPort(e)),
            };
            if start > end {
                Err(PortSpecError::InvalidRange(start, end))
            } else {
                Ok(PortSpec::Range(start, end))
            }
        },
        None => match parse_u16_range(&chars, ts, te) {
            Ok(p) => Ok(PortSpec::Single(p)),
            Err(e) => Err(PortSpecError::InvalidPort(e)),
        },
    }
}

impl core::str::FromStr for PortSpec {
    type Err = PortSpecError;

    fn from_str(s: &str) -> (parsed: Result<Self, Self::Err>)
        ensures
            parsed == spec_parse_port_spec(s@),
    {
        parse_port_spec(s)
    }
}

/// The decimal text of `n`, without leading zeros, as `to_string` writes it.
pub open spec fn decimal_chars(n: nat) -> Seq<char>
    decreases n,
{
    if n < 10 {
        seq![(48 + n) as char]
    } else {
        decimal_chars(n / 10).push((48 + n % 10) as char)
    }
}

/// True when every character of `w` is whitespace.
pub open spec fn all_whitespace_chars(w: Seq<char>) -> bool {
    forall|i: int| 0 <= i < w.len() ==> is_whitespace_char(#[trigger] w[i])
}

proof fn lemma_decimal_chars_digits(n: nat)
    ensures
        decimal_chars(n).len() > 0,
        forall|i: int|
            0 <= i < decimal_chars(n).len() ==> is_digit_char(#[trigger] decimal_chars(n)[i]),
    decreases n,
{
    if n >= 10 {
        lemma_decimal_chars_digits(n / 10);
    }
}

/// Reading the decimal text of `n` from a fresh start leaves `n` accumulated.
proof fn lemma_accumulate_decimal(n: nat, rest: Seq<char>)
    requires
        n <= 65535,
    ensures
        accumulate_u16(decimal_chars(n) + rest, 0) == accumulate_u16(rest, n as int),
    decreases n,
{
    if n < 10 {
        let d = decimal_chars(n) + rest;
        assert(d[0] == (48 + n) as char);
        assert(d.drop_first() =~= rest);
    } else {
        let tail = seq![(48 + n % 10) as char] + rest;
        assert(decimal_chars(n) + rest =~= decimal_chars(n / 10) + tail);
        lemma_accumulate_decimal(n / 10, tail);
        assert(tail.drop_first() =~= rest);
        assert(tail[0] == (48 + n % 10) as char);
        assert((n / 10) * 10 + n % 10 == n);
    }
}

/// The decimal text of a port parses back to it.
proof fn lemma_parse_u16_decimal(port: u16)
    ensures
        spec_parse_u16(decimal_chars(port as nat)) == Ok::<u16, IntParseError>(port),
{
    let d = decimal_chars(port as nat);
    lemma_decimal_chars_digits(port as nat);
    lemma_accumulate_decimal(port as nat, Seq::<char>::empty());
    assert(d + Seq::<char>::empty() =~= d);
    assert(is_digit_char(d[0]));
}

proof fn lemma_trim_start_pad(w: Seq<char>, x: Seq<char>)
    requires
        all_whitespace_chars(w),
        x.len() > 0,
        !is_whitespace_char(x[0]),
    ensures
        trim_start(w + x) == x,
    decreases w.len(),
{
    if w.len() > 0 {
        assert((w + x).drop_first() =~= w.drop_first() + x);
        lemma_trim_start_pad(w.drop_first(), x);
    } else {
        assert(w + x =~= x);
    }
}

proof fn lemma_trim_end_pad(x: Seq<char>, w: Seq<char>)
    requires
        all_whitespace_chars(w),
        x.len() > 0,
        !is_whitespace_char(x.last()),
    ensures
        trim_end(x + w) == x,
    decreases w.len(),
{
    if w.len() > 0 {
        assert((x + w).drop_last() =~= x + w.drop_last());
        assert((x + w).last() == w.last());
        lemma_trim_end_pad(x, w.drop_last());
    } else {
        assert(x + w =~= x);
    }
}

/// A digit is neither whitespace nor `-`.
proof fn lemma_digit_not_space(c: char)
    requires
        is_digit_char(c),
    ensures
        !is_whitespace_char(c),
        c != '-',
{
}

/// Text padded with whitespace trims to the decimal text of a port.
proof fn lemma_trim_padded_decimal(pad_before: Seq<char>, n: nat, pad_after: Seq<char>)
    requires
        all_whitespace_chars(pad_before),
        all_whitespace_chars(pad_after),
    ensures
        trim(pad_before + decimal_chars(n) + pad_after) == decimal_chars(n),
{
    let d = decimal_chars(n);
    lemma_decimal_chars_digits(n);
    lemma_digit_not_space(d[0]);
    lemma_digit_not_space(d.last());
    assert(pad_before + d + pad_after =~= pad_before + (d + pad_after));
    assert((d + pad_after)[0] == d[0]);
    lemma_trim_start_pad(pad_before, d + pad_after);
    lemma_trim_end_pad(d, pad_after);
}

/// The first `c` at or after `from` is at `k` when none comes before it.
proof fn lemma_char_index_at(s: Seq<char>, c: char, from: int, k: int)
    requires
        0 <= from <= k < s.len(),
        s[k] == c,
        forall|i: int| from <= i < k ==> s[i] != c,
    ensures
        char_index_from(s, c, from) == Some(k),
    decreases k - from,
{
    if from < k {
        lemma_char_index_at(s, c, from + 1, k);
    }
}

/// No `c` at or after `from` gives `None`.
proof fn lemma_char_index_none(s: Seq<char>, c: char, from: int)
    requires
        0 <= from,
        forall|i: int| from <= i < s.len() ==> s[i] != c,
    ensures
        char_index_from(s, c, from) is None,
    decreases s.len() - from,
{
    if from < s.len() {
        lemma_char_index_none(s, c, from + 1);
    }
}

/// The decimal text of a port, with any whitespace around it, parses back
/// to that single port.
pub proof fn lemma_port_text_round_trip(port: u16, pad_before: Seq<char>, pad_after: Seq<char>)
    requires
        all_whitespace_chars(pad_before),
        all_whitespace_chars(pad_after),
    ensures
        spec_parse_port_spec(pad_before + decimal_chars(port as nat) + pad_after) == Ok::<
            PortSpec,
            PortSpecError,
        >(PortSpec::Single(port)),
{
    let d = decimal_chars(port as nat);
    lemma_trim_padded_decimal(pad_before, port as nat, pad_after);
    lemma_decimal_chars_digits(port as nat);
    assert forall|i: int| 0 <= i < d.len() implies d[i] != '-' by {
        lemma_digit_not_space(d[i]);
    }
    lemma_char_index_none(d, '-', 0);
    lemma_parse_u16_decimal(port);
}

/// The decimal texts of two ports joined by `-`, with any whitespace around
/// each bound, parse back to that range when it is not reversed.
pub proof fn lemma_range_text_round_trip(
    start: u16,
    end: u16,
    pad_before: Seq<char>,
    pad_start: Seq<char>,
    pad_end: Seq<char>,
    pad_after: Seq<char>,
)
    requires
        start <= end,
        all_whitespace_chars(pad_before),
        all_whitespace_chars(pad_start),
        all_whitespace_chars(pad_end),
        all_whitespace_chars(pad_after),
    ensures
        spec_parse_port_spec(
            pad_before + decimal_chars(start as nat) + pad_start + seq!['-'] + pad_end
                + decimal_chars(end as nat) + pad_after,
        ) == Ok::<PortSpec, PortSpecError>(PortSpec::Range(start, end)),
{
    let ds = decimal_chars(start as nat);
    let de = decimal_chars(end as nat);
    lemma_decimal_chars_digits(start as nat);
    lemma_decimal_chars_digits(end as nat);
    let a = ds + pad_start;
    let b = pad_end + de;
    let core = a + seq!['-'] + b;
    let whole = pad_before + ds + pad_start + seq!['-'] + pad_end + de + pad_after;
    assert(whole =~= pad_before + core + pad_after);
    lemma_digit_not_space(ds[0]);
    lemma_digit_not_space(de.last());
    assert(core[0] == ds[0]);
    assert(core.last() == de.last());
    lemma_trim_start_pad(pad_before, core + pad_after);
    assert(pad_before + core + pad_after =~= pad_before + (core + pad_after));
    assert((core + pad_after)[0] == core[0]);
    lemma_trim_end_pad(core, pad_after);
    assert(trim(whole) == core);
    let k = a.len() as int;
    assert(core[k] == '-');
    assert forall|i: int| 0 <= i < k implies core[i] != '-' by {
        if i < ds.len() {
            lemma_digit_not_space(ds[i]);
            assert(core[i] == ds[i]);
        } else {
            assert(core[i] == pad_start[i - ds.len()]);
            assert(is_whitespace_char(pad_start[i - ds.len()]));
        }
    }
    lemma_char_index_at(core, '-', 0, k);
    assert(core.subrange(0, k) =~= a);
    assert(core.subrange(k + 1, core.len() as int) =~= b);
    lemma_trim_padded_decimal(Seq::<char>::empty(), start as nat, pad_start);
    assert(Seq::<char>::empty() + ds + pad_start =~= a);
    lemma_trim_padded_decimal(pad_end, end as nat, Seq::<char>::empty());
    assert(pad_end + de + Seq::<char>::empty() =~= b);
    lemma_parse_u16_decimal(start);
    lemma_parse_u16_decimal(end);
}

/// The text `u16::from_str` gives for each kind of failure.
pub open spec fn int_parse_error_text(e: IntParseError) -> Seq<char> {
    match e {
        IntParseError::Empty => "cannot parse integer from empty string"@,
        IntParseError::InvalidDigit => "invalid digit found in string"@,
        IntParseError::PosOverflow => "number too large to fit in target type"@,
    }
}

impl IntParseError {
    /// The text of this failure, as `u16::from_str`'s error displays it.
    pub fn text(&self) -> (text: &'static str)
        ensures
            text@ == int_parse_error_text(*self),
    {
        match self {
            IntParseError::Empty => "cannot parse integer from empty string",
            IntParseError::InvalidDigit => "invalid digit found in string",
            IntParseError::PosOverflow => "number too large to fit in target type",
        }
    }
}

/// The character of a decimal digit.
fn digit_str(d: u16) -> (text: &'static str)
    requires
        d < 10,
    ensures
        text@ == seq![(48 + d) as char],
{
    proof {
        reveal_strlit("0");
        reveal_strlit("1");
        reveal_strlit("2");
        reveal_strlit("3");
        reveal_strlit("4");
        reveal_strlit("5");
        reveal_strlit("6");
        reveal_strlit("7");
        reveal_strlit("8");
        reveal_strlit("9");
    }
    if d == 0 { "0" } else if d == 1 { "1" } else if d == 2 { "2" } else if d == 3 { "3" }
    else if d == 4 { "4" } else if d == 5 { "5" } else if d == 6 { "6" } else if d == 7 { "7" }
    else if d == 8 { "8" } else { "9" }
}

/// The decimal text of a port.
pub fn port_text(port: u16) -> (text: String)
    ensures
        text@ == decimal_chars(port as nat),
    decreases port,
{
    if port < 10 {
        String::from_str(digit_str(port))
    } else {
        let head = port_text(port / 10);
        head.concat(digit_str(port % 10))
    }
}

/// The text of a port specification error.
pub open spec fn port_spec_error_text(e: PortSpecError) -> Seq<char> {
    match e {
        PortSpecError::InvalidStartPort(k) => "Invalid start port: "@ + int_parse_error_text(k),
        PortSpecError::InvalidEndPort(k) => "Invalid end port: "@ + int_parse_error_text(k),
        PortSpecError::InvalidRange(start, end) => "Invalid range: "@ + decimal_chars(start as nat)
            + "-"@ + decimal_chars(end as nat),
        PortSpecError::InvalidPort(k) => "Invalid port: "@ + int_parse_error_text(k),
    }
}

impl PortSpecError {
    /// The text of this error, as a message for the user.
    pub fn message(&self) -> (text: String)
        ensures
            text@ == port_spec_error_text(*self),
    {
        match self {
            PortSpecError::InvalidStartPort(k) => String::from_str("Invalid start port: ").concat(
                k.text(),
            ),
            PortSpecError::InvalidEndPort(k) => String::from_str("Invalid end port: ").concat(
                k.text(),
            ),
            PortSpecError::InvalidRange(start, end) => {
                let mut text = String::from_str("Invalid range: ");
                let start_text = port_text(*start);
                let end_text = port_text(*end);
                text.append(start_text.as_str());
                text.append("-");
                text.append(end_text.as_str());
                text
            },
            PortSpecError::InvalidPort(k) => String::from_str("Invalid port: ").concat(k.text()),
        }
    }
}

/// A single port admits exactly that port, and a range admits exactly the
/// ports between its bounds, both included, compared as the unsigned port
/// numbers they are.
pub proof fn lemma_allows_is_membership(start: u16, end: u16, single: u16, port: u16)
    ensures
        PortSpec::Single(single).spec_allows(port) <==> port as int == single as int,
        PortSpec::Range(start, end).spec_allows(port) <==> (start as int <= port as int && port as int
            <= end as int),
{
}

/// A list of specifications admits a port exactly when one of its entries
/// is that port or a range holding it; an empty list admits nothing.
pub proof fn lemma_list_allows_is_membership(specs: Seq<PortSpec>, port: u16)
    ensures
        any_allows(specs, port) <==> exists|i: int|
            0 <= i < specs.len() && match #[trigger] specs[i] {
                PortSpec::Single(p) => p as int == port as int,
                PortSpec::Range(start, end) => start as int <= port as int && port as int
                    <= end as int,
            },
        specs.len() == 0 ==> !any_allows(specs, port),
{
}

/// A range that parses is never reversed.
pub proof fn lemma_parsed_range_ordered(s: Seq<char>)
    ensures
        spec_parse_port_spec(s) matches Ok(PortSpec::Range(start, end)) ==> start <= end,
{
}

/// The ports a server offers: those given as allowed, followed by the
/// single port given the older way, if any.
pub fn merge_allowed_ports(allowed: Option<Vec<PortSpec>>, legacy_local_port: Option<u16>) -> (ports:
    Vec<PortSpec>)
    ensures
        ports@ == match (allowed, legacy_local_port) {
            (Some(a), Some(p)) => a@.push(PortSpec::Single(p)),
            (Some(a), None) => a@,
            (None, Some(p)) => seq![PortSpec::Single(p)],
            (None, None) => Seq::<PortSpec>::empty(),
        },
{
    let mut ports = match allowed {
        Some(a) => a,
        None => Vec::new(),
    };
    match legacy_local_port {
        Some(p) => {
            ports.push(PortSpec::Single(p));
        },
        None => {},
    }
    proof {
        if allowed is None && legacy_local_port is Some {
            assert(ports@ =~= seq![PortSpec::Single(legacy_local_port->0)]);
        }
    }
    ports
}

} // verus!
