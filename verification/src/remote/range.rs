//! How the file server answers a request for a file of a given size, with or
//! without a `Range` header: which bytes it sends, with which status, or which
//! error it answers.
use vstd::prelude::*;
use crate::text::{remove_all, remove_all_of, seq_starts_with, is_first_index, occurs_before, find_first_char, split_on, lemma_first_index_unique};

verus! {

/// Why a request is refused.
#[derive(Debug, Clone, Copy, PartialEq, Eq, Structural)]
pub enum RangeError {
    /// A bound of the range is not a number (answered with status 400).
    InvalidValue,
    /// The range starts at or after the end of the file (answered with status 416).
    NotSatisfiable,
}

impl RangeError {
    /// The HTTP status the error is answered with.
    pub fn status(&self) -> (r: u16)
        ensures
            r == (match self {
                RangeError::InvalidValue => 400u16,
                RangeError::NotSatisfiable => 416u16,
            }),
    {
        match self {
            RangeError::InvalidValue => 400,
            RangeError::NotSatisfiable => 416,
        }
    }

    /// The message the error is answered with.
    pub fn message(&self) -> (r: String)
        ensures
            r@ == (match self {
                RangeError::InvalidValue => "Invalid range: Failed to parse value"@,
                RangeError::NotSatisfiable => "Invalid range"@,
            }),
    {
        match self {
            RangeError::InvalidValue => String::from_str("Invalid range: Failed to parse value"),
            RangeError::NotSatisfiable => String::from_str("Invalid range"),
        }
    }
}

/// The part of a file that a response carries.
#[derive(Debug, Clone, Copy, PartialEq, Eq, Structural)]
pub struct ByteRange {
    /// 200 for a whole file, 206 for an answer to a `Range` header.
    pub status: u16,
    /// The first byte sent.
    pub start: u64,
    /// The last byte sent.
    pub end: u64,
    /// The size of the file.
    pub size: u64,
    /// The number of bytes sent, `end - start + 1`.
    pub content_length: u64,
}

/// The decimal value of a sequence of digits.
pub open spec fn digits_value(d: Seq<char>) -> nat
    decreases d.len(),
{
    if d.len() == 0 {
        0
    } else {
        digits_value(d.drop_last()) * 10 + ((d.last() as nat) - ('0' as nat)) as nat
    }
}

pub open spec fn all_digits(d: Seq<char>) -> bool {
    forall|i: int| 0 <= i < d.len() ==> '0' <= #[trigger] d[i] <= '9'
}

/// What the standard library's `u64::from_str` gives for a string: an
/// optional `+`, then at least one decimal digit, with a value that fits.
pub open spec fn spec_parse_u64(s: Seq<char>) -> Option<u64> {
    let d = if s.len() > 0 && s[0] == '+' { s.skip(1) } else { s };
    if d.len() > 0 && all_digits(d) && digits_value(d) <= u64::MAX {
        Some(digits_value(d) as u64)
    } else {
        None
    }
}

proof fn lemma_digits_value_grows(d: Seq<char>, i: int)
    requires
        0 <= i <= d.len(),
        all_digits(d),
    ensures
        digits_value(d.take(i)) <= digits_value(d),
    decreases d.len() - i,
{
    if i < d.len() {
        lemma_digits_value_grows(d, i + 1);
        assert(d.take(i + 1).drop_last() == d.take(i));
        assert(d.take(i + 1).last() == d[i]);
    } else {
        assert(d.take(i) == d);
    }
}

proof fn lemma_digit_step(d: Seq<char>, k: int)
    requires
        0 <= k < d.len(),
        all_digits(d.take(k)),
        '0' <= d[k] <= '9',
    ensures
        all_digits(d.take(k + 1)),
        digits_value(d.take(k + 1)) == digits_value(d.take(k)) * 10 + ((d[k] as nat) - ('0' as nat)),
{
    assert(d.take(k + 1).drop_last() == d.take(k));
    assert(d.take(k + 1).last() == d[k]);
    assert forall|i: int| 0 <= i < k + 1 implies '0' <= #[trigger] d.take(k + 1)[i] <= '9' by {
        if i < k {
            assert(d.take(k + 1)[i] == d.take(k)[i]);
        }
    }
}

proof fn lemma_parse_none(s: Seq<char>, d: Seq<char>, k: int)
    requires
        d == (if s.len() > 0 && s[0] == '+' { s.skip(1) } else { s }),
        0 <= k < d.len(),
        all_digits(d.take(k)),
        !('0' <= d[k] <= '9') || digits_value(d.take(k)) * 10 + ((d[k] as nat) - ('0' as nat))
            > u64::MAX,
    ensures
        spec_parse_u64(s) is None,
{
    if all_digits(d) {
        assert('0' <= d[k] <= '9');
        lemma_digit_step(d, k);
        lemma_digits_value_grows(d, k + 1);
    }
}

/// Parses a decimal number as the standard library's `u64::from_str` does.
pub fn parse_u64(s: &Vec<char>) -> (r: Option<u64>)
    ensures
        r == spec_parse_u64(s@),
{
    let n = s.len();
    let start: usize = if n > 0 && s[0] == '+' { 1 } else { 0 };
    let ghost d = if s@.len() > 0 && s@[0] == '+' { s@.skip(1) } else { s@ };
    assert(d == s@.skip(start as int));
    if start >= n {
        return None;
    }
    let mut v: u64 = 0;
    let mut i: usize = start;
    assert(d.take(0) =~= Seq::<char>::empty());
    while i < n
        invariant
            start <= i <= n,
            start < n,
            n == s@.len(),
            d == s@.skip(start as int),
            d.len() == n - start,
            d == (if s@.len() > 0 && s@[0] == '+' { s@.skip(1) } else { s@ }),
            all_digits(d.take(i - start)),
            v as nat == digits_value(d.take(i - start)),
        decreases n - i,
    {
        let c = s[i];
        let ghost k: int = i - start;
        assert(d[k] == c);
        if c < '0' || c > '9' {
            proof {
                lemma_parse_none(s@, d, k);
            }
            return None;
        }
        let digit = (c as u32 - '0' as u32) as u64;
        proof {
            lemma_digit_step(d, k);
        }
        let m = v.checked_mul(10);
        if m.is_none() {
            proof {
                lemma_parse_none(s@, d, k);
            }
            return None;
        }
        let m = m.unwrap();
        let nv = m.checked_add(digit);
        if nv.is_none() {
            proof {
                lemma_parse_none(s@, d, k);
            }
            return None;
        }
        v = nv.unwrap();
        i = i + 1;
    }
    assert(d.take(n - start) == d);
    Some(v)
}

/// The first two parts of `s` split at `c`; the second is absent when `c`
/// does not occur.
pub fn split_first_two(s: &Vec<char>, c: char) -> (r: (Vec<char>, Option<Vec<char>>))
    ensures
        r.0@ == split_on(s@, c)[0],
        r.1 is Some <==> split_on(s@, c).len() >= 2,
        r.1 matches Some(p) ==> p@ == split_on(s@, c)[1],
    decreases s@.len(),
{
    let n = s.len();
    match find_first_char(s, c) {
        None => (s.clone(), None),
        Some(i) => {
            proof {
                lemma_first_index_unique(s@, c, i as int);
            }
            let mut first: Vec<char> = Vec::new();
            let mut k: usize = 0;
            while k < i
                invariant
                    k <= i < n == s@.len(),
                    first@ == s@.take(k as int),
                decreases i - k,
            {
                first.push(s[k]);
                assert(s@.take(k + 1) == s@.take(k as int).push(s@[k as int]));
                k = k + 1;
            }
            let mut rest: Vec<char> = Vec::new();
            let mut k: usize = i + 1;
            while k < n
                invariant
                    i + 1 <= k <= n == s@.len(),
                    rest@ == s@.subrange(i + 1, k as int),
                decreases n - k,
            {
                rest.push(s[k]);
                assert(s@.subrange(i + 1, k + 1) == s@.subrange(i + 1, k as int).push(s@[k as int]));
                k = k + 1;
            }
            assert(rest@ == s@.skip(i + 1));
            let (second, _) = split_first_two(&rest, c);
            (first, Some(second))
        },
    }
}

/// The characters `["bytes=` that the header's text starts with.
pub open spec fn range_prefix() -> Seq<char> {
    seq!['[', '"', 'b', 'y', 't', 'e', 's', '=']
}

/// The characters `"]` that the header's text ends with.
pub open spec fn range_suffix() -> Seq<char> {
    seq!['"', ']']
}

/// A range from `start` to `end` (clamped to the last byte), unless it is
/// empty, which makes the server fail (`None`).
pub open spec fn spec_finish_range(status: u16, start: u64, end: u64, size: u64) -> Option<
    Result<ByteRange, RangeError>,
> {
    let end = if end < size - 1 { end } else { (size - 1) as u64 };
    if end < start {
        None
    } else {
        Some(
            Ok(
                ByteRange {
                    status,
                    start,
                    end,
                    size,
                    content_length: (end - start + 1) as u64,
                },
            ),
        )
    }
}

/// What the server answers for a file of `size` bytes, given the text of the
/// `Range` header if there is one; `None` where the server fails instead of
/// answering (an empty file, a header without a `-` after the start, a
/// suffix longer than the file, or a range that ends before it starts).
pub open spec fn spec_resolve_range(size: u64, header: Option<Seq<char>>) -> Option<
    Result<ByteRange, RangeError>,
> {
    if size == 0 {
        None
    } else {
        match header {
            None => Some(
                Ok(
                    ByteRange {
                        status: 200,
                        start: 0,
                        end: (size - 1) as u64,
                        size,
                        content_length: size,
                    },
                ),
            ),
            Some(h) => {
                let t = remove_all(remove_all(h, range_prefix()), range_suffix());
                let parts = split_on(t, '-');
                if parts[0].len() == 0 {
                    if parts.len() < 2 {
                        None
                    } else {
                        match spec_parse_u64(parts[1]) {
                            None => Some(Err(RangeError::InvalidValue)),
                            Some(e) => if e > size {
                                None
                            } else {
                                spec_finish_range(206, (size - e) as u64, e, size)
                            },
                        }
                    }
                } else {
                    match spec_parse_u64(parts[0]) {
                        None => Some(Err(RangeError::InvalidValue)),
                        Some(st) => if st >= size {
                            Some(Err(RangeError::NotSatisfiable))
                        } else if parts.len() < 2 {
                            None
                        } else if parts[1].len() == 0 {
                            spec_finish_range(206, st, (size - 1) as u64, size)
                        } else {
                            match spec_parse_u64(parts[1]) {
                                None => Some(Err(RangeError::InvalidValue)),
                                Some(e) => spec_finish_range(206, st, e, size),
                            }
                        },
                    }
                }
            },
        }
    }
}

pub open spec fn opt_str_view(h: Option<&str>) -> Option<Seq<char>> {
    match h {
        Some(s) => Some(s@),
        None => None,
    }
}

fn finish_range(status: u16, start: u64, end: u64, size: u64) -> (r: Option<
    Result<ByteRange, RangeError>,
>)
    requires
        size > 0,
    ensures
        r == spec_finish_range(status, start, end, size),
{
    let end = if end < size - 1 { end } else { size - 1 };
    if end < start {
        None
    } else {
        Some(Ok(ByteRange { status, start, end, size, content_length: end - start + 1 }))
    }
}

/// The answer to a request, or `None` where the server fails instead.
fn try_resolve_range(size: u64, range_header: Option<&str>) -> (r: Option<
    Result<ByteRange, RangeError>,
>)
    ensures
        r == spec_resolve_range(size, opt_str_view(range_header)),
{
    if size == 0 {
        return None;
    }
    match range_header {
        None => Some(
            Ok(ByteRange { status: 200, start: 0, end: size - 1, size, content_length: size }),
        ),
        Some(h) => {
            let chars = crate::text::chars_of(h);
            let prefix = vec!['[', '"', 'b', 'y', 't', 'e', 's', '='];
            let suffix = vec!['"', ']'];
            assert(prefix@ == range_prefix());
            assert(suffix@ == range_suffix());
            let t1 = remove_all_of(&chars, &prefix);
            let t = remove_all_of(&t1, &suffix);
            let (first, second) = split_first_two(&t, '-');
            if first.len() == 0 {
                let second = match second {
                    Some(p) => p,
                    None => {
                        return None;
                    },
                };
                match parse_u64(&second) {
                    None => Some(Err(RangeError::InvalidValue)),
                    Some(e) => if e > size {
                        None
                    } else {
                        finish_range(206, size - e, e, size)
                    },
                }
            } else {
                match parse_u64(&first) {
                    None => Some(Err(RangeError::InvalidValue)),
                    Some(st) => {
                        if st >= size {
                            return Some(Err(RangeError::NotSatisfiable));
                        }
                        let second = match second {
                            Some(p) => p,
                            None => {
                                return None;
                            },
                        };
                        if second.len() == 0 {
                            finish_range(206, st, size - 1, size)
                        } else {
                            match parse_u64(&second) {
                                None => Some(Err(RangeError::InvalidValue)),
                                Some(e) => finish_range(206, st, e, size),
                            }
                        }
                    },
                }
            }
        },
    }
}

/// Whether the server answers a request for a file of `size` bytes with the
/// given `Range` header text, rather than failing.
pub fn range_is_answered(size: u64, range_header: Option<&str>) -> (r: bool)
    ensures
        r == spec_resolve_range(size, opt_str_view(range_header)) is Some,
{
    try_resolve_range(size, range_header).is_some()
}

/// Which bytes of a file of `size` bytes the server sends, and with which
/// status, for a request whose `Range` header has the text `range_header`
/// (as the header's values print, such as `["bytes=0-99"]`), or which error
/// it answers.
pub fn resolve_range(size: u64, range_header: Option<&str>) -> (r: Result<ByteRange, RangeError>)
    requires
        spec_resolve_range(size, opt_str_view(range_header)) is Some,
    ensures
        r == spec_resolve_range(size, opt_str_view(range_header))->0,
        r matches Ok(b) ==> b.start <= b.end < b.size == size && b.content_length == b.end
            - b.start + 1,
        range_header is Some ==> (r matches Ok(b) ==> b.status == 206),
        range_header is None ==> r == Ok::<ByteRange, RangeError>(
            ByteRange { status: 200, start: 0, end: (size - 1) as u64, size, content_length: size },
        ),
{
    match try_resolve_range(size, range_header) {
        Some(r) => r,
        None => Err(RangeError::InvalidValue),
    }
}

/// Whether every character of `d` is a decimal digit.
pub open spec fn is_digit_text(d: Seq<char>) -> bool {
    forall|i: int| 0 <= i < d.len() ==> '0' <= #[trigger] d[i] <= '9'
}

/// Text without the first character of a pattern keeps all of it.
proof fn lemma_remove_absent(s: Seq<char>, pat: Seq<char>)
    requires
        pat.len() > 0,
        !s.contains(pat[0]),
    ensures
        remove_all(s, pat) == s,
    decreases s.len(),
{
    if s.len() > 0 {
        assert(!s.contains(pat[0]) ==> s[0] != pat[0]);
        assert(!seq_starts_with(s, pat)) by {
            if seq_starts_with(s, pat) {
                assert(s.take(pat.len() as int)[0] == s[0]);
            }
        }
        assert forall|x: char| s.skip(1).contains(x) implies s.contains(x) by {
            let j = choose|j: int| 0 <= j < s.skip(1).len() && s.skip(1)[j] == x;
            assert(s[j + 1] == x);
        }
        lemma_remove_absent(s.skip(1), pat);
        assert(seq![s[0]] + s.skip(1) == s);
    }
}

/// A pattern at the start of text is removed, and the rest goes on.
proof fn lemma_remove_leading(pat: Seq<char>, s: Seq<char>)
    requires
        pat.len() > 0,
    ensures
        remove_all(pat + s, pat) == remove_all(s, pat),
{
    let t = pat + s;
    assert(t.take(pat.len() as int) == pat);
    assert(t.skip(pat.len() as int) == s);
}

/// A pattern at the end of text without its first character is removed.
proof fn lemma_remove_trailing(s: Seq<char>, pat: Seq<char>)
    requires
        pat.len() > 0,
        !s.contains(pat[0]),
    ensures
        remove_all(s + pat, pat) == s,
    decreases s.len(),
{
    if s.len() == 0 {
        assert(s + pat == pat);
        lemma_remove_leading(pat, Seq::<char>::empty());
        assert(pat + Seq::<char>::empty() == pat);
    } else {
        let t = s + pat;
        assert(t[0] == s[0]);
        assert(s[0] != pat[0]);
        assert(!seq_starts_with(t, pat)) by {
            if seq_starts_with(t, pat) {
                assert(t.take(pat.len() as int)[0] == t[0]);
            }
        }
        assert forall|x: char| s.skip(1).contains(x) implies s.contains(x) by {
            let j = choose|j: int| 0 <= j < s.skip(1).len() && s.skip(1)[j] == x;
            assert(s[j + 1] == x);
        }
        lemma_remove_trailing(s.skip(1), pat);
        assert(t.skip(1) == s.skip(1) + pat);
        assert(seq![s[0]] + s.skip(1) == s);
    }
}

proof fn lemma_digits_parse(d: Seq<char>)
    requires
        d.len() > 0,
        is_digit_text(d),
        digits_value(d) <= u64::MAX,
    ensures
        spec_parse_u64(d) == Some(digits_value(d) as u64),
{
    assert(d[0] != '+');
    assert(all_digits(d));
}

/// A request for the bytes `a` to `b` of a file of `size` bytes, with
/// `a <= b < size` written in decimal, is answered with status 206 and
/// exactly those bytes, `b - a + 1` of them; a range of one byte included.
pub proof fn lemma_closed_range_answer(size: u64, da: Seq<char>, db: Seq<char>)
    requires
        da.len() > 0,
        db.len() > 0,
        is_digit_text(da),
        is_digit_text(db),
        digits_value(da) <= digits_value(db) < size,
    ensures
        ({
            let header = seq!['[', '"', 'b', 'y', 't', 'e', 's', '='] + da + seq!['-'] + db
                + seq!['"', ']'];
            let a = digits_value(da);
            let b = digits_value(db);
            spec_resolve_range(size, Some(header)) == Some(
                Ok::<ByteRange, RangeError>(
                    ByteRange {
                        status: 206,
                        start: a as u64,
                        end: b as u64,
                        size,
                        content_length: (b - a + 1) as u64,
                    },
                ),
            )
        }),
{
    let prefix = seq!['[', '"', 'b', 'y', 't', 'e', 's', '='];
    let suffix = seq!['"', ']'];
    let body = da + seq!['-'] + db;
    let header = prefix + da + seq!['-'] + db + suffix;
    assert(prefix == range_prefix());
    assert(suffix == range_suffix());
    assert(header == prefix + (body + suffix));
    assert forall|i: int| 0 <= i < body.len() implies #[trigger] body[i] != '[' && body[i] != '"' by {
        if i < da.len() {
            assert(body[i] == da[i]);
        } else if i > da.len() {
            assert(body[i] == db[i - da.len() - 1]);
        }
    }
    assert(!(body + suffix).contains('[')) by {
        if (body + suffix).contains('[') {
            let j = choose|j: int| 0 <= j < (body + suffix).len() && (body + suffix)[j] == '[';
            if j < body.len() {
                assert((body + suffix)[j] == body[j]);
            }
        }
    }
    lemma_remove_leading(prefix, body + suffix);
    lemma_remove_absent(body + suffix, prefix);
    assert(!body.contains('"'));
    lemma_remove_trailing(body, suffix);
    let t = remove_all(remove_all(header, range_prefix()), range_suffix());
    assert(t == body);
    let i = da.len() as int;
    assert(body[i] == '-');
    assert forall|j: int| 0 <= j < i implies body[j] != '-' by {
        assert(body[j] == da[j]);
    }
    assert(!occurs_before(body, '-', i));
    lemma_first_index_unique(body, '-', i);
    assert(body.take(i) == da);
    assert(body.skip(i + 1) == db);
    assert(!db.contains('-'));
    assert(split_on(db, '-') == seq![db]);
    assert(split_on(body, '-') == seq![da] + seq![db]);
    let parts = split_on(t, '-');
    assert(parts[0] == da);
    assert(parts[1] == db);
    lemma_digits_parse(da);
    lemma_digits_parse(db);
}

/// Parses a bound of a range, as the server does.
pub fn parse_num(num: &str) -> (r: Result<u64, RangeError>)
    ensures
        r == (match spec_parse_u64(num@) {
            Some(v) => Ok::<u64, RangeError>(v),
            None => Err(RangeError::InvalidValue),
        }),
{
    let chars = crate::text::chars_of(num);
    match parse_u64(&chars) {
        Some(v) => Ok(v),
        None => Err(RangeError::InvalidValue),
    }
}

} // verus!
