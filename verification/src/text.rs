//! Text helpers: UTF-8 decoding of byte strings, and character-level
//! operations on strings that the formats and protocols of the library use.
use vstd::prelude::*;
use vstd::string::*;
use vstd::utf8::*;
use std::string::FromUtf8Error;

verus! {

/// The error that decoding a byte vector as UTF-8 reports.
#[verifier::external_type_specification]
#[verifier::external_body]
pub struct ExFromUtf8Error(FromUtf8Error);

/// Calls `String::from_utf8`. Its documentation states that the call fails
/// exactly when the bytes are not valid UTF-8, and otherwise gives the string
/// those bytes encode; that is what the contract claims.
#[verifier::external_body]
pub fn utf8_to_string(bytes: Vec<u8>) -> (r: Result<String, FromUtf8Error>)
    ensures
        r is Ok <==> valid_utf8(bytes@),
        r matches Ok(s) ==> s@ == decode_utf8(bytes@),
{
    String::from_utf8(bytes)
}

/// Collects characters into a `String` (`FromIterator<char>` for `String`),
/// which documents that the string holds those characters in order.
#[verifier::external_body]
pub fn string_from_chars(chars: &[char]) -> (r: String)
    ensures
        r@ == chars@,
{
    chars.iter().collect()
}

/// The characters of `s`, in order.
pub fn chars_of(s: &str) -> (r: Vec<char>)
    ensures
        r@ == s@,
{
    let n = s.unicode_len();
    let mut r: Vec<char> = Vec::new();
    let mut i: usize = 0;
    while i < n
        invariant
            i <= n,
            n == s@.len(),
            r@ == s@.take(i as int),
        decreases n - i,
    {
        let c = s.get_char(i);
        r.push(c);
        proof {
            assert(s@.take(i + 1) == s@.take(i as int).push(s@[i as int]));
        }
        i = i + 1;
    }
    proof {
        assert(s@.take(n as int) == s@);
    }
    r
}

/// The UTF-8 bytes of `s`.
pub fn string_bytes(s: &String) -> (r: Vec<u8>)
    ensures
        r@ == encode_utf8(s@),
{
    s.as_str().as_bytes_vec()
}

/// Whether `p` is a prefix of `s`.
pub open spec fn seq_starts_with<A>(s: Seq<A>, p: Seq<A>) -> bool {
    p.len() <= s.len() && s.take(p.len() as int) == p
}

/// Whether `c` occurs in `s` before index `end`.
pub open spec fn occurs_before<A>(s: Seq<A>, c: A, end: int) -> bool {
    exists|i: int| 0 <= i < end && s[i] == c
}

/// Whether `i` is the index of the first occurrence of `c` in `s`.
pub open spec fn is_first_index<A>(s: Seq<A>, c: A, i: int) -> bool {
    0 <= i < s.len() && s[i] == c && !occurs_before(s, c, i)
}

/// Whether `i` is the index of the last occurrence of `c` in `s`.
pub open spec fn is_last_index<A>(s: Seq<A>, c: A, i: int) -> bool {
    0 <= i < s.len() && s[i] == c && forall|j: int| i < j < s.len() ==> s[j] != c
}

/// The part of `s` after the last `c`, or all of `s` when `c` does not occur:
/// the last item of `s` split at every `c`.
pub open spec fn last_segment<A>(s: Seq<A>, c: A) -> Seq<A> {
    if s.contains(c) {
        s.skip((choose|i: int| is_last_index(s, c, i)) + 1)
    } else {
        s
    }
}

/// The index of the first `c` in `s`, when `s` holds one.
pub open spec fn first_index_of<A>(s: Seq<A>, c: A) -> int {
    choose|i: int| is_first_index(s, c, i)
}

pub proof fn lemma_first_index_unique<A>(s: Seq<A>, c: A, i: int)
    requires
        is_first_index(s, c, i),
    ensures
        s.contains(c),
        first_index_of(s, c) == i,
{
    assert(s[i] == c);
    let k = first_index_of(s, c);
    assert(is_first_index(s, c, k));
    if k < i {
        assert(occurs_before(s, c, i));
    }
    if i < k {
        assert(occurs_before(s, c, k));
    }
}

/// An item that occurs has a first occurrence.
pub proof fn lemma_first_index_exists<A>(s: Seq<A>, c: A)
    requires
        s.contains(c),
    ensures
        is_first_index(s, c, first_index_of(s, c)),
        split_on(s, c).len() >= 2,
    decreases s.len(),
{
    let k = choose|k: int| 0 <= k < s.len() && s[k] == c;
    lemma_min_occurrence(s, c, k);
    let m = choose|m: int| is_first_index(s, c, m);
    lemma_first_index_unique(s, c, m);
    lemma_split_nonempty(s.skip(m + 1), c);
}

proof fn lemma_min_occurrence<A>(s: Seq<A>, c: A, k: int)
    requires
        0 <= k < s.len(),
        s[k] == c,
    ensures
        exists|m: int| is_first_index(s, c, m),
    decreases k,
{
    if occurs_before(s, c, k) {
        let j = choose|j: int| 0 <= j < k && s[j] == c;
        lemma_min_occurrence(s, c, j);
    } else {
        assert(is_first_index(s, c, k));
    }
}

/// Splitting gives at least one part.
pub proof fn lemma_split_nonempty<A>(s: Seq<A>, c: A)
    ensures
        split_on(s, c).len() >= 1,
    decreases s.len(),
{
    if s.contains(c) {
        let i = first_index_of(s, c);
        if 0 <= i < s.len() {
            lemma_split_nonempty(s.skip(i + 1), c);
        }
    }
}

/// The parts of `s` between the occurrences of `c`, as `str::split(c)` gives
/// them: one more part than there are occurrences.
pub open spec fn split_on<A>(s: Seq<A>, c: A) -> Seq<Seq<A>>
    decreases s.len(),
{
    if s.contains(c) {
        let i = first_index_of(s, c);
        if 0 <= i < s.len() {
            seq![s.take(i)] + split_on(s.skip(i + 1), c)
        } else {
            seq![s]
        }
    } else {
        seq![s]
    }
}

/// `s` with every occurrence of `pat` removed, scanning from the left as
/// `str::replace(pat, "")` does.
pub open spec fn remove_all(s: Seq<char>, pat: Seq<char>) -> Seq<char>
    decreases s.len(),
{
    if s.len() == 0 {
        s
    } else if pat.len() > 0 && seq_starts_with(s, pat) {
        remove_all(s.skip(pat.len() as int), pat)
    } else {
        seq![s[0]] + remove_all(s.skip(1), pat)
    }
}

/// Removes every occurrence of `pat` from `s`.
pub fn remove_all_of(s: &Vec<char>, pat: &Vec<char>) -> (r: Vec<char>)
    requires
        pat@.len() > 0,
    ensures
        r@ == remove_all(s@, pat@),
{
    let n = s.len();
    let m = pat.len();
    let mut out: Vec<char> = Vec::new();
    let mut i: usize = 0;
    assert(s@.skip(0) == s@);
    while i < n
        invariant
            i <= n,
            n == s@.len(),
            m == pat@.len() > 0,
            out@ + remove_all(s@.skip(i as int), pat@) == remove_all(s@, pat@),
        decreases n - i,
    {
        let ghost rest = s@.skip(i as int);
        let mut matched = m <= n - i;
        let mut j: usize = 0;
        while matched && j < m
            invariant
                j <= m,
                m == pat@.len(),
                i <= n == s@.len(),
                rest == s@.skip(i as int),
                matched ==> m <= rest.len(),
                matched ==> forall|k: int| 0 <= k < j ==> rest[k] == pat@[k],
                !matched ==> !seq_starts_with(rest, pat@),
            decreases m - j,
        {
            if s[i + j] != pat[j] {
                assert(rest.take(m as int)[j as int] != pat@[j as int]);
                matched = false;
                j = m;
            } else {
                j = j + 1;
            }
        }
        if matched {
            assert(rest.take(m as int) =~= pat@);
            assert(rest.skip(m as int) =~= s@.skip(i + m));
            i = i + m;
        } else {
            let ghost before = out@;
            out.push(s[i]);
            assert(rest.skip(1) =~= s@.skip(i + 1));
            assert(remove_all(rest, pat@) == seq![rest[0]] + remove_all(rest.skip(1), pat@));
            assert(out@ + remove_all(s@.skip(i + 1), pat@) == before + remove_all(rest, pat@));
            i = i + 1;
        }
    }
    assert(s@.skip(i as int).len() == 0);
    assert(out@ + remove_all(s@.skip(i as int), pat@) == out@);
    out
}

/// Whether `p` is a prefix of `s`, on characters.
pub fn chars_start_with(s: &Vec<char>, p: &Vec<char>) -> (r: bool)
    ensures
        r == seq_starts_with(s@, p@),
{
    if p.len() > s.len() {
        return false;
    }
    let mut i: usize = 0;
    while i < p.len()
        invariant
            i <= p@.len() <= s@.len(),
            forall|j: int| 0 <= j < i ==> s@[j] == p@[j],
        decreases p.len() - i,
    {
        if s[i] != p[i] {
            assert(s@.take(p@.len() as int)[i as int] != p@[i as int]);
            return false;
        }
        i = i + 1;
    }
    assert(s@.take(p@.len() as int) =~= p@);
    true
}

/// Whether two character sequences are equal.
pub fn chars_eq(a: &Vec<char>, b: &Vec<char>) -> (r: bool)
    ensures
        r == (a@ == b@),
{
    if a.len() != b.len() {
        return false;
    }
    let mut i: usize = 0;
    while i < a.len()
        invariant
            i <= a@.len() == b@.len(),
            forall|j: int| 0 <= j < i ==> a@[j] == b@[j],
        decreases a.len() - i,
    {
        if a[i] != b[i] {
            return false;
        }
        i = i + 1;
    }
    assert(a@ =~= b@);
    true
}

/// Whether two strings hold the same characters.
pub fn str_eq(a: &str, b: &str) -> (r: bool)
    ensures
        r == (a@ == b@),
{
    let ca = chars_of(a);
    let cb = chars_of(b);
    chars_eq(&ca, &cb)
}

/// Whether `a` starts with the characters of `p`.
pub fn str_starts_with(a: &str, p: &str) -> (r: bool)
    ensures
        r == seq_starts_with(a@, p@),
{
    let ca = chars_of(a);
    let cp = chars_of(p);
    chars_start_with(&ca, &cp)
}

/// The index of the first occurrence of `c` in `s`, if any.
pub fn find_first_char(s: &Vec<char>, c: char) -> (r: Option<usize>)
    ensures
        r matches Some(i) ==> is_first_index(s@, c, i as int),
        r is None <==> !s@.contains(c),
{
    let mut i: usize = 0;
    while i < s.len()
        invariant
            i <= s@.len(),
            !occurs_before(s@, c, i as int),
        decreases s.len() - i,
    {
        if s[i] == c {
            return Some(i);
        }
        i = i + 1;
    }
    None
}

/// The index of the last occurrence of `c` in `s`, if any.
pub fn find_last_char(s: &Vec<char>, c: char) -> (r: Option<usize>)
    ensures
        r matches Some(i) ==> is_last_index(s@, c, i as int),
        r is None <==> !s@.contains(c),
{
    let mut i: usize = s.len();
    while i > 0
        invariant
            i <= s@.len(),
            forall|j: int| i <= j < s@.len() ==> s@[j] != c,
        decreases i,
    {
        if s[i - 1] == c {
            return Some(i - 1);
        }
        i = i - 1;
    }
    None
}

/// The index of the first occurrence of the byte `b` in `s`, if any.
pub fn find_first_byte(s: &[u8], b: u8) -> (r: Option<usize>)
    ensures
        r matches Some(i) ==> is_first_index(s@, b, i as int),
        r is None <==> !s@.contains(b),
{
    let mut i: usize = 0;
    while i < s.len()
        invariant
            i <= s@.len(),
            !occurs_before(s@, b, i as int),
        decreases s.len() - i,
    {
        if s[i] == b {
            return Some(i);
        }
        i = i + 1;
    }
    None
}

/// The part of `s` after the last `c`, or all of `s` when `c` does not occur.
pub fn last_segment_of(s: &Vec<char>, c: char) -> (r: Vec<char>)
    ensures
        r@ == last_segment(s@, c),
{
    let _n = s.len();
    match find_last_char(s, c) {
        Some(i) => {
            proof {
                lemma_last_index_unique(s@, c, i as int);
            }
            let mut r: Vec<char> = Vec::new();
            let mut j: usize = i + 1;
            while j < s.len()
                invariant
                    i + 1 <= j <= s@.len(),
                    r@ == s@.subrange(i + 1, j as int),
                decreases s.len() - j,
            {
                r.push(s[j]);
                proof {
                    assert(s@.subrange(i + 1, j + 1) == s@.subrange(i + 1, j as int).push(s@[j as int]));
                }
                j = j + 1;
            }
            r
        },
        None => s.clone(),
    }
}

/// The last occurrence of an item is unique, so `last_segment` is determined.
pub proof fn lemma_last_index_unique<A>(s: Seq<A>, c: A, i: int)
    requires
        is_last_index(s, c, i),
    ensures
        s.contains(c),
        (choose|k: int| is_last_index(s, c, k)) == i,
        last_segment(s, c) == s.skip(i + 1),
{
    assert(s[i] == c);
    let k = choose|k: int| is_last_index(s, c, k);
    assert(is_last_index(s, c, k));
    if k < i {
        assert(s[i] != c);
    }
    if i < k {
        assert(s[k] != c);
    }
}

} // verus!
