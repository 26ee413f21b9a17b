//! The keyring: the `name=value` lines of a `prod.keys` file, of which the
//! key area keys and the header key are kept.
use vstd::prelude::*;
use vstd::utf8::*;
use crate::bytes::copy_range;
use crate::text::{
    chars_of, chars_eq, chars_start_with, find_first_char, is_first_index, occurs_before,
    seq_starts_with, split_on, first_index_of, lemma_first_index_unique, string_from_chars,
    utf8_to_string,
};
use std::string::FromUtf8Error;

verus! {

/// Why the lines of a keyring cannot be read.
#[derive(Debug)]
pub enum KeyringErrors {
    /// A line is not UTF-8.
    DecodingError(FromUtf8Error),
}

/// The keys of a keyring.
#[derive(Debug, Clone)]
pub struct Keyring {
    pub key_area_application: Vec<String>,
    pub key_area_ocean: Vec<String>,
    pub key_area_system: Vec<String>,
    pub header_key: String,
}

/// The keys of a keyring, as text.
pub struct KeyringView {
    pub application: Seq<Seq<char>>,
    pub ocean: Seq<Seq<char>>,
    pub system: Seq<Seq<char>>,
    pub header_key: Seq<char>,
}

pub open spec fn views(v: Seq<String>) -> Seq<Seq<char>> {
    v.map_values(|s: String| s@)
}

impl View for Keyring {
    type V = KeyringView;

    open spec fn view(&self) -> KeyringView {
        KeyringView {
            application: views(self.key_area_application@),
            ocean: views(self.key_area_ocean@),
            system: views(self.key_area_system@),
            header_key: self.header_key@,
        }
    }
}

/// The name of a line: the text before its first `=`.
pub open spec fn key_of(line: Seq<char>) -> Seq<char> {
    line.take(first_index_of(line, '='))
}

/// The value of a line: the text after its first `=`.
pub open spec fn value_of(line: Seq<char>) -> Seq<char> {
    line.skip(first_index_of(line, '=') + 1)
}

/// What a line does to the keys: a key area key of the application, ocean
/// or system area is added to its list, the header key is replaced, and any
/// other line is ignored.
pub open spec fn apply_line(k: KeyringView, line: Seq<char>) -> KeyringView {
    let key = key_of(line);
    let val = value_of(line);
    if seq_starts_with(key, "key_area_key_application_"@) {
        KeyringView { application: k.application.push(val), ..k }
    } else if seq_starts_with(key, "key_area_key_ocean_"@) {
        KeyringView { ocean: k.ocean.push(val), ..k }
    } else if seq_starts_with(key, "key_area_key_system_"@) {
        KeyringView { system: k.system.push(val), ..k }
    } else if key == "header_key"@ {
        KeyringView { header_key: val, ..k }
    } else {
        k
    }
}

/// What the line `key=val` does to the keys, where `key` has no `=`: a key
/// area key of the application, ocean or system area (its name starts with
/// `key_area_key_application_`, `key_area_key_ocean_` or
/// `key_area_key_system_`) is added at the end of its list; the line whose
/// name is exactly `header_key` replaces the header key; every other line,
/// such as `header_key_source=..`, leaves all keys as they were.
pub proof fn lemma_keyring_line(k: KeyringView, key: Seq<char>, val: Seq<char>)
    requires
        !key.contains('='),
    ensures
        ({
            let after = apply_line(k, key + seq!['='] + val);
            let app = key.len() >= 25 && key.take(25) == "key_area_key_application_"@;
            let ocean = key.len() >= 19 && key.take(19) == "key_area_key_ocean_"@;
            let system = key.len() >= 20 && key.take(20) == "key_area_key_system_"@;
            &&& app ==> after.application == k.application.push(val) && after.ocean == k.ocean
                && after.system == k.system && after.header_key == k.header_key
            &&& !app && ocean ==> after.ocean == k.ocean.push(val) && after.application
                == k.application && after.system == k.system && after.header_key == k.header_key
            &&& !app && !ocean && system ==> after.system == k.system.push(val)
                && after.application == k.application && after.ocean == k.ocean
                && after.header_key == k.header_key
            &&& key == "header_key"@ ==> after.header_key == val && after.application
                == k.application && after.ocean == k.ocean && after.system == k.system
            &&& !app && !ocean && !system && key != "header_key"@ ==> after == k
        }),
{
    reveal_strlit("key_area_key_application_");
    reveal_strlit("key_area_key_ocean_");
    reveal_strlit("key_area_key_system_");
    reveal_strlit("header_key");
    let line = key + seq!['='] + val;
    let i = key.len() as int;
    assert(line[i] == '=');
    assert forall|j: int| 0 <= j < i implies line[j] != '=' by {
        assert(line[j] == key[j]);
    }
    assert(!occurs_before(line, '=', i));
    lemma_first_index_unique(line, '=', i);
    assert(key_of(line) == key);
    assert(value_of(line) == val);
    if key == "header_key"@ {
        assert(!seq_starts_with(key, "key_area_key_application_"@));
        assert(!seq_starts_with(key, "key_area_key_ocean_"@));
        assert(!seq_starts_with(key, "key_area_key_system_"@));
    }
}

/// The keys after reading the lines in order, and whether every line read
/// was UTF-8: reading stops at the first line that is not.
pub open spec fn apply_lines(k: KeyringView, lines: Seq<Seq<u8>>) -> (KeyringView, bool)
    decreases lines.len(),
{
    if lines.len() == 0 {
        (k, true)
    } else if !valid_utf8(lines[0]) {
        (k, false)
    } else {
        apply_lines(apply_line(k, decode_utf8(lines[0])), lines.drop_first())
    }
}

/// Whether every line that is read has a `=`: a line without one is not a
/// key, and reading it fails. An empty last line, after a final newline, is
/// such a line.
pub open spec fn lines_have_values(lines: Seq<Seq<u8>>) -> bool
    decreases lines.len(),
{
    lines.len() == 0 || (valid_utf8(lines[0]) ==> decode_utf8(lines[0]).contains('=')
        && lines_have_values(lines.drop_first()))
}

/// The lines of a keyring file's contents, split at each newline byte.
pub open spec fn keyring_lines(contents: Seq<u8>) -> Seq<Seq<u8>> {
    split_on(contents, 0x0Au8)
}

/// The index of the first `b` in `s` at or after `from`.
fn find_byte_from(s: &[u8], b: u8, from: usize) -> (r: Option<usize>)
    requires
        from <= s@.len(),
    ensures
        r matches Some(i) ==> from <= i && is_first_index(s@.skip(from as int), b, i - from),
        r is None <==> !s@.skip(from as int).contains(b),
{
    let n = s.len();
    let mut i: usize = from;
    while i < n
        invariant
            from <= i <= n == s@.len(),
            !occurs_before(s@.skip(from as int), b, i - from),
        decreases n - i,
    {
        if s[i] == b {
            assert(s@.skip(from as int)[i - from] == b);
            return Some(i);
        }
        i = i + 1;
    }
    proof {
        if s@.skip(from as int).contains(b) {
            let k = choose|k: int| 0 <= k < s@.skip(from as int).len() && s@.skip(from as int)[k] == b;
            assert(occurs_before(s@.skip(from as int), b, i - from));
        }
    }
    None
}

/// The part of `s` from `from` up to `to`, as characters.
fn chars_range(s: &Vec<char>, from: usize, to: usize) -> (r: Vec<char>)
    requires
        from <= to <= s@.len(),
    ensures
        r@ == s@.subrange(from as int, to as int),
{
    let mut r: Vec<char> = Vec::new();
    let mut i: usize = from;
    while i < to
        invariant
            from <= i <= to <= s@.len(),
            r@ == s@.subrange(from as int, i as int),
        decreases to - i,
    {
        r.push(s[i]);
        assert(s@.subrange(from as int, i + 1) == s@.subrange(from as int, i as int).push(s@[i as int]));
        i = i + 1;
    }
    r
}

/// Whether the lines of a keyring file can be read: each line that is read
/// before reading stops has a `=`.
pub fn keyring_is_readable(contents: &[u8]) -> (r: bool)
    ensures
        r == lines_have_values(keyring_lines(contents@)),
{
    let n = contents.len();
    let mut pos: usize = 0;
    assert(contents@.skip(0) == contents@);
    loop
        invariant
            pos <= n == contents@.len(),
            lines_have_values(keyring_lines(contents@.skip(pos as int))) == lines_have_values(
                keyring_lines(contents@),
            ),
        decreases n - pos,
    {
        let ghost rest = contents@.skip(pos as int);
        let found = find_byte_from(contents, 0x0A, pos);
        let end = match found {
            Some(i) => i,
            None => n,
        };
        let line_bytes = copy_range(contents, pos, end);
        let ghost lines = keyring_lines(rest);
        proof {
            match found {
                Some(i) => {
                    lemma_first_index_unique(rest, 0x0Au8, i - pos);
                    assert(line_bytes@ == rest.take(i - pos));
                    assert(lines == seq![rest.take(i - pos)] + keyring_lines(rest.skip(i - pos + 1)));
                    assert(rest.skip(i - pos + 1) == contents@.skip(i + 1));
                    assert(lines.drop_first() == keyring_lines(contents@.skip(i + 1)));
                },
                None => {
                    assert(lines == seq![rest]);
                    assert(line_bytes@ == rest);
                    assert(lines.drop_first() == Seq::<Seq<u8>>::empty());
                },
            }
            assert(lines[0] == line_bytes@);
        }
        let line = match utf8_to_string(line_bytes) {
            Ok(l) => l,
            Err(_) => {
                return true;
            },
        };
        let chars = chars_of(line.as_str());
        if find_first_char(&chars, '=').is_none() {
            return false;
        }
        match found {
            Some(i) => {
                pos = i + 1;
            },
            None => {
                assert(lines_have_values(Seq::<Seq<u8>>::empty()));
                return true;
            },
        }
    }
}

impl Keyring {
    /// An empty keyring.
    pub fn new() -> (r: Self)
        ensures
            r@.application.len() == 0,
            r@.ocean.len() == 0,
            r@.system.len() == 0,
            r@.header_key.len() == 0,
    {
        let r = Keyring {
            key_area_application: Vec::new(),
            key_area_ocean: Vec::new(),
            key_area_system: Vec::new(),
            header_key: String::new(),
        };
        assert(views(r.key_area_application@) =~= Seq::<Seq<char>>::empty());
        assert(views(r.key_area_ocean@) =~= Seq::<Seq<char>>::empty());
        assert(views(r.key_area_system@) =~= Seq::<Seq<char>>::empty());
        r
    }

    fn apply(&mut self, line: &Vec<char>)
        requires
            line@.contains('='),
        ensures
            final(self)@ == apply_line(old(self)@, line@),
    {
        let line_len = line.len();
        let eq = match find_first_char(line, '=') {
            Some(i) => i,
            None => {
                assert(false);
                0
            },
        };
        proof {
            lemma_first_index_unique(line@, '=', eq as int);
        }
        let key = chars_range(line, 0, eq);
        let val = chars_range(line, eq + 1, line_len);
        assert(key@ == key_of(line@));
        assert(val@ == value_of(line@));
        let value = string_from_chars(val.as_slice());
        let app = chars_of("key_area_key_application_");
        let ocean = chars_of("key_area_key_ocean_");
        let system = chars_of("key_area_key_system_");
        let header = chars_of("header_key");
        if chars_start_with(&key, &app) {
            self.key_area_application.push(value);
            assert(views(self.key_area_application@) =~= views(old(self).key_area_application@).push(val@));
        } else if chars_start_with(&key, &ocean) {
            self.key_area_ocean.push(value);
            assert(views(self.key_area_ocean@) =~= views(old(self).key_area_ocean@).push(val@));
        } else if chars_start_with(&key, &system) {
            self.key_area_system.push(value);
            assert(views(self.key_area_system@) =~= views(old(self).key_area_system@).push(val@));
        } else if chars_eq(&key, &header) {
            self.header_key = value;
        }
    }

    /// Reads the lines of a keyring file, in order, into the keys. Reading
    /// stops with an error at the first line that is not UTF-8, with the keys
    /// of the lines before it kept.
    pub fn parse(&mut self, contents: &[u8]) -> (r: Result<(), KeyringErrors>)
        requires
            lines_have_values(keyring_lines(contents@)),
        ensures
            final(self)@ == apply_lines(old(self)@, keyring_lines(contents@)).0,
            r is Ok <==> apply_lines(old(self)@, keyring_lines(contents@)).1,
    {
        let n = contents.len();
        let mut pos: usize = 0;
        assert(contents@.skip(0) == contents@);
        loop
            invariant
                pos <= n == contents@.len(),
                lines_have_values(keyring_lines(contents@.skip(pos as int))),
                apply_lines(self@, keyring_lines(contents@.skip(pos as int))) == apply_lines(
                    old(self)@,
                    keyring_lines(contents@),
                ),
            decreases n - pos,
        {
            let ghost rest = contents@.skip(pos as int);
            let ghost before = self@;
            let found = find_byte_from(contents, 0x0A, pos);
            let end = match found {
                Some(i) => i,
                None => n,
            };
            let line_bytes = copy_range(contents, pos, end);
            let ghost lines = keyring_lines(rest);
            proof {
                match found {
                    Some(i) => {
                        lemma_first_index_unique(rest, 0x0Au8, i - pos);
                        assert(line_bytes@ == rest.take(i - pos));
                        assert(lines == seq![rest.take(i - pos)] + keyring_lines(rest.skip(i - pos + 1)));
                        assert(rest.skip(i - pos + 1) == contents@.skip(i + 1));
                        assert(lines.drop_first() == keyring_lines(contents@.skip(i + 1)));
                    },
                    None => {
                        assert(lines == seq![rest]);
                        assert(line_bytes@ == rest);
                        assert(lines.drop_first() == Seq::<Seq<u8>>::empty());
                    },
                }
                assert(lines[0] == line_bytes@);
            }
            let line = match utf8_to_string(line_bytes) {
                Ok(l) => l,
                Err(e) => {
                    return Err(KeyringErrors::DecodingError(e));
                },
            };
            let chars = chars_of(line.as_str());
            self.apply(&chars);
            match found {
                Some(i) => {
                    pos = i + 1;
                },
                None => {
                    assert(apply_lines(self@, Seq::<Seq<u8>>::empty()) == (self@, true));
                    return Ok(());
                },
            }
        }
    }
}

} // verus!
