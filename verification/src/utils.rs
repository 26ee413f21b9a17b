//! Building the list of files to announce to the console: one line per file,
//! with a prefix and a suffix.
use vstd::prelude::*;
use vstd::utf8::*;
use crate::bytes::spec_be_bytes;
use crate::text::string_bytes;

verus! {

/// Builds the lines that name files: each is the prefix, the file, the
/// suffix and a newline.
pub struct FileVecBuilder {
    pub files: Vec<String>,
    pub prefix: Option<String>,
    pub suffix: Option<String>,
}

pub open spec fn opt_text(o: Option<String>) -> Seq<char> {
    match o {
        Some(s) => s@,
        None => Seq::empty(),
    }
}

pub open spec fn string_views(v: Seq<String>) -> Seq<Seq<char>> {
    v.map_values(|s: String| s@)
}

/// The bytes of all lines, one after another.
pub open spec fn flat_bytes(lines: Seq<Seq<char>>) -> Seq<u8>
    decreases lines.len(),
{
    if lines.len() == 0 {
        Seq::empty()
    } else {
        flat_bytes(lines.drop_last()) + encode_utf8(lines.last())
    }
}

impl FileVecBuilder {
    /// A builder with no lines, prefix or suffix.
    pub fn new() -> (r: Self)
        ensures
            r.files@.len() == 0,
            r.prefix is None,
            r.suffix is None,
    {
        FileVecBuilder { files: Vec::new(), prefix: None, suffix: None }
    }

    /// Sets the prefix of the lines added after.
    pub fn prefix(self, prefix: &str) -> (r: Self)
        ensures
            r.files == self.files,
            r.suffix == self.suffix,
            r.prefix matches Some(p) && p@ == prefix@,
    {
        FileVecBuilder { prefix: Some(String::from_str(prefix)), ..self }
    }

    /// Sets the suffix of the lines added after.
    pub fn suffix(self, suffix: &str) -> (r: Self)
        ensures
            r.files == self.files,
            r.prefix == self.prefix,
            r.suffix matches Some(p) && p@ == suffix@,
    {
        FileVecBuilder { suffix: Some(String::from_str(suffix)), ..self }
    }

    /// Adds the line of a file: prefix, file, suffix and a newline.
    pub fn file(self, file: String) -> (r: Self)
        ensures
            r.prefix == self.prefix,
            r.suffix == self.suffix,
            string_views(r.files@) == string_views(self.files@).push(
                opt_text(self.prefix) + file@ + opt_text(self.suffix) + seq!['\n'],
            ),
    {
        let mut line = String::new();
        match &self.prefix {
            Some(p) => line.append(p.as_str()),
            None => {},
        }
        line.append(file.as_str());
        match &self.suffix {
            Some(s) => line.append(s.as_str()),
            None => {},
        }
        line.append("\n");
        proof {
            reveal_strlit("\n");
        }
        let mut files = self.files;
        let ghost before = files@;
        files.push(line);
        assert(string_views(files@) =~= string_views(before).push(line@));
        assert(line@ =~= opt_text(self.prefix) + file@ + opt_text(self.suffix) + seq!['\n']);
        FileVecBuilder { files, prefix: self.prefix, suffix: self.suffix }
    }

    /// The bytes of each line.
    pub fn build(self) -> (r: Vec<Vec<u8>>)
        ensures
            r@.len() == self.files@.len(),
            forall|i: int| 0 <= i < r@.len() ==> #[trigger] r@[i]@ == encode_utf8(self.files@[i]@),
    {
        let mut r: Vec<Vec<u8>> = Vec::new();
        let mut i: usize = 0;
        while i < self.files.len()
            invariant
                i <= self.files@.len(),
                r@.len() == i,
                forall|k: int| 0 <= k < i ==> #[trigger] r@[k]@ == encode_utf8(self.files@[k]@),
            decreases self.files.len() - i,
        {
            r.push(string_bytes(&self.files[i]));
            i = i + 1;
        }
        r
    }

    /// The bytes of all lines, one after another.
    pub fn flatten_build(self) -> (r: Vec<u8>)
        ensures
            r@ == flat_bytes(string_views(self.files@)),
    {
        let mut r: Vec<u8> = Vec::new();
        let mut i: usize = 0;
        while i < self.files.len()
            invariant
                i <= self.files@.len(),
                r@ == flat_bytes(string_views(self.files@.take(i as int))),
            decreases self.files.len() - i,
        {
            let b = string_bytes(&self.files[i]);
            let mut j: usize = 0;
            let ghost before = r@;
            while j < b.len()
                invariant
                    j <= b@.len(),
                    r@ == before + b@.take(j as int),
                decreases b.len() - j,
            {
                r.push(b[j]);
                assert(b@.take(j + 1) == b@.take(j as int).push(b@[j as int]));
                j = j + 1;
            }
            assert(b@.take(b@.len() as int) == b@);
            assert(string_views(self.files@.take(i + 1)).drop_last() == string_views(self.files@.take(i as int)));
            assert(string_views(self.files@.take(i + 1)).last() == self.files@[i as int]@);
            i = i + 1;
        }
        assert(self.files@.take(self.files@.len() as int) == self.files@);
        r
    }

    /// The bytes of all lines, after their length as four big-endian bytes
    /// (the length is taken modulo 2^32).
    pub fn build_net(self) -> (r: Vec<u8>)
        ensures
            r@ == spec_be_bytes(flat_bytes(string_views(self.files@)).len() % 0x1_0000_0000, 4)
                + flat_bytes(string_views(self.files@)),
    {
        let ghost files = self.files@;
        let e = self.flatten_build();
        let length = (e.len() as u64 % 0x1_0000_0000) as u32;
        let mut buf: Vec<u8> = Vec::new();
        buf.push((length / 0x100_0000) as u8);
        buf.push(((length / 0x1_0000) % 256) as u8);
        buf.push(((length / 0x100) % 256) as u8);
        buf.push((length % 256) as u8);
        proof {
            let x = length as nat;
            assert(spec_be_bytes(x, 4) == seq![
                (x / 0x100_0000) as u8, ((x / 0x1_0000) % 256) as u8, ((x / 0x100) % 256) as u8, (x % 256) as u8
            ]) by {
                reveal_with_fuel(spec_be_bytes, 5);
                assert(x / 256 / 256 / 256 == x / 0x100_0000) by (nonlinear_arith);
                assert(x / 256 / 256 == x / 0x1_0000) by (nonlinear_arith);
                assert(x / 256 / 256 / 256 / 256 == 0) by (nonlinear_arith)
                    requires x < 0x1_0000_0000;
                assert((x / 0x100_0000) % 256 == x / 0x100_0000) by (nonlinear_arith)
                    requires x < 0x1_0000_0000;
            }
        }
        let ghost head = buf@;
        let mut j: usize = 0;
        while j < e.len()
            invariant
                j <= e@.len(),
                buf@ == head + e@.take(j as int),
            decreases e.len() - j,
        {
            buf.push(e[j]);
            assert(e@.take(j + 1) == e@.take(j as int).push(e@[j as int]));
            j = j + 1;
        }
        assert(e@.take(e@.len() as int) == e@);
        buf
    }
}

/// The bytes of each line, as `build` gives them, one after another, are
/// the bytes `flatten_build` gives.
pub proof fn lemma_flatten_build_joins_build(files: Seq<String>)
    ensures
        flat_bytes(string_views(files)) == Seq::new(files.len(), |i: int| encode_utf8(files[i]@)).flatten(),
{
    let per_line = Seq::new(files.len(), |i: int| encode_utf8(files[i]@));
    lemma_flat_bytes_alt(files);
    per_line.lemma_flatten_and_flatten_alt_are_equivalent();
}

proof fn lemma_flat_bytes_alt(files: Seq<String>)
    ensures
        flat_bytes(string_views(files)) == Seq::new(files.len(), |i: int| encode_utf8(files[i]@)).flatten_alt(),
    decreases files.len(),
{
    if files.len() > 0 {
        lemma_flat_bytes_alt(files.drop_last());
        assert(string_views(files).drop_last() == string_views(files.drop_last()));
        assert(Seq::new(files.len(), |i: int| encode_utf8(files[i]@)).drop_last()
            == Seq::new(files.drop_last().len(), |i: int| encode_utf8(files.drop_last()[i]@)));
    } else {
        assert(string_views(files) =~= Seq::<Seq<char>>::empty());
    }
}

} // verus!
