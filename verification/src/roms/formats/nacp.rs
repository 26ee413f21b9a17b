//! The control data of a title (NACP): its names and publishers in each
//! language, and its version.
use vstd::prelude::*;
use vstd::utf8::*;
use crate::bytes::{copy_range, BinError};
use crate::text::utf8_to_string;
use std::string::FromUtf8Error;

verus! {

/// The languages a title's name is given in, in the order of the NACP.
#[derive(Debug, Clone, Copy, PartialEq, Eq, Structural)]
pub enum TitleLanguage {
    AmericanEnglish,
    BritishEnglish,
    Japanese,
    French,
    German,
    LatinAmericanSpanish,
    Spanish,
    Italian,
    Dutch,
    CanadianFrench,
    Portuguese,
    Russian,
    Korean,
    TraditionalChinese,
    SimplifiedChinese,
    BrazilianPortuguese,
}

/// The language at a position of the NACP's list, if any.
pub open spec fn spec_language_from(value: i32) -> Result<TitleLanguage, ()> {
        if value == 0 {
            Ok(TitleLanguage::AmericanEnglish)
        } else if value == 1 {
            Ok(TitleLanguage::BritishEnglish)
        } else if value == 2 {
            Ok(TitleLanguage::Japanese)
        } else if value == 3 {
            Ok(TitleLanguage::French)
        } else if value == 4 {
            Ok(TitleLanguage::German)
        } else if value == 5 {
            Ok(TitleLanguage::LatinAmericanSpanish)
        } else if value == 6 {
            Ok(TitleLanguage::Spanish)
        } else if value == 7 {
            Ok(TitleLanguage::Italian)
        } else if value == 8 {
            Ok(TitleLanguage::Dutch)
        } else if value == 9 {
            Ok(TitleLanguage::CanadianFrench)
        } else if value == 10 {
            Ok(TitleLanguage::Portuguese)
        } else if value == 11 {
            Ok(TitleLanguage::Russian)
        } else if value == 12 {
            Ok(TitleLanguage::Korean)
        } else if value == 13 {
            Ok(TitleLanguage::TraditionalChinese)
        } else if value == 14 {
            Ok(TitleLanguage::SimplifiedChinese)
        } else if value == 15 {
            Ok(TitleLanguage::BrazilianPortuguese)
        } else {
            Err(())
        }
}

impl TitleLanguage {
    /// The language's position in the NACP's list of titles.
    pub open spec fn spec_index(self) -> nat {
        match self {
            TitleLanguage::AmericanEnglish => 0,
            TitleLanguage::BritishEnglish => 1,
            TitleLanguage::Japanese => 2,
            TitleLanguage::French => 3,
            TitleLanguage::German => 4,
            TitleLanguage::LatinAmericanSpanish => 5,
            TitleLanguage::Spanish => 6,
            TitleLanguage::Italian => 7,
            TitleLanguage::Dutch => 8,
            TitleLanguage::CanadianFrench => 9,
            TitleLanguage::Portuguese => 10,
            TitleLanguage::Russian => 11,
            TitleLanguage::Korean => 12,
            TitleLanguage::TraditionalChinese => 13,
            TitleLanguage::SimplifiedChinese => 14,
            TitleLanguage::BrazilianPortuguese => 15,
        }
    }

    /// The language's name, as the icon files of a ROM spell it.
    pub open spec fn spec_name(self) -> Seq<char> {
        match self {
            TitleLanguage::AmericanEnglish => "AmericanEnglish"@,
            TitleLanguage::BritishEnglish => "BritishEnglish"@,
            TitleLanguage::Japanese => "Japanese"@,
            TitleLanguage::French => "French"@,
            TitleLanguage::German => "German"@,
            TitleLanguage::LatinAmericanSpanish => "LatinAmericanSpanish"@,
            TitleLanguage::Spanish => "Spanish"@,
            TitleLanguage::Italian => "Italian"@,
            TitleLanguage::Dutch => "Dutch"@,
            TitleLanguage::CanadianFrench => "CanadianFrench"@,
            TitleLanguage::Portuguese => "Portuguese"@,
            TitleLanguage::Russian => "Russian"@,
            TitleLanguage::Korean => "Korean"@,
            TitleLanguage::TraditionalChinese => "TraditionalChinese"@,
            TitleLanguage::SimplifiedChinese => "SimplifiedChinese"@,
            TitleLanguage::BrazilianPortuguese => "BrazilianPortuguese"@,
        }
    }

    pub fn index(&self) -> (r: usize)
        ensures
            r == self.spec_index(),
    {
        match self {
            TitleLanguage::AmericanEnglish => 0,
            TitleLanguage::BritishEnglish => 1,
            TitleLanguage::Japanese => 2,
            TitleLanguage::French => 3,
            TitleLanguage::German => 4,
            TitleLanguage::LatinAmericanSpanish => 5,
            TitleLanguage::Spanish => 6,
            TitleLanguage::Italian => 7,
            TitleLanguage::Dutch => 8,
            TitleLanguage::CanadianFrench => 9,
            TitleLanguage::Portuguese => 10,
            TitleLanguage::Russian => 11,
            TitleLanguage::Korean => 12,
            TitleLanguage::TraditionalChinese => 13,
            TitleLanguage::SimplifiedChinese => 14,
            TitleLanguage::BrazilianPortuguese => 15,
        }
    }

    pub fn name(&self) -> (r: String)
        ensures
            r@ == self.spec_name(),
    {
        match self {
            TitleLanguage::AmericanEnglish => String::from_str("AmericanEnglish"),
            TitleLanguage::BritishEnglish => String::from_str("BritishEnglish"),
            TitleLanguage::Japanese => String::from_str("Japanese"),
            TitleLanguage::French => String::from_str("French"),
            TitleLanguage::German => String::from_str("German"),
            TitleLanguage::LatinAmericanSpanish => String::from_str("LatinAmericanSpanish"),
            TitleLanguage::Spanish => String::from_str("Spanish"),
            TitleLanguage::Italian => String::from_str("Italian"),
            TitleLanguage::Dutch => String::from_str("Dutch"),
            TitleLanguage::CanadianFrench => String::from_str("CanadianFrench"),
            TitleLanguage::Portuguese => String::from_str("Portuguese"),
            TitleLanguage::Russian => String::from_str("Russian"),
            TitleLanguage::Korean => String::from_str("Korean"),
            TitleLanguage::TraditionalChinese => String::from_str("TraditionalChinese"),
            TitleLanguage::SimplifiedChinese => String::from_str("SimplifiedChinese"),
            TitleLanguage::BrazilianPortuguese => String::from_str("BrazilianPortuguese"),
        }
    }

    /// The language at position `value` of the NACP's list.
    pub fn try_from(value: i32) -> (r: Result<TitleLanguage, ()>)
        ensures
            r == spec_language_from(value),
            r matches Ok(l) ==> l.spec_index() == value,
    {
        if value == 0 {
            Ok(TitleLanguage::AmericanEnglish)
        } else if value == 1 {
            Ok(TitleLanguage::BritishEnglish)
        } else if value == 2 {
            Ok(TitleLanguage::Japanese)
        } else if value == 3 {
            Ok(TitleLanguage::French)
        } else if value == 4 {
            Ok(TitleLanguage::German)
        } else if value == 5 {
            Ok(TitleLanguage::LatinAmericanSpanish)
        } else if value == 6 {
            Ok(TitleLanguage::Spanish)
        } else if value == 7 {
            Ok(TitleLanguage::Italian)
        } else if value == 8 {
            Ok(TitleLanguage::Dutch)
        } else if value == 9 {
            Ok(TitleLanguage::CanadianFrench)
        } else if value == 10 {
            Ok(TitleLanguage::Portuguese)
        } else if value == 11 {
            Ok(TitleLanguage::Russian)
        } else if value == 12 {
            Ok(TitleLanguage::Korean)
        } else if value == 13 {
            Ok(TitleLanguage::TraditionalChinese)
        } else if value == 14 {
            Ok(TitleLanguage::SimplifiedChinese)
        } else if value == 15 {
            Ok(TitleLanguage::BrazilianPortuguese)
        } else {
            Err(())
        }
    }
}

/// A language's position in the NACP's list gives the language back.
pub proof fn lemma_language_index_roundtrip(l: TitleLanguage)
    ensures
        spec_language_from(l.spec_index() as i32) == Ok::<TitleLanguage, ()>(l),
{
}

/// The names of the languages, in the order of the NACP's list of titles.
pub open spec fn language_names() -> Seq<Seq<char>> {
    seq![
        "AmericanEnglish"@, "BritishEnglish"@, "Japanese"@, "French"@, "German"@,
        "LatinAmericanSpanish"@, "Spanish"@, "Italian"@, "Dutch"@, "CanadianFrench"@,
        "Portuguese"@, "Russian"@, "Korean"@, "TraditionalChinese"@, "SimplifiedChinese"@,
        "BrazilianPortuguese"@,
    ]
}

/// A language's name is the one at its position in the NACP's list, and
/// distinct languages have distinct names, so an icon named after a language
/// is that language's icon and no other's.
pub proof fn lemma_language_names(l: TitleLanguage, m: TitleLanguage)
    ensures
        l.spec_name() == language_names()[l.spec_index() as int],
        l != m ==> l.spec_name() != m.spec_name(),
{
    reveal_strlit("AmericanEnglish");
    reveal_strlit("BritishEnglish");
    reveal_strlit("Japanese");
    reveal_strlit("French");
    reveal_strlit("German");
    reveal_strlit("LatinAmericanSpanish");
    reveal_strlit("Spanish");
    reveal_strlit("Italian");
    reveal_strlit("Dutch");
    reveal_strlit("CanadianFrench");
    reveal_strlit("Portuguese");
    reveal_strlit("Russian");
    reveal_strlit("Korean");
    reveal_strlit("TraditionalChinese");
    reveal_strlit("SimplifiedChinese");
    reveal_strlit("BrazilianPortuguese");
    if l != m && l.spec_name() == m.spec_name() {
        assert(l.spec_name().len() == m.spec_name().len());
        assert(l.spec_name()[0] == m.spec_name()[0]);
        assert(l.spec_name()[1] == m.spec_name()[1]);
        assert(false);
    }
}

/// The bytes of `s` that are not zero, in order.
pub open spec fn non_zero(s: Seq<u8>) -> Seq<u8> {
    s.filter(|b: u8| b != 0)
}

/// Removes the zero bytes of `bytes`.
pub fn strip(bytes: &mut Vec<u8>)
    ensures
        final(bytes)@ == non_zero(old(bytes)@),
{
    let mut out: Vec<u8> = Vec::new();
    let mut i: usize = 0;
    while i < bytes.len()
        invariant
            i <= bytes@.len(),
            bytes@ == old(bytes)@,
            out@ == non_zero(bytes@.take(i as int)),
        decreases bytes.len() - i,
    {
        let b = bytes[i];
        proof {
            assert(bytes@.take(i + 1).drop_last() == bytes@.take(i as int));
            reveal_with_fuel(Seq::filter, 1);
        }
        if b != 0 {
            out.push(b);
        }
        i = i + 1;
    }
    assert(bytes@.take(bytes@.len() as int) == bytes@);
    *bytes = out;
}

/// The name and publisher of a title in one language, as stored: 0x200 and
/// 0x100 bytes, padded with zeros.
#[derive(Debug)]
pub struct Title {
    pub raw_name: Vec<u8>,
    pub raw_publisher: Vec<u8>,
}

/// The text a stored field holds: its non-zero bytes, decoded as UTF-8.
pub open spec fn field_text_ok(raw: Seq<u8>, r: Result<String, FromUtf8Error>) -> bool {
    &&& (r is Ok <==> valid_utf8(non_zero(raw)))
    &&& (r matches Ok(s) ==> s@ == decode_utf8(non_zero(raw)))
}

/// Decodes a stored field.
pub fn field_text(raw: &Vec<u8>) -> (r: Result<String, FromUtf8Error>)
    ensures
        field_text_ok(raw@, r),
{
    let mut n = raw.clone();
    strip(&mut n);
    utf8_to_string(n)
}

impl Title {
    /// The title's name.
    pub fn name(&self) -> (r: Result<String, FromUtf8Error>)
        ensures
            field_text_ok(self.raw_name@, r),
    {
        field_text(&self.raw_name)
    }

    /// The title's publisher.
    pub fn publisher(&self) -> (r: Result<String, FromUtf8Error>)
        ensures
            field_text_ok(self.raw_publisher@, r),
    {
        field_text(&self.raw_publisher)
    }
}

/// Size of the part of a NACP that is read.
pub const NACP_READ_SIZE: usize = 0x3070;

/// The control data of a title.
#[derive(Debug)]
pub struct Nacp {
    /// A title per language, in the order of `TitleLanguage`.
    pub titles: Vec<Title>,
    /// The version string, 0x10 bytes padded with zeros.
    pub raw_version: Vec<u8>,
}

impl Nacp {
    /// Whether the control data holds what the bytes `s` hold: sixteen
    /// titles of 0x300 bytes from the start, and the version at 0x3060.
    pub open spec fn read_from(&self, s: Seq<u8>) -> bool {
        &&& self.titles@.len() == 16
        &&& forall|i: int|
            0 <= i < 16 ==> {
                &&& (#[trigger] self.titles@[i]).raw_name@ == s.subrange(0x300 * i, 0x300 * i + 0x200)
                &&& self.titles@[i].raw_publisher@ == s.subrange(0x300 * i + 0x200, 0x300 * i + 0x300)
            }
        &&& self.raw_version@ == s.subrange(0x3060, 0x3070)
    }

    /// Reads control data from its first 0x3070 bytes.
    pub fn parse(s: &[u8]) -> (r: Result<Nacp, BinError>)
        ensures
            r is Ok <==> s@.len() >= 0x3070,
            r matches Err(e) ==> e == BinError::UnexpectedEof,
            r matches Ok(n) ==> n.read_from(s@),
    {
        if s.len() < NACP_READ_SIZE {
            return Err(BinError::UnexpectedEof);
        }
        let mut titles: Vec<Title> = Vec::new();
        let mut i: usize = 0;
        while i < 16
            invariant
                i <= 16,
                s@.len() >= 0x3070,
                titles@.len() == i,
                forall|k: int|
                    0 <= k < i ==> {
                        &&& (#[trigger] titles@[k]).raw_name@ == s@.subrange(0x300 * k, 0x300 * k + 0x200)
                        &&& titles@[k].raw_publisher@ == s@.subrange(0x300 * k + 0x200, 0x300 * k + 0x300)
                    },
            decreases 16 - i,
        {
            let at = 0x300 * i;
            let t = Title {
                raw_name: copy_range(s, at, at + 0x200),
                raw_publisher: copy_range(s, at + 0x200, at + 0x300),
            };
            titles.push(t);
            i = i + 1;
        }
        let raw_version = copy_range(s, 0x3060, 0x3070);
        Ok(Nacp { titles, raw_version })
    }

    /// The title's version.
    pub fn version(&self) -> (r: Result<String, FromUtf8Error>)
        ensures
            field_text_ok(self.raw_version@, r),
    {
        field_text(&self.raw_version)
    }
}

} // verus!
