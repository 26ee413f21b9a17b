//! What the ROM list shows of a ROM: which files of a ROM hold its title and
//! icon, which title is shown, and which files are ROMs at all.
use vstd::prelude::*;
use vstd::utf8::*;
use crate::roms::formats::nacp::{field_text_ok, non_zero, Nacp, Title, TitleLanguage};
use crate::text::{chars_eq, chars_of, last_segment, last_segment_of, remove_all, remove_all_of, str_eq};
use std::string::FromUtf8Error;

verus! {

/// Whether the last part of `file` split at `.` is `extension`: a file
/// without a `.` has only one part, itself.
pub open spec fn spec_matches_extension(file: Seq<char>, extension: Seq<char>) -> bool {
    last_segment(file, '.') == extension
}

/// Whether a file name ends in the given extension.
pub fn matches_extension(file: String, extension: &str) -> (r: bool)
    ensures
        r == spec_matches_extension(file@, extension@),
{
    let chars = chars_of(file.as_str());
    let last = last_segment_of(&chars, '.');
    let ext = chars_of(extension);
    chars_eq(&last, &ext)
}

/// The kinds of ROM files.
#[derive(Debug, Clone, Copy, PartialEq, Eq, Structural)]
pub enum RomType {
    Xci,
    Nsp,
}

/// The kind of ROM a file extension names: `nsp` or `xci`.
pub fn rom_type_for_extension(ext: &str) -> (r: Option<RomType>)
    ensures
        r == (if ext@ == "nsp"@ {
            Some(RomType::Nsp)
        } else if ext@ == "xci"@ {
            Some(RomType::Xci)
        } else {
            None
        }),
{
    if str_eq(ext, "nsp") {
        Some(RomType::Nsp)
    } else if str_eq(ext, "xci") {
        Some(RomType::Xci)
    } else {
        None
    }
}

/// Why a file is not taken as a ROM.
#[derive(Debug, Clone, Copy, PartialEq, Eq, Structural)]
pub enum ExtensionError {
    NoExtension,
    InvalidExt,
}

/// Whether a file with the given extension is taken as a ROM, and which kind.
pub fn check_extension(ext: Option<&str>) -> (r: Result<RomType, ExtensionError>)
    ensures
        ext is None ==> r == Err::<RomType, ExtensionError>(ExtensionError::NoExtension),
        ext matches Some(e) ==> r == (if e@ == "nsp"@ {
            Ok::<RomType, ExtensionError>(RomType::Nsp)
        } else if e@ == "xci"@ {
            Ok(RomType::Xci)
        } else {
            Err(ExtensionError::InvalidExt)
        }),
{
    match ext {
        None => Err(ExtensionError::NoExtension),
        Some(e) => match rom_type_for_extension(e) {
            Some(t) => Ok(t),
            None => Err(ExtensionError::InvalidExt),
        },
    }
}

/// Why the title shown for a ROM cannot be taken from its control data.
#[derive(Debug)]
pub enum NacpErrors {
    Decoding(FromUtf8Error),
    NoSuitableLanguage,
}

/// Whether a stored name is all zeros, that is, absent.
pub open spec fn all_zero(s: Seq<u8>) -> bool {
    forall|i: int| 0 <= i < s.len() ==> s[i] == 0
}

/// Which title is shown: the one in the chosen language if its name is
/// present, else the first.
pub open spec fn spec_selected_title(titles: Seq<Title>, language: TitleLanguage) -> Option<int> {
    let l = language.spec_index() as int;
    if l < titles.len() && !all_zero(titles[l].raw_name@) {
        Some(l)
    } else if titles.len() > 0 {
        Some(0)
    } else {
        None
    }
}

/// The stored name and version that are shown, with their zero bytes
/// removed, or `None` when no title can be chosen.
pub open spec fn spec_shown_fields(nacp: &Nacp, language: TitleLanguage) -> Option<(Seq<u8>, Seq<u8>)> {
    match spec_selected_title(nacp.titles@, language) {
        Some(i) => Some((non_zero(nacp.titles@[i].raw_name@), non_zero(nacp.raw_version@))),
        None => None,
    }
}

/// Whether the name of a title is present: not all zeros.
pub fn check_title(title: &Title) -> (r: bool)
    ensures
        r == !all_zero(title.raw_name@),
{
    let mut i: usize = 0;
    while i < title.raw_name.len()
        invariant
            i <= title.raw_name@.len(),
            forall|k: int| 0 <= k < i ==> title.raw_name@[k] == 0,
        decreases title.raw_name.len() - i,
    {
        if title.raw_name[i] != 0 {
            return true;
        }
        i = i + 1;
    }
    false
}

/// The name and version shown for a ROM whose control data is `nacp`: the
/// title is chosen as `spec_selected_title` says, and both fields are decoded.
pub fn handle_nacp(nacp: &Nacp, language: TitleLanguage) -> (r: Result<(String, String), NacpErrors>)
    ensures
        spec_selected_title(nacp.titles@, language) is None <==> (r matches Err(
            NacpErrors::NoSuitableLanguage,
        )),
        spec_selected_title(nacp.titles@, language) matches Some(i) ==> {
            let name_bytes = non_zero(nacp.titles@[i].raw_name@);
            let version_bytes = non_zero(nacp.raw_version@);
            &&& (r is Ok <==> valid_utf8(name_bytes) && valid_utf8(version_bytes))
            &&& (r matches Ok((n, v)) ==> n@ == decode_utf8(name_bytes) && v@ == decode_utf8(version_bytes))
            &&& ((r matches Err(NacpErrors::Decoding(_))) <==> !(valid_utf8(name_bytes) && valid_utf8(version_bytes)))
        },
{
    let l = language.index();
    let n = nacp.titles.len();
    let index: usize = if l < n && check_title(&nacp.titles[l]) {
        l
    } else if n > 0 {
        0
    } else {
        return Err(NacpErrors::NoSuitableLanguage);
    };
    let title = &nacp.titles[index];
    let name = match title.name() {
        Ok(s) => s,
        Err(e) => {
            return Err(NacpErrors::Decoding(e));
        },
    };
    let version = match nacp.version() {
        Ok(s) => s,
        Err(e) => {
            return Err(NacpErrors::Decoding(e));
        },
    };
    Ok((name, version))
}

/// What to do with a file of a control archive's RomFS.
#[derive(Debug, Clone, Copy, PartialEq, Eq, Structural)]
pub enum ControlEntryAction {
    /// Read the file as control data and hand it to `nacp_read`.
    ReadNacp,
    /// Read the file as the icon in the chosen language, then call `icon_read`.
    ReadIcon,
    /// Nothing.
    Skip,
}

/// What to do once every file of a control archive was seen.
#[derive(Debug, Clone, Copy, PartialEq, Eq, Structural)]
pub enum ControlFinish {
    /// The icon in the chosen language was read.
    Done,
    /// Read the icon file at this index, the first icon of the archive.
    ReadFallbackIcon(usize),
}

/// Why a control archive gives no title.
#[derive(Debug, Clone, Copy, PartialEq, Eq, Structural)]
pub enum ControlError {
    NoNacp,
}

/// The language an icon file is for: its name without `.dat`, after the last
/// `_`, as in `icon_AmericanEnglish.dat`.
pub open spec fn icon_language(name: Seq<char>) -> Seq<char> {
    last_segment(remove_all(name, ".dat"@), '_')
}

/// Goes through the files of a control archive's RomFS to find the title and
/// the icon shown for a ROM.
pub struct ControlScan {
    pub language: TitleLanguage,
    /// The name and version found, if control data was read.
    pub res: Option<(String, String)>,
    /// Whether the icon in the chosen language was read.
    pub have_icon: bool,
    /// The indices of the icon files seen, in order.
    pub icon_entries: Vec<usize>,
}

impl ControlScan {
    pub fn new(language: TitleLanguage) -> (r: Self)
        ensures
            r.language == language,
            r.res is None,
            !r.have_icon,
            r.icon_entries@.len() == 0,
    {
        ControlScan { language, res: None, have_icon: false, icon_entries: Vec::new() }
    }

    /// What to do with the file at `index`, named `name`: control data ends
    /// in `.nacp`; icons end in `.dat`, and the one for the chosen language is
    /// read unless one was read already.
    pub fn entry(&mut self, index: usize, name: &str) -> (r: ControlEntryAction)
        ensures
            final(self).language == old(self).language,
            final(self).res == old(self).res,
            final(self).have_icon == old(self).have_icon,
            spec_matches_extension(name@, "nacp"@) ==> r == ControlEntryAction::ReadNacp
                && final(self).icon_entries@ == old(self).icon_entries@,
            !spec_matches_extension(name@, "nacp"@) && spec_matches_extension(name@, "dat"@) ==> {
                &&& final(self).icon_entries@ == old(self).icon_entries@.push(index)
                &&& r == (if !old(self).have_icon && icon_language(name@)
                    == old(self).language.spec_name() {
                    ControlEntryAction::ReadIcon
                } else {
                    ControlEntryAction::Skip
                })
            },
            !spec_matches_extension(name@, "nacp"@) && !spec_matches_extension(name@, "dat"@)
                ==> r == ControlEntryAction::Skip && final(self).icon_entries@ == old(
                self,
            ).icon_entries@,
    {
        let owned = String::from_str(name);
        if matches_extension(owned.clone(), "nacp") {
            return ControlEntryAction::ReadNacp;
        }
        if !matches_extension(owned, "dat") {
            return ControlEntryAction::Skip;
        }
        self.icon_entries.push(index);
        if self.have_icon {
            return ControlEntryAction::Skip;
        }
        let chars = chars_of(name);
        let dat = chars_of(".dat");
        proof {
            reveal_strlit(".dat");
        }
        let trimmed = remove_all_of(&chars, &dat);
        let lang = last_segment_of(&trimmed, '_');
        let wanted = self.language.name();
        let wanted_chars = chars_of(wanted.as_str());
        if chars_eq(&lang, &wanted_chars) {
            ControlEntryAction::ReadIcon
        } else {
            ControlEntryAction::Skip
        }
    }

    /// Takes the name and version from control data that was read.
    pub fn nacp_read(&mut self, nacp: &Nacp) -> (r: Result<(), NacpErrors>)
        ensures
            final(self).language == old(self).language,
            final(self).have_icon == old(self).have_icon,
            final(self).icon_entries == old(self).icon_entries,
            r is Err ==> final(self).res == old(self).res,
            (r matches Err(NacpErrors::NoSuitableLanguage)) <==> spec_shown_fields(nacp, old(self).language) is None,
            spec_shown_fields(nacp, old(self).language) matches Some((n, v)) ==> {
                &&& (r is Ok <==> valid_utf8(n) && valid_utf8(v))
                &&& (r is Ok ==> (final(self).res matches Some((tn, tv)) && tn@ == decode_utf8(n) && tv@ == decode_utf8(v)))
            },
    {
        let (name, version) = handle_nacp(nacp, self.language)?;
        self.res = Some((name, version));
        Ok(())
    }

    /// Notes that the icon in the chosen language was read.
    pub fn icon_read(&mut self)
        ensures
            final(self).have_icon,
            final(self).language == old(self).language,
            final(self).res == old(self).res,
            final(self).icon_entries == old(self).icon_entries,
    {
        self.have_icon = true;
    }

    /// What is left to do once every file was seen: no control data is an
    /// error; with no icon in the chosen language, the first icon is read.
    /// Control data with no icon at all leaves the ROM without an icon, on
    /// which the loader fails, and is left out.
    pub fn finish(&self) -> (r: Result<ControlFinish, ControlError>)
        requires
            self.res is Some ==> self.have_icon || self.icon_entries@.len() > 0,
        ensures
            self.res is None <==> r == Err::<ControlFinish, ControlError>(ControlError::NoNacp),
            self.res is Some ==> r == (if self.have_icon {
                Ok::<ControlFinish, ControlError>(ControlFinish::Done)
            } else {
                Ok(ControlFinish::ReadFallbackIcon(self.icon_entries@[0]))
            }),
    {
        if self.res.is_none() {
            return Err(ControlError::NoNacp);
        }
        if self.have_icon {
            Ok(ControlFinish::Done)
        } else {
            Ok(ControlFinish::ReadFallbackIcon(self.icon_entries[0]))
        }
    }
}

/// The title and version kept for a ROM whose files are read directly.
pub struct TitleInfo {
    pub title: Option<String>,
    pub version: Option<String>,
}

impl TitleInfo {
    pub fn new() -> (r: Self)
        ensures
            r.title is None,
            r.version is None,
    {
        TitleInfo { title: None, version: None }
    }

    /// Takes the title in `language`, when the control data has one, then
    /// the version; a field that does not decode stops with an error, the
    /// title kept if it was taken.
    pub fn handle_nacp(&mut self, nacp: &Nacp, language: TitleLanguage) -> (r: Result<(), FromUtf8Error>)
        ensures
            ({
                let l = language.spec_index() as int;
                let in_range = l < nacp.titles@.len();
                let name_raw = nacp.titles@[l].raw_name@;
                let name_ok = !in_range || valid_utf8(non_zero(name_raw));
                &&& (r is Ok <==> name_ok && valid_utf8(non_zero(nacp.raw_version@)))
                &&& (in_range && valid_utf8(non_zero(name_raw)) ==> (final(self).title matches Some(t) && t@ == decode_utf8(non_zero(name_raw))))
                &&& (!(in_range && valid_utf8(non_zero(name_raw))) ==> final(self).title == old(self).title)
                &&& (r is Ok ==> (final(self).version matches Some(v) && v@ == decode_utf8(non_zero(nacp.raw_version@))))
                &&& (r is Err ==> final(self).version == old(self).version)
            }),
    {
        let l = language.index();
        if l < nacp.titles.len() {
            let name = nacp.titles[l].name()?;
            self.title = Some(name);
        }
        let version = nacp.version()?;
        self.version = Some(version);
        Ok(())
    }
}

/// The name and version shown for a ROM before, or instead of, reading its
/// control data: its file name and version 0.0.0.
pub fn default_name_and_version(file_name: &str) -> (r: (String, String))
    ensures
        r.0@ == file_name@,
        r.1@ == "0.0.0"@,
{
    (String::from_str(file_name), String::from_str("0.0.0"))
}

/// A file named `stem.ext`, where `ext` holds no `.`, has the extension
/// `ext`.
pub proof fn lemma_extension_of_joined_name(stem: Seq<char>, ext: Seq<char>)
    requires
        !ext.contains('.'),
    ensures
        spec_matches_extension(stem + seq!['.'] + ext, ext),
{
    let name = stem + seq!['.'] + ext;
    let i = stem.len() as int;
    assert(name[i] == '.');
    assert forall|j: int| i < j < name.len() implies name[j] != '.' by {
        assert(name[j] == ext[j - i - 1]);
    }
    crate::text::lemma_last_index_unique(name, '.', i);
    assert(name.skip(i + 1) =~= ext);
}

/// The kind of ROM a file is loaded as: an `nsp` file as a PFS0 archive,
/// any other as a card image.
pub fn load_kind(ext: &str) -> (r: RomType)
    ensures
        r == (if ext@ == "nsp"@ {
            RomType::Nsp
        } else {
            RomType::Xci
        }),
{
    if str_eq(ext, "nsp") {
        RomType::Nsp
    } else {
        RomType::Xci
    }
}

} // verus!
