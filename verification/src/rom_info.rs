//! Finding the information files of a ROM read directly from its file: the
//! content archives among its entries, and the control data and icon among
//! the files of its control archive.
use vstd::prelude::*;
use vstd::utf8::*;
use crate::text::{chars_eq, chars_of, split_on, str_eq, utf8_to_string};
use crate::remote::range::split_first_two;
use std::string::FromUtf8Error;

verus! {

/// The extension `Path::extension` gives for a file name.
pub uninterp spec fn path_extension(name: Seq<char>) -> Option<Seq<char>>;

/// Calls `Path::new(name).extension()`, converted to a `String`. The
/// extension of a path depends on the path alone; what it is (the text after
/// the last `.` of the last component, with the exceptions the standard
/// library lists) is left to that function and named `path_extension`.
#[verifier::external_body]
fn extension_of(name: &str) -> (r: Option<String>)
    ensures
        match r {
            Some(e) => path_extension(name@) == Some(e@),
            None => path_extension(name@) is None,
        },
{
    std::path::Path::new(name).extension().map(|e| e.to_string_lossy().to_string())
}

/// Whether an entry of a ROM's partition is a content archive: the part of
/// its name after the first `.` and before any second one is `nca`.
pub fn is_nca_entry(name: &str) -> (r: bool)
    requires
        name@.contains('.'),
    ensures
        r == (split_on(name@, '.')[1] == "nca"@),
{
    let chars = chars_of(name);
    let (_, second) = split_first_two(&chars, '.');
    let nca = chars_of("nca");
    match second {
        Some(p) => chars_eq(&p, &nca),
        None => {
            assert(false) by {
                let i = choose|i: int| 0 <= i < name@.len() && name@[i] == '.';
                assert(crate::text::occurs_before(name@, '.', i + 1));
                crate::text::lemma_first_index_exists(name@, '.');
            }
            false
        },
    }
}

/// Why the information files of a ROM cannot be found.
#[derive(Debug)]
pub enum InfoFilesError {
    /// The name of a file of the control archive is not UTF-8.
    DecodingError(FromUtf8Error),
    /// A file of the control archive has no extension; its name is given.
    NoExtension(String),
    /// No control data was found.
    NacpNotFound,
}

/// What to do with a file of the control archive.
#[derive(Debug, Clone, Copy, PartialEq, Eq, Structural)]
pub enum InfoFileAction {
    /// Read the file's bytes as the icon, then call `texture_read`.
    ReadTexture,
    /// Read the file as control data, then call `nacp_read`.
    ReadNacp,
    /// Nothing.
    Skip,
}

/// Goes through the content archives of a ROM to find its control data, its
/// icon and its content metadata.
pub struct InfoFilesScan {
    pub nacp_found: bool,
    pub texture_found: bool,
    pub meta_found: bool,
}

impl InfoFilesScan {
    pub fn new() -> (r: Self)
        ensures
            !r.nacp_found && !r.texture_found && !r.meta_found,
    {
        InfoFilesScan { nacp_found: false, texture_found: false, meta_found: false }
    }

    /// What to do with a file of the control archive named by `raw_name`:
    /// the first `dat` file is the icon and the first `nacp` file the control
    /// data; a name that is not UTF-8 or has no extension stops the search.
    pub fn control_file(&self, raw_name: Vec<u8>) -> (r: Result<InfoFileAction, InfoFilesError>)
        ensures
            (r matches Err(InfoFilesError::DecodingError(_))) <==> !valid_utf8(raw_name@),
            valid_utf8(raw_name@) ==> ({
                let name = decode_utf8(raw_name@);
                match path_extension(name) {
                    None => r matches Err(InfoFilesError::NoExtension(n)) && n@ == name,
                    Some(e) => r == Ok::<InfoFileAction, InfoFilesError>(
                        if e == "dat"@ && !self.texture_found {
                            InfoFileAction::ReadTexture
                        } else if e == "nacp"@ && !self.nacp_found {
                            InfoFileAction::ReadNacp
                        } else {
                            InfoFileAction::Skip
                        },
                    ),
                }
            }),
    {
        let name = match utf8_to_string(raw_name) {
            Ok(n) => n,
            Err(e) => {
                return Err(InfoFilesError::DecodingError(e));
            },
        };
        let ext = match extension_of(name.as_str()) {
            Some(e) => e,
            None => {
                return Err(InfoFilesError::NoExtension(name));
            },
        };
        if str_eq(ext.as_str(), "dat") && !self.texture_found {
            return Ok(InfoFileAction::ReadTexture);
        }
        if str_eq(ext.as_str(), "nacp") && !self.nacp_found {
            return Ok(InfoFileAction::ReadNacp);
        }
        Ok(InfoFileAction::Skip)
    }

    pub fn texture_read(&mut self)
        ensures
            final(self).texture_found,
            final(self).nacp_found == old(self).nacp_found,
            final(self).meta_found == old(self).meta_found,
    {
        self.texture_found = true;
    }

    pub fn nacp_read(&mut self)
        ensures
            final(self).nacp_found,
            final(self).texture_found == old(self).texture_found,
            final(self).meta_found == old(self).meta_found,
    {
        self.nacp_found = true;
    }

    pub fn meta_read(&mut self)
        ensures
            final(self).meta_found,
            final(self).texture_found == old(self).texture_found,
            final(self).nacp_found == old(self).nacp_found,
    {
        self.meta_found = true;
    }

    /// Whether the search can stop: control data and metadata were found.
    pub fn done(&self) -> (r: bool)
        ensures
            r == (self.nacp_found && self.meta_found),
    {
        self.nacp_found && self.meta_found
    }

    /// The end of the search: no control data is an error. Control data
    /// without metadata leaves the ROM without a type, on which the search
    /// fails, and is left out.
    pub fn finish(&self) -> (r: Result<(), InfoFilesError>)
        requires
            self.nacp_found ==> self.meta_found,
        ensures
            r is Ok <==> self.nacp_found,
            r is Err ==> (r matches Err(InfoFilesError::NacpNotFound)),
    {
        if !self.nacp_found {
            return Err(InfoFilesError::NacpNotFound);
        }
        Ok(())
    }
}

} // verus!
