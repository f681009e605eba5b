//! File creation rules.
//!
//! A file must carry substance — binary content or an external link —
//! and its stored type is guessed from its name's extension.

use vstd::prelude::*;
use crate::clock::now_timestamp;
use crate::errors::DomainError;
use crate::models::{clone_bytes, opt_strslice_view, NewFile};

verus! {

/// The media type `mime_guess` derives from a file name's extension;
/// a function of the name alone.
pub uninterp spec fn mime_of(name: Seq<char>) -> Seq<char>;

/// Relies on `mime_guess::MimeGuess::from_path` with
/// `first_or_octet_stream` and `Mime::essence_str`: the guess reads only
/// the name's extension against a built-in table, so the result is a
/// function of the name alone.
#[verifier::external_body]
fn guess_mime_type(name: &str) -> (r: String)
    ensures
        r@ == mime_of(name@),
{
    mime_guess::MimeGuess::from_path(name).first_or_octet_stream().essence_str().to_string()
}

/// Whether a file request carries substance: an external link, or
/// non-empty binary content.
pub open spec fn file_has_substance(content: Option<Seq<u8>>, link: Option<Seq<char>>) -> bool {
    link is Some || (content matches Some(c) && c.len() > 0)
}

/// The view of optional borrowed content.
pub open spec fn opt_bytes_view(o: Option<&Vec<u8>>) -> Option<Seq<u8>> {
    match o {
        Some(v) => Some(v@),
        None => None,
    }
}

/// Validates and assembles a file ready for insertion: refused when
/// neither content nor a link is given; the stored type is guessed from
/// the name. The creation timestamp is read from the wall clock.
pub fn prepare_new_file(
    name: &str,
    content: Option<&Vec<u8>>,
    link: Option<&str>,
    folder_id: i32,
    is_favorite: bool,
) -> (r: Result<NewFile, DomainError>)
    ensures
        r is Ok <==> file_has_substance(opt_bytes_view(content), opt_strslice_view(link)),
        r matches Err(e) ==> e == DomainError::MissingFileContent,
        r matches Ok(f) ==> {
            &&& f@.name == name@
            &&& f@.is_favorite == is_favorite
            &&& f@.file_type == mime_of(name@)
            &&& f@.link == opt_strslice_view(link)
            &&& f@.content == match opt_bytes_view(content) {
                Some(c) => c,
                None => Seq::<u8>::empty(),
            }
            &&& f@.folder_id == folder_id
            &&& f@.updated_at is None
        },
{
    let is_link = link.is_some();
    let is_file = match content {
        Some(c) => c.len() > 0,
        None => false,
    };
    if !is_link && !is_file {
        return Err(DomainError::MissingFileContent);
    }
    let mime_type = guess_mime_type(name);
    let stored_content = match content {
        Some(c) => clone_bytes(c),
        None => Vec::new(),
    };
    Ok(
        NewFile {
            name: name.to_owned(),
            is_favorite,
            file_type: mime_type,
            link: match link {
                Some(s) => Some(s.to_owned()),
                None => None,
            },
            content: stored_content,
            folder_id,
            created_at: now_timestamp(),
            updated_at: None,
        },
    )
}

} // verus!
