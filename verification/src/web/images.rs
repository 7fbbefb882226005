//! Which file an image request reads, and the type of its content.
use vstd::prelude::*;

use crate::domain::state::{AppStateInner, first_image_with_id};
use crate::paths::{PathPart, is_absolute_path, joined_path, parts_of, path_is_absolute, path_join, path_parts};
use vstd::utf8::{decode_utf8, encode_utf8, valid_utf8};

verus! {

/// The value of a hexadecimal digit byte.
pub open spec fn hex_value(b: u8) -> Option<u8> {
    if 48 <= b <= 57 {
        Some((b - 48) as u8)
    } else if 65 <= b <= 70 {
        Some((b - 55) as u8)
    } else if 97 <= b <= 102 {
        Some((b - 87) as u8)
    } else {
        None
    }
}

/// Percent-decoding of bytes: `%` and two hexadecimal digits become the byte
/// they spell; every other byte, a `%` without two digits after it included,
/// stays as it is.
pub open spec fn percent_decoded(b: Seq<u8>) -> Seq<u8>
    decreases b.len(),
{
    if b.len() == 0 {
        Seq::empty()
    } else if b[0] == 37 && b.len() >= 3 && hex_value(b[1]) is Some && hex_value(b[2]) is Some {
        seq![(hex_value(b[1])->0 * 16 + hex_value(b[2])->0) as u8] + percent_decoded(b.skip(3))
    } else {
        seq![b[0]] + percent_decoded(b.skip(1))
    }
}

/// `urlencoding::decode`: percent-decodes the UTF-8 bytes of the text, and
/// fails when the bytes it gets are not UTF-8.
#[verifier::external_body]
fn url_decode(s: &str) -> (res: Option<String>)
    ensures
        match res {
            Some(t) => valid_utf8(percent_decoded(encode_utf8(s@))) && t@ == decode_utf8(
                percent_decoded(encode_utf8(s@)),
            ),
            None => !valid_utf8(percent_decoded(encode_utf8(s@))),
        },
{
    match urlencoding::decode(s) {
        Ok(text) => Some(text.into_owned()),
        Err(_) => None,
    }
}

/// What `mime_guess` gives for a path: the first MIME type it knows for the
/// path's extension, `application/octet-stream` when it knows none.
pub uninterp spec fn guessed_mime(path: Seq<char>) -> Seq<char>;

/// `MimeGuess::from_path(..).first_or_octet_stream()`, as text; the contract
/// names the result.
#[verifier::external_body]
fn mime_type_for(path: &str) -> (res: String)
    ensures
        res@ == guessed_mime(path@),
{
    mime_guess::MimeGuess::from_path(path).first_or_octet_stream().as_ref().to_string()
}

/// A path with a component that leaves the directory it is taken from: `..`,
/// the root, or a prefix.
pub open spec fn leaves_base(parts: Seq<PathPart>) -> bool {
    exists|i: int| 0 <= i < parts.len() && (parts[i] == PathPart::Parent || parts[i] == PathPart::Root
        || parts[i] == PathPart::Prefix)
}

fn escapes(p: &str) -> (res: bool)
    ensures
        res == leaves_base(parts_of(p@)),
{
    let parts = path_parts(p);
    let mut i: usize = 0;
    while i < parts.len()
        invariant
            i <= parts.len(),
            parts@ == parts_of(p@),
            forall|k: int| 0 <= k < i ==> !(parts@[k] == PathPart::Parent || parts@[k] == PathPart::Root
                || parts@[k] == PathPart::Prefix),
        decreases parts.len() - i,
    {
        let part = parts[i];
        if part == PathPart::Parent || part == PathPart::Root || part == PathPart::Prefix {
            return true;
        }
        i = i + 1;
    }
    false
}

/// A file to send for an image and the type of its content.
#[derive(Clone, Debug)]
pub struct ImageFile {
    pub path: String,
    pub content_type: String,
}

/// What a request for an image by its path comes to.
#[derive(Clone, Debug)]
pub enum ImageRequest {
    /// The path is not UTF-8 once decoded, is absolute, or leaves the root.
    BadRequest,
    /// No root is set.
    NotFound,
    File(ImageFile),
}

/// The file an image request names by its URL-encoded path relative to the
/// root. Paths that could reach outside the root are refused.
pub fn image_by_rel_path(root_dir: &Option<String>, rel: &str) -> (res: ImageRequest)
    ensures
        ({
            let bytes = percent_decoded(encode_utf8(rel@));
            let decoded = decode_utf8(bytes);
            let refused = !valid_utf8(bytes) || is_absolute_path(decoded) || leaves_base(parts_of(decoded));
            match res {
                ImageRequest::BadRequest => refused,
                ImageRequest::NotFound => !refused && root_dir is None,
                ImageRequest::File(file) => {
                    &&& !refused
                    &&& root_dir matches Some(root)
                    &&& file.path@ == joined_path(root@, decoded)
                    &&& file.content_type@ == guessed_mime(file.path@)
                },
            }
        }),
{
    let decoded = match url_decode(rel) {
        Some(text) => text,
        None => return ImageRequest::BadRequest,
    };
    if path_is_absolute(decoded.as_str()) || escapes(decoded.as_str()) {
        return ImageRequest::BadRequest;
    }
    match root_dir {
        Some(root) => {
            let path = path_join(root.as_str(), decoded.as_str());
            let content_type = mime_type_for(path.as_str());
            ImageRequest::File(ImageFile { path, content_type })
        },
        None => ImageRequest::NotFound,
    }
}

/// The file of the image with the given id, if the session lists one.
pub fn image_by_id(state: &AppStateInner, image_id: u64) -> (res: Option<ImageFile>)
    ensures
        match first_image_with_id(state@.images, image_id, 0) {
            Some(j) => {
                &&& res matches Some(file)
                &&& file.path == state@.images[j].path
                &&& file.content_type@ == guessed_mime(file.path@)
            },
            None => res is None,
        },
{
    match state.first_image_with_id(image_id) {
        Some(j) => {
            let path = state.images[j].path.clone();
            let content_type = mime_type_for(path.as_str());
            Some(ImageFile { path, content_type })
        },
        None => None,
    }
}

} // verus!
