//! The media type of an attached file, guessed from its name.

use vstd::prelude::*;

use crate::text;

verus! {

/// The media type that `mime_guess` knows for a file name's extension.
pub uninterp spec fn guessed_mime(name: Seq<char>) -> Seq<char>;

/// Whether a file name reads the same on every platform: none of the
/// characters that some platforms take for a separator or a drive.
pub open spec fn portable(name: Seq<char>) -> bool {
    !name.contains('/') && !name.contains('\\') && !name.contains(':')
}

/// `mime_guess::from_path` looks at the extension of the name alone, and
/// `first_or_octet_stream` falls back to `application/octet-stream` where
/// there is no extension or none that it knows. Where a name holds a slash,
/// a backslash or a colon beside a dot, what its extension is depends on the
/// platform, and nothing is claimed of the result.
#[verifier::external_body]
pub(crate) fn guess_mime(filename: &str) -> (r: String)
    ensures
        portable(filename@) ==> r@ == guessed_mime(filename@),
        !filename@.contains('.') ==> r@ == "application/octet-stream"@,
{
    mime_guess::from_path(filename).first_or_octet_stream().to_string()
}

/// Whether the media type is that of an image.
pub open spec fn image_mime(mime: Seq<char>) -> bool {
    text::starts(mime, "image/"@)
}

/// Whether the media type is that of an image.
pub fn is_image(mime: &str) -> (r: bool)
    ensures
        r == image_mime(mime@),
{
    text::starts_with(mime, "image/")
}

} // verus!
