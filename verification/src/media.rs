//! Media classification and content preparation: guessing a MIME type from a
//! file name, reducing it to a coarse media category, and escaping file
//! content for inline HTML display.

use vstd::prelude::*;

use crate::strutil::starts_with;
use crate::strutil::str_starts_with;

verus! {

/// The coarse media category of a file, derived from its guessed MIME type;
/// it drives how a presentation layer renders the content.
#[derive(PartialEq, Eq, Structural, Clone, Copy, Debug)]
pub enum MediaType {
    TEXT,
    IMAGE,
    AUDIO,
    VIDEO,
    OTHER,
}

/// The category a MIME type string reduces to: decided by its type part,
/// the part before the first `/`.
pub open spec fn mime_media_type(m: Seq<char>) -> MediaType {
    if starts_with(m, "text/"@) {
        MediaType::TEXT
    } else if starts_with(m, "image/"@) {
        MediaType::IMAGE
    } else if starts_with(m, "audio/"@) {
        MediaType::AUDIO
    } else if starts_with(m, "video/"@) {
        MediaType::VIDEO
    } else {
        MediaType::OTHER
    }
}

/// What `mime_guess` answers for a file name: the first MIME type its static
/// extension table maps the name's extension to, or nothing when the name has
/// no extension or an unknown one. A function of the name alone.
pub uninterp spec fn mime_guess_of(name: Seq<char>) -> Option<Seq<char>>;

/// Relies on `mime_guess::from_path(..).first_raw()`: a lookup of the file
/// name's extension in a static table, depending on the name alone and
/// performing no disk access.
#[verifier::external_body]
fn guess_mime_type(name: &str) -> (r: Option<String>)
    ensures
        r is Some <==> mime_guess_of(name@) is Some,
        r matches Some(m) ==> mime_guess_of(name@) == Some(m@),
{
    mime_guess::from_path(name).first_raw().map(|s: &str| s.to_string())
}

/// The category of a guessed MIME type, with the generic byte-stream
/// category for a name whose type could not be guessed.
pub open spec fn classified(guess: Option<Seq<char>>) -> MediaType {
    match guess {
        Some(m) => mime_media_type(m),
        None => MediaType::OTHER,
    }
}

impl MediaType {
    /// Reduces a MIME type string to its coarse category.
    pub fn from_mime(mime_type: &str) -> (r: MediaType)
        ensures
            r == mime_media_type(mime_type@),
    {
        if str_starts_with(mime_type, "text/") {
            MediaType::TEXT
        } else if str_starts_with(mime_type, "image/") {
            MediaType::IMAGE
        } else if str_starts_with(mime_type, "audio/") {
            MediaType::AUDIO
        } else if str_starts_with(mime_type, "video/") {
            MediaType::VIDEO
        } else {
            MediaType::OTHER
        }
    }

    /// The coarse media category of a file name: its guessed MIME type's
    /// category, or the generic byte-stream category when no type can be
    /// guessed from the name's extension.
    pub fn from_file_name(name: &str) -> (r: MediaType)
        ensures
            r == classified(mime_guess_of(name@)),
    {
        match guess_mime_type(name) {
            Some(m) => Self::from_mime(m.as_str()),
            None => MediaType::OTHER,
        }
    }
}

/// The MIME type to declare for a file's raw content: the guessed type of its
/// name, or `text/plain` when none can be guessed.
pub fn guessed_mime_or_plain(name: &str) -> (r: String)
    ensures
        mime_guess_of(name@) matches Some(m) ==> r@ == m,
        mime_guess_of(name@) is None ==> r@ == "text/plain"@,
{
    match guess_mime_type(name) {
        Some(m) => m,
        None => {
            let plain = "text/plain";
            plain.to_owned()
        },
    }
}

/// How one character of file content reads once escaped for inline HTML
/// display: the three markup characters become entities, every other
/// character stands unchanged.
pub open spec fn escape_char(c: char) -> Seq<char> {
    if c == '<' {
        "&lt;"@
    } else if c == '>' {
        "&gt;"@
    } else if c == '&' {
        "&amp;"@
    } else {
        seq![c]
    }
}

/// A character sequence escaped for inline HTML display.
pub open spec fn escaped(s: Seq<char>) -> Seq<char>
    decreases s.len(),
{
    if s.len() == 0 {
        Seq::empty()
    } else {
        escaped(s.drop_last()) + escape_char(s.last())
    }
}

/// Escapes file content for inline HTML display, replacing `<`, `>` and `&`
/// by their entities.
pub fn escape_html_content(content: &str) -> (r: String)
    ensures
        r@ == escaped(content@),
{
    let n = content.unicode_len();
    let mut out = String::new();
    let mut i: usize = 0;
    proof {
        assert(content@.subrange(0, 0) =~= Seq::<char>::empty());
    }
    while i < n
        invariant
            i <= n == content@.len(),
            out@ == escaped(content@.subrange(0, i as int)),
        decreases n - i,
    {
        let c = content.get_char(i);
        if c == '<' {
            out.append("&lt;");
        } else if c == '>' {
            out.append("&gt;");
        } else if c == '&' {
            out.append("&amp;");
        } else {
            let piece = content.substring_char(i, i + 1);
            proof {
                assert(piece@ =~= seq![content@[i as int]]);
            }
            out.append(piece);
        }
        proof {
            let done = content@.subrange(0, i + 1);
            assert(done.drop_last() =~= content@.subrange(0, i as int));
            assert(done.last() == content@[i as int]);
        }
        i += 1;
    }
    proof {
        assert(content@.subrange(0, n as int) =~= content@);
    }
    out
}

} // verus!
