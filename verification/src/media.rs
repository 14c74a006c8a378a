use vstd::prelude::*;
use vstd::string::*;
use crate::error::ImgToTerminalError;

verus! {

/// What `Path::extension` finds in `path`, as text: the part of the final
/// file name after its last `.`, if the name has one that does not start it.
pub uninterp spec fn path_extension(path: Seq<char>) -> Option<Seq<char>>;

/// A path that is a single file name: not empty, without separators, and not
/// made of dots alone (so neither `.` nor `..`).
pub open spec fn plain_file_name(path: Seq<char>) -> bool {
    &&& path.len() > 0
    &&& forall|i: int| 0 <= i < path.len() ==> path[i] != '/' && path[i] != '\\'
    &&& exists|i: int| 0 <= i < path.len() && path[i] != '.'
}

/// The index of the last `.` in `s`, or -1 when there is none.
pub open spec fn last_dot(s: Seq<char>) -> int
    decreases s.len(),
{
    if s.len() == 0 {
        -1
    } else if s.last() == '.' {
        s.len() - 1
    } else {
        last_dot(s.drop_last())
    }
}

/// The extension of the file name `name` as `Path::extension` documents it:
/// none when the name has no `.`, or only a leading one; otherwise the text
/// after the last `.`.
pub open spec fn name_extension(name: Seq<char>) -> Option<Seq<char>> {
    let i = last_dot(name);
    if i <= 0 {
        None
    } else {
        Some(name.subrange(i + 1, name.len() as int))
    }
}

/// Calls `std::path::Path::extension` on `path`, with the extension converted
/// back to `&str` (it is a piece of `path`, so always valid UTF-8). Its result
/// is named: it depends on `path` alone. For a path that is a single file
/// name, the result is what the documentation of `Path::extension` gives:
/// nothing for a name without a `.` or with only a leading one, otherwise the
/// text after the last `.`.
#[verifier::external_body]
fn extension_of<'a>(path: &'a str) -> (r: Option<&'a str>)
    ensures
        match r {
            Some(e) => path_extension(path@) == Some(e@),
            None => path_extension(path@) is None,
        },
        plain_file_name(path@) ==> match r {
            Some(e) => name_extension(path@) == Some(e@),
            None => name_extension(path@) is None,
        },
{
    let ext = match std::path::Path::new(path).extension() {
        Some(ext) => ext,
        None => return None,
    };
    ext.to_str()
}

/// `c` with an ASCII capital letter turned into the small one.
pub open spec fn ascii_lower_char(c: char) -> char {
    if 'A' <= c && c <= 'Z' {
        ((c as u32) + 32) as char
    } else {
        c
    }
}

/// `s` with every ASCII capital letter turned into the small one.
pub open spec fn ascii_lower(s: Seq<char>) -> Seq<char> {
    s.map_values(|c: char| ascii_lower_char(c))
}

fn lower_char(c: char) -> (r: char)
    ensures
        r == ascii_lower_char(c),
{
    if 'A' <= c && c <= 'Z' {
        ((c as u8) + 32) as char
    } else {
        c
    }
}

/// `s` with its ASCII letters in lower case, as `str::to_ascii_lowercase` gives it.
pub fn to_ascii_lowercase(s: &str) -> (r: String)
    ensures
        r@ == ascii_lower(s@),
{
    broadcast use vstd::string::group_string_axioms;
    let mut out = String::new();
    for c in it: s.chars()
        invariant
            it.seq() == s@,
            out@ == ascii_lower(it.seq().take(it.index() as int)),
    {
        proof {
            let done = it.seq().take(it.index() as int);
            assert(it.seq().take(it.index() + 1) =~= done.push(c));
            assert(ascii_lower(done.push(c)) =~= ascii_lower(done).push(ascii_lower_char(c)));
        }
        out.push(lower_char(c));
    }
    out
}

/// `a` and `b` hold the same characters.
fn same_text(a: &str, b: &str) -> (r: bool)
    ensures
        r == (a@ == b@),
{
    let n: usize = a.unicode_len();
    if n != b.unicode_len() {
        return false;
    }
    let mut i: usize = 0;
    while i < n
        invariant
            n == a@.len(),
            n == b@.len(),
            i <= n,
            forall|j: int| 0 <= j < i ==> a@[j] == b@[j],
        decreases n - i,
    {
        if a.get_char(i) != b.get_char(i) {
            return false;
        }
        i = i + 1;
    }
    assert(a@ =~= b@);
    true
}

/// The extensions, in lower case, that are loaded as videos.
pub open spec fn is_video_ext(e: Seq<char>) -> bool {
    ||| e == "mp4"@
    ||| e == "mov"@
    ||| e == "avi"@
    ||| e == "webm"@
    ||| e == "mkv"@
    ||| e == "m4v"@
}

/// The extensions, in lower case, that are loaded as still images.
pub open spec fn is_image_ext(e: Seq<char>) -> bool {
    ||| e == "png"@
    ||| e == "jpg"@
    ||| e == "jpeg"@
    ||| e == "bmp"@
    ||| e == "gif"@
    ||| e == "webp"@
}

/// The extension of `path` in lower case, if it has one.
pub open spec fn spec_ext_lower(path: Seq<char>) -> Option<Seq<char>> {
    match path_extension(path) {
        Some(e) => Some(ascii_lower(e)),
        None => None,
    }
}

/// The path names a video: its lower-case extension is a video extension.
pub open spec fn spec_is_video_file(path: Seq<char>) -> bool {
    spec_ext_lower(path) matches Some(e) && is_video_ext(e)
}

/// The path names a still image: its lower-case extension is an image extension.
pub open spec fn spec_is_image_file(path: Seq<char>) -> bool {
    spec_ext_lower(path) matches Some(e) && is_image_ext(e)
}

/// The extension of `path`, in lower case.
pub fn ext_lower(path: &str) -> (r: Option<String>)
    ensures
        plain_file_name(path@) ==> path_extension(path@) == name_extension(path@),
        match r {
            Some(s) => spec_ext_lower(path@) == Some(s@),
            None => spec_ext_lower(path@) is None,
        },
{
    match extension_of(path) {
        Some(ext) => Some(to_ascii_lowercase(ext)),
        None => None,
    }
}

/// `e` is one of the video extensions.
pub fn is_video_extension(e: &str) -> (r: bool)
    ensures
        r == is_video_ext(e@),
{
    same_text(e, "mp4") || same_text(e, "mov") || same_text(e, "avi") || same_text(e, "webm")
        || same_text(e, "mkv") || same_text(e, "m4v")
}

/// `e` is one of the still-image extensions.
pub fn is_image_extension(e: &str) -> (r: bool)
    ensures
        r == is_image_ext(e@),
{
    same_text(e, "png") || same_text(e, "jpg") || same_text(e, "jpeg") || same_text(e, "bmp")
        || same_text(e, "gif") || same_text(e, "webp")
}

/// The path has a video extension, in any letter case.
pub fn is_video_file(path: &str) -> (r: bool)
    ensures
        plain_file_name(path@) ==> path_extension(path@) == name_extension(path@),
        r == spec_is_video_file(path@),
{
    match ext_lower(path) {
        Some(e) => is_video_extension(e.as_str()),
        None => false,
    }
}

/// The path has a still-image extension, in any letter case.
pub fn is_image_file(path: &str) -> (r: bool)
    ensures
        plain_file_name(path@) ==> path_extension(path@) == name_extension(path@),
        r == spec_is_image_file(path@),
{
    match ext_lower(path) {
        Some(e) => is_image_extension(e.as_str()),
        None => false,
    }
}

/// What `detect_file_type` answers for `path`.
pub open spec fn detect_file_type_ok(path: Seq<char>) -> bool {
    spec_is_video_file(path) || spec_is_image_file(path)
}

/// The text of the unknown-format error for `path` (which is not supported):
/// its lower-case extension, or a note that it has none.
pub open spec fn unknown_format_text(path: Seq<char>) -> Seq<char> {
    match spec_ext_lower(path) {
        Some(e) => e,
        None => "(nessuna estensione)"@,
    }
}

/// Accepts a path whose extension names a supported video or image format.
pub fn detect_file_type(path: &str) -> (r: Result<(), ImgToTerminalError>)
    ensures
        plain_file_name(path@) ==> path_extension(path@) == name_extension(path@),
        r is Ok <==> detect_file_type_ok(path@),
        r is Err ==> (r matches Err(ImgToTerminalError::UnknownFormat(s)) && s@
            == unknown_format_text(path@)),
{
    match ext_lower(path) {
        Some(ext) => {
            if is_video_file(path) || is_image_file(path) {
                Ok(())
            } else {
                Err(ImgToTerminalError::UnknownFormat(ext))
            }
        },
        None => Err(ImgToTerminalError::UnknownFormat(String::from_str("(nessuna estensione)"))),
    }
}

/// How a supported file is loaded.
#[derive(Debug, Clone, Copy, PartialEq, Eq, Structural)]
pub enum MediaKind {
    Video,
    Image,
}

/// The loader for `path`: a video when it has a video extension, a still
/// image otherwise; an unknown-format error when it is neither.
pub fn media_kind(path: &str) -> (r: Result<MediaKind, ImgToTerminalError>)
    ensures
        plain_file_name(path@) ==> path_extension(path@) == name_extension(path@),
        match r {
            Ok(k) => detect_file_type_ok(path@) && (k == MediaKind::Video <==> spec_is_video_file(
                path@,
            )),
            Err(e) => !detect_file_type_ok(path@) && (e matches ImgToTerminalError::UnknownFormat(s)
                && s@ == unknown_format_text(path@)),
        },
{
    detect_file_type(path)?;
    if is_video_file(path) {
        Ok(MediaKind::Video)
    } else {
        Ok(MediaKind::Image)
    }
}

/// No extension is both a video and an image extension, so every supported
/// path has exactly one loader.
pub proof fn lemma_video_image_disjoint(e: Seq<char>)
    ensures
        !(is_video_ext(e) && is_image_ext(e)),
{
    reveal_strlit("mp4");
    reveal_strlit("mov");
    reveal_strlit("avi");
    reveal_strlit("webm");
    reveal_strlit("mkv");
    reveal_strlit("m4v");
    reveal_strlit("png");
    reveal_strlit("jpg");
    reveal_strlit("jpeg");
    reveal_strlit("bmp");
    reveal_strlit("gif");
    reveal_strlit("webp");
    if is_video_ext(e) {
        assert(e.len() >= 3 && (e[0] == 'm' || e[0] == 'a' || (e[0] == 'w' && e.len() == 4 && e[3]
            == 'm')));
    }
    if is_image_ext(e) {
        assert(e.len() >= 3 && (e[0] == 'p' || e[0] == 'j' || e[0] == 'b' || e[0] == 'g' || (e[0]
            == 'w' && e.len() == 4 && e[3] == 'p')));
    }
}

/// Lowering ASCII letters twice changes nothing more: the lower-case extension
/// is already in the form the format tables are written in.
pub proof fn lemma_ascii_lower_idempotent(s: Seq<char>)
    ensures
        ascii_lower(ascii_lower(s)) == ascii_lower(s),
{
    assert(ascii_lower(ascii_lower(s)) =~= ascii_lower(s));
}

/// Two paths whose extensions differ only in ASCII letter case are
/// classified alike.
pub proof fn lemma_classification_ignores_case(p: Seq<char>, q: Seq<char>)
    requires
        path_extension(p) matches Some(e) && path_extension(q) matches Some(f) && ascii_lower(e)
            == ascii_lower(f),
    ensures
        spec_is_video_file(p) == spec_is_video_file(q),
        spec_is_image_file(p) == spec_is_image_file(q),
        detect_file_type_ok(p) == detect_file_type_ok(q),
{
}

/// Lowering leaves no ASCII capital letter, changes nothing but capital
/// letters, and forgets case: a text with its small letters made capital
/// lowers to the same text.
pub proof fn lemma_lowering_forgets_case(e: Seq<char>)
    ensures
        ascii_lower(e).len() == e.len(),
        forall|i: int| 0 <= i < e.len() ==> !('A' <= #[trigger] ascii_lower(e)[i] && ascii_lower(e)[i] <= 'Z'),
        forall|i: int| 0 <= i < e.len() && !('A' <= #[trigger] e[i] && e[i] <= 'Z') ==> ascii_lower(e)[i] == e[i],
        ascii_lower(e.map_values(|c: char| if 'a' <= c && c <= 'z' {
            ((c as u32) - 32) as char
        } else {
            c
        })) == ascii_lower(e),
{
    let up = e.map_values(|c: char| if 'a' <= c && c <= 'z' {
        ((c as u32) - 32) as char
    } else {
        c
    });
    assert forall|i: int| 0 <= i < e.len() implies ascii_lower(up)[i] == ascii_lower(e)[i] by {
        let c = e[i];
        if 'a' <= c && c <= 'z' {
            assert(up[i] == ((c as u32) - 32) as char);
        }
    }
    assert(ascii_lower(up) =~= ascii_lower(e));
}

/// Whether an extension names a video or an image does not depend on the
/// case of its letters.
pub proof fn lemma_formats_ignore_case(e: Seq<char>)
    ensures
        ({
            let up = e.map_values(|c: char| if 'a' <= c && c <= 'z' {
                ((c as u32) - 32) as char
            } else {
                c
            });
            &&& is_video_ext(ascii_lower(up)) == is_video_ext(ascii_lower(e))
            &&& is_image_ext(ascii_lower(up)) == is_image_ext(ascii_lower(e))
        }),
{
    lemma_lowering_forgets_case(e);
}

} // verus!
