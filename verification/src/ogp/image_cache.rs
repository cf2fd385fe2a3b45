//! Local copies of Open Graph images: their file names and the size limit.

use vstd::prelude::*;

use crate::digest::{hex_lower, sha256, sha256_hex};
use crate::text::{lowercase, str_eq, to_lowercase};
use vstd::utf8::encode_utf8;

verus! {

/// The largest image, in bytes, that is kept: 2 MiB.
pub const MAX_IMAGE_SIZE: u64 = 2097152;

/// Whether an image of `size` bytes is kept.
pub fn accepts_image_size(size: u64) -> (r: bool)
    ensures
        r == (size <= MAX_IMAGE_SIZE),
{
    size <= MAX_IMAGE_SIZE
}

/// The position of the first `c` in `s`, or its length where there is none.
pub open spec fn first_pos(s: Seq<char>, c: char) -> int
    decreases s.len(),
{
    if s.len() == 0 {
        0
    } else if s[0] == c {
        0
    } else {
        1 + first_pos(s.drop_first(), c)
    }
}

/// The position of the last `c` in `s`, or -1 where there is none.
pub open spec fn last_pos(s: Seq<char>, c: char) -> int
    decreases s.len(),
{
    if s.len() == 0 {
        -1
    } else if s.last() == c {
        s.len() - 1
    } else {
        last_pos(s.drop_last(), c)
    }
}

/// `k` is where `first_pos` finds `c`.
pub proof fn lemma_first_pos(s: Seq<char>, c: char, k: int)
    requires
        0 <= k <= s.len(),
        forall|j: int| 0 <= j < k ==> s[j] != c,
        k < s.len() ==> s[k] == c,
    ensures
        first_pos(s, c) == k,
    decreases k,
{
    if k > 0 {
        lemma_first_pos(s.drop_first(), c, k - 1);
    }
}

/// `k` is where `last_pos` finds `c`.
pub proof fn lemma_last_pos(s: Seq<char>, c: char, k: int)
    requires
        -1 <= k < s.len(),
        forall|j: int| k < j < s.len() ==> s[j] != c,
        k >= 0 ==> s[k] == c,
    ensures
        last_pos(s, c) == k,
    decreases s.len(),
{
    if s.len() > 0 && k < s.len() - 1 {
        lemma_last_pos(s.drop_last(), c, k);
    }
}

/// The path of an address: what comes before its first `?`.
pub open spec fn url_path(url: Seq<char>) -> Seq<char> {
    url.take(first_pos(url, '?'))
}

/// The last segment of a path: what comes after its last `/`.
pub open spec fn last_segment(path: Seq<char>) -> Seq<char> {
    path.skip(last_pos(path, '/') + 1)
}

/// The extension of a file name: what comes after its last `.` (the whole
/// name where there is none).
pub open spec fn name_extension(name: Seq<char>) -> Seq<char> {
    name.skip(last_pos(name, '.') + 1)
}

/// An image extension that is kept, in lowercase.
pub open spec fn is_image_extension(ext: Seq<char>) -> bool {
    ext == "jpg"@ || ext == "jpeg"@ || ext == "png"@ || ext == "gif"@ || ext == "webp"@ || ext
        == "svg"@ || ext == "avif"@
}

/// The extension of the image at `url`, as written there, where its lowercase
/// form is that of a kept image type.
pub open spec fn image_extension(url: Seq<char>) -> Option<Seq<char>> {
    let ext = name_extension(last_segment(url_path(url)));
    if is_image_extension(lowercase(ext)) {
        Some(ext)
    } else {
        None
    }
}

/// Whether `ext` (in lowercase) is a kept image extension.
pub fn is_image_ext(ext: &str) -> (r: bool)
    ensures
        r == is_image_extension(ext@),
{
    str_eq(ext, "jpg") || str_eq(ext, "jpeg") || str_eq(ext, "png") || str_eq(ext, "gif") || str_eq(
        ext,
        "webp",
    ) || str_eq(ext, "svg") || str_eq(ext, "avif")
}

/// The position of the first `c` in `s`, or its length.
pub fn find_first(s: &str, c: char) -> (k: usize)
    ensures
        k == first_pos(s@, c),
        k <= s@.len(),
{
    let cs = crate::text::chars_of(s);
    let mut k: usize = 0;
    while k < cs.len() && cs[k] != c
        invariant
            cs@ == s@,
            k <= cs.len(),
            forall|j: int| 0 <= j < k ==> cs@[j] != c,
        decreases cs.len() - k,
    {
        k = k + 1;
    }
    proof {
        lemma_first_pos(s@, c, k as int);
    }
    k
}

/// Where the text after the last `c` of `s` starts (0 where there is none).
pub fn after_last(s: &str, c: char) -> (k: usize)
    ensures
        k == last_pos(s@, c) + 1,
        k <= s@.len(),
{
    let cs = crate::text::chars_of(s);
    let mut k: usize = cs.len();
    while k > 0 && cs[k - 1] != c
        invariant
            cs@ == s@,
            k <= cs.len(),
            forall|j: int| k <= j < cs.len() ==> cs@[j] != c,
        decreases k,
    {
        k = k - 1;
    }
    proof {
        lemma_last_pos(s@, c, k - 1);
    }
    k
}

/// The extension of the image at `url` where it is a kept image type.
pub fn extract_extension(url: &str) -> (r: Option<&str>)
    ensures
        crate::text::opt_str(r) == image_extension(url@),
{
    let q = find_first(url, '?');
    let path = url.substring_char(0, q);
    let slash = after_last(path, '/');
    let filename = path.substring_char(slash, path.unicode_len());
    let dot = after_last(filename, '.');
    let ext = filename.substring_char(dot, filename.unicode_len());
    let lower = to_lowercase(ext);
    proof {
        assert(path@ =~= url_path(url@));
        assert(filename@ =~= last_segment(path@));
        assert(ext@ =~= name_extension(filename@));
    }
    if is_image_ext(lower.as_str()) {
        Some(ext)
    } else {
        None
    }
}

/// The file name of the local copy of the image at `url`: the SHA-256 digest
/// of the address in hexadecimal, a dot, and its image extension (`jpg` where
/// it has none).
pub open spec fn image_file_name(url: Seq<char>) -> Seq<char> {
    hex_lower(sha256(encode_utf8(url))) + "."@ + match image_extension(url) {
        Some(e) => e,
        None => "jpg"@,
    }
}

/// The file name of the local copy of the image at `url`.
pub fn url_to_filename(url: &str) -> (r: String)
    ensures
        r@ == image_file_name(url@),
        r@.len() > 64,
{
    let hash = sha256_hex(url);
    let ext = match extract_extension(url) {
        Some(e) => e,
        None => "jpg",
    };
    proof {
        reveal_strlit("jpg");
        reveal_strlit(".");
    }
    let named = hash.concat(".");
    named.concat(ext)
}

} // verus!
