use vstd::prelude::*;
use crate::text::{spec_lower_seq, eq_lowered, str_eq, s_get};
use vstd::string::StringSliceAdditionalSpecFns;

verus! {

/// Whether a character separates path components.
pub open spec fn spec_is_sep(c: char) -> bool {
    c == '/' || c == '\\'
}

/// Index of the last path separator, or -1 if there is none.
pub open spec fn spec_last_sep(s: Seq<char>) -> int
    decreases s.len(),
{
    if s.len() == 0 {
        -1
    } else if spec_is_sep(s[s.len() - 1]) {
        s.len() - 1
    } else {
        spec_last_sep(s.take(s.len() - 1))
    }
}

/// Index of the last dot in a file name, or -1 if there is none.
pub open spec fn spec_last_dot(s: Seq<char>) -> int
    decreases s.len(),
{
    if s.len() == 0 {
        -1
    } else if s[s.len() - 1] == '.' {
        s.len() - 1
    } else {
        spec_last_dot(s.take(s.len() - 1))
    }
}

/// The file name of a path: everything after the last separator.
pub open spec fn spec_file_name(s: Seq<char>) -> Seq<char> {
    s.subrange(spec_last_sep(s) + 1, s.len() as int)
}

/// The extension of a path: what follows the last dot of its file name,
/// none when the name has no dot or only a leading one.
pub open spec fn spec_extension(s: Seq<char>) -> Option<Seq<char>> {
    let name = spec_file_name(s);
    let d = spec_last_dot(name);
    if d <= 0 {
        None
    } else {
        Some(name.subrange(d + 1, name.len() as int))
    }
}

/// The stem of a path's file name: the name up to its last dot, or the
/// whole name when there is no dot or only a leading one; none when the
/// name is empty.
pub open spec fn spec_file_stem(s: Seq<char>) -> Option<Seq<char>> {
    let name = spec_file_name(s);
    if name.len() == 0 {
        None
    } else {
        let d = spec_last_dot(name);
        if d <= 0 {
            Some(name)
        } else {
            Some(name.subrange(0, d))
        }
    }
}

/// An index with no separators after it, holding a separator (or the
/// start), is the last-separator index.
proof fn lemma_last_sep_char(s: Seq<char>, i: int)
    requires
        -1 <= i < s.len(),
        forall|j: int| i < j < s.len() ==> !spec_is_sep(#[trigger] s[j]),
        i == -1 || spec_is_sep(s[i]),
    ensures
        spec_last_sep(s) == i,
    decreases s.len(),
{
    if s.len() == 0 {
    } else if spec_is_sep(s[s.len() - 1]) {
        assert(i == s.len() - 1);
    } else {
        lemma_last_sep_char(s.take(s.len() - 1), i);
    }
}

/// An index with no dots after it, holding a dot (or the start), is the
/// last-dot index.
proof fn lemma_last_dot_char(s: Seq<char>, i: int)
    requires
        -1 <= i < s.len(),
        forall|j: int| i < j < s.len() ==> #[trigger] s[j] != '.',
        i == -1 || s[i] == '.',
    ensures
        spec_last_dot(s) == i,
    decreases s.len(),
{
    if s.len() == 0 {
    } else if s[s.len() - 1] == '.' {
        assert(i == s.len() - 1);
    } else {
        lemma_last_dot_char(s.take(s.len() - 1), i);
    }
}

/// Whether a character separates path components.
fn is_sep_char(c: char) -> (r: bool)
    ensures
        r == spec_is_sep(c),
{
    c == '/' || c == '\\'
}

/// One past the last separator of the path, by scanning from the end.
fn file_name_start(path: &str, len: usize) -> (r: usize)
    requires
        len == path@.len(),
    ensures
        r as int == spec_last_sep(path@) + 1,
        r <= len,
{
    let mut i: usize = len;
    while i > 0 && !is_sep_char(s_get(path, i - 1))
        invariant
            0 <= i <= len,
            len == path@.len(),
            forall|j: int| i <= j < len ==> !spec_is_sep(#[trigger] path@[j]),
        decreases i,
    {
        i = i - 1;
    }
    proof {
        lemma_last_sep_char(path@, i - 1);
    }
    i
}

/// One past the last dot of the file name `[start, len)`, or `start`
/// itself when there is no dot.
fn name_dot_end(path: &str, start: usize, len: usize) -> (r: usize)
    requires
        len == path@.len(),
        start <= len,
    ensures
        start <= r <= len,
        r == start ==> spec_last_dot(path@.subrange(start as int, len as int)) == -1,
        r > start ==> spec_last_dot(path@.subrange(start as int, len as int)) == r - 1 - start,
{
    let ghost name = path@.subrange(start as int, len as int);
    let mut j: usize = len;
    while j > start && s_get(path, j - 1) != '.'
        invariant
            start <= j <= len,
            len == path@.len(),
            forall|t: int| j <= t < len ==> #[trigger] path@[t] != '.',
        decreases j,
    {
        j = j - 1;
    }
    proof {
        assert(forall|t: int|
            j - start <= t < name.len() ==> #[trigger] name[t] == path@[t + start] && name[t]
                != '.');
        if j > start {
            assert(name[j - 1 - start] == path@[j - 1]);
            lemma_last_dot_char(name, j - 1 - start);
        } else {
            lemma_last_dot_char(name, -1);
        }
    }
    j
}

/// The audio file extensions the engine will try to decode, lowered.
pub open spec fn spec_supported_extension(e: Seq<char>) -> bool {
    let n = spec_lower_seq(e);
    ||| n == "mp3"@
    ||| n == "flac"@
    ||| n == "wav"@
    ||| n == "ogg"@
    ||| n == "m4a"@
    ||| n == "aac"@
    ||| n == "aiff"@
    ||| n == "alac"@
}

/// Whether a path names a file the decoder supports, judged by its
/// extension, case-insensitively.
pub fn is_supported_audio_path(path: &str) -> (r: bool)
    ensures
        r == match spec_extension(path@) {
            Some(e) => spec_supported_extension(e),
            None => false,
        },
{
    let len: usize = path.unicode_len();
    let start: usize = file_name_start(path, len);
    let dot_end: usize = name_dot_end(path, start, len);
    if dot_end - start <= 1 {
        // No dot in the name, or only a leading one: no extension.
        return false;
    }
    let ext: &str = path.substring_char(dot_end, len);
    proof {
        let name = path@.subrange(start as int, len as int);
        assert(ext@ =~= name.subrange(spec_last_dot(name) + 1, name.len() as int));
    }
    eq_lowered(ext, "mp3") || eq_lowered(ext, "flac") || eq_lowered(ext, "wav") || eq_lowered(
        ext,
        "ogg",
    ) || eq_lowered(ext, "m4a") || eq_lowered(ext, "aac") || eq_lowered(ext, "aiff") || eq_lowered(
        ext,
        "alac",
    )
}

/// The display title a path yields on its own: the file name without its
/// extension, or nothing for an empty name.
pub fn track_title_from_path(path: &str) -> (r: Option<String>)
    ensures
        match r {
            Some(t) => spec_file_stem(path@) == Some(t@),
            None => spec_file_stem(path@) is None,
        },
{
    let len: usize = path.unicode_len();
    let start: usize = file_name_start(path, len);
    if start == len {
        return None;
    }
    let dot_end: usize = name_dot_end(path, start, len);
    let stem: &str = if dot_end - start <= 1 {
        path.substring_char(start, len)
    } else {
        path.substring_char(start, dot_end - 1)
    };
    proof {
        let name = path@.subrange(start as int, len as int);
        if dot_end - start <= 1 {
            assert(stem@ =~= name);
        } else {
            assert(stem@ =~= name.subrange(0, spec_last_dot(name)));
        }
    }
    Some(stem.to_owned())
}

/// The cover file extension chosen for a media type: known image types
/// map to their usual suffix, anything else to a generic one.
pub open spec fn spec_cover_extension(m: Seq<char>) -> Seq<char> {
    if m == "image/jpeg"@ || m == "image/jpg"@ {
        "jpg"@
    } else if m == "image/png"@ {
        "png"@
    } else if m == "image/webp"@ {
        "webp"@
    } else if m == "image/bmp"@ {
        "bmp"@
    } else {
        "bin"@
    }
}

/// Picks the file extension for an extracted cover image.
pub fn cover_extension(media_type: &str) -> (r: &'static str)
    ensures
        r@ == spec_cover_extension(media_type@),
{
    if str_eq(media_type, "image/jpeg") || str_eq(media_type, "image/jpg") {
        "jpg"
    } else if str_eq(media_type, "image/png") {
        "png"
    } else if str_eq(media_type, "image/webp") {
        "webp"
    } else if str_eq(media_type, "image/bmp") {
        "bmp"
    } else {
        "bin"
    }
}

/// Offset basis of the 64-bit FNV-1a hash.
pub const FNV_OFFSET: u64 = 0xcbf2_9ce4_8422_2325;

/// Prime of the 64-bit FNV-1a hash.
pub const FNV_PRIME: u64 = 0x0000_0100_0000_01b3;

/// One FNV-1a step: fold one byte into the accumulator.
pub open spec fn spec_fnv1a_step(acc: u64, b: u8) -> u64 {
    ((((acc ^ (b as u64)) as int) * (FNV_PRIME as int)) % 0x1_0000_0000_0000_0000) as u64
}

/// FNV-1a over the remaining bytes, starting from an accumulator.
pub open spec fn spec_fnv1a_acc(bytes: Seq<u8>, acc: u64) -> u64
    decreases bytes.len(),
{
    if bytes.len() == 0 {
        acc
    } else {
        spec_fnv1a_acc(bytes.skip(1), spec_fnv1a_step(acc, bytes[0]))
    }
}

/// The 64-bit FNV-1a hash of a byte sequence.
pub open spec fn spec_fnv1a(bytes: Seq<u8>) -> u64 {
    spec_fnv1a_acc(bytes, FNV_OFFSET)
}

/// The key a path hashes to for naming its extracted cover file: the
/// 64-bit FNV-1a hash of the path's bytes.
pub fn cover_hash_key(path: &str) -> (r: u64)
    ensures
        r == spec_fnv1a(path.spec_bytes()),
{
    let bytes: Vec<u8> = path.as_bytes_vec();
    let mut acc: u64 = FNV_OFFSET;
    let mut i: usize = 0;
    proof {
        assert(bytes@.skip(0) =~= bytes@);
    }
    while i < bytes.len()
        invariant
            0 <= i <= bytes@.len(),
            bytes@ == path.spec_bytes(),
            spec_fnv1a_acc(bytes@.skip(i as int), acc) == spec_fnv1a(path.spec_bytes()),
        decreases bytes@.len() - i,
    {
        let b: u8 = bytes[i];
        let x: u64 = acc ^ (b as u64);
        let next: u64 = x.wrapping_mul(FNV_PRIME);
        proof {
            assert(next == spec_fnv1a_step(acc, bytes@[i as int]));
            assert(bytes@.skip(i as int)[0] == bytes@[i as int]);
            assert(bytes@.skip(i as int).skip(1) =~= bytes@.skip(i + 1 as int));
        }
        acc = next;
        i = i + 1;
    }
    proof {
        assert(bytes@.skip(i as int).len() == 0);
    }
    acc
}

} // verus!
