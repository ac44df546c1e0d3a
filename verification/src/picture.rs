use crate::text::{file_extension, last_index_of};
use vstd::prelude::*;

verus! {

/// The last component of a path written with `/` separators.
pub open spec fn last_component(path: Seq<char>) -> Seq<char> {
    path.subrange(last_index_of(path, '/') + 1, path.len() as int)
}

/// The extension by which a picture file's format is chosen: that of the
/// path's last component (see `file_extension`), or empty when it has none.
pub open spec fn path_extension(path: Seq<char>) -> Seq<char> {
    match file_extension(last_component(path)) {
        Some(e) => e,
        None => Seq::empty(),
    }
}

/// Index of the last `c` in `s[from..to]`, counted from the start of `s`.
fn last_char_index(s: &str, from: usize, to: usize, c: char) -> (r: Option<usize>)
    requires
        from <= to <= s@.len(),
    ensures
        r matches Some(i) ==> from <= i < to && last_index_of(s@.subrange(from as int, to as int), c)
            == i - from,
        r is None ==> last_index_of(s@.subrange(from as int, to as int), c) == -1,
{
    let ghost sub = s@.subrange(from as int, to as int);
    let mut i = to;
    assert(sub.take((to - from) as int) =~= sub);
    while i > from
        invariant
            from <= i <= to <= s@.len(),
            sub == s@.subrange(from as int, to as int),
            last_index_of(sub, c) == last_index_of(sub.take(i - from), c),
        decreases i,
    {
        let d = s.get_char(i - 1);
        assert(sub.take(i - from).drop_last() =~= sub.take(i - 1 - from));
        assert(sub.take(i - from).last() == d);
        if d == c {
            return Some(i - 1);
        }
        i = i - 1;
    }
    assert(sub.take(0) =~= Seq::<char>::empty());
    None
}

/// The extension of the path's last component (empty when there is none).
pub fn extension_of(path: &str) -> (e: &str)
    ensures
        e@ == path_extension(path@),
{
    proof {
        reveal_strlit("");
    }
    let len = path.unicode_len();
    let start = match last_char_index(path, 0, len, '/') {
        Some(i) => i + 1,
        None => 0,
    };
    assert(path@.subrange(0, len as int) =~= path@);
    let ghost name = last_component(path@);
    assert(name =~= path@.subrange(start as int, len as int));
    let dot = match last_char_index(path, start, len, '.') {
        Some(d) => d,
        None => {
            return "";
        },
    };
    if dot == start {
        return "";
    }
    if len - start == 2 && path.get_char(start) == '.' && path.get_char(start + 1) == '.' {
        assert(name =~= seq!['.', '.']);
        return "";
    }
    assert(name != seq!['.', '.']) by {
        if name == seq!['.', '.'] {
            assert(name.len() == 2 && name[0] == '.' && name[1] == '.');
            assert(path@[start as int] == '.' && path@[start + 1] == '.');
        }
    }
    let e = path.substring_char(dot + 1, len);
    assert(e@ =~= name.subrange(dot - start + 1, name.len() as int));
    e
}

/// What the `image` crate makes of a picture's bytes when it decodes them in
/// the format named by `extension` and converts the result to 8-bit RGBA:
/// the width, the height and the pixels row by row, or nothing when the
/// extension names no format it knows or the bytes do not decode.
pub uninterp spec fn decoded_rgba(bytes: Seq<u8>, extension: Seq<char>) -> Option<(u32, u32, Seq<u8>)>;

/// Decodes with the `image` crate as `ImageReader::open(path)` followed by
/// `decode()` and `to_rgba8()` does for a file with these bytes when no
/// decoding hook is registered (this program registers none): the format is
/// `ImageFormat::from_extension(extension)`, which ignores case, the
/// decoder's default limits apply, and the width, the height and
/// `into_raw()` of the RGBA buffer come back. What the pixels are is named by
/// `decoded_rgba`, not stated.
#[verifier::external_body]
fn decode_rgba(bytes: &[u8], extension: &str) -> (r: Option<(u32, u32, Vec<u8>)>)
    ensures
        r matches Some(t) ==> decoded_rgba(bytes@, extension@) == Some((t.0, t.1, t.2@)),
        r is None ==> decoded_rgba(bytes@, extension@) is None,
{
    let format = image::ImageFormat::from_extension(extension)?;
    let reader = image::ImageReader::with_format(std::io::Cursor::new(bytes), format);
    let rgba = reader.decode().ok()?.to_rgba8();
    let (width, height) = rgba.dimensions();
    Some((width, height, rgba.into_raw()))
}

/// Decodes the picture read from the file at `path`, choosing the format by
/// the path's extension as opening the file with `image` does; gives its
/// width, height and RGBA pixels, or nothing when it cannot be decoded.
pub fn decode_picture(bytes: &[u8], path: &str) -> (r: Option<(u32, u32, Vec<u8>)>)
    ensures
        r matches Some(t) ==> decoded_rgba(bytes@, path_extension(path@)) == Some((t.0, t.1, t.2@)),
        r is None ==> decoded_rgba(bytes@, path_extension(path@)) is None,
{
    let extension = extension_of(path);
    decode_rgba(bytes, extension)
}

} // verus!
