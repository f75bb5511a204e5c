//! Image file naming and encoding: the MIME type implied by a path's
//! extension, and Base64 data URIs.

use vstd::prelude::*;

use base64::Engine;

use crate::services::template_engine::{slice_chars, split_on};
use crate::text::{append_str, chars_of, has_infix, str_contains, string_of_all};

verus! {

/// The character of a 6-bit value in the standard Base64 alphabet
/// (RFC 4648, table 1): `A`–`Z`, `a`–`z`, `0`–`9`, `+`, `/`.
pub open spec fn base64_digit(v: int) -> char {
    if v < 26 {
        ('A' as int + v) as char
    } else if v < 52 {
        ('a' as int + (v - 26)) as char
    } else if v < 62 {
        ('0' as int + (v - 52)) as char
    } else if v == 62 {
        '+'
    } else {
        '/'
    }
}

/// The Base64 text of a byte sequence in the standard alphabet with `=`
/// padding (RFC 4648, section 4): each group of three bytes gives four
/// characters of six bits each; a final group of one or two bytes is filled
/// with zero bits and padded with `=` to four characters.
pub open spec fn base64_standard(bytes: Seq<u8>) -> Seq<char>
    decreases bytes.len(),
{
    if bytes.len() == 0 {
        Seq::empty()
    } else if bytes.len() == 1 {
        let b0 = bytes[0] as int;
        seq![base64_digit(b0 / 4), base64_digit((b0 % 4) * 16), '=', '=']
    } else if bytes.len() == 2 {
        let b0 = bytes[0] as int;
        let b1 = bytes[1] as int;
        seq![
            base64_digit(b0 / 4),
            base64_digit((b0 % 4) * 16 + b1 / 16),
            base64_digit((b1 % 16) * 4),
            '=',
        ]
    } else {
        let b0 = bytes[0] as int;
        let b1 = bytes[1] as int;
        let b2 = bytes[2] as int;
        seq![
            base64_digit(b0 / 4),
            base64_digit((b0 % 4) * 16 + b1 / 16),
            base64_digit((b1 % 16) * 4 + b2 / 64),
            base64_digit(b2 % 64),
        ] + base64_standard(bytes.skip(3))
    }
}

/// Encodes bytes with the `base64` crate's `BASE64_STANDARD` engine
/// (`Engine::encode`): the standard alphabet with `=` padding. The contract
/// states that the result is [`base64_standard`] of exactly these bytes.
/// `encode` panics where the encoded length overflows `usize`, so such
/// inputs are excluded.
#[verifier::external_body]
fn base64_encode(bytes: &[u8]) -> (s: String)
    requires
        4 * ((bytes@.len() + 2) / 3) <= usize::MAX,
    ensures
        s@ == base64_standard(bytes@),
{
    base64::prelude::BASE64_STANDARD.encode(bytes)
}

/// A data URI: `data:{mime};base64,{data}`.
pub open spec fn data_uri(mime: Seq<char>, data: Seq<char>) -> Seq<char> {
    "data:"@ + mime + ";base64,"@ + data
}

/// Formats a data URI from a MIME type and Base64 text.
pub fn format_data_uri(mime: &str, data: &str) -> (s: String)
    ensures
        s@ == data_uri(mime@, data@),
{
    let mut s = String::new();
    append_str(&mut s, "data:");
    append_str(&mut s, mime);
    append_str(&mut s, ";base64,");
    append_str(&mut s, data);
    s
}

/// The last index of `c` in `s`, if `c` occurs.
pub open spec fn last_index_of(s: Seq<char>, c: char) -> Option<int>
    decreases s.len(),
{
    if s.len() == 0 {
        None
    } else if s.last() == c {
        Some(s.len() - 1)
    } else {
        last_index_of(s.drop_last(), c)
    }
}

/// A path component that names something: not empty and not `.`.
pub open spec fn is_named(part: Seq<char>) -> bool {
    part.len() > 0 && part != seq!['.']
}

/// The last naming component among `parts`, if any.
pub open spec fn last_named(parts: Seq<Seq<char>>) -> Option<Seq<char>>
    decreases parts.len(),
{
    if parts.len() == 0 {
        None
    } else if is_named(parts.last()) {
        Some(parts.last())
    } else {
        last_named(parts.drop_last())
    }
}

/// The final component of a path, as `Path::file_name` gives it on Unix:
/// the last part between `/` separators that is neither empty nor `.`;
/// none where there is no such part or it is `..`.
pub open spec fn file_name(path: Seq<char>) -> Option<Seq<char>> {
    match last_named(split_on(path, '/')) {
        Some(n) => if n == seq!['.', '.'] {
            None
        } else {
            Some(n)
        },
        None => None,
    }
}

/// The extension of a path, as `Path::extension` gives it on Unix: the text
/// after the last `.` of the file name, where that dot is not the name's
/// first character.
pub open spec fn extension(path: Seq<char>) -> Option<Seq<char>> {
    match file_name(path) {
        None => None,
        Some(name) => match last_index_of(name, '.') {
            None => None,
            Some(i) => if i == 0 {
                None
            } else {
                Some(name.skip(i + 1))
            },
        },
    }
}

proof fn lemma_split_nonempty(s: Seq<char>, c: char)
    ensures
        split_on(s, c).len() >= 1,
    decreases s.len(),
{
    if s.len() > 0 {
        lemma_split_nonempty(s.drop_last(), c);
    }
}

fn is_named_part(part: &Vec<char>) -> (b: bool)
    ensures
        b == is_named(part@),
{
    if part.len() == 0 {
        return false;
    }
    if part.len() == 1 && part[0] == '.' {
        assert(part@ =~= seq!['.']);
        return false;
    }
    if part.len() == 1 {
        assert(part@[0] != seq!['.'][0]);
    }
    true
}

/// The final component of a path (see [`file_name`]).
pub fn path_file_name(path: &str) -> (r: Option<Vec<char>>)
    ensures
        match r {
            Some(n) => file_name(path@) == Some(n@),
            None => file_name(path@) == None::<Seq<char>>,
        },
{
    let pv = chars_of(path);
    let mut last: Option<Vec<char>> = None;
    let mut cur: Vec<char> = Vec::new();
    let mut i: usize = 0;
    assert(pv@.take(0) =~= Seq::<char>::empty());
    while i < pv.len()
        invariant
            i <= pv@.len(),
            split_on(pv@.take(i as int), '/').len() >= 1,
            cur@ == split_on(pv@.take(i as int), '/').last(),
            match last {
                Some(n) => last_named(split_on(pv@.take(i as int), '/').drop_last()) == Some(n@),
                None => last_named(split_on(pv@.take(i as int), '/').drop_last()) == None::<Seq<char>>,
            },
        decreases pv.len() - i,
    {
        let ghost sp = split_on(pv@.take(i as int), '/');
        assert(pv@.take(i + 1).drop_last() == pv@.take(i as int));
        assert(pv@.take(i + 1).last() == pv@[i as int]);
        assert(sp.drop_last().push(sp.last()) == sp);
        if pv[i] == '/' {
            assert(split_on(pv@.take(i + 1), '/') == sp.push(Seq::<char>::empty()));
            assert(sp.push(Seq::<char>::empty()).drop_last() == sp);
            if is_named_part(&cur) {
                last = Some(cur);
            }
            cur = Vec::new();
            assert(cur@ =~= Seq::<char>::empty());
        } else {
            cur.push(pv[i]);
            let ghost sp2 = split_on(pv@.take(i + 1), '/');
            assert(sp2 == sp.update(sp.len() - 1, sp.last().push(pv@[i as int])));
            assert(sp2.drop_last() =~= sp.drop_last());
        }
        i = i + 1;
    }
    assert(pv@.take(pv@.len() as int) == pv@);
    let ghost sp = split_on(pv@, '/');
    assert(sp.drop_last().push(sp.last()) == sp);
    let name = if is_named_part(&cur) {
        Some(cur)
    } else {
        last
    };
    match name {
        Some(n) => {
            if n.len() == 2 && n[0] == '.' && n[1] == '.' {
                assert(n@ =~= seq!['.', '.']);
                None
            } else {
                assert(n@ != seq!['.', '.']) by {
                    if n@.len() == 2 {
                        assert(n@[0] != '.' || n@[1] != '.');
                    }
                }
                Some(n)
            }
        },
        None => None,
    }
}

/// The extension of a path (see [`extension`]).
pub fn path_extension(path: &str) -> (r: Option<Vec<char>>)
    ensures
        match r {
            Some(e) => extension(path@) == Some(e@),
            None => extension(path@) == None::<Seq<char>>,
        },
{
    match path_file_name(path) {
        None => None,
        Some(name) => {
            let mut i: usize = name.len();
            assert(name@.take(name@.len() as int) =~= name@);
            while i > 0
                invariant
                    i <= name@.len(),
                    file_name(path@) == Some(name@),
                    last_index_of(name@, '.') == last_index_of(name@.take(i as int), '.'),
                decreases i,
            {
                let ghost pre = name@.take(i as int);
                assert(pre.drop_last() == name@.take(i - 1));
                assert(pre.last() == name@[i - 1]);
                if name[i - 1] == '.' {
                    if i - 1 == 0 {
                        return None;
                    }
                    let e = slice_chars(&name, i, name.len());
                    assert(e@ =~= name@.skip(i as int));
                    return Some(e);
                }
                i = i - 1;
            }
            assert(name@.take(0) =~= Seq::<char>::empty());
            None
        },
    }
}

/// ASCII lower case of a character; other characters are kept.
pub open spec fn ascii_lower(c: char) -> char {
    if 'A' <= c <= 'Z' {
        (((c as u8) + 32) as u8) as char
    } else {
        c
    }
}

/// `s` equals the lower-case ASCII text `t` once lower-cased. For the ASCII
/// words this library compares against, which hold no `k`, this is what
/// `to_lowercase` followed by `==` decides: the one non-ASCII character that
/// lower-cases to a single ASCII letter is the Kelvin sign, to `k`.
pub open spec fn lower_is(s: Seq<char>, t: Seq<char>) -> bool {
    s.len() == t.len() && forall|i: int| 0 <= i < s.len() ==> ascii_lower(s[i]) == t[i]
}

fn lower_char(c: char) -> (r: char)
    ensures
        r == ascii_lower(c),
{
    if 'A' <= c && c <= 'Z' {
        let u: u8 = (c as u8) + 32;
        u as char
    } else {
        c
    }
}

/// Whether `s` equals the lower-case text `t` once lower-cased.
pub fn lower_equals(s: &Vec<char>, t: &Vec<char>) -> (b: bool)
    ensures
        b == lower_is(s@, t@),
{
    if s.len() != t.len() {
        return false;
    }
    let mut i: usize = 0;
    while i < s.len()
        invariant
            i <= s@.len(),
            s@.len() == t@.len(),
            forall|j: int| 0 <= j < i ==> ascii_lower(s@[j]) == t@[j],
        decreases s.len() - i,
    {
        if lower_char(s[i]) != t[i] {
            return false;
        }
        i = i + 1;
    }
    true
}

/// The extension used for MIME detection: the path's extension, or `png`
/// where it has none.
pub open spec fn extension_or_png(path: Seq<char>) -> Seq<char> {
    match extension(path) {
        Some(e) => e,
        None => seq!['p', 'n', 'g'],
    }
}

/// The MIME type that data URIs give an image file, by extension
/// (case-insensitive): `jpg`/`jpeg`, `png`, `webp`, `gif`, `bmp`,
/// `tiff`/`tif`; anything else is `image/png`.
pub open spec fn image_mime(path: Seq<char>) -> Seq<char> {
    let e = extension_or_png(path);
    if lower_is(e, seq!['j', 'p', 'g']) || lower_is(e, seq!['j', 'p', 'e', 'g']) {
        "image/jpeg"@
    } else if lower_is(e, seq!['p', 'n', 'g']) {
        "image/png"@
    } else if lower_is(e, seq!['w', 'e', 'b', 'p']) {
        "image/webp"@
    } else if lower_is(e, seq!['g', 'i', 'f']) {
        "image/gif"@
    } else if lower_is(e, seq!['b', 'm', 'p']) {
        "image/bmp"@
    } else if lower_is(e, seq!['t', 'i', 'f', 'f']) || lower_is(e, seq!['t', 'i', 'f']) {
        "image/tiff"@
    } else {
        "image/png"@
    }
}

/// The MIME type recorded for an attached image, by extension
/// (case-insensitive): `jpg`/`jpeg`, `webp`, `gif`; anything else is `image/png`.
pub open spec fn attachment_mime_spec(path: Seq<char>) -> Seq<char> {
    let e = extension_or_png(path);
    if lower_is(e, seq!['j', 'p', 'g']) || lower_is(e, seq!['j', 'p', 'e', 'g']) {
        "image/jpeg"@
    } else if lower_is(e, seq!['w', 'e', 'b', 'p']) {
        "image/webp"@
    } else if lower_is(e, seq!['g', 'i', 'f']) {
        "image/gif"@
    } else {
        "image/png"@
    }
}

fn extension_or_png_of(path: &str) -> (e: Vec<char>)
    ensures
        e@ == extension_or_png(path@),
{
    match path_extension(path) {
        Some(e) => e,
        None => {
            let e = vec!['p', 'n', 'g'];
            assert(e@ =~= seq!['p', 'n', 'g']);
            e
        },
    }
}

/// The MIME type of an image file for a data URI (see [`image_mime`]).
pub fn image_mime_type(path: &str) -> (m: &'static str)
    ensures
        m@ == image_mime(path@),
{
    let e = extension_or_png_of(path);
    let jpg = vec!['j', 'p', 'g'];
    let jpeg = vec!['j', 'p', 'e', 'g'];
    let png = vec!['p', 'n', 'g'];
    let webp = vec!['w', 'e', 'b', 'p'];
    let gif = vec!['g', 'i', 'f'];
    let bmp = vec!['b', 'm', 'p'];
    let tiff = vec!['t', 'i', 'f', 'f'];
    let tif = vec!['t', 'i', 'f'];
    assert(jpg@ =~= seq!['j', 'p', 'g']);
    assert(jpeg@ =~= seq!['j', 'p', 'e', 'g']);
    assert(png@ =~= seq!['p', 'n', 'g']);
    assert(webp@ =~= seq!['w', 'e', 'b', 'p']);
    assert(gif@ =~= seq!['g', 'i', 'f']);
    assert(bmp@ =~= seq!['b', 'm', 'p']);
    assert(tiff@ =~= seq!['t', 'i', 'f', 'f']);
    assert(tif@ =~= seq!['t', 'i', 'f']);
    if lower_equals(&e, &jpg) || lower_equals(&e, &jpeg) {
        "image/jpeg"
    } else if lower_equals(&e, &png) {
        "image/png"
    } else if lower_equals(&e, &webp) {
        "image/webp"
    } else if lower_equals(&e, &gif) {
        "image/gif"
    } else if lower_equals(&e, &bmp) {
        "image/bmp"
    } else if lower_equals(&e, &tiff) || lower_equals(&e, &tif) {
        "image/tiff"
    } else {
        "image/png"
    }
}

/// The MIME type recorded for an attached image (see [`attachment_mime_spec`]).
pub fn attachment_mime(path: &str) -> (m: &'static str)
    ensures
        m@ == attachment_mime_spec(path@),
{
    let e = extension_or_png_of(path);
    let jpg = vec!['j', 'p', 'g'];
    let jpeg = vec!['j', 'p', 'e', 'g'];
    let webp = vec!['w', 'e', 'b', 'p'];
    let gif = vec!['g', 'i', 'f'];
    assert(jpg@ =~= seq!['j', 'p', 'g']);
    assert(jpeg@ =~= seq!['j', 'p', 'e', 'g']);
    assert(webp@ =~= seq!['w', 'e', 'b', 'p']);
    assert(gif@ =~= seq!['g', 'i', 'f']);
    if lower_equals(&e, &jpg) || lower_equals(&e, &jpeg) {
        "image/jpeg"
    } else if lower_equals(&e, &webp) {
        "image/webp"
    } else if lower_equals(&e, &gif) {
        "image/gif"
    } else {
        "image/png"
    }
}

/// Where an attached image came from: `"clipboard"` for files saved from the
/// clipboard (their path holds `qwenimager-clipboard`), else `"upload"`.
pub fn attachment_source(path: &str) -> (s: &'static str)
    ensures
        has_infix(path@, "qwenimager-clipboard"@) ==> s@ == "clipboard"@,
        !has_infix(path@, "qwenimager-clipboard"@) ==> s@ == "upload"@,
{
    if str_contains(path, "qwenimager-clipboard") {
        "clipboard"
    } else {
        "upload"
    }
}

/// Encodes an image file's bytes as a Base64 data URI,
/// `data:{mime_type};base64,{base64_data}`, which the DashScope API accepts
/// for image inputs. The MIME type comes from the file extension (see
/// [`image_mime`]).
pub fn encode_image_to_data_uri(path: &str, bytes: &[u8]) -> (s: String)
    requires
        4 * ((bytes@.len() + 2) / 3) <= usize::MAX,
    ensures
        s@ == data_uri(image_mime(path@), base64_standard(bytes@)),
{
    let mime = image_mime_type(path);
    let data = base64_encode(bytes);
    format_data_uri(mime, data.as_str())
}

} // verus!
