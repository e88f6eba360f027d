//! The user's avatar: which images are accepted, and the names under
//! which the copy is kept.
use vstd::prelude::*;

use crate::text::concat_str;

verus! {

/// The largest avatar file accepted, in bytes.
pub const MAX_AVATAR_SIZE: u64 = 20 * 1024 * 1024;

/// Directory of the avatar copy, under the application's data directory.
pub const AVATAR_DIR: &'static str = "chat/avatar";

/// Whether `bytes` starts with `prefix`.
pub open spec fn has_prefix(bytes: Seq<u8>, prefix: Seq<u8>) -> bool {
    prefix.len() <= bytes.len() && bytes.take(prefix.len() as int) == prefix
}

/// The image type that a file's first bytes show, by the signatures of
/// PNG, JPEG, WebP (`RIFF....WEBP`), GIF (87a and 89a), BMP and ICO, tried
/// in that order.
pub open spec fn image_kind(b: Seq<u8>) -> Option<Seq<char>> {
    if has_prefix(b, seq![0x89u8, 0x50u8, 0x4Eu8, 0x47u8, 0x0Du8, 0x0Au8, 0x1Au8, 0x0Au8]) {
        Some("png"@)
    } else if has_prefix(b, seq![0xFFu8, 0xD8u8, 0xFFu8]) {
        Some("jpg"@)
    } else if b.len() >= 12 && b.subrange(0, 4) == seq![0x52u8, 0x49u8, 0x46u8, 0x46u8]
        && b.subrange(8, 12) == seq![0x57u8, 0x45u8, 0x42u8, 0x50u8] {
        Some("webp"@)
    } else if has_prefix(b, seq![0x47u8, 0x49u8, 0x46u8, 0x38u8, 0x37u8, 0x61u8]) || has_prefix(
        b,
        seq![0x47u8, 0x49u8, 0x46u8, 0x38u8, 0x39u8, 0x61u8],
    ) {
        Some("gif"@)
    } else if has_prefix(b, seq![0x42u8, 0x4Du8]) {
        Some("bmp"@)
    } else if has_prefix(b, seq![0x00u8, 0x00u8, 0x01u8, 0x00u8]) {
        Some("ico"@)
    } else {
        None
    }
}

/// Whether the range `at..at + p.len()` of `b` holds `p`.
fn bytes_at(b: &[u8], at: usize, p: &[u8]) -> (r: bool)
    ensures
        r == (at + p@.len() <= b@.len() && b@.subrange(at as int, at + p@.len()) == p@),
{
    let n = b.len();
    if at > n || p.len() > n - at {
        return false;
    }
    let mut i: usize = 0;
    while i < p.len()
        invariant
            n == b@.len(),
            at + p@.len() <= n,
            i <= p@.len(),
            forall|j: int| 0 <= j < i ==> b@[at + j] == p@[j],
        decreases p@.len() - i,
    {
        if b[at + i] != p[i] {
            assert(b@.subrange(at as int, at + p@.len())[i as int] != p@[i as int]);
            return false;
        }
        i = i + 1;
    }
    assert(b@.subrange(at as int, at + p@.len()) =~= p@);
    true
}

fn starts_with(b: &[u8], p: &[u8]) -> (r: bool)
    ensures
        r == has_prefix(b@, p@),
{
    let r = bytes_at(b, 0, p);
    assert(b@.take(p@.len() as int) =~= b@.subrange(0, p@.len() as int));
    r
}

/// The image type of an avatar from its first bytes, or `avatarInvalidType`.
pub fn detect_image_extension(bytes: &[u8]) -> (r: Result<&'static str, String>)
    ensures
        match r {
            Ok(e) => image_kind(bytes@) == Some(e@),
            Err(msg) => image_kind(bytes@).is_none() && msg@ == "avatarInvalidType"@,
        },
{
    let png: [u8; 8] = [0x89, 0x50, 0x4E, 0x47, 0x0D, 0x0A, 0x1A, 0x0A];
    let jpg: [u8; 3] = [0xFF, 0xD8, 0xFF];
    let riff: [u8; 4] = [0x52, 0x49, 0x46, 0x46];
    let webp: [u8; 4] = [0x57, 0x45, 0x42, 0x50];
    let gif87: [u8; 6] = [0x47, 0x49, 0x46, 0x38, 0x37, 0x61];
    let gif89: [u8; 6] = [0x47, 0x49, 0x46, 0x38, 0x39, 0x61];
    let bmp: [u8; 2] = [0x42, 0x4D];
    let ico: [u8; 4] = [0x00, 0x00, 0x01, 0x00];
    assert(png@ =~= seq![0x89u8, 0x50u8, 0x4Eu8, 0x47u8, 0x0Du8, 0x0Au8, 0x1Au8, 0x0Au8]);
    assert(jpg@ =~= seq![0xFFu8, 0xD8u8, 0xFFu8]);
    assert(riff@ =~= seq![0x52u8, 0x49u8, 0x46u8, 0x46u8]);
    assert(webp@ =~= seq![0x57u8, 0x45u8, 0x42u8, 0x50u8]);
    assert(gif87@ =~= seq![0x47u8, 0x49u8, 0x46u8, 0x38u8, 0x37u8, 0x61u8]);
    assert(gif89@ =~= seq![0x47u8, 0x49u8, 0x46u8, 0x38u8, 0x39u8, 0x61u8]);
    assert(bmp@ =~= seq![0x42u8, 0x4Du8]);
    assert(ico@ =~= seq![0x00u8, 0x00u8, 0x01u8, 0x00u8]);
    if starts_with(bytes, png.as_slice()) {
        Ok("png")
    } else if starts_with(bytes, jpg.as_slice()) {
        Ok("jpg")
    } else if bytes.len() >= 12 && bytes_at(bytes, 0, riff.as_slice()) && bytes_at(
        bytes,
        8,
        webp.as_slice(),
    ) {
        Ok("webp")
    } else if starts_with(bytes, gif87.as_slice()) || starts_with(bytes, gif89.as_slice()) {
        Ok("gif")
    } else if starts_with(bytes, bmp.as_slice()) {
        Ok("bmp")
    } else if starts_with(bytes, ico.as_slice()) {
        Ok("ico")
    } else {
        Err(String::from_str("avatarInvalidType"))
    }
}

/// A file is accepted as an avatar only when it is a regular file of at
/// most `MAX_AVATAR_SIZE` bytes.
pub fn check_avatar_file(is_file: bool, size: u64) -> (r: Result<(), String>)
    ensures
        match r {
            Ok(()) => is_file && size <= MAX_AVATAR_SIZE,
            Err(e) => if !is_file {
                e@ == "avatarNotFound"@
            } else {
                size > MAX_AVATAR_SIZE && e@ == "avatarTooLarge"@
            },
        },
{
    if !is_file {
        return Err(String::from_str("avatarNotFound"));
    }
    if size > MAX_AVATAR_SIZE {
        return Err(String::from_str("avatarTooLarge"));
    }
    Ok(())
}

/// The extensions an avatar copy may have.
pub open spec fn avatar_extensions() -> Seq<Seq<char>> {
    seq!["png"@, "jpg"@, "webp"@, "gif"@, "bmp"@, "ico"@]
}

/// The file name of the avatar copy with extension `ext`.
pub open spec fn avatar_file_name_spec(ext: Seq<char>) -> Seq<char> {
    "user-avatar."@ + ext
}

/// The file name of the avatar copy with extension `ext`.
pub fn avatar_file_name(ext: &str) -> (s: String)
    ensures
        s@ == avatar_file_name_spec(ext@),
{
    concat_str("user-avatar.", ext)
}

/// The path, relative to the data directory, under which the
/// configuration records the avatar copy.
pub fn avatar_relative_path(ext: &str) -> (s: String)
    ensures
        s@ == AVATAR_DIR@ + "/"@ + avatar_file_name_spec(ext@),
{
    let mut s = concat_str(AVATAR_DIR, "/");
    let name = avatar_file_name(ext);
    s.append(name.as_str());
    s
}

/// The avatar file names of the extensions in `exts` other than `keep`,
/// in order.
pub open spec fn other_avatar_files(exts: Seq<Seq<char>>, keep: Option<Seq<char>>) -> Seq<
    Seq<char>,
>
    decreases exts.len(),
{
    if exts.len() == 0 {
        Seq::empty()
    } else {
        let rest = other_avatar_files(exts.drop_last(), keep);
        if keep == Some(exts.last()) {
            rest
        } else {
            rest.push(avatar_file_name_spec(exts.last()))
        }
    }
}

/// The names of the avatar files to remove: those of every extension but
/// `keep` (all of them when `keep` is `None`).
pub fn avatar_files_except(keep: Option<&str>) -> (r: Vec<String>)
    ensures
        r@.map_values(|s: String| s@) == other_avatar_files(
            avatar_extensions(),
            match keep {
                Some(k) => Some(k@),
                None => None,
            },
        ),
{
    let exts: [&str; 6] = ["png", "jpg", "webp", "gif", "bmp", "ico"];
    let ghost all = avatar_extensions();
    let ghost kv = match keep {
        Some(k) => Some(k@),
        None => None,
    };
    assert(exts@.map_values(|e: &str| e@) =~= all);
    let mut r: Vec<String> = Vec::new();
    let mut i: usize = 0;
    while i < 6
        invariant
            i <= 6,
            exts@.len() == 6,
            exts@.map_values(|e: &str| e@) == all,
            all == avatar_extensions(),
            kv == match keep {
                Some(k) => Some(k@),
                None => None,
            },
            r@.map_values(|s: String| s@) == other_avatar_files(all.take(i as int), kv),
        decreases 6 - i,
    {
        let e = exts[i];
        assert(all[i as int] == e@);
        assert(all.take(i + 1 as int).drop_last() =~= all.take(i as int));
        assert(all.take(i + 1 as int).last() == e@);
        let skip = match keep {
            Some(k) => {
                let same = String::from_str(k) == String::from_str(e);
                assert(same == (k@ == e@));
                same
            },
            None => false,
        };
        assert(skip == (kv == Some(e@)));
        if !skip {
            let ghost before = r@;
            let name = avatar_file_name(e);
            r.push(name);
            assert(r@.map_values(|s: String| s@) =~= before.map_values(|s: String| s@).push(
                name@,
            ));
        }
        i = i + 1;
    }
    assert(all.take(6) =~= all);
    r
}

} // verus!
