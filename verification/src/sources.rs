//! Integrity rules for the measurement files a fixture declares: each
//! declaration names a safe relative path once, and the file must still have
//! the declared SHA-256 digest and size.

use sha2::{Digest, Sha256};
use std::path::{Component, Path};
use vstd::prelude::*;
use crate::text::{chars_of, push_char, push_decimal, push_str, is_blank, is_blank_str};

verus! {

// ---------------------------------------------------------------------------
// SHA-256 digests as lowercase hexadecimal
// ---------------------------------------------------------------------------

/// What `Sha256::digest` returns for `data`: its SHA-256 digest.
pub uninterp spec fn sha256(data: Seq<u8>) -> Seq<u8>;

/// `Sha256::digest` (new hasher, one update, finalize): the 32-byte SHA-256
/// digest of `data`.
#[verifier::external_body]
fn sha256_digest(data: &[u8]) -> (digest: Vec<u8>)
    ensures
        digest@ == sha256(data@),
        digest@.len() == 32,
{
    Sha256::digest(data).to_vec()
}

pub open spec fn hex_digit(value: nat) -> char {
    if value < 10 {
        ((value + 48) as u32) as char
    } else {
        ((value + 87) as u32) as char
    }
}

/// Two lowercase hexadecimal digits per byte, most significant first, as
/// `format!("{byte:02x}")` writes them.
pub open spec fn hex_lower(bytes: Seq<u8>) -> Seq<char>
    decreases bytes.len(),
{
    if bytes.len() == 0 {
        seq![]
    } else {
        hex_lower(bytes.drop_last()) + seq![
            hex_digit((bytes.last() / 16) as nat),
            hex_digit((bytes.last() % 16) as nat),
        ]
    }
}

fn exec_hex_digit(value: u8) -> (c: char)
    requires
        value < 16,
    ensures
        c == hex_digit(value as nat),
{
    if value < 10 {
        (value + 48) as char
    } else {
        (value + 87) as char
    }
}

/// Renders bytes as lowercase hexadecimal, two digits per byte.
pub fn hex_string(bytes: &[u8]) -> (text: String)
    ensures
        text@ == hex_lower(bytes@),
{
    let mut text = String::new();
    let mut i: usize = 0;
    while i < bytes.len()
        invariant
            i <= bytes@.len(),
            text@ == hex_lower(bytes@.take(i as int)),
        decreases bytes@.len() - i,
    {
        let byte = bytes[i];
        push_char(&mut text, exec_hex_digit(byte / 16));
        push_char(&mut text, exec_hex_digit(byte % 16));
        i += 1;
        assert(bytes@.take(i as int).drop_last() == bytes@.take(i - 1));
    }
    assert(bytes@.take(i as int) == bytes@);
    text
}

/// The SHA-256 digest of `bytes` in lowercase hexadecimal.
pub fn sha256_bytes(bytes: &[u8]) -> (hex: String)
    ensures
        hex@ == hex_lower(sha256(bytes@)),
        hex@.len() == 64,
{
    let digest = sha256_digest(bytes);
    let hex = hex_string(digest.as_slice());
    proof {
        lemma_hex_lower_len(digest@);
    }
    hex
}

proof fn lemma_hex_lower_len(bytes: Seq<u8>)
    ensures
        hex_lower(bytes).len() == 2 * bytes.len(),
    decreases bytes.len(),
{
    if bytes.len() > 0 {
        lemma_hex_lower_len(bytes.drop_last());
    }
}

// ---------------------------------------------------------------------------
// Relative paths
// ---------------------------------------------------------------------------

/// The kind of one component of a path, as the platform's path syntax reads it.
#[derive(Clone, Copy, Debug, PartialEq, Eq)]
pub enum PathComponentKind {
    Prefix,
    RootDir,
    CurDir,
    ParentDir,
    Normal,
}

/// A path read the same way by every platform's path syntax: no `\` and
/// no `:` (which Windows reads as separators and prefixes) and no leading
/// `//` (a network prefix on Windows). Only `/` separates its components.
pub open spec fn portable_path(p: Seq<char>) -> bool {
    &&& forall|i: int| 0 <= i < p.len() ==> #[trigger] p[i] != '\\' && p[i] != ':'
    &&& !(p.len() >= 2 && p[0] == '/' && p[1] == '/')
}

/// The path starts with a separator, so it is read from the root.
pub open spec fn starts_at_root(p: Seq<char>) -> bool {
    p.len() > 0 && p[0] == '/'
}

/// The first component is `.`.
pub open spec fn starts_with_current_dir(p: Seq<char>) -> bool {
    p.len() > 0 && p[0] == '.' && (p.len() == 1 || p[1] == '/')
}

/// A `..` component starts at position `i`.
pub open spec fn parent_segment_at(p: Seq<char>, i: int) -> bool {
    &&& 0 <= i
    &&& i + 2 <= p.len()
    &&& p[i] == '.'
    &&& p[i + 1] == '.'
    &&& (i == 0 || p[i - 1] == '/')
    &&& (i + 2 == p.len() || p[i + 2] == '/')
}

/// Some `/`-delimited component of the path is `..`.
pub open spec fn has_parent_segment(p: Seq<char>) -> bool {
    exists|i: int| #[trigger] parent_segment_at(p, i)
}

/// `Path::is_absolute` under the platform's path syntax. std documents that
/// a Unix path is absolute exactly when it starts at the root and that a
/// Windows path is absolute only with a prefix and a root; so a portable
/// path that is absolute starts with `/`. Which other paths are absolute is
/// left to the platform.
#[verifier::external_body]
fn path_is_absolute(path: &str) -> (absolute: bool)
    ensures
        portable_path(path@) && absolute ==> starts_at_root(path@),
{
    Path::new(path).is_absolute()
}

/// `Path::components`, each component reduced to its kind. For a portable
/// path std documents that components lie between `/` separators, that a
/// leading separator is the root, that `.` is dropped except at the
/// beginning, that `..` is kept as a parent component and that nothing else
/// is normalized, and a prefix needs Windows' `:` or `\`. So: a `..`
/// component, a leading `/` and a leading `.` each show up as their kind,
/// no other kind than an ordinary name appears, and the empty path has no
/// components. How other paths are split is left to the platform.
#[verifier::external_body]
fn path_component_kinds(path: &str) -> (kinds: Vec<PathComponentKind>)
    ensures
        portable_path(path@) ==> {
            &&& has_parent_segment(path@) ==> kinds@.contains(PathComponentKind::ParentDir)
            &&& starts_at_root(path@) ==> kinds@.contains(PathComponentKind::RootDir)
            &&& starts_with_current_dir(path@) ==> kinds@.contains(PathComponentKind::CurDir)
            &&& forall|i: int|
                0 <= i < kinds@.len() ==> match #[trigger] kinds@[i] {
                    PathComponentKind::Prefix => false,
                    PathComponentKind::RootDir => starts_at_root(path@),
                    PathComponentKind::CurDir => starts_with_current_dir(path@),
                    PathComponentKind::ParentDir => has_parent_segment(path@),
                    PathComponentKind::Normal => true,
                }
            &&& path@.len() == 0 ==> kinds@.len() == 0
        },
{
    Path::new(path).components().map(|component| match component {
        Component::Prefix(_) => PathComponentKind::Prefix,
        Component::RootDir => PathComponentKind::RootDir,
        Component::CurDir => PathComponentKind::CurDir,
        Component::ParentDir => PathComponentKind::ParentDir,
        Component::Normal(_) => PathComponentKind::Normal,
    }).collect()
}

/// A relative path made only of ordinary names stays inside its root.
pub open spec fn spec_relative_path_is_safe(is_absolute: bool, kinds: Seq<PathComponentKind>) -> bool {
    !is_absolute && forall|i: int| 0 <= i < kinds.len() ==> #[trigger] kinds[i] == PathComponentKind::Normal
}

/// Decides path safety from its parsed form: not absolute, and no prefix,
/// root, `.` or `..` component.
pub fn relative_path_is_safe(is_absolute: bool, kinds: &Vec<PathComponentKind>) -> (safe: bool)
    ensures
        safe == spec_relative_path_is_safe(is_absolute, kinds@),
{
    if is_absolute {
        return false;
    }
    let mut i: usize = 0;
    while i < kinds.len()
        invariant
            i <= kinds@.len(),
            forall|j: int| 0 <= j < i ==> #[trigger] kinds@[j] == PathComponentKind::Normal,
        decreases kinds@.len() - i,
    {
        match kinds[i] {
            PathComponentKind::Normal => {},
            _ => {
                return false;
            },
        }
        i += 1;
    }
    true
}

/// A path that cannot leave the directory it is joined to, read with the
/// platform's path syntax: not absolute, and made only of ordinary names.
/// A portable path is safe exactly when it does not start at the root or
/// with `.`, and no component of it is `..`; the empty path is safe.
pub fn safe_relative_path(path: &str) -> (safe: bool)
    ensures
        portable_path(path@) ==> (safe <==> (!starts_at_root(path@) && !starts_with_current_dir(path@)
            && !has_parent_segment(path@))),
{
    let is_absolute = path_is_absolute(path);
    let kinds = path_component_kinds(path);
    let safe = relative_path_is_safe(is_absolute, &kinds);
    proof {
        if portable_path(path@) {
            if starts_at_root(path@) {
                let i = kinds@.index_of(PathComponentKind::RootDir);
                assert(kinds@[i] != PathComponentKind::Normal);
            } else if starts_with_current_dir(path@) {
                let i = kinds@.index_of(PathComponentKind::CurDir);
                assert(kinds@[i] != PathComponentKind::Normal);
            } else if has_parent_segment(path@) {
                let i = kinds@.index_of(PathComponentKind::ParentDir);
                assert(kinds@[i] != PathComponentKind::Normal);
            } else {
                assert forall|i: int| 0 <= i < kinds@.len() implies #[trigger] kinds@[i] == PathComponentKind::Normal by {
                    match kinds@[i] {
                        PathComponentKind::Normal => {},
                        _ => {},
                    }
                }
            }
        }
    }
    safe
}

// ---------------------------------------------------------------------------
// Source declarations
// ---------------------------------------------------------------------------

/// One measurement file a fixture depends on.
#[derive(Debug, Clone, Copy)]
pub struct SourceDeclaration<'a> {
    pub id: &'a str,
    pub relative_path: &'a str,
    pub sha256: &'a str,
    pub bytes: u64,
}

/// What checking one declaration before touching the file decides, given
/// the paths already declared and whether the path is safe.
pub open spec fn declaration_verdict(seen: Seq<Seq<char>>, id: Seq<char>, path: Seq<char>, path_safe: bool) -> Result<(), Seq<char>> {
    if is_blank(id) {
        Err("source declaration id must not be empty"@)
    } else if !path_safe {
        Err("source `"@ + id + "` has unsafe path `"@ + path + "`"@)
    } else if seen.contains(path) {
        Err("duplicate source path `"@ + path + "` in fixture"@)
    } else {
        Ok(())
    }
}

/// A path admitted once is refused as a duplicate afterwards, whatever the
/// later declaration's id.
pub proof fn lemma_admitted_path_cannot_repeat(seen: Seq<Seq<char>>, id: Seq<char>, path: Seq<char>, later_id: Seq<char>)
    requires
        declaration_verdict(seen, id, path, true) is Ok,
    ensures
        declaration_verdict(seen.push(path), later_id, path, true) is Err,
{
    assert(seen.push(path)[seen.len() as int] == path);
}

pub open spec fn texts_of(paths: Seq<String>) -> Seq<Seq<char>> {
    paths.map_values(|p: String| p@)
}

pub open spec fn unit_result_view(r: Result<(), String>) -> Result<(), Seq<char>> {
    match r {
        Ok(()) => Ok(()),
        Err(message) => Err(message@),
    }
}

fn seen_contains(seen: &Vec<String>, path: &str) -> (found: bool)
    ensures
        found == texts_of(seen@).contains(path@),
{
    let mut i: usize = 0;
    while i < seen.len()
        invariant
            i <= seen@.len(),
            forall|j: int| 0 <= j < i ==> #[trigger] seen@[j]@ != path@,
        decreases seen@.len() - i,
    {
        let candidate = chars_of(seen[i].as_str());
        let wanted = chars_of(path);
        match crate::text::compare_chars(&candidate, &wanted) {
            crate::text::Order3::Equal => {
                proof {
                    assert(texts_of(seen@)[i as int] == path@);
                }
                return true;
            },
            _ => {},
        }
        i += 1;
    }
    proof {
        assert forall|j: int| 0 <= j < texts_of(seen@).len() implies texts_of(seen@)[j] != path@ by {
            assert(texts_of(seen@)[j] == seen@[j]@);
        }
    }
    false
}

/// Checks one declaration against the paths declared before it: a
/// non-blank id, a safe path, and no path declared twice. On success the
/// path joins `seen`.
pub fn admit_declaration(seen: &mut Vec<String>, declaration: &SourceDeclaration, path_safe: bool) -> (r: Result<(), String>)
    ensures
        unit_result_view(r) == declaration_verdict(
            texts_of(old(seen)@),
            declaration.id@,
            declaration.relative_path@,
            path_safe,
        ),
        r is Ok ==> texts_of(final(seen)@) == texts_of(old(seen)@).push(declaration.relative_path@),
        r is Err ==> final(seen)@ == old(seen)@,
{
    if is_blank_str(declaration.id) {
        return Err("source declaration id must not be empty".to_owned());
    }
    if !path_safe {
        let mut message = "source `".to_owned();
        push_str(&mut message, declaration.id);
        push_str(&mut message, "` has unsafe path `");
        push_str(&mut message, declaration.relative_path);
        push_str(&mut message, "`");
        return Err(message);
    }
    if seen_contains(seen, declaration.relative_path) {
        let mut message = "duplicate source path `".to_owned();
        push_str(&mut message, declaration.relative_path);
        push_str(&mut message, "` in fixture");
        return Err(message);
    }
    let ghost before = seen@;
    seen.push(declaration.relative_path.to_owned());
    proof {
        assert(texts_of(seen@) == texts_of(before).push(declaration.relative_path@));
    }
    Ok(())
}

/// A file that resolves outside the source root is rejected.
pub fn escaped_root_error(id: &str) -> (message: String)
    ensures
        message@ == "source `"@ + id@ + "` escapes the declared source root"@,
{
    let mut message = "source `".to_owned();
    push_str(&mut message, id);
    push_str(&mut message, "` escapes the declared source root");
    message
}

/// The file must still have the declared digest and size.
pub fn check_source_digest(declaration: &SourceDeclaration, sha256_hex: &str, bytes: u64) -> (r: Result<(), String>)
    ensures
        r is Ok <==> (sha256_hex@ == declaration.sha256@ && bytes == declaration.bytes),
        r matches Err(message) ==> message@ == "source `"@ + declaration.id@
            + "` hash or size changed; regenerate the fixture"@,
{
    let actual = chars_of(sha256_hex);
    let declared = chars_of(declaration.sha256);
    let same_digest = match crate::text::compare_chars(&actual, &declared) {
        crate::text::Order3::Equal => true,
        _ => false,
    };
    if !same_digest || bytes != declaration.bytes {
        let mut message = "source `".to_owned();
        push_str(&mut message, declaration.id);
        push_str(&mut message, "` hash or size changed; regenerate the fixture");
        return Err(message);
    }
    Ok(())
}

/// A fixture must declare at least one file.
pub fn check_any_source(verified_count: usize) -> (r: Result<(), String>)
    ensures
        r is Ok <==> verified_count > 0,
        r matches Err(message) ==> message@ == "fixture must declare at least one source file"@,
{
    if verified_count == 0 {
        return Err("fixture must declare at least one source file".to_owned());
    }
    Ok(())
}

} // verus!
