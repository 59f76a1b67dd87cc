//! File names of snapshots: every one of them ends in the extension
//! `vstruc`.

use std::path::Path;
use vstd::prelude::*;
use vstd::string::{StrSliceExecFns, StringExecFns};

verus! {

/// The file name of `path` as `std::path::Path::file_name` reports it.
pub uninterp spec fn path_file_name(path: Seq<char>) -> Option<Seq<char>>;

/// The extension of `path` as `std::path::Path::extension` reports it.
pub uninterp spec fn path_extension(path: Seq<char>) -> Option<Seq<char>>;

/// The path that `std::path::PathBuf::set_extension` makes of `path` when
/// given `extension`.
pub uninterp spec fn path_with_extension(path: Seq<char>, extension: Seq<char>) -> Seq<char>;

/// The characters of an optional string.
pub open spec fn name_of(path: Option<String>) -> Option<Seq<char>> {
    match path {
        Some(p) => Some(p@),
        None => None,
    }
}

/// The extension that marks a snapshot file.
pub open spec fn snapshot_extension() -> Seq<char> {
    "vstruc"@
}

/// Whether `s` holds a character that separates the parts of a path on some
/// platform.
pub open spec fn has_separator(s: Seq<char>) -> bool {
    exists|i: int| 0 <= i < s.len() && (#[trigger] s[i] == '/' || s[i] == '\\')
}

/// Whether `s` holds a dot.
pub open spec fn has_dot(s: Seq<char>) -> bool {
    exists|i: int| 0 <= i < s.len() && #[trigger] s[i] == '.'
}

/// What follows the last dot of `s`, and all of `s` where it holds none.
pub open spec fn after_last_dot(s: Seq<char>) -> Seq<char>
    decreases s.len(),
{
    if s.len() == 0 || s.last() == '.' {
        Seq::empty()
    } else {
        after_last_dot(s.drop_last()).push(s.last())
    }
}

/// The extension to set on a path whose extension was read as `found`, so
/// that the snapshot extension comes behind the whole name: the snapshot
/// extension alone where the path has none, and else the old extension, a
/// dot and the snapshot extension. An old extension with a separator in it
/// cannot be set again and is given up.
pub open spec fn extension_after(found: Option<Seq<char>>) -> Seq<char> {
    match found {
        Some(old) if !has_separator(old) => old + ".vstruc"@,
        _ => snapshot_extension(),
    }
}

/// The name under which a snapshot asked for as `path` is kept. A path that
/// names no file, and one whose extension is the snapshot extension, is
/// kept as it is. Any other gets the snapshot extension behind its file
/// name, which is kept whole.
pub open spec fn snapshot_path(path: Seq<char>) -> Seq<char> {
    if path_file_name(path) is None || path_extension(path) == Some(snapshot_extension()) {
        path
    } else {
        path_with_extension(path, extension_after(path_extension(path)))
    }
}

/// Nothing follows a last dot but what stands behind it.
pub proof fn lemma_after_last_dot(front: Seq<char>, back: Seq<char>)
    requires
        !has_dot(back),
    ensures
        after_last_dot(front + seq!['.'] + back) == back,
        after_last_dot(back) == back,
    decreases back.len(),
{
    let whole = front + seq!['.'] + back;
    if back.len() == 0 {
        assert(whole.last() == '.');
        assert(back =~= Seq::empty());
    } else {
        let rest = back.drop_last();
        assert(back[back.len() - 1] != '.');
        assert forall|i: int| 0 <= i < rest.len() implies #[trigger] rest[i] != '.' by {
            assert(back[i] != '.');
        }
        lemma_after_last_dot(front, rest);
        assert(whole.drop_last() =~= front + seq!['.'] + rest);
        assert(whole.last() == back.last());
        assert(rest.push(back.last()) =~= back);
    }
}

/// Calls `std::path::Path::file_name` on `path`. Nothing is proved of the
/// call: its result is what `path_file_name` names.
#[verifier::external_body]
fn file_name_of(path: &str) -> (name: Option<String>)
    ensures
        name_of(name) == path_file_name(path@),
{
    match Path::new(path).file_name() {
        Some(name) => Some(name.to_string_lossy().into_owned()),
        None => None,
    }
}

/// Calls `std::path::Path::extension` on `path`. Nothing is proved of the
/// call: its result is what `path_extension` names.
#[verifier::external_body]
fn extension_of(path: &str) -> (extension: Option<String>)
    ensures
        name_of(extension) == path_extension(path@),
{
    match Path::new(path).extension() {
        Some(extension) => Some(extension.to_string_lossy().into_owned()),
        None => None,
    }
}

/// Calls `std::path::PathBuf::set_extension` on a copy of `path`. Nothing
/// is proved of the call. Its result is what `path_with_extension` names,
/// and the contract claims what the documentation of the call says of it:
/// on a path with a file name the extension is updated, and what the path
/// then shows as its extension is the part of the given one after its last
/// dot. The call panics on an extension with a separator in it, which the
/// precondition leaves out, as it does the empty extension, which takes
/// the extension away.
#[verifier::external_body]
fn with_extension(path: &str, extension: &str) -> (out: String)
    requires
        extension@.len() > 0,
        !has_separator(extension@),
    ensures
        out@ == path_with_extension(path@, extension@),
        path_file_name(path@) is Some ==> path_extension(out@) == Some(
            after_last_dot(extension@),
        ),
{
    let mut buf = Path::new(path).to_path_buf();
    buf.set_extension(extension);
    buf.to_string_lossy().into_owned()
}

/// Whether `path` names a file.
pub fn names_file(path: &str) -> (names: bool)
    ensures
        names == (path_file_name(path@) is Some),
{
    file_name_of(path).is_some()
}

/// Whether an extension, as read off a path, is the snapshot extension.
pub fn is_snapshot_extension(extension: &Option<String>) -> (is: bool)
    ensures
        is == (name_of(*extension) == Some(snapshot_extension())),
{
    match extension {
        Some(found) => {
            let wanted = "vstruc".to_owned();
            *found == wanted
        },
        None => false,
    }
}

/// Whether `s` holds a slash or a backslash.
pub fn holds_separator(s: &str) -> (found: bool)
    ensures
        found == has_separator(s@),
{
    let len: usize = s.unicode_len();
    let mut at: usize = 0;
    while at < len
        invariant
            len == s@.len(),
            at <= len,
            forall|i: int| 0 <= i < at ==> #[trigger] s@[i] != '/' && s@[i] != '\\',
        decreases len - at,
    {
        let c = s.get_char(at);
        if c == '/' || c == '\\' {
            return true;
        }
        at += 1;
    }
    false
}

/// The extension to set on a path whose extension was read as `found`.
pub fn new_extension(found: &Option<String>) -> (extension: String)
    ensures
        extension@ == extension_after(name_of(*found)),
        extension@.len() > 0,
        !has_separator(extension@),
        after_last_dot(extension@) == snapshot_extension(),
{
    proof {
        reveal_strlit("vstruc");
        reveal_strlit(".vstruc");
        assert(".vstruc"@ =~= seq!['.'] + "vstruc"@);
    }
    match found {
        Some(old) => {
            if holds_separator(old.as_str()) {
                proof {
                    lemma_after_last_dot(Seq::empty(), "vstruc"@);
                }
                "vstruc".to_owned()
            } else {
                proof {
                    lemma_after_last_dot(old@, "vstruc"@);
                    assert(old@ + ".vstruc"@ =~= old@ + seq!['.'] + "vstruc"@);
                }
                old.clone().concat(".vstruc")
            }
        },
        None => {
            proof {
                lemma_after_last_dot(Seq::empty(), "vstruc"@);
            }
            "vstruc".to_owned()
        },
    }
}

/// The name under which a snapshot asked for as `string` is kept. Where
/// `string` names a file, the kept name has the snapshot extension; in
/// every case the kept name, asked for again, is kept as it is.
pub fn string_to_path_buf(string: &str) -> (path: String)
    ensures
        path@ == snapshot_path(string@),
        path_file_name(string@) is Some ==> path_extension(path@) == Some(snapshot_extension()),
        path_file_name(string@) is None ==> path@ == string@,
        snapshot_path(path@) == path@,
{
    if !names_file(string) {
        return string.to_owned();
    }
    let extension = extension_of(string);
    if is_snapshot_extension(&extension) {
        string.to_owned()
    } else {
        let wanted = new_extension(&extension);
        with_extension(string, wanted.as_str())
    }
}

} // verus!
