//! Choosing an output path that does not exist yet: `dir/name.ext`, else
//! `dir/name (1).ext`, `dir/name (2).ext`, and so on.
use crate::ppm::{append_decimal, decimal};
use vstd::prelude::*;

verus! {

/// What `std::path::Path::parent` gives for `path`, as text.
pub uninterp spec fn parent_of(path: Seq<char>) -> Option<Seq<char>>;

/// What `std::path::Path::file_stem` gives for `path`, as text.
pub uninterp spec fn file_stem_of(path: Seq<char>) -> Option<Seq<char>>;

/// What `std::path::Path::extension` gives for `path`, as text.
pub uninterp spec fn extension_of(path: Seq<char>) -> Option<Seq<char>>;

/// Relies on `std::path::Path::parent`: the path without its final component.
#[verifier::external_body]
fn parent_text(s: &str) -> (r: Option<String>)
    ensures
        match r {
            Some(p) => parent_of(s@) == Some(p@),
            None => parent_of(s@) is None,
        },
{
    std::path::Path::new(s).parent().and_then(std::path::Path::to_str).map(str::to_owned)
}

/// Relies on `std::path::Path::file_stem`: the file name without its extension.
#[verifier::external_body]
fn file_stem_text(s: &str) -> (r: Option<String>)
    ensures
        match r {
            Some(p) => file_stem_of(s@) == Some(p@),
            None => file_stem_of(s@) is None,
        },
{
    std::path::Path::new(s)
        .file_stem()
        .map(std::path::Path::new)
        .and_then(std::path::Path::to_str)
        .map(str::to_owned)
}

/// Relies on `std::path::Path::extension`: the extension of the file name.
#[verifier::external_body]
fn extension_text(s: &str) -> (r: Option<String>)
    ensures
        match r {
            Some(p) => extension_of(s@) == Some(p@),
            None => extension_of(s@) is None,
        },
{
    std::path::Path::new(s)
        .extension()
        .map(std::path::Path::new)
        .and_then(std::path::Path::to_str)
        .map(str::to_owned)
}

/// The directory part that goes before a file name: the parent with a separator after
/// it, or nothing when the path has no parent or an empty one.
pub open spec fn dir_prefix(parent: Option<Seq<char>>) -> Seq<char> {
    match parent {
        Some(p) => if p.len() > 0 {
            p + "/"@
        } else {
            Seq::empty()
        },
        None => Seq::empty(),
    }
}

/// The file name `stem (n).ext` after the directory part `dir`.
pub open spec fn numbered(dir: Seq<char>, stem: Seq<char>, n: nat, ext: Seq<char>) -> Seq<char> {
    dir + stem + " ("@ + decimal(n) + ")."@ + ext
}

/// The `k`-th path tried for `path`: the path itself first, then the numbered ones.
pub open spec fn candidate(path: Seq<char>, k: nat) -> Seq<char> {
    if k == 0 {
        path
    } else {
        numbered(
            dir_prefix(parent_of(path)),
            file_stem_of(path).unwrap(),
            k,
            extension_of(path).unwrap(),
        )
    }
}

/// Whether `f` has answered `answer` on a text equal to `path`.
pub open spec fn answered<F: Fn(&str) -> bool>(f: F, path: Seq<char>, answer: bool) -> bool {
    exists|c: &str| c@ == path && #[trigger] f.ensures((c,), answer)
}

/// Builds `dir` followed by the file name `stem (n).ext`.
pub fn numbered_path(dir: &str, stem: &str, n: usize, ext: &str) -> (r: String)
    ensures
        r@ == numbered(dir@, stem@, n as nat, ext@),
{
    let mut out = String::new();
    out.append(dir);
    out.append(stem);
    out.append(" (");
    append_decimal(&mut out, n);
    out.append(").");
    out.append(ext);
    assert(out@ =~= numbered(dir@, stem@, n as nat, ext@));
    out
}

/// Given a file path, finds a path that `exists_fn` says does not exist: the path itself,
/// else the same path with ` (1)`, ` (2)`, ... put before the extension, the first that
/// `exists_fn` rejects. Gives `None` when the path has no file stem or no extension, and
/// when every number up to the largest `usize` is taken.
pub fn pad_filepath<F: Fn(&str) -> bool>(s: &str, exists_fn: F) -> (r: Option<String>)
    requires
        forall|c: &str| #[trigger] exists_fn.requires((c,)),
    ensures
        file_stem_of(s@) is None || extension_of(s@) is None ==> r is None,
        match r {
            Some(out) => file_stem_of(s@) is Some && extension_of(s@) is Some && exists|k: nat|
                k < usize::MAX && out@ == #[trigger] candidate(s@, k) && answered(
                    exists_fn,
                    out@,
                    false,
                ) && forall|j: nat|
                    j < k ==> answered(exists_fn, #[trigger] candidate(s@, j), true),
            None => file_stem_of(s@) is None || extension_of(s@) is None || forall|j: nat|
                j < usize::MAX ==> answered(exists_fn, #[trigger] candidate(s@, j), true),
        },
{
    let stem = match file_stem_text(s) {
        Some(t) => t,
        None => {
            return None;
        },
    };
    let ext = match extension_text(s) {
        Some(t) => t,
        None => {
            return None;
        },
    };
    let dir = match parent_text(s) {
        Some(p) => {
            if p.as_str().is_empty() {
                String::new()
            } else {
                let mut d = p.clone();
                d.append("/");
                d
            }
        },
        None => String::new(),
    };
    assert(dir@ =~= dir_prefix(parent_of(s@)));
    let mut x: usize = 0;
    let mut res = s.to_owned();
    loop
        invariant
            forall|c: &str| #[trigger] exists_fn.requires((c,)),
            file_stem_of(s@) == Some(stem@),
            extension_of(s@) == Some(ext@),
            dir@ == dir_prefix(parent_of(s@)),
            x < usize::MAX,
            res@ == candidate(s@, x as nat),
            forall|j: nat| j < x ==> answered(exists_fn, #[trigger] candidate(s@, j), true),
        decreases usize::MAX - x,
    {
        let taken = exists_fn(res.as_str());
        assert(answered(exists_fn, res@, taken));
        if !taken {
            assert(res@ == candidate(s@, x as nat) && answered(exists_fn, res@, false));
            return Some(res);
        }
        assert(answered(exists_fn, candidate(s@, x as nat), true));
        if x == usize::MAX - 1 {
            return None;
        }
        x = x + 1;
        res = numbered_path(dir.as_str(), stem.as_str(), x, ext.as_str());
    }
}

} // verus!
