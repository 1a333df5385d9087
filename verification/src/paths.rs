//! Paths of modules, sources and deployment targets.
//!
//! Component-wise path operations are those of `std::path::Path`; what the
//! tool decides on top of them (where a module lives, which targets are
//! acceptable, how `*` entries expand, the `##dot##` marker) is stated here.

use vstd::prelude::*;
use vstd::utf8::{valid_utf8, decode_utf8};
use crate::text::{chars_of, push_char, has_prefix, starts_with, string_from_chars, utf8_decode};

verus! {

/// `Path::join`: `child` appended to `base`.
pub uninterp spec fn path_join(base: Seq<char>, child: Seq<char>) -> Seq<char>;

/// `Path::parent`: the path without its last component.
pub uninterp spec fn path_parent(path: Seq<char>) -> Option<Seq<char>>;

/// `Path::ends_with`: the last components of `path` are those of `child`.
pub uninterp spec fn path_ends_with(path: Seq<char>, child: Seq<char>) -> bool;

/// `Path::starts_with`: the first components of `path` are those of `base`.
pub uninterp spec fn path_starts_with(path: Seq<char>, base: Seq<char>) -> bool;

/// `Path::strip_prefix`: `path` relative to `base`, when it lies under it.
pub uninterp spec fn path_strip_prefix(path: Seq<char>, base: Seq<char>) -> Option<Seq<char>>;

/// Joins two paths.
///
/// Trusted: wraps `Path::join`. As its documentation says, an absolute
/// `child` replaces `base`, and a relative one extends it after a separator;
/// the remaining case (an empty `base`) is only named.
#[verifier::external_body]
pub(crate) fn join(base: &str, child: &str) -> (r: String)
    ensures
        r@ == path_join(base@, child@),
        child@.len() > 0 && child@[0] == '/' ==> r@ == child@,
        !(child@.len() > 0 && child@[0] == '/') && base@.len() > 0 && base@.last() == '/' ==> r@ == base@ + child@,
        !(child@.len() > 0 && child@[0] == '/') && base@.len() > 0 && base@.last() != '/' ==> r@ == base@ + "/"@ + child@,
{
    std::path::Path::new(base).join(child).to_string_lossy().into_owned()
}

/// The parent of a path.
///
/// Trusted: wraps `Path::parent`; the result is named, not stated.
#[verifier::external_body]
pub(crate) fn parent(path: &str) -> (r: Option<String>)
    ensures
        r matches Some(p) ==> path_parent(path@) == Some(p@),
        r is None ==> path_parent(path@) is None,
{
    std::path::Path::new(path).parent().map(|p| p.to_string_lossy().into_owned())
}

/// Whether the last components of a path are `child`.
///
/// Trusted: wraps `Path::ends_with`; the result is named, not stated.
#[verifier::external_body]
pub(crate) fn ends_with_component(path: &str, child: &str) -> (r: bool)
    ensures
        r == path_ends_with(path@, child@),
{
    std::path::Path::new(path).ends_with(child)
}

/// Whether a path lies under `base`.
///
/// Trusted: wraps `Path::starts_with`; the result is named, not stated.
#[verifier::external_body]
pub(crate) fn starts_with_path(path: &str, base: &str) -> (r: bool)
    ensures
        r == path_starts_with(path@, base@),
{
    std::path::Path::new(path).starts_with(base)
}

/// A path relative to `base`.
///
/// Trusted: wraps `Path::strip_prefix`; the result is named, not stated.
#[verifier::external_body]
pub(crate) fn strip_prefix(path: &str, base: &str) -> (r: Option<String>)
    ensures
        r matches Some(p) ==> path_strip_prefix(path@, base@) == Some(p@),
        r is None ==> path_strip_prefix(path@, base@) is None,
{
    std::path::Path::new(path).strip_prefix(base).ok().map(|p| p.to_string_lossy().into_owned())
}

/// Errors about paths.
#[derive(Debug, Clone, Copy, PartialEq, Eq, Structural)]
pub enum PathError {
    /// The file name is not valid UTF-8.
    InvalidUnicode,
    /// A target that is not absolute.
    InvalidTarget,
    /// A target outside the user's home while system files may not be deployed.
    OutsideHome,
    /// Only one of source and target ends with `*`.
    WildcardMismatch,
    /// The target ends with `*` but there is no source.
    WildcardWithoutSource,
    /// A path given for expansion does not end with `*`.
    NoWildcard,
    /// A path has no parent directory.
    NoParent,
    /// A file found for expansion does not lie under the source directory.
    NotUnderSource,
    /// The source directory holds no file.
    NoFiles,
}

/// Transforms the bytes of a path into text; fails unless they are UTF-8.
pub fn path_to_string(path: &[u8]) -> (r: Result<String, PathError>)
    ensures
        valid_utf8(path@) ==> (r matches Ok(s) && s@ == decode_utf8(path@)),
        !valid_utf8(path@) ==> r == Err::<String, PathError>(PathError::InvalidUnicode),
{
    match utf8_decode(path) {
        Some(s) => Ok(s),
        None => Err(PathError::InvalidUnicode),
    }
}

/// `s` without every leading repetition of `p` (`str::trim_start_matches`).
pub open spec fn trim_leading(s: Seq<char>, p: Seq<char>) -> Seq<char>
    decreases s.len(),
{
    if p.len() > 0 && has_prefix(s, p) {
        trim_leading(s.skip(p.len() as int), p)
    } else {
        s
    }
}

/// Removes every leading repetition of `p` from `s`.
pub fn trim_start_matches(s: &str, p: &str) -> (r: String)
    ensures
        r@ == trim_leading(s@, p@),
{
    let cs = chars_of(s);
    let ps = chars_of(p);
    let mut i: usize = 0;
    if ps.len() == 0 {
        return string_from_chars(cs.as_slice());
    }
    assert(cs@.skip(0) =~= s@);
    while cs.len() - i >= ps.len()
        invariant
            cs@ == s@,
            ps@ == p@,
            ps@.len() > 0,
            i <= cs@.len(),
            trim_leading(cs@.skip(i as int), p@) == trim_leading(s@, p@),
        ensures
            i <= cs@.len(),
            trim_leading(cs@.skip(i as int), p@) == trim_leading(s@, p@),
            !has_prefix(cs@.skip(i as int), p@),
        decreases cs@.len() - i,
    {
        let mut k: usize = 0;
        while k < ps.len()
            invariant
                i <= cs@.len(),
                ps@.len() <= cs@.len() - i,
                i + ps.len() <= cs.len(),
                k <= ps@.len(),
                forall|j: int| 0 <= j < k ==> cs@[i + j] == ps@[j],
            ensures
                k <= ps@.len(),
                forall|j: int| 0 <= j < k ==> cs@[i + j] == ps@[j],
                k < ps@.len() ==> cs@[i + k] != ps@[k as int],
            decreases ps@.len() - k,
        {
            if cs[i + k] != ps[k] {
                break;
            }
            k = k + 1;
        }
        if k < ps.len() {
            proof {
                let rest = cs@.skip(i as int);
                assert(cs@[i + k] != ps@[k as int]);
                if has_prefix(rest, p@) {
                    assert(rest.take(p@.len() as int)[k as int] == p@[k as int]);
                }
            }
            break;
        }
        proof {
            let rest = cs@.skip(i as int);
            assert(rest.take(p@.len() as int) =~= p@);
            assert(rest.skip(p@.len() as int) =~= cs@.skip(i + ps@.len()));
        }
        i = i + ps.len();
    }
    let mut out = String::new();
    let mut j = i;
    while j < cs.len()
        invariant
            i <= j <= cs@.len(),
            out@ == cs@.subrange(i as int, j as int),
        decreases cs@.len() - j,
    {
        push_char(&mut out, cs[j]);
        j = j + 1;
        assert(out@ =~= cs@.subrange(i as int, j as int));
    }
    assert(out@ =~= cs@.skip(i as int));
    out
}

/// Where a module lives: host modules (`hosts/<name>`) under the hosts
/// root, every other module under the modules root.
pub open spec fn module_location(name: Seq<char>, modules_root: Seq<char>, hosts_root: Seq<char>) -> Seq<char> {
    if has_prefix(name, "hosts/"@) {
        path_join(hosts_root, trim_leading(name, "hosts/"@))
    } else {
        path_join(modules_root, name)
    }
}

/// Locates the directory of a module's configuration.
pub fn locate_module(module_name: &str, modules_root: &str, hosts_root: &str) -> (p: String)
    ensures
        p@ == module_location(module_name@, modules_root@, hosts_root@),
{
    if starts_with(module_name, "hosts/") {
        let rest = trim_start_matches(module_name, "hosts/");
        join(hosts_root, rest.as_str())
    } else {
        join(modules_root, module_name)
    }
}

/// An absolute path starts at the root.
pub open spec fn is_absolute(p: Seq<char>) -> bool {
    has_prefix(p, "/"@)
}

/// Where a source file lies: an absolute source stays, a relative one is
/// taken from the module's directory.
pub fn resolve_source(expanded: &str, location: &str) -> (p: String)
    ensures
        is_absolute(expanded@) ==> p@ == expanded@,
        !is_absolute(expanded@) ==> p@ == path_join(location@, expanded@),
{
    if starts_with(expanded, "/") {
        string_from_chars(chars_of(expanded).as_slice())
    } else {
        join(location, expanded)
    }
}

/// A target must be absolute once expanded.
pub fn resolve_target(expanded: &str) -> (r: Result<String, PathError>)
    ensures
        is_absolute(expanded@) ==> (r matches Ok(p) && p@ == expanded@),
        !is_absolute(expanded@) ==> r == Err::<String, PathError>(PathError::InvalidTarget),
{
    if starts_with(expanded, "/") {
        Ok(string_from_chars(chars_of(expanded).as_slice()))
    } else {
        Err(PathError::InvalidTarget)
    }
}

/// Targets outside the user's home are refused unless system files may be
/// deployed.
pub fn check_target_location(target: &str, home: &str, deploy_sys_files: bool) -> (r: Result<(), PathError>)
    ensures
        r is Err <==> !deploy_sys_files && !path_starts_with(target@, home@),
        r is Err ==> r == Err::<(), PathError>(PathError::OutsideHome),
{
    if !deploy_sys_files && !starts_with_path(target, home) {
        Err(PathError::OutsideHome)
    } else {
        Ok(())
    }
}

/// A path whose last component is `*`.
pub open spec fn is_wildcard(p: Seq<char>) -> bool {
    path_ends_with(p, "*"@)
}

/// Whether an entry expands a directory (see [`needs_wildcard_expansion`]).
pub open spec fn wildcard_decision(source: Option<Seq<char>>, target: Seq<char>) -> Result<bool, PathError> {
    match source {
        Some(s) => if is_wildcard(s) && is_wildcard(target) {
            Ok(true)
        } else if is_wildcard(s) || is_wildcard(target) {
            Err(PathError::WildcardMismatch)
        } else {
            Ok(false)
        },
        None => if is_wildcard(target) {
            Err(PathError::WildcardWithoutSource)
        } else {
            Ok(false)
        },
    }
}

/// Whether a file entry expands a directory: both source and target end in
/// `*`. Only one of them doing so, or a wildcard target without source, is
/// an error.
pub fn needs_wildcard_expansion(source: &Option<String>, target: &str) -> (r: Result<bool, PathError>)
    ensures
        r == wildcard_decision(
            match source {
                Some(s) => Some(s@),
                None => None,
            },
            target@,
        ),
        match source {
            Some(s) => if is_wildcard(s@) && is_wildcard(target@) {
                r == Ok::<bool, PathError>(true)
            } else if is_wildcard(s@) || is_wildcard(target@) {
                r == Err::<bool, PathError>(PathError::WildcardMismatch)
            } else {
                r == Ok::<bool, PathError>(false)
            },
            None => if is_wildcard(target@) {
                r == Err::<bool, PathError>(PathError::WildcardWithoutSource)
            } else {
                r == Ok::<bool, PathError>(false)
            },
        },
{
    let target_wild = ends_with_component(target, "*");
    match source {
        Some(s) => {
            let source_wild = ends_with_component(s.as_str(), "*");
            if source_wild && target_wild {
                Ok(true)
            } else if source_wild || target_wild {
                Err(PathError::WildcardMismatch)
            } else {
                Ok(false)
            }
        },
        None => if target_wild {
            Err(PathError::WildcardWithoutSource)
        } else {
            Ok(false)
        },
    }
}

/// The directories that a `*` source and target stand for.
pub fn wildcard_parents(source: &str, target: &str) -> (r: Result<(String, String), PathError>)
    ensures
        !(is_wildcard(source@) && is_wildcard(target@)) ==> r == Err::<(String, String), PathError>(
            PathError::NoWildcard,
        ),
        is_wildcard(source@) && is_wildcard(target@) ==> match (path_parent(source@), path_parent(target@)) {
            (Some(sp), Some(tp)) => (r matches Ok(ps) && ps.0@ == sp && ps.1@ == tp),
            _ => r == Err::<(String, String), PathError>(PathError::NoParent),
        },
{
    if !ends_with_component(source, "*") || !ends_with_component(target, "*") {
        return Err(PathError::NoWildcard);
    }
    let sp = match parent(source) {
        Some(p) => p,
        None => {
            return Err(PathError::NoParent);
        },
    };
    let tp = match parent(target) {
        Some(p) => p,
        None => {
            return Err(PathError::NoParent);
        },
    };
    Ok((sp, tp))
}

/// The (source, target) pairs of an expansion: each file found under the
/// source directory, and the same relative path under the target directory.
pub open spec fn expanded_pairs(source_dir: Seq<char>, target_dir: Seq<char>, files: Seq<Seq<char>>) -> Option<
    Seq<(Seq<char>, Seq<char>)>,
>
    decreases files.len(),
{
    if files.len() == 0 {
        Some(Seq::empty())
    } else {
        match (expanded_pairs(source_dir, target_dir, files.drop_last()), path_strip_prefix(files.last(), source_dir)) {
            (Some(ps), Some(rel)) => Some(ps.push((files.last(), path_join(target_dir, rel)))),
            _ => None,
        }
    }
}

/// The (source, target) pairs that expanding a `*` source and target
/// gives, or the error (see [`expand_wildcards`]).
pub open spec fn wildcard_pairs(source: Seq<char>, target: Seq<char>, files: Seq<Seq<char>>) -> Result<
    Seq<(Seq<char>, Seq<char>)>,
    PathError,
> {
    if !(is_wildcard(source) && is_wildcard(target)) {
        Err(PathError::NoWildcard)
    } else {
        match (path_parent(source), path_parent(target)) {
            (Some(sp), Some(tp)) => match expanded_pairs(sp, tp, files) {
                None => Err(PathError::NotUnderSource),
                Some(ps) => if ps.len() == 0 {
                    Err(PathError::NoFiles)
                } else {
                    Ok(ps)
                },
            },
            _ => Err(PathError::NoParent),
        }
    }
}

/// Expands wildcard patterns in source and target paths into concrete file
/// pairs, given the files found (recursively) in the source directory.
pub fn expand_wildcards(source: &str, target: &str, files: &Vec<String>) -> (r: Result<Vec<(String, String)>, PathError>)
    ensures
        match wildcard_pairs(source@, target@, files.deep_view()) {
            Ok(ps) => r matches Ok(v) && v@.len() == ps.len() && forall|i: int|
                0 <= i < ps.len() ==> (#[trigger] v@[i]).0@ == ps[i].0 && v@[i].1@ == ps[i].1,
            Err(e) => r == Err::<Vec<(String, String)>, PathError>(e),
        },
        !(is_wildcard(source@) && is_wildcard(target@)) ==> r == Err::<Vec<(String, String)>, PathError>(
            PathError::NoWildcard,
        ),
        is_wildcard(source@) && is_wildcard(target@) ==> match (path_parent(source@), path_parent(target@)) {
            (Some(sp), Some(tp)) => match expanded_pairs(sp, tp, files.deep_view()) {
                None => r == Err::<Vec<(String, String)>, PathError>(PathError::NotUnderSource),
                Some(ps) => if ps.len() == 0 {
                    r == Err::<Vec<(String, String)>, PathError>(PathError::NoFiles)
                } else {
                    (r matches Ok(v) && v@.len() == ps.len() && forall|i: int|
                        0 <= i < ps.len() ==> (#[trigger] v@[i]).0@ == ps[i].0 && v@[i].1@ == ps[i].1)
                },
            },
            _ => r == Err::<Vec<(String, String)>, PathError>(PathError::NoParent),
        },
{
    let (sp, tp) = match wildcard_parents(source, target) {
        Ok(p) => p,
        Err(e) => {
            return Err(e);
        },
    };
    let mut out: Vec<(String, String)> = Vec::new();
    let mut i: usize = 0;
    while i < files.len()
        invariant
            i <= files@.len(),
            is_wildcard(source@) && is_wildcard(target@),
            path_parent(source@) == Some(sp@),
            path_parent(target@) == Some(tp@),
            (expanded_pairs(sp@, tp@, files.deep_view().take(i as int)) matches Some(ps) && out@.len() == ps.len()
                && forall|k: int| 0 <= k < ps.len() ==> (#[trigger] out@[k]).0@ == ps[k].0 && out@[k].1@ == ps[k].1),
        decreases files@.len() - i,
    {
        let ghost pre = files.deep_view().take(i as int);
        let ghost post = files.deep_view().take(i + 1);
        proof {
            assert(post.drop_last() =~= pre);
            assert(post.last() == files@[i as int]@);
        }
        let rel = match strip_prefix(files[i].as_str(), sp.as_str()) {
            Some(r) => r,
            None => {
                proof {
                    assert(expanded_pairs(sp@, tp@, post) is None);
                    lemma_pairs_none_extends(sp@, tp@, files.deep_view(), (i + 1) as int);
                    assert(files.deep_view().take(files@.len() as int) =~= files.deep_view());
                }
                return Err(PathError::NotUnderSource);
            },
        };
        let dest = join(tp.as_str(), rel.as_str());
        let src = files[i].clone();
        out.push((src, dest));
        i = i + 1;
    }
    proof {
        assert(files.deep_view().take(files@.len() as int) =~= files.deep_view());
    }
    if out.len() == 0 {
        return Err(PathError::NoFiles);
    }
    Ok(out)
}

proof fn lemma_pairs_none_extends(sp: Seq<char>, tp: Seq<char>, files: Seq<Seq<char>>, n: int)
    requires
        0 <= n <= files.len(),
        expanded_pairs(sp, tp, files.take(n)) is None,
    ensures
        expanded_pairs(sp, tp, files) is None,
    decreases files.len() - n,
{
    if n < files.len() {
        let t = files.take(n + 1);
        assert(t.drop_last() =~= files.take(n));
        lemma_pairs_none_extends(sp, tp, files, n + 1);
    } else {
        assert(files.take(n) =~= files);
    }
}

/// Marker written in source names for a leading dot of the target name.
pub open spec fn dot_marker() -> Seq<char> {
    seq!['#', '#', 'd', 'o', 't', '#', '#']
}

/// Every `##dot##` replaced by `.`, left to right.
pub open spec fn replace_dot_marker(s: Seq<char>) -> Seq<char>
    decreases s.len(),
{
    if s.len() == 0 {
        s
    } else if has_prefix(s, dot_marker()) {
        seq!['.'] + replace_dot_marker(s.skip(7))
    } else {
        seq![s[0]] + replace_dot_marker(s.drop_first())
    }
}

/// Replaces every `##dot##` in a target path by `.`.
pub fn replace_dot(path: &str) -> (r: String)
    ensures
        r@ == replace_dot_marker(path@),
{
    let cs = chars_of(path);
    let marker = ['#', '#', 'd', 'o', 't', '#', '#'];
    let mut out = String::new();
    let mut i: usize = 0;
    proof {
        assert(marker@ =~= dot_marker());
        assert(cs@.skip(0) =~= cs@);
    }
    while i < cs.len()
        invariant
            cs@ == path@,
            marker@ == dot_marker(),
            i <= cs@.len(),
            out@ + replace_dot_marker(cs@.skip(i as int)) == replace_dot_marker(path@),
        decreases cs@.len() - i,
    {
        let ghost rest = cs@.skip(i as int);
        let mut matched = cs.len() - i >= 7;
        let mut k: usize = 0;
        while matched && k < 7
            invariant
                k <= 7,
                i < cs@.len(),
                matched ==> i + 7 <= cs.len(),
                matched ==> forall|j: int| 0 <= j < k ==> cs@[i + j] == marker@[j],
                !matched ==> !has_prefix(cs@.skip(i as int), dot_marker()),
                marker@ == dot_marker(),
            decreases 7 - k + (if matched { 1int } else { 0int }),
        {
            if cs[i + k] != marker[k] {
                proof {
                    let r = cs@.skip(i as int);
                    if has_prefix(r, dot_marker()) {
                        assert(r.take(7)[k as int] == dot_marker()[k as int]);
                    }
                }
                matched = false;
            } else {
                k = k + 1;
            }
        }
        if matched {
            proof {
                assert(rest.take(7) =~= dot_marker());
                assert(rest.skip(7) =~= cs@.skip(i + 7));
                assert(out@ + replace_dot_marker(rest) =~= out@.push('.') + replace_dot_marker(cs@.skip(i + 7)));
            }
            push_char(&mut out, '.');
            i = i + 7;
        } else {
            proof {
                if i + 7 > cs@.len() {
                    assert(!has_prefix(rest, dot_marker()));
                }
                assert(rest[0] == cs@[i as int]);
                assert(rest.drop_first() =~= cs@.skip(i + 1));
                assert(out@ + replace_dot_marker(rest) =~= out@.push(cs@[i as int]) + replace_dot_marker(cs@.skip(i + 1)));
            }
            push_char(&mut out, cs[i]);
            i = i + 1;
        }
    }
    proof {
        assert(cs@.skip(i as int) =~= Seq::<char>::empty());
        assert(out@ + replace_dot_marker(cs@.skip(i as int)) =~= out@);
    }
    out
}

} // verus!
