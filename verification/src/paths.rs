//! Path classification: which paths are generated noise (the build-output
//! directory, the dependency cache, a previously produced artifact) and
//! which source paths the directory walker must exclude.  Paths are handled
//! as their raw bytes.  A directory is recognized as a whole path component,
//! bounded by separators or the path's ends, so a source file whose name
//! merely contains a marker (`redistribute.js`, `distance/`) is not noise;
//! an artifact is recognized by its file-name suffix.

use vstd::prelude::*;
use vstd::utf8::encode_utf8;

verus! {

/// A path separator byte: `/` or `\`.
pub open spec fn is_separator(b: u8) -> bool {
    b == 47 || b == 92
}

/// `n` occurs in `p` as a whole path component: bounded on each side by a
/// separator or by the path's end.  An empty component is no component.
pub open spec fn has_component(p: Seq<u8>, n: Seq<u8>) -> bool {
    n.len() >= 1 && exists|i: int|
        #![trigger p.subrange(i, i + n.len())]
        0 <= i <= p.len() - n.len() && p.subrange(i, i + n.len()) == n && (i == 0 || is_separator(
            p[i - 1],
        )) && (i + n.len() == p.len() || is_separator(p[i + n.len()]))
}

/// `p` ends with `suffix`.
pub open spec fn ends_with(p: Seq<u8>, suffix: Seq<u8>) -> bool {
    p.len() >= suffix.len() && p.subrange(p.len() - suffix.len(), p.len() as int) == suffix
}

/// A path within the noise set: under a `dist` build-output directory or a
/// `node_modules` dependency cache, or a previously produced artifact.
/// Changes there must not trigger rebuilds.
pub open spec fn is_noise_path(p: Seq<u8>) -> bool {
    ||| has_component(p, encode_utf8("dist"@))
    ||| has_component(p, encode_utf8("node_modules"@))
    ||| ends_with(p, encode_utf8(".notex.plugin"@))
}

/// A source path the directory walker skips: one under a generated
/// type-declaration directory.
pub open spec fn is_excluded_source_path(p: Seq<u8>) -> bool {
    has_component(p, encode_utf8("@mf-types"@))
}

/// Whether this byte is a path separator.
fn separator(b: u8) -> (r: bool)
    ensures
        r == is_separator(b),
{
    b == 47 || b == 92
}

/// `n` occurs in `h` starting at position `at`.
fn matches_at(h: &Vec<u8>, n: &[u8], at: usize) -> (r: bool)
    requires
        at + n@.len() <= h@.len(),
    ensures
        r == (h@.subrange(at as int, at + n@.len()) == n@),
{
    let hl = h.len();
    let mut j: usize = 0;
    while j < n.len()
        invariant
            j <= n@.len(),
            at + n@.len() <= h@.len(),
            hl == h@.len(),
            forall|k: int| 0 <= k < j ==> h@[at + k] == n@[k],
        decreases n@.len() - j,
    {
        if h[at + j] != n[j] {
            proof {
                assert(h@.subrange(at as int, at + n@.len())[j as int] != n@[j as int]);
            }
            return false;
        }
        j = j + 1;
    }
    proof {
        assert(h@.subrange(at as int, at + n@.len()) =~= n@);
    }
    true
}

/// Whole-path-component search, specified by `has_component`.
pub fn has_component_marker(h: &Vec<u8>, n: &[u8]) -> (r: bool)
    ensures
        r == has_component(h@, n@),
{
    if n.len() == 0 || n.len() > h.len() {
        proof {
            assert(!has_component(h@, n@));
        }
        return false;
    }
    let hl = h.len();
    let last = hl - n.len();
    let mut i: usize = 0;
    while i <= last
        invariant
            1 <= n@.len() <= h@.len(),
            hl == h@.len(),
            last == h@.len() - n@.len(),
            i <= last + 1,
            forall|k: int|
                0 <= k < i ==> !(#[trigger] h@.subrange(k, k + n@.len()) == n@ && (k == 0
                    || is_separator(h@[k - 1])) && (k + n@.len() == h@.len() || is_separator(
                    h@[k + n@.len()],
                ))),
        decreases last + 1 - i,
    {
        let left_ok = i == 0 || separator(h[i - 1]);
        let right_ok = i + n.len() == hl || separator(h[i + n.len()]);
        if left_ok && right_ok && matches_at(h, n, i) {
            proof {
                assert(h@.subrange(i as int, i + n@.len()) == n@ && (i as int == 0 || is_separator(
                    h@[i as int - 1],
                )) && (i + n@.len() == h@.len() || is_separator(h@[i + n@.len()])));
            }
            return true;
        }
        i = i + 1;
    }
    false
}

/// Suffix check, specified by `ends_with`.
pub fn ends_with_marker(h: &Vec<u8>, n: &[u8]) -> (r: bool)
    ensures
        r == ends_with(h@, n@),
{
    if n.len() > h.len() {
        return false;
    }
    matches_at(h, n, h.len() - n.len())
}

/// Whether this path is noise for the rebuild filter.
pub fn is_noise(p: &Vec<u8>) -> (r: bool)
    ensures
        r == is_noise_path(p@),
{
    has_component_marker(p, "dist".as_bytes()) || has_component_marker(
        p,
        "node_modules".as_bytes(),
    ) || ends_with_marker(p, ".notex.plugin".as_bytes())
}

/// Whether the directory walker must skip this source path.
pub fn is_excluded_source(p: &Vec<u8>) -> (r: bool)
    ensures
        r == is_excluded_source_path(p@),
{
    has_component_marker(p, "@mf-types".as_bytes())
}

} // verus!
