//! Output-path derivation.
//!
//! Every processed image is written next to its input: the input path keeps
//! its directory and file stem, and its extension is replaced by the fixed
//! marker extension `out.png`. An input without an extension simply gains
//! the marker.

use vstd::prelude::*;

verus! {

/// The marker appended to each input's stem: `.out.png`.
pub open spec fn marker() -> Seq<char> {
    seq!['.', 'o', 'u', 't', '.', 'p', 'n', 'g']
}

/// Index of the dot that starts `s`'s extension, or -1 when `s` has none.
///
/// The extension is determined by the final path component (after the last
/// `/`): it starts at the last dot of that component, unless that dot is the
/// component's first character (a leading-dot name has no extension).
pub open spec fn ext_dot(s: Seq<char>) -> int
    decreases s.len(),
{
    if s.len() == 0 {
        -1
    } else if s.last() == '/' {
        -1
    } else if s.last() == '.' {
        if s.len() == 1 || s[s.len() - 2] == '/' {
            -1
        } else {
            s.len() - 1
        }
    } else {
        ext_dot(s.drop_last())
    }
}

/// Length of the part of `s` kept when its extension is replaced: everything
/// before the extension dot, or all of `s` when it has no extension.
pub open spec fn stem_len(s: Seq<char>) -> int {
    if ext_dot(s) >= 0 {
        ext_dot(s)
    } else {
        s.len() as int
    }
}

/// The derived output path: the stem of `s` followed by the marker.
pub open spec fn output_path_of(s: Seq<char>) -> Seq<char> {
    s.subrange(0, stem_len(s)) + marker()
}

/// The extension dot, when present, lies strictly inside `s`.
pub proof fn lemma_ext_dot_bounds(s: Seq<char>)
    ensures
        ext_dot(s) == -1 || (1 <= ext_dot(s) < s.len()),
    decreases s.len(),
{
    if s.len() > 0 && s.last() != '/' && s.last() != '.' {
        lemma_ext_dot_bounds(s.drop_last());
    }
}

/// The stem is a prefix of `s`: its length is between 0 and `s.len()`.
pub proof fn lemma_stem_len_bounds(s: Seq<char>)
    ensures
        0 <= stem_len(s) <= s.len(),
{
    lemma_ext_dot_bounds(s);
}

/// Whatever the input looks like — no extension, several dots, a leading
/// dot — the derived output path ends in the marker `.out.png`.
pub proof fn lemma_output_path_ends_with_marker(s: Seq<char>)
    ensures
        output_path_of(s).len() >= marker().len(),
        output_path_of(s).subrange(
            output_path_of(s).len() - marker().len(),
            output_path_of(s).len() as int,
        ) =~= marker(),
{
    lemma_stem_len_bounds(s);
}

/// Replace the extension of `input` with the marker extension.
pub fn derive_output_path(input: &str) -> (r: String)
    ensures
        r@ == output_path_of(input@),
{
    let n: usize = input.unicode_len();
    let mut i: usize = n;
    let mut cut: usize = n;
    proof {
        lemma_stem_len_bounds(input@);
        assert(input@.subrange(0, n as int) =~= input@);
    }
    loop
        invariant_except_break
            cut == n,
        invariant
            0 <= i <= n,
            n == input@.len(),
            ext_dot(input@) == ext_dot(input@.subrange(0, i as int)),
        ensures
            cut == stem_len(input@),
        decreases i,
    {
        if i == 0 {
            proof {
                assert(input@.subrange(0, 0) =~= Seq::<char>::empty());
            }
            break;
        }
        let c = input.get_char(i - 1);
        proof {
            let pre = input@.subrange(0, i as int);
            assert(pre.last() == input@[i - 1]);
        }
        if c == '/' {
            break;
        }
        if c == '.' {
            if i >= 2 && input.get_char(i - 2) != '/' {
                proof {
                    let pre = input@.subrange(0, i as int);
                    assert(pre[i - 2] == input@[i - 2]);
                    assert(ext_dot(pre) == i - 1);
                }
                cut = i - 1;
                proof {
                    lemma_ext_dot_bounds(input@);
                }
            }
            break;
        }
        proof {
            let pre = input@.subrange(0, i as int);
            assert(pre.drop_last() =~= input@.subrange(0, i - 1));
        }
        i = i - 1;
    }
    let stem = input.substring_char(0, cut);
    let r = stem.to_owned().concat(".out.png");
    proof {
        reveal_strlit(".out.png");
        assert(".out.png"@ =~= marker());
        assert(r@ =~= output_path_of(input@));
    }
    r
}

} // verus!
