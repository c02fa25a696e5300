//! The preprocessing pass: strips block comments (`/* ... */`, one level, not
//! nesting) and collapses every run of consecutive whitespace characters into a
//! single space, so the tokenizer never has to special-case comments or
//! multi-space runs.

use vstd::prelude::*;

use crate::chars::{chars_of, is_ws_char, is_whitespace_char, string_of};

verus! {

/// A block comment opens at `i`: a `/` immediately followed by a `*`.
pub open spec fn comment_opens(s: Seq<char>, i: int) -> bool {
    s[i] == '/' && i + 1 < s.len() && s[i + 1] == '*'
}

/// The scan regards a comment as closed at `i` when the two previous
/// characters are `*/`. The first three positions never close one.
pub open spec fn comment_closes(s: Seq<char>, i: int) -> bool {
    i > 2 && s[i - 2] == '*' && s[i - 1] == '/'
}

/// The comment state in force at position `i`, given the state after
/// position `i - 1`; an opener wins over a closer.
pub open spec fn next_in_comment(s: Seq<char>, i: int, in_comment: bool) -> bool {
    if comment_opens(s, i) {
        true
    } else if comment_closes(s, i) {
        false
    } else {
        in_comment
    }
}

/// The character at `i` is kept: it is outside comments and not a whitespace
/// character directly preceded by another one.
pub open spec fn keeps(s: Seq<char>, i: int, in_comment_here: bool) -> bool {
    !in_comment_here && !(i > 0 && is_ws_char(s[i]) && is_ws_char(s[i - 1]))
}

/// A kept whitespace character is emitted as a plain space.
pub open spec fn emit(c: char) -> char {
    if is_ws_char(c) {
        ' '
    } else {
        c
    }
}

/// What the scan emits from position `i` on, entering it with the given
/// comment state.
pub open spec fn norm_from(s: Seq<char>, i: int, in_comment: bool) -> Seq<char>
    decreases s.len() - i,
{
    if i < 0 || i >= s.len() {
        Seq::empty()
    } else {
        let ic = next_in_comment(s, i, in_comment);
        let rest = norm_from(s, i + 1, ic);
        if keeps(s, i, ic) {
            seq![emit(s[i])] + rest
        } else {
            rest
        }
    }
}

/// The normalized form of a stylesheet text: comments stripped, whitespace
/// runs collapsed to one space each.
pub open spec fn spec_normalize(s: Seq<char>) -> Seq<char> {
    norm_from(s, 0, false)
}

/// Removes all block comments and extra whitespace (multiple consecutive
/// whitespace characters) from a string. Nested comments are not recognized:
/// the scan tracks one comment level only.
pub fn remove_comments_and_extra_whitespace(s: &str) -> (r: String)
    ensures
        r@ == spec_normalize(s@),
        r@.len() <= s@.len(),
{
    let cs = chars_of(s);
    let mut out: Vec<char> = Vec::new();
    let mut in_comment = false;
    let mut i: usize = 0;
    while i < cs.len()
        invariant
            cs@ == s@,
            i <= cs@.len(),
            out@.len() <= i,
            spec_normalize(s@) == out@ + norm_from(cs@, i as int, in_comment),
        decreases cs@.len() - i,
    {
        let ghost prev_out = out@;
        let c = cs[i];
        if c == '/' && i + 1 < cs.len() && cs[i + 1] == '*' {
            in_comment = true;
        } else if i > 2 && cs[i - 2] == '*' && cs[i - 1] == '/' {
            in_comment = false;
        }
        proof {
            assert(norm_from(cs@, i as int, in_comment) == if keeps(cs@, i as int, in_comment) {
                seq![emit(cs@[i as int])] + norm_from(cs@, i + 1, in_comment)
            } else {
                norm_from(cs@, i + 1, in_comment)
            });
        }
        if !in_comment && !(i > 0 && is_whitespace_char(c) && is_whitespace_char(cs[i - 1])) {
            if is_whitespace_char(c) {
                out.push(' ');
            } else {
                out.push(c);
            }
            proof {
                assert(out@ =~= prev_out + seq![emit(cs@[i as int])]);
                assert(prev_out + (seq![emit(cs@[i as int])] + norm_from(cs@, i + 1, in_comment))
                    =~= out@ + norm_from(cs@, i + 1, in_comment));
            }
        }
        i = i + 1;
    }
    string_of(&out)
}

/// No position of `t` opens a comment.
pub open spec fn no_comment_open(t: Seq<char>) -> bool {
    forall|i: int| 0 <= i < t.len() ==> !comment_opens(t, i)
}

/// No two consecutive characters of `t` are both whitespace.
pub open spec fn all_ws_single(t: Seq<char>) -> bool {
    forall|i: int| 0 < i < t.len() ==> !(is_ws_char(#[trigger] t[i]) && is_ws_char(t[i - 1]))
}

/// Every whitespace character of `t` is a plain space.
pub open spec fn ws_is_space(t: Seq<char>) -> bool {
    forall|i: int| 0 <= i < t.len() && is_ws_char(#[trigger] t[i]) ==> t[i] == ' '
}

/// A text in normalized shape: nothing in it opens a comment, whitespace is
/// single and made of plain spaces. Normalization leaves such a text as it is.
pub open spec fn is_normal(t: Seq<char>) -> bool {
    no_comment_open(t) && all_ws_single(t) && ws_is_space(t)
}

proof fn lemma_normal_fixed_from(t: Seq<char>, i: int)
    requires
        is_normal(t),
        0 <= i <= t.len(),
    ensures
        norm_from(t, i, false) == t.subrange(i, t.len() as int),
    decreases t.len() - i,
{
    if i == t.len() {
        assert(norm_from(t, i, false) =~= t.subrange(i, t.len() as int));
    } else {
        assert(!comment_opens(t, i));
        let ic = next_in_comment(t, i, false);
        assert(!ic);
        assert(keeps(t, i, ic));
        lemma_normal_fixed_from(t, i + 1);
        assert(emit(t[i]) == t[i]);
        assert(seq![t[i]] + t.subrange(i + 1, t.len() as int) =~= t.subrange(i, t.len() as int));
    }
}

/// A text already in normalized shape is a fixed point of normalization.
pub proof fn lemma_normal_fixed(t: Seq<char>)
    requires
        is_normal(t),
    ensures
        spec_normalize(t) == t,
{
    lemma_normal_fixed_from(t, 0);
    assert(t.subrange(0, t.len() as int) =~= t);
}

/// Normalization is idempotent on every input whose normalized form is in
/// normalized shape. (It is not on every input: stripping a comment can make
/// two kept spaces adjacent, as in `"a /*c*/ b"`, whose normalized form
/// `"a  b"` shrinks again under a second pass.)
pub proof fn lemma_normalize_idempotent(s: Seq<char>)
    requires
        is_normal(spec_normalize(s)),
    ensures
        spec_normalize(spec_normalize(s)) == spec_normalize(s),
{
    lemma_normal_fixed(spec_normalize(s));
}

proof fn lemma_norm_from_normal(s: Seq<char>, i: int)
    requires
        no_comment_open(s),
        0 <= i <= s.len(),
    ensures
        is_normal(norm_from(s, i, false)),
        norm_from(s, i, false).len() > 0 ==> exists|k: int|
            #![auto]
            i <= k < s.len() && keeps(s, k, false) && norm_from(s, i, false)[0] == emit(s[k]) && (
            forall|j: int| i <= j < k ==> !keeps(s, j, false)),
    decreases s.len() - i,
{
    if i == s.len() {
    } else {
        assert(!comment_opens(s, i));
        let ic = next_in_comment(s, i, false);
        assert(!ic);
        lemma_norm_from_normal(s, i + 1);
        let rest = norm_from(s, i + 1, false);
        if keeps(s, i, false) {
            let out = norm_from(s, i, false);
            assert(out == seq![emit(s[i])] + rest);
            assert(out[0] == emit(s[i]));
            assert(forall|j: int| 1 <= j < out.len() ==> out[j] == rest[j - 1]);
            // the witness for the first-kept-character clause
            assert(i <= i < s.len() && keeps(s, i, false) && out[0] == emit(s[i])
                && (forall|j: int| i <= j < i ==> !keeps(s, j, false)));
            // normalized shape: inherited from `rest` for every pair inside it;
            // only the junction of emit(s[i]) and rest[0] is new
            assert(!is_ws_char(emit(s[i])) || emit(s[i]) == ' ');
            if rest.len() > 0 {
                let k = choose|k: int|
                    #![auto]
                    i + 1 <= k < s.len() && keeps(s, k, false) && rest[0] == emit(s[k])
                        && (forall|j: int| i + 1 <= j < k ==> !keeps(s, j, false));
                if k == i + 1 {
                    // adjacent in the source: a whitespace pair or an opener
                    // there would contradict keeps(s, k) or no_comment_open
                    if is_ws_char(out[0]) && is_ws_char(out[1]) {
                        assert(is_ws_char(s[i]) && is_ws_char(s[i + 1]));
                        assert(!keeps(s, i + 1, false));
                        assert(false);
                    }
                    if out[0] == '/' && out[1] == '*' {
                        assert(!is_ws_char('/')) by {
                            assert('/' as u32 == 47u32);
                        }
                        assert(!is_ws_char('*')) by {
                            assert('*' as u32 == 42u32);
                        }
                        assert(s[i] == '/' && s[i + 1] == '*');
                        assert(comment_opens(s, i));
                        assert(false);
                    }
                } else {
                    // something between i and k was skipped, so s[i] is
                    // whitespace and s[k] is not
                    assert(!keeps(s, i + 1, false));
                    assert(is_ws_char(s[i]));
                    assert(out[0] == ' ');
                    assert(!keeps(s, k - 1, false));
                    assert(is_ws_char(s[k - 1]));
                    if is_ws_char(s[k]) {
                        assert(!keeps(s, k, false));
                        assert(false);
                    }
                    assert(out[1] == s[k]);
                    assert(!is_ws_char('/')) by {
                        assert('/' as u32 == 47u32);
                    }
                }
            }
            assert(all_ws_single(out)) by {
                assert(forall|j: int|
                    1 < j < out.len() ==> !(is_ws_char(#[trigger] out[j]) && is_ws_char(
                        out[j - 1],
                    ))) by {
                    assert(forall|j: int|
                        1 < j < out.len() ==> #[trigger] out[j] == rest[j - 1] && out[j - 1] == rest[j - 2]);
                }
            }
            assert(no_comment_open(out)) by {
                assert(forall|j: int| 1 <= j < out.len() ==> #[trigger] out[j] == rest[j - 1]);
                assert(forall|j: int|
                    1 <= j && j + 1 < out.len() ==> !(#[trigger] comment_opens(rest, j - 1)));
                assert forall|j: int| 0 <= j < out.len() implies !comment_opens(out, j) by {
                    if j == 0 {
                        assert(!(out.len() > 1 && out[0] == '/' && out[1] == '*'));
                    } else if j + 1 < out.len() {
                        assert(out[j] == rest[j - 1] && out[j + 1] == rest[j]);
                        assert(!comment_opens(rest, j - 1));
                    }
                }
            }
            assert(ws_is_space(out)) by {
                assert(forall|j: int| 1 <= j < out.len() ==> out[j] == rest[j - 1]);
            }
        } else {
            assert(norm_from(s, i, false) == rest);
            assert(!keeps(s, i, false));
            if rest.len() > 0 {
                let k = choose|k: int|
                    #![auto]
                    i + 1 <= k < s.len() && keeps(s, k, false) && rest[0] == emit(s[k])
                        && (forall|j: int| i + 1 <= j < k ==> !keeps(s, j, false));
                assert(i <= k < s.len() && keeps(s, k, false) && rest[0] == emit(s[k])
                    && (forall|j: int| i <= j < k ==> !keeps(s, j, false)));
            }
        }
    }
}

/// On comment-free input, normalization is idempotent: collapsing whitespace
/// alone always reaches the normalized shape in one pass.
pub proof fn lemma_comment_free_idempotent(s: Seq<char>)
    requires
        no_comment_open(s),
    ensures
        spec_normalize(spec_normalize(s)) == spec_normalize(s),
{
    lemma_norm_from_normal(s, 0);
    lemma_normal_fixed(spec_normalize(s));
}

} // verus!
