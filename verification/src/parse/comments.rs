//! Comments: what stands between `#(` and `)#`, which may nest, is no part
//! of the program.

use crate::parse::tokens::starts_with;
use vstd::prelude::*;
use vstd::string::*;

verus! {

/// The token that opens a comment.
pub const COMMENT_START: &'static str = "#(";

/// The token that closes a comment.
pub const COMMENT_END: &'static str = ")#";

/// The first place, at or after `from`, at which `token` stands in `text`.
pub open spec fn find(text: Seq<char>, token: Seq<char>, from: nat) -> Option<nat>
    decreases text.len() - from,
{
    if from + token.len() > text.len() {
        None
    } else if token.is_prefix_of(text.skip(from as int)) {
        Some(from)
    } else {
        find(text, token, from + 1)
    }
}

/// Where `token` is found it stands, and not before.
pub proof fn lemma_find(text: Seq<char>, token: Seq<char>, from: nat)
    ensures
        match find(text, token, from) {
            Some(at) => from <= at && at + token.len() <= text.len() && token.is_prefix_of(
                text.skip(at as int),
            ) && forall|i: int| from <= i < at ==> !token.is_prefix_of(#[trigger] text.skip(i)),
            None => forall|i: int|
                from <= i && i + token.len() <= text.len() ==> !token.is_prefix_of(
                    #[trigger] text.skip(i),
                ),
        },
    decreases text.len() - from,
{
    if from + token.len() <= text.len() && !token.is_prefix_of(text.skip(from as int)) {
        lemma_find(text, token, from + 1);
    }
}

/// Finds the first place at which `token` stands in `text`.
pub fn find_text(text: &str, token: &str) -> (r: Option<usize>)
    ensures
        match r {
            Some(at) => find(text@, token@, 0) == Some(at as nat),
            None => find(text@, token@, 0) is None,
        },
{
    let len = text.unicode_len();
    let width = token.unicode_len();
    let mut at: usize = 0;
    while width <= len && at <= len - width
        invariant
            len == text@.len(),
            width == token@.len(),
            at <= len,
            find(text@, token@, 0) == find(text@, token@, at as nat),
        decreases len - at,
    {
        let tail = text.substring_char(at, len);
        if starts_with(tail, token) {
            return Some(at);
        }
        at = at + 1;
    }
    None
}

/// `text` without its comments, or nothing where a comment is not closed.
/// The first `#(` opens a comment. What follows it is freed of its own
/// comments first; the first `)#` that is left closes the comment. What
/// stood before the comment and what stands behind it are put together,
/// and are looked through again. (The comparison of lengths is always
/// true, by [`lemma_stripped_len`]; it is there to show that the
/// definition is well founded.)
pub open spec fn stripped(text: Seq<char>) -> Option<Seq<char>>
    decreases text.len(),
{
    match find(text, COMMENT_START@, 0) {
        None => Some(text),
        Some(start) => {
            proof {
                reveal_strlit("#(");
                reveal_strlit(")#");
                lemma_find(text, COMMENT_START@, 0);
            }
            match stripped(text.skip(start as int + 2)) {
                None => None,
                Some(after) => match find(after, COMMENT_END@, 0) {
                    None => None,
                    Some(end) => {
                        let next = text.take(start as int) + after.skip(end as int + 2);
                        proof {
                            lemma_find(after, COMMENT_END@, 0);
                        }
                        if after.len() <= text.len() - start - 2 {
                            stripped(next)
                        } else {
                            None
                        }
                    },
                },
            }
        },
    }
}

/// What is left of a text without its comments is no longer than the text.
pub proof fn lemma_stripped_len(text: Seq<char>)
    ensures
        stripped(text) matches Some(clean) ==> clean.len() <= text.len(),
    decreases text.len(),
{
    reveal_strlit("#(");
    reveal_strlit(")#");
    lemma_find(text, COMMENT_START@, 0);
    if let Some(start) = find(text, COMMENT_START@, 0) {
        lemma_stripped_len(text.skip(start as int + 2));
        if let Some(after) = stripped(text.skip(start as int + 2)) {
            lemma_find(after, COMMENT_END@, 0);
            if let Some(end) = find(after, COMMENT_END@, 0) {
                lemma_stripped_len(text.take(start as int) + after.skip(end as int + 2));
            }
        }
    }
}

/// Takes the comments out of `code`; nothing where a comment is not
/// closed. See [`stripped`].
pub fn try_remove_non_documenting_comments(code: String) -> (r: Option<String>)
    ensures
        match r {
            Some(clean) => stripped(code@) == Some(clean@),
            None => stripped(code@) is None,
        },
    decreases code@.len(),
{
    let text = code.as_str();
    let len = text.unicode_len();
    let start = match find_text(text, COMMENT_START) {
        None => {
            return Some(code);
        },
        Some(start) => start,
    };
    proof {
        reveal_strlit("#(");
        reveal_strlit(")#");
        lemma_find(text@, COMMENT_START@, 0);
    }
    let rest = String::from_str(text.substring_char(start + 2, len));
    let after = match try_remove_non_documenting_comments(rest) {
        None => {
            return None;
        },
        Some(after) => after,
    };
    let end = match find_text(after.as_str(), COMMENT_END) {
        None => {
            return None;
        },
        Some(end) => end,
    };
    proof {
        lemma_find(after@, COMMENT_END@, 0);
        lemma_stripped_len(rest@);
    }
    let after_len = after.as_str().unicode_len();
    let mut next = String::from_str(text.substring_char(0, start));
    next.append(after.as_str().substring_char(end + 2, after_len));
    try_remove_non_documenting_comments(next)
}

/// Takes the comments out of `code`, in which every comment must be closed.
pub fn remove_non_documenting_comments(code: String) -> (r: String)
    requires
        stripped(code@) is Some,
    ensures
        stripped(code@) == Some(r@),
{
    match try_remove_non_documenting_comments(code) {
        Some(clean) => clean,
        None => String::new(),
    }
}

} // verus!
