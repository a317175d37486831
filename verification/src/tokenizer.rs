//! Splitting raw text into tokens on whitespace.
//!
//! The separators are the characters with the Unicode `White_Space`
//! property; every maximal run of other characters becomes one token, kept
//! verbatim.

use vstd::prelude::*;
use vstd::string::StrSliceExecFns;

verus! {

/// The separator set: the twenty-five characters that carry the Unicode
/// `White_Space` property.
pub open spec fn is_space(c: char) -> bool {
    c == '\t' || c == '\n' || c == '\u{000B}' || c == '\u{000C}' || c == '\r' || c == ' '
        || c == '\u{0085}' || c == '\u{00A0}' || c == '\u{1680}' || c == '\u{2000}'
        || c == '\u{2001}' || c == '\u{2002}' || c == '\u{2003}' || c == '\u{2004}'
        || c == '\u{2005}' || c == '\u{2006}' || c == '\u{2007}' || c == '\u{2008}'
        || c == '\u{2009}' || c == '\u{200A}' || c == '\u{2028}' || c == '\u{2029}'
        || c == '\u{202F}' || c == '\u{205F}' || c == '\u{3000}'
}

/// End of the token that starts at `i`: the first position at or after `i`
/// holding a separator, or the end of the text.
pub open spec fn token_end(s: Seq<char>, i: int) -> int
    decreases s.len() - i,
{
    if i < 0 || i >= s.len() || is_space(s[i]) {
        i
    } else {
        token_end(s, i + 1)
    }
}

/// A token never ends before it starts, nor beyond the text.
pub proof fn lemma_token_end_bounds(s: Seq<char>, i: int)
    requires
        0 <= i <= s.len(),
    ensures
        i <= token_end(s, i) <= s.len(),
    decreases s.len() - i,
{
    if i < s.len() && !is_space(s[i]) {
        lemma_token_end_bounds(s, i + 1);
    }
}

/// The tokens of the text from position `i` on: separators are skipped and
/// every maximal separator-free run is one token, in original order.
pub open spec fn split_ws_from(s: Seq<char>, i: int) -> Seq<Seq<char>>
    decreases s.len() - i,
{
    if i < 0 || i >= s.len() {
        Seq::empty()
    } else if is_space(s[i]) {
        split_ws_from(s, i + 1)
    } else {
        proof {
            lemma_token_end_bounds(s, i + 1);
        }
        seq![s.subrange(i, token_end(s, i))] + split_ws_from(s, token_end(s, i))
    }
}

/// The whitespace-separated tokens of a whole text.
pub open spec fn split_ws(s: Seq<char>) -> Seq<Seq<char>> {
    split_ws_from(s, 0)
}

/// A well-formed token: non-empty, with no embedded separator.
pub open spec fn wf_token(t: Seq<char>) -> bool {
    t.len() > 0 && (forall|j: int| 0 <= j < t.len() ==> !is_space(#[trigger] t[j]))
}

/// No character of the token that starts at `i` is a separator.
proof fn lemma_token_run_free(s: Seq<char>, i: int)
    requires
        0 <= i <= s.len(),
    ensures
        forall|j: int| i <= j < token_end(s, i) ==> !is_space(#[trigger] s[j]),
    decreases s.len() - i,
{
    if i < s.len() && !is_space(s[i]) {
        lemma_token_run_free(s, i + 1);
    }
}

proof fn lemma_split_ws_from_wf(s: Seq<char>, i: int)
    requires
        0 <= i,
    ensures
        forall|k: int|
            0 <= k < split_ws_from(s, i).len() ==> wf_token(#[trigger] split_ws_from(s, i)[k]),
    decreases s.len() - i,
{
    if i >= s.len() {
        assert(split_ws_from(s, i) =~= Seq::<Seq<char>>::empty());
    } else if is_space(s[i]) {
        lemma_split_ws_from_wf(s, i + 1);
        assert(split_ws_from(s, i) == split_ws_from(s, i + 1));
    } else {
        let j = token_end(s, i);
        lemma_token_end_bounds(s, i + 1);
        lemma_token_run_free(s, i);
        lemma_split_ws_from_wf(s, j);
        assert forall|k: int| 0 <= k < split_ws_from(s, i).len() implies wf_token(
            #[trigger] split_ws_from(s, i)[k],
        ) by {
            if k == 0 {
                assert(split_ws_from(s, i)[0] == s.subrange(i, j));
                assert(i < j);
                assert forall|jj: int| 0 <= jj < j - i implies !is_space(
                    #[trigger] s.subrange(i, j)[jj],
                ) by {
                    assert(s.subrange(i, j)[jj] == s[i + jj]);
                }
                assert(wf_token(s.subrange(i, j)));
            } else {
                assert(split_ws_from(s, i)[k] == split_ws_from(s, j)[k - 1]);
            }
        }
    }
}

/// Every token the splitter yields is non-empty and holds no separator:
/// exactly the input contract the parser states for its token streams.
pub proof fn lemma_split_ws_wf(s: Seq<char>)
    ensures
        forall|k: int| 0 <= k < split_ws(s).len() ==> wf_token(#[trigger] split_ws(s)[k]),
{
    lemma_split_ws_from_wf(s, 0);
}

/// Whether a character is one of the separators.
fn is_space_char(c: char) -> (b: bool)
    ensures
        b == is_space(c),
{
    c == '\t' || c == '\n' || c == '\u{000B}' || c == '\u{000C}' || c == '\r' || c == ' '
        || c == '\u{0085}' || c == '\u{00A0}' || c == '\u{1680}' || c == '\u{2000}'
        || c == '\u{2001}' || c == '\u{2002}' || c == '\u{2003}' || c == '\u{2004}'
        || c == '\u{2005}' || c == '\u{2006}' || c == '\u{2007}' || c == '\u{2008}'
        || c == '\u{2009}' || c == '\u{200A}' || c == '\u{2028}' || c == '\u{2029}'
        || c == '\u{202F}' || c == '\u{205F}' || c == '\u{3000}'
}

/// Scans from `start` to the end of the token that starts there.
fn scan_token_end(s: &str, start: usize) -> (j: usize)
    requires
        start <= s@.len(),
    ensures
        j == token_end(s@, start as int),
        start <= j <= s@.len(),
{
    let n: usize = s.unicode_len();
    let mut j: usize = start;
    while j < n
        invariant
            start <= j <= n,
            n == s@.len(),
            token_end(s@, start as int) == token_end(s@, j as int),
        decreases n - j,
    {
        if is_space_char(s.get_char(j)) {
            return j;
        }
        j = j + 1;
    }
    j
}

/// Splits a text into its whitespace-separated tokens.
pub fn tokenize(s: &str) -> (r: Vec<String>)
    ensures
        r.deep_view() == split_ws(s@),
{
    let n: usize = s.unicode_len();
    let mut toks: Vec<String> = Vec::new();
    let mut i: usize = 0;
    while i < n
        invariant
            i <= n,
            n == s@.len(),
            split_ws(s@) == toks.deep_view() + split_ws_from(s@, i as int),
        decreases n - i,
    {
        if is_space_char(s.get_char(i)) {
            i = i + 1;
        } else {
            let j: usize = scan_token_end(s, i);
            let ghost old_toks = toks.deep_view();
            let piece = s.substring_char(i, j).to_owned();
            toks.push(piece);
            proof {
                assert(toks.deep_view() =~= old_toks.push(piece@));
                assert(split_ws(s@) =~= toks.deep_view() + split_ws_from(s@, j as int));
                lemma_token_end_bounds(s@, i as int);
            }
            assert(i < j);
            i = j;
        }
    }
    proof {
        assert(split_ws(s@) =~= toks.deep_view());
    }
    toks
}

} // verus!
