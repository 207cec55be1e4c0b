//! Short chat titles derived from the first user message.

use vstd::prelude::*;
use crate::text::{
    chars_of, is_whitespace, is_ws, lemma_back_ws_bounds, lemma_skip_ws_bounds, push_char,
    string_of_range, trim, trim_bounds,
};

verus! {

/// Longest title, in characters.
pub const TITLE_MAX: usize = 50;

/// Characters kept before the ellipsis when no word fits.
pub const TITLE_CUT: usize = 47;

pub open spec fn is_terminator(c: char) -> bool {
    c == '.' || c == '!' || c == '?'
}

/// `s` trimmed, with every remaining whitespace character turned into a space.
pub open spec fn normalize(s: Seq<char>) -> Seq<char> {
    trim(s).map_values(|c: char| if is_ws(c) { ' ' } else { c })
}

/// Index of the first sentence terminator at or after `i`, or `s.len()`.
pub open spec fn first_terminator(s: Seq<char>, i: int) -> int
    decreases s.len() - i,
{
    if 0 <= i < s.len() {
        if is_terminator(s[i]) {
            i
        } else {
            first_terminator(s, i + 1)
        }
    } else {
        s.len() as int
    }
}

/// End of the run of non-whitespace characters that starts at `i`.
pub open spec fn word_end(s: Seq<char>, i: int) -> int
    decreases s.len() - i,
{
    if 0 <= i < s.len() && !is_ws(s[i]) {
        word_end(s, i + 1)
    } else {
        i
    }
}

pub proof fn lemma_first_terminator_bounds(s: Seq<char>, i: int)
    requires
        0 <= i <= s.len(),
    ensures
        i <= first_terminator(s, i) <= s.len(),
    decreases s.len() - i,
{
    if i < s.len() && !is_terminator(s[i]) {
        lemma_first_terminator_bounds(s, i + 1);
    }
}

pub proof fn lemma_word_end_bounds(s: Seq<char>, i: int)
    requires
        0 <= i <= s.len(),
    ensures
        i <= word_end(s, i) <= s.len(),
    decreases s.len() - i,
{
    if i < s.len() && !is_ws(s[i]) {
        lemma_word_end_bounds(s, i + 1);
    }
}

/// The whitespace-separated words of `s[i..]` (`str::split_whitespace`).
pub open spec fn words_from(s: Seq<char>, i: int) -> Seq<Seq<char>>
    decreases s.len() - i,
    via words_from_decreases
{
    if i < 0 || i >= s.len() {
        seq![]
    } else if is_ws(s[i]) {
        words_from(s, i + 1)
    } else {
        seq![s.subrange(i, word_end(s, i + 1))] + words_from(s, word_end(s, i + 1))
    }
}

#[via_fn]
proof fn words_from_decreases(s: Seq<char>, i: int) {
    if 0 <= i < s.len() && !is_ws(s[i]) {
        lemma_word_end_bounds(s, i + 1);
    }
}

/// Characters a word adds to `title`: a separating space unless it is the first.
pub open spec fn separator_len(title: Seq<char>) -> int {
    if title.len() == 0 {
        0
    } else {
        1
    }
}

/// Greedy packing: whole words joined by one space, stopping at the first
/// word that would bring the title over the limit.
pub open spec fn pack(words: Seq<Seq<char>>, title: Seq<char>) -> Seq<char>
    decreases words.len(),
{
    if words.len() == 0 || title.len() + separator_len(title) + words[0].len() > TITLE_MAX {
        title
    } else {
        pack(
            words.drop_first(),
            if title.len() == 0 {
                words[0]
            } else {
                title + seq![' '] + words[0]
            },
        )
    }
}

/// The title for a chat whose first user message is `s`.
pub open spec fn title_of(s: Seq<char>) -> Seq<char> {
    if s.len() == 0 {
        "New Chat"@
    } else {
        let c = normalize(s);
        let p = first_terminator(c, 0);
        if c.len() <= TITLE_MAX {
            c
        } else if p < c.len() && p <= TITLE_MAX {
            trim(c.subrange(0, p))
        } else if pack(words_from(c, 0), seq![]).len() == 0 {
            c.subrange(0, TITLE_CUT as int) + "..."@
        } else {
            pack(words_from(c, 0), seq![])
        }
    }
}

fn normalize_exec(v: &Vec<char>) -> (r: Vec<char>)
    ensures
        r@ == normalize(v@),
{
    let (a, b) = trim_bounds(v);
    let mut r: Vec<char> = Vec::new();
    let mut k: usize = a;
    while k < b
        invariant
            a <= k <= b <= v.len(),
            v@.subrange(a as int, b as int) == trim(v@),
            r@ == v@.subrange(a as int, k as int).map_values(
                |c: char| if is_ws(c) { ' ' } else { c },
            ),
        decreases b - k,
    {
        let c = v[k];
        let d = if is_whitespace(c) { ' ' } else { c };
        r.push(d);
        assert(v@.subrange(a as int, k + 1) == v@.subrange(a as int, k as int).push(c));
        k = k + 1;
    }
    r
}

fn first_terminator_exec(c: &Vec<char>) -> (r: usize)
    ensures
        r == first_terminator(c@, 0),
{
    let mut i: usize = 0;
    while i < c.len()
        invariant
            i <= c.len(),
            first_terminator(c@, 0) == first_terminator(c@, i as int),
        decreases c.len() - i,
    {
        let ch = c[i];
        if ch == '.' || ch == '!' || ch == '?' {
            return i;
        }
        i = i + 1;
    }
    i
}

fn prefix(c: &Vec<char>, n: usize) -> (r: Vec<char>)
    requires
        n <= c.len(),
    ensures
        r@ == c@.subrange(0, n as int),
{
    let mut r: Vec<char> = Vec::new();
    let mut i: usize = 0;
    while i < n
        invariant
            i <= n <= c.len(),
            r@ == c@.subrange(0, i as int),
        decreases n - i,
    {
        r.push(c[i]);
        assert(c@.subrange(0, i + 1) == c@.subrange(0, i as int).push(c@[i as int]));
        i = i + 1;
    }
    r
}

fn pack_exec(c: &Vec<char>) -> (r: Vec<char>)
    ensures
        r@ == pack(words_from(c@, 0), seq![]),
{
    let mut title: Vec<char> = Vec::new();
    let mut i: usize = 0;
    while i < c.len()
        invariant
            i <= c.len(),
            title.len() <= TITLE_MAX,
            pack(words_from(c@, 0), seq![]) == pack(words_from(c@, i as int), title@),
        decreases c.len() - i,
    {
        if is_whitespace(c[i]) {
            i = i + 1;
        } else {
            let mut j: usize = i + 1;
            while j < c.len() && !is_whitespace(c[j])
                invariant
                    i < j <= c.len(),
                    word_end(c@, i + 1) == word_end(c@, j as int),
                decreases c.len() - j,
            {
                j = j + 1;
            }
            let ghost w = c@.subrange(i as int, j as int);
            assert(words_from(c@, i as int) == seq![w] + words_from(c@, j as int));
            assert((seq![w] + words_from(c@, j as int)).drop_first() == words_from(c@, j as int));
            let sep: usize = if title.len() > 0 {
                1
            } else {
                0
            };
            if title.len() + sep > TITLE_MAX || j - i > TITLE_MAX - title.len() - sep {
                return title;
            }
            let ghost t0 = title@;
            if title.len() > 0 {
                title.push(' ');
            }
            let ghost before = title@;
            let mut k: usize = i;
            while k < j
                invariant
                    i <= k <= j <= c.len(),
                    title@ == before + c@.subrange(i as int, k as int),
                decreases j - k,
            {
                title.push(c[k]);
                assert(c@.subrange(i as int, k + 1) == c@.subrange(i as int, k as int).push(
                    c@[k as int],
                ));
                k = k + 1;
            }
            assert(title@ =~= (if t0.len() == 0 {
                w
            } else {
                t0 + seq![' '] + w
            }));
            assert(pack(words_from(c@, i as int), t0) == pack(words_from(c@, j as int), title@));
            i = j;
        }
    }
    title
}

/// Derives a chat title from the first user message: "New Chat" for an empty
/// message, the whitespace-normalized text when it is at most 50 characters,
/// else the first sentence when short enough, else whole words packed up to
/// 50 characters, else (the first word alone is longer than 50) the first 47
/// characters and "...".
pub fn generate_chat_title(content: &str) -> (r: String)
    ensures
        r@ == title_of(content@),
        r@.len() <= TITLE_MAX,
{
    proof {
        lemma_title_bounded(content@);
    }
    let v = chars_of(content);
    if v.len() == 0 {
        return String::from_str("New Chat");
    }
    let c = normalize_exec(&v);
    if c.len() <= TITLE_MAX {
        return string_of_range(&c, 0, c.len());
    }
    let p = first_terminator_exec(&c);
    if p < c.len() && p <= TITLE_MAX {
        let sentence = prefix(&c, p);
        let (a, b) = trim_bounds(&sentence);
        return string_of_range(&sentence, a, b);
    }
    let t = pack_exec(&c);
    if t.len() == 0 {
        let mut r = string_of_range(&c, 0, TITLE_CUT);
        r.append("...");
        r
    } else {
        string_of_range(&t, 0, t.len())
    }
}

proof fn lemma_pack_bounded(words: Seq<Seq<char>>, title: Seq<char>)
    requires
        title.len() <= TITLE_MAX,
    ensures
        pack(words, title).len() <= TITLE_MAX,
    decreases words.len(),
{
    if words.len() > 0 && title.len() + separator_len(title) + words[0].len() <= TITLE_MAX {
        lemma_pack_bounded(
            words.drop_first(),
            if title.len() == 0 {
                words[0]
            } else {
                title + seq![' '] + words[0]
            },
        );
    }
}

proof fn lemma_trim_len(s: Seq<char>)
    ensures
        trim(s).len() <= s.len(),
{
    lemma_skip_ws_bounds(s, 0);
    lemma_back_ws_bounds(s, crate::text::skip_ws(s, 0), s.len() as int);
}

/// A generated title never exceeds 50 characters.
pub proof fn lemma_title_bounded(s: Seq<char>)
    ensures
        title_of(s).len() <= TITLE_MAX,
{
    reveal_strlit("New Chat");
    reveal_strlit("...");
    if s.len() > 0 {
        let c = normalize(s);
        let p = first_terminator(c, 0);
        lemma_pack_bounded(words_from(c, 0), seq![]);
        lemma_first_terminator_bounds(c, 0);
        if c.len() > TITLE_MAX && p < c.len() && p <= TITLE_MAX {
            lemma_trim_len(c.subrange(0, p));
        }
        if c.len() > TITLE_MAX {
            assert((c.subrange(0, TITLE_CUT as int) + "..."@).len() == TITLE_MAX);
        }
    }
}

} // verus!
