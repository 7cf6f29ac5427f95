//! How many lines a text takes when word-wrapped to a column width, as the
//! week and day layouts draw event lines.
use crate::text::{display_width, text_width};
use vstd::prelude::*;

verus! {

/// Characters that separate words.
pub open spec fn is_space(c: char) -> bool {
    c == ' ' || c == '\t' || c == '\n' || c == '\r' || c == '\u{b}' || c == '\u{c}'
}

fn is_space_char(c: char) -> (r: bool)
    ensures
        r == is_space(c),
{
    c == ' ' || c == '\t' || c == '\n' || c == '\r' || c == '\u{b}' || c == '\u{c}'
}

/// The words of a text: its maximal runs of non-space characters, in order.
pub open spec fn words(s: Seq<char>) -> Seq<Seq<char>>
    decreases s.len(),
{
    if s.len() == 0 {
        seq![]
    } else {
        let w = words(s.drop_last());
        let c = s.last();
        if is_space(c) {
            w
        } else if s.len() >= 2 && !is_space(s[s.len() - 2]) {
            w.drop_last().push(w.last().push(c))
        } else {
            w.push(seq![c])
        }
    }
}

/// Greedy wrapping of words of the given widths: (lines used, width of the
/// last line). A word that does not fit after the words already on a line
/// (with one space between) starts a new line.
pub open spec fn wrap(widths: Seq<nat>, width: nat) -> (nat, nat)
    decreases widths.len(),
{
    if widths.len() == 0 {
        (1, 0)
    } else {
        let (lines, cur) = wrap(widths.drop_last(), width);
        let w = widths.last();
        let sep: nat = if cur > 0 { 1 } else { 0 };
        if cur + w + sep > width {
            ((lines + 1) as nat, w)
        } else {
            (lines, (cur + w + sep) as nat)
        }
    }
}

/// Display widths of the words of a text.
pub open spec fn word_widths(s: Seq<char>) -> Seq<nat> {
    words(s).map_values(|w: Seq<char>| display_width(w))
}

/// Lines a text takes wrapped to `width` columns; one line when the width is zero.
pub open spec fn wrapped_height_spec(s: Seq<char>, width: nat) -> nat {
    if width > 0 {
        wrap(word_widths(s), width).0
    } else {
        1
    }
}

proof fn lemma_words_count(s: Seq<char>)
    ensures
        2 * words(s).len() <= s.len() + if s.len() > 0 && !is_space(s.last()) {
            1int
        } else {
            0int
        },
    decreases s.len(),
{
    if s.len() > 0 {
        lemma_words_count(s.drop_last());
        if s.len() >= 2 {
            assert(s.drop_last().last() == s[s.len() - 2]);
        }
    }
}

/// Splits a text into words and measures each.
fn measure_words(s: &str) -> (r: Vec<usize>)
    ensures
        r@.map_values(|x: usize| x as nat) == word_widths(s@),
{
    let n = s.unicode_len();
    let mut out: Vec<usize> = Vec::new();
    let mut start: usize = 0;
    let mut in_word = false;
    let mut i: usize = 0;
    while i < n
        invariant
            n == s@.len(),
            i <= n,
            start <= i,
            in_word ==> start < i && forall|k: int| start <= k < i ==> !is_space(#[trigger] s@[k]),
            in_word ==> (start == 0 || is_space(s@[start - 1])),
            !in_word ==> (i == 0 || is_space(s@[i - 1])),
            in_word ==> words(s@.subrange(0, i as int)) == words(s@.subrange(0, start as int)).push(
                s@.subrange(start as int, i as int),
            ),
            out@.map_values(|x: usize| x as nat) == (if in_word {
                words(s@.subrange(0, start as int))
            } else {
                words(s@.subrange(0, i as int))
            }).map_values(|w: Seq<char>| display_width(w)),
        decreases n - i,
    {
        let c = s.get_char(i);
        let ghost pre = s@.subrange(0, i as int);
        let ghost post = s@.subrange(0, i + 1);
        proof {
            assert(post.drop_last() =~= pre);
            assert(post.last() == c);
        }
        if is_space_char(c) {
            if in_word {
                let w = text_width(s.substring_char(start, i));
                let ghost before = out@;
                out.push(w);
                proof {
                    assert(out@.map_values(|x: usize| x as nat) =~= before.map_values(
                        |x: usize| x as nat,
                    ).push(w as nat));
                    assert(words(post) == words(pre));
                    assert(words(pre).map_values(|w: Seq<char>| display_width(w)) =~= words(
                        s@.subrange(0, start as int),
                    ).map_values(|w: Seq<char>| display_width(w)).push(
                        display_width(s@.subrange(start as int, i as int)),
                    ));
                }
            }
            in_word = false;
        } else {
            if in_word {
                proof {
                    assert(pre.last() == s@[i - 1]);
                    assert(!is_space(s@[i - 1]));
                    assert(post[post.len() - 2] == s@[i - 1]);
                    assert(s@.subrange(start as int, i + 1) =~= s@.subrange(start as int, i as int).push(
                        c,
                    ));
                    assert(words(post) =~= words(s@.subrange(0, start as int)).push(
                        s@.subrange(start as int, i + 1),
                    ));
                }
            } else {
                proof {
                    if i > 0 {
                        assert(post[post.len() - 2] == s@[i - 1]);
                    }
                    assert(s@.subrange(i as int, i + 1) =~= seq![c]);
                    assert(words(post) =~= words(pre).push(s@.subrange(i as int, i + 1)));
                }
                start = i;
                in_word = true;
            }
        }
        i = i + 1;
    }
    if in_word {
        let w = text_width(s.substring_char(start, n));
        let ghost before = out@;
        out.push(w);
        proof {
            assert(out@.map_values(|x: usize| x as nat) =~= before.map_values(|x: usize| x as nat).push(
                w as nat,
            ));
            assert(words(s@.subrange(0, n as int)).map_values(|w: Seq<char>| display_width(w))
                =~= words(s@.subrange(0, start as int)).map_values(|w: Seq<char>| display_width(w)).push(
                display_width(s@.subrange(start as int, n as int)),
            ));
        }
    }
    proof {
        assert(s@.subrange(0, n as int) =~= s@);
    }
    out
}

/// Lines a text takes wrapped to `width` columns (one line when the width
/// is zero).
pub fn wrapped_height(s: &str, width: usize) -> (r: usize)
    ensures
        r == wrapped_height_spec(s@, width as nat),
{
    if width == 0 {
        return 1;
    }
    let _n = s.unicode_len();
    let widths = measure_words(s);
    let ghost ws = word_widths(s@);
    proof {
        lemma_words_count(s@);
        assert(widths@.len() == ws.len());
        assert(s@.len() <= usize::MAX);
    }
    let mut lines: usize = 1;
    let mut cur: usize = 0;
    let mut i: usize = 0;
    while i < widths.len()
        invariant
            widths@.map_values(|x: usize| x as nat) == ws,
            i <= widths@.len(),
            width > 0,
            (lines as nat, cur as nat) == wrap(ws.subrange(0, i as int), width as nat),
            lines <= i + 1,
            widths@.len() < usize::MAX,
        decreases widths@.len() - i,
    {
        let w = widths[i];
        proof {
            assert(ws.subrange(0, i + 1).drop_last() =~= ws.subrange(0, i as int));
            assert(ws.subrange(0, i + 1).last() == w as nat);
        }
        let sep: usize = if cur > 0 {
            1
        } else {
            0
        };
        if w > width || cur > width - w || (sep == 1 && cur == width - w) {
            lines = lines + 1;
            cur = w;
        } else {
            cur = cur + w + sep;
        }
        i = i + 1;
    }
    proof {
        assert(ws.subrange(0, widths@.len() as int) =~= ws);
    }
    lines
}

} // verus!
