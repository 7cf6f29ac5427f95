//! Ordering events by the text of their start timestamps.
use crate::app::ColorEvent;
use vstd::multiset::Multiset;
use vstd::prelude::*;

verus! {

broadcast use vstd::seq_lib::group_to_multiset_ensures;

/// Lexicographic order of texts by character code, a prefix first.
pub open spec fn text_le(a: Seq<char>, b: Seq<char>) -> bool
    decreases a.len(),
{
    if a.len() == 0 {
        true
    } else if b.len() == 0 {
        false
    } else if a[0] != b[0] {
        (a[0] as int) < (b[0] as int)
    } else {
        text_le(a.drop_first(), b.drop_first())
    }
}

/// Any two texts are ordered one way or the other.
pub proof fn lemma_text_le_total(a: Seq<char>, b: Seq<char>)
    ensures
        text_le(a, b) || text_le(b, a),
    decreases a.len(),
{
    if a.len() > 0 && b.len() > 0 {
        if a[0] == b[0] {
            lemma_text_le_total(a.drop_first(), b.drop_first());
        } else {
            assert((a[0] as int) != (b[0] as int));
        }
    }
}

proof fn lemma_text_le_skip(a: Seq<char>, b: Seq<char>, i: int)
    requires
        0 <= i <= a.len(),
        i <= b.len(),
        a.subrange(0, i) == b.subrange(0, i),
    ensures
        text_le(a, b) == text_le(a.subrange(i, a.len() as int), b.subrange(i, b.len() as int)),
    decreases i,
{
    if i > 0 {
        assert(a[0] == a.subrange(0, i)[0]);
        assert(b[0] == b.subrange(0, i)[0]);
        assert(a.drop_first().subrange(0, i - 1) =~= a.subrange(0, i).drop_first());
        assert(b.drop_first().subrange(0, i - 1) =~= b.subrange(0, i).drop_first());
        lemma_text_le_skip(a.drop_first(), b.drop_first(), i - 1);
        assert(a.drop_first().subrange(i - 1, a.len() - 1) =~= a.subrange(i, a.len() as int));
        assert(b.drop_first().subrange(i - 1, b.len() - 1) =~= b.subrange(i, b.len() as int));
    } else {
        assert(a.subrange(0, a.len() as int) =~= a);
        assert(b.subrange(0, b.len() as int) =~= b);
    }
}

/// Compares two texts in [`text_le`] order.
pub fn text_less_or_equal(a: &str, b: &str) -> (r: bool)
    ensures
        r == text_le(a@, b@),
{
    let n = a.unicode_len();
    let m = b.unicode_len();
    let mut i: usize = 0;
    while i < n && i < m
        invariant
            n == a@.len(),
            m == b@.len(),
            i <= n,
            i <= m,
            a@.subrange(0, i as int) == b@.subrange(0, i as int),
        decreases n - i,
    {
        let ca = a.get_char(i);
        let cb = b.get_char(i);
        if ca != cb {
            proof {
                lemma_text_le_skip(a@, b@, i as int);
                let ra = a@.subrange(i as int, n as int);
                let rb = b@.subrange(i as int, m as int);
                assert(ra[0] == ca && rb[0] == cb);
            }
            return (ca as u32) < (cb as u32);
        }
        proof {
            assert(a@.subrange(0, i + 1) =~= a@.subrange(0, i as int).push(ca));
            assert(b@.subrange(0, i + 1) =~= b@.subrange(0, i as int).push(cb));
        }
        i = i + 1;
    }
    proof {
        lemma_text_le_skip(a@, b@, i as int);
    }
    i == n
}

/// The text an event is ordered by: its start timestamp.
pub open spec fn start_key(e: ColorEvent) -> Seq<char> {
    e.event.start.date_time@
}

/// Each event's start text is at most the next one's.
pub open spec fn sorted_by_start(s: Seq<ColorEvent>) -> bool {
    forall|i: int| 0 <= i < s.len() - 1 ==> text_le(start_key(#[trigger] s[i]), start_key(s[i + 1]))
}

/// Any event's start text is at most any later one's.
pub open spec fn fully_sorted(s: Seq<ColorEvent>) -> bool {
    forall|i: int, j: int|
        0 <= i < j < s.len() ==> text_le(start_key(#[trigger] s[i]), start_key(#[trigger] s[j]))
}

/// `r[k]` is `orig[ids[k]]`, each position of `orig` used at most once, and
/// events with the same start text stay in their order in `orig`.
pub open spec fn stable_from(r: Seq<ColorEvent>, orig: Seq<ColorEvent>, ids: Seq<int>) -> bool {
    &&& ids.len() == r.len()
    &&& forall|k: int| 0 <= k < r.len() ==> 0 <= #[trigger] ids[k] < orig.len() && r[k] == orig[ids[k]]
    &&& forall|k1: int, k2: int| 0 <= k1 < k2 < r.len() ==> #[trigger] ids[k1] != #[trigger] ids[k2]
    &&& forall|k1: int, k2: int|
        0 <= k1 < k2 < r.len() && start_key(#[trigger] r[k1]) == start_key(#[trigger] r[k2])
            ==> ids[k1] < ids[k2]
}

/// The order of texts is transitive.
pub proof fn lemma_text_le_transitive(a: Seq<char>, b: Seq<char>, c: Seq<char>)
    requires
        text_le(a, b),
        text_le(b, c),
    ensures
        text_le(a, c),
    decreases a.len(),
{
    if a.len() > 0 && b.len() > 0 && c.len() > 0 && a[0] == b[0] && b[0] == c[0] {
        lemma_text_le_transitive(a.drop_first(), b.drop_first(), c.drop_first());
    }
}

/// Orders events by start text, keeping the same events; events with the
/// same start keep their order (a stable sort).
pub fn sort_events_by_start(events: Vec<ColorEvent>) -> (r: Vec<ColorEvent>)
    ensures
        r@.to_multiset() == events@.to_multiset(),
        sorted_by_start(r@),
        fully_sorted(r@),
        exists|ids: Seq<int>| #[trigger] stable_from(r@, events@, ids),
{
    let ghost orig = events@;
    let mut input = events;
    let mut out: Vec<ColorEvent> = Vec::new();
    let ghost mut ids: Seq<int> = Seq::empty();
    let ghost mut j: int = 0;
    proof {
        assert(out@.to_multiset() =~= Multiset::empty());
        assert(input@ =~= orig.subrange(0, orig.len() as int));
    }
    while input.len() > 0
        invariant
            fully_sorted(out@),
            out@.to_multiset().add(input@.to_multiset()) == orig.to_multiset(),
            0 <= j <= orig.len(),
            input@ == orig.subrange(j, orig.len() as int),
            stable_from(out@, orig, ids),
            forall|k: int| 0 <= k < ids.len() ==> #[trigger] ids[k] < j,
        decreases input@.len(),
    {
        let ghost in_before = input@;
        let ghost out_before = out@;
        let x = input.remove(0);
        assert(x == orig[j]);
        let mut p: usize = 0;
        while p < out.len() && text_less_or_equal(
            out[p].event.start.date_time.as_str(),
            x.event.start.date_time.as_str(),
        )
            invariant
                out@ == out_before,
                p <= out@.len(),
                forall|k: int| 0 <= k < p ==> text_le(start_key(#[trigger] out@[k]), start_key(x)),
            decreases out@.len() - p,
        {
            p = p + 1;
        }
        let ghost px = p as int;
        proof {
            if px < out_before.len() {
                lemma_text_le_total(start_key(out_before[px]), start_key(x));
            }
        }
        out.insert(p, x);
        proof {
            let ids0 = ids;
            ids = ids.insert(px, j);
            assert(in_before.remove(0).to_multiset() =~= in_before.to_multiset().remove(in_before[0]));
            assert(out@.to_multiset() =~= out_before.to_multiset().insert(x));
            let o = out@;
            assert(forall|k: int| 0 <= k < px ==> o[k] == out_before[k] && ids[k] == ids0[k]);
            assert(o[px] == x && ids[px] == j);
            assert(forall|k: int| px < k < o.len() ==> o[k] == out_before[k - 1] && ids[k] == ids0[k - 1]);
            assert forall|a: int, b: int| 0 <= a < b < o.len() implies text_le(
                start_key(#[trigger] o[a]),
                start_key(#[trigger] o[b]),
            ) by {
                if b < px {
                } else if b == px {
                } else if a < px {
                } else if a == px {
                    if b - 1 > px {
                        lemma_text_le_transitive(
                            start_key(x),
                            start_key(out_before[px]),
                            start_key(out_before[b - 1]),
                        );
                    }
                } else {
                }
            }
            assert forall|a: int, b: int|
                0 <= a < b < o.len() && start_key(#[trigger] o[a]) == start_key(#[trigger] o[b])
                    implies ids[a] < ids[b] by {
                if b < px {
                } else if b == px {
                } else if a < px {
                } else if a == px {
                    if b - 1 > px {
                        assert(text_le(start_key(out_before[px]), start_key(out_before[b - 1])));
                    }
                } else {
                }
            }
            assert forall|a: int, b: int| 0 <= a < b < o.len() implies #[trigger] ids[a]
                != #[trigger] ids[b] by {
                if b < px {
                } else if b == px {
                } else if a < px {
                } else if a == px {
                } else {
                }
            }
            j = j + 1;
            assert(input@ =~= orig.subrange(j, orig.len() as int));
            assert(stable_from(o, orig, ids));
            assert forall|i: int| 0 <= i < o.len() - 1 implies text_le(
                start_key(#[trigger] o[i]),
                start_key(o[i + 1]),
            ) by {
                assert(text_le(start_key(o[i]), start_key(o[i + 1])));
            }
        }
    }
    proof {
        assert(input@.to_multiset() =~= Multiset::empty());
        assert(out@.to_multiset().add(Multiset::empty()) =~= out@.to_multiset());
        assert forall|i: int| 0 <= i < out@.len() - 1 implies text_le(
            start_key(#[trigger] out@[i]),
            start_key(out@[i + 1]),
        ) by {
            assert(text_le(start_key(out@[i]), start_key(out@[i + 1])));
        }
    }
    out
}

} // verus!
