//! The text side of the line recogniser: the character table read from the
//! model's metadata, and the greedy CTC decoding of the best class per time step.
//! The scores themselves are floating-point numbers and stay with the caller,
//! which picks the best class of each step and averages the scores of the steps
//! that the decoding keeps.
use vstd::prelude::*;
use crate::text::{append_chars, split_on, nonempty_lines, str_to_string, string_from_chars, to_chars};
use crate::html::string_views;

verus! {

// ---------------------------------------------------------------------------
// The character table
// ---------------------------------------------------------------------------
/// A line without the carriage return that ends it, if any.
pub open spec fn strip_cr(p: Seq<char>) -> Seq<char> {
    if p.len() > 0 && p.last() == '\r' {
        p.drop_last()
    } else {
        p
    }
}

/// `str::lines`: the pieces between line feeds, a carriage return before a line
/// feed dropped, and no empty line after a final line feed.
pub open spec fn std_lines(s: Seq<char>) -> Seq<Seq<char>> {
    let ps = split_on(s, '\n');
    let ended = Seq::new((ps.len() - 1) as nat, |i: int| strip_cr(ps[i]));
    if ps.last().len() == 0 {
        ended
    } else {
        ended.push(ps.last())
    }
}

/// The character table: `blank` at index 0, the non-empty lines of the
/// metadata's `character` entry, and a space last.
pub open spec fn char_table(raw: Seq<char>) -> Seq<Seq<char>> {
    seq!["blank"@] + nonempty_lines(std_lines(raw)) + seq![" "@]
}

proof fn lemma_split_on_nonempty(s: Seq<char>, sep: char)
    ensures
        split_on(s, sep).len() >= 1,
    decreases s.len(),
{
    if s.len() > 0 {
        lemma_split_on_nonempty(s.drop_last(), sep);
    }
}

fn strip_cr_chars(v: &Vec<char>) -> (r: Vec<char>)
    ensures
        r@ == strip_cr(v@),
{
    let n = v.len();
    if n > 0 && v[n - 1] == '\r' {
        crate::text::subrange_chars(v, 0, n - 1)
    } else {
        v.clone()
    }
}

/// Builds the character table from the text of the model's `character`
/// metadata entry.
pub fn char_list_from_metadata(raw: &str) -> (r: Vec<String>)
    ensures
        string_views(r@) == char_table(raw@),
{
    let s = to_chars(raw);
    let mut out: Vec<String> = Vec::new();
    out.push(str_to_string("blank"));
    let mut cur: Vec<char> = Vec::new();
    let mut i: usize = 0;
    proof {
        assert(s@.take(0) =~= Seq::<char>::empty());
    }
    while i < s.len()
        invariant
            s@ == raw@,
            i <= s@.len(),
            split_on(s@.take(i as int), '\n').len() >= 1,
            cur@ == split_on(s@.take(i as int), '\n').last(),
            string_views(out@) == seq!["blank"@] + nonempty_lines(({
                let ps = split_on(s@.take(i as int), '\n');
                Seq::new((ps.len() - 1) as nat, |k: int| strip_cr(ps[k]))
            })),
        decreases s.len() - i,
    {
        let c = s[i];
        let ghost pre = s@.take(i as int);
        let ghost next = s@.take(i + 1);
        let ghost ps = split_on(pre, '\n');
        let ghost before = Seq::new((ps.len() - 1) as nat, |k: int| strip_cr(ps[k]));
        proof {
            assert(next.drop_last() =~= pre);
            assert(next.last() == c);
            lemma_split_on_nonempty(pre, '\n');
        }
        if c == '\n' {
            let line = strip_cr_chars(&cur);
            let ghost ns = split_on(next, '\n');
            let ghost after = Seq::new((ns.len() - 1) as nat, |k: int| strip_cr(ns[k]));
            proof {
                assert(ns == ps.push(seq![]));
                assert(after =~= before.push(strip_cr(cur@)));
                assert(after.drop_last() =~= before);
                assert(after.last() == line@);
            }
            let ghost old_views = string_views(out@);
            if line.len() > 0 {
                out.push(string_from_chars(line.as_slice()));
                proof {
                    assert(nonempty_lines(after) == nonempty_lines(before).push(line@));
                    assert(string_views(out@) =~= old_views.push(line@));
                    assert(string_views(out@) =~= seq!["blank"@] + nonempty_lines(after));
                }
            } else {
                proof {
                    assert(nonempty_lines(after) == nonempty_lines(before));
                }
            }
            cur = Vec::new();
            proof {
                let ns = split_on(next, '\n');
                assert(cur@ =~= ns.last());
            }
        } else {
            cur.push(c);
            proof {
                let ns = split_on(next, '\n');
                let after = Seq::new((ns.len() - 1) as nat, |k: int| strip_cr(ns[k]));
                assert(after =~= before);
            }
        }
        i = i + 1;
    }
    proof {
        assert(s@.take(s@.len() as int) =~= s@);
        lemma_split_on_nonempty(s@, '\n');
    }
    let ghost done = string_views(out@);
    if cur.len() > 0 {
        out.push(string_from_chars(cur.as_slice()));
        proof {
            assert(string_views(out@) =~= done.push(cur@));
        }
    }
    out.push(str_to_string(" "));
    proof {
        let ps = split_on(raw@, '\n');
        let ended = Seq::new((ps.len() - 1) as nat, |k: int| strip_cr(ps[k]));
        if ps.last().len() != 0 {
            assert(std_lines(raw@).drop_last() =~= ended);
        }
        assert(string_views(out@) =~= char_table(raw@));
    }
    out
}

// ---------------------------------------------------------------------------
// Greedy CTC decoding
// ---------------------------------------------------------------------------
/// Whether step `i`, whose best class is `best[i]`, adds to the text: the class
/// is not the blank (index 0), differs from the best class of the step before
/// (before the first step, no class is `usize::MAX`), lies in the table, and its
/// entry is not the word `blank`.
pub open spec fn ctc_keeps(best: Seq<usize>, table: Seq<Seq<char>>, i: int) -> bool {
    let prev: int = if i == 0 { usize::MAX as int } else { best[i - 1] as int };
    &&& best[i] != 0
    &&& best[i] as int != prev
    &&& (best[i] as int) < table.len()
    &&& table[best[i] as int] != "blank"@
}

/// The text decoded from the first `n` steps.
pub open spec fn ctc_text(best: Seq<usize>, table: Seq<Seq<char>>, n: int) -> Seq<char>
    decreases n,
{
    if n <= 0 {
        seq![]
    } else if ctc_keeps(best, table, n - 1) {
        ctc_text(best, table, n - 1) + table[best[n - 1] as int]
    } else {
        ctc_text(best, table, n - 1)
    }
}

/// The steps, among the first `n`, that add to the text, in order.
pub open spec fn ctc_steps(best: Seq<usize>, table: Seq<Seq<char>>, n: int) -> Seq<usize>
    decreases n,
{
    if n <= 0 {
        seq![]
    } else if ctc_keeps(best, table, n - 1) {
        ctc_steps(best, table, n - 1).push((n - 1) as usize)
    } else {
        ctc_steps(best, table, n - 1)
    }
}

/// Decodes the best class of each time step into text: repeats collapse, the
/// blank is dropped.  Also gives the steps that added to the text, whose scores
/// make the confidence.
pub fn ctc_collapse(best: &[usize], char_list: &[String]) -> (r: (String, Vec<usize>))
    ensures
        r.0@ == ctc_text(best@, string_views(char_list@), best@.len() as int),
        r.1@ == ctc_steps(best@, string_views(char_list@), best@.len() as int),
{
    let ghost table = string_views(char_list@);
    let mut text: Vec<char> = Vec::new();
    let mut steps: Vec<usize> = Vec::new();
    let mut prev: usize = usize::MAX;
    let mut i: usize = 0;
    while i < best.len()
        invariant
            i <= best@.len(),
            table == string_views(char_list@),
            prev == (if i == 0 { usize::MAX } else { best@[i - 1] }),
            text@ == ctc_text(best@, table, i as int),
            steps@ == ctc_steps(best@, table, i as int),
        decreases best.len() - i,
    {
        let idx = best[i];
        if idx != 0 && idx != prev && idx < char_list.len() {
            let entry = to_chars(char_list[idx].as_str());
            assert(entry@ == table[idx as int]);
            if !crate::text::chars_equal(&entry, &to_chars("blank")) {
                append_chars(&mut text, &entry);
                steps.push(i);
            }
        }
        prev = idx;
        i = i + 1;
    }
    (string_from_chars(text.as_slice()), steps)
}

/// The steps that the decoding keeps come in increasing order, lie within the
/// input, and each of them names a class other than the blank that differs from
/// the class of the step before it.
pub proof fn lemma_ctc_steps(best: Seq<usize>, table: Seq<Seq<char>>, n: int)
    requires
        0 <= n <= best.len(),
        best.len() <= usize::MAX,
    ensures
        forall|a: int, b: int|
            0 <= a < b < ctc_steps(best, table, n).len() ==> #[trigger] ctc_steps(best, table, n)[a]
                < #[trigger] ctc_steps(best, table, n)[b],
        forall|a: int|
            0 <= a < ctc_steps(best, table, n).len() ==> {
                let i = #[trigger] ctc_steps(best, table, n)[a];
                &&& i < n
                &&& best[i as int] != 0
                &&& i > 0 ==> best[i as int] != best[i - 1]
            },
    decreases n,
{
    if n > 0 {
        lemma_ctc_steps(best, table, n - 1);
        let prev = ctc_steps(best, table, n - 1);
        let cur = ctc_steps(best, table, n);
        if ctc_keeps(best, table, n - 1) {
            assert(cur == prev.push((n - 1) as usize));
            assert(cur[prev.len() as int] == n - 1);
            assert forall|a: int| 0 <= a < prev.len() implies #[trigger] cur[a] == prev[a] && prev[a] < n - 1 by {
                assert(prev[a] < n - 1);
            }
            assert forall|a: int| 0 <= a < cur.len() implies {
                let i = #[trigger] cur[a];
                &&& i < n
                &&& best[i as int] != 0
                &&& i > 0 ==> best[i as int] != best[i - 1]
            } by {
                if a < prev.len() {
                    assert(cur[a] == prev[a]);
                }
            }
            assert forall|a: int, b: int| 0 <= a < b < cur.len() implies #[trigger] cur[a] < #[trigger] cur[b] by {
                if b == prev.len() {
                    assert(cur[a] == prev[a]);
                    assert(prev[a] < n - 1);
                } else {
                    assert(cur[a] == prev[a]);
                    assert(cur[b] == prev[b]);
                    assert(prev[a] < prev[b]);
                }
            }
        } else {
            assert(cur == prev);
        }
    }
}

// ---------------------------------------------------------------------------
// Scoring a recognition run against its labels
// ---------------------------------------------------------------------------
/// The label expected for slot `i`: the `i`-th label, or empty when there is none.
pub open spec fn expected_text(expected: Seq<Seq<char>>, i: int) -> Seq<char> {
    if 0 <= i < expected.len() {
        expected[i]
    } else {
        seq![]
    }
}

/// The number of slots among the first `n` whose text is exactly the label.
pub open spec fn exact_matches(predicted: Seq<Seq<char>>, expected: Seq<Seq<char>>, n: int) -> nat
    decreases n,
{
    if n <= 0 {
        0
    } else {
        exact_matches(predicted, expected, n - 1) + if predicted[n - 1] == expected_text(expected, n - 1) {
            1nat
        } else {
            0nat
        }
    }
}

/// For each recognised slot, whether its text is exactly the expected label
/// (a missing label counts as empty), and how many are.
pub fn score_slots(predicted: &Vec<String>, expected: &Vec<String>) -> (r: (Vec<bool>, usize))
    ensures
        r.0@.len() == predicted@.len(),
        forall|i: int|
            0 <= i < predicted@.len() ==> #[trigger] r.0@[i] == (predicted@[i]@ == expected_text(
                string_views(expected@),
                i,
            )),
        r.1 == exact_matches(string_views(predicted@), string_views(expected@), predicted@.len() as int),
{
    let ghost pv = string_views(predicted@);
    let ghost ev = string_views(expected@);
    let mut flags: Vec<bool> = Vec::new();
    let mut count: usize = 0;
    let mut i: usize = 0;
    while i < predicted.len()
        invariant
            i <= predicted@.len(),
            pv == string_views(predicted@),
            ev == string_views(expected@),
            flags@.len() == i,
            forall|k: int| 0 <= k < i ==> #[trigger] flags@[k] == (predicted@[k]@ == expected_text(ev, k)),
            count == exact_matches(pv, ev, i as int),
            count <= i,
        decreases predicted.len() - i,
    {
        let p = to_chars(predicted[i].as_str());
        let e = if i < expected.len() {
            to_chars(expected[i].as_str())
        } else {
            Vec::new()
        };
        assert(e@ == expected_text(ev, i as int));
        let same = crate::text::chars_equal(&p, &e);
        assert(pv[i as int] == predicted@[i as int]@);
        flags.push(same);
        if same {
            count = count + 1;
        }
        i = i + 1;
    }
    (flags, count)
}

/// Whether a run passed: every labelled slot was read exactly.
pub fn evaluation_passed(correct: usize, slots: usize) -> (r: bool)
    ensures
        r == (correct == slots),
{
    correct == slots
}

// ---------------------------------------------------------------------------
// The order in which the calibrated name regions are replayed
// ---------------------------------------------------------------------------
/// The positions, in order, of the regions with slot `s`.
pub open spec fn positions_with_slot(slots: Seq<u8>, s: int, n: int) -> Seq<usize>
    decreases n,
{
    if n <= 0 {
        seq![]
    } else if slots[n - 1] == s {
        positions_with_slot(slots, s, n - 1).push((n - 1) as usize)
    } else {
        positions_with_slot(slots, s, n - 1)
    }
}

/// The positions of the regions of slots `s..=3`, slot by slot: the regions
/// sorted by slot (ties keep their order), those outside `1..=3` left out.
pub open spec fn replay_order_from(slots: Seq<u8>, s: int) -> Seq<usize>
    decreases 4 - s,
{
    if s > 3 || s < 1 {
        seq![]
    } else {
        positions_with_slot(slots, s, slots.len() as int) + replay_order_from(slots, s + 1)
    }
}

/// The positions of the name regions in the order they are replayed: by slot,
/// only slots 1, 2 and 3.
pub fn replay_region_order(slots: &Vec<u8>) -> (r: Vec<usize>)
    ensures
        r@ == replay_order_from(slots@, 1),
{
    let mut out: Vec<usize> = Vec::new();
    let mut s: u8 = 1;
    while s <= 3
        invariant
            1 <= s <= 4,
            out@ + replay_order_from(slots@, s as int) == replay_order_from(slots@, 1),
        decreases 4 - s,
    {
        let ghost before = out@;
        let mut j: usize = 0;
        while j < slots.len()
            invariant
                1 <= s <= 3,
                j <= slots@.len(),
                out@ == before + positions_with_slot(slots@, s as int, j as int),
                before + replay_order_from(slots@, s as int) == replay_order_from(slots@, 1),
            decreases slots.len() - j,
        {
            if slots[j] == s {
                out.push(j);
                proof {
                    assert(out@ =~= before + positions_with_slot(slots@, s as int, j + 1));
                }
            } else {
                proof {
                    assert(positions_with_slot(slots@, s as int, j + 1) == positions_with_slot(slots@, s as int, j as int));
                }
            }
            j = j + 1;
        }
        proof {
            assert(replay_order_from(slots@, s as int) == positions_with_slot(slots@, s as int, slots@.len() as int)
                + replay_order_from(slots@, s + 1));
            assert(out@ + replay_order_from(slots@, s + 1) =~= before + replay_order_from(slots@, s as int));
        }
        s = s + 1;
    }
    assert(replay_order_from(slots@, 4) == Seq::<usize>::empty());
    assert(out@ =~= out@ + replay_order_from(slots@, 4));
    out
}

} // verus!
