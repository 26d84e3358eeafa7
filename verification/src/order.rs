//! The order of display lines, and sorting a list of lines without repeats.

use itertools::Itertools;
use vstd::prelude::*;
use vstd::relations::*;
use vstd::seq_lib::*;

verus! {

/// `a` comes before `b`, or equals it, in the order of strings: at the first
/// place where the two differ the character of `a` has the lower code point,
/// or `a` ends there.
pub open spec fn precedes(a: Seq<char>, b: Seq<char>) -> bool
    decreases a.len(),
{
    if a.len() == 0 {
        true
    } else if b.len() == 0 {
        false
    } else if a[0] == b[0] {
        precedes(a.drop_first(), b.drop_first())
    } else {
        (a[0] as u32) < (b[0] as u32)
    }
}

/// [`precedes`] as a relation.
pub open spec fn line_order() -> spec_fn(Seq<char>, Seq<char>) -> bool {
    |a: Seq<char>, b: Seq<char>| precedes(a, b)
}

/// Each line comes strictly before every later one.
pub open spec fn strictly_ascending(lines: Seq<Seq<char>>) -> bool {
    forall|i: int, j: int|
        0 <= i < j < lines.len() ==> precedes(#[trigger] lines[i], #[trigger] lines[j])
            && lines[i] != lines[j]
}

/// The lines in their given order, each kept where it first occurs and left
/// out where it occurs again.
pub open spec fn first_occurrences(lines: Seq<Seq<char>>) -> Seq<Seq<char>>
    decreases lines.len(),
{
    if lines.len() == 0 {
        lines
    } else {
        let kept = first_occurrences(lines.drop_last());
        if kept.contains(lines.last()) {
            kept
        } else {
            kept.push(lines.last())
        }
    }
}

/// The lines in ascending order, each of them once.
pub open spec fn sorted_unique(lines: Seq<Seq<char>>) -> Seq<Seq<char>> {
    first_occurrences(lines.sort_by(line_order()))
}

proof fn lemma_distinct_code_points(c: char, d: char)
    requires
        c != d,
    ensures
        c as u32 != d as u32,
{
}

pub proof fn lemma_precedes_reflexive(a: Seq<char>)
    ensures
        precedes(a, a),
    decreases a.len(),
{
    if a.len() > 0 {
        lemma_precedes_reflexive(a.drop_first());
    }
}

pub proof fn lemma_precedes_antisymmetric(a: Seq<char>, b: Seq<char>)
    requires
        precedes(a, b),
        precedes(b, a),
    ensures
        a == b,
    decreases a.len(),
{
    if a.len() == 0 {
        assert(a =~= b);
    } else {
        lemma_precedes_antisymmetric(a.drop_first(), b.drop_first());
        assert(a =~= seq![a[0]] + a.drop_first());
        assert(b =~= seq![b[0]] + b.drop_first());
    }
}

pub proof fn lemma_precedes_transitive(a: Seq<char>, b: Seq<char>, c: Seq<char>)
    requires
        precedes(a, b),
        precedes(b, c),
    ensures
        precedes(a, c),
    decreases a.len(),
{
    if a.len() > 0 && a[0] == b[0] && b[0] == c[0] {
        lemma_precedes_transitive(a.drop_first(), b.drop_first(), c.drop_first());
    }
}

pub proof fn lemma_precedes_total(a: Seq<char>, b: Seq<char>)
    ensures
        precedes(a, b) || precedes(b, a),
    decreases a.len(),
{
    if a.len() > 0 && b.len() > 0 {
        if a[0] == b[0] {
            lemma_precedes_total(a.drop_first(), b.drop_first());
        } else {
            lemma_distinct_code_points(a[0], b[0]);
        }
    }
}

/// The order of lines is a total order.
pub proof fn lemma_line_order_total()
    ensures
        total_ordering(line_order()),
{
    let order = line_order();
    assert forall|x: Seq<char>| #[trigger] order(x, x) by {
        lemma_precedes_reflexive(x);
    }
    assert forall|x: Seq<char>, y: Seq<char>| #[trigger] order(x, y) && #[trigger] order(y, x)
        implies x == y by {
        lemma_precedes_antisymmetric(x, y);
    }
    assert forall|x: Seq<char>, y: Seq<char>, z: Seq<char>| #[trigger]
        order(x, y) && #[trigger] order(y, z) implies order(x, z) by {
        lemma_precedes_transitive(x, y, z);
    }
    assert forall|x: Seq<char>, y: Seq<char>| #[trigger] order(x, y) || #[trigger] order(y, x) by {
        lemma_precedes_total(x, y);
    }
}

/// Keeping first occurrences loses no line and adds none, and of lines in
/// ascending order it leaves a strictly ascending list.
pub proof fn lemma_first_occurrences(lines: Seq<Seq<char>>)
    ensures
        forall|line: Seq<char>| first_occurrences(lines).contains(line) <==> lines.contains(line),
        first_occurrences(lines).no_duplicates(),
        first_occurrences(lines).len() <= lines.len(),
        sorted_by(lines, line_order()) ==> strictly_ascending(first_occurrences(lines)),
    decreases lines.len(),
{
    let out = first_occurrences(lines);
    if lines.len() > 0 {
        let init = lines.drop_last();
        let kept = first_occurrences(init);
        lemma_first_occurrences(init);
        assert forall|line: Seq<char>| out.contains(line) <==> lines.contains(line) by {
            if out.contains(line) {
                let k = choose|k: int| 0 <= k < out.len() && out[k] == line;
                if k < kept.len() {
                    assert(kept[k] == line);
                    assert(init.contains(line));
                    let m = choose|m: int| 0 <= m < init.len() && init[m] == line;
                    assert(lines[m] == line);
                } else {
                    assert(line == lines.last());
                    assert(lines[lines.len() - 1] == line);
                }
            }
            if lines.contains(line) {
                let m = choose|m: int| 0 <= m < lines.len() && lines[m] == line;
                if m < init.len() {
                    assert(init[m] == line);
                    assert(init.contains(line));
                    assert(kept.contains(line));
                    let k = choose|k: int| 0 <= k < kept.len() && kept[k] == line;
                    assert(out[k] == line);
                } else if kept.contains(line) {
                    let k = choose|k: int| 0 <= k < kept.len() && kept[k] == line;
                    assert(out[k] == line);
                } else {
                    assert(out[kept.len() as int] == line);
                }
            }
        }
        if sorted_by(lines, line_order()) {
            assert(sorted_by(init, line_order())) by {
                assert forall|i: int, j: int| 0 <= i < j < init.len() implies #[trigger]
                    line_order()(init[i], init[j]) by {
                    assert(line_order()(lines[i], lines[j]));
                }
            }
            assert forall|i: int, j: int| 0 <= i < j < out.len() implies precedes(
                #[trigger] out[i],
                #[trigger] out[j],
            ) && out[i] != out[j] by {
                if j == kept.len() {
                    assert(kept[i] == out[i]);
                    assert(kept.contains(out[i]));
                    assert(init.contains(out[i]));
                    let m = choose|m: int| 0 <= m < init.len() && init[m] == out[i];
                    assert(line_order()(lines[m], lines[lines.len() - 1]));
                } else {
                    assert(kept[i] == out[i] && kept[j] == out[j]);
                }
            }
        }
    }
}

/// Sorting without repeats gives a strictly ascending list of exactly the
/// lines that were given.
pub proof fn lemma_sorted_unique_ascending(lines: Seq<Seq<char>>)
    ensures
        strictly_ascending(sorted_unique(lines)),
        forall|line: Seq<char>| sorted_unique(lines).contains(line) <==> lines.contains(line),
        sorted_unique(lines).no_duplicates(),
        sorted_unique(lines).len() <= lines.len(),
{
    broadcast use group_to_multiset_ensures;

    let sorted = lines.sort_by(line_order());
    lemma_line_order_total();
    lines.lemma_sort_by_ensures(line_order());
    lemma_first_occurrences(sorted);
    assert(sorted.len() == lines.len()) by {
        assert(sorted.to_multiset().len() == lines.to_multiset().len());
    }
    assert forall|line: Seq<char>| sorted.contains(line) <==> lines.contains(line) by {
        assert(sorted.to_multiset().count(line) == lines.to_multiset().count(line));
    }
}

/// A strictly ascending list is determined by the lines it holds.
pub proof fn lemma_strictly_ascending_unique(a: Seq<Seq<char>>, b: Seq<Seq<char>>)
    requires
        strictly_ascending(a),
        strictly_ascending(b),
        forall|line: Seq<char>| a.contains(line) <==> b.contains(line),
    ensures
        a == b,
    decreases a.len(),
{
    if a.len() == 0 {
        if b.len() > 0 {
            assert(b.contains(b[0]));
        }
        assert(a =~= b);
    } else if b.len() == 0 {
        assert(a.contains(a[0]));
    } else {
        let x = a.last();
        let y = b.last();
        assert(a.contains(x)) by {
            assert(a[a.len() - 1] == x);
        }
        assert(b.contains(y)) by {
            assert(b[b.len() - 1] == y);
        }
        let j = choose|j: int| 0 <= j < b.len() && b[j] == x;
        let i = choose|i: int| 0 <= i < a.len() && a[i] == y;
        lemma_precedes_reflexive(x);
        lemma_precedes_reflexive(y);
        assert(precedes(x, y)) by {
            if j < b.len() - 1 {
                assert(precedes(b[j], b[b.len() - 1]));
            }
        }
        assert(precedes(y, x)) by {
            if i < a.len() - 1 {
                assert(precedes(a[i], a[a.len() - 1]));
            }
        }
        lemma_precedes_antisymmetric(x, y);
        let a0 = a.drop_last();
        let b0 = b.drop_last();
        assert forall|line: Seq<char>| a0.contains(line) <==> b0.contains(line) by {
            if a0.contains(line) {
                let k = choose|k: int| 0 <= k < a0.len() && a0[k] == line;
                assert(a[k] == line && a[k] != a[a.len() - 1]);
                assert(a.contains(line));
                let m = choose|m: int| 0 <= m < b.len() && b[m] == line;
                assert(b0[m] == line);
            }
            if b0.contains(line) {
                let k = choose|k: int| 0 <= k < b0.len() && b0[k] == line;
                assert(b[k] == line && b[k] != b[b.len() - 1]);
                assert(b.contains(line));
                let m = choose|m: int| 0 <= m < a.len() && a[m] == line;
                assert(a0[m] == line);
            }
        }
        assert(strictly_ascending(a0)) by {
            assert forall|i: int, j: int| 0 <= i < j < a0.len() implies precedes(
                #[trigger] a0[i],
                #[trigger] a0[j],
            ) && a0[i] != a0[j] by {
                assert(a[i] == a0[i] && a[j] == a0[j]);
            }
        }
        assert(strictly_ascending(b0)) by {
            assert forall|i: int, j: int| 0 <= i < j < b0.len() implies precedes(
                #[trigger] b0[i],
                #[trigger] b0[j],
            ) && b0[i] != b0[j] by {
                assert(b[i] == b0[i] && b[j] == b0[j]);
            }
        }
        lemma_strictly_ascending_unique(a0, b0);
        assert(a =~= a0.push(x));
        assert(b =~= b0.push(y));
    }
}

/// Lists that hold the same lines, in whatever order and however often,
/// sort to the same list without repeats.
pub proof fn lemma_sorted_unique_by_content(a: Seq<Seq<char>>, b: Seq<Seq<char>>)
    requires
        forall|line: Seq<char>| a.contains(line) <==> b.contains(line),
    ensures
        sorted_unique(a) == sorted_unique(b),
{
    lemma_sorted_unique_ascending(a);
    lemma_sorted_unique_ascending(b);
    assert forall|line: Seq<char>|
        sorted_unique(a).contains(line) <==> sorted_unique(b).contains(line) by {
        assert(a.contains(line) <==> b.contains(line));
    }
    lemma_strictly_ascending_unique(sorted_unique(a), sorted_unique(b));
}

/// Sorts the lines with `Itertools::sorted`, which collects them, sorts them
/// with the stable sort of slices by the order of `String`, and hands them
/// back: the same lines, as often as before, in ascending order. The order
/// of `String` is that of the code points, place by place. The result is
/// collected with `Itertools::collect_vec`.
#[verifier::external_body]
fn sorted(lines: Vec<String>) -> (out: Vec<String>)
    ensures
        out.deep_view().to_multiset() == lines.deep_view().to_multiset(),
        sorted_by(out.deep_view(), line_order()),
{
    lines.into_iter().sorted().collect_vec()
}

/// Drops repeated lines with `Itertools::unique`, which hands on each line
/// the first time it meets it and skips it from then on, so that the lines
/// that stay keep their order. The result is collected with
/// `Itertools::collect_vec`.
#[verifier::external_body]
fn unique(lines: Vec<String>) -> (out: Vec<String>)
    ensures
        out.deep_view() == first_occurrences(lines.deep_view()),
{
    lines.into_iter().unique().collect_vec()
}

/// Sorts the lines in ascending order and keeps each of them once.
pub fn sort_unique(lines: Vec<String>) -> (out: Vec<String>)
    ensures
        out.deep_view() == sorted_unique(lines.deep_view()),
{
    let ghost given = lines.deep_view();
    let ascending = sorted(lines);
    proof {
        lemma_line_order_total();
        given.lemma_sort_by_ensures(line_order());
        lemma_sorted_unique(
            ascending.deep_view(),
            given.sort_by(line_order()),
            line_order(),
        );
    }
    unique(ascending)
}

} // verus!
