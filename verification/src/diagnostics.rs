//! Opt-in startup measurements: named phases with the time elapsed since start. Reading the
//! clock and writing the log file are left to the caller.
use vstd::prelude::*;

verus! {

/// The phases recorded so far, in the order they were reached, each with the nanoseconds
/// elapsed since start.
#[derive(Clone, Debug)]
pub struct PhaseLog {
    pub phases: Vec<(String, u128)>,
}

/// Records `phase` at `elapsed` nanoseconds when measurements are enabled (`log` is `Some`).
pub fn mark(log: &mut Option<PhaseLog>, phase: &str, elapsed: u128)
    ensures
        match *old(log) {
            None => *final(log) is None,
            Some(before) => *final(log) matches Some(after) && after.phases@.len() == before.phases@.len() + 1
                && after.phases@.drop_last() == before.phases@ && after.phases@.last().0@ == phase@
                && after.phases@.last().1 == elapsed,
        },
{
    match log {
        Some(trace) => {
            let ghost before = trace.phases@;
            trace.phases.push((phase.to_owned(), elapsed));
            assert(trace.phases@.drop_last() =~= before);
        },
        None => {},
    }
}

/// `a` comes before `b` in code-point order (the order of `str` keys in a `BTreeMap`).
pub open spec fn text_less(a: Seq<char>, b: Seq<char>) -> bool
    decreases a.len(),
{
    if a.len() == 0 {
        b.len() > 0
    } else if b.len() == 0 {
        false
    } else if a[0] != b[0] {
        (a[0] as int) < (b[0] as int)
    } else {
        text_less(a.drop_first(), b.drop_first())
    }
}

pub proof fn lemma_text_less_total(a: Seq<char>, b: Seq<char>)
    ensures
        a == b || text_less(a, b) || text_less(b, a),
        !(text_less(a, b) && text_less(b, a)),
        !text_less(a, a),
    decreases a.len(),
{
    if a.len() > 0 && b.len() > 0 {
        lemma_text_less_total(a.drop_first(), b.drop_first());
        if a[0] == b[0] && a.drop_first() == b.drop_first() {
            assert forall|k: int| 0 <= k < a.len() implies a[k] == b[k] by {
                if k > 0 {
                    assert(a[k] == a.drop_first()[k - 1]);
                    assert(b[k] == b.drop_first()[k - 1]);
                }
            }
            assert(a =~= b);
        }
    } else if a.len() == 0 && b.len() == 0 {
        assert(a =~= b);
    }
    if a.len() > 0 {
        lemma_text_less_total(a.drop_first(), a.drop_first());
    }
}

pub proof fn lemma_text_less_transitive(a: Seq<char>, b: Seq<char>, c: Seq<char>)
    requires
        text_less(a, b),
        text_less(b, c),
    ensures
        text_less(a, c),
    decreases a.len(),
{
    if a.len() > 0 && b.len() > 0 && c.len() > 0 {
        if a[0] == b[0] && b[0] == c[0] {
            lemma_text_less_transitive(a.drop_first(), b.drop_first(), c.drop_first());
        }
    }
}

/// Order of two texts.
#[derive(Clone, Copy, Debug, PartialEq, Eq, Structural)]
pub enum TextOrder {
    Before,
    Same,
    After,
}

/// Compares two texts in code-point order.
pub fn compare_text(a: &str, b: &str) -> (r: TextOrder)
    ensures
        r == TextOrder::Before <==> text_less(a@, b@),
        r == TextOrder::Same <==> a@ == b@,
        r == TextOrder::After <==> text_less(b@, a@),
{
    proof {
        lemma_text_less_total(a@, b@);
    }
    let n = a.unicode_len();
    let m = b.unicode_len();
    let mut i: usize = 0;
    assert(a@.skip(0) =~= a@);
    assert(b@.skip(0) =~= b@);
    while i < n && i < m
        invariant
            n == a@.len(),
            m == b@.len(),
            i <= n,
            i <= m,
            forall|k: int| 0 <= k < i ==> a@[k] == b@[k],
            text_less(a@, b@) == text_less(a@.skip(i as int), b@.skip(i as int)),
            text_less(b@, a@) == text_less(b@.skip(i as int), a@.skip(i as int)),
        decreases n - i,
    {
        let x = a.get_char(i);
        let y = b.get_char(i);
        proof {
            assert(a@.skip(i as int)[0] == x);
            assert(b@.skip(i as int)[0] == y);
            assert(a@.skip(i as int).drop_first() =~= a@.skip(i + 1));
            assert(b@.skip(i as int).drop_first() =~= b@.skip(i + 1));
        }
        if x != y {
            if (x as u32) < (y as u32) {
                return TextOrder::Before;
            } else {
                return TextOrder::After;
            }
        }
        i = i + 1;
    }
    if n == m {
        assert(a@ =~= b@);
        TextOrder::Same
    } else if i == n {
        assert(a@.skip(i as int).len() == 0);
        TextOrder::Before
    } else {
        assert(b@.skip(i as int).len() == 0);
        TextOrder::After
    }
}

/// The names in `entries` are in strictly increasing order.
pub open spec fn sorted_by_name(entries: Seq<(String, u128)>) -> bool {
    forall|i: int, j: int| 0 <= i < j < entries.len() ==> text_less((#[trigger] entries[i]).0@, (#[trigger] entries[j]).0@)
}

/// `phases[k]` is the last entry named `name` among the first `n`.
pub open spec fn last_named(phases: Seq<(String, u128)>, n: int, name: Seq<char>, k: int) -> bool {
    &&& 0 <= k < n
    &&& phases[k].0@ == name
    &&& forall|j: int| k < j < n ==> (#[trigger] phases[j]).0@ != name
}

/// `entry` carries the time of the last phase of its name among the first `n`.
pub open spec fn is_latest(phases: Seq<(String, u128)>, n: int, entry: (String, u128)) -> bool {
    exists|k: int| #[trigger] last_named(phases, n, entry.0@, k) && phases[k].1 == entry.1
}

/// Some entry of `summary` has the name `name`.
pub open spec fn has_name(summary: Seq<(String, u128)>, name: Seq<char>) -> bool {
    exists|i: int| 0 <= i < summary.len() && (#[trigger] summary[i]).0@ == name
}

/// Each entry of `summary` carries the time of the last phase of its name among the first `n`.
pub open spec fn latest_times(summary: Seq<(String, u128)>, phases: Seq<(String, u128)>, n: int) -> bool {
    forall|i: int| 0 <= i < summary.len() ==> is_latest(phases, n, #[trigger] summary[i])
}

/// Each of the first `n` phases has an entry of its name in `summary`.
pub open spec fn covers(summary: Seq<(String, u128)>, phases: Seq<(String, u128)>, n: int) -> bool {
    forall|k: int| 0 <= k < n ==> has_name(summary, (#[trigger] phases[k]).0@)
}

/// `summary` maps each name among the first `n` phases, in name order, to the time of its
/// last occurrence, as collecting them into a `BTreeMap` does.
pub open spec fn summarizes(summary: Seq<(String, u128)>, phases: Seq<(String, u128)>, n: int) -> bool {
    &&& sorted_by_name(summary)
    &&& latest_times(summary, phases, n)
    &&& covers(summary, phases, n)
}

proof fn lemma_replace_latest(phases: Seq<(String, u128)>, k: int, before: Seq<(String, u128)>, out: Seq<(String, u128)>, p: int)
    requires
        0 <= k < phases.len(),
        sorted_by_name(before),
        latest_times(before, phases, k),
        0 <= p < before.len(),
        before[p].0@ == phases[k].0@,
        out.len() == before.len(),
        forall|i: int| 0 <= i < out.len() && i != p ==> out[i] == before[i],
        out[p].0@ == phases[k].0@,
        out[p].1 == phases[k].1,
    ensures
        latest_times(out, phases, k + 1),
{
    let name = phases[k].0;
    assert forall|i: int| 0 <= i < out.len() implies is_latest(phases, k + 1, #[trigger] out[i]) by {
        if i == p {
            assert(last_named(phases, k + 1, out[i].0@, k));
        } else {
            assert(is_latest(phases, k, before[i]));
            let q = choose|q: int| #[trigger] last_named(phases, k, before[i].0@, q) && phases[q].1 == before[i].1;
            lemma_text_less_total(before[i].0@, name@);
            if i < p {
                assert(text_less(before[i].0@, before[p].0@));
            } else {
                assert(text_less(before[p].0@, before[i].0@));
            }
            assert(last_named(phases, k + 1, out[i].0@, q));
        }
    }
}

proof fn lemma_replace(phases: Seq<(String, u128)>, k: int, before: Seq<(String, u128)>, out: Seq<(String, u128)>, p: int)
    requires
        0 <= k < phases.len(),
        summarizes(before, phases, k),
        0 <= p < before.len(),
        before[p].0@ == phases[k].0@,
        out.len() == before.len(),
        forall|i: int| 0 <= i < out.len() && i != p ==> out[i] == before[i],
        out[p].0@ == phases[k].0@,
        out[p].1 == phases[k].1,
    ensures
        summarizes(out, phases, k + 1),
{
    assert forall|i: int, j: int| 0 <= i < j < out.len() implies text_less((#[trigger] out[i]).0@, (#[trigger] out[j]).0@) by {
        assert(text_less(before[i].0@, before[j].0@));
    }
    lemma_replace_latest(phases, k, before, out, p);
    assert forall|q: int| 0 <= q < k + 1 implies has_name(out, (#[trigger] phases[q]).0@) by {
        if q < k {
            assert(has_name(before, phases[q].0@));
            let i = choose|i: int| 0 <= i < before.len() && (#[trigger] before[i]).0@ == phases[q].0@;
            assert(out[i].0@ == before[i].0@);
        } else {
            assert(out[p].0@ == phases[q].0@);
        }
    }
}

proof fn lemma_insert_sorted(name: Seq<char>, before: Seq<(String, u128)>, out: Seq<(String, u128)>, p: int)
    requires
        sorted_by_name(before),
        0 <= p <= before.len(),
        forall|j: int| 0 <= j < p ==> text_less((#[trigger] before[j]).0@, name),
        p < before.len() ==> text_less(name, before[p].0@),
        out.len() == before.len() + 1,
        forall|i: int| 0 <= i < p ==> out[i] == before[i],
        forall|i: int| p < i < out.len() ==> out[i] == before[i - 1],
        out[p].0@ == name,
    ensures
        sorted_by_name(out),
        forall|j: int| 0 <= j < before.len() ==> (#[trigger] before[j]).0@ != name,
{
    let m = before.len();
    assert forall|j: int| p <= j < m implies text_less(name, (#[trigger] before[j]).0@) by {
        if j > p {
            assert(text_less(before[p].0@, before[j].0@));
            lemma_text_less_transitive(name, before[p].0@, before[j].0@);
        }
    }
    assert forall|j: int| 0 <= j < m implies (#[trigger] before[j]).0@ != name by {
        lemma_text_less_total(before[j].0@, name);
    }
    assert forall|i: int, j: int| 0 <= i < j < out.len() implies text_less((#[trigger] out[i]).0@, (#[trigger] out[j]).0@) by {
        if j < p {
            assert(text_less(before[i].0@, before[j].0@));
        } else if j == p {
            assert(out[i] == before[i]);
        } else if i < p {
            assert(out[j] == before[j - 1]);
            assert(text_less(before[i].0@, before[j - 1].0@));
            lemma_text_less_transitive(before[i].0@, name, before[j - 1].0@);
        } else if i == p {
            assert(out[j] == before[j - 1]);
        } else {
            assert(out[i] == before[i - 1]);
            assert(out[j] == before[j - 1]);
            assert(text_less(before[i - 1].0@, before[j - 1].0@));
        }
    }
}

proof fn lemma_insert(phases: Seq<(String, u128)>, k: int, before: Seq<(String, u128)>, out: Seq<(String, u128)>, p: int)
    requires
        0 <= k < phases.len(),
        summarizes(before, phases, k),
        0 <= p <= before.len(),
        forall|j: int| 0 <= j < p ==> text_less((#[trigger] before[j]).0@, phases[k].0@),
        p < before.len() ==> text_less(phases[k].0@, before[p].0@),
        out.len() == before.len() + 1,
        forall|i: int| 0 <= i < p ==> out[i] == before[i],
        forall|i: int| p < i < out.len() ==> out[i] == before[i - 1],
        out[p].0@ == phases[k].0@,
        out[p].1 == phases[k].1,
    ensures
        summarizes(out, phases, k + 1),
{
    let name = phases[k].0@;
    lemma_insert_sorted(name, before, out, p);
    assert forall|i: int| 0 <= i < out.len() implies is_latest(phases, k + 1, #[trigger] out[i]) by {
        if i == p {
            assert(last_named(phases, k + 1, out[i].0@, k));
        } else {
            let bi = if i < p { i } else { i - 1 };
            assert(out[i] == before[bi]);
            assert(is_latest(phases, k, before[bi]));
            let q = choose|q: int| #[trigger] last_named(phases, k, before[bi].0@, q) && phases[q].1 == before[bi].1;
            assert(before[bi].0@ != name);
            assert(last_named(phases, k + 1, out[i].0@, q));
        }
    }
    assert forall|q: int| 0 <= q < k + 1 implies has_name(out, (#[trigger] phases[q]).0@) by {
        if q < k {
            assert(has_name(before, phases[q].0@));
            let i = choose|i: int| 0 <= i < before.len() && (#[trigger] before[i]).0@ == phases[q].0@;
            let oi = if i < p { i } else { i + 1 };
            assert(out[oi] == before[i]);
        } else {
            assert(out[p].0@ == phases[q].0@);
        }
    }
}

/// The phases by name, each with the time it was last reached.
pub fn summarize(phases: &Vec<(String, u128)>) -> (r: Vec<(String, u128)>)
    ensures
        summarizes(r@, phases@, phases@.len() as int),
{
    let n = phases.len();
    let mut out: Vec<(String, u128)> = Vec::new();
    let mut k: usize = 0;
    while k < n
        invariant
            n == phases@.len(),
            k <= n,
            summarizes(out@, phases@, k as int),
        decreases n - k,
    {
        let name = &phases[k].0;
        let value = phases[k].1;
        let ghost before = out@;
        // Find the first entry whose name is not before `name`.
        let m = out.len();
        let mut p: usize = 0;
        while p < m && compare_text(out[p].0.as_str(), name.as_str()) == TextOrder::Before
            invariant
                m == out@.len(),
                out@ == before,
                p <= m,
                forall|j: int| 0 <= j < p ==> text_less((#[trigger] out@[j]).0@, name@),
            decreases m - p,
        {
            p = p + 1;
        }
        let order = if p < m { compare_text(out[p].0.as_str(), name.as_str()) } else { TextOrder::After };
        if order == TextOrder::Same {
            let entry = (name.clone(), value);
            out.set(p, entry);
            proof {
                lemma_replace(phases@, k as int, before, out@, p as int);
            }
        } else {
            let entry = (name.clone(), value);
            out.insert(p, entry);
            proof {
                if p < m {
                    lemma_text_less_total(before[p as int].0@, name@);
                }
                lemma_insert(phases@, k as int, before, out@, p as int);
            }
        }
        k = k + 1;
    }
    out
}

} // verus!
