use vstd::prelude::*;

use crate::laws::{front_pushes, lemma_front_pushes_reverse};
use crate::list::List;
use crate::render::{int_text, Render};

verus! {

/// One line of the results file:
/// `<metric>,<runtime label>,<count>,<value>` and a newline.
pub open spec fn csv_line(metric: Seq<char>, label: Seq<char>, n: int, value: int) -> Seq<char> {
    metric + seq![','] + label + seq![','] + int_text(n) + seq![','] + int_text(value) + seq!['\n']
}

/// The results-file line that records `value` for `metric`, measured on the
/// runtime `label` with `n` elements or runs.
pub fn result_line(metric: &str, label: &str, n: usize, value: u128) -> (r: String)
    ensures
        r@ == csv_line(metric@, label@, n as int, value as int),
{
    let mut out = String::from_str(metric);
    out.append(",");
    out.append(label);
    out.append(",");
    out.append(n.render().as_str());
    out.append(",");
    out.append(value.render().as_str());
    out.append("\n");
    proof {
        reveal_strlit(",");
        reveal_strlit("\n");
        assert(out@ =~= csv_line(metric@, label@, n as int, value as int));
    }
    out
}

/// Builds a list by pushing each of `values` at the front in turn, as the
/// list-creation benchmark does; the list holds them in reverse order.
pub fn build_front<T: Copy>(values: &Vec<T>) -> (l: List<T>)
    ensures
        l@ == front_pushes(Seq::empty(), values@),
        l@ == values@.reverse(),
{
    let mut l = List::new();
    let mut i: usize = 0;
    while i < values.len()
        invariant
            i <= values@.len(),
            l@ == front_pushes(Seq::empty(), values@.subrange(0, i as int)),
            l@.len() == i,
        decreases values@.len() - i,
    {
        let v = values[i];
        proof {
            let next = values@.subrange(0, i + 1);
            assert(next.drop_last() =~= values@.subrange(0, i as int));
            assert(next.last() == v);
        }
        l.push_front(v);
        i = i + 1;
    }
    proof {
        assert(values@.subrange(0, i as int) =~= values@);
        lemma_front_pushes_reverse(values@);
    }
    l
}

/// The cost per run of creating a thread: the time of `runs` spawn-and-join
/// rounds less the time of as many direct calls, divided by `runs`.
pub fn per_run_overhead(thread_ns: u128, direct_ns: u128, runs: usize) -> (r: u128)
    requires
        direct_ns <= thread_ns,
        runs > 0,
    ensures
        r == (thread_ns - direct_ns) / (runs as int),
{
    (thread_ns - direct_ns) / (runs as u128)
}

/// The latency of one context switch, from the time of ping-pong round trips:
/// each round trip is two switches.
pub fn switch_latency(round_trips_ns: u128) -> (r: u128)
    ensures
        r == round_trips_ns / 2,
{
    round_trips_ns / 2
}

/// Fills `a` with `1, 2, 3, ...`, as the static-memory benchmark does.
pub fn fill_ascending(a: &mut [i32])
    requires
        old(a)@.len() <= i32::MAX,
    ensures
        final(a)@.len() == old(a)@.len(),
        forall|k: int| 0 <= k < final(a)@.len() ==> final(a)@[k] == k + 1,
{
    let n = a.len();
    let mut i: usize = 0;
    while i < n
        invariant
            n == a@.len(),
            n <= i32::MAX,
            i <= n,
            forall|k: int| 0 <= k < i ==> a@[k] == k + 1,
        decreases n - i,
    {
        a[i] = (i as i32) + 1;
        i = i + 1;
    }
}

/// The body run by each thread of the thread-creation benchmark: nothing.
pub fn run_function() {
}

} // verus!
