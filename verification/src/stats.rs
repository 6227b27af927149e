//! Bulk data helpers: the most frequent element of a slice, filtering
//! with doubling, and rendering values as labelled text.

use vstd::prelude::*;

use crate::numtext::int_text;
use crate::numtext::i64_to_text;

verus! {

/// How often `x` occurs in `s`.
pub open spec fn count_in(s: Seq<i32>, x: i32) -> nat
    decreases s.len(),
{
    if s.len() == 0 {
        0
    } else {
        count_in(s.drop_last(), x) + if s.last() == x {
            1nat
        } else {
            0nat
        }
    }
}

/// The index, among the first `i` elements of `s`, of the earliest
/// element whose count in all of `s` is maximal there.
pub open spec fn freq_best_upto(s: Seq<i32>, i: int) -> int
    decreases i,
{
    if i <= 1 {
        0
    } else {
        let b = freq_best_upto(s, i - 1);
        if count_in(s, s[i - 1]) > count_in(s, s[b]) {
            i - 1
        } else {
            b
        }
    }
}

/// `freq_best_upto` points at an element of maximal count among the
/// first `i`, and at the earliest one.
proof fn lemma_freq_best_upto(s: Seq<i32>, i: int)
    requires
        1 <= i <= s.len(),
    ensures
        0 <= freq_best_upto(s, i) < i,
        forall|j: int|
            0 <= j < i ==> count_in(s, #[trigger] s[j]) <= count_in(s, s[freq_best_upto(s, i)]),
        forall|j: int|
            0 <= j < freq_best_upto(s, i) ==> count_in(s, #[trigger] s[j]) < count_in(
                s,
                s[freq_best_upto(s, i)],
            ),
    decreases i,
{
    if i > 1 {
        lemma_freq_best_upto(s, i - 1);
    }
}

/// How often `x` occurs in `numbers`.
pub fn count_of(numbers: &[i32], x: i32) -> (r: usize)
    ensures
        r == count_in(numbers@, x),
{
    let n = numbers.len();
    let mut count: usize = 0;
    let mut i: usize = 0;
    while i < n
        invariant
            0 <= i <= n,
            n == numbers@.len(),
            count == count_in(numbers@.subrange(0, i as int), x),
            count <= i,
        decreases n - i,
    {
        proof {
            assert(numbers@.subrange(0, i + 1).drop_last() =~= numbers@.subrange(0, i as int));
        }
        if numbers[i] == x {
            count = count + 1;
        }
        i = i + 1;
    }
    proof {
        assert(numbers@.subrange(0, n as int) =~= numbers@);
    }
    count
}

/// The element of `numbers` occurring most often; among equally frequent
/// elements the one whose position comes first. An empty slice gives 0.
pub fn find_most_frequent(numbers: &[i32]) -> (r: i32)
    ensures
        numbers@.len() == 0 ==> r == 0,
        numbers@.len() > 0 ==> {
            let b = freq_best_upto(numbers@, numbers@.len() as int);
            r == numbers@[b] && (forall|j: int|
                0 <= j < numbers@.len() ==> count_in(numbers@, #[trigger] numbers@[j]) <= count_in(
                    numbers@,
                    r,
                )) && (forall|j: int|
                0 <= j < b ==> count_in(numbers@, #[trigger] numbers@[j]) < count_in(numbers@, r))
        },
{
    let n = numbers.len();
    if n == 0 {
        return 0;
    }
    let mut best: usize = 0;
    let mut best_count: usize = count_of(numbers, numbers[0]);
    let mut i: usize = 1;
    while i < n
        invariant
            1 <= i <= n,
            n == numbers@.len(),
            0 <= best < i,
            best == freq_best_upto(numbers@, i as int),
            best_count == count_in(numbers@, numbers@[best as int]),
        decreases n - i,
    {
        let c = count_of(numbers, numbers[i]);
        if c > best_count {
            best = i;
            best_count = c;
        }
        i = i + 1;
    }
    proof {
        lemma_freq_best_upto(numbers@, n as int);
    }
    numbers[best]
}

/// The positive elements of `s`, each doubled, in order.
pub open spec fn doubled_positives(s: Seq<i32>) -> Seq<i32>
    decreases s.len(),
{
    if s.len() == 0 {
        Seq::empty()
    } else {
        let rest = doubled_positives(s.drop_last());
        if s.last() > 0 {
            rest.push((2 * s.last()) as i32)
        } else {
            rest
        }
    }
}

/// Keeps the positive elements, doubled, in their order.
pub fn filter_and_transform(numbers: &[i32]) -> (r: Vec<i32>)
    requires
        forall|i: int| 0 <= i < numbers@.len() ==> #[trigger] numbers@[i] <= i32::MAX / 2,
    ensures
        r@ == doubled_positives(numbers@),
{
    let n = numbers.len();
    let mut out: Vec<i32> = Vec::new();
    let mut i: usize = 0;
    while i < n
        invariant
            0 <= i <= n,
            n == numbers@.len(),
            forall|k: int| 0 <= k < n ==> #[trigger] numbers@[k] <= i32::MAX / 2,
            out@ == doubled_positives(numbers@.subrange(0, i as int)),
        decreases n - i,
    {
        proof {
            assert(numbers@.subrange(0, i + 1).drop_last() =~= numbers@.subrange(0, i as int));
        }
        let x = numbers[i];
        if x > 0 {
            out.push(2 * x);
        }
        i = i + 1;
    }
    proof {
        assert(numbers@.subrange(0, n as int) =~= numbers@);
    }
    out
}

/// One line per value, each reading `Value: ` followed by the value's
/// decimal text.
pub fn process_strings(data: &[i32]) -> (r: Vec<String>)
    ensures
        r@.len() == data@.len(),
        forall|i: int|
            0 <= i < data@.len() ==> (#[trigger] r@[i])@ == "Value: "@ + int_text(
                data@[i] as int,
            ),
{
    let n = data.len();
    let mut out: Vec<String> = Vec::new();
    let mut i: usize = 0;
    while i < n
        invariant
            0 <= i <= n,
            n == data@.len(),
            out@.len() == i,
            forall|k: int|
                0 <= k < i ==> (#[trigger] out@[k])@ == "Value: "@ + int_text(data@[k] as int),
        decreases n - i,
    {
        let mut line = "Value: ".to_owned();
        line.append(i64_to_text(data[i] as i64).as_str());
        out.push(line);
        i = i + 1;
    }
    out
}

} // verus!
