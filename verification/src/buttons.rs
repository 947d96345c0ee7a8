//! Buttons of a notification and the hints that pick them from the keyboard: the
//! `i`-th button is labelled with the `i`-th word over the hint characters, counted in
//! bijective base `n` (`a`, ..., `z`, `aa`, `ab`, ...).
use crate::text::string_of;
use vstd::arithmetic::div_mod::{lemma_div_pos_is_pos, lemma_fundamental_div_mod, lemma_small_mod};
use vstd::prelude::*;

verus! {

/// How a button looks under the pointer.
#[derive(PartialEq, Eq, Structural, Debug, Clone, Copy)]
pub enum State {
    Unhovered,
    Hovered,
    Clicked,
}

/// What a button does.
#[derive(PartialEq, Eq, Structural, Debug, Clone, Copy)]
pub enum ButtonType {
    Dismiss,
    Action,
}

/// Buttons not yet laid out.
#[derive(Debug)]
pub struct NotReady;

/// Buttons laid out.
#[derive(Debug)]
pub struct Ready;

/// Buttons laid out and labelled with hints.
#[derive(Debug)]
pub struct Finished;

/// The digits (least significant last) of `i` in bijective base `n`.
pub open spec fn hint_digits(i: nat, n: nat) -> Seq<nat>
    decreases i,
{
    if n == 0 {
        Seq::empty()
    } else if i < n {
        seq![i]
    } else {
        proof {
            lemma_div_below(i, n);
        }
        hint_digits((i / n - 1) as nat, n).push(i % n)
    }
}

/// For `0 < n <= i`, the quotient `i / n` lies between 1 and `i`.
pub proof fn lemma_div_below(i: nat, n: nat)
    requires
        0 < n <= i,
    ensures
        1 <= i / n <= i,
{
    lemma_fundamental_div_mod(i as int, n as int);
    lemma_div_pos_is_pos(i as int, n as int);
    assert(i / n <= i) by (nonlinear_arith)
        requires
            0 < n,
            i == n * (i / n) + i % n,
            0 <= i % n,
            0 <= i / n,
    ;
    assert(i / n >= 1) by (nonlinear_arith)
        requires
            0 < n <= i,
            i == n * (i / n) + i % n,
            i % n < n,
            0 <= i / n,
    ;
}

/// The hint label of the `i`-th button.
pub open spec fn hint_label(i: nat, chars: Seq<char>) -> Seq<char> {
    hint_digits(i, chars.len()).map_values(|d: nat| chars[d as int])
}

proof fn lemma_digits_shape(i: nat, n: nat)
    requires
        n > 0,
    ensures
        hint_digits(i, n).len() >= 1,
        (hint_digits(i, n).len() == 1) == (i < n),
        forall|k: int| 0 <= k < hint_digits(i, n).len() ==> #[trigger] hint_digits(i, n)[k] < n,
    decreases i,
{
    if i >= n {
        lemma_div_below(i, n);
        lemma_digits_shape((i / n - 1) as nat, n);
    }
}

proof fn lemma_digits_injective(i: nat, j: nat, n: nat)
    requires
        n > 0,
        hint_digits(i, n) == hint_digits(j, n),
    ensures
        i == j,
    decreases i,
{
    lemma_digits_shape(i, n);
    lemma_digits_shape(j, n);
    if i < n {
        assert(hint_digits(i, n)[0] == i);
        assert(hint_digits(j, n)[0] == j);
    } else {
        lemma_div_below(i, n);
        lemma_div_below(j, n);
        let a = (i / n - 1) as nat;
        let b = (j / n - 1) as nat;
        assert(hint_digits(a, n) =~= hint_digits(i, n).drop_last());
        assert(hint_digits(b, n) =~= hint_digits(j, n).drop_last());
        lemma_digits_injective(a, b, n);
        assert(hint_digits(i, n) == hint_digits(a, n).push(i % n));
        assert(hint_digits(j, n) == hint_digits(b, n).push(j % n));
        assert(hint_digits(i, n).last() == i % n);
        assert(hint_digits(j, n).last() == j % n);
        lemma_fundamental_div_mod(i as int, n as int);
        lemma_fundamental_div_mod(j as int, n as int);
    }
}

/// With distinct hint characters, different buttons get different labels, and no label
/// is empty.
pub proof fn law_hint_labels_distinct(i: nat, j: nat, chars: Seq<char>)
    requires
        chars.len() > 0,
        forall|a: int, b: int| 0 <= a < b < chars.len() ==> chars[a] != chars[b],
        i != j,
    ensures
        hint_label(i, chars) != hint_label(j, chars),
        hint_label(i, chars).len() >= 1,
{
    let n = chars.len();
    lemma_digits_shape(i, n);
    lemma_digits_shape(j, n);
    let di = hint_digits(i, n);
    let dj = hint_digits(j, n);
    if hint_label(i, chars) == hint_label(j, chars) {
        assert(hint_label(i, chars).len() == di.len());
        assert(hint_label(j, chars).len() == dj.len());
        assert forall|k: int| 0 <= k < di.len() implies di[k] == dj[k] by {
            assert(hint_label(i, chars)[k] == chars[di[k] as int]);
            assert(hint_label(j, chars)[k] == chars[dj[k] as int]);
            if di[k] < dj[k] {
                assert(chars[di[k] as int] != chars[dj[k] as int]);
            } else if dj[k] < di[k] {
                assert(chars[dj[k] as int] != chars[di[k] as int]);
            }
        }
        assert(di =~= dj);
        lemma_digits_injective(i, j, n);
    }
}

/// The hint label of the `index`-th button over `hint_chars`.
pub fn hint_combination(index: usize, hint_chars: &Vec<char>) -> (s: String)
    requires
        hint_chars.len() > 0,
    ensures
        s@ == hint_label(index as nat, hint_chars@),
{
    let n = hint_chars.len();
    let ghost nn = n as nat;
    let mut m = index;
    let mut rev: Vec<usize> = Vec::new();
    proof {
        lemma_digits_shape(index as nat, nn);
    }
    loop
        invariant_except_break
            hint_digits(index as nat, nn) == hint_digits(m as nat, nn) + rev@.map_values(
                |d: usize| d as nat,
            ).reverse(),
        invariant
            n == hint_chars.len(),
            n > 0,
            nn == n,
        ensures
            hint_digits(index as nat, nn) == rev@.map_values(|d: usize| d as nat).reverse(),
        decreases m,
    {
        let ghost before = rev@;
        rev.push(m % n);
        if m < n {
            proof {
                lemma_small_mod(m as nat, nn);
                assert(rev@.map_values(|d: usize| d as nat).reverse() =~= seq![m as nat]
                    + before.map_values(|d: usize| d as nat).reverse());
                assert(hint_digits(m as nat, nn) == seq![m as nat]);
            }
            break;
        }
        proof {
            lemma_div_below(m as nat, nn);
            let q = (m as nat / nn - 1) as nat;
            assert(hint_digits(m as nat, nn) == hint_digits(q, nn).push(m as nat % nn));
            assert(rev@.map_values(|d: usize| d as nat).reverse() =~= seq![m as nat % nn]
                + before.map_values(|d: usize| d as nat).reverse());
            assert(hint_digits(index as nat, nn) =~= hint_digits(q, nn) + rev@.map_values(
                |d: usize| d as nat,
            ).reverse());
        }
        m = m / n - 1;
    }
    let ghost digits = hint_digits(index as nat, nn);
    assert(digits =~= rev@.map_values(|d: usize| d as nat).reverse());
    proof {
        lemma_digits_shape(index as nat, nn);
    }
    let mut out: Vec<char> = Vec::new();
    let mut k: usize = rev.len();
    while k > 0
        invariant
            k <= rev.len(),
            n == hint_chars.len(),
            digits == rev@.map_values(|d: usize| d as nat).reverse(),
            digits == hint_digits(index as nat, nn),
            nn == n,
            forall|t: int| 0 <= t < digits.len() ==> #[trigger] digits[t] < nn,
            out@ == digits.take(rev.len() - k).map_values(|d: nat| hint_chars@[d as int]),
        decreases k,
    {
        k = k - 1;
        let d = rev[k];
        proof {
            assert(digits[rev.len() - 1 - k] == d as nat);
        }
        out.push(hint_chars[d]);
        assert(digits.take(rev.len() - k).map_values(|d: nat| hint_chars@[d as int]) =~= digits.take(
            rev.len() - 1 - k,
        ).map_values(|d: nat| hint_chars@[d as int]).push(hint_chars@[d as int]));
    }
    assert(digits.take(rev.len() as int) =~= digits);
    string_of(&out)
}

/// The labels of `count` buttons, in order.
pub fn hint_combinations(count: usize, hint_chars: &Vec<char>) -> (v: Vec<String>)
    requires
        hint_chars.len() > 0,
    ensures
        v@.len() == count,
        forall|i: int| 0 <= i < count ==> #[trigger] v@[i]@ == hint_label(i as nat, hint_chars@),
{
    let mut v: Vec<String> = Vec::new();
    let mut i: usize = 0;
    while i < count
        invariant
            i <= count,
            hint_chars.len() > 0,
            v@.len() == i,
            forall|k: int| 0 <= k < i ==> #[trigger] v@[k]@ == hint_label(k as nat, hint_chars@),
        decreases count - i,
    {
        let s = hint_combination(i, hint_chars);
        v.push(s);
        i = i + 1;
    }
    v
}

/// The button whose hint label is `combination`: the first such, if any.
pub fn find_hint(labels: &Vec<String>, combination: &str) -> (r: Option<usize>)
    ensures
        r matches Some(i) ==> i < labels@.len() && labels@[i as int]@ == combination@ && forall|
            k: int,
        |
            0 <= k < i ==> #[trigger] labels@[k]@ != combination@,
        r is None ==> forall|k: int| 0 <= k < labels@.len() ==> #[trigger] labels@[k]@
            != combination@,
{
    let mut i: usize = 0;
    while i < labels.len()
        invariant
            i <= labels.len(),
            forall|k: int| 0 <= k < i ==> #[trigger] labels@[k]@ != combination@,
        decreases labels.len() - i,
    {
        if crate::text::str_eq(labels[i].as_str(), combination) {
            return Some(i);
        }
        i = i + 1;
    }
    None
}

} // verus!
