use vstd::prelude::*;

use crate::chars::{digit_of, digit_value, is_digit_of};

verus! {

/// The value of the digits `t` in base `base`, most significant first.
pub open spec fn digits_value(t: Seq<char>, base: u32) -> int
    decreases t.len(),
{
    if t.len() == 0 {
        0
    } else {
        digits_value(t.drop_last(), base) * base + match digit_value(t.last()) {
            Some(d) => d as int,
            None => 0,
        }
    }
}

pub open spec fn all_digits(t: Seq<char>, base: u32) -> bool {
    forall|k: int| 0 <= k < t.len() ==> is_digit_of(#[trigger] t[k], base)
}

/// What `t` denotes as an integer literal in base `base`: its value where `t`
/// is a non-empty run of digits whose value fits in an `i128`, else 0.
pub open spec fn integer_value(t: Seq<char>, base: u32) -> i128 {
    if t.len() > 0 && all_digits(t, base) && digits_value(t, base) <= i128::MAX {
        digits_value(t, base) as i128
    } else {
        0
    }
}

proof fn lemma_digits_value_grows(t: Seq<char>, base: u32, k: int)
    requires
        1 <= base,
        0 <= k <= t.len(),
        all_digits(t, base),
    ensures
        0 <= digits_value(t.subrange(0, k), base) <= digits_value(t, base),
    decreases t.len(),
{
    if k < t.len() {
        let u = t.drop_last();
        assert(all_digits(u, base)) by {
            assert forall|j: int| 0 <= j < u.len() implies is_digit_of(#[trigger] u[j], base) by {
                assert(u[j] == t[j]);
            }
        }
        lemma_digits_value_grows(u, base, k);
        assert(u.subrange(0, k) =~= t.subrange(0, k));
        let v = digits_value(u, base);
        let d: int = match digit_value(t.last()) {
            Some(d) => d as int,
            None => 0,
        };
        assert(0 <= d);
        assert(v * base >= v) by (nonlinear_arith)
            requires
                v >= 0,
                base >= 1,
        ;
    } else {
        assert(t.subrange(0, k) =~= t);
        lemma_digits_value_nonneg(t, base);
    }
}

proof fn lemma_digits_value_nonneg(t: Seq<char>, base: u32)
    ensures
        0 <= digits_value(t, base),
    decreases t.len(),
{
    if t.len() > 0 {
        lemma_digits_value_nonneg(t.drop_last(), base);
        let v = digits_value(t.drop_last(), base);
        assert(v * base >= 0) by (nonlinear_arith)
            requires
                v >= 0,
                base >= 0,
        ;
    }
}

/// Reads `t` as an integer in base `base`: 0 where `t` is empty, holds a
/// character that is no digit of the base, or denotes a value beyond `i128`.
pub fn parse_integer(t: &Vec<char>, base: u32) -> (r: i128)
    requires
        2 <= base <= 36,
    ensures
        r == integer_value(t@, base),
{
    if t.len() == 0 {
        return 0;
    }
    let mut acc: i128 = 0;
    let mut i: usize = 0;
    while i < t.len()
        invariant
            2 <= base <= 36,
            i <= t@.len(),
            all_digits(t@.subrange(0, i as int), base),
            acc == digits_value(t@.subrange(0, i as int), base),
        decreases t@.len() - i,
    {
        let ghost pre = t@.subrange(0, i as int);
        let ghost next = t@.subrange(0, i + 1);
        assert(next.drop_last() =~= pre);
        let d = match digit_of(t[i]) {
            Some(d) => d,
            None => {
                return 0;
            },
        };
        if d >= base {
            return 0;
        }
        assert(all_digits(next, base)) by {
            assert forall|j: int| 0 <= j < next.len() implies is_digit_of(
                #[trigger] next[j],
                base,
            ) by {
                if j < i {
                    assert(next[j] == pre[j]);
                }
            }
        }
        let grown = acc.checked_mul(base as i128);
        let grown = match grown {
            Some(g) => g,
            None => {
                proof {
                    if all_digits(t@, base) {
                        lemma_digits_value_grows(t@, base, i + 1);
                    }
                }
                return 0;
            },
        };
        match grown.checked_add(d as i128) {
            Some(v) => {
                acc = v;
            },
            None => {
                proof {
                    if all_digits(t@, base) {
                        lemma_digits_value_grows(t@, base, i + 1);
                    }
                }
                return 0;
            },
        }
        i = i + 1;
    }
    assert(t@.subrange(0, i as int) =~= t@);
    acc
}

} // verus!
