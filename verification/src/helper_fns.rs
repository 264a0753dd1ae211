use vstd::prelude::*;
use vstd::arithmetic::power::pow;

verus! {

/// `input` is `base` raised to some exponent of at least one.
pub open spec fn is_power_of(input: int, base: int) -> bool {
    exists|k: nat| k >= 1 && #[trigger] pow(base, k) == input
}

proof fn lemma_pow_step(b: int, e: nat)
    ensures
        pow(b, e + 1) == b * pow(b, e),
{
    reveal(pow);
}

/// Tells whether `input` is a power of `candidate` with an exponent of at
/// least one (so `1` is never a power of `10`, but `10` and `100` are).
pub fn is_it_pow(input: usize, candidate: usize) -> (res: bool)
    ensures
        res == is_power_of(input as int, candidate as int),
{
    let base = candidate;
    if base == 0 {
        proof {
            if input == 0 {
                vstd::arithmetic::power::lemma0_pow(1);
                assert(pow(0, 1) == 0);
            } else {
                assert forall|k: nat| k >= 1 implies #[trigger] pow(0, k) != input by {
                    vstd::arithmetic::power::lemma0_pow(k);
                }
            }
        }
        return input == 0;
    }
    if base == 1 {
        proof {
            vstd::arithmetic::power::lemma1_pow(1);
            assert forall|k: nat| k >= 1 implies #[trigger] pow(1, k) == 1 by {
                vstd::arithmetic::power::lemma1_pow(k);
            }
        }
        return input == 1;
    }
    let mut current = candidate;
    let ghost b: nat = base as nat;
    let ghost mut e: nat = 1;
    proof {
        vstd::arithmetic::power::lemma_pow1(b as int);
    }
    if input < current {
        proof {
            assert forall|k: nat| k >= 1 implies #[trigger] pow(b as int, k) != input by {
                vstd::arithmetic::power::lemma_pow_increases(b, 1, k);
            }
        }
        return false;
    }
    loop
        invariant
            2 <= base,
            base == candidate,
            b == base,
            e >= 1,
            current == pow(b as int, e),
            2 <= current <= input,
            forall|j: nat| 1 <= j < e ==> #[trigger] pow(b as int, j) < input,
        decreases input - current,
    {
        if input == current {
            assert(pow(b as int, e) == input);
            return true;
        }
        proof {
            lemma_pow_step(b as int, e);
        }
        match current.checked_mul(base) {
            None => {
                proof {
                    assert forall|k: nat| k >= 1 implies #[trigger] pow(b as int, k) != input by {
                        if k > e {
                            vstd::arithmetic::power::lemma_pow_increases(b, e + 1, k);
                        }
                    }
                }
                return false;
            },
            Some(next) => {
                assert(next > current) by (nonlinear_arith)
                    requires
                        next == current * base,
                        base >= 2,
                        current >= 1,
                ;
                proof {
                    assert forall|j: nat| 1 <= j < e + 1 implies #[trigger] pow(b as int, j) < input by {
                        if j < e {
                        } else {
                            assert(j == e);
                        }
                    }
                    e = e + 1;
                }
                current = next;
                if input < current {
                    proof {
                        assert forall|k: nat| k >= 1 implies #[trigger] pow(b as int, k) != input by {
                            if k > e {
                                vstd::arithmetic::power::lemma_pow_increases(b, e, k);
                            }
                        }
                    }
                    return false;
                }
            },
        }
    }
}

} // verus!
