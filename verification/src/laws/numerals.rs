//! What numbers that are spelt out stand for.

use vstd::prelude::*;
use crate::text::{decimal, padded};

verus! {

/// The number that the digits `t` spell.
pub open spec fn spelt(t: Seq<char>) -> int
    decreases t.len(),
{
    if t.len() == 0 {
        0
    } else {
        spelt(t.drop_last()) * 10 + (t.last() as int - 48)
    }
}

/// Whether all of `t` are digits.
pub open spec fn all_digits(t: Seq<char>) -> bool {
    forall|i: int| 0 <= i < t.len() ==> 48 <= (#[trigger] t[i]) as int <= 57
}

/// A number is spelt in digits that stand for it, without zeros in front.
pub proof fn lemma_decimal_spells(n: nat)
    ensures
        spelt(decimal(n)) == n,
        all_digits(decimal(n)),
        decimal(n).len() > 0,
        n > 0 ==> decimal(n)[0] != '0',
        decimal(0) == seq!['0'],
    decreases n,
{
    reveal_with_fuel(spelt, 2);
    assert(decimal(0) =~= seq!['0']);
    if n >= 10 {
        lemma_decimal_spells(n / 10);
        assert(decimal(n).drop_last() =~= decimal(n / 10));
        assert(decimal(n)[0] == decimal(n / 10)[0]);
    } else {
        assert(decimal(n).drop_last() =~= Seq::<char>::empty());
    }
}

/// A number spelt in at least `width` digits has at least as many, and they stand for it.
pub proof fn lemma_padded_spells(n: nat, width: nat)
    ensures
        spelt(padded(n, width)) == n,
        all_digits(padded(n, width)),
        padded(n, width).len() >= width,
        width == 2 && n < 100 ==> padded(n, width).len() == 2,
        width == 4 && n < 10_000 ==> padded(n, width).len() == 4,
    decreases width,
{
    reveal_with_fuel(spelt, 2);
    lemma_padded_len(n, width);
    if width > 0 {
        lemma_padded_spells(n / 10, (width - 1) as nat);
        assert(padded(n, width).drop_last() =~= padded(n / 10, (width - 1) as nat));
    } else {
        lemma_decimal_spells(n);
    }
}

proof fn lemma_padded_len(n: nat, width: nat)
    ensures
        width == 2 && n < 100 ==> padded(n, width).len() == 2,
        width == 4 && n < 10_000 ==> padded(n, width).len() == 4,
{
    reveal_with_fuel(padded, 5);
}

} // verus!
