//! Laws of the amounts: commission, payout, refunds, and the words that carry
//! them.

use vstd::arithmetic::div_mod::{
    lemma_div_is_ordered, lemma_div_multiples_vanish, lemma_fundamental_div_mod, lemma_mod_bound,
    lemma_mod_decreases, lemma_small_mod,
};
use vstd::prelude::*;

use crate::abi::{returned_value, uint_word};
use crate::bytes::{be_range, lemma_be_bytes_read_back};
use crate::logic::{commission_amount, payout_amount, pot_amount, refund_share};
use crate::word::modulus;

verus! {

/// At a rate of at most 100 % the commission never exceeds the payout it is
/// taken from, not even where the product wraps around.
pub proof fn commission_never_exceeds_total(total: nat, rate_bps: nat)
    requires
        rate_bps <= 10_000,
    ensures
        commission_amount(total, rate_bps) <= total,
{
    let product = total * rate_bps;
    assert(product <= 10_000 * total) by (nonlinear_arith)
        requires
            product == total * rate_bps,
            rate_bps <= 10_000,
    ;
    lemma_mod_decreases(product, modulus());
    lemma_div_is_ordered((product % modulus()) as int, (10_000 * total) as int, 10_000);
    lemma_div_multiples_vanish(total as int, 10_000);
}

/// At a rate of at most 100 % the winner's payout and the commission are
/// together exactly what was recovered.
pub proof fn payout_and_commission_make_up_recovered(recovered: nat, rate_bps: nat)
    requires
        rate_bps <= 10_000,
    ensures
        payout_amount(recovered, rate_bps) + commission_amount(recovered, rate_bps) == recovered,
{
    commission_never_exceeds_total(recovered, rate_bps);
}

/// Whatever the rate, the winner is never paid more than was recovered.
pub proof fn payout_never_exceeds_recovered(recovered: nat, rate_bps: nat)
    ensures
        payout_amount(recovered, rate_bps) <= recovered,
{
}

/// Without a commission rate everything goes to the winner.
pub proof fn zero_rate_pays_everything(recovered: nat)
    ensures
        commission_amount(recovered, 0) == 0,
        payout_amount(recovered, 0) == recovered,
{
    lemma_small_mod(0, modulus());
}

/// At a rate of 100 % everything is commission, as long as the product fits in
/// a word.
pub proof fn full_rate_pays_nothing(recovered: nat)
    requires
        recovered * 10_000 < modulus(),
    ensures
        commission_amount(recovered, 10_000) == recovered,
        payout_amount(recovered, 10_000) == 0,
{
    lemma_small_mod(recovered * 10_000, modulus());
    lemma_div_multiples_vanish(recovered as int, 10_000);
}

/// Where nothing was recovered, nothing is paid and nothing is kept.
pub proof fn nothing_recovered_pays_nothing(rate_bps: nat)
    ensures
        commission_amount(0, rate_bps) == 0,
        payout_amount(0, rate_bps) == 0,
{
    assert(0 * rate_bps == 0) by (nonlinear_arith);
    lemma_small_mod(0, modulus());
}

/// The shares of all participants fit in what was recovered, and what is left
/// over is less than one unit for each of them.
pub proof fn refunds_fit_in_recovered(recovered: nat, count: nat)
    ensures
        refund_share(recovered, count) * count <= recovered,
        count > 0 ==> recovered - refund_share(recovered, count) * count < count,
{
    if count > 0 {
        lemma_fundamental_div_mod(recovered as int, count as int);
        lemma_mod_bound(recovered as int, count as int);
        assert(refund_share(recovered, count) * count == count * (recovered / count))
            by (nonlinear_arith)
            requires
                refund_share(recovered, count) == recovered / count,
        ;
    } else {
        assert(refund_share(recovered, count) * count == 0) by (nonlinear_arith)
            requires
                count == 0,
        ;
    }
}

/// A pot of `count` equal parts is refunded in those parts.
pub proof fn refund_splits_evenly(part: nat, count: nat)
    requires
        count > 0,
    ensures
        refund_share(part * count, count) == part,
{
    assert(part * count == count * part) by (nonlinear_arith);
    lemma_div_multiples_vanish(part as int, count as int);
}

/// A refund without yield gives every participant the deposit back: the pot of
/// all deposits, as long as it fits in a word, is split into the deposits.
pub proof fn refund_returns_deposits(required_deposit: nat, count: nat)
    requires
        count > 0,
        required_deposit * count < modulus(),
    ensures
        refund_share(pot_amount(required_deposit, count), count) == required_deposit,
{
    lemma_small_mod(required_deposit * count, modulus());
    refund_splits_evenly(required_deposit, count);
}

/// A number that is returned as a word, whatever comes after it, is read back.
pub proof fn returned_word_is_read_back(value: nat, rest: Seq<u8>)
    requires
        value < modulus(),
    ensures
        returned_value(uint_word(value) + rest) == value,
{
    assert(be_range(32) == modulus()) by {
        reveal_with_fuel(be_range, 33);
    }
    lemma_be_bytes_read_back(value, 32);
    assert((uint_word(value) + rest).take(32) =~= uint_word(value));
}

} // verus!
