//! Laws of the rules as they are called: which calls are accepted, with which
//! reason the others are refused, and what the amounts must satisfy.

use vstd::arithmetic::div_mod::{
    lemma_fundamental_div_mod, lemma_fundamental_div_mod_converse, lemma_small_mod,
};
use vstd::arithmetic::power2::{lemma2_to64, lemma_pow2_adds, pow2};
use vstd::prelude::*;

use crate::address::Address;
use crate::logic::{
    answers, commission_from, refund_per_participant, resolve_payout, total_pool,
    validate_confirm_result, validate_deposit, validate_refund, MAX_DEPOSIT_WEI, STATE_ABIERTO,
    STATE_BLOQUEADO, STATE_REEMBOLSADO, STATE_RESUELTO,
};
use crate::word::{modulus, U256};

verus! {

/// The four states, as they are numbered on chain, and the cap of ten times
/// 10^18.
pub proof fn states_and_cap()
    ensures
        STATE_ABIERTO == 0,
        STATE_BLOQUEADO == 1,
        STATE_RESUELTO == 2,
        STATE_REEMBOLSADO == 3,
        MAX_DEPOSIT_WEI == 10 * 1_000_000_000 * 1_000_000_000,
{
}

/// A word has 256 bits.
pub proof fn words_have_256_bits()
    ensures
        modulus() == pow2(256),
{
    lemma2_to64();
    lemma_pow2_adds(64, 64);
    lemma_pow2_adds(128, 128);
    assert(pow2(128) == 0x1_0000000000000000_0000000000000000nat) by (nonlinear_arith)
        requires
            pow2(128) == pow2(64) * pow2(64),
            pow2(64) == 0x1_0000000000000000nat,
    ;
    assert(pow2(256) == modulus()) by (nonlinear_arith)
        requires
            pow2(256) == pow2(128) * pow2(128),
            pow2(128) == 0x1_0000000000000000_0000000000000000nat,
            modulus()
                == 0x1_0000000000000000_0000000000000000_0000000000000000_0000000000000000nat,
    ;
}

/// A verdict says `Ok` where there is nothing to refuse, and otherwise the very
/// reason.
pub proof fn verdicts_say_the_reason(verdict: Result<(), &'static str>, refusal: Option<Seq<char>>)
    requires
        answers(verdict, refusal),
    ensures
        verdict is Ok <==> refusal is None,
        verdict matches Err(why) ==> refusal == Some(why@),
{
}

/// A deposit is accepted exactly where the challenge is open, and a participant
/// who has not deposited sends the required amount, which is within the cap.
/// Otherwise the first of these conditions that fails is named.
pub proof fn deposit_is_accepted_exactly_when(
    status: u8,
    is_participant: bool,
    already_deposited: bool,
    sent: U256,
    required: U256,
    verdict: Result<(), &'static str>,
)
    requires
        call_ensures(
            validate_deposit,
            (status, is_participant, already_deposited, sent, required),
            verdict,
        ),
    ensures
        verdict is Ok <==> status == 0 && is_participant && !already_deposited && sent@
            == required@ && sent@ <= 10_000_000_000_000_000_000,
        verdict matches Err(why) ==> {
            &&& status != 0 ==> why@ == "notopen"@
            &&& status == 0 && !is_participant ==> why@ == "nopart"@
            &&& status == 0 && is_participant && already_deposited ==> why@ == "deposited"@
            &&& status == 0 && is_participant && !already_deposited && sent@ != required@
                ==> why@ == "incdep"@
            &&& status == 0 && is_participant && !already_deposited && sent@ == required@
                ==> why@ == "depmax"@
        },
{
}

/// A result is accepted exactly where the challenge is locked and the winner is
/// a participant and not the zero address. Otherwise the first of these
/// conditions that fails is named.
pub proof fn result_is_accepted_exactly_when(
    status: u8,
    winner: Address,
    winner_is_participant: bool,
    verdict: Result<(), &'static str>,
)
    requires
        call_ensures(validate_confirm_result, (status, winner, winner_is_participant), verdict),
    ensures
        ({
            let nobody = forall|i: int| 0 <= i < 20 ==> winner.bytes[i] == 0;
            &&& verdict is Ok <==> status == 1 && !nobody && winner_is_participant
            &&& verdict matches Err(why) ==> {
                &&& status != 1 ==> why@ == "notlocked"@
                &&& status == 1 && nobody ==> why@ == "winzero"@
                &&& status == 1 && !nobody ==> why@ == "winpart"@
            }
        }),
{
    let zeros = Seq::new(20, |i: int| 0u8);
    if forall|i: int| 0 <= i < 20 ==> winner.bytes[i] == 0 {
        assert(winner@ =~= zeros);
    } else {
        let i = choose|i: int| 0 <= i < 20 && winner.bytes[i] != 0;
        assert(winner@[i] != zeros[i]);
    }
}

/// A refund is accepted exactly where the challenge is locked and it is later
/// than the deadline. Otherwise the first of these conditions that fails is
/// named.
pub proof fn refund_is_accepted_exactly_when(
    status: u8,
    deadline: U256,
    now: U256,
    verdict: Result<(), &'static str>,
)
    requires
        call_ensures(validate_refund, (status, deadline, now), verdict),
    ensures
        verdict is Ok <==> status == 1 && deadline@ < now@,
        verdict matches Err(why) ==> {
            &&& status != 1 ==> why@ == "notlocked"@
            &&& status == 1 ==> why@ == "nodln"@
        },
{
}

/// The commission is the rate, in parts of ten thousand, of the payout, rounded
/// down; the product of the two is taken in 256 bits.
pub proof fn commission_is_the_rate_rounded_down(total: U256, rate: U256, commission: U256)
    requires
        call_ensures(commission_from, (total, rate), commission),
    ensures
        ({
            let product = (total@ * rate@) % pow2(256);
            &&& 10_000 * commission@ <= product
            &&& product < 10_000 * commission@ + 10_000
        }),
        total@ * rate@ < pow2(256) ==> 10_000 * commission@ <= total@ * rate@ < 10_000 * commission@
            + 10_000,
{
    words_have_256_bits();
    let product = (total@ * rate@) % modulus();
    lemma_fundamental_div_mod(product as int, 10_000);
    if total@ * rate@ < modulus() {
        lemma_small_mod(total@ * rate@, modulus());
    }
}

/// The commission of a resolved challenge is the one of everything recovered.
/// The winner gets all the rest, and nothing where the commission takes it all.
pub proof fn winner_gets_what_the_commission_leaves(
    recovered: U256,
    rate: U256,
    split: (U256, U256),
    commission: U256,
)
    requires
        call_ensures(resolve_payout, (recovered, rate), split),
        call_ensures(commission_from, (recovered, rate), commission),
    ensures
        split.1@ == commission@,
        commission@ <= recovered@ ==> split.0@ + commission@ == recovered@,
        commission@ > recovered@ ==> split.0@ == 0,
{
}

/// A refund share is the largest that all participants can have; there is none
/// where there are no participants.
pub proof fn refund_share_is_the_largest_possible(total: U256, count: U256, share: U256)
    requires
        call_ensures(refund_per_participant, (total, count), share),
    ensures
        count@ == 0 ==> share@ == 0,
        share@ * count@ <= total@,
        count@ > 0 ==> (share@ + 1) * count@ > total@,
{
    if count@ > 0 {
        lemma_fundamental_div_mod(total@ as int, count@ as int);
        let q = total@ / count@;
        assert(q * count@ == count@ * q && (q + 1) * count@ == count@ * q + count@)
            by (nonlinear_arith);
    } else {
        assert(share@ * count@ == 0) by (nonlinear_arith)
            requires
                count@ == 0,
        ;
    }
}

/// Adding to a remainder takes the divisor off once at most.
proof fn lemma_sum_in_a_word(sum: nat, more: nat, divisor: nat)
    requires
        more < divisor,
    ensures
        sum % divisor < divisor,
        (sum + more) % divisor == if sum % divisor + more < divisor {
            (sum % divisor + more) as int
        } else {
            sum % divisor + more - divisor
        },
{
    let q = (sum / divisor) as int;
    let r = (sum % divisor) as int;
    let d = divisor as int;
    lemma_fundamental_div_mod(sum as int, d);
    if r + more < d {
        assert(sum + more == q * d + (r + more)) by (nonlinear_arith)
            requires
                sum == d * q + r,
        ;
        lemma_fundamental_div_mod_converse((sum + more) as int, d, q, r + more);
    } else {
        assert(sum + more == (q + 1) * d + (r + more - d)) by (nonlinear_arith)
            requires
                sum == d * q + r,
        ;
        lemma_fundamental_div_mod_converse((sum + more) as int, d, q + 1, r + more - d);
    }
}

/// The pot is all deposits together, up to multiples of 2^256 that do not fit
/// in a word: none where there are no participants, and one deposit more for
/// each of them.
pub proof fn pot_is_the_sum_of_deposits(
    deposit: U256,
    none: U256,
    count: U256,
    next: U256,
    empty: U256,
    pot: U256,
    larger: U256,
)
    requires
        none@ == 0,
        next@ == count@ + 1,
        call_ensures(total_pool, (deposit, none), empty),
        call_ensures(total_pool, (deposit, count), pot),
        call_ensures(total_pool, (deposit, next), larger),
    ensures
        empty@ == 0,
        pot@ < pow2(256),
        pot@ + deposit@ < pow2(256) ==> larger@ == pot@ + deposit@,
        pot@ + deposit@ >= pow2(256) ==> larger@ == pot@ + deposit@ - pow2(256),
        deposit@ * count@ < pow2(256) ==> pot@ == deposit@ * count@,
{
    words_have_256_bits();
    let product = deposit@ * count@;
    assert(deposit@ * none@ == 0) by (nonlinear_arith)
        requires
            none@ == 0,
    ;
    assert(deposit@ * next@ == product + deposit@) by (nonlinear_arith)
        requires
            next@ == count@ + 1,
            product == deposit@ * count@,
    ;
    lemma_small_mod(0, modulus());
    lemma_sum_in_a_word(product, deposit@, modulus());
    if product < modulus() {
        lemma_small_mod(product, modulus());
    }
}

} // verus!
