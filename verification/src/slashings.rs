use safe_arith::{SafeArith, SafeArithIter};
use vstd::prelude::*;

verus! {

/// Why a checked operation on integers failed.
#[derive(Debug, PartialEq, Eq, Clone, Copy, Structural)]
pub enum ArithError {
    /// The result does not fit the integer type.
    Overflow,
    /// The divisor was zero.
    DivisionByZero,
}

/// What the slashing penalty reads of a validator.
#[derive(Debug, PartialEq, Eq, Clone, Copy, Structural)]
pub struct Validator {
    pub effective_balance: u64,
    pub slashed: bool,
    pub withdrawable_epoch: u64,
}

/// The constants of the chain that the slashing penalty depends on.
#[derive(Debug, PartialEq, Eq, Clone, Copy, Structural)]
pub struct ChainSpec {
    pub proportional_slashing_multiplier: u64,
    pub effective_balance_increment: u64,
}

/// What the slashing penalty reads and changes of the state of the chain.
///
/// `balances[i]` is the balance of `validators[i]`.
#[derive(Debug, PartialEq, Eq, Clone)]
pub struct BeaconState {
    /// The epoch that the state is in.
    pub current_epoch: u64,
    /// The number of epochs over which slashed amounts are remembered.
    pub epochs_per_slashings_vector: u64,
    /// The amounts slashed in each of the remembered epochs.
    pub slashings: Vec<u64>,
    pub validators: Vec<Validator>,
    pub balances: Vec<u64>,
}

/// The sum of `values`.
pub open spec fn sum_of(values: Seq<u64>) -> nat
    decreases values.len(),
{
    if values.len() == 0 {
        0
    } else {
        sum_of(values.drop_last()) + values.last() as nat
    }
}

/// `a + b`, or `Overflow` where the sum does not fit.
pub open spec fn checked_sum(a: u64, b: u64) -> Result<u64, ArithError> {
    if a + b > u64::MAX {
        Err(ArithError::Overflow)
    } else {
        Ok((a + b) as u64)
    }
}

/// `a * b`, or `Overflow` where the product does not fit.
pub open spec fn checked_product(a: u64, b: u64) -> Result<u64, ArithError> {
    if a * b > u64::MAX {
        Err(ArithError::Overflow)
    } else {
        Ok((a * b) as u64)
    }
}

/// `a / b` rounded down, or `DivisionByZero` where `b` is zero.
pub open spec fn checked_quotient(a: u64, b: u64) -> Result<u64, ArithError> {
    if b == 0 {
        Err(ArithError::DivisionByZero)
    } else {
        Ok(a / b)
    }
}

/// `SafeArith::safe_add` on `u64`, believed without proof to return the sum
/// where it fits and `Overflow` where it does not.
#[verifier::external_body]
fn safe_add(a: u64, b: u64) -> (result: Result<u64, ArithError>)
    ensures
        result == checked_sum(a, b),
{
    match a.safe_add(b) {
        Ok(sum) => Ok(sum),
        Err(safe_arith::ArithError::Overflow) => Err(ArithError::Overflow),
        Err(safe_arith::ArithError::DivisionByZero) => Err(ArithError::DivisionByZero),
    }
}

/// `SafeArith::safe_mul` on `u64`, believed without proof to return the
/// product where it fits and `Overflow` where it does not.
#[verifier::external_body]
fn safe_mul(a: u64, b: u64) -> (result: Result<u64, ArithError>)
    ensures
        result == checked_product(a, b),
{
    match a.safe_mul(b) {
        Ok(product) => Ok(product),
        Err(safe_arith::ArithError::Overflow) => Err(ArithError::Overflow),
        Err(safe_arith::ArithError::DivisionByZero) => Err(ArithError::DivisionByZero),
    }
}

/// `SafeArith::safe_div` on `u64`, believed without proof to return the
/// quotient, rounded down, and `DivisionByZero` where the divisor is zero.
#[verifier::external_body]
fn safe_div(a: u64, b: u64) -> (result: Result<u64, ArithError>)
    ensures
        result == checked_quotient(a, b),
{
    match a.safe_div(b) {
        Ok(quotient) => Ok(quotient),
        Err(safe_arith::ArithError::Overflow) => Err(ArithError::Overflow),
        Err(safe_arith::ArithError::DivisionByZero) => Err(ArithError::DivisionByZero),
    }
}

/// `SafeArithIter::safe_sum` over the values of a slice, believed without
/// proof to return their sum where it fits and `Overflow` where it does not.
#[verifier::external_body]
fn safe_sum(values: &[u64]) -> (result: Result<u64, ArithError>)
    ensures
        result == if sum_of(values@) > u64::MAX {
            Err::<u64, ArithError>(ArithError::Overflow)
        } else {
            Ok::<u64, ArithError>(sum_of(values@) as u64)
        },
{
    match values.iter().copied().safe_sum() {
        Ok(sum) => Ok(sum),
        Err(safe_arith::ArithError::Overflow) => Err(ArithError::Overflow),
        Err(safe_arith::ArithError::DivisionByZero) => Err(ArithError::DivisionByZero),
    }
}

/// The total of the slashed amounts, scaled by `multiplier` and capped at
/// `total_balance`. Both the sum and its product with the multiplier must
/// fit, whatever the cap.
pub open spec fn adjusted_total_slashing_balance(
    slashings: Seq<u64>,
    multiplier: u64,
    total_balance: u64,
) -> Result<u64, ArithError> {
    if sum_of(slashings) > u64::MAX {
        Err(ArithError::Overflow)
    } else if sum_of(slashings) * multiplier > u64::MAX {
        Err(ArithError::Overflow)
    } else if sum_of(slashings) * multiplier < total_balance {
        Ok((sum_of(slashings) * multiplier) as u64)
    } else {
        Ok(total_balance)
    }
}

/// The penalty on an effective balance: the balance in whole increments,
/// times the share `adjusted / total_balance` rounded down, in units of the
/// increment.
pub open spec fn penalty_of(
    effective_balance: u64,
    increment: u64,
    adjusted: u64,
    total_balance: u64,
) -> Result<u64, ArithError> {
    if increment == 0 {
        Err(ArithError::DivisionByZero)
    } else if effective_balance / increment * adjusted > u64::MAX {
        Err(ArithError::Overflow)
    } else if total_balance == 0 {
        Err(ArithError::DivisionByZero)
    } else if effective_balance / increment * adjusted / (total_balance as int) * increment
        > u64::MAX {
        Err(ArithError::Overflow)
    } else {
        Ok((effective_balance / increment * adjusted / (total_balance as int) * increment) as u64)
    }
}

/// A penalty is never more than the balance it is taken from. Where the
/// adjusted total is capped at the total balance and the first product fits,
/// the penalty exists and is at most the effective balance, so that the last
/// multiplication cannot overflow.
pub proof fn lemma_penalty_within_effective_balance(
    effective_balance: u64,
    increment: u64,
    adjusted: u64,
    total_balance: u64,
)
    requires
        increment > 0,
        total_balance > 0,
        adjusted <= total_balance,
        effective_balance / increment * adjusted <= u64::MAX,
    ensures
        penalty_of(effective_balance, increment, adjusted, total_balance) matches Ok(penalty)
            && penalty <= effective_balance,
{
    let balance = effective_balance as int;
    let unit = increment as int;
    let total = total_balance as int;
    let increments = balance / unit;
    let numerator = increments * adjusted;
    let share = numerator / total;
    assert(0 <= increments && increments * unit <= balance) by (nonlinear_arith)
        requires
            increments == balance / unit,
            unit > 0,
            balance >= 0,
    ;
    assert(0 <= numerator <= increments * total) by (nonlinear_arith)
        requires
            numerator == increments * adjusted,
            0 <= adjusted <= total,
            increments >= 0,
    ;
    assert(0 <= share <= increments) by (nonlinear_arith)
        requires
            share == numerator / total,
            0 <= numerator <= increments * total,
            total > 0,
    ;
    assert(0 <= share * unit <= increments * unit) by (nonlinear_arith)
        requires
            0 <= share <= increments,
            unit > 0,
    ;
}

/// The values that decide the penalty of each validator alike.
pub struct Terms {
    pub current_epoch: u64,
    pub epochs_per_slashings_vector: u64,
    pub increment: u64,
    pub adjusted: u64,
    pub total_balance: u64,
}

impl Terms {
    /// What processing does about one validator: `Ok(None)` where it is not
    /// penalised, `Ok(Some(penalty))` where it is, and the error where the
    /// arithmetic fails. A validator that was not slashed is passed over
    /// before any arithmetic. A slashed one is penalised in the epoch halfway
    /// between its slashing and the epoch from which it can withdraw.
    pub open spec fn step(&self, validator: Validator) -> Result<Option<u64>, ArithError> {
        if !validator.slashed {
            Ok(None)
        } else {
            match checked_sum(self.current_epoch, self.epochs_per_slashings_vector / 2) {
                Err(e) => Err(e),
                Ok(target) => if target != validator.withdrawable_epoch {
                    Ok(None)
                } else {
                    match penalty_of(
                        validator.effective_balance,
                        self.increment,
                        self.adjusted,
                        self.total_balance,
                    ) {
                        Err(e) => Err(e),
                        Ok(penalty) => Ok(Some(penalty)),
                    }
                },
            }
        }
    }

    /// The first position at or after `from` whose validator cannot be
    /// processed, or the number of validators when all of them can.
    pub open spec fn first_failure(&self, validators: Seq<Validator>, from: int) -> int
        decreases validators.len() - from,
    {
        if from < 0 || from >= validators.len() {
            validators.len() as int
        } else if self.step(validators[from]) is Err {
            from
        } else {
            self.first_failure(validators, from + 1)
        }
    }

    /// The balance at position `i` once the validators before `stop` were
    /// processed: lowered by the penalty, but not below zero, where the
    /// validator is penalised, and as it was elsewhere.
    pub open spec fn balance_after(
        &self,
        validators: Seq<Validator>,
        balances: Seq<u64>,
        stop: int,
        i: int,
    ) -> u64 {
        if i < stop && i < validators.len() {
            match self.step(validators[i]) {
                Ok(Some(penalty)) => balances[i].saturating_sub(penalty),
                _ => balances[i],
            }
        } else {
            balances[i]
        }
    }
}

/// The first failure at or after `from` lies between `from` and the number
/// of validators; every validator from `from` up to it can be processed.
pub proof fn lemma_first_failure_bounds(terms: Terms, validators: Seq<Validator>, from: int)
    requires
        0 <= from <= validators.len(),
    ensures
        from <= terms.first_failure(validators, from) <= validators.len(),
        forall|i: int|
            from <= i < terms.first_failure(validators, from) ==> terms.step(validators[i]) is Ok,
    decreases validators.len() - from,
{
    if from < validators.len() && terms.step(validators[from]) is Ok {
        lemma_first_failure_bounds(terms, validators, from + 1);
    }
}

impl BeaconState {
    /// The terms of the penalties in this state, where the slashed amounts
    /// add up within the integer type.
    pub open spec fn terms(&self, total_balance: u64, spec: &ChainSpec) -> Result<
        Terms,
        ArithError,
    > {
        match adjusted_total_slashing_balance(
            self.slashings@,
            spec.proportional_slashing_multiplier,
            total_balance,
        ) {
            Err(e) => Err(e),
            Ok(adjusted) => Ok(
                Terms {
                    current_epoch: self.current_epoch,
                    epochs_per_slashings_vector: self.epochs_per_slashings_vector,
                    increment: spec.effective_balance_increment,
                    adjusted,
                    total_balance,
                },
            ),
        }
    }
}

/// Process slashings: lower the balance of each slashed validator that is
/// halfway to its withdrawable epoch by a penalty in proportion to all that
/// was slashed of late.
///
/// The validators are processed in order. The first failure of the
/// arithmetic ends the processing with that error, and the balances lowered
/// until then stay lowered. Every validator must have a balance.
pub fn process_slashings(state: &mut BeaconState, total_balance: u64, spec: &ChainSpec) -> (result:
    Result<(), ArithError>)
    requires
        old(state).validators@.len() <= old(state).balances@.len(),
    ensures
        final(state).current_epoch == old(state).current_epoch,
        final(state).epochs_per_slashings_vector == old(state).epochs_per_slashings_vector,
        final(state).slashings == old(state).slashings,
        final(state).validators == old(state).validators,
        final(state).balances@.len() == old(state).balances@.len(),
        match old(state).terms(total_balance, spec) {
            Err(e) => result == Err::<(), ArithError>(e) && final(state).balances@ == old(
                state,
            ).balances@,
            Ok(terms) => {
                let stop = terms.first_failure(old(state).validators@, 0);
                &&& stop == old(state).validators@.len() ==> result == Ok::<(), ArithError>(())
                &&& stop < old(state).validators@.len() ==> (terms.step(
                    old(state).validators@[stop],
                ) matches Err(e) && result == Err::<(), ArithError>(e))
                &&& forall|i: int|
                    0 <= i < old(state).balances@.len() ==> final(state).balances@[i]
                        == terms.balance_after(
                        old(state).validators@,
                        old(state).balances@,
                        stop,
                        i,
                    )
            },
        },
{
    let epoch = state.current_epoch;
    let sum_slashings = match safe_sum(state.slashings.as_slice()) {
        Ok(sum) => sum,
        Err(e) => {
            return Err(e);
        },
    };
    let scaled = match safe_mul(sum_slashings, spec.proportional_slashing_multiplier) {
        Ok(scaled) => scaled,
        Err(e) => {
            return Err(e);
        },
    };
    let adjusted_total_slashing_balance = if scaled < total_balance {
        scaled
    } else {
        total_balance
    };
    let ghost terms = old(state).terms(total_balance, spec).unwrap();
    let ghost validators = old(state).validators@;
    let ghost balances = old(state).balances@;
    let ghost stop = terms.first_failure(validators, 0);

    proof {
        lemma_first_failure_bounds(terms, validators, 0);
    }
    let mut index: usize = 0;
    while index < state.validators.len()
        invariant
            state.current_epoch == old(state).current_epoch,
            state.epochs_per_slashings_vector == old(state).epochs_per_slashings_vector,
            state.slashings == old(state).slashings,
            state.validators == old(state).validators,
            state.balances@.len() == balances.len(),
            old(state).terms(total_balance, spec) == Ok::<Terms, ArithError>(terms),
            validators == old(state).validators@,
            balances == old(state).balances@,
            epoch == terms.current_epoch,
            adjusted_total_slashing_balance == terms.adjusted,
            total_balance == terms.total_balance,
            spec.effective_balance_increment == terms.increment,
            state.epochs_per_slashings_vector == terms.epochs_per_slashings_vector,
            index <= validators.len(),
            stop == terms.first_failure(validators, 0),
            stop == terms.first_failure(validators, index as int),
            index <= stop,
            validators.len() <= balances.len(),
            forall|i: int|
                0 <= i < balances.len() ==> state.balances@[i] == terms.balance_after(
                    validators,
                    balances,
                    index as int,
                    i,
                ),
        decreases validators.len() - index,
    {
        let validator = state.validators[index];
        proof {
            lemma_first_failure_bounds(terms, validators, index as int);
            lemma_first_failure_bounds(terms, validators, index + 1);
        }
        if validator.slashed {
            let half = match safe_div(state.epochs_per_slashings_vector, 2) {
                Ok(half) => half,
                Err(e) => {
                    return Err(e);
                },
            };
            let target = match safe_add(epoch, half) {
                Ok(target) => target,
                Err(e) => {
                    return Err(e);
                },
            };
            if target == validator.withdrawable_epoch {
                let increment = spec.effective_balance_increment;
                let increments = match safe_div(validator.effective_balance, increment) {
                    Ok(increments) => increments,
                    Err(e) => {
                        return Err(e);
                    },
                };
                let penalty_numerator = match safe_mul(
                    increments,
                    adjusted_total_slashing_balance,
                ) {
                    Ok(numerator) => numerator,
                    Err(e) => {
                        return Err(e);
                    },
                };
                let share = match safe_div(penalty_numerator, total_balance) {
                    Ok(share) => share,
                    Err(e) => {
                        return Err(e);
                    },
                };
                let penalty = match safe_mul(share, increment) {
                    Ok(penalty) => penalty,
                    Err(e) => {
                        return Err(e);
                    },
                };
                state.balances[index] = state.balances[index].saturating_sub(penalty);
            }
        }
        index += 1;
    }
    Ok(())
}

} // verus!
