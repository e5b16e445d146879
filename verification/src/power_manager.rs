use vstd::prelude::*;
use crate::error_code::ErrorCode;

verus! {

/// An error from an operation on a peripheral, carrying the state the
/// peripheral was left in.
pub struct PowerError<T>(pub T, pub ErrorCode);

/// The stored state of a peripheral: which of its power states its register
/// block is currently in.
pub trait StateEnum: Sized {
    /// A copy of the stored state (same state).
    fn copy_store(&self) -> (r: Self)
        ensures
            r == *self,
    ;
}

/// Marker for the type a power manager stores for a peripheral.
pub trait Store {}

/// A peripheral whose power state is tracked by a power manager.
pub trait Peripheral {
    type StateEnum: StateEnum + Store;
}

/// Marker for the substates an active power state is made of.
pub trait SubState {}

/// Combines two register-block states into one.
pub trait Merge<T> {
    type Output;

    fn merge(self, other: T) -> Self::Output;
}

/// A (possibly partial) description of a power state that an operation
/// expects the peripheral to be in.
pub trait State {
    type StateEnum: StateEnum;

    /// Whether the stored state `s` is in this expected state.
    spec fn admits(&self, s: Self::StateEnum) -> bool;

    /// Converts the stored state into the expected state, or hands it back
    /// with `INVAL` when it is in another state.
    fn try_from_store(&self, s: Self::StateEnum) -> (r: Result<Self::StateEnum, (ErrorCode, Self::StateEnum)>)
        ensures
            self.admits(s) ==> r == Ok::<Self::StateEnum, (ErrorCode, Self::StateEnum)>(s),
            !self.admits(s) ==> r == Err::<Self::StateEnum, (ErrorCode, Self::StateEnum)>((ErrorCode::INVAL, s)),
    ;
}

/// What `use_power_expecting` leaves behind: the result it returns and the
/// state it stores, for a stored state `stored`, an expected state that
/// admits it or not, and the operation's outcome `outcome`.
pub open spec fn use_power_outcome<E>(
    stored: Option<E>,
    admitted: bool,
    outcome: Result<E, PowerError<E>>,
) -> (Result<(), ErrorCode>, Option<E>) {
    match stored {
        None => (Err(ErrorCode::INVAL), None),
        Some(s) => if !admitted {
            (Err(ErrorCode::INVAL), Some(s))
        } else {
            match outcome {
                Ok(n) => (Ok(()), Some(n)),
                Err(PowerError(n, e)) => (Err(e), Some(n)),
            }
        },
    }
}

/// Whatever an operation does, a peripheral whose state was stored still has
/// a stored state afterwards; a peripheral whose state was taken stays so and
/// the request gets `INVAL`.
pub proof fn lemma_use_power_keeps_state<E>(stored: Option<E>, admitted: bool, outcome: Result<E, PowerError<E>>)
    ensures
        use_power_outcome(stored, admitted, outcome).1 is Some == stored is Some,
        stored is None ==> use_power_outcome(stored, admitted, outcome).0 == Err::<(), ErrorCode>(ErrorCode::INVAL),
{
}

/// A request that expects another state than the stored one is refused with
/// `INVAL` and leaves the stored state as it was.
pub proof fn lemma_refused_request_changes_nothing<E>(s: E, outcome: Result<E, PowerError<E>>)
    ensures
        use_power_outcome(Some(s), false, outcome) == (Err::<(), ErrorCode>(ErrorCode::INVAL), Some(s)),
{
}

/// An operation that runs decides both the answer and the stored state: its
/// success stores its new state and answers `Ok`, its failure stores the
/// state it hands back and answers with its error.
pub proof fn lemma_operation_decides<E>(s: E, n: E, e: ErrorCode)
    ensures
        use_power_outcome(Some(s), true, Ok::<E, PowerError<E>>(n)) == (Ok::<(), ErrorCode>(()), Some(n)),
        use_power_outcome(Some(s), true, Err::<E, PowerError<E>>(PowerError(n, e))) == (Err::<(), ErrorCode>(e), Some(n)),
{
}

/// What taking a stored state out returns and leaves behind: the state, or
/// `INVAL` when there is none; the slot is empty afterwards either way.
pub open spec fn retrieve_outcome<E>(stored: Option<E>) -> (Result<E, ErrorCode>, Option<E>) {
    match stored {
        Some(s) => (Ok(s), None),
        None => (Err(ErrorCode::INVAL), None),
    }
}

/// A state taken out right after `val` was stored is `val`, and the slot is
/// then empty, so taking again is refused with `INVAL` until the next store.
pub proof fn lemma_retrieve_gives_back_stored<E>(val: E)
    ensures
        retrieve_outcome(Some(val)) == (Ok::<E, ErrorCode>(val), None::<E>),
        retrieve_outcome(retrieve_outcome(Some(val)).1) == (Err::<E, ErrorCode>(ErrorCode::INVAL), None::<E>),
{
}

/// Keeps the current power state of a peripheral `P` and runs operations that
/// expect the peripheral to be in a given state.
pub trait PowerManager<P: Peripheral>: Sized {
    /// The state currently stored for the peripheral; `None` while an
    /// operation holds it.
    spec fn stored(&self) -> Option<P::StateEnum>;

    /// Whether everything this power manager keeps besides the state of `P`
    /// (its spare copy included) is as in `before`.
    spec fn keeps_others(&self, before: &Self) -> bool;

    /// Keeping the rest is reflexive and transitive.
    proof fn lemma_keeps_others(a: &Self, b: &Self, c: &Self)
        ensures
            PowerManager::<P>::keeps_others(a, a),
            PowerManager::<P>::keeps_others(b, a) && PowerManager::<P>::keeps_others(c, b) ==> PowerManager::<P>::keeps_others(c, a),
    ;

    /// Stores `val` as the peripheral's state.
    fn store_power(&mut self, val: P::StateEnum)
        ensures
            PowerManager::<P>::stored(final(self)) == Some(val),
            PowerManager::<P>::stored_copy(final(self)) == PowerManager::<P>::stored_copy(old(self)),
            PowerManager::<P>::keeps_others(final(self), old(self)),
    ;

    /// Takes the stored state out; `INVAL` when there is none.
    fn retrieve_power(&mut self) -> (r: Result<P::StateEnum, ErrorCode>)
        ensures
            (r, PowerManager::<P>::stored(final(self))) == retrieve_outcome(PowerManager::<P>::stored(old(self))),
            PowerManager::<P>::stored_copy(final(self)) == PowerManager::<P>::stored_copy(old(self)),
            PowerManager::<P>::keeps_others(final(self), old(self)),
    ;

    /// The spare copy kept for the peripheral, if any.
    spec fn stored_copy(&self) -> Option<P::StateEnum>;

    /// Keeps `val` as the spare copy of the peripheral's state.
    fn store_power_copy(&mut self, val: P::StateEnum)
        ensures
            PowerManager::<P>::stored_copy(final(self)) == Some(val),
            PowerManager::<P>::stored(final(self)) == PowerManager::<P>::stored(old(self)),
            PowerManager::<P>::keeps_others(final(self), old(self)),
    ;

    /// Takes the spare copy out, if there is one.
    fn retrieve_power_copy(&mut self) -> (r: Option<P::StateEnum>)
        ensures
            r == PowerManager::<P>::stored_copy(old(self)),
            PowerManager::<P>::stored_copy(final(self)) == None::<P::StateEnum>,
            PowerManager::<P>::stored(final(self)) == PowerManager::<P>::stored(old(self)),
            PowerManager::<P>::keeps_others(final(self), old(self)),
    ;

    /// Runs `operation` on the stored state when it is in the `expected`
    /// state, and stores the state the operation leaves behind.
    fn use_power_expecting<F, S>(&mut self, expected: &S, operation: F) -> (r: Result<(), ErrorCode>)
        where
            F: FnOnce(P::StateEnum) -> Result<P::StateEnum, PowerError<P::StateEnum>>,
            S: State<StateEnum = P::StateEnum>,
        requires
            forall|s: P::StateEnum|
                PowerManager::<P>::stored(old(self)) == Some(s) && expected.admits(s) ==> call_requires(operation, (s,)),
        ensures
            match PowerManager::<P>::stored(old(self)) {
                None => r == Err::<(), ErrorCode>(ErrorCode::INVAL) && PowerManager::<P>::stored(final(self)) == None::<P::StateEnum>,
                Some(s) => if expected.admits(s) {
                    exists|outcome: Result<P::StateEnum, PowerError<P::StateEnum>>| {
                        &&& call_ensures(operation, (s,), outcome)
                        &&& (r, PowerManager::<P>::stored(final(self))) == use_power_outcome(Some(s), true, outcome)
                    }
                } else {
                    r == Err::<(), ErrorCode>(ErrorCode::INVAL) && PowerManager::<P>::stored(final(self)) == Some(s)
                },
            },
            PowerManager::<P>::stored_copy(final(self)) == PowerManager::<P>::stored_copy(old(self)),
            PowerManager::<P>::keeps_others(final(self), old(self)),
    {
        let ghost start = *self;
        proof {
            PowerManager::<P>::lemma_keeps_others(&start, &start, &start);
        }
        let stored_state = match PowerManager::<P>::retrieve_power(self) {
            Ok(s) => s,
            Err(e) => return Err(e),
        };
        let ghost mid = *self;
        let _any_state_copy = stored_state.copy_store();
        match expected.try_from_store(stored_state) {
            Ok(reg) => {
                let operation_res = operation(reg);
                let ghost outcome = operation_res;
                let r = match operation_res {
                    Ok(new_power) => {
                        PowerManager::<P>::store_power(self, new_power);
                        proof {
                            PowerManager::<P>::lemma_keeps_others(&start, &mid, &*self);
                        }
                        Ok(())
                    },
                    Err(PowerError(new_power, e)) => {
                        PowerManager::<P>::store_power(self, new_power);
                        proof {
                            PowerManager::<P>::lemma_keeps_others(&start, &mid, &*self);
                        }
                        Err(e)
                    },
                };
                assert(call_ensures(operation, (reg,), outcome));
                assert((r, PowerManager::<P>::stored(self)) == use_power_outcome(Some(reg), true, outcome));
                r
            },
            Err((e, original_state)) => {
                PowerManager::<P>::store_power(self, original_state);
                proof {
                    PowerManager::<P>::lemma_keeps_others(&start, &mid, &*self);
                }
                Err(e)
            },
        }
    }
}

} // verus!
