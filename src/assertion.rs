use vstd::prelude::*;
use vstd::std_specs::cmp::PartialEqSpec;

verus! {

/// Why a check failed on the frame it ran.
#[derive(Debug, Clone, Copy, PartialEq, Eq, Structural)]
pub enum CheckFailure {
    /// The frame held `actual` events of the checked type, not `expected`.
    CountMismatch { expected: u8, actual: usize },
    /// The frame held no event of the checked type.
    MissingEvent,
    /// The frame's first event of the checked type differs from the expected one.
    EventMismatch,
    /// The current mode differs from the expected one.
    StateMismatch,
    /// The resource's current value differs from the expected one.
    ResourceMismatch,
}

/// Decides a count check: `actual` is the number of events of the checked
/// type that the frame holds. The check passes exactly when that number is
/// `expected`; otherwise the failure carries both numbers.
pub fn check_event_count(expected: u8, actual: usize) -> (r: Result<(), CheckFailure>)
    ensures
        actual == expected ==> r == Ok::<(), CheckFailure>(()),
        actual != expected ==> r == Err::<(), CheckFailure>(
            CheckFailure::CountMismatch { expected, actual },
        ),
{
    if actual == expected as usize {
        Ok(())
    } else {
        Err(CheckFailure::CountMismatch { expected, actual })
    }
}

/// Decides a value check on the frame's first event of the checked type,
/// `None` when the frame holds none. No event is a failure of its own, told
/// apart from an event that differs from `expected`.
pub fn check_event<T: PartialEq>(first: Option<&T>, expected: &T) -> (r: Result<(), CheckFailure>)
    ensures
        first is None ==> r == Err::<(), CheckFailure>(CheckFailure::MissingEvent),
        first is Some ==> (r == Ok::<(), CheckFailure>(()) || r == Err::<(), CheckFailure>(
            CheckFailure::EventMismatch,
        )),
        T::obeys_eq_spec() && first is Some ==> (r is Ok <==> first.unwrap().eq_spec(expected)),
{
    match first {
        None => Err(CheckFailure::MissingEvent),
        Some(event) => {
            if event.eq(expected) {
                Ok(())
            } else {
                Err(CheckFailure::EventMismatch)
            }
        },
    }
}

/// Decides a mode check on the mode that is current when the check runs.
pub fn check_current_state<T: PartialEq>(current: &T, expected: &T) -> (r: Result<(), CheckFailure>)
    ensures
        r == Ok::<(), CheckFailure>(()) || r == Err::<(), CheckFailure>(
            CheckFailure::StateMismatch,
        ),
        T::obeys_eq_spec() ==> (r is Ok <==> current.eq_spec(expected)),
{
    if current.eq(expected) {
        Ok(())
    } else {
        Err(CheckFailure::StateMismatch)
    }
}

/// Decides a resource check on the resource's value when the check runs.
pub fn check_resource<T: PartialEq>(current: &T, expected: &T) -> (r: Result<(), CheckFailure>)
    ensures
        r == Ok::<(), CheckFailure>(()) || r == Err::<(), CheckFailure>(
            CheckFailure::ResourceMismatch,
        ),
        T::obeys_eq_spec() ==> (r is Ok <==> current.eq_spec(expected)),
{
    if current.eq(expected) {
        Ok(())
    } else {
        Err(CheckFailure::ResourceMismatch)
    }
}

} // verus!
