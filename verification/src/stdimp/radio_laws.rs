//! What holds of obtaining the radio, where the driver stores it for all that come later.
use vstd::prelude::*;

#[allow(unused_imports)]
use crate::ble::Adapter;
#[allow(unused_imports)]
use crate::btinterface::ConnectError;
#[allow(unused_imports)]
use crate::stdimp::adapter::{adapter_next, AdapterStep};

verus! {

/// Someone who is obtaining the radio: the step that is due, and the radio that was opened and is
/// not stored yet. A number tells one radio from another.
pub struct Caller {
    pub step: AdapterStep,
    pub opened: Option<u64>,
}

/// A caller that begins.
pub open spec fn new_caller() -> Caller {
    Caller { step: AdapterStep::LookUp, opened: None }
}

/// What a driver that stores the first radio makes of a caller's step. `stored` is the radio that
/// is stored, `found` the one that the system has, and `available` says whether waiting for it
/// succeeds. A lookup is answered by whether a radio is stored.
pub open spec fn perform(
    stored: Option<u64>,
    caller: Caller,
    found: Option<u64>,
    available: bool,
) -> (Option<u64>, Caller) {
    match caller.step {
        AdapterStep::LookUp => (
            stored,
            Caller { step: adapter_next(caller.step, stored is Some), ..caller },
        ),
        AdapterStep::Open => (
            stored,
            Caller { step: adapter_next(caller.step, found is Some), opened: found },
        ),
        AdapterStep::AwaitAvailable => (
            stored,
            Caller { step: adapter_next(caller.step, available), ..caller },
        ),
        AdapterStep::Store => (
            if stored is Some {
                stored
            } else {
                caller.opened
            },
            Caller { step: adapter_next(caller.step, true), ..caller },
        ),
        AdapterStep::LookUpAgain => (
            stored,
            Caller { step: adapter_next(caller.step, stored is Some), ..caller },
        ),
        AdapterStep::Finished(_) => (stored, caller),
    }
}

/// The radio that is stored, and the caller, after a number of the caller's steps.
pub open spec fn obtain(
    stored: Option<u64>,
    found: Option<u64>,
    available: bool,
    steps: nat,
) -> (Option<u64>, Caller)
    decreases steps,
{
    if steps == 0 {
        (stored, new_caller())
    } else {
        let (before, caller) = obtain(stored, found, available, (steps - 1) as nat);
        perform(before, caller, found, available)
    }
}

/// Obtaining the radio fails exactly where none is stored and there is none to open or waiting
/// for it fails; then none is stored. Else it succeeds, and the radio that is stored is the one
/// that was, or where there was none the one that was opened. Five steps are enough.
pub proof fn law_when_the_radio_is_obtained(stored: Option<u64>, found: Option<u64>, available: bool)
    ensures
        ({
            let (after, caller) = obtain(stored, found, available, 5);
            if stored is None && (found is None || !available) {
                caller.step == AdapterStep::Finished(Err(ConnectError::DeviceNotFound)) && after
                    is None
            } else {
                caller.step == AdapterStep::Finished(Ok(Adapter)) && after == if stored is Some {
                    stored
                } else {
                    found
                }
            }
        }),
{
    reveal_with_fuel(obtain, 6);
}

/// A radio that was obtained is used again: every later caller has it at the first answer,
/// whatever the system would open, and it stays the one that is stored.
pub proof fn law_obtained_radio_is_used_again(
    stored: Option<u64>,
    found: Option<u64>,
    available: bool,
    later_found: Option<u64>,
    later_available: bool,
)
    requires
        obtain(stored, found, available, 5).1.step == AdapterStep::Finished(Ok(Adapter)),
    ensures
        ({
            let kept = obtain(stored, found, available, 5).0;
            let (after, caller) = obtain(kept, later_found, later_available, 1);
            &&& kept is Some
            &&& after == kept
            &&& caller.step == AdapterStep::Finished(Ok(Adapter))
        }),
{
    law_when_the_radio_is_obtained(stored, found, available);
    reveal_with_fuel(obtain, 2);
}

/// The turn of one of several callers, and what the system has for it.
pub struct Turn {
    pub who: u64,
    pub found: Option<u64>,
    pub available: bool,
}

/// The radio that is stored, and the callers, after callers have taken turns in any order.
pub open spec fn race(stored: Option<u64>, turns: Seq<Turn>) -> (Option<u64>, spec_fn(u64) -> Caller)
    decreases turns.len(),
{
    if turns.len() == 0 {
        (stored, |who: u64| new_caller())
    } else {
        let (before, callers) = race(stored, turns.drop_last());
        let turn = turns.last();
        let (after, moved) = perform(before, callers(turn.who), turn.found, turn.available);
        (
            after,
            |who: u64|
                if who == turn.who {
                    moved
                } else {
                    callers(who)
                },
        )
    }
}

/// The caller's own attempt has failed: there was no radio to open for it, or waiting failed.
pub open spec fn attempt_failed(turns: Seq<Turn>, who: u64) -> bool {
    exists|i: int|
        0 <= i < turns.len() && (#[trigger] turns[i]).who == who && (turns[i].found is None
            || !turns[i].available)
}

/// However callers interleave, one that has succeeded has a stored radio to use, and one that has
/// failed has failed in its own attempt.
pub proof fn law_racing_callers(stored: Option<u64>, turns: Seq<Turn>, who: u64)
    ensures
        ({
            let (after, callers) = race(stored, turns);
            callers(who).step matches AdapterStep::Finished(result) ==> match result {
                Ok(_) => after is Some,
                Err(error) => error == ConnectError::DeviceNotFound && attempt_failed(turns, who),
            }
        }),
{
    lemma_race(stored, turns, who);
}

proof fn lemma_race(stored: Option<u64>, turns: Seq<Turn>, who: u64)
    ensures
        ({
            let (after, callers) = race(stored, turns);
            let caller = callers(who);
            match caller.step {
                AdapterStep::AwaitAvailable => caller.opened is Some,
                AdapterStep::Store => caller.opened is Some,
                AdapterStep::LookUpAgain => after is Some,
                AdapterStep::Finished(Ok(_)) => after is Some,
                AdapterStep::Finished(Err(error)) => error == ConnectError::DeviceNotFound
                    && attempt_failed(turns, who),
                _ => true,
            }
        }),
    decreases turns.len(),
{
    if turns.len() > 0 {
        let earlier = turns.drop_last();
        lemma_race(stored, earlier, who);
        lemma_race(stored, earlier, turns.last().who);
        assert(turns[turns.len() - 1] == turns.last());
        if attempt_failed(earlier, who) {
            let i = choose|i: int|
                0 <= i < earlier.len() && (#[trigger] earlier[i]).who == who && (earlier[i].found
                    is None || !earlier[i].available);
            assert(turns[i] == earlier[i]);
        }
    }
}

/// The radio that is stored first stays the stored one, whoever takes turns afterwards. So all
/// callers that succeed use the same radio.
pub proof fn law_first_stored_radio_stays(stored: Option<u64>, turns: Seq<Turn>, later: Seq<Turn>)
    requires
        race(stored, turns).0 is Some,
    ensures
        race(stored, turns + later).0 == race(stored, turns).0,
    decreases later.len(),
{
    if later.len() == 0 {
        assert(turns + later =~= turns);
    } else {
        law_first_stored_radio_stays(stored, turns, later.drop_last());
        assert((turns + later).drop_last() =~= turns + later.drop_last());
    }
}

} // verus!
