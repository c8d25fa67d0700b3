use crate::base::area::{FuelAmount, ShipStatus};
use crate::text::{concat, joined, join_elements};
use vstd::prelude::*;

verus! {

/// The outcome of pouring fuel into the ship.
#[derive(Clone, Copy, Debug, PartialEq, Eq, Structural)]
pub enum RefuelResult {
    Complete,
    Incomplete(FuelAmount),
}

/// Pours the performer's fuel cans into the ship, one at a time, until the ship needs no more or
/// the cans run out. Gives the outcome and how many cans were used.
pub fn try_refuel(amount: FuelAmount, fuel_cans_held: usize) -> (r: (RefuelResult, usize))
    ensures
        r.1 == if fuel_cans_held < amount.cans() { fuel_cans_held as nat } else { amount.cans() },
        fuel_cans_held >= amount.cans() ==> r.0 == RefuelResult::Complete,
        fuel_cans_held < amount.cans() ==> r.0 == RefuelResult::Incomplete(
            if amount.cans() - fuel_cans_held == 2 { FuelAmount::TwoCans } else { FuelAmount::OneCan },
        ),
{
    let mut used: usize = 0;
    if amount == FuelAmount::TwoCans {
        if fuel_cans_held == 0 {
            return (RefuelResult::Incomplete(FuelAmount::TwoCans), 0);
        }
        used = 1;
    }
    if fuel_cans_held <= used {
        return (RefuelResult::Incomplete(FuelAmount::OneCan), used);
    }
    (RefuelResult::Complete, used + 1)
}

/// The message when refueling did not get the ship further.
pub fn incomplete_refuel_message(amount: FuelAmount, name: &str) -> (s: String)
    ensures
        amount == FuelAmount::TwoCans ==> s@ == name@ + " need two fuel cans to refuel the ship."@,
        amount == FuelAmount::OneCan ==> s@ == name@ + " still need one more fuel can to refuel the ship."@,
{
    match amount {
        FuelAmount::TwoCans => concat(name, " need two fuel cans to refuel the ship."),
        FuelAmount::OneCan => concat(name, " still need one more fuel can to refuel the ship."),
    }
}

/// What a refuel order does to the ship, and what is told about it.
pub enum RefuelOutcome {
    /// The ship's new status, the message, and how many fuel cans were used.
    Refueled(ShipStatus, String, usize),
    /// The ship is already launching: nothing happens.
    AlreadyLaunching,
    /// The ship is already refueled; the message says so.
    AlreadyRefueled(String),
}

/// Refueling the ship with the cans that the performer, named `name`, holds.
pub fn refuel(status: ShipStatus, fuel_cans_held: usize, name: &str) -> (r: RefuelOutcome)
    ensures
        status == ShipStatus::Launching ==> r is AlreadyLaunching,
        status == ShipStatus::Refueled ==> (r matches RefuelOutcome::AlreadyRefueled(m) && m@ == name@
            + " goes to refuel the ship, but sees that it is already refueled."@),
        status matches ShipStatus::NeedFuel(amount) ==> (r matches RefuelOutcome::Refueled(new_status, m, used)
            && m@ == name@ + " refueled the ship."@
            && used == (if fuel_cans_held < amount.cans() { fuel_cans_held as nat } else { amount.cans() })
            && new_status.cans_needed() == amount.cans() - used
            && new_status == (if fuel_cans_held >= amount.cans() { ShipStatus::Refueled } else { ShipStatus::NeedFuel(
                if amount.cans() - fuel_cans_held == 2 { FuelAmount::TwoCans } else { FuelAmount::OneCan },
            ) })),
{
    match status {
        ShipStatus::NeedFuel(amount) => {
            let (result, used) = try_refuel(amount, fuel_cans_held);
            let new_status = match result {
                RefuelResult::Incomplete(a) => ShipStatus::NeedFuel(a),
                RefuelResult::Complete => ShipStatus::Refueled,
            };
            RefuelOutcome::Refueled(new_status, concat(name, " refueled the ship."), used)
        },
        ShipStatus::Refueled => RefuelOutcome::AlreadyRefueled(
            concat(name, " goes to refuel the ship, but sees that it is already refueled."),
        ),
        ShipStatus::Launching => RefuelOutcome::AlreadyLaunching,
    }
}

/// What a launch order does: the ship's new status, the message, and how many fuel cans were
/// used. `absent_crew` names the crew members who are not aboard.
pub fn launch(status: ShipStatus, fuel_cans_held: usize, name: &str, absent_crew: &Vec<String>) -> (r: (ShipStatus, String, usize))
    ensures
        status == ShipStatus::Launching ==> r.0 == ShipStatus::Launching && r.2 == 0 && r.1@
            == "The ship is already launching."@,
        status == ShipStatus::Refueled ==> r.0 == ShipStatus::Launching && r.2 == 0 && r.1@ == name@
            + " set the ship to launch."@,
        status matches ShipStatus::NeedFuel(amount) ==> ({
            let used = if fuel_cans_held < amount.cans() { fuel_cans_held as nat } else { amount.cans() };
            &&& r.2 == used
            &&& fuel_cans_held < amount.cans() ==> r.0 == ShipStatus::NeedFuel(
                if amount.cans() - fuel_cans_held == 2 { FuelAmount::TwoCans } else { FuelAmount::OneCan },
            ) && (if used > 0 {
                r.1@ == name@ + " refueled the ship."@
            } else if amount == FuelAmount::TwoCans {
                r.1@ == name@ + " need two fuel cans to refuel the ship."@
            } else {
                r.1@ == name@ + " still need one more fuel can to refuel the ship."@
            })
            &&& (fuel_cans_held >= amount.cans() && absent_crew.len() == 0) ==> r.0 == ShipStatus::Launching
                && r.1@ == name@ + " refueled the ship, and set it to launch."@
            &&& (fuel_cans_held >= amount.cans() && absent_crew.len() > 0) ==> r.0 == ShipStatus::Refueled
                && r.1@ == name@
                + " refueled the ship. Warning: not all crew members have boarded the ship yet. "@
                + joined(absent_crew@.map_values(|e: String| e@)) + " are still absent."@
        }),
{
    match status {
        ShipStatus::NeedFuel(amount) => {
            let (result, used) = try_refuel(amount, fuel_cans_held);
            match result {
                RefuelResult::Incomplete(new_amount) => {
                    let message = if new_amount != amount {
                        concat(name, " refueled the ship.")
                    } else {
                        incomplete_refuel_message(new_amount, name)
                    };
                    (ShipStatus::NeedFuel(new_amount), message, used)
                },
                RefuelResult::Complete => {
                    if absent_crew.len() == 0 {
                        (ShipStatus::Launching, concat(name, " refueled the ship, and set it to launch."), used)
                    } else {
                        let mut message = concat(
                            name,
                            " refueled the ship. Warning: not all crew members have boarded the ship yet. ",
                        );
                        message.append(join_elements(absent_crew).as_str());
                        message.append(" are still absent.");
                        (ShipStatus::Refueled, message, used)
                    }
                },
            }
        },
        ShipStatus::Refueled => (ShipStatus::Launching, concat(name, " set the ship to launch."), 0),
        ShipStatus::Launching => (ShipStatus::Launching, "The ship is already launching.".to_owned(), 0),
    }
}

/// Fuel is never lost: the cans used by a refuel order are exactly the cans that the ship needs
/// less, and the ship's progress never goes back.
pub proof fn law_refuel_conserves_fuel(amount: FuelAmount, fuel_cans_held: nat)
    ensures
        ({
            let used = if fuel_cans_held < amount.cans() { fuel_cans_held } else { amount.cans() };
            let new_status = if fuel_cans_held >= amount.cans() {
                ShipStatus::Refueled
            } else {
                ShipStatus::NeedFuel(
                    if amount.cans() - fuel_cans_held == 2 { FuelAmount::TwoCans } else { FuelAmount::OneCan },
                )
            };
            &&& new_status.cans_needed() + used == amount.cans()
            &&& new_status.progress() >= ShipStatus::NeedFuel(amount).progress()
        }),
{
}

} // verus!
