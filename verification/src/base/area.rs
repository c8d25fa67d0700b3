use vstd::prelude::*;

verus! {

/// The id of a background: a name in the background assets.
#[derive(Clone, Debug, Eq, PartialEq, Hash)]
pub struct BackgroundId(pub String);

impl BackgroundId {
    /// The blank background.
    pub fn blank() -> (b: Self)
        ensures
            b.0@ == "blank"@,
    {
        Self::new("blank")
    }

    /// The background of the location choice.
    pub fn location_choice() -> (b: Self)
        ensures
            b.0@ == "location_choice"@,
    {
        Self::new("location_choice")
    }

    /// The background with this name.
    pub fn new(name: &str) -> (b: Self)
        ensures
            b.0@ == name@,
    {
        Self(name.to_owned())
    }
}

impl Default for BackgroundId {
    fn default() -> (b: Self)
        ensures
            b.0@ == "blank"@,
    {
        Self::blank()
    }
}

/// Marks a room of the ship.
pub struct ShipRoom;

/// How much fuel the ship still needs.
#[derive(Copy, Clone, Debug, Eq, PartialEq, Structural)]
pub enum FuelAmount {
    OneCan,
    TwoCans,
}

impl FuelAmount {
    /// The number of fuel cans.
    pub open spec fn cans(self) -> nat {
        match self {
            FuelAmount::OneCan => 1,
            FuelAmount::TwoCans => 2,
        }
    }

    /// The number of fuel cans.
    pub fn can_count(self) -> (n: usize)
        ensures
            n == self.cans(),
    {
        match self {
            FuelAmount::OneCan => 1,
            FuelAmount::TwoCans => 2,
        }
    }
}

/// How far the ship is from leaving.
#[derive(Copy, Clone, Debug, Eq, PartialEq, Structural)]
pub enum ShipStatus {
    NeedFuel(FuelAmount),
    Refueled,
    Launching,
}

impl ShipStatus {
    /// How far the ship has come: 0 and 1 while it needs two cans or one, 2 when refueled,
    /// 3 when launching.
    pub open spec fn progress(self) -> nat {
        match self {
            ShipStatus::NeedFuel(FuelAmount::TwoCans) => 0,
            ShipStatus::NeedFuel(FuelAmount::OneCan) => 1,
            ShipStatus::Refueled => 2,
            ShipStatus::Launching => 3,
        }
    }

    /// How many fuel cans the ship still needs.
    pub open spec fn cans_needed(self) -> nat {
        match self {
            ShipStatus::NeedFuel(amount) => amount.cans(),
            _ => 0,
        }
    }
}

/// Marks the ship's controls.
pub struct ShipControls;

} // verus!
