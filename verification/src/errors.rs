//! The tagged error set of the simulation core.

use vstd::prelude::*;

verus! {

use crate::crew::CrewId;
use crate::crew::CrewMemberType;
use crate::station::StationId;
use crate::module::ShipModuleId;
use crate::player::PlayerId;
use crate::ship::ShipId;

#[derive(Clone, Debug)]
pub enum Errcode {
    NoPlayerKey,
    PlayerNotFound(PlayerId),
    PlayerAlreadyExists(PlayerId, String),
    NoPlayerWithKey,
    ShipNotFound(ShipId),
    /// Milli-currency at hand, milli-currency needed.
    NotEnoughMoney(i64, u64),
    InvalidArgument(&'static str),
    ShipNotExtracting,
    ShipNotIdle,
    CrewMemberNotIdle(CrewId),
    CrewNotNeeded,
    CannotPerformTravel,
    NullDistance,
    NoSuchStation(StationId),
    NoSuchModule(ShipModuleId),
    CannotExtractWithoutPlanet,
    ShipNotInStation,
    WrongCrewType(CrewMemberType),
    CargoFull,
    NoTraderAssigned,
    NoPilotAssigned,
    BuyNothing,
    SellNothing,
    NoFuelInCargo,
    NoHullPlateInCargo,
    CrewMemberNotFound(CrewId),
    PlayerLost,
}

impl Errcode {
    /// A human-readable account of the error.
    pub fn errmsg(&self) -> (msg: String)
    {
        match self {
            Errcode::NoPlayerKey => "No player key provided with the request".to_owned(),
            Errcode::PlayerNotFound(_) => "No player was found with this ID".to_owned(),
            Errcode::PlayerAlreadyExists(_, _) => "A player already exists under this name".to_owned(),
            Errcode::NoPlayerWithKey => "No player with this key exists in this game".to_owned(),
            Errcode::ShipNotFound(_) => "Ship not found".to_owned(),
            Errcode::NotEnoughMoney(_, _) => "Not enough money".to_owned(),
            Errcode::InvalidArgument(_) => "An argument has an invalid value".to_owned(),
            Errcode::CrewMemberNotIdle(_) => "This crew member is already occupied".to_owned(),
            Errcode::CrewNotNeeded => "This crew member is not needed aboard this ship".to_owned(),
            Errcode::CannotPerformTravel => "This travel cannot be done with the current state of the ship".to_owned(),
            Errcode::NullDistance => "You already are on this coordinates".to_owned(),
            Errcode::NoSuchStation(_) => "You don't own any station of this id".to_owned(),
            Errcode::NoSuchModule(_) => "Ship module of this id doesn't exist".to_owned(),
            Errcode::CannotExtractWithoutPlanet => "Cannot extract resources, this ship is not on a planet".to_owned(),
            Errcode::ShipNotInStation => "This ship is not docked on station".to_owned(),
            Errcode::WrongCrewType(_) => "This module requires a crew member of another type".to_owned(),
            Errcode::CargoFull => "The cargo is full".to_owned(),
            Errcode::ShipNotIdle => "The ship is already occupied with a task".to_owned(),
            Errcode::ShipNotExtracting => "This ship is not extracting".to_owned(),
            Errcode::NoTraderAssigned => "This station doesn't have a trader assigned".to_owned(),
            Errcode::BuyNothing => "Either you attempted to BUY 0 units, or you don't have enough space in cargo to hold the resources".to_owned(),
            Errcode::SellNothing => "Either you attempted to SELL 0 units, or you don't have any unit of this resource in your cargo".to_owned(),
            Errcode::NoFuelInCargo => "You don't have any fuel in the station cargo".to_owned(),
            Errcode::NoHullPlateInCargo => "You don't have any hull plate in the station cargo".to_owned(),
            Errcode::CrewMemberNotFound(_) => "Crew member of this id not found".to_owned(),
            Errcode::PlayerLost => "This player lost the game and cannot play anymore".to_owned(),
            Errcode::NoPilotAssigned => "No pilot is assigned on this ship".to_owned(),
        }
    }
}

} // verus!
