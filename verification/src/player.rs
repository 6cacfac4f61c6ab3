use vstd::prelude::*;

use crate::position::Position;

verus! {

/// The agent's upgradeable stats, as the wire report carries them.
#[derive(Clone, Copy, Debug, PartialEq, Eq, Hash, Structural)]
pub struct PlayerStats {
    pub hit_points: u8,
    pub drill_level: u8,
    pub rifle_level: u8,
    pub wheel_level: u8,
    pub sight_level: u8,
    pub has_antenna: bool,
    pub has_battery: bool,
}

/// One stat of [`PlayerStats`], named.
#[derive(Clone, Copy, Debug, PartialEq, Eq, Hash, Structural)]
pub enum Property {
    HitPoints,
    DrillLevel,
    RifleLevel,
    WheelLevel,
    SightLevel,
    HasAntenna,
    HasBattery,
}

impl Property {
    /// The human-readable name of this stat.
    pub fn label(&self) -> (r: &'static str)
        ensures
            r@ == match self {
                Property::HitPoints => "hit points"@,
                Property::DrillLevel => "drill level"@,
                Property::RifleLevel => "rifle level"@,
                Property::WheelLevel => "wheel level"@,
                Property::SightLevel => "sight level"@,
                Property::HasAntenna => "has antenna"@,
                Property::HasBattery => "has battery"@,
            },
    {
        match self {
            Property::HitPoints => "hit points",
            Property::DrillLevel => "drill level",
            Property::RifleLevel => "rifle level",
            Property::WheelLevel => "wheel level",
            Property::SightLevel => "sight level",
            Property::HasAntenna => "has antenna",
            Property::HasBattery => "has battery",
        }
    }
}

/// What the agent is carrying.
#[derive(Clone, Copy, Debug, PartialEq, Eq, Hash, Structural)]
pub struct PlayerInventory {
    pub stone: u16,
    pub iron: u16,
    pub osmium: u16,
}

/// One kind of carried material, named.
#[derive(Clone, Copy, Debug, PartialEq, Eq, Hash, Structural)]
pub enum Item {
    Stone,
    Iron,
    Osmium,
}

impl Item {
    /// The human-readable name of this material.
    pub fn label(&self) -> (r: &'static str)
        ensures
            r@ == match self {
                Item::Stone => "stone"@,
                Item::Iron => "iron"@,
                Item::Osmium => "osmium"@,
            },
    {
        match self {
            Item::Stone => "stone",
            Item::Iron => "iron",
            Item::Osmium => "osmium",
        }
    }
}

/// What an upgrade costs: iron and osmium, the two currencies.
#[derive(Clone, Copy, Debug, PartialEq, Eq, Hash, Structural)]
pub struct UpgradeCost {
    pub iron: u16,
    pub osmium: u16,
}

impl UpgradeCost {
    pub fn new(iron: u16, osmium: u16) -> (r: UpgradeCost)
        ensures
            r == (UpgradeCost { iron, osmium }),
    {
        UpgradeCost { iron, osmium }
    }
}

impl PlayerInventory {
    /// Whether the inventory covers the given cost in both currencies.
    pub fn can_afford(self, other: UpgradeCost) -> (r: bool)
        ensures
            r == (self.osmium >= other.osmium && self.iron >= other.iron),
    {
        self.osmium >= other.osmium && self.iron >= other.iron
    }
}

/// One purchasable upgrade.
#[derive(Clone, Copy, Debug, PartialEq, Eq, Hash, Structural)]
pub enum Upgrade {
    Sight,
    Rifle,
    Drill,
    Wheel,
    Antenna,
    Battery,
    Heal,
}

/// The price of raising a levelled stat from the given level, shared by
/// sight, rifle, drill and wheel: free at level 0, then 3 iron, then
/// 6 iron and 1 osmium; no further level exists.
pub open spec fn level_cost(level: u8) -> Option<UpgradeCost> {
    if level == 0 {
        Some(UpgradeCost { iron: 0, osmium: 0 })
    } else if level == 1 {
        Some(UpgradeCost { iron: 3, osmium: 0 })
    } else if level == 2 {
        Some(UpgradeCost { iron: 6, osmium: 1 })
    } else {
        None
    }
}

impl Upgrade {
    /// The price of this upgrade given the agent's current stats, or
    /// `None` when the relevant stat is already at its top level.
    pub open spec fn spec_cost(self, stats: PlayerStats) -> Option<UpgradeCost> {
        match self {
            Upgrade::Sight => level_cost(stats.sight_level),
            Upgrade::Rifle => level_cost(stats.rifle_level),
            Upgrade::Drill => level_cost(stats.drill_level),
            Upgrade::Wheel => level_cost(stats.wheel_level),
            Upgrade::Antenna => Some(UpgradeCost { iron: 2, osmium: 1 }),
            Upgrade::Battery => Some(UpgradeCost { iron: 1, osmium: 1 }),
            Upgrade::Heal => Some(UpgradeCost { iron: 0, osmium: 1 }),
        }
    }

    /// The price of this upgrade given the agent's current stats.
    pub fn cost(&self, stats: &PlayerStats) -> (r: Option<UpgradeCost>)
        ensures
            r == self.spec_cost(*stats),
    {
        match self {
            Upgrade::Sight => Self::cost_at_level(stats.sight_level),
            Upgrade::Rifle => Self::cost_at_level(stats.rifle_level),
            Upgrade::Drill => Self::cost_at_level(stats.drill_level),
            Upgrade::Wheel => Self::cost_at_level(stats.wheel_level),
            Upgrade::Antenna => Some(UpgradeCost { iron: 2, osmium: 1 }),
            Upgrade::Battery => Some(UpgradeCost { iron: 1, osmium: 1 }),
            Upgrade::Heal => Some(UpgradeCost { iron: 0, osmium: 1 }),
        }
    }

    fn cost_at_level(level: u8) -> (r: Option<UpgradeCost>)
        ensures
            r == level_cost(level),
    {
        if level == 0 {
            Some(UpgradeCost { iron: 0, osmium: 0 })
        } else if level == 1 {
            Some(UpgradeCost { iron: 3, osmium: 0 })
        } else if level == 2 {
            Some(UpgradeCost { iron: 6, osmium: 1 })
        } else {
            None
        }
    }
}

/// The threshold the agent saves toward before buying the given upgrade;
/// the drill and wheel lines hold out for more osmium than the purchase
/// itself requires.
pub open spec fn spec_threshold(upgrade: Upgrade, stats: PlayerStats) -> Option<UpgradeCost> {
    match upgrade {
        Upgrade::Sight => level_cost(stats.sight_level),
        Upgrade::Rifle => level_cost(stats.rifle_level),
        Upgrade::Drill => if stats.drill_level == 0 {
            Some(UpgradeCost { iron: 0, osmium: 0 })
        } else if stats.drill_level == 1 {
            Some(UpgradeCost { iron: 3, osmium: 100 })
        } else if stats.drill_level == 2 {
            Some(UpgradeCost { iron: 6, osmium: 100 })
        } else {
            None
        },
        Upgrade::Wheel => if stats.wheel_level == 0 {
            Some(UpgradeCost { iron: 0, osmium: 0 })
        } else if stats.wheel_level == 1 {
            Some(UpgradeCost { iron: 3, osmium: 0 })
        } else if stats.wheel_level == 2 {
            Some(UpgradeCost { iron: 6, osmium: 3 })
        } else {
            None
        },
        Upgrade::Antenna => Some(UpgradeCost { iron: 2, osmium: 1 }),
        Upgrade::Battery => Some(UpgradeCost { iron: 1, osmium: 1 }),
        Upgrade::Heal => Some(UpgradeCost { iron: 0, osmium: 1 }),
    }
}

/// The agent itself: where it stands, what it has, and where its base
/// is.
#[derive(Clone, Copy, Debug, PartialEq, Eq, Hash, Structural)]
pub struct Player {
    pub position: Position,
    pub stats: PlayerStats,
    pub inventory: PlayerInventory,
    pub base: Position,
}

impl Player {
    /// Whether the agent may buy an upgrade right now: it must stand on
    /// its base, unless it owns a battery.
    pub fn can_upgrade(&self) -> (r: bool)
        ensures
            r == (self.position == self.base || self.stats.has_battery),
    {
        (self.position.x == self.base.x && self.position.y == self.base.y)
            || self.stats.has_battery
    }

    /// Whether the agent has saved up to the threshold for the given
    /// upgrade; `false` when the upgrade no longer exists.
    pub fn can_afford(&self, upgrade: Upgrade) -> (r: bool)
        ensures
            r == match spec_threshold(upgrade, self.stats) {
                Some(t) => self.inventory.iron >= t.iron && self.inventory.osmium >= t.osmium,
                None => false,
            },
    {
        let threshold: Option<UpgradeCost> = match upgrade {
            Upgrade::Sight => Upgrade::cost_at_level(self.stats.sight_level),
            Upgrade::Rifle => Upgrade::cost_at_level(self.stats.rifle_level),
            Upgrade::Drill => {
                if self.stats.drill_level == 0 {
                    Some(UpgradeCost { iron: 0, osmium: 0 })
                } else if self.stats.drill_level == 1 {
                    Some(UpgradeCost { iron: 3, osmium: 100 })
                } else if self.stats.drill_level == 2 {
                    Some(UpgradeCost { iron: 6, osmium: 100 })
                } else {
                    None
                }
            },
            Upgrade::Wheel => {
                if self.stats.wheel_level == 0 {
                    Some(UpgradeCost { iron: 0, osmium: 0 })
                } else if self.stats.wheel_level == 1 {
                    Some(UpgradeCost { iron: 3, osmium: 0 })
                } else if self.stats.wheel_level == 2 {
                    Some(UpgradeCost { iron: 6, osmium: 3 })
                } else {
                    None
                }
            },
            Upgrade::Antenna => Some(UpgradeCost { iron: 2, osmium: 1 }),
            Upgrade::Battery => Some(UpgradeCost { iron: 1, osmium: 1 }),
            Upgrade::Heal => Some(UpgradeCost { iron: 0, osmium: 1 }),
        };
        match threshold {
            Some(t) => self.inventory.iron >= t.iron && self.inventory.osmium >= t.osmium,
            None => false,
        }
    }
}

} // verus!
