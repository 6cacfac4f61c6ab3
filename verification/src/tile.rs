use vstd::prelude::*;

verus! {

/// The terrain or content of one grid cell. `Fog` is the "unobserved"
/// sentinel and the default: it is never a real observation, only the
/// absence of one.
#[derive(Clone, Copy, Debug, PartialEq, Eq, Hash, Structural)]
pub enum Tile {
    Air,
    Base,
    Cobblestone,
    Stone,
    Iron,
    Osmium,
    Bedrock,
    Acid,
    Player { id: u8 },
    Fog,
}

/// `Tile` restricted to the variants that are not a transient player
/// sighting; the target vocabulary for "nearest tile of kind K" searches.
#[derive(Clone, Copy, Debug, PartialEq, Eq, Hash, Structural)]
pub enum NonPlayerTile {
    Air,
    Base,
    Cobblestone,
    Stone,
    Iron,
    Osmium,
    Bedrock,
    Acid,
    Fog,
}

/// The classification a cell must fall into to take part in a fill:
/// every tile except `Bedrock`, which is excluded outright.
#[derive(Clone, Copy, Debug, PartialEq, Eq, Hash, Structural)]
pub enum ViableTile {
    Air,
    Base,
    Cobblestone,
    Stone,
    Iron,
    Osmium,
    Acid,
    Player,
    Fog,
}

/// Whether a fill may route through this tile at all.
pub open spec fn tile_viable(tile: Tile) -> bool {
    !(tile is Bedrock)
}

/// Whether this tile shows terrain that blocks or harms an agent
/// standing next to it. A player sighting is not an obstacle.
pub open spec fn tile_is_obstacle(tile: Tile) -> bool {
    tile is Acid || tile is Bedrock || tile is Cobblestone || tile is Stone
}

/// Whether entering this tile requires a turn-consuming mining action.
pub open spec fn tile_needs_mining(tile: Tile) -> bool {
    tile is Stone || tile is Cobblestone || tile is Iron || tile is Osmium
}

/// The movement cost of entering a viable tile.
///
/// | class              | weight |
/// |--------------------|--------|
/// | Air, Base          | 5      |
/// | Fog                | 6      |
/// | Osmium             | 2      |
/// | Iron               | 4      |
/// | Stone, Cobblestone | 8      |
/// | Player (occupied)  | 30     |
/// | Acid               | 100    |
pub open spec fn tile_weight(tile: Tile) -> usize {
    match tile {
        Tile::Air | Tile::Base => 5,
        Tile::Osmium => 2,
        Tile::Iron => 4,
        Tile::Stone | Tile::Cobblestone => 8,
        Tile::Player { .. } => 30,
        Tile::Acid => 100,
        Tile::Fog => 6,
        Tile::Bedrock => 0,
    }
}

impl Tile {
    /// Whether this tile is a minable ore.
    pub fn is_ore(self) -> (r: bool)
        ensures
            r == (self is Osmium || self is Iron),
    {
        match self {
            Tile::Osmium | Tile::Iron => true,
            _ => false,
        }
    }

    /// The fill classification of this tile, or `None` for `Bedrock`.
    pub fn as_viable(self) -> (r: Option<ViableTile>)
        ensures
            r is Some <==> tile_viable(self),
            r is Some ==> r->0.weight_spec() == tile_weight(self),
            r is Some ==> r->0.requires_mining_spec() == tile_needs_mining(self),
    {
        match self {
            Tile::Air => Some(ViableTile::Air),
            Tile::Base => Some(ViableTile::Base),
            Tile::Cobblestone => Some(ViableTile::Cobblestone),
            Tile::Stone => Some(ViableTile::Stone),
            Tile::Iron => Some(ViableTile::Iron),
            Tile::Osmium => Some(ViableTile::Osmium),
            Tile::Acid => Some(ViableTile::Acid),
            Tile::Player { .. } => Some(ViableTile::Player),
            Tile::Fog => Some(ViableTile::Fog),
            Tile::Bedrock => None,
        }
    }

    /// The `NonPlayerTile` with the same terrain, or `None` for a player
    /// sighting.
    pub fn as_non_player(self) -> (r: Option<NonPlayerTile>)
        ensures
            r is Some <==> !(self is Player),
            r is Some ==> r->0.spec_to_tile() == self,
    {
        match self {
            Tile::Air => Some(NonPlayerTile::Air),
            Tile::Base => Some(NonPlayerTile::Base),
            Tile::Cobblestone => Some(NonPlayerTile::Cobblestone),
            Tile::Stone => Some(NonPlayerTile::Stone),
            Tile::Iron => Some(NonPlayerTile::Iron),
            Tile::Osmium => Some(NonPlayerTile::Osmium),
            Tile::Bedrock => Some(NonPlayerTile::Bedrock),
            Tile::Acid => Some(NonPlayerTile::Acid),
            Tile::Fog => Some(NonPlayerTile::Fog),
            Tile::Player { .. } => None,
        }
    }

    /// Whether this tile shows the given non-player terrain.
    pub fn matches(self, np_tile: NonPlayerTile) -> (r: bool)
        ensures
            r == (self == np_tile.spec_to_tile()),
    {
        match (self, np_tile) {
            (Tile::Air, NonPlayerTile::Air) => true,
            (Tile::Base, NonPlayerTile::Base) => true,
            (Tile::Cobblestone, NonPlayerTile::Cobblestone) => true,
            (Tile::Stone, NonPlayerTile::Stone) => true,
            (Tile::Iron, NonPlayerTile::Iron) => true,
            (Tile::Osmium, NonPlayerTile::Osmium) => true,
            (Tile::Bedrock, NonPlayerTile::Bedrock) => true,
            (Tile::Acid, NonPlayerTile::Acid) => true,
            (Tile::Fog, NonPlayerTile::Fog) => true,
            _ => false,
        }
    }
}

impl Default for Tile {
    /// An unobserved cell: `Fog`.
    fn default() -> (r: Self)
        ensures
            r is Fog,
    {
        Tile::Fog
    }
}

impl NonPlayerTile {
    pub open spec fn spec_to_tile(self) -> Tile {
        match self {
            NonPlayerTile::Air => Tile::Air,
            NonPlayerTile::Base => Tile::Base,
            NonPlayerTile::Cobblestone => Tile::Cobblestone,
            NonPlayerTile::Stone => Tile::Stone,
            NonPlayerTile::Iron => Tile::Iron,
            NonPlayerTile::Osmium => Tile::Osmium,
            NonPlayerTile::Bedrock => Tile::Bedrock,
            NonPlayerTile::Acid => Tile::Acid,
            NonPlayerTile::Fog => Tile::Fog,
        }
    }

    /// The plain `Tile` this terrain stands for.
    #[verifier::when_used_as_spec(spec_to_tile)]
    pub fn to_tile(self) -> (r: Tile)
        ensures
            r == self.spec_to_tile(),
    {
        match self {
            NonPlayerTile::Air => Tile::Air,
            NonPlayerTile::Base => Tile::Base,
            NonPlayerTile::Cobblestone => Tile::Cobblestone,
            NonPlayerTile::Stone => Tile::Stone,
            NonPlayerTile::Iron => Tile::Iron,
            NonPlayerTile::Osmium => Tile::Osmium,
            NonPlayerTile::Bedrock => Tile::Bedrock,
            NonPlayerTile::Acid => Tile::Acid,
            NonPlayerTile::Fog => Tile::Fog,
        }
    }

    /// Whether this terrain blocks or harms an agent standing next to it:
    /// a wall-building material or a hazard.
    pub fn is_obstacle(&self) -> (r: bool)
        ensures
            r == (self is Acid || self is Bedrock || self is Cobblestone || self is Stone),
    {
        match self {
            NonPlayerTile::Acid
            | NonPlayerTile::Bedrock
            | NonPlayerTile::Cobblestone
            | NonPlayerTile::Stone => true,
            _ => false,
        }
    }
}

impl Default for NonPlayerTile {
    /// Unobserved terrain: `Fog`.
    fn default() -> (r: Self)
        ensures
            r is Fog,
    {
        NonPlayerTile::Fog
    }
}

impl ViableTile {
    pub open spec fn weight_spec(&self) -> usize {
        match self {
            ViableTile::Air | ViableTile::Base => 5,
            ViableTile::Osmium => 2,
            ViableTile::Iron => 4,
            ViableTile::Stone | ViableTile::Cobblestone => 8,
            ViableTile::Player => 30,
            ViableTile::Acid => 100,
            ViableTile::Fog => 6,
        }
    }

    /// The movement cost of entering this tile.
    #[verifier::when_used_as_spec(weight_spec)]
    pub fn weight(&self) -> (r: usize)
        ensures
            r == self.weight_spec(),
    {
        match self {
            ViableTile::Air | ViableTile::Base => 5,
            ViableTile::Osmium => 2,
            ViableTile::Iron => 4,
            ViableTile::Stone | ViableTile::Cobblestone => 8,
            ViableTile::Player => 30,
            ViableTile::Acid => 100,
            ViableTile::Fog => 6,
        }
    }

    pub open spec fn requires_mining_spec(&self) -> bool {
        self is Stone || self is Cobblestone || self is Iron || self is Osmium
    }

    /// Whether entering this tile costs a mining action.
    #[verifier::when_used_as_spec(requires_mining_spec)]
    pub fn requires_mining(&self) -> (r: bool)
        ensures
            r == self.requires_mining_spec(),
    {
        match self {
            ViableTile::Stone | ViableTile::Cobblestone | ViableTile::Iron | ViableTile::Osmium =>
                true,
            _ => false,
        }
    }
}

} // verus!
