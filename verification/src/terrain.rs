//! Terrain tile kinds and what they mean for movement, vehicles, cover and
//! bullets.

use vstd::prelude::*;
use crate::text::str_eq;
use vstd::string::StringExecFns;

verus! {

/// The kinds of terrain a map tile can be made of.
#[derive(Clone, Copy, Debug, PartialEq, Eq, Structural)]
pub enum TileType {
    ShortGrass,
    MiddleGrass,
    HighGrass,
    Dirt,
    Mud,
    Concrete,
    BrickWall,
    Trunk,
    Water,
    DeepWater,
    Underbrush,
    LightUnderbrush,
    MiddleWoodLogs,
    Hedge,
    MiddleRock,
}

/// How a soldier holds his body, as far as cover is concerned.
#[derive(Clone, Copy, Debug, PartialEq, Eq, Structural)]
pub enum Posture {
    StandUp,
    Flat,
}

/// The share of a body hidden by cover, in percent.
#[derive(Clone, Copy, Debug, PartialEq, Eq, Structural)]
pub struct Coverage(pub u8);

/// A tile identifier that names no tile kind.
#[derive(Debug)]
pub enum TerrainTileError {
    UnknownId(String),
}

/// The tile kind whose identifier is `id`, if there is one.
pub open spec fn tile_type_of_id(id: Seq<char>) -> Option<TileType> {
    if id == "ShortGrass"@ {
        Some(TileType::ShortGrass)
    } else if id == "MiddleGrass"@ {
        Some(TileType::MiddleGrass)
    } else if id == "HighGrass"@ {
        Some(TileType::HighGrass)
    } else if id == "Dirt"@ {
        Some(TileType::Dirt)
    } else if id == "Mud"@ {
        Some(TileType::Mud)
    } else if id == "Concrete"@ {
        Some(TileType::Concrete)
    } else if id == "BrickWall"@ {
        Some(TileType::BrickWall)
    } else if id == "Trunk"@ {
        Some(TileType::Trunk)
    } else if id == "Water"@ {
        Some(TileType::Water)
    } else if id == "DeepWater"@ {
        Some(TileType::DeepWater)
    } else if id == "Underbrush"@ {
        Some(TileType::Underbrush)
    } else if id == "LightUnderbrush"@ {
        Some(TileType::LightUnderbrush)
    } else if id == "MiddleWoodLogs"@ {
        Some(TileType::MiddleWoodLogs)
    } else if id == "Hedge"@ {
        Some(TileType::Hedge)
    } else if id == "MiddleRock"@ {
        Some(TileType::MiddleRock)
    } else {
        None
    }
}

/// The identifier under which a tile kind is written in map files.
pub open spec fn tile_type_id(t: TileType) -> Seq<char> {
    match t {
        TileType::ShortGrass => "ShortGrass"@,
        TileType::MiddleGrass => "MiddleGrass"@,
        TileType::HighGrass => "HighGrass"@,
        TileType::Dirt => "Dirt"@,
        TileType::Mud => "Mud"@,
        TileType::Concrete => "Concrete"@,
        TileType::BrickWall => "BrickWall"@,
        TileType::Trunk => "Trunk"@,
        TileType::Water => "Water"@,
        TileType::DeepWater => "DeepWater"@,
        TileType::Underbrush => "Underbrush"@,
        TileType::LightUnderbrush => "LightUnderbrush"@,
        TileType::MiddleWoodLogs => "MiddleWoodLogs"@,
        TileType::Hedge => "Hedge"@,
        TileType::MiddleRock => "MiddleRock"@,
    }
}

/// Cost of walking onto a tile of each kind.
pub open spec fn spec_pedestrian_cost(t: TileType) -> i32 {
    match t {
        TileType::ShortGrass => 20,
        TileType::MiddleGrass => 18,
        TileType::HighGrass => 15,
        TileType::Dirt => 20,
        TileType::Mud => 30,
        TileType::Concrete => 20,
        TileType::Water => 50,
        TileType::DeepWater => 200,
        TileType::Underbrush => 10,
        TileType::LightUnderbrush => 12,
        TileType::Hedge => 15,
        TileType::MiddleWoodLogs => 15,
        TileType::MiddleRock => 15,
        TileType::BrickWall => 500,
        TileType::Trunk => 500,
    }
}

/// Tile kinds that no vehicle can cross.
pub open spec fn spec_block_vehicle(t: TileType) -> bool {
    t == TileType::BrickWall || t == TileType::Trunk || t == TileType::DeepWater
        || t == TileType::MiddleRock
}

/// Tile kinds that stop bullets.
pub open spec fn spec_block_bullet(t: TileType) -> bool {
    t == TileType::BrickWall || t == TileType::Trunk
}

/// Percentage of a body that a tile hides, for each posture.
pub open spec fn spec_coverage(t: TileType, posture: Posture) -> Option<Coverage> {
    match posture {
        Posture::StandUp => match t {
            TileType::BrickWall => Some(Coverage(80)),
            TileType::Trunk => Some(Coverage(90)),
            TileType::MiddleWoodLogs => Some(Coverage(20)),
            TileType::Hedge => Some(Coverage(15)),
            TileType::MiddleRock => Some(Coverage(20)),
            _ => None,
        },
        Posture::Flat => match t {
            TileType::Mud => Some(Coverage(30)),
            TileType::BrickWall => Some(Coverage(80)),
            TileType::Trunk => Some(Coverage(70)),
            TileType::MiddleWoodLogs => Some(Coverage(70)),
            TileType::Hedge => Some(Coverage(15)),
            TileType::MiddleRock => Some(Coverage(75)),
            _ => None,
        },
    }
}

impl TileType {
    /// Reads a tile kind from its identifier.
    pub fn parse(id: &str) -> (res: Result<TileType, TerrainTileError>)
        ensures
            tile_type_of_id(id@) matches Some(t) ==> res == Ok::<TileType, TerrainTileError>(t),
            tile_type_of_id(id@) is None ==> (res matches Err(TerrainTileError::UnknownId(s))
                && s@ == id@),
    {
        if str_eq(id, "ShortGrass") {
            Ok(TileType::ShortGrass)
        } else if str_eq(id, "MiddleGrass") {
            Ok(TileType::MiddleGrass)
        } else if str_eq(id, "HighGrass") {
            Ok(TileType::HighGrass)
        } else if str_eq(id, "Dirt") {
            Ok(TileType::Dirt)
        } else if str_eq(id, "Mud") {
            Ok(TileType::Mud)
        } else if str_eq(id, "Concrete") {
            Ok(TileType::Concrete)
        } else if str_eq(id, "BrickWall") {
            Ok(TileType::BrickWall)
        } else if str_eq(id, "Trunk") {
            Ok(TileType::Trunk)
        } else if str_eq(id, "Water") {
            Ok(TileType::Water)
        } else if str_eq(id, "DeepWater") {
            Ok(TileType::DeepWater)
        } else if str_eq(id, "Underbrush") {
            Ok(TileType::Underbrush)
        } else if str_eq(id, "LightUnderbrush") {
            Ok(TileType::LightUnderbrush)
        } else if str_eq(id, "MiddleWoodLogs") {
            Ok(TileType::MiddleWoodLogs)
        } else if str_eq(id, "Hedge") {
            Ok(TileType::Hedge)
        } else if str_eq(id, "MiddleRock") {
            Ok(TileType::MiddleRock)
        } else {
            Err(TerrainTileError::UnknownId(id.to_owned()))
        }
    }

    pub fn pedestrian_cost(&self) -> (res: i32)
        ensures
            res == spec_pedestrian_cost(*self),
    {
        match self {
            TileType::ShortGrass => 20,
            TileType::MiddleGrass => 18,
            TileType::HighGrass => 15,
            TileType::Dirt => 20,
            TileType::Mud => 30,
            TileType::Concrete => 20,
            TileType::Water => 50,
            TileType::DeepWater => 200,
            TileType::Underbrush => 10,
            TileType::LightUnderbrush => 12,
            TileType::Hedge => 15,
            TileType::MiddleWoodLogs => 15,
            TileType::MiddleRock => 15,
            TileType::BrickWall => 500,
            TileType::Trunk => 500,
        }
    }

    pub fn block_vehicle(&self) -> (res: bool)
        ensures
            res == spec_block_vehicle(*self),
    {
        match self {
            TileType::ShortGrass
            | TileType::MiddleGrass
            | TileType::HighGrass
            | TileType::Dirt
            | TileType::Mud
            | TileType::Concrete
            | TileType::Water
            | TileType::Underbrush
            | TileType::LightUnderbrush
            | TileType::MiddleWoodLogs
            | TileType::Hedge => false,
            TileType::BrickWall | TileType::Trunk | TileType::DeepWater | TileType::MiddleRock => {
                true
            },
        }
    }

    pub fn coverage(&self, posture: &Posture) -> (res: Option<Coverage>)
        ensures
            res == spec_coverage(*self, *posture),
    {
        match posture {
            Posture::StandUp => match self {
                TileType::ShortGrass => None,
                TileType::MiddleGrass => None,
                TileType::HighGrass => None,
                TileType::Dirt => None,
                TileType::Mud => None,
                TileType::Concrete => None,
                TileType::BrickWall => Some(Coverage(80)),
                TileType::Trunk => Some(Coverage(90)),
                TileType::Water => None,
                TileType::DeepWater => None,
                TileType::Underbrush => None,
                TileType::LightUnderbrush => None,
                TileType::MiddleWoodLogs => Some(Coverage(20)),
                TileType::Hedge => Some(Coverage(15)),
                TileType::MiddleRock => Some(Coverage(20)),
            },
            Posture::Flat => match self {
                TileType::ShortGrass => None,
                TileType::MiddleGrass => None,
                TileType::HighGrass => None,
                TileType::Dirt => None,
                TileType::Mud => Some(Coverage(30)),
                TileType::Concrete => None,
                TileType::BrickWall => Some(Coverage(80)),
                TileType::Trunk => Some(Coverage(70)),
                TileType::Water => None,
                TileType::DeepWater => None,
                TileType::Underbrush => None,
                TileType::LightUnderbrush => None,
                TileType::MiddleWoodLogs => Some(Coverage(70)),
                TileType::Hedge => Some(Coverage(15)),
                TileType::MiddleRock => Some(Coverage(75)),
            },
        }
    }

    pub fn block_bullet(&self) -> (res: bool)
        ensures
            res == spec_block_bullet(*self),
    {
        match self {
            TileType::ShortGrass => false,
            TileType::MiddleGrass => false,
            TileType::HighGrass => false,
            TileType::Dirt => false,
            TileType::Mud => false,
            TileType::Concrete => false,
            TileType::BrickWall => true,
            TileType::Trunk => true,
            TileType::Water => false,
            TileType::DeepWater => false,
            TileType::Underbrush => false,
            TileType::LightUnderbrush => false,
            TileType::MiddleWoodLogs => false,
            TileType::Hedge => false,
            TileType::MiddleRock => false,
        }
    }
}

impl std::str::FromStr for TileType {
    type Err = TerrainTileError;

    fn from_str(s: &str) -> (res: Result<Self, Self::Err>)
        ensures
            tile_type_of_id(s@) matches Some(t) ==> res == Ok::<TileType, TerrainTileError>(t),
            tile_type_of_id(s@) is None ==> (res matches Err(TerrainTileError::UnknownId(e))
                && e@ == s@),
    {
        TileType::parse(s)
    }
}

impl TerrainTileError {
    /// The text that describes the error: `Unknown id : ` followed by the id.
    pub fn message(&self) -> (res: String)
        ensures
            self matches TerrainTileError::UnknownId(id) && res@ == "Unknown id : "@ + id@,
    {
        match self {
            TerrainTileError::UnknownId(id) => "Unknown id : ".to_owned().concat(id.as_str()),
        }
    }
}

/// Every tile kind's identifier reads back as that kind.
pub proof fn lemma_tile_id_round_trip(t: TileType)
    ensures
        tile_type_of_id(tile_type_id(t)) == Some(t),
{
    reveal_strlit("ShortGrass");
    reveal_strlit("MiddleGrass");
    reveal_strlit("HighGrass");
    reveal_strlit("Dirt");
    reveal_strlit("Mud");
    reveal_strlit("Concrete");
    reveal_strlit("BrickWall");
    reveal_strlit("Trunk");
    reveal_strlit("Water");
    reveal_strlit("DeepWater");
    reveal_strlit("Underbrush");
    reveal_strlit("LightUnderbrush");
    reveal_strlit("MiddleWoodLogs");
    reveal_strlit("Hedge");
    reveal_strlit("MiddleRock");
    match t {
        TileType::ShortGrass => {

        },
        TileType::MiddleGrass => {
            assert("MiddleGrass"@.len() != "ShortGrass"@.len());
        },
        TileType::HighGrass => {
            assert("HighGrass"@.len() != "ShortGrass"@.len());
            assert("HighGrass"@.len() != "MiddleGrass"@.len());
        },
        TileType::Dirt => {
            assert("Dirt"@.len() != "ShortGrass"@.len());
            assert("Dirt"@.len() != "MiddleGrass"@.len());
            assert("Dirt"@.len() != "HighGrass"@.len());
        },
        TileType::Mud => {
            assert("Mud"@.len() != "ShortGrass"@.len());
            assert("Mud"@.len() != "MiddleGrass"@.len());
            assert("Mud"@.len() != "HighGrass"@.len());
            assert("Mud"@.len() != "Dirt"@.len());
        },
        TileType::Concrete => {
            assert("Concrete"@.len() != "ShortGrass"@.len());
            assert("Concrete"@.len() != "MiddleGrass"@.len());
            assert("Concrete"@.len() != "HighGrass"@.len());
            assert("Concrete"@.len() != "Dirt"@.len());
            assert("Concrete"@.len() != "Mud"@.len());
        },
        TileType::BrickWall => {
            assert("BrickWall"@.len() != "ShortGrass"@.len());
            assert("BrickWall"@.len() != "MiddleGrass"@.len());
            assert("BrickWall"@[0] != "HighGrass"@[0]);
            assert("BrickWall"@.len() != "Dirt"@.len());
            assert("BrickWall"@.len() != "Mud"@.len());
            assert("BrickWall"@.len() != "Concrete"@.len());
        },
        TileType::Trunk => {
            assert("Trunk"@.len() != "ShortGrass"@.len());
            assert("Trunk"@.len() != "MiddleGrass"@.len());
            assert("Trunk"@.len() != "HighGrass"@.len());
            assert("Trunk"@.len() != "Dirt"@.len());
            assert("Trunk"@.len() != "Mud"@.len());
            assert("Trunk"@.len() != "Concrete"@.len());
            assert("Trunk"@.len() != "BrickWall"@.len());
        },
        TileType::Water => {
            assert("Water"@.len() != "ShortGrass"@.len());
            assert("Water"@.len() != "MiddleGrass"@.len());
            assert("Water"@.len() != "HighGrass"@.len());
            assert("Water"@.len() != "Dirt"@.len());
            assert("Water"@.len() != "Mud"@.len());
            assert("Water"@.len() != "Concrete"@.len());
            assert("Water"@.len() != "BrickWall"@.len());
            assert("Water"@[0] != "Trunk"@[0]);
        },
        TileType::DeepWater => {
            assert("DeepWater"@.len() != "ShortGrass"@.len());
            assert("DeepWater"@.len() != "MiddleGrass"@.len());
            assert("DeepWater"@[0] != "HighGrass"@[0]);
            assert("DeepWater"@.len() != "Dirt"@.len());
            assert("DeepWater"@.len() != "Mud"@.len());
            assert("DeepWater"@.len() != "Concrete"@.len());
            assert("DeepWater"@[0] != "BrickWall"@[0]);
            assert("DeepWater"@.len() != "Trunk"@.len());
            assert("DeepWater"@.len() != "Water"@.len());
        },
        TileType::Underbrush => {
            assert("Underbrush"@[0] != "ShortGrass"@[0]);
            assert("Underbrush"@.len() != "MiddleGrass"@.len());
            assert("Underbrush"@.len() != "HighGrass"@.len());
            assert("Underbrush"@.len() != "Dirt"@.len());
            assert("Underbrush"@.len() != "Mud"@.len());
            assert("Underbrush"@.len() != "Concrete"@.len());
            assert("Underbrush"@.len() != "BrickWall"@.len());
            assert("Underbrush"@.len() != "Trunk"@.len());
            assert("Underbrush"@.len() != "Water"@.len());
            assert("Underbrush"@.len() != "DeepWater"@.len());
        },
        TileType::LightUnderbrush => {
            assert("LightUnderbrush"@.len() != "ShortGrass"@.len());
            assert("LightUnderbrush"@.len() != "MiddleGrass"@.len());
            assert("LightUnderbrush"@.len() != "HighGrass"@.len());
            assert("LightUnderbrush"@.len() != "Dirt"@.len());
            assert("LightUnderbrush"@.len() != "Mud"@.len());
            assert("LightUnderbrush"@.len() != "Concrete"@.len());
            assert("LightUnderbrush"@.len() != "BrickWall"@.len());
            assert("LightUnderbrush"@.len() != "Trunk"@.len());
            assert("LightUnderbrush"@.len() != "Water"@.len());
            assert("LightUnderbrush"@.len() != "DeepWater"@.len());
            assert("LightUnderbrush"@.len() != "Underbrush"@.len());
        },
        TileType::MiddleWoodLogs => {
            assert("MiddleWoodLogs"@.len() != "ShortGrass"@.len());
            assert("MiddleWoodLogs"@.len() != "MiddleGrass"@.len());
            assert("MiddleWoodLogs"@.len() != "HighGrass"@.len());
            assert("MiddleWoodLogs"@.len() != "Dirt"@.len());
            assert("MiddleWoodLogs"@.len() != "Mud"@.len());
            assert("MiddleWoodLogs"@.len() != "Concrete"@.len());
            assert("MiddleWoodLogs"@.len() != "BrickWall"@.len());
            assert("MiddleWoodLogs"@.len() != "Trunk"@.len());
            assert("MiddleWoodLogs"@.len() != "Water"@.len());
            assert("MiddleWoodLogs"@.len() != "DeepWater"@.len());
            assert("MiddleWoodLogs"@.len() != "Underbrush"@.len());
            assert("MiddleWoodLogs"@.len() != "LightUnderbrush"@.len());
        },
        TileType::Hedge => {
            assert("Hedge"@.len() != "ShortGrass"@.len());
            assert("Hedge"@.len() != "MiddleGrass"@.len());
            assert("Hedge"@.len() != "HighGrass"@.len());
            assert("Hedge"@.len() != "Dirt"@.len());
            assert("Hedge"@.len() != "Mud"@.len());
            assert("Hedge"@.len() != "Concrete"@.len());
            assert("Hedge"@.len() != "BrickWall"@.len());
            assert("Hedge"@[0] != "Trunk"@[0]);
            assert("Hedge"@[0] != "Water"@[0]);
            assert("Hedge"@.len() != "DeepWater"@.len());
            assert("Hedge"@.len() != "Underbrush"@.len());
            assert("Hedge"@.len() != "LightUnderbrush"@.len());
            assert("Hedge"@.len() != "MiddleWoodLogs"@.len());
        },
        TileType::MiddleRock => {
            assert("MiddleRock"@[0] != "ShortGrass"@[0]);
            assert("MiddleRock"@.len() != "MiddleGrass"@.len());
            assert("MiddleRock"@.len() != "HighGrass"@.len());
            assert("MiddleRock"@.len() != "Dirt"@.len());
            assert("MiddleRock"@.len() != "Mud"@.len());
            assert("MiddleRock"@.len() != "Concrete"@.len());
            assert("MiddleRock"@.len() != "BrickWall"@.len());
            assert("MiddleRock"@.len() != "Trunk"@.len());
            assert("MiddleRock"@.len() != "Water"@.len());
            assert("MiddleRock"@.len() != "DeepWater"@.len());
            assert("MiddleRock"@[0] != "Underbrush"@[0]);
            assert("MiddleRock"@.len() != "LightUnderbrush"@.len());
            assert("MiddleRock"@.len() != "MiddleWoodLogs"@.len());
            assert("MiddleRock"@.len() != "Hedge"@.len());
        },
    }
}

} // verus!
