//! The kinds of tiles a world is made of.
use vstd::prelude::*;

verus! {

/// Types of tiles that can exist in the world.
#[derive(Clone, Copy, PartialEq, Eq, Debug, Hash, Structural)]
pub enum TileType {
    Air,
    Dirt,
    Grass,
    Stone,
    Bedrock,
    Sand,
    Wood,
    Leaves,
}

/// An sRGB colour whose channels are given in hundredths (0 ..= 100).
#[derive(Clone, Copy, PartialEq, Eq, Debug, Structural)]
pub struct TileColor {
    pub r: u8,
    pub g: u8,
    pub b: u8,
}

impl TileType {
    /// A tile blocks movement exactly when it is not air.
    pub open spec fn solid(self) -> bool {
        self != TileType::Air
    }

    /// The display colour of each tile type; air has none.
    pub open spec fn color_spec(self) -> Option<TileColor> {
        match self {
            TileType::Air => None,
            TileType::Grass => Some(TileColor { r: 22, g: 62, b: 12 }),
            TileType::Dirt => Some(TileColor { r: 52, g: 36, b: 16 }),
            TileType::Stone => Some(TileColor { r: 48, g: 48, b: 50 }),
            TileType::Bedrock => Some(TileColor { r: 18, g: 18, b: 20 }),
            TileType::Sand => Some(TileColor { r: 88, g: 82, b: 50 }),
            TileType::Wood => Some(TileColor { r: 44, g: 30, b: 14 }),
            TileType::Leaves => Some(TileColor { r: 12, g: 52, b: 10 }),
        }
    }

    /// Returns the display colour for this tile, or `None` for air.
    pub fn color(self) -> (c: Option<TileColor>)
        ensures
            c == self.color_spec(),
            c is None <==> self == TileType::Air,
            c matches Some(col) ==> col.r <= 100 && col.g <= 100 && col.b <= 100,
    {
        match self {
            TileType::Air => None,
            TileType::Grass => Some(TileColor { r: 22, g: 62, b: 12 }),
            TileType::Dirt => Some(TileColor { r: 52, g: 36, b: 16 }),
            TileType::Stone => Some(TileColor { r: 48, g: 48, b: 50 }),
            TileType::Bedrock => Some(TileColor { r: 18, g: 18, b: 20 }),
            TileType::Sand => Some(TileColor { r: 88, g: 82, b: 50 }),
            TileType::Wood => Some(TileColor { r: 44, g: 30, b: 14 }),
            TileType::Leaves => Some(TileColor { r: 12, g: 52, b: 10 }),
        }
    }

    /// Returns `true` if this tile blocks movement.
    pub fn is_solid(self) -> (b: bool)
        ensures
            b == self.solid(),
    {
        match self {
            TileType::Air => false,
            _ => true,
        }
    }
}

impl Default for TileType {
    /// The default tile is dirt.
    fn default() -> (t: Self)
        ensures
            t == TileType::Dirt,
    {
        TileType::Dirt
    }
}

/// The name shown for each tile type.
pub open spec fn tile_name(t: TileType) -> Seq<char> {
    match t {
        TileType::Air => "Air"@,
        TileType::Grass => "Grass"@,
        TileType::Dirt => "Dirt"@,
        TileType::Stone => "Stone"@,
        TileType::Bedrock => "Bedrock"@,
        TileType::Sand => "Sand"@,
        TileType::Wood => "Wood"@,
        TileType::Leaves => "Leaves"@,
    }
}

/// Returns the display name of a tile type.
pub fn block_name(t: TileType) -> (s: &'static str)
    ensures
        s@ == tile_name(t),
{
    match t {
        TileType::Air => "Air",
        TileType::Grass => "Grass",
        TileType::Dirt => "Dirt",
        TileType::Stone => "Stone",
        TileType::Bedrock => "Bedrock",
        TileType::Sand => "Sand",
        TileType::Wood => "Wood",
        TileType::Leaves => "Leaves",
    }
}

/// The texture file of each tile type; air is never drawn.
pub open spec fn texture_path_text(t: TileType) -> Option<Seq<char>> {
    match t {
        TileType::Air => None,
        TileType::Grass => Some("textures/tile_grass.png"@),
        TileType::Dirt => Some("textures/tile_dirt.png"@),
        TileType::Stone => Some("textures/tile_stone.png"@),
        TileType::Bedrock => Some("textures/tile_bedrock.png"@),
        TileType::Sand => Some("textures/tile_sand.png"@),
        TileType::Wood => Some("textures/tile_wood.png"@),
        TileType::Leaves => Some("textures/tile_leaves.png"@),
    }
}

/// Returns the asset path of the texture of a tile type, or `None` for air.
pub fn texture_path(t: TileType) -> (p: Option<&'static str>)
    ensures
        p is None <==> texture_path_text(t) is None,
        p matches Some(path) ==> texture_path_text(t) == Some(path@),
{
    match t {
        TileType::Air => None,
        TileType::Grass => Some("textures/tile_grass.png"),
        TileType::Dirt => Some("textures/tile_dirt.png"),
        TileType::Stone => Some("textures/tile_stone.png"),
        TileType::Bedrock => Some("textures/tile_bedrock.png"),
        TileType::Sand => Some("textures/tile_sand.png"),
        TileType::Wood => Some("textures/tile_wood.png"),
        TileType::Leaves => Some("textures/tile_leaves.png"),
    }
}

/// Air is the only tile that does not block movement.
pub proof fn law_only_air_is_open(t: TileType)
    ensures
        !t.solid() <==> t == TileType::Air,
        t.color_spec() is None <==> t == TileType::Air,
        texture_path_text(t) is None <==> t == TileType::Air,
{
}

/// `s` with its ASCII capitals turned into small letters.
pub open spec fn ascii_lowercase(s: Seq<char>) -> Seq<char> {
    s.map_values(|c: char| if 'A' <= c && c <= 'Z' { ((c as int) + 32) as char } else { c })
}

/// Each drawn tile type has its own texture, named after the tile:
/// `textures/tile_<name in small letters>.png`.
pub proof fn law_texture_named_after_tile(t: TileType)
    requires
        t != TileType::Air,
    ensures
        texture_path_text(t) == Some("textures/tile_"@ + ascii_lowercase(tile_name(t)) + ".png"@),
{
    reveal_strlit("textures/tile_");
    reveal_strlit(".png");
    match t {
        TileType::Air => {},
        TileType::Grass => {
            reveal_strlit("Grass");
            reveal_strlit("textures/tile_grass.png");
            assert("textures/tile_grass.png"@ =~= "textures/tile_"@ + ascii_lowercase("Grass"@)
                + ".png"@);
        },
        TileType::Dirt => {
            reveal_strlit("Dirt");
            reveal_strlit("textures/tile_dirt.png");
            assert("textures/tile_dirt.png"@ =~= "textures/tile_"@ + ascii_lowercase("Dirt"@)
                + ".png"@);
        },
        TileType::Stone => {
            reveal_strlit("Stone");
            reveal_strlit("textures/tile_stone.png");
            assert("textures/tile_stone.png"@ =~= "textures/tile_"@ + ascii_lowercase("Stone"@)
                + ".png"@);
        },
        TileType::Bedrock => {
            reveal_strlit("Bedrock");
            reveal_strlit("textures/tile_bedrock.png");
            assert("textures/tile_bedrock.png"@ =~= "textures/tile_"@ + ascii_lowercase("Bedrock"@)
                + ".png"@);
        },
        TileType::Sand => {
            reveal_strlit("Sand");
            reveal_strlit("textures/tile_sand.png");
            assert("textures/tile_sand.png"@ =~= "textures/tile_"@ + ascii_lowercase("Sand"@)
                + ".png"@);
        },
        TileType::Wood => {
            reveal_strlit("Wood");
            reveal_strlit("textures/tile_wood.png");
            assert("textures/tile_wood.png"@ =~= "textures/tile_"@ + ascii_lowercase("Wood"@)
                + ".png"@);
        },
        TileType::Leaves => {
            reveal_strlit("Leaves");
            reveal_strlit("textures/tile_leaves.png");
            assert("textures/tile_leaves.png"@ =~= "textures/tile_"@ + ascii_lowercase("Leaves"@)
                + ".png"@);
        },
    }
}

} // verus!
