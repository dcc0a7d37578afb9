//! Tiles of a room and a canvas recorded as the ordered layers drawn on it.
//!
//! A `Canvas` holds what was drawn, in drawing order: a later layer is
//! composited over the earlier ones. Turning the layers into pixels is left
//! to the raster backend.
use vstd::prelude::*;

verus! {

/// Width and height of a room, in tiles.
pub const ROOM_SIZE: u8 = 50;

/// Number of tiles in a room.
pub const ROOM_AREA: usize = 2500;

/// A tile of a room, by column `x` and row `y`.
#[derive(Clone, Copy, Debug, PartialEq, Eq, Structural)]
pub struct Tile {
    pub x: u8,
    pub y: u8,
}

impl Tile {
    /// Both coordinates lie inside the room.
    pub open spec fn wf(self) -> bool {
        self.x < ROOM_SIZE && self.y < ROOM_SIZE
    }

    /// Index of the tile in a row-major grid of the room.
    pub open spec fn index(self) -> int {
        self.y * ROOM_SIZE + self.x
    }
}

/// Every tile of a sequence lies inside the room.
pub open spec fn all_tiles_wf(s: Seq<Tile>) -> bool {
    forall|i: int| 0 <= i < s.len() ==> (#[trigger] s[i]).wf()
}

/// A color with its opacity, as bytes.
#[derive(Clone, Copy, Debug, PartialEq, Eq, Structural)]
pub struct TileColor {
    pub r: u8,
    pub g: u8,
    pub b: u8,
    pub a: u8,
}

/// Text written centered on a tile.
#[derive(Clone, Copy, Debug, PartialEq, Eq, Structural)]
pub enum Label {
    /// A number, written in decimal.
    Number(u8),
    /// A single character.
    Glyph(char),
}

/// Terrain of a tile.
#[derive(Clone, Copy, Debug, PartialEq, Eq, Structural)]
pub enum Terrain {
    Plain,
    Wall,
    Swamp,
}

/// Kind of mineral deposit.
#[derive(Clone, Copy, Debug, PartialEq, Eq, Structural)]
pub enum Mineral {
    Hydrogen,
    Oxygen,
    Utrium,
    Lemergium,
    Keanium,
    Zynthium,
    Catalyst,
    /// A mineral type without a sprite of its own.
    Unknown,
}

/// A harvestable resource.
#[derive(Clone, Copy, Debug, PartialEq, Eq, Structural)]
pub enum Resource {
    Source,
    Mineral(Mineral),
}

/// A buildable structure.
#[derive(Clone, Copy, Debug, PartialEq, Eq, Structural)]
pub enum Structure {
    ConstructedWall,
    Controller,
    Extractor,
    Terminal,
}

/// The picture drawn on one tile.
#[derive(Clone, Copy, Debug, PartialEq, Eq, Structural)]
pub enum Sprite {
    Terrain(Terrain),
    Resource(Resource),
    Structure(Structure),
}

/// One drawing step.
#[derive(Debug, PartialEq, Eq)]
pub enum Layer {
    /// One translucent overlay covering all the given tiles, composited at
    /// the canvas origin as a single layer.
    Tint { color: TileColor, tiles: Vec<Tile> },
    /// A label centered on a tile.
    Text { tile: Tile, label: Label },
    /// A sprite drawn over a tile.
    Sprite { tile: Tile, sprite: Sprite },
}

/// What a `Layer` draws.
pub ghost enum LayerView {
    Tint(TileColor, Seq<Tile>),
    Text(Tile, Label),
    Sprite(Tile, Sprite),
}

impl View for Layer {
    type V = LayerView;

    open spec fn view(&self) -> LayerView {
        match self {
            Layer::Tint { color, tiles } => LayerView::Tint(*color, tiles@),
            Layer::Text { tile, label } => LayerView::Text(*tile, *label),
            Layer::Sprite { tile, sprite } => LayerView::Sprite(*tile, *sprite),
        }
    }
}

/// The tiles that the translucent overlays among `layers` cover.
pub open spec fn tinted_tiles(layers: Seq<LayerView>) -> Set<Tile>
    decreases layers.len(),
{
    if layers.len() == 0 {
        Set::empty()
    } else {
        let rest = tinted_tiles(layers.drop_last());
        match layers.last() {
            LayerView::Tint(_, tiles) => rest.union(tiles.to_set()),
            _ => rest,
        }
    }
}

/// A canvas of one room, recorded as the layers drawn on it, oldest first.
#[derive(Debug)]
pub struct Canvas {
    pub layers: Vec<Layer>,
}

impl View for Canvas {
    type V = Seq<LayerView>;

    open spec fn view(&self) -> Seq<LayerView> {
        self.layers@.map_values(|l: Layer| l@)
    }
}

/// A copy of a sequence of tiles.
pub(crate) fn copy_tiles(v: &Vec<Tile>) -> (r: Vec<Tile>)
    ensures
        r@ == v@,
{
    let mut r: Vec<Tile> = Vec::new();
    let mut i: usize = 0;
    while i < v.len()
        invariant
            i <= v@.len(),
            r@ == v@.subrange(0, i as int),
        decreases v@.len() - i,
    {
        r.push(v[i]);
        i += 1;
        assert(r@ =~= v@.subrange(0, i as int));
    }
    assert(v@.subrange(0, v@.len() as int) =~= v@);
    r
}

impl Layer {
    /// A layer that draws the same as this one, with storage of its own.
    pub fn duplicate(&self) -> (r: Layer)
        ensures
            r@ == self@,
    {
        match self {
            Layer::Tint { color, tiles } => Layer::Tint { color: *color, tiles: copy_tiles(tiles) },
            Layer::Text { tile, label } => Layer::Text { tile: *tile, label: *label },
            Layer::Sprite { tile, sprite } => Layer::Sprite { tile: *tile, sprite: *sprite },
        }
    }
}

impl Canvas {
    /// A blank canvas.
    pub fn new() -> (c: Canvas)
        ensures
            c@ == Seq::<LayerView>::empty(),
    {
        let c = Canvas { layers: Vec::new() };
        assert(c@ =~= Seq::<LayerView>::empty());
        c
    }

    /// Draws `layer` over everything drawn so far.
    pub fn push_layer(&mut self, layer: Layer)
        ensures
            final(self)@ == old(self)@.push(layer@),
    {
        self.layers.push(layer);
        assert(self@ =~= old(self)@.push(layer@));
    }

    /// A deep copy: a canvas with the same layers that shares no storage
    /// with this one.
    pub fn duplicate(&self) -> (c: Canvas)
        ensures
            c@ == self@,
    {
        let mut c = Canvas::new();
        let mut i: usize = 0;
        while i < self.layers.len()
            invariant
                i <= self.layers@.len(),
                c@ == self@.subrange(0, i as int),
            decreases self.layers@.len() - i,
        {
            c.push_layer(self.layers[i].duplicate());
            i += 1;
            assert(c@ =~= self@.subrange(0, i as int));
        }
        assert(self@.subrange(0, self@.len() as int) =~= self@);
        c
    }
}

} // verus!
