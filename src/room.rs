//! The images of one room: a base layer of terrain and objects, and a copy
//! of it with the region analysis drawn on top.
use vstd::prelude::*;
use crate::canvas::{
    Canvas, Layer, LayerView, Mineral, Resource, Sprite, Structure, Terrain, Tile, ROOM_AREA,
    ROOM_SIZE,
};
use crate::regions::{RegionAnalysis, analysis_layers, render_region_analysis};

verus! {

/// What stands on a tile of a room.
#[derive(Clone, Copy, Debug, PartialEq, Eq, Structural)]
pub enum ObjectKind {
    Source,
    Mineral(Mineral),
    ConstructedWall,
    Controller,
    Extractor,
    Terminal,
    /// Any object that the images do not show.
    Other,
}

/// An object of a room and its tile.
#[derive(Clone, Copy, Debug, PartialEq, Eq, Structural)]
pub struct RoomObject {
    pub tile: Tile,
    pub kind: ObjectKind,
}

/// Every object lies on a tile inside the room.
pub open spec fn objects_in_room(objects: Seq<RoomObject>) -> bool {
    forall|i: int| 0 <= i < objects.len() ==> (#[trigger] objects[i]).tile.wf()
}

/// A room's terrain, row by row, and its objects.
pub struct RoomData {
    pub terrain: Vec<Terrain>,
    pub objects: Vec<RoomObject>,
}

impl RoomData {
    /// One terrain entry for each tile of the room, and every object on a
    /// tile inside the room.
    pub open spec fn wf(&self) -> bool {
        &&& self.terrain@.len() == ROOM_AREA
        &&& objects_in_room(self.objects@)
    }
}

/// The terrain of every tile, column by column, each column top to bottom.
pub open spec fn terrain_layers(terrain: Seq<Terrain>) -> Seq<LayerView> {
    Seq::new(
        ROOM_AREA as nat,
        |i: int|
            LayerView::Sprite(
                Tile { x: (i / 50) as u8, y: (i % 50) as u8 },
                Sprite::Terrain(terrain[(i % 50) * 50 + i / 50]),
            ),
    )
}

/// The resource an object is, if it is one.
pub open spec fn resource_of(kind: ObjectKind) -> Option<Resource> {
    match kind {
        ObjectKind::Source => Some(Resource::Source),
        ObjectKind::Mineral(m) => Some(Resource::Mineral(m)),
        _ => None,
    }
}

/// The buildable structure an object is, if it is one.
pub open spec fn structure_of(kind: ObjectKind) -> Option<Structure> {
    match kind {
        ObjectKind::ConstructedWall => Some(Structure::ConstructedWall),
        ObjectKind::Controller => Some(Structure::Controller),
        ObjectKind::Extractor => Some(Structure::Extractor),
        ObjectKind::Terminal => Some(Structure::Terminal),
        _ => None,
    }
}

/// The resources among `objects`, in order.
pub open spec fn resource_layers(objects: Seq<RoomObject>) -> Seq<LayerView>
    decreases objects.len(),
{
    if objects.len() == 0 {
        Seq::empty()
    } else {
        let rest = resource_layers(objects.drop_last());
        let o = objects.last();
        match resource_of(o.kind) {
            Some(r) => rest.push(LayerView::Sprite(o.tile, Sprite::Resource(r))),
            None => rest,
        }
    }
}

/// The buildable structures among `objects`, in order.
pub open spec fn structure_layers(objects: Seq<RoomObject>) -> Seq<LayerView>
    decreases objects.len(),
{
    if objects.len() == 0 {
        Seq::empty()
    } else {
        let rest = structure_layers(objects.drop_last());
        let o = objects.last();
        match structure_of(o.kind) {
            Some(s) => rest.push(LayerView::Sprite(o.tile, Sprite::Structure(s))),
            None => rest,
        }
    }
}

/// The base image of a room: terrain, then resources, then structures.
pub open spec fn base_layers(room: &RoomData) -> Seq<LayerView> {
    terrain_layers(room.terrain@) + resource_layers(room.objects@) + structure_layers(
        room.objects@,
    )
}

/// Draws the terrain of every tile of the room.
pub fn draw_terrain_from_offline_terrain_data(canvas: &mut Canvas, terrain: &Vec<Terrain>)
    requires
        terrain@.len() == ROOM_AREA,
    ensures
        final(canvas)@ == old(canvas)@ + terrain_layers(terrain@),
{
    let size = ROOM_SIZE as usize;
    let mut i: usize = 0;
    while i < ROOM_AREA
        invariant
            i <= ROOM_AREA,
            size == 50,
            terrain@.len() == ROOM_AREA,
            canvas@ == old(canvas)@ + terrain_layers(terrain@).take(i as int),
        decreases ROOM_AREA - i,
    {
        let col = i / size;
        let row = i % size;
        let tile = Tile { x: col as u8, y: row as u8 };
        canvas.push_layer(Layer::Sprite { tile, sprite: Sprite::Terrain(terrain[row * size + col]) });
        i += 1;
        assert(terrain_layers(terrain@).take(i as int) =~= terrain_layers(terrain@).take(
            i - 1,
        ).push(terrain_layers(terrain@)[i - 1]));
        assert(canvas@ =~= old(canvas)@ + terrain_layers(terrain@).take(i as int));
    }
    assert(terrain_layers(terrain@).take(ROOM_AREA as int) =~= terrain_layers(terrain@));
}

fn resource_kind(kind: ObjectKind) -> (r: Option<Resource>)
    ensures
        r == resource_of(kind),
{
    match kind {
        ObjectKind::Source => Some(Resource::Source),
        ObjectKind::Mineral(m) => Some(Resource::Mineral(m)),
        _ => None,
    }
}

fn structure_kind(kind: ObjectKind) -> (r: Option<Structure>)
    ensures
        r == structure_of(kind),
{
    match kind {
        ObjectKind::ConstructedWall => Some(Structure::ConstructedWall),
        ObjectKind::Controller => Some(Structure::Controller),
        ObjectKind::Extractor => Some(Structure::Extractor),
        ObjectKind::Terminal => Some(Structure::Terminal),
        _ => None,
    }
}

/// Draws the sources and mineral deposits of the room, in order.
pub fn draw_resources_from_offline_room_data(canvas: &mut Canvas, room: &RoomData)
    requires
        objects_in_room(room.objects@),
    ensures
        final(canvas)@ == old(canvas)@ + resource_layers(room.objects@),
{
    let mut j: usize = 0;
    while j < room.objects.len()
        invariant
            j <= room.objects@.len(),
            canvas@ == old(canvas)@ + resource_layers(room.objects@.take(j as int)),
        decreases room.objects@.len() - j,
    {
        let o = room.objects[j];
        assert(room.objects@.take(j as int + 1).drop_last() =~= room.objects@.take(j as int));
        if let Some(r) = resource_kind(o.kind) {
            canvas.push_layer(Layer::Sprite { tile: o.tile, sprite: Sprite::Resource(r) });
        }
        j += 1;
        assert(canvas@ =~= old(canvas)@ + resource_layers(room.objects@.take(j as int)));
    }
    assert(room.objects@.take(j as int) =~= room.objects@);
}

/// Draws the constructed walls, controllers, extractors and terminals of the
/// room, in order.
pub fn draw_structures_from_offline_room_data(canvas: &mut Canvas, room: &RoomData)
    requires
        objects_in_room(room.objects@),
    ensures
        final(canvas)@ == old(canvas)@ + structure_layers(room.objects@),
{
    let mut j: usize = 0;
    while j < room.objects.len()
        invariant
            j <= room.objects@.len(),
            canvas@ == old(canvas)@ + structure_layers(room.objects@.take(j as int)),
        decreases room.objects@.len() - j,
    {
        let o = room.objects[j];
        assert(room.objects@.take(j as int + 1).drop_last() =~= room.objects@.take(j as int));
        if let Some(s) = structure_kind(o.kind) {
            canvas.push_layer(Layer::Sprite { tile: o.tile, sprite: Sprite::Structure(s) });
        }
        j += 1;
        assert(canvas@ =~= old(canvas)@ + structure_layers(room.objects@.take(j as int)));
    }
    assert(room.objects@.take(j as int) =~= room.objects@);
}

/// The images of a room, in order: the base image of terrain, resources and
/// structures; then a copy of it with the region analysis drawn on top.
/// Drawing on the copy leaves the base image as it was.
pub fn make_images_for_room(room: &RoomData, analysis: &RegionAnalysis) -> (out: Vec<Canvas>)
    requires
        room.wf(),
        analysis.wf(),
    ensures
        out@.len() == 2,
        out@[0]@ == base_layers(room),
        out@[1]@ == base_layers(room) + analysis_layers(analysis),
{
    let mut output: Vec<Canvas> = Vec::new();
    let mut base = Canvas::new();
    draw_terrain_from_offline_terrain_data(&mut base, &room.terrain);
    draw_resources_from_offline_room_data(&mut base, room);
    draw_structures_from_offline_room_data(&mut base, room);
    assert(base@ =~= base_layers(room));

    let mut analysed = base.duplicate();
    output.push(base);
    render_region_analysis(&mut analysed, analysis);
    output.push(analysed);
    output
}

} // verus!
