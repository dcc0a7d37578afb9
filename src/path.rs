//! Overlay of a path: its start, its middle tiles and its end, each in a
//! color of its own.
use vstd::prelude::*;
use crate::canvas::{Canvas, Layer, LayerView, TileColor, Tile, all_tiles_wf, tinted_tiles};

verus! {

/// Opacity of the path overlays.
pub const PATH_ALPHA: u8 = 125;

/// Color of the first tile of a path.
pub open spec fn start_tint() -> TileColor {
    TileColor { r: 255, g: 0, b: 0, a: PATH_ALPHA }
}

/// Color of the tiles strictly between the first and the last.
pub open spec fn middle_tint() -> TileColor {
    TileColor { r: 0, g: 0, b: 255, a: PATH_ALPHA }
}

/// Color of the last tile of a path.
pub open spec fn end_tint() -> TileColor {
    TileColor { r: 0, g: 255, b: 0, a: PATH_ALPHA }
}

/// The tiles strictly between the first and the last: none for a path of
/// one or two tiles.
pub open spec fn middle_of(path: Seq<Tile>) -> Seq<Tile> {
    if path.len() <= 2 {
        Seq::empty()
    } else {
        path.subrange(1, path.len() - 1)
    }
}

/// The layers that draw a non-empty path: its start, then its middle tiles
/// as one overlay, then its end.
pub open spec fn path_layers(path: Seq<Tile>) -> Seq<LayerView> {
    seq![
        LayerView::Tint(start_tint(), seq![path[0]]),
        LayerView::Tint(middle_tint(), middle_of(path)),
        LayerView::Tint(end_tint(), seq![path.last()]),
    ]
}

/// Draws `path` over the canvas: the first tile in red, the tiles strictly
/// between the first and the last in blue as one overlay, the last tile in
/// green, all translucent. The path must have a tile, and all its tiles
/// must lie inside the room.
pub fn render_roomxy_path(canvas: &mut Canvas, path: &Vec<Tile>)
    requires
        path@.len() >= 1,
        all_tiles_wf(path@),
    ensures
        final(canvas)@ == old(canvas)@ + path_layers(path@),
{
    let end_index = path.len() - 1;
    let start_xy = path[0];
    let end_xy = path[end_index];

    let mut middle: Vec<Tile> = Vec::new();
    if end_index > 1 {
        let mut i: usize = 1;
        while i < end_index
            invariant
                1 <= i <= end_index,
                end_index == path@.len() - 1,
                middle@ == path@.subrange(1, i as int),
            decreases end_index - i,
        {
            middle.push(path[i]);
            i += 1;
            assert(middle@ =~= path@.subrange(1, i as int));
        }
    }
    assert(middle@ =~= middle_of(path@));

    let mut start_tiles: Vec<Tile> = Vec::new();
    start_tiles.push(start_xy);
    let mut end_tiles: Vec<Tile> = Vec::new();
    end_tiles.push(end_xy);

    canvas.push_layer(
        Layer::Tint { color: TileColor { r: 255, g: 0, b: 0, a: PATH_ALPHA }, tiles: start_tiles },
    );
    canvas.push_layer(
        Layer::Tint { color: TileColor { r: 0, g: 0, b: 255, a: PATH_ALPHA }, tiles: middle },
    );
    canvas.push_layer(
        Layer::Tint { color: TileColor { r: 0, g: 255, b: 0, a: PATH_ALPHA }, tiles: end_tiles },
    );
    assert(final(canvas)@ =~= old(canvas)@ + path_layers(path@));
}

/// A path of one tile highlights that tile alone: its start and its end are
/// the same tile, and its middle overlay covers nothing.
pub proof fn lemma_single_tile_path(path: Seq<Tile>)
    requires
        path.len() == 1,
    ensures
        middle_of(path).len() == 0,
        tinted_tiles(path_layers(path)) == set![path[0]],
{
    let layers = path_layers(path);
    let one = seq![path[0]];
    assert(one[0] == path[0]);
    assert(one.to_set() =~= set![path[0]]) by {
        assert forall|t: Tile| one.contains(t) <==> t == path[0] by {
            if t == path[0] {
                assert(one[0] == t);
            }
        }
    }
    assert(path.last() == path[0]);
    assert(middle_of(path).to_set() =~= Set::<Tile>::empty());
    let l1 = layers.drop_last().drop_last();
    let l2 = layers.drop_last();
    assert(l1.drop_last() =~= Seq::<LayerView>::empty());
    assert(l2.drop_last() =~= l1);
    assert(tinted_tiles(l1.drop_last()) == Set::<Tile>::empty());
    assert(tinted_tiles(l1) =~= set![path[0]]);
    assert(tinted_tiles(l2) =~= set![path[0]]);
    assert(tinted_tiles(layers) =~= set![path[0]]);
}

} // verus!
