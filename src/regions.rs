//! Overlay of a room's regions: one translucent color per region, the
//! height of each member tile written on it, and a marker on each border
//! tile.
use vstd::prelude::*;
use crate::canvas::{
    Canvas, Label, Layer, LayerView, TileColor, Tile, ROOM_AREA, ROOM_SIZE, all_tiles_wf, copy_tiles,
};
use crate::color::{calculate_color, wheel_color};

verus! {

/// Opacity of the region overlays.
pub const REGION_ALPHA: u8 = 128;

/// Marker written on border tiles.
pub const BORDER_GLYPH: char = 'B';

/// A partition of a room into regions, with a height for tiles and a set of
/// border tiles.
pub struct RegionAnalysis {
    /// Member tiles of each region, in the order the regions are drawn.
    pub regions: Vec<Vec<Tile>>,
    /// Height of each tile of the room, row by row; `None` where there is none.
    pub heights: Vec<Option<u8>>,
    /// Tiles on a boundary between regions or along a wall.
    pub border_tiles: Vec<Tile>,
}

/// The member tiles of each region.
pub open spec fn region_seqs(regions: Seq<Vec<Tile>>) -> Seq<Seq<Tile>> {
    regions.map_values(|v: Vec<Tile>| v@)
}

impl RegionAnalysis {
    /// A height for each tile of the room, member and border tiles inside
    /// the room, and fewer than 255 regions, so that regions and borders can
    /// be counted in a byte.
    pub open spec fn wf(&self) -> bool {
        &&& self.tiles_in_room()
        &&& self.regions@.len() < 255
    }

    /// A height for each tile of the room, and member and border tiles
    /// inside the room.
    pub open spec fn tiles_in_room(&self) -> bool {
        &&& self.heights@.len() == ROOM_AREA
        &&& forall|i: int| 0 <= i < self.regions@.len() ==> all_tiles_wf(#[trigger] self.regions@[i]@)
        &&& all_tiles_wf(self.border_tiles@)
    }
}

/// The overlay color of region `i` among `count` categories.
pub open spec fn region_tint(count: int, i: int) -> TileColor {
    let c = wheel_color(count, i);
    TileColor { r: c.0 as u8, g: c.1 as u8, b: c.2 as u8, a: REGION_ALPHA }
}

/// The height labels of `members`, in order, skipping tiles without a height.
pub open spec fn height_labels(heights: Seq<Option<u8>>, members: Seq<Tile>) -> Seq<LayerView>
    decreases members.len(),
{
    if members.len() == 0 {
        Seq::empty()
    } else {
        let rest = height_labels(heights, members.drop_last());
        let t = members.last();
        match heights[t.index()] {
            Some(h) => rest.push(LayerView::Text(t, Label::Number(h))),
            None => rest,
        }
    }
}

/// When every member tile has a height, each member in turn gets exactly one
/// label, which shows its height.
pub proof fn lemma_every_member_labelled(heights: Seq<Option<u8>>, members: Seq<Tile>)
    requires
        forall|i: int| 0 <= i < members.len() ==> heights[(#[trigger] members[i]).index()] is Some,
    ensures
        height_labels(heights, members).len() == members.len(),
        forall|i: int|
            0 <= i < members.len() ==> #[trigger] height_labels(heights, members)[i]
                == LayerView::Text(members[i], Label::Number(heights[members[i].index()]->Some_0)),
    decreases members.len(),
{
    if members.len() > 0 {
        let init = members.drop_last();
        assert forall|i: int| 0 <= i < init.len() implies heights[(#[trigger] init[i]).index()] is Some by {
            assert(init[i] == members[i]);
        }
        lemma_every_member_labelled(heights, init);
        assert(heights[members[members.len() - 1].index()] is Some);
        assert forall|i: int| 0 <= i < members.len() implies #[trigger] height_labels(heights, members)[i]
            == LayerView::Text(members[i], Label::Number(heights[members[i].index()]->Some_0)) by {
            if i < init.len() {
                assert(init[i] == members[i]);
            }
        }
    }
}

/// Region `i` among `count` categories: its overlay, then its height labels.
pub open spec fn region_layers(
    heights: Seq<Option<u8>>,
    count: int,
    i: int,
    members: Seq<Tile>,
) -> Seq<LayerView> {
    seq![LayerView::Tint(region_tint(count, i), members)] + height_labels(heights, members)
}

/// The layers of each region in turn, region `i` colored as category `i`
/// among `count`.
pub open spec fn regions_layers(
    heights: Seq<Option<u8>>,
    regions: Seq<Seq<Tile>>,
    count: int,
) -> Seq<LayerView>
    decreases regions.len(),
{
    if regions.len() == 0 {
        Seq::empty()
    } else {
        regions_layers(heights, regions.drop_last(), count) + region_layers(
            heights,
            count,
            regions.len() - 1,
            regions.last(),
        )
    }
}

/// A border marker on each of `tiles`, in order.
pub open spec fn border_marks(tiles: Seq<Tile>) -> Seq<LayerView> {
    tiles.map_values(|t: Tile| LayerView::Text(t, Label::Glyph(BORDER_GLYPH)))
}

/// Everything drawn for an analysis: the regions, colored as categories out
/// of one more than their number, then the border markers.
pub open spec fn analysis_layers(a: &RegionAnalysis) -> Seq<LayerView> {
    let regions = region_seqs(a.regions@);
    regions_layers(a.heights@, regions, regions.len() + 1 as int) + border_marks(a.border_tiles@)
}

fn draw_height_labels(canvas: &mut Canvas, heights: &Vec<Option<u8>>, members: &Vec<Tile>)
    requires
        heights@.len() == ROOM_AREA,
        all_tiles_wf(members@),
    ensures
        final(canvas)@ == old(canvas)@ + height_labels(heights@, members@),
{
    let mut j: usize = 0;
    while j < members.len()
        invariant
            j <= members@.len(),
            heights@.len() == ROOM_AREA,
            all_tiles_wf(members@),
            canvas@ == old(canvas)@ + height_labels(heights@, members@.take(j as int)),
        decreases members@.len() - j,
    {
        let t = members[j];
        assert(t.wf());
        assert(members@.take(j as int + 1).drop_last() =~= members@.take(j as int));
        let k = (t.y as usize) * (ROOM_SIZE as usize) + (t.x as usize);
        if let Some(h) = heights[k] {
            canvas.push_layer(Layer::Text { tile: t, label: Label::Number(h) });
        }
        j += 1;
        assert(canvas@ =~= old(canvas)@ + height_labels(heights@, members@.take(j as int)));
    }
    assert(members@.take(members@.len() as int) =~= members@);
}

fn tiles_in_room_exec(v: &Vec<Tile>) -> (r: bool)
    ensures
        r == all_tiles_wf(v@),
{
    let mut j: usize = 0;
    while j < v.len()
        invariant
            j <= v@.len(),
            forall|k: int| 0 <= k < j ==> (#[trigger] v@[k]).wf(),
        decreases v@.len() - j,
    {
        if v[j].x >= ROOM_SIZE || v[j].y >= ROOM_SIZE {
            return false;
        }
        j += 1;
    }
    true
}

/// Keeps an analysis that can be drawn: a height entry for each tile of the
/// room, member and border tiles inside the room, and fewer than 255 regions,
/// few enough to color in a byte together with the borders. `None` for any
/// other analysis.
pub fn limit_regions(a: RegionAnalysis) -> (r: Option<RegionAnalysis>)
    ensures
        r is None <==> !a.wf(),
        r matches Some(b) ==> b == a,
{
    if a.heights.len() != ROOM_AREA || a.regions.len() >= 255 || !tiles_in_room_exec(&a.border_tiles) {
        return None;
    }
    let mut i: usize = 0;
    while i < a.regions.len()
        invariant
            i <= a.regions@.len(),
            forall|k: int| 0 <= k < i ==> all_tiles_wf(#[trigger] a.regions@[k]@),
        decreases a.regions@.len() - i,
    {
        if !tiles_in_room_exec(&a.regions[i]) {
            return None;
        }
        i += 1;
    }
    Some(a)
}

/// Draws a region analysis over the canvas. Each region in turn gets one
/// translucent overlay in its own color, colors spread over one category
/// more than there are regions, followed by the height of each of its
/// member tiles that has one. Border markers come after all regions.
pub fn render_region_analysis(canvas: &mut Canvas, analysis: &RegionAnalysis)
    requires
        analysis.wf(),
    ensures
        final(canvas)@ == old(canvas)@ + analysis_layers(analysis),
{
    let ghost regions = region_seqs(analysis.regions@);
    let count: u8 = analysis.regions.len() as u8 + 1;
    let mut i: usize = 0;
    while i < analysis.regions.len()
        invariant
            i <= analysis.regions@.len(),
            analysis.wf(),
            regions == region_seqs(analysis.regions@),
            count == analysis.regions@.len() + 1,
            canvas@ == old(canvas)@ + regions_layers(
                analysis.heights@,
                regions.take(i as int),
                count as int,
            ),
        decreases analysis.regions@.len() - i,
    {
        let members = &analysis.regions[i];
        assert(all_tiles_wf(analysis.regions@[i as int]@));
        let rgb = calculate_color(count, i as u8);
        let ghost before = canvas@;
        canvas.push_layer(
            Layer::Tint {
                color: TileColor { r: rgb.0, g: rgb.1, b: rgb.2, a: REGION_ALPHA },
                tiles: copy_tiles(members),
            },
        );
        draw_height_labels(canvas, &analysis.heights, members);
        proof {
            let next = regions.take(i as int + 1);
            assert(next.drop_last() =~= regions.take(i as int));
            assert(next.last() == members@);
            assert(TileColor { r: rgb.0, g: rgb.1, b: rgb.2, a: REGION_ALPHA } == region_tint(
                count as int,
                i as int,
            ));
            assert(canvas@ =~= before + region_layers(
                analysis.heights@,
                count as int,
                i as int,
                members@,
            ));
        }
        i += 1;
        assert(canvas@ =~= old(canvas)@ + regions_layers(
            analysis.heights@,
            regions.take(i as int),
            count as int,
        ));
    }
    assert(regions.take(regions.len() as int) =~= regions);
    let ghost mid = canvas@;
    let mut j: usize = 0;
    while j < analysis.border_tiles.len()
        invariant
            j <= analysis.border_tiles@.len(),
            canvas@ == mid + border_marks(analysis.border_tiles@.take(j as int)),
        decreases analysis.border_tiles@.len() - j,
    {
        canvas.push_layer(
            Layer::Text { tile: analysis.border_tiles[j], label: Label::Glyph(BORDER_GLYPH) },
        );
        j += 1;
        assert(canvas@ =~= mid + border_marks(analysis.border_tiles@.take(j as int)));
    }
    assert(analysis.border_tiles@.take(j as int) =~= analysis.border_tiles@);
    assert(final(canvas)@ =~= old(canvas)@ + analysis_layers(analysis));
}

} // verus!
