//! Materializing a map description into its runtime hierarchy.
//!
//! Normalization of the source conventions lives here: the source counts
//! rows downward from the top edge while the target counts them upward,
//! so a row is flipped around the grid's horizontal midline; the first
//! layer is the frontmost, so a layer's depth offset falls by a fixed
//! step per index; a tile's textual identifier selects its texture
//! index, degrading to 0. A materialization pass walks layers and tiles
//! in source order and emits one record per tile that lands on the
//! declared grid; a tile outside the grid is dropped, since the source
//! format leaves such tiles undefined. Each layer's records are also
//! indexed by a grid-keyed storage in which the record emitted last for
//! a cell wins.

use vstd::prelude::*;

use crate::types::texture_index_of;
use crate::types::AttrModel;
use crate::types::AttrValue;
use crate::types::Collider;
use crate::types::LayerModel;
use crate::types::MapModel;
use crate::types::SpriteFusionLayerMarker;
use crate::types::SpriteFusionMap;
use crate::types::SpriteFusionMapMarker;
use crate::types::TileAttributes;
use crate::types::TileModel;
use crate::types::attrs_model;

verus! {

/// A resolved position on the target grid, in tile coordinates with the
/// row counted upward from the bottom edge.
#[derive(Debug, Clone, Copy, PartialEq, Eq, Structural)]
pub struct TilePos {
    /// Column.
    pub x: u32,
    /// Row, counted upward.
    pub y: u32,
}

/// The resolved row of a source tile: the source origin is the top-left
/// corner with rows growing downward, so a row is flipped around the
/// grid's horizontal midline.
pub open spec fn flipped_y(height: u32, y: int) -> int {
    height - 1 - y
}

/// Resolve a source row against the grid height.
pub fn flip_y(height: u32, y: u32) -> (r: u32)
    requires
        y < height,
    ensures
        r == flipped_y(height, y as int),
{
    height - 1 - y
}

/// Flipping a row in range lands in range, and flipping it again gives
/// the row back: the flip is an involution on the rows of a grid of
/// fixed height.
pub proof fn lemma_flip_involution(height: u32, y: int)
    requires
        0 <= y < height,
    ensures
        0 <= flipped_y(height, y) < height,
        flipped_y(height, flipped_y(height, y)) == y,
{
}

/// A layer's depth offset, in tenths of a world unit: the layer at
/// source index `i` sits `i` tenths behind the map's base placement, so
/// that the first layer is drawn frontmost with a fixed gap per index.
pub open spec fn depth_offset_tenths_of(index: int) -> int {
    -index
}

/// The depth offset of the layer at the given source index, in tenths
/// of a world unit.
pub fn depth_offset_tenths(index: usize) -> (r: i64)
    requires
        index <= i64::MAX,
    ensures
        r == depth_offset_tenths_of(index as int),
{
    -(index as i64)
}

/// Depth ordering is strictly monotone: the frontmost layer sits at
/// offset 0 and every later layer sits strictly further back.
pub proof fn lemma_depth_monotonic(i: int, j: int)
    requires
        0 <= i < j,
    ensures
        depth_offset_tenths_of(0) == 0,
        depth_offset_tenths_of(j) < depth_offset_tenths_of(i),
        depth_offset_tenths_of(i) <= 0,
{
}

/// Grid-indexed sparse storage for one layer, sized to the map's
/// declared extent: each cell holds the index of the record placed there
/// last, if any.
#[derive(Debug)]
pub struct TileGrid {
    width: u32,
    height: u32,
    slots: Vec<Option<usize>>,
}

impl TileGrid {
    /// The storage holds one slot per cell of the declared extent.
    pub closed spec fn wf(self) -> bool {
        self.slots@.len() == self.width * self.height
    }

    /// The declared width, in tiles.
    pub closed spec fn spec_width(self) -> u32 {
        self.width
    }

    /// The declared height, in tiles.
    pub closed spec fn spec_height(self) -> u32 {
        self.height
    }

    /// What the cell at a position holds.
    pub closed spec fn spec_at(self, x: int, y: int) -> Option<usize> {
        self.slots@[y * self.width + x]
    }

    /// An empty storage sized to the given extent.
    pub fn empty(width: u32, height: u32) -> (g: TileGrid)
        requires
            width * height <= usize::MAX,
        ensures
            g.wf(),
            g.spec_width() == width,
            g.spec_height() == height,
            forall|x: int, y: int|
                0 <= x < width && 0 <= y < height ==> #[trigger] g.spec_at(x, y) is None,
    {
        let n: usize = (width as usize) * (height as usize);
        let mut slots: Vec<Option<usize>> = Vec::new();
        while slots.len() < n
            invariant
                slots@.len() <= n,
                forall|j: int| 0 <= j < slots@.len() ==> #[trigger] slots@[j] is None,
            decreases n - slots@.len(),
        {
            slots.push(None);
        }
        let g = TileGrid { width, height, slots };
        proof {
            assert forall|x: int, y: int|
                0 <= x < width && 0 <= y < height implies #[trigger] g.spec_at(x, y) is None by {
                lemma_cell_index_in_range(width as int, height as int, x, y);
            }
        }
        g
    }

    /// Record the index of the record placed at a cell, overwriting any
    /// earlier one: the last insertion at a cell wins.
    pub fn set(&mut self, pos: TilePos, idx: usize)
        requires
            old(self).wf(),
            pos.x < old(self).spec_width(),
            pos.y < old(self).spec_height(),
        ensures
            final(self).wf(),
            final(self).spec_width() == old(self).spec_width(),
            final(self).spec_height() == old(self).spec_height(),
            final(self).spec_at(pos.x as int, pos.y as int) == Some(idx),
            forall|x: int, y: int|
                0 <= x < final(self).spec_width() && 0 <= y < final(self).spec_height() && !(x
                    == pos.x && y == pos.y) ==> #[trigger] final(self).spec_at(x, y) == old(
                    self,
                ).spec_at(x, y),
    {
        proof {
            lemma_cell_index_in_range(
                self.width as int,
                self.height as int,
                pos.x as int,
                pos.y as int,
            );
        }
        let _n: usize = self.slots.len();
        let i: usize = (pos.y as usize) * (self.width as usize) + (pos.x as usize);
        self.slots[i] = Some(idx);
        proof {
            assert forall|x: int, y: int|
                0 <= x < self.spec_width() && 0 <= y < self.spec_height() && !(x == pos.x && y
                    == pos.y) implies #[trigger] self.spec_at(x, y) == old(self).spec_at(x, y) by {
                lemma_cell_index_in_range(self.width as int, self.height as int, x, y);
                lemma_cell_index_injective(
                    self.width as int,
                    x,
                    y,
                    pos.x as int,
                    pos.y as int,
                );
            }
        }
    }

    /// What the cell at a position holds: the index of the record placed
    /// there last, if any.
    pub fn get(&self, pos: TilePos) -> (r: Option<usize>)
        requires
            self.wf(),
            pos.x < self.spec_width(),
            pos.y < self.spec_height(),
        ensures
            r == self.spec_at(pos.x as int, pos.y as int),
    {
        proof {
            lemma_cell_index_in_range(
                self.width as int,
                self.height as int,
                pos.x as int,
                pos.y as int,
            );
        }
        let _n: usize = self.slots.len();
        let i: usize = (pos.y as usize) * (self.width as usize) + (pos.x as usize);
        self.slots[i]
    }
}

/// One emitted tile record: a resolved grid position, a texture index,
/// an optional collision tag copied from the owning layer, and an
/// optional attribute payload copied from the source tile.
#[derive(Debug)]
pub struct TileInstance {
    /// The resolved grid position.
    pub position: TilePos,
    /// The texture index the tile's identifier selects.
    pub texture_index: u32,
    /// The collision tag, present exactly when the owning layer is a
    /// collider layer.
    pub collider: Option<Collider>,
    /// The attribute payload, present exactly when the source tile
    /// carries a nonempty one.
    pub attributes: Option<TileAttributes>,
}

/// The mathematical value of a [`TileInstance`].
pub struct TileInstModel {
    /// The resolved grid position.
    pub position: TilePos,
    /// The texture index.
    pub texture_index: u32,
    /// Whether the record carries the collision tag.
    pub collider: bool,
    /// The attribute dictionary, when the record carries one.
    pub attributes: Option<Map<Seq<char>, AttrModel>>,
}

impl View for TileInstance {
    type V = TileInstModel;

    open spec fn view(&self) -> TileInstModel {
        TileInstModel {
            position: self.position,
            texture_index: self.texture_index,
            collider: self.collider is Some,
            attributes: match self.attributes {
                Some(a) => Some(a@),
                None => None,
            },
        }
    }
}

/// One materialized layer: its marker, its depth offset, its emitted
/// tile records in emission order, and the grid-indexed storage over
/// them.
#[derive(Debug)]
pub struct LayerInstance {
    /// The layer marker: name, source index, collision flag.
    pub marker: SpriteFusionLayerMarker,
    /// The layer's depth offset, in tenths of a world unit.
    pub depth_tenths: i64,
    /// The emitted tile records, in emission order.
    pub tiles: Vec<TileInstance>,
    /// Grid-indexed storage: each cell holds the index into `tiles` of
    /// the record placed there last.
    pub storage: TileGrid,
}

/// A materialized map: its marker holding the copy of the description,
/// and one layer instance per source layer, in source order.
#[derive(Debug)]
pub struct MapInstance {
    /// The map marker, holding the copy of the description.
    pub marker: SpriteFusionMapMarker,
    /// The layer instances, in source order.
    pub layers: Vec<LayerInstance>,
}

/// Whether a source tile lands on the declared grid. A tile outside it
/// is dropped by materialization: the source format does not define
/// such tiles.
pub open spec fn tile_in_bounds(t: TileModel, width: u32, height: u32) -> bool {
    0 <= t.x < width && 0 <= t.y < height
}

/// Whether a source tile carries a nonempty attribute payload.
pub open spec fn tile_has_attrs(t: TileModel) -> bool {
    match t.attributes {
        Some(am) => am != Map::<Seq<char>, AttrModel>::empty(),
        None => false,
    }
}

/// The record emitted for one in-bounds source tile of a layer: the row
/// flipped, the texture index read off the identifier, the collision
/// tag present exactly on a collider layer, the attribute payload
/// copied exactly when present and nonempty.
pub open spec fn instance_of(t: TileModel, height: u32, collider: bool) -> TileInstModel {
    TileInstModel {
        position: (TilePos { x: t.x as u32, y: flipped_y(height, t.y as int) as u32 }),
        texture_index: texture_index_of(t.id),
        collider: collider,
        attributes: if tile_has_attrs(t) {
            Some(t.attributes->Some_0)
        } else {
            None
        },
    }
}

/// The records a layer's tiles emit, in source order: one per in-bounds
/// tile.
pub open spec fn emitted_tiles(ts: Seq<TileModel>, width: u32, height: u32, collider: bool) -> Seq<
    TileInstModel,
>
    decreases ts.len(),
{
    if ts.len() == 0 {
        Seq::empty()
    } else {
        let prefix = emitted_tiles(ts.drop_last(), width, height, collider);
        if tile_in_bounds(ts.last(), width, height) {
            prefix.push(instance_of(ts.last(), height, collider))
        } else {
            prefix
        }
    }
}

/// Whether the grid-indexed storage agrees with a sequence of emitted
/// records: each cell holds the index of the last record at that cell,
/// and holds nothing where no record lies.
pub open spec fn grid_matches(g: TileGrid, tiles: Seq<TileInstModel>, width: u32, height: u32) -> bool {
    &&& g.wf()
    &&& g.spec_width() == width
    &&& g.spec_height() == height
    &&& forall|x: int, y: int|
        0 <= x < width && 0 <= y < height ==> match #[trigger] g.spec_at(x, y) {
            Some(j) => 0 <= j < tiles.len() && tiles[j as int].position == (TilePos {
                x: x as u32,
                y: y as u32,
            }) && (forall|k: int|
                j < k < tiles.len() ==> (#[trigger] tiles[k]).position != (TilePos {
                    x: x as u32,
                    y: y as u32,
                })),
            None => forall|k: int|
                0 <= k < tiles.len() ==> (#[trigger] tiles[k]).position != (TilePos {
                    x: x as u32,
                    y: y as u32,
                }),
        }
}

/// How one materialized layer reads off the map description: the marker
/// carries the layer's name, source index and collision flag, the depth
/// offset falls one tenth per index, the records are exactly those of
/// the layer's in-bounds tiles in source order, and the storage indexes
/// them with the last record at a cell winning.
pub open spec fn layer_instance_matches(m: MapModel, index: int, li: LayerInstance) -> bool {
    let lm = m.layers[index];
    &&& li.marker.name@ == lm.name
    &&& li.marker.index == index
    &&& li.marker.collider == lm.collider
    &&& li.depth_tenths == depth_offset_tenths_of(index)
    &&& li.tiles@.map_values(|t: TileInstance| t@) == emitted_tiles(
        lm.tiles,
        m.map_width,
        m.map_height,
        lm.collider,
    )
    &&& grid_matches(
        li.storage,
        li.tiles@.map_values(|t: TileInstance| t@),
        m.map_width,
        m.map_height,
    )
}

/// An attribute list denotes the empty dictionary exactly when it has
/// no entries.
proof fn lemma_attrs_model_empty(s: Seq<(String, AttrValue)>)
    ensures
        (s.len() == 0) == (attrs_model(s) == Map::<Seq<char>, AttrModel>::empty()),
{
    if s.len() == 0 {
    } else {
        assert(attrs_model(s).contains_key(s.last().0@));
        assert(!Map::<Seq<char>, AttrModel>::empty().contains_key(s.last().0@));
    }
}

/// Materialize a decoded map description into its runtime hierarchy:
/// one layer instance per source layer in source order, each holding
/// one record per in-bounds tile in source order, with the row flipped,
/// the texture index read off the identifier, the collision tag copied
/// from the layer and the attribute payload copied when present and
/// nonempty; each layer's storage indexes its records by cell with the
/// last record winning, and its depth offset falls one tenth of a world
/// unit per index. The marker keeps a copy of the description. The two
/// bounds asked of the caller are machine limits: the grid's cell count
/// must be addressable and the layer count must fit the depth
/// arithmetic.
#[verifier::loop_isolation(false)]
pub fn materialize(map: &SpriteFusionMap) -> (r: MapInstance)
    requires
        (map.map_width as int) * (map.map_height as int) <= usize::MAX,
        map.layers@.len() <= i64::MAX,
    ensures
        r.marker.map@ == map@,
        r.layers@.len() == map@.layers.len(),
        forall|i: int|
            0 <= i < map@.layers.len() ==> layer_instance_matches(
                map@,
                i,
                #[trigger] r.layers@[i],
            ),
{
    let mut layers: Vec<LayerInstance> = Vec::new();
    let mut li: usize = 0;
    while li < map.layers.len()
        invariant
            li <= map.layers@.len(),
            layers@.len() == li,
            forall|i: int|
                0 <= i < li ==> layer_instance_matches(map@, i, #[trigger] layers@[i]),
        decreases map.layers@.len() - li,
    {
        let layer = &map.layers[li];
        proof {
            assert(map@.layers[li as int] == layer@);
        }
        let mut tiles: Vec<TileInstance> = Vec::new();
        let mut storage = TileGrid::empty(map.map_width, map.map_height);
        let mut ti: usize = 0;
        proof {
            assert(layer@.tiles.take(0) =~= Seq::<TileModel>::empty());
            assert(tiles@.map_values(|t: TileInstance| t@) =~= Seq::<TileInstModel>::empty());
        }
        while ti < layer.tiles.len()
            invariant
                ti <= layer.tiles@.len(),
                tiles@.map_values(|t: TileInstance| t@) == emitted_tiles(
                    layer@.tiles.take(ti as int),
                    map.map_width,
                    map.map_height,
                    layer.collider,
                ),
                grid_matches(
                    storage,
                    tiles@.map_values(|t: TileInstance| t@),
                    map.map_width,
                    map.map_height,
                ),
            decreases layer.tiles@.len() - ti,
        {
            let ghost emitted_prev = tiles@.map_values(|t: TileInstance| t@);
            proof {
                assert(layer@.tiles.take(ti + 1).drop_last() =~= layer@.tiles.take(ti as int));
                assert(layer@.tiles.take(ti + 1).last() == layer@.tiles[ti as int]);
                assert(layer@.tiles[ti as int] == layer.tiles@[ti as int]@);
            }
            let t = &layer.tiles[ti];
            if t.x >= 0 && (t.x as u32) < map.map_width && t.y >= 0 && (t.y as u32)
                < map.map_height {
                let pos = TilePos { x: t.x as u32, y: flip_y(map.map_height, t.y as u32) };
                let texture_index = t.tile_id();
                let collider: Option<Collider> = if layer.collider {
                    Some(Collider)
                } else {
                    None
                };
                let attributes: Option<TileAttributes> = match &t.attributes {
                    Some(a) => {
                        proof {
                            lemma_attrs_model_empty(a.0@);
                        }
                        if a.0.len() > 0 {
                            Some(a.clone())
                        } else {
                            None
                        }
                    },
                    None => None,
                };
                let idx = tiles.len();
                let inst = TileInstance { position: pos, texture_index, collider, attributes };
                proof {
                    assert(inst@ == instance_of(
                        layer@.tiles[ti as int],
                        map.map_height,
                        layer.collider,
                    ));
                }
                tiles.push(inst);
                proof {
                    assert(tiles@.map_values(|t: TileInstance| t@) =~= emitted_prev.push(inst@));
                }
                let ghost grid_prev = storage;
                storage.set(pos, idx);
                proof {
                    let emitted_new = tiles@.map_values(|t: TileInstance| t@);
                    assert forall|x: int, y: int|
                        0 <= x < map.map_width && 0 <= y < map.map_height implies match #[trigger] storage.spec_at(
                        x,
                        y,
                    ) {
                        Some(j) => 0 <= j < emitted_new.len() && emitted_new[j as int].position
                            == (TilePos { x: x as u32, y: y as u32 }) && (forall|k: int|
                            j < k < emitted_new.len() ==> (#[trigger] emitted_new[k]).position
                                != (TilePos { x: x as u32, y: y as u32 })),
                        None => forall|k: int|
                            0 <= k < emitted_new.len() ==> (#[trigger] emitted_new[k]).position
                                != (TilePos { x: x as u32, y: y as u32 }),
                    } by {
                        if x == pos.x as int && y == pos.y as int {
                            assert(storage.spec_at(x, y) == Some(idx));
                            assert(emitted_new[idx as int].position == pos);
                        } else {
                            assert(storage.spec_at(x, y) == grid_prev.spec_at(x, y));
                            assert(emitted_new[emitted_prev.len() as int].position == pos);
                            assert((TilePos { x: x as u32, y: y as u32 }) != pos);
                        }
                    }
                }
            } else {
                proof {
                    assert(!tile_in_bounds(
                        layer@.tiles[ti as int],
                        map.map_width,
                        map.map_height,
                    ));
                }
            }
            ti = ti + 1;
        }
        proof {
            assert(layer@.tiles.take(layer.tiles@.len() as int) =~= layer@.tiles);
        }
        let marker = SpriteFusionLayerMarker {
            name: layer.name.clone(),
            index: li,
            collider: layer.collider,
        };
        let depth_tenths = depth_offset_tenths(li);
        let layer_inst = LayerInstance { marker, depth_tenths, tiles, storage };
        proof {
            assert(layer_instance_matches(map@, li as int, layer_inst));
        }
        layers.push(layer_inst);
        li = li + 1;
    }
    let marker = SpriteFusionMapMarker { map: map.clone() };
    MapInstance { marker, layers }
}

/// The number of tiles a map description declares, over all layers.
pub open spec fn total_tile_count(layers: Seq<LayerModel>) -> int
    decreases layers.len(),
{
    if layers.len() == 0 {
        0
    } else {
        total_tile_count(layers.drop_last()) + layers.last().tiles.len()
    }
}

/// How many tiles of a layer's tile list carry a nonempty attribute
/// payload.
pub open spec fn attr_tile_count_in(ts: Seq<TileModel>) -> int
    decreases ts.len(),
{
    if ts.len() == 0 {
        0
    } else {
        attr_tile_count_in(ts.drop_last()) + if tile_has_attrs(ts.last()) {
            1int
        } else {
            0int
        }
    }
}

/// How many tiles of a map description carry a nonempty attribute
/// payload.
pub open spec fn attr_tile_count(layers: Seq<LayerModel>) -> int
    decreases layers.len(),
{
    if layers.len() == 0 {
        0
    } else {
        attr_tile_count(layers.drop_last()) + attr_tile_count_in(layers.last().tiles)
    }
}

proof fn lemma_attr_in_le(ts: Seq<TileModel>)
    ensures
        0 <= attr_tile_count_in(ts) <= ts.len(),
    decreases ts.len(),
{
    if ts.len() > 0 {
        lemma_attr_in_le(ts.drop_last());
    }
}

proof fn lemma_attr_le_total(ls: Seq<LayerModel>)
    ensures
        0 <= attr_tile_count(ls) <= total_tile_count(ls),
    decreases ls.len(),
{
    if ls.len() > 0 {
        lemma_attr_le_total(ls.drop_last());
        lemma_attr_in_le(ls.last().tiles);
    }
}

proof fn lemma_total_prefix_le(ls: Seq<LayerModel>, k: int)
    requires
        0 <= k <= ls.len(),
    ensures
        total_tile_count(ls.take(k)) <= total_tile_count(ls),
    decreases ls.len() - k,
{
    if k < ls.len() {
        assert(ls.take(k + 1).drop_last() =~= ls.take(k));
        assert(ls.take(k + 1).last() == ls[k]);
        lemma_total_prefix_le(ls, k + 1);
    } else {
        assert(ls.take(k) =~= ls);
    }
}

/// The diagnostic summary of a map description: how many layers it
/// declares, how many tiles in all, and how many of those carry a
/// nonempty attribute payload. The bound asked of the caller is a
/// machine limit: the counts are returned in machine words.
#[verifier::loop_isolation(false)]
pub fn summary_counts(map: &SpriteFusionMap) -> (r: (usize, usize, usize))
    requires
        total_tile_count(map@.layers) <= usize::MAX,
    ensures
        r.0 == map@.layers.len(),
        r.1 == total_tile_count(map@.layers),
        r.2 == attr_tile_count(map@.layers),
{
    let mut total: usize = 0;
    let mut with_attrs: usize = 0;
    let mut li: usize = 0;
    proof {
        assert(map@.layers.take(0) =~= Seq::<LayerModel>::empty());
    }
    while li < map.layers.len()
        invariant
            li <= map.layers@.len(),
            total == total_tile_count(map@.layers.take(li as int)),
            with_attrs == attr_tile_count(map@.layers.take(li as int)),
        decreases map.layers@.len() - li,
    {
        proof {
            assert(map@.layers.take(li + 1).drop_last() =~= map@.layers.take(li as int));
            assert(map@.layers.take(li + 1).last() == map@.layers[li as int]);
            lemma_total_prefix_le(map@.layers, li + 1);
            lemma_attr_le_total(map@.layers.take(li + 1));
        }
        let layer = &map.layers[li];
        proof {
            assert(map@.layers[li as int] == layer@);
        }
        total = total + layer.tiles.len();
        let mut cnt: usize = 0;
        let mut ti: usize = 0;
        proof {
            assert(layer@.tiles.take(0) =~= Seq::<TileModel>::empty());
        }
        while ti < layer.tiles.len()
            invariant
                ti <= layer.tiles@.len(),
                cnt <= ti,
                cnt == attr_tile_count_in(layer@.tiles.take(ti as int)),
            decreases layer.tiles@.len() - ti,
        {
            proof {
                assert(layer@.tiles.take(ti + 1).drop_last() =~= layer@.tiles.take(ti as int));
                assert(layer@.tiles.take(ti + 1).last() == layer@.tiles[ti as int]);
                assert(layer@.tiles[ti as int] == layer.tiles@[ti as int]@);
            }
            let t = &layer.tiles[ti];
            let has: bool = match &t.attributes {
                Some(a) => {
                    proof {
                        lemma_attrs_model_empty(a.0@);
                    }
                    a.0.len() > 0
                },
                None => false,
            };
            if has {
                cnt = cnt + 1;
            }
            ti = ti + 1;
        }
        proof {
            assert(layer@.tiles.take(layer.tiles@.len() as int) =~= layer@.tiles);
        }
        with_attrs = with_attrs + cnt;
        li = li + 1;
    }
    proof {
        assert(map@.layers.take(map.layers@.len() as int) =~= map@.layers);
    }
    (map.layers.len(), total, with_attrs)
}

/// A cell's slot index lies inside a grid of the given extent.
proof fn lemma_cell_index_in_range(w: int, h: int, x: int, y: int)
    requires
        0 <= x < w,
        0 <= y < h,
    ensures
        0 <= y * w + x < w * h,
{
    assert(0 <= y * w + x < w * h) by (nonlinear_arith)
        requires
            0 <= x < w,
            0 <= y < h,
    ;
}

/// Distinct cells have distinct slot indices.
proof fn lemma_cell_index_injective(w: int, x1: int, y1: int, x2: int, y2: int)
    requires
        0 <= x1 < w,
        0 <= x2 < w,
        0 <= y1,
        0 <= y2,
        !(x1 == x2 && y1 == y2),
    ensures
        y1 * w + x1 != y2 * w + x2,
{
    assert(y1 * w + x1 != y2 * w + x2) by (nonlinear_arith)
        requires
            0 <= x1 < w,
            0 <= x2 < w,
            0 <= y1,
            0 <= y2,
            !(x1 == x2 && y1 == y2),
    ;
}

} // verus!
