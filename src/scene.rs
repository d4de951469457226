//! What the renderer derives from a simulation snapshot: decorative instances
//! from the free-form tile data, the model of each visible tile, the per-frame
//! tint overlay, in-flight item transfers and expired take-item animations.
use vstd::prelude::*;
use crate::animation::has_key;
use crate::batch::MeshTable;

verus! {

/// An axial hex-grid coordinate.
#[derive(Clone, Copy, Debug, PartialEq, Eq, Structural, Hash)]
pub struct TileCoord {
    pub q: i32,
    pub r: i32,
}

/// The rectangle of axial coordinates currently visible.
#[derive(Clone, Copy, Debug, PartialEq, Eq, Structural)]
pub struct CullingRange {
    pub min: TileCoord,
    pub max: TileCoord,
}

/// What the renderer reads from a tile's free-form data.
#[derive(Clone, Copy, Debug, PartialEq, Eq, Structural)]
pub struct TileData {
    /// The tile this one is linked to.
    pub link: Option<TileCoord>,
    /// The item the tile holds.
    pub item: Option<u64>,
    /// The direction the tile faces, relative to it.
    pub direction: Option<TileCoord>,
}

/// A decorative instance derived from the tile data.
#[derive(Clone, Copy, Debug, PartialEq, Eq, Structural)]
pub enum Decoration {
    /// A line from a tile to the tile it links to.
    Link { from: TileCoord, to: TileCoord },
    /// The icon of the item a tile holds.
    ItemIcon { at: TileCoord, item: u64 },
    /// An arrow on a visible tile of type `tile`, toward its facing, in the
    /// type's direction colour (sRGB, 0xRRGGBBAA).
    Arrow { at: TileCoord, tile: u64, toward: TileCoord, color: u32 },
}

/// A tile type: its model, the model shown while it faces nowhere, and the
/// colour of its direction arrow (sRGB, 0xRRGGBBAA), if it sets one.
#[derive(Clone, Copy, Debug, PartialEq, Eq, Structural)]
pub struct TileDef {
    pub id: u64,
    pub model: u64,
    pub inactive_model: Option<u64>,
    pub direction_color: Option<u32>,
}

/// Colour of a direction arrow whose tile type sets none: orange.
pub const DEFAULT_DIRECTION_COLOR: u32 = 0xFFA500FF;

/// The model a visible tile is drawn with, and its facing when it has one.
#[derive(Clone, Copy, Debug, PartialEq, Eq, Structural)]
pub struct UnitModel {
    pub model: u64,
    pub facing: Option<TileCoord>,
}

/// A recorded item transfer between two tiles, started at `start` (ns).
#[derive(Clone, Copy, Debug, PartialEq, Eq, Structural)]
pub struct TransactionRecord {
    pub source: TileCoord,
    pub destination: TileCoord,
    pub start: u64,
    pub item: u64,
}

/// Where a transfer's item is drawn: record index, the item, and position in
/// thousandths of an axial step (world position is linear in axial
/// coordinates).
#[derive(Clone, Copy, Debug, PartialEq, Eq, Structural)]
pub struct TransferPoint {
    pub record: usize,
    pub item: u64,
    pub q_milli: i64,
    pub r_milli: i64,
}

/// Per-frame tint overrides by coordinate; the newest entry for a coordinate
/// wins.
pub struct TintOverlay<C> {
    pub entries: Vec<(TileCoord, C)>,
}

/// The value of the first entry for `key`.
pub open spec fn lookup_coord<V>(entries: Seq<(TileCoord, V)>, key: TileCoord) -> Option<V>
    decreases entries.len(),
{
    if entries.len() == 0 {
        None
    } else if entries[0].0 == key {
        Some(entries[0].1)
    } else {
        lookup_coord(entries.drop_first(), key)
    }
}

/// Index of the first entry for `key`.
fn find_coord<V>(entries: &Vec<(TileCoord, V)>, key: TileCoord) -> (r: Option<usize>)
    ensures
        r is None <==> lookup_coord(entries@, key) is None,
        r matches Some(i) ==> i < entries.len() && lookup_coord(entries@, key) == Some(
            entries@[i as int].1,
        ),
{
    let mut i: usize = 0;
    assert(entries@.skip(0) =~= entries@);
    while i < entries.len()
        invariant
            i <= entries.len(),
            lookup_coord(entries@, key) == lookup_coord(entries@.skip(i as int), key),
        decreases entries.len() - i,
    {
        assert(entries@.skip(i as int).drop_first() =~= entries@.skip(i + 1));
        if entries[i].0 == key {
            return Some(i);
        }
        i = i + 1;
    }
    None
}

impl CullingRange {
    pub open spec fn contains(&self, c: TileCoord) -> bool {
        self.min.q <= c.q <= self.max.q && self.min.r <= c.r <= self.max.r
    }

    pub fn is_in_bounds(&self, c: TileCoord) -> (r: bool)
        ensures
            r == self.contains(c),
    {
        self.min.q <= c.q && c.q <= self.max.q && self.min.r <= c.r && c.r <= self.max.r
    }
}

impl<C: Copy> TintOverlay<C> {
    pub open spec fn tint(&self, c: TileCoord) -> Option<C> {
        lookup_coord(self.entries@, c)
    }

    pub fn new() -> (r: TintOverlay<C>)
        ensures
            forall|c: TileCoord| r.tint(c) is None,
    {
        TintOverlay { entries: Vec::new() }
    }

    /// Sets the tint of `c`, replacing an earlier one.
    pub fn insert(&mut self, c: TileCoord, color: C)
        ensures
            final(self).tint(c) == Some(color),
            forall|o: TileCoord| o != c ==> final(self).tint(o) == old(self).tint(o),
    {
        self.entries.insert(0, (c, color));
        assert(self.entries@.drop_first() =~= old(self).entries@);
    }

    /// The tint of `c`, if one is set.
    pub fn get(&self, c: TileCoord) -> (r: Option<C>)
        ensures
            r == self.tint(c),
    {
        match find_coord(&self.entries, c) {
            Some(i) => Some(self.entries[i].1),
            None => None,
        }
    }

    /// Drains the overlay: returns it and leaves it empty.
    pub fn take(&mut self) -> (r: TintOverlay<C>)
        ensures
            forall|c: TileCoord| r.tint(c) == old(self).tint(c),
            forall|c: TileCoord| final(self).tint(c) is None,
    {
        let mut entries: Vec<(TileCoord, C)> = Vec::new();
        std::mem::swap(&mut entries, &mut self.entries);
        TintOverlay { entries }
    }
}

/// Whether a visible tile stands at `c`.
pub open spec fn has_unit(units: Seq<(TileCoord, u64)>, c: TileCoord) -> bool {
    exists|i: int| 0 <= i < units.len() && units[i].0 == c
}

fn covered(units: &Vec<(TileCoord, u64)>, c: TileCoord) -> (r: bool)
    ensures
        r == has_unit(units@, c),
{
    let mut i: usize = 0;
    while i < units.len()
        invariant
            i <= units.len(),
            forall|j: int| 0 <= j < i ==> units@[j].0 != c,
        decreases units.len() - i,
    {
        if units[i].0 == c {
            return true;
        }
        i = i + 1;
    }
    false
}

/// `a` comes before `b` in row order (by `q`, then `r`).
pub open spec fn coord_before(a: TileCoord, b: TileCoord) -> bool {
    a.q < b.q || (a.q == b.q && a.r < b.r)
}

/// The coordinates of the culling range where no visible tile stands, in row
/// order; the renderer draws an empty tile on those near enough to the camera.
pub fn uncovered_coords(range: &CullingRange, units: &Vec<(TileCoord, u64)>) -> (r: Vec<TileCoord>)
    ensures
        forall|k: int|
            0 <= k < r.len() ==> range.contains(#[trigger] r@[k]) && !has_unit(units@, r@[k]),
        forall|c: TileCoord| range.contains(c) && !has_unit(units@, c) ==> r@.contains(c),
        forall|i: int, j: int| 0 <= i < j < r.len() ==> coord_before(r@[i], r@[j]),
{
    let mut out: Vec<TileCoord> = Vec::new();
    let mut q: i64 = range.min.q as i64;
    while q <= range.max.q as i64
        invariant
            range.min.q <= q <= range.max.q as i64 + 1 || (q == range.min.q && q > range.max.q),
            forall|k: int|
                0 <= k < out.len() ==> range.contains(#[trigger] out@[k]) && !has_unit(units@, out@[k])
                    && out@[k].q < q,
            forall|c: TileCoord|
                range.contains(c) && !has_unit(units@, c) && c.q < q ==> out@.contains(c),
            forall|i: int, j: int| 0 <= i < j < out.len() ==> coord_before(out@[i], out@[j]),
        decreases range.max.q as i64 + 1 - q,
    {
        let mut rr: i64 = range.min.r as i64;
        while rr <= range.max.r as i64
            invariant
                range.min.q <= q <= range.max.q,
                range.min.r <= rr <= range.max.r as i64 + 1 || (rr == range.min.r && rr > range.max.r),
                forall|k: int|
                    0 <= k < out.len() ==> range.contains(#[trigger] out@[k]) && !has_unit(
                        units@,
                        out@[k],
                    ) && (out@[k].q < q || (out@[k].q == q && out@[k].r < rr)),
                forall|c: TileCoord|
                    range.contains(c) && !has_unit(units@, c) && (c.q < q || (c.q == q && c.r < rr))
                        ==> out@.contains(c),
                forall|i: int, j: int| 0 <= i < j < out.len() ==> coord_before(out@[i], out@[j]),
            decreases range.max.r as i64 + 1 - rr,
        {
            let c = TileCoord { q: q as i32, r: rr as i32 };
            if !covered(units, c) {
                let ghost before = out@;
                out.push(c);
                proof {
                    assert forall|x: TileCoord|
                        range.contains(x) && !has_unit(units@, x) && (x.q < q || (x.q == q && x.r
                            < rr + 1)) implies out@.contains(x) by {
                        if x == c {
                            assert(out@[before.len() as int] == x);
                        } else {
                            let k = choose|k: int| 0 <= k < before.len() && before[k] == x;
                            assert(out@[k] == x);
                        }
                    }
                }
            } else {
                assert forall|x: TileCoord|
                    range.contains(x) && !has_unit(units@, x) && (x.q < q || (x.q == q && x.r < rr
                        + 1)) implies out@.contains(x) by {
                    if x == c {
                        assert(has_unit(units@, x));
                    }
                }
            }
            rr = rr + 1;
        }
        q = q + 1;
    }
    out
}

/// The colour offset of the tile at `c`: the overlay's tint for it, else its
/// own.
pub fn tint_or<C: Copy>(overlay: &TintOverlay<C>, c: TileCoord, own: C) -> (r: C)
    ensures
        r == match overlay.tint(c) {
            Some(t) => t,
            None => own,
        },
{
    match overlay.get(c) {
        Some(t) => t,
        None => own,
    }
}

/// The colour offsets of tiles at `coords`, whose own offsets are `own`: each
/// overridden by the overlay's tint for its coordinate, if there is one.
pub fn apply_tints<C: Copy>(overlay: &TintOverlay<C>, coords: &Vec<TileCoord>, own: &Vec<C>) -> (r: Vec<C>)
    requires
        coords.len() == own.len(),
    ensures
        r.len() == coords.len(),
        forall|k: int|
            0 <= k < coords.len() ==> r@[k] == match overlay.tint(#[trigger] coords@[k]) {
                Some(t) => t,
                None => own@[k],
            },
{
    let mut r: Vec<C> = Vec::new();
    let mut k: usize = 0;
    while k < coords.len()
        invariant
            coords.len() == own.len(),
            k <= coords.len(),
            r.len() == k,
            forall|j: int|
                0 <= j < k ==> r@[j] == match overlay.tint(#[trigger] coords@[j]) {
                    Some(t) => t,
                    None => own@[j],
                },
        decreases coords.len() - k,
    {
        r.push(tint_or(overlay, coords[k], own[k]));
        k = k + 1;
    }
    r
}

/// Whether `d` is one of the six neighbour offsets of a hex grid.
pub open spec fn is_hex_direction(d: TileCoord) -> bool {
    (d.q == 1 && d.r == 0) || (d.q == 1 && d.r == -1) || (d.q == 0 && d.r == -1) || (d.q == -1
        && d.r == 0) || (d.q == -1 && d.r == 1) || (d.q == 0 && d.r == 1)
}

pub fn hex_direction(d: TileCoord) -> (r: bool)
    ensures
        r == is_hex_direction(d),
{
    (d.q == 1 && d.r == 0) || (d.q == 1 && d.r == -1) || (d.q == 0 && d.r == -1) || (d.q == -1
        && d.r == 0) || (d.q == -1 && d.r == 1) || (d.q == 0 && d.r == 1)
}

/// The facing of the tile at `c`: its data's direction, when that is a
/// neighbour offset.
pub open spec fn facing_of(data: Seq<(TileCoord, TileData)>, c: TileCoord) -> Option<TileCoord> {
    match lookup_coord(data, c) {
        Some(d) => match d.direction {
            Some(dir) => if is_hex_direction(dir) {
                Some(dir)
            } else {
                None
            },
            None => None,
        },
        None => None,
    }
}

fn facing(data: &Vec<(TileCoord, TileData)>, c: TileCoord) -> (r: Option<TileCoord>)
    ensures
        r == facing_of(data@, c),
{
    match find_coord(data, c) {
        Some(i) => match data[i].1.direction {
            Some(dir) => if hex_direction(dir) {
                Some(dir)
            } else {
                None
            },
            None => None,
        },
        None => None,
    }
}

/// The link line and held-item icon of one tile, in that order.
pub open spec fn tile_decorations(c: TileCoord, d: TileData) -> Seq<Decoration> {
    (match d.link {
        Some(to) => seq![Decoration::Link { from: c, to }],
        None => Seq::empty(),
    }) + (match d.item {
        Some(item) => seq![Decoration::ItemIcon { at: c, item }],
        None => Seq::empty(),
    })
}

/// Link lines and item icons of the first `n` tiles of the data map.
pub open spec fn data_decorations(data: Seq<(TileCoord, TileData)>, n: nat) -> Seq<Decoration>
    decreases n,
{
    if n == 0 {
        Seq::empty()
    } else {
        data_decorations(data, (n - 1) as nat) + tile_decorations(data[n - 1].0, data[n - 1].1)
    }
}

/// The arrow colour of tile type `tile`: its own, else the default.
pub open spec fn direction_color_of(tiles: Seq<TileDef>, tile: u64) -> u32 {
    match tile_def_of(tiles, tile) {
        Some(def) => match def.direction_color {
            Some(c) => c,
            None => DEFAULT_DIRECTION_COLOR,
        },
        None => DEFAULT_DIRECTION_COLOR,
    }
}

/// Arrows of the first `n` visible tiles that face somewhere.
pub open spec fn arrow_decorations(
    units: Seq<(TileCoord, u64)>,
    data: Seq<(TileCoord, TileData)>,
    tiles: Seq<TileDef>,
    n: nat,
) -> Seq<Decoration>
    decreases n,
{
    if n == 0 {
        Seq::empty()
    } else {
        arrow_decorations(units, data, tiles, (n - 1) as nat) + match facing_of(
            data,
            units[n - 1].0,
        ) {
            Some(toward) => seq![
                Decoration::Arrow {
                    at: units[n - 1].0,
                    tile: units[n - 1].1,
                    toward,
                    color: direction_color_of(tiles, units[n - 1].1),
                },
            ],
            None => Seq::empty(),
        }
    }
}

/// The decorative instances of a snapshot: a link line per linked tile and an
/// icon per held item (in data order), then an arrow per visible tile (`units`:
/// coordinate and tile type) that faces somewhere, in its type's colour.
pub fn decorations(
    data: &Vec<(TileCoord, TileData)>,
    units: &Vec<(TileCoord, u64)>,
    tiles: &Vec<TileDef>,
) -> (r: Vec<
    Decoration,
>)
    ensures
        r@ == data_decorations(data@, data.len() as nat) + arrow_decorations(
            units@,
            data@,
            tiles@,
            units.len() as nat,
        ),
{
    let mut r: Vec<Decoration> = Vec::new();
    let mut i: usize = 0;
    while i < data.len()
        invariant
            i <= data.len(),
            r@ == data_decorations(data@, i as nat),
        decreases data.len() - i,
    {
        let (c, d) = data[i];
        let ghost before = r@;
        if let Some(to) = d.link {
            r.push(Decoration::Link { from: c, to });
        }
        if let Some(item) = d.item {
            r.push(Decoration::ItemIcon { at: c, item });
        }
        assert(r@ =~= before + tile_decorations(c, d));
        i = i + 1;
    }
    let ghost base = r@;
    let mut k: usize = 0;
    while k < units.len()
        invariant
            k <= units.len(),
            base == data_decorations(data@, data.len() as nat),
            r@ == base + arrow_decorations(units@, data@, tiles@, k as nat),
        decreases units.len() - k,
    {
        let (c, tile) = units[k];
        let ghost before = r@;
        if let Some(toward) = facing(data, c) {
            let color = match find_tile(tiles, tile) {
                Some(def) => match def.direction_color {
                    Some(c) => c,
                    None => DEFAULT_DIRECTION_COLOR,
                },
                None => DEFAULT_DIRECTION_COLOR,
            };
            r.push(Decoration::Arrow { at: c, tile, toward, color });
            assert(r@ =~= base + arrow_decorations(units@, data@, tiles@, (k + 1) as nat));
        } else {
            assert(r@ =~= base + arrow_decorations(units@, data@, tiles@, (k + 1) as nat));
        }
        k = k + 1;
    }
    r
}

/// The first tile type with id `id`.
pub open spec fn tile_def_of(tiles: Seq<TileDef>, id: u64) -> Option<TileDef>
    decreases tiles.len(),
{
    if tiles.len() == 0 {
        None
    } else if tiles[0].id == id {
        Some(tiles[0])
    } else {
        tile_def_of(tiles.drop_first(), id)
    }
}

fn find_tile(tiles: &Vec<TileDef>, id: u64) -> (r: Option<TileDef>)
    ensures
        r == tile_def_of(tiles@, id),
{
    let mut i: usize = 0;
    assert(tiles@.skip(0) =~= tiles@);
    while i < tiles.len()
        invariant
            i <= tiles.len(),
            tile_def_of(tiles@, id) == tile_def_of(tiles@.skip(i as int), id),
        decreases tiles.len() - i,
    {
        assert(tiles@.skip(i as int).drop_first() =~= tiles@.skip(i + 1));
        if tiles[i].id == id {
            return Some(tiles[i]);
        }
        i = i + 1;
    }
    None
}

/// `model` if the mesh table has it, else the missing model.
pub open spec fn model_or_missing(meshes: MeshTable, model: u64) -> u64 {
    if has_key(meshes.entries@, model) {
        model
    } else {
        meshes.missing_model
    }
}

/// The model of the visible tile at `c` of type `tile`: a tile that faces
/// nowhere and whose type has an inactive model shows that model (or the
/// missing one if it is unknown); otherwise the type's model, or the missing
/// model for an unknown type.
pub open spec fn unit_model_of(
    tiles: Seq<TileDef>,
    meshes: MeshTable,
    data: Seq<(TileCoord, TileData)>,
    c: TileCoord,
    tile: u64,
) -> UnitModel {
    let facing = facing_of(data, c);
    let model = match tile_def_of(tiles, tile) {
        Some(def) => match (facing, def.inactive_model) {
            (None, Some(inactive)) => model_or_missing(meshes, inactive),
            _ => def.model,
        },
        None => meshes.missing_model,
    };
    UnitModel { model, facing }
}

fn mesh_model_or_missing(meshes: &MeshTable, model: u64) -> (r: u64)
    ensures
        r == model_or_missing(*meshes, model),
{
    let mut i: usize = 0;
    while i < meshes.entries.len()
        invariant
            i <= meshes.entries.len(),
            forall|j: int| 0 <= j < i ==> meshes.entries@[j].0 != model,
        decreases meshes.entries.len() - i,
    {
        if meshes.entries[i].0 == model {
            return model;
        }
        i = i + 1;
    }
    meshes.missing_model
}

/// The model and facing of each visible tile (`units`: coordinate and tile
/// type), in order.
pub fn unit_models(
    tiles: &Vec<TileDef>,
    meshes: &MeshTable,
    data: &Vec<(TileCoord, TileData)>,
    units: &Vec<(TileCoord, u64)>,
) -> (r: Vec<UnitModel>)
    ensures
        r.len() == units.len(),
        forall|k: int|
            0 <= k < units.len() ==> r@[k] == unit_model_of(
                tiles@,
                *meshes,
                data@,
                #[trigger] units@[k].0,
                units@[k].1,
            ),
{
    let mut r: Vec<UnitModel> = Vec::new();
    let mut k: usize = 0;
    while k < units.len()
        invariant
            k <= units.len(),
            r.len() == k,
            forall|j: int|
                0 <= j < k ==> r@[j] == unit_model_of(
                    tiles@,
                    *meshes,
                    data@,
                    #[trigger] units@[j].0,
                    units@[j].1,
                ),
        decreases units.len() - k,
    {
        let (c, tile) = units[k];
        let facing = facing(data, c);
        let model = match find_tile(tiles, tile) {
            Some(def) => match (facing, def.inactive_model) {
                (None, Some(inactive)) => mesh_model_or_missing(meshes, inactive),
                _ => def.model,
            },
            None => meshes.missing_model,
        };
        r.push(UnitModel { model, facing });
        k = k + 1;
    }
    r
}

/// Time from `start` to `now`, zero if `now` is earlier.
pub open spec fn elapsed_since(start: u64, now: u64) -> int {
    if now >= start {
        now - start
    } else {
        0
    }
}

/// How far along, in thousandths, a transfer started at `start` is at `now`;
/// `None` once the animation duration has elapsed.
pub open spec fn transfer_progress(start: u64, now: u64, duration: u64) -> Option<int> {
    let e = elapsed_since(start, now);
    if e >= duration {
        None
    } else {
        Some(e * 1000 / duration as int)
    }
}

/// Linear interpolation, in thousandths, from `a` to `b` at `p` thousandths.
pub open spec fn lerp_milli(a: i32, b: i32, p: int) -> int {
    a * 1000 + (b - a) * p
}

/// The drawn transfers among the first `n` records: those with both ends in
/// view that have not expired, at their interpolated position.
pub open spec fn transfer_points(
    records: Seq<TransactionRecord>,
    range: CullingRange,
    now: u64,
    duration: u64,
    n: nat,
) -> Seq<TransferPoint>
    decreases n,
{
    if n == 0 {
        Seq::empty()
    } else {
        let rec = records[n - 1];
        let prev = transfer_points(records, range, now, duration, (n - 1) as nat);
        if range.contains(rec.source) && range.contains(rec.destination) {
            match transfer_progress(rec.start, now, duration) {
                Some(p) => prev.push(
                    TransferPoint {
                        record: (n - 1) as usize,
                        item: rec.item,
                        q_milli: lerp_milli(rec.source.q, rec.destination.q, p) as i64,
                        r_milli: lerp_milli(rec.source.r, rec.destination.r, p) as i64,
                    },
                ),
                None => prev,
            }
        } else {
            prev
        }
    }
}

/// Progress of a transfer, in thousandths of its duration.
pub fn progress(start: u64, now: u64, duration: u64) -> (r: Option<u64>)
    ensures
        r matches Some(p) ==> transfer_progress(start, now, duration) == Some(p as int) && p < 1000,
        r is None ==> transfer_progress(start, now, duration) is None,
{
    let e: u64 = if now >= start {
        now - start
    } else {
        0
    };
    if e >= duration {
        None
    } else {
        let scaled: u128 = e as u128 * 1000;
        let p = scaled / duration as u128;
        proof {
            vstd::arithmetic::div_mod::lemma_multiply_divide_lt(scaled as int, duration as int, 1000);
            assert(scaled < duration * 1000);
        }
        Some(p as u64)
    }
}

fn lerp(a: i32, b: i32, p: u64) -> (r: i64)
    requires
        p < 1000,
    ensures
        r == lerp_milli(a, b, p as int),
{
    let d: i64 = b as i64 - a as i64;
    assert(-4294967296 <= d <= 4294967296);
    assert(-4294967296000 <= d * p <= 4294967296000) by (nonlinear_arith)
        requires -4294967296 <= d <= 4294967296, 0 <= p < 1000;
    a as i64 * 1000 + d * p as i64
}

/// The item transfers to draw: for each record with both ends in view that has
/// not expired, its item's position between the two tiles.
pub fn transfer_instances(
    records: &Vec<TransactionRecord>,
    range: &CullingRange,
    now: u64,
    duration: u64,
) -> (r: Vec<TransferPoint>)
    ensures
        r@ == transfer_points(records@, *range, now, duration, records.len() as nat),
{
    let mut r: Vec<TransferPoint> = Vec::new();
    let mut i: usize = 0;
    while i < records.len()
        invariant
            i <= records.len(),
            r@ == transfer_points(records@, *range, now, duration, i as nat),
        decreases records.len() - i,
    {
        let rec = records[i];
        if range.is_in_bounds(rec.source) && range.is_in_bounds(rec.destination) {
            if let Some(p) = progress(rec.start, now, duration) {
                let q_milli = lerp(rec.source.q, rec.destination.q, p);
                let r_milli = lerp(rec.source.r, rec.destination.r, p);
                r.push(TransferPoint { record: i, item: rec.item, q_milli, r_milli });
            }
        }
        i = i + 1;
    }
    r
}

/// Number of leading animations, started at `starts`, that have run for at
/// least `duration` at `now`.
pub open spec fn expired_prefix(starts: Seq<u64>, now: u64, duration: u64) -> nat
    decreases starts.len(),
{
    if starts.len() == 0 {
        0
    } else if elapsed_since(starts[0], now) >= duration {
        1 + expired_prefix(starts.drop_first(), now, duration)
    } else {
        0
    }
}

/// How many animations to drop from the front of a queue ordered by start
/// time: those at the front that have finished.
pub fn expired_count(starts: &Vec<u64>, now: u64, duration: u64) -> (r: usize)
    ensures
        r == expired_prefix(starts@, now, duration),
{
    let mut i: usize = 0;
    assert(starts@.skip(0) =~= starts@);
    while i < starts.len()
        invariant
            i <= starts.len(),
            expired_prefix(starts@, now, duration) == i + expired_prefix(
                starts@.skip(i as int),
                now,
                duration,
            ),
        decreases starts.len() - i,
    {
        assert(starts@.skip(i as int).drop_first() =~= starts@.skip(i + 1));
        let s = starts[i];
        let e: u64 = if now >= s {
            now - s
        } else {
            0
        };
        if e < duration {
            return i;
        }
        i = i + 1;
    }
    i
}

} // verus!
