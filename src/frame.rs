//! The CPU side of one frame drawn from the cached snapshots: decorative
//! instances, in-flight transfers, the extra-object batch, and, when the
//! primary batch is due, the model of every visible tile and their batch; plus
//! the animation of every model drawn.
use vstd::prelude::*;
use crate::animation::{add_animations, has_key, AnimationLibrary, AnimationMap};
use crate::batch::{batch, is_batch_of, InstanceBatch, MeshTable};
use crate::scene::{
    apply_tints, arrow_decorations, data_decorations, decorations, model_or_missing,
    transfer_instances, transfer_points, unit_model_of, unit_models, CullingRange, Decoration,
    TileCoord, TileData, TileDef, TintOverlay, TransactionRecord, TransferPoint, UnitModel,
};

verus! {

/// A simulation snapshot, fetched in one request: the visible tiles
/// (coordinate and tile type) and the tiles' data.
pub struct TileSnapshot {
    pub units: Vec<(TileCoord, u64)>,
    pub data: Vec<(TileCoord, TileData)>,
}

/// What ids are resolved against: tile types, the model of each item, meshes
/// (with the missing model), the model drawn for lines and arrows, and the
/// animations.
pub struct RenderResources {
    pub tiles: Vec<TileDef>,
    pub items: Vec<(u64, u64)>,
    pub meshes: MeshTable,
    pub line_model: u64,
    pub library: AnimationLibrary,
}

/// The instances of one frame, ready for the GPU passes; `C` is a colour
/// offset.
pub struct PreparedFrame<C> {
    pub decorations: Vec<Decoration>,
    pub transfers: Vec<TransferPoint>,
    /// Model of each extra object: the ones queued by the GUI, then the
    /// transfers, then the decorations.
    pub extra_models: Vec<u64>,
    pub extra_batch: InstanceBatch,
    /// Model and facing of each visible tile, when the primary batch was due.
    pub units: Option<Vec<UnitModel>>,
    /// Colour offset of each visible tile, tint applied, when the primary batch
    /// was due.
    pub unit_colors: Option<Vec<C>>,
    pub primary_batch: Option<InstanceBatch>,
    pub animations: AnimationMap,
}

/// The model of the first entry for `item`.
pub open spec fn item_entry(items: Seq<(u64, u64)>, item: u64) -> Option<u64>
    decreases items.len(),
{
    if items.len() == 0 {
        None
    } else if items[0].0 == item {
        Some(items[0].1)
    } else {
        item_entry(items.drop_first(), item)
    }
}

/// The model an item is drawn with, or the missing model.
pub open spec fn item_model_of(items: Seq<(u64, u64)>, meshes: MeshTable, item: u64) -> u64 {
    match item_entry(items, item) {
        Some(m) => model_or_missing(meshes, m),
        None => meshes.missing_model,
    }
}

pub open spec fn decoration_model(res: RenderResources, d: Decoration) -> u64 {
    match d {
        Decoration::ItemIcon { item, .. } => item_model_of(res.items@, res.meshes, item),
        _ => res.line_model,
    }
}

/// The models of the extra objects, in order: the queued ones, the transfers'
/// items, the decorations'.
pub open spec fn extra_models_of(
    res: RenderResources,
    queued: Seq<u64>,
    decorations: Seq<Decoration>,
    transfers: Seq<TransferPoint>,
) -> Seq<u64> {
    queued + transfers.map_values(|t: TransferPoint| item_model_of(res.items@, res.meshes, t.item))
        + decorations.map_values(|d: Decoration| decoration_model(res, d))
}

pub open spec fn unit_models_seq(units: Seq<UnitModel>) -> Seq<u64> {
    units.map_values(|u: UnitModel| u.model)
}

impl RenderResources {
    fn item_model(&self, item: u64) -> (r: u64)
        ensures
            r == item_model_of(self.items@, self.meshes, item),
    {
        let mut i: usize = 0;
        assert(self.items@.skip(0) =~= self.items@);
        while i < self.items.len()
            invariant
                i <= self.items.len(),
                item_entry(self.items@, item) == item_entry(self.items@.skip(i as int), item),
            decreases self.items.len() - i,
        {
            assert(self.items@.skip(i as int).drop_first() =~= self.items@.skip(i + 1));
            if self.items[i].0 == item {
                let m = self.items[i].1;
                assert(item_entry(self.items@, item) == Some(m));
                let mut k: usize = 0;
                while k < self.meshes.entries.len()
                    invariant
                        k <= self.meshes.entries.len(),
                        item_entry(self.items@, item) == Some(m),
                        forall|j: int| 0 <= j < k ==> self.meshes.entries@[j].0 != m,
                    decreases self.meshes.entries.len() - k,
                {
                    if self.meshes.entries[k].0 == m {
                        assert(has_key(self.meshes.entries@, m));
                        return m;
                    }
                    k = k + 1;
                }
                return self.meshes.missing_model;
            }
            i = i + 1;
        }
        self.meshes.missing_model
    }
}

/// The models of the extra objects: the queued ones, each transfer's item's,
/// then each decoration's.
fn extra_models(
    res: &RenderResources,
    queued: &Vec<u64>,
    decorations: &Vec<Decoration>,
    transfers: &Vec<TransferPoint>,
) -> (r: Vec<u64>)
    ensures
        r@ == extra_models_of(*res, queued@, decorations@, transfers@),
{
    let mut extra_models: Vec<u64> = Vec::new();
    let mut q: usize = 0;
    while q < queued.len()
        invariant
            q <= queued.len(),
            extra_models@ == queued@.take(q as int),
        decreases queued.len() - q,
    {
        extra_models.push(queued[q]);
        q = q + 1;
        assert(extra_models@ =~= queued@.take(q as int));
    }
    assert(queued@.take(queued.len() as int) =~= queued@);
    let mut k: usize = 0;
    while k < transfers.len()
        invariant
            k <= transfers.len(),
            extra_models@ == queued@ + transfers@.take(k as int).map_values(
                |t: TransferPoint| item_model_of(res.items@, res.meshes, t.item),
            ),
        decreases transfers.len() - k,
    {
        let model = res.item_model(transfers[k].item);
        extra_models.push(model);
        k = k + 1;
        assert(extra_models@ =~= queued@ + transfers@.take(k as int).map_values(
            |t: TransferPoint| item_model_of(res.items@, res.meshes, t.item),
        ));
    }
    assert(transfers@.take(transfers.len() as int) =~= transfers@);
    let ghost before = extra_models@;
    let mut i: usize = 0;
    while i < decorations.len()
        invariant
            i <= decorations.len(),
            before == queued@ + transfers@.map_values(
                |t: TransferPoint| item_model_of(res.items@, res.meshes, t.item),
            ),
            extra_models@ == before + decorations@.take(i as int).map_values(
                |d: Decoration| decoration_model(*res, d),
            ),
        decreases decorations.len() - i,
    {
        let model = match decorations[i] {
            Decoration::ItemIcon { item, .. } => res.item_model(item),
            _ => res.line_model,
        };
        extra_models.push(model);
        i = i + 1;
        assert(extra_models@ =~= before + decorations@.take(i as int).map_values(
            |d: Decoration| decoration_model(*res, d),
        ));
    }
    assert(decorations@.take(decorations.len() as int) =~= decorations@);
    extra_models
}

fn models_of(units: &Vec<UnitModel>) -> (r: Vec<u64>)
    ensures
        r@ == unit_models_seq(units@),
        r.len() == units.len(),
{
    let mut models: Vec<u64> = Vec::new();
    let mut j: usize = 0;
    while j < units.len()
        invariant
            j <= units.len(),
            models@ == unit_models_seq(units@.take(j as int)),
        decreases units.len() - j,
    {
        models.push(units[j].model);
        j = j + 1;
        assert(models@ =~= unit_models_seq(units@.take(j as int)));
    }
    assert(units@.take(units.len() as int) =~= units@);
    models
}

/// Prepares a frame from the cached tile snapshot and transaction records at
/// time `now` (ns; animations at `elapsed` ms), with the extra objects the GUI
/// queued (`queued`, their models). The primary tile batch is computed only
/// when `recompute` says it is due; its tiles' colour offsets (`own_colors`,
/// one per visible tile) are then overridden by the frame's tint overlay.
pub fn prepare_frame<C: Copy>(
    snapshot: &TileSnapshot,
    records: &Vec<TransactionRecord>,
    queued: &Vec<u64>,
    tints: &TintOverlay<C>,
    own_colors: &Vec<C>,
    recompute: bool,
    res: &RenderResources,
    range: &CullingRange,
    now: u64,
    elapsed: u64,
    transfer_duration: u64,
) -> (r: PreparedFrame<C>)
    requires
        res.library.wf(),
        own_colors.len() == snapshot.units.len(),
    ensures
        r.decorations@ == data_decorations(snapshot.data@, snapshot.data.len() as nat)
            + arrow_decorations(
            snapshot.units@,
            snapshot.data@,
            res.tiles@,
            snapshot.units.len() as nat,
        ),
        r.transfers@ == transfer_points(
            records@,
            *range,
            now,
            transfer_duration,
            records.len() as nat,
        ),
        r.extra_models@ == extra_models_of(*res, queued@, r.decorations@, r.transfers@),
        is_batch_of(
            r.extra_models@,
            res.meshes.entries@,
            res.meshes.missing,
            r.extra_batch.order@,
            r.extra_batch.draws@,
        ),
        r.extra_batch.order.len() == r.extra_models.len(),
        recompute <==> r.units is Some,
        recompute <==> r.primary_batch is Some,
        recompute <==> r.unit_colors is Some,
        r.unit_colors matches Some(cs) ==> cs.len() == snapshot.units.len() && forall|k: int|
            0 <= k < cs.len() ==> cs@[k] == match tints.tint(#[trigger] snapshot.units@[k].0) {
                Some(t) => t,
                None => own_colors@[k],
            },
        r.units matches Some(u) ==> u.len() == snapshot.units.len() && forall|k: int|
            0 <= k < u.len() ==> u@[k] == unit_model_of(
                res.tiles@,
                res.meshes,
                snapshot.data@,
                #[trigger] snapshot.units@[k].0,
                snapshot.units@[k].1,
            ),
        r.units matches Some(u) ==> r.primary_batch matches Some(b) && is_batch_of(
            unit_models_seq(u@),
            res.meshes.entries@,
            res.meshes.missing,
            b.order@,
            b.draws@,
        ) && b.order.len() == u.len(),
        r.animations.consistent_with(&res.library, elapsed as int),
        forall|k: int| 0 <= k < r.extra_models.len() ==> r.animations.has(#[trigger] r.extra_models@[k]),
        r.units matches Some(u) ==> forall|k: int|
            0 <= k < u.len() ==> r.animations.has(#[trigger] u@[k].model),
{
    let decorations = decorations(&snapshot.data, &snapshot.units, &res.tiles);
    let transfers = transfer_instances(records, range, now, transfer_duration);

    let extra_models = extra_models(res, queued, &decorations, &transfers);
    let extra_batch = batch(&extra_models, &res.meshes);

    let mut animations = AnimationMap::new();
    add_animations(&res.library, elapsed, &extra_models, &mut animations);

    if recompute {
        let units = unit_models(&res.tiles, &res.meshes, &snapshot.data, &snapshot.units);
        let models = models_of(&units);
        let primary = batch(&models, &res.meshes);
        let mut coords: Vec<TileCoord> = Vec::new();
        let mut c: usize = 0;
        while c < snapshot.units.len()
            invariant
                c <= snapshot.units.len(),
                coords.len() == c,
                forall|j: int| 0 <= j < c ==> coords@[j] == #[trigger] snapshot.units@[j].0,
            decreases snapshot.units.len() - c,
        {
            coords.push(snapshot.units[c].0);
            c = c + 1;
        }
        let colors = apply_tints(tints, &coords, own_colors);
        assert forall|k: int| 0 <= k < colors.len() implies colors@[k] == match tints.tint(
            #[trigger] snapshot.units@[k].0,
        ) {
            Some(t) => t,
            None => own_colors@[k],
        } by {
            assert(coords@[k] == snapshot.units@[k].0);
        }
        add_animations(&res.library, elapsed, &models, &mut animations);
        proof {
            assert forall|q: int| 0 <= q < units.len() implies animations.has(
                #[trigger] units@[q].model,
            ) by {
                assert(models@[q] == units@[q].model);
            }
        }
        PreparedFrame {
            decorations,
            transfers,
            extra_models,
            extra_batch,
            units: Some(units),
            unit_colors: Some(colors),
            primary_batch: Some(primary),
            animations,
        }
    } else {
        PreparedFrame {
            decorations,
            transfers,
            extra_models,
            extra_batch,
            units: None,
            unit_colors: None,
            primary_batch: None,
            animations,
        }
    }
}

} // verus!
