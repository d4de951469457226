use automancy::animation::{AnimationLibrary, AnimationTrack};
use automancy::batch::{MeshRange, MeshTable};
use automancy::frame::{prepare_frame, RenderResources, TileSnapshot};
use automancy::scene::{
    CullingRange, Decoration, TileCoord, TileData, TileDef, TintOverlay, TransactionRecord,
};

fn c(q: i32, r: i32) -> TileCoord {
    TileCoord { q, r }
}

fn resources() -> RenderResources {
    let mut library = AnimationLibrary::new();
    library.add_model(11, vec![AnimationTrack { target: 0, times: vec![250, 500, 1000] }]);
    RenderResources {
        tiles: vec![
            TileDef { id: 1, model: 10, inactive_model: None, direction_color: None },
            TileDef { id: 2, model: 11, inactive_model: None, direction_color: None },
        ],
        items: vec![(7, 13), (8, 55)],
        meshes: MeshTable {
            entries: vec![
                (10, MeshRange { base_vertex: 0, first_index: 0, index_count: 36 }),
                (11, MeshRange { base_vertex: 24, first_index: 36, index_count: 48 }),
                (13, MeshRange { base_vertex: 64, first_index: 84, index_count: 12 }),
            ],
            missing_model: 0,
            missing: MeshRange { base_vertex: 80, first_index: 96, index_count: 36 },
        },
        line_model: 10,
        library,
    }
}

fn snapshot() -> TileSnapshot {
    TileSnapshot {
        units: vec![(c(0, 0), 1), (c(1, 0), 2), (c(2, 0), 1)],
        data: vec![(c(2, 0), TileData { link: Some(c(0, 0)), item: Some(8), direction: None })],
    }
}

#[test]
fn frame_with_recompute_batches_tiles_by_model() {
    let records = vec![TransactionRecord { source: c(0, 0), destination: c(2, 0), start: 0, item: 7 }];
    let range = CullingRange { min: c(-4, -4), max: c(4, 4) };
    let mut tints: TintOverlay<u32> = TintOverlay::new();
    tints.insert(c(1, 0), 9);
    let f = prepare_frame(
        &snapshot(),
        &records,
        &vec![11],
        &tints,
        &vec![1, 2, 3],
        true,
        &resources(),
        &range,
        250,
        600,
        1000,
    );
    assert_eq!(
        f.decorations,
        vec![
            Decoration::Link { from: c(2, 0), to: c(0, 0) },
            Decoration::ItemIcon { at: c(2, 0), item: 8 },
        ]
    );
    assert_eq!(f.transfers.len(), 1);
    assert_eq!(f.transfers[0].q_milli, 500);
    // queued model 11, item 7 in transfer, line, item 8 (unknown model -> missing)
    assert_eq!(f.extra_models, vec![11, 13, 10, 0]);
    assert_eq!(f.extra_batch.draws.len(), 4);
    assert_eq!(f.unit_colors, Some(vec![1, 9, 3]));
    let units = f.units.unwrap();
    assert_eq!(units.iter().map(|u| u.model).collect::<Vec<_>>(), vec![10, 11, 10]);
    let primary = f.primary_batch.unwrap();
    assert_eq!(primary.order, vec![0, 2, 1]);
    assert_eq!(primary.draws.len(), 2);
    assert_eq!(primary.draws[0].instance_count, 2);
    assert!(f.animations.get(11).unwrap().is_some());
    assert!(f.animations.get(10).unwrap().is_none());
    assert!(f.animations.get(12).is_none());
}

#[test]
fn frame_without_recompute_carries_no_primary_batch() {
    let range = CullingRange { min: c(-4, -4), max: c(4, 4) };
    let tints: TintOverlay<u32> = TintOverlay::new();
    let f = prepare_frame(&snapshot(), &vec![], &vec![], &tints, &vec![0, 0, 0], false, &resources(), &range, 0, 0, 1000);
    assert!(f.units.is_none());
    assert!(f.unit_colors.is_none());
    assert!(f.primary_batch.is_none());
    assert_eq!(f.extra_models.len(), 2);
}
