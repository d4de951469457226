use automancy::batch::{MeshRange, MeshTable};
use automancy::scene::{
    apply_tints, decorations, expired_count, progress, tint_or, transfer_instances, uncovered_coords,
    unit_models, CullingRange, Decoration, TileCoord, TileData, TileDef, TintOverlay,
    TransactionRecord, TransferPoint, UnitModel, DEFAULT_DIRECTION_COLOR,
};

fn c(q: i32, r: i32) -> TileCoord {
    TileCoord { q, r }
}

fn range() -> CullingRange {
    CullingRange { min: c(-5, -5), max: c(5, 5) }
}

#[test]
fn transfer_halfway_is_the_midpoint() {
    let t = 1_000_000u64;
    let duration = 500_000_000u64;
    let records = vec![TransactionRecord { source: c(0, 0), destination: c(2, 0), start: t, item: 4 }];
    let r = transfer_instances(&records, &range(), t + duration / 2, duration);
    assert_eq!(r, vec![TransferPoint { record: 0, item: 4, q_milli: 1000, r_milli: 0 }]);
}

#[test]
fn transfers_out_of_view_or_expired_are_not_drawn() {
    let records = vec![
        TransactionRecord { source: c(0, 0), destination: c(9, 0), start: 0, item: 1 },
        TransactionRecord { source: c(0, 0), destination: c(0, 1), start: 0, item: 2 },
        TransactionRecord { source: c(1, 1), destination: c(0, 1), start: 100, item: 3 },
    ];
    let r = transfer_instances(&records, &range(), 150, 100);
    assert_eq!(r, vec![TransferPoint { record: 2, item: 3, q_milli: 500, r_milli: 1000 }]);
}

#[test]
fn progress_in_thousandths() {
    assert_eq!(progress(10, 35, 100), Some(250));
    assert_eq!(progress(10, 5, 100), Some(0));
    assert_eq!(progress(10, 110, 100), None);
    assert_eq!(progress(10, 10, 0), None);
}

#[test]
fn culling_range_bounds() {
    assert!(range().is_in_bounds(c(5, -5)));
    assert!(!range().is_in_bounds(c(6, 0)));
}

#[test]
fn decorations_from_tile_data() {
    let data = vec![
        (c(0, 0), TileData { link: Some(c(3, 0)), item: Some(8), direction: Some(c(1, 0)) }),
        (c(1, 0), TileData { link: None, item: None, direction: Some(c(2, 0)) }),
    ];
    let units = vec![(c(1, 0), 20), (c(0, 0), 21), (c(4, 4), 22)];
    let tiles = vec![TileDef { id: 21, model: 1, inactive_model: None, direction_color: Some(0x00FF00FF) }];
    let r = decorations(&data, &units, &tiles);
    assert_eq!(
        r,
        vec![
            Decoration::Link { from: c(0, 0), to: c(3, 0) },
            Decoration::ItemIcon { at: c(0, 0), item: 8 },
            Decoration::Arrow { at: c(0, 0), tile: 21, toward: c(1, 0), color: 0x00FF00FF },
        ]
    );
    let r = decorations(&data, &units, &vec![]);
    assert_eq!(
        r[2],
        Decoration::Arrow { at: c(0, 0), tile: 21, toward: c(1, 0), color: DEFAULT_DIRECTION_COLOR }
    );
}

#[test]
fn unit_models_resolve_overrides_and_fallbacks() {
    let tiles = vec![
        TileDef { id: 20, model: 1, inactive_model: Some(2), direction_color: None },
        TileDef { id: 21, model: 1, inactive_model: Some(77), direction_color: None },
        TileDef { id: 22, model: 3, inactive_model: None, direction_color: None },
    ];
    let meshes = MeshTable {
        entries: vec![
            (1, MeshRange { base_vertex: 0, first_index: 0, index_count: 3 }),
            (2, MeshRange { base_vertex: 0, first_index: 3, index_count: 3 }),
        ],
        missing_model: 99,
        missing: MeshRange { base_vertex: 0, first_index: 6, index_count: 3 },
    };
    let data = vec![(c(0, 0), TileData { link: None, item: None, direction: Some(c(0, 1)) })];
    let units = vec![(c(0, 0), 20), (c(1, 0), 20), (c(2, 0), 21), (c(3, 0), 22), (c(4, 0), 5)];
    let r = unit_models(&tiles, &meshes, &data, &units);
    assert_eq!(
        r,
        vec![
            UnitModel { model: 1, facing: Some(c(0, 1)) },
            UnitModel { model: 2, facing: None },
            UnitModel { model: 99, facing: None },
            UnitModel { model: 3, facing: None },
            UnitModel { model: 99, facing: None },
        ]
    );
}

#[test]
fn tint_overlay_overrides_and_drains() {
    let mut t: TintOverlay<[u8; 4]> = TintOverlay::new();
    t.insert(c(0, 0), [1, 2, 3, 4]);
    t.insert(c(1, 0), [5, 5, 5, 5]);
    t.insert(c(0, 0), [9, 9, 9, 9]);
    assert_eq!(t.get(c(0, 0)), Some([9, 9, 9, 9]));
    let frame = t.take();
    assert_eq!(frame.get(c(1, 0)), Some([5, 5, 5, 5]));
    assert_eq!(t.get(c(0, 0)), None);
    assert_eq!(t.get(c(1, 0)), None);
}

#[test]
fn expired_take_item_animations() {
    assert_eq!(expired_count(&vec![0, 10, 50, 20], 100, 60), 2);
    assert_eq!(expired_count(&vec![], 100, 60), 0);
    assert_eq!(expired_count(&vec![90], 100, 60), 0);
}

#[test]
fn zero_duration_transfers_have_expired() {
    let records = vec![TransactionRecord { source: c(0, 0), destination: c(1, 0), start: 5, item: 1 }];
    assert!(transfer_instances(&records, &range(), 5, 0).is_empty());
}

#[test]
fn tints_override_own_colours() {
    let mut t: TintOverlay<u32> = TintOverlay::new();
    t.insert(c(1, 0), 7);
    assert_eq!(tint_or(&t, c(1, 0), 3), 7);
    assert_eq!(tint_or(&t, c(0, 0), 3), 3);
    assert_eq!(apply_tints(&t, &vec![c(0, 0), c(1, 0), c(2, 0)], &vec![1, 2, 3]), vec![1, 7, 3]);
}

#[test]
fn uncovered_coordinates_of_the_range() {
    let range = CullingRange { min: c(0, 0), max: c(1, 1) };
    let units = vec![(c(0, 1), 5), (c(1, 0), 5), (c(9, 9), 5)];
    assert_eq!(uncovered_coords(&range, &units), vec![c(0, 0), c(1, 1)]);
    let empty = CullingRange { min: c(2, 0), max: c(1, 1) };
    assert!(uncovered_coords(&empty, &units).is_empty());
    let edge = CullingRange { min: c(i32::MAX, i32::MAX), max: c(i32::MAX, i32::MAX) };
    assert_eq!(uncovered_coords(&edge, &vec![]), vec![c(i32::MAX, i32::MAX)]);
}
