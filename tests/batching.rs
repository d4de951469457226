use automancy::batch::{batch, element_draws, DrawDescriptor, InstanceBatch, MeshRange, MeshTable};

fn table() -> MeshTable {
    MeshTable {
        entries: vec![
            (1, MeshRange { base_vertex: 0, first_index: 0, index_count: 36 }),
            (2, MeshRange { base_vertex: 24, first_index: 36, index_count: 12 }),
        ],
        missing_model: 99,
        missing: MeshRange { base_vertex: 100, first_index: 500, index_count: 6 },
    }
}

fn same(a: &InstanceBatch, b: &InstanceBatch) -> bool {
    a.order == b.order && a.draws == b.draws
}

#[test]
fn two_tiles_of_one_model_make_one_draw() {
    let r = batch(&vec![1, 1], &table());
    assert_eq!(r.order, vec![0, 1]);
    assert_eq!(
        r.draws,
        vec![DrawDescriptor {
            model: 1,
            base_vertex: 0,
            first_index: 0,
            index_count: 36,
            first_instance: 0,
            instance_count: 2,
        }]
    );
}

#[test]
fn empty_instance_list_gives_no_draws() {
    let r = batch(&vec![], &table());
    assert!(r.order.is_empty());
    assert!(r.draws.is_empty());
}

#[test]
fn batching_twice_gives_identical_results() {
    let models = vec![2, 1, 7, 2, 1, 1];
    let a = batch(&models, &table());
    let b = batch(&models, &table());
    assert!(same(&a, &b));
}

#[test]
fn groups_are_ascending_and_keep_input_order() {
    let r = batch(&vec![2, 1, 7, 2, 1, 1], &table());
    assert_eq!(r.order, vec![1, 4, 5, 0, 3, 2]);
    let models: Vec<u64> = r.draws.iter().map(|d| d.model).collect();
    assert_eq!(models, vec![1, 2, 7]);
    let slices: Vec<(usize, usize)> = r.draws.iter().map(|d| (d.first_instance, d.instance_count)).collect();
    assert_eq!(slices, vec![(0, 3), (3, 2), (5, 1)]);
}

#[test]
fn unknown_model_uses_missing_mesh() {
    let r = batch(&vec![7], &table());
    assert_eq!(r.draws.len(), 1);
    assert_eq!(r.draws[0].model, 7);
    assert_eq!(r.draws[0].base_vertex, 100);
    assert_eq!(r.draws[0].first_index, 500);
    assert_eq!(r.draws[0].index_count, 6);
}

#[test]
fn mesh_lookup_finds_entry() {
    let t = table();
    assert_eq!(t.mesh(2), MeshRange { base_vertex: 24, first_index: 36, index_count: 12 });
    assert_eq!(t.mesh(3), t.missing);
}

#[test]
fn each_gui_element_draws_its_own_slot() {
    let models = vec![2, 1, 2];
    let t = table();
    let b = batch(&models, &t);
    let d = element_draws(&models, &t, &b);
    assert_eq!(d.len(), 3);
    let slots: Vec<usize> = d.iter().map(|x| x.first_instance).collect();
    assert_eq!(slots, vec![1, 0, 2]);
    for (k, x) in d.iter().enumerate() {
        assert_eq!(b.order[x.first_instance], k);
        assert_eq!(x.instance_count, 1);
        assert_eq!(x.model, models[k]);
    }
    assert_eq!(d[1].index_count, 36);
    assert_eq!(d[0].index_count, 12);
}
