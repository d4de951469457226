//! Grouping of per-tile draw instances into one indirect draw per model.
//!
//! The batcher sees only the model of each instance; the instance payload
//! (matrices, colours) stays with the caller, who gathers it through the
//! returned instance order.
use vstd::prelude::*;

verus! {

/// Where a model's mesh lies in the shared vertex and index buffers.
#[derive(Clone, Copy, Debug, PartialEq, Eq, Structural)]
pub struct MeshRange {
    pub base_vertex: i32,
    pub first_index: u32,
    pub index_count: u32,
}

/// One indirect draw: a mesh range drawn for a contiguous slice of the packed
/// instance buffer.
#[derive(Clone, Copy, Debug, PartialEq, Eq, Structural)]
pub struct DrawDescriptor {
    pub model: u64,
    pub base_vertex: i32,
    pub first_index: u32,
    pub index_count: u32,
    pub first_instance: usize,
    pub instance_count: usize,
}

/// Mesh ranges by model, with the "missing model" (its id and its range) used
/// for any model the table does not name.
pub struct MeshTable {
    pub entries: Vec<(u64, MeshRange)>,
    pub missing_model: u64,
    pub missing: MeshRange,
}

/// The result of batching: `order[p]` is the index, in the input, of the
/// instance at slot `p` of the packed buffer; `draws` holds one descriptor per
/// model, in ascending model order.
pub struct InstanceBatch {
    pub order: Vec<usize>,
    pub draws: Vec<DrawDescriptor>,
}

/// The mesh range of `model`: the first entry for it, else `missing`.
pub open spec fn mesh_of(entries: Seq<(u64, MeshRange)>, missing: MeshRange, model: u64) -> MeshRange
    decreases entries.len(),
{
    if entries.len() == 0 {
        missing
    } else if entries[0].0 == model {
        entries[0].1
    } else {
        mesh_of(entries.drop_first(), missing, model)
    }
}

/// Indices below `n` of the instances of `model`, ascending.
pub open spec fn indices_with(models: Seq<u64>, model: u64, n: nat) -> Seq<usize>
    decreases n,
{
    if n == 0 {
        Seq::empty()
    } else {
        indices_with(models, model, (n - 1) as nat) + if models[n - 1] == model {
            seq![(n - 1) as usize]
        } else {
            Seq::empty()
        }
    }
}

/// The packed instance order for the model groups `groups`, in that order: each
/// group's instances keep their input order.
pub open spec fn packed_of(models: Seq<u64>, groups: Seq<u64>) -> Seq<usize>
    decreases groups.len(),
{
    if groups.len() == 0 {
        Seq::empty()
    } else {
        packed_of(models, groups.drop_last()) + indices_with(models, groups.last(), models.len())
    }
}

pub open spec fn draw_models(draws: Seq<DrawDescriptor>) -> Seq<u64> {
    draws.map_values(|d: DrawDescriptor| d.model)
}

pub open spec fn strictly_ascending(s: Seq<u64>) -> bool {
    forall|i: int, j: int| 0 <= i < j < s.len() ==> s[i] < s[j]
}

/// `draw` covers the group of `groups[k]`.
pub open spec fn describes_group(
    models: Seq<u64>,
    table: Seq<(u64, MeshRange)>,
    missing: MeshRange,
    groups: Seq<u64>,
    k: int,
    draw: DrawDescriptor,
) -> bool {
    let mesh = mesh_of(table, missing, groups[k]);
    &&& draw.model == groups[k]
    &&& draw.first_instance == packed_of(models, groups.take(k)).len()
    &&& draw.instance_count == indices_with(models, groups[k], models.len()).len()
    &&& draw.base_vertex == mesh.base_vertex
    &&& draw.first_index == mesh.first_index
    &&& draw.index_count == mesh.index_count
}

/// `order` and `draws` are the batch of the instances whose models are `models`:
/// one draw per distinct model, models ascending (a stable sort by model), each
/// group keeping the input order of its instances.
pub open spec fn is_batch_of(
    models: Seq<u64>,
    table: Seq<(u64, MeshRange)>,
    missing: MeshRange,
    order: Seq<usize>,
    draws: Seq<DrawDescriptor>,
) -> bool {
    let groups = draw_models(draws);
    &&& strictly_ascending(groups)
    &&& forall|k: int| 0 <= k < groups.len() ==> models.contains(#[trigger] groups[k])
    &&& forall|i: int| 0 <= i < models.len() ==> groups.contains(#[trigger] models[i])
    &&& order == packed_of(models, groups)
    &&& forall|k: int|
        0 <= k < draws.len() ==> describes_group(models, table, missing, groups, k, #[trigger] draws[k])
}

impl MeshTable {
    /// The mesh range of `model`, falling back to the missing model's.
    pub fn mesh(&self, model: u64) -> (r: MeshRange)
        ensures
            r == mesh_of(self.entries@, self.missing, model),
    {
        let mut i: usize = 0;
        assert(self.entries@.skip(0) =~= self.entries@);
        while i < self.entries.len()
            invariant
                i <= self.entries.len(),
                mesh_of(self.entries@, self.missing, model) == mesh_of(
                    self.entries@.skip(i as int),
                    self.missing,
                    model,
                ),
            decreases self.entries.len() - i,
        {
            assert(self.entries@.skip(i as int).drop_first() =~= self.entries@.skip(i + 1));
            if self.entries[i].0 == model {
                return self.entries[i].1;
            }
            i = i + 1;
        }
        self.missing
    }
}

pub open spec fn above(v: u64, floor: Option<u64>) -> bool {
    match floor {
        None => true,
        Some(p) => v > p,
    }
}

/// The smallest model above `floor`, if any.
fn next_model(models: &Vec<u64>, floor: Option<u64>) -> (r: Option<u64>)
    ensures
        r is None ==> forall|i: int| 0 <= i < models.len() ==> !above(#[trigger] models@[i], floor),
        r matches Some(m) ==> above(m, floor) && models@.contains(m) && forall|i: int|
            0 <= i < models.len() && above(#[trigger] models@[i], floor) ==> m <= models@[i],
{
    let mut best: Option<u64> = None;
    let mut i: usize = 0;
    while i < models.len()
        invariant
            i <= models.len(),
            best is None ==> forall|j: int| 0 <= j < i ==> !above(#[trigger] models@[j], floor),
            best matches Some(m) ==> above(m, floor) && models@.contains(m) && forall|j: int|
                0 <= j < i && above(#[trigger] models@[j], floor) ==> m <= models@[j],
        decreases models.len() - i,
    {
        let v = models[i];
        let is_above = match floor {
            None => true,
            Some(p) => v > p,
        };
        if is_above {
            match best {
                None => {
                    best = Some(v);
                },
                Some(m) => {
                    if v < m {
                        best = Some(v);
                    }
                },
            }
        }
        i = i + 1;
    }
    best
}

/// Groups instances by model: a stable sort of the instances by model, cut into
/// one indirect draw per run of equal models. An empty input gives no draws and
/// an empty order.
pub fn batch(models: &Vec<u64>, meshes: &MeshTable) -> (r: InstanceBatch)
    ensures
        is_batch_of(models@, meshes.entries@, meshes.missing, r.order@, r.draws@),
        r.order.len() == models.len(),
        models.len() == 0 ==> r.draws.len() == 0,
{
    let n = models.len();
    let mut order: Vec<usize> = Vec::new();
    let mut draws: Vec<DrawDescriptor> = Vec::new();
    let mut floor: Option<u64> = None;
    loop
        invariant
            n == models.len(),
            floor is None <==> draws.len() == 0,
            floor matches Some(p) ==> p == draw_models(draws@).last(),
            strictly_ascending(draw_models(draws@)),
            forall|k: int|
                0 <= k < draws.len() ==> models@.contains(#[trigger] draw_models(draws@)[k]),
            forall|i: int|
                0 <= i < n && !above(#[trigger] models@[i], floor) ==> draw_models(
                    draws@,
                ).contains(models@[i]),
            order@ == packed_of(models@, draw_models(draws@)),
            forall|k: int|
                0 <= k < draws.len() ==> describes_group(
                    models@,
                    meshes.entries@,
                    meshes.missing,
                    draw_models(draws@),
                    k,
                    #[trigger] draws@[k],
                ),
        ensures
            forall|i: int|
                0 <= i < n ==> draw_models(draws@).contains(#[trigger] models@[i]),
        decreases
            match floor {
                None => u64::MAX as int + 1,
                Some(p) => u64::MAX - p,
            },
    {
        let ghost groups = draw_models(draws@);
        let next = next_model(models, floor);
        let m = match next {
            None => {
                assert forall|i: int| 0 <= i < n implies draw_models(draws@).contains(
                    #[trigger] models@[i],
                ) by {
                    assert(!above(models@[i], floor));
                }
                break ;
            },
            Some(m) => m,
        };
        let first_instance = order.len();
        let mut count: usize = 0;
        let mut j: usize = 0;
        while j < n
            invariant
                n == models.len(),
                j <= n,
                count <= j,
                order@ == packed_of(models@, groups) + indices_with(models@, m, j as nat),
                count == indices_with(models@, m, j as nat).len(),
            decreases n - j,
        {
            if models[j] == m {
                order.push(j);
                count = count + 1;
            }
            j = j + 1;
        }
        let mesh = meshes.mesh(m);
        let draw = DrawDescriptor {
            model: m,
            base_vertex: mesh.base_vertex,
            first_index: mesh.first_index,
            index_count: mesh.index_count,
            first_instance,
            instance_count: count,
        };
        draws.push(draw);
        proof {
            let g2 = draw_models(draws@);
            assert(g2 =~= groups.push(m));
            assert(g2.drop_last() =~= groups);
            assert(g2.take(groups.len() as int) =~= groups);
            assert forall|k: int| 0 <= k < groups.len() implies g2.take(k) =~= groups.take(k) by {}
            assert forall|k: int| 0 <= k < draws.len() implies describes_group(
                models@,
                meshes.entries@,
                meshes.missing,
                g2,
                k,
                #[trigger] draws@[k],
            ) by {
                if k < groups.len() {
                    assert(g2.take(k) =~= groups.take(k));
                }
            }
            assert forall|i: int| 0 <= i < n && !above(#[trigger] models@[i], Some(m)) implies g2.contains(
                models@[i],
            ) by {
                if !above(models@[i], floor) {
                    let k = choose|k: int| 0 <= k < groups.len() && groups[k] == models@[i];
                    assert(g2[k] == models@[i]);
                } else {
                    assert(g2[groups.len() as int] == models@[i]);
                }
            }
            assert forall|k: int| 0 <= k < g2.len() implies models@.contains(#[trigger] g2[k]) by {
                if k < groups.len() {
                    assert(g2[k] == groups[k]);
                }
            }
        }
        floor = Some(m);
    }
    proof {
        lemma_batch_covers_all(models@, meshes.entries@, meshes.missing, order@, draws@);
        if n == 0 && draws.len() > 0 {
            assert(models@.contains(draw_models(draws@)[0]));
        }
    }
    InstanceBatch { order, draws }
}

/// Number of the first `n` instances whose model is among `groups`.
pub open spec fn count_in(models: Seq<u64>, groups: Seq<u64>, n: nat) -> nat
    decreases n,
{
    if n == 0 {
        0
    } else {
        count_in(models, groups, (n - 1) as nat) + if groups.contains(models[n - 1]) {
            1nat
        } else {
            0nat
        }
    }
}

proof fn lemma_count_push(models: Seq<u64>, groups: Seq<u64>, m: u64, n: nat)
    requires
        !groups.contains(m),
        n <= models.len(),
    ensures
        count_in(models, groups.push(m), n) == count_in(models, groups, n) + indices_with(
            models,
            m,
            n,
        ).len(),
    decreases n,
{
    if n > 0 {
        lemma_count_push(models, groups, m, (n - 1) as nat);
        let x = models[n - 1];
        assert(groups.push(m).contains(x) <==> (groups.contains(x) || x == m)) by {
            if groups.push(m).contains(x) {
                let k = choose|k: int| 0 <= k < groups.push(m).len() && groups.push(m)[k] == x;
                if k < groups.len() {
                    assert(groups[k] == x);
                }
            }
            if groups.contains(x) {
                let k = choose|k: int| 0 <= k < groups.len() && groups[k] == x;
                assert(groups.push(m)[k] == x);
            }
            if x == m {
                assert(groups.push(m)[groups.len() as int] == x);
            }
        }
    }
}

proof fn lemma_count_all(models: Seq<u64>, groups: Seq<u64>, n: nat)
    requires
        n <= models.len(),
        forall|i: int| 0 <= i < models.len() ==> groups.contains(#[trigger] models[i]),
    ensures
        count_in(models, groups, n) == n,
    decreases n,
{
    if n > 0 {
        lemma_count_all(models, groups, (n - 1) as nat);
        assert(groups.contains(models[n - 1]));
    }
}

proof fn lemma_packed_len(models: Seq<u64>, groups: Seq<u64>)
    requires
        strictly_ascending(groups),
    ensures
        packed_of(models, groups).len() == count_in(models, groups, models.len()),
    decreases groups.len(),
{
    if groups.len() == 0 {
        lemma_count_none(models, groups, models.len());
    } else {
        let init = groups.drop_last();
        let m = groups.last();
        assert(strictly_ascending(init));
        lemma_packed_len(models, init);
        assert(!init.contains(m)) by {
            if init.contains(m) {
                let k = choose|k: int| 0 <= k < init.len() && init[k] == m;
                assert(groups[k] < groups[groups.len() - 1]);
            }
        }
        assert(init.push(m) =~= groups);
        lemma_count_push(models, init, m, models.len());
    }
}

proof fn lemma_count_none(models: Seq<u64>, groups: Seq<u64>, n: nat)
    requires
        groups.len() == 0,
    ensures
        count_in(models, groups, n) == 0,
    decreases n,
{
    if n > 0 {
        lemma_count_none(models, groups, (n - 1) as nat);
    }
}

/// A batch has one slot per instance: its order is as long as the input.
pub proof fn lemma_batch_covers_all(
    models: Seq<u64>,
    table: Seq<(u64, MeshRange)>,
    missing: MeshRange,
    order: Seq<usize>,
    draws: Seq<DrawDescriptor>,
)
    requires
        is_batch_of(models, table, missing, order, draws),
    ensures
        order.len() == models.len(),
{
    let groups = draw_models(draws);
    lemma_packed_len(models, groups);
    lemma_count_all(models, groups, models.len());
}

proof fn lemma_indices_contain(models: Seq<u64>, m: u64, n: nat, k: int)
    requires
        0 <= k < n,
        n <= models.len(),
        models[k] == m,
    ensures
        indices_with(models, m, n).contains(k as usize),
    decreases n,
{
    let last = indices_with(models, m, n);
    if k == n - 1 {
        assert(last[last.len() - 1] == k as usize);
    } else {
        lemma_indices_contain(models, m, (n - 1) as nat, k);
        let prev = indices_with(models, m, (n - 1) as nat);
        let j = choose|j: int| 0 <= j < prev.len() && prev[j] == k as usize;
        assert(last[j] == k as usize);
    }
}

proof fn lemma_packed_contains(models: Seq<u64>, groups: Seq<u64>, k: int)
    requires
        0 <= k < models.len(),
        groups.contains(models[k]),
    ensures
        packed_of(models, groups).contains(k as usize),
    decreases groups.len(),
{
    let init = groups.drop_last();
    let whole = packed_of(models, groups);
    let head = packed_of(models, init);
    if groups.last() == models[k] {
        lemma_indices_contain(models, models[k], models.len(), k);
        let tail = indices_with(models, models[k], models.len());
        let j = choose|j: int| 0 <= j < tail.len() && tail[j] == k as usize;
        assert(whole[head.len() + j] == k as usize);
    } else {
        let g = choose|g: int| 0 <= g < groups.len() && groups[g] == models[k];
        assert(init[g] == models[k]);
        lemma_packed_contains(models, init, k);
        let j = choose|j: int| 0 <= j < head.len() && head[j] == k as usize;
        assert(whole[j] == k as usize);
    }
}

/// Every instance has a slot in its batch.
pub proof fn lemma_batch_places_every_instance(
    models: Seq<u64>,
    table: Seq<(u64, MeshRange)>,
    missing: MeshRange,
    order: Seq<usize>,
    draws: Seq<DrawDescriptor>,
    k: int,
)
    requires
        is_batch_of(models, table, missing, order, draws),
        0 <= k < models.len(),
    ensures
        order.contains(k as usize),
{
    lemma_packed_contains(models, draw_models(draws), k);
}

/// The draw of each instance on its own, in input order: its model's mesh
/// range over the one slot that `batch` gave the instance. Objects embedded in
/// the GUI are drawn this way, each where its layout puts it.
pub fn element_draws(models: &Vec<u64>, meshes: &MeshTable, batched: &InstanceBatch) -> (r: Vec<DrawDescriptor>)
    requires
        is_batch_of(models@, meshes.entries@, meshes.missing, batched.order@, batched.draws@),
    ensures
        r.len() == models.len(),
        forall|k: int|
            0 <= k < models.len() ==> {
                let mesh = mesh_of(meshes.entries@, meshes.missing, models@[k]);
                &&& (#[trigger] r@[k]).model == models@[k]
                &&& r@[k].base_vertex == mesh.base_vertex
                &&& r@[k].first_index == mesh.first_index
                &&& r@[k].index_count == mesh.index_count
                &&& r@[k].first_instance < batched.order.len()
                &&& batched.order@[r@[k].first_instance as int] == k
                &&& r@[k].instance_count == 1
            },
{
    let n = models.len();
    let order = &batched.order;
    proof {
        lemma_batch_covers_all(models@, meshes.entries@, meshes.missing, order@, batched.draws@);
    }
    let mut slots: Vec<usize> = Vec::new();
    let mut i: usize = 0;
    while i < n
        invariant
            i <= n,
            slots.len() == i,
            forall|j: int| 0 <= j < i ==> #[trigger] slots@[j] == 0,
        decreases n - i,
    {
        slots.push(0);
        i = i + 1;
    }
    let mut p: usize = 0;
    while p < n
        invariant
            n == models.len(),
            order.len() == n,
            p <= n,
            slots.len() == n,
            is_batch_of(models@, meshes.entries@, meshes.missing, order@, batched.draws@),
            forall|k: int|
                0 <= k < n && (exists|q: int| 0 <= q < p && order@[q] == k as usize) ==> (
                #[trigger] slots@[k]) < n && order@[slots@[k] as int] == k as usize,
        decreases n - p,
    {
        let k = order[p];
        if k < n {
            let ghost before = slots@;
            slots.set(k, p);
            assert forall|k2: int|
                0 <= k2 < n && (exists|q: int| 0 <= q < p + 1 && order@[q] == k2 as usize) implies (
                #[trigger] slots@[k2]) < n && order@[slots@[k2] as int] == k2 as usize by {
                if k2 != k as int {
                    let q = choose|q: int| 0 <= q < p + 1 && order@[q] == k2 as usize;
                    assert(q != p as int);
                    assert(exists|q: int| 0 <= q < p && order@[q] == k2 as usize);
                    assert(slots@[k2] == before[k2]);
                }
            }
        } else {
            assert forall|k2: int|
                0 <= k2 < n && (exists|q: int| 0 <= q < p + 1 && order@[q] == k2 as usize) implies (
                #[trigger] slots@[k2]) < n && order@[slots@[k2] as int] == k2 as usize by {
                let q = choose|q: int| 0 <= q < p + 1 && order@[q] == k2 as usize;
                assert(q != p as int);
                assert(exists|q: int| 0 <= q < p && order@[q] == k2 as usize);
            }
        }
        p = p + 1;
    }
    let mut r: Vec<DrawDescriptor> = Vec::new();
    let mut k: usize = 0;
    while k < n
        invariant
            n == models.len(),
            order.len() == n,
            k <= n,
            slots.len() == n,
            r.len() == k,
            is_batch_of(models@, meshes.entries@, meshes.missing, order@, batched.draws@),
            forall|k2: int|
                0 <= k2 < n && (exists|q: int| 0 <= q < n && order@[q] == k2 as usize) ==> (
                #[trigger] slots@[k2]) < n && order@[slots@[k2] as int] == k2 as usize,
            forall|j: int|
                0 <= j < k ==> {
                    let mesh = mesh_of(meshes.entries@, meshes.missing, models@[j]);
                    &&& (#[trigger] r@[j]).model == models@[j]
                    &&& r@[j].base_vertex == mesh.base_vertex
                    &&& r@[j].first_index == mesh.first_index
                    &&& r@[j].index_count == mesh.index_count
                    &&& r@[j].first_instance < n
                    &&& order@[r@[j].first_instance as int] == j
                    &&& r@[j].instance_count == 1
                },
        decreases n - k,
    {
        proof {
            lemma_batch_places_every_instance(
                models@,
                meshes.entries@,
                meshes.missing,
                order@,
                batched.draws@,
                k as int,
            );
            let q = choose|q: int| 0 <= q < order.len() && order@[q] == k as usize;
            assert(exists|q: int| 0 <= q < n && order@[q] == k as usize);
        }
        let mesh = meshes.mesh(models[k]);
        r.push(
            DrawDescriptor {
                model: models[k],
                base_vertex: mesh.base_vertex,
                first_index: mesh.first_index,
                index_count: mesh.index_count,
                first_instance: slots[k],
                instance_count: 1,
            },
        );
        k = k + 1;
    }
    r
}

/// Two strictly ascending sequences with the same elements are equal.
proof fn lemma_ascending_unique(s1: Seq<u64>, s2: Seq<u64>)
    requires
        strictly_ascending(s1),
        strictly_ascending(s2),
        forall|x: u64| s1.contains(x) <==> s2.contains(x),
    ensures
        s1 == s2,
{
    let n = if s1.len() < s2.len() { s1.len() } else { s2.len() };
    assert forall|k: int| 0 <= k < n implies s1[k] == s2[k] by {
        lemma_ascending_prefix(s1, s2, k);
    }
    if s1.len() < s2.len() {
        assert(s1.contains(s2[n as int]));
        let j = choose|j: int| 0 <= j < s1.len() && s1[j] == s2[n as int];
        assert(s2[j] == s1[j]);
    } else if s2.len() < s1.len() {
        assert(s2.contains(s1[n as int]));
        let j = choose|j: int| 0 <= j < s2.len() && s2[j] == s1[n as int];
        assert(s1[j] == s2[j]);
    }
    assert(s1 =~= s2);
}

proof fn lemma_ascending_prefix(s1: Seq<u64>, s2: Seq<u64>, k: int)
    requires
        strictly_ascending(s1),
        strictly_ascending(s2),
        forall|x: u64| s1.contains(x) <==> s2.contains(x),
        0 <= k < s1.len(),
        k < s2.len(),
    ensures
        s1[k] == s2[k],
    decreases k,
{
    if k > 0 {
        assert forall|j: int| 0 <= j < k implies s1[j] == s2[j] by {
            lemma_ascending_prefix(s1, s2, j);
        }
    }
    assert(s2.contains(s1[k]));
    let j2 = choose|j: int| 0 <= j < s2.len() && s2[j] == s1[k];
    if j2 < k {
        assert(s1[j2] == s2[j2]);
    }
    assert(s1.contains(s2[k]));
    let j1 = choose|j: int| 0 <= j < s1.len() && s1[j] == s2[k];
    if j1 < k {
        assert(s1[j1] == s2[j1]);
    }
}

/// Batching is deterministic: any two batches of the same instance models
/// against the same mesh table have the same instance order and the same
/// descriptors in the same sequence.
pub proof fn lemma_batch_deterministic(
    models: Seq<u64>,
    table: Seq<(u64, MeshRange)>,
    missing: MeshRange,
    order1: Seq<usize>,
    draws1: Seq<DrawDescriptor>,
    order2: Seq<usize>,
    draws2: Seq<DrawDescriptor>,
)
    requires
        is_batch_of(models, table, missing, order1, draws1),
        is_batch_of(models, table, missing, order2, draws2),
    ensures
        order1 == order2,
        draws1 == draws2,
{
    let g1 = draw_models(draws1);
    let g2 = draw_models(draws2);
    assert forall|x: u64| g1.contains(x) <==> g2.contains(x) by {
        if g1.contains(x) {
            let k = choose|k: int| 0 <= k < g1.len() && g1[k] == x;
            assert(models.contains(g1[k]));
            let i = choose|i: int| 0 <= i < models.len() && models[i] == x;
            assert(g2.contains(models[i]));
        }
        if g2.contains(x) {
            let k = choose|k: int| 0 <= k < g2.len() && g2[k] == x;
            assert(models.contains(g2[k]));
            let i = choose|i: int| 0 <= i < models.len() && models[i] == x;
            assert(g1.contains(models[i]));
        }
    }
    lemma_ascending_unique(g1, g2);
    assert forall|k: int| 0 <= k < draws1.len() implies draws1[k] == draws2[k] by {
        assert(describes_group(models, table, missing, g1, k, draws1[k]));
        assert(describes_group(models, table, missing, g2, k, draws2[k]));
    }
    assert(draws1 =~= draws2);
}

} // verus!
