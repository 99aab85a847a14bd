//! How the meshes of the scene are packed into the buffers the renderer reads: one index
//! buffer for all meshes, each index offset by the vertices of the meshes before it.
use vstd::prelude::*;
use std::collections::HashMap;

verus! {

broadcast use vstd::std_specs::hash::group_hash_axioms;

/// The indices of a mesh and the number of its vertices.
pub struct MeshIndices {
    /// The mesh's identity, by which the objects of the scene name it.
    pub id: u64,
    pub indices: Vec<u32>,
    pub vertex_count: usize,
}

/// The number of vertices of the first `k` meshes.
pub open spec fn vertex_base(meshes: Seq<MeshIndices>, k: int) -> int
    decreases k,
{
    if k <= 0 { 0 } else { vertex_base(meshes, k - 1) + meshes[k - 1].vertex_count }
}

/// The number of indices of the first `k` meshes.
pub open spec fn index_base(meshes: Seq<MeshIndices>, k: int) -> int
    decreases k,
{
    if k <= 0 { 0 } else { index_base(meshes, k - 1) + meshes[k - 1].indices@.len() }
}

/// An index of mesh `k` as the packed buffer holds it.
pub open spec fn shifted(meshes: Seq<MeshIndices>, k: int, index: u32) -> i32 {
    ((index as i32) + (vertex_base(meshes, k) as i32)) as i32
}

/// The indices of the first `k` meshes, packed.
pub open spec fn packed(meshes: Seq<MeshIndices>, k: int) -> Seq<i32>
    decreases k,
{
    if k <= 0 {
        Seq::empty()
    } else {
        packed(meshes, k - 1) + meshes[k - 1].indices@.map_values(|i: u32| shifted(meshes, k - 1, i))
    }
}

/// Whether packing stays within bounds: the vertex total fits a `usize` and no shifted index
/// leaves the range of `i32`.
pub open spec fn packing_fits(meshes: Seq<MeshIndices>) -> bool {
    &&& vertex_base(meshes, meshes.len() as int) <= usize::MAX
    &&& index_base(meshes, meshes.len() as int) <= usize::MAX
    &&& forall|k: int, j: int| 0 <= k < meshes.len() && 0 <= j < meshes[k].indices@.len() ==>
        i32::MIN <= (#[trigger] meshes[k].indices@[j]) as i32 + (vertex_base(meshes, k) as i32) <= i32::MAX
}

/// Packed indices, and where each mesh's indices start.
pub struct PackedIndices {
    pub indices: Vec<i32>,
    pub first_index: Vec<i32>,
}

proof fn lemma_bases_monotonic(meshes: Seq<MeshIndices>, k: int, n: int)
    requires
        0 <= k <= n <= meshes.len(),
    ensures
        vertex_base(meshes, k) <= vertex_base(meshes, n),
        index_base(meshes, k) <= index_base(meshes, n),
        0 <= vertex_base(meshes, k),
        0 <= index_base(meshes, k),
    decreases n - k,
{
    lemma_bases_nonneg(meshes, k);
    if k < n {
        lemma_bases_monotonic(meshes, k, n - 1);
    }
}

proof fn lemma_bases_nonneg(meshes: Seq<MeshIndices>, k: int)
    ensures
        0 <= vertex_base(meshes, k),
        0 <= index_base(meshes, k),
    decreases k,
{
    if k > 0 {
        lemma_bases_nonneg(meshes, k - 1);
    }
}

proof fn lemma_packed_len(meshes: Seq<MeshIndices>, k: int)
    requires
        0 <= k <= meshes.len(),
    ensures
        packed(meshes, k).len() == index_base(meshes, k),
    decreases k,
{
    if k > 0 {
        lemma_packed_len(meshes, k - 1);
    }
}

/// Packs the indices of `meshes`, in order.
pub fn pack_indices(meshes: &[MeshIndices]) -> (r: PackedIndices)
    requires
        packing_fits(meshes@),
    ensures
        r.indices@ == packed(meshes@, meshes@.len() as int),
        r.first_index@.len() == meshes@.len(),
        forall|k: int| 0 <= k < meshes@.len() ==> #[trigger] r.first_index@[k] == index_base(meshes@, k) as i32,
{
    let mut indices: Vec<i32> = Vec::new();
    let mut first_index: Vec<i32> = Vec::new();
    let mut vertices: usize = 0;
    let mut k: usize = 0;
    while k < meshes.len()
        invariant
            k <= meshes@.len(),
            packing_fits(meshes@),
            vertices == vertex_base(meshes@, k as int),
            indices@ == packed(meshes@, k as int),
            first_index@.len() == k,
            forall|j: int| 0 <= j < k ==> #[trigger] first_index@[j] == index_base(meshes@, j) as i32,
        decreases meshes.len() - k,
    {
        proof {
            lemma_packed_len(meshes@, k as int);
            lemma_bases_monotonic(meshes@, k as int + 1, meshes@.len() as int);
        }
        let mesh = &meshes[k];
        first_index.push(indices.len() as i32);
        let base = vertices as i32;
        let ghost before = indices@;
        let mut j: usize = 0;
        while j < mesh.indices.len()
            invariant
                j <= mesh.indices@.len(),
                *mesh == meshes@[k as int],
                k < meshes@.len(),
                packing_fits(meshes@),
                base == vertex_base(meshes@, k as int) as i32,
                indices@ == before + mesh.indices@.take(j as int).map_values(|i: u32| shifted(meshes@, k as int, i)),
            decreases mesh.indices.len() - j,
        {
            let index = mesh.indices[j];
            assert(i32::MIN <= (meshes@[k as int].indices@[j as int]) as i32 + (vertex_base(meshes@, k as int) as i32) <= i32::MAX);
            indices.push(index as i32 + base);
            assert(mesh.indices@.take(j + 1).map_values(|i: u32| shifted(meshes@, k as int, i))
                == mesh.indices@.take(j as int).map_values(|i: u32| shifted(meshes@, k as int, i)).push(shifted(meshes@, k as int, index)));
            j = j + 1;
        }
        assert(mesh.indices@.take(mesh.indices@.len() as int) == mesh.indices@);
        vertices = vertices + mesh.vertex_count;
        k = k + 1;
    }
    PackedIndices { indices, first_index }
}

/// How one mesh of the scene is drawn: where its indices start in the packed buffer, how many
/// there are, and the material it is drawn with.
#[derive(Clone, Copy, Debug, PartialEq, Eq, Structural)]
pub struct MeshDraw {
    pub first_index: i32,
    pub num_indices: i32,
    pub material: i32,
}

/// The position among the first `n` meshes of the last one with identity `id`, or -1 where
/// none has it (a later mesh of the same identity takes the place of an earlier one).
pub open spec fn last_with_id(meshes: Seq<MeshIndices>, id: u64, n: int) -> int
    decreases n,
{
    if n <= 0 {
        -1
    } else if meshes[n - 1].id == id {
        n - 1
    } else {
        last_with_id(meshes, id, n - 1)
    }
}

proof fn lemma_last_with_id_range(meshes: Seq<MeshIndices>, id: u64, n: int)
    requires
        0 <= n <= meshes.len(),
    ensures
        -1 <= last_with_id(meshes, id, n) < n,
        last_with_id(meshes, id, n) >= 0 ==> meshes[last_with_id(meshes, id, n)].id == id,
    decreases n,
{
    if n > 0 {
        lemma_last_with_id_range(meshes, id, n - 1);
    }
}

/// The draw of the `j`-th mesh drawn, the mesh of identity `id`: its indices start where those
/// of the last registered mesh of that identity do, and the `j`-th material is its own.
pub open spec fn mesh_draw(meshes: Seq<MeshIndices>, first_index: Seq<i32>, id: u64, j: int) -> MeshDraw {
    let k = last_with_id(meshes, id, meshes.len() as int);
    MeshDraw {
        first_index: first_index[k],
        num_indices: meshes[k].indices@.len() as i32,
        material: j as i32,
    }
}

/// The draws of the meshes of the scene, in order: `drawn` names, for each mesh of each object,
/// its identity, which one of `meshes` must have; their packed indices start as
/// `packed.first_index` says.
pub fn mesh_draws(meshes: &[MeshIndices], packed: &PackedIndices, drawn: &[u64]) -> (r: Vec<MeshDraw>)
    requires
        packed.first_index@.len() == meshes@.len(),
        forall|j: int| 0 <= j < drawn@.len() ==> last_with_id(meshes@, #[trigger] drawn@[j], meshes@.len() as int) >= 0,
    ensures
        r@.len() == drawn@.len(),
        forall|j: int| 0 <= j < drawn@.len() ==> #[trigger] r@[j] == mesh_draw(meshes@, packed.first_index@, drawn@[j], j),
{
    let mut by_id: HashMap<u64, usize> = HashMap::new();
    let mut k: usize = 0;
    while k < meshes.len()
        invariant
            k <= meshes@.len(),
            forall|id: u64| #[trigger] by_id@.contains_key(id) <==> last_with_id(meshes@, id, k as int) >= 0,
            forall|id: u64| by_id@.contains_key(id) ==> #[trigger] by_id@[id] == last_with_id(meshes@, id, k as int),
        decreases meshes.len() - k,
    {
        by_id.insert(meshes[k].id, k);
        k = k + 1;
    }
    let mut r: Vec<MeshDraw> = Vec::new();
    let mut j: usize = 0;
    while j < drawn.len()
        invariant
            j <= drawn@.len(),
            packed.first_index@.len() == meshes@.len(),
            forall|i: int| 0 <= i < drawn@.len() ==> last_with_id(meshes@, #[trigger] drawn@[i], meshes@.len() as int) >= 0,
            forall|id: u64| #[trigger] by_id@.contains_key(id) <==> last_with_id(meshes@, id, meshes@.len() as int) >= 0,
            forall|id: u64| by_id@.contains_key(id) ==> #[trigger] by_id@[id] == last_with_id(meshes@, id, meshes@.len() as int),
            r@.len() == j,
            forall|i: int| 0 <= i < j ==> #[trigger] r@[i] == mesh_draw(meshes@, packed.first_index@, drawn@[i], i),
        decreases drawn.len() - j,
    {
        let id = drawn[j];
        proof {
            assert(last_with_id(meshes@, drawn@[j as int], meshes@.len() as int) >= 0);
            lemma_last_with_id_range(meshes@, id, meshes@.len() as int);
        }
        let mesh: usize = match by_id.get(&id) {
            Some(m) => *m,
            None => {
                assert(false);
                0
            },
        };
        r.push(MeshDraw {
            first_index: packed.first_index[mesh],
            num_indices: meshes[mesh].indices.len() as i32,
            material: j as i32,
        });
        j = j + 1;
    }
    r
}

/// Each value followed by three zeros, as a buffer of 16-byte elements lays it out.
pub open spec fn padded(values: Seq<i32>) -> Seq<i32>
    decreases values.len(),
{
    if values.len() == 0 {
        Seq::empty()
    } else {
        padded(values.drop_last()) + seq![values.last(), 0i32, 0i32, 0i32]
    }
}

/// Lays `values` out as 16-byte elements.
pub fn pad_to_vec4(values: &[i32]) -> (r: Vec<i32>)
    ensures
        r@ == padded(values@),
{
    let mut r: Vec<i32> = Vec::new();
    let mut i: usize = 0;
    while i < values.len()
        invariant
            i <= values@.len(),
            r@ == padded(values@.take(i as int)),
        decreases values.len() - i,
    {
        assert(values@.take(i + 1).drop_last() == values@.take(i as int));
        r.push(values[i]);
        r.push(0);
        r.push(0);
        r.push(0);
        i = i + 1;
    }
    assert(values@.take(values.len() as int) == values@);
    r
}

/// The header of a buffer of `count` elements: the count, then three zeros.
pub fn count_header(count: usize) -> (r: Vec<i32>)
    ensures
        r@ == seq![count as i32, 0i32, 0i32, 0i32],
{
    vec![count as i32, 0, 0, 0]
}

} // verus!
