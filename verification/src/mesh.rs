use vstd::prelude::*;

verus! {

/// The number of slots of the fixed arrays handed to the shaders.
pub const MAX_OBJECTS: usize = 128;

/// A coloured triangle, its corners given by their coordinates.
#[derive(Clone, Copy, Debug)]
pub struct Triangle<T> {
    pub color: [T; 4],
    pub vertex0: [T; 3],
    pub vertex1: [T; 3],
    pub vertex2: [T; 3],
}

/// A triangle mesh as a model file gives it: three coordinates per vertex in
/// `positions`, and three vertex numbers per triangle in `indices`.
pub struct Mesh<T> {
    pub positions: Vec<T>,
    pub indices: Vec<u32>,
}

/// The number of whole triangles that `indices` describe.
pub open spec fn triangle_count(indices: Seq<u32>) -> int {
    indices.len() as int / 3
}

/// Every vertex number of a whole triangle names a vertex of `positions`.
pub open spec fn mesh_in_bounds<T>(positions: Seq<T>, indices: Seq<u32>) -> bool {
    forall|i: int|
        0 <= i < 3 * triangle_count(indices) ==> 3 * (#[trigger] indices[i]) + 2 < positions.len()
}

/// The coordinates of vertex `v`.
pub open spec fn corner<T>(positions: Seq<T>, v: u32) -> [T; 3] {
    [positions[3 * v], positions[3 * v + 1], positions[3 * v + 2]]
}

/// Triangle `n` of a mesh, in `color`.
pub open spec fn mesh_triangle<T>(positions: Seq<T>, indices: Seq<u32>, n: int, color: [T; 4]) -> Triangle<T> {
    Triangle {
        color,
        vertex0: corner(positions, indices[3 * n]),
        vertex1: corner(positions, indices[3 * n + 1]),
        vertex2: corner(positions, indices[3 * n + 2]),
    }
}

/// The whole triangles of a mesh, in order, in `color`.
pub open spec fn mesh_triangles_spec<T>(positions: Seq<T>, indices: Seq<u32>, color: [T; 4]) -> Seq<Triangle<T>> {
    Seq::new(triangle_count(indices) as nat, |n: int| mesh_triangle(positions, indices, n, color))
}

/// The coordinates of vertex `v`.
fn corner_of<T: Copy>(positions: &Vec<T>, v: u32) -> (c: [T; 3])
    requires
        3 * v + 2 < positions@.len(),
    ensures
        c == corner(positions@, v),
{
    let len = positions.len();
    assert(3 * v + 2 < len);
    let base = v as usize * 3;
    [positions[base], positions[base + 1], positions[base + 2]]
}

/// The whole triangles of `mesh`, in order, each in `color`; indices past the
/// last whole triangle are left out.
pub fn mesh_triangles<T: Copy>(mesh: &Mesh<T>, color: [T; 4]) -> (triangles: Vec<Triangle<T>>)
    requires
        mesh_in_bounds(mesh.positions@, mesh.indices@),
    ensures
        triangles@ == mesh_triangles_spec(mesh.positions@, mesh.indices@, color),
{
    let count = mesh.indices.len() / 3;
    let mut triangles: Vec<Triangle<T>> = Vec::new();
    let mut n: usize = 0;
    while n < count
        invariant
            count == triangle_count(mesh.indices@),
            mesh_in_bounds(mesh.positions@, mesh.indices@),
            n <= count,
            triangles@ == mesh_triangles_spec(mesh.positions@, mesh.indices@, color).take(n as int),
        decreases count - n,
    {
        let len = mesh.indices.len();
        assert(3 * n + 2 < len);
        let i = 3 * n;
        let i0 = mesh.indices[i];
        let i1 = mesh.indices[i + 1];
        let i2 = mesh.indices[i + 2];
        assert(3 * mesh.indices@[i as int] + 2 < mesh.positions@.len());
        assert(3 * mesh.indices@[i + 1] + 2 < mesh.positions@.len());
        assert(3 * mesh.indices@[i + 2] + 2 < mesh.positions@.len());
        let t = Triangle {
            color,
            vertex0: corner_of(&mesh.positions, i0),
            vertex1: corner_of(&mesh.positions, i1),
            vertex2: corner_of(&mesh.positions, i2),
        };
        triangles.push(t);
        n = n + 1;
        assert(triangles@ =~= mesh_triangles_spec(mesh.positions@, mesh.indices@, color).take(n as int));
    }
    triangles
}

/// `slots` with its first `items.len()` slots replaced by `items`.
pub open spec fn overwrite_prefix<X>(slots: Seq<X>, items: Seq<X>) -> Seq<X> {
    items + slots.skip(items.len() as int)
}

/// Writes `items` into the first slots of `slots`, leaving the others.
pub fn write_slots<X: Copy>(slots: &mut [X; MAX_OBJECTS], items: &Vec<X>)
    requires
        items@.len() <= MAX_OBJECTS,
    ensures
        final(slots)@ == overwrite_prefix(old(slots)@, items@),
        forall|j: int| 0 <= j < items@.len() ==> #[trigger] final(slots)@[j] == items@[j],
        forall|j: int| items@.len() <= j < MAX_OBJECTS ==> #[trigger] final(slots)@[j] == old(slots)@[j],
{
    let n = items.len();
    let mut i: usize = 0;
    while i < n
        invariant
            n == items@.len(),
            n <= MAX_OBJECTS,
            i <= n,
            slots@.len() == MAX_OBJECTS,
            forall|j: int| 0 <= j < i ==> slots@[j] == items@[j],
            forall|j: int| i <= j < MAX_OBJECTS ==> slots@[j] == old(slots)@[j],
        decreases n - i,
    {
        slots[i] = items[i];
        i = i + 1;
    }
    assert(slots@ =~= overwrite_prefix(old(slots)@, items@));
}

/// `items` followed by as many copies of `blank` as fill the fixed array.
pub open spec fn padded<X>(items: Seq<X>, blank: X) -> Seq<X> {
    items + Seq::new((MAX_OBJECTS - items.len()) as nat, |i: int| blank)
}

/// The fixed array of the shaders' uniform: `items` in the first slots, in
/// order, and `blank` in the others.
pub fn uniform_array<X: Copy>(items: &Vec<X>, blank: X) -> (slots: [X; MAX_OBJECTS])
    requires
        items@.len() <= MAX_OBJECTS,
    ensures
        slots@ == padded(items@, blank),
        forall|j: int| 0 <= j < items@.len() ==> #[trigger] slots@[j] == items@[j],
        forall|j: int| items@.len() <= j < MAX_OBJECTS ==> #[trigger] slots@[j] == blank,
{
    let mut slots = [blank; MAX_OBJECTS];
    write_slots(&mut slots, items);
    assert(slots@ =~= padded(items@, blank));
    slots
}

/// The triangle slots after loading `meshes` one after the other into slots
/// that start out `blank`: the triangles of each mesh overwrite the first
/// slots, so that a later mesh hides the start of an earlier one.
pub open spec fn loaded_triangles<T>(meshes: Seq<Mesh<T>>, color: [T; 4], blank: Triangle<T>) -> Seq<
    Triangle<T>,
>
    decreases meshes.len(),
{
    if meshes.len() == 0 {
        Seq::new(MAX_OBJECTS as nat, |i: int| blank)
    } else {
        let last = meshes.last();
        overwrite_prefix(
            loaded_triangles(meshes.drop_last(), color, blank),
            mesh_triangles_spec(last.positions@, last.indices@, color),
        )
    }
}

/// Whether `mesh` can be loaded: every vertex number of a whole triangle
/// names a vertex it has, and its triangles fit in the slots.
pub fn mesh_loadable<T>(mesh: &Mesh<T>) -> (ok: bool)
    ensures
        ok == (mesh_in_bounds(mesh.positions@, mesh.indices@) && triangle_count(mesh.indices@)
            <= MAX_OBJECTS),
        ok == ((forall|i: int|
            0 <= i < 3 * (mesh.indices@.len() / 3) ==> 3 * (#[trigger] mesh.indices@[i]) + 2
                < mesh.positions@.len()) && mesh.indices@.len() / 3 <= 128),
{
    let count = mesh.indices.len() / 3;
    if count > MAX_OBJECTS {
        return false;
    }
    let vertices = mesh.positions.len() as u64;
    let mut i: usize = 0;
    while i < 3 * count
        invariant
            count == triangle_count(mesh.indices@),
            count <= MAX_OBJECTS,
            vertices == mesh.positions@.len(),
            i <= 3 * count,
            forall|j: int| 0 <= j < i ==> 3 * (#[trigger] mesh.indices@[j]) + 2 < mesh.positions@.len(),
        decreases 3 * count - i,
    {
        let v = mesh.indices[i] as u64;
        if 3 * v + 2 >= vertices {
            return false;
        }
        i = i + 1;
    }
    true
}

/// Every mesh of `meshes` names only vertices it has and fits in the slots.
pub open spec fn meshes_loadable<T>(meshes: Seq<Mesh<T>>) -> bool {
    forall|m: int|
        0 <= m < meshes.len() ==> {
            &&& mesh_in_bounds((#[trigger] meshes[m]).positions@, meshes[m].indices@)
            &&& triangle_count(meshes[m].indices@) <= MAX_OBJECTS
        }
}

/// The triangle slots of a model file whose meshes are `meshes`, every
/// triangle in `color`, slots that no triangle reaches left `blank`.
pub fn triangles_from_meshes<T: Copy>(
    meshes: &Vec<Mesh<T>>,
    color: [T; 4],
    blank: Triangle<T>,
) -> (slots: [Triangle<T>; MAX_OBJECTS])
    requires
        meshes_loadable(meshes@),
    ensures
        slots@ == loaded_triangles(meshes@, color, blank),
{
    let mut slots = [blank; MAX_OBJECTS];
    assert(slots@ =~= loaded_triangles(meshes@.take(0), color, blank));
    let mut m: usize = 0;
    while m < meshes.len()
        invariant
            m <= meshes@.len(),
            meshes_loadable(meshes@),
            slots@ == loaded_triangles(meshes@.take(m as int), color, blank),
        decreases meshes@.len() - m,
    {
        let mesh = &meshes[m];
        assert(meshes@[m as int] == *mesh);
        let triangles = mesh_triangles(mesh, color);
        write_slots(&mut slots, &triangles);
        assert(meshes@.take(m + 1).drop_last() =~= meshes@.take(m as int));
        m = m + 1;
    }
    assert(meshes@.take(meshes@.len() as int) =~= meshes@);
    slots
}

/// Which triangle a loaded slot holds: slot `s` holds triangle `s` of the last
/// mesh that has more than `s` triangles, or `blank` when no mesh has.
pub proof fn lemma_loaded_slot<T>(
    meshes: Seq<Mesh<T>>,
    color: [T; 4],
    blank: Triangle<T>,
    s: int,
)
    requires
        0 <= s < MAX_OBJECTS,
        meshes_loadable(meshes),
    ensures
        (forall|m: int| 0 <= m < meshes.len() ==> s >= triangle_count(
            (#[trigger] meshes[m]).indices@,
        )) ==> loaded_triangles(meshes, color, blank)[s] == blank,
        forall|m: int|
            0 <= m < meshes.len() && s < triangle_count((#[trigger] meshes[m]).indices@) && (forall|
                later: int,
            |
                m < later < meshes.len() ==> s >= triangle_count(
                    (#[trigger] meshes[later]).indices@,
                )) ==> loaded_triangles(meshes, color, blank)[s] == mesh_triangle(
                meshes[m].positions@,
                meshes[m].indices@,
                s,
                color,
            ),
    decreases meshes.len(),
{
    if meshes.len() > 0 {
        let rest = meshes.drop_last();
        let last = meshes.last();
        assert(meshes_loadable(rest)) by {
            assert forall|m: int| 0 <= m < rest.len() implies {
                &&& mesh_in_bounds((#[trigger] rest[m]).positions@, rest[m].indices@)
                &&& triangle_count(rest[m].indices@) <= MAX_OBJECTS
            } by {
                assert(rest[m] == meshes[m]);
            }
        }
        lemma_loaded_slot(rest, color, blank, s);
        lemma_loaded_len(rest, color, blank);
        let n = meshes.len() - 1;
        assert(meshes[n] == last);
        let tris = mesh_triangles_spec(last.positions@, last.indices@, color);
        let loaded = loaded_triangles(meshes, color, blank);
        let before = loaded_triangles(rest, color, blank);
        assert(loaded == overwrite_prefix(before, tris));
        if s >= tris.len() {
            assert(loaded[s] == before[s]);
        }
        assert forall|m: int|
            0 <= m < meshes.len() && s < triangle_count((#[trigger] meshes[m]).indices@) && (forall|
                later: int,
            |
                m < later < meshes.len() ==> s >= triangle_count(
                    (#[trigger] meshes[later]).indices@,
                )) implies loaded[s] == mesh_triangle(
            meshes[m].positions@,
            meshes[m].indices@,
            s,
            color,
        ) by {
            if m < n {
                assert(s >= triangle_count(meshes[n].indices@));
                assert(rest[m] == meshes[m]);
                assert forall|later: int| m < later < rest.len() implies s >= triangle_count(
                    (#[trigger] rest[later]).indices@,
                ) by {
                    assert(rest[later] == meshes[later]);
                }
            }
        }
    }
}

/// Loading always fills exactly the fixed number of slots.
proof fn lemma_loaded_len<T>(meshes: Seq<Mesh<T>>, color: [T; 4], blank: Triangle<T>)
    requires
        meshes_loadable(meshes),
    ensures
        loaded_triangles(meshes, color, blank).len() == MAX_OBJECTS,
    decreases meshes.len(),
{
    if meshes.len() > 0 {
        let rest = meshes.drop_last();
        assert(meshes_loadable(rest)) by {
            assert forall|m: int| 0 <= m < rest.len() implies {
                &&& mesh_in_bounds((#[trigger] rest[m]).positions@, rest[m].indices@)
                &&& triangle_count(rest[m].indices@) <= MAX_OBJECTS
            } by {
                assert(rest[m] == meshes[m]);
            }
        }
        lemma_loaded_len(rest, color, blank);
        assert(meshes[meshes.len() - 1] == meshes.last());
    }
}

/// Corner `j` of a triangle: 0, 1 or 2.
pub open spec fn vertex_of<T>(t: Triangle<T>, j: int) -> [T; 3] {
    if j == 0 {
        t.vertex0
    } else if j == 1 {
        t.vertex1
    } else {
        t.vertex2
    }
}

/// What the triangles of a mesh are: one for every three vertex numbers, in
/// order, each in the given colour, coordinate `c` of corner `j` of triangle
/// `n` being coordinate `c` of the vertex that the `3n + j`-th vertex number
/// names, that is `positions[3 * indices[3n + j] + c]`.
pub proof fn lemma_mesh_triangle_corners<T>(positions: Seq<T>, indices: Seq<u32>, color: [T; 4])
    ensures
        mesh_triangles_spec(positions, indices, color).len() == indices.len() / 3,
        forall|n: int|
            0 <= n < indices.len() / 3 ==> #[trigger] mesh_triangles_spec(
                positions,
                indices,
                color,
            )[n] == mesh_triangle(positions, indices, n, color),
        forall|n: int| #[trigger] mesh_triangle(positions, indices, n, color).color == color,
        forall|n: int, j: int, c: int|
            0 <= j < 3 && 0 <= c < 3 ==> #[trigger] vertex_of(
                mesh_triangle(positions, indices, n, color),
                j,
            )@[c] == positions[3 * indices[3 * n + j] + c],
{
    assert forall|n: int, j: int, c: int| 0 <= j < 3 && 0 <= c < 3 implies #[trigger] vertex_of(
        mesh_triangle(positions, indices, n, color),
        j,
    )@[c] == positions[3 * indices[3 * n + j] + c] by {
        let v = indices[3 * n + j];
        let k = corner(positions, v);
        assert(vertex_of(mesh_triangle(positions, indices, n, color), j) == k);
        assert(k@[0] == positions[3 * v]);
        assert(k@[1] == positions[3 * v + 1]);
        assert(k@[2] == positions[3 * v + 2]);
    }
}

} // verus!
