//! The mesh of one scene part: its triangles, each with the shading of its
//! polygon's material slot, its texture coordinates (for a textured
//! shading) and its normals (from the normal layer, or the face normal).
use vstd::prelude::*;
use vstd::string::*;
use crate::error::{ConversionError, feature_result, is_feature_error};
use crate::mesh::{
    AttributeLayer, LayerMapping, MaterialLayer, ReferenceType, TriangulatedFace, faces_from,
    indices_in_range, polygons_closed,
    resolve_material_slot, spec_material_slot, spec_resolve, triangulate_polygons,
};
use crate::objects::Geometry;
use crate::text::{concat, decimal, is_blank, spec_is_blank, string_from};

verus! {

/// A triangle of a mesh part, as the IDTF document lists it.
#[derive(Clone, Copy, Debug, PartialEq, Eq)]
pub struct SceneTriangle {
    pub position_indices: [usize; 3],
    pub normal_indices: [usize; 3],
    pub shading_index: usize,
    pub texture_coord_indices: Option<[usize; 3]>,
}

/// A normal of a mesh part: read from the normal layer, or the face normal
/// of a triangle (by its index in the part), computed from its corners.
#[derive(Debug)]
pub enum NormalEntry<N> {
    Stored((N, N, N)),
    Face(usize),
}

/// The triangles, texture coordinates and normals of a mesh part.
#[derive(Debug)]
pub struct PartTopology<N> {
    pub triangles: Vec<SceneTriangle>,
    pub texture_coords: Vec<(N, N)>,
    pub normals: Vec<NormalEntry<N>>,
}

/// The contents of a part topology.
pub struct TopologySpec<N> {
    pub triangles: Seq<SceneTriangle>,
    pub texture_coords: Seq<(N, N)>,
    pub normals: Seq<NormalEntry<N>>,
}

/// The contents of `t`.
pub open spec fn topology_view<N>(t: PartTopology<N>) -> TopologySpec<N> {
    TopologySpec { triangles: t.triangles@, texture_coords: t.texture_coords@, normals: t.normals@ }
}

/// The message of a textured shading on a mesh without UVs.
pub open spec fn missing_uv_message() -> Seq<char> {
    "a diffuse texture is connected, but the mesh is missing LayerElementUV data"@
}

/// The values that the three corners of `f` read from `layer`.
pub open spec fn corner_values<T>(layer: AttributeLayer<T>, f: TriangulatedFace) -> Result<Seq<T>, Seq<char>> {
    match spec_resolve(layer, f.polygon_vertex_indices[0] as int, f.position_indices[0] as int) {
        Err(m) => Err(m),
        Ok(a) => match spec_resolve(
            layer,
            f.polygon_vertex_indices[1] as int,
            f.position_indices[1] as int,
        ) {
            Err(m) => Err(m),
            Ok(b) => match spec_resolve(
                layer,
                f.polygon_vertex_indices[2] as int,
                f.position_indices[2] as int,
            ) {
                Err(m) => Err(m),
                Ok(c) => Ok(seq![a, b, c]),
            },
        },
    }
}

/// The slot of polygon `p` under an optional material layer.
pub open spec fn slot_of(layer: Option<MaterialLayer>, p: int) -> int {
    match layer {
        Some(l) => spec_material_slot(Some(&l), p),
        None => spec_material_slot(None, p),
    }
}

/// The message of a slot past the material bindings.
pub open spec fn slot_message(slot: int, count: int) -> Seq<char> {
    "material layer references slot "@ + decimal(slot as nat) + ", but only "@ + decimal(
        count as nat,
    ) + " material bindings were found"@
}

/// Adding triangle `f` (the `k`-th of the part) to `acc`: its shading is
/// its polygon's material slot; a textured shading reads the three corners'
/// UVs; normals come from the normal layer or stand for the face normal.
pub open spec fn topology_step<N>(g: Geometry<N>, textured: Seq<bool>, f: TriangulatedFace, k: int, acc: TopologySpec<N>) -> Result<TopologySpec<N>, Seq<char>> {
    let slot = slot_of(g.material_layer, f.polygon_index as int);
    if slot >= textured.len() {
        Err(slot_message(slot, textured.len() as int))
    } else {
        let tex: Result<Option<Seq<(N, N)>>, Seq<char>> = if textured[slot] {
            match g.uv_layer {
                None => Err(missing_uv_message()),
                Some(uv) => match corner_values(uv, f) {
                    Err(m) => Err(m),
                    Ok(vs) => Ok(Some(vs)),
                },
            }
        } else {
            Ok(None)
        };
        match tex {
            Err(m) => Err(m),
            Ok(t) => {
                let normals: Result<Seq<NormalEntry<N>>, Seq<char>> = match g.normal_layer {
                    Some(nl) => match corner_values(nl, f) {
                        Err(m) => Err(m),
                        Ok(vs) => Ok(
                            seq![
                                NormalEntry::Stored(vs[0]),
                                NormalEntry::Stored(vs[1]),
                                NormalEntry::Stored(vs[2]),
                            ],
                        ),
                    },
                    None => Ok(
                        seq![
                            NormalEntry::Face(k as usize),
                            NormalEntry::Face(k as usize),
                            NormalEntry::Face(k as usize),
                        ],
                    ),
                };
                match normals {
                    Err(m) => Err(m),
                    Ok(ns) => {
                        let n0 = acc.normals.len();
                        let t0 = acc.texture_coords.len();
                        Ok(
                            TopologySpec {
                                triangles: acc.triangles.push(
                                    SceneTriangle {
                                        position_indices: f.position_indices,
                                        normal_indices: [n0 as usize, (n0 + 1) as usize, (n0 + 2) as usize],
                                        shading_index: slot as usize,
                                        texture_coord_indices: match t {
                                            Some(_) => Some(
                                                [t0 as usize, (t0 + 1) as usize, (t0 + 2) as usize],
                                            ),
                                            None => None,
                                        },
                                    },
                                ),
                                texture_coords: match t {
                                    Some(vs) => acc.texture_coords + vs,
                                    None => acc.texture_coords,
                                },
                                normals: acc.normals + ns,
                            },
                        )
                    },
                }
            },
        }
    }
}

/// Adding the triangles `faces[k..]`.
pub open spec fn topology_from<N>(g: Geometry<N>, textured: Seq<bool>, faces: Seq<TriangulatedFace>, k: int, acc: TopologySpec<N>) -> Result<TopologySpec<N>, Seq<char>>
    decreases faces.len() - k,
{
    if k < 0 || k >= faces.len() {
        Ok(acc)
    } else {
        match topology_step(g, textured, faces[k], k, acc) {
            Err(m) => Err(m),
            Ok(next) => topology_from(g, textured, faces, k + 1, next),
        }
    }
}

/// The mesh of a part built from geometry `g`, whose shadings are textured
/// as `textured` says: refused when a textured shading meets a mesh without
/// UVs or when the polygons cannot be triangulated; else the triangles in
/// polygon order.
pub open spec fn spec_part_topology<N>(g: Geometry<N>, textured: Seq<bool>) -> Result<TopologySpec<N>, Seq<char>> {
    if textured.contains(true) && g.uv_layer is None {
        Err(missing_uv_message())
    } else if !indices_in_range(g.polygon_vertex_indices@, g.vertices@.len() as int) {
        Err("PolygonVertexIndex references a vertex outside the Vertices array"@)
    } else if !polygons_closed(g.polygon_vertex_indices@) {
        Err("PolygonVertexIndex ended with an unterminated polygon"@)
    } else {
        topology_from(
            g,
            textured,
            faces_from(g.polygon_vertex_indices@, 0, 0),
            0,
            TopologySpec { triangles: seq![], texture_coords: seq![], normals: seq![] },
        )
    }
}

fn resolve_corners<T: Copy>(layer: &AttributeLayer<T>, f: &TriangulatedFace, out: &mut Vec<T>) -> (r: Result<(), ConversionError>)
    ensures
        match corner_values(*layer, *f) {
            Ok(vs) => r is Ok && final(out)@ == old(out)@ + vs,
            Err(m) => r is Err && is_feature_error(r->Err_0, m),
        },
{
    let a = match layer.resolve(f.polygon_vertex_indices[0], f.position_indices[0]) {
        Ok(v) => v,
        Err(e) => return Err(e),
    };
    let b = match layer.resolve(f.polygon_vertex_indices[1], f.position_indices[1]) {
        Ok(v) => v,
        Err(e) => return Err(e),
    };
    let c = match layer.resolve(f.polygon_vertex_indices[2], f.position_indices[2]) {
        Ok(v) => v,
        Err(e) => return Err(e),
    };
    let ghost before = out@;
    out.push(a);
    out.push(b);
    out.push(c);
    assert(out@ =~= before + seq![a, b, c]);
    Ok(())
}

proof fn lemma_faces_count(indices: Seq<i32>, start: int, polygon: int)
    requires
        0 <= start,
    ensures
        faces_from(indices, start, polygon).len() <= if start < indices.len() {
            indices.len() - start
        } else {
            0
        },
    decreases indices.len() - start,
{
    if start < indices.len() {
        let end = crate::mesh::next_terminator(indices, start);
        crate::mesh::lemma_next_terminator_bounds(indices, start);
        if end < indices.len() {
            lemma_faces_count(indices, end + 1, polygon + 1);
        }
    }
}

fn any_textured(textured: &Vec<bool>) -> (r: bool)
    ensures
        r == textured@.contains(true),
{
    let mut i: usize = 0;
    while i < textured.len()
        invariant
            i <= textured.len(),
            forall|j: int| 0 <= j < i ==> !textured@[j],
        decreases textured.len() - i,
    {
        if textured[i] {
            return true;
        }
        i = i + 1;
    }
    false
}

/// Builds the triangles of a mesh part from geometry `g`: each polygon is
/// fan-triangulated; each triangle takes the shading of its polygon's
/// material slot (`textured[s]` telling whether shading `s` has a diffuse
/// texture), the UVs of its corners when that shading is textured, and
/// the normals of its corners from the normal layer, or else its face
/// normal.
pub fn build_part_topology<N: Copy>(g: &Geometry<N>, textured: &Vec<bool>) -> (r: Result<PartTopology<N>, ConversionError>)
    requires
        3 * g.polygon_vertex_indices@.len() + 3 < usize::MAX,
    ensures
        match spec_part_topology(*g, textured@) {
            Ok(t) => r is Ok && topology_view(r->Ok_0) == t,
            Err(m) => r is Err && is_feature_error(r->Err_0, m),
        },
{
    if any_textured(textured) && g.uv_layer.is_none() {
        return Err(
            ConversionError::UnsupportedFbxFeature(
                string_from(
                    "a diffuse texture is connected, but the mesh is missing LayerElementUV data",
                ),
            ),
        );
    }
    let faces = match triangulate_polygons(g.polygon_vertex_indices.as_slice(), g.vertices.len()) {
        Ok(f) => f,
        Err(e) => return Err(e),
    };
    proof {
        lemma_faces_count(g.polygon_vertex_indices@, 0, 0);
    }
    let mut topology = PartTopology {
        triangles: Vec::new(),
        texture_coords: Vec::new(),
        normals: Vec::new(),
    };
    let ghost empty = TopologySpec::<N> { triangles: seq![], texture_coords: seq![], normals: seq![] };
    assert(topology_view(topology) =~= empty);
    let mut k: usize = 0;
    while k < faces.len()
        invariant
            k <= faces@.len(),
            faces@.len() <= g.polygon_vertex_indices@.len(),
            3 * g.polygon_vertex_indices@.len() + 3 < usize::MAX,
            !(textured@.contains(true) && g.uv_layer is None),
            indices_in_range(g.polygon_vertex_indices@, g.vertices@.len() as int),
            polygons_closed(g.polygon_vertex_indices@),
            faces@ == faces_from(g.polygon_vertex_indices@, 0, 0),
            empty == (TopologySpec::<N> { triangles: seq![], texture_coords: seq![], normals: seq![] }),
            topology.normals@.len() == 3 * k,
            topology.texture_coords@.len() <= 3 * k,
            topology_from(*g, textured@, faces@, k as int, topology_view(topology)) == topology_from(
                *g,
                textured@,
                faces@,
                0,
                empty,
            ),
        decreases faces@.len() - k,
    {
        let f = &faces[k];
        let slot = match resolve_material_slot(g.material_layer.as_ref(), f.polygon_index, textured.len()) {
            Ok(s) => s,
            Err(e) => {
                proof {
                    let slot_spec = slot_of(g.material_layer, faces@[k as int].polygon_index as int);
                    assert(slot_spec >= textured@.len());
                    assert(is_feature_error(e, slot_message(slot_spec, textured@.len() as int)));
                    let msg = slot_message(slot_spec, textured@.len() as int);
                    assert(topology_step(*g, textured@, faces@[k as int], k as int, topology_view(topology)) == Err::<TopologySpec<N>, Seq<char>>(msg));
                    assert(topology_from(*g, textured@, faces@, k as int, topology_view(topology)) == Err::<TopologySpec<N>, Seq<char>>(msg));
                }
                return Err(e);
            },
        };
        let ghost before = topology_view(topology);
        let t0 = topology.texture_coords.len();
        let texture_coord_indices = if textured[slot] {
            match &g.uv_layer {
                None => {
                    return Err(
                        ConversionError::UnsupportedFbxFeature(
                            string_from(
                                "a diffuse texture is connected, but the mesh is missing LayerElementUV data",
                            ),
                        ),
                    );
                },
                Some(uv) => {
                    match resolve_corners(uv, f, &mut topology.texture_coords) {
                        Ok(()) => {},
                        Err(e) => return Err(e),
                    }
                    Some([t0, t0 + 1, t0 + 2])
                },
            }
        } else {
            None
        };
        let n0 = topology.normals.len();
        match &g.normal_layer {
            Some(nl) => {
                let mut values: Vec<(N, N, N)> = Vec::new();
                match resolve_corners(nl, f, &mut values) {
                    Ok(()) => {},
                    Err(e) => {
                        proof {
                            let msg = corner_values(*nl, *f)->Err_0;
                            assert(topology_step(*g, textured@, faces@[k as int], k as int, before) == Err::<TopologySpec<N>, Seq<char>>(msg));
                            assert(topology_from(*g, textured@, faces@, k as int, before) == Err::<TopologySpec<N>, Seq<char>>(msg));
                        }
                        return Err(e);
                    },
                }
                topology.normals.push(NormalEntry::Stored(values[0]));
                topology.normals.push(NormalEntry::Stored(values[1]));
                topology.normals.push(NormalEntry::Stored(values[2]));
            },
            None => {
                topology.normals.push(NormalEntry::Face(k));
                topology.normals.push(NormalEntry::Face(k));
                topology.normals.push(NormalEntry::Face(k));
            },
        }
        topology.triangles.push(
            SceneTriangle {
                position_indices: f.position_indices,
                normal_indices: [n0, n0 + 1, n0 + 2],
                shading_index: slot,
                texture_coord_indices,
            },
        );
        proof {
            let after = topology_view(topology);
            let expected = topology_step(*g, textured@, faces@[k as int], k as int, before);
            assert(expected is Ok);
            assert(after.normals =~= expected->Ok_0.normals);
            assert(after.texture_coords =~= expected->Ok_0.texture_coords);
            assert(after.triangles =~= expected->Ok_0.triangles);
        }
        k = k + 1;
    }
    Ok(topology)
}

/// The name of a part's mesh resource: the part's base name, else the
/// geometry's name, else `Mesh`, followed by `_Mesh`.
pub open spec fn spec_mesh_resource_name(base_name: Seq<char>, geometry_name: Seq<char>) -> Seq<char> {
    (if !spec_is_blank(base_name) {
        base_name
    } else if !spec_is_blank(geometry_name) {
        geometry_name
    } else {
        "Mesh"@
    }) + "_Mesh"@
}

/// Names the mesh resource of a part.
pub fn mesh_resource_name(base_name: &str, geometry_name: &str) -> (name: String)
    ensures
        name@ == spec_mesh_resource_name(base_name@, geometry_name@),
{
    if !is_blank(base_name) {
        concat(base_name, "_Mesh")
    } else if !is_blank(geometry_name) {
        concat(geometry_name, "_Mesh")
    } else {
        concat("Mesh", "_Mesh")
    }
}

// ---------------------------------------------------------------- laws

/// Every index of a triangle points at an entry that exists: its corners at
/// control points, its normals and texture coordinates at entries of the
/// part's lists, its shading at one of the shadings; and each face normal
/// stands for an existing triangle.
pub open spec fn topology_consistent<N>(t: TopologySpec<N>, vertex_count: int, shading_count: int) -> bool {
    &&& forall|i: int, j: int|
        0 <= i < t.triangles.len() && 0 <= j < 3 ==> {
            &&& (#[trigger] t.triangles[i].position_indices[j]) < vertex_count
            &&& t.triangles[i].normal_indices[j] < t.normals.len()
            &&& (t.triangles[i].texture_coord_indices matches Some(c) ==> c[j] < t.texture_coords.len())
        }
    &&& forall|i: int| 0 <= i < t.triangles.len() ==> (#[trigger] t.triangles[i]).shading_index < shading_count
    &&& forall|n: int|
        0 <= n < t.normals.len() ==> ((#[trigger] t.normals[n]) matches NormalEntry::Face(k) ==> k
            < t.triangles.len())
}

/// Triangle `i` of a part (the `i`-th fan triangle of its polygons) keeps
/// that face's corners, owns normals `3i`, `3i + 1`, `3i + 2` (three per
/// triangle, none shared), and has texture coordinates exactly when its
/// shading is textured.
pub open spec fn topology_regular<N>(t: TopologySpec<N>, faces: Seq<TriangulatedFace>, textured: Seq<bool>) -> bool {
    &&& t.triangles.len() == faces.len()
    &&& t.normals.len() == 3 * t.triangles.len()
    &&& forall|i: int| 0 <= i < t.triangles.len() ==> (#[trigger] t.triangles[i]).position_indices == faces[i].position_indices
    &&& forall|i: int, j: int|
        0 <= i < t.triangles.len() && 0 <= j < 3 ==> (#[trigger] t.triangles[i].normal_indices[j]) == 3 * i + j
    &&& forall|i: int|
        0 <= i < t.triangles.len() ==> ((#[trigger] t.triangles[i]).texture_coord_indices is Some
            <==> textured[t.triangles[i].shading_index as int])
}

proof fn lemma_topology_from_consistent<N>(
    g: Geometry<N>,
    textured: Seq<bool>,
    faces: Seq<TriangulatedFace>,
    k: int,
    acc: TopologySpec<N>,
)
    requires
        0 <= k <= faces.len(),
        acc.triangles.len() == k,
        k + faces.len() < usize::MAX,
        3 * faces.len() < usize::MAX,
        acc.normals.len() == 3 * k,
        acc.texture_coords.len() <= 3 * k,
        topology_consistent(acc, g.vertices@.len() as int, textured.len() as int),
        topology_regular(acc, faces.take(k), textured),
        forall|f: int, j: int|
            0 <= f < faces.len() && 0 <= j < 3 ==> (#[trigger] faces[f].position_indices[j])
                < g.vertices@.len(),
    ensures
        topology_from(g, textured, faces, k, acc) matches Ok(t) ==> topology_consistent(
            t,
            g.vertices@.len() as int,
            textured.len() as int,
        ) && topology_regular(t, faces, textured),
    decreases faces.len() - k,
{
    if k == faces.len() {
        assert(faces.take(k) =~= faces);
    } else {
        let f = faces[k];
        match topology_step(g, textured, f, k, acc) {
            Err(_) => {},
            Ok(next) => {
                let vc = g.vertices@.len() as int;
                let sc = textured.len() as int;
                let slot = slot_of(g.material_layer, f.polygon_index as int);
                assert(next.triangles == acc.triangles.push(next.triangles.last()));
                assert(next.normals.len() == acc.normals.len() + 3);
                assert(next.normals.subrange(0, acc.normals.len() as int) =~= acc.normals);
                assert forall|i: int, j: int| 0 <= i < next.triangles.len() && 0 <= j < 3 implies {
                    &&& (#[trigger] next.triangles[i].position_indices[j]) < vc
                    &&& next.triangles[i].normal_indices[j] < next.normals.len()
                    &&& (next.triangles[i].texture_coord_indices matches Some(c) ==> c[j]
                        < next.texture_coords.len())
                } by {
                    if i < k {
                        assert(next.triangles[i] == acc.triangles[i]);
                        assert(acc.triangles[i].position_indices[j] < vc);
                    } else {
                        assert(faces[k].position_indices[j] < vc);
                    }
                }
                assert forall|i: int| 0 <= i < next.triangles.len() implies (#[trigger] next.triangles[i]).shading_index < sc by {
                    if i < k {
                        assert(next.triangles[i] == acc.triangles[i]);
                    }
                }
                assert forall|n: int| 0 <= n < next.normals.len() implies ((#[trigger] next.normals[n]) matches NormalEntry::Face(q)
                    ==> q < next.triangles.len()) by {
                    if n < acc.normals.len() {
                        assert(next.normals[n] == acc.normals[n]);
                    }
                }
                let done = faces.take(k + 1);
                assert forall|i: int| 0 <= i < next.triangles.len() implies (#[trigger] next.triangles[i]).position_indices
                    == done[i].position_indices by {
                    if i < k {
                        assert(next.triangles[i] == acc.triangles[i]);
                        assert(faces.take(k)[i] == done[i]);
                    }
                }
                assert forall|i: int, j: int|
                    0 <= i < next.triangles.len() && 0 <= j < 3 implies (#[trigger] next.triangles[i].normal_indices[j])
                    == 3 * i + j by {
                    if i < k {
                        assert(next.triangles[i] == acc.triangles[i]);
                    }
                }
                assert forall|i: int| 0 <= i < next.triangles.len() implies ((#[trigger] next.triangles[i]).texture_coord_indices is Some
                    <==> textured[next.triangles[i].shading_index as int]) by {
                    if i < k {
                        assert(next.triangles[i] == acc.triangles[i]);
                    }
                }
                lemma_topology_from_consistent(g, textured, faces, k + 1, next);
            },
        }
    }
}

/// The mesh of a part only refers to what exists: corners to control
/// points, normal and texture coordinate indices to entries of the part's
/// lists, shadings to the part's shadings. Its triangles are the fan
/// triangles of the geometry's polygons, in order; triangle `i` owns normals
/// `3i` to `3i + 2`; a triangle has texture coordinates exactly when its
/// shading is textured; and a textured shading on a mesh without UVs is
/// refused.
pub proof fn lemma_part_topology_consistent<N>(g: Geometry<N>, textured: Seq<bool>)
    requires
        3 * g.polygon_vertex_indices@.len() + 3 < usize::MAX,
    ensures
        spec_part_topology(g, textured) matches Ok(t) ==> topology_consistent(
            t,
            g.vertices@.len() as int,
            textured.len() as int,
        ) && topology_regular(t, faces_from(g.polygon_vertex_indices@, 0, 0), textured),
        textured.contains(true) && g.uv_layer is None ==> spec_part_topology(g, textured) == Err::<
            TopologySpec<N>,
            Seq<char>,
        >(missing_uv_message()),
{
    let indices = g.polygon_vertex_indices@;
    let vc = g.vertices@.len() as int;
    if spec_part_topology(g, textured) is Ok && indices_in_range(indices, vc) && polygons_closed(indices) {
        let faces = faces_from(indices, 0, 0);
        assert(g.vertices.len() == g.vertices@.len());
        assert(g.polygon_vertex_indices.len() == indices.len());
        crate::mesh::lemma_faces_in_range(indices, vc, 0, 0);
        lemma_faces_count(indices, 0, 0);
        let empty = TopologySpec::<N> { triangles: seq![], texture_coords: seq![], normals: seq![] };
        assert forall|f: int, j: int|
            0 <= f < faces.len() && 0 <= j < 3 implies (#[trigger] faces[f].position_indices[j]) < vc by {
            assert(crate::mesh::face_in_range(faces[f], vc, indices.len() as int));
        }
        assert(faces.take(0) =~= Seq::<TriangulatedFace>::empty());
        lemma_topology_from_consistent(g, textured, faces, 0, empty);
    }
}

/// The entry of `layer`'s values that a corner reads, the corner standing
/// at `position` in `PolygonVertexIndex` on control point `control_point`:
/// a by-polygon-vertex layer is indexed by the corner's position, a
/// by-control-point layer by its control point; an `IndexToDirect` layer
/// takes the index stored there.
pub open spec fn corner_entry<T>(layer: AttributeLayer<T>, position: int, control_point: int) -> int {
    let at = match layer.mapping {
        LayerMapping::ByPolygonVertex => position,
        LayerMapping::ByControlPoint => control_point,
    };
    match layer.reference {
        ReferenceType::Direct => at,
        ReferenceType::IndexToDirect => layer.indices@[at] as int,
    }
}

/// Each corner of each triangle of `t` (triangle `i` made from `faces[i]`)
/// carries what the geometry's layers store for that very corner: its
/// texture coordinate (when it has one) is the UV layer's entry for it, and
/// with a normal layer its normal is the normal layer's entry for it.
pub open spec fn corners_read_own_entries<N>(g: Geometry<N>, faces: Seq<TriangulatedFace>, t: TopologySpec<N>) -> bool {
    forall|i: int, j: int|
        0 <= i < t.triangles.len() && 0 <= j < 3 ==> #[trigger] corner_reads_own_entry(g, faces, t, i, j)
}

/// Corner `j` of triangle `i` of `t` carries what the geometry's layers
/// store for that corner of `faces[i]`.
pub open spec fn corner_reads_own_entry<N>(g: Geometry<N>, faces: Seq<TriangulatedFace>, t: TopologySpec<N>, i: int, j: int) -> bool {
    &&& match t.triangles[i].texture_coord_indices {
        Some(c) => match g.uv_layer {
            Some(uv) => c[j] < t.texture_coords.len() && t.texture_coords[c[j] as int] == uv.values@[corner_entry(
                uv,
                faces[i].polygon_vertex_indices[j] as int,
                faces[i].position_indices[j] as int,
            )],
            None => false,
        },
        None => true,
    }
    &&& match g.normal_layer {
        Some(nl) => t.triangles[i].normal_indices[j] < t.normals.len() && t.normals[t.triangles[i].normal_indices[j] as int]
            == NormalEntry::<N>::Stored(
            nl.values@[corner_entry(
                nl,
                faces[i].polygon_vertex_indices[j] as int,
                faces[i].position_indices[j] as int,
            )],
        ),
        None => true,
    }
}

proof fn lemma_resolve_reads_entry<T>(layer: AttributeLayer<T>, p: int, c: int)
    ensures
        spec_resolve(layer, p, c) matches Ok(v) ==> v == layer.values@[corner_entry(layer, p, c)],
{
}

proof fn lemma_corner_values_read_entries<T>(layer: AttributeLayer<T>, f: TriangulatedFace)
    ensures
        corner_values(layer, f) matches Ok(vs) ==> vs.len() == 3 && forall|j: int|
            0 <= j < 3 ==> #[trigger] vs[j] == layer.values@[corner_entry(
                layer,
                f.polygon_vertex_indices[j] as int,
                f.position_indices[j] as int,
            )],
{
    lemma_resolve_reads_entry(layer, f.polygon_vertex_indices[0] as int, f.position_indices[0] as int);
    lemma_resolve_reads_entry(layer, f.polygon_vertex_indices[1] as int, f.position_indices[1] as int);
    lemma_resolve_reads_entry(layer, f.polygon_vertex_indices[2] as int, f.position_indices[2] as int);
    if let Ok(vs) = corner_values(layer, f) {
        assert forall|j: int| 0 <= j < 3 implies #[trigger] vs[j] == layer.values@[corner_entry(
            layer,
            f.polygon_vertex_indices[j] as int,
            f.position_indices[j] as int,
        )] by {
            if j == 0 {
            } else if j == 1 {
            } else {
            }
        }
    }
}

proof fn lemma_topology_from_entries<N>(
    g: Geometry<N>,
    textured: Seq<bool>,
    faces: Seq<TriangulatedFace>,
    k: int,
    acc: TopologySpec<N>,
)
    requires
        0 <= k <= faces.len(),
        3 * faces.len() < usize::MAX,
        acc.triangles.len() == k,
        acc.texture_coords.len() <= 3 * k,
        acc.normals.len() <= 3 * k,
        corners_read_own_entries(g, faces, acc),
    ensures
        topology_from(g, textured, faces, k, acc) matches Ok(t) ==> corners_read_own_entries(g, faces, t),
    decreases faces.len() - k,
{
    if k < faces.len() {
        let f = faces[k];
        if let Ok(next) = topology_step(g, textured, f, k, acc) {
            if let Some(uv) = g.uv_layer {
                lemma_corner_values_read_entries(uv, f);
            }
            if let Some(nl) = g.normal_layer {
                lemma_corner_values_read_entries(nl, f);
            }
            assert(next.triangles == acc.triangles.push(next.triangles.last()));
            assert(next.texture_coords.subrange(0, acc.texture_coords.len() as int) =~= acc.texture_coords);
            assert(next.normals.subrange(0, acc.normals.len() as int) =~= acc.normals);
            assert forall|i: int, j: int|
                0 <= i < next.triangles.len() && 0 <= j < 3 implies #[trigger] corner_reads_own_entry(g, faces, next, i, j) by {
                if i < k {
                    assert(corner_reads_own_entry(g, faces, acc, i, j));
                    assert(next.triangles[i] == acc.triangles[i]);
                    if let Some(c) = acc.triangles[i].texture_coord_indices {
                        assert(next.texture_coords[c[j] as int] == acc.texture_coords[c[j] as int]);
                    }
                    if g.normal_layer is Some {
                        let n = acc.triangles[i].normal_indices[j] as int;
                        assert(next.normals[n] == acc.normals[n]);
                    }
                } else {
                    let t0 = acc.texture_coords.len() as int;
                    let n0 = acc.normals.len() as int;
                    let tri = next.triangles[k];
                    assert(tri.normal_indices == [n0 as usize, (n0 + 1) as usize, (n0 + 2) as usize]);
                    if let Some(c) = tri.texture_coord_indices {
                        let uv = g.uv_layer->0;
                        assert(g.uv_layer is Some);
                        let vs = corner_values(uv, f)->Ok_0;
                        assert(corner_values(uv, f) is Ok);
                        assert(next.texture_coords == acc.texture_coords + vs);
                        assert(c == [t0 as usize, (t0 + 1) as usize, (t0 + 2) as usize]);
                        assert(c[j] == t0 + j) by {
                            if j == 0 {} else if j == 1 {} else {}
                        }
                        assert(next.texture_coords[t0 + j] == vs[j]);
                    }
                    if let Some(nl) = g.normal_layer {
                        let vs = corner_values(nl, f)->Ok_0;
                        assert(corner_values(nl, f) is Ok);
                        let ns = seq![
                            NormalEntry::<N>::Stored(vs[0]),
                            NormalEntry::<N>::Stored(vs[1]),
                            NormalEntry::<N>::Stored(vs[2]),
                        ];
                        assert(next.normals == acc.normals + ns);
                        assert(tri.normal_indices[j] == n0 + j) by {
                            if j == 0 {} else if j == 1 {} else {}
                        }
                        assert(next.normals[n0 + j] == ns[j]);
                        assert(ns[j] == NormalEntry::<N>::Stored(vs[j])) by {
                            if j == 0 {} else if j == 1 {} else {}
                        }
                    }
                }
            }
            lemma_topology_from_entries(g, textured, faces, k + 1, next);
        }
    }
}

/// Every corner of a part's mesh takes its texture coordinate and its
/// stored normal from the layer entry for that corner: under a
/// by-polygon-vertex layer the entry at the corner's own position in
/// `PolygonVertexIndex` (through the index array under `IndexToDirect`),
/// under a by-control-point layer the entry of its control point; triangle
/// `i` being the `i`-th fan triangle of the polygons.
pub proof fn lemma_corners_read_own_entries<N>(g: Geometry<N>, textured: Seq<bool>)
    requires
        3 * g.polygon_vertex_indices@.len() + 3 < usize::MAX,
    ensures
        spec_part_topology(g, textured) matches Ok(t) ==> corners_read_own_entries(
            g,
            faces_from(g.polygon_vertex_indices@, 0, 0),
            t,
        ),
{
    lemma_faces_count(g.polygon_vertex_indices@, 0, 0);
    let empty = TopologySpec::<N> { triangles: seq![], texture_coords: seq![], normals: seq![] };
    lemma_topology_from_entries(g, textured, faces_from(g.polygon_vertex_indices@, 0, 0), 0, empty);
}

} // verus!
