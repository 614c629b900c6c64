//! Mesh topology of an FBX geometry: polygon triangulation, per-polygon
//! material slots, and the lookup of per-vertex attributes (UVs, normals)
//! through a layer's mapping and reference modes.
use vstd::prelude::*;
use vstd::string::*;
use crate::error::{ConversionError, feature_result, is_feature_error};
use crate::text::{concat, decimal, decimal_string, str_equal};

verus! {

// ---------------------------------------------------------------- triangulation

/// One triangle of a fan-triangulated polygon.
#[derive(Clone, Copy, Debug, PartialEq, Eq)]
pub struct TriangulatedFace {
    /// Indices into the geometry's control points (vertices).
    pub position_indices: [usize; 3],
    /// Positions of the three corners in `PolygonVertexIndex`.
    pub polygon_vertex_indices: [usize; 3],
    /// The polygon that the triangle comes from, counted from zero.
    pub polygon_index: usize,
}

/// The control point that a `PolygonVertexIndex` entry names: a negative
/// entry `v` closes its polygon and stands for `-v - 1`.
pub open spec fn resolved_index(raw: i32) -> int {
    if raw < 0 {
        -(raw as int) - 1
    } else {
        raw as int
    }
}

/// The position of the first polygon-closing (negative) entry at or after
/// `start`, or the length of `indices` when there is none.
pub open spec fn next_terminator(indices: Seq<i32>, start: int) -> int
    decreases indices.len() - start,
{
    if start >= indices.len() || start < 0 {
        indices.len() as int
    } else if indices[start] < 0 {
        start
    } else {
        next_terminator(indices, start + 1)
    }
}

/// The `k`-th fan triangle of the polygon held in `indices[start..=end]`:
/// its first corner, then corners `k + 1` and `k + 2`.
pub open spec fn fan_face(indices: Seq<i32>, start: int, k: int, polygon: int) -> TriangulatedFace {
    TriangulatedFace {
        position_indices: [
            resolved_index(indices[start]) as usize,
            resolved_index(indices[start + k + 1]) as usize,
            resolved_index(indices[start + k + 2]) as usize,
        ],
        polygon_vertex_indices: [start as usize, (start + k + 1) as usize, (start + k + 2) as usize],
        polygon_index: polygon as usize,
    }
}

/// The fan triangles of the polygon held in `indices[start..=end]`: a polygon
/// of `n >= 3` corners gives `n - 2` triangles, a smaller one none.
pub open spec fn polygon_faces(indices: Seq<i32>, start: int, end: int, polygon: int) -> Seq<
    TriangulatedFace,
> {
    let count = if end - start - 1 > 0 {
        end - start - 1
    } else {
        0
    };
    Seq::new(count as nat, |k: int| fan_face(indices, start, k, polygon))
}

/// The triangles of the polygons from position `start` on, the first of them
/// being polygon number `polygon`.
pub open spec fn faces_from(indices: Seq<i32>, start: int, polygon: int) -> Seq<TriangulatedFace>
    decreases indices.len() - start,
{
    if start < 0 || start >= indices.len() {
        seq![]
    } else {
        let end = next_terminator(indices, start);
        proof {
            lemma_next_terminator_bounds(indices, start);
        }
        if end >= indices.len() {
            seq![]
        } else {
            polygon_faces(indices, start, end, polygon) + faces_from(indices, end + 1, polygon + 1)
        }
    }
}

/// Every entry names an existing control point.
pub open spec fn indices_in_range(indices: Seq<i32>, vertex_count: int) -> bool {
    forall|i: int| 0 <= i < indices.len() ==> #[trigger] resolved_index(indices[i]) < vertex_count
}

/// The last polygon is closed: the list is empty or ends with a negative entry.
pub open spec fn polygons_closed(indices: Seq<i32>) -> bool {
    indices.len() == 0 || indices.last() < 0
}

/// The polygon that starts at `start` ends at or after `start`, and no
/// later than the end of the list.
pub proof fn lemma_next_terminator_bounds(indices: Seq<i32>, start: int)
    requires
        0 <= start,
    ensures
        start <= next_terminator(indices, start) || start >= indices.len(),
        next_terminator(indices, start) <= indices.len(),
    decreases indices.len() - start,
{
    if start < indices.len() && indices[start] >= 0 {
        lemma_next_terminator_bounds(indices, start + 1);
    }
}

proof fn lemma_next_terminator(indices: Seq<i32>, start: int, i: int)
    requires
        0 <= start <= i <= indices.len(),
        forall|j: int| start <= j < i ==> indices[j] >= 0,
    ensures
        next_terminator(indices, start) == next_terminator(indices, i),
    decreases i - start,
{
    if start < i {
        lemma_next_terminator(indices, start + 1, i);
    }
}

/// Splits `PolygonVertexIndex` into polygons (a negative entry `v` closes a
/// polygon and names control point `-v - 1`) and fans each polygon of
/// `n >= 3` corners into `n - 2` triangles around its first corner.
/// Fails when an entry names a control point at or past `vertex_count`, or
/// when the list does not end by closing its last polygon.
pub fn triangulate_polygons(indices: &[i32], vertex_count: usize) -> (result: Result<
    Vec<TriangulatedFace>,
    ConversionError,
>)
    ensures
        match result {
            Ok(faces) => indices_in_range(indices@, vertex_count as int) && polygons_closed(
                indices@,
            ) && faces@ == faces_from(indices@, 0, 0),
            Err(e) => if !indices_in_range(indices@, vertex_count as int) {
                is_feature_error(
                    e,
                    "PolygonVertexIndex references a vertex outside the Vertices array"@,
                )
            } else {
                !polygons_closed(indices@) && is_feature_error(
                    e,
                    "PolygonVertexIndex ended with an unterminated polygon"@,
                )
            },
        },
{
    let mut triangles: Vec<TriangulatedFace> = Vec::new();
    let mut polygon_positions: Vec<usize> = Vec::new();
    let mut polygon_vertex_indices: Vec<usize> = Vec::new();
    let mut polygon_index: usize = 0;
    let mut start: usize = 0;
    let mut i: usize = 0;
    let n = indices.len();
    while i < n
        invariant
            n == indices@.len(),
            start <= i <= n,
            polygon_index <= start,
            polygon_positions@.len() == i - start,
            polygon_vertex_indices@.len() == i - start,
            forall|j: int|
                0 <= j < i - start ==> #[trigger] polygon_positions@[j] == resolved_index(
                    indices@[start + j],
                ),
            forall|j: int| 0 <= j < i - start ==> #[trigger] polygon_vertex_indices@[j] == start + j,
            forall|j: int| start <= j < i ==> indices@[j] >= 0,
            start > 0 ==> indices@[start - 1] < 0,
            forall|j: int| 0 <= j < i ==> #[trigger] resolved_index(indices@[j]) < vertex_count,
            triangles@ + faces_from(indices@, start as int, polygon_index as int) == faces_from(
                indices@,
                0,
                0,
            ),
        decreases n - i,
    {
        let raw = indices[i];
        let is_last = raw < 0;
        let resolved: usize = if raw < 0 {
            (-(raw as i64) - 1) as usize
        } else {
            raw as usize
        };
        if resolved >= vertex_count {
            proof {
                assert(resolved == resolved_index(indices@[i as int]));
                assert(!indices_in_range(indices@, vertex_count as int));
            }
            return Err(
                ConversionError::UnsupportedFbxFeature(
                    String::from_str(
                        "PolygonVertexIndex references a vertex outside the Vertices array",
                    ),
                ),
            );
        }
        polygon_positions.push(resolved);
        polygon_vertex_indices.push(i);
        if is_last {
            let ghost before = triangles@;
            let count = polygon_positions.len();
            proof {
                lemma_next_terminator(indices@, start as int, i as int);
                assert(next_terminator(indices@, i as int) == i);
            }
            let ghost faces = polygon_faces(indices@, start as int, i as int, polygon_index as int);
            if count >= 3 {
                let mut offset: usize = 1;
                while offset < count - 1
                    invariant
                        3 <= count,
                        count == polygon_positions@.len(),
                        count == polygon_vertex_indices@.len(),
                        count == i - start + 1,
                        i < n,
                        n == indices@.len(),
                        1 <= offset <= count - 1,
                        polygon_index <= start,
                        faces == polygon_faces(indices@, start as int, i as int, polygon_index as int),
                        forall|j: int|
                            0 <= j < count ==> #[trigger] polygon_positions@[j] == resolved_index(
                                indices@[start + j],
                            ),
                        forall|j: int|
                            0 <= j < count ==> #[trigger] polygon_vertex_indices@[j] == start + j,
                        triangles@ == before + faces.take(offset - 1),
                    decreases count - 1 - offset,
                {
                    let face = TriangulatedFace {
                        position_indices: [
                            polygon_positions[0],
                            polygon_positions[offset],
                            polygon_positions[offset + 1],
                        ],
                        polygon_vertex_indices: [
                            polygon_vertex_indices[0],
                            polygon_vertex_indices[offset],
                            polygon_vertex_indices[offset + 1],
                        ],
                        polygon_index,
                    };
                    proof {
                        let k = offset - 1;
                        let expected = fan_face(indices@, start as int, k as int, polygon_index as int);
                        assert(face.position_indices@ =~= expected.position_indices@);
                        assert(face.polygon_vertex_indices@ =~= expected.polygon_vertex_indices@);
                        assert(face == expected);
                        assert(faces[k as int] == expected);
                        assert(faces.take(offset as int) =~= faces.take(k as int).push(expected));
                    }
                    triangles.push(face);
                    offset = offset + 1;
                }
                proof {
                    assert(faces.take(offset - 1) =~= faces);
                }
            } else {
                proof {
                    assert(faces =~= Seq::<TriangulatedFace>::empty());
                    assert(triangles@ =~= before + faces);
                }
            }
            proof {
                assert(faces_from(indices@, start as int, polygon_index as int) == faces
                    + faces_from(indices@, i + 1, polygon_index + 1));
                assert(triangles@ == before + faces);
                assert(before + faces + faces_from(indices@, i + 1, polygon_index + 1) =~= before + (
                faces + faces_from(indices@, i + 1, polygon_index + 1)));
            }
            polygon_positions = Vec::new();
            polygon_vertex_indices = Vec::new();
            polygon_index = polygon_index + 1;
            start = i + 1;
        }
        i = i + 1;
    }
    if polygon_positions.len() > 0 {
        proof {
            assert(indices@.last() == indices@[n - 1]);
        }
        return Err(
            ConversionError::UnsupportedFbxFeature(
                String::from_str("PolygonVertexIndex ended with an unterminated polygon"),
            ),
        );
    }
    proof {
        assert(faces_from(indices@, start as int, polygon_index as int) =~= Seq::<
            TriangulatedFace,
        >::empty());
        assert(triangles@ =~= faces_from(indices@, 0, 0));
        if n > 0 {
            assert(indices@.last() == indices@[n - 1]);
        }
    }
    Ok(triangles)
}

} // verus!

verus! {

/// A face names existing control points, and corners that exist in the
/// polygon-vertex list.
pub open spec fn face_in_range(face: TriangulatedFace, vertex_count: int, corner_count: int) -> bool {
    &&& forall|k: int| 0 <= k < 3 ==> #[trigger] face.position_indices[k] < vertex_count
    &&& forall|k: int| 0 <= k < 3 ==> #[trigger] face.polygon_vertex_indices[k] < corner_count
}

/// Triangulating indices that all name existing control points gives
/// triangles that only name existing control points and existing corners.
pub proof fn lemma_faces_in_range(indices: Seq<i32>, vertex_count: int, start: int, polygon: int)
    requires
        indices_in_range(indices, vertex_count),
        0 <= start,
        vertex_count <= usize::MAX,
        indices.len() <= usize::MAX,
    ensures
        forall|f: int|
            0 <= f < faces_from(indices, start, polygon).len() ==> face_in_range(
                #[trigger] faces_from(indices, start, polygon)[f],
                vertex_count,
                indices.len() as int,
            ),
    decreases indices.len() - start,
{
    if start < indices.len() {
        let end = next_terminator(indices, start);
        lemma_next_terminator_bounds(indices, start);
        if end < indices.len() {
            lemma_faces_in_range(indices, vertex_count, end + 1, polygon + 1);
            let head = polygon_faces(indices, start, end, polygon);
            let tail = faces_from(indices, end + 1, polygon + 1);
            assert(faces_from(indices, start, polygon) == head + tail);
            assert forall|f: int| 0 <= f < head.len() implies face_in_range(
                #[trigger] head[f],
                vertex_count,
                indices.len() as int,
            ) by {
                let face = head[f];
                assert(resolved_index(indices[start]) < vertex_count);
                assert(resolved_index(indices[start + f + 1]) < vertex_count);
                assert(resolved_index(indices[start + f + 2]) < vertex_count);
                assert(face.position_indices[0] == resolved_index(indices[start]) as usize);
            }
            assert forall|f: int|
                0 <= f < faces_from(indices, start, polygon).len() implies face_in_range(
                #[trigger] faces_from(indices, start, polygon)[f],
                vertex_count,
                indices.len() as int,
            ) by {
                if f < head.len() {
                    assert(faces_from(indices, start, polygon)[f] == head[f]);
                } else {
                    assert(faces_from(indices, start, polygon)[f] == tail[f - head.len()]);
                }
            }
        }
    }
}

} // verus!

verus! {

// ---------------------------------------------------------------- layer modes

/// How a layer element (UVs, normals) assigns its values.
#[derive(Clone, Copy, Debug, PartialEq, Eq, Structural)]
pub enum LayerMapping {
    /// One value per polygon corner.
    ByPolygonVertex,
    /// One value per control point.
    ByControlPoint,
}

/// The mapping that an FBX `MappingInformationType` names, if supported.
pub open spec fn spec_layer_mapping(value: Seq<char>) -> Option<LayerMapping> {
    if value == "ByPolygonVertex"@ {
        Some(LayerMapping::ByPolygonVertex)
    } else if value == "ByVertice"@ || value == "ByVertex"@ || value == "ByControlPoint"@ {
        Some(LayerMapping::ByControlPoint)
    } else {
        None
    }
}

impl LayerMapping {
    /// Reads an FBX `MappingInformationType` value for UV and normal layers.
    pub fn from_fbx_value(value: &str) -> (result: Result<LayerMapping, ConversionError>)
        ensures
            match spec_layer_mapping(value@) {
                Some(m) => result == Ok::<LayerMapping, ConversionError>(m),
                None => result is Err && is_feature_error(
                    result->Err_0,
                    "unsupported layer mapping type: "@ + value@,
                ),
            },
    {
        if str_equal(value, "ByPolygonVertex") {
            Ok(LayerMapping::ByPolygonVertex)
        } else if str_equal(value, "ByVertice") || str_equal(value, "ByVertex") || str_equal(
            value,
            "ByControlPoint",
        ) {
            Ok(LayerMapping::ByControlPoint)
        } else {
            Err(
                ConversionError::UnsupportedFbxFeature(
                    concat("unsupported layer mapping type: ", value),
                ),
            )
        }
    }
}

/// Whether a layer element stores its values directly or through an index
/// array.
#[derive(Clone, Copy, Debug, PartialEq, Eq, Structural)]
pub enum ReferenceType {
    /// The value for logical position `i` is `values[i]`.
    Direct,
    /// The value for logical position `i` is `values[indices[i]]`.
    IndexToDirect,
}

/// The reference mode that an FBX `ReferenceInformationType` names, if
/// supported.
pub open spec fn spec_reference_type(value: Seq<char>) -> Option<ReferenceType> {
    if value == "Direct"@ {
        Some(ReferenceType::Direct)
    } else if value == "IndexToDirect"@ {
        Some(ReferenceType::IndexToDirect)
    } else {
        None
    }
}

impl ReferenceType {
    /// Reads an FBX `ReferenceInformationType` value.
    pub fn from_fbx_value(value: &str) -> (result: Result<ReferenceType, ConversionError>)
        ensures
            match spec_reference_type(value@) {
                Some(r) => result == Ok::<ReferenceType, ConversionError>(r),
                None => result is Err && is_feature_error(
                    result->Err_0,
                    "unsupported layer reference type: "@ + value@,
                ),
            },
    {
        if str_equal(value, "Direct") {
            Ok(ReferenceType::Direct)
        } else if str_equal(value, "IndexToDirect") {
            Ok(ReferenceType::IndexToDirect)
        } else {
            Err(
                ConversionError::UnsupportedFbxFeature(
                    concat("unsupported layer reference type: ", value),
                ),
            )
        }
    }
}

/// How a material layer assigns material slots to polygons.
#[derive(Clone, Copy, Debug, PartialEq, Eq, Structural)]
pub enum MaterialMapping {
    /// Every polygon uses the first slot listed.
    AllSame,
    /// One slot per polygon.
    ByPolygon,
}

/// The material mapping that an FBX `MappingInformationType` names, if
/// supported.
pub open spec fn spec_material_mapping(value: Seq<char>) -> Option<MaterialMapping> {
    if value == "AllSame"@ {
        Some(MaterialMapping::AllSame)
    } else if value == "ByPolygon"@ {
        Some(MaterialMapping::ByPolygon)
    } else {
        None
    }
}

impl MaterialMapping {
    /// Reads the `MappingInformationType` of a material layer.
    pub fn from_fbx_value(value: &str) -> (result: Result<MaterialMapping, ConversionError>)
        ensures
            match spec_material_mapping(value@) {
                Some(m) => result == Ok::<MaterialMapping, ConversionError>(m),
                None => result is Err && is_feature_error(
                    result->Err_0,
                    "unsupported material mapping type: "@ + value@,
                ),
            },
    {
        if str_equal(value, "AllSame") {
            Ok(MaterialMapping::AllSame)
        } else if str_equal(value, "ByPolygon") {
            Ok(MaterialMapping::ByPolygon)
        } else {
            Err(
                ConversionError::UnsupportedFbxFeature(
                    concat("unsupported material mapping type: ", value),
                ),
            )
        }
    }
}

// ---------------------------------------------------------------- material slots

/// The per-polygon material assignment of a geometry.
#[derive(Clone, Debug)]
pub struct MaterialLayer {
    pub mapping: MaterialMapping,
    pub materials: Vec<i32>,
}

/// The raw slot number that `materials` gives polygon `polygon_index`
/// under `mapping`: its own entry (`ByPolygon`), else the first entry, else 0.
pub open spec fn raw_material_slot(mapping: MaterialMapping, materials: Seq<i32>, polygon_index: int) -> i32 {
    match mapping {
        MaterialMapping::AllSame => if materials.len() > 0 {
            materials[0]
        } else {
            0
        },
        MaterialMapping::ByPolygon => if 0 <= polygon_index < materials.len() {
            materials[polygon_index]
        } else if materials.len() > 0 {
            materials[0]
        } else {
            0
        },
    }
}

/// The slot of polygon `polygon_index`, or `None` when the raw slot number is
/// negative.
pub open spec fn spec_slot_for_polygon(layer: MaterialLayer, polygon_index: int) -> Option<usize> {
    let raw = raw_material_slot(layer.mapping, layer.materials@, polygon_index);
    if raw < 0 {
        None
    } else {
        Some(raw as usize)
    }
}

impl MaterialLayer {
    /// The material slot that polygon `polygon_index` uses.
    pub fn slot_for_polygon(&self, polygon_index: usize) -> (slot: Option<usize>)
        ensures
            slot == spec_slot_for_polygon(*self, polygon_index as int),
    {
        let raw: i32 = match self.mapping {
            MaterialMapping::AllSame => if self.materials.len() > 0 {
                self.materials[0]
            } else {
                0
            },
            MaterialMapping::ByPolygon => if polygon_index < self.materials.len() {
                self.materials[polygon_index]
            } else if self.materials.len() > 0 {
                self.materials[0]
            } else {
                0
            },
        };
        if raw < 0 {
            None
        } else {
            Some(raw as usize)
        }
    }
}

/// The slot that polygon `polygon_index` uses: the layer's slot, or 0 when
/// there is no layer or its slot number is negative.
pub open spec fn spec_material_slot(layer: Option<&MaterialLayer>, polygon_index: int) -> int {
    match layer {
        Some(l) => match spec_slot_for_polygon(*l, polygon_index) {
            Some(s) => s as int,
            None => 0,
        },
        None => 0,
    }
}

/// Picks the shading of polygon `polygon_index` among `shading_count`
/// material bindings; fails when the slot is not one of them.
pub fn resolve_material_slot(
    material_layer: Option<&MaterialLayer>,
    polygon_index: usize,
    shading_count: usize,
) -> (result: Result<usize, ConversionError>)
    ensures
        spec_material_slot(material_layer, polygon_index as int) < shading_count ==> result
            == Ok::<usize, ConversionError>(
            spec_material_slot(material_layer, polygon_index as int) as usize,
        ),
        spec_material_slot(material_layer, polygon_index as int) >= shading_count ==> result is Err
            && is_feature_error(
            result->Err_0,
            "material layer references slot "@ + decimal(
                spec_material_slot(material_layer, polygon_index as int) as nat,
            ) + ", but only "@ + decimal(shading_count as nat) + " material bindings were found"@,
        ),
{
    let slot = match material_layer {
        Some(layer) => match layer.slot_for_polygon(polygon_index) {
            Some(s) => s,
            None => 0,
        },
        None => 0,
    };
    if slot >= shading_count {
        let a = concat("material layer references slot ", decimal_string(slot as u64).as_str());
        let b = concat(a.as_str(), ", but only ");
        let c = concat(b.as_str(), decimal_string(shading_count as u64).as_str());
        let d = concat(c.as_str(), " material bindings were found");
        return Err(ConversionError::UnsupportedFbxFeature(d));
    }
    Ok(slot)
}

// ---------------------------------------------------------------- attribute layers

/// Which layer element an attribute layer was read from; it words the
/// errors.
#[derive(Clone, Copy, Debug, PartialEq, Eq, Structural)]
pub enum LayerKind {
    /// `LayerElementUV`.
    Uv,
    /// `LayerElementNormal`.
    Normal,
}

/// A per-vertex attribute layer: values of type `T` (UV pairs, normals),
/// reached through `mapping` and `reference`.
#[derive(Clone, Debug)]
pub struct AttributeLayer<T> {
    pub kind: LayerKind,
    pub mapping: LayerMapping,
    pub reference: ReferenceType,
    pub values: Vec<T>,
    pub indices: Vec<i32>,
}

/// The message of a missing `IndexToDirect` index.
pub open spec fn missing_index_message(kind: LayerKind) -> Seq<char> {
    match kind {
        LayerKind::Uv => "LayerElementUV IndexToDirect mapping referenced a missing UV index"@,
        LayerKind::Normal => "LayerElementNormal IndexToDirect mapping referenced a missing normal index"@,
    }
}

/// The message of an index past the value array.
pub open spec fn missing_value_message(kind: LayerKind) -> Seq<char> {
    match kind {
        LayerKind::Uv => "LayerElementUV referenced a UV coordinate outside the UV array"@,
        LayerKind::Normal => "LayerElementNormal referenced a normal outside the normal array"@,
    }
}

/// The logical position that a corner reads under `mapping`.
pub open spec fn logical_index(mapping: LayerMapping, polygon_vertex_index: int, control_point_index: int) -> int {
    match mapping {
        LayerMapping::ByPolygonVertex => polygon_vertex_index,
        LayerMapping::ByControlPoint => control_point_index,
    }
}

/// The position in `values` that a corner reads, if the index array has an
/// entry for it that is not negative.
pub open spec fn direct_index<T>(layer: AttributeLayer<T>, polygon_vertex_index: int, control_point_index: int) -> Option<int> {
    let logical = logical_index(layer.mapping, polygon_vertex_index, control_point_index);
    match layer.reference {
        ReferenceType::Direct => Some(logical),
        ReferenceType::IndexToDirect => if 0 <= logical < layer.indices@.len()
            && layer.indices@[logical] >= 0 {
            Some(layer.indices@[logical] as int)
        } else {
            None
        },
    }
}

/// What a corner reads from `layer`: the value its index leads to, or the
/// message of the missing index or value.
pub open spec fn spec_resolve<T>(layer: AttributeLayer<T>, polygon_vertex_index: int, control_point_index: int) -> Result<T, Seq<char>> {
    match direct_index(layer, polygon_vertex_index, control_point_index) {
        None => Err(missing_index_message(layer.kind)),
        Some(d) => if d < layer.values@.len() {
            Ok(layer.values@[d])
        } else {
            Err(missing_value_message(layer.kind))
        },
    }
}

impl<T: Copy> AttributeLayer<T> {
    /// The value of the corner at `polygon_vertex_index`, whose control point
    /// is `control_point_index`.
    pub fn resolve(&self, polygon_vertex_index: usize, control_point_index: usize) -> (result: Result<T, ConversionError>)
        ensures
            feature_result(
                result,
                spec_resolve(*self, polygon_vertex_index as int, control_point_index as int),
            ),
    {
        let logical = match self.mapping {
            LayerMapping::ByPolygonVertex => polygon_vertex_index,
            LayerMapping::ByControlPoint => control_point_index,
        };
        let direct = match self.reference {
            ReferenceType::Direct => logical,
            ReferenceType::IndexToDirect => {
                if logical < self.indices.len() && self.indices[logical] >= 0 {
                    self.indices[logical] as usize
                } else {
                    let message = match self.kind {
                        LayerKind::Uv => String::from_str(
                            "LayerElementUV IndexToDirect mapping referenced a missing UV index",
                        ),
                        LayerKind::Normal => String::from_str(
                            "LayerElementNormal IndexToDirect mapping referenced a missing normal index",
                        ),
                    };
                    return Err(ConversionError::UnsupportedFbxFeature(message));
                }
            },
        };
        if direct < self.values.len() {
            Ok(self.values[direct])
        } else {
            let message = match self.kind {
                LayerKind::Uv => String::from_str(
                    "LayerElementUV referenced a UV coordinate outside the UV array",
                ),
                LayerKind::Normal => String::from_str(
                    "LayerElementNormal referenced a normal outside the normal array",
                ),
            };
            Err(ConversionError::UnsupportedFbxFeature(message))
        }
    }
}

} // verus!
