//! Reading the FBX objects that the converter uses (geometries, models,
//! materials, textures, videos) out of the node tree. What they hold as
//! floating-point numbers stays opaque (`N`).
use vstd::prelude::*;
use vstd::string::*;
use crate::error::{ConversionError, feature_result, is_feature_error};
use crate::fbx::{
    FbxNode, FbxProperty, Number, deref_option, find_node, node_child_string, nth, property_at,
    property_i32, property_i32_array, property_i64, property_number, property_number_array,
    property_string, spec_find_node, spec_property_i32_array, spec_property_number_array,
    spec_node_child_string, spec_property_i32, spec_property_i64, spec_property_number,
    spec_property_string,
};
use crate::mesh::{
    AttributeLayer, LayerKind, LayerMapping, MaterialLayer, MaterialMapping, ReferenceType,
    spec_layer_mapping, spec_material_mapping, spec_reference_type,
};
use crate::text::{clean_fbx_object_label, spec_clean_fbx_object_label, str_equal, string_from};

verus! {

/// Three numeric values of a `Properties70` record (a color, a translation,
/// a rotation or a scaling).
#[derive(Clone, Copy, Debug, PartialEq)]
pub struct Triple<N> {
    pub x: Number<N>,
    pub y: Number<N>,
    pub z: Number<N>,
}

/// The three values of a `Properties70` record: its fields 4, 5 and 6.
pub open spec fn spec_record_triple<N>(props: Seq<FbxProperty<N>>) -> Result<Triple<N>, Seq<char>> {
    if props.len() <= 6 {
        Err("expected at least seven fields in an FBX Properties70 record"@)
    } else {
        match spec_property_number(nth(props, 4)) {
            None => Err("failed to read X component from Properties70"@),
            Some(x) => match spec_property_number(nth(props, 5)) {
                None => Err("failed to read Y component from Properties70"@),
                Some(y) => match spec_property_number(nth(props, 6)) {
                    None => Err("failed to read Z component from Properties70"@),
                    Some(z) => Ok(Triple { x, y, z }),
                },
            },
        }
    }
}

fn feature_error(message: &str) -> (e: ConversionError)
    ensures
        is_feature_error(e, message@),
{
    ConversionError::UnsupportedFbxFeature(string_from(message))
}

/// Reads the three numbers of a `Properties70` record.
pub fn parse_property_record_vec3<N: Copy>(property: &FbxNode<N>) -> (r: Result<Triple<N>, ConversionError>)
    ensures
        feature_result(r, spec_record_triple(property.properties@)),
{
    let props = &property.properties;
    if props.len() <= 6 {
        return Err(feature_error("expected at least seven fields in an FBX Properties70 record"));
    }
    let x = match property_number(property_at(props, 4)) {
        Some(v) => v,
        None => return Err(feature_error("failed to read X component from Properties70")),
    };
    let y = match property_number(property_at(props, 5)) {
        Some(v) => v,
        None => return Err(feature_error("failed to read Y component from Properties70")),
    };
    let z = match property_number(property_at(props, 6)) {
        Some(v) => v,
        None => return Err(feature_error("failed to read Z component from Properties70")),
    };
    Ok(Triple { x, y, z })
}

/// The number of a `Properties70` record: its field 4.
pub open spec fn spec_record_number<N>(props: Seq<FbxProperty<N>>) -> Result<Number<N>, Seq<char>> {
    if props.len() <= 4 {
        Err("expected at least five fields in an FBX Properties70 record"@)
    } else {
        match spec_property_number(nth(props, 4)) {
            None => Err("failed to read numeric value from Properties70"@),
            Some(v) => Ok(v),
        }
    }
}

/// Reads the number of a `Properties70` record.
pub fn parse_property_record_f64<N: Copy>(property: &FbxNode<N>) -> (r: Result<Number<N>, ConversionError>)
    ensures
        feature_result(r, spec_record_number(property.properties@)),
{
    if property.properties.len() <= 4 {
        return Err(feature_error("expected at least five fields in an FBX Properties70 record"));
    }
    match property_number(property_at(&property.properties, 4)) {
        Some(v) => Ok(v),
        None => Err(feature_error("failed to read numeric value from Properties70")),
    }
}

// ---------------------------------------------------------------- rotation order

/// The order in which a model's Euler rotations apply.
#[derive(Clone, Copy, Debug, PartialEq, Eq, Structural)]
pub enum RotationOrder {
    Xyz,
    Xzy,
    Yzx,
    Yxz,
    Zxy,
    Zyx,
}

/// The rotation order that an FBX `RotationOrder` number (0 to 5) names.
pub open spec fn spec_rotation_order<N>(p: Option<FbxProperty<N>>) -> Option<RotationOrder> {
    match spec_property_i32(p) {
        Some(v) => if v == 0 {
            Some(RotationOrder::Xyz)
        } else if v == 1 {
            Some(RotationOrder::Xzy)
        } else if v == 2 {
            Some(RotationOrder::Yzx)
        } else if v == 3 {
            Some(RotationOrder::Yxz)
        } else if v == 4 {
            Some(RotationOrder::Zxy)
        } else if v == 5 {
            Some(RotationOrder::Zyx)
        } else {
            None
        },
        None => None,
    }
}

impl RotationOrder {
    /// Reads an FBX `RotationOrder` value.
    pub fn from_fbx_value<N>(value: Option<&FbxProperty<N>>) -> (order: Option<RotationOrder>)
        ensures
            order == spec_rotation_order(deref_option(value)),
    {
        match property_i32(value) {
            Some(0) => Some(RotationOrder::Xyz),
            Some(1) => Some(RotationOrder::Xzy),
            Some(2) => Some(RotationOrder::Yzx),
            Some(3) => Some(RotationOrder::Yxz),
            Some(4) => Some(RotationOrder::Zxy),
            Some(5) => Some(RotationOrder::Zyx),
            _ => None,
        }
    }
}

// ---------------------------------------------------------------- file paths

/// The names under which FBX stores the path of an external file.
pub open spec fn is_file_name_key(s: Seq<char>) -> bool {
    s == "RelativeFilename"@ || s == "RelativeFileName"@ || s == "FileName"@ || s == "Filename"@
}

/// The path held by a `P` record among `records[i..]` whose name is a file
/// name key and whose field 4 is text.
pub open spec fn record_file_path_from<N>(records: Seq<FbxNode<N>>, i: int) -> Option<Seq<char>>
    decreases records.len() - i,
{
    if i < 0 || i >= records.len() {
        None
    } else {
        let r = records[i];
        let found = if r.name@ == "P"@ {
            match spec_property_string(nth(r.properties@, 0)) {
                Some(name) => if is_file_name_key(name) {
                    spec_property_string(nth(r.properties@, 4))
                } else {
                    None
                },
                None => None,
            }
        } else {
            None
        };
        match found {
            Some(p) => Some(p),
            None => record_file_path_from(records, i + 1),
        }
    }
}

/// The path of the external file that a texture or video node points to:
/// from a `RelativeFilename`, `RelativeFileName`, `FileName` or `Filename`
/// child (in that order of preference), else from such a `Properties70`
/// record.
pub open spec fn spec_external_file_path<N>(node: FbxNode<N>) -> Option<Seq<char>> {
    match spec_node_child_string(node, "RelativeFilename"@) {
        Some(p) => Some(p),
        None => match spec_node_child_string(node, "RelativeFileName"@) {
            Some(p) => Some(p),
            None => match spec_node_child_string(node, "FileName"@) {
                Some(p) => Some(p),
                None => match spec_node_child_string(node, "Filename"@) {
                    Some(p) => Some(p),
                    None => match spec_find_node(node.children@, "Properties70"@) {
                        Some(props) => record_file_path_from(props.children@, 0),
                        None => None,
                    },
                },
            },
        },
    }
}

fn is_file_name_key_exec(s: &str) -> (r: bool)
    ensures
        r == is_file_name_key(s@),
{
    str_equal(s, "RelativeFilename") || str_equal(s, "RelativeFileName") || str_equal(
        s,
        "FileName",
    ) || str_equal(s, "Filename")
}

/// Reads the path of the external file that a texture or video node points
/// to.
pub fn read_external_file_path<N>(node: &FbxNode<N>) -> (path: Option<String>)
    ensures
        match path {
            Some(p) => spec_external_file_path(*node) == Some(p@),
            None => spec_external_file_path(*node) is None,
        },
{
    if let Some(p) = node_child_string(node, "RelativeFilename") {
        return Some(string_from(p));
    }
    if let Some(p) = node_child_string(node, "RelativeFileName") {
        return Some(string_from(p));
    }
    if let Some(p) = node_child_string(node, "FileName") {
        return Some(string_from(p));
    }
    if let Some(p) = node_child_string(node, "Filename") {
        return Some(string_from(p));
    }
    let properties = match find_node(&node.children, "Properties70") {
        Some(p) => p,
        None => return None,
    };
    let records = &properties.children;
    let mut i: usize = 0;
    #[verifier::loop_isolation(false)]
    while i < records.len()
        invariant
            i <= records.len(),
            record_file_path_from(records@, i as int) == record_file_path_from(records@, 0),
        decreases records.len() - i,
    {
        let record = &records[i];
        if str_equal(record.name.as_str(), "P") {
            if let Some(name) = property_string(property_at(&record.properties, 0)) {
                if is_file_name_key_exec(name) {
                    if let Some(value) = property_string(property_at(&record.properties, 4)) {
                        return Some(string_from(value));
                    }
                }
            }
        }
        i = i + 1;
    }
    None
}

// ---------------------------------------------------------------- object labels

/// The object id of a node: its first property, read as an integer.
pub open spec fn spec_object_id<N>(node: FbxNode<N>) -> Option<i64> {
    spec_property_i64(nth(node.properties@, 0))
}

/// The object name of a node: its cleaned label (second property), or
/// `default` when it has none.
pub open spec fn spec_object_name<N>(node: FbxNode<N>, default: Seq<char>) -> Seq<char> {
    match spec_property_string(nth(node.properties@, 1)) {
        Some(label) => spec_clean_fbx_object_label(label),
        None => spec_clean_fbx_object_label(default),
    }
}

fn object_name<N>(node: &FbxNode<N>, default: &str) -> (name: String)
    ensures
        name@ == spec_object_name(*node, default@),
{
    match property_string(property_at(&node.properties, 1)) {
        Some(label) => clean_fbx_object_label(label),
        None => clean_fbx_object_label(default),
    }
}

// ---------------------------------------------------------------- textures and videos

/// A texture object: its id, its name and the file path it names, if any.
#[derive(Clone, Debug)]
pub struct ParsedTexture {
    pub id: i64,
    pub name: String,
    pub file_path_hint: Option<String>,
}

/// A video object (the file behind a texture): its id and file path.
#[derive(Clone, Debug)]
pub struct ParsedVideo {
    pub id: i64,
    pub file_path_hint: Option<String>,
}

/// The view of an optional string.
pub open spec fn opt_view(s: Option<String>) -> Option<Seq<char>> {
    match s {
        Some(t) => Some(t@),
        None => None,
    }
}

/// Reads a `Texture` object node.
pub fn parse_texture<N>(node: &FbxNode<N>) -> (r: Result<Option<ParsedTexture>, ConversionError>)
    ensures
        match spec_object_id(*node) {
            None => r is Err && is_feature_error(
                r->Err_0,
                "Texture nodes must have an integer object id"@,
            ),
            Some(id) => r is Ok && r->Ok_0 is Some && r->Ok_0->0.id == id
                && r->Ok_0->0.name@ == spec_object_name(*node, "Texture"@) && opt_view(
                r->Ok_0->0.file_path_hint,
            ) == spec_external_file_path(*node),
        },
{
    let id = match property_i64(property_at(&node.properties, 0)) {
        Some(id) => id,
        None => return Err(feature_error("Texture nodes must have an integer object id")),
    };
    Ok(
        Some(
            ParsedTexture {
                id,
                name: object_name(node, "Texture"),
                file_path_hint: read_external_file_path(node),
            },
        ),
    )
}

/// Reads a `Video` object node.
pub fn parse_video<N>(node: &FbxNode<N>) -> (r: Result<Option<ParsedVideo>, ConversionError>)
    ensures
        match spec_object_id(*node) {
            None => r is Err && is_feature_error(r->Err_0, "Video nodes must have an integer object id"@),
            Some(id) => r is Ok && r->Ok_0 is Some && r->Ok_0->0.id == id && opt_view(
                r->Ok_0->0.file_path_hint,
            ) == spec_external_file_path(*node),
        },
{
    let id = match property_i64(property_at(&node.properties, 0)) {
        Some(id) => id,
        None => return Err(feature_error("Video nodes must have an integer object id")),
    };
    Ok(Some(ParsedVideo { id, file_path_hint: read_external_file_path(node) }))
}

// ---------------------------------------------------------------- layer elements

/// The contents of an attribute layer.
pub struct LayerSpec<T> {
    pub kind: LayerKind,
    pub mapping: LayerMapping,
    pub reference: ReferenceType,
    pub values: Seq<T>,
    pub indices: Seq<i32>,
}

/// The contents of `layer`.
pub open spec fn layer_view<T>(layer: AttributeLayer<T>) -> LayerSpec<T> {
    LayerSpec {
        kind: layer.kind,
        mapping: layer.mapping,
        reference: layer.reference,
        values: layer.values@,
        indices: layer.indices@,
    }
}

/// The contents of an optional layer.
pub open spec fn opt_layer_view<T>(layer: Option<AttributeLayer<T>>) -> Option<LayerSpec<T>> {
    match layer {
        Some(l) => Some(layer_view(l)),
        None => None,
    }
}

/// The FBX node name of a layer element.
pub open spec fn layer_element_name(kind: LayerKind) -> Seq<char> {
    match kind {
        LayerKind::Uv => "LayerElementUV"@,
        LayerKind::Normal => "LayerElementNormal"@,
    }
}

/// The first property of the first child of `node` named `child`.
pub open spec fn child_first_property<N>(node: FbxNode<N>, child: Seq<char>) -> Option<FbxProperty<N>> {
    match spec_find_node(node.children@, child) {
        Some(c) => nth(c.properties@, 0),
        None => None,
    }
}

fn child_first_property_exec<'a, N>(node: &'a FbxNode<N>, child: &str) -> (p: Option<&'a FbxProperty<N>>)
    ensures
        deref_option(p) == child_first_property(*node, child@),
{
    match find_node(&node.children, child) {
        Some(c) => property_at(&c.properties, 0),
        None => None,
    }
}

/// The mapping and reference modes of a layer element node.
pub open spec fn spec_layer_modes<N>(node: FbxNode<N>, kind: LayerKind) -> Result<(LayerMapping, ReferenceType), Seq<char>> {
    match spec_node_child_string(node, "MappingInformationType"@) {
        None => Err(layer_element_name(kind) + " is missing MappingInformationType"@),
        Some(m) => match spec_layer_mapping(m) {
            None => Err("unsupported layer mapping type: "@ + m),
            Some(mapping) => match spec_node_child_string(node, "ReferenceInformationType"@) {
                None => Err(layer_element_name(kind) + " is missing ReferenceInformationType"@),
                Some(r) => match spec_reference_type(r) {
                    None => Err("unsupported layer reference type: "@ + r),
                    Some(reference) => Ok((mapping, reference)),
                },
            },
        },
    }
}

fn parse_layer_modes<N>(node: &FbxNode<N>, kind: LayerKind) -> (r: Result<(LayerMapping, ReferenceType), ConversionError>)
    ensures
        feature_result(r, spec_layer_modes(*node, kind)),
{
    proof {
        reveal_strlit("LayerElementUV");
        reveal_strlit("LayerElementNormal");
        reveal_strlit(" is missing MappingInformationType");
        reveal_strlit(" is missing ReferenceInformationType");
        reveal_strlit("LayerElementUV is missing MappingInformationType");
        reveal_strlit("LayerElementNormal is missing MappingInformationType");
        reveal_strlit("LayerElementUV is missing ReferenceInformationType");
        reveal_strlit("LayerElementNormal is missing ReferenceInformationType");
    }
    let mapping_name = match node_child_string(node, "MappingInformationType") {
        Some(m) => m,
        None => {
            let message = match kind {
                LayerKind::Uv => "LayerElementUV is missing MappingInformationType",
                LayerKind::Normal => "LayerElementNormal is missing MappingInformationType",
            };
            assert(message@ =~= layer_element_name(kind) + " is missing MappingInformationType"@);
            return Err(feature_error(message));
        },
    };
    let mapping = match LayerMapping::from_fbx_value(mapping_name) {
        Ok(m) => m,
        Err(e) => return Err(e),
    };
    let reference_name = match node_child_string(node, "ReferenceInformationType") {
        Some(r) => r,
        None => {
            let message = match kind {
                LayerKind::Uv => "LayerElementUV is missing ReferenceInformationType",
                LayerKind::Normal => "LayerElementNormal is missing ReferenceInformationType",
            };
            assert(message@ =~= layer_element_name(kind) + " is missing ReferenceInformationType"@);
            return Err(feature_error(message));
        },
    };
    let reference = match ReferenceType::from_fbx_value(reference_name) {
        Ok(r) => r,
        Err(e) => return Err(e),
    };
    Ok((mapping, reference))
}

/// Consecutive pairs of `raw`.
pub open spec fn pairs<N>(raw: Seq<N>) -> Seq<(N, N)> {
    Seq::new(raw.len() / 2, |i: int| (raw[2 * i], raw[2 * i + 1]))
}

/// Consecutive triples of `raw`.
pub open spec fn triples<N>(raw: Seq<N>) -> Seq<(N, N, N)> {
    Seq::new(raw.len() / 3, |i: int| (raw[3 * i], raw[3 * i + 1], raw[3 * i + 2]))
}

/// Groups a flat array into pairs (UV coordinates).
pub fn chunk_pairs<N: Copy>(raw: &Vec<N>) -> (out: Vec<(N, N)>)
    requires
        raw.len() % 2 == 0,
    ensures
        out@ == pairs(raw@),
{
    let mut out: Vec<(N, N)> = Vec::new();
    let mut k: usize = 0;
    while k < raw.len() / 2
        invariant
            raw.len() % 2 == 0,
            k <= raw.len() / 2,
            out@.len() == k,
            forall|j: int| 0 <= j < k ==> #[trigger] out@[j] == (raw@[2 * j], raw@[2 * j + 1]),
        decreases raw.len() / 2 - k,
    {
        out.push((raw[2 * k], raw[2 * k + 1]));
        k = k + 1;
    }
    assert(out@ =~= pairs(raw@));
    out
}

/// Groups a flat array into triples (positions, normals).
pub fn chunk_triples<N: Copy>(raw: &Vec<N>) -> (out: Vec<(N, N, N)>)
    requires
        raw.len() % 3 == 0,
    ensures
        out@ == triples(raw@),
{
    let mut out: Vec<(N, N, N)> = Vec::new();
    let mut k: usize = 0;
    while k < raw.len() / 3
        invariant
            raw.len() % 3 == 0,
            k <= raw.len() / 3,
            out@.len() == k,
            forall|j: int|
                0 <= j < k ==> #[trigger] out@[j] == (raw@[3 * j], raw@[3 * j + 1], raw@[3 * j
                    + 2]),
        decreases raw.len() / 3 - k,
    {
        out.push((raw[3 * k], raw[3 * k + 1], raw[3 * k + 2]));
        k = k + 1;
    }
    assert(out@ =~= triples(raw@));
    out
}

/// The elements of an optional integer array, or none.
pub open spec fn i32_array_or_empty<N>(p: Option<FbxProperty<N>>) -> Seq<i32> {
    match spec_property_i32_array(p) {
        Some(v) => v,
        None => seq![],
    }
}

fn i32_array_or_empty_exec<N>(p: Option<&FbxProperty<N>>) -> (v: Vec<i32>)
    ensures
        v@ == i32_array_or_empty(deref_option(p)),
{
    match property_i32_array(p) {
        Some(v) => v,
        None => Vec::new(),
    }
}

/// The UV layer that a `LayerElementUV` node holds.
pub open spec fn spec_uv_layer<N>(node: FbxNode<N>) -> Result<LayerSpec<(N, N)>, Seq<char>> {
    match spec_layer_modes(node, LayerKind::Uv) {
        Err(m) => Err(m),
        Ok((mapping, reference)) => match spec_property_number_array(
            child_first_property(node, "UV"@),
        ) {
            None => Err("LayerElementUV is missing the UV array"@),
            Some(raw) => if raw.len() % 2 != 0 {
                Err("LayerElementUV UV array length is not divisible by 2"@)
            } else {
                Ok(
                    LayerSpec {
                        kind: LayerKind::Uv,
                        mapping,
                        reference,
                        values: pairs(raw),
                        indices: i32_array_or_empty(child_first_property(node, "UVIndex"@)),
                    },
                )
            },
        },
    }
}

/// Reads a `LayerElementUV` node.
pub fn parse_uv_layer<N: Copy>(node: &FbxNode<N>) -> (r: Result<AttributeLayer<(N, N)>, ConversionError>)
    ensures
        match spec_uv_layer(*node) {
            Ok(l) => r is Ok && layer_view(r->Ok_0) == l,
            Err(m) => r is Err && is_feature_error(r->Err_0, m),
        },
{
    let (mapping, reference) = match parse_layer_modes(node, LayerKind::Uv) {
        Ok(modes) => modes,
        Err(e) => return Err(e),
    };
    let raw = match property_number_array(child_first_property_exec(node, "UV")) {
        Some(raw) => raw,
        None => return Err(feature_error("LayerElementUV is missing the UV array")),
    };
    if raw.len() % 2 != 0 {
        return Err(feature_error("LayerElementUV UV array length is not divisible by 2"));
    }
    let values = chunk_pairs(&raw);
    let indices = i32_array_or_empty_exec(child_first_property_exec(node, "UVIndex"));
    Ok(AttributeLayer { kind: LayerKind::Uv, mapping, reference, values, indices })
}

/// The normal layer that a `LayerElementNormal` node holds, with the normals
/// as stored (they are normalized where they are turned into vectors).
pub open spec fn spec_normal_layer<N>(node: FbxNode<N>) -> Result<LayerSpec<(N, N, N)>, Seq<char>> {
    match spec_layer_modes(node, LayerKind::Normal) {
        Err(m) => Err(m),
        Ok((mapping, reference)) => match spec_property_number_array(
            child_first_property(node, "Normals"@),
        ) {
            None => Err("LayerElementNormal is missing the Normals array"@),
            Some(raw) => if raw.len() % 3 != 0 {
                Err("LayerElementNormal Normals array length is not divisible by 3"@)
            } else {
                Ok(
                    LayerSpec {
                        kind: LayerKind::Normal,
                        mapping,
                        reference,
                        values: triples(raw),
                        indices: i32_array_or_empty(child_first_property(node, "NormalsIndex"@)),
                    },
                )
            },
        },
    }
}

/// Reads a `LayerElementNormal` node.
pub fn parse_normal_layer<N: Copy>(node: &FbxNode<N>) -> (r: Result<AttributeLayer<(N, N, N)>, ConversionError>)
    ensures
        match spec_normal_layer(*node) {
            Ok(l) => r is Ok && layer_view(r->Ok_0) == l,
            Err(m) => r is Err && is_feature_error(r->Err_0, m),
        },
{
    let (mapping, reference) = match parse_layer_modes(node, LayerKind::Normal) {
        Ok(modes) => modes,
        Err(e) => return Err(e),
    };
    let raw = match property_number_array(child_first_property_exec(node, "Normals")) {
        Some(raw) => raw,
        None => return Err(feature_error("LayerElementNormal is missing the Normals array")),
    };
    if raw.len() % 3 != 0 {
        return Err(
            feature_error("LayerElementNormal Normals array length is not divisible by 3"),
        );
    }
    let values = chunk_triples(&raw);
    let indices = i32_array_or_empty_exec(child_first_property_exec(node, "NormalsIndex"));
    Ok(AttributeLayer { kind: LayerKind::Normal, mapping, reference, values, indices })
}

/// The contents of a material layer.
pub struct MaterialLayerSpec {
    pub mapping: MaterialMapping,
    pub materials: Seq<i32>,
}

/// The material layer that a `LayerElementMaterial` node holds.
pub open spec fn spec_material_layer<N>(node: FbxNode<N>) -> Result<MaterialLayerSpec, Seq<char>> {
    match spec_node_child_string(node, "MappingInformationType"@) {
        None => Err("LayerElementMaterial is missing MappingInformationType"@),
        Some(m) => match spec_material_mapping(m) {
            None => Err("unsupported material mapping type: "@ + m),
            Some(mapping) => Ok(
                MaterialLayerSpec {
                    mapping,
                    materials: i32_array_or_empty(child_first_property(node, "Materials"@)),
                },
            ),
        },
    }
}

/// The contents of `layer`.
pub open spec fn material_layer_view(layer: MaterialLayer) -> MaterialLayerSpec {
    MaterialLayerSpec { mapping: layer.mapping, materials: layer.materials@ }
}

/// Reads a `LayerElementMaterial` node.
pub fn parse_material_layer<N>(node: &FbxNode<N>) -> (r: Result<MaterialLayer, ConversionError>)
    ensures
        match spec_material_layer(*node) {
            Ok(l) => r is Ok && material_layer_view(r->Ok_0) == l,
            Err(m) => r is Err && is_feature_error(r->Err_0, m),
        },
{
    let mapping_name = match node_child_string(node, "MappingInformationType") {
        Some(m) => m,
        None => return Err(
            feature_error("LayerElementMaterial is missing MappingInformationType"),
        ),
    };
    let mapping = match MaterialMapping::from_fbx_value(mapping_name) {
        Ok(m) => m,
        Err(e) => return Err(e),
    };
    let materials = i32_array_or_empty_exec(child_first_property_exec(node, "Materials"));
    Ok(MaterialLayer { mapping, materials })
}

// ---------------------------------------------------------------- geometry

/// A polygon mesh geometry: control points, polygon corner list and the
/// optional UV, normal and material layers.
#[derive(Clone, Debug)]
pub struct Geometry<N> {
    pub id: i64,
    pub name: String,
    pub vertices: Vec<(N, N, N)>,
    pub polygon_vertex_indices: Vec<i32>,
    pub uv_layer: Option<AttributeLayer<(N, N)>>,
    pub normal_layer: Option<AttributeLayer<(N, N, N)>>,
    pub material_layer: Option<MaterialLayer>,
}

/// The contents of a geometry.
pub struct GeometrySpec<N> {
    pub id: i64,
    pub name: Seq<char>,
    pub vertices: Seq<(N, N, N)>,
    pub polygon_vertex_indices: Seq<i32>,
    pub uv_layer: Option<LayerSpec<(N, N)>>,
    pub normal_layer: Option<LayerSpec<(N, N, N)>>,
    pub material_layer: Option<MaterialLayerSpec>,
}

/// The contents of `g`.
pub open spec fn geometry_view<N>(g: Geometry<N>) -> GeometrySpec<N> {
    GeometrySpec {
        id: g.id,
        name: g.name@,
        vertices: g.vertices@,
        polygon_vertex_indices: g.polygon_vertex_indices@,
        uv_layer: opt_layer_view(g.uv_layer),
        normal_layer: opt_layer_view(g.normal_layer),
        material_layer: match g.material_layer {
            Some(l) => Some(material_layer_view(l)),
            None => None,
        },
    }
}

/// The optional layer read from the first child named `name`, if any.
pub open spec fn spec_optional_uv<N>(node: FbxNode<N>) -> Result<Option<LayerSpec<(N, N)>>, Seq<char>> {
    match spec_find_node(node.children@, "LayerElementUV"@) {
        None => Ok(None),
        Some(c) => match spec_uv_layer(c) {
            Ok(l) => Ok(Some(l)),
            Err(m) => Err(m),
        },
    }
}

/// The optional normal layer of a geometry node.
pub open spec fn spec_optional_normals<N>(node: FbxNode<N>) -> Result<Option<LayerSpec<(N, N, N)>>, Seq<char>> {
    match spec_find_node(node.children@, "LayerElementNormal"@) {
        None => Ok(None),
        Some(c) => match spec_normal_layer(c) {
            Ok(l) => Ok(Some(l)),
            Err(m) => Err(m),
        },
    }
}

/// The optional material layer of a geometry node.
pub open spec fn spec_optional_materials<N>(node: FbxNode<N>) -> Result<Option<MaterialLayerSpec>, Seq<char>> {
    match spec_find_node(node.children@, "LayerElementMaterial"@) {
        None => Ok(None),
        Some(c) => match spec_material_layer(c) {
            Ok(l) => Ok(Some(l)),
            Err(m) => Err(m),
        },
    }
}

/// What a `Geometry` object node holds: nothing when it is not a `Mesh`,
/// else the mesh, or the first problem met while reading it.
pub open spec fn spec_geometry<N>(node: FbxNode<N>) -> Result<Option<GeometrySpec<N>>, Seq<char>> {
    if spec_property_string(nth(node.properties@, 2)) != Some("Mesh"@) {
        Ok(None)
    } else {
        match spec_object_id(node) {
            None => Err("Geometry nodes must have an integer object id"@),
            Some(id) => match spec_find_node(node.children@, "Vertices"@) {
                None => Err("Geometry mesh is missing a Vertices array"@),
                Some(vertices_node) => match spec_find_node(node.children@, "PolygonVertexIndex"@) {
                    None => Err("Geometry mesh is missing a PolygonVertexIndex array"@),
                    Some(index_node) => match spec_property_number_array(
                        nth(vertices_node.properties@, 0),
                    ) {
                        None => Err("Vertices must be stored as a numeric array"@),
                        Some(raw) => match spec_property_i32_array(nth(index_node.properties@, 0)) {
                            None => Err("PolygonVertexIndex must be stored as an integer array"@),
                            Some(indices) => if raw.len() % 3 != 0 {
                                Err("Vertices array length is not divisible by 3"@)
                            } else {
                                match spec_optional_uv(node) {
                                    Err(m) => Err(m),
                                    Ok(uv) => match spec_optional_normals(node) {
                                        Err(m) => Err(m),
                                        Ok(normals) => match spec_optional_materials(node) {
                                            Err(m) => Err(m),
                                            Ok(materials) => Ok(
                                                Some(
                                                    GeometrySpec {
                                                        id,
                                                        name: spec_object_name(node, "Geometry"@),
                                                        vertices: triples(raw),
                                                        polygon_vertex_indices: indices,
                                                        uv_layer: uv,
                                                        normal_layer: normals,
                                                        material_layer: materials,
                                                    },
                                                ),
                                            ),
                                        },
                                    },
                                }
                            },
                        },
                    },
                },
            },
        }
    }
}

/// Reads a `Geometry` object node; a node that is not a `Mesh` gives
/// `Ok(None)`.
pub fn parse_geometry<N: Copy>(node: &FbxNode<N>) -> (r: Result<Option<Geometry<N>>, ConversionError>)
    ensures
        match spec_geometry(*node) {
            Ok(None) => r == Ok::<Option<Geometry<N>>, ConversionError>(None),
            Ok(Some(g)) => r is Ok && r->Ok_0 is Some && geometry_view(r->Ok_0->0) == g,
            Err(m) => r is Err && is_feature_error(r->Err_0, m),
        },
{
    let is_mesh = match property_string(property_at(&node.properties, 2)) {
        Some(kind) => str_equal(kind, "Mesh"),
        None => false,
    };
    if !is_mesh {
        return Ok(None);
    }
    let id = match property_i64(property_at(&node.properties, 0)) {
        Some(id) => id,
        None => return Err(feature_error("Geometry nodes must have an integer object id")),
    };
    let vertices_node = match find_node(&node.children, "Vertices") {
        Some(n) => n,
        None => return Err(feature_error("Geometry mesh is missing a Vertices array")),
    };
    let index_node = match find_node(&node.children, "PolygonVertexIndex") {
        Some(n) => n,
        None => return Err(feature_error("Geometry mesh is missing a PolygonVertexIndex array")),
    };
    let raw = match property_number_array(property_at(&vertices_node.properties, 0)) {
        Some(raw) => raw,
        None => return Err(feature_error("Vertices must be stored as a numeric array")),
    };
    let polygon_vertex_indices = match property_i32_array(property_at(&index_node.properties, 0)) {
        Some(v) => v,
        None => return Err(
            feature_error("PolygonVertexIndex must be stored as an integer array"),
        ),
    };
    if raw.len() % 3 != 0 {
        return Err(feature_error("Vertices array length is not divisible by 3"));
    }
    let vertices = chunk_triples(&raw);
    let uv_layer = match find_node(&node.children, "LayerElementUV") {
        Some(c) => match parse_uv_layer(c) {
            Ok(l) => Some(l),
            Err(e) => return Err(e),
        },
        None => None,
    };
    let normal_layer = match find_node(&node.children, "LayerElementNormal") {
        Some(c) => match parse_normal_layer(c) {
            Ok(l) => Some(l),
            Err(e) => return Err(e),
        },
        None => None,
    };
    let material_layer = match find_node(&node.children, "LayerElementMaterial") {
        Some(c) => match parse_material_layer(c) {
            Ok(l) => Some(l),
            Err(e) => return Err(e),
        },
        None => None,
    };
    proof {
        reveal_strlit("Mesh");
    }
    let geometry = Geometry {
        id,
        name: object_name(node, "Geometry"),
        vertices,
        polygon_vertex_indices,
        uv_layer,
        normal_layer,
        material_layer,
    };
    Ok(Some(geometry))
}

// ---------------------------------------------------------------- models

/// The local transform settings of a model, as found in its `Properties70`
/// records; a setting that is absent keeps the FBX default (no translation,
/// no rotation, unit scaling).
#[derive(Clone, Copy, Debug, PartialEq)]
pub struct ModelProperties<N> {
    pub translation: Option<Triple<N>>,
    pub rotation: Option<Triple<N>>,
    pub scaling: Option<Triple<N>>,
    pub rotation_order: RotationOrder,
}

/// A model (scene node) object.
#[derive(Clone, Debug)]
pub struct Model<N> {
    pub id: i64,
    pub name: String,
    pub properties: ModelProperties<N>,
}

/// The settings before any record is read.
pub open spec fn default_model_properties<N>() -> ModelProperties<N> {
    ModelProperties {
        translation: None,
        rotation: None,
        scaling: None,
        rotation_order: RotationOrder::Xyz,
    }
}

/// The model settings after reading the `P` records `records[i..]` on top of
/// `acc`; a later record overrides an earlier one.
pub open spec fn model_properties_from<N>(records: Seq<FbxNode<N>>, i: int, acc: ModelProperties<N>) -> Result<ModelProperties<N>, Seq<char>>
    decreases records.len() - i,
{
    if i < 0 || i >= records.len() {
        Ok(acc)
    } else {
        let r = records[i];
        if r.name@ != "P"@ {
            model_properties_from(records, i + 1, acc)
        } else {
            match spec_property_string(nth(r.properties@, 0)) {
                None => model_properties_from(records, i + 1, acc),
                Some(name) => if name == "Lcl Translation"@ {
                    match spec_record_triple(r.properties@) {
                        Ok(t) => model_properties_from(
                            records,
                            i + 1,
                            ModelProperties { translation: Some(t), ..acc },
                        ),
                        Err(m) => Err(m),
                    }
                } else if name == "Lcl Rotation"@ {
                    match spec_record_triple(r.properties@) {
                        Ok(t) => model_properties_from(
                            records,
                            i + 1,
                            ModelProperties { rotation: Some(t), ..acc },
                        ),
                        Err(m) => Err(m),
                    }
                } else if name == "Lcl Scaling"@ {
                    match spec_record_triple(r.properties@) {
                        Ok(t) => model_properties_from(
                            records,
                            i + 1,
                            ModelProperties { scaling: Some(t), ..acc },
                        ),
                        Err(m) => Err(m),
                    }
                } else if name == "RotationOrder"@ {
                    if r.properties@.len() <= 4 {
                        Err("RotationOrder property is missing its numeric value"@)
                    } else {
                        match spec_rotation_order(nth(r.properties@, 4)) {
                            Some(o) => model_properties_from(
                                records,
                                i + 1,
                                ModelProperties { rotation_order: o, ..acc },
                            ),
                            None => Err("RotationOrder property uses an unsupported value"@),
                        }
                    }
                } else {
                    model_properties_from(records, i + 1, acc)
                },
            }
        }
    }
}

/// The settings of a model node: from its `Properties70` child, if any.
pub open spec fn spec_model_properties<N>(node: FbxNode<N>) -> Result<ModelProperties<N>, Seq<char>> {
    match spec_find_node(node.children@, "Properties70"@) {
        Some(props) => model_properties_from(props.children@, 0, default_model_properties()),
        None => Ok(default_model_properties()),
    }
}

/// Reads a `Model` object node; its parent comes from the connections.
pub fn parse_model<N: Copy>(node: &FbxNode<N>) -> (r: Result<Option<Model<N>>, ConversionError>)
    ensures
        match spec_object_id(*node) {
            None => r is Err && is_feature_error(r->Err_0, "Model nodes must have an integer object id"@),
            Some(id) => match spec_model_properties(*node) {
                Ok(p) => r is Ok && r->Ok_0 is Some && r->Ok_0->0.id == id && r->Ok_0->0.name@
                    == spec_object_name(*node, "Model"@) && r->Ok_0->0.properties == p,
                Err(m) => r is Err && is_feature_error(r->Err_0, m),
            },
        },
{
    let id = match property_i64(property_at(&node.properties, 0)) {
        Some(id) => id,
        None => return Err(feature_error("Model nodes must have an integer object id")),
    };
    let name = object_name(node, "Model");
    let mut settings: ModelProperties<N> = ModelProperties {
        translation: None,
        rotation: None,
        scaling: None,
        rotation_order: RotationOrder::Xyz,
    };
    if let Some(properties) = find_node(&node.children, "Properties70") {
        let records = &properties.children;
        let mut i: usize = 0;
        #[verifier::loop_isolation(false)]
        while i < records.len()
            invariant
                i <= records.len(),
                model_properties_from(records@, i as int, settings) == model_properties_from(
                    records@,
                    0,
                    default_model_properties(),
                ),
            decreases records.len() - i,
        {
            let record = &records[i];
            if str_equal(record.name.as_str(), "P") {
                if let Some(property_name) = property_string(property_at(&record.properties, 0)) {
                    if str_equal(property_name, "Lcl Translation") {
                        match parse_property_record_vec3(record) {
                            Ok(t) => settings.translation = Some(t),
                            Err(e) => return Err(e),
                        }
                    } else if str_equal(property_name, "Lcl Rotation") {
                        match parse_property_record_vec3(record) {
                            Ok(t) => settings.rotation = Some(t),
                            Err(e) => return Err(e),
                        }
                    } else if str_equal(property_name, "Lcl Scaling") {
                        match parse_property_record_vec3(record) {
                            Ok(t) => settings.scaling = Some(t),
                            Err(e) => return Err(e),
                        }
                    } else if str_equal(property_name, "RotationOrder") {
                        if record.properties.len() <= 4 {
                            return Err(
                                feature_error(
                                    "RotationOrder property is missing its numeric value",
                                ),
                            );
                        }
                        match RotationOrder::from_fbx_value(property_at(&record.properties, 4)) {
                            Some(o) => settings.rotation_order = o,
                            None => return Err(
                                feature_error("RotationOrder property uses an unsupported value"),
                            ),
                        }
                    }
                }
            }
            i = i + 1;
        }
    }
    Ok(Some(Model { id, name, properties: settings }))
}

// ---------------------------------------------------------------- materials

/// How a material states its opacity.
#[derive(Clone, Copy, Debug, PartialEq)]
pub enum Opacity<N> {
    /// An `Opacity` record: the opacity itself.
    Direct(Number<N>),
    /// A `TransparencyFactor` record: the opacity is one minus it.
    FromTransparency(Number<N>),
}

/// The surface settings of a material, as found in its `Properties70`
/// records; an absent setting keeps the converter's default.
#[derive(Clone, Copy, Debug, PartialEq)]
pub struct MaterialProperties<N> {
    pub ambient: Option<Triple<N>>,
    pub diffuse: Option<Triple<N>>,
    pub specular: Option<Triple<N>>,
    pub emissive: Option<Triple<N>>,
    pub reflectivity: Option<Number<N>>,
    pub opacity: Option<Opacity<N>>,
}

/// A material object.
#[derive(Clone, Debug)]
pub struct ParsedMaterial<N> {
    pub id: i64,
    pub name: String,
    pub properties: MaterialProperties<N>,
}

/// The settings before any record is read.
pub open spec fn default_material_properties<N>() -> MaterialProperties<N> {
    MaterialProperties {
        ambient: None,
        diffuse: None,
        specular: None,
        emissive: None,
        reflectivity: None,
        opacity: None,
    }
}

/// Which setting a material record name sets: 0 ambient, 1 diffuse,
/// 2 specular, 3 emissive, 4 reflectivity, 5 opacity, 6 transparency,
/// 7 none.
pub open spec fn material_record_kind(name: Seq<char>) -> int {
    if name == "AmbientColor"@ || name == "Ambient"@ {
        0
    } else if name == "DiffuseColor"@ || name == "Diffuse"@ {
        1
    } else if name == "SpecularColor"@ || name == "Specular"@ {
        2
    } else if name == "EmissiveColor"@ || name == "Emissive"@ {
        3
    } else if name == "ReflectionFactor"@ || name == "Reflectivity"@ {
        4
    } else if name == "Opacity"@ {
        5
    } else if name == "TransparencyFactor"@ {
        6
    } else {
        7
    }
}

fn material_record_kind_exec(name: &str) -> (k: u8)
    ensures
        k as int == material_record_kind(name@),
{
    if str_equal(name, "AmbientColor") || str_equal(name, "Ambient") {
        0
    } else if str_equal(name, "DiffuseColor") || str_equal(name, "Diffuse") {
        1
    } else if str_equal(name, "SpecularColor") || str_equal(name, "Specular") {
        2
    } else if str_equal(name, "EmissiveColor") || str_equal(name, "Emissive") {
        3
    } else if str_equal(name, "ReflectionFactor") || str_equal(name, "Reflectivity") {
        4
    } else if str_equal(name, "Opacity") {
        5
    } else if str_equal(name, "TransparencyFactor") {
        6
    } else {
        7
    }
}

/// `acc` with the setting of kind `kind` read from record fields `props`.
pub open spec fn apply_material_record<N>(acc: MaterialProperties<N>, kind: int, props: Seq<FbxProperty<N>>) -> Result<MaterialProperties<N>, Seq<char>> {
    if kind <= 3 {
        match spec_record_triple(props) {
            Err(m) => Err(m),
            Ok(t) => Ok(
                if kind == 0 {
                    MaterialProperties { ambient: Some(t), ..acc }
                } else if kind == 1 {
                    MaterialProperties { diffuse: Some(t), ..acc }
                } else if kind == 2 {
                    MaterialProperties { specular: Some(t), ..acc }
                } else {
                    MaterialProperties { emissive: Some(t), ..acc }
                },
            ),
        }
    } else if kind <= 6 {
        match spec_record_number(props) {
            Err(m) => Err(m),
            Ok(v) => Ok(
                if kind == 4 {
                    MaterialProperties { reflectivity: Some(v), ..acc }
                } else if kind == 5 {
                    MaterialProperties { opacity: Some(Opacity::Direct(v)), ..acc }
                } else {
                    MaterialProperties { opacity: Some(Opacity::FromTransparency(v)), ..acc }
                },
            ),
        }
    } else {
        Ok(acc)
    }
}

/// The material settings after reading the `P` records `records[i..]` on
/// top of `acc`.
pub open spec fn material_properties_from<N>(records: Seq<FbxNode<N>>, i: int, acc: MaterialProperties<N>) -> Result<MaterialProperties<N>, Seq<char>>
    decreases records.len() - i,
{
    if i < 0 || i >= records.len() {
        Ok(acc)
    } else {
        let r = records[i];
        if r.name@ != "P"@ {
            material_properties_from(records, i + 1, acc)
        } else {
            match spec_property_string(nth(r.properties@, 0)) {
                None => material_properties_from(records, i + 1, acc),
                Some(name) => match apply_material_record(
                    acc,
                    material_record_kind(name),
                    r.properties@,
                ) {
                    Ok(next) => material_properties_from(records, i + 1, next),
                    Err(m) => Err(m),
                },
            }
        }
    }
}

/// The settings of a material node: from its `Properties70` child, if any.
pub open spec fn spec_material_properties<N>(node: FbxNode<N>) -> Result<MaterialProperties<N>, Seq<char>> {
    match spec_find_node(node.children@, "Properties70"@) {
        Some(props) => material_properties_from(props.children@, 0, default_material_properties()),
        None => Ok(default_material_properties()),
    }
}

/// Reads a `Material` object node.
pub fn parse_material<N: Copy>(node: &FbxNode<N>) -> (r: Result<Option<ParsedMaterial<N>>, ConversionError>)
    ensures
        match spec_object_id(*node) {
            None => r is Err && is_feature_error(r->Err_0, "Material nodes must have an integer object id"@),
            Some(id) => match spec_material_properties(*node) {
                Ok(p) => r is Ok && r->Ok_0 is Some && r->Ok_0->0.id == id && r->Ok_0->0.name@
                    == spec_object_name(*node, "Material"@) && r->Ok_0->0.properties == p,
                Err(m) => r is Err && is_feature_error(r->Err_0, m),
            },
        },
{
    let id = match property_i64(property_at(&node.properties, 0)) {
        Some(id) => id,
        None => return Err(feature_error("Material nodes must have an integer object id")),
    };
    let name = object_name(node, "Material");
    let mut settings: MaterialProperties<N> = MaterialProperties {
        ambient: None,
        diffuse: None,
        specular: None,
        emissive: None,
        reflectivity: None,
        opacity: None,
    };
    if let Some(properties) = find_node(&node.children, "Properties70") {
        let records = &properties.children;
        let mut i: usize = 0;
        #[verifier::loop_isolation(false)]
        while i < records.len()
            invariant
                i <= records.len(),
                material_properties_from(records@, i as int, settings)
                    == material_properties_from(records@, 0, default_material_properties()),
            decreases records.len() - i,
        {
            let record = &records[i];
            if str_equal(record.name.as_str(), "P") {
                if let Some(property_name) = property_string(property_at(&record.properties, 0)) {
                    let kind = material_record_kind_exec(property_name);
                    if kind <= 3 {
                        let t = match parse_property_record_vec3(record) {
                            Ok(t) => t,
                            Err(e) => return Err(e),
                        };
                        if kind == 0 {
                            settings.ambient = Some(t);
                        } else if kind == 1 {
                            settings.diffuse = Some(t);
                        } else if kind == 2 {
                            settings.specular = Some(t);
                        } else {
                            settings.emissive = Some(t);
                        }
                    } else if kind <= 6 {
                        let v = match parse_property_record_f64(record) {
                            Ok(v) => v,
                            Err(e) => return Err(e),
                        };
                        if kind == 4 {
                            settings.reflectivity = Some(v);
                        } else if kind == 5 {
                            settings.opacity = Some(Opacity::Direct(v));
                        } else {
                            settings.opacity = Some(Opacity::FromTransparency(v));
                        }
                    }
                }
            }
            i = i + 1;
        }
    }
    Ok(Some(ParsedMaterial { id, name, properties: settings }))
}

/// Record `r` is a `P` record for the setting `name`.
pub open spec fn is_named_record<N>(r: FbxNode<N>, name: Seq<char>) -> bool {
    r.name@ == "P"@ && spec_property_string(nth(r.properties@, 0)) == Some(name)
}

/// No record from position `i` on is for the setting `name`.
pub open spec fn record_absent_from<N>(records: Seq<FbxNode<N>>, name: Seq<char>, i: int) -> bool {
    forall|j: int| i <= j < records.len() ==> !is_named_record(#[trigger] records[j], name)
}

/// Record `r` is a `RotationOrder` record without a usable value: no fifth
/// field, or a number other than 0 to 5.
pub open spec fn bad_rotation_order<N>(r: FbxNode<N>) -> bool {
    is_named_record(r, "RotationOrder"@) && (r.properties@.len() <= 4 || spec_rotation_order(
        nth(r.properties@, 4),
    ) is None)
}

proof fn lemma_model_settings_from<N>(records: Seq<FbxNode<N>>, i: int, acc: ModelProperties<N>)
    requires
        0 <= i,
    ensures
        model_properties_from(records, i, acc) matches Ok(p) ==> {
            &&& record_absent_from(records, "Lcl Translation"@, i) ==> p.translation == acc.translation
            &&& record_absent_from(records, "Lcl Rotation"@, i) ==> p.rotation == acc.rotation
            &&& record_absent_from(records, "Lcl Scaling"@, i) ==> p.scaling == acc.scaling
            &&& record_absent_from(records, "RotationOrder"@, i) ==> p.rotation_order == acc.rotation_order
        },
        (exists|j: int| i <= j < records.len() && #[trigger] bad_rotation_order(records[j]))
            ==> model_properties_from(records, i, acc) is Err,
    decreases records.len() - i,
{
    if i < records.len() {
        let r = records[i];
        let next = if r.name@ != "P"@ {
            acc
        } else {
            match spec_property_string(nth(r.properties@, 0)) {
                None => acc,
                Some(name) => if name == "Lcl Translation"@ {
                    match spec_record_triple(r.properties@) {
                        Ok(t) => ModelProperties { translation: Some(t), ..acc },
                        Err(_) => acc,
                    }
                } else if name == "Lcl Rotation"@ {
                    match spec_record_triple(r.properties@) {
                        Ok(t) => ModelProperties { rotation: Some(t), ..acc },
                        Err(_) => acc,
                    }
                } else if name == "Lcl Scaling"@ {
                    match spec_record_triple(r.properties@) {
                        Ok(t) => ModelProperties { scaling: Some(t), ..acc },
                        Err(_) => acc,
                    }
                } else if name == "RotationOrder"@ {
                    match spec_rotation_order(nth(r.properties@, 4)) {
                        Some(o) => ModelProperties { rotation_order: o, ..acc },
                        None => acc,
                    }
                } else {
                    acc
                },
            }
        };
        lemma_model_settings_from(records, i + 1, next);
        if exists|j: int| i <= j < records.len() && #[trigger] bad_rotation_order(records[j]) {
            let j = choose|j: int| i <= j < records.len() && #[trigger] bad_rotation_order(records[j]);
            if j == i {
                reveal_strlit("RotationOrder");
                reveal_strlit("Lcl Translation");
                reveal_strlit("Lcl Rotation");
                reveal_strlit("Lcl Scaling");
                assert("RotationOrder"@.len() == 13);
                assert("Lcl Translation"@.len() == 15);
                assert("Lcl Rotation"@.len() == 12);
                assert("Lcl Scaling"@.len() == 11);
                assert(model_properties_from(records, i, acc) is Err);
            } else {
                assert(i + 1 <= j < records.len() && bad_rotation_order(records[j]));
                if model_properties_from(records, i, acc) is Ok {
                    assert(model_properties_from(records, i, acc) == model_properties_from(
                        records,
                        i + 1,
                        next,
                    ));
                }
            }
        }
        if record_absent_from(records, "Lcl Translation"@, i) {
            assert(!is_named_record(records[i], "Lcl Translation"@));
            assert(record_absent_from(records, "Lcl Translation"@, i + 1));
        }
        if record_absent_from(records, "Lcl Rotation"@, i) {
            assert(!is_named_record(records[i], "Lcl Rotation"@));
            assert(record_absent_from(records, "Lcl Rotation"@, i + 1));
        }
        if record_absent_from(records, "Lcl Scaling"@, i) {
            assert(!is_named_record(records[i], "Lcl Scaling"@));
            assert(record_absent_from(records, "Lcl Scaling"@, i + 1));
        }
        if record_absent_from(records, "RotationOrder"@, i) {
            assert(!is_named_record(records[i], "RotationOrder"@));
            assert(record_absent_from(records, "RotationOrder"@, i + 1));
        }
    }
}

/// The `P` records under a node's `Properties70` child (none without one).
pub open spec fn settings_records<N>(node: FbxNode<N>) -> Seq<FbxNode<N>> {
    match spec_find_node(node.children@, "Properties70"@) {
        Some(props) => props.children@,
        None => seq![],
    }
}

/// A model keeps each default setting that no record of its
/// `Properties70` child changes: no translation, rotation or scaling of its
/// own (the origin, no rotation, unit scale) and the X-Y-Z rotation order;
/// and a `RotationOrder` record without a fifth field, or with a value
/// other than 0 to 5, makes the model unreadable.
pub proof fn lemma_model_settings_default<N>(node: FbxNode<N>)
    ensures
        spec_model_properties(node) matches Ok(p) ==> {
            &&& record_absent_from(settings_records(node), "Lcl Translation"@, 0) ==> p.translation is None
            &&& record_absent_from(settings_records(node), "Lcl Rotation"@, 0) ==> p.rotation is None
            &&& record_absent_from(settings_records(node), "Lcl Scaling"@, 0) ==> p.scaling is None
            &&& record_absent_from(settings_records(node), "RotationOrder"@, 0) ==> p.rotation_order
                == RotationOrder::Xyz
        },
        (exists|j: int| 0 <= j < settings_records(node).len() && #[trigger] bad_rotation_order(
            settings_records(node)[j],
        )) ==> spec_model_properties(node) is Err,
{
    if let Some(props) = spec_find_node(node.children@, "Properties70"@) {
        lemma_model_settings_from(props.children@, 0, default_model_properties());
    }
}

} // verus!
