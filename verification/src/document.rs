//! The whole IDTF document of a scene, and the scene as it is written: with
//! a notice model at its root and every resource name made unique.
use vstd::prelude::*;
use vstd::string::*;
use crate::idtf::{
    IdtfNode, IdtfPart, IdtfScene, IdtfShading, shading_offset, append_line, append_line3, idtf_scene_wf, light_head, light_tail, ln,
    material_list, materials_text, node_block, nodes_text, parent_name, shader_list, shaders_text, texture_list,
    textures_before, view_head, view_tail, write_material, write_node, write_shader,
    write_texture_list,
};
use crate::idtf_model::{
    last_shader_named, model_list, modifiers_text, shader_id, write_model_list, write_modifiers,
};
use crate::names::{
    SceneNames, ShadingNames, ShadingNamesView, ensure_unique_scene_resource_names,
    is_first_free, lemma_uniquified_names_distinct, material_names, name_candidate, names_made_unique,
    resource_base, shader_names, shading_views,
};
use crate::part::SceneTriangle;
use crate::text::{decimal, decimal_string, string_from};

verus! {

/// The IDTF document of a scene: the view, the scene's nodes, the light,
/// then the shader, material, texture and model resources and the shading
/// modifiers.
pub open spec fn idtf_text(s: IdtfScene) -> Seq<char> {
    view_head() + s.view_translation@ + view_tail() + nodes_text(s, s.nodes@.len() as int)
        + light_head() + s.light_translation@ + light_tail() + shader_list(s) + material_list(s)
        + texture_list(s) + model_list(s) + modifiers_text(s, s.parts@.len() as int)
}

fn write_nodes(doc: &mut String, s: &IdtfScene)
    requires
        idtf_scene_wf(*s),
    ensures
        final(doc)@ == old(doc)@ + nodes_text(*s, s.nodes@.len() as int),
{
    let ghost start = doc@;
    let mut i: usize = 0;
    while i < s.nodes.len()
        invariant
            idtf_scene_wf(*s),
            i <= s.nodes@.len(),
            doc@ == start + nodes_text(*s, i as int),
        decreases s.nodes@.len() - i,
    {
        write_node(doc, s, i);
        assert(doc@ =~= start + nodes_text(*s, i + 1));
        i = i + 1;
    }
}

fn write_shader_list(doc: &mut String, s: &IdtfScene)
    requires
        idtf_scene_wf(*s),
    ensures
        final(doc)@ == old(doc)@ + shader_list(*s),
{
    let ghost start = doc@;
    append_line(doc, "RESOURCE_LIST \"SHADER\" {");
    append_line3(doc, "\tRESOURCE_COUNT ", decimal_string(s.shadings.len() as u64).as_str(), "");
    proof {
        reveal_strlit("");
    }
    let ghost head = doc@;
    let mut k: usize = 0;
    while k < s.shadings.len()
        invariant
            idtf_scene_wf(*s),
            k <= s.shadings@.len(),
            doc@ == head + shaders_text(*s, k as int),
        decreases s.shadings@.len() - k,
    {
        write_shader(doc, s, k);
        assert(doc@ =~= head + shaders_text(*s, k + 1));
        k = k + 1;
    }
    append_line(doc, "}");
    append_line(doc, "");
    assert(doc@ =~= start + shader_list(*s));
}

fn write_material_list(doc: &mut String, s: &IdtfScene)
    requires
        idtf_scene_wf(*s),
    ensures
        final(doc)@ == old(doc)@ + material_list(*s),
{
    let ghost start = doc@;
    append_line(doc, "RESOURCE_LIST \"MATERIAL\" {");
    append_line3(doc, "\tRESOURCE_COUNT ", decimal_string(s.shadings.len() as u64).as_str(), "");
    proof {
        reveal_strlit("");
    }
    let ghost head = doc@;
    let mut k: usize = 0;
    while k < s.shadings.len()
        invariant
            idtf_scene_wf(*s),
            k <= s.shadings@.len(),
            doc@ == head + materials_text(*s, k as int),
        decreases s.shadings@.len() - k,
    {
        write_material(doc, s, k);
        assert(doc@ =~= head + materials_text(*s, k + 1));
        k = k + 1;
    }
    append_line(doc, "}");
    append_line(doc, "");
    assert(doc@ =~= start + material_list(*s));
}

/// Writes the IDTF document of a scene whose lists agree with each other.
pub fn idtf_document_text(s: &IdtfScene) -> (out: String)
    requires
        idtf_scene_wf(*s),
    ensures
        out@ == idtf_text(*s),
{
    let mut doc = String::new();
    doc.append("FILE_FORMAT \"IDTF\"\nFORMAT_VERSION 100\n\nNODE \"VIEW\" {\n\tNODE_NAME \"DefaultView\"\n\tPARENT_LIST {\n\t\tPARENT_COUNT 1\n\t\tPARENT 0 {\n\t\t\tPARENT_NAME \"<NULL>\"\n\t\t\tPARENT_TM {\n\t\t\t\t1.000000 0.000000 0.000000 0.000000\n\t\t\t\t0.000000 0.258819 0.965926 0.000000\n\t\t\t\t0.000000 -0.965926 0.258819 0.000000\n\t\t\t\t");
    doc.append(s.view_translation.as_str());
    doc.append(" 1.000000\n\t\t\t}\n\t\t}\n\t}\n\tRESOURCE_NAME \"SceneViewResource\"\n\tVIEW_DATA {\n\t\tVIEW_TYPE \"PERSPECTIVE\"\n\t\tVIEW_PROJECTION 34.515877\n\t}\n}\n\n");
    write_nodes(&mut doc, s);
    doc.append("NODE \"LIGHT\" {\n\tNODE_NAME \"DefaultLight\"\n\tPARENT_LIST {\n\t\tPARENT_COUNT 1\n\t\tPARENT 0 {\n\t\t\tPARENT_NAME \"<NULL>\"\n\t\t\tPARENT_TM {\n\t\t\t\t1.000000 0.000000 0.000000 0.000000\n\t\t\t\t0.000000 1.000000 0.000000 0.000000\n\t\t\t\t0.000000 0.000000 1.000000 0.000000\n\t\t\t\t");
    doc.append(s.light_translation.as_str());
    doc.append(" 1.000000\n\t\t\t}\n\t\t}\n\t}\n\tRESOURCE_NAME \"DefaultPointLight\"\n}\n\nRESOURCE_LIST \"VIEW\" {\n\tRESOURCE_COUNT 1\n\tRESOURCE 0 {\n\t\tRESOURCE_NAME \"SceneViewResource\"\n\t\tVIEW_PASS_COUNT 1\n\t\tVIEW_ROOT_NODE_LIST {\n\t\t\tROOT_NODE 0 {\n\t\t\t\tROOT_NODE_NAME \"<NULL>\"\n\t\t\t}\n\t\t}\n\t}\n}\n\nRESOURCE_LIST \"LIGHT\" {\n\tRESOURCE_COUNT 1\n\tRESOURCE 0 {\n\t\tRESOURCE_NAME \"DefaultPointLight\"\n\t\tLIGHT_TYPE \"POINT\"\n\t\tLIGHT_COLOR 1.000000 1.000000 1.000000\n\t\tLIGHT_ATTENUATION 1.000000 0.000000 0.000000\n\t\tLIGHT_INTENSITY 1.000000\n\t}\n}\n\n");
    write_shader_list(&mut doc, s);
    write_material_list(&mut doc, s);
    write_texture_list(&mut doc, s);
    write_model_list(&mut doc, s);
    write_modifiers(&mut doc, s);
    assert(doc@ =~= idtf_text(*s));
    doc
}

// ---------------------------------------------------------------- the notice root

/// The name of the notice node at the root of every written scene.
pub open spec fn notice_node_name() -> Seq<char> {
    "FBX2U3D | https://github.com/MysticFrog/FBX2U3D | fbx2u3d@monkeyco.net | non-commercial output"@
}

/// The resource name of the notice mesh.
pub open spec fn notice_mesh_name() -> Seq<char> {
    "FBX2U3D_NoticeMesh"@
}

/// The names of the notice shading: its shader and material, no texture.
pub open spec fn notice_shading_names() -> ShadingNamesView {
    ShadingNamesView {
        shader: "FBX2U3D_NoticeShader"@,
        material: "FBX2U3D_NoticeMaterial"@,
        texture: None,
    }
}

/// The identity transform, rendered row by row.
pub open spec fn identity_rows() -> Seq<Seq<char>> {
    seq![
        "1.000000 0.000000 0.000000 0.000000"@,
        "0.000000 1.000000 0.000000 0.000000"@,
        "0.000000 0.000000 1.000000 0.000000"@,
        "0.000000 0.000000 0.000000 1.000000"@,
    ]
}

/// A zero vector, rendered.
pub open spec fn zero_vector() -> Seq<char> {
    "0.000000 0.000000 0.000000"@
}

/// The normal of the notice triangle, rendered.
pub open spec fn notice_normal() -> Seq<char> {
    "0.000000 0.000000 1.000000"@
}

/// The parent of a node once the notice node is the root: a root hangs
/// under the notice node, every other node under its shifted parent.
pub open spec fn rooted_parent(p: Option<usize>) -> Option<usize> {
    match p {
        Some(q) => Some((q + 1) as usize),
        None => Some(0usize),
    }
}

/// The one triangle of the notice mesh.
pub open spec fn notice_triangle() -> SceneTriangle {
    SceneTriangle {
        position_indices: [0usize, 1usize, 2usize],
        normal_indices: [0usize, 1usize, 2usize],
        shading_index: 0,
        texture_coord_indices: None,
    }
}

/// Node `b` is node `a` hung one place further down.
pub open spec fn shifted_node(a: IdtfNode, b: IdtfNode) -> bool {
    &&& b.parent_index == rooted_parent(a.parent_index)
    &&& b.mesh_index == a.mesh_index
    &&& b.transform_rows == a.transform_rows
}

/// Part `b` is part `a` shown by the node one place further down.
pub open spec fn shifted_part(a: IdtfPart, b: IdtfPart) -> bool {
    &&& b.node_index == a.node_index + 1
    &&& b.positions == a.positions
    &&& b.normals == a.normals
    &&& b.texture_coords == a.texture_coords
    &&& b.triangles == a.triangles
    &&& b.shading_count == a.shading_count
}

/// The nodes, parts and shadings of `new` are those of `old` under a new
/// root: the notice node first, showing a new last part, a triangle at
/// `positions` with one black, fully transparent shading. The view and
/// light stay where they were.
pub open spec fn notice_rooted(old: IdtfScene, new: IdtfScene, positions: Seq<String>) -> bool {
    let n = old.nodes@.len();
    let m = old.parts@.len();
    let k = old.shadings@.len();
    &&& new.nodes@.len() == n + 1
    &&& new.nodes@[0].parent_index is None
    &&& new.nodes@[0].mesh_index == Some(m as usize)
    &&& new.nodes@[0].transform_rows.deep_view() == identity_rows()
    &&& forall|i: int| 0 <= i < n ==> shifted_node(old.nodes@[i], #[trigger] new.nodes@[i + 1])
    &&& new.parts@.len() == m + 1
    &&& forall|j: int| 0 <= j < m ==> shifted_part(old.parts@[j], #[trigger] new.parts@[j])
    &&& new.parts@[m as int].node_index == 0
    &&& new.parts@[m as int].positions@ == positions
    &&& new.parts@[m as int].normals.deep_view() == seq![notice_normal(), notice_normal(), notice_normal()]
    &&& new.parts@[m as int].texture_coords@.len() == 0
    &&& new.parts@[m as int].triangles@ == seq![notice_triangle()]
    &&& new.parts@[m as int].shading_count == 1
    &&& new.shadings@.len() == k + 1
    &&& forall|i: int| 0 <= i < k ==> #[trigger] new.shadings@[i] == old.shadings@[i]
    &&& new.shadings@[k as int].ambient@ == zero_vector()
    &&& new.shadings@[k as int].diffuse@ == zero_vector()
    &&& new.shadings@[k as int].specular@ == zero_vector()
    &&& new.shadings@[k as int].emissive@ == zero_vector()
    &&& new.shadings@[k as int].reflectivity@ == "0.000000"@
    &&& new.shadings@[k as int].opacity@ == "0.000000"@
    &&& new.shadings@[k as int].texture_path is None
    &&& new.view_translation == old.view_translation
    &&& new.light_translation == old.light_translation
}

/// The names of `new` are those of `old` with the notice node first, the
/// notice mesh last and the notice shading last.
pub open spec fn notice_rooted_names(old: SceneNames, new: SceneNames) -> bool {
    &&& new.node_names.deep_view() == seq![notice_node_name()] + old.node_names.deep_view()
    &&& new.mesh_names.deep_view() == old.mesh_names.deep_view().push(notice_mesh_name())
    &&& shading_views(new.shadings@) == shading_views(old.shadings@).push(notice_shading_names())
}

/// Parts that agree on their shading counts agree on where each one's
/// shadings start.
proof fn lemma_shading_offset_agree(a: Seq<IdtfPart>, b: Seq<IdtfPart>, p: int)
    requires
        0 <= p <= a.len(),
        p <= b.len(),
        forall|j: int| 0 <= j < p ==> #[trigger] a[j].shading_count == b[j].shading_count,
    ensures
        shading_offset(a, p) == shading_offset(b, p),
    decreases p,
{
    if p > 0 {
        lemma_shading_offset_agree(a, b, p - 1);
    }
}

fn identity_rows_vec() -> (rows: Vec<String>)
    ensures
        rows.deep_view() == identity_rows(),
{
    let mut rows: Vec<String> = Vec::new();
    rows.push(string_from("1.000000 0.000000 0.000000 0.000000"));
    rows.push(string_from("0.000000 1.000000 0.000000 0.000000"));
    rows.push(string_from("0.000000 0.000000 1.000000 0.000000"));
    rows.push(string_from("0.000000 0.000000 0.000000 1.000000"));
    assert(rows.deep_view() =~= identity_rows());
    rows
}

fn shift_nodes(nodes: &mut Vec<IdtfNode>)
    requires
        old(nodes)@.len() + 1 < usize::MAX,
        forall|i: int|
            0 <= i < old(nodes)@.len() ==> (#[trigger] old(nodes)@[i].parent_index matches Some(p)
                ==> p < old(nodes)@.len()),
    ensures
        final(nodes)@.len() == old(nodes)@.len(),
        forall|i: int|
            0 <= i < old(nodes)@.len() ==> shifted_node(old(nodes)@[i], #[trigger] final(nodes)@[i]),
{
    let ghost before = nodes@;
    let mut i: usize = 0;
    while i < nodes.len()
        invariant
            nodes@.len() == before.len(),
            before.len() + 1 < usize::MAX,
            i <= before.len(),
            forall|j: int|
                0 <= j < before.len() ==> (#[trigger] before[j].parent_index matches Some(p) ==> p
                    < before.len()),
            forall|j: int| 0 <= j < i ==> shifted_node(before[j], #[trigger] nodes@[j]),
            forall|j: int| i <= j < before.len() ==> #[trigger] nodes@[j] == before[j],
        decreases before.len() - i,
    {
        let mut node = IdtfNode { parent_index: None, transform_rows: Vec::new(), mesh_index: None };
        nodes.set_and_swap(i, &mut node);
        assert(node == before[i as int]);
        node.parent_index = match node.parent_index {
            Some(p) => Some(p + 1),
            None => Some(0),
        };
        nodes.set_and_swap(i, &mut node);
        i = i + 1;
    }
}

fn shift_parts(parts: &mut Vec<IdtfPart>, node_count: usize)
    requires
        node_count + 1 < usize::MAX,
        forall|j: int| 0 <= j < old(parts)@.len() ==> #[trigger] old(parts)@[j].node_index < node_count,
    ensures
        final(parts)@.len() == old(parts)@.len(),
        forall|j: int|
            0 <= j < old(parts)@.len() ==> shifted_part(old(parts)@[j], #[trigger] final(parts)@[j]),
{
    let ghost before = parts@;
    let mut i: usize = 0;
    while i < parts.len()
        invariant
            parts@.len() == before.len(),
            node_count + 1 < usize::MAX,
            i <= before.len(),
            forall|j: int| 0 <= j < before.len() ==> #[trigger] before[j].node_index < node_count,
            forall|j: int| 0 <= j < i ==> shifted_part(before[j], #[trigger] parts@[j]),
            forall|j: int| i <= j < before.len() ==> #[trigger] parts@[j] == before[j],
        decreases before.len() - i,
    {
        let mut part = IdtfPart {
            node_index: 0,
            positions: Vec::new(),
            normals: Vec::new(),
            texture_coords: Vec::new(),
            triangles: Vec::new(),
            shading_count: 0,
        };
        parts.set_and_swap(i, &mut part);
        assert(part == before[i as int]);
        part.node_index = part.node_index + 1;
        parts.set_and_swap(i, &mut part);
        i = i + 1;
    }
}

/// The scene with the notice model at its root: every node moves one place
/// down and hangs under the notice node (a former root directly), every
/// part follows its node, and the notice node shows a new last part, one
/// triangle at the three `notice_positions` with a black, fully
/// transparent shading of its own.
pub fn scene_with_notice_root(scene: IdtfScene, notice_positions: Vec<String>) -> (out: IdtfScene)
    requires
        idtf_scene_wf(scene),
        notice_positions@.len() == 3,
        scene.nodes@.len() + 1 < usize::MAX,
    ensures
        notice_rooted(scene, out, notice_positions@),
        notice_rooted_names(scene.names, out.names),
        idtf_scene_wf(out),
{
    let ghost old_scene = scene;
    let IdtfScene { names, mut nodes, mut parts, mut shadings, view_translation, light_translation } =
        scene;
    let SceneNames { mut node_names, mut mesh_names, shadings: mut shading_names } = names;
    let m = parts.len();
    let n = nodes.len();
    let k = shadings.len();
    shift_nodes(&mut nodes);
    nodes.insert(0, IdtfNode { parent_index: None, transform_rows: identity_rows_vec(), mesh_index: Some(m) });
    shift_parts(&mut parts, n);
    let mut normals: Vec<String> = Vec::new();
    normals.push(string_from("0.000000 0.000000 1.000000"));
    normals.push(string_from("0.000000 0.000000 1.000000"));
    normals.push(string_from("0.000000 0.000000 1.000000"));
    assert(normals.deep_view() =~= seq![notice_normal(), notice_normal(), notice_normal()]);
    let mut triangles: Vec<SceneTriangle> = Vec::new();
    triangles.push(
        SceneTriangle {
            position_indices: [0, 1, 2],
            normal_indices: [0, 1, 2],
            shading_index: 0,
            texture_coord_indices: None,
        },
    );
    assert(triangles@ =~= seq![notice_triangle()]);
    parts.push(
        IdtfPart {
            node_index: 0,
            positions: notice_positions,
            normals,
            texture_coords: Vec::new(),
            triangles,
            shading_count: 1,
        },
    );
    shadings.push(
        IdtfShading {
            ambient: string_from("0.000000 0.000000 0.000000"),
            diffuse: string_from("0.000000 0.000000 0.000000"),
            specular: string_from("0.000000 0.000000 0.000000"),
            emissive: string_from("0.000000 0.000000 0.000000"),
            reflectivity: string_from("0.000000"),
            opacity: string_from("0.000000"),
            texture_path: None,
        },
    );
    node_names.insert(
        0,
        string_from(
            "FBX2U3D | https://github.com/MysticFrog/FBX2U3D | fbx2u3d@monkeyco.net | non-commercial output",
        ),
    );
    mesh_names.push(string_from("FBX2U3D_NoticeMesh"));
    shading_names.push(
        ShadingNames {
            shader_name: string_from("FBX2U3D_NoticeShader"),
            material_name: string_from("FBX2U3D_NoticeMaterial"),
            texture_name: None,
        },
    );
    let out = IdtfScene {
        names: SceneNames { node_names, mesh_names, shadings: shading_names },
        nodes,
        parts,
        shadings,
        view_translation,
        light_translation,
    };
    proof {
        assert(out.names.node_names.deep_view() =~= seq![notice_node_name()]
            + old_scene.names.node_names.deep_view());
        assert(out.names.mesh_names.deep_view() =~= old_scene.names.mesh_names.deep_view().push(
            notice_mesh_name(),
        ));
        assert(shading_views(out.names.shadings@) =~= shading_views(old_scene.names.shadings@).push(
            notice_shading_names(),
        ));
        assert forall|i: int| 0 <= i < n implies shifted_node(
            old_scene.nodes@[i],
            #[trigger] out.nodes@[i + 1],
        ) by {}
        lemma_shading_offset_agree(old_scene.parts@, out.parts@, m as int);
        assert(shading_offset(out.parts@, m + 1) == shading_offset(out.parts@, m as int) + 1);
        assert forall|i: int| 0 <= i < out.nodes@.len() implies (#[trigger] out.nodes@[i].parent_index matches Some(p)
            ==> p < out.nodes@.len()) by {
            if i > 0 {
                assert(shifted_node(old_scene.nodes@[i - 1], out.nodes@[(i - 1) + 1]));
            }
        }
        assert forall|i: int| 0 <= i < out.nodes@.len() implies (#[trigger] out.nodes@[i].mesh_index matches Some(q)
            ==> q < out.parts@.len()) by {
            if i > 0 {
                assert(shifted_node(old_scene.nodes@[i - 1], out.nodes@[(i - 1) + 1]));
            }
        }
        assert forall|i: int| 0 <= i < out.nodes@.len() implies #[trigger] out.nodes@[i].transform_rows@.len() == 4 by {
            if i == 0 {
                assert(out.nodes@[0].transform_rows.deep_view().len() == 4);
            } else {
                assert(shifted_node(old_scene.nodes@[i - 1], out.nodes@[(i - 1) + 1]));
            }
        }
        assert forall|j: int| 0 <= j < out.parts@.len() implies #[trigger] out.parts@[j].node_index < out.nodes@.len() by {
            if j < m {
                assert(shifted_part(old_scene.parts@[j], out.parts@[j]));
            }
        }
        assert forall|q: int| 0 <= q < out.shadings@.len() implies (#[trigger] out.shadings@[q].texture_path is Some
            <==> out.names.shadings@[q].texture_name is Some) by {
            if q < k {
                assert(out.shadings@[q] == old_scene.shadings@[q]);
                assert(out.names.shadings@[q] == old_scene.names.shadings@[q]);
            }
        }
    }
    out
}

// ---------------------------------------------------------------- the written scene

/// `new` is `old` as it is written: rooted at the notice model (the three
/// notice corners at `positions`), with every resource name made unique.
pub open spec fn prepared_scene(old: IdtfScene, positions: Seq<String>, new: IdtfScene) -> bool {
    &&& notice_rooted(old, new, positions)
    &&& names_made_unique(
        seq![notice_node_name()] + old.names.node_names.deep_view(),
        old.names.mesh_names.deep_view().push(notice_mesh_name()),
        shading_views(old.names.shadings@).push(notice_shading_names()),
        new.names,
    )
}

/// The scene as it is written: the notice root added, then every resource
/// name made unique.
pub fn prepare_idtf_scene(scene: IdtfScene, notice_positions: Vec<String>) -> (out: IdtfScene)
    requires
        idtf_scene_wf(scene),
        notice_positions@.len() == 3,
        scene.nodes@.len() + 3 < usize::MAX,
        scene.parts@.len() + 3 < usize::MAX,
        scene.shadings@.len() + 3 < usize::MAX,
    ensures
        prepared_scene(scene, notice_positions@, out),
        idtf_scene_wf(out),
{
    let ghost old_scene = scene;
    let mut s = scene_with_notice_root(scene, notice_positions);
    let ghost rooted = s;
    ensure_unique_scene_resource_names(&mut s.names);
    proof {
        let before = shading_views(rooted.names.shadings@);
        let after = shading_views(s.names.shadings@);
        assert(s.names.node_names.deep_view().len() == rooted.names.node_names.deep_view().len());
        assert(s.names.mesh_names.deep_view().len() == rooted.names.mesh_names.deep_view().len());
        assert(after.len() == before.len());
        assert forall|q: int| 0 <= q < s.shadings@.len() implies (#[trigger] s.shadings@[q].texture_path is Some
            <==> s.names.shadings@[q].texture_name is Some) by {
            assert(after[q].texture is Some <==> before[q].texture is Some);
            assert(rooted.shadings@[q].texture_path is Some <==> rooted.names.shadings@[q].texture_name is Some);
        }
    }
    s
}

/// In a scene as it is written, no two nodes, mesh resources, shaders or
/// materials share a name.
pub proof fn lemma_prepared_names_distinct(old: IdtfScene, positions: Seq<String>, new: IdtfScene)
    requires
        prepared_scene(old, positions, new),
    ensures
        new.names.node_names.deep_view().no_duplicates(),
        new.names.mesh_names.deep_view().no_duplicates(),
        shader_names(shading_views(new.names.shadings@)).no_duplicates(),
        material_names(shading_views(new.names.shadings@)).no_duplicates(),
{
    let shadings = shading_views(old.names.shadings@).push(notice_shading_names());
    lemma_uniquified_names_distinct(
        seq![notice_node_name()] + old.names.node_names.deep_view(),
        new.names.node_names.deep_view(),
        "Node"@,
    );
    lemma_uniquified_names_distinct(
        old.names.mesh_names.deep_view().push(notice_mesh_name()),
        new.names.mesh_names.deep_view(),
        "Mesh"@,
    );
    lemma_uniquified_names_distinct(
        shader_names(shadings),
        shader_names(shading_views(new.names.shadings@)),
        "Shader"@,
    );
    lemma_uniquified_names_distinct(
        material_names(shadings),
        material_names(shading_views(new.names.shadings@)),
        "Material"@,
    );
}

/// The IDTF document of a scene: the scene is rooted at the notice model
/// (its three corners at `notice_positions`), its resource names are made
/// unique, and the result is written out.
pub fn idtf_document(scene: IdtfScene, notice_positions: Vec<String>) -> (out: String)
    requires
        idtf_scene_wf(scene),
        notice_positions@.len() == 3,
        scene.nodes@.len() + 3 < usize::MAX,
        scene.parts@.len() + 3 < usize::MAX,
        scene.shadings@.len() + 3 < usize::MAX,
    ensures
        exists|p: IdtfScene|
            #[trigger] prepared_scene(scene, notice_positions@, p) && idtf_scene_wf(p) && out@
                == idtf_text(p),
{
    let ghost positions = notice_positions@;
    let prepared = prepare_idtf_scene(scene, notice_positions);
    let out = idtf_document_text(&prepared);
    assert(prepared_scene(scene, positions, prepared));
    out
}

// ---------------------------------------------------------------- counts

/// The positions of the first `p` parts, counted.
pub open spec fn vertices_before(parts: Seq<IdtfPart>, p: int) -> int
    decreases p,
{
    if p <= 0 {
        0
    } else {
        vertices_before(parts, p - 1) + parts[p - 1].positions@.len()
    }
}

/// The triangles of the first `p` parts, counted.
pub open spec fn triangles_before(parts: Seq<IdtfPart>, p: int) -> int
    decreases p,
{
    if p <= 0 {
        0
    } else {
        triangles_before(parts, p - 1) + parts[p - 1].triangles@.len()
    }
}

/// What a conversion reports of a scene.
#[derive(Clone, Copy, Debug, PartialEq, Eq)]
pub struct SceneCounts {
    pub nodes: usize,
    pub parts: usize,
    pub vertices: usize,
    pub triangles: usize,
    pub materials: usize,
    pub textured_shaders: usize,
}

/// The counts of a scene: its nodes, parts, vertices (positions over all
/// parts), triangles, materials (shadings over all parts) and textured
/// shadings; none when a sum does not fit in `usize`.
pub fn scene_counts(s: &IdtfScene) -> (c: Option<SceneCounts>)
    requires
        idtf_scene_wf(*s),
    ensures
        c is None <==> (vertices_before(s.parts@, s.parts@.len() as int) > usize::MAX
            || triangles_before(s.parts@, s.parts@.len() as int) > usize::MAX),
        c matches Some(counts) ==> {
            &&& counts.nodes == s.nodes@.len()
            &&& counts.parts == s.parts@.len()
            &&& counts.vertices == vertices_before(s.parts@, s.parts@.len() as int)
            &&& counts.triangles == triangles_before(s.parts@, s.parts@.len() as int)
            &&& counts.materials == s.shadings@.len()
            &&& counts.textured_shaders == textures_before(*s, s.shadings@.len() as int)
        },
{
    let n = s.parts.len();
    let mut vertices: usize = 0;
    let mut triangles: usize = 0;
    let mut p: usize = 0;
    let mut overflow = false;
    while p < n
        invariant
            n == s.parts@.len(),
            p <= n,
            !overflow ==> vertices == vertices_before(s.parts@, p as int),
            !overflow ==> triangles == triangles_before(s.parts@, p as int),
            overflow ==> (vertices_before(s.parts@, p as int) > usize::MAX || triangles_before(
                s.parts@,
                p as int,
            ) > usize::MAX),
        decreases n - p,
    {
        let part = &s.parts[p];
        if !overflow {
            match (vertices.checked_add(part.positions.len()), triangles.checked_add(part.triangles.len())) {
                (Some(v), Some(t)) => {
                    vertices = v;
                    triangles = t;
                },
                _ => {
                    overflow = true;
                },
            }
        }
        proof {
            lemma_counts_grow(s.parts@, p + 1);
        }
        p = p + 1;
    }
    if overflow {
        return None;
    }
    let mut textured: usize = 0;
    let mut k: usize = 0;
    while k < s.shadings.len()
        invariant
            idtf_scene_wf(*s),
            k <= s.shadings@.len(),
            textured == textures_before(*s, k as int),
            textured <= k,
        decreases s.shadings@.len() - k,
    {
        if s.names.shadings[k].texture_name.is_some() {
            textured = textured + 1;
        }
        k = k + 1;
    }
    Some(
        SceneCounts {
            nodes: s.nodes.len(),
            parts: n,
            vertices,
            triangles,
            materials: s.shadings.len(),
            textured_shaders: textured,
        },
    )
}

/// Counting more parts never gives fewer vertices or triangles.
proof fn lemma_counts_grow(parts: Seq<IdtfPart>, p: int)
    requires
        p >= 1,
    ensures
        vertices_before(parts, p - 1) <= vertices_before(parts, p),
        triangles_before(parts, p - 1) <= triangles_before(parts, p),
{
}

/// With shader names all different, the last shading whose shader bears
/// the name of shading `k`'s is `k` itself.
proof fn lemma_last_shader_is_own(s: IdtfScene, k: int, n: int)
    requires
        0 <= k < n <= s.names.shadings@.len(),
        shader_names(shading_views(s.names.shadings@)).no_duplicates(),
    ensures
        last_shader_named(s, s.names.shadings@[k].shader_name@, n) == Some(k),
    decreases n,
{
    let names = shader_names(shading_views(s.names.shadings@));
    if n > k + 1 {
        assert(names[n - 1] == s.names.shadings@[n - 1].shader_name@);
        assert(names[k] == s.names.shadings@[k].shader_name@);
        lemma_last_shader_is_own(s, k, n - 1);
    }
}

/// In a scene as it is written, each shading is described with its own
/// shader: the shader that bears its shader's name is the one at its own
/// position.
pub proof fn lemma_prepared_shader_ids_are_positions(old: IdtfScene, positions: Seq<String>, new: IdtfScene)
    requires
        idtf_scene_wf(old),
        prepared_scene(old, positions, new),
    ensures
        forall|k: int| 0 <= k < new.shadings@.len() ==> #[trigger] shader_id(new, k) == k,
{
    lemma_prepared_names_distinct(old, positions, new);
    let views = shading_views(new.names.shadings@);
    assert(shader_names(views).len() == shader_names(shading_views(old.names.shadings@).push(
        notice_shading_names(),
    )).len());
    assert(new.names.shadings@.len() == new.shadings@.len());
    assert forall|k: int| 0 <= k < new.shadings@.len() implies #[trigger] shader_id(new, k) == k by {
        lemma_last_shader_is_own(new, k, new.shadings@.len() as int);
    }
}

/// The first two lines of node `i`'s block: `NODE "MODEL"` for a node that
/// shows a part, `NODE "GROUP"` for one that does not, then its name.
pub open spec fn node_opening(s: IdtfScene, i: int) -> Seq<char> {
    ln(
        if s.nodes@[i].mesh_index is Some {
            "NODE \"MODEL\" {"@
        } else {
            "NODE \"GROUP\" {"@
        },
    ) + ln("\tNODE_NAME \""@ + s.names.node_names@[i]@ + "\""@)
}

proof fn lemma_notice_name_settled()
    ensures
        crate::text::spec_sanitize_idtf_name(notice_node_name()) == notice_node_name(),
        !crate::text::spec_is_blank(notice_node_name()),
{
    reveal_strlit(
        "FBX2U3D | https://github.com/MysticFrog/FBX2U3D | fbx2u3d@monkeyco.net | non-commercial output",
    );
    assert(crate::text::spec_sanitize_idtf_name(notice_node_name()) =~= notice_node_name());
    assert(!crate::text::is_unicode_whitespace(notice_node_name()[0]));
}

/// The shape of the document of a scene as it is written: the notice model
/// is the first node, named as the notice and hung under no node, showing
/// the last part; after it come the scene's own nodes in order, one block
/// each (`nodes_text`), a `MODEL` block exactly for a node that shows a
/// part and a `GROUP` block otherwise; the model, shader and material lists
/// count one entry more than the scene has parts and shadings, for the
/// notice model.
pub proof fn lemma_document_shape(old: IdtfScene, positions: Seq<String>, new: IdtfScene)
    requires
        idtf_scene_wf(old),
        prepared_scene(old, positions, new),
    ensures
        new.nodes@.len() == old.nodes@.len() + 1,
        new.parts@.len() == old.parts@.len() + 1,
        new.shadings@.len() == old.shadings@.len() + 1,
        new.names.node_names@[0]@ == notice_node_name(),
        new.nodes@[0].mesh_index == Some(old.parts@.len() as usize),
        parent_name(new, 0) == "<NULL>"@,
        forall|i: int| 0 <= i < new.nodes@.len() ==> #[trigger] node_opening(new, i).is_prefix_of(node_block(new, i)),
        forall|i: int|
            1 <= i < new.nodes@.len() ==> (#[trigger] new.nodes@[i].mesh_index is Some
                <==> old.nodes@[i - 1].mesh_index is Some),
        (ln("RESOURCE_LIST \"MODEL\" {"@) + ln(
            "\tRESOURCE_COUNT "@ + decimal((old.parts@.len() + 1) as nat),
        )).is_prefix_of(model_list(new)),
        (ln("RESOURCE_LIST \"SHADER\" {"@) + ln(
            "\tRESOURCE_COUNT "@ + decimal((old.shadings@.len() + 1) as nat),
        )).is_prefix_of(shader_list(new)),
        (ln("RESOURCE_LIST \"MATERIAL\" {"@) + ln(
            "\tRESOURCE_COUNT "@ + decimal((old.shadings@.len() + 1) as nat),
        )).is_prefix_of(material_list(new)),
{
    let names = seq![notice_node_name()] + old.names.node_names.deep_view();
    let unique = new.names.node_names.deep_view();
    assert(is_first_free(unique[0], resource_base(names[0], crate::names::numbered("Node"@, 0)), unique.take(0)));
    lemma_notice_name_settled();
    assert(names[0] == notice_node_name());
    assert(resource_base(names[0], crate::names::numbered("Node"@, 0)) == notice_node_name());
    let k = choose|k: nat|
        #![trigger name_candidate(notice_node_name(), k)]
        1 <= k && unique[0] == name_candidate(notice_node_name(), k) && !unique.take(0).contains(unique[0])
            && forall|j: nat| 1 <= j < k ==> unique.take(0).contains(#[trigger] name_candidate(notice_node_name(), j));
    if k > 1 {
        assert(unique.take(0).contains(name_candidate(notice_node_name(), 1)));
    }
    assert(unique[0] == new.names.node_names@[0]@);
    assert forall|i: int| 0 <= i < new.nodes@.len() implies #[trigger] node_opening(new, i).is_prefix_of(node_block(new, i)) by {
        let a = node_opening(new, i);
        let b = node_block(new, i);
        assert(b.subrange(0, a.len() as int) =~= a);
    }
    assert forall|i: int| 1 <= i < new.nodes@.len() implies (#[trigger] new.nodes@[i].mesh_index is Some
        <==> old.nodes@[i - 1].mesh_index is Some) by {
        assert(shifted_node(old.nodes@[i - 1], new.nodes@[(i - 1) + 1]));
    }
    let mh = ln("RESOURCE_LIST \"MODEL\" {"@) + ln("\tRESOURCE_COUNT "@ + decimal((old.parts@.len() + 1) as nat));
    assert(model_list(new).subrange(0, mh.len() as int) =~= mh);
    let sh = ln("RESOURCE_LIST \"SHADER\" {"@) + ln("\tRESOURCE_COUNT "@ + decimal((old.shadings@.len() + 1) as nat));
    assert(shader_list(new).subrange(0, sh.len() as int) =~= sh);
    let th = ln("RESOURCE_LIST \"MATERIAL\" {"@) + ln("\tRESOURCE_COUNT "@ + decimal((old.shadings@.len() + 1) as nat));
    assert(material_list(new).subrange(0, th.len() as int) =~= th);
}

proof fn lemma_notice_mesh_name_settled()
    ensures
        crate::text::spec_sanitize_idtf_name(notice_mesh_name()) == notice_mesh_name(),
        !crate::text::spec_is_blank(notice_mesh_name()),
{
    reveal_strlit("FBX2U3D_NoticeMesh");
    assert(crate::text::spec_sanitize_idtf_name(notice_mesh_name()) =~= notice_mesh_name());
    assert(!crate::text::is_unicode_whitespace(notice_mesh_name()[0]));
}

/// The notice mesh is the last entry of the model list, the one the notice
/// node shows; it keeps its name `FBX2U3D_NoticeMesh` unless a mesh of the
/// scene already holds that name.
pub proof fn lemma_notice_mesh_last(old: IdtfScene, positions: Seq<String>, new: IdtfScene)
    requires
        idtf_scene_wf(old),
        prepared_scene(old, positions, new),
    ensures
        new.parts@.len() == old.parts@.len() + 1,
        new.nodes@[0].mesh_index == Some(old.parts@.len() as usize),
        !new.names.mesh_names.deep_view().take(old.parts@.len() as int).contains(notice_mesh_name())
            ==> new.names.mesh_names@[old.parts@.len() as int]@ == notice_mesh_name(),
{
    lemma_document_shape(old, positions, new);
    let n = old.parts@.len() as int;
    let names = old.names.mesh_names.deep_view().push(notice_mesh_name());
    let unique = new.names.mesh_names.deep_view();
    assert(names.len() == n + 1);
    assert(unique.len() == names.len());
    assert(is_first_free(unique[n], resource_base(names[n], crate::names::numbered("Mesh"@, n)), unique.take(n)));
    lemma_notice_mesh_name_settled();
    assert(names[n] == notice_mesh_name());
    assert(resource_base(names[n], crate::names::numbered("Mesh"@, n)) == notice_mesh_name());
    if !unique.take(n).contains(notice_mesh_name()) {
        let k = choose|k: nat|
            #![trigger name_candidate(notice_mesh_name(), k)]
            1 <= k && unique[n] == name_candidate(notice_mesh_name(), k) && !unique.take(n).contains(unique[n])
                && forall|j: nat| 1 <= j < k ==> unique.take(n).contains(#[trigger] name_candidate(notice_mesh_name(), j));
        if k > 1 {
            assert(unique.take(n).contains(name_candidate(notice_mesh_name(), 1)));
        }
        assert(unique[n] == new.names.mesh_names@[n]@);
    }
}

} // verus!
