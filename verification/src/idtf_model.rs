//! The model resources of an IDTF document (one mesh per scene part, with
//! its shading descriptions, face lists and vertex lists) and the shading
//! modifier that binds each part's shaders to its node.
use vstd::prelude::*;
use vstd::string::*;
use crate::idtf::{
    IdtfScene, append_line, append_line3, append_lines, idtf_scene_wf, is_textured,
    lemma_shading_offset_grows, lines_of, ln, shading_offset, texture_flag,
};
use crate::part::SceneTriangle;
use crate::text::{decimal, decimal_string, str_equal};

verus! {

/// Three indices as the document writes them, separated by spaces.
pub open spec fn index_triple(t: [usize; 3]) -> Seq<char> {
    decimal(t[0] as nat) + " "@ + decimal(t[1] as nat) + " "@ + decimal(t[2] as nat)
}

fn triple_text(t: [usize; 3]) -> (out: String)
    ensures
        out@ == index_triple(t),
{
    let mut out = decimal_string(t[0] as u64);
    let b = decimal_string(t[1] as u64);
    let c = decimal_string(t[2] as u64);
    out.append(" ");
    out.append(b.as_str());
    out.append(" ");
    out.append(c.as_str());
    proof {
        reveal_strlit(" ");
    }
    assert(out@ =~= index_triple(t));
    out
}

/// Which per-face column of the triangles a face list shows.
#[derive(Clone, Copy, Debug)]
pub enum FaceColumn {
    Position,
    Normal,
    Shading,
}

/// The entry of triangle `t` in the face list of column `c`.
pub open spec fn face_entry(t: SceneTriangle, c: FaceColumn) -> Seq<char> {
    match c {
        FaceColumn::Position => index_triple(t.position_indices),
        FaceColumn::Normal => index_triple(t.normal_indices),
        FaceColumn::Shading => decimal(t.shading_index as nat),
    }
}

/// The face list lines of the first `n` triangles.
pub open spec fn face_entries(tris: Seq<SceneTriangle>, c: FaceColumn, n: int) -> Seq<char>
    decreases n,
{
    if n <= 0 {
        seq![]
    } else {
        face_entries(tris, c, n - 1) + ln("\t\t\t\t"@ + face_entry(tris[n - 1], c))
    }
}

fn write_face_entries(doc: &mut String, tris: &Vec<SceneTriangle>, c: FaceColumn)
    ensures
        final(doc)@ == old(doc)@ + face_entries(tris@, c, tris@.len() as int),
{
    let ghost start = doc@;
    let mut i: usize = 0;
    while i < tris.len()
        invariant
            i <= tris@.len(),
            doc@ == start + face_entries(tris@, c, i as int),
        decreases tris@.len() - i,
    {
        let t = tris[i];
        let entry = match c {
            FaceColumn::Position => triple_text(t.position_indices),
            FaceColumn::Normal => triple_text(t.normal_indices),
            FaceColumn::Shading => decimal_string(t.shading_index as u64),
        };
        append_line3(doc, "\t\t\t\t", entry.as_str(), "");
        proof {
            reveal_strlit("");
        }
        assert(doc@ =~= start + face_entries(tris@, c, i + 1));
        i = i + 1;
    }
}

/// The texture coordinate faces of the first `n` triangles: one entry for
/// each triangle that has texture coordinates, under its face index.
pub open spec fn texcoord_faces(tris: Seq<SceneTriangle>, n: int) -> Seq<char>
    decreases n,
{
    if n <= 0 {
        seq![]
    } else {
        texcoord_faces(tris, n - 1) + match tris[n - 1].texture_coord_indices {
            Some(t) => ln("\t\t\t\tFACE "@ + decimal((n - 1) as nat) + " {"@) + ln(
                "\t\t\t\t\tTEXTURE_LAYER 0 TEX_COORD: "@ + index_triple(t),
            ) + ln("\t\t\t\t}"@),
            None => seq![],
        }
    }
}

fn write_texcoord_faces(doc: &mut String, tris: &Vec<SceneTriangle>)
    ensures
        final(doc)@ == old(doc)@ + texcoord_faces(tris@, tris@.len() as int),
{
    let ghost start = doc@;
    let mut i: usize = 0;
    while i < tris.len()
        invariant
            i <= tris@.len(),
            doc@ == start + texcoord_faces(tris@, i as int),
        decreases tris@.len() - i,
    {
        match tris[i].texture_coord_indices {
            Some(t) => {
                let ghost before = doc@;
                append_line3(doc, "\t\t\t\tFACE ", decimal_string(i as u64).as_str(), " {");
                append_line3(doc, "\t\t\t\t\tTEXTURE_LAYER 0 TEX_COORD: ", triple_text(t).as_str(), "");
                append_line(doc, "\t\t\t\t}");
                proof {
                    reveal_strlit("");
                }
                assert(doc@ =~= before + (ln("\t\t\t\tFACE "@ + decimal(i as nat) + " {"@) + ln(
                    "\t\t\t\t\tTEXTURE_LAYER 0 TEX_COORD: "@ + index_triple(t),
                ) + ln("\t\t\t\t}"@)));
            },
            None => {},
        }
        assert(doc@ =~= start + texcoord_faces(tris@, i + 1));
        i = i + 1;
    }
}

/// The position of the last among the first `n` shadings whose shader is
/// named `name`.
pub open spec fn last_shader_named(s: IdtfScene, name: Seq<char>, n: int) -> Option<int>
    decreases n,
{
    if n <= 0 {
        None
    } else if s.names.shadings@[n - 1].shader_name@ == name {
        Some(n - 1)
    } else {
        last_shader_named(s, name, n - 1)
    }
}

/// The shader that shading `k` is described with: the last shader of the
/// scene that bears its shader's name.
pub open spec fn shader_id(s: IdtfScene, k: int) -> int {
    match last_shader_named(s, s.names.shadings@[k].shader_name@, s.shadings@.len() as int) {
        Some(j) => j,
        None => k,
    }
}

fn find_shader_id(s: &IdtfScene, k: usize) -> (id: usize)
    requires
        idtf_scene_wf(*s),
        k < s.shadings@.len(),
    ensures
        id == shader_id(*s, k as int),
{
    let name = s.names.shadings[k].shader_name.as_str();
    let n = s.names.shadings.len();
    let mut j = n;
    while j > 0
        invariant
            idtf_scene_wf(*s),
            n == s.shadings@.len(),
            j <= n,
            k < n,
            name@ == s.names.shadings@[k as int].shader_name@,
            last_shader_named(*s, name@, n as int) == last_shader_named(*s, name@, j as int),
        decreases j,
    {
        if str_equal(s.names.shadings[j - 1].shader_name.as_str(), name) {
            return j - 1;
        }
        j = j - 1;
    }
    k
}

/// The shading description `d` of a part, for shading `k` of the scene:
/// its texture layer count and the index of its shader.
pub open spec fn description_block(s: IdtfScene, k: int, d: int) -> Seq<char> {
    ln("\t\t\t\tSHADING_DESCRIPTION "@ + decimal(d as nat) + " {"@) + ln(
        "\t\t\t\t\tTEXTURE_LAYER_COUNT "@ + texture_flag(s, k),
    ) + (if is_textured(s, k) {
        ln("\t\t\t\t\tTEXTURE_COORD_DIMENSION_LIST {"@) + ln("\t\t\t\t\t\tTEXTURE_LAYER 0 DIMENSION: 2"@)
            + ln("\t\t\t\t\t}"@)
    } else {
        seq![]
    }) + ln("\t\t\t\t\tSHADER_ID "@ + decimal(shader_id(s, k) as nat)) + ln("\t\t\t\t}"@)
}

/// The first `d` shading descriptions of a part whose shadings start at
/// `offset`.
pub open spec fn descriptions_text(s: IdtfScene, offset: int, d: int) -> Seq<char>
    decreases d,
{
    if d <= 0 {
        seq![]
    } else {
        descriptions_text(s, offset, d - 1) + description_block(s, offset + d - 1, d - 1)
    }
}

#[verifier::rlimit(30)]
fn write_description(doc: &mut String, s: &IdtfScene, k: usize, d: usize)
    requires
        idtf_scene_wf(*s),
        k < s.shadings@.len(),
    ensures
        final(doc)@ == old(doc)@ + description_block(*s, k as int, d as int),
{
    let ghost start = doc@;
    append_line3(doc, "\t\t\t\tSHADING_DESCRIPTION ", decimal_string(d as u64).as_str(), " {");
    if s.names.shadings[k].texture_name.is_some() {
        append_line(doc, "\t\t\t\t\tTEXTURE_LAYER_COUNT 1");
        append_line(doc, "\t\t\t\t\tTEXTURE_COORD_DIMENSION_LIST {");
        append_line(doc, "\t\t\t\t\t\tTEXTURE_LAYER 0 DIMENSION: 2");
        append_line(doc, "\t\t\t\t\t}");
    } else {
        append_line(doc, "\t\t\t\t\tTEXTURE_LAYER_COUNT 0");
    }
    let id = find_shader_id(s, k);
    append_line3(doc, "\t\t\t\t\tSHADER_ID ", decimal_string(id as u64).as_str(), "");
    append_line(doc, "\t\t\t\t}");
    proof {
        reveal_strlit("");
        reveal_strlit("\t\t\t\t\tTEXTURE_LAYER_COUNT 1");
        reveal_strlit("\t\t\t\t\tTEXTURE_LAYER_COUNT 0");
        reveal_strlit("\t\t\t\t\tTEXTURE_LAYER_COUNT ");
        reveal_strlit("1");
        reveal_strlit("0");
        assert("\t\t\t\t\tTEXTURE_LAYER_COUNT 1"@ =~= "\t\t\t\t\tTEXTURE_LAYER_COUNT "@ + "1"@);
        assert("\t\t\t\t\tTEXTURE_LAYER_COUNT 0"@ =~= "\t\t\t\t\tTEXTURE_LAYER_COUNT "@ + "0"@);
    }
    assert(doc@ =~= start + description_block(*s, k as int, d as int));
}

fn write_descriptions(doc: &mut String, s: &IdtfScene, offset: usize, count: usize)
    requires
        idtf_scene_wf(*s),
        offset + count <= s.shadings@.len(),
    ensures
        final(doc)@ == old(doc)@ + descriptions_text(*s, offset as int, count as int),
{
    let ghost start = doc@;
    let total = s.shadings.len();
    let mut d: usize = 0;
    while d < count
        invariant
            idtf_scene_wf(*s),
            total == s.shadings@.len(),
            offset + count <= total,
            d <= count,
            doc@ == start + descriptions_text(*s, offset as int, d as int),
        decreases count - d,
    {
        write_description(doc, s, offset + d, d);
        assert(doc@ =~= start + descriptions_text(*s, offset as int, d + 1));
        d = d + 1;
    }
}

/// The opening of the model resource of part `p`: its name, its counts and
/// the start of its shading description list.
pub open spec fn model_head(s: IdtfScene, p: int) -> Seq<char> {
    let part = s.parts@[p];
    ln("\tRESOURCE "@ + decimal(p as nat) + " {"@) + ln(
        "\t\tRESOURCE_NAME \""@ + s.names.mesh_names@[p]@ + "\""@,
    ) + ln("\t\tMODEL_TYPE \"MESH\""@) + ln("\t\tMESH {"@) + ln(
        "\t\t\tFACE_COUNT "@ + decimal(part.triangles@.len()),
    ) + ln("\t\t\tMODEL_POSITION_COUNT "@ + decimal(part.positions@.len())) + ln(
        "\t\t\tMODEL_NORMAL_COUNT "@ + decimal(part.normals@.len()),
    ) + ln("\t\t\tMODEL_DIFFUSE_COLOR_COUNT 0"@) + ln("\t\t\tMODEL_SPECULAR_COLOR_COUNT 0"@) + ln(
        "\t\t\tMODEL_TEXTURE_COORD_COUNT "@ + decimal(part.texture_coords@.len()),
    ) + ln("\t\t\tMODEL_BONE_COUNT 0"@) + ln("\t\t\tMODEL_SHADING_COUNT "@ + decimal(part.shading_count as nat))
        + ln("\t\t\tMODEL_SHADING_DESCRIPTION_LIST {"@)
}

#[verifier::rlimit(30)]
fn write_model_head(doc: &mut String, s: &IdtfScene, p: usize)
    requires
        idtf_scene_wf(*s),
        p < s.parts@.len(),
    ensures
        final(doc)@ == old(doc)@ + model_head(*s, p as int),
{
    let ghost start = doc@;
    let part = &s.parts[p];
    append_line3(doc, "\tRESOURCE ", decimal_string(p as u64).as_str(), " {");
    append_line3(doc, "\t\tRESOURCE_NAME \"", s.names.mesh_names[p].as_str(), "\"");
    append_line(doc, "\t\tMODEL_TYPE \"MESH\"");
    append_line(doc, "\t\tMESH {");
    append_line3(doc, "\t\t\tFACE_COUNT ", decimal_string(part.triangles.len() as u64).as_str(), "");
    append_line3(doc, "\t\t\tMODEL_POSITION_COUNT ", decimal_string(part.positions.len() as u64).as_str(), "");
    append_line3(doc, "\t\t\tMODEL_NORMAL_COUNT ", decimal_string(part.normals.len() as u64).as_str(), "");
    append_line(doc, "\t\t\tMODEL_DIFFUSE_COLOR_COUNT 0");
    append_line(doc, "\t\t\tMODEL_SPECULAR_COLOR_COUNT 0");
    append_line3(
        doc,
        "\t\t\tMODEL_TEXTURE_COORD_COUNT ",
        decimal_string(part.texture_coords.len() as u64).as_str(),
        "",
    );
    append_line(doc, "\t\t\tMODEL_BONE_COUNT 0");
    append_line3(doc, "\t\t\tMODEL_SHADING_COUNT ", decimal_string(part.shading_count as u64).as_str(), "");
    append_line(doc, "\t\t\tMODEL_SHADING_DESCRIPTION_LIST {");
    proof {
        reveal_strlit("");
    }
    assert(doc@ =~= start + model_head(*s, p as int));
}

/// The face lists of part `p`, after its shading descriptions; the texture
/// coordinate faces only when the part has texture coordinates.
pub open spec fn model_faces(s: IdtfScene, p: int) -> Seq<char> {
    let tris = s.parts@[p].triangles@;
    ln("\t\t\t}"@) + ln("\t\t\tMESH_FACE_POSITION_LIST {"@) + face_entries(
        tris,
        FaceColumn::Position,
        tris.len() as int,
    ) + ln("\t\t\t}"@) + ln("\t\t\tMESH_FACE_NORMAL_LIST {"@) + face_entries(
        tris,
        FaceColumn::Normal,
        tris.len() as int,
    ) + ln("\t\t\t}"@) + ln("\t\t\tMESH_FACE_SHADING_LIST {"@) + face_entries(
        tris,
        FaceColumn::Shading,
        tris.len() as int,
    ) + ln("\t\t\t}"@) + if s.parts@[p].texture_coords@.len() > 0 {
        ln("\t\t\tMESH_FACE_TEXTURE_COORD_LIST {"@) + texcoord_faces(tris, tris.len() as int) + ln(
            "\t\t\t}"@,
        )
    } else {
        seq![]
    }
}

#[verifier::rlimit(30)]
fn write_model_faces(doc: &mut String, s: &IdtfScene, p: usize)
    requires
        p < s.parts@.len(),
    ensures
        final(doc)@ == old(doc)@ + model_faces(*s, p as int),
{
    let ghost start = doc@;
    let part = &s.parts[p];
    append_line(doc, "\t\t\t}");
    append_line(doc, "\t\t\tMESH_FACE_POSITION_LIST {");
    write_face_entries(doc, &part.triangles, FaceColumn::Position);
    append_line(doc, "\t\t\t}");
    append_line(doc, "\t\t\tMESH_FACE_NORMAL_LIST {");
    write_face_entries(doc, &part.triangles, FaceColumn::Normal);
    append_line(doc, "\t\t\t}");
    append_line(doc, "\t\t\tMESH_FACE_SHADING_LIST {");
    write_face_entries(doc, &part.triangles, FaceColumn::Shading);
    append_line(doc, "\t\t\t}");
    let ghost lists = doc@;
    if part.texture_coords.len() > 0 {
        append_line(doc, "\t\t\tMESH_FACE_TEXTURE_COORD_LIST {");
        write_texcoord_faces(doc, &part.triangles);
        append_line(doc, "\t\t\t}");
    }
    assert(doc@ =~= start + model_faces(*s, p as int));
}

/// The vertex lists of part `p` and the close of its model resource; the
/// texture coordinates only when the part has some.
pub open spec fn model_vertices(s: IdtfScene, p: int) -> Seq<char> {
    let part = s.parts@[p];
    ln("\t\t\tMODEL_POSITION_LIST {"@) + lines_of(
        "\t\t\t\t"@,
        part.positions@,
        ""@,
        part.positions@.len() as int,
    ) + ln("\t\t\t}"@) + ln("\t\t\tMODEL_NORMAL_LIST {"@) + lines_of(
        "\t\t\t\t"@,
        part.normals@,
        ""@,
        part.normals@.len() as int,
    ) + ln("\t\t\t}"@) + (if part.texture_coords@.len() > 0 {
        ln("\t\t\tMODEL_TEXTURE_COORD_LIST {"@) + lines_of(
            "\t\t\t\t"@,
            part.texture_coords@,
            " 0.000000 0.000000"@,
            part.texture_coords@.len() as int,
        ) + ln("\t\t\t}"@)
    } else {
        seq![]
    }) + ln("\t\t}"@) + ln("\t}"@)
}

#[verifier::rlimit(30)]
fn write_model_vertices(doc: &mut String, s: &IdtfScene, p: usize)
    requires
        p < s.parts@.len(),
    ensures
        final(doc)@ == old(doc)@ + model_vertices(*s, p as int),
{
    let ghost start = doc@;
    let part = &s.parts[p];
    append_line(doc, "\t\t\tMODEL_POSITION_LIST {");
    append_lines(doc, "\t\t\t\t", &part.positions, "");
    append_line(doc, "\t\t\t}");
    append_line(doc, "\t\t\tMODEL_NORMAL_LIST {");
    append_lines(doc, "\t\t\t\t", &part.normals, "");
    append_line(doc, "\t\t\t}");
    let ghost lists = doc@;
    if part.texture_coords.len() > 0 {
        append_line(doc, "\t\t\tMODEL_TEXTURE_COORD_LIST {");
        append_lines(doc, "\t\t\t\t", &part.texture_coords, " 0.000000 0.000000");
        append_line(doc, "\t\t\t}");
    }
    append_line(doc, "\t\t}");
    append_line(doc, "\t}");
    proof {
        reveal_strlit("");
    }
    assert(doc@ =~= start + model_vertices(*s, p as int));
}

/// The model resource of part `p`.
pub open spec fn model_block(s: IdtfScene, p: int) -> Seq<char> {
    model_head(s, p) + descriptions_text(
        s,
        shading_offset(s.parts@, p),
        s.parts@[p].shading_count as int,
    ) + model_faces(s, p) + model_vertices(s, p)
}

/// The model resources of the first `p` parts.
pub open spec fn models_text(s: IdtfScene, p: int) -> Seq<char>
    decreases p,
{
    if p <= 0 {
        seq![]
    } else {
        models_text(s, p - 1) + model_block(s, p - 1)
    }
}

/// The model resource list.
pub open spec fn model_list(s: IdtfScene) -> Seq<char> {
    ln("RESOURCE_LIST \"MODEL\" {"@) + ln("\tRESOURCE_COUNT "@ + decimal(s.parts@.len())) + models_text(
        s,
        s.parts@.len() as int,
    ) + ln("}"@) + ln(""@)
}

fn write_model(doc: &mut String, s: &IdtfScene, p: usize, offset: usize)
    requires
        idtf_scene_wf(*s),
        p < s.parts@.len(),
        offset == shading_offset(s.parts@, p as int),
    ensures
        final(doc)@ == old(doc)@ + model_block(*s, p as int),
{
    let ghost start = doc@;
    proof {
        lemma_shading_offset_grows(s.parts@, p + 1, s.parts@.len() as int);
    }
    write_model_head(doc, s, p);
    write_descriptions(doc, s, offset, s.parts[p].shading_count);
    write_model_faces(doc, s, p);
    write_model_vertices(doc, s, p);
    assert(doc@ =~= start + model_block(*s, p as int));
}

/// Writes the model resource list.
pub(crate) fn write_model_list(doc: &mut String, s: &IdtfScene)
    requires
        idtf_scene_wf(*s),
    ensures
        final(doc)@ == old(doc)@ + model_list(*s),
{
    let ghost start = doc@;
    append_line(doc, "RESOURCE_LIST \"MODEL\" {");
    append_line3(doc, "\tRESOURCE_COUNT ", decimal_string(s.parts.len() as u64).as_str(), "");
    proof {
        reveal_strlit("");
    }
    let ghost head = doc@;
    let n = s.parts.len();
    let total = s.shadings.len();
    let mut offset: usize = 0;
    let mut p: usize = 0;
    while p < n
        invariant
            idtf_scene_wf(*s),
            n == s.parts@.len(),
            total == s.shadings@.len(),
            p <= n,
            offset == shading_offset(s.parts@, p as int),
            doc@ == head + models_text(*s, p as int),
        decreases n - p,
    {
        write_model(doc, s, p, offset);
        assert(doc@ =~= head + models_text(*s, p + 1));
        proof {
            lemma_shading_offset_grows(s.parts@, p + 1, n as int);
        }
        offset = offset + s.parts[p].shading_count;
        p = p + 1;
    }
    append_line(doc, "}");
    append_line(doc, "");
    assert(doc@ =~= start + model_list(*s));
}

/// Entry `d` of a shading modifier's shader lists: the one shader of
/// shading `k`.
pub open spec fn shader_list_entry(s: IdtfScene, k: int, d: int) -> Seq<char> {
    ln("\t\t\tSHADER_LIST "@ + decimal(d as nat) + " {"@) + ln("\t\t\t\tSHADER_COUNT 1"@) + ln(
        "\t\t\t\tSHADER_NAME_LIST {"@,
    ) + ln("\t\t\t\t\tSHADER 0 NAME: \""@ + s.names.shadings@[k].shader_name@ + "\""@) + ln(
        "\t\t\t\t}"@,
    ) + ln("\t\t\t}"@)
}

/// The first `d` shader lists of a part whose shadings start at `offset`.
pub open spec fn shader_list_entries(s: IdtfScene, offset: int, d: int) -> Seq<char>
    decreases d,
{
    if d <= 0 {
        seq![]
    } else {
        shader_list_entries(s, offset, d - 1) + shader_list_entry(s, offset + d - 1, d - 1)
    }
}

/// The shading modifier of part `p`, named after the node that shows it.
pub open spec fn modifier_block(s: IdtfScene, p: int) -> Seq<char> {
    let part = s.parts@[p];
    ln("MODIFIER \"SHADING\" {"@) + ln(
        "\tMODIFIER_NAME \""@ + s.names.node_names@[part.node_index as int]@ + "\""@,
    ) + ln("\tPARAMETERS {"@) + ln("\t\tSHADER_LIST_COUNT "@ + decimal(part.shading_count as nat))
        + ln("\t\tSHADER_LIST_LIST {"@) + shader_list_entries(
        s,
        shading_offset(s.parts@, p),
        part.shading_count as int,
    ) + ln("\t\t}"@) + ln("\t}"@) + ln("}"@) + ln(""@)
}

/// The shading modifiers of the first `p` parts.
pub open spec fn modifiers_text(s: IdtfScene, p: int) -> Seq<char>
    decreases p,
{
    if p <= 0 {
        seq![]
    } else {
        modifiers_text(s, p - 1) + modifier_block(s, p - 1)
    }
}

fn write_shader_list_entry(doc: &mut String, s: &IdtfScene, k: usize, d: usize)
    requires
        idtf_scene_wf(*s),
        k < s.shadings@.len(),
    ensures
        final(doc)@ == old(doc)@ + shader_list_entry(*s, k as int, d as int),
{
    let ghost start = doc@;
    append_line3(doc, "\t\t\tSHADER_LIST ", decimal_string(d as u64).as_str(), " {");
    append_line(doc, "\t\t\t\tSHADER_COUNT 1");
    append_line(doc, "\t\t\t\tSHADER_NAME_LIST {");
    append_line3(doc, "\t\t\t\t\tSHADER 0 NAME: \"", s.names.shadings[k].shader_name.as_str(), "\"");
    append_line(doc, "\t\t\t\t}");
    append_line(doc, "\t\t\t}");
    assert(doc@ =~= start + shader_list_entry(*s, k as int, d as int));
}

#[verifier::rlimit(30)]
fn write_modifier(doc: &mut String, s: &IdtfScene, p: usize, offset: usize)
    requires
        idtf_scene_wf(*s),
        p < s.parts@.len(),
        offset == shading_offset(s.parts@, p as int),
    ensures
        final(doc)@ == old(doc)@ + modifier_block(*s, p as int),
{
    let ghost start = doc@;
    proof {
        lemma_shading_offset_grows(s.parts@, p + 1, s.parts@.len() as int);
    }
    let part = &s.parts[p];
    let count = part.shading_count;
    let total = s.shadings.len();
    append_line(doc, "MODIFIER \"SHADING\" {");
    append_line3(doc, "\tMODIFIER_NAME \"", s.names.node_names[part.node_index].as_str(), "\"");
    append_line(doc, "\tPARAMETERS {");
    append_line3(doc, "\t\tSHADER_LIST_COUNT ", decimal_string(count as u64).as_str(), "");
    append_line(doc, "\t\tSHADER_LIST_LIST {");
    proof {
        reveal_strlit("");
    }
    let ghost head = doc@;
    let mut d: usize = 0;
    while d < count
        invariant
            idtf_scene_wf(*s),
            total == s.shadings@.len(),
            offset + count <= total,
            d <= count,
            doc@ == head + shader_list_entries(*s, offset as int, d as int),
        decreases count - d,
    {
        write_shader_list_entry(doc, s, offset + d, d);
        assert(doc@ =~= head + shader_list_entries(*s, offset as int, d + 1));
        d = d + 1;
    }
    append_line(doc, "\t\t}");
    append_line(doc, "\t}");
    append_line(doc, "}");
    append_line(doc, "");
    assert(doc@ =~= start + modifier_block(*s, p as int));
}

pub(crate) fn write_modifiers(doc: &mut String, s: &IdtfScene)
    requires
        idtf_scene_wf(*s),
    ensures
        final(doc)@ == old(doc)@ + modifiers_text(*s, s.parts@.len() as int),
{
    let ghost start = doc@;
    let n = s.parts.len();
    let total = s.shadings.len();
    let mut offset: usize = 0;
    let mut p: usize = 0;
    while p < n
        invariant
            idtf_scene_wf(*s),
            n == s.parts@.len(),
            total == s.shadings@.len(),
            p <= n,
            offset == shading_offset(s.parts@, p as int),
            doc@ == start + modifiers_text(*s, p as int),
        decreases n - p,
    {
        write_modifier(doc, s, p, offset);
        assert(doc@ =~= start + modifiers_text(*s, p + 1));
        proof {
            lemma_shading_offset_grows(s.parts@, p + 1, n as int);
        }
        offset = offset + s.parts[p].shading_count;
        p = p + 1;
    }
}

} // verus!
