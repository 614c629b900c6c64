//! The IDTF document handed to IDTFConverter: a view, one node per scene
//! node, a light, and the shader, material, texture and model resources of
//! the mesh parts, with a shading modifier per part. Numbers that come from
//! floating-point data arrive already rendered as text.
use vstd::prelude::*;
use vstd::string::*;
use crate::names::SceneNames;
use crate::part::SceneTriangle;
use crate::text::{decimal, decimal_string};

verus! {

/// A node of the document: where it hangs, its transform (four rendered
/// rows of four numbers) and the part it shows.
#[derive(Clone, Debug)]
pub struct IdtfNode {
    pub parent_index: Option<usize>,
    pub transform_rows: Vec<String>,
    pub mesh_index: Option<usize>,
}

/// The settings of one shading, rendered: each color as three numbers,
/// reflectivity and opacity as one; the staged image path of its texture.
#[derive(Clone, Debug)]
pub struct IdtfShading {
    pub ambient: String,
    pub diffuse: String,
    pub specular: String,
    pub emissive: String,
    pub reflectivity: String,
    pub opacity: String,
    pub texture_path: Option<String>,
}

/// A mesh part of the document: its node, rendered positions (three
/// numbers), normals (three numbers) and texture coordinates (two numbers),
/// its triangles, and how many shadings it has.
#[derive(Clone, Debug)]
pub struct IdtfPart {
    pub node_index: usize,
    pub positions: Vec<String>,
    pub normals: Vec<String>,
    pub texture_coords: Vec<String>,
    pub triangles: Vec<SceneTriangle>,
    pub shading_count: usize,
}

/// A scene ready to be written: the names of its resources, its nodes and
/// parts, the shadings of all parts (part after part), and the rendered
/// positions of the view and the light.
#[derive(Clone, Debug)]
pub struct IdtfScene {
    pub names: SceneNames,
    pub nodes: Vec<IdtfNode>,
    pub parts: Vec<IdtfPart>,
    pub shadings: Vec<IdtfShading>,
    pub view_translation: String,
    pub light_translation: String,
}

/// Where the shadings of part `p` start in the shading list.
pub open spec fn shading_offset(parts: Seq<IdtfPart>, p: int) -> int
    decreases p,
{
    if p <= 0 {
        0
    } else {
        shading_offset(parts, p - 1) + parts[p - 1].shading_count
    }
}

/// The scene's lists agree with each other and every index points into its
/// list.
pub open spec fn idtf_scene_wf(s: IdtfScene) -> bool {
    &&& s.names.node_names@.len() == s.nodes@.len()
    &&& s.names.mesh_names@.len() == s.parts@.len()
    &&& s.names.shadings@.len() == s.shadings@.len()
    &&& shading_offset(s.parts@, s.parts@.len() as int) == s.shadings@.len()
    &&& forall|i: int|
        0 <= i < s.nodes@.len() ==> (#[trigger] s.nodes@[i].parent_index matches Some(p) ==> p
            < s.nodes@.len())
    &&& forall|i: int|
        0 <= i < s.nodes@.len() ==> (#[trigger] s.nodes@[i].mesh_index matches Some(m) ==> m
            < s.parts@.len())
    &&& forall|i: int| 0 <= i < s.nodes@.len() ==> #[trigger] s.nodes@[i].transform_rows@.len() == 4
    &&& forall|j: int| 0 <= j < s.parts@.len() ==> #[trigger] s.parts@[j].node_index < s.nodes@.len()
    &&& forall|k: int|
        0 <= k < s.shadings@.len() ==> (#[trigger] s.shadings@[k].texture_path is Some
            <==> s.names.shadings@[k].texture_name is Some)
}

/// Whether the scene's lists agree with each other and every index points
/// into its list (see `idtf_scene_wf`).
pub fn check_idtf_scene(s: &IdtfScene) -> (ok: bool)
    ensures
        ok == idtf_scene_wf(*s),
{
    if s.names.node_names.len() != s.nodes.len() || s.names.mesh_names.len() != s.parts.len()
        || s.names.shadings.len() != s.shadings.len() {
        return false;
    }
    let total = s.shadings.len();
    let mut offset: usize = 0;
    let mut p: usize = 0;
    while p < s.parts.len()
        invariant
            p <= s.parts@.len(),
            total == s.shadings@.len(),
            offset == shading_offset(s.parts@, p as int),
            offset <= total,
            forall|j: int| 0 <= j < p ==> #[trigger] s.parts@[j].node_index < s.nodes@.len(),
        decreases s.parts@.len() - p,
    {
        if s.parts[p].node_index >= s.nodes.len() || s.parts[p].shading_count > total - offset {
            proof {
                if s.parts@[p as int].shading_count > total - offset {
                    lemma_shading_offset_grows(s.parts@, p + 1, s.parts@.len() as int);
                }
            }
            return false;
        }
        offset = offset + s.parts[p].shading_count;
        p = p + 1;
    }
    if offset != total {
        return false;
    }
    let mut i: usize = 0;
    while i < s.nodes.len()
        invariant
            i <= s.nodes@.len(),
            forall|j: int|
                0 <= j < i ==> (#[trigger] s.nodes@[j].parent_index matches Some(q) ==> q
                    < s.nodes@.len()),
            forall|j: int|
                0 <= j < i ==> (#[trigger] s.nodes@[j].mesh_index matches Some(m) ==> m
                    < s.parts@.len()),
            forall|j: int| 0 <= j < i ==> #[trigger] s.nodes@[j].transform_rows@.len() == 4,
        decreases s.nodes@.len() - i,
    {
        let node = &s.nodes[i];
        let parent_ok = match node.parent_index {
            Some(q) => q < s.nodes.len(),
            None => true,
        };
        let mesh_ok = match node.mesh_index {
            Some(m) => m < s.parts.len(),
            None => true,
        };
        if !parent_ok || !mesh_ok || node.transform_rows.len() != 4 {
            return false;
        }
        i = i + 1;
    }
    let mut k: usize = 0;
    while k < s.shadings.len()
        invariant
            k <= s.shadings@.len(),
            s.names.shadings@.len() == s.shadings@.len(),
            forall|j: int|
                0 <= j < k ==> (#[trigger] s.shadings@[j].texture_path is Some
                    <==> s.names.shadings@[j].texture_name is Some),
        decreases s.shadings@.len() - k,
    {
        if s.shadings[k].texture_path.is_some() != s.names.shadings[k].texture_name.is_some() {
            return false;
        }
        k = k + 1;
    }
    true
}

/// Where the shadings of a part start never goes down from part to part.
pub proof fn lemma_shading_offset_grows(parts: Seq<IdtfPart>, p: int, q: int)
    requires
        0 <= p <= q,
    ensures
        shading_offset(parts, p) <= shading_offset(parts, q),
    decreases q - p,
{
    if p < q {
        lemma_shading_offset_grows(parts, p, q - 1);
    }
}

/// `text` as one line of the document.
pub open spec fn ln(text: Seq<char>) -> Seq<char> {
    text + "\n"@
}

/// The lines from `lines[0..n]`, each with a line break.
pub open spec fn lines_of(prefix: Seq<char>, lines: Seq<String>, suffix: Seq<char>, n: int) -> Seq<char>
    decreases n,
{
    if n <= 0 {
        seq![]
    } else {
        lines_of(prefix, lines, suffix, n - 1) + ln(prefix + lines[n - 1]@ + suffix)
    }
}

pub(crate) fn append_line(doc: &mut String, text: &str)
    ensures
        final(doc)@ == old(doc)@ + ln(text@),
{
    doc.append(text);
    doc.append("\n");
    proof {
        reveal_strlit("\n");
    }
}

/// Appends `prefix`, `text` and `suffix` as one line.
pub(crate) fn append_line3(doc: &mut String, prefix: &str, text: &str, suffix: &str)
    ensures
        final(doc)@ == old(doc)@ + ln(prefix@ + text@ + suffix@),
{
    let ghost before = doc@;
    doc.append(prefix);
    doc.append(text);
    doc.append(suffix);
    doc.append("\n");
    proof {
        reveal_strlit("\n");
        assert(doc@ =~= before + ln(prefix@ + text@ + suffix@));
    }
}

pub(crate) fn append_lines(doc: &mut String, prefix: &str, lines: &Vec<String>, suffix: &str)
    ensures
        final(doc)@ == old(doc)@ + lines_of(prefix@, lines@, suffix@, lines@.len() as int),
{
    let ghost start = doc@;
    let mut i: usize = 0;
    while i < lines.len()
        invariant
            i <= lines@.len(),
            doc@ == start + lines_of(prefix@, lines@, suffix@, i as int),
        decreases lines@.len() - i,
    {
        append_line3(doc, prefix, lines[i].as_str(), suffix);
        assert(doc@ =~= start + lines_of(prefix@, lines@, suffix@, i + 1));
        i = i + 1;
    }
}

// ---------------------------------------------------------------- view and nodes

/// The document header and the opening of the view node.
pub open spec fn view_head() -> Seq<char> {
    "FILE_FORMAT \"IDTF\"\nFORMAT_VERSION 100\n\nNODE \"VIEW\" {\n\tNODE_NAME \"DefaultView\"\n\tPARENT_LIST {\n\t\tPARENT_COUNT 1\n\t\tPARENT 0 {\n\t\t\tPARENT_NAME \"<NULL>\"\n\t\t\tPARENT_TM {\n\t\t\t\t1.000000 0.000000 0.000000 0.000000\n\t\t\t\t0.000000 0.258819 0.965926 0.000000\n\t\t\t\t0.000000 -0.965926 0.258819 0.000000\n\t\t\t\t"@
}

/// The rest of the view node after its position.
pub open spec fn view_tail() -> Seq<char> {
    " 1.000000\n\t\t\t}\n\t\t}\n\t}\n\tRESOURCE_NAME \"SceneViewResource\"\n\tVIEW_DATA {\n\t\tVIEW_TYPE \"PERSPECTIVE\"\n\t\tVIEW_PROJECTION 34.515877\n\t}\n}\n\n"@
}

/// The name of the node a node hangs under, or `<NULL>` for a root.
pub open spec fn parent_name(s: IdtfScene, i: int) -> Seq<char> {
    match s.nodes@[i].parent_index {
        Some(p) => s.names.node_names@[p as int]@,
        None => "<NULL>"@,
    }
}

/// The opening lines of node `i`, up to its transform: a `MODEL` node when
/// it shows a part, else a `GROUP` node.
pub open spec fn node_head(s: IdtfScene, i: int) -> Seq<char> {
    ln(
        if s.nodes@[i].mesh_index is Some {
            "NODE \"MODEL\" {"@
        } else {
            "NODE \"GROUP\" {"@
        },
    ) + ln("\tNODE_NAME \""@ + s.names.node_names@[i]@ + "\""@) + ln("\tPARENT_LIST {"@) + ln(
        "\t\tPARENT_COUNT 1"@,
    ) + ln("\t\tPARENT 0 {"@) + ln("\t\t\tPARENT_NAME \""@ + parent_name(s, i) + "\""@) + ln(
        "\t\t\tPARENT_TM {"@,
    )
}

/// The closing lines of node `i`, after its transform.
pub open spec fn node_tail(s: IdtfScene, i: int) -> Seq<char> {
    ln("\t\t\t}"@) + ln("\t\t}"@) + ln("\t}"@) + match s.nodes@[i].mesh_index {
        Some(m) => ln("\tRESOURCE_NAME \""@ + s.names.mesh_names@[m as int]@ + "\""@),
        None => seq![],
    } + ln("}"@) + ln(""@)
}

/// The block of node `i`.
pub open spec fn node_block(s: IdtfScene, i: int) -> Seq<char> {
    node_head(s, i) + lines_of("\t\t\t\t"@, s.nodes@[i].transform_rows@, ""@, 4) + node_tail(s, i)
}

/// The blocks of the first `k` nodes.
pub open spec fn nodes_text(s: IdtfScene, k: int) -> Seq<char>
    decreases k,
{
    if k <= 0 {
        seq![]
    } else {
        nodes_text(s, k - 1) + node_block(s, k - 1)
    }
}

#[verifier::rlimit(60)]
pub(crate) fn write_node(doc: &mut String, s: &IdtfScene, i: usize)
    requires
        idtf_scene_wf(*s),
        i < s.nodes@.len(),
    ensures
        final(doc)@ == old(doc)@ + node_block(*s, i as int),
{
    let ghost start = doc@;
    let node = &s.nodes[i];
    assert(node.transform_rows@.len() == 4);
    if node.mesh_index.is_some() {
        append_line(doc, "NODE \"MODEL\" {");
    } else {
        append_line(doc, "NODE \"GROUP\" {");
    }
    append_line3(doc, "\tNODE_NAME \"", s.names.node_names[i].as_str(), "\"");
    append_line(doc, "\tPARENT_LIST {");
    append_line(doc, "\t\tPARENT_COUNT 1");
    append_line(doc, "\t\tPARENT 0 {");
    match node.parent_index {
        Some(p) => append_line3(doc, "\t\t\tPARENT_NAME \"", s.names.node_names[p].as_str(), "\""),
        None => append_line3(doc, "\t\t\tPARENT_NAME \"", "<NULL>", "\""),
    }
    append_line(doc, "\t\t\tPARENT_TM {");
    assert(doc@ =~= start + node_head(*s, i as int));
    let ghost after_head = doc@;
    append_lines(doc, "\t\t\t\t", &node.transform_rows, "");
    proof {
        reveal_strlit("");
    }
    let ghost after_rows = doc@;
    append_line(doc, "\t\t\t}");
    append_line(doc, "\t\t}");
    append_line(doc, "\t}");
    match node.mesh_index {
        Some(m) => append_line3(doc, "\tRESOURCE_NAME \"", s.names.mesh_names[m].as_str(), "\""),
        None => {},
    }
    append_line(doc, "}");
    append_line(doc, "");
    assert(doc@ =~= after_rows + node_tail(*s, i as int));
    assert(doc@ =~= start + node_block(*s, i as int));
}

/// The light node and the view and light resources.
pub open spec fn light_head() -> Seq<char> {
    "NODE \"LIGHT\" {\n\tNODE_NAME \"DefaultLight\"\n\tPARENT_LIST {\n\t\tPARENT_COUNT 1\n\t\tPARENT 0 {\n\t\t\tPARENT_NAME \"<NULL>\"\n\t\t\tPARENT_TM {\n\t\t\t\t1.000000 0.000000 0.000000 0.000000\n\t\t\t\t0.000000 1.000000 0.000000 0.000000\n\t\t\t\t0.000000 0.000000 1.000000 0.000000\n\t\t\t\t"@
}

/// The rest of the light node after its position, and the view and light
/// resources.
pub open spec fn light_tail() -> Seq<char> {
    " 1.000000\n\t\t\t}\n\t\t}\n\t}\n\tRESOURCE_NAME \"DefaultPointLight\"\n}\n\nRESOURCE_LIST \"VIEW\" {\n\tRESOURCE_COUNT 1\n\tRESOURCE 0 {\n\t\tRESOURCE_NAME \"SceneViewResource\"\n\t\tVIEW_PASS_COUNT 1\n\t\tVIEW_ROOT_NODE_LIST {\n\t\t\tROOT_NODE 0 {\n\t\t\t\tROOT_NODE_NAME \"<NULL>\"\n\t\t\t}\n\t\t}\n\t}\n}\n\nRESOURCE_LIST \"LIGHT\" {\n\tRESOURCE_COUNT 1\n\tRESOURCE 0 {\n\t\tRESOURCE_NAME \"DefaultPointLight\"\n\t\tLIGHT_TYPE \"POINT\"\n\t\tLIGHT_COLOR 1.000000 1.000000 1.000000\n\t\tLIGHT_ATTENUATION 1.000000 0.000000 0.000000\n\t\tLIGHT_INTENSITY 1.000000\n\t}\n}\n\n"@
}

// ---------------------------------------------------------------- shaders and materials

/// Whether shading `k` has a diffuse texture.
pub open spec fn is_textured(s: IdtfScene, k: int) -> bool {
    s.names.shadings@[k].texture_name is Some
}

/// `1` for a textured shading, else `0`.
pub open spec fn texture_flag(s: IdtfScene, k: int) -> Seq<char> {
    if is_textured(s, k) {
        "1"@
    } else {
        "0"@
    }
}

/// The shader resource of shading `k`.
pub open spec fn shader_block(s: IdtfScene, k: int) -> Seq<char> {
    let names = s.names.shadings@[k];
    ln("\tRESOURCE "@ + decimal(k as nat) + " {"@) + ln(
        "\t\tRESOURCE_NAME \""@ + names.shader_name@ + "\""@,
    ) + ln("\t\tSHADER_MATERIAL_NAME \""@ + names.material_name@ + "\""@) + ln(
        "\t\tSHADER_ACTIVE_TEXTURE_COUNT "@ + texture_flag(s, k),
    ) + match names.texture_name {
        Some(t) => ln("\t\tSHADER_TEXTURE_LAYER_LIST {"@) + ln("\t\t\tTEXTURE_LAYER 0 {"@) + ln(
            "\t\t\t\tTEXTURE_NAME \""@ + t@ + "\""@,
        ) + ln("\t\t\t}"@) + ln("\t\t}"@),
        None => seq![],
    } + ln("\t}"@)
}

/// The material resource of shading `k`.
pub open spec fn material_block(s: IdtfScene, k: int) -> Seq<char> {
    let sh = s.shadings@[k];
    ln("\tRESOURCE "@ + decimal(k as nat) + " {"@) + ln(
        "\t\tRESOURCE_NAME \""@ + s.names.shadings@[k].material_name@ + "\""@,
    ) + ln("\t\tMATERIAL_AMBIENT "@ + sh.ambient@) + ln("\t\tMATERIAL_DIFFUSE "@ + sh.diffuse@)
        + ln("\t\tMATERIAL_SPECULAR "@ + sh.specular@) + ln("\t\tMATERIAL_EMISSIVE "@ + sh.emissive@)
        + ln("\t\tMATERIAL_REFLECTIVITY "@ + sh.reflectivity@) + ln(
        "\t\tMATERIAL_OPACITY "@ + sh.opacity@,
    ) + ln("\t}"@)
}

/// The shader resources of the first `k` shadings.
pub open spec fn shaders_text(s: IdtfScene, k: int) -> Seq<char>
    decreases k,
{
    if k <= 0 {
        seq![]
    } else {
        shaders_text(s, k - 1) + shader_block(s, k - 1)
    }
}

/// The material resources of the first `k` shadings.
pub open spec fn materials_text(s: IdtfScene, k: int) -> Seq<char>
    decreases k,
{
    if k <= 0 {
        seq![]
    } else {
        materials_text(s, k - 1) + material_block(s, k - 1)
    }
}

/// The shader resource list.
pub open spec fn shader_list(s: IdtfScene) -> Seq<char> {
    ln("RESOURCE_LIST \"SHADER\" {"@) + ln("\tRESOURCE_COUNT "@ + decimal(s.shadings@.len()))
        + shaders_text(s, s.shadings@.len() as int) + ln("}"@) + ln(""@)
}

/// The material resource list.
pub open spec fn material_list(s: IdtfScene) -> Seq<char> {
    ln("RESOURCE_LIST \"MATERIAL\" {"@) + ln("\tRESOURCE_COUNT "@ + decimal(s.shadings@.len()))
        + materials_text(s, s.shadings@.len() as int) + ln("}"@) + ln(""@)
}

#[verifier::rlimit(60)]
pub(crate) fn write_shader(doc: &mut String, s: &IdtfScene, k: usize)
    requires
        idtf_scene_wf(*s),
        k < s.shadings@.len(),
    ensures
        final(doc)@ == old(doc)@ + shader_block(*s, k as int),
{
    let ghost start = doc@;
    let names = &s.names.shadings[k];
    append_line3(doc, "\tRESOURCE ", decimal_string(k as u64).as_str(), " {");
    append_line3(doc, "\t\tRESOURCE_NAME \"", names.shader_name.as_str(), "\"");
    append_line3(doc, "\t\tSHADER_MATERIAL_NAME \"", names.material_name.as_str(), "\"");
    match &names.texture_name {
        Some(t) => {
            append_line(doc, "\t\tSHADER_ACTIVE_TEXTURE_COUNT 1");
            append_line(doc, "\t\tSHADER_TEXTURE_LAYER_LIST {");
            append_line(doc, "\t\t\tTEXTURE_LAYER 0 {");
            append_line3(doc, "\t\t\t\tTEXTURE_NAME \"", t.as_str(), "\"");
            append_line(doc, "\t\t\t}");
            append_line(doc, "\t\t}");
        },
        None => {
            append_line(doc, "\t\tSHADER_ACTIVE_TEXTURE_COUNT 0");
        },
    }
    append_line(doc, "\t}");
    proof {
        reveal_strlit("\t\tSHADER_ACTIVE_TEXTURE_COUNT 1");
        reveal_strlit("\t\tSHADER_ACTIVE_TEXTURE_COUNT 0");
        reveal_strlit("\t\tSHADER_ACTIVE_TEXTURE_COUNT ");
        reveal_strlit("1");
        reveal_strlit("0");
        assert("\t\tSHADER_ACTIVE_TEXTURE_COUNT 1"@ =~= "\t\tSHADER_ACTIVE_TEXTURE_COUNT "@ + "1"@);
        assert("\t\tSHADER_ACTIVE_TEXTURE_COUNT 0"@ =~= "\t\tSHADER_ACTIVE_TEXTURE_COUNT "@ + "0"@);
    }
    assert(doc@ =~= start + shader_block(*s, k as int));
}

pub(crate) fn write_material(doc: &mut String, s: &IdtfScene, k: usize)
    requires
        idtf_scene_wf(*s),
        k < s.shadings@.len(),
    ensures
        final(doc)@ == old(doc)@ + material_block(*s, k as int),
{
    let ghost start = doc@;
    let sh = &s.shadings[k];
    append_line3(doc, "\tRESOURCE ", decimal_string(k as u64).as_str(), " {");
    append_line3(doc, "\t\tRESOURCE_NAME \"", s.names.shadings[k].material_name.as_str(), "\"");
    append_line3(doc, "\t\tMATERIAL_AMBIENT ", sh.ambient.as_str(), "");
    append_line3(doc, "\t\tMATERIAL_DIFFUSE ", sh.diffuse.as_str(), "");
    append_line3(doc, "\t\tMATERIAL_SPECULAR ", sh.specular.as_str(), "");
    append_line3(doc, "\t\tMATERIAL_EMISSIVE ", sh.emissive.as_str(), "");
    append_line3(doc, "\t\tMATERIAL_REFLECTIVITY ", sh.reflectivity.as_str(), "");
    append_line3(doc, "\t\tMATERIAL_OPACITY ", sh.opacity.as_str(), "");
    append_line(doc, "\t}");
    proof {
        reveal_strlit("");
    }
    assert(doc@ =~= start + material_block(*s, k as int));
}

// ---------------------------------------------------------------- textures

/// The number of textured shadings among the first `k`.
pub open spec fn textures_before(s: IdtfScene, k: int) -> int
    decreases k,
{
    if k <= 0 {
        0
    } else {
        textures_before(s, k - 1) + if is_textured(s, k - 1) {
            1int
        } else {
            0int
        }
    }
}

/// `path` with backslashes turned into forward slashes.
pub open spec fn forward_slashes(path: Seq<char>) -> Seq<char> {
    path.map_values(|c: char| if c == '\\' { '/' } else { c })
}

/// The texture resource of shading `k`, numbered `t`.
pub open spec fn texture_block(s: IdtfScene, k: int, t: int) -> Seq<char> {
    ln("\tRESOURCE "@ + decimal(t as nat) + " {"@) + ln(
        "\t\tRESOURCE_NAME \""@ + s.names.shadings@[k].texture_name->0@ + "\""@,
    ) + ln("\t\tTEXTURE_PATH \""@ + forward_slashes(s.shadings@[k].texture_path->0@) + "\""@) + ln(
        "\t}"@,
    )
}

/// The texture resources of the textured shadings among the first `k`.
pub open spec fn textures_text(s: IdtfScene, k: int) -> Seq<char>
    decreases k,
{
    if k <= 0 {
        seq![]
    } else {
        textures_text(s, k - 1) + if is_textured(s, k - 1) {
            texture_block(s, k - 1, textures_before(s, k - 1))
        } else {
            seq![]
        }
    }
}

/// The texture resource list; absent when no shading is textured.
pub open spec fn texture_list(s: IdtfScene) -> Seq<char> {
    let count = textures_before(s, s.shadings@.len() as int);
    if count > 0 {
        ln("RESOURCE_LIST \"TEXTURE\" {"@) + ln("\tRESOURCE_COUNT "@ + decimal(count as nat))
            + textures_text(s, s.shadings@.len() as int) + ln("}"@) + ln(""@)
    } else {
        seq![]
    }
}

/// Writes `path` with backslashes turned into forward slashes.
pub fn with_forward_slashes(path: &str) -> (out: String)
    ensures
        out@ == forward_slashes(path@),
{
    let n = path.unicode_len();
    let mut out = String::new();
    let mut i: usize = 0;
    while i < n
        invariant
            n == path@.len(),
            i <= n,
            out@ == forward_slashes(path@.take(i as int)),
        decreases n - i,
    {
        let c = path.get_char(i);
        crate::text::push_char(&mut out, if c == '\\' { '/' } else { c });
        assert(path@.take(i + 1) =~= path@.take(i as int).push(c));
        assert(forward_slashes(path@.take(i + 1)) =~= forward_slashes(path@.take(i as int)).push(if c == '\\' { '/' } else { c }));
        i = i + 1;
    }
    assert(path@.take(n as int) =~= path@);
    out
}

proof fn lemma_textures_before_bounds(s: IdtfScene, k: int)
    requires
        0 <= k,
    ensures
        0 <= textures_before(s, k) <= k,
    decreases k,
{
    if k > 0 {
        lemma_textures_before_bounds(s, k - 1);
    }
}

pub(crate) fn write_texture_list(doc: &mut String, s: &IdtfScene)
    requires
        idtf_scene_wf(*s),
    ensures
        final(doc)@ == old(doc)@ + texture_list(*s),
{
    let ghost start = doc@;
    let n = s.shadings.len();
    let mut count: usize = 0;
    let mut k: usize = 0;
    while k < n
        invariant
            idtf_scene_wf(*s),
            n == s.shadings@.len(),
            k <= n,
            count == textures_before(*s, k as int),
            count <= k,
        decreases n - k,
    {
        if s.names.shadings[k].texture_name.is_some() {
            count = count + 1;
        }
        k = k + 1;
    }
    if count == 0 {
        assert(doc@ =~= start + texture_list(*s));
        return;
    }
    append_line(doc, "RESOURCE_LIST \"TEXTURE\" {");
    append_line3(doc, "\tRESOURCE_COUNT ", decimal_string(count as u64).as_str(), "");
    proof {
        reveal_strlit("");
    }
    let ghost head = doc@;
    let mut t: usize = 0;
    let mut k: usize = 0;
    while k < n
        invariant
            idtf_scene_wf(*s),
            n == s.shadings@.len(),
            k <= n,
            t == textures_before(*s, k as int),
            t <= k,
            doc@ == head + textures_text(*s, k as int),
        decreases n - k,
    {
        if s.names.shadings[k].texture_name.is_some() {
            let path = match &s.shadings[k].texture_path {
                Some(p) => with_forward_slashes(p.as_str()),
                None => {
                    assert(false);
                    String::new()
                },
            };
            let ghost before = doc@;
            let name = match &s.names.shadings[k].texture_name {
                Some(name) => name,
                None => {
                    assert(false);
                    return;
                },
            };
            append_line3(doc, "\tRESOURCE ", decimal_string(t as u64).as_str(), " {");
            append_line3(doc, "\t\tRESOURCE_NAME \"", name.as_str(), "\"");
            append_line3(doc, "\t\tTEXTURE_PATH \"", path.as_str(), "\"");
            append_line(doc, "\t}");
            assert(doc@ =~= before + texture_block(*s, k as int, t as int));
            t = t + 1;
        }
        assert(doc@ =~= head + textures_text(*s, k + 1));
        k = k + 1;
    }
    append_line(doc, "}");
    append_line(doc, "");
    assert(doc@ =~= start + texture_list(*s));
}

proof fn lemma_textures_before_some(s: IdtfScene, n: int)
    requires
        0 <= n,
    ensures
        textures_before(s, n) > 0 <==> exists|k: int| 0 <= k < n && #[trigger] is_textured(s, k),
    decreases n,
{
    if n > 0 {
        lemma_textures_before_some(s, n - 1);
        lemma_textures_before_bounds(s, n - 1);
        if exists|k: int| 0 <= k < n && #[trigger] is_textured(s, k) {
            if !is_textured(s, n - 1) {
                let k = choose|k: int| 0 <= k < n && #[trigger] is_textured(s, k);
                assert(k < n - 1);
            }
        }
    }
}

/// The texture list is written exactly when some shading is textured, and
/// then counts the textured shadings; each shader resource states one
/// active texture layer for a textured shading and none otherwise.
pub proof fn lemma_texture_sections(s: IdtfScene)
    ensures
        texture_list(s).len() > 0 <==> exists|k: int|
            0 <= k < s.shadings@.len() && #[trigger] is_textured(s, k),
        texture_list(s).len() > 0 ==> texture_list(s) == ln("RESOURCE_LIST \"TEXTURE\" {"@) + ln(
            "\tRESOURCE_COUNT "@ + decimal(textures_before(s, s.shadings@.len() as int) as nat),
        ) + textures_text(s, s.shadings@.len() as int) + ln("}"@) + ln(""@),
        forall|k: int|
            0 <= k < s.shadings@.len() ==> #[trigger] texture_flag(s, k) == if is_textured(s, k) {
                "1"@
            } else {
                "0"@
            },
{
    let n = s.shadings@.len() as int;
    lemma_textures_before_some(s, n);
    lemma_textures_before_bounds(s, n);
    if textures_before(s, n) > 0 {
        reveal_strlit("\n");
        assert(ln("RESOURCE_LIST \"TEXTURE\" {"@).len() > 0);
    }
}

/// `line` and a line break between `before` and `after`.
pub open spec fn line_in(before: Seq<char>, line: Seq<char>, after: Seq<char>) -> Seq<char> {
    before + line + seq!['\n'] + after
}

/// `text` holds `line` as one whole line: it starts the text or follows a
/// line break, and a line break ends it.
pub open spec fn has_line(text: Seq<char>, line: Seq<char>) -> bool {
    exists|before: Seq<char>, after: Seq<char>|
        #![trigger line_in(before, line, after)]
        text == line_in(before, line, after) && (before.len() == 0 || before.last() == '\n')
}

proof fn lemma_has_line_at(text: Seq<char>, line: Seq<char>, before: Seq<char>, after: Seq<char>)
    requires
        text =~= before + line + seq!['\n'] + after,
        before.len() == 0 || before.last() == '\n',
    ensures
        has_line(text, line),
{
    assert(text == line_in(before, line, after));
}

/// The material resource of shading `k` names the shading's material and
/// gives each of the shading's own settings on the line for it: its ambient,
/// diffuse, specular and emissive colors, its reflectivity and its opacity.
pub proof fn lemma_material_lines(s: IdtfScene, k: int)
    requires
        0 <= k < s.shadings@.len(),
    ensures
        has_line(material_block(s, k), "\t\tRESOURCE_NAME \""@ + s.names.shadings@[k].material_name@ + "\""@),
        has_line(material_block(s, k), "\t\tMATERIAL_AMBIENT "@ + s.shadings@[k].ambient@),
        has_line(material_block(s, k), "\t\tMATERIAL_DIFFUSE "@ + s.shadings@[k].diffuse@),
        has_line(material_block(s, k), "\t\tMATERIAL_SPECULAR "@ + s.shadings@[k].specular@),
        has_line(material_block(s, k), "\t\tMATERIAL_EMISSIVE "@ + s.shadings@[k].emissive@),
        has_line(material_block(s, k), "\t\tMATERIAL_REFLECTIVITY "@ + s.shadings@[k].reflectivity@),
        has_line(material_block(s, k), "\t\tMATERIAL_OPACITY "@ + s.shadings@[k].opacity@),
{
    reveal_strlit("\n");
    let sh = s.shadings@[k];
    let l0 = "\tRESOURCE "@ + decimal(k as nat) + " {"@;
    let l1 = "\t\tRESOURCE_NAME \""@ + s.names.shadings@[k].material_name@ + "\""@;
    let l2 = "\t\tMATERIAL_AMBIENT "@ + sh.ambient@;
    let l3 = "\t\tMATERIAL_DIFFUSE "@ + sh.diffuse@;
    let l4 = "\t\tMATERIAL_SPECULAR "@ + sh.specular@;
    let l5 = "\t\tMATERIAL_EMISSIVE "@ + sh.emissive@;
    let l6 = "\t\tMATERIAL_REFLECTIVITY "@ + sh.reflectivity@;
    let l7 = "\t\tMATERIAL_OPACITY "@ + sh.opacity@;
    let l8 = "\t}"@;
    let b = material_block(s, k);
    assert("\n"@ =~= seq!['\n']);
    assert(b =~= ln(l0) + ln(l1) + ln(l2) + ln(l3) + ln(l4) + ln(l5) + ln(l6) + ln(l7) + ln(l8));
    let p1 = ln(l0);
    let p2 = p1 + ln(l1);
    let p3 = p2 + ln(l2);
    let p4 = p3 + ln(l3);
    let p5 = p4 + ln(l4);
    let p6 = p5 + ln(l5);
    let p7 = p6 + ln(l6);
    lemma_has_line_at(b, l1, p1, ln(l2) + ln(l3) + ln(l4) + ln(l5) + ln(l6) + ln(l7) + ln(l8));
    lemma_has_line_at(b, l2, p2, ln(l3) + ln(l4) + ln(l5) + ln(l6) + ln(l7) + ln(l8));
    lemma_has_line_at(b, l3, p3, ln(l4) + ln(l5) + ln(l6) + ln(l7) + ln(l8));
    lemma_has_line_at(b, l4, p4, ln(l5) + ln(l6) + ln(l7) + ln(l8));
    lemma_has_line_at(b, l5, p5, ln(l6) + ln(l7) + ln(l8));
    lemma_has_line_at(b, l6, p6, ln(l7) + ln(l8));
    lemma_has_line_at(b, l7, p7, ln(l8));
}

/// The shader resource of shading `k` is named for the shading's shader and
/// points at the shading's own material; a textured shading names its own
/// texture on its texture layer.
pub proof fn lemma_shader_lines(s: IdtfScene, k: int)
    requires
        0 <= k < s.shadings@.len(),
    ensures
        has_line(shader_block(s, k), "\t\tRESOURCE_NAME \""@ + s.names.shadings@[k].shader_name@ + "\""@),
        has_line(shader_block(s, k), "\t\tSHADER_MATERIAL_NAME \""@ + s.names.shadings@[k].material_name@ + "\""@),
        s.names.shadings@[k].texture_name matches Some(t) ==> has_line(
            shader_block(s, k),
            "\t\t\t\tTEXTURE_NAME \""@ + t@ + "\""@,
        ),
{
    reveal_strlit("\n");
    assert("\n"@ =~= seq!['\n']);
    let names = s.names.shadings@[k];
    let l0 = "\tRESOURCE "@ + decimal(k as nat) + " {"@;
    let l1 = "\t\tRESOURCE_NAME \""@ + names.shader_name@ + "\""@;
    let l2 = "\t\tSHADER_MATERIAL_NAME \""@ + names.material_name@ + "\""@;
    let l3 = "\t\tSHADER_ACTIVE_TEXTURE_COUNT "@ + texture_flag(s, k);
    let layers = match names.texture_name {
        Some(t) => ln("\t\tSHADER_TEXTURE_LAYER_LIST {"@) + ln("\t\t\tTEXTURE_LAYER 0 {"@) + ln(
            "\t\t\t\tTEXTURE_NAME \""@ + t@ + "\""@,
        ) + ln("\t\t\t}"@) + ln("\t\t}"@),
        None => seq![],
    };
    let b = shader_block(s, k);
    assert(b =~= ln(l0) + ln(l1) + ln(l2) + ln(l3) + layers + ln("\t}"@));
    lemma_has_line_at(b, l1, ln(l0), ln(l2) + ln(l3) + layers + ln("\t}"@));
    lemma_has_line_at(b, l2, ln(l0) + ln(l1), ln(l3) + layers + ln("\t}"@));
    if let Some(t) = names.texture_name {
        let lt = "\t\t\t\tTEXTURE_NAME \""@ + t@ + "\""@;
        let pre = ln(l0) + ln(l1) + ln(l2) + ln(l3) + ln("\t\tSHADER_TEXTURE_LAYER_LIST {"@) + ln(
            "\t\t\tTEXTURE_LAYER 0 {"@,
        );
        lemma_has_line_at(b, lt, pre, ln("\t\t\t}"@) + ln("\t\t}"@) + ln("\t}"@));
    }
}

} // verus!
