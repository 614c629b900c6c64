//! The shadings of a mesh part: one per material slot of its model, each
//! with a shader name, a material name, the material's surface settings and,
//! when a texture feeds the material's diffuse color, that texture.
use vstd::prelude::*;
use vstd::string::*;
use crate::error::{ConversionError, is_feature_error};
use crate::objects::{MaterialProperties, default_material_properties, opt_view};
use crate::scene::{BindingSpec, SceneConnections, SceneObjects, TextureBinding, binding_view};
use crate::text::{
    concat, decimal, decimal_string, eq_ignore_ascii_case, lowered_contains, sanitize_idtf_name,
    lowered_match_at, spec_eq_ignore_ascii_case, spec_lowered_contains, spec_sanitize_idtf_name,
};

verus! {

/// Whether a binding feeds the diffuse color: it names no property, or a
/// property that is `DiffuseColor` or mentions `diffuse` (ignoring ASCII
/// case).
pub open spec fn is_diffuse_binding(b: BindingSpec) -> bool {
    match b.property_name {
        None => true,
        Some(p) => spec_eq_ignore_ascii_case(p, "DiffuseColor"@) || spec_lowered_contains(
            p,
            "diffuse"@,
        ),
    }
}

/// The position of the first diffuse binding among `bindings[i..]`.
pub open spec fn first_diffuse_from(bindings: Seq<BindingSpec>, i: int) -> Option<int>
    decreases bindings.len() - i,
{
    if i < 0 || i >= bindings.len() {
        None
    } else if is_diffuse_binding(bindings[i]) {
        Some(i)
    } else {
        first_diffuse_from(bindings, i + 1)
    }
}

/// The binding that supplies a material's diffuse texture: the first
/// diffuse one, else the first one; `None` for an empty list.
pub open spec fn spec_select_binding(bindings: Seq<BindingSpec>) -> Option<int> {
    match first_diffuse_from(bindings, 0) {
        Some(i) => Some(i),
        None => if bindings.len() > 0 {
            Some(0)
        } else {
            None
        },
    }
}

proof fn lemma_first_diffuse_bounds(bindings: Seq<BindingSpec>, i: int)
    requires
        0 <= i,
    ensures
        first_diffuse_from(bindings, i) matches Some(k) ==> i <= k < bindings.len(),
    decreases bindings.len() - i,
{
    if i < bindings.len() && !is_diffuse_binding(bindings[i]) {
        lemma_first_diffuse_bounds(bindings, i + 1);
    }
}

fn is_diffuse_binding_exec(b: &TextureBinding) -> (r: bool)
    ensures
        r == is_diffuse_binding(binding_view(*b)),
{
    match &b.property_name {
        None => true,
        Some(p) => eq_ignore_ascii_case(p.as_str(), "DiffuseColor") || lowered_contains(
            p.as_str(),
            "diffuse",
        ),
    }
}

/// The views of a list of bindings.
pub open spec fn bindings_view(bindings: Seq<TextureBinding>) -> Seq<BindingSpec> {
    bindings.map_values(|b: TextureBinding| binding_view(b))
}

/// Picks the binding that supplies a material's diffuse texture.
pub fn select_texture_binding(bindings: &Vec<TextureBinding>) -> (r: Result<usize, ConversionError>)
    ensures
        match spec_select_binding(bindings_view(bindings@)) {
            Some(i) => r == Ok::<usize, ConversionError>(i as usize),
            None => r is Err && is_feature_error(
                r->Err_0,
                "material texture bindings were present but empty"@,
            ),
        },
        r matches Ok(i) ==> i < bindings@.len() && spec_select_binding(bindings_view(bindings@))
            == Some(i as int),
{
    proof {
        lemma_first_diffuse_bounds(bindings_view(bindings@), 0);
    }
    let ghost view = bindings_view(bindings@);
    let mut i: usize = 0;
    while i < bindings.len()
        invariant
            i <= bindings.len(),
            view == bindings_view(bindings@),
            first_diffuse_from(view, i as int) == first_diffuse_from(view, 0),
        decreases bindings.len() - i,
    {
        assert(view[i as int] == binding_view(bindings@[i as int]));
        if is_diffuse_binding_exec(&bindings[i]) {
            return Ok(i);
        }
        i = i + 1;
    }
    if bindings.len() > 0 {
        Ok(0)
    } else {
        Err(
            ConversionError::UnsupportedFbxFeature(
                String::from_str("material texture bindings were present but empty"),
            ),
        )
    }
}

/// Where the image of a texture is to be found, before the path is
/// resolved against the FBX file's folder.
#[derive(Clone, Debug)]
pub struct TextureSource {
    /// The IDTF name of the texture.
    pub texture_name: String,
    /// The path as the FBX file states it.
    pub raw_path: String,
}

/// One shading of a mesh part.
#[derive(Clone, Debug)]
pub struct Shading<N> {
    pub shader_name: String,
    pub material_name: String,
    /// The material's settings; absent settings keep the defaults.
    pub properties: MaterialProperties<N>,
    pub diffuse_texture: Option<TextureSource>,
}

/// `base` followed by `suffix` and the one-based slot number.
pub open spec fn slot_name(base: Seq<char>, suffix: Seq<char>, slot: int) -> Seq<char> {
    base + suffix + decimal((slot + 1) as nat)
}

/// The shading of a model that has no material: `Shader1` and `Material1`
/// after the model's sanitized name, with the default settings.
pub fn default_shading<N>(model_name: &str) -> (s: Shading<N>)
    ensures
        s.shader_name@ == slot_name(spec_sanitize_idtf_name(model_name@), "_Shader"@, 0),
        s.material_name@ == slot_name(spec_sanitize_idtf_name(model_name@), "_Material"@, 0),
        s.properties == default_material_properties::<N>(),
        s.diffuse_texture is None,
{
    let base = sanitize_idtf_name(model_name);
    let one = decimal_string(1u64);
    let shader = concat(concat(base.as_str(), "_Shader").as_str(), one.as_str());
    let material = concat(concat(base.as_str(), "_Material").as_str(), one.as_str());
    proof {
        reveal_strlit("_Shader");
        reveal_strlit("_Material");
    }
    Shading {
        shader_name: shader,
        material_name: material,
        properties: MaterialProperties {
            ambient: None,
            diffuse: None,
            specular: None,
            emissive: None,
            reflectivity: None,
            opacity: None,
        },
        diffuse_texture: None,
    }
}

/// The path that a texture names, else the path of its video.
pub open spec fn spec_texture_path<N>(objects: SceneObjects<N>, conns: SceneConnections, texture_id: i64) -> Option<Seq<char>> {
    match opt_view(objects.textures.lookup(texture_id)->0.file_path_hint) {
        Some(p) => Some(p),
        None => if conns.texture_videos.has(texture_id) && objects.videos.has(
            conns.texture_videos.lookup(texture_id)->0,
        ) {
            opt_view(
                objects.videos.lookup(conns.texture_videos.lookup(texture_id)->0)->0.file_path_hint,
            )
        } else {
            None
        },
    }
}

/// The diffuse texture of material `material_id` in slot `slot` of a model
/// whose sanitized name is `base`: none when no texture is bound to the
/// material; else the selected binding's texture, named after the model,
/// the texture and the slot, with the path its texture or video states.
pub open spec fn spec_material_texture<N>(
    objects: SceneObjects<N>,
    conns: SceneConnections,
    base: Seq<char>,
    slot: int,
    material_id: i64,
) -> Result<Option<(Seq<char>, Seq<char>)>, Seq<char>> {
    if !conns.material_textures.has(material_id) {
        Ok(None)
    } else {
        let bindings = bindings_view(conns.material_textures.lookup(material_id)->0@);
        match spec_select_binding(bindings) {
            None => Err("material texture bindings were present but empty"@),
            Some(i) => {
                let texture_id = bindings[i].texture_id;
                if !objects.textures.has(texture_id) {
                    Err(
                        "texture connection references unknown texture object id "@ + if texture_id
                            >= 0 {
                            decimal(texture_id as nat)
                        } else {
                            "-"@ + decimal((-texture_id) as nat)
                        },
                    )
                } else {
                    match spec_texture_path(objects, conns, texture_id) {
                        None => Err(
                            "a diffuse texture is connected, but no FileName or RelativeFilename was found"@,
                        ),
                        Some(path) => Ok(
                            Some(
                                (
                                    spec_sanitize_idtf_name(
                                        base + "_"@ + objects.textures.lookup(texture_id)->0.name@
                                            + "_"@ + decimal((slot + 1) as nat),
                                    ),
                                    path,
                                ),
                            ),
                        ),
                    }
                }
            },
        }
    }
}

/// Renders a signed id in decimal.
pub fn signed_decimal(v: i64) -> (s: String)
    ensures
        s@ == if v >= 0 {
            decimal(v as nat)
        } else {
            "-"@ + decimal((-v) as nat)
        },
{
    if v >= 0 {
        decimal_string(v as u64)
    } else {
        let magnitude: u64 = if v == i64::MIN {
            9223372036854775808u64
        } else {
            (-v) as u64
        };
        concat("-", decimal_string(magnitude).as_str())
    }
}

/// The material name of slot `slot`: the sanitized `base_name`, where
/// `name` is the material's, or `base_MaterialN` when the slot's material is
/// unknown (or that name comes out empty).
pub open spec fn spec_material_name(base: Seq<char>, material_name: Option<Seq<char>>, slot: int) -> Seq<char> {
    match material_name {
        Some(n) => if spec_sanitize_idtf_name(base + "_"@ + n).len() > 0 {
            spec_sanitize_idtf_name(base + "_"@ + n)
        } else {
            slot_name(base, "_Material"@, slot)
        },
        None => slot_name(base, "_Material"@, slot),
    }
}

/// The view of an optional texture source.
pub open spec fn texture_source_view(t: Option<TextureSource>) -> Option<(Seq<char>, Seq<char>)> {
    match t {
        Some(s) => Some((s.texture_name@, s.raw_path@)),
        None => None,
    }
}

/// Looks up the texture bound to a material's diffuse color (see
/// `spec_material_texture`).
pub fn material_texture<N>(
    objects: &SceneObjects<N>,
    conns: &SceneConnections,
    base: &str,
    slot: usize,
    material_id: i64,
) -> (r: Result<Option<TextureSource>, ConversionError>)
    requires
        slot < usize::MAX,
        objects.wf(),
        conns.material_textures.wf(),
        conns.texture_videos.wf(),
    ensures
        match spec_material_texture(*objects, *conns, base@, slot as int, material_id) {
            Ok(t) => r is Ok && texture_source_view(r->Ok_0) == t,
            Err(m) => r is Err && is_feature_error(r->Err_0, m),
        },
{
    let bindings = match conns.material_textures.get(material_id) {
        Some(b) => b,
        None => return Ok(None),
    };
    let index = match select_texture_binding(bindings) {
        Ok(i) => i,
        Err(e) => return Err(e),
    };
    proof {
        assert(bindings_view(bindings@)[index as int] == binding_view(bindings@[index as int]));
    }
    let texture_id = bindings[index].texture_id;
    let texture = match objects.textures.get(texture_id) {
        Some(t) => t,
        None => {
            let message = concat(
                "texture connection references unknown texture object id ",
                signed_decimal(texture_id).as_str(),
            );
            return Err(ConversionError::UnsupportedFbxFeature(message));
        },
    };
    let raw_path = match &texture.file_path_hint {
        Some(p) => p.clone(),
        None => {
            let video_path = match conns.texture_videos.get(texture_id) {
                Some(video_id) => match objects.videos.get(*video_id) {
                    Some(video) => match &video.file_path_hint {
                        Some(p) => Some(p.clone()),
                        None => None,
                    },
                    None => None,
                },
                None => None,
            };
            match video_path {
                Some(p) => p,
                None => return Err(
                    ConversionError::UnsupportedFbxFeature(
                        String::from_str(
                            "a diffuse texture is connected, but no FileName or RelativeFilename was found",
                        ),
                    ),
                ),
            }
        },
    };
    let a = concat(base, "_");
    let b = concat(a.as_str(), texture.name.as_str());
    let c = concat(b.as_str(), "_");
    let d = concat(c.as_str(), decimal_string(slot as u64 + 1).as_str());
    let texture_name = sanitize_idtf_name(d.as_str());
    proof {
        reveal_strlit("_");
    }
    Ok(Some(TextureSource { texture_name, raw_path }))
}

/// `s` is the shading of slot `slot` of a model whose sanitized name is
/// `base`, using material `material_id` with diffuse texture `t`.
pub open spec fn shading_for_slot<N>(
    objects: SceneObjects<N>,
    base: Seq<char>,
    slot: int,
    material_id: i64,
    t: Option<(Seq<char>, Seq<char>)>,
    s: Shading<N>,
) -> bool {
    &&& s.shader_name@ == slot_name(base, "_Shader"@, slot)
    &&& s.material_name@ == spec_material_name(
        base,
        match objects.materials.lookup(material_id) {
            Some(m) => Some(m.name@),
            None => None,
        },
        slot,
    )
    &&& s.properties == match objects.materials.lookup(material_id) {
        Some(m) => m.properties,
        None => default_material_properties::<N>(),
    }
    &&& texture_source_view(s.diffuse_texture) == t
}

/// The shading of material slot `slot` of a model whose sanitized name is
/// `base`, using material `material_id`: `base_ShaderN` and the material's
/// name (see `spec_material_name`), the material's settings (the defaults
/// for an unknown material), and its diffuse texture, if any.
pub fn material_shading<N: Copy>(
    objects: &SceneObjects<N>,
    conns: &SceneConnections,
    base: &str,
    slot: usize,
    material_id: i64,
) -> (r: Result<Shading<N>, ConversionError>)
    requires
        slot < usize::MAX,
        objects.wf(),
        conns.material_textures.wf(),
        conns.texture_videos.wf(),
    ensures
        match spec_material_texture(*objects, *conns, base@, slot as int, material_id) {
            Err(m) => r is Err && is_feature_error(r->Err_0, m),
            Ok(t) => r is Ok && shading_for_slot(*objects, base@, slot as int, material_id, t, r->Ok_0),
        },
{
    let number = decimal_string(slot as u64 + 1);
    let fallback = concat(concat(base, "_Material").as_str(), number.as_str());
    let (material_name, properties) = match objects.materials.get(material_id) {
        Some(m) => {
            let joined = concat(concat(base, "_").as_str(), m.name.as_str());
            let name = sanitize_idtf_name(joined.as_str());
            proof {
                reveal_strlit("_");
            }
            if name.as_str().unicode_len() > 0 {
                (name, m.properties)
            } else {
                (fallback, m.properties)
            }
        },
        None => (
            fallback,
            MaterialProperties {
                ambient: None,
                diffuse: None,
                specular: None,
                emissive: None,
                reflectivity: None,
                opacity: None,
            },
        ),
    };
    let diffuse_texture = match material_texture(objects, conns, base, slot, material_id) {
        Ok(t) => t,
        Err(e) => return Err(e),
    };
    let shader_name = concat(concat(base, "_Shader").as_str(), number.as_str());
    proof {
        reveal_strlit("_Shader");
        reveal_strlit("_Material");
    }
    Ok(Shading { shader_name, material_name, properties, diffuse_texture })
}

/// `s` is the shading that slot `slot` of a model whose sanitized name is
/// `base` gets from material `material_id`, whose texture resolved.
pub open spec fn slot_built<N>(
    objects: SceneObjects<N>,
    conns: SceneConnections,
    base: Seq<char>,
    slot: int,
    material_id: i64,
    s: Shading<N>,
) -> bool {
    spec_material_texture(objects, conns, base, slot, material_id) matches Ok(t) && shading_for_slot(
        objects,
        base,
        slot,
        material_id,
        t,
        s,
    )
}

/// The shadings of a model's material slots, built in slot order, and the
/// error that stopped the build, if any.
#[derive(Debug)]
pub struct ModelShadings<N> {
    pub shadings: Vec<Shading<N>>,
    pub error: Option<ConversionError>,
}

/// The shadings of a model named `model_name` whose material slots hold
/// `material_ids`: with no material, the one default shading; else one
/// shading per slot (see `material_shading`), in slot order, up to the
/// first slot whose texture cannot be resolved, whose error is returned
/// beside the shadings of the slots before it.
pub fn build_shadings_for_model<N: Copy>(
    objects: &SceneObjects<N>,
    conns: &SceneConnections,
    model_name: &str,
    material_ids: &Vec<i64>,
) -> (r: ModelShadings<N>)
    requires
        objects.wf(),
        conns.material_textures.wf(),
        conns.texture_videos.wf(),
    ensures
        material_ids@.len() == 0 ==> {
            &&& r.error is None
            &&& r.shadings@.len() == 1
            &&& r.shadings@[0].shader_name@ == slot_name(spec_sanitize_idtf_name(model_name@), "_Shader"@, 0)
            &&& r.shadings@[0].material_name@ == slot_name(
                spec_sanitize_idtf_name(model_name@),
                "_Material"@,
                0,
            )
            &&& r.shadings@[0].properties == default_material_properties::<N>()
            &&& r.shadings@[0].diffuse_texture is None
        },
        material_ids@.len() > 0 ==> {
            let base = spec_sanitize_idtf_name(model_name@);
            &&& r.shadings@.len() <= material_ids@.len()
            &&& forall|i: int|
                0 <= i < r.shadings@.len() ==> slot_built(
                    *objects,
                    *conns,
                    base,
                    i,
                    material_ids@[i],
                    #[trigger] r.shadings@[i],
                )
            &&& (r.error is None <==> r.shadings@.len() == material_ids@.len())
            &&& r.error matches Some(e) ==> (spec_material_texture(
                *objects,
                *conns,
                base,
                r.shadings@.len() as int,
                material_ids@[r.shadings@.len() as int],
            ) matches Err(m) && is_feature_error(e, m))
        },
{
    if material_ids.len() == 0 {
        let mut shadings: Vec<Shading<N>> = Vec::new();
        shadings.push(default_shading(model_name));
        return ModelShadings { shadings, error: None };
    }
    let base = sanitize_idtf_name(model_name);
    let mut shadings: Vec<Shading<N>> = Vec::new();
    let mut slot: usize = 0;
    while slot < material_ids.len()
        invariant
            objects.wf(),
            conns.material_textures.wf(),
            conns.texture_videos.wf(),
            base@ == spec_sanitize_idtf_name(model_name@),
            slot <= material_ids@.len(),
            shadings@.len() == slot,
            forall|i: int|
                0 <= i < slot ==> slot_built(
                    *objects,
                    *conns,
                    base@,
                    i,
                    material_ids@[i],
                    #[trigger] shadings@[i],
                ),
        decreases material_ids@.len() - slot,
    {
        let id = material_ids[slot];
        let r = material_shading(objects, conns, base.as_str(), slot, id);
        match r {
            Ok(s) => {
                let ghost before = shadings@;
                shadings.push(s);
                proof {
                    assert(slot_built(*objects, *conns, base@, slot as int, id, s));
                    assert forall|i: int| 0 <= i < slot + 1 implies slot_built(
                        *objects,
                        *conns,
                        base@,
                        i,
                        material_ids@[i],
                        #[trigger] shadings@[i],
                    ) by {
                        if i < slot {
                            assert(shadings@[i] == before[i]);
                        }
                    }
                }
            },
            Err(e) => {
                proof {
                    let t = spec_material_texture(*objects, *conns, base@, slot as int, id);
                    assert(t is Err);
                }
                return ModelShadings { shadings, error: Some(e) };
            },
        }
        slot = slot + 1;
    }
    ModelShadings { shadings, error: None }
}

/// The materials in the slots of model `model_id` (none for a geometry
/// that no model uses).
pub open spec fn spec_model_material_ids(conns: SceneConnections, model_id: Option<i64>) -> Seq<i64> {
    match model_id {
        Some(id) => match conns.model_materials.lookup(id) {
            Some(v) => v@,
            None => seq![],
        },
        None => seq![],
    }
}

/// The materials connected to model `model_id`, slot by slot.
pub fn model_material_ids(conns: &SceneConnections, model_id: Option<i64>) -> (ids: Vec<i64>)
    requires
        conns.model_materials.wf(),
    ensures
        ids@ == spec_model_material_ids(*conns, model_id),
{
    match model_id {
        Some(id) => match conns.model_materials.get(id) {
            Some(v) => crate::fbx::copy_values(v),
            None => Vec::new(),
        },
        None => Vec::new(),
    }
}

/// The letters of `diffuse`.
pub open spec fn diffuse_letters() -> Seq<char> {
    seq!['d', 'i', 'f', 'f', 'u', 's', 'e']
}

/// The letters of `DiffuseColor`.
pub open spec fn diffuse_color_letters() -> Seq<char> {
    seq!['D', 'i', 'f', 'f', 'u', 's', 'e', 'C', 'o', 'l', 'o', 'r']
}

/// Binding `b` names a property, and that property is not `DiffuseColor`
/// (in any ASCII case) and, lowered, holds no `diffuse`.
pub open spec fn names_other_property(b: BindingSpec) -> bool {
    b.property_name matches Some(p) && !spec_eq_ignore_ascii_case(p, diffuse_color_letters()) && !(
    exists|at: int| lowered_match_at(p, diffuse_letters(), at))
}

proof fn lemma_diffuse_words()
    ensures
        "diffuse"@ == diffuse_letters(),
        "DiffuseColor"@ == diffuse_color_letters(),
{
    reveal_strlit("diffuse");
    reveal_strlit("DiffuseColor");
    assert("diffuse"@ =~= diffuse_letters());
    assert("DiffuseColor"@ =~= diffuse_color_letters());
}

proof fn lemma_first_diffuse_skips(bindings: Seq<BindingSpec>, s: int, k: int)
    requires
        0 <= s <= k < bindings.len(),
        !names_other_property(bindings[k]),
    ensures
        (first_diffuse_from(bindings, s) matches Some(i) && s <= i <= k && !names_other_property(
            bindings[i],
        ) && forall|j: int| s <= j < i ==> names_other_property(#[trigger] bindings[j])),
    decreases k - s,
{
    lemma_diffuse_words();
    if is_diffuse_binding(bindings[s]) {
    } else {
        assert(names_other_property(bindings[s]));
        lemma_first_diffuse_skips(bindings, s + 1, k);
    }
}

/// The binding chosen for a material's diffuse texture: a binding whose
/// property name, lowered, contains `diffuse` (or that is `DiffuseColor`,
/// or names no property) wins over every binding after it and every binding
/// before it that names another property; the one chosen is the first that
/// does not name another property. Only when every binding names another
/// property is the first one taken.
pub proof fn lemma_diffuse_binding_preferred(bindings: Seq<BindingSpec>)
    ensures
        forall|k: int|
            0 <= k < bindings.len() && !names_other_property(#[trigger] bindings[k])
                ==> (spec_select_binding(bindings) matches Some(i) && i <= k && !names_other_property(
                bindings[i],
            ) && forall|j: int| 0 <= j < i ==> names_other_property(#[trigger] bindings[j])),
        (forall|k: int| 0 <= k < bindings.len() ==> names_other_property(#[trigger] bindings[k]))
            ==> spec_select_binding(bindings) == (if bindings.len() > 0 {
            Some(0int)
        } else {
            None
        }),
{
    assert forall|k: int|
        0 <= k < bindings.len() && !names_other_property(#[trigger] bindings[k]) implies (spec_select_binding(
        bindings,
    ) matches Some(i) && i <= k && !names_other_property(bindings[i]) && forall|j: int|
        0 <= j < i ==> names_other_property(#[trigger] bindings[j])) by {
        lemma_first_diffuse_skips(bindings, 0, k);
    }
    if forall|k: int| 0 <= k < bindings.len() ==> names_other_property(#[trigger] bindings[k]) {
        lemma_none_diffuse(bindings, 0);
    }
}

proof fn lemma_none_diffuse(bindings: Seq<BindingSpec>, s: int)
    requires
        0 <= s,
        forall|k: int| 0 <= k < bindings.len() ==> names_other_property(#[trigger] bindings[k]),
    ensures
        first_diffuse_from(bindings, s) is None,
    decreases bindings.len() - s,
{
    lemma_diffuse_words();
    if s < bindings.len() {
        assert(names_other_property(bindings[s]));
        lemma_none_diffuse(bindings, s + 1);
    }
}

} // verus!
