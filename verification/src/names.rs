//! Unique IDTF resource names. Every node, mesh resource, shader, material
//! and texture of a scene must carry a name of its own in the IDTF document,
//! so that the parts of an assembly remain identifiable after conversion.
use vstd::prelude::*;
use vstd::string::*;
use crate::text::{
    concat, decimal, decimal_string, is_blank, lemma_decimal_injective, lemma_decimal_len,
    sanitize_idtf_name, spec_is_blank, spec_sanitize_idtf_name, str_equal,
};

verus! {

/// The name a resource starts from: its sanitized name, or `fallback` when
/// that is blank.
pub open spec fn resource_base(name: Seq<char>, fallback: Seq<char>) -> Seq<char> {
    if spec_is_blank(spec_sanitize_idtf_name(name)) {
        fallback
    } else {
        spec_sanitize_idtf_name(name)
    }
}

/// The `k`-th name tried for `base`: `base` itself for `k == 1`, then
/// `base_2`, `base_3`, and so on.
pub open spec fn name_candidate(base: Seq<char>, k: nat) -> Seq<char> {
    if k < 2 {
        base
    } else {
        base + "_"@ + decimal(k)
    }
}

/// `name` is the first candidate for `base` that `used` does not hold.
pub open spec fn is_first_free(name: Seq<char>, base: Seq<char>, used: Seq<Seq<char>>) -> bool {
    exists|k: nat|
        #![trigger name_candidate(base, k)]
        1 <= k && name == name_candidate(base, k) && !used.contains(name) && forall|j: nat|
            1 <= j < k ==> used.contains(#[trigger] name_candidate(base, j))
}

proof fn lemma_candidates_distinct(base: Seq<char>, a: nat, b: nat)
    requires
        1 <= a < b,
    ensures
        name_candidate(base, a) != name_candidate(base, b),
{
    reveal_strlit("_");
    lemma_decimal_len(b);
    if a < 2 {
        assert(name_candidate(base, b).len() > base.len());
    } else {
        let ca = name_candidate(base, a);
        let cb = name_candidate(base, b);
        if ca == cb {
            lemma_decimal_len(a);
            let p = base + "_"@;
            assert(ca.skip(p.len() as int) =~= decimal(a));
            assert(cb.skip(p.len() as int) =~= decimal(b));
            lemma_decimal_injective(a, b);
        }
    }
}

/// Returns the sanitized `name` (or `fallback` when that is blank), suffixed
/// with `_2`, `_3`, ... until it differs from every name in `used`, and
/// records it in `used`.
pub fn unique_resource_name(name: &str, fallback: &str, used: &mut Vec<String>) -> (out: String)
    requires
        old(used)@.len() + 2 < usize::MAX,
    ensures
        is_first_free(out@, resource_base(name@, fallback@), old(used).deep_view()),
        final(used).deep_view() == old(used).deep_view().push(out@),
{
    let sanitized = sanitize_idtf_name(name);
    let base = if is_blank(sanitized.as_str()) {
        String::from_str(fallback)
    } else {
        sanitized
    };
    let ghost used_view = used.deep_view();
    let ghost base_view = base@;
    let mut candidate = base.clone();
    let mut suffix: usize = 2;
    let ghost mut tried: Set<Seq<char>> = Set::empty();
    proof {
        used_view.lemma_cardinality_of_set();
    }
    while contains_name(used, candidate.as_str())
        invariant
            used.deep_view() == used_view,
            base@ == base_view,
            used_view.len() + 2 < usize::MAX,
            2 <= suffix,
            candidate@ == name_candidate(base_view, (suffix - 1) as nat),
            forall|j: nat| 1 <= j < suffix - 1 ==> used_view.contains(#[trigger] name_candidate(base_view, j)),
            tried.finite(),
            tried.len() == suffix - 2,
            tried.subset_of(used_view.to_set()),
            forall|s: Seq<char>| #[trigger] tried.contains(s) ==> exists|j: nat| 1 <= j < suffix - 1 && s == #[trigger] name_candidate(base_view, j),
            used_view.to_set().len() <= used_view.len(),
        decreases used_view.len() + 2 - suffix,
    {
        proof {
            assert forall|s: Seq<char>| tried.contains(s) implies s != candidate@ by {
                let j = choose|j: nat| 1 <= j < suffix - 1 && s == #[trigger] name_candidate(base_view, j);
                lemma_candidates_distinct(base_view, j, (suffix - 1) as nat);
            }
            assert(used_view.to_set().contains(candidate@));
            tried = tried.insert(candidate@);
            vstd::set_lib::lemma_len_subset(tried, used_view.to_set());
        }
        let tail = decimal_string(suffix as u64);
        let with_sep = concat(base.as_str(), "_");
        candidate = concat(with_sep.as_str(), tail.as_str());
        proof {
            reveal_strlit("_");
        }
        suffix = suffix + 1;
    }
    let out = candidate.clone();
    used.push(candidate);
    proof {
        assert(used.deep_view() =~= used_view.push(out@));
        assert(name_candidate(base_view, (suffix - 1) as nat) == out@);
    }
    out
}

/// Whether `names` holds `name`.
pub fn contains_name(names: &Vec<String>, name: &str) -> (r: bool)
    ensures
        r == names.deep_view().contains(name@),
{
    let mut i: usize = 0;
    while i < names.len()
        invariant
            i <= names.len(),
            forall|j: int| 0 <= j < i ==> names.deep_view()[j] != name@,
        decreases names.len() - i,
    {
        if str_equal(names[i].as_str(), name) {
            assert(names.deep_view()[i as int] == name@);
            return true;
        }
        i = i + 1;
    }
    proof {
        if names.deep_view().contains(name@) {
            let j = choose|j: int| 0 <= j < names.deep_view().len() && names.deep_view()[j] == name@;
            assert(names.deep_view()[j] != name@);
        }
    }
    false
}

} // verus!

verus! {

/// The names that one shading of a mesh part contributes to the IDTF
/// document: its shader, its material and, when a diffuse texture is bound,
/// the texture.
#[derive(Clone, Debug)]
pub struct ShadingNames {
    pub shader_name: String,
    pub material_name: String,
    pub texture_name: Option<String>,
}

/// The names of a shading, as character sequences.
pub struct ShadingNamesView {
    pub shader: Seq<char>,
    pub material: Seq<char>,
    pub texture: Option<Seq<char>>,
}

impl View for ShadingNames {
    type V = ShadingNamesView;

    open spec fn view(&self) -> ShadingNamesView {
        ShadingNamesView {
            shader: self.shader_name@,
            material: self.material_name@,
            texture: match self.texture_name {
                Some(t) => Some(t@),
                None => None,
            },
        }
    }
}

/// Every resource name of a scene, in document order: node names, mesh
/// resource names (one per part), and the shadings of all parts, part after
/// part.
#[derive(Clone, Debug)]
pub struct SceneNames {
    pub node_names: Vec<String>,
    pub mesh_names: Vec<String>,
    pub shadings: Vec<ShadingNames>,
}

/// `prefix` followed by the one-based position `i + 1`, such as `Node3`.
pub open spec fn numbered(prefix: Seq<char>, i: int) -> Seq<char> {
    prefix + decimal((i + 1) as nat)
}

/// `new` is `old` with each name replaced by its first free candidate, the
/// names before it counting as taken; `prefix` numbers the fallbacks.
pub open spec fn uniquified(old: Seq<Seq<char>>, new: Seq<Seq<char>>, prefix: Seq<char>) -> bool {
    &&& new.len() == old.len()
    &&& forall|i: int|
        0 <= i < new.len() ==> #[trigger] is_first_free(
            new[i],
            resource_base(old[i], numbered(prefix, i)),
            new.take(i),
        )
}

/// The shader names of `s`.
pub open spec fn shader_names(s: Seq<ShadingNamesView>) -> Seq<Seq<char>> {
    s.map_values(|v: ShadingNamesView| v.shader)
}

/// The material names of `s`.
pub open spec fn material_names(s: Seq<ShadingNamesView>) -> Seq<Seq<char>> {
    s.map_values(|v: ShadingNamesView| v.material)
}

/// The texture names among the first `i` shadings of `s`.
pub open spec fn texture_names_before(s: Seq<ShadingNamesView>, i: int) -> Seq<Seq<char>>
    decreases i,
{
    if i <= 0 {
        seq![]
    } else {
        match s[i - 1].texture {
            Some(t) => texture_names_before(s, i - 1).push(t),
            None => texture_names_before(s, i - 1),
        }
    }
}

/// The texture names of the new shadings `new` are those of `old` made
/// unique among themselves, each texture present exactly where it was.
pub open spec fn textures_uniquified(old: Seq<ShadingNamesView>, new: Seq<ShadingNamesView>) -> bool {
    &&& new.len() == old.len()
    &&& forall|i: int|
        0 <= i < new.len() ==> (#[trigger] new[i].texture is Some <==> old[i].texture is Some)
    &&& forall|i: int|
        0 <= i < new.len() && new[i].texture is Some ==> is_first_free(
            new[i].texture->0,
            resource_base(old[i].texture->0, numbered("Texture"@, i)),
            #[trigger] texture_names_before(new, i),
        )
}

/// The views of a list of shadings.
pub open spec fn shading_views(s: Seq<ShadingNames>) -> Seq<ShadingNamesView> {
    s.map_values(|v: ShadingNames| v@)
}

/// `new` holds the names of a scene whose node names, mesh names and
/// shadings were `nodes`, `meshes` and `shadings`, each list made unique:
/// blank names numbered after their kind, taken ones suffixed.
pub open spec fn names_made_unique(
    nodes: Seq<Seq<char>>,
    meshes: Seq<Seq<char>>,
    shadings: Seq<ShadingNamesView>,
    new: SceneNames,
) -> bool {
    &&& uniquified(nodes, new.node_names.deep_view(), "Node"@)
    &&& uniquified(meshes, new.mesh_names.deep_view(), "Mesh"@)
    &&& uniquified(shader_names(shadings), shader_names(shading_views(new.shadings@)), "Shader"@)
    &&& uniquified(material_names(shadings), material_names(shading_views(new.shadings@)), "Material"@)
    &&& textures_uniquified(shadings, shading_views(new.shadings@))
}

/// Makes every name in `names` unique, numbering blank ones `prefix1`,
/// `prefix2`, ...
fn uniquify_list(names: &Vec<String>, prefix: &str) -> (out: Vec<String>)
    requires
        names.len() + 2 < usize::MAX,
    ensures
        uniquified(names.deep_view(), out.deep_view(), prefix@),
{
    let mut out: Vec<String> = Vec::new();
    let mut i: usize = 0;
    while i < names.len()
        invariant
            i <= names.len(),
            out.len() == i,
            names.len() + 2 < usize::MAX,
            forall|j: int|
                0 <= j < i ==> #[trigger] is_first_free(
                    out.deep_view()[j],
                    resource_base(names.deep_view()[j], numbered(prefix@, j)),
                    out.deep_view().take(j),
                ),
        decreases names.len() - i,
    {
        let number = decimal_string((i + 1) as u64);
        let fallback = concat(prefix, number.as_str());
        let ghost before = out.deep_view();
        let name = unique_resource_name(names[i].as_str(), fallback.as_str(), &mut out);
        proof {
            assert(out.deep_view() == before.push(name@));
            assert(before =~= out.deep_view().take(i as int));
            assert forall|j: int|
                0 <= j < i + 1 implies #[trigger] is_first_free(
                out.deep_view()[j],
                resource_base(names.deep_view()[j], numbered(prefix@, j)),
                out.deep_view().take(j),
            ) by {
                if j < i {
                    assert(out.deep_view()[j] == before[j]);
                    assert(out.deep_view().take(j) =~= before.take(j));
                }
            }
        }
        i = i + 1;
    }
    proof {
        assert(out.deep_view().len() == names.deep_view().len());
    }
    out
}

/// Renames the nodes, mesh resources, shaders, materials and textures of a
/// scene so that no two resources of one kind share a name: each name is
/// sanitized for IDTF, a blank one falls back to its kind and one-based
/// position (`Node1`, `Mesh2`, `Shader3`, `Material3`, `Texture3`), and a name
/// already taken by an earlier resource of its kind gets the first free
/// suffix `_2`, `_3`, ...
pub fn ensure_unique_scene_resource_names(scene: &mut SceneNames)
    requires
        old(scene).node_names.len() + 2 < usize::MAX,
        old(scene).mesh_names.len() + 2 < usize::MAX,
        old(scene).shadings.len() + 2 < usize::MAX,
    ensures
        names_made_unique(
            old(scene).node_names.deep_view(),
            old(scene).mesh_names.deep_view(),
            shading_views(old(scene).shadings@),
            *final(scene),
        ),
{
    let nodes = uniquify_list(&scene.node_names, "Node");
    let meshes = uniquify_list(&scene.mesh_names, "Mesh");
    let ghost old_views = shading_views(scene.shadings@);
    let mut shader_used: Vec<String> = Vec::new();
    let mut material_used: Vec<String> = Vec::new();
    let mut texture_used: Vec<String> = Vec::new();
    let mut shadings: Vec<ShadingNames> = Vec::new();
    let mut i: usize = 0;
    while i < scene.shadings.len()
        invariant
            i <= scene.shadings.len(),
            scene.shadings.len() + 2 < usize::MAX,
            old_views == shading_views(scene.shadings@),
            shadings.len() == i,
            shader_used.len() == i,
            material_used.len() == i,
            texture_used.len() <= i,
            shader_used.deep_view() == shader_names(shading_views(shadings@)),
            material_used.deep_view() == material_names(shading_views(shadings@)),
            texture_used.deep_view() == texture_names_before(shading_views(shadings@), i as int),
            forall|j: int|
                0 <= j < i ==> #[trigger] is_first_free(
                    shader_names(shading_views(shadings@))[j],
                    resource_base(shader_names(old_views)[j], numbered("Shader"@, j)),
                    shader_names(shading_views(shadings@)).take(j),
                ),
            forall|j: int|
                0 <= j < i ==> #[trigger] is_first_free(
                    material_names(shading_views(shadings@))[j],
                    resource_base(material_names(old_views)[j], numbered("Material"@, j)),
                    material_names(shading_views(shadings@)).take(j),
                ),
            forall|j: int|
                0 <= j < i ==> (#[trigger] shading_views(shadings@)[j].texture is Some
                    <==> old_views[j].texture is Some),
            forall|j: int|
                0 <= j < i && shading_views(shadings@)[j].texture is Some ==> is_first_free(
                    shading_views(shadings@)[j].texture->0,
                    resource_base(old_views[j].texture->0, numbered("Texture"@, j)),
                    #[trigger] texture_names_before(shading_views(shadings@), j),
                ),
        decreases scene.shadings.len() - i,
    {
        let number = decimal_string((i + 1) as u64);
        let shader_fallback = concat("Shader", number.as_str());
        let material_fallback = concat("Material", number.as_str());
        let texture_fallback = concat("Texture", number.as_str());
        let ghost before = shadings@;
        let ghost shader_before = shader_used.deep_view();
        let ghost material_before = material_used.deep_view();
        let ghost texture_before = texture_used.deep_view();
        let shader_name = unique_resource_name(
            scene.shadings[i].shader_name.as_str(),
            shader_fallback.as_str(),
            &mut shader_used,
        );
        let material_name = unique_resource_name(
            scene.shadings[i].material_name.as_str(),
            material_fallback.as_str(),
            &mut material_used,
        );
        let texture_name = match &scene.shadings[i].texture_name {
            Some(t) => Some(
                unique_resource_name(t.as_str(), texture_fallback.as_str(), &mut texture_used),
            ),
            None => None,
        };
        let entry = ShadingNames { shader_name, material_name, texture_name };
        shadings.push(entry);
        proof {
            let nv = shading_views(shadings@);
            let bv = shading_views(before);
            assert(nv =~= bv.push(entry@));
            assert(shader_names(nv) =~= shader_names(bv).push(entry@.shader));
            assert(material_names(nv) =~= material_names(bv).push(entry@.material));
            assert(shader_names(nv).take(i as int) =~= shader_names(bv));
            assert(material_names(nv).take(i as int) =~= material_names(bv));
            assert(old_views[i as int] == scene.shadings@[i as int]@);
            assert(shader_names(old_views)[i as int] == scene.shadings@[i as int].shader_name@);
            assert(material_names(old_views)[i as int]
                == scene.shadings@[i as int].material_name@);
            assert forall|j: int| 0 <= j <= i implies texture_names_before(nv, j)
                == texture_names_before(bv, j) by {
                lemma_texture_names_before_prefix(nv, bv, j);
            }
            assert(texture_used.deep_view() == texture_names_before(nv, i + 1));
            assert forall|j: int|
                0 <= j < i + 1 implies #[trigger] is_first_free(
                shader_names(nv)[j],
                resource_base(shader_names(old_views)[j], numbered("Shader"@, j)),
                shader_names(nv).take(j),
            ) by {
                if j < i {
                    assert(shader_names(nv)[j] == shader_names(bv)[j]);
                    assert(shader_names(nv).take(j) =~= shader_names(bv).take(j));
                }
            }
            assert forall|j: int|
                0 <= j < i + 1 implies #[trigger] is_first_free(
                material_names(nv)[j],
                resource_base(material_names(old_views)[j], numbered("Material"@, j)),
                material_names(nv).take(j),
            ) by {
                if j < i {
                    assert(material_names(nv)[j] == material_names(bv)[j]);
                    assert(material_names(nv).take(j) =~= material_names(bv).take(j));
                }
            }
            assert forall|j: int|
                0 <= j < i + 1 && nv[j].texture is Some implies is_first_free(
                nv[j].texture->0,
                resource_base(old_views[j].texture->0, numbered("Texture"@, j)),
                #[trigger] texture_names_before(nv, j),
            ) by {
                if j < i {
                    assert(nv[j] == bv[j]);
                }
            }
        }
        i = i + 1;
    }
    scene.node_names = nodes;
    scene.mesh_names = meshes;
    scene.shadings = shadings;
    proof {
        assert(shader_names(shading_views(scene.shadings@)).len() == shader_names(old_views).len());
    }
}

proof fn lemma_texture_names_before_prefix(
    longer: Seq<ShadingNamesView>,
    shorter: Seq<ShadingNamesView>,
    j: int,
)
    requires
        j <= shorter.len() <= longer.len(),
        forall|k: int| 0 <= k < shorter.len() ==> longer[k] == shorter[k],
    ensures
        texture_names_before(longer, j) == texture_names_before(shorter, j),
    decreases j,
{
    if j > 0 {
        lemma_texture_names_before_prefix(longer, shorter, j - 1);
    }
}

/// A list made of first free candidates never names two entries alike.
pub proof fn lemma_uniquified_names_distinct(old: Seq<Seq<char>>, new: Seq<Seq<char>>, prefix: Seq<char>)
    requires
        uniquified(old, new, prefix),
    ensures
        new.no_duplicates(),
{
    assert forall|a: int, b: int| 0 <= a < new.len() && 0 <= b < new.len() && a != b implies new[a]
        != new[b] by {
        let (lo, hi) = if a < b { (a, b) } else { (b, a) };
        assert(is_first_free(new[hi], resource_base(old[hi], numbered(prefix, hi)), new.take(hi)));
        assert(new.take(hi)[lo] == new[lo]);
        assert(new.take(hi).contains(new[lo]));
    }
}

// ---------------------------------------------------------------- a second pass

/// A name that a pass leaves as it finds it: already sanitized, not blank.
pub open spec fn settled(name: Seq<char>) -> bool {
    spec_sanitize_idtf_name(name) == name && !spec_is_blank(name)
}

proof fn lemma_decimal_digits(n: nat)
    ensures
        forall|i: int|
            0 <= i < decimal(n).len() ==> crate::text::idtf_name_char(#[trigger] decimal(n)[i])
                == decimal(n)[i],
    decreases n,
{
    if n >= 10 {
        lemma_decimal_digits(n / 10);
        let d = decimal(n);
        assert forall|i: int| 0 <= i < d.len() implies crate::text::idtf_name_char(#[trigger] d[i]) == d[i] by {
            if i < d.len() - 1 {
                assert(d[i] == decimal(n / 10)[i]);
            }
        }
    }
}

/// Appending `_` and digits to a settled name keeps it settled.
proof fn lemma_settled_suffix(base: Seq<char>, sep: Seq<char>, n: nat)
    requires
        settled(base),
        sep.len() <= 1,
        sep.len() == 1 ==> sep[0] == '_',
    ensures
        settled(base + sep + decimal(n)),
{
    lemma_decimal_digits(n);
    let whole = base + sep + decimal(n);
    assert(spec_sanitize_idtf_name(whole) =~= whole) by {
        assert forall|i: int| 0 <= i < whole.len() implies crate::text::idtf_name_char(#[trigger] whole[i])
            == whole[i] by {
            if i < base.len() {
                assert(spec_sanitize_idtf_name(base)[i] == base[i]);
            } else if i < base.len() + sep.len() {
            } else {
                assert(whole[i] == decimal(n)[i - base.len() - sep.len()]);
            }
        }
    }
    let k = choose|k: int| 0 <= k < base.len() && !crate::text::is_unicode_whitespace(base[k]);
    assert(whole[k] == base[k]);
}

/// The first name a pass starts from is settled when the fallback is.
proof fn lemma_settled_base(name: Seq<char>, fallback: Seq<char>)
    requires
        settled(fallback),
    ensures
        settled(resource_base(name, fallback)),
{
    let clean = spec_sanitize_idtf_name(name);
    assert(spec_sanitize_idtf_name(clean) =~= clean);
}

/// A name that a pass hands out is settled.
proof fn lemma_settled_candidate(base: Seq<char>, k: nat)
    requires
        settled(base),
    ensures
        settled(name_candidate(base, k)),
{
    if k >= 2 {
        reveal_strlit("_");
        lemma_settled_suffix(base, "_"@, k);
    }
}

/// Where `new` repeats the settled names of `mid` that each differ from the
/// names before them, a pass over `mid` keeps them.
proof fn lemma_second_pass_keeps(mid: Seq<Seq<char>>, new: Seq<Seq<char>>, prefix: Seq<char>, n: int)
    requires
        uniquified(mid, new, prefix),
        0 <= n <= mid.len(),
        forall|i: int| 0 <= i < mid.len() ==> settled(#[trigger] mid[i]),
        forall|i: int| 0 <= i < mid.len() ==> !mid.take(i).contains(#[trigger] mid[i]),
    ensures
        new.take(n) == mid.take(n),
    decreases n,
{
    if n > 0 {
        let i = n - 1;
        lemma_second_pass_keeps(mid, new, prefix, i);
        assert(new.take(i) =~= mid.take(i));
        assert(settled(mid[i]));
        assert(resource_base(mid[i], numbered(prefix, i)) == mid[i]);
        assert(is_first_free(new[i], mid[i], new.take(i)));
        let k = choose|k: nat|
            #![trigger name_candidate(mid[i], k)]
            1 <= k && new[i] == name_candidate(mid[i], k) && !new.take(i).contains(new[i]) && forall|
                j: nat,
            | 1 <= j < k ==> new.take(i).contains(#[trigger] name_candidate(mid[i], j));
        if k > 1 {
            assert(new.take(i).contains(name_candidate(mid[i], 1)));
            assert(!mid.take(i).contains(mid[i]));
        }
        assert(new.take(n) =~= mid.take(n));
    }
}

/// Making a list of names unique a second time, with a settled fallback
/// prefix, changes nothing.
pub proof fn lemma_uniquify_twice(old: Seq<Seq<char>>, mid: Seq<Seq<char>>, new: Seq<Seq<char>>, prefix: Seq<char>)
    requires
        uniquified(old, mid, prefix),
        uniquified(mid, new, prefix),
        settled(prefix),
    ensures
        new == mid,
{
    assert forall|i: int| 0 <= i < mid.len() implies settled(#[trigger] mid[i]) && !mid.take(i).contains(
        mid[i],
    ) by {
        lemma_settled_numbered(prefix, i);
        lemma_first_free_settled(mid[i], old[i], numbered(prefix, i), mid.take(i));
    }
    lemma_second_pass_keeps(mid, new, prefix, mid.len() as int);
    assert(new =~= new.take(mid.len() as int));
    assert(mid =~= mid.take(mid.len() as int));
}

/// The texture names before position `i` only depend on the textures there.
proof fn lemma_texture_names_agree(a: Seq<ShadingNamesView>, b: Seq<ShadingNamesView>, i: int)
    requires
        i <= a.len(),
        i <= b.len(),
        forall|j: int| 0 <= j < i ==> (#[trigger] a[j]).texture == b[j].texture,
    ensures
        texture_names_before(a, i) == texture_names_before(b, i),
    decreases i,
{
    if i > 0 {
        lemma_texture_names_agree(a, b, i - 1);
    }
}

/// The name a pass gives a resource is settled when its fallback is.
proof fn lemma_first_free_settled(name: Seq<char>, old_name: Seq<char>, fallback: Seq<char>, used: Seq<Seq<char>>)
    requires
        settled(fallback),
        is_first_free(name, resource_base(old_name, fallback), used),
    ensures
        settled(name),
        !used.contains(name),
{
    lemma_settled_base(old_name, fallback);
    let base = resource_base(old_name, fallback);
    let k = choose|k: nat|
        #![trigger name_candidate(base, k)]
        1 <= k && name == name_candidate(base, k) && !used.contains(name) && forall|j: nat|
            1 <= j < k ==> used.contains(#[trigger] name_candidate(base, j));
    lemma_settled_candidate(base, k);
}

/// `prefix` numbered is settled when `prefix` is.
proof fn lemma_settled_numbered(prefix: Seq<char>, i: int)
    requires
        settled(prefix),
        i >= 0,
    ensures
        settled(numbered(prefix, i)),
{
    lemma_settled_suffix(prefix, seq![], (i + 1) as nat);
    assert(prefix + seq![] + decimal((i + 1) as nat) =~= numbered(prefix, i));
}

/// The textures of `new` agree with those of `mid` up to position `n`.
proof fn lemma_textures_twice(old: Seq<ShadingNamesView>, mid: Seq<ShadingNamesView>, new: Seq<ShadingNamesView>, n: int)
    requires
        textures_uniquified(old, mid),
        textures_uniquified(mid, new),
        settled("Texture"@),
        0 <= n <= mid.len(),
    ensures
        forall|j: int| 0 <= j < n ==> (#[trigger] new[j]).texture == mid[j].texture,
    decreases n,
{
    if n > 0 {
        let i = n - 1;
        lemma_textures_twice(old, mid, new, i);
        if mid[i].texture is Some {
            let fallback = numbered("Texture"@, i);
            lemma_settled_numbered("Texture"@, i);
            assert(mid[i].texture is Some && mid[i].texture is Some);
            assert(is_first_free(
                mid[i].texture->0,
                resource_base(old[i].texture->0, fallback),
                texture_names_before(mid, i),
            ));
            lemma_first_free_settled(
                mid[i].texture->0,
                old[i].texture->0,
                fallback,
                texture_names_before(mid, i),
            );
            let t = mid[i].texture->0;
            assert(resource_base(t, fallback) == t);
            lemma_texture_names_agree(new, mid, i);
            assert(new[i].texture is Some);
            assert(is_first_free(new[i].texture->0, t, texture_names_before(new, i)));
            let k = choose|k: nat|
                #![trigger name_candidate(t, k)]
                1 <= k && new[i].texture->0 == name_candidate(t, k) && !texture_names_before(new, i).contains(
                    new[i].texture->0,
                ) && forall|j: nat|
                    1 <= j < k ==> texture_names_before(new, i).contains(#[trigger] name_candidate(t, j));
            if k > 1 {
                assert(texture_names_before(new, i).contains(name_candidate(t, 1)));
            }
        }
    }
}

proof fn lemma_settled_literal(name: Seq<char>)
    requires
        name.len() > 0,
        forall|i: int| 0 <= i < name.len() ==> crate::text::idtf_name_char(#[trigger] name[i]) == name[i],
        !crate::text::is_unicode_whitespace(name[0]),
    ensures
        settled(name),
{
    assert(spec_sanitize_idtf_name(name) =~= name);
}

/// Making the names of a scene unique a second time changes none of them:
/// what one pass hands out, a second pass keeps.
pub proof fn lemma_names_made_unique_twice(
    nodes: Seq<Seq<char>>,
    meshes: Seq<Seq<char>>,
    shadings: Seq<ShadingNamesView>,
    mid: SceneNames,
    new: SceneNames,
)
    requires
        names_made_unique(nodes, meshes, shadings, mid),
        names_made_unique(
            mid.node_names.deep_view(),
            mid.mesh_names.deep_view(),
            shading_views(mid.shadings@),
            new,
        ),
    ensures
        new.node_names.deep_view() == mid.node_names.deep_view(),
        new.mesh_names.deep_view() == mid.mesh_names.deep_view(),
        shading_views(new.shadings@) == shading_views(mid.shadings@),
{
    reveal_strlit("Node");
    reveal_strlit("Mesh");
    reveal_strlit("Shader");
    reveal_strlit("Material");
    reveal_strlit("Texture");
    lemma_settled_literal("Node"@);
    lemma_settled_literal("Mesh"@);
    lemma_settled_literal("Shader"@);
    lemma_settled_literal("Material"@);
    lemma_settled_literal("Texture"@);
    lemma_uniquify_twice(nodes, mid.node_names.deep_view(), new.node_names.deep_view(), "Node"@);
    lemma_uniquify_twice(meshes, mid.mesh_names.deep_view(), new.mesh_names.deep_view(), "Mesh"@);
    let mv = shading_views(mid.shadings@);
    let nv = shading_views(new.shadings@);
    lemma_uniquify_twice(shader_names(shadings), shader_names(mv), shader_names(nv), "Shader"@);
    lemma_uniquify_twice(material_names(shadings), material_names(mv), material_names(nv), "Material"@);
    lemma_textures_twice(shadings, mv, nv, mv.len() as int);
    assert(nv.len() == mv.len());
    assert forall|i: int| 0 <= i < nv.len() implies nv[i] == mv[i] by {
        assert(shader_names(nv)[i] == shader_names(mv)[i]);
        assert(material_names(nv)[i] == material_names(mv)[i]);
        assert(nv[i].texture == mv[i].texture);
    }
    assert(nv =~= mv);
}

} // verus!
