//! Putting an extracted scene together and readying it for writing: the
//! layout gives the nodes, their parents and meshes and the node of each
//! part; the rendered transforms, meshes and shadings (numbers already
//! turned into text) fill them in; then the staged texture files and unique
//! resource names are taken in, the lists still agreeing.
use vstd::prelude::*;
use crate::idtf::{idtf_scene_wf, shading_offset, IdtfNode, IdtfPart, IdtfScene, IdtfShading};
use crate::layout::{layout_wf, state_of, SceneLayout};
use crate::names::{
    ensure_unique_scene_resource_names, names_made_unique, shading_views, SceneNames, ShadingNames,
};
use crate::part::SceneTriangle;

verus! {

/// A node's transform, rendered: its four matrix rows of four numbers.
pub struct RenderedTransform {
    pub first_row: String,
    pub second_row: String,
    pub third_row: String,
    pub fourth_row: String,
}

/// The diffuse texture of a shading: the name of its resource and the file
/// name of its image.
pub struct ShadingTexture {
    pub texture_name: String,
    pub file_name: String,
}

/// One shading of a part: its resource names, its rendered colors and
/// numbers, and its texture.
pub struct RenderedShading {
    pub shader_name: String,
    pub material_name: String,
    pub ambient: String,
    pub diffuse: String,
    pub specular: String,
    pub emissive: String,
    pub reflectivity: String,
    pub opacity: String,
    pub texture: Option<ShadingTexture>,
}

/// One mesh part: its resource name, rendered positions, normals and
/// texture coordinates, its triangles, and its shadings.
pub struct RenderedPart {
    pub mesh_name: String,
    pub positions: Vec<String>,
    pub normals: Vec<String>,
    pub texture_coords: Vec<String>,
    pub triangles: Vec<SceneTriangle>,
    pub shadings: Vec<RenderedShading>,
}

/// The four rows of a transform, in order.
pub open spec fn transform_rows_of(t: RenderedTransform) -> Seq<String> {
    seq![t.first_row, t.second_row, t.third_row, t.fourth_row]
}

/// The resource names of a shading.
pub open spec fn shading_names_of(r: RenderedShading) -> ShadingNames {
    ShadingNames {
        shader_name: r.shader_name,
        material_name: r.material_name,
        texture_name: match r.texture {
            Some(t) => Some(t.texture_name),
            None => None,
        },
    }
}

/// The document settings of a shading.
pub open spec fn idtf_shading_of(r: RenderedShading) -> IdtfShading {
    IdtfShading {
        ambient: r.ambient,
        diffuse: r.diffuse,
        specular: r.specular,
        emissive: r.emissive,
        reflectivity: r.reflectivity,
        opacity: r.opacity,
        texture_path: match r.texture {
            Some(t) => Some(t.file_name),
            None => None,
        },
    }
}

/// The shadings of `parts[..p]`, part after part.
pub open spec fn shadings_before(parts: Seq<RenderedPart>, p: int) -> Seq<RenderedShading>
    decreases p,
{
    if p <= 0 {
        seq![]
    } else {
        shadings_before(parts, p - 1) + parts[p - 1].shadings@
    }
}

/// Part `r` of the document, shown at node `node_index`.
pub open spec fn part_matches(out: IdtfPart, r: RenderedPart, node_index: usize) -> bool {
    &&& out.node_index == node_index
    &&& out.positions == r.positions
    &&& out.normals == r.normals
    &&& out.texture_coords == r.texture_coords
    &&& out.triangles == r.triangles
    &&& out.shading_count == r.shadings@.len()
}

proof fn lemma_offset_counts(out: Seq<IdtfPart>, parts: Seq<RenderedPart>, p: int)
    requires
        0 <= p <= out.len(),
        out.len() == parts.len(),
        forall|j: int| 0 <= j < out.len() ==> #[trigger] out[j].shading_count == parts[j].shadings@.len(),
    ensures
        shading_offset(out, p) == shadings_before(parts, p).len(),
    decreases p,
{
    if p > 0 {
        lemma_offset_counts(out, parts, p - 1);
        assert(out[p - 1].shading_count == parts[p - 1].shadings@.len());
    }
}

fn take_shadings(
    shadings: Vec<RenderedShading>,
    names: &mut Vec<ShadingNames>,
    settings: &mut Vec<IdtfShading>,
)
    ensures
        final(names)@ == old(names)@ + shadings@.map_values(|r: RenderedShading| shading_names_of(r)),
        final(settings)@ == old(settings)@ + shadings@.map_values(
            |r: RenderedShading| idtf_shading_of(r),
        ),
{
    let ghost all = shadings@;
    let ghost names0 = names@;
    let ghost settings0 = settings@;
    let mut left = shadings;
    let mut k: usize = 0;
    let total = left.len();
    while left.len() > 0
        invariant
            total == all.len(),
            k + left@.len() == total,
            left@ == all.subrange(k as int, total as int),
            names@ == names0 + all.subrange(0, k as int).map_values(
                |r: RenderedShading| shading_names_of(r),
            ),
            settings@ == settings0 + all.subrange(0, k as int).map_values(
                |r: RenderedShading| idtf_shading_of(r),
            ),
        decreases left@.len(),
    {
        let r = left.remove(0);
        let RenderedShading {
            shader_name,
            material_name,
            ambient,
            diffuse,
            specular,
            emissive,
            reflectivity,
            opacity,
            texture,
        } = r;
        let (texture_name, texture_path) = match texture {
            Some(t) => (Some(t.texture_name), Some(t.file_name)),
            None => (None, None),
        };
        names.push(ShadingNames { shader_name, material_name, texture_name });
        settings.push(
            IdtfShading {
                ambient,
                diffuse,
                specular,
                emissive,
                reflectivity,
                opacity,
                texture_path,
            },
        );
        proof {
            assert(all.subrange(0, k + 1) =~= all.subrange(0, k as int).push(r));
        }
        k = k + 1;
        assert(left@ =~= all.subrange(k as int, total as int));
        assert(names@ =~= names0 + all.subrange(0, k as int).map_values(
            |r: RenderedShading| shading_names_of(r),
        ));
        assert(settings@ =~= settings0 + all.subrange(0, k as int).map_values(
            |r: RenderedShading| idtf_shading_of(r),
        ));
    }
    assert(all.subrange(0, total as int) =~= all);
}

/// The scene of `layout`: node `i` has the layout node's name, parent and
/// mesh and the rows of `transforms[i]`; part `j` is `parts[j]` at the
/// layout part's node; the shadings are those of the parts, part after
/// part. The view and the light are not placed yet (empty translations).
/// The lists of the result agree with each other, every node comes after
/// its parent, and the nodes that show a mesh and the parts correspond one
/// to one.
pub fn assemble_scene(
    layout: &SceneLayout,
    transforms: Vec<RenderedTransform>,
    parts: Vec<RenderedPart>,
) -> (s: IdtfScene)
    requires
        layout_wf(state_of(*layout)),
        transforms@.len() == layout.nodes@.len(),
        parts@.len() == layout.parts@.len(),
    ensures
        idtf_scene_wf(s),
        s.nodes@.len() == layout.nodes@.len(),
        forall|i: int|
            0 <= i < s.nodes@.len() ==> {
                &&& (#[trigger] s.nodes@[i]).parent_index == layout.nodes@[i].parent_index
                &&& s.nodes@[i].mesh_index == layout.nodes@[i].mesh_index
                &&& s.nodes@[i].transform_rows@ == transform_rows_of(transforms@[i])
                &&& s.names.node_names@[i] == layout.nodes@[i].name
            },
        s.parts@.len() == parts@.len(),
        forall|j: int|
            0 <= j < s.parts@.len() ==> {
                &&& part_matches(#[trigger] s.parts@[j], parts@[j], layout.parts@[j].node_index)
                &&& s.names.mesh_names@[j] == parts@[j].mesh_name
            },
        s.shadings@ == shadings_before(parts@, parts@.len() as int).map_values(
            |r: RenderedShading| idtf_shading_of(r),
        ),
        s.names.shadings@ == shadings_before(parts@, parts@.len() as int).map_values(
            |r: RenderedShading| shading_names_of(r),
        ),
        s.view_translation@ == Seq::<char>::empty(),
        s.light_translation@ == Seq::<char>::empty(),
        forall|i: int|
            0 <= i < s.nodes@.len() ==> (#[trigger] s.nodes@[i].parent_index matches Some(p) ==> p < i),
        forall|i: int|
            0 <= i < s.nodes@.len() ==> (#[trigger] s.nodes@[i].mesh_index matches Some(k) ==> s.parts@[k as int].node_index
                == i),
        forall|j: int|
            0 <= j < s.parts@.len() ==> s.nodes@[#[trigger] s.parts@[j].node_index as int].mesh_index == Some(
                j as usize,
            ),
{
    let ghost st = state_of(*layout);
    let ghost all_transforms = transforms@;
    let ghost all_parts = parts@;

    let mut node_names: Vec<String> = Vec::new();
    let mut nodes: Vec<IdtfNode> = Vec::new();
    let mut transforms_left = transforms;
    let mut i: usize = 0;
    while i < layout.nodes.len()
        invariant
            i <= layout.nodes@.len(),
            all_transforms.len() == layout.nodes@.len(),
            transforms_left@ == all_transforms.subrange(i as int, all_transforms.len() as int),
            nodes@.len() == i,
            node_names@.len() == i,
            forall|a: int|
                0 <= a < i ==> {
                    &&& (#[trigger] nodes@[a]).parent_index == layout.nodes@[a].parent_index
                    &&& nodes@[a].mesh_index == layout.nodes@[a].mesh_index
                    &&& nodes@[a].transform_rows@ == transform_rows_of(all_transforms[a])
                    &&& node_names@[a] == layout.nodes@[a].name
                },
        decreases layout.nodes@.len() - i,
    {
        let t = transforms_left.remove(0);
        let RenderedTransform { first_row, second_row, third_row, fourth_row } = t;
        let node = &layout.nodes[i];
        node_names.push(node.name.clone());
        let rows = vec![first_row, second_row, third_row, fourth_row];
        assert(rows@ =~= transform_rows_of(t));
        nodes.push(IdtfNode { parent_index: node.parent_index, transform_rows: rows, mesh_index: node.mesh_index });
        i = i + 1;
        assert(transforms_left@ =~= all_transforms.subrange(i as int, all_transforms.len() as int));
    }

    let mut mesh_names: Vec<String> = Vec::new();
    let mut out_parts: Vec<IdtfPart> = Vec::new();
    let mut shading_names: Vec<ShadingNames> = Vec::new();
    let mut shadings: Vec<IdtfShading> = Vec::new();
    let mut parts_left = parts;
    let mut j: usize = 0;
    while j < layout.parts.len()
        invariant
            j <= layout.parts@.len(),
            all_parts.len() == layout.parts@.len(),
            parts_left@ == all_parts.subrange(j as int, all_parts.len() as int),
            out_parts@.len() == j,
            mesh_names@.len() == j,
            forall|b: int|
                0 <= b < j ==> {
                    &&& part_matches(#[trigger] out_parts@[b], all_parts[b], layout.parts@[b].node_index)
                    &&& mesh_names@[b] == all_parts[b].mesh_name
                },
            shadings@ == shadings_before(all_parts, j as int).map_values(
                |r: RenderedShading| idtf_shading_of(r),
            ),
            shading_names@ == shadings_before(all_parts, j as int).map_values(
                |r: RenderedShading| shading_names_of(r),
            ),
        decreases layout.parts@.len() - j,
    {
        let piece = parts_left.remove(0);
        let ghost piece_shadings = piece.shadings@;
        let RenderedPart { mesh_name, positions, normals, texture_coords, triangles, shadings: own } = piece;
        let count = own.len();
        let ghost names_before = shading_names@;
        let ghost settings_before = shadings@;
        take_shadings(own, &mut shading_names, &mut shadings);
        proof {
            let before = shadings_before(all_parts, j as int);
            assert(shadings_before(all_parts, j + 1) == before + piece_shadings);
            assert((before + piece_shadings).map_values(|r: RenderedShading| idtf_shading_of(r))
                =~= before.map_values(|r: RenderedShading| idtf_shading_of(r))
                + piece_shadings.map_values(|r: RenderedShading| idtf_shading_of(r)));
            assert((before + piece_shadings).map_values(|r: RenderedShading| shading_names_of(r))
                =~= before.map_values(|r: RenderedShading| shading_names_of(r))
                + piece_shadings.map_values(|r: RenderedShading| shading_names_of(r)));
        }
        out_parts.push(
            IdtfPart {
                node_index: layout.parts[j].node_index,
                positions,
                normals,
                texture_coords,
                triangles,
                shading_count: count,
            },
        );
        mesh_names.push(mesh_name);
        j = j + 1;
        assert(parts_left@ =~= all_parts.subrange(j as int, all_parts.len() as int));
    }

    let s = IdtfScene {
        names: SceneNames { node_names, mesh_names, shadings: shading_names },
        nodes,
        parts: out_parts,
        shadings,
        view_translation: String::new(),
        light_translation: String::new(),
    };
    proof {
        lemma_offset_counts(s.parts@, all_parts, s.parts@.len() as int);
        assert forall|a: int| 0 <= a < s.nodes@.len() implies (#[trigger] s.nodes@[a].parent_index
            matches Some(p) ==> p < a) by {
            assert(st.nodes[a].parent_index == crate::layout::opt_index(layout.nodes@[a].parent_index));
        }
        assert forall|a: int| 0 <= a < s.nodes@.len() implies (#[trigger] s.nodes@[a].mesh_index
            matches Some(m) ==> m < s.parts@.len() && s.parts@[m as int].node_index == a) by {
            assert(st.nodes[a].mesh_index == crate::layout::opt_index(layout.nodes@[a].mesh_index));
            if let Some(m) = s.nodes@[a].mesh_index {
                assert(st.parts[m as int].node_index == layout.parts@[m as int].node_index);
            }
        }
        assert forall|b: int| 0 <= b < s.parts@.len() implies #[trigger] s.parts@[b].node_index
            < s.nodes@.len() && s.nodes@[s.parts@[b].node_index as int].mesh_index == Some(b as usize) by {
            assert(st.parts[b].node_index == layout.parts@[b].node_index);
            let a = layout.parts@[b].node_index as int;
            assert(st.nodes[a].mesh_index == crate::layout::opt_index(layout.nodes@[a].mesh_index));
        }
        assert forall|a: int| 0 <= a < s.nodes@.len() implies #[trigger] s.nodes@[a].transform_rows@.len()
            == 4 by {
            assert(s.nodes@[a].transform_rows@ == transform_rows_of(all_transforms[a]));
        }
        assert forall|k: int| 0 <= k < s.shadings@.len() implies (#[trigger] s.shadings@[k].texture_path
            is Some <==> s.names.shadings@[k].texture_name is Some) by {
            let r = shadings_before(all_parts, all_parts.len() as int)[k];
            assert(s.shadings@[k] == idtf_shading_of(r));
            assert(s.names.shadings@[k] == shading_names_of(r));
        }
    }
    s
}

/// Everything of a scene but its shadings' texture paths.
pub open spec fn same_but_texture_paths(old: IdtfScene, new: IdtfScene) -> bool {
    &&& new.names == old.names
    &&& new.nodes == old.nodes
    &&& new.parts == old.parts
    &&& new.view_translation == old.view_translation
    &&& new.light_translation == old.light_translation
    &&& new.shadings@.len() == old.shadings@.len()
}

/// Shading `k` after the staged file names `staged` are taken: a shading
/// with a texture takes `staged[k]` where one is given; every other
/// shading stays as it is.
pub open spec fn staged_shading(old: IdtfShading, staged: Seq<Option<String>>, k: int) -> IdtfShading {
    if old.texture_path is Some && 0 <= k < staged.len() && staged[k] is Some {
        IdtfShading { texture_path: staged[k], ..old }
    } else {
        old
    }
}

/// Points each textured shading at the file its image was staged under
/// (`staged[k]` for shading `k`, where given). Shadings without a texture
/// keep none, so the scene's lists still agree.
pub fn use_staged_textures(s: &mut IdtfScene, staged: &Vec<Option<String>>)
    requires
        idtf_scene_wf(*old(s)),
    ensures
        idtf_scene_wf(*final(s)),
        same_but_texture_paths(*old(s), *final(s)),
        forall|k: int|
            0 <= k < final(s).shadings@.len() ==> #[trigger] final(s).shadings@[k] == staged_shading(
                old(s).shadings@[k],
                staged@,
                k,
            ),
{
    let ghost before = *s;
    let mut k: usize = 0;
    while k < s.shadings.len()
        invariant
            k <= s.shadings@.len(),
            same_but_texture_paths(before, *s),
            forall|q: int| 0 <= q < k ==> #[trigger] s.shadings@[q] == staged_shading(before.shadings@[q], staged@, q),
            forall|q: int| k <= q < s.shadings@.len() ==> #[trigger] s.shadings@[q] == before.shadings@[q],
        decreases s.shadings@.len() - k,
    {
        if s.shadings[k].texture_path.is_some() && k < staged.len() {
            if let Some(name) = &staged[k] {
                let current = &s.shadings[k];
                let updated = IdtfShading {
                    ambient: current.ambient.clone(),
                    diffuse: current.diffuse.clone(),
                    specular: current.specular.clone(),
                    emissive: current.emissive.clone(),
                    reflectivity: current.reflectivity.clone(),
                    opacity: current.opacity.clone(),
                    texture_path: Some(name.clone()),
                };
                s.shadings.set(k, updated);
            }
        }
        k = k + 1;
    }
    proof {
        assert forall|q: int| 0 <= q < s.shadings@.len() implies (#[trigger] s.shadings@[q].texture_path
            is Some <==> s.names.shadings@[q].texture_name is Some) by {
            assert(s.shadings@[q] == staged_shading(before.shadings@[q], staged@, q));
        }
    }
}

/// Makes the resource names of a scene unique (blank names numbered after
/// their kind, taken ones suffixed); nodes, parts and shadings stay, so the
/// scene's lists still agree.
pub fn make_scene_names_unique(s: &mut IdtfScene)
    requires
        idtf_scene_wf(*old(s)),
        old(s).names.node_names@.len() + 2 < usize::MAX,
        old(s).names.mesh_names@.len() + 2 < usize::MAX,
        old(s).names.shadings@.len() + 2 < usize::MAX,
    ensures
        idtf_scene_wf(*final(s)),
        names_made_unique(
            old(s).names.node_names.deep_view(),
            old(s).names.mesh_names.deep_view(),
            shading_views(old(s).names.shadings@),
            final(s).names,
        ),
        final(s).nodes == old(s).nodes,
        final(s).parts == old(s).parts,
        final(s).shadings == old(s).shadings,
        final(s).view_translation == old(s).view_translation,
        final(s).light_translation == old(s).light_translation,
{
    let ghost before = *s;
    ensure_unique_scene_resource_names(&mut s.names);
    proof {
        let old_views = shading_views(before.names.shadings@);
        let new_views = shading_views(s.names.shadings@);
        assert(s.names.node_names.deep_view().len() == before.names.node_names.deep_view().len());
        assert(s.names.mesh_names.deep_view().len() == before.names.mesh_names.deep_view().len());
        assert(new_views.len() == old_views.len());
        assert forall|q: int| 0 <= q < s.shadings@.len() implies (#[trigger] s.shadings@[q].texture_path
            is Some <==> s.names.shadings@[q].texture_name is Some) by {
            assert(new_views[q].texture is Some <==> old_views[q].texture is Some);
            assert(before.shadings@[q].texture_path is Some <==> before.names.shadings@[q].texture_name is Some);
        }
    }
}

} // verus!
