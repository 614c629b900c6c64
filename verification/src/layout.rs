//! The node structure of the exported scene: one group or model node per
//! FBX model (parents first), one body node per geometry of a model that
//! has several, and a node for each geometry that no model uses. Each mesh
//! part hangs on exactly one node, so that every assembly, component and
//! body stays identifiable after conversion.
use vstd::prelude::*;
use vstd::string::*;
use crate::error::ConversionError;
use crate::hierarchy::{ModelLink, ids_increasing, ordered_model_ids, spec_ordered_model_ids};
use crate::scene::{SceneConnections, SceneObjects, geometry_links_valid};
use crate::table::{IdTable, lemma_position_unique};
use crate::text::{concat, decimal, decimal_string, is_blank, spec_is_blank};

verus! {

/// A node of the exported scene.
#[derive(Clone, Debug)]
pub struct LayoutNode {
    pub name: String,
    /// The node it hangs under; `None` for a root.
    pub parent_index: Option<usize>,
    /// The model whose transform the node carries; `None` for the identity.
    pub model_id: Option<i64>,
    /// The mesh part shown at this node, if any.
    pub mesh_index: Option<usize>,
}

/// A mesh part of the exported scene: one geometry, seen from one node.
#[derive(Clone, Debug)]
pub struct LayoutPart {
    pub node_index: usize,
    pub geometry_id: i64,
    /// The model that places the geometry; `None` for a free geometry.
    pub model_id: Option<i64>,
    /// The name its resources are derived from.
    pub base_name: String,
}

/// The nodes and mesh parts of the exported scene.
#[derive(Clone, Debug)]
pub struct SceneLayout {
    pub nodes: Vec<LayoutNode>,
    pub parts: Vec<LayoutPart>,
}

/// The contents of a node.
pub struct NodeSpec {
    pub name: Seq<char>,
    pub parent_index: Option<int>,
    pub model_id: Option<i64>,
    pub mesh_index: Option<int>,
}

/// The contents of a part.
pub struct PartSpec {
    pub node_index: int,
    pub geometry_id: i64,
    pub model_id: Option<i64>,
    pub base_name: Seq<char>,
}

/// Nodes and parts placed so far.
pub struct LayoutState {
    pub nodes: Seq<NodeSpec>,
    pub parts: Seq<PartSpec>,
}

/// The view of an optional index.
pub open spec fn opt_index(i: Option<usize>) -> Option<int> {
    match i {
        Some(v) => Some(v as int),
        None => None,
    }
}

/// The contents of `n`.
pub open spec fn node_view(n: LayoutNode) -> NodeSpec {
    NodeSpec {
        name: n.name@,
        parent_index: opt_index(n.parent_index),
        model_id: n.model_id,
        mesh_index: opt_index(n.mesh_index),
    }
}

/// The contents of `p`.
pub open spec fn part_view(p: LayoutPart) -> PartSpec {
    PartSpec {
        node_index: p.node_index as int,
        geometry_id: p.geometry_id,
        model_id: p.model_id,
        base_name: p.base_name@,
    }
}

/// The model links of the scene, by increasing model id: each model with
/// the parent the connections give it.
pub open spec fn scene_links<N>(objects: SceneObjects<N>, conns: SceneConnections) -> Seq<ModelLink> {
    Seq::new(
        objects.models.ids@.len(),
        |q: int|
            ModelLink {
                id: objects.models.ids@[q],
                parent: conns.model_to_parent.lookup(objects.models.ids@[q]),
            },
    )
}

/// The ids of the geometries among the first `n` (by increasing id) that
/// model `model_id` uses.
pub open spec fn bound_geometry_ids<N>(objects: SceneObjects<N>, conns: SceneConnections, model_id: i64, n: int) -> Seq<i64>
    decreases n,
{
    if n <= 0 {
        seq![]
    } else {
        let prev = bound_geometry_ids(objects, conns, model_id, n - 1);
        let gid = objects.geometries.ids@[n - 1];
        if conns.geometry_to_models.has(gid) && conns.geometry_to_models.lookup(gid)->0@.contains(
            model_id,
        ) {
            prev.push(gid)
        } else {
            prev
        }
    }
}

/// The first node at or after `i` that carries model `id`.
pub open spec fn node_of_model(nodes: Seq<NodeSpec>, id: i64, i: int) -> Option<int>
    decreases nodes.len() - i,
{
    if i < 0 || i >= nodes.len() {
        None
    } else if nodes[i].model_id == Some(id) {
        Some(i)
    } else {
        node_of_model(nodes, id, i + 1)
    }
}

/// The name of the `ordinal`-th body node of a model: the geometry's name,
/// or the model's name followed by `_Body` and the one-based ordinal when
/// the geometry's name is blank.
pub open spec fn body_name(geometry_name: Seq<char>, model_name: Seq<char>, ordinal: int) -> Seq<char> {
    if spec_is_blank(geometry_name) {
        model_name + "_Body"@ + decimal((ordinal + 1) as nat)
    } else {
        geometry_name
    }
}

/// Placing one body node (and its part) for each of `gids[o..]`, under the
/// model node `model_node`.
pub open spec fn place_bodies<N>(objects: SceneObjects<N>, gids: Seq<i64>, o: int, model_id: i64, model_name: Seq<char>, model_node: int, st: LayoutState) -> LayoutState
    decreases gids.len() - o,
{
    if o < 0 || o >= gids.len() {
        st
    } else {
        let gid = gids[o];
        let name = body_name(objects.geometries.lookup(gid)->0.name@, model_name, o);
        let next = LayoutState {
            nodes: st.nodes.push(
                NodeSpec {
                    name,
                    parent_index: Some(model_node),
                    model_id: None,
                    mesh_index: Some(st.parts.len() as int),
                },
            ),
            parts: st.parts.push(
                PartSpec {
                    node_index: st.nodes.len() as int,
                    geometry_id: gid,
                    model_id: Some(model_id),
                    base_name: name,
                },
            ),
        };
        place_bodies(objects, gids, o + 1, model_id, model_name, model_node, next)
    }
}

/// Placing the node of model `id` under its parent's node: with the mesh
/// of its only geometry, or as a group over one body node per geometry.
pub open spec fn place_model<N>(objects: SceneObjects<N>, conns: SceneConnections, st: LayoutState, id: i64) -> LayoutState {
    let name = objects.models.lookup(id)->0.name@;
    let parent_index = match conns.model_to_parent.lookup(id) {
        Some(p) => node_of_model(st.nodes, p, 0),
        None => None,
    };
    let gids = bound_geometry_ids(objects, conns, id, objects.geometries.ids@.len() as int);
    let ni = st.nodes.len() as int;
    if gids.len() == 0 {
        LayoutState {
            nodes: st.nodes.push(NodeSpec { name, parent_index, model_id: Some(id), mesh_index: None }),
            parts: st.parts,
        }
    } else if gids.len() == 1 {
        LayoutState {
            nodes: st.nodes.push(
                NodeSpec {
                    name,
                    parent_index,
                    model_id: Some(id),
                    mesh_index: Some(st.parts.len() as int),
                },
            ),
            parts: st.parts.push(
                PartSpec { node_index: ni, geometry_id: gids[0], model_id: Some(id), base_name: name },
            ),
        }
    } else {
        place_bodies(
            objects,
            gids,
            0,
            id,
            name,
            ni,
            LayoutState {
                nodes: st.nodes.push(
                    NodeSpec { name, parent_index, model_id: Some(id), mesh_index: None },
                ),
                parts: st.parts,
            },
        )
    }
}

/// Placing the models `order[k..]`.
pub open spec fn place_models<N>(objects: SceneObjects<N>, conns: SceneConnections, order: Seq<i64>, k: int, st: LayoutState) -> LayoutState
    decreases order.len() - k,
{
    if k < 0 || k >= order.len() {
        st
    } else {
        place_models(objects, conns, order, k + 1, place_model(objects, conns, st, order[k]))
    }
}

/// Placing a root node (and its part) for each geometry from position `p`
/// on that no model uses; `ordinal` counts those placed before.
pub open spec fn place_free_geometries<N>(objects: SceneObjects<N>, conns: SceneConnections, p: int, ordinal: int, st: LayoutState) -> LayoutState
    decreases objects.geometries.ids@.len() - p,
{
    if p < 0 || p >= objects.geometries.ids@.len() {
        st
    } else {
        let gid = objects.geometries.ids@[p];
        if conns.geometry_to_models.has(gid) {
            place_free_geometries(objects, conns, p + 1, ordinal, st)
        } else {
            let gname = objects.geometries.values@[p].name@;
            let name = if spec_is_blank(gname) {
                "Body"@ + decimal((ordinal + 1) as nat)
            } else {
                gname
            };
            let next = LayoutState {
                nodes: st.nodes.push(
                    NodeSpec {
                        name,
                        parent_index: None,
                        model_id: None,
                        mesh_index: Some(st.parts.len() as int),
                    },
                ),
                parts: st.parts.push(
                    PartSpec {
                        node_index: st.nodes.len() as int,
                        geometry_id: gid,
                        model_id: None,
                        base_name: name,
                    },
                ),
            };
            place_free_geometries(objects, conns, p + 1, ordinal + 1, next)
        }
    }
}

/// The layout of the scene: the models in hierarchy order, then the free
/// geometries by id; `None` when the model hierarchy is cyclic.
pub open spec fn spec_scene_layout<N>(objects: SceneObjects<N>, conns: SceneConnections) -> Option<LayoutState> {
    match spec_ordered_model_ids(scene_links(objects, conns)) {
        None => None,
        Some(order) => Some(
            place_free_geometries(
                objects,
                conns,
                0,
                0,
                place_models(objects, conns, order, 0, LayoutState { nodes: seq![], parts: seq![] }),
            ),
        ),
    }
}

// ---------------------------------------------------------------- building the layout

/// The node list of a layout, as contents.
pub open spec fn nodes_view(nodes: Seq<LayoutNode>) -> Seq<NodeSpec> {
    nodes.map_values(|n: LayoutNode| node_view(n))
}

/// The part list of a layout, as contents.
pub open spec fn parts_view(parts: Seq<LayoutPart>) -> Seq<PartSpec> {
    parts.map_values(|p: LayoutPart| part_view(p))
}

fn list_contains(list: &Vec<i64>, x: i64) -> (r: bool)
    ensures
        r == list@.contains(x),
{
    let mut i: usize = 0;
    while i < list.len()
        invariant
            i <= list.len(),
            forall|j: int| 0 <= j < i ==> list@[j] != x,
        decreases list.len() - i,
    {
        if list[i] == x {
            return true;
        }
        i = i + 1;
    }
    false
}

fn find_model_node(nodes: &Vec<LayoutNode>, id: i64) -> (r: Option<usize>)
    ensures
        opt_index(r) == node_of_model(nodes_view(nodes@), id, 0),
        r matches Some(i) ==> i < nodes@.len(),
{
    let ghost view = nodes_view(nodes@);
    let mut i: usize = 0;
    while i < nodes.len()
        invariant
            i <= nodes.len(),
            view == nodes_view(nodes@),
            node_of_model(view, id, i as int) == node_of_model(view, id, 0),
        decreases nodes.len() - i,
    {
        assert(view[i as int] == node_view(nodes@[i as int]));
        if nodes[i].model_id == Some(id) {
            return Some(i);
        }
        i = i + 1;
    }
    None
}

fn bound_geometries<N>(objects: &SceneObjects<N>, conns: &SceneConnections, model_id: i64) -> (gids: Vec<i64>)
    requires
        objects.wf(),
        conns.geometry_to_models.wf(),
    ensures
        gids@ == bound_geometry_ids(*objects, *conns, model_id, objects.geometries.ids@.len() as int),
{
    let mut gids: Vec<i64> = Vec::new();
    let mut p: usize = 0;
    let n = objects.geometries.len();
    while p < n
        invariant
            objects.wf(),
            conns.geometry_to_models.wf(),
            n == objects.geometries.ids@.len(),
            p <= n,
            gids@ == bound_geometry_ids(*objects, *conns, model_id, p as int),
        decreases n - p,
    {
        let gid = objects.geometries.ids[p];
        match conns.geometry_to_models.get(gid) {
            Some(models) => {
                if list_contains(models, model_id) {
                    gids.push(gid);
                }
            },
            None => {},
        }
        p = p + 1;
    }
    gids
}

fn push_node(layout: &mut SceneLayout, node: LayoutNode)
    ensures
        final(layout).parts == old(layout).parts,
        nodes_view(final(layout).nodes@) == nodes_view(old(layout).nodes@).push(node_view(node)),
        final(layout).nodes@.len() == old(layout).nodes@.len() + 1,
{
    let ghost before = layout.nodes@;
    layout.nodes.push(node);
    assert(nodes_view(layout.nodes@) =~= nodes_view(before).push(node_view(node)));
}

fn push_part(layout: &mut SceneLayout, part: LayoutPart)
    ensures
        final(layout).nodes == old(layout).nodes,
        parts_view(final(layout).parts@) == parts_view(old(layout).parts@).push(part_view(part)),
        final(layout).parts@.len() == old(layout).parts@.len() + 1,
{
    let ghost before = layout.parts@;
    layout.parts.push(part);
    assert(parts_view(layout.parts@) =~= parts_view(before).push(part_view(part)));
}

/// The contents of a layout being built.
pub open spec fn state_of(layout: SceneLayout) -> LayoutState {
    LayoutState { nodes: nodes_view(layout.nodes@), parts: parts_view(layout.parts@) }
}

fn place_bodies_exec<N>(
    objects: &SceneObjects<N>,
    gids: &Vec<i64>,
    model_id: i64,
    model_name: &String,
    model_node: usize,
    layout: &mut SceneLayout,
)
    requires
        objects.wf(),
        forall|k: int| 0 <= k < gids@.len() ==> objects.geometries.has(#[trigger] gids@[k]),
    ensures
        state_of(*final(layout)) == place_bodies(
            *objects,
            gids@,
            0,
            model_id,
            model_name@,
            model_node as int,
            state_of(*old(layout)),
        ),
{
    let ghost start = state_of(*layout);
    let mut o: usize = 0;
    while o < gids.len()
        invariant
            objects.wf(),
            forall|k: int| 0 <= k < gids@.len() ==> objects.geometries.has(#[trigger] gids@[k]),
            o <= gids@.len(),
            place_bodies(*objects, gids@, o as int, model_id, model_name@, model_node as int, state_of(*layout))
                == place_bodies(*objects, gids@, 0, model_id, model_name@, model_node as int, start),
        decreases gids@.len() - o,
    {
        let gid = gids[o];
        assert(objects.geometries.has(gid));
        let geometry = match objects.geometries.get(gid) {
            Some(g) => g,
            None => {
                assert(false);
                return;
            },
        };
        let name = if is_blank(geometry.name.as_str()) {
            let prefix = concat(model_name.as_str(), "_Body");
            concat(prefix.as_str(), decimal_string((o + 1) as u64).as_str())
        } else {
            geometry.name.clone()
        };
        let node_index = layout.nodes.len();
        let mesh_index = layout.parts.len();
        proof {
            reveal_strlit("_Body");
        }
        push_node(
            layout,
            LayoutNode {
                name: name.clone(),
                parent_index: Some(model_node),
                model_id: None,
                mesh_index: Some(mesh_index),
            },
        );
        push_part(
            layout,
            LayoutPart { node_index, geometry_id: gid, model_id: Some(model_id), base_name: name },
        );
        o = o + 1;
    }
}

fn place_model_exec<N>(objects: &SceneObjects<N>, conns: &SceneConnections, layout: &mut SceneLayout, id: i64)
    requires
        objects.wf(),
        conns.geometry_to_models.wf(),
        conns.model_to_parent.wf(),
        objects.models.has(id),
    ensures
        state_of(*final(layout)) == place_model(*objects, *conns, state_of(*old(layout)), id),
{
    let model = match objects.models.get(id) {
        Some(m) => m,
        None => {
            assert(false);
            return;
        },
    };
    let parent_index = match conns.model_to_parent.get(id) {
        Some(p) => find_model_node(&layout.nodes, *p),
        None => None,
    };
    let gids = bound_geometries(objects, conns, id);
    proof {
        lemma_bound_geometries(*objects, *conns, id, objects.geometries.ids@.len() as int);
    }
    let node_index = layout.nodes.len();
    if gids.len() == 0 {
        push_node(
            layout,
            LayoutNode { name: model.name.clone(), parent_index, model_id: Some(id), mesh_index: None },
        );
    } else if gids.len() == 1 {
        let mesh_index = layout.parts.len();
        push_node(
            layout,
            LayoutNode {
                name: model.name.clone(),
                parent_index,
                model_id: Some(id),
                mesh_index: Some(mesh_index),
            },
        );
        push_part(
            layout,
            LayoutPart {
                node_index,
                geometry_id: gids[0],
                model_id: Some(id),
                base_name: model.name.clone(),
            },
        );
    } else {
        push_node(
            layout,
            LayoutNode { name: model.name.clone(), parent_index, model_id: Some(id), mesh_index: None },
        );
        place_bodies_exec(objects, &gids, id, &model.name, node_index, layout);
    }
}

proof fn lemma_bound_geometries<N>(objects: SceneObjects<N>, conns: SceneConnections, model_id: i64, n: int)
    requires
        0 <= n <= objects.geometries.ids@.len(),
        objects.wf(),
    ensures
        bound_geometry_ids(objects, conns, model_id, n).len() <= n,
        forall|k: int|
            0 <= k < bound_geometry_ids(objects, conns, model_id, n).len() ==> objects.geometries.has(
                #[trigger] bound_geometry_ids(objects, conns, model_id, n)[k],
            ),
    decreases n,
{
    if n > 0 {
        lemma_bound_geometries(objects, conns, model_id, n - 1);
        let prev = bound_geometry_ids(objects, conns, model_id, n - 1);
        let gid = objects.geometries.ids@[n - 1];
        assert(objects.geometries.has(gid));
        let cur = bound_geometry_ids(objects, conns, model_id, n);
        assert forall|k: int| 0 <= k < cur.len() implies objects.geometries.has(#[trigger] cur[k]) by {
            if k < prev.len() {
                assert(cur[k] == prev[k]);
            }
        }
    }
}


/// The models of the scene by increasing id, each with the parent that the
/// connections give it.
pub fn scene_model_links<N>(objects: &SceneObjects<N>, conns: &SceneConnections) -> (links: Vec<ModelLink>)
    requires
        objects.wf(),
        conns.model_to_parent.wf(),
    ensures
        links@ == scene_links(*objects, *conns),
        ids_increasing(links@),
{
    let mut links: Vec<ModelLink> = Vec::new();
    let mut q: usize = 0;
    let ghost all_links = scene_links(*objects, *conns);
    while q < objects.models.len()
        invariant
            objects.wf(),
            conns.model_to_parent.wf(),
            all_links == scene_links(*objects, *conns),
            q <= objects.models.ids@.len(),
            links@ == all_links.take(q as int),
        decreases objects.models.ids@.len() - q,
    {
        let id = objects.models.ids[q];
        let parent = match conns.model_to_parent.get(id) {
            Some(p) => Some(*p),
            None => None,
        };
        links.push(ModelLink { id, parent });
        assert(links@ =~= all_links.take(q + 1));
        q = q + 1;
    }
    assert(links@ =~= all_links);
    proof {
        assert(ids_increasing(links@)) by {
            assert forall|a: int, b: int| 0 <= a < b < links@.len() implies links@[a].id < links@[b].id by {
                assert(links@[a].id == objects.models.ids@[a]);
            }
        }
    }
    links
}

/// Lays out the nodes and mesh parts of the scene: a node for each model,
/// in an order where every parent comes first, holding the mesh of the
/// model's geometry when it has exactly one, or grouping one body node per
/// geometry (by increasing geometry id) when it has several; then a root
/// node for each geometry that no model uses. Fails when the model
/// hierarchy is cyclic.
pub fn scene_layout<N>(objects: &SceneObjects<N>, conns: &SceneConnections) -> (result: Result<SceneLayout, ConversionError>)
    requires
        objects.wf(),
        conns.geometry_to_models.wf(),
        conns.model_to_parent.wf(),
    ensures
        match spec_scene_layout(*objects, *conns) {
            Some(st) => result is Ok && state_of(result->Ok_0) == st,
            None => result is Err && crate::error::is_feature_error(
                result->Err_0,
                "model hierarchy is cyclic"@,
            ),
        },
        result matches Ok(l) ==> layout_wf(state_of(l)),
        result matches Ok(l) ==> (objects.geometries.ids@.len() > 0 && geometry_links_valid(
            *objects,
            *conns,
        ) ==> l.parts@.len() > 0),
{
    let links = scene_model_links(objects, conns);
    proof {
        crate::hierarchy::lemma_ordered_models_parents_first(links@);
    }
    let order = match ordered_model_ids(&links) {
        Ok(o) => o,
        Err(e) => return Err(e),
    };
    let mut layout = SceneLayout { nodes: Vec::new(), parts: Vec::new() };
    let ghost empty = LayoutState { nodes: seq![], parts: seq![] };
    proof {
        assert(state_of(layout) =~= empty) by {
            assert(nodes_view(layout.nodes@) =~= Seq::<NodeSpec>::empty());
            assert(parts_view(layout.parts@) =~= Seq::<PartSpec>::empty());
        }
    }
    let mut k: usize = 0;
    while k < order.len()
        invariant
            objects.wf(),
            conns.geometry_to_models.wf(),
            conns.model_to_parent.wf(),
            links@ == scene_links(*objects, *conns),
            k <= order@.len(),
            forall|j: int| 0 <= j < order@.len() ==> crate::hierarchy::has_model(links@, #[trigger] order@[j]),
            place_models(*objects, *conns, order@, k as int, state_of(layout)) == place_models(
                *objects,
                *conns,
                order@,
                0,
                empty,
            ),
        decreases order@.len() - k,
    {
        let id = order[k];
        proof {
            assert(crate::hierarchy::has_model(links@, id));
            let j = choose|j: int| 0 <= j < crate::hierarchy::link_ids(links@).len() && crate::hierarchy::link_ids(links@)[j] == id;
            assert(objects.models.ids@[j] == id);
            assert(objects.models.has(id));
        }
        place_model_exec(objects, conns, &mut layout, id);
        k = k + 1;
    }
    let ghost placed = state_of(layout);
    let mut p: usize = 0;
    let mut ordinal: usize = 0;
    let n = objects.geometries.len();
    while p < n
        invariant
            objects.wf(),
            conns.geometry_to_models.wf(),
            n == objects.geometries.ids@.len(),
            p <= n,
            ordinal <= p,
            place_free_geometries(*objects, *conns, p as int, ordinal as int, state_of(layout))
                == place_free_geometries(*objects, *conns, 0, 0, placed),
        decreases n - p,
    {
        let gid = objects.geometries.ids[p];
        if conns.geometry_to_models.find(gid).is_none() {
            let gname = &objects.geometries.values[p].name;
            let name = if is_blank(gname.as_str()) {
                concat("Body", decimal_string((ordinal + 1) as u64).as_str())
            } else {
                gname.clone()
            };
            let node_index = layout.nodes.len();
            let mesh_index = layout.parts.len();
            push_node(
                &mut layout,
                LayoutNode {
                    name: name.clone(),
                    parent_index: None,
                    model_id: None,
                    mesh_index: Some(mesh_index),
                },
            );
            push_part(
                &mut layout,
                LayoutPart { node_index, geometry_id: gid, model_id: None, base_name: name },
            );
            ordinal = ordinal + 1;
        }
        p = p + 1;
    }
    proof {
        lemma_scene_layout_well_formed(*objects, *conns);
        if objects.geometries.ids@.len() > 0 && geometry_links_valid(*objects, *conns) {
            lemma_scene_layout_has_parts(*objects, *conns);
        }
        assert(state_of(layout).parts.len() == layout.parts@.len());
    }
    Ok(layout)
}

// ---------------------------------------------------------------- laws

/// Every node hangs under an earlier node, and nodes and mesh parts point
/// at each other one to one.
pub open spec fn layout_wf(st: LayoutState) -> bool {
    &&& forall|i: int|
        0 <= i < st.nodes.len() ==> (#[trigger] st.nodes[i].parent_index matches Some(p) ==> 0 <= p < i)
    &&& forall|i: int|
        0 <= i < st.nodes.len() ==> (#[trigger] st.nodes[i].mesh_index matches Some(j) ==> 0 <= j
            < st.parts.len() && st.parts[j].node_index == i)
    &&& forall|j: int|
        0 <= j < st.parts.len() ==> 0 <= #[trigger] st.parts[j].node_index < st.nodes.len()
            && st.nodes[st.parts[j].node_index].mesh_index == Some(j)
}

proof fn lemma_node_of_model_bounds(nodes: Seq<NodeSpec>, id: i64, i: int)
    requires
        0 <= i,
    ensures
        node_of_model(nodes, id, i) matches Some(k) ==> i <= k < nodes.len(),
    decreases nodes.len() - i,
{
    if i < nodes.len() && nodes[i].model_id != Some(id) {
        lemma_node_of_model_bounds(nodes, id, i + 1);
    }
}

proof fn lemma_push_node_part_wf(st: LayoutState, node: NodeSpec, part_name: Seq<char>, gid: i64, model_id: Option<i64>)
    requires
        layout_wf(st),
        node.parent_index matches Some(p) ==> 0 <= p < st.nodes.len(),
        node.mesh_index == Some(st.parts.len() as int),
    ensures
        layout_wf(
            LayoutState {
                nodes: st.nodes.push(node),
                parts: st.parts.push(
                    PartSpec {
                        node_index: st.nodes.len() as int,
                        geometry_id: gid,
                        model_id,
                        base_name: part_name,
                    },
                ),
            },
        ),
{
    let ns = st.nodes.push(node);
    let ps = st.parts.push(
        PartSpec { node_index: st.nodes.len() as int, geometry_id: gid, model_id, base_name: part_name },
    );
    assert forall|i: int| 0 <= i < ns.len() implies (#[trigger] ns[i].mesh_index matches Some(j) ==> 0 <= j
        < ps.len() && ps[j].node_index == i) by {
        if i < st.nodes.len() {
            assert(ns[i] == st.nodes[i]);
        }
    }
    assert forall|j: int| 0 <= j < ps.len() implies 0 <= #[trigger] ps[j].node_index < ns.len()
        && ns[ps[j].node_index].mesh_index == Some(j) by {
        if j < st.parts.len() {
            assert(ps[j] == st.parts[j]);
        }
    }
    assert forall|i: int| 0 <= i < ns.len() implies (#[trigger] ns[i].parent_index matches Some(p) ==> 0 <= p < i) by {
        if i < st.nodes.len() {
            assert(ns[i] == st.nodes[i]);
        }
    }
}

proof fn lemma_push_node_wf(st: LayoutState, node: NodeSpec)
    requires
        layout_wf(st),
        node.parent_index matches Some(p) ==> 0 <= p < st.nodes.len(),
        node.mesh_index is None,
    ensures
        layout_wf(LayoutState { nodes: st.nodes.push(node), parts: st.parts }),
{
    let ns = st.nodes.push(node);
    assert forall|i: int| 0 <= i < ns.len() implies (#[trigger] ns[i].mesh_index matches Some(j) ==> 0 <= j
        < st.parts.len() && st.parts[j].node_index == i) by {
        if i < st.nodes.len() {
            assert(ns[i] == st.nodes[i]);
        }
    }
    assert forall|j: int| 0 <= j < st.parts.len() implies 0 <= #[trigger] st.parts[j].node_index < ns.len()
        && ns[st.parts[j].node_index].mesh_index == Some(j) by {
        assert(ns[st.parts[j].node_index] == st.nodes[st.parts[j].node_index]);
    }
    assert forall|i: int| 0 <= i < ns.len() implies (#[trigger] ns[i].parent_index matches Some(p) ==> 0 <= p < i) by {
        if i < st.nodes.len() {
            assert(ns[i] == st.nodes[i]);
        }
    }
}

proof fn lemma_place_bodies_wf<N>(objects: SceneObjects<N>, gids: Seq<i64>, o: int, model_id: i64, model_name: Seq<char>, model_node: int, st: LayoutState)
    requires
        layout_wf(st),
        0 <= model_node < st.nodes.len(),
    ensures
        layout_wf(place_bodies(objects, gids, o, model_id, model_name, model_node, st)),
    decreases gids.len() - o,
{
    if 0 <= o < gids.len() {
        let gid = gids[o];
        let name = body_name(objects.geometries.lookup(gid)->0.name@, model_name, o);
        let node = NodeSpec {
            name,
            parent_index: Some(model_node),
            model_id: None,
            mesh_index: Some(st.parts.len() as int),
        };
        lemma_push_node_part_wf(st, node, name, gid, Some(model_id));
        let next = LayoutState {
            nodes: st.nodes.push(node),
            parts: st.parts.push(
                PartSpec {
                    node_index: st.nodes.len() as int,
                    geometry_id: gid,
                    model_id: Some(model_id),
                    base_name: name,
                },
            ),
        };
        lemma_place_bodies_wf(objects, gids, o + 1, model_id, model_name, model_node, next);
    }
}

proof fn lemma_place_model_wf<N>(objects: SceneObjects<N>, conns: SceneConnections, st: LayoutState, id: i64)
    requires
        layout_wf(st),
    ensures
        layout_wf(place_model(objects, conns, st, id)),
{
    let name = objects.models.lookup(id)->0.name@;
    let parent_index = match conns.model_to_parent.lookup(id) {
        Some(p) => node_of_model(st.nodes, p, 0),
        None => None,
    };
    if let Some(p) = conns.model_to_parent.lookup(id) {
        lemma_node_of_model_bounds(st.nodes, p, 0);
    }
    let gids = bound_geometry_ids(objects, conns, id, objects.geometries.ids@.len() as int);
    let ni = st.nodes.len() as int;
    if gids.len() == 0 {
        lemma_push_node_wf(st, NodeSpec { name, parent_index, model_id: Some(id), mesh_index: None });
    } else if gids.len() == 1 {
        lemma_push_node_part_wf(
            st,
            NodeSpec { name, parent_index, model_id: Some(id), mesh_index: Some(st.parts.len() as int) },
            name,
            gids[0],
            Some(id),
        );
    } else {
        let group = NodeSpec { name, parent_index, model_id: Some(id), mesh_index: None };
        lemma_push_node_wf(st, group);
        lemma_place_bodies_wf(
            objects,
            gids,
            0,
            id,
            name,
            ni,
            LayoutState { nodes: st.nodes.push(group), parts: st.parts },
        );
    }
}

proof fn lemma_place_models_wf<N>(objects: SceneObjects<N>, conns: SceneConnections, order: Seq<i64>, k: int, st: LayoutState)
    requires
        layout_wf(st),
    ensures
        layout_wf(place_models(objects, conns, order, k, st)),
    decreases order.len() - k,
{
    if 0 <= k < order.len() {
        lemma_place_model_wf(objects, conns, st, order[k]);
        lemma_place_models_wf(objects, conns, order, k + 1, place_model(objects, conns, st, order[k]));
    }
}

proof fn lemma_place_free_wf<N>(objects: SceneObjects<N>, conns: SceneConnections, p: int, ordinal: int, st: LayoutState)
    requires
        layout_wf(st),
    ensures
        layout_wf(place_free_geometries(objects, conns, p, ordinal, st)),
    decreases objects.geometries.ids@.len() - p,
{
    if 0 <= p < objects.geometries.ids@.len() {
        let gid = objects.geometries.ids@[p];
        if conns.geometry_to_models.has(gid) {
            lemma_place_free_wf(objects, conns, p + 1, ordinal, st);
        } else {
            let gname = objects.geometries.values@[p].name@;
            let name = if spec_is_blank(gname) {
                "Body"@ + decimal((ordinal + 1) as nat)
            } else {
                gname
            };
            let node = NodeSpec {
                name,
                parent_index: None,
                model_id: None,
                mesh_index: Some(st.parts.len() as int),
            };
            lemma_push_node_part_wf(st, node, name, gid, None);
            let next = LayoutState {
                nodes: st.nodes.push(node),
                parts: st.parts.push(
                    PartSpec {
                        node_index: st.nodes.len() as int,
                        geometry_id: gid,
                        model_id: None,
                        base_name: name,
                    },
                ),
            };
            lemma_place_free_wf(objects, conns, p + 1, ordinal + 1, next);
        }
    }
}

/// In the scene layout every node hangs under an earlier node (so the node
/// list is a forest listed parents first), every mesh part hangs on exactly
/// one node, and that node shows exactly that part.
pub proof fn lemma_scene_layout_well_formed<N>(objects: SceneObjects<N>, conns: SceneConnections)
    ensures
        spec_scene_layout(objects, conns) matches Some(st) ==> layout_wf(st),
{
    if let Some(order) = spec_ordered_model_ids(scene_links(objects, conns)) {
        let empty = LayoutState { nodes: seq![], parts: seq![] };
        lemma_place_models_wf(objects, conns, order, 0, empty);
        lemma_place_free_wf(objects, conns, 0, 0, place_models(objects, conns, order, 0, empty));
    }
}

proof fn lemma_place_bodies_grows<N>(objects: SceneObjects<N>, gids: Seq<i64>, o: int, model_id: i64, model_name: Seq<char>, model_node: int, st: LayoutState)
    requires
        0 <= o <= gids.len(),
    ensures
        place_bodies(objects, gids, o, model_id, model_name, model_node, st).parts.len() == st.parts.len()
            + (gids.len() - o),
    decreases gids.len() - o,
{
    if o < gids.len() {
        let gid = gids[o];
        let name = body_name(objects.geometries.lookup(gid)->0.name@, model_name, o);
        let next = LayoutState {
            nodes: st.nodes.push(
                NodeSpec {
                    name,
                    parent_index: Some(model_node),
                    model_id: None,
                    mesh_index: Some(st.parts.len() as int),
                },
            ),
            parts: st.parts.push(
                PartSpec {
                    node_index: st.nodes.len() as int,
                    geometry_id: gid,
                    model_id: Some(model_id),
                    base_name: name,
                },
            ),
        };
        lemma_place_bodies_grows(objects, gids, o + 1, model_id, model_name, model_node, next);
    }
}

proof fn lemma_bound_geometry_ids_grow<N>(objects: SceneObjects<N>, conns: SceneConnections, model_id: i64, n: int)
    requires
        1 <= n,
        n <= objects.geometries.ids@.len(),
    ensures
        bound_geometry_ids(objects, conns, model_id, n).len() >= bound_geometry_ids(
            objects,
            conns,
            model_id,
            1,
        ).len(),
    decreases n,
{
    if n > 1 {
        lemma_bound_geometry_ids_grow(objects, conns, model_id, n - 1);
    }
}

/// Placing a model adds one part for each geometry it uses, and never
/// takes one away.
proof fn lemma_place_model_grows<N>(objects: SceneObjects<N>, conns: SceneConnections, st: LayoutState, id: i64)
    ensures
        place_model(objects, conns, st, id).parts.len() == st.parts.len() + bound_geometry_ids(
            objects,
            conns,
            id,
            objects.geometries.ids@.len() as int,
        ).len(),
{
    let name = objects.models.lookup(id)->0.name@;
    let parent_index = match conns.model_to_parent.lookup(id) {
        Some(p) => node_of_model(st.nodes, p, 0),
        None => None,
    };
    let gids = bound_geometry_ids(objects, conns, id, objects.geometries.ids@.len() as int);
    if gids.len() > 1 {
        lemma_place_bodies_grows(
            objects,
            gids,
            0,
            id,
            name,
            st.nodes.len() as int,
            LayoutState {
                nodes: st.nodes.push(NodeSpec { name, parent_index, model_id: Some(id), mesh_index: None }),
                parts: st.parts,
            },
        );
    }
}

proof fn lemma_place_models_grows<N>(objects: SceneObjects<N>, conns: SceneConnections, order: Seq<i64>, k: int, st: LayoutState, m: i64)
    requires
        0 <= k,
    ensures
        place_models(objects, conns, order, k, st).parts.len() >= st.parts.len(),
        order.subrange(k, order.len() as int).contains(m) && k <= order.len() ==> place_models(
            objects,
            conns,
            order,
            k,
            st,
        ).parts.len() >= st.parts.len() + bound_geometry_ids(
            objects,
            conns,
            m,
            objects.geometries.ids@.len() as int,
        ).len(),
    decreases order.len() - k,
{
    if k < order.len() {
        let next = place_model(objects, conns, st, order[k]);
        lemma_place_model_grows(objects, conns, st, order[k]);
        lemma_place_models_grows(objects, conns, order, k + 1, next, m);
        if order.subrange(k, order.len() as int).contains(m) && order[k] != m {
            let w = choose|w: int| 0 <= w < order.len() - k && order.subrange(k, order.len() as int)[w] == m;
            assert(w > 0);
            assert(order.subrange(k + 1, order.len() as int)[w - 1] == m);
        }
    }
}

proof fn lemma_place_free_grows<N>(objects: SceneObjects<N>, conns: SceneConnections, p: int, ordinal: int, st: LayoutState)
    ensures
        place_free_geometries(objects, conns, p, ordinal, st).parts.len() >= st.parts.len(),
    decreases objects.geometries.ids@.len() - p,
{
    if 0 <= p < objects.geometries.ids@.len() {
        let gid = objects.geometries.ids@[p];
        if conns.geometry_to_models.has(gid) {
            lemma_place_free_grows(objects, conns, p + 1, ordinal, st);
        } else {
            let gname = objects.geometries.values@[p].name@;
            let name = if spec_is_blank(gname) {
                "Body"@ + decimal((ordinal + 1) as nat)
            } else {
                gname
            };
            let next = LayoutState {
                nodes: st.nodes.push(
                    NodeSpec {
                        name,
                        parent_index: None,
                        model_id: None,
                        mesh_index: Some(st.parts.len() as int),
                    },
                ),
                parts: st.parts.push(
                    PartSpec {
                        node_index: st.nodes.len() as int,
                        geometry_id: gid,
                        model_id: None,
                        base_name: name,
                    },
                ),
            };
            lemma_place_free_grows(objects, conns, p + 1, ordinal + 1, next);
        }
    }
}

/// A scene with a mesh geometry, whose connections attach geometries only
/// to models of the scene, is laid out with at least one mesh part: every
/// geometry is shown, by the models that use it or as a root body.
pub proof fn lemma_scene_layout_has_parts<N>(objects: SceneObjects<N>, conns: SceneConnections)
    requires
        objects.wf(),
        objects.geometries.ids@.len() > 0,
        geometry_links_valid(objects, conns),
    ensures
        spec_scene_layout(objects, conns) matches Some(st) ==> st.parts.len() > 0,
{
    let links = scene_links(objects, conns);
    if let Some(order) = spec_ordered_model_ids(links) {
        let empty = LayoutState { nodes: seq![], parts: seq![] };
        let placed = place_models(objects, conns, order, 0, empty);
        let g0 = objects.geometries.ids@[0];
        lemma_place_models_grows(objects, conns, order, 0, empty, 0);
        if conns.geometry_to_models.has(g0) {
            let list = conns.geometry_to_models.lookup(g0)->0@;
            let m = list[0];
            assert(objects.models.has(m));
            crate::hierarchy::lemma_ordered_models_parents_first(links);
            let q = choose|q: int| 0 <= q < objects.models.ids@.len() && objects.models.ids@[q] == m;
            assert(links[q].id == m);
            assert(order.contains(m));
            assert(order.subrange(0, order.len() as int) =~= order);
            lemma_place_models_grows(objects, conns, order, 0, empty, m);
            assert(list.len() > 0);
            assert(list[0] == m);
            assert(list.contains(m));
            assert(bound_geometry_ids(objects, conns, m, 0).len() == 0);
            assert(bound_geometry_ids(objects, conns, m, 1).len() == 1);
            lemma_bound_geometry_ids_grow(objects, conns, m, objects.geometries.ids@.len() as int);
            lemma_place_free_grows(objects, conns, 0, 0, placed);
        } else {
            lemma_place_free_grows(objects, conns, 1, 1, LayoutState {
                nodes: placed.nodes.push(
                    NodeSpec {
                        name: if spec_is_blank(objects.geometries.values@[0].name@) {
                            "Body"@ + decimal(1nat)
                        } else {
                            objects.geometries.values@[0].name@
                        },
                        parent_index: None,
                        model_id: None,
                        mesh_index: Some(placed.parts.len() as int),
                    },
                ),
                parts: placed.parts.push(
                    PartSpec {
                        node_index: placed.nodes.len() as int,
                        geometry_id: g0,
                        model_id: None,
                        base_name: if spec_is_blank(objects.geometries.values@[0].name@) {
                            "Body"@ + decimal(1nat)
                        } else {
                            objects.geometries.values@[0].name@
                        },
                    },
                ),
            });
        }
    }
}

/// Part `j` of `st` sits with the model it was placed for: its node carries
/// that model, or hangs directly under the node that does.
pub open spec fn part_sits_with_model(st: LayoutState, j: int) -> bool {
    match st.parts[j].model_id {
        None => true,
        Some(m) => {
            let n = st.parts[j].node_index;
            &&& 0 <= n < st.nodes.len()
            &&& (st.nodes[n].model_id == Some(m) || match st.nodes[n].parent_index {
                Some(p) => 0 <= p < st.nodes.len() && st.nodes[p].model_id == Some(m),
                None => false,
            })
        },
    }
}

/// Every part of `st` sits with the model it was placed for.
pub open spec fn parts_sit_with_models(st: LayoutState) -> bool {
    forall|j: int| 0 <= j < st.parts.len() ==> #[trigger] part_sits_with_model(st, j)
}

proof fn lemma_sits_after_push(st: LayoutState, next: LayoutState)
    requires
        parts_sit_with_models(st),
        next.nodes.len() >= st.nodes.len(),
        next.parts.len() >= st.parts.len(),
        forall|i: int| 0 <= i < st.nodes.len() ==> #[trigger] next.nodes[i] == st.nodes[i],
        forall|j: int| 0 <= j < st.parts.len() ==> #[trigger] next.parts[j] == st.parts[j],
        forall|j: int| st.parts.len() <= j < next.parts.len() ==> #[trigger] part_sits_with_model(next, j),
    ensures
        parts_sit_with_models(next),
{
    assert forall|j: int| 0 <= j < next.parts.len() implies #[trigger] part_sits_with_model(next, j) by {
        if j < st.parts.len() {
            assert(part_sits_with_model(st, j));
            assert(next.parts[j] == st.parts[j]);
            if let Some(m) = st.parts[j].model_id {
                let n = st.parts[j].node_index;
                assert(next.nodes[n] == st.nodes[n]);
                if let Some(p) = st.nodes[n].parent_index {
                    if 0 <= p < st.nodes.len() {
                        assert(next.nodes[p] == st.nodes[p]);
                    }
                }
            }
        }
    }
}

proof fn lemma_place_bodies_sit<N>(objects: SceneObjects<N>, gids: Seq<i64>, o: int, model_id: i64, model_name: Seq<char>, model_node: int, st: LayoutState)
    requires
        parts_sit_with_models(st),
        0 <= model_node < st.nodes.len(),
        st.nodes[model_node].model_id == Some(model_id),
    ensures
        parts_sit_with_models(place_bodies(objects, gids, o, model_id, model_name, model_node, st)),
    decreases gids.len() - o,
{
    if 0 <= o < gids.len() {
        let gid = gids[o];
        let name = body_name(objects.geometries.lookup(gid)->0.name@, model_name, o);
        let next = LayoutState {
            nodes: st.nodes.push(
                NodeSpec {
                    name,
                    parent_index: Some(model_node),
                    model_id: None,
                    mesh_index: Some(st.parts.len() as int),
                },
            ),
            parts: st.parts.push(
                PartSpec {
                    node_index: st.nodes.len() as int,
                    geometry_id: gid,
                    model_id: Some(model_id),
                    base_name: name,
                },
            ),
        };
        assert(place_bodies(objects, gids, o, model_id, model_name, model_node, st) == place_bodies(
            objects,
            gids,
            o + 1,
            model_id,
            model_name,
            model_node,
            next,
        ));
        assert(next.nodes[model_node] == st.nodes[model_node]);
        assert(part_sits_with_model(next, st.parts.len() as int));
        lemma_sits_after_push(st, next);
        lemma_place_bodies_sit(objects, gids, o + 1, model_id, model_name, model_node, next);
    }
}

proof fn lemma_place_model_sit<N>(objects: SceneObjects<N>, conns: SceneConnections, st: LayoutState, id: i64)
    requires
        parts_sit_with_models(st),
    ensures
        parts_sit_with_models(place_model(objects, conns, st, id)),
{
    let next = place_model(objects, conns, st, id);
    let gids = bound_geometry_ids(objects, conns, id, objects.geometries.ids@.len() as int);
    let ni = st.nodes.len() as int;
    if gids.len() <= 1 {
        assert(next.nodes[ni].model_id == Some(id));
        if gids.len() == 1 {
            assert(part_sits_with_model(next, st.parts.len() as int));
        }
        lemma_sits_after_push(st, next);
    } else {
        let name = objects.models.lookup(id)->0.name@;
        let parent_index = match conns.model_to_parent.lookup(id) {
            Some(p) => node_of_model(st.nodes, p, 0),
            None => None,
        };
        let grouped = LayoutState {
            nodes: st.nodes.push(NodeSpec { name, parent_index, model_id: Some(id), mesh_index: None }),
            parts: st.parts,
        };
        lemma_sits_after_push(st, grouped);
        lemma_place_bodies_sit(objects, gids, 0, id, name, ni, grouped);
    }
}

proof fn lemma_place_models_sit<N>(objects: SceneObjects<N>, conns: SceneConnections, order: Seq<i64>, k: int, st: LayoutState)
    requires
        parts_sit_with_models(st),
    ensures
        parts_sit_with_models(place_models(objects, conns, order, k, st)),
    decreases order.len() - k,
{
    if 0 <= k < order.len() {
        lemma_place_model_sit(objects, conns, st, order[k]);
        lemma_place_models_sit(objects, conns, order, k + 1, place_model(objects, conns, st, order[k]));
    }
}

proof fn lemma_place_free_sit<N>(objects: SceneObjects<N>, conns: SceneConnections, p: int, ordinal: int, st: LayoutState)
    requires
        parts_sit_with_models(st),
    ensures
        parts_sit_with_models(place_free_geometries(objects, conns, p, ordinal, st)),
    decreases objects.geometries.ids@.len() - p,
{
    if 0 <= p < objects.geometries.ids@.len() {
        let gid = objects.geometries.ids@[p];
        if conns.geometry_to_models.has(gid) {
            lemma_place_free_sit(objects, conns, p + 1, ordinal, st);
        } else {
            let gname = objects.geometries.values@[p].name@;
            let name = if spec_is_blank(gname) {
                "Body"@ + decimal((ordinal + 1) as nat)
            } else {
                gname
            };
            let next = LayoutState {
                nodes: st.nodes.push(
                    NodeSpec { name, parent_index: None, model_id: None, mesh_index: Some(st.parts.len() as int) },
                ),
                parts: st.parts.push(
                    PartSpec { node_index: st.nodes.len() as int, geometry_id: gid, model_id: None, base_name: name },
                ),
            };
            assert(part_sits_with_model(next, st.parts.len() as int));
            lemma_sits_after_push(st, next);
            lemma_place_free_sit(objects, conns, p + 1, ordinal + 1, next);
        }
    }
}

/// Every mesh part placed for a model shows at that model's node (a model
/// with one geometry) or at a body node hung directly under it (one body per
/// geometry of a model with several); the parts of geometries that no model
/// uses belong to no model.
pub proof fn lemma_parts_sit_with_their_models<N>(objects: SceneObjects<N>, conns: SceneConnections)
    ensures
        spec_scene_layout(objects, conns) matches Some(st) ==> parts_sit_with_models(st),
{
    if let Some(order) = spec_ordered_model_ids(scene_links(objects, conns)) {
        let empty = LayoutState { nodes: seq![], parts: seq![] };
        lemma_place_models_sit(objects, conns, order, 0, empty);
        lemma_place_free_sit(objects, conns, 0, 0, place_models(objects, conns, order, 0, empty));
    }
}

} // verus!
