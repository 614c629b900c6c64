//! The objects of an FBX scene and the connections between them: which
//! geometry belongs to which model, which model hangs under which, and
//! which materials, textures and videos a model uses.
use vstd::prelude::*;
use vstd::string::*;
use vstd::pervasive::VecAdditionalExecFns;
use crate::error::{ConversionError, is_feature_error};
use crate::fbx::{
    FbxNode, find_node, nth, property_at, property_i64, property_string, spec_find_node,
    spec_property_i64, spec_property_string,
};
use crate::objects::{
    Geometry, Model, ParsedMaterial, ParsedTexture, ParsedVideo, geometry_view,
    opt_view, parse_geometry, parse_material, parse_model, parse_texture, parse_video,
    spec_external_file_path, spec_geometry, spec_material_properties, spec_model_properties,
    spec_object_id, spec_object_name,
};
use crate::table::IdTable;
use crate::text::str_equal;

verus! {

/// Every object of the scene that the converter reads, keyed by object id.
#[derive(Debug)]
pub struct SceneObjects<N> {
    pub geometries: IdTable<Geometry<N>>,
    pub models: IdTable<Model<N>>,
    pub materials: IdTable<ParsedMaterial<N>>,
    pub textures: IdTable<ParsedTexture>,
    pub videos: IdTable<ParsedVideo>,
}

impl<N> SceneObjects<N> {
    /// Every table is well formed.
    pub open spec fn wf(&self) -> bool {
        &&& self.geometries.wf()
        &&& self.models.wf()
        &&& self.materials.wf()
        &&& self.textures.wf()
        &&& self.videos.wf()
    }
}

/// For each object id, the position of the child of `Objects` that defined
/// it last.
pub struct Definitions {
    pub geometries: Map<i64, int>,
    pub models: Map<i64, int>,
    pub materials: Map<i64, int>,
    pub textures: Map<i64, int>,
    pub videos: Map<i64, int>,
}

/// No object defined yet.
pub open spec fn no_definitions() -> Definitions {
    Definitions {
        geometries: Map::empty(),
        models: Map::empty(),
        materials: Map::empty(),
        textures: Map::empty(),
        videos: Map::empty(),
    }
}

/// Reading the children `children[i..]` of the `Objects` node on top of
/// `acc`: each `Geometry` (mesh), `Model`, `Material`, `Texture` and `Video`
/// child defines the object with its id, and the first child that cannot
/// be read stops everything with its error.
pub open spec fn definitions_from<N>(children: Seq<FbxNode<N>>, i: int, acc: Definitions) -> Result<Definitions, Seq<char>>
    decreases children.len() - i,
{
    if i < 0 || i >= children.len() {
        Ok(acc)
    } else {
        let c = children[i];
        if c.name@ == "Geometry"@ {
            match spec_geometry(c) {
                Err(m) => Err(m),
                Ok(None) => definitions_from(children, i + 1, acc),
                Ok(Some(g)) => definitions_from(
                    children,
                    i + 1,
                    Definitions { geometries: acc.geometries.insert(g.id, i), ..acc },
                ),
            }
        } else if c.name@ == "Model"@ {
            match spec_object_id(c) {
                None => Err("Model nodes must have an integer object id"@),
                Some(id) => match spec_model_properties(c) {
                    Err(m) => Err(m),
                    Ok(_) => definitions_from(
                        children,
                        i + 1,
                        Definitions { models: acc.models.insert(id, i), ..acc },
                    ),
                },
            }
        } else if c.name@ == "Material"@ {
            match spec_object_id(c) {
                None => Err("Material nodes must have an integer object id"@),
                Some(id) => match spec_material_properties(c) {
                    Err(m) => Err(m),
                    Ok(_) => definitions_from(
                        children,
                        i + 1,
                        Definitions { materials: acc.materials.insert(id, i), ..acc },
                    ),
                },
            }
        } else if c.name@ == "Texture"@ {
            match spec_object_id(c) {
                None => Err("Texture nodes must have an integer object id"@),
                Some(id) => definitions_from(
                    children,
                    i + 1,
                    Definitions { textures: acc.textures.insert(id, i), ..acc },
                ),
            }
        } else if c.name@ == "Video"@ {
            match spec_object_id(c) {
                None => Err("Video nodes must have an integer object id"@),
                Some(id) => definitions_from(
                    children,
                    i + 1,
                    Definitions { videos: acc.videos.insert(id, i), ..acc },
                ),
            }
        } else {
            definitions_from(children, i + 1, acc)
        }
    }
}

/// The tables of `objects` hold exactly the objects that `defs` places,
/// each as read from its defining child of `children`.
pub open spec fn objects_match<N>(objects: SceneObjects<N>, children: Seq<FbxNode<N>>, defs: Definitions) -> bool {
    &&& objects.wf()
    &&& forall|id: i64| #[trigger] objects.geometries.has(id) <==> defs.geometries.contains_key(id)
    &&& forall|id: i64|
        #[trigger] objects.geometries.has(id) ==> 0 <= defs.geometries[id] < children.len()
            && (spec_geometry(children[defs.geometries[id]]) matches Ok(Some(g)) && geometry_view(
            objects.geometries.lookup(id)->0,
        ) == g)
    &&& forall|id: i64| #[trigger] objects.models.has(id) <==> defs.models.contains_key(id)
    &&& forall|id: i64|
        #[trigger] objects.models.has(id) ==> 0 <= defs.models[id] < children.len() && ({
            let c = children[defs.models[id]];
            let m = objects.models.lookup(id)->0;
            &&& m.id == id
            &&& m.name@ == spec_object_name(c, "Model"@)
            &&& spec_model_properties(c) == Ok::<_, Seq<char>>(m.properties)
        })
    &&& forall|id: i64| #[trigger] objects.materials.has(id) <==> defs.materials.contains_key(id)
    &&& forall|id: i64|
        #[trigger] objects.materials.has(id) ==> 0 <= defs.materials[id] < children.len() && ({
            let c = children[defs.materials[id]];
            let m = objects.materials.lookup(id)->0;
            &&& m.id == id
            &&& m.name@ == spec_object_name(c, "Material"@)
            &&& spec_material_properties(c) == Ok::<_, Seq<char>>(m.properties)
        })
    &&& forall|id: i64| #[trigger] objects.textures.has(id) <==> defs.textures.contains_key(id)
    &&& forall|id: i64|
        #[trigger] objects.textures.has(id) ==> 0 <= defs.textures[id] < children.len() && ({
            let c = children[defs.textures[id]];
            let t = objects.textures.lookup(id)->0;
            &&& t.id == id
            &&& t.name@ == spec_object_name(c, "Texture"@)
            &&& opt_view(t.file_path_hint) == spec_external_file_path(c)
        })
    &&& forall|id: i64| #[trigger] objects.videos.has(id) <==> defs.videos.contains_key(id)
    &&& forall|id: i64|
        #[trigger] objects.videos.has(id) ==> 0 <= defs.videos[id] < children.len() && ({
            let c = children[defs.videos[id]];
            let v = objects.videos.lookup(id)->0;
            &&& v.id == id
            &&& opt_view(v.file_path_hint) == spec_external_file_path(c)
        })
}

/// Reads every object that the children of an `Objects` node define; a
/// later object with the same id replaces an earlier one.
pub fn collect_scene_objects<N: Copy>(children: &Vec<FbxNode<N>>) -> (result: Result<SceneObjects<N>, ConversionError>)
    ensures
        match definitions_from(children@, 0, no_definitions()) {
            Ok(defs) => result is Ok && objects_match(result->Ok_0, children@, defs),
            Err(m) => result is Err && is_feature_error(result->Err_0, m),
        },
{
    let mut objects = SceneObjects {
        geometries: IdTable::new(),
        models: IdTable::new(),
        materials: IdTable::new(),
        textures: IdTable::new(),
        videos: IdTable::new(),
    };
    let ghost mut defs = no_definitions();
    let mut i: usize = 0;
    while i < children.len()
        invariant
            i <= children.len(),
            definitions_from(children@, i as int, defs) == definitions_from(
                children@,
                0,
                no_definitions(),
            ),
            objects_match(objects, children@, defs),
            forall|id: i64| #[trigger] defs.geometries.contains_key(id) ==> defs.geometries[id] < i,
            forall|id: i64| #[trigger] defs.models.contains_key(id) ==> defs.models[id] < i,
            forall|id: i64| #[trigger] defs.materials.contains_key(id) ==> defs.materials[id] < i,
            forall|id: i64| #[trigger] defs.textures.contains_key(id) ==> defs.textures[id] < i,
            forall|id: i64| #[trigger] defs.videos.contains_key(id) ==> defs.videos[id] < i,
        decreases children.len() - i,
    {
        let child = &children[i];
        let name = child.name.as_str();
        if str_equal(name, "Geometry") {
            match parse_geometry(child) {
                Err(e) => return Err(e),
                Ok(None) => {},
                Ok(Some(g)) => {
                    let id = g.id;
                    objects.geometries.insert(id, g);
                    proof {
                        defs = Definitions { geometries: defs.geometries.insert(id, i as int), ..defs };
                    }
                },
            }
        } else if str_equal(name, "Model") {
            match parse_model(child) {
                Err(e) => return Err(e),
                Ok(None) => {},
                Ok(Some(m)) => {
                    let id = m.id;
                    objects.models.insert(id, m);
                    proof {
                        defs = Definitions { models: defs.models.insert(id, i as int), ..defs };
                    }
                },
            }
        } else if str_equal(name, "Material") {
            match parse_material(child) {
                Err(e) => return Err(e),
                Ok(None) => {},
                Ok(Some(m)) => {
                    let id = m.id;
                    objects.materials.insert(id, m);
                    proof {
                        defs = Definitions { materials: defs.materials.insert(id, i as int), ..defs };
                    }
                },
            }
        } else if str_equal(name, "Texture") {
            match parse_texture(child) {
                Err(e) => return Err(e),
                Ok(None) => {},
                Ok(Some(t)) => {
                    let id = t.id;
                    objects.textures.insert(id, t);
                    proof {
                        defs = Definitions { textures: defs.textures.insert(id, i as int), ..defs };
                    }
                },
            }
        } else if str_equal(name, "Video") {
            match parse_video(child) {
                Err(e) => return Err(e),
                Ok(None) => {},
                Ok(Some(v)) => {
                    let id = v.id;
                    objects.videos.insert(id, v);
                    proof {
                        defs = Definitions { videos: defs.videos.insert(id, i as int), ..defs };
                    }
                },
            }
        }
        i = i + 1;
    }
    Ok(objects)
}

// ---------------------------------------------------------------- connections

/// A texture bound to a material, through the material property it feeds
/// when the connection names one.
#[derive(Clone, Debug)]
pub struct TextureBinding {
    pub texture_id: i64,
    pub property_name: Option<String>,
}

/// The contents of a texture binding.
pub struct BindingSpec {
    pub texture_id: i64,
    pub property_name: Option<Seq<char>>,
}

/// The contents of `b`.
pub open spec fn binding_view(b: TextureBinding) -> BindingSpec {
    BindingSpec { texture_id: b.texture_id, property_name: opt_view(b.property_name) }
}

/// The connections of a scene, each list kept in connection order except
/// the models of a geometry, which are sorted and without repeats.
#[derive(Debug)]
pub struct SceneConnections {
    /// Geometry id to the ids of the models that use it.
    pub geometry_to_models: IdTable<Vec<i64>>,
    /// Model id to the id of the model it hangs under.
    pub model_to_parent: IdTable<i64>,
    /// Model id to the ids of its materials, one per material slot.
    pub model_materials: IdTable<Vec<i64>>,
    /// Material id to the textures bound to it.
    pub material_textures: IdTable<Vec<TextureBinding>>,
    /// Texture id to the id of the video (image file) behind it.
    pub texture_videos: IdTable<i64>,
}

/// The contents of the connections.
pub struct ConnectionsSpec {
    pub geometry_to_models: Map<i64, Set<i64>>,
    pub model_to_parent: Map<i64, i64>,
    pub model_materials: Map<i64, Seq<i64>>,
    pub material_textures: Map<i64, Seq<BindingSpec>>,
    pub texture_videos: Map<i64, i64>,
}

/// No connection yet.
pub open spec fn no_connections() -> ConnectionsSpec {
    ConnectionsSpec {
        geometry_to_models: Map::empty(),
        model_to_parent: Map::empty(),
        model_materials: Map::empty(),
        material_textures: Map::empty(),
        texture_videos: Map::empty(),
    }
}

/// `m` with `v` appended to the list under `k`.
pub open spec fn map_push<V>(m: Map<i64, Seq<V>>, k: i64, v: V) -> Map<i64, Seq<V>> {
    m.insert(
        k,
        if m.contains_key(k) {
            m[k].push(v)
        } else {
            seq![v]
        },
    )
}

/// `m` with `v` added to the set under `k`.
pub open spec fn map_add(m: Map<i64, Set<i64>>, k: i64, v: i64) -> Map<i64, Set<i64>> {
    m.insert(
        k,
        if m.contains_key(k) {
            m[k].insert(v)
        } else {
            set![v]
        },
    )
}

/// What one `C` record between object `child` and object `parent` adds.
/// An object-to-object (`OO`) record attaches a geometry to a model, a model
/// under a model, a material to a model, a texture to a material, or a
/// video to a texture (either way round); an object-to-property (`OP`)
/// record attaches a texture to a material property.
pub open spec fn apply_connection<N>(
    objects: SceneObjects<N>,
    acc: ConnectionsSpec,
    kind: Seq<char>,
    child: i64,
    parent: i64,
    property: Option<Seq<char>>,
) -> ConnectionsSpec {
    if kind == "OO"@ {
        if objects.geometries.has(child) && objects.models.has(parent) {
            ConnectionsSpec {
                geometry_to_models: map_add(acc.geometry_to_models, child, parent),
                ..acc
            }
        } else if objects.models.has(child) && objects.models.has(parent) {
            ConnectionsSpec { model_to_parent: acc.model_to_parent.insert(child, parent), ..acc }
        } else if objects.materials.has(child) && objects.models.has(parent) {
            ConnectionsSpec { model_materials: map_push(acc.model_materials, parent, child), ..acc }
        } else if objects.textures.has(child) && objects.materials.has(parent) {
            ConnectionsSpec {
                material_textures: map_push(
                    acc.material_textures,
                    parent,
                    BindingSpec { texture_id: child, property_name: None },
                ),
                ..acc
            }
        } else if objects.videos.has(child) && objects.textures.has(parent) {
            ConnectionsSpec { texture_videos: acc.texture_videos.insert(parent, child), ..acc }
        } else if objects.textures.has(child) && objects.videos.has(parent) {
            ConnectionsSpec { texture_videos: acc.texture_videos.insert(child, parent), ..acc }
        } else {
            acc
        }
    } else if kind == "OP"@ {
        if objects.textures.has(child) && objects.materials.has(parent) {
            ConnectionsSpec {
                material_textures: map_push(
                    acc.material_textures,
                    parent,
                    BindingSpec { texture_id: child, property_name: property },
                ),
                ..acc
            }
        } else {
            acc
        }
    } else {
        acc
    }
}

/// The connections after reading the records `records[i..]` of the
/// `Connections` node on top of `acc`; a `C` record without a textual kind
/// or without two integer ids is skipped.
pub open spec fn connections_from<N>(objects: SceneObjects<N>, records: Seq<FbxNode<N>>, i: int, acc: ConnectionsSpec) -> ConnectionsSpec
    decreases records.len() - i,
{
    if i < 0 || i >= records.len() {
        acc
    } else {
        let r = records[i];
        let next = if r.name@ != "C"@ {
            acc
        } else {
            match spec_property_string(nth(r.properties@, 0)) {
                None => acc,
                Some(kind) => match spec_property_i64(nth(r.properties@, 1)) {
                    None => acc,
                    Some(child) => match spec_property_i64(nth(r.properties@, 2)) {
                        None => acc,
                        Some(parent) => apply_connection(
                            objects,
                            acc,
                            kind,
                            child,
                            parent,
                            spec_property_string(nth(r.properties@, 3)),
                        ),
                    },
                },
            }
        };
        connections_from(objects, records, i + 1, next)
    }
}

/// The connections that a `Connections` node (if there is one) holds.
pub open spec fn spec_connections<N>(objects: SceneObjects<N>, connections: Option<FbxNode<N>>) -> ConnectionsSpec {
    match connections {
        Some(node) => connections_from(objects, node.children@, 0, no_connections()),
        None => no_connections(),
    }
}

/// The tables of `c` hold what `s` describes.
pub open spec fn connections_match(c: SceneConnections, s: ConnectionsSpec) -> bool {
    &&& c.geometry_to_models.wf()
    &&& c.model_to_parent.wf()
    &&& c.model_materials.wf()
    &&& c.material_textures.wf()
    &&& c.texture_videos.wf()
    &&& forall|k: i64| #[trigger] c.geometry_to_models.has(k) <==> s.geometry_to_models.contains_key(k)
    &&& forall|k: i64|
        #[trigger] c.geometry_to_models.has(k) ==> crate::table::strictly_increasing(
            c.geometry_to_models.lookup(k)->0@,
        ) && c.geometry_to_models.lookup(k)->0@.to_set() == s.geometry_to_models[k]
    &&& forall|k: i64| #[trigger] c.model_to_parent.has(k) <==> s.model_to_parent.contains_key(k)
    &&& forall|k: i64| #[trigger] c.model_to_parent.has(k) ==> c.model_to_parent.lookup(k)->0 == s.model_to_parent[k]
    &&& forall|k: i64| #[trigger] c.model_materials.has(k) <==> s.model_materials.contains_key(k)
    &&& forall|k: i64| #[trigger] c.model_materials.has(k) ==> c.model_materials.lookup(k)->0@ == s.model_materials[k]
    &&& forall|k: i64| #[trigger] c.material_textures.has(k) <==> s.material_textures.contains_key(k)
    &&& forall|k: i64|
        #[trigger] c.material_textures.has(k) ==> c.material_textures.lookup(k)->0@.map_values(
            |b: TextureBinding| binding_view(b),
        ) == s.material_textures[k]
    &&& forall|k: i64| #[trigger] c.texture_videos.has(k) <==> s.texture_videos.contains_key(k)
    &&& forall|k: i64| #[trigger] c.texture_videos.has(k) ==> c.texture_videos.lookup(k)->0 == s.texture_videos[k]
}

fn text_of(s: Option<&str>) -> (t: Option<String>)
    ensures
        opt_view(t) == match s {
            Some(v) => Some(v@),
            None => None::<Seq<char>>,
        },
{
    match s {
        Some(v) => Some(crate::text::string_from(v)),
        None => None,
    }
}

/// Reads the `C` records of the `Connections` node (when there is one)
/// between the objects of the scene.
pub fn parse_connections<N>(connections: Option<&FbxNode<N>>, objects: &SceneObjects<N>) -> (result: SceneConnections)
    requires
        objects.wf(),
    ensures
        connections_match(
            result,
            spec_connections(*objects, crate::fbx::deref_option(connections)),
        ),
{
    let mut parsed = SceneConnections {
        geometry_to_models: IdTable::new(),
        model_to_parent: IdTable::new(),
        model_materials: IdTable::new(),
        material_textures: IdTable::new(),
        texture_videos: IdTable::new(),
    };
    let node = match connections {
        Some(n) => n,
        None => return parsed,
    };
    let records = &node.children;
    let ghost mut acc = no_connections();
    let mut i: usize = 0;
    while i < records.len()
        invariant
            objects.wf(),
            i <= records.len(),
            connections_from(*objects, records@, i as int, acc) == connections_from(
                *objects,
                records@,
                0,
                no_connections(),
            ),
            connections_match(parsed, acc),
        decreases records.len() - i,
    {
        let record = &records[i];
        if str_equal(record.name.as_str(), "C") {
            let kind = property_string(property_at(&record.properties, 0));
            let child = property_i64(property_at(&record.properties, 1));
            let parent = property_i64(property_at(&record.properties, 2));
            if let (Some(kind), Some(child), Some(parent)) = (kind, child, parent) {
                if str_equal(kind, "OO") {
                    if objects.geometries.find(child).is_some() && objects.models.find(parent).is_some() {
                        let ghost before = parsed.geometry_to_models;
                        parsed.geometry_to_models.add_sorted(child, parent);
                        proof {
                            acc = ConnectionsSpec {
                                geometry_to_models: map_add(acc.geometry_to_models, child, parent),
                                ..acc
                            };
                            assert forall|k: i64| #[trigger] parsed.geometry_to_models.has(k) implies parsed.geometry_to_models.lookup(k)->0@.to_set() == acc.geometry_to_models[k] by {
                                if k != child {
                                    assert(before.has(k));
                                }
                            }
                        }
                    } else if objects.models.find(child).is_some() && objects.models.find(parent).is_some() {
                        parsed.model_to_parent.insert(child, parent);
                        proof {
                            acc = ConnectionsSpec { model_to_parent: acc.model_to_parent.insert(child, parent), ..acc };
                        }
                    } else if objects.materials.find(child).is_some() && objects.models.find(parent).is_some() {
                        let ghost before = parsed.model_materials;
                        parsed.model_materials.push_to(parent, child);
                        proof {
                            acc = ConnectionsSpec { model_materials: map_push(acc.model_materials, parent, child), ..acc };
                            assert forall|k: i64| #[trigger] parsed.model_materials.has(k) implies parsed.model_materials.lookup(k)->0@ == acc.model_materials[k] by {
                                if k != parent {
                                    assert(before.has(k));
                                }
                            }
                        }
                    } else if objects.textures.find(child).is_some() && objects.materials.find(parent).is_some() {
                        let ghost before = parsed.material_textures;
                        let binding = TextureBinding { texture_id: child, property_name: None };
                        parsed.material_textures.push_to(parent, binding);
                        proof {
                            acc = ConnectionsSpec {
                                material_textures: map_push(acc.material_textures, parent, binding_view(binding)),
                                ..acc
                            };
                            assert forall|k: i64| #[trigger] parsed.material_textures.has(k) implies parsed.material_textures.lookup(k)->0@.map_values(|b: TextureBinding| binding_view(b)) == acc.material_textures[k] by {
                                if k != parent {
                                    assert(before.has(k));
                                } else {
                                    if before.has(parent) {
                                        assert(parsed.material_textures.lookup(k)->0@.map_values(|b: TextureBinding| binding_view(b)) =~= before.lookup(k)->0@.map_values(|b: TextureBinding| binding_view(b)).push(binding_view(binding)));
                                    } else {
                                        assert(parsed.material_textures.lookup(k)->0@.map_values(|b: TextureBinding| binding_view(b)) =~= seq![binding_view(binding)]);
                                    }
                                }
                            }
                        }
                    } else if objects.videos.find(child).is_some() && objects.textures.find(parent).is_some() {
                        parsed.texture_videos.insert(parent, child);
                        proof {
                            acc = ConnectionsSpec { texture_videos: acc.texture_videos.insert(parent, child), ..acc };
                        }
                    } else if objects.textures.find(child).is_some() && objects.videos.find(parent).is_some() {
                        parsed.texture_videos.insert(child, parent);
                        proof {
                            acc = ConnectionsSpec { texture_videos: acc.texture_videos.insert(child, parent), ..acc };
                        }
                    }
                } else if str_equal(kind, "OP") {
                    if objects.textures.find(child).is_some() && objects.materials.find(parent).is_some() {
                        let ghost before = parsed.material_textures;
                        let property_name = text_of(property_string(property_at(&record.properties, 3)));
                        let binding = TextureBinding { texture_id: child, property_name };
                        parsed.material_textures.push_to(parent, binding);
                        proof {
                            acc = ConnectionsSpec {
                                material_textures: map_push(acc.material_textures, parent, binding_view(binding)),
                                ..acc
                            };
                            assert forall|k: i64| #[trigger] parsed.material_textures.has(k) implies parsed.material_textures.lookup(k)->0@.map_values(|b: TextureBinding| binding_view(b)) == acc.material_textures[k] by {
                                if k != parent {
                                    assert(before.has(k));
                                } else {
                                    if before.has(parent) {
                                        assert(parsed.material_textures.lookup(k)->0@.map_values(|b: TextureBinding| binding_view(b)) =~= before.lookup(k)->0@.map_values(|b: TextureBinding| binding_view(b)).push(binding_view(binding)));
                                    } else {
                                        assert(parsed.material_textures.lookup(k)->0@.map_values(|b: TextureBinding| binding_view(b)) =~= seq![binding_view(binding)]);
                                    }
                                }
                            }
                        }
                    }
                }
            }
        }
        i = i + 1;
    }
    parsed
}

// ---------------------------------------------------------------- reading a scene

/// Reads the objects and connections of an FBX document (its top-level
/// nodes). A document without an `Objects` node, or without any mesh
/// geometry, has no mesh to export.
pub fn read_scene_objects<N: Copy>(nodes: &Vec<FbxNode<N>>) -> (result: Result<(SceneObjects<N>, SceneConnections), ConversionError>)
    ensures
        match spec_find_node(nodes@, "Objects"@) {
            None => result matches Err(ConversionError::MeshMissing),
            Some(objects_node) => match definitions_from(objects_node.children@, 0, no_definitions()) {
                Err(m) => result is Err && is_feature_error(result->Err_0, m),
                Ok(defs) => if defs.geometries.dom() == Set::<i64>::empty() {
                    result matches Err(ConversionError::MeshMissing)
                } else {
                    result is Ok && objects_match(result->Ok_0.0, objects_node.children@, defs)
                        && connections_match(
                        result->Ok_0.1,
                        spec_connections(result->Ok_0.0, spec_find_node(nodes@, "Connections"@)),
                    )
                },
            },
        },
        result matches Ok(r) ==> r.0.geometries.ids@.len() > 0 && geometry_links_valid(r.0, r.1),
{
    let objects_node = match find_node(nodes, "Objects") {
        Some(n) => n,
        None => return Err(ConversionError::MeshMissing),
    };
    let objects = match collect_scene_objects(&objects_node.children) {
        Ok(o) => o,
        Err(e) => return Err(e),
    };
    let ghost defs = definitions_from(objects_node.children@, 0, no_definitions())->Ok_0;
    if objects.geometries.len() == 0 {
        proof {
            assert(defs.geometries.dom() =~= Set::<i64>::empty()) by {
                assert forall|id: i64| !defs.geometries.dom().contains(id) by {
                    if defs.geometries.contains_key(id) {
                        assert(objects.geometries.has(id));
                    }
                }
            }
        }
        return Err(ConversionError::MeshMissing);
    }
    proof {
        let id = objects.geometries.ids@[0];
        assert(objects.geometries.has(id));
        assert(defs.geometries.dom().contains(id));
        assert(defs.geometries.dom() != Set::<i64>::empty());
    }
    let connections_node = find_node(nodes, "Connections");
    let connections = parse_connections(connections_node, &objects);
    proof {
        lemma_connections_attach_to_models(
            objects,
            crate::fbx::deref_option(connections_node),
            connections,
        );
    }
    Ok((objects, connections))
}

// ---------------------------------------------------------------- laws

/// Every geometry that the connections attach to models is attached to at
/// least one model, and only to models of the scene.
pub open spec fn geometry_sets_valid<N>(objects: SceneObjects<N>, m: Map<i64, Set<i64>>) -> bool {
    forall|k: i64|
        #[trigger] m.contains_key(k) ==> (exists|x: i64| m[k].contains(x)) && forall|x: i64|
            m[k].contains(x) ==> objects.models.has(x)
}

/// The same, of the connection tables.
pub open spec fn geometry_links_valid<N>(objects: SceneObjects<N>, conns: SceneConnections) -> bool {
    forall|k: i64|
        #[trigger] conns.geometry_to_models.has(k) ==> conns.geometry_to_models.lookup(k)->0@.len() > 0
            && forall|j: int|
            0 <= j < conns.geometry_to_models.lookup(k)->0@.len() ==> objects.models.has(
                #[trigger] conns.geometry_to_models.lookup(k)->0@[j],
            )
}

proof fn lemma_apply_connection_geometry_sets<N>(
    objects: SceneObjects<N>,
    acc: ConnectionsSpec,
    kind: Seq<char>,
    child: i64,
    parent: i64,
    property: Option<Seq<char>>,
)
    requires
        geometry_sets_valid(objects, acc.geometry_to_models),
    ensures
        geometry_sets_valid(
            objects,
            apply_connection(objects, acc, kind, child, parent, property).geometry_to_models,
        ),
{
    let next = apply_connection(objects, acc, kind, child, parent, property).geometry_to_models;
    if kind == "OO"@ && objects.geometries.has(child) && objects.models.has(parent) {
        assert forall|k: i64| #[trigger] next.contains_key(k) implies (exists|x: i64| next[k].contains(x))
            && forall|x: i64| next[k].contains(x) ==> objects.models.has(x) by {
            if k == child {
                assert(next[k].contains(parent));
            } else {
                let w = choose|x: i64| acc.geometry_to_models[k].contains(x);
                assert(next[k].contains(w));
            }
        }
    }
}

proof fn lemma_connections_geometry_sets<N>(objects: SceneObjects<N>, records: Seq<FbxNode<N>>, i: int, acc: ConnectionsSpec)
    requires
        geometry_sets_valid(objects, acc.geometry_to_models),
    ensures
        geometry_sets_valid(objects, connections_from(objects, records, i, acc).geometry_to_models),
    decreases records.len() - i,
{
    if 0 <= i < records.len() {
        let r = records[i];
        if r.name@ == "C"@ {
            if let Some(kind) = spec_property_string(nth(r.properties@, 0)) {
                if let Some(child) = spec_property_i64(nth(r.properties@, 1)) {
                    if let Some(parent) = spec_property_i64(nth(r.properties@, 2)) {
                        lemma_apply_connection_geometry_sets(
                            objects,
                            acc,
                            kind,
                            child,
                            parent,
                            spec_property_string(nth(r.properties@, 3)),
                        );
                    }
                }
            }
        }
        let next = if r.name@ != "C"@ {
            acc
        } else {
            match spec_property_string(nth(r.properties@, 0)) {
                None => acc,
                Some(kind) => match spec_property_i64(nth(r.properties@, 1)) {
                    None => acc,
                    Some(child) => match spec_property_i64(nth(r.properties@, 2)) {
                        None => acc,
                        Some(parent) => apply_connection(
                            objects,
                            acc,
                            kind,
                            child,
                            parent,
                            spec_property_string(nth(r.properties@, 3)),
                        ),
                    },
                },
            }
        };
        lemma_connections_geometry_sets(objects, records, i + 1, next);
    }
}

/// Read connections attach every listed geometry to at least one model of
/// the scene, and only to models of the scene.
pub proof fn lemma_connections_attach_to_models<N>(
    objects: SceneObjects<N>,
    connections: Option<FbxNode<N>>,
    c: SceneConnections,
)
    requires
        connections_match(c, spec_connections(objects, connections)),
    ensures
        geometry_links_valid(objects, c),
{
    let s = spec_connections(objects, connections);
    assert(geometry_sets_valid(objects, no_connections().geometry_to_models));
    if let Some(node) = connections {
        lemma_connections_geometry_sets(objects, node.children@, 0, no_connections());
    }
    assert forall|k: i64| #[trigger] c.geometry_to_models.has(k) implies c.geometry_to_models.lookup(k)->0@.len() > 0
        && forall|j: int|
        0 <= j < c.geometry_to_models.lookup(k)->0@.len() ==> objects.models.has(
            #[trigger] c.geometry_to_models.lookup(k)->0@[j],
        ) by {
        let list = c.geometry_to_models.lookup(k)->0@;
        assert(s.geometry_to_models.contains_key(k));
        assert(list.to_set() == s.geometry_to_models[k]);
        let w = choose|x: i64| s.geometry_to_models[k].contains(x);
        assert(list.to_set().contains(w));
        assert forall|j: int| 0 <= j < list.len() implies objects.models.has(#[trigger] list[j]) by {
            assert(list.to_set().contains(list[j]));
        }
    }
}

/// A child of the `Objects` node that defines a mesh geometry: a
/// `Geometry` node whose third property is the text `Mesh`.
pub open spec fn is_mesh_geometry<N>(c: FbxNode<N>) -> bool {
    c.name@ == "Geometry"@ && spec_property_string(nth(c.properties@, 2)) == Some("Mesh"@)
}

proof fn lemma_definitions_without_meshes<N>(children: Seq<FbxNode<N>>, i: int, acc: Definitions)
    requires
        0 <= i,
        forall|j: int| i <= j < children.len() ==> !is_mesh_geometry(#[trigger] children[j]),
    ensures
        definitions_from(children, i, acc) matches Ok(d) ==> d.geometries == acc.geometries,
    decreases children.len() - i,
{
    if i < children.len() {
        let c = children[i];
        assert(!is_mesh_geometry(c));
        if c.name@ == "Geometry"@ {
            lemma_definitions_without_meshes(children, i + 1, acc);
        } else if c.name@ == "Model"@ {
            if let Some(id) = spec_object_id(c) {
                lemma_definitions_without_meshes(
                    children,
                    i + 1,
                    Definitions { models: acc.models.insert(id, i), ..acc },
                );
            }
        } else if c.name@ == "Material"@ {
            if let Some(id) = spec_object_id(c) {
                lemma_definitions_without_meshes(
                    children,
                    i + 1,
                    Definitions { materials: acc.materials.insert(id, i), ..acc },
                );
            }
        } else if c.name@ == "Texture"@ {
            if let Some(id) = spec_object_id(c) {
                lemma_definitions_without_meshes(
                    children,
                    i + 1,
                    Definitions { textures: acc.textures.insert(id, i), ..acc },
                );
            }
        } else if c.name@ == "Video"@ {
            if let Some(id) = spec_object_id(c) {
                lemma_definitions_without_meshes(
                    children,
                    i + 1,
                    Definitions { videos: acc.videos.insert(id, i), ..acc },
                );
            }
        } else {
            lemma_definitions_without_meshes(children, i + 1, acc);
        }
    }
}

/// A document whose `Objects` node (if it has one) holds no mesh geometry
/// defines no geometry: reading it fails with `MeshMissing`, unless another
/// object of it cannot be read (see `read_scene_objects`).
pub proof fn lemma_no_mesh_geometry_defines_none<N>(nodes: Seq<FbxNode<N>>)
    ensures
        (spec_find_node(nodes, "Objects"@) matches Some(o) ==> forall|j: int|
            0 <= j < o.children@.len() ==> !is_mesh_geometry(#[trigger] o.children@[j])) ==> match spec_find_node(
            nodes,
            "Objects"@,
        ) {
            None => true,
            Some(o) => match definitions_from(o.children@, 0, no_definitions()) {
                Ok(defs) => defs.geometries.dom() == Set::<i64>::empty(),
                Err(_) => true,
            },
        },
{
    if let Some(o) = spec_find_node(nodes, "Objects"@) {
        if forall|j: int| 0 <= j < o.children@.len() ==> !is_mesh_geometry(#[trigger] o.children@[j]) {
            lemma_definitions_without_meshes(o.children@, 0, no_definitions());
            if let Ok(defs) = definitions_from(o.children@, 0, no_definitions()) {
                assert(defs.geometries.dom() =~= Set::<i64>::empty());
            }
        }
    }
}

/// The kind and the two ids of a `C` record, when it has them.
pub open spec fn record_link<N>(r: FbxNode<N>) -> Option<(Seq<char>, i64, i64)> {
    if r.name@ != "C"@ {
        None
    } else {
        match spec_property_string(nth(r.properties@, 0)) {
            None => None,
            Some(kind) => match spec_property_i64(nth(r.properties@, 1)) {
                None => None,
                Some(child) => match spec_property_i64(nth(r.properties@, 2)) {
                    None => None,
                    Some(parent) => Some((kind, child, parent)),
                },
            },
        }
    }
}

/// Record `r` attaches geometry `g` to model `m`.
pub open spec fn geometry_record<N>(objects: SceneObjects<N>, r: FbxNode<N>, g: i64, m: i64) -> bool {
    record_link(r) == Some(("OO"@, g, m)) && objects.geometries.has(g) && objects.models.has(m)
}

/// Record `r` hangs model `c` under model `p`.
pub open spec fn parent_record<N>(objects: SceneObjects<N>, r: FbxNode<N>, c: i64, p: i64) -> bool {
    record_link(r) == Some(("OO"@, c, p)) && !objects.geometries.has(c) && objects.models.has(c)
        && objects.models.has(p)
}

/// The parent that the last record from position `i` on gives model `c`.
pub open spec fn last_parent_from<N>(objects: SceneObjects<N>, records: Seq<FbxNode<N>>, c: i64, i: int) -> Option<i64>
    decreases records.len() - i,
{
    if i < 0 || i >= records.len() {
        None
    } else {
        match last_parent_from(objects, records, c, i + 1) {
            Some(p) => Some(p),
            None => match record_link(records[i]) {
                Some((kind, child, parent)) => if parent_record(objects, records[i], c, parent) {
                    Some(parent)
                } else {
                    None
                },
                None => None,
            },
        }
    }
}

/// The value under `k`, if any.
pub open spec fn map_get<V>(m: Map<i64, V>, k: i64) -> Option<V> {
    if m.contains_key(k) {
        Some(m[k])
    } else {
        None
    }
}

/// Geometry `g` is attached to model `m` in `links`.
pub open spec fn attaches(links: Map<i64, Set<i64>>, g: i64, m: i64) -> bool {
    links.contains_key(g) && links[g].contains(m)
}

/// Some record from position `i` on attaches geometry `g` to model `m`.
pub open spec fn geometry_record_from<N>(objects: SceneObjects<N>, records: Seq<FbxNode<N>>, g: i64, m: i64, i: int) -> bool
    decreases records.len() - i,
{
    if i < 0 || i >= records.len() {
        false
    } else {
        geometry_record(objects, records[i], g, m) || geometry_record_from(objects, records, g, m, i + 1)
    }
}

proof fn lemma_geometry_record_from_exists<N>(objects: SceneObjects<N>, records: Seq<FbxNode<N>>, g: i64, m: i64, i: int)
    requires
        0 <= i,
    ensures
        geometry_record_from(objects, records, g, m, i) <==> exists|j: int|
            i <= j < records.len() && #[trigger] geometry_record(objects, records[j], g, m),
    decreases records.len() - i,
{
    if i < records.len() {
        lemma_geometry_record_from_exists(objects, records, g, m, i + 1);
        if exists|j: int| i <= j < records.len() && #[trigger] geometry_record(objects, records[j], g, m) {
            let j = choose|j: int| i <= j < records.len() && #[trigger] geometry_record(objects, records[j], g, m);
            if j > i {
                assert(i + 1 <= j < records.len() && geometry_record(objects, records[j], g, m));
            }
        }
    }
}

proof fn lemma_connections_from_records<N>(objects: SceneObjects<N>, records: Seq<FbxNode<N>>, i: int, acc: ConnectionsSpec)
    requires
        0 <= i,
    ensures
        forall|g: i64, m: i64|
            #[trigger] attaches(connections_from(objects, records, i, acc).geometry_to_models, g, m) <==> (
            attaches(acc.geometry_to_models, g, m) || geometry_record_from(objects, records, g, m, i)),
        forall|c: i64|
            #[trigger] map_get(connections_from(objects, records, i, acc).model_to_parent, c) == match last_parent_from(
                objects,
                records,
                c,
                i,
            ) {
                Some(p) => Some(p),
                None => map_get(acc.model_to_parent, c),
            },
    decreases records.len() - i,
{
    if i < records.len() {
        let r = records[i];
        let next = if r.name@ != "C"@ {
            acc
        } else {
            match spec_property_string(nth(r.properties@, 0)) {
                None => acc,
                Some(kind) => match spec_property_i64(nth(r.properties@, 1)) {
                    None => acc,
                    Some(child) => match spec_property_i64(nth(r.properties@, 2)) {
                        None => acc,
                        Some(parent) => apply_connection(
                            objects,
                            acc,
                            kind,
                            child,
                            parent,
                            spec_property_string(nth(r.properties@, 3)),
                        ),
                    },
                },
            }
        };
        assert(connections_from(objects, records, i, acc) == connections_from(objects, records, i + 1, next));
        lemma_connections_from_records(objects, records, i + 1, next);
        assert forall|g: i64, m: i64| #[trigger] attaches(next.geometry_to_models, g, m) <==> (
            attaches(acc.geometry_to_models, g, m) || geometry_record(objects, r, g, m)) by {}
        assert forall|c: i64| #[trigger] map_get(next.model_to_parent, c) == match record_link(r) {
            Some((kind, child, parent)) => if parent_record(objects, r, c, parent) {
                Some(parent)
            } else {
                map_get(acc.model_to_parent, c)
            },
            None => map_get(acc.model_to_parent, c),
        } by {}
    }
}

/// What the `C` records of a `Connections` node leave: geometry `g` is
/// attached to model `m` exactly when some `OO` record between the two
/// says so, and a model's parent is the one that the last `OO` record
/// between two models gives it (none when no record does). The tables read
/// from the node hold the same, each geometry's models listed once each in
/// increasing order (see `connections_match`).
pub proof fn lemma_connections_follow_records<N>(objects: SceneObjects<N>, node: FbxNode<N>)
    ensures
        forall|g: i64, m: i64|
            #[trigger] attaches(spec_connections(objects, Some(node)).geometry_to_models, g, m) <==> exists|j: int|
                0 <= j < node.children@.len() && #[trigger] geometry_record(objects, node.children@[j], g, m),
        forall|c: i64|
            #[trigger] map_get(spec_connections(objects, Some(node)).model_to_parent, c) == last_parent_from(
                objects,
                node.children@,
                c,
                0,
            ),
{
    lemma_connections_from_records(objects, node.children@, 0, no_connections());
    assert forall|g: i64, m: i64|
        #[trigger] attaches(spec_connections(objects, Some(node)).geometry_to_models, g, m) <==> exists|j: int|
            0 <= j < node.children@.len() && #[trigger] geometry_record(objects, node.children@[j], g, m) by {
        lemma_geometry_record_from_exists(objects, node.children@, g, m, 0);
        assert(!attaches(no_connections().geometry_to_models, g, m));
    }
    assert forall|c: i64| #[trigger] map_get(spec_connections(objects, Some(node)).model_to_parent, c) == last_parent_from(
        objects,
        node.children@,
        c,
        0,
    ) by {
        assert(map_get(no_connections().model_to_parent, c) is None);
    }
}

} // verus!
