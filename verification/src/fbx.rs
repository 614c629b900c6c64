//! The FBX node tree as the converter reads it, and typed access to node
//! properties. Floating-point payloads are carried as an opaque `N`: the
//! library decides which values are read and where, never what they are.
use vstd::prelude::*;
use vstd::string::*;
use crate::error::{ConversionError, is_feature_error};
use crate::text::{str_equal, string_from};

verus! {

/// One value attached to an FBX node. `N` is the type that carries
/// floating-point numbers; `F32` values arrive already widened to it.
#[derive(Clone, Debug)]
pub enum FbxProperty<N> {
    Bool(bool),
    I16(i16),
    I32(i32),
    I64(i64),
    F32(N),
    F64(N),
    BoolArray(Vec<bool>),
    I32Array(Vec<i32>),
    I64Array(Vec<i64>),
    F32Array(Vec<N>),
    F64Array(Vec<N>),
    String(String),
    Bytes(Vec<u8>),
}

/// A node of an FBX document: a name, its property values and its children.
#[derive(Debug)]
pub struct FbxNode<N> {
    pub name: String,
    pub properties: Vec<FbxProperty<N>>,
    pub children: Vec<FbxNode<N>>,
}

/// A numeric property value: a floating-point number, or an integer that
/// stands for one.
#[derive(Clone, Copy, Debug, PartialEq)]
pub enum Number<N> {
    Float(N),
    Int(i64),
}

/// The value behind an optional reference.
pub open spec fn deref_option<T>(o: Option<&T>) -> Option<T> {
    match o {
        Some(p) => Some(*p),
        None => None,
    }
}

// ---------------------------------------------------------------- node lookup

/// The position of the first node in `nodes` named `name`, looking from
/// position `i` on.
pub open spec fn first_named_from<N>(nodes: Seq<FbxNode<N>>, name: Seq<char>, i: int) -> Option<int>
    decreases nodes.len() - i,
{
    if i < 0 || i >= nodes.len() {
        None
    } else if nodes[i].name@ == name {
        Some(i)
    } else {
        first_named_from(nodes, name, i + 1)
    }
}

/// The first node of `nodes` named `name`.
pub open spec fn spec_find_node<N>(nodes: Seq<FbxNode<N>>, name: Seq<char>) -> Option<FbxNode<N>> {
    match first_named_from(nodes, name, 0) {
        Some(i) => Some(nodes[i]),
        None => None,
    }
}

/// Finds the first node of `nodes` named `name`.
pub fn find_node<'a, N>(nodes: &'a Vec<FbxNode<N>>, name: &str) -> (found: Option<&'a FbxNode<N>>)
    ensures
        match found {
            Some(n) => spec_find_node(nodes@, name@) == Some(*n),
            None => spec_find_node(nodes@, name@) is None,
        },
{
    let mut i: usize = 0;
    while i < nodes.len()
        invariant
            i <= nodes.len(),
            first_named_from(nodes@, name@, i as int) == first_named_from(nodes@, name@, 0),
        decreases nodes.len() - i,
    {
        if str_equal(nodes[i].name.as_str(), name) {
            return Some(&nodes[i]);
        }
        i = i + 1;
    }
    None
}

// ---------------------------------------------------------------- property values

/// The text of a `String` property.
pub open spec fn spec_property_string<N>(p: Option<FbxProperty<N>>) -> Option<Seq<char>> {
    match p {
        Some(FbxProperty::String(s)) => Some(s@),
        _ => None,
    }
}

/// The `i`-th property of a list, if there is one.
pub open spec fn nth<N>(props: Seq<FbxProperty<N>>, i: int) -> Option<FbxProperty<N>> {
    if 0 <= i < props.len() {
        Some(props[i])
    } else {
        None
    }
}

/// The `i`-th property of `props`, if there is one.
pub fn property_at<N>(props: &Vec<FbxProperty<N>>, i: usize) -> (p: Option<&FbxProperty<N>>)
    ensures
        match p {
            Some(v) => nth(props@, i as int) == Some(*v),
            None => nth(props@, i as int) is None,
        },
{
    if i < props.len() {
        Some(&props[i])
    } else {
        None
    }
}

/// The text of a property that holds a string.
pub fn property_string<N>(property: Option<&FbxProperty<N>>) -> (s: Option<&str>)
    ensures
        match s {
            Some(t) => spec_property_string(
                deref_option(property),
            ) == Some(t@),
            None => spec_property_string(
                deref_option(property),
            ) is None,
        },
{
    match property {
        Some(FbxProperty::String(value)) => Some(value.as_str()),
        _ => None,
    }
}

/// The value of an integer property, widened to 64 bits.
pub open spec fn spec_property_i64<N>(p: Option<FbxProperty<N>>) -> Option<i64> {
    match p {
        Some(FbxProperty::I64(v)) => Some(v),
        Some(FbxProperty::I32(v)) => Some(v as i64),
        _ => None,
    }
}

/// The value of an integer property as `i64` (object ids).
pub fn property_i64<N>(property: Option<&FbxProperty<N>>) -> (v: Option<i64>)
    ensures
        v == spec_property_i64(
            deref_option(property),
        ),
{
    match property {
        Some(FbxProperty::I64(value)) => Some(*value),
        Some(FbxProperty::I32(value)) => Some(*value as i64),
        _ => None,
    }
}

/// The value of an integer property that fits 32 bits.
pub open spec fn spec_property_i32<N>(p: Option<FbxProperty<N>>) -> Option<i32> {
    match p {
        Some(FbxProperty::I32(v)) => Some(v),
        Some(FbxProperty::I64(v)) => if i32::MIN <= v <= i32::MAX {
            Some(v as i32)
        } else {
            None
        },
        _ => None,
    }
}

/// The value of an integer property as `i32`; a 64-bit value out of range
/// gives `None`.
pub fn property_i32<N>(property: Option<&FbxProperty<N>>) -> (v: Option<i32>)
    ensures
        v == spec_property_i32(
            deref_option(property),
        ),
{
    match property {
        Some(FbxProperty::I32(value)) => Some(*value),
        Some(FbxProperty::I64(value)) => {
            if i32::MIN as i64 <= *value && *value <= i32::MAX as i64 {
                Some(*value as i32)
            } else {
                None
            }
        },
        _ => None,
    }
}

/// The numeric value of a property: floating-point properties as they are,
/// integer properties as integers.
pub open spec fn spec_property_number<N>(p: Option<FbxProperty<N>>) -> Option<Number<N>> {
    match p {
        Some(FbxProperty::F64(v)) => Some(Number::Float(v)),
        Some(FbxProperty::F32(v)) => Some(Number::Float(v)),
        Some(FbxProperty::I32(v)) => Some(Number::Int(v as i64)),
        Some(FbxProperty::I64(v)) => Some(Number::Int(v)),
        _ => None,
    }
}

/// The numeric value of a property, if it holds a number.
pub fn property_number<N: Copy>(property: Option<&FbxProperty<N>>) -> (v: Option<Number<N>>)
    ensures
        v == spec_property_number(
            deref_option(property),
        ),
{
    match property {
        Some(FbxProperty::F64(value)) => Some(Number::Float(*value)),
        Some(FbxProperty::F32(value)) => Some(Number::Float(*value)),
        Some(FbxProperty::I32(value)) => Some(Number::Int(*value as i64)),
        Some(FbxProperty::I64(value)) => Some(Number::Int(*value)),
        _ => None,
    }
}

/// A copy of a list of copyable values.
pub fn copy_values<T: Copy>(values: &Vec<T>) -> (out: Vec<T>)
    ensures
        out@ == values@,
{
    let mut out: Vec<T> = Vec::new();
    let mut i: usize = 0;
    while i < values.len()
        invariant
            i <= values.len(),
            out@ == values@.take(i as int),
        decreases values.len() - i,
    {
        out.push(values[i]);
        assert(values@.take(i + 1) =~= values@.take(i as int).push(values@[i as int]));
        i = i + 1;
    }
    assert(values@.take(values.len() as int) =~= values@);
    out
}

/// The elements of a floating-point array property.
pub open spec fn spec_property_number_array<N>(p: Option<FbxProperty<N>>) -> Option<Seq<N>> {
    match p {
        Some(FbxProperty::F64Array(v)) => Some(v@),
        Some(FbxProperty::F32Array(v)) => Some(v@),
        _ => None,
    }
}

/// The elements of a property that holds a floating-point array.
pub fn property_number_array<N: Copy>(property: Option<&FbxProperty<N>>) -> (v: Option<Vec<N>>)
    ensures
        match v {
            Some(a) => spec_property_number_array(
                deref_option(property),
            ) == Some(a@),
            None => spec_property_number_array(
                deref_option(property),
            ) is None,
        },
{
    match property {
        Some(FbxProperty::F64Array(values)) => Some(copy_values(values)),
        Some(FbxProperty::F32Array(values)) => Some(copy_values(values)),
        _ => None,
    }
}

/// Every element of a 64-bit array fits 32 bits.
pub open spec fn all_fit_i32(values: Seq<i64>) -> bool {
    forall|i: int| 0 <= i < values.len() ==> i32::MIN <= #[trigger] values[i] <= i32::MAX
}

/// The elements of an integer array property as 32-bit values; a 64-bit
/// array with an element out of range gives `None`.
pub open spec fn spec_property_i32_array<N>(p: Option<FbxProperty<N>>) -> Option<Seq<i32>> {
    match p {
        Some(FbxProperty::I32Array(v)) => Some(v@),
        Some(FbxProperty::I64Array(v)) => if all_fit_i32(v@) {
            Some(v@.map_values(|x: i64| x as i32))
        } else {
            None
        },
        _ => None,
    }
}

/// The elements of a property that holds an integer array, as `i32`.
pub fn property_i32_array<N>(property: Option<&FbxProperty<N>>) -> (v: Option<Vec<i32>>)
    ensures
        match v {
            Some(a) => spec_property_i32_array(
                deref_option(property),
            ) == Some(a@),
            None => spec_property_i32_array(
                deref_option(property),
            ) is None,
        },
{
    match property {
        Some(FbxProperty::I32Array(values)) => Some(copy_values(values)),
        Some(FbxProperty::I64Array(values)) => {
            let mut out: Vec<i32> = Vec::new();
            let mut i: usize = 0;
            while i < values.len()
                invariant
                    property == Some(&FbxProperty::<N>::I64Array(*values)),
                    i <= values.len(),
                    out@ == values@.take(i as int).map_values(|x: i64| x as i32),
                    forall|j: int| 0 <= j < i ==> i32::MIN <= #[trigger] values@[j] <= i32::MAX,
                decreases values.len() - i,
            {
                let x = values[i];
                if x < i32::MIN as i64 || x > i32::MAX as i64 {
                    assert(values@[i as int] == x);
                    assert(!all_fit_i32(values@));
                    return None;
                }
                out.push(x as i32);
                assert(values@.take(i + 1).map_values(|x: i64| x as i32) =~= values@.take(
                    i as int,
                ).map_values(|x: i64| x as i32).push(x as i32));
                i = i + 1;
            }
            assert(values@.take(values.len() as int) =~= values@);
            Some(out)
        },
        _ => None,
    }
}

/// The first property of the first child of `node` named `child`, read as
/// text.
pub open spec fn spec_node_child_string<N>(node: FbxNode<N>, child: Seq<char>) -> Option<Seq<char>> {
    match spec_find_node(node.children@, child) {
        Some(c) => spec_property_string(nth(c.properties@, 0)),
        None => None,
    }
}

/// The text that the child of `node` named `child_name` holds.
pub fn node_child_string<'a, N>(node: &'a FbxNode<N>, child_name: &str) -> (s: Option<&'a str>)
    ensures
        match s {
            Some(t) => spec_node_child_string(*node, child_name@) == Some(t@),
            None => spec_node_child_string(*node, child_name@) is None,
        },
{
    match find_node(&node.children, child_name) {
        Some(child) => property_string(property_at(&child.properties, 0)),
        None => None,
    }
}

} // verus!
