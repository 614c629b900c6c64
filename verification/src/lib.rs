//! Verified core of an FBX to U3D converter: the command-line backend, the
//! planning checks, FBX element parsing, polygon triangulation, the scene
//! hierarchy and its node layout, the shadings and mesh of each part, the
//! assembly of the extracted scene, the staging names of texture images,
//! resource naming, and the IDTF document handed to IDTFConverter.

pub mod cli;
pub mod error;
pub mod text;
pub mod names;
pub mod mesh;
pub mod fbx;
pub mod objects;
pub mod hierarchy;
pub mod table;
pub mod scene;
pub mod layout;
pub mod shading;
pub mod plan;
pub mod part;
pub mod idtf;
pub mod idtf_model;
pub mod document;
pub mod assembly;
pub mod staging;
