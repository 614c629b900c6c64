//! Why a conversion cannot go on.
use vstd::prelude::*;

verus! {

/// Why a conversion cannot go on. Paths are carried as their display text.
#[derive(Clone, Debug)]
pub enum ConversionError {
    /// The input file was not found.
    InputMissing(String),
    /// The input file does not use the `.fbx` extension.
    UnsupportedInput(String),
    /// The output file does not use the `.u3d` extension.
    UnsupportedOutput(String),
    /// The directory that should hold the output does not exist.
    OutputDirectoryMissing(String),
    /// The output file exists and overwriting was not asked for.
    OutputExists(String),
    /// The units scale is not a finite number greater than zero.
    InvalidUnitsScale,
    /// No IDTFConverter executable was found; carries the paths checked.
    IdtfConverterMissing(String),
    /// The FBX file is not a binary FBX 7.x file.
    UnsupportedFbxFlavor(String),
    /// The FBX reader failed.
    FbxParse(String),
    /// The FBX file holds no polygon mesh that can be exported.
    MeshMissing,
    /// The FBX file uses something this backend does not handle.
    UnsupportedFbxFeature(String),
    /// IDTFConverter failed.
    ConversionFailed(String),
}

/// An `UnsupportedFbxFeature` error whose message is `message`.
pub open spec fn is_feature_error(e: ConversionError, message: Seq<char>) -> bool {
    e matches ConversionError::UnsupportedFbxFeature(m) && m@ == message
}

/// `r` is the outcome that `s` describes: the same value, or an
/// unsupported-feature error with the message that `s` holds.
pub open spec fn feature_result<T>(r: Result<T, ConversionError>, s: Result<T, Seq<char>>) -> bool {
    match s {
        Ok(v) => r == Ok::<T, ConversionError>(v),
        Err(m) => r is Err && is_feature_error(r->Err_0, m),
    }
}

} // verus!
