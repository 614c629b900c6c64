//! The checks that decide whether a conversion can be planned: the input,
//! the output, the FBX flavor, and the IDTFConverter executable to use.
use vstd::prelude::*;
use vstd::string::*;
use crate::error::ConversionError;
use crate::text::{concat, eq_ignore_ascii_case, spec_eq_ignore_ascii_case, string_from};

verus! {

/// Whether a file extension is `fbx`, in any ASCII case.
pub open spec fn spec_is_fbx_extension(extension: Option<Seq<char>>) -> bool {
    match extension {
        Some(e) => spec_eq_ignore_ascii_case(e, "fbx"@),
        None => false,
    }
}

/// Whether a file extension is `u3d`, in any ASCII case.
pub open spec fn spec_is_u3d_extension(extension: Option<Seq<char>>) -> bool {
    match extension {
        Some(e) => spec_eq_ignore_ascii_case(e, "u3d"@),
        None => false,
    }
}

/// The view of an optional text.
pub open spec fn opt_str_view(s: Option<&str>) -> Option<Seq<char>> {
    match s {
        Some(v) => Some(v@),
        None => None,
    }
}

/// Whether a path with extension `extension` is an FBX file.
pub fn is_fbx_file(extension: Option<&str>) -> (r: bool)
    ensures
        r == spec_is_fbx_extension(opt_str_view(extension)),
{
    match extension {
        Some(e) => eq_ignore_ascii_case(e, "fbx"),
        None => false,
    }
}

/// Whether a path with extension `extension` is a U3D file.
pub fn is_u3d_file(extension: Option<&str>) -> (r: bool)
    ensures
        r == spec_is_u3d_extension(opt_str_view(extension)),
{
    match extension {
        Some(e) => eq_ignore_ascii_case(e, "u3d"),
        None => false,
    }
}

/// The input checks, in order: the units scale must be a finite number
/// above zero, the input must be an existing file, and it must use the
/// `.fbx` extension.
pub fn check_input(
    units_scale_valid: bool,
    input_is_file: bool,
    input_extension: Option<&str>,
    input: &str,
) -> (r: Result<(), ConversionError>)
    ensures
        !units_scale_valid ==> r matches Err(ConversionError::InvalidUnitsScale),
        units_scale_valid && !input_is_file ==> (r matches Err(ConversionError::InputMissing(p))
            && p@ == input@),
        units_scale_valid && input_is_file && !spec_is_fbx_extension(opt_str_view(input_extension))
            ==> (r matches Err(ConversionError::UnsupportedInput(p)) && p@ == input@),
        units_scale_valid && input_is_file && spec_is_fbx_extension(opt_str_view(input_extension))
            ==> r is Ok,
{
    if !units_scale_valid {
        return Err(ConversionError::InvalidUnitsScale);
    }
    if !input_is_file {
        return Err(ConversionError::InputMissing(string_from(input)));
    }
    if !is_fbx_file(input_extension) {
        return Err(ConversionError::UnsupportedInput(string_from(input)));
    }
    Ok(())
}

/// The output checks, in order: the output must use the `.u3d` extension,
/// its folder (when the path names one) must exist, and an existing output
/// may only be replaced when overwriting was asked for.
pub fn check_output(
    output: &str,
    output_extension: Option<&str>,
    parent: Option<&str>,
    parent_exists: bool,
    output_exists: bool,
    overwrite: bool,
) -> (r: Result<(), ConversionError>)
    ensures
        !spec_is_u3d_extension(opt_str_view(output_extension)) ==> (r matches Err(
            ConversionError::UnsupportedOutput(p),
        ) && p@ == output@),
        spec_is_u3d_extension(opt_str_view(output_extension)) && (parent matches Some(d) && d@.len()
            > 0 && !parent_exists) ==> (r matches Err(ConversionError::OutputDirectoryMissing(p))
            && p@ == parent->0@),
        spec_is_u3d_extension(opt_str_view(output_extension)) && !(parent matches Some(d)
            && d@.len() > 0 && !parent_exists) ==> if output_exists && !overwrite {
            (r matches Err(ConversionError::OutputExists(p)) && p@ == output@)
        } else {
            r is Ok
        },
{
    if !is_u3d_file(output_extension) {
        return Err(ConversionError::UnsupportedOutput(string_from(output)));
    }
    if let Some(directory) = parent {
        if directory.unicode_len() > 0 && !parent_exists {
            return Err(ConversionError::OutputDirectoryMissing(string_from(directory)));
        }
    }
    if output_exists && !overwrite {
        return Err(ConversionError::OutputExists(string_from(output)));
    }
    Ok(())
}

/// The bytes that open every binary FBX file.
pub open spec fn binary_fbx_magic() -> Seq<u8> {
    seq![
        0x4bu8, 0x61u8, 0x79u8, 0x64u8, 0x61u8, 0x72u8, 0x61u8, 0x20u8, 0x46u8, 0x42u8, 0x58u8,
        0x20u8, 0x42u8, 0x69u8, 0x6eu8, 0x61u8, 0x72u8, 0x79u8,
    ]
}

/// Whether a file header starts with `Kaydara FBX Binary`, as binary FBX
/// files do (ASCII FBX files do not).
pub fn is_binary_fbx_header(header: &[u8]) -> (r: bool)
    ensures
        r == (header@.len() >= 18 && header@.take(18) == binary_fbx_magic()),
{
    let magic: [u8; 18] = [
        0x4b, 0x61, 0x79, 0x64, 0x61, 0x72, 0x61, 0x20, 0x46, 0x42, 0x58, 0x20, 0x42, 0x69, 0x6e,
        0x61, 0x72, 0x79,
    ];
    assert(magic@ =~= binary_fbx_magic());
    if header.len() < 18 {
        return false;
    }
    let mut i: usize = 0;
    while i < 18
        invariant
            i <= 18,
            header@.len() >= 18,
            magic@ == binary_fbx_magic(),
            forall|j: int| 0 <= j < i ==> header@[j] == magic@[j],
        decreases 18 - i,
    {
        if header[i] != magic[i] {
            assert(header@.take(18)[i as int] != binary_fbx_magic()[i as int]);
            return false;
        }
        i = i + 1;
    }
    assert(header@.take(18) =~= binary_fbx_magic());
    true
}

/// Accepts only binary FBX files, judged by their first bytes.
pub fn ensure_binary_fbx(header: &[u8]) -> (r: Result<(), ConversionError>)
    ensures
        (header@.len() >= 18 && header@.take(18) == binary_fbx_magic()) ==> r is Ok,
        !(header@.len() >= 18 && header@.take(18) == binary_fbx_magic()) ==> (r matches Err(
            ConversionError::UnsupportedFbxFlavor(m),
        ) && m@ == "only binary FBX 7.x files are supported by the current backend"@),
{
    if is_binary_fbx_header(header) {
        Ok(())
    } else {
        Err(
            ConversionError::UnsupportedFbxFlavor(
                string_from("only binary FBX 7.x files are supported by the current backend"),
            ),
        )
    }
}

/// `list` joined with `sep` between neighbours.
pub open spec fn joined(list: Seq<Seq<char>>, sep: Seq<char>) -> Seq<char>
    decreases list.len(),
{
    if list.len() == 0 {
        seq![]
    } else if list.len() == 1 {
        list[0]
    } else {
        joined(list.drop_last(), sep) + sep + list.last()
    }
}

/// The first candidate path that is an existing file.
pub open spec fn first_existing(found: Seq<bool>, i: int) -> Option<int>
    decreases found.len() - i,
{
    if i < 0 || i >= found.len() {
        None
    } else if found[i] {
        Some(i)
    } else {
        first_existing(found, i + 1)
    }
}

/// Picks the IDTFConverter executable: the first candidate (in the order
/// given) that is an existing file; when none is, the error lists every
/// candidate checked, separated by `, `.
pub fn select_converter(candidates: &Vec<String>, is_file: &Vec<bool>) -> (r: Result<usize, ConversionError>)
    requires
        candidates@.len() == is_file@.len(),
    ensures
        match first_existing(is_file@, 0) {
            Some(i) => r == Ok::<usize, ConversionError>(i as usize),
            None => (r matches Err(ConversionError::IdtfConverterMissing(m)) && m@ == joined(
                candidates.deep_view(),
                ", "@,
            )),
        },
{
    let mut i: usize = 0;
    while i < is_file.len()
        invariant
            i <= is_file@.len(),
            first_existing(is_file@, i as int) == first_existing(is_file@, 0),
        decreases is_file@.len() - i,
    {
        if is_file[i] {
            return Ok(i);
        }
        i = i + 1;
    }
    let mut message = String::new();
    let mut k: usize = 0;
    let ghost names = candidates.deep_view();
    while k < candidates.len()
        invariant
            k <= candidates@.len(),
            names == candidates.deep_view(),
            message@ == joined(names.take(k as int), ", "@),
        decreases candidates@.len() - k,
    {
        proof {
            reveal_strlit(", ");
        }
        if k > 0 {
            message = concat(message.as_str(), ", ");
        }
        message = concat(message.as_str(), candidates[k].as_str());
        proof {
            assert(names.take(k + 1).drop_last() =~= names.take(k as int));
            if k == 0 {
                assert(names.take(1) =~= seq![names[0]]);
                assert(message@ =~= joined(names.take(1), ", "@));
            }
        }
        k = k + 1;
    }
    assert(names.take(candidates@.len() as int) =~= names);
    Err(ConversionError::IdtfConverterMissing(message))
}

proof fn lemma_first_existing_from(found: Seq<bool>, s: int)
    requires
        0 <= s,
    ensures
        first_existing(found, s) matches Some(i) ==> s <= i < found.len() && found[i] && forall|j: int|
            s <= j < i ==> !found[j],
        first_existing(found, s) is None <==> forall|j: int| s <= j < found.len() ==> !found[j],
    decreases found.len() - s,
{
    if s < found.len() && !found[s] {
        lemma_first_existing_from(found, s + 1);
    }
}

/// The converter picked is the first candidate, in the order given, that
/// is an existing file (so an explicit path that is a file always wins);
/// none is picked exactly when no candidate is a file.
pub proof fn lemma_first_existing_is_first_file(found: Seq<bool>)
    ensures
        first_existing(found, 0) matches Some(i) ==> 0 <= i < found.len() && found[i] && forall|j: int|
            0 <= j < i ==> !found[j],
        found.len() > 0 && found[0] ==> first_existing(found, 0) == Some(0int),
        first_existing(found, 0) is None <==> forall|j: int| 0 <= j < found.len() ==> !found[j],
{
    lemma_first_existing_from(found, 0);
}

} // verus!
