# fbx2u3d

Converts binary FBX 7.x mesh assets into U3D through an IDTF intermediate
document and Intel's `IDTFConverter.exe`.

- `src/` is the verified library (Verus): the planning checks, FBX element
  parsing, triangulation, the model hierarchy and node layout, shadings and
  part meshes, the assembly of the extracted scene, texture staging names,
  unique resource names, and the IDTF document, each with its contract and the laws that tie them together.
- `app/` is the command-line program around it: argument parsing, the file
  system, the FBX reader, floating-point geometry (transforms, bounds,
  normals, number rendering) and the converter process.
- `tests/` runs the library on concrete scenes.
