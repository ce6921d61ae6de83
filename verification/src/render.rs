//! What the game thread hands to the renderer, and the rules on which mesh
//! files can be loaded.
use vstd::prelude::*;
use vstd::string::*;

verus! {

/// Renderable object data for ONE frame
#[derive(Copy, Clone)]
pub struct FrameObjectData {
    pub position: glam::Vec3,
    pub scale: glam::Vec3,
    pub rotation: glam::Quat,
}

/// An object as it was in the previous frame and is in the current one.
pub struct RenderObject {
    pub previous_frame: FrameObjectData,
    pub current_frame: FrameObjectData,
}

/// An object drawn with a mesh from the renderer's pool, named by its path.
pub struct IPooledInstance {
    pub obj: RenderObject,
    pub mesh_path: String,
}

/// The path of the mesh every pooled instance is drawn with.
pub open spec fn pooled_mesh_path() -> Seq<char> {
    seq!['.', '/', 'c', 'u', 'b', 'e']
}

/// The only mesh file suffix the engine loads.
pub open spec fn gltf_suffix() -> Seq<char> {
    seq!['.', 'g', 'l', 't', 'f']
}

/// Whether `path` ends with `.gltf`.
pub open spec fn is_gltf_path(path: Seq<char>) -> bool {
    path.len() >= 5 && path.subrange(path.len() - 5, path.len() as int) == gltf_suffix()
}

/// Whether `path` names a file of the one mesh format the engine supports.
pub fn is_gltf_path_exec(path: &str) -> (res: bool)
    ensures
        res == is_gltf_path(path@),
{
    let n = path.unicode_len();
    if n < 5 {
        return false;
    }
    let res = path.get_char(n - 5) == '.' && path.get_char(n - 4) == 'g' && path.get_char(n - 3)
        == 'l' && path.get_char(n - 2) == 't' && path.get_char(n - 1) == 'f';
    proof {
        let tail = path@.subrange(n - 5, n as int);
        if res {
            assert(tail =~= gltf_suffix());
        } else {
            if tail == gltf_suffix() {
                assert(tail[0] == path@[n - 5]);
                assert(tail[1] == path@[n - 4]);
                assert(tail[2] == path@[n - 3]);
                assert(tail[3] == path@[n - 2]);
                assert(tail[4] == path@[n - 1]);
            }
        }
    }
    res
}

/// Why a mesh file of another format is not loaded.
pub open spec fn unsupported_format_message() -> Seq<char> {
    "universe only supports .gltf format for meshes as of now!"@
}

/// Why a glTF file without scenes yields no mesh.
pub open spec fn no_mesh_message() -> Seq<char> {
    "There was no mesh to load bruh!"@
}

/// What loading the mesh at `mesh_path` comes to before any file is read:
/// the path to load, or why it is refused.
pub fn mesh_load_plan(mesh_path: String) -> (res: Result<String, String>)
    ensures
        is_gltf_path(mesh_path@) ==> res == Ok::<String, String>(mesh_path),
        !is_gltf_path(mesh_path@) ==> (res matches Err(msg) && msg@ == unsupported_format_message()),
{
    if is_gltf_path_exec(mesh_path.as_str()) {
        Ok(mesh_path)
    } else {
        Err(String::from_str("universe only supports .gltf format for meshes as of now!"))
    }
}

/// What a glTF file that was read with `scene_count` scenes, the first of
/// which holds `first_scene_models` models, comes to: `Ok` when there is a
/// mesh to take, else why not. A first scene without models is a caller
/// error, ruled out by the precondition.
pub fn scenes_outcome(scene_count: usize, first_scene_models: usize) -> (res: Result<(), String>)
    requires
        scene_count > 0 ==> first_scene_models > 0,
    ensures
        scene_count > 0 <==> res is Ok,
        res matches Err(msg) ==> msg@ == no_mesh_message(),
{
    if scene_count == 0 {
        return Err(String::from_str("There was no mesh to load bruh!"));
    }
    Ok(())
}

} // verus!
