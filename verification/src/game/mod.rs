//! The game thread's world: objects, their behaviours, and the meshes they use.
use vstd::prelude::*;

pub mod camera;
pub mod handle_code;
pub mod laws;
pub mod meshes;
pub mod object;
pub mod physics;

pub use camera::{Camera, ViewFrustum};
pub use meshes::MeshRegistry;
pub use object::{Object, ObjectInfo};
pub use physics::Physics;

use crate::render::{FrameObjectData, IPooledInstance, RenderObject, pooled_mesh_path};
use vstd::string::*;

verus! {

/// The size of the window, whose quotient `width / height` is the camera's
/// aspect ratio. Kept as the two sizes so that no quotient is taken here.
#[derive(Clone, Copy, PartialEq, Eq, Structural)]
pub struct AspectRatio {
    pub width: u32,
    pub height: u32,
}

/// Messages from the window thread to the game thread.
#[derive(Clone, Copy, PartialEq, Eq, Structural)]
pub enum ToGame {
    Stop,
    /// Tells the game thread that the main thread has started
    /// and initialized the window so that game thread can now start
    Start,
    UpdateCameraAspectRatio(AspectRatio),
}

/// Whether `object` has a mesh: an empty mesh path means it has none.
pub open spec fn has_mesh(object: Object) -> bool {
    object.mesh_path@.len() > 0
}

/// The frame data that `object` is in now.
pub open spec fn frame_of(object: Object) -> FrameObjectData {
    FrameObjectData { position: object.position, scale: object.scale, rotation: object.rotation }
}

/// The state of the game thread: a camera, the physics settings, the live
/// objects with their behaviours (`C`), liveness records and last frames, and
/// the registry of meshes with the paths still waiting to be loaded.
pub struct GameSimulation<L, C> {
    camera: Camera<L>,
    physics: Physics,
    object_frames: Vec<FrameObjectData>,
    objects: Vec<Object>,
    customs: Vec<C>,
    object_infos: Vec<ObjectInfo>,
    registered_meshes: MeshRegistry,
    pending_mesh_loads: Vec<String>,
}

impl<L, C> GameSimulation<L, C> {
    pub closed spec fn camera_spec(&self) -> Camera<L> {
        self.camera
    }

    pub closed spec fn physics_spec(&self) -> Physics {
        self.physics
    }

    /// The frame each object was in at the end of the last tick.
    pub closed spec fn frames(&self) -> Seq<FrameObjectData> {
        self.object_frames@
    }

    pub closed spec fn objects(&self) -> Seq<Object> {
        self.objects@
    }

    /// The behaviour of each object.
    pub closed spec fn customs(&self) -> Seq<C> {
        self.customs@
    }

    /// The liveness record of each object.
    pub closed spec fn infos(&self) -> Seq<ObjectInfo> {
        self.object_infos@
    }

    /// Each registered mesh path, with whether its mesh is loaded.
    pub closed spec fn meshes(&self) -> Map<Seq<char>, bool> {
        self.registered_meshes@
    }

    /// Mesh paths whose loading is requested and not yet handed out.
    pub closed spec fn pending_loads(&self) -> Seq<String> {
        self.pending_mesh_loads@
    }

    /// The camera's aspect ratio.
    pub open spec fn aspect_ratio_spec(&self) -> AspectRatio {
        self.camera_spec().aspect()
    }

    /// Every sequence of per-object data has one entry per object.
    pub open spec fn aligned(&self) -> bool {
        &&& self.customs().len() == self.objects().len()
        &&& self.infos().len() == self.objects().len()
        &&& self.frames().len() == self.objects().len()
    }

}

impl<L, C> GameSimulation<L, C> {
    /// `next` has the camera, physics, meshes and pending loads of `self`.
    pub open spec fn same_setting(self, next: Self) -> bool {
        &&& next.camera_spec() == self.camera_spec()
        &&& next.physics_spec() == self.physics_spec()
        &&& next.meshes() == self.meshes()
        &&& next.pending_loads() == self.pending_loads()
    }

    /// `next` is `self` with `object` added, alive, under behaviour `custom`,
    /// its current state as its first frame; if the object has a mesh, its
    /// mesh path is registered as not loaded and queued for loading unless it
    /// was registered already.
    pub open spec fn registers(self, next: Self, object: Object, custom: C) -> bool {
        &&& next.objects() == self.objects().push(object)
        &&& next.customs() == self.customs().push(custom)
        &&& next.infos() == self.infos().push(ObjectInfo { is_alive: true })
        &&& next.frames() == self.frames().push(frame_of(object))
        &&& if !has_mesh(object) || self.meshes().contains_key(object.mesh_path@) {
            &&& next.meshes() == self.meshes()
            &&& next.pending_loads() == self.pending_loads()
        } else {
            &&& next.meshes() == self.meshes().insert(object.mesh_path@, false)
            &&& next.pending_loads() == self.pending_loads().push(object.mesh_path)
        }
        &&& next.camera_spec() == self.camera_spec()
        &&& next.physics_spec() == self.physics_spec()
    }

    /// `next` is `self` with the object at `index` marked dead.
    pub open spec fn kills(self, next: Self, index: int) -> bool {
        &&& next.infos() == self.infos().update(index, ObjectInfo { is_alive: false })
        &&& next.objects() == self.objects()
        &&& next.customs() == self.customs()
        &&& next.frames() == self.frames()
        &&& self.same_setting(next)
    }

    /// `next` is `self` with the behaviour `custom` and the object `object`
    /// at `index` taken out (later ones move down one place); liveness
    /// records and frames stay.
    pub open spec fn detaches_for_start(
        self,
        next: Self,
        index: int,
        custom: C,
        object: Object,
    ) -> bool {
        &&& custom == self.customs()[index]
        &&& object == self.objects()[index]
        &&& next.customs() == self.customs().remove(index)
        &&& next.objects() == self.objects().remove(index)
        &&& next.infos() == self.infos()
        &&& next.frames() == self.frames()
        &&& self.same_setting(next)
    }

    /// `next` is `self` with the liveness record at `index` taken out; if it
    /// says alive (`kept`), the record, `object` and `custom` are put back at
    /// the end; frames stay.
    pub open spec fn settles_after_start(
        self,
        next: Self,
        index: int,
        object: Object,
        custom: C,
        kept: bool,
    ) -> bool {
        let info = self.infos()[index];
        &&& kept == info.is_alive
        &&& if kept {
            &&& next.infos() == self.infos().remove(index).push(info)
            &&& next.objects() == self.objects().push(object)
            &&& next.customs() == self.customs().push(custom)
        } else {
            &&& next.infos() == self.infos().remove(index)
            &&& next.objects() == self.objects()
            &&& next.customs() == self.customs()
        }
        &&& next.frames() == self.frames()
        &&& self.same_setting(next)
    }

    /// `next` is `self` with the behaviour `custom`, the object `object` and
    /// the frame `frame` at `index` taken out, each place filled by the last
    /// element; liveness records stay.
    pub open spec fn detaches_for_update(
        self,
        next: Self,
        index: int,
        custom: C,
        object: Object,
        frame: FrameObjectData,
    ) -> bool {
        &&& custom == self.customs()[index]
        &&& object == self.objects()[index]
        &&& frame == self.frames()[index]
        &&& next.customs() == swap_removed(self.customs(), index)
        &&& next.objects() == swap_removed(self.objects(), index)
        &&& next.frames() == swap_removed(self.frames(), index)
        &&& next.infos() == self.infos()
        &&& self.same_setting(next)
    }

    /// `next` is `self` with the liveness record at `index` taken out, its
    /// place filled by the last record. A dead object is dropped and nothing
    /// is drawn. An alive one is put back at the end with `custom`, its record
    /// and its current state as its new frame; it is drawn (`res`), moving
    /// from `previous_frame` to that state, exactly when it has a mesh and the
    /// mesh is loaded.
    pub open spec fn settles_after_update(
        self,
        next: Self,
        index: int,
        object: Object,
        custom: C,
        previous_frame: FrameObjectData,
        res: Option<IPooledInstance>,
    ) -> bool {
        let info = self.infos()[index];
        let rest = swap_removed(self.infos(), index);
        &&& if info.is_alive {
            &&& next.infos() == rest.push(info)
            &&& next.objects() == self.objects().push(object)
            &&& next.customs() == self.customs().push(custom)
            &&& next.frames() == self.frames().push(frame_of(object))
            &&& if has_mesh(object) && self.meshes()[object.mesh_path@] {
                &&& res matches Some(inst)
                &&& inst.obj.previous_frame == previous_frame
                &&& inst.obj.current_frame == frame_of(object)
                &&& inst.mesh_path@ == pooled_mesh_path()
            } else {
                res is None
            }
        } else {
            &&& next.infos() == rest
            &&& next.objects() == self.objects()
            &&& next.customs() == self.customs()
            &&& next.frames() == self.frames()
            &&& res is None
        }
        &&& self.same_setting(next)
    }
}

impl<L, C> GameSimulation<L, C> {
    pub fn new(camera: Camera<L>, physics: Physics) -> (res: Self)
        ensures
            res.camera_spec() == camera,
            res.physics_spec() == physics,
            res.frames() == Seq::<FrameObjectData>::empty(),
            res.objects() == Seq::<Object>::empty(),
            res.customs() == Seq::<C>::empty(),
            res.infos() == Seq::<ObjectInfo>::empty(),
            res.meshes() == Map::<Seq<char>, bool>::empty(),
            res.pending_loads() == Seq::<String>::empty(),
    {
        Self {
            camera,
            physics,
            object_frames: Vec::new(),
            objects: Vec::new(),
            customs: Vec::new(),
            object_infos: Vec::new(),
            registered_meshes: MeshRegistry::new(),
            pending_mesh_loads: Vec::new(),
        }
    }

    /// The camera's aspect ratio.
    pub fn aspect_ratio(&self) -> (res: AspectRatio)
        ensures
            res == self.aspect_ratio_spec(),
    {
        self.camera.view_frustum().aspect_ratio()
    }

    /// The camera.
    pub fn camera(&self) -> (res: &Camera<L>)
        ensures
            *res == self.camera_spec(),
    {
        &self.camera
    }

    /// The physics settings.
    pub fn physics(&self) -> (res: &Physics)
        ensures
            *res == self.physics_spec(),
    {
        &self.physics
    }

    /// The number of objects.
    pub fn object_count(&self) -> (res: usize)
        ensures
            res == self.objects().len(),
    {
        self.objects.len()
    }

    /// The number of behaviours.
    pub fn custom_count(&self) -> (res: usize)
        ensures
            res == self.customs().len(),
    {
        self.customs.len()
    }

    /// The number of liveness records.
    pub fn info_count(&self) -> (res: usize)
        ensures
            res == self.infos().len(),
    {
        self.object_infos.len()
    }

    /// The number of recorded frames.
    pub fn frame_count(&self) -> (res: usize)
        ensures
            res == self.frames().len(),
    {
        self.object_frames.len()
    }

    /// Whether the liveness record at `index` says alive.
    pub fn is_alive(&self, index: usize) -> (res: bool)
        requires
            index < self.infos().len(),
        ensures
            res == self.infos()[index as int].is_alive,
    {
        self.object_infos[index].is_alive
    }

    /// Whether `mesh_path` is registered.
    pub fn is_mesh_registered(&self, mesh_path: &String) -> (res: bool)
        ensures
            res == self.meshes().contains_key(mesh_path@),
    {
        self.registered_meshes.contains_key(mesh_path)
    }

    /// Registers `mesh_path` as not loaded yet and requests its loading.
    pub fn pool_object_mesh(&mut self, mesh_path: String)
        ensures
            final(self).meshes() == old(self).meshes().insert(mesh_path@, false),
            final(self).pending_loads() == old(self).pending_loads().push(mesh_path),
            final(self).camera_spec() == old(self).camera_spec(),
            final(self).physics_spec() == old(self).physics_spec(),
            final(self).frames() == old(self).frames(),
            final(self).objects() == old(self).objects(),
            final(self).customs() == old(self).customs(),
            final(self).infos() == old(self).infos(),
    {
        self.registered_meshes.insert(mesh_path.clone(), false);
        self.pending_mesh_loads.push(mesh_path);
    }

    /// Hands out the mesh paths whose loading was requested, oldest first.
    pub fn take_pending_mesh_loads(&mut self) -> (res: Vec<String>)
        ensures
            res@ == old(self).pending_loads(),
            final(self).pending_loads() == Seq::<String>::empty(),
            final(self).meshes() == old(self).meshes(),
            final(self).camera_spec() == old(self).camera_spec(),
            final(self).physics_spec() == old(self).physics_spec(),
            final(self).frames() == old(self).frames(),
            final(self).objects() == old(self).objects(),
            final(self).customs() == old(self).customs(),
            final(self).infos() == old(self).infos(),
    {
        let mut res: Vec<String> = Vec::new();
        std::mem::swap(&mut res, &mut self.pending_mesh_loads);
        res
    }

    /// Adds `object`, alive, with behaviour `custom`; its current state is its
    /// first frame. Its mesh, if it has one, is pooled unless the path is
    /// registered already.
    pub fn register_object(&mut self, object: Object, custom: C)
        ensures
            old(self).registers(*final(self), object, custom),
            final(self).frames().last().position == object.position,
            final(self).frames().last().scale == object.scale,
            final(self).frames().last().rotation == object.rotation,
    {
        if !object.mesh_path.as_str().is_empty() && !self.registered_meshes.contains_key(
            &object.mesh_path,
        ) {
            self.pool_object_mesh(object.mesh_path.clone());
        }
        self.object_infos.push(ObjectInfo { is_alive: true });
        self.object_frames.push(
            FrameObjectData {
                position: object.position,
                scale: object.scale,
                rotation: object.rotation,
            },
        );
        self.objects.push(object);
        self.customs.push(custom);
    }

    /// Marks the object at `index` dead; it leaves the world at its next
    /// start or update.
    pub fn kill_object(&mut self, index: usize)
        requires
            index < old(self).infos().len(),
        ensures
            old(self).kills(*final(self), index as int),
    {
        self.object_infos.set(index, ObjectInfo { is_alive: false });
    }
}

/// `s` without its element at `i`, whose place the last element takes.
pub open spec fn swap_removed<T>(s: Seq<T>, i: int) -> Seq<T> {
    s.update(i, s.last()).drop_last()
}

impl<L, C> GameSimulation<L, C> {
    /// Takes out the object at `index` and its behaviour so that the
    /// behaviour can start on it; the records of liveness and frames stay.
    pub fn detach_for_start(&mut self, index: usize) -> (res: (C, Object))
        requires
            index < old(self).customs().len(),
            index < old(self).objects().len(),
        ensures
            old(self).detaches_for_start(*final(self), index as int, res.0, res.1),
    {
        let custom = self.customs.remove(index);
        let object = self.objects.remove(index);
        (custom, object)
    }

    /// After its start, takes out the liveness record at `index`; an object
    /// still alive goes back, with its behaviour and record, at the end, and
    /// a dead one is dropped. Returns whether it was alive. Frames are left
    /// as they are.
    pub fn settle_after_start(&mut self, index: usize, object: Object, custom: C) -> (kept: bool)
        requires
            index < old(self).infos().len(),
        ensures
            old(self).settles_after_start(*final(self), index as int, object, custom, kept),
    {
        let info = self.object_infos.remove(index);
        if !info.is_alive {
            return false;
        }
        self.objects.push(object);
        self.customs.push(custom);
        self.object_infos.push(info);
        true
    }

    /// Takes out the object at `index`, its behaviour and its last frame so
    /// that the behaviour can update it; each place is filled by the last
    /// element of its sequence.
    pub fn detach_for_update(&mut self, index: usize) -> (res: (C, Object, FrameObjectData))
        requires
            index < old(self).customs().len(),
            index < old(self).objects().len(),
            index < old(self).frames().len(),
        ensures
            old(self).detaches_for_update(*final(self), index as int, res.0, res.1, res.2),
    {
        let custom = self.customs.swap_remove(index);
        let object = self.objects.swap_remove(index);
        let frame = self.object_frames.swap_remove(index);
        (custom, object, frame)
    }

    /// After its update, takes out the liveness record at `index` (its place
    /// filled by the last record). A dead object is dropped. An alive one goes
    /// back at the end with its behaviour, its record and its new frame, the
    /// state it is in now; if it has a mesh and the mesh is loaded, it is also
    /// returned as an instance to draw, moving from `previous_frame` to the
    /// new frame. An alive object with a mesh whose path is not registered is
    /// a caller error, ruled out by the precondition.
    pub fn settle_after_update(
        &mut self,
        index: usize,
        object: Object,
        custom: C,
        previous_frame: FrameObjectData,
    ) -> (res: Option<IPooledInstance>)
        requires
            index < old(self).infos().len(),
            old(self).infos()[index as int].is_alive && has_mesh(object) ==> old(
                self,
            ).meshes().contains_key(object.mesh_path@),
        ensures
            old(self).settles_after_update(
                *final(self),
                index as int,
                object,
                custom,
                previous_frame,
                res,
            ),
            old(self).infos()[index as int].is_alive ==> {
                &&& final(self).frames().last().position == object.position
                &&& final(self).frames().last().scale == object.scale
                &&& final(self).frames().last().rotation == object.rotation
            },
    {
        let info = self.object_infos.swap_remove(index);
        if !info.is_alive {
            return None;
        }
        let new_object_frame = FrameObjectData {
            position: object.position,
            rotation: object.rotation,
            scale: object.scale,
        };
        let loaded = if object.mesh_path.as_str().is_empty() {
            false
        } else {
            match self.registered_meshes.get(&object.mesh_path) {
                Some(l) => l,
                None => vstd::pervasive::unreached(),
            }
        };
        let res = if loaded {
            Some(
                IPooledInstance {
                    obj: RenderObject {
                        previous_frame,
                        current_frame: new_object_frame,
                    },
                    mesh_path: String::from_str("./cube"),
                },
            )
        } else {
            None
        };
        proof {
            reveal_strlit("./cube");
        }
        self.objects.push(object);
        self.customs.push(custom);
        self.object_frames.push(new_object_frame);
        self.object_infos.push(info);
        assert(self.infos() == swap_removed(old(self).infos(), index as int).push(info));
        assert(has_mesh(object) ==> old(self).meshes()[object.mesh_path@] == loaded);
        assert(!has_mesh(object) ==> !loaded);
        assert(res is Some ==> res->0.mesh_path@ == pooled_mesh_path());
        res
    }
}

impl<L, C> GameSimulation<L, C> {
    /// Handles one message from the window thread: `Stop` asks the loop to
    /// exit; a new aspect ratio becomes the camera's; `Start` changes nothing.
    pub fn handle_mainframe(&mut self, msg: ToGame) -> (code: i8)
        ensures
            code == (if msg is Stop {
                handle_code::EXIT
            } else {
                handle_code::ALL_GOOD
            }),
            !(msg is UpdateCameraAspectRatio) ==> *final(self) == *old(self),
            old(self).camera_spec().with_aspect(
                final(self).camera_spec(),
                ratio_after_message(msg, old(self).aspect_ratio_spec()),
            ),
            final(self).physics_spec() == old(self).physics_spec(),
            final(self).frames() == old(self).frames(),
            final(self).objects() == old(self).objects(),
            final(self).customs() == old(self).customs(),
            final(self).infos() == old(self).infos(),
            final(self).meshes() == old(self).meshes(),
            final(self).pending_loads() == old(self).pending_loads(),
    {
        match msg {
            ToGame::Stop => handle_code::EXIT,
            ToGame::Start => handle_code::ALL_GOOD,
            ToGame::UpdateCameraAspectRatio(ratio) => {
                self.camera.update_aspect_ratio(ratio);
                handle_code::ALL_GOOD
            },
        }
    }

    /// Handles the messages that came in since the last tick, in order,
    /// until one tells the loop to exit. Returns whether one did: exactly
    /// when `Stop` is among them. Only the camera changes: its aspect ratio
    /// becomes the last one sent before the first `Stop`, if any was.
    pub fn handle_messages(&mut self, msgs: Vec<ToGame>) -> (exit: bool)
        ensures
            exit == msgs@.contains(ToGame::Stop),
            old(self).camera_spec().with_aspect(
                final(self).camera_spec(),
                ratio_after_messages(msgs@, old(self).aspect_ratio_spec()),
            ),
            forall|j: int|
                #![trigger msgs@[j]]
                0 <= j < msgs@.len() && !msgs@.contains(ToGame::Stop)
                    && msgs@[j] is UpdateCameraAspectRatio && (forall|i: int|
                    j < i < msgs@.len() ==> !(msgs@[i] is UpdateCameraAspectRatio))
                    ==> final(self).aspect_ratio_spec() == msgs@[j]->UpdateCameraAspectRatio_0,
            !msgs@.contains(ToGame::Stop) && (forall|i: int|
                0 <= i < msgs@.len() ==> !(msgs@[i] is UpdateCameraAspectRatio))
                ==> final(self).aspect_ratio_spec() == old(self).aspect_ratio_spec(),
            final(self).physics_spec() == old(self).physics_spec(),
            final(self).frames() == old(self).frames(),
            final(self).objects() == old(self).objects(),
            final(self).customs() == old(self).customs(),
            final(self).infos() == old(self).infos(),
            final(self).meshes() == old(self).meshes(),
            final(self).pending_loads() == old(self).pending_loads(),
    {
        let mut i: usize = 0;
        assert(msgs@.skip(0) =~= msgs@);
        while i < msgs.len()
            invariant
                i <= msgs@.len(),
                forall|j: int| 0 <= j < i ==> msgs@[j] != ToGame::Stop,
                old(self).camera_spec().with_aspect(self.camera_spec(), self.aspect_ratio_spec()),
                ratio_after_messages(msgs@, old(self).aspect_ratio_spec()) == ratio_after_messages(
                    msgs@.skip(i as int),
                    self.aspect_ratio_spec(),
                ),
                self.physics_spec() == old(self).physics_spec(),
                self.frames() == old(self).frames(),
                self.objects() == old(self).objects(),
                self.customs() == old(self).customs(),
                self.infos() == old(self).infos(),
                self.meshes() == old(self).meshes(),
                self.pending_loads() == old(self).pending_loads(),
            decreases msgs@.len() - i,
        {
            assert(msgs@.skip(i as int)[0] == msgs@[i as int]);
            assert(msgs@.skip(i as int).drop_first() =~= msgs@.skip(i + 1));
            if self.handle_mainframe(msgs[i]) == handle_code::EXIT {
                assert(msgs@[i as int] == ToGame::Stop);
                return true;
            }
            i = i + 1;
        }
        assert(msgs@.skip(i as int) =~= Seq::<ToGame>::empty());
        proof {
            laws::law_stop_free_batch_ends_with_last_resize(msgs@, old(self).aspect_ratio_spec());
        }
        false
    }
}

/// The camera's aspect ratio once `msg` is handled, `ratio` being the one
/// before.
pub open spec fn ratio_after_message(msg: ToGame, ratio: AspectRatio) -> AspectRatio {
    match msg {
        ToGame::UpdateCameraAspectRatio(r) => r,
        _ => ratio,
    }
}

/// The camera's aspect ratio once `msgs` are handled in order up to the
/// first `Stop`, `ratio` being the one before.
pub open spec fn ratio_after_messages(msgs: Seq<ToGame>, ratio: AspectRatio) -> AspectRatio
    decreases msgs.len(),
{
    if msgs.len() == 0 {
        ratio
    } else if msgs[0] == ToGame::Stop {
        ratio
    } else {
        ratio_after_messages(msgs.drop_first(), ratio_after_message(msgs[0], ratio))
    }
}

/// Whether the game thread begins simulating on the first message it gets
/// (`None` when the window thread is gone): only `Start` lets it begin.
pub fn begins_simulation(first: Option<ToGame>) -> (res: bool)
    ensures
        res == (first == Some(ToGame::Start)),
{
    match first {
        Some(ToGame::Start) => true,
        _ => false,
    }
}

} // verus!
