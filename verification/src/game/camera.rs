//! The camera the game world is seen through.
use vstd::prelude::*;

use super::AspectRatio;

verus! {

/// The aspect ratio a view frustum starts with: 16:9.
pub open spec fn default_aspect_ratio() -> AspectRatio {
    AspectRatio { width: 16, height: 9 }
}

/// The shape of what a camera sees: the window's aspect ratio and a lens
/// (`L`: field of view and clipping distances, which the library carries
/// unread).
pub struct ViewFrustum<L> {
    aspect_ratio: AspectRatio,
    lens: L,
}

impl<L> ViewFrustum<L> {
    pub closed spec fn aspect_ratio_spec(&self) -> AspectRatio {
        self.aspect_ratio
    }

    pub closed spec fn lens_spec(&self) -> L {
        self.lens
    }

    /// Aspect ratio by default is 16:9
    pub fn new(lens: L) -> (res: ViewFrustum<L>)
        ensures
            res.aspect_ratio_spec() == default_aspect_ratio(),
            res.lens_spec() == lens,
    {
        Self { aspect_ratio: AspectRatio { width: 16, height: 9 }, lens }
    }

    /// The aspect ratio, as the window's width and height.
    pub fn aspect_ratio(&self) -> (res: AspectRatio)
        ensures
            res == self.aspect_ratio_spec(),
    {
        self.aspect_ratio
    }

    /// The lens.
    pub fn lens(&self) -> (res: &L)
        ensures
            *res == self.lens_spec(),
    {
        &self.lens
    }
}

/// A camera: where it is, which way it is turned, and its view frustum.
pub struct Camera<L> {
    position: glam::Vec3,
    rotation: glam::Quat,
    view_frustum: ViewFrustum<L>,
}

impl<L> Camera<L> {
    pub closed spec fn position_spec(&self) -> glam::Vec3 {
        self.position
    }

    pub closed spec fn rotation_spec(&self) -> glam::Quat {
        self.rotation
    }

    pub closed spec fn view_frustum_spec(&self) -> ViewFrustum<L> {
        self.view_frustum
    }

    /// The camera's aspect ratio.
    pub open spec fn aspect(&self) -> AspectRatio {
        self.view_frustum_spec().aspect_ratio_spec()
    }

    /// `next` is `self` with its aspect ratio set to `ratio`.
    pub open spec fn with_aspect(self, next: Self, ratio: AspectRatio) -> bool {
        &&& next.position_spec() == self.position_spec()
        &&& next.rotation_spec() == self.rotation_spec()
        &&& next.view_frustum_spec().lens_spec() == self.view_frustum_spec().lens_spec()
        &&& next.aspect() == ratio
    }

    pub fn new(pos: glam::Vec3, rot: glam::Quat, view_frustum: ViewFrustum<L>) -> (res: Camera<L>)
        ensures
            res.position_spec() == pos,
            res.rotation_spec() == rot,
            res.view_frustum_spec() == view_frustum,
    {
        Self { position: pos, rotation: rot, view_frustum }
    }

    pub fn position(&self) -> (res: glam::Vec3)
        ensures
            res == self.position_spec(),
    {
        self.position
    }

    pub fn rotation(&self) -> (res: glam::Quat)
        ensures
            res == self.rotation_spec(),
    {
        self.rotation
    }

    pub fn view_frustum(&self) -> (res: &ViewFrustum<L>)
        ensures
            *res == self.view_frustum_spec(),
    {
        &self.view_frustum
    }

    /// Makes the camera's aspect ratio `ratio`; nothing else changes.
    pub fn update_aspect_ratio(&mut self, ratio: AspectRatio)
        ensures
            old(self).with_aspect(*final(self), ratio),
    {
        self.view_frustum.aspect_ratio = ratio;
    }
}

} // verus!
