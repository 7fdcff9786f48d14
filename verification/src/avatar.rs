//! Avatar camera modes: first/third person point of view and the
//! attached/free-fly camera.
use vstd::prelude::*;

verus! {

/// Camera attachment mode.
#[derive(Clone, Copy, PartialEq, Eq, Structural, Debug)]
pub enum CameraMode {
    /// Camera follows the avatar (1st or 3rd person).
    Attached,
    /// Camera detached, moves independently (spectator).
    FreeFly,
}

impl Default for CameraMode {
    /// The camera starts detached.
    fn default() -> (r: Self)
        ensures
            r == CameraMode::FreeFly,
    {
        CameraMode::FreeFly
    }
}

/// Point of view when the camera is attached.
#[derive(Clone, Copy, PartialEq, Eq, Structural, Debug)]
pub enum PointOfView {
    FirstPerson,
    ThirdPerson,
}

/// Which point of view is active when the camera is attached.
pub struct PovState {
    pub pov: PointOfView,
}

impl Default for PovState {
    /// Third person unless toggled.
    fn default() -> (r: Self)
        ensures
            r.pov == PointOfView::ThirdPerson,
    {
        PovState { pov: PointOfView::ThirdPerson }
    }
}

/// How the avatar moves and looks, as `f32` bits where real-valued.
pub struct AvatarMovementConfig {
    /// Walking speed in units per second.
    pub move_speed: u32,
    /// Radians of turn per pixel of mouse motion.
    pub look_sensitivity: u32,
    /// Height of the eyes above the avatar's feet.
    pub eye_height: u32,
    /// Camera pitch angle (radians), clamped to about 89 degrees either way.
    pub pitch: u32,
    /// Yaw angle (radians): the avatar's facing direction.
    pub yaw: u32,
    /// Whether the avatar is kept from going below `eye_height`.
    pub ground_clamp: bool,
}

/// The bits of `5.0f32`.
pub const MOVE_SPEED_BITS: u32 = 0x40A0_0000;

/// The bits of `0.003f32`.
pub const LOOK_SENSITIVITY_BITS: u32 = 0x3B44_9BA6;

/// The bits of `1.8f32`.
pub const EYE_HEIGHT_BITS: u32 = 0x3FE6_6666;

impl Default for AvatarMovementConfig {
    /// Speed 5, sensitivity 0.003, eyes at 1.8, level and facing along the
    /// zero yaw, kept above the ground.
    fn default() -> (c: Self)
        ensures
            c.move_speed == MOVE_SPEED_BITS,
            c.look_sensitivity == LOOK_SENSITIVITY_BITS,
            c.eye_height == EYE_HEIGHT_BITS,
            c.pitch == 0,
            c.yaw == 0,
            c.ground_clamp,
    {
        AvatarMovementConfig {
            move_speed: MOVE_SPEED_BITS,
            look_sensitivity: LOOK_SENSITIVITY_BITS,
            eye_height: EYE_HEIGHT_BITS,
            pitch: 0,
            yaw: 0,
            ground_clamp: true,
        }
    }
}

/// Whether the camera follows the avatar.
pub fn in_attached_mode(mode: &CameraMode) -> (r: bool)
    ensures
        r == (*mode == CameraMode::Attached),
{
    match mode {
        CameraMode::Attached => true,
        CameraMode::FreeFly => false,
    }
}

/// Whether the camera moves freely.
pub fn in_freefly_mode(mode: &CameraMode) -> (r: bool)
    ensures
        r == (*mode == CameraMode::FreeFly),
{
    match mode {
        CameraMode::Attached => false,
        CameraMode::FreeFly => true,
    }
}

/// The other point of view.
pub open spec fn other_pov(p: PointOfView) -> PointOfView {
    match p {
        PointOfView::FirstPerson => PointOfView::ThirdPerson,
        PointOfView::ThirdPerson => PointOfView::FirstPerson,
    }
}

/// V toggles between first and third person.
pub fn handle_pov_toggle(v_just_pressed: bool, pov_state: &mut PovState)
    ensures
        final(pov_state).pov == if v_just_pressed {
            other_pov(old(pov_state).pov)
        } else {
            old(pov_state).pov
        },
{
    if v_just_pressed {
        pov_state.pov = match pov_state.pov {
            PointOfView::FirstPerson => PointOfView::ThirdPerson,
            PointOfView::ThirdPerson => PointOfView::FirstPerson,
        };
    }
}

/// The camera mode after Tab: detaching always works, attaching only when
/// an avatar is configured.
pub open spec fn mode_after_tab(mode: CameraMode, avatar_configured: bool) -> CameraMode {
    match mode {
        CameraMode::Attached => CameraMode::FreeFly,
        CameraMode::FreeFly => if avatar_configured {
            CameraMode::Attached
        } else {
            CameraMode::FreeFly
        },
    }
}

/// Tab toggles between attached and free-fly camera; the result tells
/// whether the avatar mesh is to be shown (it is when detaching).
pub fn handle_camera_mode_toggle(tab_just_pressed: bool, mode: &mut CameraMode, avatar_configured: bool) -> (show_avatar: bool)
    ensures
        *final(mode) == if tab_just_pressed {
            mode_after_tab(*old(mode), avatar_configured)
        } else {
            *old(mode)
        },
        show_avatar == (tab_just_pressed && *old(mode) == CameraMode::Attached),
{
    if !tab_just_pressed {
        return false;
    }
    match *mode {
        CameraMode::Attached => {
            *mode = CameraMode::FreeFly;
            true
        },
        CameraMode::FreeFly => {
            if avatar_configured {
                *mode = CameraMode::Attached;
            }
            false
        },
    }
}

/// Toggling the point of view twice restores it.
pub proof fn law_pov_toggle_twice(p: PointOfView)
    ensures
        other_pov(other_pov(p)) == p,
        other_pov(p) != p,
{
}

/// With an avatar configured, pressing Tab twice restores the camera mode;
/// without one, the camera stays free.
pub proof fn law_tab_twice(mode: CameraMode, avatar_configured: bool)
    ensures
        avatar_configured ==> mode_after_tab(mode_after_tab(mode, true), true) == mode,
        !avatar_configured ==> mode_after_tab(mode_after_tab(mode, false), false) == CameraMode::FreeFly,
{
}

} // verus!
