//! The camera controller: dragging the view, and zooming and scrolling it
//! with the wheel.

use vstd::prelude::*;
use crate::geometry::{clamp_i32, saturate, Point};

verus! {

/// The scale at which one pixel of the window shows one world unit.
pub const UNIT_SCALE: i32 = 100;

/// By how much one notch of the wheel changes the scale.
pub const ZOOM_STEP: i32 = 1;

/// By how many world units, at scale one, one notch of the wheel scrolls.
pub const SCROLL_STEP: i32 = 20;

/// The camera: the point of the canvas that it looks at, and its scale.
#[derive(Clone, Copy, Debug, PartialEq, Eq, Structural)]
pub struct MainCamera {
    pub translation: Point,
    pub scale: i32,
}

/// Where the camera stood when the drag began.
#[derive(Clone, Copy, Debug, PartialEq, Eq, Structural)]
pub struct CameraBeginTransform(pub Point);

/// Where in the window the pointer stood when the drag began.
#[derive(Clone, Copy, Debug, PartialEq, Eq)]
pub struct StateChangePositionBegin(pub Option<Point>);

impl Default for MainCamera {
    fn default() -> (c: MainCamera)
        ensures
            c == MainCamera::initial(),
    {
        MainCamera { translation: Point::zero(), scale: UNIT_SCALE }
    }
}

impl Default for CameraBeginTransform {
    fn default() -> (b: CameraBeginTransform)
        ensures
            b.0 == Point::origin(),
    {
        CameraBeginTransform(Point::zero())
    }
}

impl Default for StateChangePositionBegin {
    fn default() -> (b: StateChangePositionBegin)
        ensures
            b.0 is None,
    {
        StateChangePositionBegin(None)
    }
}

/// Where a camera of scale `scale` stands that stood at `begin_transform`
/// when the pointer was at `begin_position`, now that the pointer is at
/// `position`: the pointer's way, mirrored in x and scaled, from where the
/// camera stood. A coordinate stops at the end of its range.
pub open spec fn panned(
    begin_transform: Point,
    begin_position: Point,
    position: Point,
    scale: i32,
) -> Point {
    Point {
        x: clamp_i32(begin_transform.x + (position.x - begin_position.x) * (-1) * scale) as i32,
        y: clamp_i32(begin_transform.y + (position.y - begin_position.y) * 1 * scale) as i32,
    }
}

/// The drag from `begin_position` to `position` moves a camera of scale
/// `scale` that stood at `begin_transform` without reaching the end of a
/// coordinate's range.
pub open spec fn pan_fits(
    begin_transform: Point,
    begin_position: Point,
    position: Point,
    scale: i32,
) -> bool {
    &&& i32::MIN <= begin_transform.x + (position.x - begin_position.x) * (-1) * scale <= i32::MAX
    &&& i32::MIN <= begin_transform.y + (position.y - begin_position.y) * 1 * scale <= i32::MAX
}

impl MainCamera {
    /// The camera at the origin, at scale one.
    pub open spec fn initial() -> MainCamera {
        MainCamera { translation: Point::origin(), scale: UNIT_SCALE }
    }

    /// The camera after the wheel turned by `wheel_delta` notches without
    /// the modifier: the scale changes by `ZOOM_STEP` for each notch.
    pub open spec fn zoomed(self, wheel_delta: i32) -> MainCamera {
        MainCamera { scale: clamp_i32(self.scale + ZOOM_STEP * wheel_delta) as i32, ..self }
    }

    /// The camera after the wheel turned by `wheel_delta` notches with the
    /// modifier held: the view moves up by `SCROLL_STEP` times the scale for
    /// each notch.
    pub open spec fn scrolled(self, wheel_delta: i32) -> MainCamera {
        MainCamera {
            translation: Point {
                y: clamp_i32(self.translation.y + SCROLL_STEP * wheel_delta * self.scale) as i32,
                ..self.translation
            },
            ..self
        }
    }

    /// The camera after the wheel turned by `wheel_delta` notches.
    pub open spec fn wheeled(self, wheel_delta: i32, modifier: bool) -> MainCamera {
        if modifier {
            self.scrolled(wheel_delta)
        } else {
            self.zoomed(wheel_delta)
        }
    }

    /// The camera after the wheel events `wheel`, in their order.
    pub open spec fn wheeled_all(self, wheel: Seq<i32>, modifier: bool) -> MainCamera
        decreases wheel.len(),
    {
        if wheel.len() == 0 {
            self
        } else {
            self.wheeled_all(wheel.drop_last(), modifier).wheeled(wheel.last(), modifier)
        }
    }

    /// The camera during a drag, with the pointer at `position`. Where the
    /// pointer is outside the window, or was when the drag began, the camera
    /// stays.
    pub open spec fn dragged(
        self,
        begin_transform: Point,
        begin_position: Option<Point>,
        position: Option<Point>,
    ) -> MainCamera {
        if begin_position is Some && position is Some {
            MainCamera {
                translation: panned(begin_transform, begin_position->0, position->0, self.scale),
                ..self
            }
        } else {
            self
        }
    }

    /// Turns the wheel by `wheel_delta` notches: this zooms, and scrolls
    /// instead while the modifier is held.
    pub fn zoom(&mut self, wheel_delta: i32, modifier: bool)
        ensures
            *final(self) == old(self).wheeled(wheel_delta, modifier),
    {
        if modifier {
            let notches: i128 = SCROLL_STEP as i128 * wheel_delta as i128;
            proof {
                lemma_product_bound(notches as int, self.scale as int);
                assert(SCROLL_STEP * wheel_delta * self.scale == notches * self.scale);
            }
            self.translation.y = saturate(self.translation.y as i128 + notches * self.scale as i128);
        } else {
            let step: i128 = ZOOM_STEP as i128;
            assert(step == 1);
            self.scale = saturate(self.scale as i128 + step * wheel_delta as i128);
        }
    }
}

proof fn lemma_product_bound(a: int, b: int)
    by (nonlinear_arith)
    requires
        -0x100_0000_0000 < a < 0x100_0000_0000,
        -0x1_0000_0000 < b < 0x1_0000_0000,
    ensures
        -0x100_0000_0000_0000_0000 < a * b < 0x100_0000_0000_0000_0000,
{
}

/// Remembers where the camera stands as a drag begins.
pub fn set_camera_begin_transform(
    camera: &MainCamera,
    camera_transform_org: &mut CameraBeginTransform,
)
    ensures
        final(camera_transform_org).0 == camera.translation,
{
    *camera_transform_org = CameraBeginTransform(camera.translation);
}

/// Remembers where the pointer stands as a drag begins. Where the pointer is
/// outside the window, what was remembered before stays.
pub fn set_state_change_position_begin(
    cursor_position: Option<Point>,
    state_change_position_begin: &mut StateChangePositionBegin,
)
    ensures
        final(state_change_position_begin).0 == if cursor_position is Some {
            cursor_position
        } else {
            old(state_change_position_begin).0
        },
{
    if let Some(position) = cursor_position {
        *state_change_position_begin = StateChangePositionBegin(Some(position));
    }
}

/// Moves the camera with the pointer during a drag: the camera stands where
/// it stood when the drag began, moved by the pointer's way since then,
/// mirrored in x and multiplied by the scale. Nothing happens while the
/// pointer is outside the window, or was when the drag began.
pub fn update_camera(
    cursor_position: Option<Point>,
    camera: &mut MainCamera,
    camera_transform_org: &CameraBeginTransform,
    state_change_position_begin: &StateChangePositionBegin,
)
    ensures
        *final(camera) == old(camera).dragged(
            camera_transform_org.0,
            state_change_position_begin.0,
            cursor_position,
        ),
{
    if let Some(window_point) = cursor_position {
        if let Some(cursor_org) = state_change_position_begin.0 {
            let scale: i128 = camera.scale as i128;
            let dx: i128 = window_point.x as i128 - cursor_org.x as i128;
            let dy: i128 = window_point.y as i128 - cursor_org.y as i128;
            proof {
                lemma_product_bound(-dx as int, scale as int);
                lemma_product_bound(dy as int, scale as int);
                assert(dx * (-1) * scale == (-dx) * scale) by (nonlinear_arith);
                assert(dy * 1 * scale == dy * scale) by (nonlinear_arith);
            }
            let x: i32 = saturate(camera_transform_org.0.x as i128 + (-dx) * scale);
            let y: i32 = saturate(camera_transform_org.0.y as i128 + dy * scale);
            camera.translation = Point { x, y };
        }
    }
}

/// Applies the wheel events of one tick to the camera, in their order: each
/// zooms, or scrolls while the modifier is held.
pub fn control_proj(camera: &mut MainCamera, mouse_wheel_events: &Vec<i32>, modifier: bool)
    ensures
        *final(camera) == old(camera).wheeled_all(mouse_wheel_events@, modifier),
{
    let mut i: usize = 0;
    while i < mouse_wheel_events.len()
        invariant
            i <= mouse_wheel_events.len(),
            *camera == old(camera).wheeled_all(mouse_wheel_events@.take(i as int), modifier),
        decreases mouse_wheel_events.len() - i,
    {
        assert(mouse_wheel_events@.take(i + 1).drop_last() =~= mouse_wheel_events@.take(i as int));
        camera.zoom(mouse_wheel_events[i], modifier);
        i += 1;
    }
    assert(mouse_wheel_events@.take(i as int) =~= mouse_wheel_events@);
}

/// Dragging the camera from one pointer position to another and, with the
/// camera's new place as the start, back again brings the camera back to
/// where it stood, as long as the first drag does not reach the end of a
/// coordinate's range.
pub proof fn lemma_pan_round_trip(
    begin_transform: Point,
    begin_position: Point,
    position: Point,
    scale: i32,
)
    requires
        pan_fits(begin_transform, begin_position, position, scale),
    ensures
        panned(
            panned(begin_transform, begin_position, position, scale),
            position,
            begin_position,
            scale,
        ) == begin_transform,
{
    let dx = position.x - begin_position.x;
    let dy = position.y - begin_position.y;
    assert(dx * (-1) * scale + (-dx) * (-1) * scale == 0) by (nonlinear_arith);
    assert(dy * 1 * scale + (-dy) * 1 * scale == 0) by (nonlinear_arith);
    assert(begin_position.x - position.x == -dx);
    assert(begin_position.y - position.y == -dy);
}

} // verus!
