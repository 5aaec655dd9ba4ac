use vstd::prelude::*;

verus! {

/// A point on the screen, in pixels.
#[derive(Copy, Clone, Debug, PartialEq, Eq, Structural)]
pub struct Coordinates {
    pub x: i32,
    pub y: i32,
}

/// An event for a box that the user moves and zooms.
#[derive(Copy, Clone, Debug, PartialEq, Eq, Structural)]
pub enum Message {
    /// Back to the start: no offset and full scale.
    Reposition,
    /// The pointer moved to these coordinates.
    Move(Coordinates),
    MouseUp,
    MouseDown(Coordinates),
    ZoomIn(u32),
    ZoomOut(u32),
    ToggleLock,
}

/// Where a movable box stands: its offset, the last pointer position seen, its
/// scale in percent, and whether it is being moved or is locked in place.
#[derive(Copy, Clone, Debug, PartialEq, Eq, Structural)]
pub struct MovableBoxed {
    pub translate: Coordinates,
    pub last_move: Coordinates,
    pub scale: u32,
    pub is_moving: bool,
    pub is_locked: bool,
}

/// `a - b`, held to the range of `i32`.
pub open spec fn sat_sub(a: int, b: int) -> int {
    if a - b > i32::MAX {
        i32::MAX as int
    } else if a - b < i32::MIN {
        i32::MIN as int
    } else {
        a - b
    }
}

pub fn saturating_sub_i32(a: i32, b: i32) -> (r: i32)
    ensures
        r == sat_sub(a as int, b as int),
{
    let d: i64 = a as i64 - b as i64;
    if d > i32::MAX as i64 {
        i32::MAX
    } else if d < i32::MIN as i64 {
        i32::MIN
    } else {
        d as i32
    }
}

impl MovableBoxed {
    /// The state a box starts in.
    pub open spec fn initial() -> MovableBoxed {
        MovableBoxed {
            translate: Coordinates { x: 0, y: 0 },
            last_move: Coordinates { x: 0, y: 0 },
            scale: 100,
            is_moving: false,
            is_locked: false,
        }
    }

    /// The state after a message. A move shifts the offset by how far the
    /// pointer went since it was last seen.
    pub open spec fn next(self, msg: Message) -> MovableBoxed {
        match msg {
            Message::Reposition => MovableBoxed { translate: Coordinates { x: 0, y: 0 }, scale: 100, ..self },
            Message::Move(c) => MovableBoxed {
                translate: Coordinates {
                    x: sat_sub(self.translate.x as int, sat_sub(self.last_move.x as int, c.x as int)) as i32,
                    y: sat_sub(self.translate.y as int, sat_sub(self.last_move.y as int, c.y as int)) as i32,
                },
                last_move: c,
                ..self
            },
            Message::MouseDown(c) => MovableBoxed { last_move: c, is_moving: true, ..self },
            Message::MouseUp => MovableBoxed { is_moving: false, ..self },
            Message::ZoomIn(a) => MovableBoxed {
                scale: if self.scale + a > u32::MAX {
                    u32::MAX
                } else {
                    (self.scale + a) as u32
                },
                ..self
            },
            Message::ZoomOut(a) => MovableBoxed {
                scale: if self.scale < a {
                    0
                } else {
                    (self.scale - a) as u32
                },
                ..self
            },
            Message::ToggleLock => MovableBoxed { is_locked: !self.is_locked, ..self },
        }
    }

    pub fn create() -> (r: MovableBoxed)
        ensures
            r == MovableBoxed::initial(),
    {
        MovableBoxed {
            translate: Coordinates { x: 0, y: 0 },
            last_move: Coordinates { x: 0, y: 0 },
            scale: 100,
            is_moving: false,
            is_locked: false,
        }
    }

    /// New contents put the box back at its start.
    pub fn changed(&mut self) -> (r: bool)
        ensures
            *final(self) == old(self).next(Message::Reposition),
            r,
    {
        self.update(Message::Reposition)
    }

    /// Applies a message; the box is drawn again after every one.
    pub fn update(&mut self, msg: Message) -> (r: bool)
        ensures
            *final(self) == old(self).next(msg),
            r,
    {
        match msg {
            Message::Reposition => {
                self.translate = Coordinates { x: 0, y: 0 };
                self.scale = 100;
            },
            Message::Move(coords) => {
                self.translate.x = saturating_sub_i32(self.translate.x, saturating_sub_i32(self.last_move.x, coords.x));
                self.translate.y = saturating_sub_i32(self.translate.y, saturating_sub_i32(self.last_move.y, coords.y));
                self.last_move = coords;
            },
            Message::MouseDown(coords) => {
                self.last_move = coords;
                self.is_moving = true;
            },
            Message::MouseUp => {
                self.is_moving = false;
            },
            Message::ZoomIn(amount) => {
                self.scale = self.scale.saturating_add(amount);
            },
            Message::ZoomOut(amount) => {
                self.scale = self.scale.saturating_sub(amount);
            },
            Message::ToggleLock => {
                self.is_locked = !self.is_locked;
            },
        }
        true
    }
}

} // verus!
