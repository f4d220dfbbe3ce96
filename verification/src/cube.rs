//! The cube game: move a coloured square around the screen with the
//! direction buttons, change its colour with A and leave with B.

use vstd::prelude::*;

verus! {

/// Distance the cube moves per press or repeat, in pixels.
pub const STEP: i32 = 8;

/// How often held direction buttons move the cube again, in milliseconds.
pub const REPEAT_INTERVAL_MS: u64 = 50;

pub const MAX_X: i32 = 280;

pub const MAX_Y: i32 = 200;

pub const START_X: i32 = 144;

pub const START_Y: i32 = 104;

/// The cube colours, as red, green and blue components.
pub open spec fn colors() -> Seq<(u8, u8, u8)> {
    seq![(229u8, 57u8, 53u8), (30u8, 136u8, 229u8), (67u8, 160u8, 71u8), (251u8, 140u8, 0u8), (142u8, 36u8, 170u8), (0u8, 137u8, 123u8)]
}

pub const COLOR_COUNT: usize = 6;

/// The red, green and blue components of cube colour `index`.
pub fn cube_color(index: usize) -> (rgb: (u8, u8, u8))
    requires
        index < COLOR_COUNT,
    ensures
        rgb == colors()[index as int],
{
    match index {
        0 => (229, 57, 53),
        1 => (30, 136, 229),
        2 => (67, 160, 71),
        3 => (251, 140, 0),
        4 => (142, 36, 170),
        _ => (0, 137, 123),
    }
}

/// `v` limited to `lo ..= hi`.
pub open spec fn clamp(v: int, lo: int, hi: int) -> int {
    if v < lo {
        lo
    } else if v > hi {
        hi
    } else {
        v
    }
}

/// One input of the cube game.
#[derive(Clone, Copy, Debug, PartialEq, Eq, Structural)]
pub enum CubeInput {
    Up,
    Down,
    Left,
    Right,
    /// The colour button (A).
    Color,
    /// The exit button (B).
    Exit,
    /// No press within the repeat interval; the flags say which direction
    /// buttons are held.
    Repeat { up: bool, down: bool, left: bool, right: bool },
}

/// What the UI has to do after an input.
#[derive(Clone, Copy, Debug, PartialEq, Eq, Structural)]
pub enum CubeEffect {
    /// Draw the cube at its (possibly unchanged) position.
    Move,
    /// Change the cube's colour and draw it at its position.
    Recolor,
    /// Hide the UI and leave the app.
    Exit,
}

/// Position and colour of the cube.
#[derive(Clone, Copy, Debug, PartialEq, Eq, Structural)]
pub struct CubeState {
    pub x: i32,
    pub y: i32,
    pub color_index: usize,
}

/// The state after `input`: presses move one step, repeats move one step
/// along each axis whose buttons are unbalanced, and the cube stays within
/// `0 ..= MAX_X` by `0 ..= MAX_Y`.
pub open spec fn cube_after(s: CubeState, input: CubeInput) -> CubeState {
    match input {
        CubeInput::Up => CubeState { y: clamp(s.y - STEP, 0, MAX_Y as int) as i32, ..s },
        CubeInput::Down => CubeState { y: clamp(s.y + STEP, 0, MAX_Y as int) as i32, ..s },
        CubeInput::Left => CubeState { x: clamp(s.x - STEP, 0, MAX_X as int) as i32, ..s },
        CubeInput::Right => CubeState { x: clamp(s.x + STEP, 0, MAX_X as int) as i32, ..s },
        CubeInput::Color => CubeState { color_index: ((s.color_index + 1) % (COLOR_COUNT as int)) as usize, ..s },
        CubeInput::Exit => s,
        CubeInput::Repeat { up, down, left, right } => {
            let horizontal = (if right { 1int } else { 0int }) - (if left { 1int } else { 0int });
            let vertical = (if down { 1int } else { 0int }) - (if up { 1int } else { 0int });
            CubeState {
                x: clamp(s.x + horizontal * STEP, 0, MAX_X as int) as i32,
                y: clamp(s.y + vertical * STEP, 0, MAX_Y as int) as i32,
                ..s
            }
        },
    }
}

impl CubeState {
    pub open spec fn wf(&self) -> bool {
        &&& 0 <= self.x <= MAX_X
        &&& 0 <= self.y <= MAX_Y
        &&& self.color_index < COLOR_COUNT
    }

    /// The cube in the middle of the screen, in the first colour.
    pub fn new() -> (s: Self)
        ensures
            s.wf(),
            s == (CubeState { x: START_X, y: START_Y, color_index: 0 }),
    {
        CubeState { x: START_X, y: START_Y, color_index: 0 }
    }

    /// Handles one input.
    pub fn step(&mut self, input: CubeInput) -> (effect: CubeEffect)
        requires
            old(self).wf(),
        ensures
            final(self).wf(),
            *final(self) == cube_after(*old(self), input),
            effect == match input {
                CubeInput::Color => CubeEffect::Recolor,
                CubeInput::Exit => CubeEffect::Exit,
                _ => CubeEffect::Move,
            },
    {
        match input {
            CubeInput::Up => {
                self.y = clamp_i32(self.y - STEP, 0, MAX_Y);
                CubeEffect::Move
            },
            CubeInput::Down => {
                self.y = clamp_i32(self.y + STEP, 0, MAX_Y);
                CubeEffect::Move
            },
            CubeInput::Left => {
                self.x = clamp_i32(self.x - STEP, 0, MAX_X);
                CubeEffect::Move
            },
            CubeInput::Right => {
                self.x = clamp_i32(self.x + STEP, 0, MAX_X);
                CubeEffect::Move
            },
            CubeInput::Color => {
                self.color_index = (self.color_index + 1) % COLOR_COUNT;
                CubeEffect::Recolor
            },
            CubeInput::Exit => CubeEffect::Exit,
            CubeInput::Repeat { up, down, left, right } => {
                let horizontal: i32 = (if right { 1i32 } else { 0i32 }) - (if left { 1i32 } else { 0i32 });
                let vertical: i32 = (if down { 1i32 } else { 0i32 }) - (if up { 1i32 } else { 0i32 });
                self.x = clamp_i32(self.x + horizontal * STEP, 0, MAX_X);
                self.y = clamp_i32(self.y + vertical * STEP, 0, MAX_Y);
                CubeEffect::Move
            },
        }
    }
}

/// `v` limited to `lo ..= hi`.
fn clamp_i32(v: i32, lo: i32, hi: i32) -> (c: i32)
    requires
        lo <= hi,
    ensures
        c == clamp(v as int, lo as int, hi as int),
{
    if v < lo {
        lo
    } else if v > hi {
        hi
    } else {
        v
    }
}

/// How the cube moves: down is 8 pixels more on y and up 8 pixels less,
/// right is 8 pixels more on x and left 8 less, stopping at the screen's
/// edges (0 to 280 across, 0 to 200 down); a direction press moves along
/// its own axis only, and colour and exit presses do not move the cube.
/// Held buttons repeat the move of each direction held alone.
pub proof fn lemma_cube_moves(s: CubeState)
    requires
        s.wf(),
    ensures
        cube_after(s, CubeInput::Down).y == if s.y + 8 <= 200 { s.y + 8 } else { 200 },
        cube_after(s, CubeInput::Up).y == if s.y - 8 >= 0 { s.y - 8 } else { 0 },
        cube_after(s, CubeInput::Right).x == if s.x + 8 <= 280 { s.x + 8 } else { 280 },
        cube_after(s, CubeInput::Left).x == if s.x - 8 >= 0 { s.x - 8 } else { 0 },
        cube_after(s, CubeInput::Down).x == s.x && cube_after(s, CubeInput::Up).x == s.x,
        cube_after(s, CubeInput::Left).y == s.y && cube_after(s, CubeInput::Right).y == s.y,
        cube_after(s, CubeInput::Color).x == s.x && cube_after(s, CubeInput::Color).y == s.y,
        cube_after(s, CubeInput::Exit) == s,
        cube_after(s, CubeInput::Repeat { up: false, down: true, left: false, right: false }) == cube_after(s, CubeInput::Down),
        cube_after(s, CubeInput::Repeat { up: true, down: false, left: false, right: false }) == cube_after(s, CubeInput::Up),
        cube_after(s, CubeInput::Repeat { up: false, down: false, left: true, right: false }) == cube_after(s, CubeInput::Left),
        cube_after(s, CubeInput::Repeat { up: false, down: false, left: false, right: true }) == cube_after(s, CubeInput::Right),
        forall|l: bool, r: bool| #[trigger] cube_after(s, CubeInput::Repeat { up: true, down: true, left: l, right: r }).y == s.y,
        forall|u: bool, d: bool| #[trigger] cube_after(s, CubeInput::Repeat { up: u, down: d, left: true, right: true }).x == s.x,
        cube_after(s, CubeInput::Repeat { up: false, down: false, left: false, right: false }) == s,
        cube_after(s, CubeInput::Color).color_index == if s.color_index == 5 { 0 } else { s.color_index + 1 },
{
}

/// Down and up undo each other away from the edges: from a cube at least 8
/// pixels from the top and the bottom, down then up, or up then down,
/// returns it where it was.
pub proof fn lemma_down_up_undo(s: CubeState)
    requires
        s.wf(),
        8 <= s.y <= 192,
    ensures
        cube_after(cube_after(s, CubeInput::Down), CubeInput::Up) == s,
        cube_after(cube_after(s, CubeInput::Up), CubeInput::Down) == s,
        cube_after(s, CubeInput::Down).y > s.y,
        cube_after(s, CubeInput::Up).y < s.y,
{
}

} // verus!
