//! Neon Beat, the rhythm game: notes fall down four lanes and the player
//! presses the lane's button when a note crosses the target line.

use vstd::prelude::*;

verus! {

/// Tick interval of each level, in milliseconds.
pub const LEVEL_TICK_MS: [u64; 3] = [80, 32, 25];

/// Beats per minute shown for each level.
pub const LEVEL_BPMS: [i32; 3] = [75, 94, 120];

pub const SPAWN_INTERVAL_TICKS: u32 = 10;

pub const SPAWN_Y: i16 = 38;

pub const TARGET_Y: i16 = 179;

pub const NOTE_SPEED: i16 = 3;

pub const PERFECT_WINDOW: i16 = 5;

pub const GOOD_WINDOW: i16 = 13;

pub const MAX_NOTES: usize = 8;

pub const STARTING_HEALTH: u8 = 100;

pub const GHOST_TAP_DAMAGE: u8 = 6;

pub const MISSED_NOTE_DAMAGE: u8 = 12;

pub const FLASH_TICKS: u8 = 4;

/// Number of notes in the chart before it repeats.
pub const CHART_LEN: usize = 32;

/// One of the four note lanes.
#[derive(Clone, Copy, Debug, PartialEq, Eq, Structural)]
pub enum Lane {
    Left,
    Down,
    Up,
    Right,
}

pub open spec fn lane_index(lane: Lane) -> i32 {
    match lane {
        Lane::Left => 0,
        Lane::Down => 1,
        Lane::Up => 2,
        Lane::Right => 3,
    }
}

impl Lane {
    /// Position of the lane on screen, from the left.
    pub fn index(self) -> (index: i32)
        ensures
            index == lane_index(self),
    {
        match self {
            Lane::Left => 0,
            Lane::Down => 1,
            Lane::Up => 2,
            Lane::Right => 3,
        }
    }
}

/// The note chart: the lane of each spawned note, cycling.
pub open spec fn chart() -> Seq<Lane> {
    seq![
        Lane::Left,
        Lane::Down,
        Lane::Up,
        Lane::Right,
        Lane::Left,
        Lane::Up,
        Lane::Down,
        Lane::Right,
        Lane::Left,
        Lane::Right,
        Lane::Down,
        Lane::Up,
        Lane::Down,
        Lane::Left,
        Lane::Right,
        Lane::Up,
        Lane::Left,
        Lane::Down,
        Lane::Left,
        Lane::Right,
        Lane::Up,
        Lane::Right,
        Lane::Down,
        Lane::Up,
        Lane::Right,
        Lane::Left,
        Lane::Up,
        Lane::Down,
        Lane::Left,
        Lane::Right,
        Lane::Up,
        Lane::Down,
    ]
}

/// Lane of chart entry `index`.
pub fn chart_lane(index: usize) -> (lane: Lane)
    requires
        index < CHART_LEN,
    ensures
        lane == chart()[index as int],
{
    let table: [Lane; 32] = [
        Lane::Left,
        Lane::Down,
        Lane::Up,
        Lane::Right,
        Lane::Left,
        Lane::Up,
        Lane::Down,
        Lane::Right,
        Lane::Left,
        Lane::Right,
        Lane::Down,
        Lane::Up,
        Lane::Down,
        Lane::Left,
        Lane::Right,
        Lane::Up,
        Lane::Left,
        Lane::Down,
        Lane::Left,
        Lane::Right,
        Lane::Up,
        Lane::Right,
        Lane::Down,
        Lane::Up,
        Lane::Right,
        Lane::Left,
        Lane::Up,
        Lane::Down,
        Lane::Left,
        Lane::Right,
        Lane::Up,
        Lane::Down,
    ];
    proof {
        assert(table@ =~= chart());
    }
    table[index]
}

/// A note falling down its lane.
#[derive(Clone, Copy, Debug, PartialEq, Eq, Structural)]
pub struct FallingNote {
    pub lane: Lane,
    pub y: i16,
}

/// A note as the UI draws it.
#[derive(Clone, Copy, Debug, PartialEq, Eq, Structural)]
pub struct BeatNote {
    pub lane: i32,
    pub y: i32,
}

/// The rating of the last hit or miss.
#[derive(Clone, Copy, Debug, PartialEq, Eq, Structural)]
pub enum Judgement {
    Ready,
    Perfect,
    Good,
    Miss,
}

pub open spec fn judgement_kind(j: Judgement) -> i32 {
    match j {
        Judgement::Ready => 0,
        Judgement::Perfect => 1,
        Judgement::Good => 2,
        Judgement::Miss => 3,
    }
}

impl Judgement {
    /// Text shown for the judgement.
    pub fn label(self) -> (label: &'static str)
        ensures
            self == Judgement::Ready ==> label@ == "GET READY"@,
            self == Judgement::Perfect ==> label@ == "PERFECT!"@,
            self == Judgement::Good ==> label@ == "GOOD"@,
            self == Judgement::Miss ==> label@ == "MISS"@,
    {
        match self {
            Judgement::Ready => "GET READY",
            Judgement::Perfect => "PERFECT!",
            Judgement::Good => "GOOD",
            Judgement::Miss => "MISS",
        }
    }

    /// Number the UI uses to style the judgement.
    pub fn kind(self) -> (kind: i32)
        ensures
            kind == judgement_kind(self),
    {
        match self {
            Judgement::Ready => 0,
            Judgement::Perfect => 1,
            Judgement::Good => 2,
            Judgement::Miss => 3,
        }
    }
}

// ── the fixed-capacity note buffer ───────────────────────────────────────

/// The notes held by a note buffer, in order.
pub uninterp spec fn note_buffer(buffer: heapless::Vec<FallingNote, 8>) -> Seq<FallingNote>;

/// `heapless::Vec::new`: an empty buffer.
#[verifier::external_body]
fn notes_new() -> (buffer: heapless::Vec<FallingNote, 8>)
    ensures
        note_buffer(buffer) == Seq::<FallingNote>::empty(),
{
    heapless::Vec::new()
}

/// The length of a note buffer (`len` of the slice it derefs to); a buffer
/// never holds more than its capacity of 8.
#[verifier::external_body]
fn notes_len(buffer: &heapless::Vec<FallingNote, 8>) -> (len: usize)
    ensures
        len == note_buffer(*buffer).len(),
        len <= 8,
{
    buffer.len()
}

/// Reads note `index` (slice indexing through `Deref`).
#[verifier::external_body]
fn notes_get(buffer: &heapless::Vec<FallingNote, 8>, index: usize) -> (note: FallingNote)
    requires
        index < note_buffer(*buffer).len(),
    ensures
        note == note_buffer(*buffer)[index as int],
{
    buffer[index]
}

/// Overwrites note `index` (slice indexing through `DerefMut`).
#[verifier::external_body]
fn notes_set(buffer: &mut heapless::Vec<FallingNote, 8>, index: usize, note: FallingNote)
    requires
        index < note_buffer(*old(buffer)).len(),
    ensures
        note_buffer(*final(buffer)) == note_buffer(*old(buffer)).update(index as int, note),
{
    buffer[index] = note;
}

/// `heapless::Vec::push`: appends unless the buffer is full, in which case
/// the buffer is unchanged; returns whether the note was appended.
#[verifier::external_body]
fn notes_push(buffer: &mut heapless::Vec<FallingNote, 8>, note: FallingNote) -> (pushed: bool)
    ensures
        pushed == (note_buffer(*old(buffer)).len() < 8),
        pushed ==> note_buffer(*final(buffer)) == note_buffer(*old(buffer)).push(note),
        !pushed ==> note_buffer(*final(buffer)) == note_buffer(*old(buffer)),
{
    buffer.push(note).is_ok()
}

/// `heapless::Vec::remove`: removes note `index`, shifting the later ones.
#[verifier::external_body]
fn notes_remove(buffer: &mut heapless::Vec<FallingNote, 8>, index: usize) -> (note: FallingNote)
    requires
        index < note_buffer(*old(buffer)).len(),
    ensures
        note == note_buffer(*old(buffer))[index as int],
        note_buffer(*final(buffer)) == note_buffer(*old(buffer)).remove(index as int),
{
    buffer.remove(index)
}

// ── game model ───────────────────────────────────────────────────────────

/// The state of a game as specifications see it.
pub struct GameView {
    pub notes: Seq<FallingNote>,
    pub chart_index: int,
    pub tick: u32,
    pub score: u32,
    pub combo: u16,
    pub health: u8,
    pub judgement: Judgement,
    pub active_lane: Option<Lane>,
    pub flash_ticks: u8,
}

pub open spec fn sat_add_u8(a: u8, b: u8) -> u8 {
    if a + b > u8::MAX { u8::MAX } else { (a + b) as u8 }
}

pub open spec fn sat_sub_u8(a: u8, b: u8) -> u8 {
    if a < b { 0 } else { (a - b) as u8 }
}

pub open spec fn sat_add_u16(a: u16, b: u16) -> u16 {
    if a + b > u16::MAX { u16::MAX } else { (a + b) as u16 }
}

pub open spec fn sat_add_u32(a: u32, b: u32) -> u32 {
    if a + b > u32::MAX { u32::MAX } else { (a + b) as u32 }
}

/// Distance of a note from the target line.
pub open spec fn distance(note: FallingNote) -> int {
    let d = note.y - TARGET_Y;
    if d < 0 { -d } else { d }
}

/// The note of `lane` closest to the target line, as `(index, distance)`;
/// among equally close notes the first one.
pub open spec fn closest_in_lane(notes: Seq<FallingNote>, lane: Lane) -> Option<(int, int)>
    decreases notes.len(),
{
    if notes.len() == 0 {
        None
    } else {
        let before = closest_in_lane(notes.drop_last(), lane);
        let last = notes.last();
        let closer = match before {
            None => true,
            Some(found) => distance(last) < found.1,
        };
        if last.lane == lane && closer {
            Some((notes.len() - 1, distance(last)))
        } else {
            before
        }
    }
}

/// The effect of a miss: the combo is lost, `damage` is taken.
pub open spec fn missed(g: GameView, damage: u8) -> GameView {
    GameView { combo: 0, health: sat_sub_u8(g.health, damage), judgement: Judgement::Miss, ..g }
}

/// The game after the player presses the button of `lane`.
pub open spec fn pressed(g: GameView, lane: Lane) -> GameView {
    let flashed = GameView { active_lane: Some(lane), flash_ticks: FLASH_TICKS, ..g };
    match closest_in_lane(g.notes, lane) {
        None => missed(flashed, GHOST_TAP_DAMAGE),
        Some((index, d)) => if d > GOOD_WINDOW {
            missed(flashed, GHOST_TAP_DAMAGE)
        } else {
            let combo = sat_add_u16(g.combo, 1);
            let bonus = (combo * 10) as u32;
            if d <= PERFECT_WINDOW {
                GameView {
                    notes: g.notes.remove(index),
                    combo,
                    score: sat_add_u32(g.score, (1000 + bonus) as u32),
                    health: if sat_add_u8(g.health, 2) < STARTING_HEALTH {
                        sat_add_u8(g.health, 2)
                    } else {
                        STARTING_HEALTH
                    },
                    judgement: Judgement::Perfect,
                    ..flashed
                }
            } else {
                GameView {
                    notes: g.notes.remove(index),
                    combo,
                    score: sat_add_u32(g.score, (500 + bonus) as u32),
                    health: if sat_add_u8(g.health, 1) < STARTING_HEALTH {
                        sat_add_u8(g.health, 1)
                    } else {
                        STARTING_HEALTH
                    },
                    judgement: Judgement::Good,
                    ..flashed
                }
            }
        },
    }
}

/// What `closest_in_lane` finds: a note of the lane no farther from the
/// target line than any other note of the lane, or none when the lane has
/// no note.
proof fn lemma_closest_in_lane(notes: Seq<FallingNote>, lane: Lane)
    ensures
        match closest_in_lane(notes, lane) {
            None => forall|j: int| 0 <= j < notes.len() ==> (#[trigger] notes[j]).lane != lane,
            Some((i, d)) => {
                &&& 0 <= i < notes.len()
                &&& notes[i].lane == lane
                &&& d == distance(notes[i])
                &&& forall|j: int| 0 <= j < notes.len() && (#[trigger] notes[j]).lane == lane ==> distance(notes[j]) >= d
            },
        },
    decreases notes.len(),
{
    if notes.len() > 0 {
        let rest = notes.drop_last();
        lemma_closest_in_lane(rest, lane);
        assert forall|j: int| 0 <= j < rest.len() implies rest[j] == notes[j] by {}
    }
}

/// How a press is judged, by the distance of the lane's notes from the
/// target line at y 179: with no note of the lane within 13 pixels it is a
/// miss that costs 6 health, loses the combo and leaves the notes; with
/// one, that note is hit and removed and the combo grows by one; the hit
/// is perfect, for 1000 points plus 10 per combo, when some note of the
/// lane is within 5 pixels, and good, for 500 points plus 10 per combo,
/// when the lane's nearest note is 6 to 13 pixels away.
pub proof fn lemma_press_judged_by_distance(g: GameView, lane: Lane)
    ensures
        ({
            let after = pressed(g, lane);
            let n = g.notes;
            let combo = if g.combo == 65535 { 65535int } else { g.combo + 1 };
            &&& (forall|i: int| 0 <= i < n.len() && (#[trigger] n[i]).lane == lane ==> (if n[i].y >= 179 {
                n[i].y - 179
            } else {
                179 - n[i].y
            }) > 13) ==> {
                &&& after.judgement == Judgement::Miss
                &&& after.combo == 0
                &&& after.notes == n
                &&& after.score == g.score
                &&& after.health == if g.health >= 6 { g.health - 6 } else { 0 }
            }
            &&& (exists|i: int| 0 <= i < n.len() && (#[trigger] n[i]).lane == lane && (if n[i].y >= 179 {
                n[i].y - 179
            } else {
                179 - n[i].y
            }) <= 13) ==> {
                &&& after.judgement != Judgement::Miss
                &&& after.combo == combo
                &&& exists|i: int|
                    0 <= i < n.len() && (#[trigger] n[i]).lane == lane && (if n[i].y >= 179 {
                        n[i].y - 179
                    } else {
                        179 - n[i].y
                    }) <= 13 && after.notes == n.remove(i)
            }
            &&& (exists|i: int| 0 <= i < n.len() && (#[trigger] n[i]).lane == lane && (if n[i].y >= 179 {
                n[i].y - 179
            } else {
                179 - n[i].y
            }) <= 5) ==> {
                &&& after.judgement == Judgement::Perfect
                &&& after.score == if g.score + 1000 + 10 * combo > u32::MAX { u32::MAX as int } else { g.score + 1000 + 10 * combo }
            }
            &&& (exists|i: int| 0 <= i < n.len() && (#[trigger] n[i]).lane == lane && (if n[i].y >= 179 {
                n[i].y - 179
            } else {
                179 - n[i].y
            }) <= 13) && (forall|i: int| 0 <= i < n.len() && (#[trigger] n[i]).lane == lane ==> (if n[i].y >= 179 {
                n[i].y - 179
            } else {
                179 - n[i].y
            }) >= 6) ==> {
                &&& after.judgement == Judgement::Good
                &&& after.score == if g.score + 500 + 10 * combo > u32::MAX { u32::MAX as int } else { g.score + 500 + 10 * combo }
            }
        }),
{
    lemma_closest_in_lane(g.notes, lane);
}

/// Whether a note is still above the end of the hit window.
pub open spec fn on_screen(note: FallingNote) -> bool {
    note.y <= TARGET_Y + GOOD_WINDOW
}

/// The notes that are still on screen, in order.
pub open spec fn kept_notes(notes: Seq<FallingNote>) -> Seq<FallingNote>
    decreases notes.len(),
{
    if notes.len() == 0 {
        Seq::empty()
    } else if on_screen(notes.last()) {
        kept_notes(notes.drop_last()).push(notes.last())
    } else {
        kept_notes(notes.drop_last())
    }
}

/// Every note moved one step down.
pub open spec fn fallen(notes: Seq<FallingNote>) -> Seq<FallingNote> {
    notes.map_values(|n: FallingNote| FallingNote { lane: n.lane, y: (n.y + NOTE_SPEED) as i16 })
}

/// The game with the next chart note added (dropped if the buffer is full).
pub open spec fn spawned(g: GameView) -> GameView {
    GameView {
        notes: if g.notes.len() < MAX_NOTES {
            g.notes.push(FallingNote { lane: chart()[g.chart_index], y: SPAWN_Y })
        } else {
            g.notes
        },
        chart_index: (g.chart_index + 1) % (CHART_LEN as int),
        ..g
    }
}

/// The game after one tick, and whether a note was missed during it.
pub open spec fn advanced(g: GameView) -> (GameView, bool) {
    let tick = if g.tick == u32::MAX { 0u32 } else { (g.tick + 1) as u32 };
    let flash = if g.flash_ticks > 0 { (g.flash_ticks - 1) as u8 } else { 0u8 };
    let active = if g.flash_ticks > 0 && flash == 0 { None } else { g.active_lane };
    let moved = fallen(g.notes);
    let kept = kept_notes(moved);
    let missed_count = moved.len() - kept.len();
    let after_miss = if missed_count > 0 {
        GameView {
            combo: 0,
            health: if g.health < missed_count * MISSED_NOTE_DAMAGE {
                0u8
            } else {
                (g.health - missed_count * MISSED_NOTE_DAMAGE) as u8
            },
            judgement: Judgement::Miss,
            ..g
        }
    } else {
        g
    };
    let ticked = GameView {
        notes: kept,
        tick,
        flash_ticks: flash,
        active_lane: active,
        ..after_miss
    };
    let result = if tick % SPAWN_INTERVAL_TICKS == 0 && ticked.health != 0 {
        spawned(ticked)
    } else {
        ticked
    };
    (result, missed_count > 0)
}

/// The kept notes are the notes still on screen, in order: none is lost
/// unless it left the screen.
proof fn lemma_kept_notes(notes: Seq<FallingNote>)
    ensures
        kept_notes(notes).len() <= notes.len(),
        (kept_notes(notes).len() == notes.len()) <==> forall|i: int| 0 <= i < notes.len() ==> on_screen(#[trigger] notes[i]),
        forall|j: int| 0 <= j < kept_notes(notes).len() ==> on_screen(#[trigger] kept_notes(notes)[j]) && exists|i: int|
            0 <= i < notes.len() && notes[i] == kept_notes(notes)[j],
    decreases notes.len(),
{
    if notes.len() > 0 {
        let rest = notes.drop_last();
        lemma_kept_notes(rest);
        let k = kept_notes(notes);
        let kr = kept_notes(rest);
        assert forall|i: int| 0 <= i < rest.len() implies rest[i] == notes[i] by {}
        if !on_screen(notes.last()) {
            assert(k.len() < notes.len());
        }
        assert forall|j: int| 0 <= j < k.len() implies on_screen(#[trigger] k[j]) && exists|i: int|
            0 <= i < notes.len() && notes[i] == k[j] by {
            if j < kr.len() {
                assert(k[j] == kr[j]);
                let i = choose|i: int| 0 <= i < rest.len() && rest[i] == kr[j];
                assert(notes[i] == k[j]);
            } else {
                assert(k[j] == notes.last());
                assert(notes[notes.len() - 1] == k[j]);
            }
        }
        if k.len() == notes.len() {
            assert forall|i: int| 0 <= i < notes.len() implies on_screen(#[trigger] notes[i]) by {
                if i < rest.len() {
                    assert(rest[i] == notes[i]);
                }
            }
        }
    }
}

/// What a tick does to the notes: each note falls 3 pixels; a note that
/// falls past y 192 (13 below the target line) is missed, which breaks the
/// combo, judges Miss and costs 12 health per missed note (down to 0); no
/// tick scores points. The notes after the tick are fallen notes of before,
/// except possibly one new note at the bottom of the list at y 38.
pub proof fn lemma_tick_moves_notes(g: GameView)
    requires
        game_wf(g),
    ensures
        ({
            let (after, missed) = advanced(g);
            &&& missed <==> exists|i: int| 0 <= i < g.notes.len() && (#[trigger] g.notes[i]).y + 3 > 192
            &&& missed ==> after.combo == 0 && after.judgement == Judgement::Miss && after.health <= if g.health >= 12 {
                g.health - 12
            } else {
                0
            }
            &&& !missed ==> after.combo == g.combo && after.judgement == g.judgement && after.health == g.health
            &&& after.score == g.score
            &&& forall|j: int|
                0 <= j < after.notes.len() ==> (exists|i: int|
                    0 <= i < g.notes.len() && #[trigger] after.notes[j] == (FallingNote {
                        lane: g.notes[i].lane,
                        y: (g.notes[i].y + 3) as i16,
                    })) || (j == after.notes.len() - 1 && after.notes[j].y == 38)
        }),
{
    let moved = fallen(g.notes);
    lemma_kept_notes(moved);
    let kept = kept_notes(moved);
    let (after, missed) = advanced(g);
    assert forall|i: int| 0 <= i < g.notes.len() implies (#[trigger] moved[i]) == (FallingNote {
        lane: g.notes[i].lane,
        y: (g.notes[i].y + 3) as i16,
    }) && (on_screen(moved[i]) <==> g.notes[i].y + 3 <= 192) by {}
    if missed {
        let i = choose|i: int| 0 <= i < moved.len() && !on_screen(#[trigger] moved[i]);
        assert(g.notes[i].y + 3 > 192);
    }
    if exists|i: int| 0 <= i < g.notes.len() && (#[trigger] g.notes[i]).y + 3 > 192 {
        let i = choose|i: int| 0 <= i < g.notes.len() && (#[trigger] g.notes[i]).y + 3 > 192;
        assert(!on_screen(moved[i]));
    }
    assert forall|j: int| 0 <= j < after.notes.len() implies (exists|i: int|
        0 <= i < g.notes.len() && #[trigger] after.notes[j] == (FallingNote {
            lane: g.notes[i].lane,
            y: (g.notes[i].y + 3) as i16,
        })) || (j == after.notes.len() - 1 && after.notes[j].y == 38) by {
        if j < kept.len() {
            let i = choose|i: int| 0 <= i < moved.len() && moved[i] == kept[j];
            assert(after.notes[j] == kept[j]);
            assert(after.notes[j] == moved[i]);
        }
    }
}

/// Whether a game state is consistent: at most 8 notes, all between the
/// spawn line and the end of the hit window, and a valid chart position.
pub open spec fn game_wf(g: GameView) -> bool {
    &&& g.notes.len() <= MAX_NOTES
    &&& 0 <= g.chart_index < CHART_LEN
    &&& forall|i: int| 0 <= i < g.notes.len() ==> SPAWN_Y <= (#[trigger] g.notes[i]).y <= TARGET_Y + GOOD_WINDOW
}

/// A running Neon Beat game.
pub struct Game {
    notes: heapless::Vec<FallingNote, 8>,
    chart_index: usize,
    tick: u32,
    score: u32,
    combo: u16,
    health: u8,
    judgement: Judgement,
    active_lane: Option<Lane>,
    flash_ticks: u8,
}

impl Game {
    pub closed spec fn view(&self) -> GameView {
        GameView {
            notes: note_buffer(self.notes),
            chart_index: self.chart_index as int,
            tick: self.tick,
            score: self.score,
            combo: self.combo,
            health: self.health,
            judgement: self.judgement,
            active_lane: self.active_lane,
            flash_ticks: self.flash_ticks,
        }
    }

    pub open spec fn wf(&self) -> bool {
        game_wf(self.view())
    }

    /// A new game: full health, the first chart note spawned.
    pub fn new() -> (game: Self)
        ensures
            game.wf(),
            game.view() == spawned(
                GameView {
                    notes: Seq::empty(),
                    chart_index: 0,
                    tick: 0,
                    score: 0,
                    combo: 0,
                    health: STARTING_HEALTH,
                    judgement: Judgement::Ready,
                    active_lane: None,
                    flash_ticks: 0,
                },
            ),
    {
        let mut game = Game {
            notes: notes_new(),
            chart_index: 0,
            tick: 0,
            score: 0,
            combo: 0,
            health: STARTING_HEALTH,
            judgement: Judgement::Ready,
            active_lane: None,
            flash_ticks: 0,
        };
        game.spawn_note();
        game
    }

    /// Adds the next chart note at the spawn line.
    fn spawn_note(&mut self)
        requires
            game_wf(old(self).view()),
        ensures
            game_wf(final(self).view()),
            final(self).view() == spawned(old(self).view()),
    {
        let lane = chart_lane(self.chart_index);
        self.chart_index = (self.chart_index + 1) % CHART_LEN;
        let _ = notes_push(&mut self.notes, FallingNote { lane, y: SPAWN_Y });
        proof {
            let g = self.view();
            assert forall|i: int| 0 <= i < g.notes.len() implies SPAWN_Y <= (#[trigger] g.notes[i]).y
                <= TARGET_Y + GOOD_WINDOW by {
                if i < old(self).view().notes.len() {
                    assert(g.notes[i] == old(self).view().notes[i]);
                }
            }
        }
    }

    /// Applies a miss: the combo is lost and `damage` is taken.
    fn apply_miss(&mut self, damage: u8)
        ensures
            final(self).view() == missed(old(self).view(), damage),
    {
        self.combo = 0;
        self.health = self.health.saturating_sub(damage);
        self.judgement = Judgement::Miss;
    }

    /// Whether the player has run out of health.
    pub fn is_over(&self) -> (over: bool)
        ensures
            over == (self.view().health == 0),
    {
        self.health == 0
    }

    /// The lane flashing after a press, as the UI numbers it, or -1.
    pub fn active_lane_index(&self) -> (index: i32)
        ensures
            index as int == match self.view().active_lane {
                Some(lane) => lane_index(lane) as int,
                None => -1,
            },
    {
        match self.active_lane {
            Some(lane) => lane.index(),
            None => -1,
        }
    }

    pub fn score(&self) -> (score: u32)
        ensures
            score == self.view().score,
    {
        self.score
    }

    pub fn combo(&self) -> (combo: u16)
        ensures
            combo == self.view().combo,
    {
        self.combo
    }

    pub fn health(&self) -> (health: u8)
        ensures
            health == self.view().health,
    {
        self.health
    }

    pub fn judgement(&self) -> (judgement: Judgement)
        ensures
            judgement == self.view().judgement,
    {
        self.judgement
    }

    /// The notes as the UI draws them.
    pub fn ui_notes(&self) -> (notes: Vec<BeatNote>)
        ensures
            notes@.len() == self.view().notes.len(),
            forall|i: int|
                0 <= i < notes@.len() ==> #[trigger] notes@[i] == (BeatNote {
                    lane: lane_index(self.view().notes[i].lane),
                    y: self.view().notes[i].y as i32,
                }),
    {
        let mut out: Vec<BeatNote> = Vec::new();
        let n = notes_len(&self.notes);
        let mut i: usize = 0;
        while i < n
            invariant
                i <= n,
                n == self.view().notes.len(),
                out@.len() == i,
                forall|j: int|
                    0 <= j < i ==> #[trigger] out@[j] == (BeatNote {
                        lane: lane_index(self.view().notes[j].lane),
                        y: self.view().notes[j].y as i32,
                    }),
            decreases n - i,
        {
            let note = notes_get(&self.notes, i);
            out.push(BeatNote { lane: note.lane.index(), y: note.y as i32 });
            i = i + 1;
        }
        out
    }

    /// The player pressed the button of `lane`: hit the closest note of the
    /// lane if it is within the hit window, otherwise take ghost-tap damage.
    pub fn press(&mut self, lane: Lane)
        requires
            old(self).wf(),
        ensures
            final(self).wf(),
            final(self).view() == pressed(old(self).view(), lane),
    {
        let ghost g = self.view();
        self.active_lane = Some(lane);
        self.flash_ticks = FLASH_TICKS;
        let n = notes_len(&self.notes);
        let mut best: Option<(usize, i16)> = None;
        let mut i: usize = 0;
        while i < n
            invariant
                i <= n,
                n == g.notes.len(),
                note_buffer(self.notes) == g.notes,
                game_wf(g),
                match closest_in_lane(g.notes.take(i as int), lane) {
                    None => best is None,
                    Some((bi, bd)) => best matches Some((x, y)) && x == bi && y == bd,
                },
            decreases n - i,
        {
            let note = notes_get(&self.notes, i);
            proof {
                assert(g.notes.take(i + 1).drop_last() =~= g.notes.take(i as int));
                assert(g.notes.take(i + 1).last() == g.notes[i as int]);
                assert(SPAWN_Y <= g.notes[i as int].y <= TARGET_Y + GOOD_WINDOW);
            }
            if note.lane == lane {
                let d = note.y - TARGET_Y;
                let d = if d < 0 {
                    -d
                } else {
                    d
                };
                let closer = match best {
                    None => true,
                    Some((_, bd)) => d < bd,
                };
                if closer {
                    best = Some((i, d));
                }
            }
            i = i + 1;
        }
        proof {
            assert(g.notes.take(n as int) =~= g.notes);
        }
        match best {
            None => {
                self.apply_miss(GHOST_TAP_DAMAGE);
            },
            Some((index, d)) => {
                if d > GOOD_WINDOW {
                    self.apply_miss(GHOST_TAP_DAMAGE);
                } else {
                    proof {
                        lemma_closest_in_range(g.notes, lane);
                    }
                    notes_remove(&mut self.notes, index);
                    self.combo = self.combo.saturating_add(1);
                    let combo_bonus = (self.combo as u32) * 10;
                    if d <= PERFECT_WINDOW {
                        self.score = self.score.saturating_add(1_000 + combo_bonus);
                        let h = self.health.saturating_add(2);
                        self.health = if h < STARTING_HEALTH {
                            h
                        } else {
                            STARTING_HEALTH
                        };
                        self.judgement = Judgement::Perfect;
                    } else {
                        self.score = self.score.saturating_add(500 + combo_bonus);
                        let h = self.health.saturating_add(1);
                        self.health = if h < STARTING_HEALTH {
                            h
                        } else {
                            STARTING_HEALTH
                        };
                        self.judgement = Judgement::Good;
                    }
                    proof {
                        let ng = self.view();
                        assert forall|k: int| 0 <= k < ng.notes.len() implies SPAWN_Y <= (
                        #[trigger] ng.notes[k]).y <= TARGET_Y + GOOD_WINDOW by {
                            if k < index {
                                assert(ng.notes[k] == g.notes[k]);
                            } else {
                                assert(ng.notes[k] == g.notes[k + 1]);
                            }
                        }
                    }
                }
            },
        }
    }

    /// Advances the game by one tick: notes fall, notes that left the hit
    /// window count as misses, and every tenth tick a new note spawns while
    /// the player still has health. Returns whether a note was missed.
    pub fn advance(&mut self) -> (missed_note: bool)
        requires
            old(self).wf(),
        ensures
            final(self).wf(),
            (final(self).view(), missed_note) == advanced(old(self).view()),
    {
        let ghost g = self.view();
        self.tick = self.tick.wrapping_add(1);
        if self.flash_ticks > 0 {
            self.flash_ticks = self.flash_ticks - 1;
            if self.flash_ticks == 0 {
                self.active_lane = None;
            }
        }
        let n = notes_len(&self.notes);
        let mut i: usize = 0;
        while i < n
            invariant
                i <= n,
                n == g.notes.len(),
                game_wf(g),
                note_buffer(self.notes).len() == n,
                forall|j: int| 0 <= j < i ==> #[trigger] note_buffer(self.notes)[j] == fallen(g.notes)[j],
                forall|j: int| i <= j < n ==> #[trigger] note_buffer(self.notes)[j] == g.notes[j],
                self.combo == g.combo,
                self.health == g.health,
                self.judgement == g.judgement,
                self.score == g.score,
                self.chart_index == g.chart_index,
                self.tick == (if g.tick == u32::MAX { 0u32 } else { (g.tick + 1) as u32 }),
                self.flash_ticks == (if g.flash_ticks > 0 { (g.flash_ticks - 1) as u8 } else { 0u8 }),
                self.active_lane == (if g.flash_ticks > 0 && g.flash_ticks - 1 == 0 {
                    None
                } else {
                    g.active_lane
                }),
            decreases n - i,
        {
            let note = notes_get(&self.notes, i);
            proof {
                assert(SPAWN_Y <= g.notes[i as int].y <= TARGET_Y + GOOD_WINDOW);
            }
            notes_set(&mut self.notes, i, FallingNote { lane: note.lane, y: note.y + NOTE_SPEED });
            i = i + 1;
        }
        let ghost moved = fallen(g.notes);
        proof {
            assert(note_buffer(self.notes) =~= moved);
        }
        let mut missed_note = false;
        let mut removed: usize = 0;
        let mut index: usize = 0;
        let mut consumed: usize = 0;
        proof {
            assert(moved.take(0) =~= Seq::<FallingNote>::empty());
            assert(moved.skip(0) =~= moved);
            assert(kept_notes(moved.take(0)) + moved.skip(0) =~= note_buffer(self.notes));
        }
        while index < notes_len(&self.notes)
            invariant
                consumed <= moved.len(),
                moved == fallen(g.notes),
                moved.len() == n,
                n <= MAX_NOTES,
                game_wf(g),
                note_buffer(self.notes) == kept_notes(moved.take(consumed as int)) + moved.skip(consumed as int),
                index == kept_notes(moved.take(consumed as int)).len(),
                removed == consumed - index,
                missed_note == (removed > 0),
                self.combo == (if removed > 0 { 0 } else { g.combo }),
                self.judgement == (if removed > 0 { Judgement::Miss } else { g.judgement }),
                self.health == (if g.health < removed * MISSED_NOTE_DAMAGE {
                    0u8
                } else {
                    (g.health - removed * MISSED_NOTE_DAMAGE) as u8
                }),
                self.score == g.score,
                self.chart_index == g.chart_index,
                self.tick == (if g.tick == u32::MAX { 0u32 } else { (g.tick + 1) as u32 }),
                self.flash_ticks == (if g.flash_ticks > 0 { (g.flash_ticks - 1) as u8 } else { 0u8 }),
                self.active_lane == (if g.flash_ticks > 0 && g.flash_ticks - 1 == 0 {
                    None
                } else {
                    g.active_lane
                }),
            decreases moved.len() - consumed,
        {
            let ghost t = moved.take(consumed + 1);
            proof {
                lemma_kept_len(moved.take(consumed as int));
                assert(t.drop_last() =~= moved.take(consumed as int));
                assert(t.last() == moved[consumed as int]);
                assert(note_buffer(self.notes)[index as int] == moved[consumed as int]);
                assert(moved.skip(consumed + 1) =~= moved.skip(consumed as int).drop_first());
            }
            let note = notes_get(&self.notes, index);
            if note.y > TARGET_Y + GOOD_WINDOW {
                let ghost before = note_buffer(self.notes);
                notes_remove(&mut self.notes, index);
                self.apply_miss(MISSED_NOTE_DAMAGE);
                missed_note = true;
                removed = removed + 1;
                proof {
                    assert(note_buffer(self.notes) =~= kept_notes(t) + moved.skip(consumed + 1));
                }
            } else {
                index = index + 1;
                proof {
                    assert(note_buffer(self.notes) =~= kept_notes(t) + moved.skip(consumed + 1));
                }
            }
            consumed = consumed + 1;
        }
        proof {
            lemma_kept_len(moved.take(consumed as int));
            assert(moved.skip(consumed as int).len() == 0);
            assert(moved.take(consumed as int) =~= moved);
            assert(note_buffer(self.notes) =~= kept_notes(moved));
            lemma_kept_notes_on_screen(moved);
            let kg = self.view();
            assert forall|k: int| 0 <= k < kg.notes.len() implies SPAWN_Y <= (#[trigger] kg.notes[k]).y
                <= TARGET_Y + GOOD_WINDOW by {
                lemma_kept_notes_from(moved, k);
            }
        }
        if self.tick % SPAWN_INTERVAL_TICKS == 0 && !self.is_over() {
            self.spawn_note();
        }
        missed_note
    }
}

/// The closest note found is a note of the list.
proof fn lemma_closest_in_range(notes: Seq<FallingNote>, lane: Lane)
    ensures
        closest_in_lane(notes, lane) matches Some((i, d)) ==> 0 <= i < notes.len() && notes[i].lane == lane
            && d == distance(notes[i]),
    decreases notes.len(),
{
    if notes.len() > 0 {
        lemma_closest_in_range(notes.drop_last(), lane);
    }
}

/// At most all notes are kept.
proof fn lemma_kept_len(notes: Seq<FallingNote>)
    ensures
        kept_notes(notes).len() <= notes.len(),
    decreases notes.len(),
{
    if notes.len() > 0 {
        lemma_kept_len(notes.drop_last());
    }
}

/// Kept notes are on screen.
proof fn lemma_kept_notes_on_screen(notes: Seq<FallingNote>)
    ensures
        forall|k: int| 0 <= k < kept_notes(notes).len() ==> on_screen(#[trigger] kept_notes(notes)[k]),
    decreases notes.len(),
{
    if notes.len() > 0 {
        lemma_kept_notes_on_screen(notes.drop_last());
        let d = kept_notes(notes.drop_last());
        assert forall|k: int| 0 <= k < kept_notes(notes).len() implies on_screen(#[trigger] kept_notes(notes)[k]) by {
            if k < d.len() {
                assert(kept_notes(notes)[k] == d[k]);
            }
        }
    }
}

/// Each kept note is one of the notes.
proof fn lemma_kept_notes_from(notes: Seq<FallingNote>, k: int)
    requires
        0 <= k < kept_notes(notes).len(),
    ensures
        exists|j: int| 0 <= j < notes.len() && notes[j] == kept_notes(notes)[k],
    decreases notes.len(),
{
    let d = kept_notes(notes.drop_last());
    if k < d.len() {
        lemma_kept_notes_from(notes.drop_last(), k);
        let j = choose|j: int| 0 <= j < notes.drop_last().len() && notes.drop_last()[j] == d[k];
        assert(notes[j] == d[k]);
        assert(kept_notes(notes)[k] == d[k]);
    } else {
        assert(kept_notes(notes)[k] == notes.last());
        assert(notes[notes.len() - 1] == notes.last());
    }
}

/// The score as the UI shows it (capped at `i32::MAX`).
pub fn ui_score(score: u32) -> (shown: i32)
    ensures
        shown as int == if score > i32::MAX as u32 { i32::MAX as int } else { score as int },
{
    if score > i32::MAX as u32 {
        i32::MAX
    } else {
        score as i32
    }
}

} // verus!

verus! {

/// Level the level picker starts at (the fastest, shown as level 3).
pub const START_LEVEL: usize = 2;

/// Tick interval of a level, in milliseconds.
pub fn level_tick_ms(level: usize) -> (ms: u64)
    requires
        level < 3,
    ensures
        ms == LEVEL_TICK_MS[level as int],
{
    LEVEL_TICK_MS[level]
}

/// Beats per minute shown for a level.
pub fn level_bpm(level: usize) -> (bpm: i32)
    requires
        level < 3,
    ensures
        bpm == LEVEL_BPMS[level as int],
{
    LEVEL_BPMS[level]
}

/// Where a Neon Beat session stands.
#[derive(Clone, Copy, Debug, PartialEq, Eq, Structural)]
pub enum NeonBeatPhase {
    /// The player picks a level with up and down; right starts, left leaves.
    SelectingLevel,
    /// The game runs.
    Playing,
    /// The game is lost; any button leaves.
    GameOver,
    /// The session is over.
    Finished,
}

/// What happened: a button press or a tick of the game clock.
#[derive(Clone, Copy, Debug, PartialEq, Eq, Structural)]
pub enum NeonBeatInput {
    Pressed(Lane),
    Tick,
}

/// What the UI has to do after an input.
#[derive(Clone, Copy, Debug, PartialEq, Eq, Structural)]
pub enum NeonBeatEffect {
    /// Nothing changes on screen.
    Unchanged,
    /// Show level `shown` (counted from 1) and its tempo.
    ShowLevel { shown: i32, bpm: i32 },
    /// Leave level selection and start ticking every `tick_ms` milliseconds.
    StartGame { tick_ms: u64 },
    /// Redraw notes and the active lane; `stats` says whether score,
    /// combo, health and judgement changed too.
    Redraw { stats: bool },
    /// Redraw everything and show the game-over screen.
    ShowGameOver,
    /// Hide the UI and leave the app.
    Exit,
}

/// A Neon Beat session: level selection, the game, and the game-over screen.
pub struct NeonBeatSession {
    pub phase: NeonBeatPhase,
    pub level: usize,
    pub game: Game,
}

impl NeonBeatSession {
    pub open spec fn wf(&self) -> bool {
        &&& self.level < 3
        &&& self.game.wf()
    }

    /// A new session at the level picker, with a fresh game.
    pub fn new() -> (session: Self)
        ensures
            session.wf(),
            session.phase == NeonBeatPhase::SelectingLevel,
            session.level == START_LEVEL,
            session.game.view() == Game::new_view(),
    {
        NeonBeatSession { phase: NeonBeatPhase::SelectingLevel, level: START_LEVEL, game: Game::new() }
    }

    /// Handles one input. `up_held` and `down_held` are the states of the up
    /// and down buttons read right after a press; holding both during the
    /// game quits.
    pub fn on_input(&mut self, input: NeonBeatInput, up_held: bool, down_held: bool) -> (effect:
        NeonBeatEffect)
        requires
            old(self).wf(),
        ensures
            final(self).wf(),
            match (old(self).phase, input) {
                (NeonBeatPhase::SelectingLevel, NeonBeatInput::Pressed(Lane::Up)) => {
                    let level = if old(self).level == 0 { 0 } else { (old(self).level - 1) as usize };
                    &&& final(self).phase == NeonBeatPhase::SelectingLevel
                    &&& final(self).level == level
                    &&& final(self).game == old(self).game
                    &&& effect == NeonBeatEffect::ShowLevel { shown: (level + 1) as i32, bpm: LEVEL_BPMS[level as int] }
                },
                (NeonBeatPhase::SelectingLevel, NeonBeatInput::Pressed(Lane::Down)) => {
                    let level = if old(self).level + 1 < 2 { (old(self).level + 1) as usize } else { 2usize };
                    &&& final(self).phase == NeonBeatPhase::SelectingLevel
                    &&& final(self).level == level
                    &&& final(self).game == old(self).game
                    &&& effect == NeonBeatEffect::ShowLevel { shown: (level + 1) as i32, bpm: LEVEL_BPMS[level as int] }
                },
                (NeonBeatPhase::SelectingLevel, NeonBeatInput::Pressed(Lane::Left)) => {
                    &&& final(self).phase == NeonBeatPhase::Finished
                    &&& effect == NeonBeatEffect::Exit
                },
                (NeonBeatPhase::SelectingLevel, NeonBeatInput::Pressed(Lane::Right)) => {
                    &&& final(self).phase == NeonBeatPhase::Playing
                    &&& final(self).level == old(self).level
                    &&& final(self).game == old(self).game
                    &&& effect == NeonBeatEffect::StartGame { tick_ms: LEVEL_TICK_MS[old(self).level as int] }
                },
                (NeonBeatPhase::Playing, NeonBeatInput::Pressed(lane)) => if up_held && down_held {
                    &&& final(self).phase == NeonBeatPhase::Finished
                    &&& effect == NeonBeatEffect::Exit
                } else {
                    let g = pressed(old(self).game.view(), lane);
                    &&& final(self).game.view() == g
                    &&& final(self).level == old(self).level
                    &&& if g.health == 0 {
                        final(self).phase == NeonBeatPhase::GameOver && effect == NeonBeatEffect::ShowGameOver
                    } else {
                        final(self).phase == NeonBeatPhase::Playing && effect == NeonBeatEffect::Redraw { stats: true }
                    }
                },
                (NeonBeatPhase::Playing, NeonBeatInput::Tick) => {
                    let (g, missed_note) = advanced(old(self).game.view());
                    &&& final(self).game.view() == g
                    &&& final(self).level == old(self).level
                    &&& if g.health == 0 {
                        final(self).phase == NeonBeatPhase::GameOver && effect == NeonBeatEffect::ShowGameOver
                    } else {
                        final(self).phase == NeonBeatPhase::Playing && effect == NeonBeatEffect::Redraw { stats: missed_note }
                    }
                },
                (NeonBeatPhase::GameOver, NeonBeatInput::Pressed(_)) => {
                    &&& final(self).phase == NeonBeatPhase::Finished
                    &&& effect == NeonBeatEffect::Exit
                },
                (NeonBeatPhase::Finished, NeonBeatInput::Pressed(_)) => {
                    &&& final(self).phase == NeonBeatPhase::Finished
                    &&& effect == NeonBeatEffect::Exit
                },
                (_, NeonBeatInput::Tick) => {
                    &&& final(self).phase == old(self).phase
                    &&& final(self).level == old(self).level
                    &&& final(self).game == old(self).game
                    &&& effect == NeonBeatEffect::Unchanged
                },
            },
    {
        match (self.phase, input) {
            (NeonBeatPhase::SelectingLevel, NeonBeatInput::Pressed(lane)) => {
                match lane {
                    Lane::Up => {
                        self.level = self.level.saturating_sub(1);
                        NeonBeatEffect::ShowLevel { shown: self.level as i32 + 1, bpm: level_bpm(self.level) }
                    },
                    Lane::Down => {
                        self.level = if self.level + 1 < 2 { self.level + 1 } else { 2 };
                        NeonBeatEffect::ShowLevel { shown: self.level as i32 + 1, bpm: level_bpm(self.level) }
                    },
                    Lane::Left => {
                        self.phase = NeonBeatPhase::Finished;
                        NeonBeatEffect::Exit
                    },
                    Lane::Right => {
                        self.phase = NeonBeatPhase::Playing;
                        NeonBeatEffect::StartGame { tick_ms: level_tick_ms(self.level) }
                    },
                }
            },
            (NeonBeatPhase::Playing, NeonBeatInput::Pressed(lane)) => {
                if up_held && down_held {
                    self.phase = NeonBeatPhase::Finished;
                    return NeonBeatEffect::Exit;
                }
                self.game.press(lane);
                if self.game.is_over() {
                    self.phase = NeonBeatPhase::GameOver;
                    NeonBeatEffect::ShowGameOver
                } else {
                    NeonBeatEffect::Redraw { stats: true }
                }
            },
            (NeonBeatPhase::Playing, NeonBeatInput::Tick) => {
                let missed_note = self.game.advance();
                if self.game.is_over() {
                    self.phase = NeonBeatPhase::GameOver;
                    NeonBeatEffect::ShowGameOver
                } else {
                    NeonBeatEffect::Redraw { stats: missed_note }
                }
            },
            (NeonBeatPhase::GameOver, NeonBeatInput::Pressed(_)) => {
                self.phase = NeonBeatPhase::Finished;
                NeonBeatEffect::Exit
            },
            (NeonBeatPhase::Finished, NeonBeatInput::Pressed(_)) => NeonBeatEffect::Exit,
            (_, NeonBeatInput::Tick) => NeonBeatEffect::Unchanged,
        }
    }
}

impl Game {
    /// The state of a new game.
    pub open spec fn new_view() -> GameView {
        spawned(
            GameView {
                notes: Seq::empty(),
                chart_index: 0,
                tick: 0,
                score: 0,
                combo: 0,
                health: STARTING_HEALTH,
                judgement: Judgement::Ready,
                active_lane: None,
                flash_ticks: 0,
            },
        )
    }
}

/// A note as the UI draws it.
pub open spec fn ui_note(note: FallingNote) -> BeatNote {
    BeatNote { lane: lane_index(note.lane), y: note.y as i32 }
}

/// Brings the UI's note list up to date: drops rows beyond the number of
/// notes, overwrites the rest and appends what is missing, so that it
/// shows exactly the game's notes.
pub fn sync_note_model(model: &mut Vec<BeatNote>, game: &Game)
    ensures
        final(model)@ == game.view().notes.map_values(|n: FallingNote| ui_note(n)),
{
    let n = notes_len(&game.notes);
    while model.len() > n
        invariant
            n == game.view().notes.len(),
        decreases model@.len(),
    {
        model.pop();
    }
    let mut i: usize = 0;
    while i < n
        invariant
            i <= n,
            n == game.view().notes.len(),
            model@.len() <= n,
            i <= model@.len(),
            forall|j: int| 0 <= j < i ==> #[trigger] model@[j] == ui_note(game.view().notes[j]),
        decreases n - i,
    {
        let note = notes_get(&game.notes, i);
        let row = BeatNote { lane: note.lane.index(), y: note.y as i32 };
        if i < model.len() {
            model.set(i, row);
        } else {
            model.push(row);
        }
        i = i + 1;
    }
    proof {
        assert(model@ =~= game.view().notes.map_values(|n: FallingNote| ui_note(n)));
    }
}

} // verus!
