//! The frame compositor: from the events that playback has reached to one
//! colour, and one draw instruction, per grid point.
//!
//! A grid point is lit by the last event, in log order, that sits on its cell
//! among the events before the cursor; the event under the cursor is not yet
//! shown. Timestamps play no part. The lit state is computed afresh for every
//! frame from the log and the cursor; nothing is kept between frames.

use crate::color::{Color, ColorTable, Palette};
use crate::events::{EventLog, TelemetryEvent};
use crate::geometry::{
    bounding_box, normalize, pixel_of, Canvas, GridPoint, Pixel, Track, MARKER_SIZE,
};
use crate::playback::PlaybackEngine;
use std::collections::HashMap;
use vstd::prelude::*;

verus! {

broadcast use vstd::std_specs::hash::group_hash_axioms;

/// Whether `event` sits on the cell of `p`.
pub open spec fn on_cell(event: TelemetryEvent, p: GridPoint) -> bool {
    event.x == p.x && event.y == p.y
}

/// The events that playback has reached: those before the cursor.
pub open spec fn shown(events: Seq<TelemetryEvent>, cursor: nat) -> Seq<TelemetryEvent> {
    if cursor < events.len() {
        events.take(cursor as int)
    } else {
        events
    }
}

/// Index of the last event of `events` that sits on the cell of `p`.
pub open spec fn last_on(events: Seq<TelemetryEvent>, p: GridPoint) -> Option<int>
    decreases events.len(),
{
    if events.len() == 0 {
        None
    } else if on_cell(events.last(), p) {
        Some(events.len() - 1)
    } else {
        last_on(events.drop_last(), p)
    }
}

/// The colour in which `p` is lit when playback stands at `cursor`, or `None`
/// while no event has reached its cell.
pub open spec fn lit_color(
    events: Seq<TelemetryEvent>,
    cursor: nat,
    palette: Palette,
    p: GridPoint,
) -> Option<Color> {
    match last_on(shown(events, cursor), p) {
        Some(i) => Some(palette.color_of(events[i].entity_id)),
        None => None,
    }
}

/// The lit state of a layout: [`lit_color`] for each of its points, in order.
pub open spec fn lit_state(
    points: Seq<GridPoint>,
    events: Seq<TelemetryEvent>,
    cursor: nat,
    palette: Palette,
) -> Seq<Option<Color>> {
    Seq::new(points.len(), |i: int| lit_color(events, cursor, palette, points[i]))
}

/// A filled square for the rendering backend: top-left corner, edge length
/// and fill colour. `lit` tells the backend which squares belong on top
/// where squares overlap.
#[derive(Clone, Copy, Debug, PartialEq, Eq, Structural)]
pub struct DrawInstruction {
    pub x: u32,
    pub y: u32,
    pub size: u32,
    pub color: Color,
    pub lit: bool,
}

/// The instruction for a point drawn at `pixel`: its colour if it is lit, the
/// base colour if it is not.
pub open spec fn instruction_at(pixel: Pixel, lit: Option<Color>) -> DrawInstruction {
    DrawInstruction {
        x: pixel.x,
        y: pixel.y,
        size: MARKER_SIZE,
        color: match lit {
            Some(color) => color,
            None => Color::unlit(),
        },
        lit: lit is Some,
    }
}

/// The frame of a layout: one instruction per grid point, in the order of the
/// points, placed by the bounding box of the whole layout.
pub open spec fn frame_of(
    points: Seq<GridPoint>,
    events: Seq<TelemetryEvent>,
    cursor: nat,
    palette: Palette,
    canvas: Canvas,
) -> Seq<DrawInstruction> {
    Seq::new(
        points.len(),
        |i: int|
            instruction_at(
                pixel_of(points[i], bounding_box(points), canvas),
                lit_color(events, cursor, palette, points[i]),
            ),
    )
}

/// `last_on` finds an event on the cell after which no event sits on the
/// cell, and finds none only where no event sits on it.
pub proof fn lemma_last_on_is_last(events: Seq<TelemetryEvent>, p: GridPoint)
    ensures
        match last_on(events, p) {
            Some(i) => {
                &&& 0 <= i < events.len()
                &&& on_cell(events[i], p)
                &&& forall|j: int| i < j < events.len() ==> !on_cell(#[trigger] events[j], p)
            },
            None => forall|j: int| 0 <= j < events.len() ==> !on_cell(#[trigger] events[j], p),
        },
    decreases events.len(),
{
    if events.len() > 0 && !on_cell(events.last(), p) {
        let front = events.drop_last();
        lemma_last_on_is_last(front, p);
        match last_on(front, p) {
            Some(i) => {
                assert(events[i] == front[i]);
                assert forall|j: int| i < j < events.len() implies !on_cell(
                    #[trigger] events[j],
                    p,
                ) by {
                    if j < front.len() {
                        assert(events[j] == front[j]);
                    }
                }
            },
            None => {
                assert forall|j: int| 0 <= j < events.len() implies !on_cell(
                    #[trigger] events[j],
                    p,
                ) by {
                    if j < front.len() {
                        assert(events[j] == front[j]);
                    }
                }
            },
        }
    }
}

/// Last write wins. If the event at `winner` has been reached and sits on the
/// cell of `p`, and no event between it and the cursor does, then `p` shows
/// that event's entity, whoever sat on the cell before and whatever the
/// timestamps say.
pub proof fn law_last_write_wins(
    events: Seq<TelemetryEvent>,
    cursor: nat,
    palette: Palette,
    p: GridPoint,
    winner: int,
)
    requires
        0 <= winner < cursor <= events.len(),
        on_cell(events[winner], p),
        forall|j: int| winner < j < cursor ==> !on_cell(#[trigger] events[j], p),
    ensures
        lit_color(events, cursor, palette, p) == Some(palette.color_of(events[winner].entity_id)),
{
    let reached = shown(events, cursor);
    lemma_last_on_is_last(reached, p);
    assert(reached[winner] == events[winner]);
    match last_on(reached, p) {
        Some(i) => {
            assert(reached[i] == events[i]);
            assert(i == winner);
        },
        None => {},
    }
}

/// A point is unlit exactly as long as no event that has been reached sits
/// on its cell.
pub proof fn law_unlit_until_reached(
    events: Seq<TelemetryEvent>,
    cursor: nat,
    palette: Palette,
    p: GridPoint,
)
    requires
        cursor <= events.len(),
    ensures
        lit_color(events, cursor, palette, p) is None <==> forall|j: int|
            0 <= j < cursor ==> !on_cell(#[trigger] events[j], p),
{
    let reached = shown(events, cursor);
    lemma_last_on_is_last(reached, p);
    match last_on(reached, p) {
        Some(i) => {
            assert(reached[i] == events[i]);
        },
        None => {
            assert forall|j: int| 0 <= j < cursor implies !on_cell(#[trigger] events[j], p) by {
                assert(reached[j] == events[j]);
            }
        },
    }
}

/// The lit state reads cells and entities only: two logs that agree on
/// these for every event before the cursor light the same points in the same
/// colours, whatever their timestamps and delays are and whatever follows
/// the cursor.
pub proof fn law_only_reached_positions_count(
    a: Seq<TelemetryEvent>,
    b: Seq<TelemetryEvent>,
    cursor: nat,
    palette: Palette,
    p: GridPoint,
)
    requires
        cursor <= a.len(),
        cursor <= b.len(),
        forall|j: int|
            0 <= j < cursor ==> (#[trigger] a[j]).x == b[j].x && a[j].y == b[j].y && a[j].entity_id
                == b[j].entity_id,
    ensures
        lit_color(a, cursor, palette, p) == lit_color(b, cursor, palette, p),
{
    let ra = shown(a, cursor);
    let rb = shown(b, cursor);
    lemma_last_on_is_last(ra, p);
    lemma_last_on_is_last(rb, p);
    assert forall|j: int| 0 <= j < cursor implies on_cell(#[trigger] ra[j], p) == on_cell(
        rb[j],
        p,
    ) by {
        assert(ra[j] == a[j] && rb[j] == b[j]);
    }
    match last_on(ra, p) {
        Some(i) => {
            assert(on_cell(rb[i], p));
            match last_on(rb, p) {
                Some(k) => {
                    assert(on_cell(ra[k], p));
                    assert(i == k);
                    assert(ra[i] == a[i] && rb[i] == b[i]);
                },
                None => {},
            }
        },
        None => {
            match last_on(rb, p) {
                Some(k) => {
                    assert(on_cell(ra[k], p));
                },
                None => {},
            }
        },
    }
}

/// Compositing is a function of its inputs: two frames, and two lit states,
/// composed from the same layout, log, cursor, palette and canvas are equal.
pub proof fn law_compositing_is_repeatable(
    points: Seq<GridPoint>,
    events: Seq<TelemetryEvent>,
    cursor: nat,
    palette: Palette,
    canvas: Canvas,
    first_lit: Seq<Option<Color>>,
    second_lit: Seq<Option<Color>>,
    first_frame: Seq<DrawInstruction>,
    second_frame: Seq<DrawInstruction>,
)
    requires
        first_lit == lit_state(points, events, cursor, palette),
        second_lit == lit_state(points, events, cursor, palette),
        first_frame == frame_of(points, events, cursor, palette, canvas),
        second_frame == frame_of(points, events, cursor, palette, canvas),
    ensures
        first_lit == second_lit,
        first_frame == second_frame,
{
}

/// The integer under which a cell is looked up: both coordinates, shifted to
/// be non-negative, side by side in 128 bits.
pub open spec fn cell_key(x: i64, y: i64) -> u128 {
    ((x - i64::MIN) * 0x1_0000_0000_0000_0000 + (y - i64::MIN)) as u128
}

/// Different cells have different keys.
pub proof fn lemma_cell_key_injective(x1: i64, y1: i64, x2: i64, y2: i64)
    ensures
        cell_key(x1, y1) == cell_key(x2, y2) <==> x1 == x2 && y1 == y2,
{
}

/// The key of the cell `(x, y)`.
pub fn key_of(x: i64, y: i64) -> (key: u128)
    ensures
        key == cell_key(x, y),
{
    let column: u128 = (x as i128 - i64::MIN as i128) as u128;
    let row: u128 = (y as i128 - i64::MIN as i128) as u128;
    column * 0x1_0000_0000_0000_0000 + row
}

/// The map that painting `events` in order leaves behind: cell key to the
/// colour of the last entity on the cell.
spec fn painted(events: Seq<TelemetryEvent>, palette: Palette) -> Map<u128, Color>
    decreases events.len(),
{
    if events.len() == 0 {
        Map::empty()
    } else {
        painted(events.drop_last(), palette).insert(
            cell_key(events.last().x, events.last().y),
            palette.color_of(events.last().entity_id),
        )
    }
}

/// Looking a point up in the painted map gives its lit colour.
proof fn lemma_painted_lookup(events: Seq<TelemetryEvent>, palette: Palette, p: GridPoint)
    ensures
        match last_on(events, p) {
            Some(i) => painted(events, palette).contains_key(cell_key(p.x, p.y)) && painted(
                events,
                palette,
            )[cell_key(p.x, p.y)] == palette.color_of(events[i].entity_id),
            None => !painted(events, palette).contains_key(cell_key(p.x, p.y)),
        },
    decreases events.len(),
{
    if events.len() > 0 {
        let front = events.drop_last();
        lemma_painted_lookup(front, palette, p);
        lemma_last_on_is_last(front, p);
        lemma_cell_key_injective(events.last().x, events.last().y, p.x, p.y);
        match last_on(front, p) {
            Some(i) => {
                assert(events[i] == front[i]);
            },
            None => {},
        }
    }
}

/// Looking a point up among the painted cells of the events before the
/// cursor gives its lit colour.
proof fn lemma_painted_is_lit(
    events: Seq<TelemetryEvent>,
    cursor: nat,
    palette: Palette,
    p: GridPoint,
)
    ensures
        lit_color(events, cursor, palette, p) == if painted(
            shown(events, cursor),
            palette,
        ).contains_key(cell_key(p.x, p.y)) {
            Some(painted(shown(events, cursor), palette)[cell_key(p.x, p.y)])
        } else {
            None
        },
{
    let reached = shown(events, cursor);
    lemma_painted_lookup(reached, palette, p);
    lemma_last_on_is_last(reached, p);
    match last_on(reached, p) {
        Some(i) => {
            assert(reached[i] == events[i]);
        },
        None => {},
    }
}

/// Paints the events before `cursor` into a map from cell key to colour,
/// later events over earlier ones.
fn paint(log: &EventLog, cursor: usize, colors: &ColorTable) -> (cells: HashMap<u128, Color>)
    ensures
        cells@ == painted(shown(log@, cursor as nat), colors@),
{
    let events = log.events();
    let reached: usize = if cursor < events.len() {
        cursor
    } else {
        events.len()
    };
    let mut cells: HashMap<u128, Color> = HashMap::new();
    let mut i: usize = 0;
    while i < reached
        invariant
            i <= reached <= events@.len(),
            events@ == log@,
            cells@ == painted(events@.take(i as int), colors@),
        decreases reached - i,
    {
        let event = events[i];
        proof {
            assert(events@.take(i + 1).drop_last() =~= events@.take(i as int));
            assert(events@.take(i + 1).last() == event);
        }
        cells.insert(key_of(event.x, event.y), colors.color_of(event.entity_id));
        i = i + 1;
    }
    proof {
        assert(events@.take(reached as int) =~= shown(log@, cursor as nat));
    }
    cells
}

/// The lit state of `track` when playback of `log` stands at `cursor`: for
/// each grid point, in order, the colour of the last entity that reached its
/// cell, or `None`. A cursor past the end of the log shows the whole log.
pub fn lit_colors(
    track: &Track,
    log: &EventLog,
    cursor: usize,
    colors: &ColorTable,
) -> (lit: Vec<Option<Color>>)
    ensures
        lit@ == lit_state(track@, log@, cursor as nat, colors@),
{
    let cells = paint(log, cursor, colors);
    let points = track.points();
    let mut lit: Vec<Option<Color>> = Vec::new();
    let mut i: usize = 0;
    while i < points.len()
        invariant
            i <= points@.len(),
            points@ == track@,
            cells@ == painted(shown(log@, cursor as nat), colors@),
            lit@ == lit_state(track@.take(i as int), log@, cursor as nat, colors@),
        decreases points.len() - i,
    {
        let p = points[i];
        proof {
            lemma_painted_is_lit(log@, cursor as nat, colors@, p);
        }
        let color = match cells.get(&key_of(p.x, p.y)) {
            Some(color) => Some(*color),
            None => None,
        };
        lit.push(color);
        proof {
            assert(lit@ =~= lit_state(track@.take(i + 1), log@, cursor as nat, colors@));
        }
        i = i + 1;
    }
    proof {
        assert(track@.take(points@.len() as int) =~= track@);
    }
    lit
}

/// The frame for `track` when playback of `log` stands at `cursor`: one draw
/// instruction per grid point, in the order of the points. Nothing is drawn
/// for a layout without points.
pub fn compose_frame(
    track: &Track,
    log: &EventLog,
    cursor: usize,
    colors: &ColorTable,
    canvas: Canvas,
) -> (frame: Vec<DrawInstruction>)
    ensures
        frame@ == frame_of(track@, log@, cursor as nat, colors@, canvas),
{
    let mut frame: Vec<DrawInstruction> = Vec::new();
    let bounds = match track.bounds() {
        Some(bounds) => bounds,
        None => {
            proof {
                assert(frame@ =~= frame_of(track@, log@, cursor as nat, colors@, canvas));
            }
            return frame;
        },
    };
    let lit = lit_colors(track, log, cursor, colors);
    let points = track.points();
    let mut i: usize = 0;
    while i < points.len()
        invariant
            i <= points@.len(),
            points@ == track@,
            bounds == bounding_box(track@),
            lit@ == lit_state(track@, log@, cursor as nat, colors@),
            frame@ == frame_of(track@, log@, cursor as nat, colors@, canvas).take(i as int),
        decreases points.len() - i,
    {
        let pixel = normalize(points[i], bounds, canvas);
        let (color, lit_up) = match lit[i] {
            Some(color) => (color, true),
            None => (Color::base(), false),
        };
        frame.push(
            DrawInstruction { x: pixel.x, y: pixel.y, size: MARKER_SIZE, color, lit: lit_up },
        );
        proof {
            assert(frame@ =~= frame_of(track@, log@, cursor as nat, colors@, canvas).take(i + 1));
        }
        i = i + 1;
    }
    proof {
        assert(frame@ =~= frame_of(track@, log@, cursor as nat, colors@, canvas));
    }
    frame
}

/// The frame for the state in which `engine` stands.
pub fn render(
    track: &Track,
    engine: &PlaybackEngine,
    colors: &ColorTable,
    canvas: Canvas,
) -> (frame: Vec<DrawInstruction>)
    ensures
        frame@ == frame_of(track@, engine@.events, engine@.cursor, colors@, canvas),
{
    compose_frame(track, engine.log(), engine.cursor(), colors, canvas)
}

} // verus!
