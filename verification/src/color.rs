//! Display colours and the table that assigns one to each entity.

use std::collections::HashMap;
use vstd::prelude::*;

verus! {

broadcast use vstd::std_specs::hash::group_hash_axioms;

/// An opaque RGB colour.
#[derive(Clone, Copy, Debug, PartialEq, Eq, Structural)]
pub struct Color {
    pub r: u8,
    pub g: u8,
    pub b: u8,
}

impl Color {
    /// The colour of a grid point that no event has reached yet.
    pub open spec fn unlit() -> Color {
        Color { r: 0, g: 0, b: 0 }
    }

    /// The colour of an entity to which the table assigns none.
    pub open spec fn unassigned() -> Color {
        Color { r: 255, g: 255, b: 255 }
    }

    pub fn from_rgb(r: u8, g: u8, b: u8) -> (c: Color)
        ensures
            c == (Color { r, g, b }),
    {
        Color { r, g, b }
    }

    /// Black, drawn for every unlit grid point.
    pub fn base() -> (c: Color)
        ensures
            c == Color::unlit(),
    {
        Color { r: 0, g: 0, b: 0 }
    }

    /// White, the fallback of [`ColorTable::new`].
    pub fn white() -> (c: Color)
        ensures
            c == Color::unassigned(),
    {
        Color { r: 255, g: 255, b: 255 }
    }
}

/// What a [`ColorTable`] means: the colours assigned so far and the colour of
/// everything else.
pub struct Palette {
    pub assigned: Map<u32, Color>,
    pub fallback: Color,
}

impl Palette {
    /// The colour in which `entity_id` is drawn.
    pub open spec fn color_of(self, entity_id: u32) -> Color {
        if self.assigned.contains_key(entity_id) {
            self.assigned[entity_id]
        } else {
            self.fallback
        }
    }
}

/// Maps entity identifiers to display colours, with a fallback for the rest.
pub struct ColorTable {
    assigned: HashMap<u32, Color>,
    fallback: Color,
}

impl View for ColorTable {
    type V = Palette;

    closed spec fn view(&self) -> Palette {
        Palette { assigned: self.assigned@, fallback: self.fallback }
    }
}

impl ColorTable {
    /// An empty table: every entity is drawn white.
    pub fn new() -> (table: ColorTable)
        ensures
            table@.assigned == Map::<u32, Color>::empty(),
            table@.fallback == Color::unassigned(),
    {
        ColorTable { assigned: HashMap::new(), fallback: Color::white() }
    }

    /// An empty table with a fallback of the caller's choice.
    pub fn with_fallback(fallback: Color) -> (table: ColorTable)
        ensures
            table@.assigned == Map::<u32, Color>::empty(),
            table@.fallback == fallback,
    {
        ColorTable { assigned: HashMap::new(), fallback }
    }

    /// Assigns `color` to `entity_id`, replacing an earlier assignment.
    pub fn assign(&mut self, entity_id: u32, color: Color)
        ensures
            final(self)@.assigned == old(self)@.assigned.insert(entity_id, color),
            final(self)@.fallback == old(self)@.fallback,
    {
        self.assigned.insert(entity_id, color);
    }

    /// The colour in which `entity_id` is drawn.
    pub fn color_of(&self, entity_id: u32) -> (c: Color)
        ensures
            c == self@.color_of(entity_id),
    {
        match self.assigned.get(&entity_id) {
            Some(c) => *c,
            None => self.fallback,
        }
    }

    /// The colour of every entity without an assignment.
    pub fn fallback(&self) -> (c: Color)
        ensures
            c == self@.fallback,
    {
        self.fallback
    }
}

} // verus!
