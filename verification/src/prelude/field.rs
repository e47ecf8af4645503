use vstd::prelude::*;
use crate::prelude::coordinates::Coordinates;
use crate::prelude::direction::Direction;

verus! {

/// What kind of field something is.
#[derive(Debug, Copy, Clone, PartialEq, Eq, Structural, Hash)]
pub enum FieldType {
    /// A field with nothing special about it
    Normal,
}

/// One cell of a maze, as a maze reports it: its kind, where it lies and in
/// which directions a passage leaves it.
#[derive(Debug, Clone)]
pub struct Field {
    /// What kind of field this is
    pub field_type: FieldType,
    /// Where the field lies
    pub coordinates: Coordinates,
    /// The directions with an open passage
    pub passages: Vec<Direction>,
}

impl Field {
    /// Create a field from its parts.
    pub fn new(field_type: FieldType, coordinates: Coordinates, passages: Vec<Direction>) -> (field: Self)
        ensures
            field.field_type == field_type,
            field.coordinates == coordinates,
            field.passages == passages,
    {
        Field { field_type, coordinates, passages }
    }

    /// Whether a passage leaves this field in the given direction.
    pub fn has_passage(&self, direction: &Direction) -> (open: bool)
        ensures
            open == self.passages@.contains(*direction),
    {
        let mut i: usize = 0;
        while i < self.passages.len()
            invariant
                i <= self.passages.len(),
                forall|k: int| 0 <= k < i ==> self.passages@[k] != *direction,
            decreases self.passages.len() - i,
        {
            if self.passages[i] == *direction {
                return true;
            }
            i += 1;
        }
        false
    }
}

} // verus!
