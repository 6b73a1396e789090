//! Declared column types.

use vstd::prelude::*;
use vstd::std_specs::cmp::PartialEqSpecImpl;

verus! {

/// Width of an integer column.
#[derive(Debug, Clone, Copy, PartialEq, Eq, Structural)]
pub enum IntSize {
    N8,
    N16,
    N32,
    N64,
    N128,
}

impl IntSize {
    /// Number of bytes that an integer of this width occupies.
    pub open spec fn bytes(self) -> int {
        match self {
            IntSize::N8 => 1,
            IntSize::N16 => 2,
            IntSize::N32 => 4,
            IntSize::N64 => 8,
            IntSize::N128 => 16,
        }
    }

    /// Number of bytes that an integer of this width occupies.
    pub fn size_bytes(self) -> (bytes: u8)
        ensures
            bytes == self.bytes(),
    {
        match self {
            IntSize::N8 => 1,
            IntSize::N16 => 2,
            IntSize::N32 => 4,
            IntSize::N64 => 8,
            IntSize::N128 => 16,
        }
    }
}

/// Shape of a stored field, with foreign keys expanded into the fields they
/// point at.
#[derive(Debug)]
pub enum Field {
    /// Integer(size, signed)
    Integer(IntSize, bool),
    /// Binary64 number
    Real,
    /// UTF-8 text
    Text,
    /// Arbitrary binary data
    Blob,
    /// Foreign key
    ForeignKey(Vec<Field>),
}

impl Field {
    /// The same shape, field by field.
    pub open spec fn same_shape(self, other: Field) -> bool
        decreases self,
    {
        match (self, other) {
            (Field::Integer(s1, g1), Field::Integer(s2, g2)) => s1 == s2 && g1 == g2,
            (Field::Real, Field::Real) => true,
            (Field::Text, Field::Text) => true,
            (Field::Blob, Field::Blob) => true,
            (Field::ForeignKey(f1), Field::ForeignKey(f2)) => {
                &&& f1@.len() == f2@.len()
                &&& forall|i: int| 0 <= i < f1@.len() ==> (#[trigger] f1@[i]).same_shape(f2@[i])
            },
            _ => false,
        }
    }
}

impl Field {
    /// A copy of this shape.
    pub fn duplicate(&self) -> (copy: Self)
        ensures
            self.same_shape(copy),
        decreases self,
    {
        match self {
            Field::Integer(size, signed) => Field::Integer(*size, *signed),
            Field::Real => Field::Real,
            Field::Text => Field::Text,
            Field::Blob => Field::Blob,
            Field::ForeignKey(fields) => {
                let mut copies: Vec<Field> = Vec::new();
                let mut i: usize = 0;
                while i < fields.len()
                    invariant
                        *self == Field::ForeignKey(*fields),
                        i <= fields.len(),
                        copies@.len() == i,
                        forall|j: int| 0 <= j < i ==> (#[trigger] fields@[j]).same_shape(copies@[j]),
                    decreases fields.len() - i,
                {
                    assert(decreases_to!(self => self->ForeignKey_0));
                    assert(decreases_to!(fields => fields[i as int]));
                    copies.push(fields[i].duplicate());
                    i += 1;
                }
                Field::ForeignKey(copies)
            },
        }
    }
}

impl Clone for Field {
    fn clone(&self) -> (copy: Self)
        ensures
            self.same_shape(copy),
    {
        self.duplicate()
    }
}

/// Declared type of a column.
#[derive(Debug)]
pub enum FieldKind {
    /// Integer(size, signed)
    Integer(IntSize, bool),
    /// Binary64 number
    Real,
    /// UTF-8 text
    Text,
    /// Arbitrary binary data
    Blob,
    /// Reference to the table of the given name
    ForeignKey(String),
}

/// What a [`FieldKind`] stands for.
pub enum FieldKindView {
    Integer(IntSize, bool),
    Real,
    Text,
    Blob,
    ForeignKey(Seq<char>),
}

impl View for FieldKind {
    type V = FieldKindView;

    open spec fn view(&self) -> FieldKindView {
        match self {
            FieldKind::Integer(size, signed) => FieldKindView::Integer(*size, *signed),
            FieldKind::Real => FieldKindView::Real,
            FieldKind::Text => FieldKindView::Text,
            FieldKind::Blob => FieldKindView::Blob,
            FieldKind::ForeignKey(table) => FieldKindView::ForeignKey(table@),
        }
    }
}

impl FieldKindView {
    /// The byte width that every value of a column of this kind has, if there is
    /// one: only integers have a constant width.
    pub open spec fn constant_size(self) -> Option<int> {
        match self {
            FieldKindView::Integer(size, _) => Some(size.bytes()),
            _ => None,
        }
    }
}

impl Clone for FieldKind {
    fn clone(&self) -> (copy: Self)
        ensures
            copy@ == self@,
    {
        match self {
            FieldKind::Integer(size, signed) => FieldKind::Integer(*size, *signed),
            FieldKind::Real => FieldKind::Real,
            FieldKind::Text => FieldKind::Text,
            FieldKind::Blob => FieldKind::Blob,
            FieldKind::ForeignKey(table) => FieldKind::ForeignKey(table.clone()),
        }
    }
}

impl PartialEq for FieldKind {
    fn eq(&self, other: &Self) -> (equal: bool) {
        match (self, other) {
            (FieldKind::Integer(s1, g1), FieldKind::Integer(s2, g2)) => *s1 == *s2 && *g1 == *g2,
            (FieldKind::Real, FieldKind::Real) => true,
            (FieldKind::Text, FieldKind::Text) => true,
            (FieldKind::Blob, FieldKind::Blob) => true,
            (FieldKind::ForeignKey(t1), FieldKind::ForeignKey(t2)) => *t1 == *t2,
            _ => false,
        }
    }
}

impl PartialEqSpecImpl for FieldKind {
    open spec fn obeys_eq_spec() -> bool {
        true
    }

    open spec fn eq_spec(&self, other: &Self) -> bool {
        self@ == other@
    }
}

impl Eq for FieldKind {

}

impl FieldKind {
    /// The byte width that every value of a column of this kind has, if there
    /// is one.
    pub fn constant_size_bytes(self) -> (bytes: Option<u8>)
        ensures
            match bytes {
                Some(n) => self@.constant_size() == Some(n as int),
                None => self@.constant_size().is_none(),
            },
    {
        if let FieldKind::Integer(size, _) = self {
            Some(size.size_bytes())
        } else {
            None
        }
    }
}

} // verus!
