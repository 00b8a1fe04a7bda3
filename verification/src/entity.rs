//! The decoded catalog entity and the type-tag grammar.
//!
//! An entity is one validated record: raw fixed-point coordinates, a catalog
//! index, an ignored reserved word, a trimmed ASCII name, and a trimmed type
//! tag.  The tag is three characters: `P` followed by two digits for a
//! planet, or `S` followed by a sub-type `00` through `11` for a star.

use vstd::prelude::*;
use crate::text::{is_ascii, is_ascii_space};

verus! {

/// Longest meaningful name an entity can carry: the width of the name field.
pub const NAME_FIELD_LEN: usize = 20;

/// The byte is an ASCII decimal digit.
pub open spec fn is_digit(b: u8) -> bool {
    48 <= b <= 57
}

/// The trimmed type tag obeys the grammar: `P` with two digits, or `S` with
/// a two-digit sub-type between 00 and 11.
pub open spec fn valid_tag(t: Seq<u8>) -> bool {
    &&& t.len() == 3
    &&& {
        ||| t[0] == 80 && is_digit(t[1]) && is_digit(t[2])
        ||| t[0] == 83 && ((t[1] == 48 && is_digit(t[2])) || (t[1] == 49 && (t[2] == 48 || t[2]
            == 49)))
    }
}

/// The trimmed slice obeys the type-tag grammar.
pub fn check_tag(t: &[u8]) -> (r: bool)
    ensures
        r == valid_tag(t@),
{
    if t.len() != 3 {
        return false;
    }
    let c0 = t[0];
    let c1 = t[1];
    let c2 = t[2];
    (c0 == 80 && 48 <= c1 && c1 <= 57 && 48 <= c2 && c2 <= 57) || (c0 == 83 && ((c1 == 48 && 48
        <= c2 && c2 <= 57) || (c1 == 49 && (c2 == 48 || c2 == 49))))
}

/// Mathematical model of an entity.
pub ghost struct EntityView {
    pub x: int,
    pub y: int,
    pub z: int,
    pub index: int,
    pub reserved: int,
    pub name: Seq<u8>,
    pub tag: Seq<u8>,
}

impl EntityView {
    /// Every field is in range and the text fields are validated: the name
    /// is ASCII with no whitespace at either end, and the tag obeys the
    /// grammar.
    pub open spec fn wf(self) -> bool {
        &&& i32::MIN <= self.x <= i32::MAX
        &&& i32::MIN <= self.y <= i32::MAX
        &&& i32::MIN <= self.z <= i32::MAX
        &&& i32::MIN <= self.index <= i32::MAX
        &&& i32::MIN <= self.reserved <= i32::MAX
        &&& is_ascii(self.name)
        &&& self.name.len() <= NAME_FIELD_LEN
        &&& self.name.len() > 0 ==> !is_ascii_space(self.name[0]) && !is_ascii_space(
            self.name[self.name.len() - 1],
        )
        &&& is_ascii(self.tag)
        &&& valid_tag(self.tag)
    }

    /// The entity is a star: its tag begins with `S`.
    pub open spec fn is_star(self) -> bool {
        self.tag.len() > 0 && self.tag[0] == 83
    }

    /// The entity is a planet: its tag begins with `P`.
    pub open spec fn is_planet(self) -> bool {
        self.tag.len() > 0 && self.tag[0] == 80
    }
}

/// One decoded record: a star or a planet.
#[derive(Debug)]
pub struct Entity {
    /// Raw fixed-point x coordinate.
    pub x: i32,
    /// Raw fixed-point y coordinate, already sign-corrected by the decoder.
    pub y: i32,
    /// Raw fixed-point z coordinate.
    pub z: i32,
    /// External catalog identifier; not necessarily unique or sequential.
    pub index: i32,
    /// Read to keep the stream aligned; carries no defined meaning.
    pub reserved: i32,
    /// Trimmed ASCII name, possibly empty.
    pub name: Vec<u8>,
    /// Trimmed, validated type tag.
    pub type_tag: Vec<u8>,
}

impl View for Entity {
    type V = EntityView;

    open spec fn view(&self) -> EntityView {
        EntityView {
            x: self.x as int,
            y: self.y as int,
            z: self.z as int,
            index: self.index as int,
            reserved: self.reserved as int,
            name: self.name@,
            tag: self.type_tag@,
        }
    }
}

impl Entity {
    /// The entity classifies as a star.
    pub fn is_star(&self) -> (r: bool)
        ensures
            r == self@.is_star(),
    {
        self.type_tag.len() > 0 && self.type_tag[0] == 83
    }

    /// The entity classifies as a planet.
    pub fn is_planet(&self) -> (r: bool)
        ensures
            r == self@.is_planet(),
    {
        self.type_tag.len() > 0 && self.type_tag[0] == 80
    }

    /// A field-for-field copy of the entity.
    pub fn duplicate(&self) -> (r: Entity)
        ensures
            r@ == self@,
    {
        Entity {
            x: self.x,
            y: self.y,
            z: self.z,
            index: self.index,
            reserved: self.reserved,
            name: vstd::slice::slice_to_vec(self.name.as_slice()),
            type_tag: vstd::slice::slice_to_vec(self.type_tag.as_slice()),
        }
    }
}

/// Among well-formed entities, star and planet are the only kinds, and they
/// exclude one another.
pub proof fn lemma_star_planet_partition(e: EntityView)
    requires
        e.wf(),
    ensures
        e.is_star() <==> !e.is_planet(),
{
}

} // verus!
