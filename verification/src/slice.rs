//! The name of a slice that a host wants drawn, with its mirroring.

use vstd::prelude::*;

verus! {

/// Identifies a slice by name
#[derive(Debug)]
pub struct AsepriteSlice {
    name: String,
    flip_x: bool,
    flip_y: bool,
}

/// What an [`AsepriteSlice`] holds.
pub struct AsepriteSliceView {
    /// The name of the slice
    pub name: Seq<char>,
    /// Whether the slice is mirrored left to right
    pub flip_x: bool,
    /// Whether the slice is mirrored top to bottom
    pub flip_y: bool,
}

impl View for AsepriteSlice {
    type V = AsepriteSliceView;

    closed spec fn view(&self) -> AsepriteSliceView {
        AsepriteSliceView { name: self.name@, flip_x: self.flip_x, flip_y: self.flip_y }
    }
}

impl AsepriteSlice {
    /// The slice of a name, not mirrored.
    pub fn new(name: &str) -> (slice: AsepriteSlice)
        ensures
            slice@ == (AsepriteSliceView { name: name@, flip_x: false, flip_y: false }),
    {
        AsepriteSlice { name: name.to_owned(), flip_x: false, flip_y: false }
    }

    /// The slice, mirrored left to right.
    pub fn flip_x(self) -> (slice: AsepriteSlice)
        ensures
            slice@ == (AsepriteSliceView { flip_x: true, ..self@ }),
    {
        let mut slice = self;
        slice.flip_x = true;
        slice
    }

    /// The slice, mirrored top to bottom.
    pub fn flip_y(self) -> (slice: AsepriteSlice)
        ensures
            slice@ == (AsepriteSliceView { flip_y: true, ..self@ }),
    {
        let mut slice = self;
        slice.flip_y = true;
        slice
    }

    /// Sets whether the slice is mirrored left to right.
    pub fn set_flip_x(&mut self, flip_x: bool)
        ensures
            final(self)@ == (AsepriteSliceView { flip_x, ..old(self)@ }),
    {
        self.flip_x = flip_x;
    }

    /// Sets whether the slice is mirrored top to bottom.
    pub fn set_flip_y(&mut self, flip_y: bool)
        ensures
            final(self)@ == (AsepriteSliceView { flip_y, ..old(self)@ }),
    {
        self.flip_y = flip_y;
    }

    /// The name of the slice
    pub fn name(&self) -> (name: &str)
        ensures
            name@ == self@.name,
    {
        self.name.as_str()
    }

    /// Whether the slice is mirrored left to right
    pub fn is_flipped_x(&self) -> (flipped: bool)
        ensures
            flipped == self@.flip_x,
    {
        self.flip_x
    }

    /// Whether the slice is mirrored top to bottom
    pub fn is_flipped_y(&self) -> (flipped: bool)
        ensures
            flipped == self@.flip_y,
    {
        self.flip_y
    }
}

impl Default for AsepriteSlice {
    fn default() -> (slice: AsepriteSlice)
        ensures
            slice@ == (AsepriteSliceView { name: Seq::empty(), flip_x: false, flip_y: false }),
    {
        AsepriteSlice { name: String::new(), flip_x: false, flip_y: false }
    }
}

impl From<&str> for AsepriteSlice {
    fn from(name: &str) -> (slice: AsepriteSlice)
        ensures
            slice@ == (AsepriteSliceView { name: name@, flip_x: false, flip_y: false }),
    {
        AsepriteSlice::new(name)
    }
}

impl vstd::std_specs::convert::FromSpecImpl<&str> for AsepriteSlice {
    open spec fn obeys_from_spec() -> bool {
        false
    }

    open spec fn from_spec(name: &str) -> AsepriteSlice {
        arbitrary()
    }
}

} // verus!
