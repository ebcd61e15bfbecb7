use vstd::prelude::*;

verus! {

/// The six axis-aligned face directions of a voxel, each classified as
/// positive or negative along its axis. Used to index neighbor slots and to
/// select face-emission geometry, normal and winding.
#[derive(Copy, Clone, PartialEq, Eq, Structural, Hash, Debug)]
pub enum AADirection {
    XPositive,
    XNegative,
    YPositive,
    YNegative,
    ZPositive,
    ZNegative,
}

impl AADirection {
    /// The table index of this direction: X+, X-, Y+, Y-, Z+, Z- in order.
    pub open spec fn ix(self) -> int {
        match self {
            AADirection::XPositive => 0,
            AADirection::XNegative => 1,
            AADirection::YPositive => 2,
            AADirection::YNegative => 3,
            AADirection::ZPositive => 4,
            AADirection::ZNegative => 5,
        }
    }

    /// Whether this direction points toward the positive end of its axis.
    pub open spec fn spec_positive(self) -> bool {
        match self {
            AADirection::XPositive => true,
            AADirection::XNegative => false,
            AADirection::YPositive => true,
            AADirection::YNegative => false,
            AADirection::ZPositive => true,
            AADirection::ZNegative => false,
        }
    }

    /// The axis of this direction: 0 for X, 1 for Y, 2 for Z.
    pub open spec fn axis(self) -> int {
        match self {
            AADirection::XPositive => 0,
            AADirection::XNegative => 0,
            AADirection::YPositive => 1,
            AADirection::YNegative => 1,
            AADirection::ZPositive => 2,
            AADirection::ZNegative => 2,
        }
    }

    /// X component of the unit step toward the adjacent voxel.
    pub open spec fn offset_x(self) -> int {
        if self.axis() == 0 {
            if self.spec_positive() { 1 } else { -1 }
        } else {
            0
        }
    }

    /// Y component of the unit step toward the adjacent voxel.
    pub open spec fn offset_y(self) -> int {
        if self.axis() == 1 {
            if self.spec_positive() { 1 } else { -1 }
        } else {
            0
        }
    }

    /// Z component of the unit step toward the adjacent voxel.
    pub open spec fn offset_z(self) -> int {
        if self.axis() == 2 {
            if self.spec_positive() { 1 } else { -1 }
        } else {
            0
        }
    }

    /// The direction with the given table index.
    pub open spec fn from_ix(k: int) -> AADirection {
        if k == 0 {
            AADirection::XPositive
        } else if k == 1 {
            AADirection::XNegative
        } else if k == 2 {
            AADirection::YPositive
        } else if k == 3 {
            AADirection::YNegative
        } else if k == 4 {
            AADirection::ZPositive
        } else {
            AADirection::ZNegative
        }
    }

    pub fn index(&self) -> (i: usize)
        ensures
            i == self.ix(),
    {
        match self {
            AADirection::XPositive => 0,
            AADirection::XNegative => 1,
            AADirection::YPositive => 2,
            AADirection::YNegative => 3,
            AADirection::ZPositive => 4,
            AADirection::ZNegative => 5,
        }
    }

    pub fn from_index(i: usize) -> (d: AADirection)
        requires
            i < 6,
        ensures
            d.ix() == i,
            d == AADirection::from_ix(i as int),
    {
        if i == 0 {
            AADirection::XPositive
        } else if i == 1 {
            AADirection::XNegative
        } else if i == 2 {
            AADirection::YPositive
        } else if i == 3 {
            AADirection::YNegative
        } else if i == 4 {
            AADirection::ZPositive
        } else {
            AADirection::ZNegative
        }
    }

    pub fn axis_index(&self) -> (a: usize)
        ensures
            a == self.axis(),
    {
        match self {
            AADirection::XPositive => 0,
            AADirection::XNegative => 0,
            AADirection::YPositive => 1,
            AADirection::YNegative => 1,
            AADirection::ZPositive => 2,
            AADirection::ZNegative => 2,
        }
    }

    pub fn is_positive(&self) -> (r: bool)
        ensures
            r == self.spec_positive(),
    {
        match self {
            AADirection::XPositive => true,
            AADirection::XNegative => false,
            AADirection::YPositive => true,
            AADirection::YNegative => false,
            AADirection::ZPositive => true,
            AADirection::ZNegative => false,
        }
    }

    pub fn is_negative(&self) -> (r: bool)
        ensures
            r == !self.spec_positive(),
    {
        !self.is_positive()
    }

    /// The direction on the same axis with the opposite sign.
    pub fn opposite(&self) -> (d: AADirection)
        ensures
            d.axis() == self.axis(),
            d.spec_positive() == !self.spec_positive(),
    {
        match self {
            AADirection::XPositive => AADirection::XNegative,
            AADirection::XNegative => AADirection::XPositive,
            AADirection::YPositive => AADirection::YNegative,
            AADirection::YNegative => AADirection::YPositive,
            AADirection::ZPositive => AADirection::ZNegative,
            AADirection::ZNegative => AADirection::ZPositive,
        }
    }
}

} // verus!
