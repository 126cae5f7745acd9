use vstd::prelude::*;

verus! {

/// One hand of the fractal clock, produced fresh each frame.
///
/// The geometry is exact rather than numeric: the segment starts at the
/// tip of the segment at index `parent` of the same generated list (at
/// the tree's center when `parent` is `None`), and runs for one arm
/// length in the direction `angle_units`, measured in
/// [`crate::angle::UNITS_PER_TURN`]ths of a full turn.  Brightness is the
/// exact rational `brightness_num / brightness_den` in (0, 1]; the stroke
/// thickness is three times the brightness.
#[derive(Clone, Copy, Debug, PartialEq, Eq)]
pub struct Segment {
    pub parent: Option<usize>,
    pub angle_units: i64,
    pub brightness_num: u64,
    pub brightness_den: u64,
}

/// Mathematical image of a [`Segment`]: the same fields over unbounded
/// integers.
pub struct ArmModel {
    pub parent: Option<int>,
    pub angle: int,
    pub brightness_num: int,
    pub brightness_den: int,
}

impl View for Segment {
    type V = ArmModel;

    open spec fn view(&self) -> ArmModel {
        ArmModel {
            parent: match self.parent {
                Some(p) => Some(p as int),
                None => None,
            },
            angle: self.angle_units as int,
            brightness_num: self.brightness_num as int,
            brightness_den: self.brightness_den as int,
        }
    }
}

/// The images of a list of segments, in order.
pub open spec fn arms_of(s: Seq<Segment>) -> Seq<ArmModel> {
    s.map_values(|x: Segment| x@)
}

impl ArmModel {
    /// Stroke thickness, as the numerator of a rational over
    /// `brightness_den`: thickness is exactly three times the brightness.
    pub open spec fn thickness_num(self) -> int {
        3 * self.brightness_num
    }
}

/// Two segments with the same image are the same value.
pub proof fn lemma_view_injective(a: Segment, b: Segment)
    requires
        a@ == b@,
    ensures
        a == b,
{
    assert(a.parent == b.parent) by {
        match (a.parent, b.parent) {
            (Some(x), Some(y)) => {
                assert(a@.parent == Some(x as int));
                assert(b@.parent == Some(y as int));
            }
            _ => {}
        }
    }
}

} // verus!
