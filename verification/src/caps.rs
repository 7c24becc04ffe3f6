//! Negotiating the two sides of the scaler: the size is free, everything else passes through.

use vstd::math::abs;
use vstd::prelude::*;

verus! {

/// What one dimension of a format may be.
#[derive(Debug, Clone)]
pub enum Dim {
    /// Nothing is said of it.
    Absent,
    Fixed(i32),
    /// Any whole number from `min` to `max`.
    Range { min: i32, max: i32 },
    /// One of these.
    Choice(Vec<i32>),
}

/// One structure of a set of capabilities.
#[derive(Debug)]
pub struct Structure {
    pub width: Dim,
    pub height: Dim,
    /// The shape of a pixel, if one is given.
    pub pixel_aspect_ratio: Option<(i32, i32)>,
    /// All other fields, by a number that stands for them.
    pub others: u64,
    /// The memory features, by a number that stands for them.
    pub features: u64,
}

impl Dim {
    /// `n` is a size this allows.
    pub open spec fn allows(self, n: int) -> bool {
        match self {
            Dim::Absent => false,
            Dim::Fixed(x) => n == x,
            Dim::Range { min, max } => min <= n <= max,
            Dim::Choice(all) => exists|i: int| 0 <= i < all@.len() && #[trigger] all@[i] == n,
        }
    }
}

pub open spec fn distance(a: int, b: int) -> int {
    if a <= b {
        b - a
    } else {
        a - b
    }
}

/// Nothing that `dim` allows lies nearer to `target` than `n` does.
pub open spec fn nearest(dim: Dim, target: int, n: int) -> bool {
    &&& dim.allows(n)
    &&& forall|m: int| #[trigger] dim.allows(m) ==> distance(n, target) <= distance(m, target)
}

/// `after` is `dim` settled on the size nearest to `target`; a dimension that allows nothing
/// stays as it is. Of two sizes equally near, the one that is listed first is taken.
pub open spec fn settled(dim: Dim, target: i32, after: Dim) -> bool {
    if exists|m: int| #[trigger] dim.allows(m) {
        &&& after matches Dim::Fixed(n) && nearest(dim, target as int, n as int) && (
        dim matches Dim::Choice(all) ==> exists|i: int|
            0 <= i < all@.len() && #[trigger] all@[i] == n && forall|k: int|
                0 <= k < i ==> distance(#[trigger] all@[k] as int, target as int) > distance(
                    n as int,
                    target as int,
                ))
    } else {
        after == dim
    }
}

fn gap(a: i32, b: i32) -> (d: i64)
    ensures
        d == distance(a as int, b as int),
{
    if a <= b {
        b as i64 - a as i64
    } else {
        a as i64 - b as i64
    }
}

/// Settle a dimension on the size nearest to `target`.
fn settle(dim: Dim, target: i32) -> (after: Dim)
    ensures
        settled(dim, target, after),
{
    let ghost t = target as int;
    match dim {
        Dim::Absent => {
            assert forall|m: int| !#[trigger] dim.allows(m) by {}
            dim
        },
        Dim::Fixed(n) => {
            assert(dim.allows(n as int));
            dim
        },
        Dim::Range { min, max } => {
            if min > max {
                assert forall|m: int| !#[trigger] dim.allows(m) by {}
                return dim;
            }
            let n: i32 = if target < min {
                min
            } else if target > max {
                max
            } else {
                target
            };
            assert(dim.allows(n as int));
            Dim::Fixed(n)
        },
        Dim::Choice(all) => {
            let count: usize = all.len();
            if count == 0 {
                assert forall|m: int| !#[trigger] dim.allows(m) by {}
                return Dim::Choice(all);
            }
            let mut best: usize = 0;
            let mut i: usize = 1;
            while i < count
                invariant
                    count == all@.len(),
                    best < i <= count,
                    forall|k: int|
                        0 <= k < best ==> distance(#[trigger] all@[k] as int, target as int)
                            > distance(all@[best as int] as int, target as int),
                    forall|k: int|
                        0 <= k < i ==> distance(#[trigger] all@[k] as int, target as int)
                            >= distance(all@[best as int] as int, target as int),
                decreases count - i,
            {
                if gap(all[i], target) < gap(all[best], target) {
                    best = i;
                }
                i += 1;
            }
            let n: i32 = all[best];
            proof {
                assert(all@[best as int] == n);
                assert(dim.allows(n as int));
                assert forall|m: int| #[trigger] dim.allows(m) implies distance(n as int, t)
                    <= distance(m, t) by {
                    let k = choose|k: int| 0 <= k < all@.len() && #[trigger] all@[k] == m;
                    assert(distance(all@[k] as int, t) >= distance(n as int, t));
                }
            }
            Dim::Fixed(n)
        },
    }
}

/// A structure with its size left open, and the rest as it is.
pub open spec fn freed(structure: Structure) -> Structure {
    Structure {
        width: Dim::Range { min: 1, max: i32::MAX },
        height: Dim::Range { min: 1, max: i32::MAX },
        ..structure
    }
}

pub open spec fn all_freed(caps: Seq<Structure>) -> Seq<Structure> {
    caps.map_values(|s: Structure| freed(s))
}

/// What the other side of the scaler may be: any size, and the rest as it is.
pub fn free_size(caps: &Vec<Structure>) -> (free: Vec<Structure>)
    ensures
        free@ == all_freed(caps@),
        free@.len() == caps@.len(),
        forall|i: int|
            0 <= i < caps@.len() ==> #[trigger] free@[i] == (Structure {
                width: Dim::Range { min: 1, max: i32::MAX },
                height: Dim::Range { min: 1, max: i32::MAX },
                pixel_aspect_ratio: caps@[i].pixel_aspect_ratio,
                others: caps@[i].others,
                features: caps@[i].features,
            }),
{
    let mut free: Vec<Structure> = Vec::new();
    let n: usize = caps.len();
    let mut i: usize = 0;
    while i < n
        invariant
            n == caps@.len(),
            i <= n,
            free@.len() == i,
            forall|k: int| 0 <= k < i ==> #[trigger] free@[k] == freed(caps@[k]),
        decreases n - i,
    {
        free.push(
            Structure {
                width: Dim::Range { min: 1, max: i32::MAX },
                height: Dim::Range { min: 1, max: i32::MAX },
                pixel_aspect_ratio: caps[i].pixel_aspect_ratio,
                others: caps[i].others,
                features: caps[i].features,
            },
        );
        i += 1;
    }
    assert(free@ =~= all_freed(caps@));
    free
}

/// The size that the first structure of `caps` fixes, if it fixes both dimensions.
pub open spec fn fixed_size(caps: Seq<Structure>) -> Option<(i32, i32)> {
    if caps.len() > 0 {
        match (caps[0].width, caps[0].height) {
            (Dim::Fixed(w), Dim::Fixed(h)) => Some((w, h)),
            _ => None,
        }
    } else {
        None
    }
}

/// `after` is what is left of `other` once it was settled towards `caps`.
pub open spec fn fixated(
    caps: Seq<Structure>,
    other: Seq<Structure>,
    after: Seq<Structure>,
) -> bool {
    &&& after.len() == (if other.len() > 0 {
        1int
    } else {
        0int
    })
    &&& other.len() > 0 ==> {
        let was = other[0];
        let is = after[0];
        match fixed_size(caps) {
            Some(size) => {
                &&& settled(was.width, size.0, is.width)
                &&& settled(was.height, size.1, is.height)
                &&& is == (Structure { width: is.width, height: is.height, ..was })
            },
            None => is == was,
        }
    }
}

/// Settle `other` as near as it allows to the size that `caps` fixes. Only the first structure
/// of `other` stays. What is still open afterwards is for the framework to choose.
pub fn fixate_prefer(caps: &Vec<Structure>, other: Vec<Structure>) -> (settled_caps: Vec<Structure>)
    ensures
        settled_caps@.len() == (if other@.len() > 0 {
            1int
        } else {
            0int
        }),
        other@.len() > 0 ==> {
            let was = other@[0];
            let is = settled_caps@[0];
            match fixed_size(caps@) {
                Some(size) => {
                    &&& settled(was.width, size.0, is.width)
                    &&& settled(was.height, size.1, is.height)
                    &&& is == (Structure { width: is.width, height: is.height, ..was })
                },
                None => is == was,
            }
        },
        fixated(caps@, other@, settled_caps@),
{
    let mut settled_caps: Vec<Structure> = Vec::new();
    let mut other = other;
    if other.len() == 0 {
        return settled_caps;
    }
    let first = other.swap_remove(0);
    let size = if caps.len() > 0 {
        match (&caps[0].width, &caps[0].height) {
            (Dim::Fixed(w), Dim::Fixed(h)) => Some((*w, *h)),
            _ => None,
        }
    } else {
        None
    };
    let first = match size {
        Some((w, h)) => Structure {
            width: settle(first.width, w),
            height: settle(first.height, h),
            pixel_aspect_ratio: first.pixel_aspect_ratio,
            others: first.others,
            features: first.features,
        },
        None => first,
    };
    settled_caps.push(first);
    settled_caps
}

/// To free a size that is free changes nothing.
pub proof fn law_a_size_is_freed_once(caps: Seq<Structure>)
    ensures
        all_freed(all_freed(caps)) == all_freed(caps),
{
    assert(all_freed(all_freed(caps)) =~= all_freed(caps));
}

/// A dimension that is free settles on the size the other side fixes; one that is pinned stays
/// where it is pinned, whatever the other side fixes.
pub proof fn law_a_free_side_follows_and_a_pinned_side_stays(
    target: i32,
    pinned: i32,
    after_free: Dim,
    after_pinned: Dim,
)
    requires
        target >= 1,
        settled(Dim::Range { min: 1, max: i32::MAX }, target, after_free),
        settled(Dim::Fixed(pinned), target, after_pinned),
    ensures
        after_free == Dim::Fixed(target),
        after_pinned == Dim::Fixed(pinned),
{
    assert((Dim::Range { min: 1, max: i32::MAX }).allows(target as int));
    assert(Dim::Fixed(pinned).allows(pinned as int));
}

/// How a dimension settles. One that is fixed, or says nothing, stays; a range goes to the wanted
/// size, or to the end that is nearer to it; a list goes to the entry that is nearest, the first
/// of several that are equally near. A range or list without a size in it stays as it is.
pub proof fn law_a_dimension_settles_as_near_as_it_can(dim: Dim, target: i32, after: Dim)
    requires
        settled(dim, target, after),
    ensures
        dim is Fixed || dim is Absent ==> after == dim,
        dim matches Dim::Range { min, max } ==> {
            &&& min > max ==> after == dim
            &&& min <= max && target < min ==> after == Dim::Fixed(min)
            &&& min <= max && target > max ==> after == Dim::Fixed(max)
            &&& min <= target <= max ==> after == Dim::Fixed(target)
        },
        dim matches Dim::Choice(all) ==> {
            &&& all@.len() == 0 ==> after == dim
            &&& all@.len() > 0 ==> after is Fixed && exists|i: int|
                0 <= i < all@.len() && #[trigger] all@[i] == after->Fixed_0 && (forall|k: int|
                    0 <= k < all@.len() ==> abs(#[trigger] all@[k] - target) >= abs(
                        after->Fixed_0 - target,
                    )) && (forall|k: int|
                    0 <= k < i ==> abs(#[trigger] all@[k] - target) > abs(
                        after->Fixed_0 - target,
                    ))
        },
{
    match dim {
        Dim::Absent => {},
        Dim::Fixed(n) => {
            assert(dim.allows(n as int));
        },
        Dim::Range { min, max } => {
            if min <= max {
                assert(dim.allows(min as int));
                assert(dim.allows(max as int));
                if min <= target <= max {
                    assert(dim.allows(target as int));
                }
            } else {
                assert forall|m: int| !#[trigger] dim.allows(m) by {}
            }
        },
        Dim::Choice(all) => {
            if all@.len() > 0 {
                assert(all@[0] == all@[0]);
                assert(dim.allows(all@[0] as int));
                let n = after->Fixed_0;
                let i = choose|i: int|
                    0 <= i < all@.len() && #[trigger] all@[i] == n && forall|k: int|
                        0 <= k < i ==> distance(#[trigger] all@[k] as int, target as int)
                            > distance(n as int, target as int);
                assert(all@[i] == n);
                assert forall|k: int| 0 <= k < all@.len() implies abs(#[trigger] all@[k] - target)
                    >= abs(n - target) by {
                    assert(dim.allows(all@[k] as int));
                }
                assert forall|k: int| 0 <= k < i implies abs(#[trigger] all@[k] - target) > abs(
                    n - target,
                ) by {
                    assert(distance(all@[k] as int, target as int) > distance(
                        n as int,
                        target as int,
                    ));
                }
            } else {
                assert forall|m: int| !#[trigger] dim.allows(m) by {}
            }
        },
    }
}

/// The other side of the scaler may have any size from one pixel up, and has everything else in
/// common with this one, structure by structure.
pub proof fn law_only_the_size_is_free(caps: Seq<Structure>, i: int)
    requires
        0 <= i < caps.len(),
    ensures
        all_freed(caps).len() == caps.len(),
        ({
            let free = all_freed(caps)[i];
            &&& free.width == (Dim::Range { min: 1, max: 0x7fff_ffff })
            &&& free.height == (Dim::Range { min: 1, max: 0x7fff_ffff })
            &&& free.pixel_aspect_ratio == caps[i].pixel_aspect_ratio
            &&& free.others == caps[i].others
            &&& free.features == caps[i].features
        }),
{
}

/// A size is fixed by the first structure alone, and only if that fixes both dimensions.
pub proof fn law_the_first_structure_fixes_the_size(caps: Seq<Structure>, w: i32, h: i32)
    ensures
        fixed_size(caps) == Some((w, h)) <==> caps.len() > 0 && caps[0].width == Dim::Fixed(w)
            && caps[0].height == Dim::Fixed(h),
{
}

/// Of the caps that are settled, the first structure is left. Its width settles by the width
/// that is fixed on the other side, its height by the height, and everything else stays; with no
/// size fixed on the other side it stays as it is.
pub proof fn law_the_first_structure_is_settled(
    caps: Seq<Structure>,
    other: Seq<Structure>,
    after: Seq<Structure>,
    w: i32,
    h: i32,
)
    requires
        fixated(caps, other, after),
        other.len() > 0,
    ensures
        after.len() == 1,
        after[0].pixel_aspect_ratio == other[0].pixel_aspect_ratio,
        after[0].others == other[0].others,
        after[0].features == other[0].features,
        caps.len() == 0 || !(caps[0].width is Fixed) || !(caps[0].height is Fixed) ==> after[0]
            == other[0],
        caps.len() > 0 && caps[0].width == Dim::Fixed(w) && caps[0].height == Dim::Fixed(h) ==> {
            &&& other[0].width == (Dim::Range { min: 1, max: i32::MAX }) && w >= 1
                ==> after[0].width == Dim::Fixed(w)
            &&& other[0].height == (Dim::Range { min: 1, max: i32::MAX }) && h >= 1
                ==> after[0].height == Dim::Fixed(h)
            &&& other[0].width is Fixed ==> after[0].width == other[0].width
            &&& other[0].height is Fixed ==> after[0].height == other[0].height
        },
{
    if caps.len() > 0 && caps[0].width == Dim::Fixed(w) && caps[0].height == Dim::Fixed(h) {
        law_a_dimension_settles_as_near_as_it_can(other[0].width, w, after[0].width);
        law_a_dimension_settles_as_near_as_it_can(other[0].height, h, after[0].height);
    }
}

} // verus!
