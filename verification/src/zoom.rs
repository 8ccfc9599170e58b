//! The zoom levels of the content view.

use vstd::prelude::*;

verus! {

/// The levels, in percent.
pub const ZOOM_STEPS: [u32; 16] = [
    25,
    33,
    50,
    67,
    75,
    90,
    100,
    110,
    125,
    150,
    175,
    200,
    250,
    300,
    400,
    500,
];

/// The level that is used before anything else is chosen.
pub const DEFAULT_ZOOM: u32 = 100;

/// Whether `percent` is one of the levels.
pub open spec fn is_step(percent: u32) -> bool {
    ZOOM_STEPS@.contains(percent)
}

/// Whether `r` is the next level up from `current`: the lowest one above it, or the highest
/// level if there is none above it.
pub open spec fn is_next_step(current: u32, r: u32) -> bool {
    if current < ZOOM_STEPS@[15] {
        &&& is_step(r)
        &&& current < r
        &&& forall|s: u32| #[trigger] is_step(s) && current < s ==> r <= s
    } else {
        r == ZOOM_STEPS@[15]
    }
}

/// Whether `r` is the next level down from `current`: the highest one below it, or the lowest
/// level if there is none below it.
pub open spec fn is_prev_step(current: u32, r: u32) -> bool {
    if current > ZOOM_STEPS@[0] {
        &&& is_step(r)
        &&& r < current
        &&& forall|s: u32| #[trigger] is_step(s) && s < current ==> s <= r
    } else {
        r == ZOOM_STEPS@[0]
    }
}

/// The levels rise strictly, from 25 to 500.
pub proof fn steps_rise()
    ensures
        forall|i: int, j: int| 0 <= i < j < 16 ==> ZOOM_STEPS@[i] < ZOOM_STEPS@[j],
        ZOOM_STEPS@[0] == 25,
        ZOOM_STEPS@[15] == 500,
        forall|s: u32| #[trigger] is_step(s) ==> 25 <= s <= 500,
        is_step(DEFAULT_ZOOM),
{
    assert(ZOOM_STEPS@[6] == DEFAULT_ZOOM);
}

/// The next level up.
pub fn next_zoom(current: u32) -> (r: u32)
    ensures
        is_next_step(current, r),
{
    proof {
        steps_rise();
    }
    let mut i: usize = 0;
    while i < 16
        invariant
            i <= 16,
            forall|j: int| 0 <= j < i ==> ZOOM_STEPS@[j] <= current,
        decreases 16 - i,
    {
        if ZOOM_STEPS[i] > current {
            proof {
                steps_rise();
                let r = ZOOM_STEPS@[i as int];
                assert(is_step(r));
            }
            return ZOOM_STEPS[i];
        }
        i = i + 1;
    }
    assert(is_step(ZOOM_STEPS@[15]));
    ZOOM_STEPS[15]
}

/// The next level down.
pub fn prev_zoom(current: u32) -> (r: u32)
    ensures
        is_prev_step(current, r),
{
    proof {
        steps_rise();
    }
    let mut i: usize = 16;
    while i > 0
        invariant
            i <= 16,
            forall|j: int| i <= j < 16 ==> ZOOM_STEPS@[j] >= current,
        decreases i,
    {
        if ZOOM_STEPS[i - 1] < current {
            proof {
                steps_rise();
                let r = ZOOM_STEPS@[i - 1];
                assert(is_step(r));
            }
            return ZOOM_STEPS[i - 1];
        }
        i = i - 1;
    }
    assert(is_step(ZOOM_STEPS@[0]));
    ZOOM_STEPS[0]
}

/// There is only one next level up and one next level down.
pub proof fn neighbours_are_unique(current: u32, r: u32, s: u32)
    ensures
        is_next_step(current, r) && is_next_step(current, s) ==> r == s,
        is_prev_step(current, r) && is_prev_step(current, s) ==> r == s,
{
}

/// Zooming in and then out leads back, from every level but the highest.
pub proof fn out_undoes_in(current: u32, up: u32, back: u32)
    requires
        is_step(current),
        current < 500,
        is_next_step(current, up),
        is_prev_step(up, back),
    ensures
        back == current,
{
    steps_rise();
    assert(is_step(ZOOM_STEPS@[15]));
}

/// Zooming out and then in leads back, from every level but the lowest.
pub proof fn in_undoes_out(current: u32, down: u32, back: u32)
    requires
        is_step(current),
        current > 25,
        is_prev_step(current, down),
        is_next_step(down, back),
    ensures
        back == current,
{
    steps_rise();
    assert(is_step(ZOOM_STEPS@[0]));
}

/// Wherever it starts, zooming leads to one of the levels.
pub proof fn zoom_stays_in_range(current: u32, r: u32)
    requires
        is_next_step(current, r) || is_prev_step(current, r),
    ensures
        is_step(r),
        25 <= r <= 500,
{
    steps_rise();
    assert(is_step(ZOOM_STEPS@[15]));
    assert(is_step(ZOOM_STEPS@[0]));
}

/// The levels, all of them.
pub proof fn levels_are_known(percent: u32)
    ensures
        is_step(percent) <==> seq![
            25u32, 33, 50, 67, 75, 90, 100, 110, 125, 150, 175, 200, 250, 300, 400, 500,
        ].contains(percent),
{
    let all = seq![
        25u32, 33, 50, 67, 75, 90, 100, 110, 125, 150, 175, 200, 250, 300, 400, 500,
    ];
    assert(ZOOM_STEPS@ =~= all);
}

/// Zooming in leads to the nearest level above, and stays at 500 from there on; zooming out leads
/// to the nearest level below, and stays at 25 down from there.
pub proof fn zooming_leads_to_the_nearest_level(current: u32, r: u32, other: u32)
    requires
        is_step(other),
    ensures
        is_next_step(current, r) && current < 500 ==> {
            &&& is_step(r)
            &&& current < r
            &&& !(current < other < r)
        },
        is_next_step(current, r) && current >= 500 ==> r == 500,
        is_prev_step(current, r) && current > 25 ==> {
            &&& is_step(r)
            &&& r < current
            &&& !(r < other < current)
        },
        is_prev_step(current, r) && current <= 25 ==> r == 25,
{
    steps_rise();
}

} // verus!
