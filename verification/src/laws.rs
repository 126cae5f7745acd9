use vstd::prelude::*;
use crate::angle::{minutes_delta_units, seconds_delta_units, QUARTER_TURN_UNITS};
use crate::clock_time::ClockTime;
use crate::generator::{
    clock_model, lemma_node_arms_len, minutes_arm_index, node_arms, pow2, seg_count,
};
use crate::segment::{arms_of, lemma_view_injective, Segment};

verus! {

// Frame-wide laws of the generator, each proved once for every time and
// every depth.

/// What holds of the arm at position `i` of one node's list (budget `n`,
/// ceiling `m`, parent reference `parent`, first absolute index `base`):
/// brightness is a rational in (0, 1] that reaches `(n+1)/(m+1)` exactly
/// on the node's own two arms, and every arm other than those two hangs
/// off an earlier arm of the same list that is one brightness step
/// brighter.
pub open spec fn arm_ok(
    arms: Seq<crate::segment::ArmModel>,
    i: int,
    n: nat,
    m: nat,
    parent: Option<int>,
    base: int,
) -> bool {
    let a = arms[i];
    &&& 1 <= a.brightness_num <= n + 1 as int
    &&& a.brightness_den == m + 1 as int
    &&& if i == 0 || i == minutes_arm_index(n) {
        a.parent == parent && a.brightness_num == n + 1 as int
    } else {
        exists|j: int|
            0 <= j < i && a.parent == Some(base + j) && (#[trigger] arms[j]).brightness_num
                == a.brightness_num + 1
    }
}

/// Every arm of a node's list satisfies [`arm_ok`].
pub proof fn lemma_node_arms_wf(
    t: ClockTime,
    n: nat,
    m: nat,
    offset: int,
    parent: Option<int>,
    base: int,
)
    requires
        n <= m,
    ensures
        forall|i: int|
            0 <= i < node_arms(t, n, m, offset, parent, base).len() ==> #[trigger] arm_ok(
                node_arms(t, n, m, offset, parent, base),
                i,
                n,
                m,
                parent,
                base,
            ),
    decreases n,
{
    let arms = node_arms(t, n, m, offset, parent, base);
    let s_angle = seconds_delta_units(t) + offset;
    let m_angle = minutes_delta_units(t) + offset;
    let mid = minutes_arm_index(n);
    if n == 0 {
    } else {
        let n1 = (n - 1) as nat;
        let s_kids = node_arms(t, n1, m, s_angle, Some(base), base + 1);
        let m_kids = node_arms(t, n1, m, m_angle, Some(base + mid), base + mid + 1);
        lemma_node_arms_len(t, n1, m, s_angle, Some(base), base + 1);
        lemma_node_arms_len(t, n1, m, m_angle, Some(base + mid), base + mid + 1);
        lemma_node_arms_wf(t, n1, m, s_angle, Some(base), base + 1);
        lemma_node_arms_wf(t, n1, m, m_angle, Some(base + mid), base + mid + 1);
        assert(mid == 1 + s_kids.len());
        assert(arms.len() == 2 + s_kids.len() + m_kids.len());
        assert forall|i: int| 0 <= i < arms.len() implies #[trigger] arm_ok(
            arms,
            i,
            n,
            m,
            parent,
            base,
        ) by {
            if i == 0 || i == mid {
            } else if 1 <= i < mid {
                let i2 = i - 1;
                assert(arms[i] == s_kids[i2]);
                assert(arm_ok(s_kids, i2, n1, m, Some(base), base + 1));
                if i2 == 0 || i2 == minutes_arm_index(n1) {
                    assert(arms[0].brightness_num == n + 1 as int);
                    assert(0 <= 0 < i && arms[i].parent == Some(base + 0) && arms[0].brightness_num
                        == arms[i].brightness_num + 1);
                } else {
                    let j2 = choose|j: int|
                        0 <= j < i2 && s_kids[i2].parent == Some((base + 1) + j) && (#[trigger]
                        s_kids[j]).brightness_num == s_kids[i2].brightness_num + 1;
                    assert(arms[1 + j2] == s_kids[j2]);
                    assert(0 <= 1 + j2 < i && arms[i].parent == Some(base + (1 + j2)) && arms[1
                        + j2].brightness_num == arms[i].brightness_num + 1);
                }
            } else {
                let i2 = i - mid - 1;
                assert(arms[i] == m_kids[i2]);
                assert(arm_ok(m_kids, i2, n1, m, Some(base + mid), base + mid + 1));
                if i2 == 0 || i2 == minutes_arm_index(n1) {
                    assert(arms[mid].brightness_num == n + 1 as int);
                    assert(0 <= mid < i && arms[i].parent == Some(base + mid) && arms[
                        mid].brightness_num == arms[i].brightness_num + 1);
                } else {
                    let j2 = choose|j: int|
                        0 <= j < i2 && m_kids[i2].parent == Some((base + mid + 1) + j) && (#[trigger]
                        m_kids[j]).brightness_num == m_kids[i2].brightness_num + 1;
                    assert(arms[mid + 1 + j2] == m_kids[j2]);
                    assert(0 <= mid + 1 + j2 < i && arms[i].parent == Some(base + (mid + 1 + j2))
                        && arms[mid + 1 + j2].brightness_num == arms[i].brightness_num + 1);
                }
            }
        }
    }
}

/// `pow2` is at least one.
pub proof fn lemma_pow2_pos(n: nat)
    ensures
        pow2(n) >= 1,
    decreases n,
{
    if n > 0 {
        lemma_pow2_pos((n - 1) as nat);
    }
}

/// A node with budget `n` generates exactly `2·(2^(n+1) − 1)` segments.
pub proof fn lemma_seg_count_closed_form(n: nat)
    ensures
        seg_count(n) == 2 * (pow2(n + 1) - 1),
    decreases n,
{
    lemma_pow2_pos(n);
    if n == 0 {
    } else {
        lemma_seg_count_closed_form((n - 1) as nat);
        assert(pow2(n + 1) == 2 * pow2(n));
    }
}

/// For any time and any depth `d`, a frame holds exactly
/// `2·(2^(d+1) − 1)` segments.
pub proof fn lemma_frame_segment_count(t: ClockTime, d: nat)
    ensures
        clock_model(t, d).len() == seg_count(d),
        clock_model(t, d).len() == 2 * (pow2(d + 1) - 1),
{
    lemma_node_arms_len(t, d, d, 0, None, 0);
    lemma_seg_count_closed_form(d);
}

/// At depth zero a frame is the two bare hands: exactly two segments,
/// both at brightness one (and hence at the full stroke thickness of
/// three).
pub proof fn lemma_depth_zero_frame(t: ClockTime)
    ensures
        clock_model(t, 0).len() == 2,
        forall|i: int|
            0 <= i < 2 ==> (#[trigger] clock_model(t, 0)[i]).brightness_num == 1 && clock_model(
                t,
                0,
            )[i].brightness_den == 1 && clock_model(t, 0)[i].thickness_num() == 3,
{
    assert(clock_model(t, 0).len() == 2);
}

/// The root seconds arm (first of the frame) and the root minutes arm
/// both start at the tree's center: they alone carry no parent
/// reference.  Their angles are the plain hand angles of the frame's
/// time, with no inherited offset.
pub proof fn lemma_root_arms_start_at_center(t: ClockTime, d: nat)
    ensures
        clock_model(t, d)[0].parent is None,
        clock_model(t, d)[minutes_arm_index(d)].parent is None,
        clock_model(t, d)[0].angle == seconds_delta_units(t),
        clock_model(t, d)[minutes_arm_index(d)].angle == minutes_delta_units(t),
        forall|i: int|
            0 <= i < clock_model(t, d).len() && i != 0 && i != minutes_arm_index(d) ==> (#[trigger]
            clock_model(t, d)[i]).parent is Some,
{
    let model = node_arms(t, d, d, 0, None, 0);
    let mid = minutes_arm_index(d);
    lemma_node_arms_wf(t, d, d, 0, None, 0);
    lemma_node_arms_len(t, d, d, 0, None, 0);
    if d > 0 {
        let s_angle = seconds_delta_units(t) + 0;
        lemma_node_arms_len(t, (d - 1) as nat, d, s_angle, Some(0), 1);
    }
    assert forall|i: int| 0 <= i < model.len() && i != 0 && i != mid implies (#[trigger]
    model[i]).parent is Some by {
        assert(arm_ok(model, i, d, d, None, 0));
    }
}

/// Brightness falls off monotonically from root to leaf and never
/// reaches zero: every segment's brightness is a rational in (0, 1],
/// the parentless root arms sit exactly at one, and every child arm is
/// exactly one brightness step dimmer than the arm it hangs off.
pub proof fn lemma_brightness_falloff(t: ClockTime, d: nat)
    ensures
        forall|i: int|
            0 <= i < clock_model(t, d).len() ==> {
                let a = #[trigger] clock_model(t, d)[i];
                &&& 1 <= a.brightness_num <= a.brightness_den
                &&& a.brightness_den == d + 1 as int
                &&& (a.parent is None ==> a.brightness_num == a.brightness_den)
                &&& (a.parent matches Some(j) ==> 0 <= j < i && clock_model(t, d)[j].brightness_num
                    == a.brightness_num + 1)
            },
{
    let model = node_arms(t, d, d, 0, None, 0);
    lemma_node_arms_wf(t, d, d, 0, None, 0);
    assert forall|i: int| 0 <= i < clock_model(t, d).len() implies {
        let a = #[trigger] clock_model(t, d)[i];
        &&& 1 <= a.brightness_num <= a.brightness_den
        &&& a.brightness_den == d + 1 as int
        &&& (a.parent is None ==> a.brightness_num == a.brightness_den)
        &&& (a.parent matches Some(j) ==> 0 <= j < i && clock_model(t, d)[j].brightness_num
            == a.brightness_num + 1)
    } by {
        assert(arm_ok(model, i, d, d, None, 0));
    }
}

/// The last arm of a node's list is a leaf: it carries the dimmest
/// brightness numerator, one.
pub proof fn lemma_node_last_arm_is_leaf(
    t: ClockTime,
    n: nat,
    m: nat,
    offset: int,
    parent: Option<int>,
    base: int,
)
    ensures
        node_arms(t, n, m, offset, parent, base).len() > 0,
        node_arms(t, n, m, offset, parent, base).last().brightness_num == 1,
    decreases n,
{
    if n > 0 {
        let s_angle = seconds_delta_units(t) + offset;
        let m_angle = minutes_delta_units(t) + offset;
        let s_kids = node_arms(t, (n - 1) as nat, m, s_angle, Some(base), base + 1);
        let mid = base + 1 + s_kids.len();
        lemma_node_last_arm_is_leaf(t, (n - 1) as nat, m, m_angle, Some(mid), mid + 1);
        let m_kids = node_arms(t, (n - 1) as nat, m, m_angle, Some(mid), mid + 1);
        let arms = node_arms(t, n, m, offset, parent, base);
        assert(arms.last() == m_kids.last());
    }
}

/// The frame's deepest arm sits at brightness exactly `1 / (d + 1)`:
/// greater than zero for every finite depth, and strictly below one as
/// soon as there is any recursion at all.
pub proof fn lemma_deepest_arm_brightness(t: ClockTime, d: nat)
    ensures
        clock_model(t, d).last().brightness_num == 1,
        clock_model(t, d).last().brightness_den == d + 1 as int,
{
    lemma_node_last_arm_is_leaf(t, d, d, 0, None, 0);
    lemma_node_arms_wf(t, d, d, 0, None, 0);
    let model = node_arms(t, d, d, 0, None, 0);
    assert(arm_ok(model, model.len() - 1, d, d, None, 0));
}

/// At the top of a minute (zero seconds, zero milliseconds) the root
/// seconds arm points straight up: its angle is exactly minus a quarter
/// turn.
pub proof fn lemma_top_of_minute_points_up(t: ClockTime, d: nat)
    requires
        t.wf(),
        t.seconds == 0,
        t.millis == 0,
    ensures
        clock_model(t, d)[0].angle == -QUARTER_TURN_UNITS,
{
}

/// Generation is deterministic: two segment lists produced from the
/// same time and depth are the same list, value for value.
pub proof fn lemma_generate_deterministic(t: ClockTime, d: nat, a: Seq<Segment>, b: Seq<Segment>)
    requires
        arms_of(a) == clock_model(t, d),
        arms_of(b) == clock_model(t, d),
    ensures
        a == b,
{
    assert(arms_of(a).len() == a.len());
    assert(arms_of(b).len() == b.len());
    assert forall|i: int| 0 <= i < a.len() implies a[i] == b[i] by {
        assert(arms_of(a)[i] == a[i]@);
        assert(arms_of(b)[i] == b[i]@);
        lemma_view_injective(a[i], b[i]);
    }
    assert(a =~= b);
}

} // verus!
