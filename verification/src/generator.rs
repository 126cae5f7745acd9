use vstd::prelude::*;
use crate::angle::{
    lemma_delta_units_in_turn, minutes_angle_units, minutes_delta_units, seconds_angle_units,
    seconds_delta_units, UNITS_PER_TURN,
};
use crate::clock_time::ClockTime;
use crate::segment::{arms_of, ArmModel, Segment};

verus! {

// The fractal is a binary tree of arm pairs: each node draws its seconds
// arm and its minutes arm, and while recursion budget remains, each arm
// spawns a child node at its tip that inherits the arm's angle as its
// angular offset.  The generated list is the pre-order walk of that tree,
// seconds branch before minutes branch at every node.

/// Image of an executable parent reference.
pub open spec fn parent_index(p: Option<usize>) -> Option<int> {
    match p {
        Some(i) => Some(i as int),
        None => None,
    }
}

/// Number of segments a node with recursion budget `n` generates:
/// two arms of its own plus, while budget remains, two child nodes.
pub open spec fn seg_count(n: nat) -> nat
    decreases n,
{
    if n == 0 {
        2
    } else {
        2 + 2 * seg_count((n - 1) as nat)
    }
}

/// Position of a node's own minutes arm inside the node's list: it
/// follows the seconds arm and the whole subtree spawned at the seconds
/// arm's tip.
pub open spec fn minutes_arm_index(n: nat) -> int {
    if n == 0 {
        1
    } else {
        1 + seg_count((n - 1) as nat) as int
    }
}

/// Two to the power `n`.
pub open spec fn pow2(n: nat) -> nat
    decreases n,
{
    if n == 0 {
        1
    } else {
        2 * pow2((n - 1) as nat)
    }
}

/// The exact list of arms generated by one node: remaining budget `n`,
/// depth ceiling `m`, inherited angular offset `offset`, parent reference
/// `parent`, and `base` the index in the whole frame's list at which this
/// node's arms begin.
pub open spec fn node_arms(
    t: ClockTime,
    n: nat,
    m: nat,
    offset: int,
    parent: Option<int>,
    base: int,
) -> Seq<ArmModel>
    decreases n,
{
    let s_angle = seconds_delta_units(t) + offset;
    let m_angle = minutes_delta_units(t) + offset;
    let s_arm = ArmModel {
        parent,
        angle: s_angle,
        brightness_num: n + 1 as int,
        brightness_den: m + 1 as int,
    };
    let m_arm = ArmModel {
        parent,
        angle: m_angle,
        brightness_num: n + 1 as int,
        brightness_den: m + 1 as int,
    };
    if n == 0 {
        seq![s_arm, m_arm]
    } else {
        let s_kids = node_arms(t, (n - 1) as nat, m, s_angle, Some(base), base + 1);
        let mid = base + 1 + s_kids.len();
        let m_kids = node_arms(t, (n - 1) as nat, m, m_angle, Some(mid), mid + 1);
        seq![s_arm] + s_kids + seq![m_arm] + m_kids
    }
}

/// The whole fractal for one frame: one root node whose budget and
/// ceiling are both `depth`, with no inherited offset and no parent.
pub open spec fn clock_model(t: ClockTime, depth: nat) -> Seq<ArmModel> {
    node_arms(t, depth, depth, 0, None, 0)
}

/// A node's list is exactly `seg_count` of its budget long.
pub proof fn lemma_node_arms_len(
    t: ClockTime,
    n: nat,
    m: nat,
    offset: int,
    parent: Option<int>,
    base: int,
)
    ensures
        node_arms(t, n, m, offset, parent, base).len() == seg_count(n),
    decreases n,
{
    if n > 0 {
        let s_angle = seconds_delta_units(t) + offset;
        let m_angle = minutes_delta_units(t) + offset;
        lemma_node_arms_len(t, (n - 1) as nat, m, s_angle, Some(base), base + 1);
        let mid = base + 1 + seg_count((n - 1) as nat);
        lemma_node_arms_len(t, (n - 1) as nat, m, m_angle, Some(mid), mid + 1);
    }
}

/// An angular offset a node may inherit: bounded by one turn per level
/// already descended, so that all angle arithmetic stays within
/// [`crate::angle::ANGLE_LIMIT`].
pub open spec fn offset_in_range(offset: int, n: nat, m: nat) -> bool {
    -((m - n) * UNITS_PER_TURN) <= offset <= (m - n) * UNITS_PER_TURN
}

/// Appends the arms of one node (budget `n`, ceiling `m`) to the frame's
/// accumulator, exactly as [`node_arms`] describes them.
pub fn generate_into(
    t: &ClockTime,
    n: u32,
    m: u32,
    offset_units: i64,
    parent: Option<usize>,
    out: &mut Vec<Segment>,
)
    requires
        t.wf(),
        n <= m,
        offset_in_range(offset_units as int, n as nat, m as nat),
        match parent {
            Some(p) => p < old(out).len(),
            None => true,
        },
    ensures
        arms_of(final(out)@) == arms_of(old(out)@) + node_arms(
            *t,
            n as nat,
            m as nat,
            offset_units as int,
            parent_index(parent),
            old(out)@.len() as int,
        ),
        final(out)@.len() == old(out)@.len() + seg_count(n as nat),
    decreases n,
{
    let ghost base: int = out@.len() as int;
    let ghost prefix: Seq<Segment> = out@;
    proof {
        lemma_delta_units_in_turn(*t);
        assert((m - n) * UNITS_PER_TURN <= 4294967295i64 * UNITS_PER_TURN);
    }
    let s_theta: i64 = seconds_angle_units(t, offset_units);
    let m_theta: i64 = minutes_angle_units(t, offset_units);
    let bright_num: u64 = (n as u64) + 1;
    let bright_den: u64 = (m as u64) + 1;

    let s_index: usize = out.len();
    out.push(
        Segment {
            parent,
            angle_units: s_theta,
            brightness_num: bright_num,
            brightness_den: bright_den,
        },
    );
    let ghost after_s: Seq<Segment> = out@;
    if n > 0 {
        generate_into(t, n - 1, m, s_theta, Some(s_index), out);
    }
    let ghost after_s_kids: Seq<Segment> = out@;

    let m_index: usize = out.len();
    out.push(
        Segment {
            parent,
            angle_units: m_theta,
            brightness_num: bright_num,
            brightness_den: bright_den,
        },
    );
    let ghost after_m: Seq<Segment> = out@;
    if n > 0 {
        generate_into(t, n - 1, m, m_theta, Some(m_index), out);
    }

    proof {
        let nn = n as nat;
        let mm = m as nat;
        let off = offset_units as int;
        let s_angle = seconds_delta_units(*t) + off;
        let m_angle = minutes_delta_units(*t) + off;
        let s_arm = ArmModel {
            parent: parent_index(parent),
            angle: s_angle,
            brightness_num: nn + 1 as int,
            brightness_den: mm + 1 as int,
        };
        let m_arm = ArmModel {
            parent: parent_index(parent),
            angle: m_angle,
            brightness_num: nn + 1 as int,
            brightness_den: mm + 1 as int,
        };
        assert(arms_of(after_s) =~= arms_of(prefix) + seq![s_arm]);
        if n == 0 {
            assert(arms_of(out@) =~= arms_of(prefix) + seq![s_arm, m_arm]);
            assert(node_arms(*t, nn, mm, off, parent_index(parent), base) == seq![s_arm, m_arm]);
        } else {
            let s_kids = node_arms(*t, (nn - 1) as nat, mm, s_angle, Some(base), base + 1);
            assert(arms_of(after_s_kids) == arms_of(after_s) + s_kids);
            lemma_node_arms_len(*t, (nn - 1) as nat, mm, s_angle, Some(base), base + 1);
            let mid = base + 1 + s_kids.len();
            assert(m_index as int == mid);
            assert(arms_of(after_m) =~= arms_of(after_s_kids) + seq![m_arm]);
            let m_kids = node_arms(*t, (nn - 1) as nat, mm, m_angle, Some(mid), mid + 1);
            assert(arms_of(out@) == arms_of(after_m) + m_kids);
            assert(node_arms(*t, nn, mm, off, parent_index(parent), base) == seq![s_arm] + s_kids
                + seq![m_arm] + m_kids);
            assert(arms_of(out@) =~= arms_of(prefix) + (seq![s_arm] + s_kids + seq![m_arm]
                + m_kids));
        }
        assert(arms_of(out@).len() == out@.len());
        assert(arms_of(prefix).len() == prefix.len());
        lemma_node_arms_len(*t, nn, mm, off, parent_index(parent), base);
    }
}

/// Generates the whole fractal for one frame: the full tree of seconds
/// and minutes arms for time `t` with recursion depth `depth`, in
/// pre-order, exactly as [`clock_model`] describes it.
pub fn generate(t: &ClockTime, depth: u32) -> (out: Vec<Segment>)
    requires
        t.wf(),
    ensures
        arms_of(out@) == clock_model(*t, depth as nat),
        out@.len() == seg_count(depth as nat),
{
    let mut out: Vec<Segment> = Vec::new();
    generate_into(t, depth, depth, 0, None, &mut out);
    proof {
        assert(arms_of(out@) =~= clock_model(*t, depth as nat));
    }
    out
}

} // verus!
