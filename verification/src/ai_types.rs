use vstd::prelude::*;
use vstd::string::StringExecFns;

verus! {

#[derive(Debug, Clone, Copy, PartialEq, Eq, Hash)]
pub enum Team {
    Own,
    Opp,
}

#[derive(Debug, Clone, Copy, Default)]
pub enum Intent {
    Goalie,
    PassTo(Robot),
    RecPass,
    KickGoal,
    Block,
    Wall,
    Steal,
    GetBallTurn,
    GetBallBehind,
    SmashBall,
    Hold,
    #[default]
    Unknown,
}

/// One of the sixteen robots of a team, numbered `0..16`.
#[derive(Debug, Clone, Copy, Default, PartialEq, Eq)]
pub enum Robot {
    #[default]
    R0,
    R1,
    R2,
    R3,
    R4,
    R5,
    R6,
    R7,
    R8,
    R9,
    R10,
    R11,
    R12,
    R13,
    R14,
    R15,
}

impl Robot {
    /// The robot's number.
    pub open spec fn ordinal(self) -> u8 {
        match self {
            Robot::R0 => 0,
            Robot::R1 => 1,
            Robot::R2 => 2,
            Robot::R3 => 3,
            Robot::R4 => 4,
            Robot::R5 => 5,
            Robot::R6 => 6,
            Robot::R7 => 7,
            Robot::R8 => 8,
            Robot::R9 => 9,
            Robot::R10 => 10,
            Robot::R11 => 11,
            Robot::R12 => 12,
            Robot::R13 => 13,
            Robot::R14 => 14,
            Robot::R15 => 15,
        }
    }

    /// The robot numbered `r`, if there is one.
    pub open spec fn numbered(r: u8) -> Option<Robot> {
        match r {
            0 => Some(Robot::R0),
            1 => Some(Robot::R1),
            2 => Some(Robot::R2),
            3 => Some(Robot::R3),
            4 => Some(Robot::R4),
            5 => Some(Robot::R5),
            6 => Some(Robot::R6),
            7 => Some(Robot::R7),
            8 => Some(Robot::R8),
            9 => Some(Robot::R9),
            10 => Some(Robot::R10),
            11 => Some(Robot::R11),
            12 => Some(Robot::R12),
            13 => Some(Robot::R13),
            14 => Some(Robot::R14),
            15 => Some(Robot::R15),
            _ => None,
        }
    }

    /// The robot's number, `0..16`.
    pub fn index(self) -> (r: u8)
        ensures
            r == self.ordinal(),
            r < 16,
    {
        match self {
            Robot::R0 => 0,
            Robot::R1 => 1,
            Robot::R2 => 2,
            Robot::R3 => 3,
            Robot::R4 => 4,
            Robot::R5 => 5,
            Robot::R6 => 6,
            Robot::R7 => 7,
            Robot::R8 => 8,
            Robot::R9 => 9,
            Robot::R10 => 10,
            Robot::R11 => 11,
            Robot::R12 => 12,
            Robot::R13 => 13,
            Robot::R14 => 14,
            Robot::R15 => 15,
        }
    }

    /// The robot numbered `r`, or `None` when `r` is not below 16.
    pub fn from_u8(r: u8) -> (result: Option<Self>)
        ensures
            result == Robot::numbered(r),
    {
        Some(
            match r {
                0 => Robot::R0,
                1 => Robot::R1,
                2 => Robot::R2,
                3 => Robot::R3,
                4 => Robot::R4,
                5 => Robot::R5,
                6 => Robot::R6,
                7 => Robot::R7,
                8 => Robot::R8,
                9 => Robot::R9,
                10 => Robot::R10,
                11 => Robot::R11,
                12 => Robot::R12,
                13 => Robot::R13,
                14 => Robot::R14,
                15 => Robot::R15,
                _ => return None,
            },
        )
    }
}

/// Different robots have different numbers, each below 16.
pub proof fn lemma_ordinal_injective(a: Robot, b: Robot)
    ensures
        a.ordinal() < 16,
        a.ordinal() == b.ordinal() ==> a == b,
{
}

/// Looking up a robot's number gives the robot back, and there is a robot
/// for each number below 16 and for no other: `Robot::from_u8` and
/// `Robot::index` are inverse to each other.
pub proof fn lemma_numbered_ordinal(robot: Robot, r: u8)
    ensures
        Robot::numbered(robot.ordinal()) == Some(robot),
        Robot::numbered(r) is Some <==> r < 16,
        Robot::numbered(r) matches Some(found) ==> found.ordinal() == r,
{
}

/// The bitmask of the numbers of `robots`: bit `k` is set for each robot
/// numbered `k`.
pub open spec fn mask_of(robots: Seq<Robot>) -> u16
    decreases robots.len(),
{
    if robots.len() == 0 {
        0
    } else {
        mask_of(robots.drop_last()) | (1u16 << robots.last().ordinal())
    }
}

/// Whether bit `k` of `mask` is set.
pub open spec fn has_bit(mask: u16, k: u8) -> bool {
    (mask >> k) & 1 == 1
}

/// Setting bit `k` of `mask` sets that bit and keeps every other one.
pub proof fn lemma_set_bit(mask: u16, k: u8, i: u8)
    requires
        k < 16,
        i < 16,
    ensures
        has_bit(mask | (1u16 << k), i) == (has_bit(mask, i) || i == k),
{
    assert(((mask | (1u16 << k)) >> i) & 1 == 1 <==> ((mask >> i) & 1 == 1 || i == k))
        by (bit_vector)
        requires
            k < 16,
            i < 16,
    ;
}

/// The mask of a list of robots has bit `k` set exactly when one of the
/// robots is numbered `k`: `RobotSelector::from_set` selects precisely the
/// robots it is given.
pub proof fn lemma_mask_of_selects(robots: Seq<Robot>, k: u8)
    requires
        k < 16,
    ensures
        has_bit(mask_of(robots), k) <==> exists|j: int|
            0 <= j < robots.len() && (#[trigger] robots[j]).ordinal() == k,
    decreases robots.len(),
{
    if robots.len() == 0 {
        assert((0u16 >> k) & 1 == 0) by (bit_vector);
    } else {
        let rest = robots.drop_last();
        lemma_mask_of_selects(rest, k);
        lemma_ordinal_injective(robots.last(), robots.last());
        lemma_set_bit(mask_of(rest), robots.last().ordinal(), k);
        if has_bit(mask_of(robots), k) {
            if robots.last().ordinal() != k {
                let j = choose|j: int| 0 <= j < rest.len() && (#[trigger] rest[j]).ordinal() == k;
                assert(robots[j] == rest[j]);
            } else {
                assert(robots[robots.len() - 1] == robots.last());
            }
        } else {
            assert forall|j: int| 0 <= j < robots.len() implies (#[trigger] robots[j]).ordinal()
                != k by {
                if j < robots.len() - 1 {
                    assert(robots[j] == rest[j]);
                }
            }
        }
    }
}

/// The sixteen bits of `v` as `'0'` and `'1'`, the highest first.
pub open spec fn binary16(v: u16) -> Seq<char> {
    Seq::new(16, |i: int| if has_bit(v, (15 - i) as u8) { '1' } else { '0' })
}

/// Appends the sixteen bits of `v`, the highest first.
fn push_binary16(text: &mut String, v: u16)
    ensures
        final(text)@ == old(text)@ + binary16(v),
{
    let mut k: u8 = 16;
    while k > 0
        invariant
            k <= 16,
            text@ == old(text)@ + binary16(v).take(16 - k),
        decreases k,
    {
        proof {
            reveal_strlit("0");
            reveal_strlit("1");
        }
        k = k - 1;
        let ghost before = text@;
        if (v >> k) & 1 == 1 {
            text.append("1");
        } else {
            text.append("0");
        }
        assert(binary16(v)[15 - k] == (if has_bit(v, k) { '1' } else { '0' }));
        assert(text@ =~= before.push(binary16(v)[15 - k]));
        assert(binary16(v).take(16 - k) =~= binary16(v).take(16 - (k + 1)).push(
            binary16(v)[15 - k],
        ));
    }
    assert(binary16(v).take(16) =~= binary16(v));
}

/// A set of robots of each team, one bit per robot number. Its text form,
/// with both masks in binary, is `to_debug_string`.
#[derive(Default, Clone, Copy)]
pub struct RobotSelector {
    pub own: u16,
    pub opp: u16,
}

impl RobotSelector {
    pub fn new(own: u16, opp: u16) -> (r: Self)
        ensures
            r.own == own,
            r.opp == opp,
    {
        Self { own, opp }
    }

    /// Selects no robot.
    pub fn none() -> (r: Self)
        ensures
            r.own == 0,
            r.opp == 0,
    {
        Self::new(0, 0)
    }

    /// Selects every robot of the own team.
    pub fn all_own() -> (r: Self)
        ensures
            r.own == 0xffff,
            r.opp == 0,
    {
        assert(!0u16 == 0xffffu16) by (bit_vector);
        Self::new(!0, 0)
    }

    /// Selects every robot of the opposing team.
    pub fn all_opp() -> (r: Self)
        ensures
            r.own == 0,
            r.opp == 0xffff,
    {
        assert(!0u16 == 0xffffu16) by (bit_vector);
        Self::new(0, !0)
    }

    /// Selects every robot of both teams.
    pub fn all() -> (r: Self)
        ensures
            r.own == 0xffff,
            r.opp == 0xffff,
    {
        assert(!0u16 == 0xffffu16) by (bit_vector);
        Self::new(!0, !0)
    }

    /// Adds the own robot numbered `idx`.
    pub fn set_own(self, idx: u8) -> (r: Self)
        requires
            idx < 16,
        ensures
            r.own == self.own | (1u16 << idx),
            r.opp == self.opp,
    {
        let mut slf = self;
        slf.own = slf.own | (1u16 << idx);
        slf
    }

    /// Adds the opposing robot numbered `idx`.
    pub fn set_opp(self, idx: u8) -> (r: Self)
        requires
            idx < 16,
        ensures
            r.own == self.own,
            r.opp == self.opp | (1u16 << idx),
    {
        let mut slf = self;
        slf.opp = slf.opp | (1u16 << idx);
        slf
    }

    /// Selects just the own robot `robot`.
    pub fn ignore_own(robot: Robot) -> (r: Self)
        ensures
            r.own == 1u16 << robot.ordinal(),
            r.opp == 0,
    {
        let r = Self::none().set_own(robot.index());
        assert(0u16 | (1u16 << robot.ordinal()) == 1u16 << robot.ordinal()) by (bit_vector);
        r
    }

    /// Selects just the opposing robot `robot`.
    pub fn ignore_opp(robot: Robot) -> (r: Self)
        ensures
            r.own == 0,
            r.opp == 1u16 << robot.ordinal(),
    {
        let r = Self::none().set_opp(robot.index());
        assert(0u16 | (1u16 << robot.ordinal()) == 1u16 << robot.ordinal()) by (bit_vector);
        r
    }

    /// The selector written out with both masks in binary, as
    /// `RobotSelector { own: 0000000000000101, opp: 0000000000000000 }`.
    pub fn to_debug_string(&self) -> (r: String)
        ensures
            r@ == "RobotSelector { own: "@ + binary16(self.own) + ", opp: "@ + binary16(self.opp)
                + " }"@,
    {
        let mut text = String::new();
        text.append("RobotSelector { own: ");
        push_binary16(&mut text, self.own);
        text.append(", opp: ");
        push_binary16(&mut text, self.opp);
        text.append(" }");
        text
    }

    /// Selects the own robots `own` and the opposing robots `opp`.
    pub fn from_set(own: &[Robot], opp: &[Robot]) -> (r: Self)
        ensures
            r.own == mask_of(own@),
            r.opp == mask_of(opp@),
    {
        let mut slf = Self::none();
        let mut i: usize = 0;
        while i < own.len()
            invariant
                i <= own.len(),
                slf.own == mask_of(own@.take(i as int)),
                slf.opp == 0,
            decreases own.len() - i,
        {
            assert(own@.take(i + 1).drop_last() =~= own@.take(i as int));
            slf = slf.set_own(own[i].index());
            i = i + 1;
        }
        assert(own@.take(own.len() as int) =~= own@);
        let mut j: usize = 0;
        while j < opp.len()
            invariant
                j <= opp.len(),
                slf.own == mask_of(own@),
                slf.opp == mask_of(opp@.take(j as int)),
            decreases opp.len() - j,
        {
            assert(opp@.take(j + 1).drop_last() =~= opp@.take(j as int));
            slf = slf.set_opp(opp[j].index());
            j = j + 1;
        }
        assert(opp@.take(opp.len() as int) =~= opp@);
        slf
    }
}

/// An AI that never commands anything.
#[derive(Default)]
pub struct DummyAi;

/// A number that tells motion commands and their statuses apart.
#[derive(Copy, Clone, Debug, PartialEq, Eq)]
pub struct Id(u32);

impl View for Id {
    type V = u32;

    closed spec fn view(&self) -> u32 {
        self.0
    }
}

impl Id {
    /// The identifier numbered zero.
    pub fn zero() -> (r: Self)
        ensures
            r@ == 0,
    {
        Self(0)
    }

    pub fn get(self) -> (r: u32)
        ensures
            r == self@,
    {
        self.0
    }

    /// The identifier that a counter standing at `counter` hands out, and the
    /// counter's next value (one more, wrapping around at `u32::MAX`).
    pub fn next_id(counter: u32) -> (r: (Id, u32))
        ensures
            r.0@ == counter,
            r.1 == counter.wrapping_add(1),
    {
        (Self(counter), counter.wrapping_add(1))
    }
}

impl core::ops::Deref for Id {
    type Target = u32;

    fn deref(&self) -> (r: &u32)
        ensures
            *r == self@,
    {
        &self.0
    }
}

} // verus!
