use vstd::prelude::*;

verus! {

/// The side of a floor an apartment lies on.
#[derive(Clone, Copy, Debug, PartialEq, Eq, Structural)]
pub enum FloorPosition {
    Left,
    Middle,
    Right,
}

/// The printed name of a side.
pub open spec fn side_label(side: FloorPosition) -> Seq<char> {
    match side {
        FloorPosition::Left => "Links"@,
        FloorPosition::Middle => "Mitte"@,
        FloorPosition::Right => "Rechts"@,
    }
}

impl FloorPosition {
    pub fn print(&self) -> (r: String)
        ensures
            r@ == side_label(*self),
    {
        match self {
            FloorPosition::Left => "Links".to_owned(),
            FloorPosition::Middle => "Mitte".to_owned(),
            FloorPosition::Right => "Rechts".to_owned(),
        }
    }
}

/// How many more days the current occupant of a slot keeps it.
///
/// `days_left` counts the days that remain after the current one; once it
/// reaches zero the slot is exhausted. `days_total` is the value that
/// `days_left` starts from.
#[derive(Clone, Copy, Debug, PartialEq, Eq, Structural)]
pub struct DayState {
    pub days_left: u8,
    pub days_total: u8,
}

impl DayState {
    pub open spec fn wf(self) -> bool {
        self.days_left <= self.days_total
    }

    pub open spec fn exhausted(self) -> bool {
        self.days_left == 0
    }

    /// One day later: one day fewer, or, once exhausted, a fresh countdown.
    pub open spec fn advanced(self) -> DayState {
        if self.days_left == 0 {
            DayState { days_left: self.days_total, days_total: self.days_total }
        } else {
            DayState { days_left: (self.days_left - 1) as u8, days_total: self.days_total }
        }
    }

    /// The countdown after `n` days.
    pub open spec fn advanced_by(self, n: nat) -> DayState
        decreases n,
    {
        if n == 0 {
            self
        } else {
            self.advanced().advanced_by((n - 1) as nat)
        }
    }

    pub fn new(days_total: u8) -> (r: DayState)
        ensures
            r.days_left == days_total,
            r.days_total == days_total,
            r.wf(),
    {
        DayState { days_left: days_total, days_total }
    }

    pub fn next(&self) -> (r: DayState)
        ensures
            r == self.advanced(),
            self.wf() ==> r.wf(),
    {
        if self.days_left == 0 {
            return DayState { days_total: self.days_total, days_left: self.days_total };
        }
        DayState { days_left: self.days_left - 1, days_total: self.days_total }
    }

    /// Whether no day is left after the current one.
    pub fn is_max(&self) -> (r: bool)
        ensures
            r == self.exhausted(),
    {
        0 == self.days_left
    }
}

/// Advancing by `a + b` days is advancing by `a`, then by `b`.
pub proof fn lemma_advanced_by_add(c: DayState, a: nat, b: nat)
    ensures
        c.advanced_by(a + b) == c.advanced_by(a).advanced_by(b),
    decreases a,
{
    if a > 0 {
        lemma_advanced_by_add(c.advanced(), (a - 1) as nat, b);
        assert((a + b - 1) as nat == (a - 1) as nat + b);
    }
}

/// Counting down `k` days from a countdown with at least `k` days left.
pub proof fn lemma_count_down(c: DayState, k: nat)
    requires
        k <= c.days_left,
    ensures
        c.advanced_by(k) == (DayState { days_left: (c.days_left - k) as u8, days_total: c.days_total }),
    decreases k,
{
    if k > 0 {
        lemma_count_down(c.advanced(), (k - 1) as nat);
    }
}

/// A countdown returns to where it started after `days_total + 1` days.
pub proof fn lemma_countdown_period(c: DayState)
    requires
        c.wf(),
    ensures
        c.advanced_by((c.days_total + 1) as nat) == c,
{
    let left = c.days_left as nat;
    let total = c.days_total as nat;
    lemma_advanced_by_add(c, left, (total + 1 - left) as nat);
    lemma_count_down(c, left);
    let z = c.advanced_by(left);
    let full = z.advanced();
    assert(full == DayState { days_left: c.days_total, days_total: c.days_total });
    lemma_count_down(full, (total - left) as nat);
    assert(z.advanced_by((total + 1 - left) as nat) == full.advanced_by((total - left) as nat));
}

/// The side of a multi-apartment floor whose turn it is, and for how long.
#[derive(Clone, Copy, Debug, PartialEq, Eq, Structural)]
pub struct CurrentFloorState {
    pub floor_position: FloorPosition,
    pub day_state: DayState,
}

impl CurrentFloorState {
    pub fn new(pos: FloorPosition, days_total: u8) -> (r: CurrentFloorState)
        ensures
            r.floor_position == pos,
            r.day_state == (DayState { days_left: days_total, days_total }),
    {
        CurrentFloorState { floor_position: pos, day_state: DayState::new(days_total) }
    }

    pub fn next(&self) -> (r: CurrentFloorState)
        ensures
            r.floor_position == self.floor_position,
            r.day_state == self.day_state.advanced(),
    {
        CurrentFloorState { floor_position: self.floor_position, day_state: self.day_state.next() }
    }

    pub fn is_max(&self) -> (r: bool)
        ensures
            r == self.day_state.exhausted(),
    {
        self.day_state.is_max()
    }

    pub fn print(&self) -> (r: String)
        ensures
            r@ == side_label(self.floor_position),
    {
        self.floor_position.print()
    }
}

} // verus!
