//! The layout settings of one managed tab and the rules that change them.
use crate::reply::opt_text;
use vstd::prelude::*;

verus! {

/// Where the master area sits: left of the stack, or on top of it.
#[derive(Clone, Copy, Debug, PartialEq, Eq, Structural)]
pub enum Orientation {
    Horizontal,
    Vertical,
}

/// The side of a target pane on which a moved pane is placed.
#[derive(Clone, Copy, Debug, PartialEq, Eq, Structural)]
pub enum Direction {
    Right,
    Down,
}

impl Direction {
    pub open spec fn spec_name(self) -> Seq<char> {
        match self {
            Direction::Right => "right"@,
            Direction::Down => "down"@,
        }
    }

    /// The split direction as Herdr names it.
    pub fn name(&self) -> (r: &'static str)
        ensures
            r@ == self.spec_name(),
    {
        match self {
            Direction::Right => "right",
            Direction::Down => "down",
        }
    }
}

impl Orientation {
    pub open spec fn spec_toggled(self) -> Orientation {
        match self {
            Orientation::Horizontal => Orientation::Vertical,
            Orientation::Vertical => Orientation::Horizontal,
        }
    }

    /// The other orientation.
    pub fn toggled(self) -> (r: Orientation)
        ensures
            r == self.spec_toggled(),
    {
        match self {
            Orientation::Horizontal => Orientation::Vertical,
            Orientation::Vertical => Orientation::Horizontal,
        }
    }

    pub open spec fn spec_root_direction(self) -> Direction {
        match self {
            Orientation::Horizontal => Direction::Right,
            Orientation::Vertical => Direction::Down,
        }
    }

    pub open spec fn spec_inner_direction(self) -> Direction {
        match self {
            Orientation::Horizontal => Direction::Down,
            Orientation::Vertical => Direction::Right,
        }
    }

    /// The direction that separates the master area from the stack.
    pub fn root_direction(self) -> (r: Direction)
        ensures
            r == self.spec_root_direction(),
    {
        match self {
            Orientation::Horizontal => Direction::Right,
            Orientation::Vertical => Direction::Down,
        }
    }

    /// The direction in which panes of one group are stacked.
    pub fn inner_direction(self) -> (r: Direction)
        ensures
            r == self.spec_inner_direction(),
    {
        match self {
            Orientation::Horizontal => Direction::Down,
            Orientation::Vertical => Direction::Right,
        }
    }
}

/// Toggling the orientation twice restores it.
pub proof fn lemma_toggle_twice(o: Orientation)
    ensures
        o.spec_toggled().spec_toggled() == o,
        o.spec_toggled() != o,
{
}

pub open spec fn spec_parse_orientation(text: Seq<char>) -> Option<Orientation> {
    if text == "horizontal"@ {
        Some(Orientation::Horizontal)
    } else if text == "vertical"@ {
        Some(Orientation::Vertical)
    } else {
        None
    }
}

/// The orientation named `text` (`horizontal` or `vertical`).
pub fn parse_orientation(text: &str) -> (r: Option<Orientation>)
    ensures
        r == spec_parse_orientation(text@),
{
    if crate::json::same_text(text, "horizontal") {
        Some(Orientation::Horizontal)
    } else if crate::json::same_text(text, "vertical") {
        Some(Orientation::Vertical)
    } else {
        None
    }
}

/// The smallest master-area share, in millionths of the tab.
pub const MIN_MFACT: u64 = 100_000;

/// The largest master-area share, in millionths of the tab.
pub const MAX_MFACT: u64 = 900_000;

/// The master-area share of a tab that has no settings yet, in millionths.
pub const DEFAULT_MFACT: u64 = 500_000;

/// One hundredth of the tab, in millionths: the step to which a changed
/// master share is rounded.
pub const HUNDREDTH: u64 = 10_000;

/// The settings and the last reconciled layout of one managed tab.
#[derive(Debug)]
pub struct TabState {
    pub enabled: bool,
    pub orientation: Orientation,
    /// The master area's share of the tab, in millionths.
    pub mfact: u64,
    /// How many panes form the master area.
    pub nmaster: usize,
    pub last_master_pane: Option<String>,
    pub last_stack_pane: Option<String>,
    /// The tab's pane ids, in BSP order, when it was last reconciled.
    pub pane_ids: Vec<String>,
}

pub struct TabStateView {
    pub enabled: bool,
    pub orientation: Orientation,
    pub mfact: u64,
    pub nmaster: usize,
    pub last_master_pane: Option<Seq<char>>,
    pub last_stack_pane: Option<Seq<char>>,
    pub pane_ids: Seq<Seq<char>>,
}

impl View for TabState {
    type V = TabStateView;

    open spec fn view(&self) -> TabStateView {
        TabStateView {
            enabled: self.enabled,
            orientation: self.orientation,
            mfact: self.mfact,
            nmaster: self.nmaster,
            last_master_pane: opt_text(self.last_master_pane),
            last_stack_pane: opt_text(self.last_stack_pane),
            pane_ids: crate::reply::texts(self.pane_ids@),
        }
    }
}

/// The settings of a tab that is managed for the first time.
pub open spec fn default_tab() -> TabStateView {
    TabStateView {
        enabled: true,
        orientation: Orientation::Horizontal,
        mfact: DEFAULT_MFACT,
        nmaster: 1,
        last_master_pane: None,
        last_stack_pane: None,
        pane_ids: Seq::empty(),
    }
}

impl Default for TabState {
    fn default() -> (r: TabState)
        ensures
            r@ == default_tab(),
    {
        let r = TabState {
            enabled: true,
            orientation: Orientation::Horizontal,
            mfact: DEFAULT_MFACT,
            nmaster: 1,
            last_master_pane: None,
            last_stack_pane: None,
            pane_ids: Vec::new(),
        };
        assert(r@.pane_ids =~= Seq::<Seq<char>>::empty());
        r
    }
}

impl TabState {
    /// A copy of the settings.
    pub fn copy(&self) -> (r: TabState)
        ensures
            r@ == self@,
    {
        TabState {
            enabled: self.enabled,
            orientation: self.orientation,
            mfact: self.mfact,
            nmaster: self.nmaster,
            last_master_pane: match &self.last_master_pane {
                Some(p) => Some(p.clone()),
                None => None,
            },
            last_stack_pane: match &self.last_stack_pane {
                Some(p) => Some(p.clone()),
                None => None,
            },
            pane_ids: crate::reflow::clone_ids(&self.pane_ids),
        }
    }
}

/// `value` held within `low ..= high`.
pub open spec fn spec_clamp(value: int, low: int, high: int) -> int {
    if value < low {
        low
    } else if value > high {
        high
    } else {
        value
    }
}

/// The master count held within `1 ..= count`.
pub fn clamp_nmaster(nmaster: usize, count: usize) -> (r: usize)
    requires
        count >= 1,
    ensures
        r == spec_clamp(nmaster as int, 1, count as int),
        1 <= r <= count,
{
    if nmaster < 1 {
        1
    } else if nmaster > count {
        count
    } else {
        nmaster
    }
}

/// A master share held within `MIN_MFACT ..= MAX_MFACT`.
pub open spec fn spec_clamp_mfact(mfact: u64) -> u64 {
    spec_clamp(mfact as int, MIN_MFACT as int, MAX_MFACT as int) as u64
}

/// A master share held within `MIN_MFACT ..= MAX_MFACT`.
pub fn clamp_mfact(mfact: u64) -> (r: u64)
    ensures
        r == spec_clamp_mfact(mfact),
        MIN_MFACT <= r <= MAX_MFACT,
{
    if mfact < MIN_MFACT {
        MIN_MFACT
    } else if mfact > MAX_MFACT {
        MAX_MFACT
    } else {
        mfact
    }
}

/// `value`, a non-negative number of millionths, rounded to whole
/// hundredths, halves upwards.
pub open spec fn round_to_hundredths(value: int) -> int {
    ((value + HUNDREDTH / 2) / HUNDREDTH as int) * HUNDREDTH
}

/// The master share after a change by `delta` millionths: the sum held
/// within `MIN_MFACT ..= MAX_MFACT`, then rounded to whole hundredths.
pub open spec fn spec_adjust_mfact(mfact: u64, delta: i64) -> u64 {
    round_to_hundredths(spec_clamp(mfact + delta, MIN_MFACT as int, MAX_MFACT as int)) as u64
}

/// The master share after a change by `delta` millionths.
pub fn adjust_mfact(mfact: u64, delta: i64) -> (r: u64)
    ensures
        r == spec_adjust_mfact(mfact, delta),
        MIN_MFACT <= r <= MAX_MFACT,
        r % HUNDREDTH == 0,
{
    let sum: i128 = mfact as i128 + delta as i128;
    let held: u64 = if sum < MIN_MFACT as i128 {
        MIN_MFACT
    } else if sum > MAX_MFACT as i128 {
        MAX_MFACT
    } else {
        sum as u64
    };
    let r = ((held + HUNDREDTH / 2) / HUNDREDTH) * HUNDREDTH;
    assert(((held + 5000) / 10000) * 10000 % 10000 == 0) by (nonlinear_arith);
    assert(100_000 <= ((held + 5000) / 10000) * 10000 <= 900_000) by (nonlinear_arith)
        requires
            100_000 <= held <= 900_000,
    ;
    r
}

/// The master share is rounded to the nearest whole hundredth, halves
/// upwards: the result is the one multiple of a hundredth within half a
/// hundredth below (exclusive) or above (inclusive) the held sum.
pub proof fn lemma_adjusted_share_is_nearest(mfact: u64, delta: i64)
    ensures
        ({
            let held = spec_clamp(mfact + delta, MIN_MFACT as int, MAX_MFACT as int);
            let r = spec_adjust_mfact(mfact, delta) as int;
            &&& r % (HUNDREDTH as int) == 0
            &&& held - 5000 < r <= held + 5000
            &&& MIN_MFACT <= r <= MAX_MFACT
        }),
{
    let held = spec_clamp(mfact + delta, MIN_MFACT as int, MAX_MFACT as int);
    assert(((held + 5000) / 10000) * 10000 % 10000 == 0) by (nonlinear_arith);
    assert(held - 5000 < ((held + 5000) / 10000) * 10000 <= held + 5000) by (nonlinear_arith)
        requires
            100_000 <= held <= 900_000,
    ;
    assert(100_000 <= ((held + 5000) / 10000) * 10000 <= 900_000) by (nonlinear_arith)
        requires
            100_000 <= held <= 900_000,
    ;
}

/// Holding a value within bounds keeps a value already within them and
/// otherwise gives the nearer bound.
pub proof fn lemma_clamp_holds_within(value: int, low: int, high: int)
    requires
        low <= high,
    ensures
        low <= spec_clamp(value, low, high) <= high,
        low <= value <= high ==> spec_clamp(value, low, high) == value,
        value < low ==> spec_clamp(value, low, high) == low,
        value > high ==> spec_clamp(value, low, high) == high,
{
}

/// With masters on the left (horizontal), the stack opens to their right and
/// panes of a group stack downwards; with masters on top (vertical), the
/// stack opens below them and panes of a group stand side by side.  The two
/// directions always differ.
pub proof fn lemma_orientation_directions(o: Orientation)
    ensures
        o == Orientation::Horizontal ==> o.spec_root_direction() == Direction::Right
            && o.spec_inner_direction() == Direction::Down,
        o == Orientation::Vertical ==> o.spec_root_direction() == Direction::Down
            && o.spec_inner_direction() == Direction::Right,
        o.spec_root_direction() != o.spec_inner_direction(),
        o.spec_toggled().spec_root_direction() == o.spec_inner_direction(),
{
}

/// A changed share lies within bounds, whatever the share and the change.
pub proof fn lemma_adjusted_share_bounded(mfact: u64)
    ensures
        forall|delta: i64|
            MIN_MFACT <= #[trigger] spec_adjust_mfact(mfact, delta) <= MAX_MFACT,
{
    assert forall|delta: i64| MIN_MFACT <= #[trigger] spec_adjust_mfact(mfact, delta) <= MAX_MFACT by {
        let held = spec_clamp(mfact + delta, MIN_MFACT as int, MAX_MFACT as int);
        assert(100_000 <= ((held + 5000) / 10000) * 10000 <= 900_000) by (nonlinear_arith)
            requires
                100_000 <= held <= 900_000,
        ;
    }
}

/// A share of whole hundredths, moved by five hundredths and back, is
/// restored, as long as both steps stay within the bounds.
pub proof fn lemma_mfact_step_undone(k: int)
    requires
        10 <= k <= 85,
    ensures
        spec_adjust_mfact((k * 10_000) as u64, 50_000i64) == (k + 5) * 10_000,
        spec_adjust_mfact(((k + 5) * 10_000) as u64, -50_000i64) == k * 10_000,
{
    assert(((k + 5) * 10_000 + 5000) / 10000 == k + 5) by (nonlinear_arith);
    assert((k * 10_000 + 5000) / 10000 == k) by (nonlinear_arith);
}

/// Why changing the master count cannot be carried out.
#[derive(Clone, Copy, Debug, PartialEq, Eq, Structural)]
pub enum Abort {
    /// The clamp's upper bound (the pane count) is below its lower bound 1.
    EmptyRange,
}

/// The master count after a change by `delta`, held within `1 ..= count`.
/// The count and the bound are taken as `i64`s, and their sum wraps, as
/// `as` casts and `+` do in a release build.
pub open spec fn spec_adjust_nmaster(nmaster: usize, delta: i64, count: usize) -> Result<
    usize,
    Abort,
> {
    let sum = vstd::wrapping::i64_specs::wrapping_add(nmaster as i64, delta);
    let high = count as i64;
    if high < 1 {
        Err(Abort::EmptyRange)
    } else {
        Ok(spec_clamp(sum as int, 1, high as int) as usize)
    }
}

/// The master count after a change by `delta`, held within `1 ..= count`.
pub fn adjust_nmaster(nmaster: usize, delta: i64, count: usize) -> (r: Result<usize, Abort>)
    ensures
        r == spec_adjust_nmaster(nmaster, delta, count),
        r matches Ok(n) ==> 1 <= n <= count,
{
    #[verifier::truncate]
    let base: i64 = nmaster as i64;
    let sum = base.wrapping_add(delta);
    #[verifier::truncate]
    let high: i64 = count as i64;
    if high < 1 {
        return Err(Abort::EmptyRange);
    }
    let clamped: i64 = if sum < 1 {
        1
    } else if sum > high {
        high
    } else {
        sum
    };
    proof {
        assert(high <= count) by (bit_vector)
            requires
                high == count as i64,
                high >= 1,
        ;
    }
    Ok(clamped as usize)
}

} // verus!
