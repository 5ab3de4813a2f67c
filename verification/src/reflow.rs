//! The pane moves that rebuild a tab as a master/stack layout.
//!
//! A reflow leaves the first pane in the tab, moves every other pane, in BSP
//! order, into a staging tab, and then moves them back: first the pane that
//! opens the stack beside the first master (with the master share), then the
//! rest of the masters below one another, then the rest of the stack, each
//! group in equal shares.  The first move to the staging tab creates it; this
//! module describes the moves after that one.
use crate::request::{Ratio, Request, RequestView};
use crate::tab::{Direction, Orientation, TabState, TabStateView};
use vstd::prelude::*;

verus! {

/// Everything a reflow's later moves depend on.
#[derive(Debug)]
pub struct ReflowPlan {
    pub tab_id: String,
    pub staging_tab_id: String,
    /// The tab's panes in BSP order.
    pub ordered: Vec<String>,
    /// How many of the first panes form the master area.
    pub nmaster: usize,
    pub orientation: Orientation,
    /// The master-area share, in millionths.
    pub mfact: u64,
    pub focused: String,
}

pub struct ReflowPlanView {
    pub tab_id: Seq<char>,
    pub staging_tab_id: Seq<char>,
    pub ordered: Seq<Seq<char>>,
    pub nmaster: usize,
    pub orientation: Orientation,
    pub mfact: u64,
    pub focused: Seq<char>,
}

impl View for ReflowPlan {
    type V = ReflowPlanView;

    open spec fn view(&self) -> ReflowPlanView {
        ReflowPlanView {
            tab_id: self.tab_id@,
            staging_tab_id: self.staging_tab_id@,
            ordered: crate::reply::texts(self.ordered@),
            nmaster: self.nmaster,
            orientation: self.orientation,
            mfact: self.mfact,
            focused: self.focused@,
        }
    }
}

impl ReflowPlanView {
    /// At least two panes, and a master count within `1 ..= panes`.
    pub open spec fn wf(self) -> bool {
        &&& self.ordered.len() >= 2
        &&& 1 <= self.nmaster <= self.ordered.len()
    }

    pub open spec fn panes(self) -> int {
        self.ordered.len() as int
    }

    /// Some pane opens a stack.
    pub open spec fn has_stack(self) -> bool {
        self.nmaster < self.ordered.len()
    }

    /// Moves into the staging tab after the first one.
    pub open spec fn staging_moves(self) -> int {
        self.panes() - 2
    }

    /// Moves back into the managed tab: every pane but the first.
    pub open spec fn return_moves(self) -> int {
        self.panes() - 1
    }

    /// The focused pane is the first master, and is focused again at the end.
    pub open spec fn refocus(self) -> bool {
        self.focused == self.ordered[0]
    }

    /// How many requests follow the move that creates the staging tab.
    pub open spec fn len(self) -> int {
        self.staging_moves() + self.return_moves() + if self.refocus() {
            1int
        } else {
            0int
        }
    }

    /// The position, in BSP order, of the pane moved by the `p`-th move back.
    pub open spec fn pane_index(self, p: int) -> int {
        if self.has_stack() {
            if p == 0 {
                self.nmaster as int
            } else if p < self.nmaster {
                p
            } else {
                p + 1
            }
        } else {
            p + 1
        }
    }

    /// The position, in BSP order, of the pane beside which the `p`-th move
    /// back places its pane.
    pub open spec fn target_index(self, p: int) -> int {
        if self.has_stack() {
            if p == 0 {
                0
            } else if p < self.nmaster {
                p - 1
            } else {
                p
            }
        } else {
            p
        }
    }

    /// Some move back brings the pane at position `i` into the tab.
    pub open spec fn moved_back(self, i: int) -> bool {
        exists|p: int| 0 <= p < self.return_moves() && #[trigger] self.pane_index(p) == i
    }

    /// The `p`-th move back opens the stack beside the first master.
    pub open spec fn is_boundary(self, p: int) -> bool {
        self.has_stack() && p == 0
    }

    pub open spec fn return_ratio(self, p: int) -> Ratio {
        if self.is_boundary(p) {
            Ratio::MasterFactor(self.mfact)
        } else if self.has_stack() && p < self.nmaster {
            Ratio::EqualShare((self.nmaster - p + 1) as usize)
        } else {
            Ratio::EqualShare((self.panes() - p) as usize)
        }
    }

    /// The `p`-th move back into the managed tab.
    pub open spec fn return_move(self, p: int) -> RequestView {
        let pane = self.ordered[self.pane_index(p)];
        RequestView::MoveToTab {
            pane_id: pane,
            tab_id: self.tab_id,
            target_pane_id: self.ordered[self.target_index(p)],
            direction: if self.is_boundary(p) {
                self.orientation.spec_root_direction()
            } else {
                self.orientation.spec_inner_direction()
            },
            ratio: Some(self.return_ratio(p)),
            focus: pane == self.focused,
        }
    }

    /// The `k`-th request after the move that creates the staging tab.
    pub open spec fn request(self, k: int) -> RequestView {
        if k < self.staging_moves() {
            RequestView::MoveToTab {
                pane_id: self.ordered[k + 2],
                tab_id: self.staging_tab_id,
                target_pane_id: self.ordered[k + 1],
                direction: Direction::Down,
                ratio: None,
                focus: false,
            }
        } else if k < self.staging_moves() + self.return_moves() {
            self.return_move(k - self.staging_moves())
        } else {
            RequestView::FocusPane { pane_id: self.focused }
        }
    }

    /// The settings and layout recorded once every move has succeeded.
    pub open spec fn finished(self, tab: TabStateView) -> TabStateView {
        TabStateView {
            nmaster: self.nmaster,
            last_master_pane: Some(self.ordered[0]),
            last_stack_pane: if self.has_stack() {
                Some(self.ordered[self.nmaster as int])
            } else {
                None
            },
            pane_ids: self.ordered,
            ..tab
        }
    }
}

/// A reflow only moves and focuses existing panes, so every pane keeps its
/// terminal: the panes after the second go to the staging tab one below the
/// other, in BSP order, and come back with the moves back.
pub proof fn lemma_reflow_only_moves(plan: ReflowPlanView)
    requires
        plan.wf(),
    ensures
        forall|k: int|
            0 <= k < plan.len() ==> ((#[trigger] plan.request(k) is MoveToTab) || (plan.request(
                k,
            ) is FocusPane)),
        forall|k: int|
            0 <= k < plan.staging_moves() ==> #[trigger] plan.request(k) == (RequestView::MoveToTab {
                pane_id: plan.ordered[k + 2],
                tab_id: plan.staging_tab_id,
                target_pane_id: plan.ordered[k + 1],
                direction: Direction::Down,
                ratio: None,
                focus: false,
            }),
        forall|p: int|
            0 <= p < plan.return_moves() ==> #[trigger] plan.request(plan.staging_moves() + p)
                == plan.return_move(p),
{
}

/// Every pane but the first is moved back into the tab by exactly one move,
/// and the first pane never moves.
pub proof fn lemma_each_pane_returns_once(plan: ReflowPlanView)
    requires
        plan.wf(),
    ensures
        forall|p: int|
            0 <= p < plan.return_moves() ==> 1 <= #[trigger] plan.pane_index(p) < plan.panes(),
        forall|i: int| 1 <= i < plan.panes() ==> #[trigger] plan.moved_back(i),
        forall|p: int, q: int|
            0 <= p < plan.return_moves() && 0 <= q < plan.return_moves() && p != q
                ==> #[trigger] plan.pane_index(p) != #[trigger] plan.pane_index(q),
{
    assert forall|i: int| 1 <= i < plan.panes() implies #[trigger] plan.moved_back(i) by {
        if plan.has_stack() {
            if i == plan.nmaster {
                assert(plan.pane_index(0) == i);
            } else if i < plan.nmaster {
                assert(plan.pane_index(i) == i);
            } else {
                assert(plan.pane_index(i - 1) == i);
            }
        } else {
            assert(plan.pane_index(i - 1) == i);
        }
    }
}

/// Each move back places its pane beside the first pane or beside a pane
/// that an earlier move has already brought back, so the tree is built only
/// from panes that are in the tab.
pub proof fn lemma_targets_already_placed(plan: ReflowPlanView)
    requires
        plan.wf(),
    ensures
        forall|p: int|
            0 <= p < plan.return_moves() ==> #[trigger] plan.target_index(p) == 0 || exists|q: int|
                0 <= q < p && plan.pane_index(q) == plan.target_index(p),
{
    assert forall|p: int| 0 <= p < plan.return_moves() implies #[trigger] plan.target_index(p) == 0
        || exists|q: int| 0 <= q < p && plan.pane_index(q) == plan.target_index(p) by {
        if plan.has_stack() {
            if p == 0 {
            } else if p < plan.nmaster {
                if p - 1 != 0 {
                    assert(plan.pane_index(p - 1) == p - 1);
                }
            } else if p == plan.nmaster {
                assert(plan.pane_index(0) == plan.nmaster);
            } else {
                assert(plan.pane_index(p - 1) == p);
            }
        } else {
            if p != 0 {
                assert(plan.pane_index(p - 1) == p);
            }
        }
    }
}

/// Masters go back into the master area and stack panes into the stack: a
/// move targets a pane of its own group, except the one move that opens the
/// stack beside the first master, which is the only move in the root
/// direction and the only one sized by the master share.  With no stack
/// there is no such move, and the master share is not used.
pub proof fn lemma_groups_kept_apart(plan: ReflowPlanView)
    requires
        plan.wf(),
    ensures
        forall|p: int|
            0 <= p < plan.return_moves() && !plan.is_boundary(p) ==> (#[trigger] plan.pane_index(p)
                < plan.nmaster <==> plan.target_index(p) < plan.nmaster),
        forall|p: int|
            0 <= p < plan.return_moves() && plan.is_boundary(p) ==> plan.pane_index(p)
                == plan.nmaster && plan.target_index(p) == 0,
        forall|p: int|
            0 <= p < plan.return_moves() ==> ((#[trigger] plan.return_ratio(p) is MasterFactor)
                <==> plan.is_boundary(p)),
        forall|p: int|
            0 <= p < plan.return_moves() ==> ((#[trigger] plan.return_move(p))->direction
                == plan.orientation.spec_root_direction() <==> plan.is_boundary(p)),
        !plan.has_stack() ==> forall|p: int| !#[trigger] plan.is_boundary(p),
{
}

/// Within a group of `c` panes the moves back take one part in `c`, then in
/// `c - 1`, and so on down to one in two, so that the group's panes end up
/// with equal shares.
pub proof fn lemma_equal_shares(plan: ReflowPlanView)
    requires
        plan.wf(),
    ensures
        forall|p: int|
            0 <= p < plan.return_moves() && !plan.is_boundary(p) && plan.pane_index(p)
                < plan.nmaster ==> #[trigger] plan.return_ratio(p) == Ratio::EqualShare(
                (plan.nmaster - plan.pane_index(p) + 1) as usize,
            ),
        forall|p: int|
            0 <= p < plan.return_moves() && !plan.is_boundary(p) && plan.pane_index(p)
                >= plan.nmaster ==> #[trigger] plan.return_ratio(p) == Ratio::EqualShare(
                ((plan.panes() - plan.nmaster) - (plan.pane_index(p) - plan.nmaster) + 1) as usize,
            ),
{
}

/// How many of a reflow's later requests have been sent: moves into the
/// staging tab, moves back into the managed tab, and the final focus.
#[derive(Clone, Copy, Debug, PartialEq, Eq, Structural)]
pub struct Progress {
    pub staged: usize,
    pub returned: usize,
    pub refocused: bool,
}

impl Progress {
    /// Nothing sent yet.
    pub fn start() -> (r: Progress)
        ensures
            r.sent() == 0,
            r.staged == 0 && r.returned == 0 && !r.refocused,
    {
        Progress { staged: 0, returned: 0, refocused: false }
    }

    pub open spec fn sent(self) -> int {
        self.staged + self.returned + if self.refocused {
            1int
        } else {
            0int
        }
    }
}

impl ReflowPlanView {
    /// `progress` counts requests in their order: all staging moves before
    /// any move back, all moves back before the final focus.
    pub open spec fn progress_ok(self, progress: Progress) -> bool {
        &&& progress.staged <= self.staging_moves()
        &&& progress.returned <= self.return_moves()
        &&& progress.returned > 0 ==> progress.staged == self.staging_moves()
        &&& progress.refocused ==> progress.staged == self.staging_moves() && progress.returned
            == self.return_moves() && self.refocus()
    }
}

/// Once a reflow is over, the tab records the layout it was given: its panes
/// in BSP order, the first of them as the last master, the pane that opens
/// the stack (if any) as the last stack pane, and a master count within
/// `1 ..= panes`; its orientation and master share are kept.
pub proof fn lemma_reflow_records_layout(plan: ReflowPlanView, tab: TabStateView)
    requires
        plan.wf(),
    ensures
        plan.finished(tab).pane_ids == plan.ordered,
        1 <= plan.finished(tab).nmaster <= plan.ordered.len(),
        plan.finished(tab).last_master_pane == Some(plan.ordered[0]),
        plan.finished(tab).last_stack_pane is Some <==> plan.has_stack(),
        plan.has_stack() ==> plan.finished(tab).last_stack_pane == Some(
            plan.ordered[plan.nmaster as int],
        ),
        plan.finished(tab).nmaster == plan.nmaster,
        plan.finished(tab).orientation == tab.orientation,
        plan.finished(tab).mfact == tab.mfact,
        plan.finished(tab).enabled == tab.enabled,
{
}

/// The moves back rebuild the layout in BSP order.  The move that brings
/// the pane at position `i` back places it
/// - when it is the first stack pane, to the root side of the first pane,
///   sized by the master share;
/// - otherwise below (or beside) the pane just before it, `ordered[i - 1]`,
///   taking one part in as many as the panes of its group from `i` on,
///   so that each group ends up in equal shares;
/// and it focuses the pane exactly when it is the focused one.  Apart from the
/// move that opens the stack, which comes first, the moves come in BSP order.
pub proof fn lemma_moves_back_chain_each_group(plan: ReflowPlanView)
    requires
        plan.wf(),
    ensures
        forall|p: int|
            0 <= p < plan.return_moves() ==> {
                let i = plan.pane_index(p);
                let n = plan.ordered.len() as int;
                #[trigger] plan.return_move(p) == if plan.has_stack() && i == plan.nmaster {
                    RequestView::MoveToTab {
                        pane_id: plan.ordered[i],
                        tab_id: plan.tab_id,
                        target_pane_id: plan.ordered[0],
                        direction: plan.orientation.spec_root_direction(),
                        ratio: Some(Ratio::MasterFactor(plan.mfact)),
                        focus: plan.ordered[i] == plan.focused,
                    }
                } else {
                    RequestView::MoveToTab {
                        pane_id: plan.ordered[i],
                        tab_id: plan.tab_id,
                        target_pane_id: plan.ordered[i - 1],
                        direction: plan.orientation.spec_inner_direction(),
                        ratio: Some(
                            Ratio::EqualShare(
                                (if i < plan.nmaster {
                                    plan.nmaster - i + 1
                                } else {
                                    n - i + 1
                                }) as usize,
                            ),
                        ),
                        focus: plan.ordered[i] == plan.focused,
                    }
                }
            },
        forall|p: int, q: int|
            0 <= p < q < plan.return_moves() && !plan.is_boundary(p) ==> plan.pane_index(p)
                < plan.pane_index(q) && !plan.is_boundary(q),
        forall|p: int|
            0 <= p < plan.return_moves() && !plan.is_boundary(p) ==> #[trigger] plan.target_index(p)
                == plan.pane_index(p) - 1,
        plan.has_stack() ==> plan.is_boundary(0),
{
}

/// The move that brings the pane at position `i` back: next to the pane just
/// before it in BSP order, taking one part in as many as the panes of its
/// group from it on; for the pane that opens the stack, on the root side of
/// the first pane, sized by the master share.  It focuses the pane exactly
/// when it is the focused one.
pub open spec fn move_back_of(plan: ReflowPlanView, i: int) -> RequestView {
    let n = plan.ordered.len() as int;
    let opens_stack = plan.has_stack() && i == plan.nmaster;
    RequestView::MoveToTab {
        pane_id: plan.ordered[i],
        tab_id: plan.tab_id,
        target_pane_id: if opens_stack {
            plan.ordered[0]
        } else {
            plan.ordered[i - 1]
        },
        direction: if opens_stack {
            plan.orientation.spec_root_direction()
        } else {
            plan.orientation.spec_inner_direction()
        },
        ratio: Some(
            if opens_stack {
                Ratio::MasterFactor(plan.mfact)
            } else if i < plan.nmaster {
                Ratio::EqualShare((plan.nmaster - i + 1) as usize)
            } else {
                Ratio::EqualShare((n - i + 1) as usize)
            },
        ),
        focus: plan.ordered[i] == plan.focused,
    }
}

/// Each pane after the first is brought back by one of the moves back, as
/// `move_back_of` says.
pub proof fn lemma_each_pane_returns_beside_predecessor(plan: ReflowPlanView)
    requires
        plan.wf(),
    ensures
        forall|i: int|
            1 <= i < plan.ordered.len() ==> exists|p: int|
                0 <= p < plan.return_moves() && #[trigger] plan.return_move(p) == #[trigger] move_back_of(plan, i),
{
    assert forall|i: int| 1 <= i < plan.ordered.len() implies exists|p: int|
        0 <= p < plan.return_moves() && #[trigger] plan.return_move(p) == #[trigger] move_back_of(plan, i) by {
        let p: int = if plan.has_stack() {
            if i == plan.nmaster {
                0
            } else if i < plan.nmaster {
                i
            } else {
                i - 1
            }
        } else {
            i - 1
        };
        assert(plan.pane_index(p) == i);
        assert(plan.return_move(p) == move_back_of(plan, i));
    }
}

/// The requests after the staging tab exists are the staging moves, then
/// the moves back, then, only when the focused pane is the first one, a
/// focus on it.
pub proof fn lemma_reflow_ends_with_focus(plan: ReflowPlanView)
    requires
        plan.wf(),
    ensures
        plan.len() == 2 * plan.ordered.len() - 3 + if plan.focused == plan.ordered[0] {
            1int
        } else {
            0int
        },
        plan.focused == plan.ordered[0] ==> plan.request(plan.len() - 1) == (RequestView::FocusPane {
            pane_id: plan.focused,
        }),
        plan.focused != plan.ordered[0] ==> plan.request(plan.len() - 1) == plan.return_move(
            plan.return_moves() - 1,
        ),
{
}

impl ReflowPlan {
    /// The `k`-th move into the staging tab after the first one.
    fn staging_move(&self, k: usize) -> (r: Request)
        requires
            self@.wf(),
            k < self@.staging_moves(),
        ensures
            r@ == self@.request(k as int),
    {
        let ghost v = self@;
        proof {
            assert(v.ordered.len() == self.ordered.len());
            assert(forall|i: int|
                0 <= i < self.ordered@.len() ==> v.ordered[i] == #[trigger] self.ordered@[i]@);
        }
        Request::MoveToTab {
            pane_id: self.ordered[k + 2].clone(),
            tab_id: self.staging_tab_id.clone(),
            target_pane_id: self.ordered[k + 1].clone(),
            direction: Direction::Down,
            ratio: None,
            focus: false,
        }
    }

    /// The `p`-th move back into the managed tab.
    fn return_move(&self, p: usize) -> (r: Request)
        requires
            self@.wf(),
            p < self@.return_moves(),
        ensures
            r@ == self@.return_move(p as int),
    {
        let ghost v = self@;
        let n = self.ordered.len();
        let nm = self.nmaster;
        proof {
            assert(forall|i: int| 0 <= i < n ==> v.ordered[i] == #[trigger] self.ordered@[i]@);
        }
        let has_stack = nm < n;
        let boundary = has_stack && p == 0;
        let pane_index = if has_stack {
            if p == 0 {
                nm
            } else if p < nm {
                p
            } else {
                p + 1
            }
        } else {
            p + 1
        };
        let target_index = if has_stack {
            if p == 0 {
                0
            } else if p < nm {
                p - 1
            } else {
                p
            }
        } else {
            p
        };
        let ratio = if boundary {
            Ratio::MasterFactor(self.mfact)
        } else if has_stack && p < nm {
            Ratio::EqualShare(nm - p + 1)
        } else {
            Ratio::EqualShare(n - p)
        };
        let direction = if boundary {
            self.orientation.root_direction()
        } else {
            self.orientation.inner_direction()
        };
        let focus = crate::json::same_text(
            self.ordered[pane_index].as_str(),
            self.focused.as_str(),
        );
        Request::MoveToTab {
            pane_id: self.ordered[pane_index].clone(),
            tab_id: self.tab_id.clone(),
            target_pane_id: self.ordered[target_index].clone(),
            direction,
            ratio: Some(ratio),
            focus,
        }
    }

    /// The next request after those counted by `progress`, counting it; none
    /// once all have been sent.
    pub fn advance(&self, progress: &mut Progress) -> (r: Option<Request>)
        requires
            self@.wf(),
            self@.progress_ok(*old(progress)),
        ensures
            self@.progress_ok(*final(progress)),
            old(progress).sent() < self@.len() ==> r is Some && r->0@ == self@.request(
                old(progress).sent(),
            ) && final(progress).sent() == old(progress).sent() + 1,
            old(progress).sent() >= self@.len() ==> r is None && *final(progress) == *old(
                progress,
            ),
    {
        let ghost v = self@;
        let n = self.ordered.len();
        if progress.staged < n - 2 {
            let r = self.staging_move(progress.staged);
            progress.staged = progress.staged + 1;
            return Some(r);
        }
        if progress.returned < n - 1 {
            let r = self.return_move(progress.returned);
            progress.returned = progress.returned + 1;
            return Some(r);
        }
        let refocus = crate::json::same_text(self.focused.as_str(), self.ordered[0].as_str());
        proof {
            assert(v.ordered[0] == self.ordered@[0]@);
        }
        if refocus && !progress.refocused {
            progress.refocused = true;
            return Some(Request::FocusPane { pane_id: self.focused.clone() });
        }
        None
    }

    /// Records in `tab` the layout the reflow has built.
    pub fn finish(&self, tab: &mut TabState)
        requires
            self@.wf(),
        ensures
            final(tab)@ == self@.finished(old(tab)@),
    {
        let ghost v = self@;
        proof {
            assert(forall|i: int|
                0 <= i < self.ordered@.len() ==> v.ordered[i] == #[trigger] self.ordered@[i]@);
        }
        tab.nmaster = self.nmaster;
        tab.last_master_pane = Some(self.ordered[0].clone());
        tab.last_stack_pane = if self.nmaster < self.ordered.len() {
            Some(self.ordered[self.nmaster].clone())
        } else {
            None
        };
        tab.pane_ids = clone_ids(&self.ordered);
    }
}

/// A copy of a list of ids.
pub fn clone_ids(ids: &Vec<String>) -> (r: Vec<String>)
    ensures
        crate::reply::texts(r@) == crate::reply::texts(ids@),
{
    let mut out: Vec<String> = Vec::new();
    let mut i: usize = 0;
    while i < ids.len()
        invariant
            i <= ids@.len(),
            out@.len() == i,
            forall|j: int| 0 <= j < i ==> #[trigger] out@[j]@ == ids@[j]@,
        decreases ids.len() - i,
    {
        out.push(ids[i].clone());
        i = i + 1;
    }
    assert(crate::reply::texts(out@) =~= crate::reply::texts(ids@));
    out
}

} // verus!
