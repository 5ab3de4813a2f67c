//! One plugin action as a conversation with Herdr.
//!
//! A [`Session`] decides, from the plugin's state and each reply, the next
//! request to send; whoever holds the connection sends it and hands the reply
//! back.  The plugin's state changes only when a session ends `Done` (the
//! state is then to be saved); a session that ends `Failed` or `Aborted` (the
//! arithmetic the action needs cannot be carried out) hands back the state it
//! was given.
use crate::decide::{
    created_tab, decide_event, pane_context, spec_created_tab, spec_decide_event,
    spec_pane_context, spec_split_cwd, spec_split_swap_target, spec_swap_target, split_cwd,
    split_swap_target, swap_target, EventDecision, EventDecisionView,
};
use crate::json::{Json, JsonView};
use crate::reflow::{Progress, ReflowPlan, ReflowPlanView};
use crate::reply::{
    field, layout_pane_ids, spec_field, spec_layout_pane_ids, spec_typed_field, texts,
    typed_field, Error, ErrorView, Field, ReplyKind,
};
use crate::request::{Request, RequestView};
use crate::state::{State, StateView};
use crate::tab::{
    adjust_mfact, adjust_nmaster, clamp_mfact, clamp_nmaster, default_tab, spec_adjust_mfact,
    spec_adjust_nmaster, spec_clamp, spec_clamp_mfact, Abort, Orientation, TabState,
    TabStateView, MAX_MFACT, MIN_MFACT,
};
use vstd::prelude::*;

verus! {

/// An action on the focused pane's tab.
#[derive(Debug)]
pub enum PaneCommand {
    /// Manage the tab and reflow it.
    Enable,
    /// Stop managing the tab, leaving its panes as they are.
    Disable,
    /// Split the focused pane towards the named side, make the new pane a
    /// master and reflow.
    Split { towards: String },
    /// Swap the focused pane with the opposite group and reflow.
    SwapMaster,
    /// Toggle the orientation and reflow.
    NextLayout,
    /// Change the master count by `delta` and reflow.
    ChangeNmaster { delta: i64 },
    /// Change the master share by `delta` millionths and reflow.
    ChangeMfact { delta: i64 },
}

pub enum PaneCommandView {
    Enable,
    Disable,
    Split { towards: Seq<char> },
    SwapMaster,
    NextLayout,
    ChangeNmaster { delta: i64 },
    ChangeMfact { delta: i64 },
}

impl View for PaneCommand {
    type V = PaneCommandView;

    open spec fn view(&self) -> PaneCommandView {
        match *self {
            PaneCommand::Enable => PaneCommandView::Enable,
            PaneCommand::Disable => PaneCommandView::Disable,
            PaneCommand::Split { towards } => PaneCommandView::Split { towards: towards@ },
            PaneCommand::SwapMaster => PaneCommandView::SwapMaster,
            PaneCommand::NextLayout => PaneCommandView::NextLayout,
            PaneCommand::ChangeNmaster { delta } => PaneCommandView::ChangeNmaster { delta },
            PaneCommand::ChangeMfact { delta } => PaneCommandView::ChangeMfact { delta },
        }
    }
}

/// A plugin action.
#[derive(Debug)]
pub enum Command {
    /// An action on the focused pane's tab.
    Pane(PaneCommand),
    /// A Herdr event, with its payload and its name.
    Event { event: Json, name: String },
    /// Reflow a given tab with given settings; the master share (in
    /// millionths) is held within `MIN_MFACT ..= MAX_MFACT`.
    ReflowTab {
        workspace_id: String,
        tab_id: String,
        orientation: Orientation,
        mfact: u64,
        nmaster: usize,
    },
}

pub enum CommandView {
    Pane(PaneCommandView),
    Event { event: JsonView, name: Seq<char> },
    ReflowTab {
        workspace_id: Seq<char>,
        tab_id: Seq<char>,
        orientation: Orientation,
        mfact: u64,
        nmaster: usize,
    },
}

impl View for Command {
    type V = CommandView;

    open spec fn view(&self) -> CommandView {
        match *self {
            Command::Pane(c) => CommandView::Pane(c@),
            Command::Event { event, name } => CommandView::Event { event: event@, name: name@ },
            Command::ReflowTab { workspace_id, tab_id, orientation, mfact, nmaster } =>
                CommandView::ReflowTab {
                workspace_id: workspace_id@,
                tab_id: tab_id@,
                orientation,
                mfact,
                nmaster,
            },
        }
    }
}

/// What to do next.
#[derive(Debug)]
pub enum Step {
    /// Send this request and hand its reply back.
    Send(Request),
    /// The action is complete; save the state.
    Done,
    /// The action failed; the state is as it was.
    Failed(Error),
    /// The action's arithmetic cannot be carried out; the state is as it was.
    Aborted(Abort),
}

pub enum StepView {
    Send(RequestView),
    Done,
    Failed(ErrorView),
    Aborted(Abort),
}

impl View for Step {
    type V = StepView;

    open spec fn view(&self) -> StepView {
        match *self {
            Step::Send(r) => StepView::Send(r@),
            Step::Done => StepView::Done,
            Step::Failed(e) => StepView::Failed(e@),
            Step::Aborted(a) => StepView::Aborted(a),
        }
    }
}

/// What a session waits for.
enum Phase {
    Context(PaneCommand),
    Split { workspace_id: String, tab_id: String, tab: TabState },
    SplitLayout { workspace_id: String, tab_id: String, tab: TabState, new_pane: String },
    SwapLayout { workspace_id: String, tab_id: String, tab: TabState, focused: String },
    CountLayout { workspace_id: String, tab_id: String, delta: i64 },
    EventLayout { workspace_id: String, tab_id: String, tab: TabState },
    Swapped { workspace_id: String, tab_id: String, tab: TabState },
    Layout { workspace_id: String, tab_id: String, tab: TabState },
    Staging {
        tab_id: String,
        tab: TabState,
        ordered: Vec<String>,
        focused: String,
        nmaster: usize,
    },
    Moves { tab: TabState, plan: ReflowPlan, progress: Progress },
    Finished,
}

/// The model of what a session waits for.
pub enum PhaseView {
    /// The reply to `pane.current`, for an action on the focused pane.
    Context(PaneCommandView),
    /// The reply to `pane.split`.
    Split { workspace_id: Seq<char>, tab_id: Seq<char>, tab: TabStateView },
    /// The layout after a split.
    SplitLayout {
        workspace_id: Seq<char>,
        tab_id: Seq<char>,
        tab: TabStateView,
        new_pane: Seq<char>,
    },
    /// The layout in which the focused pane is swapped.
    SwapLayout {
        workspace_id: Seq<char>,
        tab_id: Seq<char>,
        tab: TabStateView,
        focused: Seq<char>,
    },
    /// The layout whose pane count bounds a new master count.
    CountLayout { workspace_id: Seq<char>, tab_id: Seq<char>, delta: i64 },
    /// The layout to compare with an event's tab.
    EventLayout { workspace_id: Seq<char>, tab_id: Seq<char>, tab: TabStateView },
    /// The reply to `pane.swap`.
    Swapped { workspace_id: Seq<char>, tab_id: Seq<char>, tab: TabStateView },
    /// The layout to reflow.
    Layout { workspace_id: Seq<char>, tab_id: Seq<char>, tab: TabStateView },
    /// The reply to the move that creates the staging tab.
    Staging {
        tab_id: Seq<char>,
        tab: TabStateView,
        ordered: Seq<Seq<char>>,
        focused: Seq<char>,
        nmaster: usize,
    },
    /// The reply to a later move; `next` is the plan's next request.
    Moves { tab: TabStateView, plan: ReflowPlanView, next: nat },
    /// Nothing.
    Finished,
}

/// What the moves of a reflow need: at least two panes, a master count
/// within their number, and requests counted in order.
spec fn phase_ok(p: Phase) -> bool {
    match p {
        Phase::Staging { ordered, nmaster, .. } => ordered@.len() >= 2 && 1 <= nmaster
            <= ordered@.len(),
        Phase::Moves { plan, progress, .. } => plan@.wf() && plan@.progress_ok(progress),
        _ => true,
    }
}

impl View for Phase {
    type V = PhaseView;

    closed spec fn view(&self) -> PhaseView {
        match *self {
            Phase::Context(c) => PhaseView::Context(c@),
            Phase::Split { workspace_id, tab_id, tab } => PhaseView::Split {
                workspace_id: workspace_id@,
                tab_id: tab_id@,
                tab: tab@,
            },
            Phase::SplitLayout { workspace_id, tab_id, tab, new_pane } => PhaseView::SplitLayout {
                workspace_id: workspace_id@,
                tab_id: tab_id@,
                tab: tab@,
                new_pane: new_pane@,
            },
            Phase::SwapLayout { workspace_id, tab_id, tab, focused } => PhaseView::SwapLayout {
                workspace_id: workspace_id@,
                tab_id: tab_id@,
                tab: tab@,
                focused: focused@,
            },
            Phase::CountLayout { workspace_id, tab_id, delta } => PhaseView::CountLayout {
                workspace_id: workspace_id@,
                tab_id: tab_id@,
                delta,
            },
            Phase::EventLayout { workspace_id, tab_id, tab } => PhaseView::EventLayout {
                workspace_id: workspace_id@,
                tab_id: tab_id@,
                tab: tab@,
            },
            Phase::Swapped { workspace_id, tab_id, tab } => PhaseView::Swapped {
                workspace_id: workspace_id@,
                tab_id: tab_id@,
                tab: tab@,
            },
            Phase::Layout { workspace_id, tab_id, tab } => PhaseView::Layout {
                workspace_id: workspace_id@,
                tab_id: tab_id@,
                tab: tab@,
            },
            Phase::Staging { tab_id, tab, ordered, focused, nmaster } => PhaseView::Staging {
                tab_id: tab_id@,
                tab: tab@,
                ordered: texts(ordered@),
                focused: focused@,
                nmaster,
            },
            Phase::Moves { tab, plan, progress } => PhaseView::Moves {
                tab: tab@,
                plan: plan@,
                next: progress.sent() as nat,
            },
            Phase::Finished => PhaseView::Finished,
        }
    }
}

/// A plugin action in progress: the plugin's state, which stays as it was
/// when the action started until the action is done, and what the action
/// waits for, with its working copy of the tab's settings.
pub struct Session {
    state: State,
    phase: Phase,
}

pub struct SessionView {
    pub state: StateView,
    pub phase: PhaseView,
}

impl View for Session {
    type V = SessionView;

    closed spec fn view(&self) -> SessionView {
        SessionView { state: self.state@, phase: self.phase@ }
    }
}

/// The model of a reply: its value, or the client's error message.
pub open spec fn reply_view(reply: Result<Json, String>) -> Result<JsonView, Seq<char>> {
    match reply {
        Ok(j) => Ok(j@),
        Err(m) => Err(m@),
    }
}

/// The settings of tab `id` (the defaults for a tab that is not managed yet).
pub open spec fn working_tab(state: StateView, id: Seq<char>) -> TabStateView {
    if state.tabs.contains_key(id) {
        state.tabs[id]
    } else {
        default_tab()
    }
}

/// The state with tab `id` managed with `tab`.
pub open spec fn put_tab(state: StateView, id: Seq<char>, tab: TabStateView) -> StateView {
    StateView { version: state.version, tabs: state.tabs.insert(id, tab) }
}

/// The state with tab `id` no longer managed.
pub open spec fn forget_tab(state: StateView, id: Seq<char>) -> StateView {
    StateView { version: state.version, tabs: state.tabs.remove(id) }
}

pub open spec fn send(state: StateView, phase: PhaseView, request: RequestView) -> (
    SessionView,
    StepView,
) {
    (SessionView { state, phase }, StepView::Send(request))
}

pub open spec fn done(state: StateView) -> (SessionView, StepView) {
    (SessionView { state, phase: PhaseView::Finished }, StepView::Done)
}

pub open spec fn fail(state: StateView, e: ErrorView) -> (SessionView, StepView) {
    (SessionView { state, phase: PhaseView::Finished }, StepView::Failed(e))
}

pub open spec fn abort(state: StateView, a: Abort) -> (SessionView, StepView) {
    (SessionView { state, phase: PhaseView::Finished }, StepView::Aborted(a))
}

/// The pane ids of a `layout.export` reply.
pub open spec fn spec_reply_pane_ids(reply: JsonView) -> Result<Seq<Seq<char>>, ErrorView> {
    match spec_typed_field(reply, ReplyKind::LayoutExport, Field::Layout) {
        Err(e) => Err(e),
        Ok(layout) => spec_layout_pane_ids(layout),
    }
}

/// A session starting `command` on `state`.
pub open spec fn spec_start(state: StateView, command: CommandView) -> (SessionView, StepView) {
    match command {
        CommandView::Pane(c) => send(state, PhaseView::Context(c), RequestView::CurrentPane),
        CommandView::ReflowTab { workspace_id, tab_id, orientation, mfact, nmaster } => {
            let tab = working_tab(state, tab_id);
            send(
                state,
                PhaseView::Layout {
                    workspace_id,
                    tab_id,
                    tab: TabStateView {
                        orientation,
                        mfact: spec_clamp_mfact(mfact),
                        nmaster,
                        ..tab
                    },
                },
                RequestView::ExportLayout { tab_id },
            )
        },
        CommandView::Event { event, name } => match spec_decide_event(state, event, name) {
            EventDecisionView::Forget(tab_id) => done(forget_tab(state, tab_id)),
            EventDecisionView::Ignore => done(state),
            EventDecisionView::Check { workspace_id, tab_id } => {
                let tab = working_tab(state, tab_id);
                send(
                    state,
                    PhaseView::EventLayout { workspace_id, tab_id, tab },
                    RequestView::ExportLayout { tab_id },
                )
            },
        },
    }
}

/// The step after the focused pane is known.
pub open spec fn spec_after_context(
    state: StateView,
    command: PaneCommandView,
    reply: JsonView,
) -> (SessionView, StepView) {
    match spec_pane_context(reply) {
        Err(e) => fail(state, e),
        Ok(c) => {
            let tab = working_tab(state, c.tab_id);
            let export = RequestView::ExportLayout { tab_id: c.tab_id };
            match command {
                PaneCommandView::Enable => send(
                    state,
                    PhaseView::Layout {
                        workspace_id: c.workspace_id,
                        tab_id: c.tab_id,
                        tab: TabStateView { enabled: true, ..tab },
                    },
                    export,
                ),
                PaneCommandView::Disable => done(forget_tab(state, c.tab_id)),
                PaneCommandView::Split { towards } => send(
                    state,
                    PhaseView::Split { workspace_id: c.workspace_id, tab_id: c.tab_id, tab },
                    RequestView::SplitPane {
                        target_pane_id: c.pane_id,
                        towards,
                        cwd: spec_split_cwd(c.pane),
                    },
                ),
                PaneCommandView::SwapMaster => send(
                    state,
                    PhaseView::SwapLayout {
                        workspace_id: c.workspace_id,
                        tab_id: c.tab_id,
                        tab,
                        focused: c.pane_id,
                    },
                    export,
                ),
                PaneCommandView::NextLayout => send(
                    state,
                    PhaseView::Layout {
                        workspace_id: c.workspace_id,
                        tab_id: c.tab_id,
                        tab: TabStateView { orientation: tab.orientation.spec_toggled(), ..tab },
                    },
                    export,
                ),
                PaneCommandView::ChangeNmaster { delta } => send(
                    state,
                    PhaseView::CountLayout { workspace_id: c.workspace_id, tab_id: c.tab_id, delta },
                    export,
                ),
                PaneCommandView::ChangeMfact { delta } => send(
                    state,
                    PhaseView::Layout {
                        workspace_id: c.workspace_id,
                        tab_id: c.tab_id,
                        tab: TabStateView {
                            mfact: spec_adjust_mfact(tab.mfact, delta),
                            ..tab
                        },
                    },
                    export,
                ),
            }
        },
    }
}

/// The step after `layout.export` replied, for a reflow.
pub open spec fn spec_after_layout(
    state: StateView,
    workspace_id: Seq<char>,
    tab_id: Seq<char>,
    tab: TabStateView,
    reply: JsonView,
) -> (SessionView, StepView) {
    match spec_typed_field(reply, ReplyKind::LayoutExport, Field::Layout) {
        Err(e) => fail(state, e),
        Ok(layout) => match spec_layout_pane_ids(layout) {
            Err(e) => fail(state, e),
            Ok(ordered) => if ordered.len() <= 1 {
                done(
                    put_tab(
                        state,
                        tab_id,
                        TabStateView {
                            pane_ids: ordered,
                            nmaster: 1,
                            last_master_pane: if ordered.len() == 1 {
                                Some(ordered[0])
                            } else {
                                None
                            },
                            last_stack_pane: None,
                            ..tab
                        },
                    ),
                )
            } else {
                match spec_field(layout, Field::FocusedPaneId) {
                    Err(e) => fail(state, e),
                    Ok(f) => match f.text() {
                        None => fail(state, ErrorView::FocusedPaneIdNotString),
                        Some(focused) => send(
                            state,
                            PhaseView::Staging {
                                tab_id,
                                tab,
                                ordered,
                                focused,
                                nmaster: spec_clamp(
                                    tab.nmaster as int,
                                    1,
                                    ordered.len() as int,
                                ) as usize,
                            },
                            RequestView::MoveToNewTab { pane_id: ordered[1], workspace_id },
                        ),
                    },
                }
            },
        },
    }
}

/// The step after the staging tab was created.
pub open spec fn spec_after_staging(
    state: StateView,
    tab_id: Seq<char>,
    tab: TabStateView,
    ordered: Seq<Seq<char>>,
    focused: Seq<char>,
    nmaster: usize,
    reply: JsonView,
) -> (SessionView, StepView) {
    match spec_typed_field(reply, ReplyKind::PaneMove, Field::MoveResult) {
        Err(e) => fail(state, e),
        Ok(moved) => match spec_created_tab(moved) {
            None => fail(state, ErrorView::NoStagingTab),
            Some(staging_tab_id) => {
                let plan = ReflowPlanView {
                    tab_id,
                    staging_tab_id,
                    ordered,
                    nmaster,
                    orientation: tab.orientation,
                    mfact: tab.mfact,
                    focused,
                };
                send(state, PhaseView::Moves { tab, plan, next: 1 }, plan.request(0))
            },
        },
    }
}

/// The step after a later move of a reflow.
pub open spec fn spec_after_move(
    state: StateView,
    tab: TabStateView,
    plan: ReflowPlanView,
    next: nat,
) -> (SessionView, StepView) {
    if next < plan.len() {
        send(state, PhaseView::Moves { tab, plan, next: next + 1 }, plan.request(next as int))
    } else {
        done(put_tab(state, plan.tab_id, plan.finished(tab)))
    }
}

/// The step after the layout in which a new split is promoted is known.
pub open spec fn spec_after_split_layout(
    state: StateView,
    workspace_id: Seq<char>,
    tab_id: Seq<char>,
    tab: TabStateView,
    new_pane: Seq<char>,
    reply: JsonView,
) -> (SessionView, StepView) {
    match spec_reply_pane_ids(reply) {
        Err(e) => fail(state, e),
        Ok(ordered) => if ordered.len() == 0 {
            abort(state, Abort::EmptyRange)
        } else {
            let nmaster = spec_clamp(tab.nmaster as int, 1, ordered.len() as int);
            match spec_split_swap_target(ordered, nmaster, new_pane, tab.last_master_pane) {
                None => send(
                    state,
                    PhaseView::Layout { workspace_id, tab_id, tab },
                    RequestView::ExportLayout { tab_id },
                ),
                Some(target) => send(
                    state,
                    PhaseView::Swapped { workspace_id, tab_id, tab },
                    RequestView::SwapPanes { source_pane_id: new_pane, target_pane_id: target },
                ),
            }
        },
    }
}

/// The step after the layout in which the focused pane is swapped is known.
pub open spec fn spec_after_swap_layout(
    state: StateView,
    workspace_id: Seq<char>,
    tab_id: Seq<char>,
    tab: TabStateView,
    focused: Seq<char>,
    reply: JsonView,
) -> (SessionView, StepView) {
    match spec_reply_pane_ids(reply) {
        Err(e) => fail(state, e),
        Ok(ordered) => if ordered.len() < 2 {
            done(put_tab(state, tab_id, tab))
        } else {
            let nmaster = spec_clamp(tab.nmaster as int, 1, ordered.len() as int);
            let target = spec_swap_target(
                ordered,
                nmaster,
                focused,
                tab.last_master_pane,
                tab.last_stack_pane,
            );
            if target == focused {
                done(put_tab(state, tab_id, tab))
            } else {
                send(
                    state,
                    PhaseView::Swapped { workspace_id, tab_id, tab },
                    RequestView::SwapPanes { source_pane_id: focused, target_pane_id: target },
                )
            }
        },
    }
}

/// The step after the layout that bounds a new master count is known.
pub open spec fn spec_after_count_layout(
    state: StateView,
    workspace_id: Seq<char>,
    tab_id: Seq<char>,
    delta: i64,
    reply: JsonView,
) -> (SessionView, StepView) {
    match spec_reply_pane_ids(reply) {
        Err(e) => fail(state, e),
        Ok(ordered) => {
            let tab = working_tab(state, tab_id);
            match spec_adjust_nmaster(tab.nmaster, delta, ordered.len() as usize) {
                Err(a) => abort(state, a),
                Ok(nmaster) => send(
                    state,
                    PhaseView::Layout {
                        workspace_id,
                        tab_id,
                        tab: TabStateView { nmaster, ..tab },
                    },
                    RequestView::ExportLayout { tab_id },
                ),
            }
        },
    }
}

/// The step after the layout of an event's tab is known.
pub open spec fn spec_after_event_layout(
    state: StateView,
    workspace_id: Seq<char>,
    tab_id: Seq<char>,
    tab: TabStateView,
    reply: JsonView,
) -> (SessionView, StepView) {
    match spec_reply_pane_ids(reply) {
        Err(e) => fail(state, e),
        Ok(ids) => if ids == tab.pane_ids {
            done(put_tab(state, tab_id, tab))
        } else {
            send(
                state,
                PhaseView::Layout { workspace_id, tab_id, tab },
                RequestView::ExportLayout { tab_id },
            )
        },
    }
}

/// The step after the split pane was created.
pub open spec fn spec_after_split(
    state: StateView,
    workspace_id: Seq<char>,
    tab_id: Seq<char>,
    tab: TabStateView,
    reply: JsonView,
) -> (SessionView, StepView) {
    match spec_typed_field(reply, ReplyKind::PaneInfo, Field::Pane) {
        Err(e) => fail(state, e),
        Ok(pane) => match spec_field(pane, Field::PaneId) {
            Err(e) => fail(state, e),
            Ok(id) => match id.text() {
                None => fail(state, ErrorView::NewPaneIdNotString),
                Some(new_pane) => send(
                    state,
                    PhaseView::SplitLayout { workspace_id, tab_id, tab, new_pane },
                    RequestView::ExportLayout { tab_id },
                ),
            },
        },
    }
}

/// The step after `reply`.
pub open spec fn spec_resume(s: SessionView, reply: Result<JsonView, Seq<char>>) -> (
    SessionView,
    StepView,
) {
    match reply {
        Err(m) => fail(s.state, ErrorView::Api(m)),
        Ok(r) => match s.phase {
            PhaseView::Context(c) => spec_after_context(s.state, c, r),
            PhaseView::Split { workspace_id, tab_id, tab } => spec_after_split(
                s.state,
                workspace_id,
                tab_id,
                tab,
                r,
            ),
            PhaseView::SplitLayout { workspace_id, tab_id, tab, new_pane } =>
                spec_after_split_layout(s.state, workspace_id, tab_id, tab, new_pane, r),
            PhaseView::SwapLayout { workspace_id, tab_id, tab, focused } => spec_after_swap_layout(
                s.state,
                workspace_id,
                tab_id,
                tab,
                focused,
                r,
            ),
            PhaseView::CountLayout { workspace_id, tab_id, delta } => spec_after_count_layout(
                s.state,
                workspace_id,
                tab_id,
                delta,
                r,
            ),
            PhaseView::EventLayout { workspace_id, tab_id, tab } => spec_after_event_layout(
                s.state,
                workspace_id,
                tab_id,
                tab,
                r,
            ),
            PhaseView::Swapped { workspace_id, tab_id, tab } => send(
                s.state,
                PhaseView::Layout { workspace_id, tab_id, tab },
                RequestView::ExportLayout { tab_id },
            ),
            PhaseView::Layout { workspace_id, tab_id, tab } => spec_after_layout(
                s.state,
                workspace_id,
                tab_id,
                tab,
                r,
            ),
            PhaseView::Staging { tab_id, tab, ordered, focused, nmaster } => spec_after_staging(
                s.state,
                tab_id,
                tab,
                ordered,
                focused,
                nmaster,
                r,
            ),
            PhaseView::Moves { tab, plan, next } => spec_after_move(s.state, tab, plan, next),
            PhaseView::Finished => done(s.state),
        },
    }
}

/// A copy of the settings of tab `id`, or the defaults for an unmanaged tab.
fn working(state: &State, id: &str) -> (r: TabState)
    ensures
        r@ == working_tab(state@, id@),
{
    match state.tab(id) {
        Some(t) => t.copy(),
        None => TabState::default(),
    }
}

/// The pane ids of a `layout.export` reply.
fn reply_pane_ids(reply: Json) -> (r: Result<Vec<String>, Error>)
    ensures
        crate::reply::ids_result_view(r) == spec_reply_pane_ids(reply@),
{
    match typed_field(reply, ReplyKind::LayoutExport, Field::Layout) {
        Err(e) => Err(e),
        Ok(layout) => layout_pane_ids(&layout),
    }
}

/// Whether two id lists have the same texts.
fn same_ids(a: &Vec<String>, b: &Vec<String>) -> (r: bool)
    ensures
        r == (texts(a@) == texts(b@)),
{
    if a.len() != b.len() {
        proof {
            assert(texts(a@).len() != texts(b@).len());
        }
        return false;
    }
    let mut i: usize = 0;
    while i < a.len()
        invariant
            a@.len() == b@.len(),
            i <= a@.len(),
            forall|j: int| 0 <= j < i ==> a@[j]@ == b@[j]@,
        decreases a.len() - i,
    {
        if a[i] != b[i] {
            proof {
                assert(texts(a@)[i as int] != texts(b@)[i as int]);
            }
            return false;
        }
        i = i + 1;
    }
    assert(texts(a@) =~= texts(b@));
    true
}

impl Session {
    #[verifier::type_invariant]
    spec fn inv(self) -> bool {
        phase_ok(self.phase)
    }

    /// Starts `command` on `state`.
    pub fn start(state: State, command: Command) -> (r: (Session, Step))
        ensures
            (r.0@, r.1@) == spec_start(state@, command@),
    {
        let mut state = state;
        match command {
            Command::Pane(c) => (Session { state, phase: Phase::Context(c) }, Step::Send(
                Request::CurrentPane,
            )),
            Command::ReflowTab { workspace_id, tab_id, orientation, mfact, nmaster } => {
                let mut tab = working(&state, tab_id.as_str());
                tab.orientation = orientation;
                tab.mfact = clamp_mfact(mfact);
                tab.nmaster = nmaster;
                let request = Request::ExportLayout { tab_id: tab_id.clone() };
                (Session { state, phase: Phase::Layout { workspace_id, tab_id, tab } }, Step::Send(
                    request,
                ))
            },
            Command::Event { event, name } => match decide_event(&state, &event, name.as_str()) {
                EventDecision::Forget(tab_id) => {
                    let _ = state.remove_tab(tab_id.as_str());
                    (Session { state, phase: Phase::Finished }, Step::Done)
                },
                EventDecision::Ignore => (Session { state, phase: Phase::Finished }, Step::Done),
                EventDecision::Check { workspace_id, tab_id } => {
                    let tab = working(&state, tab_id.as_str());
                    let request = Request::ExportLayout { tab_id: tab_id.clone() };
                    (
                        Session { state, phase: Phase::EventLayout { workspace_id, tab_id, tab } },
                        Step::Send(request),
                    )
                },
            },
        }
    }

    /// Whether the session waits for a reply.
    pub fn is_waiting(&self) -> (r: bool)
        ensures
            r == !(self@.phase is Finished),
    {
        match self.phase {
            Phase::Finished => false,
            _ => true,
        }
    }

    /// The plugin's state.
    pub fn state(&self) -> (r: &State)
        ensures
            r@ == self@.state,
    {
        &self.state
    }

    /// The plugin's state, once the session is over.
    pub fn into_state(self) -> (r: State)
        ensures
            r@ == self@.state,
    {
        self.state
    }

    /// Takes the reply to the last request sent and decides the next step.
    pub fn resume(&mut self, reply: Result<Json, String>) -> (r: Step)
        requires
            !(old(self)@.phase is Finished),
        ensures
            (final(self)@, r@) == spec_resume(old(self)@, reply_view(reply)),
    {
        proof {
            use_type_invariant(&*self);
        }
        let ghost old_phase = self.phase@;
        let mut phase = Phase::Finished;
        std::mem::swap(&mut phase, &mut self.phase);
        assert(phase@ == old_phase);
        let reply = match reply {
            Ok(r) => r,
            Err(m) => {
                return Step::Failed(Error::Api(m));
            },
        };
        let mut state = State::new();
        std::mem::swap(&mut state, &mut self.state);
        let (next, step) = match phase {
            Phase::Context(c) => after_context(&mut state, c, reply),
            Phase::Split { workspace_id, tab_id, tab } => after_split(
                &mut state,
                workspace_id,
                tab_id,
                tab,
                reply,
            ),
            Phase::SplitLayout { workspace_id, tab_id, tab, new_pane } => after_split_layout(
                &mut state,
                workspace_id,
                tab_id,
                tab,
                new_pane,
                reply,
            ),
            Phase::SwapLayout { workspace_id, tab_id, tab, focused } => after_swap_layout(
                &mut state,
                workspace_id,
                tab_id,
                tab,
                focused,
                reply,
            ),
            Phase::CountLayout { workspace_id, tab_id, delta } => after_count_layout(
                &mut state,
                workspace_id,
                tab_id,
                delta,
                reply,
            ),
            Phase::EventLayout { workspace_id, tab_id, tab } => after_event_layout(
                &mut state,
                workspace_id,
                tab_id,
                tab,
                reply,
            ),
            Phase::Swapped { workspace_id, tab_id, tab } => {
                let request = Request::ExportLayout { tab_id: tab_id.clone() };
                (Phase::Layout { workspace_id, tab_id, tab }, Step::Send(request))
            },
            Phase::Layout { workspace_id, tab_id, tab } => after_layout(
                &mut state,
                workspace_id,
                tab_id,
                tab,
                reply,
            ),
            Phase::Staging { tab_id, tab, ordered, focused, nmaster } => after_staging(
                &mut state,
                tab_id,
                tab,
                ordered,
                focused,
                nmaster,
                reply,
            ),
            Phase::Moves { tab, plan, progress } => after_move(&mut state, tab, plan, progress),
            Phase::Finished => (Phase::Finished, Step::Done),
        };
        self.state = state;
        self.phase = next;
        step
    }
}

fn after_context(state: &mut State, command: PaneCommand, reply: Json) -> (r: (Phase, Step))
    ensures
        phase_ok(r.0),
        (SessionView { state: final(state)@, phase: r.0@ }, r.1@) == spec_after_context(
            old(state)@,
            command@,
            reply@,
        ),
{
    let c = match pane_context(reply) {
        Ok(c) => c,
        Err(e) => {
            return (Phase::Finished, Step::Failed(e));
        },
    };
    let crate::decide::PaneContext { workspace_id, tab_id, pane_id, pane } = c;
    let export = Request::ExportLayout { tab_id: tab_id.clone() };
    match command {
        PaneCommand::Disable => {
            let _ = state.remove_tab(tab_id.as_str());
            (Phase::Finished, Step::Done)
        },
        PaneCommand::ChangeNmaster { delta } => (
            Phase::CountLayout { workspace_id, tab_id, delta },
            Step::Send(export),
        ),
        PaneCommand::Enable => {
            let mut tab = working(state, tab_id.as_str());
            tab.enabled = true;
            (Phase::Layout { workspace_id, tab_id, tab }, Step::Send(export))
        },
        PaneCommand::Split { towards } => {
            let tab = working(state, tab_id.as_str());
            let cwd = split_cwd(&pane);
            (
                Phase::Split { workspace_id, tab_id, tab },
                Step::Send(Request::SplitPane { target_pane_id: pane_id, towards, cwd }),
            )
        },
        PaneCommand::SwapMaster => {
            let tab = working(state, tab_id.as_str());
            (
                Phase::SwapLayout { workspace_id, tab_id, tab, focused: pane_id },
                Step::Send(export),
            )
        },
        PaneCommand::NextLayout => {
            let mut tab = working(state, tab_id.as_str());
            tab.orientation = tab.orientation.toggled();
            (Phase::Layout { workspace_id, tab_id, tab }, Step::Send(export))
        },
        PaneCommand::ChangeMfact { delta } => {
            let mut tab = working(state, tab_id.as_str());
            tab.mfact = adjust_mfact(tab.mfact, delta);
            (Phase::Layout { workspace_id, tab_id, tab }, Step::Send(export))
        },
    }
}

fn after_split(
    state: &mut State,
    workspace_id: String,
    tab_id: String,
    tab: TabState,
    reply: Json,
) -> (r: (Phase, Step))
    ensures
        phase_ok(r.0),
        (SessionView { state: final(state)@, phase: r.0@ }, r.1@) == spec_after_split(
            old(state)@,
            workspace_id@,
            tab_id@,
            tab@,
            reply@,
        ),
{
    let pane = match typed_field(reply, ReplyKind::PaneInfo, Field::Pane) {
        Ok(p) => p,
        Err(e) => {
            return (Phase::Finished, Step::Failed(e));
        },
    };
    let id = match field(&pane, Field::PaneId) {
        Ok(id) => id,
        Err(e) => {
            return (Phase::Finished, Step::Failed(e));
        },
    };
    let new_pane = match id.as_str() {
        Some(s) => s.clone(),
        None => {
            return (Phase::Finished, Step::Failed(Error::NewPaneIdNotString));
        },
    };
    let request = Request::ExportLayout { tab_id: tab_id.clone() };
    (Phase::SplitLayout { workspace_id, tab_id, tab, new_pane }, Step::Send(request))
}

fn after_split_layout(
    state: &mut State,
    workspace_id: String,
    tab_id: String,
    tab: TabState,
    new_pane: String,
    reply: Json,
) -> (r: (Phase, Step))
    ensures
        phase_ok(r.0),
        (SessionView { state: final(state)@, phase: r.0@ }, r.1@) == spec_after_split_layout(
            old(state)@,
            workspace_id@,
            tab_id@,
            tab@,
            new_pane@,
            reply@,
        ),
{
    let ordered = match reply_pane_ids(reply) {
        Ok(o) => o,
        Err(e) => {
            return (Phase::Finished, Step::Failed(e));
        },
    };
    if ordered.len() == 0 {
        return (Phase::Finished, Step::Aborted(Abort::EmptyRange));
    }
    let nmaster = clamp_nmaster(tab.nmaster, ordered.len());
    match split_swap_target(&ordered, nmaster, &new_pane, &tab.last_master_pane) {
        None => {
            let request = Request::ExportLayout { tab_id: tab_id.clone() };
            (Phase::Layout { workspace_id, tab_id, tab }, Step::Send(request))
        },
        Some(target) => (
            Phase::Swapped { workspace_id, tab_id, tab },
            Step::Send(Request::SwapPanes { source_pane_id: new_pane, target_pane_id: target }),
        ),
    }
}

fn after_swap_layout(
    state: &mut State,
    workspace_id: String,
    tab_id: String,
    tab: TabState,
    focused: String,
    reply: Json,
) -> (r: (Phase, Step))
    ensures
        phase_ok(r.0),
        (SessionView { state: final(state)@, phase: r.0@ }, r.1@) == spec_after_swap_layout(
            old(state)@,
            workspace_id@,
            tab_id@,
            tab@,
            focused@,
            reply@,
        ),
{
    let ordered = match reply_pane_ids(reply) {
        Ok(o) => o,
        Err(e) => {
            return (Phase::Finished, Step::Failed(e));
        },
    };
    if ordered.len() < 2 {
        state.insert_tab(tab_id, tab);
        return (Phase::Finished, Step::Done);
    }
    let nmaster = clamp_nmaster(tab.nmaster, ordered.len());
    let target = swap_target(
        &ordered,
        nmaster,
        &focused,
        &tab.last_master_pane,
        &tab.last_stack_pane,
    );
    if target == focused {
        state.insert_tab(tab_id, tab);
        return (Phase::Finished, Step::Done);
    }
    (
        Phase::Swapped { workspace_id, tab_id, tab },
        Step::Send(Request::SwapPanes { source_pane_id: focused, target_pane_id: target }),
    )
}

fn after_count_layout(
    state: &mut State,
    workspace_id: String,
    tab_id: String,
    delta: i64,
    reply: Json,
) -> (r: (Phase, Step))
    ensures
        phase_ok(r.0),
        (SessionView { state: final(state)@, phase: r.0@ }, r.1@) == spec_after_count_layout(
            old(state)@,
            workspace_id@,
            tab_id@,
            delta,
            reply@,
        ),
{
    let ordered = match reply_pane_ids(reply) {
        Ok(o) => o,
        Err(e) => {
            return (Phase::Finished, Step::Failed(e));
        },
    };
    let mut tab = working(state, tab_id.as_str());
    match adjust_nmaster(tab.nmaster, delta, ordered.len()) {
        Err(a) => (Phase::Finished, Step::Aborted(a)),
        Ok(n) => {
            tab.nmaster = n;
            let request = Request::ExportLayout { tab_id: tab_id.clone() };
            (Phase::Layout { workspace_id, tab_id, tab }, Step::Send(request))
        },
    }
}

fn after_event_layout(
    state: &mut State,
    workspace_id: String,
    tab_id: String,
    tab: TabState,
    reply: Json,
) -> (r: (Phase, Step))
    ensures
        phase_ok(r.0),
        (SessionView { state: final(state)@, phase: r.0@ }, r.1@) == spec_after_event_layout(
            old(state)@,
            workspace_id@,
            tab_id@,
            tab@,
            reply@,
        ),
{
    let ids = match reply_pane_ids(reply) {
        Ok(o) => o,
        Err(e) => {
            return (Phase::Finished, Step::Failed(e));
        },
    };
    if same_ids(&ids, &tab.pane_ids) {
        state.insert_tab(tab_id, tab);
        return (Phase::Finished, Step::Done);
    }
    let request = Request::ExportLayout { tab_id: tab_id.clone() };
    (Phase::Layout { workspace_id, tab_id, tab }, Step::Send(request))
}

fn after_layout(
    state: &mut State,
    workspace_id: String,
    tab_id: String,
    tab: TabState,
    reply: Json,
) -> (r: (Phase, Step))
    ensures
        phase_ok(r.0),
        (SessionView { state: final(state)@, phase: r.0@ }, r.1@) == spec_after_layout(
            old(state)@,
            workspace_id@,
            tab_id@,
            tab@,
            reply@,
        ),
{
    let mut tab = tab;
    let layout = match typed_field(reply, ReplyKind::LayoutExport, Field::Layout) {
        Ok(l) => l,
        Err(e) => {
            return (Phase::Finished, Step::Failed(e));
        },
    };
    let ordered = match layout_pane_ids(&layout) {
        Ok(o) => o,
        Err(e) => {
            return (Phase::Finished, Step::Failed(e));
        },
    };
    if ordered.len() <= 1 {
        tab.nmaster = 1;
        tab.last_master_pane = if ordered.len() == 1 {
            Some(ordered[0].clone())
        } else {
            None
        };
        tab.last_stack_pane = None;
        tab.pane_ids = ordered;
        state.insert_tab(tab_id, tab);
        return (Phase::Finished, Step::Done);
    }
    let focused = match field(&layout, Field::FocusedPaneId) {
        Ok(f) => match f.as_str() {
            Some(s) => s.clone(),
            None => {
                return (Phase::Finished, Step::Failed(Error::FocusedPaneIdNotString));
            },
        },
        Err(e) => {
            return (Phase::Finished, Step::Failed(e));
        },
    };
    let nmaster = clamp_nmaster(tab.nmaster, ordered.len());
    let request = Request::MoveToNewTab { pane_id: ordered[1].clone(), workspace_id };
    (Phase::Staging { tab_id, tab, ordered, focused, nmaster }, Step::Send(request))
}

fn after_staging(
    state: &mut State,
    tab_id: String,
    tab: TabState,
    ordered: Vec<String>,
    focused: String,
    nmaster: usize,
    reply: Json,
) -> (r: (Phase, Step))
    requires
        ordered@.len() >= 2,
        1 <= nmaster <= ordered@.len(),
    ensures
        phase_ok(r.0),
        (SessionView { state: final(state)@, phase: r.0@ }, r.1@) == spec_after_staging(
            old(state)@,
            tab_id@,
            tab@,
            texts(ordered@),
            focused@,
            nmaster,
            reply@,
        ),
{
    let moved = match typed_field(reply, ReplyKind::PaneMove, Field::MoveResult) {
        Ok(m) => m,
        Err(e) => {
            return (Phase::Finished, Step::Failed(e));
        },
    };
    let staging_tab_id = match created_tab(&moved) {
        Some(t) => t,
        None => {
            return (Phase::Finished, Step::Failed(Error::NoStagingTab));
        },
    };
    let plan = ReflowPlan {
        tab_id,
        staging_tab_id,
        ordered,
        nmaster,
        orientation: tab.orientation,
        mfact: tab.mfact,
        focused,
    };
    let mut progress = Progress::start();
    match plan.advance(&mut progress) {
        Some(request) => (Phase::Moves { tab, plan, progress }, Step::Send(request)),
        None => (Phase::Finished, Step::Done),
    }
}

fn after_move(state: &mut State, tab: TabState, plan: ReflowPlan, progress: Progress) -> (r: (
    Phase,
    Step,
))
    requires
        plan@.wf(),
        plan@.progress_ok(progress),
    ensures
        phase_ok(r.0),
        (SessionView { state: final(state)@, phase: r.0@ }, r.1@) == spec_after_move(
            old(state)@,
            tab@,
            plan@,
            progress.sent() as nat,
        ),
{
    let mut progress = progress;
    match plan.advance(&mut progress) {
        Some(request) => (Phase::Moves { tab, plan, progress }, Step::Send(request)),
        None => {
            let mut tab = tab;
            plan.finish(&mut tab);
            let tab_id = plan.tab_id.clone();
            state.insert_tab(tab_id, tab);
            (Phase::Finished, Step::Done)
        },
    }
}


/// Putting back or forgetting tab `t` leaves every other tab as it was.
pub proof fn lemma_tab_edits_stay_local(state: StateView, t: Seq<char>, tab: TabStateView)
    ensures
        put_tab(state, t, tab).tabs.remove(t) == state.tabs.remove(t),
        forget_tab(state, t).tabs.remove(t) == state.tabs.remove(t),
        put_tab(state, t, tab).version == state.version,
        forget_tab(state, t).version == state.version,
{
    assert(put_tab(state, t, tab).tabs.remove(t) =~= state.tabs.remove(t));
    assert(forget_tab(state, t).tabs.remove(t) =~= state.tabs.remove(t));
}

/// The tab whose state a step may change.
pub open spec fn step_tab(s: SessionView, reply: Result<JsonView, Seq<char>>) -> Seq<char> {
    match s.phase {
        PhaseView::Context(_) => match reply {
            Ok(r) => match spec_pane_context(r) {
                Ok(c) => c.tab_id,
                Err(_) => Seq::empty(),
            },
            Err(_) => Seq::empty(),
        },
        PhaseView::Split { tab_id, .. } => tab_id,
        PhaseView::SplitLayout { tab_id, .. } => tab_id,
        PhaseView::SwapLayout { tab_id, .. } => tab_id,
        PhaseView::CountLayout { tab_id, .. } => tab_id,
        PhaseView::EventLayout { tab_id, .. } => tab_id,
        PhaseView::Swapped { tab_id, .. } => tab_id,
        PhaseView::Layout { tab_id, .. } => tab_id,
        PhaseView::Staging { tab_id, .. } => tab_id,
        PhaseView::Moves { plan, .. } => plan.tab_id,
        PhaseView::Finished => Seq::empty(),
    }
}

/// Each managed tab has its own state: a step changes the state of at most
/// the one tab it works on, and never the state's version.
pub proof fn lemma_step_changes_one_tab(s: SessionView, reply: Result<JsonView, Seq<char>>)
    ensures
        ({
            let (s2, _) = spec_resume(s, reply);
            let t = step_tab(s, reply);
            &&& s2.state.tabs.remove(t) == s.state.tabs.remove(t)
            &&& s2.state.version == s.state.version
        }),
{
    let t = step_tab(s, reply);
    lemma_tab_edits_stay_local(s.state, t, default_tab());
    match s.phase {
        PhaseView::Layout { tab, .. } => {
            match reply {
                Ok(r) => match spec_typed_field(r, ReplyKind::LayoutExport, Field::Layout) {
                    Ok(layout) => match spec_layout_pane_ids(layout) {
                        Ok(ordered) => {
                            let recorded = TabStateView {
                                pane_ids: ordered,
                                nmaster: 1,
                                last_master_pane: if ordered.len() == 1 {
                                    Some(ordered[0])
                                } else {
                                    None
                                },
                                last_stack_pane: None,
                                ..tab
                            };
                            lemma_tab_edits_stay_local(s.state, t, recorded);
                        },
                        _ => {},
                    },
                    _ => {},
                },
                _ => {},
            }
        },
        PhaseView::SwapLayout { tab, .. } => lemma_tab_edits_stay_local(s.state, t, tab),
        PhaseView::EventLayout { tab, .. } => lemma_tab_edits_stay_local(s.state, t, tab),
        PhaseView::Moves { tab, plan, .. } => lemma_tab_edits_stay_local(
            s.state,
            t,
            plan.finished(tab),
        ),
        _ => {},
    }
}

/// Starting an action changes the state of at most one tab.
pub proof fn lemma_start_changes_one_tab(state: StateView, command: CommandView)
    ensures
        exists|t: Seq<char>|
            #![trigger state.tabs.remove(t)]
            spec_start(state, command).0.state.tabs.remove(t) == state.tabs.remove(t),
        spec_start(state, command).0.state.version == state.version,
{
    match command {
        CommandView::Pane(_) => {
            lemma_tab_edits_stay_local(state, Seq::empty(), default_tab());
        },
        CommandView::ReflowTab { tab_id, .. } => {
            lemma_tab_edits_stay_local(state, tab_id, default_tab());
        },
        CommandView::Event { event, name } => match spec_decide_event(state, event, name) {
            EventDecisionView::Forget(t) => lemma_tab_edits_stay_local(state, t, default_tab()),
            EventDecisionView::Check { tab_id, .. } => lemma_tab_edits_stay_local(
                state,
                tab_id,
                default_tab(),
            ),
            EventDecisionView::Ignore => lemma_tab_edits_stay_local(
                state,
                Seq::empty(),
                default_tab(),
            ),
        },
    }
}

/// Disabling forgets the focused pane's tab and sends nothing more: its panes
/// stay as they are.
pub proof fn lemma_disable_forgets_tab(state: StateView, reply: JsonView)
    requires
        spec_pane_context(reply) is Ok,
    ensures
        ({
            let c = spec_pane_context(reply)->Ok_0;
            let (s2, step) = spec_after_context(state, PaneCommandView::Disable, reply);
            &&& s2.state.tabs == state.tabs.remove(c.tab_id)
            &&& !s2.state.tabs.contains_key(c.tab_id)
            &&& step == StepView::Done
        }),
{
}

/// A tab closing forgets its state.
pub proof fn lemma_closed_tab_forgotten(state: StateView, event: JsonView, name: Seq<char>)
    ensures
        spec_decide_event(state, event, name) matches EventDecisionView::Forget(t) ==> ({
            let (s2, step) = spec_start(state, CommandView::Event { event, name });
            &&& !s2.state.tabs.contains_key(t)
            &&& step == StepView::Done
        }),
{
}

/// An event leaves a tab whose panes are those last reconciled as it is,
/// after only reading its layout.
pub proof fn lemma_unchanged_layout_not_reflowed(
    state: StateView,
    workspace_id: Seq<char>,
    tab_id: Seq<char>,
    tab: TabStateView,
    reply: JsonView,
)
    requires
        spec_reply_pane_ids(reply) == Ok::<Seq<Seq<char>>, ErrorView>(tab.pane_ids),
    ensures
        spec_after_event_layout(state, workspace_id, tab_id, tab, reply) == done(
            put_tab(state, tab_id, tab),
        ),
{
}

/// A tab with at most one pane is recorded without moving anything: its
/// master count becomes 1.
pub proof fn lemma_small_layout_not_moved(
    state: StateView,
    workspace_id: Seq<char>,
    tab_id: Seq<char>,
    tab: TabStateView,
    reply: JsonView,
)
    requires
        spec_reply_pane_ids(reply) matches Ok(ordered) && ordered.len() <= 1,
    ensures
        ({
            let (s2, step) = spec_after_layout(state, workspace_id, tab_id, tab, reply);
            &&& step == StepView::Done
            &&& s2.state.tabs[tab_id].nmaster == 1
            &&& s2.state.tabs[tab_id].pane_ids == spec_reply_pane_ids(reply)->Ok_0
        }),
{
}

/// Until an action is done the plugin's state stays as it was: a step that
/// sends a request, fails or aborts hands back the state it was given, the
/// tab being worked on included.
pub proof fn lemma_state_kept_until_done(s: SessionView, reply: Result<JsonView, Seq<char>>)
    ensures
        spec_resume(s, reply).1 !is Done ==> spec_resume(s, reply).0.state == s.state,
{
}

/// Starting an action changes the state only when the action is done at once.
pub proof fn lemma_start_keeps_state(state: StateView, command: CommandView)
    ensures
        spec_start(state, command).1 !is Done ==> spec_start(state, command).0.state == state,
{
}

/// The session reached by handing `replies` back, one per request sent,
/// from session `s` whose last step was `step`.
pub open spec fn feed(s: SessionView, step: StepView, replies: Seq<Result<JsonView, Seq<char>>>) -> (
    SessionView,
    StepView,
)
    decreases replies.len(),
{
    if step is Send && replies.len() > 0 && !(s.phase is Finished) {
        let (s2, step2) = spec_resume(s, replies[0]);
        feed(s2, step2, replies.drop_first())
    } else {
        (s, step)
    }
}

/// The outcome of `command` on `state` when Herdr gives `replies`.
pub open spec fn perform(
    state: StateView,
    command: CommandView,
    replies: Seq<Result<JsonView, Seq<char>>>,
) -> (SessionView, StepView) {
    let (s, step) = spec_start(state, command);
    feed(s, step, replies)
}

/// The tab whose id the first of `replies` gives as the focused pane's.
pub open spec fn focused_tab(replies: Seq<Result<JsonView, Seq<char>>>) -> Option<Seq<char>> {
    if replies.len() > 0 {
        match replies[0] {
            Ok(r) => match spec_pane_context(r) {
                Ok(c) => Some(c.tab_id),
                Err(_) => None,
            },
            Err(_) => None,
        }
    } else {
        None
    }
}

/// The session works on tab `t`, whose orientation and master share will be
/// `o` and `m`.
pub open spec fn works_on(s: SessionView, t: Seq<char>, o: Orientation, m: u64) -> bool {
    match s.phase {
        PhaseView::Split { tab_id, tab, .. } => tab_id == t && tab.orientation == o && tab.mfact
            == m,
        PhaseView::SplitLayout { tab_id, tab, .. } => tab_id == t && tab.orientation == o
            && tab.mfact == m,
        PhaseView::SwapLayout { tab_id, tab, .. } => tab_id == t && tab.orientation == o
            && tab.mfact == m,
        PhaseView::CountLayout { tab_id, .. } => tab_id == t && working_tab(s.state, t).orientation
            == o && working_tab(s.state, t).mfact == m,
        PhaseView::EventLayout { tab_id, tab, .. } => tab_id == t && tab.orientation == o
            && tab.mfact == m,
        PhaseView::Swapped { tab_id, tab, .. } => tab_id == t && tab.orientation == o && tab.mfact
            == m,
        PhaseView::Layout { tab_id, tab, .. } => tab_id == t && tab.orientation == o && tab.mfact
            == m,
        PhaseView::Staging { tab_id, tab, .. } => tab_id == t && tab.orientation == o && tab.mfact
            == m,
        PhaseView::Moves { tab, plan, .. } => plan.tab_id == t && tab.orientation == o && tab.mfact
            == m,
        _ => false,
    }
}

/// The rest of an action that works on tab `t` records, if it is done, the
/// orientation and master share it works with.
pub proof fn lemma_work_recorded(
    s: SessionView,
    step: StepView,
    replies: Seq<Result<JsonView, Seq<char>>>,
    t: Seq<char>,
    o: Orientation,
    m: u64,
)
    requires
        works_on(s, t, o, m),
        step is Send,
    ensures
        feed(s, step, replies).1 is Done ==> feed(s, step, replies).0.state.tabs.contains_key(t)
            && feed(s, step, replies).0.state.tabs[t].orientation == o && feed(
            s,
            step,
            replies,
        ).0.state.tabs[t].mfact == m,
    decreases replies.len(),
{
    if replies.len() > 0 {
        let (s2, step2) = spec_resume(s, replies[0]);
        if step2 is Send {
            assert(works_on(s2, t, o, m));
            lemma_work_recorded(s2, step2, replies.drop_first(), t, o, m);
        } else {
            assert(feed(s2, step2, replies.drop_first()) == (s2, step2));
        }
    }
}

/// A completed next-layout action on tab `t` toggles its orientation and
/// keeps its master share.
pub proof fn lemma_next_layout_toggles(
    state: StateView,
    replies: Seq<Result<JsonView, Seq<char>>>,
    t: Seq<char>,
)
    requires
        focused_tab(replies) == Some(t),
        perform(state, CommandView::Pane(PaneCommandView::NextLayout), replies).1 is Done,
    ensures
        ({
            let after = perform(state, CommandView::Pane(PaneCommandView::NextLayout), replies).0.state;
            &&& after.tabs.contains_key(t)
            &&& after.tabs[t].orientation == working_tab(state, t).orientation.spec_toggled()
            &&& after.tabs[t].mfact == working_tab(state, t).mfact
        }),
{
    let (s0, step0) = spec_start(state, CommandView::Pane(PaneCommandView::NextLayout));
    let (s1, step1) = spec_resume(s0, replies[0]);
    let tab = working_tab(state, t);
    lemma_work_recorded(s1, step1, replies.drop_first(), t, tab.orientation.spec_toggled(), tab.mfact);
}

/// Two completed next-layout actions on the same tab restore its orientation.
pub proof fn lemma_next_layout_twice(
    state: StateView,
    first: Seq<Result<JsonView, Seq<char>>>,
    second: Seq<Result<JsonView, Seq<char>>>,
    t: Seq<char>,
)
    requires
        focused_tab(first) == Some(t),
        focused_tab(second) == Some(t),
        perform(state, CommandView::Pane(PaneCommandView::NextLayout), first).1 is Done,
        perform(
            perform(state, CommandView::Pane(PaneCommandView::NextLayout), first).0.state,
            CommandView::Pane(PaneCommandView::NextLayout),
            second,
        ).1 is Done,
    ensures
        perform(
            perform(state, CommandView::Pane(PaneCommandView::NextLayout), first).0.state,
            CommandView::Pane(PaneCommandView::NextLayout),
            second,
        ).0.state.tabs[t].orientation == working_tab(state, t).orientation,
{
    let middle = perform(state, CommandView::Pane(PaneCommandView::NextLayout), first).0.state;
    lemma_next_layout_toggles(state, first, t);
    lemma_next_layout_toggles(middle, second, t);
    crate::tab::lemma_toggle_twice(working_tab(state, t).orientation);
}

/// A completed change of the master share by `delta` on tab `t` sets it as
/// `spec_adjust_mfact` says and keeps the orientation.
pub proof fn lemma_change_mfact_applies(
    state: StateView,
    delta: i64,
    replies: Seq<Result<JsonView, Seq<char>>>,
    t: Seq<char>,
)
    requires
        focused_tab(replies) == Some(t),
        perform(state, CommandView::Pane(PaneCommandView::ChangeMfact { delta }), replies).1 is Done,
    ensures
        ({
            let after = perform(
                state,
                CommandView::Pane(PaneCommandView::ChangeMfact { delta }),
                replies,
            ).0.state;
            &&& after.tabs.contains_key(t)
            &&& after.tabs[t].mfact == crate::tab::spec_adjust_mfact(working_tab(state, t).mfact, delta)
            &&& after.tabs[t].orientation == working_tab(state, t).orientation
        }),
{
    let (s0, step0) = spec_start(state, CommandView::Pane(PaneCommandView::ChangeMfact { delta }));
    let (s1, step1) = spec_resume(s0, replies[0]);
    let tab = working_tab(state, t);
    lemma_work_recorded(
        s1,
        step1,
        replies.drop_first(),
        t,
        tab.orientation,
        crate::tab::spec_adjust_mfact(tab.mfact, delta),
    );
}

/// Growing the master area of tab `t` by five hundredths and shrinking it by
/// five hundredths again restores its share, for a share of whole hundredths
/// between 0.10 and 0.85.
pub proof fn lemma_mfact_change_undone(
    state: StateView,
    first: Seq<Result<JsonView, Seq<char>>>,
    second: Seq<Result<JsonView, Seq<char>>>,
    t: Seq<char>,
    k: int,
)
    requires
        10 <= k <= 85,
        working_tab(state, t).mfact == k * 10_000,
        focused_tab(first) == Some(t),
        focused_tab(second) == Some(t),
        perform(state, CommandView::Pane(PaneCommandView::ChangeMfact { delta: 50_000i64 }), first).1 is Done,
        perform(
            perform(state, CommandView::Pane(PaneCommandView::ChangeMfact { delta: 50_000i64 }), first).0.state,
            CommandView::Pane(PaneCommandView::ChangeMfact { delta: -50_000i64 }),
            second,
        ).1 is Done,
    ensures
        perform(state, CommandView::Pane(PaneCommandView::ChangeMfact { delta: 50_000i64 }), first).0.state.tabs[t].mfact
            == (k + 5) * 10_000,
        perform(
            perform(state, CommandView::Pane(PaneCommandView::ChangeMfact { delta: 50_000i64 }), first).0.state,
            CommandView::Pane(PaneCommandView::ChangeMfact { delta: -50_000i64 }),
            second,
        ).0.state.tabs[t].mfact == k * 10_000,
{
    let middle = perform(
        state,
        CommandView::Pane(PaneCommandView::ChangeMfact { delta: 50_000i64 }),
        first,
    ).0.state;
    lemma_change_mfact_applies(state, 50_000i64, first, t);
    lemma_change_mfact_applies(middle, -50_000i64, second, t);
    crate::tab::lemma_mfact_step_undone(k);
}

/// Every managed tab's master share lies within `MIN_MFACT ..= MAX_MFACT`.
pub open spec fn shares_bounded(state: StateView) -> bool {
    forall|k: Seq<char>|
        #[trigger] state.tabs.contains_key(k) ==> MIN_MFACT <= state.tabs[k].mfact <= MAX_MFACT
}

/// A share within `MIN_MFACT ..= MAX_MFACT`.
pub open spec fn share_ok(tab: TabStateView) -> bool {
    MIN_MFACT <= tab.mfact <= MAX_MFACT
}

/// The state's shares, and the share of the tab the session works on, lie
/// within bounds.
pub open spec fn session_bounded(s: SessionView) -> bool {
    &&& shares_bounded(s.state)
    &&& match s.phase {
        PhaseView::Split { tab, .. } => share_ok(tab),
        PhaseView::SplitLayout { tab, .. } => share_ok(tab),
        PhaseView::SwapLayout { tab, .. } => share_ok(tab),
        PhaseView::EventLayout { tab, .. } => share_ok(tab),
        PhaseView::Swapped { tab, .. } => share_ok(tab),
        PhaseView::Layout { tab, .. } => share_ok(tab),
        PhaseView::Staging { tab, .. } => share_ok(tab),
        PhaseView::Moves { tab, .. } => share_ok(tab),
        _ => true,
    }
}

/// A tab of a state whose shares are bounded, or a new one, has a bounded
/// share; putting back a tab with a bounded share, or forgetting a tab,
/// keeps the state's shares bounded.
pub proof fn lemma_bounded_tab_edits(state: StateView, t: Seq<char>, tab: TabStateView)
    requires
        shares_bounded(state),
    ensures
        share_ok(working_tab(state, t)),
        share_ok(tab) ==> shares_bounded(put_tab(state, t, tab)),
        shares_bounded(forget_tab(state, t)),
{
    if !state.tabs.contains_key(t) {
        assert(share_ok(default_tab()));
    }
}

/// Each step keeps every share within bounds.
pub proof fn lemma_step_keeps_shares(s: SessionView, reply: Result<JsonView, Seq<char>>)
    requires
        session_bounded(s),
    ensures
        session_bounded(spec_resume(s, reply).0),
{
    match s.phase {
        PhaseView::Context(c) => {
            match reply {
                Ok(r) => match spec_pane_context(r) {
                    Ok(ctx) => {
                        let tab = working_tab(s.state, ctx.tab_id);
                        lemma_bounded_tab_edits(s.state, ctx.tab_id, tab);
                        crate::tab::lemma_adjusted_share_bounded(tab.mfact);
                    },
                    Err(_) => {},
                },
                Err(_) => {},
            }
        },
        PhaseView::CountLayout { tab_id, .. } => {
            lemma_bounded_tab_edits(s.state, tab_id, working_tab(s.state, tab_id));
        },
        PhaseView::SwapLayout { tab_id, tab, .. } => {
            lemma_bounded_tab_edits(s.state, tab_id, tab);
        },
        PhaseView::EventLayout { tab_id, tab, .. } => {
            lemma_bounded_tab_edits(s.state, tab_id, tab);
        },
        PhaseView::Layout { tab_id, tab, .. } => {
            match reply {
                Ok(r) => match spec_typed_field(r, ReplyKind::LayoutExport, Field::Layout) {
                    Ok(layout) => match spec_layout_pane_ids(layout) {
                        Ok(ordered) => {
                            let recorded = TabStateView {
                                pane_ids: ordered,
                                nmaster: 1,
                                last_master_pane: if ordered.len() == 1 {
                                    Some(ordered[0])
                                } else {
                                    None
                                },
                                last_stack_pane: None,
                                ..tab
                            };
                            lemma_bounded_tab_edits(s.state, tab_id, recorded);
                        },
                        _ => {},
                    },
                    _ => {},
                },
                _ => {},
            }
        },
        PhaseView::Moves { tab, plan, .. } => {
            lemma_bounded_tab_edits(s.state, plan.tab_id, plan.finished(tab));
        },
        _ => {},
    }
}

/// Starting an action on a state whose shares are bounded keeps every share
/// within bounds; the share `reflow-tab` is given is held within them.
pub proof fn lemma_start_keeps_shares(state: StateView, command: CommandView)
    requires
        shares_bounded(state),
    ensures
        session_bounded(spec_start(state, command).0),
{
    match command {
        CommandView::ReflowTab { tab_id, .. } => {
            lemma_bounded_tab_edits(state, tab_id, working_tab(state, tab_id));
        },
        CommandView::Event { event, name } => match spec_decide_event(state, event, name) {
            EventDecisionView::Forget(t) => lemma_bounded_tab_edits(state, t, default_tab()),
            EventDecisionView::Check { tab_id, .. } => lemma_bounded_tab_edits(
                state,
                tab_id,
                default_tab(),
            ),
            EventDecisionView::Ignore => {},
        },
        _ => {},
    }
}

/// Feeding replies keeps every share within bounds.
pub proof fn lemma_feed_keeps_shares(
    s: SessionView,
    step: StepView,
    replies: Seq<Result<JsonView, Seq<char>>>,
)
    requires
        session_bounded(s),
    ensures
        shares_bounded(feed(s, step, replies).0.state),
    decreases replies.len(),
{
    if step is Send && replies.len() > 0 && !(s.phase is Finished) {
        lemma_step_keeps_shares(s, replies[0]);
        let (s2, step2) = spec_resume(s, replies[0]);
        lemma_feed_keeps_shares(s2, step2, replies.drop_first());
    }
}

/// Every action keeps each tab's master share within
/// `MIN_MFACT ..= MAX_MFACT` when all of them were within it before,
/// whatever Herdr replies.
pub proof fn lemma_actions_keep_shares_bounded(
    state: StateView,
    command: CommandView,
    replies: Seq<Result<JsonView, Seq<char>>>,
)
    requires
        shares_bounded(state),
    ensures
        shares_bounded(perform(state, command, replies).0.state),
{
    lemma_start_keeps_shares(state, command);
    let (s, step) = spec_start(state, command);
    lemma_feed_keeps_shares(s, step, replies);
}

/// An event on a tab whose current panes differ from those last reconciled
/// leads to a reflow of that tab with its settings: the layout is exported
/// again and reflowed, nothing is recorded yet.
pub proof fn lemma_changed_layout_reflowed(
    state: StateView,
    workspace_id: Seq<char>,
    tab_id: Seq<char>,
    tab: TabStateView,
    reply: JsonView,
)
    requires
        spec_reply_pane_ids(reply) is Ok,
        spec_reply_pane_ids(reply)->Ok_0 != tab.pane_ids,
    ensures
        spec_after_event_layout(state, workspace_id, tab_id, tab, reply) == (
        SessionView { state, phase: PhaseView::Layout { workspace_id, tab_id, tab } },
        StepView::Send(RequestView::ExportLayout { tab_id }),
        ),
{
}

/// Changing the master count by `delta` on a layout of `n` panes gives the
/// tab, for its reflow, the old count plus `delta` (as a 64-bit signed sum,
/// which wraps) held within `1 ..= n`, and keeps its other settings; when the
/// sum does not wrap it is the plain sum.  With no pane at all the action
/// aborts.
pub proof fn lemma_count_change_clamped_to_panes(
    state: StateView,
    workspace_id: Seq<char>,
    tab_id: Seq<char>,
    delta: i64,
    reply: JsonView,
)
    requires
        spec_reply_pane_ids(reply) is Ok,
        spec_reply_pane_ids(reply)->Ok_0.len() <= i64::MAX,
        spec_reply_pane_ids(reply)->Ok_0.len() <= usize::MAX,
    ensures
        ({
            let n = spec_reply_pane_ids(reply)->Ok_0.len() as int;
            let old = working_tab(state, tab_id);
            let sum = vstd::wrapping::i64_specs::wrapping_add(old.nmaster as i64, delta) as int;
            let plain = old.nmaster + delta;
            let (s2, step) = spec_after_count_layout(state, workspace_id, tab_id, delta, reply);
            &&& n == 0 ==> step == StepView::Aborted(Abort::EmptyRange)
            &&& n >= 1 ==> s2.phase == (PhaseView::Layout {
                workspace_id,
                tab_id,
                tab: TabStateView { nmaster: spec_clamp(sum, 1, n) as usize, ..old },
            })
            &&& n >= 1 ==> 1 <= spec_clamp(sum, 1, n) <= n
            &&& n >= 1 && old.nmaster <= i64::MAX && i64::MIN <= plain <= i64::MAX ==> s2.phase == (
            PhaseView::Layout {
                workspace_id,
                tab_id,
                tab: TabStateView { nmaster: spec_clamp(plain, 1, n) as usize, ..old },
            })
            &&& n >= 1 ==> step == StepView::Send(RequestView::ExportLayout { tab_id })
            &&& s2.state == state
        }),
{
    let n = spec_reply_pane_ids(reply)->Ok_0.len();
    let old = working_tab(state, tab_id);
    assert((n as usize) as i64 == n);
    if old.nmaster <= i64::MAX && i64::MIN <= old.nmaster + delta <= i64::MAX {
        let base = old.nmaster as i64;
        assert(base == old.nmaster);
        assert(vstd::wrapping::i64_specs::wrapping_add(base, delta) == old.nmaster + delta);
    }
}

/// Enabling keeps a tab's settings: the reflow it starts works with the
/// tab's stored orientation, master count, master share and layout (the
/// defaults for a tab not managed yet), only marked enabled.
pub proof fn lemma_enable_keeps_settings(state: StateView, reply: JsonView)
    requires
        spec_pane_context(reply) is Ok,
    ensures
        ({
            let c = spec_pane_context(reply)->Ok_0;
            let (s2, step) = spec_after_context(state, PaneCommandView::Enable, reply);
            let stored = if state.tabs.contains_key(c.tab_id) {
                state.tabs[c.tab_id]
            } else {
                default_tab()
            };
            &&& s2.phase == (PhaseView::Layout {
                workspace_id: c.workspace_id,
                tab_id: c.tab_id,
                tab: TabStateView { enabled: true, ..stored },
            })
            &&& step == StepView::Send(RequestView::ExportLayout { tab_id: c.tab_id })
            &&& s2.state == state
        }),
{
}

/// A completed enable on tab `t` records the tab's orientation and master
/// share as they were.
pub proof fn lemma_enable_completes_with_settings(
    state: StateView,
    replies: Seq<Result<JsonView, Seq<char>>>,
    t: Seq<char>,
)
    requires
        focused_tab(replies) == Some(t),
        perform(state, CommandView::Pane(PaneCommandView::Enable), replies).1 is Done,
    ensures
        ({
            let after = perform(state, CommandView::Pane(PaneCommandView::Enable), replies).0.state;
            &&& after.tabs.contains_key(t)
            &&& after.tabs[t].orientation == working_tab(state, t).orientation
            &&& after.tabs[t].mfact == working_tab(state, t).mfact
        }),
{
    let (s0, step0) = spec_start(state, CommandView::Pane(PaneCommandView::Enable));
    let (s1, step1) = spec_resume(s0, replies[0]);
    let tab = working_tab(state, t);
    lemma_work_recorded(s1, step1, replies.drop_first(), t, tab.orientation, tab.mfact);
}

/// Swapping the focused pane crosses the master/stack boundary.  With the
/// master count covering every pane, a focused pane that is not the last is
/// swapped with the last pane.  Otherwise, of a layout whose panes are
/// distinct, a focused master is swapped with a stack pane and a focused
/// stack pane with a master; a pane is never swapped with itself.
pub proof fn lemma_swap_master_crosses_groups(
    state: StateView,
    workspace_id: Seq<char>,
    tab_id: Seq<char>,
    tab: TabStateView,
    focused: Seq<char>,
    reply: JsonView,
)
    requires
        spec_reply_pane_ids(reply) is Ok,
        spec_reply_pane_ids(reply)->Ok_0.len() >= 2,
        spec_reply_pane_ids(reply)->Ok_0.contains(focused),
    ensures
        ({
            let ordered = spec_reply_pane_ids(reply)->Ok_0;
            let n = ordered.len() as int;
            let nmaster = spec_clamp(tab.nmaster as int, 1, n);
            let masters = ordered.subrange(0, nmaster);
            let stack = ordered.subrange(nmaster, n);
            let (s2, step) = spec_after_swap_layout(state, workspace_id, tab_id, tab, focused, reply);
            &&& nmaster == n && focused != ordered[n - 1] ==> step == StepView::Send(
                RequestView::SwapPanes { source_pane_id: focused, target_pane_id: ordered[n - 1] },
            ) && s2 == (SessionView {
                state,
                phase: PhaseView::Swapped { workspace_id, tab_id, tab },
            })
            &&& nmaster < n && masters.contains(focused) && ordered.no_duplicates() ==> exists|
                target: Seq<char>,
            |
                #![trigger stack.contains(target)]
                stack.contains(target) && step == StepView::Send(
                    RequestView::SwapPanes { source_pane_id: focused, target_pane_id: target },
                )
            &&& !masters.contains(focused) ==> exists|target: Seq<char>|
                #![trigger masters.contains(target)]
                masters.contains(target) && step == StepView::Send(
                    RequestView::SwapPanes { source_pane_id: focused, target_pane_id: target },
                )
        }),
{
    let ordered = spec_reply_pane_ids(reply)->Ok_0;
    let n = ordered.len() as int;
    let nmaster = spec_clamp(tab.nmaster as int, 1, n);
    let masters = ordered.subrange(0, nmaster);
    let stack = ordered.subrange(nmaster, n);
    let t = spec_swap_target(ordered, nmaster, focused, tab.last_master_pane, tab.last_stack_pane);
    crate::decide::lemma_swap_target_choice(
        ordered,
        nmaster,
        focused,
        tab.last_master_pane,
        tab.last_stack_pane,
    );
    assert(masters[0] == ordered[0]);
    assert(masters.contains(ordered[0]));
    if nmaster < n {
        assert(stack[0] == ordered[nmaster]);
        assert(stack.contains(ordered[nmaster]));
        if masters.contains(focused) && ordered.no_duplicates() {
            assert(stack.contains(t));
            if t == focused {
                let i = choose|i: int| 0 <= i < masters.len() && masters[i] == focused;
                let j = choose|j: int| 0 <= j < stack.len() && stack[j] == focused;
                assert(ordered[i] == ordered[nmaster + j]);
            }
        }
    }
    if !masters.contains(focused) {
        assert(masters.contains(t));
    }
    let (s2, step) = spec_after_swap_layout(state, workspace_id, tab_id, tab, focused, reply);
    if t != focused {
        assert(step == StepView::Send(
            RequestView::SwapPanes { source_pane_id: focused, target_pane_id: t },
        ));
    }
    if nmaster == n && focused != ordered[n - 1] {
        assert(masters =~= ordered);
        assert(t == ordered[n - 1]);
        assert(s2 == (SessionView {
                state,
                phase: PhaseView::Swapped { workspace_id, tab_id, tab },
            }));
    }
}

/// A reflow of two or more panes first moves the second pane to a new tab of
/// the workspace, and goes on with the tab's master count held within
/// `1 ..= panes`.
pub proof fn lemma_reflow_starts_staging(
    state: StateView,
    workspace_id: Seq<char>,
    tab_id: Seq<char>,
    tab: TabStateView,
    reply: JsonView,
)
    requires
        spec_reply_pane_ids(reply) is Ok,
        spec_reply_pane_ids(reply)->Ok_0.len() >= 2,
        spec_typed_field(reply, ReplyKind::LayoutExport, Field::Layout) is Ok,
        spec_field(
            spec_typed_field(reply, ReplyKind::LayoutExport, Field::Layout)->Ok_0,
            Field::FocusedPaneId,
        ) is Ok,
        spec_field(
            spec_typed_field(reply, ReplyKind::LayoutExport, Field::Layout)->Ok_0,
            Field::FocusedPaneId,
        )->Ok_0.text() is Some,
    ensures
        ({
            let ordered = spec_reply_pane_ids(reply)->Ok_0;
            let focused = spec_field(
                spec_typed_field(reply, ReplyKind::LayoutExport, Field::Layout)->Ok_0,
                Field::FocusedPaneId,
            )->Ok_0.text()->0;
            let n = ordered.len() as int;
            let nmaster = if tab.nmaster == 0 {
                1
            } else if tab.nmaster > n {
                n
            } else {
                tab.nmaster as int
            };
            spec_after_layout(state, workspace_id, tab_id, tab, reply) == send(
                state,
                PhaseView::Staging { tab_id, tab, ordered, focused, nmaster: nmaster as usize },
                RequestView::MoveToNewTab { pane_id: ordered[1], workspace_id },
            )
        }),
{
}

} // verus!
