//! The choices made from a reply before the next request: which pane and
//! tab the user acts on, which panes to swap, and which events to act on.
use crate::json::{copy_json, same_text, Json, JsonView};
use crate::reply::{spec_typed_field, texts, typed_field, Error, ErrorView, Field, ReplyKind};
use crate::state::{owns, State, StateView};
use vstd::prelude::*;

verus! {

/// The focused pane and where it lives.
#[derive(Debug)]
pub struct PaneContext {
    pub workspace_id: String,
    pub tab_id: String,
    pub pane_id: String,
    /// The pane as Herdr described it.
    pub pane: Json,
}

pub struct PaneContextView {
    pub workspace_id: Seq<char>,
    pub tab_id: Seq<char>,
    pub pane_id: Seq<char>,
    pub pane: JsonView,
}

impl View for PaneContext {
    type V = PaneContextView;

    open spec fn view(&self) -> PaneContextView {
        PaneContextView {
            workspace_id: self.workspace_id@,
            tab_id: self.tab_id@,
            pane_id: self.pane_id@,
            pane: self.pane@,
        }
    }
}

/// The focused pane described by a `pane.current` reply.
pub open spec fn spec_pane_context(reply: JsonView) -> Result<PaneContextView, ErrorView> {
    match spec_typed_field(reply, ReplyKind::PaneCurrent, Field::Pane) {
        Err(e) => Err(e),
        Ok(pane) => match pane.text_member(Field::WorkspaceId.spec_key()) {
            None => Err(ErrorView::CurrentPaneLacks(Field::WorkspaceId)),
            Some(workspace_id) => match pane.text_member(Field::TabId.spec_key()) {
                None => Err(ErrorView::CurrentPaneLacks(Field::TabId)),
                Some(tab_id) => match pane.text_member(Field::PaneId.spec_key()) {
                    None => Err(ErrorView::CurrentPaneLacks(Field::PaneId)),
                    Some(pane_id) => Ok(PaneContextView { workspace_id, tab_id, pane_id, pane }),
                },
            },
        },
    }
}

/// The text of the string member `name` of `value`.
fn text_member(value: &Json, name: &str) -> (r: Option<String>)
    ensures
        match value@.text_member(name@) {
            Some(t) => r is Some && r->0@ == t,
            None => r is None,
        },
{
    match value.get(name) {
        Some(v) => match v.as_str() {
            Some(s) => Some(s.clone()),
            None => None,
        },
        None => None,
    }
}

/// The focused pane described by a `pane.current` reply.
pub fn pane_context(reply: Json) -> (r: Result<PaneContext, Error>)
    ensures
        match spec_pane_context(reply@) {
            Ok(c) => r is Ok && r->Ok_0@ == c,
            Err(e) => r is Err && r->Err_0@ == e,
        },
{
    let pane = match typed_field(reply, ReplyKind::PaneCurrent, Field::Pane) {
        Ok(p) => p,
        Err(e) => {
            return Err(e);
        },
    };
    let workspace_id = match text_member(&pane, Field::WorkspaceId.key()) {
        Some(w) => w,
        None => {
            return Err(Error::CurrentPaneLacks(Field::WorkspaceId));
        },
    };
    let tab_id = match text_member(&pane, Field::TabId.key()) {
        Some(t) => t,
        None => {
            return Err(Error::CurrentPaneLacks(Field::TabId));
        },
    };
    let pane_id = match text_member(&pane, Field::PaneId.key()) {
        Some(p) => p,
        None => {
            return Err(Error::CurrentPaneLacks(Field::PaneId));
        },
    };
    Ok(PaneContext { workspace_id, tab_id, pane_id, pane })
}

/// The working directory for a pane split off `pane`: its foreground
/// process's directory, else its own, else null.
pub open spec fn spec_split_cwd(pane: JsonView) -> JsonView {
    match pane.member("foreground_cwd"@) {
        Some(v) => v,
        None => match pane.member("cwd"@) {
            Some(v) => v,
            None => JsonView::Null,
        },
    }
}

/// The working directory for a pane split off `pane`.
pub fn split_cwd(pane: &Json) -> (r: Json)
    ensures
        r@ == spec_split_cwd(pane@),
{
    match pane.get("foreground_cwd") {
        Some(v) => copy_json(v),
        None => match pane.get("cwd") {
            Some(v) => copy_json(v),
            None => Json::Null,
        },
    }
}

/// The id of the tab that a move to a new tab created
/// (`/created_tab/tab_id` of the move result).
pub open spec fn spec_created_tab(moved: JsonView) -> Option<Seq<char>> {
    match moved.member("created_tab"@) {
        Some(created) => created.text_member("tab_id"@),
        None => None,
    }
}

/// The id of the tab that a move to a new tab created.
pub fn created_tab(moved: &Json) -> (r: Option<String>)
    ensures
        match spec_created_tab(moved@) {
            Some(t) => r is Some && r->0@ == t,
            None => r is None,
        },
{
    match moved.get("created_tab") {
        Some(created) => text_member(created, "tab_id"),
        None => None,
    }
}

/// Whether `ids[low..high]` holds `text`.
pub fn holds_between(ids: &Vec<String>, low: usize, high: usize, text: &str) -> (r: bool)
    requires
        low <= high <= ids@.len(),
    ensures
        r == texts(ids@).subrange(low as int, high as int).contains(text@),
{
    let ghost part = texts(ids@).subrange(low as int, high as int);
    let mut i = low;
    while i < high
        invariant
            low <= i <= high <= ids@.len(),
            part == texts(ids@).subrange(low as int, high as int),
            forall|j: int| low <= j < i ==> ids@[j]@ != text@,
        decreases high - i,
    {
        if same_text(ids[i].as_str(), text) {
            proof {
                assert(part[i - low] == text@);
            }
            return true;
        }
        i = i + 1;
    }
    proof {
        if part.contains(text@) {
            let j = choose|j: int| 0 <= j < part.len() && part[j] == text@;
            assert(ids@[j + low]@ == text@);
        }
    }
    false
}

/// The pane to swap a new split with so that it becomes a master: `None`
/// when it already is one; else the last master if it is still a master,
/// else the first pane.
pub open spec fn spec_split_swap_target(
    ordered: Seq<Seq<char>>,
    nmaster: int,
    new_pane: Seq<char>,
    last_master: Option<Seq<char>>,
) -> Option<Seq<char>> {
    let masters = ordered.subrange(0, nmaster);
    if masters.contains(new_pane) {
        None
    } else {
        Some(
            match last_master {
                Some(m) => if masters.contains(m) {
                    m
                } else {
                    ordered[0]
                },
                None => ordered[0],
            },
        )
    }
}

/// A new split that is not a master is swapped with a master.
pub proof fn lemma_split_swaps_with_master(
    ordered: Seq<Seq<char>>,
    nmaster: int,
    new_pane: Seq<char>,
    last_master: Option<Seq<char>>,
)
    requires
        1 <= nmaster <= ordered.len(),
    ensures
        spec_split_swap_target(ordered, nmaster, new_pane, last_master) matches Some(t)
            ==> ordered.subrange(0, nmaster).contains(t) && t != new_pane,
{
    let masters = ordered.subrange(0, nmaster);
    if !masters.contains(new_pane) {
        assert(masters[0] == ordered[0]);
    }
}

/// The pane to swap a new split with so that it becomes a master.
pub fn split_swap_target(
    ordered: &Vec<String>,
    nmaster: usize,
    new_pane: &String,
    last_master: &Option<String>,
) -> (r: Option<String>)
    requires
        1 <= nmaster <= ordered@.len(),
    ensures
        match spec_split_swap_target(
            texts(ordered@),
            nmaster as int,
            new_pane@,
            crate::reply::opt_text(*last_master),
        ) {
            Some(t) => r is Some && r->0@ == t,
            None => r is None,
        },
{
    if holds_between(ordered, 0, nmaster, new_pane.as_str()) {
        return None;
    }
    match last_master {
        Some(m) => if holds_between(ordered, 0, nmaster, m.as_str()) {
            Some(m.clone())
        } else {
            Some(ordered[0].clone())
        },
        None => Some(ordered[0].clone()),
    }
}

/// The pane the focused pane is swapped with: from the master area, the
/// last stack pane if it is still in the stack, else the first stack pane,
/// else (with no stack) the last pane; from elsewhere, the last master if
/// it is still a master, else the first pane.
pub open spec fn spec_swap_target(
    ordered: Seq<Seq<char>>,
    nmaster: int,
    focused: Seq<char>,
    last_master: Option<Seq<char>>,
    last_stack: Option<Seq<char>>,
) -> Seq<char> {
    let masters = ordered.subrange(0, nmaster);
    let stack = ordered.subrange(nmaster, ordered.len() as int);
    if masters.contains(focused) {
        let fallback = if nmaster < ordered.len() {
            ordered[nmaster]
        } else {
            ordered[ordered.len() - 1]
        };
        match last_stack {
            Some(s) => if stack.contains(s) {
                s
            } else {
                fallback
            },
            None => fallback,
        }
    } else {
        match last_master {
            Some(m) => if masters.contains(m) {
                m
            } else {
                ordered[0]
            },
            None => ordered[0],
        }
    }
}

/// The focused pane is swapped with the opposite group: a master with a
/// stack pane when there is a stack, any other pane with a master.
pub proof fn lemma_swap_crosses_groups(
    ordered: Seq<Seq<char>>,
    nmaster: int,
    focused: Seq<char>,
    last_master: Option<Seq<char>>,
    last_stack: Option<Seq<char>>,
)
    requires
        1 <= nmaster <= ordered.len(),
    ensures
        ({
            let t = spec_swap_target(ordered, nmaster, focused, last_master, last_stack);
            let masters = ordered.subrange(0, nmaster);
            let stack = ordered.subrange(nmaster, ordered.len() as int);
            &&& masters.contains(focused) && nmaster < ordered.len() ==> stack.contains(t)
            &&& !masters.contains(focused) ==> masters.contains(t)
        }),
{
    let masters = ordered.subrange(0, nmaster);
    let stack = ordered.subrange(nmaster, ordered.len() as int);
    assert(masters[0] == ordered[0]);
    if nmaster < ordered.len() {
        assert(stack[0] == ordered[nmaster]);
    }
}

/// A remembered pane that is still in `group`.
pub open spec fn still_in(remembered: Option<Seq<char>>, group: Seq<Seq<char>>) -> bool {
    remembered is Some && group.contains(remembered->0)
}

/// Which pane the focused pane is swapped with.  From the master area it is
/// the last stack pane if that is still in the stack, else the first stack
/// pane, and, when every pane is a master, the last pane.  From anywhere else
/// it is the last master if that is still a master, else the first pane.
/// So, with every pane a master, the target is the focused pane itself only
/// when the focused pane is the last one.
pub proof fn lemma_swap_target_choice(
    ordered: Seq<Seq<char>>,
    nmaster: int,
    focused: Seq<char>,
    last_master: Option<Seq<char>>,
    last_stack: Option<Seq<char>>,
)
    requires
        1 <= nmaster <= ordered.len(),
    ensures
        ({
            let t = spec_swap_target(ordered, nmaster, focused, last_master, last_stack);
            let n = ordered.len() as int;
            let masters = ordered.subrange(0, nmaster);
            let stack = ordered.subrange(nmaster, n);
            &&& masters.contains(focused) && nmaster == n ==> t == ordered[n - 1]
            &&& masters.contains(focused) && nmaster == n && t == focused ==> ordered[n - 1]
                == focused
            &&& masters.contains(focused) && nmaster < n && still_in(last_stack, stack) ==> t
                == last_stack->0
            &&& masters.contains(focused) && nmaster < n && !still_in(last_stack, stack) ==> t
                == ordered[nmaster]
            &&& !masters.contains(focused) && still_in(last_master, masters) ==> t
                == last_master->0
            &&& !masters.contains(focused) && !still_in(last_master, masters) ==> t
                == ordered[0]
        }),
{
}

/// Which pane a new split that is not a master is swapped with: the last
/// master if it is still a master, else the first pane.
pub proof fn lemma_split_target_choice(
    ordered: Seq<Seq<char>>,
    nmaster: int,
    new_pane: Seq<char>,
    last_master: Option<Seq<char>>,
)
    requires
        1 <= nmaster <= ordered.len(),
    ensures
        ({
            let t = spec_split_swap_target(ordered, nmaster, new_pane, last_master);
            let masters = ordered.subrange(0, nmaster);
            &&& masters.contains(new_pane) <==> t is None
            &&& !masters.contains(new_pane) && still_in(last_master, masters) ==> t == Some(
                last_master->0,
            )
            &&& !masters.contains(new_pane) && !still_in(last_master, masters) ==> t == Some(
                ordered[0],
            )
        }),
{
}

/// The pane the focused pane is swapped with.
pub fn swap_target(
    ordered: &Vec<String>,
    nmaster: usize,
    focused: &String,
    last_master: &Option<String>,
    last_stack: &Option<String>,
) -> (r: String)
    requires
        1 <= nmaster <= ordered@.len(),
    ensures
        r@ == spec_swap_target(
            texts(ordered@),
            nmaster as int,
            focused@,
            crate::reply::opt_text(*last_master),
            crate::reply::opt_text(*last_stack),
        ),
{
    let n = ordered.len();
    if holds_between(ordered, 0, nmaster, focused.as_str()) {
        let fallback = if nmaster < n {
            ordered[nmaster].clone()
        } else {
            ordered[n - 1].clone()
        };
        match last_stack {
            Some(s) => if holds_between(ordered, nmaster, n, s.as_str()) {
                s.clone()
            } else {
                fallback
            },
            None => fallback,
        }
    } else {
        match last_master {
            Some(m) => if holds_between(ordered, 0, nmaster, m.as_str()) {
                m.clone()
            } else {
                ordered[0].clone()
            },
            None => ordered[0].clone(),
        }
    }
}

/// `text` with every `.` written as `_`.
pub open spec fn underscored(text: Seq<char>) -> Seq<char> {
    text.map_values(|c: char| if c == '.' { '_' } else { c })
}

/// Whether `text`, with every `.` written as `_`, is `expected`.
pub fn underscored_is(text: &str, expected: &str) -> (r: bool)
    ensures
        r == (underscored(text@) == expected@),
{
    let n = text.unicode_len();
    let m = expected.unicode_len();
    if n != m {
        return false;
    }
    let mut i: usize = 0;
    while i < n
        invariant
            n == text@.len(),
            m == expected@.len(),
            n == m,
            i <= n,
            forall|j: int| 0 <= j < i ==> #[trigger] underscored(text@)[j] == expected@[j],
        decreases n - i,
    {
        let c = text.get_char(i);
        let d = if c == '.' {
            '_'
        } else {
            c
        };
        if d != expected.get_char(i) {
            return false;
        }
        i = i + 1;
    }
    assert(underscored(text@) =~= expected@);
    true
}

/// What a Herdr event asks of the plugin.
#[derive(Debug)]
pub enum EventDecision {
    /// A tab closed: forget its state.
    Forget(String),
    /// Panes of a managed, enabled tab may have changed: compare its panes.
    Check { workspace_id: String, tab_id: String },
    /// Nothing to do.
    Ignore,
}

pub enum EventDecisionView {
    Forget(Seq<char>),
    Check { workspace_id: Seq<char>, tab_id: Seq<char> },
    Ignore,
}

impl View for EventDecision {
    type V = EventDecisionView;

    open spec fn view(&self) -> EventDecisionView {
        match *self {
            EventDecision::Forget(t) => EventDecisionView::Forget(t@),
            EventDecision::Check { workspace_id, tab_id } => EventDecisionView::Check {
                workspace_id: workspace_id@,
                tab_id: tab_id@,
            },
            EventDecision::Ignore => EventDecisionView::Ignore,
        }
    }
}

/// The tab an event's pane belongs to: the pane's own `tab_id`, else, for a
/// pane known only by id, the one managed tab that last held it.
pub open spec fn event_tab(state: StateView, data: JsonView, pane: JsonView) -> Option<Seq<char>> {
    match pane.text_member("tab_id"@) {
        Some(t) => Some(t),
        None => match data.text_member("pane_id"@) {
            Some(closed) => if exists|k: Seq<char>|
                owns(state, k, closed) && forall|k2: Seq<char>| owns(state, k2, closed) ==> k2 == k {
                Some(
                    choose|k: Seq<char>|
                        owns(state, k, closed) && forall|k2: Seq<char>|
                            owns(state, k2, closed) ==> k2 == k,
                )
            } else {
                None
            },
            None => None,
        },
    }
}

/// The decision on an event: its payload is `data` when it has one, else the
/// event itself; its type is the payload's `type`, else `name`, read with
/// `_` for `.`.
pub open spec fn spec_decide_event(state: StateView, event: JsonView, name: Seq<char>) -> EventDecisionView {
    let data = match event.member("data"@) {
        Some(d) => d,
        None => event,
    };
    let kind = match data.text_member("type"@) {
        Some(t) => t,
        None => name,
    };
    if underscored(kind) == "tab_closed"@ {
        match data.text_member("tab_id"@) {
            Some(t) => EventDecisionView::Forget(t),
            None => EventDecisionView::Ignore,
        }
    } else {
        let pane = match data.member("pane"@) {
            Some(p) => p,
            None => JsonView::Null,
        };
        let workspace = match pane.member("workspace_id"@) {
            Some(w) => w.text(),
            None => data.text_member("workspace_id"@),
        };
        match (event_tab(state, data, pane), workspace) {
            (Some(tab_id), Some(workspace_id)) => if state.tabs.contains_key(tab_id)
                && state.tabs[tab_id].enabled {
                EventDecisionView::Check { workspace_id, tab_id }
            } else {
                EventDecisionView::Ignore
            },
            _ => EventDecisionView::Ignore,
        }
    }
}

/// An event is only ever acted on for a tab that is managed and enabled.
pub proof fn lemma_events_spare_unmanaged_tabs(state: StateView, event: JsonView, name: Seq<char>)
    ensures
        spec_decide_event(state, event, name) matches EventDecisionView::Check { tab_id, .. }
            ==> state.tabs.contains_key(tab_id) && state.tabs[tab_id].enabled,
{
}

/// The decision on an event named `name` with payload `event`.
pub fn decide_event(state: &State, event: &Json, name: &str) -> (r: EventDecision)
    ensures
        r@ == spec_decide_event(state@, event@, name@),
{
    let data: &Json = match event.get("data") {
        Some(d) => d,
        None => event,
    };
    let kind: &str = match data.get("type") {
        Some(t) => match t.as_str() {
            Some(s) => s.as_str(),
            None => name,
        },
        None => name,
    };
    if underscored_is(kind, "tab_closed") {
        return match text_member(data, "tab_id") {
            Some(t) => EventDecision::Forget(t),
            None => EventDecision::Ignore,
        };
    }
    let null = Json::Null;
    let pane: &Json = match data.get("pane") {
        Some(p) => p,
        None => &null,
    };
    let workspace: Option<String> = match pane.get("workspace_id") {
        Some(w) => match w.as_str() {
            Some(s) => Some(s.clone()),
            None => None,
        },
        None => text_member(data, "workspace_id"),
    };
    let tab: Option<String> = match text_member(pane, "tab_id") {
        Some(t) => Some(t),
        None => match text_member(data, "pane_id") {
            Some(closed) => {
                let owner = state.sole_owner(closed.as_str());
                proof {
                    let m = state@;
                    if owner is Some {
                        let k = owner->0@;
                        let c = choose|k: Seq<char>|
                            owns(m, k, closed@) && forall|k2: Seq<char>|
                                owns(m, k2, closed@) ==> k2 == k;
                        assert(owns(m, k, closed@));
                        assert(c == k);
                    }
                }
                owner
            },
            None => None,
        },
    };
    match (tab, workspace) {
        (Some(tab_id), Some(workspace_id)) => match state.tab(tab_id.as_str()) {
            Some(t) => if t.enabled {
                EventDecision::Check { workspace_id, tab_id }
            } else {
                EventDecision::Ignore
            },
            None => EventDecision::Ignore,
        },
        _ => EventDecision::Ignore,
    }
}

} // verus!
