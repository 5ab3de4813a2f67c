use herdr_dwm_layout::json::Json;
use herdr_dwm_layout::reply::{pane_ids, Error, Field, ReplyKind};
use herdr_dwm_layout::request::{Ratio, Request};
use herdr_dwm_layout::session::{Command, PaneCommand, Session, Step};
use herdr_dwm_layout::state::State;
use herdr_dwm_layout::tab::{Direction, Orientation, TabState};

fn text(t: &str) -> Json {
    Json::Str(t.to_string())
}

fn obj(members: Vec<(&str, Json)>) -> Json {
    Json::Object(members.into_iter().map(|(k, v)| (k.to_string(), v)).collect())
}

fn pane(id: &str) -> Json {
    obj(vec![("type", text("pane")), ("pane_id", text(id))])
}

fn split(direction: &str, first: Json, second: Json) -> Json {
    obj(vec![
        ("type", text("split")),
        ("direction", text(direction)),
        ("ratio", Json::Number("0.5".to_string())),
        ("first", first),
        ("second", second),
    ])
}

fn layout(root: Json, focused: &str) -> Json {
    obj(vec![
        ("type", text("layout_export")),
        (
            "layout",
            obj(vec![
                ("workspace_id", text("w1")),
                ("tab_id", text("w1:t1")),
                ("zoomed", Json::Bool(false)),
                ("focused_pane_id", text(focused)),
                ("root", root),
            ]),
        ),
    ])
}

fn moved(stage: Option<&str>) -> Json {
    let created = match stage {
        Some(id) => obj(vec![("tab_id", text(id))]),
        None => Json::Null,
    };
    obj(vec![("type", text("pane_move")), ("move_result", obj(vec![("created_tab", created)]))])
}

/// Runs `command` against canned replies, the way a client that answers in
/// order would; a request with no reply left gets an error.
fn run(state: State, command: Command, replies: Vec<Json>) -> (Vec<Request>, Step, State) {
    let mut replies = replies.into_iter();
    let mut sent = Vec::new();
    let (mut session, mut step) = Session::start(state, command);
    loop {
        match step {
            Step::Send(request) => {
                sent.push(request);
                let reply = match replies.next() {
                    Some(r) => Ok(r),
                    None => Err("no response".to_string()),
                };
                assert!(session.is_waiting());
                step = session.resume(reply);
            }
            other => return (sent, other, session.into_state()),
        }
    }
}

fn tab_with(configure: impl FnOnce(&mut TabState)) -> State {
    let mut state = State::new();
    let mut tab = TabState::default();
    configure(&mut tab);
    state.insert_tab("w1:t1".to_string(), tab);
    state
}

fn reflow_tab(mfact: u64, nmaster: usize) -> Command {
    Command::ReflowTab {
        workspace_id: "w1".to_string(),
        tab_id: "w1:t1".to_string(),
        orientation: Orientation::Horizontal,
        mfact,
        nmaster,
    }
}

fn current_pane(tab: &str, pane_id: &str) -> Json {
    obj(vec![
        ("type", text("pane_current")),
        (
            "pane",
            obj(vec![
                ("workspace_id", text("w1")),
                ("tab_id", text(tab)),
                ("pane_id", text(pane_id)),
                ("cwd", text("/tmp")),
                ("foreground_cwd", text("/tmp")),
            ]),
        ),
    ])
}

fn ids(v: &[String]) -> Vec<&str> {
    v.iter().map(|s| s.as_str()).collect()
}

#[test]
fn bsp_order_is_stable() {
    let root = split(
        "right",
        split("down", pane("p1"), pane("p2")),
        split("down", pane("p3"), pane("p4")),
    );
    assert_eq!(pane_ids(&root).unwrap(), ["p1", "p2", "p3", "p4"]);
}

#[test]
fn single_pane_updates_state_without_moves() {
    let state = tab_with(|t| t.nmaster = 4);
    let (sent, step, state) = run(state, reflow_tab(500_000, 4), vec![layout(pane("w1:p1"), "w1:p1")]);
    assert!(matches!(step, Step::Done));
    let tab = state.tab("w1:t1").unwrap();
    assert_eq!(tab.nmaster, 1);
    assert_eq!(tab.pane_ids, ["w1:p1"]);
    assert_eq!(sent.len(), 1);
}

#[test]
fn horizontal_reflow_builds_master_boundary_first() {
    let root = split("down", pane("w1:p1"), split("down", pane("w1:p2"), pane("w1:p3")));
    let replies = vec![
        layout(root, "w1:p1"),
        moved(Some("w1:stage")),
        moved(None),
        moved(None),
        moved(None),
        obj(vec![("type", text("pane_focus"))]),
    ];
    let state = tab_with(|t| t.mfact = 600_000);
    let (sent, step, _) = run(state, reflow_tab(600_000, 1), replies);
    assert!(matches!(step, Step::Done));
    let source_move = sent
        .iter()
        .find(|r| matches!(r, Request::MoveToTab { tab_id, .. } if tab_id == "w1:t1"))
        .unwrap();
    match source_move {
        Request::MoveToTab { pane_id, direction, ratio, .. } => {
            assert_eq!(pane_id, "w1:p2");
            assert_eq!(*direction, Direction::Right);
            assert_eq!(*ratio, Some(Ratio::MasterFactor(600_000)));
        }
        _ => unreachable!(),
    }
    let params = source_move.params(Json::Number("0.6".to_string()));
    let destination = params.get("destination").unwrap();
    assert!(matches!(destination.get("split"), Some(Json::Str(s)) if s == "right"));
    assert!(matches!(destination.get("ratio"), Some(Json::Number(n)) if n == "0.6"));
}

#[test]
fn a_new_split_is_promoted_to_master() {
    let created = obj(vec![("type", text("pane_info")), ("pane", obj(vec![("pane_id", text("w1:p2"))]))]);
    let before_swap = layout(split("down", pane("w1:p1"), pane("w1:p2")), "w1:p2");
    let after_swap = layout(split("down", pane("w1:p2"), pane("w1:p1")), "w1:p2");
    let replies = vec![
        current_pane("w1:t1", "w1:p1"),
        created,
        before_swap,
        obj(vec![]),
        after_swap,
        moved(Some("w1:stage")),
        moved(None),
        obj(vec![("type", text("pane_focus"))]),
    ];
    let command = Command::Pane(PaneCommand::Split { towards: "down".to_string() });
    let (sent, step, state) = run(State::new(), command, replies);
    assert!(matches!(step, Step::Done));
    let swap = sent.iter().find(|r| matches!(r, Request::SwapPanes { .. })).unwrap();
    match swap {
        Request::SwapPanes { source_pane_id, target_pane_id } => {
            assert_eq!(source_pane_id, "w1:p2");
            assert_eq!(target_pane_id, "w1:p1");
        }
        _ => unreachable!(),
    }
    assert_eq!(state.tab("w1:t1").unwrap().pane_ids, ["w1:p2", "w1:p1"]);
}
