use herdr_dwm_layout::decide::{decide_event, underscored_is, EventDecision};
use herdr_dwm_layout::json::Json;
use herdr_dwm_layout::reply::{layout_pane_ids, pane_ids, typed_field, Error, Field, ReplyKind};
use herdr_dwm_layout::request::{answer, Answer, Ratio, Request};
use herdr_dwm_layout::session::{Command, PaneCommand, Session, Step};
use herdr_dwm_layout::state::State;
use herdr_dwm_layout::tab::{
    adjust_mfact, adjust_nmaster, clamp_nmaster, parse_orientation, Abort, Direction, Orientation,
    TabState,
};

fn text(t: &str) -> Json {
    Json::Str(t.to_string())
}

fn obj(members: Vec<(&str, Json)>) -> Json {
    Json::Object(members.into_iter().map(|(k, v)| (k.to_string(), v)).collect())
}

fn leaf(id: &str) -> Json {
    obj(vec![("type", text("pane")), ("pane_id", text(id))])
}

fn node(first: Json, second: Json) -> Json {
    obj(vec![("type", text("split")), ("first", first), ("second", second)])
}

fn chain(ids: &[&str]) -> Json {
    let mut root = leaf(ids[ids.len() - 1]);
    for id in ids[..ids.len() - 1].iter().rev() {
        root = node(leaf(id), root);
    }
    root
}

fn export(root: Json, focused: &str) -> Json {
    obj(vec![
        ("type", text("layout_export")),
        ("layout", obj(vec![("focused_pane_id", text(focused)), ("root", root)])),
    ])
}

fn staged(tab: &str) -> Json {
    obj(vec![
        ("type", text("pane_move")),
        ("move_result", obj(vec![("created_tab", obj(vec![("tab_id", text(tab))]))])),
    ])
}

fn ok() -> Json {
    obj(vec![])
}

fn current(tab: &str, pane_id: &str) -> Json {
    obj(vec![
        ("type", text("pane_current")),
        (
            "pane",
            obj(vec![
                ("workspace_id", text("w1")),
                ("tab_id", text(tab)),
                ("pane_id", text(pane_id)),
                ("cwd", text("/home")),
            ]),
        ),
    ])
}

fn drive(state: State, command: Command, replies: Vec<Json>) -> (Vec<Request>, Step, State) {
    let mut replies = replies.into_iter();
    let mut sent = Vec::new();
    let (mut session, mut step) = Session::start(state, command);
    loop {
        match step {
            Step::Send(request) => {
                sent.push(request);
                let reply = match replies.next() {
                    Some(r) => Ok(r),
                    None => Err("no response".to_string()),
                };
                step = session.resume(reply);
            }
            other => return (sent, other, session.into_state()),
        }
    }
}

fn managed(tab: TabState) -> State {
    let mut state = State::new();
    state.insert_tab("t1".to_string(), tab);
    state
}

fn reflow(nmaster: usize, orientation: Orientation) -> Command {
    Command::ReflowTab {
        workspace_id: "w1".to_string(),
        tab_id: "t1".to_string(),
        orientation,
        mfact: 550_000,
        nmaster,
    }
}

fn moves(sent: &[Request]) -> Vec<(String, String, String, Direction, Option<Ratio>, bool)> {
    sent.iter()
        .filter_map(|r| match r {
            Request::MoveToTab { pane_id, tab_id, target_pane_id, direction, ratio, focus } => {
                Some((
                    pane_id.clone(),
                    tab_id.clone(),
                    target_pane_id.clone(),
                    *direction,
                    *ratio,
                    *focus,
                ))
            }
            _ => None,
        })
        .collect()
}

#[test]
fn a_pane_without_textual_id_adds_nothing() {
    let root = node(obj(vec![("type", text("pane"))]), leaf("b"));
    assert_eq!(pane_ids(&root).unwrap(), ["b"]);
}

#[test]
fn an_unknown_node_type_is_an_error() {
    let root = node(leaf("a"), obj(vec![("type", text("tabs"))]));
    match pane_ids(&root) {
        Err(Error::InvalidNodeType { found, .. }) => assert_eq!(found.as_deref(), Some("tabs")),
        other => panic!("unexpected {other:?}"),
    }
}

#[test]
fn a_split_without_second_child_is_an_error() {
    let root = obj(vec![("type", text("split")), ("first", leaf("a"))]);
    assert!(matches!(
        pane_ids(&root),
        Err(Error::MissingField { field: Field::Second, .. })
    ));
}

#[test]
fn a_layout_without_root_is_an_error() {
    assert!(matches!(
        layout_pane_ids(&obj(vec![])),
        Err(Error::MissingField { field: Field::Root, .. })
    ));
}

#[test]
fn a_reply_of_another_type_is_an_error() {
    let reply = obj(vec![("type", text("pane_info"))]);
    assert!(matches!(
        typed_field(reply, ReplyKind::LayoutExport, Field::Layout),
        Err(Error::UnexpectedReply { expected: ReplyKind::LayoutExport, .. })
    ));
}

#[test]
fn a_reply_lacking_its_member_is_an_error() {
    let reply = obj(vec![("type", text("layout_export"))]);
    assert!(matches!(
        typed_field(reply, ReplyKind::LayoutExport, Field::Layout),
        Err(Error::MissingField { field: Field::Layout, .. })
    ));
}

#[test]
fn master_share_stays_within_bounds() {
    assert_eq!(adjust_mfact(500_000, 50_000), 550_000);
    assert_eq!(adjust_mfact(500_000, -50_000), 450_000);
    assert_eq!(adjust_mfact(880_000, 50_000), 900_000);
    assert_eq!(adjust_mfact(120_000, -50_000), 100_000);
    assert_eq!(adjust_mfact(5_000_000, i64::MIN), 100_000);
    assert_eq!(adjust_mfact(500_000, -125_000), 380_000);
    assert_eq!(adjust_mfact(555_000, 0), 560_000);
}

#[test]
fn master_count_stays_within_pane_count() {
    assert_eq!(clamp_nmaster(0, 3), 1);
    assert_eq!(clamp_nmaster(7, 3), 3);
    assert_eq!(adjust_nmaster(1, 1, 3), Ok(2));
    assert_eq!(adjust_nmaster(3, 1, 3), Ok(3));
    assert_eq!(adjust_nmaster(1, -1, 3), Ok(1));
    assert_eq!(adjust_nmaster(1, 1, 0), Err(Abort::EmptyRange));
    assert_eq!(adjust_nmaster(2, i64::MAX, 3), Ok(1));
}

#[test]
fn toggling_twice_restores_the_orientation() {
    for o in [Orientation::Horizontal, Orientation::Vertical] {
        assert_ne!(o.toggled(), o);
        assert_eq!(o.toggled().toggled(), o);
    }
    assert_eq!(Orientation::Vertical.root_direction(), Direction::Down);
    assert_eq!(Orientation::Vertical.inner_direction(), Direction::Right);
}

#[test]
fn orientations_are_named() {
    assert_eq!(parse_orientation("horizontal"), Some(Orientation::Horizontal));
    assert_eq!(parse_orientation("vertical"), Some(Orientation::Vertical));
    assert_eq!(parse_orientation("diagonal"), None);
}

#[test]
fn dots_read_as_underscores() {
    assert!(underscored_is("tab.closed", "tab_closed"));
    assert!(underscored_is("tab_closed", "tab_closed"));
    assert!(!underscored_is("tab.close", "tab_closed"));
}

#[test]
fn reflow_moves_every_pane_back_once() {
    let state = managed(TabState::default());
    let replies = vec![export(chain(&["a", "b", "c", "d"]), "c"), staged("s"), ok(), ok(), ok(), ok(), ok()];
    let (sent, step, state) = drive(state, reflow(2, Orientation::Horizontal), replies);
    assert!(matches!(step, Step::Done));
    assert!(matches!(&sent[1], Request::MoveToNewTab { pane_id, workspace_id } if pane_id == "b" && workspace_id == "w1"));
    let all = moves(&sent);
    let right = Direction::Right;
    let down = Direction::Down;
    let expected: Vec<(String, String, String, Direction, Option<Ratio>, bool)> = vec![
        ("c".into(), "s".into(), "b".into(), down, None, false),
        ("d".into(), "s".into(), "c".into(), down, None, false),
        ("c".into(), "t1".into(), "a".into(), right, Some(Ratio::MasterFactor(550_000)), true),
        ("b".into(), "t1".into(), "a".into(), down, Some(Ratio::EqualShare(2)), false),
        ("d".into(), "t1".into(), "c".into(), down, Some(Ratio::EqualShare(2)), false),
    ];
    assert_eq!(all, expected);
    assert_eq!(sent.len(), 7);
    let tab = state.tab("t1").unwrap();
    assert_eq!(tab.pane_ids, ["a", "b", "c", "d"]);
    assert_eq!(tab.nmaster, 2);
    assert_eq!(tab.last_master_pane.as_deref(), Some("a"));
    assert_eq!(tab.last_stack_pane.as_deref(), Some("c"));
}

#[test]
fn vertical_reflow_with_all_masters_has_no_boundary() {
    let state = managed(TabState::default());
    let replies = vec![export(chain(&["a", "b", "c"]), "a"), staged("s"), ok(), ok(), ok(), ok()];
    let (sent, step, state) = drive(state, reflow(5, Orientation::Vertical), replies);
    assert!(matches!(step, Step::Done));
    let all = moves(&sent);
    assert_eq!(all[1].0, "b");
    assert_eq!(all[1].3, Direction::Right);
    assert_eq!(all[1].4, Some(Ratio::EqualShare(3)));
    assert_eq!(all[2].0, "c");
    assert_eq!(all[2].4, Some(Ratio::EqualShare(2)));
    assert!(matches!(sent.last(), Some(Request::FocusPane { pane_id }) if pane_id == "a"));
    let tab = state.tab("t1").unwrap();
    assert_eq!(tab.nmaster, 3);
    assert_eq!(tab.last_stack_pane, None);
}

#[test]
fn a_failed_request_fails_the_action() {
    let state = managed(TabState::default());
    let (_, step, _) = drive(state, reflow(1, Orientation::Horizontal), vec![]);
    assert!(matches!(step, Step::Failed(Error::Api(m)) if m == "no response"));
}

#[test]
fn a_move_that_creates_no_tab_fails() {
    let state = managed(TabState::default());
    let moved_nowhere = obj(vec![("type", text("pane_move")), ("move_result", obj(vec![]))]);
    let (_, step, _) = drive(state, reflow(1, Orientation::Horizontal), vec![export(chain(&["a", "b"]), "a"), moved_nowhere]);
    assert!(matches!(step, Step::Failed(Error::NoStagingTab)));
}

#[test]
fn a_focused_pane_id_must_be_text() {
    let state = managed(TabState::default());
    let reply = obj(vec![
        ("type", text("layout_export")),
        ("layout", obj(vec![("focused_pane_id", Json::Number("3".into())), ("root", chain(&["a", "b"]))])),
    ]);
    let (_, step, _) = drive(state, reflow(1, Orientation::Horizontal), vec![reply]);
    assert!(matches!(step, Step::Failed(Error::FocusedPaneIdNotString)));
}

#[test]
fn disable_forgets_the_tab() {
    let state = managed(TabState::default());
    let (sent, step, state) = drive(state, Command::Pane(PaneCommand::Disable), vec![current("t1", "a")]);
    assert!(matches!(step, Step::Done));
    assert_eq!(sent.len(), 1);
    assert!(state.tab("t1").is_none());
}

#[test]
fn a_current_pane_without_tab_fails() {
    let reply = obj(vec![("type", text("pane_current")), ("pane", obj(vec![("workspace_id", text("w1"))]))]);
    let (_, step, _) = drive(State::new(), Command::Pane(PaneCommand::Enable), vec![reply]);
    assert!(matches!(step, Step::Failed(Error::CurrentPaneLacks(Field::TabId))));
}

#[test]
fn enable_manages_a_single_pane_tab() {
    let (sent, step, state) = drive(
        State::new(),
        Command::Pane(PaneCommand::Enable),
        vec![current("t1", "a"), export(leaf("a"), "a")],
    );
    assert!(matches!(step, Step::Done));
    assert!(matches!(&sent[1], Request::ExportLayout { tab_id } if tab_id == "t1"));
    let tab = state.tab("t1").unwrap();
    assert!(tab.enabled);
    assert_eq!(tab.mfact, 500_000);
    assert_eq!(tab.pane_ids, ["a"]);
}

#[test]
fn next_layout_toggles_and_reflows() {
    let (_, step, state) = drive(
        State::new(),
        Command::Pane(PaneCommand::NextLayout),
        vec![current("t1", "a"), export(leaf("a"), "a")],
    );
    assert!(matches!(step, Step::Done));
    assert_eq!(state.tab("t1").unwrap().orientation, Orientation::Vertical);
}

#[test]
fn change_mfact_is_clamped() {
    let tab = TabState { mfact: 880_000, ..TabState::default() };
    let (_, _, state) = drive(
        managed(tab),
        Command::Pane(PaneCommand::ChangeMfact { delta: 50_000 }),
        vec![current("t1", "a"), export(leaf("a"), "a")],
    );
    assert_eq!(state.tab("t1").unwrap().mfact, 900_000);
}

#[test]
fn change_nmaster_is_bounded_by_the_layout() {
    let replies = vec![current("t1", "a"), export(chain(&["a", "b"]), "a"), export(leaf("a"), "a")];
    let (_, step, state) = drive(State::new(), Command::Pane(PaneCommand::ChangeNmaster { delta: 9 }), replies);
    assert!(matches!(step, Step::Done));
    // The count was clamped to 2; the one-pane layout read next records 1.
    assert_eq!(state.tab("t1").unwrap().nmaster, 1);
}

#[test]
fn change_nmaster_on_an_empty_layout_aborts() {
    let empty = export(obj(vec![("type", text("pane"))]), "a");
    let (_, step, _) = drive(State::new(), Command::Pane(PaneCommand::ChangeNmaster { delta: 1 }), vec![current("t1", "a"), empty]);
    assert!(matches!(step, Step::Aborted(Abort::EmptyRange)));
}

#[test]
fn swap_master_from_the_master_takes_the_first_stack_pane() {
    let replies = vec![current("t1", "a"), export(chain(&["a", "b", "c"]), "a"), ok()];
    let (sent, _, _) = drive(State::new(), Command::Pane(PaneCommand::SwapMaster), replies);
    assert!(matches!(&sent[2], Request::SwapPanes { source_pane_id, target_pane_id } if source_pane_id == "a" && target_pane_id == "b"));
}

#[test]
fn swap_master_from_the_stack_takes_the_last_master() {
    let tab = TabState { last_master_pane: Some("b".into()), nmaster: 2, ..TabState::default() };
    let replies = vec![current("t1", "c"), export(chain(&["a", "b", "c"]), "c"), ok()];
    let (sent, _, _) = drive(managed(tab), Command::Pane(PaneCommand::SwapMaster), replies);
    assert!(matches!(&sent[2], Request::SwapPanes { source_pane_id, target_pane_id } if source_pane_id == "c" && target_pane_id == "b"));
}

#[test]
fn swap_master_with_one_pane_does_nothing_more() {
    let replies = vec![current("t1", "a"), export(leaf("a"), "a")];
    let (sent, step, state) = drive(State::new(), Command::Pane(PaneCommand::SwapMaster), replies);
    assert!(matches!(step, Step::Done));
    assert_eq!(sent.len(), 2);
    assert!(state.tab("t1").is_some());
}

#[test]
fn split_uses_the_pane_directory_and_a_master_split_needs_no_swap() {
    let created = obj(vec![("type", text("pane_info")), ("pane", obj(vec![("pane_id", text("n"))]))]);
    let tab = TabState { nmaster: 2, ..TabState::default() };
    let replies = vec![current("t1", "a"), created, export(chain(&["a", "n"]), "n"), export(leaf("a"), "a")];
    let (sent, step, _) = drive(managed(tab), Command::Pane(PaneCommand::Split { towards: "right".into() }), replies);
    assert!(matches!(step, Step::Done));
    match &sent[1] {
        Request::SplitPane { target_pane_id, towards, cwd } => {
            assert_eq!(target_pane_id, "a");
            assert_eq!(towards, "right");
            assert!(matches!(cwd, Json::Str(d) if d == "/home"));
        }
        other => panic!("unexpected {other:?}"),
    }
    assert!(!sent.iter().any(|r| matches!(r, Request::SwapPanes { .. })));
}

#[test]
fn a_split_pane_needs_a_textual_id() {
    let created = obj(vec![("type", text("pane_info")), ("pane", obj(vec![("pane_id", Json::Null)]))]);
    let replies = vec![current("t1", "a"), created];
    let (_, step, _) = drive(State::new(), Command::Pane(PaneCommand::Split { towards: "down".into() }), replies);
    assert!(matches!(step, Step::Failed(Error::NewPaneIdNotString)));
}

#[test]
fn tab_closed_events_forget_the_tab() {
    let event = obj(vec![("data", obj(vec![("type", text("tab.closed")), ("tab_id", text("t1"))]))]);
    let state = managed(TabState::default());
    let (sent, step, state) = drive(state, Command::Event { event, name: String::new() }, vec![]);
    assert!(matches!(step, Step::Done));
    assert!(sent.is_empty());
    assert!(state.tab("t1").is_none());
}

#[test]
fn events_for_unmanaged_or_disabled_tabs_are_ignored() {
    let event = obj(vec![("pane", obj(vec![("tab_id", text("t2")), ("workspace_id", text("w1"))]))]);
    let state = managed(TabState::default());
    assert!(matches!(decide_event(&state, &event, "pane.created"), EventDecision::Ignore));
    let disabled = managed(TabState { enabled: false, ..TabState::default() });
    let event = obj(vec![("pane", obj(vec![("tab_id", text("t1")), ("workspace_id", text("w1"))]))]);
    assert!(matches!(decide_event(&disabled, &event, "pane.created"), EventDecision::Ignore));
}

#[test]
fn a_closed_pane_is_traced_to_its_only_tab() {
    let tab = TabState { pane_ids: vec!["p9".into()], ..TabState::default() };
    let state = managed(tab);
    let event = obj(vec![("pane_id", text("p9")), ("workspace_id", text("w1"))]);
    match decide_event(&state, &event, "pane.closed") {
        EventDecision::Check { workspace_id, tab_id } => {
            assert_eq!(workspace_id, "w1");
            assert_eq!(tab_id, "t1");
        }
        other => panic!("unexpected {other:?}"),
    }
}

#[test]
fn an_unchanged_layout_is_left_alone() {
    let tab = TabState { pane_ids: vec!["a".into(), "b".into()], ..TabState::default() };
    let event = obj(vec![("pane", obj(vec![("tab_id", text("t1")), ("workspace_id", text("w1"))]))]);
    let command = Command::Event { event, name: "pane.created".into() };
    let (sent, step, state) = drive(managed(tab), command, vec![export(chain(&["a", "b"]), "a")]);
    assert!(matches!(step, Step::Done));
    assert_eq!(sent.len(), 1);
    assert_eq!(state.tab("t1").unwrap().pane_ids, ["a", "b"]);
}

#[test]
fn other_tabs_keep_their_state() {
    let mut state = managed(TabState::default());
    state.insert_tab("t2".into(), TabState { mfact: 70, nmaster: 3, ..TabState::default() });
    let (_, _, state) = drive(state, reflow(1, Orientation::Horizontal), vec![export(leaf("a"), "a")]);
    let other = state.tab("t2").unwrap();
    assert_eq!(other.mfact, 70);
    assert_eq!(other.nmaster, 3);
}

#[test]
fn responses_are_matched_by_id() {
    let mine = obj(vec![("id", text("r1")), ("result", text("x"))]);
    assert!(matches!(answer(&mine, "r1"), Answer::Success(Json::Str(s)) if s == "x"));
    assert!(matches!(answer(&mine, "r2"), Answer::Unrelated));
    let failed = obj(vec![("id", text("r1")), ("error", text("bad"))]);
    assert!(matches!(answer(&failed, "r1"), Answer::Failure(_)));
    assert!(matches!(answer(&obj(vec![("id", text("r1"))]), "r1"), Answer::Empty));
    assert_eq!(Request::CurrentPane.method(), "pane.current");
    assert_eq!(Request::FocusPane { pane_id: "a".into() }.method(), "pane.focus");
}

#[test]
fn a_failed_action_hands_back_the_state_it_was_given() {
    let tab = TabState { mfact: 700_000, nmaster: 3, ..TabState::default() };
    let replies = vec![current("t1", "a"), export(chain(&["a", "b"]), "a")];
    let (_, step, state) = drive(managed(tab), Command::Pane(PaneCommand::ChangeMfact { delta: 50_000 }), replies);
    assert!(matches!(step, Step::Failed(Error::Api(_))));
    let tab = state.tab("t1").unwrap();
    assert_eq!(tab.mfact, 700_000);
    assert_eq!(tab.nmaster, 3);
    assert_eq!(tab.orientation, Orientation::Horizontal);
}

#[test]
fn an_aborted_action_keeps_the_tab() {
    let tab = TabState { nmaster: 2, ..TabState::default() };
    let empty = export(obj(vec![("type", text("pane"))]), "a");
    let (_, step, state) = drive(managed(tab), Command::Pane(PaneCommand::ChangeNmaster { delta: 1 }), vec![current("t1", "a"), empty]);
    assert!(matches!(step, Step::Aborted(Abort::EmptyRange)));
    assert_eq!(state.tab("t1").unwrap().nmaster, 2);
}

#[test]
fn next_layout_twice_restores_the_orientation() {
    let replies = || vec![current("t1", "a"), export(leaf("a"), "a")];
    let (_, _, state) = drive(State::new(), Command::Pane(PaneCommand::NextLayout), replies());
    assert_eq!(state.tab("t1").unwrap().orientation, Orientation::Vertical);
    let (_, _, state) = drive(state, Command::Pane(PaneCommand::NextLayout), replies());
    assert_eq!(state.tab("t1").unwrap().orientation, Orientation::Horizontal);
}

#[test]
fn growing_and_shrinking_the_master_area_restores_it() {
    let replies = || vec![current("t1", "a"), export(leaf("a"), "a")];
    let grow = Command::Pane(PaneCommand::ChangeMfact { delta: 50_000 });
    let (_, _, state) = drive(managed(TabState::default()), grow, replies());
    assert_eq!(state.tab("t1").unwrap().mfact, 550_000);
    let shrink = Command::Pane(PaneCommand::ChangeMfact { delta: -50_000 });
    let (_, _, state) = drive(state, shrink, replies());
    assert_eq!(state.tab("t1").unwrap().mfact, 500_000);
}

fn member<'a>(j: &'a Json, key: &str) -> &'a Json {
    j.get(key).unwrap()
}

fn is_text(j: &Json, expected: &str) -> bool {
    matches!(j, Json::Str(s) if s == expected)
}

#[test]
fn requests_are_encoded_as_herdr_reads_them() {
    let staging = Request::MoveToNewTab { pane_id: "b".into(), workspace_id: "w1".into() };
    let p = staging.params(Json::Null);
    assert!(is_text(member(&p, "pane_id"), "b"));
    assert!(matches!(member(&p, "focus"), Json::Bool(false)));
    let d = member(&p, "destination");
    assert!(is_text(member(d, "type"), "new_tab"));
    assert!(is_text(member(d, "workspace_id"), "w1"));
    assert!(is_text(member(d, "label"), "dwm-staging"));

    let back = Request::MoveToTab {
        pane_id: "b".into(),
        tab_id: "t1".into(),
        target_pane_id: "a".into(),
        direction: Direction::Down,
        ratio: None,
        focus: true,
    };
    let p = back.params(Json::Number("0.5".into()));
    assert!(matches!(member(&p, "focus"), Json::Bool(true)));
    let d = member(&p, "destination");
    assert!(is_text(member(d, "type"), "tab"));
    assert!(is_text(member(d, "tab_id"), "t1"));
    assert!(is_text(member(d, "split"), "down"));
    assert!(is_text(member(d, "target_pane_id"), "a"));
    assert!(d.get("ratio").is_none());

    let split = Request::SplitPane { target_pane_id: "a".into(), towards: "right".into(), cwd: Json::Null };
    let p = split.params(Json::Null);
    assert!(is_text(member(&p, "direction"), "right"));
    assert!(matches!(member(&p, "cwd"), Json::Null));
    assert!(matches!(member(&p, "focus"), Json::Bool(true)));

    let swap = Request::SwapPanes { source_pane_id: "n".into(), target_pane_id: "a".into() };
    let m = swap.message("dwm-1-2", Json::Null);
    assert!(is_text(member(&m, "id"), "dwm-1-2"));
    assert!(is_text(member(&m, "method"), "pane.swap"));
    let p = member(&m, "params");
    assert!(is_text(member(p, "source_pane_id"), "n"));
    assert!(is_text(member(p, "target_pane_id"), "a"));
    let p = Request::ExportLayout { tab_id: "t1".into() }.params(Json::Null);
    assert!(is_text(member(&p, "tab_id"), "t1"));
}

#[test]
fn reflow_tab_holds_the_share_within_bounds() {
    let high = Command::ReflowTab {
        workspace_id: "w1".to_string(),
        tab_id: "t1".to_string(),
        orientation: Orientation::Horizontal,
        mfact: 950_000,
        nmaster: 1,
    };
    let (_, step, state) = drive(State::new(), high, vec![export(leaf("a"), "a")]);
    assert!(matches!(step, Step::Done));
    assert_eq!(state.tab("t1").unwrap().mfact, 900_000);
    let low = Command::ReflowTab {
        workspace_id: "w1".to_string(),
        tab_id: "t1".to_string(),
        orientation: Orientation::Horizontal,
        mfact: 555_000,
        nmaster: 1,
    };
    let (_, _, state) = drive(state, low, vec![export(leaf("a"), "a")]);
    assert_eq!(state.tab("t1").unwrap().mfact, 555_000);
    assert_eq!(herdr_dwm_layout::tab::clamp_mfact(20_000), 100_000);
}
