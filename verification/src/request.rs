//! The requests this plugin sends to Herdr.
use crate::json::{lemma_members_view, members_view, Json, JsonView};
use crate::tab::Direction;
use vstd::prelude::*;

verus! {

/// The size given to a pane moved beside another one.
#[derive(Clone, Copy, Debug, PartialEq, Eq, Structural)]
pub enum Ratio {
    /// The tab's master-area share, in millionths.
    MasterFactor(u64),
    /// One part in `n`: the moved pane takes `1 / n` of the target's room.
    EqualShare(usize),
}

/// A request to Herdr's socket API.
#[derive(Debug)]
pub enum Request {
    /// `pane.current`: the focused pane.
    CurrentPane,
    /// `layout.export` of a tab.
    ExportLayout { tab_id: String },
    /// `pane.move` of a pane into a new, unfocused tab labelled `dwm-staging`.
    MoveToNewTab { pane_id: String, workspace_id: String },
    /// `pane.move` of a pane beside a target pane of a tab.
    MoveToTab {
        pane_id: String,
        tab_id: String,
        target_pane_id: String,
        direction: Direction,
        ratio: Option<Ratio>,
        focus: bool,
    },
    /// `pane.split` of a pane towards the side named `towards`, focusing the
    /// new pane.
    SplitPane { target_pane_id: String, towards: String, cwd: Json },
    /// `pane.swap` of two panes.
    SwapPanes { source_pane_id: String, target_pane_id: String },
    /// `pane.focus` of a pane.
    FocusPane { pane_id: String },
}

pub enum RequestView {
    CurrentPane,
    ExportLayout { tab_id: Seq<char> },
    MoveToNewTab { pane_id: Seq<char>, workspace_id: Seq<char> },
    MoveToTab {
        pane_id: Seq<char>,
        tab_id: Seq<char>,
        target_pane_id: Seq<char>,
        direction: Direction,
        ratio: Option<Ratio>,
        focus: bool,
    },
    SplitPane { target_pane_id: Seq<char>, towards: Seq<char>, cwd: JsonView },
    SwapPanes { source_pane_id: Seq<char>, target_pane_id: Seq<char> },
    FocusPane { pane_id: Seq<char> },
}

impl View for Request {
    type V = RequestView;

    open spec fn view(&self) -> RequestView {
        match *self {
            Request::CurrentPane => RequestView::CurrentPane,
            Request::ExportLayout { tab_id } => RequestView::ExportLayout { tab_id: tab_id@ },
            Request::MoveToNewTab { pane_id, workspace_id } => RequestView::MoveToNewTab {
                pane_id: pane_id@,
                workspace_id: workspace_id@,
            },
            Request::MoveToTab { pane_id, tab_id, target_pane_id, direction, ratio, focus } =>
                RequestView::MoveToTab {
                pane_id: pane_id@,
                tab_id: tab_id@,
                target_pane_id: target_pane_id@,
                direction,
                ratio,
                focus,
            },
            Request::SplitPane { target_pane_id, towards, cwd } => RequestView::SplitPane {
                target_pane_id: target_pane_id@,
                towards: towards@,
                cwd: cwd@,
            },
            Request::SwapPanes { source_pane_id, target_pane_id } => RequestView::SwapPanes {
                source_pane_id: source_pane_id@,
                target_pane_id: target_pane_id@,
            },
            Request::FocusPane { pane_id } => RequestView::FocusPane { pane_id: pane_id@ },
        }
    }
}

impl RequestView {
    /// The API method that carries the request.
    pub open spec fn method(self) -> Seq<char> {
        match self {
            RequestView::CurrentPane => "pane.current"@,
            RequestView::ExportLayout { .. } => "layout.export"@,
            RequestView::MoveToNewTab { .. } => "pane.move"@,
            RequestView::MoveToTab { .. } => "pane.move"@,
            RequestView::SplitPane { .. } => "pane.split"@,
            RequestView::SwapPanes { .. } => "pane.swap"@,
            RequestView::FocusPane { .. } => "pane.focus"@,
        }
    }
}

impl Request {
    /// The API method that carries the request.
    pub fn method(&self) -> (r: &'static str)
        ensures
            r@ == self@.method(),
    {
        match self {
            Request::CurrentPane => "pane.current",
            Request::ExportLayout { .. } => "layout.export",
            Request::MoveToNewTab { .. } => "pane.move",
            Request::MoveToTab { .. } => "pane.move",
            Request::SplitPane { .. } => "pane.split",
            Request::SwapPanes { .. } => "pane.swap",
            Request::FocusPane { .. } => "pane.focus",
        }
    }
}

/// The label of the temporary tab that holds panes during a reflow.
pub open spec fn staging_label() -> Seq<char> {
    "dwm-staging"@
}

pub open spec fn text(s: Seq<char>) -> JsonView {
    JsonView::Str(s)
}

impl RequestView {
    /// The parameters of the request as the API reads them; `ratio` is the
    /// number that stands for the request's ratio, where it has one.
    pub open spec fn params(self, ratio: JsonView) -> JsonView {
        match self {
            RequestView::CurrentPane => JsonView::Object(seq![]),
            RequestView::ExportLayout { tab_id } => JsonView::Object(
                seq![("tab_id"@, text(tab_id))],
            ),
            RequestView::MoveToNewTab { pane_id, workspace_id } => JsonView::Object(
                seq![
                    ("pane_id"@, text(pane_id)),
                    (
                        "destination"@,
                        JsonView::Object(
                            seq![
                                ("type"@, text("new_tab"@)),
                                ("workspace_id"@, text(workspace_id)),
                                ("label"@, text(staging_label())),
                            ],
                        ),
                    ),
                    ("focus"@, JsonView::Bool(false)),
                ],
            ),
            RequestView::MoveToTab {
                pane_id,
                tab_id,
                target_pane_id,
                direction,
                ratio: r,
                focus,
            } => JsonView::Object(
                seq![
                    ("pane_id"@, text(pane_id)),
                    (
                        "destination"@,
                        JsonView::Object(
                            seq![
                                ("type"@, text("tab"@)),
                                ("tab_id"@, text(tab_id)),
                                ("split"@, text(direction.spec_name())),
                                ("target_pane_id"@, text(target_pane_id)),
                            ] + if r is Some {
                                seq![("ratio"@, ratio)]
                            } else {
                                seq![]
                            },
                        ),
                    ),
                    ("focus"@, JsonView::Bool(focus)),
                ],
            ),
            RequestView::SplitPane { target_pane_id, towards, cwd } => JsonView::Object(
                seq![
                    ("target_pane_id"@, text(target_pane_id)),
                    ("direction"@, text(towards)),
                    ("cwd"@, cwd),
                    ("focus"@, JsonView::Bool(true)),
                ],
            ),
            RequestView::SwapPanes { source_pane_id, target_pane_id } => JsonView::Object(
                seq![
                    ("source_pane_id"@, text(source_pane_id)),
                    ("target_pane_id"@, text(target_pane_id)),
                ],
            ),
            RequestView::FocusPane { pane_id } => JsonView::Object(
                seq![("pane_id"@, text(pane_id))],
            ),
        }
    }

    /// The line sent for the request: its id, its method and its parameters.
    pub open spec fn message(self, request_id: Seq<char>, ratio: JsonView) -> JsonView {
        JsonView::Object(
            seq![
                ("id"@, text(request_id)),
                ("method"@, text(self.method())),
                ("params"@, self.params(ratio)),
            ],
        )
    }
}

/// A member of an object.
fn member(key: &str, value: Json) -> (r: (String, Json))
    ensures
        r.0@ == key@,
        r.1@ == value@,
{
    (key.to_owned(), value)
}

/// A string value.
fn string(s: &String) -> (r: Json)
    ensures
        r@ == text(s@),
{
    Json::Str(s.clone())
}

impl Request {
    /// The parameters of the request; `ratio` is the number that stands for
    /// the request's ratio, where it has one.
    pub fn params(&self, ratio: Json) -> (r: Json)
        ensures
            r@ == self@.params(ratio@),
    {
        let ghost rv = ratio@;
        let mut m: Vec<(String, Json)> = Vec::new();
        match self {
            Request::CurrentPane => {
                assert(members_view(m@) =~= seq![]);
            },
            Request::ExportLayout { tab_id } => {
                m.push(member("tab_id", string(tab_id)));
                proof {
                    lemma_members_view(m@);
                    assert(members_view(m@) =~= seq![("tab_id"@, text(tab_id@))]);
                }
            },
            Request::MoveToNewTab { pane_id, workspace_id } => {
                let mut d: Vec<(String, Json)> = Vec::new();
                d.push(member("type", Json::Str("new_tab".to_owned())));
                d.push(member("workspace_id", string(workspace_id)));
                d.push(member("label", Json::Str("dwm-staging".to_owned())));
                proof {
                    lemma_members_view(d@);
                    assert(members_view(d@) =~= seq![
                        ("type"@, text("new_tab"@)),
                        ("workspace_id"@, text(workspace_id@)),
                        ("label"@, text(staging_label())),
                    ]);
                }
                let dest = Json::Object(d);
                m.push(member("pane_id", string(pane_id)));
                m.push(member("destination", dest));
                m.push(member("focus", Json::Bool(false)));
                proof {
                    lemma_members_view(m@);
                    assert(members_view(m@) =~= self@.params(rv)->Object_0);
                }
            },
            Request::MoveToTab { pane_id, tab_id, target_pane_id, direction, ratio: r, focus } => {
                let mut d: Vec<(String, Json)> = Vec::new();
                d.push(member("type", Json::Str("tab".to_owned())));
                d.push(member("tab_id", string(tab_id)));
                d.push(member("split", Json::Str(direction.name().to_owned())));
                d.push(member("target_pane_id", string(target_pane_id)));
                let ghost base = seq![
                    ("type"@, text("tab"@)),
                    ("tab_id"@, text(tab_id@)),
                    ("split"@, text(direction.spec_name())),
                    ("target_pane_id"@, text(target_pane_id@)),
                ];
                if r.is_some() {
                    d.push(member("ratio", ratio));
                    proof {
                        lemma_members_view(d@);
                        assert(members_view(d@) =~= base + seq![("ratio"@, rv)]);
                    }
                } else {
                    proof {
                        lemma_members_view(d@);
                        assert(members_view(d@) =~= base + seq![]);
                    }
                }
                let dest = Json::Object(d);
                m.push(member("pane_id", string(pane_id)));
                m.push(member("destination", dest));
                m.push(member("focus", Json::Bool(*focus)));
                proof {
                    lemma_members_view(m@);
                    assert(members_view(m@) =~= self@.params(rv)->Object_0);
                }
            },
            Request::SplitPane { target_pane_id, towards, cwd } => {
                m.push(member("target_pane_id", string(target_pane_id)));
                m.push(member("direction", string(towards)));
                m.push(member("cwd", crate::json::copy_json(cwd)));
                m.push(member("focus", Json::Bool(true)));
                proof {
                    lemma_members_view(m@);
                    assert(members_view(m@) =~= self@.params(rv)->Object_0);
                }
            },
            Request::SwapPanes { source_pane_id, target_pane_id } => {
                m.push(member("source_pane_id", string(source_pane_id)));
                m.push(member("target_pane_id", string(target_pane_id)));
                proof {
                    lemma_members_view(m@);
                    assert(members_view(m@) =~= self@.params(rv)->Object_0);
                }
            },
            Request::FocusPane { pane_id } => {
                m.push(member("pane_id", string(pane_id)));
                proof {
                    lemma_members_view(m@);
                    assert(members_view(m@) =~= self@.params(rv)->Object_0);
                }
            },
        }
        Json::Object(m)
    }

    /// The line sent for the request with id `request_id`.
    pub fn message(&self, request_id: &str, ratio: Json) -> (r: Json)
        ensures
            r@ == self@.message(request_id@, ratio@),
    {
        let mut m: Vec<(String, Json)> = Vec::new();
        m.push(member("id", Json::Str(request_id.to_owned())));
        m.push(member("method", Json::Str(self.method().to_owned())));
        m.push(member("params", self.params(ratio)));
        proof {
            lemma_members_view(m@);
            assert(members_view(m@) =~= self@.message(request_id@, ratio@)->Object_0);
        }
        Json::Object(m)
    }
}

/// What a line read from the API socket says about a request.
#[derive(Debug)]
pub enum Answer {
    /// The line answers another request.
    Unrelated,
    /// The request failed with this error value.
    Failure(Json),
    /// The request succeeded with this result.
    Success(Json),
    /// The line answers the request but carries neither error nor result.
    Empty,
}

pub enum AnswerView {
    Unrelated,
    Failure(JsonView),
    Success(JsonView),
    Empty,
}

impl View for Answer {
    type V = AnswerView;

    open spec fn view(&self) -> AnswerView {
        match *self {
            Answer::Unrelated => AnswerView::Unrelated,
            Answer::Failure(e) => AnswerView::Failure(e@),
            Answer::Success(r) => AnswerView::Success(r@),
            Answer::Empty => AnswerView::Empty,
        }
    }
}

/// What `response` says about the request with id `request_id`: a response
/// whose `id` is not that text answers another request; otherwise its
/// `error`, if it has one, else its `result`.
pub open spec fn spec_answer(response: JsonView, request_id: Seq<char>) -> AnswerView {
    if response.text_member("id"@) != Some(request_id) {
        AnswerView::Unrelated
    } else {
        match response.member("error"@) {
            Some(e) => AnswerView::Failure(e),
            None => match response.member("result"@) {
                Some(r) => AnswerView::Success(r),
                None => AnswerView::Empty,
            },
        }
    }
}

/// What `response` says about the request with id `request_id`.
pub fn answer(response: &Json, request_id: &str) -> (r: Answer)
    ensures
        r@ == spec_answer(response@, request_id@),
{
    let ours = match response.get("id") {
        Some(id) => match id.as_str() {
            Some(s) => crate::json::same_text(s.as_str(), request_id),
            None => false,
        },
        None => false,
    };
    if !ours {
        return Answer::Unrelated;
    }
    match response.get("error") {
        Some(e) => Answer::Failure(crate::json::copy_json(e)),
        None => match response.get("result") {
            Some(r) => Answer::Success(crate::json::copy_json(r)),
            None => Answer::Empty,
        },
    }
}

} // verus!
