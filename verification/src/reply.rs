//! Reading Herdr's replies: typed results, the BSP layout tree and the
//! focused pane's identity, with the errors each reading can end in.
use crate::json::{copy_json, first_with_key, same_text, Json, JsonView};
use vstd::prelude::*;

verus! {

/// The result types that the requests of this plugin expect back.
#[derive(Clone, Copy, Debug, PartialEq, Eq, Structural)]
pub enum ReplyKind {
    PaneCurrent,
    LayoutExport,
    PaneMove,
    PaneInfo,
}

impl ReplyKind {
    pub open spec fn spec_name(self) -> Seq<char> {
        match self {
            ReplyKind::PaneCurrent => "pane_current"@,
            ReplyKind::LayoutExport => "layout_export"@,
            ReplyKind::PaneMove => "pane_move"@,
            ReplyKind::PaneInfo => "pane_info"@,
        }
    }

    /// The value of the reply's `type` member.
    pub fn name(&self) -> (r: &'static str)
        ensures
            r@ == self.spec_name(),
    {
        match self {
            ReplyKind::PaneCurrent => "pane_current",
            ReplyKind::LayoutExport => "layout_export",
            ReplyKind::PaneMove => "pane_move",
            ReplyKind::PaneInfo => "pane_info",
        }
    }
}

/// Members whose absence is reported by name.
#[derive(Clone, Copy, Debug, PartialEq, Eq, Structural)]
pub enum Field {
    Pane,
    Layout,
    MoveResult,
    Root,
    First,
    Second,
    FocusedPaneId,
    PaneId,
    WorkspaceId,
    TabId,
}

impl Field {
    pub open spec fn spec_key(self) -> Seq<char> {
        match self {
            Field::Pane => "pane"@,
            Field::Layout => "layout"@,
            Field::MoveResult => "move_result"@,
            Field::Root => "root"@,
            Field::First => "first"@,
            Field::Second => "second"@,
            Field::FocusedPaneId => "focused_pane_id"@,
            Field::PaneId => "pane_id"@,
            Field::WorkspaceId => "workspace_id"@,
            Field::TabId => "tab_id"@,
        }
    }

    /// The member's key.
    pub fn key(&self) -> (r: &'static str)
        ensures
            r@ == self.spec_key(),
    {
        match self {
            Field::Pane => "pane",
            Field::Layout => "layout",
            Field::MoveResult => "move_result",
            Field::Root => "root",
            Field::First => "first",
            Field::Second => "second",
            Field::FocusedPaneId => "focused_pane_id",
            Field::PaneId => "pane_id",
            Field::WorkspaceId => "workspace_id",
            Field::TabId => "tab_id",
        }
    }
}

/// Why an action failed.
#[derive(Debug)]
pub enum Error {
    /// The request itself failed; the text is the client's message.
    Api(String),
    /// A reply's `type` was not the expected one.
    UnexpectedReply { expected: ReplyKind, received: Json },
    /// A value lacked a member that the logic needs.
    MissingField { field: Field, value: Json },
    /// A layout node was neither a pane nor a split.
    InvalidNodeType { found: Option<String>, node: Json },
    /// The current pane lacked one of its identifiers.
    CurrentPaneLacks(Field),
    /// The pane created by a split had no textual id.
    NewPaneIdNotString,
    /// The layout's focused pane id was not text.
    FocusedPaneIdNotString,
    /// Moving a pane to a new tab did not report the tab that was created.
    NoStagingTab,
}

pub enum ErrorView {
    Api(Seq<char>),
    UnexpectedReply { expected: ReplyKind, received: JsonView },
    MissingField { field: Field, value: JsonView },
    InvalidNodeType { found: Option<Seq<char>>, node: JsonView },
    CurrentPaneLacks(Field),
    NewPaneIdNotString,
    FocusedPaneIdNotString,
    NoStagingTab,
}

pub open spec fn opt_text(s: Option<String>) -> Option<Seq<char>> {
    match s {
        Some(t) => Some(t@),
        None => None,
    }
}

impl View for Error {
    type V = ErrorView;

    open spec fn view(&self) -> ErrorView {
        match *self {
            Error::Api(m) => ErrorView::Api(m@),
            Error::UnexpectedReply { expected, received } => ErrorView::UnexpectedReply {
                expected,
                received: received@,
            },
            Error::MissingField { field, value } => ErrorView::MissingField { field, value: value@ },
            Error::InvalidNodeType { found, node } => ErrorView::InvalidNodeType {
                found: opt_text(found),
                node: node@,
            },
            Error::CurrentPaneLacks(f) => ErrorView::CurrentPaneLacks(f),
            Error::NewPaneIdNotString => ErrorView::NewPaneIdNotString,
            Error::FocusedPaneIdNotString => ErrorView::FocusedPaneIdNotString,
            Error::NoStagingTab => ErrorView::NoStagingTab,
        }
    }
}

/// The texts of a list of strings.
pub open spec fn texts(v: Seq<String>) -> Seq<Seq<char>> {
    v.map_values(|s: String| s@)
}

pub open spec fn json_result_view(r: Result<Json, Error>) -> Result<JsonView, ErrorView> {
    match r {
        Ok(j) => Ok(j@),
        Err(e) => Err(e@),
    }
}

pub open spec fn ids_result_view(r: Result<Vec<String>, Error>) -> Result<
    Seq<Seq<char>>,
    ErrorView,
> {
    match r {
        Ok(v) => Ok(texts(v@)),
        Err(e) => Err(e@),
    }
}

/// The member `field` of `value`, or the error that names it.
pub open spec fn spec_field(value: JsonView, field: Field) -> Result<JsonView, ErrorView> {
    match value.member(field.spec_key()) {
        Some(v) => Ok(v),
        None => Err(ErrorView::MissingField { field, value }),
    }
}

/// A reply of kind `expected`, and its member `field`.
pub open spec fn spec_typed_field(reply: JsonView, expected: ReplyKind, field: Field) -> Result<
    JsonView,
    ErrorView,
> {
    if reply.text_member("type"@) != Some(expected.spec_name()) {
        Err(ErrorView::UnexpectedReply { expected, received: reply })
    } else {
        spec_field(reply, field)
    }
}

/// A member found in a value is smaller than the value.
pub proof fn lemma_member_smaller(value: JsonView, key: Seq<char>)
    ensures
        value.member(key) matches Some(v) ==> decreases_to!(value => v),
{
    if let JsonView::Object(members) = value {
        if exists|i: int| first_with_key(members, key, i) {
            let i = choose|i: int| first_with_key(members, key, i);
            assert(decreases_to!(value => members));
            assert(decreases_to!(members => members[i]));
            assert(decreases_to!(members[i] => members[i].1));
        }
    }
}

/// The pane ids of a layout node, leaves in order from the first child to the
/// second; a pane without a textual id contributes nothing.
pub open spec fn layout_leaves(node: JsonView) -> Result<Seq<Seq<char>>, ErrorView>
    decreases node,
{
    let kind = node.text_member("type"@);
    if kind == Some("pane"@) {
        Ok(
            match node.text_member(Field::PaneId.spec_key()) {
                Some(id) => seq![id],
                None => Seq::empty(),
            },
        )
    } else if kind == Some("split"@) {
        match node.member(Field::First.spec_key()) {
            None => Err(ErrorView::MissingField { field: Field::First, value: node }),
            Some(first) => {
                proof {
                    lemma_member_smaller(node, Field::First.spec_key());
                }
                match layout_leaves(first) {
                    Err(e) => Err(e),
                    Ok(a) => match node.member(Field::Second.spec_key()) {
                        None => Err(ErrorView::MissingField { field: Field::Second, value: node }),
                        Some(second) => {
                            proof {
                                lemma_member_smaller(node, Field::Second.spec_key());
                            }
                            match layout_leaves(second) {
                                Err(e) => Err(e),
                                Ok(b) => Ok(a + b),
                            }
                        },
                    },
                }
            },
        }
    } else {
        Err(ErrorView::InvalidNodeType { found: kind, node })
    }
}

/// The pane ids of an exported layout: the leaves of its `root`.
pub open spec fn spec_layout_pane_ids(layout: JsonView) -> Result<Seq<Seq<char>>, ErrorView> {
    match spec_field(layout, Field::Root) {
        Ok(root) => layout_leaves(root),
        Err(e) => Err(e),
    }
}

/// The member `field` of `value`.
pub fn field<'a>(value: &'a Json, name: Field) -> (r: Result<&'a Json, Error>)
    ensures
        match spec_field(value@, name) {
            Ok(v) => r is Ok && r->Ok_0@ == v,
            Err(e) => r is Err && r->Err_0@ == e,
        },
{
    match value.get(name.key()) {
        Some(v) => Ok(v),
        None => Err(Error::MissingField { field: name, value: copy_json(value) }),
    }
}

/// The member `field` of a reply whose `type` must be `expected`.
pub fn typed_field(reply: Json, expected: ReplyKind, field_name: Field) -> (r: Result<Json, Error>)
    ensures
        json_result_view(r) == spec_typed_field(reply@, expected, field_name),
{
    let matches = match reply.get("type") {
        Some(t) => match t.as_str() {
            Some(s) => same_text(s.as_str(), expected.name()),
            None => false,
        },
        None => false,
    };
    if !matches {
        return Err(Error::UnexpectedReply { expected, received: reply });
    }
    match field(&reply, field_name) {
        Ok(v) => Ok(copy_json(v)),
        Err(e) => Err(e),
    }
}

/// The pane ids of a layout node, in BSP order.
pub fn pane_ids(node: &Json) -> (r: Result<Vec<String>, Error>)
    ensures
        ids_result_view(r) == layout_leaves(node@),
    decreases node,
{
    let kind: Option<&String> = match node.get("type") {
        Some(t) => t.as_str(),
        None => None,
    };
    let is_pane = match kind {
        Some(k) => same_text(k.as_str(), "pane"),
        None => false,
    };
    let is_split = match kind {
        Some(k) => same_text(k.as_str(), "split"),
        None => false,
    };
    if is_pane {
        let mut ids: Vec<String> = Vec::new();
        match node.get(Field::PaneId.key()) {
            Some(v) => match v.as_str() {
                Some(id) => {
                    ids.push(id.clone());
                },
                None => {},
            },
            None => {},
        }
        proof {
            assert(texts(ids@) =~= match node@.text_member(Field::PaneId.spec_key()) {
                Some(id) => seq![id],
                None => Seq::<Seq<char>>::empty(),
            });
        }
        Ok(ids)
    } else if is_split {
        let first = match node.get(Field::First.key()) {
            Some(f) => f,
            None => {
                return Err(Error::MissingField { field: Field::First, value: copy_json(node) });
            },
        };
        let mut ids = match pane_ids(first) {
            Ok(ids) => ids,
            Err(e) => {
                return Err(e);
            },
        };
        let second = match node.get(Field::Second.key()) {
            Some(s) => s,
            None => {
                return Err(Error::MissingField { field: Field::Second, value: copy_json(node) });
            },
        };
        let mut rest = match pane_ids(second) {
            Ok(ids) => ids,
            Err(e) => {
                return Err(e);
            },
        };
        let ghost a = ids@;
        let ghost b = rest@;
        ids.append(&mut rest);
        proof {
            assert(texts(ids@) =~= texts(a) + texts(b));
        }
        Ok(ids)
    } else {
        let found = match kind {
            Some(k) => Some(k.clone()),
            None => None,
        };
        Err(Error::InvalidNodeType { found, node: copy_json(node) })
    }
}

/// The pane ids of an exported layout, in BSP order.
pub fn layout_pane_ids(layout: &Json) -> (r: Result<Vec<String>, Error>)
    ensures
        ids_result_view(r) == spec_layout_pane_ids(layout@),
{
    match field(layout, Field::Root) {
        Ok(root) => pane_ids(root),
        Err(e) => Err(e),
    }
}

} // verus!
