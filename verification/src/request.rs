//! The structured action request the translator produces and the wire
//! codec carries: an id for client-side correlation plus one action
//! out of a fixed enumerated set, with its fields.

use vstd::prelude::*;

verus! {

/// The enumerated actions, each with the fields its wire encoding
/// carries.
#[derive(Debug, Clone, PartialEq, Eq)]
pub enum Action {
    Navigate { url: String },
    Click { selector: String },
    Fill { selector: String, value: String },
    Type { selector: String, text: String },
    Hover { selector: String },
    Snapshot { interactive: bool, compact: bool, max_depth: Option<i32>, selector: Option<String> },
    Screenshot { path: Option<String> },
    Close,
    GetText { selector: String },
    GetUrl,
    GetTitle,
    Press { key: String },
    WaitTimeout { timeout: u64 },
    WaitSelector { selector: String },
    Back,
    Forward,
    Reload,
    Evaluate { script: String },
}

/// The mathematical model of an action: the same shape over character
/// sequences.
pub enum ActionModel {
    Navigate { url: Seq<char> },
    Click { selector: Seq<char> },
    Fill { selector: Seq<char>, value: Seq<char> },
    Type { selector: Seq<char>, text: Seq<char> },
    Hover { selector: Seq<char> },
    Snapshot {
        interactive: bool,
        compact: bool,
        max_depth: Option<i32>,
        selector: Option<Seq<char>>,
    },
    Screenshot { path: Option<Seq<char>> },
    Close,
    GetText { selector: Seq<char> },
    GetUrl,
    GetTitle,
    Press { key: Seq<char> },
    WaitTimeout { timeout: u64 },
    WaitSelector { selector: Seq<char> },
    Back,
    Forward,
    Reload,
    Evaluate { script: Seq<char> },
}

impl View for Action {
    type V = ActionModel;

    open spec fn view(&self) -> ActionModel {
        match self {
            Action::Navigate { url } => ActionModel::Navigate { url: url@ },
            Action::Click { selector } => ActionModel::Click { selector: selector@ },
            Action::Fill { selector, value } => ActionModel::Fill {
                selector: selector@,
                value: value@,
            },
            Action::Type { selector, text } => ActionModel::Type {
                selector: selector@,
                text: text@,
            },
            Action::Hover { selector } => ActionModel::Hover { selector: selector@ },
            Action::Snapshot { interactive, compact, max_depth, selector } => (ActionModel::Snapshot {
                interactive: *interactive,
                compact: *compact,
                max_depth: *max_depth,
                selector: match selector {
                    Some(s) => Some(s@),
                    None => None,
                },
            }),
            Action::Screenshot { path } => (ActionModel::Screenshot {
                path: match path {
                    Some(p) => Some(p@),
                    None => None,
                },
            }),
            Action::Close => ActionModel::Close,
            Action::GetText { selector } => ActionModel::GetText { selector: selector@ },
            Action::GetUrl => ActionModel::GetUrl,
            Action::GetTitle => ActionModel::GetTitle,
            Action::Press { key } => ActionModel::Press { key: key@ },
            Action::WaitTimeout { timeout } => ActionModel::WaitTimeout { timeout: *timeout },
            Action::WaitSelector { selector } => ActionModel::WaitSelector { selector: selector@ },
            Action::Back => ActionModel::Back,
            Action::Forward => ActionModel::Forward,
            Action::Reload => ActionModel::Reload,
            Action::Evaluate { script } => ActionModel::Evaluate { script: script@ },
        }
    }
}

/// One request: the generated id and the action to perform.
#[derive(Debug, Clone, PartialEq, Eq)]
pub struct Request {
    pub id: String,
    pub action: Action,
}

/// The mathematical model of a request.
pub struct RequestModel {
    pub id: Seq<char>,
    pub action: ActionModel,
}

impl View for Request {
    type V = RequestModel;

    open spec fn view(&self) -> RequestModel {
        RequestModel { id: self.id@, action: self.action@ }
    }
}

/// The view of an optional request, for relating executable results to
/// the translation table.
pub open spec fn view_opt_request(r: Option<Request>) -> Option<RequestModel> {
    match r {
        Some(req) => Some(req@),
        None => None,
    }
}

} // verus!
