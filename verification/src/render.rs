//! The response renderer: the fixed priority order over the payload's
//! shape decides what a successful response shows; failures show the
//! error text (with a fixed fallback) and exit non-zero. The decision
//! lives here; putting ink on a terminal does not.

use vstd::prelude::*;
use crate::jsonio::{
    json_str_field, json_has_field, json_field_pretty, str_field, has_field, field_pretty,
};
use crate::response::Response;

verus! {

/// What a human-mode invocation prints, already decided: the caller
/// only writes it out, with no further inspection of the payload.
#[derive(Debug, Clone, PartialEq, Eq)]
pub enum Rendering {
    /// The error text, to the error stream; the invocation fails.
    ErrorLine { message: String },
    /// The two-line form: the title, then the dimmed URL.
    TitleUrl { title: String, url: String },
    /// One line of text, verbatim.
    Plain { text: String },
    /// A pretty-printed structured dump.
    ResultDump { pretty: String },
    /// The fixed confirmation that the browser closed.
    ClosedNote,
    /// The fixed generic success message.
    DoneNote,
}

/// The model of a rendering, over character sequences.
pub enum RenderingModel {
    ErrorLine { message: Seq<char> },
    TitleUrl { title: Seq<char>, url: Seq<char> },
    Plain { text: Seq<char> },
    ResultDump { pretty: Seq<char> },
    ClosedNote,
    DoneNote,
}

impl View for Rendering {
    type V = RenderingModel;

    open spec fn view(&self) -> RenderingModel {
        match self {
            Rendering::ErrorLine { message } => RenderingModel::ErrorLine { message: message@ },
            Rendering::TitleUrl { title, url } => RenderingModel::TitleUrl {
                title: title@,
                url: url@,
            },
            Rendering::Plain { text } => RenderingModel::Plain { text: text@ },
            Rendering::ResultDump { pretty } => RenderingModel::ResultDump { pretty: pretty@ },
            Rendering::ClosedNote => RenderingModel::ClosedNote,
            Rendering::DoneNote => RenderingModel::DoneNote,
        }
    }
}

/// The renderer's decision: on failure the error text (or the fixed
/// fallback when the daemon broke protocol and sent none); on success
/// the first matching payload shape in the fixed priority order
/// `url` (+`title`), `snapshot`, `title`, `text`, `result`, `closed`;
/// otherwise — no payload at all included — the generic success note.
pub open spec fn spec_render(resp: Response) -> RenderingModel {
    if !resp.success {
        RenderingModel::ErrorLine {
            message: match resp.error {
                Some(e) => e@,
                None => "Unknown error"@,
            },
        }
    } else {
        match resp.data {
            None => RenderingModel::DoneNote,
            Some(d) => {
                if json_str_field(d, "url"@) is Some {
                    if json_str_field(d, "title"@) is Some {
                        RenderingModel::TitleUrl {
                            title: json_str_field(d, "title"@).unwrap(),
                            url: json_str_field(d, "url"@).unwrap(),
                        }
                    } else {
                        RenderingModel::Plain { text: json_str_field(d, "url"@).unwrap() }
                    }
                } else if json_str_field(d, "snapshot"@) is Some {
                    RenderingModel::Plain { text: json_str_field(d, "snapshot"@).unwrap() }
                } else if json_str_field(d, "title"@) is Some {
                    RenderingModel::Plain { text: json_str_field(d, "title"@).unwrap() }
                } else if json_str_field(d, "text"@) is Some {
                    RenderingModel::Plain { text: json_str_field(d, "text"@).unwrap() }
                } else if json_has_field(d, "result"@) {
                    RenderingModel::ResultDump { pretty: json_field_pretty(d, "result"@) }
                } else if json_has_field(d, "closed"@) {
                    RenderingModel::ClosedNote
                } else {
                    RenderingModel::DoneNote
                }
            },
        }
    }
}

/// Decides what a human-mode invocation shows for `resp`.
pub fn render(resp: &Response) -> (r: Rendering)
    ensures
        r@ == spec_render(*resp),
{
    if !resp.success {
        let message = match &resp.error {
            Some(e) => e.clone(),
            None => "Unknown error".to_owned(),
        };
        return Rendering::ErrorLine { message };
    }
    match &resp.data {
        None => Rendering::DoneNote,
        Some(d) => {
            match str_field(d, "url") {
                Some(url) => {
                    match str_field(d, "title") {
                        Some(title) => Rendering::TitleUrl { title, url },
                        None => Rendering::Plain { text: url },
                    }
                },
                None => {
                    match str_field(d, "snapshot") {
                        Some(snapshot) => Rendering::Plain { text: snapshot },
                        None => match str_field(d, "title") {
                            Some(title) => Rendering::Plain { text: title },
                            None => match str_field(d, "text") {
                                Some(text) => Rendering::Plain { text },
                                None => match field_pretty(d, "result") {
                                    Some(pretty) => Rendering::ResultDump { pretty },
                                    None => {
                                        if has_field(d, "closed") {
                                            Rendering::ClosedNote
                                        } else {
                                            Rendering::DoneNote
                                        }
                                    },
                                },
                            },
                        },
                    }
                },
            }
        },
    }
}

/// The process exit code: zero exactly on a successful response.
pub fn exit_code(success: bool) -> (r: u8)
    ensures
        r == 0 <==> success,
        success ==> r == 0,
        !success ==> r == 1,
{
    if success {
        0
    } else {
        1
    }
}

/// Rendering precedence: a payload carrying both `url` and `title`
/// always takes the two-line form, never the single-line URL form.
pub proof fn lemma_render_prefers_title_url(resp: Response)
    requires
        resp.success,
        resp.data matches Some(d) && json_str_field(d, "url"@) is Some && json_str_field(
            d,
            "title"@,
        ) is Some,
    ensures
        spec_render(resp) matches RenderingModel::TitleUrl { title, url } && Some(title)
            == json_str_field(resp.data.unwrap(), "title"@) && Some(url) == json_str_field(
            resp.data.unwrap(),
            "url"@,
        ),
{
}

/// A failure that broke protocol by omitting the error text still
/// renders, with the fixed fallback.
pub proof fn lemma_render_error_fallback(resp: Response)
    requires
        !resp.success,
        resp.error is None,
    ensures
        spec_render(resp) == (RenderingModel::ErrorLine { message: "Unknown error"@ }),
{
}

} // verus!
