//! One probe: its target, what came back, and what is printed for it.

use crate::decimal::{decimal_text, push_decimal};
use crate::filter::{should_display, FilterConfig, FilterView};
use crate::text::joined;
use vstd::prelude::*;

verus! {

/// What a probe learned from a response.
#[derive(Debug, PartialEq, Eq)]
pub struct ProbeResult {
    pub url: String,
    pub status_code: u16,
    pub content_length: Option<u64>,
}

/// A `ProbeResult` over plain text.
pub struct ProbeResultView {
    pub url: Seq<char>,
    pub status_code: u16,
    pub content_length: Option<u64>,
}

impl View for ProbeResult {
    type V = ProbeResultView;

    open spec fn view(&self) -> ProbeResultView {
        ProbeResultView {
            url: self.url@,
            status_code: self.status_code,
            content_length: self.content_length,
        }
    }
}

/// The base URL counts as reachable when the check was answered with a
/// status code below 400. `None` stands for a check that got no answer.
pub open spec fn reachable(head_status: Option<u16>) -> bool {
    head_status matches Some(code) && code < 400
}

/// Decides from the outcome of the reachability check whether the run may
/// go on.
pub fn is_valid_url(head_status: Option<u16>) -> (valid: bool)
    ensures
        valid == reachable(head_status),
{
    match head_status {
        Some(code) => code < 400,
        None => false,
    }
}

/// The URL that is probed for a wordlist entry: the base URL with the entry
/// appended as it stands.
pub fn target_url(base_url: &str, entry: &str) -> (url: String)
    ensures
        url@ == base_url@ + entry@,
{
    joined(base_url, entry)
}

/// The four lines printed for a response that is shown.
pub open spec fn report_lines(url: Seq<char>, status_code: u16, content_length: u64) -> Seq<Seq<char>> {
    seq![
        "URL: "@ + url,
        "Response status code: "@ + decimal_text(status_code as nat),
        "Response content length: "@ + decimal_text(content_length as nat),
        "---------------------------------------"@,
    ]
}

/// What is printed for a probe. Nothing for a probe that got no response,
/// nothing for a response without a content length, whatever the filters
/// are, and nothing for a response that a filter suppresses.
pub open spec fn output_of(outcome: Option<ProbeResultView>, filter: FilterView) -> Seq<Seq<char>> {
    match outcome {
        None => Seq::empty(),
        Some(result) => match result.content_length {
            None => Seq::empty(),
            Some(length) => if filter.suppresses(result.status_code, Some(length)) {
                Seq::empty()
            } else {
                report_lines(result.url, result.status_code, length)
            },
        },
    }
}

/// A response without a content length prints nothing, whatever the
/// filters are and whatever its status code is.
pub proof fn lemma_no_length_no_output(result: ProbeResultView, filter: FilterView)
    requires
        result.content_length is None,
    ensures
        output_of(Some(result), filter) == Seq::<Seq<char>>::empty(),
{
}

/// Renders the report of one response.
pub fn render_report(url: &str, status_code: u16, content_length: u64) -> (lines: Vec<String>)
    ensures
        lines.deep_view() == report_lines(url@, status_code, content_length),
{
    let mut status_line = String::from_str("Response status code: ");
    push_decimal(&mut status_line, status_code as u64);
    let mut length_line = String::from_str("Response content length: ");
    push_decimal(&mut length_line, content_length);
    let mut lines: Vec<String> = Vec::new();
    lines.push(joined("URL: ", url));
    lines.push(status_line);
    lines.push(length_line);
    lines.push(String::from_str("---------------------------------------"));
    assert(lines.deep_view() =~= report_lines(url@, status_code, content_length));
    lines
}

/// The lines to print for a probe, in order; none where the probe stays
/// silent. `None` stands for a probe that got no response.
pub fn probe_output(outcome: &Option<ProbeResult>, filter: &FilterConfig) -> (lines: Vec<String>)
    ensures
        lines.deep_view() == output_of(
            match outcome {
                Some(result) => Some(result@),
                None => None,
            },
            filter@,
        ),
        outcome matches Some(result) && result.content_length is None ==> lines@.len() == 0,
{
    match outcome {
        Some(result) => match result.content_length {
            Some(length) => if should_display(result.status_code, Some(length), filter) {
                render_report(result.url.as_str(), result.status_code, length)
            } else {
                let lines: Vec<String> = Vec::new();
                assert(lines.deep_view() =~= Seq::<Seq<char>>::empty());
                lines
            },
            None => {
                let lines: Vec<String> = Vec::new();
                assert(lines.deep_view() =~= Seq::<Seq<char>>::empty());
                lines
            },
        },
        None => {
            let lines: Vec<String> = Vec::new();
            assert(lines.deep_view() =~= Seq::<Seq<char>>::empty());
            lines
        },
    }
}

} // verus!
