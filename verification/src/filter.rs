//! Response filters: which probe results are kept out of the output.

use std::collections::HashSet;
use vstd::prelude::*;

verus! {

/// What a filter configuration means: an optional content length and a set
/// of status codes, each of which suppresses the responses that match it.
pub struct FilterView {
    pub content_length: Option<u64>,
    pub status_codes: Set<u16>,
}

impl FilterView {
    /// The configuration that suppresses nothing.
    pub open spec fn empty() -> FilterView {
        FilterView { content_length: None, status_codes: Set::empty() }
    }

    /// The same filters with `code` among the filtered status codes.
    pub open spec fn with_status_code(self, code: u16) -> FilterView {
        FilterView { content_length: self.content_length, status_codes: self.status_codes.insert(code) }
    }

    /// A response is suppressed when its status code is filtered, or when a
    /// length filter is set and the response carries exactly that length.
    pub open spec fn suppresses(self, status_code: u16, content_length: Option<u64>) -> bool {
        ||| self.status_codes.contains(status_code)
        ||| (self.content_length is Some && self.content_length == content_length)
    }
}

/// The active filters of one run.
#[derive(Debug)]
pub struct FilterConfig {
    pub content_length: Option<u64>,
    pub status_codes: HashSet<u16>,
}

impl View for FilterConfig {
    type V = FilterView;

    open spec fn view(&self) -> FilterView {
        FilterView { content_length: self.content_length, status_codes: self.status_codes@ }
    }
}

impl FilterConfig {
    /// A configuration without any filter.
    pub fn new() -> (config: FilterConfig)
        ensures
            config@ == FilterView::empty(),
    {
        FilterConfig { content_length: None, status_codes: HashSet::new() }
    }

    /// Adds one status code to the filtered set.
    pub fn add_status_code(&mut self, code: u16)
        ensures
            final(self)@ == old(self)@.with_status_code(code),
    {
        self.status_codes.insert(code);
    }
}

/// Decides whether a response is shown.
pub fn should_display(status_code: u16, content_length: Option<u64>, config: &FilterConfig) -> (shown: bool)
    ensures
        shown == !config@.suppresses(status_code, content_length),
{
    if config.status_codes.contains(&status_code) {
        return false;
    }
    match (config.content_length, content_length) {
        (Some(filtered), Some(length)) => filtered != length,
        _ => true,
    }
}

/// Status codes form a set: adding two of them in either order gives the
/// same filters, and adding one a second time changes nothing.
pub proof fn lemma_status_codes_form_a_set(filter: FilterView, a: u16, b: u16)
    ensures
        filter.with_status_code(a).with_status_code(b) == filter.with_status_code(
            b,
        ).with_status_code(a),
        filter.with_status_code(a).with_status_code(a) == filter.with_status_code(a),
{
    assert(filter.status_codes.insert(a).insert(b) =~= filter.status_codes.insert(b).insert(a));
    assert(filter.status_codes.insert(a).insert(a) =~= filter.status_codes.insert(a));
}

} // verus!
