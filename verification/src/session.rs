//! The stages of a run before the probing starts, in the order in which
//! they can end it: too few arguments, an unreachable base URL, a token that
//! is no flag, an unreadable wordlist. Each stage hands the caller what it
//! must find out next and takes the answer.

use crate::cli::{
    apply_flags, first_unknown_flag, flag_at, flag_count, flags_known, parse_flags, Halt, HaltView,
};
use crate::dispatch::{targets_of, Dispatcher, PlanView};
use crate::filter::{FilterConfig, FilterView};
use crate::probe::{is_valid_url, reachable};
use crate::text::lines_of;
use vstd::prelude::*;

verus! {

/// A run that waits for the reachability check of its base URL.
#[derive(Debug)]
pub struct UrlCheck {
    args: Vec<String>,
}

impl View for UrlCheck {
    type V = Seq<Seq<char>>;

    /// The command line, program name first.
    closed spec fn view(&self) -> Seq<Seq<char>> {
        self.args.deep_view()
    }
}

/// A run that waits for the contents of its wordlist file.
#[derive(Debug)]
pub struct WordlistRead {
    base_url: String,
    wordlist_path: String,
    filter: FilterConfig,
}

/// A `WordlistRead` over plain values.
pub struct WordlistReadView {
    pub base_url: Seq<char>,
    pub wordlist_path: Seq<char>,
    pub filter: FilterView,
}

impl View for WordlistRead {
    type V = WordlistReadView;

    closed spec fn view(&self) -> WordlistReadView {
        WordlistReadView {
            base_url: self.base_url@,
            wordlist_path: self.wordlist_path@,
            filter: self.filter@,
        }
    }
}

/// A run that is ready to probe.
#[derive(Debug)]
pub struct Run {
    pub filter: FilterConfig,
    pub dispatcher: Dispatcher,
}

/// Starts a run from its command line, program name first. With fewer than
/// two arguments after the program name the run ends with the usage line.
pub fn begin(args: Vec<String>) -> (outcome: Result<UrlCheck, Halt>)
    ensures
        match outcome {
            Ok(check) => args.len() >= 3 && check@ == args.deep_view(),
            Err(halt) => args.len() < 3 && halt@ == HaltView::Usage,
        },
{
    if args.len() < 3 {
        Err(Halt::Usage)
    } else {
        Ok(UrlCheck { args })
    }
}

impl UrlCheck {
    #[verifier::type_invariant]
    spec fn inv(&self) -> bool {
        self.args.len() >= 3
    }

    /// The base URL, whose reachability is to be checked.
    pub fn url(&self) -> (url: &str)
        ensures
            self@.len() >= 3,
            url@ == self@[1],
    {
        proof {
            use_type_invariant(self);
        }
        assert(self.args.deep_view()[1] == self.args[1]@);
        self.args[1].as_str()
    }

    /// Takes the outcome of the reachability check: the status code of the
    /// answer, or `None` where there was none. An unreachable base URL ends
    /// the run, before the flags are looked at. Otherwise the flags are
    /// read, and the first token in flag position that is no flag ends the
    /// run.
    pub fn resolve(self, head_status: Option<u16>) -> (outcome: Result<WordlistRead, Halt>)
        ensures
            self@.len() >= 3,
            match outcome {
                Ok(next) => {
                    &&& reachable(head_status)
                    &&& flags_known(self@, flag_count(self@))
                    &&& next@ == WordlistReadView {
                        base_url: self@[1],
                        wordlist_path: self@[2],
                        filter: apply_flags(self@, flag_count(self@)),
                    }
                },
                Err(halt) => if reachable(head_status) {
                    exists|k: int|
                        first_unknown_flag(self@, k) && halt@ == HaltView::InvalidFlag(
                            #[trigger] flag_at(self@, k),
                        )
                } else {
                    halt@ == HaltView::UnreachableHost
                },
            },
    {
        proof {
            use_type_invariant(&self);
        }
        if !is_valid_url(head_status) {
            return Err(Halt::UnreachableHost);
        }
        match parse_flags(&self.args) {
            Ok(filter) => {
                assert(self.args.deep_view()[1] == self.args[1]@);
                assert(self.args.deep_view()[2] == self.args[2]@);
                Ok(
                    WordlistRead {
                        base_url: self.args[1].clone(),
                        wordlist_path: self.args[2].clone(),
                        filter,
                    },
                )
            },
            Err(halt) => Err(halt),
        }
    }
}

impl WordlistRead {
    /// The path of the wordlist file, which is to be read.
    pub fn path(&self) -> (path: &str)
        ensures
            path@ == self@.wordlist_path,
    {
        self.wordlist_path.as_str()
    }

    /// Takes the contents of the wordlist file, or `None` where it could not
    /// be read, which ends the run. Otherwise the run is ready: one probe is
    /// planned for each line of the wordlist, and none is launched yet.
    pub fn resolve(self, contents: Option<String>) -> (outcome: Result<Run, Halt>)
        ensures
            match outcome {
                Ok(run) => contents matches Some(text) && run.filter@ == self@.filter
                    && run.dispatcher@ == PlanView::initial(
                    targets_of(self@.base_url, lines_of(text@)),
                ),
                Err(halt) => contents is None && halt@ == HaltView::UnreadableWordlist,
            },
    {
        match contents {
            Some(text) => {
                let dispatcher = Dispatcher::new(self.base_url.as_str(), text.as_str());
                Ok(Run { filter: self.filter, dispatcher })
            },
            None => Err(Halt::UnreadableWordlist),
        }
    }
}

} // verus!
