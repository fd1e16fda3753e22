//! The command line: `<URL> <WORDLIST_FILE> [-fl LENGTH] [-sc CODE[,CODE...]]`.

use crate::decimal::{parse_u16, parse_u16_spec, parse_u64, parse_u64_spec};
use crate::filter::{FilterConfig, FilterView};
use crate::text::{split, split_fields};
use vstd::prelude::*;

verus! {

/// The status codes that a comma-separated list names: every field that
/// reads as a `u16`. Fields that do not are passed over.
pub open spec fn status_codes_in(list: Seq<char>) -> Set<u16> {
    Set::new(
        |code: u16|
            exists|i: int|
                0 <= i < split_fields(list, ',').len() && parse_u16_spec(
                    #[trigger] split_fields(list, ',')[i],
                ) == Some(code),
    )
}

/// The status codes among the first `n` of `fields`.
spec fn codes_among(fields: Seq<Seq<char>>, n: int) -> Set<u16> {
    Set::new(
        |code: u16|
            exists|i: int| 0 <= i < n && parse_u16_spec(#[trigger] fields[i]) == Some(code),
    )
}

/// Adds to `config` every status code that `list` names.
pub fn add_status_codes(config: &mut FilterConfig, list: &str)
    ensures
        final(config)@.status_codes == old(config)@.status_codes.union(status_codes_in(list@)),
        final(config)@.content_length == old(config)@.content_length,
{
    let fields = split(list, ',');
    let ghost texts = fields.deep_view();
    let mut i: usize = 0;
    assert(config@.status_codes =~= old(config)@.status_codes.union(codes_among(texts, 0)));
    while i < fields.len()
        invariant
            i <= fields.len(),
            texts == fields.deep_view(),
            config@.status_codes == old(config)@.status_codes.union(codes_among(texts, i as int)),
            config@.content_length == old(config)@.content_length,
        decreases fields.len() - i,
    {
        assert(texts[i as int] == fields[i as int]@);
        match parse_u16(fields[i].as_str()) {
            Some(code) => {
                config.add_status_code(code);
                assert(codes_among(texts, i + 1) =~= codes_among(texts, i as int).insert(code));
            },
            None => {
                assert(codes_among(texts, i + 1) =~= codes_among(texts, i as int));
            },
        }
        i += 1;
        assert(config@.status_codes =~= old(config)@.status_codes.union(
            codes_among(texts, i as int),
        ));
    }
    assert(codes_among(texts, fields.len() as int) =~= status_codes_in(list@));
}

/// Why a run ends before any probe is sent.
#[derive(Debug, PartialEq, Eq)]
pub enum Halt {
    /// Fewer than two positional arguments were given.
    Usage,
    /// The base URL did not answer the reachability check.
    UnreachableHost,
    /// A token in flag position is neither `-fl` nor `-sc`.
    InvalidFlag(String),
    /// The wordlist file could not be read.
    UnreadableWordlist,
}

/// What a `Halt` means, over plain text.
pub enum HaltView {
    Usage,
    UnreachableHost,
    InvalidFlag(Seq<char>),
    UnreadableWordlist,
}

impl View for Halt {
    type V = HaltView;

    open spec fn view(&self) -> HaltView {
        match self {
            Halt::Usage => HaltView::Usage,
            Halt::UnreachableHost => HaltView::UnreachableHost,
            Halt::InvalidFlag(token) => HaltView::InvalidFlag(token@),
            Halt::UnreadableWordlist => HaltView::UnreadableWordlist,
        }
    }
}

impl HaltView {
    /// The line that tells the user why the run ended.
    pub open spec fn message(self) -> Seq<char> {
        match self {
            HaltView::Usage =>
                "Usage: program_name <URL> <WORDLIST_FILE> [-fl FILTER_CONTENT_LENGTH] [-sc FILTER_STATUS_CODES]"@,
            HaltView::UnreachableHost => "Invalid URL or unreachable host."@,
            HaltView::InvalidFlag(token) => "Invalid flag: "@ + token,
            HaltView::UnreadableWordlist => "Failed to read wordlist file."@,
        }
    }
}

impl Halt {
    /// The line to print before the run ends.
    pub fn message(&self) -> (line: String)
        ensures
            line@ == self@.message(),
    {
        match self {
            Halt::Usage => String::from_str(
                "Usage: program_name <URL> <WORDLIST_FILE> [-fl FILTER_CONTENT_LENGTH] [-sc FILTER_STATUS_CODES]",
            ),
            Halt::UnreachableHost => String::from_str("Invalid URL or unreachable host."),
            Halt::InvalidFlag(token) => crate::text::joined("Invalid flag: ", token.as_str()),
            Halt::UnreadableWordlist => String::from_str("Failed to read wordlist file."),
        }
    }
}

/// How many flag tokens `args` holds. Flags stand two apart, each followed
/// by its value; the last one may lack it.
pub open spec fn flag_count(args: Seq<Seq<char>>) -> int {
    if args.len() <= 3 {
        0
    } else {
        (args.len() - 3 + 1) / 2
    }
}

/// The `k`-th flag token.
pub open spec fn flag_at(args: Seq<Seq<char>>, k: int) -> Seq<char> {
    args[3 + 2 * k]
}

/// The value that follows the `k`-th flag token, if the arguments go on
/// that far.
pub open spec fn value_at(args: Seq<Seq<char>>, k: int) -> Option<Seq<char>> {
    if 3 + 2 * k + 1 < args.len() {
        Some(args[3 + 2 * k + 1])
    } else {
        None
    }
}

/// `token` is one of the two flags.
pub open spec fn is_flag(token: Seq<char>) -> bool {
    token == "-fl"@ || token == "-sc"@
}

/// Each of the first `k` flag tokens is a flag.
pub open spec fn flags_known(args: Seq<Seq<char>>, k: int) -> bool {
    forall|j: int| 0 <= j < k ==> is_flag(#[trigger] flag_at(args, j))
}

/// What one flag does to the filters. `-fl` sets the length filter to what
/// its value reads as, and to none where the value is missing or does not
/// read as a `u64`. `-sc` adds the status codes that its value names.
pub open spec fn apply_flag(filter: FilterView, flag: Seq<char>, value: Option<Seq<char>>) -> FilterView {
    if flag == "-fl"@ {
        FilterView {
            content_length: match value {
                Some(text) => parse_u64_spec(text),
                None => None,
            },
            status_codes: filter.status_codes,
        }
    } else if flag == "-sc"@ {
        FilterView {
            content_length: filter.content_length,
            status_codes: match value {
                Some(list) => filter.status_codes.union(status_codes_in(list)),
                None => filter.status_codes,
            },
        }
    } else {
        filter
    }
}

/// The filters after the first `k` flags, applied from left to right to a
/// configuration without filters.
pub open spec fn apply_flags(args: Seq<Seq<char>>, k: int) -> FilterView
    decreases k,
{
    if k <= 0 {
        FilterView::empty()
    } else {
        apply_flag(apply_flags(args, k - 1), flag_at(args, k - 1), value_at(args, k - 1))
    }
}

/// The `k`-th flag token is the first that is not a flag.
pub open spec fn first_unknown_flag(args: Seq<Seq<char>>, k: int) -> bool {
    0 <= k < flag_count(args) && flags_known(args, k) && !is_flag(flag_at(args, k))
}

/// Reads the flags of a command line. `args` is the whole of it, program
/// name first. Every flag token takes the argument after it as its value,
/// whatever that argument is. The result is the filters that the flags ask
/// for, applied from left to right, or the first token in flag position that
/// is not a flag.
pub fn parse_flags(args: &Vec<String>) -> (outcome: Result<FilterConfig, Halt>)
    ensures
        match outcome {
            Ok(config) => flags_known(args.deep_view(), flag_count(args.deep_view())) && config@
                == apply_flags(args.deep_view(), flag_count(args.deep_view())),
            Err(halt) => exists|k: int|
                first_unknown_flag(args.deep_view(), k) && halt@ == HaltView::InvalidFlag(
                    #[trigger] flag_at(args.deep_view(), k),
                ),
        },
{
    let ghost texts = args.deep_view();
    let length_flag = String::from_str("-fl");
    let codes_flag = String::from_str("-sc");
    let mut config = FilterConfig::new();
    let mut i: usize = 3;
    let ghost mut k: int = 0;
    while i < args.len()
        invariant
            texts == args.deep_view(),
            length_flag@ == "-fl"@,
            codes_flag@ == "-sc"@,
            0 <= k <= flag_count(texts),
            i < args.len() ==> i == 3 + 2 * k,
            i >= args.len() ==> k == flag_count(texts),
            flags_known(texts, k),
            config@ == apply_flags(texts, k),
        decreases args.len() - i,
    {
        let ghost before = config@;
        assert(texts[i as int] == args[i as int]@);
        assert(flag_at(texts, k) == args[i as int]@);
        if args[i] == length_flag {
            if i + 1 < args.len() {
                assert(texts[i + 1] == args[i + 1]@);
                config.content_length = parse_u64(args[i + 1].as_str());
            } else {
                config.content_length = None;
            }
            assert(config@ == apply_flag(before, flag_at(texts, k), value_at(texts, k)));
        } else if args[i] == codes_flag {
            if i + 1 < args.len() {
                assert(texts[i + 1] == args[i + 1]@);
                add_status_codes(&mut config, args[i + 1].as_str());
            }
            assert(config@ == apply_flag(before, flag_at(texts, k), value_at(texts, k)));
        } else {
            assert(first_unknown_flag(texts, k));
            return Err(Halt::InvalidFlag(args[i].clone()));
        }
        if args.len() - i > 2 {
            i += 2;
        } else {
            i = args.len();
        }
        proof {
            k = k + 1;
        }
    }
    Ok(config)
}

/// A status code that one list names is named by every list with the same
/// fields in another order.
proof fn lemma_codes_of_fields(list: Seq<char>, other: Seq<char>, code: u16)
    requires
        split_fields(list, ',').to_multiset() == split_fields(other, ',').to_multiset(),
        status_codes_in(list).contains(code),
    ensures
        status_codes_in(other).contains(code),
{
    let fields = split_fields(list, ',');
    let others = split_fields(other, ',');
    let i = choose|i: int| 0 <= i < fields.len() && parse_u16_spec(#[trigger] fields[i]) == Some(code);
    fields.to_multiset_ensures();
    others.to_multiset_ensures();
    assert(fields.contains(fields[i]));
    assert(fields.to_multiset().count(fields[i]) > 0);
    assert(others.to_multiset().count(fields[i]) > 0);
    assert(others.contains(fields[i]));
    let j = choose|j: int| 0 <= j < others.len() && others[j] == fields[i];
    assert(parse_u16_spec(others[j]) == Some(code));
}

/// The order in which a list names its status codes does not matter: two
/// lists whose fields are the same up to their order name the same set of
/// codes, so that filters built from either suppress the same responses.
pub proof fn lemma_status_code_order_irrelevant(first: Seq<char>, second: Seq<char>)
    requires
        split_fields(first, ',').to_multiset() == split_fields(second, ',').to_multiset(),
    ensures
        status_codes_in(first) == status_codes_in(second),
        forall|filter: FilterView, status_code: u16, content_length: Option<u64>|
            #![trigger apply_flag(filter, "-sc"@, Some(first)).suppresses(status_code, content_length)]
            apply_flag(filter, "-sc"@, Some(first)).suppresses(status_code, content_length)
                == apply_flag(filter, "-sc"@, Some(second)).suppresses(
                status_code,
                content_length,
            ),
{
    assert forall|code: u16|
        status_codes_in(first).contains(code) == status_codes_in(second).contains(code) by {
        if status_codes_in(first).contains(code) {
            lemma_codes_of_fields(first, second, code);
        }
        if status_codes_in(second).contains(code) {
            lemma_codes_of_fields(second, first, code);
        }
    }
    assert(status_codes_in(first) =~= status_codes_in(second));
    assert("-sc"@ != "-fl"@) by {
        reveal_strlit("-fl");
        reveal_strlit("-sc");
        assert("-sc"@[1] == 's');
        assert("-fl"@[1] == 'f');
    }
}

} // verus!
