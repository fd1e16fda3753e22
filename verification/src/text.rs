//! Text as sequences of characters: fields between separators and lines.

use vstd::prelude::*;

verus! {

/// Taken on trust from the standard library's documentation, not proved
/// here: `String::push` appends the given character to the end of the
/// string and leaves the characters before it as they were.
pub assume_specification[ String::push ](s: &mut String, c: char)
    ensures
        final(s)@ == old(s)@.push(c),
;

/// The fields of `s` between occurrences of `sep`, read from left to right:
/// a separator closes the current field and opens an empty one, any other
/// character extends the current field. There is always at least one field.
pub open spec fn split_fields(s: Seq<char>, sep: char) -> Seq<Seq<char>>
    decreases s.len(),
{
    if s.len() == 0 {
        seq![Seq::<char>::empty()]
    } else {
        let before = split_fields(s.drop_last(), sep);
        if s.last() == sep {
            before.push(Seq::<char>::empty())
        } else {
            before.drop_last().push(before.last().push(s.last()))
        }
    }
}

/// A line without the carriage return that may end it.
pub open spec fn strip_cr(line: Seq<char>) -> Seq<char> {
    if line.len() > 0 && line.last() == '\r' {
        line.drop_last()
    } else {
        line
    }
}

/// Each of `segments` without its final carriage return.
pub open spec fn strip_all(segments: Seq<Seq<char>>) -> Seq<Seq<char>> {
    Seq::new(segments.len(), |i: int| strip_cr(segments[i]))
}

/// The lines of `text`. A line ends at a line feed, or at a carriage return
/// directly followed by a line feed; neither belongs to the line. What
/// follows the last line feed is a line too, kept as it stands, unless it is
/// empty: a final line ending is optional.
pub open spec fn lines_of(text: Seq<char>) -> Seq<Seq<char>> {
    let segments = split_fields(text, '\n');
    let ended = strip_all(segments.drop_last());
    if segments.last().len() == 0 {
        ended
    } else {
        ended.push(segments.last())
    }
}

/// `fields` written one after the other with `sep` between neighbours.
pub open spec fn join_fields(fields: Seq<Seq<char>>, sep: char) -> Seq<char>
    decreases fields.len(),
{
    if fields.len() == 0 {
        Seq::empty()
    } else if fields.len() == 1 {
        fields[0]
    } else {
        join_fields(fields.drop_last(), sep).push(sep) + fields.last()
    }
}

/// Splitting loses nothing and leaves no separator behind: no field holds
/// the separator, and the fields joined by it are the text that was split.
pub proof fn lemma_split_then_join(s: Seq<char>, sep: char)
    ensures
        split_fields(s, sep).len() >= 1,
        forall|i: int|
            0 <= i < split_fields(s, sep).len() ==> !(#[trigger] split_fields(s, sep)[i]).contains(
                sep,
            ),
        join_fields(split_fields(s, sep), sep) == s,
    decreases s.len(),
{
    let fields = split_fields(s, sep);
    if s.len() == 0 {
        assert(join_fields(fields, sep) =~= s);
    } else {
        let before = split_fields(s.drop_last(), sep);
        lemma_split_then_join(s.drop_last(), sep);
        if s.last() == sep {
            assert(fields.drop_last() =~= before);
            assert(join_fields(fields, sep) =~= s);
        } else {
            let grown = before.last().push(s.last());
            assert forall|j: int| 0 <= j < grown.len() implies grown[j] != sep by {
                if j < before.last().len() {
                    assert(before.last().contains(grown[j]));
                }
            }
            if before.len() == 1 {
                assert(join_fields(fields, sep) =~= s);
            } else {
                assert(fields.drop_last() =~= before.drop_last());
                assert(join_fields(fields, sep) =~= join_fields(before, sep).push(s.last()));
                assert(join_fields(fields, sep) =~= s);
            }
        }
    }
}

/// Splits `s` at every occurrence of `sep`.
pub fn split(s: &str, sep: char) -> (fields: Vec<String>)
    ensures
        fields.deep_view() == split_fields(s@, sep),
{
    let mut fields: Vec<String> = Vec::new();
    let mut cur = String::new();
    assert(s@.take(0) =~= Seq::<char>::empty());
    assert(fields.deep_view().push(cur@) =~= seq![Seq::<char>::empty()]);
    for c in it: s.chars()
        invariant
            it.seq() == s@,
            split_fields(s@.take(it.index() as int), sep) == fields.deep_view().push(cur@),
    {
        let ghost i = it.index() as int;
        let ghost closed = fields.deep_view();
        let ghost open = cur@;
        proof {
            assert(s@.take(i + 1).drop_last() =~= s@.take(i));
            assert(closed.push(open).drop_last() =~= closed);
        }
        if c == sep {
            fields.push(cur);
            cur = String::new();
            assert(fields.deep_view() =~= closed.push(open));
        } else {
            cur.push(c);
        }
    }
    assert(s@.take(s@.len() as int) =~= s@);
    let ghost closed = fields.deep_view();
    fields.push(cur);
    assert(fields.deep_view() =~= closed.push(cur@));
    fields
}

/// Splits `text` into its lines.
pub fn split_lines(text: &str) -> (lines: Vec<String>)
    ensures
        lines.deep_view() == lines_of(text@),
{
    let mut lines: Vec<String> = Vec::new();
    let mut cur = String::new();
    let mut pending_cr = false;
    proof {
        assert(text@.take(0) =~= Seq::<char>::empty());
        assert(split_fields(text@.take(0), '\n').drop_last() =~= Seq::<Seq<char>>::empty());
        assert(lines.deep_view() =~= strip_all(Seq::<Seq<char>>::empty()));
    }
    for c in it: text.chars()
        invariant
            it.seq() == text@,
            split_fields(text@.take(it.index() as int), '\n').len() >= 1,
            split_fields(text@.take(it.index() as int), '\n').last() == (if pending_cr {
                cur@.push('\r')
            } else {
                cur@
            }),
            lines.deep_view() == strip_all(
                split_fields(text@.take(it.index() as int), '\n').drop_last(),
            ),
            !pending_cr ==> cur@.len() == 0 || cur@.last() != '\r',
    {
        let ghost i = it.index() as int;
        let ghost before = split_fields(text@.take(i), '\n');
        let ghost now = split_fields(text@.take(i + 1), '\n');
        let ghost closed = lines.deep_view();
        proof {
            assert(text@.take(i + 1).drop_last() =~= text@.take(i));
        }
        if c == '\n' {
            let ghost line = cur@;
            lines.push(cur);
            cur = String::new();
            pending_cr = false;
            proof {
                assert(now.drop_last() =~= before);
                assert(line.push('\r').drop_last() =~= line);
                assert(strip_cr(before.last()) == line);
                assert(lines.deep_view() =~= closed.push(line));
                assert(strip_all(before) =~= strip_all(before.drop_last()).push(
                    strip_cr(before.last()),
                ));
            }
        } else {
            if pending_cr {
                cur.push('\r');
            }
            if c == '\r' {
                pending_cr = true;
            } else {
                cur.push(c);
                pending_cr = false;
            }
            proof {
                assert(now.drop_last() =~= before.drop_last());
            }
        }
    }
    assert(text@.take(text@.len() as int) =~= text@);
    if pending_cr {
        cur.push('\r');
    }
    if !cur.as_str().is_empty() {
        let ghost closed = lines.deep_view();
        lines.push(cur);
        assert(lines.deep_view() =~= closed.push(cur@));
    }
    lines
}

/// `first` followed by `second`.
pub fn joined(first: &str, second: &str) -> (joined: String)
    ensures
        joined@ == first@ + second@,
{
    let mut joined = String::from_str(first);
    joined.append(second);
    joined
}

} // verus!
