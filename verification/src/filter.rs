//! Filters, the steps of the editing pipeline that the user builds up, and
//! the list that holds them.
use vstd::prelude::*;
use crate::number::{decimal, lemma_parse_decimal_roundtrip, parse_usize, parse_usize_spec, usize_to_decimal, IntErrorKind};

verus! {

/// One step of the pipeline: it narrows down the text that later edits see.
#[derive(Clone, Debug, PartialEq, Eq)]
pub enum Filter {
    /// The lines from `x` up to `y`.
    Line { x: usize, y: usize },
    /// The text between the characters `start` and `end`.
    Between { start: char, end: char },
    /// The text that contains `char`.
    Containing { char: String },
    /// No filter: what a creator gives when it made none.
    NoFilter,
}

/// One line of a buffer, numbered from 0 in the order it was read.
#[derive(Clone, Debug)]
pub struct Line {
    pub index: usize,
    pub content: String,
}

/// The string view of a list of key/value pairs.
pub open spec fn pairs_view(v: Seq<(String, String)>) -> Seq<(Seq<char>, Seq<char>)> {
    v.map_values(|p: (String, String)| (p.0@, p.1@))
}

/// Whether a filter can be described by key/value pairs.
pub open spec fn has_fields(f: Filter) -> bool {
    f is Line || f is Between
}

/// The key/value pairs that describe a line or between filter, in order.
pub open spec fn filter_fields(f: Filter) -> Seq<(Seq<char>, Seq<char>)> {
    match f {
        Filter::Line { x, y } => seq![
            (seq!['x'], decimal(x as nat)),
            (seq!['y'], decimal(y as nat)),
            (seq!['t', 'y', 'p', 'e'], seq!['L', 'i', 'n', 'e']),
        ],
        Filter::Between { start, end } => seq![
            (seq!['l', 'e', 'f', 't', '_', 'c', 'h', 'a', 'r'], seq![start]),
            (seq!['r', 'i', 'g', 'h', 't', '_', 'c', 'h', 'a', 'r'], seq![end]),
            (seq!['t', 'y', 'p', 'e'], seq!['B', 'e', 't', 'w', 'e', 'e', 'n', '`']),
        ],
        _ => Seq::empty(),
    }
}

/// The one-character text of `c`.
#[verifier::external_body]
fn char_to_string(c: char) -> (s: String)
    ensures
        s@ == seq![c],
{
    c.to_string()
}

/// A key/value pair of texts.
fn pair(key: &str, value: String) -> (p: (String, String))
    ensures
        p.0@ == key@,
        p.1@ == value@,
{
    (String::from_str(key), value)
}

impl Filter {
    /// The key/value pairs that describe a line or between filter: its two
    /// bounds in order, then its type.
    pub fn to_fields(&self) -> (fields: Vec<(String, String)>)
        requires
            has_fields(*self),
        ensures
            pairs_view(fields@) == filter_fields(*self),
    {
        proof {
            reveal_strlit("x");
            reveal_strlit("y");
            reveal_strlit("type");
            reveal_strlit("Line");
            reveal_strlit("left_char");
            reveal_strlit("right_char");
            reveal_strlit("Between`");
        }
        match self {
            Filter::Line { x, y } => {
                let px = pair("x", usize_to_decimal(*x));
                let py = pair("y", usize_to_decimal(*y));
                let pt = pair("type", String::from_str("Line"));
                assert("x"@ =~= seq!['x']);
                assert("y"@ =~= seq!['y']);
                assert("type"@ =~= seq!['t', 'y', 'p', 'e']);
                assert("Line"@ =~= seq!['L', 'i', 'n', 'e']);
                let fields = vec![px, py, pt];
                assert(pairs_view(fields@) =~= filter_fields(*self));
                fields
            },
            _ => {
                let (start, end) = match self {
                    Filter::Between { start, end } => (*start, *end),
                    _ => { proof { assert(false); } ('a', 'a') },
                };
                let pl = pair("left_char", char_to_string(start));
                let pr = pair("right_char", char_to_string(end));
                let pt = pair("type", String::from_str("Between`"));
                assert("left_char"@ =~= seq!['l', 'e', 'f', 't', '_', 'c', 'h', 'a', 'r']);
                assert("right_char"@ =~= seq!['r', 'i', 'g', 'h', 't', '_', 'c', 'h', 'a', 'r']);
                assert("type"@ =~= seq!['t', 'y', 'p', 'e']);
                assert("Between`"@ =~= seq!['B', 'e', 't', 'w', 'e', 'e', 'n', '`']);
                let fields = vec![pl, pr, pt];
                assert(pairs_view(fields@) =~= filter_fields(*self));
                fields
            },
        }
    }
}

/// Reads the two bounds that the user typed for a line filter, start first.
pub fn line_filter(start: &str, end: &str) -> (res: Result<Filter, IntErrorKind>)
    ensures
        match (parse_usize_spec(start@), parse_usize_spec(end@)) {
            (Err(e), _) => res == Err::<Filter, IntErrorKind>(e),
            (Ok(_), Err(e)) => res == Err::<Filter, IntErrorKind>(e),
            (Ok(x), Ok(y)) => res == Ok::<Filter, IntErrorKind>(Filter::Line { x, y }),
        },
{
    let x = parse_usize(start)?;
    let y = parse_usize(end)?;
    Ok(Filter::Line { x, y })
}

/// Law: the bounds that `to_fields` writes for a line filter read back as
/// the same bounds, so `line_filter` on them gives the filter again.
pub proof fn lemma_line_fields_read_back(x: usize, y: usize)
    ensures
        parse_usize_spec(filter_fields(Filter::Line { x, y })[0].1) == Ok::<usize, IntErrorKind>(x),
        parse_usize_spec(filter_fields(Filter::Line { x, y })[1].1) == Ok::<usize, IntErrorKind>(y),
{
    lemma_parse_decimal_roundtrip(x);
    lemma_parse_decimal_roundtrip(y);
}

/// Law: a line filter is described by exactly three pairs, keyed `x`, `y`
/// and `type` in that order; the `x` pair holds the decimal text of `x`, the
/// `y` pair that of `y`, and the `type` pair the text `Line`. Whatever the
/// bounds, the pair keyed `x` reads back as `x` and the pair keyed `y` as `y`.
pub proof fn lemma_line_fields_are_keyed(x: usize, y: usize)
    ensures
        filter_fields(Filter::Line { x, y }).len() == 3,
        filter_fields(Filter::Line { x, y })[0] == (seq!['x'], decimal(x as nat)),
        filter_fields(Filter::Line { x, y })[1] == (seq!['y'], decimal(y as nat)),
        filter_fields(Filter::Line { x, y })[2] == (
            seq!['t', 'y', 'p', 'e'],
            seq!['L', 'i', 'n', 'e'],
        ),
        forall|i: int|
            0 <= i < filter_fields(Filter::Line { x, y }).len() && #[trigger] filter_fields(
                Filter::Line { x, y },
            )[i].0 == seq!['x'] ==> parse_usize_spec(filter_fields(Filter::Line { x, y })[i].1)
                == Ok::<usize, IntErrorKind>(x),
        forall|i: int|
            0 <= i < filter_fields(Filter::Line { x, y }).len() && #[trigger] filter_fields(
                Filter::Line { x, y },
            )[i].0 == seq!['y'] ==> parse_usize_spec(filter_fields(Filter::Line { x, y })[i].1)
                == Ok::<usize, IntErrorKind>(y),
{
    lemma_parse_decimal_roundtrip(x);
    lemma_parse_decimal_roundtrip(y);
    let f = filter_fields(Filter::Line { x, y });
    assert(seq!['x'] != seq!['y']) by {
        assert(seq!['x'][0] != seq!['y'][0]);
    }
    assert(seq!['x'] != seq!['t', 'y', 'p', 'e']);
    assert(seq!['y'] != seq!['t', 'y', 'p', 'e']);
}

/// Law: a between filter is described by exactly three pairs, keyed
/// `left_char`, `right_char` and `type` in that order; the `left_char` pair
/// holds the one-character text of `start` and the `right_char` pair that of
/// `end`, for all characters, equal ones included.
pub proof fn lemma_between_fields_are_keyed(start: char, end: char)
    ensures
        filter_fields(Filter::Between { start, end }).len() == 3,
        filter_fields(Filter::Between { start, end })[0] == (
            seq!['l', 'e', 'f', 't', '_', 'c', 'h', 'a', 'r'],
            seq![start],
        ),
        filter_fields(Filter::Between { start, end })[1] == (
            seq!['r', 'i', 'g', 'h', 't', '_', 'c', 'h', 'a', 'r'],
            seq![end],
        ),
        filter_fields(Filter::Between { start, end })[2] == (
            seq!['t', 'y', 'p', 'e'],
            seq!['B', 'e', 't', 'w', 'e', 'e', 'n', '`'],
        ),
{
}

/// Numbers the lines that were read, from 0.
pub fn number_lines(contents: Vec<String>) -> (lines: Vec<Line>)
    ensures
        lines@.len() == contents@.len(),
        forall|i: int|
            0 <= i < lines@.len() ==> #[trigger] lines@[i].index == i && lines@[i].content
                == contents@[i],
{
    let mut lines: Vec<Line> = Vec::new();
    let mut i: usize = 0;
    let n = contents.len();
    while i < n
        invariant
            n == contents@.len(),
            i <= n,
            lines@.len() == i,
            forall|j: int|
                0 <= j < i ==> #[trigger] lines@[j].index == j && lines@[j].content
                    == contents@[j],
        decreases n - i,
    {
        lines.push(Line { index: i, content: contents[i].clone() });
        i = i + 1;
    }
    lines
}

/// The filters that the user has built up, in the order they were made.
#[derive(Clone, Debug)]
pub struct FilterList {
    inner: Vec<Filter>,
    buffer: Option<i32>,
}

impl Default for FilterList {
    fn default() -> (list: Self)
        ensures
            list.filters() == Seq::<Filter>::empty(),
            list.buffer() is None,
    {
        FilterList { inner: Vec::new(), buffer: None }
    }
}

impl FilterList {
    /// The filters, oldest first.
    pub closed spec fn filters(&self) -> Seq<Filter> {
        self.inner@
    }

    /// The handle of the buffer that the filters apply to, if one was chosen.
    pub closed spec fn buffer(&self) -> Option<i32> {
        self.buffer
    }

    /// An empty list with no buffer.
    pub fn new() -> (list: Self)
        ensures
            list.filters() == Seq::<Filter>::empty(),
            list.buffer() is None,
    {
        FilterList { inner: Vec::new(), buffer: None }
    }

    /// Appends `filter` after the others.
    pub fn add(&mut self, filter: Filter)
        ensures
            final(self).filters() == old(self).filters().push(filter),
            final(self).buffer() == old(self).buffer(),
    {
        self.inner.push(filter);
    }

    /// The filters, oldest first.
    pub fn inner(&self) -> (filters: &Vec<Filter>)
        ensures
            filters@ == self.filters(),
    {
        &self.inner
    }

    /// The handle of the buffer that the filters apply to, if one was chosen.
    pub fn buffer_handle(&self) -> (handle: Option<i32>)
        ensures
            handle == self.buffer(),
    {
        self.buffer
    }

    /// Takes the outcome of making a filter: a new filter is appended, and
    /// the message of a failure is handed back to be shown, the list
    /// unchanged.
    pub fn record(&mut self, created: Result<Filter, String>) -> (report: Option<String>)
        ensures
            match created {
                Ok(f) => {
                    &&& final(self).filters() == old(self).filters().push(f)
                    &&& report is None
                },
                Err(message) => {
                    &&& final(self).filters() == old(self).filters()
                    &&& report == Some(message)
                },
            },
            final(self).buffer() == old(self).buffer(),
    {
        match created {
            Ok(filter) => {
                self.add(filter);
                None
            },
            Err(message) => Some(message),
        }
    }

    /// The key/value pairs of every filter, in order; every filter must be a
    /// line or between filter.
    pub fn to_field_lists(&self) -> (lists: Vec<Vec<(String, String)>>)
        requires
            forall|i: int| 0 <= i < self.filters().len() ==> has_fields(#[trigger] self.filters()[i]),
        ensures
            lists@.len() == self.filters().len(),
            forall|i: int|
                0 <= i < lists@.len() ==> pairs_view(#[trigger] lists@[i]@) == filter_fields(
                    self.filters()[i],
                ),
    {
        let mut lists: Vec<Vec<(String, String)>> = Vec::new();
        let mut i: usize = 0;
        let n = self.inner.len();
        while i < n
            invariant
                n == self.filters().len(),
                i <= n,
                lists@.len() == i,
                forall|j: int| 0 <= j < n ==> has_fields(#[trigger] self.filters()[j]),
                forall|j: int|
                    0 <= j < i ==> pairs_view(#[trigger] lists@[j]@) == filter_fields(
                        self.filters()[j],
                    ),
            decreases n - i,
        {
            lists.push(self.inner[i].to_fields());
            i = i + 1;
        }
        lists
    }
}

} // verus!
