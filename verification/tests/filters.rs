use ned::creator::{filter_creator_mappings, FilterCreator};
use ned::filter::{line_filter, number_lines, Filter, FilterList};
use ned::number::IntErrorKind;

fn pairs(v: &[(&str, &str)]) -> Vec<(String, String)> {
    v.iter().map(|(k, x)| (k.to_string(), x.to_string())).collect()
}

#[test]
fn line_filter_fields() {
    let f = Filter::Line { x: 5, y: 120 };
    assert_eq!(f.to_fields(), pairs(&[("x", "5"), ("y", "120"), ("type", "Line")]));
}

#[test]
fn between_filter_fields_keep_the_type_text() {
    let f = Filter::Between { start: '(', end: ')' };
    assert_eq!(
        f.to_fields(),
        pairs(&[("left_char", "("), ("right_char", ")"), ("type", "Between`")])
    );
}

#[test]
fn between_filter_fields_of_wide_characters() {
    let f = Filter::Between { start: 'é', end: '\n' };
    assert_eq!(
        f.to_fields(),
        pairs(&[("left_char", "é"), ("right_char", "\n"), ("type", "Between`")])
    );
}

#[test]
fn line_filter_reads_both_bounds() {
    assert_eq!(line_filter("5", "9"), Ok(Filter::Line { x: 5, y: 9 }));
    assert_eq!(line_filter("9", "5"), Ok(Filter::Line { x: 9, y: 5 }));
}

#[test]
fn line_filter_reports_the_start_first() {
    assert_eq!(line_filter("", "x"), Err(IntErrorKind::Empty));
    assert_eq!(line_filter("a", ""), Err(IntErrorKind::InvalidDigit));
    assert_eq!(line_filter("3", ""), Err(IntErrorKind::Empty));
}

#[test]
fn line_fields_read_back_as_the_same_filter() {
    let f = Filter::Line { x: 17, y: usize::MAX };
    let fields = f.to_fields();
    assert_eq!(line_filter(&fields[0].1, &fields[1].1), Ok(f));
}

#[test]
fn lines_are_numbered_from_zero() {
    let lines = number_lines(vec!["a".to_string(), "b".to_string(), "".to_string()]);
    assert_eq!(lines.len(), 3);
    for (i, l) in lines.iter().enumerate() {
        assert_eq!(l.index, i);
    }
    assert_eq!(lines[0].content, "a");
    assert_eq!(lines[1].content, "b");
    assert_eq!(lines[2].content, "");
    assert!(number_lines(Vec::new()).is_empty());
}

#[test]
fn filter_list_starts_empty_and_appends() {
    let mut list = FilterList::default();
    assert!(list.inner().is_empty());
    assert_eq!(list.buffer_handle(), None);
    list.add(Filter::NoFilter);
    list.add(Filter::Containing { char: "x".to_string() });
    assert_eq!(
        list.inner(),
        &vec![Filter::NoFilter, Filter::Containing { char: "x".to_string() }]
    );
    assert!(FilterList::new().inner().is_empty());
}

#[test]
fn filter_list_records_outcomes() {
    let mut list = FilterList::new();
    assert_eq!(list.record(Ok(Filter::Line { x: 1, y: 2 })), None);
    assert_eq!(list.record(Err("bad input".to_string())), Some("bad input".to_string()));
    assert_eq!(list.inner(), &vec![Filter::Line { x: 1, y: 2 }]);
}

#[test]
fn filter_list_field_lists() {
    let mut list = FilterList::new();
    list.add(Filter::Line { x: 0, y: 3 });
    list.add(Filter::Between { start: 'a', end: 'b' });
    assert_eq!(
        list.to_field_lists(),
        vec![
            pairs(&[("x", "0"), ("y", "3"), ("type", "Line")]),
            pairs(&[("left_char", "a"), ("right_char", "b"), ("type", "Between`")]),
        ]
    );
    assert!(FilterList::new().to_field_lists().is_empty());
}

#[test]
fn creator_keys() {
    let table = filter_creator_mappings();
    assert_eq!(
        table,
        vec![
            ("l".to_string(), FilterCreator::Lines),
            ("c".to_string(), FilterCreator::Containing),
            ("i".to_string(), FilterCreator::TestInsert),
            ("p".to_string(), FilterCreator::ShowFilterList),
        ]
    );
}
