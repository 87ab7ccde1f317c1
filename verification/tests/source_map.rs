use ts2zig::aot::source_map::{LineCol, SourceMap};
use ts2zig::span::Span;

#[test]
fn empty_source_has_one_line() {
    let map = SourceMap::new("");
    assert_eq!(map.line_count(), 1);
    let (start, end) = map.lookup(Span::new(0, 0));
    assert_eq!(start, LineCol { line: 0, column: 0 });
    assert_eq!(end, LineCol { line: 0, column: 0 });
}

#[test]
fn single_line_no_newline() {
    let map = SourceMap::new("hello");
    assert_eq!(map.line_count(), 1);
    let (start, end) = map.lookup(Span::new(0, 5));
    assert_eq!(start, LineCol { line: 0, column: 0 });
    assert_eq!(end, LineCol { line: 0, column: 5 });
}

#[test]
fn two_lines() {
    let map = SourceMap::new("abc\nde");
    assert_eq!(map.line_count(), 2);
    let (start, end) = map.lookup(Span::new(4, 6));
    assert_eq!(start, LineCol { line: 1, column: 0 });
    assert_eq!(end, LineCol { line: 1, column: 2 });
}

#[test]
fn trailing_newline_records_virtual_empty_line() {
    let map = SourceMap::new("a\nb\nc\n");
    assert_eq!(map.line_count(), 4);
    let (start, _) = map.lookup(Span::new(4, 5));
    assert_eq!(start, LineCol { line: 2, column: 0 });
    let (eof, _) = map.lookup(Span::new(6, 6));
    assert_eq!(eof, LineCol { line: 3, column: 0 });
}

#[test]
fn line_text_strips_crlf() {
    let map = SourceMap::new("aaa\r\nbbb");
    assert_eq!(map.line_text(0), Some("aaa"));
    assert_eq!(map.line_text(1), Some("bbb"));
}

#[test]
fn lookup_middle_of_line() {
    let map = SourceMap::new("hello\nworld\n");
    let (start, _) = map.lookup(Span::new(8, 9));
    assert_eq!(start, LineCol { line: 1, column: 2 });
}

#[test]
fn lookup_out_of_range_clamps_to_last_line() {
    let map = SourceMap::new("ab\ncd");
    let (start, _) = map.lookup(Span::new(100, 105));
    assert_eq!(start.line, 1);
}

#[test]
fn line_text_returns_slice() {
    let map = SourceMap::new("aaa\nbbb\nccc");
    assert_eq!(map.line_text(0), Some("aaa"));
    assert_eq!(map.line_text(1), Some("bbb"));
    assert_eq!(map.line_text(2), Some("ccc"));
}

#[test]
fn line_text_excludes_newline() {
    let map = SourceMap::new("aaa\nbbb");
    assert_eq!(map.line_text(0), Some("aaa"));
    assert_eq!(map.line_text(1), Some("bbb"));
}

#[test]
fn line_text_out_of_range_returns_none() {
    let map = SourceMap::new("aaa");
    assert_eq!(map.line_text(0), Some("aaa"));
    assert_eq!(map.line_text(1), None);
    assert_eq!(map.line_text(99), None);
}

#[test]
fn source_returns_original_text() {
    let map = SourceMap::new("hello world");
    assert_eq!(map.source(), "hello world");
}

#[test]
fn line_count_is_newlines_plus_one() {
    let map = SourceMap::new("\n\n\n");
    assert_eq!(map.line_count(), 4);
    assert_eq!(map.line_text(0), Some(""));
    assert_eq!(map.line_text(3), Some(""));
}

#[test]
fn multibyte_text_counts_bytes() {
    let map = SourceMap::new("é\nx");
    let (start, _) = map.lookup(Span::new(3, 4));
    assert_eq!(start, LineCol { line: 1, column: 0 });
    assert_eq!(map.line_text(0), Some("é"));
    assert_eq!(map.line_text(1), Some("x"));
}

#[test]
fn lone_carriage_return_is_kept_on_last_line() {
    let map = SourceMap::new("a\nb\r");
    assert_eq!(map.line_text(1), Some("b\r"));
}

#[test]
fn clone_keeps_text() {
    let map = SourceMap::new("a\nb");
    let copy = map.clone();
    assert_eq!(copy.source(), "a\nb");
    assert_eq!(copy.line_count(), 2);
}
