use hasselc::src_tag::SrcTag;

#[test]
fn test_line() {
    let src = "\
        l1\n\
        l2\n\
        l3\
    ";
    let tag1 = SrcTag(0);
    let tag2 = SrcTag(3);
    let tag3 = SrcTag(6);

    assert_eq!("l1", tag1.line(src));
    assert_eq!("l2", tag2.line(src));
    assert_eq!("l3", tag3.line(src));
}

#[test]
fn row_col_counts_lines_and_columns() {
    let src = "ab\ncd\n\nef";
    assert_eq!((1, 1), SrcTag(0).row_col(src));
    assert_eq!((1, 3), SrcTag(2).row_col(src));
    assert_eq!((2, 1), SrcTag(3).row_col(src));
    assert_eq!((2, 2), SrcTag(4).row_col(src));
    assert_eq!((4, 2), SrcTag(8).row_col(src));
}

#[test]
fn line_of_a_tag_on_a_newline_is_the_line_it_ends() {
    let src = "ab\n\ncd";
    assert_eq!("ab", SrcTag(2).line(src));
    assert_eq!("", SrcTag(3).line(src));
    assert_eq!("cd", SrcTag(4).line(src));
    assert_eq!("cd", SrcTag(6).line(src));
}

#[test]
fn invalid_tag_is_the_largest_offset() {
    assert_eq!(usize::MAX, SrcTag::invalid().0);
}

#[test]
fn line_of_a_tag_in_mid_line() {
    assert_eq!(SrcTag(1).line("abc\ndef"), "abc");
    assert_eq!(SrcTag(5).line("abc\ndef"), "def");
    assert_eq!(SrcTag(3).line("abc\ndef"), "abc");
}
