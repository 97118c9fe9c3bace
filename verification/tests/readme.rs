use metascoop::error::Error;
use metascoop::readme::{replace_table, TABLE_END, TABLE_START};

#[test]
fn table_is_put_between_the_marks() {
    let content = format!("# Apps\n{}\nold table\n{}\nfooter\n", TABLE_START, TABLE_END);
    let expected = format!("# Apps\n{}\n| new |\n{}\nfooter\n", TABLE_START, TABLE_END);
    assert_eq!(replace_table(&content, "\n| new |\n"), Ok(expected));
}

#[test]
fn marks_are_as_documented() {
    assert_eq!(TABLE_START, "<!-- This table is auto-generated. Do not edit -->");
    assert_eq!(TABLE_END, "<!-- end apps table -->");
}

#[test]
fn empty_table_leaves_the_marks_side_by_side() {
    let content = format!("{}x{}", TABLE_START, TABLE_END);
    assert_eq!(replace_table(&content, ""), Ok(format!("{}{}", TABLE_START, TABLE_END)));
}

#[test]
fn text_around_the_table_is_kept() {
    let content = format!("é before {}old{} after ü", TABLE_START, TABLE_END);
    assert_eq!(
        replace_table(&content, "T"),
        Ok(format!("é before {}T{} after ü", TABLE_START, TABLE_END))
    );
}

#[test]
fn each_mark_counts_where_it_first_occurs() {
    let content = format!("a{}b{}c{}d{}e", TABLE_START, TABLE_START, TABLE_END, TABLE_END);
    assert_eq!(
        replace_table(&content, "T"),
        Ok(format!("a{}T{}d{}e", TABLE_START, TABLE_END, TABLE_END))
    );
}

#[test]
fn missing_opening_mark_is_an_error() {
    assert_eq!(replace_table("no marks", "T"), Err(Error::MissingTableStart));
    assert_eq!(replace_table(TABLE_END, "T"), Err(Error::MissingTableStart));
    assert_eq!(replace_table("", "T"), Err(Error::MissingTableStart));
}

#[test]
fn missing_closing_mark_is_an_error() {
    assert_eq!(replace_table(TABLE_START, "T"), Err(Error::MissingTableEnd));
}
