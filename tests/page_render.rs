use todo_service::entry::TodoEntry;
use todo_service::page::{
    decimal_string, render_entry, render_index, ITEM_CLOSE, ITEM_MID, ITEM_OPEN, PAGE_HEAD,
    PAGE_TAIL,
};

#[test]
fn decimal_of_zero_and_large_numbers() {
    assert_eq!(decimal_string(0), "0");
    assert_eq!(decimal_string(7), "7");
    assert_eq!(decimal_string(10), "10");
    assert_eq!(decimal_string(1234567), "1234567");
    assert_eq!(decimal_string(u32::MAX), "4294967295");
}

#[test]
fn empty_list_renders_a_whole_page() {
    let page = render_index(&Vec::new());
    assert_eq!(page, format!("{}{}", PAGE_HEAD, PAGE_TAIL));
    assert!(page.starts_with("<!DOCTYPE html>"));
    assert!(page.trim_end().ends_with("</html>"));
}

#[test]
fn entry_text_is_escaped() {
    let e = TodoEntry::new(12, "<b>Tom & \"Jerry\"'s</b>".to_string());
    let item = render_entry(&e);
    assert_eq!(
        item,
        format!(
            "{}&lt;b&gt;Tom &amp; &quot;Jerry&quot;&#x27;s&lt;/b&gt;{}12{}",
            ITEM_OPEN, ITEM_MID, ITEM_CLOSE
        )
    );
}

#[test]
fn plain_text_is_kept_verbatim() {
    let e = TodoEntry::new(1, "Buy milk ü".to_string());
    assert_eq!(
        render_entry(&e),
        format!("{}Buy milk ü{}1{}", ITEM_OPEN, ITEM_MID, ITEM_CLOSE)
    );
}

#[test]
fn page_lists_entries_in_order() {
    let entries = vec![
        TodoEntry::new(1, "first".to_string()),
        TodoEntry::new(5, "second".to_string()),
    ];
    let page = render_index(&entries);
    let expected = format!(
        "{}{}{}{}",
        PAGE_HEAD,
        render_entry(&entries[0]),
        render_entry(&entries[1]),
        PAGE_TAIL
    );
    assert_eq!(page, expected);
    assert!(page.find("first").unwrap() < page.find("second").unwrap());
}
