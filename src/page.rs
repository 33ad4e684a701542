use vstd::prelude::*;
use vstd::string::StringExecFns;

use crate::entry::{entries_view, TodoEntry};

verus! {

/// Everything before the list items: the document head and the form for
/// adding an entry.
pub const PAGE_HEAD: &'static str = "<!DOCTYPE html>\n<html>\n<head>\n<meta charset=\"utf-8\">\n<title>Todo</title>\n</head>\n<body>\n<h1>Todo</h1>\n<form action=\"/add\" method=\"post\">\n<input type=\"text\" name=\"text\">\n<input type=\"submit\" value=\"Add\">\n</form>\n<ul>\n";

/// Everything after the list items.
pub const PAGE_TAIL: &'static str = "</ul>\n</body>\n</html>\n";

/// The start of one list item, before the entry's text.
pub const ITEM_OPEN: &'static str = "<li>";

/// Between the entry's text and its id: the start of its delete form.
pub const ITEM_MID: &'static str = "\n<form action=\"/delete\" method=\"post\">\n<input type=\"hidden\" name=\"id\" value=\"";

/// After the entry's id: the end of its delete form and of the item.
pub const ITEM_CLOSE: &'static str = "\">\n<input type=\"submit\" value=\"Delete\">\n</form>\n</li>\n";

/// What HTML escaping makes of one character.
pub open spec fn escaped_char(c: char) -> Seq<char> {
    if c == '<' {
        seq!['&', 'l', 't', ';']
    } else if c == '>' {
        seq!['&', 'g', 't', ';']
    } else if c == '&' {
        seq!['&', 'a', 'm', 'p', ';']
    } else if c == '"' {
        seq!['&', 'q', 'u', 'o', 't', ';']
    } else if c == '\'' {
        seq!['&', '#', 'x', '2', '7', ';']
    } else {
        seq![c]
    }
}

/// Text made safe to stand in HTML: each character escaped in turn.
pub open spec fn html_escaped(s: Seq<char>) -> Seq<char>
    decreases s.len(),
{
    if s.len() == 0 {
        seq![]
    } else {
        html_escaped(s.drop_last()) + escaped_char(s.last())
    }
}

/// The character of a decimal digit.
pub open spec fn digit_char(d: nat) -> char {
    if d == 0 {
        '0'
    } else if d == 1 {
        '1'
    } else if d == 2 {
        '2'
    } else if d == 3 {
        '3'
    } else if d == 4 {
        '4'
    } else if d == 5 {
        '5'
    } else if d == 6 {
        '6'
    } else if d == 7 {
        '7'
    } else if d == 8 {
        '8'
    } else {
        '9'
    }
}

/// The decimal notation of a number, without leading zeros.
pub open spec fn decimal(n: nat) -> Seq<char>
    decreases n,
{
    if n < 10 {
        seq![digit_char(n)]
    } else {
        decimal(n / 10).push(digit_char(n % 10))
    }
}

/// The list item of one entry: its text, escaped, and a form that deletes it
/// by id.
pub open spec fn entry_html(e: (u32, Seq<char>)) -> Seq<char> {
    ITEM_OPEN@ + html_escaped(e.1) + ITEM_MID@ + decimal(e.0 as nat) + ITEM_CLOSE@
}

/// The list items of the entries, in order.
pub open spec fn items_html(es: Seq<(u32, Seq<char>)>) -> Seq<char>
    decreases es.len(),
{
    if es.len() == 0 {
        seq![]
    } else {
        items_html(es.drop_last()) + entry_html(es.last())
    }
}

/// The whole page that lists the entries.
pub open spec fn page_html(es: Seq<(u32, Seq<char>)>) -> Seq<char> {
    PAGE_HEAD@ + items_html(es) + PAGE_TAIL@
}

/// Relies on askama's `MarkupDisplay` with the `Html` escaper (from
/// askama_escape): written out, it replaces `<`, `>`, `&`, `"` and `'` by
/// their entities and keeps every other character.
#[verifier::external_body]
fn escape_html(s: &str) -> (r: String)
    ensures
        r@ == html_escaped(s@),
{
    askama::MarkupDisplay::new_unsafe(s, askama::Html).to_string()
}

fn digit_str(d: u32) -> (r: &'static str)
    requires
        d < 10,
    ensures
        r@ == seq![digit_char(d as nat)],
{
    proof {
        reveal_strlit("0");
        reveal_strlit("1");
        reveal_strlit("2");
        reveal_strlit("3");
        reveal_strlit("4");
        reveal_strlit("5");
        reveal_strlit("6");
        reveal_strlit("7");
        reveal_strlit("8");
        reveal_strlit("9");
    }
    if d == 0 {
        "0"
    } else if d == 1 {
        "1"
    } else if d == 2 {
        "2"
    } else if d == 3 {
        "3"
    } else if d == 4 {
        "4"
    } else if d == 5 {
        "5"
    } else if d == 6 {
        "6"
    } else if d == 7 {
        "7"
    } else if d == 8 {
        "8"
    } else {
        "9"
    }
}

/// The decimal notation of `n`.
pub fn decimal_string(n: u32) -> (r: String)
    ensures
        r@ == decimal(n as nat),
    decreases n,
{
    if n < 10 {
        String::from_str(digit_str(n))
    } else {
        let mut s = decimal_string(n / 10);
        s.append(digit_str(n % 10));
        s
    }
}

/// The list item of one entry.
pub fn render_entry(e: &TodoEntry) -> (r: String)
    ensures
        r@ == entry_html(e@),
{
    let mut s = String::from_str(ITEM_OPEN);
    let text = escape_html(e.text.as_str());
    s.append(text.as_str());
    s.append(ITEM_MID);
    let id = decimal_string(e.id);
    s.append(id.as_str());
    s.append(ITEM_CLOSE);
    s
}

/// The page that lists `entries`. It never fails: an empty list gives the
/// page with no items.
pub fn render_index(entries: &Vec<TodoEntry>) -> (r: String)
    ensures
        r@ == page_html(entries_view(entries@)),
{
    let mut s = String::from_str(PAGE_HEAD);
    let mut i: usize = 0;
    while i < entries.len()
        invariant
            i <= entries@.len(),
            s@ == PAGE_HEAD@ + items_html(entries_view(entries@.take(i as int))),
        decreases entries@.len() - i,
    {
        let item = render_entry(&entries[i]);
        proof {
            let before = entries_view(entries@.take(i as int));
            let after = entries_view(entries@.take(i + 1));
            assert(after.drop_last() =~= before);
            assert(after.last() == entries@[i as int]@);
        }
        s.append(item.as_str());
        i = i + 1;
    }
    assert(entries@.take(entries@.len() as int) =~= entries@);
    s.append(PAGE_TAIL);
    s
}

} // verus!
