use vstd::prelude::*;

verus! {

/// One todo item: an id assigned by the store and the text the user gave.
pub struct TodoEntry {
    pub id: u32,
    pub text: String,
}

impl View for TodoEntry {
    type V = (u32, Seq<char>);

    open spec fn view(&self) -> (u32, Seq<char>) {
        (self.id, self.text@)
    }
}

/// The abstract contents of a list of entries: id and text of each, in order.
pub open spec fn entries_view(v: Seq<TodoEntry>) -> Seq<(u32, Seq<char>)> {
    v.map_values(|e: TodoEntry| e@)
}

impl TodoEntry {
    pub fn new(id: u32, text: String) -> (r: TodoEntry)
        ensures
            r@ == (id, text@),
    {
        TodoEntry { id, text }
    }

    /// A copy with the same id and text.
    pub fn duplicate(&self) -> (r: TodoEntry)
        ensures
            r@ == self@,
    {
        TodoEntry { id: self.id, text: self.text.clone() }
    }
}

} // verus!
