//! Identifiers of stored rows: a table name and the row's key.

use vstd::prelude::*;
use crate::text::join;

verus! {

/// The key of a row within its table.
pub struct StringId {
    string: String,
}

/// A row identifier: the table it belongs to and its key.
pub struct UncoId {
    tb: String,
    id: StringId,
}

impl View for StringId {
    type V = Seq<char>;

    closed spec fn view(&self) -> Seq<char> {
        self.string@
    }
}

impl View for UncoId {
    type V = (Seq<char>, Seq<char>);

    closed spec fn view(&self) -> (Seq<char>, Seq<char>) {
        (self.tb@, self.id@)
    }
}

/// The text of a row identifier: the table, a colon, the key.
pub open spec fn id_text(tb: Seq<char>, key: Seq<char>) -> Seq<char> {
    tb + seq![':'] + key
}

impl StringId {
    pub fn new(string: String) -> (r: StringId)
        ensures
            r@ == string@,
    {
        StringId { string }
    }

    /// The key as text.
    pub fn to_string(&self) -> (r: String)
        ensures
            r@ == self@,
    {
        self.string.clone()
    }
}

impl Default for StringId {
    fn default() -> (r: StringId)
        ensures
            r@ == Seq::<char>::empty(),
    {
        StringId { string: String::new() }
    }
}

impl UncoId {
    pub fn new(tb: String, id: StringId) -> (r: UncoId)
        ensures
            r@ == (tb@, id@),
    {
        UncoId { tb, id }
    }

    /// The name of the table the row belongs to.
    pub fn tb(&self) -> (r: String)
        ensures
            r@ == self@.0,
    {
        self.tb.clone()
    }

    /// `table:key`.
    pub fn to_string(&self) -> (r: String)
        ensures
            r@ == id_text(self@.0, self@.1),
    {
        let table = self.tb.clone();
        let id = self.id.to_string();
        let with_colon = join(&table, ":");
        proof {
            reveal_strlit(":");
        }
        let r = join(&with_colon, id.as_str());
        assert(r@ =~= id_text(self@.0, self@.1));
        r
    }

    /// The key alone, without the table.
    pub fn get_id(&self) -> (r: String)
        ensures
            r@ == self@.1,
    {
        self.id.to_string()
    }
}

impl Default for UncoId {
    fn default() -> (r: UncoId)
        ensures
            r@ == (Seq::<char>::empty(), Seq::<char>::empty()),
    {
        UncoId { tb: String::new(), id: StringId::default() }
    }
}

/// The text of an identifier is its table, a colon, and the key that
/// `get_id` gives back.
pub proof fn law_id_text_splits(tb: Seq<char>, key: Seq<char>)
    ensures
        id_text(tb, key).subrange(0, tb.len() as int) == tb,
        id_text(tb, key)[tb.len() as int] == ':',
        id_text(tb, key).subrange(tb.len() + 1int, id_text(tb, key).len() as int) == key,
{
    assert(id_text(tb, key).subrange(0, tb.len() as int) =~= tb);
    assert(id_text(tb, key).subrange(tb.len() + 1int, id_text(tb, key).len() as int) =~= key);
}

} // verus!
