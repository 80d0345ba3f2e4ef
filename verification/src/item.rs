//! Request items: the shorthand in which headers, query parameters and body
//! fields are given on the command line.
//!
//! An item is a key, a separator and a value. The key ends where the first of
//! `:`, `=` and `@` stands; that character begins the separator, and where
//! two separators begin with it the longer one is meant, so that `x:=1` is a
//! typed field and no header. A colon that ends the item, behind a key that
//! holds no separator, unsets the header of that name.

use vstd::prelude::*;
use vstd::string::*;
use crate::failure::Failure;
use crate::json::{json_literal, read_json};
use crate::text::{chars_of, cut, first_of, lemma_first_of, lemma_first_of_is};

verus! {

/// What stands between the key of an item and its value.
#[derive(Debug, Clone, Copy, PartialEq, Eq, Structural)]
pub enum Separator {
    /// `:` at the end of the item: the header is unset.
    Unset,
    /// `:` a header.
    Header,
    /// `==` a parameter of the URL's query.
    Query,
    /// `@` a file to attach.
    File,
    /// `:=` a field whose value is a JSON literal.
    Json,
    /// `=` a field whose value is text.
    Data,
}

impl Separator {
    /// The separator as it is written.
    pub open spec fn token(self) -> Seq<char> {
        match self {
            Separator::Unset => seq![':'],
            Separator::Header => seq![':'],
            Separator::Query => seq!['=', '='],
            Separator::File => seq!['@'],
            Separator::Json => seq![':', '='],
            Separator::Data => seq!['='],
        }
    }
}

/// The characters with which a separator begins.
pub open spec fn marks() -> Set<char> {
    set![':', '=', '@']
}

/// The separator that begins at `at`, where one of `marks` stands.
pub open spec fn separator_at(s: Seq<char>, at: int) -> Separator {
    let doubled = at + 1 < s.len() && s[at + 1] == '=';
    if s[at] == ':' {
        if at + 1 == s.len() {
            Separator::Unset
        } else if doubled {
            Separator::Json
        } else {
            Separator::Header
        }
    } else if s[at] == '=' {
        if doubled {
            Separator::Query
        } else {
            Separator::Data
        }
    } else {
        Separator::File
    }
}

/// An item cut at its first separator into key, separator and value; `None`
/// where it holds no separator or nothing in front of it.
pub open spec fn split(s: Seq<char>) -> Option<(Seq<char>, Separator, Seq<char>)> {
    let at = first_of(s, marks());
    if at == 0 || at >= s.len() {
        None
    } else {
        let separator = separator_at(s, at);
        Some(
            (s.subrange(0, at), separator, s.subrange(at + separator.token().len(), s.len() as int)),
        )
    }
}

/// The index of the first character of `chars` that begins a separator.
fn mark_position(chars: &Vec<char>) -> (at: usize)
    ensures
        at == first_of(chars@, marks()),
{
    let mut at: usize = 0;
    while at < chars.len() && !(chars[at] == ':' || chars[at] == '=' || chars[at] == '@')
        invariant
            at <= chars.len(),
            forall|j: int| 0 <= j < at ==> !marks().contains(#[trigger] chars@[j]),
        decreases chars.len() - at,
    {
        at += 1;
    }
    proof {
        lemma_first_of_is(chars@, marks(), at as int);
    }
    at
}

/// Cuts an item at its first separator.
pub fn split_item(raw: &str) -> (parts: Option<(String, Separator, String)>)
    ensures
        parts is Some <==> split(raw@) is Some,
        parts matches Some((key, separator, value)) ==> split(raw@) == Some(
            (key@, separator, value@),
        ),
{
    let chars = chars_of(raw);
    let n = chars.len();
    let at = mark_position(&chars);
    if at == 0 || at >= n {
        return None;
    }
    let doubled = at + 1 < n && chars[at + 1] == '=';
    let separator = if chars[at] == ':' {
        if at + 1 == n {
            Separator::Unset
        } else if doubled {
            Separator::Json
        } else {
            Separator::Header
        }
    } else if chars[at] == '=' {
        if doubled {
            Separator::Query
        } else {
            Separator::Data
        }
    } else {
        Separator::File
    };
    let width: usize = match separator {
        Separator::Query | Separator::Json => 2,
        _ => 1,
    };
    assert(width == separator.token().len());
    let key = cut(raw, 0, at);
    let value = cut(raw, at + width, n);
    Some((key, separator, value))
}

/// Whether `value`, written behind `separator`, leaves the separator as it
/// is: the colon that unsets has nothing behind it, the colon of a header has
/// something, and what follows a single `:` or `=` does not begin with `=`.
pub open spec fn follows(separator: Separator, value: Seq<char>) -> bool {
    match separator {
        Separator::Unset => value.len() == 0,
        Separator::Header => value.len() > 0 && value[0] != '=',
        Separator::Data => value.len() == 0 || value[0] != '=',
        _ => true,
    }
}

/// A key, a separator and a value, written one behind the other, split into
/// the three again: the key has to be there and hold none of `marks`, and the
/// value may hold any of them. So an item with one separator reads as what
/// that separator says, and `x:=1` never reads as a header.
pub proof fn lemma_split_joined(key: Seq<char>, separator: Separator, value: Seq<char>)
    requires
        key.len() > 0,
        forall|i: int| 0 <= i < key.len() ==> !marks().contains(#[trigger] key[i]),
        follows(separator, value),
    ensures
        split(key + separator.token() + value) == Some((key, separator, value)),
{
    let s = key + separator.token() + value;
    let at = key.len() as int;
    assert(marks().contains(separator.token()[0]));
    assert(s[at] == separator.token()[0]);
    assert forall|j: int| 0 <= j < at implies !marks().contains(#[trigger] s[j]) by {
        assert(s[j] == key[j]);
    }
    lemma_first_of_is(s, marks(), at);
    if separator.token().len() == 2 {
        assert(s[at + 1] == separator.token()[1]);
    } else if value.len() > 0 {
        assert(s[at + 1] == value[0]);
    }
    assert(separator_at(s, at) == separator);
    assert(s.subrange(0, at) =~= key);
    assert(s.subrange(at + separator.token().len(), s.len() as int) =~= value);
}

/// What an item splits into makes up the item again, and its key is there
/// and holds none of `marks`.
pub proof fn lemma_split_parts(s: Seq<char>)
    requires
        split(s) is Some,
    ensures
        ({
            let (key, separator, value) = split(s)->0;
            &&& s == key + separator.token() + value
            &&& key.len() > 0
            &&& forall|i: int| 0 <= i < key.len() ==> !marks().contains(#[trigger] key[i])
            &&& follows(separator, value)
        }),
{
    let (key, separator, value) = split(s)->0;
    let at = first_of(s, marks());
    lemma_first_of(s, marks());
    assert(s =~= key + separator.token() + value);
    assert forall|i: int| 0 <= i < key.len() implies !marks().contains(#[trigger] key[i]) by {
        assert(key[i] == s[i]);
    }
    if value.len() > 0 {
        assert(value[0] == s[at + separator.token().len()]);
    }
}

/// One request item, read.
#[derive(Debug, Clone, PartialEq)]
pub enum RequestItem {
    HeaderSet(String, String),
    HeaderUnset(String),
    UrlParam(String, String),
    DataField(String, String),
    JsonField(String, serde_json::Value),
    FileField(String, String),
}

/// A request item as contracts speak of it, each text by its characters.
pub enum ItemView {
    HeaderSet(Seq<char>, Seq<char>),
    HeaderUnset(Seq<char>),
    UrlParam(Seq<char>, Seq<char>),
    DataField(Seq<char>, Seq<char>),
    JsonField(Seq<char>, serde_json::Value),
    FileField(Seq<char>, Seq<char>),
}

impl View for RequestItem {
    type V = ItemView;

    open spec fn view(&self) -> ItemView {
        match *self {
            RequestItem::HeaderSet(name, value) => ItemView::HeaderSet(name@, value@),
            RequestItem::HeaderUnset(name) => ItemView::HeaderUnset(name@),
            RequestItem::UrlParam(name, value) => ItemView::UrlParam(name@, value@),
            RequestItem::DataField(key, value) => ItemView::DataField(key@, value@),
            RequestItem::JsonField(key, value) => ItemView::JsonField(key@, value),
            RequestItem::FileField(key, path) => ItemView::FileField(key@, path@),
        }
    }
}

impl DeepView for RequestItem {
    type V = ItemView;

    open spec fn deep_view(&self) -> ItemView {
        self@
    }
}

/// What `pick` takes from the items, in their order.
pub open spec fn gather<T>(items: Seq<ItemView>, pick: spec_fn(ItemView) -> Option<T>) -> Seq<T>
    decreases items.len(),
{
    if items.len() == 0 {
        Seq::empty()
    } else {
        let before = gather(items.drop_last(), pick);
        match pick(items.last()) {
            Some(taken) => before.push(taken),
            None => before,
        }
    }
}

/// What is gathered from the first `i + 1` items is what is gathered from
/// the first `i`, and then from the item at `i`.
pub proof fn lemma_gather_next<T>(
    items: Seq<ItemView>,
    pick: spec_fn(ItemView) -> Option<T>,
    i: int,
)
    requires
        0 <= i < items.len(),
    ensures
        gather(items.take(i + 1), pick) == match pick(items[i]) {
            Some(taken) => gather(items.take(i), pick).push(taken),
            None => gather(items.take(i), pick),
        },
{
    assert(items.take(i + 1).drop_last() =~= items.take(i));
}

/// What `pick` takes from an item stands among what is gathered.
pub proof fn lemma_gather_holds<T>(
    items: Seq<ItemView>,
    pick: spec_fn(ItemView) -> Option<T>,
    i: int,
)
    requires
        0 <= i < items.len(),
        pick(items[i]) is Some,
    ensures
        exists|k: int|
            0 <= k < gather(items, pick).len() && #[trigger] gather(items, pick)[k] == pick(
                items[i],
            )->0,
    decreases items.len(),
{
    let all = gather(items, pick);
    if i == items.len() - 1 {
        assert(all[all.len() - 1] == pick(items[i])->0);
    } else {
        let front = items.drop_last();
        lemma_gather_holds(front, pick, i);
        let k = choose|k: int|
            0 <= k < gather(front, pick).len() && #[trigger] gather(front, pick)[k] == pick(
                front[i],
            )->0;
        assert(all[k] == gather(front, pick)[k]);
    }
}

/// The outcome of reading an item, with the item as its view.
pub open spec fn read_view(read: Result<RequestItem, Failure>) -> Result<ItemView, Failure> {
    match read {
        Ok(item) => Ok(item@),
        Err(failure) => Err(failure),
    }
}

/// The item that a key, a separator and a value make, `literal` being what
/// the value is as a JSON literal.
pub open spec fn item_of(
    key: Seq<char>,
    separator: Separator,
    value: Seq<char>,
    literal: Option<serde_json::Value>,
) -> Result<ItemView, Failure> {
    match separator {
        Separator::Unset => Ok(ItemView::HeaderUnset(key)),
        Separator::Header => Ok(ItemView::HeaderSet(key, value)),
        Separator::Query => Ok(ItemView::UrlParam(key, value)),
        Separator::File => Ok(ItemView::FileField(key, value)),
        Separator::Data => Ok(ItemView::DataField(key, value)),
        Separator::Json => match literal {
            Some(read) => Ok(ItemView::JsonField(key, read)),
            None => Err(Failure::Json),
        },
    }
}

/// What an item reads as.
pub open spec fn parsed(s: Seq<char>) -> Result<ItemView, Failure> {
    match split(s) {
        None => Err(Failure::Parse),
        Some((key, separator, value)) => item_of(key, separator, value, json_literal(value)),
    }
}

/// A key, a separator and a value, written one behind the other, read as
/// the item that the three make: an item with one separator reads as what
/// that separator says, the same each time.
pub proof fn lemma_joined_reads(key: Seq<char>, separator: Separator, value: Seq<char>)
    requires
        key.len() > 0,
        forall|i: int| 0 <= i < key.len() ==> !marks().contains(#[trigger] key[i]),
        follows(separator, value),
    ensures
        parsed(key + separator.token() + value) == item_of(
            key,
            separator,
            value,
            json_literal(value),
        ),
{
    lemma_split_joined(key, separator, value);
}

impl RequestItem {
    /// The typed field that `key` and what reading its value as JSON gave
    /// make: the value as it was read, or a failure where it did not read.
    pub fn typed(key: String, literal: Result<serde_json::Value, serde_json::Error>) -> (item:
        Result<RequestItem, Failure>)
        ensures
            read_view(item) == match literal {
                Ok(read) => Ok::<ItemView, Failure>(ItemView::JsonField(key@, read)),
                Err(_) => Err::<ItemView, Failure>(Failure::Json),
            },
    {
        match literal {
            Ok(read) => Ok(RequestItem::JsonField(key, read)),
            Err(_) => Err(Failure::Json),
        }
    }

    /// Reads one item. The same text always reads as the same item.
    pub fn parse(raw: &str) -> (item: Result<RequestItem, Failure>)
        ensures
            read_view(item) == parsed(raw@),
    {
        match split_item(raw) {
            None => Err(Failure::Parse),
            Some((key, separator, value)) => match separator {
                Separator::Unset => Ok(RequestItem::HeaderUnset(key)),
                Separator::Header => Ok(RequestItem::HeaderSet(key, value)),
                Separator::Query => Ok(RequestItem::UrlParam(key, value)),
                Separator::File => Ok(RequestItem::FileField(key, value)),
                Separator::Data => Ok(RequestItem::DataField(key, value)),
                Separator::Json => RequestItem::typed(key, read_json(value.as_str())),
            },
        }
    }
}

} // verus!
