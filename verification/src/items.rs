//! The items of one invocation, and what each part of a request takes from
//! them.

use vstd::prelude::*;
use vstd::string::*;
use crate::body::{made_view, resolved, Body};
use crate::failure::Failure;
use crate::headers::Headers;
use crate::item::{gather, lemma_gather_next, parsed, ItemView, RequestItem};
use crate::text::lower;

verus! {

/// What a list of items reads as: the items in their order, or the failure
/// of the first that does not read.
pub open spec fn parsed_all(raw: Seq<Seq<char>>) -> Result<Seq<ItemView>, Failure>
    decreases raw.len(),
{
    if raw.len() == 0 {
        Ok(Seq::empty())
    } else {
        match parsed_all(raw.drop_last()) {
            Err(failure) => Err(failure),
            Ok(items) => match parsed(raw.last()) {
                Err(failure) => Err(failure),
                Ok(item) => Ok(items.push(item)),
            },
        }
    }
}

/// A failure among the first items of a list is the failure of the list.
pub proof fn lemma_parsed_all_fails(raw: Seq<Seq<char>>, n: int)
    requires
        0 <= n <= raw.len(),
        parsed_all(raw.take(n)) is Err,
    ensures
        parsed_all(raw) == parsed_all(raw.take(n)),
    decreases raw.len() - n,
{
    if n == raw.len() {
        assert(raw.take(n) =~= raw);
    } else {
        assert(raw.take(n + 1).drop_last() =~= raw.take(n));
        lemma_parsed_all_fails(raw, n + 1);
    }
}

/// Where a list reads, it reads item by item, in order; where it does not,
/// its failure is that of its first item that does not read.
pub proof fn lemma_parsed_all(raw: Seq<Seq<char>>)
    ensures
        match parsed_all(raw) {
            Ok(items) => items.len() == raw.len() && forall|i: int|
                0 <= i < raw.len() ==> parsed(#[trigger] raw[i]) == Ok::<ItemView, Failure>(
                    items[i],
                ),
            Err(failure) => exists|i: int|
                0 <= i < raw.len() && parsed(#[trigger] raw[i]) == Err::<ItemView, Failure>(
                    failure,
                ) && forall|j: int| 0 <= j < i ==> parsed(#[trigger] raw[j]) is Ok,
        },
    decreases raw.len(),
{
    if raw.len() > 0 {
        let front = raw.drop_last();
        lemma_parsed_all(front);
        match parsed_all(front) {
            Err(failure) => {
                let i = choose|i: int|
                    0 <= i < front.len() && parsed(#[trigger] front[i]) == Err::<
                        ItemView,
                        Failure,
                    >(failure) && forall|j: int| 0 <= j < i ==> parsed(#[trigger] front[j]) is Ok;
                assert(raw[i] == front[i]);
                assert forall|j: int| 0 <= j < i implies parsed(#[trigger] raw[j]) is Ok by {
                    assert(raw[j] == front[j]);
                }
            },
            Ok(items) => {
                match parsed(raw.last()) {
                    Err(failure) => {
                        let i = raw.len() - 1;
                        assert(parsed(raw[i]) == Err::<ItemView, Failure>(failure));
                        assert forall|j: int| 0 <= j < i implies parsed(#[trigger] raw[j]) is Ok by {
                            assert(raw[j] == front[j]);
                        }
                    },
                    Ok(item) => {
                        assert forall|i: int| 0 <= i < raw.len() implies parsed(#[trigger] raw[i])
                            == Ok::<ItemView, Failure>(items.push(item)[i]) by {
                            if i < front.len() {
                                assert(raw[i] == front[i]);
                            }
                        }
                    },
                }
            },
        }
    }
}

pub open spec fn as_query(item: ItemView) -> Option<(Seq<char>, Seq<char>)> {
    match item {
        ItemView::UrlParam(name, value) => Some((name, value)),
        _ => None,
    }
}

pub open spec fn as_unset(item: ItemView) -> Option<Seq<char>> {
    match item {
        ItemView::HeaderUnset(name) => Some(name),
        _ => None,
    }
}

/// The parameters of the query, every one, in their order.
pub open spec fn query_params(items: Seq<ItemView>) -> Seq<(Seq<char>, Seq<char>)> {
    gather(items, |item: ItemView| as_query(item))
}

/// The names of the headers that the items unset, as written, in their order.
pub open spec fn unset_names(items: Seq<ItemView>) -> Seq<Seq<char>> {
    gather(items, |item: ItemView| as_unset(item))
}

/// The headers that the items leave set: each item in its turn sets its
/// header, in place of an earlier value, or takes it away.
pub open spec fn header_fields(items: Seq<ItemView>) -> Map<Seq<char>, Seq<char>>
    decreases items.len(),
{
    if items.len() == 0 {
        Map::empty()
    } else {
        let before = header_fields(items.drop_last());
        match items.last() {
            ItemView::HeaderSet(name, value) => before.insert(lower(name), value),
            ItemView::HeaderUnset(name) => before.remove(lower(name)),
            _ => before,
        }
    }
}

/// Whether the item sets or unsets the header that is `name` in lower case.
pub open spec fn names_header(item: ItemView, name: Seq<char>) -> bool {
    match item {
        ItemView::HeaderSet(own, _) => lower(own) == name,
        ItemView::HeaderUnset(own) => lower(own) == name,
        _ => false,
    }
}

/// The last item that names a header decides on it: where it sets the
/// header, the header has the value of that item, whatever came before, and
/// where it unsets the header, the header is not set.
pub proof fn lemma_last_naming_decides(items: Seq<ItemView>, name: Seq<char>, last: int)
    requires
        0 <= last < items.len(),
        names_header(items[last], name),
        forall|j: int| last < j < items.len() ==> !names_header(#[trigger] items[j], name),
    ensures
        match items[last] {
            ItemView::HeaderSet(_, value) => header_fields(items).contains_key(name)
                && header_fields(items)[name] == value,
            _ => !header_fields(items).contains_key(name),
        },
    decreases items.len(),
{
    if last < items.len() - 1 {
        let front = items.drop_last();
        assert(!names_header(items[items.len() - 1], name));
        assert(front[last] == items[last]);
        assert forall|j: int| last < j < front.len() implies !names_header(
            #[trigger] front[j],
            name,
        ) by {
            assert(front[j] == items[j]);
        }
        lemma_last_naming_decides(front, name, last);
    }
}

/// A header that no item names is not set.
pub proof fn lemma_unnamed_is_not_set(items: Seq<ItemView>, name: Seq<char>)
    requires
        forall|j: int| 0 <= j < items.len() ==> !names_header(#[trigger] items[j], name),
    ensures
        !header_fields(items).contains_key(name),
    decreases items.len(),
{
    if items.len() > 0 {
        let front = items.drop_last();
        assert(!names_header(items[items.len() - 1], name));
        assert forall|j: int| 0 <= j < front.len() implies !names_header(
            #[trigger] front[j],
            name,
        ) by {
            assert(front[j] == items[j]);
        }
        lemma_unnamed_is_not_set(front, name);
    }
}

/// Setting a header twice in a row is setting it to the second value: the
/// first leaves no trace. The names may differ in the case of their letters.
pub proof fn lemma_set_twice(
    items: Seq<ItemView>,
    first: Seq<char>,
    old_value: Seq<char>,
    second: Seq<char>,
    new_value: Seq<char>,
)
    requires
        lower(first) == lower(second),
    ensures
        header_fields(
            items.push(ItemView::HeaderSet(first, old_value)).push(
                ItemView::HeaderSet(second, new_value),
            ),
        ) == header_fields(items.push(ItemView::HeaderSet(second, new_value))),
{
    let once = items.push(ItemView::HeaderSet(first, old_value));
    let twice = once.push(ItemView::HeaderSet(second, new_value));
    let only = items.push(ItemView::HeaderSet(second, new_value));
    assert(once.drop_last() =~= items);
    assert(twice.drop_last() =~= once);
    assert(only.drop_last() =~= items);
    let base = header_fields(items);
    assert(header_fields(once) == base.insert(lower(first), old_value));
    assert(header_fields(twice) == header_fields(once).insert(lower(second), new_value));
    assert(header_fields(only) == base.insert(lower(second), new_value));
    assert(header_fields(twice) =~= header_fields(only));
}

/// The items of one invocation, in the order given.
#[derive(Debug, Clone, PartialEq)]
pub struct RequestItems(pub Vec<RequestItem>);

impl View for RequestItems {
    type V = Seq<ItemView>;

    open spec fn view(&self) -> Seq<ItemView> {
        self.0.deep_view()
    }
}

/// The outcome of reading a list of items, with the items as their views.
pub open spec fn read_all_view(read: Result<RequestItems, Failure>) -> Result<
    Seq<ItemView>,
    Failure,
> {
    match read {
        Ok(items) => Ok(items@),
        Err(failure) => Err(failure),
    }
}

impl RequestItems {
    /// The list of items that were read one by one.
    pub fn new(items: Vec<RequestItem>) -> (list: RequestItems)
        ensures
            list.0 == items,
    {
        RequestItems(items)
    }

    /// Reads the items in their order, up to the first that does not read.
    pub fn parse(raw: &Vec<String>) -> (read: Result<RequestItems, Failure>)
        ensures
            read_all_view(read) == parsed_all(raw.deep_view()),
    {
        let mut items: Vec<RequestItem> = Vec::new();
        let mut i: usize = 0;
        assert(raw.deep_view().take(0).len() == 0);
        assert(items.deep_view() =~= Seq::<ItemView>::empty());
        while i < raw.len()
            invariant
                i <= raw.len(),
                parsed_all(raw.deep_view().take(i as int)) == Ok::<Seq<ItemView>, Failure>(
                    items.deep_view(),
                ),
            decreases raw.len() - i,
        {
            let ghost before = items.deep_view();
            assert(raw.deep_view().take(i + 1).drop_last() =~= raw.deep_view().take(i as int));
            assert(raw.deep_view().take(i + 1).last() == raw[i as int]@);
            match RequestItem::parse(raw[i].as_str()) {
                Ok(item) => {
                    items.push(item);
                    assert(items.deep_view() =~= before.push(item@));
                },
                Err(failure) => {
                    proof {
                        lemma_parsed_all_fails(raw.deep_view(), i + 1);
                    }
                    return Err(failure);
                },
            }
            i += 1;
        }
        assert(raw.deep_view().take(raw.len() as int) =~= raw.deep_view());
        Ok(RequestItems(items))
    }

    /// The parameters for the query of the URL.
    pub fn query(&self) -> (params: Vec<(String, String)>)
        ensures
            params.deep_view() == query_params(self@),
    {
        let mut params: Vec<(String, String)> = Vec::new();
        let mut i: usize = 0;
        while i < self.0.len()
            invariant
                i <= self.0.len(),
                params.deep_view() == query_params(self@.take(i as int)),
            decreases self.0.len() - i,
        {
            let ghost before = params.deep_view();
            match &self.0[i] {
                RequestItem::UrlParam(name, value) => {
                    let name = name.clone();
                    let value = value.clone();
                    params.push((name, value));
                    assert(params.deep_view() =~= before.push((name@, value@)));
                },
                _ => {},
            }
            proof {
                lemma_gather_next(self@, |item: ItemView| as_query(item), i as int);
            }
            i += 1;
        }
        assert(self@.take(self.0.len() as int) =~= self@);
        params
    }

    /// The headers that the items set, and the names of those they unset.
    pub fn headers(&self) -> (found: (Headers, Vec<String>))
        ensures
            found.0@ == header_fields(self@),
            found.1.deep_view() == unset_names(self@),
    {
        let mut headers = Headers::new();
        let mut unset: Vec<String> = Vec::new();
        let mut i: usize = 0;
        while i < self.0.len()
            invariant
                i <= self.0.len(),
                headers@ == header_fields(self@.take(i as int)),
                unset.deep_view() == unset_names(self@.take(i as int)),
            decreases self.0.len() - i,
        {
            let ghost before = unset.deep_view();
            match &self.0[i] {
                RequestItem::HeaderSet(name, value) => {
                    headers.insert(name.as_str(), value.as_str());
                },
                RequestItem::HeaderUnset(name) => {
                    headers.remove(name.as_str());
                    let name = name.clone();
                    unset.push(name);
                    assert(unset.deep_view() =~= before.push(name@));
                },
                _ => {},
            }
            proof {
                lemma_gather_next(self@, |item: ItemView| as_unset(item), i as int);
                assert(self@.take(i + 1).drop_last() =~= self@.take(i as int));
            }
            i += 1;
        }
        assert(self@.take(self.0.len() as int) =~= self@);
        (headers, unset)
    }

    /// The body that the items make when nothing is piped in.
    pub fn body(&self, form: bool, multipart: bool) -> (made: Result<Option<Body>, Failure>)
        ensures
            made_view(made) == resolved(self@, form, multipart, None),
    {
        Body::resolve(&self.0, form, multipart, None)
    }
}

} // verus!
