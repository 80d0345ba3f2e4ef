//! The one body of a request: made of the data items, or piped in.

use vstd::prelude::*;
use vstd::string::*;
use crate::failure::Failure;
use crate::item::{gather, lemma_gather_next, ItemView, RequestItem};
use crate::json::{JsonValue, JsonValueView};
use crate::text::{first_where, lemma_first_where, lemma_first_where_is};

verus! {

/// One part of a multipart body.
#[derive(Debug, Clone, PartialEq, Eq)]
pub enum Part {
    /// Text, sent as it is.
    Text(String),
    /// The path of a file, which is read when the request is sent.
    File(String),
}

/// A part as contracts speak of it.
pub enum PartView {
    Text(Seq<char>),
    File(Seq<char>),
}

impl View for Part {
    type V = PartView;

    open spec fn view(&self) -> PartView {
        match *self {
            Part::Text(text) => PartView::Text(text@),
            Part::File(path) => PartView::File(path@),
        }
    }
}

impl DeepView for Part {
    type V = PartView;

    open spec fn deep_view(&self) -> PartView {
        self@
    }
}

impl DeepView for JsonValue {
    type V = JsonValueView;

    open spec fn deep_view(&self) -> JsonValueView {
        self@
    }
}

/// The body of a request.
#[derive(Debug, Clone, PartialEq)]
pub enum Body {
    /// Text that was piped in, sent as it is.
    Raw(String),
    /// Fields of a form, every one of them, in the order given.
    Form(Vec<(String, String)>),
    /// Parts of a multipart body, in the order given.
    Multipart(Vec<(String, Part)>),
    /// Fields of a JSON object, each key once, in the order in which the keys
    /// first came.
    Json(Vec<(String, JsonValue)>),
}

/// A body as contracts speak of it.
pub enum BodyView {
    Raw(Seq<char>),
    Form(Seq<(Seq<char>, Seq<char>)>),
    Multipart(Seq<(Seq<char>, PartView)>),
    Json(Seq<(Seq<char>, JsonValueView)>),
}

impl View for Body {
    type V = BodyView;

    open spec fn view(&self) -> BodyView {
        match *self {
            Body::Raw(text) => BodyView::Raw(text@),
            Body::Form(fields) => BodyView::Form(fields.deep_view()),
            Body::Multipart(parts) => BodyView::Multipart(parts.deep_view()),
            Body::Json(fields) => BodyView::Json(fields.deep_view()),
        }
    }
}

/// The body, where there is one, as its view.
pub open spec fn body_view(body: Option<Body>) -> Option<BodyView> {
    match body {
        Some(body) => Some(body@),
        None => None,
    }
}

/// The outcome of making a body, with the body as its view.
pub open spec fn made_view(made: Result<Option<Body>, Failure>) -> Result<
    Option<BodyView>,
    Failure,
> {
    match made {
        Ok(body) => Ok(body_view(body)),
        Err(failure) => Err(failure),
    }
}

/// Whether an item is a text field, a typed field or a file, as far as each
/// is asked for.
pub open spec fn is_kind(item: ItemView, data: bool, json: bool, file: bool) -> bool {
    (data && item is DataField) || (json && item is JsonField) || (file && item is FileField)
}

/// Whether any of the items is of a kind that is asked for.
pub open spec fn holds_kind(items: Seq<ItemView>, data: bool, json: bool, file: bool) -> bool {
    exists|i: int| 0 <= i < items.len() && is_kind(#[trigger] items[i], data, json, file)
}

/// Whether any of the items goes into the body.
pub open spec fn holds_data(items: Seq<ItemView>) -> bool {
    holds_kind(items, true, true, true)
}

pub open spec fn as_form_field(item: ItemView) -> Option<(Seq<char>, Seq<char>)> {
    match item {
        ItemView::DataField(key, value) => Some((key, value)),
        _ => None,
    }
}

pub open spec fn as_part(item: ItemView) -> Option<(Seq<char>, PartView)> {
    match item {
        ItemView::DataField(key, value) => Some((key, PartView::Text(value))),
        ItemView::FileField(key, path) => Some((key, PartView::File(path))),
        _ => None,
    }
}

pub open spec fn as_json_field(item: ItemView) -> Option<(Seq<char>, JsonValueView)> {
    match item {
        ItemView::DataField(key, value) => Some((key, JsonValueView::Text(value))),
        ItemView::JsonField(key, value) => Some((key, JsonValueView::Literal(value))),
        _ => None,
    }
}

/// The text fields, every one, in their order.
pub open spec fn form_fields(items: Seq<ItemView>) -> Seq<(Seq<char>, Seq<char>)> {
    gather(items, |item: ItemView| as_form_field(item))
}

/// The text fields and files as parts, every one, in their order.
pub open spec fn parts(items: Seq<ItemView>) -> Seq<(Seq<char>, PartView)> {
    gather(items, |item: ItemView| as_part(item))
}

/// Having the key `key`.
pub open spec fn keyed(key: Seq<char>) -> spec_fn((Seq<char>, JsonValueView)) -> bool {
    |field: (Seq<char>, JsonValueView)| field.0 == key
}

/// The fields with `key` set to `value`: in place where the key is there,
/// at the end where it is not.
pub open spec fn put(
    fields: Seq<(Seq<char>, JsonValueView)>,
    key: Seq<char>,
    value: JsonValueView,
) -> Seq<(Seq<char>, JsonValueView)> {
    let at = first_where(fields, keyed(key));
    if at < fields.len() {
        fields.update(at, (key, value))
    } else {
        fields.push((key, value))
    }
}

/// No key stands twice among the fields.
pub open spec fn distinct_keys(fields: Seq<(Seq<char>, JsonValueView)>) -> bool {
    forall|i: int, j: int|
        0 <= i < j < fields.len() ==> #[trigger] fields[i].0 != #[trigger] fields[j].0
}

/// The text fields and typed fields as the fields of one JSON object: a
/// later field replaces the value of an earlier one of the same key.
pub open spec fn json_fields(items: Seq<ItemView>) -> Seq<(Seq<char>, JsonValueView)>
    decreases items.len(),
{
    if items.len() == 0 {
        Seq::empty()
    } else {
        let before = json_fields(items.drop_last());
        match as_json_field(items.last()) {
            Some((key, value)) => put(before, key, value),
            None => before,
        }
    }
}

/// The body that the items and what was piped in make. Both at once is a
/// conflict, whatever they hold. Without data items the body is what was
/// piped in. Else the items are encoded as multipart, as a form or as JSON,
/// and an item that the encoding cannot hold is refused.
pub open spec fn resolved(
    items: Seq<ItemView>,
    form: bool,
    multipart: bool,
    piped: Option<Seq<char>>,
) -> Result<Option<BodyView>, Failure> {
    if !holds_data(items) {
        Ok(
            match piped {
                Some(text) => Some(BodyView::Raw(text)),
                None => None,
            },
        )
    } else if piped is Some {
        Err(Failure::Conflict)
    } else if multipart {
        if holds_kind(items, false, true, false) {
            Err(Failure::Type)
        } else {
            Ok(Some(BodyView::Multipart(parts(items))))
        }
    } else if form {
        if holds_kind(items, false, true, true) {
            Err(Failure::Type)
        } else {
            Ok(Some(BodyView::Form(form_fields(items))))
        }
    } else {
        if holds_kind(items, false, false, true) {
            Err(Failure::Type)
        } else {
            Ok(Some(BodyView::Json(json_fields(items))))
        }
    }
}

/// Data items and a piped body together are a conflict, whatever either
/// holds and whatever encoding is asked for.
pub proof fn lemma_piped_and_data_conflict(
    items: Seq<ItemView>,
    form: bool,
    multipart: bool,
    piped: Seq<char>,
)
    requires
        holds_data(items),
    ensures
        resolved(items, form, multipart, Some(piped)) == Err::<Option<BodyView>, Failure>(
            Failure::Conflict,
        ),
{
}

/// A request is without a body exactly where there are no data items and
/// nothing was piped in.
pub proof fn lemma_no_body(
    items: Seq<ItemView>,
    form: bool,
    multipart: bool,
    piped: Option<Seq<char>>,
)
    ensures
        resolved(items, form, multipart, piped) == Ok::<Option<BodyView>, Failure>(None) <==> (
        !holds_data(items) && piped is None),
{
}

/// Setting a key leaves the keys of a JSON object distinct.
pub proof fn lemma_put_keeps_distinct(
    fields: Seq<(Seq<char>, JsonValueView)>,
    key: Seq<char>,
    value: JsonValueView,
)
    requires
        distinct_keys(fields),
    ensures
        distinct_keys(put(fields, key, value)),
{
    let at = first_where(fields, keyed(key));
    lemma_first_where(fields, keyed(key));
    let after = put(fields, key, value);
    assert forall|i: int, j: int| 0 <= i < j < after.len() implies #[trigger] after[i].0
        != #[trigger] after[j].0 by {
        if at < fields.len() {
            assert(keyed(key)(fields[at]));
            assert(fields[i].0 != fields[j].0);
        } else if j == fields.len() {
            assert(!keyed(key)(fields[i]));
        } else {
            assert(fields[i].0 != fields[j].0);
        }
    }
}

/// The fields of a JSON body have distinct keys.
pub proof fn lemma_json_keys_distinct(items: Seq<ItemView>)
    ensures
        distinct_keys(json_fields(items)),
    decreases items.len(),
{
    if items.len() > 0 {
        lemma_json_keys_distinct(items.drop_last());
        match as_json_field(items.last()) {
            Some((key, value)) => {
                lemma_put_keeps_distinct(json_fields(items.drop_last()), key, value);
            },
            None => {},
        }
    }
}

/// Whether standard input is read for a body: not from a terminal, and not
/// when the user said to leave it.
pub fn reads_stdin(interactive: bool, ignore_stdin: bool) -> (reads: bool)
    ensures
        reads == (!interactive && !ignore_stdin),
{
    !interactive && !ignore_stdin
}

/// The body that standard input gave, where it was read.
pub fn body_from_stdin(piped: Option<String>) -> (body: Option<Body>)
    ensures
        body_view(body) == match piped {
            Some(text) => Some(BodyView::Raw(text@)),
            None => None,
        },
{
    match piped {
        Some(text) => Some(Body::Raw(text)),
        None => None,
    }
}

fn finds_kind(items: &Vec<RequestItem>, data: bool, json: bool, file: bool) -> (found: bool)
    ensures
        found == holds_kind(items.deep_view(), data, json, file),
{
    let mut i: usize = 0;
    while i < items.len()
        invariant
            i <= items.len(),
            forall|j: int| 0 <= j < i ==> !is_kind(#[trigger] items.deep_view()[j], data, json, file),
        decreases items.len() - i,
    {
        let hit = match &items[i] {
            RequestItem::DataField(_, _) => data,
            RequestItem::JsonField(_, _) => json,
            RequestItem::FileField(_, _) => file,
            _ => false,
        };
        assert(hit == is_kind(items.deep_view()[i as int], data, json, file));
        if hit {
            return true;
        }
        i += 1;
    }
    false
}

fn form_of(items: &Vec<RequestItem>) -> (fields: Vec<(String, String)>)
    ensures
        fields.deep_view() == form_fields(items.deep_view()),
{
    let mut fields: Vec<(String, String)> = Vec::new();
    let mut i: usize = 0;
    while i < items.len()
        invariant
            i <= items.len(),
            fields.deep_view() == form_fields(items.deep_view().take(i as int)),
        decreases items.len() - i,
    {
        let ghost before = fields.deep_view();
        match &items[i] {
            RequestItem::DataField(key, value) => {
                let key = key.clone();
                let value = value.clone();
                fields.push((key, value));
                assert(fields.deep_view() =~= before.push((key@, value@)));
            },
            _ => {},
        }
        proof {
            lemma_gather_next(items.deep_view(), |item: ItemView| as_form_field(item), i as int);
        }
        i += 1;
    }
    assert(items.deep_view().take(items.len() as int) =~= items.deep_view());
    fields
}

fn parts_of(items: &Vec<RequestItem>) -> (list: Vec<(String, Part)>)
    ensures
        list.deep_view() == parts(items.deep_view()),
{
    let mut list: Vec<(String, Part)> = Vec::new();
    let mut i: usize = 0;
    while i < items.len()
        invariant
            i <= items.len(),
            list.deep_view() == parts(items.deep_view().take(i as int)),
        decreases items.len() - i,
    {
        let ghost before = list.deep_view();
        match &items[i] {
            RequestItem::DataField(key, value) => {
                let key = key.clone();
                let part = Part::Text(value.clone());
                list.push((key, part));
                assert(list.deep_view() =~= before.push((key@, part@)));
            },
            RequestItem::FileField(key, path) => {
                let key = key.clone();
                let part = Part::File(path.clone());
                list.push((key, part));
                assert(list.deep_view() =~= before.push((key@, part@)));
            },
            _ => {},
        }
        proof {
            lemma_gather_next(items.deep_view(), |item: ItemView| as_part(item), i as int);
        }
        i += 1;
    }
    assert(items.deep_view().take(items.len() as int) =~= items.deep_view());
    list
}

/// Sets `key` to `value` among the fields of a JSON object.
fn put_field(fields: &mut Vec<(String, JsonValue)>, key: String, value: JsonValue)
    ensures
        final(fields).deep_view() == put(old(fields).deep_view(), key@, value@),
{
    let ghost before = fields.deep_view();
    let mut at: usize = 0;
    while at < fields.len() && !(fields[at].0 == key)
        invariant
            at <= fields.len(),
            fields.deep_view() == before,
            forall|j: int| 0 <= j < at ==> !keyed(key@)(#[trigger] before[j]),
        decreases fields.len() - at,
    {
        at += 1;
    }
    proof {
        lemma_first_where_is(before, keyed(key@), at as int);
    }
    if at < fields.len() {
        fields.set(at, (key, value));
        assert(fields.deep_view() =~= before.update(at as int, (key@, value@)));
    } else {
        fields.push((key, value));
        assert(fields.deep_view() =~= before.push((key@, value@)));
    }
}

fn json_of(items: &Vec<RequestItem>) -> (fields: Vec<(String, JsonValue)>)
    ensures
        fields.deep_view() == json_fields(items.deep_view()),
{
    let mut fields: Vec<(String, JsonValue)> = Vec::new();
    let mut i: usize = 0;
    while i < items.len()
        invariant
            i <= items.len(),
            fields.deep_view() == json_fields(items.deep_view().take(i as int)),
        decreases items.len() - i,
    {
        match &items[i] {
            RequestItem::DataField(key, value) => {
                put_field(&mut fields, key.clone(), JsonValue::Text(value.clone()));
            },
            RequestItem::JsonField(key, value) => {
                put_field(&mut fields, key.clone(), JsonValue::Literal(value.clone()));
            },
            _ => {},
        }
        assert(items.deep_view().take(i + 1).drop_last() =~= items.deep_view().take(i as int));
        i += 1;
    }
    assert(items.deep_view().take(items.len() as int) =~= items.deep_view());
    fields
}

impl Body {
    /// Makes the one body of a request from its items and from what was
    /// piped in.
    pub fn resolve(
        items: &Vec<RequestItem>,
        form: bool,
        multipart: bool,
        piped: Option<String>,
    ) -> (made: Result<Option<Body>, Failure>)
        ensures
            made_view(made) == resolved(
                items.deep_view(),
                form,
                multipart,
                match piped {
                    Some(text) => Some(text@),
                    None => None,
                },
            ),
    {
        if !finds_kind(items, true, true, true) {
            Ok(body_from_stdin(piped))
        } else if piped.is_some() {
            Err(Failure::Conflict)
        } else if multipart {
            if finds_kind(items, false, true, false) {
                Err(Failure::Type)
            } else {
                Ok(Some(Body::Multipart(parts_of(items))))
            }
        } else if form {
            if finds_kind(items, false, true, true) {
                Err(Failure::Type)
            } else {
                Ok(Some(Body::Form(form_of(items))))
            }
        } else {
            if finds_kind(items, false, false, true) {
                Err(Failure::Type)
            } else {
                Ok(Some(Body::Json(json_of(items))))
            }
        }
    }
}

} // verus!
