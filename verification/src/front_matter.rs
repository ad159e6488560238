//! Front matter: the metadata block at the head of a content file.
//!
//! The block is parsed by `gray_matter` with its YAML engine. What comes back
//! is read into [`FrontField`]s, which keep of each value only what the
//! pipeline looks at. What the parser returns is named, so that the fields
//! of a document are a function of its text.

use vstd::prelude::*;
use vstd::string::*;

verus! {

/// A parsed front matter value, `gray_matter::Pod`. It is read through the
/// three accessors below, and what each of them returns has a name.
#[verifier::external_type_specification]
#[verifier::external_body]
pub struct ExPod(gray_matter::Pod);

/// The value of one front matter key, as far as the pipeline reads it.
#[derive(Debug, Clone, PartialEq, Eq)]
pub enum FrontValue {
    /// A string.
    Text(String),
    /// An array. A string item is `Some` of its text; an item of any other
    /// kind is `None`.
    List(Vec<Option<String>>),
    /// A value of any other kind: null, number, boolean, nested mapping.
    Other,
}

/// One key of the front matter with its value.
#[derive(Debug, Clone, PartialEq, Eq)]
pub struct FrontField {
    pub key: String,
    pub value: FrontValue,
}

/// A content file split in two.
#[derive(Debug, Clone, PartialEq, Eq)]
pub struct Document {
    /// The keys of the front matter. Empty where the file has no front
    /// matter, or where the block is not a mapping.
    pub fields: Vec<FrontField>,
    /// The text below the front matter.
    pub body: String,
}

/// What a [`FrontValue`] holds, as sequences of characters.
pub enum FrontShape {
    /// A string.
    Text(Seq<char>),
    /// An array: the text of each string item, `None` for any other item.
    List(Seq<Option<Seq<char>>>),
    /// A value of any other kind.
    Other,
}

/// The characters of a text that may be absent.
pub open spec fn text_view(text: Option<String>) -> Option<Seq<char>> {
    match text {
        Some(text) => Some(text@),
        None => None,
    }
}

impl View for FrontValue {
    type V = FrontShape;

    open spec fn view(&self) -> FrontShape {
        match self {
            FrontValue::Text(text) => FrontShape::Text(text@),
            FrontValue::List(items) => FrontShape::List(
                Seq::new(items@.len(), |i: int| text_view(items@[i])),
            ),
            FrontValue::Other => FrontShape::Other,
        }
    }
}

/// The text of a content file without its front matter block and the
/// delimiters around it, as `gray_matter::Matter::parse` returns it in
/// `content`.
pub uninterp spec fn matter_body(text: Seq<char>) -> Seq<char>;

/// The parsed front matter of a content file, as
/// `gray_matter::Matter::parse` with the YAML engine returns it in `data`:
/// `None` where the file has no front matter.
pub uninterp spec fn matter_data(text: Seq<char>) -> Option<gray_matter::Pod>;

/// The mapping that a parsed value holds, as `gray_matter::Pod::as_hashmap`
/// returns it: each key with its value. `None` where the value is no mapping.
pub uninterp spec fn pod_table(pod: gray_matter::Pod) -> Option<Map<Seq<char>, gray_matter::Pod>>;

/// The text of a parsed value, as `gray_matter::Pod::as_string` returns it.
/// `None` where the value is no string.
pub uninterp spec fn pod_string(pod: gray_matter::Pod) -> Option<Seq<char>>;

/// The items of a parsed value, as `gray_matter::Pod::as_vec` returns them,
/// in the array's order. `None` where the value is no array.
pub uninterp spec fn pod_array(pod: gray_matter::Pod) -> Option<Seq<gray_matter::Pod>>;

/// No two pairs of the list have the same key.
pub open spec fn distinct_pair_keys(pairs: Seq<(String, gray_matter::Pod)>) -> bool {
    forall|i: int, j: int| 0 <= i < j < pairs.len() ==> (#[trigger] pairs[i]).0@ != (#[trigger] pairs[j]).0@
}

/// No two fields have the same key.
pub open spec fn distinct_keys(fields: Seq<FrontField>) -> bool {
    forall|i: int, j: int| 0 <= i < j < fields.len() ==> (#[trigger] fields[i]).key@ != (#[trigger] fields[j]).key@
}

/// Every item of the array is a string.
pub open spec fn all_text(items: Seq<Option<String>>) -> bool {
    forall|i: int| 0 <= i < items.len() ==> (#[trigger] items[i]) is Some
}

/// The texts of an array's items, in the array's order.
pub open spec fn item_texts(items: Seq<Option<String>>) -> Seq<Seq<char>> {
    Seq::new(items.len(), |i: int| items[i]->0@)
}

/// The mapping that a list of pairs makes: each key with its value.
pub open spec fn table_of(pairs: Seq<(String, gray_matter::Pod)>) -> Map<Seq<char>, gray_matter::Pod>
    decreases pairs.len(),
{
    if pairs.len() == 0 {
        Map::empty()
    } else {
        table_of(pairs.drop_last()).insert(pairs.last().0@, pairs.last().1)
    }
}

/// What a parsed value is read as. A string is read as its text. An array
/// is read as its items, in their order: a string item as its text, any
/// other item as `None`. A value of any other kind is read as
/// [`FrontShape::Other`].
pub open spec fn shape_of(pod: gray_matter::Pod) -> FrontShape {
    match pod_string(pod) {
        Some(text) => FrontShape::Text(text),
        None => match pod_array(pod) {
            Some(items) => FrontShape::List(Seq::new(items.len(), |i: int| pod_string(items[i]))),
            None => FrontShape::Other,
        },
    }
}

/// The values of a mapping, each as it is read.
pub open spec fn shapes(table: Map<Seq<char>, gray_matter::Pod>) -> Map<Seq<char>, FrontShape> {
    table.map_values(|pod: gray_matter::Pod| shape_of(pod))
}

/// The front matter of a content file: each key of the parsed mapping with
/// its value as it is read. No key where the file has no front matter, or
/// where the block is no mapping.
pub open spec fn matter_fields(text: Seq<char>) -> Map<Seq<char>, FrontShape> {
    match matter_data(text) {
        Some(pod) => match pod_table(pod) {
            Some(table) => shapes(table),
            None => Map::empty(),
        },
        None => Map::empty(),
    }
}

/// The mapping that a list of fields makes: each key with what its value
/// holds.
pub open spec fn field_map(fields: Seq<FrontField>) -> Map<Seq<char>, FrontShape>
    decreases fields.len(),
{
    if fields.len() == 0 {
        Map::empty()
    } else {
        field_map(fields.drop_last()).insert(fields.last().key@, fields.last().value@)
    }
}

/// Calls `gray_matter::Matter::<YAML>::new().parse(text)` and hands back the
/// fields `data` and `content` of the result. Both depend on the text alone,
/// and the contract names them.
#[verifier::external_body]
fn split_matter(text: &str) -> (parts: (Option<gray_matter::Pod>, String))
    ensures
        parts.0 == matter_data(text@),
        parts.1@ == matter_body(text@),
{
    let parsed = gray_matter::Matter::<gray_matter::engine::YAML>::new().parse(text);
    (parsed.data, parsed.content)
}

/// Calls `gray_matter::Pod::as_hashmap` and lists the pairs of the map that
/// comes back, in the order in which the map hands them out. `None` where the
/// value is not a mapping. The contract claims that no key comes twice, which
/// holds of every hash map, and that the pairs are those of the named
/// mapping; it claims nothing of the order.
#[verifier::external_body]
fn pod_fields(pod: &gray_matter::Pod) -> (pairs: Option<Vec<(String, gray_matter::Pod)>>)
    ensures
        match pairs {
            Some(list) => distinct_pair_keys(list@) && pod_table(*pod) == Some(table_of(list@)),
            None => pod_table(*pod) is None,
        },
{
    pod.as_hashmap().ok().map(|table| table.into_iter().collect())
}

/// Calls `gray_matter::Pod::as_string`: the text of a string value, `None`
/// for any other kind. The contract names what comes back.
#[verifier::external_body]
fn pod_text(pod: &gray_matter::Pod) -> (text: Option<String>)
    ensures
        text_view(text) == pod_string(*pod),
{
    pod.as_string().ok()
}

/// Calls `gray_matter::Pod::as_vec`: the items of an array value, `None` for
/// any other kind. The contract names what comes back.
#[verifier::external_body]
fn pod_items(pod: &gray_matter::Pod) -> (items: Option<Vec<gray_matter::Pod>>)
    ensures
        match items {
            Some(list) => pod_array(*pod) == Some(list@),
            None => pod_array(*pod) is None,
        },
{
    pod.as_vec().ok()
}

/// Reads one parsed value into a [`FrontValue`], from its text and items.
fn read_value(text: Option<String>, items: Option<Vec<Option<String>>>) -> (value: FrontValue)
    ensures
        value == read_as(text, items),
{
    match text {
        Some(text) => FrontValue::Text(text),
        None => match items {
            Some(items) => FrontValue::List(items),
            None => FrontValue::Other,
        },
    }
}

/// What a parsed value is read as. `text` is the text of the value where it
/// is a string. `items` are its items where it is an array, in the array's
/// order, each the text of a string item or `None` for an item of another
/// kind. A string is read as its text; an array as its items, in their
/// order; any other value as [`FrontValue::Other`].
pub open spec fn read_as(text: Option<String>, items: Option<Vec<Option<String>>>) -> FrontValue {
    match text {
        Some(text) => FrontValue::Text(text),
        None => match items {
            Some(items) => FrontValue::List(items),
            None => FrontValue::Other,
        },
    }
}

/// The texts of the items of an array, each item asked for its text in
/// turn.
fn read_items(pods: &Vec<gray_matter::Pod>) -> (texts: Vec<Option<String>>)
    ensures
        texts@.len() == pods@.len(),
        forall|i: int| 0 <= i < pods@.len() ==> text_view(#[trigger] texts@[i]) == pod_string(pods@[i]),
{
    let mut texts: Vec<Option<String>> = Vec::new();
    let mut k: usize = 0;
    while k < pods.len()
        invariant
            k <= pods.len(),
            texts.len() == k,
            forall|i: int| 0 <= i < k ==> text_view(#[trigger] texts@[i]) == pod_string(pods@[i]),
        decreases pods.len() - k,
    {
        texts.push(pod_text(&pods[k]));
        k = k + 1;
    }
    texts
}

/// Reads one parsed value: it is asked for its text and, where it has none,
/// for its items.
fn read_pod(pod: &gray_matter::Pod) -> (value: FrontValue)
    ensures
        value@ == shape_of(*pod),
{
    let text = pod_text(pod);
    let mut items: Option<Vec<Option<String>>> = None;
    if text.is_none() {
        if let Some(pods) = pod_items(pod) {
            let texts = read_items(&pods);
            assert(FrontValue::List(texts)@ == shape_of(*pod)) by {
                assert(Seq::new(texts@.len(), |i: int| text_view(texts@[i])) =~= Seq::new(
                    pods@.len(),
                    |i: int| pod_string(pods@[i]),
                ));
            }
            items = Some(texts);
        }
    }
    read_value(text, items)
}

/// The mapping of a list of fields after one more field.
pub proof fn lemma_field_map_push(fields: Seq<FrontField>, field: FrontField)
    ensures
        field_map(fields.push(field)) == field_map(fields).insert(field.key@, field.value@),
{
    assert(fields.push(field).drop_last() == fields);
}

/// Splits a content file into the keys of its front matter and the text
/// below it. The fields are those of the parsed front matter, each key once
/// with its value as it is read; they come in no promised order.
pub fn parse_document(text: &str) -> (doc: Document)
    ensures
        doc.body@ == matter_body(text@),
        distinct_keys(doc.fields@),
        field_map(doc.fields@) == matter_fields(text@),
{
    let (data, body) = split_matter(text);
    let mut fields: Vec<FrontField> = Vec::new();
    assert(shapes(Map::empty()) =~= Map::<Seq<char>, FrontShape>::empty());
    if let Some(pod) = data {
        if let Some(pairs) = pod_fields(&pod) {
            let mut i: usize = 0;
            assert(pairs@.take(0) =~= Seq::empty());
            while i < pairs.len()
                invariant
                    i <= pairs.len(),
                    fields.len() == i,
                    distinct_pair_keys(pairs@),
                    forall|j: int| 0 <= j < i ==> (#[trigger] fields@[j]).key@ == pairs@[j].0@,
                    field_map(fields@) == shapes(table_of(pairs@.take(i as int))),
                decreases pairs.len() - i,
            {
                let value = read_pod(&pairs[i].1);
                let field = FrontField { key: pairs[i].0.clone(), value };
                proof {
                    let done = pairs@.take(i as int);
                    let pair = pairs@[i as int];
                    assert(pairs@.take(i + 1).drop_last() == done);
                    assert(pairs@.take(i + 1).last() == pair);
                    lemma_field_map_push(fields@, field);
                    assert(shapes(table_of(done).insert(pair.0@, pair.1)) =~= shapes(
                        table_of(done),
                    ).insert(pair.0@, shape_of(pair.1)));
                }
                fields.push(field);
                i = i + 1;
            }
            assert(pairs@.take(pairs.len() as int) == pairs@);
        }
    }
    Document { fields, body }
}

} // verus!
