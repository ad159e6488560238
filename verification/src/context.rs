//! The variables that a template sees.
//!
//! A render context is a `tera::Context`: a map from names to values. The
//! site-wide context binds `settings` and `custom`; the context of a content
//! item adds the item's front matter and its rendered body on top.

use std::collections::HashMap;
use vstd::prelude::*;
use vstd::string::*;
use crate::front_matter::{
    all_text,
    distinct_keys,
    field_map,
    item_texts,
    matter_body,
    matter_data,
    matter_fields,
    pod_array,
    pod_string,
    pod_table,
    FrontField,
    FrontShape,
    FrontValue,
};
use crate::markdown::markdown_html;
use crate::utils::config_handler::{AppConfig, Settings};

verus! {

/// The render context of the template engine, `tera::Context`.
#[verifier::external_type_specification]
#[verifier::external_body]
pub struct ExContext(tera::Context);

/// What a member of an object is read as.
pub enum Member {
    /// A string.
    Text(Seq<char>),
    /// A value of any other kind.
    Other,
}

/// What a name of a render context is bound to. The engine holds a JSON
/// value for each name; this is what that value is read as.
pub enum ContextValue {
    /// A string.
    Text(Seq<char>),
    /// An array of strings, in its order.
    List(Seq<Seq<char>>),
    /// An object: each member under its name.
    Object(Map<Seq<char>, Member>),
    /// A value of any other kind.
    Other,
}

/// The bindings of a render context: each name that the context holds, with
/// what its value is read as.
pub uninterp spec fn context_entries(ctx: tera::Context) -> Map<Seq<char>, ContextValue>;

/// The members of the object that the custom variables make when they are
/// handed to the engine: each variable under its name, read as a
/// [`Member`].
pub uninterp spec fn custom_members(custom: Map<String, toml::Value>) -> Map<Seq<char>, Member>;

/// The bindings of a context that binds nothing.
pub open spec fn no_entries() -> Map<Seq<char>, ContextValue> {
    Map::empty()
}

/// The texts of a list of strings.
pub open spec fn texts(list: Seq<String>) -> Seq<Seq<char>> {
    Seq::new(list.len(), |i: int| list[i]@)
}

/// No two members have the same name.
pub open spec fn distinct_members(members: Seq<(String, String)>) -> bool {
    forall|i: int, j: int|
        0 <= i < j < members.len() ==> (#[trigger] members[i]).0@ != (#[trigger] members[j]).0@
}

/// The object that a list of members makes: each name with its text.
pub open spec fn record_of(members: Seq<(String, String)>) -> Map<Seq<char>, Member>
    decreases members.len(),
{
    if members.len() == 0 {
        Map::empty()
    } else {
        record_of(members.drop_last()).insert(members.last().0@, Member::Text(members.last().1@))
    }
}

/// The settings as an object: one member for each field, under the field's
/// name.
pub open spec fn settings_record(settings: Settings) -> Map<Seq<char>, Member> {
    Map::empty().insert("title"@, Member::Text(settings.title@)).insert(
        "theme"@,
        Member::Text(settings.theme@),
    ).insert("out_dir"@, Member::Text(settings.out_dir@)).insert(
        "asset_dir"@,
        Member::Text(settings.asset_dir@),
    )
}

/// The site-wide bindings: the settings under `settings` and the custom
/// variables under `custom`, apart from each other.
pub open spec fn global_entries(config: AppConfig) -> Map<Seq<char>, ContextValue> {
    no_entries().insert("settings"@, ContextValue::Object(settings_record(config.settings))).insert(
        "custom"@,
        ContextValue::Object(custom_members(config.custom@)),
    )
}

/// What a front matter value contributes to a context. A string stays a
/// string. An array of strings stays an ordered sequence of strings. Anything
/// else, an array with an item that is no string included, contributes
/// nothing.
pub open spec fn kept_value(value: FrontValue) -> Option<ContextValue> {
    match value {
        FrontValue::Text(text) => Some(ContextValue::Text(text@)),
        FrontValue::List(items) => if all_text(items@) {
            Some(ContextValue::List(item_texts(items@)))
        } else {
            None
        },
        FrontValue::Other => None,
    }
}

/// What a front matter value contributes to a context, from what the value
/// holds.
pub open spec fn kept_shape(shape: FrontShape) -> Option<ContextValue> {
    match shape {
        FrontShape::Text(text) => Some(ContextValue::Text(text)),
        FrontShape::List(items) => if forall|i: int|
            0 <= i < items.len() ==> (#[trigger] items[i]) is Some {
            Some(ContextValue::List(Seq::new(items.len(), |i: int| items[i]->0)))
        } else {
            None
        },
        FrontShape::Other => None,
    }
}

/// `base` with a front matter bound on top: each key whose value is kept is
/// bound to that value; every other name stays as the base has it.
pub open spec fn overlay(base: Map<Seq<char>, ContextValue>, matter: Map<Seq<char>, FrontShape>) -> Map<
    Seq<char>,
    ContextValue,
> {
    Map::new(
        |name: Seq<char>|
            base.contains_key(name) || (matter.contains_key(name) && kept_shape(matter[name])
                is Some),
        |name: Seq<char>|
            if matter.contains_key(name) && kept_shape(matter[name]) is Some {
                kept_shape(matter[name])->0
            } else {
                base[name]
            },
    )
}

/// The bindings of the detail page of a source text: the site-wide
/// bindings, then the front matter of the text on top of them, then
/// `content` bound to the body of the text as HTML on top of both.
pub open spec fn page_entries(global: Map<Seq<char>, ContextValue>, text: Seq<char>) -> Map<
    Seq<char>,
    ContextValue,
> {
    overlay(global, matter_fields(text)).insert(
        "content"@,
        ContextValue::Text(markdown_html(matter_body(text))),
    )
}

/// `base` with the front matter fields bound on top, one after the other.
pub open spec fn with_fields(base: Map<Seq<char>, ContextValue>, fields: Seq<FrontField>) -> Map<
    Seq<char>,
    ContextValue,
>
    decreases fields.len(),
{
    if fields.len() == 0 {
        base
    } else {
        let below = with_fields(base, fields.drop_last());
        match kept_value(fields.last().value) {
            Some(value) => below.insert(fields.last().key@, value),
            None => below,
        }
    }
}

/// The bindings of a content item: the site-wide bindings, then the front
/// matter on top of them, then `content` bound to the rendered body on top
/// of both.
pub open spec fn item_entries(
    global: Map<Seq<char>, ContextValue>,
    fields: Seq<FrontField>,
    html: Seq<char>,
) -> Map<Seq<char>, ContextValue> {
    with_fields(global, fields).insert("content"@, ContextValue::Text(html))
}

/// Calls `tera::Context::new`. The context that comes back binds nothing.
#[verifier::external_body]
fn empty_context() -> (ctx: tera::Context)
    ensures
        context_entries(ctx) == no_entries(),
{
    tera::Context::new()
}

/// Calls `Clone::clone` of `tera::Context`. The copy binds what the source
/// binds.
#[verifier::external_body]
fn copy_context(source: &tera::Context) -> (ctx: tera::Context)
    ensures
        context_entries(ctx) == context_entries(*source),
{
    source.clone()
}

/// Calls `tera::Context::insert` with a string. The key is bound to that
/// string, over any earlier binding; other keys stay.
#[verifier::external_body]
fn bind_text(ctx: &mut tera::Context, key: &str, value: &str)
    ensures
        context_entries(*final(ctx)) == context_entries(*old(ctx)).insert(
            key@,
            ContextValue::Text(value@),
        ),
{
    ctx.insert(key, value);
}

/// Calls `tera::Context::insert` with a list of strings. The key is bound to
/// the sequence of their texts, in the list's order.
#[verifier::external_body]
fn bind_list(ctx: &mut tera::Context, key: &str, value: &Vec<String>)
    ensures
        context_entries(*final(ctx)) == context_entries(*old(ctx)).insert(
            key@,
            ContextValue::List(texts(value@)),
        ),
{
    ctx.insert(key, value);
}

/// Calls `tera::Context::insert` with a `tera::Map` collected from the
/// members, each value a `tera::Value::String`. The key is bound to the
/// object that the members make. No name may come twice among the members,
/// so that it does not matter which of two would stand.
#[verifier::external_body]
fn bind_record(ctx: &mut tera::Context, key: &str, members: &Vec<(String, String)>)
    requires
        distinct_members(members@),
    ensures
        context_entries(*final(ctx)) == context_entries(*old(ctx)).insert(
            key@,
            ContextValue::Object(record_of(members@)),
        ),
{
    let record: tera::Map<String, tera::Value> = members.iter().map(
        |member| (member.0.clone(), tera::Value::String(member.1.clone())),
    ).collect();
    ctx.insert(key, &record);
}

/// Calls `tera::Context::insert` with the custom variables. The key is bound
/// to the object that they make, whose members are named.
#[verifier::external_body]
fn bind_custom(ctx: &mut tera::Context, key: &str, custom: &HashMap<String, toml::Value>)
    ensures
        context_entries(*final(ctx)) == context_entries(*old(ctx)).insert(
            key@,
            ContextValue::Object(custom_members(custom@)),
        ),
{
    ctx.insert(key, custom);
}

/// `record_of` after one more member.
proof fn lemma_record_push(members: Seq<(String, String)>, member: (String, String))
    ensures
        record_of(members.push(member)) == record_of(members).insert(
            member.0@,
            Member::Text(member.1@),
        ),
{
    assert(members.push(member).drop_last() == members);
}

/// The four settings as the members of an object.
fn settings_members(settings: &Settings) -> (members: Vec<(String, String)>)
    ensures
        record_of(members@) == settings_record(*settings),
        distinct_members(members@),
{
    let mut members: Vec<(String, String)> = Vec::new();
    assert(record_of(members@) == Map::<Seq<char>, Member>::empty());
    let title = (String::from_str("title"), settings.title.clone());
    proof {
        lemma_record_push(members@, title);
    }
    members.push(title);
    let theme = (String::from_str("theme"), settings.theme.clone());
    proof {
        lemma_record_push(members@, theme);
    }
    members.push(theme);
    let out_dir = (String::from_str("out_dir"), settings.out_dir.clone());
    proof {
        lemma_record_push(members@, out_dir);
    }
    members.push(out_dir);
    let asset_dir = (String::from_str("asset_dir"), settings.asset_dir.clone());
    proof {
        lemma_record_push(members@, asset_dir);
    }
    members.push(asset_dir);
    proof {
        reveal_strlit("title");
        reveal_strlit("theme");
        reveal_strlit("out_dir");
        reveal_strlit("asset_dir");
        assert(members@[0].0@ == "title"@);
        assert(members@[1].0@ == "theme"@);
        assert(members@[2].0@ == "out_dir"@);
        assert(members@[3].0@ == "asset_dir"@);
        assert("title"@[1] != "theme"@[1]);
        assert("title"@.len() != "out_dir"@.len());
        assert("title"@.len() != "asset_dir"@.len());
        assert("theme"@.len() != "out_dir"@.len());
        assert("theme"@.len() != "asset_dir"@.len());
        assert("out_dir"@.len() != "asset_dir"@.len());
    }
    members
}

/// A copy of a context. It binds what the source binds.
pub fn copy_of(source: &tera::Context) -> (ctx: tera::Context)
    ensures
        context_entries(ctx) == context_entries(*source),
{
    copy_context(source)
}

/// The site-wide context of a build.
pub fn build_global_context(config: &AppConfig) -> (ctx: tera::Context)
    ensures
        context_entries(ctx) == global_entries(*config),
{
    let mut ctx = empty_context();
    let members = settings_members(&config.settings);
    bind_record(&mut ctx, "settings", &members);
    bind_custom(&mut ctx, "custom", &config.custom);
    ctx
}

/// The texts of an array's items where every item is a string, `None`
/// where one is not.
fn list_texts(items: &Vec<Option<String>>) -> (list: Option<Vec<String>>)
    ensures
        list is Some <==> all_text(items@),
        list matches Some(found) ==> texts(found@) == item_texts(items@),
{
    let mut found: Vec<String> = Vec::new();
    let mut i: usize = 0;
    while i < items.len()
        invariant
            i <= items.len(),
            found.len() == i,
            forall|j: int| 0 <= j < i ==> (#[trigger] items@[j]) is Some,
            forall|j: int| 0 <= j < i ==> (#[trigger] found@[j])@ == items@[j]->0@,
        decreases items.len() - i,
    {
        match &items[i] {
            Some(text) => {
                found.push(text.clone());
            },
            None => {
                return None;
            },
        }
        i = i + 1;
    }
    assert(texts(found@) == item_texts(items@));
    Some(found)
}

/// Binds one front matter field on top of the context.
fn bind_field(ctx: &mut tera::Context, field: &FrontField)
    ensures
        context_entries(*final(ctx)) == (match kept_value(field.value) {
            Some(value) => context_entries(*old(ctx)).insert(field.key@, value),
            None => context_entries(*old(ctx)),
        }),
{
    match &field.value {
        FrontValue::Text(text) => {
            bind_text(ctx, field.key.as_str(), text.as_str());
        },
        FrontValue::List(items) => {
            if let Some(list) = list_texts(items) {
                bind_list(ctx, field.key.as_str(), &list);
            }
        },
        FrontValue::Other => {},
    }
}

/// The context of a content item. It starts from a copy of the site-wide
/// context, binds each front matter field that is a string or an array of
/// strings, and binds `content` to the rendered body last. A field of any
/// other kind is passed over without an error.
pub fn build_item_context(global: &tera::Context, fields: &Vec<FrontField>, html: &str) -> (ctx:
    tera::Context)
    ensures
        context_entries(ctx) == item_entries(context_entries(*global), fields@, html@),
{
    let mut ctx = copy_context(global);
    let mut i: usize = 0;
    while i < fields.len()
        invariant
            i <= fields.len(),
            context_entries(ctx) == with_fields(context_entries(*global), fields@.take(i as int)),
        decreases fields.len() - i,
    {
        proof {
            assert(fields@.take(i + 1).drop_last() == fields@.take(i as int));
            assert(fields@.take(i + 1).last() == fields@[i as int]);
        }
        bind_field(&mut ctx, &fields[i]);
        i = i + 1;
    }
    assert(fields@.take(fields.len() as int) == fields@);
    bind_text(&mut ctx, "content", html);
    ctx
}

/// A name that is the key of no field is bound after the fields as it was
/// bound before them.
pub proof fn lemma_other_names_stay(
    base: Map<Seq<char>, ContextValue>,
    fields: Seq<FrontField>,
    name: Seq<char>,
)
    requires
        forall|i: int| 0 <= i < fields.len() ==> (#[trigger] fields[i]).key@ != name,
    ensures
        with_fields(base, fields).contains_key(name) == base.contains_key(name),
        base.contains_key(name) ==> with_fields(base, fields)[name] == base[name],
    decreases fields.len(),
{
    if fields.len() > 0 {
        let init = fields.drop_last();
        assert forall|i: int| 0 <= i < init.len() implies (#[trigger] init[i]).key@ != name by {
            assert(init[i] == fields[i]);
        }
        lemma_other_names_stay(base, init, name);
        assert(fields.last() == fields[fields.len() - 1]);
    }
}

/// Where no key comes twice, each field decides what its own key is bound
/// to. A field whose value is kept binds its key to that value. A field
/// whose value is dropped leaves its key as the base has it.
pub proof fn lemma_field_binding(
    base: Map<Seq<char>, ContextValue>,
    fields: Seq<FrontField>,
    i: int,
)
    requires
        distinct_keys(fields),
        0 <= i < fields.len(),
    ensures
        match kept_value(fields[i].value) {
            Some(value) => with_fields(base, fields).contains_key(fields[i].key@) && with_fields(
                base,
                fields,
            )[fields[i].key@] == value,
            None => with_fields(base, fields).contains_key(fields[i].key@) == base.contains_key(
                fields[i].key@,
            ) && (base.contains_key(fields[i].key@) ==> with_fields(base, fields)[fields[i].key@]
                == base[fields[i].key@]),
        },
    decreases fields.len(),
{
    let init = fields.drop_last();
    let key = fields[i].key@;
    assert(fields.last() == fields[fields.len() - 1]);
    if i == fields.len() - 1 {
        assert forall|j: int| 0 <= j < init.len() implies (#[trigger] init[j]).key@ != key by {
            assert(init[j] == fields[j]);
        }
        lemma_other_names_stay(base, init, key);
    } else {
        assert forall|a: int, b: int| 0 <= a < b < init.len() implies (#[trigger] init[a]).key@ != (
        #[trigger] init[b]).key@ by {
            assert(init[a] == fields[a] && init[b] == fields[b]);
        }
        assert(init[i] == fields[i]);
        lemma_field_binding(base, init, i);
        assert(fields[i].key@ != fields[fields.len() - 1].key@);
    }
}

/// What the front matter of an item comes to in its context.
///
/// Take fields of which no key comes twice, and one of them whose key is
/// not `content`. A string is bound as that string. An array of strings is
/// bound as the sequence of its strings, in the array's order. A value of
/// any other kind never appears: its key is bound only if the site-wide
/// context binds it, and then to the site-wide value. So a field stands
/// over a site-wide binding of the same name, and only the rendered body
/// stands over a field.
pub proof fn lemma_front_matter_in_context(
    global: Map<Seq<char>, ContextValue>,
    fields: Seq<FrontField>,
    html: Seq<char>,
    i: int,
)
    requires
        distinct_keys(fields),
        0 <= i < fields.len(),
        fields[i].key@ != "content"@,
    ensures
        ({
            let ctx = item_entries(global, fields, html);
            let key = fields[i].key@;
            let kept = match fields[i].value {
                FrontValue::Text(text) => Some(ContextValue::Text(text@)),
                FrontValue::List(items) => if all_text(items@) {
                    Some(ContextValue::List(item_texts(items@)))
                } else {
                    None
                },
                FrontValue::Other => None,
            };
            &&& ctx.contains_key("content"@) && ctx["content"@] == ContextValue::Text(html)
            &&& match kept {
                Some(value) => ctx.contains_key(key) && ctx[key] == value,
                None => ctx.contains_key(key) == global.contains_key(key) && (global.contains_key(
                    key,
                ) ==> ctx[key] == global[key]),
            }
        }),
{
    lemma_field_binding(global, fields, i);
}

/// Two fields bind the same name to the same value, or both bind nothing.
pub open spec fn same_binding(x: FrontField, y: FrontField) -> bool {
    x.key@ == y.key@ && kept_value(x.value) == kept_value(y.value)
}

/// Every field of `a` has a field of `b` that binds the same.
pub open spec fn covered_by(a: Seq<FrontField>, b: Seq<FrontField>) -> bool {
    forall|i: int|
        0 <= i < a.len() ==> exists|j: int| 0 <= j < b.len() && same_binding(#[trigger] a[i], b[j])
}

/// The order of the front matter fields does not matter. Two lists of
/// fields that hold the same keys with the same values, each key once, make
/// the same bindings.
pub proof fn lemma_field_order_is_irrelevant(
    base: Map<Seq<char>, ContextValue>,
    a: Seq<FrontField>,
    b: Seq<FrontField>,
)
    requires
        distinct_keys(a),
        distinct_keys(b),
        covered_by(a, b),
        covered_by(b, a),
    ensures
        with_fields(base, a) == with_fields(base, b),
{
    let left = with_fields(base, a);
    let right = with_fields(base, b);
    assert forall|name: Seq<char>|
        (#[trigger] left.dom().contains(name)) == right.dom().contains(name) && (left.dom().contains(
            name,
        ) ==> left[name] == right[name]) by {
        if exists|i: int| 0 <= i < a.len() && (#[trigger] a[i]).key@ == name {
            let i = choose|i: int| 0 <= i < a.len() && (#[trigger] a[i]).key@ == name;
            let j = choose|j: int| 0 <= j < b.len() && same_binding(a[i], b[j]);
            lemma_field_binding(base, a, i);
            lemma_field_binding(base, b, j);
        } else {
            assert forall|j: int| 0 <= j < b.len() implies (#[trigger] b[j]).key@ != name by {
                let i = choose|i: int| 0 <= i < a.len() && same_binding(b[j], a[i]);
                assert(a[i].key@ == b[j].key@);
            }
            lemma_other_names_stay(base, a, name);
            lemma_other_names_stay(base, b, name);
        }
    }
    assert(left.dom() =~= right.dom());
    assert(left =~= right);
}

/// What a value contributes is what its shape contributes.
pub proof fn lemma_kept_value_is_kept_shape(value: FrontValue)
    ensures
        kept_value(value) == kept_shape(value@),
{
    match value {
        FrontValue::List(items) => {
            let shapes = value@->List_0;
            assert(forall|i: int|
                0 <= i < items@.len() ==> ((#[trigger] shapes[i]) is Some <==> items@[i] is Some));
            if all_text(items@) {
                assert forall|i: int| 0 <= i < shapes.len() implies (#[trigger] shapes[i]) is Some by {
                    assert(items@[i] is Some);
                }
                assert(item_texts(items@) =~= Seq::new(shapes.len(), |i: int| shapes[i]->0));
            } else {
                let i = choose|i: int| 0 <= i < items@.len() && !((#[trigger] items@[i]) is Some);
                assert(!(shapes[i] is Some));
            }
        },
        _ => {},
    }
}

/// Where no key comes twice, the mapping of the fields holds each field
/// under its key.
pub proof fn lemma_field_map_holds(fields: Seq<FrontField>, i: int)
    requires
        distinct_keys(fields),
        0 <= i < fields.len(),
    ensures
        field_map(fields).contains_key(fields[i].key@),
        field_map(fields)[fields[i].key@] == fields[i].value@,
    decreases fields.len(),
{
    let init = fields.drop_last();
    assert(fields.last() == fields[fields.len() - 1]);
    if i < fields.len() - 1 {
        assert forall|a: int, b: int| 0 <= a < b < init.len() implies (#[trigger] init[a]).key@ != (
        #[trigger] init[b]).key@ by {
            assert(init[a] == fields[a] && init[b] == fields[b]);
        }
        assert(init[i] == fields[i]);
        lemma_field_map_holds(init, i);
        assert(fields[i].key@ != fields[fields.len() - 1].key@);
    }
}

/// The mapping of the fields holds no key but those of the fields.
pub proof fn lemma_field_map_keys(fields: Seq<FrontField>, name: Seq<char>)
    requires
        field_map(fields).contains_key(name),
    ensures
        exists|i: int| 0 <= i < fields.len() && (#[trigger] fields[i]).key@ == name,
    decreases fields.len(),
{
    if fields.len() > 0 {
        let init = fields.drop_last();
        if fields.last().key@ == name {
            assert(fields[fields.len() - 1].key@ == name);
        } else {
            lemma_field_map_keys(init, name);
            let i = choose|i: int| 0 <= i < init.len() && (#[trigger] init[i]).key@ == name;
            assert(fields[i].key@ == name);
        }
    }
}

/// Binding the fields one after the other is binding their mapping, where
/// no key comes twice. So the bindings depend on the fields that a front
/// matter holds and not on the order in which they are listed.
pub proof fn lemma_fields_bind_their_mapping(base: Map<Seq<char>, ContextValue>, fields: Seq<FrontField>)
    requires
        distinct_keys(fields),
    ensures
        with_fields(base, fields) == overlay(base, field_map(fields)),
{
    let left = with_fields(base, fields);
    let matter = field_map(fields);
    let right = overlay(base, matter);
    assert forall|name: Seq<char>|
        (#[trigger] left.dom().contains(name)) == right.dom().contains(name) && (left.dom().contains(
            name,
        ) ==> left[name] == right[name]) by {
        if exists|i: int| 0 <= i < fields.len() && (#[trigger] fields[i]).key@ == name {
            let i = choose|i: int| 0 <= i < fields.len() && (#[trigger] fields[i]).key@ == name;
            lemma_field_binding(base, fields, i);
            lemma_field_map_holds(fields, i);
            lemma_kept_value_is_kept_shape(fields[i].value);
        } else {
            lemma_other_names_stay(base, fields, name);
            if matter.contains_key(name) {
                lemma_field_map_keys(fields, name);
            }
        }
    }
    assert(left.dom() =~= right.dom());
    assert(left =~= right);
}

/// What the front matter of a source text comes to on its page.
///
/// The rendered body stands under `content`. Take a key of the front matter
/// other than `content`. Where its value is kept, the page binds the key to
/// that value, over any site-wide binding of the same name. Where its value
/// is dropped, the key is bound only if the site-wide bindings bind it, and
/// then to the site-wide value.
pub proof fn lemma_front_matter_reaches_page(
    global: Map<Seq<char>, ContextValue>,
    text: Seq<char>,
    name: Seq<char>,
)
    requires
        name != "content"@,
    ensures
        ({
            let page = page_entries(global, text);
            &&& page.contains_key("content"@) && page["content"@] == ContextValue::Text(
                markdown_html(matter_body(text)),
            )
            &&& matter_fields(text).contains_key(name) ==> match kept_shape(
                matter_fields(text)[name],
            ) {
                Some(value) => page.contains_key(name) && page[name] == value,
                None => page.contains_key(name) == global.contains_key(name) && (
                global.contains_key(name) ==> page[name] == global[name]),
            }
        }),
{
}

/// The front matter of the text holds the key, and its value is an array of
/// which every item is a string.
pub open spec fn is_text_array(text: Seq<char>, name: Seq<char>) -> bool {
    &&& matter_data(text) is Some
    &&& pod_table(matter_data(text)->0) is Some
    &&& pod_table(matter_data(text)->0)->0.contains_key(name)
    &&& pod_string(array_value(text, name)) is None
    &&& pod_array(array_value(text, name)) is Some
    &&& forall|i: int|
        0 <= i < array_items(text, name).len() ==> pod_string(#[trigger] array_items(text, name)[i])
            is Some
}

/// The parsed value of a key of the front matter.
pub open spec fn array_value(text: Seq<char>, name: Seq<char>) -> gray_matter::Pod {
    pod_table(matter_data(text)->0)->0[name]
}

/// The items of the parsed value of a key of the front matter, in the order
/// in which the parser holds them.
pub open spec fn array_items(text: Seq<char>, name: Seq<char>) -> Seq<gray_matter::Pod> {
    pod_array(array_value(text, name))->0
}

/// An array of strings reaches the page in the order of the array.
///
/// Take a key of the parsed front matter other than `content` whose value
/// is an array of which every item is a string. Then the page binds the
/// key to the texts of the items, in the order in which the parser holds
/// them.
pub proof fn lemma_arrays_keep_their_order(
    global: Map<Seq<char>, ContextValue>,
    text: Seq<char>,
    name: Seq<char>,
)
    requires
        name != "content"@,
    ensures
        is_text_array(text, name) ==> page_entries(global, text).contains_key(name) && page_entries(
            global,
            text,
        )[name] == ContextValue::List(
            Seq::new(
                array_items(text, name).len(),
                |i: int| pod_string(array_items(text, name)[i])->0,
            ),
        ),
{
    if is_text_array(text, name) {
        let items = array_items(text, name);
        let read = Seq::new(items.len(), |i: int| pod_string(items[i]));
        assert(matter_fields(text)[name] == FrontShape::List(read));
        assert forall|i: int| 0 <= i < read.len() implies (#[trigger] read[i]) is Some by {
            assert(pod_string(items[i]) is Some);
        }
        assert(Seq::new(read.len(), |i: int| read[i]->0) =~= Seq::new(
            items.len(),
            |i: int| pod_string(items[i])->0,
        ));
    }
}

} // verus!
