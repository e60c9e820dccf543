//! The definitions of tools as providers get them.
use crate::json;
use crate::json::{
    array, no_entries, no_values, object, push_entry, push_value, text_value, Json, JsonView,
};
use crate::text;
use crate::text::{cat3, same};
use crate::tools::catalog;
use crate::tools::catalog::{values_of, DescriptorView, RequirementKind, ToolDescriptor};
use crate::tools::tables::{
    SCHEMAS, SCHEMA_CHOICES, SCHEMA_FILLED_LISTS, SCHEMA_FILLED_STRINGS, SCHEMA_LINK_LIMITED,
    SCHEMA_LISTS, SCHEMA_MAXIMUMS, SCHEMA_MINIMUMS, SCHEMA_PAGE_LIMITED, SCHEMA_PROPERTIES,
    SCHEMA_REQUIRED,
};
use vstd::prelude::*;

verus! {

/// What the definitions of tools take from the configuration.
pub struct ToolSchemaSettings {
    pub max_page_bytes: u64,
    pub max_links: u64,
    pub provider_selector_summary: String,
    pub web_search_providers: Vec<String>,
    pub web_search_provider_description: String,
}

/// Whether a table holds a pair.
pub open spec fn holds(t: Seq<(&'static str, &'static str)>, tool: Seq<char>, property: Seq<char>) -> bool {
    exists|i: int| 0 <= i < t.len() && (#[trigger] t[i]).0@ == tool && t[i].1@ == property
}

fn table_holds(t: &[(&'static str, &'static str)], tool: &str, property: &str) -> (r: bool)
    ensures
        r == holds(t@, tool@, property@),
{
    let mut i: usize = 0;
    while i < t.len()
        invariant
            i <= t@.len(),
            forall|j: int|
                0 <= j < i ==> !((#[trigger] t@[j]).0@ == tool@ && t@[j].1@ == property@),
        decreases t@.len() - i,
    {
        if same(t[i].0, tool) && same(t[i].1, property) {
            return true;
        }
        i += 1;
    }
    false
}

/// The number of a table under a pair.
pub open spec fn number_for(
    t: Seq<(&'static str, &'static str, u64)>,
    tool: Seq<char>,
    property: Seq<char>,
) -> Option<u64>
    decreases t.len(),
{
    if t.len() == 0 {
        None
    } else if t[0].0@ == tool && t[0].1@ == property {
        Some(t[0].2)
    } else {
        number_for(t.skip(1), tool, property)
    }
}

fn number_of(t: &[(&'static str, &'static str, u64)], tool: &str, property: &str) -> (r: Option<u64>)
    ensures
        r == number_for(t@, tool@, property@),
{
    let mut i: usize = 0;
    assert(t@.skip(0) =~= t@);
    while i < t.len()
        invariant
            i <= t@.len(),
            number_for(t@, tool@, property@) == number_for(t@.skip(i as int), tool@, property@),
        decreases t@.len() - i,
    {
        assert(t@.skip(i as int)[0] == t@[i as int]);
        assert(t@.skip(i as int).skip(1) =~= t@.skip(i + 1));
        if same(t[i].0, tool) && same(t[i].1, property) {
            return Some(t[i].2);
        }
        i += 1;
    }
    None
}

/// The values of a table under a pair, in its order.
pub open spec fn choices_for(
    t: Seq<(&'static str, &'static str, &'static str)>,
    tool: Seq<char>,
    property: Seq<char>,
) -> Seq<Seq<char>>
    decreases t.len(),
{
    if t.len() == 0 {
        Seq::empty()
    } else if t.last().0@ == tool && t.last().1@ == property {
        choices_for(t.drop_last(), tool, property).push(t.last().2@)
    } else {
        choices_for(t.drop_last(), tool, property)
    }
}

fn choices_of(
    t: &[(&'static str, &'static str, &'static str)],
    tool: &str,
    property: &str,
) -> (r: Vec<&'static str>)
    ensures
        catalog::strs(r@) == choices_for(t@, tool@, property@),
{
    let mut r: Vec<&'static str> = Vec::new();
    let mut i: usize = 0;
    assert(catalog::strs(r@) =~= choices_for(t@.take(0), tool@, property@));
    while i < t.len()
        invariant
            i <= t@.len(),
            catalog::strs(r@) == choices_for(t@.take(i as int), tool@, property@),
        decreases t@.len() - i,
    {
        assert(t@.take(i + 1).drop_last() =~= t@.take(i as int));
        if same(t[i].0, tool) && same(t[i].1, property) {
            assert(catalog::strs(r@.push(t[i as int].2)) =~= catalog::strs(r@).push(
                t[i as int].2@,
            ));
            r.push(t[i].2);
        }
        i += 1;
    }
    assert(t@.take(i as int) =~= t@);
    r
}

/// Texts as an array.
pub open spec fn text_array(s: Seq<Seq<char>>) -> JsonView {
    JsonView::Array(Seq::new(s.len(), |i: int| JsonView::Text(s[i])))
}

fn strs_value(v: &Vec<&'static str>) -> (r: Json)
    ensures
        r@ == text_array(catalog::strs(v@)),
{
    let mut out = no_values();
    let mut i: usize = 0;
    let ghost all = Seq::new(v@.len(), |i: int| JsonView::Text(catalog::strs(v@)[i]));
    assert(json::values(out@) =~= all.take(0));
    while i < v.len()
        invariant
            i <= v@.len(),
            all == Seq::new(v@.len(), |i: int| JsonView::Text(catalog::strs(v@)[i])),
            json::values(out@) == all.take(i as int),
        decreases v@.len() - i,
    {
        push_value(&mut out, text_value(v[i]));
        assert(all.take(i + 1) =~= all.take(i as int).push(all[i as int]));
        i += 1;
    }
    assert(all.take(i as int) =~= all);
    array(out)
}

fn texts_value(v: &Vec<String>) -> (r: Json)
    ensures
        r@ == text_array(text::texts(v@)),
{
    let mut out = no_values();
    let mut i: usize = 0;
    let ghost all = Seq::new(v@.len(), |i: int| JsonView::Text(text::texts(v@)[i]));
    assert(json::values(out@) =~= all.take(0));
    while i < v.len()
        invariant
            i <= v@.len(),
            all == Seq::new(v@.len(), |i: int| JsonView::Text(text::texts(v@)[i])),
            json::values(out@) == all.take(i as int),
        decreases v@.len() - i,
    {
        push_value(&mut out, text_value(v[i].as_str()));
        assert(all.take(i + 1) =~= all.take(i as int).push(all[i as int]));
        i += 1;
    }
    assert(all.take(i as int) =~= all);
    array(out)
}

/// The greatest value of a property.
pub open spec fn maximum_of(
    tool: Seq<char>,
    property: Seq<char>,
    settings: ToolSchemaSettings,
) -> Option<u64> {
    if holds(SCHEMA_PAGE_LIMITED@, tool, property) {
        Some(settings.max_page_bytes)
    } else if holds(SCHEMA_LINK_LIMITED@, tool, property) {
        Some(settings.max_links)
    } else {
        number_for(SCHEMA_MAXIMUMS@, tool, property)
    }
}

/// Whether a property is the provider of a web search.
pub open spec fn is_search_provider(tool: Seq<char>, property: Seq<char>) -> bool {
    tool == "web.search"@ && property == "provider"@
}

/// The values that a property chooses from.
pub open spec fn property_choices(
    tool: Seq<char>,
    property: Seq<char>,
    settings: ToolSchemaSettings,
) -> Option<Seq<Seq<char>>> {
    if is_search_provider(tool, property) {
        Some(text::texts(settings.web_search_providers@))
    } else {
        let v = choices_for(SCHEMA_CHOICES@, tool, property);
        if v.len() > 0 {
            Some(v)
        } else {
            None
        }
    }
}

/// What a property is said to be.
pub open spec fn property_description(
    tool: Seq<char>,
    property: Seq<char>,
    given: Seq<char>,
    settings: ToolSchemaSettings,
) -> Seq<char> {
    if is_search_provider(tool, property) {
        settings.web_search_provider_description@
    } else if tool == "provider.switch"@ && property == "selector"@ {
        "Optional provider selector. Accepts a "@ + settings.provider_selector_summary@
            + " such as `openai-gpt-5`, `gpt-5.1-codex`, or `deepseek`. When omitted, the tool reports current provider state without changing it."@
    } else {
        given
    }
}

/// An entry of a number, where there is one.
pub open spec fn number_entry(key: Seq<char>, n: Option<u64>) -> Seq<(Seq<char>, JsonView)> {
    match n {
        Some(x) => seq![(key, JsonView::Integer(x as int))],
        None => Seq::empty(),
    }
}

/// The entry of the values that a property chooses from.
pub open spec fn choices_entry(v: Option<Seq<Seq<char>>>) -> Seq<(Seq<char>, JsonView)> {
    match v {
        Some(x) => seq![("enum"@, text_array(x))],
        None => Seq::empty(),
    }
}

/// The entry of what the items of a list are.
pub open spec fn items_entry(list: bool) -> Seq<(Seq<char>, JsonView)> {
    if list {
        seq![("items"@, JsonView::Object(seq![("type"@, JsonView::Text("string"@))]))]
    } else {
        Seq::empty()
    }
}

/// The definition of a property.
pub open spec fn property_json(
    tool: Seq<char>,
    property: Seq<char>,
    kind: Seq<char>,
    given: Seq<char>,
    settings: ToolSchemaSettings,
) -> JsonView {
    JsonView::Object(
        seq![("type"@, JsonView::Text(kind))] + number_entry(
            "minimum"@,
            number_for(SCHEMA_MINIMUMS@, tool, property),
        ) + number_entry("maximum"@, maximum_of(tool, property, settings)) + number_entry(
            "minLength"@,
            if holds(SCHEMA_FILLED_STRINGS@, tool, property) {
                Some(1u64)
            } else {
                None
            },
        ) + choices_entry(property_choices(tool, property, settings)) + items_entry(
            holds(SCHEMA_LISTS@, tool, property),
        ) + number_entry(
            "minItems"@,
            if holds(SCHEMA_FILLED_LISTS@, tool, property) {
                Some(1u64)
            } else {
                None
            },
        ) + seq![
            ("description"@, JsonView::Text(property_description(tool, property, given, settings))),
        ],
    )
}

fn push_number(v: &mut Vec<(String, Json)>, key: &str, n: Option<u64>)
    ensures
        json::entries(final(v)@) == json::entries(old(v)@) + number_entry(key@, n),
{
    if let Some(x) = n {
        push_entry(v, key, Json::Unsigned(x));
    }
    assert(json::entries(v@) =~= json::entries(old(v)@) + number_entry(key@, n));
}

fn property_definition(
    tool: &str,
    property: &str,
    kind: &str,
    given: &str,
    settings: &ToolSchemaSettings,
) -> (r: Json)
    ensures
        r@ == property_json(tool@, property@, kind@, given@, *settings),
{
    let mut v = no_entries();
    push_entry(&mut v, "type", text_value(kind));
    assert(json::entries(v@) =~= seq![("type"@, JsonView::Text(kind@))]);
    push_number(&mut v, "minimum", number_of(&SCHEMA_MINIMUMS, tool, property));
    let maximum: Option<u64> = if table_holds(&SCHEMA_PAGE_LIMITED, tool, property) {
        Some(settings.max_page_bytes)
    } else if table_holds(&SCHEMA_LINK_LIMITED, tool, property) {
        Some(settings.max_links)
    } else {
        number_of(&SCHEMA_MAXIMUMS, tool, property)
    };
    push_number(&mut v, "maximum", maximum);
    let min_length: Option<u64> = if table_holds(&SCHEMA_FILLED_STRINGS, tool, property) {
        Some(1)
    } else {
        None
    };
    push_number(&mut v, "minLength", min_length);
    let search_provider = same(tool, "web.search") && same(property, "provider");
    let ghost before = json::entries(v@);
    if search_provider {
        push_entry(&mut v, "enum", texts_value(&settings.web_search_providers));
    } else {
        let choices = choices_of(&SCHEMA_CHOICES, tool, property);
        if choices.len() > 0 {
            push_entry(&mut v, "enum", strs_value(&choices));
        }
    }
    assert(json::entries(v@) =~= before + choices_entry(
        property_choices(tool@, property@, *settings),
    ));
    let ghost before = json::entries(v@);
    let list = table_holds(&SCHEMA_LISTS, tool, property);
    if list {
        let mut item = no_entries();
        push_entry(&mut item, "type", text_value("string"));
        assert(json::entries(item@) =~= seq![("type"@, JsonView::Text("string"@))]);
        push_entry(&mut v, "items", object(item));
    }
    assert(json::entries(v@) =~= before + items_entry(list));
    let min_items: Option<u64> = if table_holds(&SCHEMA_FILLED_LISTS, tool, property) {
        Some(1)
    } else {
        None
    };
    push_number(&mut v, "minItems", min_items);
    let ghost before = json::entries(v@);
    if search_provider {
        push_entry(
            &mut v,
            "description",
            text_value(settings.web_search_provider_description.as_str()),
        );
    } else if same(tool, "provider.switch") && same(property, "selector") {
        let body = cat3(
            "Optional provider selector. Accepts a ",
            settings.provider_selector_summary.as_str(),
            " such as `openai-gpt-5`, `gpt-5.1-codex`, or `deepseek`. When omitted, the tool reports current provider state without changing it.",
        );
        push_entry(&mut v, "description", text_value(body.as_str()));
    } else {
        push_entry(&mut v, "description", text_value(given));
    }
    assert(json::entries(v@) =~= before + seq![
        (
            "description"@,
            JsonView::Text(property_description(tool@, property@, given@, *settings)),
        ),
    ]);
    object(v)
}

/// The properties of a tool with their definitions, in the order of the table.
pub open spec fn properties_json(
    t: Seq<(&'static str, &'static str, &'static str, &'static str)>,
    tool: Seq<char>,
    settings: ToolSchemaSettings,
) -> Seq<(Seq<char>, JsonView)>
    decreases t.len(),
{
    if t.len() == 0 {
        Seq::empty()
    } else if t.last().0@ == tool {
        properties_json(t.drop_last(), tool, settings).push(
            (
                t.last().1@,
                property_json(tool, t.last().1@, t.last().2@, t.last().3@, settings),
            ),
        )
    } else {
        properties_json(t.drop_last(), tool, settings)
    }
}

fn property_definitions(
    t: &[(&'static str, &'static str, &'static str, &'static str)],
    tool: &str,
    settings: &ToolSchemaSettings,
) -> (r: Vec<(String, Json)>)
    ensures
        json::entries(r@) == properties_json(t@, tool@, *settings),
{
    let mut v = no_entries();
    let mut i: usize = 0;
    assert(json::entries(v@) =~= properties_json(t@.take(0), tool@, *settings));
    while i < t.len()
        invariant
            i <= t@.len(),
            json::entries(v@) == properties_json(t@.take(i as int), tool@, *settings),
        decreases t@.len() - i,
    {
        assert(t@.take(i + 1).drop_last() =~= t@.take(i as int));
        if same(t[i].0, tool) {
            push_entry(
                &mut v,
                t[i].1,
                property_definition(tool, t[i].1, t[i].2, t[i].3, settings),
            );
        }
        i += 1;
    }
    assert(t@.take(i as int) =~= t@);
    v
}

/// The row of a tool in the table of definitions.
pub open spec fn schema_row(
    t: Seq<(&'static str, &'static str, RequirementKind, bool)>,
    tool: Seq<char>,
) -> Option<(Seq<char>, RequirementKind, bool)>
    decreases t.len(),
{
    if t.len() == 0 {
        None
    } else if t[0].0@ == tool {
        Some((t[0].1@, t[0].2, t[0].3))
    } else {
        schema_row(t.skip(1), tool)
    }
}

fn find_schema_row(t: &[(&'static str, &'static str, RequirementKind, bool)], tool: &str) -> (r:
    Option<(&'static str, RequirementKind, bool)>)
    ensures
        (match r {
            Some((d, k, c)) => schema_row(t@, tool@) == Some((d@, k, c)),
            None => schema_row(t@, tool@) is None,
        }),
{
    let mut i: usize = 0;
    assert(t@.skip(0) =~= t@);
    while i < t.len()
        invariant
            i <= t@.len(),
            schema_row(t@, tool@) == schema_row(t@.skip(i as int), tool@),
        decreases t@.len() - i,
    {
        assert(t@.skip(i as int)[0] == t@[i as int]);
        assert(t@.skip(i as int).skip(1) =~= t@.skip(i + 1));
        if same(t[i].0, tool) {
            return Some((t[i].1, t[i].2, t[i].3));
        }
        i += 1;
    }
    None
}

/// Each field as a requirement of its own.
pub open spec fn alternatives(fields: Seq<Seq<char>>) -> JsonView {
    JsonView::Array(
        Seq::new(
            fields.len(),
            |i: int| JsonView::Object(seq![("required"@, text_array(seq![fields[i]]))]),
        ),
    )
}

/// The entry that says which fields a definition requires.
pub open spec fn requirement_entry(kind: RequirementKind, fields: Seq<Seq<char>>) -> Seq<
    (Seq<char>, JsonView),
> {
    match kind {
        RequirementKind::Nothing => Seq::empty(),
        RequirementKind::All => seq![("required"@, text_array(fields))],
        RequirementKind::AnyOf => seq![("anyOf"@, alternatives(fields))],
        RequirementKind::OneOf => seq![("oneOf"@, alternatives(fields))],
    }
}

fn alternatives_value(fields: &Vec<&'static str>) -> (r: Json)
    ensures
        r@ == alternatives(catalog::strs(fields@)),
{
    let ghost names = catalog::strs(fields@);
    let ghost all = Seq::new(
        names.len(),
        |i: int| JsonView::Object(seq![("required"@, text_array(seq![names[i]]))]),
    );
    let mut out = no_values();
    let mut i: usize = 0;
    assert(json::values(out@) =~= all.take(0));
    while i < fields.len()
        invariant
            i <= fields@.len(),
            names == catalog::strs(fields@),
            all == Seq::new(
                names.len(),
                |i: int| JsonView::Object(seq![("required"@, text_array(seq![names[i]]))]),
            ),
            json::values(out@) == all.take(i as int),
        decreases fields@.len() - i,
    {
        let mut one: Vec<&'static str> = Vec::new();
        one.push(fields[i]);
        assert(catalog::strs(one@) =~= seq![names[i as int]]);
        let mut entry = no_entries();
        push_entry(&mut entry, "required", strs_value(&one));
        assert(json::entries(entry@) =~= seq![("required"@, text_array(seq![names[i as int]]))]);
        push_value(&mut out, object(entry));
        assert(all.take(i + 1) =~= all.take(i as int).push(all[i as int]));
        i += 1;
    }
    assert(all.take(i as int) =~= all);
    array(out)
}

/// What a definition says the tool does, which fields it requires, and whether it
/// allows no others.
pub open spec fn schema_of(d: DescriptorView) -> (Seq<char>, RequirementKind, bool) {
    match schema_row(SCHEMAS@, d.name) {
        Some((said, kind, no_others)) => (
            if said.len() == 0 {
                d.description
            } else {
                said
            },
            kind,
            no_others,
        ),
        None => (d.description, RequirementKind::Nothing, true),
    }
}

/// The parameters of a tool as its definition gives them.
pub open spec fn parameters_json(d: DescriptorView, settings: ToolSchemaSettings) -> JsonView {
    JsonView::Object(
        seq![
            ("type"@, JsonView::Text("object"@)),
            (
                "properties"@,
                JsonView::Object(properties_json(SCHEMA_PROPERTIES@, d.name, settings)),
            ),
        ] + requirement_entry(
            schema_of(d).1,
            catalog::values_for(SCHEMA_REQUIRED@, d.name),
        ) + if schema_of(d).2 {
            seq![("additionalProperties"@, JsonView::Bool(false))]
        } else {
            Seq::empty()
        },
    )
}

/// The definition of a tool as providers get it.
pub open spec fn definition_json(d: DescriptorView, settings: ToolSchemaSettings) -> JsonView {
    JsonView::Object(
        seq![
            ("type"@, JsonView::Text("function"@)),
            (
                "function"@,
                JsonView::Object(
                    seq![
                        ("name"@, JsonView::Text(d.provider_name)),
                        ("description"@, JsonView::Text(schema_of(d).0)),
                        ("parameters"@, parameters_json(d, settings)),
                    ],
                ),
            ),
        ],
    )
}

impl ToolDescriptor {
    fn parameters(
        &self,
        kind: RequirementKind,
        no_others: bool,
        settings: &ToolSchemaSettings,
    ) -> (r: Json)
        requires
            kind == schema_of(self@).1,
            no_others == schema_of(self@).2,
        ensures
            r@ == parameters_json(self@, *settings),
    {
        let properties = property_definitions(&SCHEMA_PROPERTIES, self.name, settings);
        let fields = values_of(&SCHEMA_REQUIRED, self.name);
        let mut v = no_entries();
        push_entry(&mut v, "type", text_value("object"));
        push_entry(&mut v, "properties", object(properties));
        let ghost head = seq![
            ("type"@, JsonView::Text("object"@)),
            (
                "properties"@,
                JsonView::Object(properties_json(SCHEMA_PROPERTIES@, self@.name, *settings)),
            ),
        ];
        assert(json::entries(v@) =~= head);
        match kind {
            RequirementKind::Nothing => {},
            RequirementKind::All => {
                push_entry(&mut v, "required", strs_value(&fields));
            },
            RequirementKind::AnyOf => {
                push_entry(&mut v, "anyOf", alternatives_value(&fields));
            },
            RequirementKind::OneOf => {
                push_entry(&mut v, "oneOf", alternatives_value(&fields));
            },
        }
        let ghost required = requirement_entry(kind, catalog::strs(fields@));
        assert(json::entries(v@) =~= head + required);
        if no_others {
            push_entry(&mut v, "additionalProperties", Json::Bool(false));
            assert(json::entries(v@) =~= head + required + seq![
                ("additionalProperties"@, JsonView::Bool(false)),
            ]);
        } else {
            assert(json::entries(v@) =~= head + required + Seq::empty());
        }
        object(v)
    }

    /// The definition of the tool as providers get it.
    pub fn provider_definition(&self, settings: &ToolSchemaSettings) -> (r: Json)
        ensures
            r@ == definition_json(self@, *settings),
    {
        let (said, kind, no_others): (&'static str, RequirementKind, bool) = match find_schema_row(
            &SCHEMAS,
            self.name,
        ) {
            Some((said, kind, no_others)) => (
                if said.is_empty() {
                    self.description
                } else {
                    said
                },
                kind,
                no_others,
            ),
            None => (self.description, RequirementKind::Nothing, true),
        };
        let mut function = no_entries();
        push_entry(&mut function, "name", text_value(self.provider_name));
        push_entry(&mut function, "description", text_value(said));
        push_entry(&mut function, "parameters", self.parameters(kind, no_others, settings));
        assert(json::entries(function@) =~= seq![
            ("name"@, JsonView::Text(self@.provider_name)),
            ("description"@, JsonView::Text(schema_of(self@).0)),
            ("parameters"@, parameters_json(self@, *settings)),
        ]);
        let mut v = no_entries();
        push_entry(&mut v, "type", text_value("function"));
        push_entry(&mut v, "function", object(function));
        assert(json::entries(v@) =~= definition_json(self@, *settings)->Object_0);
        object(v)
    }
}

} // verus!
