//! Tool calls that a model writes into its text as marked functions:
//! `<function=name><parameter=key>value</parameter></function>`.
use crate::conversation;
use crate::conversation::{ToolIntent, ToolIntentView};
use crate::json;
use crate::json::{no_entries, object, parse_json, put_entry, Json, JsonView};
use crate::provider::blocks;
use crate::provider::blocks::{
    finish_parse, is_quoted_block, is_standalone_block_end, BlockView, ToolBlockParse,
};
use crate::provider::bridge;
use crate::provider::bridge::{build_provider_tool_intent, ScopeView, ToolCallScope};
use crate::text;
use crate::text::{
    cat, chars_of, count_start, decimal_text, extend, find, part, position_of, replace_text, same,
    stands_at, to_text, trimmed,
};
use crate::tools::catalog;
use crate::tools::catalog::canonical_tool_name;
use crate::tools::tables::PARAMETER_TYPES;
use vstd::prelude::*;

verus! {

/// Why a function is malformed.
#[derive(Clone, Copy, Debug, PartialEq, Eq, Structural)]
pub enum InlineFunctionParseError {
    MissingFunctionHeaderClose,
    EmptyFunctionName,
    MissingFunctionClose,
    MissingParameterOpen,
    MissingParameterHeaderClose,
    EmptyParameterName,
    MissingParameterClose,
}

impl InlineFunctionParseError {
    pub open spec fn name(self) -> Seq<char> {
        match self {
            InlineFunctionParseError::MissingFunctionHeaderClose => "missing_function_header_close"@,
            InlineFunctionParseError::EmptyFunctionName => "empty_function_name"@,
            InlineFunctionParseError::MissingFunctionClose => "missing_function_close"@,
            InlineFunctionParseError::MissingParameterOpen => "missing_parameter_open"@,
            InlineFunctionParseError::MissingParameterHeaderClose => "missing_parameter_header_close"@,
            InlineFunctionParseError::EmptyParameterName => "empty_parameter_name"@,
            InlineFunctionParseError::MissingParameterClose => "missing_parameter_close"@,
        }
    }

    pub fn as_str(self) -> (r: &'static str)
        ensures
            r@ == self.name(),
    {
        match self {
            InlineFunctionParseError::MissingFunctionHeaderClose => "missing_function_header_close",
            InlineFunctionParseError::EmptyFunctionName => "empty_function_name",
            InlineFunctionParseError::MissingFunctionClose => "missing_function_close",
            InlineFunctionParseError::MissingParameterOpen => "missing_parameter_open",
            InlineFunctionParseError::MissingParameterHeaderClose => "missing_parameter_header_close",
            InlineFunctionParseError::EmptyParameterName => "empty_parameter_name",
            InlineFunctionParseError::MissingParameterClose => "missing_parameter_close",
        }
    }
}

// Values of parameters.

/// A text with the entities of XML written out.
pub open spec fn decoded(raw: Seq<char>) -> Seq<char> {
    let a = text::replaced(raw, "&lt;"@, "<"@);
    let b = text::replaced(a, "&gt;"@, ">"@);
    let c = text::replaced(b, "&quot;"@, "\""@);
    let d = text::replaced(c, "&apos;"@, "'"@);
    text::replaced(d, "&amp;"@, "&"@)
}

fn decode_inline_xml_text(raw: &Vec<char>) -> (r: Vec<char>)
    ensures
        r@ == decoded(raw@),
{
    proof {
        reveal_strlit("&lt;");
        reveal_strlit("&gt;");
        reveal_strlit("&quot;");
        reveal_strlit("&apos;");
        reveal_strlit("&amp;");
    }
    let a = replace_text(raw, "&lt;", "<");
    let b = replace_text(&a, "&gt;", ">");
    let c = replace_text(&b, "&quot;", "\"");
    let d = replace_text(&c, "&apos;", "'");
    replace_text(&d, "&amp;", "&")
}

/// The type of a parameter of a tool: the last that the table gives.
pub open spec fn parameter_type(
    t: Seq<(&'static str, &'static str, &'static str)>,
    tool: Seq<char>,
    parameter: Seq<char>,
) -> Option<Seq<char>>
    decreases t.len(),
{
    if t.len() == 0 {
        None
    } else if t.last().0@ == tool && t.last().1@ == parameter {
        Some(t.last().2@)
    } else {
        parameter_type(t.drop_last(), tool, parameter)
    }
}

fn type_of_parameter(
    t: &[(&'static str, &'static str, &'static str)],
    tool: &str,
    parameter: &str,
) -> (r: Option<&'static str>)
    ensures
        text::opt_str(r) == parameter_type(t@, tool@, parameter@),
{
    let mut i: usize = t.len();
    assert(t@.take(i as int) =~= t@);
    while i > 0
        invariant
            i <= t@.len(),
            parameter_type(t@, tool@, parameter@) == parameter_type(
                t@.take(i as int),
                tool@,
                parameter@,
            ),
        decreases i,
    {
        assert(t@.take(i as int).last() == t@[i - 1]);
        assert(t@.take(i as int).drop_last() =~= t@.take(i - 1));
        if same(t[i - 1].0, tool) && same(t[i - 1].1, parameter) {
            return Some(t[i - 1].2);
        }
        i -= 1;
    }
    None
}

/// Whether a parameter of a tool is a string.
pub open spec fn is_string_parameter(tool: Seq<char>, parameter: Seq<char>) -> bool {
    parameter_type(PARAMETER_TYPES@, tool, parameter) == Some("string"@)
}

/// Whether a parameter of a tool is a string.
pub fn is_string_typed(tool: &str, parameter: &str) -> (r: bool)
    ensures
        r == is_string_parameter(tool@, parameter@),
{
    match type_of_parameter(&PARAMETER_TYPES, tool, parameter) {
        Some(kind) => same(kind, "string"),
        None => false,
    }
}

/// The value of a parameter whose text is `trimmed`, where that reads as JSON as
/// `parsed`: a string stays one, anything else is what it reads as.
pub open spec fn typed_value(
    string: bool,
    trimmed: Seq<char>,
    parsed: Result<JsonView, Seq<char>>,
) -> JsonView {
    match parsed {
        Ok(v) => if !string || v is Text {
            v
        } else {
            JsonView::Text(trimmed)
        },
        Err(_) => JsonView::Text(trimmed),
    }
}

/// The value of a parameter.
pub open spec fn parameter_value(tool: Seq<char>, parameter: Seq<char>, raw: Seq<char>) -> JsonView {
    let trimmed = text::trim(decoded(raw));
    if trimmed.len() == 0 {
        JsonView::Text(Seq::empty())
    } else {
        typed_value(is_string_parameter(tool, parameter), trimmed, json::parsed_json(trimmed))
    }
}

/// The view of the outcome of reading JSON.
pub open spec fn json_result(r: Result<Json, String>) -> Result<JsonView, Seq<char>> {
    match r {
        Ok(v) => Ok(v@),
        Err(e) => Err(e@),
    }
}

/// The value of a parameter whose text is `trimmed`, where that reads as JSON as
/// `parsed`.
pub fn value_of_type(string: bool, trimmed: &str, parsed: Result<Json, String>) -> (r: Json)
    ensures
        r@ == typed_value(string, trimmed@, json_result(parsed)),
{
    match parsed {
        Ok(v) => if !string || v.as_str().is_some() {
            v
        } else {
            Json::Text(trimmed.to_owned())
        },
        Err(_) => Json::Text(trimmed.to_owned()),
    }
}

/// The value of a parameter.
pub fn parse_inline_parameter_value(tool: &str, parameter: &str, raw: &Vec<char>) -> (r: Json)
    ensures
        r@ == parameter_value(tool@, parameter@, raw@),
{
    let plain = decode_inline_xml_text(raw);
    let body = trimmed(&plain);
    if body.len() == 0 {
        return Json::Text(String::new());
    }
    let body_text = to_text(&body);
    value_of_type(
        is_string_typed(tool, parameter),
        body_text.as_str(),
        parse_json(body_text.as_str()),
    )
}

// Parameters.

/// The mark before the name of a parameter.
pub open spec fn parameter_open() -> Seq<char> {
    "<parameter="@
}

/// The mark behind the value of a parameter.
pub open spec fn parameter_close() -> Seq<char> {
    "</parameter>"@
}

proof fn lemma_parameter_marks()
    ensures
        parameter_open().len() == 11,
        parameter_close().len() == 12,
{
    reveal_strlit("<parameter=");
    reveal_strlit("</parameter>");
}

/// The parameters from `cursor` on, behind those that were read.
pub open spec fn parameters_from(
    tool: Seq<char>,
    body: Seq<char>,
    cursor: int,
    payload: Seq<(Seq<char>, JsonView)>,
) -> Result<Seq<(Seq<char>, JsonView)>, InlineFunctionParseError>
    decreases body.len() - cursor,
    via parameters_from_decreases
{
    if cursor < 0 || cursor >= body.len() {
        Ok(payload)
    } else {
        let at = body.len() - text::trim_start(body.skip(cursor)).len();
        if at >= body.len() {
            Ok(payload)
        } else if !text::matches_at(body, parameter_open(), at) {
            Err(InlineFunctionParseError::MissingParameterOpen)
        } else {
            let name_start = at + parameter_open().len();
            match text::find_char(body, '>', name_start) {
                None => Err(InlineFunctionParseError::MissingParameterHeaderClose),
                Some(name_end) => {
                    let name = text::trim(body.subrange(name_start, name_end));
                    if name.len() == 0 {
                        Err(InlineFunctionParseError::EmptyParameterName)
                    } else {
                        match text::find_from(body, parameter_close(), name_end + 1) {
                            None => Err(InlineFunctionParseError::MissingParameterClose),
                            Some(end) => parameters_from(
                                tool,
                                body,
                                end + parameter_close().len(),
                                json::with_entry(
                                    payload,
                                    name,
                                    parameter_value(tool, name, body.subrange(name_end + 1, end)),
                                ),
                            ),
                        }
                    }
                },
            }
        }
    }
}

#[via_fn]
proof fn parameters_from_decreases(
    tool: Seq<char>,
    body: Seq<char>,
    cursor: int,
    payload: Seq<(Seq<char>, JsonView)>,
) {
    if 0 <= cursor < body.len() {
        lemma_parameter_marks();
        lemma_trim_start_len(body.skip(cursor));
        let at = body.len() - text::trim_start(body.skip(cursor)).len();
        let name_start = at + parameter_open().len();
        text::lemma_find_char_bounds(body, '>', name_start);
        if let Some(name_end) = text::find_char(body, '>', name_start) {
            text::lemma_find_from_bounds(body, parameter_close(), name_end + 1);
        }
    }
}

proof fn lemma_trim_start_len(s: Seq<char>)
    ensures
        text::trim_start(s).len() <= s.len(),
    decreases s.len(),
{
    if s.len() > 0 && text::is_whitespace(s[0]) {
        lemma_trim_start_len(s.skip(1));
    }
}

/// The view of the outcome of reading parameters.
pub open spec fn parameters_view(r: Result<Json, InlineFunctionParseError>) -> Result<
    JsonView,
    InlineFunctionParseError,
> {
    match r {
        Ok(v) => Ok(v@),
        Err(code) => Err(code),
    }
}

/// The parameters in the body of a function, as an object.
pub open spec fn function_parameters(tool: Seq<char>, body: Seq<char>) -> Result<
    JsonView,
    InlineFunctionParseError,
> {
    match parameters_from(tool, body, 0, Seq::empty()) {
        Ok(payload) => Ok(JsonView::Object(payload)),
        Err(code) => Err(code),
    }
}

/// The parameters in the body of a function, as an object.
pub fn parse_inline_function_parameters(tool: &str, body: &Vec<char>) -> (r: Result<
    Json,
    InlineFunctionParseError,
>)
    ensures
        parameters_view(r) == function_parameters(tool@, body@),
{
    let open = chars_of("<parameter=");
    let close = chars_of("</parameter>");
    let mut cursor: usize = 0;
    let mut payload = no_entries();
    proof {
        lemma_parameter_marks();
    }
    while cursor < body.len()
        invariant
            open@ == parameter_open(),
            close@ == parameter_close(),
            open@.len() == 11,
            close@.len() == 12,
            cursor <= body@.len() == body.len(),
            parameters_from(tool@, body@, 0, Seq::empty()) == parameters_from(
                tool@,
                body@,
                cursor as int,
                json::entries(payload@),
            ),
        decreases body@.len() - cursor,
    {
        let rest = part(body, cursor, body.len());
        assert(rest@ =~= body@.skip(cursor as int));
        let skipped: usize = count_start(&rest);
        let at: usize = cursor + skipped;
        assert(at == body@.len() - text::trim_start(body@.skip(cursor as int)).len());
        if at >= body.len() {
            return Ok(object(payload));
        }
        if !stands_at(body, &open, at) {
            return Err(InlineFunctionParseError::MissingParameterOpen);
        }
        let name_start: usize = at + open.len();
        let name_end: usize = match position_of(body, '>', name_start) {
            Some(p) => p,
            None => {
                return Err(InlineFunctionParseError::MissingParameterHeaderClose);
            },
        };
        let raw_name = part(body, name_start, name_end);
        let name = trimmed(&raw_name);
        if name.len() == 0 {
            return Err(InlineFunctionParseError::EmptyParameterName);
        }
        let end: usize = match find(body, &close, name_end + 1) {
            Some(p) => p,
            None => {
                return Err(InlineFunctionParseError::MissingParameterClose);
            },
        };
        let raw_value = part(body, name_end + 1, end);
        let name_text = to_text(&name);
        let value = parse_inline_parameter_value(tool, name_text.as_str(), &raw_value);
        put_entry(&mut payload, name_text.as_str(), value);
        cursor = end + close.len();
    }
    Ok(object(payload))
}

// Functions.

/// The mark before the name of a function.
pub open spec fn function_open() -> Seq<char> {
    "<function="@
}

/// The mark behind a function.
pub open spec fn function_close() -> Seq<char> {
    "</function>"@
}

proof fn lemma_function_marks()
    ensures
        function_open().len() == 10,
        function_close().len() == 11,
{
    reveal_strlit("<function=");
    reveal_strlit("</function>");
}

/// A malformed function after so many tool calls.
pub open spec fn malformed(intents: Seq<ToolIntentView>, code: InlineFunctionParseError) -> BlockView {
    BlockView::Malformed { tool_count: intents.len(), error_code: code.name() }
}

/// The tool calls of the functions from `cursor` on, behind those that were read. A
/// function that something else shares a line with, or that stands in a code block, is
/// text.
pub open spec fn functions_from(
    s: Seq<char>,
    scope: ScopeView,
    cursor: int,
    cleaned: Seq<char>,
    intents: Seq<ToolIntentView>,
    found: bool,
) -> BlockView
    decreases s.len() - cursor,
    via functions_from_decreases
{
    match text::find_from(s, function_open(), cursor) {
        None => blocks::finished(s, cursor, cleaned, intents, found),
        Some(start) => {
            let name_start = start + function_open().len();
            if blocks::is_quoted(s, start) {
                functions_from(
                    s,
                    scope,
                    name_start,
                    cleaned + s.subrange(cursor, name_start),
                    intents,
                    found,
                )
            } else {
                match text::find_char(s, '>', name_start) {
                    None => malformed(intents, InlineFunctionParseError::MissingFunctionHeaderClose),
                    Some(name_end) => {
                        let raw_name = text::trim(s.subrange(name_start, name_end));
                        if raw_name.len() == 0 {
                            malformed(intents, InlineFunctionParseError::EmptyFunctionName)
                        } else {
                            match text::find_from(s, function_close(), name_end + 1) {
                                None => malformed(
                                    intents,
                                    InlineFunctionParseError::MissingFunctionClose,
                                ),
                                Some(end) => {
                                    let behind = end + function_close().len();
                                    if !blocks::standalone_end(s, behind) {
                                        functions_from(
                                            s,
                                            scope,
                                            behind,
                                            cleaned + s.subrange(cursor, behind),
                                            intents,
                                            found,
                                        )
                                    } else {
                                        let name = catalog::canonical_name(raw_name);
                                        match function_parameters(
                                            name,
                                            s.subrange(name_end + 1, end),
                                        ) {
                                            Err(code) => malformed(intents, code),
                                            Ok(args) => functions_from(
                                                s,
                                                scope,
                                                behind,
                                                cleaned + s.subrange(cursor, start),
                                                intents.push(
                                                    bridge::intent_of(
                                                        name,
                                                        args,
                                                        "provider_inline_function_call"@,
                                                        "inline-call-"@ + text::decimal(
                                                            intents.len(),
                                                        ),
                                                        scope,
                                                    ),
                                                ),
                                                true,
                                            ),
                                        }
                                    }
                                },
                            }
                        }
                    },
                }
            }
        },
    }
}

#[via_fn]
proof fn functions_from_decreases(
    s: Seq<char>,
    scope: ScopeView,
    cursor: int,
    cleaned: Seq<char>,
    intents: Seq<ToolIntentView>,
    found: bool,
) {
    lemma_function_marks();
    text::lemma_find_from_bounds(s, function_open(), cursor);
    if let Some(start) = text::find_from(s, function_open(), cursor) {
        let name_start = start + function_open().len();
        text::lemma_find_char_bounds(s, '>', name_start);
        if let Some(name_end) = text::find_char(s, '>', name_start) {
            text::lemma_find_from_bounds(s, function_close(), name_end + 1);
        }
    }
}

/// The tool calls that a text gives as marked functions.
pub open spec fn function_calls(s: Seq<char>, scope: ScopeView) -> BlockView {
    functions_from(s, scope, 0, Seq::empty(), Seq::empty(), false)
}

fn malformed_after(intents: &Vec<ToolIntent>, code: InlineFunctionParseError) -> (r: ToolBlockParse)
    ensures
        r@ == malformed(conversation::intent_views(intents@), code),
{
    ToolBlockParse::Malformed { tool_count: intents.len(), error_code: code.as_str() }
}

/// The tool calls that a text gives as marked functions.
pub fn extract_inline_function_call_turn(s: &str, scope: &ToolCallScope) -> (r: ToolBlockParse)
    ensures
        r@ == function_calls(s@, scope@),
{
    let v = chars_of(s);
    let open = chars_of("<function=");
    let close = chars_of("</function>");
    let mut cursor: usize = 0;
    let mut cleaned: Vec<char> = Vec::new();
    let mut intents: Vec<ToolIntent> = Vec::new();
    let mut found = false;
    proof {
        lemma_function_marks();
        assert(cleaned@ =~= Seq::empty());
        assert(conversation::intent_views(intents@) =~= Seq::empty());
    }
    loop
        invariant
            v@ == s@,
            v@.len() == v.len(),
            open@ == function_open(),
            close@ == function_close(),
            open@.len() == 10,
            close@.len() == 11,
            cursor <= v@.len(),
            function_calls(v@, scope@) == functions_from(
                v@,
                scope@,
                cursor as int,
                cleaned@,
                conversation::intent_views(intents@),
                found,
            ),
        decreases v@.len() - cursor,
    {
        let start: usize = match find(&v, &open, cursor) {
            Some(start) => start,
            None => {
                return finish_parse(&v, cursor, cleaned, intents, found);
            },
        };
        let name_start: usize = start + open.len();
        if is_quoted_block(&v, start) {
            let kept = part(&v, cursor, name_start);
            extend(&mut cleaned, &kept);
            cursor = name_start;
            continue;
        }
        let name_end: usize = match position_of(&v, '>', name_start) {
            Some(p) => p,
            None => {
                return malformed_after(
                    &intents,
                    InlineFunctionParseError::MissingFunctionHeaderClose,
                );
            },
        };
        let header = part(&v, name_start, name_end);
        let raw_name = trimmed(&header);
        if raw_name.len() == 0 {
            return malformed_after(&intents, InlineFunctionParseError::EmptyFunctionName);
        }
        let end: usize = match find(&v, &close, name_end + 1) {
            Some(p) => p,
            None => {
                return malformed_after(&intents, InlineFunctionParseError::MissingFunctionClose);
            },
        };
        let behind: usize = end + close.len();
        if !is_standalone_block_end(&v, behind) {
            let kept = part(&v, cursor, behind);
            extend(&mut cleaned, &kept);
            cursor = behind;
            continue;
        }
        let raw_text = to_text(&raw_name);
        let name = canonical_tool_name(raw_text.as_str());
        let inner = part(&v, name_end + 1, end);
        let args = match parse_inline_function_parameters(name.as_str(), &inner) {
            Ok(args) => args,
            Err(code) => {
                return malformed_after(&intents, code);
            },
        };
        let number = decimal_text(intents.len() as u64);
        let id = cat("inline-call-", number.as_str());
        let intent = build_provider_tool_intent(
            name.as_str(),
            args,
            "provider_inline_function_call",
            id,
            scope,
        );
        assert(conversation::intent_views(intents@.push(intent)) =~= conversation::intent_views(
            intents@,
        ).push(intent@));
        intents.push(intent);
        let kept = part(&v, cursor, start);
        extend(&mut cleaned, &kept);
        found = true;
        cursor = behind;
    }
}

} // verus!
