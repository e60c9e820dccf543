//! What the hints on the arguments of the tools say.
use crate::text;
use crate::tools::catalog::{argument_hint_of, pairs_for, values_for};
use crate::tools::order;
use crate::tools::tables::{ARGUMENT_HINTS, PARAMETER_TYPES, REQUIRED_FIELDS, TOOLS};
use vstd::prelude::*;

verus! {

/// A type as a hint shows it.
pub open spec fn shown_type(kind: Seq<char>) -> Seq<char> {
    if kind == "array"@ {
        "string[]"@
    } else {
        kind
    }
}

/// A parameter and its type as a hint shows them, with a mark where it may be left out.
pub open spec fn shown_parameter(
    parameter: (Seq<char>, Seq<char>),
    required: Seq<Seq<char>>,
) -> Seq<char> {
    parameter.0 + (if required.contains(parameter.0) {
        ":"@
    } else {
        "?:"@
    }) + shown_type(parameter.1)
}

/// The parameters of a tool as a hint shows them.
pub open spec fn shown_parameters(
    parameters: Seq<(Seq<char>, Seq<char>)>,
    required: Seq<Seq<char>>,
) -> Seq<char> {
    text::join(
        Seq::new(parameters.len(), |i: int| shown_parameter(parameters[i], required)),
        ","@,
    )
}

/// Whether a field is one of the parameters.
pub open spec fn is_parameter(
    parameters: Seq<(Seq<char>, Seq<char>)>,
    field: Seq<char>,
) -> bool {
    exists|i: int| 0 <= i < parameters.len() && (#[trigger] parameters[i]).0 == field
}

/// Whether a hint shows the parameters in their order, and those that are required are
/// among them.
pub open spec fn describes(
    hint: Seq<char>,
    parameters: Seq<(Seq<char>, Seq<char>)>,
    required: Seq<Seq<char>>,
) -> bool {
    &&& hint == shown_parameters(parameters, required)
    &&& forall|i: int|
        0 <= i < required.len() ==> is_parameter(parameters, #[trigger] required[i])
}

// The texts of the hints.

/// What up to four parameters look like.
proof fn lemma_few_parameters(
    parameters: Seq<(Seq<char>, Seq<char>)>,
    required: Seq<Seq<char>>,
)
    requires
        1 <= parameters.len() <= 4,
    ensures
        ({
            let one = shown_parameter(parameters[0], required);
            let two = one + ","@ + shown_parameter(parameters[1], required);
            let three = two + ","@ + shown_parameter(parameters[2], required);
            let four = three + ","@ + shown_parameter(parameters[3], required);
            shown_parameters(parameters, required) == (if parameters.len() == 1 {
                one
            } else if parameters.len() == 2 {
                two
            } else if parameters.len() == 3 {
                three
            } else {
                four
            })
        }),
    decreases parameters.len(),
{
    let before = parameters.drop_last();
    let shown = Seq::new(parameters.len(), |i: int| shown_parameter(parameters[i], required));
    if parameters.len() > 1 {
        lemma_few_parameters(before, required);
        assert(shown.drop_last() =~= Seq::new(
            before.len(),
            |i: int| shown_parameter(before[i], required),
        ));
    }
}

proof fn lemma_tool_search_hint()
    ensures
        describes(
            "query:string,limit?:integer"@,
            seq![
                ("query"@, "string"@),
                ("limit"@, "integer"@),
            ],
            seq!["query"@],
        ),
{
    reveal_strlit("query:string,limit?:integer");
    reveal_strlit("query");
    reveal_strlit("limit");
    reveal_strlit("string");
    reveal_strlit("integer");
    reveal_strlit("array");
    reveal_strlit(":");
    reveal_strlit("?:");
    reveal_strlit(",");
    let parameters = seq![("query"@, "string"@), ("limit"@, "integer"@)];
    let required: Seq<Seq<char>> = seq!["query"@];
    assert(parameters[0].0 == required[0]);
    assert("limit"@[0] == 'l' && "query"@[0] == 'q');
    assert(!required.contains("limit"@));
    lemma_few_parameters(parameters, required);
    assert("query:string,limit?:integer"@
        =~= "query"@ + ":"@ + "string"@
        + ","@ + ("limit"@ + "?:"@ + "integer"@));
}

proof fn lemma_tool_invoke_hint()
    ensures
        describes(
            "tool_id:string,lease:string,arguments:object"@,
            seq![
                ("tool_id"@, "string"@),
                ("lease"@, "string"@),
                ("arguments"@, "object"@),
            ],
            seq!["tool_id"@, "lease"@, "arguments"@],
        ),
{
    reveal_strlit("tool_id:string,lease:string,arguments:object");
    reveal_strlit("tool_id");
    reveal_strlit("lease");
    reveal_strlit("arguments");
    reveal_strlit("string");
    reveal_strlit("object");
    reveal_strlit("array");
    reveal_strlit(":");
    reveal_strlit("?:");
    reveal_strlit(",");
    let parameters = seq![
        ("tool_id"@, "string"@),
        ("lease"@, "string"@),
        ("arguments"@, "object"@),
    ];
    let required: Seq<Seq<char>> = seq!["tool_id"@, "lease"@, "arguments"@];
    assert(parameters[0].0 == required[0]);
    assert(parameters[1].0 == required[1]);
    assert(parameters[2].0 == required[2]);
    lemma_few_parameters(parameters, required);
    assert("tool_id:string,lease:string,arguments:object"@
        =~= "tool_id"@ + ":"@ + "string"@
        + ","@ + ("lease"@ + ":"@ + "string"@)
        + ","@ + ("arguments"@ + ":"@ + "object"@));
}

proof fn lemma_claw_migrate_hint()
    ensures
        describes(
            "input_path?:string,mode?:string,source?:string"@,
            seq![
                ("input_path"@, "string"@),
                ("mode"@, "string"@),
                ("source"@, "string"@),
            ],
            Seq::empty(),
        ),
{
    reveal_strlit("input_path?:string,mode?:string,source?:string");
    reveal_strlit("input_path");
    reveal_strlit("mode");
    reveal_strlit("source");
    reveal_strlit("string");
    reveal_strlit("array");
    reveal_strlit(":");
    reveal_strlit("?:");
    reveal_strlit(",");
    let parameters = seq![
        ("input_path"@, "string"@),
        ("mode"@, "string"@),
        ("source"@, "string"@),
    ];
    let required: Seq<Seq<char>> = Seq::empty();
    assert(!required.contains("input_path"@));
    assert(!required.contains("mode"@));
    assert(!required.contains("source"@));
    lemma_few_parameters(parameters, required);
    assert("input_path?:string,mode?:string,source?:string"@
        =~= "input_path"@ + "?:"@ + "string"@
        + ","@ + ("mode"@ + "?:"@ + "string"@)
        + ","@ + ("source"@ + "?:"@ + "string"@));
}

proof fn lemma_external_skills_fetch_hint()
    ensures
        describes(
            "url:string,approval_granted?:boolean,save_as?:string,max_bytes?:integer"@,
            seq![
                ("url"@, "string"@),
                ("approval_granted"@, "boolean"@),
                ("save_as"@, "string"@),
                ("max_bytes"@, "integer"@),
            ],
            seq!["url"@],
        ),
{
    reveal_strlit("url:string,approval_granted?:boolean,save_as?:string,max_bytes?:integer");
    reveal_strlit("url");
    reveal_strlit("approval_granted");
    reveal_strlit("save_as");
    reveal_strlit("max_bytes");
    reveal_strlit("string");
    reveal_strlit("boolean");
    reveal_strlit("integer");
    reveal_strlit("array");
    reveal_strlit(":");
    reveal_strlit("?:");
    reveal_strlit(",");
    let parameters = seq![
        ("url"@, "string"@),
        ("approval_granted"@, "boolean"@),
        ("save_as"@, "string"@),
        ("max_bytes"@, "integer"@),
    ];
    let required: Seq<Seq<char>> = seq!["url"@];
    assert(parameters[0].0 == required[0]);
    assert(!required.contains("approval_granted"@));
    assert(!required.contains("save_as"@));
    assert(!required.contains("max_bytes"@));
    lemma_few_parameters(parameters, required);
    assert("url:string,approval_granted?:boolean,save_as?:string,max_bytes?:integer"@
        =~= "url"@ + ":"@ + "string"@
        + ","@ + ("approval_granted"@ + "?:"@ + "boolean"@)
        + ","@ + ("save_as"@ + "?:"@ + "string"@)
        + ","@ + ("max_bytes"@ + "?:"@ + "integer"@));
}

proof fn lemma_external_skills_inspect_hint()
    ensures
        describes(
            "skill_id:string"@,
            seq![
                ("skill_id"@, "string"@),
            ],
            seq!["skill_id"@],
        ),
{
    reveal_strlit("skill_id:string");
    reveal_strlit("skill_id");
    reveal_strlit("string");
    reveal_strlit("array");
    reveal_strlit(":");
    reveal_strlit("?:");
    reveal_strlit(",");
    let parameters = seq![("skill_id"@, "string"@)];
    let required: Seq<Seq<char>> = seq!["skill_id"@];
    assert(parameters[0].0 == required[0]);
    lemma_few_parameters(parameters, required);
    assert("skill_id:string"@
        =~= "skill_id"@ + ":"@ + "string"@);
}

proof fn lemma_external_skills_install_hint()
    ensures
        describes(
            "path?:string,bundled_skill_id?:string,skill_id?:string,replace?:boolean"@,
            seq![
                ("path"@, "string"@),
                ("bundled_skill_id"@, "string"@),
                ("skill_id"@, "string"@),
                ("replace"@, "boolean"@),
            ],
            Seq::empty(),
        ),
{
    reveal_strlit("path?:string,bundled_skill_id?:string,skill_id?:string,replace?:boolean");
    reveal_strlit("path");
    reveal_strlit("bundled_skill_id");
    reveal_strlit("skill_id");
    reveal_strlit("replace");
    reveal_strlit("string");
    reveal_strlit("boolean");
    reveal_strlit("array");
    reveal_strlit(":");
    reveal_strlit("?:");
    reveal_strlit(",");
    let parameters = seq![
        ("path"@, "string"@),
        ("bundled_skill_id"@, "string"@),
        ("skill_id"@, "string"@),
        ("replace"@, "boolean"@),
    ];
    let required: Seq<Seq<char>> = Seq::empty();
    assert(!required.contains("path"@));
    assert(!required.contains("bundled_skill_id"@));
    assert(!required.contains("skill_id"@));
    assert(!required.contains("replace"@));
    lemma_few_parameters(parameters, required);
    assert("path?:string,bundled_skill_id?:string,skill_id?:string,replace?:boolean"@
        =~= "path"@ + "?:"@ + "string"@
        + ","@ + ("bundled_skill_id"@ + "?:"@ + "string"@)
        + ","@ + ("skill_id"@ + "?:"@ + "string"@)
        + ","@ + ("replace"@ + "?:"@ + "boolean"@));
}

proof fn lemma_external_skills_policy_hint()
    ensures
        describes(
            "action?:string,enabled?:boolean,allowed_domains?:string[],blocked_domains?:string[]"@,
            seq![
                ("action"@, "string"@),
                ("enabled"@, "boolean"@),
                ("allowed_domains"@, "array"@),
                ("blocked_domains"@, "array"@),
            ],
            Seq::empty(),
        ),
{
    reveal_strlit("action?:string,enabled?:boolean,allowed_domains?:string[],blocked_domains?:string[]");
    reveal_strlit("action");
    reveal_strlit("enabled");
    reveal_strlit("allowed_domains");
    reveal_strlit("blocked_domains");
    reveal_strlit("string");
    reveal_strlit("boolean");
    reveal_strlit("string[]");
    reveal_strlit("array");
    reveal_strlit(":");
    reveal_strlit("?:");
    reveal_strlit(",");
    let parameters = seq![
        ("action"@, "string"@),
        ("enabled"@, "boolean"@),
        ("allowed_domains"@, "array"@),
        ("blocked_domains"@, "array"@),
    ];
    let required: Seq<Seq<char>> = Seq::empty();
    assert(!required.contains("action"@));
    assert(!required.contains("enabled"@));
    assert(!required.contains("allowed_domains"@));
    assert(!required.contains("blocked_domains"@));
    lemma_few_parameters(parameters, required);
    assert("action?:string,enabled?:boolean,allowed_domains?:string[],blocked_domains?:string[]"@
        =~= "action"@ + "?:"@ + "string"@
        + ","@ + ("enabled"@ + "?:"@ + "boolean"@)
        + ","@ + ("allowed_domains"@ + "?:"@ + "string[]"@)
        + ","@ + ("blocked_domains"@ + "?:"@ + "string[]"@));
}

proof fn lemma_browser_companion_session_start_hint()
    ensures
        describes(
            "url:string"@,
            seq![
                ("url"@, "string"@),
            ],
            seq!["url"@],
        ),
{
    reveal_strlit("url:string");
    reveal_strlit("url");
    reveal_strlit("string");
    reveal_strlit("array");
    reveal_strlit(":");
    reveal_strlit("?:");
    reveal_strlit(",");
    let parameters = seq![("url"@, "string"@)];
    let required: Seq<Seq<char>> = seq!["url"@];
    assert(parameters[0].0 == required[0]);
    lemma_few_parameters(parameters, required);
    assert("url:string"@
        =~= "url"@ + ":"@ + "string"@);
}

proof fn lemma_browser_companion_navigate_hint()
    ensures
        describes(
            "session_id:string,url:string"@,
            seq![
                ("session_id"@, "string"@),
                ("url"@, "string"@),
            ],
            seq!["session_id"@, "url"@],
        ),
{
    reveal_strlit("session_id:string,url:string");
    reveal_strlit("session_id");
    reveal_strlit("url");
    reveal_strlit("string");
    reveal_strlit("array");
    reveal_strlit(":");
    reveal_strlit("?:");
    reveal_strlit(",");
    let parameters = seq![("session_id"@, "string"@), ("url"@, "string"@)];
    let required: Seq<Seq<char>> = seq!["session_id"@, "url"@];
    assert(parameters[0].0 == required[0]);
    assert(parameters[1].0 == required[1]);
    lemma_few_parameters(parameters, required);
    assert("session_id:string,url:string"@
        =~= "session_id"@ + ":"@ + "string"@
        + ","@ + ("url"@ + ":"@ + "string"@));
}

proof fn lemma_browser_companion_snapshot_hint()
    ensures
        describes(
            "session_id:string,mode?:string"@,
            seq![
                ("session_id"@, "string"@),
                ("mode"@, "string"@),
            ],
            seq!["session_id"@],
        ),
{
    reveal_strlit("session_id:string,mode?:string");
    reveal_strlit("session_id");
    reveal_strlit("mode");
    reveal_strlit("string");
    reveal_strlit("array");
    reveal_strlit(":");
    reveal_strlit("?:");
    reveal_strlit(",");
    let parameters = seq![("session_id"@, "string"@), ("mode"@, "string"@)];
    let required: Seq<Seq<char>> = seq!["session_id"@];
    assert(parameters[0].0 == required[0]);
    assert(!required.contains("mode"@));
    lemma_few_parameters(parameters, required);
    assert("session_id:string,mode?:string"@
        =~= "session_id"@ + ":"@ + "string"@
        + ","@ + ("mode"@ + "?:"@ + "string"@));
}

proof fn lemma_browser_companion_wait_hint()
    ensures
        describes(
            "session_id:string,condition?:string,timeout_ms?:integer"@,
            seq![
                ("session_id"@, "string"@),
                ("condition"@, "string"@),
                ("timeout_ms"@, "integer"@),
            ],
            seq!["session_id"@],
        ),
{
    reveal_strlit("session_id:string,condition?:string,timeout_ms?:integer");
    reveal_strlit("session_id");
    reveal_strlit("condition");
    reveal_strlit("timeout_ms");
    reveal_strlit("string");
    reveal_strlit("integer");
    reveal_strlit("array");
    reveal_strlit(":");
    reveal_strlit("?:");
    reveal_strlit(",");
    let parameters = seq![
        ("session_id"@, "string"@),
        ("condition"@, "string"@),
        ("timeout_ms"@, "integer"@),
    ];
    let required: Seq<Seq<char>> = seq!["session_id"@];
    assert(parameters[0].0 == required[0]);
    assert(!required.contains("condition"@));
    assert("timeout_ms"@[0] == 't' && "session_id"@[0] == 's');
    assert(!required.contains("timeout_ms"@));
    lemma_few_parameters(parameters, required);
    assert("session_id:string,condition?:string,timeout_ms?:integer"@
        =~= "session_id"@ + ":"@ + "string"@
        + ","@ + ("condition"@ + "?:"@ + "string"@)
        + ","@ + ("timeout_ms"@ + "?:"@ + "integer"@));
}

proof fn lemma_browser_companion_session_stop_hint()
    ensures
        describes(
            "session_id:string"@,
            seq![
                ("session_id"@, "string"@),
            ],
            seq!["session_id"@],
        ),
{
    reveal_strlit("session_id:string");
    reveal_strlit("session_id");
    reveal_strlit("string");
    reveal_strlit("array");
    reveal_strlit(":");
    reveal_strlit("?:");
    reveal_strlit(",");
    let parameters = seq![("session_id"@, "string"@)];
    let required: Seq<Seq<char>> = seq!["session_id"@];
    assert(parameters[0].0 == required[0]);
    lemma_few_parameters(parameters, required);
    assert("session_id:string"@
        =~= "session_id"@ + ":"@ + "string"@);
}

proof fn lemma_browser_companion_click_hint()
    ensures
        describes(
            "session_id:string,selector:string"@,
            seq![
                ("session_id"@, "string"@),
                ("selector"@, "string"@),
            ],
            seq!["session_id"@, "selector"@],
        ),
{
    reveal_strlit("session_id:string,selector:string");
    reveal_strlit("session_id");
    reveal_strlit("selector");
    reveal_strlit("string");
    reveal_strlit("array");
    reveal_strlit(":");
    reveal_strlit("?:");
    reveal_strlit(",");
    let parameters = seq![("session_id"@, "string"@), ("selector"@, "string"@)];
    let required: Seq<Seq<char>> = seq!["session_id"@, "selector"@];
    assert(parameters[0].0 == required[0]);
    assert(parameters[1].0 == required[1]);
    lemma_few_parameters(parameters, required);
    assert("session_id:string,selector:string"@
        =~= "session_id"@ + ":"@ + "string"@
        + ","@ + ("selector"@ + ":"@ + "string"@));
}

proof fn lemma_browser_companion_type_hint()
    ensures
        describes(
            "session_id:string,selector:string,text:string"@,
            seq![
                ("session_id"@, "string"@),
                ("selector"@, "string"@),
                ("text"@, "string"@),
            ],
            seq!["session_id"@, "selector"@, "text"@],
        ),
{
    reveal_strlit("session_id:string,selector:string,text:string");
    reveal_strlit("session_id");
    reveal_strlit("selector");
    reveal_strlit("text");
    reveal_strlit("string");
    reveal_strlit("array");
    reveal_strlit(":");
    reveal_strlit("?:");
    reveal_strlit(",");
    let parameters = seq![
        ("session_id"@, "string"@),
        ("selector"@, "string"@),
        ("text"@, "string"@),
    ];
    let required: Seq<Seq<char>> = seq!["session_id"@, "selector"@, "text"@];
    assert(parameters[0].0 == required[0]);
    assert(parameters[1].0 == required[1]);
    assert(parameters[2].0 == required[2]);
    lemma_few_parameters(parameters, required);
    assert("session_id:string,selector:string,text:string"@
        =~= "session_id"@ + ":"@ + "string"@
        + ","@ + ("selector"@ + ":"@ + "string"@)
        + ","@ + ("text"@ + ":"@ + "string"@));
}

proof fn lemma_file_read_hint()
    ensures
        describes(
            "path:string,max_bytes?:integer"@,
            seq![
                ("path"@, "string"@),
                ("max_bytes"@, "integer"@),
            ],
            seq!["path"@],
        ),
{
    reveal_strlit("path:string,max_bytes?:integer");
    reveal_strlit("path");
    reveal_strlit("max_bytes");
    reveal_strlit("string");
    reveal_strlit("integer");
    reveal_strlit("array");
    reveal_strlit(":");
    reveal_strlit("?:");
    reveal_strlit(",");
    let parameters = seq![("path"@, "string"@), ("max_bytes"@, "integer"@)];
    let required: Seq<Seq<char>> = seq!["path"@];
    assert(parameters[0].0 == required[0]);
    assert(!required.contains("max_bytes"@));
    lemma_few_parameters(parameters, required);
    assert("path:string,max_bytes?:integer"@
        =~= "path"@ + ":"@ + "string"@
        + ","@ + ("max_bytes"@ + "?:"@ + "integer"@));
}

proof fn lemma_file_write_hint()
    ensures
        describes(
            "path:string,content:string,create_dirs?:boolean"@,
            seq![
                ("path"@, "string"@),
                ("content"@, "string"@),
                ("create_dirs"@, "boolean"@),
            ],
            seq!["path"@, "content"@],
        ),
{
    reveal_strlit("path:string,content:string,create_dirs?:boolean");
    reveal_strlit("path");
    reveal_strlit("content");
    reveal_strlit("create_dirs");
    reveal_strlit("string");
    reveal_strlit("boolean");
    reveal_strlit("array");
    reveal_strlit(":");
    reveal_strlit("?:");
    reveal_strlit(",");
    let parameters = seq![
        ("path"@, "string"@),
        ("content"@, "string"@),
        ("create_dirs"@, "boolean"@),
    ];
    let required: Seq<Seq<char>> = seq!["path"@, "content"@];
    assert(parameters[0].0 == required[0]);
    assert(parameters[1].0 == required[1]);
    assert(!required.contains("create_dirs"@));
    lemma_few_parameters(parameters, required);
    assert("path:string,content:string,create_dirs?:boolean"@
        =~= "path"@ + ":"@ + "string"@
        + ","@ + ("content"@ + ":"@ + "string"@)
        + ","@ + ("create_dirs"@ + "?:"@ + "boolean"@));
}

proof fn lemma_file_edit_hint()
    ensures
        describes(
            "path:string,old_string:string,new_string:string,replace_all?:boolean"@,
            seq![
                ("path"@, "string"@),
                ("old_string"@, "string"@),
                ("new_string"@, "string"@),
                ("replace_all"@, "boolean"@),
            ],
            seq!["path"@, "old_string"@, "new_string"@],
        ),
{
    reveal_strlit("path:string,old_string:string,new_string:string,replace_all?:boolean");
    reveal_strlit("path");
    reveal_strlit("old_string");
    reveal_strlit("new_string");
    reveal_strlit("replace_all");
    reveal_strlit("string");
    reveal_strlit("boolean");
    reveal_strlit("array");
    reveal_strlit(":");
    reveal_strlit("?:");
    reveal_strlit(",");
    let parameters = seq![
        ("path"@, "string"@),
        ("old_string"@, "string"@),
        ("new_string"@, "string"@),
        ("replace_all"@, "boolean"@),
    ];
    let required: Seq<Seq<char>> = seq!["path"@, "old_string"@, "new_string"@];
    assert(parameters[0].0 == required[0]);
    assert(parameters[1].0 == required[1]);
    assert(parameters[2].0 == required[2]);
    assert(!required.contains("replace_all"@));
    lemma_few_parameters(parameters, required);
    assert("path:string,old_string:string,new_string:string,replace_all?:boolean"@
        =~= "path"@ + ":"@ + "string"@
        + ","@ + ("old_string"@ + ":"@ + "string"@)
        + ","@ + ("new_string"@ + ":"@ + "string"@)
        + ","@ + ("replace_all"@ + "?:"@ + "boolean"@));
}

proof fn lemma_shell_exec_hint()
    ensures
        describes(
            "command:string,args?:string[],timeout_ms?:integer,cwd?:string"@,
            seq![
                ("command"@, "string"@),
                ("args"@, "array"@),
                ("timeout_ms"@, "integer"@),
                ("cwd"@, "string"@),
            ],
            seq!["command"@],
        ),
{
    reveal_strlit("command:string,args?:string[],timeout_ms?:integer,cwd?:string");
    reveal_strlit("command");
    reveal_strlit("args");
    reveal_strlit("timeout_ms");
    reveal_strlit("cwd");
    reveal_strlit("string");
    reveal_strlit("string[]");
    reveal_strlit("integer");
    reveal_strlit("array");
    reveal_strlit(":");
    reveal_strlit("?:");
    reveal_strlit(",");
    let parameters = seq![
        ("command"@, "string"@),
        ("args"@, "array"@),
        ("timeout_ms"@, "integer"@),
        ("cwd"@, "string"@),
    ];
    let required: Seq<Seq<char>> = seq!["command"@];
    assert(parameters[0].0 == required[0]);
    assert(!required.contains("args"@));
    assert(!required.contains("timeout_ms"@));
    assert(!required.contains("cwd"@));
    lemma_few_parameters(parameters, required);
    assert("command:string,args?:string[],timeout_ms?:integer,cwd?:string"@
        =~= "command"@ + ":"@ + "string"@
        + ","@ + ("args"@ + "?:"@ + "string[]"@)
        + ","@ + ("timeout_ms"@ + "?:"@ + "integer"@)
        + ","@ + ("cwd"@ + "?:"@ + "string"@));
}

proof fn lemma_provider_switch_hint()
    ensures
        describes(
            "selector?:string"@,
            seq![
                ("selector"@, "string"@),
            ],
            Seq::empty(),
        ),
{
    reveal_strlit("selector?:string");
    reveal_strlit("selector");
    reveal_strlit("string");
    reveal_strlit("array");
    reveal_strlit(":");
    reveal_strlit("?:");
    reveal_strlit(",");
    let parameters = seq![("selector"@, "string"@)];
    let required: Seq<Seq<char>> = Seq::empty();
    assert(!required.contains("selector"@));
    lemma_few_parameters(parameters, required);
    assert("selector?:string"@
        =~= "selector"@ + "?:"@ + "string"@);
}

proof fn lemma_delegate_hint()
    ensures
        describes(
            "task:string,label?:string,timeout_seconds?:integer"@,
            seq![
                ("task"@, "string"@),
                ("label"@, "string"@),
                ("timeout_seconds"@, "integer"@),
            ],
            seq!["task"@],
        ),
{
    reveal_strlit("task:string,label?:string,timeout_seconds?:integer");
    reveal_strlit("task");
    reveal_strlit("label");
    reveal_strlit("timeout_seconds");
    reveal_strlit("string");
    reveal_strlit("integer");
    reveal_strlit("array");
    reveal_strlit(":");
    reveal_strlit("?:");
    reveal_strlit(",");
    let parameters = seq![
        ("task"@, "string"@),
        ("label"@, "string"@),
        ("timeout_seconds"@, "integer"@),
    ];
    let required: Seq<Seq<char>> = seq!["task"@];
    assert(parameters[0].0 == required[0]);
    assert(!required.contains("label"@));
    assert(!required.contains("timeout_seconds"@));
    lemma_few_parameters(parameters, required);
    assert("task:string,label?:string,timeout_seconds?:integer"@
        =~= "task"@ + ":"@ + "string"@
        + ","@ + ("label"@ + "?:"@ + "string"@)
        + ","@ + ("timeout_seconds"@ + "?:"@ + "integer"@));
}

proof fn lemma_sessions_list_hint()
    ensures
        describes(
            "limit?:integer,state?:string"@,
            seq![
                ("limit"@, "integer"@),
                ("state"@, "string"@),
            ],
            Seq::empty(),
        ),
{
    reveal_strlit("limit?:integer,state?:string");
    reveal_strlit("limit");
    reveal_strlit("state");
    reveal_strlit("integer");
    reveal_strlit("string");
    reveal_strlit("array");
    reveal_strlit(":");
    reveal_strlit("?:");
    reveal_strlit(",");
    let parameters = seq![("limit"@, "integer"@), ("state"@, "string"@)];
    let required: Seq<Seq<char>> = Seq::empty();
    assert(!required.contains("limit"@));
    assert(!required.contains("state"@));
    lemma_few_parameters(parameters, required);
    assert("limit?:integer,state?:string"@
        =~= "limit"@ + "?:"@ + "integer"@
        + ","@ + ("state"@ + "?:"@ + "string"@));
}

proof fn lemma_sessions_send_hint()
    ensures
        describes(
            "session_id:string,text:string"@,
            seq![
                ("session_id"@, "string"@),
                ("text"@, "string"@),
            ],
            seq!["session_id"@, "text"@],
        ),
{
    reveal_strlit("session_id:string,text:string");
    reveal_strlit("session_id");
    reveal_strlit("text");
    reveal_strlit("string");
    reveal_strlit("array");
    reveal_strlit(":");
    reveal_strlit("?:");
    reveal_strlit(",");
    let parameters = seq![("session_id"@, "string"@), ("text"@, "string"@)];
    let required: Seq<Seq<char>> = seq!["session_id"@, "text"@];
    assert(parameters[0].0 == required[0]);
    assert(parameters[1].0 == required[1]);
    lemma_few_parameters(parameters, required);
    assert("session_id:string,text:string"@
        =~= "session_id"@ + ":"@ + "string"@
        + ","@ + ("text"@ + ":"@ + "string"@));
}

proof fn lemma_web_search_hint()
    ensures
        describes(
            "query:string,provider?:string,max_results?:integer"@,
            seq![
                ("query"@, "string"@),
                ("provider"@, "string"@),
                ("max_results"@, "integer"@),
            ],
            seq!["query"@],
        ),
{
    reveal_strlit("query:string,provider?:string,max_results?:integer");
    reveal_strlit("query");
    reveal_strlit("provider");
    reveal_strlit("max_results");
    reveal_strlit("string");
    reveal_strlit("integer");
    reveal_strlit("array");
    reveal_strlit(":");
    reveal_strlit("?:");
    reveal_strlit(",");
    let parameters = seq![
        ("query"@, "string"@),
        ("provider"@, "string"@),
        ("max_results"@, "integer"@),
    ];
    let required: Seq<Seq<char>> = seq!["query"@];
    assert(parameters[0].0 == required[0]);
    assert(!required.contains("provider"@));
    assert(!required.contains("max_results"@));
    lemma_few_parameters(parameters, required);
    assert("query:string,provider?:string,max_results?:integer"@
        =~= "query"@ + ":"@ + "string"@
        + ","@ + ("provider"@ + "?:"@ + "string"@)
        + ","@ + ("max_results"@ + "?:"@ + "integer"@));
}

// The rows of the tables.

/// The hint of the tool that a row of the parameters is about.
spec fn parameter_owner(i: int) -> int {
    if i < 2 {
        0
    } else if i < 5 {
        1
    } else if i < 8 {
        2
    } else if i < 12 {
        3
    } else if i < 13 {
        4
    } else if i < 14 {
        6
    } else if i < 15 {
        8
    } else if i < 19 {
        5
    } else if i < 20 {
        9
    } else if i < 22 {
        10
    } else if i < 24 {
        11
    } else if i < 27 {
        12
    } else if i < 28 {
        13
    } else if i < 30 {
        14
    } else if i < 33 {
        15
    } else if i < 37 {
        7
    } else if i < 39 {
        16
    } else if i < 42 {
        17
    } else if i < 46 {
        18
    } else if i < 50 {
        19
    } else if i < 51 {
        20
    } else if i < 54 {
        21
    } else if i < 57 {
        22
    } else if i < 58 {
        23
    } else if i < 59 {
        24
    } else if i < 60 {
        25
    } else if i < 61 {
        26
    } else if i < 62 {
        27
    } else if i < 63 {
        28
    } else if i < 64 {
        29
    } else if i < 66 {
        30
    } else if i < 68 {
        31
    } else {
        32
    }
}

/// The hint of the tool that a row of the required fields is about.
spec fn field_owner(i: int) -> int {
    if i < 1 {
        0
    } else if i < 4 {
        1
    } else if i < 5 {
        3
    } else if i < 6 {
        4
    } else if i < 7 {
        6
    } else if i < 8 {
        8
    } else if i < 9 {
        9
    } else if i < 11 {
        10
    } else if i < 12 {
        11
    } else if i < 13 {
        12
    } else if i < 14 {
        13
    } else if i < 16 {
        14
    } else if i < 19 {
        15
    } else if i < 20 {
        16
    } else if i < 22 {
        17
    } else if i < 25 {
        18
    } else if i < 26 {
        19
    } else if i < 27 {
        21
    } else if i < 28 {
        22
    } else if i < 29 {
        23
    } else if i < 30 {
        24
    } else if i < 31 {
        25
    } else if i < 32 {
        26
    } else if i < 33 {
        27
    } else if i < 34 {
        28
    } else if i < 35 {
        29
    } else if i < 37 {
        31
    } else {
        32
    }
}

/// The place in the catalog of the tool that a hint is about.
spec fn tool_of_hint(k: int) -> int {
    if k == 0 {
        38
    } else if k == 1 {
        37
    } else if k == 2 {
        13
    } else if k == 3 {
        16
    } else if k == 4 {
        17
    } else if k == 5 {
        18
    } else if k == 6 {
        19
    } else if k == 7 {
        21
    } else if k == 8 {
        22
    } else if k == 9 {
        6
    } else if k == 10 {
        5
    } else if k == 11 {
        8
    } else if k == 12 {
        10
    } else if k == 13 {
        7
    } else if k == 14 {
        4
    } else if k == 15 {
        9
    } else if k == 16 {
        24
    } else if k == 17 {
        25
    } else if k == 18 {
        23
    } else if k == 19 {
        36
    } else if k == 20 {
        26
    } else if k == 21 {
        14
    } else if k == 22 {
        15
    } else if k == 23 {
        27
    } else if k == 24 {
        28
    } else if k == 25 {
        29
    } else if k == 26 {
        30
    } else if k == 27 {
        31
    } else if k == 28 {
        32
    } else if k == 29 {
        33
    } else if k == 30 {
        34
    } else if k == 31 {
        35
    } else {
        40
    }
}

proof fn lemma_hint_names_differ(j: int, k: int)
    requires
        0 <= j < ARGUMENT_HINTS@.len(),
        0 <= k < ARGUMENT_HINTS@.len(),
        j != k,
    ensures
        ARGUMENT_HINTS@[j].0@ != ARGUMENT_HINTS@[k].0@,
{
    let a = tool_of_hint(j);
    let b = tool_of_hint(k);
    lemma_hint_is_of_tool(j);
    lemma_hint_is_of_tool(k);
    if a < b {
        order::law_catalog_is_in_order(a, b);
    } else {
        order::law_catalog_is_in_order(b, a);
    }
}

proof fn lemma_hint_is_of_tool(k: int)
    requires
        0 <= k < ARGUMENT_HINTS@.len(),
    ensures
        0 <= tool_of_hint(k) < TOOLS@.len(),
        ARGUMENT_HINTS@[k].0@ == TOOLS@[tool_of_hint(k)].0@,
{
}

proof fn lemma_parameter_owner(i: int)
    requires
        0 <= i < PARAMETER_TYPES@.len(),
    ensures
        0 <= parameter_owner(i) < ARGUMENT_HINTS@.len(),
        PARAMETER_TYPES@[i].0@ == ARGUMENT_HINTS@[parameter_owner(i)].0@,
{
}

proof fn lemma_field_owner(i: int)
    requires
        0 <= i < REQUIRED_FIELDS@.len(),
    ensures
        0 <= field_owner(i) < ARGUMENT_HINTS@.len(),
        REQUIRED_FIELDS@[i].0@ == ARGUMENT_HINTS@[field_owner(i)].0@,
{
}

/// The pairs of a table whose rows from `from` to `to` are those of a key.
proof fn lemma_pairs_between(
    t: Seq<(&'static str, &'static str, &'static str)>,
    key: Seq<char>,
    from: int,
    to: int,
)
    requires
        0 <= from <= to <= t.len(),
        forall|i: int|
            0 <= i < t.len() ==> ((#[trigger] t[i]).0@ == key <==> from <= i < to),
    ensures
        pairs_for(t, key) == Seq::new(
            (to - from) as nat,
            |i: int| (t[from + i].1@, t[from + i].2@),
        ),
    decreases t.len(),
{
    if t.len() > 0 {
        let before = t.drop_last();
        assert(t[t.len() - 1].0@ == key <==> from <= t.len() - 1 < to);
        assert forall|i: int| 0 <= i < before.len() implies ((#[trigger] before[i]).0@ == key
            <==> from <= i < to) by {
            assert(before[i] == t[i]);
        }
        let upto = if to == t.len() && from < to {
            to - 1
        } else {
            to
        };
        if to == t.len() && from == to {
            lemma_pairs_between(before, key, 0, 0);
        } else {
            lemma_pairs_between(before, key, from, upto);
        }
    }
    assert(pairs_for(t, key) =~= Seq::new(
        (to - from) as nat,
        |i: int| (t[from + i].1@, t[from + i].2@),
    ));
}

/// The values of a table whose rows from `from` to `to` are those of a key.
proof fn lemma_values_between(
    t: Seq<(&'static str, &'static str)>,
    key: Seq<char>,
    from: int,
    to: int,
)
    requires
        0 <= from <= to <= t.len(),
        forall|i: int|
            0 <= i < t.len() ==> ((#[trigger] t[i]).0@ == key <==> from <= i < to),
    ensures
        values_for(t, key) == Seq::new((to - from) as nat, |i: int| t[from + i].1@),
    decreases t.len(),
{
    if t.len() > 0 {
        let before = t.drop_last();
        assert(t[t.len() - 1].0@ == key <==> from <= t.len() - 1 < to);
        assert forall|i: int| 0 <= i < before.len() implies ((#[trigger] before[i]).0@ == key
            <==> from <= i < to) by {
            assert(before[i] == t[i]);
        }
        let upto = if to == t.len() && from < to {
            to - 1
        } else {
            to
        };
        if to == t.len() && from == to {
            lemma_values_between(before, key, 0, 0);
        } else {
            lemma_values_between(before, key, from, upto);
        }
    }
    assert(values_for(t, key) =~= Seq::new((to - from) as nat, |i: int| t[from + i].1@));
}

/// The rows of the parameters and of the required fields that a hint is about.
proof fn lemma_rows_of_hint(k: int, from: int, to: int, first: int, last: int)
    requires
        0 <= k < ARGUMENT_HINTS@.len(),
        0 <= from <= to <= PARAMETER_TYPES@.len(),
        0 <= first <= last <= REQUIRED_FIELDS@.len(),
        forall|i: int|
            0 <= i < PARAMETER_TYPES@.len() ==> (#[trigger] parameter_owner(i) == k <==> from <= i
                < to),
        forall|i: int|
            0 <= i < REQUIRED_FIELDS@.len() ==> (#[trigger] field_owner(i) == k <==> first <= i
                < last),
    ensures
        pairs_for(PARAMETER_TYPES@, ARGUMENT_HINTS@[k].0@) == Seq::new(
            (to - from) as nat,
            |i: int| (PARAMETER_TYPES@[from + i].1@, PARAMETER_TYPES@[from + i].2@),
        ),
        values_for(REQUIRED_FIELDS@, ARGUMENT_HINTS@[k].0@) == Seq::new(
            (last - first) as nat,
            |i: int| REQUIRED_FIELDS@[first + i].1@,
        ),
{
    let name = ARGUMENT_HINTS@[k].0@;
    assert forall|i: int| 0 <= i < PARAMETER_TYPES@.len() implies ((
    #[trigger] PARAMETER_TYPES@[i]).0@ == name <==> from <= i < to) by {
        lemma_parameter_owner(i);
        if parameter_owner(i) != k {
            lemma_hint_names_differ(parameter_owner(i), k);
        }
    }
    lemma_pairs_between(PARAMETER_TYPES@, name, from, to);
    assert forall|i: int| 0 <= i < REQUIRED_FIELDS@.len() implies ((
    #[trigger] REQUIRED_FIELDS@[i]).0@ == name <==> first <= i < last) by {
        lemma_field_owner(i);
        if field_owner(i) != k {
            lemma_hint_names_differ(field_owner(i), k);
        }
    }
    lemma_values_between(REQUIRED_FIELDS@, name, first, last);
}

proof fn lemma_hint_describes(k: int)
    requires
        0 <= k < ARGUMENT_HINTS@.len(),
    ensures
        describes(
            ARGUMENT_HINTS@[k].1@,
            pairs_for(PARAMETER_TYPES@, ARGUMENT_HINTS@[k].0@),
            values_for(REQUIRED_FIELDS@, ARGUMENT_HINTS@[k].0@),
        ),
{
    let name = ARGUMENT_HINTS@[k].0@;
    if k == 0 {
        lemma_rows_of_hint(k, 0, 2, 0, 1);
        lemma_tool_search_hint();
        assert(pairs_for(PARAMETER_TYPES@, name) =~= seq![
            ("query"@, "string"@),
            ("limit"@, "integer"@),
        ]);
        assert(values_for(REQUIRED_FIELDS@, name) =~= seq!["query"@]);
    } else if k == 1 {
        lemma_rows_of_hint(k, 2, 5, 1, 4);
        lemma_tool_invoke_hint();
        assert(pairs_for(PARAMETER_TYPES@, name) =~= seq![
            ("tool_id"@, "string"@),
            ("lease"@, "string"@),
            ("arguments"@, "object"@),
        ]);
        assert(values_for(REQUIRED_FIELDS@, name) =~= seq!["tool_id"@, "lease"@, "arguments"@]);
    } else if k == 2 {
        lemma_rows_of_hint(k, 5, 8, 0, 0);
        lemma_claw_migrate_hint();
        assert(pairs_for(PARAMETER_TYPES@, name) =~= seq![
            ("input_path"@, "string"@),
            ("mode"@, "string"@),
            ("source"@, "string"@),
        ]);
        assert(values_for(REQUIRED_FIELDS@, name) =~= Seq::<Seq<char>>::empty());
    } else if k == 3 {
        lemma_rows_of_hint(k, 8, 12, 4, 5);
        lemma_external_skills_fetch_hint();
        assert(pairs_for(PARAMETER_TYPES@, name) =~= seq![
            ("url"@, "string"@),
            ("approval_granted"@, "boolean"@),
            ("save_as"@, "string"@),
            ("max_bytes"@, "integer"@),
        ]);
        assert(values_for(REQUIRED_FIELDS@, name) =~= seq!["url"@]);
    } else if k == 4 {
        lemma_rows_of_hint(k, 12, 13, 5, 6);
        lemma_external_skills_inspect_hint();
        assert(pairs_for(PARAMETER_TYPES@, name) =~= seq![("skill_id"@, "string"@)]);
        assert(values_for(REQUIRED_FIELDS@, name) =~= seq!["skill_id"@]);
    } else if k == 5 {
        lemma_rows_of_hint(k, 15, 19, 0, 0);
        lemma_external_skills_install_hint();
        assert(pairs_for(PARAMETER_TYPES@, name) =~= seq![
            ("path"@, "string"@),
            ("bundled_skill_id"@, "string"@),
            ("skill_id"@, "string"@),
            ("replace"@, "boolean"@),
        ]);
        assert(values_for(REQUIRED_FIELDS@, name) =~= Seq::<Seq<char>>::empty());
    } else if k == 6 {
        lemma_rows_of_hint(k, 13, 14, 6, 7);
        lemma_external_skills_inspect_hint();
        assert(pairs_for(PARAMETER_TYPES@, name) =~= seq![("skill_id"@, "string"@)]);
        assert(values_for(REQUIRED_FIELDS@, name) =~= seq!["skill_id"@]);
    } else if k == 7 {
        lemma_rows_of_hint(k, 33, 37, 0, 0);
        lemma_external_skills_policy_hint();
        assert(pairs_for(PARAMETER_TYPES@, name) =~= seq![
            ("action"@, "string"@),
            ("enabled"@, "boolean"@),
            ("allowed_domains"@, "array"@),
            ("blocked_domains"@, "array"@),
        ]);
        assert(values_for(REQUIRED_FIELDS@, name) =~= Seq::<Seq<char>>::empty());
    } else if k == 8 {
        lemma_rows_of_hint(k, 14, 15, 7, 8);
        lemma_external_skills_inspect_hint();
        assert(pairs_for(PARAMETER_TYPES@, name) =~= seq![("skill_id"@, "string"@)]);
        assert(values_for(REQUIRED_FIELDS@, name) =~= seq!["skill_id"@]);
    } else if k == 9 {
        lemma_rows_of_hint(k, 19, 20, 8, 9);
        lemma_browser_companion_session_start_hint();
        assert(pairs_for(PARAMETER_TYPES@, name) =~= seq![("url"@, "string"@)]);
        assert(values_for(REQUIRED_FIELDS@, name) =~= seq!["url"@]);
    } else if k == 10 {
        lemma_rows_of_hint(k, 20, 22, 9, 11);
        lemma_browser_companion_navigate_hint();
        assert(pairs_for(PARAMETER_TYPES@, name) =~= seq![
            ("session_id"@, "string"@),
            ("url"@, "string"@),
        ]);
        assert(values_for(REQUIRED_FIELDS@, name) =~= seq!["session_id"@, "url"@]);
    } else if k == 11 {
        lemma_rows_of_hint(k, 22, 24, 11, 12);
        lemma_browser_companion_snapshot_hint();
        assert(pairs_for(PARAMETER_TYPES@, name) =~= seq![
            ("session_id"@, "string"@),
            ("mode"@, "string"@),
        ]);
        assert(values_for(REQUIRED_FIELDS@, name) =~= seq!["session_id"@]);
    } else if k == 12 {
        lemma_rows_of_hint(k, 24, 27, 12, 13);
        lemma_browser_companion_wait_hint();
        assert(pairs_for(PARAMETER_TYPES@, name) =~= seq![
            ("session_id"@, "string"@),
            ("condition"@, "string"@),
            ("timeout_ms"@, "integer"@),
        ]);
        assert(values_for(REQUIRED_FIELDS@, name) =~= seq!["session_id"@]);
    } else if k == 13 {
        lemma_rows_of_hint(k, 27, 28, 13, 14);
        lemma_browser_companion_session_stop_hint();
        assert(pairs_for(PARAMETER_TYPES@, name) =~= seq![("session_id"@, "string"@)]);
        assert(values_for(REQUIRED_FIELDS@, name) =~= seq!["session_id"@]);
    } else if k == 14 {
        lemma_rows_of_hint(k, 28, 30, 14, 16);
        lemma_browser_companion_click_hint();
        assert(pairs_for(PARAMETER_TYPES@, name) =~= seq![
            ("session_id"@, "string"@),
            ("selector"@, "string"@),
        ]);
        assert(values_for(REQUIRED_FIELDS@, name) =~= seq!["session_id"@, "selector"@]);
    } else if k == 15 {
        lemma_rows_of_hint(k, 30, 33, 16, 19);
        lemma_browser_companion_type_hint();
        assert(pairs_for(PARAMETER_TYPES@, name) =~= seq![
            ("session_id"@, "string"@),
            ("selector"@, "string"@),
            ("text"@, "string"@),
        ]);
        assert(values_for(REQUIRED_FIELDS@, name) =~= seq!["session_id"@, "selector"@, "text"@]);
    } else if k == 16 {
        lemma_rows_of_hint(k, 37, 39, 19, 20);
        lemma_file_read_hint();
        assert(pairs_for(PARAMETER_TYPES@, name) =~= seq![
            ("path"@, "string"@),
            ("max_bytes"@, "integer"@),
        ]);
        assert(values_for(REQUIRED_FIELDS@, name) =~= seq!["path"@]);
    } else if k == 17 {
        lemma_rows_of_hint(k, 39, 42, 20, 22);
        lemma_file_write_hint();
        assert(pairs_for(PARAMETER_TYPES@, name) =~= seq![
            ("path"@, "string"@),
            ("content"@, "string"@),
            ("create_dirs"@, "boolean"@),
        ]);
        assert(values_for(REQUIRED_FIELDS@, name) =~= seq!["path"@, "content"@]);
    } else if k == 18 {
        lemma_rows_of_hint(k, 42, 46, 22, 25);
        lemma_file_edit_hint();
        assert(pairs_for(PARAMETER_TYPES@, name) =~= seq![
            ("path"@, "string"@),
            ("old_string"@, "string"@),
            ("new_string"@, "string"@),
            ("replace_all"@, "boolean"@),
        ]);
        assert(values_for(REQUIRED_FIELDS@, name) =~= seq!["path"@, "old_string"@, "new_string"@]);
    } else if k == 19 {
        lemma_rows_of_hint(k, 46, 50, 25, 26);
        lemma_shell_exec_hint();
        assert(pairs_for(PARAMETER_TYPES@, name) =~= seq![
            ("command"@, "string"@),
            ("args"@, "array"@),
            ("timeout_ms"@, "integer"@),
            ("cwd"@, "string"@),
        ]);
        assert(values_for(REQUIRED_FIELDS@, name) =~= seq!["command"@]);
    } else if k == 20 {
        lemma_rows_of_hint(k, 50, 51, 0, 0);
        lemma_provider_switch_hint();
        assert(pairs_for(PARAMETER_TYPES@, name) =~= seq![("selector"@, "string"@)]);
        assert(values_for(REQUIRED_FIELDS@, name) =~= Seq::<Seq<char>>::empty());
    } else if k == 21 {
        lemma_rows_of_hint(k, 51, 54, 26, 27);
        lemma_delegate_hint();
        assert(pairs_for(PARAMETER_TYPES@, name) =~= seq![
            ("task"@, "string"@),
            ("label"@, "string"@),
            ("timeout_seconds"@, "integer"@),
        ]);
        assert(values_for(REQUIRED_FIELDS@, name) =~= seq!["task"@]);
    } else if k == 22 {
        lemma_rows_of_hint(k, 54, 57, 27, 28);
        lemma_delegate_hint();
        assert(pairs_for(PARAMETER_TYPES@, name) =~= seq![
            ("task"@, "string"@),
            ("label"@, "string"@),
            ("timeout_seconds"@, "integer"@),
        ]);
        assert(values_for(REQUIRED_FIELDS@, name) =~= seq!["task"@]);
    } else if k == 23 {
        lemma_rows_of_hint(k, 57, 58, 28, 29);
        lemma_browser_companion_session_stop_hint();
        assert(pairs_for(PARAMETER_TYPES@, name) =~= seq![("session_id"@, "string"@)]);
        assert(values_for(REQUIRED_FIELDS@, name) =~= seq!["session_id"@]);
    } else if k == 24 {
        lemma_rows_of_hint(k, 58, 59, 29, 30);
        lemma_browser_companion_session_stop_hint();
        assert(pairs_for(PARAMETER_TYPES@, name) =~= seq![("session_id"@, "string"@)]);
        assert(values_for(REQUIRED_FIELDS@, name) =~= seq!["session_id"@]);
    } else if k == 25 {
        lemma_rows_of_hint(k, 59, 60, 30, 31);
        lemma_browser_companion_session_stop_hint();
        assert(pairs_for(PARAMETER_TYPES@, name) =~= seq![("session_id"@, "string"@)]);
        assert(values_for(REQUIRED_FIELDS@, name) =~= seq!["session_id"@]);
    } else if k == 26 {
        lemma_rows_of_hint(k, 60, 61, 31, 32);
        lemma_browser_companion_session_stop_hint();
        assert(pairs_for(PARAMETER_TYPES@, name) =~= seq![("session_id"@, "string"@)]);
        assert(values_for(REQUIRED_FIELDS@, name) =~= seq!["session_id"@]);
    } else if k == 27 {
        lemma_rows_of_hint(k, 61, 62, 32, 33);
        lemma_browser_companion_session_stop_hint();
        assert(pairs_for(PARAMETER_TYPES@, name) =~= seq![("session_id"@, "string"@)]);
        assert(values_for(REQUIRED_FIELDS@, name) =~= seq!["session_id"@]);
    } else if k == 28 {
        lemma_rows_of_hint(k, 62, 63, 33, 34);
        lemma_browser_companion_session_stop_hint();
        assert(pairs_for(PARAMETER_TYPES@, name) =~= seq![("session_id"@, "string"@)]);
        assert(values_for(REQUIRED_FIELDS@, name) =~= seq!["session_id"@]);
    } else if k == 29 {
        lemma_rows_of_hint(k, 63, 64, 34, 35);
        lemma_browser_companion_session_stop_hint();
        assert(pairs_for(PARAMETER_TYPES@, name) =~= seq![("session_id"@, "string"@)]);
        assert(values_for(REQUIRED_FIELDS@, name) =~= seq!["session_id"@]);
    } else if k == 30 {
        lemma_rows_of_hint(k, 64, 66, 0, 0);
        lemma_sessions_list_hint();
        assert(pairs_for(PARAMETER_TYPES@, name) =~= seq![
            ("limit"@, "integer"@),
            ("state"@, "string"@),
        ]);
        assert(values_for(REQUIRED_FIELDS@, name) =~= Seq::<Seq<char>>::empty());
    } else if k == 31 {
        lemma_rows_of_hint(k, 66, 68, 35, 37);
        lemma_sessions_send_hint();
        assert(pairs_for(PARAMETER_TYPES@, name) =~= seq![
            ("session_id"@, "string"@),
            ("text"@, "string"@),
        ]);
        assert(values_for(REQUIRED_FIELDS@, name) =~= seq!["session_id"@, "text"@]);
    } else if k == 32 {
        lemma_rows_of_hint(k, 68, 71, 37, 38);
        lemma_web_search_hint();
        assert(pairs_for(PARAMETER_TYPES@, name) =~= seq![
            ("query"@, "string"@),
            ("provider"@, "string"@),
            ("max_results"@, "integer"@),
        ]);
        assert(values_for(REQUIRED_FIELDS@, name) =~= seq!["query"@]);
    }
}

/// The hint on the arguments of a tool shows its parameters in their order, each with its
/// type and with a mark exactly where it is not required; and every field that is required
/// is a parameter. A tool without a hint has no parameters and no required fields.
pub proof fn law_hints_show_the_parameters(name: Seq<char>)
    ensures
        describes(
            argument_hint_of(name),
            pairs_for(PARAMETER_TYPES@, name),
            values_for(REQUIRED_FIELDS@, name),
        ),
        (forall|k: int|
            0 <= k < ARGUMENT_HINTS@.len() ==> (#[trigger] ARGUMENT_HINTS@[k]).0@ != name) ==> {
            &&& argument_hint_of(name).len() == 0
            &&& pairs_for(PARAMETER_TYPES@, name).len() == 0
            &&& values_for(REQUIRED_FIELDS@, name).len() == 0
        },
{
    if exists|k: int|
        0 <= k < ARGUMENT_HINTS@.len() && (#[trigger] ARGUMENT_HINTS@[k]).0@ == name {
        let k = choose|k: int|
            0 <= k < ARGUMENT_HINTS@.len() && (#[trigger] ARGUMENT_HINTS@[k]).0@ == name;
        assert forall|i: int| 0 <= i < ARGUMENT_HINTS@.len() implies ((
        #[trigger] ARGUMENT_HINTS@[i]).0@ == name <==> k <= i < k + 1) by {
            if i != k {
                lemma_hint_names_differ(i, k);
            }
        }
        lemma_values_between(ARGUMENT_HINTS@, name, k, k + 1);
        lemma_hint_describes(k);
    } else {
        lemma_values_between(ARGUMENT_HINTS@, name, 0, 0);
        assert forall|i: int| 0 <= i < PARAMETER_TYPES@.len() implies ((
        #[trigger] PARAMETER_TYPES@[i]).0@ == name <==> 0 <= i < 0) by {
            lemma_parameter_owner(i);
        }
        lemma_pairs_between(PARAMETER_TYPES@, name, 0, 0);
        assert forall|i: int| 0 <= i < REQUIRED_FIELDS@.len() implies ((
        #[trigger] REQUIRED_FIELDS@[i]).0@ == name <==> 0 <= i < 0) by {
            lemma_field_owner(i);
        }
        lemma_values_between(REQUIRED_FIELDS@, name, 0, 0);
    }
}

} // verus!
