//! The tools as the service takes them.
use vstd::prelude::*;

use crate::content_json::{array_value, object_value, text_value};
use crate::json::{
    Json, JsonValue, entry_models, field, law_first_entry_of_a_name_is_found, mentions_key, models,
};
use crate::message::ToolDefinition;
use crate::schema::{law_rewritten_schema_omits_const, rewrite_const, without_const};

verus! {

/// A function that the model may call.
#[derive(Debug, PartialEq, Eq)]
pub struct GeminiFunctionDeclaration {
    pub name: String,
    pub description: String,
    pub parameters: JsonValue,
}

/// A set of functions that the model may call.
#[derive(Debug, PartialEq, Eq)]
pub struct GeminiTool {
    pub function_declarations: Vec<GeminiFunctionDeclaration>,
}

/// The model of a [`GeminiFunctionDeclaration`].
pub struct Declaration {
    pub name: Seq<char>,
    pub description: Seq<char>,
    pub parameters: Json,
}

impl View for GeminiFunctionDeclaration {
    type V = Declaration;

    open spec fn view(&self) -> Declaration {
        Declaration {
            name: self.name@,
            description: self.description@,
            parameters: self.parameters@,
        }
    }
}

impl View for GeminiTool {
    type V = Seq<Declaration>;

    open spec fn view(&self) -> Seq<Declaration> {
        self.function_declarations@.map_values(
            |declaration: GeminiFunctionDeclaration| declaration@,
        )
    }
}

/// The declaration that stands for `definition`.
pub open spec fn declaration_of(definition: ToolDefinition) -> Declaration {
    Declaration {
        name: definition.name@,
        description: definition.description@,
        parameters: without_const(definition.input_schema@),
    }
}

/// The declarations that stand for `definitions`, one for each.
pub open spec fn declarations_of(definitions: Seq<ToolDefinition>) -> Seq<Declaration> {
    definitions.map_values(|definition: ToolDefinition| declaration_of(definition))
}

/// The tool set that declares every one of `definitions`, or nothing where there are none.
pub fn build_tools(definitions: &[ToolDefinition]) -> (tools: Option<Vec<GeminiTool>>)
    ensures
        match tools {
            Some(tools) => {
                &&& definitions@.len() > 0
                &&& tools@.len() == 1
                &&& tools@[0]@ == declarations_of(definitions@)
                &&& tools@[0].function_declarations@.len() == definitions@.len()
                &&& forall|i: int|
                    0 <= i < definitions@.len() ==> {
                        let declaration = #[trigger] tools@[0].function_declarations@[i];
                        &&& declaration.name@ == definitions@[i].name@
                        &&& declaration.description@ == definitions@[i].description@
                        &&& declaration.parameters@ == without_const(definitions@[i].input_schema@)
                    }
            },
            None => definitions@.len() == 0,
        },
{
    if definitions.len() == 0 {
        return None;
    }
    let mut declarations: Vec<GeminiFunctionDeclaration> = Vec::new();
    let mut i: usize = 0;
    while i < definitions.len()
        invariant
            i <= definitions@.len(),
            declarations@.len() == i,
            forall|k: int|
                0 <= k < i ==> (#[trigger] declarations@[k])@ == declaration_of(definitions@[k]),
        decreases definitions@.len() - i,
    {
        let definition = &definitions[i];
        declarations.push(
            GeminiFunctionDeclaration {
                name: definition.name.clone(),
                description: definition.description.clone(),
                parameters: rewrite_const(&definition.input_schema),
            },
        );
        i = i + 1;
    }
    assert forall|k: int| 0 <= k < definitions@.len() implies {
        let declaration = #[trigger] declarations@[k];
        &&& declaration.name@ == definitions@[k].name@
        &&& declaration.description@ == definitions@[k].description@
        &&& declaration.parameters@ == without_const(definitions@[k].input_schema@)
    } by {
        assert(declarations@[k]@ == declaration_of(definitions@[k]));
    }
    let tool = GeminiTool { function_declarations: declarations };
    let mut tools: Vec<GeminiTool> = Vec::new();
    tools.push(tool);
    Some(tools)
}

/// The JSON of a declaration.
pub open spec fn declaration_json(declaration: Declaration) -> Json {
    Json::Object(
        seq![
            ("name"@, Json::Text(declaration.name)),
            ("description"@, Json::Text(declaration.description)),
            ("parameters"@, declaration.parameters),
        ],
    )
}

/// The JSON of a set of declarations.
pub open spec fn tool_json(declarations: Seq<Declaration>) -> Json {
    Json::Object(
        seq![
            (
                "functionDeclarations"@,
                Json::Array(declarations.map_values(|d: Declaration| declaration_json(d))),
            ),
        ],
    )
}

/// The JSON of a tool set.
pub fn tool_value(tool: &GeminiTool) -> (value: JsonValue)
    ensures
        value@ == tool_json(tool@),
{
    let declarations = &tool.function_declarations;
    let mut items: Vec<JsonValue> = Vec::new();
    let mut i: usize = 0;
    while i < declarations.len()
        invariant
            i <= declarations@.len(),
            items@.len() == i,
            forall|k: int|
                0 <= k < i ==> (#[trigger] items@[k])@ == declaration_json(declarations@[k]@),
        decreases declarations@.len() - i,
    {
        let declaration = &declarations[i];
        let mut entries: Vec<(String, JsonValue)> = Vec::new();
        entries.push(("name".to_owned(), text_value(declaration.name.as_str())));
        entries.push(("description".to_owned(), text_value(declaration.description.as_str())));
        entries.push(("parameters".to_owned(), declaration.parameters.clone()));
        assert(entry_models(entries@) =~= declaration_json(declaration@)->Object_0);
        items.push(object_value(entries));
        i = i + 1;
    }
    assert(models(items@) =~= tool@.map_values(|d: Declaration| declaration_json(d)));
    let mut entries: Vec<(String, JsonValue)> = Vec::new();
    entries.push(("functionDeclarations".to_owned(), array_value(items)));
    assert(entry_models(entries@) =~= tool_json(tool@)->Object_0);
    object_value(entries)
}

/// The service never sees the keyword `const`: not in any declaration built from tool
/// definitions, whatever their schemas, nor anywhere in the JSON of the tool set.
pub proof fn law_tools_omit_const(definitions: Seq<ToolDefinition>)
    ensures
        forall|i: int|
            0 <= i < definitions.len() ==> !mentions_key(
                (#[trigger] declarations_of(definitions)[i]).parameters,
                "const"@,
            ),
        !mentions_key(tool_json(declarations_of(definitions)), "const"@),
{
    let declarations = declarations_of(definitions);
    assert forall|i: int| 0 <= i < definitions.len() implies !mentions_key(
        (#[trigger] declarations[i]).parameters,
        "const"@,
    ) by {
        law_rewritten_schema_omits_const(definitions[i].input_schema@);
    }
    let items = declarations.map_values(|d: Declaration| declaration_json(d));
    let array = Json::Array(items);
    assert forall|i: int| 0 <= i < items.len() implies !mentions_key(
        #[trigger] items[i],
        "const"@,
    ) by {
        lemma_declaration_omits_const(declarations[i]);
    }
    assert(!mentions_key(array, "const"@));
    reveal_strlit("const");
    reveal_strlit("functionDeclarations");
    let json = tool_json(declarations);
    let entries = json->Object_0;
    assert("const"@.len() != entries[0].0.len());
}

proof fn lemma_declaration_omits_const(declaration: Declaration)
    requires
        !mentions_key(declaration.parameters, "const"@),
    ensures
        !mentions_key(declaration_json(declaration), "const"@),
{
    reveal_strlit("const");
    reveal_strlit("name");
    reveal_strlit("description");
    reveal_strlit("parameters");
    assert("const"@.len() == 5);
    let json = declaration_json(declaration);
    let entries = json->Object_0;
    assert(forall|i: int|
        0 <= i < entries.len() ==> (#[trigger] entries[i]).0 != "const"@ && !mentions_key(
            entries[i].1,
            "const"@,
        ));
}

/// One declaration stands for each definition, in order, with its name, its description and its
/// schema rewritten.
pub proof fn law_every_definition_is_declared(definitions: Seq<ToolDefinition>, i: int)
    requires
        0 <= i < definitions.len(),
    ensures
        declarations_of(definitions).len() == definitions.len(),
        declarations_of(definitions)[i].name == definitions[i].name@,
        declarations_of(definitions)[i].description == definitions[i].description@,
        declarations_of(definitions)[i].parameters == without_const(definitions[i].input_schema@),
{
}

/// The JSON of a tool set holds every declaration, in order, and nothing besides them.
pub proof fn law_tool_json_holds_every_declaration(declarations: Seq<Declaration>)
    ensures
        tool_json(declarations) is Object,
        tool_json(declarations)->Object_0.len() == 1,
        field(tool_json(declarations), "functionDeclarations"@) is Some,
        field(tool_json(declarations), "functionDeclarations"@)->0 is Array,
        field(tool_json(declarations), "functionDeclarations"@)->0->Array_0.len()
            == declarations.len(),
        forall|i: int|
            0 <= i < declarations.len() ==> #[trigger] field(
                tool_json(declarations),
                "functionDeclarations"@,
            )->0->Array_0[i] == declaration_json(declarations[i]),
{
    law_first_entry_of_a_name_is_found(tool_json(declarations)->Object_0, 0);
}

/// The JSON of a declaration holds its name, its description and its parameters, each under its
/// own name, and nothing else.
pub proof fn law_declaration_json_holds_the_declaration(declaration: Declaration)
    ensures
        declaration_json(declaration) is Object,
        declaration_json(declaration)->Object_0.len() == 3,
        field(declaration_json(declaration), "name"@) == Some(Json::Text(declaration.name)),
        field(declaration_json(declaration), "description"@) == Some(
            Json::Text(declaration.description),
        ),
        field(declaration_json(declaration), "parameters"@) == Some(declaration.parameters),
{
    let entries = declaration_json(declaration)->Object_0;
    reveal_strlit("name");
    reveal_strlit("description");
    reveal_strlit("parameters");
    assert("name"@.len() == 4 && "description"@.len() == 11 && "parameters"@.len() == 10);
    law_first_entry_of_a_name_is_found(entries, 0);
    law_first_entry_of_a_name_is_found(entries, 1);
    law_first_entry_of_a_name_is_found(entries, 2);
}

/// A tool set shows each of its declarations, where it stands.
pub proof fn law_tool_sets_are_shown_whole(tool: GeminiTool)
    ensures
        tool@.len() == tool.function_declarations@.len(),
        forall|i: int|
            0 <= i < tool@.len() ==> {
                let declaration = #[trigger] tool@[i];
                &&& declaration.name == tool.function_declarations@[i].name@
                &&& declaration.description == tool.function_declarations@[i].description@
                &&& declaration.parameters == tool.function_declarations@[i].parameters@
            },
{
}

} // verus!
