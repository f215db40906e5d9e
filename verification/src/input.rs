//! Builders for what goes into a request: tools, and the items of the input.

use vstd::prelude::*;

use crate::json::{Json, Object, Value};
use crate::options::{message_from_user, user_item};

verus! {

/// Builders for the tools of a request.
pub struct Tool;

/// Builders for the items of the input.
pub struct InputItem;

/// A tool that has nothing but a type.
pub open spec fn builtin_tool(kind: Seq<char>) -> Json {
    Json::Object(map!["type"@ => Json::String(kind)])
}

/// A custom function tool.
pub open spec fn function_tool(name: Seq<char>, parameters: Json) -> Json {
    Json::Object(
        map![
            "type"@ => Json::String("function"@),
            "name"@ => Json::String(name),
            "parameters"@ => parameters,
        ],
    )
}

/// A custom function tool with a description.
pub open spec fn described_tool(
    name: Seq<char>,
    description: Seq<char>,
    parameters: Json,
) -> Json {
    Json::Object(
        map![
            "type"@ => Json::String("function"@),
            "name"@ => Json::String(name),
            "description"@ => Json::String(description),
            "parameters"@ => parameters,
        ],
    )
}

/// The result of a tool call.
pub open spec fn call_output(call_id: Seq<char>, output: Seq<char>) -> Json {
    Json::Object(
        map![
            "type"@ => Json::String("function_call_output"@),
            "call_id"@ => Json::String(call_id),
            "output"@ => Json::String(output),
        ],
    )
}

fn builtin(kind: &str) -> (r: Value)
    ensures
        r@ == builtin_tool(kind@),
{
    let r = Value::object(Object::new().with("type", Value::string(kind)));
    assert(r@->Object_0 =~= builtin_tool(kind@)->Object_0);
    r
}

impl Tool {
    /// A custom function tool. `parameters` is a JSON schema.
    pub fn function(name: &str, parameters: Value) -> (r: Value)
        ensures
            r@ == function_tool(name@, parameters@),
    {
        let r = Value::object(
            Object::new().with("type", Value::string("function")).with(
                "name",
                Value::string(name),
            ).with("parameters", parameters),
        );
        assert(r@->Object_0 =~= function_tool(name@, parameters@)->Object_0);
        r
    }

    /// A custom function tool with a description.
    pub fn function_described(name: &str, description: &str, parameters: Value) -> (r: Value)
        ensures
            r@ == described_tool(name@, description@, parameters@),
    {
        let r = Value::object(
            Object::new().with("type", Value::string("function")).with(
                "name",
                Value::string(name),
            ).with("description", Value::string(description)).with("parameters", parameters),
        );
        assert(r@->Object_0 =~= described_tool(name@, description@, parameters@)->Object_0);
        r
    }

    /// The web search of the server.
    pub fn web_search() -> (r: Value)
        ensures
            r@ == builtin_tool("web_search"@),
    {
        builtin("web_search")
    }

    /// The image generation of the server.
    pub fn image_generation() -> (r: Value)
        ensures
            r@ == builtin_tool("image_generation"@),
    {
        builtin("image_generation")
    }
}

impl InputItem {
    /// A message of the user.
    pub fn user(text: &str) -> (r: Value)
        ensures
            r@ == user_item(text@),
    {
        message_from_user(text)
    }

    /// The result of the tool call `call_id`.
    pub fn function_output(call_id: &str, output: &str) -> (r: Value)
        ensures
            r@ == call_output(call_id@, output@),
    {
        let r = Value::object(
            Object::new().with("type", Value::string("function_call_output")).with(
                "call_id",
                Value::string(call_id),
            ).with("output", Value::string(output)),
        );
        assert(r@->Object_0 =~= call_output(call_id@, output@)->Object_0);
        r
    }
}

} // verus!
