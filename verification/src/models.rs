//! Tool calls and their results, as the backend exchanges them.

use vstd::prelude::*;
use crate::text::same_text;

verus! {

/// What a tool call asks for: the function's name, that name without the prefix of the server that
/// offers it, and the arguments as JSON text.
#[derive(Debug)]
pub struct FunctionCall {
    pub name: String,
    pub bare_name: String,
    pub arguments: String,
}

/// A call of a tool that the model asked for.
#[derive(Debug)]
pub struct ToolCall {
    pub id: String,
    pub call_type: String,
    pub function: FunctionCall,
    pub metadata: Option<String>,
}

/// What a tool call says.
pub struct ToolCallView {
    pub id: Seq<char>,
    pub call_type: Seq<char>,
    pub name: Seq<char>,
    pub bare_name: Seq<char>,
    pub arguments: Seq<char>,
    pub metadata: Option<Seq<char>>,
}

/// The text of an optional string.
pub open spec fn text_of(s: Option<String>) -> Option<Seq<char>> {
    match s {
        Some(t) => Some(t@),
        None => None,
    }
}

impl View for ToolCall {
    type V = ToolCallView;

    open spec fn view(&self) -> ToolCallView {
        ToolCallView {
            id: self.id@,
            call_type: self.call_type@,
            name: self.function.name@,
            bare_name: self.function.bare_name@,
            arguments: self.function.arguments@,
            metadata: text_of(self.metadata),
        }
    }
}

impl Clone for FunctionCall {
    fn clone(&self) -> (r: FunctionCall)
        ensures
            r == *self,
    {
        FunctionCall {
            name: self.name.clone(),
            bare_name: self.bare_name.clone(),
            arguments: self.arguments.clone(),
        }
    }
}

impl Clone for ToolCall {
    fn clone(&self) -> (r: ToolCall)
        ensures
            r == *self,
    {
        ToolCall {
            id: self.id.clone(),
            call_type: self.call_type.clone(),
            function: self.function.clone(),
            metadata: copy_text(&self.metadata),
        }
    }
}

/// A copy of an optional string.
pub fn copy_text(s: &Option<String>) -> (r: Option<String>)
    ensures
        r == *s,
{
    match s {
        Some(t) => Some(t.clone()),
        None => None,
    }
}

/// Whether two optional strings hold the same text.
pub fn same_option(a: &Option<String>, b: &Option<String>) -> (r: bool)
    ensures
        r == (text_of(*a) == text_of(*b)),
{
    match (a, b) {
        (Some(x), Some(y)) => same_text(x.as_str(), y.as_str()),
        (None, None) => true,
        _ => false,
    }
}

impl ToolCall {
    /// Whether the two calls say the same.
    pub fn same(&self, other: &ToolCall) -> (r: bool)
        ensures
            r == (self@ == other@),
    {
        same_text(self.id.as_str(), other.id.as_str()) && same_text(
            self.call_type.as_str(),
            other.call_type.as_str(),
        ) && same_text(self.function.name.as_str(), other.function.name.as_str()) && same_text(
            self.function.bare_name.as_str(),
            other.function.bare_name.as_str(),
        ) && same_text(
            self.function.arguments.as_str(),
            other.function.arguments.as_str(),
        ) && same_option(&self.metadata, &other.metadata)
    }
}

/// The calls' contents.
pub open spec fn call_views(v: Seq<ToolCall>) -> Seq<ToolCallView> {
    v.map_values(|c: ToolCall| c@)
}

/// Whether one of the calls says the same as `c`.
pub fn holds_call(v: &Vec<ToolCall>, c: &ToolCall) -> (r: bool)
    ensures
        r == call_views(v@).contains(c@),
{
    let mut i: usize = 0;
    while i < v.len()
        invariant
            i <= v@.len(),
            forall|j: int| 0 <= j < i ==> call_views(v@)[j] != c@,
        decreases v@.len() - i,
    {
        if v[i].same(c) {
            assert(call_views(v@)[i as int] == c@);
            return true;
        }
        i += 1;
    }
    assert(!call_views(v@).contains(c@)) by {
        if call_views(v@).contains(c@) {
            let j = choose|j: int| 0 <= j < call_views(v@).len() && call_views(v@)[j] == c@;
            assert(false);
        }
    }
    false
}

/// A copy of the calls.
pub fn copy_calls(v: &Vec<ToolCall>) -> (r: Vec<ToolCall>)
    ensures
        r@ == v@,
{
    let r: Vec<ToolCall> = v.clone();
    assert(r@ =~= v@);
    r
}

/// How a tool call ended.
#[derive(Clone, Copy, Debug, PartialEq, Eq, Structural)]
pub enum ToolCallResultStatus {
    Success,
    Error,
    Cancelled,
}

/// A tool call with what came of it.
#[derive(Debug)]
pub struct ToolCallResult {
    pub call: ToolCall,
    pub result: String,
    pub status: ToolCallResultStatus,
}

impl Clone for ToolCallResult {
    fn clone(&self) -> (r: ToolCallResult)
        ensures
            r == *self,
    {
        ToolCallResult {
            call: self.call.clone(),
            result: self.result.clone(),
            status: self.status,
        }
    }
}

/// A part of a user message besides its text.
#[derive(Debug)]
pub struct ContentPart {
    pub part_type: String,
    pub text: Option<String>,
    pub image_url: Option<String>,
}

impl Clone for ContentPart {
    fn clone(&self) -> (r: ContentPart)
        ensures
            r == *self,
    {
        ContentPart {
            part_type: self.part_type.clone(),
            text: copy_text(&self.text),
            image_url: copy_text(&self.image_url),
        }
    }
}

/// A model that can answer.
#[derive(Debug)]
pub struct Model {
    pub id: String,
    pub name: String,
    pub provider: String,
    pub reasoning: bool,
    /// How many tokens a conversation may hold.
    pub context_limit: u64,
}

impl Clone for Model {
    fn clone(&self) -> (r: Model)
        ensures
            r == *self,
    {
        Model {
            id: self.id.clone(),
            name: self.name.clone(),
            provider: self.provider.clone(),
            reasoning: self.reasoning,
            context_limit: self.context_limit,
        }
    }
}

impl Model {
    /// A model of which only the identifier and the provider are known: it is named by its
    /// identifier.
    pub fn custom(id: &str, provider: &str, context_limit: u64) -> (r: Model)
        ensures
            r.is_custom(id@, provider@, context_limit),
    {
        Model {
            id: id.to_owned(),
            name: id.to_owned(),
            provider: provider.to_owned(),
            reasoning: false,
            context_limit,
        }
    }

    pub open spec fn is_custom(
        &self,
        id: Seq<char>,
        provider: Seq<char>,
        context_limit: u64,
    ) -> bool {
        &&& self.id@ == id
        &&& self.name@ == id
        &&& self.provider@ == provider
        &&& !self.reasoning
        &&& self.context_limit == context_limit
    }
}

} // verus!
