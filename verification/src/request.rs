//! What a pipeline is asked to do.

use vstd::prelude::*;
use crate::response::Response;

verus! {

/// One turn of a conversation.
#[derive(Debug)]
pub struct ChatTurn {
    pub role: String,
    pub content: String,
}

impl Clone for ChatTurn {
    fn clone(&self) -> (copy: Self)
        ensures
            copy == *self,
    {
        ChatTurn { role: self.role.clone(), content: self.content.clone() }
    }
}

/// The text that a request works on.
#[derive(Debug)]
pub enum RequestMessage {
    Chat(Vec<ChatTurn>),
    Completion { text: String, echo_prompt: bool, best_of: Option<usize> },
}

pub enum RequestMessageView {
    Chat(Seq<ChatTurn>),
    Completion { text: Seq<char>, echo_prompt: bool, best_of: Option<usize> },
}

impl View for RequestMessage {
    type V = RequestMessageView;

    open spec fn view(&self) -> RequestMessageView {
        match *self {
            RequestMessage::Chat(turns) => RequestMessageView::Chat(turns@),
            RequestMessage::Completion { text, echo_prompt, best_of } => RequestMessageView::Completion {
                text: text@,
                echo_prompt,
                best_of,
            },
        }
    }
}

impl RequestMessage {
    /// The message of a request that carries none: an empty completion prompt.
    pub open spec fn empty_completion() -> RequestMessageView {
        RequestMessageView::Completion { text: Seq::empty(), echo_prompt: false, best_of: None }
    }

    pub fn new_empty_completion() -> (message: Self)
        ensures
            message@ == Self::empty_completion(),
    {
        RequestMessage::Completion { text: String::new(), echo_prompt: false, best_of: None }
    }
}

impl Clone for RequestMessage {
    fn clone(&self) -> (copy: Self)
        ensures
            copy@ == self@,
    {
        match self {
            RequestMessage::Chat(turns) => {
                let mut copied: Vec<ChatTurn> = Vec::new();
                let mut i: usize = 0;
                while i < turns.len()
                    invariant
                        i <= turns.len(),
                        copied@ == turns@.take(i as int),
                    decreases turns.len() - i,
                {
                    copied.push(turns[i].clone());
                    i = i + 1;
                }
                assert(copied@ =~= turns@);
                RequestMessage::Chat(copied)
            },
            RequestMessage::Completion { text, echo_prompt, best_of } => RequestMessage::Completion {
                text: text.clone(),
                echo_prompt: *echo_prompt,
                best_of: *best_of,
            },
        }
    }
}

/// How tokens are drawn. Only the settings that are whole numbers are held.
#[derive(Debug, Clone, Copy, PartialEq, Eq, Structural)]
pub struct SamplingParams {
    pub top_k: Option<usize>,
    pub top_n_logprobs: usize,
    pub max_len: Option<usize>,
    pub n_choices: usize,
}

impl SamplingParams {
    /// Greedy decoding of one choice, with no limit on its length.
    pub open spec fn deterministic() -> SamplingParams {
        SamplingParams { top_k: Some(1), top_n_logprobs: 0, max_len: None, n_choices: 1 }
    }
}

impl Default for SamplingParams {
    fn default() -> (params: Self)
        ensures
            params == SamplingParams::deterministic(),
    {
        SamplingParams { top_k: Some(1), top_n_logprobs: 0, max_len: None, n_choices: 1 }
    }
}

/// A grammar that the generated text must follow.
#[derive(Debug)]
pub enum Constraint {
    Regex(String),
    Lark(String),
    JsonSchema(String),
    /// Any text is accepted.
    Unconstrained,
}

impl Clone for Constraint {
    fn clone(&self) -> (copy: Self)
        ensures
            copy == *self,
    {
        match self {
            Constraint::Regex(text) => Constraint::Regex(text.clone()),
            Constraint::Lark(text) => Constraint::Lark(text.clone()),
            Constraint::JsonSchema(text) => Constraint::JsonSchema(text.clone()),
            Constraint::Unconstrained => Constraint::Unconstrained,
        }
    }
}

/// A function that the model may call.
#[derive(Debug)]
pub struct Tool {
    pub name: String,
    pub description: Option<String>,
}

impl Clone for Tool {
    fn clone(&self) -> (copy: Self)
        ensures
            copy == *self,
    {
        let description = match &self.description {
            Some(text) => Some(text.clone()),
            None => None,
        };
        Tool { name: self.name.clone(), description }
    }
}

/// Which tool the model is to call, if any.
#[derive(Debug)]
pub enum ToolChoice {
    /// The model may call no tool.
    Disabled,
    Auto,
    Tool(Tool),
}

impl Clone for ToolChoice {
    fn clone(&self) -> (copy: Self)
        ensures
            copy == *self,
    {
        match self {
            ToolChoice::Disabled => ToolChoice::Disabled,
            ToolChoice::Auto => ToolChoice::Auto,
            ToolChoice::Tool(tool) => ToolChoice::Tool(tool.clone()),
        }
    }
}

/// The tools of a request as a sequence.
pub open spec fn tools_view(tools: Option<Vec<Tool>>) -> Option<Seq<Tool>> {
    match tools {
        Some(list) => Some(list@),
        None => None,
    }
}

pub fn clone_tools(tools: &Option<Vec<Tool>>) -> (copy: Option<Vec<Tool>>)
    ensures
        tools_view(copy) == tools_view(*tools),
{
    match tools {
        Some(list) => {
            let mut copied: Vec<Tool> = Vec::new();
            let mut i: usize = 0;
            while i < list.len()
                invariant
                    i <= list.len(),
                    copied@ == list@.take(i as int),
                decreases list.len() - i,
            {
                copied.push(list[i].clone());
                i = i + 1;
            }
            assert(copied@ =~= list@);
            Some(copied)
        },
        None => None,
    }
}

pub fn clone_tool_choice(choice: &Option<ToolChoice>) -> (copy: Option<ToolChoice>)
    ensures
        copy == *choice,
{
    match choice {
        Some(choice) => Some(choice.clone()),
        None => None,
    }
}

/// A request for one generation.
#[derive(Debug)]
pub struct NormalRequest {
    pub id: usize,
    pub messages: RequestMessage,
    pub sampling_params: SamplingParams,
    /// Where the pipeline sends the events of this request.
    pub response: tokio::sync::mpsc::Sender<Response>,
    pub return_logprobs: bool,
    pub is_streaming: bool,
    pub constraint: Constraint,
    pub suffix: Option<String>,
    pub tools: Option<Vec<Tool>>,
    pub tool_choice: Option<ToolChoice>,
    pub return_raw_logits: bool,
    pub truncate_sequence: bool,
    pub model_id: Option<String>,
}

pub struct NormalRequestView {
    pub id: usize,
    pub messages: RequestMessageView,
    pub sampling_params: SamplingParams,
    pub response: tokio::sync::mpsc::Sender<Response>,
    pub return_logprobs: bool,
    pub is_streaming: bool,
    pub constraint: Constraint,
    pub suffix: Option<String>,
    pub tools: Option<Seq<Tool>>,
    pub tool_choice: Option<ToolChoice>,
    pub return_raw_logits: bool,
    pub truncate_sequence: bool,
    pub model_id: Option<String>,
}

impl View for NormalRequest {
    type V = NormalRequestView;

    open spec fn view(&self) -> NormalRequestView {
        NormalRequestView {
            id: self.id,
            messages: self.messages@,
            sampling_params: self.sampling_params,
            response: self.response,
            return_logprobs: self.return_logprobs,
            is_streaming: self.is_streaming,
            constraint: self.constraint,
            suffix: self.suffix,
            tools: tools_view(self.tools),
            tool_choice: self.tool_choice,
            return_raw_logits: self.return_raw_logits,
            truncate_sequence: self.truncate_sequence,
            model_id: self.model_id,
        }
    }
}

/// What a pipeline can be asked.
#[derive(Debug)]
pub enum Request {
    Normal(Box<NormalRequest>),
    /// Stop working.
    Terminate,
}

} // verus!
