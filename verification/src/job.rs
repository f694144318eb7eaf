//! A job as the scheduler carries it, and what comes back from running it.

use vstd::prelude::*;
use crate::channel::TokenItem;
use crate::request::{
    clone_tool_choice, clone_tools, tools_view, Constraint, NormalRequest, NormalRequestView,
    Request, RequestMessage, RequestMessageView, SamplingParams, Tool, ToolChoice,
};
use crate::response::{ChatCompletionResponse, CompletionResponse, Response};
use crate::text::{decimal, decimal_string, truth_str, truth_text};
use vstd::string::StringExecFns;

verus! {

/// All that is needed to run one inference request.
///
/// The message, the sampling parameters, the constraint and the tools exist in
/// this process only: a job that has crossed a persistence boundary comes back
/// without them.
#[derive(Debug)]
pub struct InferenceJob {
    pub request_id: usize,
    pub is_streaming: bool,
    pub messages: Option<RequestMessage>,
    pub sampling_params: Option<SamplingParams>,
    pub constraint: Option<Constraint>,
    pub return_logprobs: bool,
    pub truncate_sequence: bool,
    pub tools: Option<Vec<Tool>>,
    pub tool_choice: Option<ToolChoice>,
}

pub struct InferenceJobView {
    pub request_id: usize,
    pub is_streaming: bool,
    pub messages: Option<RequestMessageView>,
    pub sampling_params: Option<SamplingParams>,
    pub constraint: Option<Constraint>,
    pub return_logprobs: bool,
    pub truncate_sequence: bool,
    pub tools: Option<Seq<Tool>>,
    pub tool_choice: Option<ToolChoice>,
}

impl View for InferenceJob {
    type V = InferenceJobView;

    open spec fn view(&self) -> InferenceJobView {
        InferenceJobView {
            request_id: self.request_id,
            is_streaming: self.is_streaming,
            messages: match self.messages {
                Some(message) => Some(message@),
                None => None,
            },
            sampling_params: self.sampling_params,
            constraint: self.constraint,
            return_logprobs: self.return_logprobs,
            truncate_sequence: self.truncate_sequence,
            tools: tools_view(self.tools),
            tool_choice: self.tool_choice,
        }
    }
}

impl Clone for InferenceJob {
    fn clone(&self) -> (copy: Self)
        ensures
            copy@ == self@,
    {
        InferenceJob {
            request_id: self.request_id,
            is_streaming: self.is_streaming,
            messages: match &self.messages {
                Some(message) => Some(message.clone()),
                None => None,
            },
            sampling_params: self.sampling_params,
            constraint: match &self.constraint {
                Some(constraint) => Some(constraint.clone()),
                None => None,
            },
            return_logprobs: self.return_logprobs,
            truncate_sequence: self.truncate_sequence,
            tools: clone_tools(&self.tools),
            tool_choice: clone_tool_choice(&self.tool_choice),
        }
    }
}

impl InferenceJob {
    /// The job that stands for `request`.
    pub open spec fn of_request(request: NormalRequestView) -> InferenceJobView {
        InferenceJobView {
            request_id: request.id,
            is_streaming: request.is_streaming,
            messages: Some(request.messages),
            sampling_params: Some(request.sampling_params),
            constraint: Some(request.constraint),
            return_logprobs: request.return_logprobs,
            truncate_sequence: request.truncate_sequence,
            tools: request.tools,
            tool_choice: request.tool_choice,
        }
    }

    /// The request that this job stands for. What the job has lost is filled
    /// in: an empty completion prompt, default sampling, no constraint.
    pub open spec fn request_for(
        job: InferenceJobView,
        response_sender: tokio::sync::mpsc::Sender<Response>,
    ) -> NormalRequestView {
        NormalRequestView {
            id: job.request_id,
            messages: match job.messages {
                Some(message) => message,
                None => RequestMessage::empty_completion(),
            },
            sampling_params: match job.sampling_params {
                Some(params) => params,
                None => SamplingParams::deterministic(),
            },
            response: response_sender,
            return_logprobs: job.return_logprobs,
            is_streaming: job.is_streaming,
            constraint: match job.constraint {
                Some(constraint) => constraint,
                None => Constraint::Unconstrained,
            },
            suffix: None,
            tools: job.tools,
            tool_choice: job.tool_choice,
            return_raw_logits: false,
            truncate_sequence: job.truncate_sequence,
            model_id: None,
        }
    }

    /// What is left of `job` once it has crossed a persistence boundary.
    pub open spec fn at_rest(job: InferenceJobView) -> InferenceJobView {
        InferenceJobView {
            messages: None,
            sampling_params: None,
            constraint: None,
            tools: None,
            tool_choice: None,
            ..job
        }
    }

    /// The job in one line for a log: its name and the four fields that are
    /// kept of it at rest. What lives in the process only is not shown.
    pub open spec fn debug_view(job: InferenceJobView) -> Seq<char> {
        "InferenceJob { request_id: "@ + decimal(job.request_id as nat) + ", is_streaming: "@
            + truth_text(job.is_streaming) + ", return_logprobs: "@ + truth_text(
            job.return_logprobs,
        ) + ", truncate_sequence: "@ + truth_text(job.truncate_sequence) + " }"@
    }

    /// The job in one line for a log.
    pub fn debug_text(&self) -> (text: String)
        ensures
            text@ == Self::debug_view(self@),
    {
        let mut text = "InferenceJob { request_id: ".to_owned();
        text.append(decimal_string(self.request_id).as_str());
        text.append(", is_streaming: ");
        text.append(truth_str(self.is_streaming));
        text.append(", return_logprobs: ");
        text.append(truth_str(self.return_logprobs));
        text.append(", truncate_sequence: ");
        text.append(truth_str(self.truncate_sequence));
        text.append(" }");
        text
    }

    /// A job built from what is kept of it at rest. It has no message, no
    /// sampling parameters, no constraint and no tools.
    pub fn restored(
        request_id: usize,
        is_streaming: bool,
        return_logprobs: bool,
        truncate_sequence: bool,
    ) -> (job: Self)
        ensures
            job@ == (InferenceJobView {
                request_id,
                is_streaming,
                messages: None,
                sampling_params: None,
                constraint: None,
                return_logprobs,
                truncate_sequence,
                tools: None,
                tool_choice: None,
            }),
    {
        InferenceJob {
            request_id,
            is_streaming,
            messages: None,
            sampling_params: None,
            constraint: None,
            return_logprobs,
            truncate_sequence,
            tools: None,
            tool_choice: None,
        }
    }

    /// The job as it comes back from storage: without its message, sampling
    /// parameters, constraint and tools.
    pub fn persisted(&self) -> (job: Self)
        ensures
            job@ == Self::at_rest(self@),
    {
        Self::restored(
            self.request_id,
            self.is_streaming,
            self.return_logprobs,
            self.truncate_sequence,
        )
    }

    pub fn from_normal_request(request: &NormalRequest) -> (job: Self)
        ensures
            job@ == Self::of_request(request@),
    {
        InferenceJob {
            request_id: request.id,
            is_streaming: request.is_streaming,
            messages: Some(request.messages.clone()),
            sampling_params: Some(request.sampling_params),
            constraint: Some(request.constraint.clone()),
            return_logprobs: request.return_logprobs,
            truncate_sequence: request.truncate_sequence,
            tools: clone_tools(&request.tools),
            tool_choice: clone_tool_choice(&request.tool_choice),
        }
    }

    /// The request to hand to the pipeline, which will send its events to
    /// `response_sender`.
    pub fn to_request(&self, response_sender: tokio::sync::mpsc::Sender<Response>) -> (request:
        Request)
        ensures
            request matches Request::Normal(inner) && (*inner)@ == Self::request_for(
                self@,
                response_sender,
            ),
    {
        let messages = match &self.messages {
            Some(message) => message.clone(),
            None => RequestMessage::new_empty_completion(),
        };
        let sampling_params = match self.sampling_params {
            Some(params) => params,
            None => SamplingParams::default(),
        };
        let constraint = match &self.constraint {
            Some(constraint) => constraint.clone(),
            None => Constraint::Unconstrained,
        };
        Request::Normal(
            Box::new(
                NormalRequest {
                    id: self.request_id,
                    messages,
                    sampling_params,
                    response: response_sender,
                    return_logprobs: self.return_logprobs,
                    is_streaming: self.is_streaming,
                    constraint,
                    suffix: None,
                    tools: clone_tools(&self.tools),
                    tool_choice: clone_tool_choice(&self.tool_choice),
                    return_raw_logits: false,
                    truncate_sequence: self.truncate_sequence,
                    model_id: None,
                },
            ),
        )
    }
}

/// One decoded increment of a streamed response.
#[derive(Debug, Clone)]
pub struct StreamingTokenResult {
    pub text: String,
    pub token_id: Option<u32>,
    /// Set on the last token of a choice.
    pub is_finished: bool,
    pub finish_reason: Option<String>,
    pub model: String,
    /// The id of the response that the token belongs to.
    pub id: String,
    pub created: u64,
    /// The choice that the token belongs to.
    pub index: usize,
}

pub struct TokenView {
    pub text: Seq<char>,
    pub token_id: Option<u32>,
    pub is_finished: bool,
    pub finish_reason: Option<Seq<char>>,
    pub model: Seq<char>,
    pub id: Seq<char>,
    pub created: u64,
    pub index: usize,
}

impl View for StreamingTokenResult {
    type V = TokenView;

    open spec fn view(&self) -> TokenView {
        TokenView {
            text: self.text@,
            token_id: self.token_id,
            is_finished: self.is_finished,
            finish_reason: match self.finish_reason {
                Some(reason) => Some(reason@),
                None => None,
            },
            model: self.model@,
            id: self.id@,
            created: self.created,
            index: self.index,
        }
    }
}

/// What travels on a token channel, as plain values.
pub open spec fn item_view(item: TokenItem) -> Result<TokenView, Seq<char>> {
    match item {
        Ok(token) => Ok(token@),
        Err(message) => Err(message@),
    }
}

/// What running a job gave.
#[derive(Debug)]
pub enum InferenceResult {
    ChatCompletion(ChatCompletionResponse),
    Completion(CompletionResponse),
    /// The stream has been set up; its tokens arrive on `chunk_rx`.
    Streaming { request_id: String, chunk_rx: flume::Receiver<TokenItem> },
    Error { message: String },
}

pub enum InferenceResultView {
    ChatCompletion(ChatCompletionResponse),
    Completion(CompletionResponse),
    Streaming { request_id: Seq<char>, chunk_rx: flume::Receiver<TokenItem> },
    Error { message: Seq<char> },
}

impl View for InferenceResult {
    type V = InferenceResultView;

    open spec fn view(&self) -> InferenceResultView {
        match *self {
            InferenceResult::ChatCompletion(response) => InferenceResultView::ChatCompletion(
                response,
            ),
            InferenceResult::Completion(response) => InferenceResultView::Completion(response),
            InferenceResult::Streaming { request_id, chunk_rx } => InferenceResultView::Streaming {
                request_id: request_id@,
                chunk_rx,
            },
            InferenceResult::Error { message } => InferenceResultView::Error { message: message@ },
        }
    }
}

impl InferenceResult {
    pub fn chat_completion(response: ChatCompletionResponse) -> (result: Self)
        ensures
            result == InferenceResult::ChatCompletion(response),
    {
        InferenceResult::ChatCompletion(response)
    }

    pub fn completion(response: CompletionResponse) -> (result: Self)
        ensures
            result == InferenceResult::Completion(response),
    {
        InferenceResult::Completion(response)
    }

    pub fn streaming(request_id: String, chunk_rx: flume::Receiver<TokenItem>) -> (result: Self)
        ensures
            result == (InferenceResult::Streaming { request_id, chunk_rx }),
    {
        InferenceResult::Streaming { request_id, chunk_rx }
    }

    pub fn error(message: &str) -> (result: Self)
        ensures
            result@ == (InferenceResultView::Error { message: message@ }),
    {
        InferenceResult::Error { message: message.to_owned() }
    }

    /// The message of a failed job.
    pub open spec fn failure(&self) -> Option<Seq<char>> {
        match *self {
            InferenceResult::Error { message } => Some(message@),
            _ => None,
        }
    }

    pub fn is_error(&self) -> (failed: bool)
        ensures
            failed == (self is Error),
    {
        match self {
            InferenceResult::Error { .. } => true,
            _ => false,
        }
    }

    pub fn error_message(&self) -> (message: Option<&str>)
        ensures
            match message {
                Some(text) => self.failure() == Some(text@),
                None => self.failure() is None,
            },
    {
        match self {
            InferenceResult::Error { message } => Some(message.as_str()),
            _ => None,
        }
    }
}

/// A result at rest. Where `InferenceResult` holds the receiving end of a
/// live stream, this holds the key under which a registry keeps that end.
#[derive(Debug, Clone)]
pub enum SerializableInferenceResult {
    ChatCompletion(ChatCompletionResponse),
    Completion(CompletionResponse),
    StreamingChannel { request_id: String, channel_key: String },
    Error { message: String },
}

impl SerializableInferenceResult {
    pub fn streaming_channel(request_id: String, channel_key: String) -> (result: Self)
        ensures
            result == (SerializableInferenceResult::StreamingChannel { request_id, channel_key }),
    {
        SerializableInferenceResult::StreamingChannel { request_id, channel_key }
    }

    pub fn error(message: &str) -> (result: Self)
        ensures
            result matches SerializableInferenceResult::Error { message: text } && text@
                == message@,
    {
        SerializableInferenceResult::Error { message: message.to_owned() }
    }

    /// The message of a failed job.
    pub open spec fn failure(&self) -> Option<Seq<char>> {
        match *self {
            SerializableInferenceResult::Error { message } => Some(message@),
            _ => None,
        }
    }

    pub fn is_error(&self) -> (failed: bool)
        ensures
            failed == (self is Error),
    {
        match self {
            SerializableInferenceResult::Error { .. } => true,
            _ => false,
        }
    }

    pub fn error_message(&self) -> (message: Option<&str>)
        ensures
            match message {
                Some(text) => self.failure() == Some(text@),
                None => self.failure() is None,
            },
    {
        match self {
            SerializableInferenceResult::Error { message } => Some(message.as_str()),
            _ => None,
        }
    }
}

} // verus!
