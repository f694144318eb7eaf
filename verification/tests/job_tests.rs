use inference_pool::job::{InferenceJob, InferenceResult, SerializableInferenceResult};
use inference_pool::request::{
    ChatTurn, Constraint, NormalRequest, Request, RequestMessage, SamplingParams, Tool, ToolChoice,
};
use inference_pool::response::{ChatCompletionResponse, Response};
use inference_pool::text::decimal_string;

fn sender() -> tokio::sync::mpsc::Sender<Response> {
    tokio::sync::mpsc::channel(100).0
}

fn full_request() -> NormalRequest {
    NormalRequest {
        id: 77,
        messages: RequestMessage::Chat(vec![
            ChatTurn { role: "system".to_string(), content: "be brief".to_string() },
            ChatTurn { role: "user".to_string(), content: "hi".to_string() },
        ]),
        sampling_params: SamplingParams { top_k: Some(40), top_n_logprobs: 2, max_len: Some(256), n_choices: 3 },
        response: sender(),
        return_logprobs: true,
        is_streaming: true,
        constraint: Constraint::Regex("[a-z]+".to_string()),
        suffix: Some("ignored".to_string()),
        tools: Some(vec![Tool { name: "search".to_string(), description: Some("look up".to_string()) }]),
        tool_choice: Some(ToolChoice::Auto),
        return_raw_logits: true,
        truncate_sequence: true,
        model_id: Some("m".to_string()),
    }
}

#[test]
fn a_job_takes_over_what_the_request_holds() {
    let job = InferenceJob::from_normal_request(&full_request());
    assert_eq!(job.request_id, 77);
    assert!(job.is_streaming);
    assert!(job.return_logprobs);
    assert!(job.truncate_sequence);
    match job.messages {
        Some(RequestMessage::Chat(turns)) => {
            assert_eq!(turns.len(), 2);
            assert_eq!(turns[0].role, "system");
            assert_eq!(turns[1].content, "hi");
        }
        other => panic!("unexpected message: {:?}", other),
    }
    assert_eq!(
        job.sampling_params,
        Some(SamplingParams { top_k: Some(40), top_n_logprobs: 2, max_len: Some(256), n_choices: 3 })
    );
    match job.constraint {
        Some(Constraint::Regex(pattern)) => assert_eq!(pattern, "[a-z]+"),
        other => panic!("unexpected constraint: {:?}", other),
    }
    let tools = job.tools.unwrap();
    assert_eq!(tools.len(), 1);
    assert_eq!(tools[0].name, "search");
    assert_eq!(tools[0].description, Some("look up".to_string()));
    assert!(matches!(job.tool_choice, Some(ToolChoice::Auto)));
}

#[test]
fn a_job_gives_back_the_request_it_stands_for() {
    let job = InferenceJob::from_normal_request(&full_request());
    let request = match job.to_request(sender()) {
        Request::Normal(inner) => inner,
        Request::Terminate => panic!("unexpected request"),
    };
    assert_eq!(request.id, 77);
    assert!(request.is_streaming);
    assert!(request.return_logprobs);
    assert!(request.truncate_sequence);
    assert!(matches!(&request.messages, RequestMessage::Chat(turns) if turns.len() == 2));
    assert_eq!(request.sampling_params.top_k, Some(40));
    assert!(matches!(&request.constraint, Constraint::Regex(pattern) if pattern == "[a-z]+"));
    assert_eq!(request.tools.as_ref().unwrap()[0].name, "search");
    assert!(matches!(request.tool_choice, Some(ToolChoice::Auto)));
    // What a job does not carry is reset.
    assert_eq!(request.suffix, None);
    assert!(!request.return_raw_logits);
    assert_eq!(request.model_id, None);
}

#[test]
fn a_job_that_lost_its_message_asks_for_an_empty_completion() {
    let job = InferenceJob {
        request_id: 456,
        is_streaming: false,
        messages: None,
        sampling_params: None,
        constraint: None,
        return_logprobs: false,
        truncate_sequence: false,
        tools: None,
        tool_choice: None,
    };
    let request = match job.to_request(sender()) {
        Request::Normal(inner) => inner,
        Request::Terminate => panic!("unexpected request"),
    };
    assert_eq!(request.id, 456);
    match &request.messages {
        RequestMessage::Completion { text, echo_prompt, best_of } => {
            assert_eq!(text, "");
            assert!(!echo_prompt);
            assert_eq!(*best_of, None);
        }
        other => panic!("unexpected message: {:?}", other),
    }
    assert_eq!(request.sampling_params, SamplingParams::default());
    assert_eq!(
        request.sampling_params,
        SamplingParams { top_k: Some(1), top_n_logprobs: 0, max_len: None, n_choices: 1 }
    );
    assert!(matches!(request.constraint, Constraint::Unconstrained));
    assert!(request.tools.is_none());
    assert!(request.tool_choice.is_none());
}

#[test]
fn a_job_at_rest_has_lost_what_lives_in_the_process_only() {
    let job = InferenceJob::from_normal_request(&full_request()).persisted();
    assert_eq!(job.request_id, 77);
    assert!(job.is_streaming);
    assert!(job.return_logprobs);
    assert!(job.truncate_sequence);
    assert!(job.messages.is_none());
    assert!(job.sampling_params.is_none());
    assert!(job.constraint.is_none());
    assert!(job.tools.is_none());
    assert!(job.tool_choice.is_none());
    let request = match job.to_request(sender()) {
        Request::Normal(inner) => inner,
        Request::Terminate => panic!("unexpected request"),
    };
    assert!(matches!(&request.messages, RequestMessage::Completion { text, .. } if text.is_empty()));
    assert_eq!(request.sampling_params, SamplingParams::default());
}

#[test]
fn a_job_is_shown_by_the_four_fields_that_are_kept() {
    let job = InferenceJob::from_normal_request(&full_request());
    assert_eq!(
        job.debug_text(),
        "InferenceJob { request_id: 77, is_streaming: true, return_logprobs: true, truncate_sequence: true }"
    );
    assert_eq!(
        InferenceJob::restored(456, false, false, false).debug_text(),
        "InferenceJob { request_id: 456, is_streaming: false, return_logprobs: false, truncate_sequence: false }"
    );
    assert!(InferenceJob::restored(456, false, true, false).debug_text().contains("456"));
}

#[test]
fn a_job_is_restored_from_what_is_kept_of_it() {
    let job = InferenceJob::restored(456, true, false, true);
    assert_eq!(job.request_id, 456);
    assert!(job.is_streaming);
    assert!(!job.return_logprobs);
    assert!(job.truncate_sequence);
    assert!(job.messages.is_none());
    assert!(job.sampling_params.is_none());
    assert!(job.constraint.is_none());
    assert!(job.tools.is_none());
    assert!(job.tool_choice.is_none());
}

#[test]
fn the_request_keeps_the_sender_it_was_given() {
    let (tx, mut rx) = tokio::sync::mpsc::channel::<Response>(4);
    let job = InferenceJob::from_normal_request(&full_request());
    let request = match job.to_request(tx) {
        Request::Normal(inner) => inner,
        Request::Terminate => panic!("unexpected request"),
    };
    request.response.try_send(Response::InternalError("ping".to_string())).unwrap();
    match rx.try_recv().unwrap() {
        Response::InternalError(text) => assert_eq!(text, "ping"),
        other => panic!("unexpected event: {:?}", other),
    }
}

#[test]
fn a_cloned_job_holds_the_same() {
    let job = InferenceJob::from_normal_request(&full_request());
    let copy = job.clone();
    assert_eq!(copy.request_id, job.request_id);
    assert_eq!(copy.tools.as_ref().unwrap()[0].name, "search");
    assert!(matches!(copy.messages, Some(RequestMessage::Chat(ref turns)) if turns[1].content == "hi"));
}

#[test]
fn results_say_whether_they_failed() {
    let failed = InferenceResult::error("test error");
    assert!(failed.is_error());
    assert_eq!(failed.error_message(), Some("test error"));
    let done = InferenceResult::chat_completion(ChatCompletionResponse {
        id: "r".to_string(),
        choices: vec![],
        created: 1,
        model: "m".to_string(),
    });
    assert!(!done.is_error());
    assert_eq!(done.error_message(), None);

    let failed = SerializableInferenceResult::error("stored error");
    assert!(failed.is_error());
    assert_eq!(failed.error_message(), Some("stored error"));
    let parked = SerializableInferenceResult::streaming_channel("req-1".to_string(), "key-1".to_string());
    assert!(!parked.is_error());
    assert_eq!(parked.error_message(), None);
    match parked {
        SerializableInferenceResult::StreamingChannel { request_id, channel_key } => {
            assert_eq!(request_id, "req-1");
            assert_eq!(channel_key, "key-1");
        }
        other => panic!("unexpected result: {:?}", other),
    }
}

#[test]
fn numbers_are_written_in_decimal() {
    assert_eq!(decimal_string(0), "0");
    assert_eq!(decimal_string(7), "7");
    assert_eq!(decimal_string(10), "10");
    assert_eq!(decimal_string(456), "456");
    assert_eq!(decimal_string(1234567890), "1234567890");
    assert_eq!(decimal_string(usize::MAX), usize::MAX.to_string());
}
