//! How one job becomes one result: which events of the pipeline end a job,
//! what they make of it, and what a stream of them puts on a token channel.
//!
//! Waiting for an event is left to the caller. It hands each event to the
//! functions here, which decide what the event means.
//!
//! On a token channel every choice has one terminal entry at most. The
//! forwarder keeps the choices that it has finished: a finished token closes
//! its choice, and what later chunks hold for a closed choice is dropped. A
//! finished token also ends the tokens of its chunk. Forwarding itself goes
//! on until a terminal event, a refused send or the end of the events.

use vstd::prelude::*;
use crate::channel::{open_response_channel, open_token_channel, send_token, TokenItem};
use crate::job::{
    item_view, InferenceJob, InferenceResult, InferenceResultView, StreamingTokenResult, TokenView,
};
use crate::request::Request;
use crate::response::{ChatCompletionChunkResponse, ChunkChoice, Response};
use crate::text::{decimal, decimal_string};

verus! {

/// A token or a failure message, as plain values.
pub type ItemView = Result<TokenView, Seq<char>>;

/// The message of a job whose pipeline fell silent before it ended the job.
pub open spec fn no_response_message() -> Seq<char> {
    "No response received from pipeline"@
}

/// What `event` makes of a job that waits for its whole result: nothing if the
/// event is partial, else the job's result.
pub open spec fn completion_of(event: Response) -> Option<InferenceResultView> {
    match event {
        Response::Done(response) => Some(InferenceResultView::ChatCompletion(response)),
        Response::CompletionDone(response) => Some(InferenceResultView::Completion(response)),
        Response::ModelError(message, _) => Some(InferenceResultView::Error { message: message@ }),
        Response::ValidationError(message) => Some(
            InferenceResultView::Error { message: message@ },
        ),
        Response::InternalError(message) => Some(InferenceResultView::Error { message: message@ }),
        Response::Chunk(_) => None,
    }
}

/// The place of the first terminal event at or after `from`, or the length of
/// `events` if there is none.
pub open spec fn first_terminal_from(events: Seq<Response>, from: int) -> int
    decreases events.len() - from,
{
    if from < 0 || from >= events.len() {
        events.len() as int
    } else if events[from].is_terminal() {
        from
    } else {
        first_terminal_from(events, from + 1)
    }
}

/// The place of the first terminal event, or the length of `events`.
pub open spec fn first_terminal(events: Seq<Response>) -> int {
    first_terminal_from(events, 0)
}

/// The result of a job that waits for its whole result and sees `events`:
/// what the first terminal event makes of it, whatever comes before or after.
pub open spec fn completion_outcome(events: Seq<Response>) -> InferenceResultView {
    let at = first_terminal(events);
    if at < events.len() {
        completion_of(events[at]).unwrap()
    } else {
        InferenceResultView::Error { message: no_response_message() }
    }
}

/// The token that stands for choice `index` of `chunk`.
pub open spec fn token_view(chunk: ChatCompletionChunkResponse, index: int) -> TokenView {
    let choice = chunk.choices@[index];
    TokenView {
        text: match choice.delta.content {
            Some(text) => text@,
            None => Seq::empty(),
        },
        token_id: None,
        is_finished: choice.finish_reason is Some,
        finish_reason: match choice.finish_reason {
            Some(reason) => Some(reason@),
            None => None,
        },
        model: chunk.model@,
        id: chunk.id@,
        created: chunk.created,
        index: index as usize,
    }
}

/// Whether the choice at `at` is open and finished by this chunk: no earlier
/// chunk has closed it, and it carries a finish reason.
pub open spec fn closes(choices: Seq<ChunkChoice>, closed: Set<usize>, at: int) -> bool {
    !closed.contains(at as usize) && choices[at].finish_reason is Some
}

/// How many choices of a chunk are looked at when the scan stands at `from`:
/// those up to and with the first one at or after `from` that the chunk
/// closes, or all.
pub open spec fn stop_from(choices: Seq<ChunkChoice>, closed: Set<usize>, from: int) -> int
    decreases choices.len() - from,
{
    if from < 0 || from >= choices.len() {
        choices.len() as int
    } else if closes(choices, closed, from) {
        from + 1
    } else {
        stop_from(choices, closed, from + 1)
    }
}

/// How many choices of a chunk are looked at.
pub open spec fn emitted_len(choices: Seq<ChunkChoice>, closed: Set<usize>) -> int {
    stop_from(choices, closed, 0)
}

/// The tokens of the open choices among the first `n` of a chunk, in order.
pub open spec fn open_items(chunk: ChatCompletionChunkResponse, closed: Set<usize>, n: int) -> Seq<
    ItemView,
>
    decreases n,
{
    if n <= 0 {
        Seq::empty()
    } else if closed.contains((n - 1) as usize) {
        open_items(chunk, closed, n - 1)
    } else {
        open_items(chunk, closed, n - 1).push(Ok(token_view(chunk, n - 1)))
    }
}

/// What a chunk puts on the token channel when the choices in `closed` have
/// had their terminal entry: one token for each of its open choices in turn,
/// ending with the first that is finished.
pub open spec fn chunk_items(chunk: ChatCompletionChunkResponse, closed: Set<usize>) -> Seq<
    ItemView,
> {
    open_items(chunk, closed, emitted_len(chunk.choices@, closed))
}

/// The choice that a chunk closes, if it closes one: its first open choice
/// that is finished.
pub open spec fn closed_by(chunk: ChatCompletionChunkResponse, closed: Set<usize>) -> Option<
    usize,
> {
    let stop = emitted_len(chunk.choices@, closed);
    if 0 < stop <= chunk.choices@.len() && closes(chunk.choices@, closed, stop - 1) {
        Some((stop - 1) as usize)
    } else {
        None
    }
}

/// What one event puts on the token channel when the choices in `closed`
/// have had their terminal entry.
pub open spec fn event_items(event: Response, closed: Set<usize>) -> Seq<ItemView> {
    match event {
        Response::Chunk(chunk) => chunk_items(chunk, closed),
        Response::Done(_) => Seq::empty(),
        Response::CompletionDone(_) => Seq::empty(),
        Response::ModelError(message, _) => seq![Err(message@)],
        Response::ValidationError(message) => seq![Err(message@)],
        Response::InternalError(message) => seq![Err(message@)],
    }
}

/// The choices that are closed once `event` has been forwarded.
pub open spec fn closed_after(event: Response, closed: Set<usize>) -> Set<usize> {
    match event {
        Response::Chunk(chunk) => match closed_by(chunk, closed) {
            Some(index) => closed.insert(index),
            None => closed,
        },
        _ => closed,
    }
}

/// The choices that the first `n` events have closed.
pub open spec fn closed_upto(events: Seq<Response>, n: int) -> Set<usize>
    decreases n,
{
    if n <= 0 {
        Set::empty()
    } else {
        closed_after(events[n - 1], closed_upto(events, n - 1))
    }
}

/// What the first `n` events put on the token channel.
pub open spec fn forwarded_upto(events: Seq<Response>, n: int) -> Seq<ItemView>
    decreases n,
{
    if n <= 0 {
        Seq::empty()
    } else {
        forwarded_upto(events, n - 1) + event_items(events[n - 1], closed_upto(events, n - 1))
    }
}

/// How many of `events` are forwarded: those up to and with the first
/// terminal one.
pub open spec fn forwarded_events(events: Seq<Response>) -> int {
    let at = first_terminal(events);
    if at < events.len() {
        at + 1
    } else {
        at
    }
}

/// What `events` put on a token channel whose receiver stays: the items of
/// each event up to and with the first terminal one.
pub open spec fn forwarded(events: Seq<Response>) -> Seq<ItemView> {
    forwarded_upto(events, forwarded_events(events))
}

/// The choices listed in `indices`.
pub open spec fn index_set(indices: Seq<usize>) -> Set<usize> {
    Set::new(|index: usize| indices.contains(index))
}

/// The items of a sequence, as plain values.
pub open spec fn items_view(items: Seq<TokenItem>) -> Seq<ItemView> {
    Seq::new(items.len(), |i: int| item_view(items[i]))
}

/// The result of a job whose pipeline fell silent.
pub fn no_response_result() -> (result: InferenceResult)
    ensures
        result@ == (InferenceResultView::Error { message: no_response_message() }),
{
    InferenceResult::error("No response received from pipeline")
}

/// What `event` makes of a job that waits for its whole result.
pub fn completion_result(event: Response) -> (result: Option<InferenceResult>)
    ensures
        match result {
            Some(outcome) => completion_of(event) == Some(outcome@),
            None => completion_of(event) is None,
        },
{
    match event {
        Response::Done(response) => Some(InferenceResult::chat_completion(response)),
        Response::CompletionDone(response) => Some(InferenceResult::completion(response)),
        Response::ModelError(message, _) => Some(InferenceResult::Error { message }),
        Response::ValidationError(message) => Some(InferenceResult::Error { message }),
        Response::InternalError(message) => Some(InferenceResult::Error { message }),
        Response::Chunk(_) => None,
    }
}

/// The result of a job that waits for its whole result, given all that its
/// pipeline emitted before it closed the channel.
pub fn collect_completion(events: Vec<Response>) -> (result: InferenceResult)
    ensures
        result@ == completion_outcome(events@),
{
    for event in it: events
        invariant
            first_terminal_from(events@, 0) == first_terminal_from(events@, it.index() as int),
    {
        assert(event == events@[it.index() as int]);
        match completion_result(event) {
            Some(result) => {
                return result;
            },
            None => {},
        }
    }
    no_response_result()
}

/// The token that stands for choice `index` of `chunk`.
pub fn make_token(chunk: &ChatCompletionChunkResponse, index: usize) -> (token:
    StreamingTokenResult)
    requires
        index < chunk.choices@.len(),
    ensures
        token@ == token_view(*chunk, index as int),
{
    let choice = &chunk.choices[index];
    let text = match &choice.delta.content {
        Some(text) => text.clone(),
        None => String::new(),
    };
    let finish_reason = match &choice.finish_reason {
        Some(reason) => Some(reason.clone()),
        None => None,
    };
    StreamingTokenResult {
        text,
        token_id: None,
        is_finished: choice.finish_reason.is_some(),
        finish_reason,
        model: chunk.model.clone(),
        id: chunk.id.clone(),
        created: chunk.created,
        index,
    }
}

/// Whether `index` is among `closed`.
fn is_closed(closed: &Vec<usize>, index: usize) -> (found: bool)
    ensures
        found == index_set(closed@).contains(index),
{
    let mut i: usize = 0;
    while i < closed.len()
        invariant
            i <= closed@.len(),
            forall|j: int| 0 <= j < i ==> closed@[j] != index,
        decreases closed@.len() - i,
    {
        if closed[i] == index {
            assert(closed@[i as int] == index);
            return true;
        }
        i = i + 1;
    }
    false
}

/// Adds to `out` what `chunk` puts on the token channel when the choices in
/// `closed` have had their terminal entry, and adds to `closed` the choice
/// that the chunk closes.
pub fn push_chunk_items(
    out: &mut Vec<TokenItem>,
    closed: &mut Vec<usize>,
    chunk: &ChatCompletionChunkResponse,
)
    ensures
        items_view(final(out)@) == items_view(old(out)@) + chunk_items(
            *chunk,
            index_set(old(closed)@),
        ),
        index_set(final(closed)@) == closed_after(
            Response::Chunk(*chunk),
            index_set(old(closed)@),
        ),
{
    let ghost before = items_view(out@);
    let ghost was = index_set(closed@);
    let mut i: usize = 0;
    while i < chunk.choices.len()
        invariant
            i <= chunk.choices@.len(),
            before == items_view(old(out)@),
            was == index_set(old(closed)@),
            closed@ == old(closed)@,
            stop_from(chunk.choices@, was, 0) == stop_from(chunk.choices@, was, i as int),
            forall|j: int| 0 <= j < i ==> !closes(chunk.choices@, was, j),
            items_view(out@) == before + open_items(*chunk, was, i as int),
        decreases chunk.choices@.len() - i,
    {
        if is_closed(closed, i) {
            i = i + 1;
        } else {
            let token = make_token(chunk, i);
            let finished = token.is_finished;
            let ghost held = items_view(out@);
            out.push(Ok(token));
            i = i + 1;
            assert(items_view(out@) =~= held.push(Ok(token_view(*chunk, i - 1))));
            assert(items_view(out@) =~= before + open_items(*chunk, was, i as int));
            if finished {
                assert(stop_from(chunk.choices@, was, i - 1) == i);
                closed.push(i - 1);
                assert(index_set(closed@) =~= was.insert((i - 1) as usize)) by {
                    assert forall|index: usize|
                        index_set(closed@).contains(index) == was.insert(
                            (i - 1) as usize,
                        ).contains(index) by {
                        let longer = closed@;
                        let shorter = old(closed)@;
                        if shorter.contains(index) {
                            let at = choose|at: int| 0 <= at < shorter.len() && shorter[at] == index;
                            assert(longer[at] == index);
                        }
                        if index == (i - 1) as usize {
                            assert(longer[shorter.len() as int] == index);
                        }
                        if longer.contains(index) {
                            let at = choose|at: int| 0 <= at < longer.len() && longer[at] == index;
                            if at < shorter.len() {
                                assert(shorter[at] == index);
                            }
                        }
                    }
                }
                return ;
            }
        }
    }
    proof {
        let stop = emitted_len(chunk.choices@, was);
        assert(stop == chunk.choices@.len());
        if stop > 0 {
            assert(!closes(chunk.choices@, was, stop - 1));
        }
    }
}

/// What `chunk` puts on the token channel as the first chunk of a stream.
pub fn chunk_tokens(chunk: &ChatCompletionChunkResponse) -> (items: Vec<TokenItem>)
    ensures
        items_view(items@) == chunk_items(*chunk, Set::empty()),
{
    let mut items: Vec<TokenItem> = Vec::new();
    let mut closed: Vec<usize> = Vec::new();
    assert(index_set(closed@) =~= Set::<usize>::empty());
    push_chunk_items(&mut items, &mut closed, chunk);
    assert(items_view(items@) =~= chunk_items(*chunk, Set::empty()));
    items
}

/// Adds to `out` what `event` puts on the token channel when the choices in
/// `closed` have had their terminal entry, and adds to `closed` the choice
/// that the event closes.
pub fn push_event_items(out: &mut Vec<TokenItem>, closed: &mut Vec<usize>, event: &Response)
    ensures
        items_view(final(out)@) == items_view(old(out)@) + event_items(
            *event,
            index_set(old(closed)@),
        ),
        index_set(final(closed)@) == closed_after(*event, index_set(old(closed)@)),
{
    let ghost before = items_view(out@);
    match event {
        Response::Chunk(chunk) => {
            push_chunk_items(out, closed, chunk);
        },
        Response::Done(_) => {
            assert(before + Seq::<ItemView>::empty() =~= before);
        },
        Response::CompletionDone(_) => {
            assert(before + Seq::<ItemView>::empty() =~= before);
        },
        Response::ModelError(message, _) => {
            out.push(Err(message.clone()));
            assert(items_view(out@) =~= before + seq![Err(message@)]);
        },
        Response::ValidationError(message) => {
            out.push(Err(message.clone()));
            assert(items_view(out@) =~= before + seq![Err(message@)]);
        },
        Response::InternalError(message) => {
            out.push(Err(message.clone()));
            assert(items_view(out@) =~= before + seq![Err(message@)]);
        },
    }
}

/// All that `events` put on a token channel whose receiver stays.
pub fn forwarded_items(events: &Vec<Response>) -> (items: Vec<TokenItem>)
    ensures
        items_view(items@) == forwarded(events@),
{
    let mut items: Vec<TokenItem> = Vec::new();
    let mut closed: Vec<usize> = Vec::new();
    let mut i: usize = 0;
    assert(items_view(items@) =~= forwarded_upto(events@, 0));
    assert(index_set(closed@) =~= closed_upto(events@, 0));
    while i < events.len()
        invariant
            i <= events@.len(),
            first_terminal_from(events@, 0) == first_terminal_from(events@, i as int),
            items_view(items@) == forwarded_upto(events@, i as int),
            index_set(closed@) == closed_upto(events@, i as int),
        decreases events@.len() - i,
    {
        push_event_items(&mut items, &mut closed, &events[i]);
        let terminal = events[i].ends_request();
        i = i + 1;
        if terminal {
            return items;
        }
    }
    items
}

/// What became of one event that was forwarded to a token channel.
#[derive(Clone, Copy, Debug, PartialEq, Eq, Structural)]
pub struct ForwardStep {
    /// How many items the channel took.
    pub delivered: usize,
    /// Whether the next event is to be forwarded too.
    pub keep_going: bool,
}

/// What the answer of the channel to one item means for the forwarding. If
/// the channel took the item, one more item has been delivered and the next
/// is due. If it refused the item, its receiver is gone: nothing more is
/// handed to it, and the forwarding ends without more ado.
pub fn after_send(delivered: usize, taken: bool) -> (next: Option<usize>)
    requires
        delivered < usize::MAX,
    ensures
        next == if taken {
            Some((delivered + 1) as usize)
        } else {
            None
        },
{
    if taken {
        Some(delivered + 1)
    } else {
        None
    }
}

/// The sending end of a token channel, fed with the events of one request.
/// It keeps the choices that have had their terminal entry.
pub struct TokenForwarder {
    sender: flume::Sender<TokenItem>,
    closed: Vec<usize>,
}

impl TokenForwarder {
    /// The choices that have had their terminal entry.
    pub closed spec fn closed(&self) -> Set<usize> {
        index_set(self.closed@)
    }

    /// Hands `items` to the channel one after the other, up to the first that
    /// the channel refuses, and says how many it took.
    fn deliver(&self, items: Vec<TokenItem>) -> (delivered: usize)
        ensures
            delivered <= items@.len(),
    {
        let total: usize = items.len();
        let mut delivered: usize = 0;
        for item in it: items
            invariant
                total == items@.len(),
                delivered == it.index(),
                delivered <= total,
        {
            assert(it.index() < total);
            match after_send(delivered, send_token(&self.sender, item)) {
                Some(next) => {
                    delivered = next;
                },
                None => {
                    return delivered;
                },
            }
        }
        delivered
    }

    /// Puts on the token channel what `event` stands for, item by item, and
    /// stops at the first item that the channel refuses. A choice that the
    /// event finishes is closed from now on: later events put nothing on the
    /// channel for it.
    ///
    /// Forwarding goes on after this event only if the event is not terminal
    /// and the channel took every item: once the receiver is gone, or the
    /// request has ended, nothing more is forwarded.
    pub fn forward(&mut self, event: &Response) -> (step: ForwardStep)
        ensures
            step.delivered <= event_items(*event, old(self).closed()).len(),
            step.keep_going == (!event.is_terminal() && step.delivered == event_items(
                *event,
                old(self).closed(),
            ).len()),
            final(self).closed() == closed_after(*event, old(self).closed()),
    {
        let mut items: Vec<TokenItem> = Vec::new();
        push_event_items(&mut items, &mut self.closed, event);
        assert(items_view(items@) =~= event_items(*event, old(self).closed()));
        let planned = items.len();
        let delivered = self.deliver(items);
        ForwardStep { delivered, keep_going: !event.ends_request() && delivered == planned }
    }
}

/// How many events of one request may wait for whoever takes them.
pub const RESPONSE_BUFFER: usize = 100;

/// A job that waits for its whole result, started.
pub struct CompletionStart {
    /// What to hand to the pipeline.
    pub request: Request,
    /// Where the events of the pipeline arrive. They go to
    /// `completion_result`, until one of them gives the result; if the
    /// pipeline closes the channel before that, the result is
    /// `no_response_result`.
    pub events: tokio::sync::mpsc::Receiver<Response>,
}

/// A stream that has been set up.
pub struct StreamingStart {
    /// What to hand to the pipeline.
    pub request: Request,
    /// Where the events of the pipeline arrive.
    pub events: tokio::sync::mpsc::Receiver<Response>,
    /// The result of the job, to be returned at once: the receiving end of the
    /// token channel.
    pub result: InferenceResult,
    /// Where to hand the events of the pipeline, until it says to stop or the
    /// pipeline closes its channel.
    pub forwarder: TokenForwarder,
}

/// How a job that has been started is to be carried on.
pub enum Execution {
    Completion(CompletionStart),
    Streaming(StreamingStart),
}

impl Execution {
    /// What to hand to the pipeline.
    pub open spec fn request(&self) -> Request {
        match *self {
            Execution::Completion(start) => start.request,
            Execution::Streaming(start) => start.request,
        }
    }
}

/// Whether `request` is the request that `job` stands for, with some sender
/// for its events.
pub open spec fn asks_for(request: Request, job: InferenceJob) -> bool {
    request matches Request::Normal(inner) && (*inner)@ == InferenceJob::request_for(
        job@,
        inner.response,
    )
}

/// Runs inference jobs on a pipeline of type `P`.
pub struct LlmExecutor<P> {
    pipeline: P,
}

impl<P> LlmExecutor<P> {
    pub closed spec fn spec_pipeline(&self) -> P {
        self.pipeline
    }

    pub fn new(pipeline: P) -> (executor: Self)
        ensures
            executor.spec_pipeline() == pipeline,
    {
        LlmExecutor { pipeline }
    }

    pub fn pipeline(&self) -> (pipeline: &P)
        ensures
            *pipeline == self.spec_pipeline(),
    {
        &self.pipeline
    }

    /// Starts a job that waits for its whole result: opens the channel for
    /// the events of the pipeline and gives the request that carries its
    /// sending end.
    pub fn process_completion(&self, job: &InferenceJob) -> (start: CompletionStart)
        ensures
            asks_for(start.request, *job),
    {
        let (response_sender, events) = open_response_channel(RESPONSE_BUFFER);
        CompletionStart { request: job.to_request(response_sender), events }
    }

    /// Starts a job whose result is a stream: opens the channel for the events
    /// of the pipeline and the token channel, and gives the receiving end of
    /// the token channel out as the result, under the job's request id
    /// written in decimal. No choice is closed yet.
    pub fn process_streaming(&self, job: &InferenceJob) -> (start: StreamingStart)
        ensures
            asks_for(start.request, *job),
            start.result matches InferenceResult::Streaming { request_id, .. } && request_id@
                == decimal(job.request_id as nat),
            start.forwarder.closed() == Set::<usize>::empty(),
    {
        let (response_sender, events) = open_response_channel(RESPONSE_BUFFER);
        let request = job.to_request(response_sender);
        let (sender, receiver) = open_token_channel();
        let result = InferenceResult::streaming(decimal_string(job.request_id), receiver);
        let forwarder = TokenForwarder { sender, closed: Vec::new() };
        assert(forwarder.closed() =~= Set::<usize>::empty());
        StreamingStart { request, events, result, forwarder }
    }

    /// Starts `payload` in the way that it asks for.
    pub fn execute(&self, payload: &InferenceJob) -> (execution: Execution)
        ensures
            payload.is_streaming <==> execution is Streaming,
            asks_for(execution.request(), *payload),
            execution matches Execution::Streaming(start) ==> {
                &&& start.result matches InferenceResult::Streaming { request_id, .. }
                    && request_id@ == decimal(payload.request_id as nat)
                &&& start.forwarder.closed() == Set::<usize>::empty()
            },
    {
        if payload.is_streaming {
            Execution::Streaming(self.process_streaming(payload))
        } else {
            Execution::Completion(self.process_completion(payload))
        }
    }
}

/// Whether `item` is a token of the choice `index`.
pub open spec fn is_token_of(item: ItemView, index: usize) -> bool {
    item matches Ok(token) && token.index == index
}

/// Whether `item` is the finished token of the choice `index`.
pub open spec fn is_finished_token(item: ItemView, index: usize) -> bool {
    item matches Ok(token) && token.is_finished && token.index == index
}

/// How many of `items` are finished tokens of the choice `index`.
pub open spec fn finished_tokens(items: Seq<ItemView>, index: usize) -> nat
    decreases items.len(),
{
    if items.len() == 0 {
        0
    } else {
        finished_tokens(items.drop_last(), index) + if is_finished_token(items.last(), index) {
            1nat
        } else {
            0nat
        }
    }
}

/// Whether event `at` is a chunk that closes the choice `index`.
pub open spec fn closes_at(events: Seq<Response>, at: int, index: usize) -> bool {
    events[at] matches Response::Chunk(chunk) && closed_by(chunk, closed_upto(events, at))
        == Some(index)
}

/// The scan of a chunk from `from` passes choices that the chunk does not
/// close and stops behind one that it closes, or at the end.
pub proof fn lemma_stop_from(choices: Seq<ChunkChoice>, closed: Set<usize>, from: int)
    requires
        0 <= from <= choices.len(),
    ensures
        from <= stop_from(choices, closed, from) <= choices.len(),
        forall|j: int|
            from <= j < stop_from(choices, closed, from) - 1 ==> !closes(choices, closed, j),
        stop_from(choices, closed, from) < choices.len() ==> from < stop_from(
            choices,
            closed,
            from,
        ) && closes(choices, closed, stop_from(choices, closed, from) - 1),
    decreases choices.len() - from,
{
    if from < choices.len() && !closes(choices, closed, from) {
        lemma_stop_from(choices, closed, from + 1);
    }
}

/// Whether `item` is the token of an open choice before `n` of `chunk`.
pub open spec fn is_open_token(
    chunk: ChatCompletionChunkResponse,
    closed: Set<usize>,
    n: int,
    item: ItemView,
) -> bool {
    &&& item matches Ok(token)
    &&& token.index < n
    &&& !closed.contains(token.index)
    &&& token == token_view(chunk, token.index as int)
}

/// The tokens of the open choices among the first `n` of a chunk: each is
/// the token of an open choice before `n`, and their choices ascend.
pub proof fn lemma_open_items(chunk: ChatCompletionChunkResponse, closed: Set<usize>, n: int)
    requires
        0 <= n <= chunk.choices@.len(),
    ensures
        open_items(chunk, closed, n).len() <= n,
        forall|k: int|
            0 <= k < open_items(chunk, closed, n).len() ==> is_open_token(
                chunk,
                closed,
                n,
                #[trigger] open_items(chunk, closed, n)[k],
            ),
        forall|k: int, l: int|
            0 <= k < l < open_items(chunk, closed, n).len() ==> (#[trigger] open_items(
                chunk,
                closed,
                n,
            )[k])->Ok_0.index < (#[trigger] open_items(chunk, closed, n)[l])->Ok_0.index,
    decreases n,
{
    assert(chunk.choices@.len() == chunk.choices.len());
    if n > 0 {
        lemma_open_items(chunk, closed, n - 1);
        let shorter = open_items(chunk, closed, n - 1);
        let items = open_items(chunk, closed, n);
        if !closed.contains((n - 1) as usize) {
            assert forall|k: int| 0 <= k < items.len() implies is_open_token(
                chunk,
                closed,
                n,
                #[trigger] items[k],
            ) by {
                if k < shorter.len() {
                    assert(items[k] == shorter[k]);
                    assert(is_open_token(chunk, closed, n - 1, shorter[k]));
                }
            }
            assert forall|k: int, l: int| 0 <= k < l < items.len() implies (
            #[trigger] items[k])->Ok_0.index < (#[trigger] items[l])->Ok_0.index by {
                assert(items[k] == shorter[k]);
                assert(is_open_token(chunk, closed, n - 1, shorter[k]));
                if l < shorter.len() {
                    assert(items[l] == shorter[l]);
                }
            }
        } else {
            assert forall|k: int| 0 <= k < items.len() implies is_open_token(
                chunk,
                closed,
                n,
                #[trigger] items[k],
            ) by {
                assert(is_open_token(chunk, closed, n - 1, shorter[k]));
            }
        }
    }
}

proof fn lemma_finished_tokens_concat(first: Seq<ItemView>, second: Seq<ItemView>, index: usize)
    ensures
        finished_tokens(first + second, index) == finished_tokens(first, index) + finished_tokens(
            second,
            index,
        ),
    decreases second.len(),
{
    if second.len() == 0 {
        assert(first + second =~= first);
    } else {
        lemma_finished_tokens_concat(first, second.drop_last(), index);
        assert((first + second).drop_last() =~= first + second.drop_last());
        assert((first + second).last() == second.last());
    }
}

proof fn lemma_no_finished_tokens(items: Seq<ItemView>, index: usize)
    requires
        forall|i: int| 0 <= i < items.len() ==> !is_finished_token(#[trigger] items[i], index),
    ensures
        finished_tokens(items, index) == 0,
    decreases items.len(),
{
    if items.len() > 0 {
        lemma_no_finished_tokens(items.drop_last(), index);
    }
}

/// What an event puts on the channel: tokens of open choices only, each
/// choice once at most, and one finished token exactly if the event closes a
/// choice, for that choice.
proof fn lemma_event_items(event: Response, closed: Set<usize>, index: usize)
    ensures
        forall|k: int|
            0 <= k < event_items(event, closed).len() && is_token_of(
                #[trigger] event_items(event, closed)[k],
                index,
            ) ==> !closed.contains(index),
        forall|k: int, l: int|
            0 <= k < l < event_items(event, closed).len() && is_token_of(
                #[trigger] event_items(event, closed)[k],
                index,
            ) ==> !is_token_of(#[trigger] event_items(event, closed)[l], index),
        forall|k: int|
            0 <= k < event_items(event, closed).len() && is_finished_token(
                #[trigger] event_items(event, closed)[k],
                index,
            ) ==> closed_after(event, closed).contains(index),
        finished_tokens(event_items(event, closed), index) == if closed_after(
            event,
            closed,
        ).contains(index) && !closed.contains(index) {
            1nat
        } else {
            0nat
        },
        forall|other: usize| closed.contains(other) ==> closed_after(event, closed).contains(other),
{
    match event {
        Response::Chunk(chunk) => {
            let choices = chunk.choices@;
            let stop = emitted_len(choices, closed);
            let items = chunk_items(chunk, closed);
            lemma_stop_from(choices, closed, 0);
            lemma_open_items(chunk, closed, stop);
            assert(choices.len() == chunk.choices.len());
            // A finished token stands for the choice that the chunk closes.
            assert forall|k: int| 0 <= k < items.len() && (#[trigger] items[k])->Ok_0.is_finished
                implies items[k]->Ok_0.index == stop - 1 && closes(choices, closed, stop - 1) by {
                let at = items[k]->Ok_0.index as int;
                assert(closes(choices, closed, at));
            }
            if items.len() == 0 {
                lemma_no_finished_tokens(items, index);
                if closed_by(chunk, closed) is Some {
                    assert(!closed.contains((stop - 1) as usize));
                    assert(open_items(chunk, closed, stop) == open_items(
                        chunk,
                        closed,
                        stop - 1,
                    ).push(Ok(token_view(chunk, stop - 1))));
                }
            } else {
                let shorter = items.drop_last();
                assert forall|k: int| 0 <= k < shorter.len() implies !is_finished_token(
                    #[trigger] shorter[k],
                    index,
                ) by {
                    assert(shorter[k] == items[k]);
                    assert(items[k]->Ok_0.index < items[items.len() - 1]->Ok_0.index);
                }
                lemma_no_finished_tokens(shorter, index);
                if closed_by(chunk, closed) is Some {
                    assert(!closed.contains((stop - 1) as usize));
                    assert(open_items(chunk, closed, stop) == open_items(
                        chunk,
                        closed,
                        stop - 1,
                    ).push(Ok(token_view(chunk, stop - 1))));
                    assert(items.last() == Ok::<TokenView, Seq<char>>(
                        token_view(chunk, stop - 1),
                    ));
                }
            }
        },
        _ => {
            lemma_no_finished_tokens(event_items(event, closed), index);
        },
    }
}

/// Every choice has one terminal entry at most, and nothing after it. Among
/// what the first `n` events put on the token channel,
/// no token of a choice follows the finished token of that choice, and the
/// choice has one finished token if the events have closed it, and none if
/// they have not.
pub proof fn lemma_one_terminal_entry(events: Seq<Response>, n: int, index: usize)
    requires
        0 <= n <= events.len(),
    ensures
        forall|p: int, q: int|
            0 <= p < q < forwarded_upto(events, n).len() && is_finished_token(
                #[trigger] forwarded_upto(events, n)[p],
                index,
            ) ==> !is_token_of(#[trigger] forwarded_upto(events, n)[q], index),
        forall|p: int|
            0 <= p < forwarded_upto(events, n).len() && is_finished_token(
                #[trigger] forwarded_upto(events, n)[p],
                index,
            ) ==> closed_upto(events, n).contains(index),
        finished_tokens(forwarded_upto(events, n), index) == if closed_upto(events, n).contains(
            index,
        ) {
            1nat
        } else {
            0nat
        },
    decreases n,
{
    if n > 0 {
        lemma_one_terminal_entry(events, n - 1, index);
        let before = forwarded_upto(events, n - 1);
        let closed = closed_upto(events, n - 1);
        let added = event_items(events[n - 1], closed);
        let items = forwarded_upto(events, n);
        lemma_event_items(events[n - 1], closed, index);
        lemma_finished_tokens_concat(before, added, index);
        assert forall|p: int| 0 <= p < items.len() && is_finished_token(
            #[trigger] items[p],
            index,
        ) implies closed_upto(events, n).contains(index) by {
            if p < before.len() {
                assert(items[p] == before[p]);
            } else {
                assert(items[p] == added[p - before.len()]);
            }
        }
        assert forall|p: int, q: int|
            0 <= p < q < items.len() && is_finished_token(
                #[trigger] items[p],
                index,
            ) implies !is_token_of(#[trigger] items[q], index) by {
            if q < before.len() {
                assert(items[p] == before[p]);
                assert(items[q] == before[q]);
            } else if p < before.len() {
                assert(items[p] == before[p]);
                assert(items[q] == added[q - before.len()]);
                assert(closed.contains(index));
            } else {
                assert(items[p] == added[p - before.len()]);
                assert(items[q] == added[q - before.len()]);
            }
        }
    }
}

/// On the token channel of a stream every choice has one terminal entry at
/// most, and nothing after it: no token of a choice follows the finished
/// token of that choice. A choice has its terminal entry exactly if one of
/// the chunks that were forwarded closes it.
pub proof fn lemma_terminal_entries(events: Seq<Response>, index: usize)
    ensures
        finished_tokens(forwarded(events), index) <= 1,
        forall|p: int, q: int|
            0 <= p < q < forwarded(events).len() && is_finished_token(
                #[trigger] forwarded(events)[p],
                index,
            ) ==> !is_token_of(#[trigger] forwarded(events)[q], index),
        finished_tokens(forwarded(events), index) == 1 <==> exists|at: int|
            0 <= at < forwarded_events(events) && #[trigger] closes_at(events, at, index),
{
    lemma_first_terminal_from(events, 0);
    lemma_one_terminal_entry(events, forwarded_events(events), index);
    lemma_closed_upto(events, forwarded_events(events), index);
}

/// A choice is closed exactly if one of the chunks so far has closed it: its
/// first finished choice among those still open was this one.
pub proof fn lemma_closed_upto(events: Seq<Response>, n: int, index: usize)
    requires
        0 <= n <= events.len(),
    ensures
        closed_upto(events, n).contains(index) <==> exists|at: int|
            0 <= at < n && #[trigger] closes_at(events, at, index),
    decreases n,
{
    if n > 0 {
        lemma_closed_upto(events, n - 1, index);
        if closed_upto(events, n - 1).contains(index) {
            let at = choose|at: int| 0 <= at < n - 1 && #[trigger] closes_at(events, at, index);
            assert(closes_at(events, at, index));
        }
        if closes_at(events, n - 1, index) {
            assert(closed_upto(events, n).contains(index));
        }
    }
}

/// A chunk in which the choice at `at` carries a finish reason, and no other
/// does, is forwarded at the head of a stream as `at + 1` tokens, one for
/// each choice up to `at`, of which the last alone is finished. Nothing
/// follows the finished token.
pub proof fn lemma_one_finished_choice(chunk: ChatCompletionChunkResponse, at: int)
    requires
        0 <= at < chunk.choices@.len(),
        chunk.choices@[at].finish_reason is Some,
        forall|j: int|
            0 <= j < chunk.choices@.len() && j != at ==> chunk.choices@[j].finish_reason is None,
    ensures
        chunk_items(chunk, Set::empty()).len() == at + 1,
        forall|i: int|
            0 <= i <= at ==> (#[trigger] chunk_items(chunk, Set::empty())[i]) == Ok::<
                TokenView,
                Seq<char>,
            >(token_view(chunk, i)),
        forall|i: int| 0 <= i <= at ==> token_view(chunk, i).index == i,
        forall|i: int| 0 <= i <= at ==> (token_view(chunk, i).is_finished <==> i == at),
        closed_by(chunk, Set::empty()) == Some(at as usize),
{
    let none = Set::<usize>::empty();
    lemma_stop_from(chunk.choices@, none, 0);
    assert(chunk.choices@.len() == chunk.choices.len());
    let n = stop_from(chunk.choices@, none, 0);
    if n < at + 1 {
        if n < chunk.choices@.len() {
            assert(closes(chunk.choices@, none, n - 1));
        }
    }
    if n > at + 1 {
        assert(!closes(chunk.choices@, none, at));
    }
    lemma_open_items_all(chunk, n);
}

proof fn lemma_open_items_all(chunk: ChatCompletionChunkResponse, n: int)
    requires
        0 <= n <= chunk.choices@.len(),
    ensures
        open_items(chunk, Set::empty(), n).len() == n,
        forall|i: int|
            0 <= i < n ==> (#[trigger] open_items(chunk, Set::empty(), n)[i]) == Ok::<
                TokenView,
                Seq<char>,
            >(token_view(chunk, i)),
    decreases n,
{
    if n > 0 {
        lemma_open_items_all(chunk, n - 1);
    }
}

/// The first terminal event lies behind partial events only.
pub proof fn lemma_first_terminal_from(events: Seq<Response>, from: int)
    requires
        0 <= from <= events.len(),
    ensures
        from <= first_terminal_from(events, from) <= events.len(),
        forall|i: int| from <= i < first_terminal_from(events, from) ==> !events[i].is_terminal(),
        first_terminal_from(events, from) < events.len() ==> events[first_terminal_from(
            events,
            from,
        )].is_terminal(),
    decreases events.len() - from,
{
    if from < events.len() && !events[from].is_terminal() {
        lemma_first_terminal_from(events, from + 1);
    }
}

/// Where the first terminal event of a stream is a failure, a job that waits
/// for its whole result fails with the message of that event, and a token
/// channel gets that message as its last item, behind the tokens of the
/// chunks before it.
pub proof fn lemma_failure_propagates(events: Seq<Response>, message: Seq<char>)
    requires
        first_terminal(events) < events.len(),
        events[first_terminal(events)].failure() == Some(message),
    ensures
        completion_outcome(events) == (InferenceResultView::Error { message }),
        forwarded(events) == forwarded_upto(events, first_terminal(events)).push(Err(message)),
{
    lemma_first_terminal_from(events, 0);
    let at = first_terminal(events);
    assert(forwarded_upto(events, at + 1) == forwarded_upto(events, at) + event_items(
        events[at],
        closed_upto(events, at),
    ));
    assert(event_items(events[at], closed_upto(events, at)) =~= seq![
        Err::<TokenView, Seq<char>>(message),
    ]);
    assert(forwarded_upto(events, at) + seq![Err::<TokenView, Seq<char>>(message)]
        =~= forwarded_upto(events, at).push(Err(message)));
}

/// A pipeline whose first event is a model error with `message` fails a job
/// that waits for its whole result with that message, and puts that message
/// alone on a token channel.
pub proof fn lemma_model_error_first(events: Seq<Response>, message: Seq<char>)
    requires
        events.len() > 0,
        events[0] matches Response::ModelError(text, _) && text@ == message,
    ensures
        completion_outcome(events) == (InferenceResultView::Error { message }),
        forwarded(events) == seq![Err::<TokenView, Seq<char>>(message)],
{
    lemma_failure_propagates(events, message);
    assert(forwarded_upto(events, 0).push(Err::<TokenView, Seq<char>>(message)) =~= seq![
        Err::<TokenView, Seq<char>>(message),
    ]);
}

/// The first `n` events of a stream are forwarded alike whatever follows.
pub proof fn lemma_forwarded_upto_prefix(events: Seq<Response>, more: Seq<Response>, n: int)
    requires
        n <= events.len(),
    ensures
        forwarded_upto(events + more, n) == forwarded_upto(events, n),
        closed_upto(events + more, n) == closed_upto(events, n),
    decreases n,
{
    if n > 0 {
        lemma_forwarded_upto_prefix(events, more, n - 1);
        assert((events + more)[n - 1] == events[n - 1]);
    }
}

proof fn lemma_first_terminal_prefix(events: Seq<Response>, more: Seq<Response>, from: int)
    requires
        0 <= from <= events.len(),
        first_terminal_from(events, from) < events.len(),
    ensures
        first_terminal_from(events + more, from) == first_terminal_from(events, from),
    decreases events.len() - from,
{
    if from < events.len() {
        assert((events + more)[from] == events[from]);
        if !events[from].is_terminal() {
            lemma_first_terminal_prefix(events, more, from + 1);
        }
    }
}

/// Once a terminal event has been seen, what the pipeline emits after it
/// changes neither the result of the job nor what reaches the token channel.
pub proof fn lemma_nothing_after_terminal(events: Seq<Response>, more: Seq<Response>)
    requires
        first_terminal(events) < events.len(),
    ensures
        completion_outcome(events + more) == completion_outcome(events),
        forwarded(events + more) == forwarded(events),
{
    lemma_first_terminal_from(events, 0);
    lemma_first_terminal_prefix(events, more, 0);
    let at = first_terminal(events);
    assert((events + more)[at] == events[at]);
    lemma_forwarded_upto_prefix(events, more, at + 1);
}

} // verus!
