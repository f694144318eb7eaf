//! A store of finished and streaming responses: the response itself, the
//! chunks it was streamed in, and the conversation that led to it, each in a
//! table of its own under the id of the response.
//!
//! The tables are meant to be guarded by one lock each. An operation that
//! needs more than one table takes their locks in the order in which
//! `CacheTable` lists them, so that two such operations can never wait for
//! each other.

use vstd::prelude::*;
use crate::table::Table;

verus! {

#[derive(Debug, Clone)]
pub struct ResponsesContent {
    pub content_type: String,
    pub text: Option<String>,
}

#[derive(Debug, Clone)]
pub struct ResponsesOutput {
    pub id: String,
    pub output_type: String,
    pub role: String,
    pub status: Option<String>,
    pub content: Vec<ResponsesContent>,
}

#[derive(Debug, Clone, Copy, PartialEq, Eq, Structural)]
pub struct ResponsesUsage {
    pub input_tokens: usize,
    pub output_tokens: usize,
    pub total_tokens: usize,
}

#[derive(Debug, Clone)]
pub struct ResponsesError {
    pub error_type: String,
    pub message: String,
}

#[derive(Debug, Clone)]
pub struct ResponsesIncompleteDetails {
    pub reason: String,
}

/// A response as it is stored.
#[derive(Debug, Clone)]
pub struct ResponsesObject {
    pub id: String,
    pub object: &'static str,
    /// When the response was made, in seconds.
    pub created_at: u64,
    pub model: String,
    pub status: String,
    pub output: Vec<ResponsesOutput>,
    pub output_text: Option<String>,
    pub usage: Option<ResponsesUsage>,
    pub error: Option<ResponsesError>,
    pub metadata: Option<String>,
    pub instructions: Option<String>,
    pub incomplete_details: Option<ResponsesIncompleteDetails>,
}

/// One piece of a streamed response.
#[derive(Debug, Clone)]
pub struct ResponsesChunk {
    pub id: String,
    pub object: &'static str,
    pub created_at: u64,
    pub model: String,
    pub chunk_type: String,
    pub delta: Option<String>,
}

/// One message of a conversation.
#[derive(Debug, Clone)]
pub struct Message {
    pub role: String,
    pub content: String,
}

/// The tables of the store, in the order in which their locks are taken.
#[derive(Debug, Clone, Copy, PartialEq, Eq, Structural)]
pub enum CacheTable {
    Responses,
    Chunks,
    Histories,
}

impl CacheTable {
    pub open spec fn spec_rank(&self) -> u8 {
        match *self {
            CacheTable::Responses => 0,
            CacheTable::Chunks => 1,
            CacheTable::Histories => 2,
        }
    }

    /// The place of the table in the order of locking.
    #[verifier::when_used_as_spec(spec_rank)]
    pub fn rank(&self) -> (rank: u8)
        ensures
            rank == self.spec_rank(),
    {
        match self {
            CacheTable::Responses => 0,
            CacheTable::Chunks => 1,
            CacheTable::Histories => 2,
        }
    }
}

/// What can be asked of the store.
#[derive(Debug, Clone, Copy, PartialEq, Eq, Structural)]
pub enum CacheOperation {
    StoreResponse,
    GetResponse,
    DeleteResponse,
    StoreChunks,
    GetChunks,
    StoreConversationHistory,
    GetConversationHistory,
}

impl CacheOperation {
    /// The tables that the operation touches, in the order in which it takes
    /// their locks.
    pub open spec fn tables(&self) -> Seq<CacheTable> {
        match *self {
            CacheOperation::StoreResponse => seq![CacheTable::Responses],
            CacheOperation::GetResponse => seq![CacheTable::Responses],
            CacheOperation::DeleteResponse => seq![
                CacheTable::Responses,
                CacheTable::Chunks,
                CacheTable::Histories,
            ],
            CacheOperation::StoreChunks => seq![CacheTable::Chunks],
            CacheOperation::GetChunks => seq![CacheTable::Chunks],
            CacheOperation::StoreConversationHistory => seq![CacheTable::Histories],
            CacheOperation::GetConversationHistory => seq![CacheTable::Histories],
        }
    }

    /// Whether the operation takes the lock of `first` and, while it holds
    /// it, that of `second`.
    pub open spec fn takes_before(&self, first: CacheTable, second: CacheTable) -> bool {
        exists|i: int, j: int|
            0 <= i < j < self.tables().len() && #[trigger] self.tables()[i] == first
                && #[trigger] self.tables()[j] == second
    }

    /// The locks to take for the operation, in order.
    pub fn lock_plan(&self) -> (plan: Vec<CacheTable>)
        ensures
            plan@ == self.tables(),
    {
        let mut plan: Vec<CacheTable> = Vec::new();
        match self {
            CacheOperation::StoreResponse => {
                plan.push(CacheTable::Responses);
            },
            CacheOperation::GetResponse => {
                plan.push(CacheTable::Responses);
            },
            CacheOperation::DeleteResponse => {
                plan.push(CacheTable::Responses);
                plan.push(CacheTable::Chunks);
                plan.push(CacheTable::Histories);
            },
            CacheOperation::StoreChunks => {
                plan.push(CacheTable::Chunks);
            },
            CacheOperation::GetChunks => {
                plan.push(CacheTable::Chunks);
            },
            CacheOperation::StoreConversationHistory => {
                plan.push(CacheTable::Histories);
            },
            CacheOperation::GetConversationHistory => {
                plan.push(CacheTable::Histories);
            },
        }
        assert(plan@ =~= self.tables());
        plan
    }
}

/// What the store holds, table by table.
pub struct CacheView {
    pub responses: Map<Seq<char>, ResponsesObject>,
    pub chunks: Map<Seq<char>, Vec<ResponsesChunk>>,
    pub histories: Map<Seq<char>, Vec<Message>>,
}

impl CacheView {
    pub open spec fn empty() -> CacheView {
        CacheView { responses: Map::empty(), chunks: Map::empty(), histories: Map::empty() }
    }

    pub open spec fn store_response(self, id: Seq<char>, response: ResponsesObject) -> CacheView {
        CacheView { responses: self.responses.insert(id, response), ..self }
    }

    pub open spec fn store_chunks(self, id: Seq<char>, chunks: Vec<ResponsesChunk>) -> CacheView {
        CacheView { chunks: self.chunks.insert(id, chunks), ..self }
    }

    pub open spec fn store_conversation_history(
        self,
        id: Seq<char>,
        messages: Vec<Message>,
    ) -> CacheView {
        CacheView { histories: self.histories.insert(id, messages), ..self }
    }

    pub open spec fn delete_response(self, id: Seq<char>) -> CacheView {
        CacheView {
            responses: self.responses.remove(id),
            chunks: self.chunks.remove(id),
            histories: self.histories.remove(id),
        }
    }

    /// Whether any table holds something under `id`.
    pub open spec fn mentions(self, id: Seq<char>) -> bool {
        self.responses.contains_key(id) || self.chunks.contains_key(id)
            || self.histories.contains_key(id)
    }
}

/// A change to the store.
pub enum CacheCommand {
    StoreResponse(Seq<char>, ResponsesObject),
    StoreChunks(Seq<char>, Vec<ResponsesChunk>),
    StoreConversationHistory(Seq<char>, Vec<Message>),
    DeleteResponse(Seq<char>),
}

impl CacheCommand {
    /// The id that the change is about.
    pub open spec fn id(self) -> Seq<char> {
        match self {
            CacheCommand::StoreResponse(id, _) => id,
            CacheCommand::StoreChunks(id, _) => id,
            CacheCommand::StoreConversationHistory(id, _) => id,
            CacheCommand::DeleteResponse(id) => id,
        }
    }

    /// The store after the change.
    pub open spec fn apply(self, store: CacheView) -> CacheView {
        match self {
            CacheCommand::StoreResponse(id, response) => store.store_response(id, response),
            CacheCommand::StoreChunks(id, chunks) => store.store_chunks(id, chunks),
            CacheCommand::StoreConversationHistory(id, messages) => store.store_conversation_history(
                id,
                messages,
            ),
            CacheCommand::DeleteResponse(id) => store.delete_response(id),
        }
    }
}

/// The store after the first `n` of `commands`, one after the other.
pub open spec fn apply_all(store: CacheView, commands: Seq<CacheCommand>, n: int) -> CacheView
    decreases n,
{
    if n <= 0 {
        store
    } else {
        commands[n - 1].apply(apply_all(store, commands, n - 1))
    }
}

/// Takes `id` out of the three tables, in the order of locking, and says
/// whether there was a response under it.
pub fn delete_in_order(
    responses: &mut Table<ResponsesObject>,
    chunks: &mut Table<Vec<ResponsesChunk>>,
    histories: &mut Table<Vec<Message>>,
    id: &str,
) -> (deleted: bool)
    requires
        old(responses).wf(),
        old(chunks).wf(),
        old(histories).wf(),
    ensures
        final(responses).wf(),
        final(chunks).wf(),
        final(histories).wf(),
        deleted == old(responses)@.contains_key(id@),
        final(responses)@ == old(responses)@.remove(id@),
        final(chunks)@ == old(chunks)@.remove(id@),
        final(histories)@ == old(histories)@.remove(id@),
{
    let deleted = responses.remove(id).is_some();
    let _ = chunks.remove(id);
    let _ = histories.remove(id);
    deleted
}

/// A store that lives in memory.
pub struct InMemoryResponseCache {
    responses: Table<ResponsesObject>,
    chunks: Table<Vec<ResponsesChunk>>,
    conversation_histories: Table<Vec<Message>>,
}

impl View for InMemoryResponseCache {
    type V = CacheView;

    closed spec fn view(&self) -> CacheView {
        CacheView {
            responses: self.responses@,
            chunks: self.chunks@,
            histories: self.conversation_histories@,
        }
    }
}

impl InMemoryResponseCache {
    pub closed spec fn wf(&self) -> bool {
        &&& self.responses.wf()
        &&& self.chunks.wf()
        &&& self.conversation_histories.wf()
    }

    /// A well-formed store holds finitely many ids in each table.
    pub proof fn lemma_finite(&self)
        requires
            self.wf(),
        ensures
            self@.responses.dom().finite(),
            self@.chunks.dom().finite(),
            self@.histories.dom().finite(),
    {
        self.responses.lemma_finite();
        self.chunks.lemma_finite();
        self.conversation_histories.lemma_finite();
    }

    pub fn new() -> (cache: Self)
        ensures
            cache.wf(),
            cache@ == CacheView::empty(),
    {
        InMemoryResponseCache {
            responses: Table::new(),
            chunks: Table::new(),
            conversation_histories: Table::new(),
        }
    }

    /// Puts `response` under `id`, in place of what was there.
    pub fn store_response(&mut self, id: String, response: ResponsesObject)
        requires
            old(self).wf(),
        ensures
            final(self).wf(),
            final(self)@ == old(self)@.store_response(id@, response),
    {
        let _ = self.responses.insert(id, response);
    }

    pub fn get_response(&self, id: &str) -> (response: Option<&ResponsesObject>)
        requires
            self.wf(),
        ensures
            match response {
                Some(held) => self@.responses.contains_key(id@) && *held == self@.responses[id@],
                None => !self@.responses.contains_key(id@),
            },
    {
        self.responses.get(id)
    }

    /// Takes `id` out of all three tables, and says whether there was a
    /// response under it.
    pub fn delete_response(&mut self, id: &str) -> (deleted: bool)
        requires
            old(self).wf(),
        ensures
            final(self).wf(),
            deleted == old(self)@.responses.contains_key(id@),
            final(self)@ == old(self)@.delete_response(id@),
    {
        delete_in_order(
            &mut self.responses,
            &mut self.chunks,
            &mut self.conversation_histories,
            id,
        )
    }

    /// Puts `chunks` under `id`, in place of what was there.
    pub fn store_chunks(&mut self, id: String, chunks: Vec<ResponsesChunk>)
        requires
            old(self).wf(),
        ensures
            final(self).wf(),
            final(self)@ == old(self)@.store_chunks(id@, chunks),
    {
        let _ = self.chunks.insert(id, chunks);
    }

    pub fn get_chunks(&self, id: &str) -> (chunks: Option<&Vec<ResponsesChunk>>)
        requires
            self.wf(),
        ensures
            match chunks {
                Some(held) => self@.chunks.contains_key(id@) && *held == self@.chunks[id@],
                None => !self@.chunks.contains_key(id@),
            },
    {
        self.chunks.get(id)
    }

    /// Puts `messages` under `id`, in place of what was there.
    pub fn store_conversation_history(&mut self, id: String, messages: Vec<Message>)
        requires
            old(self).wf(),
        ensures
            final(self).wf(),
            final(self)@ == old(self)@.store_conversation_history(id@, messages),
    {
        let _ = self.conversation_histories.insert(id, messages);
    }

    pub fn get_conversation_history(&self, id: &str) -> (messages: Option<&Vec<Message>>)
        requires
            self.wf(),
        ensures
            match messages {
                Some(held) => self@.histories.contains_key(id@) && *held == self@.histories[id@],
                None => !self@.histories.contains_key(id@),
            },
    {
        self.conversation_histories.get(id)
    }
}

/// Every operation takes its locks in ascending order of the tables' ranks.
pub proof fn lemma_locks_ascend(operation: CacheOperation)
    ensures
        forall|i: int, j: int|
            0 <= i < j < operation.tables().len() ==> (#[trigger] operation.tables()[i]).rank() < (
            #[trigger] operation.tables()[j]).rank(),
{
}

/// No two operations can wait for each other: if one takes the lock of a
/// table while it holds that of another, no operation takes the two in the
/// opposite order.
pub proof fn lemma_no_lock_cycle(
    one: CacheOperation,
    other: CacheOperation,
    first: CacheTable,
    second: CacheTable,
)
    requires
        one.takes_before(first, second),
    ensures
        !other.takes_before(second, first),
{
    lemma_locks_ascend(one);
    lemma_locks_ascend(other);
    let (i, j) = choose|i: int, j: int|
        0 <= i < j < one.tables().len() && #[trigger] one.tables()[i] == first
            && #[trigger] one.tables()[j] == second;
    assert(first.rank() < second.rank());
    if other.takes_before(second, first) {
        let (k, l) = choose|k: int, l: int|
            0 <= k < l < other.tables().len() && #[trigger] other.tables()[k] == second
                && #[trigger] other.tables()[l] == first;
        assert(other.tables()[k].rank() < other.tables()[l].rank());
    }
}

/// A deleted id is gone from all three tables, whatever they held.
pub proof fn lemma_delete_is_complete(store: CacheView, id: Seq<char>)
    ensures
        !store.delete_response(id).mentions(id),
        forall|other: Seq<char>|
            other != id ==> (#[trigger] store.delete_response(id).mentions(other)
                <==> store.mentions(other)),
{
}

/// A change about one id leaves what the store holds under every other id
/// as it was.
pub proof fn lemma_other_ids_untouched(store: CacheView, command: CacheCommand, id: Seq<char>)
    requires
        command.id() != id,
    ensures
        command.apply(store).responses.contains_key(id) == store.responses.contains_key(id),
        command.apply(store).chunks.contains_key(id) == store.chunks.contains_key(id),
        command.apply(store).histories.contains_key(id) == store.histories.contains_key(id),
        store.responses.contains_key(id) ==> command.apply(store).responses[id]
            == store.responses[id],
        store.chunks.contains_key(id) ==> command.apply(store).chunks[id] == store.chunks[id],
        store.histories.contains_key(id) ==> command.apply(store).histories[id]
            == store.histories[id],
{
}

/// Deleting an id and a change about another id can be done in either order.
pub proof fn lemma_delete_commutes(store: CacheView, command: CacheCommand, id: Seq<char>)
    requires
        command.id() != id,
    ensures
        command.apply(store.delete_response(id)) == command.apply(store).delete_response(id),
{
    let left = command.apply(store.delete_response(id));
    let right = command.apply(store).delete_response(id);
    assert(left.responses =~= right.responses);
    assert(left.chunks =~= right.chunks);
    assert(left.histories =~= right.histories);
}

/// Once an id has been deleted, no run of changes about other ids brings it
/// back: after any number of them no table holds anything under it.
pub proof fn lemma_deleted_stays_deleted(
    store: CacheView,
    id: Seq<char>,
    commands: Seq<CacheCommand>,
    n: int,
)
    requires
        0 <= n <= commands.len(),
        forall|i: int| 0 <= i < commands.len() ==> (#[trigger] commands[i]).id() != id,
    ensures
        !apply_all(store.delete_response(id), commands, n).mentions(id),
    decreases n,
{
    if n > 0 {
        lemma_deleted_stays_deleted(store, id, commands, n - 1);
        lemma_other_ids_untouched(
            apply_all(store.delete_response(id), commands, n - 1),
            commands[n - 1],
            id,
        );
    }
}

} // verus!
