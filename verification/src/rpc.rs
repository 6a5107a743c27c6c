//! The session that carries the operations of a transaction as messages:
//! one reply for each request, in the order of the requests.

use vstd::prelude::*;
use vstd::string::*;
use crate::errors::Error;
use crate::index::SortedMap;
use crate::memory::datastore::{MemoryDatastore, MemoryTransaction};
use crate::memory::model::{
    all_vertices, EdgeEntry, EdgeFilter, edges_handed_out, edges_model, edges_of, ids_of,
    inbound_edges, keys_of, metadata_erased, metadata_found, metadata_written, outbound_edges,
    owned_ids, owned_keys, StoreModel, vertices_at, vertices_handed_out, vertices_model,
    vertices_of,
};
use crate::models::{
    Edge, EdgeKey, hyphenated_text, JsonValue, parsed_uuid, StoredEdgeKey, Type, Uuid, Vertex,
    VertexValueModel, Weight,
};
use crate::queries::{EdgeQuery, ids_model, QueryTypeConverter, tag_of, VertexQuery};
use crate::sequences::capped;
use crate::util::is_child_of;

verus! {

/// The end of its edges at which a vertex is looked at.
#[derive(Clone, Copy, PartialEq, Eq, Debug, Structural)]
pub enum EdgeDirection {
    Outbound,
    Inbound,
}

/// The word that names a direction in a message.
pub open spec fn direction_text(direction: EdgeDirection) -> Seq<char> {
    match direction {
        EdgeDirection::Outbound => "outbound"@,
        EdgeDirection::Inbound => "inbound"@,
    }
}

/// The direction that a word names, if it names one.
pub open spec fn parsed_direction(text: Seq<char>) -> Option<EdgeDirection> {
    if text == "outbound"@ {
        Some(EdgeDirection::Outbound)
    } else if text == "inbound"@ {
        Some(EdgeDirection::Inbound)
    } else {
        None
    }
}

impl EdgeDirection {
    /// The word that names the direction in a message.
    pub fn to_text(&self) -> (text: String)
        ensures
            text@ == direction_text(*self),
            parsed_direction(text@) == Some(*self),
    {
        proof {
            reveal_strlit("outbound");
            reveal_strlit("inbound");
        }
        match self {
            EdgeDirection::Outbound => String::from_str("outbound"),
            EdgeDirection::Inbound => String::from_str("inbound"),
        }
    }

    /// The direction that a word names, if it names one.
    pub fn from_text(text: &String) -> (direction: Option<EdgeDirection>)
        ensures
            direction == parsed_direction(text@),
    {
        if *text == String::from_str("outbound") {
            Some(EdgeDirection::Outbound)
        } else if *text == String::from_str("inbound") {
            Some(EdgeDirection::Inbound)
        } else {
            None
        }
    }

    /// The end of an edge that a pipe follows for this direction.
    pub fn converter(&self) -> (converter: QueryTypeConverter)
        ensures
            converter == match *self {
                EdgeDirection::Outbound => QueryTypeConverter::Outbound,
                EdgeDirection::Inbound => QueryTypeConverter::Inbound,
            },
    {
        match self {
            EdgeDirection::Outbound => QueryTypeConverter::Outbound,
            EdgeDirection::Inbound => QueryTypeConverter::Inbound,
        }
    }
}

/// What a session can be asked: exactly one operation for each request.
#[derive(PartialEq, Debug)]
pub enum TransactionRequest {
    CreateVertex { vertex: Vertex },
    CreateVertexFromType { t: Type },
    GetVertices { query: VertexQuery },
    DeleteVertices { query: VertexQuery },
    GetVertexCount,
    CreateEdge { key: EdgeKey, weight: Weight },
    GetEdges { query: EdgeQuery },
    DeleteEdges { query: EdgeQuery },
    /// The identifier travels as a hyphenated text, the direction as the
    /// word `outbound` or `inbound`.
    GetEdgeCount { id: String, type_filter: Option<Type>, direction: String },
    GetGlobalMetadata { name: String },
    SetGlobalMetadata { name: String, value: JsonValue },
    DeleteGlobalMetadata { name: String },
    GetAccountMetadata { owner_id: Uuid, name: String },
    SetAccountMetadata { owner_id: Uuid, name: String, value: JsonValue },
    DeleteAccountMetadata { owner_id: Uuid, name: String },
    GetVertexMetadata { query: VertexQuery, name: String },
    SetVertexMetadata { query: VertexQuery, name: String, value: JsonValue },
    DeleteVertexMetadata { query: VertexQuery, name: String },
    GetEdgeMetadata { query: EdgeQuery, name: String },
    SetEdgeMetadata { query: EdgeQuery, name: String, value: JsonValue },
    DeleteEdgeMetadata { query: EdgeQuery, name: String },
}

/// The metadata that a reply carries.
pub enum Metadata {
    /// One value.
    Value(JsonValue),
    /// The value of each vertex that has one.
    OfVertices(SortedMap<Uuid, JsonValue>),
    /// The value of each edge that has one.
    OfEdges(SortedMap<StoredEdgeKey, JsonValue>),
}

/// What a session replies: exactly one of these for each request.
pub enum TransactionResponse {
    Okay(bool),
    /// An identifier as a hyphenated text.
    Uuid(String),
    Vertices(Vec<Vertex>),
    Edges(Vec<Edge>),
    Count(u64),
    Metadata(Metadata),
    /// The request failed; the session goes on.
    Error(Error),
}

/// The edges at one end of the vertex `id` that carry the tag of
/// `type_filter` where one is set; none where the vertex does not exist.
pub open spec fn edges_at_vertex(
    st: StoreModel,
    id: u128,
    type_filter: Option<Type>,
    direction: EdgeDirection,
) -> Seq<EdgeEntry> {
    let ends = ids_of(vertices_at(st.vertices, seq![id]));
    let filter = EdgeFilter {
        type_filter: tag_of(type_filter),
        high_filter: None,
        low_filter: None,
    };
    match direction {
        EdgeDirection::Outbound => capped(
            outbound_edges(st.edges, ends, filter),
            0xffff_ffffu32 as nat,
        ),
        EdgeDirection::Inbound => capped(
            inbound_edges(st.edges, ends, filter),
            0xffff_ffffu32 as nat,
        ),
    }
}

/// The reply to an operation that hands nothing out.
pub open spec fn unit_reply(r: Result<(), Error>) -> TransactionResponse {
    match r {
        Ok(_) => TransactionResponse::Okay(true),
        Err(e) => TransactionResponse::Error(e),
    }
}

/// Whether `response` and `after` are a reply to `request` and the store
/// it leaves, where the session acts for `account` on the store `before`.
pub open spec fn answers(
    before: StoreModel,
    account: u128,
    request: TransactionRequest,
    after: StoreModel,
    response: TransactionResponse,
) -> bool {
    match request {
        TransactionRequest::CreateVertex { vertex } => {
            &&& response == TransactionResponse::Okay(!before.vertices.contains_key(vertex.id@))
            &&& after == if before.vertices.contains_key(vertex.id@) {
                before
            } else {
                StoreModel {
                    vertices: before.vertices.insert(
                        vertex.id@,
                        VertexValueModel { owner_id: account, t: vertex.t@ },
                    ),
                    ..before
                }
            }
        },
        TransactionRequest::CreateVertexFromType { t } => {
            &&& response matches TransactionResponse::Uuid(text)
            &&& parsed_uuid(text@) matches Some(id)
            &&& text@ == hyphenated_text(id)
            &&& is_child_of(id, account)
            &&& after == (StoreModel {
                vertices: before.vertices.insert(id, VertexValueModel { owner_id: account, t: t@ }),
                ..before
            })
        },
        TransactionRequest::GetVertices { query } => {
            &&& response matches TransactionResponse::Vertices(found)
            &&& vertices_model(found@) == vertices_handed_out(vertices_of(before, query))
            &&& after == before
        },
        TransactionRequest::DeleteVertices { query } => {
            &&& response == TransactionResponse::Okay(true)
            &&& after == (StoreModel {
                vertices: before.vertices.remove_keys(
                    owned_ids(vertices_of(before, query), account),
                ),
                ..before
            })
        },
        TransactionRequest::GetVertexCount => {
            &&& response matches TransactionResponse::Count(n)
            &&& n == all_vertices(before.vertices).len()
            &&& after == before
        },
        TransactionRequest::CreateEdge { key, weight } => {
            match before.create_edge_outcome(account, key@) {
                Ok(_) => {
                    &&& response == TransactionResponse::Okay(true)
                    &&& after.edges.contains_key(key@)
                    &&& after.edges[key@].0 == weight@
                    &&& after == (StoreModel {
                        edges: before.edges.insert(key@, after.edges[key@]),
                        ..before
                    })
                },
                Err(e) => response == TransactionResponse::Error(e) && after == before,
            }
        },
        TransactionRequest::GetEdges { query } => {
            &&& response matches TransactionResponse::Edges(found)
            &&& edges_model(found@) == edges_handed_out(edges_of(before, query))
            &&& after == before
        },
        TransactionRequest::DeleteEdges { query } => {
            if before.holds_starts_of(edges_of(before, query)) {
                &&& response == TransactionResponse::Okay(true)
                &&& after == (StoreModel {
                    edges: before.edges.remove_keys(
                        owned_keys(before, edges_of(before, query), account),
                    ),
                    ..before
                })
            } else {
                response == TransactionResponse::Error(Error::VertexNotFound) && after == before
            }
        },
        TransactionRequest::GetEdgeCount { id, type_filter, direction } => {
            &&& after == before
            &&& match (parsed_uuid(id@), parsed_direction(direction@)) {
                (Some(vertex), Some(end)) => {
                    &&& response matches TransactionResponse::Count(n)
                    &&& n == edges_at_vertex(before, vertex, type_filter, end).len()
                },
                _ => response == TransactionResponse::Error(Error::OutOfRange),
            }
        },
        TransactionRequest::GetGlobalMetadata { name } => {
            &&& after == before
            &&& if before.global_metadata.contains_key(name@) {
                &&& response matches TransactionResponse::Metadata(Metadata::Value(value))
                &&& value@ == before.global_metadata[name@]
            } else {
                response == TransactionResponse::Error(Error::MetadataNotFound)
            }
        },
        TransactionRequest::SetGlobalMetadata { name, value } => {
            &&& response == TransactionResponse::Okay(true)
            &&& after == (StoreModel {
                global_metadata: before.global_metadata.insert(name@, value@),
                ..before
            })
        },
        TransactionRequest::DeleteGlobalMetadata { name } => {
            &&& response == unit_reply(
                if before.global_metadata.contains_key(name@) {
                    Ok(())
                } else {
                    Err(Error::MetadataNotFound)
                },
            )
            &&& after == (StoreModel {
                global_metadata: before.global_metadata.remove(name@),
                ..before
            })
        },
        TransactionRequest::GetAccountMetadata { owner_id, name } => {
            &&& after == before
            &&& if before.account_metadata.contains_key((owner_id@, name@)) {
                &&& response matches TransactionResponse::Metadata(Metadata::Value(value))
                &&& value@ == before.account_metadata[(owner_id@, name@)]
            } else {
                response == TransactionResponse::Error(Error::MetadataNotFound)
            }
        },
        TransactionRequest::SetAccountMetadata { owner_id, name, value } => {
            if before.accounts.contains_key(owner_id@) {
                &&& response == TransactionResponse::Okay(true)
                &&& after == (StoreModel {
                    account_metadata: before.account_metadata.insert((owner_id@, name@), value@),
                    ..before
                })
            } else {
                response == TransactionResponse::Error(Error::AccountNotFound) && after == before
            }
        },
        TransactionRequest::DeleteAccountMetadata { owner_id, name } => {
            &&& response == unit_reply(
                if before.account_metadata.contains_key((owner_id@, name@)) {
                    Ok(())
                } else {
                    Err(Error::MetadataNotFound)
                },
            )
            &&& after == (StoreModel {
                account_metadata: before.account_metadata.remove((owner_id@, name@)),
                ..before
            })
        },
        TransactionRequest::GetVertexMetadata { query, name } => {
            &&& after == before
            &&& response matches TransactionResponse::Metadata(Metadata::OfVertices(found))
            &&& found.wf()
            &&& found@ == metadata_found(
                before.vertex_metadata,
                ids_of(vertices_of(before, query)),
                name@,
            )
        },
        TransactionRequest::SetVertexMetadata { query, name, value } => {
            &&& response == TransactionResponse::Okay(true)
            &&& after == (StoreModel {
                vertex_metadata: metadata_written(
                    before.vertex_metadata,
                    ids_of(vertices_of(before, query)),
                    name@,
                    value@,
                ),
                ..before
            })
        },
        TransactionRequest::DeleteVertexMetadata { query, name } => {
            &&& response == TransactionResponse::Okay(true)
            &&& after == (StoreModel {
                vertex_metadata: metadata_erased(
                    before.vertex_metadata,
                    ids_of(vertices_of(before, query)),
                    name@,
                ),
                ..before
            })
        },
        TransactionRequest::GetEdgeMetadata { query, name } => {
            &&& after == before
            &&& response matches TransactionResponse::Metadata(Metadata::OfEdges(found))
            &&& found.wf()
            &&& found@ == metadata_found(
                before.edge_metadata,
                keys_of(edges_of(before, query)),
                name@,
            )
        },
        TransactionRequest::SetEdgeMetadata { query, name, value } => {
            &&& response == TransactionResponse::Okay(true)
            &&& after == (StoreModel {
                edge_metadata: metadata_written(
                    before.edge_metadata,
                    keys_of(edges_of(before, query)),
                    name@,
                    value@,
                ),
                ..before
            })
        },
        TransactionRequest::DeleteEdgeMetadata { query, name } => {
            &&& response == TransactionResponse::Okay(true)
            &&& after == (StoreModel {
                edge_metadata: metadata_erased(
                    before.edge_metadata,
                    keys_of(edges_of(before, query)),
                    name@,
                ),
                ..before
            })
        },
    }
}

/// The reply to an operation that hands nothing out.
pub fn reply_to_unit(r: Result<(), Error>) -> (response: TransactionResponse)
    ensures
        response == unit_reply(r),
{
    match r {
        Ok(_) => TransactionResponse::Okay(true),
        Err(e) => TransactionResponse::Error(e),
    }
}

/// The reply to a request for one metadata value.
pub fn reply_to_value(r: Result<JsonValue, Error>) -> (response: TransactionResponse)
    ensures
        match r {
            Ok(value) => response matches TransactionResponse::Metadata(Metadata::Value(sent))
                && sent@ == value@,
            Err(e) => response == TransactionResponse::Error(e),
        },
{
    match r {
        Ok(value) => TransactionResponse::Metadata(Metadata::Value(value)),
        Err(e) => TransactionResponse::Error(e),
    }
}

/// Counts the edges at one end of a vertex. `id` and `direction` are what
/// the request was read as: where either could not be read, the request is
/// out of range.
pub fn count_edges_at(
    transaction: &MemoryTransaction,
    datastore: &MemoryDatastore,
    id: Option<Uuid>,
    type_filter: Option<Type>,
    direction: Option<EdgeDirection>,
) -> (response: TransactionResponse)
    requires
        datastore.wf(),
    ensures
        match (id, direction) {
            (Some(vertex), Some(end)) => {
                &&& response matches TransactionResponse::Count(n)
                &&& n == edges_at_vertex(datastore@, vertex@, type_filter, end).len()
            },
            _ => response == TransactionResponse::Error(Error::OutOfRange),
        },
{
    match (id, direction) {
        (Some(vertex), Some(end)) => {
            let mut ids: Vec<Uuid> = Vec::new();
            ids.push(vertex);
            proof {
                assert(ids_model(ids@) =~= seq![vertex@]);
            }
            let query = EdgeQuery::Pipe {
                vertex_query: Box::new(VertexQuery::Vertices { ids }),
                converter: end.converter(),
                type_filter,
                high_filter: None,
                low_filter: None,
                limit: 0xffff_ffffu32,
            };
            proof {
                assert(edges_of(datastore@, query) == edges_at_vertex(
                    datastore@,
                    vertex@,
                    type_filter,
                    end,
                ));
            }
            match transaction.get_edge_count(datastore, query) {
                Ok(n) => TransactionResponse::Count(n),
                Err(e) => TransactionResponse::Error(e),
            }
        },
        _ => TransactionResponse::Error(Error::OutOfRange),
    }
}

/// Carries out one request in the name of the account of `transaction`
/// and makes the reply. A request that fails is answered with the failure.
pub fn respond(
    transaction: &MemoryTransaction,
    datastore: &mut MemoryDatastore,
    request: TransactionRequest,
) -> (response: TransactionResponse)
    requires
        old(datastore).wf(),
    ensures
        final(datastore).wf(),
        answers(old(datastore)@, transaction.account(), request, final(datastore)@, response),
{
    match request {
        TransactionRequest::CreateVertex { vertex } => {
            match transaction.create_vertex_from(datastore, vertex) {
                Ok(created) => TransactionResponse::Okay(created),
                Err(e) => TransactionResponse::Error(e),
            }
        },
        TransactionRequest::CreateVertexFromType { t } => {
            match transaction.create_vertex(datastore, t) {
                Ok(id) => TransactionResponse::Uuid(id.to_hyphenated_string()),
                Err(e) => TransactionResponse::Error(e),
            }
        },
        TransactionRequest::GetVertices { query } => {
            match transaction.get_vertices(datastore, query) {
                Ok(found) => TransactionResponse::Vertices(found),
                Err(e) => TransactionResponse::Error(e),
            }
        },
        TransactionRequest::DeleteVertices { query } => reply_to_unit(
            transaction.delete_vertices(datastore, query),
        ),
        TransactionRequest::GetVertexCount => {
            match transaction.get_vertex_count(datastore) {
                Ok(n) => TransactionResponse::Count(n),
                Err(e) => TransactionResponse::Error(e),
            }
        },
        TransactionRequest::CreateEdge { key, weight } => reply_to_unit(
            transaction.create_edge(datastore, key, weight),
        ),
        TransactionRequest::GetEdges { query } => {
            match transaction.get_edges(datastore, query) {
                Ok(found) => TransactionResponse::Edges(found),
                Err(e) => TransactionResponse::Error(e),
            }
        },
        TransactionRequest::DeleteEdges { query } => reply_to_unit(
            transaction.delete_anchored_edges(datastore, query),
        ),
        TransactionRequest::GetEdgeCount { id, type_filter, direction } => {
            let vertex = match Uuid::parse_str(id.as_str()) {
                Ok(found) => Some(found),
                Err(_) => None,
            };
            let end = EdgeDirection::from_text(&direction);
            count_edges_at(transaction, datastore, vertex, type_filter, end)
        },
        TransactionRequest::GetGlobalMetadata { name } => reply_to_value(
            transaction.get_global_metadata(datastore, name),
        ),
        TransactionRequest::SetGlobalMetadata { name, value } => reply_to_unit(
            transaction.set_global_metadata(datastore, name, value),
        ),
        TransactionRequest::DeleteGlobalMetadata { name } => reply_to_unit(
            transaction.delete_global_metadata(datastore, name),
        ),
        TransactionRequest::GetAccountMetadata { owner_id, name } => reply_to_value(
            transaction.get_account_metadata(datastore, owner_id, name),
        ),
        TransactionRequest::SetAccountMetadata { owner_id, name, value } => reply_to_unit(
            transaction.set_account_metadata(datastore, owner_id, name, value),
        ),
        TransactionRequest::DeleteAccountMetadata { owner_id, name } => reply_to_unit(
            transaction.delete_account_metadata(datastore, owner_id, name),
        ),
        TransactionRequest::GetVertexMetadata { query, name } => {
            match transaction.get_vertex_metadata(datastore, query, name) {
                Ok(found) => TransactionResponse::Metadata(Metadata::OfVertices(found)),
                Err(e) => TransactionResponse::Error(e),
            }
        },
        TransactionRequest::SetVertexMetadata { query, name, value } => reply_to_unit(
            transaction.set_vertex_metadata(datastore, query, name, value),
        ),
        TransactionRequest::DeleteVertexMetadata { query, name } => reply_to_unit(
            transaction.delete_vertex_metadata(datastore, query, name),
        ),
        TransactionRequest::GetEdgeMetadata { query, name } => {
            match transaction.get_edge_metadata(datastore, query, name) {
                Ok(found) => TransactionResponse::Metadata(Metadata::OfEdges(found)),
                Err(e) => TransactionResponse::Error(e),
            }
        },
        TransactionRequest::SetEdgeMetadata { query, name, value } => reply_to_unit(
            transaction.set_edge_metadata(datastore, query, name, value),
        ),
        TransactionRequest::DeleteEdgeMetadata { query, name } => reply_to_unit(
            transaction.delete_edge_metadata(datastore, query, name),
        ),
    }
}

/// Whether a session that acts for `account` and starts on the store
/// `start` passes through `states` and makes `responses` as it carries out
/// `requests` one after the other: each reply answers the request at its
/// place, on the store that the requests before it left.
pub open spec fn session_runs(
    start: StoreModel,
    account: u128,
    requests: Seq<TransactionRequest>,
    states: Seq<StoreModel>,
    responses: Seq<TransactionResponse>,
) -> bool {
    &&& states.len() == requests.len() + 1
    &&& responses.len() == requests.len()
    &&& states[0] == start
    &&& forall|i: int|
        #![trigger responses[i]]
        0 <= i < requests.len() ==> answers(
            states[i],
            account,
            requests[i],
            states[i + 1],
            responses[i],
        )
}

/// Carries out the requests of a session one after the other and makes one
/// reply for each, in the order of the requests. A request that fails is
/// answered with the failure, and the session goes on with the next one.
pub fn serve(
    transaction: &MemoryTransaction,
    datastore: &mut MemoryDatastore,
    requests: Vec<TransactionRequest>,
) -> (responses: Vec<TransactionResponse>)
    requires
        old(datastore).wf(),
    ensures
        final(datastore).wf(),
        responses@.len() == requests@.len(),
        exists|states: Seq<StoreModel>|
            #![trigger states.last()]
            session_runs(old(datastore)@, transaction.account(), requests@, states, responses@)
                && states.last() == final(datastore)@,
{
    let ghost asked = requests@;
    let ghost start = datastore@;
    let mut waiting = requests;
    let mut turned: Vec<TransactionRequest> = Vec::new();
    while waiting.len() > 0
        invariant
            waiting@.len() + turned@.len() == asked.len(),
            forall|i: int| 0 <= i < waiting@.len() ==> waiting@[i] == asked[i],
            forall|i: int|
                0 <= i < turned@.len() ==> turned@[i] == asked[asked.len() - 1 - i],
        decreases waiting@.len(),
    {
        match waiting.pop() {
            Some(request) => {
                turned.push(request);
            },
            None => {},
        }
    }
    let mut responses: Vec<TransactionResponse> = Vec::new();
    let ghost mut states: Seq<StoreModel> = seq![start];
    while turned.len() > 0
        invariant
            datastore.wf(),
            turned@.len() + responses@.len() == asked.len(),
            forall|i: int|
                0 <= i < turned@.len() ==> turned@[i] == asked[asked.len() - 1 - i],
            states.len() == responses@.len() + 1,
            states[0] == start,
            states.last() == datastore@,
            forall|i: int|
                #![trigger responses@[i]]
                0 <= i < responses@.len() ==> answers(
                    states[i],
                    transaction.account(),
                    asked[i],
                    states[i + 1],
                    responses@[i],
                ),
        decreases turned@.len(),
    {
        let ghost done = responses@;
        let ghost passed = states;
        match turned.pop() {
            Some(request) => {
                let response = respond(transaction, datastore, request);
                responses.push(response);
                proof {
                    states = passed.push(datastore@);
                    assert(request == asked[done.len() as int]);
                    assert forall|i: int|
                        #![trigger responses@[i]]
                        0 <= i < responses@.len() implies answers(
                        states[i],
                        transaction.account(),
                        asked[i],
                        states[i + 1],
                        responses@[i],
                    ) by {
                        if i < done.len() {
                            assert(responses@[i] == done[i]);
                            assert(states[i] == passed[i]);
                            assert(states[i + 1] == passed[i + 1]);
                        }
                    }
                }
            },
            None => {},
        }
    }
    proof {
        assert(session_runs(start, transaction.account(), asked, states, responses@));
    }
    responses
}

/// A reply that reports a failure leaves the store as it was.
pub proof fn law_failed_request_changes_nothing(
    before: StoreModel,
    account: u128,
    request: TransactionRequest,
    after: StoreModel,
    response: TransactionResponse,
)
    requires
        answers(before, account, request, after, response),
        response is Error,
    ensures
        after == before,
{
    match request {
        TransactionRequest::DeleteGlobalMetadata { name } => {
            assert(before.global_metadata.remove(name@) =~= before.global_metadata);
        },
        TransactionRequest::DeleteAccountMetadata { owner_id, name } => {
            assert(before.account_metadata.remove((owner_id@, name@)) =~= before.account_metadata);
        },
        _ => {},
    }
}

/// In a session the reply at each place answers the request at that place,
/// whatever the replies before it were: after a request that failed, the
/// next request is answered on the store that the failed one found.
pub proof fn law_session_goes_on_after_failure(
    start: StoreModel,
    account: u128,
    requests: Seq<TransactionRequest>,
    states: Seq<StoreModel>,
    responses: Seq<TransactionResponse>,
    i: int,
)
    requires
        session_runs(start, account, requests, states, responses),
        0 <= i < requests.len(),
        responses[i] is Error,
    ensures
        states[i + 1] == states[i],
        i + 1 < requests.len() ==> answers(
            states[i],
            account,
            requests[i + 1],
            states[i + 2],
            responses[i + 1],
        ),
{
    law_failed_request_changes_nothing(
        states[i],
        account,
        requests[i],
        states[i + 1],
        responses[i],
    );
    if i + 1 < requests.len() {
        assert(answers(states[i + 1], account, requests[i + 1], states[i + 2], responses[i + 1]));
    }
}

/// What a client that asked for a flag reads from a reply.
pub open spec fn flag_of_reply(response: TransactionResponse) -> Result<bool, Error> {
    match response {
        TransactionResponse::Okay(flag) => Ok(flag),
        TransactionResponse::Error(e) => Err(e),
        _ => Err(Error::Decode),
    }
}

/// What a client that asked for an identifier reads from a reply.
pub open spec fn uuid_of_reply(response: TransactionResponse) -> Result<Uuid, Error> {
    match response {
        TransactionResponse::Uuid(text) => match parsed_uuid(text@) {
            Some(id) => Ok(Uuid(id)),
            None => Err(Error::Decode),
        },
        TransactionResponse::Error(e) => Err(e),
        _ => Err(Error::Decode),
    }
}

/// What a client that asked for a count reads from a reply.
pub open spec fn count_of_reply(response: TransactionResponse) -> Result<u64, Error> {
    match response {
        TransactionResponse::Count(n) => Ok(n),
        TransactionResponse::Error(e) => Err(e),
        _ => Err(Error::Decode),
    }
}

/// Tells a reply that reports a failure from every other reply.
pub fn check_response(response: TransactionResponse) -> (r: Result<TransactionResponse, Error>)
    ensures
        match response {
            TransactionResponse::Error(e) => r == Err::<TransactionResponse, Error>(e),
            _ => r == Ok::<TransactionResponse, Error>(response),
        },
{
    match response {
        TransactionResponse::Error(e) => Err(e),
        other => Ok(other),
    }
}

/// How one exchange on the channel of a session ends for the client.
/// `sent` says whether the channel took the request, `received` is the
/// reply that came back, or nothing where the channel was closed. A channel
/// that fails ends the exchange with `Transport`; a reply that reports a
/// failure ends it with that failure.
pub fn conclude_exchange(sent: bool, received: Option<TransactionResponse>) -> (r: Result<
    TransactionResponse,
    Error,
>)
    ensures
        match (sent, received) {
            (true, Some(TransactionResponse::Error(e))) => r == Err::<TransactionResponse, Error>(
                e,
            ),
            (true, Some(response)) => r == Ok::<TransactionResponse, Error>(response),
            _ => r == Err::<TransactionResponse, Error>(Error::Transport),
        },
{
    if !sent {
        return Err(Error::Transport);
    }
    match received {
        Some(response) => check_response(response),
        None => Err(Error::Transport),
    }
}

/// Reads the reply to a request that is answered with a flag.
pub fn expect_ok(response: TransactionResponse) -> (r: Result<bool, Error>)
    ensures
        r == flag_of_reply(response),
{
    match response {
        TransactionResponse::Okay(flag) => Ok(flag),
        TransactionResponse::Error(e) => Err(e),
        _ => Err(Error::Decode),
    }
}

/// Reads the reply to a request that hands nothing out: every reply but a
/// failure will do.
pub fn expect_done(response: TransactionResponse) -> (r: Result<(), Error>)
    ensures
        match response {
            TransactionResponse::Error(e) => r == Err::<(), Error>(e),
            _ => r == Ok::<(), Error>(()),
        },
{
    match response {
        TransactionResponse::Error(e) => Err(e),
        _ => Ok(()),
    }
}

/// Reads the reply to a request that is answered with an identifier.
pub fn expect_uuid(response: TransactionResponse) -> (r: Result<Uuid, Error>)
    ensures
        r == uuid_of_reply(response),
{
    match response {
        TransactionResponse::Uuid(text) => Uuid::parse_str(text.as_str()),
        TransactionResponse::Error(e) => Err(e),
        _ => Err(Error::Decode),
    }
}

/// Reads the reply to a request that is answered with a count.
pub fn expect_count(response: TransactionResponse) -> (r: Result<u64, Error>)
    ensures
        r == count_of_reply(response),
{
    match response {
        TransactionResponse::Count(n) => Ok(n),
        TransactionResponse::Error(e) => Err(e),
        _ => Err(Error::Decode),
    }
}

/// Reads the reply to a request that is answered with vertices.
pub fn expect_vertices(response: TransactionResponse) -> (r: Result<Vec<Vertex>, Error>)
    ensures
        match response {
            TransactionResponse::Vertices(found) => r == Ok::<Vec<Vertex>, Error>(found),
            TransactionResponse::Error(e) => r == Err::<Vec<Vertex>, Error>(e),
            _ => r == Err::<Vec<Vertex>, Error>(Error::Decode),
        },
{
    match response {
        TransactionResponse::Vertices(found) => Ok(found),
        TransactionResponse::Error(e) => Err(e),
        _ => Err(Error::Decode),
    }
}

/// Reads the reply to a request that is answered with edges.
pub fn expect_edges(response: TransactionResponse) -> (r: Result<Vec<Edge>, Error>)
    ensures
        match response {
            TransactionResponse::Edges(found) => r == Ok::<Vec<Edge>, Error>(found),
            TransactionResponse::Error(e) => r == Err::<Vec<Edge>, Error>(e),
            _ => r == Err::<Vec<Edge>, Error>(Error::Decode),
        },
{
    match response {
        TransactionResponse::Edges(found) => Ok(found),
        TransactionResponse::Error(e) => Err(e),
        _ => Err(Error::Decode),
    }
}

/// The request for the number of edges at one end of a vertex. The
/// identifier goes out as a hyphenated text and the direction as its word.
pub fn edge_count_request(id: Uuid, type_filter: Option<Type>, direction: EdgeDirection) -> (request:
    TransactionRequest)
    ensures
        request matches TransactionRequest::GetEdgeCount { id: sent, type_filter: filter, direction: word }
            && sent@ == hyphenated_text(id@) && parsed_uuid(sent@) == Some(id@) && filter
            == type_filter && word@ == direction_text(direction) && parsed_direction(word@)
            == Some(direction),
{
    TransactionRequest::GetEdgeCount {
        id: id.to_hyphenated_string(),
        type_filter,
        direction: direction.to_text(),
    }
}

/// The identifier that a session hands out for a new vertex reads back, at
/// the client, as the identifier under which the store holds the vertex.
pub proof fn law_created_vertex_is_announced(
    before: StoreModel,
    account: u128,
    t: Type,
    after: StoreModel,
    response: TransactionResponse,
)
    requires
        answers(before, account, TransactionRequest::CreateVertexFromType { t }, after, response),
    ensures
        uuid_of_reply(response) is Ok,
        after.vertices.contains_key(uuid_of_reply(response)->Ok_0@),
        after.vertices[uuid_of_reply(response)->Ok_0@] == (VertexValueModel {
            owner_id: account,
            t: t@,
        }),
{
}

/// The count that a session hands out for the request that
/// `edge_count_request` makes is the number of edges at that end of the
/// vertex.
pub proof fn law_edge_count_is_announced(
    before: StoreModel,
    account: u128,
    request: TransactionRequest,
    id: u128,
    direction: EdgeDirection,
    after: StoreModel,
    response: TransactionResponse,
)
    requires
        request matches TransactionRequest::GetEdgeCount { id: sent, type_filter, direction: word }
            && parsed_uuid(sent@) == Some(id) && parsed_direction(word@) == Some(direction),
        answers(before, account, request, after, response),
    ensures
        count_of_reply(response) is Ok,
        count_of_reply(response)->Ok_0 == edges_at_vertex(
            before,
            id,
            request->type_filter,
            direction,
        ).len(),
{
}

/// How often a client asks a server that it has started whether it is
/// ready, before it gives up.
pub const STARTUP_ATTEMPTS: u32 = 5;

/// What a client does after it asked a server whether it is ready.
#[derive(Clone, Copy, PartialEq, Eq, Debug, Structural)]
pub enum StartupStep {
    /// The server is ready.
    Ready,
    /// Wait and ask once more.
    Retry,
    /// The server did not come up.
    GiveUp,
}

/// What a client does after its attempt number `attempts_made` to ask the
/// server whether it is ready. `pinged` is the answer, or nothing where the
/// call failed.
pub fn startup_step(attempts_made: u32, pinged: Option<bool>) -> (step: StartupStep)
    ensures
        step == if pinged == Some(true) {
            StartupStep::Ready
        } else if attempts_made < STARTUP_ATTEMPTS {
            StartupStep::Retry
        } else {
            StartupStep::GiveUp
        },
{
    match pinged {
        Some(true) => StartupStep::Ready,
        _ => if attempts_made < STARTUP_ATTEMPTS {
            StartupStep::Retry
        } else {
            StartupStep::GiveUp
        },
    }
}

/// The answer of a server that is ready to the question whether it is.
pub fn ping() -> (ok: bool)
    ensures
        ok,
{
    true
}

} // verus!
