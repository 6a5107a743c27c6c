use indradb::errors::Error;
use indradb::memory::datastore::MemoryDatastore;
use indradb::models::{Edge, EdgeKey, JsonValue, Type, Uuid, Vertex, Weight};
use indradb::queries::{EdgeQuery, VertexQuery};
use indradb::rpc::{
    check_response, conclude_exchange, count_edges_at, edge_count_request, expect_count,
    expect_done, expect_edges, expect_ok, expect_uuid, expect_vertices, ping, reply_to_unit,
    reply_to_value, respond, serve, startup_step, EdgeDirection, Metadata, StartupStep,
    TransactionRequest, TransactionResponse,
};

fn word(text: &str) -> Type {
    Type::new(text.to_string()).unwrap()
}

fn unit() -> Weight {
    Weight::new(1.0f32.to_bits()).unwrap()
}

fn everything() -> VertexQuery {
    VertexQuery::All { start_id: None, limit: 100 }
}

#[test]
fn server_says_that_it_is_ready() {
    assert!(ping());
}

#[test]
fn client_asks_five_times_whether_the_server_is_ready() {
    assert_eq!(startup_step(1, Some(true)), StartupStep::Ready);
    assert_eq!(startup_step(5, Some(true)), StartupStep::Ready);
    assert_eq!(startup_step(1, None), StartupStep::Retry);
    assert_eq!(startup_step(4, Some(false)), StartupStep::Retry);
    assert_eq!(startup_step(5, Some(false)), StartupStep::GiveUp);
    assert_eq!(startup_step(5, None), StartupStep::GiveUp);
}

#[test]
fn session_replies_to_each_request_in_turn() {
    let mut datastore = MemoryDatastore::new(true);
    let txn = datastore.transaction(Uuid::nil()).unwrap();
    let requests = vec![
        TransactionRequest::CreateVertexFromType { t: word("x") },
        TransactionRequest::GetVertexCount,
        TransactionRequest::GetVertices { query: everything() },
    ];
    let mut responses = serve(&txn, &mut datastore, requests);
    assert_eq!(responses.len(), 3);
    let vertices = expect_vertices(responses.pop().unwrap()).unwrap();
    assert_eq!(expect_count(responses.pop().unwrap()), Ok(1));
    let id = expect_uuid(responses.pop().unwrap()).unwrap();
    assert_eq!(vertices, vec![Vertex::new(id, word("x"))]);
    let later = datastore.transaction(Uuid::nil()).unwrap();
    assert_eq!(expect_count(respond(&later, &mut datastore, TransactionRequest::GetVertexCount)), Ok(1));
}

#[test]
fn session_goes_on_after_a_request_that_failed() {
    let mut datastore = MemoryDatastore::new(true);
    let txn = datastore.transaction(Uuid::nil()).unwrap();
    let key = EdgeKey::new(Uuid(1), word("e"), Uuid(2));
    let requests = vec![
        TransactionRequest::CreateVertex { vertex: Vertex::new(Uuid(1), word("v")) },
        TransactionRequest::CreateEdge { key: key.clone(), weight: unit() },
        TransactionRequest::GetGlobalMetadata { name: "k".to_string() },
        TransactionRequest::CreateVertex { vertex: Vertex::new(Uuid(2), word("v")) },
        TransactionRequest::CreateEdge { key: key.clone(), weight: unit() },
        TransactionRequest::GetEdges { query: EdgeQuery::Edges { keys: vec![key.clone()] } },
        TransactionRequest::CreateVertex { vertex: Vertex::new(Uuid(2), word("w")) },
    ];
    let mut responses = serve(&txn, &mut datastore, requests);
    assert_eq!(responses.len(), 7);
    assert_eq!(expect_ok(responses.pop().unwrap()), Ok(false));
    let edges: Vec<Edge> = expect_edges(responses.pop().unwrap()).unwrap();
    assert_eq!(edges.len(), 1);
    assert_eq!(edges[0].key, key);
    assert_eq!(expect_ok(responses.pop().unwrap()), Ok(true));
    assert_eq!(expect_ok(responses.pop().unwrap()), Ok(true));
    assert!(matches!(responses.pop().unwrap(), TransactionResponse::Error(Error::MetadataNotFound)));
    assert_eq!(expect_ok(responses.pop().unwrap()), Err(Error::VertexNotFound));
    assert_eq!(expect_ok(responses.pop().unwrap()), Ok(true));
}

#[test]
fn session_refuses_what_the_caller_does_not_own() {
    let mut datastore = MemoryDatastore::new(false);
    let (a, _) = datastore.create_account().unwrap();
    let (b, _) = datastore.create_account().unwrap();
    let txn_a = datastore.transaction(a).unwrap();
    let txn_b = datastore.transaction(b).unwrap();
    for id in [1u128, 2] {
        let made = TransactionRequest::CreateVertex { vertex: Vertex::new(Uuid(id), word("v")) };
        assert_eq!(expect_ok(respond(&txn_a, &mut datastore, made)), Ok(true));
    }
    let key = EdgeKey::new(Uuid(1), word("e"), Uuid(2));
    let by_b = TransactionRequest::CreateEdge { key: key.clone(), weight: unit() };
    assert_eq!(expect_ok(respond(&txn_b, &mut datastore, by_b)), Err(Error::Unauthorized));
    let by_a = TransactionRequest::CreateEdge { key: key.clone(), weight: unit() };
    assert_eq!(expect_ok(respond(&txn_a, &mut datastore, by_a)), Ok(true));
    let delete = |q| TransactionRequest::DeleteVertices { query: q };
    assert_eq!(expect_done(respond(&txn_b, &mut datastore, delete(everything()))), Ok(()));
    assert_eq!(expect_count(respond(&txn_b, &mut datastore, TransactionRequest::GetVertexCount)), Ok(2));
    assert_eq!(expect_done(respond(&txn_a, &mut datastore, delete(everything()))), Ok(()));
    assert_eq!(expect_count(respond(&txn_b, &mut datastore, TransactionRequest::GetVertexCount)), Ok(0));
    let dangling = TransactionRequest::DeleteEdges { query: EdgeQuery::Edges { keys: vec![key] } };
    assert_eq!(expect_done(respond(&txn_a, &mut datastore, dangling)), Err(Error::VertexNotFound));
}

#[test]
fn edge_count_request_carries_text_and_is_counted_at_either_end() {
    let mut datastore = MemoryDatastore::new(true);
    let txn = datastore.transaction(Uuid::nil()).unwrap();
    for id in [1u128, 2] {
        let made = TransactionRequest::CreateVertex { vertex: Vertex::new(Uuid(id), word("v")) };
        assert_eq!(expect_ok(respond(&txn, &mut datastore, made)), Ok(true));
    }
    for t in ["a", "b"] {
        let made = TransactionRequest::CreateEdge {
            key: EdgeKey::new(Uuid(1), word(t), Uuid(2)),
            weight: unit(),
        };
        assert_eq!(expect_ok(respond(&txn, &mut datastore, made)), Ok(true));
    }
    let request = edge_count_request(Uuid(1), None, EdgeDirection::Outbound);
    assert_eq!(
        request,
        TransactionRequest::GetEdgeCount {
            id: "00000000-0000-0000-0000-000000000001".to_string(),
            type_filter: None,
            direction: "outbound".to_string(),
        }
    );
    assert_eq!(expect_count(respond(&txn, &mut datastore, request)), Ok(2));
    let tagged = edge_count_request(Uuid(2), Some(word("a")), EdgeDirection::Inbound);
    assert_eq!(expect_count(respond(&txn, &mut datastore, tagged)), Ok(1));
    let other_end = edge_count_request(Uuid(2), None, EdgeDirection::Outbound);
    assert_eq!(expect_count(respond(&txn, &mut datastore, other_end)), Ok(0));
    let absent = edge_count_request(Uuid(3), None, EdgeDirection::Inbound);
    assert_eq!(expect_count(respond(&txn, &mut datastore, absent)), Ok(0));
    let bad_id = TransactionRequest::GetEdgeCount {
        id: "one".to_string(),
        type_filter: None,
        direction: "inbound".to_string(),
    };
    assert_eq!(expect_count(respond(&txn, &mut datastore, bad_id)), Err(Error::OutOfRange));
    let bad_direction = TransactionRequest::GetEdgeCount {
        id: Uuid(1).to_hyphenated_string(),
        type_filter: None,
        direction: "Outbound".to_string(),
    };
    assert_eq!(expect_count(respond(&txn, &mut datastore, bad_direction)), Err(Error::OutOfRange));
    assert!(matches!(
        count_edges_at(&txn, &datastore, Some(Uuid(1)), None, Some(EdgeDirection::Outbound)),
        TransactionResponse::Count(2)
    ));
    assert!(matches!(
        count_edges_at(&txn, &datastore, None, None, Some(EdgeDirection::Outbound)),
        TransactionResponse::Error(Error::OutOfRange)
    ));
    assert!(matches!(
        count_edges_at(&txn, &datastore, Some(Uuid(1)), None, None),
        TransactionResponse::Error(Error::OutOfRange)
    ));
}

#[test]
fn direction_is_named_by_its_word() {
    assert_eq!(EdgeDirection::Outbound.to_text(), "outbound");
    assert_eq!(EdgeDirection::Inbound.to_text(), "inbound");
    assert_eq!(EdgeDirection::from_text(&"outbound".to_string()), Some(EdgeDirection::Outbound));
    assert_eq!(EdgeDirection::from_text(&"inbound".to_string()), Some(EdgeDirection::Inbound));
    assert_eq!(EdgeDirection::from_text(&"".to_string()), None);
    assert_eq!(EdgeDirection::from_text(&"inbound ".to_string()), None);
}

#[test]
fn session_carries_metadata() {
    let mut datastore = MemoryDatastore::new(true);
    let txn = datastore.transaction(Uuid::nil()).unwrap();
    let value = || JsonValue(serde_json::Value::from(7));
    let name = || "n".to_string();
    let made = TransactionRequest::CreateVertex { vertex: Vertex::new(Uuid(1), word("v")) };
    assert_eq!(expect_ok(respond(&txn, &mut datastore, made)), Ok(true));
    let set = TransactionRequest::SetGlobalMetadata { name: name(), value: value() };
    assert_eq!(expect_ok(respond(&txn, &mut datastore, set)), Ok(true));
    let get = TransactionRequest::GetGlobalMetadata { name: name() };
    match respond(&txn, &mut datastore, get) {
        TransactionResponse::Metadata(Metadata::Value(found)) => assert_eq!(found, value()),
        _ => panic!("a value was expected"),
    }
    let set = TransactionRequest::SetAccountMetadata { owner_id: Uuid(8), name: name(), value: value() };
    assert_eq!(expect_ok(respond(&txn, &mut datastore, set)), Err(Error::AccountNotFound));
    let set = TransactionRequest::SetVertexMetadata { query: everything(), name: name(), value: value() };
    assert_eq!(expect_ok(respond(&txn, &mut datastore, set)), Ok(true));
    let get = TransactionRequest::GetVertexMetadata { query: everything(), name: name() };
    match respond(&txn, &mut datastore, get) {
        TransactionResponse::Metadata(Metadata::OfVertices(found)) => {
            assert_eq!(found.len(), 1);
            assert_eq!(found.get(&Uuid(1)), Some(&value()));
        },
        _ => panic!("the metadata of vertices was expected"),
    }
    let delete = TransactionRequest::DeleteGlobalMetadata { name: name() };
    assert_eq!(expect_ok(respond(&txn, &mut datastore, delete)), Ok(true));
    let delete = TransactionRequest::DeleteGlobalMetadata { name: name() };
    assert_eq!(expect_ok(respond(&txn, &mut datastore, delete)), Err(Error::MetadataNotFound));
}

#[test]
fn client_reads_only_the_reply_it_asked_for() {
    assert_eq!(expect_ok(TransactionResponse::Count(1)), Err(Error::Decode));
    assert_eq!(expect_count(TransactionResponse::Okay(true)), Err(Error::Decode));
    assert_eq!(expect_uuid(TransactionResponse::Count(1)), Err(Error::Decode));
    assert_eq!(expect_uuid(TransactionResponse::Uuid("zz".to_string())), Err(Error::Decode));
    assert_eq!(
        expect_uuid(TransactionResponse::Uuid("00000000-0000-0000-0000-00000000000a".to_string())),
        Ok(Uuid(10))
    );
    assert_eq!(expect_vertices(TransactionResponse::Edges(vec![])), Err(Error::Decode));
    assert_eq!(expect_edges(TransactionResponse::Vertices(vec![])), Err(Error::Decode));
    assert_eq!(expect_edges(TransactionResponse::Error(Error::Unauthorized)), Err(Error::Unauthorized));
    assert_eq!(expect_done(TransactionResponse::Count(3)), Ok(()));
    assert_eq!(expect_done(TransactionResponse::Error(Error::NotImplemented)), Err(Error::NotImplemented));
    assert!(matches!(check_response(TransactionResponse::Okay(false)), Ok(TransactionResponse::Okay(false))));
    assert!(matches!(check_response(TransactionResponse::Error(Error::Decode)), Err(Error::Decode)));
    assert!(matches!(reply_to_unit(Ok(())), TransactionResponse::Okay(true)));
    assert!(matches!(reply_to_unit(Err(Error::OutOfRange)), TransactionResponse::Error(Error::OutOfRange)));
    assert!(matches!(
        reply_to_value(Err(Error::MetadataNotFound)),
        TransactionResponse::Error(Error::MetadataNotFound)
    ));
}

#[test]
fn closed_channel_ends_the_exchange_with_a_transport_failure() {
    assert!(matches!(conclude_exchange(false, None), Err(Error::Transport)));
    assert!(matches!(
        conclude_exchange(false, Some(TransactionResponse::Okay(true))),
        Err(Error::Transport)
    ));
    assert!(matches!(conclude_exchange(true, None), Err(Error::Transport)));
    assert!(matches!(
        conclude_exchange(true, Some(TransactionResponse::Error(Error::Unauthorized))),
        Err(Error::Unauthorized)
    ));
    assert!(matches!(
        conclude_exchange(true, Some(TransactionResponse::Count(4))),
        Ok(TransactionResponse::Count(4))
    ));
}
