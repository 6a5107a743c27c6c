use indradb::errors::Error;
use indradb::memory::datastore::MemoryDatastore;
use indradb::models::{Edge, EdgeKey, Timestamp, Type, Uuid, Vertex, Weight};
use indradb::queries::{EdgeQuery, QueryTypeConverter, VertexQuery};

fn label(text: &str) -> Type {
    Type::new(text.to_string()).unwrap()
}

fn light() -> Weight {
    Weight::new(0.25f32.to_bits()).unwrap()
}

fn everything() -> VertexQuery {
    VertexQuery::All { start_id: None, limit: 100 }
}

#[test]
fn created_vertex_is_found_under_its_identifier() {
    let mut datastore = MemoryDatastore::new(false);
    let (account, _) = datastore.create_account().unwrap();
    let txn = datastore.transaction(account).unwrap();
    let id = txn.create_vertex(&mut datastore, label("city")).unwrap();
    assert_eq!(
        txn.get_vertices(&datastore, VertexQuery::Vertices { ids: vec![id] }),
        Ok(vec![Vertex::new(id, label("city"))])
    );
}

#[test]
fn created_vertex_keeps_what_is_there_under_its_identifier() {
    let mut datastore = MemoryDatastore::new(true);
    let txn = datastore.transaction(Uuid::nil()).unwrap();
    assert_eq!(txn.create_vertex_from(&mut datastore, Vertex::new(Uuid(4), label("x"))), Ok(true));
    assert_eq!(txn.create_vertex_from(&mut datastore, Vertex::new(Uuid(4), label("y"))), Ok(false));
    assert_eq!(
        txn.get_vertices(&datastore, everything()),
        Ok(vec![Vertex::new(Uuid(4), label("x"))])
    );
    assert_eq!(txn.get_vertex_count(&datastore), Ok(1));
}

#[test]
fn created_edge_is_found_under_its_key_with_the_time_of_the_call() {
    let mut datastore = MemoryDatastore::new(true);
    let txn = datastore.transaction(Uuid::nil()).unwrap();
    let a = txn.create_vertex(&mut datastore, label("v")).unwrap();
    let b = txn.create_vertex(&mut datastore, label("v")).unwrap();
    let key = EdgeKey::new(a, label("road"), b);
    let before = std::time::SystemTime::now()
        .duration_since(std::time::UNIX_EPOCH)
        .unwrap()
        .as_secs() as i64;
    assert_eq!(txn.create_edge(&mut datastore, key.clone(), light()), Ok(()));
    let found = txn.get_edges(&datastore, EdgeQuery::Edges { keys: vec![key.clone()] }).unwrap();
    assert_eq!(found.len(), 1);
    assert_eq!(found[0].key, key);
    assert_eq!(found[0].weight.to_bits(), 0.25f32.to_bits());
    assert!((found[0].update_datetime.secs - before).abs() <= 1);
    assert!(found[0].update_datetime.nanos < 2_000_000_000);
}

#[test]
fn created_edge_replaces_weight_and_time() {
    let mut datastore = MemoryDatastore::new(true);
    let txn = datastore.transaction(Uuid::nil()).unwrap();
    assert_eq!(txn.create_vertex_from(&mut datastore, Vertex::new(Uuid(1), label("v"))), Ok(true));
    let key = EdgeKey::new(Uuid(1), label("loop"), Uuid(1));
    assert_eq!(
        txn.create_edge_at(&mut datastore, key.clone(), light(), Timestamp::new(1, 0)),
        Ok(())
    );
    let heavy = Weight::new(1.0f32.to_bits()).unwrap();
    assert_eq!(
        txn.create_edge_at(&mut datastore, key.clone(), heavy, Timestamp::new(2, 7)),
        Ok(())
    );
    assert_eq!(
        txn.get_edges(&datastore, EdgeQuery::Edges { keys: vec![key.clone()] }),
        Ok(vec![Edge::new(key, heavy, Timestamp::new(2, 7))])
    );
}

#[test]
fn delete_vertices_leaves_the_vertices_of_others() {
    let mut datastore = MemoryDatastore::new(false);
    let (a, _) = datastore.create_account().unwrap();
    let (b, _) = datastore.create_account().unwrap();
    let txn_a = datastore.transaction(a).unwrap();
    let txn_b = datastore.transaction(b).unwrap();
    assert_eq!(txn_a.create_vertex_from(&mut datastore, Vertex::new(Uuid(1), label("a"))), Ok(true));
    assert_eq!(txn_b.create_vertex_from(&mut datastore, Vertex::new(Uuid(2), label("b"))), Ok(true));
    assert_eq!(txn_a.create_vertex_from(&mut datastore, Vertex::new(Uuid(3), label("a"))), Ok(true));
    let wanted = || VertexQuery::Vertices { ids: vec![Uuid(1), Uuid(2), Uuid(9)] };
    assert_eq!(txn_a.delete_vertices(&mut datastore, wanted()), Ok(()));
    assert_eq!(txn_a.get_vertices(&datastore, wanted()), Ok(vec![Vertex::new(Uuid(2), label("b"))]));
    assert_eq!(
        txn_a.get_vertices(&datastore, everything()),
        Ok(vec![Vertex::new(Uuid(2), label("b")), Vertex::new(Uuid(3), label("a"))])
    );
}

#[test]
fn delete_vertices_of_a_limited_query_may_leave_owned_vertices_in_reach() {
    let mut datastore = MemoryDatastore::new(true);
    let txn = datastore.transaction(Uuid::nil()).unwrap();
    assert_eq!(txn.create_vertex_from(&mut datastore, Vertex::new(Uuid(1), label("a"))), Ok(true));
    assert_eq!(txn.create_vertex_from(&mut datastore, Vertex::new(Uuid(2), label("a"))), Ok(true));
    let first = || VertexQuery::All { start_id: None, limit: 1 };
    assert_eq!(txn.delete_vertices(&mut datastore, first()), Ok(()));
    assert_eq!(txn.get_vertices(&datastore, first()), Ok(vec![Vertex::new(Uuid(2), label("a"))]));
}

#[test]
fn delete_edges_takes_only_edges_that_start_at_own_vertices() {
    let mut datastore = MemoryDatastore::new(false);
    let (a, _) = datastore.create_account().unwrap();
    let (b, _) = datastore.create_account().unwrap();
    let txn_a = datastore.transaction(a).unwrap();
    let txn_b = datastore.transaction(b).unwrap();
    assert_eq!(txn_a.create_vertex_from(&mut datastore, Vertex::new(Uuid(1), label("a"))), Ok(true));
    assert_eq!(txn_b.create_vertex_from(&mut datastore, Vertex::new(Uuid(2), label("b"))), Ok(true));
    let from_a = EdgeKey::new(Uuid(1), label("e"), Uuid(2));
    let from_b = EdgeKey::new(Uuid(2), label("e"), Uuid(1));
    assert_eq!(txn_a.create_edge_at(&mut datastore, from_a.clone(), light(), Timestamp::new(1, 0)), Ok(()));
    assert_eq!(txn_b.create_edge_at(&mut datastore, from_b.clone(), light(), Timestamp::new(2, 0)), Ok(()));
    let both = || EdgeQuery::Edges { keys: vec![from_a.clone(), from_b.clone()] };
    assert_eq!(txn_a.delete_edges(&mut datastore, both()), Ok(()));
    assert_eq!(
        txn_a.get_edges(&datastore, both()),
        Ok(vec![Edge::new(from_b.clone(), light(), Timestamp::new(2, 0))])
    );
    assert_eq!(txn_b.delete_anchored_edges(&mut datastore, both()), Ok(()));
    assert_eq!(txn_b.get_edge_count(&datastore, both()), Ok(0));
}

#[test]
fn delete_anchored_edges_refuses_an_edge_without_its_start() {
    let mut datastore = MemoryDatastore::new(true);
    let txn = datastore.transaction(Uuid::nil()).unwrap();
    assert_eq!(txn.create_vertex_from(&mut datastore, Vertex::new(Uuid(1), label("a"))), Ok(true));
    assert_eq!(txn.create_vertex_from(&mut datastore, Vertex::new(Uuid(2), label("a"))), Ok(true));
    let key = EdgeKey::new(Uuid(1), label("e"), Uuid(2));
    assert_eq!(txn.create_edge_at(&mut datastore, key.clone(), light(), Timestamp::new(1, 0)), Ok(()));
    assert_eq!(txn.delete_vertices(&mut datastore, VertexQuery::Vertices { ids: vec![Uuid(1)] }), Ok(()));
    let q = || EdgeQuery::Edges { keys: vec![key.clone()] };
    assert_eq!(txn.delete_anchored_edges(&mut datastore, q()), Err(Error::VertexNotFound));
    assert_eq!(txn.get_edge_count(&datastore, q()), Ok(1));
    let dangling = EdgeQuery::Pipe {
        vertex_query: Box::new(VertexQuery::Vertices { ids: vec![Uuid(1)] }),
        converter: QueryTypeConverter::Outbound,
        type_filter: None,
        high_filter: None,
        low_filter: None,
        limit: 10,
    };
    assert_eq!(txn.get_edge_count(&datastore, dangling), Ok(0));
}

#[test]
fn commit_succeeds_and_rollback_is_not_implemented() {
    let datastore = MemoryDatastore::new(true);
    assert_eq!(datastore.transaction(Uuid::nil()).unwrap().commit(), Ok(()));
    assert_eq!(datastore.transaction(Uuid::nil()).unwrap().rollback(), Err(Error::NotImplemented));
    assert_eq!(datastore.transaction(Uuid(5)).unwrap().account_id(), Uuid(5));
}
