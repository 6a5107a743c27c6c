use indradb::errors::Error;
use indradb::memory::datastore::MemoryDatastore;
use indradb::models::{Edge, EdgeKey, JsonValue, Type, Uuid, Vertex, Weight};
use indradb::queries::{EdgeQuery, QueryTypeConverter, VertexQuery};

fn tag(text: &str) -> Type {
    Type::new(text.to_string()).unwrap()
}

fn weight(value: f32) -> Weight {
    Weight::new(value.to_bits()).unwrap()
}

#[test]
fn account_is_authenticated_by_its_secret_only() {
    let mut datastore = MemoryDatastore::new(false);
    let (id, secret) = datastore.create_account().unwrap();
    assert_eq!(datastore.auth(id, secret.clone()), Ok(true));
    assert_eq!(datastore.auth(id, String::new()), Ok(false));
    assert_eq!(datastore.auth(Uuid::nil(), String::new()), Ok(false));
    assert_eq!(datastore.has_account(id), Ok(true));
    assert_eq!(secret.len(), 32);
    assert!(secret.chars().all(|c| c.is_ascii_alphanumeric()));
}

#[test]
fn default_account_has_the_empty_secret() {
    let datastore = MemoryDatastore::new(true);
    assert_eq!(datastore.auth(Uuid::nil(), String::new()), Ok(true));
    assert_eq!(datastore.has_account(Uuid::nil()), Ok(true));
    assert_eq!(datastore.auth(Uuid::nil(), "x".to_string()), Ok(false));
}

#[test]
fn deleted_account_is_gone() {
    let mut datastore = MemoryDatastore::new(false);
    let (id, secret) = datastore.create_account().unwrap();
    assert_eq!(datastore.delete_account(id), Ok(()));
    assert_eq!(datastore.delete_account(id), Err(Error::AccountNotFound));
    assert_eq!(datastore.auth(id, secret), Ok(false));
    assert_eq!(datastore.has_account(id), Ok(false));
}

#[test]
fn created_vertices_come_back_in_ascending_order() {
    let mut datastore = MemoryDatastore::new(false);
    let (account, _) = datastore.create_account().unwrap();
    let txn = datastore.transaction(account).unwrap();
    let v1 = txn.create_vertex(&mut datastore, tag("person")).unwrap();
    let v2 = txn.create_vertex(&mut datastore, tag("person")).unwrap();
    let mut expected = vec![v1, v2];
    expected.sort();
    let found = txn
        .get_vertices(&datastore, VertexQuery::All { start_id: None, limit: 10 })
        .unwrap();
    assert_eq!(
        found,
        vec![Vertex::new(expected[0], tag("person")), Vertex::new(expected[1], tag("person"))]
    );
    assert_eq!(v1.0 >> 64, account.0 >> 64);
    assert_eq!(v2.0 >> 64, account.0 >> 64);
}

#[test]
fn created_edge_is_counted_at_its_start_only() {
    let mut datastore = MemoryDatastore::new(true);
    let txn = datastore.transaction(Uuid::nil()).unwrap();
    let v1 = txn.create_vertex(&mut datastore, tag("person")).unwrap();
    let v2 = txn.create_vertex(&mut datastore, tag("person")).unwrap();
    let key = EdgeKey::new(v1, tag("knows"), v2);
    assert_eq!(txn.create_edge(&mut datastore, key.clone(), weight(0.5)), Ok(()));
    let from_v1 = VertexQuery::Vertices { ids: vec![v1] }.outbound_edges(None, None, None, 10);
    assert_eq!(txn.get_edge_count(&datastore, from_v1), Ok(1));
    let from_v2 = VertexQuery::Vertices { ids: vec![v2] }.outbound_edges(None, None, None, 10);
    assert_eq!(txn.get_edges(&datastore, from_v2), Ok(Vec::<Edge>::new()));
    let found = txn.get_edges(&datastore, EdgeQuery::Edges { keys: vec![key.clone()] }).unwrap();
    assert_eq!(found.len(), 1);
    assert_eq!(found[0].key, key);
    assert_eq!(found[0].weight, weight(0.5));
}

#[test]
fn edge_needs_both_ends_and_the_owner() {
    let mut datastore = MemoryDatastore::new(false);
    let (a, _) = datastore.create_account().unwrap();
    let (b, _) = datastore.create_account().unwrap();
    let txn_a = datastore.transaction(a).unwrap();
    let txn_b = datastore.transaction(b).unwrap();
    let v1 = txn_a.create_vertex(&mut datastore, tag("person")).unwrap();
    let v2 = txn_a.create_vertex(&mut datastore, tag("person")).unwrap();
    let missing = Uuid(7);
    assert_eq!(
        txn_a.create_edge(&mut datastore, EdgeKey::new(missing, tag("t"), v2), weight(0.1)),
        Err(Error::VertexNotFound)
    );
    assert_eq!(
        txn_a.create_edge(&mut datastore, EdgeKey::new(v1, tag("t"), missing), weight(0.1)),
        Err(Error::VertexNotFound)
    );
    assert_eq!(
        txn_b.create_edge(&mut datastore, EdgeKey::new(v1, tag("t"), v2), weight(0.1)),
        Err(Error::Unauthorized)
    );
    assert_eq!(
        txn_a.get_edge_count(
            &datastore,
            VertexQuery::All { start_id: None, limit: 10 }.outbound_edges(None, None, None, 10)
        ),
        Ok(0)
    );
}

#[test]
fn global_metadata_is_set_read_and_deleted() {
    let mut datastore = MemoryDatastore::new(true);
    let txn = datastore.transaction(Uuid::nil()).unwrap();
    let value: serde_json::Value = serde_json::from_str("{\"a\":1}").unwrap();
    assert_eq!(
        txn.set_global_metadata(&mut datastore, "k".to_string(), JsonValue(value.clone())),
        Ok(())
    );
    assert_eq!(txn.get_global_metadata(&datastore, "k".to_string()), Ok(JsonValue(value)));
    assert_eq!(txn.delete_global_metadata(&mut datastore, "k".to_string()), Ok(()));
    assert_eq!(
        txn.get_global_metadata(&datastore, "k".to_string()),
        Err(Error::MetadataNotFound)
    );
    assert_eq!(
        txn.delete_global_metadata(&mut datastore, "k".to_string()),
        Err(Error::MetadataNotFound)
    );
}

#[test]
fn pipe_follows_the_converter() {
    let mut datastore = MemoryDatastore::new(true);
    let txn = datastore.transaction(Uuid::nil()).unwrap();
    let v1 = txn.create_vertex(&mut datastore, tag("a")).unwrap();
    let v2 = txn.create_vertex(&mut datastore, tag("b")).unwrap();
    assert_eq!(
        txn.create_edge(&mut datastore, EdgeKey::new(v1, tag("knows"), v2), weight(-1.0)),
        Ok(())
    );
    let ends = EdgeQuery::Pipe {
        vertex_query: Box::new(VertexQuery::Vertices { ids: vec![v2] }),
        converter: QueryTypeConverter::Inbound,
        type_filter: None,
        high_filter: None,
        low_filter: None,
        limit: 5,
    }
    .outbound_vertices(5);
    assert_eq!(txn.get_vertices(&datastore, ends), Ok(vec![Vertex::new(v1, tag("a"))]));
}

#[test]
fn account_identifier_is_a_random_identifier() {
    let mut datastore = MemoryDatastore::new(false);
    let (first, _) = datastore.create_account().unwrap();
    let (second, _) = datastore.create_account().unwrap();
    assert_ne!(first, second);
    for id in [first, second, indradb::util::parent_uuid()] {
        assert_eq!((id.0 >> 76) & 0xf, 4);
        assert_eq!((id.0 >> 62) & 0x3, 2);
    }
}
