use indradb::errors::Error;
use indradb::memory::datastore::{MemoryDatastore, MemoryTransaction};
use indradb::models::{EdgeKey, JsonValue, Timestamp, Type, Uuid, Vertex, Weight};
use indradb::queries::{EdgeQuery, VertexQuery};

fn json(text: &str) -> JsonValue {
    JsonValue(serde_json::from_str(text).unwrap())
}

fn named(text: &str) -> String {
    text.to_string()
}

fn two_vertices_one_edge() -> (MemoryDatastore, MemoryTransaction, EdgeKey) {
    let mut datastore = MemoryDatastore::new(true);
    let txn = datastore.transaction(Uuid::nil()).unwrap();
    let t = || Type::new(named("v")).unwrap();
    assert_eq!(txn.create_vertex_from(&mut datastore, Vertex::new(Uuid(1), t())), Ok(true));
    assert_eq!(txn.create_vertex_from(&mut datastore, Vertex::new(Uuid(2), t())), Ok(true));
    let key = EdgeKey::new(Uuid(1), t(), Uuid(2));
    let weight = Weight::new(0.0f32.to_bits()).unwrap();
    assert_eq!(txn.create_edge_at(&mut datastore, key.clone(), weight, Timestamp::new(0, 0)), Ok(()));
    (datastore, txn, key)
}

#[test]
fn global_metadata_is_replaced_by_a_second_write() {
    let (mut datastore, txn, _) = two_vertices_one_edge();
    assert_eq!(txn.set_global_metadata(&mut datastore, named("k"), json("[1, 2]")), Ok(()));
    assert_eq!(txn.set_global_metadata(&mut datastore, named("k"), json("\"two\"")), Ok(()));
    assert_eq!(txn.get_global_metadata(&datastore, named("k")), Ok(json("\"two\"")));
    assert_eq!(txn.get_global_metadata(&datastore, named("K")), Err(Error::MetadataNotFound));
}

#[test]
fn account_metadata_needs_the_account() {
    let (mut datastore, txn, _) = two_vertices_one_edge();
    assert_eq!(
        txn.set_account_metadata(&mut datastore, Uuid(77), named("k"), json("1")),
        Err(Error::AccountNotFound)
    );
    assert_eq!(
        txn.get_account_metadata(&datastore, Uuid(77), named("k")),
        Err(Error::MetadataNotFound)
    );
    assert_eq!(txn.set_account_metadata(&mut datastore, Uuid::nil(), named("k"), json("{\"a\": null}")), Ok(()));
    assert_eq!(
        txn.get_account_metadata(&datastore, Uuid::nil(), named("k")),
        Ok(json("{\"a\": null}"))
    );
    assert_eq!(txn.get_account_metadata(&datastore, Uuid::nil(), named("other")), Err(Error::MetadataNotFound));
    assert_eq!(txn.delete_account_metadata(&mut datastore, Uuid::nil(), named("k")), Ok(()));
    assert_eq!(
        txn.delete_account_metadata(&mut datastore, Uuid::nil(), named("k")),
        Err(Error::MetadataNotFound)
    );
    assert_eq!(
        txn.get_account_metadata(&datastore, Uuid::nil(), named("k")),
        Err(Error::MetadataNotFound)
    );
}

#[test]
fn vertex_metadata_is_kept_for_each_vertex_of_the_query() {
    let (mut datastore, txn, _) = two_vertices_one_edge();
    let some = || VertexQuery::Vertices { ids: vec![Uuid(2), Uuid(9)] };
    let all = || VertexQuery::All { start_id: None, limit: 10 };
    assert_eq!(txn.set_vertex_metadata(&mut datastore, some(), named("color"), json("\"red\"")), Ok(()));
    let found = txn.get_vertex_metadata(&datastore, all(), named("color")).unwrap();
    assert_eq!(found.len(), 1);
    assert_eq!(found.get(&Uuid(2)), Some(&json("\"red\"")));
    assert_eq!(found.get(&Uuid(1)), None);
    assert_eq!(txn.get_vertex_metadata(&datastore, all(), named("size")).unwrap().len(), 0);
    assert_eq!(txn.set_vertex_metadata(&mut datastore, all(), named("color"), json("3")), Ok(()));
    let found = txn.get_vertex_metadata(&datastore, all(), named("color")).unwrap();
    assert_eq!(found.len(), 2);
    assert_eq!(found.get(&Uuid(1)), Some(&json("3")));
    assert_eq!(found.get(&Uuid(2)), Some(&json("3")));
    assert_eq!(txn.delete_vertex_metadata(&mut datastore, some(), named("color")), Ok(()));
    let found = txn.get_vertex_metadata(&datastore, all(), named("color")).unwrap();
    assert_eq!(found.len(), 1);
    assert_eq!(found.get(&Uuid(2)), None);
    assert_eq!(txn.delete_vertex_metadata(&mut datastore, some(), named("color")), Ok(()));
}

#[test]
fn edge_metadata_is_kept_for_each_edge_of_the_query() {
    let (mut datastore, txn, key) = two_vertices_one_edge();
    let absent = EdgeKey::new(Uuid(2), Type::new(named("v")).unwrap(), Uuid(1));
    let q = || EdgeQuery::Edges { keys: vec![key.clone(), absent.clone()] };
    assert_eq!(txn.set_edge_metadata(&mut datastore, q(), named("seen"), json("true")), Ok(()));
    let found = txn.get_edge_metadata(&datastore, q(), named("seen")).unwrap();
    assert_eq!(found.len(), 1);
    assert_eq!(found.get(&key.to_stored()), Some(&json("true")));
    assert_eq!(found.get(&absent.to_stored()), None);
    assert_eq!(txn.get_edge_metadata(&datastore, q(), named("other")).unwrap().len(), 0);
    assert_eq!(txn.delete_edge_metadata(&mut datastore, q(), named("seen")), Ok(()));
    assert_eq!(txn.get_edge_metadata(&datastore, q(), named("seen")).unwrap().len(), 0);
}

#[test]
fn metadata_is_open_to_every_account() {
    let mut datastore = MemoryDatastore::new(false);
    let (a, _) = datastore.create_account().unwrap();
    let (b, _) = datastore.create_account().unwrap();
    let txn_a = datastore.transaction(a).unwrap();
    let txn_b = datastore.transaction(b).unwrap();
    let id = txn_a.create_vertex(&mut datastore, Type::new(named("v")).unwrap()).unwrap();
    let q = || VertexQuery::Vertices { ids: vec![id] };
    assert_eq!(txn_b.set_vertex_metadata(&mut datastore, q(), named("k"), json("1")), Ok(()));
    assert_eq!(txn_a.get_vertex_metadata(&datastore, q(), named("k")).unwrap().get(&id), Some(&json("1")));
    assert_eq!(txn_b.set_account_metadata(&mut datastore, a, named("k"), json("2")), Ok(()));
    assert_eq!(txn_a.get_account_metadata(&datastore, a, named("k")), Ok(json("2")));
}
