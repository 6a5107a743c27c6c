use indradb::memory::datastore::{MemoryDatastore, MemoryTransaction};
use indradb::models::{Edge, EdgeKey, Timestamp, Type, Uuid, Vertex, Weight};
use indradb::queries::{EdgeQuery, QueryTypeConverter, VertexQuery};

fn kind(text: &str) -> Type {
    Type::new(text.to_string()).unwrap()
}

fn half() -> Weight {
    Weight::new(0.5f32.to_bits()).unwrap()
}

fn at(secs: i64) -> Timestamp {
    Timestamp::new(secs, 0)
}

/// Three vertices 1, 2, 3 of the account 0 and four edges written at the
/// seconds 10, 20, 30 and 40.
fn small_graph() -> (MemoryDatastore, MemoryTransaction) {
    let mut datastore = MemoryDatastore::new(true);
    let txn = datastore.transaction(Uuid::nil()).unwrap();
    for id in [1u128, 2, 3] {
        assert_eq!(txn.create_vertex_from(&mut datastore, Vertex::new(Uuid(id), kind("v"))), Ok(true));
    }
    let edges = [(2u128, "a", 1u128, 10i64), (1, "b", 2, 20), (1, "a", 2, 30), (1, "a", 3, 40)];
    for (from, t, to, secs) in edges {
        let key = EdgeKey::new(Uuid(from), kind(t), Uuid(to));
        assert_eq!(txn.create_edge_at(&mut datastore, key, half(), at(secs)), Ok(()));
    }
    (datastore, txn)
}

fn edge(from: u128, t: &str, to: u128, secs: i64) -> Edge {
    Edge::new(EdgeKey::new(Uuid(from), kind(t), Uuid(to)), half(), at(secs))
}

fn pipe(
    ids: Vec<u128>,
    converter: QueryTypeConverter,
    type_filter: Option<Type>,
    high_filter: Option<Timestamp>,
    low_filter: Option<Timestamp>,
    limit: u32,
) -> EdgeQuery {
    EdgeQuery::Pipe {
        vertex_query: Box::new(VertexQuery::Vertices { ids: ids.into_iter().map(Uuid).collect() }),
        converter,
        type_filter,
        high_filter,
        low_filter,
        limit,
    }
}

#[test]
fn all_vertices_start_at_the_given_identifier() {
    let (datastore, txn) = small_graph();
    let from_two = VertexQuery::All { start_id: Some(Uuid(2)), limit: 10 };
    assert_eq!(
        txn.get_vertices(&datastore, from_two),
        Ok(vec![Vertex::new(Uuid(2), kind("v")), Vertex::new(Uuid(3), kind("v"))])
    );
    let one_only = VertexQuery::All { start_id: None, limit: 1 };
    assert_eq!(txn.get_vertices(&datastore, one_only), Ok(vec![Vertex::new(Uuid(1), kind("v"))]));
    let past_the_end = VertexQuery::All { start_id: Some(Uuid(4)), limit: 10 };
    assert_eq!(txn.get_vertices(&datastore, past_the_end), Ok(vec![]));
}

#[test]
fn limit_zero_yields_nothing() {
    let (datastore, txn) = small_graph();
    assert_eq!(
        txn.get_vertices(&datastore, VertexQuery::All { start_id: None, limit: 0 }),
        Ok(vec![])
    );
    let outbound = pipe(vec![1, 2], QueryTypeConverter::Outbound, None, None, None, 0);
    assert_eq!(txn.get_edges(&datastore, outbound), Ok(vec![]));
    let inbound = pipe(vec![1, 2], QueryTypeConverter::Inbound, None, None, None, 0);
    assert_eq!(txn.get_edges(&datastore, inbound), Ok(vec![]));
    let none_followed = pipe(vec![1], QueryTypeConverter::Outbound, None, None, None, 10)
        .inbound_vertices(0);
    assert_eq!(txn.get_vertices(&datastore, none_followed), Ok(vec![]));
}

#[test]
fn missing_identifiers_are_skipped_and_order_is_kept() {
    let (datastore, txn) = small_graph();
    let q = VertexQuery::Vertices { ids: vec![Uuid(3), Uuid(9), Uuid(1), Uuid(3)] };
    assert_eq!(
        txn.get_vertices(&datastore, q),
        Ok(vec![
            Vertex::new(Uuid(3), kind("v")),
            Vertex::new(Uuid(1), kind("v")),
            Vertex::new(Uuid(3), kind("v")),
        ])
    );
    let keys = vec![
        EdgeKey::new(Uuid(1), kind("b"), Uuid(2)),
        EdgeKey::new(Uuid(1), kind("c"), Uuid(2)),
        EdgeKey::new(Uuid(2), kind("a"), Uuid(1)),
    ];
    assert_eq!(
        txn.get_edges(&datastore, EdgeQuery::Edges { keys }),
        Ok(vec![edge(1, "b", 2, 20), edge(2, "a", 1, 10)])
    );
}

#[test]
fn outbound_pipe_groups_by_source_then_by_key() {
    let (datastore, txn) = small_graph();
    let q = pipe(vec![2, 1], QueryTypeConverter::Outbound, None, None, None, 10);
    assert_eq!(
        txn.get_edges(&datastore, q),
        Ok(vec![edge(2, "a", 1, 10), edge(1, "a", 2, 30), edge(1, "a", 3, 40), edge(1, "b", 2, 20)])
    );
}

#[test]
fn outbound_pipe_stops_at_the_limit() {
    let (datastore, txn) = small_graph();
    let q = pipe(vec![2, 1], QueryTypeConverter::Outbound, None, None, None, 2);
    assert_eq!(txn.get_edges(&datastore, q), Ok(vec![edge(2, "a", 1, 10), edge(1, "a", 2, 30)]));
    let counted = pipe(vec![2, 1], QueryTypeConverter::Outbound, None, None, None, 3);
    assert_eq!(txn.get_edge_count(&datastore, counted), Ok(3));
}

#[test]
fn outbound_pipe_keeps_the_tag_and_the_time_window() {
    let (datastore, txn) = small_graph();
    let tagged = pipe(vec![1, 2], QueryTypeConverter::Outbound, Some(kind("a")), None, None, 10);
    assert_eq!(
        txn.get_edges(&datastore, tagged),
        Ok(vec![edge(1, "a", 2, 30), edge(1, "a", 3, 40), edge(2, "a", 1, 10)])
    );
    let early = pipe(vec![1], QueryTypeConverter::Outbound, None, Some(at(30)), None, 10);
    assert_eq!(txn.get_edges(&datastore, early), Ok(vec![edge(1, "a", 2, 30), edge(1, "b", 2, 20)]));
    let late = pipe(vec![1], QueryTypeConverter::Outbound, None, None, Some(at(30)), 10);
    assert_eq!(txn.get_edges(&datastore, late), Ok(vec![edge(1, "a", 2, 30), edge(1, "a", 3, 40)]));
    let window =
        pipe(vec![1], QueryTypeConverter::Outbound, Some(kind("a")), Some(at(35)), Some(at(25)), 10);
    assert_eq!(txn.get_edges(&datastore, window), Ok(vec![edge(1, "a", 2, 30)]));
    let none = pipe(vec![1], QueryTypeConverter::Outbound, Some(kind("c")), None, None, 10);
    assert_eq!(txn.get_edges(&datastore, none), Ok(vec![]));
}

#[test]
fn time_filters_look_at_the_nanoseconds_too() {
    let mut datastore = MemoryDatastore::new(true);
    let txn = datastore.transaction(Uuid::nil()).unwrap();
    assert_eq!(txn.create_vertex_from(&mut datastore, Vertex::new(Uuid(1), kind("v"))), Ok(true));
    let key = EdgeKey::new(Uuid(1), kind("a"), Uuid(1));
    assert_eq!(
        txn.create_edge_at(&mut datastore, key.clone(), half(), Timestamp::new(5, 500)),
        Ok(())
    );
    let upto = |nanos: u32| {
        pipe(vec![1], QueryTypeConverter::Outbound, None, Some(Timestamp::new(5, nanos)), None, 10)
    };
    assert_eq!(txn.get_edge_count(&datastore, upto(499)), Ok(0));
    assert_eq!(txn.get_edge_count(&datastore, upto(500)), Ok(1));
    let from = |nanos: u32| {
        pipe(vec![1], QueryTypeConverter::Inbound, None, None, Some(Timestamp::new(5, nanos)), 10)
    };
    assert_eq!(txn.get_edge_count(&datastore, from(500)), Ok(1));
    assert_eq!(txn.get_edge_count(&datastore, from(501)), Ok(0));
}

#[test]
fn inbound_pipe_is_in_key_order_whatever_the_input_order() {
    let (datastore, txn) = small_graph();
    let q = pipe(vec![2, 1], QueryTypeConverter::Inbound, None, None, None, 10);
    assert_eq!(
        txn.get_edges(&datastore, q),
        Ok(vec![edge(1, "a", 2, 30), edge(1, "b", 2, 20), edge(2, "a", 1, 10)])
    );
    let limited = pipe(vec![2, 1], QueryTypeConverter::Inbound, None, None, None, 2);
    assert_eq!(txn.get_edges(&datastore, limited), Ok(vec![edge(1, "a", 2, 30), edge(1, "b", 2, 20)]));
    let tagged = pipe(vec![2, 1], QueryTypeConverter::Inbound, Some(kind("a")), Some(at(20)), None, 10);
    assert_eq!(txn.get_edges(&datastore, tagged), Ok(vec![edge(2, "a", 1, 10)]));
}

#[test]
fn vertex_pipe_takes_the_first_edges_and_skips_absent_vertices() {
    let (mut datastore, txn) = small_graph();
    let targets = || {
        pipe(vec![1], QueryTypeConverter::Outbound, None, None, None, 10).inbound_vertices(2)
    };
    assert_eq!(
        txn.get_vertices(&datastore, targets()),
        Ok(vec![Vertex::new(Uuid(2), kind("v")), Vertex::new(Uuid(3), kind("v"))])
    );
    let sources = pipe(vec![1], QueryTypeConverter::Outbound, None, None, None, 10).outbound_vertices(5);
    assert_eq!(
        txn.get_vertices(&datastore, sources),
        Ok(vec![
            Vertex::new(Uuid(1), kind("v")),
            Vertex::new(Uuid(1), kind("v")),
            Vertex::new(Uuid(1), kind("v")),
        ])
    );
    assert_eq!(txn.delete_vertices(&mut datastore, VertexQuery::Vertices { ids: vec![Uuid(2)] }), Ok(()));
    assert_eq!(txn.get_vertices(&datastore, targets()), Ok(vec![Vertex::new(Uuid(3), kind("v"))]));
    let first_target =
        pipe(vec![1], QueryTypeConverter::Outbound, None, None, None, 10).inbound_vertices(1);
    assert_eq!(txn.get_vertices(&datastore, first_target), Ok(vec![]));
}

#[test]
fn empty_tag_bound_does_not_hide_short_tags() {
    let mut datastore = MemoryDatastore::new(true);
    let txn = datastore.transaction(Uuid::nil()).unwrap();
    assert_eq!(txn.create_vertex_from(&mut datastore, Vertex::new(Uuid(1), kind("v"))), Ok(true));
    for t in ["\u{0}", "A", "a", "ab", "\u{e9}"] {
        let key = EdgeKey::new(Uuid(1), kind(t), Uuid(1));
        assert_eq!(txn.create_edge_at(&mut datastore, key, half(), at(1)), Ok(()));
    }
    let q = pipe(vec![1], QueryTypeConverter::Outbound, None, None, None, 10);
    let found = txn.get_edges(&datastore, q).unwrap();
    let tags: Vec<String> = found.into_iter().map(|e| e.key.t.into_string()).collect();
    assert_eq!(tags, vec!["\u{0}", "A", "a", "ab", "\u{e9}"]);
}

#[test]
fn copied_query_asks_the_same() {
    let (datastore, txn) = small_graph();
    let q = pipe(vec![2, 1], QueryTypeConverter::Outbound, Some(kind("a")), Some(at(35)), None, 2)
        .inbound_vertices(5);
    let copy = q.clone();
    assert_eq!(copy, q);
    assert_eq!(q.duplicate(), q);
    let found = txn.get_vertices(&datastore, q).unwrap();
    assert_eq!(txn.get_vertices(&datastore, copy), Ok(found.clone()));
    assert_eq!(found, vec![Vertex::new(Uuid(1), kind("v")), Vertex::new(Uuid(2), kind("v"))]);
    let edges = EdgeQuery::Edges { keys: vec![EdgeKey::new(Uuid(1), kind("b"), Uuid(2))] };
    assert_eq!(edges.clone(), edges);
    let all = VertexQuery::All { start_id: Some(Uuid(2)), limit: 3 };
    assert_eq!(all.duplicate(), all);
}
