//! What holds of the operations of the store taken together.

use vstd::prelude::*;

use crate::memory::model::{
    all_edges, all_vertices, arrives, at_or_after, edge_lookup, EdgeFilter, edges_from,
    edges_handed_out, edges_of, ids_of, inbound_edges, keys_of, leaves, metadata_erased,
    metadata_found, metadata_written, named, outbound_edges, owned_ids, StoreModel, vertex_lookup,
    vertices_at, vertices_from, vertices_handed_out, vertices_of,
};
use crate::models::{EdgeKeyModel, EdgeModel, Timestamp, Type, VertexModel, VertexValueModel};
use crate::queries::{EdgeQuery, ids_model, keys_model, QueryTypeConverter, tag_of, VertexQuery};
use crate::sequences::capped;

verus! {

/// A vertex that was just put into the store is found under its
/// identifier: the query for that identifier alone names exactly that
/// vertex, with the tag it was made with.
pub proof fn law_created_vertex_is_found(
    st: StoreModel,
    id: u128,
    owner: u128,
    t: Seq<char>,
    q: VertexQuery,
)
    requires
        q matches VertexQuery::Vertices { ids } && ids_model(ids@) == seq![id],
    ensures
        vertices_handed_out(
            vertices_of(
                StoreModel {
                    vertices: st.vertices.insert(id, VertexValueModel { owner_id: owner, t }),
                    ..st
                },
                q,
            ),
        ) == seq![VertexModel { id, t }],
{
    let after = StoreModel {
        vertices: st.vertices.insert(id, VertexValueModel { owner_id: owner, t }),
        ..st
    };
    Seq::<u128>::lemma_filter_map_singleton(id, vertex_lookup(after.vertices));
    let found = vertices_of(after, q);
    assert(found =~= seq![(id, VertexValueModel { owner_id: owner, t })]);
    assert(vertices_handed_out(found) =~= seq![VertexModel { id, t }]);
}

/// An edge that was just put into the store is found under its key: the
/// query for that key alone names exactly that edge, with the weight and
/// the time it was written with.
pub proof fn law_created_edge_is_found(
    st: StoreModel,
    key: EdgeKeyModel,
    weight: u32,
    update_datetime: Timestamp,
    q: EdgeQuery,
)
    requires
        q matches EdgeQuery::Edges { keys } && keys_model(keys@) == seq![key],
    ensures
        edges_handed_out(
            edges_of(StoreModel { edges: st.edges.insert(key, (weight, update_datetime)), ..st }, q),
        ) == seq![EdgeModel { key, weight, update_datetime }],
{
    let after = StoreModel { edges: st.edges.insert(key, (weight, update_datetime)), ..st };
    Seq::<EdgeKeyModel>::lemma_filter_map_singleton(key, edge_lookup(after.edges));
    let found = edges_of(after, q);
    assert(found =~= seq![(key, (weight, update_datetime))]);
    assert(edges_handed_out(found) =~= seq![EdgeModel { key, weight, update_datetime }]);
}

/// Global metadata that was set is read back unchanged, and once it is
/// deleted it is not there.
pub proof fn law_global_metadata(st: StoreModel, name: Seq<char>, value: serde_json::Value)
    ensures
        st.global_metadata.insert(name, value).contains_key(name),
        st.global_metadata.insert(name, value)[name] == value,
        !st.global_metadata.remove(name).contains_key(name),
{
}

/// Metadata of an account that was set is read back unchanged, and once
/// it is deleted it is not there.
pub proof fn law_account_metadata(
    st: StoreModel,
    owner: u128,
    name: Seq<char>,
    value: serde_json::Value,
)
    ensures
        st.account_metadata.insert((owner, name), value).contains_key((owner, name)),
        st.account_metadata.insert((owner, name), value)[(owner, name)] == value,
        !st.account_metadata.remove((owner, name)).contains_key((owner, name)),
{
}

/// Metadata that was set for a list of vertices or edges is read back for
/// every one of them, and once it is deleted none of them has it.
pub proof fn law_listed_metadata<A>(
    metadata: Map<(A, Seq<char>), serde_json::Value>,
    items: Seq<A>,
    name: Seq<char>,
    value: serde_json::Value,
)
    ensures
        metadata_found(metadata_written(metadata, items, name, value), items, name) == Map::new(
            |item: A| items.contains(item),
            |item: A| value,
        ),
        metadata_found(metadata_erased(metadata, items, name), items, name) == Map::<
            A,
            serde_json::Value,
        >::empty(),
{
    let written = metadata_written(metadata, items, name, value);
    assert forall|item: A| items.contains(item) implies written.contains_key((item, name))
        && written[(item, name)] == value by {
        assert(named(items, name).contains((item, name)));
    }
    assert(metadata_found(written, items, name) =~= Map::new(
        |item: A| items.contains(item),
        |item: A| value,
    ));
    let erased = metadata_erased(metadata, items, name);
    assert forall|item: A| items.contains(item) implies !erased.contains_key((item, name)) by {
        assert(named(items, name).contains((item, name)));
    }
    assert(metadata_found(erased, items, name) =~= Map::<A, serde_json::Value>::empty());
}

/// Once an account was opened with a secret, that secret and no other
/// authenticates it, and nothing changes for any other account.
pub proof fn law_created_account_authenticates(
    st: StoreModel,
    id: u128,
    secret: Seq<char>,
    other: u128,
    tried: Seq<char>,
)
    ensures
        (StoreModel { accounts: st.accounts.insert(id, secret), ..st }).authenticates(id, tried)
            <==> tried == secret,
        other != id ==> ((StoreModel {
            accounts: st.accounts.insert(id, secret),
            ..st
        }).authenticates(other, tried) <==> st.authenticates(other, tried)),
{
}

/// Once an account was closed nothing authenticates it, and a store that
/// was made empty authenticates nobody.
pub proof fn law_absent_account_is_refused(st: StoreModel, id: u128, tried: Seq<char>)
    ensures
        !(StoreModel { accounts: st.accounts.remove(id), ..st }).authenticates(id, tried),
        !StoreModel::empty().authenticates(id, tried),
        StoreModel::with_default_account().authenticates(id, tried) <==> id == 0 && tried
            == Seq::<char>::empty(),
{
    if tried.len() == 0 {
        assert(tried =~= Seq::<char>::empty());
    }
}

/// Every edge that leaves one of `sources` and passes `filter` starts at
/// one of `sources` and passes `filter`.
pub proof fn lemma_outbound_edges_selected(
    edges: Map<EdgeKeyModel, (u32, Timestamp)>,
    sources: Seq<u128>,
    filter: EdgeFilter,
)
    ensures
        forall|i: int|
            #![trigger outbound_edges(edges, sources, filter)[i]]
            0 <= i < outbound_edges(edges, sources, filter).len() ==> sources.contains(
                outbound_edges(edges, sources, filter)[i].0.outbound_id,
            ) && filter.accepts(outbound_edges(edges, sources, filter)[i]),
    decreases sources.len(),
{
    if sources.len() > 0 {
        let first = outbound_edges(edges, sources.drop_last(), filter);
        let last = edges_from(edges, sources.last(), filter);
        let all = outbound_edges(edges, sources, filter);
        lemma_outbound_edges_selected(edges, sources.drop_last(), filter);
        assert forall|i: int| #![trigger all[i]] 0 <= i < all.len() implies sources.contains(
            all[i].0.outbound_id,
        ) && filter.accepts(all[i]) by {
            if i < first.len() {
                assert(all[i] == first[i]);
                let k = choose|k: int|
                    0 <= k < sources.drop_last().len() && #[trigger] sources.drop_last()[k]
                        == first[i].0.outbound_id;
                assert(sources[k] == first[i].0.outbound_id);
            } else {
                assert(all[i] == last[i - first.len()]);
                all_edges(edges).lemma_filter_pred(
                    leaves(sources.last(), filter),
                    i - first.len(),
                );
                assert(sources[sources.len() - 1] == sources.last());
            }
        }
    }
}

/// An outbound pipe hands out `limit` edges at most. Each of them starts
/// at one of the vertices that the inner query names, carries the tag of
/// the type filter where one is set, and was written no later than the
/// high filter and no earlier than the low filter where these are set.
pub proof fn law_outbound_pipe(
    st: StoreModel,
    vertex_query: VertexQuery,
    type_filter: Option<Type>,
    high_filter: Option<Timestamp>,
    low_filter: Option<Timestamp>,
    limit: u32,
)
    ensures
        ({
            let found = edges_of(
                st,
                EdgeQuery::Pipe {
                    vertex_query: Box::new(vertex_query),
                    converter: QueryTypeConverter::Outbound,
                    type_filter,
                    high_filter,
                    low_filter,
                    limit,
                },
            );
            &&& found.len() <= limit
            &&& forall|i: int|
                #![trigger found[i]]
                0 <= i < found.len() ==> {
                    &&& ids_of(vertices_of(st, vertex_query)).contains(found[i].0.outbound_id)
                    &&& type_filter matches Some(t) ==> found[i].0.t == t@
                    &&& high_filter matches Some(high) ==> found[i].1.1.not_after(high)
                    &&& low_filter matches Some(low) ==> low.not_after(found[i].1.1)
                }
        }),
{
    let sources = ids_of(vertices_of(st, vertex_query));
    let filter = EdgeFilter { type_filter: tag_of(type_filter), high_filter, low_filter };
    let all = outbound_edges(st.edges, sources, filter);
    lemma_outbound_edges_selected(st.edges, sources, filter);
    let found = capped(all, limit as nat);
    assert forall|i: int| #![trigger found[i]] 0 <= i < found.len() implies sources.contains(
        found[i].0.outbound_id,
    ) && filter.accepts(found[i]) by {
        assert(found[i] == all[i]);
    }
}

/// An inbound pipe hands out `limit` edges at most. Each of them ends at
/// one of the vertices that the inner query names and passes the filters
/// that are set.
pub proof fn law_inbound_pipe(
    st: StoreModel,
    vertex_query: VertexQuery,
    type_filter: Option<Type>,
    high_filter: Option<Timestamp>,
    low_filter: Option<Timestamp>,
    limit: u32,
)
    ensures
        ({
            let found = edges_of(
                st,
                EdgeQuery::Pipe {
                    vertex_query: Box::new(vertex_query),
                    converter: QueryTypeConverter::Inbound,
                    type_filter,
                    high_filter,
                    low_filter,
                    limit,
                },
            );
            &&& found.len() <= limit
            &&& forall|i: int|
                #![trigger found[i]]
                0 <= i < found.len() ==> {
                    &&& ids_of(vertices_of(st, vertex_query)).contains(found[i].0.inbound_id)
                    &&& type_filter matches Some(t) ==> found[i].0.t == t@
                    &&& high_filter matches Some(high) ==> found[i].1.1.not_after(high)
                    &&& low_filter matches Some(low) ==> low.not_after(found[i].1.1)
                }
        }),
{
    let targets = ids_of(vertices_of(st, vertex_query));
    let filter = EdgeFilter { type_filter: tag_of(type_filter), high_filter, low_filter };
    let all = inbound_edges(st.edges, targets, filter);
    let found = capped(all, limit as nat);
    assert forall|i: int| #![trigger found[i]] 0 <= i < found.len() implies targets.contains(
        found[i].0.inbound_id,
    ) && filter.accepts(found[i]) by {
        assert(found[i] == all[i]);
        all_edges(st.edges).lemma_filter_pred(arrives(targets, filter), i);
    }
}

/// Each of the vertices that exist among `ids` is held by the store, with
/// the value that is handed out, and is one of `ids`.
pub proof fn lemma_vertices_at_are_held(vertices: Map<u128, VertexValueModel>, ids: Seq<u128>)
    ensures
        forall|i: int|
            #![trigger vertices_at(vertices, ids)[i]]
            0 <= i < vertices_at(vertices, ids).len() ==> vertices.contains_pair(
                vertices_at(vertices, ids)[i].0,
                vertices_at(vertices, ids)[i].1,
            ) && ids.contains(vertices_at(vertices, ids)[i].0),
{
    let found = vertices_at(vertices, ids);
    assert forall|i: int| #![trigger found[i]] 0 <= i < found.len() implies vertices.contains_pair(
        found[i].0,
        found[i].1,
    ) && ids.contains(found[i].0) by {
        assert(found.contains(found[i]));
        ids.lemma_filter_map_contains(vertex_lookup(vertices), found[i]);
    }
}

/// Each of `ids` that the store holds is among the vertices that exist
/// among `ids`.
pub proof fn lemma_vertices_at_are_complete(
    vertices: Map<u128, VertexValueModel>,
    ids: Seq<u128>,
    id: u128,
)
    requires
        ids.contains(id),
        vertices.contains_key(id),
    ensures
        vertices_at(vertices, ids).contains((id, vertices[id])),
    decreases ids.len(),
{
    let look = vertex_lookup(vertices);
    let rest = ids.drop_last();
    assert(ids.len() > 0);
    if ids.last() == id {
        let found = vertices_at(vertices, ids);
        assert(found == rest.filter_map(look) + seq![(id, vertices[id])]);
        assert(found[found.len() - 1] == (id, vertices[id]));
    } else {
        let k = choose|k: int| 0 <= k < ids.len() && ids[k] == id;
        assert(rest[k] == id);
        lemma_vertices_at_are_complete(vertices, rest, id);
        let shorter = vertices_at(vertices, rest);
        let j = choose|j: int| 0 <= j < shorter.len() && shorter[j] == (id, vertices[id]);
        let found = vertices_at(vertices, ids);
        assert(found[j] == (id, vertices[id]));
    }
}

/// Each of the vertices that a query names is held by the store, with the
/// value that is handed out.
pub proof fn lemma_found_vertices_are_held(st: StoreModel, q: VertexQuery)
    requires
        q is All ==> st.listed(),
    ensures
        forall|i: int|
            #![trigger vertices_of(st, q)[i]]
            0 <= i < vertices_of(st, q).len() ==> st.vertices.contains_pair(
                vertices_of(st, q)[i].0,
                vertices_of(st, q)[i].1,
            ),
{
    let found = vertices_of(st, q);
    match q {
        VertexQuery::All { start_id, limit } => {
            let all = all_vertices(st.vertices);
            let from = vertices_from(st.vertices, start_id);
            assert forall|i: int| #![trigger found[i]] 0 <= i < found.len() implies st.vertices.contains_pair(
                found[i].0,
                found[i].1,
            ) by {
                assert(found[i] == from[i]);
                assert(from.contains(from[i]));
                match start_id {
                    Some(first) => {
                        all.lemma_filter_contains_rev(at_or_after(first@), from[i]);
                    },
                    None => {},
                }
                let k = choose|k: int| 0 <= k < all.len() && all[k] == from[i];
                assert(st.vertices.contains_pair(all[k].0, all[k].1));
            }
        },
        VertexQuery::Vertices { ids } => {
            lemma_vertices_at_are_held(st.vertices, ids_model(ids@));
        },
        VertexQuery::Pipe { edge_query, converter, limit } => {
            lemma_vertices_at_are_held(
                st.vertices,
                crate::memory::model::endpoints(
                    capped(edges_of(st, *edge_query), limit as nat),
                    converter,
                ),
            );
        },
    }
}

/// The store after the account `owner` deleted the vertices of `q`.
pub open spec fn after_deleting_vertices(st: StoreModel, q: VertexQuery, owner: u128) -> StoreModel {
    StoreModel { vertices: st.vertices.remove_keys(owned_ids(vertices_of(st, q), owner)), ..st }
}

/// After an account deleted the vertices of a query, the query names no
/// vertex of that account any more. This holds of every query that names,
/// after the deletion, only vertices that it named before.
pub proof fn law_deleted_vertices_stay_away(st: StoreModel, q: VertexQuery, owner: u128)
    requires
        q is All ==> st.listed() && after_deleting_vertices(st, q, owner).listed(),
        forall|i: int|
            #![trigger vertices_of(after_deleting_vertices(st, q, owner), q)[i]]
            0 <= i < vertices_of(after_deleting_vertices(st, q, owner), q).len() ==> ids_of(
                vertices_of(st, q),
            ).contains(vertices_of(after_deleting_vertices(st, q, owner), q)[i].0),
    ensures
        forall|i: int|
            #![trigger vertices_of(after_deleting_vertices(st, q, owner), q)[i]]
            0 <= i < vertices_of(after_deleting_vertices(st, q, owner), q).len() ==> vertices_of(
                after_deleting_vertices(st, q, owner),
                q,
            )[i].1.owner_id != owner,
{
    let after = after_deleting_vertices(st, q, owner);
    let named_before = vertices_of(st, q);
    let named_after = vertices_of(after, q);
    lemma_found_vertices_are_held(st, q);
    lemma_found_vertices_are_held(after, q);
    assert forall|i: int| #![trigger named_after[i]] 0 <= i < named_after.len() implies named_after[i].1.owner_id
        != owner by {
        let e = named_after[i];
        assert(after.vertices.contains_pair(e.0, e.1));
        assert(ids_of(named_before).contains(e.0));
        let j = choose|j: int| 0 <= j < ids_of(named_before).len() && ids_of(named_before)[j] == e.0;
        assert(named_before[j].0 == e.0);
        assert(st.vertices.contains_pair(named_before[j].0, named_before[j].1));
        if e.1.owner_id == owner {
            assert(owned_ids(named_before, owner).contains(e.0));
        }
    }
}

/// After an account deleted the vertices with given identifiers, the query
/// for those identifiers names no vertex of that account any more.
pub proof fn law_deleted_vertices_are_gone(st: StoreModel, q: VertexQuery, owner: u128)
    requires
        q is Vertices,
    ensures
        forall|i: int|
            #![trigger vertices_of(after_deleting_vertices(st, q, owner), q)[i]]
            0 <= i < vertices_of(after_deleting_vertices(st, q, owner), q).len() ==> vertices_of(
                after_deleting_vertices(st, q, owner),
                q,
            )[i].1.owner_id != owner,
{
    let after = after_deleting_vertices(st, q, owner);
    let named_before = vertices_of(st, q);
    let named_after = vertices_of(after, q);
    let wanted = ids_model(q->ids@);
    lemma_vertices_at_are_held(after.vertices, wanted);
    assert forall|i: int| #![trigger named_after[i]] 0 <= i < named_after.len() implies ids_of(
        named_before,
    ).contains(named_after[i].0) by {
        let e = named_after[i];
        assert(after.vertices.contains_pair(e.0, e.1));
        assert(st.vertices.contains_key(e.0));
        lemma_vertices_at_are_complete(st.vertices, wanted, e.0);
        let j = choose|j: int|
            0 <= j < named_before.len() && named_before[j] == (e.0, st.vertices[e.0]);
        assert(ids_of(named_before)[j] == e.0);
    }
    law_deleted_vertices_stay_away(st, q, owner);
}

/// What a vertex query names depends on the vertices and the edges of the
/// store alone: accounts and metadata do not matter.
pub proof fn lemma_vertex_query_reads_the_graph(a: StoreModel, b: StoreModel, q: VertexQuery)
    requires
        a.vertices == b.vertices,
        a.edges == b.edges,
    ensures
        vertices_of(a, q) == vertices_of(b, q),
    decreases q,
{
    match q {
        VertexQuery::Pipe { edge_query, converter, limit } => {
            lemma_edge_query_reads_the_graph(a, b, *edge_query);
        },
        _ => {},
    }
}

/// What an edge query names depends on the vertices and the edges of the
/// store alone: accounts and metadata do not matter.
pub proof fn lemma_edge_query_reads_the_graph(a: StoreModel, b: StoreModel, q: EdgeQuery)
    requires
        a.vertices == b.vertices,
        a.edges == b.edges,
    ensures
        edges_of(a, q) == edges_of(b, q),
    decreases q,
{
    match q {
        EdgeQuery::Pipe { vertex_query, converter, type_filter, high_filter, low_filter, limit } => {
            lemma_vertex_query_reads_the_graph(a, b, *vertex_query);
        },
        _ => {},
    }
}

/// Metadata that was set for the vertices of a query is read back for
/// every vertex that the query names, and once it is deleted none of them
/// has it.
pub proof fn law_vertex_metadata(
    st: StoreModel,
    q: VertexQuery,
    name: Seq<char>,
    value: serde_json::Value,
)
    ensures
        ({
            let ids = ids_of(vertices_of(st, q));
            let written = StoreModel {
                vertex_metadata: metadata_written(st.vertex_metadata, ids, name, value),
                ..st
            };
            let erased = StoreModel {
                vertex_metadata: metadata_erased(st.vertex_metadata, ids, name),
                ..st
            };
            &&& metadata_found(written.vertex_metadata, ids_of(vertices_of(written, q)), name)
                == Map::new(|id: u128| ids.contains(id), |id: u128| value)
            &&& metadata_found(erased.vertex_metadata, ids_of(vertices_of(erased, q)), name)
                == Map::<u128, serde_json::Value>::empty()
        }),
{
    let ids = ids_of(vertices_of(st, q));
    let written = StoreModel {
        vertex_metadata: metadata_written(st.vertex_metadata, ids, name, value),
        ..st
    };
    let erased = StoreModel { vertex_metadata: metadata_erased(st.vertex_metadata, ids, name), ..st };
    lemma_vertex_query_reads_the_graph(st, written, q);
    lemma_vertex_query_reads_the_graph(st, erased, q);
    law_listed_metadata(st.vertex_metadata, ids, name, value);
}

/// Metadata that was set for the edges of a query is read back for every
/// edge that the query names, and once it is deleted none of them has it.
pub proof fn law_edge_metadata(
    st: StoreModel,
    q: EdgeQuery,
    name: Seq<char>,
    value: serde_json::Value,
)
    ensures
        ({
            let keys = keys_of(edges_of(st, q));
            let written = StoreModel {
                edge_metadata: metadata_written(st.edge_metadata, keys, name, value),
                ..st
            };
            let erased = StoreModel {
                edge_metadata: metadata_erased(st.edge_metadata, keys, name),
                ..st
            };
            &&& metadata_found(written.edge_metadata, keys_of(edges_of(written, q)), name)
                == Map::new(|key: EdgeKeyModel| keys.contains(key), |key: EdgeKeyModel| value)
            &&& metadata_found(erased.edge_metadata, keys_of(edges_of(erased, q)), name) == Map::<
                EdgeKeyModel,
                serde_json::Value,
            >::empty()
        }),
{
    let keys = keys_of(edges_of(st, q));
    let written = StoreModel {
        edge_metadata: metadata_written(st.edge_metadata, keys, name, value),
        ..st
    };
    let erased = StoreModel { edge_metadata: metadata_erased(st.edge_metadata, keys, name), ..st };
    lemma_edge_query_reads_the_graph(st, written, q);
    lemma_edge_query_reads_the_graph(st, erased, q);
    law_listed_metadata(st.edge_metadata, keys, name, value);
}

/// Where every edge starts and ends at a vertex of the store, this still
/// holds after a vertex was put in, after an edge was created, and after
/// edges were taken out.
pub proof fn law_edges_stay_anchored(
    st: StoreModel,
    owner: u128,
    id: u128,
    value: VertexValueModel,
    key: EdgeKeyModel,
    written: (u32, Timestamp),
    gone: Set<EdgeKeyModel>,
)
    requires
        st.anchored(),
    ensures
        (StoreModel { vertices: st.vertices.insert(id, value), ..st }).anchored(),
        st.create_edge_outcome(owner, key) is Ok ==> (StoreModel {
            edges: st.edges.insert(key, written),
            ..st
        }).anchored(),
        (StoreModel { edges: st.edges.remove_keys(gone), ..st }).anchored(),
{
    let with_vertex = StoreModel { vertices: st.vertices.insert(id, value), ..st };
    assert forall|k: EdgeKeyModel| #[trigger]
        with_vertex.edges.contains_key(k) implies with_vertex.vertices.contains_key(k.outbound_id)
        && with_vertex.vertices.contains_key(k.inbound_id) by {
        assert(st.edges.contains_key(k));
    }
    if st.create_edge_outcome(owner, key) is Ok {
        let with_edge = StoreModel { edges: st.edges.insert(key, written), ..st };
        assert forall|k: EdgeKeyModel| #[trigger]
            with_edge.edges.contains_key(k) implies with_edge.vertices.contains_key(k.outbound_id)
            && with_edge.vertices.contains_key(k.inbound_id) by {
            if k != key {
                assert(st.edges.contains_key(k));
            }
        }
    }
    let without = StoreModel { edges: st.edges.remove_keys(gone), ..st };
    assert forall|k: EdgeKeyModel| #[trigger]
        without.edges.contains_key(k) implies without.vertices.contains_key(k.outbound_id)
        && without.vertices.contains_key(k.inbound_id) by {
        assert(st.edges.contains_key(k));
    }
}

/// What happens to the accounts of a store.
pub ghost enum AccountEvent {
    /// An account was opened under `id` with `secret`.
    Created { id: u128, secret: Seq<char> },
    /// The account `id` was closed.
    Deleted { id: u128 },
}

impl AccountEvent {
    /// Whether the event opens or closes the account `id`.
    pub open spec fn touches(self, id: u128) -> bool {
        match self {
            AccountEvent::Created { id: opened, .. } => opened == id,
            AccountEvent::Deleted { id: closed } => closed == id,
        }
    }
}

/// The accounts of a store that started with the accounts `start` and saw
/// `events` since.
pub open spec fn accounts_after(start: Map<u128, Seq<char>>, events: Seq<AccountEvent>) -> Map<
    u128,
    Seq<char>,
>
    decreases events.len(),
{
    if events.len() == 0 {
        start
    } else {
        let before = accounts_after(start, events.drop_last());
        match events.last() {
            AccountEvent::Created { id, secret } => before.insert(id, secret),
            AccountEvent::Deleted { id } => before.remove(id),
        }
    }
}

/// Whether the account `id` was opened with `secret` and neither opened
/// again nor closed since.
pub open spec fn stands(events: Seq<AccountEvent>, id: u128, secret: Seq<char>) -> bool {
    exists|i: int|
        0 <= i < events.len() && #[trigger] events[i] == (AccountEvent::Created { id, secret })
            && forall|j: int| i < j < events.len() ==> !(#[trigger] events[j]).touches(id)
}

/// Whether no event opens or closes the account `id`.
pub open spec fn untouched(events: Seq<AccountEvent>, id: u128) -> bool {
    forall|j: int| 0 <= j < events.len() ==> !(#[trigger] events[j]).touches(id)
}

/// A secret authenticates an account exactly when the account was opened
/// with that secret and has not been opened again or closed since, or when
/// the store started with the account under that secret and the account
/// was never touched.
pub proof fn law_auth_follows_the_accounts(
    start: StoreModel,
    events: Seq<AccountEvent>,
    id: u128,
    secret: Seq<char>,
)
    ensures
        (StoreModel { accounts: accounts_after(start.accounts, events), ..start }).authenticates(
            id,
            secret,
        ) <==> stands(events, id, secret) || (start.authenticates(id, secret) && untouched(
            events,
            id,
        )),
    decreases events.len(),
{
    if events.len() > 0 {
        let earlier = events.drop_last();
        let last = events.last();
        law_auth_follows_the_accounts(start, earlier, id, secret);
        let n = events.len() - 1;
        assert(events[n] == last);
        assert forall|j: int| 0 <= j < earlier.len() implies earlier[j] == events[j] by {
        }
        if last.touches(id) {
            assert(!untouched(events, id));
            if last == (AccountEvent::Created { id, secret }) {
                assert(stands(events, id, secret));
            } else {
                if stands(events, id, secret) {
                    let i = choose|i: int|
                        0 <= i < events.len() && #[trigger] events[i] == (AccountEvent::Created {
                            id,
                            secret,
                        }) && forall|j: int|
                            i < j < events.len() ==> !(#[trigger] events[j]).touches(id);
                    assert(i < n);
                    assert(events[n].touches(id));
                }
            }
        } else {
            if stands(earlier, id, secret) {
                let i = choose|i: int|
                    0 <= i < earlier.len() && #[trigger] earlier[i] == (AccountEvent::Created {
                        id,
                        secret,
                    }) && forall|j: int|
                        i < j < earlier.len() ==> !(#[trigger] earlier[j]).touches(id);
                assert(events[i] == (AccountEvent::Created { id, secret }));
                assert forall|j: int| i < j < events.len() implies !(#[trigger] events[j]).touches(
                    id,
                ) by {
                    if j < n {
                        assert(earlier[j] == events[j]);
                    }
                }
                assert(stands(events, id, secret));
            }
            if stands(events, id, secret) {
                let i = choose|i: int|
                    0 <= i < events.len() && #[trigger] events[i] == (AccountEvent::Created {
                        id,
                        secret,
                    }) && forall|j: int|
                        i < j < events.len() ==> !(#[trigger] events[j]).touches(id);
                assert(i < n);
                assert(earlier[i] == events[i]);
                assert forall|j: int| i < j < earlier.len() implies !(#[trigger] earlier[j]).touches(
                    id,
                ) by {
                    assert(earlier[j] == events[j]);
                }
                assert(stands(earlier, id, secret));
            }
            if untouched(earlier, id) {
                assert forall|j: int| 0 <= j < events.len() implies !(#[trigger] events[j]).touches(
                    id,
                ) by {
                    if j < n {
                        assert(earlier[j] == events[j]);
                    }
                }
            }
            if untouched(events, id) {
                assert forall|j: int| 0 <= j < earlier.len() implies !(#[trigger] earlier[j]).touches(
                    id,
                ) by {
                    assert(earlier[j] == events[j]);
                }
            }
        }
    }
}

} // verus!
