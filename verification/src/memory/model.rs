//! The mathematical model of the store, and what a query means on it.

use vstd::prelude::*;
use crate::errors::Error;
use crate::index::{ascending, lists_ascending};
use crate::models::{
    Edge, EdgeKey, EdgeKeyModel, EdgeModel, StoredEdgeKey, Timestamp, Type, Uuid, Vertex,
    VertexModel, VertexValue, VertexValueModel, Weight,
};
use crate::queries::{
    ids_model, keys_model, same_edge_query, same_vertex_query, tag_of, EdgeQuery,
    QueryTypeConverter, VertexQuery,
};
use crate::sequences::{capped, lemma_take_next_contains};

verus! {

/// An entry of the vertex index: an identifier and what is held under it.
pub type VertexEntry = (u128, VertexValueModel);

/// An entry of the edge index: a key, and the weight (as its bit pattern)
/// with the time of the last write.
pub type EdgeEntry = (EdgeKeyModel, (u32, Timestamp));

/// Everything the store holds.
pub ghost struct StoreModel {
    /// The secret of each account.
    pub accounts: Map<u128, Seq<char>>,
    pub vertices: Map<u128, VertexValueModel>,
    pub edges: Map<EdgeKeyModel, (u32, Timestamp)>,
    pub global_metadata: Map<Seq<char>, serde_json::Value>,
    pub account_metadata: Map<(u128, Seq<char>), serde_json::Value>,
    pub vertex_metadata: Map<(u128, Seq<char>), serde_json::Value>,
    pub edge_metadata: Map<(EdgeKeyModel, Seq<char>), serde_json::Value>,
}

impl StoreModel {
    /// The store that holds nothing.
    pub open spec fn empty() -> StoreModel {
        StoreModel {
            accounts: Map::empty(),
            vertices: Map::empty(),
            edges: Map::empty(),
            global_metadata: Map::empty(),
            account_metadata: Map::empty(),
            vertex_metadata: Map::empty(),
            edge_metadata: Map::empty(),
        }
    }

    /// The store that holds nothing but the account that a store may be
    /// made with: its identifier is zero and its secret is empty.
    pub open spec fn with_default_account() -> StoreModel {
        StoreModel { accounts: Map::empty().insert(0u128, Seq::<char>::empty()), ..Self::empty() }
    }

    /// Whether `secret` is the secret of the account `id`.
    pub open spec fn authenticates(self, id: u128, secret: Seq<char>) -> bool {
        self.accounts.contains_key(id) && self.accounts[id] == secret
    }

    /// Every edge starts and ends at a vertex of the store.
    pub open spec fn anchored(self) -> bool {
        forall|key: EdgeKeyModel| #[trigger]
            self.edges.contains_key(key) ==> self.vertices.contains_key(key.outbound_id)
                && self.vertices.contains_key(key.inbound_id)
    }

    /// Whether the account `owner` owns the vertex `id`.
    pub open spec fn owns(self, owner: u128, id: u128) -> bool {
        self.vertices.contains_key(id) && self.vertices[id].owner_id == owner
    }

    /// How the creation of an edge under `key` by the account `owner`
    /// ends: the edge must start at a vertex that exists and that `owner`
    /// owns, and end at a vertex that exists.
    pub open spec fn create_edge_outcome(self, owner: u128, key: EdgeKeyModel) -> Result<
        (),
        Error,
    > {
        if !self.vertices.contains_key(key.outbound_id) {
            Err(Error::VertexNotFound)
        } else if self.vertices[key.outbound_id].owner_id != owner {
            Err(Error::Unauthorized)
        } else if !self.vertices.contains_key(key.inbound_id) {
            Err(Error::VertexNotFound)
        } else {
            Ok(())
        }
    }

    /// The vertices and the edges can be listed in ascending order, as
    /// those of every store can.
    pub open spec fn listed(self) -> bool {
        &&& lists_ascending::<Uuid, VertexValueModel>(self.vertices, all_vertices(self.vertices))
        &&& lists_ascending::<StoredEdgeKey, (u32, Timestamp)>(self.edges, all_edges(self.edges))
    }

    /// Every one of `edges` starts at a vertex of the store.
    pub open spec fn holds_starts_of(self, edges: Seq<EdgeEntry>) -> bool {
        forall|i: int|
            #![trigger edges[i]]
            0 <= i < edges.len() ==> self.vertices.contains_key(edges[i].0.outbound_id)
    }

    /// No vertex and no edge carries an empty tag.
    pub open spec fn tagged(self) -> bool {
        &&& forall|id: u128| #[trigger] self.vertices.contains_key(id) ==> self.vertices[id].t.len() > 0
        &&& forall|key: EdgeKeyModel| #[trigger] self.edges.contains_key(key) ==> key.t.len() > 0
    }
}

/// A store stays free of empty tags where its vertices lose entries, or gain
/// one with a tag that is not empty, and its edges do likewise.
pub proof fn lemma_tagged_kept(before: StoreModel, after: StoreModel)
    requires
        before.tagged(),
        forall|id: u128| #[trigger]
            after.vertices.contains_key(id) ==> after.vertices[id].t.len() > 0 || (
            before.vertices.contains_key(id) && before.vertices[id] == after.vertices[id]),
        forall|key: EdgeKeyModel| #[trigger]
            after.edges.contains_key(key) ==> key.t.len() > 0 || before.edges.contains_key(key),
    ensures
        after.tagged(),
{
    assert forall|id: u128| #[trigger] after.vertices.contains_key(id) implies after.vertices[id].t.len()
        > 0 by {
        if before.vertices.contains_key(id) {
        }
    }
    assert forall|key: EdgeKeyModel| #[trigger] after.edges.contains_key(key) implies key.t.len()
        > 0 by {
        if before.edges.contains_key(key) {
        }
    }
}

/// The vertices in ascending order of their identifiers.
pub open spec fn all_vertices(vertices: Map<u128, VertexValueModel>) -> Seq<VertexEntry> {
    ascending::<Uuid, VertexValueModel>(vertices)
}

/// The edges in ascending order of their keys.
pub open spec fn all_edges(edges: Map<EdgeKeyModel, (u32, Timestamp)>) -> Seq<EdgeEntry> {
    ascending::<StoredEdgeKey, (u32, Timestamp)>(edges)
}

/// Selects the vertices whose identifier is `first` or comes after it.
pub open spec fn at_or_after(first: u128) -> spec_fn(VertexEntry) -> bool {
    |e: VertexEntry| first <= e.0
}

/// The vertices from `start` on, in ascending order.
pub open spec fn vertices_from(vertices: Map<u128, VertexValueModel>, start: Option<Uuid>) -> Seq<
    VertexEntry,
> {
    match start {
        Some(first) => all_vertices(vertices).filter(at_or_after(first@)),
        None => all_vertices(vertices),
    }
}

/// Looks an identifier up among the vertices.
pub open spec fn vertex_lookup(vertices: Map<u128, VertexValueModel>) -> spec_fn(u128) -> Option<
    VertexEntry,
> {
    |id: u128|
        if vertices.contains_key(id) {
            Some((id, vertices[id]))
        } else {
            None
        }
}

/// The vertices that exist among `ids`, in the order of `ids`.
pub open spec fn vertices_at(vertices: Map<u128, VertexValueModel>, ids: Seq<u128>) -> Seq<
    VertexEntry,
> {
    ids.filter_map(vertex_lookup(vertices))
}

/// Looks a key up among the edges.
pub open spec fn edge_lookup(edges: Map<EdgeKeyModel, (u32, Timestamp)>) -> spec_fn(
    EdgeKeyModel,
) -> Option<EdgeEntry> {
    |key: EdgeKeyModel|
        if edges.contains_key(key) {
            Some((key, edges[key]))
        } else {
            None
        }
}

/// The edges that exist among `keys`, in the order of `keys`.
pub open spec fn edges_at(edges: Map<EdgeKeyModel, (u32, Timestamp)>, keys: Seq<EdgeKeyModel>) -> Seq<
    EdgeEntry,
> {
    keys.filter_map(edge_lookup(edges))
}

/// The end of an edge that a pipe follows.
pub open spec fn endpoint(e: EdgeEntry, converter: QueryTypeConverter) -> u128 {
    match converter {
        QueryTypeConverter::Outbound => e.0.outbound_id,
        QueryTypeConverter::Inbound => e.0.inbound_id,
    }
}

/// The filters of an edge pipe.
pub ghost struct EdgeFilter {
    /// The tag that an edge must carry.
    pub type_filter: Option<Seq<char>>,
    /// The latest time of writing that passes.
    pub high_filter: Option<Timestamp>,
    /// The earliest time of writing that passes.
    pub low_filter: Option<Timestamp>,
}

impl EdgeFilter {
    /// Whether the edge passes every filter that is set.
    pub open spec fn accepts(self, e: EdgeEntry) -> bool {
        &&& self.type_filter matches Some(t) ==> e.0.t == t
        &&& self.high_filter matches Some(high) ==> e.1.1.not_after(high)
        &&& self.low_filter matches Some(low) ==> low.not_after(e.1.1)
    }
}

/// Selects the edges that start at `source` and pass `filter`.
pub open spec fn leaves(source: u128, filter: EdgeFilter) -> spec_fn(EdgeEntry) -> bool {
    |e: EdgeEntry| e.0.outbound_id == source && filter.accepts(e)
}

/// Selects the edges that end at one of `targets` and pass `filter`.
pub open spec fn arrives(targets: Seq<u128>, filter: EdgeFilter) -> spec_fn(EdgeEntry) -> bool {
    |e: EdgeEntry| targets.contains(e.0.inbound_id) && filter.accepts(e)
}

/// The edges that start at `source` and pass `filter`, in ascending order
/// of their keys.
pub open spec fn edges_from(
    edges: Map<EdgeKeyModel, (u32, Timestamp)>,
    source: u128,
    filter: EdgeFilter,
) -> Seq<EdgeEntry> {
    all_edges(edges).filter(leaves(source, filter))
}

/// For each of `sources` in turn, the edges that start there and pass
/// `filter`.
pub open spec fn outbound_edges(
    edges: Map<EdgeKeyModel, (u32, Timestamp)>,
    sources: Seq<u128>,
    filter: EdgeFilter,
) -> Seq<EdgeEntry>
    decreases sources.len(),
{
    if sources.len() == 0 {
        Seq::empty()
    } else {
        outbound_edges(edges, sources.drop_last(), filter) + edges_from(
            edges,
            sources.last(),
            filter,
        )
    }
}

/// The edges that leave the first `k` of `sources` open the edges that leave
/// all of them.
pub proof fn lemma_outbound_edges_prefix(
    edges: Map<EdgeKeyModel, (u32, Timestamp)>,
    sources: Seq<u128>,
    filter: EdgeFilter,
    k: int,
)
    requires
        0 <= k <= sources.len(),
    ensures
        outbound_edges(edges, sources.take(k), filter).is_prefix_of(
            outbound_edges(edges, sources, filter),
        ),
    decreases sources.len() - k,
{
    if k == sources.len() {
        assert(sources.take(k) =~= sources);
    } else {
        lemma_outbound_edges_prefix(edges, sources, filter, k + 1);
        lemma_outbound_edges_next(edges, sources, filter, k);
    }
}

/// The edges that leave the first `k + 1` of `sources` are those that leave
/// the first `k`, and then those that leave the next one.
pub proof fn lemma_outbound_edges_next(
    edges: Map<EdgeKeyModel, (u32, Timestamp)>,
    sources: Seq<u128>,
    filter: EdgeFilter,
    k: int,
)
    requires
        0 <= k < sources.len(),
    ensures
        outbound_edges(edges, sources.take(k + 1), filter) == outbound_edges(
            edges,
            sources.take(k),
            filter,
        ) + edges_from(edges, sources[k], filter),
{
    assert(sources.take(k + 1).drop_last() =~= sources.take(k));
    assert(sources.take(k + 1).last() == sources[k]);
}

/// The edges that end at one of `targets` and pass `filter`, in ascending
/// order of their keys.
pub open spec fn inbound_edges(
    edges: Map<EdgeKeyModel, (u32, Timestamp)>,
    targets: Seq<u128>,
    filter: EdgeFilter,
) -> Seq<EdgeEntry> {
    all_edges(edges).filter(arrives(targets, filter))
}

/// The identifiers of a sequence of vertices.
pub open spec fn ids_of(vertices: Seq<VertexEntry>) -> Seq<u128> {
    vertices.map_values(|e: VertexEntry| e.0)
}

/// The entries that a list of vertex values stands for.
pub open spec fn vertex_values_model(values: Seq<(Uuid, VertexValue)>) -> Seq<VertexEntry> {
    values.map_values(|e: (Uuid, VertexValue)| (e.0@, e.1@))
}

/// The entries that a list of edge values stands for.
pub open spec fn edge_values_model(values: Seq<(EdgeKey, Weight, Timestamp)>) -> Seq<EdgeEntry> {
    values.map_values(|e: (EdgeKey, Weight, Timestamp)| (e.0@, (e.1@, e.2)))
}

/// The end of each edge that a pipe follows.
pub open spec fn endpoints(edges: Seq<EdgeEntry>, converter: QueryTypeConverter) -> Seq<u128> {
    edges.map_values(|e: EdgeEntry| endpoint(e, converter))
}

/// The vertex that an entry of the vertex index is handed out as.
pub open spec fn vertex_of(e: VertexEntry) -> VertexModel {
    VertexModel { id: e.0, t: e.1.t }
}

/// The edge that an entry of the edge index is handed out as.
pub open spec fn edge_of(e: EdgeEntry) -> EdgeModel {
    EdgeModel { key: e.0, weight: e.1.0, update_datetime: e.1.1 }
}

/// The vertices that entries of the vertex index are handed out as.
pub open spec fn vertices_handed_out(entries: Seq<VertexEntry>) -> Seq<VertexModel> {
    entries.map_values(|e: VertexEntry| vertex_of(e))
}

/// The edges that entries of the edge index are handed out as.
pub open spec fn edges_handed_out(entries: Seq<EdgeEntry>) -> Seq<EdgeModel> {
    entries.map_values(|e: EdgeEntry| edge_of(e))
}

/// What a list of vertices stands for.
pub open spec fn vertices_model(vertices: Seq<Vertex>) -> Seq<VertexModel> {
    vertices.map_values(|v: Vertex| v@)
}

/// What a list of edges stands for.
pub open spec fn edges_model(edges: Seq<Edge>) -> Seq<EdgeModel> {
    edges.map_values(|e: Edge| e@)
}

/// The identifiers of those of `vertices` that `owner` owns.
pub open spec fn owned_ids(vertices: Seq<VertexEntry>, owner: u128) -> Set<u128> {
    Set::new(
        |id: u128|
            exists|i: int|
                0 <= i < vertices.len() && (#[trigger] vertices[i]).0 == id && vertices[i].1.owner_id
                    == owner,
    )
}

/// The keys of those of `edges` that start at a vertex that `owner` owns.
pub open spec fn owned_keys(
    st: StoreModel,
    edges: Seq<EdgeEntry>,
    owner: u128,
) -> Set<EdgeKeyModel> {
    Set::new(
        |key: EdgeKeyModel|
            exists|i: int|
                0 <= i < edges.len() && (#[trigger] edges[i]).0 == key && st.owns(
                    owner,
                    key.outbound_id,
                ),
    )
}

/// The keys under which the metadata `name` of each of `items` is held.
pub open spec fn named<A>(items: Seq<A>, name: Seq<char>) -> Set<(A, Seq<char>)> {
    Set::new(|key: (A, Seq<char>)| key.1 == name && items.contains(key.0))
}

/// The metadata `name` of those of `items` that have it.
pub open spec fn metadata_found<A>(
    metadata: Map<(A, Seq<char>), serde_json::Value>,
    items: Seq<A>,
    name: Seq<char>,
) -> Map<A, serde_json::Value> {
    Map::new(
        |item: A| items.contains(item) && metadata.contains_key((item, name)),
        |item: A| metadata[(item, name)],
    )
}

/// The metadata after `value` was put under `name` for each of `items`.
pub open spec fn metadata_written<A>(
    metadata: Map<(A, Seq<char>), serde_json::Value>,
    items: Seq<A>,
    name: Seq<char>,
    value: serde_json::Value,
) -> Map<(A, Seq<char>), serde_json::Value> {
    Map::new(
        |key: (A, Seq<char>)| metadata.contains_key(key) || named(items, name).contains(key),
        |key: (A, Seq<char>)|
            if named(items, name).contains(key) {
                value
            } else {
                metadata[key]
            },
    )
}

/// The metadata after what was held under `name` for each of `items` was
/// taken away.
pub open spec fn metadata_erased<A>(
    metadata: Map<(A, Seq<char>), serde_json::Value>,
    items: Seq<A>,
    name: Seq<char>,
) -> Map<(A, Seq<char>), serde_json::Value> {
    metadata.remove_keys(named(items, name))
}

/// Writing for one more item puts `value` under the key of that item.
pub proof fn lemma_metadata_written_next<A>(
    metadata: Map<(A, Seq<char>), serde_json::Value>,
    items: Seq<A>,
    name: Seq<char>,
    value: serde_json::Value,
    i: int,
)
    requires
        0 <= i < items.len(),
    ensures
        metadata_written(metadata, items.take(i + 1), name, value) == metadata_written(
            metadata,
            items.take(i),
            name,
            value,
        ).insert((items[i], name), value),
{
    let small = metadata_written(metadata, items.take(i), name, value);
    let large = metadata_written(metadata, items.take(i + 1), name, value);
    let grown = small.insert((items[i], name), value);
    assert forall|key: (A, Seq<char>)|
        named(items.take(i + 1), name).contains(key) <==> named(items.take(i), name).contains(key)
            || key == (items[i], name) by {
        lemma_take_next_contains(items, i, key.0);
    }
    assert forall|key: (A, Seq<char>)| large.contains_key(key) <==> grown.contains_key(key) by {
        lemma_take_next_contains(items, i, key.0);
        assert(key == (key.0, key.1));
        assert(named(items.take(i + 1), name).contains(key) <==> key.1 == name && items.take(
            i + 1,
        ).contains(key.0));
        assert(named(items.take(i), name).contains(key) <==> key.1 == name && items.take(
            i,
        ).contains(key.0));
    }
    assert forall|key: (A, Seq<char>)| large.contains_key(key) implies large[key] == grown[key] by {
        lemma_take_next_contains(items, i, key.0);
        assert(key == (key.0, key.1));
        assert(named(items.take(i + 1), name).contains(key) <==> key.1 == name && items.take(
            i + 1,
        ).contains(key.0));
        assert(named(items.take(i), name).contains(key) <==> key.1 == name && items.take(
            i,
        ).contains(key.0));
    }
    assert(large =~= grown);
}

/// Erasing for one more item takes away what is held under its key.
pub proof fn lemma_metadata_erased_next<A>(
    metadata: Map<(A, Seq<char>), serde_json::Value>,
    items: Seq<A>,
    name: Seq<char>,
    i: int,
)
    requires
        0 <= i < items.len(),
    ensures
        metadata_erased(metadata, items.take(i + 1), name) == metadata_erased(
            metadata,
            items.take(i),
            name,
        ).remove((items[i], name)),
{
    let small = metadata_erased(metadata, items.take(i), name);
    let large = metadata_erased(metadata, items.take(i + 1), name);
    let shrunk = small.remove((items[i], name));
    assert forall|key: (A, Seq<char>)|
        named(items.take(i + 1), name).contains(key) <==> named(items.take(i), name).contains(key)
            || key == (items[i], name) by {
        lemma_take_next_contains(items, i, key.0);
    }
    assert forall|key: (A, Seq<char>)| large.contains_key(key) <==> shrunk.contains_key(key) by {
    }
    assert(large =~= shrunk);
}

/// Looking at one more item adds its metadata where it has any.
pub proof fn lemma_metadata_found_next<A>(
    metadata: Map<(A, Seq<char>), serde_json::Value>,
    items: Seq<A>,
    name: Seq<char>,
    i: int,
)
    requires
        0 <= i < items.len(),
    ensures
        metadata_found(metadata, items.take(i + 1), name) == if metadata.contains_key(
            (items[i], name),
        ) {
            metadata_found(metadata, items.take(i), name).insert(
                items[i],
                metadata[(items[i], name)],
            )
        } else {
            metadata_found(metadata, items.take(i), name)
        },
{
    let small = metadata_found(metadata, items.take(i), name);
    let large = metadata_found(metadata, items.take(i + 1), name);
    let grown = if metadata.contains_key((items[i], name)) {
        small.insert(items[i], metadata[(items[i], name)])
    } else {
        small
    };
    assert forall|item: A|
        items.take(i + 1).contains(item) <==> items.take(i).contains(item) || item
            == items[i] by {
        lemma_take_next_contains(items, i, item);
    }
    assert forall|item: A| large.contains_key(item) <==> grown.contains_key(item) by {
        lemma_take_next_contains(items, i, item);
    }
    assert forall|item: A| large.contains_key(item) implies large[item] == grown[item] by {
        lemma_take_next_contains(items, i, item);
    }
    assert(large =~= grown);
}

/// The keys of a sequence of edges.
pub open spec fn keys_of(edges: Seq<EdgeEntry>) -> Seq<EdgeKeyModel> {
    edges.map_values(|e: EdgeEntry| e.0)
}

/// The text of a type filter that is held as bare text.
pub open spec fn text_of(tag: Option<String>) -> Option<Seq<char>> {
    match tag {
        Some(t) => Some(t@),
        None => None,
    }
}

/// What a vertex query names in a store.
pub open spec fn vertices_of(st: StoreModel, q: VertexQuery) -> Seq<VertexEntry>
    decreases q,
{
    match q {
        VertexQuery::All { start_id, limit } => capped(
            vertices_from(st.vertices, start_id),
            limit as nat,
        ),
        VertexQuery::Vertices { ids } => vertices_at(st.vertices, ids_model(ids@)),
        VertexQuery::Pipe { edge_query, converter, limit } => vertices_at(
            st.vertices,
            endpoints(capped(edges_of(st, *edge_query), limit as nat), converter),
        ),
    }
}

/// What an edge query names in a store.
pub open spec fn edges_of(st: StoreModel, q: EdgeQuery) -> Seq<EdgeEntry>
    decreases q,
{
    match q {
        EdgeQuery::Edges { keys } => edges_at(st.edges, keys_model(keys@)),
        EdgeQuery::Pipe {
            vertex_query,
            converter,
            type_filter,
            high_filter,
            low_filter,
            limit,
        } => {
            let ends = ids_of(vertices_of(st, *vertex_query));
            let filter = EdgeFilter { type_filter: tag_of(type_filter), high_filter, low_filter };
            match converter {
                QueryTypeConverter::Outbound => capped(
                    outbound_edges(st.edges, ends, filter),
                    limit as nat,
                ),
                QueryTypeConverter::Inbound => capped(
                    inbound_edges(st.edges, ends, filter),
                    limit as nat,
                ),
            }
        },
    }
}

/// Two vertex queries that ask the same name the same vertices in every
/// store.
pub proof fn lemma_same_vertex_query(st: StoreModel, a: VertexQuery, b: VertexQuery)
    requires
        same_vertex_query(a, b),
    ensures
        vertices_of(st, a) == vertices_of(st, b),
    decreases a,
{
    match a {
        VertexQuery::Pipe { edge_query, converter, limit } => {
            lemma_same_edge_query(st, *edge_query, *b->edge_query);
        },
        _ => {},
    }
}

/// Two edge queries that ask the same name the same edges in every store.
pub proof fn lemma_same_edge_query(st: StoreModel, a: EdgeQuery, b: EdgeQuery)
    requires
        same_edge_query(a, b),
    ensures
        edges_of(st, a) == edges_of(st, b),
    decreases a,
{
    match a {
        EdgeQuery::Pipe { vertex_query, converter, type_filter, high_filter, low_filter, limit } => {
            lemma_same_vertex_query(st, *vertex_query, *b->vertex_query);
        },
        _ => {},
    }
}

} // verus!
