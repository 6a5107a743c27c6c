//! The store itself: its indices, the query engine that reads them, the
//! accounts, and the operations of a transaction.

use vstd::prelude::*;
use crate::errors::Error;
use crate::index::{ascending, lists_ascending, SortedMap};
use crate::keys::{Key, lemma_asymmetric, lemma_empty_text_first, text_before};
use crate::memory::model::{
    all_edges, all_vertices, arrives, at_or_after, edge_lookup, edge_of, edge_values_model,
    EdgeEntry, EdgeFilter, edges_at, edges_from, edges_handed_out, edges_model, edges_of, endpoint,
    endpoints, ids_of, inbound_edges, keys_of, leaves, lemma_metadata_erased_next,
    lemma_metadata_found_next, lemma_metadata_written_next, lemma_outbound_edges_next,
    lemma_outbound_edges_prefix, lemma_tagged_kept, metadata_erased, metadata_found,
    metadata_written, outbound_edges, owned_ids, owned_keys, StoreModel, text_of, vertex_lookup,
    vertex_of, vertex_values_model, VertexEntry, vertices_at, vertices_from, vertices_handed_out,
    vertices_model, vertices_of,
};
use crate::models::{
    Edge, edge_key_before, EdgeKey, EdgeKeyModel, JsonValue, StoredEdgeKey, Timestamp, Type, Uuid,
    Vertex, VertexValue, VertexValueModel, Weight,
};
use crate::util::{
    child_uuid, generate_random_secret, is_alphanumeric, is_child_of, is_random_uuid, now,
    parent_uuid, SECRET_LENGTH,
};
use crate::queries::{EdgeQuery, ids_model, keys_model, QueryTypeConverter, VertexQuery};
use crate::sequences::{
    capped, lemma_capped_at_prefix, lemma_capped_is_prefix, lemma_filter_is_skip,
    lemma_filter_rest_none, lemma_filter_take_is_prefix, lemma_filter_take_next,
    lemma_filter_take_none, lemma_prefix_transitive,
};

verus! {

/// All of the data of a store: one ordered index for each kind of thing it
/// keeps.
pub struct InternalMemoryDatastore {
    account_metadata: SortedMap<(Uuid, String), JsonValue>,
    accounts: SortedMap<Uuid, String>,
    edge_metadata: SortedMap<(StoredEdgeKey, String), JsonValue>,
    edges: SortedMap<StoredEdgeKey, (Weight, Timestamp)>,
    global_metadata: SortedMap<String, JsonValue>,
    vertex_metadata: SortedMap<(Uuid, String), JsonValue>,
    vertices: SortedMap<Uuid, VertexValue>,
}

impl View for InternalMemoryDatastore {
    type V = StoreModel;

    closed spec fn view(&self) -> StoreModel {
        StoreModel {
            accounts: self.accounts@,
            vertices: self.vertices@,
            edges: self.edges@,
            global_metadata: self.global_metadata@,
            account_metadata: self.account_metadata@,
            vertex_metadata: self.vertex_metadata@,
            edge_metadata: self.edge_metadata@,
        }
    }
}

impl InternalMemoryDatastore {
    /// Every index is in order, and no tag in the store is empty.
    pub closed spec fn wf(&self) -> bool {
        &&& self.account_metadata.wf()
        &&& self.accounts.wf()
        &&& self.edge_metadata.wf()
        &&& self.edges.wf()
        &&& self.global_metadata.wf()
        &&& self.vertex_metadata.wf()
        &&& self.vertices.wf()
        &&& self@.tagged()
    }

    /// In a well-formed store no tag is empty.
    pub proof fn lemma_tagged(&self)
        requires
            self.wf(),
        ensures
            self@.tagged(),
    {
    }

    /// A store that holds nothing.
    pub fn new() -> (store: InternalMemoryDatastore)
        ensures
            store.wf(),
            store@ == StoreModel::empty(),
    {
        InternalMemoryDatastore {
            account_metadata: SortedMap::new(),
            accounts: SortedMap::new(),
            edge_metadata: SortedMap::new(),
            edges: SortedMap::new(),
            global_metadata: SortedMap::new(),
            vertex_metadata: SortedMap::new(),
            vertices: SortedMap::new(),
        }
    }

    /// The vertices from `start_id` on, `limit` at most.
    fn vertices_in_range(&self, start_id: Option<Uuid>, limit: u32) -> (results: Vec<
        (Uuid, VertexValue),
    >)
        requires
            self.wf(),
        ensures
            vertex_values_model(results@) == capped(
                vertices_from(self@.vertices, start_id),
                limit as nat,
            ),
    {
        let ghost all = all_vertices(self@.vertices);
        let first = match start_id {
            Some(id) => self.vertices.lower_bound(&id),
            None => 0,
        };
        proof {
            self.vertices.lemma_ascending();
            match start_id {
                Some(id) => {
                    let pred = at_or_after(id@);
                    assert forall|j: int| 0 <= j < first implies !pred(#[trigger] all[j]) by {
                    }
                    assert forall|j: int| first <= j < all.len() implies pred(#[trigger] all[j]) by {
                    }
                    lemma_filter_is_skip(all, pred, first as int);
                },
                None => {
                    assert(all.skip(0) =~= all);
                },
            }
        }
        let ghost from = vertices_from(self@.vertices, start_id);
        assert(from == all.skip(first as int));
        let mut results: Vec<(Uuid, VertexValue)> = Vec::new();
        let mut i: usize = first;
        let n = self.vertices.len();
        while i < n && results.len() < limit as usize
            invariant
                self.wf(),
                all == all_vertices(self@.vertices),
                n == all.len(),
                first <= i <= n,
                from == all.skip(first as int),
                results.len() == i - first,
                results.len() <= limit,
                vertex_values_model(results@) == from.take(i - first),
            decreases n - i,
        {
            let id = self.vertices.key_at(i).duplicate();
            let value = self.vertices.value_at(i).clone();
            let ghost before = results@;
            results.push((id, value));
            proof {
                assert(results@ == before.push((id, value)));
                assert(vertex_values_model(results@) =~= vertex_values_model(before).push(
                    (id@, value@),
                ));
                assert(from.take(i + 1 - first) =~= from.take(i - first).push(from[i - first]));
            }
            i += 1;
        }
        proof {
            if i == n {
                assert(from.take(i - first) =~= from);
            }
        }
        results
    }

    /// The vertices that exist among `ids`, in the order of `ids`.
    fn vertices_with_ids(&self, ids: &Vec<Uuid>) -> (results: Vec<(Uuid, VertexValue)>)
        requires
            self.wf(),
        ensures
            vertex_values_model(results@) == vertices_at(self@.vertices, ids_model(ids@)),
    {
        let ghost wanted = ids_model(ids@);
        let ghost look = vertex_lookup(self@.vertices);
        let mut results: Vec<(Uuid, VertexValue)> = Vec::new();
        let mut j: usize = 0;
        while j < ids.len()
            invariant
                self.wf(),
                wanted == ids_model(ids@),
                look == vertex_lookup(self@.vertices),
                j <= ids.len(),
                vertex_values_model(results@) == wanted.take(j as int).filter_map(look),
            decreases ids.len() - j,
        {
            let id = ids[j];
            let ghost before = results@;
            proof {
                wanted.lemma_filter_map_take_succ(look, j as int);
            }
            match self.vertices.get(&id) {
                Some(value) => {
                    let copy = value.clone();
                    results.push((id, copy));
                    proof {
                        assert(results@ == before.push((id, copy)));
                        assert(vertex_values_model(results@) =~= vertex_values_model(before) + seq![
                            (id@, copy@),
                        ]);
                    }
                },
                None => {
                    proof {
                        assert(vertex_values_model(before) + Seq::<VertexEntry>::empty()
                            =~= vertex_values_model(before));
                    }
                },
            }
            j += 1;
        }
        proof {
            assert(wanted.take(j as int) =~= wanted);
        }
        results
    }

    /// The edges that exist among `keys`, in the order of `keys`.
    fn edges_with_keys(&self, keys: &Vec<EdgeKey>) -> (results: Vec<(EdgeKey, Weight, Timestamp)>)
        requires
            self.wf(),
        ensures
            edge_values_model(results@) == edges_at(self@.edges, keys_model(keys@)),
    {
        let ghost wanted = keys_model(keys@);
        let ghost look = edge_lookup(self@.edges);
        let mut results: Vec<(EdgeKey, Weight, Timestamp)> = Vec::new();
        let mut j: usize = 0;
        while j < keys.len()
            invariant
                self.wf(),
                wanted == keys_model(keys@),
                look == edge_lookup(self@.edges),
                j <= keys.len(),
                edge_values_model(results@) == wanted.take(j as int).filter_map(look),
            decreases keys.len() - j,
        {
            let key = keys[j].clone();
            let stored = key.to_stored();
            let ghost before = results@;
            proof {
                wanted.lemma_filter_map_take_succ(look, j as int);
            }
            match self.edges.get(&stored) {
                Some(value) => {
                    let weight = value.0;
                    let update_datetime = value.1;
                    results.push((key, weight, update_datetime));
                    proof {
                        assert(results@ == before.push((key, weight, update_datetime)));
                        assert(edge_values_model(results@) =~= edge_values_model(before) + seq![
                            (key@, (weight@, update_datetime)),
                        ]);
                    }
                },
                None => {
                    proof {
                        assert(edge_values_model(before) + Seq::<EdgeEntry>::empty()
                            =~= edge_values_model(before));
                    }
                },
            }
            j += 1;
        }
        proof {
            assert(wanted.take(j as int) =~= wanted);
        }
        results
    }

    /// The end that `converter` names of each of the first `limit` edges.
    fn endpoint_ids(
        edge_values: &Vec<(EdgeKey, Weight, Timestamp)>,
        converter: QueryTypeConverter,
        limit: u32,
    ) -> (ids: Vec<Uuid>)
        ensures
            ids_model(ids@) == endpoints(
                capped(edge_values_model(edge_values@), limit as nat),
                converter,
            ),
    {
        let ghost picked = capped(edge_values_model(edge_values@), limit as nat);
        let n = if (limit as usize) < edge_values.len() {
            limit as usize
        } else {
            edge_values.len()
        };
        let mut ids: Vec<Uuid> = Vec::new();
        let mut j: usize = 0;
        while j < n
            invariant
                j <= n <= edge_values.len(),
                n == picked.len(),
                picked == capped(edge_values_model(edge_values@), limit as nat),
                ids.len() == j,
                ids_model(ids@) == endpoints(picked.take(j as int), converter),
            decreases n - j,
        {
            let id = match converter {
                QueryTypeConverter::Outbound => edge_values[j].0.outbound_id,
                QueryTypeConverter::Inbound => edge_values[j].0.inbound_id,
            };
            let ghost before = ids@;
            ids.push(id);
            proof {
                assert(picked[j as int] == edge_values_model(edge_values@)[j as int]);
                assert(id@ == endpoint(picked[j as int], converter));
                assert(ids@ == before.push(id));
                assert(ids_model(ids@) =~= ids_model(before).push(id@));
                assert(picked.take(j + 1) =~= picked.take(j as int).push(picked[j as int]));
                assert(endpoints(picked.take(j + 1), converter) =~= endpoints(
                    picked.take(j as int),
                    converter,
                ).push(endpoint(picked[j as int], converter)));
            }
            j += 1;
        }
        proof {
            assert(picked.take(j as int) =~= picked);
        }
        ids
    }

    /// Whether a time of writing passes the two time filters.
    fn in_window(
        update_datetime: &Timestamp,
        high_filter: &Option<Timestamp>,
        low_filter: &Option<Timestamp>,
    ) -> (b: bool)
        ensures
            b == ({
                &&& *high_filter matches Some(high) ==> update_datetime.not_after(high)
                &&& *low_filter matches Some(low) ==> low.not_after(*update_datetime)
            }),
    {
        let below = match high_filter {
            Some(high) => update_datetime.is_not_after(high),
            None => true,
        };
        let above = match low_filter {
            Some(low) => low.is_not_after(update_datetime),
            None => true,
        };
        below && above
    }

    /// Appends to `results` the edges that start at `source` and pass the
    /// filters, in ascending order of their keys, until `results` holds
    /// `limit` edges.
    fn append_edges_from(
        &self,
        source: Uuid,
        tag: &Option<String>,
        high_filter: &Option<Timestamp>,
        low_filter: &Option<Timestamp>,
        limit: usize,
        results: &mut Vec<(EdgeKey, Weight, Timestamp)>,
    )
        requires
            self.wf(),
            old(results).len() < limit,
        ensures
            edge_values_model(final(results)@) == capped(
                edge_values_model(old(results)@) + edges_from(
                    self@.edges,
                    source@,
                    EdgeFilter {
                        type_filter: text_of(*tag),
                        high_filter: *high_filter,
                        low_filter: *low_filter,
                    },
                ),
                limit as nat,
            ),
    {
        let ghost all = all_edges(self@.edges);
        let ghost filter = EdgeFilter {
            type_filter: text_of(*tag),
            high_filter: *high_filter,
            low_filter: *low_filter,
        };
        let ghost pred = leaves(source@, filter);
        let ghost base = edge_values_model(results@);
        let ghost full = base + all.filter(pred);
        let start_text = match tag {
            Some(t) => t.clone(),
            None => String::new(),
        };
        let start = StoredEdgeKey::scan_start(source, start_text);
        let first = self.edges.lower_bound(&start);
        proof {
            self.edges.lemma_ascending();
            assert forall|j: int| 0 <= j < first implies !pred(#[trigger] all[j]) by {
                let key = all[j].0;
                assert(edge_key_before(key, start@));
                String::lemma_irreflexive(key.t);
                lemma_empty_text_first(key.t);
            }
            lemma_filter_take_none(all, pred, first as int);
            assert(base + Seq::<EdgeEntry>::empty() =~= base);
        }
        let n = self.edges.len();
        let mut i: usize = first;
        while i < n
            invariant
                self.wf(),
                all == all_edges(self@.edges),
                lists_ascending::<StoredEdgeKey, (u32, Timestamp)>(self@.edges, all),
                n == all.len(),
                first <= i <= n,
                filter == (EdgeFilter {
                    type_filter: text_of(*tag),
                    high_filter: *high_filter,
                    low_filter: *low_filter,
                }),
                pred == leaves(source@, filter),
                base == edge_values_model(old(results)@),
                full == base + all.filter(pred),
                start@.outbound_id == source@,
                start@.inbound_id == 0,
                match *tag {
                    Some(t) => start@.t == t@,
                    None => start@.t.len() == 0,
                },
                forall|j: int|
                    #![trigger all[j]]
                    first <= j < n ==> !edge_key_before(all[j].0, start@),
                results.len() < limit,
                edge_values_model(results@) == base + all.take(i as int).filter(pred),
            decreases n - i,
        {
            let key = self.edges.key_at(i);
            let value = self.edges.value_at(i);
            let ghost here = all[i as int];
            assert(here.0 == key@ && here.1 == (value.0@, value.1));
            let tag_differs = match tag {
                Some(t) => !(key.t == *t),
                None => false,
            };
            if key.outbound_id.0 != source.0 || tag_differs {
                proof {
                    String::lemma_total(here.0.t, start@.t);
                    assert forall|j: int| i <= j < all.len() implies !pred(#[trigger] all[j]) by {
                        let other = all[j].0;
                        if j > i {
                            assert(edge_key_before(here.0, other));
                        }
                        if other.outbound_id == source@ && j > i && here.0.outbound_id == source@ {
                            String::lemma_irreflexive(start@.t);
                            if text_before(here.0.t, other.t) && other.t == start@.t {
                                lemma_asymmetric::<String>(here.0.t, start@.t);
                            }
                        }
                    }
                    lemma_filter_rest_none(all, pred, i as int);
                    assert(capped(full, limit as nat) == full);
                }
                return ;
            }
            proof {
                lemma_filter_take_next(all, pred, i as int);
            }
            if Self::in_window(&value.1, high_filter, low_filter) {
                proof {
                    self.lemma_tagged();
                    assert(self@.edges.contains_pair(here.0, here.1));
                    assert(self@.edges.contains_key(here.0));
                    assert(pred(here));
                }
                let ghost before = results@;
                let found = key.to_key();
                let weight = value.0;
                let update_datetime = value.1;
                results.push((found, weight, update_datetime));
                proof {
                    assert(results@ == before.push((found, weight, update_datetime)));
                    assert(edge_values_model(results@) =~= edge_values_model(before).push(here));
                    assert(edge_values_model(results@) =~= base + all.take(i + 1).filter(pred));
                }
                if results.len() == limit {
                    proof {
                        lemma_filter_take_is_prefix(all, pred, i + 1);
                        assert((base + all.take(i + 1).filter(pred)).is_prefix_of(full));
                        lemma_capped_at_prefix(edge_values_model(results@), full, limit as nat);
                    }
                    return ;
                }
            } else {
                assert(!pred(here));
            }
            i += 1;
        }
        proof {
            assert(all.take(i as int) =~= all);
            assert(capped(full, limit as nat) == full);
        }
    }

    /// For each of `sources` in turn, the edges that start there and pass
    /// the filters, `limit` at most.
    fn edges_leaving(
        &self,
        sources: &Vec<(Uuid, VertexValue)>,
        tag: &Option<String>,
        high_filter: &Option<Timestamp>,
        low_filter: &Option<Timestamp>,
        limit: u32,
    ) -> (results: Vec<(EdgeKey, Weight, Timestamp)>)
        requires
            self.wf(),
        ensures
            edge_values_model(results@) == capped(
                outbound_edges(
                    self@.edges,
                    ids_of(vertex_values_model(sources@)),
                    EdgeFilter {
                        type_filter: text_of(*tag),
                        high_filter: *high_filter,
                        low_filter: *low_filter,
                    },
                ),
                limit as nat,
            ),
    {
        let ghost ends = ids_of(vertex_values_model(sources@));
        let ghost filter = EdgeFilter {
            type_filter: text_of(*tag),
            high_filter: *high_filter,
            low_filter: *low_filter,
        };
        let ghost total = outbound_edges(self@.edges, ends, filter);
        let mut results: Vec<(EdgeKey, Weight, Timestamp)> = Vec::new();
        if limit == 0 {
            proof {
                assert(capped(total, 0) =~= edge_values_model(results@));
            }
            return results;
        }
        let mut v: usize = 0;
        while v < sources.len()
            invariant
                self.wf(),
                limit > 0,
                ends == ids_of(vertex_values_model(sources@)),
                filter == (EdgeFilter {
                    type_filter: text_of(*tag),
                    high_filter: *high_filter,
                    low_filter: *low_filter,
                }),
                total == outbound_edges(self@.edges, ends, filter),
                v <= sources.len(),
                results.len() < limit,
                edge_values_model(results@) == outbound_edges(
                    self@.edges,
                    ends.take(v as int),
                    filter,
                ),
            decreases sources.len() - v,
        {
            let source = sources[v].0;
            self.append_edges_from(
                source,
                tag,
                high_filter,
                low_filter,
                limit as usize,
                &mut results,
            );
            let ghost grown = outbound_edges(self@.edges, ends.take(v + 1), filter);
            proof {
                assert(ends[v as int] == source@);
                lemma_outbound_edges_next(self@.edges, ends, filter, v as int);
                assert(edge_values_model(results@) == capped(grown, limit as nat));
                lemma_capped_is_prefix(grown, limit as nat);
            }
            if results.len() == limit as usize {
                proof {
                    lemma_outbound_edges_prefix(self@.edges, ends, filter, v + 1);
                    lemma_prefix_transitive(edge_values_model(results@), grown, total);
                    lemma_capped_at_prefix(edge_values_model(results@), total, limit as nat);
                }
                return results;
            }
            v += 1;
        }
        proof {
            assert(ends.take(v as int) =~= ends);
        }
        results
    }

    /// The edges that end at one of `targets` and pass the filters, in
    /// ascending order of their keys, `limit` at most.
    fn edges_arriving(
        &self,
        targets: &Vec<(Uuid, VertexValue)>,
        tag: &Option<String>,
        high_filter: &Option<Timestamp>,
        low_filter: &Option<Timestamp>,
        limit: u32,
    ) -> (results: Vec<(EdgeKey, Weight, Timestamp)>)
        requires
            self.wf(),
        ensures
            edge_values_model(results@) == capped(
                inbound_edges(
                    self@.edges,
                    ids_of(vertex_values_model(targets@)),
                    EdgeFilter {
                        type_filter: text_of(*tag),
                        high_filter: *high_filter,
                        low_filter: *low_filter,
                    },
                ),
                limit as nat,
            ),
    {
        let ghost ends = ids_of(vertex_values_model(targets@));
        let ghost filter = EdgeFilter {
            type_filter: text_of(*tag),
            high_filter: *high_filter,
            low_filter: *low_filter,
        };
        let ghost all = all_edges(self@.edges);
        let ghost pred = arrives(ends, filter);
        let ghost total = all.filter(pred);
        let mut results: Vec<(EdgeKey, Weight, Timestamp)> = Vec::new();
        if limit == 0 {
            proof {
                assert(capped(total, 0) =~= edge_values_model(results@));
            }
            return results;
        }
        let mut candidates: SortedMap<Uuid, ()> = SortedMap::new();
        let mut t: usize = 0;
        while t < targets.len()
            invariant
                t <= targets.len(),
                candidates.wf(),
                ends == ids_of(vertex_values_model(targets@)),
                forall|id: u128| #[trigger]
                    candidates@.contains_key(id) <==> exists|k: int|
                        0 <= k < t && #[trigger] ends[k] == id,
            decreases targets.len() - t,
        {
            let id = targets[t].0;
            candidates.insert(id, ());
            proof {
                assert(ends[t as int] == id@);
            }
            t += 1;
        }
        proof {
            self.edges.lemma_ascending();
            assert(all.take(0) =~= Seq::<EdgeEntry>::empty());
            lemma_filter_take_none(all, pred, 0);
        }
        let n = self.edges.len();
        let mut i: usize = 0;
        while i < n
            invariant
                self.wf(),
                candidates.wf(),
                limit > 0,
                all == all_edges(self@.edges),
                lists_ascending::<StoredEdgeKey, (u32, Timestamp)>(self@.edges, all),
                n == all.len(),
                i <= n,
                ends == ids_of(vertex_values_model(targets@)),
                filter == (EdgeFilter {
                    type_filter: text_of(*tag),
                    high_filter: *high_filter,
                    low_filter: *low_filter,
                }),
                pred == arrives(ends, filter),
                total == all.filter(pred),
                forall|id: u128| #[trigger] candidates@.contains_key(id) <==> ends.contains(id),
                results.len() < limit,
                edge_values_model(results@) == all.take(i as int).filter(pred),
            decreases n - i,
        {
            let key = self.edges.key_at(i);
            let value = self.edges.value_at(i);
            let ghost here = all[i as int];
            assert(here.0 == key@ && here.1 == (value.0@, value.1));
            let tag_fits = match tag {
                Some(t) => key.t == *t,
                None => true,
            };
            proof {
                lemma_filter_take_next(all, pred, i as int);
            }
            if candidates.contains_key(&key.inbound_id) && tag_fits && Self::in_window(
                &value.1,
                high_filter,
                low_filter,
            ) {
                proof {
                    self.lemma_tagged();
                    assert(self@.edges.contains_pair(here.0, here.1));
                    assert(self@.edges.contains_key(here.0));
                    assert(pred(here));
                }
                let ghost before = results@;
                let found = key.to_key();
                let weight = value.0;
                let update_datetime = value.1;
                results.push((found, weight, update_datetime));
                proof {
                    assert(results@ == before.push((found, weight, update_datetime)));
                    assert(edge_values_model(results@) =~= edge_values_model(before).push(here));
                }
                if results.len() == limit as usize {
                    proof {
                        lemma_filter_take_is_prefix(all, pred, i + 1);
                        lemma_capped_at_prefix(edge_values_model(results@), total, limit as nat);
                    }
                    return results;
                }
            } else {
                assert(!pred(here));
            }
            i += 1;
        }
        proof {
            assert(all.take(i as int) =~= all);
        }
        results
    }

    /// The vertices that a query names, each with what the store holds of
    /// it. The store answers every query.
    pub fn get_vertex_values_by_query(&self, q: VertexQuery) -> (r: Result<
        Vec<(Uuid, VertexValue)>,
        Error,
    >)
        requires
            self.wf(),
        ensures
            r is Ok,
            vertex_values_model(r->Ok_0@) == vertices_of(self@, q),
        decreases q,
    {
        match q {
            VertexQuery::All { start_id, limit } => Ok(self.vertices_in_range(start_id, limit)),
            VertexQuery::Vertices { ids } => Ok(self.vertices_with_ids(&ids)),
            VertexQuery::Pipe { edge_query, converter, limit } => {
                match self.get_edge_values_by_query(*edge_query) {
                    Ok(edge_values) => {
                        let ids = Self::endpoint_ids(&edge_values, converter, limit);
                        Ok(self.vertices_with_ids(&ids))
                    },
                    Err(e) => Err(e),
                }
            },
        }
    }

    /// The edges that a query names, each with its weight and the time of
    /// its last write. The store answers every query.
    pub fn get_edge_values_by_query(&self, q: EdgeQuery) -> (r: Result<
        Vec<(EdgeKey, Weight, Timestamp)>,
        Error,
    >)
        requires
            self.wf(),
        ensures
            r is Ok,
            edge_values_model(r->Ok_0@) == edges_of(self@, q),
        decreases q,
    {
        match q {
            EdgeQuery::Edges { keys } => Ok(self.edges_with_keys(&keys)),
            EdgeQuery::Pipe {
                vertex_query,
                converter,
                type_filter,
                high_filter,
                low_filter,
                limit,
            } => {
                match self.get_vertex_values_by_query(*vertex_query) {
                    Ok(vertex_values) => {
                        let tag = match type_filter {
                            Some(t) => Some(t.into_string()),
                            None => None,
                        };
                        match converter {
                            QueryTypeConverter::Outbound => Ok(
                                self.edges_leaving(
                                    &vertex_values,
                                    &tag,
                                    &high_filter,
                                    &low_filter,
                                    limit,
                                ),
                            ),
                            QueryTypeConverter::Inbound => Ok(
                                self.edges_arriving(
                                    &vertex_values,
                                    &tag,
                                    &high_filter,
                                    &low_filter,
                                    limit,
                                ),
                            ),
                        }
                    },
                    Err(e) => Err(e),
                }
            },
        }
    }
}

/// A graph store that lives in memory.
pub struct MemoryDatastore(InternalMemoryDatastore);

impl View for MemoryDatastore {
    type V = StoreModel;

    closed spec fn view(&self) -> StoreModel {
        self.0@
    }
}

impl MemoryDatastore {
    /// The indices of the store are in order, and no tag in it is empty.
    pub closed spec fn wf(&self) -> bool {
        self.0.wf()
    }

    /// In a well-formed store no tag is empty.
    pub proof fn lemma_tagged(&self)
        requires
            self.wf(),
        ensures
            self@.tagged(),
    {
    }

    /// The vertices and the edges of a well-formed store can be listed in
    /// ascending order.
    pub proof fn lemma_listed(&self)
        requires
            self.wf(),
        ensures
            self@.listed(),
    {
        self.0.vertices.lemma_ascending();
        self.0.edges.lemma_ascending();
    }

    /// A new store. With `create_default_account` it holds one account,
    /// whose identifier is zero and whose secret is empty; else it holds
    /// nothing.
    pub fn new(create_default_account: bool) -> (datastore: MemoryDatastore)
        ensures
            datastore.wf(),
            datastore@ == if create_default_account {
                StoreModel::with_default_account()
            } else {
                StoreModel::empty()
            },
    {
        let mut inner = InternalMemoryDatastore::new();
        if create_default_account {
            inner.accounts.insert(Uuid::default(), String::new());
        }
        MemoryDatastore(inner)
    }

    /// Whether the account exists.
    pub fn has_account(&self, account_id: Uuid) -> (r: Result<bool, Error>)
        requires
            self.wf(),
        ensures
            r == Ok::<bool, Error>(self@.accounts.contains_key(account_id@)),
    {
        Ok(self.0.accounts.contains_key(&account_id))
    }

    /// Opens an account under a fresh identifier and with a fresh secret,
    /// and hands out both.
    pub fn create_account(&mut self) -> (r: Result<(Uuid, String), Error>)
        requires
            old(self).wf(),
        ensures
            final(self).wf(),
            r is Ok,
            final(self)@ == (StoreModel {
                accounts: old(self)@.accounts.insert(r->Ok_0.0@, r->Ok_0.1@),
                ..old(self)@
            }),
            is_random_uuid(r->Ok_0.0@),
            r->Ok_0.1@.len() == SECRET_LENGTH,
            forall|i: int|
                0 <= i < r->Ok_0.1@.len() ==> is_alphanumeric(#[trigger] r->Ok_0.1@[i]),
    {
        let id = parent_uuid();
        let secret = generate_random_secret();
        self.0.accounts.insert(id, secret.clone());
        proof {
            lemma_tagged_kept(old(self).0@, self.0@);
        }
        Ok((id, secret))
    }

    /// Closes the account.
    pub fn delete_account(&mut self, account_id: Uuid) -> (r: Result<(), Error>)
        requires
            old(self).wf(),
        ensures
            final(self).wf(),
            old(self)@.accounts.contains_key(account_id@) ==> r == Ok::<(), Error>(()),
            !old(self)@.accounts.contains_key(account_id@) ==> r == Err::<(), Error>(
                Error::AccountNotFound,
            ),
            final(self)@ == (StoreModel {
                accounts: old(self)@.accounts.remove(account_id@),
                ..old(self)@
            }),
    {
        let removed = self.0.accounts.remove(&account_id);
        proof {
            lemma_tagged_kept(old(self).0@, self.0@);
        }
        if removed {
            Ok(())
        } else {
            Err(Error::AccountNotFound)
        }
    }

    /// Whether `secret` is the secret of the account.
    pub fn auth(&self, account_id: Uuid, secret: String) -> (r: Result<bool, Error>)
        requires
            self.wf(),
        ensures
            r == Ok::<bool, Error>(self@.authenticates(account_id@, secret@)),
    {
        match self.0.accounts.get(&account_id) {
            Some(fetched_secret) => Ok(*fetched_secret == secret),
            None => Ok(false),
        }
    }

    /// A transaction that acts for the account. The account is not looked
    /// up: whoever asks is trusted to have authenticated.
    pub fn transaction(&self, account_id: Uuid) -> (r: Result<MemoryTransaction, Error>)
        ensures
            r is Ok,
            r->Ok_0.account() == account_id@,
    {
        Ok(MemoryTransaction { account_id })
    }
}

/// A session of operations on a store in the name of one account.
pub struct MemoryTransaction {
    account_id: Uuid,
}

impl MemoryTransaction {
    /// The account that the transaction acts for.
    pub closed spec fn account(&self) -> u128 {
        self.account_id@
    }

    /// The account that the transaction acts for.
    pub fn account_id(&self) -> (id: Uuid)
        ensures
            id@ == self.account(),
    {
        self.account_id
    }

    /// Puts a new vertex with the tag `t` into the store. The caller owns
    /// it, and its identifier lies in the block of the caller.
    pub fn create_vertex(&self, datastore: &mut MemoryDatastore, t: Type) -> (r: Result<
        Uuid,
        Error,
    >)
        requires
            old(datastore).wf(),
        ensures
            final(datastore).wf(),
            r is Ok,
            is_child_of(r->Ok_0@, self.account()),
            final(datastore)@ == (StoreModel {
                vertices: old(datastore)@.vertices.insert(
                    r->Ok_0@,
                    VertexValueModel { owner_id: self.account(), t: t@ },
                ),
                ..old(datastore)@
            }),
    {
        let id = child_uuid(self.account_id);
        datastore.0.vertices.insert(id, VertexValue::new(self.account_id, t));
        proof {
            lemma_tagged_kept(old(datastore).0@, datastore.0@);
        }
        Ok(id)
    }

    /// Puts `vertex` into the store, owned by the caller, unless the store
    /// holds a vertex with that identifier already. Says whether it did.
    pub fn create_vertex_from(&self, datastore: &mut MemoryDatastore, vertex: Vertex) -> (r: Result<
        bool,
        Error,
    >)
        requires
            old(datastore).wf(),
        ensures
            final(datastore).wf(),
            r == Ok::<bool, Error>(!old(datastore)@.vertices.contains_key(vertex.id@)),
            final(datastore)@ == if old(datastore)@.vertices.contains_key(vertex.id@) {
                old(datastore)@
            } else {
                StoreModel {
                    vertices: old(datastore)@.vertices.insert(
                        vertex.id@,
                        VertexValueModel { owner_id: self.account(), t: vertex.t@ },
                    ),
                    ..old(datastore)@
                }
            },
    {
        if datastore.0.vertices.contains_key(&vertex.id) {
            Ok(false)
        } else {
            datastore.0.vertices.insert(vertex.id, VertexValue::new(self.account_id, vertex.t));
            proof {
            lemma_tagged_kept(old(datastore).0@, datastore.0@);
        }
            Ok(true)
        }
    }

    /// The vertices that the query names.
    pub fn get_vertices(&self, datastore: &MemoryDatastore, q: VertexQuery) -> (r: Result<
        Vec<Vertex>,
        Error,
    >)
        requires
            datastore.wf(),
        ensures
            r is Ok,
            vertices_model(r->Ok_0@) == vertices_handed_out(vertices_of(datastore@, q)),
    {
        match datastore.0.get_vertex_values_by_query(q) {
            Ok(vertex_values) => {
                let ghost entries = vertex_values_model(vertex_values@);
                let mut vertices: Vec<Vertex> = Vec::new();
                let mut i: usize = 0;
                while i < vertex_values.len()
                    invariant
                        i <= vertex_values.len(),
                        entries == vertex_values_model(vertex_values@),
                        vertices_model(vertices@) == vertices_handed_out(entries.take(i as int)),
                    decreases vertex_values.len() - i,
                {
                    let ghost before = vertices@;
                    let vertex = Vertex::new(vertex_values[i].0, vertex_values[i].1.t.clone());
                    vertices.push(vertex);
                    proof {
                        assert(vertices@ == before.push(vertex));
                        assert(entries[i as int] == (
                            vertex_values@[i as int].0@,
                            vertex_values@[i as int].1@,
                        ));
                        assert(vertex@ == vertex_of(entries[i as int]));
                        assert(entries.take(i + 1) =~= entries.take(i as int).push(
                            entries[i as int],
                        ));
                        assert(vertices_model(vertices@) =~= vertices_model(before).push(vertex@));
                        assert(vertices_handed_out(entries.take(i + 1)) =~= vertices_handed_out(
                            entries.take(i as int),
                        ).push(vertex_of(entries[i as int])));
                    }
                    i += 1;
                }
                proof {
                    assert(entries.take(i as int) =~= entries);
                }
                Ok(vertices)
            },
            Err(e) => Err(e),
        }
    }

    /// Takes out of the store those vertices that the query names and the
    /// caller owns. Vertices of others stay.
    pub fn delete_vertices(&self, datastore: &mut MemoryDatastore, q: VertexQuery) -> (r: Result<
        (),
        Error,
    >)
        requires
            old(datastore).wf(),
        ensures
            final(datastore).wf(),
            r == Ok::<(), Error>(()),
            final(datastore)@ == (StoreModel {
                vertices: old(datastore)@.vertices.remove_keys(
                    owned_ids(vertices_of(old(datastore)@, q), self.account()),
                ),
                ..old(datastore)@
            }),
    {
        let ghost start = datastore@;
        match datastore.0.get_vertex_values_by_query(q) {
            Ok(vertex_values) => {
                let ghost entries = vertex_values_model(vertex_values@);
                let mut i: usize = 0;
                proof {
                    assert(start.vertices.remove_keys(
                        owned_ids(entries.take(0), self.account()),
                    ) =~= start.vertices);
                }
                while i < vertex_values.len()
                    invariant
                        i <= vertex_values.len(),
                        datastore.wf(),
                        start.tagged(),
                        entries == vertex_values_model(vertex_values@),
                        datastore@ == (StoreModel {
                            vertices: start.vertices.remove_keys(
                                owned_ids(entries.take(i as int), self.account()),
                            ),
                            ..start
                        }),
                    decreases vertex_values.len() - i,
                {
                    let ghost before = datastore@.vertices;
                    let ghost done = owned_ids(entries.take(i as int), self.account());
                    let ghost next = owned_ids(entries.take(i + 1), self.account());
                    let id = vertex_values[i].0;
                    let owned = vertex_values[i].1.owner_id == self.account_id;
                    proof {
                        assert(entries[i as int] == (id@, vertex_values@[i as int].1@));
                        assert forall|x: u128| next.contains(x) <==> (done.contains(x) || (owned
                            && x == id@)) by {
                            if next.contains(x) {
                                let k = choose|k: int|
                                    0 <= k < entries.take(i + 1).len() && (#[trigger] entries.take(
                                        i + 1,
                                    )[k]).0 == x && entries.take(i + 1)[k].1.owner_id
                                        == self.account();
                                if k < i {
                                    assert(entries.take(i as int)[k] == entries.take(i + 1)[k]);
                                }
                            }
                            if done.contains(x) {
                                let k = choose|k: int|
                                    0 <= k < entries.take(i as int).len() && (
                                    #[trigger] entries.take(i as int)[k]).0 == x && entries.take(
                                        i as int,
                                    )[k].1.owner_id == self.account();
                                assert(entries.take(i + 1)[k] == entries.take(i as int)[k]);
                            }
                            if owned && x == id@ {
                                assert(entries.take(i + 1)[i as int] == entries[i as int]);
                            }
                        }
                    }
                    if owned {
                        let _ = datastore.0.vertices.remove(&id);
                        proof {
                            assert(before.remove(id@) =~= start.vertices.remove_keys(next));
                        }
                    } else {
                        proof {
                            assert(next =~= done);
                        }
                    }
                    i += 1;
                }
                proof {
                    assert(entries.take(i as int) =~= entries);
                }
                Ok(())
            },
            Err(e) => {
                proof {
                    assert(false);
                }
                Err(e)
            },
        }
    }
}

impl MemoryTransaction {
    /// Puts an edge under `key` into the store, with `weight` and with
    /// `update_datetime` as the time of writing, in place of what was held
    /// under `key`. The edge must start at a vertex of the caller and end at
    /// a vertex that exists.
    pub fn create_edge_at(
        &self,
        datastore: &mut MemoryDatastore,
        key: EdgeKey,
        weight: Weight,
        update_datetime: Timestamp,
    ) -> (r: Result<(), Error>)
        requires
            old(datastore).wf(),
        ensures
            final(datastore).wf(),
            r == old(datastore)@.create_edge_outcome(self.account(), key@),
            r is Err ==> final(datastore)@ == old(datastore)@,
            r is Ok ==> final(datastore)@ == (StoreModel {
                edges: old(datastore)@.edges.insert(key@, (weight@, update_datetime)),
                ..old(datastore)@
            }),
    {
        match datastore.0.vertices.get(&key.outbound_id) {
            Some(value) => {
                if value.owner_id.0 != self.account_id.0 {
                    return Err(Error::Unauthorized);
                }
                if !datastore.0.vertices.contains_key(&key.inbound_id) {
                    return Err(Error::VertexNotFound);
                }
            },
            None => {
                return Err(Error::VertexNotFound);
            },
        }
        let stored = key.to_stored();
        datastore.0.edges.insert(stored, (weight, update_datetime));
        proof {
            lemma_tagged_kept(old(datastore).0@, datastore.0@);
        }
        Ok(())
    }

    /// Puts an edge under `key` into the store, with `weight` and with the
    /// present moment as the time of writing, in place of what was held
    /// under `key`. The edge must start at a vertex of the caller and end at
    /// a vertex that exists.
    pub fn create_edge(&self, datastore: &mut MemoryDatastore, key: EdgeKey, weight: Weight) -> (r:
        Result<(), Error>)
        requires
            old(datastore).wf(),
        ensures
            final(datastore).wf(),
            r == old(datastore)@.create_edge_outcome(self.account(), key@),
            r is Err ==> final(datastore)@ == old(datastore)@,
            r is Ok ==> final(datastore)@.edges.contains_key(key@) && final(datastore)@.edges[key@].0
                == weight@ && final(datastore)@ == (StoreModel {
                edges: old(datastore)@.edges.insert(key@, final(datastore)@.edges[key@]),
                ..old(datastore)@
            }),
    {
        let update_datetime = now();
        self.create_edge_at(datastore, key, weight, update_datetime)
    }

    /// The edges that the query names.
    pub fn get_edges(&self, datastore: &MemoryDatastore, q: EdgeQuery) -> (r: Result<
        Vec<Edge>,
        Error,
    >)
        requires
            datastore.wf(),
        ensures
            r is Ok,
            edges_model(r->Ok_0@) == edges_handed_out(edges_of(datastore@, q)),
    {
        match datastore.0.get_edge_values_by_query(q) {
            Ok(edge_values) => {
                let ghost entries = edge_values_model(edge_values@);
                let mut edges: Vec<Edge> = Vec::new();
                let mut i: usize = 0;
                while i < edge_values.len()
                    invariant
                        i <= edge_values.len(),
                        entries == edge_values_model(edge_values@),
                        edges_model(edges@) == edges_handed_out(entries.take(i as int)),
                    decreases edge_values.len() - i,
                {
                    let ghost before = edges@;
                    let edge = Edge::new(
                        edge_values[i].0.clone(),
                        edge_values[i].1,
                        edge_values[i].2,
                    );
                    edges.push(edge);
                    proof {
                        assert(edges@ == before.push(edge));
                        assert(entries[i as int] == (
                            edge_values@[i as int].0@,
                            (edge_values@[i as int].1@, edge_values@[i as int].2),
                        ));
                        assert(edge@ == edge_of(entries[i as int]));
                        assert(entries.take(i + 1) =~= entries.take(i as int).push(
                            entries[i as int],
                        ));
                        assert(edges_model(edges@) =~= edges_model(before).push(edge@));
                        assert(edges_handed_out(entries.take(i + 1)) =~= edges_handed_out(
                            entries.take(i as int),
                        ).push(edge_of(entries[i as int])));
                    }
                    i += 1;
                }
                proof {
                    assert(entries.take(i as int) =~= entries);
                }
                Ok(edges)
            },
            Err(e) => Err(e),
        }
    }

    /// How many edges the query names.
    pub fn get_edge_count(&self, datastore: &MemoryDatastore, q: EdgeQuery) -> (r: Result<
        u64,
        Error,
    >)
        requires
            datastore.wf(),
        ensures
            r is Ok,
            r->Ok_0 == edges_of(datastore@, q).len(),
    {
        match datastore.0.get_edge_values_by_query(q) {
            Ok(edge_values) => {
                proof {
                    assert(edge_values_model(edge_values@).len() == edge_values@.len());
                }
                Ok(edge_values.len() as u64)
            },
            Err(e) => Err(e),
        }
    }
}

impl MemoryTransaction {
    /// Takes out of the store those of `edge_values` that start at a vertex
    /// of the caller.
    fn remove_owned_edges(
        &self,
        datastore: &mut MemoryDatastore,
        edge_values: &Vec<(EdgeKey, Weight, Timestamp)>,
    )
        requires
            old(datastore).wf(),
            old(datastore)@.holds_starts_of(edge_values_model(edge_values@)),
        ensures
            final(datastore).wf(),
            final(datastore)@ == (StoreModel {
                edges: old(datastore)@.edges.remove_keys(
                    owned_keys(old(datastore)@, edge_values_model(edge_values@), self.account()),
                ),
                ..old(datastore)@
            }),
    {
        let ghost start = datastore@;
        let ghost entries = edge_values_model(edge_values@);
        let mut i: usize = 0;
        proof {
            assert(start.edges.remove_keys(owned_keys(start, entries.take(0), self.account()))
                =~= start.edges);
        }
        while i < edge_values.len()
            invariant
                i <= edge_values.len(),
                datastore.wf(),
                start.tagged(),
                entries == edge_values_model(edge_values@),
                start.holds_starts_of(entries),
                datastore@ == (StoreModel {
                    edges: start.edges.remove_keys(
                        owned_keys(start, entries.take(i as int), self.account()),
                    ),
                    ..start
                }),
            decreases edge_values.len() - i,
        {
            let ghost before = datastore@;
            let ghost done = owned_keys(start, entries.take(i as int), self.account());
            let ghost next = owned_keys(start, entries.take(i + 1), self.account());
            let stored = edge_values[i].0.to_stored();
            proof {
                assert(entries[i as int].0 == stored@);
            }
            let owned = match datastore.0.vertices.get(&edge_values[i].0.outbound_id) {
                Some(vertex_value) => vertex_value.owner_id.0 == self.account_id.0,
                None => false,
            };
            proof {
                assert(owned == start.owns(self.account(), stored@.outbound_id));
                assert forall|x: EdgeKeyModel| next.contains(x) <==> (done.contains(x) || (owned
                    && x == stored@)) by {
                    if next.contains(x) {
                        let k = choose|k: int|
                            0 <= k < entries.take(i + 1).len() && (#[trigger] entries.take(
                                i + 1,
                            )[k]).0 == x && start.owns(self.account(), x.outbound_id);
                        if k < i {
                            assert(entries.take(i as int)[k] == entries.take(i + 1)[k]);
                        }
                    }
                    if done.contains(x) {
                        let k = choose|k: int|
                            0 <= k < entries.take(i as int).len() && (#[trigger] entries.take(
                                i as int,
                            )[k]).0 == x && start.owns(self.account(), x.outbound_id);
                        assert(entries.take(i + 1)[k] == entries.take(i as int)[k]);
                    }
                    if owned && x == stored@ {
                        assert(entries.take(i + 1)[i as int] == entries[i as int]);
                    }
                }
            }
            if owned {
                let _ = datastore.0.edges.remove(&stored);
                proof {
                    assert(before.edges.remove(stored@) =~= start.edges.remove_keys(next));
                    lemma_tagged_kept(before, datastore.0@);
                }
            } else {
                proof {
                    assert(next =~= done);
                }
            }
            i += 1;
        }
        proof {
            assert(entries.take(i as int) =~= entries);
        }
    }

    /// Takes out of the store those edges that the query names and that
    /// start at a vertex of the caller. Every edge that the query names must
    /// start at a vertex that exists.
    pub fn delete_edges(&self, datastore: &mut MemoryDatastore, q: EdgeQuery) -> (r: Result<
        (),
        Error,
    >)
        requires
            old(datastore).wf(),
            old(datastore)@.holds_starts_of(edges_of(old(datastore)@, q)),
        ensures
            final(datastore).wf(),
            r == Ok::<(), Error>(()),
            final(datastore)@ == (StoreModel {
                edges: old(datastore)@.edges.remove_keys(
                    owned_keys(old(datastore)@, edges_of(old(datastore)@, q), self.account()),
                ),
                ..old(datastore)@
            }),
    {
        match datastore.0.get_edge_values_by_query(q) {
            Ok(edge_values) => {
                self.remove_owned_edges(datastore, &edge_values);
                Ok(())
            },
            Err(e) => {
                proof {
                    assert(false);
                }
                Err(e)
            },
        }
    }

    /// Takes out of the store those edges that the query names and that
    /// start at a vertex of the caller, provided that every edge that the
    /// query names starts at a vertex that exists. Where one does not, the
    /// store stays as it is and the call fails.
    pub fn delete_anchored_edges(&self, datastore: &mut MemoryDatastore, q: EdgeQuery) -> (r:
        Result<(), Error>)
        requires
            old(datastore).wf(),
        ensures
            final(datastore).wf(),
            old(datastore)@.holds_starts_of(edges_of(old(datastore)@, q)) ==> r == Ok::<(), Error>(
                (),
            ) && final(datastore)@ == (StoreModel {
                edges: old(datastore)@.edges.remove_keys(
                    owned_keys(old(datastore)@, edges_of(old(datastore)@, q), self.account()),
                ),
                ..old(datastore)@
            }),
            !old(datastore)@.holds_starts_of(edges_of(old(datastore)@, q)) ==> r == Err::<
                (),
                Error,
            >(Error::VertexNotFound) && final(datastore)@ == old(datastore)@,
    {
        match datastore.0.get_edge_values_by_query(q) {
            Ok(edge_values) => {
                let ghost entries = edge_values_model(edge_values@);
                let mut i: usize = 0;
                while i < edge_values.len()
                    invariant
                        i <= edge_values.len(),
                        datastore.wf(),
                        datastore@ == old(datastore)@,
                        entries == edge_values_model(edge_values@),
                        entries == edges_of(old(datastore)@, q),
                        forall|k: int|
                            #![trigger entries[k]]
                            0 <= k < i ==> datastore@.vertices.contains_key(
                                entries[k].0.outbound_id,
                            ),
                    decreases edge_values.len() - i,
                {
                    if !datastore.0.vertices.contains_key(&edge_values[i].0.outbound_id) {
                        proof {
                            assert(entries[i as int].0.outbound_id == edge_values@[i
                                as int].0.outbound_id@);
                            assert(!old(datastore)@.vertices.contains_key(
                                entries[i as int].0.outbound_id,
                            ));
                        }
                        return Err(Error::VertexNotFound);
                    }
                    proof {
                        assert(entries[i as int].0.outbound_id == edge_values@[i
                            as int].0.outbound_id@);
                    }
                    i += 1;
                }
                self.remove_owned_edges(datastore, &edge_values);
                Ok(())
            },
            Err(e) => {
                proof {
                    assert(false);
                }
                Err(e)
            },
        }
    }

    /// How many vertices the store holds.
    pub fn get_vertex_count(&self, datastore: &MemoryDatastore) -> (r: Result<u64, Error>)
        requires
            datastore.wf(),
        ensures
            r is Ok,
            r->Ok_0 == all_vertices(datastore@.vertices).len(),
    {
        Ok(datastore.0.vertices.len() as u64)
    }

    /// Ends the transaction. Every write is in the store already.
    pub fn commit(self) -> (r: Result<(), Error>)
        ensures
            r == Ok::<(), Error>(()),
    {
        Ok(())
    }

    /// Would undo the writes of the transaction. A store in memory cannot:
    /// the call always fails.
    pub fn rollback(self) -> (r: Result<(), Error>)
        ensures
            r == Err::<(), Error>(Error::NotImplemented),
    {
        Err(Error::NotImplemented)
    }
}

impl MemoryTransaction {
    /// The metadata that the store holds under `name`.
    pub fn get_global_metadata(&self, datastore: &MemoryDatastore, name: String) -> (r: Result<
        JsonValue,
        Error,
    >)
        requires
            datastore.wf(),
        ensures
            match r {
                Ok(value) => datastore@.global_metadata.contains_key(name@) && value@
                    == datastore@.global_metadata[name@],
                Err(e) => !datastore@.global_metadata.contains_key(name@) && e
                    == Error::MetadataNotFound,
            },
    {
        match datastore.0.global_metadata.get(&name) {
            Some(value) => Ok(value.clone()),
            None => Err(Error::MetadataNotFound),
        }
    }

    /// Puts `value` under `name`, in place of what was held there.
    pub fn set_global_metadata(
        &self,
        datastore: &mut MemoryDatastore,
        name: String,
        value: JsonValue,
    ) -> (r: Result<(), Error>)
        requires
            old(datastore).wf(),
        ensures
            final(datastore).wf(),
            r == Ok::<(), Error>(()),
            final(datastore)@ == (StoreModel {
                global_metadata: old(datastore)@.global_metadata.insert(name@, value@),
                ..old(datastore)@
            }),
    {
        datastore.0.global_metadata.insert(name, value);
        proof {
            lemma_tagged_kept(old(datastore).0@, datastore.0@);
        }
        Ok(())
    }

    /// Takes away the metadata that the store holds under `name`.
    pub fn delete_global_metadata(&self, datastore: &mut MemoryDatastore, name: String) -> (r:
        Result<(), Error>)
        requires
            old(datastore).wf(),
        ensures
            final(datastore).wf(),
            old(datastore)@.global_metadata.contains_key(name@) ==> r == Ok::<(), Error>(()),
            !old(datastore)@.global_metadata.contains_key(name@) ==> r == Err::<(), Error>(
                Error::MetadataNotFound,
            ),
            final(datastore)@ == (StoreModel {
                global_metadata: old(datastore)@.global_metadata.remove(name@),
                ..old(datastore)@
            }),
    {
        let removed = datastore.0.global_metadata.remove(&name);
        proof {
            lemma_tagged_kept(old(datastore).0@, datastore.0@);
        }
        if removed {
            Ok(())
        } else {
            Err(Error::MetadataNotFound)
        }
    }

    /// The metadata that the account `owner_id` holds under `name`.
    pub fn get_account_metadata(
        &self,
        datastore: &MemoryDatastore,
        owner_id: Uuid,
        name: String,
    ) -> (r: Result<JsonValue, Error>)
        requires
            datastore.wf(),
        ensures
            match r {
                Ok(value) => datastore@.account_metadata.contains_key((owner_id@, name@)) && value@
                    == datastore@.account_metadata[(owner_id@, name@)],
                Err(e) => !datastore@.account_metadata.contains_key((owner_id@, name@)) && e
                    == Error::MetadataNotFound,
            },
    {
        let key = (owner_id, name);
        match datastore.0.account_metadata.get(&key) {
            Some(value) => Ok(value.clone()),
            None => Err(Error::MetadataNotFound),
        }
    }

    /// Puts `value` under `name` for the account `owner_id`, which must
    /// exist, in place of what was held there.
    pub fn set_account_metadata(
        &self,
        datastore: &mut MemoryDatastore,
        owner_id: Uuid,
        name: String,
        value: JsonValue,
    ) -> (r: Result<(), Error>)
        requires
            old(datastore).wf(),
        ensures
            final(datastore).wf(),
            old(datastore)@.accounts.contains_key(owner_id@) ==> r == Ok::<(), Error>(())
                && final(datastore)@ == (StoreModel {
                account_metadata: old(datastore)@.account_metadata.insert(
                    (owner_id@, name@),
                    value@,
                ),
                ..old(datastore)@
            }),
            !old(datastore)@.accounts.contains_key(owner_id@) ==> r == Err::<(), Error>(
                Error::AccountNotFound,
            ) && final(datastore)@ == old(datastore)@,
    {
        if !datastore.0.accounts.contains_key(&owner_id) {
            return Err(Error::AccountNotFound);
        }
        datastore.0.account_metadata.insert((owner_id, name), value);
        proof {
            lemma_tagged_kept(old(datastore).0@, datastore.0@);
        }
        Ok(())
    }

    /// Takes away the metadata that the account `owner_id` holds under
    /// `name`.
    pub fn delete_account_metadata(
        &self,
        datastore: &mut MemoryDatastore,
        owner_id: Uuid,
        name: String,
    ) -> (r: Result<(), Error>)
        requires
            old(datastore).wf(),
        ensures
            final(datastore).wf(),
            old(datastore)@.account_metadata.contains_key((owner_id@, name@)) ==> r == Ok::<
                (),
                Error,
            >(()),
            !old(datastore)@.account_metadata.contains_key((owner_id@, name@)) ==> r == Err::<
                (),
                Error,
            >(Error::MetadataNotFound),
            final(datastore)@ == (StoreModel {
                account_metadata: old(datastore)@.account_metadata.remove((owner_id@, name@)),
                ..old(datastore)@
            }),
    {
        let key = (owner_id, name);
        let removed = datastore.0.account_metadata.remove(&key);
        proof {
            lemma_tagged_kept(old(datastore).0@, datastore.0@);
        }
        if removed {
            Ok(())
        } else {
            Err(Error::MetadataNotFound)
        }
    }
}

impl MemoryTransaction {
    /// The metadata `name` of each vertex that the query names and that
    /// has it.
    pub fn get_vertex_metadata(&self, datastore: &MemoryDatastore, q: VertexQuery, name: String) -> (r:
        Result<SortedMap<Uuid, JsonValue>, Error>)
        requires
            datastore.wf(),
        ensures
            r is Ok,
            r->Ok_0.wf(),
            r->Ok_0@ == metadata_found(
                datastore@.vertex_metadata,
                ids_of(vertices_of(datastore@, q)),
                name@,
            ),
    {
        match datastore.0.get_vertex_values_by_query(q) {
            Ok(vertex_values) => {
                let ghost ids = ids_of(vertex_values_model(vertex_values@));
                let ghost held = datastore@.vertex_metadata;
                let mut result: SortedMap<Uuid, JsonValue> = SortedMap::new();
                let mut i: usize = 0;
                proof {
                    assert(result@ =~= metadata_found(held, ids.take(0), name@));
                }
                while i < vertex_values.len()
                    invariant
                        i <= vertex_values.len(),
                        datastore.wf(),
                        result.wf(),
                        ids == ids_of(vertex_values_model(vertex_values@)),
                        held == datastore@.vertex_metadata,
                        result@ == metadata_found(held, ids.take(i as int), name@),
                    decreases vertex_values.len() - i,
                {
                    let id = vertex_values[i].0;
                    let key = (id, name.clone());
                    let ghost before = result@;
                    proof {
                        assert(ids[i as int] == id@);
                        lemma_metadata_found_next(held, ids, name@, i as int);
                    }
                    match datastore.0.vertex_metadata.get(&key) {
                        Some(value) => {
                            let copy = value.clone();
                            result.insert(id, copy);
                        },
                        None => {},
                    }
                    i += 1;
                }
                proof {
                    assert(ids.take(i as int) =~= ids);
                }
                Ok(result)
            },
            Err(e) => Err(e),
        }
    }

    /// Puts `value` under `name` for each vertex that the query names, in
    /// place of what was held there.
    pub fn set_vertex_metadata(
        &self,
        datastore: &mut MemoryDatastore,
        q: VertexQuery,
        name: String,
        value: JsonValue,
    ) -> (r: Result<(), Error>)
        requires
            old(datastore).wf(),
        ensures
            final(datastore).wf(),
            r == Ok::<(), Error>(()),
            final(datastore)@ == (StoreModel {
                vertex_metadata: metadata_written(
                    old(datastore)@.vertex_metadata,
                    ids_of(vertices_of(old(datastore)@, q)),
                    name@,
                    value@,
                ),
                ..old(datastore)@
            }),
    {
        let ghost start = datastore@;
        match datastore.0.get_vertex_values_by_query(q) {
            Ok(vertex_values) => {
                let ghost ids = ids_of(vertex_values_model(vertex_values@));
                let mut i: usize = 0;
                proof {
                    assert(start.vertex_metadata =~= metadata_written(
                        start.vertex_metadata,
                        ids.take(0),
                        name@,
                        value@,
                    ));
                }
                while i < vertex_values.len()
                    invariant
                        i <= vertex_values.len(),
                        datastore.wf(),
                        start.tagged(),
                        ids == ids_of(vertex_values_model(vertex_values@)),
                        datastore@ == (StoreModel {
                            vertex_metadata: metadata_written(
                                start.vertex_metadata,
                                ids.take(i as int),
                                name@,
                                value@,
                            ),
                            ..start
                        }),
                    decreases vertex_values.len() - i,
                {
                    let id = vertex_values[i].0;
                    let ghost before = datastore@;
                    proof {
                        assert(ids[i as int] == id@);
                        lemma_metadata_written_next(
                            start.vertex_metadata,
                            ids,
                            name@,
                            value@,
                            i as int,
                        );
                    }
                    let copy = value.clone();
                    datastore.0.vertex_metadata.insert((id, name.clone()), copy);
                    proof {
                        lemma_tagged_kept(before, datastore.0@);
                    }
                    i += 1;
                }
                proof {
                    assert(ids.take(i as int) =~= ids);
                }
                Ok(())
            },
            Err(e) => {
                proof {
                    assert(false);
                }
                Err(e)
            },
        }
    }

    /// Takes away what is held under `name` for each vertex that the query
    /// names.
    pub fn delete_vertex_metadata(
        &self,
        datastore: &mut MemoryDatastore,
        q: VertexQuery,
        name: String,
    ) -> (r: Result<(), Error>)
        requires
            old(datastore).wf(),
        ensures
            final(datastore).wf(),
            r == Ok::<(), Error>(()),
            final(datastore)@ == (StoreModel {
                vertex_metadata: metadata_erased(
                    old(datastore)@.vertex_metadata,
                    ids_of(vertices_of(old(datastore)@, q)),
                    name@,
                ),
                ..old(datastore)@
            }),
    {
        let ghost start = datastore@;
        match datastore.0.get_vertex_values_by_query(q) {
            Ok(vertex_values) => {
                let ghost ids = ids_of(vertex_values_model(vertex_values@));
                let mut i: usize = 0;
                proof {
                    assert(start.vertex_metadata =~= metadata_erased(
                        start.vertex_metadata,
                        ids.take(0),
                        name@,
                    ));
                }
                while i < vertex_values.len()
                    invariant
                        i <= vertex_values.len(),
                        datastore.wf(),
                        start.tagged(),
                        ids == ids_of(vertex_values_model(vertex_values@)),
                        datastore@ == (StoreModel {
                            vertex_metadata: metadata_erased(
                                start.vertex_metadata,
                                ids.take(i as int),
                                name@,
                            ),
                            ..start
                        }),
                    decreases vertex_values.len() - i,
                {
                    let id = vertex_values[i].0;
                    let ghost before = datastore@;
                    proof {
                        assert(ids[i as int] == id@);
                        lemma_metadata_erased_next(start.vertex_metadata, ids, name@, i as int);
                    }
                    let key = (id, name.clone());
                    let _ = datastore.0.vertex_metadata.remove(&key);
                    proof {
                        lemma_tagged_kept(before, datastore.0@);
                    }
                    i += 1;
                }
                proof {
                    assert(ids.take(i as int) =~= ids);
                }
                Ok(())
            },
            Err(e) => {
                proof {
                    assert(false);
                }
                Err(e)
            },
        }
    }
}

impl MemoryTransaction {
    /// The metadata `name` of each edge that the query names and that has
    /// it.
    pub fn get_edge_metadata(&self, datastore: &MemoryDatastore, q: EdgeQuery, name: String) -> (r:
        Result<SortedMap<StoredEdgeKey, JsonValue>, Error>)
        requires
            datastore.wf(),
        ensures
            r is Ok,
            r->Ok_0.wf(),
            r->Ok_0@ == metadata_found(
                datastore@.edge_metadata,
                keys_of(edges_of(datastore@, q)),
                name@,
            ),
    {
        match datastore.0.get_edge_values_by_query(q) {
            Ok(edge_values) => {
                let ghost keys = keys_of(edge_values_model(edge_values@));
                let ghost held = datastore@.edge_metadata;
                let mut result: SortedMap<StoredEdgeKey, JsonValue> = SortedMap::new();
                let mut i: usize = 0;
                proof {
                    assert(result@ =~= metadata_found(held, keys.take(0), name@));
                }
                while i < edge_values.len()
                    invariant
                        i <= edge_values.len(),
                        datastore.wf(),
                        result.wf(),
                        keys == keys_of(edge_values_model(edge_values@)),
                        held == datastore@.edge_metadata,
                        result@ == metadata_found(held, keys.take(i as int), name@),
                    decreases edge_values.len() - i,
                {
                    let stored = edge_values[i].0.to_stored();
                    let key = (stored.duplicate(), name.clone());
                    proof {
                        assert(keys[i as int] == stored@);
                        lemma_metadata_found_next(held, keys, name@, i as int);
                    }
                    match datastore.0.edge_metadata.get(&key) {
                        Some(value) => {
                            let copy = value.clone();
                            result.insert(stored, copy);
                        },
                        None => {},
                    }
                    i += 1;
                }
                proof {
                    assert(keys.take(i as int) =~= keys);
                }
                Ok(result)
            },
            Err(e) => Err(e),
        }
    }

    /// Puts `value` under `name` for each edge that the query names, in
    /// place of what was held there.
    pub fn set_edge_metadata(
        &self,
        datastore: &mut MemoryDatastore,
        q: EdgeQuery,
        name: String,
        value: JsonValue,
    ) -> (r: Result<(), Error>)
        requires
            old(datastore).wf(),
        ensures
            final(datastore).wf(),
            r == Ok::<(), Error>(()),
            final(datastore)@ == (StoreModel {
                edge_metadata: metadata_written(
                    old(datastore)@.edge_metadata,
                    keys_of(edges_of(old(datastore)@, q)),
                    name@,
                    value@,
                ),
                ..old(datastore)@
            }),
    {
        let ghost start = datastore@;
        match datastore.0.get_edge_values_by_query(q) {
            Ok(edge_values) => {
                let ghost keys = keys_of(edge_values_model(edge_values@));
                let mut i: usize = 0;
                proof {
                    assert(start.edge_metadata =~= metadata_written(
                        start.edge_metadata,
                        keys.take(0),
                        name@,
                        value@,
                    ));
                }
                while i < edge_values.len()
                    invariant
                        i <= edge_values.len(),
                        datastore.wf(),
                        start.tagged(),
                        keys == keys_of(edge_values_model(edge_values@)),
                        datastore@ == (StoreModel {
                            edge_metadata: metadata_written(
                                start.edge_metadata,
                                keys.take(i as int),
                                name@,
                                value@,
                            ),
                            ..start
                        }),
                    decreases edge_values.len() - i,
                {
                    let stored = edge_values[i].0.to_stored();
                    let ghost before = datastore@;
                    proof {
                        assert(keys[i as int] == stored@);
                        lemma_metadata_written_next(
                            start.edge_metadata,
                            keys,
                            name@,
                            value@,
                            i as int,
                        );
                    }
                    let copy = value.clone();
                    datastore.0.edge_metadata.insert((stored, name.clone()), copy);
                    proof {
                        lemma_tagged_kept(before, datastore.0@);
                    }
                    i += 1;
                }
                proof {
                    assert(keys.take(i as int) =~= keys);
                }
                Ok(())
            },
            Err(e) => {
                proof {
                    assert(false);
                }
                Err(e)
            },
        }
    }

    /// Takes away what is held under `name` for each edge that the query
    /// names.
    pub fn delete_edge_metadata(
        &self,
        datastore: &mut MemoryDatastore,
        q: EdgeQuery,
        name: String,
    ) -> (r: Result<(), Error>)
        requires
            old(datastore).wf(),
        ensures
            final(datastore).wf(),
            r == Ok::<(), Error>(()),
            final(datastore)@ == (StoreModel {
                edge_metadata: metadata_erased(
                    old(datastore)@.edge_metadata,
                    keys_of(edges_of(old(datastore)@, q)),
                    name@,
                ),
                ..old(datastore)@
            }),
    {
        let ghost start = datastore@;
        match datastore.0.get_edge_values_by_query(q) {
            Ok(edge_values) => {
                let ghost keys = keys_of(edge_values_model(edge_values@));
                let mut i: usize = 0;
                proof {
                    assert(start.edge_metadata =~= metadata_erased(
                        start.edge_metadata,
                        keys.take(0),
                        name@,
                    ));
                }
                while i < edge_values.len()
                    invariant
                        i <= edge_values.len(),
                        datastore.wf(),
                        start.tagged(),
                        keys == keys_of(edge_values_model(edge_values@)),
                        datastore@ == (StoreModel {
                            edge_metadata: metadata_erased(
                                start.edge_metadata,
                                keys.take(i as int),
                                name@,
                            ),
                            ..start
                        }),
                    decreases edge_values.len() - i,
                {
                    let stored = edge_values[i].0.to_stored();
                    let ghost before = datastore@;
                    proof {
                        assert(keys[i as int] == stored@);
                        lemma_metadata_erased_next(start.edge_metadata, keys, name@, i as int);
                    }
                    let key = (stored, name.clone());
                    let _ = datastore.0.edge_metadata.remove(&key);
                    proof {
                        lemma_tagged_kept(before, datastore.0@);
                    }
                    i += 1;
                }
                proof {
                    assert(keys.take(i as int) =~= keys);
                }
                Ok(())
            },
            Err(e) => {
                proof {
                    assert(false);
                }
                Err(e)
            },
        }
    }
}

} // verus!
