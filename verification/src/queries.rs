//! The queries: trees that name vertices and edges, either directly or by
//! piping the result of one query into the next.

use vstd::prelude::*;
use crate::models::{EdgeKey, EdgeKeyModel, Timestamp, Type, Uuid};

verus! {

/// Which end of an edge a pipe follows.
#[derive(Clone, Copy, PartialEq, Eq, Debug, Structural)]
pub enum QueryTypeConverter {
    Outbound,
    Inbound,
}

/// A query for vertices.
#[derive(PartialEq, Eq, Debug)]
pub enum VertexQuery {
    /// The vertices from `start_id` on (from the first one where it is
    /// absent), in ascending order of their identifiers, `limit` at most.
    All { start_id: Option<Uuid>, limit: u32 },
    /// The vertices with the given identifiers, in the order given.
    Vertices { ids: Vec<Uuid> },
    /// The vertices at one end of the first `limit` edges of `edge_query`.
    Pipe { edge_query: Box<EdgeQuery>, converter: QueryTypeConverter, limit: u32 },
}

/// A query for edges.
#[derive(PartialEq, Eq, Debug)]
pub enum EdgeQuery {
    /// The edges with the given keys, in the order given.
    Edges { keys: Vec<EdgeKey> },
    /// The edges at the vertices of `vertex_query` that pass the filters,
    /// `limit` at most.
    Pipe {
        vertex_query: Box<VertexQuery>,
        converter: QueryTypeConverter,
        type_filter: Option<Type>,
        high_filter: Option<Timestamp>,
        low_filter: Option<Timestamp>,
        limit: u32,
    },
}

impl VertexQuery {
    /// The edges that leave the vertices of this query.
    pub fn outbound_edges(
        self,
        type_filter: Option<Type>,
        high_filter: Option<Timestamp>,
        low_filter: Option<Timestamp>,
        limit: u32,
    ) -> (q: EdgeQuery)
        ensures
            q == (EdgeQuery::Pipe {
                vertex_query: Box::new(self),
                converter: QueryTypeConverter::Outbound,
                type_filter,
                high_filter,
                low_filter,
                limit,
            }),
    {
        EdgeQuery::Pipe {
            vertex_query: Box::new(self),
            converter: QueryTypeConverter::Outbound,
            type_filter,
            high_filter,
            low_filter,
            limit,
        }
    }

    /// The edges that arrive at the vertices of this query.
    pub fn inbound_edges(
        self,
        type_filter: Option<Type>,
        high_filter: Option<Timestamp>,
        low_filter: Option<Timestamp>,
        limit: u32,
    ) -> (q: EdgeQuery)
        ensures
            q == (EdgeQuery::Pipe {
                vertex_query: Box::new(self),
                converter: QueryTypeConverter::Inbound,
                type_filter,
                high_filter,
                low_filter,
                limit,
            }),
    {
        EdgeQuery::Pipe {
            vertex_query: Box::new(self),
            converter: QueryTypeConverter::Inbound,
            type_filter,
            high_filter,
            low_filter,
            limit,
        }
    }
}

impl EdgeQuery {
    /// The vertices at which the edges of this query start.
    pub fn outbound_vertices(self, limit: u32) -> (q: VertexQuery)
        ensures
            q == (VertexQuery::Pipe {
                edge_query: Box::new(self),
                converter: QueryTypeConverter::Outbound,
                limit,
            }),
    {
        VertexQuery::Pipe { edge_query: Box::new(self), converter: QueryTypeConverter::Outbound, limit }
    }

    /// The vertices at which the edges of this query end.
    pub fn inbound_vertices(self, limit: u32) -> (q: VertexQuery)
        ensures
            q == (VertexQuery::Pipe {
                edge_query: Box::new(self),
                converter: QueryTypeConverter::Inbound,
                limit,
            }),
    {
        VertexQuery::Pipe { edge_query: Box::new(self), converter: QueryTypeConverter::Inbound, limit }
    }
}

/// The tag of a type filter.
pub open spec fn tag_of(type_filter: Option<Type>) -> Option<Seq<char>> {
    match type_filter {
        Some(t) => Some(t@),
        None => None,
    }
}

/// The numbers that a list of identifiers stands for.
pub open spec fn ids_model(ids: Seq<Uuid>) -> Seq<u128> {
    ids.map_values(|id: Uuid| id@)
}

/// The keys that a list of edge keys stands for.
pub open spec fn keys_model(keys: Seq<EdgeKey>) -> Seq<EdgeKeyModel> {
    keys.map_values(|key: EdgeKey| key@)
}

/// Whether two vertex queries ask the same.
pub open spec fn same_vertex_query(a: VertexQuery, b: VertexQuery) -> bool
    decreases a,
{
    match a {
        VertexQuery::All { start_id, limit } => b matches VertexQuery::All {
            start_id: other_start,
            limit: other_limit,
        } && start_id == other_start && limit == other_limit,
        VertexQuery::Vertices { ids } => b matches VertexQuery::Vertices { ids: other_ids }
            && ids_model(ids@) == ids_model(other_ids@),
        VertexQuery::Pipe { edge_query, converter, limit } => b matches VertexQuery::Pipe {
            edge_query: other_query,
            converter: other_converter,
            limit: other_limit,
        } && same_edge_query(*edge_query, *other_query) && converter == other_converter && limit
            == other_limit,
    }
}

/// Whether two edge queries ask the same.
pub open spec fn same_edge_query(a: EdgeQuery, b: EdgeQuery) -> bool
    decreases a,
{
    match a {
        EdgeQuery::Edges { keys } => b matches EdgeQuery::Edges { keys: other_keys } && keys_model(
            keys@,
        ) == keys_model(other_keys@),
        EdgeQuery::Pipe {
            vertex_query,
            converter,
            type_filter,
            high_filter,
            low_filter,
            limit,
        } => b matches EdgeQuery::Pipe {
            vertex_query: other_query,
            converter: other_converter,
            type_filter: other_type,
            high_filter: other_high,
            low_filter: other_low,
            limit: other_limit,
        } && same_vertex_query(*vertex_query, *other_query) && converter == other_converter
            && tag_of(type_filter) == tag_of(other_type) && high_filter == other_high && low_filter
            == other_low && limit == other_limit,
    }
}

impl VertexQuery {
    /// A second query that asks the same.
    pub fn duplicate(&self) -> (copy: VertexQuery)
        ensures
            same_vertex_query(*self, copy),
        decreases self,
    {
        match self {
            VertexQuery::All { start_id, limit } => VertexQuery::All {
                start_id: *start_id,
                limit: *limit,
            },
            VertexQuery::Vertices { ids } => {
                let mut copies: Vec<Uuid> = Vec::new();
                let mut i: usize = 0;
                while i < ids.len()
                    invariant
                        i <= ids.len(),
                        copies@ == ids@.take(i as int),
                    decreases ids.len() - i,
                {
                    copies.push(ids[i]);
                    proof {
                        assert(ids@.take(i + 1) =~= ids@.take(i as int).push(ids@[i as int]));
                    }
                    i += 1;
                }
                proof {
                    assert(ids@.take(i as int) =~= ids@);
                }
                VertexQuery::Vertices { ids: copies }
            },
            VertexQuery::Pipe { edge_query, converter, limit } => VertexQuery::Pipe {
                edge_query: Box::new(edge_query.duplicate()),
                converter: *converter,
                limit: *limit,
            },
        }
    }
}

impl EdgeQuery {
    /// A second query that asks the same.
    pub fn duplicate(&self) -> (copy: EdgeQuery)
        ensures
            same_edge_query(*self, copy),
        decreases self,
    {
        match self {
            EdgeQuery::Edges { keys } => {
                let mut copies: Vec<EdgeKey> = Vec::new();
                let mut i: usize = 0;
                while i < keys.len()
                    invariant
                        i <= keys.len(),
                        keys_model(copies@) == keys_model(keys@).take(i as int),
                    decreases keys.len() - i,
                {
                    let ghost before = copies@;
                    let key = keys[i].clone();
                    copies.push(key);
                    proof {
                        assert(copies@ == before.push(key));
                        assert(keys_model(copies@) =~= keys_model(before).push(key@));
                        assert(keys_model(keys@).take(i + 1) =~= keys_model(keys@).take(
                            i as int,
                        ).push(keys@[i as int]@));
                    }
                    i += 1;
                }
                proof {
                    assert(keys_model(keys@).take(i as int) =~= keys_model(keys@));
                }
                EdgeQuery::Edges { keys: copies }
            },
            EdgeQuery::Pipe {
                vertex_query,
                converter,
                type_filter,
                high_filter,
                low_filter,
                limit,
            } => EdgeQuery::Pipe {
                vertex_query: Box::new(vertex_query.duplicate()),
                converter: *converter,
                type_filter: match type_filter {
                    Some(t) => Some(t.clone()),
                    None => None,
                },
                high_filter: *high_filter,
                low_filter: *low_filter,
                limit: *limit,
            },
        }
    }
}

impl Clone for VertexQuery {
    fn clone(&self) -> (copy: VertexQuery)
        ensures
            same_vertex_query(*self, copy),
    {
        self.duplicate()
    }
}

impl Clone for EdgeQuery {
    fn clone(&self) -> (copy: EdgeQuery)
        ensures
            same_edge_query(*self, copy),
    {
        self.duplicate()
    }
}

} // verus!
