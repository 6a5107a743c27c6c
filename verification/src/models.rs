//! The values of the graph: identifiers, type tags, weights, timestamps,
//! vertices and edges.

use vstd::prelude::*;
use crate::errors::Error;
use crate::keys::{Key, Order, text_before};

verus! {

/// A 128-bit identifier, ordered as an unsigned number.
#[derive(Clone, Copy, PartialEq, Eq, PartialOrd, Ord, Hash, Debug, Structural)]
pub struct Uuid(pub u128);

impl View for Uuid {
    type V = u128;

    open spec fn view(&self) -> u128 {
        self.0
    }
}

impl Uuid {
    /// The identifier whose bits are all zero.
    pub fn nil() -> (id: Uuid)
        ensures
            id@ == 0,
    {
        Uuid(0)
    }

    /// The identifier with the given number.
    pub fn from_u128(value: u128) -> (id: Uuid)
        ensures
            id@ == value,
    {
        Uuid(value)
    }

    /// The number of the identifier.
    pub fn as_u128(&self) -> (value: u128)
        ensures
            value == self@,
    {
        self.0
    }
}

impl Default for Uuid {
    fn default() -> (id: Uuid)
        ensures
            id@ == 0,
    {
        Uuid(0)
    }
}

impl Key for Uuid {
    open spec fn before(a: u128, b: u128) -> bool {
        a < b
    }

    proof fn lemma_irreflexive(a: u128) {
    }

    proof fn lemma_transitive(a: u128, b: u128, c: u128) {
    }

    proof fn lemma_total(a: u128, b: u128) {
    }

    fn compare(&self, other: &Self) -> (o: Order) {
        if self.0 < other.0 {
            Order::Less
        } else if self.0 == other.0 {
            Order::Equal
        } else {
            Order::Greater
        }
    }

    fn duplicate(&self) -> (k: Self) {
        *self
    }
}

/// The text that `uuid::fmt::Hyphenated` writes for the identifier with the
/// number `id`: 32 lower-case hexadecimal digits in five groups with hyphens
/// between them.
pub uninterp spec fn hyphenated_text(id: u128) -> Seq<char>;

/// What `uuid::Uuid::parse_str` makes of `text`: the number of the
/// identifier that `text` denotes, or nothing where it denotes none.
pub uninterp spec fn parsed_uuid(text: Seq<char>) -> Option<u128>;

/// Calls `uuid::Uuid::from_u128`, `hyphenated` and `to_string`. The text is
/// the hyphenated form of the identifier, and `parse_str` reads that form
/// back to the same identifier.
#[verifier::external_body]
pub(crate) fn uuid_to_text(id: Uuid) -> (text: String)
    ensures
        text@ == hyphenated_text(id@),
        parsed_uuid(text@) == Some(id@),
{
    uuid::Uuid::from_u128(id.0).hyphenated().to_string()
}

/// Calls `uuid::Uuid::parse_str` and takes the number of the identifier
/// with `as_u128`; a text that does not parse gives nothing.
#[verifier::external_body]
pub(crate) fn uuid_from_text(text: &str) -> (id: Option<Uuid>)
    ensures
        match id {
            Some(found) => parsed_uuid(text@) == Some(found@),
            None => parsed_uuid(text@) is None,
        },
{
    match uuid::Uuid::parse_str(text) {
        Ok(id) => Some(Uuid(id.as_u128())),
        Err(_) => None,
    }
}

impl Uuid {
    /// The identifier as a hyphenated text.
    pub fn to_hyphenated_string(&self) -> (text: String)
        ensures
            text@ == hyphenated_text(self@),
            parsed_uuid(text@) == Some(self@),
    {
        uuid_to_text(*self)
    }

    /// The identifier that a text denotes, if it denotes one.
    pub fn parse_str(text: &str) -> (r: Result<Uuid, Error>)
        ensures
            match parsed_uuid(text@) {
                Some(id) => r == Ok::<Uuid, Error>(Uuid(id)),
                None => r == Err::<Uuid, Error>(Error::Decode),
            },
    {
        match uuid_from_text(text) {
            Some(id) => Ok(id),
            None => Err(Error::Decode),
        }
    }
}

/// The tag that names the kind of a vertex or of an edge: a text that is
/// never empty.
#[derive(PartialEq, Eq, PartialOrd, Ord, Hash, Debug)]
pub struct Type {
    text: String,
}

impl View for Type {
    type V = Seq<char>;

    closed spec fn view(&self) -> Seq<char> {
        self.text@
    }
}

impl Type {
    #[verifier::type_invariant]
    spec fn nonempty(self) -> bool {
        self.text@.len() > 0
    }

    /// Makes a tag of `text`, which must not be empty.
    pub fn new(text: String) -> (r: Result<Type, Error>)
        ensures
            text@.len() == 0 ==> r == Err::<Type, Error>(Error::OutOfRange),
            text@.len() > 0 ==> r is Ok && r->Ok_0@ == text@,
    {
        if text.as_str().is_empty() {
            Err(Error::OutOfRange)
        } else {
            Ok(Type { text })
        }
    }

    /// The text of the tag.
    pub fn as_str(&self) -> (text: &str)
        ensures
            text@ == self@,
            text@.len() > 0,
    {
        proof {
            use_type_invariant(self);
        }
        self.text.as_str()
    }

    /// The tag as an owned text.
    pub fn into_string(self) -> (text: String)
        ensures
            text@ == self@,
            text@.len() > 0,
    {
        proof {
            use_type_invariant(&self);
        }
        self.text
    }
}

impl Clone for Type {
    fn clone(&self) -> (t: Type)
        ensures
            t@ == self@,
    {
        proof {
            use_type_invariant(self);
        }
        Type { text: self.text.clone() }
    }
}

/// Whether `bits` is the IEEE 754 single-precision pattern of a number
/// between -1 and 1: with the sign bit cleared, a pattern is in range when
/// it is at most that of 1.0, and every infinity and NaN lies above it.
pub open spec fn weight_in_range(bits: u32) -> bool {
    (bits & 0x7fff_ffffu32) <= 0x3f80_0000u32
}

/// The weight of an edge: a single-precision number between -1 and 1, held
/// as its IEEE 754 bit pattern.
#[derive(Clone, Copy, PartialEq, Eq, Debug, Structural)]
pub struct Weight {
    bits: u32,
}

impl View for Weight {
    type V = u32;

    closed spec fn view(&self) -> u32 {
        self.bits
    }
}

impl Weight {
    #[verifier::type_invariant]
    spec fn in_range(self) -> bool {
        weight_in_range(self.bits)
    }

    /// Makes a weight of the bit pattern of a number, which must lie
    /// between -1 and 1.
    pub fn new(bits: u32) -> (r: Result<Weight, Error>)
        ensures
            weight_in_range(bits) ==> r is Ok && r->Ok_0@ == bits,
            !weight_in_range(bits) ==> r == Err::<Weight, Error>(Error::OutOfRange),
    {
        if (bits & 0x7fff_ffffu32) <= 0x3f80_0000u32 {
            Ok(Weight { bits })
        } else {
            Err(Error::OutOfRange)
        }
    }

    /// The bit pattern of the weight.
    pub fn to_bits(&self) -> (bits: u32)
        ensures
            bits == self@,
            weight_in_range(bits),
    {
        proof {
            use_type_invariant(self);
        }
        self.bits
    }
}

/// A moment of universal time: whole seconds since the start of 1970 and
/// the nanoseconds past that second.
#[derive(Clone, Copy, PartialEq, Eq, Debug, Structural)]
pub struct Timestamp {
    pub secs: i64,
    pub nanos: u32,
}

impl View for Timestamp {
    type V = Timestamp;

    open spec fn view(&self) -> Timestamp {
        *self
    }
}

impl Timestamp {
    /// The moment `nanos` nanoseconds past the second `secs`.
    pub fn new(secs: i64, nanos: u32) -> (t: Timestamp)
        ensures
            t == (Timestamp { secs, nanos }),
    {
        Timestamp { secs, nanos }
    }

    /// `self` is no later than `other`.
    pub open spec fn not_after(self, other: Timestamp) -> bool {
        self.secs < other.secs || (self.secs == other.secs && self.nanos <= other.nanos)
    }

    /// Whether `self` is no later than `other`.
    pub fn is_not_after(&self, other: &Timestamp) -> (b: bool)
        ensures
            b == self.not_after(*other),
    {
        self.secs < other.secs || (self.secs == other.secs && self.nanos <= other.nanos)
    }
}

/// What identifies an edge: where it starts, its tag, where it ends.
pub ghost struct EdgeKeyModel {
    pub outbound_id: u128,
    pub t: Seq<char>,
    pub inbound_id: u128,
}

/// The order of edge keys: by start, then by tag, then by end.
pub open spec fn edge_key_before(a: EdgeKeyModel, b: EdgeKeyModel) -> bool {
    ||| a.outbound_id < b.outbound_id
    ||| a.outbound_id == b.outbound_id && text_before(a.t, b.t)
    ||| a.outbound_id == b.outbound_id && a.t == b.t && a.inbound_id < b.inbound_id
}

/// The key of an edge.
#[derive(PartialEq, Eq, PartialOrd, Ord, Hash, Debug)]
pub struct EdgeKey {
    pub outbound_id: Uuid,
    pub t: Type,
    pub inbound_id: Uuid,
}

impl View for EdgeKey {
    type V = EdgeKeyModel;

    open spec fn view(&self) -> EdgeKeyModel {
        EdgeKeyModel { outbound_id: self.outbound_id@, t: self.t@, inbound_id: self.inbound_id@ }
    }
}

impl EdgeKey {
    /// The key of the edge with the tag `t` from `outbound_id` to `inbound_id`.
    pub fn new(outbound_id: Uuid, t: Type, inbound_id: Uuid) -> (key: EdgeKey)
        ensures
            key@ == (EdgeKeyModel { outbound_id: outbound_id@, t: t@, inbound_id: inbound_id@ }),
    {
        EdgeKey { outbound_id, t, inbound_id }
    }

    /// The key in the form in which the edge index holds it.
    pub fn to_stored(&self) -> (k: StoredEdgeKey)
        ensures
            k@ == self@,
            k@.t.len() > 0,
    {
        StoredEdgeKey {
            outbound_id: self.outbound_id,
            t: self.t.clone().into_string(),
            inbound_id: self.inbound_id,
        }
    }
}

impl Clone for EdgeKey {
    fn clone(&self) -> (key: EdgeKey)
        ensures
            key@ == self@,
    {
        EdgeKey { outbound_id: self.outbound_id, t: self.t.clone(), inbound_id: self.inbound_id }
    }
}

/// An edge key as the indices hold it. The tag is kept as bare text, so
/// that the key that opens a scan can carry the empty text, which comes
/// before every tag.
pub struct StoredEdgeKey {
    pub outbound_id: Uuid,
    pub t: String,
    pub inbound_id: Uuid,
}

impl View for StoredEdgeKey {
    type V = EdgeKeyModel;

    open spec fn view(&self) -> EdgeKeyModel {
        EdgeKeyModel { outbound_id: self.outbound_id@, t: self.t@, inbound_id: self.inbound_id@ }
    }
}

impl StoredEdgeKey {
    /// The key that opens the scan of the edges that start at `outbound_id`
    /// and carry the tag `t`, or any tag where `t` is empty.
    pub fn scan_start(outbound_id: Uuid, t: String) -> (k: StoredEdgeKey)
        ensures
            k@ == (EdgeKeyModel { outbound_id: outbound_id@, t: t@, inbound_id: 0 }),
    {
        StoredEdgeKey { outbound_id, t, inbound_id: Uuid::nil() }
    }

    /// The key as the users of the store see it.
    pub fn to_key(&self) -> (key: EdgeKey)
        requires
            self@.t.len() > 0,
        ensures
            key@ == self@,
    {
        EdgeKey {
            outbound_id: self.outbound_id,
            t: Type { text: self.t.clone() },
            inbound_id: self.inbound_id,
        }
    }
}

impl Key for StoredEdgeKey {
    open spec fn before(a: EdgeKeyModel, b: EdgeKeyModel) -> bool {
        edge_key_before(a, b)
    }

    proof fn lemma_irreflexive(a: EdgeKeyModel) {
        String::lemma_irreflexive(a.t);
    }

    proof fn lemma_transitive(a: EdgeKeyModel, b: EdgeKeyModel, c: EdgeKeyModel) {
        if text_before(a.t, b.t) && text_before(b.t, c.t) {
            String::lemma_transitive(a.t, b.t, c.t);
        }
    }

    proof fn lemma_total(a: EdgeKeyModel, b: EdgeKeyModel) {
        String::lemma_total(a.t, b.t);
    }

    fn compare(&self, other: &Self) -> (o: Order) {
        proof {
            String::lemma_irreflexive(self.t@);
            String::lemma_total(self.t@, other.t@);
            if text_before(self.t@, other.t@) {
                crate::keys::lemma_asymmetric::<String>(self.t@, other.t@);
            }
            if text_before(other.t@, self.t@) {
                crate::keys::lemma_asymmetric::<String>(other.t@, self.t@);
            }
        }
        match self.outbound_id.compare(&other.outbound_id) {
            Order::Less => Order::Less,
            Order::Greater => Order::Greater,
            Order::Equal => match self.t.compare(&other.t) {
                Order::Less => Order::Less,
                Order::Greater => Order::Greater,
                Order::Equal => self.inbound_id.compare(&other.inbound_id),
            },
        }
    }

    fn duplicate(&self) -> (k: Self) {
        StoredEdgeKey {
            outbound_id: self.outbound_id,
            t: self.t.clone(),
            inbound_id: self.inbound_id,
        }
    }
}

/// What the store holds of a vertex: who owns it, and its tag.
pub ghost struct VertexValueModel {
    pub owner_id: u128,
    pub t: Seq<char>,
}

/// A vertex as the store holds it under its identifier.
#[derive(PartialEq, Eq, Debug)]
pub struct VertexValue {
    pub owner_id: Uuid,
    pub t: Type,
}

impl View for VertexValue {
    type V = VertexValueModel;

    open spec fn view(&self) -> VertexValueModel {
        VertexValueModel { owner_id: self.owner_id@, t: self.t@ }
    }
}

impl VertexValue {
    /// What the store holds of a vertex of `owner_id` with the tag `t`.
    pub fn new(owner_id: Uuid, t: Type) -> (value: VertexValue)
        ensures
            value@ == (VertexValueModel { owner_id: owner_id@, t: t@ }),
            value@.t.len() > 0,
    {
        proof {
            use_type_invariant(&t);
        }
        VertexValue { owner_id, t }
    }
}

impl Clone for VertexValue {
    fn clone(&self) -> (value: VertexValue)
        ensures
            value@ == self@,
    {
        VertexValue { owner_id: self.owner_id, t: self.t.clone() }
    }
}

/// A vertex as a query hands it out.
pub ghost struct VertexModel {
    pub id: u128,
    pub t: Seq<char>,
}

/// A vertex: an identifier and a tag.
#[derive(PartialEq, Eq, Debug)]
pub struct Vertex {
    pub id: Uuid,
    pub t: Type,
}

impl View for Vertex {
    type V = VertexModel;

    open spec fn view(&self) -> VertexModel {
        VertexModel { id: self.id@, t: self.t@ }
    }
}

impl Vertex {
    /// The vertex `id` with the tag `t`.
    pub fn new(id: Uuid, t: Type) -> (vertex: Vertex)
        ensures
            vertex@ == (VertexModel { id: id@, t: t@ }),
    {
        Vertex { id, t }
    }
}

impl Clone for Vertex {
    fn clone(&self) -> (vertex: Vertex)
        ensures
            vertex@ == self@,
    {
        Vertex { id: self.id, t: self.t.clone() }
    }
}

/// An edge as a query hands it out.
pub ghost struct EdgeModel {
    pub key: EdgeKeyModel,
    pub weight: u32,
    pub update_datetime: Timestamp,
}

/// An edge: its key, its weight, and when it was last written.
#[derive(PartialEq, Eq, Debug)]
pub struct Edge {
    pub key: EdgeKey,
    pub weight: Weight,
    pub update_datetime: Timestamp,
}

impl View for Edge {
    type V = EdgeModel;

    open spec fn view(&self) -> EdgeModel {
        EdgeModel { key: self.key@, weight: self.weight@, update_datetime: self.update_datetime }
    }
}

impl Edge {
    /// The edge under `key` with `weight`, written at `update_datetime`.
    pub fn new(key: EdgeKey, weight: Weight, update_datetime: Timestamp) -> (edge: Edge)
        ensures
            edge@ == (EdgeModel { key: key@, weight: weight@, update_datetime }),
    {
        Edge { key, weight, update_datetime }
    }
}

impl Clone for Edge {
    fn clone(&self) -> (edge: Edge)
        ensures
            edge@ == self@,
    {
        Edge { key: self.key.clone(), weight: self.weight, update_datetime: self.update_datetime }
    }
}

/// A metadata value: any JSON value. The store keeps it and hands it back;
/// it never looks inside.
#[derive(PartialEq, Debug)]
pub struct JsonValue(pub serde_json::Value);

impl View for JsonValue {
    type V = serde_json::Value;

    open spec fn view(&self) -> serde_json::Value {
        self.0
    }
}

impl Clone for JsonValue {
    fn clone(&self) -> (value: JsonValue)
        ensures
            value@ == self@,
    {
        JsonValue(copy_json(&self.0))
    }
}

/// `serde_json::Value` is carried through as an opaque value.
#[verifier::external_type_specification]
#[verifier::external_body]
pub struct ExJsonValue(serde_json::Value);

/// Calls `Clone::clone` of `serde_json::Value`, which builds a value equal
/// to the one it is given: the same variant with copies of what it holds.
#[verifier::external_body]
fn copy_json(value: &serde_json::Value) -> (copy: serde_json::Value)
    ensures
        copy == *value,
{
    value.clone()
}

} // verus!
