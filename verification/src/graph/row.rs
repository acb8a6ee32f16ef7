//! The content-addressed rows of a flow network: node keys, edge keys, edge
//! values, and the row that carries the identifier of its key.

use crate::digest::{sha256, sha256_digest};
use crate::hex::{hex_text, is_hex_digit, lemma_hex_text_shape, to_hex};
use crate::json::{
    decimal, json_member, json_string, lemma_cancel, lemma_decimal_delimited,
    lemma_json_string_delimited, write_decimal, write_json_string, BRACE_CLOSE, BRACE_OPEN, COLON,
    COMMA,
};
use crate::text::{
    compare_str, lemma_str_lt_irreflexive, lemma_str_lt_total, lemma_str_lt_transitive, same_str,
    str_lt, Order,
};
use vstd::prelude::*;
use vstd::string::*;

verus! {

/// Identifies a resource node.
#[derive(Debug, PartialEq, Eq, PartialOrd, Ord, Hash)]
pub struct NetworkNodeKey {
    pub kind: String,
    pub name: String,
    pub namespace: String,
}

/// A node key as a mathematical value.
pub ghost struct NodeKeyView {
    pub kind: Seq<char>,
    pub name: Seq<char>,
    pub namespace: Seq<char>,
}

impl View for NetworkNodeKey {
    type V = NodeKeyView;

    open spec fn view(&self) -> NodeKeyView {
        NodeKeyView { kind: self.kind@, name: self.name@, namespace: self.namespace@ }
    }
}

/// `a` comes strictly before `b`: by kind, then by name, then by namespace.
pub open spec fn node_key_lt(a: NodeKeyView, b: NodeKeyView) -> bool {
    ||| str_lt(a.kind, b.kind)
    ||| a.kind == b.kind && str_lt(a.name, b.name)
    ||| a.kind == b.kind && a.name == b.name && str_lt(a.namespace, b.namespace)
}

/// The three-way comparison of two node keys.
pub open spec fn node_key_order(a: NodeKeyView, b: NodeKeyView) -> Order {
    if node_key_lt(a, b) {
        Order::Less
    } else if a == b {
        Order::Equal
    } else {
        Order::Greater
    }
}

/// How a node key is shown: `kind/namespace/name`.
pub open spec fn node_key_text(k: NodeKeyView) -> Seq<char> {
    k.kind + seq!['/'] + k.namespace + seq!['/'] + k.name
}

impl Clone for NetworkNodeKey {
    fn clone(&self) -> (copy: Self)
        ensures
            copy@ == self@,
    {
        NetworkNodeKey {
            kind: self.kind.clone(),
            name: self.name.clone(),
            namespace: self.namespace.clone(),
        }
    }
}

impl NetworkNodeKey {
    /// Compares two node keys by kind, then name, then namespace.
    pub fn compare(&self, other: &NetworkNodeKey) -> (r: Order)
        ensures
            r == node_key_order(self@, other@),
    {
        proof {
            lemma_str_lt_irreflexive(self.kind@);
            lemma_str_lt_irreflexive(self.name@);
            lemma_str_lt_irreflexive(self.namespace@);
        }
        match compare_str(self.kind.as_str(), other.kind.as_str()) {
            Order::Less => Order::Less,
            Order::Greater => Order::Greater,
            Order::Equal => match compare_str(self.name.as_str(), other.name.as_str()) {
                Order::Less => Order::Less,
                Order::Greater => Order::Greater,
                Order::Equal => compare_str(self.namespace.as_str(), other.namespace.as_str()),
            },
        }
    }

    /// The key as text, `kind/namespace/name`.
    pub fn to_string(&self) -> (text: String)
        ensures
            text@ == node_key_text(self@),
    {
        proof {
            reveal_strlit("/");
        }
        let mut text = self.kind.clone();
        text.append("/");
        text.append(self.namespace.as_str());
        text.append("/");
        text.append(self.name.as_str());
        assert(text@ =~= node_key_text(self@));
        text
    }
}

/// Identifies an edge: the interval it was observed over, the link it runs on,
/// and the nodes it leaves and enters.
#[derive(Copy, Debug, PartialEq, Eq, PartialOrd, Ord, Hash)]
pub struct NetworkEdgeKey<NodeKey = NetworkNodeKey> {
    pub interval_ms: u64,
    pub link: NodeKey,
    pub sink: NodeKey,
    pub src: NodeKey,
}

/// An edge key as a mathematical value.
pub ghost struct EdgeKeyView<K> {
    pub interval_ms: nat,
    pub link: K,
    pub sink: K,
    pub src: K,
}

impl<NodeKey: View> View for NetworkEdgeKey<NodeKey> {
    type V = EdgeKeyView<NodeKey::V>;

    open spec fn view(&self) -> EdgeKeyView<NodeKey::V> {
        EdgeKeyView {
            interval_ms: self.interval_ms as nat,
            link: self.link@,
            sink: self.sink@,
            src: self.src@,
        }
    }
}

impl<NodeKey: Clone> Clone for NetworkEdgeKey<NodeKey> {
    fn clone(&self) -> (copy: Self)
        ensures
            copy.interval_ms == self.interval_ms,
            cloned::<NodeKey>(self.link, copy.link),
            cloned::<NodeKey>(self.sink, copy.sink),
            cloned::<NodeKey>(self.src, copy.src),
    {
        NetworkEdgeKey {
            interval_ms: self.interval_ms,
            link: self.link.clone(),
            sink: self.sink.clone(),
            src: self.src.clone(),
        }
    }
}

/// `a` comes strictly before `b`: by interval, then link, then sink, then
/// source.
pub open spec fn edge_key_lt(a: EdgeKeyView<NodeKeyView>, b: EdgeKeyView<NodeKeyView>) -> bool {
    ||| a.interval_ms < b.interval_ms
    ||| a.interval_ms == b.interval_ms && node_key_lt(a.link, b.link)
    ||| a.interval_ms == b.interval_ms && a.link == b.link && node_key_lt(a.sink, b.sink)
    ||| a.interval_ms == b.interval_ms && a.link == b.link && a.sink == b.sink && node_key_lt(
        a.src,
        b.src,
    )
}

/// The three-way comparison of two edge keys.
pub open spec fn edge_key_order(a: EdgeKeyView<NodeKeyView>, b: EdgeKeyView<NodeKeyView>) -> Order {
    if edge_key_lt(a, b) {
        Order::Less
    } else if a == b {
        Order::Equal
    } else {
        Order::Greater
    }
}

/// The three members that a node key contributes to a flat record, under the
/// names given for them.
pub open spec fn node_key_members(
    kind: Seq<char>,
    name: Seq<char>,
    namespace: Seq<char>,
    k: NodeKeyView,
) -> Seq<u8> {
    json_member(kind, json_string(k.kind)) + seq![COMMA] + json_member(name, json_string(k.name))
        + seq![COMMA] + json_member(namespace, json_string(k.namespace))
}

/// The members of an edge key in a flat record: the interval as `le`, then the
/// link, the sink and the source, each under its own prefix.
pub open spec fn edge_key_members(k: EdgeKeyView<NodeKeyView>) -> Seq<u8> {
    json_member("le"@, decimal(k.interval_ms)) + seq![COMMA] + node_key_members(
        "link_kind"@,
        "link_name"@,
        "link_namespace"@,
        k.link,
    ) + seq![COMMA] + node_key_members("sink_kind"@, "sink_name"@, "sink_namespace"@, k.sink)
        + seq![COMMA] + node_key_members("src_kind"@, "src_name"@, "src_namespace"@, k.src)
}

/// The canonical serialization of an edge key: one JSON object with the key's
/// members in their fixed order.
pub open spec fn edge_key_json(k: EdgeKeyView<NodeKeyView>) -> Seq<u8> {
    seq![BRACE_OPEN] + edge_key_members(k) + seq![BRACE_CLOSE]
}

/// The identifier of an edge key: the SHA-256 digest of its canonical
/// serialization, in lower-case hexadecimal.
pub open spec fn edge_key_id(k: EdgeKeyView<NodeKeyView>) -> Seq<char> {
    hex_text(sha256(edge_key_json(k)))
}

/// Appends the name of a member and the colon behind it.
fn write_member_name(out: &mut Vec<u8>, name: &str)
    ensures
        final(out)@ == old(out)@ + json_string(name@) + seq![COLON],
{
    write_json_string(out, name);
    out.push(COLON);
    assert(out@ =~= old(out)@ + json_string(name@) + seq![COLON]);
}

/// Appends the three members of a node key under the names given for them.
fn write_node_key(out: &mut Vec<u8>, kind: &str, name: &str, namespace: &str, k: &NetworkNodeKey)
    ensures
        final(out)@ == old(out)@ + node_key_members(kind@, name@, namespace@, k@),
{
    write_member_name(out, kind);
    write_json_string(out, k.kind.as_str());
    out.push(COMMA);
    write_member_name(out, name);
    write_json_string(out, k.name.as_str());
    out.push(COMMA);
    write_member_name(out, namespace);
    write_json_string(out, k.namespace.as_str());
    assert(out@ =~= old(out)@ + node_key_members(kind@, name@, namespace@, k@));
}

impl NetworkEdgeKey<NetworkNodeKey> {
    /// Compares two edge keys by interval, then link, then sink, then source.
    pub fn compare(&self, other: &NetworkEdgeKey<NetworkNodeKey>) -> (r: Order)
        ensures
            r == edge_key_order(self@, other@),
    {
        proof {
            lemma_node_key_lt_irreflexive(self.link@);
            lemma_node_key_lt_irreflexive(self.sink@);
            lemma_node_key_lt_irreflexive(self.src@);
        }
        if self.interval_ms < other.interval_ms {
            return Order::Less;
        }
        if self.interval_ms > other.interval_ms {
            return Order::Greater;
        }
        match self.link.compare(&other.link) {
            Order::Less => Order::Less,
            Order::Greater => Order::Greater,
            Order::Equal => match self.sink.compare(&other.sink) {
                Order::Less => Order::Less,
                Order::Greater => Order::Greater,
                Order::Equal => self.src.compare(&other.src),
            },
        }
    }

    /// Appends the members of the key.
    fn write_members(&self, out: &mut Vec<u8>)
        ensures
            final(out)@ == old(out)@ + edge_key_members(self@),
    {
        write_member_name(out, "le");
        write_decimal(out, self.interval_ms);
        out.push(COMMA);
        write_node_key(out, "link_kind", "link_name", "link_namespace", &self.link);
        out.push(COMMA);
        write_node_key(out, "sink_kind", "sink_name", "sink_namespace", &self.sink);
        out.push(COMMA);
        write_node_key(out, "src_kind", "src_name", "src_namespace", &self.src);
        assert(out@ =~= old(out)@ + edge_key_members(self@));
    }

    /// The canonical serialization of the key.
    pub fn to_json(&self) -> (bytes: Vec<u8>)
        ensures
            bytes@ == edge_key_json(self@),
    {
        let mut out: Vec<u8> = Vec::new();
        out.push(BRACE_OPEN);
        self.write_members(&mut out);
        out.push(BRACE_CLOSE);
        assert(out@ =~= edge_key_json(self@));
        out
    }

    /// The identifier of the key: 64 hexadecimal digits.
    pub fn id(&self) -> (id: String)
        ensures
            id@ == edge_key_id(self@),
            id@.len() == 64,
            forall|i: int| 0 <= i < 64 ==> is_hex_digit(#[trigger] id@[i]),
    {
        let bytes = self.to_json();
        let digest = sha256_digest(bytes.as_slice());
        proof {
            lemma_hex_text_shape(digest@);
        }
        to_hex(digest.as_slice())
    }
}

/// No node key comes before itself.
pub proof fn lemma_node_key_lt_irreflexive(a: NodeKeyView)
    ensures
        !node_key_lt(a, a),
{
    lemma_str_lt_irreflexive(a.kind);
    lemma_str_lt_irreflexive(a.name);
    lemma_str_lt_irreflexive(a.namespace);
}

/// The order of node keys is transitive.
pub proof fn lemma_node_key_lt_transitive(a: NodeKeyView, b: NodeKeyView, c: NodeKeyView)
    requires
        node_key_lt(a, b),
        node_key_lt(b, c),
    ensures
        node_key_lt(a, c),
{
    if str_lt(a.kind, b.kind) && str_lt(b.kind, c.kind) {
        lemma_str_lt_transitive(a.kind, b.kind, c.kind);
    }
    if str_lt(a.name, b.name) && str_lt(b.name, c.name) {
        lemma_str_lt_transitive(a.name, b.name, c.name);
    }
    if str_lt(a.namespace, b.namespace) && str_lt(b.namespace, c.namespace) {
        lemma_str_lt_transitive(a.namespace, b.namespace, c.namespace);
    }
}

/// Of two different node keys one comes before the other.
pub proof fn lemma_node_key_lt_total(a: NodeKeyView, b: NodeKeyView)
    ensures
        node_key_lt(a, b) || a == b || node_key_lt(b, a),
{
    lemma_str_lt_total(a.kind, b.kind);
    lemma_str_lt_total(a.name, b.name);
    lemma_str_lt_total(a.namespace, b.namespace);
}

/// No edge key comes before itself.
pub proof fn lemma_edge_key_lt_irreflexive(a: EdgeKeyView<NodeKeyView>)
    ensures
        !edge_key_lt(a, a),
{
    lemma_node_key_lt_irreflexive(a.link);
    lemma_node_key_lt_irreflexive(a.sink);
    lemma_node_key_lt_irreflexive(a.src);
}

/// The order of edge keys is transitive.
pub proof fn lemma_edge_key_lt_transitive(
    a: EdgeKeyView<NodeKeyView>,
    b: EdgeKeyView<NodeKeyView>,
    c: EdgeKeyView<NodeKeyView>,
)
    requires
        edge_key_lt(a, b),
        edge_key_lt(b, c),
    ensures
        edge_key_lt(a, c),
{
    if node_key_lt(a.link, b.link) && node_key_lt(b.link, c.link) {
        lemma_node_key_lt_transitive(a.link, b.link, c.link);
    }
    if node_key_lt(a.sink, b.sink) && node_key_lt(b.sink, c.sink) {
        lemma_node_key_lt_transitive(a.sink, b.sink, c.sink);
    }
    if node_key_lt(a.src, b.src) && node_key_lt(b.src, c.src) {
        lemma_node_key_lt_transitive(a.src, b.src, c.src);
    }
}

/// Of two different edge keys one comes before the other.
pub proof fn lemma_edge_key_lt_total(a: EdgeKeyView<NodeKeyView>, b: EdgeKeyView<NodeKeyView>)
    ensures
        edge_key_lt(a, b) || a == b || edge_key_lt(b, a),
{
    lemma_node_key_lt_total(a.link, b.link);
    lemma_node_key_lt_total(a.sink, b.sink);
    lemma_node_key_lt_total(a.src, b.src);
}

/// The weight observed on an edge.
#[derive(Copy, Clone, Debug, PartialEq, Eq, PartialOrd, Ord, Hash)]
pub struct NetworkValue(pub u64);

/// One edge of a flow network, with the identifier of its key. A row is made
/// once and never changed.
#[derive(Debug, PartialEq)]
pub struct NetworkGraphRow {
    id: String,
    key: NetworkEdgeKey,
    value: NetworkValue,
}

/// A row as a mathematical value.
pub ghost struct GraphRowView {
    pub id: Seq<char>,
    pub key: EdgeKeyView<NodeKeyView>,
    pub value: nat,
}

impl View for NetworkGraphRow {
    type V = GraphRowView;

    closed spec fn view(&self) -> GraphRowView {
        GraphRowView { id: self.id@, key: self.key@, value: self.value.0 as nat }
    }
}

/// A row as a flat record: one JSON object with the identifier as `id`, then
/// the members of the key, then the weight as `value`.
pub open spec fn row_json(row: GraphRowView) -> Seq<u8> {
    seq![BRACE_OPEN] + json_member("id"@, json_string(row.id)) + seq![COMMA] + edge_key_members(
        row.key,
    ) + seq![COMMA] + json_member("value"@, decimal(row.value)) + seq![BRACE_CLOSE]
}

/// The row that a key and a value make.
pub open spec fn row_of(key: EdgeKeyView<NodeKeyView>, value: nat) -> GraphRowView {
    GraphRowView { id: edge_key_id(key), key, value }
}

impl NetworkGraphRow {
    /// Every row carries the identifier of its key.
    #[verifier::type_invariant]
    spec fn identified(self) -> bool {
        &&& self.id@ == edge_key_id(self.key@)
        &&& self.id@.len() == 64
    }

    /// Makes the row of an edge, computing its identifier from the key.
    pub fn try_new(key: NetworkEdgeKey, value: NetworkValue) -> (row: Result<Self, GraphError>)
        ensures
            row is Ok,
            row->Ok_0@ == row_of(key@, value.0 as nat),
    {
        let id = key.id();
        Ok(NetworkGraphRow { id, key, value })
    }

    /// Makes the row of an edge that comes with an identifier, as a row does
    /// that has crossed a process boundary. The identifier has to be the one
    /// of the key.
    pub fn try_from_parts(id: &str, key: NetworkEdgeKey, value: NetworkValue) -> (row: Result<
        Self,
        GraphError,
    >)
        ensures
            id@ == edge_key_id(key@) ==> row is Ok && row->Ok_0@ == row_of(key@, value.0 as nat),
            id@ != edge_key_id(key@) ==> row is Err && row->Err_0
                == GraphError::IdentifierMismatch,
    {
        let computed = key.id();
        if !same_str(computed.as_str(), id) {
            return Err(GraphError::IdentifierMismatch);
        }
        Ok(NetworkGraphRow { id: computed, key, value })
    }

    /// The identifier: 64 hexadecimal digits that depend on the key alone.
    pub fn id(&self) -> (id: &str)
        ensures
            id@ == self@.id,
            id@ == edge_key_id(self@.key),
            id@.len() == 64,
            forall|i: int| 0 <= i < 64 ==> is_hex_digit(#[trigger] id@[i]),
    {
        proof {
            use_type_invariant(self);
            lemma_hex_text_shape(sha256(edge_key_json(self.key@)));
        }
        self.id.as_str()
    }

    /// The row as a flat record.
    pub fn to_json(&self) -> (bytes: Vec<u8>)
        ensures
            bytes@ == row_json(self@),
    {
        let mut out: Vec<u8> = Vec::new();
        out.push(BRACE_OPEN);
        write_member_name(&mut out, "id");
        write_json_string(&mut out, self.id.as_str());
        out.push(COMMA);
        self.key.write_members(&mut out);
        out.push(COMMA);
        write_member_name(&mut out, "value");
        write_decimal(&mut out, self.value.0);
        out.push(BRACE_CLOSE);
        assert(out@ =~= row_json(self@));
        out
    }

    /// The key of the edge.
    pub fn key(&self) -> (key: &NetworkEdgeKey)
        ensures
            key@ == self@.key,
    {
        &self.key
    }

    /// The weight of the edge.
    pub fn value(&self) -> (value: NetworkValue)
        ensures
            value.0 == self@.value,
    {
        self.value
    }
}

impl Clone for NetworkGraphRow {
    fn clone(&self) -> (copy: Self)
        ensures
            copy@ == self@,
    {
        proof {
            use_type_invariant(self);
        }
        NetworkGraphRow { id: self.id.clone(), key: self.key.clone(), value: self.value }
    }
}

/// What stands in front of a member that is not the first: a comma, the
/// name, a colon.
pub open spec fn member_label(name: Seq<char>) -> Seq<u8> {
    seq![COMMA] + json_string(name) + seq![COLON]
}

/// The members with text values from place `i` on, each behind its label,
/// and then an end.
pub open spec fn text_members(
    names: Seq<Seq<char>>,
    values: Seq<Seq<char>>,
    end: Seq<u8>,
    i: int,
) -> Seq<u8>
    decreases names.len() - i,
{
    if i < 0 || i >= names.len() {
        end
    } else {
        member_label(names[i]) + (json_string(values[i]) + text_members(names, values, end, i + 1))
    }
}

/// Members under the same names and before the same end agree only if
/// their values agree.
proof fn lemma_text_members_injective(
    names: Seq<Seq<char>>,
    a: Seq<Seq<char>>,
    b: Seq<Seq<char>>,
    end: Seq<u8>,
    i: int,
)
    requires
        0 <= i <= names.len(),
        a.len() == names.len(),
        b.len() == names.len(),
        text_members(names, a, end, i) == text_members(names, b, end, i),
    ensures
        forall|j: int| i <= j < names.len() ==> a[j] == b[j],
    decreases names.len() - i,
{
    if i < names.len() {
        let rest_a = text_members(names, a, end, i + 1);
        let rest_b = text_members(names, b, end, i + 1);
        lemma_cancel(
            member_label(names[i]),
            json_string(a[i]) + rest_a,
            json_string(b[i]) + rest_b,
        );
        lemma_json_string_delimited(a[i], b[i], rest_a, rest_b);
        lemma_text_members_injective(names, a, b, end, i + 1);
    }
}

/// The members of a node key behind a comma, with their labels one by one.
proof fn lemma_node_key_members(
    kind: Seq<char>,
    name: Seq<char>,
    namespace: Seq<char>,
    k: NodeKeyView,
    end: Seq<u8>,
)
    ensures
        seq![COMMA] + node_key_members(kind, name, namespace, k) + end == member_label(kind) + (
        json_string(k.kind) + (member_label(name) + (json_string(k.name) + (member_label(
            namespace,
        ) + (json_string(k.namespace) + end))))),
{
    let a = json_string(kind);
    let b = json_string(k.kind);
    let c = json_string(name);
    let d = json_string(k.name);
    let e = json_string(namespace);
    let f = json_string(k.namespace);
    let comma = seq![COMMA];
    let colon = seq![COLON];
    assert(node_key_members(kind, name, namespace, k) == (a + colon + b) + comma + (c + colon
        + d) + comma + (e + colon + f));
    assert(comma + ((a + colon + b) + comma + (c + colon + d) + comma + (e + colon + f)) + end
        =~= (comma + a + colon) + (b + ((comma + c + colon) + (d + ((comma + e + colon) + (f
        + end))))));
}

/// The names of the text members of an edge key, in their order.
pub open spec fn edge_key_names() -> Seq<Seq<char>> {
    seq![
        "link_kind"@,
        "link_name"@,
        "link_namespace"@,
        "sink_kind"@,
        "sink_name"@,
        "sink_namespace"@,
        "src_kind"@,
        "src_name"@,
        "src_namespace"@,
    ]
}

/// The values of the text members of an edge key, in their order.
pub open spec fn edge_key_values(k: EdgeKeyView<NodeKeyView>) -> Seq<Seq<char>> {
    seq![
        k.link.kind,
        k.link.name,
        k.link.namespace,
        k.sink.kind,
        k.sink.name,
        k.sink.namespace,
        k.src.kind,
        k.src.name,
        k.src.namespace,
    ]
}

/// Three members with text values from place `i` on, and what follows them.
proof fn lemma_three_members(
    names: Seq<Seq<char>>,
    values: Seq<Seq<char>>,
    end: Seq<u8>,
    i: int,
)
    requires
        0 <= i,
        i + 3 <= names.len(),
    ensures
        text_members(names, values, end, i) == member_label(names[i]) + (json_string(values[i]) + (
        member_label(names[i + 1]) + (json_string(values[i + 1]) + (member_label(names[i + 2]) + (
        json_string(values[i + 2]) + text_members(names, values, end, i + 3)))))),
{
    assert(text_members(names, values, end, i + 2) == member_label(names[i + 2]) + (json_string(
        values[i + 2],
    ) + text_members(names, values, end, i + 3)));
    assert(text_members(names, values, end, i + 1) == member_label(names[i + 1]) + (json_string(
        values[i + 1],
    ) + text_members(names, values, end, i + 2)));
}

/// The members of an edge key behind its interval are nine members with
/// text values.
proof fn lemma_edge_key_members_stream(k: EdgeKeyView<NodeKeyView>, end: Seq<u8>)
    ensures
        text_members(edge_key_names(), edge_key_values(k), end, 0) == (seq![COMMA]
            + node_key_members("link_kind"@, "link_name"@, "link_namespace"@, k.link)) + ((seq![
            COMMA,
        ] + node_key_members("sink_kind"@, "sink_name"@, "sink_namespace"@, k.sink)) + ((seq![
            COMMA,
        ] + node_key_members("src_kind"@, "src_name"@, "src_namespace"@, k.src)) + end)),
{
    let names = edge_key_names();
    let values = edge_key_values(k);
    assert(names.len() == 9 && values.len() == 9);
    let after = text_members(names, values, end, 9);
    assert(after == end);
    let src = text_members(names, values, end, 6);
    let sink = text_members(names, values, end, 3);
    lemma_three_members(names, values, end, 6);
    lemma_three_members(names, values, end, 3);
    lemma_three_members(names, values, end, 0);
    lemma_node_key_members("src_kind"@, "src_name"@, "src_namespace"@, k.src, end);
    lemma_node_key_members("sink_kind"@, "sink_name"@, "sink_namespace"@, k.sink, src);
    lemma_node_key_members("link_kind"@, "link_name"@, "link_namespace"@, k.link, sink);
    assert(names[0] == "link_kind"@ && names[1] == "link_name"@ && names[2]
        == "link_namespace"@);
    assert(names[3] == "sink_kind"@ && names[4] == "sink_name"@ && names[5]
        == "sink_namespace"@);
    assert(names[6] == "src_kind"@ && names[7] == "src_name"@ && names[8] == "src_namespace"@);
    assert(values[0] == k.link.kind && values[1] == k.link.name && values[2]
        == k.link.namespace);
    assert(values[3] == k.sink.kind && values[4] == k.sink.name && values[5]
        == k.sink.namespace);
    assert(values[6] == k.src.kind && values[7] == k.src.name && values[8] == k.src.namespace);
}

/// The canonical serialization of an edge key is its opening, the interval,
/// and nine members with text values before the closing brace.
proof fn lemma_edge_key_json_stream(k: EdgeKeyView<NodeKeyView>)
    ensures
        edge_key_json(k) == (seq![BRACE_OPEN] + json_string("le"@) + seq![COLON]) + (decimal(
            k.interval_ms,
        ) + text_members(edge_key_names(), edge_key_values(k), seq![BRACE_CLOSE], 0)),
{
    let end = seq![BRACE_CLOSE];
    lemma_edge_key_members_stream(k, end);
    let link = node_key_members("link_kind"@, "link_name"@, "link_namespace"@, k.link);
    let sink = node_key_members("sink_kind"@, "sink_name"@, "sink_namespace"@, k.sink);
    let src = node_key_members("src_kind"@, "src_name"@, "src_namespace"@, k.src);
    let open = seq![BRACE_OPEN];
    let comma = seq![COMMA];
    let colon = seq![COLON];
    let le = json_string("le"@);
    let interval = decimal(k.interval_ms);
    assert(edge_key_members(k) == (le + colon + interval) + comma + link + comma + sink + comma
        + src);
    assert(open + ((le + colon + interval) + comma + link + comma + sink + comma + src) + end
        =~= (open + le + colon) + (interval + ((comma + link) + ((comma + sink) + ((comma + src)
        + end)))));
}

/// Different keys have different canonical serializations, so that two
/// keys can share an identifier only where the hash of two different texts
/// is the same.
pub proof fn lemma_edge_key_json_injective(a: EdgeKeyView<NodeKeyView>, b: EdgeKeyView<NodeKeyView>)
    requires
        edge_key_json(a) == edge_key_json(b),
    ensures
        a == b,
{
    let end = seq![BRACE_CLOSE];
    let head = seq![BRACE_OPEN] + json_string("le"@) + seq![COLON];
    let names = edge_key_names();
    let va = edge_key_values(a);
    let vb = edge_key_values(b);
    let members_a = text_members(names, va, end, 0);
    let members_b = text_members(names, vb, end, 0);
    lemma_edge_key_json_stream(a);
    lemma_edge_key_json_stream(b);
    lemma_cancel(head, decimal(a.interval_ms) + members_a, decimal(b.interval_ms) + members_b);
    assert(names.len() == 9 && va.len() == 9 && vb.len() == 9);
    assert(members_a[0] == COMMA) by {
        assert(member_label(names[0])[0] == COMMA);
    }
    assert(members_b[0] == COMMA) by {
        assert(member_label(names[0])[0] == COMMA);
    }
    lemma_decimal_delimited(a.interval_ms, b.interval_ms, members_a, members_b);
    lemma_text_members_injective(names, va, vb, end, 0);
    assert(va[0] == vb[0] && va[1] == vb[1] && va[2] == vb[2]);
    assert(va[3] == vb[3] && va[4] == vb[4] && va[5] == vb[5]);
    assert(va[6] == vb[6] && va[7] == vb[7] && va[8] == vb[8]);
    assert(a.link == b.link);
    assert(a.sink == b.sink);
    assert(a.src == b.src);
}

/// Equal keys have equal identifiers.
pub proof fn lemma_equal_keys_equal_ids(a: EdgeKeyView<NodeKeyView>, b: EdgeKeyView<NodeKeyView>)
    requires
        a == b,
    ensures
        edge_key_id(a) == edge_key_id(b),
{
}

/// What can go wrong when a row is made.
#[derive(Clone, Copy, Debug, PartialEq, Eq, Structural)]
pub enum GraphError {
    /// The identifier that came with the row is not the one of its key.
    IdentifierMismatch,
}

} // verus!
