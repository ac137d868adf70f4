//! Routing: a consistent-hash ring whose nodes are the pool's connections,
//! kept in conhash's `ConsistentHash`.
use vstd::prelude::*;
use vstd::string::StringExecFns;
use vstd::relations::total_ordering;
use vstd::set_lib::{lemma_set_empty_equivalency_len, lemma_set_subset_finite};
use vstd::utf8::encode_utf8;

verus! {

/// The number of ring positions each connection is given.
pub const VIRTUAL_NODES: usize = 1;

/// A connection as the ring sees it: its place in the pool, and the identity
/// that its positions are hashed from.
#[derive(Clone)]
pub struct RingNode {
    pub index: usize,
    pub identity: String,
}

impl conhash::Node for RingNode {
    fn name(&self) -> (name: String)
        ensures
            name@ == self.identity@,
    {
        self.identity.clone()
    }
}

/// conhash's ring of `RingNode`s. It is held here whole, out of the
/// verifier's sight; what the library knows of it is what the functions below
/// state over `ring_positions` and `ring_replicas`.
#[verifier::external_body]
pub struct HashRing {
    inner: conhash::ConsistentHash<RingNode>,
}

/// The ring's positions, each with the pool index of the node placed there.
pub uninterp spec fn ring_positions(ring: HashRing) -> Map<Seq<u8>, usize>;

/// The names of the nodes on the ring, each with its count of positions.
pub uninterp spec fn ring_replicas(ring: HashRing) -> Map<Seq<char>, usize>;

/// The digest that the ring's default hasher (MD5) gives for some bytes.
pub uninterp spec fn ring_hash(bytes: Seq<u8>) -> Seq<u8>;

/// The decimal digits of `n`, most significant first, with no leading zero.
pub open spec fn decimal_chars(n: nat) -> Seq<char>
    decreases n,
{
    if n < 10 {
        seq![(48 + n) as char]
    } else {
        decimal_chars(n / 10).push((48 + n % 10) as char)
    }
}

/// Where the `i`-th virtual node of the node named `name` sits: the digest of
/// the text `name:i`.
pub open spec fn replica_position(name: Seq<char>, i: nat) -> Seq<u8> {
    ring_hash(encode_utf8(name + seq![':'] + decimal_chars(i)))
}

pub open spec fn is_replica_position(name: Seq<char>, count: nat, p: Seq<u8>) -> bool {
    exists|i: nat| i < count && p == #[trigger] replica_position(name, i)
}

/// The positions after adding a node: the positions of an earlier node of the
/// same name are taken away, then the node takes each of its own positions.
pub open spec fn added_positions(
    positions: Map<Seq<u8>, usize>,
    replicas: Map<Seq<char>, usize>,
    name: Seq<char>,
    count: nat,
    index: usize,
) -> Map<Seq<u8>, usize> {
    let earlier: nat = if replicas.dom().contains(name) {
        replicas[name] as nat
    } else {
        0
    };
    Map::new(
        |p: Seq<u8>|
            is_replica_position(name, count, p) || (positions.dom().contains(p)
                && !is_replica_position(name, earlier, p)),
        |p: Seq<u8>|
            if is_replica_position(name, count, p) {
                index
            } else {
                positions[p]
            },
    )
}

/// The order of byte strings that std gives `Vec<u8>`: lexicographic, a
/// prefix first.
pub open spec fn bytes_le(a: Seq<u8>, b: Seq<u8>) -> bool
    decreases a.len(),
{
    if a.len() == 0 {
        true
    } else if b.len() == 0 {
        false
    } else if a[0] != b[0] {
        a[0] < b[0]
    } else {
        bytes_le(a.drop_first(), b.drop_first())
    }
}

pub open spec fn first_at_or_after(positions: Map<Seq<u8>, usize>, h: Seq<u8>, p: Seq<u8>) -> bool {
    &&& positions.dom().contains(p)
    &&& bytes_le(h, p)
    &&& forall|q: Seq<u8>| positions.dom().contains(q) && bytes_le(h, q) ==> bytes_le(p, q)
}

pub open spec fn first_of_all(positions: Map<Seq<u8>, usize>, p: Seq<u8>) -> bool {
    &&& positions.dom().contains(p)
    &&& forall|q: Seq<u8>| positions.dom().contains(q) ==> bytes_le(p, q)
}

/// The node that owns a hash: the one at the first position at or after it,
/// or, when there is none, the one at the first position of all. (The ring
/// holds finitely many positions, so whichever applies exists.)
pub open spec fn ring_owner(positions: Map<Seq<u8>, usize>, h: Seq<u8>) -> Option<usize> {
    if exists|p: Seq<u8>| first_at_or_after(positions, h, p) {
        Some(positions[choose|p: Seq<u8>| first_at_or_after(positions, h, p)])
    } else if exists|p: Seq<u8>| first_of_all(positions, p) {
        Some(positions[choose|p: Seq<u8>| first_of_all(positions, p)])
    } else {
        None
    }
}

pub proof fn lemma_bytes_le_reflexive(a: Seq<u8>)
    ensures
        bytes_le(a, a),
    decreases a.len(),
{
    if a.len() > 0 {
        lemma_bytes_le_reflexive(a.drop_first());
    }
}

pub proof fn lemma_bytes_le_total(a: Seq<u8>, b: Seq<u8>)
    ensures
        bytes_le(a, b) || bytes_le(b, a),
    decreases a.len(),
{
    if a.len() > 0 && b.len() > 0 && a[0] == b[0] {
        lemma_bytes_le_total(a.drop_first(), b.drop_first());
    }
}

pub proof fn lemma_bytes_le_antisymmetric(a: Seq<u8>, b: Seq<u8>)
    requires
        bytes_le(a, b),
        bytes_le(b, a),
    ensures
        a == b,
    decreases a.len(),
{
    if a.len() > 0 {
        lemma_bytes_le_antisymmetric(a.drop_first(), b.drop_first());
        assert(a =~= seq![a[0]] + a.drop_first());
        assert(b =~= seq![b[0]] + b.drop_first());
    } else {
        assert(a =~= b);
    }
}

pub proof fn lemma_bytes_le_transitive(a: Seq<u8>, b: Seq<u8>, c: Seq<u8>)
    requires
        bytes_le(a, b),
        bytes_le(b, c),
    ensures
        bytes_le(a, c),
    decreases a.len(),
{
    if a.len() > 0 && b.len() > 0 && c.len() > 0 && a[0] == b[0] && b[0] == c[0] {
        lemma_bytes_le_transitive(a.drop_first(), b.drop_first(), c.drop_first());
    }
}

pub proof fn lemma_bytes_le_total_ordering()
    ensures
        total_ordering(|a: Seq<u8>, b: Seq<u8>| bytes_le(a, b)),
{
    let r = |a: Seq<u8>, b: Seq<u8>| bytes_le(a, b);
    assert forall|a: Seq<u8>| #[trigger] r(a, a) by {
        lemma_bytes_le_reflexive(a);
    }
    assert forall|a: Seq<u8>, b: Seq<u8>| #[trigger] r(a, b) && #[trigger] r(b, a) implies a
        == b by {
        lemma_bytes_le_antisymmetric(a, b);
    }
    assert forall|a: Seq<u8>, b: Seq<u8>, c: Seq<u8>| #[trigger] r(a, b) && #[trigger] r(
        b,
        c,
    ) implies r(a, c) by {
        lemma_bytes_le_transitive(a, b, c);
    }
    assert forall|a: Seq<u8>, b: Seq<u8>| #[trigger] r(a, b) || #[trigger] r(b, a) by {
        lemma_bytes_le_total(a, b);
    }
}

/// A finite set of byte strings that holds `p` has a least element.
proof fn lemma_least_exists(s: Set<Seq<u8>>, p: Seq<u8>)
    requires
        s.finite(),
        s.contains(p),
    ensures
        exists|m: Seq<u8>|
            s.contains(m) && forall|q: Seq<u8>| s.contains(q) ==> #[trigger] bytes_le(m, q),
{
    let r = |a: Seq<u8>, b: Seq<u8>| bytes_le(a, b);
    lemma_bytes_le_total_ordering();
    lemma_set_empty_equivalency_len(s);
    s.find_unique_minimal_ensures(r);
    let m = s.find_unique_minimal(r);
    assert forall|q: Seq<u8>| s.contains(q) implies #[trigger] bytes_le(m, q) by {
        lemma_bytes_le_total(m, q);
        assert(r(q, m) ==> r(m, q));
    }
}

/// A ring with at least one position, finitely many, gives every hash an
/// owner.
pub proof fn lemma_owner_exists(positions: Map<Seq<u8>, usize>, h: Seq<u8>, p: Seq<u8>)
    requires
        positions.dom().finite(),
        positions.dom().contains(p),
    ensures
        ring_owner(positions, h) is Some,
{
    if exists|q: Seq<u8>| positions.dom().contains(q) && bytes_le(h, q) {
        let q = choose|q: Seq<u8>| positions.dom().contains(q) && bytes_le(h, q);
        let after = positions.dom().filter(|x: Seq<u8>| bytes_le(h, x));
        lemma_set_subset_finite(positions.dom(), after);
        lemma_least_exists(after, q);
        let m = choose|m: Seq<u8>|
            after.contains(m) && forall|x: Seq<u8>| after.contains(x) ==> #[trigger] bytes_le(m, x);
        assert(first_at_or_after(positions, h, m));
    } else {
        lemma_least_exists(positions.dom(), p);
        let m = choose|m: Seq<u8>|
            positions.dom().contains(m) && forall|x: Seq<u8>|
                positions.dom().contains(x) ==> #[trigger] bytes_le(m, x);
        assert(first_of_all(positions, m));
    }
}

/// Adding a node with one position keeps the positions finite and puts that
/// position among them.
proof fn lemma_added_one(
    positions: Map<Seq<u8>, usize>,
    replicas: Map<Seq<char>, usize>,
    name: Seq<char>,
    index: usize,
)
    requires
        positions.dom().finite(),
    ensures
        added_positions(positions, replicas, name, 1, index).dom().finite(),
        added_positions(positions, replicas, name, 1, index).dom().contains(
            replica_position(name, 0),
        ),
{
    let added = added_positions(positions, replicas, name, 1, index);
    let first = replica_position(name, 0);
    assert(is_replica_position(name, 1, first));
    assert forall|p: Seq<u8>| added.dom().contains(p) implies #[trigger] positions.dom().insert(
        first,
    ).contains(p) by {
        if is_replica_position(name, 1, p) {
            let i = choose|i: nat| i < 1 && p == #[trigger] replica_position(name, i);
            assert(i == 0);
        }
    }
    lemma_set_subset_finite(positions.dom().insert(first), added.dom());
}

/// Relies on conhash's `ConsistentHash::new`: a ring with no node, hashing
/// with MD5.
#[verifier::external_body]
fn ring_new() -> (ring: HashRing)
    ensures
        ring_positions(ring) =~= Map::empty(),
        ring_replicas(ring) =~= Map::empty(),
{
    HashRing { inner: conhash::ConsistentHash::new() }
}

/// Relies on conhash's `ConsistentHash::add`: it removes the positions of a
/// node added before under the same name, records the new count, and puts a
/// clone of the node at the digest of `name:i` for each `i` below `replicas`.
#[verifier::external_body]
fn ring_add(ring: &mut HashRing, node: &RingNode, replicas: usize)
    ensures
        ring_replicas(*final(ring)) == ring_replicas(*old(ring)).insert(node.identity@, replicas),
        ring_positions(*final(ring)) == added_positions(
            ring_positions(*old(ring)),
            ring_replicas(*old(ring)),
            node.identity@,
            replicas as nat,
            node.index,
        ),
{
    ring.inner.add(node, replicas)
}

/// Relies on conhash's `ConsistentHash::get`: it hashes the key and walks the
/// positions in order for the first one at or after the digest, falling back
/// to the first position; `None` on an empty ring.
#[verifier::external_body]
fn ring_get(ring: &HashRing, key: &[u8]) -> (owner: Option<usize>)
    ensures
        owner == ring_owner(ring_positions(*ring), ring_hash(key@)),
{
    ring.inner.get(key).map(|node| node.index)
}


/// The identity under which a connection is placed on the ring: its peer
/// address, then `#` and its index in the pool. Two connections of one pool
/// never share an identity, even when they reach the same server.
pub open spec fn node_identity(peer: Seq<char>, index: nat) -> Seq<char> {
    peer + seq!['#'] + decimal_chars(index)
}

proof fn lemma_decimal_shape(n: nat)
    ensures
        n < 10 ==> decimal_chars(n).len() == 1,
        n >= 10 ==> decimal_chars(n).len() >= 2,
        forall|k: int| 0 <= k < decimal_chars(n).len() ==> #[trigger] decimal_chars(n)[k] != '#',
    decreases n,
{
    if n >= 10 {
        lemma_decimal_shape(n / 10);
        assert(decimal_chars(n) == decimal_chars(n / 10).push((48 + n % 10) as char));
    }
}

/// Different numbers have different decimal forms.
proof fn lemma_decimal_injective(a: nat, b: nat)
    requires
        decimal_chars(a) == decimal_chars(b),
    ensures
        a == b,
    decreases a,
{
    lemma_decimal_shape(a);
    lemma_decimal_shape(b);
    if a >= 10 && b >= 10 {
        let (da, db) = (decimal_chars(a), decimal_chars(b));
        assert(da == decimal_chars(a / 10).push((48 + a % 10) as char));
        assert(db == decimal_chars(b / 10).push((48 + b % 10) as char));
        assert(da.last() == db.last());
        assert(((48 + a % 10) as char) as int == 48 + a % 10);
        assert(((48 + b % 10) as char) as int == 48 + b % 10);
        assert(a % 10 == b % 10);
        assert(da.drop_last() =~= decimal_chars(a / 10));
        assert(db.drop_last() =~= decimal_chars(b / 10));
        lemma_decimal_injective(a / 10, b / 10);
        assert(a / 10 == b / 10);
        assert(a == 10 * (a / 10) + a % 10);
        assert(b == 10 * (b / 10) + b % 10);
        assert(a == b);
    } else {
        assert(a < 10 && b < 10);
        assert(decimal_chars(a) == seq![(48 + a) as char]);
        assert(decimal_chars(b) == seq![(48 + b) as char]);
        let (ca, cb) = ((48 + a) as char, (48 + b) as char);
        assert(decimal_chars(a)[0] == ca);
        assert(decimal_chars(b)[0] == cb);
        assert(ca == cb);
        assert(ca as int == 48 + a);
        assert(cb as int == 48 + b);
        assert(a == b);
    }
}

/// The connections of a pool are placed under pairwise distinct identities:
/// the digits after the last `#` are the pool index.
pub proof fn lemma_identities_distinct(p: Seq<char>, i: nat, q: Seq<char>, j: nat)
    requires
        i != j,
    ensures
        node_identity(p, i) != node_identity(q, j),
{
    let (x, y) = (node_identity(p, i), node_identity(q, j));
    let (di, dj) = (decimal_chars(i), decimal_chars(j));
    lemma_decimal_shape(i);
    lemma_decimal_shape(j);
    if x == y {
        if di.len() == dj.len() {
            assert(x.subrange(x.len() - di.len(), x.len() as int) =~= di);
            assert(y.subrange(y.len() - dj.len(), y.len() as int) =~= dj);
            lemma_decimal_injective(i, j);
        } else if di.len() < dj.len() {
            let k = x.len() - di.len() - 1;
            assert(x[k] == '#');
            assert(y[k] == dj[k - (y.len() - dj.len())]);
        } else {
            let k = y.len() - dj.len() - 1;
            assert(y[k] == '#');
            assert(x[k] == di[k - (x.len() - di.len())]);
        }
    }
}

/// The positions and names on the ring once the first `n` connections of the
/// pool have been added, in pool order.
pub open spec fn pool_ring(peers: Seq<Seq<char>>, n: nat) -> (
    Map<Seq<u8>, usize>,
    Map<Seq<char>, usize>,
)
    decreases n,
{
    if n == 0 {
        (Map::empty(), Map::empty())
    } else {
        let (positions, replicas) = pool_ring(peers, (n - 1) as nat);
        let name = node_identity(peers[n - 1], (n - 1) as nat);
        (
            added_positions(positions, replicas, name, VIRTUAL_NODES as nat, (n - 1) as usize),
            replicas.insert(name, VIRTUAL_NODES),
        )
    }
}

pub open spec fn peer_views(peers: Seq<String>) -> Seq<Seq<char>> {
    peers.map_values(|s: String| s@)
}

fn digit_str(d: usize) -> (s: &'static str)
    requires
        d < 10,
    ensures
        s@ == seq![(48 + d) as char],
{
    proof {
        reveal_strlit("0");
        reveal_strlit("1");
        reveal_strlit("2");
        reveal_strlit("3");
        reveal_strlit("4");
        reveal_strlit("5");
        reveal_strlit("6");
        reveal_strlit("7");
        reveal_strlit("8");
        reveal_strlit("9");
    }
    if d == 0 {
        "0"
    } else if d == 1 {
        "1"
    } else if d == 2 {
        "2"
    } else if d == 3 {
        "3"
    } else if d == 4 {
        "4"
    } else if d == 5 {
        "5"
    } else if d == 6 {
        "6"
    } else if d == 7 {
        "7"
    } else if d == 8 {
        "8"
    } else {
        "9"
    }
}

/// `n` written in decimal.
pub fn decimal_string(n: usize) -> (s: String)
    ensures
        s@ == decimal_chars(n as nat),
{
    let mut s = String::from_str(digit_str(n % 10));
    let mut rest: usize = n / 10;
    while rest > 0
        invariant
            rest > 0 ==> decimal_chars(n as nat) == decimal_chars(rest as nat) + s@,
            rest == 0 ==> decimal_chars(n as nat) == s@,
        decreases rest,
    {
        let next = String::from_str(digit_str(rest % 10)).concat(s.as_str());
        assert(decimal_chars(rest as nat) == decimal_chars((rest / 10) as nat) + seq![
            (48 + rest % 10) as char,
        ] || rest < 10);
        s = next;
        rest = rest / 10;
        assert(rest > 0 ==> decimal_chars(n as nat) == decimal_chars(rest as nat) + s@);
    }
    s
}

/// Routes keys to the connections of a pool through a consistent-hash ring.
/// Built once; routing does not change it.
pub struct Router {
    ring: HashRing,
    connections: usize,
}

impl Router {
    /// The ring's positions, each with the pool index that owns it.
    pub closed spec fn positions(&self) -> Map<Seq<u8>, usize> {
        ring_positions(self.ring)
    }

    /// The number of connections in the pool.
    pub closed spec fn connections(&self) -> nat {
        self.connections as nat
    }

    #[verifier::type_invariant]
    spec fn well_formed(self) -> bool {
        &&& ring_positions(self.ring).dom().finite()
        &&& (forall|p: Seq<u8>| #[trigger]
            ring_positions(self.ring).dom().contains(p) ==> ring_positions(self.ring)[p]
                < self.connections)
        &&& (self.connections > 0 ==> ring_positions(self.ring).dom().contains(
            self.some_position(),
        ))
    }

    /// A position on the ring, when it has one.
    spec fn some_position(self) -> Seq<u8> {
        choose|p: Seq<u8>| ring_positions(self.ring).dom().contains(p)
    }

    /// The pool index that the key is routed to.
    pub open spec fn spec_route(&self, key: Seq<u8>) -> Option<usize> {
        ring_owner(self.positions(), ring_hash(key))
    }

    /// Places the pool's connections on a ring, in pool order. `peers[i]` is
    /// the peer address of connection `i`, which is placed under the identity
    /// `peers[i]#i`.
    pub fn new(peers: &Vec<String>) -> (router: Router)
        ensures
            router.positions() == pool_ring(peer_views(peers@), peers@.len()).0,
            router.connections() == peers@.len(),
    {
        let mut ring = ring_new();
        let mut i: usize = 0;
        while i < peers.len()
            invariant
                0 <= i <= peers@.len(),
                ring_positions(ring) == pool_ring(peer_views(peers@), i as nat).0,
                ring_replicas(ring) == pool_ring(peer_views(peers@), i as nat).1,
                forall|p: Seq<u8>| #[trigger]
                    ring_positions(ring).dom().contains(p) ==> ring_positions(ring)[p] < i,
                ring_positions(ring).dom().finite(),
                i > 0 ==> exists|p: Seq<u8>| ring_positions(ring).dom().contains(p),
            decreases peers@.len() - i,
        {
            let identity = peers[i].clone().concat("#").concat(
                decimal_string(i).as_str(),
            );
            proof {
                reveal_strlit("#");
                assert(identity@ =~= node_identity(
                    peer_views(peers@)[i as int],
                    i as nat,
                ));
            }
            let node = RingNode { index: i, identity };
            proof {
                lemma_added_one(ring_positions(ring), ring_replicas(ring), node.identity@, i);
            }
            ring_add(&mut ring, &node, VIRTUAL_NODES);
            i = i + 1;
        }
        Router { ring, connections: peers.len() }
    }

    /// The pool index that the key is routed to; `None` only for an empty
    /// pool.
    pub fn route(&self, key: &[u8]) -> (owner: Option<usize>)
        ensures
            owner == self.spec_route(key@),
            owner matches Some(i) ==> i < self.connections(),
            owner is Some <==> self.connections() > 0,
    {
        proof {
            use_type_invariant(self);
            if self.connections > 0 {
                lemma_owner_exists(self.positions(), ring_hash(key@), self.some_position());
            }
        }
        ring_get(&self.ring, key)
    }

    /// The number of connections in the pool.
    pub fn len(&self) -> (n: usize)
        ensures
            n == self.connections(),
    {
        self.connections
    }
}

} // verus!
