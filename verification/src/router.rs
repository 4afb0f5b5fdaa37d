//! The partition of the key space: which node owns a key, and whether a
//! request for it is served here or handed to another node.

use crate::node_config::{node_views, Instance, NodeConfig};
use vstd::arithmetic::div_mod::{lemma_add_mod_noop, lemma_mod_bound, lemma_small_mod};
use vstd::prelude::*;
use vstd::std_specs::iter::IteratorSpec;

verus! {

/// The digest of a key: the sum of the code points of its characters.
pub open spec fn key_digest(key: Seq<char>) -> nat
    decreases key.len(),
{
    if key.len() == 0 {
        0
    } else {
        key_digest(key.drop_last()) + (key.last() as u32) as nat
    }
}

/// The position, among `count` nodes, of the node that owns `key`.
pub open spec fn owner_position(key: Seq<char>, count: nat) -> nat {
    key_digest(key) % count
}

impl NodeConfig {
    /// The node that owns `key`.
    pub open spec fn owner_of(&self, key: Seq<char>) -> Instance {
        self.nodes[owner_position(key, self.nodes.len() as nat) as int]
    }

    /// The current node owns `key`.
    pub open spec fn is_local(&self, key: Seq<char>) -> bool {
        self.owner_of(key).id == self.current_node.id
    }
}

/// Adds `b` to `a` modulo `n` without leaving the range of `usize`.
fn add_mod(a: usize, b: usize, n: usize) -> (r: usize)
    requires
        a < n,
        b < n,
    ensures
        r == (a + b) % (n as int),
{
    if a >= n - b {
        let r: usize = a - (n - b);
        assert((a + b) % (n as int) == r) by (nonlinear_arith)
            requires
                r == (a + b) - n,
                0 <= r < n,
        ;
        r
    } else {
        let r: usize = a + b;
        assert((a + b) % (n as int) == r) by (nonlinear_arith)
            requires
                r == a + b,
                0 <= r < n,
        ;
        r
    }
}

/// The position of the owner of `key` among `count` nodes.
///
/// The digest is reduced as it is summed, so a key of any length is
/// placed without overflow.
fn owner_index(key: &str, count: usize) -> (r: usize)
    requires
        count > 0,
    ensures
        r == owner_position(key@, count as nat),
        r < count,
{
    let mut acc: usize = 0;
    let mut it = key.chars();
    let ghost mut seen: int = 0;
    proof {
        assert(key@.subrange(0, key@.len() as int) == key@);
        assert(key@.subrange(0, 0).len() == 0);
        lemma_small_mod(0, count as nat);
    }
    loop
        invariant
            count > 0,
            acc < count,
            0 <= seen <= key@.len(),
            it.remaining() == key@.subrange(seen, key@.len() as int),
            acc == key_digest(key@.subrange(0, seen)) % (count as nat),
        decreases key@.len() - seen,
    {
        match it.next() {
            Some(c) => {
                let code: usize = (c as u32) as usize;
                let ghost before = acc;
                acc = add_mod(acc, code % count, count);
                proof {
                    let head = key@.subrange(0, seen);
                    let next = key@.subrange(0, seen + 1);
                    assert(c == key@[seen]);
                    assert(next.drop_last() == head);
                    assert(next.last() == c);
                    assert(key_digest(next) == key_digest(head) + code as nat);
                    lemma_add_mod_noop(key_digest(head) as int, code as int, count as int);
                    seen = seen + 1;
                }
            },
            None => {
                proof {
                    assert(key@.subrange(0, seen) == key@);
                }
                return acc;
            },
        }
    }
}

/// The node that owns `key`: the one at position `digest mod count` of the
/// node list, in its stored order.
pub fn owner<'a>(key: &str, config: &'a NodeConfig) -> (node: &'a Instance)
    requires
        config.nodes.len() > 0,
    ensures
        *node == config.owner_of(key@),
{
    let at = owner_index(key, config.nodes.len());
    &config.nodes[at]
}

/// Decides where a request for `key` is served: `None` when the current
/// node owns the key, otherwise the owner to hand the request to.
pub fn check_redirect<'a>(key: &'a String, config: &'a NodeConfig) -> (redirect: Option<&'a Instance>)
    requires
        config.nodes.len() > 0,
    ensures
        match redirect {
            None => config.is_local(key@),
            Some(node) => !config.is_local(key@) && *node == config.owner_of(key@),
        },
{
    let instance = owner(key.as_str(), config);
    if instance.id != config.current_node.id {
        return Some(instance);
    }
    None
}

/// Every key has exactly one owner, and it is one of the declared nodes:
/// its position lies within the node list.
pub proof fn owner_is_declared(key: Seq<char>, config: NodeConfig)
    requires
        config.nodes.len() > 0,
    ensures
        0 <= owner_position(key, config.nodes.len() as nat) < config.nodes.len(),
        config.nodes@.contains(config.owner_of(key)),
{
    lemma_mod_bound(key_digest(key) as int, config.nodes.len() as int);
}

/// Which position owns a key depends on the number of nodes alone, not on
/// what the nodes are: two node lists of one length place every key at the
/// same position.
pub proof fn owner_depends_on_count_and_order(key: Seq<char>, a: NodeConfig, b: NodeConfig)
    requires
        a.nodes.len() == b.nodes.len(),
        a.nodes.len() > 0,
    ensures
        owner_position(key, a.nodes.len() as nat) == owner_position(key, b.nodes.len() as nat),
        a.owner_of(key) == a.nodes[owner_position(key, a.nodes.len() as nat) as int],
        b.owner_of(key) == b.nodes[owner_position(key, a.nodes.len() as nat) as int],
{
}

/// Where no two nodes share an identifier, a key is served locally exactly
/// when the current node stands at the position that owns the key.
pub proof fn local_iff_current_is_owner(key: Seq<char>, config: NodeConfig, at: int)
    requires
        config.ids_unique(),
        0 <= at < config.nodes.len(),
        config.nodes[at].id == config.current_node.id,
    ensures
        config.is_local(key) <==> owner_position(key, config.nodes.len() as nat) == at,
{
    lemma_mod_bound(key_digest(key) as int, config.nodes.len() as int);
    let owner = owner_position(key, config.nodes.len() as nat) as int;
    if owner < at {
        assert(config.nodes[owner].id != config.nodes[at].id);
    } else if at < owner {
        assert(config.nodes[at].id != config.nodes[owner].id);
    }
}

/// Two topologies that hold the same node list agree on the owner of every
/// key, whichever node each of them runs as.
pub proof fn owner_agrees_across_replicas(key: Seq<char>, a: NodeConfig, b: NodeConfig)
    requires
        node_views(a.nodes@) == node_views(b.nodes@),
        a.nodes.len() > 0,
    ensures
        a.owner_of(key)@ == b.owner_of(key)@,
{
    lemma_mod_bound(key_digest(key) as int, a.nodes.len() as int);
    let at = owner_position(key, a.nodes.len() as nat) as int;
    assert(node_views(a.nodes@).len() == a.nodes.len());
    assert(node_views(b.nodes@).len() == b.nodes.len());
    assert(node_views(a.nodes@)[at] == a.nodes[at]@);
    assert(node_views(b.nodes@)[at] == b.nodes[at]@);
}

} // verus!

