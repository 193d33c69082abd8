//! The registry of a multi-node test cluster: which nodes run, under which
//! names and indices. Launching and tearing down the containers themselves
//! is the surrounding harness's business; this registry decides names,
//! indices and lookups, and digests the container-runtime output the
//! teardown path reads.

use vstd::prelude::*;

use crate::text::chars_of;
use crate::text::contains_seq;
use crate::text::dec_digits;
use crate::text::find_from;
use crate::text::find_key;
use crate::text::str_eq;
use crate::text::string_of;
use crate::text::sub_chars;
use crate::text::u64_digits;

verus! {

/// The name a node gets from its run index.
pub open spec fn node_name_spec(index: nat) -> Seq<char> {
    "test_node_"@ + dec_digits(index)
}

fn node_name(index: usize) -> (r: String)
    ensures
        r@ == node_name_spec(index as nat),
{
    let mut s = String::from_str("test_node_");
    let digits = u64_digits(index as u64);
    let dtext = string_of(&digits);
    s.append(dtext.as_str());
    s
}

/// The startup configuration handed to a real node: the references of the
/// neighbors it should boot with.
#[derive(Clone, Debug, PartialEq)]
pub struct NodeStartupConfig {
    pub neighbors: Vec<String>,
}

/// The registry's record of a running real node.
#[derive(Clone, Debug, PartialEq)]
pub struct SubstratumRealNode {
    pub name: String,
    pub index: usize,
}

/// The registry's record of a running mock node.
#[derive(Clone, Debug, PartialEq)]
pub struct SubstratumMockNode {
    pub name: String,
    pub index: usize,
    pub ports: Vec<u16>,
}

/// Either kind of running node.
#[derive(Clone, Debug, PartialEq)]
pub enum ClusterNode {
    Real(SubstratumRealNode),
    Mock(SubstratumMockNode),
}

fn dup_real(n: &SubstratumRealNode) -> (r: SubstratumRealNode)
    ensures
        r == *n,
{
    SubstratumRealNode { name: n.name.clone(), index: n.index }
}

fn dup_ports(v: &Vec<u16>) -> (r: Vec<u16>)
    ensures
        r@ == v@,
{
    let mut r: Vec<u16> = Vec::new();
    let mut i: usize = 0;
    while i < v.len()
        invariant
            i <= v@.len(),
            r@ =~= v@.subrange(0, i as int),
        decreases v@.len() - i,
    {
        r.push(v[i]);
        i = i + 1;
    }
    proof {
        assert(r@ =~= v@);
    }
    r
}

/// Whether two mock-node records carry the same values.
pub open spec fn mock_eq(a: SubstratumMockNode, b: SubstratumMockNode) -> bool {
    a.name@ == b.name@ && a.index == b.index && a.ports@ == b.ports@
}

fn dup_mock(n: &SubstratumMockNode) -> (r: SubstratumMockNode)
    ensures
        mock_eq(r, *n),
{
    SubstratumMockNode { name: n.name.clone(), index: n.index, ports: dup_ports(&n.ports) }
}

/// The first index at or after `i` of a real-node record with this name.
pub open spec fn first_real_index(s: Seq<SubstratumRealNode>, name: Seq<char>, i: nat) -> Option<
    nat,
>
    decreases s.len() - i,
{
    if i >= s.len() {
        None
    } else if s[i as int].name@ == name {
        Some(i)
    } else {
        first_real_index(s, name, (i + 1) as nat)
    }
}

/// The first index at or after `i` of a mock-node record with this name.
pub open spec fn first_mock_index(s: Seq<SubstratumMockNode>, name: Seq<char>, i: nat) -> Option<
    nat,
>
    decreases s.len() - i,
{
    if i >= s.len() {
        None
    } else if s[i as int].name@ == name {
        Some(i)
    } else {
        first_mock_index(s, name, (i + 1) as nat)
    }
}

fn find_real(v: &Vec<SubstratumRealNode>, name: &str, from: usize) -> (r: Option<usize>)
    ensures
        match r {
            Some(i) => first_real_index(v@, name@, from as nat) == Some(i as nat) && i < v@.len(),
            None => first_real_index(v@, name@, from as nat) is None,
        },
    decreases v@.len() - from,
{
    if from >= v.len() {
        None
    } else if str_eq(v[from].name.as_str(), name) {
        Some(from)
    } else {
        find_real(v, name, from + 1)
    }
}

fn find_mock(v: &Vec<SubstratumMockNode>, name: &str, from: usize) -> (r: Option<usize>)
    ensures
        match r {
            Some(i) => first_mock_index(v@, name@, from as nat) == Some(i as nat) && i < v@.len(),
            None => first_mock_index(v@, name@, from as nat) is None,
        },
    decreases v@.len() - from,
{
    if from >= v.len() {
        None
    } else if str_eq(v[from].name.as_str(), name) {
        Some(from)
    } else {
        find_mock(v, name, from + 1)
    }
}

/// The cluster registry: the running nodes of each kind, the directory the
/// host mounts into them (when one is configured), and the next run index.
pub struct SubstratumNodeCluster {
    pub real_nodes: Vec<SubstratumRealNode>,
    pub mock_nodes: Vec<SubstratumMockNode>,
    pub host_node_parent_dir: Option<String>,
    pub next_index: usize,
}

impl SubstratumNodeCluster {
    /// An empty registry; indices start at one.
    pub fn new(host_node_parent_dir: Option<String>) -> (r: Self)
        ensures
            r.real_nodes@.len() == 0,
            r.mock_nodes@.len() == 0,
            r.host_node_parent_dir == host_node_parent_dir,
            r.next_index == 1,
    {
        SubstratumNodeCluster {
            real_nodes: Vec::new(),
            mock_nodes: Vec::new(),
            host_node_parent_dir,
            next_index: 1,
        }
    }

    /// The index the next started node will get.
    pub fn next_index(&self) -> (r: usize)
        ensures
            r == self.next_index,
    {
        self.next_index
    }

    /// Registers a real node under the next index and the name derived from
    /// it, and returns its record. The caller launches the container from
    /// the configuration.
    pub fn start_real_node(&mut self, config: NodeStartupConfig) -> (node: SubstratumRealNode)
        requires
            old(self).next_index < usize::MAX,
        ensures
            node.index == old(self).next_index,
            node.name@ == node_name_spec(old(self).next_index as nat),
            final(self).real_nodes@ == old(self).real_nodes@.push(node),
            final(self).mock_nodes@ == old(self).mock_nodes@,
            final(self).host_node_parent_dir == old(self).host_node_parent_dir,
            final(self).next_index == old(self).next_index + 1,
    {
        let _ = config;
        let index = self.next_index;
        self.next_index = self.next_index + 1;
        let node = SubstratumRealNode { name: node_name(index), index };
        let entry = dup_real(&node);
        self.real_nodes.push(entry);
        node
    }

    /// Registers a mock node listening on the given ports, under the next
    /// index and the name derived from it.
    pub fn start_mock_node(&mut self, ports: Vec<u16>) -> (node: SubstratumMockNode)
        requires
            old(self).next_index < usize::MAX,
        ensures
            node.index == old(self).next_index,
            node.name@ == node_name_spec(old(self).next_index as nat),
            node.ports@ == ports@,
            final(self).mock_nodes@.len() == old(self).mock_nodes@.len() + 1,
            final(self).mock_nodes@.subrange(0, old(self).mock_nodes@.len() as int) == old(
                self,
            ).mock_nodes@,
            mock_eq(final(self).mock_nodes@.last(), node),
            final(self).real_nodes@ == old(self).real_nodes@,
            final(self).host_node_parent_dir == old(self).host_node_parent_dir,
            final(self).next_index == old(self).next_index + 1,
    {
        let index = self.next_index;
        self.next_index = self.next_index + 1;
        let node = SubstratumMockNode { name: node_name(index), index, ports };
        let entry = dup_mock(&node);
        self.mock_nodes.push(entry);
        node
    }

    /// Surrenders the registry: the names of every running node, real ones
    /// first, for the caller to tear their containers down.
    pub fn stop(self) -> (names: Vec<String>)
        ensures
            names@.len() == self.real_nodes@.len() + self.mock_nodes@.len(),
            forall|i: int|
                0 <= i < self.real_nodes@.len() ==> names@[i]@ == #[trigger] self.real_nodes@[i].name@,
            forall|i: int|
                0 <= i < self.mock_nodes@.len() ==> names@[self.real_nodes@.len() + i]@
                    == #[trigger] self.mock_nodes@[i].name@,
    {
        self.running_node_names()
    }

    /// Removes the node of this name from the registry; real nodes shadow
    /// mock ones of the same name, as in lookups.
    pub fn stop_node(&mut self, name: &str)
        requires
            first_real_index(old(self).real_nodes@, name@, 0) is Some || first_mock_index(
                old(self).mock_nodes@,
                name@,
                0,
            ) is Some,
        ensures
            final(self).host_node_parent_dir == old(self).host_node_parent_dir,
            final(self).next_index == old(self).next_index,
            match first_real_index(old(self).real_nodes@, name@, 0) {
                Some(i) => final(self).real_nodes@ == old(self).real_nodes@.remove(i as int)
                    && final(self).mock_nodes@ == old(self).mock_nodes@,
                None => final(self).real_nodes@ == old(self).real_nodes@ && final(self).mock_nodes@
                    == old(self).mock_nodes@.remove(
                    first_mock_index(old(self).mock_nodes@, name@, 0)->Some_0 as int,
                ),
            },
    {
        match find_real(&self.real_nodes, name, 0) {
            Some(i) => {
                let _ = self.real_nodes.remove(i);
            },
            None => {
                match find_mock(&self.mock_nodes, name, 0) {
                    Some(i) => {
                        let _ = self.mock_nodes.remove(i);
                    },
                    None => {
                        proof {
                            assert(false);
                        }
                    },
                }
            },
        }
    }

    /// The names of every running node, real ones first.
    pub fn running_node_names(&self) -> (names: Vec<String>)
        ensures
            names@.len() == self.real_nodes@.len() + self.mock_nodes@.len(),
            forall|i: int|
                0 <= i < self.real_nodes@.len() ==> names@[i]@ == #[trigger] self.real_nodes@[i].name@,
            forall|i: int|
                0 <= i < self.mock_nodes@.len() ==> names@[self.real_nodes@.len() + i]@
                    == #[trigger] self.mock_nodes@[i].name@,
    {
        let mut names: Vec<String> = Vec::new();
        let mut i: usize = 0;
        while i < self.real_nodes.len()
            invariant
                i <= self.real_nodes@.len(),
                names@.len() == i,
                forall|j: int|
                    0 <= j < i ==> names@[j]@ == #[trigger] self.real_nodes@[j].name@,
            decreases self.real_nodes@.len() - i,
        {
            names.push(self.real_nodes[i].name.clone());
            i = i + 1;
        }
        let mut k: usize = 0;
        while k < self.mock_nodes.len()
            invariant
                k <= self.mock_nodes@.len(),
                names@.len() == self.real_nodes@.len() + k,
                forall|j: int|
                    0 <= j < self.real_nodes@.len() ==> names@[j]@
                        == #[trigger] self.real_nodes@[j].name@,
                forall|j: int|
                    0 <= j < k ==> names@[self.real_nodes@.len() + j]@
                        == #[trigger] self.mock_nodes@[j].name@,
            decreases self.mock_nodes@.len() - k,
        {
            names.push(self.mock_nodes[k].name.clone());
            k = k + 1;
        }
        names
    }

    /// The first real node of this name, if any.
    pub fn get_real_node_by_name(&self, name: &str) -> (r: Option<SubstratumRealNode>)
        ensures
            match r {
                Some(n) => first_real_index(self.real_nodes@, name@, 0) matches Some(i) && n
                    == self.real_nodes@[i as int],
                None => first_real_index(self.real_nodes@, name@, 0) is None,
            },
    {
        match find_real(&self.real_nodes, name, 0) {
            Some(i) => Some(dup_real(&self.real_nodes[i])),
            None => None,
        }
    }

    /// The first mock node of this name, if any.
    pub fn get_mock_node_by_name(&self, name: &str) -> (r: Option<SubstratumMockNode>)
        ensures
            match r {
                Some(n) => first_mock_index(self.mock_nodes@, name@, 0) matches Some(i)
                    && mock_eq(n, self.mock_nodes@[i as int]),
                None => first_mock_index(self.mock_nodes@, name@, 0) is None,
            },
    {
        match find_mock(&self.mock_nodes, name, 0) {
            Some(i) => Some(dup_mock(&self.mock_nodes[i])),
            None => None,
        }
    }

    /// The node of this name, of either kind; real nodes shadow mock ones.
    pub fn get_node_by_name(&self, name: &str) -> (r: Option<ClusterNode>)
        ensures
            match r {
                Some(n) => match n {
                    ClusterNode::Real(rn) => first_real_index(self.real_nodes@, name@, 0)
                        matches Some(i) && rn == self.real_nodes@[i as int],
                    ClusterNode::Mock(mn) => first_real_index(self.real_nodes@, name@, 0) is None
                        && (first_mock_index(self.mock_nodes@, name@, 0) matches Some(i)
                        && mock_eq(mn, self.mock_nodes@[i as int])),
                },
                None => first_real_index(self.real_nodes@, name@, 0) is None && first_mock_index(
                    self.mock_nodes@,
                    name@,
                    0,
                ) is None,
            },
    {
        match find_real(&self.real_nodes, name, 0) {
            Some(i) => Some(ClusterNode::Real(dup_real(&self.real_nodes[i]))),
            None => match find_mock(&self.mock_nodes, name, 0) {
                Some(i) => Some(ClusterNode::Mock(dup_mock(&self.mock_nodes[i]))),
                None => None,
            },
        }
    }
}

/// The nonempty lines of `s` from index `i` on: what a container-runtime
/// listing names, one id per line.
pub open spec fn spec_nonempty_lines(s: Seq<char>, i: nat) -> Seq<Seq<char>>
    decreases s.len() - i,
{
    if i >= s.len() {
        Seq::empty()
    } else {
        match find_from(s, seq!['\n'], i) {
            None => seq![s.subrange(i as int, s.len() as int)],
            Some(k) => {
                let head: Seq<Seq<char>> = if k == i {
                    Seq::empty()
                } else {
                    seq![s.subrange(i as int, k as int)]
                };
                if i <= k && k < s.len() {
                    head + spec_nonempty_lines(s, (k + 1) as nat)
                } else {
                    head
                }
            },
        }
    }
}

fn parse_lines_chars(s: &Vec<char>, from: usize) -> (r: Vec<String>)
    requires
        from <= s@.len(),
    ensures
        r@.map_values(|t: String| t@) == spec_nonempty_lines(s@, from as nat),
    decreases s@.len() - from,
{
    let mut newline: Vec<char> = Vec::new();
    newline.push('\n');
    proof {
        assert(newline@ =~= seq!['\n']);
    }
    if from >= s.len() {
        let r: Vec<String> = Vec::new();
        proof {
            assert(r@.map_values(|t: String| t@) =~= spec_nonempty_lines(s@, from as nat));
        }
        return r;
    }
    match find_key(s, &newline, from) {
        None => {
            let line = sub_chars(s, from, s.len());
            let mut r: Vec<String> = Vec::new();
            r.push(string_of(&line));
            proof {
                assert(r@.map_values(|t: String| t@) =~= seq![
                    s@.subrange(from as int, s@.len() as int),
                ]);
            }
            r
        },
        Some(k) => {
            proof {
                crate::text::lemma_find_from_in_bounds(s@, newline@, from as nat);
            }
            let mut r: Vec<String> = Vec::new();
            if k > from {
                let head = sub_chars(s, from, k);
                r.push(string_of(&head));
            }
            let rest = parse_lines_chars(s, k + 1);
            let ghost r_head = r@;
            let mut j: usize = 0;
            while j < rest.len()
                invariant
                    j <= rest@.len(),
                    r@ =~= r_head + rest@.subrange(0, j as int),
                decreases rest@.len() - j,
            {
                let item = rest[j].clone();
                r.push(item);
                j = j + 1;
            }
            proof {
                assert(r@ =~= r_head + rest@);
                assert(r@.map_values(|t: String| t@) =~= spec_nonempty_lines(s@, from as nat)) by {
                    let f = |t: String| t@;
                    assert(forall|x: int|
                        0 <= x < r@.len() ==> #[trigger] r@.map_values(f)[x] == r@[x]@);
                    assert(forall|x: int|
                        0 <= x < rest@.len() ==> #[trigger] rest@.map_values(f)[x] == rest@[x]@);
                }
            }
            r
        },
    }
}

/// Splits a container-runtime listing into the ids it names: the nonempty
/// lines, in order.
pub fn parse_container_ids(output: &str) -> (r: Vec<String>)
    ensures
        r@.map_values(|t: String| t@) == spec_nonempty_lines(output@, 0),
{
    let chars = chars_of(output);
    parse_lines_chars(&chars, 0)
}

/// Whether a network listing mentions the integration network.
pub fn network_listed(output: &str) -> (r: bool)
    ensures
        r == contains_seq(output@, "integration_net"@),
{
    let chars = chars_of(output);
    let key = chars_of("integration_net");
    find_key(&chars, &key, 0).is_some()
}

} // verus!
