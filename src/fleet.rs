use vstd::prelude::*;
use crate::shell::views;

verus! {

/// One provisioned machine: its addresses and its partition index.
pub struct Node {
    pub private_ip: String,
    pub public_dns: String,
    pub partition: usize,
}

/// The partition indices of a fleet, in fleet order.
pub open spec fn partitions_of(nodes: Seq<Node>) -> Seq<int> {
    nodes.map_values(|n: Node| n.partition as int)
}

/// Each node's partition index is its position in the fleet.
pub open spec fn indexed_by_position(nodes: Seq<Node>) -> bool {
    forall|i: int| 0 <= i < nodes.len() ==> (#[trigger] nodes[i]).partition == i
}

/// Builds the fleet from the machines in the order the backend returned them,
/// each given as `(private address, public name)`; partition indices follow
/// that order, starting at 0.
pub fn assign_partitions(hosts: Vec<(String, String)>) -> (r: Vec<Node>)
    ensures
        r.len() == hosts.len(),
        indexed_by_position(r@),
        forall|i: int|
            0 <= i < r.len() ==> (#[trigger] r[i]).private_ip@ == hosts[i].0@
                && r[i].public_dns@ == hosts[i].1@,
{
    let n = hosts.len();
    let mut hosts = hosts;
    let ghost orig = hosts@;
    let mut rev: Vec<Node> = Vec::new();
    while hosts.len() > 0
        invariant
            hosts@ == orig.subrange(0, n - rev.len()),
            hosts.len() + rev.len() == n,
            n == orig.len(),
            forall|k: int|
                0 <= k < rev.len() ==> {
                    let i = n - 1 - k;
                    &&& (#[trigger] rev[k]).partition == i
                    &&& rev[k].private_ip@ == orig[i].0@
                    &&& rev[k].public_dns@ == orig[i].1@
                },
        decreases hosts.len(),
    {
        let (private_ip, public_dns) = hosts.pop().unwrap();
        let partition = hosts.len();
        rev.push(Node { private_ip, public_dns, partition });
    }
    let mut r: Vec<Node> = Vec::new();
    while rev.len() > 0
        invariant
            rev.len() + r.len() == n,
            n == orig.len(),
            forall|k: int|
                0 <= k < rev.len() ==> {
                    let i = n - 1 - k;
                    &&& (#[trigger] rev[k]).partition == i
                    &&& rev[k].private_ip@ == orig[i].0@
                    &&& rev[k].public_dns@ == orig[i].1@
                },
            forall|i: int|
                0 <= i < r.len() ==> {
                    &&& (#[trigger] r[i]).partition == i
                    &&& r[i].private_ip@ == orig[i].0@
                    &&& r[i].public_dns@ == orig[i].1@
                },
        decreases rev.len(),
    {
        let node = rev.pop().unwrap();
        r.push(node);
    }
    r
}

/// Partition indices of a fleet built by `assign_partitions` are exactly
/// `0, 1, ..., N - 1`, each once.
pub proof fn lemma_partitions_contiguous(nodes: Seq<Node>)
    requires
        indexed_by_position(nodes),
    ensures
        partitions_of(nodes).to_set() == Set::new(|k: int| 0 <= k < nodes.len()),
        partitions_of(nodes).no_duplicates(),
{
    let p = partitions_of(nodes);
    assert forall|k: int| #[trigger] p.to_set().contains(k) <==> 0 <= k < nodes.len() by {
        if 0 <= k < nodes.len() {
            assert(nodes[k].partition == k);
            assert(p[k] == k);
        }
        if p.to_set().contains(k) {
            let i = choose|i: int| 0 <= i < p.len() && p[i] == k;
            assert(nodes[i].partition == i);
        }
    }
    assert(p.to_set() =~= Set::new(|k: int| 0 <= k < nodes.len()));
    assert forall|i: int, j: int| 0 <= i < p.len() && 0 <= j < p.len() && i != j implies p[i]
        != p[j] by {
        assert(nodes[i].partition == i);
        assert(nodes[j].partition == j);
    }
}

/// The first failure among per-node or per-step outcomes, with its position;
/// `None` when every outcome succeeded. A fleet is usable only when this is
/// `None`: one failure fails the whole batch.
pub fn first_failure(outcomes: &Vec<Result<String, String>>) -> (r: Option<(usize, String)>)
    ensures
        r is None <==> forall|i: int| 0 <= i < outcomes.len() ==> (#[trigger] outcomes[i]) is Ok,
        r matches Some((k, e)) ==> {
            &&& k < outcomes.len()
            &&& outcomes[k as int] matches Err(f) && f@ == e@
            &&& forall|i: int| 0 <= i < k ==> (#[trigger] outcomes[i]) is Ok
        },
{
    let mut i: usize = 0;
    while i < outcomes.len()
        invariant
            i <= outcomes.len(),
            forall|j: int| 0 <= j < i ==> (#[trigger] outcomes[j]) is Ok,
        decreases outcomes.len() - i,
    {
        match &outcomes[i] {
            Ok(_) => {},
            Err(e) => {
                return Some((i, e.clone()));
            },
        }
        i = i + 1;
    }
    None
}

/// The bootstrap steps run on every new machine, in order: discard local
/// changes to the checkout, pull the latest sources, build in release mode.
pub open spec fn bootstrap_steps_spec() -> Seq<Seq<Seq<char>>> {
    seq![
        seq!["git"@, "-C"@, "eintopf"@, "reset"@, "--hard"@, "2>&1"@],
        seq!["git"@, "-C"@, "eintopf"@, "pull"@, "2>&1"@],
        seq!["cd"@, "eintopf"@, "&&"@, "cargo"@, "b"@, "--release"@],
    ]
}

/// The bootstrap steps as argument vectors (see `bootstrap_steps_spec`).
pub fn bootstrap_steps() -> (r: Vec<Vec<String>>)
    ensures
        r@.map_values(|v: Vec<String>| views(v@)) == bootstrap_steps_spec(),
{
    let mut reset: Vec<String> = Vec::new();
    reset.push(String::from_str("git"));
    reset.push(String::from_str("-C"));
    reset.push(String::from_str("eintopf"));
    reset.push(String::from_str("reset"));
    reset.push(String::from_str("--hard"));
    reset.push(String::from_str("2>&1"));
    let mut pull: Vec<String> = Vec::new();
    pull.push(String::from_str("git"));
    pull.push(String::from_str("-C"));
    pull.push(String::from_str("eintopf"));
    pull.push(String::from_str("pull"));
    pull.push(String::from_str("2>&1"));
    let mut build: Vec<String> = Vec::new();
    build.push(String::from_str("cd"));
    build.push(String::from_str("eintopf"));
    build.push(String::from_str("&&"));
    build.push(String::from_str("cargo"));
    build.push(String::from_str("b"));
    build.push(String::from_str("--release"));
    let ghost spec = bootstrap_steps_spec();
    assert(views(reset@) =~= spec[0]);
    assert(views(pull@) =~= spec[1]);
    assert(views(build@) =~= spec[2]);
    let mut r: Vec<Vec<String>> = Vec::new();
    r.push(reset);
    r.push(pull);
    r.push(build);
    assert(r@.map_values(|v: Vec<String>| views(v@)) =~= spec);
    r
}

} // verus!
