use vstd::prelude::*;
use crate::fleet::Node;
use crate::shell::views;

verus! {

/// The well-known path of the manifest on every node.
pub open spec fn manifest_path_spec() -> Seq<char> {
    seq!['h', 'o', 's', 't', 's']
}

/// One manifest entry: an address followed by the fixed port.
pub open spec fn endpoint(addr: Seq<char>) -> Seq<char> {
    addr + seq![':', '1', '2', '3', '4']
}

/// Lines joined with `'\n'` between them, no trailing newline.
pub open spec fn join_lines(lines: Seq<Seq<char>>) -> Seq<char>
    decreases lines.len(),
{
    if lines.len() == 0 {
        Seq::empty()
    } else if lines.len() == 1 {
        lines[0]
    } else {
        join_lines(lines.drop_last()) + seq!['\n'] + lines.last()
    }
}

/// The private addresses of a fleet, in partition order.
pub open spec fn addresses(nodes: Seq<Node>) -> Seq<Seq<char>> {
    nodes.map_values(|n: Node| n.private_ip@)
}

/// The manifest's lines: one endpoint per address, in the same order.
pub open spec fn manifest_lines(addrs: Seq<Seq<char>>) -> Seq<Seq<char>> {
    addrs.map_values(|a: Seq<char>| endpoint(a))
}

/// The manifest text: one `address:port` line per node, in fleet order.
pub open spec fn manifest_spec(addrs: Seq<Seq<char>>) -> Seq<char> {
    join_lines(manifest_lines(addrs))
}

/// How often `c` occurs in `s`.
pub open spec fn count_char(s: Seq<char>, c: char) -> nat
    decreases s.len(),
{
    if s.len() == 0 {
        0
    } else {
        count_char(s.drop_last(), c) + if s.last() == c { 1nat } else { 0nat }
    }
}

/// The contents written to one node.
pub struct ManifestWrite {
    pub partition: usize,
    pub path: String,
    pub contents: String,
}

/// Builds the manifest text for a fleet (see `manifest_spec`).
pub fn manifest_text(nodes: &Vec<Node>) -> (r: String)
    ensures
        r@ == manifest_spec(addresses(nodes@)),
{
    let ghost lines = manifest_lines(addresses(nodes@));
    let mut r = String::new();
    let mut i: usize = 0;
    while i < nodes.len()
        invariant
            i <= nodes.len(),
            lines == manifest_lines(addresses(nodes@)),
            lines.len() == nodes.len(),
            r@ == join_lines(lines.subrange(0, i as int)),
        decreases nodes.len() - i,
    {
        let ghost prev = r@;
        proof {
            reveal_strlit(":1234");
            reveal_strlit("\n");
        }
        if i > 0 {
            r.append("\n");
        }
        r.append(nodes[i].private_ip.as_str());
        r.append(":1234");
        proof {
            let sub = lines.subrange(0, i + 1);
            assert(sub.drop_last() =~= lines.subrange(0, i as int));
            assert(lines[i as int] == endpoint(nodes[i as int].private_ip@));
            assert(":1234"@ =~= seq![':', '1', '2', '3', '4']);
            if i == 0 {
                assert(r@ =~= sub[0]);
            } else {
                assert(r@ =~= prev + seq!['\n'] + sub.last());
            }
        }
        i = i + 1;
    }
    assert(lines.subrange(0, nodes.len() as int) =~= lines);
    r
}

/// Plans the distribution of the manifest: one write per node, in partition
/// order, each of the same text to the same well-known path.
pub fn distribution_plan(nodes: &Vec<Node>) -> (r: Vec<ManifestWrite>)
    ensures
        r.len() == nodes.len(),
        forall|i: int|
            0 <= i < r.len() ==> {
                &&& (#[trigger] r[i]).partition == nodes[i].partition
                &&& r[i].path@ == manifest_path_spec()
                &&& r[i].contents@ == manifest_spec(addresses(nodes@))
            },
{
    let text = manifest_text(nodes);
    let mut r: Vec<ManifestWrite> = Vec::new();
    let mut i: usize = 0;
    while i < nodes.len()
        invariant
            i <= nodes.len(),
            r.len() == i,
            text@ == manifest_spec(addresses(nodes@)),
            forall|k: int|
                0 <= k < r.len() ==> {
                    &&& (#[trigger] r[k]).partition == nodes[k].partition
                    &&& r[k].path@ == manifest_path_spec()
                    &&& r[k].contents@ == manifest_spec(addresses(nodes@))
                },
        decreases nodes.len() - i,
    {
        proof {
            reveal_strlit("hosts");
        }
        let path = String::from_str("hosts");
        assert(path@ =~= manifest_path_spec());
        r.push(ManifestWrite { partition: nodes[i].partition, path, contents: text.clone() });
        i = i + 1;
    }
    r
}

/// The command that stores one planned write on its node: `printf %s` of the
/// contents, redirected into the path.
pub fn write_argv(w: &ManifestWrite) -> (r: Vec<String>)
    ensures
        views(r@) == seq!["printf"@, "%s"@, w.contents@, ">"@, w.path@],
{
    let mut r: Vec<String> = Vec::new();
    r.push(String::from_str("printf"));
    r.push(String::from_str("%s"));
    r.push(w.contents.clone());
    r.push(String::from_str(">"));
    r.push(w.path.clone());
    assert(views(r@) =~= seq!["printf"@, "%s"@, w.contents@, ">"@, w.path@]);
    r
}

proof fn lemma_endpoint_one_line(a: Seq<char>)
    ensures
        count_char(endpoint(a), '\n') == count_char(a, '\n'),
{
    let port = seq![':', '1', '2', '3', '4'];
    lemma_count_concat(a, port, '\n');
    assert(port.drop_last() =~= seq![':', '1', '2', '3']);
    assert(port.drop_last().drop_last() =~= seq![':', '1', '2']);
    assert(port.drop_last().drop_last().drop_last() =~= seq![':', '1']);
    assert(port.drop_last().drop_last().drop_last().drop_last() =~= seq![':']);
    assert(seq![':'].drop_last() =~= Seq::<char>::empty());
    reveal_with_fuel(count_char, 6);
}

proof fn lemma_count_concat(s: Seq<char>, t: Seq<char>, c: char)
    ensures
        count_char(s + t, c) == count_char(s, c) + count_char(t, c),
    decreases t.len(),
{
    if t.len() > 0 {
        assert((s + t).drop_last() =~= s + t.drop_last());
        lemma_count_concat(s, t.drop_last(), c);
    }
}

proof fn lemma_join_line_count(lines: Seq<Seq<char>>)
    requires
        lines.len() >= 1,
        forall|i: int| 0 <= i < lines.len() ==> count_char(#[trigger] lines[i], '\n') == 0,
    ensures
        count_char(join_lines(lines), '\n') + 1 == lines.len(),
    decreases lines.len(),
{
    if lines.len() > 1 {
        let init = lines.drop_last();
        assert forall|i: int| 0 <= i < init.len() implies count_char(#[trigger] init[i], '\n')
            == 0 by {
            assert(init[i] == lines[i]);
        }
        assert(count_char(lines[lines.len() - 1], '\n') == 0);
        assert(seq!['\n'].drop_last() =~= Seq::<char>::empty());
        assert(count_char(seq!['\n'], '\n') == 1) by {
            reveal_with_fuel(count_char, 2);
        }
        lemma_join_line_count(init);
        lemma_count_concat(join_lines(init), seq!['\n'], '\n');
        lemma_count_concat(join_lines(init) + seq!['\n'], lines.last(), '\n');
        assert(seq!['\n'].drop_last() =~= Seq::<char>::empty());
    }
}

/// The manifest of a fleet of N ≥ 1 nodes whose addresses hold no newline is
/// exactly N lines: the i-th line is the i-th node's endpoint, and the text
/// is one `'\n'` short of N.
pub proof fn lemma_manifest_lines(addrs: Seq<Seq<char>>)
    requires
        addrs.len() >= 1,
        forall|i: int| 0 <= i < addrs.len() ==> count_char(#[trigger] addrs[i], '\n') == 0,
    ensures
        count_char(manifest_spec(addrs), '\n') + 1 == addrs.len(),
        manifest_spec(addrs) == join_lines(manifest_lines(addrs)),
        manifest_lines(addrs).len() == addrs.len(),
        forall|i: int|
            0 <= i < addrs.len() ==> #[trigger] manifest_lines(addrs)[i] == endpoint(addrs[i]),
{
    let lines = manifest_lines(addrs);
    assert forall|i: int| 0 <= i < lines.len() implies count_char(#[trigger] lines[i], '\n')
        == 0 by {
        lemma_endpoint_one_line(addrs[i]);
    }
    lemma_join_line_count(lines);
}

} // verus!
