use vstd::prelude::*;
use crate::decimal::{decimal, render_decimal};
use crate::shell::views;

verus! {

/// Parameters shared by every node of one run.
pub struct RunParams {
    /// How many articles to seed the database with.
    pub articles: usize,
    /// Run duration in seconds.
    pub runtime: usize,
    /// Skewed (Zipf) rather than uniform key distribution.
    pub skewed: bool,
}

/// The `-d` argument of the benchmark for a key distribution.
pub open spec fn distribution_arg(skewed: bool) -> Seq<char> {
    if skewed {
        "zipf:1.08"@
    } else {
        "uniform"@
    }
}

/// The name of a key distribution in output file names.
pub open spec fn distribution_name(skewed: bool) -> Seq<char> {
    if skewed {
        "skewed"@
    } else {
        "uniform"@
    }
}

/// The argument vector that launches the benchmark on the node with the given
/// partition index.
pub open spec fn benchmark_argv_spec(p: RunParams, partition: nat) -> Seq<Seq<char>> {
    seq![
        "env"@,
        "RUST_BACKTRACE=1"@,
        "eintopf/target/release/eintopf"@,
        "--workers"@,
        "12"@,
        "-a"@,
        decimal(p.articles as nat),
        "-r"@,
        decimal(p.runtime as nat),
        "-d"@,
        distribution_arg(p.skewed),
        "-h"@,
        "hosts"@,
        "-p"@,
        decimal(partition),
    ]
}

/// The output file name of a run: `eintopf-12s.<distribution>.<fleet size>h.log`.
pub open spec fn artifact_name_spec(skewed: bool, fleet_size: nat) -> Seq<char> {
    "eintopf-12s."@ + distribution_name(skewed) + "."@ + decimal(fleet_size) + "h.log"@
}

/// Builds the benchmark command for one node (see `benchmark_argv_spec`).
pub fn benchmark_argv(params: &RunParams, partition: usize) -> (r: Vec<String>)
    ensures
        views(r@) == benchmark_argv_spec(*params, partition as nat),
{
    let mut r: Vec<String> = Vec::new();
    r.push(String::from_str("env"));
    r.push(String::from_str("RUST_BACKTRACE=1"));
    r.push(String::from_str("eintopf/target/release/eintopf"));
    r.push(String::from_str("--workers"));
    r.push(String::from_str("12"));
    r.push(String::from_str("-a"));
    r.push(render_decimal(params.articles as u64));
    r.push(String::from_str("-r"));
    r.push(render_decimal(params.runtime as u64));
    r.push(String::from_str("-d"));
    if params.skewed {
        r.push(String::from_str("zipf:1.08"));
    } else {
        r.push(String::from_str("uniform"));
    }
    r.push(String::from_str("-h"));
    r.push(String::from_str("hosts"));
    r.push(String::from_str("-p"));
    r.push(render_decimal(partition as u64));
    assert(views(r@) =~= benchmark_argv_spec(*params, partition as nat));
    r
}

/// Names the output file of a run (see `artifact_name_spec`).
pub fn artifact_name(skewed: bool, fleet_size: u32) -> (r: String)
    ensures
        r@ == artifact_name_spec(skewed, fleet_size as nat),
{
    let r = String::from_str("eintopf-12s.");
    let r = if skewed {
        r.concat("skewed")
    } else {
        r.concat("uniform")
    };
    let r = r.concat(".");
    let n = render_decimal(fleet_size as u64);
    let r = r.concat(n.as_str());
    r.concat("h.log")
}

/// What one node's benchmark process left behind.
pub struct RunResult {
    pub partition: usize,
    pub stdout: String,
    pub stderr: String,
    pub exit_status: i32,
}

/// Some result carries partition index `k`.
pub open spec fn has_partition(rs: Seq<RunResult>, k: int) -> bool {
    exists|j: int| 0 <= j < rs.len() && #[trigger] rs[j].partition == k
}

/// A complete fan-in: every partition index `0..N` occurs, each once, and no
/// other occurs, where N is the number of results.
pub open spec fn valid_fan_in(rs: Seq<RunResult>) -> bool {
    &&& forall|i: int| 0 <= i < rs.len() ==> (#[trigger] rs[i]).partition < rs.len()
    &&& forall|k: int| 0 <= k < rs.len() ==> #[trigger] has_partition(rs, k)
    &&& forall|i: int, j: int|
        0 <= i < rs.len() && 0 <= j < rs.len() && (#[trigger] rs[i]).partition == (
        #[trigger] rs[j]).partition ==> i == j
}

/// The results re-ordered by partition index, whatever order they arrived in.
pub open spec fn ordered(rs: Seq<RunResult>) -> Seq<RunResult> {
    Seq::new(
        rs.len(),
        |k: int| rs[choose|j: int| 0 <= j < rs.len() && #[trigger] rs[j].partition == k],
    )
}

/// What a node adds to the output file: its stdout when it exited with 0,
/// nothing otherwise.
pub open spec fn contribution(r: RunResult) -> Seq<char> {
    if r.exit_status == 0 {
        r.stdout@
    } else {
        Seq::empty()
    }
}

/// The contributions of a sequence of results, concatenated in order.
pub open spec fn concat_contributions(rs: Seq<RunResult>) -> Seq<char>
    decreases rs.len(),
{
    if rs.len() == 0 {
        Seq::empty()
    } else {
        concat_contributions(rs.drop_last()) + contribution(rs.last())
    }
}

/// The output file of a run: successful nodes' stdout in partition order.
pub open spec fn artifact_spec(rs: Seq<RunResult>) -> Seq<char> {
    concat_contributions(ordered(rs))
}

proof fn lemma_ordered_at(rs: Seq<RunResult>, k: int, j: int)
    requires
        valid_fan_in(rs),
        0 <= j < rs.len(),
        rs[j].partition == k,
    ensures
        0 <= k < rs.len(),
        ordered(rs)[k] == rs[j],
{
    let c = choose|c: int| 0 <= c < rs.len() && #[trigger] rs[c].partition == k;
    assert(exists|c: int| 0 <= c < rs.len() && #[trigger] rs[c].partition == k);
    assert(rs[c].partition == rs[j].partition);
}

/// Finds, for each partition index in turn, the position of its result;
/// `None` when the results are not a complete fan-in.
pub fn fan_in_order(results: &Vec<RunResult>) -> (r: Option<Vec<usize>>)
    ensures
        r is Some <==> valid_fan_in(results@),
        r matches Some(o) ==> {
            &&& o.len() == results.len()
            &&& forall|k: int|
                0 <= k < o.len() ==> (#[trigger] o[k]) < results.len() && results[o[k] as int].partition
                    == k
        },
{
    let n = results.len();
    let mut i: usize = 0;
    while i < n
        invariant
            i <= n,
            n == results.len(),
            forall|a: int| 0 <= a < i ==> (#[trigger] results[a]).partition < n,
            forall|a: int, b: int|
                0 <= a < i && 0 <= b < n && (#[trigger] results[a]).partition == (
                #[trigger] results[b]).partition ==> a == b,
        decreases n - i,
    {
        if results[i].partition >= n {
            return None;
        }
        let mut j: usize = 0;
        while j < n
            invariant
                i < n,
                j <= n,
                n == results.len(),
                forall|b: int|
                    0 <= b < j && (#[trigger] results[b]).partition == results[i as int].partition
                        ==> b == i,
            decreases n - j,
        {
            if j != i && results[j].partition == results[i].partition {
                return None;
            }
            j = j + 1;
        }
        i = i + 1;
    }
    let mut o: Vec<usize> = Vec::new();
    let mut k: usize = 0;
    while k < n
        invariant
            k <= n,
            n == results.len(),
            o.len() == k,
            forall|a: int| 0 <= a < k ==> (#[trigger] o[a]) < n && results[o[a] as int].partition == a,
        decreases n - k,
    {
        let mut j: usize = 0;
        while j < n && results[j].partition != k
            invariant
                j <= n,
                k < n,
                n == results.len(),
                forall|b: int| 0 <= b < j ==> (#[trigger] results[b]).partition != k,
            decreases n - j,
        {
            j = j + 1;
        }
        if j == n {
            assert(!has_partition(results@, k as int));
            return None;
        }
        o.push(j);
        k = k + 1;
    }
    assert forall|kk: int| 0 <= kk < n implies #[trigger] has_partition(results@, kk) by {
        assert(results@[o[kk] as int].partition == kk);
    }
    Some(o)
}

/// Builds the output file of a run from its results, in whatever order they
/// arrived; `None` when the results are not a complete fan-in.
pub fn collect_artifact(results: &Vec<RunResult>) -> (r: Option<String>)
    ensures
        r is Some <==> valid_fan_in(results@),
        r matches Some(s) ==> s@ == artifact_spec(results@),
{
    let order = match fan_in_order(results) {
        Some(o) => o,
        None => {
            return None;
        },
    };
    let ghost sorted = ordered(results@);
    let mut out = String::new();
    let mut k: usize = 0;
    while k < order.len()
        invariant
            k <= order.len(),
            order.len() == results.len(),
            valid_fan_in(results@),
            sorted == ordered(results@),
            forall|a: int|
                0 <= a < order.len() ==> (#[trigger] order[a]) < results.len() && results[order[
                    a] as int].partition == a,
            out@ == concat_contributions(sorted.subrange(0, k as int)),
        decreases order.len() - k,
    {
        let j = order[k];
        proof {
            lemma_ordered_at(results@, k as int, j as int);
            assert(sorted.subrange(0, k + 1).drop_last() =~= sorted.subrange(0, k as int));
        }
        if results[j].exit_status == 0 {
            out.append(results[j].stdout.as_str());
        }
        proof {
            let sub = sorted.subrange(0, k + 1);
            assert(sub.last() == results[j as int]);
            assert(out@ =~= concat_contributions(sub));
        }
        k = k + 1;
    }
    assert(sorted.subrange(0, order.len() as int) =~= sorted);
    Some(out)
}

/// In the output file, results stand in partition order whatever order they
/// arrived in: two arrival orders of the same complete fan-in give the same
/// re-ordered sequence, whose k-th entry has partition index k, and so the
/// same output file.
pub proof fn lemma_artifact_ignores_arrival_order(early: Seq<RunResult>, late: Seq<RunResult>)
    requires
        valid_fan_in(early),
        valid_fan_in(late),
        late.len() == early.len(),
        forall|i: int| 0 <= i < late.len() ==> early.contains(#[trigger] late[i]),
    ensures
        ordered(late) == ordered(early),
        forall|k: int| 0 <= k < early.len() ==> (#[trigger] ordered(early)[k]).partition == k,
        artifact_spec(late) == artifact_spec(early),
{
    assert forall|k: int| 0 <= k < early.len() implies (#[trigger] ordered(late)[k]) == ordered(early)[k] && ordered(early)[k].partition == k by {
        assert(has_partition(late, k));
        let i = choose|i: int| 0 <= i < late.len() && #[trigger] late[i].partition == k;
        lemma_ordered_at(late, k, i);
        assert(early.contains(late[i]));
        let j = choose|j: int| 0 <= j < early.len() && early[j] == late[i];
        lemma_ordered_at(early, k, j);
    }
    assert(ordered(late) =~= ordered(early));
}

proof fn lemma_contribution_inside(rs: Seq<RunResult>, k: int)
    requires
        0 <= k < rs.len(),
    ensures
        exists|off: int|
            0 <= off && off + contribution(rs[k]).len() <= concat_contributions(rs).len()
                && #[trigger] concat_contributions(rs).subrange(off, off + contribution(rs[k]).len())
                == contribution(rs[k]),
    decreases rs.len(),
{
    let all = concat_contributions(rs);
    let init = concat_contributions(rs.drop_last());
    let c = contribution(rs[k]);
    if k == rs.len() - 1 {
        let off = init.len() as int;
        assert(all.subrange(off, off + c.len()) =~= c);
    } else {
        lemma_contribution_inside(rs.drop_last(), k);
        assert(rs.drop_last()[k] == rs[k]);
        let off = choose|off: int|
            0 <= off && off + c.len() <= init.len() && #[trigger] init.subrange(off, off + c.len()) == c;
        assert(all.subrange(off, off + c.len()) =~= init.subrange(off, off + c.len()));
    }
}

/// A node's failure does not keep the others' output out of the output file:
/// every node that exited with 0 has its whole stdout in it, as one
/// contiguous piece.
pub proof fn lemma_successful_output_kept(rs: Seq<RunResult>, j: int)
    requires
        valid_fan_in(rs),
        0 <= j < rs.len(),
        rs[j].exit_status == 0,
    ensures
        exists|off: int|
            0 <= off && off + rs[j].stdout@.len() <= artifact_spec(rs).len()
                && #[trigger] artifact_spec(rs).subrange(off, off + rs[j].stdout@.len())
                == rs[j].stdout@,
{
    let k = rs[j].partition as int;
    lemma_ordered_at(rs, k, j);
    lemma_contribution_inside(ordered(rs), k);
    let c = contribution(ordered(rs)[k]);
    assert(c == rs[j].stdout@);
    let all = concat_contributions(ordered(rs));
    let off = choose|off: int|
        0 <= off && off + c.len() <= all.len() && #[trigger] all.subrange(off, off + c.len()) == c;
    assert(artifact_spec(rs).subrange(off, off + rs[j].stdout@.len()) == rs[j].stdout@);
}

/// Relies on str::trim_end: the text without its trailing whitespace, which
/// depends on the text alone.
#[verifier::external_body]
fn trim_end(s: &str) -> (r: String)
    ensures
        r@ == trimmed_end(s@),
{
    s.trim_end().to_string()
}

/// The text with its trailing whitespace removed.
pub uninterp spec fn trimmed_end(s: Seq<char>) -> Seq<char>;

/// Every newline followed by the continuation marker ` > `.
pub open spec fn indent_continuations(s: Seq<char>) -> Seq<char>
    decreases s.len(),
{
    if s.len() == 0 {
        Seq::empty()
    } else {
        indent_continuations(s.drop_last()) + if s.last() == '\n' {
            seq!['\n', ' ', '>', ' ']
        } else {
            seq![s.last()]
        }
    }
}

/// Relies on str::replace: each newline replaced by a newline and ` > `.
#[verifier::external_body]
fn indent(s: &str) -> (r: String)
    ensures
        r@ == indent_continuations(s@),
{
    s.replace('\n', "\n > ")
}

/// What the operator is told about one node after a run: a failure report
/// with its stderr when it exited with a nonzero status, a warning with its
/// trimmed and indented stderr when it succeeded but wrote to stderr, and
/// nothing otherwise.
pub open spec fn node_report_spec(host: Seq<char>, exit_status: i32, stderr: Seq<char>) -> Option<Seq<char>> {
    if exit_status != 0 {
        Some(host + " failed to run benchmark client:\n"@ + stderr)
    } else if stderr.len() > 0 {
        Some(host + " reported:\n > "@ + indent_continuations(trimmed_end(stderr)))
    } else {
        None
    }
}

/// Builds the operator's report on one node (see `node_report_spec`).
pub fn node_report(host: &str, exit_status: i32, stderr: &str) -> (r: Option<String>)
    ensures
        r is Some <==> node_report_spec(host@, exit_status, stderr@) is Some,
        r matches Some(s) ==> node_report_spec(host@, exit_status, stderr@) == Some(s@),
{
    if exit_status != 0 {
        let r = String::from_str(host).concat(" failed to run benchmark client:\n");
        Some(r.concat(stderr))
    } else if stderr.unicode_len() > 0 {
        let t = trim_end(stderr);
        let body = indent(t.as_str());
        let r = String::from_str(host).concat(" reported:\n > ");
        Some(r.concat(body.as_str()))
    } else {
        None
    }
}

} // verus!
