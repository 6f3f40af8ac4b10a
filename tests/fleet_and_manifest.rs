use eintopf_sweep::fleet::{assign_partitions, bootstrap_steps, first_failure, Node};
use eintopf_sweep::manifest::{distribution_plan, manifest_text, write_argv};
use eintopf_sweep::shell::assemble;
use std::collections::BTreeSet;

fn hosts(n: usize) -> Vec<(String, String)> {
    (0..n)
        .map(|i| (format!("10.0.0.{}", i + 1), format!("host{}.example", i)))
        .collect()
}

fn fleet(n: usize) -> Vec<Node> {
    assign_partitions(hosts(n))
}

#[test]
fn partitions_are_contiguous_and_unique() {
    for n in [1usize, 2, 5, 17] {
        let nodes = fleet(n);
        assert_eq!(nodes.len(), n);
        let set: BTreeSet<usize> = nodes.iter().map(|x| x.partition).collect();
        assert_eq!(set.len(), n);
        assert_eq!(set, (0..n).collect::<BTreeSet<usize>>());
    }
}

#[test]
fn partitions_follow_backend_order() {
    let nodes = fleet(3);
    for (i, node) in nodes.iter().enumerate() {
        assert_eq!(node.partition, i);
        assert_eq!(node.private_ip, format!("10.0.0.{}", i + 1));
        assert_eq!(node.public_dns, format!("host{}.example", i));
    }
}

#[test]
fn empty_fleet_has_no_nodes() {
    assert!(fleet(0).is_empty());
}

#[test]
fn manifest_has_one_line_per_node_in_order() {
    let nodes = fleet(3);
    let text = manifest_text(&nodes);
    assert_eq!(text, "10.0.0.1:1234\n10.0.0.2:1234\n10.0.0.3:1234");
    let lines: Vec<&str> = text.split('\n').collect();
    assert_eq!(lines.len(), 3);
}

#[test]
fn manifest_of_single_node() {
    assert_eq!(manifest_text(&fleet(1)), "10.0.0.1:1234");
}

#[test]
fn manifest_of_empty_fleet_is_empty() {
    assert_eq!(manifest_text(&fleet(0)), "");
}

#[test]
fn every_node_gets_the_same_manifest() {
    let nodes = fleet(4);
    let plan = distribution_plan(&nodes);
    assert_eq!(plan.len(), 4);
    let text = manifest_text(&nodes);
    for (i, w) in plan.iter().enumerate() {
        assert_eq!(w.partition, i);
        assert_eq!(w.path, "hosts");
        assert_eq!(w.contents, text);
    }
}

#[test]
fn one_failure_fails_the_batch() {
    let all_ok: Vec<Result<String, String>> = vec![Ok("a".into()), Ok("b".into())];
    assert_eq!(first_failure(&all_ok), None);
    let mixed: Vec<Result<String, String>> = vec![
        Ok("a".into()),
        Err("no disk".into()),
        Err("later".into()),
    ];
    assert_eq!(first_failure(&mixed), Some((1, "no disk".to_string())));
    assert_eq!(first_failure(&Vec::new()), None);
}

#[test]
fn bootstrap_resets_pulls_and_builds() {
    let steps = bootstrap_steps();
    assert_eq!(
        steps,
        vec![
            vec!["git", "-C", "eintopf", "reset", "--hard", "2>&1"],
            vec!["git", "-C", "eintopf", "pull", "2>&1"],
            vec!["cd", "eintopf", "&&", "cargo", "b", "--release"],
        ]
    );
}

#[test]
fn manifest_write_command_redirects_into_path() {
    let plan = distribution_plan(&fleet(2));
    let argv = write_argv(&plan[0]);
    assert_eq!(argv, vec!["printf", "%s", "10.0.0.1:1234\n10.0.0.2:1234", ">", "hosts"]);
    assert_eq!(assemble(&argv), "printf \\%s 10.0.0.1:1234'\n'10.0.0.2:1234 > hosts");
}
