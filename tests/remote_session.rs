use eintopf_sweep::shell::{assemble, classify_exit, control_token, shell_invocation};

fn argv(words: &[&str]) -> Vec<String> {
    words.iter().map(|w| w.to_string()).collect()
}

#[test]
fn control_token_passes_and_spaced_argument_stays_one_word() {
    let line = assemble(&argv(&["echo", "a b", "&&", "echo", "c"]));
    assert_eq!(line, "echo a\\ b && echo c");
}

#[test]
fn redirections_pass_unescaped() {
    assert_eq!(assemble(&argv(&["cat", ">", "hosts"])), "cat > hosts");
    assert_eq!(assemble(&argv(&["git", "pull", "2>&1"])), "git pull 2>&1");
    assert_eq!(assemble(&argv(&["a", "2>", "e", "<", "i", "|", "b"])), "a 2> e < i | b");
}

#[test]
fn quote_and_newline_are_escaped() {
    assert_eq!(assemble(&argv(&["special's.txt"])), "special\\'s.txt");
    assert_eq!(assemble(&argv(&["a\nb"])), "a'\n'b");
    assert_eq!(assemble(&argv(&["&&&"])), "\\&\\&\\&");
}

#[test]
fn empty_argument_becomes_empty_quotes() {
    assert_eq!(assemble(&argv(&["echo", ""])), "echo ''");
}

#[test]
fn empty_argv_gives_empty_line() {
    assert_eq!(assemble(&argv(&[])), "");
}

#[test]
fn invocation_wraps_line_for_bash() {
    assert_eq!(shell_invocation(&argv(&["echo", "hi"])), "bash -c echo\\ hi");
    assert_eq!(
        shell_invocation(&argv(&["cd", "x", "&&", "ls"])),
        "bash -c cd\\ x\\ \\&\\&\\ ls"
    );
}

#[test]
fn control_tokens_are_recognised() {
    for t in ["&&", "<", ">", "2>", "2>&1", "|"] {
        assert!(control_token(t));
    }
    for t in ["&", "||", "2>&", ">>", "", "echo"] {
        assert!(!control_token(t));
    }
}

#[test]
fn exit_status_decides_outcome() {
    assert_eq!(
        classify_exit(0, "out".to_string(), "err".to_string()),
        Ok("out".to_string())
    );
    assert_eq!(
        classify_exit(1, "out".to_string(), "err".to_string()),
        Err("err".to_string())
    );
    assert_eq!(
        classify_exit(-1, String::new(), "x".to_string()),
        Err("x".to_string())
    );
}
