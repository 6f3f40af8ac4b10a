use vstd::prelude::*;

verus! {

/// Characters that the Bourne shell reads literally inside a word.
pub open spec fn is_plain_char(c: char) -> bool {
    ('A' <= c && c <= 'Z') || ('a' <= c && c <= 'z') || ('0' <= c && c <= '9') || c == '_'
        || c == '-' || c == '.' || c == ',' || c == ':' || c == '/' || c == '@' || c == '\n'
}

/// The escaped form of one character: plain characters stay, a newline is
/// quoted as `'\n'`, anything else gets a backslash.
pub open spec fn escape_char(c: char) -> Seq<char> {
    if c == '\n' {
        seq!['\'', '\n', '\'']
    } else if is_plain_char(c) {
        seq![c]
    } else {
        seq!['\\', c]
    }
}

/// Escaped characters, concatenated.
pub open spec fn escape_chars(s: Seq<char>) -> Seq<char>
    decreases s.len(),
{
    if s.len() == 0 {
        Seq::empty()
    } else {
        escape_chars(s.drop_last()) + escape_char(s.last())
    }
}

/// A string escaped so that the Bourne shell reads it as one word; the empty
/// string becomes `''`.
pub open spec fn escape_word(s: Seq<char>) -> Seq<char> {
    if s.len() == 0 {
        seq!['\'', '\'']
    } else {
        escape_chars(s)
    }
}

/// Relies on shellwords::escape: an empty input gives `''`; otherwise each
/// character outside `[A-Za-z0-9_\-.,:/@\n]` gets a backslash before it, and
/// each newline is replaced by `'\n'`.
#[verifier::external_body]
fn escape(s: &str) -> (r: String)
    ensures
        r@ == escape_word(s@),
{
    shellwords::escape(s)
}

/// The control tokens that pass into a command line unescaped, so that
/// callers can chain commands and redirect streams.
pub open spec fn is_control_token(t: Seq<char>) -> bool {
    t == seq!['&', '&'] || t == seq!['<'] || t == seq!['>'] || t == seq!['2', '>'] || t
        == seq!['2', '>', '&', '1'] || t == seq!['|']
}

/// One argument as it stands in the command line.
pub open spec fn quote_token(t: Seq<char>) -> Seq<char> {
    if is_control_token(t) {
        t
    } else {
        escape_word(t)
    }
}

/// Words joined with single spaces between them.
pub open spec fn join_words(ws: Seq<Seq<char>>) -> Seq<char>
    decreases ws.len(),
{
    if ws.len() == 0 {
        Seq::empty()
    } else if ws.len() == 1 {
        ws[0]
    } else {
        join_words(ws.drop_last()) + seq![' '] + ws.last()
    }
}

/// The command line for an argument vector: every argument quoted (control
/// tokens excepted), joined by spaces.
pub open spec fn command_line(argv: Seq<Seq<char>>) -> Seq<char> {
    join_words(argv.map_values(|t: Seq<char>| quote_token(t)))
}

/// The views of a vector of strings.
pub open spec fn views(v: Seq<String>) -> Seq<Seq<char>> {
    v.map_values(|s: String| s@)
}

fn chars_equal(a: &str, b: &str) -> (r: bool)
    ensures
        r == (a@ == b@),
{
    let n = a.unicode_len();
    if n != b.unicode_len() {
        return false;
    }
    let mut i: usize = 0;
    while i < n
        invariant
            i <= n,
            n == a@.len(),
            n == b@.len(),
            a@.subrange(0, i as int) == b@.subrange(0, i as int),
        decreases n - i,
    {
        if a.get_char(i) != b.get_char(i) {
            return false;
        }
        assert(a@.subrange(0, i + 1) =~= a@.subrange(0, i as int).push(a@[i as int]));
        assert(b@.subrange(0, i + 1) =~= b@.subrange(0, i as int).push(b@[i as int]));
        i = i + 1;
    }
    assert(a@ =~= a@.subrange(0, n as int));
    assert(b@ =~= b@.subrange(0, n as int));
    true
}

/// Whether `t` is one of the control tokens (see `is_control_token`).
pub fn control_token(t: &str) -> (r: bool)
    ensures
        r == is_control_token(t@),
{
    proof {
        reveal_strlit("&&");
        reveal_strlit("<");
        reveal_strlit(">");
        reveal_strlit("2>");
        reveal_strlit("2>&1");
        reveal_strlit("|");
    }
    assert("&&"@ =~= seq!['&', '&']);
    assert("<"@ =~= seq!['<']);
    assert(">"@ =~= seq!['>']);
    assert("2>"@ =~= seq!['2', '>']);
    assert("2>&1"@ =~= seq!['2', '>', '&', '1']);
    assert("|"@ =~= seq!['|']);
    chars_equal(t, "&&") || chars_equal(t, "<") || chars_equal(t, ">") || chars_equal(t, "2>")
        || chars_equal(t, "2>&1") || chars_equal(t, "|")
}

/// Joins an argument vector into one shell command line: control tokens pass
/// through, every other argument is escaped into a single shell word.
pub fn assemble(argv: &Vec<String>) -> (r: String)
    ensures
        r@ == command_line(views(argv@)),
{
    let ghost words = views(argv@).map_values(|t: Seq<char>| quote_token(t));
    let mut r = String::new();
    let mut i: usize = 0;
    while i < argv.len()
        invariant
            i <= argv.len(),
            words == views(argv@).map_values(|t: Seq<char>| quote_token(t)),
            words.len() == argv.len(),
            r@ == join_words(words.subrange(0, i as int)),
        decreases argv.len() - i,
    {
        let ghost prev = r@;
        proof {
            reveal_strlit(" ");
        }
        if i > 0 {
            r.append(" ");
        }
        let t = argv[i].as_str();
        if control_token(t) {
            r.append(t);
        } else {
            let e = escape(t);
            r.append(e.as_str());
        }
        proof {
            let sub = words.subrange(0, i + 1);
            assert(sub.drop_last() =~= words.subrange(0, i as int));
            assert(words[i as int] == quote_token(argv[i as int]@));
            if i == 0 {
                assert(r@ =~= sub[0]);
            } else {
                assert(r@ =~= prev + seq![' '] + sub.last());
            }
        }
        i = i + 1;
    }
    assert(words.subrange(0, argv.len() as int) =~= words);
    r
}

/// The full remote invocation: the assembled line handed as one escaped
/// word to `bash -c`, so that POSIX shell rules apply whatever the login
/// shell of the node.
pub fn shell_invocation(argv: &Vec<String>) -> (r: String)
    ensures
        r@ == seq!['b', 'a', 's', 'h', ' ', '-', 'c', ' '] + escape_word(command_line(views(argv@))),
{
    let line = assemble(argv);
    let e = escape(line.as_str());
    let r = String::from_str("bash -c ");
    proof {
        reveal_strlit("bash -c ");
    }
    assert("bash -c "@ =~= seq!['b', 'a', 's', 'h', ' ', '-', 'c', ' ']);
    r.concat(e.as_str())
}

/// The outcome of a finished remote command: its standard output when the
/// exit status is zero, its standard error otherwise.
pub fn classify_exit(exit_status: i32, stdout: String, stderr: String) -> (r: Result<String, String>)
    ensures
        exit_status == 0 ==> r == Ok::<String, String>(stdout),
        exit_status != 0 ==> r == Err::<String, String>(stderr),
{
    if exit_status == 0 {
        Ok(stdout)
    } else {
        Err(stderr)
    }
}

} // verus!
