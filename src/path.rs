use vstd::prelude::*;

verus! {

/// A character that a POSIX shell takes literally outside quotes, and that
/// neither ends a word nor starts an expansion.
pub open spec fn safe_char(c: char) -> bool {
    ||| 'a' <= c <= 'z'
    ||| 'A' <= c <= 'Z'
    ||| '0' <= c <= '9'
    ||| c == '/' || c == '.' || c == '_' || c == '-' || c == '+'
    ||| c == ',' || c == ':' || c == '@' || c == '%'
}

/// A nonempty text made of safe characters only: it needs no quoting.
pub open spec fn plain_word(p: Seq<char>) -> bool {
    p.len() > 0 && forall|i: int| 0 <= i < p.len() ==> safe_char(#[trigger] p[i])
}

/// How one character is written inside single quotes: a quote closes the
/// quoting, is given escaped, and quoting opens again.
pub open spec fn quote_piece(c: char) -> Seq<char> {
    if c == '\'' {
        seq!['\'', '\\', '\'', '\'']
    } else {
        seq![c]
    }
}

/// `p` with each character written as `quote_piece` gives it.
pub open spec fn escape_quotes(p: Seq<char>) -> Seq<char>
    decreases p.len(),
{
    if p.len() == 0 {
        Seq::empty()
    } else {
        quote_piece(p[0]) + escape_quotes(p.drop_first())
    }
}

/// The form of a script path that a POSIX shell reads back as exactly that
/// path, as one argument: a plain word is kept, anything else is wrapped in
/// single quotes with its own quotes escaped.
pub open spec fn shell_quote(p: Seq<char>) -> Seq<char> {
    if plain_word(p) {
        p
    } else {
        seq!['\''] + escape_quotes(p) + seq!['\'']
    }
}

/// `c` in front of the text in `o`, if there is one.
pub open spec fn prepend(c: char, o: Option<Seq<char>>) -> Option<Seq<char>> {
    match o {
        Some(r) => Some(seq![c] + r),
        None => None,
    }
}

/// `p` in front of the text in `o`, if there is one.
pub open spec fn prepend_all(p: Seq<char>, o: Option<Seq<char>>) -> Option<Seq<char>> {
    match o {
        Some(r) => Some(p + r),
        None => None,
    }
}

/// The text that a POSIX shell makes of `s` when it reads `s` as one word,
/// starting inside single quotes where `quoted` holds. Inside quotes every
/// character is literal up to the closing quote; outside, a quote opens
/// quoting, a backslash gives the next character literally (but for a
/// newline, which the shell drops together with the backslash), and a safe
/// character stands for itself. `None` where the shell would end the word,
/// expand something, or find quoting left open.
pub open spec fn shell_read(s: Seq<char>, quoted: bool) -> Option<Seq<char>>
    decreases s.len(),
{
    if s.len() == 0 {
        if quoted {
            None
        } else {
            Some(Seq::empty())
        }
    } else if quoted {
        if s[0] == '\'' {
            shell_read(s.drop_first(), false)
        } else {
            prepend(s[0], shell_read(s.drop_first(), true))
        }
    } else if s[0] == '\'' {
        shell_read(s.drop_first(), true)
    } else if s[0] == '\\' && s.len() >= 2 && s[1] != '\n' {
        prepend(s[1], shell_read(s.subrange(2, s.len() as int), false))
    } else if safe_char(s[0]) {
        prepend(s[0], shell_read(s.drop_first(), false))
    } else {
        None
    }
}

proof fn lemma_escape_push(p: Seq<char>, c: char)
    ensures
        escape_quotes(p.push(c)) == escape_quotes(p) + quote_piece(c),
    decreases p.len(),
{
    if p.len() == 0 {
        assert(p.push(c).drop_first() =~= Seq::<char>::empty());
        assert(p.push(c)[0] == c);
        assert(escape_quotes(Seq::<char>::empty()) =~= Seq::<char>::empty());
        assert(escape_quotes(p) =~= Seq::<char>::empty());
        assert(escape_quotes(p.push(c)) =~= quote_piece(c) + Seq::<char>::empty());
    } else {
        assert(p.push(c).drop_first() =~= p.drop_first().push(c));
        lemma_escape_push(p.drop_first(), c);
        assert(escape_quotes(p.push(c)) =~= escape_quotes(p) + quote_piece(c));
    }
}

proof fn lemma_plain_reads_back(p: Seq<char>)
    requires
        forall|i: int| 0 <= i < p.len() ==> safe_char(#[trigger] p[i]),
    ensures
        shell_read(p, false) == Some(p),
    decreases p.len(),
{
    if p.len() > 0 {
        assert(safe_char(p[0]));
        assert forall|i: int| 0 <= i < p.drop_first().len() implies safe_char(
            #[trigger] p.drop_first()[i],
        ) by {
            assert(p.drop_first()[i] == p[i + 1]);
        }
        lemma_plain_reads_back(p.drop_first());
        assert(seq![p[0]] + p.drop_first() =~= p);
    }
}

proof fn lemma_escaped_reads_back(p: Seq<char>, rest: Seq<char>)
    ensures
        shell_read(escape_quotes(p) + rest, true) == prepend_all(p, shell_read(rest, true)),
    decreases p.len(),
{
    if p.len() == 0 {
        assert(escape_quotes(p) + rest =~= rest);
        match shell_read(rest, true) {
            Some(r) => assert(p + r =~= r),
            None => {},
        }
    } else {
        let c = p[0];
        let q = p.drop_first();
        let x = escape_quotes(q) + rest;
        lemma_escaped_reads_back(q, rest);
        let s = escape_quotes(p) + rest;
        assert(s =~= quote_piece(c) + x);
        if c == '\'' {
            let s1 = s.drop_first();
            assert(s1 =~= seq!['\\', '\'', '\''] + x);
            let s2 = s1.subrange(2, s1.len() as int);
            assert(s2 =~= seq!['\''] + x);
            assert(s2.drop_first() =~= x);
            assert(shell_read(s2, false) == shell_read(x, true));
            assert(shell_read(s1, false) == prepend('\'', shell_read(x, true)));
            assert(shell_read(s, true) == shell_read(s1, false));
        } else {
            assert(s.drop_first() =~= x);
        }
        match shell_read(rest, true) {
            Some(r) => assert(seq![c] + (q + r) =~= p + r),
            None => {},
        }
    }
}

/// Whatever the path, its shell-quoted form is a nonempty word that a POSIX
/// shell reads back as exactly that path.
pub proof fn lemma_shell_quote_reads_back(p: Seq<char>)
    ensures
        shell_quote(p).len() > 0,
        shell_read(shell_quote(p), false) == Some(p),
{
    if plain_word(p) {
        lemma_plain_reads_back(p);
    } else {
        let s = seq!['\''] + escape_quotes(p) + seq!['\''];
        lemma_escaped_reads_back(p, seq!['\'']);
        assert(s.drop_first() =~= escape_quotes(p) + seq!['\'']);
        assert(seq!['\''].drop_first() =~= Seq::<char>::empty());
        assert(seq!['\''][0] == '\'');
        assert(shell_read(Seq::<char>::empty(), false) == Some(Seq::<char>::empty()));
        assert(shell_read(seq!['\''], true) == Some(Seq::<char>::empty()));
        assert(p + Seq::<char>::empty() =~= p);
    }
}

/// Whether `c` is a safe character.
pub fn is_safe_char(c: char) -> (r: bool)
    ensures
        r == safe_char(c),
{
    ('a' <= c && c <= 'z') || ('A' <= c && c <= 'Z') || ('0' <= c && c <= '9') || c == '/' || c
        == '.' || c == '_' || c == '-' || c == '+' || c == ',' || c == ':' || c == '@' || c == '%'
}

/// Whether `s` can stand in a command line as it is.
pub fn is_plain_word(s: &str) -> (r: bool)
    ensures
        r == plain_word(s@),
{
    let n = s.unicode_len();
    if n == 0 {
        return false;
    }
    let mut i: usize = 0;
    while i < n
        invariant
            n == s@.len(),
            i <= n,
            forall|j: int| 0 <= j < i ==> safe_char(#[trigger] s@[j]),
        decreases n - i,
    {
        if !is_safe_char(s.get_char(i)) {
            return false;
        }
        i = i + 1;
    }
    true
}

/// Makes a script path safe to embed in a POSIX shell command line.
pub fn handle_path_space(path: String) -> (r: String)
    ensures
        r@ == shell_quote(path@),
{
    let s = path.as_str();
    if is_plain_word(s) {
        return path;
    }
    let n = s.unicode_len();
    let mut r = String::from_str("'");
    proof {
        reveal_strlit("'");
    }
    let mut i: usize = 0;
    while i < n
        invariant
            n == s@.len(),
            s@ == path@,
            i <= n,
            r@ == seq!['\''] + escape_quotes(s@.take(i as int)),
        decreases n - i,
    {
        proof {
            assert(s@.take(i as int + 1) == s@.take(i as int).push(s@[i as int]));
            lemma_escape_push(s@.take(i as int), s@[i as int]);
        }
        let c = s.get_char(i);
        if c == '\'' {
            r.append("'\\''");
            proof {
                reveal_strlit("'\\''");
            }
            assert(quote_piece(c) =~= "'\\''"@);
        } else {
            let one = s.substring_char(i, i + 1);
            r.append(one);
            assert(quote_piece(c) =~= one@);
        }
        i = i + 1;
    }
    r.append("'");
    assert(s@.take(n as int) == s@);
    r
}

/// The shell that reads a command line.
#[derive(Clone, Copy, Debug, PartialEq, Eq, Structural)]
pub enum Shell {
    /// `sh -c` on POSIX systems.
    Posix,
    /// `cmd /C` on Windows.
    Cmd,
}

/// A nonempty text that `cmd` passes on as one argument as it is: safe
/// characters other than `%`, and backslashes.
pub open spec fn cmd_plain_word(p: Seq<char>) -> bool {
    p.len() > 0 && forall|i: int|
        0 <= i < p.len() ==> (safe_char(#[trigger] p[i]) && p[i] != '%') || p[i] == '\\'
}

/// The form of a path for a `cmd` command line: a plain word is kept, any
/// other is wrapped in double quotes, so that spaces and `&`, `|`, `<`, `>`,
/// `^` stay inside one argument. A `"` inside is not escaped (Windows file
/// names cannot hold one), and `cmd` still expands `%NAME%` within quotes.
pub open spec fn cmd_quote(p: Seq<char>) -> Seq<char> {
    if cmd_plain_word(p) {
        p
    } else {
        seq!['"'] + p + seq!['"']
    }
}

/// The form of a path for the command line that `shell` reads.
pub open spec fn quote_for(shell: Shell, p: Seq<char>) -> Seq<char> {
    match shell {
        Shell::Posix => shell_quote(p),
        Shell::Cmd => cmd_quote(p),
    }
}

/// Whether `s` can stand in a `cmd` command line as it is.
pub fn is_cmd_plain_word(s: &str) -> (r: bool)
    ensures
        r == cmd_plain_word(s@),
{
    let n = s.unicode_len();
    if n == 0 {
        return false;
    }
    let mut i: usize = 0;
    while i < n
        invariant
            n == s@.len(),
            i <= n,
            forall|j: int|
                0 <= j < i ==> (safe_char(#[trigger] s@[j]) && s@[j] != '%') || s@[j] == '\\',
        decreases n - i,
    {
        let c = s.get_char(i);
        if !((is_safe_char(c) && c != '%') || c == '\\') {
            return false;
        }
        i = i + 1;
    }
    true
}

/// Makes a path safe to embed in a command line that `shell` reads.
pub fn quote_path_for(shell: Shell, path: String) -> (r: String)
    ensures
        r@ == quote_for(shell, path@),
{
    match shell {
        Shell::Posix => handle_path_space(path),
        Shell::Cmd => {
            if is_cmd_plain_word(path.as_str()) {
                path
            } else {
                let mut r = String::from_str("\"");
                r.append(path.as_str());
                r.append("\"");
                proof {
                    reveal_strlit("\"");
                }
                r
            }
        },
    }
}

} // verus!
