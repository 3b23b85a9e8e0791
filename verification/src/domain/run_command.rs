//! The shell line that launches one script: `npm run -- <script>` or
//! `pnpm run -- <script>`, with the name quoted for a POSIX shell.

use vstd::prelude::*;

use super::catalog::{manager_name, PackageManager};
use super::text::{chars_of, push_char};

verus! {

/// Characters that a POSIX shell reads literally outside quotes.
pub open spec fn is_safe_char(c: char) -> bool {
    ('a' <= c && c <= 'z') || ('A' <= c && c <= 'Z') || ('0' <= c && c <= '9') || c == '_' || c
        == '.' || c == ':' || c == '/' || c == '-' || c == '+' || c == '=' || c == '@' || c == '%'
}

/// A name that needs no quoting: not empty, and made of safe characters only.
pub open spec fn is_safe_name(s: Seq<char>) -> bool {
    s.len() > 0 && forall|i: int| 0 <= i < s.len() ==> is_safe_char(#[trigger] s[i])
}

/// How one character is written inside single quotes: a quote closes the
/// quoting, is escaped, and reopens it.
pub open spec fn quoted_piece(c: char) -> Seq<char> {
    if c == '\'' {
        seq!['\'', '\\', '\'', '\'']
    } else {
        seq![c]
    }
}

/// The body of a single-quoted word for `s`.
pub open spec fn escape_quotes(s: Seq<char>) -> Seq<char>
    decreases s.len(),
{
    if s.len() == 0 {
        Seq::empty()
    } else {
        quoted_piece(s[0]) + escape_quotes(s.skip(1))
    }
}

/// The shell spelling of a script name: the name itself when it is safe,
/// otherwise the name in single quotes.
pub open spec fn quoted_name(s: Seq<char>) -> Seq<char> {
    if is_safe_name(s) {
        s
    } else {
        seq!['\''] + escape_quotes(s) + seq!['\'']
    }
}

/// The command line that runs a script with a package manager.
pub open spec fn invocation(m: PackageManager, script: Seq<char>) -> Seq<char> {
    manager_name(m) + " run -- "@ + quoted_name(script)
}

/// The word a POSIX shell reads from `w`, starting inside single quotes.
pub open spec fn shell_word_quoted(w: Seq<char>) -> Option<Seq<char>>
    decreases w.len(), 0int,
{
    if w.len() == 0 {
        None
    } else if w[0] == '\'' {
        shell_word(w.skip(1))
    } else {
        match shell_word_quoted(w.skip(1)) {
            Some(r) => Some(seq![w[0]] + r),
            None => None,
        }
    }
}

/// The single word a POSIX shell reads from `w` (quote removal), or `None`
/// when `w` is not one word: an unterminated quote, a trailing backslash, or
/// an unquoted character that the shell would treat specially.
pub open spec fn shell_word(w: Seq<char>) -> Option<Seq<char>>
    decreases w.len(), 1int,
{
    if w.len() == 0 {
        Some(Seq::empty())
    } else if w[0] == '\'' {
        shell_word_quoted(w.skip(1))
    } else if w[0] == '\\' {
        if w.len() >= 2 {
            match shell_word(w.skip(2)) {
                Some(r) => Some(seq![w[1]] + r),
                None => None,
            }
        } else {
            None
        }
    } else if is_safe_char(w[0]) {
        match shell_word(w.skip(1)) {
            Some(r) => Some(seq![w[0]] + r),
            None => None,
        }
    } else {
        None
    }
}

proof fn lemma_escape_push(s: Seq<char>, c: char)
    ensures
        escape_quotes(s.push(c)) == escape_quotes(s) + quoted_piece(c),
    decreases s.len(),
{
    if s.len() == 0 {
        assert(s.push(c).skip(1) =~= Seq::<char>::empty());
        assert(escape_quotes(Seq::<char>::empty()) == Seq::<char>::empty());
        assert(escape_quotes(s.push(c)) =~= quoted_piece(c));
        assert(s =~= Seq::<char>::empty());
    } else {
        assert(s.push(c).skip(1) =~= s.skip(1).push(c));
        lemma_escape_push(s.skip(1), c);
        assert(escape_quotes(s.push(c)) =~= quoted_piece(s[0]) + (escape_quotes(s.skip(1))
            + quoted_piece(c)));
    }
}

proof fn lemma_unquote_escaped(s: Seq<char>, tail: Seq<char>)
    ensures
        shell_word_quoted(escape_quotes(s) + seq!['\''] + tail) == match shell_word(tail) {
            Some(r) => Some(s + r),
            None => None::<Seq<char>>,
        },
    decreases s.len(),
{
    let w = escape_quotes(s) + seq!['\''] + tail;
    if s.len() == 0 {
        assert(escape_quotes(s) == Seq::<char>::empty());
        assert(w.skip(1) =~= tail);
        assert(w[0] == '\'');
        match shell_word(tail) {
            Some(r) => assert(s + r =~= r),
            None => {},
        }
    } else {
        let rest = s.skip(1);
        let x = escape_quotes(rest) + seq!['\''] + tail;
        lemma_unquote_escaped(rest, tail);
        if s[0] == '\'' {
            assert(w =~= seq!['\'', '\\', '\'', '\''] + x);
            assert(w[0] == '\'');
            assert(w.skip(1) =~= seq!['\\', '\'', '\''] + x);
            let w1 = w.skip(1);
            assert(w1[0] == '\\');
            assert(w1.skip(2) =~= seq!['\''] + x);
            let w2 = w1.skip(2);
            assert(w2[0] == '\'');
            assert(w2.skip(1) =~= x);
            assert(shell_word(w2) == shell_word_quoted(x));
            assert(shell_word(w1) == match shell_word(w2) {
                Some(r) => Some(seq![w1[1]] + r),
                None => None::<Seq<char>>,
            });
            assert(shell_word_quoted(w) == shell_word(w1));
            match shell_word(tail) {
                Some(r) => {
                    assert(seq![w1[1]] + (rest + r) =~= s + r);
                },
                None => {},
            }
        } else {
            assert(w =~= seq![s[0]] + x);
            assert(w[0] == s[0]);
            assert(w.skip(1) =~= x);
            assert(shell_word_quoted(w) == match shell_word_quoted(x) {
                Some(r) => Some(seq![w[0]] + r),
                None => None::<Seq<char>>,
            });
            match shell_word(tail) {
                Some(r) => {
                    assert(seq![w[0]] + (rest + r) =~= s + r);
                },
                None => {},
            }
        }
    }
}

proof fn lemma_safe_word(s: Seq<char>)
    requires
        forall|i: int| 0 <= i < s.len() ==> is_safe_char(#[trigger] s[i]),
    ensures
        shell_word(s) == Some(s),
    decreases s.len(),
{
    if s.len() > 0 {
        assert(is_safe_char(s[0]));
        assert forall|i: int| 0 <= i < s.skip(1).len() implies is_safe_char(
            #[trigger] s.skip(1)[i],
        ) by {
            assert(s.skip(1)[i] == s[i + 1]);
        }
        lemma_safe_word(s.skip(1));
        assert(seq![s[0]] + s.skip(1) =~= s);
    }
}

/// A quoted script name reaches the package manager as one argument equal to
/// the name: the shell reads exactly the name back from its quoted spelling.
pub proof fn lemma_quoting_round_trip(name: Seq<char>)
    ensures
        shell_word(quoted_name(name)) == Some(name),
{
    if is_safe_name(name) {
        lemma_safe_word(name);
    } else {
        let w = seq!['\''] + escape_quotes(name) + seq!['\''];
        lemma_unquote_escaped(name, Seq::empty());
        assert(w[0] == '\'');
        assert(w.skip(1) =~= escape_quotes(name) + seq!['\''] + Seq::<char>::empty());
        assert(name + Seq::<char>::empty() =~= name);
    }
}

fn is_safe_unquoted_char(c: char) -> (r: bool)
    ensures
        r == is_safe_char(c),
{
    ('a' <= c && c <= 'z') || ('A' <= c && c <= 'Z') || ('0' <= c && c <= '9') || c == '_' || c
        == '.' || c == ':' || c == '/' || c == '-' || c == '+' || c == '=' || c == '@' || c == '%'
}

fn is_safe_unquoted(name: &Vec<char>) -> (r: bool)
    ensures
        r == is_safe_name(name@),
{
    if name.len() == 0 {
        return false;
    }
    let mut i: usize = 0;
    while i < name.len()
        invariant
            i <= name@.len(),
            forall|t: int| 0 <= t < i ==> is_safe_char(#[trigger] name@[t]),
        decreases name.len() - i,
    {
        if !is_safe_unquoted_char(name[i]) {
            return false;
        }
        i += 1;
    }
    true
}

fn posix_single_quote(name: &Vec<char>) -> (r: String)
    ensures
        r@ == seq!['\''] + escape_quotes(name@) + seq!['\''],
{
    let mut out = String::new();
    push_char(&mut out, '\'');
    let mut i: usize = 0;
    while i < name.len()
        invariant
            i <= name@.len(),
            out@ == seq!['\''] + escape_quotes(name@.take(i as int)),
        decreases name.len() - i,
    {
        let c = name[i];
        if c == '\'' {
            push_char(&mut out, '\'');
            push_char(&mut out, '\\');
            push_char(&mut out, '\'');
            push_char(&mut out, '\'');
        } else {
            push_char(&mut out, c);
        }
        proof {
            lemma_escape_push(name@.take(i as int), c);
            assert(name@.take(i + 1) =~= name@.take(i as int).push(c));
        }
        i += 1;
    }
    push_char(&mut out, '\'');
    assert(name@.take(name@.len() as int) =~= name@);
    out
}

/// Quote a script name so a POSIX shell passes it as one argument.
/// Names without shell metacharacters stay unquoted (shortest form).
pub fn quote_script_name(name: &str) -> (r: String)
    ensures
        r@ == quoted_name(name@),
{
    let chars = chars_of(name);
    if is_safe_unquoted(&chars) {
        name.to_owned()
    } else {
        posix_single_quote(&chars)
    }
}

/// `npm run -- <script>` / `pnpm run -- <script>`.
/// `--` keeps names like `--prod` from being read as manager options.
pub fn run_invocation(manager: PackageManager, script: &str) -> (r: String)
    ensures
        r@ == invocation(manager, script@),
{
    let mut out = String::from_str(manager.as_str());
    out.append(" run -- ");
    let quoted = quote_script_name(script);
    out.append(quoted.as_str());
    out
}

} // verus!
