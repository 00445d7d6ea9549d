//! How a step reads on screen: the command line, shell-quoted, with its
//! stdin payload as a heredoc.

use vstd::prelude::*;

use crate::generate::{opt_text, texts, Step};
use crate::text::push_char;

verus! {

/// Characters that need no quoting in a shell word.
pub open spec fn is_shell_safe(c: char) -> bool {
    ||| ('a' <= c && c <= 'z')
    ||| ('A' <= c && c <= 'Z')
    ||| ('0' <= c && c <= '9')
    ||| c == '-' || c == '_' || c == '.' || c == '/' || c == ':'
    ||| c == '=' || c == '@' || c == '%' || c == '+'
}

/// `s` with every `'` written as `'\''`.
pub open spec fn escape_quotes(s: Seq<char>) -> Seq<char>
    decreases s.len(),
{
    if s.len() == 0 {
        Seq::empty()
    } else {
        escape_quotes(s.drop_last()) + if s.last() == '\'' {
            "'\\''"@
        } else {
            seq![s.last()]
        }
    }
}

/// One argument as a shell word: unchanged when every character is safe,
/// else single-quoted.
pub open spec fn shell_word(a: Seq<char>) -> Seq<char> {
    if forall|i: int| 0 <= i < a.len() ==> is_shell_safe(#[trigger] a[i]) {
        a
    } else {
        "'"@ + escape_quotes(a) + "'"@
    }
}

/// The pieces joined with `sep` between neighbours.
pub open spec fn joined(v: Seq<Seq<char>>, sep: Seq<char>) -> Seq<char>
    decreases v.len(),
{
    if v.len() == 0 {
        Seq::empty()
    } else if v.len() == 1 {
        v[0]
    } else {
        joined(v.drop_last(), sep) + sep + v.last()
    }
}

/// The arguments as shell words separated by single spaces.
pub open spec fn spec_shell_join(args: Seq<Seq<char>>) -> Seq<char> {
    joined(args.map_values(|a: Seq<char>| shell_word(a)), " "@)
}

/// The program, its quoted arguments, and the stdin payload as a heredoc.
pub open spec fn spec_describe(program: Seq<char>, args: Seq<Seq<char>>, stdin: Option<Seq<char>>) -> Seq<char> {
    program + " "@ + spec_shell_join(args) + match stdin {
        Some(p) => " <<'EOF'\n"@ + p + "EOF"@,
        None => Seq::empty(),
    }
}

fn shell_safe(c: char) -> (b: bool)
    ensures
        b == is_shell_safe(c),
{
    ('a' <= c && c <= 'z') || ('A' <= c && c <= 'Z') || ('0' <= c && c <= '9') || c == '-' || c
        == '_' || c == '.' || c == '/' || c == ':' || c == '=' || c == '@' || c == '%' || c == '+'
}

fn quote_word(a: &str) -> (r: String)
    ensures
        r@ == shell_word(a@),
{
    let n = a.unicode_len();
    let mut i: usize = 0;
    while i < n
        invariant
            n == a@.len(),
            i <= n,
            forall|j: int| 0 <= j < i ==> is_shell_safe(#[trigger] a@[j]),
        ensures
            i <= n,
            forall|j: int| 0 <= j < i ==> is_shell_safe(#[trigger] a@[j]),
            i < n ==> !is_shell_safe(a@[i as int]),
        decreases n - i,
    {
        if !shell_safe(a.get_char(i)) {
            break;
        }
        i = i + 1;
    }
    if i == n {
        return a.to_owned();
    }
    assert(!is_shell_safe(a@[i as int]));
    let mut r = String::from_str("'");
    let mut k: usize = 0;
    assert(a@.take(0) =~= Seq::<char>::empty());
    while k < n
        invariant
            n == a@.len(),
            k <= n,
            r@ == "'"@ + escape_quotes(a@.take(k as int)),
        decreases n - k,
    {
        let c = a.get_char(k);
        assert(a@.take(k + 1).drop_last() =~= a@.take(k as int));
        if c == '\'' {
            r.append("'\\''");
        } else {
            push_char(&mut r, c);
        }
        assert(r@ =~= "'"@ + escape_quotes(a@.take(k + 1)));
        k = k + 1;
    }
    assert(a@.take(n as int) =~= a@);
    r.append("'");
    r
}

fn shell_join(args: &Vec<String>) -> (r: String)
    ensures
        r@ == spec_shell_join(texts(args@)),
{
    let ghost words = texts(args@).map_values(|a: Seq<char>| shell_word(a));
    let mut r = String::new();
    let mut i: usize = 0;
    assert(words.take(0) =~= Seq::<Seq<char>>::empty());
    while i < args.len()
        invariant
            words == texts(args@).map_values(|a: Seq<char>| shell_word(a)),
            words.len() == args@.len(),
            i <= args@.len(),
            r@ == joined(words.take(i as int), " "@),
        decreases args@.len() - i,
    {
        let w = quote_word(args[i].as_str());
        assert(words.take(i + 1).drop_last() =~= words.take(i as int));
        assert(w@ == words[i as int]);
        if i > 0 {
            r.append(" ");
        } else {
            assert(Seq::<char>::empty() + w@ =~= w@);
        }
        r.append(w.as_str());
        i = i + 1;
    }
    assert(words.take(args@.len() as int) =~= words);
    r
}

/// Human-readable rendering of a step for --dry-run and the approval prompt.
pub fn describe_step(step: &Step) -> (line: String)
    ensures
        line@ == spec_describe(step.program@, texts(step.args@), opt_text(step.stdin)),
{
    let mut line = step.program.clone();
    line.append(" ");
    line.append(shell_join(&step.args).as_str());
    match &step.stdin {
        Some(payload) => {
            line.append(" <<'EOF'\n");
            line.append(payload.as_str());
            line.append("EOF");
        },
        None => {
            assert(line@ + Seq::<char>::empty() =~= line@);
        },
    }
    line
}

} // verus!
