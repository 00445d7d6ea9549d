//! How a POSIX shell reads a rendered command line: the words of the command
//! and the body of a here-document. The model reads blanks, newlines, single
//! quotes, backslashes, the `<` redirection operators and the characters that
//! need no quoting; a line with any other character outside quotes is left
//! unread, as is anything after the command but its here-document. The first
//! word is taken as the program, as a shell does for a word that is neither
//! an assignment nor a reserved word.

use vstd::prelude::*;

use crate::execute::{escape_quotes, is_shell_safe, shell_word, spec_describe, spec_shell_join};

verus! {

/// Where the shell is while it reads a line.
#[verifier::ext_equal]
pub struct ShellReading {
    /// The words finished so far.
    pub words: Seq<Seq<char>>,
    /// The word being read.
    pub current: Seq<char>,
    /// Whether a word is being read.
    pub in_word: bool,
    /// Whether some part of the word being read was quoted or escaped.
    pub word_quoted: bool,
    /// Inside single quotes.
    pub quoted: bool,
    /// Just after a backslash outside quotes.
    pub escaped: bool,
    /// How many `<` of a redirection operator have just been read.
    pub op: nat,
    /// The operator, by its number of `<`, that waits for its word; 0 for none.
    pub target: nat,
    /// The redirections read: the operator, its word, and whether the word
    /// was quoted.
    pub redirections: Seq<(nat, Seq<char>, bool)>,
    /// The line has left what this model reads.
    pub broken: bool,
    /// The command has ended at a newline outside quotes.
    pub ended: bool,
    /// What follows that newline.
    pub rest: Seq<char>,
}

/// Outside quotes and operators, with `words` finished and `current` being
/// read (`in_word`, with no quoted part) or not yet started.
pub open spec fn plain(words: Seq<Seq<char>>, current: Seq<char>, in_word: bool) -> ShellReading {
    ShellReading {
        words,
        current,
        in_word,
        word_quoted: false,
        quoted: false,
        escaped: false,
        op: 0,
        target: 0,
        redirections: Seq::empty(),
        broken: false,
        ended: false,
        rest: Seq::empty(),
    }
}

/// Reading the word `current` after `words`, inside single quotes or not.
pub open spec fn in_word_at(words: Seq<Seq<char>>, current: Seq<char>, word_quoted: bool, quoted: bool) -> ShellReading {
    ShellReading {
        words,
        current,
        in_word: true,
        word_quoted,
        quoted,
        escaped: false,
        op: 0,
        target: 0,
        redirections: Seq::empty(),
        broken: false,
        ended: false,
        rest: Seq::empty(),
    }
}

/// The command has ended with `words` and `redirections`, and `rest` follows.
pub open spec fn ended_at(words: Seq<Seq<char>>, redirections: Seq<(nat, Seq<char>, bool)>, rest: Seq<char>) -> ShellReading {
    ShellReading {
        words,
        current: Seq::empty(),
        in_word: false,
        word_quoted: false,
        quoted: false,
        escaped: false,
        op: 0,
        target: 0,
        redirections,
        broken: false,
        ended: true,
        rest,
    }
}

/// `st` with the state of the word being read replaced.
pub open spec fn with_word(
    st: ShellReading,
    current: Seq<char>,
    in_word: bool,
    word_quoted: bool,
    quoted: bool,
    escaped: bool,
) -> ShellReading {
    ShellReading {
        words: st.words,
        current,
        in_word,
        word_quoted,
        quoted,
        escaped,
        op: st.op,
        target: st.target,
        redirections: st.redirections,
        broken: st.broken,
        ended: st.ended,
        rest: st.rest,
    }
}

/// `st` with the state of the redirection operator replaced.
pub open spec fn with_op(st: ShellReading, op: nat, target: nat, broken: bool) -> ShellReading {
    ShellReading {
        words: st.words,
        current: st.current,
        in_word: st.in_word,
        word_quoted: st.word_quoted,
        quoted: st.quoted,
        escaped: st.escaped,
        op,
        target,
        redirections: st.redirections,
        broken,
        ended: st.ended,
        rest: st.rest,
    }
}

/// `st` with the end of the command and what follows it replaced.
pub open spec fn with_rest(st: ShellReading, ended: bool, broken: bool, rest: Seq<char>) -> ShellReading {
    ShellReading {
        words: st.words,
        current: st.current,
        in_word: st.in_word,
        word_quoted: st.word_quoted,
        quoted: st.quoted,
        escaped: st.escaped,
        op: st.op,
        target: st.target,
        redirections: st.redirections,
        broken,
        ended,
        rest,
    }
}

/// The word being read is finished: it is the word of the operator that
/// waits for one, else the next word of the command.
pub open spec fn finish(st: ShellReading) -> ShellReading {
    if st.target > 0 {
        ShellReading {
            words: st.words,
            current: Seq::empty(),
            in_word: false,
            word_quoted: false,
            quoted: false,
            escaped: false,
            op: st.op,
            target: 0,
            redirections: st.redirections.push((st.target, st.current, st.word_quoted)),
            broken: st.broken,
            ended: st.ended,
            rest: st.rest,
        }
    } else {
        ShellReading {
            words: st.words.push(st.current),
            current: Seq::empty(),
            in_word: false,
            word_quoted: false,
            quoted: false,
            escaped: false,
            op: st.op,
            target: st.target,
            redirections: st.redirections,
            broken: st.broken,
            ended: st.ended,
            rest: st.rest,
        }
    }
}

/// One character outside quotes, escapes and operators: a blank ends the
/// word; a newline ends the word and the command; `<` starts an operator
/// (right after a word, which could be taken as a file descriptor, it leaves
/// the model);
/// `'` opens a quote; `\` escapes the next character; a character that needs
/// no quoting is part of the word; any other character leaves the model.
pub open spec fn read_plain(st: ShellReading, c: char) -> ShellReading {
    let f = if st.in_word {
        finish(st)
    } else {
        st
    };
    if c == ' ' || c == '\t' {
        f
    } else if c == '\n' {
        with_rest(f, true, f.broken || f.target > 0, f.rest)
    } else if c == '<' {
        if st.op > 0 {
            with_op(st, st.op + 1, st.target, st.broken)
        } else {
            with_op(f, 1, f.target, f.broken || f.target > 0 || st.in_word)
        }
    } else if c == '\'' {
        with_word(st, st.current, true, true, true, false)
    } else if c == '\\' {
        with_word(st, st.current, st.in_word, st.word_quoted, false, true)
    } else if is_shell_safe(c) {
        with_word(st, st.current.push(c), true, st.word_quoted, false, false)
    } else {
        with_op(st, st.op, st.target, true)
    }
}

/// The shell reads one more character. After the command has ended it is
/// kept as it is. An escaped character is part of the word, but an escaped
/// newline joins two lines. Inside single quotes every character but `'` is
/// part of the word. A character other than `<` completes an operator; `-`
/// there (the `<<-` form) leaves the model.
pub open spec fn read_char(st: ShellReading, c: char) -> ShellReading {
    if st.ended {
        with_rest(st, true, st.broken, st.rest.push(c))
    } else if st.escaped {
        if c == '\n' {
            with_word(st, st.current, st.in_word, st.word_quoted, false, false)
        } else {
            with_word(st, st.current.push(c), true, true, false, false)
        }
    } else if st.quoted {
        if c == '\'' {
            with_word(st, st.current, true, true, false, false)
        } else {
            with_word(st, st.current.push(c), true, true, true, false)
        }
    } else if st.op > 0 && c != '<' {
        read_plain(with_op(st, 0, st.op, st.broken || st.target > 0 || c == '-'), c)
    } else {
        read_plain(st, c)
    }
}

/// The shell reads `s` from state `st`.
pub open spec fn read_text(st: ShellReading, s: Seq<char>) -> ShellReading
    decreases s.len(),
{
    if s.len() == 0 {
        st
    } else {
        read_char(read_text(st, s.drop_last()), s.last())
    }
}

/// The length of the first line of `s`, without its newline.
pub open spec fn line_end(s: Seq<char>) -> nat
    decreases s.len(),
{
    if s.len() == 0 || s[0] == '\n' {
        0
    } else {
        1 + line_end(s.drop_first())
    }
}

/// The body of a here-document read from `rest` up to the line `delimiter`,
/// which must be its last line; `None` when no such line ends it.
pub open spec fn here_document(rest: Seq<char>, delimiter: Seq<char>) -> Option<Seq<char>>
    decreases rest.len(),
{
    let i = line_end(rest) as int;
    if i >= rest.len() {
        if rest == delimiter {
            Some(Seq::empty())
        } else {
            None
        }
    } else if rest.take(i) == delimiter {
        if i + 1 == rest.len() {
            Some(Seq::empty())
        } else {
            None
        }
    } else {
        match here_document(rest.skip(i + 1), delimiter) {
            Some(body) => Some(rest.take(i + 1) + body),
            None => None,
        }
    }
}

/// No line of the newline-terminated text `p` is `line`.
pub open spec fn no_line_equal(p: Seq<char>, line: Seq<char>) -> bool {
    forall|k: int|
        0 <= k && k + line.len() + 1 <= p.len() && (k == 0 || p[k - 1] == '\n') ==> #[trigger] p.subrange(
            k,
            k + line.len() + 1,
        ) != line.push('\n')
}

/// What a POSIX shell runs for `line`: the words of the command and, where a
/// single here-document with a quoted delimiter follows it, the text fed to
/// its stdin. `None` where the line leaves what this model reads: an unclosed
/// quote, another redirection, an unquoted character outside the model, a
/// second command, or a here-document that its delimiter does not end.
pub open spec fn shell_run(line: Seq<char>) -> Option<(Seq<Seq<char>>, Option<Seq<char>>)> {
    let r0 = read_text(plain(Seq::empty(), Seq::empty(), false), line);
    let r = if r0.ended {
        r0
    } else {
        read_char(r0, '\n')
    };
    if r0.quoted || r0.escaped || r.broken {
        None
    } else if r.redirections.len() == 0 {
        if r.rest.len() == 0 {
            Some((r.words, None))
        } else {
            None
        }
    } else if r.redirections.len() == 1 && r.redirections[0].0 == 2 && r.redirections[0].2 {
        match here_document(r.rest, r.redirections[0].1) {
            Some(body) => Some((r.words, Some(body))),
            None => None,
        }
    } else {
        None
    }
}

/// Whether an argument is written quoted.
pub open spec fn needs_quotes(a: Seq<char>) -> bool {
    !(forall|i: int| 0 <= i < a.len() ==> is_shell_safe(#[trigger] a[i]))
}

proof fn lemma_read_push(st: ShellReading, s: Seq<char>, c: char)
    ensures
        read_text(st, s.push(c)) == read_char(read_text(st, s), c),
{
    assert(s.push(c).drop_last() =~= s);
}

proof fn lemma_read_concat(st: ShellReading, a: Seq<char>, b: Seq<char>)
    ensures
        read_text(st, a + b) == read_text(read_text(st, a), b),
    decreases b.len(),
{
    if b.len() == 0 {
        assert(a + b =~= a);
    } else {
        lemma_read_concat(st, a, b.drop_last());
        assert((a + b).drop_last() =~= a + b.drop_last());
        assert((a + b).last() == b.last());
    }
}

proof fn lemma_read_single(st: ShellReading, c: char)
    ensures
        read_text(st, seq![c]) == read_char(st, c),
{
    lemma_read_push(st, Seq::empty(), c);
    assert(Seq::<char>::empty().push(c) =~= seq![c]);
}

proof fn lemma_read_safe(words: Seq<Seq<char>>, current: Seq<char>, in_word: bool, a: Seq<char>)
    requires
        forall|i: int| 0 <= i < a.len() ==> is_shell_safe(#[trigger] a[i]),
    ensures
        read_text(plain(words, current, in_word), a) =~= plain(words, current + a, in_word || a.len() > 0),
    decreases a.len(),
{
    if a.len() > 0 {
        lemma_read_safe(words, current, in_word, a.drop_last());
        assert(is_shell_safe(a.last()));
        assert(current + a.drop_last().push(a.last()) =~= current + a);
    }
}

proof fn lemma_read_escaped(words: Seq<Seq<char>>, current: Seq<char>, a: Seq<char>)
    ensures
        read_text(in_word_at(words, current, true, true), escape_quotes(a)) =~= in_word_at(
            words,
            current + a,
            true,
            true,
        ),
    decreases a.len(),
{
    reveal_strlit("'\\''");
    let st = in_word_at(words, current, true, true);
    if a.len() == 0 {
        assert(current + a =~= current);
    } else {
        let t = a.drop_last();
        let c = a.last();
        lemma_read_escaped(words, current, t);
        let mid = in_word_at(words, current + t, true, true);
        let piece = if c == '\'' {
            "'\\''"@
        } else {
            seq![c]
        };
        assert(escape_quotes(a) == escape_quotes(t) + piece);
        lemma_read_concat(st, escape_quotes(t), piece);
        if c == '\'' {
            let q = "'\\''"@;
            assert(q =~= seq!['\''].push('\\').push('\'').push('\''));
            lemma_read_single(mid, '\'');
            let s1 = read_char(mid, '\'');
            lemma_read_push(mid, seq!['\''], '\\');
            let s2 = read_char(s1, '\\');
            lemma_read_push(mid, seq!['\''].push('\\'), '\'');
            let s3 = read_char(s2, '\'');
            lemma_read_push(mid, seq!['\''].push('\\').push('\''), '\'');
            assert(s3 =~= in_word_at(words, (current + t).push('\''), true, false));
            assert((current + t).push('\'') =~= current + a);
        } else {
            lemma_read_single(mid, c);
            assert((current + t).push(c) =~= current + a);
        }
    }
}

/// Reading one rendered argument from outside any word gives the argument
/// as the word being read.
proof fn lemma_read_word(words: Seq<Seq<char>>, a: Seq<char>)
    requires
        a.len() > 0,
    ensures
        read_text(plain(words, Seq::empty(), false), shell_word(a)) =~= in_word_at(
            words,
            a,
            needs_quotes(a),
            false,
        ),
{
    reveal_strlit("'");
    let st = plain(words, Seq::empty(), false);
    if !needs_quotes(a) {
        lemma_read_safe(words, Seq::empty(), false, a);
        assert(Seq::<char>::empty() + a =~= a);
    } else {
        lemma_read_single(st, '\'');
        assert("'"@ =~= seq!['\'']);
        lemma_read_concat(st, "'"@, escape_quotes(a));
        lemma_read_escaped(words, Seq::empty(), a);
        assert(Seq::<char>::empty() + a =~= a);
        let inside = in_word_at(words, a, true, true);
        lemma_read_concat(st, "'"@ + escape_quotes(a), "'"@);
        lemma_read_single(inside, '\'');
    }
}

/// The arguments read back from their joined words: the earlier ones are
/// finished and the last one is being read.
proof fn lemma_read_joined(words: Seq<Seq<char>>, args: Seq<Seq<char>>)
    requires
        args.len() > 0,
        forall|i: int| 0 <= i < args.len() ==> (#[trigger] args[i]).len() > 0,
    ensures
        read_text(plain(words, Seq::empty(), false), spec_shell_join(args)) =~= in_word_at(
            words + args.drop_last(),
            args.last(),
            needs_quotes(args.last()),
            false,
        ),
    decreases args.len(),
{
    reveal_strlit(" ");
    let ws = args.map_values(|a: Seq<char>| shell_word(a));
    if args.len() == 1 {
        assert(spec_shell_join(args) == shell_word(args[0]));
        lemma_read_word(words, args[0]);
        assert(words + args.drop_last() =~= words);
    } else {
        let init = args.drop_last();
        assert(ws.drop_last() =~= init.map_values(|a: Seq<char>| shell_word(a)));
        assert(spec_shell_join(args) == spec_shell_join(init) + " "@ + shell_word(args.last()));
        lemma_read_joined(words, init);
        let st0 = plain(words, Seq::empty(), false);
        let st1 = in_word_at(words + init.drop_last(), init.last(), needs_quotes(init.last()), false);
        lemma_read_concat(st0, spec_shell_join(init) + " "@, shell_word(args.last()));
        lemma_read_concat(st0, spec_shell_join(init), " "@);
        assert(" "@ =~= seq![' ']);
        lemma_read_single(st1, ' ');
        assert((words + init.drop_last()).push(init.last()) =~= words + init);
        assert(read_char(st1, ' ') =~= plain(words + init, Seq::empty(), false));
        lemma_read_word(words + init, args.last());
    }
}

/// The command's words read from a rendered argument list, up to the point
/// where no word is being read.
proof fn lemma_read_args(words: Seq<Seq<char>>, args: Seq<Seq<char>>)
    requires
        forall|i: int| 0 <= i < args.len() ==> (#[trigger] args[i]).len() > 0,
    ensures
        read_text(plain(words, Seq::empty(), false), spec_shell_join(args) + " "@) =~= plain(
            words + args,
            Seq::empty(),
            false,
        ),
        read_char(read_text(plain(words, Seq::empty(), false), spec_shell_join(args)), '\n') =~= ended_at(
            words + args,
            Seq::empty(),
            Seq::empty(),
        ),
{
    reveal_strlit(" ");
    let st0 = plain(words, Seq::empty(), false);
    assert(" "@ =~= seq![' ']);
    lemma_read_concat(st0, spec_shell_join(args), " "@);
    if args.len() == 0 {
        assert(spec_shell_join(args) == Seq::<char>::empty());
        assert(words + args =~= words);
        lemma_read_single(st0, ' ');
    } else {
        lemma_read_joined(words, args);
        let st1 = in_word_at(words + args.drop_last(), args.last(), needs_quotes(args.last()), false);
        lemma_read_single(st1, ' ');
        assert((words + args.drop_last()).push(args.last()) =~= words + args);
    }
}

/// Reading the operator and quoted delimiter of the here-document ends the
/// command with that one redirection.
proof fn lemma_read_here_operator(words: Seq<Seq<char>>)
    ensures
        read_text(plain(words, Seq::empty(), false), "<<'EOF'\n"@) =~= ended_at(
            words,
            seq![(2nat, "EOF"@, true)],
            Seq::empty(),
        ),
{
    reveal_strlit("<<'EOF'\n");
    reveal_strlit("EOF");
    let st = plain(words, Seq::empty(), false);
    let s = "<<'EOF'\n"@;
    let s1 = seq!['<'];
    let s2 = s1.push('<');
    let s3 = s2.push('\'');
    let s4 = s3.push('E');
    let s5 = s4.push('O');
    let s6 = s5.push('F');
    let s7 = s6.push('\'');
    let s8 = s7.push('\n');
    assert(s =~= s8);
    lemma_read_single(st, '<');
    lemma_read_push(st, s1, '<');
    lemma_read_push(st, s2, '\'');
    lemma_read_push(st, s3, 'E');
    lemma_read_push(st, s4, 'O');
    lemma_read_push(st, s5, 'F');
    lemma_read_push(st, s6, '\'');
    lemma_read_push(st, s7, '\n');
    let r2 = read_text(st, s2);
    assert(r2 == with_op(st, 2, 0, false));
    let r3 = read_text(st, s3);
    assert(r3.target == 2 && r3.op == 0 && r3.quoted && r3.in_word && r3.word_quoted);
    let r7 = read_text(st, s7);
    assert(r7.current =~= "EOF"@);
    assert(!r7.quoted && r7.target == 2 && r7.in_word && r7.word_quoted && !r7.broken);
}

/// After the command has ended, the shell keeps what follows.
proof fn lemma_read_after_end(st: ShellReading, s: Seq<char>)
    requires
        st.ended,
    ensures
        read_text(st, s) == with_rest(st, true, st.broken, st.rest + s),
    decreases s.len(),
{
    if s.len() == 0 {
        assert(st.rest + s =~= st.rest);
        assert(with_rest(st, true, st.broken, st.rest) =~= st);
    } else {
        lemma_read_after_end(st, s.drop_last());
        assert((st.rest + s.drop_last()).push(s.last()) =~= st.rest + s);
    }
}

/// `line_end` is the position of the first newline, or the length.
proof fn lemma_line_end(s: Seq<char>, i: int)
    requires
        0 <= i <= s.len(),
        forall|j: int| 0 <= j < i ==> s[j] != '\n',
        i < s.len() ==> s[i] == '\n',
    ensures
        line_end(s) == i,
    decreases s.len(),
{
    if s.len() > 0 && s[0] != '\n' {
        assert(i > 0);
        lemma_line_end(s.drop_first(), i - 1);
    }
}

proof fn lemma_line_end_bounds(s: Seq<char>)
    ensures
        line_end(s) <= s.len(),
        forall|j: int| 0 <= j < line_end(s) ==> s[j] != '\n',
        line_end(s) < s.len() ==> s[line_end(s) as int] == '\n',
    decreases s.len(),
{
    if s.len() > 0 && s[0] != '\n' {
        lemma_line_end_bounds(s.drop_first());
        assert forall|j: int| 0 <= j < line_end(s) implies s[j] != '\n' by {
            if j > 0 {
                assert(s[j] == s.drop_first()[j - 1]);
            }
        }
    }
}

/// The here-document made of `p` and the line `EOF` gives back `p`, when `p`
/// is empty or ends in a newline and no line of it is `EOF`.
proof fn lemma_here_document(p: Seq<char>)
    requires
        p.len() == 0 || p.last() == '\n',
        no_line_equal(p, "EOF"@),
    ensures
        here_document(p + "EOF"@, "EOF"@) == Some(p),
    decreases p.len(),
{
    reveal_strlit("EOF");
    let d = "EOF"@;
    let rest = p + d;
    if p.len() == 0 {
        assert(rest =~= d);
        lemma_line_end(d, 3);
        assert(p =~= Seq::<char>::empty());
    } else {
        lemma_line_end_bounds(p);
        let i = line_end(p) as int;
        if i == p.len() {
            assert(p[p.len() - 1] != '\n');
        }
        assert(i < p.len());
        assert(p[i] == '\n');
        assert forall|j: int| 0 <= j < i implies rest[j] != '\n' by {
            assert(rest[j] == p[j]);
        }
        lemma_line_end(rest, i);
        assert(rest.take(i) =~= p.take(i));
        if p.take(i) == d {
            let k: int = 0;
            assert(p.subrange(k, k + d.len() + 1) =~= d.push('\n'));
            assert(no_line_equal(p, d));
            assert(false);
        }
        let q = p.skip(i + 1);
        assert(rest.skip(i + 1) =~= q + d);
        assert(q.len() == 0 || q.last() == '\n');
        assert forall|k: int|
            0 <= k && k + d.len() + 1 <= q.len() && (k == 0 || q[k - 1] == '\n') implies #[trigger] q.subrange(
            k,
            k + d.len() + 1,
        ) != d.push('\n') by {
            let m = k + i + 1;
            assert(q.subrange(k, k + d.len() + 1) =~= p.subrange(m, m + d.len() + 1));
            if k > 0 {
                assert(q[k - 1] == p[m - 1]);
            }
        }
        lemma_here_document(q);
        assert(rest.take(i + 1) =~= p.take(i + 1));
        assert(p.take(i + 1) + q =~= p);
    }
}

/// A POSIX shell reads the joined words back as the arguments, when no
/// argument is empty.
pub proof fn lemma_shell_join_round_trip(args: Seq<Seq<char>>)
    requires
        forall|i: int| 0 <= i < args.len() ==> (#[trigger] args[i]).len() > 0,
    ensures
        shell_run(spec_shell_join(args)) == Some((args, None::<Seq<char>>)),
{
    lemma_read_args(Seq::empty(), args);
    assert(Seq::<Seq<char>>::empty() + args =~= args);
}

/// A POSIX shell runs the rendered line of a step as the program with its
/// arguments, and feeds the payload, if any, to its stdin: when the program
/// is a non-empty word of characters that need no quoting, no argument is
/// empty, and the payload is empty or ends in a newline and has no line
/// `EOF`.
pub proof fn lemma_describe_round_trip(program: Seq<char>, args: Seq<Seq<char>>, stdin: Option<Seq<char>>)
    requires
        program.len() > 0,
        forall|i: int| 0 <= i < program.len() ==> is_shell_safe(#[trigger] program[i]),
        forall|i: int| 0 <= i < args.len() ==> (#[trigger] args[i]).len() > 0,
        stdin matches Some(p) ==> (p.len() == 0 || p.last() == '\n') && no_line_equal(p, "EOF"@),
    ensures
        shell_run(spec_describe(program, args, stdin)) == Some((seq![program] + args, stdin)),
{
    reveal_strlit(" ");
    reveal_strlit(" <<'EOF'\n");
    reveal_strlit("<<'EOF'\n");
    let st0 = plain(Seq::empty(), Seq::empty(), false);
    lemma_read_safe(Seq::empty(), Seq::empty(), false, program);
    assert(Seq::<char>::empty() + program =~= program);
    let st1 = plain(Seq::empty(), program, true);
    assert(" "@ =~= seq![' ']);
    lemma_read_single(st1, ' ');
    let st2 = plain(seq![program], Seq::empty(), false);
    assert(Seq::<Seq<char>>::empty().push(program) =~= seq![program]);
    assert(read_char(st1, ' ') =~= st2);
    lemma_read_concat(st0, program, " "@);
    let head = program + " "@;
    let join = spec_shell_join(args);
    lemma_read_concat(st0, head, join);
    lemma_read_args(seq![program], args);
    match stdin {
        None => {
            assert(spec_describe(program, args, stdin) =~= head + join);
        },
        Some(p) => {
            let line = spec_describe(program, args, stdin);
            let op = "<<'EOF'\n"@;
            assert(" <<'EOF'\n"@ =~= " "@ + op);
            assert(line =~= (head + (join + " "@)) + op + (p + "EOF"@));
            lemma_read_concat(st0, head, join + " "@);
            let st3 = plain(seq![program] + args, Seq::empty(), false);
            lemma_read_concat(st0, head + (join + " "@), op);
            lemma_read_here_operator(seq![program] + args);
            let st4 = ended_at(seq![program] + args, seq![(2nat, "EOF"@, true)], Seq::empty());
            lemma_read_concat(st0, head + (join + " "@) + op, p + "EOF"@);
            lemma_read_after_end(st4, p + "EOF"@);
            assert(Seq::<char>::empty() + (p + "EOF"@) =~= p + "EOF"@);
            lemma_here_document(p);
        },
    }
}

} // verus!
