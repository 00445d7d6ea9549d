//! What the command-line front end decides: the flags and positional
//! arguments, the answers for the non-interactive mode, the plan summary and
//! the follow-up commands.

use vstd::prelude::*;

use crate::config::{domain_is_valid, domain_ok, Answers, Server};
use crate::generate::{mysql_path, pgsql_path};
use crate::text::{
    decimal, has_char, push_decimal, same_text, split_on, strip_both, strip_leading, strip_trailing,
    substring, trim, trimmed,
};

verus! {

/// The command line split into the execute flag and the positional words.
pub struct CliArgs {
    pub execute_now: bool,
    pub positional: Vec<String>,
}

/// `-y` or `--yes` asks to execute the steps rather than show them.
pub open spec fn is_yes_flag(a: Seq<char>) -> bool {
    a == "-y"@ || a == "--yes"@
}

/// A word that does not start with `-`.
pub open spec fn is_positional(a: Seq<char>) -> bool {
    !(a.len() > 0 && a[0] == '-')
}

/// The positional words of `args`, in order.
pub open spec fn positional_words(args: Seq<Seq<char>>) -> Seq<Seq<char>> {
    args.filter(|a: Seq<char>| is_positional(a))
}

/// The text of each string in `v`.
pub open spec fn words(v: Seq<String>) -> Seq<Seq<char>> {
    v.map_values(|s: String| s@)
}

/// Splits the command-line arguments (program name excluded) into the
/// execute flag and the positional words.
pub fn parse_args(args: &Vec<String>) -> (r: CliArgs)
    ensures
        r.execute_now == exists|i: int| 0 <= i < args@.len() && is_yes_flag(#[trigger] args@[i]@),
        words(r.positional@) == positional_words(words(args@)),
{
    let mut execute_now = false;
    let mut positional: Vec<String> = Vec::new();
    let mut i: usize = 0;
    let ghost all = words(args@);
    assert(all.take(0) =~= Seq::<Seq<char>>::empty());
    while i < args.len()
        invariant
            all == words(args@),
            i <= args@.len(),
            execute_now == exists|j: int| 0 <= j < i && is_yes_flag(#[trigger] args@[j]@),
            words(positional@) == positional_words(all.take(i as int)),
        decreases args@.len() - i,
    {
        let a = args[i].as_str();
        if same_text(a, "-y") || same_text(a, "--yes") {
            execute_now = true;
        }
        let ghost before = positional@;
        let starts_with_dash = a.unicode_len() > 0 && a.get_char(0) == '-';
        proof {
            reveal(Seq::filter);
            assert(all.take(i + 1).drop_last() =~= all.take(i as int));
        }
        if !starts_with_dash {
            positional.push(args[i].clone());
            assert(words(positional@) =~= words(before).push(a@));
        }
        i = i + 1;
    }
    assert(all.take(args@.len() as int) =~= all);
    CliArgs { execute_now, positional }
}

/// The position of the first `c` in `s`, or its length when there is none.
pub open spec fn first_index(s: Seq<char>, c: char) -> int
    decreases s.len(),
{
    if s.len() == 0 || s[0] == c {
        0
    } else {
        1 + first_index(s.drop_first(), c)
    }
}

proof fn lemma_first_index(s: Seq<char>, c: char)
    ensures
        0 <= first_index(s, c) <= s.len(),
        first_index(s, c) < s.len() ==> s[first_index(s, c)] == c,
        forall|j: int| 0 <= j < first_index(s, c) ==> s[j] != c,
        s.contains(c) ==> first_index(s, c) < s.len(),
    decreases s.len(),
{
    if s.len() > 0 && s[0] != c {
        lemma_first_index(s.drop_first(), c);
        assert forall|j: int| 0 <= j < first_index(s, c) implies s[j] != c by {
            if j > 0 {
                assert(s[j] == s.drop_first()[j - 1]);
            }
        }
        if s.contains(c) {
            let k = choose|k: int| 0 <= k < s.len() && s[k] == c;
            assert(s.drop_first()[k - 1] == c);
        }
    }
}

/// The part of `d` before its first dot.
pub open spec fn first_label(d: Seq<char>) -> Seq<char> {
    d.take(first_index(d, '.'))
}

/// The part of `d` after its first dot.
pub open spec fn after_first_label(d: Seq<char>) -> Seq<char> {
    d.skip(first_index(d, '.') + 1)
}

/// `a.b.c` gives subdomain `a` and domain `b.c`; `a.b` gives the bare
/// domain `a.b` with no subdomain.
pub open spec fn split_site(d: Seq<char>) -> (Seq<char>, Seq<char>) {
    if after_first_label(d).contains('.') {
        (first_label(d), after_first_label(d))
    } else {
        (Seq::empty(), d)
    }
}

/// The defaults of the non-interactive mode: nginx, public docroot, HTTPS
/// (self-signed), PHP-FPM, logs, deny dotfiles, MySQL; no Let's Encrypt,
/// no PostgreSQL, no docker.
pub open spec fn default_choices(a: Answers) -> bool {
    &&& a.email@ == "hello@ngaw.xyz"@
    &&& a.server == Server::Nginx
    &&& a.public
    &&& !a.letsencrypt
    &&& a.nginx_https
    &&& a.nginx_php
    &&& a.nginx_logs
    &&& a.nginx_deny
    &&& !a.docker
    &&& a.docker_host_port == 0
    &&& a.db_mysql
    &&& !a.db_pgsql
}

/// The error for a domain argument that breaks the domain rule.
pub open spec fn invalid_domain_error(d: Seq<char>) -> Seq<char> {
    "invalid domain: "@ + d + " (expected sub.domain.tld or domain.tld)"@
}

proof fn lemma_split_on_without_sep(t: Seq<char>, sep: char)
    requires
        !t.contains(sep),
    ensures
        split_on(t, sep).len() == 1,
    decreases t.len(),
{
    if t.len() > 0 {
        assert(!t.drop_last().contains(sep)) by {
            if t.drop_last().contains(sep) {
                let k = choose|k: int| 0 <= k < t.drop_last().len() && t.drop_last()[k] == sep;
                assert(t[k] == sep);
            }
        }
        lemma_split_on_without_sep(t.drop_last(), sep);
    }
}

proof fn lemma_strip_leading_keeps(s: Seq<char>, c: char, x: char)
    ensures
        strip_leading(s, c).contains(x) ==> s.contains(x),
    decreases s.len(),
{
    if s.len() > 0 && s[0] == c {
        lemma_strip_leading_keeps(s.drop_first(), c, x);
        if s.drop_first().contains(x) {
            let k = choose|k: int| 0 <= k < s.drop_first().len() && s.drop_first()[k] == x;
            assert(s[k + 1] == x);
        }
    }
}

proof fn lemma_strip_trailing_keeps(s: Seq<char>, c: char, x: char)
    ensures
        strip_trailing(s, c).contains(x) ==> s.contains(x),
    decreases s.len(),
{
    if s.len() > 0 && s.last() == c {
        lemma_strip_trailing_keeps(s.drop_last(), c, x);
        if s.drop_last().contains(x) {
            let k = choose|k: int| 0 <= k < s.drop_last().len() && s.drop_last()[k] == x;
            assert(s[k] == x);
        }
    }
}

/// A domain that follows the rule has a dot.
proof fn lemma_valid_domain_has_dot(d: Seq<char>)
    requires
        domain_ok(d),
    ensures
        d.contains('.'),
{
    let t = strip_both(d, '.');
    if !t.contains('.') {
        lemma_split_on_without_sep(t, '.');
    }
    lemma_strip_trailing_keeps(strip_leading(d, '.'), '.', '.');
    lemma_strip_leading_keeps(d, '.', '.');
}

/// Non-interactive mode on a domain that is already trimmed and lower-cased:
/// `sub.domain.tld` or `domain.tld`, with the default choices.
pub fn answers_from_domain(domain: &str, user: String) -> (r: Result<Answers, String>)
    ensures
        r is Ok <==> domain_ok(domain@),
        r matches Err(e) ==> e@ == invalid_domain_error(domain@),
        r matches Ok(a) ==> {
            &&& default_choices(a)
            &&& a.server_user == user
            &&& a.subdomain@ == split_site(domain@).0
            &&& a.domain@ == split_site(domain@).1
        },
{
    if !domain_is_valid(domain) {
        let mut e = String::from_str("invalid domain: ");
        e.append(domain);
        e.append(" (expected sub.domain.tld or domain.tld)");
        return Err(e);
    }
    proof {
        lemma_valid_domain_has_dot(domain@);
        lemma_first_index(domain@, '.');
    }
    let n = domain.unicode_len();
    let mut k: usize = 0;
    while k < n && domain.get_char(k) != '.'
        invariant
            n == domain@.len(),
            k <= first_index(domain@, '.'),
            first_index(domain@, '.') < n,
            forall|j: int| 0 <= j < first_index(domain@, '.') ==> domain@[j] != '.',
            domain@[first_index(domain@, '.')] == '.',
        decreases n - k,
    {
        k = k + 1;
    }
    assert(k == first_index(domain@, '.'));
    let first = substring(domain, 0, k);
    let rest = substring(domain, k + 1, n);
    assert(first@ =~= first_label(domain@));
    assert(rest@ =~= after_first_label(domain@));
    let (subdomain, site_domain) = if has_char(rest.as_str(), '.') {
        (first, rest)
    } else {
        (String::new(), domain.to_owned())
    };
    Ok(
        Answers {
            email: String::from_str("hello@ngaw.xyz"),
            server_user: user,
            domain: site_domain,
            subdomain,
            server: Server::Nginx,
            public: true,
            letsencrypt: false,
            nginx_https: true,
            nginx_php: true,
            nginx_logs: true,
            nginx_deny: true,
            docker: false,
            docker_host_port: 0,
            db_mysql: true,
            db_pgsql: false,
        },
    )
}

/// What `str::to_lowercase` gives for a string: the Unicode lowercase
/// mapping, which can turn one character into several and, for a final
/// Greek sigma, depends on the neighbouring characters.
pub uninterp spec fn lowercased(s: Seq<char>) -> Seq<char>;

/// `str::to_lowercase`; the contract only names the result.
#[verifier::external_body]
fn to_lowercase(s: &str) -> (r: String)
    ensures
        r@ == lowercased(s@),
{
    s.to_lowercase()
}

/// A domain answer as the tool reads it: trimmed, then lower-cased.
pub fn normalized_domain(domain: &str) -> (r: String)
    ensures
        r@ == lowercased(trimmed(domain@)),
{
    to_lowercase(trim(domain).as_str())
}

/// Non-interactive mode: `ngaw-domain sub.domain.tld [username]`. The
/// argument is trimmed and lower-cased, then read as `sub.domain.tld` or
/// `domain.tld`; everything else takes the defaults of the prompts.
pub fn answers_from_args(domain: &str, user: String) -> (r: Result<Answers, String>)
    ensures
        r is Ok <==> domain_ok(lowercased(trimmed(domain@))),
        r matches Err(e) ==> e@ == invalid_domain_error(lowercased(trimmed(domain@))),
        r matches Ok(a) ==> {
            &&& default_choices(a)
            &&& a.server_user == user
            &&& a.subdomain@ == split_site(lowercased(trimmed(domain@))).0
            &&& a.domain@ == split_site(lowercased(trimmed(domain@))).1
        },
{
    let lower = normalized_domain(domain);
    answers_from_domain(lower.as_str(), user)
}

/// Label/value rows as plain text.
pub open spec fn pair_texts(v: Seq<(String, String)>) -> Seq<(Seq<char>, Seq<char>)> {
    v.map_values(|p: (String, String)| (p.0@, p.1@))
}

/// Rows `rows` when `c` holds, else none.
pub open spec fn when_rows(c: bool, rows: Seq<(Seq<char>, Seq<char>)>) -> Seq<(Seq<char>, Seq<char>)> {
    if c {
        rows
    } else {
        Seq::empty()
    }
}

/// `s` when `c` holds, else nothing.
pub open spec fn when_text(c: bool, s: Seq<char>) -> Seq<char> {
    if c {
        s
    } else {
        Seq::empty()
    }
}

/// How the server is named in the plan.
pub open spec fn server_label(a: Answers) -> Seq<char> {
    if a.docker {
        "nginx (docker)"@
    } else if a.server == Server::Nginx {
        "nginx"@
    } else {
        "apache"@
    }
}

/// The document root, or a dash for a docker proxy.
pub open spec fn docroot_label(a: Answers) -> Seq<char> {
    if a.docker {
        "\u{2014} (docker proxy)"@
    } else {
        "/var/www/"@ + a.spec_dir()
    }
}

/// Where the certificate comes from.
pub open spec fn ssl_label(a: Answers) -> Seq<char> {
    if a.letsencrypt {
        "Let's Encrypt"@
    } else if a.nginx_https {
        "self-signed"@
    } else {
        "none"@
    }
}

/// The chosen databases, comma-separated, or `none`.
pub open spec fn databases_label(a: Answers) -> Seq<char> {
    if !a.db_mysql && !a.db_pgsql {
        "none"@
    } else {
        when_text(a.db_mysql, "MySQL"@) + when_text(a.db_mysql && a.db_pgsql, ", "@) + when_text(
            a.db_pgsql,
            "PostgreSQL"@,
        )
    }
}

/// The plan summary: domain, server, docroot, SSL, databases, and the
/// backend address of a docker proxy.
pub open spec fn plan_rows(a: Answers) -> Seq<(Seq<char>, Seq<char>)> {
    seq![
        ("Domain"@, a.spec_fqn()),
        ("Server"@, server_label(a)),
        ("Docroot"@, docroot_label(a)),
        ("SSL"@, ssl_label(a)),
        ("Databases"@, databases_label(a)),
    ] + when_rows(a.docker, seq![("Backend"@, "http://127.0.0.1:"@ + decimal(a.docker_host_port as nat))])
}

fn row(label: &str, value: String) -> (r: (String, String))
    ensures
        r.0@ == label@,
        r.1@ == value@,
{
    (label.to_owned(), value)
}

/// The rows of the plan summary shown before anything runs.
pub fn summary_rows(a: &Answers) -> (r: Vec<(String, String)>)
    ensures
        pair_texts(r@) == plan_rows(*a),
{
    let server = if a.docker {
        "nginx (docker)"
    } else if a.server == Server::Nginx {
        "nginx"
    } else {
        "apache"
    };
    let docroot = if a.docker {
        String::from_str("\u{2014} (docker proxy)")
    } else {
        let mut d = String::from_str("/var/www/");
        d.append(a.dir().as_str());
        d
    };
    let ssl = if a.letsencrypt {
        "Let's Encrypt"
    } else if a.nginx_https {
        "self-signed"
    } else {
        "none"
    };
    let mut dbs = String::new();
    if a.db_mysql {
        dbs.append("MySQL");
    }
    if a.db_mysql && a.db_pgsql {
        dbs.append(", ");
    }
    if a.db_pgsql {
        dbs.append("PostgreSQL");
    }
    assert(dbs@ =~= when_text(a.db_mysql, "MySQL"@) + when_text(a.db_mysql && a.db_pgsql, ", "@)
        + when_text(a.db_pgsql, "PostgreSQL"@));
    let databases = if !a.db_mysql && !a.db_pgsql {
        String::from_str("none")
    } else {
        dbs
    };
    let mut rows: Vec<(String, String)> = Vec::new();
    rows.push(row("Domain", a.fqn()));
    rows.push(row("Server", String::from_str(server)));
    rows.push(row("Docroot", docroot));
    rows.push(row("SSL", String::from_str(ssl)));
    rows.push(row("Databases", databases));
    if a.docker {
        let mut backend = String::from_str("http://127.0.0.1:");
        push_decimal(&mut backend, a.docker_host_port as u64);
        rows.push(row("Backend", backend));
    }
    assert(pair_texts(rows@) =~= plan_rows(*a));
    rows
}

/// The commands that import the saved SQL files.
pub open spec fn followups(a: Answers) -> Seq<(Seq<char>, Seq<char>)> {
    let fqn = a.spec_fqn();
    when_rows(a.db_mysql, seq![("Import MySQL SQL"@, "sudo mysql -u root -p < "@ + mysql_path(a, fqn))])
        + when_rows(
        a.db_pgsql,
        seq![("Import PostgreSQL SQL"@, "sudo psql -U postgres -f "@ + pgsql_path(a, fqn))],
    )
}

/// Commands the user must run manually, e.g. importing the generated SQL.
pub fn followup_commands(a: &Answers) -> (r: Vec<(String, String)>)
    ensures
        pair_texts(r@) == followups(*a),
{
    let fqn = a.fqn();
    let mut rows: Vec<(String, String)> = Vec::new();
    if a.db_mysql {
        let mut cmd = String::from_str("sudo mysql -u root -p < /var/www/");
        cmd.append(a.domain.as_str());
        cmd.append("/");
        cmd.append(fqn.as_str());
        cmd.append("-mysql.sql");
        proof {
            reveal_strlit("sudo mysql -u root -p < /var/www/");
            reveal_strlit("sudo mysql -u root -p < ");
            reveal_strlit("/var/www/");
        }
        assert(cmd@ =~= "sudo mysql -u root -p < "@ + mysql_path(*a, fqn@));
        rows.push(row("Import MySQL SQL", cmd));
    }
    if a.db_pgsql {
        let mut cmd = String::from_str("sudo psql -U postgres -f /var/www/");
        cmd.append(a.domain.as_str());
        cmd.append("/");
        cmd.append(fqn.as_str());
        cmd.append("-pgsql.sql");
        proof {
            reveal_strlit("sudo psql -U postgres -f /var/www/");
            reveal_strlit("sudo psql -U postgres -f ");
            reveal_strlit("/var/www/");
        }
        assert(cmd@ =~= "sudo psql -U postgres -f "@ + pgsql_path(*a, fqn@));
        rows.push(row("Import PostgreSQL SQL", cmd));
    }
    assert(pair_texts(rows@) =~= followups(*a));
    rows
}

/// The server menu: `nginx docker` is nginx as a docker proxy, `nginx` is
/// nginx, anything else is apache.
pub fn server_from_label(label: &str) -> (r: (Server, bool))
    ensures
        r == (if label@ == "nginx docker"@ {
            (Server::Nginx, true)
        } else if label@ == "nginx"@ {
            (Server::Nginx, false)
        } else {
            (Server::Apache, false)
        }),
{
    if same_text(label, "nginx docker") {
        (Server::Nginx, true)
    } else if same_text(label, "nginx") {
        (Server::Nginx, false)
    } else {
        (Server::Apache, false)
    }
}

/// Reading a domain argument and naming the site again gives the argument
/// back, unless the argument has three or more labels and starts with a dot
/// (the empty first label is then not taken as a subdomain).
pub proof fn lemma_args_name_round_trip(d: Seq<char>, a: Answers)
    requires
        domain_ok(d),
        a.subdomain@ == split_site(d).0,
        a.domain@ == split_site(d).1,
        first_label(d).len() >= 1 || !after_first_label(d).contains('.'),
    ensures
        a.spec_fqn() == d,
        a.spec_is_implicit_www() == !after_first_label(d).contains('.'),
{
    reveal_strlit(".");
    lemma_valid_domain_has_dot(d);
    lemma_first_index(d, '.');
    let k = first_index(d, '.');
    if after_first_label(d).contains('.') {
        assert(d =~= first_label(d) + "."@ + after_first_label(d));
    } else {
        assert(a.subdomain@.len() == 0);
    }
}

} // verus!
