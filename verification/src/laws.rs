//! Properties of the library that span several of its functions.

use vstd::prelude::*;

use crate::cli::followups;
use crate::config::{domain_labels, domain_ok, Answers, Server};
use crate::execute::joined;
use crate::generate::{
    apache_conf, apache_plan, certbot_plan, database_plan, docroot_plan, finish_plan,
    fluentbit_conf, fluentbit_plan, log_site, mysql_path, mysql_sql, nginx_conf, nginx_plan,
    nginx_deny_block, nginx_listen, nginx_log_lines, nginx_php_block, nginx_redirect_block,
    nginx_ssl_lines, nginx_static_block, ownership_plan, self_signed, server_names, pgsql_path, pgsql_sql, planned_steps, shipping_plan,
    spec_build_steps, under_sudo, vhost_plan, OpenObserve, StepView,
};
use crate::text::{
    split_on, strip_both, strip_leading, strip_prefixes, strip_suffixes, strip_trailing, underscored,
};

verus! {

/// No planned step runs as `runuser`.
pub open spec fn none_runuser(steps: Seq<StepView>) -> bool {
    forall|i: int| 0 <= i < steps.len() ==> #[trigger] steps[i].program != "runuser"@
}

/// Every step that the setup runs goes through `sudo`, with the original
/// program as sudo's first argument, in the planned order.
pub proof fn lemma_every_step_uses_sudo(a: Answers, password: Seq<char>, obs: Option<OpenObserve>)
    ensures
        spec_build_steps(a, password, obs).len() == planned_steps(a, password, obs).len(),
        forall|i: int|
            0 <= i < spec_build_steps(a, password, obs).len() ==> {
                &&& #[trigger] spec_build_steps(a, password, obs)[i].program == "sudo"@
                &&& spec_build_steps(a, password, obs)[i].args == seq![
                    planned_steps(a, password, obs)[i].program,
                ] + planned_steps(a, password, obs)[i].args
            },
{
    let fqn = a.spec_fqn();
    let json = obs is Some;
    let d = docroot_plan(a, fqn);
    let v = vhost_plan(a, fqn, json);
    let sh = shipping_plan(a, fqn, obs);
    let o = ownership_plan(a);
    let c = certbot_plan(a, fqn);
    let db = database_plan(a, fqn, password);
    let f = finish_plan(a);
    lemma_docroot_no_runuser(a, fqn);
    lemma_nginx_no_runuser(a, fqn, json);
    lemma_apache_no_runuser(a, fqn);
    if let Some(ob) = obs {
        lemma_fluentbit_no_runuser(a, fqn, ob);
    }
    lemma_tail_no_runuser(a, fqn, password);
    assert(none_runuser(v));
    assert(none_runuser(sh));
    lemma_none_runuser_concat(d, v);
    lemma_none_runuser_concat(d + v, sh);
    lemma_none_runuser_concat(d + v + sh, o);
    lemma_none_runuser_concat(d + v + sh + o, c);
    lemma_none_runuser_concat(d + v + sh + o + c, db);
    lemma_none_runuser_concat(d + v + sh + o + c + db, f);
    let p = planned_steps(a, password, obs);
    assert(p == d + v + sh + o + c + db + f);
    assert(none_runuser(p));
    assert forall|i: int| 0 <= i < spec_build_steps(a, password, obs).len() implies {
        &&& #[trigger] spec_build_steps(a, password, obs)[i].program == "sudo"@
        &&& spec_build_steps(a, password, obs)[i].args == seq![p[i].program] + p[i].args
    } by {
        assert(p[i].program != "runuser"@);
    }
}

proof fn lemma_docroot_no_runuser(a: Answers, fqn: Seq<char>)
    ensures
        none_runuser(docroot_plan(a, fqn)),
{
    reveal_strlit("runuser");
    reveal_strlit("mkdir");
    reveal_strlit("tee");
    let d = docroot_plan(a, fqn);
    if !a.docker {
        assert(d.len() == 2 && d[0].program == "mkdir"@ && d[1].program == "tee"@);
        assert("mkdir"@.len() != "runuser"@.len() && "tee"@.len() != "runuser"@.len());
        assert(d[0].program != "runuser"@ && d[1].program != "runuser"@);
    }
}

proof fn lemma_nginx_no_runuser(a: Answers, fqn: Seq<char>, json: bool)
    ensures
        none_runuser(nginx_plan(a, fqn, json)),
{
    reveal_strlit("runuser");
    reveal_strlit("tee");
    reveal_strlit("ln");
    reveal_strlit("openssl");
    let n = nginx_plan(a, fqn, json);
    assert(n[0].program == "tee"@ && n[1].program == "ln"@);
    assert("ln"@.len() != "runuser"@.len() && "tee"@.len() != "runuser"@.len());
    assert(n[0].program != "runuser"@ && n[1].program != "runuser"@);
    if n.len() > 2 {
        assert(n.len() == 3 && n[2].program == "openssl"@);
        assert("openssl"@[0] != "runuser"@[0]);
        assert(n[2].program != "runuser"@);
    }
}

proof fn lemma_apache_no_runuser(a: Answers, fqn: Seq<char>)
    ensures
        none_runuser(apache_plan(a, fqn)),
{
    reveal_strlit("runuser");
    reveal_strlit("tee");
    reveal_strlit("a2ensite");
    let n = apache_plan(a, fqn);
    assert(n.len() == 2 && n[0].program == "tee"@ && n[1].program == "a2ensite"@);
    assert("a2ensite"@.len() == 8 && "runuser"@.len() == 7 && "tee"@.len() == 3);
    assert(n[0].program != "runuser"@ && n[1].program != "runuser"@);
}

proof fn lemma_fluentbit_no_runuser(a: Answers, fqn: Seq<char>, obs: OpenObserve)
    ensures
        none_runuser(fluentbit_plan(a, fqn, obs)),
{
    reveal_strlit("runuser");
    reveal_strlit("tee");
    reveal_strlit("systemctl");
    let n = fluentbit_plan(a, fqn, obs);
    assert(n.len() == 2 && n[0].program == "tee"@ && n[1].program == "systemctl"@);
    assert("systemctl"@.len() != "runuser"@.len() && "tee"@.len() != "runuser"@.len());
    assert(n[0].program != "runuser"@ && n[1].program != "runuser"@);
}

proof fn lemma_tail_no_runuser(a: Answers, fqn: Seq<char>, password: Seq<char>)
    ensures
        none_runuser(ownership_plan(a)),
        none_runuser(certbot_plan(a, fqn)),
        none_runuser(database_plan(a, fqn, password)),
        none_runuser(finish_plan(a)),
{
    reveal_strlit("runuser");
    reveal_strlit("chown");
    reveal_strlit("certbot");
    reveal_strlit("mkdir");
    reveal_strlit("tee");
    reveal_strlit("nginx");
    reveal_strlit("service");
    reveal_strlit("apachectl");
    let o = ownership_plan(a);
    if !a.docker {
        assert(o.len() == 1 && o[0].program == "chown"@);
        assert("chown"@.len() != "runuser"@.len());
    }
    let c = certbot_plan(a, fqn);
    if a.letsencrypt {
        assert(c.len() == 1 && c[0].program == "certbot"@);
        assert("certbot"@[0] != "runuser"@[0]);
        assert(c[0].program != "runuser"@);
    }
    let db = database_plan(a, fqn, password);
    assert forall|i: int| 0 <= i < db.len() implies #[trigger] db[i].program == "mkdir"@
        || db[i].program == "tee"@ by {}
    assert("mkdir"@.len() != "runuser"@.len() && "tee"@.len() != "runuser"@.len());
    let f = finish_plan(a);
    assert(f.len() == 2);
    assert("service"@[0] != "runuser"@[0]);
    assert("nginx"@.len() != "runuser"@.len());
    assert("apachectl"@.len() != "runuser"@.len());
    if a.server == Server::Nginx {
        assert(f[0].program == "nginx"@ && f[1].program == "service"@);
    } else {
        assert(f[0].program == "apachectl"@ && f[1].program == "service"@);
    }
    assert(f[0].program != "runuser"@ && f[1].program != "runuser"@);
}

proof fn lemma_none_runuser_concat(x: Seq<StepView>, y: Seq<StepView>)
    requires
        none_runuser(x),
        none_runuser(y),
    ensures
        none_runuser(x + y),
{
    assert forall|i: int| 0 <= i < (x + y).len() implies #[trigger] (x + y)[i].program != "runuser"@ by {
        if i < x.len() {
            assert((x + y)[i] == x[i]);
        } else {
            assert((x + y)[i] == y[i - x.len()]);
        }
    }
}

/// The setup always ends by testing the server configuration and
/// restarting the server.
pub proof fn lemma_ends_with_test_and_restart(a: Answers, password: Seq<char>, obs: Option<OpenObserve>)
    ensures
        planned_steps(a, password, obs).len() >= 2,
        planned_steps(a, password, obs).skip(planned_steps(a, password, obs).len() - 2)
            == finish_plan(a),
{
    let fqn = a.spec_fqn();
    let head = docroot_plan(a, fqn) + vhost_plan(a, fqn, obs is Some) + shipping_plan(a, fqn, obs)
        + ownership_plan(a) + certbot_plan(a, fqn) + database_plan(a, fqn, password);
    let p = planned_steps(a, password, obs);
    assert(p == head + finish_plan(a));
    assert(p.skip(p.len() - 2) =~= finish_plan(a));
}

/// The database name and user hold no `.` or `-`, and the user is the
/// database name followed by `_user`.
pub proof fn lemma_db_identifiers(a: Answers)
    ensures
        forall|i: int|
            0 <= i < a.spec_dbname().len() ==> #[trigger] a.spec_dbname()[i] != '.'
                && a.spec_dbname()[i] != '-',
        a.spec_username() == a.spec_dbname() + "_user"@,
        a.spec_dbname().len() == a.spec_fqn().len(),
{
}

/// The part of the document root that names the site: `www` for a bare
/// domain, else the subdomain.
pub open spec fn site_part(a: Answers) -> Seq<char> {
    if a.spec_is_implicit_www() {
        "www"@
    } else {
        a.subdomain@
    }
}

/// Fluent Bit naming: the site in tags, streams and state files is the
/// subdomain (or `www`) with `.` and `-` turned into `_`, for a non-empty
/// domain that does not start with `/` and a subdomain without `/`.
pub proof fn lemma_log_site_is_sanitized_subdomain(a: Answers)
    requires
        a.domain@.len() > 0,
        a.domain@[0] != '/',
        !a.subdomain@.contains('/'),
    ensures
        log_site(a) == underscored(site_part(a)),
{
    reveal_strlit("/");
    reveal_strlit("www");
    reveal_strlit("/public");
    let d = a.domain@;
    let sp = site_part(a);
    let p: Seq<char> = if a.public { "/public"@ } else { Seq::empty() };
    assert(!sp.contains('/')) by {
        if !a.spec_is_implicit_www() {
            assert(sp == a.subdomain@);
        } else {
            assert(sp =~= seq!['w', 'w', 'w']);
        }
    }
    assert(sp.len() > 0);
    assert(sp[0] != '/' && sp.last() != '/') by {
        assert(sp.contains(sp[0]));
        assert(sp.contains(sp.last()));
    }
    let r = "/"@ + sp + p;
    let dir = a.spec_dir();
    assert(dir == d + "/"@ + sp + p);
    // The domain prefix comes off once, and only once.
    assert(dir.take(d.len() as int) =~= d);
    assert(dir.skip(d.len() as int) =~= r);
    assert(r[0] == '/');
    assert(d.len() <= r.len() ==> r.take(d.len() as int) != d) by {
        if d.len() <= r.len() && r.take(d.len() as int) == d {
            assert(r.take(d.len() as int)[0] == r[0]);
            assert(d[0] == '/');
        }
    }
    assert(strip_prefixes(r, d) == r);
    assert(strip_prefixes(dir, d) == strip_prefixes(r, d));
    assert(strip_prefixes(dir, d) == r);
    // One leading `/`, no trailing one.
    assert(r.drop_first() =~= sp + p);
    assert((sp + p)[0] == sp[0]);
    assert(strip_leading(sp + p, '/') == sp + p);
    assert(strip_leading(r, '/') == sp + p);
    assert((sp + p).last() != '/') by {
        if a.public {
            assert((sp + p).last() == p.last());
        } else {
            assert(sp + p =~= sp);
        }
    }
    assert(strip_trailing(sp + p, '/') == sp + p);
    assert(strip_both(strip_prefixes(dir, d), '/') == sp + p);
    // The `/public` suffix comes off once; the site part has no `/` left.
    let pub_suffix = "/public"@;
    assert(!(pub_suffix.len() <= sp.len() && sp.skip(sp.len() - pub_suffix.len()) == pub_suffix)) by {
        if pub_suffix.len() <= sp.len() && sp.skip(sp.len() - pub_suffix.len()) == pub_suffix {
            assert(pub_suffix[0] == '/');
            assert(sp.skip(sp.len() - pub_suffix.len())[0] == sp[sp.len() - pub_suffix.len()]);
            assert(sp[sp.len() - pub_suffix.len()] == '/');
            assert(sp.contains('/'));
        }
    }
    assert(strip_suffixes(sp, pub_suffix) == sp);
    if a.public {
        assert((sp + p).skip((sp + p).len() - pub_suffix.len()) =~= pub_suffix);
        assert((sp + p).take((sp + p).len() - pub_suffix.len()) =~= sp);
    } else {
        assert(sp + p =~= sp);
    }
    assert(strip_suffixes(sp + p, pub_suffix) == sp);
}

/// The follow-up import commands read the SQL files that the setup saves:
/// with MySQL chosen a step tees the MySQL script to `mysql_path`, and the
/// first follow-up imports that path; likewise for PostgreSQL.
pub proof fn lemma_followups_import_saved_sql(a: Answers, password: Seq<char>, obs: Option<OpenObserve>)
    ensures
        a.db_mysql ==> exists|i: int|
            0 <= i < planned_steps(a, password, obs).len() && #[trigger] planned_steps(
                a,
                password,
                obs,
            )[i].args == seq![mysql_path(a, a.spec_fqn())] && planned_steps(a, password, obs)[i].stdin
                == Some(mysql_sql(a, password)),
        a.db_mysql ==> followups(a)[0].1 == "sudo mysql -u root -p < "@ + mysql_path(a, a.spec_fqn()),
        a.db_pgsql ==> exists|i: int|
            0 <= i < planned_steps(a, password, obs).len() && #[trigger] planned_steps(
                a,
                password,
                obs,
            )[i].args == seq![pgsql_path(a, a.spec_fqn())] && planned_steps(a, password, obs)[i].stdin
                == Some(pgsql_sql(a, password)),
        a.db_pgsql ==> followups(a)[followups(a).len() - 1].1 == "sudo psql -U postgres -f "@
            + pgsql_path(a, a.spec_fqn()),
{
    let fqn = a.spec_fqn();
    let head = docroot_plan(a, fqn) + vhost_plan(a, fqn, obs is Some) + shipping_plan(a, fqn, obs)
        + ownership_plan(a) + certbot_plan(a, fqn);
    let db = database_plan(a, fqn, password);
    let p = planned_steps(a, password, obs);
    assert(p == head + db + finish_plan(a));
    if a.db_mysql {
        let i: int = head.len() as int + 1;
        assert(db[1].args == seq![mysql_path(a, fqn)]);
        assert(p[i] == db[1]);
    }
    if a.db_pgsql {
        let j: int = head.len() as int + 1 + if a.db_mysql { 1int } else { 0int };
        let k = j - head.len();
        assert(db[k].args == seq![pgsql_path(a, fqn)]);
        assert(p[j] == db[k]);
    }
}

/// `t` occurs in `s` as one contiguous piece.
pub open spec fn has_text(s: Seq<char>, t: Seq<char>) -> bool {
    exists|i: int| 0 <= i && i + t.len() <= s.len() && #[trigger] s.subrange(i, i + t.len()) == t
}

/// The step runs `sudo tee` on `target` and feeds it a text that holds `t`.
pub open spec fn writes(s: StepView, target: Seq<Seq<char>>, t: Seq<char>) -> bool {
    &&& s.program == "sudo"@
    &&& s.args == seq!["tee"@] + target
    &&& s.stdin matches Some(c) && has_text(c, t)
}

proof fn lemma_has_text(x: Seq<char>, t: Seq<char>, y: Seq<char>)
    ensures
        has_text(x + t + y, t),
{
    let s = x + t + y;
    let i = x.len() as int;
    assert(s.subrange(i, i + t.len()) =~= t);
}

/// Position `d.len() + k` of the seven plan parts holds `v[k]`.
proof fn lemma_part_index(
    d: Seq<StepView>,
    v: Seq<StepView>,
    sh: Seq<StepView>,
    o: Seq<StepView>,
    c: Seq<StepView>,
    db: Seq<StepView>,
    f: Seq<StepView>,
    k: int,
)
    requires
        0 <= k < v.len(),
    ensures
        d.len() + k < (d + v + sh + o + c + db + f).len(),
        (d + v + sh + o + c + db + f)[d.len() + k] == v[k],
{
    let i = d.len() + k;
    assert((d + v)[i] == v[k]);
    assert((d + v + sh)[i] == v[k]);
    assert((d + v + sh + o)[i] == v[k]);
    assert((d + v + sh + o + c)[i] == v[k]);
    assert((d + v + sh + o + c + db)[i] == v[k]);
}

/// A planned step other than `runuser` runs through `sudo`.
proof fn lemma_sudo_step(a: Answers, password: Seq<char>, obs: Option<OpenObserve>, i: int)
    requires
        0 <= i < planned_steps(a, password, obs).len(),
        planned_steps(a, password, obs)[i].program != "runuser"@,
    ensures
        i < spec_build_steps(a, password, obs).len(),
        spec_build_steps(a, password, obs)[i].program == "sudo"@,
        spec_build_steps(a, password, obs)[i].args == seq![planned_steps(a, password, obs)[i].program]
            + planned_steps(a, password, obs)[i].args,
        spec_build_steps(a, password, obs)[i].stdin == planned_steps(a, password, obs)[i].stdin,
{
}

/// The vhost configuration step comes right after the document-root steps.
proof fn lemma_vhost_step(a: Answers, password: Seq<char>, obs: Option<OpenObserve>)
    ensures
        ({
            let k: int = if a.docker { 0 } else { 2 };
            let v = vhost_plan(a, a.spec_fqn(), obs is Some)[0];
            &&& 0 <= k < spec_build_steps(a, password, obs).len()
            &&& spec_build_steps(a, password, obs)[k].program == "sudo"@
            &&& spec_build_steps(a, password, obs)[k].args == seq!["tee"@] + v.args
            &&& spec_build_steps(a, password, obs)[k].stdin == v.stdin
        }),
{
    reveal_strlit("tee");
    reveal_strlit("runuser");
    let fqn = a.spec_fqn();
    let d = docroot_plan(a, fqn);
    let v = vhost_plan(a, fqn, obs is Some);
    let k: int = if a.docker { 0 } else { 2 };
    assert(d.len() == k);
    assert(v.len() >= 2);
    assert(v[0].program == "tee"@);
    lemma_part_index(
        d,
        v,
        shipping_plan(a, fqn, obs),
        ownership_plan(a),
        certbot_plan(a, fqn),
        database_plan(a, fqn, password),
        finish_plan(a),
        0,
    );
    assert(planned_steps(a, password, obs)[k] == v[0]);
    assert("tee"@.len() != "runuser"@.len());
    lemma_sudo_step(a, password, obs, k);
}

proof fn lemma_has_text_prepend(x: Seq<char>, s: Seq<char>, t: Seq<char>)
    requires
        has_text(s, t),
    ensures
        has_text(x + s, t),
{
    let i = choose|i: int| 0 <= i && i + t.len() <= s.len() && #[trigger] s.subrange(i, i + t.len()) == t;
    let j = i + x.len();
    assert((x + s).subrange(j, j + t.len()) =~= s.subrange(i, i + t.len()));
}

proof fn lemma_has_text_append(s: Seq<char>, y: Seq<char>, t: Seq<char>)
    requires
        has_text(s, t),
    ensures
        has_text(s + y, t),
{
    let i = choose|i: int| 0 <= i && i + t.len() <= s.len() && #[trigger] s.subrange(i, i + t.len()) == t;
    assert((s + y).subrange(i, i + t.len()) =~= s.subrange(i, i + t.len()));
}

/// The `location /` block of a static site, with its fallback.
pub open spec fn location_root_block(php: bool) -> Seq<char> {
    if php {
        "\n    location / {\n        try_files $uri $uri/ /index.php?$query_string;\n    }\n"@
    } else {
        "\n    location / {\n        try_files $uri $uri/ =404;\n    }\n"@
    }
}

#[verifier::spinoff_prover]
#[verifier::rlimit(40)]
proof fn lemma_static_location(a: Answers)
    ensures
        has_text(nginx_static_block(a), location_root_block(a.nginx_php)),
{
    reveal_strlit("index.html index.htm;\n\n    location / {\n");
    reveal_strlit("index.html index.htm;\n");
    reveal_strlit("\n    location / {\n");
    reveal_strlit("\n    location / {\n        try_files $uri $uri/ /index.php?$query_string;\n    }\n");
    reveal_strlit("\n    location / {\n        try_files $uri $uri/ =404;\n    }\n");
    reveal_strlit("        try_files $uri $uri/ /index.php?$query_string;\n");
    reveal_strlit("        try_files $uri $uri/ =404;\n");
    reveal_strlit("    }\n");
    let try_line = if a.nginx_php {
        "        try_files $uri $uri/ /index.php?$query_string;\n"@
    } else {
        "        try_files $uri $uri/ =404;\n"@
    };
    let t = "\n    location / {\n"@ + try_line + "    }\n"@;
    assert(t =~= location_root_block(a.nginx_php));
    assert("index.html index.htm;\n\n    location / {\n"@ =~= "index.html index.htm;\n"@ + "\n    location / {\n"@);
    let x = "    root /var/www/"@ + a.spec_dir() + ";\n    index "@ + crate::generate::when(a.nginx_php, "index.php "@)
        + "index.html index.htm;\n"@;
    let y = crate::generate::when(a.nginx_php, nginx_php_block()) + crate::generate::when(a.nginx_deny, nginx_deny_block());
    assert(nginx_static_block(a) =~= x + t + y);
    lemma_has_text(x, t, y);
}

proof fn lemma_conf_has_static(a: Answers, fqn: Seq<char>, json: bool, t: Seq<char>)
    requires
        !a.docker,
        has_text(nginx_static_block(a), t),
    ensures
        has_text(nginx_conf(a, fqn, json), t),
{
    let names = server_names(a, fqn);
    let p = crate::generate::when(a.nginx_https, nginx_redirect_block(names)) + "server {\n"@ + nginx_listen(a.nginx_https)
        + "    server_name "@ + names + ";\n\n"@ + crate::generate::when(self_signed(a), nginx_ssl_lines(fqn));
    let st = nginx_static_block(a);
    lemma_has_text_prepend(p, st, t);
    lemma_has_text_append(p + st, crate::generate::when(a.nginx_logs, nginx_log_lines(fqn, json)), t);
    lemma_has_text_append(p + st + crate::generate::when(a.nginx_logs, nginx_log_lines(fqn, json)), "}\n"@, t);
    assert(nginx_conf(a, fqn, json) == p + st + crate::generate::when(a.nginx_logs, nginx_log_lines(fqn, json)) + "}\n"@);
}

/// On nginx without a docker proxy, the vhost's `location /` block falls
/// back to the PHP front controller when PHP is on, and answers 404 for a
/// missing file when it is off.
#[verifier::spinoff_prover]
#[verifier::rlimit(40)]
pub proof fn lemma_nginx_location_fallback(a: Answers, password: Seq<char>, obs: Option<OpenObserve>)
    requires
        a.server == Server::Nginx,
        !a.docker,
    ensures
        exists|i: int|
            0 <= i < spec_build_steps(a, password, obs).len() && writes(
                #[trigger] spec_build_steps(a, password, obs)[i],
                seq!["/etc/nginx/sites-available/"@ + a.spec_fqn() + ".conf"@],
                if a.nginx_php {
                    "\n    location / {\n        try_files $uri $uri/ /index.php?$query_string;\n    }\n"@
                } else {
                    "\n    location / {\n        try_files $uri $uri/ =404;\n    }\n"@
                },
            ),
{
    let fqn = a.spec_fqn();
    lemma_vhost_step(a, password, obs);
    lemma_static_location(a);
    lemma_conf_has_static(a, fqn, obs is Some, location_root_block(a.nginx_php));
    let k: int = 2;
    assert(writes(
        spec_build_steps(a, password, obs)[k],
        seq!["/etc/nginx/sites-available/"@ + fqn + ".conf"@],
        location_root_block(a.nginx_php),
    ));
}

/// The Fluent Bit text holds the access input block's naming lines.
#[verifier::spinoff_prover]
#[verifier::rlimit(40)]
proof fn lemma_fluentbit_access_input(fqn: Seq<char>, site: Seq<char>, obs: OpenObserve)
    ensures
        has_text(fluentbit_conf(fqn, site, obs), "\n    Path              /var/log/nginx/"@ + fqn
            + ".access.log\n    Parser            json\n    Tag               "@ + site
            + ".access\n"@),
{
    reveal_strlit("    Skip_Long_Lines   On\n    Read_From_Head    Off\n    DB                /var/lib/fluent-bit/");
    reveal_strlit(".access.log\n    Parser            json\n    Tag               ");
    reveal_strlit(".access\n    Skip_Long_Lines   On\n    Read_From_Head    Off\n    DB                /var/lib/fluent-bit/");
    reveal_strlit(".access\n");
    reveal_strlit("\n    Path              /var/log/nginx/");
    reveal_strlit("\n[INPUT]\n    Name              tail");
    reveal_strlit("\n[INPUT]\n    Name              tail\n    Path              /var/log/nginx/");
    let q0 = "\n[INPUT]\n    Name              tail\n    Path              /var/log/nginx/"@;
    let q1 = q0 + fqn;
    let q2 = q1 + ".access.log\n    Parser            json\n    Tag               "@;
    let q3 = q2 + site;
    let q4 = q3
        + ".access\n    Skip_Long_Lines   On\n    Read_From_Head    Off\n    DB                /var/lib/fluent-bit/"@;
    let q5 = q4 + site;
    let q6 = q5
        + "-access.db\n\n[INPUT]\n    Name              tail\n    Path              /var/log/nginx/"@;
    let q7 = q6 + fqn;
    let q8 = q7 + ".error.log\n    Parser            nginx_error\n    Tag               "@;
    let q9 = q8 + site;
    let q10 = q9
        + ".error\n    Skip_Long_Lines   On\n    Read_From_Head    Off\n    DB                /var/lib/fluent-bit/"@;
    let q11 = q10 + site;
    let q12 = q11 + "-error.db\n\n[OUTPUT]\n    Name              http\n    Match             "@;
    let q13 = q12 + site;
    let q14 = q13 + ".access\n    Host              "@;
    let q15 = q14 + obs.host@;
    let q16 = q15 + "\n    Port              "@;
    let q17 = q16 + obs.port@;
    let q18 = q17 + "\n    URI               /api/default/"@;
    let q19 = q18 + site;
    let q20 = q19 + "/_json\n    Format            json\n    HTTP_User         "@;
    let q21 = q20 + obs.user@;
    let q22 = q21 + "\n    HTTP_Passwd       "@;
    let q23 = q22 + obs.passwd@;
    let q24 = q23
        + "\n    tls               off\n\n[OUTPUT]\n    Name              http\n    Match             "@;
    let q25 = q24 + site;
    let q26 = q25 + ".error\n    Host              "@;
    let q27 = q26 + obs.host@;
    let q28 = q27 + "\n    Port              "@;
    let q29 = q28 + obs.port@;
    let q30 = q29 + "\n    URI               /api/default/"@;
    let q31 = q30 + site;
    let q32 = q31 + "_error/_json\n    Format            json\n    HTTP_User         "@;
    let q33 = q32 + obs.user@;
    let q34 = q33 + "\n    HTTP_Passwd       "@;
    let q35 = q34 + obs.passwd@;
    let q36 = q35 + "\n    tls               off\n"@;
    let x = "\n[INPUT]\n    Name              tail"@;
    let t = "\n    Path              /var/log/nginx/"@ + fqn
        + ".access.log\n    Parser            json\n    Tag               "@ + site + ".access\n"@;
    let y = "    Skip_Long_Lines   On\n    Read_From_Head    Off\n    DB                /var/lib/fluent-bit/"@;
    assert(q4 =~= x + t + y);
    lemma_has_text(x, t, y);
    lemma_has_text_append(q4, site, t);
    lemma_has_text_append(q5, "-access.db\n\n[INPUT]\n    Name              tail\n    Path              /var/log/nginx/"@, t);
    lemma_has_text_append(q6, fqn, t);
    lemma_has_text_append(q7, ".error.log\n    Parser            nginx_error\n    Tag               "@, t);
    lemma_has_text_append(q8, site, t);
    lemma_has_text_append(q9, ".error\n    Skip_Long_Lines   On\n    Read_From_Head    Off\n    DB                /var/lib/fluent-bit/"@, t);
    lemma_has_text_append(q10, site, t);
    lemma_has_text_append(q11, "-error.db\n\n[OUTPUT]\n    Name              http\n    Match             "@, t);
    lemma_has_text_append(q12, site, t);
    lemma_has_text_append(q13, ".access\n    Host              "@, t);
    lemma_has_text_append(q14, obs.host@, t);
    lemma_has_text_append(q15, "\n    Port              "@, t);
    lemma_has_text_append(q16, obs.port@, t);
    lemma_has_text_append(q17, "\n    URI               /api/default/"@, t);
    lemma_has_text_append(q18, site, t);
    lemma_has_text_append(q19, "/_json\n    Format            json\n    HTTP_User         "@, t);
    lemma_has_text_append(q20, obs.user@, t);
    lemma_has_text_append(q21, "\n    HTTP_Passwd       "@, t);
    lemma_has_text_append(q22, obs.passwd@, t);
    lemma_has_text_append(q23, "\n    tls               off\n\n[OUTPUT]\n    Name              http\n    Match             "@, t);
    lemma_has_text_append(q24, site, t);
    lemma_has_text_append(q25, ".error\n    Host              "@, t);
    lemma_has_text_append(q26, obs.host@, t);
    lemma_has_text_append(q27, "\n    Port              "@, t);
    lemma_has_text_append(q28, obs.port@, t);
    lemma_has_text_append(q29, "\n    URI               /api/default/"@, t);
    lemma_has_text_append(q30, site, t);
    lemma_has_text_append(q31, "_error/_json\n    Format            json\n    HTTP_User         "@, t);
    lemma_has_text_append(q32, obs.user@, t);
    lemma_has_text_append(q33, "\n    HTTP_Passwd       "@, t);
    lemma_has_text_append(q34, obs.passwd@, t);
    lemma_has_text_append(q35, "\n    tls               off\n"@, t);
    assert(fluentbit_conf(fqn, site, obs) == q36);
}

/// The Fluent Bit text holds the error input block's naming lines.
#[verifier::spinoff_prover]
#[verifier::rlimit(40)]
proof fn lemma_fluentbit_error_input(fqn: Seq<char>, site: Seq<char>, obs: OpenObserve)
    ensures
        has_text(fluentbit_conf(fqn, site, obs), "\n    Path              /var/log/nginx/"@ + fqn
            + ".error.log\n    Parser            nginx_error\n    Tag               "@ + site
            + ".error\n"@),
{
    reveal_strlit("    Skip_Long_Lines   On\n    Read_From_Head    Off\n    DB                /var/lib/fluent-bit/");
    reveal_strlit("-access.db\n\n[INPUT]\n    Name              tail");
    reveal_strlit("-access.db\n\n[INPUT]\n    Name              tail\n    Path              /var/log/nginx/");
    reveal_strlit(".error.log\n    Parser            nginx_error\n    Tag               ");
    reveal_strlit(".error\n    Skip_Long_Lines   On\n    Read_From_Head    Off\n    DB                /var/lib/fluent-bit/");
    reveal_strlit(".error\n");
    reveal_strlit("\n    Path              /var/log/nginx/");
    let q0 = "\n[INPUT]\n    Name              tail\n    Path              /var/log/nginx/"@;
    let q1 = q0 + fqn;
    let q2 = q1 + ".access.log\n    Parser            json\n    Tag               "@;
    let q3 = q2 + site;
    let q4 = q3
        + ".access\n    Skip_Long_Lines   On\n    Read_From_Head    Off\n    DB                /var/lib/fluent-bit/"@;
    let q5 = q4 + site;
    let q6 = q5
        + "-access.db\n\n[INPUT]\n    Name              tail\n    Path              /var/log/nginx/"@;
    let q7 = q6 + fqn;
    let q8 = q7 + ".error.log\n    Parser            nginx_error\n    Tag               "@;
    let q9 = q8 + site;
    let q10 = q9
        + ".error\n    Skip_Long_Lines   On\n    Read_From_Head    Off\n    DB                /var/lib/fluent-bit/"@;
    let q11 = q10 + site;
    let q12 = q11 + "-error.db\n\n[OUTPUT]\n    Name              http\n    Match             "@;
    let q13 = q12 + site;
    let q14 = q13 + ".access\n    Host              "@;
    let q15 = q14 + obs.host@;
    let q16 = q15 + "\n    Port              "@;
    let q17 = q16 + obs.port@;
    let q18 = q17 + "\n    URI               /api/default/"@;
    let q19 = q18 + site;
    let q20 = q19 + "/_json\n    Format            json\n    HTTP_User         "@;
    let q21 = q20 + obs.user@;
    let q22 = q21 + "\n    HTTP_Passwd       "@;
    let q23 = q22 + obs.passwd@;
    let q24 = q23
        + "\n    tls               off\n\n[OUTPUT]\n    Name              http\n    Match             "@;
    let q25 = q24 + site;
    let q26 = q25 + ".error\n    Host              "@;
    let q27 = q26 + obs.host@;
    let q28 = q27 + "\n    Port              "@;
    let q29 = q28 + obs.port@;
    let q30 = q29 + "\n    URI               /api/default/"@;
    let q31 = q30 + site;
    let q32 = q31 + "_error/_json\n    Format            json\n    HTTP_User         "@;
    let q33 = q32 + obs.user@;
    let q34 = q33 + "\n    HTTP_Passwd       "@;
    let q35 = q34 + obs.passwd@;
    let q36 = q35 + "\n    tls               off\n"@;
    let x = q5 + "-access.db\n\n[INPUT]\n    Name              tail"@;
    let t = "\n    Path              /var/log/nginx/"@ + fqn
        + ".error.log\n    Parser            nginx_error\n    Tag               "@ + site
        + ".error\n"@;
    let y = "    Skip_Long_Lines   On\n    Read_From_Head    Off\n    DB                /var/lib/fluent-bit/"@;
    assert(q10 =~= x + t + y);
    lemma_has_text(x, t, y);
    lemma_has_text_append(q10, site, t);
    lemma_has_text_append(q11, "-error.db\n\n[OUTPUT]\n    Name              http\n    Match             "@, t);
    lemma_has_text_append(q12, site, t);
    lemma_has_text_append(q13, ".access\n    Host              "@, t);
    lemma_has_text_append(q14, obs.host@, t);
    lemma_has_text_append(q15, "\n    Port              "@, t);
    lemma_has_text_append(q16, obs.port@, t);
    lemma_has_text_append(q17, "\n    URI               /api/default/"@, t);
    lemma_has_text_append(q18, site, t);
    lemma_has_text_append(q19, "/_json\n    Format            json\n    HTTP_User         "@, t);
    lemma_has_text_append(q20, obs.user@, t);
    lemma_has_text_append(q21, "\n    HTTP_Passwd       "@, t);
    lemma_has_text_append(q22, obs.passwd@, t);
    lemma_has_text_append(q23, "\n    tls               off\n\n[OUTPUT]\n    Name              http\n    Match             "@, t);
    lemma_has_text_append(q24, site, t);
    lemma_has_text_append(q25, ".error\n    Host              "@, t);
    lemma_has_text_append(q26, obs.host@, t);
    lemma_has_text_append(q27, "\n    Port              "@, t);
    lemma_has_text_append(q28, obs.port@, t);
    lemma_has_text_append(q29, "\n    URI               /api/default/"@, t);
    lemma_has_text_append(q30, site, t);
    lemma_has_text_append(q31, "_error/_json\n    Format            json\n    HTTP_User         "@, t);
    lemma_has_text_append(q32, obs.user@, t);
    lemma_has_text_append(q33, "\n    HTTP_Passwd       "@, t);
    lemma_has_text_append(q34, obs.passwd@, t);
    lemma_has_text_append(q35, "\n    tls               off\n"@, t);
    assert(fluentbit_conf(fqn, site, obs) == q36);
}

/// The Fluent Bit text holds the access output block's naming lines.
#[verifier::spinoff_prover]
#[verifier::rlimit(40)]
proof fn lemma_fluentbit_access_output(fqn: Seq<char>, site: Seq<char>, obs: OpenObserve)
    ensures
        has_text(fluentbit_conf(fqn, site, obs), "\n    Match             "@ + site
            + ".access\n    Host              "@ + obs.host@ + "\n    Port              "@
            + obs.port@ + "\n    URI               /api/default/"@ + site + "/_json\n"@),
{
    reveal_strlit("    Format            json\n    HTTP_User         ");
    reveal_strlit("-error.db\n\n[OUTPUT]\n    Name              http");
    reveal_strlit("-error.db\n\n[OUTPUT]\n    Name              http\n    Match             ");
    reveal_strlit(".access\n    Host              ");
    reveal_strlit("/_json\n    Format            json\n    HTTP_User         ");
    reveal_strlit("/_json\n");
    reveal_strlit("\n    Match             ");
    reveal_strlit("\n    Port              ");
    reveal_strlit("\n    URI               /api/default/");
    let q0 = "\n[INPUT]\n    Name              tail\n    Path              /var/log/nginx/"@;
    let q1 = q0 + fqn;
    let q2 = q1 + ".access.log\n    Parser            json\n    Tag               "@;
    let q3 = q2 + site;
    let q4 = q3
        + ".access\n    Skip_Long_Lines   On\n    Read_From_Head    Off\n    DB                /var/lib/fluent-bit/"@;
    let q5 = q4 + site;
    let q6 = q5
        + "-access.db\n\n[INPUT]\n    Name              tail\n    Path              /var/log/nginx/"@;
    let q7 = q6 + fqn;
    let q8 = q7 + ".error.log\n    Parser            nginx_error\n    Tag               "@;
    let q9 = q8 + site;
    let q10 = q9
        + ".error\n    Skip_Long_Lines   On\n    Read_From_Head    Off\n    DB                /var/lib/fluent-bit/"@;
    let q11 = q10 + site;
    let q12 = q11 + "-error.db\n\n[OUTPUT]\n    Name              http\n    Match             "@;
    let q13 = q12 + site;
    let q14 = q13 + ".access\n    Host              "@;
    let q15 = q14 + obs.host@;
    let q16 = q15 + "\n    Port              "@;
    let q17 = q16 + obs.port@;
    let q18 = q17 + "\n    URI               /api/default/"@;
    let q19 = q18 + site;
    let q20 = q19 + "/_json\n    Format            json\n    HTTP_User         "@;
    let q21 = q20 + obs.user@;
    let q22 = q21 + "\n    HTTP_Passwd       "@;
    let q23 = q22 + obs.passwd@;
    let q24 = q23
        + "\n    tls               off\n\n[OUTPUT]\n    Name              http\n    Match             "@;
    let q25 = q24 + site;
    let q26 = q25 + ".error\n    Host              "@;
    let q27 = q26 + obs.host@;
    let q28 = q27 + "\n    Port              "@;
    let q29 = q28 + obs.port@;
    let q30 = q29 + "\n    URI               /api/default/"@;
    let q31 = q30 + site;
    let q32 = q31 + "_error/_json\n    Format            json\n    HTTP_User         "@;
    let q33 = q32 + obs.user@;
    let q34 = q33 + "\n    HTTP_Passwd       "@;
    let q35 = q34 + obs.passwd@;
    let q36 = q35 + "\n    tls               off\n"@;
    let x = q11 + "-error.db\n\n[OUTPUT]\n    Name              http"@;
    let t = "\n    Match             "@ + site + ".access\n    Host              "@ + obs.host@
        + "\n    Port              "@ + obs.port@ + "\n    URI               /api/default/"@ + site
        + "/_json\n"@;
    let y = "    Format            json\n    HTTP_User         "@;
    assert(q20 =~= x + t + y);
    lemma_has_text(x, t, y);
    lemma_has_text_append(q20, obs.user@, t);
    lemma_has_text_append(q21, "\n    HTTP_Passwd       "@, t);
    lemma_has_text_append(q22, obs.passwd@, t);
    lemma_has_text_append(q23, "\n    tls               off\n\n[OUTPUT]\n    Name              http\n    Match             "@, t);
    lemma_has_text_append(q24, site, t);
    lemma_has_text_append(q25, ".error\n    Host              "@, t);
    lemma_has_text_append(q26, obs.host@, t);
    lemma_has_text_append(q27, "\n    Port              "@, t);
    lemma_has_text_append(q28, obs.port@, t);
    lemma_has_text_append(q29, "\n    URI               /api/default/"@, t);
    lemma_has_text_append(q30, site, t);
    lemma_has_text_append(q31, "_error/_json\n    Format            json\n    HTTP_User         "@, t);
    lemma_has_text_append(q32, obs.user@, t);
    lemma_has_text_append(q33, "\n    HTTP_Passwd       "@, t);
    lemma_has_text_append(q34, obs.passwd@, t);
    lemma_has_text_append(q35, "\n    tls               off\n"@, t);
    assert(fluentbit_conf(fqn, site, obs) == q36);
}

/// The Fluent Bit text holds the error output block's naming lines.
#[verifier::spinoff_prover]
#[verifier::rlimit(40)]
proof fn lemma_fluentbit_error_output(fqn: Seq<char>, site: Seq<char>, obs: OpenObserve)
    ensures
        has_text(fluentbit_conf(fqn, site, obs), "\n    Match             "@ + site
            + ".error\n    Host              "@ + obs.host@ + "\n    Port              "@
            + obs.port@ + "\n    URI               /api/default/"@ + site + "_error/_json\n"@),
{
    reveal_strlit("    Format            json\n    HTTP_User         ");
    reveal_strlit(".error\n    Host              ");
    reveal_strlit("\n    Match             ");
    reveal_strlit("\n    Port              ");
    reveal_strlit("\n    URI               /api/default/");
    reveal_strlit("\n    tls               off\n\n[OUTPUT]\n    Name              http");
    reveal_strlit("\n    tls               off\n\n[OUTPUT]\n    Name              http\n    Match             ");
    reveal_strlit("_error/_json\n    Format            json\n    HTTP_User         ");
    reveal_strlit("_error/_json\n");
    let q0 = "\n[INPUT]\n    Name              tail\n    Path              /var/log/nginx/"@;
    let q1 = q0 + fqn;
    let q2 = q1 + ".access.log\n    Parser            json\n    Tag               "@;
    let q3 = q2 + site;
    let q4 = q3
        + ".access\n    Skip_Long_Lines   On\n    Read_From_Head    Off\n    DB                /var/lib/fluent-bit/"@;
    let q5 = q4 + site;
    let q6 = q5
        + "-access.db\n\n[INPUT]\n    Name              tail\n    Path              /var/log/nginx/"@;
    let q7 = q6 + fqn;
    let q8 = q7 + ".error.log\n    Parser            nginx_error\n    Tag               "@;
    let q9 = q8 + site;
    let q10 = q9
        + ".error\n    Skip_Long_Lines   On\n    Read_From_Head    Off\n    DB                /var/lib/fluent-bit/"@;
    let q11 = q10 + site;
    let q12 = q11 + "-error.db\n\n[OUTPUT]\n    Name              http\n    Match             "@;
    let q13 = q12 + site;
    let q14 = q13 + ".access\n    Host              "@;
    let q15 = q14 + obs.host@;
    let q16 = q15 + "\n    Port              "@;
    let q17 = q16 + obs.port@;
    let q18 = q17 + "\n    URI               /api/default/"@;
    let q19 = q18 + site;
    let q20 = q19 + "/_json\n    Format            json\n    HTTP_User         "@;
    let q21 = q20 + obs.user@;
    let q22 = q21 + "\n    HTTP_Passwd       "@;
    let q23 = q22 + obs.passwd@;
    let q24 = q23
        + "\n    tls               off\n\n[OUTPUT]\n    Name              http\n    Match             "@;
    let q25 = q24 + site;
    let q26 = q25 + ".error\n    Host              "@;
    let q27 = q26 + obs.host@;
    let q28 = q27 + "\n    Port              "@;
    let q29 = q28 + obs.port@;
    let q30 = q29 + "\n    URI               /api/default/"@;
    let q31 = q30 + site;
    let q32 = q31 + "_error/_json\n    Format            json\n    HTTP_User         "@;
    let q33 = q32 + obs.user@;
    let q34 = q33 + "\n    HTTP_Passwd       "@;
    let q35 = q34 + obs.passwd@;
    let q36 = q35 + "\n    tls               off\n"@;
    let x = q23 + "\n    tls               off\n\n[OUTPUT]\n    Name              http"@;
    let t = "\n    Match             "@ + site + ".error\n    Host              "@ + obs.host@
        + "\n    Port              "@ + obs.port@ + "\n    URI               /api/default/"@ + site
        + "_error/_json\n"@;
    let y = "    Format            json\n    HTTP_User         "@;
    assert(q32 =~= x + t + y);
    lemma_has_text(x, t, y);
    lemma_has_text_append(q32, obs.user@, t);
    lemma_has_text_append(q33, "\n    HTTP_Passwd       "@, t);
    lemma_has_text_append(q34, obs.passwd@, t);
    lemma_has_text_append(q35, "\n    tls               off\n"@, t);
    assert(fluentbit_conf(fqn, site, obs) == q36);
}

/// Position `d.len() + v.len() + k` of the seven plan parts holds `sh[k]`.
proof fn lemma_third_part_index(
    d: Seq<StepView>,
    v: Seq<StepView>,
    sh: Seq<StepView>,
    o: Seq<StepView>,
    c: Seq<StepView>,
    db: Seq<StepView>,
    f: Seq<StepView>,
    k: int,
)
    requires
        0 <= k < sh.len(),
    ensures
        d.len() + v.len() + k < (d + v + sh + o + c + db + f).len(),
        (d + v + sh + o + c + db + f)[d.len() + v.len() + k] == sh[k],
{
    let i = d.len() + v.len() + k;
    assert((d + v + sh)[i] == sh[k]);
    assert((d + v + sh + o)[i] == sh[k]);
    assert((d + v + sh + o + c)[i] == sh[k]);
    assert((d + v + sh + o + c + db)[i] == sh[k]);
}

/// The log lines of an nginx vhost whose access log is shipped as JSON.
#[verifier::spinoff_prover]
#[verifier::rlimit(40)]
proof fn lemma_nginx_log_lines(a: Answers, fqn: Seq<char>)
    requires
        a.nginx_logs,
    ensures
        has_text(
            nginx_conf(a, fqn, true),
            "\n    access_log /var/log/nginx/"@ + fqn + ".access.log json_logs;\n    error_log /var/log/nginx/"@
                + fqn + ".error.log;\n"@,
        ),
{
    reveal_strlit(".access.log json_logs;\n    error_log /var/log/nginx/");
    reveal_strlit(".access.log");
    reveal_strlit(" json_logs");
    reveal_strlit(";\n    error_log /var/log/nginx/");
    let t = "\n    access_log /var/log/nginx/"@ + fqn + ".access.log json_logs;\n    error_log /var/log/nginx/"@
        + fqn + ".error.log;\n"@;
    assert(nginx_log_lines(fqn, true) =~= t);
    let names = server_names(a, fqn);
    let p = crate::generate::when(a.nginx_https, nginx_redirect_block(names)) + "server {\n"@
        + nginx_listen(a.nginx_https) + "    server_name "@ + names + ";\n\n"@
        + crate::generate::when(self_signed(a), nginx_ssl_lines(fqn)) + (if a.docker {
        crate::generate::nginx_proxy_block(a.docker_host_port)
    } else {
        nginx_static_block(a)
    });
    lemma_has_text(p, t, "}\n"@);
    assert(nginx_conf(a, fqn, true) == p + t + "}\n"@);
}

/// The vhost step writes the access and error log lines.
#[verifier::spinoff_prover]
#[verifier::rlimit(40)]
proof fn lemma_vhost_log_lines_step(a: Answers, password: Seq<char>, o: OpenObserve)
    requires
        a.server == Server::Nginx,
        a.nginx_logs,
    ensures
        ({
            let fqn = a.spec_fqn();
            let steps = spec_build_steps(a, password, Some(o));
            let access = "/var/log/nginx/"@ + fqn + ".access.log"@;
            let error = "/var/log/nginx/"@ + fqn + ".error.log"@;
            &&& exists|i: int|
                0 <= i < steps.len() && writes(
                    #[trigger] steps[i],
                    seq!["/etc/nginx/sites-available/"@ + fqn + ".conf"@],
                    "\n    access_log "@ + access + " json_logs;\n    error_log "@ + error + ";\n"@,
                )
        }),
{
    reveal_strlit("tee");
    reveal_strlit("runuser");
    let fqn = a.spec_fqn();
    let obs = Some(o);
    let steps = spec_build_steps(a, password, obs);
    lemma_vhost_step(a, password, obs);
    lemma_nginx_log_lines(a, fqn);
    let k: int = if a.docker { 0 } else { 2 };
    let access = "/var/log/nginx/"@ + fqn + ".access.log"@;
    let error = "/var/log/nginx/"@ + fqn + ".error.log"@;
    reveal_strlit("\n    access_log /var/log/nginx/");
    reveal_strlit("\n    access_log ");
    reveal_strlit("/var/log/nginx/");
    reveal_strlit(".access.log json_logs;\n    error_log /var/log/nginx/");
    reveal_strlit(".access.log");
    reveal_strlit(" json_logs;\n    error_log ");
    reveal_strlit(".error.log;\n");
    reveal_strlit(".error.log");
    reveal_strlit(";\n");
    assert("\n    access_log "@ + access + " json_logs;\n    error_log "@ + error + ";\n"@
        =~= "\n    access_log /var/log/nginx/"@ + fqn + ".access.log json_logs;\n    error_log /var/log/nginx/"@
        + fqn + ".error.log;\n"@);
    assert(writes(
        steps[k],
        seq!["/etc/nginx/sites-available/"@ + fqn + ".conf"@],
        "\n    access_log "@ + access + " json_logs;\n    error_log "@ + error + ";\n"@,
    ));
}

/// The naming lines of the two Fluent Bit inputs, with the log file's path
/// as one piece.
proof fn lemma_input_line_forms(fqn: Seq<char>, site: Seq<char>)
    ensures
        "\n    Path              /var/log/nginx/"@ + fqn + ".access.log\n    Parser            json\n    Tag               "@
            + site + ".access\n"@ == "\n    Path              "@ + ("/var/log/nginx/"@ + fqn + ".access.log"@)
            + "\n    Parser            json\n    Tag               "@ + site + ".access\n"@,
        "\n    Path              /var/log/nginx/"@ + fqn
            + ".error.log\n    Parser            nginx_error\n    Tag               "@ + site + ".error\n"@
            == "\n    Path              "@ + ("/var/log/nginx/"@ + fqn + ".error.log"@)
            + "\n    Parser            nginx_error\n    Tag               "@ + site + ".error\n"@,
{
    reveal_strlit("\n    Path              /var/log/nginx/");
    reveal_strlit("\n    Path              ");
    reveal_strlit("/var/log/nginx/");
    reveal_strlit(".access.log\n    Parser            json\n    Tag               ");
    reveal_strlit(".access.log");
    reveal_strlit("\n    Parser            json\n    Tag               ");
    reveal_strlit(".error.log\n    Parser            nginx_error\n    Tag               ");
    reveal_strlit(".error.log");
    reveal_strlit("\n    Parser            nginx_error\n    Tag               ");
    assert("\n    Path              /var/log/nginx/"@ + fqn + ".access.log\n    Parser            json\n    Tag               "@
        + site + ".access\n"@ =~= "\n    Path              "@ + ("/var/log/nginx/"@ + fqn + ".access.log"@)
        + "\n    Parser            json\n    Tag               "@ + site + ".access\n"@);
    assert("\n    Path              /var/log/nginx/"@ + fqn
        + ".error.log\n    Parser            nginx_error\n    Tag               "@ + site + ".error\n"@
        =~= "\n    Path              "@ + ("/var/log/nginx/"@ + fqn + ".error.log"@)
        + "\n    Parser            nginx_error\n    Tag               "@ + site + ".error\n"@);
}

/// The Fluent Bit step tails those log files and names their streams.
#[verifier::spinoff_prover]
#[verifier::rlimit(40)]
proof fn lemma_fluentbit_step(a: Answers, password: Seq<char>, o: OpenObserve)
    requires
        a.server == Server::Nginx,
        a.nginx_logs,
    ensures
        ({
            let fqn = a.spec_fqn();
            let site = log_site(a);
            let steps = spec_build_steps(a, password, Some(o));
            let access = "/var/log/nginx/"@ + fqn + ".access.log"@;
            let error = "/var/log/nginx/"@ + fqn + ".error.log"@;
            let conf = seq!["-a"@, "/etc/fluent-bit/fluent-bit.conf"@];
            &&& exists|j: int|
                0 <= j < steps.len() && #[trigger] writes(
                    steps[j],
                    conf,
                    "\n    Path              "@ + access + "\n    Parser            json\n    Tag               "@
                        + site + ".access\n"@,
                ) && writes(
                    steps[j],
                    conf,
                    "\n    Path              "@ + error
                        + "\n    Parser            nginx_error\n    Tag               "@ + site
                        + ".error\n"@,
                ) && writes(
                    steps[j],
                    conf,
                    "\n    Match             "@ + site + ".access\n    Host              "@ + o.host@
                        + "\n    Port              "@ + o.port@
                        + "\n    URI               /api/default/"@ + site + "/_json\n"@,
                ) && writes(
                    steps[j],
                    conf,
                    "\n    Match             "@ + site + ".error\n    Host              "@ + o.host@
                        + "\n    Port              "@ + o.port@
                        + "\n    URI               /api/default/"@ + site + "_error/_json\n"@,
                )
        }),
{
    reveal_strlit("tee");
    reveal_strlit("runuser");
    let fqn = a.spec_fqn();
    let site = log_site(a);
    let obs = Some(o);
    let d = docroot_plan(a, fqn);
    let v = vhost_plan(a, fqn, true);
    let sh = shipping_plan(a, fqn, obs);
    assert(sh == fluentbit_plan(a, fqn, o));
    assert(sh[0].program == "tee"@);
    assert(sh[0].stdin == Some(fluentbit_conf(fqn, site, o)));
    lemma_third_part_index(
        d,
        v,
        sh,
        ownership_plan(a),
        certbot_plan(a, fqn),
        database_plan(a, fqn, password),
        finish_plan(a),
        0,
    );
    let j: int = d.len() as int + v.len() as int;
    assert(planned_steps(a, password, obs)[j] == sh[0]);
    assert("tee"@.len() != "runuser"@.len());
    lemma_sudo_step(a, password, obs, j);
    lemma_fluentbit_access_input(fqn, site, o);
    lemma_fluentbit_error_input(fqn, site, o);
    lemma_fluentbit_access_output(fqn, site, o);
    lemma_fluentbit_error_output(fqn, site, o);
    lemma_input_line_forms(fqn, site);
    assert(spec_build_steps(a, password, obs)[j].args == seq!["tee"@] + seq![
        "-a"@,
        "/etc/fluent-bit/fluent-bit.conf"@,
    ]);
    let steps = spec_build_steps(a, password, obs);
    let access = "/var/log/nginx/"@ + fqn + ".access.log"@;
    let error = "/var/log/nginx/"@ + fqn + ".error.log"@;
    let conf = seq!["-a"@, "/etc/fluent-bit/fluent-bit.conf"@];
    assert(writes(
        steps[j],
        conf,
        "\n    Path              "@ + access + "\n    Parser            json\n    Tag               "@
            + site + ".access\n"@,
    ));
    assert(writes(
        steps[j],
        conf,
        "\n    Path              "@ + error
            + "\n    Parser            nginx_error\n    Tag               "@ + site
            + ".error\n"@,
    ));
    assert(writes(
        steps[j],
        conf,
        "\n    Match             "@ + site + ".access\n    Host              "@ + o.host@
            + "\n    Port              "@ + o.port@
            + "\n    URI               /api/default/"@ + site + "/_json\n"@,
    ));
    assert(writes(
        steps[j],
        conf,
        "\n    Match             "@ + site + ".error\n    Host              "@ + o.host@
            + "\n    Port              "@ + o.port@
            + "\n    URI               /api/default/"@ + site + "_error/_json\n"@,
    ));
}


/// With nginx logs shipped to OpenObserve, the Fluent Bit access input tails
/// the file that the vhost's `access_log` line writes, and the error input,
/// tagged `<site>.error`, tails the file that its `error_log` line writes;
/// each stream goes to its own OpenObserve stream.
#[verifier::spinoff_prover]
#[verifier::rlimit(40)]
pub proof fn lemma_shipped_logs_match_vhost(a: Answers, password: Seq<char>, o: OpenObserve)
    requires
        a.server == Server::Nginx,
        a.nginx_logs,
    ensures
        ({
            let fqn = a.spec_fqn();
            let site = log_site(a);
            let steps = spec_build_steps(a, password, Some(o));
            let access = "/var/log/nginx/"@ + fqn + ".access.log"@;
            let error = "/var/log/nginx/"@ + fqn + ".error.log"@;
            let conf = seq!["-a"@, "/etc/fluent-bit/fluent-bit.conf"@];
            &&& exists|i: int|
                0 <= i < steps.len() && writes(
                    #[trigger] steps[i],
                    seq!["/etc/nginx/sites-available/"@ + fqn + ".conf"@],
                    "\n    access_log "@ + access + " json_logs;\n    error_log "@ + error + ";\n"@,
                )
            &&& exists|j: int|
                0 <= j < steps.len() && #[trigger] writes(
                    steps[j],
                    conf,
                    "\n    Path              "@ + access + "\n    Parser            json\n    Tag               "@
                        + site + ".access\n"@,
                ) && writes(
                    steps[j],
                    conf,
                    "\n    Path              "@ + error
                        + "\n    Parser            nginx_error\n    Tag               "@ + site
                        + ".error\n"@,
                ) && writes(
                    steps[j],
                    conf,
                    "\n    Match             "@ + site + ".access\n    Host              "@ + o.host@
                        + "\n    Port              "@ + o.port@
                        + "\n    URI               /api/default/"@ + site + "/_json\n"@,
                ) && writes(
                    steps[j],
                    conf,
                    "\n    Match             "@ + site + ".error\n    Host              "@ + o.host@
                        + "\n    Port              "@ + o.port@
                        + "\n    URI               /api/default/"@ + site + "_error/_json\n"@,
                )
        }),
{
    lemma_vhost_log_lines_step(a, password, o);
    lemma_fluentbit_step(a, password, o);
}

/// Position `x.len() + k` of `x + db + f` holds `db[k]`.
proof fn lemma_db_part_index(x: Seq<StepView>, db: Seq<StepView>, f: Seq<StepView>, k: int)
    requires
        0 <= k < db.len(),
    ensures
        x.len() + k < (x + db + f).len(),
        (x + db + f)[x.len() + k] == db[k],
{
    assert((x + db)[x.len() + k] == db[k]);
}

/// The database step at position `k` of the database plan, run through `sudo`.
proof fn lemma_database_step(a: Answers, password: Seq<char>, obs: Option<OpenObserve>, k: int)
    requires
        0 <= k < database_plan(a, a.spec_fqn(), password).len(),
    ensures
        exists|i: int|
            0 <= i < spec_build_steps(a, password, obs).len() && #[trigger] spec_build_steps(
                a,
                password,
                obs,
            )[i] == under_sudo(database_plan(a, a.spec_fqn(), password)[k]),
{
    let fqn = a.spec_fqn();
    let x = docroot_plan(a, fqn) + vhost_plan(a, fqn, obs is Some) + shipping_plan(a, fqn, obs)
        + ownership_plan(a) + certbot_plan(a, fqn);
    let db = database_plan(a, fqn, password);
    lemma_db_part_index(x, db, finish_plan(a), k);
    let i: int = x.len() + k;
    assert(planned_steps(a, password, obs) == x + db + finish_plan(a));
    assert(spec_build_steps(a, password, obs)[i] == under_sudo(db[k]));
}

/// The lines of the MySQL script that name the database and the user.
#[verifier::spinoff_prover]
#[verifier::rlimit(40)]
proof fn lemma_mysql_lines(a: Answers, password: Seq<char>)
    ensures
        ({
            let db = a.spec_dbname();
            let user = a.spec_dbname() + "_user"@;
            let sql = mysql_sql(a, password);
            &&& has_text(sql, "CREATE DATABASE "@ + db + ";\n"@)
            &&& has_text(sql, "\nCREATE USER '"@ + user + "'@'localhost' IDENTIFIED BY '"@ + password + "';\n"@)
            &&& has_text(sql, "\nGRANT ALL PRIVILEGES ON "@ + db + ".* TO '"@ + user + "'@'localhost';\n"@)
        }),
{
    let db = a.spec_dbname();
    let user = a.spec_dbname() + "_user"@;
    let sql = mysql_sql(a, password);
    reveal_strlit(";\nCREATE USER '");
    reveal_strlit(";\n");
    reveal_strlit(";");
    reveal_strlit("\nCREATE USER '");
    reveal_strlit("CREATE USER '");
    reveal_strlit("';\nGRANT ALL PRIVILEGES ON ");
    reveal_strlit("';\n");
    reveal_strlit("';");
    reveal_strlit("\nGRANT ALL PRIVILEGES ON ");
    reveal_strlit("GRANT ALL PRIVILEGES ON ");
    reveal_strlit("'@'localhost';\nFLUSH PRIVILEGES;\n");
    reveal_strlit("'@'localhost';\n");
    reveal_strlit("FLUSH PRIVILEGES;\n");
    reveal_strlit("\n");
    let p0 = "CREATE DATABASE "@;
    let p4 = "'@'localhost' IDENTIFIED BY '"@;
    let p8 = ".* TO '"@;
    assert(";\nCREATE USER '"@ =~= ";"@ + "\nCREATE USER '"@);
    assert("\nCREATE USER '"@ =~= "\n"@ + "CREATE USER '"@);
    assert(";\n"@ =~= ";"@ + "\n"@);
    assert("';\nGRANT ALL PRIVILEGES ON "@ =~= "';"@ + "\nGRANT ALL PRIVILEGES ON "@);
    assert("\nGRANT ALL PRIVILEGES ON "@ =~= "\n"@ + "GRANT ALL PRIVILEGES ON "@);
    assert("';\n"@ =~= "';"@ + "\n"@);
    assert("'@'localhost';\nFLUSH PRIVILEGES;\n"@ =~= "'@'localhost';\n"@ + "FLUSH PRIVILEGES;\n"@);
    let t1 = p0 + db + ";\n"@;
    let t2 = "\nCREATE USER '"@ + user + p4 + password + "';\n"@;
    let t3 = "\nGRANT ALL PRIVILEGES ON "@ + db + p8 + user + "'@'localhost';\n"@;
    let r1 = "CREATE USER '"@ + user + p4 + password + "';"@ + "\nGRANT ALL PRIVILEGES ON "@ + db + p8
        + user + "'@'localhost';\nFLUSH PRIVILEGES;\n"@;
    assert(sql =~= Seq::<char>::empty() + t1 + r1);
    lemma_has_text(Seq::empty(), t1, r1);
    let x2 = p0 + db + ";"@;
    let r2 = "GRANT ALL PRIVILEGES ON "@ + db + p8 + user + "'@'localhost';\nFLUSH PRIVILEGES;\n"@;
    assert(sql =~= x2 + t2 + r2);
    lemma_has_text(x2, t2, r2);
    let x3 = p0 + db + ";\nCREATE USER '"@ + user + p4 + password + "';"@;
    assert(sql =~= x3 + t3 + "FLUSH PRIVILEGES;\n"@);
    lemma_has_text(x3, t3, "FLUSH PRIVILEGES;\n"@);
}

/// The lines of the PostgreSQL script that name the database and the user.
#[verifier::spinoff_prover]
#[verifier::rlimit(40)]
proof fn lemma_pgsql_lines(a: Answers, password: Seq<char>)
    ensures
        ({
            let db = a.spec_dbname();
            let user = a.spec_dbname() + "_user"@;
            let sql = pgsql_sql(a, password);
            &&& has_text(sql, "CREATE DATABASE "@ + db + ";\n"@)
            &&& has_text(sql, "\nCREATE USER "@ + user + " WITH PASSWORD '"@ + password + "';\n"@)
            &&& has_text(sql, "\nGRANT ALL PRIVILEGES ON DATABASE "@ + db + " TO "@ + user + ";\n"@)
        }),
{
    let db = a.spec_dbname();
    let user = a.spec_dbname() + "_user"@;
    let sql = pgsql_sql(a, password);
    reveal_strlit(";\nCREATE USER ");
    reveal_strlit(";\n");
    reveal_strlit(";");
    reveal_strlit("\nCREATE USER ");
    reveal_strlit("CREATE USER ");
    reveal_strlit("';\nGRANT ALL PRIVILEGES ON DATABASE ");
    reveal_strlit("';\n");
    reveal_strlit("';");
    reveal_strlit("\nGRANT ALL PRIVILEGES ON DATABASE ");
    reveal_strlit("GRANT ALL PRIVILEGES ON DATABASE ");
    reveal_strlit(";\nGRANT ALL ON SCHEMA public TO ");
    reveal_strlit("GRANT ALL ON SCHEMA public TO ");
    reveal_strlit("\n");
    let p0 = "CREATE DATABASE "@;
    let p4 = " WITH PASSWORD '"@;
    let p8 = " TO "@;
    assert(";\nCREATE USER "@ =~= ";"@ + "\nCREATE USER "@);
    assert("\nCREATE USER "@ =~= "\n"@ + "CREATE USER "@);
    assert(";\n"@ =~= ";"@ + "\n"@);
    assert("';\nGRANT ALL PRIVILEGES ON DATABASE "@ =~= "';"@ + "\nGRANT ALL PRIVILEGES ON DATABASE "@);
    assert("\nGRANT ALL PRIVILEGES ON DATABASE "@ =~= "\n"@ + "GRANT ALL PRIVILEGES ON DATABASE "@);
    assert("';\n"@ =~= "';"@ + "\n"@);
    assert(";\nGRANT ALL ON SCHEMA public TO "@ =~= ";\n"@ + "GRANT ALL ON SCHEMA public TO "@);
    let tail = "GRANT ALL ON SCHEMA public TO "@ + user + ";\n"@;
    let t1 = p0 + db + ";\n"@;
    let t2 = "\nCREATE USER "@ + user + p4 + password + "';\n"@;
    let t3 = "\nGRANT ALL PRIVILEGES ON DATABASE "@ + db + p8 + user + ";\n"@;
    let r1 = "CREATE USER "@ + user + p4 + password + "';"@ + "\nGRANT ALL PRIVILEGES ON DATABASE "@ + db
        + p8 + user + ";\n"@ + tail;
    assert(sql =~= Seq::<char>::empty() + t1 + r1);
    lemma_has_text(Seq::empty(), t1, r1);
    let x2 = p0 + db + ";"@;
    let r2 = "GRANT ALL PRIVILEGES ON DATABASE "@ + db + p8 + user + ";\n"@ + tail;
    assert(sql =~= x2 + t2 + r2);
    lemma_has_text(x2, t2, r2);
    let x3 = p0 + db + ";\nCREATE USER "@ + user + p4 + password + "';"@;
    assert(sql =~= x3 + t3 + tail);
    lemma_has_text(x3, t3, tail);
}

/// The lines of the `.env` text that name the database, the user and the
/// password.
#[verifier::spinoff_prover]
#[verifier::rlimit(40)]
proof fn lemma_env_lines(a: Answers, password: Seq<char>)
    ensures
        ({
            let user = a.spec_dbname() + "_user"@;
            has_text(
                crate::generate::env_text(a, password),
                "\nDB_DATABASE=\""@ + a.spec_dbname() + "\"\nDB_USERNAME=\""@ + user + "\"\nDB_PASSWORD=\""@
                    + password + "\"\n"@,
            )
        }),
{
    reveal_strlit("\"\nDB_DATABASE=\"");
    reveal_strlit("\nDB_DATABASE=\"");
    reveal_strlit("\"");
    let pg_only = a.db_pgsql && !a.db_mysql;
    let user = a.spec_dbname() + "_user"@;
    assert("\"\nDB_DATABASE=\""@ =~= "\""@ + "\nDB_DATABASE=\""@);
    let x = "DB_CONNECTION=\""@ + (if pg_only { "pgsql"@ } else { "mysql"@ }) + "\"\nDB_HOST=\""@ + (
    if pg_only {
        "localhost"@
    } else {
        "127.0.0.1"@
    }) + "\"\nDB_PORT=\""@ + (if pg_only { "5432"@ } else { "3306"@ }) + "\""@;
    let t = "\nDB_DATABASE=\""@ + a.spec_dbname() + "\"\nDB_USERNAME=\""@ + user + "\"\nDB_PASSWORD=\""@
        + password + "\"\n"@;
    assert(crate::generate::env_text(a, password) =~= x + t + Seq::<char>::empty());
    lemma_has_text(x, t, Seq::empty());
}

/// The saved SQL scripts create the database `<dbname>` and the user
/// `<dbname>_user` with the given password, and grant that same user the
/// database; the saved `.env` names that database, user and password.
#[verifier::spinoff_prover]
#[verifier::rlimit(40)]
pub proof fn lemma_database_files_agree(a: Answers, password: Seq<char>, obs: Option<OpenObserve>)
    ensures
        ({
            let db = a.spec_dbname();
            let user = a.spec_dbname() + "_user"@;
            let folder = "/var/www/"@ + a.domain@ + "/"@;
            let steps = spec_build_steps(a, password, obs);
            &&& a.db_mysql ==> exists|i: int|
                0 <= i < steps.len() && #[trigger] writes(
                    steps[i],
                    seq![folder + a.spec_fqn() + "-mysql.sql"@],
                    "CREATE DATABASE "@ + db + ";\n"@,
                ) && writes(
                    steps[i],
                    seq![folder + a.spec_fqn() + "-mysql.sql"@],
                    "\nCREATE USER '"@ + user + "'@'localhost' IDENTIFIED BY '"@ + password + "';\n"@,
                ) && writes(
                    steps[i],
                    seq![folder + a.spec_fqn() + "-mysql.sql"@],
                    "\nGRANT ALL PRIVILEGES ON "@ + db + ".* TO '"@ + user + "'@'localhost';\n"@,
                )
            &&& a.db_pgsql ==> exists|i: int|
                0 <= i < steps.len() && #[trigger] writes(
                    steps[i],
                    seq![folder + a.spec_fqn() + "-pgsql.sql"@],
                    "CREATE DATABASE "@ + db + ";\n"@,
                ) && writes(
                    steps[i],
                    seq![folder + a.spec_fqn() + "-pgsql.sql"@],
                    "\nCREATE USER "@ + user + " WITH PASSWORD '"@ + password + "';\n"@,
                ) && writes(
                    steps[i],
                    seq![folder + a.spec_fqn() + "-pgsql.sql"@],
                    "\nGRANT ALL PRIVILEGES ON DATABASE "@ + db + " TO "@ + user + ";\n"@,
                )
            &&& (a.db_mysql || a.db_pgsql) ==> exists|i: int|
                0 <= i < steps.len() && #[trigger] writes(
                    steps[i],
                    seq![folder + "env-"@ + a.spec_fqn()],
                    "\nDB_DATABASE=\""@ + db + "\"\nDB_USERNAME=\""@ + user + "\"\nDB_PASSWORD=\""@ + password
                        + "\"\n"@,
                )
        }),
{
    reveal_strlit("tee");
    reveal_strlit("runuser");
    reveal_strlit("/var/www/");
    reveal_strlit("/");
    reveal_strlit("/env-");
    reveal_strlit("env-");
    let fqn = a.spec_fqn();
    let folder = "/var/www/"@ + a.domain@ + "/"@;
    let plan = database_plan(a, fqn, password);
    let steps = spec_build_steps(a, password, obs);
    assert("tee"@.len() != "runuser"@.len());
    lemma_mysql_lines(a, password);
    lemma_pgsql_lines(a, password);
    lemma_env_lines(a, password);
    if a.db_mysql {
        let k: int = 1;
        assert(plan[k].program == "tee"@ && plan[k].stdin == Some(mysql_sql(a, password)));
        assert(plan[k].args == seq![mysql_path(a, fqn)]);
        assert(mysql_path(a, fqn) =~= folder + fqn + "-mysql.sql"@);
        lemma_database_step(a, password, obs, k);
        let i = choose|i: int| 0 <= i < steps.len() && #[trigger] steps[i] == under_sudo(plan[k]);
        assert(writes(steps[i], seq![folder + fqn + "-mysql.sql"@], "CREATE DATABASE "@ + a.spec_dbname() + ";\n"@));
    }
    if a.db_pgsql {
        let k: int = if a.db_mysql { 2 } else { 1 };
        assert(plan[k].program == "tee"@ && plan[k].stdin == Some(pgsql_sql(a, password)));
        assert(plan[k].args == seq![pgsql_path(a, fqn)]);
        assert(pgsql_path(a, fqn) =~= folder + fqn + "-pgsql.sql"@);
        lemma_database_step(a, password, obs, k);
        let i = choose|i: int| 0 <= i < steps.len() && #[trigger] steps[i] == under_sudo(plan[k]);
        assert(writes(steps[i], seq![folder + fqn + "-pgsql.sql"@], "CREATE DATABASE "@ + a.spec_dbname() + ";\n"@));
    }
    if a.db_mysql || a.db_pgsql {
        let k: int = plan.len() - 1;
        assert(plan[k].program == "tee"@ && plan[k].stdin == Some(crate::generate::env_text(a, password)));
        assert(plan[k].args == seq![crate::generate::env_path(a, fqn)]);
        assert(crate::generate::env_path(a, fqn) =~= folder + "env-"@ + fqn);
        lemma_database_step(a, password, obs, k);
        let i = choose|i: int| 0 <= i < steps.len() && #[trigger] steps[i] == under_sudo(plan[k]);
        assert(writes(
            steps[i],
            seq![folder + "env-"@ + fqn],
            "\nDB_DATABASE=\""@ + a.spec_dbname() + "\"\nDB_USERNAME=\""@ + (a.spec_dbname() + "_user"@)
                + "\"\nDB_PASSWORD=\""@ + password + "\"\n"@,
        ));
    }
}

/// `/var/www/<domain>/<subdomain, or www>[/public]`, spelled out.
pub open spec fn document_root(a: Answers) -> Seq<char> {
    "/var/www/"@ + a.domain@ + "/"@ + (if a.subdomain@.len() == 0 {
        "www"@
    } else {
        a.subdomain@
    }) + (if a.public {
        "/public"@
    } else {
        Seq::empty()
    })
}

proof fn lemma_document_root(a: Answers)
    ensures
        document_root(a) =~= "/var/www/"@ + a.spec_dir(),
{
}

#[verifier::spinoff_prover]
#[verifier::rlimit(40)]
proof fn lemma_apache_root_line(a: Answers, fqn: Seq<char>)
    ensures
        has_text(apache_conf(a, fqn), "    DocumentRoot "@ + document_root(a) + "\n"@),
{
    reveal_strlit("    DocumentRoot /var/www/");
    reveal_strlit("    DocumentRoot ");
    reveal_strlit("/var/www/");
    reveal_strlit("\n</VirtualHost>\n");
    reveal_strlit("\n");
    reveal_strlit("</VirtualHost>\n");
    lemma_document_root(a);
    assert("    DocumentRoot /var/www/"@ =~= "    DocumentRoot "@ + "/var/www/"@);
    assert("\n</VirtualHost>\n"@ =~= "\n"@ + "</VirtualHost>\n"@);
    let x = "<VirtualHost *:80>\n    ServerAdmin "@ + a.email@ + "\n    ServerName "@ + fqn + "\n"@ + (
    if a.spec_is_implicit_www() {
        "    ServerAlias www."@ + fqn + "\n"@
    } else {
        Seq::empty()
    });
    let t = "    DocumentRoot "@ + document_root(a) + "\n"@;
    assert(apache_conf(a, fqn) =~= x + t + "</VirtualHost>\n"@);
    lemma_has_text(x, t, "</VirtualHost>\n"@);
}

#[verifier::spinoff_prover]
#[verifier::rlimit(40)]
proof fn lemma_nginx_root_line(a: Answers)
    ensures
        has_text(nginx_static_block(a), "    root "@ + document_root(a) + ";\n"@),
{
    reveal_strlit("    root /var/www/");
    reveal_strlit("    root ");
    reveal_strlit("/var/www/");
    reveal_strlit(";\n    index ");
    reveal_strlit(";\n");
    reveal_strlit("    index ");
    lemma_document_root(a);
    assert("    root /var/www/"@ =~= "    root "@ + "/var/www/"@);
    assert(";\n    index "@ =~= ";\n"@ + "    index "@);
    let t = "    root "@ + document_root(a) + ";\n"@;
    let y = "    index "@ + crate::generate::when(a.nginx_php, "index.php "@)
        + "index.html index.htm;\n\n    location / {\n"@ + (if a.nginx_php {
        "        try_files $uri $uri/ /index.php?$query_string;\n"@
    } else {
        "        try_files $uri $uri/ =404;\n"@
    }) + "    }\n"@ + crate::generate::when(a.nginx_php, nginx_php_block()) + crate::generate::when(
        a.nginx_deny,
        nginx_deny_block(),
    );
    assert(nginx_static_block(a) =~= Seq::<char>::empty() + t + y);
    lemma_has_text(Seq::empty(), t, y);
}

/// The vhost serves files from the document root that the setup creates:
/// `/var/www/<domain>/<subdomain, or www>[/public]` is apache's
/// `DocumentRoot` and, without a docker proxy, nginx's `root`, and without a
/// docker proxy the first step makes that folder.
#[verifier::spinoff_prover]
#[verifier::rlimit(40)]
pub proof fn lemma_vhost_serves_created_root(a: Answers, password: Seq<char>, obs: Option<OpenObserve>)
    ensures
        ({
            let steps = spec_build_steps(a, password, obs);
            let fqn = a.spec_fqn();
            let root = document_root(a);
            &&& !a.docker ==> steps.len() > 0 && steps[0].program == "sudo"@ && steps[0].args == seq![
                "mkdir"@,
                "-p"@,
                root,
            ]
            &&& a.server == Server::Apache ==> exists|i: int|
                0 <= i < steps.len() && writes(
                    #[trigger] steps[i],
                    seq!["/etc/apache2/sites-available/"@ + fqn + ".conf"@],
                    "    DocumentRoot "@ + root + "\n"@,
                )
            &&& a.server == Server::Nginx && !a.docker ==> exists|i: int|
                0 <= i < steps.len() && writes(
                    #[trigger] steps[i],
                    seq!["/etc/nginx/sites-available/"@ + fqn + ".conf"@],
                    "    root "@ + root + ";\n"@,
                )
        }),
{
    reveal_strlit("mkdir");
    reveal_strlit("runuser");
    let fqn = a.spec_fqn();
    let steps = spec_build_steps(a, password, obs);
    let k: int = if a.docker { 0 } else { 2 };
    lemma_vhost_step(a, password, obs);
    lemma_document_root(a);
    if !a.docker {
        let d = docroot_plan(a, fqn);
        assert(d[0].program == "mkdir"@ && d[0].args == seq!["-p"@, document_root(a)]);
        lemma_part_index(
            Seq::empty(),
            d,
            vhost_plan(a, fqn, obs is Some),
            shipping_plan(a, fqn, obs),
            ownership_plan(a),
            certbot_plan(a, fqn) + database_plan(a, fqn, password),
            finish_plan(a),
            0,
        );
        assert(planned_steps(a, password, obs) =~= Seq::<StepView>::empty() + d + vhost_plan(a, fqn, obs is Some)
            + shipping_plan(a, fqn, obs) + ownership_plan(a) + (certbot_plan(a, fqn) + database_plan(
            a,
            fqn,
            password,
        )) + finish_plan(a));
        assert(planned_steps(a, password, obs)[0] == d[0]);
        assert("mkdir"@.len() != "runuser"@.len());
        lemma_sudo_step(a, password, obs, 0);
        assert(seq!["mkdir"@] + seq!["-p"@, document_root(a)] =~= seq!["mkdir"@, "-p"@, document_root(a)]);
    }
    if a.server == Server::Apache {
        lemma_apache_root_line(a, fqn);
        assert(writes(
            steps[k],
            seq!["/etc/apache2/sites-available/"@ + fqn + ".conf"@],
            "    DocumentRoot "@ + document_root(a) + "\n"@,
        ));
    }
    if a.server == Server::Nginx && !a.docker {
        lemma_nginx_root_line(a);
        lemma_conf_has_static(a, fqn, obs is Some, "    root "@ + document_root(a) + ";\n"@);
        assert(writes(
            steps[k],
            seq!["/etc/nginx/sites-available/"@ + fqn + ".conf"@],
            "    root "@ + document_root(a) + ";\n"@,
        ));
    }
}

/// A lower-case letter, a digit or `-`.
pub open spec fn label_char(c: char) -> bool {
    ('a' <= c && c <= 'z') || ('0' <= c && c <= '9') || c == '-'
}

/// One label of a domain name: non-empty, of lower-case letters, digits and
/// `-`, with no `-` at either end.
pub open spec fn plain_label(l: Seq<char>) -> bool {
    &&& l.len() > 0
    &&& l[0] != '-'
    &&& l.last() != '-'
    &&& forall|i: int| 0 <= i < l.len() ==> label_char(#[trigger] l[i])
}

proof fn lemma_split_nonempty(s: Seq<char>, sep: char)
    ensures
        split_on(s, sep).len() >= 1,
    decreases s.len(),
{
    if s.len() > 0 {
        lemma_split_nonempty(s.drop_last(), sep);
    }
}

/// Text without the separator extends the last piece.
proof fn lemma_split_extend(x: Seq<char>, y: Seq<char>, sep: char)
    requires
        forall|i: int| 0 <= i < y.len() ==> y[i] != sep,
    ensures
        split_on(x + y, sep) == split_on(x, sep).update(
            split_on(x, sep).len() - 1,
            split_on(x, sep).last() + y,
        ),
    decreases y.len(),
{
    lemma_split_nonempty(x, sep);
    let sx = split_on(x, sep);
    if y.len() == 0 {
        assert(x + y =~= x);
        assert(sx.update(sx.len() - 1, sx.last() + y) =~= sx);
    } else {
        let y0 = y.drop_last();
        let c = y.last();
        lemma_split_extend(x, y0, sep);
        assert((x + y).drop_last() =~= x + y0);
        assert((x + y).last() == c);
        let init = split_on(x + y0, sep);
        assert(init.len() == sx.len());
        assert(init.last() == sx.last() + y0);
        assert((sx.last() + y0).push(c) =~= sx.last() + y);
        assert(c != sep);
        assert(split_on(x + y, sep) == init.update(init.len() - 1, init.last().push(c)));
        assert(init.update(init.len() - 1, init.last().push(c)) =~= sx.update(
            sx.len() - 1,
            sx.last() + y,
        ));
    }
}

/// Splitting labels joined by dots gives the labels back.
proof fn lemma_split_joined(labels: Seq<Seq<char>>)
    requires
        labels.len() >= 1,
        forall|k: int, i: int| 0 <= k < labels.len() && 0 <= i < labels[k].len() ==> #[trigger] labels[k][i] != '.',
    ensures
        split_on(joined(labels, "."@), '.') == labels,
    decreases labels.len(),
{
    reveal_strlit(".");
    let e = Seq::<char>::empty();
    if labels.len() == 1 {
        lemma_split_extend(e, labels[0], '.');
        assert(e + labels[0] =~= labels[0]);
        assert(split_on(e, '.') == seq![e]);
        assert(seq![e].update(0, e + labels[0]) =~= labels);
    } else {
        let init = labels.drop_last();
        let j = joined(init, "."@);
        lemma_split_joined(init);
        assert(j + "."@ =~= j.push('.'));
        assert(j.push('.').drop_last() =~= j);
        assert(split_on(j + "."@, '.') == init.push(e));
        lemma_split_extend(j + "."@, labels.last(), '.');
        assert(e + labels.last() =~= labels.last());
        assert(init.push(e).update(init.len() as int, e + labels.last()) =~= labels);
    }
}

/// Every character of labels joined by dots is a label character or a dot,
/// the first is the first label's first and the last is the last label's
/// last.
proof fn lemma_joined_ends(labels: Seq<Seq<char>>)
    requires
        labels.len() >= 1,
        forall|k: int| 0 <= k < labels.len() ==> plain_label(#[trigger] labels[k]),
    ensures
        joined(labels, "."@).len() > 0,
        joined(labels, "."@)[0] == labels[0][0],
        joined(labels, "."@).last() == labels.last().last(),
        forall|i: int|
            0 <= i < joined(labels, "."@).len() ==> label_char(#[trigger] joined(labels, "."@)[i])
                || joined(labels, "."@)[i] == '.',
    decreases labels.len(),
{
    reveal_strlit(".");
    if labels.len() == 1 {
        assert(plain_label(labels[0]));
    } else {
        let init = labels.drop_last();
        let j = joined(init, "."@);
        lemma_joined_ends(init);
        let l = labels.last();
        assert(plain_label(l));
        let s = j + "."@ + l;
        assert(joined(labels, "."@) == s);
        assert forall|i: int| 0 <= i < s.len() implies label_char(#[trigger] s[i]) || s[i] == '.' by {
            if i < j.len() {
                assert(s[i] == j[i]);
            } else if i == j.len() {
                assert(s[i] == '.');
            } else {
                assert(s[i] == l[i - j.len() - 1]);
            }
        }
    }
}

/// Two or more labels joined by dots pass the domain rule, and the rule
/// reads those labels back; a `-` inside a label is allowed.
pub proof fn lemma_dotted_labels_pass(labels: Seq<Seq<char>>)
    requires
        labels.len() >= 2,
        forall|k: int| 0 <= k < labels.len() ==> plain_label(#[trigger] labels[k]),
    ensures
        domain_ok(joined(labels, "."@)),
        domain_labels(joined(labels, "."@)) == labels,
{
    let d = joined(labels, "."@);
    lemma_joined_ends(labels);
    assert(plain_label(labels[0]));
    assert(plain_label(labels.last()));
    assert(label_char(labels[0][0]));
    assert(label_char(labels.last().last())) by {
        assert(labels.last().last() == labels.last()[labels.last().len() - 1]);
    }
    assert(strip_leading(d, '.') == d);
    assert(strip_trailing(d, '.') == d);
    assert forall|k: int, i: int| 0 <= k < labels.len() && 0 <= i < labels[k].len() implies #[trigger] labels[k][i]
        != '.' by {
        assert(plain_label(labels[k]));
        assert(label_char(labels[k][i]));
    }
    lemma_split_joined(labels);
    assert(domain_labels(d) == labels);
    assert forall|k: int| 0 <= k < domain_labels(d).len() implies crate::config::label_ok(
        #[trigger] domain_labels(d)[k],
    ) by {
        assert(plain_label(labels[k]));
        assert forall|i: int| 0 <= i < labels[k].len() implies crate::config::is_ascii_alnum(
            #[trigger] labels[k][i],
        ) || labels[k][i] == '-' by {
            assert(label_char(labels[k][i]));
        }
    }
    assert forall|i: int| 0 <= i < d.len() implies crate::config::is_domain_char(#[trigger] d[i]) by {
        assert(label_char(d[i]) || d[i] == '.');
    }
}

/// A domain that passes the rule holds only lower-case letters, digits, dots
/// and `-`, and at least two labels, none empty or with `-` at either end.
pub proof fn lemma_passing_domain_shape(d: Seq<char>)
    requires
        domain_ok(d),
    ensures
        forall|i: int| 0 <= i < d.len() ==> label_char(#[trigger] d[i]) || d[i] == '.',
        domain_labels(d).len() >= 2,
        forall|k: int|
            0 <= k < domain_labels(d).len() ==> (#[trigger] domain_labels(d)[k]).len() > 0
                && domain_labels(d)[k][0] != '-' && domain_labels(d)[k].last() != '-',
{
    assert forall|k: int| 0 <= k < domain_labels(d).len() implies (#[trigger] domain_labels(d)[k]).len() > 0
        && domain_labels(d)[k][0] != '-' && domain_labels(d)[k].last() != '-' by {
        assert(crate::config::label_ok(domain_labels(d)[k]));
    }
    assert forall|i: int| 0 <= i < d.len() implies label_char(#[trigger] d[i]) || d[i] == '.' by {
        assert(crate::config::is_domain_char(d[i]));
    }
}

/// A text that the vhost configuration holds is written by a `sudo tee` step
/// on the vhost file.
proof fn lemma_vhost_writes(a: Answers, password: Seq<char>, obs: Option<OpenObserve>, t: Seq<char>)
    requires
        vhost_plan(a, a.spec_fqn(), obs is Some)[0].stdin matches Some(c) && has_text(c, t),
    ensures
        exists|i: int|
            0 <= i < spec_build_steps(a, password, obs).len() && writes(
                #[trigger] spec_build_steps(a, password, obs)[i],
                vhost_plan(a, a.spec_fqn(), obs is Some)[0].args,
                t,
            ),
{
    lemma_vhost_step(a, password, obs);
    let k: int = if a.docker { 0 } else { 2 };
    assert(writes(spec_build_steps(a, password, obs)[k], vhost_plan(a, a.spec_fqn(), obs is Some)[0].args, t));
}

/// The head of the nginx vhost: the redirect block, the `listen` lines, the
/// `server_name` line and the certificate lines.
pub open spec fn nginx_head(a: Answers, fqn: Seq<char>) -> Seq<char> {
    let names = server_names(a, fqn);
    crate::generate::when(a.nginx_https, nginx_redirect_block(names)) + "server {\n"@ + nginx_listen(
        a.nginx_https,
    ) + "    server_name "@ + names + ";\n\n"@ + crate::generate::when(self_signed(a), nginx_ssl_lines(fqn))
}

proof fn lemma_nginx_head_in_conf(a: Answers, fqn: Seq<char>, json: bool, t: Seq<char>)
    requires
        has_text(nginx_head(a, fqn), t),
    ensures
        has_text(nginx_conf(a, fqn, json), t),
{
    let mid = if a.docker {
        crate::generate::nginx_proxy_block(a.docker_host_port)
    } else {
        nginx_static_block(a)
    };
    let tail = crate::generate::when(a.nginx_logs, nginx_log_lines(fqn, json)) + "}\n"@;
    lemma_has_text_append(nginx_head(a, fqn), mid, t);
    lemma_has_text_append(nginx_head(a, fqn) + mid, crate::generate::when(a.nginx_logs, nginx_log_lines(fqn, json)), t);
    lemma_has_text_append(
        nginx_head(a, fqn) + mid + crate::generate::when(a.nginx_logs, nginx_log_lines(fqn, json)),
        "}\n"@,
        t,
    );
    assert(nginx_conf(a, fqn, json) == nginx_head(a, fqn) + mid + crate::generate::when(
        a.nginx_logs,
        nginx_log_lines(fqn, json),
    ) + "}\n"@);
}

/// The names an nginx vhost answers to, spelled out: the fqn, and
/// `www.<fqn>` as well for a bare domain.
pub open spec fn answered_names(a: Answers) -> Seq<char> {
    if a.subdomain@.len() == 0 {
        a.spec_fqn() + " www."@ + a.spec_fqn()
    } else {
        a.spec_fqn()
    }
}

#[verifier::spinoff_prover]
#[verifier::rlimit(40)]
proof fn lemma_nginx_head_lines(a: Answers)
    ensures
        has_text(nginx_head(a, a.spec_fqn()), "    server_name "@ + answered_names(a) + ";\n"@),
        a.nginx_https ==> has_text(
            nginx_head(a, a.spec_fqn()),
            "server {\n    listen 80;\n    listen [::]:80;\n    server_name "@ + answered_names(a)
                + ";\n    return 301 https://$host$request_uri;\n}\n"@,
        ),
        a.nginx_https ==> has_text(
            nginx_head(a, a.spec_fqn()),
            "server {\n    listen 443 ssl;\n    listen [::]:443 ssl;\n"@,
        ),
        !a.nginx_https ==> has_text(nginx_head(a, a.spec_fqn()), "server {\n    listen 80;\n    listen [::]:80;\n"@),
        self_signed(a) ==> has_text(
            nginx_head(a, a.spec_fqn()),
            "    ssl_certificate /etc/ssl/certs/"@ + a.spec_fqn() + "-selfsigned.crt;\n    ssl_certificate_key /etc/ssl/private/"@
                + a.spec_fqn() + "-selfsigned.key;\n"@,
        ),
{
    reveal_strlit(" www.");
    reveal_strlit(";\n\n");
    reveal_strlit(";\n");
    reveal_strlit("\n");
    reveal_strlit("server {\n    listen 80;\n    listen [::]:80;\n    server_name ");
    reveal_strlit(";\n    return 301 https://$host$request_uri;\n}\n\n");
    reveal_strlit(";\n    return 301 https://$host$request_uri;\n}\n");
    reveal_strlit("server {\n");
    reveal_strlit("    listen 443 ssl;\n    listen [::]:443 ssl;\n\n");
    reveal_strlit("    listen 80;\n    listen [::]:80;\n\n");
    reveal_strlit("server {\n    listen 443 ssl;\n    listen [::]:443 ssl;\n");
    reveal_strlit("server {\n    listen 80;\n    listen [::]:80;\n");
    reveal_strlit("-selfsigned.key;\n\n");
    reveal_strlit("-selfsigned.key;\n");
    let fqn = a.spec_fqn();
    let names = server_names(a, fqn);
    assert(names == answered_names(a));
    let r = crate::generate::when(a.nginx_https, nginx_redirect_block(names));
    let l = nginx_listen(a.nginx_https);
    let ssl = crate::generate::when(self_signed(a), nginx_ssl_lines(fqn));
    let h = nginx_head(a, fqn);
    assert(";\n\n"@ =~= ";\n"@ + "\n"@);
    let t1 = "    server_name "@ + names + ";\n"@;
    assert(h =~= (r + "server {\n"@ + l) + t1 + ("\n"@ + ssl));
    lemma_has_text(r + "server {\n"@ + l, t1, "\n"@ + ssl);
    if a.nginx_https {
        let t2 = "server {\n    listen 80;\n    listen [::]:80;\n    server_name "@ + names
            + ";\n    return 301 https://$host$request_uri;\n}\n"@;
        assert(";\n    return 301 https://$host$request_uri;\n}\n\n"@ =~= ";\n    return 301 https://$host$request_uri;\n}\n"@
            + "\n"@);
        let rest2 = "\n"@ + "server {\n"@ + l + "    server_name "@ + names + ";\n\n"@ + ssl;
        assert(h =~= Seq::<char>::empty() + t2 + rest2);
        lemma_has_text(Seq::empty(), t2, rest2);
        let t3 = "server {\n    listen 443 ssl;\n    listen [::]:443 ssl;\n"@;
        assert("server {\n"@ + l =~= t3 + "\n"@);
        let rest3 = "\n"@ + "    server_name "@ + names + ";\n\n"@ + ssl;
        assert(h =~= r + t3 + rest3);
        lemma_has_text(r, t3, rest3);
    } else {
        let t3 = "server {\n    listen 80;\n    listen [::]:80;\n"@;
        assert("server {\n"@ + l =~= t3 + "\n"@);
        let rest3 = "\n"@ + "    server_name "@ + names + ";\n\n"@ + ssl;
        assert(h =~= r + t3 + rest3);
        lemma_has_text(r, t3, rest3);
    }
    if self_signed(a) {
        let t4 = "    ssl_certificate /etc/ssl/certs/"@ + fqn + "-selfsigned.crt;\n    ssl_certificate_key /etc/ssl/private/"@
            + fqn + "-selfsigned.key;\n"@;
        assert("-selfsigned.key;\n\n"@ =~= "-selfsigned.key;\n"@ + "\n"@);
        let x4 = r + "server {\n"@ + l + "    server_name "@ + names + ";\n\n"@;
        assert(h =~= x4 + t4 + "\n"@);
        lemma_has_text(x4, t4, "\n"@);
    }
}

/// The step runs `sudo openssl req -x509 ...`, writing the key to `key` and
/// the certificate to `cert`.
pub open spec fn makes_certificate(s: StepView, key: Seq<char>, cert: Seq<char>) -> bool {
    &&& s.program == "sudo"@
    &&& s.args.len() == 14
    &&& s.args[0] == "openssl"@
    &&& s.args[1] == "req"@
    &&& s.args[2] == "-x509"@
    &&& s.args[8] == "-keyout"@
    &&& s.args[9] == key
    &&& s.args[10] == "-out"@
    &&& s.args[11] == cert
}

/// What an nginx vhost answers for: its `server_name` line names the fqn,
/// and `www.<fqn>` too for a bare domain; with HTTPS a port-80 block for the
/// same names redirects to HTTPS and the main block listens on 443 with SSL,
/// else it listens on 80; with a self-signed certificate the vhost reads
/// the certificate and key that the `openssl` step writes.
#[verifier::spinoff_prover]
#[verifier::rlimit(40)]
pub proof fn lemma_nginx_vhost_head(a: Answers, password: Seq<char>, obs: Option<OpenObserve>)
    requires
        a.server == Server::Nginx,
    ensures
        ({
            let steps = spec_build_steps(a, password, obs);
            let fqn = a.spec_fqn();
            let file = seq!["/etc/nginx/sites-available/"@ + fqn + ".conf"@];
            let names = answered_names(a);
            let cert = "/etc/ssl/certs/"@ + fqn + "-selfsigned.crt"@;
            let key = "/etc/ssl/private/"@ + fqn + "-selfsigned.key"@;
            &&& exists|i: int|
                0 <= i < steps.len() && #[trigger] writes(steps[i], file, "    server_name "@ + names + ";\n"@)
                    && (a.nginx_https ==> writes(
                    steps[i],
                    file,
                    "server {\n    listen 80;\n    listen [::]:80;\n    server_name "@ + names
                        + ";\n    return 301 https://$host$request_uri;\n}\n"@,
                )) && (a.nginx_https ==> writes(
                    steps[i],
                    file,
                    "server {\n    listen 443 ssl;\n    listen [::]:443 ssl;\n"@,
                )) && (!a.nginx_https ==> writes(
                    steps[i],
                    file,
                    "server {\n    listen 80;\n    listen [::]:80;\n"@,
                )) && (a.nginx_https && !a.letsencrypt ==> writes(
                    steps[i],
                    file,
                    "    ssl_certificate "@ + cert + ";\n    ssl_certificate_key "@ + key + ";\n"@,
                ))
            &&& a.nginx_https && !a.letsencrypt ==> exists|j: int|
                0 <= j < steps.len() && makes_certificate(#[trigger] steps[j], key, cert)
        }),
{
    reveal_strlit("    ssl_certificate /etc/ssl/certs/");
    reveal_strlit("    ssl_certificate ");
    reveal_strlit("/etc/ssl/certs/");
    reveal_strlit("-selfsigned.crt;\n    ssl_certificate_key /etc/ssl/private/");
    reveal_strlit("-selfsigned.crt");
    reveal_strlit(";\n    ssl_certificate_key ");
    reveal_strlit("/etc/ssl/private/");
    reveal_strlit("-selfsigned.key;\n");
    reveal_strlit("-selfsigned.key");
    reveal_strlit(";\n");
    reveal_strlit("openssl");
    reveal_strlit("runuser");
    let fqn = a.spec_fqn();
    let json = obs is Some;
    lemma_nginx_head_lines(a);
    let names = answered_names(a);
    let cert = "/etc/ssl/certs/"@ + fqn + "-selfsigned.crt"@;
    let key = "/etc/ssl/private/"@ + fqn + "-selfsigned.key"@;
    let t1 = "    server_name "@ + names + ";\n"@;
    let t2 = "server {\n    listen 80;\n    listen [::]:80;\n    server_name "@ + names
        + ";\n    return 301 https://$host$request_uri;\n}\n"@;
    let t3 = "server {\n    listen 443 ssl;\n    listen [::]:443 ssl;\n"@;
    let t4 = "server {\n    listen 80;\n    listen [::]:80;\n"@;
    let t5 = "    ssl_certificate "@ + cert + ";\n    ssl_certificate_key "@ + key + ";\n"@;
    assert(t5 =~= "    ssl_certificate /etc/ssl/certs/"@ + fqn + "-selfsigned.crt;\n    ssl_certificate_key /etc/ssl/private/"@
        + fqn + "-selfsigned.key;\n"@);
    lemma_nginx_head_in_conf(a, fqn, json, t1);
    if a.nginx_https {
        lemma_nginx_head_in_conf(a, fqn, json, t2);
        lemma_nginx_head_in_conf(a, fqn, json, t3);
    } else {
        lemma_nginx_head_in_conf(a, fqn, json, t4);
    }
    if self_signed(a) {
        lemma_nginx_head_in_conf(a, fqn, json, t5);
    }
    lemma_vhost_step(a, password, obs);
    let k: int = if a.docker { 0 } else { 2 };
    let steps = spec_build_steps(a, password, obs);
    let file = seq!["/etc/nginx/sites-available/"@ + fqn + ".conf"@];
    assert(writes(steps[k], file, t1));
    assert(a.nginx_https ==> writes(steps[k], file, t2));
    assert(a.nginx_https ==> writes(steps[k], file, t3));
    assert(!a.nginx_https ==> writes(steps[k], file, t4));
    assert(a.nginx_https && !a.letsencrypt ==> writes(steps[k], file, t5));
    if self_signed(a) {
        let d = docroot_plan(a, fqn);
        let v = vhost_plan(a, fqn, json);
        assert(v[2].program == "openssl"@);
        lemma_part_index(
            d,
            v,
            shipping_plan(a, fqn, obs),
            ownership_plan(a),
            certbot_plan(a, fqn),
            database_plan(a, fqn, password),
            finish_plan(a),
            2,
        );
        let j: int = k + 2;
        assert(planned_steps(a, password, obs)[j] == v[2]);
        assert("openssl"@[0] != "runuser"@[0]);
        lemma_sudo_step(a, password, obs, j);
        let args = seq!["openssl"@] + crate::generate::openssl_args(a, fqn);
        assert(steps[j].args == args);
        assert(args.len() == 14);
        assert(args[0] == "openssl"@ && args[1] == "req"@ && args[2] == "-x509"@);
        assert(args[8] == "-keyout"@ && args[9] == key && args[10] == "-out"@ && args[11] == cert);
        assert(makes_certificate(steps[j], key, cert));
        assert(0 <= j < steps.len());
    }
}

/// On nginx with a docker proxy, `location /` passes requests to the
/// container's host port on the loopback address.
#[verifier::spinoff_prover]
#[verifier::rlimit(40)]
pub proof fn lemma_docker_proxy_port(a: Answers, password: Seq<char>, obs: Option<OpenObserve>)
    requires
        a.server == Server::Nginx,
        a.docker,
    ensures
        exists|i: int|
            0 <= i < spec_build_steps(a, password, obs).len() && writes(
                #[trigger] spec_build_steps(a, password, obs)[i],
                seq!["/etc/nginx/sites-available/"@ + a.spec_fqn() + ".conf"@],
                "    location / {\n        proxy_pass http://127.0.0.1:"@ + crate::text::decimal(
                    a.docker_host_port as nat,
                ) + ";\n"@,
            ),
{
    reveal_strlit(";\n");
    let fqn = a.spec_fqn();
    let json = obs is Some;
    let port = crate::text::decimal(a.docker_host_port as nat);
    let lit = ";\n        proxy_set_header Host $host;\n        proxy_set_header X-Real-IP $remote_addr;\n        proxy_set_header X-Forwarded-For $proxy_add_x_forwarded_for;\n        # Important: Tell your app that it's behind HTTPS\n        proxy_set_header X-Forwarded-Proto $scheme;\n    }\n"@;
    let rest = "        proxy_set_header Host $host;\n        proxy_set_header X-Real-IP $remote_addr;\n        proxy_set_header X-Forwarded-For $proxy_add_x_forwarded_for;\n        # Important: Tell your app that it's behind HTTPS\n        proxy_set_header X-Forwarded-Proto $scheme;\n    }\n"@;
    reveal_strlit(";\n        proxy_set_header Host $host;\n        proxy_set_header X-Real-IP $remote_addr;\n        proxy_set_header X-Forwarded-For $proxy_add_x_forwarded_for;\n        # Important: Tell your app that it's behind HTTPS\n        proxy_set_header X-Forwarded-Proto $scheme;\n    }\n");
    reveal_strlit("        proxy_set_header Host $host;\n        proxy_set_header X-Real-IP $remote_addr;\n        proxy_set_header X-Forwarded-For $proxy_add_x_forwarded_for;\n        # Important: Tell your app that it's behind HTTPS\n        proxy_set_header X-Forwarded-Proto $scheme;\n    }\n");
    assert(lit =~= ";\n"@ + rest);
    let t = "    location / {\n        proxy_pass http://127.0.0.1:"@ + port + ";\n"@;
    let block = crate::generate::nginx_proxy_block(a.docker_host_port);
    assert(block =~= Seq::<char>::empty() + t + rest);
    lemma_has_text(Seq::empty(), t, rest);
    let head = nginx_head(a, fqn);
    let logs = crate::generate::when(a.nginx_logs, nginx_log_lines(fqn, json));
    lemma_has_text_prepend(head, block, t);
    lemma_has_text_append(head + block, logs, t);
    lemma_has_text_append(head + block + logs, "}\n"@, t);
    assert(nginx_conf(a, fqn, json) == head + block + logs + "}\n"@);
    lemma_vhost_writes(a, password, obs, t);
}

/// The apache vhost names the admin's email, answers for the fqn, and for a
/// bare domain for `www.<fqn>` too.
#[verifier::spinoff_prover]
#[verifier::rlimit(40)]
pub proof fn lemma_apache_vhost_names(a: Answers, password: Seq<char>, obs: Option<OpenObserve>)
    requires
        a.server == Server::Apache,
    ensures
        exists|i: int|
            0 <= i < spec_build_steps(a, password, obs).len() && #[trigger] writes(
                spec_build_steps(a, password, obs)[i],
                seq!["/etc/apache2/sites-available/"@ + a.spec_fqn() + ".conf"@],
                "<VirtualHost *:80>\n    ServerAdmin "@ + a.email@ + "\n    ServerName "@ + a.spec_fqn() + "\n"@,
            ) && (a.subdomain@.len() == 0 ==> writes(
                spec_build_steps(a, password, obs)[i],
                seq!["/etc/apache2/sites-available/"@ + a.spec_fqn() + ".conf"@],
                "\n    ServerAlias www."@ + a.spec_fqn() + "\n"@,
            )),
{
    reveal_strlit("\n");
    reveal_strlit("    ServerAlias www.");
    reveal_strlit("\n    ServerAlias www.");
    let fqn = a.spec_fqn();
    let conf = apache_conf(a, fqn);
    let t1 = "<VirtualHost *:80>\n    ServerAdmin "@ + a.email@ + "\n    ServerName "@ + fqn + "\n"@;
    let alias = if a.spec_is_implicit_www() {
        "    ServerAlias www."@ + fqn + "\n"@
    } else {
        Seq::empty()
    };
    let rest = "    DocumentRoot /var/www/"@ + a.spec_dir() + "\n</VirtualHost>\n"@;
    assert(conf =~= Seq::<char>::empty() + t1 + (alias + rest));
    lemma_has_text(Seq::empty(), t1, alias + rest);
    lemma_vhost_writes(a, password, obs, t1);
    lemma_vhost_step(a, password, obs);
    let k: int = if a.docker { 0 } else { 2 };
    if a.subdomain@.len() == 0 {
        let t2 = "\n    ServerAlias www."@ + fqn + "\n"@;
        let x = "<VirtualHost *:80>\n    ServerAdmin "@ + a.email@ + "\n    ServerName "@ + fqn;
        assert(t1 =~= x + "\n"@);
        assert("\n    ServerAlias www."@ =~= "\n"@ + "    ServerAlias www."@);
        assert(conf =~= x + t2 + rest);
        lemma_has_text(x, t2, rest);
        assert(writes(spec_build_steps(a, password, obs)[k], seq!["/etc/apache2/sites-available/"@ + fqn + ".conf"@], t2));
    }
    assert(writes(spec_build_steps(a, password, obs)[k], seq!["/etc/apache2/sites-available/"@ + fqn + ".conf"@], t1));
}

/// Position `x.len() + k` of `x + m + c + db + f` holds `m[k]`.
proof fn lemma_fourth_part_index(
    x: Seq<StepView>,
    m: Seq<StepView>,
    c: Seq<StepView>,
    db: Seq<StepView>,
    f: Seq<StepView>,
    k: int,
)
    requires
        0 <= k < m.len(),
    ensures
        x.len() + k < (x + m + c + db + f).len(),
        (x + m + c + db + f)[x.len() + k] == m[k],
{
    let i = x.len() + k;
    assert((x + m)[i] == m[k]);
    assert((x + m + c)[i] == m[k]);
    assert((x + m + c + db)[i] == m[k]);
}

/// Without a docker proxy the setup first makes the document root, then
/// writes a placeholder `index.html` in it that shows the fqn, and later
/// hands the domain's folder under `/var/www` to the server user and the
/// `www-data` group.
#[verifier::spinoff_prover]
#[verifier::rlimit(40)]
pub proof fn lemma_docroot_and_ownership(a: Answers, password: Seq<char>, obs: Option<OpenObserve>)
    requires
        !a.docker,
        a.public || a.subdomain@.len() == 0 || a.subdomain@.last() != '/',
    ensures
        ({
            let steps = spec_build_steps(a, password, obs);
            &&& steps.len() > 1
            &&& steps[0].program == "sudo"@
            &&& steps[0].args == seq!["mkdir"@, "-p"@, document_root(a)]
            &&& steps[1].program == "sudo"@
            &&& steps[1].args == seq!["tee"@, document_root(a) + "/index.html"@]
            &&& steps[1].stdin == Some("<h1>"@ + a.spec_fqn() + "</h1>\n"@)
            &&& exists|i: int|
                0 <= i < steps.len() && #[trigger] steps[i].args == seq![
                    "chown"@,
                    "-R"@,
                    a.server_user@ + ":www-data"@,
                    "/var/www/"@ + a.domain@,
                ] && steps[i].program == "sudo"@
        }),
{
    reveal_strlit("mkdir");
    reveal_strlit("tee");
    reveal_strlit("chown");
    reveal_strlit("runuser");
    reveal_strlit("www");
    reveal_strlit("/public");
    let fqn = a.spec_fqn();
    let json = obs is Some;
    let steps = spec_build_steps(a, password, obs);
    let d = docroot_plan(a, fqn);
    let v = vhost_plan(a, fqn, json);
    let sh = shipping_plan(a, fqn, obs);
    let o = ownership_plan(a);
    let c = certbot_plan(a, fqn);
    let db = database_plan(a, fqn, password);
    let f = finish_plan(a);
    lemma_document_root(a);
    let root = document_root(a);
    assert(root.last() != '/') by {
        if a.public {
            assert(root.last() == "/public"@.last());
        } else if a.subdomain@.len() == 0 {
            assert(root.last() == "www"@.last());
        } else {
            assert(root.last() == a.subdomain@.last());
        }
    }
    assert(crate::text::strip_trailing(root, '/') == root);
    lemma_part_index(Seq::empty(), d, v, sh, o, c + db, f, 0);
    lemma_part_index(Seq::empty(), d, v, sh, o, c + db, f, 1);
    assert(planned_steps(a, password, obs) =~= Seq::<StepView>::empty() + d + v + sh + o + (c + db) + f);
    assert(planned_steps(a, password, obs)[0] == d[0]);
    assert(planned_steps(a, password, obs)[1] == d[1]);
    assert("mkdir"@.len() != "runuser"@.len());
    assert("tee"@.len() != "runuser"@.len());
    lemma_sudo_step(a, password, obs, 0);
    lemma_sudo_step(a, password, obs, 1);
    assert(steps[0].args =~= seq!["mkdir"@, "-p"@, root]);
    assert(steps[1].args =~= seq!["tee"@, root + "/index.html"@]);
    lemma_fourth_part_index(d + v + sh, o, c, db, f, 0);
    let i: int = (d + v + sh).len() as int;
    assert(planned_steps(a, password, obs) == d + v + sh + o + c + db + f);
    assert(planned_steps(a, password, obs)[i] == o[0]);
    assert("chown"@.len() != "runuser"@.len());
    lemma_sudo_step(a, password, obs, i);
    assert(steps[i].args =~= seq!["chown"@, "-R"@, a.server_user@ + ":www-data"@, "/var/www/"@ + a.domain@]);
}

/// With Let's Encrypt chosen, certbot is asked for a certificate for the
/// fqn through the chosen server's plugin.
#[verifier::spinoff_prover]
#[verifier::rlimit(40)]
pub proof fn lemma_certbot_for_fqn(a: Answers, password: Seq<char>, obs: Option<OpenObserve>)
    requires
        a.letsencrypt,
    ensures
        exists|i: int|
            0 <= i < spec_build_steps(a, password, obs).len() && #[trigger] spec_build_steps(
                a,
                password,
                obs,
            )[i].args == seq![
                "certbot"@,
                if a.server == Server::Nginx {
                    "--nginx"@
                } else {
                    "--apache"@
                },
                "-d"@,
                a.spec_fqn(),
            ] && spec_build_steps(a, password, obs)[i].program == "sudo"@,
{
    reveal_strlit("certbot");
    reveal_strlit("runuser");
    let fqn = a.spec_fqn();
    let json = obs is Some;
    let steps = spec_build_steps(a, password, obs);
    let x = docroot_plan(a, fqn) + vhost_plan(a, fqn, json) + shipping_plan(a, fqn, obs) + ownership_plan(a);
    let c = certbot_plan(a, fqn);
    let db = database_plan(a, fqn, password);
    let f = finish_plan(a);
    let i: int = x.len() as int;
    assert((x + c)[i] == c[0]);
    assert((x + c + db)[i] == c[0]);
    assert((x + c + db + f)[i] == c[0]);
    assert(planned_steps(a, password, obs) == x + c + db + f);
    assert("certbot"@[0] != "runuser"@[0]);
    lemma_sudo_step(a, password, obs, i);
    assert(steps[i].args =~= seq![
        "certbot"@,
        if a.server == Server::Nginx {
            "--nginx"@
        } else {
            "--apache"@
        },
        "-d"@,
        fqn,
    ]);
}

/// The setup always ends by testing the server's configuration and then
/// restarting the server.
#[verifier::spinoff_prover]
#[verifier::rlimit(40)]
pub proof fn lemma_ends_with_config_test_and_restart(a: Answers, password: Seq<char>, obs: Option<OpenObserve>)
    ensures
        ({
            let steps = spec_build_steps(a, password, obs);
            let n = steps.len();
            &&& n >= 2
            &&& steps[n - 2].program == "sudo"@
            &&& steps[n - 1].program == "sudo"@
            &&& a.server == Server::Nginx ==> steps[n - 2].args == seq!["nginx"@, "-t"@]
                && steps[n - 1].args == seq!["service"@, "nginx"@, "restart"@]
            &&& a.server == Server::Apache ==> steps[n - 2].args == seq!["apachectl"@, "configtest"@]
                && steps[n - 1].args == seq!["service"@, "apache2"@, "restart"@]
        }),
{
    reveal_strlit("runuser");
    reveal_strlit("nginx");
    reveal_strlit("service");
    reveal_strlit("apachectl");
    let fqn = a.spec_fqn();
    let json = obs is Some;
    let steps = spec_build_steps(a, password, obs);
    let p = planned_steps(a, password, obs);
    let x = docroot_plan(a, fqn) + vhost_plan(a, fqn, json) + shipping_plan(a, fqn, obs) + ownership_plan(a)
        + certbot_plan(a, fqn) + database_plan(a, fqn, password);
    let f = finish_plan(a);
    assert(p == x + f);
    assert(f.len() == 2);
    let n = p.len();
    assert(p[n - 2] == f[0]);
    assert(p[n - 1] == f[1]);
    assert("service"@[0] != "runuser"@[0]);
    assert("nginx"@.len() != "runuser"@.len());
    assert("apachectl"@.len() != "runuser"@.len());
    lemma_sudo_step(a, password, obs, n - 2);
    lemma_sudo_step(a, password, obs, n - 1);
    if a.server == Server::Nginx {
        assert(steps[n - 2].args =~= seq!["nginx"@, "-t"@]);
        assert(steps[n - 1].args =~= seq!["service"@, "nginx"@, "restart"@]);
    } else {
        assert(steps[n - 2].args =~= seq!["apachectl"@, "configtest"@]);
        assert(steps[n - 1].args =~= seq!["service"@, "apache2"@, "restart"@]);
    }
}

/// The `.env` connection settings: MySQL on `127.0.0.1:3306` when MySQL is
/// chosen, PostgreSQL on `localhost:5432` when only PostgreSQL is.
#[verifier::spinoff_prover]
#[verifier::rlimit(40)]
pub proof fn lemma_env_connection(a: Answers, password: Seq<char>, obs: Option<OpenObserve>)
    requires
        a.db_mysql || a.db_pgsql,
    ensures
        exists|i: int|
            0 <= i < spec_build_steps(a, password, obs).len() && writes(
                #[trigger] spec_build_steps(a, password, obs)[i],
                seq!["/var/www/"@ + a.domain@ + "/"@ + "env-"@ + a.spec_fqn()],
                if a.db_mysql {
                    "DB_CONNECTION=\"mysql\"\nDB_HOST=\"127.0.0.1\"\nDB_PORT=\"3306\"\n"@
                } else {
                    "DB_CONNECTION=\"pgsql\"\nDB_HOST=\"localhost\"\nDB_PORT=\"5432\"\n"@
                },
            ),
{
    reveal_strlit("tee");
    reveal_strlit("runuser");
    reveal_strlit("/var/www/");
    reveal_strlit("/");
    reveal_strlit("/env-");
    reveal_strlit("env-");
    reveal_strlit("DB_CONNECTION=\"");
    reveal_strlit("mysql");
    reveal_strlit("pgsql");
    reveal_strlit("\"\nDB_HOST=\"");
    reveal_strlit("127.0.0.1");
    reveal_strlit("localhost");
    reveal_strlit("\"\nDB_PORT=\"");
    reveal_strlit("3306");
    reveal_strlit("5432");
    reveal_strlit("\"\nDB_DATABASE=\"");
    reveal_strlit("\"\n");
    reveal_strlit("DB_DATABASE=\"");
    reveal_strlit("DB_CONNECTION=\"mysql\"\nDB_HOST=\"127.0.0.1\"\nDB_PORT=\"3306\"\n");
    reveal_strlit("DB_CONNECTION=\"pgsql\"\nDB_HOST=\"localhost\"\nDB_PORT=\"5432\"\n");
    let fqn = a.spec_fqn();
    let folder = "/var/www/"@ + a.domain@ + "/"@;
    let pg_only = a.db_pgsql && !a.db_mysql;
    let conn: Seq<char> = if pg_only { "pgsql"@ } else { "mysql"@ };
    let host: Seq<char> = if pg_only { "localhost"@ } else { "127.0.0.1"@ };
    let port: Seq<char> = if pg_only { "5432"@ } else { "3306"@ };
    let t = "DB_CONNECTION=\""@ + conn + "\"\nDB_HOST=\""@ + host + "\"\nDB_PORT=\""@ + port + "\"\n"@;
    let lit = if a.db_mysql {
        "DB_CONNECTION=\"mysql\"\nDB_HOST=\"127.0.0.1\"\nDB_PORT=\"3306\"\n"@
    } else {
        "DB_CONNECTION=\"pgsql\"\nDB_HOST=\"localhost\"\nDB_PORT=\"5432\"\n"@
    };
    assert(t =~= lit);
    assert("\"\nDB_DATABASE=\""@ =~= "\"\n"@ + "DB_DATABASE=\""@);
    let y = "DB_DATABASE=\""@ + a.spec_dbname() + "\"\nDB_USERNAME=\""@ + a.spec_username() + "\"\nDB_PASSWORD=\""@
        + password + "\"\n"@;
    let env = crate::generate::env_text(a, password);
    assert(env =~= Seq::<char>::empty() + t + y);
    lemma_has_text(Seq::empty(), t, y);
    let plan = database_plan(a, fqn, password);
    let k: int = plan.len() - 1;
    assert(plan[k].program == "tee"@ && plan[k].stdin == Some(env));
    assert(plan[k].args == seq![crate::generate::env_path(a, fqn)]);
    assert(crate::generate::env_path(a, fqn) =~= folder + "env-"@ + fqn);
    lemma_database_step(a, password, obs, k);
    let i = choose|i: int|
        0 <= i < spec_build_steps(a, password, obs).len() && #[trigger] spec_build_steps(a, password, obs)[i]
            == under_sudo(plan[k]);
    assert(writes(spec_build_steps(a, password, obs)[i], seq![folder + "env-"@ + fqn], lit));
}

} // verus!
