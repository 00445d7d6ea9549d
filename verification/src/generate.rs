//! The shell steps that set up a site: document root, vhost, log shipping,
//! ownership, certificates, database files, and the final server restart.

use vstd::prelude::*;

use crate::config::{Answers, Server};
use crate::text::{
    decimal, push_decimal, same_text, strip_both, strip_prefixes, strip_suffixes, strip_trailing,
    trim, trim_char, trim_end_char, trim_end_str, trim_start_str, trimmed, underscored,
    replace_dots_dashes,
};

verus! {

/// OpenObserve ingestion endpoint and credentials for Fluent Bit.
#[derive(Debug, Clone)]
pub struct OpenObserve {
    pub host: String,
    pub port: String,
    pub user: String,
    pub passwd: String,
}

/// One shell command to run, with an optional stdin payload (heredoc body).
#[derive(Debug)]
pub struct Step {
    pub description: String,
    pub icon: &'static str,
    pub program: String,
    pub args: Vec<String>,
    pub stdin: Option<String>,
}

/// A step as plain text.
pub struct StepView {
    pub description: Seq<char>,
    pub icon: Seq<char>,
    pub program: Seq<char>,
    pub args: Seq<Seq<char>>,
    pub stdin: Option<Seq<char>>,
}

/// The text of each string in `v`.
pub open spec fn texts(v: Seq<String>) -> Seq<Seq<char>> {
    v.map_values(|s: String| s@)
}

/// The text of an optional string.
pub open spec fn opt_text(o: Option<String>) -> Option<Seq<char>> {
    match o {
        Some(s) => Some(s@),
        None => None,
    }
}

impl View for Step {
    type V = StepView;

    open spec fn view(&self) -> StepView {
        StepView {
            description: self.description@,
            icon: self.icon@,
            program: self.program@,
            args: texts(self.args@),
            stdin: opt_text(self.stdin),
        }
    }
}

/// The views of a list of steps.
pub open spec fn step_views(v: Seq<Step>) -> Seq<StepView> {
    v.map_values(|s: Step| s@)
}

/// A step built from its parts.
pub open spec fn mk(
    description: Seq<char>,
    icon: Seq<char>,
    program: Seq<char>,
    args: Seq<Seq<char>>,
    stdin: Option<Seq<char>>,
) -> StepView {
    StepView { description, icon, program, args, stdin }
}

fn new_step(
    description: String,
    icon: &'static str,
    program: &str,
    args: Vec<String>,
    stdin: Option<String>,
) -> (r: Step)
    ensures
        r@ == mk(description@, icon@, program@, texts(args@), opt_text(stdin)),
{
    Step { description, icon, program: program.to_owned(), args, stdin }
}

fn text(s: &str) -> (r: String)
    ensures
        r@ == s@,
{
    s.to_owned()
}

fn args1(a: String) -> (v: Vec<String>)
    ensures
        texts(v@) == seq![a@],
{
    let mut v = Vec::new();
    v.push(a);
    assert(texts(v@) =~= seq![a@]);
    v
}

fn args2(a: String, b: String) -> (v: Vec<String>)
    ensures
        texts(v@) == seq![a@, b@],
{
    let mut v = Vec::new();
    v.push(a);
    v.push(b);
    assert(texts(v@) =~= seq![a@, b@]);
    v
}

fn args3(a: String, b: String, c: String) -> (v: Vec<String>)
    ensures
        texts(v@) == seq![a@, b@, c@],
{
    let mut v = Vec::new();
    v.push(a);
    v.push(b);
    v.push(c);
    assert(texts(v@) =~= seq![a@, b@, c@]);
    v
}

/// The `.env` text for the chosen databases: PostgreSQL settings when only
/// PostgreSQL is chosen, MySQL settings otherwise.
pub open spec fn env_text(a: Answers, password: Seq<char>) -> Seq<char> {
    let pg_only = a.db_pgsql && !a.db_mysql;
    "DB_CONNECTION=\""@ + (if pg_only { "pgsql"@ } else { "mysql"@ }) + "\"\nDB_HOST=\""@ + (
    if pg_only {
        "localhost"@
    } else {
        "127.0.0.1"@
    }) + "\"\nDB_PORT=\""@ + (if pg_only { "5432"@ } else { "3306"@ }) + "\"\nDB_DATABASE=\""@
        + a.spec_dbname() + "\"\nDB_USERNAME=\""@ + a.spec_username() + "\"\nDB_PASSWORD=\""@
        + password + "\"\n"@
}

/// `None` when no database is chosen, else the `.env` text.
pub open spec fn spec_env_snippet(a: Answers, password: Seq<char>) -> Option<Seq<char>> {
    if !a.db_mysql && !a.db_pgsql {
        None
    } else {
        Some(env_text(a, password))
    }
}

/// `.env` settings for the chosen databases, or `None` when there is none.
pub fn env_snippet(a: &Answers, password: &str) -> (r: Option<String>)
    ensures
        opt_text(r) == spec_env_snippet(*a, password@),
{
    if !a.db_mysql && !a.db_pgsql {
        return None;
    }
    let pg_only = a.db_pgsql && !a.db_mysql;
    let mut s = text("DB_CONNECTION=\"");
    s.append(if pg_only { "pgsql" } else { "mysql" });
    s.append("\"\nDB_HOST=\"");
    s.append(if pg_only { "localhost" } else { "127.0.0.1" });
    s.append("\"\nDB_PORT=\"");
    s.append(if pg_only { "5432" } else { "3306" });
    s.append("\"\nDB_DATABASE=\"");
    s.append(a.dbname().as_str());
    s.append("\"\nDB_USERNAME=\"");
    s.append(a.username().as_str());
    s.append("\"\nDB_PASSWORD=\"");
    s.append(password);
    s.append("\"\n");
    Some(s)
}

/// The apache vhost: one `*:80` VirtualHost with admin, name, `www.` alias
/// for a bare domain, and document root.
pub open spec fn apache_conf(a: Answers, fqn: Seq<char>) -> Seq<char> {
    "<VirtualHost *:80>\n    ServerAdmin "@ + a.email@ + "\n    ServerName "@ + fqn + "\n"@ + (
    if a.spec_is_implicit_www() {
        "    ServerAlias www."@ + fqn + "\n"@
    } else {
        Seq::empty()
    }) + "    DocumentRoot /var/www/"@ + a.spec_dir() + "\n</VirtualHost>\n"@
}

/// Write the apache vhost, then enable it with `a2ensite`.
pub open spec fn apache_plan(a: Answers, fqn: Seq<char>) -> Seq<StepView> {
    seq![
        mk(
            "Write apache vhost config"@,
            "\u{2699}\u{fe0f}"@,
            "tee"@,
            seq!["/etc/apache2/sites-available/"@ + fqn + ".conf"@],
            Some(apache_conf(a, fqn)),
        ),
        mk("Enable site"@, "\u{1f517}"@, "a2ensite"@, seq![fqn + ".conf"@], None),
    ]
}

fn apache_steps(a: &Answers, fqn: &str) -> (r: Vec<Step>)
    ensures
        step_views(r@) == apache_plan(*a, fqn@),
{
    let mut conf = text("<VirtualHost *:80>\n    ServerAdmin ");
    conf.append(a.email.as_str());
    conf.append("\n    ServerName ");
    conf.append(fqn);
    conf.append("\n");
    let mut alias = String::new();
    if a.is_implicit_www() {
        alias.append("    ServerAlias www.");
        alias.append(fqn);
        alias.append("\n");
        assert(alias@ =~= "    ServerAlias www."@ + fqn@ + "\n"@);
    }
    conf.append(alias.as_str());
    conf.append("    DocumentRoot /var/www/");
    conf.append(a.dir().as_str());
    conf.append("\n</VirtualHost>\n");

    let mut path = text("/etc/apache2/sites-available/");
    path.append(fqn);
    path.append(".conf");
    let mut site = text(fqn);
    site.append(".conf");
    let mut steps = Vec::new();
    steps.push(
        new_step(text("Write apache vhost config"), "\u{2699}\u{fe0f}", "tee", args1(path), Some(conf)),
    );
    steps.push(new_step(text("Enable site"), "\u{1f517}", "a2ensite", args1(site), None));
    assert(step_views(steps@) =~= apache_plan(*a, fqn@));
    steps
}

/// `s` when `c` holds, else nothing.
pub open spec fn when(c: bool, s: Seq<char>) -> Seq<char> {
    if c {
        s
    } else {
        Seq::empty()
    }
}

/// The `server_name` list: the fqn, plus `www.<fqn>` for a bare domain.
pub open spec fn server_names(a: Answers, fqn: Seq<char>) -> Seq<char> {
    if a.spec_is_implicit_www() {
        fqn + " www."@ + fqn
    } else {
        fqn
    }
}

/// HTTPS without Let's Encrypt: a self-signed certificate is used.
pub open spec fn self_signed(a: Answers) -> bool {
    a.nginx_https && !a.letsencrypt
}

/// The port-80 server block that redirects to HTTPS.
pub open spec fn nginx_redirect_block(names: Seq<char>) -> Seq<char> {
    "server {\n    listen 80;\n    listen [::]:80;\n    server_name "@ + names
        + ";\n    return 301 https://$host$request_uri;\n}\n\n"@
}

/// The `listen` lines of the main server block.
pub open spec fn nginx_listen(https: bool) -> Seq<char> {
    if https {
        "    listen 443 ssl;\n    listen [::]:443 ssl;\n\n"@
    } else {
        "    listen 80;\n    listen [::]:80;\n\n"@
    }
}

/// The self-signed certificate and key lines.
pub open spec fn nginx_ssl_lines(fqn: Seq<char>) -> Seq<char> {
    "    ssl_certificate /etc/ssl/certs/"@ + fqn + "-selfsigned.crt;\n    ssl_certificate_key /etc/ssl/private/"@ + fqn + "-selfsigned.key;\n\n"@
}

/// The reverse proxy to the container's host port.
pub open spec fn nginx_proxy_block(port: u16) -> Seq<char> {
    "    location / {\n        proxy_pass http://127.0.0.1:"@ + decimal(port as nat)
        + ";\n        proxy_set_header Host $host;\n        proxy_set_header X-Real-IP $remote_addr;\n        proxy_set_header X-Forwarded-For $proxy_add_x_forwarded_for;\n        # Important: Tell your app that it's behind HTTPS\n        proxy_set_header X-Forwarded-Proto $scheme;\n    }\n"@
}

/// The PHP-FPM location block.
pub open spec fn nginx_php_block() -> Seq<char> {
    "\n    location ~ \\.php$ {\n        include snippets/fastcgi-php.conf;\n        fastcgi_pass unix:/run/php/php8.3-fpm.sock;\n        fastcgi_param SCRIPT_FILENAME $document_root$fastcgi_script_name;\n        include fastcgi_params;\n    }\n"@
}

/// The block that denies `.ht*` files.
pub open spec fn nginx_deny_block() -> Seq<char> {
    "\n    location ~ /\\.ht {\n        deny all;\n    }\n"@
}

/// Static files from the document root, with optional PHP and dotfile denial.
pub open spec fn nginx_static_block(a: Answers) -> Seq<char> {
    "    root /var/www/"@ + a.spec_dir() + ";\n    index "@ + when(a.nginx_php, "index.php "@)
        + "index.html index.htm;\n\n    location / {\n"@ + (if a.nginx_php {
        "        try_files $uri $uri/ /index.php?$query_string;\n"@
    } else {
        "        try_files $uri $uri/ =404;\n"@
    }) + "    }\n"@ + when(a.nginx_php, nginx_php_block()) + when(a.nginx_deny, nginx_deny_block())
}

/// The access and error log lines; the access log uses the `json_logs`
/// format when its lines are shipped as JSON.
pub open spec fn nginx_log_lines(fqn: Seq<char>, json_logs: bool) -> Seq<char> {
    "\n    access_log /var/log/nginx/"@ + fqn + ".access.log"@ + when(json_logs, " json_logs"@)
        + ";\n    error_log /var/log/nginx/"@ + fqn + ".error.log;\n"@
}

/// The nginx vhost for the answers.
pub open spec fn nginx_conf(a: Answers, fqn: Seq<char>, json_logs: bool) -> Seq<char> {
    let names = server_names(a, fqn);
    when(a.nginx_https, nginx_redirect_block(names)) + "server {\n"@ + nginx_listen(a.nginx_https)
        + "    server_name "@ + names + ";\n\n"@ + when(self_signed(a), nginx_ssl_lines(fqn)) + (
    if a.docker {
        nginx_proxy_block(a.docker_host_port)
    } else {
        nginx_static_block(a)
    }) + when(a.nginx_logs, nginx_log_lines(fqn, json_logs)) + "}\n"@
}

/// The `openssl` invocation that makes the self-signed certificate.
pub open spec fn openssl_args(a: Answers, fqn: Seq<char>) -> Seq<Seq<char>> {
    seq![
        "req"@,
        "-x509"@,
        "-nodes"@,
        "-days"@,
        "365"@,
        "-newkey"@,
        "rsa:2048"@,
        "-keyout"@,
        "/etc/ssl/private/"@ + fqn + "-selfsigned.key"@,
        "-out"@,
        "/etc/ssl/certs/"@ + fqn + "-selfsigned.crt"@,
        "-subj"@,
        "/C=NZ/ST=Wellington/L=NGAW/O=NGAW/OU=Unit/CN="@ + fqn + "/emailAddress="@ + a.email@,
    ]
}

/// Write the nginx vhost, link it into `sites-enabled`, and make the
/// self-signed certificate when one is used.
pub open spec fn nginx_plan(a: Answers, fqn: Seq<char>, json_logs: bool) -> Seq<StepView> {
    let path = "/etc/nginx/sites-available/"@ + fqn + ".conf"@;
    seq![
        mk(
            "Write nginx vhost config"@,
            "\u{2699}\u{fe0f}"@,
            "tee"@,
            seq![path],
            Some(nginx_conf(a, fqn, json_logs)),
        ),
        mk("Enable site"@, "\u{1f517}"@, "ln"@, seq!["-sfn"@, path, "/etc/nginx/sites-enabled/"@], None),
    ] + if self_signed(a) {
        seq![
            mk(
                "Generate self-signed certificate"@,
                "\u{1f511}"@,
                "openssl"@,
                openssl_args(a, fqn),
                None,
            ),
        ]
    } else {
        Seq::empty()
    }
}

fn when_text(c: bool, s: &str) -> (r: String)
    ensures
        r@ == when(c, s@),
{
    if c {
        text(s)
    } else {
        String::new()
    }
}

fn nginx_conf_text(a: &Answers, fqn: &str, json_logs: bool) -> (r: String)
    ensures
        r@ == nginx_conf(*a, fqn@, json_logs),
{
    let implicit = a.is_implicit_www();
    let mut names = text(fqn);
    if implicit {
        names.append(" www.");
        names.append(fqn);
    }
    let mut redirect = String::new();
    if a.nginx_https {
        redirect.append("server {\n    listen 80;\n    listen [::]:80;\n    server_name ");
        redirect.append(names.as_str());
        redirect.append(";\n    return 301 https://$host$request_uri;\n}\n\n");
        assert(redirect@ =~= nginx_redirect_block(names@));
    }
    let mut ssl = String::new();
    if a.nginx_https && !a.letsencrypt {
        ssl.append("    ssl_certificate /etc/ssl/certs/");
        ssl.append(fqn);
        ssl.append("-selfsigned.crt;\n    ssl_certificate_key /etc/ssl/private/");
        ssl.append(fqn);
        ssl.append("-selfsigned.key;\n\n");
        assert(ssl@ =~= nginx_ssl_lines(fqn@));
    }
    let mut body = String::new();
    if a.docker {
        body.append("    location / {\n        proxy_pass http://127.0.0.1:");
        push_decimal(&mut body, a.docker_host_port as u64);
        body.append(";\n        proxy_set_header Host $host;\n        proxy_set_header X-Real-IP $remote_addr;\n        proxy_set_header X-Forwarded-For $proxy_add_x_forwarded_for;\n        # Important: Tell your app that it's behind HTTPS\n        proxy_set_header X-Forwarded-Proto $scheme;\n    }\n");
        assert(body@ =~= nginx_proxy_block(a.docker_host_port));
    } else {
        body.append("    root /var/www/");
        body.append(a.dir().as_str());
        body.append(";\n    index ");
        body.append(when_text(a.nginx_php, "index.php ").as_str());
        body.append("index.html index.htm;\n\n    location / {\n");
        body.append(
            if a.nginx_php {
                "        try_files $uri $uri/ /index.php?$query_string;\n"
            } else {
                "        try_files $uri $uri/ =404;\n"
            },
        );
        body.append("    }\n");
        body.append(when_text(a.nginx_php, "\n    location ~ \\.php$ {\n        include snippets/fastcgi-php.conf;\n        fastcgi_pass unix:/run/php/php8.3-fpm.sock;\n        fastcgi_param SCRIPT_FILENAME $document_root$fastcgi_script_name;\n        include fastcgi_params;\n    }\n").as_str());
        body.append(when_text(a.nginx_deny, "\n    location ~ /\\.ht {\n        deny all;\n    }\n").as_str());
    }
    let mut logs = String::new();
    if a.nginx_logs {
        logs.append("\n    access_log /var/log/nginx/");
        logs.append(fqn);
        logs.append(".access.log");
        logs.append(when_text(json_logs, " json_logs").as_str());
        logs.append(";\n    error_log /var/log/nginx/");
        logs.append(fqn);
        logs.append(".error.log;\n");
        assert(logs@ =~= nginx_log_lines(fqn@, json_logs));
    }
    let mut conf = redirect;
    conf.append("server {\n");
    conf.append(
        if a.nginx_https {
            "    listen 443 ssl;\n    listen [::]:443 ssl;\n\n"
        } else {
            "    listen 80;\n    listen [::]:80;\n\n"
        },
    );
    conf.append("    server_name ");
    conf.append(names.as_str());
    conf.append(";\n\n");
    conf.append(ssl.as_str());
    conf.append(body.as_str());
    conf.append(logs.as_str());
    conf.append("}\n");
    conf
}

fn nginx_steps(a: &Answers, fqn: &str, json_logs: bool) -> (r: Vec<Step>)
    ensures
        step_views(r@) == nginx_plan(*a, fqn@, json_logs),
{
    let conf = nginx_conf_text(a, fqn, json_logs);
    let mut path = text("/etc/nginx/sites-available/");
    path.append(fqn);
    path.append(".conf");
    let link_target = path.clone();
    let mut steps = Vec::new();
    steps.push(
        new_step(text("Write nginx vhost config"), "\u{2699}\u{fe0f}", "tee", args1(path), Some(conf)),
    );
    steps.push(
        new_step(
            text("Enable site"),
            "\u{1f517}",
            "ln",
            args3(text("-sfn"), link_target, text("/etc/nginx/sites-enabled/")),
            None,
        ),
    );
    if a.nginx_https && !a.letsencrypt {
        let mut key = text("/etc/ssl/private/");
        key.append(fqn);
        key.append("-selfsigned.key");
        let mut crt = text("/etc/ssl/certs/");
        crt.append(fqn);
        crt.append("-selfsigned.crt");
        let mut subj = text("/C=NZ/ST=Wellington/L=NGAW/O=NGAW/OU=Unit/CN=");
        subj.append(fqn);
        subj.append("/emailAddress=");
        subj.append(a.email.as_str());
        let mut args = Vec::new();
        args.push(text("req"));
        args.push(text("-x509"));
        args.push(text("-nodes"));
        args.push(text("-days"));
        args.push(text("365"));
        args.push(text("-newkey"));
        args.push(text("rsa:2048"));
        args.push(text("-keyout"));
        args.push(key);
        args.push(text("-out"));
        args.push(crt);
        args.push(text("-subj"));
        args.push(subj);
        assert(texts(args@) =~= openssl_args(*a, fqn@));
        steps.push(
            new_step(text("Generate self-signed certificate"), "\u{1f511}", "openssl", args, None),
        );
    }
    assert(step_views(steps@) =~= nginx_plan(*a, fqn@, json_logs));
    steps
}

/// The site name used in Fluent Bit tags, streams and state files: the
/// document root without the domain, the outer `/`s and the `/public`
/// suffix, with `.` and `-` turned into `_`.
pub open spec fn log_site(a: Answers) -> Seq<char> {
    underscored(strip_suffixes(strip_both(strip_prefixes(a.spec_dir(), a.domain@), '/'), "/public"@))
}

/// Two tail inputs (access and error log) and two HTTP outputs to
/// OpenObserve, appended to fluent-bit.conf.
pub open spec fn fluentbit_conf(fqn: Seq<char>, site: Seq<char>, obs: OpenObserve) -> Seq<char> {
    "\n[INPUT]\n    Name              tail\n    Path              /var/log/nginx/"@ + fqn + ".access.log\n    Parser            json\n    Tag               "@ + site + ".access\n    Skip_Long_Lines   On\n    Read_From_Head    Off\n    DB                /var/lib/fluent-bit/"@ + site + "-access.db\n\n[INPUT]\n    Name              tail\n    Path              /var/log/nginx/"@ + fqn + ".error.log\n    Parser            nginx_error\n    Tag               "@ + site + ".error\n    Skip_Long_Lines   On\n    Read_From_Head    Off\n    DB                /var/lib/fluent-bit/"@ + site + "-error.db\n\n[OUTPUT]\n    Name              http\n    Match             "@ + site + ".access\n    Host              "@ + obs.host@ + "\n    Port              "@ + obs.port@ + "\n    URI               /api/default/"@ + site + "/_json\n    Format            json\n    HTTP_User         "@ + obs.user@ + "\n    HTTP_Passwd       "@ + obs.passwd@ + "\n    tls               off\n\n[OUTPUT]\n    Name              http\n    Match             "@ + site + ".error\n    Host              "@ + obs.host@ + "\n    Port              "@ + obs.port@ + "\n    URI               /api/default/"@ + site + "_error/_json\n    Format            json\n    HTTP_User         "@ + obs.user@ + "\n    HTTP_Passwd       "@ + obs.passwd@ + "\n    tls               off\n"@
}

/// Append the Fluent Bit blocks for the site, then restart Fluent Bit.
pub open spec fn fluentbit_plan(a: Answers, fqn: Seq<char>, obs: OpenObserve) -> Seq<StepView> {
    let site = log_site(a);
    seq![
        mk(
            "Append Fluent Bit inputs/outputs for "@ + site,
            "\u{1fab5}"@,
            "tee"@,
            seq!["-a"@, "/etc/fluent-bit/fluent-bit.conf"@],
            Some(fluentbit_conf(fqn, site, obs)),
        ),
        mk("Restart Fluent Bit"@, "\u{1f504}"@, "systemctl"@, seq!["restart"@, "fluent-bit"@], None),
    ]
}

/// Fluent Bit tail inputs + HTTP outputs appended to fluent-bit.conf.
/// Naming rules: tag = <site>.access/<site>.error, stream = <site>/<site>_error,
/// DB = /var/lib/fluent-bit/<site>-access.db (dashes sanitized to underscores).
fn fluentbit_steps(a: &Answers, fqn: &str, obs: &OpenObserve) -> (r: Vec<Step>)
    ensures
        step_views(r@) == fluentbit_plan(*a, fqn@, *obs),
{
    let dir = a.dir();
    let no_domain = trim_start_str(dir.as_str(), a.domain.as_str());
    let no_slash = trim_char(no_domain.as_str(), '/');
    let no_public = trim_end_str(no_slash.as_str(), "/public");
    let site = replace_dots_dashes(no_public.as_str());
    let mut conf = text("\n[INPUT]\n    Name              tail\n    Path              /var/log/nginx/");
    conf.append(fqn);
    conf.append(".access.log\n    Parser            json\n    Tag               ");
    conf.append(site.as_str());
    conf.append(".access\n    Skip_Long_Lines   On\n    Read_From_Head    Off\n    DB                /var/lib/fluent-bit/");
    conf.append(site.as_str());
    conf.append("-access.db\n\n[INPUT]\n    Name              tail\n    Path              /var/log/nginx/");
    conf.append(fqn);
    conf.append(".error.log\n    Parser            nginx_error\n    Tag               ");
    conf.append(site.as_str());
    conf.append(".error\n    Skip_Long_Lines   On\n    Read_From_Head    Off\n    DB                /var/lib/fluent-bit/");
    conf.append(site.as_str());
    conf.append("-error.db\n\n[OUTPUT]\n    Name              http\n    Match             ");
    conf.append(site.as_str());
    conf.append(".access\n    Host              ");
    conf.append(obs.host.as_str());
    conf.append("\n    Port              ");
    conf.append(obs.port.as_str());
    conf.append("\n    URI               /api/default/");
    conf.append(site.as_str());
    conf.append("/_json\n    Format            json\n    HTTP_User         ");
    conf.append(obs.user.as_str());
    conf.append("\n    HTTP_Passwd       ");
    conf.append(obs.passwd.as_str());
    conf.append("\n    tls               off\n\n[OUTPUT]\n    Name              http\n    Match             ");
    conf.append(site.as_str());
    conf.append(".error\n    Host              ");
    conf.append(obs.host.as_str());
    conf.append("\n    Port              ");
    conf.append(obs.port.as_str());
    conf.append("\n    URI               /api/default/");
    conf.append(site.as_str());
    conf.append("_error/_json\n    Format            json\n    HTTP_User         ");
    conf.append(obs.user.as_str());
    conf.append("\n    HTTP_Passwd       ");
    conf.append(obs.passwd.as_str());
    conf.append("\n    tls               off\n");
    let mut description = text("Append Fluent Bit inputs/outputs for ");
    description.append(site.as_str());
    let mut steps = Vec::new();
    steps.push(
        new_step(
            description,
            "\u{1fab5}",
            "tee",
            args2(text("-a"), text("/etc/fluent-bit/fluent-bit.conf")),
            Some(conf),
        ),
    );
    steps.push(
        new_step(
            text("Restart Fluent Bit"),
            "\u{1f504}",
            "systemctl",
            args2(text("restart"), text("fluent-bit")),
            None,
        ),
    );
    assert(step_views(steps@) =~= fluentbit_plan(*a, fqn@, *obs));
    steps
}

/// Steps for the list `c ? s : []`.
pub open spec fn when_steps(c: bool, s: Seq<StepView>) -> Seq<StepView> {
    if c {
        s
    } else {
        Seq::empty()
    }
}

/// `/var/www/<dir>`: the site's document root.
pub open spec fn site_root(a: Answers) -> Seq<char> {
    "/var/www/"@ + a.spec_dir()
}

/// `/var/www/<domain>`: the folder that holds every site of the domain.
pub open spec fn domain_folder(a: Answers) -> Seq<char> {
    "/var/www/"@ + a.domain@
}

/// Create the document root and a placeholder `index.html` (not for docker proxies).
pub open spec fn docroot_plan(a: Answers, fqn: Seq<char>) -> Seq<StepView> {
    let root = site_root(a);
    when_steps(
        !a.docker,
        seq![
            mk("Create document root "@ + root, "\u{1f4c1}"@, "mkdir"@, seq!["-p"@, root], None),
            mk(
                "Write placeholder index.html"@,
                "\u{1f4c4}"@,
                "tee"@,
                seq![strip_trailing(root, '/') + "/index.html"@],
                Some("<h1>"@ + fqn + "</h1>\n"@),
            ),
        ],
    )
}

/// The vhost steps of the chosen server.
pub open spec fn vhost_plan(a: Answers, fqn: Seq<char>, json_logs: bool) -> Seq<StepView> {
    match a.server {
        Server::Nginx => nginx_plan(a, fqn, json_logs),
        Server::Apache => apache_plan(a, fqn),
    }
}

/// Fluent Bit shipping, for nginx with logs on and an OpenObserve endpoint.
pub open spec fn shipping_plan(a: Answers, fqn: Seq<char>, obs: Option<OpenObserve>) -> Seq<StepView> {
    match obs {
        Some(o) => when_steps(a.server == Server::Nginx && a.nginx_logs, fluentbit_plan(a, fqn, o)),
        None => Seq::empty(),
    }
}

/// Hand the domain folder to `<server user>:www-data` (not for docker proxies).
pub open spec fn ownership_plan(a: Answers) -> Seq<StepView> {
    let owner = a.server_user@ + ":www-data"@;
    when_steps(
        !a.docker,
        seq![
            mk(
                "Grant ownership to "@ + owner,
                "\u{1f464}"@,
                "chown"@,
                seq!["-R"@, owner, domain_folder(a)],
                None,
            ),
        ],
    )
}

/// Ask certbot for a Let's Encrypt certificate through the server's plugin.
pub open spec fn certbot_plan(a: Answers, fqn: Seq<char>) -> Seq<StepView> {
    when_steps(
        a.letsencrypt,
        seq![
            mk(
                "Obtain Let's Encrypt certificate"@,
                "\u{1f512}"@,
                "certbot"@,
                seq![
                    if a.server == Server::Nginx {
                        "--nginx"@
                    } else {
                        "--apache"@
                    },
                    "-d"@,
                    fqn,
                ],
                None,
            ),
        ],
    )
}

/// The MySQL script: database, user with the password, grants.
pub open spec fn mysql_sql(a: Answers, password: Seq<char>) -> Seq<char> {
    let db = a.spec_dbname();
    let user = a.spec_username();
    "CREATE DATABASE "@ + db + ";\nCREATE USER '"@ + user + "'@'localhost' IDENTIFIED BY '"@ + password
        + "';\nGRANT ALL PRIVILEGES ON "@ + db + ".* TO '"@ + user + "'@'localhost';\nFLUSH PRIVILEGES;\n"@
}

/// The PostgreSQL script: database, user with the password, grants.
pub open spec fn pgsql_sql(a: Answers, password: Seq<char>) -> Seq<char> {
    let db = a.spec_dbname();
    let user = a.spec_username();
    "CREATE DATABASE "@ + db + ";\nCREATE USER "@ + user + " WITH PASSWORD '"@ + password
        + "';\nGRANT ALL PRIVILEGES ON DATABASE "@ + db + " TO "@ + user
        + ";\nGRANT ALL ON SCHEMA public TO "@ + user + ";\n"@
}

/// `/var/www/<domain>/<fqn>-mysql.sql`.
pub open spec fn mysql_path(a: Answers, fqn: Seq<char>) -> Seq<char> {
    domain_folder(a) + "/"@ + fqn + "-mysql.sql"@
}

/// `/var/www/<domain>/<fqn>-pgsql.sql`.
pub open spec fn pgsql_path(a: Answers, fqn: Seq<char>) -> Seq<char> {
    domain_folder(a) + "/"@ + fqn + "-pgsql.sql"@
}

/// `/var/www/<domain>/env-<fqn>`.
pub open spec fn env_path(a: Answers, fqn: Seq<char>) -> Seq<char> {
    domain_folder(a) + "/env-"@ + fqn
}

/// Save the SQL scripts and the `.env` into the domain folder for the user
/// to import.
pub open spec fn database_plan(a: Answers, fqn: Seq<char>, password: Seq<char>) -> Seq<StepView> {
    let folder = domain_folder(a);
    when_steps(
        a.db_mysql || a.db_pgsql,
        seq![mk("Create folder "@ + folder, "\u{1f4c1}"@, "mkdir"@, seq!["-p"@, folder], None)],
    ) + when_steps(
        a.db_mysql,
        seq![
            mk(
                "Save MySQL SQL to "@ + mysql_path(a, fqn),
                "\u{1f5c3}\u{fe0f}"@,
                "tee"@,
                seq![mysql_path(a, fqn)],
                Some(mysql_sql(a, password)),
            ),
        ],
    ) + when_steps(
        a.db_pgsql,
        seq![
            mk(
                "Save PostgreSQL SQL to "@ + pgsql_path(a, fqn),
                "\u{1f5c3}\u{fe0f}"@,
                "tee"@,
                seq![pgsql_path(a, fqn)],
                Some(pgsql_sql(a, password)),
            ),
        ],
    ) + when_steps(
        a.db_mysql || a.db_pgsql,
        seq![
            mk(
                "Save .env to "@ + env_path(a, fqn),
                "\u{1f4dd}"@,
                "tee"@,
                seq![env_path(a, fqn)],
                Some(env_text(a, password)),
            ),
        ],
    )
}

/// Test the server configuration, then restart the server.
pub open spec fn finish_plan(a: Answers) -> Seq<StepView> {
    match a.server {
        Server::Nginx => seq![
            mk("Test nginx configuration"@, "\u{1f9ea}"@, "nginx"@, seq!["-t"@], None),
            mk("Restart nginx"@, "\u{1f504}"@, "service"@, seq!["nginx"@, "restart"@], None),
        ],
        Server::Apache => seq![
            mk("Test apache configuration"@, "\u{1f9ea}"@, "apachectl"@, seq!["configtest"@], None),
            mk("Restart apache"@, "\u{1f504}"@, "service"@, seq!["apache2"@, "restart"@], None),
        ],
    }
}

/// Every step of the setup, in order, before the `sudo` wrapping. The nginx
/// access log is written as JSON when it is shipped to OpenObserve.
pub open spec fn planned_steps(a: Answers, password: Seq<char>, obs: Option<OpenObserve>) -> Seq<StepView> {
    let fqn = a.spec_fqn();
    docroot_plan(a, fqn) + vhost_plan(a, fqn, obs is Some) + shipping_plan(a, fqn, obs)
        + ownership_plan(a) + certbot_plan(a, fqn) + database_plan(a, fqn, password)
        + finish_plan(a)
}

/// The step run through `sudo`, unless it already runs as `runuser`.
pub open spec fn under_sudo(s: StepView) -> StepView {
    if s.program == "runuser"@ {
        s
    } else {
        StepView {
            description: s.description,
            icon: s.icon,
            program: "sudo"@,
            args: seq![s.program] + s.args,
            stdin: s.stdin,
        }
    }
}

/// The steps that `build_steps_with_obs` returns.
pub open spec fn spec_build_steps(a: Answers, password: Seq<char>, obs: Option<OpenObserve>) -> Seq<StepView> {
    planned_steps(a, password, obs).map_values(|s: StepView| under_sudo(s))
}

fn with_sudo(step: Step) -> (r: Step)
    ensures
        r@ == under_sudo(step@),
{
    if same_text(step.program.as_str(), "runuser") {
        step
    } else {
        let Step { description, icon, program, args, stdin } = step;
        let mut new_args = Vec::new();
        new_args.push(program);
        let mut rest = args;
        let ghost first = new_args@;
        let ghost tail = rest@;
        new_args.append(&mut rest);
        assert(texts(new_args@) =~= seq![first[0]@] + texts(tail));
        Step { description, icon, program: text("sudo"), args: new_args, stdin }
    }
}

proof fn lemma_views_concat(x: Seq<Step>, y: Seq<Step>)
    ensures
        step_views(x + y) == step_views(x) + step_views(y),
{
    assert(step_views(x + y) =~= step_views(x) + step_views(y));
}

fn push_steps(steps: &mut Vec<Step>, more: Vec<Step>)
    ensures
        step_views(final(steps)@) == step_views(old(steps)@) + step_views(more@),
{
    let mut more = more;
    let ghost added = more@;
    steps.append(&mut more);
    proof {
        lemma_views_concat(old(steps)@, added);
    }
}

fn one_step(step: Step) -> (r: Vec<Step>)
    ensures
        step_views(r@) == seq![step@],
{
    let mut v = Vec::new();
    v.push(step);
    assert(step_views(v@) =~= seq![step@]);
    v
}

fn docroot_steps(a: &Answers, fqn: &str) -> (r: Vec<Step>)
    ensures
        step_views(r@) == docroot_plan(*a, fqn@),
{
    let mut steps = Vec::new();
    if !a.docker {
        let mut root = text("/var/www/");
        root.append(a.dir().as_str());
        let mut index = trim_end_char(root.as_str(), '/');
        index.append("/index.html");
        let mut body = text("<h1>");
        body.append(fqn);
        body.append("</h1>\n");
        let mut description = text("Create document root ");
        description.append(root.as_str());
        steps.push(new_step(description, "\u{1f4c1}", "mkdir", args2(text("-p"), root), None));
        steps.push(
            new_step(
                text("Write placeholder index.html"),
                "\u{1f4c4}",
                "tee",
                args1(index),
                Some(body),
            ),
        );
    }
    assert(step_views(steps@) =~= docroot_plan(*a, fqn@));
    steps
}

fn ownership_steps(a: &Answers) -> (r: Vec<Step>)
    ensures
        step_views(r@) == ownership_plan(*a),
{
    let mut steps = Vec::new();
    if !a.docker {
        let mut owner = a.server_user.clone();
        owner.append(":www-data");
        let mut description = text("Grant ownership to ");
        description.append(owner.as_str());
        let mut folder = text("/var/www/");
        folder.append(a.domain.as_str());
        steps.push(new_step(description, "\u{1f464}", "chown", args3(text("-R"), owner, folder), None));
    }
    assert(step_views(steps@) =~= ownership_plan(*a));
    steps
}

fn certbot_steps(a: &Answers, fqn: &str) -> (r: Vec<Step>)
    ensures
        step_views(r@) == certbot_plan(*a, fqn@),
{
    let mut steps = Vec::new();
    if a.letsencrypt {
        let flag = if a.server == Server::Nginx { "--nginx" } else { "--apache" };
        steps.push(
            new_step(
                text("Obtain Let's Encrypt certificate"),
                "\u{1f512}",
                "certbot",
                args3(text(flag), text("-d"), text(fqn)),
                None,
            ),
        );
    }
    assert(step_views(steps@) =~= certbot_plan(*a, fqn@));
    steps
}

fn mysql_text(a: &Answers, password: &str) -> (r: String)
    ensures
        r@ == mysql_sql(*a, password@),
{
    let db = a.dbname();
    let user = a.username();
    let mut s = text("CREATE DATABASE ");
    s.append(db.as_str());
    s.append(";\nCREATE USER '");
    s.append(user.as_str());
    s.append("'@'localhost' IDENTIFIED BY '");
    s.append(password);
    s.append("';\nGRANT ALL PRIVILEGES ON ");
    s.append(db.as_str());
    s.append(".* TO '");
    s.append(user.as_str());
    s.append("'@'localhost';\nFLUSH PRIVILEGES;\n");
    s
}

fn pgsql_text(a: &Answers, password: &str) -> (r: String)
    ensures
        r@ == pgsql_sql(*a, password@),
{
    let db = a.dbname();
    let user = a.username();
    let mut s = text("CREATE DATABASE ");
    s.append(db.as_str());
    s.append(";\nCREATE USER ");
    s.append(user.as_str());
    s.append(" WITH PASSWORD '");
    s.append(password);
    s.append("';\nGRANT ALL PRIVILEGES ON DATABASE ");
    s.append(db.as_str());
    s.append(" TO ");
    s.append(user.as_str());
    s.append(";\nGRANT ALL ON SCHEMA public TO ");
    s.append(user.as_str());
    s.append(";\n");
    s
}

fn database_steps(a: &Answers, fqn: &str, password: &str) -> (r: Vec<Step>)
    ensures
        step_views(r@) == database_plan(*a, fqn@, password@),
{
    let mut folder = text("/var/www/");
    folder.append(a.domain.as_str());
    let env = env_snippet(a, password);
    let has_files = a.db_mysql || a.db_pgsql || env.is_some();
    let mut steps = Vec::new();
    if has_files {
        let mut description = text("Create folder ");
        description.append(folder.as_str());
        steps.push(
            new_step(description, "\u{1f4c1}", "mkdir", args2(text("-p"), folder.clone()), None),
        );
    }
    let ghost p1 = step_views(steps@);
    if a.db_mysql {
        let mut path = folder.clone();
        path.append("/");
        path.append(fqn);
        path.append("-mysql.sql");
        let mut description = text("Save MySQL SQL to ");
        description.append(path.as_str());
        push_steps(
            &mut steps,
            one_step(
                new_step(
                    description,
                    "\u{1f5c3}\u{fe0f}",
                    "tee",
                    args1(path),
                    Some(mysql_text(a, password)),
                ),
            ),
        );
    }
    let ghost p2 = step_views(steps@);
    if a.db_pgsql {
        let mut path = folder.clone();
        path.append("/");
        path.append(fqn);
        path.append("-pgsql.sql");
        let mut description = text("Save PostgreSQL SQL to ");
        description.append(path.as_str());
        push_steps(
            &mut steps,
            one_step(
                new_step(
                    description,
                    "\u{1f5c3}\u{fe0f}",
                    "tee",
                    args1(path),
                    Some(pgsql_text(a, password)),
                ),
            ),
        );
    }
    let ghost p3 = step_views(steps@);
    match env {
        Some(env) => {
            let mut path = folder.clone();
            path.append("/env-");
            path.append(fqn);
            let mut description = text("Save .env to ");
            description.append(path.as_str());
            push_steps(
                &mut steps,
                one_step(new_step(description, "\u{1f4dd}", "tee", args1(path), Some(env))),
            );
        },
        None => {},
    }
    proof {
        let folder_v = domain_folder(*a);
        let fq = fqn@;
        let pw = password@;
        let s1 = when_steps(
            a.db_mysql || a.db_pgsql,
            seq![mk("Create folder "@ + folder_v, "\u{1f4c1}"@, "mkdir"@, seq!["-p"@, folder_v], None)],
        );
        assert(p1 =~= s1);
        if !a.db_mysql {
            assert(p2 =~= p1 + Seq::<StepView>::empty());
        }
        if !a.db_pgsql {
            assert(p3 =~= p2 + Seq::<StepView>::empty());
        }
        if !(a.db_mysql || a.db_pgsql) {
            assert(step_views(steps@) =~= p3 + Seq::<StepView>::empty());
        }
    }
    steps
}

fn finish_steps(a: &Answers) -> (r: Vec<Step>)
    ensures
        step_views(r@) == finish_plan(*a),
{
    let mut steps = Vec::new();
    match a.server {
        Server::Nginx => {
            steps.push(
                new_step(text("Test nginx configuration"), "\u{1f9ea}", "nginx", args1(text("-t")), None),
            );
            steps.push(
                new_step(
                    text("Restart nginx"),
                    "\u{1f504}",
                    "service",
                    args2(text("nginx"), text("restart")),
                    None,
                ),
            );
        },
        Server::Apache => {
            steps.push(
                new_step(
                    text("Test apache configuration"),
                    "\u{1f9ea}",
                    "apachectl",
                    args1(text("configtest")),
                    None,
                ),
            );
            steps.push(
                new_step(
                    text("Restart apache"),
                    "\u{1f504}",
                    "service",
                    args2(text("apache2"), text("restart")),
                    None,
                ),
            );
        },
    }
    assert(step_views(steps@) =~= finish_plan(*a));
    steps
}

fn planned(a: &Answers, db_password: &str, obs: &Option<OpenObserve>) -> (raw: Vec<Step>)
    ensures
        step_views(raw@) == planned_steps(*a, db_password@, *obs),
{
    let fqn = a.fqn();
    let mut raw = docroot_steps(a, fqn.as_str());
    let json_logs = obs.is_some();
    match a.server {
        Server::Nginx => push_steps(&mut raw, nginx_steps(a, fqn.as_str(), json_logs)),
        Server::Apache => push_steps(&mut raw, apache_steps(a, fqn.as_str())),
    }
    let ghost before_shipping = step_views(raw@);
    match obs {
        Some(o) => {
            if a.server == Server::Nginx && a.nginx_logs {
                push_steps(&mut raw, fluentbit_steps(a, fqn.as_str(), o));
            }
        },
        None => {},
    }
    proof {
        if !(obs is Some && a.server == Server::Nginx && a.nginx_logs) {
            assert(step_views(raw@) =~= before_shipping + Seq::<StepView>::empty());
        }
    }
    push_steps(&mut raw, ownership_steps(a));
    push_steps(&mut raw, certbot_steps(a, fqn.as_str()));
    push_steps(&mut raw, database_steps(a, fqn.as_str(), db_password));
    push_steps(&mut raw, finish_steps(a));
    raw
}

fn sudo_all(raw: Vec<Step>) -> (steps: Vec<Step>)
    ensures
        step_views(steps@) == step_views(raw@).map_values(|s: StepView| under_sudo(s)),
{
    let ghost plan = step_views(raw@);
    let mut raw = raw;
    let mut steps: Vec<Step> = Vec::new();
    let ghost total = raw@.len();
    assert(plan =~= plan.skip(0));
    while raw.len() > 0
        invariant
            plan.len() == total,
            steps@.len() + raw@.len() == total,
            step_views(raw@) == plan.skip(steps@.len() as int),
            step_views(steps@) == plan.take(steps@.len() as int).map_values(|s: StepView| under_sudo(s)),
        decreases raw@.len(),
    {
        let ghost k = steps@.len() as int;
        let ghost before = raw@;
        assert(step_views(before)[0] == plan.skip(k)[0]);
        let step = raw.remove(0);
        let ghost old_steps = steps@;
        steps.push(with_sudo(step));
        assert forall|i: int| 0 <= i < raw@.len() implies #[trigger] step_views(raw@)[i] == plan.skip(k + 1)[i] by {
            assert(raw@[i] == before[i + 1]);
            assert(step_views(before)[i + 1] == plan.skip(k)[i + 1]);
        }
        assert(step_views(raw@) =~= plan.skip(k + 1));
        assert(plan.take(k + 1) =~= plan.take(k).push(plan[k]));
        assert(step_views(steps@) =~= step_views(old_steps).push(under_sudo(plan[k])));
        assert(step_views(steps@) =~= plan.take(k + 1).map_values(|s: StepView| under_sudo(s)));
    }
    assert(plan.take(total as int) =~= plan);
    steps
}

/// Every setup step for the answers, each run through `sudo`: document root,
/// vhost, Fluent Bit shipping (nginx with logs and an OpenObserve endpoint),
/// ownership, Let's Encrypt, database files, configuration test and restart.
pub fn build_steps_with_obs(a: &Answers, db_password: &str, obs: Option<OpenObserve>) -> (steps: Vec<Step>)
    ensures
        step_views(steps@) == spec_build_steps(*a, db_password@, obs),
{
    // Wrap every step in sudo (we run as a normal user); runuser steps are
    // already root-only and take the postgres user explicitly.
    sudo_all(planned(a, db_password, &obs))
}

/// Only white space (or nothing): what `trim().is_empty()` tests.
pub open spec fn blank(s: Seq<char>) -> bool {
    trimmed(s).len() == 0
}

/// Why the OpenObserve settings are refused: the user or the password is
/// missing, or holds only white space, checked in that order.
pub open spec fn obs_error(user: Option<Seq<char>>, passwd: Option<Seq<char>>) -> Option<Seq<char>> {
    if user is None {
        Some("OPENOBSERVE_USER is not set"@)
    } else if passwd is None {
        Some("OPENOBSERVE_PASS is not set"@)
    } else if blank(user->0) {
        Some("OPENOBSERVE_USER is empty"@)
    } else if blank(passwd->0) {
        Some("OPENOBSERVE_PASS is empty"@)
    } else {
        None
    }
}

/// A value, or its default when it is absent.
pub open spec fn or_default(v: Option<Seq<char>>, default: Seq<char>) -> Seq<char> {
    match v {
        Some(s) => s,
        None => default,
    }
}

fn or_text(v: Option<String>, default: &str) -> (r: String)
    ensures
        r@ == or_default(opt_text(v), default@),
{
    match v {
        Some(s) => s,
        None => text(default),
    }
}

impl OpenObserve {
    /// The endpoint from the values of OPENOBSERVE_USER / OPENOBSERVE_PASS
    /// (required, not blank) and OPENOBSERVE_HOST / OPENOBSERVE_PORT
    /// (optional, defaults apply); `None` stands for an unset variable.
    pub fn from_vars(
        user: Option<String>,
        passwd: Option<String>,
        host: Option<String>,
        port: Option<String>,
    ) -> (r: Result<OpenObserve, String>)
        ensures
            r is Err <==> obs_error(opt_text(user), opt_text(passwd)) is Some,
            r matches Err(e) ==> Some(e@) == obs_error(opt_text(user), opt_text(passwd)),
            r matches Ok(o) ==> {
                &&& Some(o.user@) == opt_text(user)
                &&& Some(o.passwd@) == opt_text(passwd)
                &&& o.host@ == or_default(opt_text(host), "139.84.204.42"@)
                &&& o.port@ == or_default(opt_text(port), "5080"@)
            },
    {
        let user = match user {
            Some(u) => u,
            None => return Err(text("OPENOBSERVE_USER is not set")),
        };
        let passwd = match passwd {
            Some(p) => p,
            None => return Err(text("OPENOBSERVE_PASS is not set")),
        };
        if trim(user.as_str()).as_str().unicode_len() == 0 {
            return Err(text("OPENOBSERVE_USER is empty"));
        }
        if trim(passwd.as_str()).as_str().unicode_len() == 0 {
            return Err(text("OPENOBSERVE_PASS is empty"));
        }
        Ok(
            OpenObserve {
                host: or_text(host, "139.84.204.42"),
                port: or_text(port, "5080"),
                user,
                passwd,
            },
        )
    }
}

} // verus!
