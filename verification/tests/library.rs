use ngaw_domain::cli::{
    answers_from_args, answers_from_domain, followup_commands, parse_args, server_from_label,
    summary_rows,
};
use ngaw_domain::config::{validate_port, Answers, Server};
use ngaw_domain::execute::describe_step;
use ngaw_domain::generate::{build_steps_with_obs, env_snippet, OpenObserve, Step};
use ngaw_domain::password::{arrange_password, random_password, DIGITS, LETTERS, SPECIAL};
use ngaw_domain::text::{
    decimal_string, replace_dots_dashes, split_char, trim, trim_char, trim_end_str, trim_start_str,
};
use inquire::validator::{ErrorMessage, Validation};
use ngaw_domain::ui;

fn site() -> Answers {
    Answers {
        email: "ops@mango.com".into(),
        server_user: "deploy".into(),
        domain: "mango.com".into(),
        subdomain: "s3-api".into(),
        server: Server::Nginx,
        public: true,
        letsencrypt: false,
        nginx_https: true,
        nginx_php: true,
        nginx_logs: true,
        nginx_deny: true,
        docker: false,
        docker_host_port: 0,
        db_mysql: true,
        db_pgsql: false,
    }
}

fn obs() -> OpenObserve {
    OpenObserve {
        host: "10.0.0.5".into(),
        port: "5080".into(),
        user: "root@example.com".into(),
        passwd: "hunter2".into(),
    }
}

fn find<'a>(steps: &'a [Step], program: &str) -> &'a Step {
    steps.iter().find(|s| s.args.first().map(String::as_str) == Some(program)).expect("step")
}

#[test]
fn single_character_subdomain_is_a_subdomain() {
    let mut a = site();
    a.subdomain = "a".into();
    assert!(!a.is_implicit_www());
    assert_eq!(a.fqn(), "a.mango.com");
    assert_eq!(a.dir(), "mango.com/a/public");
    a.subdomain = String::new();
    assert!(a.is_implicit_www());
    assert_eq!(a.fqn(), "mango.com");
    assert_eq!(a.dir(), "mango.com/www/public");
    let b = answers_from_args("a.mango.com", "u".into()).unwrap();
    assert_eq!(b.fqn(), "a.mango.com");
}

#[test]
fn every_step_runs_through_sudo() {
    let steps = build_steps_with_obs(&site(), "pw", Some(obs()));
    assert!(!steps.is_empty());
    for s in &steps {
        assert_eq!(s.program, "sudo");
    }
    let programs: Vec<&str> = steps.iter().map(|s| s.args[0].as_str()).collect();
    assert_eq!(
        programs,
        vec![
            "mkdir", "tee", "tee", "ln", "openssl", "tee", "systemctl", "chown", "mkdir", "tee",
            "tee", "nginx", "service"
        ]
    );
}

#[test]
fn document_root_and_placeholder() {
    let steps = build_steps_with_obs(&site(), "pw", None);
    assert_eq!(steps[0].args, vec!["mkdir", "-p", "/var/www/mango.com/s3-api/public"]);
    assert_eq!(steps[0].description, "Create document root /var/www/mango.com/s3-api/public");
    assert_eq!(steps[1].args, vec!["tee", "/var/www/mango.com/s3-api/public/index.html"]);
    assert_eq!(steps[1].stdin.as_deref(), Some("<h1>s3-api.mango.com</h1>\n"));
}

#[test]
fn log_shipping_uses_sanitized_site_and_credentials() {
    let steps = build_steps_with_obs(&site(), "pw", Some(obs()));
    let ship = steps
        .iter()
        .find(|s| s.args.contains(&"/etc/fluent-bit/fluent-bit.conf".to_string()))
        .expect("fluent-bit step");
    assert_eq!(ship.description, "Append Fluent Bit inputs/outputs for s3_api");
    assert_eq!(ship.args, vec!["tee", "-a", "/etc/fluent-bit/fluent-bit.conf"]);
    let conf = ship.stdin.as_deref().unwrap();
    assert!(conf.contains("    Tag               s3_api.access\n"));
    assert!(conf.contains("    Tag               s3_api.error\n"));
    assert!(conf.contains("    URI               /api/default/s3_api/_json\n"));
    assert!(conf.contains("    URI               /api/default/s3_api_error/_json\n"));
    assert!(conf.contains("    DB                /var/lib/fluent-bit/s3_api-access.db\n"));
    assert!(conf.contains("    Path              /var/log/nginx/s3-api.mango.com.access.log\n"));
    assert!(conf.contains("    Host              10.0.0.5\n"));
    assert!(conf.contains("    HTTP_User         root@example.com\n"));
    assert!(conf.contains("    HTTP_Passwd       hunter2\n"));
    let conf_step = steps
        .iter()
        .find(|s| s.args.iter().any(|a| a.starts_with("/etc/nginx/sites-available/")) && s.stdin.is_some())
        .unwrap();
    assert!(conf_step
        .stdin
        .as_deref()
        .unwrap()
        .contains("access_log /var/log/nginx/s3-api.mango.com.access.log json_logs;"));
    let restart = steps.iter().find(|s| s.args[0] == "systemctl").unwrap();
    assert_eq!(restart.args, vec!["systemctl", "restart", "fluent-bit"]);
}

#[test]
fn no_log_shipping_without_logs_or_endpoint() {
    let mut a = site();
    a.nginx_logs = false;
    let steps = build_steps_with_obs(&a, "pw", Some(obs()));
    assert!(steps.iter().all(|s| s.args[0] != "systemctl"));
    let steps = build_steps_with_obs(&site(), "pw", None);
    assert!(steps.iter().all(|s| s.args[0] != "systemctl"));
}

#[test]
fn exact_nginx_conf_for_plain_http_static_site() {
    let mut a = site();
    a.nginx_https = false;
    a.nginx_php = false;
    a.nginx_deny = false;
    a.nginx_logs = false;
    a.public = false;
    let steps = build_steps_with_obs(&a, "pw", None);
    let conf = steps[2].stdin.as_deref().unwrap();
    assert_eq!(
        conf,
        "server {\n    listen 80;\n    listen [::]:80;\n\n    server_name s3-api.mango.com;\n\n    root /var/www/mango.com/s3-api;\n    index index.html index.htm;\n\n    location / {\n        try_files $uri $uri/ =404;\n    }\n}\n"
    );
    assert_eq!(steps[3].args, vec!["ln", "-sfn", "/etc/nginx/sites-available/s3-api.mango.com.conf", "/etc/nginx/sites-enabled/"]);
    assert!(steps.iter().all(|s| s.args[0] != "openssl"));
}

#[test]
fn self_signed_certificate_step() {
    let steps = build_steps_with_obs(&site(), "pw", None);
    let ssl = find(&steps, "openssl");
    assert_eq!(
        ssl.args,
        vec![
            "openssl", "req", "-x509", "-nodes", "-days", "365", "-newkey", "rsa:2048", "-keyout",
            "/etc/ssl/private/s3-api.mango.com-selfsigned.key", "-out",
            "/etc/ssl/certs/s3-api.mango.com-selfsigned.crt", "-subj",
            "/C=NZ/ST=Wellington/L=NGAW/O=NGAW/OU=Unit/CN=s3-api.mango.com/emailAddress=ops@mango.com"
        ]
    );
    let conf = steps[2].stdin.as_deref().unwrap();
    assert!(conf.contains("    ssl_certificate /etc/ssl/certs/s3-api.mango.com-selfsigned.crt;\n"));
}

#[test]
fn lets_encrypt_replaces_self_signed_certificate() {
    let mut a = site();
    a.letsencrypt = true;
    let steps = build_steps_with_obs(&a, "pw", None);
    assert!(steps.iter().all(|s| s.args[0] != "openssl"));
    let cert = find(&steps, "certbot");
    assert_eq!(cert.args, vec!["certbot", "--nginx", "-d", "s3-api.mango.com"]);
    assert!(!steps[2].stdin.as_deref().unwrap().contains("ssl_certificate"));
    a.server = Server::Apache;
    let steps = build_steps_with_obs(&a, "pw", None);
    assert_eq!(find(&steps, "certbot").args[1], "--apache");
}

#[test]
fn docker_proxy_serves_no_local_files() {
    let mut a = site();
    a.docker = true;
    a.docker_host_port = 8091;
    let steps = build_steps_with_obs(&a, "pw", None);
    assert!(steps.iter().all(|s| s.args[0] != "chown"));
    assert_eq!(steps[0].args[0], "tee");
    let conf = steps[0].stdin.as_deref().unwrap();
    assert!(conf.contains("        proxy_pass http://127.0.0.1:8091;\n"));
    assert!(!conf.contains("root /var/www"));
}

#[test]
fn ownership_step() {
    let steps = build_steps_with_obs(&site(), "pw", None);
    let own = find(&steps, "chown");
    assert_eq!(own.args, vec!["chown", "-R", "deploy:www-data", "/var/www/mango.com"]);
    assert_eq!(own.description, "Grant ownership to deploy:www-data");
}

#[test]
fn database_files_and_finish() {
    let mut a = site();
    a.db_pgsql = true;
    let steps = build_steps_with_obs(&a, "pw", None);
    let n = steps.len();
    assert_eq!(steps[n - 2].args, vec!["nginx", "-t"]);
    assert_eq!(steps[n - 1].args, vec!["service", "nginx", "restart"]);
    let pg = steps.iter().find(|s| s.args.iter().any(|x| x.ends_with("-pgsql.sql"))).unwrap();
    assert_eq!(pg.args[1], "/var/www/mango.com/s3-api.mango.com-pgsql.sql");
    assert_eq!(
        pg.stdin.as_deref().unwrap(),
        "CREATE DATABASE s3_api_mango_com;\nCREATE USER s3_api_mango_com_user WITH PASSWORD 'pw';\nGRANT ALL PRIVILEGES ON DATABASE s3_api_mango_com TO s3_api_mango_com_user;\nGRANT ALL ON SCHEMA public TO s3_api_mango_com_user;\n"
    );
    let env = steps.iter().find(|s| s.args.iter().any(|x| x.contains("/env-"))).unwrap();
    assert_eq!(env.args[1], "/var/www/mango.com/env-s3-api.mango.com");
    assert_eq!(env.stdin, env_snippet(&a, "pw"));
    let folders: Vec<&Step> = steps.iter().filter(|s| s.description == "Create folder /var/www/mango.com").collect();
    assert_eq!(folders.len(), 1);
}

#[test]
fn apache_finish_and_enable() {
    let mut a = site();
    a.server = Server::Apache;
    a.db_mysql = false;
    let steps = build_steps_with_obs(&a, "pw", None);
    let n = steps.len();
    assert_eq!(steps[n - 2].args, vec!["apachectl", "configtest"]);
    assert_eq!(steps[n - 1].args, vec!["service", "apache2", "restart"]);
    let enable = find(&steps, "a2ensite");
    assert_eq!(enable.args, vec!["a2ensite", "s3-api.mango.com.conf"]);
    let conf = steps[2].stdin.as_deref().unwrap();
    assert!(!conf.contains("ServerAlias"));
    assert!(steps.iter().all(|s| s.args[0] != "mkdir" || s.args[2] != "/var/www/mango.com"));
}

#[test]
fn env_snippet_exact_text() {
    let env = env_snippet(&site(), "pw").unwrap();
    assert_eq!(
        env,
        "DB_CONNECTION=\"mysql\"\nDB_HOST=\"127.0.0.1\"\nDB_PORT=\"3306\"\nDB_DATABASE=\"s3_api_mango_com\"\nDB_USERNAME=\"s3_api_mango_com_user\"\nDB_PASSWORD=\"pw\"\n"
    );
    let mut both = site();
    both.db_pgsql = true;
    assert!(env_snippet(&both, "pw").unwrap().contains("DB_HOST=\"127.0.0.1\""));
}

#[test]
fn describe_step_quotes_and_heredoc() {
    let step = Step {
        description: "x".into(),
        icon: "",
        program: "sudo".into(),
        args: vec!["tee".into(), "/etc/a b".into(), "it's".into(), "".into(), "a=b@c%d+e".into()],
        stdin: Some("body\n".into()),
    };
    assert_eq!(
        describe_step(&step),
        "sudo tee '/etc/a b' 'it'\\''s'  a=b@c%d+e <<'EOF'\nbody\nEOF"
    );
    let plain = Step { description: "y".into(), icon: "", program: "ls".into(), args: vec![], stdin: None };
    assert_eq!(describe_step(&plain), "ls ");
}

#[test]
fn validate_port_range() {
    assert_eq!(validate_port("8091"), Validation::Valid);
    assert_eq!(validate_port("+80"), Validation::Valid);
    assert_eq!(validate_port("65535"), Validation::Valid);
    assert_ne!(validate_port("0"), Validation::Valid);
    assert_ne!(validate_port("65536"), Validation::Valid);
    assert_ne!(validate_port(""), Validation::Valid);
    assert_ne!(validate_port("-1"), Validation::Valid);
    assert_ne!(validate_port("80a"), Validation::Valid);
    assert_eq!(
        validate_port("x"),
        Validation::Invalid(ErrorMessage::Custom("Enter a port between 1 and 65535".into()))
    );
}

#[test]
fn validate_domain_error_message() {
    assert_eq!(
        ngaw_domain::config::validate_domain("Example.com"),
        Validation::Invalid(ErrorMessage::Custom("Enter a domain with a TLD, e.g. example.com".into()))
    );
    assert_eq!(ngaw_domain::config::validate_domain(".example.com."), Validation::Valid);
    assert_ne!(ngaw_domain::config::validate_domain("a..b"), Validation::Valid);
    assert_ne!(ngaw_domain::config::validate_domain("bad-.com"), Validation::Valid);
}

#[test]
fn openobserve_from_vars() {
    let o = OpenObserve::from_vars(Some("u".into()), Some("p".into()), None, None).unwrap();
    assert_eq!((o.host.as_str(), o.port.as_str(), o.user.as_str(), o.passwd.as_str()), ("139.84.204.42", "5080", "u", "p"));
    let o = OpenObserve::from_vars(Some("u".into()), Some("p".into()), Some("h".into()), Some("1".into())).unwrap();
    assert_eq!((o.host.as_str(), o.port.as_str()), ("h", "1"));
    assert_eq!(OpenObserve::from_vars(None, None, None, None).unwrap_err(), "OPENOBSERVE_USER is not set");
    assert_eq!(OpenObserve::from_vars(Some("u".into()), None, None, None).unwrap_err(), "OPENOBSERVE_PASS is not set");
    assert_eq!(OpenObserve::from_vars(Some(" \t".into()), Some("p".into()), None, None).unwrap_err(), "OPENOBSERVE_USER is empty");
    assert_eq!(OpenObserve::from_vars(Some("u".into()), Some("\u{3000}".into()), None, None).unwrap_err(), "OPENOBSERVE_PASS is empty");
}

#[test]
fn ui_lines_are_exact() {
    assert_eq!(ui::banner(), "\u{1f680} \x1b[36m\x1b[1mngaw-domain\x1b[0m\x1b[39m");
    assert_eq!(ui::section("Plan"), "\n\x1b[2m\u{276f}\x1b[0m \x1b[32m\x1b[1mPlan\x1b[0m\x1b[39m");
    assert_eq!(
        ui::step(3, 12, "x", "Do it"),
        "\x1b[2m(3/12)\x1b[0m x \x1b[36m\u{276f}\x1b[39m \x1b[37mDo it\x1b[39m"
    );
    assert_eq!(ui::command("ls"), "\x1b[34m\x1b[2mls\x1b[0m\x1b[39m");
    assert_eq!(ui::success("ok"), "\x1b[32m\u{2714}\x1b[39m \x1b[32mok\x1b[39m");
    assert_eq!(ui::error("no"), "\x1b[31m\u{2718}\x1b[39m \x1b[31mno\x1b[39m");
    assert_eq!(ui::info("hi"), "\x1b[36m\u{2139}\u{fe0f}\x1b[39m hi");
    assert_eq!(ui::label_value("SSL", "none"), "  \x1b[2mSSL:\x1b[0m \x1b[33mnone\x1b[39m");
}

#[test]
fn password_draws_from_the_alphabets() {
    for _ in 0..50 {
        let pw = random_password();
        let chars: Vec<char> = pw.chars().collect();
        assert_eq!(chars.len(), 16);
        assert!(LETTERS.contains(chars[0]));
        assert_eq!(chars.iter().filter(|c| LETTERS.contains(**c)).count(), 12);
        assert_eq!(chars.iter().filter(|c| DIGITS.contains(**c)).count(), 2);
        assert_eq!(chars.iter().filter(|c| SPECIAL.contains(**c)).count(), 2);
        for (i, a) in chars.iter().enumerate() {
            if LETTERS.contains(*a) || DIGITS.contains(*a) {
                assert!(chars[i + 1..].iter().all(|b| b != a));
            }
        }
    }
}

#[test]
fn arranging_swaps_the_drawn_letter_to_the_front() {
    assert_eq!(arrange_password(vec!['1', 'a', 'b', '%'], 1), "ba1%");
    assert_eq!(arrange_password(vec!['1', 'a', 'b', '%'], 0), "a1b%");
    assert_eq!(arrange_password(vec!['%', '2', 'Z'], 0), "Z2%");
}

#[test]
fn arranging_keeps_a_pool_that_starts_with_a_letter() {
    assert_eq!(arrange_password(vec!['k', '7', '#', 'Q'], 0), "k7#Q");
    assert_eq!(arrange_password(vec!['x'], 0), "x");
}

#[test]
fn args_split_flags_and_positionals() {
    let args: Vec<String> = vec!["sub.mango.com".into(), "-y".into(), "deploy".into(), "--verbose".into()];
    let parsed = parse_args(&args);
    assert!(parsed.execute_now);
    assert_eq!(parsed.positional, vec!["sub.mango.com", "deploy"]);
    let parsed = parse_args(&vec!["--yes".to_string()]);
    assert!(parsed.execute_now);
    assert!(parsed.positional.is_empty());
    assert!(!parse_args(&vec!["-x".to_string()]).execute_now);
}

#[test]
fn domain_argument_becomes_answers() {
    let a = answers_from_args("  Pear10.Mango.com ", "deploy".into()).unwrap();
    assert_eq!(a.subdomain, "pear10");
    assert_eq!(a.domain, "mango.com");
    assert_eq!(a.fqn(), "pear10.mango.com");
    assert_eq!(a.email, "hello@ngaw.xyz");
    assert_eq!(a.server_user, "deploy");
    assert!(a.server == Server::Nginx && a.public && a.nginx_https && a.nginx_php && a.nginx_logs);
    assert!(a.nginx_deny && a.db_mysql && !a.db_pgsql && !a.letsencrypt && !a.docker);
    let bare = answers_from_domain("mango.com", "u".into()).unwrap();
    assert_eq!(bare.subdomain, "");
    assert_eq!(bare.domain, "mango.com");
    assert!(bare.is_implicit_www());
    assert_eq!(
        answers_from_args("mango", "u".into()).unwrap_err(),
        "invalid domain: mango (expected sub.domain.tld or domain.tld)"
    );
}

#[test]
fn plan_summary_rows() {
    let mut a = site();
    a.db_pgsql = true;
    let rows = summary_rows(&a);
    let rows: Vec<(&str, &str)> = rows.iter().map(|(l, v)| (l.as_str(), v.as_str())).collect();
    assert_eq!(
        rows,
        vec![
            ("Domain", "s3-api.mango.com"),
            ("Server", "nginx"),
            ("Docroot", "/var/www/mango.com/s3-api/public"),
            ("SSL", "self-signed"),
            ("Databases", "MySQL, PostgreSQL"),
        ]
    );
    a.docker = true;
    a.docker_host_port = 8091;
    a.db_mysql = false;
    a.db_pgsql = false;
    a.letsencrypt = true;
    let rows = summary_rows(&a);
    assert_eq!(rows[1].1, "nginx (docker)");
    assert_eq!(rows[2].1, "\u{2014} (docker proxy)");
    assert_eq!(rows[3].1, "Let's Encrypt");
    assert_eq!(rows[4].1, "none");
    assert_eq!(rows[5], ("Backend".to_string(), "http://127.0.0.1:8091".to_string()));
}

#[test]
fn followups_import_the_saved_sql() {
    let mut a = answers_from_args("pear10.mango.com", "u".into()).unwrap();
    a.db_pgsql = true;
    let cmds = followup_commands(&a);
    assert_eq!(cmds[0], ("Import MySQL SQL".to_string(), "sudo mysql -u root -p < /var/www/mango.com/pear10.mango.com-mysql.sql".to_string()));
    assert_eq!(cmds[1], ("Import PostgreSQL SQL".to_string(), "sudo psql -U postgres -f /var/www/mango.com/pear10.mango.com-pgsql.sql".to_string()));
    a.db_mysql = false;
    a.db_pgsql = false;
    assert!(followup_commands(&a).is_empty());
}

#[test]
fn server_menu_labels() {
    assert!(server_from_label("nginx docker") == (Server::Nginx, true));
    assert!(server_from_label("nginx") == (Server::Nginx, false));
    assert!(server_from_label("apache") == (Server::Apache, false));
}

#[test]
fn text_helpers() {
    assert_eq!(replace_dots_dashes("a.b-c_d"), "a_b_c_d");
    assert_eq!(split_char("a..b", '.'), vec!["a", "", "b"]);
    assert_eq!(split_char("", '.'), vec![""]);
    assert_eq!(trim_char("..a.b..", '.'), "a.b");
    assert_eq!(trim_start_str("abababc", "ab"), "c");
    assert_eq!(trim_end_str("x/public/public", "/public"), "x");
    assert_eq!(trim(" \t x y \n"), "x y");
    assert_eq!(decimal_string(0), "0");
    assert_eq!(decimal_string(65535), "65535");
}

/// Splits a command line the way a POSIX shell does for blanks, single
/// quotes and backslashes, and returns the words and the here-document body.
fn read_back(line: &str) -> (Vec<String>, Option<String>) {
    let (command, body) = match line.split_once(" <<'EOF'\n") {
        Some((c, rest)) => (c, Some(rest.strip_suffix("EOF").expect("delimiter line").to_string())),
        None => (line, None),
    };
    let mut words = Vec::new();
    let mut current = String::new();
    let mut in_word = false;
    let mut quoted = false;
    let mut escaped = false;
    for c in command.chars() {
        if escaped {
            current.push(c);
            escaped = false;
        } else if quoted {
            if c == '\'' {
                quoted = false;
            } else {
                current.push(c);
            }
        } else if c == ' ' {
            if in_word {
                words.push(std::mem::take(&mut current));
                in_word = false;
            }
        } else if c == '\'' {
            quoted = true;
            in_word = true;
        } else if c == '\\' {
            escaped = true;
            in_word = true;
        } else {
            current.push(c);
            in_word = true;
        }
    }
    if in_word {
        words.push(current);
    }
    (words, body)
}

#[test]
fn rendered_steps_read_back_as_their_arguments() {
    let args: Vec<String> = vec!["tee".into(), "/etc/a b".into(), "it's".into(), "'".into(), "$HOME;x".into()];
    let step = Step {
        description: "x".into(),
        icon: "",
        program: "sudo".into(),
        args: args.clone(),
        stdin: Some("line one\nEOFX\n".into()),
    };
    let (words, body) = read_back(&describe_step(&step));
    assert_eq!(words[0], "sudo");
    assert_eq!(words[1..].to_vec(), args);
    assert_eq!(body.as_deref(), Some("line one\nEOFX\n"));
    let step = Step { description: "y".into(), icon: "", program: "ls".into(), args: vec!["-la".into()], stdin: None };
    assert_eq!(read_back(&describe_step(&step)), (vec!["ls".to_string(), "-la".to_string()], None));
}
