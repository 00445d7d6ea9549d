# ngaw_domain

Sets up web-server vhosts, SSL and database scaffolding for a domain. The
library plans the work; the `ngaw-domain` front end in `app/` asks the
questions, shows the plan, and with `-y` runs it.

Layout:

- `src/config.rs`: the answers for one site, the names derived from them
  (fqn, document root, database name and user) and the domain/port validators.
- `src/generate.rs`: the shell steps of a setup (document root, nginx or
  apache vhost, Fluent Bit log shipping to OpenObserve, ownership, Let's
  Encrypt, SQL and `.env` files, configuration test and restart), each run
  through `sudo`.
- `src/execute.rs`: how a step reads on screen (shell-quoted, heredoc stdin).
- `src/shell.rs`: how a POSIX shell reads such a line back, and the proofs
  that it gives the program, the arguments and the stdin payload.
- `src/password.rs`: random database passwords.
- `src/ui.rs`: icons and ANSI-coloured lines.
- `src/cli.rs`: command-line flags, the non-interactive answers, the plan
  summary and the follow-up commands.
- `src/text.rs`: string helpers proved against `Seq<char>` specs.
- `src/laws.rs`: properties that span several functions.

The logic in `src/` is verified with Verus against contracts over
`Seq<char>` models of the strings it builds. Calls into std, `owo-colors`,
`rand` and `inquire` go through small trusted wrappers whose contracts state
what those functions document; everything around them is proved. `app/` holds
the prompts, the environment, and running the commands.
