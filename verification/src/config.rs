//! The answers that describe one site, the names derived from them, and the
//! validators for the domain and port prompts.

use inquire::validator::{ErrorMessage, Validation};
use vstd::prelude::*;

use crate::text::{
    replace_dots_dashes, split_char, split_on, strip_both, trim_char, underscored,
};

verus! {

/// The web server that serves the site.
#[derive(Debug, Clone, Copy, PartialEq, Eq, Structural)]
pub enum Server {
    Nginx,
    Apache,
}

/// Everything the user chose for one site.
#[derive(Debug)]
pub struct Answers {
    pub email: String,
    pub server_user: String,
    pub domain: String,
    pub subdomain: String,
    pub server: Server,
    pub public: bool,
    pub letsencrypt: bool,
    pub nginx_https: bool,
    pub nginx_php: bool,
    pub nginx_logs: bool,
    pub nginx_deny: bool,
    pub docker: bool,
    pub docker_host_port: u16,
    pub db_mysql: bool,
    pub db_pgsql: bool,
}

impl Answers {
    /// No explicit subdomain: the subdomain answer is empty.
    pub open spec fn spec_is_implicit_www(&self) -> bool {
        self.subdomain@.len() == 0
    }

    /// `sub.domain`, or the bare domain when no subdomain was given.
    pub open spec fn spec_fqn(&self) -> Seq<char> {
        if self.spec_is_implicit_www() {
            self.domain@
        } else {
            self.subdomain@ + "."@ + self.domain@
        }
    }

    /// `domain/<www or sub>[/public]`.
    pub open spec fn spec_dir(&self) -> Seq<char> {
        self.domain@ + "/"@ + (if self.spec_is_implicit_www() {
            "www"@
        } else {
            self.subdomain@
        }) + (if self.public {
            "/public"@
        } else {
            Seq::empty()
        })
    }

    /// The fqn with `.` and `-` turned into `_`.
    pub open spec fn spec_dbname(&self) -> Seq<char> {
        underscored(self.spec_fqn())
    }

    /// The database name followed by `_user`.
    pub open spec fn spec_username(&self) -> Seq<char> {
        self.spec_dbname() + "_user"@
    }

    /// Fully-qualified name: `sub.domain` when a subdomain is given, else the
    /// bare domain (implicit `www` handled via server_name alias).
    pub fn fqn(&self) -> (r: String)
        ensures
            r@ == self.spec_fqn(),
    {
        if !self.is_implicit_www() {
            let mut r = self.subdomain.clone();
            r.append(".");
            r.append(self.domain.as_str());
            r
        } else {
            self.domain.clone()
        }
    }

    /// Implicit `www` when no explicit subdomain was provided.
    pub fn is_implicit_www(&self) -> (r: bool)
        ensures
            r == self.spec_is_implicit_www(),
    {
        self.subdomain.as_str().unicode_len() == 0
    }

    /// Document root relative to /var/www, e.g. `example.com/www/public`.
    pub fn dir(&self) -> (r: String)
        ensures
            r@ == self.spec_dir(),
    {
        let mut r = self.domain.clone();
        r.append("/");
        if self.is_implicit_www() {
            r.append("www");
        } else {
            r.append(self.subdomain.as_str());
        }
        if self.public {
            r.append("/public");
        }
        proof {
            if !self.public {
                assert(r@ + Seq::<char>::empty() =~= r@);
            }
        }
        r
    }

    /// Database name derived from the fqn (`.` and `-` -> `_`).
    pub fn dbname(&self) -> (r: String)
        ensures
            r@ == self.spec_dbname(),
    {
        let fqn = self.fqn();
        replace_dots_dashes(fqn.as_str())
    }

    /// Database user name: the database name followed by `_user`.
    pub fn username(&self) -> (r: String)
        ensures
            r@ == self.spec_username(),
    {
        let mut r = self.dbname();
        r.append("_user");
        r
    }
}

/// A character that a domain answer may hold: `a-z`, `0-9`, `.` and `-`.
pub open spec fn is_domain_char(c: char) -> bool {
    ('a' <= c && c <= 'z') || ('0' <= c && c <= '9') || c == '.' || c == '-'
}

/// An ASCII letter or digit.
pub open spec fn is_ascii_alnum(c: char) -> bool {
    ('a' <= c && c <= 'z') || ('A' <= c && c <= 'Z') || ('0' <= c && c <= '9')
}

/// One dot-separated label: non-empty, no `-` at either end, only ASCII
/// letters, digits and `-`.
pub open spec fn label_ok(l: Seq<char>) -> bool {
    &&& l.len() > 0
    &&& l[0] != '-'
    &&& l.last() != '-'
    &&& forall|i: int| 0 <= i < l.len() ==> is_ascii_alnum(#[trigger] l[i]) || l[i] == '-'
}

/// The labels of a domain: the pieces between dots once the dots at both
/// ends are trimmed.
pub open spec fn domain_labels(s: Seq<char>) -> Seq<Seq<char>> {
    split_on(strip_both(s, '.'), '.')
}

/// Non-empty, at least two labels, each of them well formed.
pub open spec fn labels_ok(s: Seq<char>) -> bool {
    &&& s.len() > 0
    &&& domain_labels(s).len() >= 2
    &&& forall|k: int| 0 <= k < domain_labels(s).len() ==> label_ok(#[trigger] domain_labels(s)[k])
}

/// The domain rule: lower-case letters, digits, dots and dashes only, and
/// at least two well-formed labels.
pub open spec fn domain_ok(s: Seq<char>) -> bool {
    &&& forall|i: int| 0 <= i < s.len() ==> is_domain_char(#[trigger] s[i])
    &&& labels_ok(s)
}

/// The error shown for a domain that breaks the rule.
pub open spec fn domain_error() -> Seq<char> {
    "Enter a domain with a TLD, e.g. example.com"@
}

/// The error shown for a port that is not in 1..=65535.
pub open spec fn port_error() -> Seq<char> {
    "Enter a port between 1 and 65535"@
}

/// What the `inquire` validation built from an optional error message is:
/// `Valid` for `None`, `Invalid(ErrorMessage::Custom(m))` for `Some(m)`.
pub uninterp spec fn validation_of(message: Option<Seq<char>>) -> Validation;

/// Declares `inquire::validator::Validation` to Verus as an opaque type.
#[verifier::external_type_specification]
#[verifier::external_body]
pub struct ExValidation(Validation);

/// Builds `Validation::Valid` for `None` and
/// `Validation::Invalid(ErrorMessage::Custom(m))` for `Some(m)`. The contract
/// ties the result to the message through the name `validation_of`, and
/// states that the result is the one built for `None` exactly when there is
/// no message (`Valid` is a variant of its own); it does not state the
/// variants themselves, which Verus does not see in an opaque type.
#[verifier::external_body]
fn validation_from(message: Option<String>) -> (v: Validation)
    ensures
        v == validation_of(
            match message {
                Some(m) => Some(m@),
                None => None,
            },
        ),
        (v == validation_of(None)) == (message is None),
{
    match message {
        None => Validation::Valid,
        Some(m) => Validation::Invalid(ErrorMessage::Custom(m)),
    }
}

fn domain_char(c: char) -> (b: bool)
    ensures
        b == is_domain_char(c),
{
    ('a' <= c && c <= 'z') || ('0' <= c && c <= '9') || c == '.' || c == '-'
}

fn ascii_alnum(c: char) -> (b: bool)
    ensures
        b == is_ascii_alnum(c),
{
    ('a' <= c && c <= 'z') || ('A' <= c && c <= 'Z') || ('0' <= c && c <= '9')
}

fn valid_label(l: &str) -> (b: bool)
    ensures
        b == label_ok(l@),
{
    let n = l.unicode_len();
    if n == 0 || l.get_char(0) == '-' || l.get_char(n - 1) == '-' {
        return false;
    }
    let mut i: usize = 0;
    while i < n
        invariant
            n == l@.len(),
            i <= n,
            forall|j: int| 0 <= j < i ==> is_ascii_alnum(#[trigger] l@[j]) || l@[j] == '-',
        decreases n - i,
    {
        let c = l.get_char(i);
        if !(ascii_alnum(c) || c == '-') {
            return false;
        }
        i = i + 1;
    }
    true
}

/// At least two labels once the outer dots are trimmed, each well formed.
pub fn valid_domain_labels(domain: &str) -> (b: bool)
    ensures
        b == labels_ok(domain@),
{
    if domain.unicode_len() == 0 {
        return false;
    }
    let trimmed = trim_char(domain, '.');
    let labels = split_char(trimmed.as_str(), '.');
    if labels.len() < 2 {
        return false;
    }
    let mut k: usize = 0;
    while k < labels.len()
        invariant
            labels@.len() == domain_labels(domain@).len(),
            forall|j: int| 0 <= j < labels@.len() ==> #[trigger] labels@[j]@ == domain_labels(domain@)[j],
            k <= labels@.len(),
            forall|j: int| 0 <= j < k ==> label_ok(#[trigger] domain_labels(domain@)[j]),
        decreases labels@.len() - k,
    {
        if !valid_label(labels[k].as_str()) {
            return false;
        }
        k = k + 1;
    }
    true
}

/// Whether `domain` follows the domain rule.
pub fn domain_is_valid(domain: &str) -> (b: bool)
    ensures
        b == domain_ok(domain@),
{
    let n = domain.unicode_len();
    let mut i: usize = 0;
    while i < n
        invariant
            n == domain@.len(),
            i <= n,
            forall|j: int| 0 <= j < i ==> is_domain_char(#[trigger] domain@[j]),
        decreases n - i,
    {
        if !domain_char(domain.get_char(i)) {
            return false;
        }
        i = i + 1;
    }
    valid_domain_labels(domain)
}

/// Checks a domain answer against the domain rule: `Valid`, or `Invalid`
/// with a message asking for a domain with a TLD.
pub fn validate_domain(domain: &str) -> (v: Validation)
    ensures
        (v == validation_of(None)) == domain_ok(domain@),
        v == validation_of(
            if domain_ok(domain@) {
                None
            } else {
                Some(domain_error())
            },
        ),
{
    if domain_is_valid(domain) {
        validation_from(None)
    } else {
        validation_from(Some(String::from_str("Enter a domain with a TLD, e.g. example.com")))
    }
}

/// An ASCII decimal digit.
pub open spec fn is_digit(c: char) -> bool {
    '0' <= c && c <= '9'
}

/// The number that a run of decimal digits spells.
pub open spec fn digits_value(d: Seq<char>) -> int
    decreases d.len(),
{
    if d.len() == 0 {
        0
    } else {
        digits_value(d.drop_last()) * 10 + ((d.last() as u32) - ('0' as u32))
    }
}

/// Every character of `d` is a decimal digit.
pub open spec fn all_digits(d: Seq<char>) -> bool {
    forall|i: int| 0 <= i < d.len() ==> is_digit(#[trigger] d[i])
}

/// `s` without one leading `+`, if it has one.
pub open spec fn unsigned_part(s: Seq<char>) -> Seq<char> {
    if s.len() > 0 && s[0] == '+' {
        s.drop_first()
    } else {
        s
    }
}

/// What `str::parse::<u16>` accepts: an optional `+`, then one or more
/// decimal digits whose value fits in 16 bits.
pub open spec fn parsed_u16(s: Seq<char>) -> Option<int> {
    let d = unsigned_part(s);
    if d.len() > 0 && all_digits(d) && digits_value(d) <= 65535 {
        Some(digits_value(d))
    } else {
        None
    }
}

proof fn lemma_digits_value_grows(d: Seq<char>, j: int, k: int)
    requires
        0 <= j <= k <= d.len(),
        forall|i: int| 0 <= i < k ==> is_digit(#[trigger] d[i]),
    ensures
        digits_value(d.take(k)) >= digits_value(d.take(j)),
        digits_value(d.take(k)) >= 0,
    decreases k,
{
    if k > 0 {
        lemma_digits_value_grows(d, if j == k { k - 1 } else { j }, k - 1);
        assert(d.take(k).drop_last() =~= d.take(k - 1));
    }
}

/// `str::parse::<u16>`: the value of `s` when it is an optional `+` followed
/// by decimal digits that fit in 16 bits.
pub fn parse_u16(s: &str) -> (r: Option<u16>)
    ensures
        match r {
            Some(p) => parsed_u16(s@) == Some(p as int),
            None => parsed_u16(s@) is None,
        },
{
    let n = s.unicode_len();
    let start: usize = if n > 0 && s.get_char(0) == '+' { 1 } else { 0 };
    let ghost d = unsigned_part(s@);
    assert(d =~= s@.skip(start as int));
    if start == n {
        return None;
    }
    let mut acc: u64 = 0;
    let mut i: usize = start;
    assert(d.take(0) =~= Seq::<char>::empty());
    while i < n
        invariant
            n == s@.len(),
            start <= i <= n,
            d =~= s@.skip(start as int),
            d == unsigned_part(s@),
            forall|j: int| 0 <= j < i - start ==> is_digit(#[trigger] d[j]),
            acc == digits_value(d.take(i - start)),
            acc <= 65535,
        decreases n - i,
    {
        let c = s.get_char(i);
        if !('0' <= c && c <= '9') {
            assert(d[i - start] == c);
            assert(!is_digit(d[i - start]));
            return None;
        }
        let v = (c as u32 - '0' as u32) as u64;
        assert(d.take(i - start + 1).drop_last() =~= d.take(i - start));
        if acc * 10 + v > 65535 {
            proof {
                if all_digits(d) {
                    lemma_digits_value_grows(d, i - start + 1, d.len() as int);
                    assert(d.take(d.len() as int) =~= d);
                }
            }
            return None;
        }
        acc = acc * 10 + v;
        i = i + 1;
    }
    assert(d.take(n - start) =~= d);
    Some(acc as u16)
}

/// Port must be a number in 1..=65535.
pub fn validate_port(port: &str) -> (v: Validation)
    ensures
        (v == validation_of(None)) == (parsed_u16(port@) matches Some(p) && p > 0),
        v == validation_of(
            if parsed_u16(port@) matches Some(p) && p > 0 {
                None
            } else {
                Some(port_error())
            },
        ),
{
    match parse_u16(port) {
        Some(p) if p > 0 => validation_from(None),
        _ => validation_from(Some(String::from_str("Enter a port between 1 and 65535"))),
    }
}

} // verus!
