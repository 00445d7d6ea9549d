//! Terminal text: icons and the coloured lines that the front end prints.
//! Colours are ANSI SGR sequences written by `owo_colors`.

use owo_colors::OwoColorize;
use vstd::prelude::*;

use crate::text::{decimal, push_decimal};

verus! {

pub const ICON_ROCKET: &'static str = "\u{1f680}";

pub const ICON_GLOBE: &'static str = "\u{1f310}";

pub const ICON_FOLDER: &'static str = "\u{1f4c1}";

pub const ICON_CONFIG: &'static str = "\u{2699}\u{fe0f}";

pub const ICON_LOCK: &'static str = "\u{1f512}";

pub const ICON_DB: &'static str = "\u{1f5c3}\u{fe0f}";

pub const ICON_FILE: &'static str = "\u{1f4c4}";

pub const ICON_CHECK: &'static str = "\u{2714}";

pub const ICON_CROSS: &'static str = "\u{2718}";

pub const ICON_ARROW: &'static str = "\u{276f}";

pub const ICON_WRENCH: &'static str = "\u{1f527}";

pub const ICON_INFO: &'static str = "\u{2139}\u{fe0f}";

/// The ANSI select-graphic-rendition sequence `ESC [ <code> m`.
pub open spec fn sgr(code: Seq<char>) -> Seq<char> {
    seq!['\u{1b}', '['] + code + seq!['m']
}

/// `t` between the sequence that sets a style and the one that resets it.
pub open spec fn styled(set: Seq<char>, reset: Seq<char>, t: Seq<char>) -> Seq<char> {
    sgr(set) + t + sgr(reset)
}

/// Bold: `ESC[1m` ... `ESC[0m`.
pub open spec fn in_bold(t: Seq<char>) -> Seq<char> {
    styled(seq!['1'], seq!['0'], t)
}

/// Dim: `ESC[2m` ... `ESC[0m`.
pub open spec fn in_dim(t: Seq<char>) -> Seq<char> {
    styled(seq!['2'], seq!['0'], t)
}

/// Foreground colour `3<digit>`, reset by `ESC[39m`.
pub open spec fn in_color(digit: char, t: Seq<char>) -> Seq<char> {
    styled(seq!['3', digit], seq!['3', '9'], t)
}

/// `OwoColorize::bold`, rendered with `to_string`.
#[verifier::external_body]
fn bold(t: &str) -> (r: String)
    ensures
        r@ == in_bold(t@),
{
    t.bold().to_string()
}

/// `OwoColorize::dimmed`, rendered with `to_string`.
#[verifier::external_body]
fn dimmed(t: &str) -> (r: String)
    ensures
        r@ == in_dim(t@),
{
    t.dimmed().to_string()
}

/// `OwoColorize::red` (foreground 31), rendered with `to_string`.
#[verifier::external_body]
fn red(t: &str) -> (r: String)
    ensures
        r@ == in_color('1', t@),
{
    t.red().to_string()
}

/// `OwoColorize::green` (foreground 32), rendered with `to_string`.
#[verifier::external_body]
fn green(t: &str) -> (r: String)
    ensures
        r@ == in_color('2', t@),
{
    t.green().to_string()
}

/// `OwoColorize::yellow` (foreground 33), rendered with `to_string`.
#[verifier::external_body]
fn yellow(t: &str) -> (r: String)
    ensures
        r@ == in_color('3', t@),
{
    t.yellow().to_string()
}

/// `OwoColorize::blue` (foreground 34), rendered with `to_string`.
#[verifier::external_body]
fn blue(t: &str) -> (r: String)
    ensures
        r@ == in_color('4', t@),
{
    t.blue().to_string()
}

/// `OwoColorize::cyan` (foreground 36), rendered with `to_string`.
#[verifier::external_body]
fn cyan(t: &str) -> (r: String)
    ensures
        r@ == in_color('6', t@),
{
    t.cyan().to_string()
}

/// `OwoColorize::white` (foreground 37), rendered with `to_string`.
#[verifier::external_body]
fn white(t: &str) -> (r: String)
    ensures
        r@ == in_color('7', t@),
{
    t.white().to_string()
}

/// The rocket and the tool's name in bold cyan.
pub open spec fn spec_banner() -> Seq<char> {
    ICON_ROCKET@ + " "@ + in_color('6', in_bold("ngaw-domain"@))
}

pub fn banner() -> (r: String)
    ensures
        r@ == spec_banner(),
{
    let mut r = String::from_str(ICON_ROCKET);
    r.append(" ");
    r.append(cyan(bold("ngaw-domain").as_str()).as_str());
    r
}

/// A blank line, a dim arrow and the title in bold green.
pub open spec fn spec_section(title: Seq<char>) -> Seq<char> {
    "\n"@ + in_dim(ICON_ARROW@) + " "@ + in_color('2', in_bold(title))
}

pub fn section(title: &str) -> (r: String)
    ensures
        r@ == spec_section(title@),
{
    let mut r = String::from_str("\n");
    r.append(dimmed(ICON_ARROW).as_str());
    r.append(" ");
    r.append(green(bold(title).as_str()).as_str());
    r
}

/// `(n/total)` dimmed, the icon, a cyan arrow and the description in white.
pub open spec fn spec_step(n: nat, total: nat, icon: Seq<char>, desc: Seq<char>) -> Seq<char> {
    in_dim("("@ + decimal(n) + "/"@ + decimal(total) + ")"@) + " "@ + icon + " "@ + in_color(
        '6',
        ICON_ARROW@,
    ) + " "@ + in_color('7', desc)
}

pub fn step(n: usize, total: usize, icon: &str, desc: &str) -> (r: String)
    ensures
        r@ == spec_step(n as nat, total as nat, icon@, desc@),
{
    let mut counter = String::from_str("(");
    push_decimal(&mut counter, n as u64);
    counter.append("/");
    push_decimal(&mut counter, total as u64);
    counter.append(")");
    let mut r = dimmed(counter.as_str());
    r.append(" ");
    r.append(icon);
    r.append(" ");
    r.append(cyan(ICON_ARROW).as_str());
    r.append(" ");
    r.append(white(desc).as_str());
    r
}

/// The command dimmed, in blue.
pub open spec fn spec_command(cmd: Seq<char>) -> Seq<char> {
    in_color('4', in_dim(cmd))
}

pub fn command(cmd: &str) -> (r: String)
    ensures
        r@ == spec_command(cmd@),
{
    blue(dimmed(cmd).as_str())
}

/// A green check mark and the message in green.
pub open spec fn spec_success(msg: Seq<char>) -> Seq<char> {
    in_color('2', ICON_CHECK@) + " "@ + in_color('2', msg)
}

pub fn success(msg: &str) -> (r: String)
    ensures
        r@ == spec_success(msg@),
{
    let mut r = green(ICON_CHECK);
    r.append(" ");
    r.append(green(msg).as_str());
    r
}

/// A red cross and the message in red.
pub open spec fn spec_error(msg: Seq<char>) -> Seq<char> {
    in_color('1', ICON_CROSS@) + " "@ + in_color('1', msg)
}

pub fn error(msg: &str) -> (r: String)
    ensures
        r@ == spec_error(msg@),
{
    let mut r = red(ICON_CROSS);
    r.append(" ");
    r.append(red(msg).as_str());
    r
}

/// A cyan info sign and the message as it is.
pub open spec fn spec_info(msg: Seq<char>) -> Seq<char> {
    in_color('6', ICON_INFO@) + " "@ + msg
}

pub fn info(msg: &str) -> (r: String)
    ensures
        r@ == spec_info(msg@),
{
    let mut r = cyan(ICON_INFO);
    r.append(" ");
    r.append(msg);
    r
}

/// Indented `label:` dimmed, then the value in yellow.
pub open spec fn spec_label_value(label: Seq<char>, value: Seq<char>) -> Seq<char> {
    "  "@ + in_dim(label + ":"@) + " "@ + in_color('3', value)
}

pub fn label_value(label: &str, value: &str) -> (r: String)
    ensures
        r@ == spec_label_value(label@, value@),
{
    let mut tag = String::from_str(label);
    tag.append(":");
    let mut r = String::from_str("  ");
    r.append(dimmed(tag.as_str()).as_str());
    r.append(" ");
    r.append(yellow(value).as_str());
    r
}

} // verus!
