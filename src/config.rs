//! Start-up values and inbound commands: the data directory, the files in
//! it, the access token, and the command a chat text stands for.

use crate::catalog::{join_path, resolve_path};
use crate::text::{chars_of, string_of, trim, trim_range};
use vstd::prelude::*;

verus! {

/// The data directory used when none is configured.
pub open spec fn default_data_dir() -> Seq<char> {
    "data"@
}

/// The data directory: the configured value, trimmed, unless it is missing
/// or blank.
pub open spec fn data_dir_of(configured: Option<Seq<char>>) -> Seq<char> {
    match configured {
        Some(v) => if trim(v).len() > 0 {
            trim(v)
        } else {
            default_data_dir()
        },
        None => default_data_dir(),
    }
}

/// `s` with white space trimmed from both ends.
pub fn trimmed(s: &str) -> (r: String)
    ensures
        r@ == trim(s@),
{
    let chars = chars_of(s);
    let (a, b) = trim_range(&chars, 0, chars.len());
    assert(chars@.subrange(0, chars@.len() as int) =~= chars@);
    string_of(&chars, a, b)
}

/// The data directory for a configured value (see `data_dir_of`).
pub fn resolve_data_dir(configured: Option<&str>) -> (r: String)
    ensures
        r@ == data_dir_of(opt_view(configured)),
{
    match configured {
        Some(v) => {
            let t = trimmed(v);
            if t.as_str().is_empty() {
                "data".to_owned()
            } else {
                t
            }
        },
        None => "data".to_owned(),
    }
}

/// The ledger file in `dir`.
pub fn ledger_file(dir: &str) -> (r: String)
    ensures
        r@ == join_path(dir@, "balances.json"@),
{
    resolve_path(dir, "balances.json")
}

/// The temporary file a save writes before renaming it over the ledger file.
pub fn ledger_temp_file(dir: &str) -> (r: String)
    ensures
        r@ == join_path(dir@, "balances.json.tmp"@),
{
    resolve_path(dir, "balances.json.tmp")
}

/// The manifest file in `dir`.
pub fn manifest_file(dir: &str) -> (r: String)
    ensures
        r@ == join_path(dir@, "images.env"@),
{
    resolve_path(dir, "images.env")
}

/// The file in `dir` that may hold the access token on its first line.
pub fn token_file(dir: &str) -> (r: String)
    ensures
        r@ == join_path(dir@, "token.env"@),
{
    resolve_path(dir, "token.env")
}

/// The views of an optional string.
pub open spec fn opt_view(o: Option<&str>) -> Option<Seq<char>> {
    match o {
        Some(v) => Some(v@),
        None => None,
    }
}

/// The access token: the configured value as it is, when it is not blank;
/// else the token file's first line, trimmed, when that is not blank; else
/// none, and the service cannot start.
pub open spec fn token_of(configured: Option<Seq<char>>, file_first_line: Option<Seq<char>>) -> Option<
    Seq<char>,
> {
    if configured is Some && trim(configured->0).len() > 0 {
        configured
    } else {
        match file_first_line {
            Some(l) => if trim(l).len() > 0 {
                Some(trim(l))
            } else {
                None
            },
            None => None,
        }
    }
}

/// The access token for the configured value and the token file's first
/// line (see `token_of`).
pub fn choose_token(configured: Option<&str>, file_first_line: Option<&str>) -> (r: Option<
    String,
>)
    ensures
        token_of(opt_view(configured), opt_view(file_first_line)) == match r {
            Some(t) => Some(t@),
            None => None::<Seq<char>>,
        },
{
    if let Some(v) = configured {
        let t = trimmed(v);
        if !t.as_str().is_empty() {
            return Some(v.to_owned());
        }
    }
    match file_first_line {
        Some(l) => {
            let t = trimmed(l);
            if t.as_str().is_empty() {
                None
            } else {
                Some(t)
            }
        },
        None => None,
    }
}

/// What a chat text asks for.
#[derive(Clone, Copy, Debug, PartialEq, Eq, Structural)]
pub enum Command {
    /// The greeting command.
    Start,
    /// The draw button.
    Draw,
    /// The balance button.
    Balance,
    /// Anything else.
    Other,
}

/// Label of the draw button.
pub open spec fn draw_label() -> Seq<char> {
    "Try My Luck"@
}

/// Label of the balance button.
pub open spec fn balance_label() -> Seq<char> {
    "Balance"@
}

impl Command {
    /// The command that the chat text `text` stands for.
    pub fn parse(text: &str) -> (r: Command)
        ensures
            r == (if text@ == "/start"@ {
                Command::Start
            } else if text@ == draw_label() {
                Command::Draw
            } else if text@ == balance_label() {
                Command::Balance
            } else {
                Command::Other
            }),
    {
        let t = text.to_owned();
        if t == "/start".to_owned() {
            Command::Start
        } else if t == "Try My Luck".to_owned() {
            Command::Draw
        } else if t == "Balance".to_owned() {
            Command::Balance
        } else {
            Command::Other
        }
    }
}

} // verus!
