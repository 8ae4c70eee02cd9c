//! The settings of one run, and the rules that fill in what was left out.

use vstd::prelude::*;

verus! {

/// The port of a plain connection.
pub const DEFAULT_PORT: u16 = 27993;

/// The port of an encrypted connection.
pub const DEFAULT_TLS_PORT: u16 = 27994;

/// The settings of one run.
#[derive(Debug, PartialEq, Eq, Clone)]
pub struct CLI {
    /// Whether the connection is encrypted.
    pub encrypt: bool,
    /// The port on which the server listens.
    pub port: u16,
    /// The name or address of the server.
    pub hostname: String,
    /// The name that the player announces.
    pub username: String,
    /// The path of the word list.
    pub word_list: String,
}

/// The port to use where none was given: it goes by the encryption.
pub open spec fn port_for(encrypt: bool) -> u16 {
    if encrypt {
        DEFAULT_TLS_PORT
    } else {
        DEFAULT_PORT
    }
}

/// The port to use where none was given.
pub fn default_port(encrypt: bool) -> (r: u16)
    ensures
        r == port_for(encrypt),
{
    if encrypt {
        DEFAULT_TLS_PORT
    } else {
        DEFAULT_PORT
    }
}

/// The path of the word list where none was given.
pub fn default_word_list() -> (r: String)
    ensures
        r@ == "wordle_guesser/word_list.txt"@,
{
    String::from_str("wordle_guesser/word_list.txt")
}

impl CLI {
    /// Settings from what was given: a port left out goes by the
    /// encryption, a word list left out is the default one.
    pub fn new(
        encrypt: bool,
        port: Option<u16>,
        hostname: String,
        username: String,
        word_list: Option<String>,
    ) -> (r: CLI)
        ensures
            r.encrypt == encrypt,
            r.port == match port {
                Some(given) => given,
                None => port_for(encrypt),
            },
            r.hostname == hostname,
            r.username == username,
            r.word_list@ == match word_list {
                Some(given) => given@,
                None => "wordle_guesser/word_list.txt"@,
            },
    {
        let port: u16 = match port {
            Some(given) => given,
            None => default_port(encrypt),
        };
        let word_list: String = match word_list {
            Some(given) => given,
            None => default_word_list(),
        };
        CLI { encrypt, port, hostname, username, word_list }
    }
}

/// The text that Rust's debug formatting writes for a path: the path in
/// double quotes, with escapes where it needs them.
pub uninterp spec fn quoted_path(path: Seq<char>) -> Seq<char>;

/// Formats a path as `std::path::Display` does under `{:?}`. The text
/// depends on the path alone.
#[verifier::external_body]
fn quote_path(path: &str) -> (r: String)
    ensures
        r@ == quoted_path(path@),
{
    format!("{:?}", std::path::Path::new(path).display())
}

/// What is said of a path at which no file was found.
pub open spec fn missing_file_message(path: Seq<char>) -> Seq<char> {
    "No file exists at "@ + quoted_path(path)
}

/// Accepts the path of a word list when a file exists there, and says so
/// when none does. Whether one exists is for the caller to find out.
pub fn validate_path(string_path: &str, exists: bool) -> (r: Result<String, String>)
    ensures
        exists ==> r is Ok && r->Ok_0@ == string_path@,
        !exists ==> r is Err && r->Err_0@ == missing_file_message(string_path@),
{
    if exists {
        Ok(string_path.to_owned())
    } else {
        let mut message: String = String::from_str("No file exists at ");
        let quoted: String = quote_path(string_path);
        message.append(quoted.as_str());
        Err(message)
    }
}

} // verus!
