//! Where the bot's token comes from: the command line first, then the token
//! file, whose contents are taken without the white space around them, then
//! the keyring of the operating system.

use vstd::prelude::*;
use vstd::string::StrSliceExecFns;

verus! {

/// Whether a character is white space, as `char::is_whitespace` tells.
pub uninterp spec fn white_space(c: char) -> bool;

/// `char::is_whitespace`: whether the character has the Unicode property
/// `White_Space`.
#[verifier::external_body]
fn is_whitespace(c: char) -> (space: bool)
    ensures
        space == white_space(c),
{
    c.is_whitespace()
}

/// A text without the white space at its start and at its end.
pub open spec fn trimmed(text: Seq<char>) -> Seq<char>
    decreases text.len(),
{
    if text.len() > 0 && white_space(text[0]) {
        trimmed(text.drop_first())
    } else if text.len() > 0 && white_space(text.last()) {
        trimmed(text.drop_last())
    } else {
        text
    }
}

/// Strips the white space from both ends of a text.
pub fn trim(text: &str) -> (stripped: String)
    ensures
        stripped@ == trimmed(text@),
{
    let len = text.unicode_len();
    let mut start: usize = 0;
    assert(text@.subrange(0, len as int) =~= text@);
    loop
        invariant
            start <= len,
            len == text@.len(),
            trimmed(text@) == trimmed(text@.subrange(start as int, len as int)),
        ensures
            start < len ==> !white_space(text@[start as int]),
        decreases len - start,
    {
        if start == len {
            break ;
        }
        if !is_whitespace(text.get_char(start)) {
            break ;
        }
        proof {
            let rest = text@.subrange(start as int, len as int);
            assert(rest.drop_first() =~= text@.subrange(start as int + 1, len as int));
        }
        start += 1;
    }
    let mut end: usize = len;
    loop
        invariant
            start <= end <= len,
            len == text@.len(),
            start < len ==> !white_space(text@[start as int]),
            trimmed(text@) == trimmed(text@.subrange(start as int, end as int)),
        ensures
            start < end ==> !white_space(text@[end as int - 1]),
        decreases end,
    {
        if end == start {
            break ;
        }
        if !is_whitespace(text.get_char(end - 1)) {
            break ;
        }
        proof {
            let rest = text@.subrange(start as int, end as int);
            assert(rest.drop_last() =~= text@.subrange(start as int, end as int - 1));
        }
        end -= 1;
    }
    text.substring_char(start, end).to_owned()
}

/// Why no token could be had.
#[derive(Clone, Copy, Debug, PartialEq, Eq, Structural)]
pub enum TokenError {
    /// Neither the command line nor the token file nor the keyring gave
    /// one.
    Missing,
}

/// The characters of a text, if there is one.
pub open spec fn contents_of(text: Option<&str>) -> Option<Seq<char>> {
    match text {
        Some(contents) => Some(contents@),
        None => None,
    }
}

/// A chosen token as its characters.
pub open spec fn token_view(token: Result<String, TokenError>) -> Result<Seq<char>, TokenError> {
    match token {
        Ok(chosen) => Ok(chosen@),
        Err(error) => Err(error),
    }
}

/// The bot's options.
pub struct DiscordArgs {
    discord_token: Option<String>,
}

impl DiscordArgs {
    /// The token given on the command line or in the environment, if any.
    pub closed spec fn token_spec(&self) -> Option<String> {
        self.discord_token
    }

    /// The token that is used, given the contents of the token file if the
    /// file could be read and the secret in the keyring if there is one:
    /// the token from the command line, as it is; or else the file's
    /// contents without the white space around them; or else the secret, as
    /// it is.
    pub open spec fn chosen(&self, file: Option<Seq<char>>, keyring: Option<Seq<char>>) -> Result<
        Seq<char>,
        TokenError,
    > {
        match (self.token_spec(), file, keyring) {
            (Some(token), _, _) => Ok(token@),
            (None, Some(contents), _) => Ok(trimmed(contents)),
            (None, None, Some(secret)) => Ok(secret),
            (None, None, None) => Err(TokenError::Missing),
        }
    }

    pub fn new(discord_token: Option<String>) -> (args: Self)
        ensures
            args.token_spec() == discord_token,
    {
        DiscordArgs { discord_token }
    }

    /// Whether the token file has to be looked at: only if no token was
    /// given on the command line.
    pub fn needs_file(&self) -> (needed: bool)
        ensures
            needed == self.token_spec().is_none(),
    {
        self.discord_token.is_none()
    }

    /// Gives up the token given on the command line or in the environment,
    /// if any.
    pub fn into_token(self) -> (token: Option<String>)
        ensures
            token == self.token_spec(),
    {
        self.discord_token
    }

    /// Chooses the token. `file` holds the contents of the token file, or
    /// nothing if there is no such file; `keyring` holds the secret kept in
    /// the keyring, or nothing if there is none or no keyring is used.
    pub fn get_token(&self, file: Option<&str>, keyring: Option<&str>) -> (token: Result<String, TokenError>)
        ensures
            token_view(token) == self.chosen(contents_of(file), contents_of(keyring)),
    {
        match &self.discord_token {
            Some(token) => Ok(token.clone()),
            None => match file {
                Some(contents) => Ok(trim(contents)),
                None => match keyring {
                    Some(secret) => Ok(secret.to_owned()),
                    None => Err(TokenError::Missing),
                },
            },
        }
    }
}

} // verus!
