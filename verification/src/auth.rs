//! Credentials for the remote API: a user name, a password and the
//! endpoint to talk to.

use crate::text::{
    chars_of, contains, find_char, has_substring, index_of, occurs_at, slice_chars, starts_with,
    string_of,
};
use vstd::prelude::*;
use vstd::string::*;

verus! {

/// Why an authentication string was refused.
#[derive(Debug, Clone, Copy, PartialEq, Eq, Structural)]
pub enum AuthError {
    /// The string holds no colon between a user name and a password.
    InvalidFormat,
}

/// The credentials of one user. The fields are private: the password
/// leaves this type only inside the authentication string.
#[derive(Clone)]
pub struct OneCredentials {
    username: String,
    password: String,
    endpoint: String,
}

/// The two parts of an authentication string: what stands before its
/// first colon and what stands after it; nothing where it has no colon.
pub open spec fn auth_parts(auth: Seq<char>) -> Option<(Seq<char>, Seq<char>)> {
    let colon = index_of(auth, ':');
    if colon < auth.len() {
        Some((auth.take(colon), auth.skip(colon + 1)))
    } else {
        None
    }
}

/// Whether an endpoint is reached without encryption and is not on this
/// machine: it starts with `http://` and names neither `localhost` nor
/// `127.0.0.1`.
pub open spec fn is_insecure(endpoint: Seq<char>) -> bool {
    occurs_at(endpoint, "http://"@, 0) && !has_substring(endpoint, "localhost"@) && !has_substring(
        endpoint,
        "127.0.0.1"@,
    )
}

/// Whether the permission bits of a credential file let the group or
/// others at it.
pub open spec fn is_exposed(mode: u32) -> bool {
    mode & 0o077 != 0
}

impl OneCredentials {
    /// The user's name.
    pub closed spec fn user(&self) -> Seq<char> {
        self.username@
    }

    /// The user's password.
    pub closed spec fn secret(&self) -> Seq<char> {
        self.password@
    }

    /// The endpoint's address.
    pub closed spec fn address(&self) -> Seq<char> {
        self.endpoint@
    }

    /// The authentication string: name, colon, password.
    pub open spec fn auth_text(&self) -> Seq<char> {
        self.user() + seq![':'] + self.secret()
    }

    /// Credentials from an authentication string of the form
    /// `username:password` and an endpoint. The password may hold colons.
    pub fn new(auth: &str, endpoint: &str) -> (result: Result<OneCredentials, AuthError>)
        ensures
            match auth_parts(auth@) {
                Some((user, secret)) => result matches Ok(credentials) && credentials.user()
                    == user && credentials.secret() == secret && credentials.address()
                    == endpoint@,
                None => result == Err::<OneCredentials, AuthError>(AuthError::InvalidFormat),
            },
    {
        match OneCredentials::parse_auth_string(auth) {
            Ok((username, password)) => Ok(
                OneCredentials { username, password, endpoint: String::from_str(endpoint) },
            ),
            Err(error) => Err(error),
        }
    }

    /// The user's name.
    pub fn username(&self) -> (name: &str)
        ensures
            name@ == self.user(),
    {
        self.username.as_str()
    }

    /// The endpoint's address.
    pub fn endpoint(&self) -> (address: &str)
        ensures
            address@ == self.address(),
    {
        self.endpoint.as_str()
    }

    /// Sets another endpoint. Says whether the new endpoint deserves a
    /// warning for being insecure.
    pub fn set_endpoint(&mut self, endpoint: String) -> (insecure: bool)
        ensures
            final(self).address() == endpoint@,
            final(self).user() == old(self).user(),
            final(self).secret() == old(self).secret(),
            insecure == is_insecure(endpoint@),
    {
        let insecure = OneCredentials::warn_insecure_endpoint(endpoint.as_str());
        self.endpoint = endpoint;
        insecure
    }

    /// Whether an endpoint deserves a warning: plain HTTP to another
    /// machine.
    pub fn warn_insecure_endpoint(endpoint: &str) -> (insecure: bool)
        ensures
            insecure == is_insecure(endpoint@),
    {
        let chars = chars_of(endpoint);
        if starts_with(&chars, &chars_of("http://")) {
            let local = contains(&chars, &chars_of("localhost")) || contains(
                &chars,
                &chars_of("127.0.0.1"),
            );
            !local
        } else {
            false
        }
    }

    /// Whether the permission bits of a credential file deserve a warning:
    /// the group or others can get at the file.
    pub fn validate_file_permissions(mode: u32) -> (exposed: bool)
        ensures
            exposed == is_exposed(mode),
    {
        mode & 0o077 != 0
    }

    /// Splits an authentication string at its first colon into user name
    /// and password.
    pub fn parse_auth_string(auth: &str) -> (result: Result<(String, String), AuthError>)
        ensures
            match auth_parts(auth@) {
                Some((user, secret)) => result matches Ok((username, password)) && username@
                    == user && password@ == secret,
                None => result == Err::<(String, String), AuthError>(AuthError::InvalidFormat),
            },
    {
        let chars = chars_of(auth);
        assert(chars@.skip(0) =~= chars@);
        let colon = find_char(&chars, 0, ':');
        if colon < chars.len() {
            let user = slice_chars(&chars, 0, colon);
            let secret = slice_chars(&chars, colon + 1, chars.len());
            assert(user@ =~= auth@.take(colon as int));
            assert(secret@ =~= auth@.skip(colon + 1));
            Ok((string_of(&user), string_of(&secret)))
        } else {
            Err(AuthError::InvalidFormat)
        }
    }

    /// The authentication string for a call: name, colon, password.
    pub fn auth_string(&self) -> (auth: String)
        ensures
            auth@ == self.auth_text(),
    {
        proof {
            reveal_strlit(":");
            assert(":"@ =~= seq![':']);
        }
        self.username.clone().concat(":").concat(self.password.as_str())
    }

    /// A description for logs and diagnostics: the name and the endpoint
    /// as they are, the password replaced by a marker.
    pub fn redacted(&self) -> (text: String)
        ensures
            text@ == "OneCredentials { username: \""@ + self.user()
                + "\", password: \"[REDACTED]\", endpoint: \""@ + self.address() + "\" }"@,
    {
        String::from_str("OneCredentials { username: \"").concat(self.username.as_str()).concat(
            "\", password: \"[REDACTED]\", endpoint: \"",
        ).concat(self.endpoint.as_str()).concat("\" }")
    }
}

} // verus!
