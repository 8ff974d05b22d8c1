//! The review-server connection's computational pieces: credentials and
//! the response-prefix check. The network itself lives outside the
//! library; callers hand responses in as text.

use vstd::prelude::*;

verus! {

/// What pruning the server's anti-hijacking prefix yields: the rest of
/// the text when the prefix is there, nothing otherwise.
pub open spec fn spec_prune_magic(s: Seq<char>) -> Option<Seq<char>> {
    if s.len() >= 4 && s.subrange(0, 4) == ")]}'"@ {
        Some(s.skip(4))
    } else {
        None
    }
}

/// Strips the magic prefix that the review server puts before every JSON
/// response; returns `None` when the prefix is absent.
pub fn prune_magic(text: String) -> (r: Option<String>)
    ensures
        match r {
            Some(t) => spec_prune_magic(text@) == Some(t@),
            None => spec_prune_magic(text@) is None,
        },
{
    proof {
        reveal_strlit(")]}'");
    }
    let s = text.as_str();
    let n = s.unicode_len();
    if n < 4 {
        return None;
    }
    proof {
        assert(text@.subrange(0, 4)[0] == text@[0]);
        assert(text@.subrange(0, 4)[1] == text@[1]);
        assert(text@.subrange(0, 4)[2] == text@[2]);
        assert(text@.subrange(0, 4)[3] == text@[3]);
    }
    if s.get_char(0) != ')' || s.get_char(1) != ']' || s.get_char(2) != '}' || s.get_char(3)
        != '\'' {
        return None;
    }
    proof {
        assert(text@.subrange(0, 4) =~= ")]}'"@);
    }
    let rest = s.substring_char(4, n);
    proof {
        assert(rest@ =~= text@.skip(4));
    }
    Some(rest.to_owned())
}

/// Credentials for the review server. The values come from the caller;
/// reading them from the environment is not this library's business.
#[derive(Clone, Debug)]
pub struct Connection {
    pub username: String,
    pub password: String,
}

impl Connection {
    /// A connection with the given credentials.
    pub fn new(username: String, password: String) -> (r: Connection)
        ensures
            r.username == username,
            r.password == password,
    {
        Connection { username, password }
    }

    /// The account name to authenticate with.
    pub fn get_username(&self) -> (r: String)
        ensures
            r == self.username,
    {
        self.username.clone()
    }

    /// The password to authenticate with.
    pub fn get_password(&self) -> (r: String)
        ensures
            r == self.password,
    {
        self.password.clone()
    }
}

} // verus!
