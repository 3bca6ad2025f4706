//! The argument resolver: destination parsing and construction of the
//! configuration record.

use vstd::prelude::*;
use vstd::string::StrSliceExecFns;
use vstd::string::StringExecFns;

verus! {

/// True when `s` contains at least one `@`.
pub open spec fn has_at(s: Seq<char>) -> bool {
    exists|i: int| 0 <= i < s.len() && s[i] == '@'
}

/// `u` and `h` are the two pieces of `s` around its first `@`: `u` is
/// everything before that `@` (and so contains no `@` itself), `h` is
/// everything after it, further `@` characters included.
pub open spec fn splits_at_first_at(s: Seq<char>, u: Seq<char>, h: Seq<char>) -> bool {
    &&& s == u + seq!['@'] + h
    &&& !has_at(u)
}

/// The message carried by the error for an unparseable destination.
pub open spec fn invalid_destination_message(s: Seq<char>) -> Seq<char> {
    "Expected user@hostname, got: "@ + s
}

/// An error produced while resolving arguments.
#[derive(Debug)]
pub enum ConfigError {
    /// The destination did not have the `user@hostname` shape; the payload is
    /// the full error message, which quotes the offending input.
    InvalidInput(String),
}

impl ConfigError {
    /// The message carried by the error.
    pub open spec fn spec_message(self) -> Seq<char> {
        match self {
            ConfigError::InvalidInput(m) => m@,
        }
    }

    /// The human-readable description of the error.
    pub fn message(&self) -> (m: &str)
        ensures
            m@ == self.spec_message(),
    {
        match self {
            ConfigError::InvalidInput(m) => m.as_str(),
        }
    }
}

/// The two pieces of a split around the first `@` are exactly the substring
/// of `s` before its first `@` and the substring after it: the `@` at
/// `u.len()` is the first one in `s`, `u` is everything before that position
/// and `h` everything after it.
pub proof fn lemma_first_split_characterization(s: Seq<char>, u: Seq<char>, h: Seq<char>)
    requires
        splits_at_first_at(s, u, h),
    ensures
        u.len() < s.len(),
        s[u.len() as int] == '@',
        forall|j: int| 0 <= j < u.len() ==> s[j] != '@',
        u == s.take(u.len() as int),
        h == s.skip(u.len() as int + 1),
{
    assert forall|j: int| 0 <= j < u.len() implies s[j] != '@' by {
        assert(s[j] == u[j]);
    }
    assert(u =~= s.take(u.len() as int));
    assert(h =~= s.skip(u.len() as int + 1));
}

/// A string splits around its first `@` in at most one way: the split, when
/// it exists, is unique.
pub proof fn lemma_first_split_unique(
    s: Seq<char>,
    u1: Seq<char>,
    h1: Seq<char>,
    u2: Seq<char>,
    h2: Seq<char>,
)
    requires
        splits_at_first_at(s, u1, h1),
        splits_at_first_at(s, u2, h2),
    ensures
        u1 == u2,
        h1 == h2,
{
    lemma_first_split_characterization(s, u1, h1);
    lemma_first_split_characterization(s, u2, h2);
    if u1.len() < u2.len() {
        assert(s[u1.len() as int] == '@');
        assert(false);
    }
    if u2.len() < u1.len() {
        assert(s[u2.len() as int] == '@');
        assert(false);
    }
    assert(u1 =~= u2);
    assert(h1 =~= h2);
}

/// The structured configuration record: the immutable intermediate value
/// between argument resolution and rendering.
#[derive(Debug)]
pub struct ConfigRecord {
    /// The host aliases; at least one is always present.
    pub host: Vec<String>,
    /// The user taken from the destination, when one was given.
    pub user: Option<String>,
    /// The hostname taken from the destination, when one was given.
    pub hostname: Option<String>,
    /// The port, passed through verbatim.
    pub port: Option<String>,
    /// The identity file path, passed through verbatim.
    pub identity_file: Option<String>,
    /// Whether compression is enabled.
    pub compression: bool,
}

impl ConfigRecord {
    /// Well-formedness: at least one host alias, and user and hostname are
    /// both present or both absent (they come from one destination string).
    pub open spec fn wf(self) -> bool {
        &&& self.host@.len() > 0
        &&& (self.user is Some <==> self.hostname is Some)
    }
}

/// Split a destination of the form `user@hostname` on its first `@`.
///
/// Succeeds exactly when the input contains an `@`; the piece before the
/// first `@` becomes the user, everything after it the hostname.
pub fn parse_destination(destination: &str) -> (r: Result<(String, String), ConfigError>)
    ensures
        r is Ok <==> has_at(destination@),
        r matches Ok(p) ==> splits_at_first_at(destination@, p.0@, p.1@),
        r matches Err(e) ==> e.spec_message() == invalid_destination_message(destination@),
{
    let n = destination.unicode_len();
    let mut i: usize = 0;
    while i < n
        invariant
            n == destination@.len(),
            i <= n,
            forall|j: int| 0 <= j < i ==> destination@[j] != '@',
        decreases n - i,
    {
        if destination.get_char(i) == '@' {
            let user = destination.substring_char(0, i).to_owned();
            let hostname = destination.substring_char(i + 1, n).to_owned();
            proof {
                assert(destination@ =~= user@ + seq!['@'] + hostname@);
            }
            return Ok((user, hostname));
        }
        i += 1;
    }
    let mut message = String::from_str("Expected user@hostname, got: ");
    message.append(destination);
    Err(ConfigError::InvalidInput(message))
}

/// Build the configuration record from the resolved argument values.
///
/// Fails exactly when a destination was given that contains no `@`; every
/// other value is carried into the record verbatim.
pub fn build_config(
    host: Vec<String>,
    destination: Option<&str>,
    port: Option<String>,
    identity_file: Option<String>,
    compression: bool,
) -> (r: Result<ConfigRecord, ConfigError>)
    requires
        host@.len() > 0,
    ensures
        r is Ok <==> (destination matches Some(d) ==> has_at(d@)),
        r matches Ok(c) ==> {
            &&& c.host == host
            &&& c.port == port
            &&& c.identity_file == identity_file
            &&& c.compression == compression
            &&& match destination {
                None => c.user is None && c.hostname is None,
                Some(d) => {
                    &&& c.user is Some
                    &&& c.hostname is Some
                    &&& splits_at_first_at(d@, c.user->0@, c.hostname->0@)
                },
            }
            &&& c.wf()
        },
        r matches Err(e) ==> {
            &&& destination is Some
            &&& e.spec_message() == invalid_destination_message(destination->0@)
        },
{
    let (user, hostname) = match destination {
        None => (None, None),
        Some(d) => match parse_destination(d) {
            Ok(p) => (Some(p.0), Some(p.1)),
            Err(e) => {
                return Err(e);
            },
        },
    };
    Ok(ConfigRecord { host, user, hostname, port, identity_file, compression })
}

} // verus!
