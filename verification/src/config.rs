//! Command line and addresses.
//!
//! The forwarder is started as `<program> -p <port> -d <host>:<port>`.
//! Nothing here touches a socket: the functions turn the argument list into
//! a [`Config`] or an error, and a [`Config`] into the two address strings
//! that are bound and dialed.

use vstd::prelude::*;
use vstd::string::*;

verus! {

/// The separator between host and port in a destination.
pub open spec fn separator() -> char {
    ':'
}

/// `i` is a position of `s` that holds the separator.
pub open spec fn separator_at(s: Seq<char>, i: int) -> bool {
    0 <= i < s.len() && s[i] == separator()
}

/// `i` is the one and only position of `s` that holds the separator.
pub open spec fn sole_separator(s: Seq<char>, i: int) -> bool {
    &&& separator_at(s, i)
    &&& forall|j: int| separator_at(s, j) ==> j == i
}

/// A destination is well formed when it holds exactly one separator.
pub open spec fn well_formed_destination(s: Seq<char>) -> bool {
    exists|i: int| sole_separator(s, i)
}

/// The text `host:port`.
pub open spec fn joined(host: Seq<char>, port: Seq<char>) -> Seq<char> {
    host + seq![separator()] + port
}

/// A text that is split at a separator and joined again is the text.
pub proof fn lemma_join_undoes_split(s: Seq<char>, i: int)
    requires
        separator_at(s, i),
    ensures
        joined(s.take(i), s.skip(i + 1)) == s,
{
    assert(joined(s.take(i), s.skip(i + 1)) =~= s);
}

/// Why a command line was turned down.
#[derive(Clone, Copy, Debug, PartialEq, Eq, Structural)]
pub enum ConfigError {
    /// The arguments are not `-p <port> -d <destination>`.
    Usage,
    /// The destination does not hold exactly one `:`.
    InvalidDestination,
}

impl ConfigError {
    /// The line that tells the user what was wrong.
    pub open spec fn message_text(&self) -> Seq<char> {
        match self {
            ConfigError::Usage =>
                "Usage: rouillefwd -p [listening_port] -d [destination_host:destination_port]"@,
            ConfigError::InvalidDestination => "Invalid destination format. Use [host]:[port]."@,
        }
    }

    /// The line that tells the user what was wrong.
    pub fn message(&self) -> (r: String)
        ensures
            r@ == self.message_text(),
    {
        match self {
            ConfigError::Usage => String::from_str(
                "Usage: rouillefwd -p [listening_port] -d [destination_host:destination_port]",
            ),
            ConfigError::InvalidDestination => String::from_str(
                "Invalid destination format. Use [host]:[port].",
            ),
        }
    }
}

/// The fixed upstream that every connection is relayed to.
#[derive(Debug)]
pub struct Destination {
    pub host: String,
    pub port: String,
}

impl Clone for Destination {
    fn clone(&self) -> (r: Destination)
        ensures
            r == *self,
    {
        Destination { host: self.host.clone(), port: self.port.clone() }
    }
}

impl Destination {
    /// The text that is dialed: `host:port`.
    pub open spec fn address_text(&self) -> Seq<char> {
        joined(self.host@, self.port@)
    }

    /// Host and port are what stands before and behind the only separator
    /// of `text`.
    pub open spec fn is_split_of(&self, text: Seq<char>) -> bool {
        exists|i: int|
            #![trigger sole_separator(text, i)]
            sole_separator(text, i) && self.host@ == text.take(i) && self.port@ == text.skip(i + 1)
    }

    /// Splits `text` at its only `:`.
    ///
    /// Succeeds exactly on the well-formed destinations; host and port are
    /// then what stands before and behind the separator, either of which
    /// may be empty.
    pub fn parse(text: &str) -> (r: Result<Destination, ConfigError>)
        ensures
            match r {
                Ok(d) => d.is_split_of(text@) && d.address_text() == text@,
                Err(e) => e == ConfigError::InvalidDestination && !well_formed_destination(text@),
            },
    {
        let n = text.unicode_len();
        let mut first: usize = n;
        let mut count: usize = 0;
        let mut i: usize = 0;
        let ghost mut second: int = 0;
        while i < n
            invariant
                n == text@.len(),
                i <= n,
                count <= i,
                count == 0 ==> first == n && forall|j: int| 0 <= j < i ==> !separator_at(text@, j),
                count >= 1 ==> first < i && separator_at(text@, first as int) && forall|j: int|
                    0 <= j < first ==> !separator_at(text@, j),
                count == 1 ==> forall|j: int| first < j < i ==> !separator_at(text@, j),
                count >= 2 ==> first < second < i && separator_at(text@, second),
            decreases n - i,
        {
            if text.get_char(i) == ':' {
                if count == 0 {
                    first = i;
                } else {
                    proof {
                        second = i as int;
                    }
                }
                count = count + 1;
            }
            i = i + 1;
        }
        if count == 1 {
            let host = text.substring_char(0, first).to_owned();
            let port = text.substring_char(first + 1, n).to_owned();
            proof {
                assert(sole_separator(text@, first as int));
                lemma_join_undoes_split(text@, first as int);
            }
            Ok(Destination { host, port })
        } else {
            assert forall|k: int| !sole_separator(text@, k) by {
                if count >= 2 && sole_separator(text@, k) {
                    assert(separator_at(text@, first as int));
                    assert(separator_at(text@, second));
                }
            }
            Err(ConfigError::InvalidDestination)
        }
    }

    /// The address that is dialed for every connection: `host:port`.
    pub fn address(&self) -> (r: String)
        ensures
            r@ == self.address_text(),
    {
        let mut r = self.host.clone();
        r.append(":");
        r.append(self.port.as_str());
        proof {
            reveal_strlit(":");
            assert(":"@ =~= seq![separator()]);
        }
        r
    }
}

/// Splitting undoes joining: a host and a port that hold no separator,
/// joined, make a well-formed destination, and the only way to split it
/// gives just that host and that port back.
pub proof fn lemma_split_undoes_join(host: Seq<char>, port: Seq<char>, d: Destination)
    requires
        !host.contains(separator()),
        !port.contains(separator()),
        d.is_split_of(joined(host, port)),
    ensures
        well_formed_destination(joined(host, port)),
        d.host@ == host,
        d.port@ == port,
{
    let s = joined(host, port);
    let i = host.len() as int;
    assert(separator_at(s, i));
    assert(s.take(i) =~= host);
    assert(s.skip(i + 1) =~= port);
    assert forall|j: int| separator_at(s, j) implies j == i by {
        if j < i {
            assert(host[j] == s[j]);
        } else if j > i {
            assert(port[j - i - 1] == s[j]);
        }
    }
    assert(sole_separator(s, i));
}

/// The flag that announces the listening port.
pub open spec fn port_flag() -> Seq<char> {
    seq!['-', 'p']
}

/// The flag that announces the destination.
pub open spec fn destination_flag() -> Seq<char> {
    seq!['-', 'd']
}

/// The wildcard address, with its separator, that the listening port is
/// bound on: every IPv4 interface.
pub open spec fn wildcard_prefix() -> Seq<char> {
    seq!['0', '.', '0', '.', '0', '.', '0', ':']
}

/// The argument list has the accepted shape: the program's name, then
/// exactly `-p`, a port, `-d` and a destination, in that order.
pub open spec fn usage_ok(args: Seq<String>) -> bool {
    &&& args.len() == 5
    &&& args[1]@ == port_flag()
    &&& args[3]@ == destination_flag()
}

/// What the forwarder is started with.
#[derive(Debug)]
pub struct Config {
    pub listening_port: String,
    pub destination: Destination,
}

impl Clone for Config {
    fn clone(&self) -> (r: Config)
        ensures
            r == *self,
    {
        Config {
            listening_port: self.listening_port.clone(),
            destination: self.destination.clone(),
        }
    }
}

impl Config {
    /// The text that is bound: the wildcard address and the listening port.
    pub open spec fn listen_text(&self) -> Seq<char> {
        wildcard_prefix() + self.listening_port@
    }

    /// Reads the argument list, the program's name included.
    ///
    /// The shape of the list is judged first, the destination second. The
    /// port is taken as written: whether it names a port is for the bind to
    /// say.
    pub fn from_args(args: &Vec<String>) -> (r: Result<Config, ConfigError>)
        ensures
            match r {
                Ok(c) => {
                    &&& usage_ok(args@)
                    &&& c.listening_port@ == args[2]@
                    &&& c.destination.is_split_of(args[4]@)
                    &&& c.destination.address_text() == args[4]@
                },
                Err(ConfigError::Usage) => !usage_ok(args@),
                Err(ConfigError::InvalidDestination) => usage_ok(args@) && !well_formed_destination(
                    args[4]@,
                ),
            },
    {
        if args.len() != 5 {
            return Err(ConfigError::Usage);
        }
        let port_flag = String::from_str("-p");
        let destination_flag = String::from_str("-d");
        proof {
            reveal_strlit("-p");
            reveal_strlit("-d");
            assert(port_flag@ =~= self::port_flag());
            assert(destination_flag@ =~= self::destination_flag());
        }
        if !(args[1] == port_flag) || !(args[3] == destination_flag) {
            return Err(ConfigError::Usage);
        }
        match Destination::parse(args[4].as_str()) {
            Ok(destination) => Ok(Config { listening_port: args[2].clone(), destination }),
            Err(e) => Err(e),
        }
    }

    /// The address that the listening socket is bound to.
    pub fn listen_address(&self) -> (r: String)
        ensures
            r@ == self.listen_text(),
    {
        let mut r = String::from_str("0.0.0.0:");
        r.append(self.listening_port.as_str());
        proof {
            reveal_strlit("0.0.0.0:");
            assert("0.0.0.0:"@ =~= wildcard_prefix());
        }
        r
    }
}

} // verus!
