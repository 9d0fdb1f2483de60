//! Endpoint settings: where a `Sink` listens and a `Source` connects.

use vstd::prelude::*;

verus! {

/// The decimal digits of `n`, most significant first, without leading zeros.
pub open spec fn decimal(n: nat) -> Seq<char>
    decreases n,
{
    if n < 10 {
        seq![digit_char(n)]
    } else {
        decimal(n / 10) + seq![digit_char(n % 10)]
    }
}

pub open spec fn digit_char(d: nat) -> char {
    (('0' as nat) + d) as char
}

/// The transport address a `Source` connects to: `tcp://<host>:<port>`.
pub open spec fn connect_address_of(host: Seq<char>, port: nat) -> Seq<char> {
    seq!['t', 'c', 'p', ':', '/', '/'] + host + seq![':'] + decimal(port)
}

/// The transport address a `Sink` binds: every interface, on `port`.
pub open spec fn bind_address_of(port: nat) -> Seq<char> {
    seq!['t', 'c', 'p', ':', '/', '/', '*', ':'] + decimal(port)
}

#[derive(Clone, Debug, PartialEq, Eq, PartialOrd, Ord, Hash)]
pub struct Config {
    pub host: String,
    pub port: usize,
}

impl Default for Config {
    fn default() -> (r: Self)
        ensures
            r.host@ == seq!['1', '2', '7', '.', '0', '.', '0', '.', '1'],
            r.port == 10001,
    {
        proof {
            reveal_strlit("127.0.0.1");
        }
        Config { host: String::from_str("127.0.0.1"), port: 10001 }
    }
}

fn digit_text(d: usize) -> (r: &'static str)
    requires
        d < 10,
    ensures
        r@ == seq![digit_char(d as nat)],
{
    proof {
        reveal_strlit("0");
        reveal_strlit("1");
        reveal_strlit("2");
        reveal_strlit("3");
        reveal_strlit("4");
        reveal_strlit("5");
        reveal_strlit("6");
        reveal_strlit("7");
        reveal_strlit("8");
        reveal_strlit("9");
    }
    match d {
        0 => "0",
        1 => "1",
        2 => "2",
        3 => "3",
        4 => "4",
        5 => "5",
        6 => "6",
        7 => "7",
        8 => "8",
        _ => "9",
    }
}

/// Appends the decimal digits of `n` to `out`.
fn push_decimal(out: &mut String, n: usize)
    ensures
        final(out)@ == old(out)@ + decimal(n as nat),
    decreases n,
{
    if n >= 10 {
        push_decimal(out, n / 10);
    }
    out.append(digit_text(n % 10));
    proof {
        assert(old(out)@ + decimal(n as nat) =~= if n < 10 {
            old(out)@ + seq![digit_char(n as nat)]
        } else {
            old(out)@ + decimal((n / 10) as nat) + seq![digit_char((n % 10) as nat)]
        });
    }
}

impl Config {
    /// The settings to use once the settings file has been looked for: those
    /// read from it, or the defaults where none was found or could be opened.
    pub fn or_default(found: Option<Config>) -> (r: Config)
        ensures
            found matches Some(c) ==> r == c,
            found is None ==> r.host@ == seq!['1', '2', '7', '.', '0', '.', '0', '.', '1'] && r.port
                == 10001,
    {
        match found {
            Some(c) => c,
            None => Config::default(),
        }
    }

    /// The address a `Source` made from this configuration connects to.
    pub fn connect_address(&self) -> (r: String)
        ensures
            r@ == connect_address_of(self.host@, self.port as nat),
    {
        proof {
            reveal_strlit("tcp://");
            reveal_strlit(":");
        }
        let mut out = String::from_str("tcp://");
        out.append(self.host.as_str());
        out.append(":");
        push_decimal(&mut out, self.port);
        assert(out@ =~= connect_address_of(self.host@, self.port as nat));
        out
    }

    /// The address a `Sink` made from this configuration binds.
    pub fn bind_address(&self) -> (r: String)
        ensures
            r@ == bind_address_of(self.port as nat),
    {
        proof {
            reveal_strlit("tcp://*:");
        }
        let mut out = String::from_str("tcp://*:");
        push_decimal(&mut out, self.port);
        assert(out@ =~= bind_address_of(self.port as nat));
        out
    }
}

/// What writing a settings file may do to a file that is already there.
#[derive(Clone, Copy, Debug, PartialEq, Eq, Structural, PartialOrd, Ord, Hash)]
pub enum OverwritePolicy {
    DontOverwrite,
    Overwrite,
}

impl OverwritePolicy {
    /// Whether a write under this policy touches the destination: always
    /// under `Overwrite`; under `DontOverwrite` only where no file existed,
    /// so that an existing file is left as it was.
    pub fn permits_write(&self, existed: bool) -> (r: bool)
        ensures
            r == (*self == OverwritePolicy::Overwrite || !existed),
    {
        match self {
            OverwritePolicy::Overwrite => true,
            OverwritePolicy::DontOverwrite => !existed,
        }
    }
}

} // verus!
