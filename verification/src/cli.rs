//! What the command line gives: where the server is and who connects to it.
use vstd::prelude::*;

verus! {

/// What the analyzing program is called with.
pub struct ProgramArgs {
    /// Host to connect to: `example.com:port`, or `example.com` for MySQL's default port.
    pub host: String,
    pub username: String,
}

/// What it takes to connect to a MySQL server; the password is asked for, the rest is given
/// on the command line.
pub struct MySqlConnectionArgs {
    pub hostname_or_ip: String,
    pub port: u16,
    pub username: String,
    pub password: String,
}

pub open spec fn is_digit(c: char) -> bool {
    '0' <= c && c <= '9'
}

/// The number written by decimal digits.
pub open spec fn digits_value(s: Seq<char>) -> int
    decreases s.len(),
{
    if s.len() == 0 {
        0
    } else {
        digits_value(s.drop_last()) * 10 + (s.last() as int - '0' as int)
    }
}

/// The digits of a port: the text after an optional `+`.
pub open spec fn port_digits(s: Seq<char>) -> Seq<char> {
    if s.len() > 0 && s[0] == '+' {
        s.subrange(1, s.len() as int)
    } else {
        s
    }
}

pub open spec fn all_digits(s: Seq<char>) -> bool {
    forall|i: int| 0 <= i < s.len() ==> is_digit(#[trigger] s[i])
}

/// A port as `u16`'s `FromStr` reads it: an optional `+`, then decimal digits, of a value that
/// fits in 16 bits.
pub open spec fn parsed_port(s: Seq<char>) -> Option<u16> {
    let digits = port_digits(s);
    if digits.len() > 0 && all_digits(digits) && digits_value(digits) <= 65535 {
        Some(digits_value(digits) as u16)
    } else {
        None
    }
}

proof fn lemma_digits_value_grows(s: Seq<char>, k: int)
    requires
        0 <= k <= s.len(),
        forall|i: int| 0 <= i < s.len() ==> is_digit(#[trigger] s[i]),
    ensures
        0 <= digits_value(s.take(k)) <= digits_value(s),
    decreases s.len() - k,
{
    if k < s.len() {
        lemma_digits_value_grows(s, k + 1);
        assert(s.take(k + 1).drop_last() =~= s.take(k));
    } else {
        assert(s.take(k) =~= s);
    }
    if k > 0 {
        lemma_digits_value_nonnegative(s.take(k));
    }
}

proof fn lemma_digits_value_nonnegative(s: Seq<char>)
    requires
        forall|i: int| 0 <= i < s.len() ==> is_digit(#[trigger] s[i]),
    ensures
        0 <= digits_value(s),
    decreases s.len(),
{
    if s.len() > 0 {
        lemma_digits_value_nonnegative(s.drop_last());
    }
}

/// Reads a port number.
pub fn parse_port(s: &str) -> (r: Option<u16>)
    ensures
        r == parsed_port(s@),
{
    let n = s.unicode_len();
    let start: usize = if n > 0 && s.get_char(0) == '+' {
        1
    } else {
        0
    };
    let ghost digits = s@.subrange(start as int, n as int);
    proof {
        assert(digits =~= (if s@.len() > 0 && s@[0] == '+' {
            s@.subrange(1, s@.len() as int)
        } else {
            s@
        }));
    }
    if start == n {
        return None;
    }
    let mut value: u32 = 0;
    let mut i = start;
    proof {
        assert(digits.take(0) =~= Seq::<char>::empty());
    }
    while i < n
        invariant
            n == s@.len(),
            start <= i <= n,
            digits == s@.subrange(start as int, n as int),
            digits == port_digits(s@),
            value == digits_value(digits.take(i - start)),
            value <= 65535,
            forall|j: int| 0 <= j < i - start ==> is_digit(#[trigger] digits[j]),
        decreases n - i,
    {
        let c = s.get_char(i);
        proof {
            assert(digits[i - start] == c);
        }
        if !('0' <= c && c <= '9') {
            proof {
                assert(!is_digit(digits[i - start]));
                assert(!all_digits(digits));
            }
            return None;
        }
        proof {
            assert(digits.take(i - start + 1).drop_last() =~= digits.take(i - start));
            assert(digits.take(i - start + 1).last() == c);
        }
        let next = value * 10 + (c as u32 - '0' as u32);
        proof {
            assert(digits_value(digits.take(i - start + 1)) == next);
        }
        if next > 65535 {
            proof {
                assert forall|j: int| 0 <= j < i - start + 1 implies is_digit(#[trigger] digits[j]) by {
                    if j == i - start {
                        assert(digits[j] == c);
                    }
                }
                if all_digits(digits) {
                    lemma_digits_value_grows(digits, i - start + 1);
                }
            }
            return None;
        }
        value = next;
        i += 1;
    }
    proof {
        assert(digits.take(n - start) =~= digits);
    }
    Some(value as u16)
}

/// The host and the text of the port: the port follows the first `:`, and is MySQL's default,
/// 3306, when there is no `:`.
pub open spec fn host_parts(host: Seq<char>) -> (Seq<char>, Seq<char>) {
    let i = crate::engine::syntax::stage2::find_char(host, 0, ':');
    if i < host.len() {
        (host.subrange(0, i), host.subrange(i + 1, host.len() as int))
    } else {
        (host, "3306"@)
    }
}

/// The host and the port, when the port is a number that fits in 16 bits.
pub open spec fn split_host_spec(host: Seq<char>) -> Option<(Seq<char>, u16)> {
    match parsed_port(host_parts(host).1) {
        Some(port) => Some((host_parts(host).0, port)),
        None => None,
    }
}

/// Splits `example.com:port` into the host and the port; `None` when the port is not valid.
pub fn try_split_host(host: &str) -> (r: Option<(String, u16)>)
    ensures
        match r {
            Some((h, p)) => split_host_spec(host@) == Some((h@, p)),
            None => split_host_spec(host@) is None,
        },
{
    let cursor = crate::engine::syntax::stage2::Cursor::new(host);
    let n = cursor.len();
    let i = cursor.find_char(0, ':');
    let (name, port) = if i < n {
        (host.substring_char(0, i), host.substring_char(i + 1, n))
    } else {
        proof {
            reveal_strlit("3306");
        }
        (host, "3306")
    };
    match parse_port(port) {
        Some(p) => Some((name.to_owned(), p)),
        None => None,
    }
}

/// Splits `example.com:port` into the host and the port, 3306 when none is given.
pub fn split_host(host: String) -> (r: (String, u16))
    requires
        split_host_spec(host@) is Some,
    ensures
        split_host_spec(host@) == Some((r.0@, r.1)),
{
    match try_split_host(host.as_str()) {
        Some(parts) => parts,
        None => vstd::pervasive::unreached(),
    }
}

impl MySqlConnectionArgs {
    /// The connection arguments given on the command line, with the password still to ask for.
    pub fn from_program_args(args: ProgramArgs) -> (r: MySqlConnectionArgs)
        requires
            split_host_spec(args.host@) is Some,
        ensures
            split_host_spec(args.host@) == Some((r.hostname_or_ip@, r.port)),
            r.username == args.username,
            r.password@ == Seq::<char>::empty(),
    {
        let (hostname_or_ip, port) = split_host(args.host);
        MySqlConnectionArgs { hostname_or_ip, port, username: args.username, password: String::new() }
    }

    /// The arguments with the password that was asked for.
    pub fn with_password(self, password: String) -> (r: MySqlConnectionArgs)
        ensures
            r.password == password,
            r.hostname_or_ip == self.hostname_or_ip,
            r.port == self.port,
            r.username == self.username,
    {
        MySqlConnectionArgs { password, ..self }
    }
}

} // verus!

verus! {

/// MySQL's default port, 3306, is a valid port.
proof fn lemma_default_port()
    ensures
        parsed_port("3306"@) == Some(3306u16),
{
    reveal_strlit("3306");
    let s = "3306"@;
    let s1 = seq!['3'];
    let s2 = seq!['3', '3'];
    let s3 = seq!['3', '3', '0'];
    assert(s1.drop_last() =~= Seq::<char>::empty());
    assert(s2.drop_last() =~= s1);
    assert(s3.drop_last() =~= s2);
    assert(s.drop_last() =~= s3);
    assert(port_digits(s) == s);
    assert(all_digits(s));
    assert(digits_value(Seq::<char>::empty()) == 0);
    assert('3' as int - '0' as int == 3);
    assert('6' as int - '0' as int == 6);
    assert(s1.last() == '3');
    assert(digits_value(s1) == 3);
    assert(digits_value(s2) == 33);
    assert(digits_value(s3) == 330);
    assert(digits_value(s) == 3306);
}

/// The port of a new context: the one given with the host, else the one given apart, else
/// MySQL's default.
pub open spec fn context_port(host: Seq<char>, port: Option<u16>, host_port: u16) -> u16 {
    if crate::engine::syntax::stage2::find_char(host, 0, ':') < host.len() {
        host_port
    } else {
        match port {
            Some(p) => p,
            None => host_port,
        }
    }
}

/// The connection parameters of a new context, or `None` when the host gives an invalid port.
pub fn server_params_of(
    host: &str,
    port: Option<u16>,
    user: String,
    default_database: String,
) -> (r: Option<crate::engine::sql::structure::ServerParams>)
    ensures
        match split_host_spec(host@) {
            Some((hostname, host_port)) => r matches Some(p) && p.hostname@ == hostname && p.port
                == context_port(host@, port, host_port) && p.user == user
                && p.default_database.0 == default_database,
            None => r is None,
        },
        crate::engine::syntax::stage2::find_char(host@, 0, ':') == host@.len() ==> (r matches Some(
            q,
        ) && q.hostname@ == host@ && q.port == match port {
            Some(p) => p,
            None => 3306u16,
        }),
        crate::engine::syntax::stage2::find_char(host@, 0, ':') < host@.len() ==> (r matches Some(q)
            ==> Some(q.port) == parsed_port(
            host@.subrange(
                crate::engine::syntax::stage2::find_char(host@, 0, ':') + 1,
                host@.len() as int,
            ),
        )),
{
    proof {
        lemma_default_port();
    }
    let (hostname, host_port) = match try_split_host(host) {
        Some(parts) => parts,
        None => return None,
    };
    let cursor = crate::engine::syntax::stage2::Cursor::new(host);
    let has_port = cursor.find_char(0, ':') < cursor.len();
    let port = if has_port {
        host_port
    } else {
        match port {
            Some(p) => p,
            None => host_port,
        }
    };
    Some(
        crate::engine::sql::structure::ServerParams {
            hostname,
            port,
            user,
            default_database: crate::engine::sql::structure::TableName(default_database),
        },
    )
}

} // verus!
