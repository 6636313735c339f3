use vstd::prelude::*;
use crate::models::Configuration;

verus! {

/// Index of the first `c` in `s`, or the length of `s` when there is none.
pub open spec fn field_end(s: Seq<char>, c: char) -> int
    decreases s.len(),
{
    if s.len() == 0 {
        0
    } else if s[0] == c {
        0
    } else {
        1 + field_end(s.drop_first(), c)
    }
}

/// Index just past the last `c` in `s`, or zero when there is none.
pub open spec fn field_start(s: Seq<char>, c: char) -> int
    decreases s.len(),
{
    if s.len() == 0 {
        0
    } else if s.last() == c {
        s.len() as int
    } else {
        field_start(s.drop_last(), c)
    }
}

/// `s` cut at every `c`: the pieces between the separators, in order. A
/// string without `c` is one piece; the empty string is one empty piece.
pub open spec fn split_on(s: Seq<char>, c: char) -> Seq<Seq<char>>
    decreases s.len(),
{
    let k = field_start(s, c);
    if k <= 0 || k > s.len() {
        seq![s]
    } else {
        split_on(s.subrange(0, k - 1), c).push(s.subrange(k, s.len() as int))
    }
}

/// A broker entry names a port: it holds a `:`.
pub open spec fn has_port(entry: Seq<char>) -> bool {
    field_end(entry, ':') < entry.len()
}

/// The `host:port` that an entry of the broker list stands for: the host is
/// what comes before the first `:`, the port what comes after it, up to the
/// next `:` if there is one.
pub open spec fn broker_address(entry: Seq<char>) -> Seq<char> {
    let colon = field_end(entry, ':');
    let rest = entry.subrange(colon + 1, entry.len() as int);
    entry.subrange(0, colon) + seq![':'] + rest.subrange(0, field_end(rest, ':'))
}

/// Every entry of a comma-separated broker list names a port.
pub open spec fn brokers_have_ports(list: Seq<char>) -> bool {
    forall|k: int| 0 <= k < split_on(list, ',').len() ==> has_port(#[trigger] split_on(list, ',')[k])
}

/// The addresses that a comma-separated broker list stands for, in order.
pub open spec fn broker_addresses(list: Seq<char>) -> Seq<Seq<char>> {
    split_on(list, ',').map_values(|entry: Seq<char>| broker_address(entry))
}

proof fn lemma_field_end(s: Seq<char>, c: char, k: int)
    requires
        0 <= k <= s.len(),
        forall|j: int| 0 <= j < k ==> s[j] != c,
        k == s.len() || s[k] == c,
    ensures
        field_end(s, c) == k,
    decreases k,
{
    if k > 0 {
        lemma_field_end(s.drop_first(), c, k - 1);
    }
}

proof fn lemma_field_start(s: Seq<char>, c: char, k: int)
    requires
        0 <= k <= s.len(),
        forall|j: int| k <= j < s.len() ==> s[j] != c,
        k == 0 || s[k - 1] == c,
    ensures
        field_start(s, c) == k,
    decreases s.len(),
{
    if s.len() > k {
        lemma_field_start(s.drop_last(), c, k);
    }
}

/// The address of the entry `s[start..end]`, or `None` when it names no port.
fn segment_address(s: &str, start: usize, end: usize) -> (r: Option<String>)
    requires
        start <= end <= s@.len(),
    ensures
        r is Some <==> has_port(s@.subrange(start as int, end as int)),
        r matches Some(a) ==> a@ == broker_address(s@.subrange(start as int, end as int)),
{
    let ghost entry = s@.subrange(start as int, end as int);
    let mut colon = start;
    while colon < end && s.get_char(colon) != ':'
        invariant
            start <= colon <= end <= s@.len(),
            forall|j: int| start <= j < colon ==> s@[j] != ':',
        decreases end - colon,
    {
        colon = colon + 1;
    }
    proof {
        lemma_field_end(entry, ':', colon - start);
    }
    if colon == end {
        return None;
    }
    let mut stop = colon + 1;
    while stop < end && s.get_char(stop) != ':'
        invariant
            colon < stop <= end <= s@.len(),
            forall|j: int| colon < j < stop ==> s@[j] != ':',
        decreases end - stop,
    {
        stop = stop + 1;
    }
    let ghost rest = entry.subrange(colon - start + 1, entry.len() as int);
    proof {
        assert(rest =~= s@.subrange(colon + 1, end as int));
        lemma_field_end(rest, ':', stop - colon - 1);
    }
    let host = String::from_str(s.substring_char(start, colon));
    let port = s.substring_char(colon + 1, stop);
    let with_colon = host.concat(":");
    let address = with_colon.concat(port);
    proof {
        reveal_strlit(":");
        assert(address@ =~= broker_address(entry));
    }
    Some(address)
}

/// Splitting a list whose last comma stands just before `start`: the pieces
/// of the part before that comma, and then the tail.
proof fn lemma_last_piece(s: Seq<char>, start: int)
    requires
        0 <= start <= s.len(),
        forall|j: int| start <= j < s.len() ==> s[j] != ',',
        start > 0 ==> s[start - 1] == ',',
    ensures
        brokers_have_ports(s) == ((start == 0 || brokers_have_ports(s.subrange(0, start - 1))) && has_port(
            s.subrange(start, s.len() as int),
        )),
        broker_addresses(s) == (if start == 0 {
            Seq::<Seq<char>>::empty()
        } else {
            broker_addresses(s.subrange(0, start - 1))
        }).push(broker_address(s.subrange(start, s.len() as int))),
{
    lemma_field_start(s, ',', start);
    let pieces = split_on(s, ',');
    let tail = s.subrange(start, s.len() as int);
    if start > 0 {
        let before = split_on(s.subrange(0, start - 1), ',');
        assert(pieces == before.push(tail));
        assert forall|k: int| 0 <= k < before.len() implies pieces[k] == before[k] by {}
        if brokers_have_ports(s) {
            assert forall|k: int| 0 <= k < before.len() implies has_port(#[trigger] before[k]) by {
                assert(pieces[k] == before[k]);
            }
            assert(has_port(pieces[pieces.len() - 1]));
        }
        if brokers_have_ports(s.subrange(0, start - 1)) && has_port(tail) {
            assert forall|k: int| 0 <= k < pieces.len() implies has_port(#[trigger] pieces[k]) by {
                if k < before.len() {
                    assert(pieces[k] == before[k]);
                }
            }
        }
        assert(broker_addresses(s) =~= broker_addresses(s.subrange(0, start - 1)).push(broker_address(tail)));
    } else {
        assert(tail =~= s);
        assert(pieces =~= seq![s]);
        if brokers_have_ports(s) {
            assert(has_port(pieces[0]));
        }
        assert(broker_addresses(s) =~= seq![broker_address(tail)]);
    }
}

/// The addresses of a comma-separated broker list, or `None` when one of
/// its entries names no port.
pub fn try_split_brokers(to_split: &str) -> (r: Option<Vec<String>>)
    ensures
        r is Some <==> brokers_have_ports(to_split@),
        r matches Some(v) ==> v@.map_values(|a: String| a@) == broker_addresses(to_split@),
{
    let n = to_split.unicode_len();
    let mut out: Vec<String> = Vec::new();
    let mut all_ports = true;
    let mut start: usize = 0;
    let mut i: usize = 0;
    while i < n
        invariant
            n == to_split@.len(),
            start <= i <= n,
            forall|j: int| start <= j < i ==> to_split@[j] != ',',
            start > 0 ==> to_split@[start - 1] == ',',
            start == 0 ==> out@.len() == 0 && all_ports,
            start > 0 ==> all_ports == brokers_have_ports(to_split@.subrange(0, start - 1)),
            start > 0 && all_ports ==> out@.map_values(|a: String| a@) == broker_addresses(
                to_split@.subrange(0, start - 1),
            ),
        decreases n - i,
    {
        if to_split.get_char(i) == ',' {
            let ghost prefix = to_split@.subrange(0, i as int);
            let ghost before = out@;
            proof {
                lemma_last_piece(prefix, start as int);
                if start > 0 {
                    assert(prefix.subrange(0, start - 1) =~= to_split@.subrange(0, start - 1));
                }
                assert(prefix.subrange(start as int, prefix.len() as int) =~= to_split@.subrange(
                    start as int,
                    i as int,
                ));
            }
            let found = segment_address(to_split, start, i);
            match found {
                Some(a) => {
                    if all_ports {
                        out.push(a);
                        proof {
                            assert(out@.map_values(|a: String| a@) =~= before.map_values(|a: String| a@).push(a@));
                        }
                    }
                },
                None => {
                    all_ports = false;
                },
            }
            proof {
                assert(i + 1 - 1 == i);
                assert(to_split@.subrange(0, (i + 1) - 1) == prefix);
            }
            start = i + 1;
        }
        i = i + 1;
    }
    let last = segment_address(to_split, start, n);
    let ghost before = out@;
    proof {
        lemma_last_piece(to_split@, start as int);
    }
    match last {
        Some(a) => {
            if all_ports {
                out.push(a);
                proof {
                    assert(out@.map_values(|a: String| a@) =~= before.map_values(|a: String| a@).push(a@));
                }
                Some(out)
            } else {
                None
            }
        },
        None => None,
    }
}

/// The addresses of a comma-separated broker list whose entries all name a
/// port (`10.0.0.1:9092,10.0.0.2:9093`).
pub fn split_brokers(to_split: String) -> (r: Vec<String>)
    requires
        brokers_have_ports(to_split@),
    ensures
        r@.map_values(|a: String| a@) == broker_addresses(to_split@),
{
    match try_split_brokers(to_split.as_str()) {
        Some(addresses) => addresses,
        None => Vec::new(),
    }
}

/// `s` is a run of ASCII digits.
pub open spec fn all_digits(s: Seq<char>) -> bool {
    forall|i: int| 0 <= i < s.len() ==> '0' <= #[trigger] s[i] && s[i] <= '9'
}

/// The value of a run of decimal digits.
pub open spec fn decimal_value(s: Seq<char>) -> int
    decreases s.len(),
{
    if s.len() == 0 {
        0
    } else {
        10 * decimal_value(s.drop_last()) + (s.last() as int - '0' as int)
    }
}

/// `s` without a leading `+`.
pub open spec fn unsigned_digits(s: Seq<char>) -> Seq<char> {
    if s.len() > 0 && s[0] == '+' {
        s.drop_first()
    } else {
        s
    }
}

/// `s` is an optional `+` followed by one or more ASCII digits whose value
/// fits in a `u64`.
pub open spec fn parses_as_u64(s: Seq<char>) -> bool {
    let d = unsigned_digits(s);
    d.len() > 0 && all_digits(d) && decimal_value(d) <= u64::MAX
}

/// Relies on `str::parse::<u64>` (`u64::from_str`): it accepts an optional
/// `+` followed by ASCII digits, and fails on anything else and on a value
/// that does not fit.
#[verifier::external_body]
fn parse_u64(s: &str) -> (r: Option<u64>)
    ensures
        r is Some <==> parses_as_u64(s@),
        r matches Some(v) ==> v as int == decimal_value(unsigned_digits(s@)),
{
    s.parse::<u64>().ok()
}

/// Why no configuration could be resolved.
#[derive(Clone, Copy, Debug, PartialEq, Eq, Structural)]
pub enum ConfigError {
    MissingCertPath,
    MissingKeyPath,
    MissingBrokers,
    /// An entry of the broker list names no port.
    BrokerWithoutPort,
    MissingPort,
    /// The port is not a decimal number that fits in 64 bits.
    InvalidPort,
}

/// The raw settings, as given on the command line (`*_flag`) and in the
/// environment (`*_env`). A command-line value wins over the environment.
pub struct ConfigInput {
    pub cert_path_flag: Option<String>,
    pub cert_path_env: Option<String>,
    pub key_path_flag: Option<String>,
    pub key_path_env: Option<String>,
    pub brokers_flag: Option<String>,
    pub brokers_env: Option<String>,
    pub port_flag: Option<String>,
    pub port_env: Option<String>,
    /// The panic-on-backup switch was given on the command line.
    pub panic_flag: bool,
    /// The panic-on-backup variable is set in the environment.
    pub panic_env: bool,
    /// The dry-run switch was given on the command line.
    pub dry_run_flag: bool,
}

/// The command-line value if there is one, else the environment's.
pub open spec fn chosen(flag: Option<String>, env: Option<String>) -> Option<Seq<char>> {
    match flag {
        Some(v) => Some(v@),
        None => match env {
            Some(v) => Some(v@),
            None => None,
        },
    }
}

/// The first setting, in the order certificate, key, brokers, port, that is
/// missing or malformed.
pub open spec fn config_error(input: ConfigInput) -> Option<ConfigError> {
    let brokers = chosen(input.brokers_flag, input.brokers_env);
    let port = chosen(input.port_flag, input.port_env);
    if chosen(input.cert_path_flag, input.cert_path_env) is None {
        Some(ConfigError::MissingCertPath)
    } else if chosen(input.key_path_flag, input.key_path_env) is None {
        Some(ConfigError::MissingKeyPath)
    } else if brokers is None {
        Some(ConfigError::MissingBrokers)
    } else if !brokers_have_ports(brokers->Some_0) {
        Some(ConfigError::BrokerWithoutPort)
    } else if port is None {
        Some(ConfigError::MissingPort)
    } else if !parses_as_u64(port->Some_0) {
        Some(ConfigError::InvalidPort)
    } else {
        None
    }
}

fn choose_setting(flag: Option<String>, env: Option<String>) -> (r: Option<String>)
    ensures
        r matches Some(v) ==> chosen(flag, env) == Some(v@),
        r is None ==> chosen(flag, env) is None,
{
    match flag {
        Some(v) => Some(v),
        None => env,
    }
}

/// Resolves the configuration from the raw settings: each value from the
/// command line if given there, else from the environment; the broker list
/// split into addresses; the port parsed; panic on backup failure when
/// either source asks for it; dry run when the command line asks for it.
pub fn resolve_configuration(input: ConfigInput) -> (r: Result<Configuration, ConfigError>)
    ensures
        r is Err <==> config_error(input) is Some,
        r matches Err(e) ==> config_error(input) == Some(e),
        r matches Ok(c) ==> {
            &&& chosen(input.cert_path_flag, input.cert_path_env) == Some(c.cert_path@)
            &&& chosen(input.key_path_flag, input.key_path_env) == Some(c.key_path@)
            &&& c.brokers@.map_values(|a: String| a@) == broker_addresses(
                chosen(input.brokers_flag, input.brokers_env)->Some_0,
            )
            &&& c.port as int == decimal_value(
                unsigned_digits(chosen(input.port_flag, input.port_env)->Some_0),
            )
            &&& c.panic_on_backup == (input.panic_flag || input.panic_env)
            &&& c.dry_run == input.dry_run_flag
        },
{
    let ConfigInput {
        cert_path_flag,
        cert_path_env,
        key_path_flag,
        key_path_env,
        brokers_flag,
        brokers_env,
        port_flag,
        port_env,
        panic_flag,
        panic_env,
        dry_run_flag,
    } = input;
    let cert_path = match choose_setting(cert_path_flag, cert_path_env) {
        Some(v) => v,
        None => return Err(ConfigError::MissingCertPath),
    };
    let key_path = match choose_setting(key_path_flag, key_path_env) {
        Some(v) => v,
        None => return Err(ConfigError::MissingKeyPath),
    };
    let listed = match choose_setting(brokers_flag, brokers_env) {
        Some(v) => v,
        None => return Err(ConfigError::MissingBrokers),
    };
    let brokers = match try_split_brokers(listed.as_str()) {
        Some(v) => v,
        None => return Err(ConfigError::BrokerWithoutPort),
    };
    let port_text = match choose_setting(port_flag, port_env) {
        Some(v) => v,
        None => return Err(ConfigError::MissingPort),
    };
    let port = match parse_u64(port_text.as_str()) {
        Some(v) => v,
        None => return Err(ConfigError::InvalidPort),
    };
    Ok(Configuration {
        cert_path,
        key_path,
        brokers,
        port,
        panic_on_backup: panic_flag || panic_env,
        dry_run: dry_run_flag,
    })
}

} // verus!
