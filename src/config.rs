//! The consumer's configuration: defaults, port parsing and loading from the
//! values of the environment variables.

use vstd::prelude::*;

verus! {

/// Largest magnitude that an `i32` can take (that of `i32::MIN`).
pub const MAGNITUDE_LIMIT: i64 = 2147483648;

/// Host used when `PULSAR_HOST` is not set.
pub open spec fn default_host() -> Seq<char> {
    seq!['l', 'o', 'c', 'a', 'l', 'h', 'o', 's', 't']
}

/// Port used when `PULSAR_PORT` is not set.
pub open spec fn default_port() -> i32 {
    6650
}

pub open spec fn is_digit(c: char) -> bool {
    '0' <= c && c <= '9'
}

pub open spec fn digit_value(c: char) -> int {
    c as int - '0' as int
}

pub open spec fn all_digits(s: Seq<char>) -> bool {
    forall|i: int| 0 <= i < s.len() ==> is_digit(#[trigger] s[i])
}

/// The number that a string of decimal digits writes, most significant first.
pub open spec fn digits_value(s: Seq<char>) -> int
    decreases s.len(),
{
    if s.len() == 0 {
        0
    } else {
        digits_value(s.drop_last()) * 10 + digit_value(s.last())
    }
}

/// The integer that `s` writes in decimal: an optional `+` or `-` followed by
/// at least one digit, and nothing else.
pub open spec fn signed_value(s: Seq<char>) -> Option<int> {
    if s.len() > 0 && (s[0] == '-' || s[0] == '+') {
        let d = s.drop_first();
        if d.len() > 0 && all_digits(d) {
            if s[0] == '-' {
                Some(-digits_value(d))
            } else {
                Some(digits_value(d))
            }
        } else {
            None
        }
    } else if s.len() > 0 && all_digits(s) {
        Some(digits_value(s))
    } else {
        None
    }
}

/// The port that `s` gives: its decimal value, where that fits in an `i32`.
pub open spec fn port_of(s: Seq<char>) -> Option<i32> {
    match signed_value(s) {
        Some(v) => if i32::MIN <= v && v <= i32::MAX {
            Some(v as i32)
        } else {
            None
        },
        None => None,
    }
}

proof fn lemma_digits_value_nonneg(s: Seq<char>)
    requires
        all_digits(s),
    ensures
        digits_value(s) >= 0,
    decreases s.len(),
{
    if s.len() > 0 {
        assert(all_digits(s.drop_last()));
        lemma_digits_value_nonneg(s.drop_last());
        assert(is_digit(s[s.len() - 1]));
    }
}

/// The host used when none is configured.
pub fn default_localhost() -> (r: String)
    ensures
        r@ == default_host(),
{
    proof {
        reveal_strlit("localhost");
    }
    String::from_str("localhost")
}

/// The port used when none is configured.
pub fn default_6650() -> (r: i32)
    ensures
        r == default_port(),
{
    6650
}

/// `v`, or one more than `MAGNITUDE_LIMIT` where `v` is larger than that.
pub open spec fn capped(v: int) -> int {
    if v > MAGNITUDE_LIMIT {
        MAGNITUDE_LIMIT + 1
    } else {
        v
    }
}

/// Reads a port number the way `i32`'s `FromStr` does.
pub fn parse_port(s: &str) -> (r: Option<i32>)
    ensures
        r == port_of(s@),
{
    let n = s.unicode_len();
    if n == 0 {
        return None;
    }
    let first = s.get_char(0);
    let negative = first == '-';
    let start: usize = if first == '-' || first == '+' { 1 } else { 0 };
    if start == n {
        return None;
    }
    let mut mag: i64 = 0;
    let mut i: usize = start;
    while i < n
        invariant
            n == s@.len(),
            start <= i <= n,
            start < n,
            start == (if s@[0] == '-' || s@[0] == '+' { 1int } else { 0int }),
            all_digits(s@.subrange(start as int, i as int)),
            mag as int == capped(digits_value(s@.subrange(start as int, i as int))),
        decreases n - i,
    {
        let c = s.get_char(i);
        if !('0' <= c && c <= '9') {
            proof {
                let d = s@.subrange(start as int, n as int);
                assert(d[i - start] == c);
                assert(!all_digits(d));
                if start == 1 {
                    assert(d =~= s@.drop_first());
                } else {
                    assert(d =~= s@);
                }
            }
            return None;
        }
        let ghost prev = s@.subrange(start as int, i as int);
        let ghost next = s@.subrange(start as int, i + 1);
        proof {
            assert(next.drop_last() =~= prev);
            assert(all_digits(next));
            lemma_digits_value_nonneg(prev);
        }
        let d: i64 = (c as u32 - '0' as u32) as i64;
        if mag > MAGNITUDE_LIMIT {
            mag = MAGNITUDE_LIMIT + 1;
        } else {
            mag = mag * 10 + d;
            if mag > MAGNITUDE_LIMIT {
                mag = MAGNITUDE_LIMIT + 1;
            }
        }
        i = i + 1;
    }
    proof {
        let d = s@.subrange(start as int, n as int);
        if start == 1 {
            assert(d =~= s@.drop_first());
        } else {
            assert(d =~= s@);
        }
        lemma_digits_value_nonneg(d);
    }
    if negative {
        if mag > MAGNITUDE_LIMIT {
            None
        } else {
            Some((-mag) as i32)
        }
    } else {
        if mag >= MAGNITUDE_LIMIT {
            None
        } else {
            Some(mag as i32)
        }
    }
}

/// Where the consumer connects and what it subscribes to.
#[derive(Clone, Debug, PartialEq, Eq)]
pub struct ConsumerConfig {
    pub host: String,
    pub port: i32,
    pub topic: String,
    pub subscription_name: String,
}

pub struct ConfigView {
    pub host: Seq<char>,
    pub port: i32,
    pub topic: Seq<char>,
    pub subscription_name: Seq<char>,
}

impl View for ConsumerConfig {
    type V = ConfigView;

    open spec fn view(&self) -> ConfigView {
        ConfigView {
            host: self.host@,
            port: self.port,
            topic: self.topic@,
            subscription_name: self.subscription_name@,
        }
    }
}

impl ConsumerConfig {
    /// Topic and subscription name are both non-empty.
    pub open spec fn wf(&self) -> bool {
        self.topic@.len() > 0 && self.subscription_name@.len() > 0
    }
}

/// Why a configuration could not be loaded.
#[derive(Clone, Copy, Debug, PartialEq, Eq, Structural)]
pub enum ConfigError {
    /// `PULSAR_PORT` is set but is not a decimal `i32`.
    InvalidPort,
    /// `PULSAR_TOPIC` is unset or empty.
    MissingTopic,
    /// `PULSAR_SUBSCRIPTION_NAME` is unset or empty.
    MissingSubscriptionName,
}

impl ConfigError {
    /// A line that tells an operator what is wrong.
    pub fn message(&self) -> (r: String)
        ensures
            r@ == config_error_text(*self),
    {
        match self {
            ConfigError::InvalidPort => {
                proof {
                    reveal_strlit("PULSAR_PORT is not a valid port number");
                }
                String::from_str("PULSAR_PORT is not a valid port number")
            },
            ConfigError::MissingTopic => {
                proof {
                    reveal_strlit("PULSAR_TOPIC is missing");
                }
                String::from_str("PULSAR_TOPIC is missing")
            },
            ConfigError::MissingSubscriptionName => {
                proof {
                    reveal_strlit("PULSAR_SUBSCRIPTION_NAME is missing");
                }
                String::from_str("PULSAR_SUBSCRIPTION_NAME is missing")
            },
        }
    }
}

pub open spec fn config_error_text(e: ConfigError) -> Seq<char> {
    match e {
        ConfigError::InvalidPort => "PULSAR_PORT is not a valid port number"@,
        ConfigError::MissingTopic => "PULSAR_TOPIC is missing"@,
        ConfigError::MissingSubscriptionName => "PULSAR_SUBSCRIPTION_NAME is missing"@,
    }
}

pub open spec fn opt_view(o: Option<String>) -> Option<Seq<char>> {
    match o {
        Some(s) => Some(s@),
        None => None,
    }
}

/// A required value: set and non-empty.
pub open spec fn is_given(o: Option<Seq<char>>) -> bool {
    o is Some && o->Some_0.len() > 0
}

/// The configuration that the four environment values give (`None` for an
/// unset variable), or the first thing wrong with them: a port that does not
/// parse, then a missing topic, then a missing subscription name.
pub open spec fn load_spec(
    host: Option<Seq<char>>,
    port: Option<Seq<char>>,
    topic: Option<Seq<char>>,
    subscription_name: Option<Seq<char>>,
) -> Result<ConfigView, ConfigError> {
    if port is Some && port_of(port->Some_0) is None {
        Err(ConfigError::InvalidPort)
    } else if !is_given(topic) {
        Err(ConfigError::MissingTopic)
    } else if !is_given(subscription_name) {
        Err(ConfigError::MissingSubscriptionName)
    } else {
        Ok(
            ConfigView {
                host: match host {
                    Some(h) => h,
                    None => default_host(),
                },
                port: match port {
                    Some(p) => port_of(p)->Some_0,
                    None => default_port(),
                },
                topic: topic->Some_0,
                subscription_name: subscription_name->Some_0,
            },
        )
    }
}

/// Builds the configuration from the values of `PULSAR_HOST`, `PULSAR_PORT`,
/// `PULSAR_TOPIC` and `PULSAR_SUBSCRIPTION_NAME`, with `None` for an unset one.
pub fn load_config(
    host: Option<String>,
    port: Option<String>,
    topic: Option<String>,
    subscription_name: Option<String>,
) -> (r: Result<ConsumerConfig, ConfigError>)
    ensures
        match r {
            Ok(c) => load_spec(opt_view(host), opt_view(port), opt_view(topic), opt_view(subscription_name)) == Ok::<ConfigView, ConfigError>(c@) && c.wf(),
            Err(e) => load_spec(opt_view(host), opt_view(port), opt_view(topic), opt_view(subscription_name)) == Err::<ConfigView, ConfigError>(e),
        },
{
    let port_value = match &port {
        Some(p) => match parse_port(p.as_str()) {
            Some(v) => v,
            None => {
                return Err(ConfigError::InvalidPort);
            },
        },
        None => default_6650(),
    };
    let topic = match topic {
        Some(t) => {
            if t.as_str().unicode_len() == 0 {
                return Err(ConfigError::MissingTopic);
            }
            t
        },
        None => {
            return Err(ConfigError::MissingTopic);
        },
    };
    let subscription_name = match subscription_name {
        Some(s) => {
            if s.as_str().unicode_len() == 0 {
                return Err(ConfigError::MissingSubscriptionName);
            }
            s
        },
        None => {
            return Err(ConfigError::MissingSubscriptionName);
        },
    };
    let host = match host {
        Some(h) => h,
        None => default_localhost(),
    };
    Ok(ConsumerConfig { host, port: port_value, topic, subscription_name })
}

} // verus!
