//! The broker address `pulsar://<host>:<port>`.

use vstd::prelude::*;
use crate::config::{ConsumerConfig, ConfigView, load_spec, is_given, default_host, default_port};

verus! {

pub open spec fn digit_char(d: int) -> char {
    if d == 0 {
        '0'
    } else if d == 1 {
        '1'
    } else if d == 2 {
        '2'
    } else if d == 3 {
        '3'
    } else if d == 4 {
        '4'
    } else if d == 5 {
        '5'
    } else if d == 6 {
        '6'
    } else if d == 7 {
        '7'
    } else if d == 8 {
        '8'
    } else {
        '9'
    }
}

/// The decimal digits of `n`, most significant first, without leading zeros.
pub open spec fn nat_digits(n: nat) -> Seq<char>
    decreases n,
{
    if n < 10 {
        seq![digit_char(n as int)]
    } else {
        nat_digits(n / 10) + seq![digit_char((n % 10) as int)]
    }
}

/// `n` in decimal, with a leading `-` when negative.
pub open spec fn decimal_seq(n: int) -> Seq<char> {
    if n < 0 {
        seq!['-'] + nat_digits((-n) as nat)
    } else {
        nat_digits(n as nat)
    }
}

/// The address of the broker at `host` and `port`.
pub open spec fn address_of(host: Seq<char>, port: i32) -> Seq<char> {
    "pulsar://"@ + host + ":"@ + decimal_seq(port as int)
}

fn digit_str(d: u32) -> (r: &'static str)
    requires
        d < 10,
    ensures
        r@ == seq![digit_char(d as int)],
{
    proof {
        reveal_strlit("0");
        reveal_strlit("1");
        reveal_strlit("2");
        reveal_strlit("3");
        reveal_strlit("4");
        reveal_strlit("5");
        reveal_strlit("6");
        reveal_strlit("7");
        reveal_strlit("8");
        reveal_strlit("9");
    }
    let r = if d == 0 {
        "0"
    } else if d == 1 {
        "1"
    } else if d == 2 {
        "2"
    } else if d == 3 {
        "3"
    } else if d == 4 {
        "4"
    } else if d == 5 {
        "5"
    } else if d == 6 {
        "6"
    } else if d == 7 {
        "7"
    } else if d == 8 {
        "8"
    } else {
        "9"
    };
    assert(r@ =~= seq![digit_char(d as int)]);
    r
}

fn push_digits(out: &mut String, n: u32)
    ensures
        final(out)@ == old(out)@ + nat_digits(n as nat),
    decreases n,
{
    if n >= 10 {
        push_digits(out, n / 10);
    }
    out.append(digit_str(n % 10));
    assert(out@ =~= old(out)@ + nat_digits(n as nat));
}

/// Writes `n` in decimal.
pub fn decimal(n: i32) -> (r: String)
    ensures
        r@ == decimal_seq(n as int),
{
    let mut out = String::new();
    if n < 0 {
        proof {
            reveal_strlit("-");
        }
        out.append("-");
        let mag: u32 = if n == i32::MIN { 2147483648u32 } else { (-n) as u32 };
        push_digits(&mut out, mag);
        assert(out@ =~= decimal_seq(n as int));
    } else {
        push_digits(&mut out, n as u32);
        assert(out@ =~= decimal_seq(n as int));
    }
    out
}

/// The address that the consumer connects to: `pulsar://<host>:<port>`.
pub fn broker_address(config: &ConsumerConfig) -> (r: String)
    ensures
        r@ == address_of(config.host@, config.port),
{
    proof {
        reveal_strlit("pulsar://");
        reveal_strlit(":");
    }
    let mut out = String::from_str("pulsar://");
    out.append(config.host.as_str());
    out.append(":");
    let port = decimal(config.port);
    out.append(port.as_str());
    assert(out@ =~= address_of(config.host@, config.port));
    out
}

/// With neither host nor port set, a configuration that loads connects to
/// `pulsar://localhost:6650`.
pub proof fn lemma_default_address(topic: Option<Seq<char>>, subscription_name: Option<Seq<char>>)
    requires
        is_given(topic),
        is_given(subscription_name),
    ensures
        load_spec(None, None, topic, subscription_name) is Ok,
        load_spec(None, None, topic, subscription_name)->Ok_0.host == default_host(),
        load_spec(None, None, topic, subscription_name)->Ok_0.port == default_port(),
        address_of(
            load_spec(None, None, topic, subscription_name)->Ok_0.host,
            load_spec(None, None, topic, subscription_name)->Ok_0.port,
        ) == "pulsar://localhost:6650"@,
{
    reveal_strlit("pulsar://localhost:6650");
    reveal_strlit("pulsar://");
    reveal_strlit(":");
    reveal_with_fuel(nat_digits, 5);
    let c: ConfigView = load_spec(None, None, topic, subscription_name)->Ok_0;
    assert(nat_digits(6650) =~= seq!['6', '6', '5', '0']);
    assert(address_of(c.host, c.port) =~= "pulsar://localhost:6650"@);
}

} // verus!
