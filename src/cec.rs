//! The CEC side: reading power status from the device's output lines, the
//! request strings that the device understands, and the last known state.

use vstd::prelude::*;

use crate::ha_entity::text_of;
use crate::service::StateManager;
use crate::transport::MqttRequest;

verus! {

/// Characters that may pad the token of a status line: the Unicode
/// White_Space characters, as `char::is_whitespace` has them.
pub open spec fn is_blank(c: char) -> bool {
    let v = c as u32;
    ||| 0x9 <= v <= 0xD
    ||| v == 0x20
    ||| v == 0x85
    ||| v == 0xA0
    ||| v == 0x1680
    ||| 0x2000 <= v <= 0x200A
    ||| v == 0x2028
    ||| v == 0x2029
    ||| v == 0x202F
    ||| v == 0x205F
    ||| v == 0x3000
}

pub open spec fn trim_start(s: Seq<char>) -> Seq<char>
    decreases s.len(),
{
    if s.len() > 0 && is_blank(s[0]) {
        trim_start(s.drop_first())
    } else {
        s
    }
}

pub open spec fn trim_end(s: Seq<char>) -> Seq<char>
    decreases s.len(),
{
    if s.len() > 0 && is_blank(s.last()) {
        trim_end(s.drop_last())
    } else {
        s
    }
}

/// The hub's name for a power status token of the device.
pub open spec fn power_state_name(token: Seq<char>) -> Seq<char> {
    if token == "on"@ {
        "ON"@
    } else if token == "standby"@ {
        "OFF"@
    } else {
        "UNKNOWN"@
    }
}

/// A line that starts with `power status:` gives the state named by the
/// token after it; any other line gives nothing.
pub open spec fn power_state_of_line(line: Seq<char>) -> Option<Seq<char>> {
    let prefix = "power status:"@;
    if line.len() >= prefix.len() && line.subrange(0, prefix.len() as int) == prefix {
        Some(power_state_name(trim_end(trim_start(line.subrange(prefix.len() as int, line.len() as int)))))
    } else {
        None
    }
}

fn is_blank_char(c: char) -> (r: bool)
    ensures
        r == is_blank(c),
{
    let v = c as u32;
    (0x9 <= v && v <= 0xD) || v == 0x20 || v == 0x85 || v == 0xA0 || v == 0x1680 || (0x2000 <= v
        && v <= 0x200A) || v == 0x2028 || v == 0x2029 || v == 0x202F || v == 0x205F || v == 0x3000
}

fn text_eq(a: &str, b: &str) -> (r: bool)
    ensures
        r == (a@ == b@),
{
    String::from_str(a) == String::from_str(b)
}

/// The text between leading and trailing blanks.
fn trim_blanks(s: &str) -> (r: String)
    ensures
        r@ == trim_end(trim_start(s@)),
{
    let n = s.unicode_len();
    let mut a: usize = 0;
    assert(s@.subrange(0, n as int) =~= s@);
    while a < n && is_blank_char(s.get_char(a))
        invariant
            a <= n,
            n == s@.len(),
            trim_start(s@) == trim_start(s@.subrange(a as int, n as int)),
        decreases n - a,
    {
        assert(s@.subrange(a as int, n as int).drop_first() =~= s@.subrange(a as int + 1, n as int));
        a = a + 1;
    }
    assert(trim_start(s@) == s@.subrange(a as int, n as int));
    let mut b: usize = n;
    while b > a && is_blank_char(s.get_char(b - 1))
        invariant
            a <= b <= n,
            n == s@.len(),
            trim_end(s@.subrange(a as int, n as int)) == trim_end(s@.subrange(a as int, b as int)),
        decreases b - a,
    {
        assert(s@.subrange(a as int, b as int).drop_last() =~= s@.subrange(a as int, b as int - 1));
        b = b - 1;
    }
    assert(trim_end(s@.subrange(a as int, b as int)) == s@.subrange(a as int, b as int));
    String::from_str(s.substring_char(a, b))
}

/// Reads a power status line of the device: `on` is `ON`, `standby` is
/// `OFF`, any other token `UNKNOWN`. Lines without the prefix are chatter.
pub fn parse_power_state(line: &str) -> (r: Option<String>)
    ensures
        text_of(r) == power_state_of_line(line@),
{
    let prefix = "power status:";
    let plen = prefix.unicode_len();
    let n = line.unicode_len();
    if n >= plen && text_eq(line.substring_char(0, plen), prefix) {
        let token = trim_blanks(line.substring_char(plen, n));
        if text_eq(token.as_str(), "on") {
            Some(String::from_str("ON"))
        } else if text_eq(token.as_str(), "standby") {
            Some(String::from_str("OFF"))
        } else {
            Some(String::from_str("UNKNOWN"))
        }
    } else {
        None
    }
}

/// Whether a command payload of the power switch asks for power on.
pub fn power_command(payload: &str) -> (r: bool)
    ensures
        r == (payload@ == "ON"@),
{
    text_eq(payload, "ON")
}

/// Turns the television on or puts it in standby.
pub fn power_request(on: bool) -> (r: String)
    ensures
        r@ == (if on {
            "on 0.0.0.0\n"@
        } else {
            "standby 0.0.0.0\n"@
        }),
{
    if on {
        String::from_str("on 0.0.0.0\n")
    } else {
        String::from_str("standby 0.0.0.0\n")
    }
}

/// Asks the television for its power status.
pub fn power_query_request() -> (r: String)
    ensures
        r@ == "pow 0.0.0.0\n"@,
{
    String::from_str("pow 0.0.0.0\n")
}

pub fn volume_up_request() -> (r: String)
    ensures
        r@ == "volup\n"@,
{
    String::from_str("volup\n")
}

pub fn volume_down_request() -> (r: String)
    ensures
        r@ == "voldown\n"@,
{
    String::from_str("voldown\n")
}

pub fn mute_request() -> (r: String)
    ensures
        r@ == "mute\n"@,
{
    String::from_str("mute\n")
}

/// The upper-case hexadecimal digit of `n`, for `n` below 16.
pub open spec fn hex_digit(n: nat) -> char {
    "0123456789ABCDEF"@[n as int]
}

/// The decimal digits of `n`.
pub open spec fn decimal(n: nat) -> Seq<char>
    decreases n,
{
    if n < 10 {
        seq![hex_digit(n)]
    } else {
        decimal(n / 10).push(hex_digit(n % 10))
    }
}

/// Appends the digit of `n`.
fn push_digit(s: &mut String, n: u8)
    requires
        n < 16,
    ensures
        final(s)@ == old(s)@.push(hex_digit(n as nat)),
{
    let digits = "0123456789ABCDEF";
    proof {
        reveal_strlit("0123456789ABCDEF");
    }
    let d = digits.substring_char(n as usize, n as usize + 1);
    assert(d@ =~= seq![hex_digit(n as nat)]);
    s.append(d);
}

/// Makes the input on HDMI port `port` the active source: a broadcast of
/// physical address `port.0.0.0`. A port has one hexadecimal digit, so only
/// ports 1 to 15 exist.
pub fn active_source_request(port: u8) -> (r: Option<String>)
    ensures
        1 <= port <= 15 <==> r is Some,
        r matches Some(s) ==> s@ == "tx 1F:82:"@ + seq![hex_digit(port as nat)] + "0:00\n"@,
{
    if 1 <= port && port <= 15 {
        let mut s = String::from_str("tx 1F:82:");
        push_digit(&mut s, port);
        s.append("0:00\n");
        Some(s)
    } else {
        None
    }
}

/// The name of the button entity that selects HDMI port `port`.
pub fn source_entity_name(port: u8) -> (r: String)
    ensures
        r@ == "Source"@ + decimal(port as nat),
{
    let mut s = String::from_str("Source");
    let ghost n = port as nat;
    if port >= 100 {
        push_digit(&mut s, port / 100);
        push_digit(&mut s, (port / 10) % 10);
        assert(decimal(n / 100) == seq![hex_digit(n / 100)]);
        assert(decimal(n / 10) == decimal(n / 100).push(hex_digit((n / 10) % 10)));
    } else if port >= 10 {
        push_digit(&mut s, port / 10);
        assert(decimal(n / 10) == seq![hex_digit(n / 10)]);
    }
    push_digit(&mut s, port % 10);
    assert(n >= 10 ==> decimal(n) == decimal(n / 10).push(hex_digit(n % 10)));
    assert(s@ =~= "Source"@ + decimal(n));
    s
}

/// Last power state read from the device, and the manager that publishes it.
pub struct CecStatus {
    state: Option<StateManager>,
    tv_state: Option<String>,
}

impl CecStatus {
    pub closed spec fn manager(&self) -> Option<StateManager> {
        self.state
    }

    pub closed spec fn last_state(&self) -> Option<Seq<char>> {
        text_of(self.tv_state)
    }

    pub fn new() -> (r: CecStatus)
        ensures
            r.manager() is None,
            r.last_state() is None,
    {
        CecStatus { state: None, tv_state: None }
    }

    /// Publishes future power states through `statemanager`, in place of any
    /// earlier manager.
    pub fn attach_statemanager(&mut self, statemanager: StateManager)
        ensures
            final(self).manager() == Some(statemanager),
            final(self).last_state() == old(self).last_state(),
    {
        self.state = Some(statemanager);
    }

    pub fn has_state_manager(&self) -> (r: bool)
        ensures
            r == self.manager() is Some,
    {
        self.state.is_some()
    }

    pub fn tv_state(&self) -> (r: Option<String>)
        ensures
            text_of(r) == self.last_state(),
    {
        match &self.tv_state {
            Some(s) => Some(s.clone()),
            None => None,
        }
    }

    /// Reads one output line of the device. A power status line becomes the
    /// last state and is published on the manager's state topic.
    pub fn handle_line(&mut self, line: &str)
        ensures
            power_state_of_line(line@) is None ==> *final(self) == *old(self),
            power_state_of_line(line@) matches Some(s) ==> {
                &&& final(self).last_state() == Some(s)
                &&& final(self).manager() is Some <==> old(self).manager() is Some
                &&& old(self).manager() matches Some(m) ==> {
                    let n = final(self).manager()->0;
                    &&& n.state_topic() == m.state_topic()
                    &&& n.entity_name() == m.entity_name()
                    &&& n.issued() == m.issued().push(
                        MqttRequest::Publish {
                            topic: m.state_topic(),
                            qos: rumqttc::QoS::AtLeastOnce,
                            retain: false,
                            payload: s,
                        },
                    )
                }
            },
    {
        match parse_power_state(line) {
            None => {},
            Some(s) => {
                self.tv_state = Some(s.clone());
                match &mut self.state {
                    Some(manager) => manager.update_state(s),
                    None => {},
                }
            },
        }
    }
}

} // verus!
