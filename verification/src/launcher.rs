use vstd::prelude::*;
use crate::config::Config;
use crate::text::chars_of;

verus! {

broadcast use vstd::string::group_string_axioms;

/// An ASCII decimal digit.
pub open spec fn is_digit(c: char) -> bool {
    0x30 <= (c as u32) <= 0x39
}

/// The number the decimal digits `s` spell.
pub open spec fn decimal_value(s: Seq<char>) -> nat
    decreases s.len(),
{
    if s.len() == 0 {
        0
    } else {
        decimal_value(s.drop_last()) * 10 + ((s.last() as u32) - 0x30) as nat
    }
}

/// The digits of a number text: without a leading `+`, if there is one.
pub open spec fn unsigned_digits(text: Seq<char>) -> Seq<char> {
    if text.len() > 0 && text[0] == '+' {
        text.drop_first()
    } else {
        text
    }
}

/// What `u16::from_str` reads from `text`: an optional `+` followed by one or
/// more ASCII digits whose value fits in a `u16`; nothing else is a number.
pub open spec fn port_value(text: Seq<char>) -> Option<u16> {
    let digits = unsigned_digits(text);
    if digits.len() > 0 && (forall|i: int| 0 <= i < digits.len() ==> is_digit(#[trigger] digits[i]))
        && decimal_value(digits) <= 0xffff {
        Some(decimal_value(digits) as u16)
    } else {
        None
    }
}

proof fn lemma_decimal_value_grows(s: Seq<char>, k: int)
    requires
        0 <= k <= s.len(),
        forall|i: int| 0 <= i < s.len() ==> is_digit(#[trigger] s[i]),
    ensures
        decimal_value(s.take(k)) <= decimal_value(s),
    decreases s.len(),
{
    if k < s.len() {
        assert(s.drop_last().take(k) =~= s.take(k));
        lemma_decimal_value_grows(s.drop_last(), k);
    } else {
        assert(s.take(k) =~= s);
    }
}

/// Reads a port number as `u16::from_str` does.
pub fn parse_port(text: &str) -> (port: Option<u16>)
    ensures
        port == port_value(text@),
{
    let chars = chars_of(text);
    let start: usize = if chars.len() > 0 && chars[0] == '+' { 1 } else { 0 };
    let ghost digits = unsigned_digits(text@);
    assert(digits =~= chars@.skip(start as int));
    if start == chars.len() {
        return None;
    }
    let mut value: u32 = 0;
    let mut i = start;
    assert(digits.take(0) =~= Seq::<char>::empty());
    while i < chars.len()
        invariant
            start <= i <= chars.len(),
            digits == chars@.skip(start as int),
            digits == unsigned_digits(text@),
            forall|j: int| 0 <= j < i - start ==> is_digit(#[trigger] digits[j]),
            value == decimal_value(digits.take(i - start)),
            value <= 0xffff,
        decreases chars.len() - i,
    {
        let c = chars[i];
        let ghost k = i - start;
        assert(digits[k] == c);
        let code = c as u32;
        if code < 0x30 || code > 0x39 {
            assert(!is_digit(digits[k]));
            assert(port_value(text@) is None);
            return None;
        }
        assert(digits.take(k + 1).drop_last() =~= digits.take(k));
        assert(digits.take(k + 1).last() == c);
        value = value * 10 + (code - 0x30);
        assert(value == decimal_value(digits.take(k + 1)));
        i = i + 1;
        if value > 0xffff {
            proof {
                assert(forall|j: int| 0 <= j < k + 1 ==> is_digit(#[trigger] digits[j]));
                if forall|j: int| 0 <= j < digits.len() ==> is_digit(#[trigger] digits[j]) {
                    lemma_decimal_value_grows(digits, k + 1);
                }
                assert(port_value(text@) is None);
            }
            return None;
        }
    }
    assert(digits.take(digits.len() as int) =~= digits);
    Some(value as u16)
}

/// The ASCII digit for `d`, below ten.
pub open spec fn digit_char(d: nat) -> char {
    (0x30 + d) as char
}

/// The decimal text of `n`, without leading zeros, as `to_string` writes it.
pub open spec fn decimal_text(n: nat) -> Seq<char>
    decreases n,
{
    if n < 10 {
        seq![digit_char(n)]
    } else {
        decimal_text(n / 10).push(digit_char(n % 10))
    }
}

fn decimal_chars(n: u16) -> (v: Vec<char>)
    ensures
        v@ == decimal_text(n as nat),
    decreases n,
{
    let d = (n % 10) as u8;
    let c = (0x30u8 + d) as char;
    assert(c == digit_char((n % 10) as nat));
    if n < 10 {
        let mut v: Vec<char> = Vec::new();
        v.push(c);
        assert(v@ =~= seq![c]);
        v
    } else {
        let mut v = decimal_chars(n / 10);
        v.push(c);
        v
    }
}

/// The text the launcher remembers a port as: its decimal digits.
pub fn port_text(port: u16) -> (t: String)
    ensures
        t@ == decimal_text(port as nat),
{
    let v = decimal_chars(port);
    crate::text::string_from_chars(&v)
}

proof fn lemma_decimal_text(n: nat)
    ensures
        decimal_text(n).len() > 0,
        forall|i: int| 0 <= i < decimal_text(n).len() ==> is_digit(#[trigger] decimal_text(n)[i]),
        decimal_value(decimal_text(n)) == n,
    decreases n,
{
    let c = digit_char(n % 10);
    assert((c as u32) == 0x30 + n % 10);
    if n >= 10 {
        lemma_decimal_text(n / 10);
        let s = decimal_text(n / 10);
        let t = decimal_text(n);
        assert(t.drop_last() =~= s);
        assert(t.last() == c);
        assert(decimal_value(t) == decimal_value(s) * 10 + ((c as u32) - 0x30) as nat);
        assert(n == (n / 10) * 10 + n % 10);
        assert(decimal_value(s) == n / 10);
        assert(((c as u32) - 0x30) as nat == n % 10);
        assert(decimal_value(t) == n);
    } else {
        assert(n % 10 == n);
        let t = decimal_text(n);
        assert(t == seq![c]);
        assert(t.drop_last() =~= Seq::<char>::empty());
        assert(decimal_value(t.drop_last()) == 0);
        assert(decimal_value(t) == n);
    }
}

/// A port the launcher remembered reads back as the same port.
pub proof fn remembered_port_reads_back(port: u16)
    ensures
        port_value(decimal_text(port as nat)) == Some(port),
{
    lemma_decimal_text(port as nat);
    let t = decimal_text(port as nat);
    assert(is_digit(t[0]));
    assert(unsigned_digits(t) == t);
}

/// Settings the launcher remembered from its last run, each as stored.
pub struct StoredSettings {
    pub script_dir: Option<String>,
    pub port: Option<String>,
    pub server_url: Option<String>,
}

/// The configuration the launcher starts with: `base`, with each remembered
/// setting put in its place; a remembered port that is not a number is
/// ignored.
pub fn apply_stored_settings(base: Config, stored: StoredSettings) -> (c: Config)
    ensures
        c.cs_script_dir == match stored.script_dir {
            Some(d) => Some(d),
            None => base.cs_script_dir,
        },
        c.cs_integration_port == match stored.port {
            Some(p) => match port_value(p@) {
                Some(n) => n,
                None => base.cs_integration_port,
            },
            None => base.cs_integration_port,
        },
        c.buttplug_server_url == match stored.server_url {
            Some(u) => u,
            None => base.buttplug_server_url,
        },
{
    let mut c = base;
    match stored.script_dir {
        Some(d) => c.cs_script_dir = Some(d),
        None => {},
    }
    match stored.port {
        Some(p) => match parse_port(p.as_str()) {
            Some(n) => c.cs_integration_port = n,
            None => {},
        },
        None => {},
    }
    match stored.server_url {
        Some(u) => c.buttplug_server_url = u,
        None => {},
    }
    c
}

/// Whether an edited server address is remembered: only a non-empty one is.
pub fn remembers_server_url(url: &str) -> (b: bool)
    ensures
        b == (url@.len() > 0),
{
    !url.is_empty()
}

/// What the launcher panel offers, given whether the bridge is running.
#[derive(Clone, Copy, Debug, PartialEq, Eq, Structural)]
pub struct PanelLayout {
    /// The settings can be edited.
    pub settings_enabled: bool,
    /// The start button reads "Relaunch" rather than "Launch".
    pub offers_relaunch: bool,
    /// The stop button can be pressed.
    pub stop_enabled: bool,
}

/// The panel for a running or an idle bridge: settings are only editable
/// while idle, the start button relaunches while running, and stopping is
/// only possible while running.
pub fn panel_layout(running: bool) -> (p: PanelLayout)
    ensures
        p.settings_enabled == !running,
        p.offers_relaunch == running,
        p.stop_enabled == running,
{
    PanelLayout { settings_enabled: !running, offers_relaunch: running, stop_enabled: running }
}

/// Something the user did on the launcher panel.
#[derive(Clone, Copy, Debug, PartialEq, Eq, Structural)]
pub enum PanelEvent {
    /// Pressed the start button ("Launch" or "Relaunch").
    StartPressed,
    /// Pressed the stop button.
    StopPressed,
    /// Asked to close the window.
    CloseRequested,
}

/// What the launcher does in response.
#[derive(Clone, Copy, Debug, PartialEq, Eq, Structural)]
pub enum PanelAction {
    /// Start the bridge.
    Launch,
    /// Shut the bridge down and start it again.
    Relaunch,
    /// Shut the bridge down.
    Shutdown,
    /// Nothing.
    Ignore,
}

/// The response to a panel event: start launches an idle bridge and
/// relaunches a running one; stop shuts a running bridge down (the button is
/// disabled otherwise); closing the window always shuts down.
pub fn panel_action(running: bool, event: PanelEvent) -> (a: PanelAction)
    ensures
        a == match event {
            PanelEvent::StartPressed => if running {
                PanelAction::Relaunch
            } else {
                PanelAction::Launch
            },
            PanelEvent::StopPressed => if running {
                PanelAction::Shutdown
            } else {
                PanelAction::Ignore
            },
            PanelEvent::CloseRequested => PanelAction::Shutdown,
        },
{
    match event {
        PanelEvent::StartPressed => if running {
            PanelAction::Relaunch
        } else {
            PanelAction::Launch
        },
        PanelEvent::StopPressed => if running {
            PanelAction::Shutdown
        } else {
            PanelAction::Ignore
        },
        PanelEvent::CloseRequested => PanelAction::Shutdown,
    }
}

} // verus!
