//! The device link's logic: the discovery heuristic that picks a serial
//! interface likely to be the mixer device, the human-readable port listing,
//! and the connection state machine.  Opening, reading and closing the port
//! are the serial adapter's job; it feeds the outcomes back into the state
//! machine here.
//!
//! Connecting goes in two steps.  [`SerialManager::connect_start`] tears down
//! any previous connection and picks the port to open (the preferred one, or
//! the first discovered candidate); the adapter then tries to open that port
//! and reports the outcome to [`SerialManager::connect_finish`].  When no
//! port was picked, [`SerialManager::no_device_status`] is the non-fatal
//! "device not found" outcome and the link stays disconnected.

use crate::types::{clone_opt_string, clone_string, ConnectionStatus, PortDescriptor,
    SerialPortInfo};
use vstd::prelude::*;
use vstd::string::StrSliceExecFns;

verus! {

/// The code point of `c`, with an ASCII capital letter taken to its small
/// form; characters outside ASCII are left as they are.
pub open spec fn lower_cp(c: char) -> int {
    if 0x41 <= c as int <= 0x5a {
        c as int + 0x20
    } else {
        c as int
    }
}

/// `c` and `d` are the same letter up to ASCII case.
pub open spec fn chars_match_ci(c: char, d: char) -> bool {
    lower_cp(c) == lower_cp(d)
}

/// `needle` occurs in `hay` at position `i`, up to ASCII case.
pub open spec fn contains_at(hay: Seq<char>, i: int, needle: Seq<char>) -> bool {
    &&& 0 <= i
    &&& i + needle.len() <= hay.len()
    &&& forall|k: int| 0 <= k < needle.len() ==> chars_match_ci(hay[i + k], #[trigger] needle[k])
}

/// `needle` occurs somewhere in `hay`, up to ASCII case.
pub open spec fn contains_ci(hay: Seq<char>, needle: Seq<char>) -> bool {
    exists|i: int| contains_at(hay, i, needle)
}

/// The code point of `c`, capitals lowered; mirrors [`lower_cp`].
fn exec_lower_cp(c: char) -> (r: u32)
    ensures
        r == lower_cp(c),
{
    let v = c as u32;
    if 0x41 <= v && v <= 0x5a {
        v + 0x20
    } else {
        v
    }
}

/// Whether `needle` occurs in `hay`, up to ASCII case.
pub fn str_contains_ci(hay: &str, needle: &str) -> (r: bool)
    ensures
        r == contains_ci(hay@, needle@),
{
    let hl = hay.unicode_len();
    let nl = needle.unicode_len();
    if nl > hl {
        return false;
    }
    let mut i: usize = 0;
    while i <= hl - nl
        invariant
            hl == hay@.len(),
            nl == needle@.len(),
            nl <= hl,
            i <= hl - nl + 1,
            forall|j: int| 0 <= j < i ==> !contains_at(hay@, j, needle@),
        decreases hl - nl - i + 1,
    {
        let mut k: usize = 0;
        let mut ok = true;
        while ok && k < nl
            invariant
                hl == hay@.len(),
                nl == needle@.len(),
                i + nl <= hl,
                k <= nl,
                ok ==> forall|k2: int|
                    0 <= k2 < k ==> chars_match_ci(hay@[i + k2], #[trigger] needle@[k2]),
                !ok ==> !contains_at(hay@, i as int, needle@),
            decreases (if ok { 1int } else { 0int }), nl - k,
        {
            if exec_lower_cp(hay.get_char(i + k)) == exec_lower_cp(needle.get_char(k)) {
                k += 1;
            } else {
                proof {
                    assert(!chars_match_ci(hay@[i + k], needle@[k as int]));
                }
                ok = false;
            }
        }
        if ok {
            proof {
                assert(contains_at(hay@, i as int, needle@));
            }
            return true;
        }
        i += 1;
    }
    proof {
        assert forall|j: int| !contains_at(hay@, j, needle@) by {
            if 0 <= j && j + needle@.len() <= hay@.len() {
                assert(j < i);
            }
        }
    }
    false
}

/// A port that looks like the mixer device: a USB interface whose product
/// names the microcontroller family, or whose manufacturer names its maker,
/// or any port whose OS-assigned name follows a USB-CDC naming pattern (a
/// short `COM` name counts only up to five characters).
pub open spec fn is_pico_candidate(p: PortDescriptor) -> bool {
    ||| (p.is_usb && (p.product matches Some(s) && (contains_ci(s@, "pico"@) || contains_ci(
        s@,
        "rp2040"@,
    ))))
    ||| (p.is_usb && (p.manufacturer matches Some(s) && contains_ci(s@, "raspberry"@)))
    ||| contains_ci(p.port_name@, "usbmodem"@)
    ||| contains_ci(p.port_name@, "ttyacm"@)
    ||| (contains_ci(p.port_name@, "com"@) && p.port_name@.len() <= 5)
}

/// The name of the first candidate port, if any.
pub open spec fn spec_find_pico(ports: Seq<PortDescriptor>) -> Option<Seq<char>>
    decreases ports.len(),
{
    if ports.len() == 0 {
        None
    } else if is_pico_candidate(ports[0]) {
        Some(ports[0].port_name@)
    } else {
        spec_find_pico(ports.drop_first())
    }
}

/// The description shown for a port: the USB product and manufacturer, or a
/// generic label for a non-USB interface.
pub open spec fn spec_description(p: PortDescriptor) -> Seq<char> {
    if p.is_usb {
        (match p.product {
            Some(s) => s@,
            None => "Unknown"@,
        }) + " - "@ + (match p.manufacturer {
            Some(s) => s@,
            None => "Unknown"@,
        })
    } else {
        "Serial Port"@
    }
}

/// Whether `p` looks like the mixer device; mirrors [`is_pico_candidate`].
fn exec_is_pico_candidate(p: &PortDescriptor) -> (r: bool)
    ensures
        r == is_pico_candidate(*p),
{
    if p.is_usb {
        match &p.product {
            Some(s) => {
                if str_contains_ci(s.as_str(), "pico") || str_contains_ci(s.as_str(), "rp2040") {
                    return true;
                }
            },
            None => {},
        }
        match &p.manufacturer {
            Some(s) => {
                if str_contains_ci(s.as_str(), "raspberry") {
                    return true;
                }
            },
            None => {},
        }
    }
    if str_contains_ci(p.port_name.as_str(), "usbmodem") {
        return true;
    }
    if str_contains_ci(p.port_name.as_str(), "ttyacm") {
        return true;
    }
    str_contains_ci(p.port_name.as_str(), "com") && p.port_name.as_str().unicode_len() <= 5
}

/// The description shown for `p`; mirrors [`spec_description`].
fn describe_port(p: &PortDescriptor) -> (r: String)
    ensures
        r@ == spec_description(*p),
{
    if p.is_usb {
        let mut d = String::new();
        match &p.product {
            Some(s) => d.append(s.as_str()),
            None => d.append("Unknown"),
        }
        d.append(" - ");
        match &p.manufacturer {
            Some(s) => d.append(s.as_str()),
            None => d.append("Unknown"),
        }
        d
    } else {
        let mut d = String::new();
        d.append("Serial Port");
        d
    }
}

/// The device link's state as a value: whether it is connected and, if so,
/// to which port.
pub ghost struct LinkState {
    pub connected: bool,
    pub port: Option<Seq<char>>,
}

impl LinkState {
    /// A port name is recorded exactly while the link is connected.
    pub open spec fn inv(self) -> bool {
        self.connected <==> self.port is Some
    }
}

/// The connection state machine of the device link.
pub struct SerialManager {
    connected: bool,
    port_name: Option<String>,
}

impl View for SerialManager {
    type V = LinkState;

    closed spec fn view(&self) -> LinkState {
        LinkState { connected: self.connected, port: self.port_name.deep_view() }
    }
}

impl SerialManager {
    /// See [`LinkState::inv`].
    pub open spec fn inv(self) -> bool {
        self@.inv()
    }

    /// A fresh, disconnected link.
    pub fn new() -> (r: SerialManager)
        ensures
            r@ == (LinkState { connected: false, port: None::<Seq<char>> }),
            r.inv(),
    {
        SerialManager { connected: false, port_name: None }
    }

    /// The ports as shown to the presentation layer, in enumeration order.
    pub fn list_ports(ports: &Vec<PortDescriptor>) -> (r: Vec<SerialPortInfo>)
        ensures
            r@.len() == ports@.len(),
            forall|i: int|
                0 <= i < ports@.len() ==> (#[trigger] r@[i]).port_name@ == ports@[i].port_name@
                    && r@[i].description@ == spec_description(ports@[i]),
    {
        let mut r: Vec<SerialPortInfo> = Vec::new();
        let mut i: usize = 0;
        while i < ports.len()
            invariant
                i <= ports@.len(),
                r@.len() == i,
                forall|j: int|
                    0 <= j < i ==> (#[trigger] r@[j]).port_name@ == ports@[j].port_name@
                        && r@[j].description@ == spec_description(ports@[j]),
            decreases ports@.len() - i,
        {
            let p = &ports[i];
            r.push(
                SerialPortInfo {
                    port_name: clone_string(&p.port_name),
                    description: describe_port(p),
                },
            );
            i += 1;
        }
        r
    }

    /// The name of the first port that looks like the mixer device, if any.
    pub fn find_pico_port(ports: &Vec<PortDescriptor>) -> (r: Option<String>)
        ensures
            r.deep_view() == spec_find_pico(ports@),
    {
        let mut i: usize = 0;
        while i < ports.len()
            invariant
                i <= ports@.len(),
                forall|k: int| 0 <= k < i ==> !is_pico_candidate(#[trigger] ports@[k]),
            decreases ports@.len() - i,
        {
            if exec_is_pico_candidate(&ports[i]) {
                proof {
                    lemma_find_pico_first_match(ports@, i as int);
                }
                return Some(clone_string(&ports[i].port_name));
            }
            i += 1;
        }
        proof {
            lemma_find_pico_no_match(ports@);
        }
        None
    }

    /// Tear down any existing connection and pick the port to open: the
    /// preferred one if given, else the first discovered candidate.  Returns
    /// nothing when no device was found; the link then stays disconnected.
    pub fn connect_start(&mut self, preferred: Option<String>, ports: &Vec<PortDescriptor>) -> (r:
        Option<String>)
        ensures
            final(self)@ == (LinkState { connected: false, port: None::<Seq<char>> }),
            final(self).inv(),
            preferred is Some ==> r.deep_view() == preferred.deep_view(),
            preferred is None ==> r.deep_view() == spec_find_pico(ports@),
    {
        self.disconnect();
        match preferred {
            Some(name) => Some(name),
            None => Self::find_pico_port(ports),
        }
    }

    /// Record the outcome of opening `port_name`: with no error the link is
    /// connected to that port; with an error it stays disconnected and the
    /// status carries the cause.
    pub fn connect_finish(&mut self, port_name: String, error: Option<String>) -> (r:
        ConnectionStatus)
        ensures
            final(self).inv(),
            match error {
                None => {
                    &&& final(self)@ == (LinkState {
                        connected: true,
                        port: Some(port_name@),
                    })
                    &&& r.connected
                    &&& r.port.deep_view() == Some(port_name@)
                    &&& r.error is None
                },
                Some(e) => {
                    &&& final(self)@ == (LinkState { connected: false, port: None::<Seq<char>> })
                    &&& !r.connected
                    &&& r.port is None
                    &&& r.error.deep_view() == Some("Failed to connect: "@ + e@)
                },
            },
    {
        match error {
            None => {
                let port = clone_string(&port_name);
                self.connected = true;
                self.port_name = Some(port_name);
                ConnectionStatus { connected: true, port: Some(port), error: None }
            },
            Some(e) => {
                self.connected = false;
                self.port_name = None;
                let mut msg = String::new();
                msg.append("Failed to connect: ");
                msg.append(e.as_str());
                ConnectionStatus { connected: false, port: None, error: Some(msg) }
            },
        }
    }

    /// The non-fatal outcome of a connect attempt that found no device.
    pub fn no_device_status() -> (r: ConnectionStatus)
        ensures
            !r.connected,
            r.port is None,
            r.error.deep_view() == Some("No Pico device found"@),
    {
        let mut msg = String::new();
        msg.append("No Pico device found");
        ConnectionStatus { connected: false, port: None, error: Some(msg) }
    }

    /// Drop the connection; also the signal on which the read loop stops.
    pub fn disconnect(&mut self)
        ensures
            final(self)@ == (LinkState { connected: false, port: None::<Seq<char>> }),
            final(self).inv(),
    {
        self.connected = false;
        self.port_name = None;
    }

    /// Whether the link currently holds a connection.
    pub fn is_connected(&self) -> (r: bool)
        ensures
            r == self@.connected,
    {
        self.connected
    }

    /// A point-in-time snapshot of the link's state; it reports no error.
    pub fn get_status(&self) -> (r: ConnectionStatus)
        ensures
            r.connected == self@.connected,
            r.port.deep_view() == self@.port,
            r.error is None,
    {
        ConnectionStatus {
            connected: self.connected,
            port: clone_opt_string(&self.port_name),
            error: None,
        }
    }
}

impl Default for SerialManager {
    /// A fresh, disconnected link.
    fn default() -> (r: SerialManager)
        ensures
            r@ == (LinkState { connected: false, port: None::<Seq<char>> }),
            r.inv(),
    {
        SerialManager::new()
    }
}

/// `spec_find_pico` returns the first candidate.
proof fn lemma_find_pico_first_match(ports: Seq<PortDescriptor>, i: int)
    requires
        0 <= i < ports.len(),
        is_pico_candidate(ports[i]),
        forall|k: int| 0 <= k < i ==> !is_pico_candidate(#[trigger] ports[k]),
    ensures
        spec_find_pico(ports) == Some(ports[i].port_name@),
    decreases i,
{
    if i > 0 {
        lemma_find_pico_first_match(ports.drop_first(), i - 1);
    }
}

/// Without a candidate, `spec_find_pico` returns nothing.
proof fn lemma_find_pico_no_match(ports: Seq<PortDescriptor>)
    requires
        forall|k: int| 0 <= k < ports.len() ==> !is_pico_candidate(#[trigger] ports[k]),
    ensures
        spec_find_pico(ports) is None,
    decreases ports.len(),
{
    if ports.len() > 0 {
        lemma_find_pico_no_match(ports.drop_first());
    }
}

} // verus!
