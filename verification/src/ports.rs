//! Choosing the serial port of the vehicle's board, and the log and list
//! lines that describe the ports.

use vstd::prelude::*;
use crate::text::{decimal, hex4, push_hex4, push_decimal, views, contains, contains_text, owned};

verus! {

/// Vendor id of the CP2102 USB-to-UART bridge.
pub const CP2102_VID: u16 = 0x10C4;

/// Product id of the CP2102 USB-to-UART bridge.
pub const CP2102_PID: u16 = 0xEA60;

/// Vendor id of the CH340 USB-to-UART bridge.
pub const CH340_VID: u16 = 0x1A86;

/// What a USB serial port tells about its device.
pub struct UsbInfo {
    pub vid: u16,
    pub pid: u16,
    pub product: Option<String>,
}

/// A serial port: its name and, for a USB port, the device information.
pub struct PortInfo {
    pub name: String,
    pub usb: Option<UsbInfo>,
}

pub struct UsbView {
    pub vid: u16,
    pub pid: u16,
    pub product: Option<Seq<char>>,
}

pub struct PortView {
    pub name: Seq<char>,
    pub usb: Option<UsbView>,
}

impl View for PortInfo {
    type V = PortView;

    open spec fn view(&self) -> PortView {
        PortView {
            name: self.name@,
            usb: match self.usb {
                Some(u) => Some(UsbView {
                    vid: u.vid,
                    pid: u.pid,
                    product: match u.product {
                        Some(p) => Some(p@),
                        None => None,
                    },
                }),
                None => None,
            },
        }
    }
}

pub open spec fn port_views(ports: Seq<PortInfo>) -> Seq<PortView> {
    ports.map_values(|p: PortInfo| p@)
}

/// The device behind the port is one of the USB-to-UART bridges that the
/// vehicle's board carries: a CP2102 or a CH340.
pub open spec fn is_board_bridge(p: PortView) -> bool {
    match p.usb {
        Some(u) => (u.vid == CP2102_VID && u.pid == CP2102_PID) || u.vid == CH340_VID,
        None => false,
    }
}

/// The first port, from `from` on, whose device is a board bridge.
pub open spec fn first_bridge(ports: Seq<PortView>, from: int) -> Option<int>
    decreases ports.len() - from,
{
    if from < 0 || from >= ports.len() {
        None
    } else if is_board_bridge(ports[from]) {
        Some(from)
    } else {
        first_bridge(ports, from + 1)
    }
}

fn bridge(p: &PortInfo) -> (b: bool)
    ensures
        b == is_board_bridge(p@),
{
    match &p.usb {
        Some(u) => (u.vid == CP2102_VID && u.pid == CP2102_PID) || u.vid == CH340_VID,
        None => false,
    }
}

/// The log line naming a USB port and its product (`Unknown` when the
/// device gives none).
pub open spec fn usb_port_line(p: PortView) -> Seq<char> {
    let product = match p.usb {
        Some(u) => match u.product {
            Some(name) => name,
            None => "Unknown"@,
        },
        None => "Unknown"@,
    };
    "Port: "@ + p.name + " ("@ + product + ")"@
}

/// The log lines of the USB ports among the first `k` ports.
pub open spec fn usb_lines(ports: Seq<PortView>, k: int) -> Seq<Seq<char>>
    decreases k,
{
    if k <= 0 || k > ports.len() {
        Seq::empty()
    } else {
        usb_lines(ports, k - 1) + (if ports[k - 1].usb is Some { seq![usb_port_line(ports[k - 1])] } else { Seq::empty() })
    }
}

/// The log lines of a search for the board among `ports`: the number of
/// ports, each USB port up to the board's, then the board's port or the
/// news that there is none.
pub open spec fn scan_lines(ports: Seq<PortView>) -> Seq<Seq<char>> {
    seq!["Found "@ + decimal(ports.len()) + " serial ports"@] + match first_bridge(ports, 0) {
        Some(i) => usb_lines(ports, i + 1) + seq!["Found ESP32 on "@ + ports[i].name],
        None => usb_lines(ports, ports.len() as int) + seq!["No ESP32 found"@],
    }
}

/// The outcome of a search for the board among the ports found.
pub struct BoardScan {
    /// Index of the board's port, if one was found.
    pub chosen: Option<usize>,
    /// Log lines, in order.
    pub messages: Vec<String>,
}

proof fn lemma_first_bridge_skip(ports: Seq<PortView>, from: int, i: int)
    requires
        0 <= from <= i <= ports.len(),
        forall|j: int| from <= j < i ==> !is_board_bridge(ports[j]),
    ensures
        first_bridge(ports, from) == first_bridge(ports, i),
    decreases i - from,
{
    if from < i {
        lemma_first_bridge_skip(ports, from + 1, i);
    }
}

fn usb_line(p: &PortInfo) -> (line: String)
    requires
        p.usb is Some,
    ensures
        line@ == usb_port_line(p@),
{
    let mut line = owned("Port: ");
    line.append(p.name.as_str());
    line.append(" (");
    match &p.usb {
        Some(u) => match &u.product {
            Some(name) => line.append(name.as_str()),
            None => line.append("Unknown"),
        },
        None => line.append("Unknown"),
    }
    line.append(")");
    line
}

/// Searches the ports for the vehicle's board as the control panel does:
/// the first port whose device is a CP2102 or CH340 bridge.
pub fn scan_for_board(ports: &Vec<PortInfo>) -> (scan: BoardScan)
    ensures
        scan.chosen matches Some(i) ==> first_bridge(port_views(ports@), 0) == Some(i as int),
        scan.chosen is None <==> first_bridge(port_views(ports@), 0) is None,
        views(scan.messages@) == scan_lines(port_views(ports@)),
{
    let ghost pv = port_views(ports@);
    let mut messages: Vec<String> = Vec::new();
    messages.push(with_count(ports.len()));
    let mut i: usize = 0;
    while i < ports.len()
        invariant
            pv == port_views(ports@),
            i <= ports@.len(),
            forall|j: int| 0 <= j < i ==> !is_board_bridge(pv[j]),
            views(messages@) == seq!["Found "@ + decimal(pv.len()) + " serial ports"@] + usb_lines(pv, i as int),
        decreases ports@.len() - i,
    {
        let ghost before = messages@;
        if ports[i].usb.is_some() {
            messages.push(usb_line(&ports[i]));
        }
        assert(views(messages@) =~= views(before) + (if pv[i as int].usb is Some { seq![usb_port_line(pv[i as int])] } else { Seq::empty() }));
        if bridge(&ports[i]) {
            let mut found = owned("Found ESP32 on ");
            found.append(ports[i].name.as_str());
            let ghost before2 = messages@;
            messages.push(found);
            proof {
                lemma_first_bridge_skip(pv, 0, i as int);
                assert(views(messages@) =~= views(before2).push(found@));
            }
            return BoardScan { chosen: Some(i), messages };
        }
        i = i + 1;
    }
    proof {
        lemma_first_bridge_skip(pv, 0, i as int);
    }
    let ghost before3 = messages@;
    messages.push(owned("No ESP32 found"));
    assert(views(messages@) =~= views(before3).push("No ESP32 found"@));
    BoardScan { chosen: None, messages }
}

fn with_count(n: usize) -> (s: String)
    ensures
        s@ == "Found "@ + decimal(n as nat) + " serial ports"@,
{
    let mut s = owned("Found ");
    push_decimal(&mut s, n as u64);
    s.append(" serial ports");
    s
}

/// The name, turned to lower case as `str::to_lowercase` does it.
pub uninterp spec fn lowercase(s: Seq<char>) -> Seq<char>;

/// Lower-cases `s` through `str::to_lowercase`. What the result is for a
/// given text follows Unicode's case tables; the contract only names it.
#[verifier::external_body]
fn to_lowercase(s: &str) -> (lower: String)
    ensures
        lower@ == lowercase(s@),
{
    s.to_lowercase()
}

/// The port looks like the board for the console: a CP2102 or CH340 bridge,
/// or a name (in lower case) of a Linux USB serial device.
pub open spec fn console_prefers(p: PortView, lower_name: Seq<char>) -> bool {
    is_board_bridge(p) || contains_text(lower_name, "ttyusb"@) || contains_text(lower_name, "ttyacm"@)
}

/// The first preferred port from `from` on.
pub open spec fn first_preferred(ports: Seq<PortView>, lower: Seq<Seq<char>>, from: int) -> Option<int>
    decreases ports.len() - from,
{
    if from < 0 || from >= ports.len() {
        None
    } else if console_prefers(ports[from], lower[from]) {
        Some(from)
    } else {
        first_preferred(ports, lower, from + 1)
    }
}

/// The port the console picks: the first preferred one, else the first
/// port, else none.
pub open spec fn console_choice(ports: Seq<PortView>, lower: Seq<Seq<char>>) -> Option<int> {
    match first_preferred(ports, lower, 0) {
        Some(i) => Some(i),
        None => if ports.len() > 0 { Some(0) } else { None },
    }
}

proof fn lemma_first_preferred_skip(ports: Seq<PortView>, lower: Seq<Seq<char>>, from: int, i: int)
    requires
        0 <= from <= i <= ports.len(),
        forall|j: int| from <= j < i ==> !console_prefers(ports[j], lower[j]),
    ensures
        first_preferred(ports, lower, from) == first_preferred(ports, lower, i),
    decreases i - from,
{
    if from < i {
        lemma_first_preferred_skip(ports, lower, from + 1, i);
    }
}

/// The port the console picks, given the port names in lower case.
pub fn pick_serial_port(ports: &Vec<PortInfo>, lower_names: &Vec<String>) -> (choice: Option<usize>)
    requires
        lower_names@.len() == ports@.len(),
    ensures
        choice matches Some(i) ==> i < ports@.len() && console_choice(port_views(ports@), views(lower_names@)) == Some(i as int),
        choice is None <==> console_choice(port_views(ports@), views(lower_names@)) is None,
{
    let ghost pv = port_views(ports@);
    let ghost lv = views(lower_names@);
    proof {
        reveal_strlit("ttyusb");
        reveal_strlit("ttyacm");
    }
    let mut i: usize = 0;
    while i < ports.len()
        invariant
            pv == port_views(ports@),
            lv == views(lower_names@),
            lower_names@.len() == ports@.len(),
            i <= ports@.len(),
            forall|j: int| 0 <= j < i ==> !console_prefers(pv[j], lv[j]),
        decreases ports@.len() - i,
    {
        let lower = lower_names[i].as_str();
        if bridge(&ports[i]) || contains(lower, "ttyusb") || contains(lower, "ttyacm") {
            proof {
                lemma_first_preferred_skip(pv, lv, 0, i as int);
            }
            return Some(i);
        }
        i = i + 1;
    }
    proof {
        lemma_first_preferred_skip(pv, lv, 0, i as int);
    }
    if ports.len() > 0 {
        Some(0)
    } else {
        None
    }
}

/// The port names in lower case.
pub open spec fn lowered_names(ports: Seq<PortInfo>) -> Seq<Seq<char>> {
    ports.map_values(|p: PortInfo| lowercase(p.name@))
}

/// The port name the console uses when none is given: as `pick_serial_port`
/// chooses with the names lower-cased.
pub fn find_serial_port(ports: &Vec<PortInfo>) -> (name: Option<String>)
    ensures
        match console_choice(port_views(ports@), lowered_names(ports@)) {
            Some(i) => name matches Some(n) && n@ == ports@[i].name@,
            None => name is None,
        },
{
    let mut lower_names: Vec<String> = Vec::new();
    let mut i: usize = 0;
    while i < ports.len()
        invariant
            i <= ports@.len(),
            lower_names@.len() == i,
            forall|j: int| 0 <= j < i ==> #[trigger] lower_names@[j]@ == lowercase(ports@[j].name@),
        decreases ports@.len() - i,
    {
        lower_names.push(to_lowercase(ports[i].name.as_str()));
        i = i + 1;
    }
    let choice = pick_serial_port(ports, &lower_names);
    assert(views(lower_names@) =~= lowered_names(ports@));
    match choice {
        Some(i) => Some(ports[i].name.clone()),
        None => None,
    }
}

/// How the port list describes a port's device: USB vendor and product ids
/// in four hexadecimal digits, or `Unknown`.
pub open spec fn device_label(p: PortView) -> Seq<char> {
    match p.usb {
        Some(u) => "USB "@ + hex4(u.vid) + seq![':'] + hex4(u.pid),
        None => "Unknown"@,
    }
}

/// The line of the port list for one port.
pub open spec fn port_list_line_spec(p: PortView) -> Seq<char> {
    "  "@ + p.name + " - "@ + device_label(p)
}

/// The line of the port list for one port.
pub fn port_list_line(p: &PortInfo) -> (line: String)
    ensures
        line@ == port_list_line_spec(p@),
{
    proof {
        reveal_strlit(":");
    }
    let mut line = owned("  ");
    line.append(p.name.as_str());
    line.append(" - ");
    match &p.usb {
        Some(u) => {
            line.append("USB ");
            push_hex4(&mut line, u.vid);
            line.append(":");
            push_hex4(&mut line, u.pid);
        },
        None => line.append("Unknown"),
    }
    line
}

/// The log line before the board is opened.
pub fn connecting_message(port_name: &str) -> (m: String)
    ensures
        m@ == "Connecting to "@ + port_name@ + "..."@,
{
    let mut m = owned("Connecting to ");
    m.append(port_name);
    m.append("...");
    m
}

/// The log line when the board's port does not open.
pub fn connection_failed_message(error: &str) -> (m: String)
    ensures
        m@ == "Connection failed: "@ + error@,
{
    let mut m = owned("Connection failed: ");
    m.append(error);
    m
}

/// The log line when the ports cannot be listed.
pub fn scan_error_message(error: &str) -> (m: String)
    ensures
        m@ == "Error scanning ports: "@ + error@,
{
    let mut m = owned("Error scanning ports: ");
    m.append(error);
    m
}

/// The board found by the control panel is always a board bridge, and no
/// port before it is one.
pub proof fn lemma_board_is_first_bridge(ports: Seq<PortView>, i: int)
    requires
        first_bridge(ports, 0) == Some(i),
    ensures
        0 <= i < ports.len(),
        is_board_bridge(ports[i]),
        forall|j: int| 0 <= j < i ==> !is_board_bridge(ports[j]),
{
    lemma_first_bridge_found(ports, 0, i);
}

proof fn lemma_first_bridge_found(ports: Seq<PortView>, from: int, i: int)
    requires
        first_bridge(ports, from) == Some(i),
        0 <= from,
    ensures
        from <= i < ports.len(),
        is_board_bridge(ports[i]),
        forall|j: int| from <= j < i ==> !is_board_bridge(ports[j]),
    decreases ports.len() - from,
{
    if from < ports.len() && !is_board_bridge(ports[from]) {
        lemma_first_bridge_found(ports, from + 1, i);
    }
}

/// Whenever the control panel finds the board, the console picks the same
/// port: the console only adds preferences after the bridges' own.
pub proof fn lemma_console_agrees_on_bridges(ports: Seq<PortView>, lower: Seq<Seq<char>>, i: int)
    requires
        first_bridge(ports, 0) == Some(i),
        lower.len() == ports.len(),
        forall|j: int| 0 <= j < i ==> !console_prefers(ports[j], lower[j]),
    ensures
        console_choice(ports, lower) == Some(i),
{
    lemma_first_bridge_found(ports, 0, i);
    lemma_first_preferred_skip(ports, lower, 0, i);
}


/// Which devices count as the board's bridge, by their USB ids: any device
/// of vendor 0x1A86 (WCH: CH340, CH9102 and kin) whatever its product id,
/// the CP2102 (10C4:EA60) and nothing else; a port that is not USB never.
pub proof fn lemma_bridge_ids(name: Seq<char>, vid: u16, pid: u16, product: Option<Seq<char>>)
    ensures
        ({
            let p = PortView { name, usb: Some(UsbView { vid, pid, product }) };
            &&& vid == 0x1A86 ==> is_board_bridge(p)
            &&& (vid == 0x10C4 && pid == 0xEA60) ==> is_board_bridge(p)
            &&& (vid == 0x10C4 && pid != 0xEA60) ==> !is_board_bridge(p)
            &&& (vid != 0x10C4 && vid != 0x1A86) ==> !is_board_bridge(p)
        }),
        !is_board_bridge(PortView { name, usb: None }),
{
}

/// The search picks the first port whose device is of vendor 0x1A86 or is
/// a CP2102, skipping every port before it.
pub proof fn lemma_scan_picks_first_bridge_by_ids(ports: Seq<PortView>, i: int)
    requires
        0 <= i < ports.len(),
        ports[i].usb matches Some(u) && (u.vid == 0x1A86 || (u.vid == 0x10C4 && u.pid == 0xEA60)),
        forall|j: int| 0 <= j < i ==> match #[trigger] ports[j].usb {
            Some(u) => u.vid != 0x1A86 && !(u.vid == 0x10C4 && u.pid == 0xEA60),
            None => true,
        },
    ensures
        first_bridge(ports, 0) == Some(i),
        scan_lines(ports).last() == "Found ESP32 on "@ + ports[i].name,
{
    assert forall|j: int| 0 <= j < i implies !is_board_bridge(ports[j]) by {
        assert(match ports[j].usb {
            Some(u) => u.vid != 0x1A86 && !(u.vid == 0x10C4 && u.pid == 0xEA60),
            None => true,
        });
    }
    lemma_first_bridge_skip(ports, 0, i);
    assert(is_board_bridge(ports[i]));
}

} // verus!
