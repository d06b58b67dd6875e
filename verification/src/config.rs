//! The ports that generate traffic, as the operator has configured them.

use macaddr::MacAddr;
use std::str::FromStr;
use vstd::prelude::*;

verus! {

/// Most ports that can generate traffic.
pub const MAX_TG_PORTS: usize = 10;

/// Highest number of a front panel port.
pub const MAX_FRONT_PANEL_PORT: u32 = 32;

/// A front panel port that generates traffic.
#[derive(Clone, Debug)]
pub struct PortDescription {
    /// Number of the front panel port.
    pub port: u32,
    /// Hardware address of the port, as text.
    pub mac: String,
    /// Whether the port answers address resolution requests; `None` while
    /// that has not been set.
    pub arp_reply: Option<bool>,
}

/// The configuration of the ports that generate traffic.
#[derive(Clone, Debug)]
pub struct Config {
    pub tg_ports: Vec<PortDescription>,
}

/// The bytes of the hardware address that the text is, if it is one: six or
/// eight bytes, each written as two hexadecimal digits, where a byte may
/// have a separator before it, the same one throughout.
pub uninterp spec fn mac_address(text: Seq<char>) -> Option<Seq<u8>>;

/// Whether the text is a hardware address.
pub open spec fn is_mac_address(text: Seq<char>) -> bool {
    mac_address(text) is Some
}

/// The bytes of the hardware address `text`, if it is one. This is what
/// `MacAddr::from_str` of the crate `macaddr` makes of the text: the bytes
/// of the address that it returns, as `MacAddr::as_bytes` gives them, six
/// of them or eight, or nothing where it returns an error.
#[verifier::external_body]
pub(crate) fn parse_mac(text: &str) -> (r: Option<Vec<u8>>)
    ensures
        match r {
            Some(bytes) => mac_address(text@) == Some(bytes@) && (bytes@.len() == 6 || bytes@.len()
                == 8),
            None => mac_address(text@) is None,
        },
{
    match MacAddr::from_str(text) {
        Ok(address) => Some(address.as_bytes().to_vec()),
        Err(_) => None,
    }
}

/// Some port of the list has the number `port`.
pub open spec fn has_port(ports: Seq<PortDescription>, port: u32) -> bool {
    exists|i: int| 0 <= i < ports.len() && (#[trigger] ports[i]).port == port
}

/// There are no more ports than can generate traffic, and each is a front
/// panel port.
pub open spec fn ports_in_range(ports: Seq<PortDescription>) -> bool {
    &&& ports.len() <= MAX_TG_PORTS
    &&& forall|i: int| 0 <= i < ports.len() ==> (#[trigger] ports[i]).port <= MAX_FRONT_PANEL_PORT
}

/// The address of every port is a hardware address.
pub open spec fn macs_are_valid(ports: Seq<PortDescription>) -> bool {
    forall|i: int| 0 <= i < ports.len() ==> is_mac_address((#[trigger] ports[i]).mac@)
}

impl Config {
    /// Whether `other` is one of the ports that generate traffic.
    pub fn contains(&self, other: u32) -> (r: bool)
        ensures
            r == has_port(self.tg_ports@, other),
    {
        let mut i: usize = 0;
        while i < self.tg_ports.len()
            invariant
                i <= self.tg_ports@.len(),
                forall|j: int| 0 <= j < i ==> (#[trigger] self.tg_ports@[j]).port != other,
            decreases self.tg_ports@.len() - i,
        {
            if self.tg_ports[i].port == other {
                return true;
            }
            i = i + 1;
        }
        false
    }

    /// Whether there are no more ports than can generate traffic, each of
    /// them a front panel port.
    pub fn has_valid_ports(&self) -> (r: bool)
        ensures
            r == ports_in_range(self.tg_ports@),
    {
        if self.tg_ports.len() > MAX_TG_PORTS {
            return false;
        }
        let mut i: usize = 0;
        while i < self.tg_ports.len()
            invariant
                i <= self.tg_ports@.len(),
                self.tg_ports@.len() <= MAX_TG_PORTS,
                forall|j: int|
                    0 <= j < i ==> (#[trigger] self.tg_ports@[j]).port <= MAX_FRONT_PANEL_PORT,
            decreases self.tg_ports@.len() - i,
        {
            if self.tg_ports[i].port > MAX_FRONT_PANEL_PORT {
                return false;
            }
            i = i + 1;
        }
        true
    }

    /// Whether the configuration can be used: every address is a hardware
    /// address, and the ports are front panel ports, no more of them than
    /// can generate traffic.
    pub fn validate(&self) -> (r: bool)
        ensures
            r == (macs_are_valid(self.tg_ports@) && ports_in_range(self.tg_ports@)),
    {
        let mut i: usize = 0;
        while i < self.tg_ports.len()
            invariant
                i <= self.tg_ports@.len(),
                forall|j: int| 0 <= j < i ==> is_mac_address((#[trigger] self.tg_ports@[j]).mac@),
            decreases self.tg_ports@.len() - i,
        {
            if parse_mac(self.tg_ports[i].mac.as_str()).is_none() {
                return false;
            }
            i = i + 1;
        }
        self.has_valid_ports()
    }

    /// Tells the ports with the number `port` whether to answer address
    /// resolution requests.
    pub fn update_arp_state(&mut self, port: u32, state: bool)
        ensures
            final(self).tg_ports@.len() == old(self).tg_ports@.len(),
            forall|i: int|
                0 <= i < old(self).tg_ports@.len() ==> {
                    let before = #[trigger] old(self).tg_ports@[i];
                    let after = final(self).tg_ports@[i];
                    &&& after.port == before.port
                    &&& after.mac == before.mac
                    &&& after.arp_reply == if before.port == port {
                        Some(state)
                    } else {
                        before.arp_reply
                    }
                },
    {
        let ghost before = self.tg_ports@;
        let mut i: usize = 0;
        while i < self.tg_ports.len()
            invariant
                i <= self.tg_ports@.len(),
                before == old(self).tg_ports@,
                self.tg_ports@.len() == before.len(),
                forall|j: int| i <= j < before.len() ==> #[trigger] self.tg_ports@[j] == before[j],
                forall|j: int|
                    0 <= j < i ==> {
                        let b = #[trigger] before[j];
                        let a = self.tg_ports@[j];
                        &&& a.port == b.port
                        &&& a.mac == b.mac
                        &&& a.arp_reply == if b.port == port {
                            Some(state)
                        } else {
                            b.arp_reply
                        }
                    },
            decreases before.len() - i,
        {
            if self.tg_ports[i].port == port {
                self.tg_ports[i].arp_reply = Some(state);
            }
            i = i + 1;
        }
    }

    /// The ports that are left for recirculation: of the front panel ports
    /// from one to `MAX_FRONT_PANEL_PORT`, those that do not generate
    /// traffic, in their order.
    pub fn recirculation_ports(&self) -> (ports: Vec<u32>)
        ensures
            forall|i: int|
                0 <= i < ports@.len() ==> 1 <= (#[trigger] ports@[i]) <= MAX_FRONT_PANEL_PORT
                    && !has_port(self.tg_ports@, ports@[i]),
            forall|i: int, j: int| 0 <= i < j < ports@.len() ==> ports@[i] < ports@[j],
            forall|p: u32|
                1 <= p <= MAX_FRONT_PANEL_PORT && !has_port(self.tg_ports@, p) ==> ports@.contains(p),
    {
        let mut ports: Vec<u32> = Vec::new();
        let mut p: u32 = 1;
        while p <= MAX_FRONT_PANEL_PORT
            invariant
                1 <= p <= MAX_FRONT_PANEL_PORT + 1,
                forall|i: int|
                    0 <= i < ports@.len() ==> 1 <= (#[trigger] ports@[i]) < p && !has_port(
                        self.tg_ports@,
                        ports@[i],
                    ),
                forall|i: int, j: int| 0 <= i < j < ports@.len() ==> ports@[i] < ports@[j],
                forall|q: u32| 1 <= q < p && !has_port(self.tg_ports@, q) ==> ports@.contains(q),
            decreases MAX_FRONT_PANEL_PORT + 1 - p,
        {
            if !self.contains(p) {
                let ghost before = ports@;
                ports.push(p);
                proof {
                    assert(ports@[before.len() as int] == p);
                    assert forall|q: u32|
                        1 <= q < p + 1 && !has_port(self.tg_ports@, q) implies ports@.contains(
                        q,
                    ) by {
                        if q < p {
                            assert(before.contains(q));
                            let k = choose|k: int| 0 <= k < before.len() && before[k] == q;
                            assert(ports@[k] == q);
                        } else {
                            assert(ports@[before.len() as int] == q);
                        }
                    }
                }
            }
            p = p + 1;
        }
        ports
    }
}

/// The hardware address of the `i`-th port of the default configuration.
pub open spec fn default_mac(i: int) -> Seq<char> {
    if i == 0 {
        "fa:a6:68:e0:3d:70"@
    } else if i == 1 {
        "00:d0:67:a2:a9:42"@
    } else if i == 2 {
        "40:28:e3:cd:64:35"@
    } else if i == 3 {
        "be:6a:94:e8:3c:3c"@
    } else if i == 4 {
        "d6:67:75:a1:94:c3"@
    } else if i == 5 {
        "e2:bd:1e:02:dc:b4"@
    } else if i == 6 {
        "d0:b3:7f:59:2c:4a"@
    } else if i == 7 {
        "84:08:f3:bc:2b:ac"@
    } else if i == 8 {
        "06:6c:cc:db:86:9c"@
    } else {
        "c0:db:54:17:15:0f"@
    }
}

/// A port of the default configuration.
fn default_port(port: u32, mac: &str) -> (p: PortDescription)
    ensures
        p.port == port,
        p.mac@ == mac@,
        p.arp_reply is None,
{
    PortDescription { port, mac: mac.to_owned(), arp_reply: None }
}

impl Default for Config {
    /// The first ten front panel ports generate traffic.
    fn default() -> (c: Self)
        ensures
            c.tg_ports@.len() == 10,
            forall|i: int|
                0 <= i < 10 ==> {
                    &&& (#[trigger] c.tg_ports@[i]).port == i + 1
                    &&& c.tg_ports@[i].mac@ == default_mac(i)
                    &&& c.tg_ports@[i].arp_reply is None
                },
            ports_in_range(c.tg_ports@),
    {
        let mut tg_ports: Vec<PortDescription> = Vec::new();
        tg_ports.push(default_port(1, "fa:a6:68:e0:3d:70"));
        tg_ports.push(default_port(2, "00:d0:67:a2:a9:42"));
        tg_ports.push(default_port(3, "40:28:e3:cd:64:35"));
        tg_ports.push(default_port(4, "be:6a:94:e8:3c:3c"));
        tg_ports.push(default_port(5, "d6:67:75:a1:94:c3"));
        tg_ports.push(default_port(6, "e2:bd:1e:02:dc:b4"));
        tg_ports.push(default_port(7, "d0:b3:7f:59:2c:4a"));
        tg_ports.push(default_port(8, "84:08:f3:bc:2b:ac"));
        tg_ports.push(default_port(9, "06:6c:cc:db:86:9c"));
        tg_ports.push(default_port(10, "c0:db:54:17:15:0f"));
        Config { tg_ports }
    }
}

} // verus!
