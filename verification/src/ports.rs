//! The front panel ports that generate traffic and their recirculation ports.

use vstd::prelude::*;

verus! {

/// A front panel port with the two internal ports that carry its traffic
/// through the measurement path: one on the way out, one on the way in.
#[derive(Clone, Copy, Debug, PartialEq, Eq, Structural)]
pub struct PortMapping {
    /// Number of the front panel port.
    pub port: u32,
    /// Recirculation port of the send path.
    pub tx_recirculation: u32,
    /// Recirculation port of the receive path.
    pub rx_recirculation: u32,
}

/// Which of a port's two paths a recirculation port belongs to.
#[derive(Clone, Copy, Debug, PartialEq, Eq, Structural)]
pub enum Direction {
    Tx,
    Rx,
}

/// No two mappings speak of the same front panel port.
pub open spec fn distinct_ports(mappings: Seq<PortMapping>) -> bool {
    forall|i: int, j: int|
        0 <= i < j < mappings.len() ==> (#[trigger] mappings[i]).port != (
        #[trigger] mappings[j]).port
}

/// Whether no two mappings speak of the same front panel port.
pub fn ports_are_distinct(mappings: &Vec<PortMapping>) -> (r: bool)
    ensures
        r == distinct_ports(mappings@),
{
    let mut j: usize = 0;
    while j < mappings.len()
        invariant
            j <= mappings@.len(),
            forall|a: int, b: int|
                0 <= a < b < j ==> (#[trigger] mappings@[a]).port != (#[trigger] mappings@[b]).port,
        decreases mappings@.len() - j,
    {
        let mut i: usize = 0;
        while i < j
            invariant
                i <= j < mappings@.len(),
                forall|a: int| 0 <= a < i ==> (#[trigger] mappings@[a]).port != mappings@[j as int].port,
            decreases j - i,
        {
            if mappings[i].port == mappings[j].port {
                return false;
            }
            i = i + 1;
        }
        j = j + 1;
    }
    true
}

/// Index of the first mapping at or after `from` with front panel port
/// `port`; the length of the list if there is none.
pub open spec fn first_with_port(mappings: Seq<PortMapping>, port: u32, from: int) -> int
    decreases mappings.len() - from,
{
    if from < 0 || from >= mappings.len() {
        mappings.len() as int
    } else if mappings[from].port == port {
        from
    } else {
        first_with_port(mappings, port, from + 1)
    }
}

/// Index of the first mapping at or after `from` whose send-path
/// recirculation port is `port`; the length of the list if there is none.
pub open spec fn first_with_tx(mappings: Seq<PortMapping>, port: u32, from: int) -> int
    decreases mappings.len() - from,
{
    if from < 0 || from >= mappings.len() {
        mappings.len() as int
    } else if mappings[from].tx_recirculation == port {
        from
    } else {
        first_with_tx(mappings, port, from + 1)
    }
}

/// Index of the first mapping at or after `from` whose receive-path
/// recirculation port is `port`; the length of the list if there is none.
pub open spec fn first_with_rx(mappings: Seq<PortMapping>, port: u32, from: int) -> int
    decreases mappings.len() - from,
{
    if from < 0 || from >= mappings.len() {
        mappings.len() as int
    } else if mappings[from].rx_recirculation == port {
        from
    } else {
        first_with_rx(mappings, port, from + 1)
    }
}

/// `first_with_port` is the least index with that port.
pub proof fn lemma_first_with_port(mappings: Seq<PortMapping>, port: u32, from: int)
    requires
        0 <= from <= mappings.len(),
    ensures
        from <= first_with_port(mappings, port, from) <= mappings.len(),
        first_with_port(mappings, port, from) < mappings.len() ==> mappings[first_with_port(
            mappings,
            port,
            from,
        )].port == port,
        forall|i: int|
            from <= i < first_with_port(mappings, port, from) ==> (#[trigger] mappings[i]).port
                != port,
    decreases mappings.len() - from,
{
    if from < mappings.len() && mappings[from].port != port {
        lemma_first_with_port(mappings, port, from + 1);
    }
}

/// `first_with_tx` is the least index with that send-path port.
pub proof fn lemma_first_with_tx(mappings: Seq<PortMapping>, port: u32, from: int)
    requires
        0 <= from <= mappings.len(),
    ensures
        from <= first_with_tx(mappings, port, from) <= mappings.len(),
        first_with_tx(mappings, port, from) < mappings.len() ==> mappings[first_with_tx(
            mappings,
            port,
            from,
        )].tx_recirculation == port,
        forall|i: int|
            from <= i < first_with_tx(mappings, port, from) ==> (
            #[trigger] mappings[i]).tx_recirculation != port,
    decreases mappings.len() - from,
{
    if from < mappings.len() && mappings[from].tx_recirculation != port {
        lemma_first_with_tx(mappings, port, from + 1);
    }
}

/// `first_with_rx` is the least index with that receive-path port.
pub proof fn lemma_first_with_rx(mappings: Seq<PortMapping>, port: u32, from: int)
    requires
        0 <= from <= mappings.len(),
    ensures
        from <= first_with_rx(mappings, port, from) <= mappings.len(),
        first_with_rx(mappings, port, from) < mappings.len() ==> mappings[first_with_rx(
            mappings,
            port,
            from,
        )].rx_recirculation == port,
        forall|i: int|
            from <= i < first_with_rx(mappings, port, from) ==> (
            #[trigger] mappings[i]).rx_recirculation != port,
    decreases mappings.len() - from,
{
    if from < mappings.len() && mappings[from].rx_recirculation != port {
        lemma_first_with_rx(mappings, port, from + 1);
    }
}

/// Finds the mapping of front panel port `port`.
pub fn find_port(mappings: &Vec<PortMapping>, port: u32) -> (found: Option<usize>)
    ensures
        match found {
            Some(i) => i == first_with_port(mappings@, port, 0) && i < mappings@.len(),
            None => first_with_port(mappings@, port, 0) == mappings@.len(),
        },
{
    let mut i: usize = 0;
    while i < mappings.len()
        invariant
            i <= mappings@.len(),
            first_with_port(mappings@, port, 0) == first_with_port(mappings@, port, i as int),
        decreases mappings@.len() - i,
    {
        if mappings[i].port == port {
            return Some(i);
        }
        i = i + 1;
    }
    None
}

/// Finds the mapping whose send-path recirculation port is `port`.
pub fn find_tx_recirculation(mappings: &Vec<PortMapping>, port: u32) -> (found: Option<usize>)
    ensures
        match found {
            Some(i) => i == first_with_tx(mappings@, port, 0) && i < mappings@.len(),
            None => first_with_tx(mappings@, port, 0) == mappings@.len(),
        },
{
    let mut i: usize = 0;
    while i < mappings.len()
        invariant
            i <= mappings@.len(),
            first_with_tx(mappings@, port, 0) == first_with_tx(mappings@, port, i as int),
        decreases mappings@.len() - i,
    {
        if mappings[i].tx_recirculation == port {
            return Some(i);
        }
        i = i + 1;
    }
    None
}

/// Finds the mapping whose receive-path recirculation port is `port`.
pub fn find_rx_recirculation(mappings: &Vec<PortMapping>, port: u32) -> (found: Option<usize>)
    ensures
        match found {
            Some(i) => i == first_with_rx(mappings@, port, 0) && i < mappings@.len(),
            None => first_with_rx(mappings@, port, 0) == mappings@.len(),
        },
{
    let mut i: usize = 0;
    while i < mappings.len()
        invariant
            i <= mappings@.len(),
            first_with_rx(mappings@, port, 0) == first_with_rx(mappings@, port, i as int),
        decreases mappings@.len() - i,
    {
        if mappings[i].rx_recirculation == port {
            return Some(i);
        }
        i = i + 1;
    }
    None
}

} // verus!
