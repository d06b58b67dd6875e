//! The rules of the table that answers address resolution requests.

use crate::ports::PortMapping;
use vstd::prelude::*;

verus! {

/// One rule of the table: requests that come in on the receive-path
/// recirculation port are answered through the send-path port, if the rule
/// is valid.
#[derive(Clone, Copy, Debug, PartialEq, Eq, Structural)]
pub struct ArpRule {
    /// Receive-path recirculation port that the rule matches.
    pub ingress_port: u32,
    /// Send-path recirculation port through which the answer leaves.
    pub e_port: u32,
    /// Whether requests are answered.
    pub valid: bool,
}

/// The rule of a port.
pub open spec fn arp_rule(mapping: PortMapping, active: bool) -> ArpRule {
    ArpRule {
        ingress_port: mapping.rx_recirculation,
        e_port: mapping.tx_recirculation,
        valid: active,
    }
}

/// Makes the rules of the table that answers address resolution requests.
#[derive(Clone, Copy, Debug, PartialEq, Eq, Structural)]
pub struct Arp {}

impl Arp {
    pub fn new() -> (a: Arp)
        ensures
            a == (Arp {  }),
    {
        Arp {  }
    }

    /// The rules that the table starts with: one for each port, none of
    /// them valid.
    pub fn init(&self, port_mapping: &Vec<PortMapping>) -> (rules: Vec<ArpRule>)
        ensures
            rules@.len() == port_mapping@.len(),
            forall|i: int|
                0 <= i < rules@.len() ==> #[trigger] rules@[i] == arp_rule(port_mapping@[i], false),
    {
        let mut rules: Vec<ArpRule> = Vec::new();
        let mut i: usize = 0;
        while i < port_mapping.len()
            invariant
                i <= port_mapping@.len(),
                rules@.len() == i,
                forall|k: int|
                    0 <= k < i ==> #[trigger] rules@[k] == arp_rule(port_mapping@[k], false),
            decreases port_mapping@.len() - i,
        {
            rules.push(self.modify_arp(&port_mapping[i], false));
            i = i + 1;
        }
        rules
    }

    /// The rule of `port` once it answers requests, or does not.
    pub fn modify_arp(&self, port: &PortMapping, active: bool) -> (rule: ArpRule)
        ensures
            rule == arp_rule(*port, active),
    {
        ArpRule {
            ingress_port: port.rx_recirculation,
            e_port: port.tx_recirculation,
            valid: active,
        }
    }
}

} // verus!
