//! The keys of processes and of port bindings, and their orders.

use vstd::prelude::*;

use crate::collection::EntityKey;
use crate::run::{optional_key, KeyView, ProcessInstanceKey};
use crate::text::{
    lemma_text_order_is_total, lemma_text_order_is_transitive, same_text, text_before, text_less,
};

verus! {

/// The order of process identities: by boot, then by number, then by start.
pub open spec fn key_before(a: KeyView, b: KeyView) -> bool {
    text_before(a.boot_id, b.boot_id) || (a.boot_id == b.boot_id && (a.pid < b.pid || (a.pid
        == b.pid && a.native_start_time < b.native_start_time)))
}

proof fn lemma_key_order_is_total(a: KeyView, b: KeyView)
    ensures
        a == b <==> !key_before(a, b) && !key_before(b, a),
        !(key_before(a, b) && key_before(b, a)),
{
    lemma_text_order_is_total(a.boot_id, b.boot_id);
}

proof fn lemma_key_order_is_transitive(a: KeyView, b: KeyView, c: KeyView)
    requires
        key_before(a, b),
        key_before(b, c),
    ensures
        key_before(a, c),
{
    if text_before(a.boot_id, b.boot_id) && text_before(b.boot_id, c.boot_id) {
        lemma_text_order_is_transitive(a.boot_id, b.boot_id, c.boot_id);
    }
}

pub fn compare_process_keys(left: &ProcessInstanceKey, right: &ProcessInstanceKey) -> (before: bool)
    ensures
        before == key_before(left@, right@),
{
    if text_less(left.boot_id.as_str(), right.boot_id.as_str()) {
        return true;
    }
    same_text(left.boot_id.as_str(), right.boot_id.as_str()) && (left.pid < right.pid || (left.pid
        == right.pid && left.native_start_time < right.native_start_time))
}

impl EntityKey for ProcessInstanceKey {
    type V = KeyView;

    open spec fn key(&self) -> KeyView {
        self@
    }

    open spec fn before(a: KeyView, b: KeyView) -> bool {
        key_before(a, b)
    }

    proof fn lemma_total(a: KeyView, b: KeyView) {
        lemma_key_order_is_total(a, b);
    }

    proof fn lemma_transitive(a: KeyView, b: KeyView, c: KeyView) {
        lemma_key_order_is_transitive(a, b, c);
    }

    fn is_before(&self, other: &Self) -> (before: bool) {
        compare_process_keys(self, other)
    }

    fn is_same(&self, other: &Self) -> (same: bool) {
        self.same(other)
    }

    fn copy(&self) -> (copy: Self) {
        ProcessInstanceKey {
            boot_id: self.boot_id.clone(),
            pid: self.pid,
            native_start_time: self.native_start_time,
        }
    }
}

#[derive(Clone, Copy, Debug, PartialEq, Eq, Structural)]
pub enum PortProtocol {
    Tcp,
    Udp,
}

#[derive(Clone, Copy, Debug, PartialEq, Eq, Structural)]
pub enum AddressFamily {
    Ipv4,
    Ipv6,
}

/// The identity of a port binding: where it listens, and whose it is.
#[derive(Debug)]
pub struct PortBindingKey {
    pub protocol: PortProtocol,
    pub address_family: AddressFamily,
    pub local_address: String,
    pub local_port: u16,
    pub process_instance_key: Option<ProcessInstanceKey>,
}

/// What the identity of a port binding says.
pub struct PortKeyView {
    pub protocol: PortProtocol,
    pub address_family: AddressFamily,
    pub local_address: Seq<char>,
    pub local_port: u16,
    pub process: Option<KeyView>,
}

impl View for PortBindingKey {
    type V = PortKeyView;

    open spec fn view(&self) -> PortKeyView {
        PortKeyView {
            protocol: self.protocol,
            address_family: self.address_family,
            local_address: self.local_address@,
            local_port: self.local_port,
            process: optional_key(self.process_instance_key),
        }
    }
}

pub open spec fn protocol_rank(protocol: PortProtocol) -> u8 {
    match protocol {
        PortProtocol::Tcp => 0,
        PortProtocol::Udp => 1,
    }
}

pub fn port_protocol_rank(protocol: PortProtocol) -> (rank: u8)
    ensures
        rank == protocol_rank(protocol),
{
    match protocol {
        PortProtocol::Tcp => 0,
        PortProtocol::Udp => 1,
    }
}

pub open spec fn family_rank(family: AddressFamily) -> u8 {
    match family {
        AddressFamily::Ipv4 => 0,
        AddressFamily::Ipv6 => 1,
    }
}

pub fn address_family_rank(family: AddressFamily) -> (rank: u8)
    ensures
        rank == family_rank(family),
{
    match family {
        AddressFamily::Ipv4 => 0,
        AddressFamily::Ipv6 => 1,
    }
}

/// The order of optional process identities: none stands first.
pub open spec fn optional_key_before(a: Option<KeyView>, b: Option<KeyView>) -> bool {
    match (a, b) {
        (None, Some(_)) => true,
        (Some(a), Some(b)) => key_before(a, b),
        _ => false,
    }
}

pub fn compare_optional_process_keys(
    left: &Option<ProcessInstanceKey>,
    right: &Option<ProcessInstanceKey>,
) -> (before: bool)
    ensures
        before == optional_key_before(optional_key(*left), optional_key(*right)),
{
    match (left, right) {
        (None, Some(_)) => true,
        (Some(left), Some(right)) => compare_process_keys(left, right),
        _ => false,
    }
}

/// The order of port bindings: by protocol, address family, address, port and
/// process.
pub open spec fn port_before(a: PortKeyView, b: PortKeyView) -> bool {
    protocol_rank(a.protocol) < protocol_rank(b.protocol) || (a.protocol == b.protocol && (
    family_rank(a.address_family) < family_rank(b.address_family) || (a.address_family
        == b.address_family && (text_before(a.local_address, b.local_address) || (a.local_address
        == b.local_address && (a.local_port < b.local_port || (a.local_port == b.local_port
        && optional_key_before(a.process, b.process))))))))
}

proof fn lemma_port_order_is_total(a: PortKeyView, b: PortKeyView)
    ensures
        a == b <==> !port_before(a, b) && !port_before(b, a),
        !(port_before(a, b) && port_before(b, a)),
{
    lemma_text_order_is_total(a.local_address, b.local_address);
    if let (Some(x), Some(y)) = (a.process, b.process) {
        lemma_key_order_is_total(x, y);
    }
}

proof fn lemma_port_order_is_transitive(a: PortKeyView, b: PortKeyView, c: PortKeyView)
    requires
        port_before(a, b),
        port_before(b, c),
    ensures
        port_before(a, c),
{
    if text_before(a.local_address, b.local_address) && text_before(
        b.local_address,
        c.local_address,
    ) {
        lemma_text_order_is_transitive(a.local_address, b.local_address, c.local_address);
    }
    if let (Some(x), Some(y), Some(z)) = (a.process, b.process, c.process) {
        if key_before(x, y) && key_before(y, z) {
            lemma_key_order_is_transitive(x, y, z);
        }
    }
}

pub fn compare_port_bindings(left: &PortBindingKey, right: &PortBindingKey) -> (before: bool)
    ensures
        before == port_before(left@, right@),
{
    let left_protocol: u8 = port_protocol_rank(left.protocol);
    let right_protocol: u8 = port_protocol_rank(right.protocol);
    if left_protocol != right_protocol {
        return left_protocol < right_protocol;
    }
    let left_family: u8 = address_family_rank(left.address_family);
    let right_family: u8 = address_family_rank(right.address_family);
    if left_family != right_family {
        return left_family < right_family;
    }
    proof {
        lemma_text_order_is_total(left.local_address@, right.local_address@);
    }
    if !same_text(left.local_address.as_str(), right.local_address.as_str()) {
        return text_less(left.local_address.as_str(), right.local_address.as_str());
    }
    if left.local_port != right.local_port {
        return left.local_port < right.local_port;
    }
    compare_optional_process_keys(&left.process_instance_key, &right.process_instance_key)
}

impl EntityKey for PortBindingKey {
    type V = PortKeyView;

    open spec fn key(&self) -> PortKeyView {
        self@
    }

    open spec fn before(a: PortKeyView, b: PortKeyView) -> bool {
        port_before(a, b)
    }

    proof fn lemma_total(a: PortKeyView, b: PortKeyView) {
        lemma_port_order_is_total(a, b);
    }

    proof fn lemma_transitive(a: PortKeyView, b: PortKeyView, c: PortKeyView) {
        lemma_port_order_is_transitive(a, b, c);
    }

    fn is_before(&self, other: &Self) -> (before: bool) {
        compare_port_bindings(self, other)
    }

    fn is_same(&self, other: &Self) -> (same: bool) {
        self.protocol == other.protocol && self.address_family == other.address_family
            && self.local_port == other.local_port && same_text(
            self.local_address.as_str(),
            other.local_address.as_str(),
        ) && crate::run::same_keys(&self.process_instance_key, &other.process_instance_key)
    }

    fn copy(&self) -> (copy: Self) {
        PortBindingKey {
            protocol: self.protocol,
            address_family: self.address_family,
            local_address: self.local_address.clone(),
            local_port: self.local_port,
            process_instance_key: crate::run::copy_key(&self.process_instance_key),
        }
    }
}

} // verus!
