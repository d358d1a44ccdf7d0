//! Hosts and addresses.
use vstd::prelude::*;
use crate::model::Model;
use crate::order::{Linear, Rank, Ranked, int_rank, rank_laws, seq_rank, text_rank};

verus! {

/// A host as it is written, with the octets of the IP address that it spells where it spells one.
#[derive(Debug, PartialEq, Eq, PartialOrd, Ord, Hash)]
pub struct HostText {
    pub text: String,
    pub octets: Option<Vec<u8>>,
}

/// What a [`HostText`] holds.
#[verifier::ext_equal]
pub struct HostTextView {
    pub text: Seq<char>,
    pub octets: Option<Seq<u8>>,
}

impl DeepView for HostText {
    type V = HostTextView;

    open spec fn deep_view(&self) -> HostTextView {
        HostTextView {
            text: self.text.deep_view(),
            octets: self.octets.deep_view(),
        }
    }
}

impl Model for HostText {
    fn dup(&self) -> (r: Self) {
        HostText {
            text: self.text.dup(),
            octets: self.octets.dup(),
        }
    }

    fn same(&self, other: &Self) -> (r: bool) {
        self.text.same(&other.text)
            && self.octets.same(&other.octets)
    }
}

/// An address of a gateway. An IP address is held as its octets: four, or sixteen.
#[derive(Debug, PartialEq, Eq, PartialOrd, Ord)]
pub enum GatewayAddress {
    Hostname(String),
    IPAddress(Vec<u8>),
    NamedAddress(String),
}

/// What a [`GatewayAddress`] holds.
#[verifier::ext_equal]
pub enum GatewayAddressView {
    Hostname(Seq<char>),
    IPAddress(Seq<u8>),
    NamedAddress(Seq<char>),
}

impl DeepView for GatewayAddress {
    type V = GatewayAddressView;

    open spec fn deep_view(&self) -> GatewayAddressView {
        match self {
            GatewayAddress::Hostname(x0) => GatewayAddressView::Hostname(x0.deep_view()),
            GatewayAddress::IPAddress(x0) => GatewayAddressView::IPAddress(x0.deep_view()),
            GatewayAddress::NamedAddress(x0) => GatewayAddressView::NamedAddress(x0.deep_view()),
        }
    }
}

impl Model for GatewayAddress {
    fn dup(&self) -> (r: Self) {
        match self {
            GatewayAddress::Hostname(x0) => GatewayAddress::Hostname(x0.dup()),
            GatewayAddress::IPAddress(x0) => GatewayAddress::IPAddress(x0.dup()),
            GatewayAddress::NamedAddress(x0) => GatewayAddress::NamedAddress(x0.dup()),
        }
    }

    fn same(&self, other: &Self) -> (r: bool) {
        match (self, other) {
            (GatewayAddress::Hostname(x0), GatewayAddress::Hostname(x0_)) => x0.same(x0_),
            (GatewayAddress::IPAddress(x0), GatewayAddress::IPAddress(x0_)) => x0.same(x0_),
            (GatewayAddress::NamedAddress(x0), GatewayAddress::NamedAddress(x0_)) => x0.same(x0_),
            _ => false,
        }
    }
}

impl GatewayAddressView {
    /// The place of the kind of address among the kinds.
    pub open spec fn place(self) -> int {
        match self {
            GatewayAddressView::Hostname(_) => 0,
            GatewayAddressView::IPAddress(_) => 1,
            GatewayAddressView::NamedAddress(_) => 2,
        }
    }
}

/// How two IP addresses stand to each other: those with fewer octets first, else octet by octet.
pub open spec fn octets_rank(a: Seq<u8>, b: Seq<u8>) -> Rank {
    int_rank(a.len() as int, b.len() as int).or(seq_rank::<u8>(a, b))
}

impl Ranked for GatewayAddress {
    open spec fn rank(a: GatewayAddressView, b: GatewayAddressView) -> Rank {
        match (a, b) {
            (GatewayAddressView::Hostname(x), GatewayAddressView::Hostname(y)) => text_rank(x, y),
            (GatewayAddressView::IPAddress(x), GatewayAddressView::IPAddress(y)) => octets_rank(x, y),
            (GatewayAddressView::NamedAddress(x), GatewayAddressView::NamedAddress(y)) => text_rank(
                x,
                y,
            ),
            _ => int_rank(a.place(), b.place()),
        }
    }

    proof fn rank_reflexive(a: GatewayAddressView) {
        match a {
            GatewayAddressView::Hostname(x) => <String as Ranked>::rank_reflexive(x),
            GatewayAddressView::IPAddress(x) => <Vec<u8> as Ranked>::rank_reflexive(x),
            GatewayAddressView::NamedAddress(x) => <String as Ranked>::rank_reflexive(x),
        }
    }

    proof fn rank_flips(a: GatewayAddressView, b: GatewayAddressView) {
        match (a, b) {
            (GatewayAddressView::Hostname(x), GatewayAddressView::Hostname(y)) => {
                <String as Ranked>::rank_flips(x, y)
            },
            (GatewayAddressView::IPAddress(x), GatewayAddressView::IPAddress(y)) => {
                <Vec<u8> as Ranked>::rank_flips(x, y)
            },
            (GatewayAddressView::NamedAddress(x), GatewayAddressView::NamedAddress(y)) => {
                <String as Ranked>::rank_flips(x, y)
            },
            _ => {},
        }
    }

    proof fn rank_chains(a: GatewayAddressView, b: GatewayAddressView, c: GatewayAddressView) {
        match (a, b, c) {
            (
                GatewayAddressView::Hostname(x),
                GatewayAddressView::Hostname(y),
                GatewayAddressView::Hostname(z),
            ) => <String as Ranked>::rank_chains(x, y, z),
            (
                GatewayAddressView::IPAddress(x),
                GatewayAddressView::IPAddress(y),
                GatewayAddressView::IPAddress(z),
            ) => rank_laws::<Vec<u8>>(x, y, z),
            (
                GatewayAddressView::NamedAddress(x),
                GatewayAddressView::NamedAddress(y),
                GatewayAddressView::NamedAddress(z),
            ) => <String as Ranked>::rank_chains(x, y, z),
            _ => {},
        }
    }

    fn against(&self, other: &Self) -> (r: Rank) {
        match (self, other) {
            (GatewayAddress::Hostname(x), GatewayAddress::Hostname(y)) => x.against(y),
            (GatewayAddress::IPAddress(x), GatewayAddress::IPAddress(y)) => {
                if x.len() < y.len() {
                    Rank::Less
                } else if x.len() > y.len() {
                    Rank::Greater
                } else {
                    x.against(y)
                }
            },
            (GatewayAddress::NamedAddress(x), GatewayAddress::NamedAddress(y)) => x.against(y),
            (GatewayAddress::Hostname(_), _) => Rank::Less,
            (_, GatewayAddress::Hostname(_)) => Rank::Greater,
            (GatewayAddress::IPAddress(_), _) => Rank::Less,
            (_, GatewayAddress::IPAddress(_)) => Rank::Greater,
        }
    }
}

impl Linear for GatewayAddress {
    proof fn rank_separates(a: GatewayAddressView, b: GatewayAddressView) {
        match (a, b) {
            (GatewayAddressView::Hostname(x), GatewayAddressView::Hostname(y)) => {
                <String as Linear>::rank_separates(x, y)
            },
            (GatewayAddressView::IPAddress(x), GatewayAddressView::IPAddress(y)) => {
                <Vec<u8> as Linear>::rank_separates(x, y)
            },
            (GatewayAddressView::NamedAddress(x), GatewayAddressView::NamedAddress(y)) => {
                <String as Linear>::rank_separates(x, y)
            },
            _ => {},
        }
    }
}

/// A label of an object.
#[derive(Debug, PartialEq, Eq)]
pub struct Label {
    pub label: String,
    pub value: String,
}

/// What a [`Label`] holds.
#[verifier::ext_equal]
pub struct LabelView {
    pub label: Seq<char>,
    pub value: Seq<char>,
}

impl DeepView for Label {
    type V = LabelView;

    open spec fn deep_view(&self) -> LabelView {
        LabelView {
            label: self.label.deep_view(),
            value: self.value.deep_view(),
        }
    }
}

impl Model for Label {
    fn dup(&self) -> (r: Self) {
        Label {
            label: self.label.dup(),
            value: self.value.dup(),
        }
    }

    fn same(&self, other: &Self) -> (r: bool) {
        self.label.same(&other.label)
            && self.value.same(&other.value)
    }
}

/// An annotation of an object.
#[derive(Debug, PartialEq, Eq)]
pub struct Annotation {
    pub label: String,
    pub value: String,
}

/// What a [`Annotation`] holds.
#[verifier::ext_equal]
pub struct AnnotationView {
    pub label: Seq<char>,
    pub value: Seq<char>,
}

impl DeepView for Annotation {
    type V = AnnotationView;

    open spec fn deep_view(&self) -> AnnotationView {
        AnnotationView {
            label: self.label.deep_view(),
            value: self.value.deep_view(),
        }
    }
}

impl Model for Annotation {
    fn dup(&self) -> (r: Self) {
        Annotation {
            label: self.label.dup(),
            value: self.value.dup(),
        }
    }

    fn same(&self, other: &Self) -> (r: bool) {
        self.label.same(&other.label)
            && self.value.same(&other.value)
    }
}

/// What is known of a gateway that was deployed.
#[derive(Debug, PartialEq, Eq)]
pub struct DeployedGatewayStatus {
    pub id: u128,
    pub name: String,
    pub namespace: String,
    pub attached_addresses: Vec<String>,
}

/// What a [`DeployedGatewayStatus`] holds.
#[verifier::ext_equal]
pub struct DeployedGatewayStatusView {
    pub id: u128,
    pub name: Seq<char>,
    pub namespace: Seq<char>,
    pub attached_addresses: Seq<Seq<char>>,
}

impl DeepView for DeployedGatewayStatus {
    type V = DeployedGatewayStatusView;

    open spec fn deep_view(&self) -> DeployedGatewayStatusView {
        DeployedGatewayStatusView {
            id: self.id.deep_view(),
            name: self.name.deep_view(),
            namespace: self.namespace.deep_view(),
            attached_addresses: self.attached_addresses.deep_view(),
        }
    }
}

impl Model for DeployedGatewayStatus {
    fn dup(&self) -> (r: Self) {
        DeployedGatewayStatus {
            id: self.id.dup(),
            name: self.name.dup(),
            namespace: self.namespace.dup(),
            attached_addresses: self.attached_addresses.dup(),
        }
    }

    fn same(&self, other: &Self) -> (r: bool) {
        self.id.same(&other.id)
            && self.name.same(&other.name)
            && self.namespace.same(&other.namespace)
            && self.attached_addresses.same(&other.attached_addresses)
    }
}

/// Where the control plane is reached and where it listens.
#[derive(Debug, PartialEq, Eq)]
pub struct ControlPlaneConfig {
    pub host: String,
    pub port: u32,
    pub controller_name: String,
    pub listening_socket: SocketAddress,
}

/// What a [`ControlPlaneConfig`] holds.
#[verifier::ext_equal]
pub struct ControlPlaneConfigView {
    pub host: Seq<char>,
    pub port: u32,
    pub controller_name: Seq<char>,
    pub listening_socket: SocketAddressView,
}

impl DeepView for ControlPlaneConfig {
    type V = ControlPlaneConfigView;

    open spec fn deep_view(&self) -> ControlPlaneConfigView {
        ControlPlaneConfigView {
            host: self.host.deep_view(),
            port: self.port.deep_view(),
            controller_name: self.controller_name.deep_view(),
            listening_socket: self.listening_socket.deep_view(),
        }
    }
}

impl Model for ControlPlaneConfig {
    fn dup(&self) -> (r: Self) {
        ControlPlaneConfig {
            host: self.host.dup(),
            port: self.port.dup(),
            controller_name: self.controller_name.dup(),
            listening_socket: self.listening_socket.dup(),
        }
    }

    fn same(&self, other: &Self) -> (r: bool) {
        self.host.same(&other.host)
            && self.port.same(&other.port)
            && self.controller_name.same(&other.controller_name)
            && self.listening_socket.same(&other.listening_socket)
    }
}

/// The address and the port of a socket.
#[derive(Debug, PartialEq, Eq)]
pub struct SocketAddress {
    pub address: String,
    pub port: u32,
}

/// What a [`SocketAddress`] holds.
#[verifier::ext_equal]
pub struct SocketAddressView {
    pub address: Seq<char>,
    pub port: u32,
}

impl DeepView for SocketAddress {
    type V = SocketAddressView;

    open spec fn deep_view(&self) -> SocketAddressView {
        SocketAddressView {
            address: self.address.deep_view(),
            port: self.port.deep_view(),
        }
    }
}

impl Model for SocketAddress {
    fn dup(&self) -> (r: Self) {
        SocketAddress {
            address: self.address.dup(),
            port: self.port.dup(),
        }
    }

    fn same(&self, other: &Self) -> (r: bool) {
        self.address.same(&other.address)
            && self.port.same(&other.port)
    }
}

impl ControlPlaneConfig {
    /// Where the control plane listens.
    pub fn addr(&self) -> (r: SocketAddress)
        ensures
            r.deep_view() == self.deep_view().listening_socket,
    {
        self.listening_socket.dup()
    }
}

/// Hostnames come before IP addresses and those before named addresses. Two of one kind stand in their
/// own order, where an IP address of fewer octets comes first.
pub proof fn law_addresses_in_order(a: GatewayAddressView, b: GatewayAddressView)
    ensures
        a is Hostname && !(b is Hostname) ==> <GatewayAddress as Ranked>::rank(a, b) == Rank::Less,
        a is IPAddress && b is NamedAddress ==> <GatewayAddress as Ranked>::rank(a, b) == Rank::Less,
        a is IPAddress && b is IPAddress && a->IPAddress_0.len() < b->IPAddress_0.len()
            ==> <GatewayAddress as Ranked>::rank(a, b) == Rank::Less,
        a is IPAddress && b is IPAddress && a->IPAddress_0.len() == b->IPAddress_0.len()
            && seq_rank::<u8>(a->IPAddress_0, b->IPAddress_0) == Rank::Less
            ==> <GatewayAddress as Ranked>::rank(a, b) == Rank::Less,
        a is Hostname && b is Hostname && text_rank(a->Hostname_0, b->Hostname_0) == Rank::Less
            ==> <GatewayAddress as Ranked>::rank(a, b) == Rank::Less,
        a is NamedAddress && b is NamedAddress && text_rank(a->NamedAddress_0, b->NamedAddress_0)
            == Rank::Less ==> <GatewayAddress as Ranked>::rank(a, b) == Rank::Less,
{
}

} // verus!
