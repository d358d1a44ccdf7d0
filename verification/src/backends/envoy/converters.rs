//! Values in the form that Envoy takes them.
use vstd::prelude::*;
use crate::backends::envoy::resource_generator::EnvoyListener;
use crate::backends::envoy::resources::{AnyResource, AnyResourceView, Duration, DurationView};
use crate::common::address::{SocketAddress, SocketAddressView};
use crate::common::backend::ServiceTypeConfig;
use crate::common::listener::ProtocolType;
use crate::model::Model;

verus! {

/// Makes messages that carry the URL of their type.
pub struct AnyTypeConverter;

impl AnyTypeConverter {
    /// An encoded message with the URL of its type.
    pub fn from(pair: (String, Vec<u8>)) -> (r: AnyResource)
        ensures
            r.deep_view() == (AnyResourceView {
                type_url: pair.0@,
                value: pair.1.deep_view(),
            }),
    {
        AnyResource { type_url: pair.0, value: pair.1 }
    }
}

/// Makes spans of time.
pub struct DurationConverter;

impl DurationConverter {
    /// The span of so many seconds and nanoseconds.
    pub fn from(val: (u64, u32)) -> (r: Duration)
        requires
            val.0 <= i64::MAX,
            val.1 <= i32::MAX,
        ensures
            r.deep_view() == (DurationView { seconds: val.0 as i64, nanos: val.1 as i32 }),
    {
        Duration { seconds: val.0 as i64, nanos: val.1 as i32 }
    }
}

/// The span of a quarter of a second.
pub open spec fn quarter_second() -> DurationView {
    DurationView { seconds: 0, nanos: 250_000_000 }
}

/// The span of a second.
pub open spec fn one_second() -> DurationView {
    DurationView { seconds: 1, nanos: 0 }
}

/// The number of the transport protocol that the sockets of a listener use: UDP or TCP.
pub fn socket_protocol(protocol: ProtocolType) -> (r: i32)
    ensures
        r == (if protocol == ProtocolType::Udp {
            1i32
        } else {
            0i32
        }),
{
    match protocol {
        ProtocolType::Udp => 1,
        _ => 0,
    }
}

/// Makes addresses of sockets.
pub struct SocketAddressFactory;

impl SocketAddressFactory {
    /// The address of a listener: its port on all interfaces.
    pub fn from(listener: &EnvoyListener) -> (r: SocketAddress)
        requires
            listener.port >= 0,
        ensures
            r.deep_view() == (SocketAddressView {
                address: "0.0.0.0"@,
                port: listener.port as u32,
            }),
    {
        SocketAddress { address: "0.0.0.0".to_owned(), port: listener.port as u32 }
    }

    /// The address of a service.
    pub fn from_backend(backend: &ServiceTypeConfig) -> (r: SocketAddress)
        requires
            backend.effective_port >= 0,
        ensures
            r.deep_view() == (SocketAddressView {
                address: backend.endpoint@,
                port: backend.effective_port as u32,
            }),
    {
        SocketAddress { address: backend.endpoint.dup(), port: backend.effective_port as u32 }
    }

    /// The address of a host at a port.
    pub fn from_address_port(pair: (String, i32)) -> (r: SocketAddress)
        requires
            pair.1 >= 0,
        ensures
            r.deep_view() == (SocketAddressView { address: pair.0@, port: pair.1 as u32 }),
    {
        SocketAddress { address: pair.0, port: pair.1 as u32 }
    }
}

} // verus!
