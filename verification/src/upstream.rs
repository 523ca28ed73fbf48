//! The boundary to the resolver crate: the configuration that a resolver
//! handle stands for, and the plain form of what a lookup returned.

use crate::address::IpAddress;
use crate::endpoint::{NameserverEndpoint, Transport};
use crate::lookup::{ReplyView, UpstreamError, UpstreamReply};
use crate::registry::ResolverHandle;
use hickory_resolver::config::{NameServerConfig, ResolverConfig};
use hickory_resolver::lookup::Lookup;
use hickory_resolver::proto::xfer::Protocol;
use hickory_resolver::proto::ProtoErrorKind;
use hickory_resolver::ResolveError;
use vstd::prelude::*;

verus! {

/// `hickory_resolver::config::ResolverConfig`, carried as it is.
#[verifier::external_type_specification]
#[verifier::external_body]
pub struct ExResolverConfig(ResolverConfig);

/// `hickory_resolver::lookup::Lookup`, carried as it is.
#[verifier::external_type_specification]
#[verifier::external_body]
pub struct ExLookup(Lookup);

/// `hickory_resolver::ResolveError`, carried as it is.
#[verifier::external_type_specification]
#[verifier::external_body]
pub struct ExResolveError(ResolveError);

/// The nameservers that a resolver configuration holds, in its order, each
/// by address, port and transport.
pub uninterp spec fn config_servers(config: ResolverConfig) -> Seq<NameserverEndpoint>;

/// The type codes of the records that a lookup holds, in its order.
pub uninterp spec fn lookup_record_types(lookup: Lookup) -> Seq<u16>;

/// `ResolverConfig::new`: a configuration without nameservers.
#[verifier::external_body]
fn empty_config() -> (config: ResolverConfig)
    ensures
        config_servers(config) == Seq::<NameserverEndpoint>::empty(),
{
    ResolverConfig::new()
}

/// `ResolverConfig::add_name_server` on `NameServerConfig::new`: the server
/// with the address, port and transport of `endpoint` is put at the end of
/// the list; nothing else in the list changes.
#[verifier::external_body]
fn add_server(config: &mut ResolverConfig, endpoint: &NameserverEndpoint)
    ensures
        config_servers(*final(config)) == config_servers(*old(config)).push(*endpoint),
{
    let protocol = match endpoint.transport {
        Transport::Udp => Protocol::Udp,
        Transport::Tcp => Protocol::Tcp,
        Transport::Tls => Protocol::Tls,
        Transport::Https => Protocol::Https,
    };
    let address = match endpoint.address {
        IpAddress::V4(bits) => (bits.to_be_bytes(), endpoint.port).into(),
        IpAddress::V6(bits) => (bits.to_be_bytes(), endpoint.port).into(),
    };
    config.add_name_server(NameServerConfig::new(address, protocol));
}

/// `Lookup::record_iter` with `Record::record_type`: the type code of each
/// record of the lookup.
#[verifier::external_body]
fn record_types(lookup: &Lookup) -> (types: Vec<u16>)
    ensures
        types@ == lookup_record_types(*lookup),
{
    lookup.record_iter().map(|record| u16::from(record.record_type())).collect()
}

/// `ResolveError::proto` with `ProtoError::kind`: which kind of error the
/// resolver returned. Nothing is claimed of the result.
#[verifier::external_body]
fn error_kind(error: &ResolveError) -> (kind: UpstreamError) {
    match error.proto().map(|proto| proto.kind()) {
        Some(ProtoErrorKind::NoRecordsFound { response_code, .. }) => UpstreamError::NoRecords {
            response_code: u16::from(*response_code),
        },
        Some(ProtoErrorKind::Timeout) => UpstreamError::Timeout,
        Some(ProtoErrorKind::RequestRefused) => UpstreamError::Refused,
        _ => UpstreamError::Other,
    }
}

/// The resolver configuration that a handle stands for: its nameservers, in
/// its order.
pub fn resolver_config(handle: &ResolverHandle) -> (config: ResolverConfig)
    ensures
        config_servers(config) == handle.servers(),
{
    let endpoints = handle.endpoints();
    let mut config = empty_config();
    let mut i: usize = 0;
    while i < endpoints.len()
        invariant
            i <= endpoints.len(),
            config_servers(config) == endpoints@.take(i as int),
        decreases endpoints.len() - i,
    {
        add_server(&mut config, &endpoints[i]);
        proof {
            assert(endpoints@.take(i + 1) =~= endpoints@.take(i as int).push(endpoints@[i as int]));
        }
        i += 1;
    }
    proof {
        assert(endpoints@.take(endpoints@.len() as int) =~= endpoints@);
    }
    config
}

/// The plain form of what a lookup returned: the record types of a result,
/// or the reply that the error stands for.
pub fn reply_of(result: &Result<Lookup, ResolveError>) -> (reply: UpstreamReply)
    ensures
        result is Ok ==> reply@ == ReplyView::Records(lookup_record_types(result->Ok_0)),
        result is Err ==> !(reply@ is Records),
{
    match result {
        Ok(lookup) => UpstreamReply::Records(record_types(lookup)),
        Err(error) => UpstreamReply::from_error(error_kind(error)),
    }
}

} // verus!
