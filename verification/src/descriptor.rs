//! What a device reports of itself, as plain values, and the choice of the
//! two bulk endpoints the protocol runs over.

use vstd::prelude::*;
use crate::error::Error;

verus! {

/// USB vendor id of the boot loader.
pub const VENDOR_ID: u16 = 0x4348;

/// USB product id of the boot loader.
pub const PRODUCT_ID: u16 = 0x55e0;

/// Direction of an endpoint, seen from the host.
#[derive(Debug, Clone, Copy, PartialEq, Eq)]
pub enum Direction {
    /// Device to host.
    In,
    /// Host to device.
    Out,
}

/// Transfer type of an endpoint.
#[derive(Debug, Clone, Copy, PartialEq, Eq)]
pub enum TransferType {
    Control,
    Isochronous,
    Bulk,
    Interrupt,
}

/// One endpoint descriptor.
#[derive(Debug, Clone, Copy, PartialEq, Eq)]
pub struct Endpoint {
    pub address: u8,
    pub direction: Direction,
    pub transfer_type: TransferType,
}

/// One alternate setting of an interface.
#[derive(Debug, Clone, PartialEq, Eq)]
pub struct Setting {
    pub endpoints: Vec<Endpoint>,
}

/// One interface with its alternate settings, in descriptor order.
#[derive(Debug, Clone, PartialEq, Eq)]
pub struct Interface {
    pub number: u8,
    pub settings: Vec<Setting>,
}

/// The active configuration with its interfaces, in descriptor order.
#[derive(Debug, Clone, PartialEq, Eq)]
pub struct Configuration {
    pub number: u8,
    pub interfaces: Vec<Interface>,
}

/// An opened device: its configuration descriptor, if it could be read.
#[derive(Debug, Clone, PartialEq, Eq)]
pub struct Device {
    pub configuration: Option<Configuration>,
}

/// What set-up needs to know of a device: the configuration to activate, the
/// interface to claim and the two endpoints to talk over.
#[derive(Debug, Clone, Copy, PartialEq, Eq)]
pub struct Setup {
    pub configuration: u8,
    pub interface: u8,
    pub ep_in: u8,
    pub ep_out: u8,
}

/// The first endpoint of `endpoints` that has the given direction.
pub open spec fn candidate(endpoints: Seq<Endpoint>, direction: Direction) -> Option<Endpoint>
    decreases endpoints.len(),
{
    if endpoints.len() == 0 {
        None
    } else if candidate(endpoints.drop_last(), direction) is Some {
        candidate(endpoints.drop_last(), direction)
    } else if endpoints.last().direction == direction {
        Some(endpoints.last())
    } else {
        None
    }
}

/// The endpoint pair of a setting: the addresses of its first IN and its
/// first OUT endpoint, provided both exist and both are bulk endpoints.
pub open spec fn endpoint_pair(endpoints: Seq<Endpoint>) -> Result<(u8, u8), Error> {
    match (candidate(endpoints, Direction::In), candidate(endpoints, Direction::Out)) {
        (Some(ep_in), Some(ep_out)) => if ep_in.transfer_type == TransferType::Bulk
            && ep_out.transfer_type == TransferType::Bulk {
            Ok((ep_in.address, ep_out.address))
        } else {
            Err(Error::DetectEp)
        },
        _ => Err(Error::DetectEp),
    }
}

/// What set-up takes from an opened device: the number of its configuration,
/// the number of that configuration's first interface, and the endpoint pair
/// of that interface's first setting.
pub open spec fn setup_of(device: Device) -> Result<Setup, Error> {
    match device.configuration {
        None => Err(Error::CheckConfiguration),
        Some(configuration) => if configuration.interfaces@.len() == 0
            || configuration.interfaces@[0].settings@.len() == 0 {
            Err(Error::CheckInterface)
        } else {
            match endpoint_pair(configuration.interfaces@[0].settings@[0].endpoints@) {
                Ok(pair) => Ok(
                    Setup {
                        configuration: configuration.number,
                        interface: configuration.interfaces@[0].number,
                        ep_in: pair.0,
                        ep_out: pair.1,
                    },
                ),
                Err(e) => Err(e),
            }
        },
    }
}

/// `candidate` picks the endpoint at the least index that has the direction,
/// and finds none only where no endpoint has it.
pub proof fn lemma_candidate_is_first(endpoints: Seq<Endpoint>, direction: Direction)
    ensures
        match candidate(endpoints, direction) {
            Some(found) => exists|i: int|
                0 <= i < endpoints.len() && #[trigger] endpoints[i] == found
                    && endpoints[i].direction == direction && forall|k: int|
                    0 <= k < i ==> (#[trigger] endpoints[k]).direction != direction,
            None => forall|k: int|
                0 <= k < endpoints.len() ==> (#[trigger] endpoints[k]).direction != direction,
        },
    decreases endpoints.len(),
{
    if endpoints.len() > 0 {
        let front = endpoints.drop_last();
        lemma_candidate_is_first(front, direction);
        match candidate(front, direction) {
            Some(found) => {
                let i = choose|i: int|
                    0 <= i < front.len() && #[trigger] front[i] == found && front[i].direction
                        == direction && forall|k: int|
                        0 <= k < i ==> (#[trigger] front[k]).direction != direction;
                assert(endpoints[i] == found);
                assert forall|k: int| 0 <= k < i implies (#[trigger] endpoints[k]).direction
                    != direction by {
                    assert(front[k] == endpoints[k]);
                }
            },
            None => {
                assert forall|k: int| 0 <= k < front.len() implies (#[trigger] endpoints[k]).direction
                    != direction by {
                    assert(front[k] == endpoints[k]);
                }
                if endpoints.last().direction == direction {
                    let i = endpoints.len() - 1;
                    assert(endpoints[i] == endpoints.last());
                }
            },
        }
    }
}

/// A setting whose first IN endpoint or whose first OUT endpoint is a
/// control, isochronous or interrupt endpoint is rejected.
pub proof fn lemma_non_bulk_candidate_rejected(endpoints: Seq<Endpoint>, direction: Direction)
    requires
        candidate(endpoints, direction) matches Some(found) && found.transfer_type
            != TransferType::Bulk,
    ensures
        endpoint_pair(endpoints) == Err::<(u8, u8), Error>(Error::DetectEp),
{
}

fn same_direction(a: Direction, b: Direction) -> (same: bool)
    ensures
        same == (a == b),
{
    match (a, b) {
        (Direction::In, Direction::In) => true,
        (Direction::Out, Direction::Out) => true,
        _ => false,
    }
}

fn is_bulk(transfer_type: TransferType) -> (bulk: bool)
    ensures
        bulk == (transfer_type == TransferType::Bulk),
{
    match transfer_type {
        TransferType::Bulk => true,
        _ => false,
    }
}

/// Finds the first endpoint of a setting that has the given direction.
pub fn find_candidate(endpoints: &Vec<Endpoint>, direction: Direction) -> (found: Option<Endpoint>)
    ensures
        found == candidate(endpoints@, direction),
{
    let mut found: Option<Endpoint> = None;
    let mut i: usize = 0;
    while i < endpoints.len()
        invariant
            i <= endpoints.len(),
            found == candidate(endpoints@.take(i as int), direction),
        decreases endpoints.len() - i,
    {
        proof {
            assert(endpoints@.take(i + 1).drop_last() == endpoints@.take(i as int));
            assert(endpoints@.take(i + 1).last() == endpoints@[i as int]);
        }
        if found.is_none() && same_direction(endpoints[i].direction, direction) {
            found = Some(endpoints[i]);
        }
        i += 1;
    }
    proof {
        assert(endpoints@.take(i as int) == endpoints@);
    }
    found
}

/// Chooses the bulk IN and bulk OUT endpoint of a setting.
///
/// The result is the pair of addresses (IN, OUT) exactly when the setting has
/// an endpoint of each direction and the first of each is a bulk endpoint;
/// every other setting is refused with `DetectEp`.
pub fn discover_endpoints(endpoints: &Vec<Endpoint>) -> (pair: Result<(u8, u8), Error>)
    ensures
        pair == endpoint_pair(endpoints@),
{
    let ep_in = find_candidate(endpoints, Direction::In);
    let ep_out = find_candidate(endpoints, Direction::Out);
    match (ep_in, ep_out) {
        (Some(ep_in), Some(ep_out)) => {
            if is_bulk(ep_in.transfer_type) && is_bulk(ep_out.transfer_type) {
                Ok((ep_in.address, ep_out.address))
            } else {
                Err(Error::DetectEp)
            }
        },
        _ => Err(Error::DetectEp),
    }
}

/// Decides how to set up a session on an opened device.
///
/// Fails with `CheckConfiguration` where the device reports no
/// configuration, with `CheckInterface` where the configuration has no
/// interface or its first interface no setting, and with `DetectEp` where the
/// first setting has no usable endpoint pair.
pub fn plan_setup(device: &Device) -> (setup: Result<Setup, Error>)
    ensures
        setup == setup_of(*device),
{
    match &device.configuration {
        None => Err(Error::CheckConfiguration),
        Some(configuration) => {
            if configuration.interfaces.len() == 0 {
                return Err(Error::CheckInterface);
            }
            let interface = &configuration.interfaces[0];
            if interface.settings.len() == 0 {
                return Err(Error::CheckInterface);
            }
            match discover_endpoints(&interface.settings[0].endpoints) {
                Ok(pair) => Ok(
                    Setup {
                        configuration: configuration.number,
                        interface: interface.number,
                        ep_in: pair.0,
                        ep_out: pair.1,
                    },
                ),
                Err(e) => Err(e),
            }
        },
    }
}

} // verus!
