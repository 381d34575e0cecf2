//! The choice of the endpoint pair.

use ch559::descriptor::{
    discover_endpoints, find_candidate, plan_setup, Configuration, Device, Direction, Endpoint,
    Interface, Setting, Setup, TransferType, PRODUCT_ID, VENDOR_ID,
};
use ch559::Error;

fn endpoint(address: u8, direction: Direction, transfer_type: TransferType) -> Endpoint {
    Endpoint { address, direction, transfer_type }
}

#[test]
fn device_ids() {
    assert_eq!(VENDOR_ID, 0x4348);
    assert_eq!(PRODUCT_ID, 0x55e0);
}

#[test]
fn bulk_pair_is_found() {
    let endpoints = vec![
        endpoint(0x82, Direction::In, TransferType::Bulk),
        endpoint(0x02, Direction::Out, TransferType::Bulk),
    ];
    assert_eq!(discover_endpoints(&endpoints), Ok((0x82, 0x02)));
    let swapped = vec![endpoints[1], endpoints[0]];
    assert_eq!(discover_endpoints(&swapped), Ok((0x82, 0x02)));
}

#[test]
fn first_endpoint_of_each_direction_is_taken() {
    let endpoints = vec![
        endpoint(0x81, Direction::In, TransferType::Bulk),
        endpoint(0x01, Direction::Out, TransferType::Bulk),
        endpoint(0x82, Direction::In, TransferType::Bulk),
        endpoint(0x02, Direction::Out, TransferType::Interrupt),
    ];
    assert_eq!(discover_endpoints(&endpoints), Ok((0x81, 0x01)));
    assert_eq!(find_candidate(&endpoints, Direction::In), Some(endpoints[0]));
    assert_eq!(find_candidate(&endpoints, Direction::Out), Some(endpoints[1]));
}

#[test]
fn candidate_that_is_not_bulk_is_rejected() {
    for other in [TransferType::Control, TransferType::Isochronous, TransferType::Interrupt] {
        let endpoints = vec![
            endpoint(0x81, Direction::In, other),
            endpoint(0x01, Direction::Out, TransferType::Bulk),
        ];
        assert_eq!(discover_endpoints(&endpoints), Err(Error::DetectEp));
        let endpoints = vec![
            endpoint(0x81, Direction::In, TransferType::Bulk),
            endpoint(0x01, Direction::Out, other),
        ];
        assert_eq!(discover_endpoints(&endpoints), Err(Error::DetectEp));
        // A bulk endpoint behind the candidate does not help.
        let endpoints = vec![
            endpoint(0x81, Direction::In, other),
            endpoint(0x82, Direction::In, TransferType::Bulk),
            endpoint(0x01, Direction::Out, TransferType::Bulk),
        ];
        assert_eq!(discover_endpoints(&endpoints), Err(Error::DetectEp));
    }
}

#[test]
fn missing_direction_is_rejected() {
    assert_eq!(discover_endpoints(&vec![]), Err(Error::DetectEp));
    let only_in = vec![endpoint(0x81, Direction::In, TransferType::Bulk)];
    assert_eq!(discover_endpoints(&only_in), Err(Error::DetectEp));
    assert_eq!(find_candidate(&only_in, Direction::Out), None);
    let only_out = vec![endpoint(0x01, Direction::Out, TransferType::Bulk)];
    assert_eq!(discover_endpoints(&only_out), Err(Error::DetectEp));
}

#[test]
fn set_up_takes_the_first_interface_and_setting() {
    let first = Setting {
        endpoints: vec![
            endpoint(0x82, Direction::In, TransferType::Bulk),
            endpoint(0x02, Direction::Out, TransferType::Bulk),
        ],
    };
    let second = Setting {
        endpoints: vec![
            endpoint(0x83, Direction::In, TransferType::Bulk),
            endpoint(0x03, Direction::Out, TransferType::Bulk),
        ],
    };
    let device = Device {
        configuration: Some(Configuration {
            number: 3,
            interfaces: vec![
                Interface { number: 5, settings: vec![first.clone(), second.clone()] },
                Interface { number: 6, settings: vec![second] },
            ],
        }),
    };
    assert_eq!(
        plan_setup(&device),
        Ok(Setup { configuration: 3, interface: 5, ep_in: 0x82, ep_out: 0x02 })
    );
}

#[test]
fn set_up_fails_in_order() {
    assert_eq!(plan_setup(&Device { configuration: None }), Err(Error::CheckConfiguration));
    let no_interface =
        Device { configuration: Some(Configuration { number: 1, interfaces: vec![] }) };
    assert_eq!(plan_setup(&no_interface), Err(Error::CheckInterface));
    let no_setting = Device {
        configuration: Some(Configuration {
            number: 1,
            interfaces: vec![Interface { number: 0, settings: vec![] }],
        }),
    };
    assert_eq!(plan_setup(&no_setting), Err(Error::CheckInterface));
    let no_endpoint = Device {
        configuration: Some(Configuration {
            number: 1,
            interfaces: vec![Interface {
                number: 0,
                settings: vec![Setting { endpoints: vec![] }],
            }],
        }),
    };
    assert_eq!(plan_setup(&no_endpoint), Err(Error::DetectEp));
}
