//! The session driven against a simulated boot loader.

use ch559::descriptor::{Configuration, Device, Direction, Endpoint, Interface, Setting, TransferType};
use ch559::image::Source;
use ch559::session::{Action, Ch559, Reply};
use ch559::{Error, UsbError};

const EP_IN: u8 = 0x82;
const EP_OUT: u8 = 0x02;

/// A simulated device: flash memory behind the boot loader's commands.
struct Bench {
    memory: Vec<u8>,
    family: u8,
    identify: Vec<u8>,
    key_echo: u8,
    last: Vec<u8>,
    sent: Vec<Vec<u8>>,
    activations: Vec<u8>,
    claims: Vec<u8>,
    refuse_activate: bool,
    refuse_claim: bool,
    fail_send_at: Option<usize>,
    short_send_at: Option<usize>,
    fail_receive_at: Option<usize>,
    status: u8,
    received: usize,
}

impl Bench {
    fn new() -> Bench {
        let mut identify = vec![0u8; 30];
        identify[19] = 2;
        identify[20] = 4;
        identify[21] = 0;
        identify[22] = 0xf0;
        identify[23] = 0x20;
        identify[24] = 0x03;
        identify[25] = 0x04;
        Bench {
            memory: vec![0xff; 0x10000],
            family: 0x59,
            identify,
            key_echo: 0x59,
            last: Vec::new(),
            sent: Vec::new(),
            activations: Vec::new(),
            claims: Vec::new(),
            refuse_activate: false,
            refuse_claim: false,
            fail_send_at: None,
            short_send_at: None,
            fail_receive_at: None,
            status: 0,
            received: 0,
        }
    }

    fn answer(&mut self, length: usize) -> Vec<u8> {
        let request = self.last.clone();
        let mut answer = vec![0u8; length];
        match request[0] {
            0xa1 => answer[4] = self.family,
            0xa7 => answer = self.identify.clone(),
            0xa3 => answer[4] = self.key_echo,
            0xa4 | 0xa9 => answer[4] = self.status,
            0xab => {
                let offset = request[3] as usize + 256 * request[4] as usize;
                let count = request[7] as usize;
                answer[4] = self.status;
                for i in 0..count {
                    answer[6 + i] = self.memory[0xf000 + offset + i];
                }
            }
            0xa5 | 0xaa | 0xa6 => {
                let address = request[3] as usize + 256 * request[4] as usize;
                let count = request[7] as usize;
                let base = if request[0] == 0xaa { 0xf000 + address } else { address };
                let mut differs = false;
                for i in 0..count {
                    let mut byte = request[8 + i];
                    if i % 8 == 7 {
                        byte ^= self.family;
                    }
                    if request[0] == 0xa6 {
                        differs = differs || self.memory[base + i] != byte;
                    } else {
                        self.memory[base + i] = byte;
                    }
                }
                answer[4] = if differs { 1 } else { self.status };
            }
            _ => answer[4] = 0xff,
        }
        answer
    }

    fn perform(&mut self, action: &Action) -> Reply {
        match action {
            Action::Activate(configuration) => {
                self.activations.push(*configuration);
                if self.refuse_activate {
                    Reply::Failed(UsbError::Busy)
                } else {
                    Reply::Completed
                }
            }
            Action::Claim(interface) => {
                self.claims.push(*interface);
                if self.refuse_claim {
                    Reply::Failed(UsbError::Access)
                } else {
                    Reply::Completed
                }
            }
            Action::Send { endpoint, data } => {
                assert_eq!(*endpoint, EP_OUT);
                let index = self.sent.len();
                self.sent.push(data.clone());
                self.last = data.clone();
                if self.fail_send_at == Some(index) {
                    Reply::Failed(UsbError::Pipe)
                } else if self.short_send_at == Some(index) {
                    Reply::Sent(data.len() - 1)
                } else {
                    Reply::Sent(data.len())
                }
            }
            Action::Receive { endpoint, length } => {
                assert_eq!(*endpoint, EP_IN);
                let index = self.received;
                self.received += 1;
                if self.fail_receive_at == Some(index) {
                    Reply::Failed(UsbError::Timeout)
                } else {
                    Reply::Received(self.answer(*length))
                }
            }
            Action::Idle | Action::Finished(_) => unreachable!(),
        }
    }

    fn run(&mut self, session: &mut Ch559, first: Action) -> Result<Vec<u8>, Error> {
        let mut action = first;
        loop {
            match action {
                Action::Finished(result) => return result,
                Action::Idle => panic!("nothing in progress"),
                other => {
                    let reply = self.perform(&other);
                    action = session.step(reply);
                }
            }
        }
    }

    fn commands(&self, opcode: u8) -> Vec<Vec<u8>> {
        self.sent.iter().filter(|request| request[0] == opcode).cloned().collect()
    }
}

fn bulk(address: u8, direction: Direction) -> Endpoint {
    Endpoint { address, direction, transfer_type: TransferType::Bulk }
}

fn device_with(endpoints: Vec<Endpoint>) -> Device {
    Device {
        configuration: Some(Configuration {
            number: 1,
            interfaces: vec![Interface { number: 0, settings: vec![Setting { endpoints }] }],
        }),
    }
}

fn device() -> Device {
    device_with(vec![bulk(EP_IN, Direction::In), bulk(EP_OUT, Direction::Out)])
}

fn connected(bench: &mut Bench) -> Ch559 {
    let mut session = Ch559::new(Some(device())).unwrap();
    let first = session.action();
    assert_eq!(bench.run(&mut session, first), Ok(vec![]));
    assert!(session.is_ready());
    session
}

fn file(content: Vec<u8>) -> Source {
    Source { is_file: true, length: content.len(), content }
}

fn pattern(length: usize) -> Vec<u8> {
    (0..length).map(|i| (i * 7 + 3) as u8).collect()
}

#[test]
fn handshake_runs_in_order() {
    let mut bench = Bench::new();
    let mut session = Ch559::new(Some(device())).unwrap();
    assert!(!session.is_ready());
    assert_eq!(session.version().as_str(), "unknown");
    assert_eq!(session.action(), Action::Activate(1));
    assert_eq!(session.step(Reply::Completed), Action::Claim(0));
    let detect = vec![
        0xa1, 0x12, 0x00, 0x59, 0x11, 0x4d, 0x43, 0x55, 0x20, 0x49, 0x53, 0x50, 0x20, 0x26, 0x20,
        0x57, 0x43, 0x48, 0x2e, 0x43, 0x4e,
    ];
    assert_eq!(session.step(Reply::Completed), Action::Send { endpoint: EP_OUT, data: detect });
    assert_eq!(session.step(Reply::Sent(21)), Action::Receive { endpoint: EP_IN, length: 6 });
    let answer = vec![0, 0, 0, 0, 0x59, 0];
    assert_eq!(
        session.step(Reply::Received(answer)),
        Action::Send { endpoint: EP_OUT, data: vec![0xa7, 0x02, 0x00, 0x1f, 0x00] }
    );
    assert_eq!(session.step(Reply::Sent(5)), Action::Receive { endpoint: EP_IN, length: 30 });
    let identify = bench.identify.clone();
    assert_eq!(session.step(Reply::Received(identify)), Action::Finished(Ok(vec![])));
    assert!(session.is_ready());
    assert_eq!(session.chip_id(), 0x59);
    assert_eq!(session.version().as_str(), "2.40");
    assert!(!session.key_is_reset());
    assert_eq!(session.action(), Action::Idle);
    bench.status = 0;
}

#[test]
fn checksum_seed_wraps_and_seeds_the_key_reset() {
    let mut bench = Bench::new();
    let mut session = connected(&mut bench);
    let first = session.erase();
    // 0xf0 + 0x20 + 0x03 + 0x04 = 0x117, which wraps to 0x17.
    let mut expected = vec![0xa3, 0x30, 0x00];
    expected.extend(vec![0x17u8; 0x30]);
    assert_eq!(expected.len(), 0x33);
    assert_eq!(first, Action::Send { endpoint: EP_OUT, data: expected });
}

#[test]
fn no_device_is_not_found() {
    assert!(matches!(Ch559::new(None), Err(Error::NotFound)));
}

#[test]
fn missing_configuration_fails_set_up() {
    let result = Ch559::new(Some(Device { configuration: None }));
    assert!(matches!(result, Err(Error::Initialize(inner)) if *inner == Error::CheckConfiguration));
}

#[test]
fn missing_interface_fails_set_up() {
    let device = Device { configuration: Some(Configuration { number: 1, interfaces: vec![] }) };
    let result = Ch559::new(Some(device));
    assert!(matches!(result, Err(Error::Initialize(inner)) if *inner == Error::CheckInterface));
}

#[test]
fn missing_setting_fails_set_up() {
    let device = Device {
        configuration: Some(Configuration {
            number: 1,
            interfaces: vec![Interface { number: 0, settings: vec![] }],
        }),
    };
    let result = Ch559::new(Some(device));
    assert!(matches!(result, Err(Error::Initialize(inner)) if *inner == Error::CheckInterface));
}

#[test]
fn interrupt_endpoint_is_rejected() {
    let endpoints = vec![
        Endpoint { address: 0x81, direction: Direction::In, transfer_type: TransferType::Interrupt },
        bulk(EP_OUT, Direction::Out),
    ];
    let result = Ch559::new(Some(device_with(endpoints)));
    assert!(matches!(result, Err(Error::Initialize(inner)) if *inner == Error::DetectEp));
}

#[test]
fn missing_out_endpoint_is_rejected() {
    let result = Ch559::new(Some(device_with(vec![bulk(EP_IN, Direction::In)])));
    assert!(matches!(result, Err(Error::Initialize(inner)) if *inner == Error::DetectEp));
}

#[test]
fn refused_activation_fails_set_up() {
    let mut bench = Bench::new();
    bench.refuse_activate = true;
    let mut session = Ch559::new(Some(device())).unwrap();
    let first = session.action();
    assert_eq!(
        bench.run(&mut session, first),
        Err(Error::Initialize(Box::new(Error::ActivateConfiguration)))
    );
    assert!(bench.sent.is_empty());
    assert!(bench.claims.is_empty());
    assert!(!session.is_ready());
}

#[test]
fn refused_claim_fails_set_up() {
    let mut bench = Bench::new();
    bench.refuse_claim = true;
    let mut session = Ch559::new(Some(device())).unwrap();
    let first = session.action();
    assert_eq!(
        bench.run(&mut session, first),
        Err(Error::Initialize(Box::new(Error::ClaimInterface)))
    );
    assert_eq!(bench.activations, vec![1]);
    assert_eq!(bench.claims, vec![0]);
    assert!(bench.sent.is_empty());
}

#[test]
fn wrong_chip_family_fails_on_detect() {
    let mut bench = Bench::new();
    bench.family = 0x52;
    let mut session = Ch559::new(Some(device())).unwrap();
    let first = session.action();
    assert_eq!(
        bench.run(&mut session, first),
        Err(Error::Initialize(Box::new(Error::OnDetect(Box::new(Error::InvalidResponse)))))
    );
    assert_eq!(bench.sent.len(), 1);
    assert!(!session.is_ready());
}

#[test]
fn transfer_failures_during_handshake_are_marked() {
    let mut bench = Bench::new();
    bench.fail_send_at = Some(0);
    let mut session = Ch559::new(Some(device())).unwrap();
    let first = session.action();
    assert_eq!(
        bench.run(&mut session, first),
        Err(Error::Initialize(Box::new(Error::OnDetect(Box::new(Error::BulkWrite)))))
    );

    let mut bench = Bench::new();
    bench.short_send_at = Some(1);
    let mut session = Ch559::new(Some(device())).unwrap();
    let first = session.action();
    assert_eq!(
        bench.run(&mut session, first),
        Err(Error::Initialize(Box::new(Error::OnDetect(Box::new(Error::BulkWriteAll)))))
    );

    let mut bench = Bench::new();
    bench.fail_receive_at = Some(1);
    let mut session = Ch559::new(Some(device())).unwrap();
    let first = session.action();
    assert_eq!(
        bench.run(&mut session, first),
        Err(Error::Initialize(Box::new(Error::OnDetect(Box::new(Error::BulkRead(
            UsbError::Timeout
        ))))))
    );
}

#[test]
fn operations_on_a_session_that_is_not_ready_change_nothing() {
    let mut session = Ch559::new(Some(device())).unwrap();
    assert_eq!(session.erase(), Action::Activate(1));
    assert_eq!(session.read_data(), Action::Activate(1));
    let mut bench = Bench::new();
    bench.refuse_activate = true;
    let first = session.action();
    assert!(bench.run(&mut session, first).is_err());
    assert_eq!(session.erase(), Action::Idle);
    assert_eq!(session.step(Reply::Completed), Action::Idle);
}

#[test]
fn replies_that_answer_nothing_pending_are_ignored() {
    let mut session = Ch559::new(Some(device())).unwrap();
    assert_eq!(session.step(Reply::Sent(3)), Action::Activate(1));
    assert_eq!(session.step(Reply::Received(vec![1, 2, 3])), Action::Activate(1));
    assert_eq!(session.step(Reply::Completed), Action::Claim(0));
    assert_eq!(session.step(Reply::Sent(3)), Action::Claim(0));
    let send = session.step(Reply::Completed);
    assert!(matches!(send, Action::Send { .. }));
    assert_eq!(session.step(Reply::Completed), send);
    assert_eq!(session.step(Reply::Received(vec![0; 6])), send);
    let receive = session.step(Reply::Sent(21));
    assert_eq!(receive, Action::Receive { endpoint: EP_IN, length: 6 });
    assert_eq!(session.step(Reply::Sent(21)), receive);
    assert_eq!(session.step(Reply::Completed), receive);
}

#[test]
fn short_answers_read_as_zero() {
    let mut session = Ch559::new(Some(device())).unwrap();
    session.step(Reply::Completed);
    session.step(Reply::Completed);
    session.step(Reply::Sent(21));
    // Four bytes came in: the status byte reads as zero, not as the family.
    assert_eq!(
        session.step(Reply::Received(vec![0x59, 0x59, 0x59, 0x59])),
        Action::Finished(Err(Error::Initialize(Box::new(Error::OnDetect(Box::new(
            Error::InvalidResponse
        ))))))
    );
}

#[test]
fn erase_resets_the_key_once() {
    let mut bench = Bench::new();
    let mut session = connected(&mut bench);
    bench.sent.clear();
    let first = session.erase();
    assert_eq!(bench.run(&mut session, first), Ok(vec![]));
    assert!(session.key_is_reset());
    assert_eq!(bench.sent.len(), 2);
    assert_eq!(bench.sent[0][0], 0xa3);
    assert_eq!(bench.sent[1], vec![0xa4, 0x01, 0x00, 0x3c]);

    bench.sent.clear();
    let first = session.erase_data();
    assert_eq!(first, Action::Send { endpoint: EP_OUT, data: vec![0xa9, 0x00, 0x00, 0x00] });
    assert_eq!(bench.run(&mut session, first), Ok(vec![]));
    assert_eq!(bench.sent, vec![vec![0xa9, 0x00, 0x00, 0x00]]);
    assert!(bench.commands(0xa3).is_empty());
}

#[test]
fn erase_reports_a_nonzero_status() {
    let mut bench = Bench::new();
    let mut session = connected(&mut bench);
    bench.status = 3;
    let first = session.erase();
    assert_eq!(bench.run(&mut session, first), Err(Error::Erase));
    let first = session.erase_data();
    assert_eq!(bench.run(&mut session, first), Err(Error::Erase));
    assert!(session.is_ready());
}

#[test]
fn key_reset_mismatch_leaves_the_key_unset() {
    let mut bench = Bench::new();
    let mut session = connected(&mut bench);
    bench.key_echo = 0x58;
    bench.sent.clear();
    let first = session.erase();
    assert_eq!(bench.run(&mut session, first), Err(Error::ResetKey));
    assert!(!session.key_is_reset());
    assert_eq!(bench.sent.len(), 1);
    assert!(bench.commands(0xa4).is_empty());

    // The next operation resets the key again, and goes on once that works.
    bench.key_echo = 0x59;
    bench.sent.clear();
    let first = session.erase();
    assert!(matches!(&first, Action::Send { data, .. } if data[0] == 0xa3));
    assert_eq!(bench.run(&mut session, first), Ok(vec![]));
    assert!(session.key_is_reset());
    assert_eq!(bench.commands(0xa3).len(), 1);
    assert_eq!(bench.commands(0xa4).len(), 1);
}

#[test]
fn transfer_failures_end_an_operation_unmarked() {
    let mut bench = Bench::new();
    let mut session = connected(&mut bench);
    bench.fail_send_at = Some(bench.sent.len());
    let first = session.erase();
    assert_eq!(bench.run(&mut session, first), Err(Error::BulkWrite));

    bench.fail_send_at = None;
    bench.short_send_at = Some(bench.sent.len());
    let first = session.erase();
    assert_eq!(bench.run(&mut session, first), Err(Error::BulkWriteAll));

    bench.short_send_at = None;
    bench.fail_receive_at = Some(bench.received);
    let first = session.erase();
    assert_eq!(bench.run(&mut session, first), Err(Error::BulkRead(UsbError::Timeout)));
    assert!(session.is_ready());
    assert!(!session.key_is_reset());
}

#[test]
fn read_data_returns_the_region_in_order() {
    let mut bench = Bench::new();
    let data = pattern(0x400);
    bench.memory[0xf000..0xf400].copy_from_slice(&data);
    let mut session = connected(&mut bench);
    let first = session.read_data();
    assert_eq!(bench.run(&mut session, first), Ok(data));
    let reads = bench.commands(0xab);
    assert_eq!(reads.len(), 19);
    for (k, request) in reads.iter().enumerate() {
        let offset = k * 0x38;
        let length = if k == 18 { 0x10 } else { 0x38 };
        assert_eq!(
            request,
            &vec![0xab, 0, 0, offset as u8, (offset >> 8) as u8, 0, 0, length as u8]
        );
    }
    assert_eq!(session.progress(), (0, 0));
}

#[test]
fn read_data_stops_at_a_nonzero_status() {
    let mut bench = Bench::new();
    let mut session = connected(&mut bench);
    bench.status = 1;
    let first = session.read_data();
    assert_eq!(bench.run(&mut session, first), Err(Error::Read));
    assert_eq!(bench.commands(0xab).len(), 1);
}

#[test]
fn read_data_reports_progress() {
    let mut bench = Bench::new();
    let mut session = connected(&mut bench);
    let mut action = session.read_data();
    assert_eq!(session.progress(), (0, 0x400));
    let mut seen = Vec::new();
    loop {
        match action {
            Action::Finished(_) => break,
            other => {
                let reply = bench.perform(&other);
                let answered = matches!(reply, Reply::Received(_));
                action = session.step(reply);
                if answered && bench.last[0] == 0xab {
                    seen.push(session.progress().0);
                }
            }
        }
    }
    assert_eq!(seen.len(), 19);
    assert_eq!(seen[0], 0x38);
    assert_eq!(seen[17], 18 * 0x38);
    assert_eq!(seen[18], 0);
}

#[test]
fn data_image_is_written_in_nineteen_chunks() {
    let mut bench = Bench::new();
    let mut session = connected(&mut bench);
    let image = pattern(0x400);
    let first = session.write(&file(image.clone()), true, true, false);
    assert_eq!(bench.run(&mut session, first), Ok(vec![]));
    let writes = bench.commands(0xaa);
    assert_eq!(writes.len(), 19);
    for (k, request) in writes.iter().enumerate() {
        let length = request[7] as usize;
        assert!(length <= 0x38);
        assert_eq!(request.len(), 8 + length);
        assert_eq!(request[1] as usize, length + 5);
        assert_eq!(request[3] as usize + 256 * request[4] as usize, k * 0x38);
    }
    assert_eq!(writes[18][7], 0x10);
    assert_eq!(&bench.memory[0xf000..0xf400], &image[..]);
    assert!(bench.commands(0xa5).is_empty());
    assert!(bench.commands(0xa6).is_empty());
}

#[test]
fn code_image_over_the_data_region_is_written_with_a_warning() {
    let mut bench = Bench::new();
    let mut session = connected(&mut bench);
    let image = pattern(0xf100);
    assert!(ch559::image::runs_over_data(image.len(), false));
    assert!(!ch559::image::runs_over_data(0xf000, false));
    assert!(!ch559::image::runs_over_data(0xf100, true));
    let first = session.write(&file(image.clone()), true, false, false);
    assert_eq!(session.progress(), (0, 0xf100));
    assert_eq!(bench.run(&mut session, first), Ok(vec![]));
    assert_eq!(&bench.memory[..0xf100], &image[..]);
    assert_eq!(bench.memory[0xf100], 0xff);
    let writes = bench.commands(0xa5);
    assert_eq!(writes.len(), (0xf100 + 0x37) / 0x38);
    let last = writes.last().unwrap();
    assert_eq!(last[7] as usize, (0xf100 % 0x38 + 7) / 8 * 8);
}

#[test]
fn write_then_verify_round_trips() {
    for &(length, data_region, fullfill) in &[
        (0x400usize, true, false),
        (0x123, true, true),
        (0, true, true),
        (0x1235, false, false),
        (0x1235, false, true),
        (0xf000, false, false),
        (0xf001, false, true),
        (0xf400, false, false),
        (1, false, false),
    ] {
        let mut bench = Bench::new();
        let mut session = connected(&mut bench);
        session.set_seed(77);
        let source = file(pattern(length));
        let first = session.write(&source, true, data_region, fullfill);
        assert_eq!(bench.run(&mut session, first), Ok(vec![]));
        let first = session.write(&source, false, data_region, fullfill);
        assert_eq!(bench.run(&mut session, first), Ok(vec![]));
        let base = if data_region { 0xf000 } else { 0 };
        assert_eq!(&bench.memory[base..base + length], &source.content[..]);
    }
}

#[test]
fn verify_fails_where_the_flash_differs() {
    let mut bench = Bench::new();
    let mut session = connected(&mut bench);
    let source = file(pattern(0x200));
    let first = session.write(&source, true, false, false);
    assert_eq!(bench.run(&mut session, first), Ok(vec![]));
    bench.memory[0x1ff] ^= 0x01;
    bench.sent.clear();
    let first = session.write(&source, false, false, false);
    assert_eq!(bench.run(&mut session, first), Err(Error::Verify));
    // 0x1ff lies in chunk number nine; the verify stops there.
    assert_eq!(bench.commands(0xa6).len(), 0x1ff / 0x38 + 1);
    assert!(session.is_ready());
}

#[test]
fn verify_of_the_data_region_addresses_it_in_memory() {
    let mut bench = Bench::new();
    let mut session = connected(&mut bench);
    let source = file(pattern(0x400));
    let first = session.write(&source, true, true, false);
    assert_eq!(bench.run(&mut session, first), Ok(vec![]));
    bench.sent.clear();
    let first = session.write(&source, false, true, false);
    assert_eq!(bench.run(&mut session, first), Ok(vec![]));
    let verifies = bench.commands(0xa6);
    assert_eq!(verifies.len(), 19);
    for (k, request) in verifies.iter().enumerate() {
        assert_eq!(request[3] as usize + 256 * request[4] as usize, 0xf000 + k * 0x38);
    }
}

#[test]
fn write_reports_a_nonzero_status() {
    let mut bench = Bench::new();
    let mut session = connected(&mut bench);
    let first = session.erase();
    assert_eq!(bench.run(&mut session, first), Ok(vec![]));
    bench.status = 2;
    bench.sent.clear();
    let first = session.write(&file(pattern(0x100)), true, false, false);
    assert_eq!(bench.run(&mut session, first), Err(Error::Flash));
    assert_eq!(bench.sent.len(), 1);
}

#[test]
fn refused_images_send_nothing() {
    let mut bench = Bench::new();
    let mut session = connected(&mut bench);
    bench.sent.clear();
    let not_a_file = Source { is_file: false, length: 0x400, content: pattern(0x400) };
    assert_eq!(
        session.write(&not_a_file, true, true, false),
        Action::Finished(Err(Error::InvalidFile))
    );
    assert_eq!(
        session.write(&file(pattern(0x3ff)), true, true, false),
        Action::Finished(Err(Error::FileSize))
    );
    assert_eq!(
        session.write(&file(pattern(0x401)), true, true, false),
        Action::Finished(Err(Error::FileSize))
    );
    assert_eq!(
        session.write(&file(pattern(0x401)), true, true, true),
        Action::Finished(Err(Error::TooLargeDataSize))
    );
    assert_eq!(
        session.write(&file(pattern(0xf401)), true, false, false),
        Action::Finished(Err(Error::TooLargeCodeSize))
    );
    assert_eq!(
        session.write(&file(pattern(0xf401)), false, false, true),
        Action::Finished(Err(Error::TooLargeCodeSize))
    );
    let truncated = Source { is_file: true, length: 0x400, content: pattern(0x3ff) };
    assert_eq!(session.write(&truncated, true, true, false), Action::Finished(Err(Error::Eof)));
    assert!(bench.sent.is_empty());
    assert!(session.is_ready());
    assert!(!session.key_is_reset());
}

#[test]
fn empty_code_image_resets_the_key_and_writes_nothing() {
    let mut bench = Bench::new();
    let mut session = connected(&mut bench);
    bench.sent.clear();
    let first = session.write(&file(vec![]), true, false, false);
    assert_eq!(bench.run(&mut session, first), Ok(vec![]));
    assert_eq!(bench.sent.len(), 1);
    assert_eq!(bench.sent[0][0], 0xa3);
    assert!(session.key_is_reset());
    assert_eq!(session.write(&file(vec![]), true, false, false), Action::Finished(Ok(vec![])));
}

#[test]
fn fullfill_pads_the_region_with_the_filler_of_the_seed() {
    let mut bench = Bench::new();
    let mut session = connected(&mut bench);
    let image = pattern(0x3fc);
    let first = session.write(&file(image.clone()), true, true, true);
    assert_eq!(bench.run(&mut session, first), Ok(vec![]));
    assert_eq!(&bench.memory[0xf000..0xf3fc], &image[..]);
    // The session starts with seed 1.
    assert_eq!(&bench.memory[0xf3fc..0xf400], &[66, 30, 142, 118]);

    session.set_seed(2);
    let first = session.write(&file(image), true, true, true);
    assert_eq!(bench.run(&mut session, first), Ok(vec![]));
    assert_eq!(&bench.memory[0xf3fc..0xf400], &[197, 85, 184, 177]);
}

#[test]
fn fullfill_padding_is_the_same_for_the_same_seed() {
    let tail = |seed: i64, image: Vec<u8>| {
        let mut bench = Bench::new();
        let mut session = connected(&mut bench);
        session.set_seed(seed);
        let length = image.len();
        let first = session.write(&file(image), true, false, true);
        assert_eq!(bench.run(&mut session, first), Ok(vec![]));
        bench.memory[length..0xf000].to_vec()
    };
    let first = tail(1234, pattern(0x100));
    let second = tail(1234, pattern(0x100));
    let other_image = tail(1234, vec![0u8; 0x100]);
    let other_seed = tail(1235, pattern(0x100));
    assert_eq!(first.len(), 0xf000 - 0x100);
    assert_eq!(first, second);
    assert_eq!(first, other_image);
    assert_ne!(first, other_seed);
}

#[test]
fn code_image_over_the_limit_is_padded_to_the_whole_flash() {
    let mut bench = Bench::new();
    let mut session = connected(&mut bench);
    let first = session.write(&file(pattern(0xf001)), true, false, true);
    assert_eq!(session.progress().1, 0xf400);
    assert_eq!(bench.run(&mut session, first), Ok(vec![]));
    let first = session.write(&file(pattern(0xf000)), true, false, true);
    assert_eq!(session.progress().1, 0xf000);
    assert_eq!(bench.run(&mut session, first), Ok(vec![]));
}

#[test]
fn bytes_behind_the_stated_length_are_not_written() {
    let mut bench = Bench::new();
    let mut session = connected(&mut bench);
    let source = Source { is_file: true, length: 0x10, content: pattern(0x20) };
    let first = session.write(&source, true, false, false);
    assert_eq!(bench.run(&mut session, first), Ok(vec![]));
    assert_eq!(&bench.memory[..0x10], &pattern(0x10)[..]);
    assert_eq!(bench.memory[0x10], 0xff);
    assert_eq!(bench.commands(0xa5).len(), 1);
}
