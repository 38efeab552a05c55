use jlctl::device_manager::{Acquire, DeviceManager, Status};
use jlctl::measurements::{decode_samples, is_measurement_device};
use jlctl::session::{
    inbound_line, raw_step, wait_budget, AckStep, AckWait, BridgelistCollector,
    ChipStatusCollector, NetlistCollector, RawStep, Received, RequestError,
    SupplySwitchCollector, RESPONSE_TIMEOUT_MS,
};
use jlctl::parser::parse_line;
use jlctl::types::{ChipStatus, Message, Node, SupplySwitchPos};

#[test]
fn ack_for_own_sequence_ends_wait() {
    let w = AckWait::new(7);
    assert_eq!(w.step(Received::Message(Message::Ack(Some(7))), 10), AckStep::Finished(Ok(())));
    assert_eq!(w.step(Received::Message(Message::Ack(None)), 10), AckStep::Finished(Ok(())));
    assert_eq!(
        w.step(Received::Message(Message::Error(Some(7))), 10),
        AckStep::Finished(Err(RequestError::Rejected))
    );
    assert_eq!(
        w.step(Received::Message(Message::Ack(Some(6))), 10),
        AckStep::Capture(Message::Ack(Some(6)))
    );
    assert_eq!(
        w.step(Received::Message(Message::Unrecognized("::x".to_string())), 10),
        AckStep::Capture(Message::Unrecognized("::x".to_string()))
    );
    assert_eq!(
        w.step(Received::Failed("io".to_string()), 10),
        AckStep::Finished(Err(RequestError::Transport("io".to_string())))
    );
}

#[test]
fn wait_fails_once_bounded_wait_is_over() {
    let w = AckWait::new(3);
    assert_eq!(w.step(Received::TimedOut, 0), AckStep::Finished(Err(RequestError::Timeout)));
    assert_eq!(
        w.step(Received::Message(Message::NetlistBegin), RESPONSE_TIMEOUT_MS),
        AckStep::Finished(Err(RequestError::Timeout))
    );
    assert_eq!(wait_budget(0), RESPONSE_TIMEOUT_MS);
    assert_eq!(wait_budget(1000), RESPONSE_TIMEOUT_MS - 1000);
    assert_eq!(wait_budget(RESPONSE_TIMEOUT_MS + 5), 0);
}

#[test]
fn raw_wait_takes_its_own_acknowledgement() {
    assert_eq!(raw_step(99, Received::Message(Message::Ack(Some(99))), 0), RawStep::Finished(Ok(true)));
    assert_eq!(raw_step(99, Received::Message(Message::Ack(None)), 0), RawStep::Finished(Ok(true)));
    assert_eq!(raw_step(4, Received::Message(Message::Error(None)), 0), RawStep::Finished(Ok(false)));
    assert_eq!(raw_step(4, Received::Message(Message::Error(Some(4))), 0), RawStep::Finished(Ok(false)));
    assert_eq!(
        raw_step(4, Received::Message(Message::Ack(Some(5))), 0),
        RawStep::Capture(Message::Ack(Some(5)))
    );
    assert_eq!(
        raw_step(4, Received::Message(Message::Error(Some(3))), RESPONSE_TIMEOUT_MS),
        RawStep::Finished(Err(RequestError::Timeout))
    );
    assert_eq!(
        raw_step(4, Received::Message(Message::Unrecognized("::?".to_string())), 0),
        RawStep::Finished(Err(RequestError::Unparsable("::?".to_string())))
    );
    assert_eq!(
        raw_step(4, Received::Message(Message::NetlistEnd), 0),
        RawStep::Capture(Message::NetlistEnd)
    );
}

#[test]
fn netlist_collector_keeps_nets_inside_listing() {
    let lines = [
        "::net[9,9,GND,false,000000,false,stray]",
        "::netlist-begin",
        "::net[1,1,GND,true,001c04,false,GND]",
        "::net[2,2,5V,true,1c0702,false,+5V]",
        "::netlist-end",
        "::net[3,3,3V3,true,1c0107,false,+3.3V]",
    ];
    let mut c = NetlistCollector::new();
    for line in lines {
        c.capture(parse_line(line));
    }
    let nets = c.finish();
    assert_eq!(nets.len(), 2);
    assert_eq!(nets[0].index, 1);
    assert_eq!(nets[1].index, 2);
    assert_eq!(nets[1].nodes, vec![Node::SUPPLY_5V]);
}

#[test]
fn sample_transcript_gives_seven_nets_in_order() {
    let lines = [
        "::netlist-begin",
        "::net[1,1,GND,true,001c04,false,GND]",
        "::net[2,2,5V,true,1c0702,false,+5V]",
        "::net[3,3,3V3,true,1c0107,false,+3.3V]",
        "::net[4,4,DAC_0,true,231111,false,DAC 0]",
        "::net[5,5,DAC_1,true,230913,false,DAC 1]",
        "::net[6,6,I_POS,true,232323,false,I Sense +]",
        "::net[7,7,I_NEG,true,232323,false,I Sense -]",
        "::netlist-end",
    ];
    let mut c = NetlistCollector::new();
    for line in lines {
        c.capture(parse_line(line));
    }
    let nets = c.finish();
    let names: Vec<String> = nets.iter().map(|n| n.name.clone()).collect();
    assert_eq!(names, vec!["GND", "+5V", "+3.3V", "DAC 0", "DAC 1", "I Sense +", "I Sense -"]);
    for (i, n) in nets.iter().enumerate() {
        assert_eq!(n.index as usize, i + 1);
    }
    assert_eq!(nets[3].color.0, [0x23, 0x11, 0x11]);
}

#[test]
fn other_collectors() {
    let mut s = SupplySwitchCollector::new();
    assert_eq!(SupplySwitchCollector::new().finish(), Err(RequestError::Missing));
    s.capture(Message::SupplySwitch(SupplySwitchPos::V5));
    s.capture(Message::NetlistEnd);
    s.capture(Message::SupplySwitch(SupplySwitchPos::V8));
    assert_eq!(s.finish(), Ok(SupplySwitchPos::V8));

    let mut b = BridgelistCollector::new();
    b.capture(Message::Bridgelist(vec![(Node::GND, Node::Column(1))]));
    b.capture(Message::Bridgelist(vec![]));
    assert_eq!(b.finish(), Ok(vec![(Node::GND, Node::Column(1))]));

    let mut c = ChipStatusCollector::new();
    c.capture(Message::ChipStatus(ChipStatus { text: "early".to_string() }));
    c.capture(Message::ChipStatusBegin);
    c.capture(Message::ChipStatus(ChipStatus { text: "A".to_string() }));
    c.capture(Message::ChipStatusEnd);
    assert_eq!(c.finish(), vec![ChipStatus { text: "A".to_string() }]);
}

#[test]
fn reader_lines() {
    assert_eq!(inbound_line("\r::ok:3\r"), ("::ok:3".to_string(), Some(Message::Ack(Some(3)))));
    assert_eq!(inbound_line("hello board\r"), ("hello board".to_string(), None));
    assert_eq!(
        inbound_line("::what"),
        ("::what".to_string(), Some(Message::Unrecognized("::what".to_string())))
    );
}

#[test]
fn failed_call_drops_the_connection() {
    let mut m: DeviceManager<u32> = DeviceManager::new(None);
    assert_eq!(m.plan(true), Acquire::Open);
    let r: Result<u8, String> = m.settle(5, Ok(1));
    assert_eq!(r, Ok(1));
    assert_eq!(m.plan(true), Acquire::Reuse);
    assert_eq!(m.plan(false), Acquire::Open);
    let d = m.take_device().unwrap();
    assert_eq!(d, 5);
    let r: Result<u8, String> = m.settle(d, Err("nak".to_string()));
    assert_eq!(r, Err("nak".to_string()));
    assert_eq!(m.plan(true), Acquire::Open);
    assert!(m.take_device().is_none());
    assert!(Status::new(true).connected());
}

#[test]
fn measurement_samples() {
    assert!(is_measurement_device(0x1d50, 0xacab));
    assert!(!is_measurement_device(0x1d50, 0xacac));
    assert_eq!(decode_samples(&[1, 0, 0, 1, 0xff, 0xff, 0x34, 0x12]), vec![1, 256, 65535, 0x1234]);
}

#[test]
fn netlist_exchange_over_sample_transcript() {
    let lines = [
        "::netlist-begin",
        "::net[1,1,GND,true,001c04,false,GND]",
        "::net[2,2,5V,true,1c0702,false,+5V]",
        "::net[3,3,3V3,true,1c0107,false,+3.3V]",
        "::net[4,4,DAC_0,true,231111,false,DAC 0]",
        "::net[5,5,DAC_1,true,230913,false,DAC 1]",
        "::net[6,6,I_POS,true,232323,false,I Sense +]",
        "::net[7,7,I_NEG,true,232323,false,I Sense -]",
        "::netlist-end",
        "::ok:5",
    ];
    let wait = AckWait::new(5);
    let mut collector = NetlistCollector::new();
    let mut outcome = None;
    for line in lines {
        let (_, message) = inbound_line(line);
        match wait.step(Received::Message(message.unwrap()), 10) {
            AckStep::Capture(m) => collector.capture(m),
            AckStep::Finished(r) => {
                outcome = Some(r);
                break;
            }
        }
    }
    assert_eq!(outcome, Some(Ok(())));
    let nets = collector.finish();
    assert_eq!(nets.len(), 7);
    let expected = [
        ("GND", [0x00, 0x1c, 0x04]),
        ("+5V", [0x1c, 0x07, 0x02]),
        ("+3.3V", [0x1c, 0x01, 0x07]),
        ("DAC 0", [0x23, 0x11, 0x11]),
        ("DAC 1", [0x23, 0x09, 0x13]),
        ("I Sense +", [0x23, 0x23, 0x23]),
        ("I Sense -", [0x23, 0x23, 0x23]),
    ];
    for (i, net) in nets.iter().enumerate() {
        assert_eq!(net.index as usize, i + 1);
        assert_eq!(net.number as usize, i + 1);
        assert_eq!(net.name, expected[i].0.to_string());
        assert_eq!(net.color.0, expected[i].1);
    }
}
