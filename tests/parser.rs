use jlctl::parser::{
    boolean, bridgelist, bridges, color, error_response, message, net, netlist_begin,
    netlist_end, nodes, ok_response, parse_line, ParseError,
};
use jlctl::types::{ChipStatus, Color, Message, Net, Node, SupplySwitchPos};

#[test]
fn parser_test_netlist_begin() {
    assert_eq!(netlist_begin("::netlist-begin"), Ok(("", ())));
}

#[test]
fn parser_test_net() {
    assert_eq!(
        net("::net[1,1,GND,true,001c04,false,GND]"),
        Ok((
            "",
            Net {
                index: 1,
                number: 1,
                nodes: vec![Node::GND],
                special: true,
                color: Color([0x00, 0x1c, 0x04]),
                machine: false,
                name: "GND".to_string(),
            }
        ))
    );
}

#[test]
fn parser_test_color() {
    assert_eq!(color("000000"), Ok(("", Color([0, 0, 0]))));
    assert_eq!(color("00AA00"), Ok(("", Color([0, 0xAA, 0]))));
    assert_eq!(color("123456"), Ok(("", Color([0x12, 0x34, 0x56]))));
}

#[test]
fn parser_test_boolean() {
    assert_eq!(boolean("true"), Ok(("", true)));
    assert_eq!(boolean("false"), Ok(("", false)));
}

#[test]
fn parser_test_nodes() {
    assert_eq!(
        nodes("GND;17;23;3V3"),
        Ok((
            "",
            vec![Node::GND, Node::Column(17), Node::Column(23), Node::SUPPLY_3V3,]
        ))
    );
}

#[test]
fn parser_test_bridgelist() {
    let input = "::bridgelist[GND-17,GND-5,GND-50,GND-32,5V-7,5V-15,5V-A7,3V3-55,3V3-A4,27-8,27-11,27-20]";

    assert_eq!(
        bridgelist(input),
        Ok((
            "",
            vec![
                (Node::GND, Node::Column(17)),
                (Node::GND, Node::Column(5)),
                (Node::GND, Node::Column(50)),
                (Node::GND, Node::Column(32)),
                (Node::SUPPLY_5V, Node::Column(7)),
                (Node::SUPPLY_5V, Node::Column(15)),
                (Node::SUPPLY_5V, Node::NANO_A7),
                (Node::SUPPLY_3V3, Node::Column(55)),
                (Node::SUPPLY_3V3, Node::NANO_A4),
                (Node::Column(27), Node::Column(8)),
                (Node::Column(27), Node::Column(11)),
                (Node::Column(27), Node::Column(20)),
            ]
        ))
    );
}

const INITIAL_NETLIST: [&str; 9] = [
    "::netlist-begin",
    "::net[1,1,GND,true,001c04,false,GND]",
    "::net[2,2,5V,true,1c0702,false,+5V]",
    "::net[3,3,3V3,true,1c0107,false,+3.3V]",
    "::net[4,4,DAC_0,true,231111,false,DAC 0]",
    "::net[5,5,DAC_1,true,230913,false,DAC 1]",
    "::net[6,6,I_POS,true,232323,false,I Sense +]",
    "::net[7,7,I_NEG,true,232323,false,I Sense -]",
    "::netlist-end",
];

fn special(index: u8, node: Node, color: [u8; 3], name: &str) -> Message {
    Message::Net(Net {
        index,
        number: index,
        nodes: vec![node],
        special: true,
        color: Color(color),
        machine: false,
        name: name.to_string(),
    })
}

#[test]
fn parser_test_initial_netlist() {
    let result: Vec<Message> = INITIAL_NETLIST
        .iter()
        .map(|line| {
            let (rest, msg) = message(line).unwrap();
            assert_eq!(rest, "");
            msg
        })
        .collect();
    assert_eq!(
        result,
        vec![
            Message::NetlistBegin,
            special(1, Node::GND, [0x00, 0x1c, 0x04], "GND"),
            special(2, Node::SUPPLY_5V, [0x1c, 0x07, 0x02], "+5V"),
            special(3, Node::SUPPLY_3V3, [0x1c, 0x01, 0x07], "+3.3V"),
            special(4, Node::DAC0, [0x23, 0x11, 0x11], "DAC 0"),
            special(5, Node::DAC1, [0x23, 0x09, 0x13], "DAC 1"),
            special(6, Node::ISENSE_PLUS, [0x23, 0x23, 0x23], "I Sense +"),
            special(7, Node::ISENSE_MINUS, [0x23, 0x23, 0x23], "I Sense -"),
            Message::NetlistEnd,
        ]
    );
}

#[test]
fn acknowledgements_with_and_without_sequence() {
    assert_eq!(parse_line("::ok"), Message::Ack(None));
    assert_eq!(parse_line("::ok:17"), Message::Ack(Some(17)));
    assert_eq!(parse_line("::error:4294967295"), Message::Error(Some(4294967295)));
    assert_eq!(parse_line("::error"), Message::Error(None));
    assert_eq!(ok_response("::ok:5 rest"), Ok((" rest", Some(5))));
    assert_eq!(error_response("::ok"), Err(ParseError));
    assert_eq!(netlist_end("::netlist-end"), Ok(("", ())));
}

#[test]
fn unparsable_lines_are_kept_whole() {
    assert_eq!(parse_line("::ok:"), Message::Unrecognized("::ok:".to_string()));
    assert_eq!(parse_line("::okay"), Message::Unrecognized("::okay".to_string()));
    assert_eq!(
        parse_line("::ok:4294967296"),
        Message::Unrecognized("::ok:4294967296".to_string())
    );
    assert_eq!(
        parse_line("::net[1,1,NOPE,true,001c04,false,GND]"),
        Message::Unrecognized("::net[1,1,NOPE,true,001c04,false,GND]".to_string())
    );
    assert_eq!(message("::netlist-begin x"), Err(ParseError));
}

#[test]
fn malformed_color_pair_reads_as_zero_and_line_goes_on() {
    assert_eq!(color("zz1234"), Ok(("", Color([0, 0x12, 0x34]))));
    assert_eq!(color("+f0000"), Ok(("", Color([0x0f, 0, 0]))));
    assert_eq!(color("12345"), Err(ParseError));
    assert_eq!(
        parse_line("::net[9,3,17;18,false,12xx56,true,my net, with comma]"),
        Message::Net(Net {
            index: 9,
            number: 3,
            nodes: vec![Node::Column(17), Node::Column(18)],
            special: false,
            color: Color([0x12, 0, 0x56]),
            machine: true,
            name: "my net, with comma".to_string(),
        })
    );
}

#[test]
fn supply_switch_and_chip_status_lines() {
    assert_eq!(parse_line("::supplyswitch[3.3V]"), Message::SupplySwitch(SupplySwitchPos::V3_3));
    assert_eq!(parse_line("::supplyswitch[8V]"), Message::SupplySwitch(SupplySwitchPos::V8));
    assert_eq!(parse_line("::chipstatus-begin"), Message::ChipStatusBegin);
    assert_eq!(parse_line("::chipstatus-end"), Message::ChipStatusEnd);
    assert_eq!(
        parse_line("::chipstatus[A,1,2]"),
        Message::ChipStatus(ChipStatus { text: "A,1,2".to_string() })
    );
}

#[test]
fn bridges_alone_and_empty_list() {
    assert_eq!(
        bridges("GND-17,5V-A7"),
        Ok(("", vec![(Node::GND, Node::Column(17)), (Node::SUPPLY_5V, Node::NANO_A7)]))
    );
    assert_eq!(bridges("GND-17,x"), Ok((",x", vec![(Node::GND, Node::Column(17))])));
    assert_eq!(parse_line("::bridgelist[]"), Message::Bridgelist(vec![]));
}
