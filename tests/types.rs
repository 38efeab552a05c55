use jlctl::types::{merge_bridges, Color, ColorError, Net, Node, NodeError, SupplySwitchPos, TmpNet};

#[test]
fn aliases_read_as_canonical_nodes() {
    let pairs = [
        ("5V", "SUPPLY_5V"),
        ("3V3", "SUPPLY_3V3"),
        ("DAC 0", "DAC0"),
        ("DAC_1", "DAC1"),
        ("I_NEG", "ISENSE_MINUS"),
        ("I_P", "ISENSE_PLUS"),
        ("D13", "NANO_D13"),
        ("A7", "NANO_A7"),
        ("GPIO_16", "RP_UART_Rx"),
        ("GPIO_17", "RP_UART_Tx"),
        ("RESET", "NANO_RESET"),
    ];
    for (alias, canonical) in pairs {
        let a = Node::parse(alias).unwrap();
        assert_eq!(a, Node::parse(canonical).unwrap());
        assert_eq!(a.to_string(), canonical.to_string());
    }
}

#[test]
fn column_numbers() {
    for n in 1u8..=60 {
        let node = Node::parse(&n.to_string()).unwrap();
        assert_eq!(node, Node::Column(n));
        assert_eq!(node.to_string(), n.to_string());
    }
    assert_eq!(Node::parse("0"), Err(NodeError::InvalidNumber));
    assert_eq!(Node::parse("61"), Err(NodeError::InvalidNumber));
    assert_eq!(Node::parse("255"), Err(NodeError::InvalidNumber));
    assert_eq!(Node::parse("256"), Err(NodeError::Unknown("256".to_string())));
    assert_eq!(Node::parse("+5"), Ok(Node::Column(5)));
    assert_eq!(Node::parse("007"), Ok(Node::Column(7)));
    assert_eq!(Node::parse(""), Err(NodeError::Unknown("".to_string())));
    assert_eq!(Node::col(0), None);
    assert_eq!(Node::col(60), Some(Node::Column(60)));
}

#[test]
fn color_text_round_trip() {
    let samples = [[0u8, 0, 0], [255, 255, 255], [0x12, 0xab, 0x0f], [1, 2, 3]];
    for bytes in samples {
        let c = Color(bytes);
        let text = c.to_string();
        assert_eq!(Color::try_from(text).unwrap(), c);
    }
    assert_eq!(Color([0x12, 0xab, 0x0f]).to_string(), "#12ab0f".to_string());
    assert_eq!(Color([0x12, 0xab, 0x0f]).to_u32(), 0x12ab0f);
}

#[test]
fn color_prefixes_and_errors() {
    assert_eq!(Color::try_from("0x00AA00".to_string()), Ok(Color([0, 0xaa, 0])));
    assert_eq!(Color::try_from("0X0a0b0c".to_string()), Ok(Color([0x0a, 0x0b, 0x0c])));
    assert_eq!(Color::try_from("##123456".to_string()), Ok(Color([0x12, 0x34, 0x56])));
    assert_eq!(Color::try_from("#12g456".to_string()), Ok(Color([0x12, 0, 0x56])));
    assert_eq!(Color::try_from("#1234".to_string()), Err(ColorError::TooShort));
}

#[test]
fn supply_switch_text() {
    assert_eq!(SupplySwitchPos::from_str("3.3V"), Ok(SupplySwitchPos::V3_3));
    assert_eq!(SupplySwitchPos::from_str("8V"), Ok(SupplySwitchPos::V8));
    assert!(SupplySwitchPos::from_str("9V").is_err());
    assert_eq!(SupplySwitchPos::V5.to_string(), "5V".to_string());
}

#[test]
fn tmp_net_joins_nodes() {
    let net = Net {
        index: 8,
        number: 9,
        nodes: vec![Node::GND, Node::Column(12), Node::NANO_D2],
        special: false,
        color: Color([1, 2, 3]),
        machine: true,
        name: "n".to_string(),
    };
    let t = TmpNet::from(net);
    assert_eq!(t.nodes, "GND,12,NANO_D2".to_string());
    assert_eq!(t.index, 8);
    assert_eq!(t.number, 9);
    assert_eq!(t.name, "n".to_string());
}

#[test]
fn merging_bridges_skips_reversed_duplicates() {
    let current = vec![(Node::GND, Node::Column(17)), (Node::Column(3), Node::Column(4))];
    let added = vec![
        (Node::Column(17), Node::GND),
        (Node::Column(5), Node::Column(6)),
        (Node::Column(5), Node::Column(6)),
    ];
    assert_eq!(
        merge_bridges(current, &added),
        vec![
            (Node::GND, Node::Column(17)),
            (Node::Column(3), Node::Column(4)),
            (Node::Column(5), Node::Column(6)),
        ]
    );
}
