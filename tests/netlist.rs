use jlctl::netlist::{Connection, NetlistEntry, Node, NodeFile, NodeFileError};

#[test]
fn test_format_node() {
    assert_eq!(Node::GND.to_string(), "GND".to_string());
    assert_eq!(Node::col(27).unwrap().to_string(), "27".to_string());
}

#[test]
fn test_format_connection() {
    assert_eq!(
        Connection(Node::SUPPLY_5V, Node::col(33).unwrap()).to_string(),
        "SUPPLY_5V-33".to_string()
    );
}

#[test]
fn test_format_node_file() {
    assert_eq!(
        NodeFile(vec![
            Connection(Node::SUPPLY_5V, Node::col(33).unwrap()),
            Connection(Node::col(44).unwrap(), Node::col(27).unwrap()),
            Connection(Node::col(12).unwrap(), Node::col(13).unwrap()),
        ])
        .to_string(),
        "SUPPLY_5V-33,44-27,12-13".to_string()
    );
}

#[test]
fn test_nodefile_add_and_remove() {
    let mut file = NodeFile(vec![]);
    assert_eq!(file.to_string(), "".to_string());
    file.add_connection(Connection::parse("7-13").unwrap());
    assert_eq!(file.to_string(), "7-13".to_string());
    file.add_connection(Connection::parse("14-22").unwrap());
    assert_eq!(file.to_string(), "7-13,14-22".to_string());
    // duplicate
    file.add_connection(Connection::parse("14-22").unwrap());
    assert_eq!(file.to_string(), "7-13,14-22".to_string());
    // also duplicate (different order)
    file.add_connection(Connection::parse("22-14").unwrap());
    assert_eq!(file.to_string(), "7-13,14-22".to_string());

    // add a few more, from nodefile
    file.add_from(NodeFile::parse("11-19,12-14,19-33").unwrap());
    assert_eq!(file.to_string(), "7-13,14-22,11-19,12-14,19-33".to_string());

    // remove one
    file.remove_connection(Connection::parse("7-13").unwrap());
    assert_eq!(file.to_string(), "14-22,11-19,12-14,19-33".to_string());
    // remove one (different order)
    file.remove_connection(Connection::parse("14-12").unwrap());
    assert_eq!(file.to_string(), "14-22,11-19,19-33".to_string());

    // remove a few more, from nodefile
    file.remove_from(NodeFile::parse("33-19,14-22").unwrap());
    assert_eq!(file.to_string(), "11-19".to_string());
}

#[test]
fn connection_equality_ignores_order() {
    let a = Connection(Node::GND, Node::col(5).unwrap());
    let b = Connection(Node::col(5).unwrap(), Node::GND);
    let c = Connection(Node::GND, Node::col(6).unwrap());
    assert!(a == b);
    assert!(b == a);
    assert!(a != c);
}

#[test]
fn nodefile_node_aliases() {
    assert_eq!(Node::parse("5V"), Ok(Node::SUPPLY_5V));
    assert_eq!(Node::parse("DAC_1"), Ok(Node::DAC_1_8V));
    assert_eq!(Node::parse("I_POS"), Ok(Node::I_P));
    assert_eq!(Node::parse("61"), Err(NodeFileError::InvalidNumber));
    assert_eq!(Node::parse("XYZ"), Err(NodeFileError::UnknownNode("XYZ".to_string())));
}

#[test]
fn connection_parse_errors() {
    assert_eq!(
        Connection::parse("GND").err(),
        Some(NodeFileError::InvalidSegment("GND".to_string()))
    );
    assert_eq!(Connection::parse("GND-0").err(), Some(NodeFileError::InvalidNumber));
    assert!(NodeFile::parse("1-2,").is_err());
    assert!(NodeFile::parse("").is_err());
}

#[test]
fn has_finds_reversed_connection() {
    let file = NodeFile::parse("3-4,GND-9").unwrap();
    assert!(file.has(Connection(Node::col(9).unwrap(), Node::GND)));
    assert!(!file.has(Connection(Node::col(9).unwrap(), Node::col(3).unwrap())));
}

fn entry(index: u32, bridges: &str) -> NetlistEntry {
    NetlistEntry {
        index,
        name: "n".to_string(),
        number: index,
        nodes: "".to_string(),
        bridges: bridges.to_string(),
    }
}

#[test]
fn nodefile_from_netlist_entries() {
    let file = NodeFile::from(vec![entry(1, "{1-2,GND-5,0-0}"), entry(2, "{5-GND,1-2,3-4}")]).unwrap();
    assert_eq!(file.to_string(), "1-2,GND-5,5-GND,3-4".to_string());
    assert_eq!(
        NodeFile::from(vec![entry(1, "{1-2}"), entry(2, "")]).err(),
        Some(NodeFileError::InvalidEntry("".to_string()))
    );
    assert!(NodeFile::from(vec![entry(1, "{x-1}")]).is_err());
    assert_eq!(NodeFile::from(vec![]).unwrap().to_string(), "".to_string());
}
