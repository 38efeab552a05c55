use jlctl::types::{Color, Net, Node};
use jlctl::validate::{netlist, NetlistError};

fn net(index: u8, name: &str, nodes: Vec<Node>) -> Net {
    Net {
        index,
        number: index,
        nodes,
        special: true,
        color: Color([0, 0, 0]),
        machine: false,
        name: name.to_string(),
    }
}

fn specials() -> Vec<Net> {
    vec![
        net(1, "GND", vec![Node::GND]),
        net(2, "+5V", vec![Node::SUPPLY_5V]),
        net(3, "+3.3V", vec![Node::SUPPLY_3V3]),
        net(4, "DAC 0", vec![Node::DAC0]),
        net(5, "DAC 1", vec![Node::DAC1]),
        net(6, "I Sense +", vec![Node::ISENSE_PLUS]),
        net(7, "I Sense -", vec![Node::ISENSE_MINUS, Node::Column(3)]),
    ]
}

#[test]
fn valid_netlist_passes_unchanged() {
    let mut nets = specials();
    nets.push(net(8, "user", vec![Node::Column(10)]));
    assert_eq!(netlist(nets.clone()), Ok(nets));
}

#[test]
fn each_problem_is_reported() {
    let mut dup = specials();
    dup.push(net(3, "again", vec![]));
    assert_eq!(netlist(dup), Err(NetlistError::DuplicateIndex(3)));

    let mut missing = specials();
    missing.remove(4);
    assert_eq!(netlist(missing), Err(NetlistError::MissingSpecial(5)));

    let mut renamed = specials();
    renamed[1].name = "5 volts".to_string();
    assert_eq!(netlist(renamed), Err(NetlistError::RenamedSpecial(2)));

    let mut lacking = specials();
    lacking[5].nodes = vec![Node::Column(1)];
    assert_eq!(netlist(lacking), Err(NetlistError::SpecialMissingNode(6)));
}
