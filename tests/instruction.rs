use jlctl::instruction::{instruction_header, Instruction, SequenceCounter};
use jlctl::types::{Color, Node, SupplySwitchPos};

#[test]
fn instruction_lines() {
    assert_eq!(Instruction::GetNetlist.generate(1), "::getnetlist:1[]".to_string());
    assert_eq!(Instruction::GetBridgelist.generate(20), "::getbridgelist:20[]".to_string());
    assert_eq!(Instruction::GetSupplySwitch.generate(3), "::getsupplyswitch:3[]".to_string());
    assert_eq!(Instruction::GetChipStatus.generate(4), "::getchipstatus:4[]".to_string());
    assert_eq!(
        Instruction::SetSupplySwitch(SupplySwitchPos::V3_3).generate(5),
        "::setsupplyswitch:5[3.3V]".to_string()
    );
    assert_eq!(
        Instruction::SetBridgelist(vec![(Node::GND, Node::Column(17)), (Node::SUPPLY_5V, Node::NANO_A7)])
            .generate(6),
        "::bridgelist:6[GND-17,SUPPLY_5V-NANO_A7]".to_string()
    );
    assert_eq!(Instruction::SetBridgelist(vec![]).generate(7), "::bridgelist:7[]".to_string());
    assert_eq!(Instruction::SetNetlist(vec![]).generate(11), "::netlist:11[]".to_string());
    assert_eq!(
        Instruction::Lightnet("glow".to_string(), Color([0x12, 0x03, 0xab])).generate(8),
        "::lightnet:8[glow: 0x1203ab]".to_string()
    );
    assert_eq!(
        Instruction::Raw("foo".to_string(), "a,b".to_string()).generate(9),
        "::foo:9[a,b]".to_string()
    );
    assert_eq!(
        Instruction::SetNetlist(vec!["{\"index\":1}".to_string(), "{\"index\":2}".to_string()])
            .generate(10),
        "::netlist:10[{\"index\":1},{\"index\":2}]".to_string()
    );
}

#[test]
fn sequence_number_reads_back() {
    let instructions = vec![
        Instruction::GetNetlist,
        Instruction::SetNetlist(vec![]),
        Instruction::SetNetlist(vec!["7".to_string()]),
        Instruction::SetBridgelist(vec![(Node::Column(1), Node::Column(2))]),
        Instruction::SetSupplySwitch(SupplySwitchPos::V8),
        Instruction::Lightnet("x".to_string(), Color([0, 0, 0])),
        Instruction::Raw("cmd".to_string(), "".to_string()),
    ];
    for seq in [1u32, 9, 10, 12345, 4294967295] {
        for i in &instructions {
            let (_, n) = instruction_header(&i.generate(seq)).unwrap();
            assert_eq!(n, seq);
        }
    }
    assert_eq!(
        instruction_header("::getnetlist:42[]"),
        Some(("getnetlist".to_string(), 42))
    );
    assert_eq!(instruction_header("getnetlist:42[]"), None);
    assert_eq!(instruction_header("::getnetlist:[]"), None);
}

#[test]
fn sequence_counter_starts_at_one() {
    let mut c = SequenceCounter::new();
    assert_eq!(c.next(), Some(1));
    assert_eq!(c.next(), Some(2));
    assert_eq!(c.next(), Some(3));
}
