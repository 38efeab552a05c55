//! Checks on a netlist before it is uploaded: indices are unique and the
//! built-in nets are present, unrenamed and still hold their node.
use vstd::prelude::*;
use crate::text::str_eq;
use crate::types::{Net, Node};

verus! {

/// What is wrong with a netlist.
#[derive(Debug, Clone, Copy, PartialEq, Eq, Structural)]
pub enum NetlistError {
    /// Two nets share this index.
    DuplicateIndex(u8),
    /// The built-in net with this index is missing.
    MissingSpecial(u8),
    /// The built-in net with this index has another name.
    RenamedSpecial(u8),
    /// The built-in net with this index lacks its node.
    SpecialMissingNode(u8),
}

/// The built-in nets, in the order they are checked: index, name and node.
pub open spec fn special_net(k: int) -> (u8, Seq<char>, Node) {
    if k == 0 {
        (1, seq!['G', 'N', 'D'], Node::GND)
    } else if k == 1 {
        (2, seq!['+', '5', 'V'], Node::SUPPLY_5V)
    } else if k == 2 {
        (3, seq!['+', '3', '.', '3', 'V'], Node::SUPPLY_3V3)
    } else if k == 3 {
        (4, seq!['D', 'A', 'C', ' ', '0'], Node::DAC0)
    } else if k == 4 {
        (5, seq!['D', 'A', 'C', ' ', '1'], Node::DAC1)
    } else if k == 5 {
        (6, seq!['I', ' ', 'S', 'e', 'n', 's', 'e', ' ', '+'], Node::ISENSE_PLUS)
    } else {
        (7, seq!['I', ' ', 'S', 'e', 'n', 's', 'e', ' ', '-'], Node::ISENSE_MINUS)
    }
}

/// Whether an earlier net has the same index as net `j`.
pub open spec fn repeats_index(nets: Seq<Net>, j: int) -> bool {
    exists|i: int| 0 <= i < j && nets[i].index == nets[j].index
}

pub open spec fn has_index(nets: Seq<Net>, idx: u8) -> bool {
    exists|i: int| 0 <= i < nets.len() && nets[i].index == idx
}

/// What is wrong with the built-in net `k`, if anything.
pub open spec fn special_problem(nets: Seq<Net>, k: int) -> Option<NetlistError> {
    let (idx, name, node) = special_net(k);
    if !has_index(nets, idx) {
        Some(NetlistError::MissingSpecial(idx))
    } else {
        let i = choose|i: int| 0 <= i < nets.len() && nets[i].index == idx;
        if nets[i].name@ != name {
            Some(NetlistError::RenamedSpecial(idx))
        } else if !nets[i].nodes@.contains(node) {
            Some(NetlistError::SpecialMissingNode(idx))
        } else {
            None
        }
    }
}

/// The first built-in net from `k` on that has a problem.
pub open spec fn first_special_problem(nets: Seq<Net>, k: int) -> Option<NetlistError>
    decreases 7 - k,
{
    if k >= 7 || k < 0 {
        None
    } else {
        match special_problem(nets, k) {
            Some(e) => Some(e),
            None => first_special_problem(nets, k + 1),
        }
    }
}

fn special_entry(k: usize) -> (r: (u8, &'static str, Node))
    requires
        k < 7,
    ensures
        r.0 == special_net(k as int).0,
        r.1@ == special_net(k as int).1,
        r.2 == special_net(k as int).2,
{
    proof {
        reveal_strlit("GND");
        reveal_strlit("+5V");
        reveal_strlit("+3.3V");
        reveal_strlit("DAC 0");
        reveal_strlit("DAC 1");
        reveal_strlit("I Sense +");
        reveal_strlit("I Sense -");
        assert("GND"@ =~= seq!['G', 'N', 'D']);
        assert("+5V"@ =~= seq!['+', '5', 'V']);
        assert("+3.3V"@ =~= seq!['+', '3', '.', '3', 'V']);
        assert("DAC 0"@ =~= seq!['D', 'A', 'C', ' ', '0']);
        assert("DAC 1"@ =~= seq!['D', 'A', 'C', ' ', '1']);
        assert("I Sense +"@ =~= seq!['I', ' ', 'S', 'e', 'n', 's', 'e', ' ', '+']);
        assert("I Sense -"@ =~= seq!['I', ' ', 'S', 'e', 'n', 's', 'e', ' ', '-']);
    }
    if k == 0 {
        (1, "GND", Node::GND)
    } else if k == 1 {
        (2, "+5V", Node::SUPPLY_5V)
    } else if k == 2 {
        (3, "+3.3V", Node::SUPPLY_3V3)
    } else if k == 3 {
        (4, "DAC 0", Node::DAC0)
    } else if k == 4 {
        (5, "DAC 1", Node::DAC1)
    } else if k == 5 {
        (6, "I Sense +", Node::ISENSE_PLUS)
    } else {
        (7, "I Sense -", Node::ISENSE_MINUS)
    }
}

fn find_index(nets: &Vec<Net>, idx: u8) -> (r: Option<usize>)
    ensures
        match r {
            Some(i) => i < nets@.len() && nets@[i as int].index == idx,
            None => !has_index(nets@, idx),
        },
{
    let mut i: usize = 0;
    while i < nets.len()
        invariant
            i <= nets@.len(),
            forall|k: int| 0 <= k < i ==> nets@[k].index != idx,
        decreases nets@.len() - i,
    {
        if nets[i].index == idx {
            return Some(i);
        }
        i = i + 1;
    }
    None
}

fn contains_node(nodes: &Vec<Node>, node: Node) -> (r: bool)
    ensures
        r == nodes@.contains(node),
{
    let mut i: usize = 0;
    while i < nodes.len()
        invariant
            i <= nodes@.len(),
            forall|k: int| 0 <= k < i ==> nodes@[k] != node,
        decreases nodes@.len() - i,
    {
        if nodes[i] == node {
            assert(nodes@[i as int] == node);
            return true;
        }
        i = i + 1;
    }
    false
}

/// Checks a netlist: first that no two nets share an index (reporting the
/// first net that repeats one), then each built-in net in turn.
pub fn netlist(input: Vec<Net>) -> (r: Result<Vec<Net>, NetlistError>)
    ensures
        match r {
            Ok(nets) => nets@ == input@ && (forall|j: int| 0 <= j < input@.len()
                ==> !repeats_index(input@, j)) && first_special_problem(input@, 0) is None,
            Err(NetlistError::DuplicateIndex(x)) => exists|j: int|
                0 <= j < input@.len() && repeats_index(input@, j) && input@[j].index == x
                    && forall|k: int| 0 <= k < j ==> !repeats_index(input@, k),
            Err(e) => (forall|j: int| 0 <= j < input@.len() ==> !repeats_index(input@, j))
                && first_special_problem(input@, 0) == Some(e),
        },
{
    let mut seen: Vec<bool> = Vec::new();
    let mut x: usize = 0;
    while x < 256
        invariant
            x <= 256,
            seen@.len() == x,
            forall|k: int| 0 <= k < x ==> !seen@[k],
        decreases 256 - x,
    {
        seen.push(false);
        x = x + 1;
    }
    let ghost all = input@;
    let mut j: usize = 0;
    while j < input.len()
        invariant
            all == input@,
            j <= all.len(),
            seen@.len() == 256,
            forall|v: int| 0 <= v < 256 ==> (seen@[v] <==> exists|i: int|
                0 <= i < j && all[i].index == v),
            forall|k: int| 0 <= k < j ==> !repeats_index(all, k),
        decreases all.len() - j,
    {
        let idx = input[j].index;
        if seen[idx as usize] {
            assert(seen@[idx as int]);
            assert(repeats_index(all, j as int));
            return Err(NetlistError::DuplicateIndex(idx));
        }
        assert(!seen@[idx as int]);
        assert(!repeats_index(all, j as int));
        seen.set(idx as usize, true);
        j = j + 1;
    }
    let mut k: usize = 0;
    while k < 7
        invariant
            all == input@,
            k <= 7,
            forall|j: int| 0 <= j < all.len() ==> !repeats_index(all, j),
            first_special_problem(all, 0) == first_special_problem(all, k as int),
        decreases 7 - k,
    {
        let (idx, name, node) = special_entry(k);
        match find_index(&input, idx) {
            None => {
                return Err(NetlistError::MissingSpecial(idx));
            },
            Some(i) => {
                proof {
                    let c = choose|c: int| 0 <= c < all.len() && all[c].index == idx;
                    if c != i {
                        if c < i {
                            assert(repeats_index(all, i as int));
                        } else {
                            assert(repeats_index(all, c));
                        }
                    }
                }
                if !str_eq(input[i].name.as_str(), name) {
                    return Err(NetlistError::RenamedSpecial(idx));
                }
                if !contains_node(&input[i].nodes, node) {
                    return Err(NetlistError::SpecialMissingNode(idx));
                }
            },
        }
        k = k + 1;
    }
    Ok(input)
}

} // verus!
