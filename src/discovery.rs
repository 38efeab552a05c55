//! Port discovery: which of the serial ports that the system lists belong to
//! the breadboard, and in which role.
use vstd::prelude::*;
use crate::parser::tag_at;
use crate::text::{chars_of, starts_with_at, str_eq};

verus! {

/// What the system tells about a USB serial port.
#[derive(Debug, Clone, PartialEq)]
pub struct UsbPortInfo {
    pub vid: u16,
    pub pid: u16,
    pub serial_number: Option<String>,
    pub manufacturer: Option<String>,
    pub product: Option<String>,
}

/// The kind of a serial port.
#[derive(Debug, Clone, PartialEq)]
pub enum SerialPortType {
    UsbPort(UsbPortInfo),
    PciPort,
    BluetoothPort,
    Unknown,
}

/// A serial port as the system lists it.
#[derive(Debug, Clone, PartialEq)]
pub struct SerialPortInfo {
    pub port_name: String,
    pub port_type: SerialPortType,
}

/// What discovery reads of a USB port.
pub struct UsbModel {
    pub vid: u16,
    pub pid: u16,
    pub serial_number: Option<Seq<char>>,
    pub manufacturer: Option<Seq<char>>,
    pub product: Option<Seq<char>>,
}

/// What discovery reads of a port: its name and, for a USB port, its USB data.
pub struct PortModel {
    pub name: Seq<char>,
    pub usb: Option<UsbModel>,
}

pub open spec fn opt_text(o: Option<String>) -> Option<Seq<char>> {
    match o {
        Some(s) => Some(s@),
        None => None,
    }
}

impl View for SerialPortInfo {
    type V = PortModel;

    open spec fn view(&self) -> PortModel {
        PortModel {
            name: self.port_name@,
            usb: match self.port_type {
                SerialPortType::UsbPort(u) => Some(
                    UsbModel {
                        vid: u.vid,
                        pid: u.pid,
                        serial_number: opt_text(u.serial_number),
                        manufacturer: opt_text(u.manufacturer),
                        product: opt_text(u.product),
                    },
                ),
                _ => None,
            },
        }
    }
}

/// The role of a discovered port.
#[derive(Debug, Clone, Copy, PartialEq, Eq, Structural)]
pub enum PortRole {
    /// Not the breadboard, as far as discovery can tell.
    Unknown,
    /// The breadboard's control port: its only port, or the one of its two
    /// ports with the greater name.
    JumperlessPrimary,
    /// The breadboard's second port, to its microcontroller.
    JumperlessArduino,
}

/// A port found by discovery, with its role.
#[derive(Debug, Clone, PartialEq)]
pub struct FoundPort {
    pub info: SerialPortInfo,
    pub role: PortRole,
}

impl FoundPort {
    /// The USB vendor and product id of the port.
    pub fn usb_id(&self) -> (r: (u16, u16))
        requires
            self.info@.usb is Some,
        ensures
            r == (self.info@.usb->0.vid, self.info@.usb->0.pid),
    {
        match &self.info.port_type {
            SerialPortType::UsbPort(u) => (u.vid, u.pid),
            _ => (0, 0),
        }
    }
}

pub open spec fn models(ps: Seq<SerialPortInfo>) -> Seq<PortModel> {
    ps.map_values(|p: SerialPortInfo| p@)
}

pub open spec fn port_id(p: PortModel) -> Option<(u16, u16)> {
    match p.usb {
        Some(u) => Some((u.vid, u.pid)),
        None => None,
    }
}

/// The USB ids of the ports, each once, in the order they first appear.
pub open spec fn group_ids(ms: Seq<PortModel>) -> Seq<(u16, u16)>
    decreases ms.len(),
{
    if ms.len() == 0 {
        Seq::empty()
    } else {
        let earlier = group_ids(ms.drop_last());
        match port_id(ms.last()) {
            Some(id) => if earlier.contains(id) {
                earlier
            } else {
                earlier.push(id)
            },
            None => earlier,
        }
    }
}

/// The ports with USB id `id`, in order.
pub open spec fn members(ms: Seq<PortModel>, id: (u16, u16)) -> Seq<PortModel>
    decreases ms.len(),
{
    if ms.len() == 0 {
        Seq::empty()
    } else if port_id(ms.last()) == Some(id) {
        members(ms.drop_last(), id).push(ms.last())
    } else {
        members(ms.drop_last(), id)
    }
}

pub open spec fn product_name() -> Seq<char> {
    seq!['J', 'u', 'm', 'p', 'e', 'r', 'l', 'e', 's', 's']
}

pub open spec fn cu_prefix() -> Seq<char> {
    seq!['/', 'd', 'e', 'v', '/', 'c', 'u', '.']
}

pub open spec fn tty_prefix() -> Seq<char> {
    seq!['/', 'd', 'e', 'v', '/', 't', 't', 'y', '.']
}

pub open spec fn is_cu(p: PortModel) -> bool {
    tag_at(p.name, 0, cu_prefix())
}

pub open spec fn is_tty(p: PortModel) -> bool {
    tag_at(p.name, 0, tty_prefix())
}

/// The ports whose name starts with the `cu` prefix, in order.
pub open spec fn cu_only(g: Seq<PortModel>) -> Seq<PortModel>
    decreases g.len(),
{
    if g.len() == 0 {
        g
    } else if is_cu(g.last()) {
        cu_only(g.drop_last()).push(g.last())
    } else {
        cu_only(g.drop_last())
    }
}

/// Where one port shows up under both a `cu` and a `tty` name, only the `cu`
/// names are kept.
pub open spec fn fixup(g: Seq<PortModel>) -> Seq<PortModel> {
    if (exists|i: int| 0 <= i < g.len() && is_cu(#[trigger] g[i])) && (exists|i: int|
        0 <= i < g.len() && is_tty(#[trigger] g[i])) {
        cu_only(g)
    } else {
        g
    }
}

/// Whether `a` comes after `b` in the order of `String`.
pub open spec fn text_greater(a: Seq<char>, b: Seq<char>) -> bool
    decreases a.len(),
{
    if a.len() == 0 {
        false
    } else if b.len() == 0 {
        true
    } else if a[0] != b[0] {
        a[0] > b[0]
    } else {
        text_greater(a.drop_first(), b.drop_first())
    }
}

/// The roles of one group of ports that share a USB id.
pub open spec fn group_roles(g: Seq<PortModel>) -> Seq<(PortModel, PortRole)> {
    if g.len() > 0 && g[0].usb is Some && g[0].usb->0.product == Some(product_name()) {
        let h = fixup(g);
        if h.len() == 1 {
            seq![(h[0], PortRole::JumperlessPrimary)]
        } else if h.len() == 2 {
            if text_greater(h[1].name, h[0].name) {
                seq![(h[1], PortRole::JumperlessPrimary), (h[0], PortRole::JumperlessArduino)]
            } else {
                seq![(h[0], PortRole::JumperlessPrimary), (h[1], PortRole::JumperlessArduino)]
            }
        } else {
            Seq::empty()
        }
    } else {
        unknown_roles(g)
    }
}

/// Each port with an unknown role.
pub open spec fn unknown_roles(g: Seq<PortModel>) -> Seq<(PortModel, PortRole)> {
    g.map_values(|p: PortModel| (p, PortRole::Unknown))
}

/// The roles of the groups with the given ids, group after group.
pub open spec fn assign_roles(ms: Seq<PortModel>, ids: Seq<(u16, u16)>) -> Seq<(PortModel, PortRole)>
    decreases ids.len(),
{
    if ids.len() == 0 {
        Seq::empty()
    } else {
        assign_roles(ms, ids.drop_last()) + group_roles(members(ms, ids.last()))
    }
}

/// What discovery finds among the listed ports.
pub open spec fn discover(ms: Seq<PortModel>) -> Seq<(PortModel, PortRole)> {
    assign_roles(ms, group_ids(ms))
}

pub open spec fn found_models(fs: Seq<FoundPort>) -> Seq<(PortModel, PortRole)> {
    fs.map_values(|f: FoundPort| (f.info@, f.role))
}

fn copy_text(o: &Option<String>) -> (r: Option<String>)
    ensures
        opt_text(r) == opt_text(*o),
{
    match o {
        Some(s) => Some(s.clone()),
        None => None,
    }
}

impl SerialPortInfo {
    /// A copy of the port's data.
    pub fn duplicate(&self) -> (r: SerialPortInfo)
        ensures
            r@ == self@,
    {
        let port_type = match &self.port_type {
            SerialPortType::UsbPort(u) => SerialPortType::UsbPort(
                UsbPortInfo {
                    vid: u.vid,
                    pid: u.pid,
                    serial_number: copy_text(&u.serial_number),
                    manufacturer: copy_text(&u.manufacturer),
                    product: copy_text(&u.product),
                },
            ),
            SerialPortType::PciPort => SerialPortType::PciPort,
            SerialPortType::BluetoothPort => SerialPortType::BluetoothPort,
            SerialPortType::Unknown => SerialPortType::Unknown,
        };
        SerialPortInfo { port_name: self.port_name.clone(), port_type }
    }

    fn id(&self) -> (r: Option<(u16, u16)>)
        ensures
            r == port_id(self@),
    {
        match &self.port_type {
            SerialPortType::UsbPort(u) => Some((u.vid, u.pid)),
            _ => None,
        }
    }
}

proof fn lemma_models_prefix(ps: Seq<SerialPortInfo>, i: int)
    requires
        0 <= i < ps.len(),
    ensures
        models(ps.subrange(0, i + 1)).drop_last() == models(ps.subrange(0, i)),
        models(ps.subrange(0, i + 1)).last() == ps[i]@,
        models(ps.subrange(0, i + 1)).len() == i + 1,
{
    assert(models(ps.subrange(0, i + 1)).drop_last() =~= models(ps.subrange(0, i)));
}

proof fn lemma_models_all(ps: Seq<SerialPortInfo>)
    ensures
        models(ps.subrange(0, ps.len() as int)) == models(ps),
{
    assert(ps.subrange(0, ps.len() as int) =~= ps);
}

fn contains_id(ids: &Vec<(u16, u16)>, id: (u16, u16)) -> (r: bool)
    ensures
        r == ids@.contains(id),
{
    let mut k: usize = 0;
    while k < ids.len()
        invariant
            k <= ids@.len(),
            forall|j: int| 0 <= j < k ==> ids@[j] != id,
        decreases ids@.len() - k,
    {
        if ids[k].0 == id.0 && ids[k].1 == id.1 {
            assert(ids@[k as int] == id);
            return true;
        }
        k = k + 1;
    }
    false
}

fn group_ids_of(ports: &Vec<SerialPortInfo>) -> (r: Vec<(u16, u16)>)
    ensures
        r@ == group_ids(models(ports@)),
{
    let mut ids: Vec<(u16, u16)> = Vec::new();
    let mut i: usize = 0;
    while i < ports.len()
        invariant
            i <= ports@.len(),
            ids@ == group_ids(models(ports@.subrange(0, i as int))),
        decreases ports@.len() - i,
    {
        proof {
            lemma_models_prefix(ports@, i as int);
        }
        match ports[i].id() {
            Some(id) => {
                if !contains_id(&ids, id) {
                    ids.push(id);
                }
            },
            None => {},
        }
        i = i + 1;
    }
    proof {
        lemma_models_all(ports@);
    }
    ids
}

fn members_of(ports: &Vec<SerialPortInfo>, id: (u16, u16)) -> (r: Vec<SerialPortInfo>)
    ensures
        models(r@) == members(models(ports@), id),
{
    let mut g: Vec<SerialPortInfo> = Vec::new();
    let mut i: usize = 0;
    while i < ports.len()
        invariant
            i <= ports@.len(),
            models(g@) == members(models(ports@.subrange(0, i as int)), id),
        decreases ports@.len() - i,
    {
        proof {
            lemma_models_prefix(ports@, i as int);
        }
        match ports[i].id() {
            Some(pid) => {
                if pid.0 == id.0 && pid.1 == id.1 {
                    let ghost before = g@;
                    g.push(ports[i].duplicate());
                    assert(models(g@) =~= models(before).push(ports@[i as int]@));
                }
            },
            None => {},
        }
        i = i + 1;
    }
    proof {
        lemma_models_all(ports@);
    }
    g
}

fn starts_with_text(name: &String, prefix: &Vec<char>) -> (r: bool)
    ensures
        r == tag_at(name@, 0, prefix@),
{
    let v = chars_of(name.as_str());
    starts_with_at(&v, 0, prefix)
}

fn prefix_chars(cu: bool) -> (r: Vec<char>)
    ensures
        cu ==> r@ == cu_prefix(),
        !cu ==> r@ == tty_prefix(),
{
    proof {
        reveal_strlit("/dev/cu.");
        reveal_strlit("/dev/tty.");
        assert("/dev/cu."@ =~= cu_prefix());
        assert("/dev/tty."@ =~= tty_prefix());
    }
    if cu {
        chars_of("/dev/cu.")
    } else {
        chars_of("/dev/tty.")
    }
}

/// Drops the `tty` names of ports that also show up under a `cu` name: where
/// both kinds of name are present, only the `cu` ones are kept.
pub fn fixup_mac_ports(infos: &mut Vec<SerialPortInfo>)
    ensures
        models(final(infos)@) == fixup(models(old(infos)@)),
{
    let cu_p = prefix_chars(true);
    let tty_p = prefix_chars(false);
    let ghost ms = models(infos@);
    let mut cu = false;
    let mut tty = false;
    let mut i: usize = 0;
    while i < infos.len()
        invariant
            i <= infos@.len(),
            ms == models(infos@),
            cu_p@ == cu_prefix(),
            tty_p@ == tty_prefix(),
            cu == exists|k: int| 0 <= k < i && is_cu(#[trigger] ms[k]),
            tty == exists|k: int| 0 <= k < i && is_tty(#[trigger] ms[k]),
        decreases infos@.len() - i,
    {
        assert(ms[i as int] == infos@[i as int]@);
        if starts_with_text(&infos[i].port_name, &cu_p) {
            cu = true;
        }
        if starts_with_text(&infos[i].port_name, &tty_p) {
            tty = true;
        }
        i = i + 1;
    }
    if cu && tty {
        let mut kept: Vec<SerialPortInfo> = Vec::new();
        let mut j: usize = 0;
        while j < infos.len()
            invariant
                j <= infos@.len(),
                ms == models(infos@),
                cu_p@ == cu_prefix(),
                models(kept@) == cu_only(models(infos@.subrange(0, j as int))),
            decreases infos@.len() - j,
        {
            proof {
                lemma_models_prefix(infos@, j as int);
            }
            if starts_with_text(&infos[j].port_name, &cu_p) {
                let ghost before = kept@;
                kept.push(infos[j].duplicate());
                assert(models(kept@) =~= models(before).push(infos@[j as int]@));
            }
            j = j + 1;
        }
        proof {
            lemma_models_all(infos@);
        }
        *infos = kept;
    }
}

/// Whether name `a` comes after name `b` in the order of `String`.
fn name_greater(a: &String, b: &String) -> (r: bool)
    ensures
        r == text_greater(a@, b@),
{
    let x = chars_of(a.as_str());
    let y = chars_of(b.as_str());
    let mut i: usize = 0;
    assert(x@.subrange(0, x@.len() as int) =~= x@);
    assert(y@.subrange(0, y@.len() as int) =~= y@);
    while i < x.len() && i < y.len() && x[i] == y[i]
        invariant
            i <= x@.len(),
            i <= y@.len(),
            text_greater(a@, b@) == text_greater(
                x@.subrange(i as int, x@.len() as int),
                y@.subrange(i as int, y@.len() as int),
            ),
        decreases x@.len() - i,
    {
        assert(x@.subrange(i as int, x@.len() as int).drop_first() =~= x@.subrange(
            i + 1,
            x@.len() as int,
        ));
        assert(y@.subrange(i as int, y@.len() as int).drop_first() =~= y@.subrange(
            i + 1,
            y@.len() as int,
        ));
        i = i + 1;
    }
    if i == x.len() {
        false
    } else if i == y.len() {
        true
    } else {
        x[i] > y[i]
    }
}

fn is_product(p: &SerialPortInfo) -> (r: bool)
    ensures
        r == (p@.usb is Some && p@.usb->0.product == Some(product_name())),
{
    proof {
        reveal_strlit("Jumperless");
        assert("Jumperless"@ =~= product_name());
    }
    match &p.port_type {
        SerialPortType::UsbPort(u) => match &u.product {
            Some(name) => str_eq(name.as_str(), "Jumperless"),
            None => false,
        },
        _ => false,
    }
}

fn group_roles_of(g: Vec<SerialPortInfo>) -> (r: Vec<FoundPort>)
    ensures
        found_models(r@) == group_roles(models(g@)),
{
    let ghost ms = models(g@);
    if g.len() > 0 && is_product(&g[0]) {
        let mut h = g;
        fixup_mac_ports(&mut h);
        let mut r: Vec<FoundPort> = Vec::new();
        if h.len() == 1 {
            r.push(FoundPort { info: h[0].duplicate(), role: PortRole::JumperlessPrimary });
            assert(found_models(r@) =~= group_roles(ms));
        } else if h.len() == 2 {
            if name_greater(&h[1].port_name, &h[0].port_name) {
                r.push(FoundPort { info: h[1].duplicate(), role: PortRole::JumperlessPrimary });
                r.push(FoundPort { info: h[0].duplicate(), role: PortRole::JumperlessArduino });
            } else {
                r.push(FoundPort { info: h[0].duplicate(), role: PortRole::JumperlessPrimary });
                r.push(FoundPort { info: h[1].duplicate(), role: PortRole::JumperlessArduino });
            }
            assert(found_models(r@) =~= group_roles(ms));
        } else {
            assert(found_models(r@) =~= group_roles(ms));
        }
        r
    } else {
        let mut r: Vec<FoundPort> = Vec::new();
        let mut i: usize = 0;
        while i < g.len()
            invariant
                i <= g@.len(),
                ms == models(g@),
                r@.len() == i,
                found_models(r@) == unknown_roles(models(g@.subrange(0, i as int))),
            decreases g@.len() - i,
        {
            proof {
                lemma_models_prefix(g@, i as int);
            }
            let ghost before = r@;
            r.push(FoundPort { info: g[i].duplicate(), role: PortRole::Unknown });
            assert forall|k: int| 0 <= k < i + 1 implies #[trigger] found_models(r@)[k]
                == unknown_roles(models(g@.subrange(0, i + 1)))[k] by {
                if k < i {
                    assert(r@[k] == before[k]);
                    assert(found_models(before)[k] == unknown_roles(models(g@.subrange(0, i as int)))[k]);
                    assert(models(g@.subrange(0, i + 1))[k] == models(g@.subrange(0, i as int))[k]);
                }
            }
            assert(found_models(r@) =~= unknown_roles(models(g@.subrange(0, i + 1))));
            i = i + 1;
        }
        proof {
            lemma_models_all(g@);
        }
        r
    }
}

/// Groups the listed ports by USB id, in the order the ids first appear, and
/// gives each port of a group its role: a group whose product is the
/// breadboard yields its one port as primary, or of its two ports the one
/// with the greater name as primary and the other as the microcontroller
/// port, or nothing when it has more; any other group yields its ports with
/// an unknown role. Ports that are not USB ports are left out.
pub fn list_ports(ports: Vec<SerialPortInfo>) -> (r: Vec<FoundPort>)
    ensures
        found_models(r@) == discover(models(ports@)),
{
    let ids = group_ids_of(&ports);
    let ghost ms = models(ports@);
    let mut found: Vec<FoundPort> = Vec::new();
    let mut k: usize = 0;
    while k < ids.len()
        invariant
            k <= ids@.len(),
            ms == models(ports@),
            ids@ == group_ids(ms),
            found_models(found@) == assign_roles(ms, ids@.subrange(0, k as int)),
        decreases ids@.len() - k,
    {
        let g = members_of(&ports, ids[k]);
        let mut roles = group_roles_of(g);
        let ghost before = found@;
        let ghost added = roles@;
        found.append(&mut roles);
        proof {
            assert(ids@.subrange(0, k + 1).drop_last() =~= ids@.subrange(0, k as int));
            assert(found@ =~= before + added);
            assert(found_models(found@) =~= found_models(before) + found_models(added));
        }
        k = k + 1;
    }
    assert(ids@.subrange(0, ids@.len() as int) =~= ids@);
    found
}

/// Whether a group is the breadboard's but, after the `cu`/`tty` fixup, has
/// more than two ports: an anomaly that gets no role.
pub open spec fn is_oversized(g: Seq<PortModel>) -> bool {
    g.len() > 0 && g[0].usb is Some && g[0].usb->0.product == Some(product_name()) && fixup(g).len()
        > 2
}

/// The ids among `ids` whose group is oversized, in order.
pub open spec fn oversized_ids(ms: Seq<PortModel>, ids: Seq<(u16, u16)>) -> Seq<(u16, u16)>
    decreases ids.len(),
{
    if ids.len() == 0 {
        Seq::empty()
    } else {
        let r = oversized_ids(ms, ids.drop_last());
        if is_oversized(members(ms, ids.last())) {
            r.push(ids.last())
        } else {
            r
        }
    }
}

/// The USB ids of the breadboard groups that discovery leaves without roles
/// because they have more than two ports.
pub fn oversized_groups(ports: &Vec<SerialPortInfo>) -> (r: Vec<(u16, u16)>)
    ensures
        r@ == oversized_ids(models(ports@), group_ids(models(ports@))),
{
    let ids = group_ids_of(ports);
    let ghost ms = models(ports@);
    let mut out: Vec<(u16, u16)> = Vec::new();
    let mut k: usize = 0;
    while k < ids.len()
        invariant
            k <= ids@.len(),
            ms == models(ports@),
            out@ == oversized_ids(ms, ids@.subrange(0, k as int)),
        decreases ids@.len() - k,
    {
        proof {
            assert(ids@.subrange(0, k + 1).drop_last() =~= ids@.subrange(0, k as int));
        }
        let mut g = members_of(ports, ids[k]);
        if g.len() > 0 && is_product(&g[0]) {
            fixup_mac_ports(&mut g);
            if g.len() > 2 {
                out.push(ids[k]);
            }
        }
        k = k + 1;
    }
    assert(ids@.subrange(0, ids@.len() as int) =~= ids@);
    out
}

proof fn lemma_members_have_id(ms: Seq<PortModel>, id: (u16, u16))
    ensures
        forall|k: int| 0 <= k < members(ms, id).len() ==> port_id(#[trigger] members(ms, id)[k])
            == Some(id),
        forall|k: int| 0 <= k < members(ms, id).len() ==> ms.contains(#[trigger] members(ms, id)[k]),
    decreases ms.len(),
{
    if ms.len() > 0 {
        lemma_members_have_id(ms.drop_last(), id);
        let m = members(ms, id);
        let e = members(ms.drop_last(), id);
        assert forall|k: int| 0 <= k < m.len() implies ms.contains(#[trigger] m[k]) by {
            if k < e.len() {
                assert(m[k] == e[k]);
                let j = choose|j: int| 0 <= j < ms.drop_last().len() && ms.drop_last()[j] == e[k];
                assert(ms[j] == e[k]);
            } else {
                assert(m[k] == ms.last());
                assert(ms[ms.len() - 1] == ms.last());
            }
        }
        assert forall|k: int| 0 <= k < m.len() implies port_id(#[trigger] m[k]) == Some(id) by {
            if k < e.len() {
                assert(m[k] == e[k]);
            }
        }
    }
}

proof fn lemma_nonempty_group_listed(ms: Seq<PortModel>, id: (u16, u16))
    requires
        members(ms, id).len() > 0,
    ensures
        group_ids(ms).contains(id),
    decreases ms.len(),
{
    if ms.len() > 0 {
        let earlier = group_ids(ms.drop_last());
        if port_id(ms.last()) == Some(id) {
            if earlier.contains(id) {
            } else {
                assert(group_ids(ms) == earlier.push(id));
                assert(group_ids(ms)[earlier.len() as int] == id);
            }
        } else {
            lemma_nonempty_group_listed(ms.drop_last(), id);
            let j = choose|j: int| 0 <= j < earlier.len() && earlier[j] == id;
            match port_id(ms.last()) {
                Some(other) => {
                    if !earlier.contains(other) {
                        assert(group_ids(ms)[j] == id);
                    }
                },
                None => {},
            }
        }
    }
}

proof fn lemma_cu_only(g: Seq<PortModel>)
    ensures
        forall|k: int| 0 <= k < cu_only(g).len() ==> g.contains(#[trigger] cu_only(g)[k]),
        forall|k: int| 0 <= k < cu_only(g).len() ==> is_cu(#[trigger] cu_only(g)[k]),
    decreases g.len(),
{
    if g.len() > 0 {
        lemma_cu_only(g.drop_last());
        let c = cu_only(g);
        let e = cu_only(g.drop_last());
        assert forall|k: int| 0 <= k < c.len() implies g.contains(#[trigger] c[k]) && is_cu(c[k]) by {
            if k < e.len() {
                assert(c[k] == e[k]);
                let j = choose|j: int| 0 <= j < g.drop_last().len() && g.drop_last()[j] == e[k];
                assert(g[j] == e[k]);
            } else {
                assert(c[k] == g.last());
                assert(g[g.len() - 1] == g.last());
            }
        }
    }
}

/// Every port that a group's roles name is a port of the group.
proof fn lemma_roles_from_group(g: Seq<PortModel>)
    ensures
        forall|k: int| 0 <= k < group_roles(g).len() ==> g.contains(#[trigger] group_roles(g)[k].0),
{
    lemma_cu_only(g);
    let r = group_roles(g);
    let h = fixup(g);
    assert forall|k: int| 0 <= k < r.len() implies g.contains(#[trigger] r[k].0) by {
        if g.len() > 0 && g[0].usb is Some && g[0].usb->0.product == Some(product_name()) {
            assert(r[k].0 == h[0] || r[k].0 == h[1]);
            if h != g {
                assert(h == cu_only(g));
            }
            if r[k].0 == h[0] {
                if h == g {
                    assert(g[0] == h[0]);
                }
            } else {
                if h == g {
                    assert(g[1] == h[1]);
                }
            }
        } else {
            assert(r[k].0 == g[k]);
        }
    }
}

/// The roles of a listed group appear among the roles found, and every found
/// role for a port with that group's id comes from that group.
proof fn lemma_assign_roles(ms: Seq<PortModel>, ids: Seq<(u16, u16)>, id: (u16, u16))
    ensures
        ids.contains(id) ==> forall|k: int| 0 <= k < group_roles(members(ms, id)).len()
            ==> assign_roles(ms, ids).contains(#[trigger] group_roles(members(ms, id))[k]),
        forall|k: int| 0 <= k < assign_roles(ms, ids).len() && port_id(assign_roles(ms, ids)[k].0)
            == Some(id) ==> group_roles(members(ms, id)).contains(#[trigger] assign_roles(ms, ids)[k]),
    decreases ids.len(),
{
    if ids.len() > 0 {
        lemma_assign_roles(ms, ids.drop_last(), id);
        let a = assign_roles(ms, ids.drop_last());
        let last = ids.last();
        let gr = group_roles(members(ms, last));
        let all = assign_roles(ms, ids);
        assert(all == a + gr);
        let mine = group_roles(members(ms, id));
        if ids.contains(id) {
            assert forall|k: int| 0 <= k < mine.len() implies all.contains(#[trigger] mine[k]) by {
                if last == id {
                    assert(all[a.len() + k] == mine[k]);
                } else {
                    let j = choose|j: int| 0 <= j < ids.len() && ids[j] == id;
                    assert(ids.drop_last()[j] == id);
                    let i = choose|i: int| 0 <= i < a.len() && a[i] == mine[k];
                    assert(all[i] == mine[k]);
                }
            }
        }
        lemma_roles_from_group(members(ms, last));
        lemma_members_have_id(ms, last);
        assert forall|k: int| 0 <= k < all.len() && port_id(all[k].0) == Some(id) implies mine.contains(
            #[trigger] all[k],
        ) by {
            if k < a.len() {
                assert(all[k] == a[k]);
            } else {
                let x = all[k];
                assert(x == gr[k - a.len()]);
                let g = members(ms, last);
                let j = choose|j: int| 0 <= j < g.len() && g[j] == x.0;
                assert(port_id(g[j]) == Some(last));
                assert(last == id);
                assert(mine[k - a.len()] == x);
            }
        }
    }
}

/// The roles discovery gives are exactly those of the groups: a group's
/// roles are all found, and any found role for a port with the group's USB id
/// is one of them.
pub proof fn lemma_discovered_group(ms: Seq<PortModel>, id: (u16, u16))
    requires
        members(ms, id).len() > 0,
    ensures
        forall|k: int| 0 <= k < group_roles(members(ms, id)).len() ==> discover(ms).contains(
            #[trigger] group_roles(members(ms, id))[k],
        ),
        forall|k: int| 0 <= k < discover(ms).len() && port_id(discover(ms)[k].0) == Some(id)
            ==> group_roles(members(ms, id)).contains(#[trigger] discover(ms)[k]),
{
    lemma_nonempty_group_listed(ms, id);
    lemma_assign_roles(ms, group_ids(ms), id);
}

proof fn lemma_text_greater_asymmetric(a: Seq<char>, b: Seq<char>)
    ensures
        text_greater(a, b) ==> !text_greater(b, a),
    decreases a.len(),
{
    if a.len() > 0 && b.len() > 0 && a[0] == b[0] {
        lemma_text_greater_asymmetric(a.drop_first(), b.drop_first());
    }
}

pub open spec fn is_breadboard(p: PortModel) -> bool {
    p.usb is Some && p.usb->0.product == Some(product_name())
}

/// Where the ports of the breadboard's USB id come down to two, `p` and `q`
/// with `p` the greater name, `p` is found as primary and `q` as the
/// microcontroller port, whatever other ports are listed, and no other role
/// is found for a port with that id.
pub proof fn lemma_two_ports(ms: Seq<PortModel>, id: (u16, u16), p: PortModel, q: PortModel)
    requires
        members(ms, id).len() > 0,
        is_breadboard(members(ms, id)[0]),
        fixup(members(ms, id)) == seq![p, q] || fixup(members(ms, id)) == seq![q, p],
        text_greater(p.name, q.name),
    ensures
        discover(ms).contains((p, PortRole::JumperlessPrimary)),
        discover(ms).contains((q, PortRole::JumperlessArduino)),
        forall|k: int| 0 <= k < discover(ms).len() && port_id(discover(ms)[k].0) == Some(id) ==> (
        #[trigger] discover(ms)[k] == (p, PortRole::JumperlessPrimary) || discover(ms)[k] == (
        q,
        PortRole::JumperlessArduino,
        )),
{
    lemma_text_greater_asymmetric(p.name, q.name);
    lemma_discovered_group(ms, id);
    let r = group_roles(members(ms, id));
    assert(r =~= seq![(p, PortRole::JumperlessPrimary), (q, PortRole::JumperlessArduino)]);
    assert(r.contains(r[0]) && r.contains(r[1]));
    assert(discover(ms).contains(r[0]));
    assert(discover(ms).contains(r[1]));
}

/// Where the ports of the breadboard's USB id come down to one, `p`, it is
/// found as primary and is the only role found for that id.
pub proof fn lemma_single_port(ms: Seq<PortModel>, id: (u16, u16), p: PortModel)
    requires
        members(ms, id).len() > 0,
        is_breadboard(members(ms, id)[0]),
        fixup(members(ms, id)) == seq![p],
    ensures
        discover(ms).contains((p, PortRole::JumperlessPrimary)),
        forall|k: int| 0 <= k < discover(ms).len() && port_id(discover(ms)[k].0) == Some(id) ==> (
        #[trigger] discover(ms)[k] == (p, PortRole::JumperlessPrimary)),
{
    lemma_discovered_group(ms, id);
    let r = group_roles(members(ms, id));
    assert(r =~= seq![(p, PortRole::JumperlessPrimary)]);
    assert(discover(ms).contains(r[0]));
}

/// A group with no mix of `cu` and `tty` names keeps all its ports.
pub proof fn lemma_fixup_unmixed(g: Seq<PortModel>)
    requires
        !((exists|i: int| 0 <= i < g.len() && is_cu(#[trigger] g[i])) && (exists|i: int|
            0 <= i < g.len() && is_tty(#[trigger] g[i]))),
    ensures
        fixup(g) == g,
{
}

/// Where the breadboard's ports show up under both `cu` and `tty` names, only
/// ports under a `cu` name are found for that id.
pub proof fn lemma_only_cu_found(ms: Seq<PortModel>, id: (u16, u16))
    requires
        members(ms, id).len() > 0,
        is_breadboard(members(ms, id)[0]),
        exists|i: int| 0 <= i < members(ms, id).len() && is_cu(#[trigger] members(ms, id)[i]),
        exists|i: int| 0 <= i < members(ms, id).len() && is_tty(#[trigger] members(ms, id)[i]),
    ensures
        forall|k: int| 0 <= k < discover(ms).len() && port_id(discover(ms)[k].0) == Some(id)
            ==> is_cu(#[trigger] discover(ms)[k].0),
{
    let g = members(ms, id);
    lemma_discovered_group(ms, id);
    lemma_cu_only(g);
    let h = fixup(g);
    assert(h == cu_only(g));
    let r = group_roles(g);
    assert forall|k: int| 0 <= k < discover(ms).len() && port_id(discover(ms)[k].0) == Some(id)
        implies is_cu(#[trigger] discover(ms)[k].0) by {
        let x = discover(ms)[k];
        let j = choose|j: int| 0 <= j < r.len() && r[j] == x;
        assert(x.0 == h[0] || x.0 == h[1]);
    }
}

} // verus!
