//! Keeping at most one live connection to the board: when to reuse it, when
//! to open a new one, which port to open, and dropping it after any failure.
use vstd::prelude::*;
use crate::discovery::{discover, found_models, list_ports, models, PortModel, SerialPortInfo};
pub use crate::discovery::{FoundPort, PortRole};

verus! {

/// Whether the board could be reached.
#[derive(Debug, Clone, Copy, PartialEq, Eq, Structural)]
pub struct Status {
    connected: bool,
}

impl Status {
    pub fn new(connected: bool) -> (r: Status)
        ensures
            r.connected() == connected,
    {
        Status { connected }
    }

    pub closed spec fn connected_spec(&self) -> bool {
        self.connected
    }

    #[verifier::when_used_as_spec(connected_spec)]
    pub fn connected(&self) -> (r: bool)
        ensures
            r == self.connected_spec(),
    {
        self.connected
    }
}

/// How a call gets its connection.
#[derive(Debug, Clone, Copy, PartialEq, Eq, Structural)]
pub enum Acquire {
    /// Use the connection that is held.
    Reuse,
    /// Open a new one.
    Open,
}

/// A held connection is reused only while its reader is alive.
pub open spec fn acquire_plan(holding: bool, alive: bool) -> Acquire {
    if holding && alive {
        Acquire::Reuse
    } else {
        Acquire::Open
    }
}

/// Whether the connection is kept after a call, given whether the call
/// succeeded: any failure drops it.
pub open spec fn kept_after(call_ok: bool) -> bool {
    call_ok
}

/// Why no port could be chosen.
#[derive(Debug, Clone, Copy, PartialEq, Eq, Structural)]
pub enum ManagerError {
    NoMatchingPort,
}

/// The name of the first port found as primary.
pub open spec fn first_primary(fs: Seq<(PortModel, PortRole)>) -> Option<Seq<char>>
    decreases fs.len(),
{
    if fs.len() == 0 {
        None
    } else if fs[0].1 == PortRole::JumperlessPrimary {
        Some(fs[0].0.name)
    } else {
        first_primary(fs.drop_first())
    }
}

/// Holds the connection to the board, if one is open, and the fixed port to
/// use, if one was given.
pub struct DeviceManager<D> {
    path: Option<String>,
    device: Option<D>,
}

impl<D> DeviceManager<D> {
    /// The connection held, if any.
    pub closed spec fn held(&self) -> Option<D> {
        self.device
    }

    pub open spec fn holds_device(&self) -> bool {
        self.held() is Some
    }

    pub closed spec fn fixed_path(&self) -> Option<Seq<char>> {
        match self.path {
            Some(p) => Some(p@),
            None => None,
        }
    }

    /// A manager without a connection. With a path, that port is always used
    /// and discovery is skipped.
    pub fn new(path: Option<String>) -> (r: DeviceManager<D>)
        ensures
            r.held() is None,
            r.fixed_path() == match path {
                Some(p) => Some(p@),
                None => None::<Seq<char>>,
            },
    {
        DeviceManager { path, device: None }
    }

    /// The connection held, if any.
    pub fn device(&self) -> (r: Option<&D>)
        ensures
            match self.held() {
                Some(d) => r == Some(&d),
                None => r is None,
            },
    {
        match &self.device {
            Some(d) => Some(d),
            None => None,
        }
    }

    /// How the next call gets its connection, given whether the reader of the
    /// held one is alive.
    pub fn plan(&self, alive: bool) -> (r: Acquire)
        ensures
            r == acquire_plan(self.holds_device(), alive),
    {
        if self.device.is_some() && alive {
            Acquire::Reuse
        } else {
            Acquire::Open
        }
    }

    /// Takes the held connection out, for the length of one call.
    pub fn take_device(&mut self) -> (r: Option<D>)
        ensures
            r == old(self).held(),
            final(self).held() is None,
            final(self).fixed_path() == old(self).fixed_path(),
    {
        let mut taken: Option<D> = None;
        std::mem::swap(&mut taken, &mut self.device);
        taken
    }

    /// Ends a call: the connection is kept only if the call succeeded, so
    /// that a failure of any kind makes the next call open a new one.
    pub fn settle<T, E>(&mut self, device: D, result: Result<T, E>) -> (r: Result<T, E>)
        ensures
            r == result,
            final(self).holds_device() == kept_after(result is Ok),
            final(self).held() == if result is Ok {
                Some(device)
            } else {
                None::<D>
            },
            final(self).fixed_path() == old(self).fixed_path(),
    {
        if result.is_ok() {
            self.device = Some(device);
        } else {
            self.device = None;
        }
        result
    }

    /// Drops the held connection.
    pub fn close_device(&mut self)
        ensures
            final(self).held() is None,
            final(self).fixed_path() == old(self).fixed_path(),
    {
        self.device = None;
    }

    /// Whether a fixed port was given, so that discovery is skipped.
    pub fn has_fixed_path(&self) -> (r: bool)
        ensures
            r == self.fixed_path() is Some,
    {
        self.path.is_some()
    }

    /// Lists the ports with their roles; see `discovery::list_ports`.
    pub fn list_ports(&self, ports: Vec<SerialPortInfo>) -> (r: Vec<FoundPort>)
        ensures
            found_models(r@) == discover(models(ports@)),
    {
        list_ports(ports)
    }

    /// The port to open: the fixed one if given, else the first port that
    /// discovery finds as primary among the listed ports.
    pub fn port_path(&self, ports: Vec<SerialPortInfo>) -> (r: Result<String, ManagerError>)
        ensures
            match self.fixed_path() {
                Some(p) => r is Ok && r->Ok_0@ == p,
                None => match first_primary(discover(models(ports@))) {
                    Some(name) => r is Ok && r->Ok_0@ == name,
                    None => r == Err::<String, ManagerError>(ManagerError::NoMatchingPort),
                },
            },
    {
        if let Some(p) = &self.path {
            return Ok(p.clone());
        }
        let found = list_ports(ports);
        let ghost fs = found_models(found@);
        assert(fs.subrange(0, fs.len() as int) =~= fs);
        let mut i: usize = 0;
        while i < found.len()
            invariant
                i <= found@.len(),
                fs == found_models(found@),
                fs == discover(models(ports@)),
                self.fixed_path() is None,
                first_primary(fs) == first_primary(fs.subrange(i as int, fs.len() as int)),
            decreases found@.len() - i,
        {
            let ghost rest = fs.subrange(i as int, fs.len() as int);
            assert(rest[0] == fs[i as int]);
            assert(fs[i as int] == (found@[i as int].info@, found@[i as int].role));
            if found[i].role == PortRole::JumperlessPrimary {
                return Ok(found[i].info.port_name.clone());
            }
            assert(rest.drop_first() =~= fs.subrange(i + 1, fs.len() as int));
            i = i + 1;
        }
        Err(ManagerError::NoMatchingPort)
    }
}

/// After a call whose closure failed, the next call opens a new connection
/// rather than reusing the old one, however alive that one looked.
pub proof fn lemma_failed_call_reopens(alive: bool)
    ensures
        acquire_plan(kept_after(false), alive) == Acquire::Open,
{
}

} // verus!
