//! What the LLDP control library tells.
use vstd::prelude::*;

use crate::number::{decimal, decimal_i64};
use crate::process::{lossy_of, lossy_text};
use crate::text::{contains, copy, has_text, join2, texts};

verus! {

// ---------------------------------------------------------------------------
// Keys of the library
// ---------------------------------------------------------------------------
/// The key of an interface's name.
pub const LLDPCTL_K_INTERFACE_NAME: u32 = 1000;

/// The key of the neighbors of a port.
pub const LLDPCTL_K_PORT_NEIGHBORS: u32 = 1200;

/// The key of a port's identifier.
pub const LLDPCTL_K_PORT_ID: u32 = 1204;

/// The key of the chassis of a port.
pub const LLDPCTL_K_PORT_CHASSIS: u32 = 1208;

/// The key of a chassis's name.
pub const LLDPCTL_K_CHASSIS_NAME: u32 = 1803;

// ---------------------------------------------------------------------------
// Errors
// ---------------------------------------------------------------------------
/// Why nothing could be told.
#[derive(Debug)]
pub enum LldpError {
    /// There is no connection to the daemon.
    ConnectionFailed,
    /// The interfaces could not be listed.
    InterfaceFetchFailed,
    /// Something that must be there is not.
    NullPointer(&'static str),
    /// The thread that asked ended badly.
    ThreadJoinFailed,
    /// The library, or what takes its place, cannot be used.
    LibraryNotAvailable(String),
}

/// Why nothing could be told, read as characters.
pub enum ErrorView {
    ConnectionFailed,
    InterfaceFetchFailed,
    NullPointer(Seq<char>),
    ThreadJoinFailed,
    LibraryNotAvailable(Seq<char>),
}

impl View for LldpError {
    type V = ErrorView;

    open spec fn view(&self) -> ErrorView {
        match *self {
            LldpError::ConnectionFailed => ErrorView::ConnectionFailed,
            LldpError::InterfaceFetchFailed => ErrorView::InterfaceFetchFailed,
            LldpError::NullPointer(s) => ErrorView::NullPointer(s@),
            LldpError::ThreadJoinFailed => ErrorView::ThreadJoinFailed,
            LldpError::LibraryNotAvailable(s) => ErrorView::LibraryNotAvailable(s@),
        }
    }
}

/// What an error says.
pub open spec fn error_text(e: ErrorView) -> Seq<char> {
    match e {
        ErrorView::ConnectionFailed => "LLDP connection failed"@,
        ErrorView::InterfaceFetchFailed => "Failed to fetch network interfaces"@,
        ErrorView::NullPointer(c) => "Null pointer encountered in: "@ + c,
        ErrorView::ThreadJoinFailed => "Blocking thread error"@,
        ErrorView::LibraryNotAvailable(m) => "LLDP library not available: "@ + m,
    }
}

impl LldpError {
    /// What the error says.
    pub fn message(&self) -> (r: String)
        ensures
            r@ == (match self@ {
                ErrorView::ConnectionFailed => "LLDP connection failed"@,
                ErrorView::InterfaceFetchFailed => "Failed to fetch network interfaces"@,
                ErrorView::NullPointer(c) => "Null pointer encountered in: "@ + c,
                ErrorView::ThreadJoinFailed => "Blocking thread error"@,
                ErrorView::LibraryNotAvailable(m) => "LLDP library not available: "@ + m,
            }),
            r@ == error_text(self@),
    {
        match self {
            LldpError::ConnectionFailed => copy("LLDP connection failed"),
            LldpError::InterfaceFetchFailed => copy("Failed to fetch network interfaces"),
            LldpError::NullPointer(c) => join2("Null pointer encountered in: ", c),
            LldpError::ThreadJoinFailed => copy("Blocking thread error"),
            LldpError::LibraryNotAvailable(m) => join2("LLDP library not available: ", m.as_str()),
        }
    }

    /// Whether asking again is of no use.
    pub fn is_lasting(&self) -> (r: bool)
        ensures
            r == self is LibraryNotAvailable,
    {
        match self {
            LldpError::LibraryNotAvailable(_) => true,
            _ => false,
        }
    }
}

/// What the error number of a failed call says.
pub open spec fn errno_text(errno: Option<i32>) -> Seq<char> {
    match errno {
        Some(2) => "No such file or directory"@,
        Some(13) => "Permission denied"@,
        Some(111) => "Connection refused"@,
        Some(n) => "System error: "@ + decimal(n as int),
        None => "Unknown connection error"@,
    }
}

/// What the error number of a failed call says.
pub fn get_last_error_message(errno: Option<i32>) -> (r: String)
    ensures
        r@ == errno_text(errno),
{
    match errno {
        Some(n) => if n == 2 {
            copy("No such file or directory")
        } else if n == 13 {
            copy("Permission denied")
        } else if n == 111 {
            copy("Connection refused")
        } else {
            let number = decimal_i64(n as i64);
            join2("System error: ", number.as_str())
        },
        None => copy("Unknown connection error"),
    }
}

/// A message says that there is no daemon to talk to.
pub open spec fn tells_of_socket(message: Seq<char>) -> bool {
    has_text(message, "unable to connect to socket"@) || has_text(
        message,
        "No such file or directory"@,
    ) || has_text(message, "Connection refused"@)
}

/// The error of a failed call: the library is of no use where there is no daemon to
/// talk to.
pub open spec fn call_error(
    errno: Option<i32>,
    lead: Seq<char>,
    otherwise: ErrorView,
) -> ErrorView {
    if tells_of_socket(errno_text(errno)) {
        ErrorView::LibraryNotAvailable(lead + errno_text(errno))
    } else {
        otherwise
    }
}

fn failed_call(errno: Option<i32>, lead: &str, otherwise: LldpError) -> (r: LldpError)
    ensures
        r@ == call_error(errno, lead@, otherwise@),
{
    let message = get_last_error_message(errno);
    if contains(message.as_str(), "unable to connect to socket") || contains(
        message.as_str(),
        "No such file or directory",
    ) || contains(message.as_str(), "Connection refused") {
        LldpError::LibraryNotAvailable(join2(lead, message.as_str()))
    } else {
        otherwise
    }
}

// ---------------------------------------------------------------------------
// What the library hands out
// ---------------------------------------------------------------------------
/// Whether the library can be called.
#[derive(Clone, Copy, Debug, PartialEq, Eq, Structural)]
pub enum LibraryState {
    /// It was loaded.
    Loaded,
    /// It was not found.
    NotFound,
    /// It was found, but its functions are not there.
    NoFunctions,
}

/// Where the library is looked for, in this order.
pub fn library_names() -> (r: Vec<String>)
    ensures
        texts(r@) == seq![
            "liblldpctl.so.4"@,
            "liblldpctl.so"@,
            "/usr/lib/x86_64-linux-gnu/liblldpctl.so.4"@,
            "/usr/lib/liblldpctl.so.4"@,
            "/lib/liblldpctl.so.4"@,
        ],
{
    let mut r: Vec<String> = Vec::new();
    r.push(copy("liblldpctl.so.4"));
    r.push(copy("liblldpctl.so"));
    r.push(copy("/usr/lib/x86_64-linux-gnu/liblldpctl.so.4"));
    r.push(copy("/usr/lib/liblldpctl.so.4"));
    r.push(copy("/lib/liblldpctl.so.4"));
    assert(texts(r@) =~= seq![
        "liblldpctl.so.4"@,
        "liblldpctl.so"@,
        "/usr/lib/x86_64-linux-gnu/liblldpctl.so.4"@,
        "/usr/lib/liblldpctl.so.4"@,
        "/lib/liblldpctl.so.4"@,
    ]);
    r
}

/// A neighbor of a port.
#[derive(Clone, Debug)]
pub struct NeighborAtom {
    /// The name of its chassis.
    pub chassis_name: Option<Vec<u8>>,
    /// The identifier of its port.
    pub port_id: Option<Vec<u8>>,
}

/// A port of an interface. What the library had nothing for is absent.
#[derive(Clone, Debug)]
pub struct PortAtom {
    /// The name of its chassis, where there is a chassis.
    pub chassis: Option<Option<Vec<u8>>>,
    /// Its neighbors.
    pub neighbors: Option<Vec<Option<NeighborAtom>>>,
}

/// An interface. What the library had nothing for is absent.
#[derive(Clone, Debug)]
pub struct InterfaceAtom {
    /// Its name.
    pub name: Option<Vec<u8>>,
    /// Its port.
    pub port: Option<PortAtom>,
}

/// The interfaces that the library listed, or the error number of the failed call.
#[derive(Clone, Debug)]
pub enum Listing {
    /// The interfaces.
    Listed(Vec<Option<InterfaceAtom>>),
    /// The call failed.
    Failed(Option<i32>),
}

/// An interface of this machine.
#[derive(Clone, Debug)]
pub struct LldpInterface {
    /// The interface.
    pub name: String,
    /// This machine.
    pub device_name: String,
}

/// A link of this machine.
#[derive(Clone, Debug)]
pub struct LldpNeighbor {
    /// The interface.
    pub local_interface: String,
    /// This machine.
    pub local_device: String,
    /// The device at the other end.
    pub remote_device: String,
    /// Its port.
    pub remote_port: String,
}

/// An interface, read as characters: interface and machine.
pub type InterfaceView = (Seq<char>, Seq<char>);

/// A link, read as characters.
#[verifier::ext_equal]
pub struct NeighborView {
    pub local_interface: Seq<char>,
    pub local_device: Seq<char>,
    pub remote_device: Seq<char>,
    pub remote_port: Seq<char>,
}

impl View for LldpInterface {
    type V = InterfaceView;

    open spec fn view(&self) -> InterfaceView {
        (self.name@, self.device_name@)
    }
}

impl View for LldpNeighbor {
    type V = NeighborView;

    open spec fn view(&self) -> NeighborView {
        NeighborView {
            local_interface: self.local_interface@,
            local_device: self.local_device@,
            remote_device: self.remote_device@,
            remote_port: self.remote_port@,
        }
    }
}

/// Interfaces, read as characters.
pub open spec fn interface_views(v: Seq<LldpInterface>) -> Seq<InterfaceView> {
    v.map_values(|i: LldpInterface| i@)
}

/// Links, read as characters.
pub open spec fn neighbor_views(v: Seq<LldpNeighbor>) -> Seq<NeighborView> {
    v.map_values(|n: LldpNeighbor| n@)
}

/// A result of interfaces, read as characters.
pub open spec fn interfaces_result(r: Result<Vec<LldpInterface>, LldpError>) -> Result<
    Seq<InterfaceView>,
    ErrorView,
> {
    match r {
        Ok(v) => Ok(interface_views(v@)),
        Err(e) => Err(e@),
    }
}

/// A result of links, read as characters.
pub open spec fn neighbors_result(r: Result<Vec<LldpNeighbor>, LldpError>) -> Result<
    Seq<NeighborView>,
    ErrorView,
> {
    match r {
        Ok(v) => Ok(neighbor_views(v@)),
        Err(e) => Err(e@),
    }
}

/// Interfaces with one more.
pub proof fn lemma_interface_views_push(v: Seq<LldpInterface>, i: LldpInterface)
    ensures
        interface_views(v.push(i)) == interface_views(v).push(i@),
{
    assert(interface_views(v.push(i)) =~= interface_views(v).push(i@));
}

/// Links with one more.
pub proof fn lemma_neighbor_views_push(v: Seq<LldpNeighbor>, n: LldpNeighbor)
    ensures
        neighbor_views(v.push(n)) == neighbor_views(v).push(n@),
{
    assert(neighbor_views(v.push(n)) =~= neighbor_views(v).push(n@));
}

/// A text of the library, empty where it is absent.
pub open spec fn atom_text(value: Option<Vec<u8>>) -> Seq<char> {
    match value {
        Some(b) => lossy_of(b@),
        None => Seq::empty(),
    }
}

/// A text of the library.
pub fn get_string_property(library: LibraryState, value: &Option<Vec<u8>>) -> (r: Result<
    String,
    LldpError,
>)
    ensures
        match (library, *value, r) {
            (LibraryState::Loaded, Some(b), Ok(s)) => s@ == lossy_of(b@),
            (LibraryState::Loaded, None, Err(e)) => e@ == ErrorView::NullPointer(
                "get_string_property"@,
            ),
            (LibraryState::NotFound, _, Err(e)) => e@ == ErrorView::LibraryNotAvailable(
                "LLDP library not available"@,
            ),
            (LibraryState::NoFunctions, _, Err(e)) => e@ == ErrorView::LibraryNotAvailable(
                "LLDP functions not loaded"@,
            ),
            _ => false,
        },
{
    match library {
        LibraryState::Loaded => match value {
            Some(b) => Ok(lossy_text(b)),
            None => Err(LldpError::NullPointer("get_string_property")),
        },
        LibraryState::NotFound => Err(
            LldpError::LibraryNotAvailable(copy("LLDP library not available")),
        ),
        LibraryState::NoFunctions => Err(
            LldpError::LibraryNotAvailable(copy("LLDP functions not loaded")),
        ),
    }
}

fn text_or_empty(value: &Option<Vec<u8>>) -> (r: String)
    ensures
        r@ == atom_text(*value),
{
    match get_string_property(LibraryState::Loaded, value) {
        Ok(s) => s,
        Err(_) => String::new(),
    }
}

/// The name of the chassis of an interface's port, where there is one.
pub open spec fn chassis_of(a: InterfaceAtom) -> Option<Option<Vec<u8>>> {
    match a.port {
        Some(p) => p.chassis,
        None => None,
    }
}

/// The interfaces that were listed: those whose port has a chassis.
pub open spec fn listed_interfaces(atoms: Seq<Option<InterfaceAtom>>) -> Seq<InterfaceView>
    decreases atoms.len(),
{
    if atoms.len() == 0 {
        Seq::empty()
    } else {
        let before = listed_interfaces(atoms.drop_last());
        match atoms.last() {
            Some(a) => match chassis_of(a) {
                Some(name) => before.push((atom_text(a.name), atom_text(name))),
                None => before,
            },
            None => before,
        }
    }
}

/// The links of one port.
pub open spec fn port_neighbors(
    interface: Seq<char>,
    device: Seq<char>,
    atoms: Seq<Option<NeighborAtom>>,
) -> Seq<NeighborView>
    decreases atoms.len(),
{
    if atoms.len() == 0 {
        Seq::empty()
    } else {
        let before = port_neighbors(interface, device, atoms.drop_last());
        match atoms.last() {
            Some(n) => before.push(
                NeighborView {
                    local_interface: interface,
                    local_device: device,
                    remote_device: atom_text(n.chassis_name),
                    remote_port: atom_text(n.port_id),
                },
            ),
            None => before,
        }
    }
}

/// The links that were listed: those of ports that have a chassis and neighbors.
pub open spec fn listed_neighbors(atoms: Seq<Option<InterfaceAtom>>) -> Seq<NeighborView>
    decreases atoms.len(),
{
    if atoms.len() == 0 {
        Seq::empty()
    } else {
        let before = listed_neighbors(atoms.drop_last());
        match atoms.last() {
            Some(a) => match a.port {
                Some(p) => match (p.chassis, p.neighbors) {
                    (Some(name), Some(ns)) => before + port_neighbors(
                        atom_text(a.name),
                        atom_text(name),
                        ns@,
                    ),
                    _ => before,
                },
                None => before,
            },
            None => before,
        }
    }
}

// ---------------------------------------------------------------------------
// The connection
// ---------------------------------------------------------------------------
/// A connection to the daemon.
#[derive(Debug)]
pub struct LldpHandle {
    library: LibraryState,
}

/// The error of a library that cannot be called.
pub open spec fn library_error(library: LibraryState) -> ErrorView {
    match library {
        LibraryState::NotFound => ErrorView::LibraryNotAvailable("LLDP library not available"@),
        _ => ErrorView::LibraryNotAvailable("LLDP functions not loaded"@),
    }
}

/// What the library tells of interfaces.
pub open spec fn told_interfaces(library: LibraryState, listing: Listing) -> Result<
    Seq<InterfaceView>,
    ErrorView,
> {
    if library !is Loaded {
        Err(library_error(library))
    } else {
        match listing {
            Listing::Listed(atoms) => Ok(listed_interfaces(atoms@)),
            Listing::Failed(errno) => Err(
                call_error(
                    errno,
                    "LLDP socket unavailable when fetching interfaces: "@,
                    ErrorView::InterfaceFetchFailed,
                ),
            ),
        }
    }
}

/// What the library tells of links.
pub open spec fn told_neighbors(library: LibraryState, listing: Listing) -> Result<
    Seq<NeighborView>,
    ErrorView,
> {
    if library !is Loaded {
        Err(library_error(library))
    } else {
        match listing {
            Listing::Listed(atoms) => Ok(listed_neighbors(atoms@)),
            Listing::Failed(errno) => Err(
                call_error(
                    errno,
                    "LLDP socket unavailable when fetching neighbors: "@,
                    ErrorView::InterfaceFetchFailed,
                ),
            ),
        }
    }
}

impl LldpHandle {
    /// Whether the library can be called.
    pub closed spec fn library(&self) -> LibraryState {
        self.library
    }

    /// The connection, from whether the library can be called and how its call for
    /// one went: an error number tells of a failure.
    pub fn new(library: LibraryState, connected: Result<(), Option<i32>>) -> (r: Result<
        LldpHandle,
        LldpError,
    >)
        ensures
            match (library, connected) {
                (LibraryState::NotFound, _) => r matches Err(e) && e@
                    == ErrorView::LibraryNotAvailable("liblldpctl library not found"@),
                (LibraryState::NoFunctions, _) => r matches Err(e) && e@ == library_error(library),
                (LibraryState::Loaded, Ok(_)) => r matches Ok(h) && h.library() == library,
                (LibraryState::Loaded, Err(errno)) => r matches Err(e) && e@ == call_error(
                    errno,
                    "LLDP socket unavailable: "@,
                    ErrorView::ConnectionFailed,
                ),
            },
    {
        match library {
            LibraryState::NotFound => Err(
                LldpError::LibraryNotAvailable(copy("liblldpctl library not found")),
            ),
            LibraryState::NoFunctions => Err(
                LldpError::LibraryNotAvailable(copy("LLDP functions not loaded")),
            ),
            LibraryState::Loaded => match connected {
                Ok(_) => Ok(LldpHandle { library }),
                Err(errno) => Err(
                    failed_call(errno, "LLDP socket unavailable: ", LldpError::ConnectionFailed),
                ),
            },
        }
    }

    /// The interfaces that the library listed.
    pub fn get_interfaces(&self, listing: &Listing) -> (r: Result<Vec<LldpInterface>, LldpError>)
        ensures
            interfaces_result(r) == told_interfaces(self.library(), *listing),
            interfaces_result(r) == (match (self.library(), *listing) {
                (LibraryState::Loaded, Listing::Listed(atoms)) => Ok(listed_interfaces(atoms@)),
                (LibraryState::Loaded, Listing::Failed(errno)) => Err(
                    call_error(
                        errno,
                        "LLDP socket unavailable when fetching interfaces: "@,
                        ErrorView::InterfaceFetchFailed,
                    ),
                ),
                (library, _) => Err(library_error(library)),
            }),
    {
        match self.library {
            LibraryState::Loaded => match listing {
                Listing::Listed(atoms) => Ok(read_interfaces(atoms)),
                Listing::Failed(errno) => Err(
                    failed_call(
                        *errno,
                        "LLDP socket unavailable when fetching interfaces: ",
                        LldpError::InterfaceFetchFailed,
                    ),
                ),
            },
            LibraryState::NotFound => Err(
                LldpError::LibraryNotAvailable(copy("LLDP library not available")),
            ),
            LibraryState::NoFunctions => Err(
                LldpError::LibraryNotAvailable(copy("LLDP functions not loaded")),
            ),
        }
    }

    /// The links that the library listed.
    pub fn get_neighbors(&self, listing: &Listing) -> (r: Result<Vec<LldpNeighbor>, LldpError>)
        ensures
            neighbors_result(r) == told_neighbors(self.library(), *listing),
            neighbors_result(r) == (match (self.library(), *listing) {
                (LibraryState::Loaded, Listing::Listed(atoms)) => Ok(listed_neighbors(atoms@)),
                (LibraryState::Loaded, Listing::Failed(errno)) => Err(
                    call_error(
                        errno,
                        "LLDP socket unavailable when fetching neighbors: "@,
                        ErrorView::InterfaceFetchFailed,
                    ),
                ),
                (library, _) => Err(library_error(library)),
            }),
    {
        match self.library {
            LibraryState::Loaded => match listing {
                Listing::Listed(atoms) => Ok(read_neighbors(atoms)),
                Listing::Failed(errno) => Err(
                    failed_call(
                        *errno,
                        "LLDP socket unavailable when fetching neighbors: ",
                        LldpError::InterfaceFetchFailed,
                    ),
                ),
            },
            LibraryState::NotFound => Err(
                LldpError::LibraryNotAvailable(copy("LLDP library not available")),
            ),
            LibraryState::NoFunctions => Err(
                LldpError::LibraryNotAvailable(copy("LLDP functions not loaded")),
            ),
        }
    }
}

fn read_interfaces(atoms: &Vec<Option<InterfaceAtom>>) -> (r: Vec<LldpInterface>)
    ensures
        interface_views(r@) == listed_interfaces(atoms@),
{
    let mut r: Vec<LldpInterface> = Vec::new();
    let n: usize = atoms.len();
    let ghost all = atoms@;
    let mut i: usize = 0;
    assert(interface_views(r@) =~= Seq::<InterfaceView>::empty());
    assert(all.take(0) =~= Seq::<Option<InterfaceAtom>>::empty());
    while i < n
        invariant
            n == all.len(),
            all == atoms@,
            i <= n,
            interface_views(r@) == listed_interfaces(all.take(i as int)),
        decreases n - i,
    {
        assert(all.take(i + 1).drop_last() =~= all.take(i as int));
        assert(all.take(i + 1).last() == all[i as int]);
        if let Some(a) = &atoms[i] {
            if let Some(p) = &a.port {
                if let Some(chassis) = &p.chassis {
                    let f = LldpInterface {
                        name: text_or_empty(&a.name),
                        device_name: text_or_empty(chassis),
                    };
                    proof {
                        lemma_interface_views_push(r@, f);
                    }
                    r.push(f);
                }
            }
        }
        i = i + 1;
    }
    assert(all.take(n as int) =~= all);
    r
}

fn read_port_neighbors(interface: &str, device: &str, atoms: &Vec<Option<NeighborAtom>>) -> (r: Vec<
    LldpNeighbor,
>)
    ensures
        neighbor_views(r@) == port_neighbors(interface@, device@, atoms@),
{
    let mut r: Vec<LldpNeighbor> = Vec::new();
    let n: usize = atoms.len();
    let ghost all = atoms@;
    let mut i: usize = 0;
    assert(neighbor_views(r@) =~= Seq::<NeighborView>::empty());
    assert(all.take(0) =~= Seq::<Option<NeighborAtom>>::empty());
    while i < n
        invariant
            n == all.len(),
            all == atoms@,
            i <= n,
            neighbor_views(r@) == port_neighbors(interface@, device@, all.take(i as int)),
        decreases n - i,
    {
        assert(all.take(i + 1).drop_last() =~= all.take(i as int));
        assert(all.take(i + 1).last() == all[i as int]);
        if let Some(a) = &atoms[i] {
            let x = LldpNeighbor {
                local_interface: copy(interface),
                local_device: copy(device),
                remote_device: text_or_empty(&a.chassis_name),
                remote_port: text_or_empty(&a.port_id),
            };
            proof {
                lemma_neighbor_views_push(r@, x);
            }
            r.push(x);
        }
        i = i + 1;
    }
    assert(all.take(n as int) =~= all);
    r
}

fn read_neighbors(atoms: &Vec<Option<InterfaceAtom>>) -> (r: Vec<LldpNeighbor>)
    ensures
        neighbor_views(r@) == listed_neighbors(atoms@),
{
    let mut r: Vec<LldpNeighbor> = Vec::new();
    let n: usize = atoms.len();
    let ghost all = atoms@;
    let mut i: usize = 0;
    assert(neighbor_views(r@) =~= Seq::<NeighborView>::empty());
    assert(all.take(0) =~= Seq::<Option<InterfaceAtom>>::empty());
    while i < n
        invariant
            n == all.len(),
            all == atoms@,
            i <= n,
            neighbor_views(r@) == listed_neighbors(all.take(i as int)),
        decreases n - i,
    {
        assert(all.take(i + 1).drop_last() =~= all.take(i as int));
        assert(all.take(i + 1).last() == all[i as int]);
        if let Some(a) = &atoms[i] {
            if let Some(p) = &a.port {
                match (&p.chassis, &p.neighbors) {
                    (Some(chassis), Some(ns)) => {
                        let name = text_or_empty(&a.name);
                        let device = text_or_empty(chassis);
                        let mut found = read_port_neighbors(name.as_str(), device.as_str(), ns);
                        let ghost was = r@;
                        let ghost more = found@;
                        r.append(&mut found);
                        assert(neighbor_views(was + more) =~= neighbor_views(was)
                            + neighbor_views(more));
                    },
                    _ => {},
                }
            }
        }
        i = i + 1;
    }
    assert(all.take(n as int) =~= all);
    r
}

/// What follows from how asking the library went.
#[derive(Debug)]
pub enum LibraryOutcome<T> {
    /// What the library told is taken.
    Told(Vec<T>),
    /// The command-line tool is asked instead.
    AskTool,
    /// Nothing is told.
    Failed(LldpError),
}

/// That `r` follows from how asking the library went.
pub open spec fn follows_library<T>(
    r: LibraryOutcome<T>,
    joined: Result<Result<Vec<T>, LldpError>, ()>,
) -> bool {
    match joined {
        Ok(Ok(v)) => r == LibraryOutcome::Told(v),
        Ok(Err(e)) => if e is LibraryNotAvailable {
            r is AskTool
        } else {
            r == LibraryOutcome::<T>::Failed(e)
        },
        Err(_) => r matches LibraryOutcome::Failed(e) && e is ThreadJoinFailed,
    }
}

/// What follows from how asking the library went, in a thread of its own: the tool
/// is asked exactly where the library is of no use.
pub fn after_library<T>(joined: Result<Result<Vec<T>, LldpError>, ()>) -> (r: LibraryOutcome<T>)
    ensures
        match joined {
            Err(_) => r matches LibraryOutcome::Failed(e) && e@ == ErrorView::ThreadJoinFailed,
            Ok(Ok(v)) => r == LibraryOutcome::Told(v),
            Ok(Err(LldpError::LibraryNotAvailable(_))) => r is AskTool,
            Ok(Err(e)) => r == LibraryOutcome::<T>::Failed(e),
        },
        follows_library(r, joined),
{
    match joined {
        Err(_) => LibraryOutcome::Failed(LldpError::ThreadJoinFailed),
        Ok(Ok(v)) => LibraryOutcome::Told(v),
        Ok(Err(e)) => if e.is_lasting() {
            LibraryOutcome::AskTool
        } else {
            LibraryOutcome::Failed(e)
        },
    }
}

/// Every link that the library listed is one of an interface that it listed.
pub proof fn law_links_belong_to_interfaces(atoms: Seq<Option<InterfaceAtom>>, k: int)
    requires
        0 <= k < listed_neighbors(atoms).len(),
    ensures
        listed_interfaces(atoms).contains(
            (listed_neighbors(atoms)[k].local_interface, listed_neighbors(atoms)[k].local_device),
        ),
    decreases atoms.len(),
{
    if atoms.len() > 0 {
        let before = listed_neighbors(atoms.drop_last());
        let ibefore = listed_interfaces(atoms.drop_last());
        let x = listed_neighbors(atoms)[k];
        let want = (x.local_interface, x.local_device);
        if k < before.len() {
            law_links_belong_to_interfaces(atoms.drop_last(), k);
            assert(before[k] == x);
            let j = choose|j: int| 0 <= j < ibefore.len() && ibefore[j] == want;
            assert(listed_interfaces(atoms)[j] == want);
        } else {
            let a = atoms.last()->0;
            let p = a.port->0;
            let name = atom_text(p.chassis->0);
            let ns = p.neighbors->0@;
            lemma_port_neighbors_local(atom_text(a.name), name, ns, k - before.len());
            let is = listed_interfaces(atoms);
            assert(is[is.len() - 1] == want);
        }
    }
}

proof fn lemma_port_neighbors_local(
    interface: Seq<char>,
    device: Seq<char>,
    atoms: Seq<Option<NeighborAtom>>,
    k: int,
)
    requires
        0 <= k < port_neighbors(interface, device, atoms).len(),
    ensures
        port_neighbors(interface, device, atoms)[k].local_interface == interface,
        port_neighbors(interface, device, atoms)[k].local_device == device,
    decreases atoms.len(),
{
    if atoms.len() > 0 {
        if k < port_neighbors(interface, device, atoms.drop_last()).len() {
            lemma_port_neighbors_local(interface, device, atoms.drop_last(), k);
        }
    }
}

// ---------------------------------------------------------------------------
// What is made of what the library tells
// ---------------------------------------------------------------------------
proof fn lemma_has_char(s: Seq<char>, p: Seq<char>, i: int)
    requires
        has_text(s, p),
        0 <= i < p.len(),
    ensures
        s.contains(p[i]),
{
    let k = choose|k: int| crate::text::occurs_at(s, p, k);
    assert(s.subrange(k, k + p.len())[i] == p[i]);
    assert(s[k + i] == p[i]);
}

proof fn lemma_decimal_chars(n: int, i: int)
    requires
        0 <= i < decimal(n).len(),
    ensures
        decimal(n)[i] == '-' || '0' <= decimal(n)[i] <= '9',
{
    let m: nat = if n < 0 {
        (-n) as nat
    } else {
        n as nat
    };
    crate::number::lemma_number_digits(m, 10);
    let s = crate::number::number_text(m, 10);
    if n < 0 {
        if i > 0 {
            assert(decimal(n)[i] == s[i - 1]);
            assert(crate::number::digit_value(s[i - 1], 10) is Some);
        }
    } else {
        assert(decimal(n)[i] == s[i]);
        assert(crate::number::digit_value(s[i], 10) is Some);
    }
}

/// A call that failed because there is no file for the socket, or because the
/// connection was refused, tells that the library is of no use; any other failure is
/// the one that the caller names.
pub proof fn law_missing_daemon_makes_the_library_useless(
    errno: Option<i32>,
    lead: Seq<char>,
    otherwise: ErrorView,
)
    ensures
        errno == Some(2i32) ==> call_error(errno, lead, otherwise) == ErrorView::LibraryNotAvailable(
            lead + "No such file or directory"@,
        ),
        errno == Some(111i32) ==> call_error(errno, lead, otherwise)
            == ErrorView::LibraryNotAvailable(lead + "Connection refused"@),
        errno != Some(2i32) && errno != Some(111i32) ==> call_error(errno, lead, otherwise)
            == otherwise,
{
    let none = Seq::<char>::empty();
    reveal_strlit("No such file or directory");
    reveal_strlit("Connection refused");
    reveal_strlit("unable to connect to socket");
    let text = errno_text(errno);
    if errno == Some(2i32) {
        crate::text::law_text_holds_its_parts(none, "No such file or directory"@, none);
        assert(none + "No such file or directory"@ + none =~= "No such file or directory"@);
    } else if errno == Some(111i32) {
        crate::text::law_text_holds_its_parts(none, "Connection refused"@, none);
        assert(none + "Connection refused"@ + none =~= "Connection refused"@);
    } else {
        reveal_strlit("Permission denied");
        reveal_strlit("System error: ");
        reveal_strlit("Unknown connection error");
        assert forall|i: int| 0 <= i < text.len() implies (#[trigger] text[i]) != 'N' && text[i]
            != 'C' && text[i] != 'b' by {
            match errno {
                Some(n) => {
                    if n != 13 {
                        let lead = "System error: "@;
                        if i >= lead.len() {
                            assert(text[i] == decimal(n as int)[i - lead.len()]);
                            lemma_decimal_chars(n as int, i - lead.len());
                        } else {
                            assert(text[i] == lead[i]);
                        }
                    }
                },
                None => {},
            }
        }
        if has_text(text, "No such file or directory"@) {
            lemma_has_char(text, "No such file or directory"@, 0);
        }
        if has_text(text, "Connection refused"@) {
            lemma_has_char(text, "Connection refused"@, 0);
        }
        if has_text(text, "unable to connect to socket"@) {
            assert("unable to connect to socket"@[3] == 'b');
            lemma_has_char(text, "unable to connect to socket"@, 3);
        }
    }
}

/// The numbers of the errors that are known are told in words, and any other as it is.
pub proof fn law_error_numbers_are_told(n: i32)
    ensures
        errno_text(Some(2i32)) == "No such file or directory"@,
        errno_text(Some(13i32)) == "Permission denied"@,
        errno_text(Some(111i32)) == "Connection refused"@,
        errno_text(None) == "Unknown connection error"@,
        n != 2 && n != 13 && n != 111 ==> errno_text(Some(n)) == "System error: "@ + decimal(
            n as int,
        ),
{
}

/// Every interface whose port has a chassis is told, in the order of the listing, with
/// its name and the name of the chassis; any other is left out.
pub proof fn law_interfaces_with_a_chassis_are_listed(
    before: Seq<Option<InterfaceAtom>>,
    atom: Option<InterfaceAtom>,
    a: InterfaceAtom,
    p: PortAtom,
    chassis: Option<Vec<u8>>,
)
    ensures
        listed_interfaces(Seq::<Option<InterfaceAtom>>::empty()).len() == 0,
        atom == Some(a) && a.port == Some(p) && p.chassis == Some(chassis) ==> listed_interfaces(
            before.push(atom),
        ) == listed_interfaces(before).push((atom_text(a.name), atom_text(chassis))),
        atom is None || atom->0.port is None || atom->0.port->0.chassis is None
            ==> listed_interfaces(before.push(atom)) == listed_interfaces(before),
{
    assert(before.push(atom).drop_last() =~= before);
    assert(before.push(atom).last() == atom);
}

/// A text of the library is what its bytes stand for, and empty where there is none.
pub proof fn law_absent_texts_are_empty(b: Vec<u8>)
    ensures
        atom_text(Some(b)) == lossy_of(b@),
        atom_text(None).len() == 0,
{
}

/// Every neighbor of a port is a link from the interface to the neighbor's chassis and
/// port, in the order of the listing.
pub proof fn law_neighbors_of_a_port_are_links(
    interface: Seq<char>,
    device: Seq<char>,
    before: Seq<Option<NeighborAtom>>,
    n: NeighborAtom,
)
    ensures
        port_neighbors(interface, device, Seq::<Option<NeighborAtom>>::empty()).len() == 0,
        ({
            let had = port_neighbors(interface, device, before);
            let has = port_neighbors(interface, device, before.push(Some(n)));
            &&& has.len() == had.len() + 1
            &&& has.take(had.len() as int) == had
            &&& has[had.len() as int].local_interface == interface
            &&& has[had.len() as int].local_device == device
            &&& has[had.len() as int].remote_device == atom_text(n.chassis_name)
            &&& has[had.len() as int].remote_port == atom_text(n.port_id)
        }),
        port_neighbors(interface, device, before.push(None)) == port_neighbors(
            interface,
            device,
            before,
        ),
{
    let one = before.push(Some(n));
    let none = before.push(None);
    assert(one.drop_last() =~= before && none.drop_last() =~= before);
    assert(one.last() == Some(n) && none.last() == None::<NeighborAtom>);
    let had = port_neighbors(interface, device, before);
    let has = port_neighbors(interface, device, one);
    assert(has.take(had.len() as int) =~= had);
}

/// The links are those of each interface whose port has a chassis and neighbors, in
/// the order of the listing.
pub proof fn law_links_are_those_of_the_ports(
    before: Seq<Option<InterfaceAtom>>,
    atom: Option<InterfaceAtom>,
    a: InterfaceAtom,
    p: PortAtom,
    chassis: Option<Vec<u8>>,
    ns: Vec<Option<NeighborAtom>>,
)
    ensures
        listed_neighbors(Seq::<Option<InterfaceAtom>>::empty()).len() == 0,
        atom == Some(a) && a.port == Some(p) && p.chassis == Some(chassis) && p.neighbors == Some(ns)
            ==> listed_neighbors(before.push(atom)) == listed_neighbors(before) + port_neighbors(
            atom_text(a.name),
            atom_text(chassis),
            ns@,
        ),
        atom is None || atom->0.port is None || atom->0.port->0.chassis is None
            || atom->0.port->0.neighbors is None ==> listed_neighbors(before.push(atom))
            == listed_neighbors(before),
{
    assert(before.push(atom).drop_last() =~= before);
    assert(before.push(atom).last() == atom);
}

/// Each error says what is wrong, and names what it is about.
pub proof fn law_errors_say_what_is_wrong(s: Seq<char>)
    ensures
        error_text(ErrorView::ConnectionFailed) == "LLDP connection failed"@,
        error_text(ErrorView::InterfaceFetchFailed) == "Failed to fetch network interfaces"@,
        error_text(ErrorView::NullPointer(s)) == "Null pointer encountered in: "@ + s,
        error_text(ErrorView::ThreadJoinFailed) == "Blocking thread error"@,
        error_text(ErrorView::LibraryNotAvailable(s)) == "LLDP library not available: "@ + s,
{
}

/// What the library told is taken, the tool is asked where the library is of no use, and
/// any other error is passed on.
pub proof fn law_tool_is_asked_where_the_library_is_of_no_use<T>(
    r: LibraryOutcome<T>,
    v: Vec<T>,
    e: LldpError,
)
    ensures
        follows_library(r, Ok(Ok(v))) ==> r == LibraryOutcome::Told(v),
        follows_library(r, Ok(Err(e))) ==> (r is AskTool <==> e@ is LibraryNotAvailable),
        follows_library(r, Ok(Err(e))) && e@ !is LibraryNotAvailable ==> r == LibraryOutcome::<
            T,
        >::Failed(e),
        follows_library::<T>(r, Err(())) ==> (r matches LibraryOutcome::Failed(f) && f@
            == ErrorView::ThreadJoinFailed),
{
}

/// The library tells what it listed; where it is not there it is of no use, and where the
/// listing failed it is of no use exactly where the daemon is not there.
pub proof fn law_library_tells_what_it_listed(atoms: Vec<Option<InterfaceAtom>>, errno: Option<i32>)
    ensures
        told_interfaces(LibraryState::Loaded, Listing::Listed(atoms)) == Ok::<
            Seq<InterfaceView>,
            ErrorView,
        >(listed_interfaces(atoms@)),
        told_neighbors(LibraryState::Loaded, Listing::Listed(atoms)) == Ok::<
            Seq<NeighborView>,
            ErrorView,
        >(listed_neighbors(atoms@)),
        ({
            let gone = errno == Some(2i32) || errno == Some(111i32);
            let i = told_interfaces(LibraryState::Loaded, Listing::Failed(errno));
            let n = told_neighbors(LibraryState::Loaded, Listing::Failed(errno));
            &&& i is Err && n is Err
            &&& i->Err_0 is LibraryNotAvailable <==> gone
            &&& n->Err_0 is LibraryNotAvailable <==> gone
            &&& !gone ==> i->Err_0 is InterfaceFetchFailed && n->Err_0 is InterfaceFetchFailed
        }),
        forall|l: LibraryState, listing: Listing|
            l != LibraryState::Loaded ==> (#[trigger] told_interfaces(l, listing)) is Err
                && told_interfaces(l, listing)->Err_0 is LibraryNotAvailable,
        forall|l: LibraryState, listing: Listing|
            l != LibraryState::Loaded ==> (#[trigger] told_neighbors(l, listing)) is Err
                && told_neighbors(l, listing)->Err_0 is LibraryNotAvailable,
{
    law_missing_daemon_makes_the_library_useless(
        errno,
        "LLDP socket unavailable when fetching interfaces: "@,
        ErrorView::InterfaceFetchFailed,
    );
    law_missing_daemon_makes_the_library_useless(
        errno,
        "LLDP socket unavailable when fetching neighbors: "@,
        ErrorView::InterfaceFetchFailed,
    );
}

/// Interfaces, links and errors are read field by field.
pub proof fn law_told_fields_are_read(i: LldpInterface, n: LldpNeighbor, e: LldpError)
    ensures
        i@ == (i.name@, i.device_name@),
        n@.local_interface == n.local_interface@ && n@.local_device == n.local_device@,
        n@.remote_device == n.remote_device@ && n@.remote_port == n.remote_port@,
        e@ is LibraryNotAvailable <==> e is LibraryNotAvailable,
        e@ is ThreadJoinFailed <==> e is ThreadJoinFailed,
        e@ is ConnectionFailed <==> e is ConnectionFailed,
        e@ is InterfaceFetchFailed <==> e is InterfaceFetchFailed,
{
}

/// What makes the library useless is said: that it was not found, that its functions
/// are not there, or what was asked of it when the daemon was not there.
pub proof fn law_useless_library_says_why(listing: Listing)
    ensures
        ({
            let none = ErrorView::LibraryNotAvailable("LLDP library not available"@);
            let bare = ErrorView::LibraryNotAvailable("LLDP functions not loaded"@);
            let refused = Listing::Failed(Some(111i32));
            &&& told_interfaces(LibraryState::NotFound, listing) == Err::<
                Seq<InterfaceView>,
                ErrorView,
            >(none)
            &&& told_neighbors(LibraryState::NotFound, listing) == Err::<
                Seq<NeighborView>,
                ErrorView,
            >(none)
            &&& told_interfaces(LibraryState::NoFunctions, listing) == Err::<
                Seq<InterfaceView>,
                ErrorView,
            >(bare)
            &&& told_neighbors(LibraryState::NoFunctions, listing) == Err::<
                Seq<NeighborView>,
                ErrorView,
            >(bare)
            &&& told_interfaces(LibraryState::Loaded, refused) == Err::<
                Seq<InterfaceView>,
                ErrorView,
            >(
                ErrorView::LibraryNotAvailable(
                    "LLDP socket unavailable when fetching interfaces: "@ + "Connection refused"@,
                ),
            )
            &&& told_neighbors(LibraryState::Loaded, refused) == Err::<Seq<NeighborView>, ErrorView>(
                ErrorView::LibraryNotAvailable(
                    "LLDP socket unavailable when fetching neighbors: "@ + "Connection refused"@,
                ),
            )
        }),
{
    law_missing_daemon_makes_the_library_useless(
        Some(111i32),
        "LLDP socket unavailable when fetching interfaces: "@,
        ErrorView::InterfaceFetchFailed,
    );
    law_missing_daemon_makes_the_library_useless(
        Some(111i32),
        "LLDP socket unavailable when fetching neighbors: "@,
        ErrorView::InterfaceFetchFailed,
    );
}

} // verus!
