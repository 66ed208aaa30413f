//! What `lldptool` tells where the library cannot be used.
use vstd::prelude::*;

use super::ffi::{
    interface_views, interfaces_result, lemma_interface_views_push, lemma_neighbor_views_push,
    neighbor_views, neighbors_result, ErrorView, InterfaceView, LldpError, LldpInterface,
    LldpNeighbor, NeighborView,
};
use crate::process::{utf8_of, utf8_text, ProcessOutput};
use crate::split::{lines, lines_of};
use crate::text::{
    around_first, contains, copy, has_text, join2, same, split_once, starts_with, trim, trimmed,
};

verus! {

/// How running a program went.
pub type Run = Result<ProcessOutput, String>;

// ---------------------------------------------------------------------------
// This machine's name
// ---------------------------------------------------------------------------
/// The name of this machine, from how running `hostname` went.
pub open spec fn host_name(run: Run) -> Result<Seq<char>, ErrorView> {
    match run {
        Err(e) => Err(ErrorView::LibraryNotAvailable("Failed to execute hostname: "@ + e@)),
        Ok(o) => if !o.success {
            Ok("unknown"@)
        } else {
            match utf8_of(o.stdout@) {
                Some(t) => Ok(trimmed(t)),
                None => Err(ErrorView::LibraryNotAvailable("Invalid UTF-8 in hostname output"@)),
            }
        },
    }
}

/// The name of this machine, empty where it cannot be told.
pub open spec fn host_name_or_empty(run: Run) -> Seq<char> {
    match host_name(run) {
        Ok(n) => n,
        Err(_) => Seq::empty(),
    }
}

/// The name of this machine, from how running `hostname` went.
pub fn get_local_device_name(run: &Run) -> (r: Result<String, LldpError>)
    ensures
        match (r, host_name(*run)) {
            (Ok(s), Ok(w)) => s@ == w,
            (Err(e), Err(m)) => e@ == m,
            _ => false,
        },
{
    match run {
        Err(e) => Err(
            LldpError::LibraryNotAvailable(join2("Failed to execute hostname: ", e.as_str())),
        ),
        Ok(o) => if !o.success {
            Ok(copy("unknown"))
        } else {
            match utf8_text(&o.stdout) {
                Some(t) => Ok(trim(t.as_str())),
                None => Err(
                    LldpError::LibraryNotAvailable(copy("Invalid UTF-8 in hostname output")),
                ),
            }
        },
    }
}

fn device_name(run: &Run) -> (r: String)
    ensures
        r@ == host_name_or_empty(*run),
{
    match get_local_device_name(run) {
        Ok(s) => s,
        Err(_) => String::new(),
    }
}

/// Whether the tool is there, from how running `which lldptool` went.
pub fn is_lldptool_available(run: &Run) -> (r: bool)
    ensures
        r == (*run matches Ok(o) && o.success),
{
    match run {
        Ok(o) => o.success,
        Err(_) => false,
    }
}

// ---------------------------------------------------------------------------
// Interfaces
// ---------------------------------------------------------------------------
/// The interface that a printed line names, where it is not a virtual one.
pub open spec fn named_interface(line: Seq<char>) -> Option<Seq<char>> {
    let t = trimmed(line);
    if t.len() == 0 || t == "lo"@ || "docker"@.is_prefix_of(t) || "veth"@.is_prefix_of(t)
        || "br-"@.is_prefix_of(t) {
        None
    } else {
        Some(t)
    }
}

/// The interface that a printed line names, where it is not a virtual one.
pub fn extract_interface_from_lldptool_line(line: &str) -> (r: Option<String>)
    ensures
        match r {
            Some(s) => named_interface(line@) == Some(s@),
            None => named_interface(line@) is None,
        },
{
    let t = trim(line);
    if is_blank(t.as_str()) || same(t.as_str(), "lo") || starts_with(t.as_str(), "docker")
        || starts_with(t.as_str(), "veth") || starts_with(t.as_str(), "br-") {
        None
    } else {
        Some(t)
    }
}

fn is_blank(s: &str) -> (r: bool)
    ensures
        r == (s@.len() == 0),
{
    proof {
        reveal_strlit("");
        assert(s@.len() == 0 ==> s@ =~= ""@);
    }
    same(s, "")
}

/// The interfaces that printed lines name. Headings name none.
pub open spec fn interfaces_in(lines: Seq<Seq<char>>, device: Seq<char>) -> Seq<InterfaceView>
    decreases lines.len(),
{
    if lines.len() == 0 {
        Seq::empty()
    } else {
        let before = interfaces_in(lines.drop_last(), device);
        let t = trimmed(lines.last());
        if "Interface"@.is_prefix_of(t) {
            before
        } else {
            match named_interface(t) {
                Some(name) => before.push((name, device)),
                None => before,
            }
        }
    }
}

/// The interfaces in what `lldptool -i any -p` printed. None where it failed.
pub open spec fn printed_interfaces(run: Run, device: Seq<char>) -> Result<
    Seq<InterfaceView>,
    ErrorView,
> {
    match run {
        Ok(o) => if o.success {
            match utf8_of(o.stdout@) {
                Some(t) => Ok(interfaces_in(lines_of(t), device)),
                None => Err(ErrorView::LibraryNotAvailable("Invalid UTF-8 in lldptool output"@)),
            }
        } else {
            Ok(Seq::empty())
        },
        Err(_) => Ok(Seq::empty()),
    }
}

/// The interfaces in what `lldptool -i any -p` printed.
pub fn list_printed_interfaces(run: &Run, device: &str) -> (r: Result<
    Vec<LldpInterface>,
    LldpError,
>)
    ensures
        interfaces_result(r) == printed_interfaces(*run, device@),
{
    let mut r: Vec<LldpInterface> = Vec::new();
    assert(interface_views(r@) =~= Seq::<InterfaceView>::empty());
    let text = match run {
        Ok(o) => if o.success {
            match utf8_text(&o.stdout) {
                Some(t) => t,
                None => {
                    return Err(
                        LldpError::LibraryNotAvailable(copy("Invalid UTF-8 in lldptool output")),
                    );
                },
            }
        } else {
            return Ok(r);
        },
        Err(_) => {
            return Ok(r);
        },
    };
    let all = lines(text.as_str());
    let n: usize = all.len();
    let ghost ls = lines_of(text@);
    let mut i: usize = 0;
    assert(ls.take(0) =~= Seq::<Seq<char>>::empty());
    while i < n
        invariant
            n == all@.len(),
            i <= n,
            crate::text::texts(all@) == ls,
            interface_views(r@) == interfaces_in(ls.take(i as int), device@),
        decreases n - i,
    {
        assert(ls.take(i + 1).drop_last() =~= ls.take(i as int));
        assert(ls.take(i + 1).last() == all@[i as int]@);
        let line = trim(all[i].as_str());
        if !is_blank(line.as_str()) && !starts_with(line.as_str(), "Interface") {
            match extract_interface_from_lldptool_line(line.as_str()) {
                Some(name) => {
                    let f = LldpInterface { name, device_name: copy(device) };
                    proof {
                        lemma_interface_views_push(r@, f);
                    }
                    r.push(f);
                },
                None => {},
            }
        }
        proof {
            crate::text::lemma_trimmed_twice(all@[i as int]@);
        }
        i = i + 1;
    }
    assert(ls.take(n as int) =~= ls);
    Ok(r)
}

/// The interface that stands for a machine of which no other is known.
pub open spec fn or_unknown(found: Seq<InterfaceView>, device: Seq<char>) -> Seq<InterfaceView> {
    if found.len() == 0 {
        seq![("unknown"@, device)]
    } else {
        found
    }
}

fn with_unknown(found: Vec<LldpInterface>, device: &str) -> (r: Vec<LldpInterface>)
    ensures
        interface_views(r@) == or_unknown(interface_views(found@), device@),
{
    if found.len() == 0 {
        let mut r: Vec<LldpInterface> = Vec::new();
        r.push(LldpInterface { name: copy("unknown"), device_name: copy(device) });
        assert(interface_views(r@) =~= seq![("unknown"@, device@)]);
        r
    } else {
        found
    }
}

/// Common names of interfaces, one of which is looked for where there is no tool.
pub open spec fn basic_names() -> Seq<Seq<char>> {
    seq!["eth0"@, "enp0s3"@, "ens33"@, "wlan0"@]
}

/// The names that occur in the list of devices.
pub open spec fn names_in(names: Seq<Seq<char>>, devices: Option<Seq<char>>, device: Seq<char>) -> Seq<
    InterfaceView,
>
    decreases names.len(),
{
    if names.len() == 0 {
        Seq::empty()
    } else {
        let before = names_in(names.drop_last(), devices, device);
        match devices {
            Some(text) => if has_text(text, names.last()) {
                before.push((names.last(), device))
            } else {
                before
            },
            None => before,
        }
    }
}

fn basic_list() -> (r: Vec<String>)
    ensures
        crate::text::texts(r@) == basic_names(),
{
    let mut r: Vec<String> = Vec::new();
    r.push(copy("eth0"));
    r.push(copy("enp0s3"));
    r.push(copy("ens33"));
    r.push(copy("wlan0"));
    assert(crate::text::texts(r@) =~= basic_names());
    r
}

/// The interfaces of a machine without the tool: the common ones that the list of
/// devices names, where it could be read, or the unknown one.
pub fn get_basic_interfaces(device: &str, devices: &Option<String>) -> (r: Vec<LldpInterface>)
    ensures
        interface_views(r@) == or_unknown(
            names_in(basic_names(), crate::text::opt_text(*devices), device@),
            device@,
        ),
{
    let names = basic_list();
    let mut r: Vec<LldpInterface> = Vec::new();
    let n: usize = names.len();
    let mut i: usize = 0;
    let ghost all = basic_names();
    let ghost dv = crate::text::opt_text(*devices);
    assert(interface_views(r@) =~= Seq::<InterfaceView>::empty());
    assert(all.take(0) =~= Seq::<Seq<char>>::empty());
    while i < n
        invariant
            n == names@.len(),
            i <= n,
            all == crate::text::texts(names@),
            dv == crate::text::opt_text(*devices),
            interface_views(r@) == names_in(all.take(i as int), dv, device@),
        decreases n - i,
    {
        assert(all.take(i + 1).drop_last() =~= all.take(i as int));
        assert(all.take(i + 1).last() == names@[i as int]@);
        let found = match devices {
            Some(text) => contains(text.as_str(), names[i].as_str()),
            None => false,
        };
        if found {
            let f = LldpInterface { name: copy(names[i].as_str()), device_name: copy(device) };
            proof {
                lemma_interface_views_push(r@, f);
            }
            r.push(f);
        }
        i = i + 1;
    }
    assert(all.take(n as int) =~= all);
    with_unknown(r, device)
}

/// Common names of interfaces, each of which the tool is asked about.
pub open spec fn common_names() -> Seq<Seq<char>> {
    seq!["eth0"@, "eth1"@, "enp0s3"@, "enp0s8"@, "ens33"@, "wlan0"@]
}

fn common_name(i: usize) -> (r: &'static str)
    requires
        i < 6,
    ensures
        r@ == common_names()[i as int],
{
    if i == 0 {
        "eth0"
    } else if i == 1 {
        "eth1"
    } else if i == 2 {
        "enp0s3"
    } else if i == 3 {
        "enp0s8"
    } else if i == 4 {
        "ens33"
    } else {
        "wlan0"
    }
}

/// The common interfaces, of the first `n`, that the tool knows.
pub open spec fn known_of(checks: Seq<Run>, n: int, device: Seq<char>) -> Seq<InterfaceView>
    decreases n,
{
    if n <= 0 {
        Seq::empty()
    } else {
        let before = known_of(checks, n - 1, device);
        match checks[n - 1] {
            Ok(o) => if o.success {
                before.push((common_names()[n - 1], device))
            } else {
                before
            },
            Err(_) => before,
        }
    }
}

/// The common interfaces that the tool knows, from how asking about each went, or
/// the unknown one.
pub fn discover_interfaces_via_lldptool_commands(device: &str, checks: &Vec<Run>) -> (r: Vec<
    LldpInterface,
>)
    requires
        checks@.len() >= 6,
    ensures
        interface_views(r@) == or_unknown(known_of(checks@, 6, device@), device@),
{
    let mut r: Vec<LldpInterface> = Vec::new();
    let mut i: usize = 0;
    assert(interface_views(r@) =~= Seq::<InterfaceView>::empty());
    while i < 6
        invariant
            i <= 6,
            checks@.len() >= 6,
            interface_views(r@) == known_of(checks@, i as int, device@),
        decreases 6 - i,
    {
        let known = match &checks[i] {
            Ok(o) => o.success,
            Err(_) => false,
        };
        if known {
            let f = LldpInterface { name: copy(common_name(i)), device_name: copy(device) };
            proof {
                lemma_interface_views_push(r@, f);
            }
            r.push(f);
        }
        i = i + 1;
    }
    with_unknown(r, device)
}

// ---------------------------------------------------------------------------
// Neighbors
// ---------------------------------------------------------------------------
/// The links read so far, and the device and port that wait for their other half.
pub type Reading = (Seq<NeighborView>, Option<(Seq<char>, Seq<char>)>);

/// What a line says behind its colon.
pub open spec fn behind_colon(line: Seq<char>) -> Option<Seq<char>> {
    match around_first(line, ":"@) {
        Some((_, rest)) => Some(trimmed(rest)),
        None => None,
    }
}

/// The reading after one more line, which is trimmed.
pub open spec fn read_line(
    r: Reading,
    line: Seq<char>,
    interface: Seq<char>,
    device: Seq<char>,
) -> Reading {
    let (found, waiting) = r;
    if "Chassis ID"@.is_prefix_of(line) {
        match behind_colon(line) {
            Some(chassis) => (
                match waiting {
                    Some((_, port)) => found.push(
                        NeighborView {
                            local_interface: interface,
                            local_device: device,
                            remote_device: chassis,
                            remote_port: port,
                        },
                    ),
                    None => found,
                },
                Some((chassis, Seq::empty())),
            ),
            None => r,
        }
    } else if "Port ID"@.is_prefix_of(line) {
        match behind_colon(line) {
            Some(port) => match waiting {
                Some((remote, _)) => (
                    found.push(
                        NeighborView {
                            local_interface: interface,
                            local_device: device,
                            remote_device: remote,
                            remote_port: port,
                        },
                    ),
                    None,
                ),
                None => (found, Some((Seq::empty(), port))),
            },
            None => r,
        }
    } else {
        r
    }
}

/// The reading of lines.
pub open spec fn read_lines(lines: Seq<Seq<char>>, interface: Seq<char>, device: Seq<char>) -> Reading
    decreases lines.len(),
{
    if lines.len() == 0 {
        (Seq::empty(), None)
    } else {
        read_line(
            read_lines(lines.drop_last(), interface, device),
            trimmed(lines.last()),
            interface,
            device,
        )
    }
}

/// The links of a finished reading. What still waits is a link where it has both
/// halves.
pub open spec fn finished(r: Reading, interface: Seq<char>, device: Seq<char>) -> Seq<NeighborView> {
    match r.1 {
        Some((remote, port)) => if remote.len() > 0 && port.len() > 0 {
            r.0.push(
                NeighborView {
                    local_interface: interface,
                    local_device: device,
                    remote_device: remote,
                    remote_port: port,
                },
            )
        } else {
            r.0
        },
        None => r.0,
    }
}

/// How asking the tool for the links of one interface went.
#[derive(Debug)]
pub enum NeighborAnswer {
    /// The tool is not there any more.
    NoTool,
    /// How running `lldptool -tni` for it went, and how running `hostname` did.
    Ran { run: Run, hostname: Run },
}

/// The links of one interface. None where the tool failed.
pub open spec fn interface_neighbors(interface: Seq<char>, answer: NeighborAnswer) -> Result<
    Seq<NeighborView>,
    ErrorView,
> {
    match answer {
        NeighborAnswer::NoTool => Ok(Seq::empty()),
        NeighborAnswer::Ran { run, hostname } => match run {
            Err(e) => Err(ErrorView::LibraryNotAvailable("Failed to execute lldptool: "@ + e@)),
            Ok(o) => if !o.success {
                Ok(Seq::empty())
            } else {
                match utf8_of(o.stdout@) {
                    Some(t) => {
                        let device = host_name_or_empty(hostname);
                        Ok(finished(read_lines(lines_of(t), interface, device), interface, device))
                    },
                    None => Err(
                        ErrorView::LibraryNotAvailable("Invalid UTF-8 in lldptool output"@),
                    ),
                }
            },
        },
    }
}

fn push_neighbor(
    found: &mut Vec<LldpNeighbor>,
    interface: &str,
    device: &str,
    remote_device: String,
    remote_port: String,
)
    ensures
        neighbor_views(final(found)@) == neighbor_views(old(found)@).push(
            NeighborView {
                local_interface: interface@,
                local_device: device@,
                remote_device: remote_device@,
                remote_port: remote_port@,
            },
        ),
{
    let x = LldpNeighbor {
        local_interface: copy(interface),
        local_device: copy(device),
        remote_device,
        remote_port,
    };
    proof {
        lemma_neighbor_views_push(found@, x);
    }
    found.push(x);
}

/// The waiting halves of a link, read as characters.
pub open spec fn waiting_view(w: Option<(String, String)>) -> Option<(Seq<char>, Seq<char>)> {
    match w {
        Some((d, p)) => Some((d@, p@)),
        None => None,
    }
}

fn value_behind_colon(line: &str) -> (r: Option<String>)
    ensures
        crate::text::opt_text(r) == behind_colon(line@),
{
    match split_once(line, ":") {
        Some((_, rest)) => Some(trim(rest.as_str())),
        None => None,
    }
}

fn take_line(
    found: &mut Vec<LldpNeighbor>,
    waiting: Option<(String, String)>,
    line: &str,
    interface: &str,
    device: &str,
) -> (r: Option<(String, String)>)
    ensures
        (neighbor_views(final(found)@), waiting_view(r)) == read_line(
            (neighbor_views(old(found)@), waiting_view(waiting)),
            line@,
            interface@,
            device@,
        ),
{
    if starts_with(line, "Chassis ID") {
        match value_behind_colon(line) {
            Some(chassis) => {
                if let Some((_, port)) = waiting {
                    push_neighbor(found, interface, device, copy(chassis.as_str()), port);
                }
                Some((chassis, String::new()))
            },
            None => waiting,
        }
    } else if starts_with(line, "Port ID") {
        match value_behind_colon(line) {
            Some(port) => match waiting {
                Some((remote, _)) => {
                    push_neighbor(found, interface, device, remote, port);
                    None
                },
                None => Some((String::new(), port)),
            },
            None => waiting,
        }
    } else {
        waiting
    }
}

/// The links of one interface, from how asking the tool for them went.
pub fn get_lldp_neighbors_for_interface(interface: &str, answer: &NeighborAnswer) -> (r: Result<
    Vec<LldpNeighbor>,
    LldpError,
>)
    ensures
        neighbors_result(r) == interface_neighbors(interface@, *answer),
{
    let mut found: Vec<LldpNeighbor> = Vec::new();
    assert(neighbor_views(found@) =~= Seq::<NeighborView>::empty());
    let (run, hostname) = match answer {
        NeighborAnswer::NoTool => {
            return Ok(found);
        },
        NeighborAnswer::Ran { run, hostname } => (run, hostname),
    };
    let output = match run {
        Ok(o) => o,
        Err(e) => {
            return Err(
                LldpError::LibraryNotAvailable(join2("Failed to execute lldptool: ", e.as_str())),
            );
        },
    };
    if !output.success {
        return Ok(found);
    }
    let text = match utf8_text(&output.stdout) {
        Some(t) => t,
        None => {
            return Err(LldpError::LibraryNotAvailable(copy("Invalid UTF-8 in lldptool output")));
        },
    };
    let device = device_name(hostname);
    let all = lines(text.as_str());
    let n: usize = all.len();
    let mut waiting: Option<(String, String)> = None;
    let ghost ls = lines_of(text@);
    let mut i: usize = 0;
    assert(ls.take(0) =~= Seq::<Seq<char>>::empty());
    while i < n
        invariant
            n == all@.len(),
            i <= n,
            crate::text::texts(all@) == ls,
            (neighbor_views(found@), waiting_view(waiting)) == read_lines(
                ls.take(i as int),
                interface@,
                device@,
            ),
        decreases n - i,
    {
        assert(ls.take(i + 1).drop_last() =~= ls.take(i as int));
        assert(ls.take(i + 1).last() == all@[i as int]@);
        let line = trim(all[i].as_str());
        waiting = take_line(&mut found, waiting, line.as_str(), interface, device.as_str());
        i = i + 1;
    }
    assert(ls.take(n as int) =~= ls);
    if let Some((remote, port)) = waiting {
        if !is_blank(remote.as_str()) && !is_blank(port.as_str()) {
            push_neighbor(&mut found, interface, device.as_str(), remote, port);
        }
    }
    Ok(found)
}

// ---------------------------------------------------------------------------
// Asking the tool
// ---------------------------------------------------------------------------
/// What has to be found out next.
#[derive(Debug)]
pub enum ToolRequest {
    /// `which lldptool` is run.
    FindTool,
    /// `hostname` is run.
    HostName,
    /// The list of devices, `/proc/net/dev`, is read.
    ReadDevices,
    /// `lldptool -i any -p` is run.
    ListInterfaces,
    /// `lldptool -t -i` is run for the interface.
    CheckInterface(String),
    /// `lldptool -tni` is run for the interface, and `hostname`, where the tool is
    /// there.
    ListNeighbors(String),
}

/// What was found out so far.
#[derive(Debug)]
pub struct ToolAnswers {
    /// Whether the tool is there.
    pub available: Option<bool>,
    /// How running `hostname` went.
    pub hostname: Option<Run>,
    /// The list of devices, none where it could not be read.
    pub devices: Option<Option<String>>,
    /// How running `lldptool -i any -p` went.
    pub listing: Option<Run>,
    /// How asking about each of the common interfaces went.
    pub checks: Vec<Run>,
    /// How asking for the links of each interface went.
    pub neighbors: Vec<NeighborAnswer>,
}

impl ToolAnswers {
    /// Nothing was found out yet.
    pub fn new() -> (r: ToolAnswers)
        ensures
            r.available is None,
            r.hostname is None,
            r.devices is None,
            r.listing is None,
            r.checks@.len() == 0,
            r.neighbors@.len() == 0,
    {
        ToolAnswers {
            available: None,
            hostname: None,
            devices: None,
            listing: None,
            checks: Vec::new(),
            neighbors: Vec::new(),
        }
    }
}

/// What follows from what was found out.
#[derive(Debug)]
pub enum ToolStep<T> {
    /// More has to be found out.
    Ask(ToolRequest),
    /// That is all.
    Done(Result<Vec<T>, LldpError>),
}

/// The interfaces, once all was found out.
pub open spec fn interfaces_step(s: ToolStep<LldpInterface>, want: Result<
    Seq<InterfaceView>,
    ErrorView,
>) -> bool {
    s matches ToolStep::Done(r) && interfaces_result(r) == want
}

/// The step is to ask the tool about the interface.
pub open spec fn checks_interface<T>(s: ToolStep<T>, name: Seq<char>) -> bool {
    s matches ToolStep::Ask(ToolRequest::CheckInterface(n)) && n@ == name
}

/// What follows for the interfaces from what was found out: without the tool, the
/// basic ones; with it, those that it lists, or else the common ones that it knows.
pub open spec fn interfaces_follow(a: ToolAnswers, s: ToolStep<LldpInterface>) -> bool {
    match (a.available, a.hostname) {
        (None, _) => s is Ask && s->Ask_0 is FindTool,
        (Some(_), None) => s is Ask && s->Ask_0 is HostName,
        (Some(false), Some(h)) => match a.devices {
            None => s is Ask && s->Ask_0 is ReadDevices,
            Some(d) => interfaces_step(
                s,
                Ok(
                    or_unknown(
                        names_in(
                            basic_names(),
                            crate::text::opt_text(d),
                            host_name_or_empty(h),
                        ),
                        host_name_or_empty(h),
                    ),
                ),
            ),
        },
        (Some(true), Some(h)) => match a.listing {
            None => s is Ask && s->Ask_0 is ListInterfaces,
            Some(l) => match printed_interfaces(l, host_name_or_empty(h)) {
                Err(e) => interfaces_step(s, Err(e)),
                Ok(found) => if found.len() > 0 {
                    interfaces_step(s, Ok(found))
                } else if a.checks@.len() < 6 {
                    checks_interface(s, common_names()[a.checks@.len() as int])
                } else {
                    interfaces_step(
                        s,
                        Ok(
                            or_unknown(
                                known_of(a.checks@, 6, host_name_or_empty(h)),
                                host_name_or_empty(h),
                            ),
                        ),
                    )
                },
            },
        },
    }
}

/// What follows for the interfaces from what was found out.
pub fn get_lldp_interfaces_via_lldptool(answers: &ToolAnswers) -> (r: ToolStep<LldpInterface>)
    ensures
        interfaces_follow(*answers, r),
{
    let available = match answers.available {
        Some(b) => b,
        None => {
            return ToolStep::Ask(ToolRequest::FindTool);
        },
    };
    let device = match &answers.hostname {
        Some(run) => device_name(run),
        None => {
            return ToolStep::Ask(ToolRequest::HostName);
        },
    };
    if !available {
        return match &answers.devices {
            Some(d) => ToolStep::Done(Ok(get_basic_interfaces(device.as_str(), d))),
            None => ToolStep::Ask(ToolRequest::ReadDevices),
        };
    }
    match &answers.listing {
        None => ToolStep::Ask(ToolRequest::ListInterfaces),
        Some(run) => match list_printed_interfaces(run, device.as_str()) {
            Err(e) => ToolStep::Done(Err(e)),
            Ok(found) => if found.len() > 0 {
                assert(interface_views(found@).len() == found@.len());
                ToolStep::Done(Ok(found))
            } else {
                assert(interface_views(found@).len() == found@.len());
                let n: usize = answers.checks.len();
                if n < 6 {
                    ToolStep::Ask(ToolRequest::CheckInterface(copy(common_name(n))))
                } else {
                    ToolStep::Done(
                        Ok(
                            discover_interfaces_via_lldptool_commands(
                                device.as_str(),
                                &answers.checks,
                            ),
                        ),
                    )
                }
            },
        },
    }
}

/// The links of the first `n` interfaces, or the first error.
pub open spec fn gathered(
    interfaces: Seq<InterfaceView>,
    answers: Seq<NeighborAnswer>,
    n: int,
) -> Result<Seq<NeighborView>, ErrorView>
    decreases n,
{
    if n <= 0 {
        Ok(Seq::empty())
    } else {
        match gathered(interfaces, answers, n - 1) {
            Err(e) => Err(e),
            Ok(before) => match interface_neighbors(interfaces[n - 1].0, answers[n - 1]) {
                Err(e) => Err(e),
                Ok(more) => Ok(before + more),
            },
        }
    }
}

/// The links, once all was found out.
pub open spec fn neighbors_step(s: ToolStep<LldpNeighbor>, want: Result<
    Seq<NeighborView>,
    ErrorView,
>) -> bool {
    s matches ToolStep::Done(r) && neighbors_result(r) == want
}

/// What follows for the links from what was found out: without the tool there are
/// none; with it, those of the common interfaces that it knows.
pub open spec fn neighbors_follow(a: ToolAnswers, s: ToolStep<LldpNeighbor>) -> bool {
    match (a.available, a.hostname) {
        (None, _) => s is Ask && s->Ask_0 is FindTool,
        (Some(false), _) => neighbors_step(s, Ok(Seq::empty())),
        (Some(true), None) => s is Ask && s->Ask_0 is HostName,
        (Some(true), Some(h)) => if a.checks@.len() < 6 {
            checks_interface(s, common_names()[a.checks@.len() as int])
        } else {
            let known = or_unknown(
                known_of(a.checks@, 6, host_name_or_empty(h)),
                host_name_or_empty(h),
            );
            let told = if a.neighbors@.len() < known.len() {
                a.neighbors@.len() as int
            } else {
                known.len() as int
            };
            match gathered(known, a.neighbors@, told) {
                Err(e) => neighbors_step(s, Err(e)),
                Ok(found) => if told < known.len() {
                    s matches ToolStep::Ask(ToolRequest::ListNeighbors(n)) && n@ == known[told].0
                } else {
                    neighbors_step(s, Ok(found))
                },
            }
        },
    }
}

proof fn lemma_gathered_error(
    interfaces: Seq<InterfaceView>,
    answers: Seq<NeighborAnswer>,
    k: int,
    n: int,
)
    requires
        0 <= k <= n,
        gathered(interfaces, answers, k) is Err,
    ensures
        gathered(interfaces, answers, n) == gathered(interfaces, answers, k),
    decreases n - k,
{
    if k < n {
        lemma_gathered_error(interfaces, answers, k + 1, n);
    }
}

/// What follows for the links from what was found out.
pub fn get_lldp_neighbors_via_lldptool(answers: &ToolAnswers) -> (r: ToolStep<LldpNeighbor>)
    ensures
        neighbors_follow(*answers, r),
{
    let mut found: Vec<LldpNeighbor> = Vec::new();
    assert(neighbor_views(found@) =~= Seq::<NeighborView>::empty());
    let available = match answers.available {
        Some(b) => b,
        None => {
            return ToolStep::Ask(ToolRequest::FindTool);
        },
    };
    if !available {
        return ToolStep::Done(Ok(found));
    }
    let device = match &answers.hostname {
        Some(run) => device_name(run),
        None => {
            return ToolStep::Ask(ToolRequest::HostName);
        },
    };
    let n: usize = answers.checks.len();
    if n < 6 {
        return ToolStep::Ask(ToolRequest::CheckInterface(copy(common_name(n))));
    }
    let interfaces = discover_interfaces_via_lldptool_commands(device.as_str(), &answers.checks);
    let ghost known = interface_views(interfaces@);
    let m: usize = if answers.neighbors.len() < interfaces.len() {
        answers.neighbors.len()
    } else {
        interfaces.len()
    };
    let mut i: usize = 0;
    while i < m
        invariant
            i <= m,
            m <= answers.neighbors@.len(),
            m <= interfaces@.len(),
            known == interface_views(interfaces@),
            gathered(known, answers.neighbors@, i as int) == Ok::<Seq<NeighborView>, ErrorView>(
                neighbor_views(found@),
            ),
            answers.available == Some(true),
            answers.hostname matches Some(h) && known == or_unknown(
                known_of(answers.checks@, 6, host_name_or_empty(h)),
                host_name_or_empty(h),
            ),
            answers.checks@.len() >= 6,
            m == (if answers.neighbors@.len() < known.len() {
                answers.neighbors@.len() as int
            } else {
                known.len() as int
            }),
        decreases m - i,
    {
        assert(known[i as int].0 == interfaces@[i as int].name@);
        match get_lldp_neighbors_for_interface(
            interfaces[i].name.as_str(),
            &answers.neighbors[i],
        ) {
            Ok(mut more) => {
                let ghost a = found@;
                let ghost b = more@;
                found.append(&mut more);
                assert(neighbor_views(a + b) =~= neighbor_views(a) + neighbor_views(b));
            },
            Err(e) => {
                proof {
                    lemma_gathered_error(known, answers.neighbors@, i + 1, m as int);
                }
                return ToolStep::Done(Err(e));
            },
        }
        i = i + 1;
    }
    if m < interfaces.len() {
        assert(known[m as int].0 == interfaces@[m as int].name@);
        ToolStep::Ask(ToolRequest::ListNeighbors(copy(interfaces[m].name.as_str())))
    } else {
        ToolStep::Done(Ok(found))
    }
}

/// No virtual interface is ever named: neither the loopback, nor one of Docker, nor
/// a bridge.
pub proof fn law_virtual_interfaces_are_left_out(
    lines: Seq<Seq<char>>,
    device: Seq<char>,
    k: int,
)
    requires
        0 <= k < interfaces_in(lines, device).len(),
    ensures
        ({
            let (name, machine) = interfaces_in(lines, device)[k];
            &&& name.len() > 0
            &&& name != "lo"@
            &&& !"docker"@.is_prefix_of(name)
            &&& !"veth"@.is_prefix_of(name)
            &&& !"br-"@.is_prefix_of(name)
            &&& machine == device
        }),
    decreases lines.len(),
{
    if lines.len() > 0 && k < interfaces_in(lines.drop_last(), device).len() {
        law_virtual_interfaces_are_left_out(lines.drop_last(), device, k);
    }
}

/// There is always an interface to tell of: those that were found, or else the one
/// that is called unknown.
pub proof fn law_there_is_an_interface(found: Seq<InterfaceView>, device: Seq<char>)
    ensures
        or_unknown(found, device).len() > 0,
        found.len() > 0 ==> or_unknown(found, device) == found,
{
}

// ---------------------------------------------------------------------------
// What is made of what the programs print
// ---------------------------------------------------------------------------
/// The name of this machine is what `hostname` printed without the space around it,
/// `unknown` where that ended badly, and an error where it could not be run or printed
/// no text.
pub proof fn law_host_name_is_what_was_printed(o: ProcessOutput, e: String)
    ensures
        !o.success ==> host_name(Ok(o)) == Ok::<Seq<char>, ErrorView>("unknown"@),
        o.success ==> (utf8_of(o.stdout@) matches Some(t) ==> host_name(Ok(o)) == Ok::<
            Seq<char>,
            ErrorView,
        >(trimmed(t))),
        o.success && utf8_of(o.stdout@) is None ==> host_name(Ok(o)) is Err,
        host_name(Err(e)) is Err,
        host_name(Ok(o)) matches Ok(n) ==> host_name_or_empty(Ok(o)) == n,
        host_name_or_empty(Err(e)).len() == 0,
{
}

/// A printed line names an interface, which is the line without the space around it,
/// unless it is empty, the loopback, or begins with `docker`, `veth` or `br-`.
pub proof fn law_line_names_its_interface(a: Seq<char>, t: Seq<char>, b: Seq<char>)
    requires
        forall|i: int| 0 <= i < a.len() ==> crate::text::is_space(#[trigger] a[i]),
        forall|i: int| 0 <= i < b.len() ==> crate::text::is_space(#[trigger] b[i]),
        t.len() > 0 ==> !crate::text::is_space(t[0]) && !crate::text::is_space(t[t.len() - 1]),
    ensures
        t.len() > 0 && t != "lo"@ && !"docker"@.is_prefix_of(t) && !"veth"@.is_prefix_of(t)
            && !"br-"@.is_prefix_of(t) ==> named_interface(a + t + b) == Some(t),
        t.len() == 0 || t == "lo"@ || "docker"@.is_prefix_of(t) || "veth"@.is_prefix_of(t)
            || "br-"@.is_prefix_of(t) ==> named_interface(a + t + b) is None,
{
    crate::text::law_trimming_gives_back_the_text(a, t, b);
}

/// The interfaces that printed lines name are told in the order of the lines, each of
/// this machine; a heading names none.
pub proof fn law_lines_name_interfaces_in_order(
    before: Seq<Seq<char>>,
    line: Seq<char>,
    device: Seq<char>,
)
    ensures
        interfaces_in(Seq::<Seq<char>>::empty(), device).len() == 0,
        "Interface"@.is_prefix_of(trimmed(line)) ==> interfaces_in(before.push(line), device)
            == interfaces_in(before, device),
        !"Interface"@.is_prefix_of(trimmed(line)) ==> {
            &&& named_interface(line) matches Some(n) ==> interfaces_in(before.push(line), device)
                == interfaces_in(before, device).push((n, device))
            &&& named_interface(line) is None ==> interfaces_in(before.push(line), device)
                == interfaces_in(before, device)
        },
{
    assert(before.push(line).drop_last() =~= before);
    assert(before.push(line).last() == line);
    crate::text::lemma_trimmed_twice(line);
}

/// What the tool printed counts where it ended well; where it ended badly or could not
/// be run there are no interfaces, and what is no text is an error.
pub proof fn law_listing_counts_where_it_ended_well(o: ProcessOutput, e: String, device: Seq<char>)
    ensures
        o.success ==> (utf8_of(o.stdout@) matches Some(t) ==> printed_interfaces(Ok(o), device)
            == Ok::<Seq<InterfaceView>, ErrorView>(interfaces_in(lines_of(t), device))),
        o.success && utf8_of(o.stdout@) is None ==> printed_interfaces(Ok(o), device) is Err,
        !o.success ==> (printed_interfaces(Ok(o), device) matches Ok(v) && v.len() == 0),
        printed_interfaces(Err(e), device) matches Ok(v) && v.len() == 0,
{
}

/// Where no interface is known, one that is called unknown stands for this machine.
pub proof fn law_unknown_stands_for_none(found: Seq<InterfaceView>, device: Seq<char>)
    ensures
        found.len() == 0 ==> or_unknown(found, device) == seq![("unknown"@, device)],
        found.len() > 0 ==> or_unknown(found, device) == found,
{
}

/// Of the names that are looked for, those that occur anywhere in the list of devices
/// are told, in the order of the names, and none where there is no list.
pub proof fn law_occurring_names_are_told(
    before: Seq<Seq<char>>,
    name: Seq<char>,
    devices: Option<Seq<char>>,
    device: Seq<char>,
)
    ensures
        names_in(Seq::<Seq<char>>::empty(), devices, device).len() == 0,
        (devices matches Some(text) && has_text(text, name)) ==> names_in(
            before.push(name),
            devices,
            device,
        ) == names_in(before, devices, device).push((name, device)),
        !(devices matches Some(text) && has_text(text, name)) ==> names_in(
            before.push(name),
            devices,
            device,
        ) == names_in(before, devices, device),
        basic_names() == seq!["eth0"@, "enp0s3"@, "ens33"@, "wlan0"@],
{
    assert(before.push(name).drop_last() =~= before);
    assert(before.push(name).last() == name);
}

/// Of the common interfaces, those are known for which the tool ended well, in their
/// order.
pub proof fn law_checked_interfaces_are_known(checks: Seq<Run>, n: int, device: Seq<char>)
    requires
        0 < n <= 6,
    ensures
        known_of(checks, 0, device).len() == 0,
        (checks[n - 1] matches Ok(o) && o.success) ==> known_of(checks, n, device) == known_of(
            checks,
            n - 1,
            device,
        ).push((common_names()[n - 1], device)),
        !(checks[n - 1] matches Ok(o) && o.success) ==> known_of(checks, n, device) == known_of(
            checks,
            n - 1,
            device,
        ),
        common_names() == seq!["eth0"@, "eth1"@, "enp0s3"@, "enp0s8"@, "ens33"@, "wlan0"@],
{
}

/// A text of white space alone.
pub open spec fn blank(s: Seq<char>) -> bool {
    forall|i: int| 0 <= i < s.len() ==> crate::text::is_space(#[trigger] s[i])
}

/// A line that says `value` under `key`: the key, more words without a colon, a colon,
/// and the value with white space around it or none.
pub open spec fn says(line: Seq<char>, key: Seq<char>, value: Seq<char>) -> bool {
    &&& value.len() > 0 ==> !crate::text::is_space(value[0]) && !crate::text::is_space(
        value[value.len() - 1],
    )
    &&& exists|more: Seq<char>, a: Seq<char>, b: Seq<char>|
        #![trigger (key + more) + ":"@ + (a + value + b)]
        {
            &&& trimmed(line) == (key + more) + ":"@ + (a + value + b)
            &&& !(key + more).contains(':')
            &&& blank(a)
            &&& blank(b)
        }
}

proof fn lemma_says(line: Seq<char>, key: Seq<char>, value: Seq<char>)
    requires
        says(line, key, value),
    ensures
        key.is_prefix_of(trimmed(line)),
        behind_colon(trimmed(line)) == Some(value),
{
    reveal_strlit(":");
    let (more, a, b) = choose|more: Seq<char>, a: Seq<char>, b: Seq<char>|
        #![trigger (key + more) + ":"@ + (a + value + b)]
        {
            &&& trimmed(line) == (key + more) + ":"@ + (a + value + b)
            &&& !(key + more).contains(':')
            &&& blank(a)
            &&& blank(b)
        };
    let t = trimmed(line);
    let head = key + more;
    let rest = a + value + b;
    assert(t.take(key.len() as int) =~= key);
    assert forall|i: int| 0 <= i < head.len() implies !crate::text::occurs_at(t, ":"@, i) by {
        if crate::text::occurs_at(t, ":"@, i) {
            assert(t.subrange(i, i + 1)[0] == ":"@[0]);
            assert(head[i] == ':');
        }
    }
    crate::text::law_cut_gives_back_the_parts(head, ":"@, rest);
    crate::text::law_trimming_gives_back_the_text(a, value, b);
}

/// A chassis and the port that is told behind it are one link from the interface to
/// that port of that chassis, and so are a port and the chassis that is told behind
/// it.
pub proof fn law_chassis_and_port_are_a_link(
    before: Seq<Seq<char>>,
    l1: Seq<char>,
    l2: Seq<char>,
    chassis: Seq<char>,
    port: Seq<char>,
    interface: Seq<char>,
    device: Seq<char>,
)
    requires
        read_lines(before, interface, device).1 is None,
    ensures
        ({
            let had = read_lines(before, interface, device).0;
            let has = read_lines(before.push(l1).push(l2), interface, device);
            let link = NeighborView {
                local_interface: interface,
                local_device: device,
                remote_device: chassis,
                remote_port: port,
            };
            &&& says(l1, "Chassis ID"@, chassis) && says(l2, "Port ID"@, port) ==> has.0
                == had.push(link) && has.1 is None
            &&& says(l1, "Port ID"@, port) && says(l2, "Chassis ID"@, chassis) ==> has.0
                == had.push(link)
        }),
{
    reveal_strlit("Chassis ID");
    reveal_strlit("Port ID");
    let s1 = before.push(l1);
    let s2 = s1.push(l2);
    assert(s1.drop_last() =~= before && s2.drop_last() =~= s1);
    assert(s1.last() == l1 && s2.last() == l2);
    assert(read_lines(s1, interface, device) == read_line(
        read_lines(before, interface, device),
        trimmed(l1),
        interface,
        device,
    ));
    if says(l1, "Chassis ID"@, chassis) && says(l2, "Port ID"@, port) {
        lemma_says(l1, "Chassis ID"@, chassis);
        lemma_says(l2, "Port ID"@, port);
        assert(!"Chassis ID"@.is_prefix_of(trimmed(l2))) by {
            if "Chassis ID"@.is_prefix_of(trimmed(l2)) {
                assert(trimmed(l2).take(10)[0] == 'C');
                assert(trimmed(l2).take(7)[0] == 'P');
            }
        }
    }
    if says(l1, "Port ID"@, port) && says(l2, "Chassis ID"@, chassis) {
        lemma_says(l1, "Port ID"@, port);
        lemma_says(l2, "Chassis ID"@, chassis);
        assert(!"Chassis ID"@.is_prefix_of(trimmed(l1))) by {
            if "Chassis ID"@.is_prefix_of(trimmed(l1)) {
                assert(trimmed(l1).take(10)[0] == 'C');
                assert(trimmed(l1).take(7)[0] == 'P');
            }
        }
    }
}

/// Lines that tell neither a chassis nor a port make no difference, and without lines
/// there is no link.
pub proof fn law_other_lines_make_no_difference(
    before: Seq<Seq<char>>,
    line: Seq<char>,
    interface: Seq<char>,
    device: Seq<char>,
)
    ensures
        !"Chassis ID"@.is_prefix_of(trimmed(line)) && !"Port ID"@.is_prefix_of(trimmed(line))
            ==> read_lines(before.push(line), interface, device) == read_lines(
            before,
            interface,
            device,
        ),
        read_lines(Seq::<Seq<char>>::empty(), interface, device).0.len() == 0,
        read_lines(Seq::<Seq<char>>::empty(), interface, device).1 is None,
{
    assert(before.push(line).drop_last() =~= before);
    assert(before.push(line).last() == line);
}

/// A chassis or a port that still waits at the end is no link without the other.
pub proof fn law_half_a_link_is_none(
    found: Seq<NeighborView>,
    remote: Seq<char>,
    port: Seq<char>,
    interface: Seq<char>,
    device: Seq<char>,
)
    ensures
        finished((found, None), interface, device) == found,
        remote.len() == 0 || port.len() == 0 ==> finished(
            (found, Some((remote, port))),
            interface,
            device,
        ) == found,
{
}

/// The links of an interface are those that the tool printed for it, of the machine
/// that `hostname` names; none where the tool is not there or ended badly, and an error
/// where it could not be run or printed no text.
pub proof fn law_printed_links_count(
    interface: Seq<char>,
    o: ProcessOutput,
    e: String,
    hostname: Run,
)
    ensures
        ({
            let device = host_name_or_empty(hostname);
            let ran = NeighborAnswer::Ran { run: Ok(o), hostname };
            let not_run = NeighborAnswer::Ran { run: Err(e), hostname };
            &&& interface_neighbors(interface, NeighborAnswer::NoTool) matches Ok(v) && v.len() == 0
            &&& interface_neighbors(interface, not_run) is Err
            &&& !o.success ==> (interface_neighbors(interface, ran) matches Ok(v) && v.len() == 0)
            &&& o.success && utf8_of(o.stdout@) is None ==> interface_neighbors(interface, ran)
                is Err
            &&& o.success ==> (utf8_of(o.stdout@) matches Some(t) ==> interface_neighbors(
                interface,
                ran,
            ) == Ok::<Seq<NeighborView>, ErrorView>(
                finished(read_lines(lines_of(t), interface, device), interface, device),
            ))
        }),
{
}

/// The links of several interfaces are those of each, in their order; the first error
/// takes the place of all.
pub proof fn law_links_are_gathered_in_order(
    interfaces: Seq<InterfaceView>,
    answers: Seq<NeighborAnswer>,
    n: int,
)
    requires
        0 < n,
    ensures
        gathered(interfaces, answers, 0) matches Ok(v) && v.len() == 0,
        gathered(interfaces, answers, n - 1) is Err ==> gathered(interfaces, answers, n)
            == gathered(interfaces, answers, n - 1),
        gathered(interfaces, answers, n - 1) matches Ok(had) ==> {
            &&& interface_neighbors(interfaces[n - 1].0, answers[n - 1]) matches Ok(more)
                ==> gathered(interfaces, answers, n) == Ok::<Seq<NeighborView>, ErrorView>(
                had + more,
            )
            &&& interface_neighbors(interfaces[n - 1].0, answers[n - 1]) matches Err(e)
                ==> gathered(interfaces, answers, n) == Err::<Seq<NeighborView>, ErrorView>(e)
        },
{
}

/// What is asked for the interfaces, in this order: whether the tool is there, the name
/// of the machine, and then the list of devices without the tool, or with it its
/// listing and, where that names none, the common interfaces one by one. Without the
/// tool the basic interfaces are told, with it those that it lists, or else the common
/// ones that it knows.
pub proof fn law_interfaces_are_asked_for_in_order(a: ToolAnswers, s: ToolStep<LldpInterface>)
    requires
        interfaces_follow(a, s),
    ensures
        a.available is None ==> s is Ask && s->Ask_0 is FindTool,
        a.available is Some && a.hostname is None ==> s is Ask && s->Ask_0 is HostName,
        a.available == Some(false) && a.hostname is Some && a.devices is None ==> s is Ask
            && s->Ask_0 is ReadDevices,
        a.available == Some(true) && a.hostname is Some && a.listing is None ==> s is Ask
            && s->Ask_0 is ListInterfaces,
        a.available == Some(false) && a.hostname is Some && a.devices is Some ==> {
            let d = host_name_or_empty(a.hostname->0);
            let text = crate::text::opt_text(a.devices->0);
            s matches ToolStep::Done(r) && interfaces_result(r) == Ok::<
                Seq<InterfaceView>,
                ErrorView,
            >(or_unknown(names_in(basic_names(), text, d), d))
        },
        a.available == Some(true) && a.hostname is Some && a.listing is Some ==> {
            let d = host_name_or_empty(a.hostname->0);
            match printed_interfaces(a.listing->0, d) {
                Err(e) => s matches ToolStep::Done(r) && interfaces_result(r) == Err::<
                    Seq<InterfaceView>,
                    ErrorView,
                >(e),
                Ok(found) => {
                    &&& found.len() > 0 ==> (s matches ToolStep::Done(r) && interfaces_result(r)
                        == Ok::<Seq<InterfaceView>, ErrorView>(found))
                    &&& found.len() == 0 && a.checks@.len() < 6 ==> (
                    s matches ToolStep::Ask(ToolRequest::CheckInterface(n)) && n@
                        == common_names()[a.checks@.len() as int])
                    &&& found.len() == 0 && a.checks@.len() >= 6 ==> (s matches ToolStep::Done(r)
                        && interfaces_result(r) == Ok::<Seq<InterfaceView>, ErrorView>(
                        or_unknown(known_of(a.checks@, 6, d), d),
                    ))
                },
            }
        },
{
}

/// What is asked for the links, in this order: whether the tool is there, the name of
/// the machine, the common interfaces one by one, and the links of each that is known.
/// Without the tool there are none.
pub proof fn law_links_are_asked_for_in_order(a: ToolAnswers, s: ToolStep<LldpNeighbor>)
    requires
        neighbors_follow(a, s),
    ensures
        a.available is None ==> s is Ask && s->Ask_0 is FindTool,
        a.available == Some(false) ==> (s matches ToolStep::Done(r) && (
        neighbors_result(r) matches Ok(v) && v.len() == 0)),
        a.available == Some(true) && a.hostname is None ==> s is Ask && s->Ask_0 is HostName,
        a.available == Some(true) && a.hostname is Some && a.checks@.len() < 6 ==> (
        s matches ToolStep::Ask(ToolRequest::CheckInterface(n)) && n@
            == common_names()[a.checks@.len() as int]),
        a.available == Some(true) && a.hostname is Some && a.checks@.len() >= 6 ==> {
            let d = host_name_or_empty(a.hostname->0);
            let known = or_unknown(known_of(a.checks@, 6, d), d);
            let k = a.neighbors@.len();
            &&& k < known.len() && gathered(known, a.neighbors@, k as int) is Ok ==> (
            s matches ToolStep::Ask(ToolRequest::ListNeighbors(n)) && n@ == known[k as int].0)
            &&& k >= known.len() ==> (s matches ToolStep::Done(r) && neighbors_result(r)
                == gathered(known, a.neighbors@, known.len() as int))
            &&& k < known.len() && gathered(known, a.neighbors@, k as int) is Err ==> (
            s matches ToolStep::Done(r) && neighbors_result(r) == gathered(
                known,
                a.neighbors@,
                k as int,
            ))
        },
{
}

/// A program that could not be run, or that printed no text, is named in the error.
pub proof fn law_errors_name_the_program(
    o: ProcessOutput,
    e: String,
    device: Seq<char>,
    interface: Seq<char>,
    hostname: Run,
)
    ensures
        host_name(Err(e)) == Err::<Seq<char>, ErrorView>(
            ErrorView::LibraryNotAvailable("Failed to execute hostname: "@ + e@),
        ),
        interface_neighbors(interface, (NeighborAnswer::Ran { run: Err(e), hostname })) == Err::<
            Seq<NeighborView>,
            ErrorView,
        >(ErrorView::LibraryNotAvailable("Failed to execute lldptool: "@ + e@)),
        o.success && utf8_of(o.stdout@) is None ==> {
            let garbled = ErrorView::LibraryNotAvailable("Invalid UTF-8 in lldptool output"@);
            &&& host_name(Ok(o)) == Err::<Seq<char>, ErrorView>(
                ErrorView::LibraryNotAvailable("Invalid UTF-8 in hostname output"@),
            )
            &&& printed_interfaces(Ok(o), device) == Err::<Seq<InterfaceView>, ErrorView>(garbled)
            &&& interface_neighbors(interface, (NeighborAnswer::Ran { run: Ok(o), hostname }))
                == Err::<Seq<NeighborView>, ErrorView>(garbled)
        },
{
}

} // verus!
