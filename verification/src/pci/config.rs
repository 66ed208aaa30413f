//! Reading the devices, and the events that tell of them.
use vstd::prelude::*;

use super::errors::{PciError, PciErrorView};
use super::pci::{address_text, parsed_address, PciAddress, PciDevice};
use crate::clock::{now, Timestamp};
use crate::log::{LogEvent, LogView, Value, ValueView};
use crate::number::{hex, number_text, parse_unsigned, unsigned_value};
use crate::schema::{FieldKind, FieldView, SourceOutput};
use crate::text::{
    contains, copy, has_text, join2, opt_text, trim, trim_start_matches, trimmed, without_leading,
};

verus! {

/// The directory that holds one entry for each device.
pub const SYS_PCI_PATH: &'static str = "/sys/bus/pci/devices";

/// The name of the source.
pub const SOURCE_NAME: &'static str = "pci";

// ---------------------------------------------------------------------------
// Configuration
// ---------------------------------------------------------------------------
/// A span of time.
#[derive(Clone, Copy, Debug, PartialEq, Eq, Structural)]
pub struct Interval {
    /// Whole seconds.
    pub secs: u64,
    /// Nanoseconds on top of the seconds.
    pub nanos: u32,
}

/// How often devices are looked at.
#[derive(Clone, Copy, Debug)]
pub struct Config {
    /// How often devices are looked at.
    pub interval: Interval,
}

/// How often devices are looked at, where nothing is configured: every quarter of an
/// hour.
pub fn default_interval() -> (r: Interval)
    ensures
        r.secs == 15 * 60,
        r.nanos == 0,
{
    Interval { secs: 900, nanos: 0 }
}

impl Default for Config {
    fn default() -> (r: Config)
        ensures
            r.interval.secs == 15 * 60,
            r.interval.nanos == 0,
    {
        Config { interval: default_interval() }
    }
}

// ---------------------------------------------------------------------------
// Files
// ---------------------------------------------------------------------------
/// What was read of the files of one device, or why it was not.
#[derive(Debug)]
pub struct DeviceFiles {
    /// `class`.
    pub class: Result<String, String>,
    /// `device`.
    pub device: Result<String, String>,
    /// `vendor`.
    pub vendor: Result<String, String>,
    /// `current_link_speed`.
    pub current_link_speed: Result<String, String>,
    /// `current_link_width`.
    pub current_link_width: Result<String, String>,
    /// `max_link_speed`.
    pub max_link_speed: Result<String, String>,
    /// `max_link_width`.
    pub max_link_width: Result<String, String>,
}

/// One entry of the directory, with links followed.
#[derive(Debug)]
pub struct SysEntry {
    /// Whether it is a directory.
    pub is_dir: bool,
    /// Its name, where it is UTF-8.
    pub name: Option<String>,
    /// The files in it.
    pub files: DeviceFiles,
}

/// What a file says, without the space around it.
pub open spec fn file_text(content: Result<String, String>) -> Result<Seq<char>, PciErrorView> {
    match content {
        Ok(s) => Ok(trimmed(s@)),
        Err(e) => Err(PciErrorView::FileError(e@)),
    }
}

/// What a file says, where it could be read.
pub open spec fn file_opt(content: Result<String, String>) -> Option<Seq<char>> {
    match content {
        Ok(s) => Some(trimmed(s@)),
        Err(_) => None,
    }
}

/// The number in a file: hexadecimal digits, behind any number of `0x`.
pub open spec fn file_number(content: Result<String, String>) -> Result<nat, PciErrorView> {
    match file_text(content) {
        Err(e) => Err(e),
        Ok(t) => match unsigned_value(without_leading(t, "0x"@), 16, 0xffff_ffff) {
            Ok(n) => Ok(n),
            Err(e) => Err(PciErrorView::FileNumber(e)),
        },
    }
}

/// A result of a text, read as characters.
pub open spec fn text_result(r: Result<String, PciError>) -> Result<Seq<char>, PciErrorView> {
    match r {
        Ok(s) => Ok(s@),
        Err(e) => Err(e@),
    }
}

fn number_in(text: Result<String, PciError>) -> (r: Result<u32, PciError>)
    ensures
        match (r, text_result(text)) {
            (Ok(n), Ok(t)) => unsigned_value(without_leading(t, "0x"@), 16, 0xffff_ffff) == Ok::<
                nat,
                crate::number::IntError,
            >(n as nat),
            (Err(e), Ok(t)) => match unsigned_value(without_leading(t, "0x"@), 16, 0xffff_ffff) {
                Ok(_) => false,
                Err(k) => e@ == PciErrorView::FileNumber(k),
            },
            (Err(e), Err(m)) => e@ == m,
            _ => false,
        },
{
    match text {
        Ok(t) => {
            let digits = trim_start_matches(t.as_str(), "0x");
            match parse_unsigned(digits.as_str(), 16, 0xffff_ffff) {
                Ok(n) => Ok(n),
                Err(e) => Err(PciError::FileNumber(e)),
            }
        },
        Err(e) => Err(e),
    }
}

fn readable(text: Result<String, PciError>) -> (r: Option<String>)
    ensures
        opt_text(r) == (match text_result(text) {
            Ok(t) => Some(t),
            Err(_) => None,
        }),
{
    match text {
        Ok(t) => Some(t),
        Err(_) => None,
    }
}

/// A device is what its files say.
pub open spec fn device_is(
    d: PciDevice,
    address: PciAddress,
    class: nat,
    device: nat,
    vendor: nat,
    files: DeviceFiles,
) -> bool {
    &&& d.address == address
    &&& d.class == class
    &&& d.device == device
    &&& d.vendor == vendor
    &&& opt_text(d.current_link_speed) == file_opt(files.current_link_speed)
    &&& opt_text(d.current_link_width) == file_opt(files.current_link_width)
    &&& opt_text(d.max_link_speed) == file_opt(files.max_link_speed)
    &&& opt_text(d.max_link_width) == file_opt(files.max_link_width)
}

/// The device of an entry is told as its files say; what is wrong with the first of
/// class, device and vendor is an error.
pub open spec fn device_follows(
    address: PciAddress,
    files: DeviceFiles,
    r: Result<PciDevice, PciError>,
) -> bool {
    match file_number(files.class) {
        Err(m) => r matches Err(e) && e@ == m,
        Ok(class) => match file_number(files.device) {
            Err(m) => r matches Err(e) && e@ == m,
            Ok(device) => match file_number(files.vendor) {
                Err(m) => r matches Err(e) && e@ == m,
                Ok(vendor) => r matches Ok(d) && device_is(
                    d,
                    address,
                    class,
                    device,
                    vendor,
                    files,
                ),
            },
        },
    }
}

/// What an entry is.
#[derive(Debug)]
pub enum EntryKind {
    /// No device.
    Other,
    /// The device at the address.
    Device(PciAddress),
    /// It looks like a device, but has no address.
    Illegal(PciError),
}

/// The entry is a directory with a colon in its name.
pub open spec fn looks_like_device(is_dir: bool, name: Option<Seq<char>>) -> bool {
    (name matches Some(n) && has_text(n, ":"@)) && is_dir
}

/// What is wrong with an entry, where something is.
pub open spec fn entry_error(entry: Result<SysEntry, String>) -> Option<PciErrorView> {
    match entry {
        Err(e) => Some(PciErrorView::FileError(e@)),
        Ok(x) => if looks_like_device(x.is_dir, opt_text(x.name)) {
            match parsed_address(x.name->0@) {
                Err(e) => Some(e),
                Ok(_) => match file_number(x.files.class) {
                    Err(e) => Some(e),
                    Ok(_) => match file_number(x.files.device) {
                        Err(e) => Some(e),
                        Ok(_) => match file_number(x.files.vendor) {
                            Err(e) => Some(e),
                            Ok(_) => None,
                        },
                    },
                },
            }
        } else {
            None
        },
    }
}

/// The entry is that of a device.
pub open spec fn is_device(entry: Result<SysEntry, String>) -> bool {
    entry matches Ok(x) && looks_like_device(x.is_dir, opt_text(x.name))
}

/// The device is the one of the entry.
pub open spec fn tells_device(entry: Result<SysEntry, String>, d: PciDevice) -> bool {
    match entry {
        Ok(x) => {
            &&& parsed_address(x.name->0@) is Ok
            &&& file_number(x.files.class) is Ok
            &&& file_number(x.files.device) is Ok
            &&& file_number(x.files.vendor) is Ok
            &&& device_is(
                d,
                parsed_address(x.name->0@)->Ok_0,
                file_number(x.files.class)->Ok_0,
                file_number(x.files.device)->Ok_0,
                file_number(x.files.vendor)->Ok_0,
                x.files,
            )
        },
        Err(_) => false,
    }
}

/// The entries of devices, in their order.
pub open spec fn device_entries(entries: Seq<Result<SysEntry, String>>) -> Seq<
    Result<SysEntry, String>,
>
    decreases entries.len(),
{
    if entries.len() == 0 {
        Seq::empty()
    } else {
        let before = device_entries(entries.drop_last());
        if is_device(entries.last()) {
            before.push(entries.last())
        } else {
            before
        }
    }
}

/// What is wrong with the first entry that something is wrong with.
pub open spec fn first_error(entries: Seq<Result<SysEntry, String>>) -> Option<PciErrorView>
    decreases entries.len(),
{
    if entries.len() == 0 {
        None
    } else {
        match first_error(entries.drop_last()) {
            Some(e) => Some(e),
            None => entry_error(entries.last()),
        }
    }
}

proof fn lemma_first_error_stays(entries: Seq<Result<SysEntry, String>>, k: int)
    requires
        0 <= k <= entries.len(),
        first_error(entries.take(k)) is Some,
    ensures
        first_error(entries) == first_error(entries.take(k)),
    decreases entries.len() - k,
{
    if k == entries.len() {
        assert(entries.take(k) =~= entries);
    } else {
        assert(entries.take(k + 1).drop_last() =~= entries.take(k));
        lemma_first_error_stays(entries, k + 1);
    }
}

impl Config {
    /// What a file says, without the space around it.
    pub fn read_pci_file(&self, content: &Result<String, String>) -> (r: Result<String, PciError>)
        ensures
            text_result(r) == file_text(*content),
    {
        match content {
            Ok(s) => Ok(trim(s.as_str())),
            Err(e) => Err(PciError::FileError(copy(e.as_str()))),
        }
    }

    /// What the file `vendor` says.
    pub fn read_pci_vendor(&self, files: &DeviceFiles) -> (r: Result<String, PciError>)
        ensures
            text_result(r) == file_text(files.vendor),
    {
        self.read_pci_file(&files.vendor)
    }

    /// What the file `device` says.
    pub fn read_pci_device(&self, files: &DeviceFiles) -> (r: Result<String, PciError>)
        ensures
            text_result(r) == file_text(files.device),
    {
        self.read_pci_file(&files.device)
    }

    /// What the file `class` says.
    pub fn read_pci_class(&self, files: &DeviceFiles) -> (r: Result<String, PciError>)
        ensures
            text_result(r) == file_text(files.class),
    {
        self.read_pci_file(&files.class)
    }

    /// What the file `max_link_speed` says.
    pub fn read_pci_max_link_speed(&self, files: &DeviceFiles) -> (r: Result<String, PciError>)
        ensures
            text_result(r) == file_text(files.max_link_speed),
    {
        self.read_pci_file(&files.max_link_speed)
    }

    /// What the file `max_link_width` says.
    pub fn read_pci_max_link_width(&self, files: &DeviceFiles) -> (r: Result<String, PciError>)
        ensures
            text_result(r) == file_text(files.max_link_width),
    {
        self.read_pci_file(&files.max_link_width)
    }

    /// What the file `current_link_speed` says.
    pub fn read_pci_current_link_speed(&self, files: &DeviceFiles) -> (r: Result<String, PciError>)
        ensures
            text_result(r) == file_text(files.current_link_speed),
    {
        self.read_pci_file(&files.current_link_speed)
    }

    /// What the file `current_link_width` says.
    pub fn read_pci_current_link_width(&self, files: &DeviceFiles) -> (r: Result<String, PciError>)
        ensures
            text_result(r) == file_text(files.current_link_width),
    {
        self.read_pci_file(&files.current_link_width)
    }

    /// What an entry is, by its name.
    pub fn classify_entry(&self, is_dir: bool, name: &Option<String>) -> (r: EntryKind)
        ensures
            if looks_like_device(is_dir, opt_text(*name)) {
                match parsed_address(name->0@) {
                    Ok(a) => r == EntryKind::Device(a),
                    Err(m) => r matches EntryKind::Illegal(e) && e@ == m,
                }
            } else {
                r is Other
            },
    {
        if !is_dir {
            return EntryKind::Other;
        }
        match name {
            Some(n) => if contains(n.as_str(), ":") {
                match PciAddress::from_str(n.as_str()) {
                    Ok(a) => EntryKind::Device(a),
                    Err(e) => EntryKind::Illegal(e),
                }
            } else {
                EntryKind::Other
            },
            None => EntryKind::Other,
        }
    }

    /// The device at an address, from what its files say.
    pub fn read_device(&self, address: PciAddress, files: &DeviceFiles) -> (r: Result<
        PciDevice,
        PciError,
    >)
        ensures
            device_follows(address, *files, r),
    {
        let class: u32 = match number_in(self.read_pci_class(files)) {
            Ok(n) => n,
            Err(e) => {
                return Err(e);
            },
        };
        let device: u32 = match number_in(self.read_pci_device(files)) {
            Ok(n) => n,
            Err(e) => {
                return Err(e);
            },
        };
        let vendor: u32 = match number_in(self.read_pci_vendor(files)) {
            Ok(n) => n,
            Err(e) => {
                return Err(e);
            },
        };
        let current_speed = readable(self.read_pci_current_link_speed(files));
        let current_width = readable(self.read_pci_current_link_width(files));
        let max_speed = readable(self.read_pci_max_link_speed(files));
        let max_width = readable(self.read_pci_max_link_width(files));
        Ok(
            PciDevice::new(address, vendor, device, class).set_current_link_speed(
                current_speed,
            ).set_current_link_width(current_width).set_max_link_speed(
                max_speed,
            ).set_max_link_width(max_width),
        )
    }

    /// The devices of the entries, in their order; or what is wrong with the first
    /// entry that something is wrong with.
    pub fn walk_pcie_addrs(&self, entries: &Vec<Result<SysEntry, String>>) -> (r: Result<
        Vec<PciDevice>,
        PciError,
    >)
        ensures
            match r {
                Err(e) => first_error(entries@) == Some(e@),
                Ok(v) => {
                    let found = device_entries(entries@);
                    &&& first_error(entries@) is None
                    &&& v@.len() == found.len()
                    &&& forall|i: int| 0 <= i < v@.len() ==> tells_device(found[i], #[trigger] v@[i])
                },
            },
    {
        let mut r: Vec<PciDevice> = Vec::new();
        let n: usize = entries.len();
        let ghost all = entries@;
        let mut i: usize = 0;
        assert(all.take(0) =~= Seq::<Result<SysEntry, String>>::empty());
        while i < n
            invariant
                n == all.len(),
                all == entries@,
                i <= n,
                first_error(all.take(i as int)) is None,
                r@.len() == device_entries(all.take(i as int)).len(),
                forall|j: int|
                    0 <= j < r@.len() ==> tells_device(
                        device_entries(all.take(i as int))[j],
                        #[trigger] r@[j],
                    ),
            decreases n - i,
        {
            let ghost upto = all.take(i + 1);
            assert(upto.drop_last() =~= all.take(i as int));
            assert(upto.last() == all[i as int]);
            let entry = match &entries[i] {
                Ok(x) => x,
                Err(e) => {
                    proof {
                        lemma_first_error_stays(all, i + 1);
                    }
                    return Err(PciError::FileError(copy(e.as_str())));
                },
            };
            match self.classify_entry(entry.is_dir, &entry.name) {
                EntryKind::Other => {},
                EntryKind::Illegal(e) => {
                    proof {
                        lemma_first_error_stays(all, i + 1);
                    }
                    return Err(e);
                },
                EntryKind::Device(address) => match self.read_device(address, &entry.files) {
                    Ok(d) => {
                        assert(tells_device(all[i as int], d));
                        r.push(d);
                    },
                    Err(e) => {
                        proof {
                            lemma_first_error_stays(all, i + 1);
                        }
                        return Err(e);
                    },
                },
            }
            i = i + 1;
        }
        assert(all.take(n as int) =~= all);
        Ok(r)
    }
}

// ---------------------------------------------------------------------------
// Events
// ---------------------------------------------------------------------------
/// A field is given a text, unless it has a value.
pub open spec fn filled(log: LogView, key: Seq<char>, text: Seq<char>) -> LogView {
    if log.contains_key(key) {
        log
    } else {
        log.insert(key, ValueView::Text(text))
    }
}

/// A number in hexadecimal digits behind `0x`.
pub open spec fn prefixed_hex(n: u32) -> Seq<char> {
    "0x"@ + number_text(n as nat, 16)
}

/// A text, or the empty one where it is absent.
pub open spec fn or_blank(s: Option<String>) -> Seq<char> {
    match s {
        Some(t) => t@,
        None => ""@,
    }
}

/// The event that all events of the source begin with.
pub open spec fn standard_log(ts: Timestamp) -> LogView {
    Map::<Seq<char>, ValueView>::empty().insert("source_type"@, ValueView::Text("pci"@)).insert(
        "timestamp"@,
        ValueView::Timestamp(ts),
    )
}

/// The event that tells of a device, begun with `base`.
pub open spec fn device_log(base: LogView, d: PciDevice) -> LogView {
    let l1 = filled(base, "address"@, address_text(d.address));
    let l2 = filled(l1, "class"@, prefixed_hex(d.class));
    let l3 = filled(l2, "device"@, prefixed_hex(d.device));
    let l4 = filled(l3, "vendor"@, prefixed_hex(d.vendor));
    let l5 = filled(l4, "max_link_speed"@, or_blank(d.max_link_speed));
    let l6 = filled(l5, "max_link_width"@, or_blank(d.max_link_width));
    let l7 = filled(l6, "current_link_speed"@, or_blank(d.current_link_speed));
    filled(l7, "current_link_width"@, or_blank(d.current_link_width))
}

fn fill(log: &mut LogEvent, key: &str, text: String)
    ensures
        final(log)@ == filled(old(log)@, key@, text@),
{
    log.try_insert(key, Value::Text(text));
}

fn hex_with_prefix(n: u32) -> (r: String)
    ensures
        r@ == prefixed_hex(n),
{
    let digits = hex(n as u64);
    join2("0x", digits.as_str())
}

fn blank_or(s: Option<String>) -> (r: String)
    ensures
        r@ == or_blank(s),
{
    match s {
        Some(t) => t,
        None => copy(""),
    }
}

impl PciDevice {
    /// The event that tells of the device, begun with `base`.
    pub fn into_log_from(self, base: LogEvent) -> (r: LogEvent)
        ensures
            r@ == device_log(base@, self),
    {
        let mut log = base;
        fill(&mut log, "address", self.address.to_string());
        fill(&mut log, "class", hex_with_prefix(self.class));
        fill(&mut log, "device", hex_with_prefix(self.device));
        fill(&mut log, "vendor", hex_with_prefix(self.vendor));
        fill(&mut log, "max_link_speed", blank_or(self.max_link_speed));
        fill(&mut log, "max_link_width", blank_or(self.max_link_width));
        fill(&mut log, "current_link_speed", blank_or(self.current_link_speed));
        fill(&mut log, "current_link_width", blank_or(self.current_link_width));
        log
    }

    /// The event that tells of the device, observed at `ts`.
    pub fn into_log_at(self, ts: Timestamp) -> (r: LogEvent)
        ensures
            r@ == device_log(standard_log(ts), self),
    {
        let mut log = LogEvent::new();
        log.insert_text("source_type", SOURCE_NAME);
        log.insert("timestamp", Value::Timestamp(ts));
        self.into_log_from(log)
    }

    /// The event that tells of the device, observed now.
    pub fn into_log(self) -> (r: LogEvent)
        ensures
            exists|ts: Timestamp| r@ == #[trigger] device_log(standard_log(ts), self),
    {
        let ts = now();
        self.into_log_at(ts)
    }
}

/// An event begun with fields of its own keeps them.
pub proof fn law_base_fields_stay(base: LogView, d: PciDevice, key: Seq<char>)
    requires
        base.contains_key(key),
    ensures
        device_log(base, d).contains_key(key),
        device_log(base, d)[key] == base[key],
{
}

/// The event of a device tells its address, from which the address can be read back.
pub proof fn law_event_tells_the_address(ts: Timestamp, d: PciDevice)
    ensures
        device_log(standard_log(ts), d)["address"@] == ValueView::Text(address_text(d.address)),
        parsed_address(address_text(d.address)) == Ok::<PciAddress, PciErrorView>(d.address),
{
    super::pci::law_address_round_trip(d.address);
    reveal_strlit("address");
    reveal_strlit("source_type");
    reveal_strlit("timestamp");
    reveal_strlit("class");
    reveal_strlit("device");
    reveal_strlit("vendor");
    reveal_strlit("max_link_speed");
    reveal_strlit("max_link_width");
    reveal_strlit("current_link_speed");
    reveal_strlit("current_link_width");
    assert("address"@.len() == 7);
    assert("source_type"@.len() == 11 && "timestamp"@.len() == 9 && "class"@.len() == 5);
    assert("device"@.len() == 6 && "vendor"@.len() == 6);
    assert("max_link_speed"@.len() == 14 && "max_link_width"@.len() == 14);
    assert("current_link_speed"@.len() == 18 && "current_link_width"@.len() == 18);
}

/// The fields of the events.
pub open spec fn device_fields() -> Seq<FieldView> {
    seq![
        ("address"@, FieldKind::Bytes, ""@),
        ("class"@, FieldKind::Bytes, ""@),
        ("device"@, FieldKind::Bytes, ""@),
        ("vendor"@, FieldKind::Bytes, ""@),
        ("max_link_speed"@, FieldKind::Bytes, ""@),
        ("max_link_width"@, FieldKind::Bytes, ""@),
        ("current_link_speed"@, FieldKind::Bytes, ""@),
        ("current_link_width"@, FieldKind::Bytes, ""@),
    ]
}

impl Config {
    /// What the source puts out.
    pub fn outputs(&self) -> (r: Vec<SourceOutput>)
        ensures
            r@.len() == 1,
            r@[0].data_type is Log,
            r@[0].field_views() == device_fields(),
    {
        let o = SourceOutput::logs().with_event_field(
            "address",
            FieldKind::Bytes,
            "",
        ).with_event_field("class", FieldKind::Bytes, "").with_event_field(
            "device",
            FieldKind::Bytes,
            "",
        ).with_event_field("vendor", FieldKind::Bytes, "").with_event_field(
            "max_link_speed",
            FieldKind::Bytes,
            "",
        ).with_event_field("max_link_width", FieldKind::Bytes, "").with_event_field(
            "current_link_speed",
            FieldKind::Bytes,
            "",
        ).with_event_field("current_link_width", FieldKind::Bytes, "");
        assert(o.field_views() =~= device_fields());
        let mut r: Vec<SourceOutput> = Vec::new();
        r.push(o);
        r
    }

    /// Whether delivery is confirmed: it is not.
    pub fn can_acknowledge(&self) -> (r: bool)
        ensures
            !r,
    {
        false
    }
}

// ---------------------------------------------------------------------------
// What the events and the devices tell
// ---------------------------------------------------------------------------
proof fn lemma_device_field_names()
    ensures
        "address"@.len() == 7,
        "source_type"@.len() == 11,
        "timestamp"@.len() == 9,
        "class"@.len() == 5,
        "device"@.len() == 6,
        "vendor"@.len() == 6,
        "device"@ != "vendor"@,
        "max_link_speed"@.len() == 14,
        "max_link_width"@.len() == 14,
        "max_link_speed"@ != "max_link_width"@,
        "current_link_speed"@.len() == 18,
        "current_link_width"@.len() == 18,
        "current_link_speed"@ != "current_link_width"@,
{
    reveal_strlit("address");
    reveal_strlit("source_type");
    reveal_strlit("timestamp");
    reveal_strlit("class");
    reveal_strlit("device");
    reveal_strlit("vendor");
    reveal_strlit("max_link_speed");
    reveal_strlit("max_link_width");
    reveal_strlit("current_link_speed");
    reveal_strlit("current_link_width");
    assert("device"@[0] == 'd' && "vendor"@[0] == 'v');
    assert("max_link_speed"@[9] == 's' && "max_link_width"@[9] == 'w');
    assert("current_link_speed"@[13] == 's' && "current_link_width"@[13] == 'w');
}

/// The field `key` holds a text of the device, the empty text where it has none.
pub open spec fn tells_text(log: LogView, key: Seq<char>, text: Option<String>) -> bool {
    &&& log.contains_key(key)
    &&& text matches Some(t) ==> log[key] == ValueView::Text(t@)
    &&& text is None ==> log[key] == ValueView::Text(Seq::empty())
}

/// The field `key` holds a number of the device: `0x` and hexadecimal digits that
/// stand for it, in lower case and without zeros before them.
pub open spec fn tells_number(log: LogView, key: Seq<char>, n: u32) -> bool {
    &&& log.contains_key(key)
    &&& log[key] matches ValueView::Text(t) && {
        &&& t.len() > 2
        &&& t[0] == '0' && t[1] == 'x'
        &&& unsigned_value(t.skip(2), 16, 0xffff_ffff) == Ok::<nat, crate::number::IntError>(
            n as nat,
        )
        &&& n > 0 ==> t[2] != '0'
        &&& n == 0 ==> t.len() == 3
        &&& forall|i: int| 2 <= i < t.len() ==> !('A' <= (#[trigger] t[i]) <= 'Z')
    }
}

proof fn lemma_lower_hex(n: nat)
    ensures
        forall|i: int|
            0 <= i < number_text(n, 16).len() ==> !('A' <= (#[trigger] number_text(n, 16)[i])
                <= 'Z'),
    decreases n,
{
    let d = n % 16;
    assert(d < 16);
    assert(!('A' <= crate::number::digit_char(d) <= 'Z')) by {
        crate::number::law_digits_are_written_in_lower_case(d);
        reveal_strlit("0123456789abcdefghijklmnopqrstuvwxyz");
    }
    if n >= 16 {
        lemma_lower_hex(n / 16);
        let t = number_text(n, 16);
        let before = number_text(n / 16, 16);
        assert(t == before.push(crate::number::digit_char(d)));
        assert forall|i: int| 0 <= i < t.len() implies !('A' <= (#[trigger] t[i]) <= 'Z') by {
            if i < before.len() {
                assert(t[i] == before[i]);
            }
        }
    }
}

proof fn lemma_prefixed_hex(log: LogView, key: Seq<char>, n: u32)
    requires
        log.contains_key(key),
        log[key] == ValueView::Text(prefixed_hex(n)),
    ensures
        tells_number(log, key, n),
{
    reveal_strlit("0x");
    let digits = number_text(n as nat, 16);
    let t = prefixed_hex(n);
    assert(t.skip(2) =~= digits);
    crate::number::law_written_number_is_read(n as nat, 16, 0xffff_ffff);
    crate::number::law_numbers_are_written_short(n as nat, 16);
    crate::number::lemma_number_digits(n as nat, 16);
    lemma_lower_hex(n as nat);
    assert forall|i: int| 2 <= i < t.len() implies !('A' <= (#[trigger] t[i]) <= 'Z') by {
        assert(t[i] == digits[i - 2]);
    }
    assert(t[2] == digits[0]);
}

/// The event of a device tells each of the device's properties under its own name,
/// unless the event was begun with a field of that name, and it has no field besides.
pub proof fn law_event_tells_each_property(base: LogView, d: PciDevice)
    ensures
        ({
            let log = device_log(base, d);
            &&& !base.contains_key("address"@) ==> log.contains_key("address"@) && log["address"@]
                == ValueView::Text(address_text(d.address))
            &&& !base.contains_key("class"@) ==> tells_number(log, "class"@, d.class)
            &&& !base.contains_key("device"@) ==> tells_number(log, "device"@, d.device)
            &&& !base.contains_key("vendor"@) ==> tells_number(log, "vendor"@, d.vendor)
            &&& !base.contains_key("max_link_speed"@) ==> tells_text(
                log,
                "max_link_speed"@,
                d.max_link_speed,
            )
            &&& !base.contains_key("max_link_width"@) ==> tells_text(
                log,
                "max_link_width"@,
                d.max_link_width,
            )
            &&& !base.contains_key("current_link_speed"@) ==> tells_text(
                log,
                "current_link_speed"@,
                d.current_link_speed,
            )
            &&& !base.contains_key("current_link_width"@) ==> tells_text(
                log,
                "current_link_width"@,
                d.current_link_width,
            )
            &&& forall|k: Seq<char>| #[trigger]
                log.contains_key(k) ==> base.contains_key(k) || k == "address"@ || k == "class"@
                    || k == "device"@ || k == "vendor"@ || k == "max_link_speed"@ || k
                    == "max_link_width"@ || k == "current_link_speed"@ || k == "current_link_width"@
        }),
{
    lemma_device_field_names();
    reveal_strlit("");
    assert(""@ =~= Seq::<char>::empty());
    let log = device_log(base, d);
    if !base.contains_key("class"@) {
        lemma_prefixed_hex(log, "class"@, d.class);
    }
    if !base.contains_key("device"@) {
        lemma_prefixed_hex(log, "device"@, d.device);
    }
    if !base.contains_key("vendor"@) {
        lemma_prefixed_hex(log, "vendor"@, d.vendor);
    }
}

/// An event that was begun for this source tells all properties of the device, and
/// besides them the source and the moment.
pub proof fn law_standard_event_tells_the_device(ts: Timestamp, d: PciDevice)
    ensures
        ({
            let log = device_log(standard_log(ts), d);
            &&& tells_number(log, "class"@, d.class)
            &&& tells_number(log, "device"@, d.device)
            &&& tells_number(log, "vendor"@, d.vendor)
            &&& tells_text(log, "max_link_speed"@, d.max_link_speed)
            &&& tells_text(log, "max_link_width"@, d.max_link_width)
            &&& tells_text(log, "current_link_speed"@, d.current_link_speed)
            &&& tells_text(log, "current_link_width"@, d.current_link_width)
            &&& log.contains_key("timestamp"@) && log["timestamp"@] == ValueView::Timestamp(ts)
            &&& log.contains_key("source_type"@) && log["source_type"@] == ValueView::Text("pci"@)
        }),
{
    lemma_device_field_names();
    law_event_tells_each_property(standard_log(ts), d);
}

/// A file holds this text, with white space around it or none.
pub open spec fn holds(file: Result<String, String>, text: Seq<char>) -> bool {
    file matches Ok(s) && exists|a: Seq<char>, b: Seq<char>|
        {
            &&& s@ == #[trigger] (a + text + b)
            &&& forall|i: int| 0 <= i < a.len() ==> crate::text::is_space(#[trigger] a[i])
            &&& forall|i: int| 0 <= i < b.len() ==> crate::text::is_space(#[trigger] b[i])
            &&& text.len() > 0 ==> !crate::text::is_space(text[0]) && !crate::text::is_space(
                text[text.len() - 1],
            )
        }
}

proof fn lemma_holds(file: Result<String, String>, text: Seq<char>)
    requires
        holds(file, text),
    ensures
        file_text(file) == Ok::<Seq<char>, PciErrorView>(text),
        file_opt(file) == Some(text),
{
    let s = file->Ok_0@;
    let (a, b) = choose|a: Seq<char>, b: Seq<char>|
        {
            &&& s == #[trigger] (a + text + b)
            &&& forall|i: int| 0 <= i < a.len() ==> crate::text::is_space(#[trigger] a[i])
            &&& forall|i: int| 0 <= i < b.len() ==> crate::text::is_space(#[trigger] b[i])
            &&& text.len() > 0 ==> !crate::text::is_space(text[0]) && !crate::text::is_space(
                text[text.len() - 1],
            )
        };
    crate::text::law_trimming_gives_back_the_text(a, text, b);
}

proof fn lemma_file_number(file: Result<String, String>, n: u32)
    requires
        holds(file, "0x"@ + number_text(n as nat, 16)),
    ensures
        file_number(file) == Ok::<nat, PciErrorView>(n as nat),
{
    reveal_strlit("0x");
    let digits = number_text(n as nat, 16);
    lemma_holds(file, "0x"@ + digits);
    crate::number::law_written_number_is_read(n as nat, 16, 0xffff_ffff);
    crate::number::lemma_number_digits(n as nat, 16);
    assert(!"0x"@.is_prefix_of(digits)) by {
        if "0x"@.is_prefix_of(digits) {
            assert(digits[1] == "0x"@[1]);
            assert(crate::number::digit_value(digits[1], 16) is Some);
        }
    }
    crate::text::law_leading_copies_are_taken_off(digits, "0x"@);
}

/// A device whose files hold its numbers behind `0x`, and what they hold of its link,
/// is read as they say, each property from the file of its name.
pub proof fn law_device_is_read_from_its_files(
    address: PciAddress,
    files: DeviceFiles,
    r: Result<PciDevice, PciError>,
    class: u32,
    device: u32,
    vendor: u32,
)
    requires
        holds(files.class, "0x"@ + number_text(class as nat, 16)),
        holds(files.device, "0x"@ + number_text(device as nat, 16)),
        holds(files.vendor, "0x"@ + number_text(vendor as nat, 16)),
        device_follows(address, files, r),
    ensures
        r matches Ok(d) && {
            &&& d.address == address
            &&& d.class == class && d.device == device && d.vendor == vendor
            &&& forall|t: Seq<char>|
                #![trigger holds(files.max_link_speed, t)]
                holds(files.max_link_speed, t) ==> (d.max_link_speed matches Some(s) && s@ == t)
            &&& forall|t: Seq<char>|
                #![trigger holds(files.max_link_width, t)]
                holds(files.max_link_width, t) ==> (d.max_link_width matches Some(s) && s@ == t)
            &&& forall|t: Seq<char>|
                #![trigger holds(files.current_link_speed, t)]
                holds(files.current_link_speed, t) ==> (d.current_link_speed matches Some(s) && s@
                    == t)
            &&& forall|t: Seq<char>|
                #![trigger holds(files.current_link_width, t)]
                holds(files.current_link_width, t) ==> (d.current_link_width matches Some(s) && s@
                    == t)
            &&& files.max_link_speed is Err ==> d.max_link_speed is None
            &&& files.max_link_width is Err ==> d.max_link_width is None
            &&& files.current_link_speed is Err ==> d.current_link_speed is None
            &&& files.current_link_width is Err ==> d.current_link_width is None
        },
{
    lemma_file_number(files.class, class);
    lemma_file_number(files.device, device);
    lemma_file_number(files.vendor, vendor);
    let d = r->Ok_0;
    assert forall|t: Seq<char>|
        #![trigger holds(files.max_link_speed, t)]
        holds(files.max_link_speed, t) implies (d.max_link_speed matches Some(s) && s@ == t) by {
        lemma_holds(files.max_link_speed, t);
    }
    assert forall|t: Seq<char>|
        #![trigger holds(files.max_link_width, t)]
        holds(files.max_link_width, t) implies (d.max_link_width matches Some(s) && s@ == t) by {
        lemma_holds(files.max_link_width, t);
    }
    assert forall|t: Seq<char>|
        #![trigger holds(files.current_link_speed, t)]
        holds(files.current_link_speed, t) implies (d.current_link_speed matches Some(s) && s@
        == t) by {
        lemma_holds(files.current_link_speed, t);
    }
    assert forall|t: Seq<char>|
        #![trigger holds(files.current_link_width, t)]
        holds(files.current_link_width, t) implies (d.current_link_width matches Some(s) && s@
        == t) by {
        lemma_holds(files.current_link_width, t);
    }
}

/// A device whose class, number or maker cannot be read is not told, and the error is
/// that of the first file that cannot be read.
pub proof fn law_unreadable_device_is_an_error(
    address: PciAddress,
    files: DeviceFiles,
    r: Result<PciDevice, PciError>,
    class: u32,
    device: u32,
)
    requires
        device_follows(address, files, r),
    ensures
        files.class is Err || files.device is Err || files.vendor is Err ==> r is Err,
        files.class matches Err(m) ==> (r matches Err(e) && e@ == PciErrorView::FileError(m@)),
        holds(files.class, "0x"@ + number_text(class as nat, 16)) ==> (files.device matches Err(m)
            ==> (r matches Err(e) && e@ == PciErrorView::FileError(m@))),
        holds(files.class, "0x"@ + number_text(class as nat, 16)) && holds(
            files.device,
            "0x"@ + number_text(device as nat, 16),
        ) ==> (files.vendor matches Err(m) ==> (r matches Err(e) && e@ == PciErrorView::FileError(
            m@,
        ))),
{
    if holds(files.class, "0x"@ + number_text(class as nat, 16)) {
        lemma_file_number(files.class, class);
    }
    if holds(files.device, "0x"@ + number_text(device as nat, 16)) {
        lemma_file_number(files.device, device);
    }
}

/// The entries of devices are the directories with a colon in their names, in the
/// order of the entries.
pub proof fn law_directories_with_a_colon_are_devices(
    before: Seq<Result<SysEntry, String>>,
    entry: Result<SysEntry, String>,
)
    ensures
        device_entries(Seq::<Result<SysEntry, String>>::empty()).len() == 0,
        (entry matches Ok(x) && x.is_dir && x.name is Some && x.name->0@.contains(':'))
            ==> device_entries(before.push(entry)) == device_entries(before).push(entry),
        !(entry matches Ok(x) && x.is_dir && x.name is Some && x.name->0@.contains(':'))
            ==> device_entries(before.push(entry)) == device_entries(before),
{
    reveal_strlit(":");
    assert(before.push(entry).drop_last() =~= before);
    assert(before.push(entry).last() == entry);
    match entry {
        Ok(x) => {
            match x.name {
                Some(n) => {
                    let colon = ":"@;
                    if n@.contains(':') {
                        let i = choose|i: int| 0 <= i < n@.len() && n@[i] == ':';
                        assert(n@.subrange(i, i + 1) =~= colon);
                        assert(crate::text::occurs_at(n@, colon, i));
                    }
                    if has_text(n@, colon) {
                        let i = choose|i: int| crate::text::occurs_at(n@, colon, i);
                        assert(n@.subrange(i, i + 1)[0] == colon[0]);
                        assert(n@[i] == ':');
                    }
                },
                None => {},
            }
        },
        Err(_) => {},
    }
}

/// The walk is without an error exactly where every entry is; else the error is that
/// of the first entry that has one.
pub proof fn law_first_error_counts(entries: Seq<Result<SysEntry, String>>, k: int)
    requires
        0 <= k < entries.len(),
    ensures
        entry_error(entries[k]) is Some && (forall|i: int|
            0 <= i < k ==> entry_error(#[trigger] entries[i]) is None) ==> first_error(entries)
            == entry_error(entries[k]),
        (forall|i: int| 0 <= i < entries.len() ==> entry_error(#[trigger] entries[i]) is None)
            ==> first_error(entries) is None,
        entries[k] matches Err(m) ==> entry_error(entries[k]) == Some(
            PciErrorView::FileError(m@),
        ),
    decreases entries.len(),
{
    let rest = entries.drop_last();
    assert(forall|i: int| 0 <= i < rest.len() ==> rest[i] == entries[i]);
    if k < rest.len() {
        law_first_error_counts(rest, k);
    }
    lemma_no_errors(rest);
}

proof fn lemma_no_errors(entries: Seq<Result<SysEntry, String>>)
    ensures
        (forall|i: int| 0 <= i < entries.len() ==> entry_error(#[trigger] entries[i]) is None)
            ==> first_error(entries) is None,
    decreases entries.len(),
{
    if entries.len() > 0 {
        let rest = entries.drop_last();
        assert(forall|i: int| 0 <= i < rest.len() ==> rest[i] == entries[i]);
        lemma_no_errors(rest);
    }
}

/// What the source promises of its events holds: the described fields are those that an
/// event tells of a device besides the standard ones, and each is a text.
pub proof fn law_events_have_the_described_fields(ts: Timestamp, d: PciDevice, j: int, k: Seq<char>)
    ensures
        0 <= j < device_fields().len() ==> {
            let f = device_fields()[j];
            &&& f.1 is Bytes
            &&& device_log(standard_log(ts), d).contains_key(f.0)
            &&& device_log(standard_log(ts), d)[f.0] is Text
        },
        device_log(standard_log(ts), d).contains_key(k) && !standard_log(ts).contains_key(k)
            ==> exists|i: int| 0 <= i < device_fields().len() && (#[trigger] device_fields()[i]).0 == k,
{
    reveal_strlit("address");
    reveal_strlit("source_type");
    reveal_strlit("timestamp");
    reveal_strlit("class");
    reveal_strlit("device");
    reveal_strlit("vendor");
    reveal_strlit("max_link_speed");
    reveal_strlit("max_link_width");
    reveal_strlit("current_link_speed");
    reveal_strlit("current_link_width");
    assert("address"@.len() == 7);
    assert("source_type"@.len() == 11 && "timestamp"@.len() == 9 && "class"@.len() == 5);
    assert("device"@.len() == 6 && "vendor"@.len() == 6 && "device"@[0] == 'd' && "vendor"@[0] == 'v');
    assert("max_link_speed"@.len() == 14 && "max_link_width"@.len() == 14);
    assert("max_link_speed"@[9] == 's' && "max_link_width"@[9] == 'w');
    assert("current_link_speed"@.len() == 18 && "current_link_width"@.len() == 18);
    assert("current_link_speed"@[13] == 's' && "current_link_width"@[13] == 'w');
    let f = device_fields();
    assert(f[0].0 == "address"@ && f[1].0 == "class"@ && f[2].0 == "device"@ && f[3].0 == "vendor"@);
    assert(f[4].0 == "max_link_speed"@ && f[5].0 == "max_link_width"@);
    assert(f[6].0 == "current_link_speed"@ && f[7].0 == "current_link_width"@);
}

} // verus!
