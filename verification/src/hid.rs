//! HID interfaces of a device on the host port: found in its configuration descriptor, probed,
//! and their input reports watched.

use crate::auth::HID_GET_REPORT;
use crate::bytes::{le16, same, u16_from_le};
use crate::descriptor::{
    law_endpoint_fields, law_split_is_by_length, lengths_ok, parse_configuration, parse_endpoint,
    parses, raw, split, sub_descriptors, Endpoint, ENDPOINT, ENDPOINT_LEN, INTERFACE, INTERFACE_LEN,
};
use crate::device::HID_SET_IDLE;
use crate::pace::counted;
use crate::packet::Packet;
use crate::report_desc::{ReportKind, ReportSize};
use crate::setup::{
    class_interface_in, class_interface_out, get_hid_report_descriptor, setup_bytes,
    CLASS_INTERFACE_IN, CLASS_INTERFACE_OUT, GET_DESCRIPTOR, STANDARD_INTERFACE_IN,
};
use vstd::prelude::*;

verus! {

/// HID interfaces tracked per device (the G Pro has 3).
pub const MAX_HID_INTERFACES: usize = 4;

pub const CLASS_HID: u8 = 0x03;

pub const DESC_TYPE_HID: u8 = 0x21;

pub const DESC_TYPE_REPORT: u8 = 0x22;

/// A HID interface, as its configuration descriptor lists it.
#[derive(Clone, Copy, PartialEq, Eq, Structural)]
pub struct HidInterface {
    pub number: u8,
    pub report_desc_len: u16,
    /// Its first interrupt IN endpoint.
    pub in_ep: Option<Endpoint>,
    /// Its first interrupt OUT endpoint.
    pub out_ep: Option<Endpoint>,
}

// ---- finding the interfaces ----

/// HID interfaces found so far, and the one whose sub-descriptors are being visited.
pub struct Found {
    pub ifaces: Seq<HidInterface>,
    pub current: Option<int>,
}

pub open spec fn nothing_found() -> Found {
    Found { ifaces: Seq::empty(), current: None }
}

/// Report descriptor length in a HID descriptor `d`: that of the first report descriptor among
/// its entries `k` to `n`.
pub open spec fn listed_report_len(d: Seq<u8>, k: int, n: int) -> Option<u16>
    decreases n - k,
{
    if k >= n {
        None
    } else if d[6 + 3 * k] == DESC_TYPE_REPORT {
        Some(le16(d[7 + 3 * k], d[8 + 3 * k]))
    } else {
        listed_report_len(d, k + 1, n)
    }
}

/// Entries of a HID descriptor: as many as it says (bNumDescriptors), as far as they are there.
pub open spec fn entries(d: Seq<u8>) -> int {
    let there = (d.len() - 6) / 3;
    if d[5] < there {
        d[5] as int
    } else {
        there
    }
}

impl Found {
    /// An interface: tracked if it is HID, in its first setting, and there is room.
    pub open spec fn interface(self, d: Seq<u8>) -> Found {
        if d[5] == CLASS_HID && d[3] == 0 && self.ifaces.len() < MAX_HID_INTERFACES {
            Found {
                ifaces: self.ifaces.push(
                    HidInterface {
                        number: d[2],
                        report_desc_len: 0,
                        in_ep: None,
                        out_ep: None,
                    },
                ),
                current: Some(self.ifaces.len() as int),
            }
        } else {
            Found { current: None, ..self }
        }
    }

    /// An endpoint: kept if it is the interface's first interrupt endpoint in its direction.
    pub open spec fn endpoint(self, e: Endpoint) -> Found {
        match self.current {
            Some(i) => {
                let iface = self.ifaces[i];
                if !e.spec_is_interrupt() {
                    self
                } else if e.spec_is_in() && iface.in_ep is None {
                    Found {
                        ifaces: self.ifaces.update(i, HidInterface { in_ep: Some(e), ..iface }),
                        ..self
                    }
                } else if !e.spec_is_in() && iface.out_ep is None {
                    Found {
                        ifaces: self.ifaces.update(i, HidInterface { out_ep: Some(e), ..iface }),
                        ..self
                    }
                } else {
                    self
                }
            },
            None => self,
        }
    }

    /// Any other descriptor: a HID descriptor gives the report descriptor's length.
    pub open spec fn other(self, d: Seq<u8>) -> Found {
        match self.current {
            Some(i) => if d[1] == DESC_TYPE_HID && d.len() >= 6 {
                match listed_report_len(d, 0, entries(d)) {
                    Some(n) => Found {
                        ifaces: self.ifaces.update(
                            i,
                            HidInterface { report_desc_len: n, ..self.ifaces[i] },
                        ),
                        ..self
                    },
                    None => self,
                }
            } else {
                self
            },
            None => self,
        }
    }

    /// After one descriptor; `None`: an interface or endpoint descriptor cut short, which ends
    /// the walk.
    pub open spec fn step(self, d: Seq<u8>) -> Option<Found> {
        if d.len() < 2 {
            Some(self)
        } else if d[1] == INTERFACE {
            if d.len() < INTERFACE_LEN {
                None
            } else {
                Some(self.interface(d))
            }
        } else if d[1] == ENDPOINT {
            if d.len() < ENDPOINT_LEN {
                None
            } else {
                Some(self.endpoint(Endpoint::of(d)))
            }
        } else {
            Some(self.other(d))
        }
    }

    /// After the descriptors `ds`, in order.
    pub open spec fn walk(self, ds: Seq<Seq<u8>>) -> Found
        decreases ds.len(),
    {
        if ds.len() == 0 {
            self
        } else {
            match self.step(ds[0]) {
                Some(next) => next.walk(ds.drop_first()),
                None => self,
            }
        }
    }

    pub open spec fn valid(self) -> bool {
        &&& self.ifaces.len() <= MAX_HID_INTERFACES
        &&& self.current matches Some(i) ==> 0 <= i < self.ifaces.len()
        &&& forall|i: int|
            #![trigger self.ifaces[i]]
            0 <= i < self.ifaces.len() ==> {
                &&& self.ifaces[i].in_ep matches Some(e) ==> e.spec_is_interrupt() && e.spec_is_in()
                &&& self.ifaces[i].out_ep matches Some(e) ==> e.spec_is_interrupt()
                    && !e.spec_is_in()
            }
    }
}

/// The HID interfaces of a configuration descriptor, in order.
pub open spec fn hid_interfaces(config: Seq<u8>) -> Seq<HidInterface> {
    if parses(config) {
        nothing_found().walk(split(sub_descriptors(config))).ifaces
    } else {
        Seq::empty()
    }
}

struct Finder {
    ifaces: Vec<HidInterface>,
    current: Option<usize>,
}

impl View for Finder {
    type V = Found;

    closed spec fn view(&self) -> Found {
        Found {
            ifaces: self.ifaces@,
            current: match self.current {
                Some(i) => Some(i as int),
                None => None,
            },
        }
    }
}

fn find_report_len(d: &[u8]) -> (r: Option<u16>)
    requires
        d@.len() >= 6,
    ensures
        r == listed_report_len(d@, 0, entries(d@)),
{
    let there: usize = (d.len() - 6) / 3;
    let n: usize = if (d[5] as usize) < there {
        d[5] as usize
    } else {
        there
    };
    let mut k: usize = 0;
    while k < n
        invariant
            k <= n,
            n == entries(d@),
            n <= (d.len() - 6) / 3,
            d@.len() >= 6,
            listed_report_len(d@, 0, entries(d@)) == listed_report_len(d@, k as int, n as int),
        decreases n - k,
    {
        if d[6 + 3 * k] == DESC_TYPE_REPORT {
            return Some(u16_from_le(d[7 + 3 * k], d[8 + 3 * k]));
        }
        k += 1;
    }
    None
}

impl Finder {
    fn on_interface(&mut self, d: &[u8])
        requires
            old(self)@.valid(),
            d@.len() >= INTERFACE_LEN,
        ensures
            final(self)@.valid(),
            final(self)@ == old(self)@.interface(d@),
    {
        self.current = None;
        if d[5] == CLASS_HID && d[3] == 0 && self.ifaces.len() < MAX_HID_INTERFACES {
            self.current = Some(self.ifaces.len());
            self.ifaces.push(
                HidInterface { number: d[2], report_desc_len: 0, in_ep: None, out_ep: None },
            );
        }
    }

    fn on_endpoint(&mut self, e: Endpoint)
        requires
            old(self)@.valid(),
        ensures
            final(self)@.valid(),
            final(self)@ == old(self)@.endpoint(e),
    {
        if let Some(i) = self.current {
            if e.is_interrupt() {
                let mut iface = self.ifaces[i];
                if e.is_in() {
                    if iface.in_ep.is_none() {
                        iface.in_ep = Some(e);
                        self.ifaces[i] = iface;
                    }
                } else if iface.out_ep.is_none() {
                    iface.out_ep = Some(e);
                    self.ifaces[i] = iface;
                }
            }
        }
    }

    fn on_other(&mut self, d: &[u8])
        requires
            old(self)@.valid(),
            d@.len() >= 2,
        ensures
            final(self)@.valid(),
            final(self)@ == old(self)@.other(d@),
    {
        if let Some(i) = self.current {
            if d[1] == DESC_TYPE_HID && d.len() >= 6 {
                if let Some(n) = find_report_len(d) {
                    let mut iface = self.ifaces[i];
                    iface.report_desc_len = n;
                    self.ifaces[i] = iface;
                }
            }
        }
    }

    /// Visit one descriptor, as long as its first byte says. Returns false where the walk ends.
    fn visit(&mut self, d: &[u8]) -> (more: bool)
        requires
            old(self)@.valid(),
            d@.len() > 0,
            d@[0] == d@.len(),
        ensures
            final(self)@.valid(),
            match old(self)@.step(d@) {
                Some(next) => more && final(self)@ == next,
                None => !more && final(self)@ == old(self)@,
            },
    {
        if d.len() < 2 {
            return true;
        }
        if d[1] == INTERFACE {
            if d.len() < INTERFACE_LEN {
                return false;
            }
            self.on_interface(d);
        } else if d[1] == ENDPOINT {
            match parse_endpoint(d) {
                Some(e) => self.on_endpoint(e),
                None => {
                    return false;
                },
            }
        } else {
            self.on_other(d);
        }
        true
    }
}

/// Collect the HID interfaces (alternate setting 0) of a configuration descriptor, whose lengths
/// must lie within it ([`crate::descriptor::config_ok`]).
pub fn find_interfaces(config: &[u8]) -> (r: [Option<HidInterface>; MAX_HID_INTERFACES])
    requires
        lengths_ok(config@),
    ensures
        hid_interfaces(config@).len() <= MAX_HID_INTERFACES,
        forall|i: int|
            0 <= i < MAX_HID_INTERFACES ==> #[trigger] r@[i] == (if i < hid_interfaces(
                config@,
            ).len() {
                Some(hid_interfaces(config@)[i])
            } else {
                None
            }),
{
    let mut finder = Finder { ifaces: Vec::new(), current: None };
    assert(finder@ == nothing_found());
    if let Some(cfg) = parse_configuration(config) {
        let ghost ds = raw(cfg.descriptors@);
        let mut k: usize = 0;
        let mut more: bool = true;
        proof {
            law_split_is_by_length(sub_descriptors(config@));
            assert(ds.skip(0) =~= ds);
        }
        while more && k < cfg.descriptors.len()
            invariant
                k <= ds.len(),
                ds == raw(cfg.descriptors@),
                forall|i: int|
                    0 <= i < ds.len() ==> (#[trigger] ds[i]).len() > 0 && ds[i][0] == ds[i].len(),
                finder@.valid(),
                nothing_found().walk(ds) == (if more {
                    finder@.walk(ds.skip(k as int))
                } else {
                    finder@
                }),
            decreases ds.len() - k,
        {
            let d: &Vec<u8> = &cfg.descriptors[k];
            assert(ds[k as int] == d@);
            assert(ds.skip(k as int)[0] == d@);
            assert(ds.skip(k as int).drop_first() =~= ds.skip(k + 1));
            more = finder.visit(d);
            k += 1;
        }
        if more {
            assert(ds.skip(k as int).len() == 0);
        }
    }
    assert(finder@.ifaces == hid_interfaces(config@));
    let mut r: [Option<HidInterface>; MAX_HID_INTERFACES] = [None;MAX_HID_INTERFACES];
    let mut i: usize = 0;
    while i < finder.ifaces.len()
        invariant
            i <= finder.ifaces@.len(),
            finder.ifaces@.len() <= MAX_HID_INTERFACES,
            forall|k: int| 0 <= k < i ==> r@[k] == Some(finder.ifaces@[k]),
            forall|k: int| i <= k < MAX_HID_INTERFACES ==> r@[k] is None,
        decreases finder.ifaces@.len() - i,
    {
        r[i] = Some(finder.ifaces[i]);
        i += 1;
    }
    r
}

/// An interface that is found has interrupt endpoints only, each in its direction; of the
/// interfaces of a device at most [`MAX_HID_INTERFACES`] are tracked.
pub proof fn law_found_endpoints_fit(found: Found, ds: Seq<Seq<u8>>)
    requires
        found.valid(),
    ensures
        found.walk(ds).valid(),
    decreases ds.len(),
{
    if ds.len() > 0 {
        if let Some(next) = found.step(ds[0]) {
            law_found_endpoints_fit(next, ds.drop_first());
        }
    }
}

// ---- probing ----

/// Largest report descriptor fetched; longer ones are truncated.
pub const REPORT_DESC_BUF_LEN: u16 = 512;

/// Largest feature report read (with its ID byte); longer ones are truncated.
pub const FEATURE_BUF_LEN: u16 = 256;

/// Usage page of the PlayStation authentication reports (F0 to F3). Not read: a GET_REPORT there
/// can change the device's auth state.
pub const USAGE_PAGE_PS_AUTH: u16 = 0xfff0;

/// SETUP of GET_DESCRIPTOR(report) for an interface, and the length it asks for.
pub fn report_desc_request(iface: &HidInterface) -> (r: ([u8; 8], u16))
    ensures
        r.1 == (if iface.report_desc_len < REPORT_DESC_BUF_LEN {
            iface.report_desc_len
        } else {
            REPORT_DESC_BUF_LEN
        }),
        r.0@ == setup_bytes(
            STANDARD_INTERFACE_IN,
            GET_DESCRIPTOR,
            0x2200,
            iface.number as u16,
            r.1,
        ),
{
    let len: u16 = if iface.report_desc_len < REPORT_DESC_BUF_LEN {
        iface.report_desc_len
    } else {
        REPORT_DESC_BUF_LEN
    };
    (get_hid_report_descriptor(iface.number, len), len)
}

/// SETUP of SET_IDLE(duration 0, all reports) for an interface: report only on change. HID 1.11
/// 7.2.4 makes this optional, so a device may refuse it.
pub fn set_idle(iface: u16) -> (setup: [u8; 8])
    ensures
        setup@ == setup_bytes(CLASS_INTERFACE_OUT, HID_SET_IDLE, 0, iface, 0),
{
    class_interface_out(HID_SET_IDLE, 0, iface, 0)
}

/// A feature report to read from a device.
pub struct FeatureRead {
    pub id: u8,
    /// Bytes asked for, the ID byte included.
    pub len: u16,
    pub setup: [u8; 8],
}

/// A feature report is read where it has a report ID and is none of the auth reports.
pub open spec fn readable(r: ReportSize) -> bool {
    r.kind == ReportKind::Feature && r.id != 0 && r.usage_page != USAGE_PAGE_PS_AUTH
}

/// The reports that are read, in order.
pub open spec fn readable_reports(reports: Seq<ReportSize>) -> Seq<ReportSize>
    decreases reports.len(),
{
    if reports.len() == 0 {
        Seq::empty()
    } else {
        let before = readable_reports(reports.drop_last());
        if readable(reports.last()) {
            before.push(reports.last())
        } else {
            before
        }
    }
}

/// Bytes asked for: the report and its ID byte, as far as the buffer goes.
pub open spec fn feature_len(r: ReportSize) -> u16 {
    if r.spec_len() + 1 < FEATURE_BUF_LEN {
        (r.spec_len() + 1) as u16
    } else {
        FEATURE_BUF_LEN
    }
}

/// The feature reports of interface `iface` to read, with their GET_REPORT(Feature) SETUPs.
pub fn feature_reads(iface: u8, reports: &[ReportSize]) -> (r: Vec<FeatureRead>)
    ensures
        r@.len() == readable_reports(reports@).len(),
        forall|i: int|
            0 <= i < r@.len() ==> {
                let report = readable_reports(reports@)[i];
                &&& (#[trigger] r@[i]).id == report.id
                &&& r@[i].len == feature_len(report)
                &&& r@[i].setup@ == setup_bytes(
                    CLASS_INTERFACE_IN,
                    HID_GET_REPORT,
                    (0x300 + report.id) as u16,
                    iface as u16,
                    feature_len(report),
                )
            },
{
    let mut r: Vec<FeatureRead> = Vec::new();
    let mut k: usize = 0;
    while k < reports.len()
        invariant
            k <= reports.len(),
            r@.len() == readable_reports(reports@.take(k as int)).len(),
            forall|i: int|
                0 <= i < r@.len() ==> {
                    let report = readable_reports(reports@.take(k as int))[i];
                    &&& (#[trigger] r@[i]).id == report.id
                    &&& r@[i].len == feature_len(report)
                    &&& r@[i].setup@ == setup_bytes(
                        CLASS_INTERFACE_IN,
                        HID_GET_REPORT,
                        (0x300 + report.id) as u16,
                        iface as u16,
                        feature_len(report),
                    )
                },
        decreases reports.len() - k,
    {
        let report = reports[k];
        assert(reports@.take(k + 1).drop_last() =~= reports@.take(k as int));
        if report.kind == ReportKind::Feature && report.id != 0 && report.usage_page
            != USAGE_PAGE_PS_AUTH {
            let bytes: u32 = report.len();
            let len: u16 = if bytes < FEATURE_BUF_LEN as u32 - 1 {
                bytes as u16 + 1
            } else {
                FEATURE_BUF_LEN
            };
            r.push(
                FeatureRead {
                    id: report.id,
                    len,
                    setup: class_interface_in(
                        HID_GET_REPORT,
                        0x300 + report.id as u16,
                        iface as u16,
                        len,
                    ),
                },
            );
        }
        k += 1;
    }
    assert(reports@.take(k as int) =~= reports@);
    r
}

/// The auth reports are never read, and every other feature report with an ID is.
pub proof fn law_auth_reports_never_read(reports: Seq<ReportSize>)
    ensures
        forall|i: int|
            0 <= i < readable_reports(reports).len() ==> (#[trigger] readable_reports(
                reports,
            )[i]).usage_page != USAGE_PAGE_PS_AUTH,
        forall|k: int|
            0 <= k < reports.len() && readable(#[trigger] reports[k]) ==> readable_reports(
                reports,
            ).contains(reports[k]),
    decreases reports.len(),
{
    if reports.len() > 0 {
        let before = readable_reports(reports.drop_last());
        let all = readable_reports(reports);
        law_auth_reports_never_read(reports.drop_last());
        assert forall|k: int|
            0 <= k < reports.len() && readable(#[trigger] reports[k]) implies all.contains(
            reports[k],
        ) by {
            if k < reports.len() - 1 {
                assert(reports.drop_last()[k] == reports[k]);
                let j = choose|j: int| 0 <= j < before.len() && before[j] == reports[k];
                assert(all[j] == reports[k]);
            } else {
                assert(all[all.len() - 1] == reports[k]);
            }
        }
    }
}

// ---- watching input reports ----

/// Full-speed interrupt endpoints carry at most 64 bytes per transaction.
pub const MAX_REPORT_LEN: usize = 64;

/// Minimum spacing between logged reports per interface, in microseconds. Changed reports inside
/// the window are coalesced and only the latest is logged.
pub const REPORT_LOG_INTERVAL: u64 = 100_000;

/// Report-rate statistics period, in microseconds.
pub const STATS_INTERVAL: u64 = 5_000_000;

/// Whether, and where, an interface's input reports are watched.
#[derive(Clone, Copy, PartialEq, Eq, Structural)]
pub enum Watch {
    /// Not an interface with an IN endpoint.
    Nothing,
    /// Its packets are longer than a full-speed interrupt endpoint's.
    Unsupported(u16),
    At(Endpoint),
}

pub fn watch(iface: Option<HidInterface>) -> (w: Watch)
    ensures
        w == (match iface {
            Some(i) => match i.in_ep {
                Some(e) => if e.max_packet_size > MAX_REPORT_LEN {
                    Watch::Unsupported(e.max_packet_size)
                } else {
                    Watch::At(e)
                },
                None => Watch::Nothing,
            },
            None => Watch::Nothing,
        }),
{
    match iface {
        Some(i) => match i.in_ep {
            Some(e) => if e.max_packet_size as usize > MAX_REPORT_LEN {
                Watch::Unsupported(e.max_packet_size)
            } else {
                Watch::At(e)
            },
            None => Watch::Nothing,
        },
        None => Watch::Nothing,
    }
}

/// What is known of an interface's input reports.
pub struct Monitor {
    /// The latest report.
    pub last: Packet,
    /// It has changed since the last one logged.
    pub unlogged: bool,
    pub last_logged: u64,
    /// Reports in the current statistics period.
    pub reports: u32,
    pub stats_start: u64,
}

/// The values that [`Monitor`] holds.
pub struct Watched {
    pub last: Seq<u8>,
    pub unlogged: bool,
    pub last_logged: u64,
    pub reports: u32,
    pub stats_start: u64,
}

impl View for Monitor {
    type V = Watched;

    open spec fn view(&self) -> Watched {
        Watched {
            last: self.last@,
            unlogged: self.unlogged,
            last_logged: self.last_logged,
            reports: self.reports,
            stats_start: self.stats_start,
        }
    }
}

impl Watched {
    pub open spec fn after_report(self, data: Seq<u8>) -> Watched {
        Watched {
            reports: counted(self.reports),
            last: data,
            unlogged: self.unlogged || data != self.last,
            ..self
        }
    }

    /// The latest report is logged at `now`.
    pub open spec fn log_due(self, now: u64) -> bool {
        self.unlogged && now - self.last_logged >= REPORT_LOG_INTERVAL
    }

    pub open spec fn stats_due(self, now: u64) -> bool {
        now - self.stats_start >= STATS_INTERVAL
    }

    pub open spec fn after_poll(self, now: u64) -> Watched {
        let logged = if self.log_due(now) {
            Watched { unlogged: false, last_logged: now, ..self }
        } else {
            self
        };
        if self.stats_due(now) {
            Watched { reports: 0, stats_start: now, ..logged }
        } else {
            logged
        }
    }

    /// The clock has not gone back.
    pub open spec fn clock_ok(self, now: u64) -> bool {
        self.last_logged <= now && self.stats_start <= now
    }
}

/// What to log of an interface's input reports.
#[derive(Clone, Copy, PartialEq, Eq, Structural)]
pub struct Note {
    /// The latest report.
    pub report: bool,
    /// The number of reports in the statistics period that just ended, unless it was none.
    pub stats: Option<u32>,
}

impl Monitor {
    pub fn new(now: u64) -> (m: Self)
        ensures
            m@ == (Watched {
                last: Seq::empty(),
                unlogged: false,
                last_logged: 0,
                reports: 0,
                stats_start: now,
            }),
    {
        let m = Monitor {
            last: Packet::new(&[]),
            unlogged: false,
            last_logged: 0,
            reports: 0,
            stats_start: now,
        };
        assert(m@.last =~= Seq::<u8>::empty());
        m
    }

    /// An input report came.
    pub fn on_report(&mut self, data: &[u8])
        requires
            data@.len() <= MAX_REPORT_LEN,
        ensures
            final(self)@ == old(self)@.after_report(data@),
    {
        self.reports = self.reports.wrapping_add(1);
        if !same(data, self.last.bytes()) {
            self.last = Packet::new(data);
            self.unlogged = true;
            assert(self.last@ =~= data@);
        }
    }

    /// After every report, and at the latest every [`REPORT_LOG_INTERVAL`].
    pub fn poll(&mut self, now: u64) -> (note: Note)
        requires
            old(self)@.clock_ok(now),
        ensures
            note.report == old(self)@.log_due(now),
            note.stats == (if old(self)@.stats_due(now) && old(self)@.reports > 0 {
                Some(old(self)@.reports)
            } else {
                None
            }),
            final(self)@ == old(self)@.after_poll(now),
    {
        let report: bool = self.unlogged && now - self.last_logged >= REPORT_LOG_INTERVAL;
        if report {
            self.unlogged = false;
            self.last_logged = now;
        }
        let mut stats: Option<u32> = None;
        if now - self.stats_start >= STATS_INTERVAL {
            if self.reports > 0 {
                stats = Some(self.reports);
            }
            self.reports = 0;
            self.stats_start = now;
        }
        Note { report, stats }
    }
}

/// Changed reports are coalesced, not lost: a change stays pending until it is logged, the latest
/// report is the one logged, and two log lines are at least [`REPORT_LOG_INTERVAL`] apart.
pub proof fn law_changes_are_logged_latest(w: Watched, data: Seq<u8>, now: u64, later: u64)
    requires
        w.clock_ok(now),
        now <= later,
    ensures
        data != w.last ==> w.after_report(data).unlogged,
        w.after_report(data).last == data,
        w.unlogged ==> w.after_report(data).unlogged,
        w.unlogged && now - w.last_logged >= REPORT_LOG_INTERVAL ==> w.log_due(now),
        w.log_due(now) ==> !w.after_poll(now).unlogged,
        !w.log_due(now) ==> w.after_poll(now).unlogged == w.unlogged,
        w.log_due(now) && w.after_poll(now).after_report(data).log_due(later) ==> later - now
            >= REPORT_LOG_INTERVAL,
{
}

// ---- laws of what is found and read ----

/// An interface descriptor (type 4) of nine bytes or more opens a HID interface exactly where its
/// class is 3, its alternate setting 0, and fewer than four are found: with its number, and nothing
/// known of it yet. Any other one closes the interface before it, and no interface found before is
/// changed.
pub proof fn law_interface_descriptor(found: Found, d: Seq<u8>)
    requires
        d.len() >= 9,
        d[1] == 4,
    ensures
        ({
            let hid = d[5] == 3 && d[3] == 0 && found.ifaces.len() < 4;
            &&& hid ==> found.step(d) == Some(
                Found {
                    ifaces: found.ifaces.push(
                        HidInterface { number: d[2], report_desc_len: 0, in_ep: None, out_ep: None },
                    ),
                    current: Some(found.ifaces.len() as int),
                },
            )
            &&& !hid ==> found.step(d) == Some(Found { ifaces: found.ifaces, current: None })
        }),
{
}

/// An endpoint descriptor (type 5) of seven bytes or more belongs to the open HID interface where
/// it is an interrupt endpoint (low two bits of byte 3), as its IN or OUT endpoint (bit 7 of byte
/// 2), unless that has one already; it is kept with its address, attributes, packet size and
/// interval. Otherwise it changes nothing.
pub proof fn law_endpoint_descriptor(found: Found, d: Seq<u8>, i: int)
    requires
        d.len() >= 7,
        d[1] == 5,
        0 <= i < found.ifaces.len(),
        found.current matches Some(c) ==> 0 <= c < found.ifaces.len(),
    ensures
        ({
            let e = Endpoint {
                address: d[2],
                attributes: d[3],
                max_packet_size: (d[4] + 256 * d[5]) as u16,
                interval: d[6],
            };
            let iface = found.ifaces[i];
            let interrupt = d[3] & 0x03 == 3;
            let input = d[2] & 0x80 != 0;
            &&& found.step(d) matches Some(next)
            &&& next.current == found.current
            &&& next.ifaces.len() == found.ifaces.len()
            &&& found.current == Some(i) && interrupt && input && iface.in_ep is None
                ==> next.ifaces[i] == (HidInterface { in_ep: Some(e), ..iface })
            &&& found.current == Some(i) && interrupt && !input && iface.out_ep is None
                ==> next.ifaces[i] == (HidInterface { out_ep: Some(e), ..iface })
            &&& found.current != Some(i) || !interrupt || (input && iface.in_ep is Some) || (!input
                && iface.out_ep is Some) ==> next.ifaces[i] == iface
        }),
{
    law_endpoint_fields(d);
}

/// A HID descriptor (type 0x21) of six bytes or more gives the open interface the length of its
/// report descriptor: that (little-endian) of the first of its listed descriptors, three bytes
/// each, that is of type 0x22. Descriptors of other types give nothing.
pub proof fn law_hid_descriptor_gives_length(found: Found, d: Seq<u8>, i: int, k: int)
    requires
        d.len() >= 6,
        d[1] != 4,
        d[1] != 5,
        0 <= i < found.ifaces.len(),
        found.current matches Some(c) ==> 0 <= c < found.ifaces.len(),
    ensures
        ({
            &&& found.step(d) matches Some(next)
            &&& next.current == found.current
            &&& next.ifaces.len() == found.ifaces.len()
            &&& found.current != Some(i) || d[1] != 0x21 ==> next.ifaces[i] == found.ifaces[i]
            &&& found.current == Some(i) && d[1] == 0x21 && 0 <= k < d[5] && 9 + 3 * k <= d.len()
                && d[6 + 3 * k] == 0x22 && (forall|j: int| 0 <= j < k ==> #[trigger] d[6 + 3 * j]
                != 0x22) ==> next.ifaces[i] == (HidInterface {
                report_desc_len: (d[7 + 3 * k] + 256 * d[8 + 3 * k]) as u16,
                ..found.ifaces[i]
            })
            &&& found.current == Some(i) && d[1] == 0x21 && (forall|j: int|
                0 <= j < d[5] && 9 + 3 * j <= d.len() ==> #[trigger] d[6 + 3 * j] != 0x22)
                ==> next.ifaces[i] == found.ifaces[i]
        }),
{
    let n = entries(d);
    if d[1] == 0x21 && 0 <= k < d[5] && 9 + 3 * k <= d.len() && d[6 + 3 * k] == 0x22 && (forall|
        j: int,
    |
        0 <= j < k ==> #[trigger] d[6 + 3 * j] != 0x22) {
        lemma_first_listed(d, 0, k, n);
    }
    if d[1] == 0x21 && (forall|j: int|
        0 <= j < d[5] && 9 + 3 * j <= d.len() ==> #[trigger] d[6 + 3 * j] != 0x22) {
        lemma_none_listed(d, 0, n);
    }
}

proof fn lemma_first_listed(d: Seq<u8>, from: int, k: int, n: int)
    requires
        0 <= from <= k < n,
        d[6 + 3 * k] == 0x22,
        forall|j: int| from <= j < k ==> #[trigger] d[6 + 3 * j] != 0x22,
    ensures
        listed_report_len(d, from, n) == Some(le16(d[7 + 3 * k], d[8 + 3 * k])),
    decreases k - from,
{
    if from < k {
        assert(d[6 + 3 * from] != 0x22);
        lemma_first_listed(d, from + 1, k, n);
    }
}

proof fn lemma_none_listed(d: Seq<u8>, from: int, n: int)
    requires
        0 <= from,
        forall|j: int| from <= j < n ==> #[trigger] d[6 + 3 * j] != 0x22,
    ensures
        listed_report_len(d, from, n) is None,
    decreases n - from,
{
    if from < n {
        assert(d[6 + 3 * from] != 0x22);
        lemma_none_listed(d, from + 1, n);
    }
}

/// The descriptors are taken one after the other: what is found after one more of them is what it
/// makes of what was found before it, and one cut short ends the search with what there was.
pub proof fn law_search_goes_on(found: Found, d: Seq<u8>, rest: Seq<Seq<u8>>)
    ensures
        found.walk(Seq::empty()) == found,
        found.step(d) matches Some(next) ==> found.walk(seq![d] + rest) == next.walk(rest),
        found.step(d) is None ==> found.walk(seq![d] + rest) == found,
        found.step(d) is None <==> d.len() >= 2 && ((d[1] == 4 && d.len() < 9) || (d[1] == 5
            && d.len() < 7)),
        d.len() < 2 ==> found.step(d) == Some(found),
{
    assert((seq![d] + rest).drop_first() =~= rest);
}

/// A HID interface is found whole: of the descriptors of an interface, its HID descriptor with one
/// report descriptor listed, and its interrupt IN and OUT endpoints come its number, that length
/// and those endpoints, behind the interfaces found before.
pub proof fn law_interface_found_whole(
    found: Found,
    i: Seq<u8>,
    h: Seq<u8>,
    e: Seq<u8>,
    o: Seq<u8>,
)
    requires
        found.ifaces.len() < 4,
        i.len() == 9,
        i[1] == 4,
        i[3] == 0,
        i[5] == 3,
        h.len() == 9,
        h[1] == 0x21,
        h[5] == 1,
        h[6] == 0x22,
        e.len() == 7,
        e[1] == 5,
        e[2] >= 0x80,
        e[3] == 3,
        o.len() == 7,
        o[1] == 5,
        o[2] < 0x80,
        o[3] == 3,
    ensures
        found.walk(seq![i, h, e, o]).ifaces == found.ifaces.push(
            HidInterface {
                number: i[2],
                report_desc_len: (h[7] + 256 * h[8]) as u16,
                in_ep: Some(
                    Endpoint {
                        address: e[2],
                        attributes: 3,
                        max_packet_size: (e[4] + 256 * e[5]) as u16,
                        interval: e[6],
                    },
                ),
                out_ep: Some(
                    Endpoint {
                        address: o[2],
                        attributes: 3,
                        max_packet_size: (o[4] + 256 * o[5]) as u16,
                        interval: o[6],
                    },
                ),
            },
        ),
{
    reveal_with_fuel(Found::walk, 5);
    reveal_with_fuel(listed_report_len, 2);
    let all = seq![i, h, e, o];
    assert(all.drop_first() =~= seq![h, e, o]);
    assert(seq![h, e, o].drop_first() =~= seq![e, o]);
    assert(seq![e, o].drop_first() =~= seq![o]);
    assert(seq![o].drop_first() =~= Seq::<Seq<u8>>::empty());
    let last = found.walk(all).ifaces;
    assert(last.drop_last() =~= found.ifaces);
}

/// A configuration gives what its descriptors give, at most four interfaces; anything else gives
/// none.
pub proof fn law_interfaces_of_configuration(config: Seq<u8>)
    ensures
        config.len() >= 9 && config[1] == 2 ==> hid_interfaces(config) == nothing_found().walk(
            split(config.subrange(config[0] as int, config[2] + 256 * config[3])),
        ).ifaces,
        config.len() < 9 || config[1] != 2 ==> hid_interfaces(config).len() == 0,
        hid_interfaces(config).len() <= 4,
        nothing_found().ifaces.len() == 0,
        nothing_found().current is None,
{
    law_found_endpoints_fit(nothing_found(), split(sub_descriptors(config)));
}

/// Of the reports of a device exactly those are read that are feature reports, have an ID, and are
/// not on the auth usage page (0xfff0); each is asked for with its ID byte, in whole bytes, up to
/// 256.
pub proof fn law_what_is_read(reports: Seq<ReportSize>, r: ReportSize)
    ensures
        readable_reports(reports).contains(r) <==> reports.contains(r) && r.kind
            == ReportKind::Feature && r.id != 0 && r.usage_page != 0xfff0,
        r.bits <= 8 * 255 ==> 8 * (feature_len(r) - 2) < r.bits <= 8 * (feature_len(r) - 1)
            || r.bits == 0 && feature_len(r) == 1,
        r.bits > 8 * 255 ==> feature_len(r) == 256,
    decreases reports.len(),
{
    if reports.len() > 0 {
        let before = reports.drop_last();
        law_what_is_read(before, r);
        let all = readable_reports(reports);
        let kept = readable_reports(before);
        if reports.contains(r) {
            let k = choose|k: int| 0 <= k < reports.len() && reports[k] == r;
            if k < reports.len() - 1 {
                assert(before[k] == r);
            }
        }
        if before.contains(r) {
            let k = choose|k: int| 0 <= k < before.len() && before[k] == r;
            assert(reports[k] == r);
        }
        if kept.contains(r) {
            let k = choose|k: int| 0 <= k < kept.len() && kept[k] == r;
            assert(all[k] == r);
        }
        if all.contains(r) {
            let k = choose|k: int| 0 <= k < all.len() && all[k] == r;
            if k < kept.len() {
                assert(kept[k] == r);
            } else {
                assert(reports[reports.len() - 1] == r);
            }
        }
        if readable(reports.last()) {
            assert(all[all.len() - 1] == reports.last());
        }
    }
}

/// The reports are read in the order in which the device lists them: what comes first is listed
/// first, and one more at the end is read last or not at all.
pub proof fn law_read_in_order(reports: Seq<ReportSize>, r: ReportSize)
    ensures
        readable_reports(Seq::empty()).len() == 0,
        r.kind == ReportKind::Feature && r.id != 0 && r.usage_page != 0xfff0 ==> readable_reports(
            reports.push(r),
        ) == readable_reports(reports).push(r),
        r.kind != ReportKind::Feature || r.id == 0 || r.usage_page == 0xfff0 ==> readable_reports(
            reports.push(r),
        ) == readable_reports(reports),
{
    assert(reports.push(r).drop_last() =~= reports);
}

/// What is known of an interface's reports: the latest report is kept, every report counted, and a
/// change noted until it is logged. It is logged 100 ms after the last log line at the earliest;
/// every 5 s the count starts over.
pub proof fn law_reports_watched(w: Watched, m: Monitor, data: Seq<u8>, now: u64)
    requires
        w.last_logged <= now,
        w.stats_start <= now,
    ensures
        m@ == (Watched {
            last: m.last@,
            unlogged: m.unlogged,
            last_logged: m.last_logged,
            reports: m.reports,
            stats_start: m.stats_start,
        }),
        w.after_report(data) == (Watched {
            last: data,
            unlogged: w.unlogged || data != w.last,
            reports: counted(w.reports),
            ..w
        }),
        w.log_due(now) <==> w.unlogged && now - w.last_logged >= 100_000,
        w.stats_due(now) <==> now - w.stats_start >= 5_000_000,
        ({
            let after = w.after_poll(now);
            &&& after.last == w.last
            &&& w.log_due(now) ==> !after.unlogged && after.last_logged == now
            &&& !w.log_due(now) ==> after.unlogged == w.unlogged && after.last_logged
                == w.last_logged
            &&& w.stats_due(now) ==> after.reports == 0 && after.stats_start == now
            &&& !w.stats_due(now) ==> after.reports == w.reports && after.stats_start
                == w.stats_start
        }),
{
}

} // verus!
