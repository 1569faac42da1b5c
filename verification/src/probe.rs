//! Probing of a device's HID interfaces: each interface's report descriptor and feature reports
//! are read, then it is set to report on change only.

use crate::auth::HID_GET_REPORT;
use crate::device::HID_SET_IDLE;
use crate::hid::{
    feature_len, feature_reads, law_auth_reports_never_read, readable_reports, report_desc_request,
    set_idle, FeatureRead, HidInterface, MAX_HID_INTERFACES, REPORT_DESC_BUF_LEN,
    USAGE_PAGE_PS_AUTH,
};
use crate::report_desc::{parse, report_summary, tally, ReportSize};
use crate::setup::{
    setup_bytes, CLASS_INTERFACE_IN, CLASS_INTERFACE_OUT, GET_DESCRIPTOR, STANDARD_INTERFACE_IN,
};
use vstd::prelude::*;

verus! {

/// What the probe is waiting for.
#[derive(Clone, Copy, PartialEq, Eq, Structural)]
pub enum Stage {
    /// The reply to GET_DESCRIPTOR(report).
    Descriptor,
    /// The reply to GET_REPORT for the `k`th feature report read.
    Feature { k: usize },
    /// The end of SET_IDLE.
    Idle,
    /// Nothing: every interface has been probed.
    Done,
}

/// The next control transfer.
#[derive(Clone, Copy)]
pub enum Transfer {
    /// Device to host, of `len` bytes.
    In { setup: [u8; 8], len: u16 },
    /// Host to device, without data.
    Out { setup: [u8; 8] },
    Done,
}

/// A [`Transfer`], by its bytes.
pub enum Wire {
    In { setup: Seq<u8>, len: u16 },
    Out { setup: Seq<u8> },
    Done,
}

impl View for Transfer {
    type V = Wire;

    open spec fn view(&self) -> Wire {
        match self {
            Transfer::In { setup, len } => Wire::In { setup: setup@, len: *len },
            Transfer::Out { setup } => Wire::Out { setup: setup@ },
            Transfer::Done => Wire::Done,
        }
    }
}

/// Progress through the interfaces of a device.
pub struct Probe {
    pub ifaces: Vec<HidInterface>,
    /// The interface being probed.
    pub at: usize,
    pub stage: Stage,
    pub reads: Vec<FeatureRead>,
    /// The feature reports of [`Self::reads`].
    pub features: Ghost<Seq<ReportSize>>,
}

/// The values that [`Probe`] holds.
pub struct Probing {
    pub ifaces: Seq<HidInterface>,
    pub at: int,
    pub stage: Stage,
    pub features: Seq<ReportSize>,
}

impl View for Probe {
    type V = Probing;

    open spec fn view(&self) -> Probing {
        Probing {
            ifaces: self.ifaces@,
            at: self.at as int,
            stage: self.stage,
            features: self.features@,
        }
    }
}

/// GET_REPORT(Feature) for report `r` of interface `iface`.
pub open spec fn feature_wire(iface: u8, r: ReportSize) -> Wire {
    Wire::In {
        setup: setup_bytes(
            CLASS_INTERFACE_IN,
            HID_GET_REPORT,
            (0x300 + r.id) as u16,
            iface as u16,
            feature_len(r),
        ),
        len: feature_len(r),
    }
}

/// SET_IDLE(0) for interface `iface`.
pub open spec fn idle_wire(iface: u8) -> Wire {
    Wire::Out { setup: setup_bytes(CLASS_INTERFACE_OUT, HID_SET_IDLE, 0, iface as u16, 0) }
}

/// GET_DESCRIPTOR(report) for an interface.
pub open spec fn descriptor_wire(iface: HidInterface) -> Wire {
    let len = if iface.report_desc_len < REPORT_DESC_BUF_LEN {
        iface.report_desc_len
    } else {
        REPORT_DESC_BUF_LEN
    };
    Wire::In {
        setup: setup_bytes(
            STANDARD_INTERFACE_IN,
            GET_DESCRIPTOR,
            0x2200,
            iface.number as u16,
            len,
        ),
        len,
    }
}

impl Probing {
    pub open spec fn valid(self) -> bool {
        &&& self.stage is Done || 0 <= self.at < self.ifaces.len()
        &&& self.stage matches Stage::Feature { k } ==> k < self.features.len()
    }

    /// Go on with interface `at`.
    pub open spec fn start(self, at: int) -> (Probing, Wire) {
        if at < self.ifaces.len() {
            (
                Probing { at, stage: Stage::Descriptor, ..self },
                descriptor_wire(self.ifaces[at]),
            )
        } else {
            (Probing { at, stage: Stage::Done, ..self }, Wire::Done)
        }
    }

    /// Read feature report `k`, or finish the interface after the last.
    pub open spec fn feature(self, k: int) -> (Probing, Wire) {
        let iface = self.ifaces[self.at].number;
        if k < self.features.len() {
            (
                Probing { stage: Stage::Feature { k: k as usize }, ..self },
                feature_wire(iface, self.features[k]),
            )
        } else {
            (Probing { stage: Stage::Idle, ..self }, idle_wire(iface))
        }
    }

    /// After the transfer under way; `reply` is what came of a device-to-host one (`None`: it
    /// failed).
    pub open spec fn after(self, reply: Option<Seq<u8>>) -> (Probing, Wire) {
        match self.stage {
            Stage::Descriptor => Probing {
                features: match reply {
                    Some(desc) => readable_reports(tally(parse(desc).mains)),
                    None => Seq::empty(),
                },
                ..self
            }.feature(0),
            Stage::Feature { k } => self.feature(k + 1),
            Stage::Idle => self.start(self.at + 1),
            Stage::Done => (self, Wire::Done),
        }
    }
}

impl Probe {
    pub open spec fn wf(self) -> bool {
        &&& self@.valid()
        &&& self.ifaces@.len() <= MAX_HID_INTERFACES
        &&& self.stage is Feature ==> {
            &&& self.reads@.len() == self.features@.len()
            &&& forall|i: int|
                0 <= i < self.reads@.len() ==> {
                    &&& (#[trigger] self.reads@[i]).len == feature_len(self.features@[i])
                    &&& self.reads@[i].setup@ == setup_bytes(
                        CLASS_INTERFACE_IN,
                        HID_GET_REPORT,
                        (0x300 + self.features@[i].id) as u16,
                        self.ifaces@[self.at as int].number as u16,
                        feature_len(self.features@[i]),
                    )
                }
        }
    }

    /// Probe `ifaces`, in order.
    pub fn new(ifaces: &[Option<HidInterface>; MAX_HID_INTERFACES]) -> (r: (Self, Transfer))
        ensures
            r.0.wf(),
            (r.0@, r.1@) == (Probing {
                ifaces: present(ifaces@),
                at: 0,
                stage: Stage::Done,
                features: Seq::empty(),
            }).start(0),
    {
        let mut list: Vec<HidInterface> = Vec::new();
        let mut i: usize = 0;
        while i < MAX_HID_INTERFACES
            invariant
                i <= MAX_HID_INTERFACES,
                list@ == present(ifaces@.take(i as int)),
                list@.len() <= i,
            decreases MAX_HID_INTERFACES - i,
        {
            assert(ifaces@.take(i + 1).drop_last() =~= ifaces@.take(i as int));
            if let Some(iface) = ifaces[i] {
                list.push(iface);
            }
            i += 1;
        }
        assert(ifaces@.take(i as int) =~= ifaces@);
        let mut p = Probe {
            ifaces: list,
            at: 0,
            stage: Stage::Done,
            reads: Vec::new(),
            features: Ghost(Seq::empty()),
        };
        let t = p.start(0);
        (p, t)
    }

    fn start(&mut self, at: usize) -> (t: Transfer)
        requires
            old(self).ifaces@.len() <= MAX_HID_INTERFACES,
        ensures
            final(self).wf(),
            (final(self)@, t@) == old(self)@.start(at as int),
    {
        self.at = at;
        if at < self.ifaces.len() {
            self.stage = Stage::Descriptor;
            let (setup, len): ([u8; 8], u16) = report_desc_request(&self.ifaces[at]);
            Transfer::In { setup, len }
        } else {
            self.stage = Stage::Done;
            Transfer::Done
        }
    }

    fn idle(&mut self) -> (t: Transfer)
        requires
            old(self).ifaces@.len() <= MAX_HID_INTERFACES,
            old(self).at < old(self).ifaces@.len(),
        ensures
            final(self).wf(),
            final(self)@ == (Probing { stage: Stage::Idle, ..old(self)@ }),
            t@ == idle_wire(old(self)@.ifaces[old(self)@.at].number),
    {
        self.stage = Stage::Idle;
        Transfer::Out { setup: set_idle(self.ifaces[self.at].number as u16) }
    }

    /// The transfer under way is over; `reply` is what came of a device-to-host one (`None`: it
    /// failed). Whatever failed, the probe goes on with what comes after.
    pub fn next(&mut self, reply: Option<&[u8]>) -> (t: Transfer)
        requires
            old(self).wf(),
        ensures
            final(self).wf(),
            (final(self)@, t@) == old(self)@.after(
                match reply {
                    Some(bytes) => Some(bytes@),
                    None => None,
                },
            ),
    {
        match self.stage {
            Stage::Descriptor => {
                match reply {
                    Some(desc) => {
                        let summary = report_summary(desc);
                        self.reads = feature_reads(self.ifaces[self.at].number, &summary.reports);
                        self.features = Ghost(readable_reports(summary.reports@));
                    },
                    None => {
                        self.reads = Vec::new();
                        self.features = Ghost(Seq::empty());
                    },
                }
                if self.reads.len() == 0 {
                    self.idle()
                } else {
                    self.stage = Stage::Feature { k: 0 };
                    Transfer::In { setup: self.reads[0].setup, len: self.reads[0].len }
                }
            },
            Stage::Feature { k } => {
                assert(k < self.reads.len());
                if k + 1 < self.reads.len() {
                    self.stage = Stage::Feature { k: k + 1 };
                    Transfer::In { setup: self.reads[k + 1].setup, len: self.reads[k + 1].len }
                } else {
                    self.idle()
                }
            },
            Stage::Idle => self.start(self.at + 1),
            Stage::Done => Transfer::Done,
        }
    }
}

/// The interfaces that are there, in order.
pub open spec fn present(ifaces: Seq<Option<HidInterface>>) -> Seq<HidInterface>
    decreases ifaces.len(),
{
    if ifaces.len() == 0 {
        Seq::empty()
    } else {
        let before = present(ifaces.drop_last());
        match ifaces.last() {
            Some(iface) => before.push(iface),
            None => before,
        }
    }
}

/// The state after the transfers with these replies.
pub open spec fn run(p: Probing, replies: Seq<Option<Seq<u8>>>) -> Probing
    decreases replies.len(),
{
    if replies.len() == 0 {
        p
    } else {
        run(p, replies.drop_last()).after(replies.last()).0
    }
}

/// A failed transfer does not end the probe: an interface whose report descriptor cannot be read
/// is still set to report on change, and once it is, the next one's turn comes.
pub proof fn law_probe_survives_failures(p: Probing)
    requires
        p.valid(),
        p.stage is Descriptor,
    ensures
        p.after(None).1 == idle_wire(p.ifaces[p.at].number),
        run(p, seq![None, None]) == (Probing { features: Seq::empty(), ..p }).start(p.at + 1).0,
{
    reveal_with_fuel(run, 3);
    let replies = seq![None::<Seq<u8>>, None];
    assert(replies.drop_last() =~= seq![None]);
    assert(seq![None::<Seq<u8>>].drop_last() =~= Seq::empty());
}

/// No report on the auth usage page is ever asked for.
pub proof fn law_probe_leaves_auth_alone(p: Probing, reply: Option<Seq<u8>>)
    requires
        p.valid(),
        p.stage is Descriptor,
    ensures
        forall|k: int|
            0 <= k < p.after(reply).0.features.len() ==> (#[trigger] p.after(
                reply,
            ).0.features[k]).usage_page != USAGE_PAGE_PS_AUTH,
{
    if let Some(desc) = reply {
        law_auth_reports_never_read(tally(parse(desc).mains));
    }
}

/// A transfer is told by all that it does, and the probe's progress by what it holds.
pub proof fn law_transfers_are_their_bytes(t: Transfer, p: Probe)
    ensures
        t matches Transfer::In { setup, len } ==> t@ == (Wire::In { setup: setup@, len }),
        t matches Transfer::Out { setup } ==> t@ == (Wire::Out { setup: setup@ }),
        t is Done ==> t@ is Done,
        p@.ifaces == p.ifaces@,
        p@.at == p.at,
        p@.stage == p.stage,
        p@.features == p.features@,
{
}

/// The probe's requests, byte by byte: GET_DESCRIPTOR for the report descriptor of an interface
/// (`81 06 00 22 <interface>`) for its whole length up to 512 bytes, GET_REPORT for a feature report
/// (`a1 01 <id> 03 <interface>`), SET_IDLE (`21 0a 00 00 <interface>`) without data.
pub proof fn law_probe_requests(iface: HidInterface, r: ReportSize)
    ensures
        descriptor_wire(iface) matches Wire::In { setup, len } && {
            &&& setup.len() == 8
            &&& setup[0] == 0x81 && setup[1] == 0x06 && setup[2] == 0x00 && setup[3] == 0x22
            &&& setup[4] == iface.number && setup[5] == 0
            &&& setup[6] + 256 * setup[7] == len
            &&& iface.report_desc_len <= 512 ==> len == iface.report_desc_len
            &&& iface.report_desc_len > 512 ==> len == 512
        },
        feature_wire(iface.number, r) matches Wire::In { setup, len } && {
            &&& setup.len() == 8
            &&& setup[0] == 0xa1 && setup[1] == 0x01 && setup[2] == r.id && setup[3] == 0x03
            &&& setup[4] == iface.number && setup[5] == 0
            &&& setup[6] + 256 * setup[7] == len
            &&& len == feature_len(r)
        },
        idle_wire(iface.number) matches Wire::Out { setup } && {
            &&& setup.len() == 8
            &&& setup[0] == 0x21 && setup[1] == 0x0a && setup[2] == 0 && setup[3] == 0
            &&& setup[4] == iface.number && setup[5] == 0
            &&& setup[6] == 0 && setup[7] == 0
        },
{
}

/// The order of a probe: of each interface the report descriptor, then each of its feature reports
/// that is to be read, then SET_IDLE, and then the next interface's turn; after the last it is done.
pub proof fn law_probe_order(p: Probing, reply: Option<Seq<u8>>, k: usize)
    requires
        0 <= p.at < p.ifaces.len(),
        k < usize::MAX,
    ensures
        p.stage is Descriptor ==> {
            let read = match reply {
                Some(desc) => readable_reports(tally(parse(desc).mains)),
                None => Seq::empty(),
            };
            let next = p.after(reply);
            &&& next.0.features == read
            &&& next.0.at == p.at
            &&& next.0.ifaces == p.ifaces
            &&& read.len() > 0 ==> next.0.stage == (Stage::Feature { k: 0 }) && next.1
                == feature_wire(p.ifaces[p.at].number, read[0])
            &&& read.len() == 0 ==> next.0.stage is Idle && next.1 == idle_wire(
                p.ifaces[p.at].number,
            )
        },
        p.stage == (Stage::Feature { k }) && k + 1 < p.features.len() ==> p.after(reply) == (
            Probing { stage: Stage::Feature { k: (k + 1) as usize }, ..p },
            feature_wire(p.ifaces[p.at].number, p.features[k + 1]),
        ),
        p.stage == (Stage::Feature { k }) && k + 1 >= p.features.len() ==> p.after(reply) == (
            Probing { stage: Stage::Idle, ..p },
            idle_wire(p.ifaces[p.at].number),
        ),
        p.stage is Idle && p.at + 1 < p.ifaces.len() ==> p.after(reply) == (
            Probing { at: p.at + 1, stage: Stage::Descriptor, ..p },
            descriptor_wire(p.ifaces[p.at + 1]),
        ),
        p.stage is Idle && p.at + 1 >= p.ifaces.len() ==> {
            &&& p.after(reply).0.stage is Done
            &&& p.after(reply).1 is Done
        },
{
}

/// The interfaces that are there are probed, each of them, in order.
pub proof fn law_present_in_order(ifaces: Seq<Option<HidInterface>>, iface: HidInterface)
    ensures
        present(Seq::empty()).len() == 0,
        present(ifaces.push(Some(iface))) == present(ifaces).push(iface),
        present(ifaces.push(None)) == present(ifaces),
{
    assert(ifaces.push(Some(iface)).drop_last() =~= ifaces);
    assert(ifaces.push(None).drop_last() =~= ifaces);
}

} // verus!
