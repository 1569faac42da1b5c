//! HID report descriptors: the (report ID, type) pairs a descriptor declares and their sizes
//! (HID 1.11, section 6.2.2).

use crate::bytes::{law_bytes_weigh_by_place, le_value};
use vstd::prelude::*;

verus! {

/// (report ID, type) pairs tracked per report descriptor.
pub const MAX_REPORTS: usize = 24;

/// Depth of the Push/Pop stack.
pub const STACK_DEPTH: usize = 4;

/// Prefix of a long item.
pub const LONG_ITEM: u8 = 0xfe;

#[derive(Clone, Copy, PartialEq, Eq, Structural)]
pub enum ReportKind {
    Input,
    Output,
    Feature,
}

impl ReportKind {
    pub open spec fn spec_name(self) -> Seq<char> {
        match self {
            ReportKind::Input => "input"@,
            ReportKind::Output => "output"@,
            ReportKind::Feature => "feature"@,
        }
    }

    pub fn name(self) -> (r: &'static str)
        ensures
            r@ == self.spec_name(),
    {
        match self {
            ReportKind::Input => "input",
            ReportKind::Output => "output",
            ReportKind::Feature => "feature",
        }
    }
}

/// Size of one report.
#[derive(Clone, Copy, PartialEq, Eq, Structural)]
pub struct ReportSize {
    pub id: u8,
    pub kind: ReportKind,
    pub bits: u32,
    /// Usage page in effect at the report's first main item.
    pub usage_page: u16,
}

impl ReportSize {
    /// Bytes of the report, without its ID byte.
    pub open spec fn spec_len(self) -> nat {
        ((self.bits + 7) / 8) as nat
    }

    /// Bytes of the report, without its ID byte: the bits rounded up to whole bytes.
    pub fn len(&self) -> (n: u32)
        ensures
            n == self.spec_len(),
    {
        self.bits / 8 + if self.bits % 8 == 0 {
            0
        } else {
            1
        }
    }
}

/// The global items in effect.
#[derive(Clone, Copy, PartialEq, Eq, Structural)]
pub struct Globals {
    pub usage_page: u16,
    pub report_size: u32,
    pub report_count: u32,
    pub report_id: u8,
}

pub open spec fn no_globals() -> Globals {
    Globals { usage_page: 0, report_size: 0, report_count: 0, report_id: 0 }
}

/// One Input, Output or Feature item, with the global items in effect at it.
pub struct MainItem {
    pub id: u8,
    pub kind: ReportKind,
    pub bits: u32,
    pub usage_page: u16,
}

/// What has been read of a descriptor.
pub struct Parsed {
    pub globals: Globals,
    pub stack: Seq<Globals>,
    /// First Usage since the last main item.
    pub usage: Option<u32>,
    /// Input, Output and Feature items, in order.
    pub mains: Seq<MainItem>,
    /// Usage page and usage of each application collection, in order.
    pub collections: Seq<(u16, u32)>,
    /// Where an item runs past the end of the descriptor.
    pub truncated_at: Option<int>,
}

pub open spec fn nothing_parsed() -> Parsed {
    Parsed {
        globals: no_globals(),
        stack: Seq::empty(),
        usage: None,
        mains: Seq::empty(),
        collections: Seq::empty(),
        truncated_at: None,
    }
}

/// Number of data bytes that a short item's prefix announces.
pub open spec fn data_size(prefix: u8) -> int {
    if prefix % 4 == 3 {
        4
    } else {
        (prefix % 4) as int
    }
}

/// Length of the long item at `i`: prefix, size, tag and data. Without a size byte, no data.
pub open spec fn long_item_len(desc: Seq<u8>, i: int) -> int {
    3 + if i + 1 < desc.len() {
        desc[i + 1] as int
    } else {
        0
    }
}

/// Item type: 0 main, 1 global, 2 local.
pub open spec fn item_type(prefix: u8) -> u8 {
    ((prefix / 4) % 4) as u8
}

pub open spec fn item_tag(prefix: u8) -> u8 {
    (prefix / 16) as u8
}

/// The report type of a main item's tag.
pub open spec fn main_kind(tag: u8) -> Option<ReportKind> {
    if tag == 0x8 {
        Some(ReportKind::Input)
    } else if tag == 0x9 {
        Some(ReportKind::Output)
    } else if tag == 0xb {
        Some(ReportKind::Feature)
    } else {
        None
    }
}

/// Size in bits of one main item: report size times report count, in 32 bits.
pub open spec fn main_bits(g: Globals) -> u32 {
    ((g.report_size * g.report_count) % 0x1_0000_0000) as u32
}

impl Parsed {
    /// After a main item. A Collection item of type 1 is an application collection.
    pub open spec fn main_item(self, tag: u8, data: u32) -> Parsed {
        Parsed {
            usage: None,
            mains: match main_kind(tag) {
                Some(kind) => self.mains.push(
                    MainItem {
                        id: self.globals.report_id,
                        kind,
                        bits: main_bits(self.globals),
                        usage_page: self.globals.usage_page,
                    },
                ),
                None => self.mains,
            },
            collections: if tag == 0xa && data == 1 {
                self.collections.push(
                    (
                        self.globals.usage_page,
                        match self.usage {
                            Some(u) => u,
                            None => 0,
                        },
                    ),
                )
            } else {
                self.collections
            },
            ..self
        }
    }

    /// After a global item.
    pub open spec fn global_item(self, tag: u8, data: u32) -> Parsed {
        let g = self.globals;
        if tag == 0x0 {
            Parsed { globals: Globals { usage_page: (data % 0x1_0000) as u16, ..g }, ..self }
        } else if tag == 0x7 {
            Parsed { globals: Globals { report_size: data, ..g }, ..self }
        } else if tag == 0x8 {
            Parsed { globals: Globals { report_id: (data % 0x100) as u8, ..g }, ..self }
        } else if tag == 0x9 {
            Parsed { globals: Globals { report_count: data, ..g }, ..self }
        } else if tag == 0xa && self.stack.len() < STACK_DEPTH {
            Parsed { stack: self.stack.push(g), ..self }
        } else if tag == 0xb && self.stack.len() > 0 {
            Parsed { globals: self.stack.last(), stack: self.stack.drop_last(), ..self }
        } else {
            self
        }
    }

    /// After a short item.
    pub open spec fn item(self, prefix: u8, data: u32) -> Parsed {
        let tag = item_tag(prefix);
        if item_type(prefix) == 0 {
            self.main_item(tag, data)
        } else if item_type(prefix) == 1 {
            self.global_item(tag, data)
        } else if item_type(prefix) == 2 && tag == 0 {
            Parsed {
                usage: match self.usage {
                    Some(u) => Some(u),
                    None => Some(data),
                },
                ..self
            }
        } else {
            self
        }
    }
}

/// Reading `desc` from `i` on, after `before`.
pub open spec fn parse_from(desc: Seq<u8>, i: int, before: Parsed) -> Parsed
    decreases
            if i < desc.len() {
                desc.len() - i
            } else {
                0
            },
{
    if i < 0 || i >= desc.len() {
        before
    } else if desc[i] == LONG_ITEM {
        parse_from(desc, i + long_item_len(desc, i), before)
    } else if i + 1 + data_size(desc[i]) > desc.len() {
        Parsed { truncated_at: Some(i), ..before }
    } else {
        let end = i + 1 + data_size(desc[i]);
        parse_from(
            desc,
            end,
            before.item(desc[i], le_value(desc.subrange(i + 1, end)) as u32),
        )
    }
}

pub open spec fn parse(desc: Seq<u8>) -> Parsed {
    parse_from(desc, 0, nothing_parsed())
}

// ---- the table of reports ----

/// Row of `table` with the given report ID and type, if there is one.
pub open spec fn row_of(table: Seq<ReportSize>, id: u8, kind: ReportKind) -> Option<int>
    decreases table.len(),
{
    if table.len() == 0 {
        None
    } else {
        match row_of(table.drop_last(), id, kind) {
            Some(i) => Some(i),
            None => if table.last().id == id && table.last().kind == kind {
                Some(table.len() - 1)
            } else {
                None
            },
        }
    }
}

/// `table` with one more main item: its bits go to its report's row, in 32 bits; a report seen
/// for the first time gets a new row while there is room.
pub open spec fn add_item(table: Seq<ReportSize>, m: MainItem) -> Seq<ReportSize> {
    match row_of(table, m.id, m.kind) {
        Some(i) => table.update(
            i,
            ReportSize {
                bits: ((table[i].bits + m.bits) % 0x1_0000_0000) as u32,
                ..table[i]
            },
        ),
        None => if table.len() < MAX_REPORTS {
            table.push(
                ReportSize { id: m.id, kind: m.kind, bits: m.bits, usage_page: m.usage_page },
            )
        } else {
            table
        },
    }
}

/// The table of reports for a sequence of main items.
pub open spec fn tally(mains: Seq<MainItem>) -> Seq<ReportSize>
    decreases mains.len(),
{
    if mains.len() == 0 {
        Seq::empty()
    } else {
        add_item(tally(mains.drop_last()), mains.last())
    }
}

/// Whether some main item found its report neither in the table nor room for it there.
pub open spec fn overflowed(mains: Seq<MainItem>) -> bool
    decreases mains.len(),
{
    if mains.len() == 0 {
        false
    } else {
        let table = tally(mains.drop_last());
        overflowed(mains.drop_last()) || (row_of(table, mains.last().id, mains.last().kind) is None
            && table.len() >= MAX_REPORTS)
    }
}

/// Bits of all main items of one report.
pub open spec fn total_bits(mains: Seq<MainItem>, id: u8, kind: ReportKind) -> nat
    decreases mains.len(),
{
    if mains.len() == 0 {
        0
    } else {
        total_bits(mains.drop_last(), id, kind) + if mains.last().id == id && mains.last().kind
            == kind {
            mains.last().bits as nat
        } else {
            0
        }
    }
}

proof fn lemma_row_of(table: Seq<ReportSize>, id: u8, kind: ReportKind)
    ensures
        match row_of(table, id, kind) {
            Some(i) => 0 <= i < table.len() && table[i].id == id && table[i].kind == kind
                && forall|j: int| 0 <= j < i ==> !(table[j].id == id && table[j].kind == kind),
            None => forall|j: int|
                0 <= j < table.len() ==> !(table[j].id == id && table[j].kind == kind),
        },
    decreases table.len(),
{
    if table.len() > 0 {
        lemma_row_of(table.drop_last(), id, kind);
        assert(forall|j: int|
            0 <= j < table.len() - 1 ==> table.drop_last()[j] == #[trigger] table[j]);
    }
}

/// No two rows of the table are for the same report, and it has at most `MAX_REPORTS` rows.
pub proof fn law_rows_distinct(mains: Seq<MainItem>)
    ensures
        tally(mains).len() <= MAX_REPORTS,
        forall|i: int, j: int|
            0 <= i < j < tally(mains).len() ==> !(tally(mains)[i].id == tally(mains)[j].id
                && tally(mains)[i].kind == tally(mains)[j].kind),
    decreases mains.len(),
{
    if mains.len() > 0 {
        law_rows_distinct(mains.drop_last());
        lemma_row_of(tally(mains.drop_last()), mains.last().id, mains.last().kind);
    }
}

/// Main item `k` is the first of `row`'s report, and gave the row its usage page.
pub open spec fn is_first_of(mains: Seq<MainItem>, k: int, row: ReportSize) -> bool {
    &&& 0 <= k < mains.len()
    &&& mains[k].id == row.id
    &&& mains[k].kind == row.kind
    &&& mains[k].usage_page == row.usage_page
    &&& forall|j: int| 0 <= j < k ==> !(mains[j].id == row.id && mains[j].kind == row.kind)
}

/// Some main item is the first of `row`'s report and gave the row its usage page.
pub open spec fn has_first(mains: Seq<MainItem>, row: ReportSize) -> bool {
    exists|k: int| is_first_of(mains, k, row)
}

/// Unless there were more than `MAX_REPORTS` reports, every main item's report is in the table;
/// a table that is not full has not overflowed.
pub proof fn law_all_reports_listed(mains: Seq<MainItem>)
    ensures
        tally(mains).len() < MAX_REPORTS ==> !overflowed(mains),
        !overflowed(mains) ==> forall|k: int|
            0 <= k < mains.len() ==> row_of(
                tally(mains),
                (#[trigger] mains[k]).id,
                mains[k].kind,
            ) is Some,
    decreases mains.len(),
{
    if mains.len() > 0 {
        let before = mains.drop_last();
        let m = mains.last();
        law_all_reports_listed(before);
        lemma_row_of(tally(before), m.id, m.kind);
        if !overflowed(mains) {
            assert forall|k: int| 0 <= k < mains.len() implies row_of(
                tally(mains),
                (#[trigger] mains[k]).id,
                mains[k].kind,
            ) is Some by {
                lemma_row_of(tally(mains), mains[k].id, mains[k].kind);
                if k < mains.len() - 1 {
                    assert(before[k] == mains[k]);
                    lemma_row_of(tally(before), mains[k].id, mains[k].kind);
                    let i = row_of(tally(before), mains[k].id, mains[k].kind)->0;
                    assert(tally(mains)[i].id == mains[k].id && tally(mains)[i].kind
                        == mains[k].kind);
                } else {
                    match row_of(tally(before), m.id, m.kind) {
                        Some(i) => {
                            assert(tally(mains)[i].id == m.id && tally(mains)[i].kind == m.kind);
                        },
                        None => {
                            let i = tally(before).len() as int;
                            assert(tally(mains)[i].id == m.id && tally(mains)[i].kind == m.kind);
                        },
                    }
                }
            }
        }
    }
}

proof fn lemma_absent_report_has_no_bits(mains: Seq<MainItem>, id: u8, kind: ReportKind)
    requires
        forall|k: int|
            0 <= k < mains.len() ==> !((#[trigger] mains[k]).id == id && mains[k].kind == kind),
    ensures
        total_bits(mains, id, kind) == 0,
    decreases mains.len(),
{
    if mains.len() > 0 {
        let before = mains.drop_last();
        assert(forall|k: int| 0 <= k < before.len() ==> before[k] == mains[k]);
        lemma_absent_report_has_no_bits(before, id, kind);
        assert(mains[mains.len() - 1] == mains.last());
    }
}

/// A report that gets a new row for the last main item has none before.
proof fn lemma_new_row_is_first(mains: Seq<MainItem>)
    requires
        mains.len() > 0,
        tally(mains).len() > tally(mains.drop_last()).len(),
    ensures
        forall|k: int|
            0 <= k < mains.len() - 1 ==> !((#[trigger] mains[k]).id == mains.last().id
                && mains[k].kind == mains.last().kind),
{
    let before = mains.drop_last();
    let m = mains.last();
    law_all_reports_listed(before);
    lemma_row_of(tally(before), m.id, m.kind);
    assert forall|k: int| 0 <= k < mains.len() - 1 implies !((#[trigger] mains[k]).id == m.id
        && mains[k].kind == m.kind) by {
        assert(before[k] == mains[k]);
        assert(row_of(tally(before), before[k].id, before[k].kind) is Some);
    }
}

proof fn lemma_row_total(mains: Seq<MainItem>, i: int)
    requires
        0 <= i < tally(mains).len(),
    ensures
        tally(mains)[i].bits == total_bits(mains, tally(mains)[i].id, tally(mains)[i].kind)
            % 0x1_0000_0000,
    decreases mains.len(),
{
    if mains.len() > 0 {
        let before = mains.drop_last();
        let m = mains.last();
        lemma_row_of(tally(before), m.id, m.kind);
        if i < tally(before).len() {
            lemma_row_total(before, i);
            law_rows_distinct(before);
        } else {
            lemma_new_row_is_first(mains);
            assert forall|k: int| 0 <= k < before.len() implies !((#[trigger] before[k]).id == m.id
                && before[k].kind == m.kind) by {
                assert(before[k] == mains[k]);
            }
            lemma_absent_report_has_no_bits(before, m.id, m.kind);
        }
    }
}

proof fn lemma_row_first(mains: Seq<MainItem>, i: int)
    requires
        0 <= i < tally(mains).len(),
    ensures
        has_first(mains, tally(mains)[i]),
    decreases mains.len(),
{
    if mains.len() > 0 {
        let before = mains.drop_last();
        let m = mains.last();
        lemma_row_of(tally(before), m.id, m.kind);
        if i < tally(before).len() {
            lemma_row_first(before, i);
            let k = choose|k: int| is_first_of(before, k, tally(before)[i]);
            assert(forall|j: int| 0 <= j < before.len() ==> before[j] == #[trigger] mains[j]);
            assert(is_first_of(mains, k, tally(mains)[i]));
        } else {
            lemma_new_row_is_first(mains);
            assert(is_first_of(mains, mains.len() - 1, tally(mains)[i]));
        }
    }
}

/// Each row of the table holds the sum, in 32 bits, of its report's main items, and the usage
/// page of the first of them.
pub proof fn law_rows_hold_totals(mains: Seq<MainItem>)
    ensures
        forall|i: int|
            0 <= i < tally(mains).len() ==> (#[trigger] tally(mains)[i]).bits == total_bits(
                mains,
                tally(mains)[i].id,
                tally(mains)[i].kind,
            ) % 0x1_0000_0000,
        forall|i: int|
            0 <= i < tally(mains).len() ==> has_first(mains, #[trigger] tally(mains)[i]),
{
    assert forall|i: int| 0 <= i < tally(mains).len() implies (#[trigger] tally(mains)[i]).bits
        == total_bits(mains, tally(mains)[i].id, tally(mains)[i].kind) % 0x1_0000_0000 by {
        lemma_row_total(mains, i);
    }
    assert forall|i: int| 0 <= i < tally(mains).len() implies has_first(
        mains,
        #[trigger] tally(mains)[i],
    ) by {
        lemma_row_first(mains, i);
    }
}

// ---- reading a descriptor ----

/// What a report descriptor declares.
pub struct ReportSummary {
    /// Size of every (report ID, type) pair, in order of appearance.
    pub reports: Vec<ReportSize>,
    /// Usage page and usage of each application collection.
    pub collections: Vec<(u16, u32)>,
    /// Offset of an item that runs past the end of the descriptor; nothing is read after it.
    pub truncated_at: Option<usize>,
    /// Whether there were more reports than `MAX_REPORTS`, the rest left out.
    pub incomplete: bool,
}

fn find_row(table: &Vec<ReportSize>, id: u8, kind: ReportKind) -> (r: Option<usize>)
    ensures
        match (r, row_of(table@, id, kind)) {
            (Some(i), Some(j)) => i == j,
            (None, None) => true,
            _ => false,
        },
{
    proof {
        lemma_row_of(table@, id, kind);
    }
    let mut i: usize = 0;
    while i < table.len()
        invariant
            i <= table@.len(),
            forall|j: int| 0 <= j < i ==> !(table@[j].id == id && table@[j].kind == kind),
        decreases table@.len() - i,
    {
        if table[i].id == id && table[i].kind == kind {
            proof {
                lemma_row_of(table@, id, kind);
            }
            return Some(i);
        }
        i += 1;
    }
    None
}

/// Enter one main item into the table; false if there is no room for its report.
fn enter(table: &mut Vec<ReportSize>, m: MainItem) -> (ok: bool)
    ensures
        final(table)@ == add_item(old(table)@, m),
        ok == !(row_of(old(table)@, m.id, m.kind) is None && old(table)@.len() >= MAX_REPORTS),
{
    match find_row(table, m.id, m.kind) {
        Some(i) => {
            proof {
                lemma_row_of(table@, m.id, m.kind);
            }
            let row: ReportSize = table[i];
            table[i] = ReportSize { bits: row.bits.wrapping_add(m.bits), ..row };
            true
        },
        None => {
            if table.len() < MAX_REPORTS {
                table.push(
                    ReportSize { id: m.id, kind: m.kind, bits: m.bits, usage_page: m.usage_page },
                );
                true
            } else {
                false
            }
        },
    }
}

/// Value of the `size` data bytes at `at`.
fn item_data(desc: &[u8], at: usize, size: usize) -> (data: u32)
    requires
        size <= 4,
        at + size <= desc@.len(),
    ensures
        data == le_value(desc@.subrange(at as int, at + size)),
{
    let mut data: u32 = 0;
    let mut k: usize = size;
    proof {
        assert(desc@.subrange(at + size, at + size) =~= Seq::empty());
    }
    while k > 0
        invariant
            k <= size,
            size <= 4,
            at + size <= desc.len(),
            data == le_value(desc@.subrange(at + k, at + size)),
            size - k == 0 ==> data == 0,
            size - k == 1 ==> data < 0x100,
            size - k == 2 ==> data < 0x1_0000,
            size - k == 3 ==> data < 0x100_0000,
        decreases k,
    {
        k -= 1;
        proof {
            let s = desc@.subrange(at + k, at + size);
            assert(s[0] == desc@[at + k]);
            assert(s.drop_first() =~= desc@.subrange(at + k + 1, at + size));
        }
        data = data * 256 + desc[at + k] as u32;
    }
    data
}

/// The (report ID, type) pairs that the report descriptor `desc` declares, with their sizes,
/// and its application collections.
pub fn report_summary(desc: &[u8]) -> (r: ReportSummary)
    ensures
        r.reports@ == tally(parse(desc@).mains),
        r.collections@ == parse(desc@).collections,
        match (r.truncated_at, parse(desc@).truncated_at) {
            (Some(i), Some(j)) => i == j,
            (None, None) => true,
            _ => false,
        },
        r.incomplete == overflowed(parse(desc@).mains),
{
    let mut reports: Vec<ReportSize> = Vec::new();
    let mut collections: Vec<(u16, u32)> = Vec::new();
    let mut incomplete: bool = false;
    let mut g: Globals = Globals {
        usage_page: 0,
        report_size: 0,
        report_count: 0,
        report_id: 0,
    };
    let mut stack: Vec<Globals> = Vec::new();
    let mut usage: Option<u32> = None;
    let mut i: usize = 0;
    let ghost mut so_far: Parsed = nothing_parsed();
    assert(stack@ =~= so_far.stack);
    assert(collections@ =~= so_far.collections);
    while i < desc.len()
        invariant
            i <= desc@.len(),
            parse_from(desc@, i as int, so_far) == parse(desc@),
            so_far.truncated_at is None,
            so_far.globals == g,
            so_far.stack == stack@,
            so_far.usage == usage,
            so_far.collections == collections@,
            reports@ == tally(so_far.mains),
            incomplete == overflowed(so_far.mains),
        decreases desc@.len() - i,
    {
        let prefix: u8 = desc[i];
        let left: usize = desc.len() - i;
        if prefix == LONG_ITEM {
            let size: usize = if left > 1 {
                desc[i + 1] as usize
            } else {
                0
            };
            assert(3 + size == long_item_len(desc@, i as int));
            assert(parse_from(desc@, i + 3 + size, so_far) == parse(desc@));
            if 3 + size < left {
                i += 3 + size;
            } else {
                i = desc.len();
            }
            continue ;
        }
        let size: usize = match prefix % 4 {
            3 => 4,
            n => n as usize,
        };
        if size > left - 1 {
            return ReportSummary { reports, collections, truncated_at: Some(i), incomplete };
        }
        let data: u32 = item_data(desc, i + 1, size);
        i += 1 + size;
        let ghost before = so_far;
        proof {
            so_far = before.item(prefix, data);
        }
        let tag: u8 = prefix / 16;
        let kind_of_item: u8 = (prefix / 4) % 4;
        if kind_of_item == 0 {
            let kind: Option<ReportKind> = match tag {
                0x8 => Some(ReportKind::Input),
                0x9 => Some(ReportKind::Output),
                0xb => Some(ReportKind::Feature),
                _ => None,
            };
            if tag == 0xa && data == 1 {
                let first: u32 = match usage {
                    Some(u) => u,
                    None => 0,
                };
                collections.push((g.usage_page, first));
            }
            if let Some(kind) = kind {
                let m = MainItem {
                    id: g.report_id,
                    kind,
                    bits: g.report_size.wrapping_mul(g.report_count),
                    usage_page: g.usage_page,
                };
                proof {
                    assert(so_far.mains == before.mains.push(m));
                    assert(so_far.mains.drop_last() =~= before.mains);
                }
                if !enter(&mut reports, m) {
                    incomplete = true;
                }
            }
            usage = None;
        } else if kind_of_item == 1 {
            match tag {
                0x0 => {
                    g.usage_page = (data % 0x1_0000) as u16;
                },
                0x7 => {
                    g.report_size = data;
                },
                0x8 => {
                    g.report_id = (data % 0x100) as u8;
                },
                0x9 => {
                    g.report_count = data;
                },
                0xa => {
                    if stack.len() < STACK_DEPTH {
                        stack.push(g);
                    }
                },
                0xb => {
                    if stack.len() > 0 {
                        if let Some(top) = stack.pop() {
                            g = top;
                        }
                    }
                },
                _ => {},
            }
        } else if kind_of_item == 2 && tag == 0 && usage.is_none() {
            usage = Some(data);
        }
    }
    ReportSummary { reports, collections, truncated_at: None, incomplete }
}

// ---- laws of the items ----

/// An item's prefix, by its bits: the low two are the number of data bytes (3 stands for 4), the
/// next two the type, the high four the tag.
pub proof fn law_prefix_by_bits(prefix: u8)
    ensures
        prefix & 0x03 == 0 ==> data_size(prefix) == 0,
        prefix & 0x03 == 1 ==> data_size(prefix) == 1,
        prefix & 0x03 == 2 ==> data_size(prefix) == 2,
        prefix & 0x03 == 3 ==> data_size(prefix) == 4,
        item_type(prefix) == (prefix >> 2) & 0x03,
        item_tag(prefix) == prefix >> 4,
        prefix == 16 * item_tag(prefix) + 4 * item_type(prefix) + prefix % 4,
{
    assert(prefix & 0x03 == prefix % 4 && (prefix >> 2) & 0x03 == prefix / 4 % 4 && prefix >> 4
        == prefix / 16) by (bit_vector);
}

/// What a descriptor is read as, item by item: a short item is its prefix and its data bytes,
/// little-endian; a long one (`fe <size>`) is passed over; where the data runs past the end, that
/// place is noted and reading stops.
pub proof fn law_items_read_in_turn(desc: Seq<u8>, i: int, before: Parsed)
    requires
        0 <= i < desc.len(),
    ensures
        desc[i] == 0xfe && i + 1 < desc.len() ==> parse_from(desc, i, before) == parse_from(
            desc,
            i + 3 + desc[i + 1],
            before,
        ),
        desc[i] != 0xfe && desc[i] % 4 == 0 ==> parse_from(desc, i, before) == parse_from(
            desc,
            i + 1,
            before.item(desc[i], 0),
        ),
        desc[i] != 0xfe && desc[i] % 4 == 1 && i + 2 <= desc.len() ==> parse_from(desc, i, before)
            == parse_from(desc, i + 2, before.item(desc[i], desc[i + 1] as u32)),
        desc[i] != 0xfe && desc[i] % 4 == 2 && i + 3 <= desc.len() ==> parse_from(desc, i, before)
            == parse_from(
            desc,
            i + 3,
            before.item(desc[i], (desc[i + 1] + 256 * desc[i + 2]) as u32),
        ),
        desc[i] != 0xfe && desc[i] % 4 == 3 && i + 5 <= desc.len() ==> parse_from(desc, i, before)
            == parse_from(
            desc,
            i + 5,
            before.item(
                desc[i],
                (desc[i + 1] + 256 * desc[i + 2] + 65536 * desc[i + 3] + 16777216 * desc[i
                    + 4]) as u32,
            ),
        ),
        desc[i] != 0xfe && ((desc[i] % 4 == 1 && i + 2 > desc.len()) || (desc[i] % 4 == 2 && i + 3
            > desc.len()) || (desc[i] % 4 == 3 && i + 5 > desc.len())) ==> parse_from(
            desc,
            i,
            before,
        ) == (Parsed { truncated_at: Some(i), ..before }),
{
    let n = data_size(desc[i]);
    if desc[i] != 0xfe && i + 1 + n <= desc.len() {
        let data = desc.subrange(i + 1, i + 1 + n);
        law_bytes_weigh_by_place(data, 0, 0);
    }
}

/// Reading starts at the first byte with nothing known, and ends behind the last one with all that
/// was read.
pub proof fn law_reading_starts_and_ends(desc: Seq<u8>, i: int, before: Parsed)
    ensures
        parse(desc) == parse_from(desc, 0, nothing_parsed()),
        i >= desc.len() ==> parse_from(desc, i, before) == before,
        nothing_parsed().mains.len() == 0,
        nothing_parsed().collections.len() == 0,
        nothing_parsed().stack.len() == 0,
        nothing_parsed().usage is None,
        nothing_parsed().truncated_at is None,
        nothing_parsed().globals == (Globals {
            usage_page: 0,
            report_size: 0,
            report_count: 0,
            report_id: 0,
        }),
{
}

/// What the main items declare: Input (0x80), Output (0x90) and Feature (0xb0) a field of as many
/// bits as the report size and count in effect give, of the report and usage page in effect; a
/// Collection (0xa0) of type 1 an application, with the usage page in effect and the first usage
/// since the main item before. Every main item ends the usages before it.
pub proof fn law_main_items(p: Parsed, prefix: u8, data: u32)
    requires
        prefix % 16 < 4,
    ensures
        ({
            let g = p.globals;
            let after = p.item(prefix, data);
            let field = |kind: ReportKind|
                MainItem {
                    id: g.report_id,
                    kind,
                    bits: ((g.report_size * g.report_count) % 0x1_0000_0000) as u32,
                    usage_page: g.usage_page,
                };
            &&& prefix / 16 == 0x8 ==> after.mains == p.mains.push(field(ReportKind::Input))
            &&& prefix / 16 == 0x9 ==> after.mains == p.mains.push(field(ReportKind::Output))
            &&& prefix / 16 == 0xb ==> after.mains == p.mains.push(field(ReportKind::Feature))
            &&& prefix / 16 != 0x8 && prefix / 16 != 0x9 && prefix / 16 != 0xb ==> after.mains
                == p.mains
            &&& prefix / 16 == 0xa && data == 1 && p.usage is Some ==> after.collections
                == p.collections.push((g.usage_page, p.usage->0))
            &&& prefix / 16 == 0xa && data == 1 && p.usage is None ==> after.collections
                == p.collections.push((g.usage_page, 0u32))
            &&& !(prefix / 16 == 0xa && data == 1) ==> after.collections == p.collections
            &&& after.usage is None
            &&& after.globals == g
            &&& after.stack == p.stack
            &&& after.truncated_at == p.truncated_at
        }),
{
}

/// What the global items set: usage page (0x04), report size (0x74), report ID (0x84) and report
/// count (0x94); Push (0xa4) keeps what is in effect, up to four deep, and Pop (0xb4) brings the
/// last kept back. They declare nothing.
pub proof fn law_global_items(p: Parsed, prefix: u8, data: u32)
    requires
        4 <= prefix % 16 < 8,
    ensures
        ({
            let g = p.globals;
            let after = p.item(prefix, data);
            let tag = prefix / 16;
            &&& tag == 0x0 && data < 0x1_0000 ==> after.globals == (Globals {
                usage_page: data as u16,
                ..g
            })
            &&& tag == 0x7 ==> after.globals == (Globals { report_size: data, ..g })
            &&& tag == 0x8 && data < 0x100 ==> after.globals == (Globals {
                report_id: data as u8,
                ..g
            })
            &&& tag == 0x9 ==> after.globals == (Globals { report_count: data, ..g })
            &&& tag == 0xa && p.stack.len() < 4 ==> after.stack == p.stack.push(g) && after.globals
                == g
            &&& tag == 0xb && p.stack.len() > 0 ==> after.globals == p.stack.last() && after.stack
                == p.stack.drop_last()
            &&& (tag == 0xa && p.stack.len() >= 4) || (tag == 0xb && p.stack.len() == 0) ==> after
                == p
            &&& tag != 0x0 && tag != 0x7 && tag != 0x8 && tag != 0x9 && tag != 0xa && tag != 0xb
                ==> after == p
            &&& tag != 0xa && tag != 0xb ==> after.stack == p.stack
            &&& after.mains == p.mains
            &&& after.collections == p.collections
            &&& after.usage == p.usage
            &&& after.truncated_at == p.truncated_at
        }),
{
}

/// Pop undoes Push, whatever global items were set in between.
pub proof fn law_pop_undoes_push(p: Parsed, set: Globals)
    requires
        p.stack.len() < 4,
    ensures
        ({
            let pushed = p.item(0xa4, 0);
            (Parsed { globals: set, ..pushed }).item(0xb4, 0) == p
        }),
{
    assert(p.stack.push(p.globals).drop_last() =~= p.stack);
}

/// Of the local items only the first Usage (0x08) since the last main item is kept; the other items
/// change nothing.
pub proof fn law_local_items(p: Parsed, prefix: u8, data: u32)
    requires
        prefix % 16 >= 8,
    ensures
        prefix % 16 < 12 && prefix / 16 == 0 && p.usage is None ==> p.item(prefix, data) == (Parsed {
            usage: Some(data),
            ..p
        }),
        prefix % 16 >= 12 || prefix / 16 != 0 || p.usage is Some ==> p.item(prefix, data) == p,
{
}

/// One more field and the table of reports: the rows there are keep their place, report and usage
/// page; the field's bits go to the row of its report, or else it gets a row of its own behind the
/// others, up to 24. Where there is no room for that, the table stays and is known to be
/// incomplete.
pub proof fn law_field_goes_to_its_row(mains: Seq<MainItem>, m: MainItem, i: int)
    ensures
        ({
            let table = tally(mains);
            let after = tally(mains.push(m));
            let known = exists|j: int|
                0 <= j < table.len() && (#[trigger] table[j]).id == m.id && table[j].kind == m.kind;
            &&& 0 <= i < table.len() ==> {
                &&& i < after.len()
                &&& after[i].id == table[i].id
                &&& after[i].kind == table[i].kind
                &&& after[i].usage_page == table[i].usage_page
                &&& table[i].id == m.id && table[i].kind == m.kind ==> after[i].bits
                    == (table[i].bits + m.bits) % 0x1_0000_0000
                &&& !(table[i].id == m.id && table[i].kind == m.kind) ==> after[i].bits
                    == table[i].bits
            }
            &&& !known && table.len() < 24 ==> after == table.push(
                ReportSize { id: m.id, kind: m.kind, bits: m.bits, usage_page: m.usage_page },
            )
            &&& known || table.len() >= 24 ==> after.len() == table.len()
            &&& overflowed(mains.push(m)) <==> overflowed(mains) || (!known && table.len() >= 24)
            &&& tally(Seq::<MainItem>::empty()).len() == 0
            &&& !overflowed(Seq::<MainItem>::empty())
        }),
{
    assert(mains.push(m).drop_last() =~= mains);
    lemma_row_of(tally(mains), m.id, m.kind);
    law_rows_distinct(mains);
}

/// A report takes as many bytes as its bits need.
pub proof fn law_report_bytes(r: ReportSize)
    ensures
        8 * r.spec_len() >= r.bits,
        r.spec_len() > 0 ==> 8 * (r.spec_len() - 1) < r.bits,
        r.kind == ReportKind::Input ==> r.kind.spec_name() == "input"@,
        r.kind == ReportKind::Output ==> r.kind.spec_name() == "output"@,
        r.kind == ReportKind::Feature ==> r.kind.spec_name() == "feature"@,
{
}

} // verus!
