//! Report sizes: how many bytes a HID report occupies on the wire.

use vstd::prelude::*;

verus! {

/// One item of a report descriptor: `report_count` fields of `report_size` bits each.
#[derive(Debug, Clone, Copy, PartialEq, Eq)]
pub struct ReportItem {
    pub report_size: u32,
    pub report_count: u32,
}

/// One report of a collection. `items` is `None` where the report carries no
/// readable item list; such a report is left out of the size computation.
#[derive(Debug, Clone, PartialEq, Eq)]
pub struct ReportInfo {
    pub items: Option<Vec<ReportItem>>,
}

/// The number of bits that a list of items occupies.
pub open spec fn items_bits(items: Seq<ReportItem>) -> int
    decreases items.len(),
{
    if items.len() == 0 {
        0
    } else {
        items_bits(items.drop_last()) + items.last().report_size * items.last().report_count
    }
}

/// The number of whole bytes that a report occupies, without the report id byte:
/// its bits rounded up to whole bytes; zero for a report without items.
pub open spec fn report_bytes(report: ReportInfo) -> int {
    match report.items {
        Some(items) => (items_bits(items@) + 7) / 8,
        None => 0,
    }
}

/// The largest byte size among the reports (zero when there are none).
pub open spec fn max_report_bytes(reports: Seq<ReportInfo>) -> int
    decreases reports.len(),
{
    if reports.len() == 0 {
        0
    } else {
        let rest = max_report_bytes(reports.drop_last());
        let last = report_bytes(reports.last());
        if last > rest { last } else { rest }
    }
}

/// A report whose bit count, rounded up to whole bytes, is computed without overflow
/// in 32-bit arithmetic.
pub open spec fn report_fits(report: ReportInfo) -> bool {
    match report.items {
        Some(items) => items_bits(items@) <= u32::MAX - 7,
        None => true,
    }
}

pub open spec fn reports_fit(reports: Seq<ReportInfo>) -> bool {
    forall|i: int| 0 <= i < reports.len() ==> #[trigger] report_fits(reports[i])
}

/// The maximum report length in bytes, the report id byte included, as the
/// 16-bit size that a device description carries; `None` for no reports.
pub open spec fn max_report_length(reports: Seq<ReportInfo>) -> Option<u16> {
    if reports.len() == 0 {
        None
    } else {
        Some(((max_report_bytes(reports) + 1) % 0x10000) as u16)
    }
}

/// The largest report size bounds the size of every report, and is the size of
/// one of them where there is any report.
pub proof fn lemma_max_report_bytes_is_max(reports: Seq<ReportInfo>)
    ensures
        forall|i: int| 0 <= i < reports.len() ==> #[trigger] report_bytes(reports[i]) <= max_report_bytes(reports),
        reports.len() > 0 ==> exists|i: int| 0 <= i < reports.len() && #[trigger] report_bytes(reports[i]) == max_report_bytes(reports),
    decreases reports.len(),
{
    if reports.len() > 0 {
        let init = reports.drop_last();
        lemma_max_report_bytes_is_max(init);
        assert forall|i: int| 0 <= i < reports.len() implies #[trigger] report_bytes(reports[i]) <= max_report_bytes(reports) by {
            if i < init.len() {
                assert(init[i] == reports[i]);
            }
        }
        let last = reports.len() - 1;
        if report_bytes(reports[last]) > max_report_bytes(init) {
            assert(report_bytes(reports[last]) == max_report_bytes(reports));
        } else if init.len() > 0 {
            let i = choose|i: int| 0 <= i < init.len() && #[trigger] report_bytes(init[i]) == max_report_bytes(init);
            assert(init[i] == reports[i]);
            assert(report_bytes(reports[i]) == max_report_bytes(reports));
        } else {
            match reports[last].items {
                Some(items) => lemma_items_bits_nonneg(items@),
                None => {},
            }
            assert(report_bytes(reports[last]) == max_report_bytes(reports));
        }
    }
}

/// The bits of a list of items are the sum of size times count over the items:
/// none for no items, and each further item adds its own.
pub proof fn lemma_items_bits_sum(items: Seq<ReportItem>, item: ReportItem)
    ensures
        items_bits(Seq::<ReportItem>::empty()) == 0,
        items_bits(items.push(item)) == items_bits(items) + item.report_size * item.report_count,
        items_bits(items) >= 0,
{
    assert(items.push(item).drop_last() =~= items);
    lemma_items_bits_nonneg(items);
}

/// A report occupies the least number of whole bytes that holds all its bits,
/// and none when it has no items.
pub proof fn lemma_report_bytes_rounds_up(report: ReportInfo)
    ensures
        report.items is None ==> report_bytes(report) == 0,
        report.items matches Some(items) ==> {
            &&& report_bytes(report) >= 0
            &&& report_bytes(report) * 8 >= items_bits(items@)
            &&& (report_bytes(report) - 1) * 8 < items_bits(items@)
        },
{
    match report.items {
        Some(items) => lemma_items_bits_nonneg(items@),
        None => {},
    }
}

/// The length of a non-empty report list is the byte count of its largest
/// report plus one for the report id byte, kept to 16 bits: exactly that sum
/// wherever it is below 65536.
pub proof fn lemma_max_report_length_is_largest_plus_id(reports: Seq<ReportInfo>)
    requires
        reports.len() > 0,
    ensures
        exists|i: int| #![trigger reports[i]] {
            &&& 0 <= i < reports.len()
            &&& forall|j: int| 0 <= j < reports.len() ==> report_bytes(#[trigger] reports[j]) <= report_bytes(reports[i])
            &&& max_report_length(reports) == Some(((report_bytes(reports[i]) + 1) % 0x10000) as u16)
        },
        forall|i: int| 0 <= i < reports.len()
            && (forall|j: int| 0 <= j < reports.len() ==> report_bytes(#[trigger] reports[j]) <= report_bytes(reports[i]))
            && report_bytes(#[trigger] reports[i]) + 1 < 0x10000
            ==> max_report_length(reports) == Some((report_bytes(reports[i]) + 1) as u16),
        max_report_length(reports) is Some,
{
    lemma_max_report_bytes_is_max(reports);
    let i = choose|i: int| 0 <= i < reports.len() && #[trigger] report_bytes(reports[i]) == max_report_bytes(reports);
    assert(reports[i] == reports[i]);
    assert forall|k: int| 0 <= k < reports.len()
        && (forall|j: int| 0 <= j < reports.len() ==> report_bytes(#[trigger] reports[j]) <= report_bytes(reports[k]))
        && report_bytes(#[trigger] reports[k]) + 1 < 0x10000
        implies max_report_length(reports) == Some((report_bytes(reports[k]) + 1) as u16) by {
        assert(report_bytes(reports[i]) <= report_bytes(reports[k]));
        assert(report_bytes(reports[k]) <= report_bytes(reports[i]));
        lemma_report_bytes_rounds_up(reports[k]);
    }
}

proof fn lemma_items_bits_nonneg(items: Seq<ReportItem>)
    ensures
        items_bits(items) >= 0,
    decreases items.len(),
{
    if items.len() > 0 {
        lemma_items_bits_nonneg(items.drop_last());
        let a = items.last().report_size as int;
        let b = items.last().report_count as int;
        assert(a * b >= 0) by (nonlinear_arith)
            requires
                a >= 0,
                b >= 0,
        ;
    }
}

proof fn lemma_max_report_bytes_bounds(reports: Seq<ReportInfo>)
    requires
        reports_fit(reports),
    ensures
        0 <= max_report_bytes(reports) <= (u32::MAX as int) / 8,
    decreases reports.len(),
{
    if reports.len() > 0 {
        let init = reports.drop_last();
        assert(reports_fit(init)) by {
            assert forall|i: int| 0 <= i < init.len() implies #[trigger] report_fits(init[i]) by {
                assert(init[i] == reports[i]);
            }
        }
        lemma_max_report_bytes_bounds(init);
        assert(report_fits(reports[reports.len() - 1]));
        match reports.last().items {
            Some(items) => lemma_items_bits_nonneg(items@),
            None => {},
        }
    }
}

/// Whether a report's size can be computed: whether its bit count, rounded up to
/// whole bytes, stays within 32 bits.
pub fn report_fits_check(report: &ReportInfo) -> (fits: bool)
    ensures
        fits == report_fits(*report),
        fits <==> (report.items matches Some(items) ==> items_bits(items@) <= 0xffff_fff8),
{
    let items = match &report.items {
        Some(items) => items,
        None => return true,
    };
    let limit: u64 = 0xffff_fff8;
    let mut total: u64 = 0;
    let mut j: usize = 0;
    while j < items.len()
        invariant
            j <= items.len(),
            total == items_bits(items@.take(j as int)),
            total <= limit,
            limit == u32::MAX - 7,
            report.items == Some(*items),
        decreases items.len() - j,
    {
        let item = items[j];
        proof {
            let next = items@.take(j + 1);
            assert(next.drop_last() =~= items@.take(j as int));
            assert(next.last() == item);
            let a = item.report_size as int;
            let b = item.report_count as int;
            assert(a * b <= 0xffff_ffff * 0xffff_ffff) by (nonlinear_arith)
                requires
                    0 <= a <= 0xffff_ffff,
                    0 <= b <= 0xffff_ffff,
            ;
        }
        let product: u64 = (item.report_size as u64) * (item.report_count as u64);
        total = total + product;
        assert(total == items_bits(items@.take(j + 1)));
        if total > limit {
            proof {
                lemma_prefix_bits_le(items@, j + 1);
            }
            return false;
        }
        j = j + 1;
    }
    assert(items@.take(items.len() as int) =~= items@);
    true
}

proof fn lemma_reports_fit_direct(reports: Seq<ReportInfo>)
    ensures
        reports_fit(reports) <==> forall|k: int| 0 <= k < reports.len() ==> (#[trigger] reports[k].items matches Some(items)
            ==> items_bits(items@) <= 0xffff_fff8),
{
    if reports_fit(reports) {
        assert forall|k: int| 0 <= k < reports.len() implies (#[trigger] reports[k].items matches Some(items)
            ==> items_bits(items@) <= 0xffff_fff8) by {
            assert(report_fits(reports[k]));
        }
    }
    if forall|k: int| 0 <= k < reports.len() ==> (#[trigger] reports[k].items matches Some(items)
            ==> items_bits(items@) <= 0xffff_fff8) {
        assert forall|k: int| 0 <= k < reports.len() implies #[trigger] report_fits(reports[k]) by {
            assert(reports[k].items matches Some(items) ==> items_bits(items@) <= 0xffff_fff8);
        }
    }
}

/// Whether every report size of the list can be computed.
pub fn reports_fit_check(reports: &[ReportInfo]) -> (fits: bool)
    ensures
        fits == reports_fit(reports@),
        fits <==> forall|k: int| 0 <= k < reports@.len() ==> (#[trigger] reports@[k].items matches Some(items)
            ==> items_bits(items@) <= 0xffff_fff8),
{
    proof {
        lemma_reports_fit_direct(reports@);
    }
    let mut i: usize = 0;
    while i < reports.len()
        invariant
            i <= reports.len(),
            forall|k: int| 0 <= k < i ==> #[trigger] report_fits(reports@[k]),
        decreases reports.len() - i,
    {
        if !report_fits_check(&reports[i]) {
            return false;
        }
        i = i + 1;
    }
    true
}

/// The number of bits of the items, computed in 32 bits.
fn items_bit_count(items: &Vec<ReportItem>) -> (bits: u32)
    requires
        items_bits(items@) <= u32::MAX,
    ensures
        bits == items_bits(items@),
{
    let mut total_bits: u32 = 0;
    let mut j: usize = 0;
    while j < items.len()
        invariant
            j <= items.len(),
            items_bits(items@) <= u32::MAX,
            total_bits == items_bits(items@.take(j as int)),
        decreases items.len() - j,
    {
        let item = items[j];
        proof {
            let next = items@.take(j + 1);
            assert(next.drop_last() =~= items@.take(j as int));
            assert(next.last() == item);
            lemma_prefix_bits_le(items@, j + 1);
            lemma_items_bits_nonneg(items@.take(j as int));
            let a = item.report_size as int;
            let b = item.report_count as int;
            assert(a * b >= 0) by (nonlinear_arith)
                requires
                    a >= 0,
                    b >= 0,
            ;
        }
        total_bits = total_bits + item.report_size * item.report_count;
        j = j + 1;
    }
    assert(items@.take(items.len() as int) =~= items@);
    total_bits
}

proof fn lemma_prefix_bits_le(items: Seq<ReportItem>, n: int)
    requires
        0 <= n <= items.len(),
    ensures
        items_bits(items.take(n)) <= items_bits(items),
    decreases items.len() - n,
{
    if n < items.len() {
        lemma_prefix_bits_le(items, n + 1);
        let next = items.take(n + 1);
        assert(next.drop_last() =~= items.take(n));
        let a = next.last().report_size as int;
        let b = next.last().report_count as int;
        assert(a * b >= 0) by (nonlinear_arith)
            requires
                a >= 0,
                b >= 0,
        ;
    } else {
        assert(items.take(n) =~= items);
    }
}

/// The number of whole bytes that one report occupies, without the report id byte.
///
/// The result is the least byte count whose bits hold all the report's bits.
pub fn report_byte_length(report: &ReportInfo) -> (bytes: u32)
    requires
        report_fits(*report),
    ensures
        bytes == report_bytes(*report),
        report.items is Some ==> bytes * 8 >= items_bits(report.items->0@),
        report.items is Some ==> (bytes - 1) * 8 < items_bits(report.items->0@),
{
    match &report.items {
        Some(items) => {
            let bits = items_bit_count(items);
            (bits + 7) / 8
        },
        None => 0,
    }
}

/// The largest report of a list, in bytes, plus one for the report id byte that
/// precedes every report; `None` where the list is empty.
pub fn max_report_byte_length(reports: &[ReportInfo]) -> (length: Option<u16>)
    requires
        reports_fit(reports@),
    ensures
        length == max_report_length(reports@),
        reports@.len() == 0 <==> length is None,
        reports@.len() > 0 ==> exists|i: int| #![trigger reports@[i]] {
            &&& 0 <= i < reports@.len()
            &&& forall|j: int| 0 <= j < reports@.len() ==> report_bytes(#[trigger] reports@[j]) <= report_bytes(reports@[i])
            &&& length == Some(((report_bytes(reports@[i]) + 1) % 0x10000) as u16)
        },
{
    proof {
        if reports@.len() > 0 {
            lemma_max_report_length_is_largest_plus_id(reports@);
        }
    }
    if reports.len() == 0 {
        return None;
    }
    let mut max_bytes: u32 = 0;
    let mut i: usize = 0;
    while i < reports.len()
        invariant
            i <= reports.len(),
            reports_fit(reports@),
            max_bytes == max_report_bytes(reports@.take(i as int)),
        decreases reports.len() - i,
    {
        assert(report_fits(reports@[i as int]));
        let bytes = report_byte_length(&reports[i]);
        proof {
            let next = reports@.take(i + 1);
            assert(next.drop_last() =~= reports@.take(i as int));
            assert(next.last() == reports@[i as int]);
        }
        if bytes > max_bytes {
            max_bytes = bytes;
        }
        i = i + 1;
    }
    assert(reports@.take(reports.len() as int) =~= reports@);
    proof {
        lemma_max_report_bytes_bounds(reports@);
    }
    let total: u32 = max_bytes + 1;
    assert(total as u16 == total % 0x10000) by (bit_vector);
    Some(total as u16)
}

} // verus!
