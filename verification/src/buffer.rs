//! The framing of HID reports in byte buffers. Every report travels as its
//! report id byte followed by the report's data.

use vstd::prelude::*;

use crate::error::HidError;

verus! {

/// A report as it stands in a buffer: the report id byte, then the data.
pub open spec fn framed(report_id: u8, data: Seq<u8>) -> Seq<u8> {
    seq![report_id] + data
}

/// The report id and the data of a framed report; `None` for an empty buffer,
/// which holds no report id.
pub open spec fn unframed(buf: Seq<u8>) -> Option<(u8, Seq<u8>)> {
    if buf.len() == 0 {
        None
    } else {
        Some((buf[0], buf.skip(1)))
    }
}

pub open spec fn min(a: int, b: int) -> int {
    if a < b { a } else { b }
}

/// The smaller of two numbers is no larger than either and is one of them.
pub proof fn lemma_min_is_smaller(a: int, b: int)
    ensures
        min(a, b) <= a,
        min(a, b) <= b,
        min(a, b) == a || min(a, b) == b,
        a <= b ==> min(a, b) == a,
{
}

/// `data` from index `from` on, as a vector.
fn copy_from(data: &[u8], from: usize) -> (out: Vec<u8>)
    requires
        from <= data@.len(),
    ensures
        out@ == data@.skip(from as int),
{
    let mut out: Vec<u8> = Vec::new();
    let mut i: usize = from;
    while i < data.len()
        invariant
            from <= i <= data@.len(),
            out@ == data@.subrange(from as int, i as int),
        decreases data@.len() - i,
    {
        out.push(data[i]);
        i = i + 1;
        assert(out@ =~= data@.subrange(from as int, i as int));
    }
    assert(out@ =~= data@.skip(from as int));
    out
}

/// Copies `count` bytes of `src` into `buf` at `at`, leaving the rest of `buf`.
fn copy_into(src: &[u8], buf: &mut [u8], at: usize, count: usize)
    requires
        count <= src@.len(),
        at + count <= old(buf)@.len(),
    ensures
        final(buf)@ == old(buf)@.take(at as int) + src@.take(count as int) + old(buf)@.skip(at + count),
{
    let n = buf.len();
    let mut i: usize = 0;
    while i < count
        invariant
            n == old(buf)@.len(),
            count <= src@.len(),
            at + count <= old(buf)@.len(),
            buf@.len() == old(buf)@.len(),
            i <= count,
            buf@ == old(buf)@.take(at as int) + src@.take(i as int) + old(buf)@.skip(at + i),
        decreases count - i,
    {
        buf[at + i] = src[i];
        i = i + 1;
        assert(buf@ =~= old(buf)@.take(at as int) + src@.take(i as int) + old(buf)@.skip(at + i));
    }
}

/// An input report as it is handed to readers: its report id, then its data.
pub fn frame_input_report(report_id: u8, data: &[u8]) -> (report: Vec<u8>)
    ensures
        report@ == framed(report_id, data@),
        report@.len() == data@.len() + 1,
        report@[0] == report_id,
        report@.skip(1) == data@,
{
    proof {
        lemma_framed_layout(report_id, data@);
    }
    let mut report: Vec<u8> = Vec::new();
    report.push(report_id);
    let mut i: usize = 0;
    while i < data.len()
        invariant
            i <= data@.len(),
            report@ == framed(report_id, data@.take(i as int)),
        decreases data@.len() - i,
    {
        report.push(data[i]);
        i = i + 1;
        assert(report@ =~= framed(report_id, data@.take(i as int)));
    }
    assert(data@.take(data@.len() as int) =~= data@);
    report
}

/// Copies a received input report into the caller's buffer, as much of it as the
/// buffer holds, and returns how many bytes were copied. The bytes after them
/// are left as they were.
pub fn copy_input_report(report: &[u8], buf: &mut [u8]) -> (len: usize)
    ensures
        len == min(report@.len() as int, old(buf)@.len() as int),
        final(buf)@ == report@.take(len as int) + old(buf)@.skip(len as int),
        len <= report@.len() && len <= old(buf)@.len(),
        len == report@.len() || len == old(buf)@.len(),
        report@.len() <= old(buf)@.len() ==> len == report@.len()
            && final(buf)@.take(report@.len() as int) == report@,
        final(buf)@.len() == old(buf)@.len(),
{
    proof {
        lemma_min_is_smaller(report@.len() as int, old(buf)@.len() as int);
    }
    let len = if report.len() < buf.len() { report.len() } else { buf.len() };
    copy_into(report, buf, 0, len);
    assert(old(buf)@.take(0) + report@.take(len as int) =~= report@.take(len as int));
    len
}

/// Completes a read of an input report once the next report, if any, has come:
/// the report is copied into `buf`, and its copied length returned; where no
/// report will come any more the device is gone.
pub fn receive_input_report(next: Option<Vec<u8>>, buf: &mut [u8]) -> (res: Result<usize, HidError>)
    ensures
        next is None ==> (res matches Err(HidError::Disconnected)) && final(buf)@ == old(buf)@,
        next matches Some(report) ==> (res matches Ok(len)
            && len == min(report@.len() as int, old(buf)@.len() as int)
            && final(buf)@ == report@.take(len as int) + old(buf)@.skip(len as int)
            && len <= report@.len() && len <= old(buf)@.len()
            && (len == report@.len() || len == old(buf)@.len())),
{
    match next {
        Some(report) => Ok(copy_input_report(report.as_slice(), buf)),
        None => Err(HidError::Disconnected),
    }
}

/// Splits a report to send into its report id and its data; a buffer without the
/// report id byte is refused with `message`.
fn split_report(buf: &[u8], message: &str) -> (res: Result<(u8, Vec<u8>), HidError>)
    ensures
        buf@.len() == 0 ==> (res matches Err(HidError::Message(m)) && m@ == message@),
        buf@.len() > 0 ==> (res matches Ok((id, data)) && unframed(buf@) == Some((id, data@))),
        buf@.len() > 0 ==> (res matches Ok((id, data)) && id == buf@[0] && data@ == buf@.skip(1)),
{
    if buf.len() == 0 {
        return Err(HidError::message(message));
    }
    let report_id = buf[0];
    let data = copy_from(buf, 1);
    Ok((report_id, data))
}

/// The report id and data of an output report to send. The buffer must hold at
/// least the report id byte.
pub fn split_output_report(buf: &[u8]) -> (res: Result<(u8, Vec<u8>), HidError>)
    ensures
        buf@.len() == 0 ==> (res matches Err(HidError::Message(m))
            && m@ == "Output report must contain at least the report ID byte"@),
        buf@.len() > 0 ==> (res matches Ok((id, data)) && unframed(buf@) == Some((id, data@))),
        buf@.len() > 0 ==> (res matches Ok((id, data)) && id == buf@[0] && data@ == buf@.skip(1)),
{
    split_report(buf, "Output report must contain at least the report ID byte")
}

/// The report id and data of a feature report to send. The buffer must hold at
/// least the report id byte.
pub fn split_feature_report(buf: &[u8]) -> (res: Result<(u8, Vec<u8>), HidError>)
    ensures
        buf@.len() == 0 ==> (res matches Err(HidError::Message(m))
            && m@ == "Feature report must contain at least the report ID byte"@),
        buf@.len() > 0 ==> (res matches Ok((id, data)) && unframed(buf@) == Some((id, data@))),
        buf@.len() > 0 ==> (res matches Ok((id, data)) && id == buf@[0] && data@ == buf@.skip(1)),
{
    split_report(buf, "Feature report must contain at least the report ID byte")
}

/// The report id of a feature report to read, which the caller places in the
/// first byte of the buffer that is to receive the report.
pub fn feature_report_id(buf: &[u8]) -> (res: Result<u8, HidError>)
    ensures
        buf@.len() == 0 ==> (res matches Err(HidError::Message(m))
            && m@ == "Buffer must contain at least the report ID byte"@),
        buf@.len() > 0 ==> res == Ok::<u8, HidError>(buf@[0]),
{
    if buf.len() == 0 {
        return Err(HidError::message("Buffer must contain at least the report ID byte"));
    }
    Ok(buf[0])
}

/// Places the data of a received feature report after the report id byte of
/// `buf`, as much of it as fits, and returns the length of the report in `buf`,
/// the report id byte included.
pub fn store_feature_report(data: &[u8], buf: &mut [u8]) -> (len: usize)
    requires
        old(buf)@.len() >= 1,
    ensures
        len == min(data@.len() as int, old(buf)@.len() - 1) + 1,
        final(buf)@ == old(buf)@.take(1) + data@.take(len - 1) + old(buf)@.skip(len as int),
        final(buf)@.take(len as int) == framed(old(buf)@[0], data@.take(len - 1)),
        len - 1 <= data@.len() && len <= old(buf)@.len(),
        len - 1 == data@.len() || len == old(buf)@.len(),
        data@.len() < old(buf)@.len() ==> len == data@.len() + 1
            && final(buf)@.take(len as int) == framed(old(buf)@[0], data@),
        final(buf)@.len() == old(buf)@.len(),
{
    proof {
        lemma_min_is_smaller(data@.len() as int, old(buf)@.len() - 1);
    }
    let room = buf.len() - 1;
    let count = if data.len() < room { data.len() } else { room };
    copy_into(data, buf, 1, count);
    assert(buf@.take(count + 1) =~= framed(old(buf)@[0], data@.take(count as int)));
    count + 1
}

/// A framed report is one byte longer than its data, starts with its report id
/// and holds the data, byte for byte, after it; splitting a buffer gives back
/// its first byte and the rest, and nothing for an empty buffer.
pub proof fn lemma_framed_layout(report_id: u8, data: Seq<u8>)
    ensures
        framed(report_id, data).len() == data.len() + 1,
        framed(report_id, data)[0] == report_id,
        forall|i: int| 0 <= i < data.len() ==> #[trigger] framed(report_id, data)[i + 1] == data[i],
        framed(report_id, data).skip(1) == data,
        unframed(Seq::<u8>::empty()) is None,
        forall|buf: Seq<u8>| buf.len() > 0 ==> #[trigger] unframed(buf) == Some((buf[0], buf.skip(1))),
{
    assert(framed(report_id, data).skip(1) =~= data);
}

/// A report that is framed and then split gives back its report id and data.
pub proof fn lemma_frame_then_split(report_id: u8, data: Seq<u8>)
    ensures
        unframed(framed(report_id, data)) == Some((report_id, data)),
{
    assert(framed(report_id, data).skip(1) =~= data);
}

/// A buffer that holds a report id is the framing of its report id and data.
pub proof fn lemma_split_then_frame(buf: Seq<u8>)
    requires
        buf.len() > 0,
    ensures
        unframed(buf) matches Some((id, data)) && framed(id, data) == buf,
{
    assert(framed(buf[0], buf.skip(1)) =~= buf);
}

} // verus!
