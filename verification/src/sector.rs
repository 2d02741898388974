//! A sector-aligned block reader.
//!
//! Raw volumes only accept reads and seeks on multiples of a fixed sector
//! size. [`SectorReader`] wraps such a device and serves byte-addressed
//! reads and seeks: it aligns every physical operation down (for positions)
//! or up (for lengths) to sector boundaries and hides the skew from the
//! caller.

use vstd::prelude::*;
use vstd::arithmetic::div_mod::{
    lemma_fundamental_div_mod, lemma_mod_division_less_than_divisor, lemma_mod_multiples_basic,
};
use crate::errors::CollectError;

verus! {

/// Where a seek starts from: an absolute position, the end of the stream,
/// or an offset relative to the current position.
#[derive(Clone, Copy, Debug, PartialEq, Eq, Structural)]
pub enum SeekFrom {
    Start(u64),
    End(i64),
    Current(i64),
}

/// `n` is a power of two.
pub open spec fn is_pow2(n: nat) -> bool
    decreases n,
{
    if n == 0 {
        false
    } else if n == 1 {
        true
    } else {
        n % 2 == 0 && is_pow2(n / 2)
    }
}

/// `p` aligned down to the previous multiple of `s`.
pub open spec fn align_down(p: int, s: int) -> int {
    (p / s) * s
}

/// `p` aligned up to the least multiple of `s` that is at least `p`.
pub open spec fn align_up(p: int, s: int) -> int {
    align_down(p + s - 1, s)
}

/// Basic facts about alignment: aligning down lands on a sector boundary at
/// most one sector below `p`, and never below zero.
pub proof fn lemma_align_down(p: int, s: int)
    requires
        s > 0,
        p >= 0,
    ensures
        align_down(p, s) % s == 0,
        align_down(p, s) <= p < align_down(p, s) + s,
        align_down(p, s) >= 0,
{
    lemma_fundamental_div_mod(p, s);
    lemma_mod_division_less_than_divisor(p, s);
    lemma_mod_multiples_basic(p / s, s);
    assert(s * (p / s) == (p / s) * s) by (nonlinear_arith);
}

/// Basic facts about alignment: aligning up lands on a sector boundary less
/// than one sector above `p`, and never below it.
pub proof fn lemma_align_up(p: int, s: int)
    requires
        s > 0,
        p >= 0,
    ensures
        align_up(p, s) % s == 0,
        p <= align_up(p, s) < p + s,
        align_up(p, s) >= 0,
{
    lemma_align_down(p + s - 1, s);
}

/// Of two sector boundaries less than one sector apart, neither lies above
/// the other.
proof fn lemma_multiple_le(a: int, b: int, s: int)
    requires
        s > 0,
        a >= 0,
        b >= 0,
        a % s == 0,
        b % s == 0,
        a < b + s,
    ensures
        a <= b,
{
    lemma_fundamental_div_mod(a, s);
    lemma_fundamental_div_mod(b, s);
    let qa = a / s;
    let qb = b / s;
    if a > b {
        assert(qa > qb) by (nonlinear_arith)
            requires
                s > 0,
                a == s * qa,
                b == s * qb,
                a > b,
        ;
        assert(a >= b + s) by (nonlinear_arith)
            requires
                s > 0,
                a == s * qa,
                b == s * qb,
                qa >= qb + 1,
        ;
    }
}

/// Extracting the requested slice out of the aligned window returns exactly
/// the requested bytes, whenever the window lies within the device.
pub proof fn lemma_window_extract(data: Seq<u8>, p: int, n: int, s: int)
    requires
        s > 0,
        0 <= p,
        0 <= n,
        p + n <= data.len(),
        align_down(p, s) + align_up(p - align_down(p, s) + n, s) <= data.len(),
    ensures
        align_down(p, s) % s == 0,
        align_up(p - align_down(p, s) + n, s) % s == 0,
        data.subrange(
            align_down(p, s),
            align_down(p, s) + align_up(p - align_down(p, s) + n, s),
        ).subrange(p - align_down(p, s), p - align_down(p, s) + n) == data.subrange(p, p + n),
{
    let ap = align_down(p, s);
    let start = p - ap;
    let alen = align_up(start + n, s);
    lemma_align_down(p, s);
    lemma_align_up(start + n, s);
    assert(start + n <= alen);
    assert(data.subrange(ap, ap + alen).subrange(start, start + n) =~= data.subrange(p, p + n));
}

/// The round trip through aligned I/O is lossless: on a device whose length
/// is a multiple of the sector size, the aligned window fetched for any byte
/// range `[p, p + n)` within the device starts and ends on sector
/// boundaries, lies within the device, and extracting the in-window slice
/// returns exactly the range's bytes.
pub proof fn lemma_sector_round_trip(data: Seq<u8>, p: int, n: int, s: int)
    requires
        s > 0,
        0 <= p,
        0 <= n,
        p + n <= data.len(),
        data.len() as int % s == 0,
    ensures
        align_down(p, s) % s == 0,
        align_up(p - align_down(p, s) + n, s) % s == 0,
        align_down(p, s) + align_up(p - align_down(p, s) + n, s) <= data.len(),
        data.subrange(
            align_down(p, s),
            align_down(p, s) + align_up(p - align_down(p, s) + n, s),
        ).subrange(p - align_down(p, s), p - align_down(p, s) + n) == data.subrange(p, p + n),
{
    let ap = align_down(p, s);
    let start = p - ap;
    let alen = align_up(start + n, s);
    lemma_align_down(p, s);
    lemma_align_up(start + n, s);
    let window_end = ap + alen;
    assert(window_end % s == 0) by {
        lemma_fundamental_div_mod(ap, s);
        lemma_fundamental_div_mod(alen, s);
        let qa = ap / s;
        let ql = alen / s;
        assert(s * qa + s * ql == s * (qa + ql)) by (nonlinear_arith);
        lemma_mod_multiples_basic(qa + ql, s);
    }
    // The window ends below `p + n + s`, and two boundaries less than one
    // sector apart cannot overtake each other.
    assert(window_end < p + n + s);
    lemma_multiple_le(window_end, data.len() as int, s);
    lemma_window_extract(data, p, n, s);
}

/// A device whose bytes can be read at a position it was seeked to.
/// The sector reader issues only sector-aligned positions and lengths to it;
/// [`MemSource`] is its in-memory implementation. A raw volume handle is
/// driven through the same arithmetic by [`plan_read`] and [`plan_seek`].
pub trait BlockDevice: Sized {
    /// The bytes the device holds.
    spec fn data(&self) -> Seq<u8>;

    /// The device's current physical position.
    spec fn pos(&self) -> int;

    /// Move the physical position to `n`. Recording a position cannot fail;
    /// whether it can be read from is the next read's question.
    fn seek_to(&mut self, n: u64)
        ensures
            final(self).data() == old(self).data(),
            final(self).pos() == n as int,
    ;

    /// Fill `buf` with the bytes at the current position, advancing it.
    /// Succeeds exactly when the whole range lies within the device.
    fn read_exact(&mut self, buf: &mut Vec<u8>) -> (r: Result<(), CollectError>)
        ensures
            final(self).data() == old(self).data(),
            final(buf).len() == old(buf).len(),
            r is Ok <==> (0 <= old(self).pos() && old(self).pos() + old(buf).len() <= old(
                self,
            ).data().len()),
            r is Ok ==> {
                &&& final(buf)@ == old(self).data().subrange(
                    old(self).pos(),
                    old(self).pos() + old(buf).len(),
                )
                &&& final(self).pos() == old(self).pos() + old(buf).len()
            },
            r is Err ==> final(self).pos() == old(self).pos(),
    ;
}

/// An in-memory byte source: the verified implementation of [`BlockDevice`],
/// used to exercise the sector reader against a known byte sequence.
pub struct MemSource {
    /// The bytes the source serves.
    pub bytes: Vec<u8>,
    /// The current read position.
    pub position: u64,
}

impl MemSource {
    /// Wrap a byte vector as a device positioned at its start.
    pub fn new(bytes: Vec<u8>) -> (r: MemSource)
        ensures
            r.data() == bytes@,
            r.pos() == 0,
    {
        MemSource { bytes, position: 0 }
    }
}

impl BlockDevice for MemSource {
    open spec fn data(&self) -> Seq<u8> {
        self.bytes@
    }

    open spec fn pos(&self) -> int {
        self.position as int
    }

    fn seek_to(&mut self, n: u64)
        ensures
            final(self).data() == old(self).data(),
            final(self).pos() == n as int,
    {
        self.position = n;
    }

    fn read_exact(&mut self, buf: &mut Vec<u8>) -> (r: Result<(), CollectError>)
        ensures
            final(self).data() == old(self).data(),
            final(buf).len() == old(buf).len(),
            r is Ok <==> (0 <= old(self).pos() && old(self).pos() + old(buf).len() <= old(
                self,
            ).data().len()),
            r is Ok ==> {
                &&& final(buf)@ == old(self).data().subrange(
                    old(self).pos(),
                    old(self).pos() + old(buf).len(),
                )
                &&& final(self).pos() == old(self).pos() + old(buf).len()
            },
            r is Err ==> final(self).pos() == old(self).pos(),
    {
        let n = buf.len();
        if self.position > self.bytes.len() as u64 {
            return Err(CollectError::ArchiveIoError);
        }
        let start = self.position as usize;
        if n > self.bytes.len() - start {
            return Err(CollectError::ArchiveIoError);
        }
        let mut out: Vec<u8> = Vec::new();
        let mut i: usize = 0;
        while i < n
            invariant
                i <= n,
                start + n <= self.bytes.len(),
                out@ == self.bytes@.subrange(start as int, start + i),
            decreases n - i,
        {
            out.push(self.bytes[start + i]);
            proof {
                assert(out@ =~= self.bytes@.subrange(start as int, start + i + 1));
            }
            i = i + 1;
        }
        *buf = out;
        self.position = self.position + n as u64;
        Ok(())
    }
}

/// A byte-addressed reader over a device that only accepts sector-multiple
/// I/O. The sector size is fixed at construction and must be a power of two.
///
/// The reader holds no data between calls beyond a reusable scratch buffer;
/// a `read` assumes the device still stands at the aligned position the last
/// `seek` put it on (the `synced` state below), which is how the filesystem
/// parser drives it: every read is preceded by a seek.
pub struct SectorReader<D: BlockDevice> {
    /// The wrapped device.
    pub inner: D,
    /// The sector size set at creation.
    pub sector_size: usize,
    /// The position the caller believes the stream is at.
    pub stream_position: u64,
    /// Reusable scratch buffer for the aligned reads.
    pub temp_buf: Vec<u8>,
}

impl<D: BlockDevice> SectorReader<D> {
    /// The sector size is a power of two.
    pub open spec fn wf(self) -> bool {
        is_pow2(self.sector_size as nat)
    }

    /// The device stands on the sector boundary below the logical position:
    /// the state a `seek` establishes and a `read` relies on.
    pub open spec fn synced(self) -> bool {
        self.inner.pos() == align_down(self.stream_position as int, self.sector_size as int)
    }

    /// Wrap `inner`. Fails with `InvalidSectorSize` exactly when
    /// `sector_size` is not a power of two.
    pub fn new(inner: D, sector_size: usize) -> (r: Result<SectorReader<D>, CollectError>)
        ensures
            r is Ok <==> is_pow2(sector_size as nat),
            r matches Ok(sr) ==> {
                &&& sr.inner == inner
                &&& sr.sector_size == sector_size
                &&& sr.stream_position == 0
                &&& sr.temp_buf@.len() == 0
                &&& sr.wf()
            },
            r matches Err(e) ==> e == CollectError::InvalidSectorSize,
    {
        if !power_of_two(sector_size) {
            return Err(CollectError::InvalidSectorSize);
        }
        Ok(SectorReader { inner, sector_size, stream_position: 0, temp_buf: Vec::new() })
    }

    /// The position the next `seek` or `read` starts from.
    pub fn stream_position(&self) -> (r: u64)
        ensures
            r == self.stream_position,
    {
        self.stream_position
    }

    /// The logical position a seek mode asks for, if it is representable:
    /// an absolute position as given, a relative one checked against
    /// underflow and overflow. Seeks from the end have no target because the
    /// device does not report a size.
    pub open spec fn seek_target(cur: u64, mode: SeekFrom) -> Option<int> {
        match mode {
            SeekFrom::Start(n) => Some(n as int),
            SeekFrom::End(_) => None,
            SeekFrom::Current(d) => if 0 <= cur + d <= u64::MAX {
                Some(cur + d)
            } else {
                None
            },
        }
    }

    /// Move the logical position. The device is physically seeked to the
    /// sector boundary below the requested position; `read` covers the
    /// difference. `SeekFrom::End` is rejected outright, a relative seek
    /// that leaves `[0, u64::MAX]` fails as invalid, and in both cases the
    /// reader is unchanged.
    pub fn seek(&mut self, mode: SeekFrom) -> (r: Result<u64, CollectError>)
        requires
            old(self).wf(),
        ensures
            final(self).wf(),
            final(self).sector_size == old(self).sector_size,
            final(self).inner.data() == old(self).inner.data(),
            mode is End ==> r == Err::<u64, CollectError>(CollectError::UnsupportedSeek)
                && *final(self) == *old(self),
            !(mode is End) && Self::seek_target(old(self).stream_position, mode) is None ==> r
                == Err::<u64, CollectError>(CollectError::InvalidSeek) && *final(self) == *old(
                self,
            ),
            Self::seek_target(old(self).stream_position, mode) matches Some(t) ==> {
                &&& r == Ok::<u64, CollectError>(t as u64)
                &&& final(self).stream_position == t
                &&& final(self).synced()
            },
    {
        let target: Option<u64> = match mode {
            SeekFrom::Start(n) => Some(n),
            SeekFrom::End(_) => {
                return Err(CollectError::UnsupportedSeek);
            },
            SeekFrom::Current(d) => {
                if d >= 0 {
                    let du = d as u64;
                    if self.stream_position <= u64::MAX - du {
                        Some(self.stream_position + du)
                    } else {
                        None
                    }
                } else {
                    let mag = (-(d as i128)) as u64;
                    if mag <= self.stream_position {
                        Some(self.stream_position - mag)
                    } else {
                        None
                    }
                }
            },
        };
        match target {
            Some(n) => {
                let aligned = self.align_down_to_sector_size(n);
                self.inner.seek_to(aligned);
                self.stream_position = n;
                Ok(n)
            },
            None => Err(CollectError::InvalidSeek),
        }
    }

    /// Fill `buf` from the logical position, advancing it by `buf.len()`.
    /// The device sees a single read of the aligned window around the range;
    /// the requested bytes are copied out of the scratch buffer. Succeeds
    /// exactly when the whole aligned window lies within the device — in
    /// particular whenever the device's length is a multiple of the sector
    /// size and the range lies within it — and then returns exactly the
    /// device's bytes at `[position, position + len)`.
    pub fn read(&mut self, buf: &mut Vec<u8>) -> (r: Result<(), CollectError>)
        requires
            old(self).wf(),
            old(self).synced(),
            old(self).stream_position + old(buf).len() <= u64::MAX,
            old(buf).len() + 2 * old(self).sector_size <= usize::MAX,
        ensures
            final(self).wf(),
            final(self).sector_size == old(self).sector_size,
            final(self).inner.data() == old(self).inner.data(),
            final(buf).len() == old(buf).len(),
            r is Ok <==> align_down(old(self).stream_position as int, old(self).sector_size as int)
                + align_up(
                old(self).stream_position - align_down(
                    old(self).stream_position as int,
                    old(self).sector_size as int,
                ) + old(buf).len(),
                old(self).sector_size as int,
            ) <= old(self).inner.data().len(),
            (old(self).inner.data().len() as int % (old(self).sector_size as int) == 0 && old(
                self,
            ).stream_position + old(buf).len() <= old(self).inner.data().len()) ==> r is Ok,
            r is Ok ==> {
                &&& old(self).stream_position + old(buf).len() <= old(self).inner.data().len()
                &&& final(buf)@ == old(self).inner.data().subrange(
                    old(self).stream_position as int,
                    old(self).stream_position + old(buf).len(),
                )
                &&& final(self).stream_position == old(self).stream_position + old(buf).len()
            },
            r is Err ==> final(self).stream_position == old(self).stream_position,
    {
        let ghost data = self.inner.data();
        let ghost p = self.stream_position as int;
        let ghost s = self.sector_size as int;
        let ghost n0 = buf@.len() as int;
        proof {
            lemma_pow2_positive(self.sector_size as nat);
            lemma_align_down(p, s);
        }
        let aligned_position = self.align_down_to_sector_size(self.stream_position);
        let start = (self.stream_position - aligned_position) as usize;
        let end = start + buf.len();
        let aligned_bytes_to_read = self.align_up_to_sector_size(end as u64) as usize;
        proof {
            lemma_align_up(end as int, s);
        }

        let mut scratch: Vec<u8> = Vec::new();
        scratch.resize(aligned_bytes_to_read, 0);
        match self.inner.read_exact(&mut scratch) {
            Ok(()) => {},
            Err(e) => {
                proof {
                    if data.len() as int % s == 0 && p + n0 <= data.len() as int {
                        lemma_sector_round_trip(data, p, n0, s);
                    }
                }
                self.temp_buf = scratch;
                return Err(e);
            },
        }

        let n = buf.len();
        let mut out: Vec<u8> = Vec::new();
        let mut i: usize = 0;
        while i < n
            invariant
                i <= n,
                start + n <= scratch.len(),
                out@ == scratch@.subrange(start as int, start + i),
            decreases n - i,
        {
            out.push(scratch[start + i]);
            proof {
                assert(out@ =~= scratch@.subrange(start as int, start + i + 1));
            }
            i = i + 1;
        }
        proof {
            lemma_window_extract(data, p, n as int, s);
        }
        *buf = out;
        self.temp_buf = scratch;
        self.stream_position = self.stream_position + n as u64;
        Ok(())
    }

    /// `n` aligned down to the previous sector boundary.
    pub fn align_down_to_sector_size(&self, n: u64) -> (r: u64)
        requires
            self.wf(),
        ensures
            r == align_down(n as int, self.sector_size as int),
    {
        proof {
            lemma_pow2_positive(self.sector_size as nat);
            lemma_align_down(n as int, self.sector_size as int);
        }
        n / self.sector_size as u64 * self.sector_size as u64
    }

    /// `n` aligned up to the next sector boundary at or above it.
    pub fn align_up_to_sector_size(&self, n: u64) -> (r: u64)
        requires
            self.wf(),
            n + self.sector_size <= u64::MAX,
        ensures
            r == align_up(n as int, self.sector_size as int),
    {
        proof {
            lemma_pow2_positive(self.sector_size as nat);
            lemma_align_down(n + self.sector_size - 1, self.sector_size as int);
        }
        (n + self.sector_size as u64 - 1) / self.sector_size as u64 * self.sector_size as u64
    }
}

/// A power of two is positive.
pub proof fn lemma_pow2_positive(n: nat)
    requires
        is_pow2(n),
    ensures
        n >= 1,
{
}

/// Whether `n` is a power of two.
pub fn power_of_two(n: usize) -> (r: bool)
    ensures
        r == is_pow2(n as nat),
{
    let mut m: usize = n;
    while m > 1 && m % 2 == 0
        invariant
            is_pow2(n as nat) == is_pow2(m as nat),
        decreases m,
    {
        m = m / 2;
    }
    m == 1
}

/// One byte-addressed read translated to the sector-aligned window the
/// device must serve: read `aligned_length` bytes at `aligned_position`,
/// then hand the caller bytes `[start, end)` of what came back. Both the
/// position and the length of the device read are sector multiples.
#[derive(Debug, Clone, Copy, PartialEq, Eq, Structural)]
pub struct ReadPlan {
    pub aligned_position: u64,
    pub aligned_length: usize,
    pub start: usize,
    pub end: usize,
}

/// Plan one read of `len` bytes at `stream_position`. `None` exactly when
/// the sector size is not a power of two or the arithmetic would not fit
/// the machine's integers.
pub fn plan_read(stream_position: u64, len: usize, sector_size: usize) -> (r: Option<ReadPlan>)
    ensures
        r is Some <==> (is_pow2(sector_size as nat) && stream_position + len <= u64::MAX && len + 2
            * sector_size <= usize::MAX),
        r matches Some(p) ==> {
            &&& p.aligned_position == align_down(stream_position as int, sector_size as int)
            &&& p.start == stream_position - align_down(stream_position as int, sector_size as int)
            &&& p.end == p.start + len
            &&& p.aligned_length == align_up(p.start + len, sector_size as int)
            &&& p.aligned_position % (sector_size as u64) == 0
            &&& p.aligned_length % sector_size == 0
        },
{
    if !power_of_two(sector_size) {
        return None;
    }
    proof {
        lemma_pow2_positive(sector_size as nat);
        lemma_align_down(stream_position as int, sector_size as int);
    }
    if !(len as u64 <= u64::MAX - stream_position) {
        return None;
    }
    if !(sector_size <= (usize::MAX - len) / 2) {
        proof {
            assert((sector_size <= (usize::MAX - len) / 2) == (len + 2 * sector_size
                <= usize::MAX)) by (nonlinear_arith);
        }
        return None;
    }
    proof {
        assert((sector_size <= (usize::MAX - len) / 2) == (len + 2 * sector_size <= usize::MAX))
            by (nonlinear_arith);
    }
    let aligned_position = stream_position / sector_size as u64 * sector_size as u64;
    let start = (stream_position - aligned_position) as usize;
    let end = start + len;
    proof {
        lemma_align_up(end as int, sector_size as int);
        lemma_align_down(end + sector_size - 1, sector_size as int);
    }
    let aligned_length = (end + sector_size - 1) / sector_size * sector_size;
    proof {
        assert(aligned_position as int % (sector_size as int) == 0);
        assert(aligned_length as int % (sector_size as int) == 0);
    }
    Some(ReadPlan { aligned_position, aligned_length, start, end })
}

/// Plan one seek: the new logical position and the sector boundary the
/// device is physically seeked to. Seeks from the end are unsupported, a
/// relative seek that leaves `[0, u64::MAX]` is invalid, and a sector size
/// that is not a power of two is rejected.
#[derive(Debug, Clone, Copy, PartialEq, Eq, Structural)]
pub struct SeekPlan {
    pub target: u64,
    pub aligned_target: u64,
}

pub fn plan_seek(mode: SeekFrom, stream_position: u64, sector_size: usize) -> (r: Result<
    SeekPlan,
    CollectError,
>)
    ensures
        mode is End ==> r == Err::<SeekPlan, CollectError>(CollectError::UnsupportedSeek),
        (!(mode is End) && !is_pow2(sector_size as nat)) ==> r == Err::<SeekPlan, CollectError>(
            CollectError::InvalidSectorSize,
        ),
        (!(mode is End) && is_pow2(sector_size as nat) && SectorReader::<MemSource>::seek_target(
            stream_position,
            mode,
        ) is None) ==> r == Err::<SeekPlan, CollectError>(CollectError::InvalidSeek),
        (is_pow2(sector_size as nat) && SectorReader::<MemSource>::seek_target(
            stream_position,
            mode,
        ) is Some) ==> r is Ok,
        SectorReader::<MemSource>::seek_target(stream_position, mode) matches Some(t) ==> (r
            matches Ok(p) ==> p.target == t && p.aligned_target == align_down(
            t,
            sector_size as int,
        ) && p.aligned_target % (sector_size as u64) == 0),
{
    match mode {
        SeekFrom::End(_) => Err(CollectError::UnsupportedSeek),
        _ => {
            if !power_of_two(sector_size) {
                return Err(CollectError::InvalidSectorSize);
            }
            proof {
                lemma_pow2_positive(sector_size as nat);
            }
            let target: Option<u64> = match mode {
                SeekFrom::Start(n) => Some(n),
                SeekFrom::End(_) => None,
                SeekFrom::Current(d) => {
                    if d >= 0 {
                        let du = d as u64;
                        if stream_position <= u64::MAX - du {
                            Some(stream_position + du)
                        } else {
                            None
                        }
                    } else {
                        let mag = (-(d as i128)) as u64;
                        if mag <= stream_position {
                            Some(stream_position - mag)
                        } else {
                            None
                        }
                    }
                },
            };
            match target {
                Some(t) => {
                    proof {
                        lemma_align_down(t as int, sector_size as int);
                    }
                    let aligned_target = t / sector_size as u64 * sector_size as u64;
                    Ok(SeekPlan { target: t, aligned_target })
                },
                None => Err(CollectError::InvalidSeek),
            }
        },
    }
}

} // verus!
