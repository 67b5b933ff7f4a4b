//! Writing a request body through to the staging file, frame by frame.
//!
//! Buffering a layer to append it would make a push cost as much memory as the
//! blob is large. Here the cost is one frame, whatever the size of the blob.
//!
//! Both limits are checked as the bytes arrive, because in general neither can
//! be checked before. The ceiling is enforced *before* the offending frame is
//! written, so an over-long body cannot fill a disk on its way to being
//! rejected, and a client that *declares* a length above the ceiling is refused
//! before the first frame.

use vstd::prelude::*;

use crate::backend;
use crate::seam::{OpsError, OpsErrorView};

verus! {

/// A body on its way to the staging file.
#[derive(Debug)]
pub struct Drain {
    declared: Option<u64>,
    limit: Option<u64>,
    written: u64,
}

/// A body on its way to the staging file.
pub struct DrainView {
    pub declared: Option<u64>,
    pub limit: Option<u64>,
    pub written: nat,
}

impl View for Drain {
    type V = DrainView;

    closed spec fn view(&self) -> DrainView {
        DrainView { declared: self.declared, limit: self.limit, written: self.written as nat }
    }
}

/// What to do with a frame.
#[derive(Debug, Clone, Copy, PartialEq, Eq, Structural)]
pub enum Frame {
    /// It is empty: nothing is written.
    Skip,
    /// Write it where the previous one ended.
    Append,
}

/// A body of this declared length, under this ceiling.
pub open spec fn opened(declared: Option<u64>, limit: Option<u64>) -> Result<DrainView, OpsErrorView> {
    match (declared, limit) {
        (Some(d), Some(l)) if d > l => Err(OpsErrorView::BodyTooLarge { limit: l }),
        _ => Ok(DrainView { declared, limit, written: 0 }),
    }
}

/// The body after a frame of `len` bytes.
pub open spec fn after_frame(d: DrainView, len: nat) -> Result<DrainView, OpsErrorView> {
    if len == 0 {
        Ok(d)
    } else {
        let written = backend::saturating(d.written, len);
        match d.limit {
            Some(l) => if written > l {
                Err(OpsErrorView::BodyTooLarge { limit: l })
            } else {
                Ok(DrainView { written, ..d })
            },
            None => Ok(DrainView { written, ..d }),
        }
    }
}

/// The verdict on a body that has ended.
pub open spec fn ended(d: DrainView) -> Result<nat, OpsErrorView> {
    match d.declared {
        Some(declared) => if declared != d.written {
            Err(OpsErrorView::SizeMismatch { declared, actual: d.written as u64 })
        } else {
            Ok(d.written)
        },
        None => Ok(d.written),
    }
}

impl Drain {
    /// Begin on a body of this declared length, under this ceiling.
    pub fn begin(declared: Option<u64>, limit: Option<u64>) -> (r: Result<Drain, OpsError>)
        ensures
            match r {
                Ok(d) => opened(declared, limit) == Ok::<DrainView, OpsErrorView>(d@),
                Err(e) => opened(declared, limit) == Err::<DrainView, OpsErrorView>(e@),
            },
    {
        match (declared, limit) {
            (Some(d), Some(l)) => {
                if d > l {
                    return Err(OpsError::BodyTooLarge { limit: l });
                }
            },
            _ => (),
        }
        Ok(Drain { declared, limit, written: 0 })
    }

    /// Take a frame of `len` bytes: whether to write it, or why not to go on.
    pub fn frame(&mut self, len: u64) -> (r: Result<Frame, OpsError>)
        ensures
            match r {
                Ok(f) => after_frame(old(self)@, len as nat) == Ok::<DrainView, OpsErrorView>(
                    final(self)@,
                ) && f == (if len == 0 {
                    Frame::Skip
                } else {
                    Frame::Append
                }),
                Err(e) => after_frame(old(self)@, len as nat) == Err::<DrainView, OpsErrorView>(e@)
                    && final(self)@ == old(self)@,
            },
    {
        if len == 0 {
            return Ok(Frame::Skip);
        }
        let written: u64 = if len <= u64::MAX - self.written {
            self.written + len
        } else {
            u64::MAX
        };
        if let Some(limit) = self.limit {
            if written > limit {
                return Err(OpsError::BodyTooLarge { limit });
            }
        }
        self.written = written;
        Ok(Frame::Append)
    }

    /// The body broke off: what was written stays behind the session's recorded
    /// offset and is truncated by the next resume.
    pub fn broken(detail: String) -> (r: OpsError)
        ensures
            r@ == OpsErrorView::BodyIncomplete(detail@),
    {
        OpsError::BodyIncomplete(detail)
    }

    /// The body has ended: how many bytes it held, or that it was not as long as
    /// it declared.
    pub fn finish(&self) -> (r: Result<u64, OpsError>)
        ensures
            match r {
                Ok(n) => ended(self@) == Ok::<nat, OpsErrorView>(n as nat),
                Err(e) => ended(self@) == Err::<nat, OpsErrorView>(e@),
            },
    {
        if let Some(declared) = self.declared {
            if declared != self.written {
                return Err(OpsError::SizeMismatch { declared, actual: self.written });
            }
        }
        Ok(self.written)
    }
}

// ---- a whole body ------------------------------------------------------------

/// The body after frames of these lengths.
pub open spec fn after_frames(d: DrainView, frames: Seq<u64>) -> Result<DrainView, OpsErrorView>
    decreases frames.len(),
{
    if frames.len() == 0 {
        Ok(d)
    } else {
        match after_frames(d, frames.drop_last()) {
            Ok(before) => after_frame(before, frames.last() as nat),
            Err(e) => Err(e),
        }
    }
}

/// The bytes of some frames.
pub open spec fn bytes_in(frames: Seq<u64>) -> nat
    decreases frames.len(),
{
    if frames.len() == 0 {
        0
    } else {
        bytes_in(frames.drop_last()) + frames.last() as nat
    }
}

/// The verdict on a whole body.
pub open spec fn drained(declared: Option<u64>, limit: Option<u64>, frames: Seq<u64>) -> Result<
    nat,
    OpsErrorView,
> {
    match opened(declared, limit) {
        Err(e) => Err(e),
        Ok(d) => match after_frames(d, frames) {
            Err(e) => Err(e),
            Ok(d) => ended(d),
        },
    }
}

/// How many bytes are written of frames of these lengths: those of every frame
/// before the first that is refused.
pub open spec fn written_of(d: DrainView, frames: Seq<u64>) -> nat
    decreases frames.len(),
{
    if frames.len() == 0 {
        d.written
    } else {
        match after_frames(d, frames) {
            Ok(after) => after.written,
            Err(_) => written_of(d, frames.drop_last()),
        }
    }
}

/// How many bytes are written of a whole body.
pub open spec fn written(declared: Option<u64>, limit: Option<u64>, frames: Seq<u64>) -> nat {
    match opened(declared, limit) {
        Err(_) => 0,
        Ok(d) => written_of(d, frames),
    }
}

/// Take a whole body, given the lengths of its frames: the verdict, and how many
/// bytes were written on the way to it.
pub fn drain_into(declared: Option<u64>, limit: Option<u64>, frames: &Vec<u64>) -> (r: (
    Result<u64, OpsError>,
    u64,
))
    ensures
        match r.0 {
            Ok(n) => drained(declared, limit, frames@) == Ok::<nat, OpsErrorView>(n as nat),
            Err(e) => drained(declared, limit, frames@) == Err::<nat, OpsErrorView>(e@),
        },
        r.1 == written(declared, limit, frames@),
{
    let mut d = match Drain::begin(declared, limit) {
        Ok(d) => d,
        Err(e) => return (Err(e), 0),
    };
    let ghost start = d@;
    let mut i: usize = 0;
    proof {
        assert(frames@.take(0) =~= Seq::empty());
        assert(after_frames(start, frames@.take(0)) == Ok::<DrainView, OpsErrorView>(d@));
    }
    while i < frames.len()
        invariant
            0 <= i <= frames@.len(),
            opened(declared, limit) == Ok::<DrainView, OpsErrorView>(start),
            after_frames(start, frames@.take(i as int)) == Ok::<DrainView, OpsErrorView>(d@),
        decreases frames@.len() - i,
    {
        proof {
            assert(frames@.take(i + 1).drop_last() =~= frames@.take(i as int));
            assert(frames@.take(i + 1).last() == frames@[i as int]);
        }
        match d.frame(frames[i]) {
            Ok(_) => (),
            Err(e) => {
                proof {
                    lemma_refused(start, frames@, i + 1);
                    assert(written_of(start, frames@.take(i as int)) == d@.written);
                }
                return (Err(e), d.written);
            },
        }
        i = i + 1;
    }
    proof {
        assert(frames@.take(frames@.len() as int) =~= frames@);
    }
    let written: u64 = d.written;
    (d.finish(), written)
}

/// A body that was refused stays refused, for the same reason.
proof fn lemma_refused(d: DrainView, frames: Seq<u64>, k: int)
    requires
        0 <= k <= frames.len(),
        after_frames(d, frames.take(k)) is Err,
    ensures
        after_frames(d, frames) == after_frames(d, frames.take(k)),
        written_of(d, frames) == written_of(d, frames.take(k)),
    decreases frames.len() - k,
{
    if k < frames.len() {
        assert(frames.take(k + 1).drop_last() =~= frames.take(k));
        lemma_refused(d, frames, k + 1);
    } else {
        assert(frames.take(k) =~= frames);
    }
}

proof fn lemma_bytes_grow(frames: Seq<u64>, k: int)
    requires
        0 <= k <= frames.len(),
    ensures
        bytes_in(frames.take(k)) <= bytes_in(frames),
    decreases frames.len() - k,
{
    if k < frames.len() {
        lemma_bytes_grow(frames, k + 1);
        assert(frames.take(k + 1).drop_last() =~= frames.take(k));
    } else {
        assert(frames.take(k) =~= frames);
    }
}

/// What is written never passes the ceiling, and is every byte that arrived.
proof fn lemma_after_frames(d: DrainView, frames: Seq<u64>)
    requires
        d.written == 0,
        bytes_in(frames) <= u64::MAX,
    ensures
        match after_frames(d, frames) {
            Ok(after) => {
                &&& after.written == bytes_in(frames)
                &&& after.declared == d.declared
                &&& after.limit == d.limit
                &&& d.limit matches Some(l) ==> bytes_in(frames) <= l
            },
            Err(e) => d.limit is Some && bytes_in(frames) > d.limit->0 && e == (
            OpsErrorView::BodyTooLarge { limit: d.limit->0 }),
        },
    decreases frames.len(),
{
    if frames.len() > 0 {
        lemma_after_frames(d, frames.drop_last());
    }
}

/// A body is accepted exactly when it fits under the ceiling and is as long as
/// it declared, and then every byte of it is counted. One that is too long, or
/// declares that it will be, is too large; one of the wrong length is a
/// mismatch.
pub proof fn law_body_is_accepted_exactly_when_it_fits(
    declared: Option<u64>,
    limit: Option<u64>,
    frames: Seq<u64>,
)
    requires
        bytes_in(frames) <= u64::MAX,
    ensures
        ({
            let total = bytes_in(frames);
            let too_large = limit matches Some(l) && (total > l || (declared matches Some(d) && d
                > l));
            match drained(declared, limit, frames) {
                Ok(n) => !too_large && (declared matches Some(d) ==> d == total) && n == total,
                Err(OpsErrorView::BodyTooLarge { limit: l }) => too_large && limit == Some(l),
                Err(OpsErrorView::SizeMismatch { declared: d, actual }) => !too_large && declared
                    == Some(d) && d != total && actual == total,
                Err(_) => false,
            }
        }),
{
    let d = DrainView { declared, limit, written: 0 };
    lemma_after_frames(d, frames);
}

/// A body never writes more than the ceiling, whatever it holds, and one that
/// declares more than the ceiling writes nothing.
pub proof fn law_no_more_than_the_ceiling_is_written(
    declared: Option<u64>,
    limit: u64,
    frames: Seq<u64>,
)
    ensures
        written(declared, Some(limit), frames) <= limit,
        declared matches Some(d) ==> (d > limit ==> written(declared, Some(limit), frames) == 0),
    decreases frames.len(),
{
    if frames.len() > 0 {
        law_no_more_than_the_ceiling_is_written(declared, limit, frames.drop_last());
        lemma_limit_is_kept(DrainView { declared, limit: Some(limit), written: 0 }, frames);
    }
}

proof fn lemma_limit_is_kept(d: DrainView, frames: Seq<u64>)
    requires
        d.limit matches Some(l) && d.written <= l,
    ensures
        after_frames(d, frames) matches Ok(after) ==> after.limit == d.limit && after.written
            <= d.limit->0,
    decreases frames.len(),
{
    if frames.len() > 0 {
        lemma_limit_is_kept(d, frames.drop_last());
    }
}

/// Every byte of a body that is accepted is written; of one that declared no more
/// than the ceiling and turned out longer, exactly the frames before the first that
/// would have passed it.
pub proof fn law_what_fits_is_written(declared: Option<u64>, limit: u64, frames: Seq<u64>)
    requires
        bytes_in(frames) <= u64::MAX,
        declared matches Some(d) ==> d <= limit,
    ensures
        written(declared, None, frames) == bytes_in(frames),
        bytes_in(frames) <= limit ==> written(declared, Some(limit), frames) == bytes_in(frames),
        bytes_in(frames) > limit ==> exists|k: int|
            0 <= k < frames.len() && written(declared, Some(limit), frames) == bytes_in(
                #[trigger] frames.take(k),
            ) && bytes_in(frames.take(k)) <= limit && bytes_in(frames.take(k)) + frames[k] > limit,
    decreases frames.len(),
{
    lemma_after_frames(DrainView { declared, limit: None, written: 0 }, frames);
    lemma_after_frames(DrainView { declared, limit: Some(limit), written: 0 }, frames);
    if frames.len() > 0 {
        let before = frames.drop_last();
        law_what_fits_is_written(declared, limit, before);
        if bytes_in(frames) > limit {
            if bytes_in(before) > limit {
                let k = choose|k: int|
                    0 <= k < before.len() && written(declared, Some(limit), before) == bytes_in(
                        #[trigger] before.take(k),
                    ) && bytes_in(before.take(k)) <= limit && bytes_in(before.take(k)) + before[k]
                        > limit;
                assert(before.take(k) =~= frames.take(k));
            } else {
                assert(frames.take(frames.len() - 1) =~= before);
            }
        }
    }
}

/// A body that broke off is incomplete, for the reason that it broke off for.
pub proof fn law_broken_body_is_incomplete(detail: String, e: OpsError)
    requires
        call_ensures(Drain::broken, (detail,), e),
    ensures
        e@ == OpsErrorView::BodyIncomplete(detail@),
{
}

/// A frame is written exactly where it holds something.
pub proof fn law_every_byte_is_written(d: &mut Drain, len: u64, r: Result<Frame, OpsError>)
    requires
        call_ensures(Drain::frame, (d, len), r),
    ensures
        r matches Ok(f) ==> (f == Frame::Append <==> len > 0),
{
}

} // verus!
