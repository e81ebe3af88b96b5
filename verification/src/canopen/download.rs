//! Bookkeeping of the over-CAN firmware download into flash.
//!
//! The SDO download stream addresses the image by offset from its first
//! byte. Pages of the app region are erased lazily, in order, just before
//! their first byte is programmed, so acknowledging the transfer never waits
//! for a whole-region erase. When the stream is complete, the APP-META record
//! for the image is stamped into the (separately erased) meta page.
//!
//! The flash operations themselves are performed by the caller: this module
//! decides which page to erase next, where to program, and what record to
//! stamp.

use vstd::prelude::*;
use crate::app_meta::{AppMeta, APP_BASE, META_BASE, APP_META_MAGIC, APP_META_VERSION, spec_crc32};

verus! {

/// Base of the device's flash; flash-driver offsets are relative to it.
pub const FLASH_BASE: u32 = 0x0800_0000;
/// Flash-base-relative offset of the app region.
pub const APP_FLASH_OFFSET: u32 = APP_BASE - FLASH_BASE;
/// Flash page size (all pages are 2 KB).
pub const PAGE_SIZE: u32 = 2048;
/// Flash-base-relative offset of the meta page.
pub const META_FLASH_OFFSET: u32 = META_BASE - FLASH_BASE;
/// Node id of the bootloader (SDO COB-IDs derive from it).
pub const NODE_ID: u16 = 0x01;

/// Largest page index the bookkeeping tracks.
pub const MAX_PAGE: u32 = 0x1F_FFFF;

/// The next step of programming a segment.
#[derive(Clone, Copy, Debug, PartialEq, Eq, Structural)]
pub enum WriteStep {
    /// Erase app-region `page`, i.e. flash offsets `from..to`, then record it
    /// with [`FlashBackend::mark_erased`] and ask again.
    Erase { page: u32, from: u32, to: u32 },
    /// Every page the segment touches is erased: program it at flash offset
    /// `at`.
    Program { at: u32 },
}

/// Erase bookkeeping of a download: the highest app-region page erased so
/// far, if any.
#[derive(Clone, Copy, Debug)]
pub struct FlashBackend {
    erased_through: Option<u32>,
}

/// The last app-region page a segment of `len > 0` bytes at `offset` touches.
pub open spec fn last_page(offset: u32, len: u32) -> int {
    (offset + len - 1) / PAGE_SIZE as int
}

/// The bookkeeping limit: writes stay far enough below the top of the
/// address space for every flash offset computed to fit in a `u32`.
pub open spec fn segment_fits(offset: u32, len: u32) -> bool {
    offset + len + APP_FLASH_OFFSET + PAGE_SIZE <= u32::MAX
}

impl FlashBackend {
    /// The highest page erased so far.
    pub closed spec fn spec_erased_through(&self) -> Option<u32> {
        self.erased_through
    }

    /// The page index bookkeeping stays within range.
    pub open spec fn wf(&self) -> bool {
        self.spec_erased_through() matches Some(p) ==> p <= MAX_PAGE
    }

    /// The first page not yet erased.
    pub open spec fn next_page(&self) -> int {
        match self.spec_erased_through() {
            Some(p) => p + 1,
            None => 0,
        }
    }

    /// A download with nothing erased yet.
    pub fn new() -> (r: FlashBackend)
        ensures
            r.wf(),
            r.spec_erased_through() is None,
    {
        FlashBackend { erased_through: None }
    }

    /// The highest page erased so far.
    pub fn erased_through(&self) -> (r: Option<u32>)
        ensures
            r == self.spec_erased_through(),
    {
        self.erased_through
    }

    /// Start of a download: arm per-page lazy erase (nothing is erased here,
    /// so the initiate can be acknowledged promptly).
    pub fn erase(&mut self) -> (r: Result<(), ()>)
        ensures
            final(self).wf(),
            final(self).spec_erased_through() is None,
            r is Ok,
    {
        self.erased_through = None;
        Ok(())
    }

    /// The next step of programming `len` bytes at image offset `offset`:
    /// erase the first not-yet-erased page if the segment reaches it,
    /// otherwise program at the flash offset of `offset`.
    pub fn write_step(&self, offset: u32, len: u32) -> (r: WriteStep)
        requires
            self.wf(),
            segment_fits(offset, len),
        ensures
            len > 0 && self.next_page() <= last_page(offset, len) ==> r == (WriteStep::Erase {
                page: self.next_page() as u32,
                from: (APP_FLASH_OFFSET + self.next_page() * PAGE_SIZE) as u32,
                to: (APP_FLASH_OFFSET + (self.next_page() + 1) * PAGE_SIZE) as u32,
            }),
            !(len > 0 && self.next_page() <= last_page(offset, len)) ==> r == (WriteStep::Program {
                at: (APP_FLASH_OFFSET + offset) as u32,
            }),
            r matches WriteStep::Erase { page, .. } ==> page <= MAX_PAGE,
            r matches WriteStep::Erase { page, .. } ==> segment_erases(self.next_page(), offset, len)
                == seq![page as int] + segment_erases(page + 1, offset, len),
            r is Program ==> segment_erases(self.next_page(), offset, len) == Seq::<int>::empty()
                && next_after(self.next_page(), offset, len) == self.next_page(),
    {
        if len > 0 {
            let last = (offset + len - 1) / PAGE_SIZE;
            let page = match self.erased_through {
                Some(p) => p + 1,
                None => 0,
            };
            if page <= last {
                let from = APP_FLASH_OFFSET + page * PAGE_SIZE;
                return WriteStep::Erase { page, from, to: from + PAGE_SIZE };
            }
        }
        WriteStep::Program { at: APP_FLASH_OFFSET + offset }
    }

    /// Record that `page`, the first not-yet-erased page, is now erased.
    pub fn mark_erased(&mut self, page: u32)
        requires
            old(self).wf(),
            page == old(self).next_page(),
            page <= MAX_PAGE,
        ensures
            final(self).wf(),
            final(self).spec_erased_through() == Some(page),
    {
        self.erased_through = Some(page);
    }

    /// The 32-byte record to stamp into the meta page once `total_len` bytes
    /// have been downloaded, given the app region read back from flash: its
    /// CRC covers exactly `total_len` bytes (not the stream's trailing pad).
    pub fn finalize(region: &[u8], total_len: u32) -> (r: [u8; 32])
        requires
            total_len <= region@.len(),
        ensures
            ({
                let m = AppMeta::spec_from_bytes(r@);
                &&& m.magic == APP_META_MAGIC
                &&& m.crc32 == spec_crc32(region@.take(total_len as int))
                &&& m.length == total_len
                &&& m.fw_version == 0
                &&& m.meta_version == APP_META_VERSION
                &&& m._reserved == 0
            }),
            r@ == AppMeta::for_image_spec(region@, total_len).spec_bytes(),
    {
        let meta = AppMeta::for_image(region, total_len);
        proof {
            crate::app_meta::lemma_bytes_roundtrip(meta);
        }
        meta.to_bytes()
    }

    /// Flash offsets `from..to` erased before stamping the record: the meta
    /// page is not part of the app region's lazy erase.
    pub fn meta_erase_range() -> (r: (u32, u32))
        ensures
            r == (META_FLASH_OFFSET, (META_FLASH_OFFSET + AppMeta::SIZE) as u32),
    {
        (META_FLASH_OFFSET, META_FLASH_OFFSET + AppMeta::SIZE as u32)
    }
}

/// Lazy erase covers every page a segment touches, in order, exactly once:
/// from any bookkeeping state, erasing the page each step names and recording
/// it advances the first unerased page by one, and the step turns into
/// programming exactly when every page up to the segment's last is erased.
pub proof fn lemma_lazy_erase_covers_segment(b: FlashBackend, offset: u32, len: u32)
    requires
        b.wf(),
        segment_fits(offset, len),
        len > 0,
    ensures
        b.next_page() > last_page(offset, len) ==> (b.spec_erased_through() matches Some(p) && p
            >= last_page(offset, len)),
        b.next_page() <= last_page(offset, len) ==> b.next_page() <= MAX_PAGE,
{
}


/// The pages a segment of `len` bytes at `offset` erases when `next` is the
/// first unerased page: [`FlashBackend::write_step`] names `next` while the
/// segment reaches it, and recording it moves `next` on by one.
pub open spec fn segment_erases(next: int, offset: u32, len: u32) -> Seq<int>
    decreases last_page(offset, len) + 1 - next,
{
    if len > 0 && next <= last_page(offset, len) {
        seq![next] + segment_erases(next + 1, offset, len)
    } else {
        Seq::empty()
    }
}

/// The first unerased page after a segment of `len` bytes at `offset` has
/// been programmed, starting from `next`.
pub open spec fn next_after(next: int, offset: u32, len: u32) -> int {
    if len > 0 && next <= last_page(offset, len) {
        last_page(offset, len) + 1
    } else {
        next
    }
}

/// The pages erased, in order, while programming the segments `segs`
/// (`(offset, len)` each) one after another from first unerased page
/// `next`, and the first unerased page afterwards.
pub open spec fn run_segments(next: int, segs: Seq<(u32, u32)>) -> (Seq<int>, int)
    decreases segs.len(),
{
    if segs.len() == 0 {
        (Seq::empty(), next)
    } else {
        let rest = run_segments(next_after(next, segs[0].0, segs[0].1), segs.drop_first());
        (segment_erases(next, segs[0].0, segs[0].1) + rest.0, rest.1)
    }
}

/// One segment erases the pages from `next` on, one by one, up to the
/// first page it does not reach.
proof fn lemma_segment_erases(next: int, offset: u32, len: u32)
    ensures
        next_after(next, offset, len) >= next,
        segment_erases(next, offset, len) =~= Seq::new(
            (next_after(next, offset, len) - next) as nat,
            |i: int| next + i,
        ),
    decreases last_page(offset, len) + 1 - next,
{
    if len > 0 && next <= last_page(offset, len) {
        lemma_segment_erases(next + 1, offset, len);
        assert(segment_erases(next, offset, len) =~= Seq::new(
            (next_after(next, offset, len) - next) as nat,
            |i: int| next + i,
        ));
    }
}

/// Programming segments one after another erases the pages from `next` on,
/// each once, in increasing order; the last page erased is the last page
/// some segment reaches.
proof fn lemma_run_segments(next: int, segs: Seq<(u32, u32)>)
    ensures
        run_segments(next, segs).1 >= next,
        run_segments(next, segs).0 =~= Seq::new(
            (run_segments(next, segs).1 - next) as nat,
            |i: int| next + i,
        ),
        run_segments(next, segs).1 == next || exists|k: int|
            0 <= k < segs.len() && segs[k].1 > 0 && #[trigger] last_page(segs[k].0, segs[k].1)
                == run_segments(next, segs).1 - 1,
        forall|k: int|
            0 <= k < segs.len() && segs[k].1 > 0 ==> #[trigger] last_page(segs[k].0, segs[k].1)
                < run_segments(next, segs).1,
    decreases segs.len(),
{
    if segs.len() > 0 {
        let n1 = next_after(next, segs[0].0, segs[0].1);
        let tail = segs.drop_first();
        lemma_segment_erases(next, segs[0].0, segs[0].1);
        lemma_run_segments(n1, tail);
        let r = run_segments(next, segs);
        assert(r.0 =~= Seq::new((r.1 - next) as nat, |i: int| next + i));
        assert forall|k: int|
            0 <= k < segs.len() && segs[k].1 > 0 implies #[trigger] last_page(segs[k].0, segs[k].1)
            < r.1 by {
            if k > 0 {
                assert(segs[k] == tail[k - 1]);
            }
        }
        if r.1 != next {
            if r.1 == n1 {
                assert(last_page(segs[0].0, segs[0].1) == r.1 - 1);
            } else {
                let k = choose|k: int|
                    0 <= k < tail.len() && tail[k].1 > 0 && #[trigger] last_page(tail[k].0, tail[k].1)
                        == run_segments(n1, tail).1 - 1;
                assert(segs[k + 1] == tail[k]);
            }
        }
    }
}

/// Lazy erase across a whole download: programming segments `segs` one
/// after another, from nothing erased, erases pages `0, 1, 2, …` each exactly
/// once and in increasing order, up to the last page any segment reaches and
/// no further; and when segment `k` is programmed, every page it reaches has
/// already been erased (it lies below the first unerased page once the
/// segments up to `k` have been handled, and the pages erased by then are
/// exactly those below it).
pub proof fn lemma_download_erases_each_page_once(segs: Seq<(u32, u32)>)
    ensures
        run_segments(0, segs).0 =~= Seq::new(run_segments(0, segs).1 as nat, |p: int| p),
        run_segments(0, segs).1 == 0 || exists|k: int|
            0 <= k < segs.len() && segs[k].1 > 0 && #[trigger] last_page(segs[k].0, segs[k].1)
                == run_segments(0, segs).1 - 1,
        forall|k: int|
            0 <= k < segs.len() && segs[k].1 > 0 ==> {
                &&& run_segments(0, #[trigger] segs.take(k + 1)).0 =~= Seq::new(
                    run_segments(0, segs.take(k + 1)).1 as nat,
                    |p: int| p,
                )
                &&& last_page(segs[k].0, segs[k].1) < run_segments(0, segs.take(k + 1)).1
            },
{
    lemma_run_segments(0, segs);
    assert forall|k: int|
        0 <= k < segs.len() && segs[k].1 > 0 implies {
            &&& run_segments(0, #[trigger] segs.take(k + 1)).0 =~= Seq::new(
                run_segments(0, segs.take(k + 1)).1 as nat,
                |p: int| p,
            )
            &&& last_page(segs[k].0, segs[k].1) < run_segments(0, segs.take(k + 1)).1
        } by {
        let pre = segs.take(k + 1);
        lemma_run_segments(0, pre);
        assert(pre[k] == segs[k]);
    }
}

} // verus!
