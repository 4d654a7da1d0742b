//! Where the windows of a reel are shown in one frame.

use vstd::prelude::*;
use std::collections::HashSet;

use crate::focus_reel::ReelView;
use crate::id_list::lemma_contains_last;
use crate::reel_geometry::ReelSide;
use crate::scroll::Offset;
use crate::types::{fits_i32, larger, max_i32, min_i32, smaller, Rect, WindowId};

verus! {

/// The continuous offset of one frame, worked out row by row by the embedding
/// program.
///
/// `drops[k]` is how many pixels the row with ordinal `base - 1 + k` lies below
/// the top of the reel band: `(ordinal - offset) * slot_height`, rounded. There
/// is one row above the first visible one and two below the last.
#[derive(Debug, Clone)]
pub struct ReelFrame {
    /// The offset rendered in this frame.
    pub offset: Offset,
    /// The offset rounded down.
    pub base: i64,
    /// Pixel distance of each row from the top of the band.
    pub drops: Vec<i32>,
}

/// One visible reel slot and the window currently occupying it.
#[derive(Debug, Clone, Copy, PartialEq, Eq, Structural)]
pub struct ReelSlotView {
    /// Window shown in this slot.
    pub window_id: WindowId,
    /// Ring ordinal of the item (`i` in `y_i = top + (i - reel_offset) * h`).
    /// Can be negative while entries scroll in from above.
    pub slot: i64,
    /// Destination rect for the thumbnail.
    pub rect: Rect,
    /// Whether the slot lies entirely inside the reel band.
    pub fully_visible: bool,
}

/// Resolved layout for one frame.
#[derive(Debug, Clone, PartialEq)]
pub struct ReelLayout {
    /// The focused window and its main rect.
    pub focus: Option<(WindowId, Rect)>,
    /// Resolved main rect (independent of whether a focus window exists).
    pub main_rect: Rect,
    /// Visible reel slots in top-to-bottom order.
    pub slots: Vec<ReelSlotView>,
    /// Ring members not currently visible in the reel band.
    pub hidden: Vec<WindowId>,
    /// Layout side used for this frame.
    pub side: ReelSide,
    /// Continuous reel offset used for this frame.
    pub offset: Offset,
    /// Full reel column footprint: slot width × the whole reel band.
    /// Used for click interception and for rendering a background strip.
    pub column_rect: Rect,
}

/// The value of a [`ReelLayout`].
#[verifier::ext_equal]
pub struct LayoutView {
    pub focus: Option<(WindowId, Rect)>,
    pub main_rect: Rect,
    pub slots: Seq<ReelSlotView>,
    pub hidden: Seq<WindowId>,
    pub side: ReelSide,
    pub offset: Offset,
    pub column_rect: Rect,
}

impl View for ReelLayout {
    type V = LayoutView;

    open spec fn view(&self) -> LayoutView {
        LayoutView {
            focus: self.focus,
            main_rect: self.main_rect,
            slots: self.slots@,
            hidden: self.hidden@,
            side: self.side,
            offset: self.offset,
            column_rect: self.column_rect,
        }
    }
}

impl ReelSlotView {
    /// First row of the slot inside the band.
    pub open spec fn clipped_top(self, band: Rect) -> int {
        larger(self.rect.y as int, band.y as int)
    }

    /// One past the last row of the slot inside the band.
    pub open spec fn clipped_bottom(self, band: Rect) -> int {
        smaller(self.rect.end_y(), band.end_y())
    }

    /// Whether a point lies on the part of the slot inside the band.
    pub open spec fn covers(self, band: Rect, x: i32, y: i32) -> bool {
        &&& self.rect.x <= x < self.rect.end_x()
        &&& self.clipped_top(band) <= y < self.clipped_bottom(band)
    }
}

/// The windows shown in the slots.
pub open spec fn shown_ids(slots: Seq<ReelSlotView>) -> Seq<WindowId> {
    Seq::new(slots.len(), |i: int| slots[i].window_id)
}

/// The first slot with the given ordinal.
pub open spec fn slot_numbered(slots: Seq<ReelSlotView>, slot: i64) -> Option<WindowId>
    decreases slots.len(),
{
    if slots.len() == 0 {
        None
    } else if slots[0].slot == slot {
        Some(slots[0].window_id)
    } else {
        slot_numbered(slots.skip(1), slot)
    }
}

/// The first slot that covers a point: its ordinal and window.
pub open spec fn slot_under(slots: Seq<ReelSlotView>, band: Rect, x: i32, y: i32) -> Option<
    (i64, WindowId),
>
    decreases slots.len(),
{
    if slots.len() == 0 {
        None
    } else if slots[0].covers(band, x, y) {
        Some((slots[0].slot, slots[0].window_id))
    } else {
        slot_under(slots.skip(1), band, x, y)
    }
}

/// First row covered by any slot inside the band.
pub open spec fn covered_top(slots: Seq<ReelSlotView>, band: Rect) -> int
    decreases slots.len(),
{
    if slots.len() == 0 {
        i32::MAX as int
    } else {
        smaller(covered_top(slots.drop_last(), band), slots.last().clipped_top(band))
    }
}

/// One past the last row covered by any slot inside the band.
pub open spec fn covered_bottom(slots: Seq<ReelSlotView>, band: Rect) -> int
    decreases slots.len(),
{
    if slots.len() == 0 {
        i32::MIN as int
    } else {
        larger(covered_bottom(slots.drop_last(), band), slots.last().clipped_bottom(band))
    }
}

impl LayoutView {
    /// The part of the column between the first and the last covered row.
    pub open spec fn region(self) -> Option<Rect> {
        let top = covered_top(self.slots, self.column_rect);
        let bottom = covered_bottom(self.slots, self.column_rect);
        if top < bottom {
            Some(
                Rect {
                    x: self.column_rect.x,
                    y: top as i32,
                    width: self.column_rect.width,
                    height: (bottom - top) as i32,
                },
            )
        } else {
            None
        }
    }

    /// The rows of the region can be computed.
    pub open spec fn region_fits(self) -> bool {
        let top = covered_top(self.slots, self.column_rect);
        let bottom = covered_bottom(self.slots, self.column_rect);
        &&& fits_i32(self.column_rect.end_y())
        &&& forall|i: int|
            0 <= i < self.slots.len() ==> fits_i32((#[trigger] self.slots[i]).rect.end_y())
        &&& top < bottom ==> fits_i32(bottom - top)
    }
}

impl ReelLayout {
    /// The window occupying the given visual slot, if any.
    pub fn window_at_slot(&self, slot: i64) -> (r: Option<WindowId>)
        ensures
            r == slot_numbered(self@.slots, slot),
    {
        let mut i: usize = 0;
        assert(self.slots@.skip(0) =~= self.slots@);
        while i < self.slots.len()
            invariant
                0 <= i <= self.slots@.len(),
                slot_numbered(self.slots@, slot) == slot_numbered(self.slots@.skip(i as int), slot),
            decreases self.slots@.len() - i,
        {
            if self.slots[i].slot == slot {
                return Some(self.slots[i].window_id);
            }
            assert(self.slots@.skip(i as int).skip(1) =~= self.slots@.skip(i + 1));
            i = i + 1;
        }
        None
    }

    /// Screen-space region actually covered by rendered slots, clipped to the
    /// reel band. `None` when nothing is rendered.
    ///
    /// Used for click interception so the blank part of a partially-filled
    /// reel column passes through instead of swallowing clicks.
    pub fn rendered_region(&self) -> (r: Option<Rect>)
        requires
            self@.region_fits(),
        ensures
            r == self@.region(),
    {
        let band_top: i32 = self.column_rect.y;
        let band_bottom: i32 = self.column_rect.bottom();
        let mut top: i32 = i32::MAX;
        let mut bottom: i32 = i32::MIN;
        let mut i: usize = 0;
        while i < self.slots.len()
            invariant
                0 <= i <= self.slots@.len(),
                self@.region_fits(),
                band_top == self.column_rect.y,
                band_bottom == self.column_rect.end_y(),
                top == covered_top(self.slots@.take(i as int), self.column_rect),
                bottom == covered_bottom(self.slots@.take(i as int), self.column_rect),
            decreases self.slots@.len() - i,
        {
            assert(self.slots@.take(i + 1).drop_last() =~= self.slots@.take(i as int));
            assert(self@.slots[i as int] == self.slots@[i as int]);
            let rect = self.slots[i].rect;
            top = min_i32(top, max_i32(rect.y, band_top));
            bottom = max_i32(bottom, min_i32(rect.bottom(), band_bottom));
            i = i + 1;
        }
        assert(self.slots@.take(i as int) =~= self.slots@);
        if top < bottom {
            Some(Rect::new(self.column_rect.x, top, self.column_rect.width, bottom - top))
        } else {
            None
        }
    }

    /// The slot rendered under a screen point: its ordinal and window.
    pub fn slot_at(&self, x: i32, y: i32) -> (r: Option<(i64, WindowId)>)
        requires
            fits_i32(self.column_rect.end_y()),
            forall|i: int|
                0 <= i < self.slots@.len() ==> fits_i32((#[trigger] self.slots@[i]).rect.end_x())
                    && fits_i32(self.slots@[i].rect.end_y()),
        ensures
            r == slot_under(self@.slots, self@.column_rect, x, y),
    {
        let band = self.column_rect;
        let band_bottom: i32 = band.bottom();
        let mut i: usize = 0;
        assert(self.slots@.skip(0) =~= self.slots@);
        while i < self.slots.len()
            invariant
                0 <= i <= self.slots@.len(),
                band == self.column_rect,
                band_bottom == band.end_y(),
                forall|j: int|
                    0 <= j < self.slots@.len() ==> fits_i32(
                        (#[trigger] self.slots@[j]).rect.end_x(),
                    ) && fits_i32(self.slots@[j].rect.end_y()),
                slot_under(self.slots@, band, x, y) == slot_under(
                    self.slots@.skip(i as int),
                    band,
                    x,
                    y,
                ),
            decreases self.slots@.len() - i,
        {
            let slot = self.slots[i];
            assert(slot == self.slots@[i as int]);
            let clipped_top: i32 = max_i32(slot.rect.y, band.y);
            let clipped_bottom: i32 = min_i32(slot.rect.bottom(), band_bottom);
            if x >= slot.rect.x && x < slot.rect.right() && y >= clipped_top && y < clipped_bottom {
                return Some((slot.slot, slot.window_id));
            }
            assert(self.slots@.skip(i as int).skip(1) =~= self.slots@.skip(i + 1));
            i = i + 1;
        }
        None
    }
}

impl ReelView {
    /// How many rows a frame covers.
    pub open spec fn row_count(self) -> int {
        self.geometry.clean().visible_slots + 3
    }

    /// Content height of a slot: it gives up the gap to the next one.
    pub open spec fn content_rise(self, viewport: Rect) -> int {
        let g = self.geometry.clean();
        larger(g.slot_rise(viewport) - g.gap, 1)
    }

    /// Top edge of row `k`.
    pub open spec fn row_top(self, viewport: Rect, frame: ReelFrame, k: int) -> int {
        viewport.y + self.geometry.clean().top_inset + frame.drops@[k]
    }

    /// Ring position shown by row `k`.
    pub open spec fn row_place(self, frame: ReelFrame, k: int) -> int {
        self.ring_place(frame.base - 1 + k)
    }

    /// How far below the top of the band the visible slots reach at rest.
    pub open spec fn reach(self, viewport: Rect) -> int {
        let g = self.geometry.clean();
        g.visible_slots * g.slot_rise(viewport)
    }

    /// Whether any of row `k` lies inside the band, and its top within the
    /// visible slots.
    pub open spec fn row_in_band(self, viewport: Rect, frame: ReelFrame, k: int) -> bool {
        let band = self.geometry.clean().band(viewport);
        let top = self.row_top(viewport, frame, k);
        &&& top + self.content_rise(viewport) > band.y
        &&& top < band.end_y()
        &&& top < band.y + self.reach(viewport)
    }

    /// Whether row `k` is shown: inside the band and the first row there of its
    /// ring member.
    pub open spec fn row_shown(self, viewport: Rect, frame: ReelFrame, k: int) -> bool {
        &&& self.row_in_band(viewport, frame, k)
        &&& forall|j: int|
            0 <= j < k && #[trigger] self.row_in_band(viewport, frame, j) ==> self.row_place(
                frame,
                j,
            ) != self.row_place(frame, k)
    }

    /// The slot of row `k`.
    pub open spec fn row_slot(self, viewport: Rect, frame: ReelFrame, k: int) -> ReelSlotView {
        let g = self.geometry.clean();
        let band = g.band(viewport);
        let top = self.row_top(viewport, frame, k);
        let rise = self.content_rise(viewport);
        ReelSlotView {
            window_id: self.ring[self.row_place(frame, k)],
            slot: (frame.base - 1 + k) as i64,
            rect: Rect {
                x: g.reel_start(viewport, self.side) as i32,
                y: top as i32,
                width: g.slot_extent() as i32,
                height: rise as i32,
            },
            fully_visible: top >= band.y && top + rise <= band.end_y(),
        }
    }

    /// The slots of those of the first `k` rows that are shown.
    pub open spec fn slots_upto(self, viewport: Rect, frame: ReelFrame, k: nat) -> Seq<ReelSlotView>
        decreases k,
    {
        if k == 0 {
            Seq::empty()
        } else {
            let above = self.slots_upto(viewport, frame, (k - 1) as nat);
            if self.row_shown(viewport, frame, k - 1) {
                above.push(self.row_slot(viewport, frame, k - 1))
            } else {
                above
            }
        }
    }

    /// The main rect.
    pub open spec fn main_rect(self, viewport: Rect) -> Rect {
        let g = self.geometry.clean();
        Rect {
            x: g.focus_start(viewport, self.side) as i32,
            y: g.band(viewport).y,
            width: g.focus_extent(viewport) as i32,
            height: g.focus_rise(viewport) as i32,
        }
    }

    /// The reel column.
    pub open spec fn column(self, viewport: Rect) -> Rect {
        let g = self.geometry.clean();
        Rect {
            x: g.reel_start(viewport, self.side) as i32,
            y: g.band(viewport).y,
            width: g.slot_extent() as i32,
            height: g.band(viewport).height,
        }
    }

    /// The slots of a frame.
    pub open spec fn frame_slots(self, viewport: Rect, frame: ReelFrame) -> Seq<ReelSlotView> {
        if self.ring.len() == 0 {
            Seq::empty()
        } else {
            self.slots_upto(viewport, frame, self.row_count() as nat)
        }
    }

    /// The layout of a frame.
    pub open spec fn arranged(self, viewport: Rect, frame: ReelFrame) -> LayoutView {
        let slots = self.frame_slots(viewport, frame);
        LayoutView {
            focus: match self.focus {
                Some(id) => Some((id, self.main_rect(viewport))),
                None => None,
            },
            main_rect: self.main_rect(viewport),
            slots,
            hidden: self.ring.filter(|id: WindowId| !shown_ids(slots).contains(id)),
            side: self.side,
            offset: frame.offset,
            column_rect: self.column(viewport),
        }
    }

    /// The layout of a frame can be computed.
    pub open spec fn frame_fits(self, viewport: Rect, frame: ReelFrame) -> bool {
        let g = self.geometry.clean();
        &&& g.sides_fit(viewport, self.side)
        &&& g.band_fits(viewport)
        &&& g.slot_rise_fits(viewport)
        &&& self.ring.len() > 0 ==> {
            &&& frame.drops@.len() == self.row_count()
            &&& self.row_count() <= i64::MAX
            &&& i64::MIN < frame.base
            &&& frame.base - 1 + self.row_count() <= i64::MAX
            &&& fits_i32(g.band(viewport).end_y())
            &&& forall|k: int|
                0 <= k < self.row_count() ==> fits_i32(#[trigger] self.row_top(viewport, frame, k))
                    && fits_i32(self.row_top(viewport, frame, k) + self.content_rise(viewport))
        }
    }

    /// The far edges of the column can be computed.
    pub open spec fn column_fits(self, viewport: Rect) -> bool {
        let g = self.geometry.clean();
        &&& fits_i32(g.reel_start(viewport, self.side) + g.slot_extent())
        &&& fits_i32(g.band(viewport).end_y())
    }

    /// The slot a point of the frame lies on: its ordinal and window.
    pub open spec fn hit(self, viewport: Rect, frame: ReelFrame, x: i32, y: i32) -> Option<
        (i64, WindowId),
    > {
        slot_under(self.frame_slots(viewport, frame), self.column(viewport), x, y)
    }
}

/// The windows shown in the slots.
pub fn ids_shown(slots: &Vec<ReelSlotView>) -> (r: HashSet<WindowId>)
    ensures
        r@ == shown_ids(slots@).to_set(),
{
    broadcast use vstd::std_specs::hash::group_hash_axioms;

    let mut ids: HashSet<WindowId> = HashSet::new();
    let mut i: usize = 0;
    assert(ids@ =~= shown_ids(slots@.take(0)).to_set());
    while i < slots.len()
        invariant
            0 <= i <= slots@.len(),
            ids@ == shown_ids(slots@.take(i as int)).to_set(),
        decreases slots@.len() - i,
    {
        broadcast use vstd::std_specs::hash::group_hash_axioms;

        let ghost before = shown_ids(slots@.take(i as int));
        let ghost after = shown_ids(slots@.take(i + 1));
        let id: WindowId = slots[i].window_id;
        ids.insert(id);
        assert(after =~= before.push(id));
        assert(ids@ =~= after.to_set()) by {
            assert forall|x: WindowId| after.contains(x) == (before.contains(x) || x == id) by {
                lemma_contains_last(after, x);
                assert(after.drop_last() =~= before);
            }
        }
        i = i + 1;
    }
    assert(slots@.take(i as int) =~= slots@);
    ids
}

/// Every slot shows one of the rows.
pub proof fn lemma_slot_row(
    reel: ReelView,
    viewport: Rect,
    frame: ReelFrame,
    rows: nat,
    i: int,
) -> (k: int)
    requires
        0 <= i < reel.slots_upto(viewport, frame, rows).len(),
    ensures
        0 <= k < rows,
        reel.row_shown(viewport, frame, k),
        reel.slots_upto(viewport, frame, rows)[i] == reel.row_slot(viewport, frame, k),
        i == reel.slots_upto(viewport, frame, k as nat).len(),
    decreases rows,
{
    let above = reel.slots_upto(viewport, frame, (rows - 1) as nat);
    if i < above.len() {
        lemma_slot_row(reel, viewport, frame, (rows - 1) as nat, i)
    } else {
        rows - 1
    }
}

/// The region of a frame that can be computed can be computed too.
pub proof fn lemma_region_fits(reel: ReelView, viewport: Rect, frame: ReelFrame)
    requires
        reel.frame_fits(viewport, frame),
        reel.column_fits(viewport),
    ensures
        reel.arranged(viewport, frame).region_fits(),
{
    let slots = reel.frame_slots(viewport, frame);
    let column = reel.column(viewport);
    let g = reel.geometry.clean();
    assert(g.clean() == g);
    assert forall|i: int| 0 <= i < slots.len() implies fits_i32(
        (#[trigger] slots[i]).rect.end_y(),
    ) by {
        let k = lemma_slot_row(reel, viewport, frame, reel.row_count() as nat, i);
        assert(fits_i32(reel.row_top(viewport, frame, k)));
    }
    lemma_covered_within(slots, column);
}

/// The covered rows lie inside the band.
proof fn lemma_covered_within(slots: Seq<ReelSlotView>, band: Rect)
    requires
        fits_i32(band.end_y()),
    ensures
        covered_top(slots, band) >= band.y,
        covered_bottom(slots, band) <= band.end_y(),
    decreases slots.len(),
{
    if slots.len() > 0 {
        lemma_covered_within(slots.drop_last(), band);
    }
}

} // verus!
