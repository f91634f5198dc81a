//! Image attachments of messages as the list keeps them: where each stands
//! in loading, and which ones to load or to let go of around the rows on
//! screen.

use vstd::prelude::*;
use crate::entities::copy_str;

verus! {

/// Rows above and below the visible ones whose images are kept ready to draw.
pub const LOAD_BUFFER: usize = 5;

/// The tallest an image is drawn, in rows.
pub const MAX_IMAGE_HEIGHT: u16 = 20;

/// Where an image stands in loading.
#[derive(Debug, Clone, PartialEq, Eq)]
pub enum ImageStatus {
    NotStarted,
    Downloading,
    Ready,
    Failed(String),
}

/// An image attachment: its id and address, where it stands in loading,
/// whether its picture is in memory, and whether a drawing of it is ready.
pub struct ImageSlot {
    pub id: String,
    pub url: String,
    pub status: ImageStatus,
    pub has_image: bool,
    pub has_protocol: bool,
}

/// An image slot as values.
pub struct ImageSlotView {
    pub id: Seq<char>,
    pub url: Seq<char>,
    pub status: ImageStatus,
    pub has_image: bool,
    pub has_protocol: bool,
}

impl View for ImageSlot {
    type V = ImageSlotView;

    open spec fn view(&self) -> ImageSlotView {
        ImageSlotView {
            id: self.id@,
            url: self.url@,
            status: self.status,
            has_image: self.has_image,
            has_protocol: self.has_protocol,
        }
    }
}

/// The views of a list of slots.
pub open spec fn slots_view(v: Seq<ImageSlot>) -> Seq<ImageSlotView> {
    v.map_values(|s: ImageSlot| s@)
}

impl ImageSlot {
    /// An image not yet asked for.
    pub fn new(id: String, url: String) -> (s: ImageSlot)
        ensures
            s@ == (ImageSlotView { id: id@, url: url@, status: ImageStatus::NotStarted, has_image: false, has_protocol: false }),
    {
        ImageSlot { id, url, status: ImageStatus::NotStarted, has_image: false, has_protocol: false }
    }

    /// The download started.
    pub fn set_downloading(&mut self)
        ensures
            final(self)@ == (ImageSlotView { status: ImageStatus::Downloading, ..old(self)@ }),
    {
        self.status = ImageStatus::Downloading;
    }

    /// The download failed.
    pub fn set_failed(&mut self, error: String)
        ensures
            final(self)@ == (ImageSlotView { status: ImageStatus::Failed(error), ..old(self)@ }),
    {
        self.status = ImageStatus::Failed(error);
    }

    /// The picture arrived: it is in memory and ready, and any drawing of
    /// an earlier picture is dropped.
    pub fn set_loaded(&mut self)
        ensures
            final(self)@ == (ImageSlotView {
                status: ImageStatus::Ready,
                has_image: true,
                has_protocol: false,
                ..old(self)@
            }),
    {
        self.status = ImageStatus::Ready;
        self.has_image = true;
        self.has_protocol = false;
    }

    /// The drawing is dropped.
    pub fn clear_protocol(&mut self)
        ensures
            final(self)@ == (ImageSlotView { has_protocol: false, ..old(self)@ }),
    {
        self.has_protocol = false;
    }

    /// The picture is in memory and ready.
    pub fn is_ready(&self) -> (b: bool)
        ensures
            b == (self@.has_image && self@.status == ImageStatus::Ready),
    {
        self.has_image && match self.status {
            ImageStatus::Ready => true,
            _ => false,
        }
    }

    /// The picture is being downloaded.
    pub fn is_loading(&self) -> (b: bool)
        ensures
            b == (self@.status == ImageStatus::Downloading),
    {
        match self.status {
            ImageStatus::Downloading => true,
            _ => false,
        }
    }

    /// The picture has not been asked for yet.
    pub fn needs_load(&self) -> (b: bool)
        ensures
            b == (self@.status == ImageStatus::NotStarted),
    {
        match self.status {
            ImageStatus::NotStarted => true,
            _ => false,
        }
    }

    /// The download failed.
    pub fn is_failed(&self) -> (b: bool)
        ensures
            b == (self@.status is Failed),
    {
        match self.status {
            ImageStatus::Failed(_) => true,
            _ => false,
        }
    }
}

/// The rows whose images are loaded and drawn: the visible ones and
/// `LOAD_BUFFER` more on each side.
pub open spec fn in_load_range(idx: int, visible_start: int, visible_end: int) -> bool {
    let start = if visible_start >= LOAD_BUFFER { visible_start - LOAD_BUFFER } else { 0 };
    start <= idx <= visible_end + LOAD_BUFFER
}

/// The rows whose pictures stay in memory: the visible ones and three times
/// `LOAD_BUFFER` more on each side.
pub open spec fn in_memory_range(idx: int, visible_start: int, visible_end: int) -> bool {
    let start = if visible_start >= 3 * LOAD_BUFFER { visible_start - 3 * LOAD_BUFFER } else { 0 };
    start <= idx <= visible_end + 3 * LOAD_BUFFER
}

/// The ids and addresses of the images near the visible rows that have not
/// been asked for, in order.
pub open spec fn spec_needed_loads(slots: Seq<ImageSlotView>, visible_start: int, visible_end: int, n: int) -> Seq<(Seq<char>, Seq<char>)>
    decreases n,
{
    if n <= 0 {
        seq![]
    } else {
        let rest = spec_needed_loads(slots, visible_start, visible_end, n - 1);
        let s = slots[n - 1];
        if in_load_range(n - 1, visible_start, visible_end) && s.status == ImageStatus::NotStarted {
            rest.push((s.id, s.url))
        } else {
            rest
        }
    }
}

/// The images to ask for: those near the visible rows that have not been
/// asked for yet.
pub fn collect_needed_loads(attachments: &Vec<ImageSlot>, visible_start: usize, visible_end: usize) -> (r: Vec<(String, String)>)
    requires
        visible_end + LOAD_BUFFER <= usize::MAX,
    ensures
        r@.map_values(|p: (String, String)| (p.0@, p.1@)) == spec_needed_loads(
            slots_view(attachments@),
            visible_start as int,
            visible_end as int,
            attachments@.len() as int,
        ),
{
    let buffer_start = visible_start.saturating_sub(LOAD_BUFFER);
    let buffer_end = visible_end + LOAD_BUFFER;
    let mut r: Vec<(String, String)> = Vec::new();
    let mut i: usize = 0;
    while i < attachments.len()
        invariant
            i <= attachments@.len(),
            buffer_start == (if visible_start >= LOAD_BUFFER { visible_start - LOAD_BUFFER } else { 0 }),
            buffer_end == visible_end + LOAD_BUFFER,
            r@.map_values(|p: (String, String)| (p.0@, p.1@)) == spec_needed_loads(
                slots_view(attachments@),
                visible_start as int,
                visible_end as int,
                i as int,
            ),
        decreases attachments.len() - i,
    {
        let a = &attachments[i];
        assert(slots_view(attachments@)[i as int] == a@);
        if i >= buffer_start && i <= buffer_end && a.needs_load() {
            let ghost before = r@;
            r.push((copy_str(a.id.as_str()), copy_str(a.url.as_str())));
            assert(r@.map_values(|p: (String, String)| (p.0@, p.1@)) =~= before.map_values(
                |p: (String, String)| (p.0@, p.1@),
            ).push((a.id@, a.url@)));
        }
        i = i + 1;
    }
    r
}

/// A slot after letting go of what is far from the visible rows: its drawing
/// when outside the load range, its picture when outside the memory range (a
/// ready picture then counts as not asked for).
pub open spec fn spec_let_go(s: ImageSlotView, idx: int, visible_start: int, visible_end: int) -> ImageSlotView {
    let s1 = if !in_load_range(idx, visible_start, visible_end) {
        ImageSlotView { has_protocol: false, ..s }
    } else {
        s
    };
    if !in_memory_range(idx, visible_start, visible_end) && s1.has_image {
        ImageSlotView {
            has_image: false,
            status: if s1.status == ImageStatus::Ready { ImageStatus::NotStarted } else { s1.status },
            ..s1
        }
    } else {
        s1
    }
}

/// Lets go of the drawings and pictures far from the visible rows.
pub fn clear_distant_protocols(attachments: &mut Vec<ImageSlot>, visible_start: usize, visible_end: usize)
    requires
        visible_end + 3 * LOAD_BUFFER <= usize::MAX,
    ensures
        final(attachments)@.len() == old(attachments)@.len(),
        forall|i: int|
            0 <= i < final(attachments)@.len() ==> (#[trigger] final(attachments)@[i])@ == spec_let_go(
                old(attachments)@[i]@,
                i,
                visible_start as int,
                visible_end as int,
            ),
{
    let buffer_start = visible_start.saturating_sub(LOAD_BUFFER);
    let buffer_end = visible_end + LOAD_BUFFER;
    let memory_buffer = LOAD_BUFFER * 3;
    let memory_start = visible_start.saturating_sub(memory_buffer);
    let memory_end = visible_end + memory_buffer;
    let ghost before = attachments@;
    let mut i: usize = 0;
    while i < attachments.len()
        invariant
            i <= attachments@.len(),
            attachments@.len() == before.len(),
            buffer_start == (if visible_start >= LOAD_BUFFER { visible_start - LOAD_BUFFER } else { 0 }),
            buffer_end == visible_end + LOAD_BUFFER,
            memory_start == (if visible_start >= 3 * LOAD_BUFFER { visible_start - 3 * LOAD_BUFFER } else { 0 }),
            memory_end == visible_end + 3 * LOAD_BUFFER,
            forall|k: int| 0 <= k < i ==> (#[trigger] attachments@[k])@ == spec_let_go(
                before[k]@,
                k,
                visible_start as int,
                visible_end as int,
            ),
            forall|k: int| i <= k < attachments@.len() ==> #[trigger] attachments@[k] == before[k],
        decreases attachments.len() - i,
    {
        let mut slot = attachments.remove(i);
        let ghost orig = slot@;
        if i < buffer_start || i > buffer_end {
            slot.clear_protocol();
        }
        if (i < memory_start || i > memory_end) && slot.has_image {
            slot.has_image = false;
            let ready = match slot.status {
                ImageStatus::Ready => true,
                _ => false,
            };
            if ready {
                slot.status = ImageStatus::NotStarted;
            }
        }
        assert(slot@ == spec_let_go(orig, i as int, visible_start as int, visible_end as int));
        attachments.insert(i, slot);
        i = i + 1;
    }
}

} // verus!
