//! State of the display backend: outputs, buffers, surface size, keyboard and waiting events.
//!
//! The state holds numbers and flags only. The handles of the display connection stay with the
//! caller, who reports what the display says and does what the functions here decide.

use crate::events::{OverlayEvent, SharedEvents};
use crate::geometry::{CellIndex, Rect};
use crate::input::{press_event, resolve_press};
use crate::keys::{ActionKeys, Keymap, KEY_BACKSPACE, KEY_ESCAPE, KEY_RETURN};
use crate::text::same_text;
use vstd::prelude::*;

verus! {

/// An output of the display.
#[derive(Clone, Copy, Debug, PartialEq, Eq, Structural)]
pub struct OutputInfo {
    pub id: u32,
    pub width: u32,
    pub height: u32,
    /// Whether the output has reported its current mode.
    pub has_mode: bool,
}

/// A buffer of shared memory, with four bytes for each pixel.
#[derive(Clone, Copy, Debug, PartialEq, Eq, Structural)]
pub struct ShmBuffer {
    pub id: u32,
    pub width: u32,
    pub height: u32,
    /// Bytes in a row of pixels.
    pub stride: u32,
    /// Whether the display still reads from the buffer.
    pub busy: bool,
}

/// Where a buffer of the wanted size is to come from.
#[derive(Clone, Copy, Debug, PartialEq, Eq, Structural)]
pub enum BufferSlot {
    /// The buffer at this index is free and has the size.
    Reuse(usize),
    /// There is none: create one with this id.
    Create(u32),
}

/// Why there is no buffer.
#[derive(Clone, Copy, Debug, PartialEq, Eq, Structural)]
pub enum BackendError {
    /// The display offers no shared memory.
    ShmUnavailable,
}

/// What to do about a global object that the display announces.
#[derive(Clone, Copy, Debug, PartialEq, Eq, Structural)]
pub enum GlobalAction {
    /// Bind it as the output with this id, in this version.
    BindOutput(u32, u32),
    /// Bind it as the seat, in this version, and get its keyboard.
    BindSeat(u32),
    /// Leave it alone.
    Ignore,
}

/// The mathematical state of the backend.
#[verifier::ext_equal]
pub struct AppView {
    pub events: Seq<OverlayEvent>,
    pub has_shm: bool,
    pub has_seat: bool,
    pub configured: bool,
    pub width: u32,
    pub height: u32,
    pub buffers: Seq<ShmBuffer>,
    pub next_buffer_id: u32,
    pub outputs: Seq<OutputInfo>,
    pub next_output_id: u32,
    pub keymap: Keymap,
    pub action_keys: ActionKeys,
    pub cell_keysyms: Seq<(u32, CellIndex)>,
    pub cell_keycodes: Seq<(u32, CellIndex)>,
}

/// Application state of the backend.
#[derive(Debug)]
pub struct AppState {
    pub events: SharedEvents,
    /// Whether the display offers shared memory.
    pub has_shm: bool,
    /// Whether a seat is bound.
    pub has_seat: bool,
    /// Whether the display has configured the surface.
    pub configured: bool,
    pub width: u32,
    pub height: u32,
    pub buffers: Vec<ShmBuffer>,
    pub next_buffer_id: u32,
    pub outputs: Vec<OutputInfo>,
    pub next_output_id: u32,
    pub keymap: Keymap,
    pub action_keys: ActionKeys,
    pub cell_keysyms: Vec<(u32, CellIndex)>,
    pub cell_keycodes: Vec<(u32, CellIndex)>,
}

impl View for AppState {
    type V = AppView;

    open spec fn view(&self) -> AppView {
        AppView {
            events: self.events@,
            has_shm: self.has_shm,
            has_seat: self.has_seat,
            configured: self.configured,
            width: self.width,
            height: self.height,
            buffers: self.buffers@,
            next_buffer_id: self.next_buffer_id,
            outputs: self.outputs@,
            next_output_id: self.next_output_id,
            keymap: self.keymap,
            action_keys: self.action_keys,
            cell_keysyms: self.cell_keysyms@,
            cell_keycodes: self.cell_keycodes@,
        }
    }
}

/// The first index at which `p` holds.
pub open spec fn first_index<A>(s: Seq<A>, p: spec_fn(A) -> bool) -> Option<int>
    decreases s.len(),
{
    if s.len() == 0 {
        None
    } else {
        match first_index(s.drop_last(), p) {
            Some(i) => Some(i),
            None => if p(s.last()) {
                Some(s.len() - 1)
            } else {
                None
            },
        }
    }
}

/// A buffer is free and has the given size.
pub open spec fn is_free(width: u32, height: u32) -> spec_fn(ShmBuffer) -> bool {
    |b: ShmBuffer| !b.busy && b.width == width && b.height == height
}

/// A buffer has the given id.
pub open spec fn buffer_with(id: u32) -> spec_fn(ShmBuffer) -> bool {
    |b: ShmBuffer| b.id == id
}

/// An output has the given id.
pub open spec fn output_with(id: u32) -> spec_fn(OutputInfo) -> bool {
    |o: OutputInfo| o.id == id
}

/// An output has reported its mode.
pub open spec fn with_mode() -> spec_fn(OutputInfo) -> bool {
    |o: OutputInfo| o.has_mode
}

/// The number that follows `n`; zero follows the largest.
pub open spec fn next_id(n: u32) -> u32 {
    if n == u32::MAX {
        0
    } else {
        (n + 1) as u32
    }
}

/// `n` taken modulo two to the power of 32, as an unsigned number.
pub open spec fn as_unsigned(n: i32) -> u32 {
    (if n < 0 {
        n + 0x1_0000_0000
    } else {
        n as int
    }) as u32
}

/// `n` taken modulo two to the power of 32, as a signed number.
pub open spec fn as_signed(n: u32) -> i32 {
    (if n > i32::MAX {
        n - 0x1_0000_0000
    } else {
        n as int
    }) as i32
}

/// The smaller of two numbers.
pub open spec fn smaller(a: u32, b: u32) -> u32 {
    if a <= b {
        a
    } else {
        b
    }
}

impl AppView {
    /// Width and height of the first output that has reported its mode.
    pub open spec fn output_size(self) -> Option<(u32, u32)> {
        match first_index(self.outputs, with_mode()) {
            Some(i) => Some((self.outputs[i].width, self.outputs[i].height)),
            None => None,
        }
    }

    /// The size of a surface that is configured with the given size. With a side of zero the
    /// choice is left to the client, who takes the size of the output, if that is known.
    pub open spec fn surface_size(self, width: u32, height: u32) -> (u32, u32) {
        if width == 0 || height == 0 {
            match self.output_size() {
                Some(size) => size,
                None => (width, height),
            }
        } else {
            (width, height)
        }
    }

    /// A buffer of the given size: a free one, or else a new one with the next id, if the display
    /// offers shared memory. Only a new one changes the state.
    pub open spec fn acquire(self, width: u32, height: u32) -> (
        AppView,
        Result<BufferSlot, BackendError>,
    ) {
        match first_index(self.buffers, is_free(width, height)) {
            Some(i) => (self, Ok(BufferSlot::Reuse(i as usize))),
            None => if self.has_shm {
                (
                    AppView { next_buffer_id: next_id(self.next_buffer_id), ..self },
                    Ok(BufferSlot::Create(self.next_buffer_id)),
                )
            } else {
                (self, Err(BackendError::ShmUnavailable))
            },
        }
    }

    /// What a pressed key means.
    pub open spec fn press(self, sym: Option<u32>, code: u32) -> Option<OverlayEvent> {
        press_event(
            sym,
            code,
            self.action_keys,
            self.cell_keysyms,
            self.keymap,
            self.cell_keycodes,
        )
    }

    /// The buffers, after the display has released the one with `id`: the first one that has it
    /// is free.
    pub open spec fn released(self, id: u32) -> Seq<ShmBuffer> {
        match first_index(self.buffers, buffer_with(id)) {
            Some(i) => self.buffers.update(i, ShmBuffer { busy: false, ..self.buffers[i] }),
            None => self.buffers,
        }
    }

    /// The outputs, after the one with `id` has reported its current mode.
    pub open spec fn with_output_mode(self, id: u32, width: i32, height: i32) -> Seq<OutputInfo> {
        match first_index(self.outputs, output_with(id)) {
            Some(i) => self.outputs.update(
                i,
                OutputInfo {
                    width: as_unsigned(width),
                    height: as_unsigned(height),
                    has_mode: true,
                    ..self.outputs[i]
                },
            ),
            None => self.outputs,
        }
    }

    /// No two buffers have the same id, and none has one that is still to be given out.
    pub open spec fn buffer_ids_unique(self) -> bool {
        &&& forall|i: int|
            0 <= i < self.buffers.len() ==> (#[trigger] self.buffers[i]).id < self.next_buffer_id
        &&& forall|i: int, j: int|
            0 <= i < j < self.buffers.len() ==> (#[trigger] self.buffers[i]).id != (
            #[trigger] self.buffers[j]).id
    }

    /// No two outputs have the same id, and none has one that is still to be given out.
    pub open spec fn output_ids_unique(self) -> bool {
        &&& forall|i: int|
            0 <= i < self.outputs.len() ==> (#[trigger] self.outputs[i]).id < self.next_output_id
        &&& forall|i: int, j: int|
            0 <= i < j < self.outputs.len() ==> (#[trigger] self.outputs[i]).id != (
            #[trigger] self.outputs[j]).id
    }
}

impl ShmBuffer {
    /// A free buffer of the given size.
    pub fn create(width: u32, height: u32, id: u32) -> (r: Self)
        requires
            width * 4 <= u32::MAX,
            width * 4 * height <= u32::MAX,
        ensures
            r.id == id,
            r.width == width,
            r.height == height,
            r.stride == width * 4,
            r.stride * r.height <= u32::MAX,
            !r.busy,
    {
        ShmBuffer { id, width, height, stride: width * 4, busy: false }
    }

    /// The bytes of memory that the buffer takes.
    pub fn size(&self) -> (r: u32)
        requires
            self.stride * self.height <= u32::MAX,
        ensures
            r == self.stride * self.height,
    {
        self.stride * self.height
    }
}

impl AppState {
    /// The state before the display has said anything.
    pub fn new() -> (r: Self)
        ensures
            r@ == (AppView {
                events: Seq::empty(),
                has_shm: false,
                has_seat: false,
                configured: false,
                width: 0,
                height: 0,
                buffers: Seq::empty(),
                next_buffer_id: 1,
                outputs: Seq::empty(),
                next_output_id: 1,
                keymap: Keymap { backspace: 14, esc: 1, enter: 28 },
                action_keys: ActionKeys {
                    backspace: KEY_BACKSPACE,
                    esc: KEY_ESCAPE,
                    enter: KEY_RETURN,
                },
                cell_keysyms: Seq::empty(),
                cell_keycodes: Seq::empty(),
            }),
    {
        AppState {
            events: SharedEvents::default(),
            has_shm: false,
            has_seat: false,
            configured: false,
            width: 0,
            height: 0,
            buffers: Vec::new(),
            next_buffer_id: 1,
            outputs: Vec::new(),
            next_output_id: 1,
            keymap: Keymap::default(),
            action_keys: ActionKeys::default(),
            cell_keysyms: Vec::new(),
            cell_keycodes: Vec::new(),
        }
    }

    /// Add an event behind those that are waiting.
    pub fn queue_event(&mut self, event: OverlayEvent)
        ensures
            final(self)@ == (AppView { events: old(self)@.events.push(event), ..old(self)@ }),
    {
        self.events.push(event);
    }

    /// Hand out all waiting events in the order in which they came.
    pub fn poll_events(&mut self) -> (r: Vec<OverlayEvent>)
        ensures
            r@ == old(self)@.events,
            final(self)@ == (AppView { events: Seq::empty(), ..old(self)@ }),
    {
        self.events.drain()
    }

    /// Whether the display has configured the surface.
    pub fn is_configured(&self) -> (r: bool)
        ensures
            r == self@.configured,
    {
        self.configured
    }

    /// Width and height of the first output that has reported its mode.
    pub fn output_size(&self) -> (r: Option<(u32, u32)>)
        ensures
            r == self@.output_size(),
    {
        let mut i: usize = 0;
        while i < self.outputs.len()
            invariant
                i <= self.outputs@.len(),
                first_index(self.outputs@.take(i as int), with_mode()) is None,
            decreases self.outputs@.len() - i,
        {
            proof {
                lemma_first_index_step(self.outputs@, with_mode(), i as int);
            }
            if self.outputs[i].has_mode {
                return Some((self.outputs[i].width, self.outputs[i].height));
            }
            i += 1;
        }
        assert(self.outputs@.take(i as int) =~= self.outputs@);
        None
    }

    /// Find a free buffer of the given size, or else the id for a new one, if the display offers
    /// shared memory.
    pub fn get_buffer(&mut self, width: u32, height: u32) -> (r: Result<BufferSlot, BackendError>)
        ensures
            (final(self)@, r) == old(self)@.acquire(width, height),
            r matches Ok(BufferSlot::Reuse(i)) ==> i < old(self)@.buffers.len() && is_free(
                width,
                height,
            )(old(self)@.buffers[i as int]),
            r matches Ok(BufferSlot::Reuse(i)) ==> {
                let b = old(self)@.buffers[i as int];
                !b.busy && b.width == width && b.height == height
            },
    {
        let mut i: usize = 0;
        while i < self.buffers.len()
            invariant
                i <= self.buffers@.len(),
                *self == *old(self),
                first_index(self.buffers@.take(i as int), is_free(width, height)) is None,
            decreases self.buffers@.len() - i,
        {
            proof {
                lemma_first_index_step(self.buffers@, is_free(width, height), i as int);
            }
            let b = self.buffers[i];
            if !b.busy && b.width == width && b.height == height {
                return Ok(BufferSlot::Reuse(i));
            }
            i += 1;
        }
        assert(self.buffers@.take(i as int) =~= self.buffers@);
        if !self.has_shm {
            return Err(BackendError::ShmUnavailable);
        }
        let id = self.next_buffer_id;
        self.next_buffer_id = self.next_buffer_id.wrapping_add(1);
        Ok(BufferSlot::Create(id))
    }

    /// Find a buffer to draw the next frame into; none as long as the surface is not configured.
    pub fn plan_frame(&mut self) -> (r: Result<Option<BufferSlot>, BackendError>)
        ensures
            if old(self)@.configured {
                let plan = old(self)@.acquire(old(self)@.width, old(self)@.height);
                &&& final(self)@ == plan.0
                &&& r == match plan.1 {
                    Ok(slot) => Ok(Some(slot)),
                    Err(e) => Err(e),
                }
            } else {
                final(self)@ == old(self)@ && r == Ok::<Option<BufferSlot>, BackendError>(None)
            },
    {
        if !self.is_configured() {
            return Ok(None);
        }
        match self.get_buffer(self.width, self.height) {
            Ok(slot) => Ok(Some(slot)),
            Err(e) => Err(e),
        }
    }

    /// Keep a buffer that was created. Returns its index.
    pub fn add_buffer(&mut self, buffer: ShmBuffer) -> (r: usize)
        ensures
            r == old(self)@.buffers.len(),
            final(self)@ == (AppView { buffers: old(self)@.buffers.push(buffer), ..old(self)@ }),
    {
        let index: usize = self.buffers.len();
        self.buffers.push(buffer);
        index
    }

    /// Note that the display reads from a buffer now.
    pub fn attach_buffer(&mut self, index: usize)
        requires
            index < old(self)@.buffers.len(),
        ensures
            final(self)@ == (AppView {
                buffers: old(self)@.buffers.update(
                    index as int,
                    ShmBuffer { busy: true, ..old(self)@.buffers[index as int] },
                ),
                ..old(self)@
            }),
    {
        let b = self.buffers[index];
        self.buffers.set(index, ShmBuffer { busy: true, ..b });
    }

    /// Note that the display has released the buffer with an id.
    pub fn release_buffer(&mut self, id: u32)
        ensures
            final(self)@ == (AppView { buffers: old(self)@.released(id), ..old(self)@ }),
    {
        let mut i: usize = 0;
        while i < self.buffers.len()
            invariant
                i <= self.buffers@.len(),
                *self == *old(self),
                first_index(self.buffers@.take(i as int), buffer_with(id)) is None,
            decreases self.buffers@.len() - i,
        {
            proof {
                lemma_first_index_step(self.buffers@, buffer_with(id), i as int);
            }
            let b = self.buffers[i];
            if b.id == id {
                self.buffers.set(i, ShmBuffer { busy: false, ..b });
                return;
            }
            i += 1;
        }
        assert(self.buffers@.take(i as int) =~= self.buffers@);
    }

    /// Decide what to do about a global object: every output is bound, up to version four, and
    /// the first seat, up to version seven.
    pub fn announce_global(&mut self, interface: &str, version: u32) -> (r: GlobalAction)
        ensures
            if interface@ == "wl_output"@ {
                let id = old(self)@.next_output_id;
                &&& r == GlobalAction::BindOutput(id, smaller(version, 4))
                &&& final(self)@ == (AppView {
                    next_output_id: next_id(id),
                    outputs: old(self)@.outputs.push(
                        OutputInfo { id, width: 0, height: 0, has_mode: false },
                    ),
                    ..old(self)@
                })
            } else if interface@ == "wl_seat"@ && !old(self)@.has_seat {
                &&& r == GlobalAction::BindSeat(smaller(version, 7))
                &&& final(self)@ == (AppView { has_seat: true, ..old(self)@ })
            } else {
                &&& r == GlobalAction::Ignore
                &&& final(self)@ == old(self)@
            },
    {
        if same_text(interface, "wl_output") {
            let id = self.next_output_id;
            self.next_output_id = self.next_output_id.wrapping_add(1);
            self.outputs.push(OutputInfo { id, width: 0, height: 0, has_mode: false });
            GlobalAction::BindOutput(id, if version <= 4 { version } else { 4 })
        } else if same_text(interface, "wl_seat") && !self.has_seat {
            self.has_seat = true;
            GlobalAction::BindSeat(if version <= 7 { version } else { 7 })
        } else {
            GlobalAction::Ignore
        }
    }

    /// Note a mode that the output with an id has reported; only its current mode counts.
    pub fn report_mode(&mut self, id: u32, width: i32, height: i32, current: bool)
        ensures
            final(self)@ == if current {
                AppView { outputs: old(self)@.with_output_mode(id, width, height), ..old(self)@ }
            } else {
                old(self)@
            },
    {
        if !current {
            return;
        }
        let mut i: usize = 0;
        while i < self.outputs.len()
            invariant
                current,
                i <= self.outputs@.len(),
                *self == *old(self),
                first_index(self.outputs@.take(i as int), output_with(id)) is None,
            decreases self.outputs@.len() - i,
        {
            proof {
                lemma_first_index_step(self.outputs@, output_with(id), i as int);
            }
            let o = self.outputs[i];
            if o.id == id {
                self.outputs.set(
                    i,
                    OutputInfo {
                        id: o.id,
                        width: unsigned(width),
                        height: unsigned(height),
                        has_mode: true,
                    },
                );
                return;
            }
            i += 1;
        }
        assert(self.outputs@.take(i as int) =~= self.outputs@);
    }

    /// Note that the display has configured the surface with a size.
    pub fn configure(&mut self, width: u32, height: u32)
        ensures
            ({
                let size = old(self)@.surface_size(width, height);
                final(self)@ == (AppView {
                    configured: true,
                    width: size.0,
                    height: size.1,
                    ..old(self)@
                })
            }),
    {
        self.configured = true;
        self.width = width;
        self.height = height;
        if width == 0 || height == 0 {
            if let Some((w, h)) = self.output_size() {
                self.width = w;
                self.height = h;
            }
        }
    }

    /// The rectangle to navigate: that of the surface, once it is known to be of some size, and
    /// `fallback` until then.
    pub fn screen_rect(&self, fallback: Rect) -> (r: Rect)
        ensures
            r == if self@.width > 0 && self@.height > 0 {
                Rect {
                    x: 0,
                    y: 0,
                    width: as_signed(self@.width),
                    height: as_signed(self@.height),
                }
            } else {
                fallback
            },
    {
        if self.width > 0 && self.height > 0 {
            Rect::new(0, 0, signed(self.width), signed(self.height))
        } else {
            fallback
        }
    }

    /// Queue what a key means when it is pressed, if it means anything; a key that is let go means
    /// nothing. `sym` is the keysym that the keyboard layout gives the key, if a layout is known,
    /// and `code` its evdev code.
    pub fn handle_key(&mut self, sym: Option<u32>, code: u32, pressed: bool)
        ensures
            final(self)@ == match old(self)@.press(sym, code) {
                Some(event) if pressed => AppView {
                    events: old(self)@.events.push(event),
                    ..old(self)@
                },
                _ => old(self)@,
            },
    {
        if pressed {
            if let Some(event) = resolve_press(
                sym,
                code,
                &self.action_keys,
                &self.cell_keysyms,
                &self.keymap,
                &self.cell_keycodes,
            ) {
                self.queue_event(event);
            }
        }
    }
}

// ---------------------------------------------------------------------------------------------
// Laws
// ---------------------------------------------------------------------------------------------

/// `first_index` gives an index at which `p` holds and before which it does not, and none only
/// where `p` holds nowhere.
pub proof fn law_first_index<A>(s: Seq<A>, p: spec_fn(A) -> bool)
    ensures
        match first_index(s, p) {
            Some(i) => {
                &&& 0 <= i < s.len()
                &&& p(s[i])
                &&& forall|j: int| 0 <= j < i ==> !p(#[trigger] s[j])
            },
            None => forall|j: int| 0 <= j < s.len() ==> !p(#[trigger] s[j]),
        },
    decreases s.len(),
{
    if s.len() > 0 {
        let front = s.drop_last();
        law_first_index(front, p);
        assert forall|j: int| 0 <= j < front.len() implies #[trigger] s[j] == front[j] by {}
    }
}

/// Buffer ids stay unique when a buffer is created with the id that `get_buffer` gives out, as
/// long as not all ids have been given out.
pub proof fn law_buffer_ids_stay_unique(app: AppView, buffer: ShmBuffer)
    requires
        app.buffer_ids_unique(),
        app.next_buffer_id < u32::MAX,
        buffer.id == app.next_buffer_id,
    ensures
        (AppView {
            buffers: app.buffers.push(buffer),
            next_buffer_id: next_id(app.next_buffer_id),
            ..app
        }).buffer_ids_unique(),
{
}

/// Output ids stay unique when an output is announced, as long as not all ids have been given out.
pub proof fn law_output_ids_stay_unique(app: AppView)
    requires
        app.output_ids_unique(),
        app.next_output_id < u32::MAX,
    ensures
        (AppView {
            outputs: app.outputs.push(
                OutputInfo { id: app.next_output_id, width: 0, height: 0, has_mode: false },
            ),
            next_output_id: next_id(app.next_output_id),
            ..app
        }).output_ids_unique(),
{
}

/// With unique ids, releasing a buffer frees this buffer and leaves all others as they are.
pub proof fn law_release_frees_one_buffer(app: AppView, i: int)
    requires
        app.buffer_ids_unique(),
        0 <= i < app.buffers.len(),
    ensures
        app.released(app.buffers[i].id) == app.buffers.update(
            i,
            ShmBuffer { busy: false, ..app.buffers[i] },
        ),
        (AppView { buffers: app.released(app.buffers[i].id), ..app }).buffer_ids_unique(),
{
    let id = app.buffers[i].id;
    law_first_index(app.buffers, buffer_with(id));
    assert(buffer_with(id)(app.buffers[i]));
}

/// A buffer that is attached and released again serves the next frame of its size: no new buffer
/// is created.
pub proof fn law_released_buffer_is_reused(app: AppView, i: int)
    requires
        app.buffer_ids_unique(),
        0 <= i < app.buffers.len(),
    ensures
        (AppView { buffers: app.released(app.buffers[i].id), ..app }).acquire(
            app.buffers[i].width,
            app.buffers[i].height,
        ).1 matches Ok(BufferSlot::Reuse(_)),
{
    let b = app.buffers[i];
    law_release_frees_one_buffer(app, i);
    let after = app.released(b.id);
    law_first_index(after, is_free(b.width, b.height));
    assert(is_free(b.width, b.height)(after[i]));
}

/// An attached buffer is not handed out again before it is released.
pub proof fn law_attached_buffer_is_not_free(app: AppView, i: int, width: u32, height: u32)
    requires
        0 <= i < app.buffers.len() <= usize::MAX,
    ensures
        (AppView {
            buffers: app.buffers.update(i, ShmBuffer { busy: true, ..app.buffers[i] }),
            ..app
        }).acquire(width, height).1 != Ok::<BufferSlot, BackendError>(
            BufferSlot::Reuse(i as usize),
        ),
{
    law_first_index(
        app.buffers.update(i, ShmBuffer { busy: true, ..app.buffers[i] }),
        is_free(width, height),
    );
}

proof fn lemma_first_index_step<A>(s: Seq<A>, p: spec_fn(A) -> bool, i: int)
    requires
        0 <= i < s.len(),
        first_index(s.take(i), p) is None,
    ensures
        p(s[i]) ==> first_index(s, p) == Some(i),
        !p(s[i]) ==> first_index(s.take(i + 1), p) is None,
{
    assert(s.take(i + 1).drop_last() =~= s.take(i));
    if p(s[i]) {
        lemma_first_index_prefix(s, p, i, s.len() as int);
        assert(s.take(s.len() as int) =~= s);
    }
}

proof fn lemma_first_index_prefix<A>(s: Seq<A>, p: spec_fn(A) -> bool, i: int, n: int)
    requires
        0 <= i < n <= s.len(),
        first_index(s.take(i), p) is None,
        p(s[i]),
    ensures
        first_index(s.take(n), p) == Some(i),
    decreases n,
{
    assert(s.take(n).drop_last() =~= s.take(n - 1));
    if n - 1 > i {
        lemma_first_index_prefix(s, p, i, n - 1);
    }
}

// ---------------------------------------------------------------------------------------------
// Conversions
// ---------------------------------------------------------------------------------------------

fn unsigned(n: i32) -> (r: u32)
    ensures
        r == as_unsigned(n),
{
    assert(n < 0 ==> n as u32 == n + 0x1_0000_0000) by (bit_vector);
    n as u32
}

fn signed(n: u32) -> (r: i32)
    ensures
        r == as_signed(n),
{
    assert(n > 0x7fff_ffff ==> n as i32 == n - 0x1_0000_0000) by (bit_vector);
    n as i32
}

/// A buffer that is handed out is not in use, has the wanted size, and is the first such one. Only
/// where there is none is one created, with the next id, and only if the display offers shared
/// memory.
pub proof fn law_acquire(app: AppView, width: u32, height: u32)
    requires
        app.buffers.len() <= usize::MAX,
    ensures
        ({
            let (after, r) = app.acquire(width, height);
            let fits = |b: ShmBuffer| !b.busy && b.width == width && b.height == height;
            match r {
                Ok(BufferSlot::Reuse(i)) => {
                    &&& i < app.buffers.len()
                    &&& fits(app.buffers[i as int])
                    &&& forall|j: int| 0 <= j < i ==> !fits(#[trigger] app.buffers[j])
                    &&& after == app
                },
                Ok(BufferSlot::Create(id)) => {
                    &&& forall|j: int|
                        0 <= j < app.buffers.len() ==> !fits(#[trigger] app.buffers[j])
                    &&& app.has_shm
                    &&& id == app.next_buffer_id
                    &&& after.next_buffer_id == if id == 0xffff_ffff {
                        0
                    } else {
                        id + 1
                    }
                    &&& after == (AppView { next_buffer_id: after.next_buffer_id, ..app })
                },
                Err(_) => {
                    &&& forall|j: int|
                        0 <= j < app.buffers.len() ==> !fits(#[trigger] app.buffers[j])
                    &&& !app.has_shm
                    &&& after == app
                },
            }
        }),
{
    law_first_index(app.buffers, is_free(width, height));
    let fits = |b: ShmBuffer| !b.busy && b.width == width && b.height == height;
    assert forall|b: ShmBuffer| #[trigger] fits(b) == is_free(width, height)(b) by {}
}

/// Releasing an id that no buffer has changes nothing; otherwise one buffer becomes free, keeps
/// its id and its size, and no other buffer changes.
pub proof fn law_release(app: AppView, id: u32, i: int)
    requires
        0 <= i < app.buffers.len(),
    ensures
        app.released(id).len() == app.buffers.len(),
        app.buffers[i].id != id ==> app.released(id)[i] == app.buffers[i],
        app.buffers[i].id == id && (forall|j: int|
            0 <= j < i ==> (#[trigger] app.buffers[j]).id != id) ==> app.released(id)[i] == (
        ShmBuffer { busy: false, ..app.buffers[i] }),
{
    law_first_index(app.buffers, buffer_with(id));
    assert forall|b: ShmBuffer| #[trigger] buffer_with(id)(b) == (b.id == id) by {}
}

/// The current mode of an output sets its size, and changes no other output: `i` is the first one
/// with the id, or one without it.
pub proof fn law_output_mode(app: AppView, id: u32, width: i32, height: i32, i: int)
    requires
        0 <= i < app.outputs.len(),
    ensures
        app.with_output_mode(id, width, height).len() == app.outputs.len(),
        app.outputs[i].id != id ==> app.with_output_mode(id, width, height)[i] == app.outputs[i],
        app.outputs[i].id == id && (forall|j: int|
            0 <= j < i ==> (#[trigger] app.outputs[j]).id != id) ==> {
            let o = app.with_output_mode(id, width, height)[i];
            &&& o.id == id
            &&& o.has_mode
            &&& o.width == if width < 0 {
                width + 0x1_0000_0000
            } else {
                width as int
            }
            &&& o.height == if height < 0 {
                height + 0x1_0000_0000
            } else {
                height as int
            }
        },
{
    law_first_index(app.outputs, output_with(id));
    assert forall|o: OutputInfo| #[trigger] output_with(id)(o) == (o.id == id) by {}
}

/// The output size is that of the first output with a mode: `i` is such an output.
pub proof fn law_output_size(app: AppView, i: int)
    ensures
        0 <= i < app.outputs.len() && app.outputs[i].has_mode && (forall|j: int|
            0 <= j < i ==> !(#[trigger] app.outputs[j]).has_mode) ==> app.output_size() == Some(
            (app.outputs[i].width, app.outputs[i].height),
        ),
        (forall|j: int| 0 <= j < app.outputs.len() ==> !(#[trigger] app.outputs[j]).has_mode)
            ==> app.output_size() is None,
{
    law_first_index(app.outputs, with_mode());
    assert forall|o: OutputInfo| #[trigger] with_mode()(o) == o.has_mode by {}
}

/// A surface has the size that it is configured with, where both sides are given; otherwise that
/// of the output, where it is known.
pub proof fn law_surface_size(app: AppView, width: u32, height: u32)
    ensures
        width > 0 && height > 0 ==> app.surface_size(width, height) == (width, height),
        width == 0 || height == 0 ==> app.surface_size(width, height) == match app.output_size() {
            Some(size) => size,
            None => (width, height),
        },
{
}

/// Numbers that both kinds of integers can hold are kept, and the others differ by two to the
/// power of 32.
pub proof fn law_conversions(n: i32, m: u32)
    ensures
        n >= 0 ==> as_unsigned(n) == n,
        n < 0 ==> as_unsigned(n) - n == 0x1_0000_0000,
        m <= 0x7fff_ffff ==> as_signed(m) == m,
        m > 0x7fff_ffff ==> m - as_signed(m) == 0x1_0000_0000,
{
}

/// Ids count up and begin again at zero; a version is capped.
pub proof fn law_ids_and_versions(id: u32, version: u32, most: u32)
    ensures
        id < 0xffff_ffff ==> next_id(id) == id + 1,
        id == 0xffff_ffff ==> next_id(id) == 0,
        version <= most ==> smaller(version, most) == version,
        version > most ==> smaller(version, most) == most,
{
}

/// A key press is resolved by the keys of this state.
pub proof fn law_press(app: AppView, sym: Option<u32>, code: u32)
    ensures
        app.press(sym, code) == press_event(
            sym,
            code,
            app.action_keys,
            app.cell_keysyms,
            app.keymap,
            app.cell_keycodes,
        ),
{
}

/// The view of the state is what its fields hold.
pub proof fn law_view(app: AppState)
    ensures
        app@.events == app.events@,
        app@.has_shm == app.has_shm,
        app@.has_seat == app.has_seat,
        app@.configured == app.configured,
        app@.width == app.width,
        app@.height == app.height,
        app@.buffers == app.buffers@,
        app@.next_buffer_id == app.next_buffer_id,
        app@.outputs == app.outputs@,
        app@.next_output_id == app.next_output_id,
        app@.keymap == app.keymap,
        app@.action_keys == app.action_keys,
        app@.cell_keysyms == app.cell_keysyms@,
        app@.cell_keycodes == app.cell_keycodes@,
{
}

} // verus!
