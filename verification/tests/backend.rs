use hyprrgn::backend::{
    AppState, BackendError, BufferSlot, GlobalAction, OutputInfo, ShmBuffer,
};
use hyprrgn::events::OverlayEvent;
use hyprrgn::geometry::{CellIndex, Rect};
use hyprrgn::keys::{ActionKeys, Keymap};

#[test]
fn new_state_is_empty() {
    let mut app = AppState::new();
    assert!(!app.is_configured());
    assert_eq!((app.width, app.height), (0, 0));
    assert_eq!((app.next_buffer_id, app.next_output_id), (1, 1));
    assert!(app.buffers.is_empty() && app.outputs.is_empty());
    assert!(app.cell_keysyms.is_empty() && app.cell_keycodes.is_empty());
    assert_eq!(app.keymap, Keymap::default());
    assert_eq!(app.action_keys, ActionKeys::default());
    assert_eq!(app.output_size(), None);
    assert_eq!(app.poll_events(), vec![]);
}

#[test]
fn buffers_have_four_bytes_for_a_pixel() {
    let b = ShmBuffer::create(1920, 1080, 3);
    assert_eq!((b.id, b.width, b.height, b.stride, b.busy), (3, 1920, 1080, 7680, false));
    assert_eq!(b.size(), 8294400);
}

#[test]
fn buffers_need_shared_memory() {
    let mut app = AppState::new();
    assert_eq!(app.get_buffer(10, 10), Err(BackendError::ShmUnavailable));
    assert_eq!(app.next_buffer_id, 1);
}

#[test]
fn buffers_are_reused_once_released() {
    let mut app = AppState::new();
    app.has_shm = true;
    assert_eq!(app.get_buffer(10, 20), Ok(BufferSlot::Create(1)));
    assert_eq!(app.add_buffer(ShmBuffer::create(10, 20, 1)), 0);
    assert_eq!(app.get_buffer(10, 20), Ok(BufferSlot::Reuse(0)));
    app.attach_buffer(0);
    assert!(app.buffers[0].busy);
    assert_eq!(app.get_buffer(10, 20), Ok(BufferSlot::Create(2)));
    assert_eq!(app.add_buffer(ShmBuffer::create(10, 20, 2)), 1);
    app.attach_buffer(1);
    app.release_buffer(7);
    assert!(app.buffers[0].busy && app.buffers[1].busy);
    app.release_buffer(2);
    assert!(app.buffers[0].busy && !app.buffers[1].busy);
    assert_eq!(app.get_buffer(10, 20), Ok(BufferSlot::Reuse(1)));
    assert_eq!(app.get_buffer(20, 10), Ok(BufferSlot::Create(3)));
}

#[test]
fn frames_wait_for_the_surface() {
    let mut app = AppState::new();
    app.has_shm = true;
    assert_eq!(app.plan_frame(), Ok(None));
    app.configure(30, 40);
    assert_eq!(app.plan_frame(), Ok(Some(BufferSlot::Create(1))));
    app.add_buffer(ShmBuffer::create(30, 40, 1));
    assert_eq!(app.plan_frame(), Ok(Some(BufferSlot::Reuse(0))));
    app.attach_buffer(0);
    app.has_shm = false;
    assert_eq!(app.plan_frame(), Err(BackendError::ShmUnavailable));
}

#[test]
fn ids_wrap_around() {
    let mut app = AppState::new();
    app.has_shm = true;
    app.next_buffer_id = u32::MAX;
    assert_eq!(app.get_buffer(1, 1), Ok(BufferSlot::Create(u32::MAX)));
    assert_eq!(app.next_buffer_id, 0);
}

#[test]
fn outputs_are_bound_and_the_first_seat() {
    let mut app = AppState::new();
    assert_eq!(app.announce_global("wl_output", 9), GlobalAction::BindOutput(1, 4));
    assert_eq!(app.announce_global("wl_output", 2), GlobalAction::BindOutput(2, 2));
    assert_eq!(
        app.outputs,
        vec![
            OutputInfo { id: 1, width: 0, height: 0, has_mode: false },
            OutputInfo { id: 2, width: 0, height: 0, has_mode: false },
        ]
    );
    assert_eq!(app.announce_global("wl_seat", 9), GlobalAction::BindSeat(7));
    assert_eq!(app.announce_global("wl_seat", 9), GlobalAction::Ignore);
    assert_eq!(app.announce_global("wl_shm", 1), GlobalAction::Ignore);
    assert_eq!(app.outputs.len(), 2);
}

#[test]
fn current_modes_give_the_output_size() {
    let mut app = AppState::new();
    app.announce_global("wl_output", 4);
    app.announce_global("wl_output", 4);
    app.report_mode(2, 800, 600, false);
    assert_eq!(app.output_size(), None);
    app.report_mode(2, 800, 600, true);
    assert_eq!(app.output_size(), Some((800, 600)));
    app.report_mode(1, 1024, 768, true);
    assert_eq!(app.output_size(), Some((1024, 768)));
    app.report_mode(9, 1, 1, true);
    assert_eq!(app.output_size(), Some((1024, 768)));
    app.report_mode(1, -1, 5, true);
    assert_eq!(app.output_size(), Some((u32::MAX, 5)));
}

#[test]
fn configure_falls_back_to_the_output() {
    let mut app = AppState::new();
    let fallback = Rect::new(0, 0, 1920, 1080);
    app.configure(0, 0);
    assert!(app.is_configured());
    assert_eq!((app.width, app.height), (0, 0));
    assert_eq!(app.screen_rect(fallback), fallback);
    app.configure(300, 0);
    assert_eq!((app.width, app.height), (300, 0));
    assert_eq!(app.screen_rect(fallback), fallback);
    app.announce_global("wl_output", 4);
    app.report_mode(1, 2560, 1440, true);
    app.configure(300, 0);
    assert_eq!((app.width, app.height), (2560, 1440));
    app.configure(300, 200);
    assert_eq!(app.screen_rect(fallback), Rect::new(0, 0, 300, 200));
    app.configure(u32::MAX, 200);
    assert_eq!(app.screen_rect(fallback), Rect::new(0, 0, -1, 200));
}

#[test]
fn pressed_keys_are_queued() {
    let cell = CellIndex { row: 0, col: 1 };
    let mut app = AppState::new();
    app.cell_keycodes = vec![(23, cell)];
    app.handle_key(None, 23, true);
    app.handle_key(None, 23, false);
    app.handle_key(None, 99, true);
    app.handle_key(Some(0xff0d), 23, true);
    app.queue_event(OverlayEvent::Cancel);
    assert_eq!(
        app.poll_events(),
        vec![OverlayEvent::SelectCell(cell), OverlayEvent::Confirm, OverlayEvent::Cancel]
    );
    assert_eq!(app.poll_events(), vec![]);
}
