use goxlr_volume_wheel::hook::{
    handle_raw_input, keyboard_hook_proc, notify_wndproc, number_at, packet_complete,
    packet_size_usable, read_packet, rehook_steps, request_rehook, HookStep, KeyVerdict,
    NotifyAction, PacketLayout, Rehook, VolumeEvent, WM_INPUT, WM_KEYDOWN, WM_KEYUP,
    WM_POWERBROADCAST, WM_REQUEST_REHOOK, WM_SYSKEYDOWN, WM_SYSKEYUP, WM_WTSSESSION_CHANGE,
};

const PASS: KeyVerdict = KeyVerdict {
    event: None,
    swallow: false,
};

#[test]
fn volume_keys_are_taken_while_connected() {
    let up = KeyVerdict {
        event: Some(VolumeEvent::Up),
        swallow: true,
    };
    let down = KeyVerdict {
        event: Some(VolumeEvent::Down),
        swallow: true,
    };
    let silent = KeyVerdict {
        event: None,
        swallow: true,
    };
    assert_eq!(keyboard_hook_proc(0, WM_KEYDOWN, 0xAF, true), up);
    assert_eq!(keyboard_hook_proc(0, WM_SYSKEYDOWN, 0xAE, true), down);
    assert_eq!(keyboard_hook_proc(0, WM_KEYUP, 0xAF, true), silent);
    assert_eq!(keyboard_hook_proc(0, WM_SYSKEYUP, 0xAE, true), silent);
    assert_eq!(keyboard_hook_proc(0, WM_INPUT, 0xAF, true), PASS);
}

#[test]
fn keys_are_left_to_windows_while_disconnected() {
    assert_eq!(keyboard_hook_proc(0, WM_KEYDOWN, 0xAF, false), PASS);
    assert_eq!(keyboard_hook_proc(0, WM_KEYUP, 0xAE, false), PASS);
}

#[test]
fn other_keystrokes_pass() {
    assert_eq!(keyboard_hook_proc(0, WM_KEYDOWN, 0x41, true), PASS);
    assert_eq!(keyboard_hook_proc(0, WM_KEYDOWN, 0xAD, true), PASS);
    assert_eq!(keyboard_hook_proc(-1, WM_KEYDOWN, 0xAF, true), PASS);
}

#[test]
fn key_codes_count_by_their_low_16_bits() {
    assert!(keyboard_hook_proc(0, WM_KEYDOWN, 0x1_00AF, true).swallow);
}

#[test]
fn the_hook_is_renewed_after_resume_unlock_and_connect() {
    for w in [0x07usize, 0x12] {
        assert_eq!(notify_wndproc(WM_POWERBROADCAST, w), NotifyAction::Rehook);
    }
    for w in [0x1usize, 0x6, 0x8] {
        assert_eq!(notify_wndproc(WM_WTSSESSION_CHANGE, w), NotifyAction::Rehook);
    }
    assert_eq!(notify_wndproc(WM_POWERBROADCAST, 0x4), NotifyAction::Pass);
    assert_eq!(notify_wndproc(WM_WTSSESSION_CHANGE, 0x7), NotifyAction::Pass);
    assert_eq!(notify_wndproc(WM_INPUT, 0), NotifyAction::ReadInput);
    assert_eq!(notify_wndproc(WM_KEYDOWN, 0x12), NotifyAction::Pass);
}

#[test]
fn renewal_is_asked_for_by_message_and_done_once() {
    assert_eq!(request_rehook(0), None);
    assert_eq!(request_rehook(42), Some(WM_REQUEST_REHOOK));
    let mut r = Rehook::new(7);
    assert_eq!(r.after_dispatch(), vec![]);
    r.on_message(WM_KEYDOWN);
    r.on_notify(NotifyAction::Pass);
    assert_eq!(r.after_dispatch(), vec![]);
    r.on_message(WM_REQUEST_REHOOK);
    r.on_notify(NotifyAction::Pass);
    assert_eq!(r.after_dispatch(), vec![HookStep::Remove(7), HookStep::Install]);
    assert_eq!(r, Rehook { requested: false, held: 7 });
    r.installed(Some(8));
    assert_eq!(r.after_dispatch(), vec![]);
    r.on_notify(NotifyAction::Rehook);
    r.on_notify(NotifyAction::Pass);
    assert_eq!(r.after_dispatch(), vec![HookStep::Remove(8), HookStep::Install]);
}

#[test]
fn a_failed_renewal_keeps_the_last_hook() {
    let mut r = Rehook::new(7);
    r.on_message(WM_REQUEST_REHOOK);
    r.after_dispatch();
    r.installed(None);
    assert_eq!(r.finish(), HookStep::Remove(7));
    r.on_message(WM_REQUEST_REHOOK);
    assert_eq!(r.after_dispatch(), vec![HookStep::Remove(7), HookStep::Install]);
    r.installed(Some(9));
    assert_eq!(r.finish(), HookStep::Remove(9));
    assert_eq!(rehook_steps(false, 9), vec![]);
}

#[test]
fn packet_fields_are_read() {
    let packet = vec![0x02u8, 0x01, 0x80, 0xFF, 5];
    assert_eq!(number_at(&packet, 0), 0xFF80_0102);
    assert_eq!(number_at(&packet, 1), 0x05FF_8001);
    assert_eq!(number_at(&packet, 2), 0);
    assert_eq!(number_at(&packet, usize::MAX), 0);
    assert!(packet_complete(36, 36));
    assert!(!packet_complete(35, 36));
}

#[test]
fn a_packet_is_read_by_its_layout() {
    let layout = PacketLayout { kind: 0, report_size: 4, report_count: 8, reports: 12 };
    let mut packet = vec![2u8, 0, 0, 0, 3, 0, 0, 0, 2, 0, 0, 0, 0x02, 0x01, 0, 0x02, 0x02, 0];
    assert_eq!(read_packet(&packet, layout), vec![VolumeEvent::Up, VolumeEvent::Down]);
    packet[0] = 1;
    assert_eq!(read_packet(&packet, layout), vec![]);
    packet.truncate(10);
    assert_eq!(read_packet(&packet, layout), vec![]);
}

#[test]
fn packet_sizes_are_checked() {
    assert!(packet_size_usable(0, 36));
    assert!(!packet_size_usable(u32::MAX, 36));
    assert!(!packet_size_usable(0, 0));
}

#[test]
fn reports_are_read_in_order() {
    let packet = vec![9u8, 9, 0x02, 0x01, 0, 0x02, 0x02, 0, 0x02, 0x00, 0, 0x03, 0x01, 0, 0x02, 0x01, 7];
    assert_eq!(
        handle_raw_input(&packet, 2, 2, 3, 5),
        vec![VolumeEvent::Up, VolumeEvent::Down, VolumeEvent::Up]
    );
}

#[test]
fn packets_that_do_not_fit_tell_nothing() {
    let packet = vec![0x02u8, 0x01, 0x02, 0x01];
    assert_eq!(handle_raw_input(&packet, 2, 0, 2, 2).len(), 2);
    assert!(handle_raw_input(&packet, 1, 0, 2, 2).is_empty());
    assert!(handle_raw_input(&packet, 2, 0, 1, 2).is_empty());
    assert!(handle_raw_input(&packet, 2, 0, 2, 0).is_empty());
    assert!(handle_raw_input(&packet, 2, 1, 2, 2).is_empty());
    assert!(handle_raw_input(&packet, 2, 9, 2, 1).is_empty());
    assert!(handle_raw_input(&packet, 2, 0, u32::MAX, u32::MAX).is_empty());
    assert!(handle_raw_input(&Vec::new(), 2, 0, 2, 1).is_empty());
}
