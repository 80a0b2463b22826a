//! The volume keys: which keystrokes are taken from Windows, what the volume wheels of headsets
//! report, and when the keyboard hook is installed anew.

use crate::message::{low_16, low_32, low_u16, low_u32};
use vstd::prelude::*;

verus! {

/// One step of the volume wheel.
#[derive(Debug, Clone, Copy, PartialEq, Eq, Structural)]
pub enum VolumeEvent {
    Up,
    Down,
}

/// Win32 message numbers.
pub const WM_INPUT: u32 = 0x00FF;

pub const WM_KEYDOWN: u32 = 0x0100;

pub const WM_KEYUP: u32 = 0x0101;

pub const WM_SYSKEYDOWN: u32 = 0x0104;

pub const WM_SYSKEYUP: u32 = 0x0105;

pub const WM_POWERBROADCAST: u32 = 0x0218;

pub const WM_WTSSESSION_CHANGE: u32 = 0x02B1;

/// Asks the hook thread for a re-installation: `WM_APP + 1`.
pub const WM_REQUEST_REHOOK: u32 = 0x8001;

/// Virtual keys of the volume keys.
pub const VK_VOLUME_DOWN: u16 = 0xAE;

pub const VK_VOLUME_UP: u16 = 0xAF;

/// Power events that mean the machine has woken up.
pub const PBT_APMRESUMESUSPEND: u32 = 0x0007;

pub const PBT_APMRESUMEAUTOMATIC: u32 = 0x0012;

/// Session events that mean "the input desktop has changed under us, the hook may have been
/// detached".
pub const WTS_CONSOLE_CONNECT: u32 = 0x1;

pub const WTS_REMOTE_CONNECT: u32 = 0x6;

pub const WTS_SESSION_UNLOCK: u32 = 0x8;

/// Kind of a raw input packet that comes from a HID device other than keyboard and mouse.
pub const RIM_TYPEHID: u32 = 2;

/// HID usage page and usage of consumer control, which volume wheels report on.
pub const HID_USAGE_PAGE_CONSUMER: u16 = 0x0C;

pub const HID_USAGE_CONSUMER_CONTROL: u16 = 0x01;

/// First byte of a report that carries volume actions.
pub const VOLUME_REPORT_ID: u8 = 0x02;

/// Second byte of a volume report for one step up.
pub const VOLUME_REPORT_UP: u8 = 0x01;

/// Second byte of a volume report for one step down.
pub const VOLUME_REPORT_DOWN: u8 = 0x02;

// ---------------------------------------------------------------- keyboard

/// What becomes of a keystroke.
#[derive(Clone, Copy, Debug, PartialEq, Eq, Structural)]
pub struct KeyVerdict {
    /// The step to report.
    pub event: Option<VolumeEvent>,
    /// Whether the keystroke ends here instead of going on to the next hook.
    pub swallow: bool,
}

/// What a volume key means; other keys mean nothing.
pub open spec fn volume_key(vk: u16) -> Option<VolumeEvent> {
    if vk == VK_VOLUME_UP {
        Some(VolumeEvent::Up)
    } else if vk == VK_VOLUME_DOWN {
        Some(VolumeEvent::Down)
    } else {
        None
    }
}

/// Whether the message tells of a key going down.
pub open spec fn key_pressed(msg: u32) -> bool {
    msg == WM_KEYDOWN || msg == WM_SYSKEYDOWN
}

/// Whether the message tells of a key coming up.
pub open spec fn key_released(msg: u32) -> bool {
    msg == WM_KEYUP || msg == WM_SYSKEYUP
}

/// What becomes of a keystroke: while the daemon is connected a volume key is swallowed, and its
/// press is one step; everything else passes.
pub open spec fn key_verdict(n_code: i32, msg: u32, vk: u16, connected: bool) -> KeyVerdict {
    if n_code >= 0 && volume_key(vk) is Some && connected {
        KeyVerdict {
            event: if key_pressed(msg) {
                volume_key(vk)
            } else {
                None
            },
            swallow: key_pressed(msg) || key_released(msg),
        }
    } else {
        KeyVerdict { event: None, swallow: false }
    }
}

/// Decides about a keystroke. A volume key is taken from Windows while the daemon is connected:
/// the system volume stays as it is and a press is reported as a step. While the daemon is
/// unreachable the keys are left to Windows, so the user keeps a usable master volume.
pub fn keyboard_hook_proc(n_code: i32, msg: u32, vk_code: u32, connected: bool) -> (r: KeyVerdict)
    ensures
        r == key_verdict(n_code, msg, low_16(vk_code as int), connected),
{
    let vk = low_u16(vk_code);
    if n_code >= 0 && (vk == VK_VOLUME_UP || vk == VK_VOLUME_DOWN) && connected {
        let pressed = msg == WM_KEYDOWN || msg == WM_SYSKEYDOWN;
        let released = msg == WM_KEYUP || msg == WM_SYSKEYUP;
        let event = if !pressed {
            None
        } else if vk == VK_VOLUME_UP {
            Some(VolumeEvent::Up)
        } else {
            Some(VolumeEvent::Down)
        };
        KeyVerdict { event, swallow: pressed || released }
    } else {
        KeyVerdict { event: None, swallow: false }
    }
}

// ---------------------------------------------------------------- notifications

/// What the notification window does about a message, besides the default.
#[derive(Clone, Copy, Debug, PartialEq, Eq, Structural)]
pub enum NotifyAction {
    /// Read the raw input packet.
    ReadInput,
    /// Have the hook installed anew.
    Rehook,
    /// Nothing.
    Pass,
}

/// Whether a message tells of a state that may have invalidated the hook: resume from suspend,
/// session unlock, remote or console connect.
pub open spec fn hook_endangered(msg: u32, w_param: u32) -> bool {
    ||| msg == WM_POWERBROADCAST && (w_param == PBT_APMRESUMEAUTOMATIC || w_param
        == PBT_APMRESUMESUSPEND)
    ||| msg == WM_WTSSESSION_CHANGE && (w_param == WTS_SESSION_UNLOCK || w_param
        == WTS_REMOTE_CONNECT || w_param == WTS_CONSOLE_CONNECT)
}

/// Decides about a message to the notification window.
pub fn notify_wndproc(msg: u32, w_param: usize) -> (r: NotifyAction)
    ensures
        r == NotifyAction::ReadInput <==> msg == WM_INPUT,
        r == NotifyAction::Rehook <==> hook_endangered(msg, low_32(w_param as int)),
{
    let w = low_u32(w_param);
    if msg == WM_INPUT {
        NotifyAction::ReadInput
    } else if msg == WM_POWERBROADCAST && (w == PBT_APMRESUMEAUTOMATIC || w
        == PBT_APMRESUMESUSPEND) {
        NotifyAction::Rehook
    } else if msg == WM_WTSSESSION_CHANGE && (w == WTS_SESSION_UNLOCK || w == WTS_REMOTE_CONNECT
        || w == WTS_CONSOLE_CONNECT) {
        NotifyAction::Rehook
    } else {
        NotifyAction::Pass
    }
}

/// The message to post to the hook thread to have the hook installed anew; none while the thread
/// is not running.
pub fn request_rehook(thread_id: u32) -> (r: Option<u32>)
    ensures
        r == (if thread_id == 0 {
            None
        } else {
            Some(WM_REQUEST_REHOOK)
        }),
{
    if thread_id == 0 {
        None
    } else {
        Some(WM_REQUEST_REHOOK)
    }
}

/// What is done about the keyboard hook. Hooks are told apart by their handles.
#[derive(Clone, Copy, Debug, PartialEq, Eq, Structural)]
pub enum HookStep {
    /// Remove this hook.
    Remove(isize),
    /// Install a hook, and report back how that went.
    Install,
}

/// The steps between two messages: where the hook is to be installed anew, the one that is held
/// is removed, and then one is installed.
pub open spec fn steps_when(due: bool, held: isize) -> Seq<HookStep> {
    if due {
        seq![HookStep::Remove(held), HookStep::Install]
    } else {
        Seq::empty()
    }
}

/// The steps between two messages.
pub fn rehook_steps(due: bool, held: isize) -> (r: Vec<HookStep>)
    ensures
        r@ == steps_when(due, held),
{
    let mut steps: Vec<HookStep> = Vec::new();
    if due {
        steps.push(HookStep::Remove(held));
        steps.push(HookStep::Install);
    }
    assert(steps@ =~= steps_when(due, held));
    steps
}

/// The keyboard hook as its thread keeps it.
#[derive(Clone, Copy, Debug, PartialEq, Eq, Structural)]
pub struct Rehook {
    /// Whether a re-installation is outstanding.
    pub requested: bool,
    /// The hook that was installed last.
    pub held: isize,
}

impl Rehook {
    /// Nothing is outstanding at the start.
    pub fn new(held: isize) -> (r: Self)
        ensures
            r == (Rehook { requested: false, held }),
    {
        Rehook { requested: false, held }
    }

    /// Notes a message that the hook thread took from its queue.
    pub fn on_message(&mut self, msg: u32)
        ensures
            *final(self) == (Rehook {
                requested: old(self).requested || msg == WM_REQUEST_REHOOK,
                ..*old(self)
            }),
    {
        if msg == WM_REQUEST_REHOOK {
            self.requested = true;
        }
    }

    /// Notes what the notification window decided while the message was dispatched.
    pub fn on_notify(&mut self, action: NotifyAction)
        ensures
            *final(self) == (Rehook {
                requested: old(self).requested || action == NotifyAction::Rehook,
                ..*old(self)
            }),
    {
        if action == NotifyAction::Rehook {
            self.requested = true;
        }
    }

    /// The steps to take once the message was dispatched; the request is done with.
    pub fn after_dispatch(&mut self) -> (r: Vec<HookStep>)
        ensures
            r@ == steps_when(old(self).requested, old(self).held),
            *final(self) == (Rehook { requested: false, ..*old(self) }),
    {
        let due = self.requested;
        self.requested = false;
        rehook_steps(due, self.held)
    }

    /// Takes in the hook that was installed; none where that failed.
    pub fn installed(&mut self, fresh: Option<isize>)
        ensures
            *final(self) == (Rehook {
                held: match fresh {
                    Some(handle) => handle,
                    None => old(self).held,
                },
                ..*old(self)
            }),
    {
        if let Some(handle) = fresh {
            self.held = handle;
        }
    }

    /// The step to take when the thread ends.
    pub fn finish(&self) -> (r: HookStep)
        ensures
            r == HookStep::Remove(self.held),
    {
        HookStep::Remove(self.held)
    }
}

// ---------------------------------------------------------------- raw input

/// Whether the system told a usable size for a raw input packet.
pub fn packet_size_usable(status: u32, size: u32) -> (r: bool)
    ensures
        r == (status != u32::MAX && size != 0),
{
    status != u32::MAX && size != 0
}

/// Whether the packet was read whole: as many bytes as its size.
pub fn packet_complete(read: u32, size: u32) -> (r: bool)
    ensures
        r == (read == size),
{
    read == size
}

/// The number that stands in the four bytes at a place of the packet, the lowest byte first; 0
/// where the packet ends before them.
pub open spec fn field_at(packet: Seq<u8>, at: int) -> u32 {
    if at + 4 <= packet.len() {
        (packet[at] + packet[at + 1] * 0x100 + packet[at + 2] * 0x1_0000 + packet[at + 3]
            * 0x100_0000) as u32
    } else {
        0
    }
}

/// The number that stands at a place of the packet.
pub fn number_at(packet: &Vec<u8>, at: usize) -> (r: u32)
    ensures
        r == field_at(packet@, at as int),
{
    let len: usize = packet.len();
    if at > len || len - at < 4 {
        return 0;
    }
    packet[at] as u32 + packet[at + 1] as u32 * 0x100 + packet[at + 2] as u32 * 0x1_0000 + packet[at
        + 3] as u32 * 0x100_0000
}

/// Where the fields of a raw input packet stand.
#[derive(Clone, Copy, Debug, PartialEq, Eq, Structural)]
pub struct PacketLayout {
    /// The kind of the packet.
    pub kind: usize,
    /// The size of one report.
    pub report_size: usize,
    /// The number of reports.
    pub report_count: usize,
    /// The first report.
    pub reports: usize,
}

/// Reads the volume steps out of a raw input packet by the layout of its fields.
pub fn read_packet(packet: &Vec<u8>, layout: PacketLayout) -> (r: Vec<VolumeEvent>)
    ensures
        r@ == packet_events(
            packet@,
            field_at(packet@, layout.kind as int),
            layout.reports as int,
            field_at(packet@, layout.report_size as int) as int,
            field_at(packet@, layout.report_count as int) as nat,
        ),
{
    handle_raw_input(
        packet,
        number_at(packet, layout.kind),
        layout.reports,
        number_at(packet, layout.report_size),
        number_at(packet, layout.report_count),
    )
}

/// What a report means: byte 0 is the report id, byte 1 the action. A release, or a report of
/// another kind, means nothing.
pub open spec fn report_event(id: u8, action: u8) -> Option<VolumeEvent> {
    if id == VOLUME_REPORT_ID && action == VOLUME_REPORT_UP {
        Some(VolumeEvent::Up)
    } else if id == VOLUME_REPORT_ID && action == VOLUME_REPORT_DOWN {
        Some(VolumeEvent::Down)
    } else {
        None
    }
}

/// The steps that the first `n` reports of `size` bytes each tell of, in their order.
pub open spec fn report_events(bytes: Seq<u8>, size: int, n: nat) -> Seq<VolumeEvent>
    decreases n,
{
    if n == 0 {
        Seq::empty()
    } else {
        let before = report_events(bytes, size, (n - 1) as nat);
        match report_event(bytes[(n - 1) * size], bytes[(n - 1) * size + 1]) {
            Some(event) => before.push(event),
            None => before,
        }
    }
}

/// The steps that a raw input packet tells of. The reports begin at `offset`; a packet of another
/// kind, without reports, with reports too short, or cut off, tells of none.
pub open spec fn packet_events(
    packet: Seq<u8>,
    kind: u32,
    offset: int,
    size: int,
    count: nat,
) -> Seq<VolumeEvent> {
    if kind != RIM_TYPEHID || size < 2 || count == 0 || offset + size * count > packet.len() {
        Seq::empty()
    } else {
        report_events(packet.skip(offset), size, count)
    }
}

/// Reads the volume steps out of a raw input packet.
pub fn handle_raw_input(
    packet: &Vec<u8>,
    kind: u32,
    offset: usize,
    report_size: u32,
    report_count: u32,
) -> (r: Vec<VolumeEvent>)
    ensures
        r@ == packet_events(
            packet@,
            kind,
            offset as int,
            report_size as int,
            report_count as nat,
        ),
{
    let mut events: Vec<VolumeEvent> = Vec::new();
    if kind != RIM_TYPEHID || report_size < 2 || report_count == 0 {
        return events;
    }
    let size: u64 = report_size as u64;
    let count: u64 = report_count as u64;
    assert(size * count <= u32::MAX * u32::MAX) by (nonlinear_arith)
        requires
            size <= u32::MAX,
            count <= u32::MAX,
    ;
    let total: u64 = size * count;
    let len: usize = packet.len();
    if offset > len || total > (len - offset) as u64 {
        return events;
    }
    let ghost bytes = packet@.skip(offset as int);
    let mut i: u64 = 0;
    while i < count
        invariant
            i <= count,
            size >= 2,
            total == size * count,
            len == packet@.len(),
            offset <= len,
            total <= len - offset,
            bytes == packet@.skip(offset as int),
            events@ == report_events(bytes, size as int, i as nat),
        decreases count - i,
    {
        assert(i * size + size <= total) by (nonlinear_arith)
            requires
                i < count,
                total == size * count,
        ;
        assert(0 <= i * size) by (nonlinear_arith)
            requires
                0 <= i,
                0 <= size,
        ;
        let at: u64 = i * size;
        let place: usize = offset + at as usize;
        let id = packet[place];
        let action = packet[place + 1];
        assert(bytes[at as int] == id);
        assert(bytes[at + 1] == action);
        if id == VOLUME_REPORT_ID {
            if action == VOLUME_REPORT_UP {
                events.push(VolumeEvent::Up);
            } else if action == VOLUME_REPORT_DOWN {
                events.push(VolumeEvent::Down);
            }
        }
        i = i + 1;
    }
    events
}

// ---------------------------------------------------------------- laws

/// While the daemon is unreachable every keystroke is left to Windows.
pub proof fn keys_stay_while_disconnected(n_code: i32, msg: u32, vk: u16)
    ensures
        key_verdict(n_code, msg, vk, false) == (KeyVerdict { event: None, swallow: false }),
{
}

/// While the daemon is reachable, Windows sees neither edge of a volume key, so it never sees half
/// of a keystroke, and the press alone is one step.
pub proof fn volume_key_is_one_step(n_code: i32, vk: u16, down: u32, up: u32)
    requires
        n_code >= 0,
        volume_key(vk) is Some,
        key_pressed(down),
        key_released(up),
    ensures
        key_verdict(n_code, down, vk, true) == (KeyVerdict { event: volume_key(vk), swallow: true }),
        key_verdict(n_code, up, vk, true) == (KeyVerdict { event: None, swallow: true }),
{
}

/// Keys other than the volume keys are never touched.
pub proof fn other_keys_pass(n_code: i32, msg: u32, vk: u16, connected: bool)
    requires
        vk != VK_VOLUME_UP,
        vk != VK_VOLUME_DOWN,
    ensures
        key_verdict(n_code, msg, vk, connected) == (KeyVerdict { event: None, swallow: false }),
{
}

/// A packet never tells of more steps than it has reports.
pub proof fn at_most_one_step_per_report(bytes: Seq<u8>, size: int, n: nat)
    ensures
        report_events(bytes, size, n).len() <= n,
    decreases n,
{
    if n > 0 {
        at_most_one_step_per_report(bytes, size, (n - 1) as nat);
    }
}

// ---------------------------------------------------------------- the hook's course

/// One round of the hook thread: the message that it takes, what the notification window decides
/// while the message is dispatched, and the hook that an installation gives, if one is asked for
/// and succeeds.
pub struct Round {
    pub msg: u32,
    pub notified: Seq<NotifyAction>,
    pub fresh: Option<isize>,
}

/// The hook after everything that the notification window decided.
pub open spec fn all_notified(h: Rehook, actions: Seq<NotifyAction>) -> Rehook
    decreases actions.len(),
{
    if actions.len() == 0 {
        h
    } else {
        let before = all_notified(h, actions.drop_last());
        Rehook {
            requested: before.requested || actions.last() == NotifyAction::Rehook,
            ..before
        }
    }
}

/// The hook after a round, and the steps that were taken in it.
pub open spec fn round_taken(h: Rehook, round: Round) -> (Rehook, Seq<HookStep>) {
    let noted = all_notified(
        Rehook { requested: h.requested || round.msg == WM_REQUEST_REHOOK, ..h },
        round.notified,
    );
    let steps = steps_when(noted.requested, noted.held);
    let held = match round.fresh {
        Some(handle) => if steps.contains(HookStep::Install) {
            handle
        } else {
            noted.held
        },
        None => noted.held,
    };
    (Rehook { requested: false, held }, steps)
}

/// The hook after rounds, and the steps that were taken in them.
pub open spec fn rounds_taken(h: Rehook, rounds: Seq<Round>) -> (Rehook, Seq<HookStep>)
    decreases rounds.len(),
{
    if rounds.len() == 0 {
        (h, Seq::empty())
    } else {
        let (before, steps) = rounds_taken(h, rounds.drop_last());
        let (after, more) = round_taken(before, rounds.last());
        (after, steps + more)
    }
}

/// The hooks that the thread held, the first one first.
pub open spec fn hooks_held(h: Rehook, rounds: Seq<Round>) -> Seq<isize>
    decreases rounds.len(),
{
    if rounds.len() == 0 {
        seq![h.held]
    } else {
        hooks_held(h, rounds.drop_last()).push(rounds_taken(h, rounds).0.held)
    }
}

/// Between two messages the request is done with. Where one was made by the message taken or
/// while it was dispatched, or was outstanding, the hook that was held is removed once and then
/// one is asked for; otherwise no hook is touched. Where the installation fails, the thread goes
/// on with what it had.
pub proof fn request_replaces_the_hook_once(h: Rehook, round: Round)
    ensures
        ({
            let due = h.requested || round.msg == WM_REQUEST_REHOOK || round.notified.contains(
                NotifyAction::Rehook,
            );
            let (after, steps) = round_taken(h, round);
            &&& !after.requested
            &&& steps == (if due {
                seq![HookStep::Remove(h.held), HookStep::Install]
            } else {
                Seq::<HookStep>::empty()
            })
            &&& after.held == (if due && round.fresh is Some {
                round.fresh->0
            } else {
                h.held
            })
        }),
{
    lemma_all_notified(
        Rehook { requested: h.requested || round.msg == WM_REQUEST_REHOOK, ..h },
        round.notified,
    );
    assert(seq![HookStep::Remove(h.held), HookStep::Install][1] == HookStep::Install);
}

/// What all decisions of the notification window come to.
proof fn lemma_all_notified(h: Rehook, actions: Seq<NotifyAction>)
    ensures
        all_notified(h, actions) == (Rehook {
            requested: h.requested || actions.contains(NotifyAction::Rehook),
            ..h
        }),
    decreases actions.len(),
{
    if actions.len() > 0 {
        let before = actions.drop_last();
        lemma_all_notified(h, before);
        if before.contains(NotifyAction::Rehook) {
            let i = choose|i: int| 0 <= i < before.len() && before[i] == NotifyAction::Rehook;
            assert(actions[i] == NotifyAction::Rehook);
        }
        if actions.contains(NotifyAction::Rehook) && actions.last() != NotifyAction::Rehook {
            let i = choose|i: int| 0 <= i < actions.len() && actions[i] == NotifyAction::Rehook;
            assert(before[i] == NotifyAction::Rehook);
        }
    }
}

/// However long the thread runs, no request is left over between messages, and when it ends and
/// removes the hook that it holds, every hook that it ever held has been removed.
pub proof fn no_hook_is_left_behind(h: Rehook, rounds: Seq<Round>, hook: isize)
    requires
        hooks_held(h, rounds).contains(hook),
    ensures
        rounds.len() > 0 ==> !rounds_taken(h, rounds).0.requested,
        rounds_taken(h, rounds).1.push(HookStep::Remove(rounds_taken(h, rounds).0.held)).contains(
            HookStep::Remove(hook),
        ),
    decreases rounds.len(),
{
    let (after, steps) = rounds_taken(h, rounds);
    let all = steps.push(HookStep::Remove(after.held));
    assert(all[steps.len() as int] == HookStep::Remove(after.held));
    if rounds.len() > 0 && hook != after.held {
        let early = rounds.drop_last();
        let (before, first) = rounds_taken(h, early);
        let held = hooks_held(h, rounds);
        let i = choose|i: int| 0 <= i < held.len() && held[i] == hook;
        assert(hooks_held(h, early)[i] == hook);
        no_hook_is_left_behind(h, early, hook);
        request_replaces_the_hook_once(before, rounds.last());
        let more = round_taken(before, rounds.last()).1;
        let earlier = first.push(HookStep::Remove(before.held));
        let k = choose|k: int| 0 <= k < earlier.len() && earlier[k] == HookStep::Remove(hook);
        if k < first.len() {
            assert(all[k] == HookStep::Remove(hook));
        } else {
            assert(before.held == hook);
            assert(more[0] == HookStep::Remove(hook));
            assert(all[first.len() as int] == HookStep::Remove(hook));
        }
    }
}

// ---------------------------------------------------------------- what counts as a step

/// What becomes of a keystroke: a press of the volume-up key (0xAF) is a step up and one of the
/// volume-down key (0xAE) a step down, only while the daemon is connected and the system asks for
/// a verdict; press and release of these keys are kept from Windows under the same conditions.
/// Nothing else is a step, and nothing else is kept.
pub proof fn verdict_by_key_and_message(n_code: i32, msg: u32, vk: u16, connected: bool)
    ensures
        ({
            let v = key_verdict(n_code, msg, vk, connected);
            let ours = n_code >= 0 && connected && (vk == 0xAF || vk == 0xAE);
            let down = msg == 0x100 || msg == 0x104;
            let up = msg == 0x101 || msg == 0x105;
            &&& v.event == Some(VolumeEvent::Up) <==> ours && down && vk == 0xAF
            &&& v.event == Some(VolumeEvent::Down) <==> ours && down && vk == 0xAE
            &&& v.swallow <==> ours && (down || up)
        }),
{
}

/// When the hook is in danger: on resume from suspend (0x07, 0x12), and on console connect (1),
/// remote connect (6) and unlock (8) of the session; at no other time.
pub proof fn hook_is_in_danger_after_resume_and_unlock(msg: u32, w_param: u32)
    ensures
        hook_endangered(msg, w_param) <==> (msg == 0x218 && (w_param == 0x07 || w_param == 0x12))
            || (msg == 0x2B1 && (w_param == 1 || w_param == 6 || w_param == 8)),
        WM_INPUT == 0xFF,
        WM_REQUEST_REHOOK == 0x8001,
        RIM_TYPEHID == 2,
        HID_USAGE_PAGE_CONSUMER == 0x0C,
        HID_USAGE_CONSUMER_CONTROL == 0x01,
{
}

/// The steps that the first `n` reports tell of, by picking the reports that are steps.
proof fn lemma_reports(bytes: Seq<u8>, size: int, n: nat)
    ensures
        report_events(bytes, size, n) == Seq::new(
            n,
            |k: int| (bytes[k * size], bytes[k * size + 1]),
        ).filter(is_step()).map_values(step_told()),
    decreases n,
{
    reveal(Seq::filter);
    let pairs = Seq::new(n, |k: int| (bytes[k * size], bytes[k * size + 1]));
    if n > 0 {
        let early = Seq::new((n - 1) as nat, |k: int| (bytes[k * size], bytes[k * size + 1]));
        lemma_reports(bytes, size, (n - 1) as nat);
        assert(pairs.drop_last() =~= early);
        let last = (bytes[(n - 1) * size], bytes[(n - 1) * size + 1]);
        assert(pairs.last() == last);
        if is_step()(last) {
            assert(pairs.filter(is_step()).map_values(step_told()) =~= early.filter(
                is_step(),
            ).map_values(step_told()).push(step_told()(last)));
        }
    } else {
        assert(pairs =~= Seq::empty());
        assert(pairs.filter(is_step()).map_values(step_told()) =~= Seq::empty());
    }
}

spec fn is_step() -> spec_fn((u8, u8)) -> bool {
    |r: (u8, u8)| r.0 == 0x02 && (r.1 == 0x01 || r.1 == 0x02)
}

spec fn step_told() -> spec_fn((u8, u8)) -> VolumeEvent {
    |r: (u8, u8)|
        if r.1 == 0x01 {
            VolumeEvent::Up
        } else {
            VolumeEvent::Down
        }
}

/// Which steps a packet tells of: of a HID packet that holds all of its reports, of at least two
/// bytes each, those reports tell of a step that have 0x02 as their first byte and 0x01 or 0x02 as
/// their second, up and down, in the order of the reports; no other report, and no other packet,
/// tells of any.
pub proof fn packet_tells_each_of_its_steps(
    packet: Seq<u8>,
    kind: u32,
    offset: int,
    size: int,
    count: nat,
)
    requires
        offset >= 0,
    ensures
        kind == 2 && size >= 2 && offset + size * count <= packet.len() ==> packet_events(
            packet,
            kind,
            offset,
            size,
            count,
        ) == Seq::new(
            count,
            |k: int| (packet[offset + k * size], packet[offset + k * size + 1]),
        ).filter(|r: (u8, u8)| r.0 == 0x02 && (r.1 == 0x01 || r.1 == 0x02)).map_values(
            |r: (u8, u8)|
                if r.1 == 0x01 {
                    VolumeEvent::Up
                } else {
                    VolumeEvent::Down
                },
        ),
        kind != 2 || size < 2 || offset + size * count > packet.len() ==> packet_events(
            packet,
            kind,
            offset,
            size,
            count,
        ) == Seq::<VolumeEvent>::empty(),
{
    let pick = |r: (u8, u8)| r.0 == 0x02 && (r.1 == 0x01 || r.1 == 0x02);
    let told = |r: (u8, u8)|
        if r.1 == 0x01 {
            VolumeEvent::Up
        } else {
            VolumeEvent::Down
        };
    assert(pick =~= is_step());
    assert(told =~= step_told());
    if kind == 2 && size >= 2 && offset + size * count <= packet.len() {
        let bytes = packet.skip(offset);
        let here = Seq::new(
            count,
            |k: int| (packet[offset + k * size], packet[offset + k * size + 1]),
        );
        let there = Seq::new(count, |k: int| (bytes[k * size], bytes[k * size + 1]));
        assert forall|k: int| 0 <= k < count implies here[k] == there[k] by {
            assert(0 <= k * size && k * size + size <= size * count) by (nonlinear_arith)
                requires
                    0 <= k < count,
                    size >= 2,
            ;
        }
        assert(here =~= there);
        lemma_reports(bytes, size, count);
        if count == 0 {
            assert(report_events(bytes, size, 0) =~= Seq::empty());
        }
    }
}

/// A packet of one report tells of exactly the step that the report is.
pub proof fn single_report_is_its_step(packet: Seq<u8>, offset: int, size: int)
    requires
        0 <= offset,
        size >= 2,
        offset + size <= packet.len(),
    ensures
        packet[offset] == 0x02 && packet[offset + 1] == 0x01 ==> packet_events(
            packet,
            2,
            offset,
            size,
            1,
        ) == seq![VolumeEvent::Up],
        packet[offset] == 0x02 && packet[offset + 1] == 0x02 ==> packet_events(
            packet,
            2,
            offset,
            size,
            1,
        ) == seq![VolumeEvent::Down],
        packet[offset] != 0x02 || (packet[offset + 1] != 0x01 && packet[offset + 1] != 0x02)
            ==> packet_events(packet, 2, offset, size, 1) == Seq::<VolumeEvent>::empty(),
{
    let bytes = packet.skip(offset);
    assert(bytes[0] == packet[offset] && bytes[1] == packet[offset + 1]);
    reveal_with_fuel(report_events, 2);
    assert(report_events(bytes, size, 0) =~= Seq::empty());
    assert(packet_events(packet, 2, offset, size, 1) == report_events(bytes, size, 1));
    assert(report_events(bytes, size, 1) =~= (match report_event(bytes[0], bytes[1]) {
        Some(e) => seq![e],
        None => Seq::empty(),
    }));
}

/// The number in a packet's field is made of its four bytes, the first one the lowest, and is zero
/// where they are not all there.
pub proof fn field_is_made_of_its_bytes(packet: Seq<u8>, at: int)
    requires
        at >= 0,
    ensures
        at + 4 <= packet.len() ==> {
            &&& field_at(packet, at) % 256 == packet[at]
            &&& field_at(packet, at) / 256 % 256 == packet[at + 1]
            &&& field_at(packet, at) / 65536 % 256 == packet[at + 2]
            &&& field_at(packet, at) / 16777216 == packet[at + 3]
        },
        at + 4 > packet.len() ==> field_at(packet, at) == 0,
{
}

} // verus!
