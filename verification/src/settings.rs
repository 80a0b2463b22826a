//! The settings window: what a click, a key or the passing of time does to it.

use crate::config::channel_count;
use crate::draw::{divide, fits, in_rect, quotient, within, Rect};
use crate::hotkey::{build_hotkey_spec, combination_text, is_modifier, modifier_key, Modifiers};
use crate::message::{low_32, low_u32};
use crate::visibility::ConfigEdit;
use vstd::prelude::*;

verus! {

/// Size of the window's client area.
pub const CLIENT_W: i32 = 460;

pub const CLIENT_H: i32 = 780;

/// Win32 messages.
pub const WM_DESTROY: u32 = 0x0002;

pub const WM_PAINT: u32 = 0x000F;

pub const WM_ERASEBKGND: u32 = 0x0014;

pub const WM_SETCURSOR: u32 = 0x0020;

pub const WM_KEYDOWN: u32 = 0x0100;

pub const WM_TIMER: u32 = 0x0113;

pub const WM_MOUSEMOVE: u32 = 0x0200;

pub const WM_LBUTTONDOWN: u32 = 0x0201;

pub const WM_MOUSELEAVE: u32 = 0x02A3;

/// Asks an open window to come to the front: `WM_USER + 1`.
pub const WM_BRING_FRONT: u32 = 0x0401;

/// Timer on which the window looks whether the active channel has changed.
pub const ACTIVE_POLL_TIMER_ID: usize = 1;

pub const ACTIVE_POLL_MS: u32 = 400;

/// Virtual key that ends a recording.
pub const VK_ESCAPE: u32 = 0x1B;

/// Language of the help view.
#[derive(Clone, Copy, Debug, PartialEq, Eq, Structural)]
pub enum HelpLang {
    En,
    Fr,
}

/// What a click does.
#[derive(Clone, Copy, Debug, PartialEq, Eq, Structural)]
pub enum Action {
    /// Select this channel as the one the volume wheel currently controls. Transient — never
    /// written to disk.
    SetActive(usize),
    /// Mark this channel as the startup default. Does not affect the active channel until the
    /// next app launch.
    SetFavorite(usize),
    /// Toggle the channel's presence in the cycle hotkey rotation and the tray right-click menu.
    ToggleVisible(usize),
    RecordHotkey,
    ToggleAutostart,
    ReinstallHook,
    OpenLogFolder,
    OpenConfigFolder,
    OpenHelp,
    CloseHelp,
    SetHelpLang(HelpLang),
}

impl Action {
    /// Whether the action speaks of a channel that there is.
    pub open spec fn valid(self) -> bool {
        match self {
            Action::SetActive(i) => i < channel_count(),
            Action::SetFavorite(i) => i < channel_count(),
            Action::ToggleVisible(i) => i < channel_count(),
            _ => true,
        }
    }
}

/// A place that can be clicked.
#[derive(Clone, Copy, Debug, PartialEq, Eq, Structural)]
pub struct HitRegion {
    pub rect: Rect,
    pub action: Action,
}

/// The window.
pub struct WindowState {
    /// The places that can be clicked, as painted last.
    pub regions: Vec<HitRegion>,
    /// The region under the mouse.
    pub hovered: Option<usize>,
    /// Whether the next key combination becomes the cycle hotkey.
    pub recording: bool,
    pub autostart: bool,
    /// Whether the system was asked to tell when the mouse leaves.
    pub mouse_tracking: bool,
    pub show_help: bool,
    pub help_lang: HelpLang,
    /// The active channel that the window last took note of.
    pub last_seen_active: usize,
}

impl WindowState {
    /// Whether every region leads to a valid action.
    pub open spec fn valid(self) -> bool {
        forall|i: int| 0 <= i < self.regions@.len() ==> (#[trigger] self.regions@[i]).action.valid()
    }

    /// A window that was just opened.
    pub fn new(autostart: bool, active: usize) -> (r: Self)
        ensures
            r.valid(),
            r.regions@ == Seq::<HitRegion>::empty(),
            r.hovered is None,
            !r.recording,
            r.autostart == autostart,
            !r.mouse_tracking,
            !r.show_help,
            r.help_lang == HelpLang::En,
            r.last_seen_active == active,
    {
        WindowState {
            regions: Vec::new(),
            hovered: None,
            recording: false,
            autostart,
            mouse_tracking: false,
            show_help: false,
            help_lang: HelpLang::En,
            last_seen_active: active,
        }
    }
}

// ---------------------------------------------------------------- effects

/// The mouse pointer.
#[derive(Clone, Copy, Debug, PartialEq, Eq, Structural)]
pub enum Pointer {
    Hand,
    Arrow,
}

/// What the window asks the rest of the application to do.
#[derive(Debug, PartialEq, Eq)]
pub enum Effect {
    /// Paint the window now.
    Paint,
    /// Have the window painted again.
    Repaint,
    /// Have the system tell when the mouse leaves.
    TrackMouse,
    SetPointer(Pointer),
    /// Make this channel the active one.
    StoreActive(usize),
    /// Edit the configuration.
    Edit(ConfigEdit),
    /// Release the cycle hotkey so that its keys can be recorded.
    PauseHotkey,
    /// Register the cycle hotkey that is configured.
    ResumeHotkey,
    /// Take the keyboard.
    Focus,
    /// Switch starting with Windows on or off, and report back how that went.
    SetAutostart(bool),
    /// Have the keyboard hook installed anew.
    Rehook,
    OpenLogFolder,
    OpenConfigFolder,
    /// Restore the window and bring it to the front.
    BringToFront,
    /// Stop the timer and end the window's thread.
    Close,
}

/// What an [`Effect`] asks for.
pub enum EffectView {
    Paint,
    Repaint,
    TrackMouse,
    SetPointer(Pointer),
    StoreActive(usize),
    Favorite(usize),
    ToggleVisible(usize),
    Hotkey(Seq<char>),
    PauseHotkey,
    ResumeHotkey,
    Focus,
    SetAutostart(bool),
    Rehook,
    OpenLogFolder,
    OpenConfigFolder,
    BringToFront,
    Close,
}

impl View for Effect {
    type V = EffectView;

    open spec fn view(&self) -> EffectView {
        match *self {
            Effect::Paint => EffectView::Paint,
            Effect::Repaint => EffectView::Repaint,
            Effect::TrackMouse => EffectView::TrackMouse,
            Effect::SetPointer(p) => EffectView::SetPointer(p),
            Effect::StoreActive(i) => EffectView::StoreActive(i),
            Effect::Edit(ConfigEdit::Favorite(i)) => EffectView::Favorite(i),
            Effect::Edit(ConfigEdit::ToggleVisible(i)) => EffectView::ToggleVisible(i),
            Effect::Edit(ConfigEdit::Hotkey(s)) => EffectView::Hotkey(s@),
            Effect::PauseHotkey => EffectView::PauseHotkey,
            Effect::ResumeHotkey => EffectView::ResumeHotkey,
            Effect::Focus => EffectView::Focus,
            Effect::SetAutostart(on) => EffectView::SetAutostart(on),
            Effect::Rehook => EffectView::Rehook,
            Effect::OpenLogFolder => EffectView::OpenLogFolder,
            Effect::OpenConfigFolder => EffectView::OpenConfigFolder,
            Effect::BringToFront => EffectView::BringToFront,
            Effect::Close => EffectView::Close,
        }
    }
}

/// What a list of effects asks for.
pub open spec fn effect_views(effects: Seq<Effect>) -> Seq<EffectView> {
    effects.map_values(|e: Effect| e@)
}

/// Adds an effect.
fn ask(effects: &mut Vec<Effect>, effect: Effect)
    ensures
        effect_views(final(effects)@) == effect_views(old(effects)@).push(effect@),
{
    effects.push(effect);
    assert(effect_views(effects@) =~= effect_views(old(effects)@).push(effect@));
}

/// No effects.
fn nothing() -> (r: Vec<Effect>)
    ensures
        effect_views(r@) == Seq::<EffectView>::empty(),
{
    let r: Vec<Effect> = Vec::new();
    assert(effect_views(r@) =~= Seq::<EffectView>::empty());
    r
}

// ---------------------------------------------------------------- opening

/// What opening the settings does.
#[derive(Clone, Copy, Debug, PartialEq, Eq, Structural)]
pub enum OpenSettings {
    /// Post this message to the window that is open.
    Post(u32),
    /// Open a window.
    Create,
}

/// There is one settings window at most: where one is open it comes to the front.
pub fn open(existing: isize) -> (r: OpenSettings)
    ensures
        r == (if existing != 0 {
            OpenSettings::Post(WM_BRING_FRONT)
        } else {
            OpenSettings::Create
        }),
{
    if existing != 0 {
        OpenSettings::Post(WM_BRING_FRONT)
    } else {
        OpenSettings::Create
    }
}

/// Where a window of the given size stands: in the middle of the monitor's work area, or at a
/// fixed place where that cannot be told.
pub fn center_on_active_monitor(work: Option<Rect>, win_w: i32, win_h: i32) -> (r: (i32, i32))
    requires
        work is Some ==> {
            let a = work->0;
            &&& fits(a.right - a.left)
            &&& fits(a.right - a.left - win_w)
            &&& fits(a.left + quotient(a.right - a.left - win_w, 2))
            &&& fits(a.bottom - a.top)
            &&& fits(a.bottom - a.top - win_h)
            &&& fits(a.top + quotient(a.bottom - a.top - win_h, 2))
        },
    ensures
        match work {
            Some(a) => {
                &&& r.0 == a.left + quotient(a.right - a.left - win_w, 2)
                &&& r.1 == a.top + quotient(a.bottom - a.top - win_h, 2)
            },
            None => r == (200i32, 200i32),
        },
{
    match work {
        Some(a) => {
            let x = a.left + divide(a.right - a.left - win_w, 2);
            let y = a.top + divide(a.bottom - a.top - win_h, 2);
            (x, y)
        },
        None => (200, 200),
    }
}

// ---------------------------------------------------------------- mouse

/// The low 16 bits of `n` as a signed number.
pub open spec fn low_word(n: int) -> int {
    (n + 0x8000) % 0x1_0000 - 0x8000
}

/// The point that a mouse message carries: x in the low 16 bits, y in the next 16.
pub open spec fn message_point(l_param: isize) -> (int, int) {
    (low_word(l_param as int), low_word(l_param as int / 0x1_0000))
}

/// The point that a mouse message carries.
pub fn mouse_point(l_param: isize) -> (r: (i32, i32))
    ensures
        (r.0 as int, r.1 as int) == message_point(l_param),
{
    let x: i32 = (l_param & 0xFFFF) as i16 as i32;
    let y: i32 = ((l_param >> 16) & 0xFFFF) as i16 as i32;
    proof {
        lemma_low_word(l_param);
        lemma_low_word(l_param >> 16);
        lemma_shift_16(l_param);
    }
    (x, y)
}

proof fn lemma_low_word(n: isize)
    ensures
        ((n & 0xFFFF) as i16) as int == low_word(n as int),
{
    assert((n - ((n & 0xFFFF) as i16) as isize) % 0x1_0000 == 0) by (bit_vector);
    assert(-0x8000 <= (n & 0xFFFF) as i16 <= 0x7FFF) by (bit_vector);
}

proof fn lemma_shift_16(n: isize)
    ensures
        (n >> 16) as int == n as int / 0x1_0000,
{
    assert((n - (n & 0xFFFF)) % 0x1_0000 == 0) by (bit_vector);
    assert(0 <= n & 0xFFFF <= 0xFFFF) by (bit_vector);
    assert((n >> 16) * 0x1_0000 == n - (n & 0xFFFF)) by (bit_vector);
}

/// The first region that holds the point.
pub open spec fn hit(regions: Seq<HitRegion>, x: int, y: int) -> Option<int>
    decreases regions.len(),
{
    if regions.len() == 0 {
        None
    } else if within(regions[0].rect, x, y) {
        Some(0)
    } else {
        match hit(regions.drop_first(), x, y) {
            Some(i) => Some(i + 1),
            None => None,
        }
    }
}

/// What [`hit`] finds: a region that holds the point with none before it.
pub proof fn lemma_hit(regions: Seq<HitRegion>, x: int, y: int)
    ensures
        match hit(regions, x, y) {
            Some(i) => {
                &&& 0 <= i < regions.len()
                &&& within(regions[i].rect, x, y)
                &&& forall|j: int| 0 <= j < i ==> !within((#[trigger] regions[j]).rect, x, y)
            },
            None => forall|j: int|
                0 <= j < regions.len() ==> !within((#[trigger] regions[j]).rect, x, y),
        },
    decreases regions.len(),
{
    if regions.len() > 0 && !within(regions[0].rect, x, y) {
        let rest = regions.drop_first();
        lemma_hit(rest, x, y);
        assert(forall|j: int| 0 < j < regions.len() ==> #[trigger] regions[j] == rest[j - 1]);
    }
}

/// A region that holds the point, with none before it, is the one that is hit.
pub proof fn lemma_hit_is(regions: Seq<HitRegion>, x: int, y: int, i: int)
    requires
        0 <= i < regions.len(),
        within(regions[i].rect, x, y),
        forall|j: int| 0 <= j < i ==> !within((#[trigger] regions[j]).rect, x, y),
    ensures
        hit(regions, x, y) == Some(i),
{
    lemma_hit(regions, x, y);
}

/// The region under a point.
pub fn region_at(regions: &Vec<HitRegion>, x: i32, y: i32) -> (r: Option<usize>)
    ensures
        match r {
            Some(i) => hit(regions@, x as int, y as int) == Some(i as int) && i < regions@.len(),
            None => hit(regions@, x as int, y as int) is None,
        },
{
    proof {
        lemma_hit(regions@, x as int, y as int);
    }
    for i in 0..regions.len()
        invariant
            forall|j: int|
                0 <= j < i ==> !within((#[trigger] regions@[j]).rect, x as int, y as int),
    {
        if in_rect(&regions[i].rect, x, y) {
            proof {
                lemma_hit_is(regions@, x as int, y as int, i as int);
            }
            return Some(i);
        }
    }
    None
}

// ---------------------------------------------------------------- actions

/// What a click does to the window, and what it asks for.
pub open spec fn acted(s: WindowState, action: Action) -> (WindowState, Seq<EffectView>) {
    match action {
        Action::SetActive(i) => (
            WindowState { last_seen_active: i, ..s },
            seq![EffectView::StoreActive(i), EffectView::Repaint],
        ),
        Action::SetFavorite(i) => (s, seq![EffectView::Favorite(i), EffectView::Repaint]),
        Action::ToggleVisible(i) => (s, seq![EffectView::ToggleVisible(i), EffectView::Repaint]),
        Action::RecordHotkey => (
            WindowState { recording: !s.recording, ..s },
            seq![
                if s.recording {
                    EffectView::ResumeHotkey
                } else {
                    EffectView::PauseHotkey
                },
                EffectView::Focus,
                EffectView::Repaint,
            ],
        ),
        Action::ToggleAutostart => (
            s,
            seq![EffectView::SetAutostart(!s.autostart), EffectView::Repaint],
        ),
        Action::ReinstallHook => (s, seq![EffectView::Rehook]),
        Action::OpenLogFolder => (s, seq![EffectView::OpenLogFolder]),
        Action::OpenConfigFolder => (s, seq![EffectView::OpenConfigFolder]),
        Action::OpenHelp => (
            WindowState { show_help: true, hovered: None, ..s },
            seq![EffectView::Repaint],
        ),
        Action::CloseHelp => (
            WindowState { show_help: false, hovered: None, ..s },
            seq![EffectView::Repaint],
        ),
        Action::SetHelpLang(lang) => (
            WindowState { help_lang: lang, ..s },
            seq![EffectView::Repaint],
        ),
    }
}

/// Ends a recording, if there is one.
fn stop_recording(state: &mut WindowState, effects: &mut Vec<Effect>)
    ensures
        *final(state) == (WindowState { recording: false, ..*old(state) }),
        effect_views(final(effects)@) == (if old(state).recording {
            effect_views(old(effects)@).push(EffectView::ResumeHotkey)
        } else {
            effect_views(old(effects)@)
        }),
{
    if state.recording {
        state.recording = false;
        ask(effects, Effect::ResumeHotkey);
    }
}

/// Takes a click on a region.
pub fn handle_action(state: &mut WindowState, action: Action) -> (effects: Vec<Effect>)
    ensures
        (*final(state), effect_views(effects@)) == acted(*old(state), action),
{
    let mut effects = nothing();
    match action {
        Action::SetActive(i) => {
            state.last_seen_active = i;
            ask(&mut effects, Effect::StoreActive(i));
            ask(&mut effects, Effect::Repaint);
        },
        Action::SetFavorite(i) => {
            ask(&mut effects, Effect::Edit(ConfigEdit::Favorite(i)));
            ask(&mut effects, Effect::Repaint);
        },
        Action::ToggleVisible(i) => {
            ask(&mut effects, Effect::Edit(ConfigEdit::ToggleVisible(i)));
            ask(&mut effects, Effect::Repaint);
        },
        Action::RecordHotkey => {
            if state.recording {
                stop_recording(state, &mut effects);
            } else {
                state.recording = true;
                ask(&mut effects, Effect::PauseHotkey);
            }
            ask(&mut effects, Effect::Focus);
            ask(&mut effects, Effect::Repaint);
        },
        Action::ToggleAutostart => {
            ask(&mut effects, Effect::SetAutostart(!state.autostart));
            ask(&mut effects, Effect::Repaint);
        },
        Action::ReinstallHook => {
            ask(&mut effects, Effect::Rehook);
        },
        Action::OpenLogFolder => {
            ask(&mut effects, Effect::OpenLogFolder);
        },
        Action::OpenConfigFolder => {
            ask(&mut effects, Effect::OpenConfigFolder);
        },
        Action::OpenHelp => {
            state.show_help = true;
            state.hovered = None;
            ask(&mut effects, Effect::Repaint);
        },
        Action::CloseHelp => {
            state.show_help = false;
            state.hovered = None;
            ask(&mut effects, Effect::Repaint);
        },
        Action::SetHelpLang(lang) => {
            state.help_lang = lang;
            ask(&mut effects, Effect::Repaint);
        },
    }
    assert(effect_views(effects@) =~= acted(*old(state), action).1);
    effects
}

/// Takes in how switching autostart went: the switch follows only where it succeeded.
pub fn autostart_done(state: &mut WindowState, on: bool, succeeded: bool)
    ensures
        *final(state) == (if succeeded {
            WindowState { autostart: on, ..*old(state) }
        } else {
            *old(state)
        }),
{
    if succeeded {
        state.autostart = on;
    }
}

/// Takes in the regions of a freshly painted view.
pub fn painted(state: &mut WindowState, regions: Vec<HitRegion>)
    requires
        forall|i: int| 0 <= i < regions@.len() ==> (#[trigger] regions@[i]).action.valid(),
    ensures
        *final(state) == (WindowState { regions, ..*old(state) }),
        final(state).valid(),
{
    state.regions = regions;
}

// ---------------------------------------------------------------- messages

/// A message to the window, with what can be asked of the system at that moment.
#[derive(Clone, Copy)]
pub struct Input {
    pub msg: u32,
    pub w_param: usize,
    pub l_param: isize,
    /// The modifiers that are held down.
    pub keys: Modifiers,
    /// The active channel.
    pub active: usize,
}

/// What the system is answered.
#[derive(Clone, Copy, Debug, PartialEq, Eq, Structural)]
pub enum Answer {
    /// This number.
    Return(isize),
    /// What it answers by default.
    Default,
}

/// What the window asks for and answers.
pub struct Reaction {
    pub effects: Vec<Effect>,
    pub answer: Answer,
}

/// The region under a point, as the window notes it.
pub open spec fn hover(regions: Seq<HitRegion>, x: int, y: int) -> Option<usize> {
    match hit(regions, x, y) {
        Some(i) => Some(i as usize),
        None => None,
    }
}

/// `e` alone, or nothing.
pub open spec fn effect_if(on: bool, e: EffectView) -> Seq<EffectView> {
    if on {
        seq![e]
    } else {
        Seq::empty()
    }
}

/// What moving the mouse does.
pub open spec fn mouse_moved(s: WindowState, l_param: isize) -> (WindowState, Seq<EffectView>) {
    let (x, y) = message_point(l_param);
    let over = hover(s.regions@, x, y);
    (
        WindowState { mouse_tracking: true, hovered: over, ..s },
        effect_if(!s.mouse_tracking, EffectView::TrackMouse) + effect_if(
            over != s.hovered,
            EffectView::Repaint,
        ),
    )
}

/// What pressing the left button does: what is clicked acts; a click beside everything ends a
/// recording.
pub open spec fn clicked(s: WindowState, l_param: isize) -> (WindowState, Seq<EffectView>) {
    let (x, y) = message_point(l_param);
    match hit(s.regions@, x, y) {
        Some(i) => acted(s, s.regions@[i].action),
        None => if s.recording {
            (
                WindowState { recording: false, ..s },
                seq![EffectView::ResumeHotkey, EffectView::Repaint],
            )
        } else {
            (s, Seq::empty())
        },
    }
}

/// What a key does while a recording runs: Escape ends it, a modifier alone is waited out, any
/// other key ends it and becomes the hotkey where the combination can be one.
pub open spec fn key_recorded(s: WindowState, vk: u32, keys: Modifiers) -> (
    WindowState,
    Seq<EffectView>,
) {
    let done = WindowState { recording: false, ..s };
    let close = seq![EffectView::ResumeHotkey, EffectView::Repaint];
    if vk == VK_ESCAPE {
        (done, close)
    } else if modifier_key(vk) {
        (s, Seq::empty())
    } else {
        match combination_text(keys, vk) {
            Some(text) => (done, seq![EffectView::Hotkey(text)] + close),
            None => (done, close),
        }
    }
}

/// What a message does to the window, what it asks for, and what is answered.
pub open spec fn step(s: WindowState, i: Input) -> (WindowState, Seq<EffectView>, Answer) {
    if i.msg == WM_ERASEBKGND {
        (s, Seq::empty(), Answer::Return(1))
    } else if i.msg == WM_PAINT {
        (s, seq![EffectView::Paint], Answer::Return(0))
    } else if i.msg == WM_MOUSEMOVE {
        let (after, effects) = mouse_moved(s, i.l_param);
        (after, effects, Answer::Return(0))
    } else if i.msg == WM_MOUSELEAVE {
        (
            WindowState { mouse_tracking: false, hovered: None, ..s },
            effect_if(s.hovered is Some, EffectView::Repaint),
            Answer::Return(0),
        )
    } else if i.msg == WM_LBUTTONDOWN {
        let (after, effects) = clicked(s, i.l_param);
        (after, effects, Answer::Return(0))
    } else if i.msg == WM_SETCURSOR {
        let pointer = if s.hovered is Some {
            Pointer::Hand
        } else {
            Pointer::Arrow
        };
        (s, seq![EffectView::SetPointer(pointer)], Answer::Return(1))
    } else if i.msg == WM_KEYDOWN && s.recording {
        let (after, effects) = key_recorded(s, low_32(i.w_param as int), i.keys);
        (after, effects, Answer::Return(0))
    } else if i.msg == WM_TIMER && i.w_param == ACTIVE_POLL_TIMER_ID {
        (
            WindowState { last_seen_active: i.active, ..s },
            effect_if(i.active != s.last_seen_active, EffectView::Repaint),
            Answer::Return(0),
        )
    } else if i.msg == WM_BRING_FRONT {
        (s, seq![EffectView::BringToFront], Answer::Return(0))
    } else if i.msg == WM_DESTROY {
        (
            s,
            effect_if(s.recording, EffectView::ResumeHotkey) + seq![EffectView::Close],
            Answer::Return(0),
        )
    } else {
        (s, Seq::empty(), Answer::Default)
    }
}

/// Takes a move of the mouse.
fn on_mouse_move(state: &mut WindowState, l_param: isize) -> (effects: Vec<Effect>)
    ensures
        (*final(state), effect_views(effects@)) == mouse_moved(*old(state), l_param),
{
    let mut effects = nothing();
    if !state.mouse_tracking {
        ask(&mut effects, Effect::TrackMouse);
        state.mouse_tracking = true;
    }
    let (x, y) = mouse_point(l_param);
    let over = region_at(&state.regions, x, y);
    if !same_index(over, state.hovered) {
        state.hovered = over;
        ask(&mut effects, Effect::Repaint);
    }
    assert(effect_views(effects@) =~= mouse_moved(*old(state), l_param).1);
    effects
}

/// Whether two optional indices are the same.
fn same_index(a: Option<usize>, b: Option<usize>) -> (r: bool)
    ensures
        r == (a == b),
{
    match a {
        Some(i) => match b {
            Some(j) => i == j,
            None => false,
        },
        None => b.is_none(),
    }
}

/// Takes a press of the left button.
fn on_click(state: &mut WindowState, l_param: isize) -> (effects: Vec<Effect>)
    ensures
        (*final(state), effect_views(effects@)) == clicked(*old(state), l_param),
{
    let (x, y) = mouse_point(l_param);
    match region_at(&state.regions, x, y) {
        Some(i) => {
            let action = state.regions[i].action;
            handle_action(state, action)
        },
        None => {
            let mut effects = nothing();
            if state.recording {
                stop_recording(state, &mut effects);
                ask(&mut effects, Effect::Repaint);
            }
            assert(effect_views(effects@) =~= clicked(*old(state), l_param).1);
            effects
        },
    }
}

/// Takes a key while a recording runs.
fn on_key(state: &mut WindowState, vk: u32, keys: Modifiers) -> (effects: Vec<Effect>)
    requires
        old(state).recording,
    ensures
        (*final(state), effect_views(effects@)) == key_recorded(*old(state), vk, keys),
{
    let mut effects = nothing();
    if vk == VK_ESCAPE {
        stop_recording(state, &mut effects);
        ask(&mut effects, Effect::Repaint);
    } else if !is_modifier(vk) {
        if let Some(spec) = build_hotkey_spec(keys, vk) {
            ask(&mut effects, Effect::Edit(ConfigEdit::Hotkey(spec)));
        }
        stop_recording(state, &mut effects);
        ask(&mut effects, Effect::Repaint);
    }
    assert(effect_views(effects@) =~= key_recorded(*old(state), vk, keys).1);
    effects
}

/// Takes a message to the window.
pub fn wndproc(state: &mut WindowState, input: Input) -> (r: Reaction)
    ensures
        (*final(state), effect_views(r.effects@), r.answer) == step(*old(state), input),
{
    let mut effects = nothing();
    let mut answer = Answer::Return(0);
    let msg = input.msg;
    if msg == WM_ERASEBKGND {
        answer = Answer::Return(1);
    } else if msg == WM_PAINT {
        ask(&mut effects, Effect::Paint);
    } else if msg == WM_MOUSEMOVE {
        effects = on_mouse_move(state, input.l_param);
    } else if msg == WM_MOUSELEAVE {
        state.mouse_tracking = false;
        if state.hovered.is_some() {
            state.hovered = None;
            ask(&mut effects, Effect::Repaint);
        }
    } else if msg == WM_LBUTTONDOWN {
        effects = on_click(state, input.l_param);
    } else if msg == WM_SETCURSOR {
        if state.hovered.is_some() {
            ask(&mut effects, Effect::SetPointer(Pointer::Hand));
        } else {
            ask(&mut effects, Effect::SetPointer(Pointer::Arrow));
        }
        answer = Answer::Return(1);
    } else if msg == WM_KEYDOWN && state.recording {
        effects = on_key(state, low_u32(input.w_param), input.keys);
    } else if msg == WM_TIMER && input.w_param == ACTIVE_POLL_TIMER_ID {
        if input.active != state.last_seen_active {
            state.last_seen_active = input.active;
            ask(&mut effects, Effect::Repaint);
        }
    } else if msg == WM_BRING_FRONT {
        ask(&mut effects, Effect::BringToFront);
    } else if msg == WM_DESTROY {
        if state.recording {
            ask(&mut effects, Effect::ResumeHotkey);
        }
        ask(&mut effects, Effect::Close);
    } else {
        answer = Answer::Default;
    }
    assert(effect_views(effects@) =~= step(*old(state), input).1);
    Reaction { effects, answer }
}

// ---------------------------------------------------------------- laws

/// The cycle hotkey is released exactly while a recording runs: it is paused exactly where one
/// begins, and resumed exactly where one ends or the window closes during one.
pub proof fn hotkey_is_paused_while_recording(s: WindowState, i: Input)
    ensures
        step(s, i).1.contains(EffectView::PauseHotkey) <==> !s.recording && step(s, i).0.recording,
        step(s, i).1.contains(EffectView::ResumeHotkey) <==> s.recording && (!step(
            s,
            i,
        ).0.recording || i.msg == WM_DESTROY),
{
    let e = step(s, i).1;
    if i.msg == WM_MOUSEMOVE || i.msg == WM_MOUSELEAVE {
        assert(forall|k: int|
            0 <= k < e.len() ==> #[trigger] e[k] == EffectView::TrackMouse || e[k]
                == EffectView::Repaint);
    } else if i.msg == WM_LBUTTONDOWN {
        let (x, y) = message_point(i.l_param);
        if e.len() > 0 {
            assert(e.contains(e[0]));
        }
        if hit(s.regions@, x, y) is Some {
            let a = s.regions@[hit(s.regions@, x, y)->0].action;
            assert(e == acted(s, a).1);
            assert(forall|k: int|
                0 < k < e.len() ==> #[trigger] e[k] == EffectView::Focus || e[k]
                    == EffectView::Repaint);
        }
    } else if i.msg == WM_KEYDOWN && s.recording {
        let vk = low_32(i.w_param as int);
        if vk != VK_ESCAPE && !modifier_key(vk) && combination_text(i.keys, vk) is Some {
            assert(e[1] == EffectView::ResumeHotkey);
        } else if e.len() > 0 {
            assert(e[0] == EffectView::ResumeHotkey);
        }
    } else if i.msg == WM_DESTROY {
        if s.recording {
            assert(e[0] == EffectView::ResumeHotkey);
        }
    }
}

/// A recorded hotkey is in the configuration before the hotkey is registered again, so what is
/// registered is what was recorded.
pub proof fn hotkey_is_stored_before_it_is_resumed(s: WindowState, vk: u32, keys: Modifiers)
    requires
        vk != VK_ESCAPE,
        combination_text(keys, vk) is Some,
    ensures
        key_recorded(s, vk, keys).1 == seq![
            EffectView::Hotkey(combination_text(keys, vk)->0),
            EffectView::ResumeHotkey,
            EffectView::Repaint,
        ],
{
    if modifier_key(vk) {
        crate::hotkey::modifier_is_no_key(keys, vk);
    }
    assert(key_recorded(s, vk, keys).1 =~= seq![
        EffectView::Hotkey(combination_text(keys, vk)->0),
        EffectView::ResumeHotkey,
        EffectView::Repaint,
    ]);
}

/// Selecting a channel never writes to the configuration, and starring one never moves the
/// selection.
pub proof fn selection_and_favorite_are_independent(s: WindowState, i: usize, j: usize)
    ensures
        !acted(s, Action::SetActive(i)).1.contains(EffectView::Favorite(j)),
        !acted(s, Action::SetActive(i)).1.contains(EffectView::ToggleVisible(j)),
        !acted(s, Action::SetFavorite(i)).1.contains(EffectView::StoreActive(j)),
        acted(s, Action::SetFavorite(i)).0 == s,
{
}

/// No message leaves the window with a region that leads nowhere.
pub proof fn steps_keep_window_valid(s: WindowState, i: Input)
    requires
        s.valid(),
    ensures
        step(s, i).0.valid(),
        step(s, i).0.regions == s.regions,
{
}

/// In a valid window an edit that is asked for always speaks of a channel that there is.
pub proof fn edits_are_valid(s: WindowState, i: Input, channel: usize)
    requires
        s.valid(),
        step(s, i).1.contains(EffectView::Favorite(channel)) || step(s, i).1.contains(
            EffectView::ToggleVisible(channel),
        ),
    ensures
        channel < channel_count(),
{
    let (x, y) = message_point(i.l_param);
    lemma_hit(s.regions@, x, y);
    let e = step(s, i).1;
    if i.msg == WM_LBUTTONDOWN && hit(s.regions@, x, y) is Some {
        let a = s.regions@[hit(s.regions@, x, y)->0].action;
        assert(a.valid());
        assert(e == acted(s, a).1);
    }
}

/// The mouse over a region shows it as hovered and over nothing shows nothing; the pointer follows.
pub proof fn pointer_follows_hover(s: WindowState, l_param: isize)
    ensures
        mouse_moved(s, l_param).0.hovered is Some <==> exists|k: int|
            0 <= k < s.regions@.len() && within(
                (#[trigger] s.regions@[k]).rect,
                message_point(l_param).0,
                message_point(l_param).1,
            ),
{
    lemma_hit(s.regions@, message_point(l_param).0, message_point(l_param).1);
}

// ---------------------------------------------------------------- what each part does

/// The point of a mouse message by its two halves: each coordinate is the signed number of 16 bits
/// that differs from its half by whole multiples of 65536.
pub proof fn point_is_in_the_two_halves(l_param: isize)
    ensures
        ({
            let (x, y) = message_point(l_param);
            &&& -32768 <= x <= 32767
            &&& -32768 <= y <= 32767
            &&& (l_param - x) % 65536 == 0
            &&& (l_param as int / 65536 - y) % 65536 == 0
        }),
{
}

/// The view of a list of effects keeps every effect, in its place and with all that it holds.
pub proof fn effects_are_seen_as_they_are(effects: Seq<Effect>, k: int)
    requires
        0 <= k < effects.len(),
    ensures
        effect_views(effects).len() == effects.len(),
        match effects[k] {
            Effect::Paint => effect_views(effects)[k] == EffectView::Paint,
            Effect::Repaint => effect_views(effects)[k] == EffectView::Repaint,
            Effect::TrackMouse => effect_views(effects)[k] == EffectView::TrackMouse,
            Effect::SetPointer(p) => effect_views(effects)[k] == EffectView::SetPointer(p),
            Effect::StoreActive(i) => effect_views(effects)[k] == EffectView::StoreActive(i),
            Effect::Edit(edit) => match edit {
                ConfigEdit::Favorite(i) => effect_views(effects)[k] == EffectView::Favorite(i),
                ConfigEdit::ToggleVisible(i) => effect_views(effects)[k]
                    == EffectView::ToggleVisible(i),
                ConfigEdit::Hotkey(s) => effect_views(effects)[k] == EffectView::Hotkey(s@),
            },
            Effect::PauseHotkey => effect_views(effects)[k] == EffectView::PauseHotkey,
            Effect::ResumeHotkey => effect_views(effects)[k] == EffectView::ResumeHotkey,
            Effect::Focus => effect_views(effects)[k] == EffectView::Focus,
            Effect::SetAutostart(on) => effect_views(effects)[k] == EffectView::SetAutostart(on),
            Effect::Rehook => effect_views(effects)[k] == EffectView::Rehook,
            Effect::OpenLogFolder => effect_views(effects)[k] == EffectView::OpenLogFolder,
            Effect::OpenConfigFolder => effect_views(effects)[k] == EffectView::OpenConfigFolder,
            Effect::BringToFront => effect_views(effects)[k] == EffectView::BringToFront,
            Effect::Close => effect_views(effects)[k] == EffectView::Close,
        },
{
}

/// What an action changes in the window: each of them at most the one thing that it is about, and
/// opening or closing the help the hovered region too, since the regions are others then.
pub proof fn actions_change_what_they_name(s: WindowState, action: Action)
    ensures
        ({
            let after = acted(s, action).0;
            &&& after.regions == s.regions
            &&& after.autostart == s.autostart
            &&& after.mouse_tracking == s.mouse_tracking
            &&& after.recording == (if action is RecordHotkey {
                !s.recording
            } else {
                s.recording
            })
            &&& after.show_help == (if action is OpenHelp {
                true
            } else if action is CloseHelp {
                false
            } else {
                s.show_help
            })
            &&& after.hovered == (if action is OpenHelp || action is CloseHelp {
                None
            } else {
                s.hovered
            })
            &&& after.help_lang == (if action is SetHelpLang {
                action->SetHelpLang_0
            } else {
                s.help_lang
            })
            &&& after.last_seen_active == (if action is SetActive {
                action->SetActive_0
            } else {
                s.last_seen_active
            })
        }),
{
}

/// What an action asks for: what it names comes first, and the window is painted again last
/// wherever it may look different.
pub proof fn actions_ask_for_what_they_name(s: WindowState, action: Action)
    ensures
        ({
            let e = acted(s, action).1;
            &&& action is SetActive ==> e.len() == 2 && e[0] == EffectView::StoreActive(
                action->SetActive_0,
            )
            &&& action is SetFavorite ==> e.len() == 2 && e[0] == EffectView::Favorite(
                action->SetFavorite_0,
            )
            &&& action is ToggleVisible ==> e.len() == 2 && e[0] == EffectView::ToggleVisible(
                action->ToggleVisible_0,
            )
            &&& action is RecordHotkey ==> e.len() == 3 && e[1] == EffectView::Focus
            &&& action is RecordHotkey && s.recording ==> e[0] == EffectView::ResumeHotkey
            &&& action is RecordHotkey && !s.recording ==> e[0] == EffectView::PauseHotkey
            &&& action is ToggleAutostart ==> e.len() == 2 && e[0] == EffectView::SetAutostart(
                !s.autostart,
            )
            &&& action is ReinstallHook ==> e.len() == 1 && e[0] == EffectView::Rehook
            &&& action is OpenLogFolder ==> e.len() == 1 && e[0] == EffectView::OpenLogFolder
            &&& action is OpenConfigFolder ==> e.len() == 1 && e[0] == EffectView::OpenConfigFolder
            &&& action is OpenHelp || action is CloseHelp || action is SetHelpLang ==> e.len() == 1
            &&& e.last() == EffectView::Repaint <==> !(action is ReinstallHook || action
                is OpenLogFolder || action is OpenConfigFolder)
        }),
{
}

/// The region that a point falls on: the first one between whose edges it lies, and none where it
/// lies between the edges of none.
pub proof fn first_region_around_the_point_is_hit(
    regions: Seq<HitRegion>,
    x: int,
    y: int,
    k: int,
)
    ensures
        hit(regions, x, y) == Some(k) <==> {
            &&& 0 <= k < regions.len()
            &&& regions[k].rect.left <= x < regions[k].rect.right
            &&& regions[k].rect.top <= y < regions[k].rect.bottom
            &&& forall|j: int|
                0 <= j < k ==> !((#[trigger] regions[j]).rect.left <= x < regions[j].rect.right
                    && regions[j].rect.top <= y < regions[j].rect.bottom)
        },
        hit(regions, x, y) is None <==> forall|j: int|
            0 <= j < regions.len() ==> !((#[trigger] regions[j]).rect.left <= x
                < regions[j].rect.right && regions[j].rect.top <= y < regions[j].rect.bottom),
{
    lemma_hit(regions, x, y);
    if 0 <= k < regions.len() && within(regions[k].rect, x, y) && (forall|j: int|
        0 <= j < k ==> !within((#[trigger] regions[j]).rect, x, y)) {
        lemma_hit_is(regions, x, y, k);
    }
    if hit(regions, x, y) is Some {
        let i = hit(regions, x, y)->0;
        assert(within(regions[i].rect, x, y));
    }
}

/// Moving the mouse marks the region that is hit, asks once to be told when the mouse leaves, and
/// paints again exactly where the mark moves. Nothing else changes.
pub proof fn mouse_marks_the_region_it_is_over(s: WindowState, l_param: isize, k: usize)
    ensures
        ({
            let (after, e) = mouse_moved(s, l_param);
            let (x, y) = message_point(l_param);
            &&& after.hovered == Some(k) <==> hit(s.regions@, x, y) == Some(k as int)
            &&& after.hovered is None <==> hit(s.regions@, x, y) is None
            &&& after.mouse_tracking
            &&& after.regions == s.regions && after.recording == s.recording && after.autostart
                == s.autostart && after.show_help == s.show_help && after.help_lang == s.help_lang
                && after.last_seen_active == s.last_seen_active
            &&& e.len() == (if s.mouse_tracking {
                0int
            } else {
                1
            }) + (if after.hovered == s.hovered {
                0int
            } else {
                1
            })
            &&& !s.mouse_tracking ==> e[0] == EffectView::TrackMouse
            &&& after.hovered != s.hovered ==> e.last() == EffectView::Repaint
        }),
{
    let (x, y) = message_point(l_param);
    lemma_hit(s.regions@, x, y);
    assert(s.regions@.len() == s.regions.len());
}

/// A click acts as the region that it falls on says; beside all of them it ends a recording, and
/// without one it does nothing.
pub proof fn click_acts_as_its_region_says(s: WindowState, l_param: isize, k: int)
    ensures
        ({
            let (after, e) = clicked(s, l_param);
            let (x, y) = message_point(l_param);
            &&& hit(s.regions@, x, y) == Some(k) ==> clicked(s, l_param) == acted(
                s,
                s.regions@[k].action,
            )
            &&& hit(s.regions@, x, y) is None ==> {
                &&& after == (WindowState { recording: false, ..s })
                &&& s.recording ==> e.len() == 2 && e[0] == EffectView::ResumeHotkey && e[1]
                    == EffectView::Repaint
                &&& !s.recording ==> e.len() == 0
            }
        }),
{
}

/// A key that is pressed during a recording ends it unless it is a modifier; it becomes the hotkey
/// exactly where it is not Escape and the combination can be written.
pub proof fn keys_end_a_recording(s: WindowState, vk: u32, keys: Modifiers)
    ensures
        ({
            let (after, e) = key_recorded(s, vk, keys);
            let written = combination_text(keys, vk);
            &&& after == (WindowState {
                recording: vk != 0x1B && modifier_key(vk) && s.recording,
                ..s
            })
            &&& vk != 0x1B && modifier_key(vk) ==> e.len() == 0
            &&& vk == 0x1B || !modifier_key(vk) ==> {
                let stored = vk != 0x1B && written is Some;
                &&& e.len() == (if stored {
                    3int
                } else {
                    2
                })
                &&& stored ==> e[0] == EffectView::Hotkey(written->0)
                &&& e[e.len() - 2] == EffectView::ResumeHotkey
                &&& e[e.len() - 1] == EffectView::Repaint
            }
        }),
{
}

/// Which message does what, by number, and what the system is answered: 1 where the window erased
/// its background or set the pointer, 0 where it took the message otherwise, and what it answers
/// by default where it did not.
pub proof fn messages_do_by_number(s: WindowState, i: Input)
    ensures
        ({
            let (after, e, answer) = step(s, i);
            let key = i.msg == 0x100 && s.recording;
            let tick = i.msg == 0x113 && i.w_param == 1;
            &&& i.msg == 0x14 ==> after == s && e.len() == 0
            &&& i.msg == 0x0F ==> after == s && e == seq![EffectView::Paint]
            &&& i.msg == 0x200 ==> (after, e) == mouse_moved(s, i.l_param)
            &&& i.msg == 0x2A3 ==> {
                &&& after == (WindowState { mouse_tracking: false, hovered: None, ..s })
                &&& s.hovered is Some ==> e == seq![EffectView::Repaint]
                &&& s.hovered is None ==> e.len() == 0
            }
            &&& i.msg == 0x201 ==> (after, e) == clicked(s, i.l_param)
            &&& i.msg == 0x20 ==> after == s && e == seq![
                EffectView::SetPointer(
                    if s.hovered is Some {
                        Pointer::Hand
                    } else {
                        Pointer::Arrow
                    },
                ),
            ]
            &&& key ==> (after, e) == key_recorded(
                s,
                (i.w_param as int % 0x1_0000_0000) as u32,
                i.keys,
            )
            &&& tick ==> {
                &&& after == (WindowState { last_seen_active: i.active, ..s })
                &&& i.active != s.last_seen_active ==> e == seq![EffectView::Repaint]
                &&& i.active == s.last_seen_active ==> e.len() == 0
            }
            &&& i.msg == 0x401 ==> after == s && e == seq![EffectView::BringToFront]
            &&& i.msg == 2 ==> {
                &&& after == s
                &&& e.last() == EffectView::Close
                &&& s.recording ==> e.len() == 2 && e[0] == EffectView::ResumeHotkey
                &&& !s.recording ==> e.len() == 1
            }
            &&& answer == Answer::Return(1) <==> i.msg == 0x14 || i.msg == 0x20
            &&& answer == Answer::Return(0) <==> i.msg == 0x0F || i.msg == 0x200 || i.msg == 0x2A3
                || i.msg == 0x201 || key || tick || i.msg == 0x401 || i.msg == 2
            &&& answer == Answer::Default ==> after == s && e.len() == 0
            &&& answer == Answer::Return(0) || answer == Answer::Return(1) || answer
                == Answer::Default
        }),
{
}

/// Which actions are valid: those on a channel up to the number of channels, and all others.
pub proof fn actions_on_channels_are_valid_by_index(i: usize, action: Action)
    ensures
        Action::SetActive(i).valid() <==> i < crate::config::channels().len(),
        Action::SetFavorite(i).valid() <==> i < crate::config::channels().len(),
        Action::ToggleVisible(i).valid() <==> i < crate::config::channels().len(),
        !(action is SetActive || action is SetFavorite || action is ToggleVisible)
            ==> action.valid(),
{
    crate::config::lemma_channel_count();
}

/// A window is valid exactly where no region leads to a channel that there is not.
pub proof fn window_is_valid_by_its_regions(s: WindowState)
    ensures
        s.valid() <==> !exists|k: int|
            0 <= k < s.regions@.len() && !(#[trigger] s.regions@[k]).action.valid(),
{
}

/// An effect that is asked for on a condition is there alone where it holds.
pub proof fn conditional_effect_is_there_or_not(on: bool, e: EffectView)
    ensures
        effect_if(on, e).len() == (if on {
            1int
        } else {
            0
        }),
        on ==> effect_if(on, e)[0] == e,
{
}

/// The measures of the window and the numbers of its timer.
pub proof fn window_numbers()
    ensures
        CLIENT_W == 460,
        CLIENT_H == 780,
        ACTIVE_POLL_TIMER_ID == 1,
        ACTIVE_POLL_MS == 400,
        WM_BRING_FRONT == 1025,
        VK_ESCAPE == 27,
{
}

} // verus!
