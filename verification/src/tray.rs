//! The tray icon: its menu, its status and the cycle hotkey.

use crate::config::{channel_index, channel_name, channels, index_of_channel, name_of_channel};
use crate::hotkey::{combination_text, hotkey_of, modifier_bits, parse_hotkey, Modifiers};
use crate::message::{low_32, low_u32};
use crate::text::{opt_str_view, same, str_views, views};
use crate::visibility::{cycle_next, listed, next_channel, visible_channels};
use vstd::prelude::*;

verus! {

/// Win32 messages.
pub const WM_TIMER: u32 = 0x0113;

pub const WM_HOTKEY: u32 = 0x0312;

/// Posted by the settings window while it's recording a new hotkey, so the tray thread
/// temporarily drops its global registration and the recorder can actually see the keypress.
pub const WM_HOTKEY_PAUSE: u32 = 0x8005;

/// Posted after recording ends. The tray re-reads the current hotkey from the configuration and
/// re-registers — this is also how the hotkey is updated after a successful record.
pub const WM_HOTKEY_RESUME: u32 = 0x8006;

/// Timer on which the menu follows the shared state.
pub const STATUS_TIMER_ID: usize = 1;

pub const STATUS_INTERVAL_MS: u32 = 1000;

/// Number under which the cycle hotkey is registered.
pub const CYCLE_HOTKEY_ID: i32 = 0xC0DE;

/// The message to post to the tray thread to have it release the cycle hotkey; none while the
/// thread is not running.
pub fn pause_hotkey(thread_id: u32) -> (r: Option<u32>)
    ensures
        r == (if thread_id != 0 {
            Some(WM_HOTKEY_PAUSE)
        } else {
            None
        }),
{
    if thread_id != 0 {
        Some(WM_HOTKEY_PAUSE)
    } else {
        None
    }
}

/// The message to post to the tray thread to have it register the cycle hotkey that is configured;
/// none while the thread is not running.
pub fn resume_hotkey(thread_id: u32) -> (r: Option<u32>)
    ensures
        r == (if thread_id != 0 {
            Some(WM_HOTKEY_RESUME)
        } else {
            None
        }),
{
    if thread_id != 0 {
        Some(WM_HOTKEY_RESUME)
    } else {
        None
    }
}

// ---------------------------------------------------------------- menu

/// An entry of the menu.
#[derive(Clone, Copy, Debug, PartialEq, Eq)]
pub enum MenuEntry {
    /// Text that cannot be chosen.
    Label(&'static str),
    Separator,
    /// A channel, with a check mark where it is the active one.
    Channel { name: &'static str, checked: bool },
    /// Text that cannot be chosen and tells of the daemon.
    Status(&'static str),
    Settings(&'static str),
    Quit(&'static str),
}

/// What a [`MenuEntry`] shows.
pub enum EntryView {
    Label(Seq<char>),
    Separator,
    Channel { name: Seq<char>, checked: bool },
    Status(Seq<char>),
    Settings(Seq<char>),
    Quit(Seq<char>),
}

impl View for MenuEntry {
    type V = EntryView;

    open spec fn view(&self) -> EntryView {
        match *self {
            MenuEntry::Label(text) => EntryView::Label(text@),
            MenuEntry::Separator => EntryView::Separator,
            MenuEntry::Channel { name, checked } => EntryView::Channel { name: name@, checked },
            MenuEntry::Status(text) => EntryView::Status(text@),
            MenuEntry::Settings(text) => EntryView::Settings(text@),
            MenuEntry::Quit(text) => EntryView::Quit(text@),
        }
    }
}

/// What a list of entries shows.
pub open spec fn entry_views(menu: Seq<MenuEntry>) -> Seq<EntryView> {
    menu.map_values(|e: MenuEntry| e@)
}

/// The entries of the channels.
pub open spec fn channel_entries(names: Seq<Seq<char>>, active: Seq<char>) -> Seq<EntryView> {
    names.map_values(|c: Seq<char>| EntryView::Channel { name: c, checked: c == active })
}

/// The menu for the channels that it lists and the active one.
pub open spec fn menu_of(names: Seq<Seq<char>>, active: Seq<char>) -> Seq<EntryView> {
    menu_telling(names, active, "GoXLR Utility: connecting…"@)
}

/// The menu with the given text in its status entry.
pub open spec fn menu_telling(names: Seq<Seq<char>>, active: Seq<char>, status: Seq<char>) -> Seq<
    EntryView,
> {
    seq![EntryView::Label("GoXLR Volume Wheel — channel"@), EntryView::Separator]
        + channel_entries(names, active) + seq![
        EntryView::Separator,
        EntryView::Status(status),
        EntryView::Settings("Settings…"@),
        EntryView::Separator,
        EntryView::Quit("Quit"@),
    ]
}

/// Builds the menu.
pub fn build_menu(visible: &Vec<&'static str>, active: &str) -> (r: Vec<MenuEntry>)
    ensures
        entry_views(r@) == menu_of(str_views(visible@), active@),
{
    let ghost names = str_views(visible@);
    let ghost head = seq![
        EntryView::Label("GoXLR Volume Wheel — channel"@),
        EntryView::Separator,
    ];
    let mut menu: Vec<MenuEntry> = Vec::new();
    menu.push(MenuEntry::Label("GoXLR Volume Wheel — channel"));
    menu.push(MenuEntry::Separator);
    assert(entry_views(menu@) =~= head + channel_entries(names.take(0), active@));
    for i in 0..visible.len()
        invariant
            names == str_views(visible@),
            entry_views(menu@) == head + channel_entries(names.take(i as int), active@),
    {
        let ghost before = menu@;
        let name = visible[i];
        assert(names[i as int] == name@);
        menu.push(MenuEntry::Channel { name, checked: same(name, active) });
        assert(channel_entries(names.take(i + 1), active@) =~= channel_entries(
            names.take(i as int),
            active@,
        ).push(EntryView::Channel { name: name@, checked: name@ == active@ }));
        assert(entry_views(menu@) =~= entry_views(before).push(menu@.last()@));
        assert(entry_views(menu@) =~= head + channel_entries(names.take(i + 1), active@));
    }
    assert(names.take(visible@.len() as int) =~= names);
    menu.push(MenuEntry::Separator);
    menu.push(MenuEntry::Status("GoXLR Utility: connecting…"));
    menu.push(MenuEntry::Settings("Settings…"));
    menu.push(MenuEntry::Separator);
    menu.push(MenuEntry::Quit("Quit"));
    assert(entry_views(menu@) =~= menu_of(names, active@));
    menu
}

// ---------------------------------------------------------------- status

/// What the tray tells of the connection and the active channel.
#[derive(Debug, PartialEq, Eq)]
pub struct Status {
    /// Whether the icon is the one of a connected daemon.
    pub connected: bool,
    /// Text of the menu's status entry.
    pub text: &'static str,
    pub tooltip: String,
}

/// What a [`Status`] tells.
pub struct StatusView {
    pub connected: bool,
    pub text: Seq<char>,
    pub tooltip: Seq<char>,
}

impl View for Status {
    type V = StatusView;

    open spec fn view(&self) -> StatusView {
        StatusView { connected: self.connected, text: self.text@, tooltip: self.tooltip@ }
    }
}

/// The status for a connection and a channel.
pub open spec fn status_of(connected: bool, channel: Seq<char>) -> StatusView {
    if connected {
        StatusView {
            connected,
            text: "GoXLR Utility: connected"@,
            tooltip: "GoXLR Volume Wheel — "@ + channel,
        }
    } else {
        StatusView {
            connected,
            text: "GoXLR Utility: offline — is the daemon running?"@,
            tooltip: "GoXLR Volume Wheel — "@ + channel + " (offline)"@,
        }
    }
}

/// The status to show.
pub fn apply_status(is_connected: bool, channel: &str) -> (r: Status)
    ensures
        r@ == status_of(is_connected, channel@),
{
    let mut tooltip = "GoXLR Volume Wheel — ".to_owned();
    tooltip.append(channel);
    if is_connected {
        Status { connected: true, text: "GoXLR Utility: connected", tooltip }
    } else {
        tooltip.append(" (offline)");
        Status {
            connected: false,
            text: "GoXLR Utility: offline — is the daemon running?",
            tooltip,
        }
    }
}

// ---------------------------------------------------------------- effects

/// What the tray asks the rest of the application to do.
#[derive(Debug, PartialEq, Eq)]
pub enum Effect {
    /// Replace the menu.
    SetMenu(Vec<MenuEntry>),
    /// Check the entry of this channel and no other.
    SetChecks(&'static str),
    SetStatus(Status),
    /// Make this channel the active one.
    StoreActive(usize),
    /// Release the cycle hotkey.
    UnregisterHotkey,
    /// Register the cycle hotkey, and report back how that went.
    RegisterHotkey { text: String, mods: u32, vk: u32 },
    LogError(String),
    LogInfo(String),
    /// Show on screen that this channel was switched to.
    ShowSwitch(&'static str),
    OpenSettings,
    /// Stop the status timer.
    StopTimer,
    /// End the application.
    Exit,
}

/// What an [`Effect`] asks for.
pub enum EffectView {
    SetMenu(Seq<EntryView>),
    SetChecks(Seq<char>),
    SetStatus(StatusView),
    StoreActive(int),
    UnregisterHotkey,
    RegisterHotkey { text: Seq<char>, mods: u32, vk: u32 },
    LogError(Seq<char>),
    LogInfo(Seq<char>),
    ShowSwitch(Seq<char>),
    OpenSettings,
    StopTimer,
    Exit,
}

impl View for Effect {
    type V = EffectView;

    open spec fn view(&self) -> EffectView {
        match *self {
            Effect::SetMenu(menu) => EffectView::SetMenu(entry_views(menu@)),
            Effect::SetChecks(name) => EffectView::SetChecks(name@),
            Effect::SetStatus(status) => EffectView::SetStatus(status@),
            Effect::StoreActive(i) => EffectView::StoreActive(i as int),
            Effect::UnregisterHotkey => EffectView::UnregisterHotkey,
            Effect::RegisterHotkey { text, mods, vk } => EffectView::RegisterHotkey {
                text: text@,
                mods,
                vk,
            },
            Effect::LogError(line) => EffectView::LogError(line@),
            Effect::LogInfo(line) => EffectView::LogInfo(line@),
            Effect::ShowSwitch(name) => EffectView::ShowSwitch(name@),
            Effect::OpenSettings => EffectView::OpenSettings,
            Effect::StopTimer => EffectView::StopTimer,
            Effect::Exit => EffectView::Exit,
        }
    }
}

/// What a list of effects asks for.
pub open spec fn effect_views(effects: Seq<Effect>) -> Seq<EffectView> {
    effects.map_values(|e: Effect| e@)
}

/// `e` alone, or nothing.
pub open spec fn effect_if(on: bool, e: EffectView) -> Seq<EffectView> {
    if on {
        seq![e]
    } else {
        Seq::empty()
    }
}

/// Adds an effect.
fn ask(effects: &mut Vec<Effect>, effect: Effect)
    ensures
        effect_views(final(effects)@) == effect_views(old(effects)@).push(effect@),
{
    effects.push(effect);
    assert(effect_views(effects@) =~= effect_views(old(effects)@).push(effect@));
}

/// No effects.
fn nothing() -> (r: Vec<Effect>)
    ensures
        effect_views(r@) == Seq::<EffectView>::empty(),
{
    let r: Vec<Effect> = Vec::new();
    assert(effect_views(r@) =~= Seq::<EffectView>::empty());
    r
}

// ---------------------------------------------------------------- state

/// What the tray remembers.
pub struct Tray {
    /// The channels that the menu lists.
    pub visible: Vec<&'static str>,
    /// The connection that was shown last on the timer.
    pub last_connected: Option<bool>,
    /// The channel that was shown last.
    pub last_idx: usize,
    /// Whether the cycle hotkey is registered.
    pub cycle_registered: bool,
}

/// What a [`Tray`] holds.
#[verifier::ext_equal]
pub struct TrayView {
    pub visible: Seq<Seq<char>>,
    pub last_connected: Option<bool>,
    pub last_idx: int,
    pub cycle_registered: bool,
}

impl View for Tray {
    type V = TrayView;

    open spec fn view(&self) -> TrayView {
        TrayView {
            visible: str_views(self.visible@),
            last_connected: self.last_connected,
            last_idx: self.last_idx as int,
            cycle_registered: self.cycle_registered,
        }
    }
}

/// A tray that is about to be shown.
pub struct Started {
    pub tray: Tray,
    pub menu: Vec<MenuEntry>,
    /// The tooltip until the status is shown.
    pub tooltip: String,
    /// The status to show next.
    pub status: Status,
}

/// Begins with the active channel and the visible ones; the daemon counts as offline until it is
/// heard of.
pub fn start(active: usize, visible: &Vec<String>) -> (r: Started)
    ensures
        r.tray@ == (TrayView {
            visible: listed(views(visible@)),
            last_connected: None,
            last_idx: active as int,
            cycle_registered: false,
        }),
        entry_views(r.menu@) == menu_of(listed(views(visible@)), name_of_channel(active as int)),
        r.tooltip@ == "GoXLR Volume Wheel — "@ + name_of_channel(active as int)
            + " (connecting…)"@,
        r.status@ == status_of(false, name_of_channel(active as int)),
{
    let name = channel_name(active);
    let listing = visible_channels(visible);
    let menu = build_menu(&listing, name);
    let mut tooltip = "GoXLR Volume Wheel — ".to_owned();
    tooltip.append(name);
    tooltip.append(" (connecting…)");
    let tray = Tray {
        visible: listing,
        last_connected: None,
        last_idx: active,
        cycle_registered: false,
    };
    Started { tray, menu, tooltip, status: apply_status(false, name) }
}

// ---------------------------------------------------------------- cycle hotkey

/// What registering the configured hotkey asks for: nothing where there is none, a line in the
/// log where it is malformed.
pub open spec fn register_effects(hotkey: Option<Seq<char>>) -> Seq<EffectView> {
    match hotkey {
        Some(text) => match hotkey_of(text) {
            Some((mods, vk)) => seq![EffectView::RegisterHotkey { text, mods, vk }],
            None => seq![EffectView::LogError("cycle_hotkey malformed: "@ + text)],
        },
        None => Seq::empty(),
    }
}

/// Asks for the configured hotkey to be registered.
pub fn register_cycle_hotkey(hotkey: Option<&str>) -> (r: Option<Effect>)
    ensures
        match r {
            Some(e) => register_effects(opt_str_view(hotkey)) == seq![e@],
            None => register_effects(opt_str_view(hotkey)) == Seq::<EffectView>::empty(),
        },
{
    match hotkey {
        Some(text) => match parse_hotkey(text) {
            Some((mods, vk)) => Some(Effect::RegisterHotkey { text: text.to_owned(), mods, vk }),
            None => {
                let mut line = "cycle_hotkey malformed: ".to_owned();
                line.append(text);
                Some(Effect::LogError(line))
            },
        },
        None => None,
    }
}

impl Tray {
    /// Takes in how registering the hotkey went.
    pub fn hotkey_registered(&mut self, hotkey: &str, succeeded: bool) -> (r: Effect)
        ensures
            final(self)@ == (TrayView { cycle_registered: succeeded, ..old(self)@ }),
            r@ == (if succeeded {
                EffectView::LogInfo("cycle hotkey registered: "@ + hotkey@)
            } else {
                EffectView::LogError("cycle hotkey already in use: "@ + hotkey@)
            }),
    {
        self.cycle_registered = succeeded;
        if succeeded {
            let mut line = "cycle hotkey registered: ".to_owned();
            line.append(hotkey);
            Effect::LogInfo(line)
        } else {
            let mut line = "cycle hotkey already in use: ".to_owned();
            line.append(hotkey);
            Effect::LogError(line)
        }
    }
}

// ---------------------------------------------------------------- choosing a channel

/// What choosing a channel asks for.
pub open spec fn choice_effects(name: Seq<char>) -> Seq<EffectView> {
    seq![EffectView::StoreActive(index_of_channel(name)), EffectView::SetChecks(name)]
}

/// Sets the active channel and syncs the menu's check marks. The startup channel is not touched
/// here — that's an explicit star click in the settings window, intentionally separate from the
/// transient selection.
pub fn apply_channel_choice(effects: &mut Vec<Effect>, name: &'static str)
    ensures
        effect_views(final(effects)@) == effect_views(old(effects)@) + choice_effects(name@),
{
    ask(effects, Effect::StoreActive(channel_index(name)));
    ask(effects, Effect::SetChecks(name));
    assert(effect_views(effects@) =~= effect_views(old(effects)@) + choice_effects(name@));
}

// ---------------------------------------------------------------- messages

/// A message to the tray thread, with the shared state at that moment.
pub struct Input<'a> {
    pub msg: u32,
    pub w_param: usize,
    /// The active channel.
    pub active: usize,
    pub connected: bool,
    /// The configured visible channels.
    pub visible: &'a Vec<String>,
    /// The configured cycle hotkey.
    pub hotkey: Option<&'a str>,
}

/// What a tick of the timer does: the menu is built anew where other channels are visible, the
/// check marks follow the active channel, the status follows both and the connection.
pub open spec fn ticked(
    t: TrayView,
    active: int,
    connected: bool,
    visible: Seq<Seq<char>>,
) -> (TrayView, Seq<EffectView>) {
    let name = name_of_channel(active);
    let status = EffectView::SetStatus(status_of(connected, name));
    let caught_up = TrayView {
        visible: listed(visible),
        last_connected: Some(connected),
        last_idx: active,
        ..t
    };
    if t.visible != listed(visible) {
        (caught_up, seq![EffectView::SetMenu(menu_of(listed(visible), name)), status])
    } else if t.last_idx != active {
        (caught_up, seq![EffectView::SetChecks(name), status])
    } else if t.last_connected != Some(connected) {
        (caught_up, seq![status])
    } else {
        (t, Seq::empty())
    }
}

/// What the cycle hotkey does: the next visible channel becomes active and is shown everywhere.
pub open spec fn cycled_to_next(
    t: TrayView,
    active: int,
    connected: bool,
    visible: Seq<Seq<char>>,
) -> (TrayView, Seq<EffectView>) {
    match next_channel(visible, active) {
        Some(next) => {
            let name = name_of_channel(next);
            (
                TrayView { last_idx: next, ..t },
                choice_effects(name) + seq![
                    EffectView::SetStatus(status_of(connected, name)),
                    EffectView::ShowSwitch(name),
                ],
            )
        },
        None => (t, Seq::empty()),
    }
}

/// Whether a message is the cycle hotkey: its number stands in the low 32 bits.
pub open spec fn is_cycle_hotkey(msg: u32, w_param: usize) -> bool {
    msg == WM_HOTKEY && low_32(w_param as int) == CYCLE_HOTKEY_ID
}

/// What a message does to the tray and what it asks for.
pub open spec fn step(t: TrayView, i: Input<'_>) -> (TrayView, Seq<EffectView>) {
    let visible = views(i.visible@);
    if i.msg == WM_TIMER && i.w_param == STATUS_TIMER_ID {
        ticked(t, i.active as int, i.connected, visible)
    } else if i.msg == WM_HOTKEY_PAUSE {
        (
            TrayView { cycle_registered: false, ..t },
            effect_if(t.cycle_registered, EffectView::UnregisterHotkey),
        )
    } else if i.msg == WM_HOTKEY_RESUME {
        (
            TrayView { cycle_registered: false, ..t },
            effect_if(t.cycle_registered, EffectView::UnregisterHotkey) + register_effects(
                opt_str_view(i.hotkey),
            ),
        )
    } else if is_cycle_hotkey(i.msg, i.w_param) {
        cycled_to_next(t, i.active as int, i.connected, visible)
    } else {
        (t, Seq::empty())
    }
}

/// Whether two lists hold the same names.
fn same_names(a: &Vec<&'static str>, b: &Vec<&'static str>) -> (r: bool)
    ensures
        r == (str_views(a@) == str_views(b@)),
{
    if a.len() != b.len() {
        assert(str_views(a@).len() != str_views(b@).len());
        return false;
    }
    for i in 0..a.len()
        invariant
            a@.len() == b@.len(),
            forall|k: int| 0 <= k < i ==> (#[trigger] a@[k])@ == b@[k]@,
    {
        if !same(a[i], b[i]) {
            assert(str_views(a@)[i as int] != str_views(b@)[i as int]);
            return false;
        }
    }
    assert(str_views(a@) =~= str_views(b@));
    true
}

/// Whether a message is the cycle hotkey.
fn cycle_hotkey_pressed(msg: u32, w_param: usize) -> (r: bool)
    ensures
        r == is_cycle_hotkey(msg, w_param),
{
    msg == WM_HOTKEY && low_u32(w_param) == CYCLE_HOTKEY_ID as u32
}

impl Tray {
    /// Takes a tick of the timer.
    fn on_tick(&mut self, active: usize, connected: bool, visible: &Vec<String>) -> (effects: Vec<
        Effect,
    >)
        ensures
            (final(self)@, effect_views(effects@)) == ticked(
                old(self)@,
                active as int,
                connected,
                views(visible@),
            ),
    {
        let mut effects = nothing();
        let name = channel_name(active);
        let listing = visible_channels(visible);
        let shown = match self.last_connected {
            Some(was) => was == connected,
            None => false,
        };
        if !same_names(&listing, &self.visible) {
            ask(&mut effects, Effect::SetMenu(build_menu(&listing, name)));
            self.visible = listing;
            ask(&mut effects, Effect::SetStatus(apply_status(connected, name)));
            self.last_idx = active;
            self.last_connected = Some(connected);
        } else if self.last_idx != active {
            ask(&mut effects, Effect::SetChecks(name));
            ask(&mut effects, Effect::SetStatus(apply_status(connected, name)));
            self.last_idx = active;
            self.last_connected = Some(connected);
        } else if !shown {
            ask(&mut effects, Effect::SetStatus(apply_status(connected, name)));
            self.last_connected = Some(connected);
        }
        proof {
            let expected = ticked(old(self)@, active as int, connected, views(visible@));
            assert(effect_views(effects@) =~= expected.1);
            assert(self@ =~= expected.0);
        }
        effects
    }

    /// Takes the cycle hotkey.
    fn on_cycle(&mut self, active: usize, connected: bool, visible: &Vec<String>) -> (effects: Vec<
        Effect,
    >)
        ensures
            (final(self)@, effect_views(effects@)) == cycled_to_next(
                old(self)@,
                active as int,
                connected,
                views(visible@),
            ),
    {
        let mut effects = nothing();
        if let Some(next) = cycle_next(active, visible) {
            let name = channel_name(next);
            apply_channel_choice(&mut effects, name);
            ask(&mut effects, Effect::SetStatus(apply_status(connected, name)));
            ask(&mut effects, Effect::ShowSwitch(name));
            self.last_idx = next;
        }
        assert(effect_views(effects@) =~= cycled_to_next(
            old(self)@,
            active as int,
            connected,
            views(visible@),
        ).1);
        effects
    }

    /// Takes a message to the tray thread.
    pub fn run(&mut self, input: &Input<'_>) -> (effects: Vec<Effect>)
        ensures
            (final(self)@, effect_views(effects@)) == step(old(self)@, *input),
    {
        if input.msg == WM_TIMER && input.w_param == STATUS_TIMER_ID {
            self.on_tick(input.active, input.connected, input.visible)
        } else if input.msg == WM_HOTKEY_PAUSE || input.msg == WM_HOTKEY_RESUME {
            let mut effects = nothing();
            if self.cycle_registered {
                ask(&mut effects, Effect::UnregisterHotkey);
                self.cycle_registered = false;
            }
            if input.msg == WM_HOTKEY_RESUME {
                if let Some(effect) = register_cycle_hotkey(input.hotkey) {
                    ask(&mut effects, effect);
                }
            }
            assert(effect_views(effects@) =~= step(old(self)@, *input).1);
            effects
        } else if cycle_hotkey_pressed(input.msg, input.w_param) {
            self.on_cycle(input.active, input.connected, input.visible)
        } else {
            nothing()
        }
    }
}

// ---------------------------------------------------------------- clicks

/// A click on the tray icon.
#[derive(Clone, Copy, Debug, PartialEq, Eq, Structural)]
pub enum IconEvent {
    Click { left: bool, released: bool },
    DoubleClick { left: bool },
    Other,
}

/// Left-click opens the settings window. Right-click keeps the default behaviour, the menu.
pub fn on_icon_event(event: IconEvent) -> (opens: bool)
    ensures
        opens == (event == IconEvent::Click { left: true, released: true } || event
            == IconEvent::DoubleClick { left: true }),
{
    match event {
        IconEvent::Click { left, released } => left && released,
        IconEvent::DoubleClick { left } => left,
        IconEvent::Other => false,
    }
}

/// What choosing an entry of the menu does to the tray and what it asks for.
pub open spec fn chosen(t: TrayView, entry: EntryView, connected: bool) -> (
    TrayView,
    Seq<EffectView>,
) {
    match entry {
        EntryView::Quit(_) => (
            t,
            effect_if(t.cycle_registered, EffectView::UnregisterHotkey) + seq![EffectView::Exit],
        ),
        EntryView::Settings(_) => (t, seq![EffectView::OpenSettings]),
        EntryView::Channel { name, .. } => (
            TrayView { last_idx: index_of_channel(name), ..t },
            choice_effects(name) + seq![EffectView::SetStatus(status_of(connected, name))],
        ),
        _ => (t, Seq::empty()),
    }
}

impl Tray {
    /// Takes the choice of an entry of the menu.
    pub fn on_menu(&mut self, entry: MenuEntry, connected: bool) -> (effects: Vec<Effect>)
        ensures
            (final(self)@, effect_views(effects@)) == chosen(old(self)@, entry@, connected),
    {
        let mut effects = nothing();
        match entry {
            MenuEntry::Quit(_) => {
                if self.cycle_registered {
                    ask(&mut effects, Effect::UnregisterHotkey);
                }
                ask(&mut effects, Effect::Exit);
            },
            MenuEntry::Settings(_) => {
                ask(&mut effects, Effect::OpenSettings);
            },
            MenuEntry::Channel { name, .. } => {
                apply_channel_choice(&mut effects, name);
                ask(&mut effects, Effect::SetStatus(apply_status(connected, name)));
                self.last_idx = channel_index(name);
            },
            MenuEntry::Label(_) => {},
            MenuEntry::Separator => {},
            MenuEntry::Status(_) => {},
        }
        assert(effect_views(effects@) =~= chosen(old(self)@, entry@, connected).1);
        effects
    }

    /// Ends the tray thread's work.
    pub fn finish(&self) -> (effects: Vec<Effect>)
        ensures
            effect_views(effects@) == effect_if(
                self.cycle_registered,
                EffectView::UnregisterHotkey,
            ) + seq![EffectView::StopTimer],
    {
        let mut effects = nothing();
        if self.cycle_registered {
            ask(&mut effects, Effect::UnregisterHotkey);
        }
        ask(&mut effects, Effect::StopTimer);
        assert(effect_views(effects@) =~= effect_if(
            self.cycle_registered,
            EffectView::UnregisterHotkey,
        ) + seq![EffectView::StopTimer]);
        effects
    }
}

// ---------------------------------------------------------------- laws

/// A tick of the timer leaves the tray with the shared state noted, whatever it had noted before,
/// and does nothing where it had noted that already.
pub proof fn tick_catches_up(t: TrayView, active: int, connected: bool, visible: Seq<Seq<char>>)
    ensures
        ({
            let after = ticked(t, active, connected, visible).0;
            &&& after.visible == listed(visible)
            &&& after.last_idx == active
            &&& after.last_connected == Some(connected)
            &&& after.cycle_registered == t.cycle_registered
            &&& ticked(after, active, connected, visible) == (after, Seq::<EffectView>::empty())
        }),
{
}

/// The menu has an entry for exactly the channels that are visible, and the check mark stands at
/// the active one alone.
pub proof fn menu_shows_visible_channels(
    visible: Seq<Seq<char>>,
    active: Seq<char>,
    name: Seq<char>,
    checked: bool,
)
    ensures
        menu_of(listed(visible), active).contains(EntryView::Channel { name, checked }) <==> {
            &&& channels().contains(name)
            &&& visible.contains(name)
            &&& checked == (name == active)
        },
{
    let menu = menu_of(listed(visible), active);
    let entry = EntryView::Channel { name, checked };
    let keep = |c: Seq<char>| visible.contains(c);
    broadcast use vstd::seq_lib::group_filter_ensures;

    if listed(visible).contains(name) {
        channels().lemma_filter_contains_rev(keep, name);
    }
    if menu.contains(entry) {
        let k = choose|k: int| 0 <= k < menu.len() && menu[k] == entry;
        assert(2 <= k < 2 + listed(visible).len());
        assert(menu[k] == channel_entries(listed(visible), active)[k - 2]);
        assert(listed(visible)[k - 2] == name);
    }
    if listed(visible).contains(name) && checked == (name == active) {
        let k = choose|k: int| 0 <= k < listed(visible).len() && listed(visible)[k] == name;
        assert(menu[k + 2] == channel_entries(listed(visible), active)[k]);
        assert(menu[k + 2] == entry);
    }
}

/// The hotkey is released exactly where it was registered and is to be given up or replaced, and
/// it is asked for only where it is free.
pub proof fn hotkey_is_released_before_it_is_registered(t: TrayView, i: Input<'_>)
    ensures
        step(t, i).1.contains(EffectView::UnregisterHotkey) <==> t.cycle_registered && (i.msg
            == WM_HOTKEY_PAUSE || i.msg == WM_HOTKEY_RESUME),
        i.msg == WM_HOTKEY_PAUSE || i.msg == WM_HOTKEY_RESUME ==> !step(t, i).0.cycle_registered,
        i.msg != WM_HOTKEY_PAUSE && i.msg != WM_HOTKEY_RESUME ==> step(t, i).0.cycle_registered
            == t.cycle_registered,
        forall|k: int|
            0 <= k < step(t, i).1.len() && (#[trigger] step(t, i).1[k]) is RegisterHotkey ==> {
                &&& i.msg == WM_HOTKEY_RESUME
                &&& t.cycle_registered ==> step(t, i).1[0] == EffectView::UnregisterHotkey && k > 0
            },
{
    let e = step(t, i).1;
    if t.cycle_registered && (i.msg == WM_HOTKEY_PAUSE || i.msg == WM_HOTKEY_RESUME) {
        assert(e[0] == EffectView::UnregisterHotkey);
    }
}

/// A combination that was recorded is the one that is registered.
pub proof fn recorded_hotkey_is_registered(m: Modifiers, vk: u32)
    requires
        combination_text(m, vk) is Some,
    ensures
        register_effects(combination_text(m, vk)) == seq![
            EffectView::RegisterHotkey {
                text: combination_text(m, vk)->0,
                mods: modifier_bits(m),
                vk,
            },
        ],
{
    crate::hotkey::recorded_hotkey_reads_back(m, vk);
}

/// The cycle hotkey makes a visible channel active and shows that same channel everywhere, so the
/// next tick finds nothing to change.
pub proof fn cycle_shows_what_it_selects(
    t: TrayView,
    active: int,
    connected: bool,
    visible: Seq<Seq<char>>,
)
    requires
        crate::visibility::all_known(visible),
        visible.len() > 0,
    ensures
        ({
            let (after, effects) = cycled_to_next(t, active, connected, visible);
            let name = name_of_channel(after.last_idx);
            &&& visible.contains(name)
            &&& effects == seq![
                EffectView::StoreActive(after.last_idx),
                EffectView::SetChecks(name),
                EffectView::SetStatus(status_of(connected, name)),
                EffectView::ShowSwitch(name),
            ]
            &&& t.visible == listed(visible) && t.last_connected == Some(connected) ==> ticked(
                after,
                after.last_idx,
                connected,
                visible,
            ).1 == Seq::<EffectView>::empty()
        }),
{
    crate::visibility::cycle_selects_visible(visible, active);
    let (after, effects) = cycled_to_next(t, active, connected, visible);
    let k = choose|k: int|
        0 <= k < visible.len() && after.last_idx == index_of_channel(#[trigger] visible[k]);
    crate::config::index_gives_name_back(visible[k]);
    crate::config::name_gives_index_back(after.last_idx);
    let name = name_of_channel(after.last_idx);
    assert(effects =~= seq![
        EffectView::StoreActive(after.last_idx),
        EffectView::SetChecks(name),
        EffectView::SetStatus(status_of(connected, name)),
        EffectView::ShowSwitch(name),
    ]);
}

// ---------------------------------------------------------------- what is displayed

/// What the user sees of the tray.
#[verifier::ext_equal]
pub struct Display {
    pub menu: Seq<EntryView>,
    /// Whether the icon is the one of a connected daemon.
    pub connected: bool,
    pub tooltip: Seq<char>,
}

/// The menu with the check mark at `name` and at no other channel.
pub open spec fn checked_at(menu: Seq<EntryView>, name: Seq<char>) -> Seq<EntryView> {
    menu.map_values(
        |e: EntryView|
            match e {
                EntryView::Channel { name: n, .. } => EntryView::Channel {
                    name: n,
                    checked: n == name,
                },
                _ => e,
            },
    )
}

/// The menu with another text in its status entry.
pub open spec fn telling(menu: Seq<EntryView>, text: Seq<char>) -> Seq<EntryView> {
    menu.map_values(
        |e: EntryView|
            match e {
                EntryView::Status(_) => EntryView::Status(text),
                _ => e,
            },
    )
}

/// What is displayed once an effect was carried out.
pub open spec fn displayed(d: Display, e: EffectView) -> Display {
    match e {
        EffectView::SetMenu(menu) => Display { menu, ..d },
        EffectView::SetChecks(name) => Display { menu: checked_at(d.menu, name), ..d },
        EffectView::SetStatus(status) => Display {
            menu: telling(d.menu, status.text),
            connected: status.connected,
            tooltip: status.tooltip,
        },
        _ => d,
    }
}

/// What is displayed once effects were carried out, the first one first.
pub open spec fn all_displayed(d: Display, effects: Seq<EffectView>) -> Display
    decreases effects.len(),
{
    if effects.len() == 0 {
        d
    } else {
        displayed(all_displayed(d, effects.drop_last()), effects.last())
    }
}

/// The display for the channels that are listed, the active one and a connection.
pub open spec fn display_of(names: Seq<Seq<char>>, active: Seq<char>, connected: bool) -> Display {
    let status = status_of(connected, active);
    Display {
        menu: menu_telling(names, active, status.text),
        connected: status.connected,
        tooltip: status.tooltip,
    }
}

/// Whether the display fits what the tray has noted: the channels that it lists, all of them
/// known, and the check mark, the tooltip and the status for the channel shown last.
pub open spec fn shows(t: TrayView, d: Display) -> bool {
    &&& crate::visibility::all_known(t.visible)
    &&& d == display_of(t.visible, name_of_channel(t.last_idx), d.connected)
}

/// A tray that was just shown, with its first status, displays what it has noted.
pub proof fn start_shows(active: int, visible: Seq<Seq<char>>, tooltip: Seq<char>, connected: bool)
    ensures
        ({
            let t = TrayView {
                visible: listed(visible),
                last_connected: None,
                last_idx: active,
                cycle_registered: false,
            };
            let d = Display {
                menu: menu_of(listed(visible), name_of_channel(active)),
                connected,
                tooltip,
            };
            shows(
                t,
                displayed(d, EffectView::SetStatus(status_of(false, name_of_channel(active)))),
            )
        }),
{
    lemma_listed_known(visible);
    let name = name_of_channel(active);
    lemma_telling(
        listed(visible),
        name,
        "GoXLR Utility: connecting…"@,
        status_of(false, name).text,
    );
}

/// Whatever message comes, the display keeps fitting what the tray has noted.
pub proof fn messages_keep_the_display(t: TrayView, d: Display, i: Input<'_>)
    requires
        shows(t, d),
    ensures
        shows(step(t, i).0, all_displayed(d, step(t, i).1)),
{
    let visible = views(i.visible@);
    let e = step(t, i).1;
    if i.msg == WM_TIMER && i.w_param == STATUS_TIMER_ID {
        tick_displays_the_shared_state(t, d, i.active as int, i.connected, visible);
    } else if i.msg == WM_HOTKEY_PAUSE || i.msg == WM_HOTKEY_RESUME {
        lemma_hotkey_effects_display_nothing(d, e);
    } else if is_cycle_hotkey(i.msg, i.w_param) {
        if let Some(next) = next_channel(visible, i.active as int) {
            lemma_next_is_a_channel(visible, i.active as int);
            let name = name_of_channel(next);
            crate::config::name_gives_index_back(next);
            assert(e =~= seq![
                EffectView::StoreActive(index_of_channel(name)),
                EffectView::SetChecks(name),
                EffectView::SetStatus(status_of(i.connected, name)),
                EffectView::ShowSwitch(name),
            ]);
            lemma_choice_displayed(t, d, name, i.connected);
            assert(e.drop_last() =~= choice_effects(name).push(
                EffectView::SetStatus(status_of(i.connected, name)),
            ));
        }
    }
}

/// Whatever entry of the displayed menu is chosen, the display keeps fitting what the tray has
/// noted.
pub proof fn choices_keep_the_display(t: TrayView, d: Display, entry: EntryView, connected: bool)
    requires
        shows(t, d),
        d.menu.contains(entry),
    ensures
        shows(chosen(t, entry, connected).0, all_displayed(d, chosen(t, entry, connected).1)),
{
    let e = chosen(t, entry, connected).1;
    match entry {
        EntryView::Channel { name, checked } => {
            lemma_entry_is_listed(t.visible, name_of_channel(t.last_idx), d.menu, entry);
            let k = choose|k: int| 0 <= k < t.visible.len() && t.visible[k] == name;
            assert(crate::config::channels().contains(t.visible[k]));
            crate::config::index_gives_name_back(name);
            lemma_choice_displayed(t, d, name, connected);
            assert(e =~= choice_effects(name).push(
                EffectView::SetStatus(status_of(connected, name)),
            ));
        },
        _ => {
            lemma_hotkey_effects_display_nothing(d, e);
        },
    }
}

/// After a tick of the timer the menu lists the channels that are visible, the check mark and the
/// tooltip are those of the active channel, and the status tells of one connection throughout.
/// That is the present connection, unless a channel was chosen or cycled to since the last tick
/// while the connection was another one.
pub proof fn tick_displays_the_shared_state(
    t: TrayView,
    d: Display,
    active: int,
    connected: bool,
    visible: Seq<Seq<char>>,
)
    requires
        shows(t, d),
    ensures
        ({
            let (after, effects) = ticked(t, active, connected, visible);
            let now = all_displayed(d, effects);
            &&& shows(after, now)
            &&& now == display_of(listed(visible), name_of_channel(active), now.connected)
            &&& effects.len() > 0 || t.last_connected == Some(d.connected) ==> now.connected
                == connected
        }),
{
    let name = name_of_channel(active);
    let status = EffectView::SetStatus(status_of(connected, name));
    let (after, effects) = ticked(t, active, connected, visible);
    let was = name_of_channel(t.last_idx);
    reveal_with_fuel(all_displayed, 3);
    lemma_listed_known(visible);
    let old_text = status_of(d.connected, was).text;
    let new_text = status_of(connected, name).text;
    if t.visible != listed(visible) {
        let set = EffectView::SetMenu(menu_of(listed(visible), name));
        assert(effects.drop_last() =~= seq![set]);
        assert(seq![set].drop_last() =~= Seq::<EffectView>::empty());
        lemma_telling(listed(visible), name, "GoXLR Utility: connecting…"@, new_text);
    } else if t.last_idx != active {
        let set = EffectView::SetChecks(name);
        assert(effects.drop_last() =~= seq![set]);
        assert(seq![set].drop_last() =~= Seq::<EffectView>::empty());
        lemma_checked_at(t.visible, was, name, old_text);
        lemma_telling(t.visible, name, old_text, new_text);
    } else if t.last_connected != Some(connected) {
        assert(effects.drop_last() =~= Seq::<EffectView>::empty());
        lemma_telling(t.visible, name, old_text, new_text);
    }
}

/// Moving the check mark gives the menu for the other channel.
proof fn lemma_checked_at(
    names: Seq<Seq<char>>,
    from: Seq<char>,
    to: Seq<char>,
    status: Seq<char>,
)
    ensures
        checked_at(menu_telling(names, from, status), to) == menu_telling(names, to, status),
{
    assert(checked_at(menu_telling(names, from, status), to) =~= menu_telling(names, to, status));
}

/// Changing the status entry gives the menu with the other text.
proof fn lemma_telling(names: Seq<Seq<char>>, active: Seq<char>, from: Seq<char>, to: Seq<char>)
    ensures
        telling(menu_telling(names, active, from), to) == menu_telling(names, active, to),
{
    assert(telling(menu_telling(names, active, from), to) =~= menu_telling(names, active, to));
}

/// The menu lists known channels only.
proof fn lemma_listed_known(visible: Seq<Seq<char>>)
    ensures
        crate::visibility::all_known(listed(visible)),
{
    let keep = |c: Seq<char>| visible.contains(c);
    assert forall|k: int| 0 <= k < listed(visible).len() implies channels().contains(
        #[trigger] listed(visible)[k],
    ) by {
        assert(listed(visible).contains(listed(visible)[k]));
        channels().lemma_filter_contains_rev(keep, listed(visible)[k]);
    }
}

/// What cycling gives is the index of a channel.
proof fn lemma_next_is_a_channel(visible: Seq<Seq<char>>, idx: int)
    requires
        next_channel(visible, idx) is Some,
    ensures
        0 <= next_channel(visible, idx)->0 < crate::config::channel_count(),
{
    crate::visibility::cycle_selects_visible(visible, idx);
    let k = choose|k: int|
        0 <= k < visible.len() && next_channel(visible, idx)->0 == index_of_channel(
            #[trigger] visible[k],
        );
    crate::config::lemma_channel_count();
    crate::text::lemma_position(channels(), visible[k]);
}

/// A channel's entry in the menu is one of those listed.
proof fn lemma_entry_is_listed(
    names: Seq<Seq<char>>,
    active: Seq<char>,
    menu: Seq<EntryView>,
    entry: EntryView,
)
    requires
        entry is Channel,
        menu.contains(entry),
        exists|status: Seq<char>| menu == #[trigger] menu_telling(names, active, status),
    ensures
        names.contains(entry->name),
{
    let status = choose|status: Seq<char>| menu == #[trigger] menu_telling(names, active, status);
    let k = choose|k: int| 0 <= k < menu.len() && menu[k] == entry;
    assert(2 <= k < 2 + names.len());
    assert(menu[k] == channel_entries(names, active)[k - 2]);
    assert(names[k - 2] == entry->name);
}

/// What choosing a channel displays.
proof fn lemma_choice_displayed(t: TrayView, d: Display, name: Seq<char>, connected: bool)
    requires
        shows(t, d),
    ensures
        all_displayed(
            d,
            choice_effects(name).push(EffectView::SetStatus(status_of(connected, name))),
        ) == display_of(t.visible, name, connected),
{
    reveal_with_fuel(all_displayed, 4);
    let was = name_of_channel(t.last_idx);
    let store = EffectView::StoreActive(index_of_channel(name));
    let e = choice_effects(name).push(EffectView::SetStatus(status_of(connected, name)));
    assert(e.drop_last() =~= choice_effects(name));
    assert(choice_effects(name).drop_last() =~= seq![store]);
    assert(seq![store].drop_last() =~= Seq::<EffectView>::empty());
    let old_text = status_of(d.connected, was).text;
    lemma_checked_at(t.visible, was, name, old_text);
    lemma_telling(t.visible, name, old_text, status_of(connected, name).text);
}

/// Effects about the hotkey, the log or other windows display nothing on the tray.
proof fn lemma_hotkey_effects_display_nothing(d: Display, effects: Seq<EffectView>)
    requires
        forall|k: int|
            0 <= k < effects.len() ==> !((#[trigger] effects[k]) is SetMenu || effects[k]
                is SetChecks || effects[k] is SetStatus),
    ensures
        all_displayed(d, effects) == d,
    decreases effects.len(),
{
    if effects.len() > 0 {
        let before = effects.drop_last();
        assert forall|k: int| 0 <= k < before.len() implies !((#[trigger] before[k]) is SetMenu
            || before[k] is SetChecks || before[k] is SetStatus) by {
            assert(before[k] == effects[k]);
        }
        lemma_hotkey_effects_display_nothing(d, before);
        assert(effects[effects.len() - 1] == effects.last());
    }
}

// ---------------------------------------------------------------- what each part says

/// The menu from top to bottom: the title, a line, one entry for each channel in order with the
/// check mark at the active one, a line, the status, the settings, a line, and the way out.
pub proof fn menu_is_laid_out(names: Seq<Seq<char>>, active: Seq<char>, k: int)
    ensures
        ({
            let menu = menu_of(names, active);
            let n = names.len() as int;
            &&& menu.len() == n + 7
            &&& menu[0] == EntryView::Label("GoXLR Volume Wheel — channel"@)
            &&& menu[1] == EntryView::Separator
            &&& 0 <= k < n ==> menu[k + 2] == (EntryView::Channel {
                name: names[k],
                checked: names[k] == active,
            })
            &&& menu[n + 2] == EntryView::Separator
            &&& menu[n + 3] == EntryView::Status("GoXLR Utility: connecting…"@)
            &&& menu[n + 4] == EntryView::Settings("Settings…"@)
            &&& menu[n + 5] == EntryView::Separator
            &&& menu[n + 6] == EntryView::Quit("Quit"@)
        }),
{
}

/// The view of a list of entries keeps every entry, in its place and with all that it holds.
pub proof fn entries_are_seen_as_they_are(menu: Seq<MenuEntry>, k: int)
    requires
        0 <= k < menu.len(),
    ensures
        entry_views(menu).len() == menu.len(),
        match menu[k] {
            MenuEntry::Label(text) => entry_views(menu)[k] == EntryView::Label(text@),
            MenuEntry::Separator => entry_views(menu)[k] == EntryView::Separator,
            MenuEntry::Channel { name, checked } => entry_views(menu)[k] == (EntryView::Channel {
                name: name@,
                checked,
            }),
            MenuEntry::Status(text) => entry_views(menu)[k] == EntryView::Status(text@),
            MenuEntry::Settings(text) => entry_views(menu)[k] == EntryView::Settings(text@),
            MenuEntry::Quit(text) => entry_views(menu)[k] == EntryView::Quit(text@),
        },
{
}

/// The view of a list of effects keeps every effect, in its place and with all that it holds.
pub proof fn effects_are_seen_as_they_are(effects: Seq<Effect>, k: int)
    requires
        0 <= k < effects.len(),
    ensures
        effect_views(effects).len() == effects.len(),
        match effects[k] {
            Effect::SetMenu(menu) => effect_views(effects)[k] is SetMenu && effect_views(
                effects,
            )[k]->SetMenu_0 == entry_views(menu@),
            Effect::SetChecks(name) => effect_views(effects)[k] == EffectView::SetChecks(name@),
            Effect::SetStatus(status) => effect_views(effects)[k] == EffectView::SetStatus(
                StatusView {
                    connected: status.connected,
                    text: status.text@,
                    tooltip: status.tooltip@,
                },
            ),
            Effect::StoreActive(i) => effect_views(effects)[k] == EffectView::StoreActive(i as int),
            Effect::UnregisterHotkey => effect_views(effects)[k] == EffectView::UnregisterHotkey,
            Effect::RegisterHotkey { text, mods, vk } => effect_views(effects)[k] == (
            EffectView::RegisterHotkey { text: text@, mods, vk }),
            Effect::LogError(line) => effect_views(effects)[k] == EffectView::LogError(line@),
            Effect::LogInfo(line) => effect_views(effects)[k] == EffectView::LogInfo(line@),
            Effect::ShowSwitch(name) => effect_views(effects)[k] == EffectView::ShowSwitch(name@),
            Effect::OpenSettings => effect_views(effects)[k] == EffectView::OpenSettings,
            Effect::StopTimer => effect_views(effects)[k] == EffectView::StopTimer,
            Effect::Exit => effect_views(effects)[k] == EffectView::Exit,
        },
{
}

/// The view of a tray is what its fields hold.
pub proof fn tray_is_seen_as_it_is(t: Tray, k: int)
    ensures
        t@.visible.len() == t.visible@.len(),
        0 <= k < t.visible@.len() ==> t@.visible[k] == t.visible@[k]@,
        t@.last_connected == t.last_connected,
        t@.last_idx == t.last_idx,
        t@.cycle_registered == t.cycle_registered,
{
}

/// The status tells of the connection it was made for, and the tooltip ends with the channel, or
/// with a remark behind the channel where the daemon is not there.
pub proof fn status_tells_connection_and_channel(connected: bool, channel: Seq<char>)
    ensures
        ({
            let s = status_of(connected, channel);
            &&& s.connected == connected
            &&& connected ==> s.text == "GoXLR Utility: connected"@
            &&& !connected ==> s.text == "GoXLR Utility: offline — is the daemon running?"@
            &&& connected ==> s.tooltip == "GoXLR Volume Wheel — "@ + channel
            &&& !connected ==> s.tooltip == "GoXLR Volume Wheel — "@ + channel + " (offline)"@
        }),
{
}

/// Registering asks for what the configured text stands for, under that same text; a text that
/// stands for nothing is logged, and without a text nothing happens.
pub proof fn registering_asks_for_the_configured_hotkey(hotkey: Option<Seq<char>>)
    ensures
        hotkey is None ==> register_effects(hotkey).len() == 0,
        hotkey is Some ==> register_effects(hotkey).len() == 1,
        hotkey is Some && hotkey_of(hotkey->0) is Some ==> {
            &&& register_effects(hotkey)[0] is RegisterHotkey
            &&& register_effects(hotkey)[0]->text == hotkey->0
            &&& (register_effects(hotkey)[0]->mods, register_effects(hotkey)[0]->vk) == hotkey_of(
                hotkey->0,
            )->0
        },
        hotkey is Some && hotkey_of(hotkey->0) is None ==> register_effects(hotkey)[0]
            == EffectView::LogError("cycle_hotkey malformed: "@ + hotkey->0),
{
}

/// A tick replaces the menu exactly where other channels are visible, moves the check mark exactly
/// where only the channel changed, and renews the status exactly where anything did; it asks for
/// nothing else.
pub proof fn tick_asks_for_what_changed(
    t: TrayView,
    active: int,
    connected: bool,
    visible: Seq<Seq<char>>,
    e: EffectView,
)
    ensures
        ({
            let effects = ticked(t, active, connected, visible).1;
            let listing = channels().filter(|c: Seq<char>| visible.contains(c));
            let name = name_of_channel(active);
            let other_channels = t.visible != listing;
            let other_active = t.last_idx != active;
            let other_connection = t.last_connected != Some(connected);
            &&& effects.contains(e) <==> {
                ||| other_channels && e == EffectView::SetMenu(menu_of(listing, name))
                ||| !other_channels && other_active && e == EffectView::SetChecks(name)
                ||| (other_channels || other_active || other_connection) && e
                    == EffectView::SetStatus(status_of(connected, name))
            }
            &&& effects.len() == (if other_channels || other_active {
                2int
            } else if other_connection {
                1
            } else {
                0
            })
            &&& effects.len() > 0 ==> effects.last() is SetStatus
        }),
{
    let effects = ticked(t, active, connected, visible).1;
    assert(listed(visible) == channels().filter(|c: Seq<char>| visible.contains(c)));
    if effects.len() > 0 {
        assert(effects.contains(effects[0]));
        assert(effects.contains(effects.last()));
        assert(effects.last() == effects[effects.len() - 1]);
    }
}

/// The cycle hotkey stores, checks, tells and shows the one channel that comes next, in that
/// order, and notes it as shown; where none comes next it does nothing.
pub proof fn cycling_stores_and_shows_the_next_channel(
    t: TrayView,
    active: int,
    connected: bool,
    visible: Seq<Seq<char>>,
)
    ensures
        ({
            let (after, effects) = cycled_to_next(t, active, connected, visible);
            &&& after.visible == t.visible && after.last_connected == t.last_connected
                && after.cycle_registered == t.cycle_registered
            &&& match next_channel(visible, active) {
                Some(next) => {
                    &&& after.last_idx == next
                    &&& effects.len() == 4
                    &&& effects[0] == EffectView::StoreActive(next)
                    &&& effects[1] == EffectView::SetChecks(name_of_channel(next))
                    &&& effects[2] == EffectView::SetStatus(
                        status_of(connected, name_of_channel(next)),
                    )
                    &&& effects[3] == EffectView::ShowSwitch(name_of_channel(next))
                },
                None => after.last_idx == t.last_idx && effects.len() == 0,
            }
        }),
{
    if next_channel(visible, active) is Some {
        lemma_next_is_a_channel(visible, active);
        crate::config::name_gives_index_back(next_channel(visible, active)->0);
    }
}

/// Which message does what, by number: a tick of the timer, the two requests about the hotkey, and
/// the hotkey itself, known by the low half of its parameter. All other messages do nothing.
pub proof fn messages_do_by_number(t: TrayView, i: Input<'_>)
    ensures
        ({
            let (after, effects) = step(t, i);
            let visible = Seq::new(i.visible@.len(), |k: int| i.visible@[k]@);
            let released = TrayView { cycle_registered: false, ..t };
            let release = if t.cycle_registered {
                seq![EffectView::UnregisterHotkey]
            } else {
                Seq::<EffectView>::empty()
            };
            &&& i.msg == 0x113 && i.w_param == 1 ==> (after, effects) == ticked(
                t,
                i.active as int,
                i.connected,
                visible,
            )
            &&& i.msg == 0x8005 ==> after == released && effects == release
            &&& i.msg == 0x8006 ==> after == released && effects == release + register_effects(
                match i.hotkey {
                    Some(text) => Some(text@),
                    None => None,
                },
            )
            &&& i.msg == 0x312 && i.w_param as int % 0x1_0000_0000 == 0xC0DE ==> (after, effects)
                == cycled_to_next(t, i.active as int, i.connected, visible)
            &&& !(i.msg == 0x113 && i.w_param == 1) && i.msg != 0x8005 && i.msg != 0x8006 && !(i.msg
                == 0x312 && i.w_param as int % 0x1_0000_0000 == 0xC0DE) ==> after == t
                && effects.len() == 0
        }),
{
    assert(views(i.visible@) =~= Seq::new(i.visible@.len(), |k: int| i.visible@[k]@));
}

/// Choosing a channel stores its index, checks it and tells it; the settings are opened from their
/// entry, the application ends from its own with the hotkey released first, and the other entries
/// do nothing.
pub proof fn entries_do_what_they_say(t: TrayView, entry: EntryView, connected: bool)
    ensures
        ({
            let (after, effects) = chosen(t, entry, connected);
            &&& after.visible == t.visible && after.last_connected == t.last_connected
                && after.cycle_registered == t.cycle_registered
            &&& match entry {
                EntryView::Channel { name, checked } => {
                    &&& after.last_idx == index_of_channel(name)
                    &&& effects.len() == 3
                    &&& effects[0] == EffectView::StoreActive(index_of_channel(name))
                    &&& effects[1] == EffectView::SetChecks(name)
                    &&& effects[2] == EffectView::SetStatus(status_of(connected, name))
                },
                EntryView::Settings(text) => {
                    &&& after.last_idx == t.last_idx
                    &&& effects.len() == 1
                    &&& effects[0] == EffectView::OpenSettings
                },
                EntryView::Quit(text) => {
                    &&& after.last_idx == t.last_idx
                    &&& effects.last() == EffectView::Exit
                    &&& effects.len() == (if t.cycle_registered {
                        2int
                    } else {
                        1
                    })
                    &&& t.cycle_registered ==> effects[0] == EffectView::UnregisterHotkey
                },
                _ => after.last_idx == t.last_idx && effects.len() == 0,
            }
        }),
{
}

/// An effect that is asked for on a condition is there alone where it holds.
pub proof fn conditional_effect_is_there_or_not(on: bool, e: EffectView)
    ensures
        effect_if(on, e).len() == (if on {
            1int
        } else {
            0
        }),
        on ==> effect_if(on, e)[0] == e,
{
}

/// The numbers that are shared with other windows and with Windows.
pub proof fn tray_numbers()
    ensures
        WM_HOTKEY_PAUSE == 0x8000 + 5,
        WM_HOTKEY_RESUME == 0x8000 + 6,
        STATUS_TIMER_ID == 1,
        STATUS_INTERVAL_MS == 1000,
        CYCLE_HOTKEY_ID == 49374,
{
}

} // verus!
