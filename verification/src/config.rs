//! The channels of the mixer and the user's configuration.

use crate::text::{find_name, opt_view, position, same, str_views, views};
use vstd::prelude::*;

verus! {

/// Channels exposed by the GoXLR daemon, in the order in which every list shows them.
pub const ALL_CHANNELS: [&'static str; 11] = [
    "Mic",
    "LineIn",
    "Console",
    "System",
    "Game",
    "Chat",
    "Sample",
    "Music",
    "Headphones",
    "MicMonitor",
    "LineOut",
];

/// Folder of the application's files inside the user's local application data.
pub const APP_FOLDER: &'static str = "GoXLR Volume Wheel";

/// Name of the configuration file.
pub const CONFIG_FILE: &'static str = "config.json";

/// Extension under which the configuration is written before it replaces the old file.
pub const CONFIG_TEMP_EXTENSION: &'static str = "json.tmp";

/// The number of channels.
pub open spec fn channel_count() -> nat {
    11
}

/// The channel names.
pub open spec fn channels() -> Seq<Seq<char>> {
    str_views(ALL_CHANNELS@)
}

/// The place of `name` among the channels, 0 where it names none.
pub open spec fn index_of_channel(name: Seq<char>) -> int {
    match position(channels(), name) {
        Some(i) => i,
        None => 0,
    }
}

/// The name of the channel at `idx`, that of the first where there is none.
pub open spec fn name_of_channel(idx: int) -> Seq<char> {
    if 0 <= idx < channel_count() {
        channels()[idx]
    } else {
        channels()[0]
    }
}

/// There are as many names as channels.
pub proof fn lemma_channel_count()
    ensures
        channels().len() == channel_count(),
        forall|i: int| 0 <= i < channel_count() ==> #[trigger] channels()[i] == ALL_CHANNELS@[i]@,
{
}

/// No two channels have the same name.
pub proof fn channels_distinct(i: int, j: int)
    requires
        0 <= i < channel_count(),
        0 <= j < channel_count(),
        i != j,
    ensures
        channels()[i] != channels()[j],
{
    reveal_strlit("Mic");
    reveal_strlit("LineIn");
    reveal_strlit("Console");
    reveal_strlit("System");
    reveal_strlit("Game");
    reveal_strlit("Chat");
    reveal_strlit("Sample");
    reveal_strlit("Music");
    reveal_strlit("Headphones");
    reveal_strlit("MicMonitor");
    reveal_strlit("LineOut");
    let c = channels();
    assert(c[0].len() == 3);
    assert(c[1].len() == 6 && c[1][0] == 'L');
    assert(c[2].len() == 7 && c[2][0] == 'C');
    assert(c[3].len() == 6 && c[3][0] == 'S' && c[3][1] == 'y');
    assert(c[4].len() == 4 && c[4][0] == 'G');
    assert(c[5].len() == 4 && c[5][0] == 'C');
    assert(c[6].len() == 6 && c[6][0] == 'S' && c[6][1] == 'a');
    assert(c[7].len() == 5);
    assert(c[8].len() == 10 && c[8][0] == 'H');
    assert(c[9].len() == 10 && c[9][0] == 'M');
    assert(c[10].len() == 7 && c[10][0] == 'L');
}

/// The index of a channel's name is the channel's own index: a stored name selects the channel
/// that was stored.
pub proof fn name_gives_index_back(i: int)
    requires
        0 <= i < channel_count(),
    ensures
        index_of_channel(name_of_channel(i)) == i,
{
    lemma_channel_count();
    assert forall|j: int| 0 <= j < i implies channels()[j] != channels()[i] by {
        channels_distinct(j, i);
    }
    crate::text::lemma_position_is(channels(), channels()[i], i);
}

/// The name at the index of a known name is that name.
pub proof fn index_gives_name_back(name: Seq<char>)
    requires
        channels().contains(name),
    ensures
        0 <= index_of_channel(name) < channel_count(),
        name_of_channel(index_of_channel(name)) == name,
{
    crate::text::lemma_position(channels(), name);
    lemma_channel_count();
}

/// Position of `name` inside [`ALL_CHANNELS`], if it is there.
pub fn find_channel(name: &str) -> (r: Option<usize>)
    ensures
        match r {
            Some(i) => position(channels(), name@) == Some(i as int) && i < channel_count(),
            None => position(channels(), name@) is None,
        },
{
    proof {
        lemma_channel_count();
        crate::text::lemma_position(channels(), name@);
    }
    let mut i: usize = 0;
    while i < 11
        invariant
            i <= 11,
            channels().len() == 11,
            forall|k: int| 0 <= k < 11 ==> #[trigger] channels()[k] == ALL_CHANNELS@[k]@,
            forall|k: int| 0 <= k < i ==> channels()[k] != name@,
        decreases 11 - i,
    {
        assert(channels()[i as int] == ALL_CHANNELS@[i as int]@);
        if same(ALL_CHANNELS[i], name) {
            proof {
                crate::text::lemma_position_is(channels(), name@, i as int);
            }
            return Some(i);
        }
        i = i + 1;
    }
    None
}

/// Position of `name` inside [`ALL_CHANNELS`]. Falls back to `0` for unknown names so a
/// malformed config can't panic the app on startup.
pub fn channel_index(name: &str) -> (r: usize)
    ensures
        r == index_of_channel(name@),
        r < channel_count(),
{
    match find_channel(name) {
        Some(i) => i,
        None => 0,
    }
}

/// `ALL_CHANNELS[idx]`, bounds-clamped to `ALL_CHANNELS[0]` if the index has drifted out of
/// range.
pub fn channel_name(idx: usize) -> (r: &'static str)
    ensures
        r@ == name_of_channel(idx as int),
{
    proof {
        lemma_channel_count();
    }
    if idx < 11 {
        assert(channels()[idx as int] == ALL_CHANNELS@[idx as int]@);
        ALL_CHANNELS[idx]
    } else {
        assert(channels()[0] == ALL_CHANNELS@[0]@);
        ALL_CHANNELS[0]
    }
}

// ---------------------------------------------------------------- config

/// What the user can change and what is kept on disk.
#[derive(Clone, Debug)]
pub struct Config {
    /// Channel selected at startup.
    pub default_channel: String,
    /// Subset of [`ALL_CHANNELS`] that the cycle hotkey iterates over and the tray menu lists.
    pub visible_channels: Vec<String>,
    /// Global hotkey that cycles through `visible_channels`, such as `"ctrl+shift+alt+v"`
    /// (case-insensitive, parts split by `+`). `None` disables it.
    pub cycle_hotkey: Option<String>,
}

/// What a [`Config`] holds.
#[verifier::ext_equal]
pub struct ConfigView {
    pub default_channel: Seq<char>,
    pub visible: Seq<Seq<char>>,
    pub cycle_hotkey: Option<Seq<char>>,
}

impl View for Config {
    type V = ConfigView;

    open spec fn view(&self) -> ConfigView {
        ConfigView {
            default_channel: self.default_channel@,
            visible: views(self.visible_channels@),
            cycle_hotkey: opt_view(self.cycle_hotkey),
        }
    }
}

/// The configuration of a first start: every channel visible, `Game` selected.
pub open spec fn default_config() -> ConfigView {
    ConfigView {
        default_channel: "Game"@,
        visible: channels(),
        cycle_hotkey: Some("ctrl+shift+alt+v"@),
    }
}

impl Default for Config {
    fn default() -> (r: Self)
        ensures
            r@ == default_config(),
    {
        proof {
            lemma_channel_count();
        }
        let mut visible: Vec<String> = Vec::new();
        for i in 0..11usize
            invariant
                visible@.len() == i,
                channels().len() == 11,
                forall|k: int| 0 <= k < 11 ==> #[trigger] channels()[k] == ALL_CHANNELS@[k]@,
                forall|k: int| 0 <= k < i ==> (#[trigger] visible@[k])@ == channels()[k],
        {
            assert(channels()[i as int] == ALL_CHANNELS@[i as int]@);
            visible.push(ALL_CHANNELS[i].to_owned());
        }
        assert(views(visible@) =~= channels());
        Config {
            default_channel: "Game".to_owned(),
            visible_channels: visible,
            cycle_hotkey: Some("ctrl+shift+alt+v".to_owned()),
        }
    }
}

/// Whether `name` is one of the visible channels.
pub fn is_visible(visible: &Vec<String>, name: &str) -> (r: bool)
    ensures
        r == views(visible@).contains(name@),
{
    proof {
        crate::text::lemma_position(views(visible@), name@);
    }
    find_name(visible, name).is_some()
}

// ---------------------------------------------------------------- loading

/// What came of reading the configuration file.
pub enum ConfigSource {
    /// The system tells no place for the file.
    NoPath,
    /// The file could not be read.
    Unreadable,
    /// The file was read and is not a configuration; the text says why.
    Malformed(String),
    /// The file holds this configuration.
    Parsed(Config),
}

/// The configuration to start with and what to do about the file.
pub struct Loaded {
    pub config: Config,
    /// Whether to write the configuration to the file.
    pub save: bool,
    /// What to log as an error.
    pub error: Option<String>,
}

/// The line that is logged for a configuration that cannot be parsed.
pub open spec fn parse_failure(reason: Seq<char>) -> Seq<char> {
    "config parse failed ("@ + reason + "), restoring defaults"@
}

/// Takes the configuration that was read, or restores the defaults where there is none or it is
/// malformed. The defaults are written back, where there is a place for the file, so the user
/// has something to edit by hand.
pub fn load(source: ConfigSource) -> (r: Loaded)
    ensures
        match source {
            ConfigSource::NoPath => r.config@ == default_config() && !r.save && r.error is None,
            ConfigSource::Unreadable => r.config@ == default_config() && r.save && r.error is None,
            ConfigSource::Malformed(reason) => r.config@ == default_config() && r.save && opt_view(
                r.error,
            ) == Some(parse_failure(reason@)),
            ConfigSource::Parsed(config) => r.config == config && !r.save && r.error is None,
        },
{
    match source {
        ConfigSource::NoPath => Loaded { config: Config::default(), save: false, error: None },
        ConfigSource::Unreadable => Loaded { config: Config::default(), save: true, error: None },
        ConfigSource::Malformed(reason) => {
            let mut line = "config parse failed (".to_owned();
            line.append(reason.as_str());
            line.append("), restoring defaults");
            Loaded { config: Config::default(), save: true, error: Some(line) }
        },
        ConfigSource::Parsed(config) => Loaded { config, save: false, error: None },
    }
}

// ---------------------------------------------------------------- saving

/// What follows once the configuration was written beside its file.
#[derive(Clone, Copy, Debug, PartialEq, Eq, Structural)]
pub enum SaveNext {
    /// Put what was written in the place of the file.
    Rename,
    /// Leave the file as it is.
    GiveUp,
}

/// Decides what follows once the configuration was written beside its file: only what was written
/// whole takes the file's place.
pub fn after_write(written: bool) -> (r: SaveNext)
    ensures
        r == next_after_write(written),
{
    if written {
        SaveNext::Rename
    } else {
        SaveNext::GiveUp
    }
}

/// What follows once the configuration was written beside its file.
pub open spec fn next_after_write(written: bool) -> SaveNext {
    if written {
        SaveNext::Rename
    } else {
        SaveNext::GiveUp
    }
}

/// The two files that a save touches, by what they hold.
pub struct Disk {
    pub file: Option<Seq<char>>,
    /// The file that is written first.
    pub beside: Option<Seq<char>>,
}

/// How far a save gets before the application or the machine stops.
pub enum SaveProgress {
    /// Nothing was written.
    NotStarted,
    /// This much stands beside the file, whole or not, and the writing was not reported done.
    Writing(Option<Seq<char>>),
    /// The writing was reported done, or failed and left this much.
    Written(Option<Seq<char>>, bool),
    /// What follows the writing was carried out.
    Done(Option<Seq<char>>, bool),
}

/// What is on disk where a save of `data` got so far. Writing that is reported done has written
/// all of it, and a rename takes place whole or not at all.
pub open spec fn disk_after(d: Disk, data: Seq<char>, progress: SaveProgress) -> Disk {
    match progress {
        SaveProgress::NotStarted => d,
        SaveProgress::Writing(part) => Disk { beside: part, ..d },
        SaveProgress::Written(part, written) => Disk {
            beside: if written {
                Some(data)
            } else {
                part
            },
            ..d
        },
        SaveProgress::Done(part, written) => {
            let beside = if written {
                Some(data)
            } else {
                part
            };
            match next_after_write(written) {
                SaveNext::Rename => Disk { file: beside, beside: None },
                SaveNext::GiveUp => Disk { beside, ..d },
            }
        },
    }
}

/// Wherever a save is cut off, the file holds what it held before or the whole new configuration;
/// a save that was carried out with the writing done leaves the new one.
pub proof fn save_never_leaves_half_a_file(d: Disk, data: Seq<char>, progress: SaveProgress)
    ensures
        disk_after(d, data, progress).file == d.file || disk_after(d, data, progress).file == Some(
            data,
        ),
        progress matches SaveProgress::Done(_, written) && written ==> disk_after(
            d,
            data,
            progress,
        ).file == Some(data),
{
}

// ---------------------------------------------------------------- laws

/// The channels, by name, in their order.
pub proof fn channels_are_as_listed()
    ensures
        channels().len() == 11,
        channel_count() == 11,
        channels()[0] == "Mic"@,
        channels()[1] == "LineIn"@,
        channels()[2] == "Console"@,
        channels()[3] == "System"@,
        channels()[4] == "Game"@,
        channels()[5] == "Chat"@,
        channels()[6] == "Sample"@,
        channels()[7] == "Music"@,
        channels()[8] == "Headphones"@,
        channels()[9] == "MicMonitor"@,
        channels()[10] == "LineOut"@,
{
    lemma_channel_count();
}

/// A name is found at the channel that has it, and an unknown name at the first channel; an index
/// names the channel at that place, and one that is out of range the first.
pub proof fn names_and_indices_fit(name: Seq<char>, idx: int)
    ensures
        0 <= index_of_channel(name) < 11,
        channels().contains(name) ==> channels()[index_of_channel(name)] == name,
        !channels().contains(name) ==> index_of_channel(name) == 0,
        0 <= idx < 11 ==> name_of_channel(idx) == channels()[idx],
        !(0 <= idx < 11) ==> name_of_channel(idx) == channels()[0],
{
    lemma_channel_count();
    crate::text::lemma_position(channels(), name);
    if position(channels(), name) is Some {
        assert(channels().contains(channels()[position(channels(), name)->0]));
    }
}

/// What a first start begins with: `Game` selected, every channel visible in the channels' own
/// order, and the hotkey that is documented.
pub proof fn defaults_show_every_channel(i: int)
    requires
        0 <= i < 11,
    ensures
        default_config().default_channel == "Game"@,
        default_config().visible.len() == 11,
        default_config().visible[i] == channels()[i],
        default_config().cycle_hotkey == Some("ctrl+shift+alt+v"@),
{
    lemma_channel_count();
}

/// The view of a configuration is what its fields hold.
pub proof fn config_view_is_the_contents(c: Config, i: int)
    ensures
        c@.default_channel == c.default_channel@,
        c@.visible.len() == c.visible_channels@.len(),
        0 <= i < c.visible_channels@.len() ==> c@.visible[i] == c.visible_channels@[i]@,
        c.cycle_hotkey is None ==> c@.cycle_hotkey is None,
        c.cycle_hotkey is Some ==> c@.cycle_hotkey == Some(c.cycle_hotkey->0@),
{
}

/// The line about a malformed file holds the reason as it was told, between fixed words.
pub proof fn parse_failure_tells_the_reason(reason: Seq<char>)
    ensures
        ({
            let head = "config parse failed ("@;
            let line = parse_failure(reason);
            &&& line.len() == head.len() + reason.len() + "), restoring defaults"@.len()
            &&& line.take(head.len() as int) == head
            &&& line.subrange(head.len() as int, (head.len() + reason.len()) as int) == reason
            &&& line.skip((head.len() + reason.len()) as int) == "), restoring defaults"@
        }),
{
    let head = "config parse failed ("@;
    let line = parse_failure(reason);
    assert(line.take(head.len() as int) =~= head);
    assert(line.subrange(head.len() as int, (head.len() + reason.len()) as int) =~= reason);
    assert(line.skip((head.len() + reason.len()) as int) =~= "), restoring defaults"@);
}

/// The file is replaced exactly where the writing beside it succeeded.
pub proof fn only_a_finished_write_is_renamed(written: bool)
    ensures
        next_after_write(written) == SaveNext::Rename <==> written,
{
}

} // verus!
