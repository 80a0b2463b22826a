//! The session with the GoXLR daemon: the requests that are sent, the status and the patches that
//! come in, and the volumes that follow from them.

use crate::hook::VolumeEvent;
use crate::json::{
    entries, get, inner_member, json_array, json_i64, json_object, json_str, json_string,
    key_before, member, pointer, pointer_text, write_string,
};
use crate::text::{
    decimal, opt_view, push_decimal, push_signed, signed_decimal, starts_with, strip_prefix,
};
use serde_json::Value;
use vstd::hash_map::StringHashMap;
use vstd::prelude::*;

verus! {

/// Where the daemon listens.
pub const WS_URL: &'static str = "ws://localhost:14564/api/websocket";

/// How far one step of the wheel moves a fader.
pub const VOLUME_STEP: i32 = 5;

pub const VOLUME_MIN: i32 = 0;

pub const VOLUME_MAX: i32 = 255;

/// Volume that a channel is taken to have while the daemon has not told one.
pub const VOLUME_FALLBACK: i32 = 128;

/// Pause before the next attempt to connect, in milliseconds.
pub const RECONNECT_DELAY_MS: u64 = 3000;

// ---------------------------------------------------------------- volumes

/// The low 32 bits of `v` as a signed number.
pub open spec fn low_i32(v: int) -> int {
    (v + 0x8000_0000) % 0x1_0000_0000 - 0x8000_0000
}

/// `v`, or the nearest volume there is.
pub open spec fn clamped(v: int) -> int {
    if v < VOLUME_MIN {
        VOLUME_MIN as int
    } else if v > VOLUME_MAX {
        VOLUME_MAX as int
    } else {
        v
    }
}

/// The volume that a number from the daemon stands for.
pub open spec fn told_volume(v: i64) -> i32 {
    clamped(low_i32(v as int)) as i32
}

/// The volume that a number from the daemon stands for.
pub fn volume_told(v: i64) -> (r: i32)
    ensures
        r == told_volume(v),
        VOLUME_MIN <= r <= VOLUME_MAX,
{
    let low: i32 = v as i32;
    proof {
        lemma_low_i32(v);
    }
    if low < VOLUME_MIN {
        VOLUME_MIN
    } else if low > VOLUME_MAX {
        VOLUME_MAX
    } else {
        low
    }
}

/// Casting to `i32` keeps the low 32 bits.
proof fn lemma_low_i32(v: i64)
    ensures
        (v as i32) as int == low_i32(v as int),
{
    assert((v - (v as i32) as i64) % 0x1_0000_0000 == 0) by (bit_vector);
}

/// A volume after one step of the wheel.
pub open spec fn stepped(volume: int, event: VolumeEvent) -> int {
    match event {
        VolumeEvent::Up => clamped(volume + VOLUME_STEP),
        VolumeEvent::Down => clamped(volume - VOLUME_STEP),
    }
}

/// A volume after one step of the wheel.
pub fn step_volume(volume: i32, event: VolumeEvent) -> (r: i32)
    requires
        VOLUME_MIN <= volume <= VOLUME_MAX,
    ensures
        r == stepped(volume as int, event),
{
    match event {
        VolumeEvent::Up => if volume + VOLUME_STEP < VOLUME_MAX {
            volume + VOLUME_STEP
        } else {
            VOLUME_MAX
        },
        VolumeEvent::Down => if volume - VOLUME_STEP > VOLUME_MIN {
            volume - VOLUME_STEP
        } else {
            VOLUME_MIN
        },
    }
}

/// Whether every known volume is one that a fader can have.
pub open spec fn volumes_valid(volumes: Map<Seq<char>, i32>) -> bool {
    forall|channel: Seq<char>| #[trigger]
        volumes.contains_key(channel) ==> VOLUME_MIN <= volumes[channel] <= VOLUME_MAX
}

/// The volume of a channel, as far as it is known.
pub open spec fn volume_of(volumes: Map<Seq<char>, i32>, channel: Seq<char>) -> i32 {
    if volumes.contains_key(channel) {
        volumes[channel]
    } else {
        VOLUME_FALLBACK
    }
}

// ---------------------------------------------------------------- requests

/// A request as the daemon reads it.
pub open spec fn request_text(id: u64, data: Seq<char>) -> Seq<char> {
    "{\"id\":"@ + decimal(id as nat) + ",\"data\":"@ + data + "}"@
}

/// The command that sets a fader.
pub open spec fn set_volume_text(serial: Seq<char>, channel: Seq<char>, volume: int) -> Seq<char> {
    "{\"Command\":["@ + json_string(serial) + ",{\"SetVolume\":["@ + json_string(channel) + ","@
        + signed_decimal(volume) + "]}]}"@
}

/// Frames a request.
fn frame(id: u64, data: &str) -> (r: String)
    ensures
        r@ == request_text(id, data@),
{
    let mut out = "{\"id\":".to_owned();
    push_decimal(&mut out, id);
    out.append(",\"data\":");
    out.append(data);
    out.append("}");
    out
}

/// The request for the full status.
pub fn status_request(id: u64) -> (r: String)
    ensures
        r@ == request_text(id, json_string("GetStatus"@)),
{
    let name = write_string("GetStatus").unwrap();
    frame(id, name.as_str())
}

/// The request that sets a fader.
pub fn set_volume_request(id: u64, serial: &str, channel: &str, volume: i32) -> (r: String)
    ensures
        r@ == request_text(id, set_volume_text(serial@, channel@, volume as int)),
{
    let serial_text = write_string(serial).unwrap();
    let channel_text = write_string(channel).unwrap();
    let mut data = "{\"Command\":[".to_owned();
    data.append(serial_text.as_str());
    data.append(",{\"SetVolume\":[");
    data.append(channel_text.as_str());
    data.append(",");
    push_signed(&mut data, volume);
    data.append("]}]}");
    frame(id, data.as_str())
}

// ---------------------------------------------------------------- session

/// What is known of the mixer once the daemon has told its status.
pub struct Session {
    /// The mixer that the requests are for.
    pub serial: String,
    /// Volumes by channel name.
    pub volumes: StringHashMap<i32>,
    /// Identifier of the next request.
    pub next_id: u64,
}

/// What a [`Session`] holds.
#[verifier::ext_equal]
pub struct SessionView {
    pub serial: Seq<char>,
    pub volumes: Map<Seq<char>, i32>,
    pub next_id: u64,
}

impl View for Session {
    type V = SessionView;

    open spec fn view(&self) -> SessionView {
        SessionView { serial: self.serial@, volumes: self.volumes@, next_id: self.next_id }
    }
}

/// The identifier after `id`; the identifiers start over after the largest.
pub open spec fn following_id(id: u64) -> u64 {
    if id == u64::MAX {
        0
    } else {
        (id + 1) as u64
    }
}

/// The session after a step of the wheel for `channel`, and the request that is sent where the
/// step changes the volume.
pub open spec fn event_taken(s: SessionView, event: VolumeEvent, channel: Seq<char>) -> (
    SessionView,
    Option<Seq<char>>,
) {
    let current = volume_of(s.volumes, channel);
    let new = stepped(current as int, event);
    if new == current {
        (s, None)
    } else {
        (
            SessionView {
                volumes: s.volumes.insert(channel, new as i32),
                next_id: following_id(s.next_id),
                ..s
            },
            Some(request_text(s.next_id, set_volume_text(s.serial, channel, new))),
        )
    }
}

/// The session after a report of the daemon.
pub open spec fn data_taken(s: SessionView, data: Value) -> SessionView {
    SessionView { volumes: reported(s.volumes, s.serial, data), ..s }
}

impl Session {
    /// Whether every known volume is one that a fader can have.
    pub open spec fn valid(&self) -> bool {
        volumes_valid(self.volumes@)
    }

    /// Takes one step of the wheel for `channel`. Where that changes the volume, the result is the
    /// request to send.
    pub fn on_volume_event(&mut self, event: VolumeEvent, channel: &str) -> (r: Option<String>)
        requires
            old(self).valid(),
        ensures
            final(self).valid(),
            final(self).serial == old(self).serial,
            (final(self)@, opt_view(r)) == event_taken(old(self)@, event, channel@),
    {
        let current: i32 = match self.volumes.get(channel) {
            Some(v) => *v,
            None => VOLUME_FALLBACK,
        };
        assert(self.volumes@.contains_key(channel@) ==> VOLUME_MIN <= self.volumes@[channel@]
            <= VOLUME_MAX);
        let new = step_volume(current, event);
        if new == current {
            return None;
        }
        self.volumes.insert(channel.to_owned(), new);
        let request = set_volume_request(self.next_id, self.serial.as_str(), channel, new);
        self.next_id = self.next_id.wrapping_add(1);
        Some(request)
    }

    /// Takes in what the daemon reports while the session runs.
    pub fn on_data(&mut self, data: &Value)
        requires
            old(self).valid(),
        ensures
            final(self).valid(),
            final(self).serial == old(self).serial,
            final(self)@ == data_taken(old(self)@, *data),
    {
        handle_incoming(data, self.serial.as_str(), &mut self.volumes);
    }
}

// ---------------------------------------------------------------- patches

/// What the paths of volume patches for a mixer begin with; the channel follows.
pub open spec fn patch_prefix(serial: Seq<char>) -> Seq<char> {
    "/mixers/"@ + serial + "/levels/volumes/"@
}

/// The volumes after a patch: where its path is that of a channel and its value a number, the
/// channel has that volume; otherwise nothing changes.
pub open spec fn patched(
    volumes: Map<Seq<char>, i32>,
    serial: Seq<char>,
    path: Seq<char>,
    value: Option<i64>,
) -> Map<Seq<char>, i32> {
    let prefix = patch_prefix(serial);
    match value {
        Some(v) => if starts_with(path, prefix) {
            volumes.insert(path.skip(prefix.len() as int), told_volume(v))
        } else {
            volumes
        },
        None => volumes,
    }
}

/// The path of a patch, empty where it has none.
pub open spec fn patch_path(patch: Value) -> Seq<char> {
    match member(patch, "path"@) {
        Some(p) => match json_str(p) {
            Some(s) => s,
            None => ""@,
        },
        None => ""@,
    }
}

/// The number that a patch sets.
pub open spec fn patch_value(patch: Value) -> Option<i64> {
    match member(patch, "value"@) {
        Some(v) => json_i64(v),
        None => None,
    }
}

/// The patches of a report; none where it is no patch report.
pub open spec fn patches_of(data: Value) -> Seq<Value> {
    match member(data, "Patch"@) {
        Some(p) => match json_array(p) {
            Some(list) => list,
            None => Seq::empty(),
        },
        None => Seq::empty(),
    }
}

/// The volumes after patches, the first one first.
pub open spec fn all_patched(
    volumes: Map<Seq<char>, i32>,
    serial: Seq<char>,
    patches: Seq<Value>,
) -> Map<Seq<char>, i32>
    decreases patches.len(),
{
    if patches.len() == 0 {
        volumes
    } else {
        patched(
            all_patched(volumes, serial, patches.drop_last()),
            serial,
            patch_path(patches.last()),
            patch_value(patches.last()),
        )
    }
}

/// The volumes after a report.
pub open spec fn reported(volumes: Map<Seq<char>, i32>, serial: Seq<char>, data: Value) -> Map<
    Seq<char>,
    i32,
> {
    all_patched(volumes, serial, patches_of(data))
}

/// Takes in one patch: `path` says what changes, `value` the number it is set to.
pub fn apply_patch(volumes: &mut StringHashMap<i32>, serial: &str, path: &str, value: Option<i64>)
    ensures
        final(volumes)@ == patched(old(volumes)@, serial@, path@, value),
        volumes_valid(old(volumes)@) ==> volumes_valid(final(volumes)@),
{
    let mut prefix = "/mixers/".to_owned();
    prefix.append(serial);
    prefix.append("/levels/volumes/");
    if let Some(channel) = strip_prefix(path, prefix.as_str()) {
        if let Some(v) = value {
            volumes.insert(channel, volume_told(v));
        }
    }
}

/// Takes in a report of the daemon. Patch paths look like
/// `/mixers/<serial>/levels/volumes/<Channel>`; everything else is ignored.
pub fn handle_incoming(data: &Value, serial: &str, volumes: &mut StringHashMap<i32>)
    ensures
        final(volumes)@ == reported(old(volumes)@, serial@, *data),
        volumes_valid(old(volumes)@) ==> volumes_valid(final(volumes)@),
{
    let patches = match get(data, "Patch") {
        Some(p) => match p.as_array() {
            Some(list) => list,
            None => {
                return ;
            },
        },
        None => {
            return ;
        },
    };
    let ghost start = volumes@;
    assert(patches_of(*data) == patches@);
    assert(patches@.take(0) =~= Seq::<Value>::empty());
    let mut i: usize = 0;
    while i < patches.len()
        invariant
            i <= patches@.len(),
            volumes@ == all_patched(start, serial@, patches@.take(i as int)),
            volumes_valid(start) ==> volumes_valid(volumes@),
        decreases patches.len() - i,
    {
        let patch = &patches[i];
        let path = match get(patch, "path") {
            Some(p) => match p.as_str() {
                Some(s) => s,
                None => "",
            },
            None => "",
        };
        let value: Option<i64> = match get(patch, "value") {
            Some(v) => v.as_i64(),
            None => None,
        };
        apply_patch(volumes, serial, path, value);
        assert(patches@.take(i + 1).drop_last() =~= patches@.take(i as int));
        assert(patches@.take(i + 1).last() == *patch);
        i = i + 1;
    }
    assert(patches@.take(i as int) =~= patches@);
}

// ---------------------------------------------------------------- status

/// The mixers of a status report, by serial; none where the report is no status.
pub open spec fn mixers_of(data: Value) -> Option<Map<Seq<char>, Value>> {
    match inner_member(data, "Status"@, "mixers"@) {
        Some(mixers) => json_object(mixers),
        None => None,
    }
}

/// The volumes that a mixer's report tells: of each channel whose volume is a whole number.
pub open spec fn volumes_of(mixer: Value) -> Map<Seq<char>, i32> {
    let levels = match inner_member(mixer, "levels"@, "volumes"@) {
        Some(v) => json_object(v),
        None => None,
    };
    match levels {
        Some(m) => Map::new(
            |name: Seq<char>| m.contains_key(name) && json_i64(m[name]) is Some,
            |name: Seq<char>| told_volume(json_i64(m[name])->0),
        ),
        None => Map::empty(),
    }
}

/// What comes of a report while the status is awaited.
pub enum StatusReply {
    /// It is not the status: keep waiting.
    Other,
    /// The daemon reports no mixer.
    NoMixer,
    /// The mixer with the lowest serial, and its volumes.
    Mixer(String, StringHashMap<i32>),
}

/// Reads a report while the status is awaited.
pub fn wait_for_status(data: &Value) -> (r: StatusReply)
    ensures
        match r {
            StatusReply::Other => mixers_of(*data) is None,
            StatusReply::NoMixer => mixers_of(*data) matches Some(mixers)
                && mixers.dom() == Set::<Seq<char>>::empty(),
            StatusReply::Mixer(serial, volumes) => {
                &&& mixers_of(*data) matches Some(mixers)
                &&& mixers.contains_key(serial@)
                &&& forall|other: Seq<char>| #[trigger]
                    mixers.contains_key(other) && other != serial@ ==> key_before(serial@, other)
                &&& volumes@ == volumes_of(mixers[serial@])
                &&& volumes_valid(volumes@)
            },
        },
        match r {
            StatusReply::Mixer(serial, volumes) => {
                let status = json_object(*data)->0["Status"@];
                let mixers = json_object(json_object(status)->0["mixers"@])->0;
                let levels = json_object(mixers[serial@])->0["levels"@];
                let told = json_object(json_object(levels)->0["volumes"@])->0;
                let tells = {
                    &&& json_object(mixers[serial@]) is Some
                    &&& json_object(mixers[serial@])->0.contains_key("levels"@)
                    &&& json_object(levels) is Some
                    &&& json_object(levels)->0.contains_key("volumes"@)
                    &&& json_object(json_object(levels)->0["volumes"@]) is Some
                };
                &&& json_object(*data) is Some && json_object(*data)->0.contains_key("Status"@)
                &&& json_object(status) is Some && json_object(status)->0.contains_key("mixers"@)
                &&& json_object(json_object(status)->0["mixers"@]) is Some
                &&& mixers.contains_key(serial@)
                &&& forall|name: Seq<char>| #[trigger]
                    volumes@.contains_key(name) <==> tells && told.contains_key(name) && json_i64(
                        told[name],
                    ) is Some
                &&& forall|name: Seq<char>| #[trigger]
                    volumes@.contains_key(name) ==> {
                        let n = json_i64(told[name])->0;
                        &&& 0 <= n <= 255 ==> volumes@[name] == n
                        &&& i32::MIN <= n < 0 ==> volumes@[name] == 0
                        &&& 255 < n <= i32::MAX ==> volumes@[name] == 255
                        &&& volumes@[name] == told_volume(n)
                    }
            },
            _ => true,
        },
{
    let mixers = match get(data, "Status") {
        Some(status) => match get(status, "mixers") {
            Some(mixers) => mixers,
            None => {
                return StatusReply::Other;
            },
        },
        None => {
            return StatusReply::Other;
        },
    };
    let list = match mixers.as_object() {
        Some(members) => entries(members),
        None => {
            return StatusReply::Other;
        },
    };
    let ghost all = json_object(*mixers)->0;
    if list.len() == 0 {
        assert(all.dom() =~= Set::<Seq<char>>::empty());
        return StatusReply::NoMixer;
    }
    let (serial, mixer) = list[0];
    assert(all.contains_key(list@[0].0@) && all[list@[0].0@] == *list@[0].1);
    assert forall|other: Seq<char>| #[trigger]
        all.contains_key(other) && other != serial@ implies key_before(serial@, other) by {
        let i = choose|i: int| 0 <= i < list@.len() && (#[trigger] list@[i]).0@ == other;
        assert(i > 0);
        assert(key_before(list@[0].0@, list@[i].0@));
    }
    let volumes = read_volumes(mixer);
    StatusReply::Mixer(serial.clone(), volumes)
}

/// The volumes that a mixer's report tells.
pub fn read_volumes(mixer: &Value) -> (r: StringHashMap<i32>)
    ensures
        r@ == volumes_of(*mixer),
        volumes_valid(r@),
{
    let mut volumes: StringHashMap<i32> = StringHashMap::new();
    let path = "/levels/volumes";
    proof {
        reveal_strlit("/levels/volumes");
        reveal_strlit("levels");
        reveal_strlit("volumes");
        assert(path@ =~= pointer_text("levels"@, "volumes"@));
    }
    let levels = match pointer(mixer, path) {
        Some(levels) => levels,
        None => {
            assert(volumes@ =~= volumes_of(*mixer));
            return volumes;
        },
    };
    let list = match levels.as_object() {
        Some(members) => entries(members),
        None => {
            assert(volumes@ =~= volumes_of(*mixer));
            return volumes;
        },
    };
    let ghost m = json_object(*levels)->0;
    let mut i: usize = 0;
    while i < list.len()
        invariant
            i <= list@.len(),
            forall|k: int|
                0 <= k < list@.len() ==> m.contains_key((#[trigger] list@[k]).0@)
                    && m[list@[k].0@] == *list@[k].1,
            volumes_valid(volumes@),
            forall|name: Seq<char>| #[trigger]
                volumes@.contains_key(name) ==> m.contains_key(name) && json_i64(m[name]) is Some
                    && volumes@[name] == told_volume(json_i64(m[name])->0),
            forall|k: int|
                0 <= k < i && json_i64(*(#[trigger] list@[k]).1) is Some ==> volumes@.contains_key(
                    list@[k].0@,
                ),
        decreases list.len() - i,
    {
        let (name, val) = list[i];
        assert(m[list@[i as int].0@] == *list@[i as int].1);
        if let Some(v) = val.as_i64() {
            volumes.insert(name.clone(), volume_told(v));
        }
        i = i + 1;
    }
    assert forall|name: Seq<char>| m.contains_key(name) && json_i64(m[name]) is Some implies
        volumes@.contains_key(name) by {
        let k = choose|k: int| 0 <= k < list@.len() && (#[trigger] list@[k]).0@ == name;
        assert(m[list@[k].0@] == *list@[k].1);
    }
    assert(volumes@ =~= volumes_of(*mixer));
    volumes
}

// ---------------------------------------------------------------- connection

/// What the connection brings.
pub enum Incoming<'a> {
    /// A message that is not text.
    Ignored,
    /// A text that is not a message of the daemon.
    Malformed,
    /// The data of a message.
    Data(&'a Value),
    /// An error of the connection.
    Failed,
    /// The end of the connection.
    Closed,
}

/// Why a connection is given up.
#[derive(Clone, Copy, Debug, PartialEq, Eq, Structural)]
pub enum DropReason {
    ClosedBeforeStatus,
    Closed,
    Failed,
    Malformed,
    NoMixer,
}

/// A connection to the daemon.
pub struct Client {
    /// The session; none while the status is awaited.
    pub session: Option<Session>,
    /// Identifier of the first request of the session.
    pub first_id: u64,
}

impl Client {
    /// Whether the session, if there is one, is valid.
    pub open spec fn valid(&self) -> bool {
        self.session matches Some(s) ==> s.valid()
    }

    /// Whether the daemon has told its status.
    pub fn is_connected(&self) -> (r: bool)
        ensures
            r == self.session is Some,
    {
        self.session.is_some()
    }

    /// Takes in what the connection brings. While the status is awaited, the first status report
    /// starts the session, and other messages are passed over; after that, patches are followed.
    /// An error, a malformed message, the end of the connection, or a status without a mixer gives
    /// the connection up.
    pub fn on_incoming(&mut self, msg: Incoming<'_>) -> (r: Option<DropReason>)
        requires
            old(self).valid(),
        ensures
            final(self).valid(),
            final(self).first_id == old(self).first_id,
            match msg {
                Incoming::Ignored => r is None && *final(self) == *old(self),
                Incoming::Malformed => r == Some(DropReason::Malformed) && *final(self) == *old(
                    self,
                ),
                Incoming::Failed => r == Some(DropReason::Failed) && *final(self) == *old(self),
                Incoming::Closed => *final(self) == *old(self) && r == Some(
                    if old(self).session is Some {
                        DropReason::Closed
                    } else {
                        DropReason::ClosedBeforeStatus
                    },
                ),
                Incoming::Data(data) => match old(self).session {
                    Some(before) => {
                        &&& r is None
                        &&& final(self).session matches Some(after)
                        &&& after.serial == before.serial
                        &&& after.next_id == before.next_id
                        &&& after.volumes@ == reported(before.volumes@, before.serial@, *data)
                    },
                    None => match mixers_of(*data) {
                        None => r is None && final(self).session is None,
                        Some(mixers) => if mixers.dom() == Set::<Seq<char>>::empty() {
                            r == Some(DropReason::NoMixer) && final(self).session is None
                        } else {
                            &&& r is None
                            &&& final(self).session matches Some(after)
                            &&& after.next_id == old(self).first_id
                            &&& mixers.contains_key(after.serial@)
                            &&& forall|other: Seq<char>| #[trigger]
                                mixers.contains_key(other) && other != after.serial@ ==> key_before(
                                    after.serial@,
                                    other,
                                )
                            &&& after.volumes@ == volumes_of(mixers[after.serial@])
                        },
                    },
                },
            },
    {
        match msg {
            Incoming::Ignored => None,
            Incoming::Malformed => Some(DropReason::Malformed),
            Incoming::Failed => Some(DropReason::Failed),
            Incoming::Closed => if self.session.is_some() {
                Some(DropReason::Closed)
            } else {
                Some(DropReason::ClosedBeforeStatus)
            },
            Incoming::Data(data) => {
                match self.session.take() {
                    Some(session) => {
                        let mut session = session;
                        session.on_data(data);
                        self.session = Some(session);
                        None
                    },
                    None => match wait_for_status(data) {
                        StatusReply::Other => None,
                        StatusReply::NoMixer => Some(DropReason::NoMixer),
                        StatusReply::Mixer(serial, volumes) => {
                            self.session = Some(
                                Session { serial, volumes, next_id: self.first_id },
                            );
                            None
                        },
                    },
                }
            },
        }
    }
}

/// A fresh connection and the request that opens it: the full status tells the mixer's serial and
/// the current volumes.
pub fn connect() -> (r: (Client, String))
    ensures
        r.0.session is None,
        r.0.valid(),
        r.0.first_id == 2,
        r.1@ == request_text(1, json_string("GetStatus"@)),
{
    (Client { session: None, first_id: 2 }, status_request(1))
}

/// How a connection ended.
#[derive(Clone, Copy, Debug, PartialEq, Eq, Structural)]
pub enum SessionEnd {
    /// No more steps of the wheel will come.
    EventsClosed,
    /// It could not be made or was given up.
    Dropped,
}

/// Whether a connection has ended, and how. It ends well only once the status was received and no
/// more steps of the wheel will come; whatever makes it be given up comes first.
pub fn connection_end(client: &Client, dropped: Option<DropReason>, events_closed: bool) -> (r:
    Option<SessionEnd>)
    ensures
        r == (if dropped is Some {
            Some(SessionEnd::Dropped)
        } else if events_closed && client.session is Some {
            Some(SessionEnd::EventsClosed)
        } else {
            None
        }),
{
    if dropped.is_some() {
        Some(SessionEnd::Dropped)
    } else if events_closed && client.session.is_some() {
        Some(SessionEnd::EventsClosed)
    } else {
        None
    }
}

/// What the client does after a connection: wait that many milliseconds and connect again, or
/// exit.
pub fn run_client(end: SessionEnd) -> (r: Option<u64>)
    ensures
        r == (match end {
            SessionEnd::Dropped => Some(RECONNECT_DELAY_MS),
            SessionEnd::EventsClosed => None,
        }),
{
    match end {
        SessionEnd::Dropped => Some(RECONNECT_DELAY_MS),
        SessionEnd::EventsClosed => None,
    }
}

// ---------------------------------------------------------------- laws

/// A step leads to a volume of a fader, whatever it starts from.
pub proof fn step_stays_in_range(volume: int, event: VolumeEvent)
    ensures
        VOLUME_MIN <= stepped(volume, event) <= VOLUME_MAX,
{
}

/// A step up and a step down undo each other, as long as neither runs into an end of the range.
pub proof fn steps_undo_each_other(volume: int)
    ensures
        VOLUME_MIN <= volume <= VOLUME_MAX - VOLUME_STEP ==> stepped(
            stepped(volume, VolumeEvent::Up),
            VolumeEvent::Down,
        ) == volume,
        VOLUME_MIN + VOLUME_STEP <= volume <= VOLUME_MAX ==> stepped(
            stepped(volume, VolumeEvent::Down),
            VolumeEvent::Up,
        ) == volume,
{
}

/// A step changes nothing only at the end of the range that it leads to.
pub proof fn step_rests_only_at_the_ends(volume: int, event: VolumeEvent)
    requires
        VOLUME_MIN <= volume <= VOLUME_MAX,
    ensures
        stepped(volume, event) == volume <==> volume == (match event {
            VolumeEvent::Up => VOLUME_MAX,
            VolumeEvent::Down => VOLUME_MIN,
        }),
{
}

/// A number from the daemon stands for itself where a fader can have it, and for the nearest
/// volume otherwise. A number beyond 32 bits counts by its low 32 bits, so there the nearest
/// volume comes out only where those lie beyond the same end.
pub proof fn told_volume_is_the_nearest(v: i64)
    ensures
        i32::MIN <= v <= i32::MAX ==> told_volume(v) == clamped(v as int),
        v > i32::MAX ==> (told_volume(v) == clamped(v as int) <==> low_i32(v as int) >= VOLUME_MAX),
        v < i32::MIN ==> (told_volume(v) == clamped(v as int) <==> low_i32(v as int) <= VOLUME_MIN),
{
}

/// Whether a patch tells a volume of the channel.
pub open spec fn tells(serial: Seq<char>, patch: Value, channel: Seq<char>) -> bool {
    patch_path(patch) == patch_prefix(serial) + channel && patch_value(patch) is Some
}

/// The volume of the channel after the patches is that of the last patch that tells one, whatever
/// comes before it and whatever other patches come after it.
pub proof fn last_report_wins(
    volumes: Map<Seq<char>, i32>,
    serial: Seq<char>,
    patches: Seq<Value>,
    channel: Seq<char>,
    k: int,
)
    requires
        0 <= k < patches.len(),
        tells(serial, patches[k], channel),
        forall|j: int| k < j < patches.len() ==> !tells(serial, #[trigger] patches[j], channel),
    ensures
        all_patched(volumes, serial, patches).contains_key(channel),
        volume_of(all_patched(volumes, serial, patches), channel) == told_volume(
            patch_value(patches[k])->0,
        ),
        i32::MIN <= patch_value(patches[k])->0 <= i32::MAX ==> volume_of(
            all_patched(volumes, serial, patches),
            channel,
        ) == clamped(patch_value(patches[k])->0 as int),
    decreases patches.len(),
{
    let prefix = patch_prefix(serial);
    let path = prefix + channel;
    told_volume_is_the_nearest(patch_value(patches[k])->0);
    assert(path.take(prefix.len() as int) =~= prefix);
    assert(path.skip(prefix.len() as int) =~= channel);
    let before = patches.drop_last();
    if k < patches.len() - 1 {
        assert forall|j: int| k < j < before.len() implies !tells(
            serial,
            #[trigger] before[j],
            channel,
        ) by {
            assert(before[j] == patches[j]);
        }
        last_report_wins(volumes, serial, before, channel, k);
        lemma_patch_passes(
            all_patched(volumes, serial, before),
            serial,
            patches[patches.len() - 1],
            channel,
        );
    }
}

/// Patches that tell no volume of the channel leave it as it is.
pub proof fn unrelated_reports_leave_a_channel(
    volumes: Map<Seq<char>, i32>,
    serial: Seq<char>,
    patches: Seq<Value>,
    channel: Seq<char>,
)
    requires
        forall|j: int| 0 <= j < patches.len() ==> !tells(serial, #[trigger] patches[j], channel),
    ensures
        volume_of(all_patched(volumes, serial, patches), channel) == volume_of(volumes, channel),
    decreases patches.len(),
{
    if patches.len() > 0 {
        let before = patches.drop_last();
        assert forall|j: int| 0 <= j < before.len() implies !tells(
            serial,
            #[trigger] before[j],
            channel,
        ) by {
            assert(before[j] == patches[j]);
        }
        unrelated_reports_leave_a_channel(volumes, serial, before, channel);
        lemma_patch_passes(
            all_patched(volumes, serial, before),
            serial,
            patches[patches.len() - 1],
            channel,
        );
    }
}

/// A patch that tells no volume of the channel leaves what is known of it.
proof fn lemma_patch_passes(
    volumes: Map<Seq<char>, i32>,
    serial: Seq<char>,
    patch: Value,
    channel: Seq<char>,
)
    requires
        !tells(serial, patch, channel),
    ensures
        ({
            let after = patched(volumes, serial, patch_path(patch), patch_value(patch));
            &&& after.contains_key(channel) == volumes.contains_key(channel)
            &&& volume_of(after, channel) == volume_of(volumes, channel)
        }),
{
    let prefix = patch_prefix(serial);
    let path = patch_path(patch);
    if starts_with(path, prefix) && path.skip(prefix.len() as int) == channel {
        assert(path =~= path.take(prefix.len() as int) + path.skip(prefix.len() as int));
    }
}

/// A patch for another place leaves a channel's volume as it is.
pub proof fn other_patches_leave_a_channel(
    volumes: Map<Seq<char>, i32>,
    serial: Seq<char>,
    path: Seq<char>,
    value: Option<i64>,
    channel: Seq<char>,
)
    requires
        path != patch_prefix(serial) + channel,
    ensures
        volume_of(patched(volumes, serial, path, value), channel) == volume_of(volumes, channel),
{
    let prefix = patch_prefix(serial);
    if starts_with(path, prefix) && path.skip(prefix.len() as int) == channel {
        assert(path =~= path.take(prefix.len() as int) + path.skip(prefix.len() as int));
    }
}

/// The daemon's echo of a volume that was set changes nothing.
pub proof fn echo_changes_nothing(
    volumes: Map<Seq<char>, i32>,
    serial: Seq<char>,
    channel: Seq<char>,
)
    requires
        volumes_valid(volumes),
        volumes.contains_key(channel),
    ensures
        patched(
            volumes,
            serial,
            patch_prefix(serial) + channel,
            Some(volumes[channel] as i64),
        ) == volumes,
{
    let prefix = patch_prefix(serial);
    let path = prefix + channel;
    assert(path.take(prefix.len() as int) =~= prefix);
    assert(path.skip(prefix.len() as int) =~= channel);
    assert(volumes.insert(channel, volumes[channel]) =~= volumes);
}

/// Whatever the daemon reports, the known volumes stay volumes of a fader.
pub proof fn reports_keep_volumes_valid(
    volumes: Map<Seq<char>, i32>,
    serial: Seq<char>,
    patches: Seq<Value>,
)
    requires
        volumes_valid(volumes),
    ensures
        volumes_valid(all_patched(volumes, serial, patches)),
    decreases patches.len(),
{
    if patches.len() > 0 {
        reports_keep_volumes_valid(volumes, serial, patches.drop_last());
    }
}

// ---------------------------------------------------------------- a session's course

/// What a step of the wheel leads to: five up or down, held at the ends. One request for that
/// volume is sent where it is another one, and nothing otherwise; the next step for the channel
/// starts from it, and what is known of other channels stays.
pub proof fn step_sends_its_target_once(s: SessionView, event: VolumeEvent, channel: Seq<char>)
    requires
        volumes_valid(s.volumes),
    ensures
        ({
            let current = volume_of(s.volumes, channel);
            let target = match event {
                VolumeEvent::Up => if current + VOLUME_STEP < VOLUME_MAX {
                    current + VOLUME_STEP
                } else {
                    VOLUME_MAX as int
                },
                VolumeEvent::Down => if current - VOLUME_STEP > VOLUME_MIN {
                    current - VOLUME_STEP
                } else {
                    VOLUME_MIN as int
                },
            };
            let (after, request) = event_taken(s, event, channel);
            &&& VOLUME_MIN <= target <= VOLUME_MAX
            &&& request == (if target != current {
                Some(request_text(s.next_id, set_volume_text(s.serial, channel, target)))
            } else {
                None
            })
            &&& volume_of(after.volumes, channel) == target
            &&& volumes_valid(after.volumes)
            &&& after.serial == s.serial
            &&& forall|other: Seq<char>|
                #![trigger after.volumes.contains_key(other)]
                other != channel ==> after.volumes.contains_key(other)
                    == s.volumes.contains_key(other) && volume_of(after.volumes, other)
                    == volume_of(s.volumes, other)
        }),
{
    assert(s.volumes.contains_key(channel) ==> VOLUME_MIN <= s.volumes[channel] <= VOLUME_MAX);
}

/// What happens in a session.
pub enum Happening {
    /// A step of the wheel while this channel is active.
    Step(VolumeEvent, Seq<char>),
    /// A report of the daemon.
    Report(Value),
}

/// The session after what happened.
pub open spec fn session_after(s: SessionView, history: Seq<Happening>) -> SessionView
    decreases history.len(),
{
    if history.len() == 0 {
        s
    } else {
        let before = session_after(s, history.drop_last());
        match history.last() {
            Happening::Step(event, channel) => event_taken(before, event, channel).0,
            Happening::Report(data) => data_taken(before, data),
        }
    }
}

/// The volume that the last patch for the channel tells, if one does.
pub open spec fn told_by(serial: Seq<char>, patches: Seq<Value>, channel: Seq<char>) -> Option<i32>
    decreases patches.len(),
{
    if patches.len() == 0 {
        None
    } else if tells(serial, patches.last(), channel) {
        Some(told_volume(patch_value(patches.last())->0))
    } else {
        told_by(serial, patches.drop_last(), channel)
    }
}

/// The volume last known of a channel, by the history alone: the last patch that tells it, or the
/// last step on it, which starts from what was known then; the status, or the fallback, where
/// nothing else speaks of it.
pub open spec fn last_known(s: SessionView, history: Seq<Happening>, channel: Seq<char>) -> int
    decreases history.len(),
{
    if history.len() == 0 {
        volume_of(s.volumes, channel) as int
    } else {
        let before = last_known(s, history.drop_last(), channel);
        match history.last() {
            Happening::Step(event, on) => if on == channel {
                stepped(before, event)
            } else {
                before
            },
            Happening::Report(data) => match told_by(s.serial, patches_of(data), channel) {
                Some(v) => v as int,
                None => before,
            },
        }
    }
}

/// Whatever happens in a session, what it knows of a channel is the volume last known of it, and
/// every known volume stays one that a fader can have.
pub proof fn session_knows_the_last_volume(
    s: SessionView,
    history: Seq<Happening>,
    channel: Seq<char>,
)
    requires
        volumes_valid(s.volumes),
    ensures
        session_after(s, history).serial == s.serial,
        volumes_valid(session_after(s, history).volumes),
        volume_of(session_after(s, history).volumes, channel) == last_known(s, history, channel),
    decreases history.len(),
{
    if history.len() > 0 {
        let early = history.drop_last();
        let before = session_after(s, early);
        session_knows_the_last_volume(s, early, channel);
        match history.last() {
            Happening::Step(event, on) => {
                step_sends_its_target_once(before, event, on);
                if on != channel {
                    let after = event_taken(before, event, on).0;
                    assert(after.volumes.contains_key(channel) == before.volumes.contains_key(
                        channel,
                    ));
                }
            },
            Happening::Report(data) => {
                reports_keep_volumes_valid(before.volumes, s.serial, patches_of(data));
                lemma_told(before.volumes, s.serial, patches_of(data), channel);
            },
        }
    }
}

/// Whatever happened before, a step sends the volume that is one step from the one last known,
/// and sends nothing where that is the same.
pub proof fn step_starts_from_the_last_known_volume(
    s: SessionView,
    history: Seq<Happening>,
    event: VolumeEvent,
    channel: Seq<char>,
)
    requires
        volumes_valid(s.volumes),
    ensures
        ({
            let before = session_after(s, history);
            let current = last_known(s, history, channel);
            let target = stepped(current, event);
            &&& VOLUME_MIN <= target <= VOLUME_MAX
            &&& event_taken(before, event, channel).1 == (if target != current {
                Some(request_text(before.next_id, set_volume_text(s.serial, channel, target)))
            } else {
                None
            })
            &&& last_known(s, history.push(Happening::Step(event, channel)), channel) == target
        }),
{
    session_knows_the_last_volume(s, history, channel);
    step_sends_its_target_once(session_after(s, history), event, channel);
    assert(history.push(Happening::Step(event, channel)).drop_last() =~= history);
}

/// What patches leave known of a channel.
proof fn lemma_told(
    volumes: Map<Seq<char>, i32>,
    serial: Seq<char>,
    patches: Seq<Value>,
    channel: Seq<char>,
)
    ensures
        volume_of(all_patched(volumes, serial, patches), channel) == (match told_by(
            serial,
            patches,
            channel,
        ) {
            Some(v) => v,
            None => volume_of(volumes, channel),
        }),
    decreases patches.len(),
{
    if patches.len() > 0 {
        let prefix = patch_prefix(serial);
        let path = prefix + channel;
        assert(path.take(prefix.len() as int) =~= prefix);
        assert(path.skip(prefix.len() as int) =~= channel);
        let before = patches.drop_last();
        lemma_told(volumes, serial, before, channel);
        if !tells(serial, patches.last(), channel) {
            lemma_patch_passes(
                all_patched(volumes, serial, before),
                serial,
                patches.last(),
                channel,
            );
        }
    }
}

// ---------------------------------------------------------------- what is sent and learnt

/// What the daemon and the wheel deal in: where the daemon listens, how long a pause lasts before
/// the next attempt, and what a channel counts as while nothing is known of it.
pub proof fn daemon_is_where_it_listens(volumes: Map<Seq<char>, i32>, channel: Seq<char>)
    ensures
        WS_URL@ == "ws://localhost:14564/api/websocket"@,
        RECONNECT_DELAY_MS == 3000,
        VOLUME_STEP == 5,
        VOLUME_MIN == 0,
        VOLUME_MAX == 255,
        volumes.contains_key(channel) ==> volume_of(volumes, channel) == volumes[channel],
        !volumes.contains_key(channel) ==> volume_of(volumes, channel) == 128,
        volumes_valid(volumes) <==> forall|c: Seq<char>| #[trigger]
            volumes.contains_key(c) ==> 0 <= volumes[c] <= 255,
{
}

/// A number from the daemon that a fader can have is the volume; a lower one counts as silence, a
/// higher one as full volume. Of a number beyond 32 bits the low 32 bits count.
pub proof fn told_numbers_become_volumes(v: i64, k: int)
    ensures
        0 <= v <= 255 ==> told_volume(v) == v,
        i32::MIN <= v < 0 ==> told_volume(v) == 0,
        255 < v <= i32::MAX ==> told_volume(v) == 255,
        i32::MIN <= v - k * 0x1_0000_0000 <= i32::MAX ==> told_volume(v) == (if v - k
            * 0x1_0000_0000 < 0 {
            0int
        } else if v - k * 0x1_0000_0000 > 255 {
            255int
        } else {
            v - k * 0x1_0000_0000
        }),
{
    if i32::MIN <= v - k * 0x1_0000_0000 <= i32::MAX {
        let r = v - k * 0x1_0000_0000;
        assert((v + 0x8000_0000) == k * 0x1_0000_0000 + (r + 0x8000_0000));
        vstd::arithmetic::div_mod::lemma_fundamental_div_mod_converse(
            v + 0x8000_0000,
            0x1_0000_0000,
            k,
            r + 0x8000_0000,
        );
    }
}

/// A step up adds five and a step down takes five away, as far as there is room.
pub proof fn a_step_is_five(volume: int)
    requires
        0 <= volume <= 255,
    ensures
        volume <= 250 ==> stepped(volume, VolumeEvent::Up) == volume + 5,
        volume >= 250 ==> stepped(volume, VolumeEvent::Up) == 255,
        volume >= 5 ==> stepped(volume, VolumeEvent::Down) == volume - 5,
        volume <= 5 ==> stepped(volume, VolumeEvent::Down) == 0,
{
}

/// A request is its identifier and its data in an envelope, and a command for a fader is the
/// mixer, the channel and the volume, each in its place.
pub proof fn request_holds_its_arguments(
    id: u64,
    serial: Seq<char>,
    channel: Seq<char>,
    volume: int,
)
    ensures
        request_text(id, set_volume_text(serial, channel, volume)) == "{\"id\":"@ + decimal(
            id as nat,
        ) + ",\"data\":{\"Command\":["@ + json_string(serial) + ",{\"SetVolume\":["@ + json_string(
            channel,
        ) + ","@ + signed_decimal(volume) + "]}]}}"@,
        request_text(id, json_string("GetStatus"@)) == "{\"id\":"@ + decimal(id as nat)
            + ",\"data\":\"GetStatus\"}"@,
{
    reveal_strlit("{\"id\":");
    reveal_strlit(",\"data\":");
    reveal_strlit("}");
    reveal_strlit("{\"Command\":[");
    reveal_strlit(",\"data\":{\"Command\":[");
    reveal_strlit("]}]}");
    reveal_strlit("]}]}}");
    reveal_strlit(",\"data\":\"GetStatus\"}");
    reveal_strlit("GetStatus");
    assert(request_text(id, set_volume_text(serial, channel, volume)) =~= "{\"id\":"@ + decimal(
        id as nat,
    ) + ",\"data\":{\"Command\":["@ + json_string(serial) + ",{\"SetVolume\":["@ + json_string(
        channel,
    ) + ","@ + signed_decimal(volume) + "]}]}}"@);
    crate::json::plain_text_is_quoted_as_it_is("GetStatus"@);
    assert(request_text(id, json_string("GetStatus"@)) =~= "{\"id\":"@ + decimal(id as nat)
        + ",\"data\":\"GetStatus\"}"@);
}

/// What a step of the wheel sends. Five are added to or taken from the volume that is known of the
/// channel, or 128 where none is, as far as there is room between 0 and 255. Where that changes
/// nothing, nothing is sent and nothing changes. Otherwise one command is sent: it begins with the
/// identifier of the request in decimal digits and ends with the mixer, the channel and the digits
/// of the new volume; the session knows that volume for the channel, and the rest as before.
pub proof fn step_sends_the_digits_of_its_target(
    s: SessionView,
    event: VolumeEvent,
    channel: Seq<char>,
)
    requires
        volumes_valid(s.volumes),
    ensures
        ({
            let current = if s.volumes.contains_key(channel) {
                s.volumes[channel] as int
            } else {
                128
            };
            let target = match event {
                VolumeEvent::Up => if current + 5 > 255 {
                    255
                } else {
                    current + 5
                },
                VolumeEvent::Down => if current - 5 < 0 {
                    0
                } else {
                    current - 5
                },
            };
            let (after, request) = event_taken(s, event, channel);
            let digits: Seq<char> = if target < 10 {
                seq![(48 + target) as char]
            } else if target < 100 {
                seq![(48 + target / 10) as char, (48 + target % 10) as char]
            } else {
                seq![
                    (48 + target / 100) as char,
                    (48 + target / 10 % 10) as char,
                    (48 + target % 10) as char,
                ]
            };
            let command = ",\"data\":{\"Command\":["@ + json_string(s.serial)
                + ",{\"SetVolume\":["@ + json_string(channel) + ","@ + digits + "]}]}}"@;
            &&& 0 <= target <= 255
            &&& target == current ==> request is None && after == s
            &&& target != current ==> {
                let text = request->0;
                let id = text.subrange(6, text.len() - command.len());
                &&& request is Some
                &&& text.len() > 6 + command.len()
                &&& text.take(6) == seq!['{', '"', 'i', 'd', '"', ':']
                &&& text.skip(text.len() - command.len()) == command
                &&& forall|i: int| 0 <= i < id.len() ==> '0' <= #[trigger] id[i] <= '9'
                &&& id.len() > 1 ==> id[0] != '0'
                &&& id.fold_left(0int, |acc: int, c: char| 10 * acc + (c as int - 48)) == s.next_id
                &&& after.volumes == s.volumes.insert(channel, target as i32)
                &&& after.serial == s.serial
                &&& after.next_id == (s.next_id + 1) % 0x1_0000_0000_0000_0000
            }
        }),
{
    let current = volume_of(s.volumes, channel) as int;
    assert(s.volumes.contains_key(channel) ==> 0 <= s.volumes[channel] <= 255);
    let target = stepped(current, event);
    let (after, request) = event_taken(s, event, channel);
    let digits: Seq<char> = if target < 10 {
        seq![(48 + target) as char]
    } else if target < 100 {
        seq![(48 + target / 10) as char, (48 + target % 10) as char]
    } else {
        seq![
            (48 + target / 100) as char,
            (48 + target / 10 % 10) as char,
            (48 + target % 10) as char,
        ]
    };
    lemma_digits_of_a_volume(target);
    assert(signed_decimal(target) == digits);
    if target != current {
        let text = request->0;
        let command = ",\"data\":{\"Command\":["@ + json_string(s.serial) + ",{\"SetVolume\":["@
            + json_string(channel) + ","@ + digits + "]}]}}"@;
        request_holds_its_arguments(s.next_id, s.serial, channel, target);
        reveal_strlit("{\"id\":");
        let d = decimal(s.next_id as nat);
        crate::text::decimal_writes_the_number(s.next_id as nat);
        assert(text =~= "{\"id\":"@ + d + command);
        assert(text.take(6) =~= seq!['{', '"', 'i', 'd', '"', ':']);
        assert(text.skip(text.len() - command.len()) =~= command);
        assert(text.subrange(6, text.len() - command.len()) =~= d);
    }
}

/// The digits of a volume, one by one.
proof fn lemma_digits_of_a_volume(v: int)
    requires
        0 <= v <= 255,
    ensures
        signed_decimal(v) == (if v < 10 {
            seq![(48 + v) as char]
        } else if v < 100 {
            seq![(48 + v / 10) as char, (48 + v % 10) as char]
        } else {
            seq![(48 + v / 100) as char, (48 + v / 10 % 10) as char, (48 + v % 10) as char]
        }),
{
    reveal_with_fuel(decimal, 4);
    if v >= 100 {
        assert(v / 10 / 10 == v / 100);
        assert(signed_decimal(v) =~= seq![
            (48 + v / 100) as char,
            (48 + v / 10 % 10) as char,
            (48 + v % 10) as char,
        ]);
    } else if v >= 10 {
        assert(signed_decimal(v) =~= seq![(48 + v / 10) as char, (48 + v % 10) as char]);
    }
}

/// Commands for different volumes differ.
pub proof fn commands_differ_by_volume(serial: Seq<char>, channel: Seq<char>, a: int, b: int)
    requires
        set_volume_text(serial, channel, a) == set_volume_text(serial, channel, b),
        a >= 0,
        b >= 0,
    ensures
        a == b,
{
    let head = "{\"Command\":["@ + json_string(serial) + ",{\"SetVolume\":["@ + json_string(channel)
        + ","@;
    let x = set_volume_text(serial, channel, a);
    let n = head.len() as int;
    let m = "]}]}"@.len() as int;
    assert(x.subrange(n, x.len() - m) =~= signed_decimal(a));
    assert(x.subrange(n, x.len() - m) =~= signed_decimal(b));
    crate::text::decimals_differ(a as nat, b as nat);
}

/// The mixers of a report are what stands under `Status`, `mixers`, if that is an object.
pub proof fn mixers_are_those_of_the_status(data: Value, mixers: Map<Seq<char>, Value>)
    ensures
        mixers_of(data) == Some(mixers) <==> {
            let status = json_object(data)->0["Status"@];
            &&& json_object(data) is Some
            &&& json_object(data)->0.contains_key("Status"@)
            &&& json_object(status) is Some
            &&& json_object(status)->0.contains_key("mixers"@)
            &&& json_object(json_object(status)->0["mixers"@]) == Some(mixers)
        },
{
}

/// The volumes read from a mixer's report are exactly the members of `levels`, `volumes` that are
/// whole numbers, each under its own name and as the volume that it is.
pub proof fn volumes_are_those_reported(mixer: Value, name: Seq<char>)
    ensures
        ({
            let levels = json_object(mixer)->0["levels"@];
            let told = json_object(json_object(levels)->0["volumes"@])->0;
            let tells = {
                &&& json_object(mixer) is Some
                &&& json_object(mixer)->0.contains_key("levels"@)
                &&& json_object(levels) is Some
                &&& json_object(levels)->0.contains_key("volumes"@)
                &&& json_object(json_object(levels)->0["volumes"@]) is Some
            };
            &&& volumes_of(mixer).contains_key(name) <==> tells && told.contains_key(name)
                && json_i64(told[name]) is Some
            &&& volumes_of(mixer).contains_key(name) ==> {
                let n = json_i64(told[name])->0;
                &&& 0 <= n <= 255 ==> volumes_of(mixer)[name] == n
                &&& i32::MIN <= n < 0 ==> volumes_of(mixer)[name] == 0
                &&& 255 < n <= i32::MAX ==> volumes_of(mixer)[name] == 255
                &&& volumes_of(mixer)[name] == told_volume(n)
            }
        }),
{
    let levels = json_object(mixer)->0["levels"@];
    let told = json_object(json_object(levels)->0["volumes"@])->0;
    told_numbers_become_volumes(json_i64(told[name])->0, 0);
}

/// What a report of the daemon teaches of a channel. Where an entry of its `Patch` array has the
/// channel's path and a whole number as its value, and no later entry has both, the channel is
/// known afterwards to have that number as its volume, held between 0 and 255.
pub proof fn report_teaches_the_volume(
    volumes: Map<Seq<char>, i32>,
    serial: Seq<char>,
    data: Value,
    list: Seq<Value>,
    k: int,
    channel: Seq<char>,
    n: i64,
)
    requires
        json_object(data) is Some,
        json_object(data)->0.contains_key("Patch"@),
        json_array(json_object(data)->0["Patch"@]) == Some(list),
        0 <= k < list.len(),
        json_object(list[k]) is Some,
        json_object(list[k])->0.contains_key("path"@),
        json_str(json_object(list[k])->0["path"@]) == Some(
            "/mixers/"@ + serial + "/levels/volumes/"@ + channel,
        ),
        json_object(list[k])->0.contains_key("value"@),
        json_i64(json_object(list[k])->0["value"@]) == Some(n),
        forall|j: int|
            k < j < list.len() ==> !{
                &&& json_object(#[trigger] list[j]) is Some
                &&& json_object(list[j])->0.contains_key("path"@)
                &&& json_str(json_object(list[j])->0["path"@]) == Some(
                    "/mixers/"@ + serial + "/levels/volumes/"@ + channel,
                )
                &&& json_object(list[j])->0.contains_key("value"@)
                &&& json_i64(json_object(list[j])->0["value"@]) is Some
            },
    ensures
        reported(volumes, serial, data).contains_key(channel),
        0 <= n <= 255 ==> reported(volumes, serial, data)[channel] == n,
        i32::MIN <= n < 0 ==> reported(volumes, serial, data)[channel] == 0,
        255 < n <= i32::MAX ==> reported(volumes, serial, data)[channel] == 255,
        reported(volumes, serial, data)[channel] == told_volume(n),
{
    told_numbers_become_volumes(n, 0);
    assert forall|j: int| k < j < list.len() implies !tells(serial, #[trigger] list[j], channel) by {
        lemma_tells(serial, list[j], channel);
    }
    last_report_wins(volumes, serial, list, channel, k);
}

/// A patch tells a volume where it has the path and a number.
proof fn lemma_tells(serial: Seq<char>, patch: Value, channel: Seq<char>)
    ensures
        tells(serial, patch, channel) <==> {
            &&& json_object(patch) is Some
            &&& json_object(patch)->0.contains_key("path"@)
            &&& json_str(json_object(patch)->0["path"@]) == Some(
                "/mixers/"@ + serial + "/levels/volumes/"@ + channel,
            )
            &&& json_object(patch)->0.contains_key("value"@)
            &&& json_i64(json_object(patch)->0["value"@]) is Some
        },
{
    reveal_strlit("");
    reveal_strlit("/mixers/");
    assert(patch_prefix(serial) + channel =~= "/mixers/"@ + serial + "/levels/volumes/"@ + channel);
    assert((patch_prefix(serial) + channel).len() > 0);
}

/// What a report of the daemon leaves alone. Where no entry of its `Patch` array has both the
/// channel's path and a whole number as its value, or there is no such array, what is known of
/// the channel stays.
pub proof fn report_leaves_other_channels(
    volumes: Map<Seq<char>, i32>,
    serial: Seq<char>,
    data: Value,
    channel: Seq<char>,
)
    requires
        json_object(data) is Some && json_object(data)->0.contains_key("Patch"@) && json_array(
            json_object(data)->0["Patch"@],
        ) is Some ==> forall|j: int|
            0 <= j < json_array(json_object(data)->0["Patch"@])->0.len() ==> !{
                let patch = #[trigger] json_array(json_object(data)->0["Patch"@])->0[j];
                &&& json_object(patch) is Some
                &&& json_object(patch)->0.contains_key("path"@)
                &&& json_str(json_object(patch)->0["path"@]) == Some(
                    "/mixers/"@ + serial + "/levels/volumes/"@ + channel,
                )
                &&& json_object(patch)->0.contains_key("value"@)
                &&& json_i64(json_object(patch)->0["value"@]) is Some
            },
    ensures
        reported(volumes, serial, data).contains_key(channel) == volumes.contains_key(channel),
        volumes.contains_key(channel) ==> reported(volumes, serial, data)[channel]
            == volumes[channel],
{
    let list = patches_of(data);
    assert forall|j: int| 0 <= j < list.len() implies !tells(serial, #[trigger] list[j], channel) by {
        lemma_tells(serial, list[j], channel);
        assert(list[j] == json_array(json_object(data)->0["Patch"@])->0[j]);
    }
    lemma_patches_pass(volumes, serial, list, channel);
}

/// Patches that tell nothing of the channel leave whether and what is known of it.
proof fn lemma_patches_pass(
    volumes: Map<Seq<char>, i32>,
    serial: Seq<char>,
    patches: Seq<Value>,
    channel: Seq<char>,
)
    requires
        forall|j: int| 0 <= j < patches.len() ==> !tells(serial, #[trigger] patches[j], channel),
    ensures
        all_patched(volumes, serial, patches).contains_key(channel) == volumes.contains_key(channel),
        volumes.contains_key(channel) ==> all_patched(volumes, serial, patches)[channel]
            == volumes[channel],
    decreases patches.len(),
{
    if patches.len() > 0 {
        let before = patches.drop_last();
        assert forall|j: int| 0 <= j < before.len() implies !tells(
            serial,
            #[trigger] before[j],
            channel,
        ) by {
            assert(before[j] == patches[j]);
        }
        lemma_patches_pass(volumes, serial, before, channel);
        lemma_patch_passes(
            all_patched(volumes, serial, before),
            serial,
            patches[patches.len() - 1],
            channel,
        );
    }
}

/// A patch with the path of a channel and a number sets that channel, to the number held between 0
/// and 255, and nothing else; one without a number, or with another path, sets nothing.
pub proof fn patch_sets_its_channel(
    volumes: Map<Seq<char>, i32>,
    serial: Seq<char>,
    channel: Seq<char>,
    path: Seq<char>,
    v: i64,
)
    ensures
        ({
            let start = "/mixers/"@ + serial + "/levels/volumes/"@;
            let after = patched(volumes, serial, start + channel, Some(v));
            &&& after.dom() == volumes.dom().insert(channel)
            &&& after.remove(channel) == volumes.remove(channel)
            &&& 0 <= v <= 255 ==> after[channel] == v
            &&& i32::MIN <= v < 0 ==> after[channel] == 0
            &&& 255 < v <= i32::MAX ==> after[channel] == 255
            &&& after[channel] == told_volume(v)
            &&& patched(volumes, serial, path, None) == volumes
            &&& !start.is_prefix_of(path) ==> patched(volumes, serial, path, Some(v)) == volumes
        }),
{
    let start = "/mixers/"@ + serial + "/levels/volumes/"@;
    let whole = start + channel;
    assert(patch_prefix(serial) =~= start);
    assert(whole.take(start.len() as int) =~= start);
    assert(whole.skip(start.len() as int) =~= channel);
    told_numbers_become_volumes(v, 0);
    let after = patched(volumes, serial, whole, Some(v));
    assert(after.dom() =~= volumes.dom().insert(channel));
    assert(after.remove(channel) =~= volumes.remove(channel));
    if starts_with(path, start) {
        assert(path.subrange(0, start.len() as int) =~= path.take(start.len() as int));
        assert(start.is_prefix_of(path));
    }
}

/// A report changes what is known of the volumes and nothing else.
pub proof fn report_touches_volumes_alone(s: SessionView, data: Value)
    ensures
        data_taken(s, data).serial == s.serial,
        data_taken(s, data).next_id == s.next_id,
        data_taken(s, data).volumes == reported(s.volumes, s.serial, data),
{
}

/// The view of a session is what its fields hold, and it is valid where every volume is one that a
/// fader can have; a connection is valid where its session, if it has one, is.
pub proof fn session_is_seen_as_it_is(s: Session, c: Client)
    ensures
        s@.serial == s.serial@,
        s@.volumes == s.volumes@,
        s@.next_id == s.next_id,
        s.valid() <==> forall|name: Seq<char>| #[trigger]
            s.volumes@.contains_key(name) ==> 0 <= s.volumes@[name] <= 255,
        c.session is None ==> c.valid(),
        c.session is Some ==> (c.valid() <==> c.session->0.valid()),
{
}

} // verus!
