//! Which channels are visible, in what order, and how the selection moves among them.

use crate::config::{
    channel_count, channel_index, channel_name, channels, default_config, index_of_channel,
    is_visible, name_of_channel, Config, ConfigView, ALL_CHANNELS,
};
use crate::text::{find_name, position, same, str_views, views};
use vstd::prelude::*;

verus! {

// ---------------------------------------------------------------- inserting

/// The place of the first listed channel that comes after place `rank` among all channels, or
/// the end of the list.
pub open spec fn first_after(list: Seq<Seq<char>>, rank: int) -> int
    decreases list.len(),
{
    if list.len() == 0 {
        0
    } else if index_of_channel(list[0]) > rank {
        0
    } else {
        1 + first_after(list.drop_first(), rank)
    }
}

/// The list with `name` put before the first channel that comes after it.
pub open spec fn inserted(list: Seq<Seq<char>>, name: Seq<char>) -> Seq<Seq<char>> {
    list.insert(first_after(list, index_of_channel(name)), name)
}

/// Where [`first_after`] is: everything before it ranks no higher, it itself ranks higher.
pub proof fn lemma_first_after(list: Seq<Seq<char>>, rank: int)
    ensures
        0 <= first_after(list, rank) <= list.len(),
        forall|k: int|
            0 <= k < first_after(list, rank) ==> index_of_channel(#[trigger] list[k]) <= rank,
        first_after(list, rank) < list.len() ==> index_of_channel(list[first_after(list, rank)])
            > rank,
    decreases list.len(),
{
    if list.len() > 0 && index_of_channel(list[0]) <= rank {
        let rest = list.drop_first();
        lemma_first_after(rest, rank);
        assert forall|k: int| 0 <= k < first_after(list, rank) implies index_of_channel(
            #[trigger] list[k],
        ) <= rank by {
            if k > 0 {
                assert(rest[k - 1] == list[k]);
            }
        }
    }
}

/// The place described by [`lemma_first_after`] is the only such place.
proof fn lemma_first_after_is(list: Seq<Seq<char>>, rank: int, i: int)
    requires
        0 <= i <= list.len(),
        forall|k: int| 0 <= k < i ==> index_of_channel(#[trigger] list[k]) <= rank,
        i < list.len() ==> index_of_channel(list[i]) > rank,
    ensures
        first_after(list, rank) == i,
{
    lemma_first_after(list, rank);
    let f = first_after(list, rank);
    if f < i {
        assert(index_of_channel(list[f]) <= rank);
    }
    if i < f {
        assert(index_of_channel(list[i]) <= rank);
    }
}

/// Inserts `name` among the visible channels, before the first that comes after it in
/// [`ALL_CHANNELS`].
pub fn insert_visible_canonical(visible: &mut Vec<String>, name: &str)
    ensures
        views(final(visible)@) == inserted(views(old(visible)@), name@),
{
    let ghost list = views(visible@);
    let rank = channel_index(name);
    let mut i: usize = 0;
    while i < visible.len()
        invariant_except_break
            i <= visible@.len(),
            list == views(visible@),
            forall|k: int| 0 <= k < i ==> index_of_channel(#[trigger] list[k]) <= rank,
        ensures
            i <= visible@.len(),
            forall|k: int| 0 <= k < i ==> index_of_channel(#[trigger] list[k]) <= rank,
            i < visible@.len() ==> index_of_channel(list[i as int]) > rank,
        decreases visible.len() - i,
    {
        assert(list[i as int] == visible@[i as int]@);
        if channel_index(visible[i].as_str()) > rank {
            break;
        }
        i = i + 1;
    }
    proof {
        lemma_first_after_is(list, rank as int, i as int);
    }
    visible.insert(i, name.to_owned());
    assert(views(visible@) =~= list.insert(i as int, name@));
}

// ---------------------------------------------------------------- removing

/// The list without `name`.
pub open spec fn without(list: Seq<Seq<char>>, name: Seq<char>) -> Seq<Seq<char>> {
    list.filter(|c: Seq<char>| c != name)
}

/// The visible channels without `name`.
pub fn remove_visible(visible: &Vec<String>, name: &str) -> (r: Vec<String>)
    ensures
        views(r@) == without(views(visible@), name@),
{
    let ghost list = views(visible@);
    let ghost keep = |c: Seq<char>| c != name@;
    let mut r: Vec<String> = Vec::new();
    proof {
        reveal(Seq::filter);
        assert(list.take(0) =~= Seq::<Seq<char>>::empty());
    }
    assert(views(r@) =~= list.take(0).filter(keep));
    for i in 0..visible.len()
        invariant
            list == views(visible@),
            keep == (|c: Seq<char>| c != name@),
            views(r@) == list.take(i as int).filter(keep),
    {
        let ghost next = list.take(i + 1);
        proof {
            reveal(Seq::filter);
            assert(next.drop_last() =~= list.take(i as int));
            assert(next.last() == visible@[i as int]@);
        }
        if !same(visible[i].as_str(), name) {
            let ghost before = r@;
            r.push(visible[i].clone());
            assert(views(r@) =~= views(before).push(visible@[i as int]@));
        }
        assert(views(r@) =~= next.filter(keep));
    }
    assert(list.take(visible@.len() as int) =~= list);
    r
}

// ---------------------------------------------------------------- edits

/// What the user changes in the configuration.
#[derive(Debug, PartialEq, Eq)]
pub enum ConfigEdit {
    /// Make this channel the one selected at startup.
    Favorite(usize),
    /// Show the channel, or hide it.
    ToggleVisible(usize),
    /// Record this cycle hotkey.
    Hotkey(String),
}

impl ConfigEdit {
    /// Whether the edit speaks of a channel that there is.
    pub open spec fn valid(self) -> bool {
        match self {
            ConfigEdit::Favorite(i) => i < channel_count(),
            ConfigEdit::ToggleVisible(i) => i < channel_count(),
            ConfigEdit::Hotkey(_) => true,
        }
    }
}

/// The configuration with channel `i` selected at startup. The startup channel must be visible,
/// otherwise the app would launch into a fader the user chose to hide.
pub open spec fn favored(c: ConfigView, i: int) -> ConfigView {
    let name = channels()[i];
    ConfigView {
        default_channel: name,
        visible: if c.visible.contains(name) {
            c.visible
        } else {
            inserted(c.visible, name)
        },
        ..c
    }
}

/// The configuration with channel `i` shown where it was hidden, and hidden where it was shown.
/// The only visible channel stays; where the startup channel is hidden, the first that remains
/// takes its place.
pub open spec fn toggled(c: ConfigView, i: int) -> ConfigView {
    let name = channels()[i];
    if !c.visible.contains(name) {
        ConfigView { visible: inserted(c.visible, name), ..c }
    } else if c.visible.len() <= 1 {
        c
    } else {
        let rest = without(c.visible, name);
        ConfigView {
            visible: rest,
            default_channel: if c.default_channel == name && rest.len() > 0 {
                rest[0]
            } else {
                c.default_channel
            },
            ..c
        }
    }
}

/// Whether the toggle of channel `i` is refused, because it would hide the only visible one.
pub open spec fn toggle_refused(c: ConfigView, i: int) -> bool {
    c.visible.contains(channels()[i]) && c.visible.len() <= 1
}

/// The configuration after an edit.
pub open spec fn edited(c: ConfigView, edit: ConfigEdit) -> ConfigView {
    match edit {
        ConfigEdit::Favorite(i) => favored(c, i as int),
        ConfigEdit::ToggleVisible(i) => toggled(c, i as int),
        ConfigEdit::Hotkey(spec) => ConfigView { cycle_hotkey: Some(spec@), ..c },
    }
}

/// Whether an edit is followed by a save.
pub open spec fn edit_saves(c: ConfigView, edit: ConfigEdit) -> bool {
    match edit {
        ConfigEdit::ToggleVisible(i) => !toggle_refused(c, i as int),
        _ => true,
    }
}

/// Applies an edit; the result tells whether the configuration is to be saved.
pub fn apply_edit(config: &mut Config, edit: ConfigEdit) -> (save: bool)
    requires
        edit.valid(),
    ensures
        final(config)@ == edited(old(config)@, edit),
        save == edit_saves(old(config)@, edit),
{
    match edit {
        ConfigEdit::Favorite(i) => {
            set_favorite(config, i);
            true
        },
        ConfigEdit::ToggleVisible(i) => toggle_visible(config, i),
        ConfigEdit::Hotkey(spec) => {
            config.cycle_hotkey = Some(spec);
            true
        },
    }
}

/// Makes channel `i` the one selected at startup.
pub fn set_favorite(config: &mut Config, i: usize)
    requires
        i < channel_count(),
    ensures
        final(config)@ == favored(old(config)@, i as int),
{
    let name = channel_name(i);
    if !is_visible(&config.visible_channels, name) {
        insert_visible_canonical(&mut config.visible_channels, name);
    }
    config.default_channel = name.to_owned();
}

/// Shows or hides channel `i`; false where it is the only visible one and stays.
pub fn toggle_visible(config: &mut Config, i: usize) -> (changed: bool)
    requires
        i < channel_count(),
    ensures
        final(config)@ == toggled(old(config)@, i as int),
        changed == !toggle_refused(old(config)@, i as int),
{
    let name = channel_name(i);
    if is_visible(&config.visible_channels, name) {
        if config.visible_channels.len() <= 1 {
            return false;
        }
        config.visible_channels = remove_visible(&config.visible_channels, name);
        if same(config.default_channel.as_str(), name) {
            if config.visible_channels.len() > 0 {
                assert(views(config.visible_channels@)[0] == config.visible_channels@[0]@);
                config.default_channel = config.visible_channels[0].clone();
            }
        }
    } else {
        insert_visible_canonical(&mut config.visible_channels, name);
    }
    true
}

// ---------------------------------------------------------------- listing

/// The visible channels in the order of all channels.
pub open spec fn listed(visible: Seq<Seq<char>>) -> Seq<Seq<char>> {
    channels().filter(|c: Seq<char>| visible.contains(c))
}

/// The channels that the tray menu lists: those that are visible, in the order of
/// [`ALL_CHANNELS`].
pub fn visible_channels(visible: &Vec<String>) -> (r: Vec<&'static str>)
    ensures
        str_views(r@) == listed(views(visible@)),
{
    let ghost keep = |c: Seq<char>| views(visible@).contains(c);
    let ghost all = channels();
    let mut r: Vec<&'static str> = Vec::new();
    proof {
        crate::config::lemma_channel_count();
        reveal(Seq::filter);
        assert(all.take(0) =~= Seq::<Seq<char>>::empty());
    }
    assert(str_views(r@) =~= all.take(0).filter(keep));
    for i in 0..11usize
        invariant
            all == channels(),
            all.len() == 11,
            forall|k: int| 0 <= k < 11 ==> #[trigger] all[k] == ALL_CHANNELS@[k]@,
            keep == (|c: Seq<char>| views(visible@).contains(c)),
            str_views(r@) == all.take(i as int).filter(keep),
    {
        let ghost next = all.take(i + 1);
        proof {
            reveal(Seq::filter);
            assert(next.drop_last() =~= all.take(i as int));
            assert(next.last() == all[i as int]);
        }
        let name = ALL_CHANNELS[i];
        assert(all[i as int] == name@);
        if is_visible(visible, name) {
            let ghost before = r@;
            r.push(name);
            assert(str_views(r@) =~= str_views(before).push(name@));
        }
        assert(str_views(r@) =~= next.filter(keep));
    }
    assert(all.take(11) =~= all);
    r
}

// ---------------------------------------------------------------- cycling

/// The visible channel that follows the one at `idx`, at the end the first; the first also where
/// the one at `idx` is not visible; none where no channel is visible.
pub open spec fn next_channel(visible: Seq<Seq<char>>, idx: int) -> Option<int> {
    if visible.len() == 0 {
        None
    } else {
        let place = match position(visible, name_of_channel(idx)) {
            Some(i) => (i + 1) % visible.len() as int,
            None => 0,
        };
        Some(index_of_channel(visible[place]))
    }
}

/// Computes the next visible channel after the current active one, wrapping at the end. Returns
/// `None` if no channel is visible.
pub fn cycle_next(active: usize, visible: &Vec<String>) -> (r: Option<usize>)
    ensures
        match r {
            Some(i) => next_channel(views(visible@), active as int) == Some(i as int) && i
                < channel_count(),
            None => next_channel(views(visible@), active as int) is None,
        },
{
    let ghost list = views(visible@);
    if visible.len() == 0 {
        return None;
    }
    let current = channel_name(active);
    proof {
        crate::text::lemma_position(list, current@);
    }
    let place: usize = match find_name(visible, current) {
        Some(i) => (i + 1) % visible.len(),
        None => 0,
    };
    assert(list[place as int] == visible@[place as int]@);
    Some(channel_index(visible[place].as_str()))
}

// ---------------------------------------------------------------- laws

/// Whether every name is the name of a channel.
pub open spec fn all_known(list: Seq<Seq<char>>) -> bool {
    forall|i: int| 0 <= i < list.len() ==> channels().contains(#[trigger] list[i])
}

/// Known channels, each once, in the order of all channels.
pub open spec fn canonical(list: Seq<Seq<char>>) -> bool {
    &&& all_known(list)
    &&& forall|i: int, j: int|
        0 <= i < j < list.len() ==> index_of_channel(#[trigger] list[i]) < index_of_channel(
            #[trigger] list[j],
        )
}

/// A configuration in which something is visible, in canonical order, and the startup channel is
/// among it.
pub open spec fn sound(c: ConfigView) -> bool {
    &&& canonical(c.visible)
    &&& c.visible.len() > 0
    &&& c.visible.contains(c.default_channel)
}

/// The defaults are sound.
pub proof fn default_is_sound()
    ensures
        sound(default_config()),
{
    crate::config::lemma_channel_count();
    let all = channels();
    assert forall|i: int, j: int| 0 <= i < j < all.len() implies index_of_channel(
        #[trigger] all[i],
    ) < index_of_channel(#[trigger] all[j]) by {
        crate::config::name_gives_index_back(i);
        crate::config::name_gives_index_back(j);
    }
    assert(all[4] == "Game"@);
    assert(all.contains("Game"@));
}

/// Whatever the user edits, a sound configuration stays sound: something remains visible, the
/// order is kept, and the startup channel is never a hidden one.
pub proof fn edits_keep_sound(c: ConfigView, edit: ConfigEdit)
    requires
        sound(c),
        edit.valid(),
    ensures
        sound(edited(c, edit)),
{
    crate::config::lemma_channel_count();
    match edit {
        ConfigEdit::Favorite(i) => {
            let name = channels()[i as int];
            if !c.visible.contains(name) {
                insertion_keeps_the_order(c.visible, name);
            }
        },
        ConfigEdit::ToggleVisible(i) => {
            let name = channels()[i as int];
            if !c.visible.contains(name) {
                insertion_keeps_the_order(c.visible, name);
                let f = first_after(c.visible, index_of_channel(name));
                lemma_first_after(c.visible, index_of_channel(name));
                let k = choose|k: int| 0 <= k < c.visible.len() && c.visible[k]
                    == c.default_channel;
                let more = inserted(c.visible, name);
                assert(more[if k < f { k } else { k + 1 }] == c.default_channel);
            } else if c.visible.len() > 1 {
                let k = choose|k: int| 0 <= k < c.visible.len() && c.visible[k] == name;
                lemma_without_canonical(c.visible, name, k);
                let rest = without(c.visible, name);
                if c.default_channel == name {
                    assert(rest.contains(rest[0]));
                } else {
                    let d = choose|d: int| 0 <= d < c.visible.len() && c.visible[d]
                        == c.default_channel;
                    assert(rest[if d < k { d } else { d - 1 }] == c.default_channel);
                }
            }
        },
        ConfigEdit::Hotkey(_) => {},
    }
}

/// After a channel is chosen for startup it is visible, in whatever state the configuration was.
pub proof fn favorite_is_visible(c: ConfigView, i: int)
    requires
        0 <= i < channel_count(),
    ensures
        favored(c, i).visible.contains(favored(c, i).default_channel),
{
    let name = channels()[i];
    lemma_first_after(c.visible, index_of_channel(name));
    if !c.visible.contains(name) {
        assert(inserted(c.visible, name)[first_after(c.visible, index_of_channel(name))] == name);
    }
}

/// Toggling a channel twice brings the visible channels back, unless it was refused.
pub proof fn toggle_twice(c: ConfigView, i: int)
    requires
        canonical(c.visible),
        c.visible.len() > 0,
        0 <= i < channel_count(),
        !toggle_refused(c, i),
    ensures
        toggled(toggled(c, i), i).visible == c.visible,
{
    crate::config::lemma_channel_count();
    let name = channels()[i];
    let rank = index_of_channel(name);
    let list = c.visible;
    if list.contains(name) {
        let k = choose|k: int| 0 <= k < list.len() && list[k] == name;
        lemma_without_canonical(list, name, k);
        let rest = without(list, name);
        if rest.contains(name) {
            let j = choose|j: int| 0 <= j < rest.len() && rest[j] == name;
            assert(list[if j < k { j } else { j + 1 }] == name);
        }
        lemma_first_after_is(rest, rank, k);
        assert(rest.insert(k, name) =~= list);
    } else {
        insertion_keeps_the_order(list, name);
        lemma_first_after(list, rank);
        let f = first_after(list, rank);
        let more = inserted(list, name);
        assert(more[f] == name);
        lemma_without_canonical(more, name, f);
        assert(more.remove(f) =~= list);
    }
}

/// Inserting a name adds it once and touches nothing else: the list holds what it held, in the
/// same order, and the name. The name stands before the first that comes after it among all
/// channels, or at the end where none does.
pub proof fn insertion_adds_the_name_alone(list: Seq<Seq<char>>, name: Seq<char>)
    ensures
        ({
            let place = first_after(list, index_of_channel(name));
            let more = inserted(list, name);
            &&& 0 <= place <= list.len()
            &&& more.len() == list.len() + 1
            &&& more[place] == name
            &&& more.remove(place) == list
            &&& forall|k: int|
                0 <= k < place ==> index_of_channel(#[trigger] list[k]) <= index_of_channel(name)
            &&& place < list.len() ==> index_of_channel(list[place]) > index_of_channel(name)
            &&& forall|x: Seq<char>| #[trigger]
                more.contains(x) <==> list.contains(x) || x == name
        }),
{
    lemma_first_after(list, index_of_channel(name));
    let place = first_after(list, index_of_channel(name));
    let more = inserted(list, name);
    assert(more.remove(place) =~= list);
    assert forall|x: Seq<char>| #[trigger] more.contains(x) <==> list.contains(x) || x == name by {
        if list.contains(x) {
            let k = choose|k: int| 0 <= k < list.len() && list[k] == x;
            assert(more[if k < place { k } else { k + 1 }] == x);
        }
        if x == name {
            assert(more[place] == x);
        }
        if more.contains(x) && x != name {
            let k = choose|k: int| 0 <= k < more.len() && more[k] == x;
            assert(list[if k < place { k } else { k - 1 }] == x);
        }
    }
}

/// Inserting a known channel that is not listed keeps the order: the list holds what it held and
/// the channel, nothing else, each once and in the order of all channels.
pub proof fn insertion_keeps_the_order(list: Seq<Seq<char>>, name: Seq<char>)
    requires
        canonical(list),
        channels().contains(name),
        !list.contains(name),
    ensures
        canonical(inserted(list, name)),
        inserted(list, name).len() == list.len() + 1,
        forall|x: Seq<char>| #[trigger]
            inserted(list, name).contains(x) <==> list.contains(x) || x == name,
{
    insertion_adds_the_name_alone(list, name);
    let rank = index_of_channel(name);
    lemma_first_after(list, rank);
    let f = first_after(list, rank);
    let more = inserted(list, name);
    assert(more[f] == name);
    crate::config::index_gives_name_back(name);
    assert forall|k: int| 0 <= k < f implies index_of_channel(#[trigger] list[k]) < rank by {
        crate::config::index_gives_name_back(list[k]);
        assert(list.contains(list[k]));
    }
    assert forall|k: int| f <= k < list.len() implies index_of_channel(#[trigger] list[k])
        > rank by {
        if k > f {
            assert(index_of_channel(list[f]) < index_of_channel(list[k]));
        }
    }
    assert forall|i: int| 0 <= i < more.len() implies channels().contains(#[trigger] more[i]) by {
        if i < f {
            assert(more[i] == list[i]);
        } else if i > f {
            assert(more[i] == list[i - 1]);
        }
    }
    assert forall|i: int, j: int| 0 <= i < j < more.len() implies index_of_channel(
        #[trigger] more[i],
    ) < index_of_channel(#[trigger] more[j]) by {
        if i < f {
            assert(more[i] == list[i]);
        } else if i > f {
            assert(more[i] == list[i - 1]);
        }
        if j < f {
            assert(more[j] == list[j]);
        } else if j > f {
            assert(more[j] == list[j - 1]);
        }
    }
}

/// The tray menu lists exactly the visible channels, in their order.
pub proof fn menu_lists_visible(list: Seq<Seq<char>>)
    requires
        canonical(list),
    ensures
        listed(list) == list,
{
    crate::config::lemma_channel_count();
    lemma_listed_prefix(list, 11);
    lemma_first_after(list, 10);
    if first_after(list, 10) < list.len() {
        crate::config::index_gives_name_back(list[first_after(list, 10)]);
    }
    assert(channels().take(11) =~= channels());
    assert(list.take(list.len() as int) =~= list);
}

/// The channel that [`next_channel`] gives `n` times in a row, starting from `idx`.
pub open spec fn cycled(visible: Seq<Seq<char>>, idx: int, n: nat) -> Option<int>
    decreases n,
{
    if n == 0 {
        Some(idx)
    } else {
        match cycled(visible, idx, (n - 1) as nat) {
            Some(i) => next_channel(visible, i),
            None => None,
        }
    }
}

/// Cycling steps through the visible channels in their order and starts over at the end, so as
/// many steps as there are visible channels come back to the first.
pub proof fn cycle_visits_in_order(list: Seq<Seq<char>>, k: int, n: nat)
    requires
        all_known(list),
        list.no_duplicates(),
        0 <= k < list.len(),
    ensures
        cycled(list, index_of_channel(list[k]), n) == Some(
            index_of_channel(list[(k + n) % (list.len() as int)]),
        ),
    decreases n,
{
    let len = list.len() as int;
    if n == 0 {
        vstd::arithmetic::div_mod::lemma_small_mod(k as nat, len as nat);
    } else {
        cycle_visits_in_order(list, k, (n - 1) as nat);
        let j = (k + n - 1) % len;
        vstd::arithmetic::div_mod::lemma_mod_bound(k + n - 1, len);
        crate::config::index_gives_name_back(list[j]);
        crate::text::lemma_position_is(list, list[j], j);
        vstd::arithmetic::div_mod::lemma_add_mod_noop(k + n - 1, 1, len);
        if len > 1 {
            vstd::arithmetic::div_mod::lemma_small_mod(1, len as nat);
            assert((j + 1) % len == (k + n) % len);
        } else {
            assert((j + 1) % len == 0);
            assert((k + n) % len == 0);
        }
    }
}

/// Cycling from a hidden channel goes to the first visible one.
pub proof fn cycle_from_hidden(visible: Seq<Seq<char>>, idx: int)
    requires
        visible.len() > 0,
        !visible.contains(name_of_channel(idx)),
    ensures
        next_channel(visible, idx) == Some(index_of_channel(visible[0])),
{
    crate::text::lemma_position(visible, name_of_channel(idx));
}

/// Cycling only ever selects what a visible name stands for. That is a visible channel where
/// every visible name is known, or where the first channel, for which an unknown name stands, is
/// itself visible.
pub proof fn cycle_selects_visible(list: Seq<Seq<char>>, idx: int)
    requires
        list.len() > 0,
    ensures
        next_channel(list, idx) is Some,
        exists|k: int|
            0 <= k < list.len() && next_channel(list, idx)->0 == index_of_channel(
                #[trigger] list[k],
            ),
        all_known(list) || list.contains(channels()[0]) ==> list.contains(
            name_of_channel(next_channel(list, idx)->0),
        ),
{
    crate::text::lemma_position(list, name_of_channel(idx));
    let place = match position(list, name_of_channel(idx)) {
        Some(i) => (i + 1) % list.len() as int,
        None => 0,
    };
    vstd::arithmetic::div_mod::lemma_mod_bound(0, list.len() as int);
    if position(list, name_of_channel(idx)) is Some {
        vstd::arithmetic::div_mod::lemma_mod_bound(
            position(list, name_of_channel(idx))->0 + 1,
            list.len() as int,
        );
    }
    assert(list.contains(list[place]));
    crate::config::lemma_channel_count();
    if channels().contains(list[place]) {
        crate::config::index_gives_name_back(list[place]);
    } else {
        crate::text::lemma_position(channels(), list[place]);
        if position(channels(), list[place]) is Some {
            assert(channels().contains(channels()[position(channels(), list[place])->0]));
        }
    }
}

/// Starring a channel makes it the startup channel and touches nothing else: the hotkey stays, and
/// the visible channels stay as they are where it is among them, and otherwise get it in addition,
/// before the first that comes after it among all channels, or at the end.
pub proof fn starring_chooses_that_channel(c: ConfigView, i: usize)
    requires
        i < 11,
    ensures
        ({
            let after = edited(c, ConfigEdit::Favorite(i));
            let name = channels()[i as int];
            &&& after.default_channel == name
            &&& after.cycle_hotkey == c.cycle_hotkey
            &&& c.visible.contains(name) ==> after.visible == c.visible
            &&& !c.visible.contains(name) ==> exists|k: int|
                0 <= k < after.visible.len() && after.visible[k] == name && #[trigger]
                    after.visible.remove(k) == c.visible && (forall|j: int|
                    0 <= j < k ==> index_of_channel(#[trigger] c.visible[j]) <= i) && (k
                    < c.visible.len() ==> index_of_channel(c.visible[k]) > i)
            &&& forall|x: Seq<char>| #[trigger]
                after.visible.contains(x) <==> c.visible.contains(x) || x == name
        }),
{
    let name = channels()[i as int];
    let after = edited(c, ConfigEdit::Favorite(i));
    insertion_adds_the_name_alone(c.visible, name);
    crate::config::name_gives_index_back(i as int);
    if !c.visible.contains(name) {
        let k = first_after(c.visible, index_of_channel(name));
        assert(after.visible == inserted(c.visible, name));
        assert(after.visible.remove(k) == c.visible);
    } else {
        assert(after.visible == c.visible);
    }
}

/// Toggling a hidden channel shows it, and with it what was shown before, nothing else; it stands
/// before the first that comes after it among all channels, or at the end. The startup channel and
/// the hotkey stay.
pub proof fn toggling_shows_a_hidden_channel(c: ConfigView, i: usize)
    requires
        i < 11,
        !c.visible.contains(channels()[i as int]),
    ensures
        ({
            let after = edited(c, ConfigEdit::ToggleVisible(i));
            let name = channels()[i as int];
            &&& exists|k: int|
                0 <= k < after.visible.len() && after.visible[k] == name && #[trigger]
                    after.visible.remove(k) == c.visible && (forall|j: int|
                    0 <= j < k ==> index_of_channel(#[trigger] c.visible[j]) <= i) && (k
                    < c.visible.len() ==> index_of_channel(c.visible[k]) > i)
            &&& forall|x: Seq<char>| #[trigger]
                after.visible.contains(x) <==> c.visible.contains(x) || x == name
            &&& after.default_channel == c.default_channel
            &&& after.cycle_hotkey == c.cycle_hotkey
            &&& edit_saves(c, ConfigEdit::ToggleVisible(i))
        }),
{
    let name = channels()[i as int];
    let after = edited(c, ConfigEdit::ToggleVisible(i));
    insertion_adds_the_name_alone(c.visible, name);
    crate::config::name_gives_index_back(i as int);
    assert(after.visible == inserted(c.visible, name));
    assert(after.visible.remove(first_after(c.visible, index_of_channel(name))) == c.visible);
}

/// Toggling a shown channel hides it and keeps the others in their order, unless it is the only
/// one: then nothing changes and nothing is saved. The startup channel stays, unless it is the one
/// that is hidden: then the first that is still shown takes its place.
pub proof fn toggling_hides_a_shown_channel(c: ConfigView, i: usize)
    requires
        i < 11,
        c.visible.contains(channels()[i as int]),
    ensures
        ({
            let after = edited(c, ConfigEdit::ToggleVisible(i));
            let name = channels()[i as int];
            &&& after.cycle_hotkey == c.cycle_hotkey
            &&& c.visible.len() == 1 ==> after == c && !edit_saves(c, ConfigEdit::ToggleVisible(i))
            &&& c.visible.len() > 1 ==> {
                &&& edit_saves(c, ConfigEdit::ToggleVisible(i))
                &&& after.visible == c.visible.filter(|x: Seq<char>| x != name)
                &&& forall|x: Seq<char>| #[trigger]
                    after.visible.contains(x) <==> c.visible.contains(x) && x != name
                &&& c.default_channel != name ==> after.default_channel == c.default_channel
                &&& c.default_channel == name && after.visible.len() > 0 ==> after.default_channel
                    == after.visible[0]
                &&& c.default_channel == name && after.visible.len() == 0
                    ==> after.default_channel == name
                &&& forall|k: int|
                    0 <= k < c.visible.len() && c.visible[k] == name && (forall|j: int|
                        0 <= j < c.visible.len() && j != k ==> c.visible[j] != name)
                        ==> after.visible == #[trigger] c.visible.remove(k)
            }
        }),
{
    let name = channels()[i as int];
    let rest = without(c.visible, name);
    let keep = |x: Seq<char>| x != name;
    lemma_without_is_filter(c.visible, name, keep);
    assert forall|x: Seq<char>| #[trigger] rest.contains(x) <==> c.visible.contains(x) && x
        != name by {
        lemma_without_contains(c.visible, name, x);
    }
    assert forall|k: int|
        0 <= k < c.visible.len() && c.visible[k] == name && (forall|j: int|
            0 <= j < c.visible.len() && j != k ==> c.visible[j] != name) implies rest
        == #[trigger] c.visible.remove(k) by {
        lemma_without_once(c.visible, name, k);
    }
}

/// Taking a name out keeps whatever is another name.
proof fn lemma_without_is_filter(
    list: Seq<Seq<char>>,
    name: Seq<char>,
    keep: spec_fn(Seq<char>) -> bool,
)
    requires
        forall|x: Seq<char>| #[trigger] keep(x) == (x != name),
    ensures
        without(list, name) == list.filter(keep),
    decreases list.len(),
{
    reveal(Seq::filter);
    if list.len() > 0 {
        lemma_without_is_filter(list.drop_last(), name, keep);
        assert(keep(list.last()) == (list.last() != name));
    }
}

/// What is left of a list without a name.
proof fn lemma_without_contains(list: Seq<Seq<char>>, name: Seq<char>, x: Seq<char>)
    ensures
        without(list, name).contains(x) <==> list.contains(x) && x != name,
    decreases list.len(),
{
    reveal(Seq::filter);
    if list.len() > 0 {
        let early = list.drop_last();
        let rest = without(early, name);
        lemma_without_contains(early, name, x);
        if list.contains(x) {
            let k = choose|k: int| 0 <= k < list.len() && list[k] == x;
            if k < early.len() {
                assert(early[k] == x);
            }
        }
        if early.contains(x) {
            let k = choose|k: int| 0 <= k < early.len() && early[k] == x;
            assert(list[k] == x);
        }
        if list.last() != name {
            let more = rest.push(list.last());
            assert(without(list, name) == more);
            if rest.contains(x) {
                let k = choose|k: int| 0 <= k < rest.len() && rest[k] == x;
                assert(more[k] == x);
            }
            if x == list.last() {
                assert(more[rest.len() as int] == x);
                assert(list[list.len() - 1] == x);
            }
            if more.contains(x) {
                let k = choose|k: int| 0 <= k < more.len() && more[k] == x;
                if k < rest.len() {
                    assert(rest[k] == x);
                }
            }
        }
    }
}

/// Taking a name out of a list takes it out of every part of the list, and leaves everything else
/// where it is.
pub proof fn removal_goes_part_by_part(
    a: Seq<Seq<char>>,
    b: Seq<Seq<char>>,
    name: Seq<char>,
    other: Seq<char>,
)
    requires
        other != name,
    ensures
        without(a + b, name) == without(a, name) + without(b, name),
        without(seq![name], name) == Seq::<Seq<char>>::empty(),
        without(seq![other], name) == seq![other],
        without(Seq::empty(), name) == Seq::<Seq<char>>::empty(),
    decreases b.len(),
{
    reveal(Seq::filter);
    assert(seq![name].drop_last() =~= Seq::<Seq<char>>::empty());
    assert(seq![other].drop_last() =~= Seq::<Seq<char>>::empty());
    assert(without(seq![other], name) =~= seq![other]);
    if b.len() == 0 {
        assert(a + b =~= a);
        assert(without(b, name) =~= Seq::<Seq<char>>::empty());
        assert(without(a, name) + without(b, name) =~= without(a, name));
    } else {
        removal_goes_part_by_part(a, b.drop_last(), name, other);
        assert((a + b).drop_last() =~= a + b.drop_last());
        assert(without(a + b, name) =~= without(a, name) + without(b, name));
    }
}

/// Which edits are valid: those of a channel up to the number of channels, and every recording.
pub proof fn edits_of_channels_are_valid_by_index(i: usize, spec: String)
    ensures
        ConfigEdit::Favorite(i).valid() <==> i < 11,
        ConfigEdit::ToggleVisible(i).valid() <==> i < 11,
        ConfigEdit::Hotkey(spec).valid(),
{
}

/// Recording a hotkey sets the hotkey and nothing else, and is saved, as every star is.
pub proof fn recording_sets_the_hotkey_alone(c: ConfigView, spec: String, i: usize)
    ensures
        edited(c, ConfigEdit::Hotkey(spec)).cycle_hotkey == Some(spec@),
        edited(c, ConfigEdit::Hotkey(spec)).default_channel == c.default_channel,
        edited(c, ConfigEdit::Hotkey(spec)).visible == c.visible,
        edit_saves(c, ConfigEdit::Hotkey(spec)),
        edit_saves(c, ConfigEdit::Favorite(i)),
{
}

/// The menu lists a channel exactly where it is known and visible, each once, and in the order of
/// all channels.
pub proof fn listing_is_known_and_visible(visible: Seq<Seq<char>>)
    ensures
        forall|x: Seq<char>| #[trigger]
            listed(visible).contains(x) <==> channels().contains(x) && visible.contains(x),
        forall|i: int, j: int|
            0 <= i < j < listed(visible).len() ==> index_of_channel(#[trigger] listed(visible)[i])
                < index_of_channel(#[trigger] listed(visible)[j]),
{
    crate::config::lemma_channel_count();
    lemma_listing(visible, 11);
    assert(channels().take(11) =~= channels());
}

/// What the first `n` channels contribute to the listing.
proof fn lemma_listing(visible: Seq<Seq<char>>, n: int)
    requires
        0 <= n <= 11,
    ensures
        ({
            let part = channels().take(n).filter(|c: Seq<char>| visible.contains(c));
            &&& forall|x: Seq<char>| #[trigger]
                part.contains(x) <==> channels().take(n).contains(x) && visible.contains(x)
            &&& forall|i: int|
                0 <= i < part.len() ==> index_of_channel(#[trigger] part[i]) < n
            &&& forall|i: int, j: int|
                0 <= i < j < part.len() ==> index_of_channel(#[trigger] part[i])
                    < index_of_channel(#[trigger] part[j])
        }),
    decreases n,
{
    reveal(Seq::filter);
    crate::config::lemma_channel_count();
    let keep = |c: Seq<char>| visible.contains(c);
    let all = channels().take(n);
    let part = all.filter(keep);
    if n > 0 {
        lemma_listing(visible, n - 1);
        let early = channels().take(n - 1);
        let before = early.filter(keep);
        assert(all.drop_last() =~= early);
        let name = channels()[n - 1];
        assert(all.last() == name);
        crate::config::name_gives_index_back(n - 1);
        assert forall|x: Seq<char>| #[trigger] part.contains(x) <==> all.contains(x)
            && visible.contains(x) by {
            if all.contains(x) {
                let k = choose|k: int| 0 <= k < all.len() && all[k] == x;
                if k < n - 1 {
                    assert(early[k] == x);
                }
            }
            if early.contains(x) {
                let k = choose|k: int| 0 <= k < early.len() && early[k] == x;
                assert(all[k] == x);
            }
            if before.contains(x) {
                let k = choose|k: int| 0 <= k < before.len() && before[k] == x;
                assert(part[k] == x);
            }
            if x == name {
                assert(all[n - 1] == x);
                if visible.contains(x) {
                    assert(part[before.len() as int] == x);
                }
            }
            if part.contains(x) {
                let k = choose|k: int| 0 <= k < part.len() && part[k] == x;
                if k < before.len() {
                    assert(before[k] == x);
                }
            }
        }
        assert forall|i: int| 0 <= i < part.len() implies index_of_channel(#[trigger] part[i])
            < n by {
            if i < before.len() {
                assert(part[i] == before[i]);
            }
        }
        assert forall|i: int, j: int| 0 <= i < j < part.len() implies index_of_channel(
            #[trigger] part[i],
        ) < index_of_channel(#[trigger] part[j]) by {
            assert(part[i] == before[i]);
            if j < before.len() {
                assert(part[j] == before[j]);
            }
        }
    } else {
        assert(all =~= Seq::<Seq<char>>::empty());
    }
}

/// Cycling goes from the first place of the active channel in the list to the place after it, and
/// from the last place to the first; where nothing is visible it goes nowhere.
pub proof fn cycle_goes_to_the_next_place(visible: Seq<Seq<char>>, idx: int, k: int)
    ensures
        visible.len() == 0 ==> next_channel(visible, idx) is None,
        visible.len() > 0 ==> next_channel(visible, idx) is Some,
        0 <= k < visible.len() - 1 && visible[k] == name_of_channel(idx) && (forall|j: int|
            0 <= j < k ==> visible[j] != name_of_channel(idx)) ==> next_channel(visible, idx)
            == Some(index_of_channel(visible[k + 1])),
        k == visible.len() - 1 && k >= 0 && visible[k] == name_of_channel(idx) && (forall|j: int|
            0 <= j < k ==> visible[j] != name_of_channel(idx)) ==> next_channel(visible, idx)
            == Some(index_of_channel(visible[0])),
        visible.len() > 0 && !visible.contains(name_of_channel(idx)) ==> next_channel(visible, idx)
            == Some(index_of_channel(visible[0])),
{
    let name = name_of_channel(idx);
    crate::text::lemma_position(visible, name);
    if 0 <= k < visible.len() && visible[k] == name && (forall|j: int|
        0 <= j < k ==> visible[j] != name) {
        crate::text::lemma_position_is(visible, name, k);
        if k < visible.len() - 1 {
            vstd::arithmetic::div_mod::lemma_small_mod((k + 1) as nat, visible.len());
        } else {
            vstd::arithmetic::div_mod::lemma_mod_self_0(visible.len() as int);
        }
    }
}

// ---------------------------------------------------------------- lemmas

/// Removing a name that is not there changes nothing.
proof fn lemma_without_absent(list: Seq<Seq<char>>, name: Seq<char>)
    requires
        forall|i: int| 0 <= i < list.len() ==> list[i] != name,
    ensures
        without(list, name) == list,
    decreases list.len(),
{
    reveal(Seq::filter);
    if list.len() > 0 {
        lemma_without_absent(list.drop_last(), name);
        assert(list.drop_last().push(list.last()) =~= list);
    } else {
        assert(without(list, name) =~= list);
    }
}

/// Removing a name that is there once removes that place.
proof fn lemma_without_once(list: Seq<Seq<char>>, name: Seq<char>, k: int)
    requires
        0 <= k < list.len(),
        list[k] == name,
        forall|i: int| 0 <= i < list.len() && i != k ==> list[i] != name,
    ensures
        without(list, name) == list.remove(k),
    decreases list.len(),
{
    reveal(Seq::filter);
    let front = list.drop_last();
    if k == list.len() - 1 {
        lemma_without_absent(front, name);
        assert(list.remove(k) =~= front);
    } else {
        lemma_without_once(front, name, k);
        assert(list.remove(k) =~= front.remove(k).push(list.last()));
    }
}

/// Removing a listed channel keeps the order of the others.
proof fn lemma_without_canonical(list: Seq<Seq<char>>, name: Seq<char>, k: int)
    requires
        canonical(list),
        0 <= k < list.len(),
        list[k] == name,
    ensures
        without(list, name) == list.remove(k),
        canonical(without(list, name)),
{
    assert forall|i: int| 0 <= i < list.len() && i != k implies list[i] != name by {
        if i < k {
            assert(index_of_channel(list[i]) < index_of_channel(list[k]));
        } else {
            assert(index_of_channel(list[k]) < index_of_channel(list[i]));
        }
    }
    lemma_without_once(list, name, k);
}

/// The listed channels among the first `n` are those of the visible that rank below `n`.
proof fn lemma_listed_prefix(list: Seq<Seq<char>>, n: int)
    requires
        canonical(list),
        0 <= n <= channel_count(),
    ensures
        channels().take(n).filter(|c: Seq<char>| list.contains(c)) == list.take(
            first_after(list, n - 1),
        ),
    decreases n,
{
    reveal(Seq::filter);
    crate::config::lemma_channel_count();
    let keep = |c: Seq<char>| list.contains(c);
    lemma_first_after(list, n - 1);
    if n == 0 {
        if first_after(list, -1) > 0 {
            assert(index_of_channel(list[0]) <= -1);
            crate::config::index_gives_name_back(list[0]);
        }
        assert(channels().take(0).filter(keep) =~= list.take(0));
    } else {
        lemma_listed_prefix(list, n - 1);
        let next = channels().take(n);
        let name = channels()[n - 1];
        assert(next.drop_last() =~= channels().take(n - 1));
        assert(next.last() == name);
        let m = first_after(list, n - 2);
        lemma_first_after(list, n - 2);
        crate::config::name_gives_index_back(n - 1);
        if list.contains(name) {
            let k = choose|k: int| 0 <= k < list.len() && list[k] == name;
            if k < m {
                assert(index_of_channel(list[k]) <= n - 2);
            }
            if k > m {
                assert(index_of_channel(list[m]) < index_of_channel(list[k]));
            }
            assert(k == m);
            if m + 1 < list.len() {
                assert(index_of_channel(list[m]) < index_of_channel(list[m + 1]));
            }
            lemma_first_after_is(list, n - 1, m + 1);
            assert(list.take(m + 1) =~= list.take(m).push(name));
        } else {
            if m < list.len() {
                crate::config::index_gives_name_back(list[m]);
                assert(list.contains(list[m]));
            }
            lemma_first_after_is(list, n - 1, m);
        }
    }
}

} // verus!
