//! The help view: a stack of self-contained tip cards — icon on the left, heading and body on the
//! right. Cards mirror the affordances the user actually touches in the settings window, so each
//! card visually maps to the thing it describes.

use crate::draw::{
    emit_text, fill_round, fits, label, op_views, rect, round, within, DrawOp, Font, Layout, OpView,
    Rect,
};
use crate::settings::{
    acted, clicked, lemma_hit_is, message_point, Action, HelpLang, HitRegion, WindowState,
};
use crate::widgets::{
    draw_language_tab, draw_pill_button, hovers, is_hovered, pill_ops, tab_ops, Frame, FrameView,
    ACCENT, CARD, CARD_RADIUS, PADDING, ROW_H, TEXT, TEXT_DIM,
};
use vstd::prelude::*;

verus! {

/// Icons of the cards: volume, filled star, eye, keyboard, menu.
pub const HELP_ICONS: [&'static str; 5] = [
    "\u{E767}",
    "\u{E735}",
    "\u{E7B3}",
    "\u{E144}",
    "\u{E700}",
];

/// Headings of the cards, in English.
pub const HELP_HEADINGS_EN: [&'static str; 5] = [
    "ACTIVE CHANNEL",
    "STARTUP CHANNEL",
    "VISIBILITY",
    "CYCLE HOTKEY",
    "TRAY ICON",
];

/// Headings of the cards, in French.
pub const HELP_HEADINGS_FR: [&'static str; 5] = [
    "CHANNEL ACTIF",
    "CHANNEL DE DÉMARRAGE",
    "VISIBILITÉ",
    "HOTKEY DE CYCLE",
    "ICÔNE TRAY",
];

/// Texts of the cards, in English.
pub const HELP_BODIES_EN: [&'static str; 5] = [
    "Click a channel name to control it now. The highlighted row is what your volume keys move.",
    "Tap ★ to bookmark a channel as the one the app reopens with at boot. Independent from the active selection.",
    "The eye toggles a channel in or out of the tray right-click menu and the cycle hotkey rotation.",
    "A global shortcut that jumps the active channel to the next visible one. Click the box below to record a new combo.",
    "Left-click opens this window. Right-click brings up the quick switcher with only the visible channels.",
];

/// Texts of the cards, in French.
pub const HELP_BODIES_FR: [&'static str; 5] = [
    "Clique sur le nom d'un channel pour le contrôler maintenant. La ligne en surbrillance est celle que les touches volume bougent.",
    "Touche ★ pour qu'un channel devienne celui sur lequel l'app revient au prochain démarrage. Indépendant du channel actif.",
    "L'œil ajoute ou retire un channel du menu clic-droit du tray et de la rotation du hotkey.",
    "Un raccourci global qui passe le channel actif au visible suivant. Clic dans la boîte ci-dessous pour en enregistrer un nouveau.",
    "Clic gauche ouvre cette fenêtre. Clic droit affiche le sélecteur rapide avec uniquement les channels visibles.",
];

pub const HELP_CARD_H: i32 = 76;

pub const HELP_CARD_GAP: i32 = 8;

/// Height of the row of the title.
pub const TITLE_H: i32 = 36;

/// Size of a tab of the language switch.
pub const TAB_W: i32 = 42;

pub const TAB_H: i32 = 26;

/// The English or the French text.
pub open spec fn in_lang(lang: HelpLang, en: Seq<char>, fr: Seq<char>) -> Seq<char> {
    if lang == HelpLang::Fr {
        fr
    } else {
        en
    }
}

/// The English or the French text.
pub fn pick(lang: HelpLang, en: &'static str, fr: &'static str) -> (r: &'static str)
    ensures
        r@ == in_lang(lang, en@, fr@),
{
    if lang == HelpLang::Fr {
        fr
    } else {
        en
    }
}

// ---------------------------------------------------------------- a card

/// What a card shows.
pub open spec fn card_ops(
    place: Rect,
    icon: Seq<char>,
    heading: Seq<char>,
    body: Seq<char>,
) -> Seq<OpView> {
    let text_left = place.left + 8 + 44 + 8;
    let text_right = place.right - 16;
    seq![
        round(place, CARD, CARD, CARD_RADIUS as int),
        label(
            icon,
            Font::IconLarge,
            ACCENT,
            rect(place.left + 8, place.top as int, place.left + 8 + 44, place.bottom as int),
            Layout::Center,
        ),
        label(
            heading,
            Font::Header,
            ACCENT,
            rect(text_left, place.top + 12, text_right, place.top + 30),
            Layout::Left,
        ),
        label(
            body,
            Font::Body,
            TEXT,
            rect(text_left, place.top + 32, text_right, place.bottom - 8),
            Layout::Wrapped,
        ),
    ]
}

/// Paints a card.
pub fn paint_help_card(ops: &mut Vec<DrawOp>, place: Rect, icon: &str, heading: &str, body: &str)
    requires
        fits(place.left + 60),
        fits(place.right - 16),
        fits(place.top + 32),
        fits(place.bottom - 8),
    ensures
        op_views(final(ops)@) == op_views(old(ops)@) + card_ops(place, icon@, heading@, body@),
{
    fill_round(ops, place, CARD, CARD, CARD_RADIUS);
    let icon_box = Rect {
        left: place.left + 8,
        top: place.top,
        right: place.left + 8 + 44,
        bottom: place.bottom,
    };
    emit_text(ops, icon, Font::IconLarge, ACCENT, icon_box, Layout::Center);
    let text_left: i32 = icon_box.right + 8;
    let text_right: i32 = place.right - 16;
    let heading_box = Rect {
        left: text_left,
        top: place.top + 12,
        right: text_right,
        bottom: place.top + 30,
    };
    emit_text(ops, heading, Font::Header, ACCENT, heading_box, Layout::Left);
    let body_box = Rect {
        left: text_left,
        top: place.top + 32,
        right: text_right,
        bottom: place.bottom - 8,
    };
    emit_text(ops, body, Font::Body, TEXT, body_box, Layout::Wrapped);
    assert(op_views(ops@) =~= op_views(old(ops)@) + card_ops(place, icon@, heading@, body@));
}

// ---------------------------------------------------------------- the view

/// The tab for English.
pub open spec fn en_rect(client: Rect) -> Rect {
    let top = PADDING + 5;
    let right = client.right - PADDING - TAB_W - 6;
    rect(right - TAB_W, top, right, top + TAB_H)
}

/// The tab for French.
pub open spec fn fr_rect(client: Rect) -> Rect {
    let top = PADDING + 5;
    let right = client.right - PADDING;
    rect(right - TAB_W, top, right, top + TAB_H)
}

/// The button that leads back, anchored to the bottom.
pub open spec fn back_rect(client: Rect) -> Rect {
    rect(
        PADDING as int,
        client.bottom - PADDING - ROW_H,
        client.right - PADDING,
        client.bottom - PADDING,
    )
}

/// Where the tagline begins.
pub open spec fn tagline_top() -> int {
    PADDING + TITLE_H + 14
}

/// Card `i`.
pub open spec fn card_rect(client: Rect, i: int) -> Rect {
    let top = tagline_top() + 22 + 14 + (HELP_CARD_H + HELP_CARD_GAP) * i;
    rect(PADDING as int, top, client.right - PADDING, top + HELP_CARD_H)
}

/// What the first `count` cards show.
pub open spec fn cards_ops(client: Rect, lang: HelpLang, count: nat) -> Seq<OpView>
    decreases count,
{
    if count == 0 {
        Seq::empty()
    } else {
        let i = count - 1;
        cards_ops(client, lang, i as nat) + card_ops(
            card_rect(client, i),
            HELP_ICONS@[i]@,
            in_lang(lang, HELP_HEADINGS_EN@[i]@, HELP_HEADINGS_FR@[i]@),
            in_lang(lang, HELP_BODIES_EN@[i]@, HELP_BODIES_FR@[i]@),
        )
    }
}

/// Where the help view can be clicked.
pub open spec fn help_regions(client: Rect) -> Seq<HitRegion> {
    seq![
        HitRegion { rect: en_rect(client), action: Action::SetHelpLang(HelpLang::En) },
        HitRegion { rect: fr_rect(client), action: Action::SetHelpLang(HelpLang::Fr) },
        HitRegion { rect: back_rect(client), action: Action::CloseHelp },
    ]
}

/// The help view, added to what is there.
pub open spec fn with_help(
    f: FrameView,
    lang: HelpLang,
    hovered: Option<usize>,
    client: Rect,
) -> FrameView {
    let n = f.regions.len() as int;
    f.plus(
        seq![
            label(
                in_lang(lang, "Help"@, "Aide"@),
                Font::Title,
                TEXT,
                rect(PADDING as int, PADDING as int, PADDING + 240, PADDING + TITLE_H),
                Layout::Left,
            ),
        ] + tab_ops(en_rect(client), "EN"@, lang == HelpLang::En, hovers(hovered, n)) + tab_ops(
            fr_rect(client),
            "FR"@,
            lang == HelpLang::Fr,
            hovers(hovered, n + 1),
        ) + seq![
            label(
                in_lang(
                    lang,
                    "Your volume keys, wired to a GoXLR fader."@,
                    "Tes touches volume connectées aux faders GoXLR."@,
                ),
                Font::Body,
                TEXT_DIM,
                rect(
                    PADDING as int,
                    tagline_top(),
                    client.right - PADDING,
                    tagline_top() + 22,
                ),
                Layout::Left,
            ),
        ] + cards_ops(client, lang, 5) + pill_ops(
            back_rect(client),
            in_lang(lang, "Back to settings"@, "Retour aux réglages"@),
            hovers(hovered, n + 2),
            true,
        ),
        help_regions(client),
    )
}

/// Whether the view can be painted: no number on the way is too large.
pub open spec fn help_fits(client: Rect) -> bool {
    fits(client.right - PADDING - TAB_W - 6 - TAB_W) && fits(client.bottom - PADDING - ROW_H)
}

/// Paints the help view.
pub fn paint_help(frame: &mut Frame, lang: HelpLang, hovered: Option<usize>, client: Rect)
    requires
        help_fits(client),
    ensures
        final(frame)@ == with_help(old(frame)@, lang, hovered, client),
{
    let ghost f = frame@;
    let title = pick(lang, "Help", "Aide");
    let title_box = Rect {
        left: PADDING,
        top: PADDING,
        right: PADDING + 240,
        bottom: PADDING + TITLE_H,
    };
    emit_text(&mut frame.ops, title, Font::Title, TEXT, title_box, Layout::Left);

    let tab_top: i32 = PADDING + (TITLE_H - TAB_H) / 2;
    let fr = Rect {
        left: client.right - PADDING - TAB_W,
        top: tab_top,
        right: client.right - PADDING,
        bottom: tab_top + TAB_H,
    };
    let en = Rect {
        left: fr.left - 6 - TAB_W,
        top: tab_top,
        right: fr.left - 6,
        bottom: tab_top + TAB_H,
    };
    let on = is_hovered(hovered, frame.regions.len());
    draw_language_tab(&mut frame.ops, en, "EN", lang == HelpLang::En, on);
    frame.regions.push(HitRegion { rect: en, action: Action::SetHelpLang(HelpLang::En) });
    let on = is_hovered(hovered, frame.regions.len());
    draw_language_tab(&mut frame.ops, fr, "FR", lang == HelpLang::Fr, on);
    frame.regions.push(HitRegion { rect: fr, action: Action::SetHelpLang(HelpLang::Fr) });

    let top: i32 = PADDING + TITLE_H + 14;
    let tagline = pick(
        lang,
        "Your volume keys, wired to a GoXLR fader.",
        "Tes touches volume connectées aux faders GoXLR.",
    );
    let tagline_box = Rect {
        left: PADDING,
        top,
        right: client.right - PADDING,
        bottom: top + 22,
    };
    emit_text(&mut frame.ops, tagline, Font::Body, TEXT_DIM, tagline_box, Layout::Left);

    let ghost base = frame@;
    let cards_top: i32 = top + 22 + 14;
    for i in 0..5usize
        invariant
            help_fits(client),
            cards_top == tagline_top() + 22 + 14,
            frame@ == base.plus(cards_ops(client, lang, i as nat), Seq::empty()),
    {
        let card_top: i32 = cards_top + (HELP_CARD_H + HELP_CARD_GAP) * (i as i32);
        let place = Rect {
            left: PADDING,
            top: card_top,
            right: client.right - PADDING,
            bottom: card_top + HELP_CARD_H,
        };
        assert(place == card_rect(client, i as int));
        let heading = pick(lang, HELP_HEADINGS_EN[i], HELP_HEADINGS_FR[i]);
        let body = pick(lang, HELP_BODIES_EN[i], HELP_BODIES_FR[i]);
        paint_help_card(&mut frame.ops, place, HELP_ICONS[i], heading, body);
        proof {
            assert(frame@.ops =~= base.ops + cards_ops(client, lang, (i + 1) as nat));
            assert(frame@ =~= base.plus(cards_ops(client, lang, (i + 1) as nat), Seq::empty()));
        }
    }

    let back = Rect {
        left: PADDING,
        top: client.bottom - PADDING - ROW_H,
        right: client.right - PADDING,
        bottom: client.bottom - PADDING,
    };
    let on = is_hovered(hovered, frame.regions.len());
    let back_label = pick(lang, "Back to settings", "Retour aux réglages");
    draw_pill_button(&mut frame.ops, back, back_label, on, true);
    frame.regions.push(HitRegion { rect: back, action: Action::CloseHelp });
    assert(frame@ =~= with_help(f, lang, hovered, client));
}

// ---------------------------------------------------------------- laws

/// No point of the help view lies in two regions, unless the window is so low that the button
/// that leads back reaches the tabs.
pub proof fn help_regions_disjoint(client: Rect, i: int, j: int, x: int, y: int)
    requires
        help_fits(client),
        client.bottom >= 113 || client.bottom <= 49 || client.right <= 44,
        0 <= i < help_regions(client).len(),
        0 <= j < help_regions(client).len(),
        i != j,
    ensures
        !(within(help_regions(client)[i].rect, x, y) && within(
            help_regions(client)[j].rect,
            x,
            y,
        )),
{
}

/// A click into a region of the help view does what that region is for.
pub proof fn help_click_does_what_is_shown(s: WindowState, client: Rect, l_param: isize, i: int)
    requires
        help_fits(client),
        client.bottom >= 113 || client.bottom <= 49 || client.right <= 44,
        s.regions@ == help_regions(client),
        0 <= i < help_regions(client).len(),
        within(help_regions(client)[i].rect, message_point(l_param).0, message_point(l_param).1),
    ensures
        clicked(s, l_param) == acted(s, help_regions(client)[i].action),
{
    let (x, y) = message_point(l_param);
    assert forall|j: int| 0 <= j < i implies !within((#[trigger] s.regions@[j]).rect, x, y) by {
        help_regions_disjoint(client, i, j, x, y);
    }
    lemma_hit_is(s.regions@, x, y, i);
}

// ---------------------------------------------------------------- what is shown where

/// A text is shown in the language that was chosen.
pub proof fn text_is_in_the_language_chosen(en: Seq<char>, fr: Seq<char>)
    ensures
        in_lang(HelpLang::En, en, fr) == en,
        in_lang(HelpLang::Fr, en, fr) == fr,
{
}

/// A card: its surface, the icon at the left over the whole height, and right of it the heading
/// with the text below.
pub proof fn card_is_icon_heading_and_text(
    place: Rect,
    icon: Seq<char>,
    heading: Seq<char>,
    body: Seq<char>,
)
    ensures
        ({
            let ops = card_ops(place, icon, heading, body);
            &&& ops.len() == 4
            &&& ops[0] == (OpView::Round {
                rect: place,
                fill: 0x1E1E1E,
                border: 0x1E1E1E,
                corner: 20,
            })
            &&& ops[1] == (OpView::Text {
                text: icon,
                font: Font::IconLarge,
                color: 0x339CFB,
                rect: rect(
                    place.left + 8,
                    place.top as int,
                    place.left + 52,
                    place.bottom as int,
                ),
                layout: Layout::Center,
            })
            &&& ops[2] == (OpView::Text {
                text: heading,
                font: Font::Header,
                color: 0x339CFB,
                rect: rect(place.left + 60, place.top + 12, place.right - 16, place.top + 30),
                layout: Layout::Left,
            })
            &&& ops[3] == (OpView::Text {
                text: body,
                font: Font::Body,
                color: 0xF5F5F5,
                rect: rect(place.left + 60, place.top + 32, place.right - 16, place.bottom - 8),
                layout: Layout::Wrapped,
            })
        }),
{
}

/// Card by card: each holds the icon, heading and text with its number, 84 pixels below the one
/// before.
pub proof fn cards_are_stacked_in_order(client: Rect, lang: HelpLang, i: nat)
    requires
        i < 5,
    ensures
        cards_ops(client, lang, 0) == Seq::<OpView>::empty(),
        ({
            let top = 108 + 84 * (i as int);
            let place = rect(22, top, client.right - 22, top + 76);
            let heading = if lang == HelpLang::En {
                HELP_HEADINGS_EN@[i as int]@
            } else {
                HELP_HEADINGS_FR@[i as int]@
            };
            let body = if lang == HelpLang::En {
                HELP_BODIES_EN@[i as int]@
            } else {
                HELP_BODIES_FR@[i as int]@
            };
            cards_ops(client, lang, i + 1) == cards_ops(client, lang, i) + card_ops(
                place,
                HELP_ICONS@[i as int]@,
                heading,
                body,
            )
        }),
{
}

/// The help: title and language tabs at the top, the tagline, the cards, and the way back at the
/// bottom; the tab of the language that is shown is the active one.
pub proof fn help_is_laid_out(f: FrameView, lang: HelpLang, hovered: Option<usize>, client: Rect)
    ensures
        ({
            let n = f.regions.len() as int;
            let after = with_help(f, lang, hovered, client);
            let english = lang == HelpLang::En;
            let en = rect(client.right - 112, 27, client.right - 70, 53);
            let fr = rect(client.right - 64, 27, client.right - 22, 53);
            let back = rect(22, client.bottom - 60, client.right - 22, client.bottom - 22);
            &&& after.ops == f.ops + (seq![
                OpView::Text {
                    text: if english {
                        "Help"@
                    } else {
                        "Aide"@
                    },
                    font: Font::Title,
                    color: 0xF5F5F5,
                    rect: rect(22, 22, 262, 58),
                    layout: Layout::Left,
                },
            ] + tab_ops(en, "EN"@, english, hovers(hovered, n)) + tab_ops(
                fr,
                "FR"@,
                !english,
                hovers(hovered, n + 1),
            ) + seq![
                OpView::Text {
                    text: if english {
                        "Your volume keys, wired to a GoXLR fader."@
                    } else {
                        "Tes touches volume connectées aux faders GoXLR."@
                    },
                    font: Font::Body,
                    color: 0xB0B0B0,
                    rect: rect(22, 72, client.right - 22, 94),
                    layout: Layout::Left,
                },
            ] + cards_ops(client, lang, 5) + pill_ops(
                back,
                if english {
                    "Back to settings"@
                } else {
                    "Retour aux réglages"@
                },
                hovers(hovered, n + 2),
                true,
            ))
            &&& after.regions == f.regions + seq![
                HitRegion { rect: en, action: Action::SetHelpLang(HelpLang::En) },
                HitRegion { rect: fr, action: Action::SetHelpLang(HelpLang::Fr) },
                HitRegion { rect: back, action: Action::CloseHelp },
            ]
        }),
{
}

/// The help can be painted in every window but those whose right or bottom edge is almost as far
/// out as numbers go.
pub proof fn help_fits_but_at_the_edge(client: Rect)
    ensures
        help_fits(client) <==> client.right >= -2147483648 + 112 && client.bottom >= -2147483648
            + 60,
{
}

/// What the cards are about, card by card: the icon, and the heading in either language.
pub proof fn cards_by_heading()
    ensures
        HELP_ICONS@[0]@ == "\u{E767}"@,
        HELP_ICONS@[1]@ == "\u{E735}"@,
        HELP_ICONS@[2]@ == "\u{E7B3}"@,
        HELP_ICONS@[3]@ == "\u{E144}"@,
        HELP_ICONS@[4]@ == "\u{E700}"@,
        HELP_HEADINGS_EN@[0]@ == "ACTIVE CHANNEL"@,
        HELP_HEADINGS_EN@[1]@ == "STARTUP CHANNEL"@,
        HELP_HEADINGS_EN@[2]@ == "VISIBILITY"@,
        HELP_HEADINGS_EN@[3]@ == "CYCLE HOTKEY"@,
        HELP_HEADINGS_EN@[4]@ == "TRAY ICON"@,
        HELP_HEADINGS_FR@[0]@ == "CHANNEL ACTIF"@,
        HELP_HEADINGS_FR@[1]@ == "CHANNEL DE DÉMARRAGE"@,
        HELP_HEADINGS_FR@[2]@ == "VISIBILITÉ"@,
        HELP_HEADINGS_FR@[3]@ == "HOTKEY DE CYCLE"@,
        HELP_HEADINGS_FR@[4]@ == "ICÔNE TRAY"@,
{
}

/// What the cards say, in either language.
pub proof fn cards_by_text()
    ensures
        HELP_BODIES_EN@[0]@ == "Click a channel name to control it now. The highlighted row is what your volume keys move."@,
        HELP_BODIES_EN@[1]@ == "Tap ★ to bookmark a channel as the one the app reopens with at boot. Independent from the active selection."@,
        HELP_BODIES_EN@[2]@ == "The eye toggles a channel in or out of the tray right-click menu and the cycle hotkey rotation."@,
        HELP_BODIES_EN@[3]@ == "A global shortcut that jumps the active channel to the next visible one. Click the box below to record a new combo."@,
        HELP_BODIES_EN@[4]@ == "Left-click opens this window. Right-click brings up the quick switcher with only the visible channels."@,
        HELP_BODIES_FR@[0]@ == "Clique sur le nom d'un channel pour le contrôler maintenant. La ligne en surbrillance est celle que les touches volume bougent."@,
        HELP_BODIES_FR@[1]@ == "Touche ★ pour qu'un channel devienne celui sur lequel l'app revient au prochain démarrage. Indépendant du channel actif."@,
        HELP_BODIES_FR@[2]@ == "L'œil ajoute ou retire un channel du menu clic-droit du tray et de la rotation du hotkey."@,
        HELP_BODIES_FR@[3]@ == "Un raccourci global qui passe le channel actif au visible suivant. Clic dans la boîte ci-dessous pour en enregistrer un nouveau."@,
        HELP_BODIES_FR@[4]@ == "Clic gauche ouvre cette fenêtre. Clic droit affiche le sélecteur rapide avec uniquement les channels visibles."@,
{
}

} // verus!
