//! The in-memory dialog template behind the URL prompt.

use ceyrad::tray::dialog::{
    build_template, BS_DEFPUSHBUTTON, HEADER_WORDS, ID_CANCEL, ID_EDIT, ID_OK, WS_TABSTOP,
};

const TYPEFACE: &str = "MS Shell Dlg";
/// The static, the edit, and the two buttons, in the order they are added.
const ITEM_TEXTS: [&str; 4] = ["A message", "", "OK", "Cancel"];
/// Where the item count sits within the header.
const ITEM_COUNT_INDEX: usize = 4;
/// Words per item before its text: style, extended style, four coordinates,
/// the id, then the 0xFFFF marker and the atom.
const ITEM_WORDS: usize = 9 + 2;

#[test]
fn every_item_starts_on_a_dword_boundary() {
    let template = build_template("Title", ITEM_TEXTS[0]);

    let mut cursor = HEADER_WORDS;
    cursor += "Title".encode_utf16().count() + 1;
    cursor += 1; // font point size
    cursor += TYPEFACE.encode_utf16().count() + 1;

    for text in ITEM_TEXTS {
        if cursor % 2 != 0 {
            cursor += 1; // the padding word the builder inserts
        }
        assert_eq!(cursor % 2, 0, "item at word {cursor} is misaligned");
        cursor += ITEM_WORDS;
        cursor += text.encode_utf16().count() + 1;
        cursor += 1; // no creation data
    }
    assert_eq!(cursor, template.len(), "template length disagrees");
}

#[test]
fn the_header_declares_the_items_that_follow() {
    let template = build_template("T", "M");
    assert_eq!(
        template[ITEM_COUNT_INDEX] as usize,
        ITEM_TEXTS.len(),
        "the count must match what the builder actually appends"
    );
}

#[test]
fn text_is_stored_as_null_terminated_utf16() {
    let template = build_template("Ceyradの設定", "M");
    let title: Vec<u16> = "Ceyradの設定".encode_utf16().collect();
    let end = HEADER_WORDS + title.len();
    assert_eq!(&template[HEADER_WORDS..end], title.as_slice());
    assert_eq!(template[end], 0, "the title must be terminated");
}

#[test]
fn the_ok_button_is_the_default() {
    let template = build_template("T", "M");
    assert!(
        template.windows(2).any(|pair| {
            let style = pair[0] as u32 | ((pair[1] as u32) << 16);
            style & BS_DEFPUSHBUTTON != 0 && style & WS_TABSTOP != 0
        }),
        "no default push button in the template"
    );
}

#[test]
fn a_title_above_the_basic_plane_is_a_surrogate_pair() {
    let template = build_template("🎵", "M");
    let title: Vec<u16> = "🎵".encode_utf16().collect();
    assert_eq!(title.len(), 2);
    assert_eq!(&template[HEADER_WORDS..HEADER_WORDS + 2], title.as_slice());
    assert_eq!(template[HEADER_WORDS + 2], 0);
}

#[test]
fn the_control_ids_are_in_the_template() {
    let template = build_template("T", "M");
    assert!(template.contains(&ID_EDIT));
    assert!(template.contains(&ID_OK));
    assert!(template.contains(&ID_CANCEL));
    assert!(template.contains(&u16::MAX));
}
