//! The in-memory `DLGTEMPLATE` of the one-line text prompt.
//!
//! A dialog template is a packed header followed by its items, each aligned to
//! a DWORD. Sizes are in dialog units, which the system scales by the font, so
//! the layout stays right at any DPI without measuring anything.
use vstd::prelude::*;

verus! {

pub const ID_OK: u16 = 1;
pub const ID_CANCEL: u16 = 2;
pub const ID_EDIT: u16 = 100;

pub const DS_SETFONT: u32 = 0x40;
pub const DS_MODALFRAME: u32 = 0x80;
pub const DS_CENTER: u32 = 0x0800;
pub const WS_POPUP: u32 = 0x8000_0000;
pub const WS_CAPTION: u32 = 0x00C0_0000;
pub const WS_SYSMENU: u32 = 0x0008_0000;
pub const WS_CHILD: u32 = 0x4000_0000;
pub const WS_VISIBLE: u32 = 0x1000_0000;
pub const WS_TABSTOP: u32 = 0x0001_0000;
pub const WS_BORDER: u32 = 0x0080_0000;
pub const ES_AUTOHSCROLL: u32 = 0x0080;
pub const BS_DEFPUSHBUTTON: u32 = 0x0001;

/// Stops a static control reading `&` as a mnemonic prefix.
pub const SS_NOPREFIX: u32 = 0x0080;

/// The window-class atoms the dialog manager understands without registering
/// anything.
pub const ATOM_BUTTON: u16 = 0x0080;
pub const ATOM_EDIT: u16 = 0x0081;
pub const ATOM_STATIC: u16 = 0x0082;

pub const DIALOG_STYLE: u32 = DS_SETFONT | DS_MODALFRAME | DS_CENTER | WS_POPUP | WS_CAPTION | WS_SYSMENU;
pub const STATIC_STYLE: u32 = WS_CHILD | WS_VISIBLE | SS_NOPREFIX;
pub const EDIT_STYLE: u32 = WS_CHILD | WS_VISIBLE | WS_BORDER | WS_TABSTOP | ES_AUTOHSCROLL;
pub const OK_STYLE: u32 = WS_CHILD | WS_VISIBLE | WS_TABSTOP | BS_DEFPUSHBUTTON;
pub const CANCEL_STYLE: u32 = WS_CHILD | WS_VISIBLE | WS_TABSTOP;

pub const DIALOG_WIDTH: u16 = 260;
pub const DIALOG_HEIGHT: u16 = 86;
pub const MARGIN: u16 = 8;

/// "MS Shell Dlg" is the alias the system maps to whatever the current UI
/// font actually is.
pub const TYPEFACE: &'static str = "MS Shell Dlg";

/// Words before the title: style, extended style, item count, four
/// coordinates, the menu ordinal and the class ordinal.
pub const HEADER_WORDS: usize = 11;

/// `c` in UTF-16: one unit, or a surrogate pair above the basic plane.
pub open spec fn utf16_of_char(c: char) -> Seq<u16> {
    let u = c as u32;
    if u < 0x10000 {
        seq![u as u16]
    } else {
        seq![(0xD800 + (u - 0x10000) / 1024) as u16, (0xDC00 + (u - 0x10000) % 1024) as u16]
    }
}

/// `s` in UTF-16, as `str::encode_utf16` yields it.
pub open spec fn utf16(s: Seq<char>) -> Seq<u16>
    decreases s.len(),
{
    if s.len() == 0 {
        Seq::empty()
    } else {
        utf16(s.drop_last()) + utf16_of_char(s.last())
    }
}

/// `s` in UTF-16 with its terminating NUL.
pub open spec fn utf16z(s: Seq<char>) -> Seq<u16> {
    utf16(s).push(0)
}

/// A 32-bit value as two words, low word first.
pub open spec fn u32_words(v: u32) -> Seq<u16> {
    seq![(v % 65536) as u16, (v / 65536) as u16]
}

/// `words` padded by one word when needed so that what follows starts on a
/// DWORD boundary.
pub open spec fn aligned(words: Seq<u16>) -> Seq<u16> {
    if words.len() % 2 != 0 {
        words.push(0)
    } else {
        words
    }
}

/// One item: its style, no extended style, its box, its id, the marker that
/// an atom follows, the atom, its text, and no creation data.
pub open spec fn item_words(style: u32, x: u16, y: u16, w: u16, h: u16, id: u16, atom: u16, text: Seq<char>) -> Seq<u16> {
    u32_words(style) + u32_words(0) + seq![x, y, w, h, id, 0xFFFF, atom] + utf16z(text) + seq![0]
}

pub open spec fn with_item(prev: Seq<u16>, style: u32, x: u16, y: u16, w: u16, h: u16, id: u16, atom: u16, text: Seq<char>) -> Seq<u16> {
    aligned(prev) + item_words(style, x, y, w, h, id, atom, text)
}

/// The header, the title and the font.
pub open spec fn header_of(title: Seq<char>) -> Seq<u16> {
    u32_words(DIALOG_STYLE) + u32_words(0) + seq![4, 0, 0, DIALOG_WIDTH, DIALOG_HEIGHT, 0, 0] + utf16z(title)
        + seq![9] + utf16z(TYPEFACE@)
}

pub open spec fn message_item(prev: Seq<u16>, message: Seq<char>) -> Seq<u16> {
    with_item(prev, STATIC_STYLE, MARGIN, MARGIN, (DIALOG_WIDTH - 2 * MARGIN) as u16, 26, 0xFFFF, ATOM_STATIC, message)
}

pub open spec fn edit_item(prev: Seq<u16>) -> Seq<u16> {
    with_item(prev, EDIT_STYLE, MARGIN, 38, (DIALOG_WIDTH - 2 * MARGIN) as u16, 14, ID_EDIT, ATOM_EDIT, Seq::empty())
}

pub open spec fn ok_item(prev: Seq<u16>) -> Seq<u16> {
    with_item(prev, OK_STYLE, (DIALOG_WIDTH - MARGIN - 108) as u16, 62, 50, 14, ID_OK, ATOM_BUTTON, "OK"@)
}

pub open spec fn cancel_item(prev: Seq<u16>) -> Seq<u16> {
    with_item(prev, CANCEL_STYLE, (DIALOG_WIDTH - MARGIN - 50) as u16, 62, 50, 14, ID_CANCEL, ATOM_BUTTON, "Cancel"@)
}

/// The whole template: a message, an edit box, then OK (the default) and
/// Cancel.
pub open spec fn template_of(title: Seq<char>, message: Seq<char>) -> Seq<u16> {
    cancel_item(ok_item(edit_item(message_item(header_of(title), message))))
}

fn push_utf16z(out: &mut Vec<u16>, text: &str)
    ensures
        final(out)@ == old(out)@ + utf16z(text@),
{
    let chars = crate::strings::chars_of(text);
    let ghost start = out@;
    let mut i: usize = 0;
    while i < chars.len()
        invariant
            i <= chars@.len(),
            chars@ == text@,
            out@ == start + utf16(chars@.subrange(0, i as int)),
        decreases chars@.len() - i,
    {
        let c = chars[i];
        proof {
            assert(chars@.subrange(0, i + 1).drop_last() =~= chars@.subrange(0, i as int));
        }
        let u = c as u32;
        if u < 0x10000 {
            out.push(u as u16);
        } else {
            let v = u - 0x10000;
            out.push((0xD800 + v / 1024) as u16);
            out.push((0xDC00 + v % 1024) as u16);
        }
        i = i + 1;
        proof {
            assert(out@ =~= start + utf16(chars@.subrange(0, i as int)));
        }
    }
    proof {
        assert(chars@.subrange(0, chars@.len() as int) =~= chars@);
    }
    out.push(0);
    proof {
        assert(out@ =~= start + utf16z(text@));
    }
}

fn push_u32(out: &mut Vec<u16>, value: u32)
    ensures
        final(out)@ == old(out)@ + u32_words(value),
{
    let ghost start = out@;
    out.push((value % 65536) as u16);
    out.push((value / 65536) as u16);
    proof {
        assert(out@ =~= start + u32_words(value));
    }
}

/// Each item must start on a DWORD boundary, and the buffer is counted in
/// words, so an odd length needs one word of padding.
fn align_to_dword(out: &mut Vec<u16>)
    ensures
        final(out)@ == aligned(old(out)@),
{
    if out.len() % 2 != 0 {
        out.push(0);
    }
}

fn push_item(out: &mut Vec<u16>, style: u32, x: u16, y: u16, w: u16, h: u16, id: u16, atom: u16, text: &str)
    ensures
        final(out)@ == with_item(old(out)@, style, x, y, w, h, id, atom, text@),
{
    let ghost start = out@;
    align_to_dword(out);
    let ghost padded = out@;
    push_u32(out, style);
    push_u32(out, 0);
    out.push(x);
    out.push(y);
    out.push(w);
    out.push(h);
    out.push(id);
    out.push(0xFFFF);
    out.push(atom);
    push_utf16z(out, text);
    out.push(0);
    proof {
        assert(out@ =~= padded + item_words(style, x, y, w, h, id, atom, text@));
    }
}

/// The template of a prompt titled `title` asking `message`.
pub fn build_template(title: &str, message: &str) -> (r: Vec<u16>)
    ensures
        r@ == template_of(title@, message@),
{
    let mut out: Vec<u16> = Vec::new();
    push_u32(&mut out, DIALOG_STYLE);
    push_u32(&mut out, 0);
    out.push(4);
    out.push(0);
    out.push(0);
    out.push(DIALOG_WIDTH);
    out.push(DIALOG_HEIGHT);
    out.push(0);
    out.push(0);
    push_utf16z(&mut out, title);
    out.push(9);
    push_utf16z(&mut out, TYPEFACE);
    proof {
        assert(out@ =~= header_of(title@));
    }
    let body_width = DIALOG_WIDTH - 2 * MARGIN;
    push_item(&mut out, STATIC_STYLE, MARGIN, MARGIN, body_width, 26, 0xFFFF, ATOM_STATIC, message);
    proof {
        reveal_strlit("");
    }
    push_item(&mut out, EDIT_STYLE, MARGIN, 38, body_width, 14, ID_EDIT, ATOM_EDIT, "");
    push_item(&mut out, OK_STYLE, DIALOG_WIDTH - MARGIN - 108, 62, 50, 14, ID_OK, ATOM_BUTTON, "OK");
    push_item(&mut out, CANCEL_STYLE, DIALOG_WIDTH - MARGIN - 50, 62, 50, 14, ID_CANCEL, ATOM_BUTTON, "Cancel");
    out
}

/// Where each of the four items starts.
pub open spec fn item_starts(title: Seq<char>, message: Seq<char>) -> Seq<int> {
    let h = header_of(title);
    let a = message_item(h, message);
    let b = edit_item(a);
    let c = ok_item(b);
    seq![aligned(h).len() as int, aligned(a).len() as int, aligned(b).len() as int, aligned(c).len() as int]
}

proof fn lemma_with_item(prev: Seq<u16>, style: u32, x: u16, y: u16, w: u16, h: u16, id: u16, atom: u16, text: Seq<char>)
    ensures
        aligned(prev).len() % 2 == 0,
        aligned(prev).len() >= prev.len(),
        ({
            let next = with_item(prev, style, x, y, w, h, id, atom, text);
            let at = aligned(prev).len() as int;
            &&& next.len() >= at + 2
            &&& next.subrange(at, at + 2) == u32_words(style)
            &&& next.take(prev.len() as int) == prev
        }),
{
    let next = with_item(prev, style, x, y, w, h, id, atom, text);
    let at = aligned(prev).len() as int;
    assert(next.subrange(at, at + 2) =~= u32_words(style));
    assert(next.take(prev.len() as int) =~= prev);
}

/// Three items written one after another: what stood in each prefix stands
/// in the whole.
proof fn lemma_windows_survive(
    t: Seq<u16>,
    c: Seq<u16>,
    b: Seq<u16>,
    a: Seq<u16>,
    s0: int,
    s1: int,
    s2: int,
)
    requires
        a.len() <= b.len() <= c.len() <= t.len(),
        t.take(c.len() as int) == c,
        c.take(b.len() as int) == b,
        b.take(a.len() as int) == a,
        0 <= s0,
        s0 + 2 <= a.len(),
        0 <= s1,
        s1 + 2 <= b.len(),
        0 <= s2,
        s2 + 2 <= c.len(),
    ensures
        t.subrange(s0, s0 + 2) == a.subrange(s0, s0 + 2),
        t.subrange(s1, s1 + 2) == b.subrange(s1, s1 + 2),
        t.subrange(s2, s2 + 2) == c.subrange(s2, s2 + 2),
{
    assert(t.subrange(s2, s2 + 2) =~= c.subrange(s2, s2 + 2));
    assert(c.subrange(s1, s1 + 2) =~= b.subrange(s1, s1 + 2));
    assert(t.subrange(s1, s1 + 2) =~= c.subrange(s1, s1 + 2));
    assert(b.subrange(s0, s0 + 2) =~= a.subrange(s0, s0 + 2));
    assert(c.subrange(s0, s0 + 2) =~= b.subrange(s0, s0 + 2));
    assert(t.subrange(s0, s0 + 2) =~= c.subrange(s0, s0 + 2));
}

/// A word inside the first of a chain of prefixes is the same in the whole.
proof fn lemma_index_survives(t: Seq<u16>, c: Seq<u16>, b: Seq<u16>, a: Seq<u16>, h: Seq<u16>, i: int)
    requires
        h.len() <= a.len() <= b.len() <= c.len() <= t.len(),
        t.take(c.len() as int) == c,
        c.take(b.len() as int) == b,
        b.take(a.len() as int) == a,
        a.take(h.len() as int) == h,
        0 <= i < h.len(),
    ensures
        t[i] == h[i],
{
    assert(h[i] == a[i]);
    assert(a[i] == b[i]);
    assert(b[i] == c[i]);
    assert(c[i] == t[i]);
}

proof fn lemma_header_count(title: Seq<char>)
    ensures
        header_of(title).len() > 4,
        header_of(title)[4] == 4,
{
}

/// The rule the dialog manager will not forgive: every item begins on a
/// DWORD boundary, which in a buffer counted in words means an even index,
/// and each item's style words stand exactly there. The header declares the
/// four items that follow.
pub proof fn lemma_items_start_on_dword_boundaries(title: Seq<char>, message: Seq<char>)
    ensures
        forall|i: int| 0 <= i < 4 ==> #[trigger] item_starts(title, message)[i] % 2 == 0,
        ({
            let t = template_of(title, message);
            let s = item_starts(title, message);
            &&& t.subrange(s[0], s[0] + 2) == u32_words(STATIC_STYLE)
            &&& t.subrange(s[1], s[1] + 2) == u32_words(EDIT_STYLE)
            &&& t.subrange(s[2], s[2] + 2) == u32_words(OK_STYLE)
            &&& t.subrange(s[3], s[3] + 2) == u32_words(CANCEL_STYLE)
        }),
        template_of(title, message)[4] == 4,
{
    let h = header_of(title);
    let body_width = (DIALOG_WIDTH - 2 * MARGIN) as u16;
    let a = message_item(h, message);
    let b = edit_item(a);
    let c = ok_item(b);
    let t = template_of(title, message);
    lemma_with_item(h, STATIC_STYLE, MARGIN, MARGIN, body_width, 26, 0xFFFF, ATOM_STATIC, message);
    lemma_with_item(a, EDIT_STYLE, MARGIN, 38, body_width, 14, ID_EDIT, ATOM_EDIT, Seq::empty());
    lemma_with_item(b, OK_STYLE, (DIALOG_WIDTH - MARGIN - 108) as u16, 62, 50, 14, ID_OK, ATOM_BUTTON, "OK"@);
    lemma_with_item(c, CANCEL_STYLE, (DIALOG_WIDTH - MARGIN - 50) as u16, 62, 50, 14, ID_CANCEL, ATOM_BUTTON, "Cancel"@);
    lemma_windows_survive(t, c, b, a, aligned(h).len() as int, aligned(a).len() as int, aligned(b).len() as int);
    lemma_header_count(title);
    lemma_index_survives(t, c, b, a, h, 4);
}

} // verus!
