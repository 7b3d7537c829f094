//! ANSI overlay renderer.
//!
//! Renders the autocomplete popup as ANSI text that is printed below the
//! prompt. The popup hides the cursor, draws each line after `\n\r` with the
//! line cleared first, then moves the cursor back up to the prompt line
//! with a relative movement and shows it again.
use vstd::prelude::*;
use crate::ipc::protocol::{CompletionItem, ItemView, item_views};
use crate::render::theme::{Color, Theme, kind_icon_ascii, kind_icon_ascii_spec};
use crate::text::{chars_of, decimal, decimal_string, empty_string, owned, push_char, push_repeated, push_str, repeat_char, string_of};

verus! {

/// Maximum number of visible items in the popup.
pub const MAX_VISIBLE_ITEMS: usize = 10;
/// Minimum popup width in columns.
pub const MIN_POPUP_WIDTH: usize = 30;
/// Maximum popup width in columns.
pub const MAX_POPUP_WIDTH: usize = 70;

// ---------------------------------------------------------------------
// Escape sequences
// ---------------------------------------------------------------------

/// `ESC [ params m`: a Select Graphic Rendition sequence.
pub open spec fn csi_m(params: Seq<char>) -> Seq<char> {
    seq!['\x1b', '['] + params + seq!['m']
}

/// The parameters selecting an RGB color: `<base>;2;r;g;b`.
pub open spec fn rgb_params(base: Seq<char>, r: u8, g: u8, b: u8) -> Seq<char> {
    base + seq![';', '2', ';'] + decimal(r as nat) + seq![';'] + decimal(g as nat) + seq![';']
        + decimal(b as nat)
}

/// The sequence that sets the foreground color.
pub open spec fn fg_code(c: Color) -> Seq<char> {
    match c {
        Color::Rgb { r, g, b } => csi_m(rgb_params(seq!['3', '8'], r, g, b)),
        Color::Reset => csi_m(seq!['3', '9']),
    }
}

/// The sequence that sets the background color.
pub open spec fn bg_code(c: Color) -> Seq<char> {
    match c {
        Color::Rgb { r, g, b } => csi_m(rgb_params(seq!['4', '8'], r, g, b)),
        Color::Reset => csi_m(seq!['4', '9']),
    }
}

/// Either the given color sequence, or the empty SGR sequence written
/// when colors are turned off for the process (`NO_COLOR`).
pub open spec fn color_outcome(s: Seq<char>, code: Seq<char>) -> bool {
    s == code || s == csi_m(seq![])
}

/// `crossterm::style::SetForegroundColor(c)` formatted as text.
/// Trusted: crossterm writes the color's SGR sequence, or an empty one
/// when the `NO_COLOR` environment variable turned colors off.
#[verifier::external_body]
fn set_foreground(c: Color) -> (r: String)
    ensures
        color_outcome(r@, fg_code(c)),
{
    let cc = match c {
        Color::Rgb { r, g, b } => crossterm::style::Color::Rgb { r, g, b },
        Color::Reset => crossterm::style::Color::Reset,
    };
    format!("{}", crossterm::style::SetForegroundColor(cc))
}

/// `crossterm::style::SetBackgroundColor(c)` formatted as text.
/// Trusted: as for the foreground.
#[verifier::external_body]
fn set_background(c: Color) -> (r: String)
    ensures
        color_outcome(r@, bg_code(c)),
{
    let cc = match c {
        Color::Rgb { r, g, b } => crossterm::style::Color::Rgb { r, g, b },
        Color::Reset => crossterm::style::Color::Reset,
    };
    format!("{}", crossterm::style::SetBackgroundColor(cc))
}

/// Text attributes used by the popup.
#[derive(Debug, Clone, Copy, PartialEq, Eq, Structural)]
pub enum TextAttribute {
    Bold,
    Reset,
}

pub open spec fn attribute_code(a: TextAttribute) -> Seq<char> {
    match a {
        TextAttribute::Bold => csi_m(seq!['1']),
        TextAttribute::Reset => csi_m(seq!['0']),
    }
}

/// `crossterm::style::SetAttribute(a)` formatted as text.
/// Trusted: crossterm writes `ESC [ <sgr> m` with the attribute's SGR code.
#[verifier::external_body]
fn set_attribute(a: TextAttribute) -> (r: String)
    ensures
        r@ == attribute_code(a),
{
    let ca = match a {
        TextAttribute::Bold => crossterm::style::Attribute::Bold,
        TextAttribute::Reset => crossterm::style::Attribute::Reset,
    };
    format!("{}", crossterm::style::SetAttribute(ca))
}

/// The escape sequences a popup is drawn with.
pub struct Palette {
    pub border_fg: String,
    pub popup_bg: String,
    pub selected_bg: String,
    pub kind_fg: String,
    pub danger_fg: String,
    pub text_fg: String,
    pub match_fg: String,
    pub desc_fg: String,
    pub fg_reset: String,
    pub bg_reset: String,
    pub bold: String,
    pub attr_reset: String,
}

pub struct PaletteView {
    pub border_fg: Seq<char>,
    pub popup_bg: Seq<char>,
    pub selected_bg: Seq<char>,
    pub kind_fg: Seq<char>,
    pub danger_fg: Seq<char>,
    pub text_fg: Seq<char>,
    pub match_fg: Seq<char>,
    pub desc_fg: Seq<char>,
    pub fg_reset: Seq<char>,
    pub bg_reset: Seq<char>,
    pub bold: Seq<char>,
    pub attr_reset: Seq<char>,
}

impl View for Palette {
    type V = PaletteView;

    open spec fn view(&self) -> PaletteView {
        PaletteView {
            border_fg: self.border_fg@,
            popup_bg: self.popup_bg@,
            selected_bg: self.selected_bg@,
            kind_fg: self.kind_fg@,
            danger_fg: self.danger_fg@,
            text_fg: self.text_fg@,
            match_fg: self.match_fg@,
            desc_fg: self.desc_fg@,
            fg_reset: self.fg_reset@,
            bg_reset: self.bg_reset@,
            bold: self.bold@,
            attr_reset: self.attr_reset@,
        }
    }
}

/// Whether a palette draws the colors of a theme (each color sequence
/// possibly empty when colors are off).
pub open spec fn palette_of(p: PaletteView, t: Theme) -> bool {
    &&& color_outcome(p.border_fg, fg_code(t.border_fg))
    &&& color_outcome(p.popup_bg, bg_code(t.popup_bg))
    &&& color_outcome(p.selected_bg, bg_code(t.selected_bg))
    &&& color_outcome(p.kind_fg, fg_code(t.kind_fg))
    &&& color_outcome(p.danger_fg, fg_code(t.danger_fg))
    &&& color_outcome(p.text_fg, fg_code(t.text_fg))
    &&& color_outcome(p.match_fg, fg_code(t.match_fg))
    &&& color_outcome(p.desc_fg, fg_code(t.desc_fg))
    &&& color_outcome(p.fg_reset, fg_code(Color::Reset))
    &&& color_outcome(p.bg_reset, bg_code(Color::Reset))
    &&& p.bold == attribute_code(TextAttribute::Bold)
    &&& p.attr_reset == attribute_code(TextAttribute::Reset)
}

/// The escape sequences for a theme.
pub fn palette_for(theme: &Theme) -> (p: Palette)
    ensures
        palette_of(p@, *theme),
{
    Palette {
        border_fg: set_foreground(theme.border_fg),
        popup_bg: set_background(theme.popup_bg),
        selected_bg: set_background(theme.selected_bg),
        kind_fg: set_foreground(theme.kind_fg),
        danger_fg: set_foreground(theme.danger_fg),
        text_fg: set_foreground(theme.text_fg),
        match_fg: set_foreground(theme.match_fg),
        desc_fg: set_foreground(theme.desc_fg),
        fg_reset: set_foreground(Color::Reset),
        bg_reset: set_background(Color::Reset),
        bold: set_attribute(TextAttribute::Bold),
        attr_reset: set_attribute(TextAttribute::Reset),
    }
}

// ---------------------------------------------------------------------
// Layout model
// ---------------------------------------------------------------------

pub open spec fn sat_sub(a: int, b: int) -> nat {
    if a > b {
        (a - b) as nat
    } else {
        0
    }
}

pub open spec fn min_nat(a: nat, b: nat) -> nat {
    if a < b {
        a
    } else {
        b
    }
}

/// `s` cut to `max_len` characters, the last one replaced by an ellipsis
/// when it was too long.
pub open spec fn truncate_spec(s: Seq<char>, max_len: nat) -> Seq<char> {
    if s.len() <= max_len {
        s
    } else if max_len > 1 {
        s.take(max_len - 1).push('\u{2026}')
    } else {
        seq![]
    }
}

/// Columns an item wants: icon, name, and description (cut to 30) if any.
pub open spec fn item_width(it: ItemView) -> nat {
    2 + it.display.len() + if it.description.len() == 0 {
        0
    } else {
        min_nat(it.description.len(), 30) + 2
    }
}

/// The largest item width.
pub open spec fn content_width(items: Seq<ItemView>) -> nat
    decreases items.len(),
{
    if items.len() == 0 {
        0
    } else {
        let w = content_width(items.drop_last());
        if item_width(items.last()) > w {
            item_width(items.last())
        } else {
            w
        }
    }
}

/// The widest the popup may be for the terminal width.
pub open spec fn max_width_for(cols: Option<u16>) -> nat {
    match cols {
        Some(c) => min_nat(sat_sub(c as int, 2), MAX_POPUP_WIDTH as nat),
        None => MAX_POPUP_WIDTH as nat,
    }
}

/// Whether the terminal is wide enough for the popup's minimum width.
pub open spec fn cols_fit(cols: Option<u16>) -> bool {
    max_width_for(cols) >= MIN_POPUP_WIDTH
}

pub open spec fn visible_count(n: nat) -> nat {
    min_nat(n, MAX_VISIBLE_ITEMS as nat)
}

/// Popup width: content width clamped between the minimum and maximum.
pub open spec fn popup_width_spec(items: Seq<ItemView>, cols: Option<u16>) -> nat {
    let w = content_width(items.take(visible_count(items.len()) as int));
    if w < MIN_POPUP_WIDTH {
        MIN_POPUP_WIDTH as nat
    } else if w > max_width_for(cols) {
        max_width_for(cols)
    } else {
        w
    }
}

/// Start of every popup line: newline, carriage return, clear line.
pub open spec fn line_start() -> Seq<char> {
    seq!['\n', '\r', '\x1b', '[', '2', 'K']
}

pub open spec fn hide_cursor() -> Seq<char> {
    seq!['\x1b', '[', '?', '2', '5', 'l']
}

pub open spec fn show_cursor() -> Seq<char> {
    seq!['\x1b', '[', '?', '2', '5', 'h']
}

pub open spec fn reset_all() -> Seq<char> {
    seq!['\x1b', '[', '0', 'm']
}

/// Relative movement up `n` lines, then to the first column.
pub open spec fn cursor_up(n: nat) -> Seq<char> {
    seq!['\x1b', '['] + decimal(n) + seq!['A', '\r']
}

/// Text drawn in the given colors, colors reset after it.
pub open spec fn colored(p: PaletteView, fg: Seq<char>, bg: Seq<char>, text: Seq<char>) -> Seq<char> {
    fg + bg + text + p.fg_reset + p.bg_reset
}

/// One character of a name, in bold match color when it matched.
pub open spec fn name_char(p: PaletteView, ch: char, hit: bool, bg: Seq<char>) -> Seq<char> {
    if hit {
        p.match_fg + bg + p.bold + seq![ch] + p.attr_reset + p.bg_reset
    } else {
        p.text_fg + bg + seq![ch]
    }
}

/// A name with its matched characters highlighted.
pub open spec fn name_highlighted(p: PaletteView, name: Seq<char>, indices: Seq<u32>, bg: Seq<char>) -> Seq<char>
    decreases name.len(),
{
    if name.len() == 0 {
        seq![]
    } else {
        name_highlighted(p, name.drop_last(), indices, bg) + name_char(
            p,
            name.last(),
            indices.contains((name.len() - 1) as u32),
            bg,
        )
    }
}

/// The filler after the name: padded description, or blanks.
pub open spec fn row_tail(p: PaletteView, it: ItemView, bg: Seq<char>, remaining: nat) -> Seq<char> {
    if it.description.len() > 0 && remaining > 5 {
        let desc = truncate_spec(it.description, sat_sub(remaining as int, 3));
        let pad = sat_sub(sat_sub(remaining as int, desc.len() as int) as int, 3);
        colored(p, p.desc_fg, bg, repeat_char(' ', pad) + seq![' '] + desc + seq![' '])
    } else {
        colored(p, p.text_fg, bg, repeat_char(' ', remaining))
    }
}

/// The line of the item at position `i`.
pub open spec fn row_spec(p: PaletteView, it: ItemView, i: int, selected: usize, width: nat) -> Seq<char> {
    let bg = if i == selected {
        p.selected_bg
    } else {
        p.popup_bg
    };
    let icon_color = if it.is_dangerous {
        p.danger_fg
    } else {
        p.kind_fg
    };
    let name = truncate_spec(it.display, sat_sub(width as int, 4));
    let remaining = sat_sub(width as int, (2 + name.len()) as int);
    line_start() + colored(p, icon_color, bg, seq![kind_icon_ascii_spec(it.kind), ' '])
        + name_highlighted(p, name, it.match_indices, bg) + row_tail(p, it, bg, remaining)
}

/// The lines of the given items.
pub open spec fn rows_spec(p: PaletteView, items: Seq<ItemView>, selected: usize, width: nat) -> Seq<char>
    decreases items.len(),
{
    if items.len() == 0 {
        seq![]
    } else {
        rows_spec(p, items.drop_last(), selected, width) + row_spec(
            p,
            items.last(),
            items.len() - 1,
            selected,
            width,
        )
    }
}

/// The ` shown/total ` indicator when not all items fit.
pub open spec fn count_text(total: nat) -> Seq<char> {
    if total > MAX_VISIBLE_ITEMS {
        seq![' '] + decimal(MAX_VISIBLE_ITEMS as nat) + seq!['/'] + decimal(total) + seq![' ']
    } else {
        seq![]
    }
}

/// The popup drawn from the hidden cursor down to its bottom border.
pub open spec fn popup_body(p: PaletteView, items: Seq<ItemView>, selected: usize, cols: Option<u16>) -> Seq<char> {
    let width = popup_width_spec(items, cols);
    let visible = items.take(visible_count(items.len()) as int);
    let count = count_text(items.len());
    hide_cursor() + line_start() + colored(p, p.border_fg, p.popup_bg, repeat_char('\u{2500}', width))
        + rows_spec(p, visible, selected, width) + line_start() + colored(
        p,
        p.border_fg,
        p.popup_bg,
        repeat_char('\u{2500}', sat_sub(width as int, count.len() as int)) + count,
    ) + reset_all()
}

/// The rendered popup: `None` for no items; else the body, a movement back
/// up over all its lines, and the cursor shown again.
pub open spec fn popup_spec(p: PaletteView, items: Seq<ItemView>, selected: usize, cols: Option<u16>) -> Option<Seq<char>> {
    if items.len() == 0 {
        None
    } else {
        Some(popup_body(p, items, selected, cols) + cursor_up(visible_count(items.len()) + 2)
            + show_cursor())
    }
}

/// The popup drawn over a previous one of `prev_lines` items: the extra
/// lines of the previous popup are cleared too.
pub open spec fn popup_inplace_spec(
    p: PaletteView,
    items: Seq<ItemView>,
    selected: usize,
    cols: Option<u16>,
    prev_lines: usize,
) -> Option<Seq<char>> {
    if items.len() == 0 {
        None
    } else if prev_lines == 0 {
        popup_spec(p, items, selected, cols)
    } else {
        let n = visible_count(items.len());
        let extra = sat_sub(prev_lines as int, n as int);
        Some(popup_body(p, items, selected, cols) + repeat_lines(extra) + cursor_up(n + 2 + extra)
            + show_cursor())
    }
}

/// `k` cleared lines.
pub open spec fn repeat_lines(k: nat) -> Seq<char>
    decreases k,
{
    if k == 0 {
        seq![]
    } else {
        repeat_lines((k - 1) as nat) + line_start()
    }
}

/// The text that erases a popup of `num_lines` items.
pub open spec fn erase_spec(num_lines: nat) -> Seq<char> {
    repeat_lines(num_lines + 2) + cursor_up(num_lines + 2)
}


// ---------------------------------------------------------------------
// Rendering
// ---------------------------------------------------------------------

pub open spec fn opt_text_view(o: Option<String>) -> Option<Seq<char>> {
    match o {
        Some(s) => Some(s@),
        None => None,
    }
}

/// Cut `s` to at most `max_len` characters, ending in an ellipsis when cut.
pub fn truncate(s: &str, max_len: usize) -> (r: String)
    ensures
        r@ == truncate_spec(s@, max_len as nat),
{
    let cs = chars_of(s);
    if cs.len() <= max_len {
        owned(s)
    } else if max_len > 1 {
        let mut t = string_of(&cs.as_slice()[0..max_len - 1]);
        assert(cs@.subrange(0, max_len - 1) =~= s@.take(max_len - 1));
        push_char(&mut t, '\u{2026}');
        t
    } else {
        empty_string()
    }
}

fn push_colored(out: &mut String, p: &Palette, fg: &String, bg: &String, text: &str)
    ensures
        final(out)@ == old(out)@ + colored(p@, fg@, bg@, text@),
{
    push_str(out, fg.as_str());
    push_str(out, bg.as_str());
    push_str(out, text);
    push_str(out, p.fg_reset.as_str());
    push_str(out, p.bg_reset.as_str());
    assert(out@ =~= old(out)@ + colored(p@, fg@, bg@, text@));
}

proof fn lemma_push_contains(s: Seq<u32>, x: u32, y: u32)
    ensures
        s.push(x).contains(y) <==> (s.contains(y) || y == x),
{
    if s.push(x).contains(y) {
        let k = choose|k: int| 0 <= k < s.push(x).len() && #[trigger] s.push(x)[k] == y;
        if k < s.len() {
            assert(s[k] == y);
        }
    }
    if s.contains(y) {
        let k = choose|k: int| 0 <= k < s.len() && #[trigger] s[k] == y;
        assert(s.push(x)[k] == y);
    }
    if y == x {
        assert(s.push(x)[s.len() as int] == y);
    }
}

fn contains_u32(v: &Vec<u32>, x: u32) -> (r: bool)
    ensures
        r == v@.contains(x),
{
    let mut i: usize = 0;
    while i < v.len()
        invariant
            i <= v@.len(),
            forall|k: int| 0 <= k < i ==> v@[k] != x,
        decreases v.len() - i,
    {
        if v[i] == x {
            return true;
        }
        i += 1;
    }
    false
}

/// The indices below `count`, in order.
fn clamp_indices(indices: &Vec<u32>, count: u32) -> (r: Vec<u32>)
    ensures
        forall|x: u32| r@.contains(x) <==> (indices@.contains(x) && x < count),
{
    let mut r: Vec<u32> = Vec::new();
    let mut i: usize = 0;
    while i < indices.len()
        invariant
            i <= indices@.len(),
            forall|x: u32| r@.contains(x) <==> (indices@.take(i as int).contains(x) && x < count),
        decreases indices.len() - i,
    {
        let ghost old_r = r@;
        let x = indices[i];
        if x < count {
            r.push(x);
        }
        proof {
            let t0 = indices@.take(i as int);
            let t1 = indices@.take(i + 1);
            assert(t1 =~= t0.push(x));
            assert forall|y: u32| r@.contains(y) <==> (t1.contains(y) && y < count) by {
                lemma_push_contains(t0, x, y);
                if x < count {
                    lemma_push_contains(old_r, x, y);
                } else {
                    assert(r@ == old_r);
                }
            }
        }
        i += 1;
    }
    assert(indices@.take(indices@.len() as int) =~= indices@);
    r
}

fn push_name_highlighted(out: &mut String, p: &Palette, name: &Vec<char>, clamped: &Vec<u32>, indices: Ghost<Seq<u32>>, bg: &String)
    requires
        name@.len() < 0x1_0000_0000,
        forall|x: u32| clamped@.contains(x) <==> (indices@.contains(x) && x < name@.len()),
    ensures
        final(out)@ == old(out)@ + name_highlighted(p@, name@, indices@, bg@),
{
    let mut i: usize = 0;
    assert(name@.take(0) =~= Seq::<char>::empty());
    while i < name.len()
        invariant
            i <= name@.len() < 0x1_0000_0000,
            forall|x: u32| clamped@.contains(x) <==> (indices@.contains(x) && x < name@.len()),
            out@ == old(out)@ + name_highlighted(p@, name@.take(i as int), indices@, bg@),
        decreases name.len() - i,
    {
        let ch = name[i];
        let is_match = contains_u32(clamped, i as u32);
        let ghost before = out@;
        if is_match {
            push_str(out, p.match_fg.as_str());
            push_str(out, bg.as_str());
            push_str(out, p.bold.as_str());
            push_char(out, ch);
            push_str(out, p.attr_reset.as_str());
            push_str(out, p.bg_reset.as_str());
        } else {
            push_str(out, p.text_fg.as_str());
            push_str(out, bg.as_str());
            push_char(out, ch);
        }
        proof {
            let t = name@.take(i + 1);
            assert(t.drop_last() =~= name@.take(i as int));
            assert(t.last() == ch);
            assert(((t.len() - 1) as u32) == i as u32);
            assert(is_match == indices@.contains(i as u32));
            assert(out@ =~= before + name_char(p@, ch, is_match, bg@));
        }
        i += 1;
    }
    assert(name@.take(name@.len() as int) =~= name@);
}

fn push_row_tail(out: &mut String, p: &Palette, item: &CompletionItem, bg: &String, remaining: usize)
    ensures
        final(out)@ == old(out)@ + row_tail(p@, item@, bg@, remaining as nat),
{
    let desc_empty = item.description.as_str().is_empty();
    if !desc_empty && remaining > 5 {
        let desc = truncate(item.description.as_str(), remaining - 3);
        let desc_len = chars_of(desc.as_str()).len();
        let pad = if remaining > desc_len + 3 { remaining - desc_len - 3 } else { 0 };
        let mut text = empty_string();
        push_repeated(&mut text, ' ', pad);
        push_char(&mut text, ' ');
        push_str(&mut text, desc.as_str());
        push_char(&mut text, ' ');
        assert(text@ =~= repeat_char(' ', pad as nat) + seq![' '] + desc@ + seq![' ']);
        push_colored(out, p, &p.desc_fg, bg, text.as_str());
    } else {
        let mut text = empty_string();
        push_repeated(&mut text, ' ', remaining);
        assert(text@ =~= repeat_char(' ', remaining as nat));
        push_colored(out, p, &p.text_fg, bg, text.as_str());
    }
}

fn push_icon(out: &mut String, p: &Palette, item: &CompletionItem, bg: &String)
    ensures
        final(out)@ == old(out)@ + colored(
            p@,
            if item.is_dangerous { p@.danger_fg } else { p@.kind_fg },
            bg@,
            seq![kind_icon_ascii_spec(item.kind), ' '],
        ),
{
    let icon = kind_icon_ascii(item.kind);
    let icon_color = if item.is_dangerous {
        &p.danger_fg
    } else {
        &p.kind_fg
    };
    let mut icon_text = empty_string();
    push_char(&mut icon_text, icon);
    push_char(&mut icon_text, ' ');
    assert(icon_text@ =~= seq![kind_icon_ascii_spec(item.kind), ' ']);
    push_colored(out, p, icon_color, bg, icon_text.as_str());
}

fn push_row(out: &mut String, p: &Palette, item: &CompletionItem, i: usize, selected: usize, width: usize)
    requires
        width <= MAX_POPUP_WIDTH,
    ensures
        final(out)@ == old(out)@ + row_spec(p@, item@, i as int, selected, width as nat),
{
    let ghost start = out@;
    let bg = if i == selected {
        &p.selected_bg
    } else {
        &p.popup_bg
    };
    push_line_start(out);
    let ghost s1 = out@;
    push_icon(out, p, item, bg);
    let ghost s2 = out@;
    let name_w = if width >= 4 { width - 4 } else { 0 };
    let name_display = truncate(item.display.as_str(), name_w);
    let name_chars = chars_of(name_display.as_str());
    let count = name_chars.len();
    let clamped = clamp_indices(&item.match_indices, count as u32);
    push_name_highlighted(out, p, &name_chars, &clamped, Ghost(item.match_indices@), bg);
    let ghost s3 = out@;
    let used = 2 + count;
    let remaining = if width > used { width - used } else { 0 };
    push_row_tail(out, p, item, bg, remaining);
    assert(out@ =~= start + row_spec(p@, item@, i as int, selected, width as nat));
}

/// The largest wanted width, capped at one more than the widest popup.
fn capped_content_width(items: &[CompletionItem], n: usize) -> (w: usize)
    requires
        n <= items@.len(),
    ensures
        w == min_nat(content_width(item_views(items@).take(n as int)), MAX_POPUP_WIDTH as nat + 1),
{
    let cap: usize = MAX_POPUP_WIDTH + 1;
    let mut w: usize = 0;
    let mut k: usize = 0;
    assert(item_views(items@).take(0) =~= Seq::<ItemView>::empty());
    while k < n
        invariant
            k <= n <= items@.len(),
            cap == MAX_POPUP_WIDTH + 1,
            w == min_nat(content_width(item_views(items@).take(k as int)), cap as nat),
        decreases n - k,
    {
        let item = &items[k];
        let name_w = chars_of(item.display.as_str()).len();
        let dlen = chars_of(item.description.as_str()).len();
        let desc_w: usize = if dlen == 0 {
            0
        } else if dlen < 30 {
            dlen + 2
        } else {
            32
        };
        let iw = if name_w >= cap {
            cap
        } else {
            let t = 2 + name_w + desc_w;
            if t > cap { cap } else { t }
        };
        if iw > w {
            w = iw;
        }
        proof {
            let t = item_views(items@).take(k + 1);
            assert(t.drop_last() =~= item_views(items@).take(k as int));
            assert(t.last() == item@);
        }
        k += 1;
    }
    w
}

fn push_line_start(out: &mut String)
    ensures
        final(out)@ == old(out)@ + line_start(),
{
    push_str(out, "\n\r\x1b[2K");
    proof {
        reveal_strlit("\n\r\x1b[2K");
    }
    assert(out@ =~= old(out)@ + line_start());
}

fn push_cursor_up(out: &mut String, n: usize)
    ensures
        final(out)@ == old(out)@ + cursor_up(n as nat),
{
    push_str(out, "\x1b[");
    let d = decimal_string(n as u64);
    push_str(out, d.as_str());
    push_str(out, "A\r");
    proof {
        reveal_strlit("\x1b[");
        reveal_strlit("A\r");
    }
    assert(out@ =~= old(out)@ + cursor_up(n as nat));
}

/// The ` shown/total ` indicator.
fn count_string(total: usize) -> (r: String)
    ensures
        r@ == count_text(total as nat),
{
    let mut count_str = empty_string();
    if total > MAX_VISIBLE_ITEMS {
        push_char(&mut count_str, ' ');
        let a = decimal_string(MAX_VISIBLE_ITEMS as u64);
        push_str(&mut count_str, a.as_str());
        push_char(&mut count_str, '/');
        let b = decimal_string(total as u64);
        push_str(&mut count_str, b.as_str());
        push_char(&mut count_str, ' ');
    }
    assert(count_str@ =~= count_text(total as nat));
    count_str
}

fn push_bottom(out: &mut String, p: &Palette, total: usize, popup_width: usize)
    ensures
        final(out)@ == old(out)@ + line_start() + colored(
            p@,
            p@.border_fg,
            p@.popup_bg,
            repeat_char('\u{2500}', sat_sub(popup_width as int, count_text(total as nat).len() as int))
                + count_text(total as nat),
        ),
{
    push_line_start(out);
    let count_str = count_string(total);
    let count_len = chars_of(count_str.as_str()).len();
    let border_len = if popup_width > count_len { popup_width - count_len } else { 0 };
    let mut bottom = empty_string();
    push_repeated(&mut bottom, '\u{2500}', border_len);
    push_str(&mut bottom, count_str.as_str());
    push_colored(out, p, &p.border_fg, &p.popup_bg, bottom.as_str());
    assert(out@ =~= old(out)@ + line_start() + colored(
            p@,
            p@.border_fg,
            p@.popup_bg,
            repeat_char('\u{2500}', sat_sub(popup_width as int, count_text(total as nat).len() as int))
                + count_text(total as nat),
        ));
}

fn popup_width_for(items: &[CompletionItem], terminal_cols: Option<u16>) -> (w: usize)
    requires
        cols_fit(terminal_cols),
    ensures
        w == popup_width_spec(item_views(items@), terminal_cols),
        MIN_POPUP_WIDTH <= w <= MAX_POPUP_WIDTH,
{
    let max_width: usize = match terminal_cols {
        Some(c) => {
            let c2 = if c >= 2 { c as usize - 2 } else { 0 };
            if c2 < MAX_POPUP_WIDTH { c2 } else { MAX_POPUP_WIDTH }
        },
        None => MAX_POPUP_WIDTH,
    };
    let visible = if items.len() < MAX_VISIBLE_ITEMS { items.len() } else { MAX_VISIBLE_ITEMS };
    let cw = capped_content_width(items, visible);
    if cw < MIN_POPUP_WIDTH {
        MIN_POPUP_WIDTH
    } else if cw > max_width {
        max_width
    } else {
        cw
    }
}

fn render_body(items: &[CompletionItem], selected: usize, p: &Palette, terminal_cols: Option<u16>) -> (r: String)
    requires
        items@.len() > 0,
        cols_fit(terminal_cols),
    ensures
        r@ == popup_body(p@, item_views(items@), selected, terminal_cols),
{
    let ghost iv = item_views(items@);
    let visible = if items.len() < MAX_VISIBLE_ITEMS { items.len() } else { MAX_VISIBLE_ITEMS };
    let popup_width = popup_width_for(items, terminal_cols);

    let mut out = empty_string();
    push_str(&mut out, "\x1b[?25l");
    push_line_start(&mut out);
    let mut border = empty_string();
    push_repeated(&mut border, '\u{2500}', popup_width);
    push_colored(&mut out, p, &p.border_fg, &p.popup_bg, border.as_str());
    let ghost head = out@;

    let mut i: usize = 0;
    assert(iv.take(visible as int).take(0) =~= Seq::<ItemView>::empty());
    while i < visible
        invariant
            i <= visible <= items@.len(),
            visible == visible_count(items@.len()),
            iv == item_views(items@),
            popup_width <= MAX_POPUP_WIDTH,
            out@ == head + rows_spec(p@, iv.take(visible as int).take(i as int), selected, popup_width as nat),
        decreases visible - i,
    {
        push_row(&mut out, p, &items[i], i, selected, popup_width);
        proof {
            let t = iv.take(visible as int).take(i + 1);
            assert(t.drop_last() =~= iv.take(visible as int).take(i as int));
            assert(t.last() == items@[i as int]@);
        }
        i += 1;
    }
    assert(iv.take(visible as int).take(visible as int) =~= iv.take(visible as int));

    let ghost s3 = out@;
    push_bottom(&mut out, p, items.len(), popup_width);
    let ghost s4 = out@;
    push_str(&mut out, "\x1b[0m");
    proof {
        reveal_strlit("\x1b[?25l");
        reveal_strlit("\x1b[0m");
        assert(out@ =~= popup_body(p@, iv, selected, terminal_cols));
    }
    out
}

/// Render the popup with the given escape sequences.
/// Returns `None` if `items` is empty.
pub fn render_popup_with_palette(
    items: &[CompletionItem],
    selected: usize,
    p: &Palette,
    terminal_cols: Option<u16>,
) -> (r: Option<String>)
    requires
        items@.len() > 0 ==> cols_fit(terminal_cols),
    ensures
        opt_text_view(r) == popup_spec(p@, item_views(items@), selected, terminal_cols),
{
    if items.len() == 0 {
        return None;
    }
    let mut out = render_body(items, selected, p, terminal_cols);
    let visible = if items.len() < MAX_VISIBLE_ITEMS { items.len() } else { MAX_VISIBLE_ITEMS };
    push_cursor_up(&mut out, visible + 2);
    push_str(&mut out, "\x1b[?25h");
    proof {
        reveal_strlit("\x1b[?25h");
    }
    assert(out@ =~= popup_spec(p@, item_views(items@), selected, terminal_cols).unwrap());
    Some(out)
}

/// Render the completion popup as an ANSI string.
/// Returns `None` if `items` is empty.
pub fn render_popup(
    items: &[CompletionItem],
    selected: usize,
    _query: &str,
    theme: &Theme,
    terminal_cols: Option<u16>,
) -> (r: Option<String>)
    requires
        items@.len() > 0 ==> cols_fit(terminal_cols),
    ensures
        exists|p: PaletteView|
            palette_of(p, *theme) && opt_text_view(r) == popup_spec(p, item_views(items@), selected, terminal_cols),
{
    let p = palette_for(theme);
    render_popup_with_palette(items, selected, &p, terminal_cols)
}

/// Whether a terminal of `terminal_cols` columns (unknown: `None`) is
/// wide enough for the popup's minimum width.
pub fn fits_terminal(terminal_cols: Option<u16>) -> (r: bool)
    ensures
        r == cols_fit(terminal_cols),
{
    let max = match terminal_cols {
        Some(c) => {
            let w: usize = if c >= 2 { (c - 2) as usize } else { 0 };
            if w < MAX_POPUP_WIDTH { w } else { MAX_POPUP_WIDTH }
        },
        None => MAX_POPUP_WIDTH,
    };
    max >= MIN_POPUP_WIDTH
}

/// Erase the popup area of `num_lines` items (plus its borders).
pub fn erase_popup(num_lines: usize) -> (r: String)
    requires
        num_lines <= usize::MAX - 2,
    ensures
        r@ == erase_spec(num_lines as nat),
{
    let mut out = empty_string();
    let mut i: usize = 0;
    assert(out@ =~= repeat_lines(0));
    while i < num_lines + 2
        invariant
            num_lines <= usize::MAX - 2,
            i <= num_lines + 2,
            out@ == repeat_lines(i as nat),
        decreases num_lines + 2 - i,
    {
        push_line_start(&mut out);
        i += 1;
    }
    push_cursor_up(&mut out, num_lines + 2);
    out
}

/// Render popup over a previous popup of `prev_lines` items, clearing the
/// lines of the previous popup that the new one does not cover.
pub fn render_popup_inplace(
    items: &[CompletionItem],
    selected: usize,
    query: &str,
    theme: &Theme,
    terminal_cols: Option<u16>,
    prev_lines: usize,
) -> (r: Option<String>)
    requires
        items@.len() > 0 ==> cols_fit(terminal_cols),
        prev_lines <= usize::MAX - 2,
    ensures
        exists|p: PaletteView|
            palette_of(p, *theme) && opt_text_view(r) == popup_inplace_spec(
                p,
                item_views(items@),
                selected,
                terminal_cols,
                prev_lines,
            ),
{
    let p = palette_for(theme);
    if items.len() == 0 {
        return None;
    }
    if prev_lines == 0 {
        return render_popup_with_palette(items, selected, &p, terminal_cols);
    }
    let new_lines = if items.len() < MAX_VISIBLE_ITEMS { items.len() } else { MAX_VISIBLE_ITEMS };
    let mut out = render_body(items, selected, &p, terminal_cols);
    let ghost body = out@;
    let extra = if prev_lines > new_lines { prev_lines - new_lines } else { 0 };
    let mut k: usize = 0;
    assert(repeat_lines(0) =~= Seq::<char>::empty());
    while k < extra
        invariant
            k <= extra,
            out@ == body + repeat_lines(k as nat),
        decreases extra - k,
    {
        push_line_start(&mut out);
        assert(body + repeat_lines((k + 1) as nat) =~= body + repeat_lines(k as nat) + line_start());
        k += 1;
    }
    push_cursor_up(&mut out, new_lines + 2 + extra);
    push_str(&mut out, "\x1b[?25h");
    proof {
        reveal_strlit("\x1b[?25h");
    }
    assert(out@ =~= popup_inplace_spec(p@, item_views(items@), selected, terminal_cols, prev_lines).unwrap());
    Some(out)
}

} // verus!

verus! {

/// A popup is drawn exactly when there are items; drawn over a previous
/// popup that was no taller, it is the same text as drawn afresh.
pub proof fn law_inplace_over_shorter(p: PaletteView, items: Seq<ItemView>, selected: usize, cols: Option<u16>, prev_lines: usize)
    requires
        prev_lines <= visible_count(items.len()),
    ensures
        popup_spec(p, items, selected, cols) is None <==> items.len() == 0,
        popup_inplace_spec(p, items, selected, cols, prev_lines) == popup_spec(p, items, selected, cols),
{
    if items.len() > 0 && prev_lines > 0 {
        let n = visible_count(items.len());
        assert(sat_sub(prev_lines as int, n as int) == 0);
        assert(repeat_lines(0) =~= Seq::<char>::empty());
        assert(popup_body(p, items, selected, cols) + repeat_lines(0) =~= popup_body(p, items, selected, cols));
    }
}

} // verus!
