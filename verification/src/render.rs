//! Drawing the explorer: a search prompt with the mode pinned to the right,
//! a rule, one line per visible row and an optional preview of the selected
//! row's full text.

use vstd::prelude::*;

use crate::filter::{mode_label, FilteredItem, SearchMode};
use crate::text::{chars_of, push_prefix, push_repeated, repeated};

verus! {

/// Colour of the selected row.
pub const SELECTED: &'static str = "\x1b[32m";

/// Colour of an unselected tab row.
pub const TAB_HEADER: &'static str = "\x1b[36m";

/// Colour of an unselected pane row.
pub const PANE_DIM: &'static str = "\x1b[90m";

/// Bold text, for the preview.
pub const BOLD: &'static str = "\x1b[1m";

/// Back to the default colours.
pub const RESET: &'static str = "\x1b[0m";

/// What one frame shows.
pub struct RenderContext<'a> {
    pub query: &'a str,
    pub items: &'a [FilteredItem],
    pub selection_index: usize,
    pub scroll_offset: usize,
    pub list_rows: usize,
    pub search_mode: &'a SearchMode,
    pub cols: usize,
    pub show_preview: bool,
}

/// `text` cut to fit `max_chars` characters: when it is longer, its first
/// `max_chars - 3` characters (none when `max_chars < 3`) followed by "...".
pub open spec fn truncated(text: Seq<char>, max_chars: usize) -> Seq<char> {
    if text.len() > max_chars {
        text.take(max_chars.saturating_sub(3) as int) + "..."@
    } else {
        text
    }
}

/// Cuts `text` to `max_chars` characters, marking the cut with "...".
pub fn truncate_with_ellipsis(text: &str, max_chars: usize) -> (r: String)
    ensures
        r@ == truncated(text@, max_chars),
{
    let chars = chars_of(text);
    if chars.len() > max_chars {
        let mut t = String::new();
        push_prefix(&mut t, &chars, max_chars.saturating_sub(3));
        t.append("...");
        t
    } else {
        String::from_str(text)
    }
}


/// The search prompt: "Find > ", the query and a cursor.
pub open spec fn prompt_text(query: Seq<char>) -> Seq<char> {
    "Find > "@ + query + "_"@
}

/// The mode indicator: the mode's label in brackets.
pub open spec fn mode_text(mode: SearchMode) -> Seq<char> {
    "["@ + mode_label(mode) + "]"@
}

/// The spaces between prompt and mode indicator: what fills the line to
/// `cols` characters, or a single space when prompt and indicator do not fit.
pub open spec fn padding_width(prompt: Seq<char>, mode: Seq<char>, cols: usize) -> nat {
    if cols > prompt.len() + mode.len() {
        (cols - prompt.len() - mode.len()) as nat
    } else {
        1
    }
}

/// The first line: prompt on the left, mode indicator on the right.
pub open spec fn header_line(query: Seq<char>, mode: SearchMode, cols: usize) -> Seq<char> {
    let prompt = prompt_text(query);
    let indicator = mode_text(mode);
    prompt + repeated(' ', padding_width(prompt, indicator, cols)) + indicator + "\n"@
}

/// A horizontal rule as wide as the terminal (at least one character).
pub open spec fn rule_line(cols: usize) -> Seq<char> {
    repeated('─', if cols > 0 { cols as nat } else { 1 }) + "\n"@
}

/// The line of one row: a tab at the margin in cyan, a pane indented in
/// gray, the selected row marked with "> " in green; names cut to the width.
pub open spec fn row_line(item: FilteredItem, selected: bool, cols: usize) -> Seq<char> {
    match item {
        FilteredItem::Tab(tab) => (if selected {
            "> "@ + SELECTED@
        } else {
            "  "@ + TAB_HEADER@
        }) + truncated(tab.name@, cols.saturating_sub(2)) + RESET@ + "\n"@,
        FilteredItem::Pane { pane, .. } => (if selected {
            "    > "@ + SELECTED@
        } else {
            "      "@ + PANE_DIM@
        }) + truncated(pane.title@, cols.saturating_sub(6)) + RESET@ + "\n"@,
    }
}

/// How many rows are drawn from `offset` on in a list of `rows` lines.
pub open spec fn visible_count(len: nat, offset: usize, rows: usize) -> nat {
    if offset >= len {
        0
    } else if rows < len - offset {
        rows as nat
    } else {
        (len - offset) as nat
    }
}

/// The lines of the `n` rows from `offset` on.
pub open spec fn row_lines(
    items: Seq<FilteredItem>,
    offset: usize,
    n: nat,
    selection: usize,
    cols: usize,
) -> Seq<char>
    decreases n,
{
    if n == 0 {
        Seq::empty()
    } else {
        let k = offset + n - 1;
        row_lines(items, offset, (n - 1) as nat, selection, cols) + row_line(
            items[k],
            k == selection,
            cols,
        )
    }
}

/// The full, uncut text of a row.
pub open spec fn full_text(item: FilteredItem) -> Seq<char> {
    match item {
        FilteredItem::Tab(tab) => "Tab: "@ + tab.name@,
        FilteredItem::Pane { pane, .. } => "Pane: "@ + pane.title@,
    }
}

/// The full text of the selected row when it is among the `count` rows drawn
/// from `offset` on, and nothing otherwise.
pub open spec fn selected_text(
    items: Seq<FilteredItem>,
    offset: usize,
    count: nat,
    selection: usize,
) -> Seq<char> {
    if offset <= selection < offset + count {
        full_text(items[selection as int])
    } else {
        Seq::empty()
    }
}

/// The preview box: a rule and the selected row's text in bold, cut to two
/// lines' worth of characters.
pub open spec fn preview_lines(text: Seq<char>, cols: usize) -> Seq<char> {
    rule_line(cols) + "  "@ + BOLD@ + truncated(text, (cols.saturating_sub(2) * 2) as usize)
        + RESET@ + "\n"@
}

/// A preview limit of twice the usable width is a `usize`.
pub open spec fn preview_fits(cols: usize) -> bool {
    cols.saturating_sub(2) * 2 <= usize::MAX
}

/// The whole frame.
pub open spec fn frame(
    query: Seq<char>,
    items: Seq<FilteredItem>,
    selection: usize,
    offset: usize,
    rows: usize,
    mode: SearchMode,
    cols: usize,
    show_preview: bool,
) -> Seq<char> {
    let count = visible_count(items.len(), offset, rows);
    header_line(query, mode, cols) + rule_line(cols) + row_lines(
        items,
        offset,
        count,
        selection,
        cols,
    ) + if show_preview {
        preview_lines(selected_text(items, offset, count, selection), cols)
    } else {
        Seq::empty()
    }
}

/// The frame that a render context describes.
pub open spec fn context_frame(ctx: RenderContext) -> Seq<char> {
    frame(
        ctx.query@,
        ctx.items@,
        ctx.selection_index,
        ctx.scroll_offset,
        ctx.list_rows,
        *ctx.search_mode,
        ctx.cols,
        ctx.show_preview,
    )
}

fn push_rule(out: &mut String, cols: usize)
    ensures
        final(out)@ == old(out)@ + rule_line(cols),
{
    let width: usize = if cols > 0 {
        cols
    } else {
        1
    };
    push_repeated(out, '─', width);
    out.append("\n");
}

fn push_row(out: &mut String, item: &FilteredItem, selected: bool, cols: usize)
    ensures
        final(out)@ == old(out)@ + row_line(*item, selected, cols),
{
    match item {
        FilteredItem::Tab(tab) => {
            let display_name = truncate_with_ellipsis(tab.name.as_str(), cols.saturating_sub(2));
            if selected {
                out.append("> ");
                out.append(SELECTED);
            } else {
                out.append("  ");
                out.append(TAB_HEADER);
            }
            out.append(display_name.as_str());
        },
        FilteredItem::Pane { pane, .. } => {
            let display_name = truncate_with_ellipsis(pane.title.as_str(), cols.saturating_sub(6));
            if selected {
                out.append("    > ");
                out.append(SELECTED);
            } else {
                out.append("      ");
                out.append(PANE_DIM);
            }
            out.append(display_name.as_str());
        },
    }
    out.append(RESET);
    out.append("\n");
}

fn row_full_text(item: &FilteredItem) -> (r: String)
    ensures
        r@ == full_text(*item),
{
    match item {
        FilteredItem::Tab(tab) => {
            let mut t = String::from_str("Tab: ");
            t.append(tab.name.as_str());
            t
        },
        FilteredItem::Pane { pane, .. } => {
            let mut t = String::from_str("Pane: ");
            t.append(pane.title.as_str());
            t
        },
    }
}

fn push_header(out: &mut String, query: &str, mode: &SearchMode, cols: usize)
    ensures
        final(out)@ == old(out)@ + header_line(query@, *mode, cols),
{
    let mut prompt = String::from_str("Find > ");
    prompt.append(query);
    prompt.append("_");
    let mut indicator = String::from_str("[");
    indicator.append(mode.label());
    indicator.append("]");
    let prompt_len: usize = chars_of(prompt.as_str()).len();
    let indicator_len: usize = chars_of(indicator.as_str()).len();
    let used: usize = prompt_len.saturating_add(indicator_len);
    let padding_len: usize = if cols > used {
        cols - used
    } else {
        1
    };
    assert(padding_len == padding_width(prompt@, indicator@, cols));
    out.append(prompt.as_str());
    push_repeated(out, ' ', padding_len);
    out.append(indicator.as_str());
    out.append("\n");
}

/// Draws one frame: the prompt line with the mode indicator pinned to the
/// right edge, a rule, the rows from `scroll_offset` on (at most
/// `list_rows` of them) and, when asked for, the preview of the selected
/// row's full text.
pub fn render(ctx: &RenderContext) -> (r: String)
    requires
        ctx.show_preview ==> preview_fits(ctx.cols),
    ensures
        r@ == context_frame(*ctx),
{
    let mut output = String::new();
    push_header(&mut output, ctx.query, ctx.search_mode, ctx.cols);
    push_rule(&mut output, ctx.cols);
    let ghost top = output@;

    let len: usize = ctx.items.len();
    let count: usize = if ctx.scroll_offset >= len {
        0
    } else if ctx.list_rows < len - ctx.scroll_offset {
        ctx.list_rows
    } else {
        len - ctx.scroll_offset
    };
    let mut selected_full_text = String::new();
    let mut i: usize = 0;
    while i < count
        invariant
            count == visible_count(ctx.items@.len(), ctx.scroll_offset, ctx.list_rows),
            len == ctx.items@.len(),
            i <= count,
            output@ == top + row_lines(
                ctx.items@,
                ctx.scroll_offset,
                i as nat,
                ctx.selection_index,
                ctx.cols,
            ),
            selected_full_text@ == selected_text(
                ctx.items@,
                ctx.scroll_offset,
                i as nat,
                ctx.selection_index,
            ),
        decreases count - i,
    {
        let actual_idx: usize = i + ctx.scroll_offset;
        let is_selected = actual_idx == ctx.selection_index;
        let item = &ctx.items[actual_idx];
        if is_selected {
            selected_full_text = row_full_text(item);
        }
        push_row(&mut output, item, is_selected, ctx.cols);
        i += 1;
    }

    if ctx.show_preview {
        let limit: usize = ctx.cols.saturating_sub(2) * 2;
        let display_preview = truncate_with_ellipsis(selected_full_text.as_str(), limit);
        push_rule(&mut output, ctx.cols);
        output.append("  ");
        output.append(BOLD);
        output.append(display_preview.as_str());
        output.append(RESET);
        output.append("\n");
    }
    output
}


/// A cut name fits: it is never longer than `max_chars` when `max_chars` is
/// at least 3, a text that fits is kept whole, and a cut text keeps the
/// beginning of the original and ends in "...".
pub proof fn lemma_truncated_fits(text: Seq<char>, max_chars: usize)
    ensures
        max_chars >= 3 ==> truncated(text, max_chars).len() <= max_chars,
        text.len() <= max_chars ==> truncated(text, max_chars) == text,
        text.len() > max_chars ==> {
            let cut = truncated(text, max_chars);
            let kept = max_chars.saturating_sub(3) as int;
            &&& cut.len() == kept + 3
            &&& cut.take(kept) == text.take(kept)
            &&& cut.skip(kept) == seq!['.', '.', '.']
        },
{
    reveal_strlit("...");
    if text.len() > max_chars {
        let kept = max_chars.saturating_sub(3) as int;
        let cut = truncated(text, max_chars);
        assert(cut.take(kept) =~= text.take(kept));
        assert(cut.skip(kept) =~= seq!['.', '.', '.']);
    }
}

/// The mode indicator is pinned to the right edge: when prompt and indicator
/// fit in `cols` characters, the first line (without its line break) is
/// exactly `cols` characters long, starts with the prompt and ends with the
/// indicator, whatever the query.
pub proof fn lemma_header_pins_mode(query: Seq<char>, mode: SearchMode, cols: usize)
    ensures
        ({
            let line = header_line(query, mode, cols);
            let prompt = prompt_text(query);
            let indicator = mode_text(mode);
            &&& line.take(prompt.len() as int) == prompt
            &&& line.drop_last().skip(line.len() - 1 - indicator.len()) == indicator
            &&& line.last() == '\n'
            &&& cols > prompt.len() + indicator.len() ==> line.drop_last().len() == cols
        }),
{
    reveal_strlit("\n");
    let line = header_line(query, mode, cols);
    let prompt = prompt_text(query);
    let indicator = mode_text(mode);
    let spaces = repeated(' ', padding_width(prompt, indicator, cols));
    assert(line.drop_last() =~= prompt + spaces + indicator);
    assert(line.take(prompt.len() as int) =~= prompt);
    assert(line.drop_last().skip(line.len() - 1 - indicator.len()) =~= indicator);
}


/// The marker that starts a row's line: the selection arrow or blanks,
/// indented further for panes.
pub open spec fn row_marker(item: FilteredItem, selected: bool) -> Seq<char> {
    match item {
        FilteredItem::Tab(_) => if selected {
            "> "@
        } else {
            "  "@
        },
        FilteredItem::Pane { .. } => if selected {
            "    > "@
        } else {
            "      "@
        },
    }
}

/// The colour a row's line is drawn in.
pub open spec fn row_colour(item: FilteredItem, selected: bool) -> Seq<char> {
    if selected {
        SELECTED@
    } else {
        match item {
            FilteredItem::Tab(_) => TAB_HEADER@,
            FilteredItem::Pane { .. } => PANE_DIM@,
        }
    }
}

/// The (possibly cut) name shown on a row's line.
pub open spec fn row_label(item: FilteredItem, cols: usize) -> Seq<char> {
    match item {
        FilteredItem::Tab(tab) => truncated(tab.name@, cols.saturating_sub(2)),
        FilteredItem::Pane { pane, .. } => truncated(pane.title@, cols.saturating_sub(6)),
    }
}

/// Each row takes one terminal line: its line is the marker, the colour, the
/// label, the colour reset and one line break, and when the terminal is at
/// least 9 columns wide the visible part (marker and label, colour codes
/// aside) fits in `cols` characters.
pub proof fn lemma_row_fits_one_line(item: FilteredItem, selected: bool, cols: usize)
    ensures
        row_line(item, selected, cols) == row_marker(item, selected) + row_colour(item, selected)
            + row_label(item, cols) + RESET@ + "\n"@,
        cols >= 9 ==> row_marker(item, selected).len() + row_label(item, cols).len() <= cols,
{
    reveal_strlit("> ");
    reveal_strlit("  ");
    reveal_strlit("    > ");
    reveal_strlit("      ");
    match item {
        FilteredItem::Tab(tab) => lemma_truncated_fits(tab.name@, cols.saturating_sub(2)),
        FilteredItem::Pane { pane, .. } => lemma_truncated_fits(
            pane.title@,
            cols.saturating_sub(6),
        ),
    }
}

} // verus!
