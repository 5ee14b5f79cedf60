//! The single source of truth for how keybindings are *presented*: the help
//! overlay and the status-line hints both render from here, so the two
//! cannot drift from each other.

use vstd::prelude::*;

verus! {

/// One thematic section of the help overlay: a title and its `(keys, desc)` rows.
pub struct HelpSection {
    pub title: &'static str,
    pub rows: Vec<(&'static str, &'static str)>,
}

fn section(title: &'static str, rows: Vec<(&'static str, &'static str)>) -> (s: HelpSection)
    ensures
        s.title == title,
        s.rows@ == rows@,
{
    HelpSection { title, rows }
}

/// Left column of the help overlay.
pub fn help_left() -> (v: Vec<HelpSection>)
    ensures
        v@.len() == 2,
        v@[0].rows@.len() == 9,
        v@[1].rows@.len() == 9,
{
    vec![
        section(
            "Move",
            vec![
                ("j / k  ↑↓", "move cursor · ⇧ scrolls"),
                ("PgDn / PgUp", "page down / up"),
                ("Ctrl-f / b", "half-page down / up"),
                ("[ / ]", "prev / next hunk"),
                ("{ / }", "prev / next file"),
                ("Space / ⇧Spc", "next / prev file"),
                ("g / G", "top / bottom"),
                ("h / l  ←→", "pan 1 col · ⇧ fast"),
                ("1–9", "jump to file"),
            ],
        ),
        section(
            "View",
            vec![
                ("Tab", "switch focus"),
                ("s", "show/hide sidebar"),
                ("m", "cycle layout"),
                ("t", "theme picker"),
                ("w", "line wrap"),
                ("D", "group by dir"),
                ("z / Z", "fold dir / all"),
                ("?", "this help"),
                ("q", "quit"),
            ],
        ),
    ]
}

/// Right column of the help overlay.
pub fn help_right() -> (v: Vec<HelpSection>)
    ensures
        v@.len() == 3,
        v@[0].rows@.len() == 6,
        v@[1].rows@.len() == 7,
        v@[2].rows@.len() == 5,
{
    vec![
        section(
            "Commits & history",
            vec![
                ("c", "pick a commit"),
                ("Tab", "read msg (in picker)"),
                ("F", "file history"),
                ("< / >", "view back / fwd"),
                ("C", "back to local"),
                ("/ or f", "fuzzy file jump"),
            ],
        ),
        section(
            "Review",
            vec![
                ("v", "toggle reviewed"),
                ("u", "next unreviewed"),
                ("R", "review commit"),
                ("a / A", "comment line / review"),
                ("n", "list comments"),
                ("e / x / o", "edit / retract / resolve"),
                ("y", "submit the round"),
            ],
        ),
        section(
            "File peek",
            vec![
                ("p", "preview file"),
                ("b", "blame file"),
                ("=", "diff (full)"),
                ("Tab =/-", "mode · full/compact"),
                ("Enter", "blame → commit msg"),
            ],
        ),
    ]
}

/// The rendered rows one section takes: its title, its rows, and a blank
/// line before it unless it is the first.
pub open spec fn section_rows(i: int, n: int) -> int {
    (if i > 0 {
        1int
    } else {
        0
    }) + 1 + n
}

/// The rendered rows of the first `k` sections.
pub open spec fn spec_column_rows(sizes: Seq<int>, k: int) -> int
    decreases k,
{
    if k <= 0 {
        0
    } else {
        spec_column_rows(sizes, k - 1) + section_rows(k - 1, sizes[k - 1])
    }
}

/// The row counts of a column's sections.
pub open spec fn section_sizes(sections: Seq<HelpSection>) -> Seq<int> {
    sections.map_values(|s: HelpSection| s.rows@.len() as int)
}

proof fn lemma_column_rows_mono(sizes: Seq<int>, k: int)
    requires
        0 <= k <= sizes.len(),
        forall|i: int| 0 <= i < sizes.len() ==> sizes[i] >= 0,
    ensures
        forall|j: int| 0 <= j <= k ==> #[trigger] spec_column_rows(sizes, j) <= spec_column_rows(sizes, k),
    decreases k,
{
    if k > 0 {
        lemma_column_rows_mono(sizes, k - 1);
    }
}

/// How many rendered rows a help column needs: a title and its rows per
/// section, plus a blank line between sections.
pub fn help_column_rows(sections: &[HelpSection]) -> (n: usize)
    requires
        spec_column_rows(section_sizes(sections@), sections@.len() as int) <= usize::MAX,
    ensures
        n == spec_column_rows(section_sizes(sections@), sections@.len() as int),
{
    let ghost sizes = section_sizes(sections@);
    proof {
        lemma_column_rows_mono(sizes, sizes.len() as int);
    }
    let mut n: usize = 0;
    let mut i: usize = 0;
    while i < sections.len()
        invariant
            i <= sections@.len(),
            sizes == section_sizes(sections@),
            n == spec_column_rows(sizes, i as int),
            forall|j: int| 0 <= j <= sizes.len() ==> #[trigger] spec_column_rows(sizes, j) <= spec_column_rows(
                sizes,
                sizes.len() as int,
            ),
            spec_column_rows(sizes, sizes.len() as int) <= usize::MAX,
        decreases sections@.len() - i,
    {
        assert(spec_column_rows(sizes, i + 1) <= usize::MAX);
        n = n + if i > 0 {
            1
        } else {
            0
        } + 1 + sections[i].rows.len();
        i = i + 1;
    }
    n
}

/// One displayable key binding: a key label and what it does. Prose-only
/// hints use an empty `key`.
#[derive(Clone, Copy)]
pub struct Binding {
    pub key: &'static str,
    pub desc: &'static str,
}

/// Brief constructor for the binding tables.
pub fn b(key: &'static str, desc: &'static str) -> (r: Binding)
    ensures
        r.key == key,
        r.desc == desc,
{
    Binding { key, desc }
}

/// The status-line hint tables, one per input context.
#[derive(Clone, Copy, PartialEq, Eq, Debug, Structural)]
pub enum HintTable {
    Stream,
    Sidebar,
    PeekDiff,
    PeekContent,
    PeekBlame,
    CommitMsg,
    Comment,
    Threads,
    SubmitPick,
    SubmitEdit,
    PaletteFile,
    PaletteCommit,
    Theme,
}

/// The bindings each hint table shows.
pub open spec fn spec_table(t: HintTable) -> Seq<Binding> {
    match t {
        HintTable::Stream => seq![Binding { key: "jk", desc: "cursor" }, Binding { key: "[ ]", desc: "hunk" }, Binding { key: "{ }", desc: "file" }, Binding { key: "a", desc: "comment" }, Binding { key: "c", desc: "commits" }, Binding { key: "F", desc: "log" }, Binding { key: "< >", desc: "hist" }, Binding { key: "b", desc: "blame" }, Binding { key: "?", desc: "help" }, Binding { key: "q", desc: "quit" }],
        HintTable::Sidebar => seq![Binding { key: "↑↓", desc: "select" }, Binding { key: "v", desc: "viewed" }, Binding { key: "z", desc: "fold" }, Binding { key: "c", desc: "commits" }, Binding { key: "/", desc: "jump" }, Binding { key: "?", desc: "help" }, Binding { key: "q", desc: "quit" }],
        HintTable::PeekDiff => seq![Binding { key: "jk", desc: "scroll" }, Binding { key: "[ ]", desc: "hunk" }, Binding { key: "Tab", desc: "mode" }, Binding { key: "=/-", desc: "context" }, Binding { key: "m", desc: "split" }, Binding { key: "esc", desc: "close" }],
        HintTable::PeekContent => seq![Binding { key: "jk", desc: "scroll" }, Binding { key: "Tab", desc: "mode" }, Binding { key: "esc", desc: "close" }],
        HintTable::PeekBlame => seq![Binding { key: "jk", desc: "scroll" }, Binding { key: "Tab", desc: "mode" }, Binding { key: "Enter", desc: "commit msg" }, Binding { key: "esc", desc: "close" }],
        HintTable::CommitMsg => seq![Binding { key: "jk", desc: "scroll" }, Binding { key: "Enter", desc: "open commit" }, Binding { key: "Tab/esc", desc: "close" }],
        HintTable::Comment => seq![Binding { key: "Enter", desc: "save" }, Binding { key: "esc", desc: "discard" }],
        HintTable::Threads => seq![Binding { key: "jk", desc: "select" }, Binding { key: "Enter", desc: "jump" }, Binding { key: "e", desc: "edit" }, Binding { key: "x", desc: "retract" }, Binding { key: "o", desc: "resolve" }, Binding { key: "esc", desc: "close" }],
        HintTable::SubmitPick => seq![Binding { key: "jk", desc: "select" }, Binding { key: "Enter", desc: "edit text" }, Binding { key: "esc", desc: "cancel" }],
        HintTable::SubmitEdit => seq![Binding { key: "Enter", desc: "submit" }, Binding { key: "esc", desc: "back to presets" }],
        HintTable::PaletteFile => seq![Binding { key: "", desc: "type to filter" }, Binding { key: "↑↓", desc: "select" }, Binding { key: "Enter", desc: "jump" }, Binding { key: "Esc", desc: "cancel" }],
        HintTable::PaletteCommit => seq![Binding { key: "", desc: "type to filter" }, Binding { key: "↑↓", desc: "select" }, Binding { key: "Tab", desc: "msg" }, Binding { key: "1-9/Enter", desc: "pick" }, Binding { key: "Esc", desc: "cancel" }],
        HintTable::Theme => seq![Binding { key: "hjkl", desc: "move" }, Binding { key: "Tab", desc: "dark/light" }, Binding { key: "t", desc: "next" }, Binding { key: "Enter", desc: "apply" }, Binding { key: "q/Esc", desc: "close" }],
    }
}

/// The bindings of a hint table.
pub fn table(t: HintTable) -> (v: Vec<Binding>)
    ensures
        v@ == spec_table(t),
{
    match t {
        HintTable::Stream => bind_stream(),
        HintTable::Sidebar => bind_sidebar(),
        HintTable::PeekDiff => bind_peek_diff(),
        HintTable::PeekContent => bind_peek_content(),
        HintTable::PeekBlame => bind_peek_blame(),
        HintTable::CommitMsg => bind_commitmsg(),
        HintTable::Comment => bind_comment(),
        HintTable::Threads => bind_threads(),
        HintTable::SubmitPick => bind_submit_pick(),
        HintTable::SubmitEdit => bind_submit_edit(),
        HintTable::PaletteFile => bind_palette_file(),
        HintTable::PaletteCommit => bind_palette_commit(),
        HintTable::Theme => bind_theme(),
    }
}

/// Diff-stream focus.
pub fn bind_stream() -> (v: Vec<Binding>)
    ensures
        v@ == spec_table(HintTable::Stream),
{
    vec![
        b("jk", "cursor"),
        b("[ ]", "hunk"),
        b("{ }", "file"),
        b("a", "comment"),
        b("c", "commits"),
        b("F", "log"),
        b("< >", "hist"),
        b("b", "blame"),
        b("?", "help"),
        b("q", "quit"),
    ]
}

/// Sidebar (file list) focus.
pub fn bind_sidebar() -> (v: Vec<Binding>)
    ensures
        v@ == spec_table(HintTable::Sidebar),
{
    vec![
        b("↑↓", "select"),
        b("v", "viewed"),
        b("z", "fold"),
        b("c", "commits"),
        b("/", "jump"),
        b("?", "help"),
        b("q", "quit"),
    ]
}

/// File peek, diff mode (the only mode with hunks, context, and split).
pub fn bind_peek_diff() -> (v: Vec<Binding>)
    ensures
        v@ == spec_table(HintTable::PeekDiff),
{
    vec![
        b("jk", "scroll"),
        b("[ ]", "hunk"),
        b("Tab", "mode"),
        b("=/-", "context"),
        b("m", "split"),
        b("esc", "close"),
    ]
}

/// File peek, content mode.
pub fn bind_peek_content() -> (v: Vec<Binding>)
    ensures
        v@ == spec_table(HintTable::PeekContent),
{
    vec![b("jk", "scroll"), b("Tab", "mode"), b("esc", "close")]
}

/// File peek, blame mode: `Enter` opens the cursor line's commit message.
pub fn bind_peek_blame() -> (v: Vec<Binding>)
    ensures
        v@ == spec_table(HintTable::PeekBlame),
{
    vec![b("jk", "scroll"), b("Tab", "mode"), b("Enter", "commit msg"), b("esc", "close")]
}

/// The commit-message popup.
pub fn bind_commitmsg() -> (v: Vec<Binding>)
    ensures
        v@ == spec_table(HintTable::CommitMsg),
{
    vec![b("jk", "scroll"), b("Enter", "open commit"), b("Tab/esc", "close")]
}

/// Composing a review comment.
pub fn bind_comment() -> (v: Vec<Binding>)
    ensures
        v@ == spec_table(HintTable::Comment),
{
    vec![b("Enter", "save"), b("esc", "discard")]
}

/// The review's thread list.
pub fn bind_threads() -> (v: Vec<Binding>)
    ensures
        v@ == spec_table(HintTable::Threads),
{
    vec![
        b("jk", "select"),
        b("Enter", "jump"),
        b("e", "edit"),
        b("x", "retract"),
        b("o", "resolve"),
        b("esc", "close"),
    ]
}

/// Closing a round, stage one: pick a verdict preset.
pub fn bind_submit_pick() -> (v: Vec<Binding>)
    ensures
        v@ == spec_table(HintTable::SubmitPick),
{
    vec![b("jk", "select"), b("Enter", "edit text"), b("esc", "cancel")]
}

/// Closing a round, stage two: edit the instruction and send.
pub fn bind_submit_edit() -> (v: Vec<Binding>)
    ensures
        v@ == spec_table(HintTable::SubmitEdit),
{
    vec![b("Enter", "submit"), b("esc", "back to presets")]
}

/// The fuzzy file palette.
pub fn bind_palette_file() -> (v: Vec<Binding>)
    ensures
        v@ == spec_table(HintTable::PaletteFile),
{
    vec![b("", "type to filter"), b("↑↓", "select"), b("Enter", "jump"), b("Esc", "cancel")]
}

/// The commit picker.
pub fn bind_palette_commit() -> (v: Vec<Binding>)
    ensures
        v@ == spec_table(HintTable::PaletteCommit),
{
    vec![
        b("", "type to filter"),
        b("↑↓", "select"),
        b("Tab", "msg"),
        b("1-9/Enter", "pick"),
        b("Esc", "cancel"),
    ]
}

/// The theme picker.
pub fn bind_theme() -> (v: Vec<Binding>)
    ensures
        v@ == spec_table(HintTable::Theme),
{
    vec![
        b("hjkl", "move"),
        b("Tab", "dark/light"),
        b("t", "next"),
        b("Enter", "apply"),
        b("q/Esc", "close"),
    ]
}

/// One binding as hint text: `key desc`, or just `desc` for a prose-only hint.
pub open spec fn spec_hint_item(x: Binding) -> Seq<char> {
    if x.key@.len() == 0 {
        x.desc@
    } else {
        x.key@ + " "@ + x.desc@
    }
}

/// The first `k` bindings joined with ` · `.
pub open spec fn spec_hint(bs: Seq<Binding>, k: int) -> Seq<char>
    decreases k,
{
    if k <= 0 {
        Seq::empty()
    } else if k == 1 {
        spec_hint_item(bs[0])
    } else {
        spec_hint(bs, k - 1) + " · "@ + spec_hint_item(bs[k - 1])
    }
}

/// Join a binding table into a one-line hint string (`key desc · key desc`).
pub fn to_hint(bindings: &[Binding]) -> (s: String)
    ensures
        s@ == spec_hint(bindings@, bindings@.len() as int),
{
    let mut s = String::new();
    let mut i: usize = 0;
    while i < bindings.len()
        invariant
            i <= bindings@.len(),
            s@ == spec_hint(bindings@, i as int),
        decreases bindings@.len() - i,
    {
        let x = bindings[i];
        if i > 0 {
            s.append(" · ");
        }
        if x.key.is_empty() {
            s.append(x.desc);
        } else {
            s.append(x.key);
            s.append(" ");
            s.append(x.desc);
        }
        proof {
            if i == 0 {
                assert(s@ =~= spec_hint_item(x));
            } else {
                assert(s@ =~= spec_hint(bindings@, i as int) + " · "@ + spec_hint_item(x));
            }
        }
        i = i + 1;
    }
    s
}

} // verus!
