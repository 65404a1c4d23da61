//! Two-sided prompt composer: pure functions from externally owned session
//! state (edit mode, input buffer shape, user, directory, git branch,
//! last command duration, active interpreter) to styled prompt segments.
//! Unavailable data degrades to omission; composition never fails.

use vstd::prelude::*;
use crate::text::has_substring;
use crate::text::lemma_no_substring_across_space;
use crate::text::lemma_substring_needs_room;

verus! {

/// The line editor's two edit modes.
#[derive(Clone, Copy, Debug, PartialEq, Eq, Structural)]
pub enum EditMode {
    Insert,
    Normal,
}

/// The palette prompt spans draw from.
#[derive(Clone, Copy, Debug, PartialEq, Eq, Structural)]
pub enum Color {
    Plain,
    Cyan,
    Yellow,
    Blue,
    White,
}

/// One run of uniformly styled prompt text.
pub struct StyledSpan {
    pub text: String,
    pub color: Color,
    pub bold: bool,
}

/// Abstract value of a span: its text as characters plus its style.
pub ghost struct SpanView {
    pub text: Seq<char>,
    pub color: Color,
    pub bold: bool,
}

impl View for StyledSpan {
    type V = SpanView;

    open spec fn view(&self) -> SpanView {
        SpanView { text: self.text@, color: self.color, bold: self.bold }
    }
}

/// The abstract values of a sequence of spans.
pub open spec fn spans_view(s: Seq<StyledSpan>) -> Seq<SpanView> {
    s.map_values(|sp: StyledSpan| sp@)
}

/// The unstyled text of a segment: every span's text, run together.
pub open spec fn plain_text(s: Seq<SpanView>) -> Seq<char>
    decreases s.len(),
{
    if s.len() == 0 {
        Seq::empty()
    } else {
        s[0].text + plain_text(s.drop_first())
    }
}

/// The plain text of two segments run together is the two plain texts run
/// together.
pub proof fn lemma_plain_text_concat(a: Seq<SpanView>, b: Seq<SpanView>)
    ensures
        plain_text(a + b) == plain_text(a) + plain_text(b),
    decreases a.len(),
{
    if a.len() == 0 {
        assert(a + b =~= b);
        assert(plain_text(a) + plain_text(b) =~= plain_text(b));
    } else {
        assert((a + b).drop_first() =~= a.drop_first() + b);
        lemma_plain_text_concat(a.drop_first(), b);
        assert((a + b)[0] == a[0]);
        assert(plain_text(a + b) =~= plain_text(a) + plain_text(b));
    }
}

/// The plain text of a single span is that span's text.
pub proof fn lemma_plain_text_single(x: SpanView)
    ensures
        plain_text(seq![x]) == x.text,
{
    assert(seq![x].len() == 1);
    assert(seq![x][0] == x);
    assert(seq![x].drop_first() =~= Seq::<SpanView>::empty());
    assert(plain_text(seq![x].drop_first()) =~= Seq::<char>::empty());
    assert(plain_text(seq![x]) =~= x.text + Seq::<char>::empty());
    assert(x.text + Seq::<char>::empty() =~= x.text);
}

/// An unstyled single space.
pub open spec fn space_span() -> SpanView {
    SpanView { text: " "@, color: Color::Plain, bold: false }
}

/// The glyph marking the edit mode: the two modes get distinct glyphs in
/// distinct colors.
pub open spec fn indicator_span(mode: EditMode) -> SpanView {
    match mode {
        EditMode::Insert => SpanView { text: ">"@, color: Color::Cyan, bold: false },
        EditMode::Normal => SpanView { text: ":"@, color: Color::Yellow, bold: false },
    }
}

/// The user name, in blue.
pub open spec fn user_span(u: Seq<char>) -> SpanView {
    SpanView { text: u, color: Color::Blue, bold: false }
}

/// The last path component of the working directory, bold white.
pub open spec fn dir_span(d: Seq<char>) -> SpanView {
    SpanView { text: d, color: Color::White, bold: true }
}

/// The elapsed time of the last command, unstyled.
pub open spec fn time_span(t: Seq<char>) -> SpanView {
    SpanView { text: t, color: Color::Plain, bold: false }
}

/// The active interpreter's name, unstyled.
pub open spec fn lang_span(l: Seq<char>) -> SpanView {
    SpanView { text: l, color: Color::Plain, bold: false }
}

/// The git branch label, `git:` followed by the branch name, bold blue.
pub open spec fn branch_span(b: Seq<char>) -> SpanView {
    SpanView { text: "git:"@ + b, color: Color::Blue, bold: true }
}

/// The left prompt segment. On a continuation line (the buffer already
/// spans several lines) it is only the mode indicator between two spaces;
/// otherwise user name (omitted when unavailable), directory, and mode
/// indicator, space-separated.
pub open spec fn spec_left(
    mode: EditMode,
    multiline: bool,
    username: Option<Seq<char>>,
    top_dir: Seq<char>,
) -> Seq<SpanView> {
    if multiline {
        seq![space_span(), indicator_span(mode), space_span()]
    } else {
        match username {
            Some(u) => seq![
                space_span(),
                user_span(u),
                space_span(),
                dir_span(top_dir),
                space_span(),
                indicator_span(mode),
                space_span(),
            ],
            None => seq![
                space_span(),
                space_span(),
                dir_span(top_dir),
                space_span(),
                indicator_span(mode),
                space_span(),
            ],
        }
    }
}

/// The right prompt segment: the branch label (omitted with its separator
/// when the directory is in no repository or lookup failed), the last
/// command's duration (omitted before any command has finished), and the
/// active interpreter's name.
pub open spec fn spec_right(
    branch: Option<Seq<char>>,
    time: Option<Seq<char>>,
    lang: Seq<char>,
) -> Seq<SpanView> {
    (match branch {
        Some(b) => seq![branch_span(b), space_span()],
        None => Seq::empty(),
    }) + (match time {
        Some(t) => seq![time_span(t)],
        None => Seq::empty(),
    }) + seq![space_span(), lang_span(lang), space_span()]
}

/// An unstyled single space, as a value.
fn space() -> (s: StyledSpan)
    ensures
        s@ == space_span(),
{
    StyledSpan { text: String::from_str(" "), color: Color::Plain, bold: false }
}

/// The mode indicator, as a value.
fn indicator(mode: EditMode) -> (s: StyledSpan)
    ensures
        s@ == indicator_span(mode),
{
    match mode {
        EditMode::Insert => StyledSpan {
            text: String::from_str(">"),
            color: Color::Cyan,
            bold: false,
        },
        EditMode::Normal => StyledSpan {
            text: String::from_str(":"),
            color: Color::Yellow,
            bold: false,
        },
    }
}

/// Compose the left prompt segment from the session snapshot. Never fails:
/// an unavailable user name is simply omitted.
pub fn prompt_left(mode: EditMode, multiline: bool, username: Option<&str>, top_dir: &str) -> (r:
    Vec<StyledSpan>)
    ensures
        spans_view(r@) == spec_left(
            mode,
            multiline,
            match username {
                Some(u) => Some(u@),
                None => None,
            },
            top_dir@,
        ),
{
    let mut r: Vec<StyledSpan> = Vec::new();
    r.push(space());
    if multiline {
        r.push(indicator(mode));
        r.push(space());
        proof {
            assert(spans_view(r@) =~= seq![space_span(), indicator_span(mode), space_span()]);
        }
        return r;
    }
    match username {
        Some(u) => {
            r.push(StyledSpan { text: String::from_str(u), color: Color::Blue, bold: false });
            r.push(space());
        },
        None => {
            r.push(space());
        },
    }
    r.push(StyledSpan { text: String::from_str(top_dir), color: Color::White, bold: true });
    r.push(space());
    r.push(indicator(mode));
    r.push(space());
    proof {
        let ghost uv = match username {
            Some(u) => Some(u@),
            None => None::<Seq<char>>,
        };
        assert(spans_view(r@) =~= spec_left(mode, false, uv, top_dir@));
    }
    r
}

/// Compose the right prompt segment from the session snapshot. Never
/// fails: a missing branch or duration is simply omitted.
pub fn prompt_right(git_branch: Option<&str>, command_time: Option<&str>, lang_name: &str) -> (r:
    Vec<StyledSpan>)
    ensures
        spans_view(r@) == spec_right(
            match git_branch {
                Some(b) => Some(b@),
                None => None,
            },
            match command_time {
                Some(t) => Some(t@),
                None => None,
            },
            lang_name@,
        ),
{
    let mut r: Vec<StyledSpan> = Vec::new();
    match git_branch {
        Some(b) => {
            let mut label = String::from_str("git:");
            label.append(b);
            r.push(StyledSpan { text: label, color: Color::Blue, bold: true });
            r.push(space());
        },
        None => {},
    }
    match command_time {
        Some(t) => {
            r.push(StyledSpan { text: String::from_str(t), color: Color::Plain, bold: false });
        },
        None => {},
    }
    r.push(space());
    r.push(StyledSpan { text: String::from_str(lang_name), color: Color::Plain, bold: false });
    r.push(space());
    proof {
        let ghost bv = match git_branch {
            Some(b) => Some(b@),
            None => None::<Seq<char>>,
        };
        let ghost tv = match command_time {
            Some(t) => Some(t@),
            None => None::<Seq<char>>,
        };
        assert(spans_view(r@) =~= spec_right(bv, tv, lang_name@));
    }
    r
}

/// On a continuation line the left segment is exactly a space, the mode
/// indicator, and a space: three spans whose plain text has three
/// characters, so no user name or directory text longer than that can
/// occur in it.
pub proof fn lemma_left_multiline_minimal(
    mode: EditMode,
    username: Option<Seq<char>>,
    top_dir: Seq<char>,
)
    ensures
        spec_left(mode, true, username, top_dir) == seq![
            space_span(),
            indicator_span(mode),
            space_span(),
        ],
        plain_text(spec_left(mode, true, username, top_dir)).len() == 3,
        forall|t: Seq<char>|
            t.len() > 3 ==> !has_substring(plain_text(spec_left(mode, true, username, top_dir)), t),
{
    reveal_strlit(" ");
    reveal_strlit(">");
    reveal_strlit(":");
    let s = spec_left(mode, true, username, top_dir);
    assert(s =~= seq![space_span()] + seq![indicator_span(mode)] + seq![space_span()]);
    lemma_plain_text_concat(seq![space_span()] + seq![indicator_span(mode)], seq![space_span()]);
    lemma_plain_text_concat(seq![space_span()], seq![indicator_span(mode)]);
    lemma_plain_text_single(space_span());
    lemma_plain_text_single(indicator_span(mode));
    assert(plain_text(s).len() == 3);
    assert forall|t: Seq<char>| t.len() > 3 implies !has_substring(plain_text(s), t) by {
        lemma_substring_needs_room(plain_text(s), t);
    }
}

/// Outside any git repository the right segment carries no branch label:
/// as long as neither the duration text nor the interpreter name contains
/// `git:`, the composed plain text does not either.
pub proof fn lemma_right_no_branch_label(time: Option<Seq<char>>, lang: Seq<char>)
    requires
        time matches Some(t) ==> !has_substring(t, "git:"@),
        !has_substring(lang, "git:"@),
    ensures
        !has_substring(plain_text(spec_right(None, time, lang)), "git:"@),
{
    reveal_strlit("git:");
    reveal_strlit(" ");
    let label = "git:"@;
    assert(label.len() == 4);
    assert(forall|k: int| 0 <= k < label.len() ==> label[k] != ' ');
    let tail = seq![space_span(), lang_span(lang), space_span()];
    let tp = match time {
        Some(t) => seq![time_span(t)],
        None => Seq::<SpanView>::empty(),
    };
    let tp_text = match time {
        Some(t) => t,
        None => Seq::<char>::empty(),
    };
    // the plain text of the whole segment, decomposed
    lemma_plain_text_concat(tp, tail);
    assert(tail =~= seq![space_span()] + seq![lang_span(lang)] + seq![space_span()]);
    lemma_plain_text_concat(seq![space_span()] + seq![lang_span(lang)], seq![space_span()]);
    lemma_plain_text_concat(seq![space_span()], seq![lang_span(lang)]);
    lemma_plain_text_single(space_span());
    lemma_plain_text_single(lang_span(lang));
    lemma_plain_text_single(time_span(tp_text));
    if time is Some {
        assert(plain_text(tp) == tp_text);
    } else {
        assert(plain_text(tp) =~= tp_text);
    }
    assert(spec_right(None, time, lang) =~= tp + tail);
    // neither piece holds the label
    assert(!has_substring(tp_text, label)) by {
        if time is None {
            lemma_substring_needs_room(tp_text, label);
        }
    }
    lemma_no_substring_across_space(lang, Seq::<char>::empty(), label);
    assert(lang + seq![' '] + Seq::<char>::empty() =~= lang + seq![' ']);
    lemma_no_substring_across_space(tp_text, lang + seq![' '], label);
    assert(plain_text(tp + tail) =~= tp_text + seq![' '] + (lang + seq![' ']));
}

} // verus!
