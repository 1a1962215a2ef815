//! Styled text: colours, styles, spans and lines, with their views.

use vstd::prelude::*;

verus! {

#[derive(Clone, Copy, Debug, PartialEq, Eq, Structural)]
pub enum Color {
    Reset,
    Black,
    Red,
    Green,
    Yellow,
    Blue,
    Cyan,
    Gray,
    DarkGray,
    LightGreen,
    LightYellow,
    LightBlue,
    LightMagenta,
    LightCyan,
    White,
    Rgb(u8, u8, u8),
}

/// What a run of text looks like. A colour that is not set leaves that of
/// whatever lies underneath.
#[derive(Clone, Copy, Debug, PartialEq, Eq, Structural)]
pub struct Style {
    pub fg: Option<Color>,
    pub bg: Option<Color>,
    pub bold: bool,
    pub italic: bool,
    pub dim: bool,
    pub underlined: bool,
}

impl Style {
    #[verifier::allow_in_spec]
    pub fn with(self, c: Color) -> Style
        returns
            (Style { fg: Some(c), ..self }),
    {
        Style { fg: Some(c), ..self }
    }

    #[verifier::allow_in_spec]
    pub fn on(self, c: Color) -> Style
        returns
            (Style { bg: Some(c), ..self }),
    {
        Style { bg: Some(c), ..self }
    }

    #[verifier::allow_in_spec]
    pub fn bold(self) -> Style
        returns
            (Style { bold: true, ..self }),
    {
        Style { bold: true, ..self }
    }

    #[verifier::allow_in_spec]
    pub fn italic(self) -> Style
        returns
            (Style { italic: true, ..self }),
    {
        Style { italic: true, ..self }
    }

    #[verifier::allow_in_spec]
    pub fn dim(self) -> Style
        returns
            (Style { dim: true, ..self }),
    {
        Style { dim: true, ..self }
    }

    #[verifier::allow_in_spec]
    pub fn underlined(self) -> Style
        returns
            (Style { underlined: true, ..self }),
    {
        Style { underlined: true, ..self }
    }
}

/// The style that sets nothing.
#[verifier::allow_in_spec]
pub fn plain() -> Style
    returns
        (Style { fg: None, bg: None, bold: false, italic: false, dim: false, underlined: false }),
{
    Style { fg: None, bg: None, bold: false, italic: false, dim: false, underlined: false }
}

/// The style that sets the foreground alone.
#[verifier::allow_in_spec]
pub fn fg(c: Color) -> Style
    returns
        (Style { fg: Some(c), bg: None, bold: false, italic: false, dim: false, underlined: false }),
{
    Style { fg: Some(c), bg: None, bold: false, italic: false, dim: false, underlined: false }
}

/// The style that sets the background alone.
#[verifier::allow_in_spec]
pub fn bg(c: Color) -> Style
    returns
        (Style { fg: None, bg: Some(c), bold: false, italic: false, dim: false, underlined: false }),
{
    Style { fg: None, bg: Some(c), bold: false, italic: false, dim: false, underlined: false }
}

/// A run of text in one style.
#[derive(Debug)]
pub struct Span {
    pub text: String,
    pub style: Style,
}

#[verifier::ext_equal]
pub struct SpanView {
    pub text: Seq<char>,
    pub style: Style,
}

impl View for Span {
    type V = SpanView;

    open spec fn view(&self) -> SpanView {
        SpanView { text: self.text@, style: self.style }
    }
}

/// One row of styled text.
#[derive(Debug)]
pub struct Line {
    pub spans: Vec<Span>,
}

impl View for Line {
    type V = Seq<SpanView>;

    open spec fn view(&self) -> Seq<SpanView> {
        self.spans@.map_values(|s: Span| s@)
    }
}

/// Rows of styled text, top to bottom.
#[derive(Debug)]
pub struct Lines {
    pub rows: Vec<Line>,
}

impl View for Lines {
    type V = Seq<Seq<SpanView>>;

    open spec fn view(&self) -> Seq<Seq<SpanView>> {
        self.rows@.map_values(|l: Line| l@)
    }
}

/// The view of a single span.
pub open spec fn sp(text: Seq<char>, style: Style) -> SpanView {
    SpanView { text, style }
}

/// The view of a line that holds one span.
pub open spec fn ln(text: Seq<char>, style: Style) -> Seq<SpanView> {
    seq![sp(text, style)]
}

/// The line without spans.
pub open spec fn blank() -> Seq<SpanView> {
    Seq::empty()
}

/// No lines at all.
pub open spec fn no_lines() -> Seq<Seq<SpanView>> {
    Seq::empty()
}

/// The text of a line, its spans put together.
pub open spec fn line_text(l: Seq<SpanView>) -> Seq<char>
    decreases l.len(),
{
    if l.len() == 0 {
        Seq::empty()
    } else {
        line_text(l.drop_last()) + l.last().text
    }
}

pub proof fn lemma_line_text_join(a: Seq<SpanView>, b: Seq<SpanView>)
    ensures
        line_text(a + b) == line_text(a) + line_text(b),
    decreases b.len(),
{
    if b.len() == 0 {
        assert(a + b =~= a);
        assert(line_text(a) + line_text(b) =~= line_text(a));
    } else {
        lemma_line_text_join(a, b.drop_last());
        assert((a + b).drop_last() =~= a + b.drop_last());
        assert(line_text(a) + line_text(b.drop_last()) + b.last().text =~= line_text(a) + line_text(b));
    }
}

pub proof fn lemma_one_span(s: SpanView)
    ensures
        line_text(seq![s]) == s.text,
{
    assert(seq![s].drop_last() =~= Seq::empty());
    assert(line_text(seq![s].drop_last()) =~= Seq::empty());
    assert(seq![s].last() == s);
    assert(line_text(seq![s]) =~= s.text);
}

/// The text of lines put together, one behind the other.
pub broadcast proof fn joined_line_text(a: Seq<SpanView>, b: Seq<SpanView>)
    ensures
        #[trigger] line_text(a + b) == line_text(a) + line_text(b),
{
    lemma_line_text_join(a, b);
}

/// The text of a line of one span.
pub broadcast proof fn span_line_text(text: Seq<char>, style: Style)
    ensures
        #[trigger] line_text(ln(text, style)) == text,
{
    lemma_one_span(sp(text, style));
}

/// The text of an empty line.
pub broadcast proof fn blank_line_text()
    ensures
        #[trigger] line_text(blank()) == Seq::<char>::empty(),
{
}

/// How a box is drawn.
#[derive(Clone, Copy, Debug, PartialEq, Eq, Structural)]
pub enum Border {
    Rounded,
    Double,
    Thick,
    LightDoubleDashed,
}

impl Line {
    pub fn empty() -> (l: Line)
        ensures
            l@ == blank(),
    {
        let l = Line { spans: Vec::new() };
        assert(l@ =~= blank());
        l
    }

    /// A line of one span.
    pub fn of(text: &str, style: Style) -> (l: Line)
        ensures
            l@ == ln(text@, style),
    {
        let mut spans: Vec<Span> = Vec::new();
        spans.push(Span { text: text.to_owned(), style });
        let l = Line { spans };
        assert(l@ =~= ln(text@, style));
        l
    }

    /// A line of one span without a style.
    pub fn raw(text: &str) -> (l: Line)
        ensures
            l@ == ln(text@, plain()),
    {
        Line::of(text, plain())
    }

    /// Puts one more span behind the others.
    pub fn put(&mut self, text: &str, style: Style)
        ensures
            final(self)@ == old(self)@ + ln(text@, style),
    {
        let ghost before = self@;
        self.spans.push(Span { text: text.to_owned(), style });
        assert(self@ =~= before + ln(text@, style));
    }

    /// Puts another line's spans behind the others.
    pub fn join(&mut self, other: Line)
        ensures
            final(self)@ == old(self)@ + other@,
    {
        let ghost before = self@;
        let ghost added = other@;
        let mut tail = other.spans;
        self.spans.append(&mut tail);
        assert(self@ =~= before + added);
    }

    /// The characters of the line, as far as a machine word counts them.
    pub fn chars_len(&self) -> (n: usize)
        ensures
            n == if line_text(self@).len() <= usize::MAX {
                line_text(self@).len() as int
            } else {
                usize::MAX as int
            },
    {
        let mut n: usize = 0;
        let mut i: usize = 0;
        assert(self@.take(0) =~= blank());
        while i < self.spans.len()
            invariant
                i <= self.spans@.len(),
                n == if line_text(self@.take(i as int)).len() <= usize::MAX {
                    line_text(self@.take(i as int)).len() as int
                } else {
                    usize::MAX as int
                },
            decreases self.spans@.len() - i,
        {
            n = n.saturating_add(self.spans[i].text.as_str().unicode_len());
            i += 1;
            assert(self@.take(i as int).drop_last() =~= self@.take(i - 1));
            assert(self@.take(i as int).last() == self@[i - 1]);
        }
        assert(self@.take(i as int) =~= self@);
        n
    }

    /// A line with the same spans.
    pub fn copy(&self) -> (l: Line)
        ensures
            l@ == self@,
    {
        let mut l = Line::empty();
        let mut i: usize = 0;
        assert(self@.take(0) =~= blank());
        while i < self.spans.len()
            invariant
                i <= self.spans@.len(),
                l@ == self@.take(i as int),
            decreases self.spans@.len() - i,
        {
            let ghost before = l@;
            l.put(&self.spans[i].text, self.spans[i].style);
            i += 1;
            assert(l@ =~= self@.take(i as int));
        }
        assert(self@.take(i as int) =~= self@);
        l
    }
}

impl Lines {
    pub fn none() -> (l: Lines)
        ensures
            l@ == no_lines(),
    {
        let l = Lines { rows: Vec::new() };
        assert(l@ =~= no_lines());
        l
    }

    /// A single line.
    pub fn of(line: Line) -> (l: Lines)
        ensures
            l@ == seq![line@],
    {
        let ghost view = line@;
        let mut rows: Vec<Line> = Vec::new();
        rows.push(line);
        let l = Lines { rows };
        assert(l@ =~= seq![view]);
        l
    }

    pub fn len(&self) -> (n: usize)
        ensures
            n == self@.len(),
    {
        self.rows.len()
    }

    /// The first `n` lines.
    pub fn first(&self, n: usize) -> (l: Lines)
        requires
            n <= self@.len(),
        ensures
            l@ == self@.take(n as int),
    {
        let mut l = Lines::none();
        let mut i: usize = 0;
        assert(l@ =~= self@.take(0));
        while i < n
            invariant
                i <= n <= self@.len(),
                self@.len() == self.rows@.len(),
                l@ == self@.take(i as int),
            decreases n - i,
        {
            l.put(self.rows[i].copy());
            i += 1;
            assert(l@ =~= self@.take(i as int));
        }
        l
    }

    /// Puts one more line below the others.
    pub fn put(&mut self, line: Line)
        ensures
            final(self)@ == old(self)@ + seq![line@],
    {
        let ghost before = self@;
        let ghost added = line@;
        self.rows.push(line);
        assert(self@ =~= before + seq![added]);
    }

    /// Puts other lines below the others.
    pub fn join(&mut self, other: Lines)
        ensures
            final(self)@ == old(self)@ + other@,
    {
        let ghost before = self@;
        let ghost added = other@;
        let mut tail = other.rows;
        self.rows.append(&mut tail);
        assert(self@ =~= before + added);
    }
}

} // verus!
