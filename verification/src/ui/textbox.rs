//! A rudimentary text box.

use vstd::prelude::*;

verus! {

/// A piece of a line, as text.
pub struct SpanView {
    /// What is shown.
    pub text: Seq<char>,
    /// Whether it stands out.
    pub bold: bool,
}

/// A piece of a line.
#[derive(Debug)]
pub struct Span {
    /// What is shown.
    pub text: String,
    /// Whether it stands out.
    pub bold: bool,
}

impl View for Span {
    type V = SpanView;

    open spec fn view(&self) -> SpanView {
        SpanView { text: self.text@, bold: self.bold }
    }
}

/// A text box.
#[derive(Debug)]
pub struct TextBox {
    /// What stands before the text.
    pub header: Option<String>,
}

impl Default for TextBox {
    fn default() -> (r: TextBox)
        ensures
            r.header is None,
    {
        TextBox { header: None }
    }
}

/// What a text box holds.
#[derive(Debug)]
pub struct TextBoxState {
    /// The text to display.
    pub text: String,
    /// Whether or not the text box is focused.
    pub focused: bool,
}

impl Default for TextBoxState {
    fn default() -> (r: TextBoxState)
        ensures
            r.text@ == Seq::<char>::empty(),
            !r.focused,
    {
        TextBoxState { text: String::new(), focused: false }
    }
}

/// A text without its last character, if it has one.
pub open spec fn shortened(text: Seq<char>) -> Seq<char> {
    if text.len() > 0 {
        text.drop_last()
    } else {
        text
    }
}

impl TextBoxState {
    /// A text box that is not focused.
    pub fn new(text: String) -> (r: TextBoxState)
        ensures
            r.text@ == text@,
            !r.focused,
    {
        TextBoxState { text, focused: false }
    }

    /// The text.
    pub fn text(&self) -> (r: &str)
        ensures
            r@ == self.text@,
    {
        self.text.as_str()
    }

    /// Adds a character at the end.
    pub fn push(&mut self, c: char)
        ensures
            final(self).text@ == old(self).text@.push(c),
            final(self).focused == old(self).focused,
    {
        self.text.push(c);
    }

    /// Takes the last character off, if there is one.
    pub fn pop(&mut self)
        ensures
            final(self).text@ == shortened(old(self).text@),
            final(self).focused == old(self).focused,
    {
        let _ = self.text.pop();
    }

    /// Sets whether the text box is focused.
    pub fn focus(&mut self, focused: bool)
        ensures
            final(self).text@ == old(self).text@,
            final(self).focused == focused,
    {
        self.focused = focused;
    }

    /// Whether the text box is focused.
    pub fn focused(&self) -> (r: bool)
        ensures
            r == self.focused,
    {
        self.focused
    }
}

/// The line that a text box shows: its header and a colon, both bold, then its text, then a
/// cursor if it is focused.
pub open spec fn textbox_line(header: Option<Seq<char>>, text: Seq<char>, focused: bool) -> Seq<
    SpanView,
> {
    (match header {
        Some(h) => seq![SpanView { text: h, bold: true }, SpanView { text: ": "@, bold: true }],
        None => seq![],
    }) + seq![SpanView { text, bold: false }] + (if focused {
        seq![SpanView { text: "_"@, bold: false }]
    } else {
        seq![]
    })
}

/// The header of a text box, as text.
pub open spec fn header_view(header: Option<String>) -> Option<Seq<char>> {
    match header {
        Some(h) => Some(h@),
        None => None,
    }
}

impl TextBox {
    /// The text box with the given header.
    pub fn header(self, header: String) -> (r: TextBox)
        ensures
            r.header == Some(header),
    {
        TextBox { header: Some(header) }
    }

    /// The line that the text box shows.
    pub fn render(self, state: &TextBoxState) -> (r: Vec<Span>)
        ensures
            r@.map_values(|s: Span| s@) == textbox_line(
                header_view(self.header),
                state.text@,
                state.focused,
            ),
    {
        let mut out: Vec<Span> = Vec::new();
        match self.header {
            Some(h) => {
                out.push(Span { text: h, bold: true });
                out.push(Span { text: ": ".to_owned(), bold: true });
            },
            None => {},
        }
        out.push(Span { text: state.text().to_owned(), bold: false });
        if state.focused {
            out.push(Span { text: "_".to_owned(), bold: false });
        }
        assert(out@.map_values(|s: Span| s@) =~= textbox_line(
            header_view(self.header),
            state.text@,
            state.focused,
        ));
        out
    }
}

/// What was typed can be taken back: removing the last character undoes adding one.
pub proof fn pop_undoes_push(text: Seq<char>, c: char)
    ensures
        shortened(text.push(c)) == text,
{
    assert(shortened(text.push(c)) =~= text);
}

/// The line of a text box shows its text, unchanged and not bold, behind its header, if it has one,
/// and the cursor behind the text exactly if it is focused.
pub proof fn a_line_shows_the_text(header: Option<Seq<char>>, text: Seq<char>, focused: bool)
    ensures
        ({
            let line = textbox_line(header, text, focused);
            let at = if header is Some {
                2int
            } else {
                0
            };
            &&& line.len() == at + (if focused {
                2int
            } else {
                1
            })
            &&& line[at].text == text && !line[at].bold
            &&& header is Some ==> line[0].text == header->Some_0 && line[0].bold && line[1].text
                == ": "@ && line[1].bold
            &&& focused ==> line.last().text == "_"@ && !line.last().bold
        }),
{
}

/// How [`TextBoxState::push`] and [`TextBoxState::pop`] relate: the second takes back what the first
/// has done, and the first makes the text longer by one character. Neither moves the cursor.
pub proof fn pop_takes_back_push(first: &mut TextBoxState, second: &mut TextBoxState, c: char)
    requires
        call_ensures(TextBoxState::push, (first, c), ()),
        old(second).text@ == final(first).text@,
        call_ensures(TextBoxState::pop, (second,), ()),
    ensures
        final(first).text@.len() == old(first).text@.len() + 1,
        final(first).text@.last() == c,
        final(second).text@ == old(first).text@,
        final(first).focused == old(first).focused,
        final(second).focused == old(second).focused,
{
    pop_undoes_push(old(first).text@, c);
}

/// What [`TextBox::render`] returns, with and without a [`TextBox::header`], and what
/// [`TextBoxState::focus`] does: the text stands behind the header, and the cursor behind the text if
/// the box has the focus.
pub proof fn a_text_box_shows_its_text(
    plain: TextBox,
    header: String,
    titled: TextBox,
    state: TextBoxState,
    r: Vec<Span>,
    other: &mut TextBoxState,
    focused: bool,
)
    requires
        call_ensures(TextBox::header, (plain, header), titled),
        call_ensures(TextBox::render, (titled, &state), r),
        call_ensures(TextBoxState::focus, (other, focused), ()),
    ensures
        r@.len() == if state.focused {
            4int
        } else {
            3
        },
        r@[0]@.text == header@ && r@[0]@.bold,
        r@[1]@.text == ": "@ && r@[1]@.bold,
        r@[2]@.text == state.text@ && !r@[2]@.bold,
        state.focused ==> r@[3]@.text == "_"@,
        final(other).focused == focused && final(other).text@ == old(other).text@,
{
    a_line_shows_the_text(Some(header@), state.text@, state.focused);
    let views = r@.map_values(|s: Span| s@);
    assert(views.len() == r@.len());
    assert(views[0] == r@[0]@ && views[1] == r@[1]@ && views[2] == r@[2]@);
    if state.focused {
        assert(views[3] == r@[3]@);
    }
}

} // verus!
