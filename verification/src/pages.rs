//! The pages that the bot shows, and the buttons that lead from one to another.

use vstd::prelude::*;
use vstd::utf8::{encode_utf8, is_ascii_chars, is_ascii_chars_encode_utf8};

verus! {

/// The text of the welcome page.
pub const WELCOME_TEXT: &'static str = "𝑊𝑒𝑙𝑐𝑜𝑚𝑒 𝑡𝑜 𝑈𝑅𝐿 𝑈𝑝𝑙𝑜𝑎𝑑𝑒𝑟 𝑏𝑜𝑡\n\
\n\
𝐶𝑢𝑠𝑡𝑜𝑚 𝑓𝑖𝑙𝑒 𝑛𝑎𝑚𝑖𝑛𝑔\n\
    ➠ 𝑈𝑅𝐿 | 𝐹𝑖𝑙𝑒_𝑁𝑎𝑚𝑒\n\
\n\
<blockquote>𝐹𝑒𝑎𝑡𝑢𝑟𝑒𝑠:\n\
ㅤ➠ 𝑐𝑟𝑎𝑧𝑦 𝑓𝑎𝑠𝑡 & 𝑓𝑟𝑒𝑒\n\
ㅤ➠ 𝑢𝑝 𝑡𝑜 2𝐺𝐵\n\
ㅤ➠ 𝑐𝑢𝑠𝑡𝑜𝑚 𝑓𝑖𝑙𝑒 𝑛𝑎𝑚𝑒 𝑤𝑖𝑡ℎ 𝑎𝑢𝑡𝑜 𝑒𝑥𝑡𝑒𝑛𝑠𝑖𝑜𝑛</blockquote>\n\
\n\
✨ 𝐶𝑜𝑝𝑦 𝑎𝑛𝑑 𝑃𝑎𝑠𝑡𝑒 𝑦𝑜𝑢𝑟 𝑈𝑅𝐿 𝑡𝑜 𝑔𝑒𝑡 𝑠𝑡𝑎𝑟𝑡𝑒𝑑!";

/// The text of the help page.
pub const HELP_TEXT: &'static str = "<b>Help</b>\n\nSend me a URL or use the /upload command!\n\nYou can specify a custom filename using <code>URL | filename</code>.";

/// The text of the page with an example.
pub const SAMPLE_TEXT: &'static str = "<b>Sample Usage</b>\n\nExample:\n<code>https://example.com/file.zip | MyFile.zip</code>\n\nThis will download and upload the file as 'MyFile.zip'.";

/// A page of the bot.
#[derive(Clone, Copy, Debug, PartialEq, Eq, Structural)]
pub enum Page {
    /// What `/start` is answered with.
    Welcome,
    /// How the bot is used.
    Help,
    /// An example of a request.
    Sample,
}

/// A button below a message. Pressing it sends `data` back to the bot.
#[derive(Clone, Copy, Debug, PartialEq, Eq)]
pub struct Button {
    pub label: &'static str,
    pub data: &'static str,
}

/// The texts of a [`Button`].
pub struct ButtonView {
    pub label: Seq<char>,
    pub data: Seq<char>,
}

impl View for Button {
    type V = ButtonView;

    open spec fn view(&self) -> ButtonView {
        ButtonView { label: self.label@, data: self.data@ }
    }
}

/// The button that leads to `page`.
pub open spec fn button_to(page: Page) -> ButtonView {
    match page {
        Page::Welcome => ButtonView { label: "Back"@, data: "back"@ },
        Page::Help => ButtonView { label: "Help"@, data: "help"@ },
        Page::Sample => ButtonView { label: "Sample"@, data: "sample"@ },
    }
}

/// The button that is meant to stop an upload.
pub open spec fn cancel_button() -> ButtonView {
    ButtonView { label: "Cancel ✗"@, data: "cancel"@ }
}

impl Page {
    /// The text of the page.
    pub open spec fn content(self) -> Seq<char> {
        match self {
            Page::Welcome => WELCOME_TEXT@,
            Page::Help => HELP_TEXT@,
            Page::Sample => SAMPLE_TEXT@,
        }
    }

    /// The pages that the row of buttons below the page leads to, from left to
    /// right.
    pub open spec fn neighbours(self) -> Seq<Page> {
        match self {
            Page::Welcome => seq![Page::Help, Page::Sample],
            Page::Help => seq![Page::Welcome, Page::Sample],
            Page::Sample => seq![Page::Welcome, Page::Help],
        }
    }

    /// The text of the page, in HTML.
    pub fn text(self) -> (out: &'static str)
        ensures
            out@ == self.content(),
    {
        match self {
            Page::Welcome => WELCOME_TEXT,
            Page::Help => HELP_TEXT,
            Page::Sample => SAMPLE_TEXT,
        }
    }

    /// The button that leads to the page.
    pub fn button(self) -> (out: Button)
        ensures
            out@ == button_to(self),
    {
        match self {
            Page::Welcome => Button { label: "Back", data: "back" },
            Page::Help => Button { label: "Help", data: "help" },
            Page::Sample => Button { label: "Sample", data: "sample" },
        }
    }

    /// The row of buttons below the page.
    pub fn buttons(self) -> (out: Vec<Button>)
        ensures
            out@.map_values(|b: Button| b@) == self.neighbours().map_values(
                |page: Page| button_to(page),
            ),
    {
        let (left, right) = match self {
            Page::Welcome => (Page::Help, Page::Sample),
            Page::Help => (Page::Welcome, Page::Sample),
            Page::Sample => (Page::Welcome, Page::Help),
        };
        let mut out: Vec<Button> = Vec::new();
        out.push(left.button());
        out.push(right.button());
        assert(out@.map_values(|b: Button| b@) =~= self.neighbours().map_values(
            |page: Page| button_to(page),
        ));
        out
    }
}

/// The button below the status message of an upload.
pub fn upload_button() -> (out: Button)
    ensures
        out@ == cancel_button(),
{
    Button { label: "Cancel ✗", data: "cancel" }
}

/// The page that the data of a pressed button asks for, if any.
pub open spec fn requested_page(data: Seq<u8>) -> Option<Page> {
    if data == encode_utf8("help"@) {
        Some(Page::Help)
    } else if data == encode_utf8("sample"@) {
        Some(Page::Sample)
    } else if data == encode_utf8("back"@) {
        Some(Page::Welcome)
    } else {
        None
    }
}

/// Tells whether two strings of bytes are the same.
fn same_bytes(a: &[u8], b: &[u8]) -> (same: bool)
    ensures
        same == (a@ == b@),
{
    if a.len() != b.len() {
        return false;
    }
    let n: usize = a.len();
    let mut i: usize = 0;
    while i < n
        invariant
            n == a@.len(),
            n == b@.len(),
            i <= n,
            forall|j: int| 0 <= j < i ==> a@[j] == b@[j],
        decreases n - i,
    {
        if a[i] != b[i] {
            return false;
        }
        i += 1;
    }
    assert(a@ =~= b@);
    true
}

/// Finds the page that the data of a pressed button asks for.
pub fn page_for(data: &[u8]) -> (page: Option<Page>)
    ensures
        page == requested_page(data@),
{
    if same_bytes(data, "help".as_bytes()) {
        Some(Page::Help)
    } else if same_bytes(data, "sample".as_bytes()) {
        Some(Page::Sample)
    } else if same_bytes(data, "back".as_bytes()) {
        Some(Page::Welcome)
    } else {
        None
    }
}

/// Law: the button that leads to a page asks for that page, so that every button
/// below every page is answered with the page that it names.
pub proof fn law_buttons_lead_to_their_pages(page: Page)
    ensures
        requested_page(encode_utf8(button_to(page).data)) == Some(page),
        forall|i: int|
            0 <= i < page.neighbours().len() ==> requested_page(
                encode_utf8(button_to(#[trigger] page.neighbours()[i]).data),
            ) == Some(page.neighbours()[i]),
{
    button_data_is_distinct();
}

/// Law: the button on uploads asks for no page.
pub proof fn law_upload_button_asks_for_no_page()
    ensures
        requested_page(encode_utf8(cancel_button().data)) is None,
{
    button_data_is_distinct();
}

/// The encoded data of the buttons, told apart.
proof fn button_data_is_distinct()
    ensures
        encode_utf8("help"@) != encode_utf8("sample"@),
        encode_utf8("help"@) != encode_utf8("back"@),
        encode_utf8("sample"@) != encode_utf8("back"@),
        encode_utf8("cancel"@) != encode_utf8("help"@),
        encode_utf8("cancel"@) != encode_utf8("sample"@),
        encode_utf8("cancel"@) != encode_utf8("back"@),
{
    reveal_strlit("help");
    reveal_strlit("sample");
    reveal_strlit("back");
    reveal_strlit("cancel");
    assert(is_ascii_chars("help"@));
    assert(is_ascii_chars("sample"@));
    assert(is_ascii_chars("back"@));
    assert(is_ascii_chars("cancel"@));
    is_ascii_chars_encode_utf8("help"@);
    is_ascii_chars_encode_utf8("sample"@);
    is_ascii_chars_encode_utf8("back"@);
    is_ascii_chars_encode_utf8("cancel"@);
    assert(encode_utf8("help"@)[0] == 104);
    assert(encode_utf8("sample"@)[0] == 115);
    assert(encode_utf8("back"@)[0] == 98);
    assert(encode_utf8("cancel"@)[0] == 99);
}

/// Law: exactly these bytes ask for a page: those of `help`, of `sample` and of `back`.
pub proof fn law_data_asks_for_pages(data: Seq<u8>)
    ensures
        requested_page(data) == Some(Page::Help) <==> data == seq![104u8, 101, 108, 112],
        requested_page(data) == Some(Page::Sample) <==> data == seq![
            115u8,
            97,
            109,
            112,
            108,
            101,
        ],
        requested_page(data) == Some(Page::Welcome) <==> data == seq![98u8, 97, 99, 107],
{
    button_data_is_distinct();
    reveal_strlit("help");
    reveal_strlit("sample");
    reveal_strlit("back");
    assert(is_ascii_chars("help"@));
    assert(is_ascii_chars("sample"@));
    assert(is_ascii_chars("back"@));
    is_ascii_chars_encode_utf8("help"@);
    is_ascii_chars_encode_utf8("sample"@);
    is_ascii_chars_encode_utf8("back"@);
    assert(encode_utf8("help"@) =~= seq![104u8, 101, 108, 112]);
    assert(encode_utf8("sample"@) =~= seq![115u8, 97, 109, 112, 108, 101]);
    assert(encode_utf8("back"@) =~= seq![98u8, 97, 99, 107]);
}

/// Law: below each page stand the buttons to the two other ones, in the order of the
/// welcome page, the help and the example.
pub proof fn law_pages_lead_to_the_other_ones(page: Page)
    ensures
        page.neighbours().len() == 2,
        page.neighbours()[0] == if page is Welcome {
            Page::Help
        } else {
            Page::Welcome
        },
        page.neighbours()[1] == if page is Sample {
            Page::Help
        } else {
            Page::Sample
        },
        forall|other: Page| #[trigger]
            page.neighbours().contains(other) <==> other != page,
{
    assert forall|other: Page| #[trigger]
        page.neighbours().contains(other) <==> other != page by {
        let pages = page.neighbours();
        if other != page {
            assert(pages[0] == other || pages[1] == other);
        }
    }
}

/// Law: each button is labelled with what it leads to, and shows what it was made of.
pub proof fn law_buttons_are_labelled(button: Button)
    ensures
        button_to(Page::Welcome).label == "Back"@,
        button_to(Page::Help).label == "Help"@,
        button_to(Page::Sample).label == "Sample"@,
        cancel_button().label == "Cancel ✗"@,
        cancel_button().data == "cancel"@,
        button@.label == button.label@,
        button@.data == button.data@,
{
}

/// Law: each page has the text that is written for it.
pub proof fn law_pages_have_their_texts()
    ensures
        Page::Welcome.content() == WELCOME_TEXT@,
        Page::Help.content() == HELP_TEXT@,
        Page::Sample.content() == SAMPLE_TEXT@,
{
}

}
