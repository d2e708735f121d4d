//! Requests for uploads: how a link and a file name are read out of a message, and
//! what the message is answered with.

use crate::outside::{parse_url, parsed_url};
use crate::text::{
    after_first, all_in, bare, before_first, first_of_joined,
    law_stripping_undoes_padding, law_trimming_leaves_the_middle, nothing_to_split, split_first,
    trim, trimmed, CharClass,
};
use vstd::prelude::*;

verus! {

/// What a message is answered with.
#[derive(Debug, PartialEq, Eq)]
pub enum MessageAction {
    /// Nothing is done.
    Ignore,
    /// The welcome page is shown.
    Start,
    /// A text is sent in reply.
    Reply(String),
    /// The file behind a URL is fetched and uploaded.
    Fetch {
        /// The URL, serialized.
        url: String,
        /// The name that the file is to have.
        custom_name: Option<String>,
    },
}

/// The texts of a [`MessageAction`].
pub enum MessageActionView {
    Ignore,
    Start,
    Reply(Seq<char>),
    Fetch { url: Seq<char>, custom_name: Option<Seq<char>> },
}

impl View for MessageAction {
    type V = MessageActionView;

    open spec fn view(&self) -> MessageActionView {
        match self {
            MessageAction::Ignore => MessageActionView::Ignore,
            MessageAction::Start => MessageActionView::Start,
            MessageAction::Reply(text) => MessageActionView::Reply(text@),
            MessageAction::Fetch { url, custom_name } => MessageActionView::Fetch {
                url: url@,
                custom_name: custom_name.deep_view(),
            },
        }
    }
}

/// A parsed URL, or the reason why there is none, as text.
pub open spec fn parse_view(parsed: Result<String, String>) -> Result<Seq<char>, Seq<char>> {
    match parsed {
        Ok(url) => Ok(url@),
        Err(reason) => Err(reason@),
    }
}

/// `s` trimmed, if it is there.
pub open spec fn trimmed_option(s: Option<Seq<char>>) -> Option<Seq<char>> {
    match s {
        Some(s) => Some(trimmed(s)),
        None => None,
    }
}

/// The two sides of a text `url | name`: what stands before the first bar, and
/// what stands behind it, if there is a bar. Both are trimmed.
pub open spec fn bar_sides(text: Seq<char>) -> (Seq<char>, Option<Seq<char>>) {
    (trimmed(before_first(text, '|')), trimmed_option(after_first(text, '|')))
}

/// Splits `text` at its first bar and trims both sides.
pub fn split_bar<'a>(text: &'a str) -> (sides: (&'a str, Option<&'a str>))
    ensures
        sides.0@ == bar_sides(text@).0,
        sides.1.deep_view() == bar_sides(text@).1,
{
    let (url, name) = split_first(text, '|');
    let name: Option<&str> = match name {
        Some(name) => Some(trim(name)),
        None => None,
    };
    (trim(url), name)
}

/// The reply to an upload command whose argument names `url` and perhaps a file
/// name, for each way in which the URL may have been parsed.
pub open spec fn upload_answer(
    url: Seq<char>,
    custom_name: Option<Seq<char>>,
    parsed: Result<Seq<char>, Seq<char>>,
) -> MessageActionView {
    match parsed {
        Ok(link) => MessageActionView::Fetch { url: link, custom_name },
        Err(reason) => MessageActionView::Reply(
            "Invalid URL '"@ + url + "': "@ + reason,
        ),
    }
}

/// What an upload command with the argument `arg` asks for.
pub open spec fn upload_action(arg: Option<Seq<char>>) -> MessageActionView {
    match arg {
        None => MessageActionView::Reply("Please specify a URL"@),
        Some(arg) => {
            let (url, custom_name) = bar_sides(trimmed(arg));
            if url.len() == 0 {
                MessageActionView::Reply("Please specify a valid URL"@)
            } else {
                upload_answer(url, custom_name, parsed_url(url))
            }
        },
    }
}

/// Answers an upload command once its URL has been parsed.
pub fn answer_upload(url: &str, custom_name: Option<&str>, parsed: Result<String, String>) -> (action:
    MessageAction)
    ensures
        action@ == upload_answer(url@, custom_name.deep_view(), parse_view(parsed)),
{
    match parsed {
        Ok(link) => {
            let custom_name: Option<String> = match custom_name {
                Some(name) => Some(name.to_owned()),
                None => None,
            };
            MessageAction::Fetch { url: link, custom_name }
        },
        Err(reason) => {
            let mut text = String::new();
            text.append("Invalid URL '");
            text.append(url);
            text.append("': ");
            text.append(reason.as_str());
            assert(text@ =~= "Invalid URL '"@ + url@ + "': "@ + reason@);
            MessageAction::Reply(text)
        },
    }
}

/// Answers an upload command with the argument `arg`.
pub fn handle_upload(arg: Option<&str>) -> (action: MessageAction)
    ensures
        action@ == upload_action(arg.deep_view()),
{
    match arg {
        None => MessageAction::Reply("Please specify a URL".to_owned()),
        Some(arg) => {
            let (url, custom_name) = split_bar(trim(arg));
            if url.is_empty() {
                MessageAction::Reply("Please specify a valid URL".to_owned())
            } else {
                answer_upload(url, custom_name, parse_url(url))
            }
        },
    }
}

/// The link and the file name that a text `link | name` gives, where neither is
/// empty.
pub open spec fn named_link(text: Seq<char>) -> Option<(Seq<char>, Seq<char>)> {
    match bar_sides(text) {
        (url, Some(name)) => if url.len() > 0 && name.len() > 0 {
            Some((url, name))
        } else {
            None
        },
        (_, None) => None,
    }
}

/// Which link a text without a command gives: the one before the bar, under the
/// name behind it, or else the text as a whole.
pub open spec fn link_answer(
    named: Option<(Result<Seq<char>, Seq<char>>, Seq<char>)>,
    whole: Result<Seq<char>, Seq<char>>,
) -> MessageActionView {
    match (named, whole) {
        (Some((Ok(url), name)), _) => MessageActionView::Fetch { url, custom_name: Some(name) },
        (_, Ok(url)) => MessageActionView::Fetch { url, custom_name: None },
        _ => MessageActionView::Ignore,
    }
}

/// What a text without a command asks for.
pub open spec fn link_action(text: Seq<char>) -> MessageActionView {
    let text = trimmed(text);
    link_answer(
        match named_link(text) {
            Some((url, name)) => Some((parsed_url(url), name)),
            None => None,
        },
        parsed_url(text),
    )
}

/// Chooses between the link before the bar, parsed, with the name behind the bar,
/// and the whole text, parsed.
pub fn choose_link(named: Option<(Result<String, String>, &str)>, whole: Result<String, String>) -> (action:
    MessageAction)
    ensures
        action@ == link_answer(
            match named {
                Some((parsed, name)) => Some((parse_view(parsed), name@)),
                None => None,
            },
            parse_view(whole),
        ),
{
    if let Some((Ok(url), name)) = named {
        return MessageAction::Fetch { url, custom_name: Some(name.to_owned()) };
    }
    match whole {
        Ok(url) => MessageAction::Fetch { url, custom_name: None },
        Err(_) => MessageAction::Ignore,
    }
}

/// Reads a link out of a text without a command.
pub fn handle_link(text: &str) -> (action: MessageAction)
    ensures
        action@ == link_action(text@),
{
    let text = trim(text);
    let (url, name) = split_bar(text);
    let named: Option<(Result<String, String>, &str)> = match name {
        Some(name) => if !url.is_empty() && !name.is_empty() {
            Some((parse_url(url), name))
        } else {
            None
        },
        None => None,
    };
    choose_link(named, parse_url(text))
}

/// Law: a link and a name on the two sides of a bar, with any white space around
/// them, are read back as they were written, and the file is fetched from that link
/// under that name; the upload command reads its argument alike.
pub proof fn law_bar_names_the_file(
    a: Seq<char>,
    url: Seq<char>,
    b: Seq<char>,
    c: Seq<char>,
    name: Seq<char>,
    d: Seq<char>,
)
    requires
        all_in(a, CharClass::WhiteSpace),
        all_in(b, CharClass::WhiteSpace),
        all_in(c, CharClass::WhiteSpace),
        all_in(d, CharClass::WhiteSpace),
        bare(url, CharClass::WhiteSpace),
        bare(name, CharClass::WhiteSpace),
        !url.contains('|'),
        parsed_url(url) is Ok,
    ensures
        ({
            let text = a + url + b + seq!['|'] + c + name + d;
            let fetch = MessageActionView::Fetch {
                url: parsed_url(url)->Ok_0,
                custom_name: Some(name),
            };
            link_action(text) == fetch && upload_action(Some(text)) == fetch
        }),
{
    let class = CharClass::WhiteSpace;
    let text = a + url + b + seq!['|'] + c + name + d;
    let core = url + b + seq!['|'] + c + name;
    assert(core[0] == url[0]);
    assert(core.last() == name.last());
    assert(text =~= a + core + d);
    law_stripping_undoes_padding(a, core, d, class);
    let none = Seq::<char>::empty();
    let left = url + b;
    let right = c + name;
    assert forall|i: int| 0 <= i < left.len() implies left[i] != '|' by {
        if i < url.len() {
            assert(url.contains(url[i]));
        } else {
            assert(class.has(b[i - url.len()]));
        }
    }
    assert(core =~= left + seq!['|'] + right);
    first_of_joined(left, '|', right);
    assert(left =~= none + url + b);
    law_stripping_undoes_padding(none, url, b, class);
    assert(right =~= c + name + none);
    law_stripping_undoes_padding(c, name, none, class);
}

/// Law: a link without a bar is fetched under the name that it has at its source,
/// by both ways of asking.
pub proof fn law_plain_link_is_fetched(a: Seq<char>, url: Seq<char>, b: Seq<char>)
    requires
        all_in(a, CharClass::WhiteSpace),
        all_in(b, CharClass::WhiteSpace),
        bare(url, CharClass::WhiteSpace),
        !url.contains('|'),
        parsed_url(url) is Ok,
    ensures
        ({
            let fetch = MessageActionView::Fetch {
                url: parsed_url(url)->Ok_0,
                custom_name: None,
            };
            link_action(a + url + b) == fetch && upload_action(Some(a + url + b)) == fetch
        }),
{
    let class = CharClass::WhiteSpace;
    law_stripping_undoes_padding(a, url, b, class);
    nothing_to_split(url, '|');
    let none = Seq::<char>::empty();
    assert(url =~= none + url + none);
    law_stripping_undoes_padding(none, url, none, class);
}

/// Law: a text with a bar has two sides, which are what was written before the first
/// bar and behind it, without the white space around them. The upload command fetches
/// the link before the bar under the name behind it, even an empty one, and replies where
/// there is no link or where it cannot be parsed. A text without a command is read alike
/// where neither side is empty and the link can be parsed, and else as a link as a whole,
/// without the white space at its ends.
pub proof fn law_texts_with_a_bar(
    a: Seq<char>,
    url: Seq<char>,
    b: Seq<char>,
    c: Seq<char>,
    name: Seq<char>,
    d: Seq<char>,
)
    requires
        all_in(a, CharClass::WhiteSpace),
        all_in(b, CharClass::WhiteSpace),
        all_in(c, CharClass::WhiteSpace),
        all_in(d, CharClass::WhiteSpace),
        url.len() == 0 || bare(url, CharClass::WhiteSpace),
        name.len() == 0 || bare(name, CharClass::WhiteSpace),
        !url.contains('|'),
    ensures
        ({
            let text = a + url + b + seq!['|'] + c + name + d;
            let left = if url.len() > 0 {
                url + b
            } else {
                Seq::empty()
            };
            let right = if name.len() > 0 {
                c + name
            } else {
                Seq::empty()
            };
            let whole = left + seq!['|'] + right;
            &&& bar_sides(text) == (url, Some(name))
            &&& upload_action(Some(text)) == if url.len() == 0 {
                MessageActionView::Reply("Please specify a valid URL"@)
            } else {
                match parsed_url(url) {
                    Ok(link) => MessageActionView::Fetch { url: link, custom_name: Some(name) },
                    Err(reason) => MessageActionView::Reply(
                        "Invalid URL '"@ + url + "': "@ + reason,
                    ),
                }
            }
            &&& link_action(text) == if url.len() > 0 && name.len() > 0 && parsed_url(url) is Ok {
                MessageActionView::Fetch { url: parsed_url(url)->Ok_0, custom_name: Some(name) }
            } else {
                match parsed_url(whole) {
                    Ok(link) => MessageActionView::Fetch { url: link, custom_name: None },
                    Err(_) => MessageActionView::Ignore,
                }
            }
        }),
{
    let class = CharClass::WhiteSpace;
    let none = Seq::<char>::empty();
    let text = a + url + b + seq!['|'] + c + name + d;
    sides_of_a_bar(a, url, b, c, name, d);
    let before = if url.len() > 0 {
        a
    } else {
        a + b
    };
    let left = if url.len() > 0 {
        url + b
    } else {
        none
    };
    let right = if name.len() > 0 {
        c + name
    } else {
        none
    };
    let behind = if name.len() > 0 {
        d
    } else {
        c + d
    };
    let whole = left + seq!['|'] + right;
    assert(whole[0] == if url.len() > 0 {
        url[0]
    } else {
        '|'
    });
    assert(whole.last() == if name.len() > 0 {
        name.last()
    } else {
        '|'
    });
    assert(all_in(before, class));
    assert(all_in(behind, class));
    assert(text =~= before + whole + behind);
    law_stripping_undoes_padding(before, whole, behind, class);
    if url.len() > 0 && name.len() > 0 {
        assert(whole =~= none + url + b + seq!['|'] + c + name + none);
        sides_of_a_bar(none, url, b, c, name, none);
    } else if url.len() > 0 {
        assert(whole =~= none + url + b + seq!['|'] + none + name + none);
        sides_of_a_bar(none, url, b, none, name, none);
    } else if name.len() > 0 {
        assert(whole =~= none + url + none + seq!['|'] + c + name + none);
        sides_of_a_bar(none, url, none, c, name, none);
    } else {
        assert(whole =~= none + url + none + seq!['|'] + none + name + none);
        sides_of_a_bar(none, url, none, none, name, none);
    }
}

proof fn sides_of_a_bar(
    a: Seq<char>,
    url: Seq<char>,
    b: Seq<char>,
    c: Seq<char>,
    name: Seq<char>,
    d: Seq<char>,
)
    requires
        all_in(a, CharClass::WhiteSpace),
        all_in(b, CharClass::WhiteSpace),
        all_in(c, CharClass::WhiteSpace),
        all_in(d, CharClass::WhiteSpace),
        url.len() == 0 || bare(url, CharClass::WhiteSpace),
        name.len() == 0 || bare(name, CharClass::WhiteSpace),
        !url.contains('|'),
    ensures
        bar_sides(a + url + b + seq!['|'] + c + name + d) == (url, Some(name)),
{
    let class = CharClass::WhiteSpace;
    let left = a + url + b;
    let right = c + name + d;
    assert forall|i: int| 0 <= i < left.len() implies left[i] != '|' by {
        if i < a.len() {
            assert(class.has(a[i]));
        } else if i < a.len() + url.len() {
            assert(url.contains(url[i - a.len()]));
        } else {
            assert(class.has(b[i - a.len() - url.len()]));
        }
    }
    assert(a + url + b + seq!['|'] + c + name + d =~= left + seq!['|'] + right);
    first_of_joined(left, '|', right);
    law_trimming_leaves_the_middle(a, url, b);
    law_trimming_leaves_the_middle(c, name, d);
}

/// Law: a text without a bar is read as a link as a whole, without the white space
/// around it, and the file keeps the name that it has at its source. A text without a
/// command that cannot be parsed is ignored, and the upload command replies to it. It
/// replies, too, where there is no link.
pub proof fn law_texts_without_a_bar(a: Seq<char>, url: Seq<char>, b: Seq<char>)
    requires
        all_in(a, CharClass::WhiteSpace),
        all_in(b, CharClass::WhiteSpace),
        url.len() == 0 || bare(url, CharClass::WhiteSpace),
        !url.contains('|'),
    ensures
        ({
            let text = a + url + b;
            &&& bar_sides(text) == (url, None::<Seq<char>>)
            &&& upload_action(Some(text)) == if url.len() == 0 {
                MessageActionView::Reply("Please specify a valid URL"@)
            } else {
                match parsed_url(url) {
                    Ok(link) => MessageActionView::Fetch { url: link, custom_name: None },
                    Err(reason) => MessageActionView::Reply(
                        "Invalid URL '"@ + url + "': "@ + reason,
                    ),
                }
            }
            &&& link_action(text) == match parsed_url(url) {
                Ok(link) => MessageActionView::Fetch { url: link, custom_name: None },
                Err(_) => MessageActionView::Ignore,
            }
        }),
{
    let class = CharClass::WhiteSpace;
    let none = Seq::<char>::empty();
    let text = a + url + b;
    assert forall|i: int| 0 <= i < text.len() implies text[i] != '|' by {
        if i < a.len() {
            assert(class.has(a[i]));
        } else if i < a.len() + url.len() {
            assert(url.contains(url[i - a.len()]));
        } else {
            assert(class.has(b[i - a.len() - url.len()]));
        }
    }
    nothing_to_split(text, '|');
    nothing_to_split(url, '|');
    law_trimming_leaves_the_middle(a, url, b);
    law_trimming_leaves_the_middle(none, url, none);
    assert(none + url + none =~= url);
}

/// Law: the upload command without an argument asks for one.
pub proof fn law_upload_needs_an_argument()
    ensures
        upload_action(None) == MessageActionView::Reply("Please specify a URL"@),
{
}

/// Law: once a link has been parsed the file behind it is fetched, by the upload
/// command under the name that was given; where it could not be, the reply tells the
/// link and the reason.
pub proof fn law_upload_is_answered_by_the_parse(
    url: Seq<char>,
    custom_name: Option<Seq<char>>,
    link: Seq<char>,
    reason: Seq<char>,
)
    ensures
        upload_answer(url, custom_name, Ok(link)) == (MessageActionView::Fetch {
            url: link,
            custom_name,
        }),
        upload_answer(url, custom_name, Err(reason)) == MessageActionView::Reply(
            "Invalid URL '"@ + (url + ("': "@ + reason)),
        ),
{
    assert("Invalid URL '"@ + url + "': "@ + reason =~= "Invalid URL '"@ + (url + ("': "@
        + reason)));
}

/// Law: the link before a bar comes first, if it could be parsed, and the file is then
/// called by the name behind the bar; else the whole text counts, if it could be, and
/// gives no name.
pub proof fn law_named_links_come_first(
    url: Seq<char>,
    name: Seq<char>,
    whole: Result<Seq<char>, Seq<char>>,
    link: Seq<char>,
    reason: Seq<char>,
    other: Seq<char>,
)
    ensures
        link_answer(Some((Ok(url), name)), whole) == (MessageActionView::Fetch {
            url,
            custom_name: Some(name),
        }),
        link_answer(Some((Err(reason), name)), Ok(link)) == (MessageActionView::Fetch {
            url: link,
            custom_name: None,
        }),
        link_answer(None, Ok(link)) == (MessageActionView::Fetch { url: link, custom_name: None }),
        link_answer(Some((Err(reason), name)), Err(other)) is Ignore,
        link_answer(None, Err(other)) is Ignore,
{
}

/// Law: actions and parsed links have the texts that they were made of.
pub proof fn law_actions_show_their_texts(text: String, custom_name: Option<String>)
    ensures
        MessageAction::Ignore@ is Ignore,
        MessageAction::Start@ is Start,
        MessageAction::Reply(text)@ == MessageActionView::Reply(text@),
        ({
            let action = (MessageAction::Fetch { url: text, custom_name })@;
            &&& action is Fetch
            &&& action->url == text@
            &&& action->custom_name is None <==> custom_name is None
            &&& custom_name is Some ==> action->custom_name == Some(custom_name->0@)
        }),
        parse_view(Ok(text)) == Ok::<Seq<char>, Seq<char>>(text@),
        parse_view(Err(text)) == Err::<Seq<char>, Seq<char>>(text@),
{
}

}
