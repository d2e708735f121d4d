//! Which messages the bot acts on, and how it reads links and commands.

use url_uploader::bot::{route_command, Bot, ChatKind, CommandRoute};
use url_uploader::command::{parse_command, Command};
use url_uploader::request::{
    answer_upload, choose_link, handle_link, handle_upload, split_bar, MessageAction,
};

fn bot() -> Bot {
    Bot::new(Some("UploadBot".to_string()))
}

fn fetch(url: &str, name: Option<&str>) -> MessageAction {
    MessageAction::Fetch {
        url: url.to_string(),
        custom_name: name.map(|n| n.to_string()),
    }
}

fn reply(text: &str) -> MessageAction {
    MessageAction::Reply(text.to_string())
}

fn command(name: &str, via: Option<&str>, arg: Option<&str>) -> Command {
    Command {
        name: name.to_string(),
        via: via.map(|v| v.to_string()),
        arg: arg.map(|a| a.to_string()),
    }
}

#[test]
fn commands_are_read_back() {
    assert_eq!(parse_command("/start"), Some(command("start", None, None)));
    assert_eq!(
        parse_command("/upload@UploadBot https://a.org/x | y"),
        Some(command("upload", Some("UploadBot"), Some("https://a.org/x | y")))
    );
    assert_eq!(
        parse_command("/upload\nhttps://a.org/x"),
        Some(command("upload", None, Some("https://a.org/x")))
    );
    assert_eq!(parse_command("/upload "), Some(command("upload", None, Some(""))));
    assert_eq!(parse_command("/a@b@c"), Some(command("a", Some("b@c"), None)));
    assert_eq!(parse_command("/"), Some(command("", None, None)));
    assert_eq!(parse_command("start"), None);
    assert_eq!(parse_command(" /start"), None);
    assert_eq!(parse_command(""), None);
}

#[test]
fn channels_get_no_answer() {
    let bot = bot();
    assert_eq!(bot.handle_message(ChatKind::Channel, "/start"), MessageAction::Ignore);
    assert_eq!(bot.handle_message(ChatKind::Channel, "https://a.org/x"), MessageAction::Ignore);
    assert_eq!(
        bot.handle_message(ChatKind::Channel, "/upload@UploadBot https://a.org/x"),
        MessageAction::Ignore
    );
}

#[test]
fn start_in_a_group_must_name_the_bot() {
    let bot = bot();
    assert_eq!(bot.handle_message(ChatKind::User, "/start"), MessageAction::Start);
    assert_eq!(bot.handle_message(ChatKind::Group, "/start"), MessageAction::Ignore);
    assert_eq!(bot.handle_message(ChatKind::Group, "/start@UploadBot"), MessageAction::Start);
    assert_eq!(
        bot.handle_message(ChatKind::Group, "/upload https://a.org/x"),
        fetch("https://a.org/x", None)
    );
}

#[test]
fn bots_are_told_apart_without_regard_to_case() {
    let bot = bot();
    assert_eq!(bot.handle_message(ChatKind::User, "/start@uploadBOT"), MessageAction::Start);
    assert_eq!(bot.handle_message(ChatKind::User, "/start@OtherBot"), MessageAction::Ignore);
    assert_eq!(bot.handle_message(ChatKind::User, "/start@"), MessageAction::Ignore);
    assert!(bot.is_meant_for_another(&command("x", Some("uploadbo"), None)));
    assert!(!bot.is_meant_for_another(&command("x", Some("UPLOADBOT"), None)));
    assert!(!bot.is_meant_for_another(&command("x", None, None)));
    let nameless = Bot::new(None);
    assert_eq!(nameless.handle_message(ChatKind::User, "/start@"), MessageAction::Start);
    assert_eq!(nameless.handle_message(ChatKind::User, "/start@x"), MessageAction::Ignore);
}

#[test]
fn commands_are_routed() {
    let start = command("start", None, None);
    assert_eq!(route_command(ChatKind::User, &start, true), CommandRoute::Drop);
    assert_eq!(route_command(ChatKind::User, &start, false), CommandRoute::Start);
    assert_eq!(route_command(ChatKind::Group, &start, false), CommandRoute::Drop);
    let upload = command("upload", None, None);
    assert_eq!(route_command(ChatKind::Group, &upload, false), CommandRoute::Upload);
    let other = command("Start", None, None);
    assert_eq!(route_command(ChatKind::User, &other, false), CommandRoute::Other);
}

#[test]
fn unknown_commands_are_read_as_links() {
    let bot = bot();
    assert_eq!(bot.handle_message(ChatKind::User, "/help"), MessageAction::Ignore);
    assert_eq!(
        bot.route_message(
            ChatKind::User,
            "https://a.org/x",
            Some(command("something", None, None))
        ),
        fetch("https://a.org/x", None)
    );
    assert_eq!(
        bot.route_message(
            ChatKind::Group,
            "https://a.org/x",
            Some(command("something", None, None))
        ),
        MessageAction::Ignore
    );
}

#[test]
fn links_are_read_only_from_users() {
    let bot = bot();
    assert_eq!(
        bot.handle_message(ChatKind::User, " https://a.org/x "),
        fetch("https://a.org/x", None)
    );
    assert_eq!(bot.handle_message(ChatKind::Group, "https://a.org/x"), MessageAction::Ignore);
    assert_eq!(bot.handle_message(ChatKind::User, "hello"), MessageAction::Ignore);
    assert_eq!(bot.handle_message(ChatKind::User, ""), MessageAction::Ignore);
}

#[test]
fn urls_come_back_serialized() {
    assert_eq!(handle_link("HTTPS://EXAMPLE.com"), fetch("https://example.com/", None));
    assert_eq!(
        handle_upload(Some("HTTP://Example.com/a b")),
        fetch("http://example.com/a%20b", None)
    );
}

#[test]
fn bar_names_the_file() {
    for text in [
        "https://example.com/file.zip | MyFile.zip",
        "https://example.com/file.zip|MyFile.zip",
        "\t https://example.com/file.zip\n|  MyFile.zip \u{3000}",
    ] {
        let expected = fetch("https://example.com/file.zip", Some("MyFile.zip"));
        assert_eq!(handle_link(text), expected);
        assert_eq!(handle_upload(Some(text)), expected);
    }
    assert_eq!(
        handle_link("https://a.org/x | a | b"),
        fetch("https://a.org/x", Some("a | b"))
    );
}

#[test]
fn text_with_an_empty_side_is_read_as_a_whole() {
    assert_eq!(handle_link("https://a.org/x |"), fetch("https://a.org/x%20|", None));
    assert_eq!(handle_link("| name"), MessageAction::Ignore);
    assert_eq!(handle_link("nothing | name"), MessageAction::Ignore);
    assert_eq!(split_bar("a | b"), ("a", Some("b")));
    assert_eq!(split_bar(" a |"), ("a", Some("")));
    assert_eq!(split_bar(" a "), ("a", None));
}

#[test]
fn link_before_the_bar_comes_first() {
    let good = || Ok("https://a.org/".to_string());
    let whole = || Ok("https://b.org/".to_string());
    let bad = || Err("no".to_string());
    assert_eq!(choose_link(Some((good(), "n")), whole()), fetch("https://a.org/", Some("n")));
    assert_eq!(choose_link(Some((good(), "n")), bad()), fetch("https://a.org/", Some("n")));
    assert_eq!(choose_link(Some((bad(), "n")), whole()), fetch("https://b.org/", None));
    assert_eq!(choose_link(None, whole()), fetch("https://b.org/", None));
    assert_eq!(choose_link(None, bad()), MessageAction::Ignore);
}

#[test]
fn upload_without_a_url_is_answered() {
    let bot = bot();
    assert_eq!(bot.handle_message(ChatKind::User, "/upload"), reply("Please specify a URL"));
    assert_eq!(handle_upload(None), reply("Please specify a URL"));
    assert_eq!(handle_upload(Some("  ")), reply("Please specify a valid URL"));
    assert_eq!(handle_upload(Some(" | name")), reply("Please specify a valid URL"));
}

#[test]
fn upload_of_an_invalid_url_is_answered() {
    assert_eq!(
        handle_upload(Some("nothing")),
        reply("Invalid URL 'nothing': relative URL without a base")
    );
    assert_eq!(
        handle_upload(Some(" http:// | name")),
        reply("Invalid URL 'http://': empty host")
    );
    assert_eq!(
        answer_upload("x", Some("n"), Err("why".to_string())),
        reply("Invalid URL 'x': why")
    );
    assert_eq!(
        answer_upload("x", Some("n"), Ok("y".to_string())),
        fetch("y", Some("n"))
    );
}

#[test]
fn upload_keeps_an_empty_name() {
    assert_eq!(handle_upload(Some("https://a.org/x |")), fetch("https://a.org/x", Some("")));
}
