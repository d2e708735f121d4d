//! Which chats have an upload, and who may stop it.

use url_uploader::bot::{
    Admission, Bot, CancelOutcome, BUSY_TEXT, CANCELLED_TEXT, NOT_YOURS_TEXT,
};
use url_uploader::pages::{upload_button, Button, Page, HELP_TEXT, SAMPLE_TEXT, WELCOME_TEXT};
use url_uploader::naming::{FileNameError, ResponseHead};
use url_uploader::transfer::{
    open_download, open_transfer, Opening, ReadAhead, PREFETCH_SIZE,
};

#[test]
fn one_upload_per_chat() {
    let mut bot = Bot::new(None);
    assert_eq!(bot.handle_url(1, Some(10)), Admission::Admitted);
    assert_eq!(
        bot.handle_url(1, Some(11)),
        Admission::Busy("✋ Whoa, slow down! There's already an active upload in this chat.")
    );
    assert_eq!(bot.handle_url(1, Some(10)), Admission::Busy(BUSY_TEXT));
    assert_eq!(bot.handle_url(2, Some(10)), Admission::Admitted);
    bot.release(1);
    assert_eq!(bot.handle_url(1, Some(11)), Admission::Admitted);
    assert_eq!(bot.handle_url(2, Some(11)), Admission::Busy(BUSY_TEXT));
}

#[test]
fn request_without_a_sender_reserves_nothing() {
    let mut bot = Bot::new(None);
    assert_eq!(bot.handle_url(1, None), Admission::NoSender);
    assert_eq!(bot.handle_url(1, Some(10)), Admission::Admitted);
    assert_eq!(bot.handle_url(1, None), Admission::NoSender);
}

#[test]
fn only_the_starter_cancels() {
    let mut bot = Bot::new(None);
    assert_eq!(bot.handle_cancel(1, 10), CancelOutcome::Nothing);
    bot.handle_url(1, Some(10));
    assert_eq!(bot.handle_cancel(1, 10), CancelOutcome::Nothing);
    assert_eq!(
        bot.handle_cancel(1, 11),
        CancelOutcome::Refused("⚠️ You can't cancel another user's upload")
    );
    assert_eq!(bot.arm(1, 7), None);
    assert_eq!(bot.handle_cancel(1, 11), CancelOutcome::Refused(NOT_YOURS_TEXT));
    assert_eq!(bot.handle_cancel(2, 10), CancelOutcome::Nothing);
    assert_eq!(
        bot.handle_cancel(1, 10),
        CancelOutcome::Cancelled { trigger: 7, notice: "Upload cancelled ✗" }
    );
}

#[test]
fn stopped_upload_keeps_its_chat_until_release() {
    let mut bot = Bot::new(None);
    bot.handle_url(1, Some(10));
    bot.arm(1, 7);
    assert_eq!(
        bot.handle_cancel(1, 10),
        CancelOutcome::Cancelled { trigger: 7, notice: CANCELLED_TEXT }
    );
    assert_eq!(bot.handle_cancel(1, 10), CancelOutcome::Nothing);
    assert_eq!(bot.handle_cancel(1, 11), CancelOutcome::Nothing);
    assert_eq!(bot.disarm(1), None);
    assert_eq!(bot.handle_url(1, Some(11)), Admission::Busy(BUSY_TEXT));
    bot.release(1);
    assert_eq!(bot.handle_url(1, Some(11)), Admission::Admitted);
}

#[test]
fn triggers_are_handed_back() {
    let mut bot = Bot::new(None);
    bot.handle_url(1, Some(10));
    assert_eq!(bot.arm(1, 7), None);
    assert_eq!(bot.arm(1, 8), Some(7));
    assert_eq!(bot.arm(2, 9), None);
    assert_eq!(bot.disarm(1), Some(8));
    assert_eq!(bot.disarm(1), None);
    assert_eq!(bot.disarm(2), Some(9));
}

#[test]
fn release_undoes_request() {
    let mut bot = Bot::new(None);
    bot.handle_url(1, Some(10));
    bot.arm(1, 7);
    bot.disarm(1);
    bot.release(1);
    assert_eq!(bot.handle_cancel(1, 10), CancelOutcome::Nothing);
    assert_eq!(bot.handle_cancel(1, 11), CancelOutcome::Nothing);
    assert_eq!(bot.handle_url(1, Some(11)), Admission::Admitted);
    assert_eq!(bot.handle_cancel(1, 10), CancelOutcome::Refused(NOT_YOURS_TEXT));
}

#[test]
fn buttons_lead_to_their_pages() {
    let bot = Bot::new(None);
    assert_eq!(bot.handle_start(), Page::Welcome);
    assert_eq!(bot.handle_callback(b"help"), Some(Page::Help));
    assert_eq!(bot.handle_callback(b"sample"), Some(Page::Sample));
    assert_eq!(bot.handle_callback(b"back"), Some(Page::Welcome));
    for page in [Page::Welcome, Page::Help, Page::Sample] {
        assert_eq!(page.buttons().len(), 2);
        for button in page.buttons() {
            let target = bot.handle_callback(button.data.as_bytes()).unwrap();
            assert_eq!(target.button(), button);
            assert_ne!(target, page);
        }
    }
    assert_eq!(
        Page::Welcome.buttons(),
        vec![
            Button { label: "Help", data: "help" },
            Button { label: "Sample", data: "sample" }
        ]
    );
    assert_eq!(Page::Help.buttons()[0], Button { label: "Back", data: "back" });
    assert_eq!(Page::Sample.buttons()[1], Button { label: "Help", data: "help" });
}

#[test]
fn other_data_asks_for_no_page() {
    let bot = Bot::new(None);
    assert_eq!(upload_button(), Button { label: "Cancel ✗", data: "cancel" });
    assert_eq!(bot.handle_callback(b"cancel"), None);
    assert_eq!(bot.handle_callback(b""), None);
    assert_eq!(bot.handle_callback(b"Help"), None);
    assert_eq!(bot.handle_callback(b"help "), None);
}

#[test]
fn pages_have_their_texts() {
    assert_eq!(Page::Welcome.text(), WELCOME_TEXT);
    assert_eq!(Page::Help.text(), HELP_TEXT);
    assert_eq!(Page::Sample.text(), SAMPLE_TEXT);
    assert!(WELCOME_TEXT.starts_with("𝑊𝑒𝑙𝑐𝑜𝑚𝑒 𝑡𝑜 𝑈𝑅𝐿 𝑈𝑝𝑙𝑜𝑎𝑑𝑒𝑟 𝑏𝑜𝑡\n\n𝐶𝑢𝑠𝑡𝑜𝑚 𝑓𝑖𝑙𝑒 𝑛𝑎𝑚𝑖𝑛𝑔\n➠ 𝑈𝑅𝐿 | 𝐹𝑖𝑙𝑒_𝑁𝑎𝑚𝑒\n\n<blockquote>"));
    assert!(WELCOME_TEXT.ends_with("</blockquote>\n\n✨ 𝐶𝑜𝑝𝑦 𝑎𝑛𝑑 𝑃𝑎𝑠𝑡𝑒 𝑦𝑜𝑢𝑟 𝑈𝑅𝐿 𝑡𝑜 𝑔𝑒𝑡 𝑠𝑡𝑎𝑟𝑡𝑒𝑑!"));
    assert_eq!(
        HELP_TEXT,
        "<b>Help</b>\n\nSend me a URL or use the /upload command!\n\nYou can specify a custom filename using <code>URL | filename</code>."
    );
    assert_eq!(
        SAMPLE_TEXT,
        "<b>Sample Usage</b>\n\nExample:\n<code>https://example.com/file.zip | MyFile.zip</code>\n\nThis will download and upload the file as 'MyFile.zip'."
    );
}

fn opening(len: Option<u64>) -> Opening {
    open_transfer("a.bin".to_string(), len)
}

#[test]
fn announced_sizes_are_bounded() {
    assert!(matches!(opening(Some(0)), Opening::Refuse("⚠️ File is empty")));
    assert!(matches!(opening(Some(1)), Opening::Known(_)));
    assert!(matches!(opening(Some(2_147_483_648)), Opening::Known(_)));
    assert!(matches!(opening(Some(2_147_483_649)), Opening::Refuse("⚠️ File is too large")));
    assert!(matches!(opening(Some(u64::MAX)), Opening::Refuse("⚠️ File is too large")));
    assert!(matches!(opening(None), Opening::Unknown(_)));
}

#[test]
fn file_of_known_size_is_sent_as_it_comes() {
    let file = match opening(Some(1_048_576)) {
        Opening::Known(file) => file,
        _ => panic!("the size is known"),
    };
    assert_eq!(
        file.status(),
        "<blockquote>📥 <b>Download Started</b>\n\n<b>File Name:</b> a.bin\n<b>Size:</b> 1.0 MB</blockquote>"
    );
    let sending = file.announced();
    assert_eq!(sending.name, "a.bin");
    assert_eq!(sending.size, 1_048_576);
    assert_eq!(sending.prefix, Vec::<u8>::new());
    assert_eq!(sending.total, Some(1_048_576));
}

#[test]
fn file_of_unknown_size_is_read_ahead() {
    let mut file = match opening(None) {
        Opening::Unknown(file) => file,
        _ => panic!("the size is unknown"),
    };
    assert_eq!(
        file.status(),
        "<blockquote>📥 <b>Starting download...</b>\n\n<b>File Name:</b> a.bin\n<b>Size:</b> Unknown</blockquote>"
    );
    assert_eq!(PREFETCH_SIZE, 32768);
    assert!(file.push(&[]));
    assert!(file.push(&[1, 2, 3]));
    assert!(file.push(&vec![4; 32764]));
    assert!(!file.push(&[5, 6]));
    let telling = match file.finish() {
        ReadAhead::Bytes(telling) => telling,
        ReadAhead::Nothing(_) => panic!("there were bytes"),
    };
    assert_eq!(
        telling.status(),
        "<blockquote>📤 <b>Uploading file...</b>\n\n<b>File Name:</b> a.bin\n<b>Size:</b> Unknown (streaming)</blockquote>"
    );
    let sending = telling.told();
    assert_eq!(sending.name, "a.bin");
    assert_eq!(sending.size, 0);
    assert_eq!(sending.total, None);
    assert_eq!(sending.prefix.len(), 32769);
    assert_eq!(sending.prefix[..4], [1, 2, 3, 4]);
    assert_eq!(sending.prefix[32766..], [4, 5, 6]);
}

#[test]
fn stream_without_bytes_is_not_uploaded() {
    let mut file = match opening(None) {
        Opening::Unknown(file) => file,
        _ => panic!("the size is unknown"),
    };
    assert!(file.push(&[]));
    assert!(matches!(
        file.finish(),
        ReadAhead::Nothing("⚠️ File is empty or could not be downloaded.")
    ));
}

fn response(path: &str, content_length: Option<u64>) -> ResponseHead {
    ResponseHead {
        path: path.to_string(),
        content_disposition: None,
        content_type: None,
        content_length,
    }
}

#[test]
fn downloads_are_opened_by_their_heads() {
    match open_download(&response("/a%20b.zip", Some(5)), None) {
        Ok(Opening::Known(file)) => {
            let sending = file.announced();
            assert_eq!(sending.name, "a b.zip");
            assert_eq!(sending.size, 5);
            assert_eq!(sending.total, Some(5));
        }
        _ => panic!("the size is known"),
    }
    match open_download(&response("/a.zip", None), Some("mine")) {
        Ok(Opening::Unknown(mut file)) => {
            file.push(&[9]);
            match file.finish() {
                ReadAhead::Bytes(file) => assert_eq!(file.told().name, "mine.zip"),
                ReadAhead::Nothing(_) => panic!("there were bytes"),
            }
        }
        _ => panic!("the size is unknown"),
    }
    assert!(matches!(
        open_download(&response("/a.zip", Some(0)), None),
        Ok(Opening::Refuse("⚠️ File is empty"))
    ));
    assert!(matches!(
        open_download(&response("/a.zip", Some(2_147_483_649)), None),
        Ok(Opening::Refuse("⚠️ File is too large"))
    ));
    assert!(matches!(
        open_download(&response("/%ff.zip", Some(0)), None),
        Err(FileNameError::NotUtf8)
    ));
}

#[test]
fn requests_leave_no_trace_among_others() {
    let mut bot = Bot::new(None);
    bot.handle_url(2, Some(20));
    bot.handle_url(1, Some(10));
    bot.arm(2, 8);
    bot.arm(1, 7);
    bot.handle_cancel(1, 10);
    bot.handle_url(3, Some(10));
    bot.disarm(1);
    bot.release(1);
    assert_eq!(bot.handle_cancel(1, 10), CancelOutcome::Nothing);
    assert_eq!(bot.disarm(1), None);
    assert_eq!(bot.handle_url(2, Some(10)), Admission::Busy(BUSY_TEXT));
    assert_eq!(bot.handle_url(3, Some(20)), Admission::Busy(BUSY_TEXT));
    assert_eq!(
        bot.handle_cancel(2, 20),
        CancelOutcome::Cancelled { trigger: 8, notice: CANCELLED_TEXT }
    );
    assert_eq!(bot.handle_url(1, Some(30)), Admission::Admitted);
}
