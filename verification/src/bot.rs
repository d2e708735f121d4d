//! The bot: which messages it acts on, and which chats have an upload.

use crate::command::{
    command_of, command_text, law_command_reads_back, parse_command, Command, CommandView,
};
use crate::outside::{lowercase, parsed_url};
use crate::pages::{page_for, requested_page, Page};
use crate::request::{
    handle_link, handle_upload, law_bar_names_the_file, law_plain_link_is_fetched, link_action,
    upload_action, MessageAction, MessageActionView,
};
use crate::tables::{
    entries, lookup, map_get, map_insert, map_remove, members, new_map, new_set, set_insert,
    set_remove,
};
use crate::text::{all_in, bare, same_text, white_space, CharClass};
use dashmap::{DashMap, DashSet};
use vstd::prelude::*;

verus! {

/// The reply to a request in a chat that has an upload.
pub const BUSY_TEXT: &'static str = "✋ Whoa, slow down! There's already an active upload in this chat.";

/// The alert for a user who tries to stop the upload of another one.
pub const NOT_YOURS_TEXT: &'static str = "⚠️ You can't cancel another user's upload";

/// What the status message of a stopped upload says.
pub const CANCELLED_TEXT: &'static str = "Upload cancelled ✗";

/// Where a message was sent.
#[derive(Clone, Copy, Debug, PartialEq, Eq, Structural)]
pub enum ChatKind {
    /// A conversation with one user.
    User,
    /// A group.
    Group,
    /// A channel.
    Channel,
}

/// What becomes of a command.
#[derive(Clone, Copy, Debug, PartialEq, Eq, Structural)]
pub enum CommandRoute {
    /// Nothing is done about the message.
    Drop,
    /// It is answered as a request for the welcome page.
    Start,
    /// It is answered as a request for an upload.
    Upload,
    /// It is no command of this bot: the message is read as any other text.
    Other,
}

/// What becomes of a request for an upload.
#[derive(Clone, Copy, Debug, PartialEq, Eq)]
pub enum Admission {
    /// Nobody sent it: nothing is done.
    NoSender,
    /// The chat has an upload: the text is sent in reply.
    Busy(&'static str),
    /// The chat is now reserved for the upload.
    Admitted,
}

/// The texts of an [`Admission`].
pub enum AdmissionView {
    NoSender,
    Busy(Seq<char>),
    Admitted,
}

impl View for Admission {
    type V = AdmissionView;

    open spec fn view(&self) -> AdmissionView {
        match self {
            Admission::NoSender => AdmissionView::NoSender,
            Admission::Busy(text) => AdmissionView::Busy(text@),
            Admission::Admitted => AdmissionView::Admitted,
        }
    }
}

/// What becomes of an attempt to stop an upload.
#[derive(Clone, Copy, Debug, PartialEq, Eq)]
pub enum CancelOutcome {
    /// Nobody's upload runs in the chat, or none that has begun to send: nothing
    /// is done.
    Nothing,
    /// Another user's upload runs in the chat: the text is shown as an alert.
    Refused(&'static str),
    /// The upload is stopped.
    Cancelled {
        /// The trigger to drop, which ends the stream of the upload.
        trigger: i64,
        /// What the status message now says.
        notice: &'static str,
    },
}

/// The texts of a [`CancelOutcome`].
pub enum CancelOutcomeView {
    Nothing,
    Refused(Seq<char>),
    Cancelled { trigger: i64, notice: Seq<char> },
}

impl View for CancelOutcome {
    type V = CancelOutcomeView;

    open spec fn view(&self) -> CancelOutcomeView {
        match self {
            CancelOutcome::Nothing => CancelOutcomeView::Nothing,
            CancelOutcome::Refused(text) => CancelOutcomeView::Refused(text@),
            CancelOutcome::Cancelled { trigger, notice } => CancelOutcomeView::Cancelled {
                trigger: *trigger,
                notice: notice@,
            },
        }
    }
}

/// The state of the bot.
pub struct BotView {
    /// The bot's own user name.
    pub username: Option<Seq<char>>,
    /// The chats that are reserved for an upload.
    pub locks: Set<i64>,
    /// The users who started the uploads, by chat.
    pub started_by: Map<i64, i64>,
    /// The triggers that end the streams of the uploads, by chat.
    pub triggers: Map<i64, i64>,
}

/// What happens to the tables of the bot.
pub enum Event {
    /// A request for an upload in `chat`, by `sender` where it has one.
    Request { chat: i64, sender: Option<i64> },
    /// The upload in `chat` begins to send; `trigger` ends its stream.
    Arm { chat: i64, trigger: i64 },
    /// The upload in `chat` no longer sends.
    Disarm { chat: i64 },
    /// The request in `chat` has been dealt with.
    Release { chat: i64 },
    /// `user` presses the button that stops the upload in `chat`.
    Cancel { chat: i64, user: i64 },
}

impl Event {
    /// The chat where it happens.
    pub open spec fn chat(self) -> i64 {
        match self {
            Event::Request { chat, .. } => chat,
            Event::Arm { chat, .. } => chat,
            Event::Disarm { chat } => chat,
            Event::Release { chat } => chat,
            Event::Cancel { chat, .. } => chat,
        }
    }
}

impl BotView {
    /// The state of a new bot: there is no upload in any chat.
    pub open spec fn fresh(username: Option<Seq<char>>) -> BotView {
        BotView {
            username,
            locks: Set::empty(),
            started_by: Map::empty(),
            triggers: Map::empty(),
        }
    }

    /// How a request for an upload is answered.
    pub open spec fn admission(self, chat: i64, sender: Option<i64>) -> AdmissionView {
        if sender is None {
            AdmissionView::NoSender
        } else if self.locks.contains(chat) {
            AdmissionView::Busy(BUSY_TEXT@)
        } else {
            AdmissionView::Admitted
        }
    }

    /// How an attempt of `user` to stop the upload in `chat` is answered.
    pub open spec fn cancel_outcome(self, chat: i64, user: i64) -> CancelOutcomeView {
        match (lookup(self.started_by, chat), lookup(self.triggers, chat)) {
            (None, _) => CancelOutcomeView::Nothing,
            (Some(starter), trigger) => if starter != user {
                CancelOutcomeView::Refused(NOT_YOURS_TEXT@)
            } else {
                match trigger {
                    Some(trigger) => CancelOutcomeView::Cancelled {
                        trigger,
                        notice: CANCELLED_TEXT@,
                    },
                    None => CancelOutcomeView::Nothing,
                }
            },
        }
    }

    /// The state after `event`.
    pub open spec fn after(self, event: Event) -> BotView {
        match event {
            Event::Request { chat, sender } => if self.admission(chat, sender) is Admitted {
                BotView {
                    locks: self.locks.insert(chat),
                    started_by: self.started_by.insert(chat, sender->0),
                    ..self
                }
            } else {
                self
            },
            Event::Arm { chat, trigger } => BotView {
                triggers: self.triggers.insert(chat, trigger),
                ..self
            },
            Event::Disarm { chat } => BotView { triggers: self.triggers.remove(chat), ..self },
            Event::Release { chat } => BotView {
                locks: self.locks.remove(chat),
                started_by: self.started_by.remove(chat),
                ..self
            },
            Event::Cancel { chat, user } => if self.cancel_outcome(chat, user) is Cancelled {
                BotView {
                    started_by: self.started_by.remove(chat),
                    triggers: self.triggers.remove(chat),
                    ..self
                }
            } else {
                self
            },
        }
    }
}

/// Whether a command names another bot than the one called `username`. User names
/// are compared without regard to case; a bot without one is called by the empty
/// name.
pub open spec fn meant_for_another(command: CommandView, username: Option<Seq<char>>) -> bool {
    match command.via {
        Some(via) => lowercase(via) != lowercase(
            match username {
                Some(username) => username,
                None => Seq::empty(),
            },
        ),
        None => false,
    }
}

/// What becomes of a command in a chat, where `elsewhere` says whether it is meant
/// for another bot.
pub open spec fn command_route(
    chat: ChatKind,
    command: CommandView,
    elsewhere: bool,
) -> CommandRoute {
    if elsewhere {
        CommandRoute::Drop
    } else if chat == ChatKind::Group && command.name == "start"@ && command.via is None {
        CommandRoute::Drop
    } else if command.name == "start"@ {
        CommandRoute::Start
    } else if command.name == "upload"@ {
        CommandRoute::Upload
    } else {
        CommandRoute::Other
    }
}

/// What a text asks for that holds no command of this bot: links are read only in
/// conversations with one user.
pub open spec fn free_text_action(chat: ChatKind, text: Seq<char>) -> MessageActionView {
    if chat == ChatKind::User {
        link_action(text)
    } else {
        MessageActionView::Ignore
    }
}

/// What a message asks for, in which `command` was read.
pub open spec fn message_action(
    chat: ChatKind,
    text: Seq<char>,
    command: Option<CommandView>,
    username: Option<Seq<char>>,
) -> MessageActionView {
    if chat == ChatKind::Channel {
        MessageActionView::Ignore
    } else {
        match command {
            None => free_text_action(chat, text),
            Some(command) => match command_route(
                chat,
                command,
                meant_for_another(command, username),
            ) {
                CommandRoute::Drop => MessageActionView::Ignore,
                CommandRoute::Start => MessageActionView::Start,
                CommandRoute::Upload => upload_action(command.arg),
                CommandRoute::Other => free_text_action(chat, text),
            },
        }
    }
}

/// Decides what becomes of a command.
pub fn route_command(chat: ChatKind, command: &Command, elsewhere: bool) -> (route: CommandRoute)
    ensures
        route == command_route(chat, command@, elsewhere),
{
    if elsewhere {
        return CommandRoute::Drop;
    }
    let name = command.name.as_str();
    if same_text(name, "start") {
        if chat == ChatKind::Group && command.via.is_none() {
            CommandRoute::Drop
        } else {
            CommandRoute::Start
        }
    } else if same_text(name, "upload") {
        CommandRoute::Upload
    } else {
        CommandRoute::Other
    }
}

/// The bot, apart from its connections.
pub struct Bot {
    username: Option<String>,
    locks: DashSet<i64>,
    started_by: DashMap<i64, i64>,
    triggers: DashMap<i64, i64>,
}

impl View for Bot {
    type V = BotView;

    closed spec fn view(&self) -> BotView {
        BotView {
            username: self.username.deep_view(),
            locks: members(self.locks),
            started_by: entries(self.started_by),
            triggers: entries(self.triggers),
        }
    }
}

impl Bot {
    /// A bot called `username`, with no upload in any chat.
    pub fn new(username: Option<String>) -> (bot: Bot)
        ensures
            bot@ == BotView::fresh(username.deep_view()),
    {
        Bot { username, locks: new_set(), started_by: new_map(), triggers: new_map() }
    }

    /// Decides what a message asks for.
    pub fn handle_message(&self, chat: ChatKind, text: &str) -> (action: MessageAction)
        ensures
            action@ == message_action(chat, text@, command_of(text@), self@.username),
    {
        self.route_message(chat, text, parse_command(text))
    }

    /// Decides what a message asks for, in which `command` was read.
    pub fn route_message(&self, chat: ChatKind, text: &str, command: Option<Command>) -> (action:
        MessageAction)
        ensures
            action@ == message_action(
                chat,
                text@,
                match command {
                    Some(command) => Some(command@),
                    None => None,
                },
                self@.username,
            ),
    {
        if chat == ChatKind::Channel {
            return MessageAction::Ignore;
        }
        if let Some(command) = command {
            let elsewhere = self.is_meant_for_another(&command);
            match route_command(chat, &command, elsewhere) {
                CommandRoute::Drop => {
                    return MessageAction::Ignore;
                },
                CommandRoute::Start => {
                    return MessageAction::Start;
                },
                CommandRoute::Upload => {
                    return match &command.arg {
                        Some(arg) => handle_upload(Some(arg.as_str())),
                        None => handle_upload(None),
                    };
                },
                CommandRoute::Other => {},
            }
        }
        if chat == ChatKind::User {
            handle_link(text)
        } else {
            MessageAction::Ignore
        }
    }

    /// Tells whether a command names another bot.
    pub fn is_meant_for_another(&self, command: &Command) -> (elsewhere: bool)
        ensures
            elsewhere == meant_for_another(command@, self@.username),
    {
        match &command.via {
            Some(via) => {
                let own = match &self.username {
                    Some(username) => username.as_str().to_lowercase(),
                    None => {
                        let none = String::new();
                        none.as_str().to_lowercase()
                    },
                };
                !same_text(via.as_str().to_lowercase().as_str(), own.as_str())
            },
            None => false,
        }
    }

    /// The page that `/start` is answered with.
    pub fn handle_start(&self) -> (page: Page)
        ensures
            page == Page::Welcome,
    {
        Page::Welcome
    }

    /// Finds the page that the data of a pressed button asks for. Data that asks
    /// for no page is not answered; that of the button on uploads is among it.
    pub fn handle_callback(&self, data: &[u8]) -> (page: Option<Page>)
        ensures
            page == requested_page(data@),
    {
        page_for(data)
    }

    /// Admits a request for an upload in a chat where no other upload runs, and
    /// reserves the chat for it.
    pub fn handle_url(&mut self, chat: i64, sender: Option<i64>) -> (admission: Admission)
        ensures
            admission@ == old(self)@.admission(chat, sender),
            final(self)@ == old(self)@.after(Event::Request { chat, sender }),
    {
        match sender {
            None => Admission::NoSender,
            Some(sender) => if set_insert(&mut self.locks, chat) {
                let _ = map_insert(&mut self.started_by, chat, sender);
                Admission::Admitted
            } else {
                assert(old(self)@.locks.insert(chat) =~= old(self)@.locks);
                Admission::Busy(BUSY_TEXT)
            },
        }
    }

    /// Notes the trigger that ends the stream of the upload in `chat`. What comes
    /// back is the one that stood there, which is to be dropped.
    pub fn arm(&mut self, chat: i64, trigger: i64) -> (replaced: Option<i64>)
        ensures
            replaced == lookup(old(self)@.triggers, chat),
            final(self)@ == old(self)@.after(Event::Arm { chat, trigger }),
    {
        map_insert(&mut self.triggers, chat, trigger)
    }

    /// Forgets the trigger of the upload in `chat`. What comes back is to be
    /// dropped.
    pub fn disarm(&mut self, chat: i64) -> (trigger: Option<i64>)
        ensures
            trigger == lookup(old(self)@.triggers, chat),
            final(self)@ == old(self)@.after(Event::Disarm { chat }),
    {
        map_remove(&mut self.triggers, chat)
    }

    /// Ends the reservation of `chat`.
    pub fn release(&mut self, chat: i64)
        ensures
            final(self)@ == old(self)@.after(Event::Release { chat }),
    {
        set_remove(&mut self.locks, chat);
        let _ = map_remove(&mut self.started_by, chat);
    }

    /// Stops the upload in `chat` if `user` started it.
    pub fn handle_cancel(&mut self, chat: i64, user: i64) -> (outcome: CancelOutcome)
        ensures
            outcome@ == old(self)@.cancel_outcome(chat, user),
            final(self)@ == old(self)@.after(Event::Cancel { chat, user }),
    {
        match map_get(&self.started_by, chat) {
            None => CancelOutcome::Nothing,
            Some(starter) => {
                if starter != user {
                    return CancelOutcome::Refused(NOT_YOURS_TEXT);
                }
                match map_remove(&mut self.triggers, chat) {
                    Some(trigger) => {
                        let _ = map_remove(&mut self.started_by, chat);
                        CancelOutcome::Cancelled { trigger, notice: CANCELLED_TEXT }
                    },
                    None => {
                        assert(old(self)@.triggers.remove(chat) =~= old(self)@.triggers);
                        CancelOutcome::Nothing
                    },
                }
            },
        }
    }
}

impl BotView {
    /// Whether the tables fit together: an upload that sends has a starter, and a
    /// chat where someone started an upload is reserved.
    pub open spec fn consistent(self) -> bool {
        &&& self.triggers.dom().subset_of(self.started_by.dom())
        &&& self.started_by.dom().subset_of(self.locks)
    }

    /// Whether `event` comes in the order in which an upload goes on: it begins to
    /// send while it has a starter, and the chat is released when it no longer
    /// sends.
    pub open spec fn in_order(self, event: Event) -> bool {
        match event {
            Event::Arm { chat, .. } => self.started_by.dom().contains(chat),
            Event::Release { chat } => !self.triggers.dom().contains(chat),
            _ => true,
        }
    }

    /// The state after `events`, one after the other.
    pub open spec fn after_all(self, events: Seq<Event>) -> BotView
        decreases events.len(),
    {
        if events.len() == 0 {
            self
        } else {
            self.after(events[0]).after_all(events.skip(1))
        }
    }

    /// Whether each of `events` comes in the order in which an upload goes on.
    pub open spec fn all_in_order(self, events: Seq<Event>) -> bool
        decreases events.len(),
    {
        events.len() > 0 ==> self.in_order(events[0]) && self.after(events[0]).all_in_order(
            events.skip(1),
        )
    }
}

/// Law: a new bot's tables fit together, and whatever happens, in any number of chats
/// at once, they go on doing so.
pub proof fn law_tables_stay_consistent(bot: BotView, events: Seq<Event>)
    requires
        bot.consistent(),
        bot.all_in_order(events),
    ensures
        BotView::fresh(bot.username).consistent(),
        bot.after_all(events).consistent(),
    decreases events.len(),
{
    if events.len() > 0 {
        law_tables_stay_consistent(bot.after(events[0]), events.skip(1));
    }
}

impl BotView {
    /// Whether the tables of two states hold the same about `chat`.
    pub open spec fn same_in(self, other: BotView, chat: i64) -> bool {
        &&& self.locks.contains(chat) == other.locks.contains(chat)
        &&& lookup(self.started_by, chat) == lookup(other.started_by, chat)
        &&& lookup(self.triggers, chat) == lookup(other.triggers, chat)
    }

    /// Whether no table holds anything about `chat`.
    pub open spec fn clear_of(self, chat: i64) -> bool {
        &&& !self.locks.contains(chat)
        &&& !self.started_by.dom().contains(chat)
        &&& !self.triggers.dom().contains(chat)
    }
}

/// Those of `events` that happen in `chat`, if `here` is set, or else those that
/// happen elsewhere, in their order.
pub open spec fn events_of(events: Seq<Event>, chat: i64, here: bool) -> Seq<Event>
    decreases events.len(),
{
    if events.len() == 0 {
        events
    } else if (events[0].chat() == chat) == here {
        seq![events[0]] + events_of(events.skip(1), chat, here)
    } else {
        events_of(events.skip(1), chat, here)
    }
}

/// Law: what happens in other chats, however much it is, changes nothing in a chat.
pub proof fn law_chats_are_independent(bot: BotView, events: Seq<Event>, chat: i64)
    requires
        forall|i: int| 0 <= i < events.len() ==> (#[trigger] events[i]).chat() != chat,
    ensures
        bot.after_all(events).same_in(bot, chat),
    decreases events.len(),
{
    if events.len() > 0 {
        assert(events[0].chat() != chat);
        assert forall|i: int| 0 <= i < events.skip(1).len() implies (
        #[trigger] events.skip(1)[i]).chat() != chat by {
            assert(events.skip(1)[i] == events[i + 1]);
        }
        law_chats_are_independent(bot.after(events[0]), events.skip(1), chat);
    }
}

/// Law: what has become of a chat depends on what happened in that chat alone,
/// however that was interleaved with what happened in others.
pub proof fn law_interleaving_does_not_matter(bot: BotView, events: Seq<Event>, chat: i64)
    ensures
        bot.after_all(events).same_in(bot.after_all(events_of(events, chat, true)), chat),
{
    same_events_same_chat(bot, bot, events, chat);
}

proof fn same_events_same_chat(bot: BotView, other: BotView, events: Seq<Event>, chat: i64)
    requires
        bot.same_in(other, chat),
    ensures
        bot.after_all(events).same_in(other.after_all(events_of(events, chat, true)), chat),
    decreases events.len(),
{
    if events.len() > 0 {
        let rest = events.skip(1);
        if events[0].chat() == chat {
            let own = events_of(events, chat, true);
            assert(own.skip(1) =~= events_of(rest, chat, true));
            same_events_same_chat(bot.after(events[0]), other.after(events[0]), rest, chat);
        } else {
            same_events_same_chat(bot.after(events[0]), other, rest, chat);
        }
    }
}

/// Law: a request that is not admitted changes nothing.
pub proof fn law_refused_request_changes_nothing(bot: BotView, chat: i64, sender: Option<i64>)
    requires
        !(bot.admission(chat, sender) is Admitted),
    ensures
        bot.after(Event::Request { chat, sender }) == bot,
{
}

/// Law: from the admission of a request until the chat is released, whatever
/// happens, every further request in that chat is told that there is an upload.
pub proof fn law_one_upload_per_chat(
    bot: BotView,
    chat: i64,
    sender: i64,
    events: Seq<Event>,
    later: i64,
)
    requires
        bot.admission(chat, Some(sender)) is Admitted,
        forall|i: int| 0 <= i < events.len() ==> #[trigger] events[i] != (Event::Release { chat }),
    ensures
        bot.after(Event::Request { chat, sender: Some(sender) }).after_all(events).admission(
            chat,
            Some(later),
        ) == AdmissionView::Busy(BUSY_TEXT@),
{
    reserved_until_released(
        bot.after(Event::Request { chat, sender: Some(sender) }),
        chat,
        events,
    );
}

proof fn reserved_until_released(bot: BotView, chat: i64, events: Seq<Event>)
    requires
        bot.locks.contains(chat),
        forall|i: int| 0 <= i < events.len() ==> #[trigger] events[i] != (Event::Release { chat }),
    ensures
        bot.after_all(events).locks.contains(chat),
    decreases events.len(),
{
    if events.len() > 0 {
        assert(events[0] != (Event::Release { chat }));
        assert forall|i: int| 0 <= i < events.skip(1).len() implies #[trigger] events.skip(1)[i] != (
        Event::Release { chat }) by {
            assert(events.skip(1)[i] == events[i + 1]);
        }
        reserved_until_released(bot.after(events[0]), chat, events.skip(1));
    }
}

/// Law: when a request has been dealt with, no table holds anything about its chat,
/// whatever happened before.
pub proof fn law_release_clears_the_chat(bot: BotView, chat: i64, events: Seq<Event>)
    ensures
        bot.after_all(events).after(Event::Disarm { chat }).after(Event::Release { chat }).clear_of(
            chat,
        ),
{
}

/// Law: when a request has been dealt with, the bot is as if it had never been made.
/// Whatever happened in its chat in between, be it that the file was never sent, was
/// sent, or was stopped, has left no trace, and whatever happened in other chats is
/// all that has happened.
pub proof fn law_release_undoes_request(bot: BotView, chat: i64, sender: i64, events: Seq<Event>)
    requires
        bot.consistent(),
        bot.admission(chat, Some(sender)) is Admitted,
    ensures
        bot.after(Event::Request { chat, sender: Some(sender) }).after_all(events).after(
            Event::Disarm { chat },
        ).after(Event::Release { chat }) == bot.after_all(events_of(events, chat, false)),
{
    let request = Event::Request { chat, sender: Some(sender) };
    assert(bot.clear_of(chat));
    clearing_keeps_clear(bot, chat);
    clearing_forgets(bot, chat, request);
    clearing_forgets_all(bot.after(request), chat, events);
}

/// The state once a request in `chat` has been dealt with.
spec fn cleared(bot: BotView, chat: i64) -> BotView {
    bot.after(Event::Disarm { chat }).after(Event::Release { chat })
}

proof fn clearing_keeps_clear(bot: BotView, chat: i64)
    requires
        bot.clear_of(chat),
    ensures
        cleared(bot, chat) == bot,
{
    assert(cleared(bot, chat).locks =~= bot.locks);
    assert(cleared(bot, chat).started_by =~= bot.started_by);
    assert(cleared(bot, chat).triggers =~= bot.triggers);
}

/// Clearing a chat undoes what happened there, and comes to the same before and after
/// what happens elsewhere.
proof fn clearing_forgets(bot: BotView, chat: i64, event: Event)
    ensures
        cleared(bot.after(event), chat) == if event.chat() == chat {
            cleared(bot, chat)
        } else {
            cleared(bot, chat).after(event)
        },
{
    let left = cleared(bot.after(event), chat);
    let right = if event.chat() == chat {
        cleared(bot, chat)
    } else {
        cleared(bot, chat).after(event)
    };
    assert(left.locks =~= right.locks);
    assert(left.started_by =~= right.started_by);
    assert(left.triggers =~= right.triggers);
}

proof fn clearing_forgets_all(bot: BotView, chat: i64, events: Seq<Event>)
    ensures
        cleared(bot.after_all(events), chat) == cleared(bot, chat).after_all(
            events_of(events, chat, false),
        ),
    decreases events.len(),
{
    if events.len() > 0 {
        let rest = events.skip(1);
        clearing_forgets(bot, chat, events[0]);
        clearing_forgets_all(bot.after(events[0]), chat, rest);
        if events[0].chat() != chat {
            assert(events_of(events, chat, false).skip(1) =~= events_of(rest, chat, false));
        }
    }
}

/// Law: an upload is stopped exactly when the user who started it asks for that
/// while it sends, and then it is its own trigger that is dropped. Another user is
/// refused, and whatever is not stopped stays as it is.
pub proof fn law_only_the_starter_cancels(bot: BotView, chat: i64, user: i64)
    ensures
        bot.cancel_outcome(chat, user) is Cancelled <==> lookup(bot.started_by, chat) == Some(user)
            && lookup(bot.triggers, chat) is Some,
        bot.cancel_outcome(chat, user) is Cancelled ==> lookup(bot.triggers, chat) == Some(
            bot.cancel_outcome(chat, user)->trigger,
        ),
        bot.cancel_outcome(chat, user) == CancelOutcomeView::Refused(NOT_YOURS_TEXT@) <==> (lookup(
            bot.started_by,
            chat,
        ) is Some && lookup(bot.started_by, chat) != Some(user)),
        !(bot.cancel_outcome(chat, user) is Cancelled) ==> bot.after(Event::Cancel { chat, user })
            == bot,
{
}

/// Law: a stopped upload cannot be stopped again, by anyone, and its chat stays
/// reserved.
pub proof fn law_cancelled_once(bot: BotView, chat: i64, user: i64, another: i64)
    requires
        bot.cancel_outcome(chat, user) is Cancelled,
    ensures
        bot.after(Event::Cancel { chat, user }).cancel_outcome(chat, another)
            == CancelOutcomeView::Nothing,
        bot.after(Event::Cancel { chat, user }).locks == bot.locks,
{
}

/// Law: in channels nothing is answered.
pub proof fn law_channels_are_ignored(
    text: Seq<char>,
    command: Option<CommandView>,
    username: Option<Seq<char>>,
)
    ensures
        message_action(ChatKind::Channel, text, command, username) == MessageActionView::Ignore,
{
}

/// Law: in groups only two things are answered: a start command that names this
/// bot, and an upload command that names no other one.
pub proof fn law_groups_need_commands(
    text: Seq<char>,
    command: Option<CommandView>,
    username: Option<Seq<char>>,
)
    ensures
        message_action(ChatKind::Group, text, command, username) != MessageActionView::Ignore ==> {
            &&& command is Some
            &&& !meant_for_another(command->0, username)
            &&& command->0.name == "upload"@ || (command->0.name == "start"@ && command->0.via is Some)
        },
        message_action(ChatKind::Group, text, command, username) == MessageActionView::Start <==> {
            &&& command is Some
            &&& !meant_for_another(command->0, username)
            &&& command->0.name == "start"@
            &&& command->0.via is Some
        },
{
    reveal_strlit("start");
    reveal_strlit("upload");
}

/// Law: a command that is meant for another bot is not answered, in any chat.
pub proof fn law_other_bots_commands_are_ignored(
    chat: ChatKind,
    text: Seq<char>,
    command: CommandView,
    username: Option<Seq<char>>,
)
    requires
        meant_for_another(command, username),
    ensures
        message_action(chat, text, Some(command), username) == MessageActionView::Ignore,
{
}

/// Law: in a conversation with one user, a text without a command of this bot is
/// read as a link.
pub proof fn law_unknown_commands_are_read_as_links(
    text: Seq<char>,
    command: Option<CommandView>,
    username: Option<Seq<char>>,
)
    requires
        command is None || (!meant_for_another(command->0, username) && command->0.name != "start"@
            && command->0.name != "upload"@),
    ensures
        message_action(ChatKind::User, text, command, username) == link_action(text),
{
}

/// Law: in a conversation with one user, a message that holds a link, or a link and
/// a name on the two sides of a bar, has the file fetched from that link, under
/// that name. A link that starts with a slash would be read as a command.
pub proof fn law_link_messages_fetch(
    a: Seq<char>,
    url: Seq<char>,
    b: Seq<char>,
    c: Seq<char>,
    name: Seq<char>,
    d: Seq<char>,
    username: Option<Seq<char>>,
)
    requires
        all_in(a, CharClass::WhiteSpace),
        all_in(b, CharClass::WhiteSpace),
        all_in(c, CharClass::WhiteSpace),
        all_in(d, CharClass::WhiteSpace),
        bare(url, CharClass::WhiteSpace),
        bare(name, CharClass::WhiteSpace),
        !url.contains('|'),
        url[0] != '/',
        parsed_url(url) is Ok,
    ensures
        ({
            let plain = a + url + b;
            let named = a + url + b + seq!['|'] + c + name + d;
            let link = parsed_url(url)->Ok_0;
            &&& message_action(ChatKind::User, plain, command_of(plain), username) == (
            MessageActionView::Fetch { url: link, custom_name: None })
            &&& message_action(ChatKind::User, named, command_of(named), username) == (
            MessageActionView::Fetch { url: link, custom_name: Some(name) })
        }),
{
    let plain = a + url + b;
    let named = a + url + b + seq!['|'] + c + name + d;
    assert(plain[0] == if a.len() > 0 {
        a[0]
    } else {
        url[0]
    });
    assert(named[0] == plain[0]);
    assert(plain[0] != '/') by {
        if a.len() > 0 {
            assert(CharClass::WhiteSpace.has(a[0]));
        }
    }
    law_plain_link_is_fetched(a, url, b);
    law_bar_names_the_file(a, url, b, c, name, d);
}

/// Law: the upload command, in a group as well as in a conversation with one user,
/// has the file fetched from the link in its argument, under the name behind the
/// bar if there is one, unless it is meant for another bot.
pub proof fn law_upload_commands_fetch(
    chat: ChatKind,
    target: Option<Seq<char>>,
    a: Seq<char>,
    url: Seq<char>,
    b: Seq<char>,
    c: Seq<char>,
    name: Seq<char>,
    d: Seq<char>,
    username: Option<Seq<char>>,
)
    requires
        chat != ChatKind::Channel,
        target is Some ==> forall|i: int|
            0 <= i < target->0.len() ==> !white_space(#[trigger] target->0[i]),
        !meant_for_another(upload_command(target, a + url + b), username),
        all_in(a, CharClass::WhiteSpace),
        all_in(b, CharClass::WhiteSpace),
        all_in(c, CharClass::WhiteSpace),
        all_in(d, CharClass::WhiteSpace),
        bare(url, CharClass::WhiteSpace),
        bare(name, CharClass::WhiteSpace),
        !url.contains('|'),
        parsed_url(url) is Ok,
    ensures
        ({
            let plain = command_text(upload_command(target, a + url + b));
            let named = command_text(
                upload_command(target, a + url + b + seq!['|'] + c + name + d),
            );
            let link = parsed_url(url)->Ok_0;
            &&& message_action(chat, plain, command_of(plain), username) == (
            MessageActionView::Fetch { url: link, custom_name: None })
            &&& message_action(chat, named, command_of(named), username) == (
            MessageActionView::Fetch { url: link, custom_name: Some(name) })
        }),
{
    reveal_strlit("upload");
    reveal_strlit("start");
    assert("upload"@.len() != "start"@.len());
    let plain = a + url + b;
    let named = a + url + b + seq!['|'] + c + name + d;
    law_command_reads_back(upload_command(target, plain));
    law_command_reads_back(upload_command(target, named));
    law_plain_link_is_fetched(a, url, b);
    law_bar_names_the_file(a, url, b, c, name, d);
}

/// The upload command with the argument `arg`, meant for `target` if that is given.
pub open spec fn upload_command(target: Option<Seq<char>>, arg: Seq<char>) -> CommandView {
    CommandView { name: "upload"@, via: target, arg: Some(arg) }
}

/// Law: a request that has a sender is admitted exactly where its chat is not
/// reserved, whoever sends it, and is told that the chat is busy where it is. The chat
/// of an admitted request is reserved, and the sender has started the upload. A request
/// without a sender is never admitted.
pub proof fn law_requests_are_admitted_where_the_chat_is_free(bot: BotView, chat: i64, sender: i64)
    ensures
        bot.admission(chat, Some(sender)) is Admitted <==> !bot.locks.contains(chat),
        bot.admission(chat, Some(sender)) == AdmissionView::Busy(BUSY_TEXT@)
            <==> bot.locks.contains(chat),
        bot.admission(chat, None) is NoSender,
        bot.after(Event::Request { chat, sender: None }) == bot,
        ({
            let after = bot.after(Event::Request { chat, sender: Some(sender) });
            &&& after.locks.contains(chat)
            &&& !bot.locks.contains(chat) ==> after.started_by.dom().contains(chat)
                && after.started_by[chat] == sender
            &&& bot.locks.contains(chat) ==> after == bot
            &&& after.triggers == bot.triggers
        }),
{
}

/// Law: a new bot admits the request of any sender in any chat, and a bot whose chat
/// has just been released admits the next one there.
pub proof fn law_free_chats_admit_everyone(
    username: Option<Seq<char>>,
    bot: BotView,
    chat: i64,
    sender: i64,
)
    ensures
        BotView::fresh(username).admission(chat, Some(sender)) is Admitted,
        bot.after(Event::Release { chat }).admission(chat, Some(sender)) is Admitted,
        ({
            let again = Event::Request { chat, sender: Some(sender) };
            let after = bot.after(Event::Release { chat }).after(again);
            &&& after.locks.contains(chat)
            &&& after.started_by.dom().contains(chat)
            &&& after.started_by[chat] == sender
        }),
{
}

/// Law: a new bot has its name and nothing in its tables.
pub proof fn law_new_bots_have_empty_tables(username: Option<Seq<char>>, chat: i64)
    ensures
        BotView::fresh(username).username == username,
        !BotView::fresh(username).locks.contains(chat),
        !BotView::fresh(username).started_by.dom().contains(chat),
        !BotView::fresh(username).triggers.dom().contains(chat),
{
}

/// Law: what happens in chats does not change the bot's name.
pub proof fn law_bots_keep_their_names(bot: BotView, event: Event)
    ensures
        bot.after(event).username == bot.username,
{
}

/// Law: when an upload begins to send, its trigger is the one of its chat, whatever
/// stood there before, and when it no longer sends the chat has none. Reservations and
/// starters stay as they are.
pub proof fn law_triggers_are_kept_while_sending(bot: BotView, chat: i64, trigger: i64)
    ensures
        ({
            let after = bot.after(Event::Arm { chat, trigger });
            &&& after.triggers.dom().contains(chat)
            &&& after.triggers[chat] == trigger
            &&& after.locks == bot.locks
            &&& after.started_by == bot.started_by
        }),
        ({
            let after = bot.after(Event::Disarm { chat });
            &&& !after.triggers.dom().contains(chat)
            &&& after.locks == bot.locks
            &&& after.started_by == bot.started_by
        }),
{
}

/// Law: when a chat is released it is not reserved and nobody has started an upload
/// there. A trigger that is still there stays.
pub proof fn law_release_frees_the_chat(bot: BotView, chat: i64)
    ensures
        ({
            let after = bot.after(Event::Release { chat });
            &&& !after.locks.contains(chat)
            &&& !after.started_by.dom().contains(chat)
            &&& after.triggers == bot.triggers
        }),
{
}

/// Law: what a table holds under a chat is what was put there.
pub proof fn law_lookup_finds_what_is_there(table: Map<i64, i64>, chat: i64, value: i64)
    ensures
        lookup(table, chat) == Some(value) <==> table.dom().contains(chat) && table[chat] == value,
        lookup(table, chat) is None <==> !table.dom().contains(chat),
{
}

/// Law: an upload that sends is stopped by the user who started it, who is handed the
/// upload's own trigger and told so. After that the chat has neither a starter nor a
/// trigger. Another user is refused, and where no upload has been started, or the
/// starter's own does not send, nothing is done.
pub proof fn law_starters_stop_their_uploads(
    bot: BotView,
    chat: i64,
    starter: i64,
    trigger: i64,
    user: i64,
)
    ensures
        ({
            let started = BotView { started_by: bot.started_by.insert(chat, starter), ..bot };
            let idle = BotView { triggers: bot.triggers.remove(chat), ..started };
            let sends = BotView { triggers: bot.triggers.insert(chat, trigger), ..started };
            let after = sends.after(Event::Cancel { chat, user: starter });
            &&& sends.cancel_outcome(chat, starter) == (CancelOutcomeView::Cancelled {
                trigger,
                notice: CANCELLED_TEXT@,
            })
            &&& !after.started_by.dom().contains(chat)
            &&& !after.triggers.dom().contains(chat)
            &&& after.locks == bot.locks
            &&& idle.cancel_outcome(chat, starter) is Nothing
            &&& user != starter ==> started.cancel_outcome(chat, user)
                == CancelOutcomeView::Refused(NOT_YOURS_TEXT@)
            &&& user != starter ==> started.after(Event::Cancel { chat, user }) == started
        }),
        ({
            let none = BotView { started_by: bot.started_by.remove(chat), ..bot };
            &&& none.cancel_outcome(chat, user) is Nothing
            &&& none.after(Event::Cancel { chat, user }) == none
        }),
{
}

/// Law: an event in one chat changes nothing that any table holds about another.
pub proof fn law_events_stay_in_their_chat(bot: BotView, event: Event, other: i64)
    requires
        match event {
            Event::Request { chat, .. } => chat != other,
            Event::Arm { chat, .. } => chat != other,
            Event::Disarm { chat } => chat != other,
            Event::Release { chat } => chat != other,
            Event::Cancel { chat, .. } => chat != other,
        },
    ensures
        bot.after(event).locks.contains(other) <==> bot.locks.contains(other),
        lookup(bot.after(event).started_by, other) == lookup(bot.started_by, other),
        lookup(bot.after(event).triggers, other) == lookup(bot.triggers, other),
{
}

/// Law: a command that names a bot is meant for this one exactly where that name and
/// the bot's own have the same lower-case form; any other such message is ignored,
/// whatever it says and wherever it is sent. A bot without a name has the empty one, and
/// a command that names no bot is meant for every one.
pub proof fn law_commands_go_to_the_bot_that_they_name(
    chat: ChatKind,
    text: Seq<char>,
    command: CommandView,
    target: Seq<char>,
    own: Seq<char>,
)
    ensures
        ({
            let named = CommandView { via: Some(target), ..command };
            let unnamed = CommandView { via: None, ..command };
            &&& lowercase(target) != lowercase(own) ==> message_action(
                chat,
                text,
                Some(named),
                Some(own),
            ) is Ignore
            &&& lowercase(target) != lowercase(Seq::empty()) ==> message_action(
                chat,
                text,
                Some(named),
                None,
            ) is Ignore
            &&& meant_for_another(named, Some(own)) <==> lowercase(target) != lowercase(own)
            &&& meant_for_another(named, None) <==> lowercase(target) != lowercase(Seq::empty())
            &&& !meant_for_another(unnamed, Some(own))
            &&& !meant_for_another(unnamed, None)
        }),
{
}

/// Law: the start command asks for the welcome page, the upload command for what its
/// argument says, and any other one is read as a text, of which links are read in
/// conversations with one user only. The start command must name this bot in a group,
/// and may elsewhere; the upload command may, anywhere.
pub proof fn law_commands_are_acted_on(
    text: Seq<char>,
    name: Seq<char>,
    arg: Option<Seq<char>>,
    target: Seq<char>,
    own: Seq<char>,
)
    requires
        lowercase(target) == lowercase(own),
    ensures
        ({
            let user = ChatKind::User;
            let group = ChatKind::Group;
            let me = Some(own);
            let start = CommandView { name: "start"@, via: None, arg };
            let start_me = CommandView { name: "start"@, via: Some(target), arg };
            let upload = CommandView { name: "upload"@, via: None, arg };
            let upload_me = CommandView { name: "upload"@, via: Some(target), arg };
            let other = CommandView { name, via: None, arg };
            let other_me = CommandView { name, via: Some(target), arg };
            &&& message_action(user, text, Some(start), me) is Start
            &&& message_action(user, text, Some(start_me), me) is Start
            &&& message_action(group, text, Some(start), me) is Ignore
            &&& message_action(group, text, Some(start_me), me) is Start
            &&& message_action(user, text, Some(upload), me) == upload_action(arg)
            &&& message_action(user, text, Some(upload_me), me) == upload_action(arg)
            &&& message_action(group, text, Some(upload), me) == upload_action(arg)
            &&& message_action(group, text, Some(upload_me), me) == upload_action(arg)
            &&& name != "start"@ && name != "upload"@ ==> {
                &&& message_action(user, text, Some(other), me) == link_action(text)
                &&& message_action(user, text, Some(other_me), me) == link_action(text)
                &&& message_action(group, text, Some(other), me) is Ignore
                &&& message_action(group, text, Some(other_me), me) is Ignore
            }
            &&& message_action(user, text, None, me) == link_action(text)
            &&& message_action(group, text, None, me) is Ignore
        }),
{
    start_is_not_upload();
}

proof fn start_is_not_upload()
    ensures
        "start"@ != "upload"@,
{
    reveal_strlit("upload");
    reveal_strlit("start");
    assert("upload"@.len() != "start"@.len());
}

/// Law: to a bot without a name, commands that name no bot are as they are to any
/// other one.
pub proof fn law_commands_without_a_name_go_to_every_bot(
    chat: ChatKind,
    text: Seq<char>,
    command: CommandView,
    own: Seq<char>,
)
    requires
        command.via is None,
    ensures
        message_action(chat, text, Some(command), None) == message_action(
            chat,
            text,
            Some(command),
            Some(own),
        ),
        message_action(chat, text, None, None) == message_action(chat, text, None, Some(own)),
{
}

/// Law: a command goes where its name says, unless it is meant for another bot. Only
/// the start command depends on where it is sent and on whether it names a bot.
pub proof fn law_routes_go_by_the_name(chat: ChatKind, command: CommandView)
    ensures
        command_route(chat, command, true) is Drop,
        command_route(chat, command, false) is Start <==> command.name == "start"@ && (chat
            != ChatKind::Group || command.via is Some),
        command_route(chat, command, false) is Drop <==> command.name == "start"@ && chat
            == ChatKind::Group && command.via is None,
        command_route(chat, command, false) is Upload <==> command.name == "upload"@,
        command_route(chat, command, false) is Other <==> command.name != "start"@ && command.name
            != "upload"@,
{
    start_is_not_upload();
}

/// Law: the texts of answers are those that are given.
pub proof fn law_answers_show_their_texts(text: &'static str, trigger: i64)
    ensures
        Admission::NoSender@ is NoSender,
        Admission::Busy(text)@ == AdmissionView::Busy(text@),
        Admission::Admitted@ is Admitted,
        CancelOutcome::Nothing@ is Nothing,
        CancelOutcome::Refused(text)@ == CancelOutcomeView::Refused(text@),
        (CancelOutcome::Cancelled { trigger, notice: text })@ == (CancelOutcomeView::Cancelled {
            trigger,
            notice: text@,
        }),
{
}

}
