use vstd::prelude::*;

verus! {

/// A chat the bot talks in.
#[derive(PartialEq, Eq, Structural, Debug, Clone, Copy)]
pub struct Chat {
    pub id: i32,
}

/// A button under a message; pressing it sends `callback_data` back to the bot.
#[derive(Debug)]
pub struct InlineKeyboardButton {
    pub text: String,
    pub callback_data: Option<String>,
}

impl DeepView for InlineKeyboardButton {
    type V = (Seq<char>, Option<Seq<char>>);

    open spec fn deep_view(&self) -> Self::V {
        (self.text@, self.callback_data.deep_view())
    }
}

/// Rows of inline buttons.
#[derive(Debug)]
pub struct InlineKeyboardMarkup {
    pub inline_keyboard: Vec<Vec<InlineKeyboardButton>>,
}

impl DeepView for InlineKeyboardMarkup {
    type V = Seq<Seq<(Seq<char>, Option<Seq<char>>)>>;

    open spec fn deep_view(&self) -> Self::V {
        self.inline_keyboard.deep_view()
    }
}

/// A button of the reply keyboard; it may ask the client to send its location.
#[derive(Debug)]
pub struct KeyboardButton {
    pub text: String,
    pub request_location: Option<bool>,
}

impl DeepView for KeyboardButton {
    type V = (Seq<char>, Option<bool>);

    open spec fn deep_view(&self) -> Self::V {
        (self.text@, self.request_location)
    }
}

/// Rows of reply-keyboard buttons.
#[derive(Debug)]
pub struct ReplyKeyboardMarkup {
    pub keyboard: Vec<Vec<KeyboardButton>>,
    pub one_time_keyboard: Option<bool>,
}

impl DeepView for ReplyKeyboardMarkup {
    type V = (Seq<Seq<(Seq<char>, Option<bool>)>>, Option<bool>);

    open spec fn deep_view(&self) -> Self::V {
        (self.keyboard.deep_view(), self.one_time_keyboard)
    }
}

/// A message to send, possibly with inline buttons.
#[derive(Debug)]
pub struct SendMessageInlineMarkup {
    pub chat_id: i32,
    pub text: String,
    pub parse_mode: Option<String>,
    pub reply_markup: Option<InlineKeyboardMarkup>,
}

impl DeepView for SendMessageInlineMarkup {
    type V = (i32, Seq<char>, Option<Seq<char>>, Option<Seq<Seq<(Seq<char>, Option<Seq<char>>)>>>);

    open spec fn deep_view(&self) -> Self::V {
        (self.chat_id, self.text@, self.parse_mode.deep_view(), self.reply_markup.deep_view())
    }
}

/// A message to send, possibly with a reply keyboard.
#[derive(Debug)]
pub struct SendMessageReplyMarkup {
    pub chat_id: i32,
    pub text: String,
    pub parse_mode: Option<String>,
    pub reply_markup: Option<ReplyKeyboardMarkup>,
}

impl DeepView for SendMessageReplyMarkup {
    type V = (i32, Seq<char>, Option<Seq<char>>, Option<(Seq<Seq<(Seq<char>, Option<bool>)>>, Option<bool>)>);

    open spec fn deep_view(&self) -> Self::V {
        (self.chat_id, self.text@, self.parse_mode.deep_view(), self.reply_markup.deep_view())
    }
}

impl SendMessageInlineMarkup {
    pub fn new(chat_id: i32, text: String) -> (r: SendMessageInlineMarkup)
        ensures
            r.deep_view() == (chat_id, text@, None::<Seq<char>>, None::<Seq<Seq<(Seq<char>, Option<Seq<char>>)>>>),
    {
        SendMessageInlineMarkup { chat_id, text, parse_mode: None, reply_markup: None }
    }
}

impl SendMessageReplyMarkup {
    pub fn new(chat_id: i32, text: String) -> (r: SendMessageReplyMarkup)
        ensures
            r.deep_view() == (chat_id, text@, None::<Seq<char>>, None::<(Seq<Seq<(Seq<char>, Option<bool>)>>, Option<bool>)>),
    {
        SendMessageReplyMarkup { chat_id, text, parse_mode: None, reply_markup: None }
    }
}

impl InlineKeyboardMarkup {
    pub fn new(inline_keyboard: Vec<Vec<InlineKeyboardButton>>) -> (r: InlineKeyboardMarkup)
        ensures
            r.deep_view() == inline_keyboard.deep_view(),
    {
        InlineKeyboardMarkup { inline_keyboard }
    }
}

impl InlineKeyboardButton {
    pub fn new(text: String, callback_data: Option<String>) -> (r: InlineKeyboardButton)
        ensures
            r.deep_view() == (text@, callback_data.deep_view()),
    {
        InlineKeyboardButton { text, callback_data }
    }
}

impl ReplyKeyboardMarkup {
    pub fn new(keyboard: Vec<Vec<KeyboardButton>>, one_time_keyboard: Option<bool>) -> (r: ReplyKeyboardMarkup)
        ensures
            r.deep_view() == (keyboard.deep_view(), one_time_keyboard),
    {
        ReplyKeyboardMarkup { keyboard, one_time_keyboard }
    }
}

impl KeyboardButton {
    pub fn new(text: String, request_location: Option<bool>) -> (r: KeyboardButton)
        ensures
            r.deep_view() == (text@, request_location),
    {
        KeyboardButton { text, request_location }
    }
}

/// What the bot reads of an incoming message.
#[derive(Debug)]
pub struct MessageEvent {
    /// The sender's user id, when the message has a sender.
    pub from_id: Option<i64>,
    pub chat_id: i32,
    pub text: Option<String>,
    /// Whether the message carries a location.
    pub has_location: bool,
}

/// What the bot reads of a pressed inline button.
#[derive(Debug)]
pub struct CallbackEvent {
    /// The user who pressed the button.
    pub from_id: i64,
    /// The chat of the message the button belongs to, when that message is known.
    pub message_chat_id: Option<i32>,
    /// The button's callback data.
    pub data: Option<String>,
}

/// What the bot reads of one update.
#[derive(Debug)]
pub struct UpdateEvent {
    pub update_id: i32,
    pub message: Option<MessageEvent>,
    pub callback_query: Option<CallbackEvent>,
}

} // verus!
