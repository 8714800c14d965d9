use vstd::prelude::*;
use vstd::utf8::{encode_utf8, is_char_boundary};
use vstd::string::StringSliceAdditionalSpecFns;
use crate::enums::Field;
use crate::telegram::enums::Command;
use crate::telegram::model::{
    CallbackEvent, InlineKeyboardButton, InlineKeyboardMarkup, KeyboardButton, MessageEvent,
    ReplyKeyboardMarkup, SendMessageInlineMarkup, SendMessageReplyMarkup, UpdateEvent,
};
use crate::service::preferences::{lemma_field_number_selects_field, preference_fields};
use crate::telegram::enums::lemma_command_name_roundtrip;
use crate::text::{decimal, join_strings, owned, push_decimal, seq_join};

verus! {

/// The longest text, in bytes, that one message carries.
pub const MAX_MESSAGE_BYTES: usize = 4095;

/// The inline keyboard of the main menu, row by row: caption and callback data.
pub open spec fn menu_keyboard() -> Seq<Seq<(Seq<char>, Option<Seq<char>>)>> {
    seq![
        seq![("Погода"@, Some(Command::Weather.name()))],
        seq![("Установить локацию"@, Some(Command::SetLocation.name()))],
        seq![("Выбрать отображаемые погодные данные"@, Some(Command::ChooseForecastPreferences.name()))],
    ]
}

/// The reply keyboard that asks for the user's location.
pub open spec fn location_keyboard() -> (Seq<Seq<(Seq<char>, Option<bool>)>>, Option<bool>) {
    (seq![seq![("Отправить мое местоположение"@, Some(true))]], Some(true))
}

/// The first line of the preferences prompt.
pub open spec fn prompt_header() -> Seq<char> {
    "Отправьте интересующие вас номера показателей через запятую. Например, 1,2,4\n"@
}

/// The line of the preferences prompt for the field at position `i`.
pub open spec fn prompt_line(i: nat) -> Seq<char> {
    decimal(i) + ". "@ + Field::all()[i as int].ru_name()
}

/// The preferences prompt: the header, then one numbered line per field.
pub open spec fn preferences_prompt() -> Seq<char> {
    prompt_header() + seq_join(Seq::new(Field::all().len(), |i: int| prompt_line(i as nat)), "\n"@)
}

fn button(text: &str, command: Command) -> (r: InlineKeyboardButton)
    ensures
        r.deep_view() == (text@, Some(command.name())),
{
    InlineKeyboardButton::new(owned(text), Some(command.to_string()))
}

/// The main menu, sent to `chat_id`: one row per command a user can pick.
pub fn menu(chat_id: &i32) -> (r: SendMessageInlineMarkup)
    ensures
        r.deep_view() == (*chat_id, "menu"@, None::<Seq<char>>, Some(menu_keyboard())),
{
    let weather_button_row = vec![button("Погода", Command::Weather)];
    let location_button_row = vec![button("Установить локацию", Command::SetLocation)];
    let choose_forecast_preferences_row = vec![
        button("Выбрать отображаемые погодные данные", Command::ChooseForecastPreferences),
    ];
    assert(weather_button_row.deep_view() =~= menu_keyboard()[0]);
    assert(location_button_row.deep_view() =~= menu_keyboard()[1]);
    assert(choose_forecast_preferences_row.deep_view() =~= menu_keyboard()[2]);
    let reply_markup = vec![weather_button_row, location_button_row, choose_forecast_preferences_row];
    assert(reply_markup.deep_view() =~= menu_keyboard());
    let mut message = SendMessageInlineMarkup::new(*chat_id, owned("menu"));
    message.reply_markup = Some(InlineKeyboardMarkup::new(reply_markup));
    message
}

/// The message that asks the user to share the location, sent to `chat_id`.
pub fn set_location_btn(chat_id: &i32) -> (r: SendMessageReplyMarkup)
    ensures
        r.deep_view() == (*chat_id, "Геолокация"@, None::<Seq<char>>, Some(location_keyboard())),
{
    let location_button_row = vec![KeyboardButton::new(owned("Отправить мое местоположение"), Some(true))];
    assert(location_button_row.deep_view() =~= location_keyboard().0[0]);
    let reply_markup = vec![location_button_row];
    assert(reply_markup.deep_view() =~= location_keyboard().0);
    let mut message = SendMessageReplyMarkup::new(*chat_id, owned("Геолокация"));
    message.reply_markup = Some(ReplyKeyboardMarkup::new(reply_markup, Some(true)));
    message
}

/// The prompt that lists the fields by number, for the user to choose from.
pub fn set_forecast_preferences_response() -> (r: String)
    ensures
        r@ == preferences_prompt(),
{
    let values = Field::values();
    let n = values.len();
    let mut preferences: Vec<String> = Vec::new();
    let mut num: usize = 0;
    while num < n
        invariant
            n == values@.len(),
            values@ == Field::all(),
            num <= n,
            preferences@.len() == num,
            forall|j: int| 0 <= j < num ==> (#[trigger] preferences@[j])@ == prompt_line(j as nat),
        decreases n - num,
    {
        let mut temp = String::new();
        push_decimal(&mut temp, num as u64);
        temp.append(". ");
        temp.append(values[num].as_ru_str());
        assert(temp@ =~= prompt_line(num as nat));
        preferences.push(temp);
        num = num + 1;
    }
    let joined = join_strings(&preferences, "\n");
    proof {
        let lines = Seq::new(Field::all().len(), |i: int| prompt_line(i as nat));
        assert forall|j: int| 0 <= j < n implies #[trigger] preferences.deep_view()[j] == lines[j] by {
            assert(preferences.deep_view()[j] == preferences@[j]@);
        }
        assert(preferences.deep_view() =~= lines);
    }
    let mut text_to_show = owned(
        "Отправьте интересующие вас номера показателей через запятую. Например, 1,2,4\n",
    );
    text_to_show.append(joined.as_str());
    text_to_show
}

/// The message that carries a weather report to `chat_id`: the report, cut to its first
/// `MAX_MESSAGE_BYTES` bytes when it is longer.
pub fn weather_reply(chat_id: i32, weather: &str) -> (r: SendMessageInlineMarkup)
    requires
        weather.len() > MAX_MESSAGE_BYTES ==> is_char_boundary(
            weather.spec_bytes(),
            MAX_MESSAGE_BYTES as int,
        ),
    ensures
        r.chat_id == chat_id,
        r.parse_mode is None,
        r.reply_markup is None,
        weather.len() > MAX_MESSAGE_BYTES ==> encode_utf8(r.text@) == weather.spec_bytes().take(
            MAX_MESSAGE_BYTES as int,
        ),
        weather.len() <= MAX_MESSAGE_BYTES ==> r.text@ == weather@,
{
    if weather.len() > MAX_MESSAGE_BYTES {
        let (head, _) = weather.split_at(MAX_MESSAGE_BYTES);
        let text = owned(head);
        assert(head.spec_bytes() =~= weather.spec_bytes().take(MAX_MESSAGE_BYTES as int));
        assert(encode_utf8(text@) == head.spec_bytes());
        SendMessageInlineMarkup::new(chat_id, text)
    } else {
        SendMessageInlineMarkup::new(chat_id, owned(weather))
    }
}

/// The offset to poll updates from next: one past the last update received, or the
/// current offset when none was received.
pub fn next_update_offset(offset: i32, update_ids: &Vec<i32>) -> (r: i32)
    requires
        update_ids@.len() > 0 ==> update_ids@.last() < i32::MAX,
    ensures
        update_ids@.len() == 0 ==> r == offset,
        update_ids@.len() > 0 ==> r == update_ids@.last() + 1,
{
    let n = update_ids.len();
    if n > 0 {
        update_ids[n - 1] + 1
    } else {
        offset
    }
}

/// The offset the first poll asks from.
pub const FIRST_UPDATE_OFFSET: i32 = 0;

/// The offset after one poll: unchanged when the poll failed (`None`), else as
/// `next_update_offset` gives it for the ids of the updates received, in order.
pub fn offset_after_poll(offset: i32, received: Option<&Vec<i32>>) -> (r: i32)
    requires
        received matches Some(ids) ==> (ids@.len() > 0 ==> ids@.last() < i32::MAX),
    ensures
        received is None ==> r == offset,
        received matches Some(ids) ==> (ids@.len() == 0 ==> r == offset),
        received matches Some(ids) ==> (ids@.len() > 0 ==> r == ids@.last() + 1),
{
    match received {
        Some(ids) => next_update_offset(offset, ids),
        None => offset,
    }
}

/// The address of a method of the bot API for the bot with the given token.
pub open spec fn api_url(token: Seq<char>, method: Seq<char>) -> Seq<char> {
    "https://api.telegram.org/bot"@ + token + "/"@ + method
}

/// The address that updates are polled from.
pub fn get_updates_url(token: &str) -> (r: String)
    ensures
        r@ == api_url(token@, "getUpdates"@),
{
    let mut r = owned("https://api.telegram.org/bot");
    r.append(token);
    r.append("/getUpdates");
    proof {
        reveal_strlit("/getUpdates");
        reveal_strlit("/");
        reveal_strlit("getUpdates");
    }
    assert(r@ =~= api_url(token@, "getUpdates"@));
    r
}

/// The address that messages are sent to.
pub fn send_message_url(token: &str) -> (r: String)
    ensures
        r@ == api_url(token@, "sendMessage"@),
{
    let mut r = owned("https://api.telegram.org/bot");
    r.append(token);
    r.append("/sendMessage");
    proof {
        reveal_strlit("/sendMessage");
        reveal_strlit("/");
        reveal_strlit("sendMessage");
    }
    assert(r@ =~= api_url(token@, "sendMessage"@));
    r
}

/// One thing the bot does in answer to an update, in the order given.
#[derive(Debug, PartialEq, Eq)]
pub enum BotAction {
    /// Send `menu(chat_id)`.
    ShowMenu { chat_id: i32 },
    /// Store the fields that `text` chooses as the user's preferences.
    SavePreferences { user_id: i64, text: String },
    /// Store the location the message carries as the user's location.
    SaveLocation { user_id: i64 },
    /// Send the user's weather report to the chat, through `weather_reply`.
    SendWeather { chat_id: i32, user_id: i64 },
    /// Send `set_location_btn(chat_id)`.
    AskLocation { chat_id: i32 },
    /// Send the preferences prompt to the chat.
    ShowPreferencesPrompt { chat_id: i32 },
    /// Store `command` as the user's last command.
    SaveLastCommand { user_id: i64, command: Command },
}

/// What the bot does for the message part of an update, and whether it stops there.
/// `last_command` is the sender's stored last command.
pub open spec fn message_actions(m: MessageEvent, last_command: Seq<char>) -> (Seq<BotAction>, bool) {
    let location_part = if m.has_location && m.from_id is Some {
        seq![BotAction::SaveLocation { user_id: m.from_id->0 }]
    } else {
        Seq::empty()
    };
    match m.text {
        Some(t) => if t@ == "/menu"@ {
            (seq![BotAction::ShowMenu { chat_id: m.chat_id }], true)
        } else if last_command == Command::ChooseForecastPreferences.name() {
            (seq![BotAction::SavePreferences { user_id: m.from_id->0, text: t }], true)
        } else {
            (location_part, false)
        },
        None => (location_part, false),
    }
}

/// What the bot does for a pressed button.
pub open spec fn callback_actions(c: CallbackEvent) -> Seq<BotAction> {
    let chat_id = match c.message_chat_id {
        Some(id) => id,
        None => 0,
    };
    match c.data {
        Some(d) => match Command::parse(d@) {
            Some(Command::Weather) => seq![
                BotAction::SendWeather { chat_id, user_id: c.from_id },
                BotAction::SaveLastCommand { user_id: c.from_id, command: Command::Weather },
            ],
            Some(Command::SetLocation) => seq![
                BotAction::AskLocation { chat_id },
                BotAction::SaveLastCommand { user_id: c.from_id, command: Command::SetLocation },
            ],
            Some(Command::ChooseForecastPreferences) => seq![
                BotAction::ShowPreferencesPrompt { chat_id },
                BotAction::SaveLastCommand {
                    user_id: c.from_id,
                    command: Command::ChooseForecastPreferences,
                },
            ],
            _ => Seq::empty(),
        },
        None => Seq::empty(),
    }
}

/// What the bot does for an update: the message is handled first; unless that stops it,
/// the pressed button is handled next.
pub open spec fn update_actions(u: UpdateEvent, last_command: Seq<char>) -> Seq<BotAction> {
    let callback_part = match u.callback_query {
        Some(c) => callback_actions(c),
        None => Seq::empty(),
    };
    match u.message {
        Some(m) => {
            let (a, stop) = message_actions(m, last_command);
            if stop {
                a
            } else {
                a + callback_part
            }
        },
        None => callback_part,
    }
}

/// What the bot does for the message part of an update, and whether it stops there.
/// `last_command` is the stored last command of the sender.
pub fn plan_message(m: &MessageEvent, last_command: &str) -> (r: (Vec<BotAction>, bool))
    requires
        m.from_id is Some,
    ensures
        (r.0@, r.1) == message_actions(*m, last_command@),
{
    let user_id = match m.from_id {
        Some(id) => id,
        None => 0,
    };
    if let Some(text) = &m.text {
        if crate::text::str_equals(text.as_str(), "/menu") {
            return (vec![BotAction::ShowMenu { chat_id: m.chat_id }], true);
        }
        if crate::text::str_equals(Command::ChooseForecastPreferences.as_str(), last_command) {
            let t = text.clone();
            let r = vec![BotAction::SavePreferences { user_id, text: t }];
            assert(r@ =~= seq![BotAction::SavePreferences { user_id, text: m.text->0 }]);
            return (r, true);
        }
    }
    let mut actions: Vec<BotAction> = Vec::new();
    if m.has_location {
        actions.push(BotAction::SaveLocation { user_id });
    }
    assert(actions@ =~= message_actions(*m, last_command@).0);
    (actions, false)
}

/// What the bot does for a pressed button.
pub fn plan_callback(c: &CallbackEvent) -> (r: Vec<BotAction>)
    requires
        c.data matches Some(d) ==> Command::parse(d@) is Some,
    ensures
        r@ == callback_actions(*c),
{
    let chat_id = match c.message_chat_id {
        Some(id) => id,
        None => 0,
    };
    let r = match &c.data {
        Some(data) => match Command::from_str(data.as_str()) {
            Some(Command::Weather) => vec![
                BotAction::SendWeather { chat_id, user_id: c.from_id },
                BotAction::SaveLastCommand { user_id: c.from_id, command: Command::Weather },
            ],
            Some(Command::SetLocation) => vec![
                BotAction::AskLocation { chat_id },
                BotAction::SaveLastCommand { user_id: c.from_id, command: Command::SetLocation },
            ],
            Some(Command::ChooseForecastPreferences) => vec![
                BotAction::ShowPreferencesPrompt { chat_id },
                BotAction::SaveLastCommand {
                    user_id: c.from_id,
                    command: Command::ChooseForecastPreferences,
                },
            ],
            _ => Vec::new(),
        },
        None => Vec::new(),
    };
    assert(r@ =~= callback_actions(*c));
    r
}

/// What the bot does in answer to `update`, in order. `last_command` is the stored last
/// command of the message's sender; it is read only when the update has a message.
/// Callback data that names no command is refused only where the button is handled,
/// that is, when the message part does not stop the handling first.
pub fn plan_update(update: &UpdateEvent, last_command: &str) -> (r: Vec<BotAction>)
    requires
        update.message matches Some(m) ==> m.from_id is Some,
        update.callback_query matches Some(c) ==> ((update.message matches Some(m)
            && message_actions(m, last_command@).1) || (c.data matches Some(d) ==> Command::parse(
            d@,
        ) is Some)),
    ensures
        r@ == update_actions(*update, last_command@),
{
    let mut actions: Vec<BotAction> = Vec::new();
    if let Some(m) = &update.message {
        let (a, stop) = plan_message(m, last_command);
        if stop {
            return a;
        }
        actions = a;
    }
    if let Some(c) = &update.callback_query {
        let mut b = plan_callback(c);
        let ghost before = actions@;
        actions.append(&mut b);
        assert(actions@ =~= update_actions(*update, last_command@));
    } else {
        assert(actions@ =~= update_actions(*update, last_command@));
    }
    actions
}

/// Every button of the main menu carries the name of a command, and pressing it makes the
/// bot answer and then store that command as the user's last one.
pub proof fn lemma_menu_buttons_understood(i: int, c: CallbackEvent)
    requires
        0 <= i < 3,
        c.data matches Some(d) && d@ == menu_keyboard()[i][0].1->0,
    ensures
        Command::parse(menu_keyboard()[i][0].1->0) matches Some(cmd) && callback_actions(c).len()
            == 2 && callback_actions(c)[1] == (BotAction::SaveLastCommand {
            user_id: c.from_id,
            command: cmd,
        }),
{
    lemma_command_name_roundtrip(Command::Weather);
    lemma_command_name_roundtrip(Command::SetLocation);
    lemma_command_name_roundtrip(Command::ChooseForecastPreferences);
}

/// The chat an action sends a message to, when it sends one.
pub open spec fn sent_to(a: BotAction) -> Option<i32> {
    match a {
        BotAction::ShowMenu { chat_id } => Some(chat_id),
        BotAction::SendWeather { chat_id, .. } => Some(chat_id),
        BotAction::AskLocation { chat_id } => Some(chat_id),
        BotAction::ShowPreferencesPrompt { chat_id } => Some(chat_id),
        _ => None,
    }
}

/// A pressed button is answered in the chat of the message it belongs to, or in chat `0`
/// when that message is unknown: every message planned for it goes there.
pub proof fn lemma_button_answered_in_its_chat(c: CallbackEvent)
    ensures
        forall|k: int|
            0 <= k < callback_actions(c).len() && (#[trigger] sent_to(callback_actions(c)[k])) is Some
                ==> sent_to(callback_actions(c)[k]) == Some(
                match c.message_chat_id {
                    Some(id) => id,
                    None => 0i32,
                },
            ),
{
}

/// A pressed menu command is answered by exactly one message, the one the command asks for
/// (the weather for `Weather`, served to the pressing user; the location request for
/// `SetLocation`; the prompt for `ChooseForecastPreferences`), and then becomes the pressing
/// user's last command.
pub proof fn lemma_pressed_command_answered(c: CallbackEvent, cmd: Command)
    requires
        c.data matches Some(d) && Command::parse(d@) == Some(cmd),
        cmd == Command::Weather || cmd == Command::SetLocation || cmd
            == Command::ChooseForecastPreferences,
    ensures
        callback_actions(c).len() == 2,
        sent_to(callback_actions(c)[0]) is Some,
        callback_actions(c)[1] == (BotAction::SaveLastCommand { user_id: c.from_id, command: cmd }),
        cmd == Command::Weather <==> callback_actions(c)[0] is SendWeather,
        cmd == Command::SetLocation <==> callback_actions(c)[0] is AskLocation,
        cmd == Command::ChooseForecastPreferences <==> callback_actions(c)[0] is ShowPreferencesPrompt,
        callback_actions(c)[0] matches BotAction::SendWeather { user_id, .. } ==> user_id == c.from_id,
{
}

/// A button whose data names no menu command is not answered at all.
pub proof fn lemma_other_button_data_ignored(c: CallbackEvent)
    requires
        c.data matches Some(d) ==> !(Command::parse(d@) == Some(Command::Weather) || Command::parse(
            d@,
        ) == Some(Command::SetLocation) || Command::parse(d@) == Some(
            Command::ChooseForecastPreferences,
        )),
    ensures
        callback_actions(c).len() == 0,
{
}

/// The text `/menu` is always answered with the main menu, and with nothing else.
pub proof fn lemma_menu_text_shows_menu(u: UpdateEvent, last_command: Seq<char>)
    requires
        u.message matches Some(m) && m.text matches Some(t) && t@ == "/menu"@,
    ensures
        update_actions(u, last_command) == seq![BotAction::ShowMenu { chat_id: u.message->0.chat_id }],
{
}

/// Once the preferences prompt was the user's last command, the next text other than
/// `/menu` is stored as the user's choice of fields, and nothing else is done.
pub proof fn lemma_reply_after_prompt_is_saved(u: UpdateEvent, last_command: Seq<char>)
    requires
        last_command == Command::ChooseForecastPreferences.name(),
        u.message matches Some(m) && m.text matches Some(t) && t@ != "/menu"@,
    ensures
        update_actions(u, last_command) == seq![
            BotAction::SavePreferences {
                user_id: u.message->0.from_id->0,
                text: u.message->0.text->0,
            },
        ],
{
}

/// The number the prompt shows before a field, sent back alone, chooses that field.
pub proof fn lemma_prompt_numbers_select_fields(f: Field)
    ensures
        prompt_line(f.position()) == decimal(f.position()) + ". "@ + f.ru_name(),
        preference_fields(decimal(f.position())) == seq![f],
{
    crate::enums::lemma_field_all_enumerates(f);
    lemma_field_number_selects_field(f);
}

} // verus!
