use weather_bot::telegram::bot::{
    get_updates_url, menu, next_update_offset, offset_after_poll, plan_update, send_message_url,
    FIRST_UPDATE_OFFSET,
    set_forecast_preferences_response, set_location_btn, weather_reply, BotAction,
    MAX_MESSAGE_BYTES,
};
use weather_bot::telegram::enums::Command;
use weather_bot::telegram::model::{
    CallbackEvent, InlineKeyboardButton, InlineKeyboardMarkup, KeyboardButton, MessageEvent,
    ReplyKeyboardMarkup, SendMessageInlineMarkup, SendMessageReplyMarkup, UpdateEvent,
};

#[test]
fn constructors_leave_optional_parts_empty() {
    let m = SendMessageInlineMarkup::new(5, "hi".to_string());
    assert_eq!((m.chat_id, m.text.as_str()), (5, "hi"));
    assert!(m.parse_mode.is_none() && m.reply_markup.is_none());
    let r = SendMessageReplyMarkup::new(-3, "yo".to_string());
    assert_eq!((r.chat_id, r.text.as_str()), (-3, "yo"));
    assert!(r.parse_mode.is_none() && r.reply_markup.is_none());
    let b = InlineKeyboardButton::new("t".to_string(), Some("d".to_string()));
    assert_eq!(b.callback_data.as_deref(), Some("d"));
    let k = InlineKeyboardMarkup::new(vec![vec![b]]);
    assert_eq!(k.inline_keyboard[0][0].text, "t");
    let kb = KeyboardButton::new("loc".to_string(), Some(true));
    let rk = ReplyKeyboardMarkup::new(vec![vec![kb]], None);
    assert_eq!(rk.keyboard[0][0].request_location, Some(true));
    assert_eq!(rk.one_time_keyboard, None);
}

#[test]
fn main_menu_has_one_row_per_command() {
    let m = menu(&77);
    assert_eq!(m.chat_id, 77);
    assert_eq!(m.text, "menu");
    let rows = &m.reply_markup.as_ref().unwrap().inline_keyboard;
    let got: Vec<(String, Option<String>)> = rows
        .iter()
        .map(|r| {
            assert_eq!(r.len(), 1);
            (r[0].text.clone(), r[0].callback_data.clone())
        })
        .collect();
    assert_eq!(
        got,
        vec![
            ("Погода".to_string(), Some("Weather".to_string())),
            ("Установить локацию".to_string(), Some("SetLocation".to_string())),
            (
                "Выбрать отображаемые погодные данные".to_string(),
                Some("ChooseForecastPreferences".to_string())
            ),
        ]
    );
    for (_, data) in got {
        assert!(Command::from_str(&data.unwrap()).is_some());
    }
}

#[test]
fn location_request_message() {
    let m = set_location_btn(&12);
    assert_eq!(m.chat_id, 12);
    assert_eq!(m.text, "Геолокация");
    let k = m.reply_markup.unwrap();
    assert_eq!(k.one_time_keyboard, Some(true));
    assert_eq!(k.keyboard.len(), 1);
    assert_eq!(k.keyboard[0].len(), 1);
    assert_eq!(k.keyboard[0][0].text, "Отправить мое местоположение");
    assert_eq!(k.keyboard[0][0].request_location, Some(true));
}

#[test]
fn preferences_prompt_lists_fields_by_number() {
    assert_eq!(
        set_forecast_preferences_response(),
        "Отправьте интересующие вас номера показателей через запятую. Например, 1,2,4\n\
         0. Температура\n1. Скорость ветра\n2. Давление\n3. Влажность"
    );
}

#[test]
fn short_reports_are_sent_whole() {
    let m = weather_reply(3, "Давление: 760 мм. рт. ст.");
    assert_eq!(m.chat_id, 3);
    assert_eq!(m.text, "Давление: 760 мм. рт. ст.");
    assert!(m.parse_mode.is_none() && m.reply_markup.is_none());
    let exact = "a".repeat(MAX_MESSAGE_BYTES);
    assert_eq!(weather_reply(3, &exact).text, exact);
}

#[test]
fn long_reports_are_cut_to_the_byte_limit() {
    let long = "b".repeat(5000);
    let m = weather_reply(4, &long);
    assert_eq!(m.text.len(), 4095);
    assert!(long.starts_with(&m.text));
    let cyr = format!("x{}", "ж".repeat(3000));
    let m2 = weather_reply(4, &cyr);
    assert_eq!(m2.text.len(), 4095);
    assert!(cyr.starts_with(&m2.text));
}

#[test]
fn update_offsets() {
    assert_eq!(next_update_offset(0, &vec![]), 0);
    assert_eq!(next_update_offset(15, &vec![]), 15);
    assert_eq!(next_update_offset(0, &vec![10, 11, 12]), 13);
}

#[test]
fn bot_api_addresses() {
    assert_eq!(get_updates_url("T0K"), "https://api.telegram.org/botT0K/getUpdates");
    assert_eq!(send_message_url("T0K"), "https://api.telegram.org/botT0K/sendMessage");
}

fn message(text: Option<&str>, has_location: bool) -> MessageEvent {
    MessageEvent { from_id: Some(100), chat_id: 55, text: text.map(|t| t.to_string()), has_location }
}

fn callback(data: Option<&str>, chat: Option<i32>) -> CallbackEvent {
    CallbackEvent { from_id: 200, message_chat_id: chat, data: data.map(|d| d.to_string()) }
}

#[test]
fn menu_text_is_answered_with_the_menu() {
    let u = UpdateEvent {
        update_id: 1,
        message: Some(message(Some("/menu"), true)),
        callback_query: Some(callback(Some("Weather"), Some(1))),
    };
    assert_eq!(plan_update(&u, "ChooseForecastPreferences"), vec![BotAction::ShowMenu { chat_id: 55 }]);
}

#[test]
fn reply_after_prompt_is_saved() {
    let u = UpdateEvent { update_id: 2, message: Some(message(Some("1,2"), false)), callback_query: None };
    assert_eq!(
        plan_update(&u, "ChooseForecastPreferences"),
        vec![BotAction::SavePreferences { user_id: 100, text: "1,2".to_string() }]
    );
    assert_eq!(plan_update(&u, "Weather"), vec![]);
}

#[test]
fn shared_location_is_saved() {
    let u = UpdateEvent { update_id: 3, message: Some(message(None, true)), callback_query: None };
    assert_eq!(plan_update(&u, "SetLocation"), vec![BotAction::SaveLocation { user_id: 100 }]);
}

#[test]
fn pressed_buttons() {
    let weather = UpdateEvent { update_id: 4, message: None, callback_query: Some(callback(Some("Weather"), Some(9))) };
    assert_eq!(
        plan_update(&weather, ""),
        vec![
            BotAction::SendWeather { chat_id: 9, user_id: 200 },
            BotAction::SaveLastCommand { user_id: 200, command: Command::Weather }
        ]
    );
    let loc = UpdateEvent { update_id: 5, message: None, callback_query: Some(callback(Some("SetLocation"), None)) };
    assert_eq!(
        plan_update(&loc, ""),
        vec![
            BotAction::AskLocation { chat_id: 0 },
            BotAction::SaveLastCommand { user_id: 200, command: Command::SetLocation }
        ]
    );
    let prefs = UpdateEvent {
        update_id: 6,
        message: None,
        callback_query: Some(callback(Some("ChooseForecastPreferences"), Some(8))),
    };
    assert_eq!(
        plan_update(&prefs, ""),
        vec![
            BotAction::ShowPreferencesPrompt { chat_id: 8 },
            BotAction::SaveLastCommand { user_id: 200, command: Command::ChooseForecastPreferences }
        ]
    );
    let other = UpdateEvent {
        update_id: 7,
        message: None,
        callback_query: Some(callback(Some("DeleteNotification"), Some(8))),
    };
    assert_eq!(plan_update(&other, ""), vec![]);
    let empty = UpdateEvent { update_id: 8, message: None, callback_query: Some(callback(None, Some(8))) };
    assert_eq!(plan_update(&empty, ""), vec![]);
}

#[test]
fn message_then_button_in_one_update() {
    let u = UpdateEvent {
        update_id: 9,
        message: Some(message(Some("hello"), true)),
        callback_query: Some(callback(Some("Weather"), Some(3))),
    };
    assert_eq!(
        plan_update(&u, "None"),
        vec![
            BotAction::SaveLocation { user_id: 100 },
            BotAction::SendWeather { chat_id: 3, user_id: 200 },
            BotAction::SaveLastCommand { user_id: 200, command: Command::Weather }
        ]
    );
}

#[test]
fn unknown_button_data_is_not_read_when_the_message_stops() {
    let u = UpdateEvent {
        update_id: 10,
        message: Some(message(Some("/menu"), false)),
        callback_query: Some(callback(Some("NoSuchCommand"), Some(3))),
    };
    assert_eq!(plan_update(&u, "None"), vec![BotAction::ShowMenu { chat_id: 55 }]);
    let v = UpdateEvent {
        update_id: 11,
        message: Some(message(Some("0,1"), false)),
        callback_query: Some(callback(Some("NoSuchCommand"), Some(3))),
    };
    assert_eq!(
        plan_update(&v, "ChooseForecastPreferences"),
        vec![BotAction::SavePreferences { user_id: 100, text: "0,1".to_string() }]
    );
}

#[test]
fn offsets_across_polls() {
    assert_eq!(FIRST_UPDATE_OFFSET, 0);
    assert_eq!(offset_after_poll(FIRST_UPDATE_OFFSET, None), 0);
    assert_eq!(offset_after_poll(5, Some(&vec![])), 5);
    assert_eq!(offset_after_poll(5, Some(&vec![7, 9])), 10);
}
