use chrono::Utc;
use weather_bot::enums::Field;
use weather_bot::models::{Forecast, ForecastFieldPreference, Timestamp};
use weather_bot::service::command::last_command_text;
use weather_bot::service::notification::{notification_time_reply, parse_time, time_check_result};
use weather_bot::service::weather::{
    cast_by_type, compose_report, forecast_report, read_integer, format_forecast_message, is_expired, is_expired_after,
    is_expired_at, new_weather_record, whole_hours_between,
    open_weather_query, should_request_forecast, user_not_found_reply, OPEN_WEATHER_URL,
};

fn forecast(duration: &str, hours_ago: i64) -> Forecast {
    Forecast {
        forecast_id: 1,
        forecast_json: "{}".to_string(),
        source: "OpenWeather".to_string(),
        duration: duration.to_string(),
        created: Timestamp { secs: Utc::now().timestamp() - hours_ago * 3600 - 300, nanos: 0 },
        user_id: 9,
    }
}

#[test]
fn expiry_rule_per_kind() {
    assert!(!is_expired_after("Weather", 2));
    assert!(is_expired_after("Weather", 3));
    assert!(!is_expired_after("Nearest", 12));
    assert!(is_expired_after("Nearest", 13));
    assert!(!is_expired_after("LongTerm", 24));
    assert!(is_expired_after("LongTerm", 25));
    assert!(is_expired_after("Multi", 25));
    assert!(!is_expired_after("Unknown", 1000));
    assert!(!is_expired_after("Weather", -5));
}

#[test]
fn expiry_is_monotone_in_hours() {
    for h in -3..40 {
        for name in ["Weather", "Nearest", "LongTerm", "Multi", "Other"] {
            if is_expired_after(name, h) {
                assert!(is_expired_after(name, h + 1));
            }
        }
    }
}

#[test]
fn stored_forecasts_age_by_the_clock() {
    assert!(is_expired(&forecast("Weather", 3)));
    assert!(!is_expired(&forecast("Weather", 1)));
    assert!(!is_expired(&forecast("Nearest", 11)));
    assert!(is_expired(&forecast("Nearest", 13)));
    assert!(!is_expired(&forecast("Whatever", 10_000)));
    assert!(should_request_forecast(&None));
    assert!(should_request_forecast(&Some(forecast("Weather", 5))));
    assert!(!should_request_forecast(&Some(forecast("Weather", 0))));
}

#[test]
fn unknown_user_reply() {
    assert_eq!(
        user_not_found_reply(),
        "Пользователь не найден. Отправьте геолокацию для регистрации"
    );
}

#[test]
fn forecast_request_parts() {
    assert_eq!(OPEN_WEATHER_URL, "https://api.openweathermap.org/data/2.5/onecall");
    let q = open_weather_query("55.7", "37.6", "KEY");
    let expected: Vec<(String, String)> = vec![
        ("lat".into(), "55.7".into()),
        ("lon".into(), "37.6".into()),
        ("units".into(), "metric".into()),
        ("lang".into(), "ru".into()),
        ("appid".into(), "KEY".into()),
    ];
    assert_eq!(q, expected);
    let now = Timestamp { secs: 1_700_000_000, nanos: 5 };
    let r = new_weather_record("{\"a\":1}".to_string(), 42, now);
    assert_eq!(r.forecast_json, "{\"a\":1}");
    assert_eq!(r.source, "OpenWeather");
    assert_eq!(r.duration, "Weather");
    assert_eq!(r.created, now);
    assert_eq!(r.user_id, 42);
}

fn shout(f: Field, v: String) -> String {
    format!("<{}:{}>", f.as_str(), v)
}

#[test]
fn forecast_lines() {
    assert_eq!(
        format_forecast_message("Temperature", "1.5".to_string(), &shout),
        "Температура: <Temperature:1.5> °C"
    );
    assert_eq!(
        format_forecast_message("Humidity", "80".to_string(), &|_f: Field, v: String| v),
        "Влажность: 80 %"
    );
    assert_eq!(format_forecast_message("Clouds", "40".to_string(), &shout), "40");
}

#[test]
fn report_joins_lines() {
    let found = vec![
        ("Pressure".to_string(), "1000".to_string()),
        ("Other".to_string(), "x".to_string()),
        ("WindSpeed".to_string(), "3".to_string()),
    ];
    let id = |_f: Field, v: String| v;
    assert_eq!(
        compose_report(&found, &id),
        "Давление: 1000 мм. рт. ст.\nx\nСкорость ветра: 3 м/с"
    );
    assert_eq!(compose_report(&vec![], &id), "");
}

#[test]
fn notification_times() {
    for ok in ["00:00", "09:05", "19:59", "23:59"] {
        assert_eq!(parse_time(ok), Ok("ok".to_string()));
        assert_eq!(
            notification_time_reply(ok),
            Ok("Время уведомления успешно установлено".to_string())
        );
    }
    for bad in ["24:00", "7:30", "12:60", "12:30\n", "a12:30", "12-30", "", "12:305"] {
        assert_eq!(parse_time(bad), Err("Неправильный формат времени".to_string()));
        assert_eq!(
            notification_time_reply(bad),
            Err("Неправильный формат времени".to_string())
        );
    }
    assert_eq!(time_check_result(true), Ok("ok".to_string()));
    assert_eq!(time_check_result(false), Err("Неправильный формат времени".to_string()));
}

#[test]
fn last_command_from_rows() {
    assert_eq!(last_command_text(&vec![]), "None");
    assert_eq!(last_command_text(&vec![None]), "None");
    assert_eq!(
        last_command_text(&vec![Some("Weather".to_string()), Some("SetLocation".to_string())]),
        "Weather"
    );
}

fn at(secs: i64, nanos: u32) -> Timestamp {
    Timestamp { secs, nanos }
}

#[test]
fn whole_hours_round_toward_zero() {
    assert_eq!(whole_hours_between(at(7200, 0), at(0, 0)), 2);
    assert_eq!(whole_hours_between(at(7199, 999_999_999), at(0, 0)), 1);
    assert_eq!(whole_hours_between(at(3600, 0), at(0, 1)), 0);
    assert_eq!(whole_hours_between(at(0, 0), at(7199, 0)), -1);
    assert_eq!(whole_hours_between(at(0, 0), at(7200, 0)), -2);
    assert_eq!(whole_hours_between(at(i64::MAX, 999_999_999), at(i64::MIN, 0)), 5_124_095_576_030_431);
    assert_eq!(whole_hours_between(at(i64::MIN, 0), at(i64::MAX, 999_999_999)), -5_124_095_576_030_431);
}

#[test]
fn whole_hours_agree_with_chrono() {
    let a = chrono::DateTime::from_timestamp(1_700_000_000, 250).unwrap().naive_utc();
    for (secs, nanos) in [(1_700_010_799i64, 249u32), (1_700_010_800, 250), (1_699_989_200, 251), (1_699_000_000, 0)] {
        let b = chrono::DateTime::from_timestamp(secs, nanos).unwrap().naive_utc();
        assert_eq!(
            whole_hours_between(at(secs, nanos), at(1_700_000_000, 250)),
            b.signed_duration_since(a).num_hours()
        );
    }
}

#[test]
fn expiry_at_a_given_moment_reads_the_creation_time() {
    let f = Forecast {
        forecast_id: 1,
        forecast_json: String::new(),
        source: "OpenWeather".to_string(),
        duration: "Weather".to_string(),
        created: at(1_000_000, 0),
        user_id: 1,
    };
    assert!(!is_expired_at(&f, at(1_000_000 + 3 * 3600 - 1, 0)));
    assert!(is_expired_at(&f, at(1_000_000 + 3 * 3600, 0)));
    assert!(!is_expired_at(&f, at(0, 0)));
}

fn pref(field: &str, path: &str, kind: &str) -> ForecastFieldPreference {
    ForecastFieldPreference {
        id: 1,
        source: "OpenWeather".to_string(),
        field: field.to_string(),
        search_path: path.to_string(),
        search_result_type: kind.to_string(),
    }
}

fn tag(found: String) -> Option<String> {
    if found.starts_with('"') {
        None
    } else {
        Some(format!("<{}>", found))
    }
}

#[test]
fn report_of_a_forecast_document() {
    let doc = r#"{"name":"x","current":{"temp":-3.5,"pressure":1012,"humidity":80},"hourly":[{"temp":1},{"temp":2}]}"#;
    let prefs = vec![
        pref("Temperature", "$.current.temp", "f64"),
        pref("Pressure", "$.current.pressure", "i64"),
        pref("Clouds", "$.hourly[*].temp", "i64"),
    ];
    let id = |_f: Field, v: String| v;
    assert_eq!(
        forecast_report(doc, &prefs, &tag, &id),
        Some("Температура: <-3.5> °C\nДавление: 1012 мм. рт. ст.\n1".to_string())
    );
    assert_eq!(forecast_report(doc, &vec![], &tag, &id), Some(String::new()));
    assert_eq!(forecast_report(doc, &vec![pref("Humidity", "$.current.wind", "f64")], &tag, &id), None);
    assert_eq!(forecast_report("not json", &vec![pref("Humidity", "$.current.humidity", "f64")], &tag, &id), None);
    assert_eq!(
        forecast_report(doc, &vec![pref("Humidity", "$.current.humidity", "str")], &tag, &id),
        Some("Влажность:  %".to_string())
    );
    assert_eq!(forecast_report(doc, &vec![pref("Temperature", "$.current.temp", "i64")], &tag, &id), None);
    assert_eq!(forecast_report(doc, &vec![pref("Temperature", "$.name", "f64")], &tag, &id), None);
}

#[test]
fn integers_read_as_i64() {
    assert_eq!(read_integer("1012"), Some("1012".to_string()));
    assert_eq!(read_integer("-7"), Some("-7".to_string()));
    assert_eq!(read_integer("-0"), Some("0".to_string()));
    assert_eq!(read_integer("0"), Some("0".to_string()));
    assert_eq!(read_integer("9223372036854775807"), Some(i64::MAX.to_string()));
    assert_eq!(read_integer("-9223372036854775808"), Some(i64::MIN.to_string()));
    assert_eq!(read_integer("9223372036854775808"), None);
    assert_eq!(read_integer("-9223372036854775809"), None);
    assert_eq!(read_integer("3.5"), None);
    assert_eq!(read_integer("1e3"), None);
    assert_eq!(read_integer("007"), None);
    assert_eq!(read_integer(""), None);
    assert_eq!(read_integer("-"), None);
    assert_eq!(read_integer("\"7\""), None);
}

#[test]
fn cast_by_result_type() {
    let never = |_f: String| -> Option<String> { None };
    assert_eq!(cast_by_type("12".to_string(), "i64", &never), Some("12".to_string()));
    assert_eq!(cast_by_type("12".to_string(), "f64", &never), None);
    assert_eq!(cast_by_type("12".to_string(), "f64", &tag), Some("<12>".to_string()));
    assert_eq!(cast_by_type("12".to_string(), "text", &never), Some(String::new()));
}
