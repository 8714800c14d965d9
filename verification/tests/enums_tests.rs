use weather_bot::enums::{Duration, Field, Source};
use weather_bot::telegram::enums::Command;

#[test]
fn source_names_round_trip() {
    assert_eq!(Source::OpenWeather.as_str(), "OpenWeather");
    assert_eq!(Source::OpenWeather.to_str(), "OpenWeather".to_string());
    assert_eq!(Source::from_str("OpenWeather"), Some(Source::OpenWeather));
    assert_eq!(Source::from_str("openweather"), None);
    assert_eq!(Source::from_str(""), None);
}

#[test]
fn duration_names_round_trip() {
    let all = [Duration::Weather, Duration::Nearest, Duration::LongTerm, Duration::Multi];
    let names = ["Weather", "Nearest", "LongTerm", "Multi"];
    for (d, n) in all.iter().zip(names.iter()) {
        assert_eq!(d.as_str(), *n);
        assert_eq!(d.to_string(), n.to_string());
        assert_eq!(Duration::from_str(n), Some(*d));
        assert_eq!(Duration::from_str(d.as_str()), Some(*d));
    }
    assert_eq!(Duration::from_str("Weather "), None);
    assert_eq!(Duration::from_str("Daily"), None);
}

#[test]
fn field_names_captions_and_units() {
    assert_eq!(Field::Temperature.as_str(), "Temperature");
    assert_eq!(Field::WindSpeed.to_str(), "WindSpeed".to_string());
    assert_eq!(Field::from_str("Pressure"), Some(Field::Pressure));
    assert_eq!(Field::from_str("Humidity"), Some(Field::Humidity));
    assert_eq!(Field::from_str("humidity"), None);
    assert_eq!(Field::Temperature.as_ru_str(), "Температура");
    assert_eq!(Field::WindSpeed.as_ru_str(), "Скорость ветра");
    assert_eq!(Field::Pressure.as_ru_str(), "Давление");
    assert_eq!(Field::Humidity.as_ru_str(), "Влажность");
    assert_eq!(Field::Temperature.units(), "°C");
    assert_eq!(Field::WindSpeed.units(), "м/с");
    assert_eq!(Field::Pressure.units(), "мм. рт. ст.");
    assert_eq!(Field::Humidity.units(), "%");
}

#[test]
fn field_values_in_order() {
    assert_eq!(
        Field::values(),
        vec![Field::Temperature, Field::WindSpeed, Field::Pressure, Field::Humidity]
    );
    for f in Field::values() {
        assert_eq!(Field::from_str(f.as_str()), Some(f));
    }
}

#[test]
fn command_names_round_trip() {
    let all = Command::Weather.values();
    assert_eq!(
        all,
        vec![
            Command::Weather,
            Command::SetLocation,
            Command::ChooseForecastPreferences,
            Command::SetNotificationTime,
            Command::DeleteNotification
        ]
    );
    for c in &all {
        assert_eq!(Command::from_str(c.as_str()), Some(*c));
        assert_eq!(c.to_string(), c.as_str().to_string());
    }
    assert_eq!(Command::ChooseForecastPreferences.as_str(), "ChooseForecastPreferences");
    assert_eq!(Command::from_str("Menu"), None);
    assert_eq!(Command::DeleteNotification.values().len(), 5);
}
