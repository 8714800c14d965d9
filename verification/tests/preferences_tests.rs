use weather_bot::enums::Field;
use weather_bot::models::NewUserFieldPreference;
use weather_bot::service::preferences::{
    parse_preference_fields, preference_field_names, preference_rows_to_store,
};

#[test]
fn prompt_example_chooses_wind_and_pressure() {
    // "4" names no field: only positions 0 to 3 exist.
    assert_eq!(parse_preference_fields("1,2,4"), vec![Field::WindSpeed, Field::Pressure]);
}

#[test]
fn pieces_are_trimmed_and_bad_pieces_skipped() {
    assert_eq!(
        parse_preference_fields(" 0 , +3,abc,,  2\t"),
        vec![Field::Temperature, Field::Humidity, Field::Pressure]
    );
    assert_eq!(parse_preference_fields("\u{3000}1\u{a0}"), vec![Field::WindSpeed]);
    assert_eq!(parse_preference_fields("1 2"), vec![]);
    assert_eq!(parse_preference_fields("+"), vec![]);
    assert_eq!(parse_preference_fields("-1"), vec![]);
    assert_eq!(parse_preference_fields("++1"), vec![]);
    assert_eq!(parse_preference_fields(""), vec![]);
    assert_eq!(parse_preference_fields("99999999999999999999999999"), vec![]);
    assert_eq!(parse_preference_fields("003,3"), vec![Field::Humidity, Field::Humidity]);
    assert_eq!(parse_preference_fields("١"), vec![]);
}

#[test]
fn field_names_for_the_query() {
    assert_eq!(
        preference_field_names("3, 0"),
        vec!["Humidity".to_string(), "Temperature".to_string()]
    );
    assert!(preference_field_names("x").is_empty());
}

#[test]
fn every_shown_number_selects_its_field() {
    for (i, f) in Field::values().into_iter().enumerate() {
        assert_eq!(parse_preference_fields(&i.to_string()), vec![f]);
    }
}

#[test]
fn rows_replace_only_when_ids_found() {
    assert_eq!(preference_rows_to_store(7, &vec![]), None);
    assert_eq!(
        preference_rows_to_store(7, &vec![2, 5]),
        Some(vec![NewUserFieldPreference::new(7, 2), NewUserFieldPreference { user_id: 7, pref_id: 5 }])
    );
}

#[test]
fn same_set_of_fields_asks_for_the_same_names() {
    let mut a = preference_field_names("0,2");
    let mut b = preference_field_names(" 2 ,0,2,x,7");
    a.sort();
    a.dedup();
    b.sort();
    b.dedup();
    assert_eq!(a, b);
    assert_eq!(a, vec!["Pressure".to_string(), "Temperature".to_string()]);
}

#[test]
fn stored_rows_carry_the_found_ids() {
    let rows = preference_rows_to_store(3, &vec![4, 4, 1]).unwrap();
    let ids: Vec<i32> = rows.iter().map(|r| r.pref_id).collect();
    assert_eq!(ids, vec![4, 4, 1]);
    assert!(rows.iter().all(|r| r.user_id == 3));
}
