use vstd::prelude::*;
use crate::enums::{Duration, Field, Source};
use crate::models::{Forecast, ForecastFieldPreference, NewForecast, Timestamp};
use crate::service::json_path::{find_first, json_path_first, safe_json_path};
use crate::text::{
    all_digits, chars_of, decimal, digits_value, is_digit, owned, push_char, push_decimal,
    seq_join, str_equals,
};

verus! {

/// The address of the forecast service.
pub const OPEN_WEATHER_URL: &'static str = "https://api.openweathermap.org/data/2.5/onecall";

/// `chrono::Utc::now`: the current time, read with `DateTime::timestamp` and
/// `DateTime::timestamp_subsec_nanos`. Claimed: the nanoseconds are below one second, since
/// `Utc::now` builds the time from `SystemTime`'s `subsec_nanos`. Nothing else is stated:
/// the value is the clock's.
#[verifier::external_body]
fn utc_now() -> (r: Timestamp)
    ensures
        r.nanos < 1_000_000_000,
{
    let now = chrono::Utc::now();
    Timestamp { secs: now.timestamp(), nanos: now.timestamp_subsec_nanos() }
}

/// The nanoseconds from `then` to `now`; negative when `now` is earlier.
pub open spec fn elapsed_nanos(now: Timestamp, then: Timestamp) -> int {
    (now.secs - then.secs) * 1_000_000_000 + (now.nanos - then.nanos)
}

/// `x / d` rounded toward zero, as integer division in Rust rounds.
pub open spec fn div_toward_zero(x: int, d: int) -> int {
    if x >= 0 {
        x / d
    } else {
        -((-x) / d)
    }
}

/// The whole hours from `then` to `now`, rounded toward zero: what chrono's
/// `now.signed_duration_since(then).num_hours()` gives for times without leap seconds.
pub open spec fn whole_hours(now: Timestamp, then: Timestamp) -> int {
    div_toward_zero(elapsed_nanos(now, then), 3_600_000_000_000)
}

/// The whole hours from `then` to `now`, rounded toward zero.
pub fn whole_hours_between(now: Timestamp, then: Timestamp) -> (r: i64)
    ensures
        r == whole_hours(now, then),
{
    let ds: i128 = now.secs as i128 - then.secs as i128;
    let dn: i128 = now.nanos as i128 - then.nanos as i128;
    assert(-0x1_0000_0000_0000_0000 <= ds <= 0x1_0000_0000_0000_0000);
    let x: i128 = ds * 1_000_000_000 + dn;
    assert(x == elapsed_nanos(now, then));
    let bound: i128 = 0x1_0000_0000_0000_0000 * 1_000_000_000 + 0x1_0000_0000;
    assert(-bound <= x <= bound);
    if x >= 0 {
        let h: i128 = x / 3_600_000_000_000;
        assert(h <= bound / 3_600_000_000_000) by (nonlinear_arith)
            requires
                0 <= x <= bound,
                h == x / 3_600_000_000_000,
        ;
        h as i64
    } else {
        let y: i128 = -x;
        let h: i128 = y / 3_600_000_000_000;
        assert(h <= bound / 3_600_000_000_000) by (nonlinear_arith)
            requires
                0 <= y <= bound,
                h == y / 3_600_000_000_000,
        ;
        assert(h >= 0) by (nonlinear_arith)
            requires
                0 <= y,
                h == y / 3_600_000_000_000,
        ;
        (-h) as i64
    }
}

/// How many whole hours a forecast of the given kind stays fresh.
pub open spec fn fresh_hours(d: Duration) -> int {
    match d {
        Duration::Weather => 2,
        Duration::Nearest => 12,
        Duration::LongTerm => 24,
        Duration::Multi => 24,
    }
}

/// Whether a forecast stored under the duration name `duration` is out of date once
/// `elapsed_hours` whole hours have passed; a forecast of unknown kind never is.
pub open spec fn expired_after(duration: Seq<char>, elapsed_hours: int) -> bool {
    match Duration::parse(duration) {
        Some(d) => elapsed_hours > fresh_hours(d),
        None => false,
    }
}

/// Whether a forecast stored under `duration` is out of date after `elapsed_hours` hours.
pub fn is_expired_after(duration: &str, elapsed_hours: i64) -> (r: bool)
    ensures
        r == expired_after(duration@, elapsed_hours as int),
{
    match Duration::from_str(duration) {
        Some(d) => match d {
            Duration::Weather => elapsed_hours > 2,
            Duration::Nearest => elapsed_hours > 12,
            Duration::LongTerm => elapsed_hours > 24,
            Duration::Multi => elapsed_hours > 24,
        },
        None => false,
    }
}

/// Whether `forecast` is out of date at the moment `now`.
pub fn is_expired_at(forecast: &Forecast, now: Timestamp) -> (r: bool)
    ensures
        r == expired_after(forecast.duration@, whole_hours(now, forecast.created)),
{
    let hours = whole_hours_between(now, forecast.created);
    is_expired_after(forecast.duration.as_str(), hours)
}

/// Whether `forecast` is out of date now: `is_expired_at` with the clock's reading.
pub fn is_expired(forecast: &Forecast) -> (r: bool)
    ensures
        exists|now: Timestamp|
            now.nanos < 1_000_000_000 && r == expired_after(
                forecast.duration@,
                whole_hours(now, forecast.created),
            ),
        Duration::parse(forecast.duration@) is None ==> !r,
{
    let now = utc_now();
    is_expired_at(forecast, now)
}

/// Whether a new forecast has to be requested, given the user's latest stored one.
pub fn should_request_forecast(latest: &Option<Forecast>) -> (r: bool)
    ensures
        latest is None ==> r,
        latest matches Some(f) ==> exists|now: Timestamp|
            now.nanos < 1_000_000_000 && r == expired_after(f.duration@, whole_hours(now, f.created)),
        latest matches Some(f) ==> (Duration::parse(f.duration@) is None ==> !r),
{
    match latest {
        Some(f) => is_expired(f),
        None => true,
    }
}

/// The reply to a user whose location is not known yet.
pub fn user_not_found_reply() -> (r: String)
    ensures
        r@ == "Пользователь не найден. Отправьте геолокацию для регистрации"@,
{
    owned("Пользователь не найден. Отправьте геолокацию для регистрации")
}

/// The query parameters of a forecast request for the given place.
pub fn open_weather_query(lat: &str, lon: &str, app_id: &str) -> (r: Vec<(String, String)>)
    ensures
        r.deep_view() == seq![
            ("lat"@, lat@),
            ("lon"@, lon@),
            ("units"@, "metric"@),
            ("lang"@, "ru"@),
            ("appid"@, app_id@),
        ],
{
    let r = vec![
        (owned("lat"), owned(lat)),
        (owned("lon"), owned(lon)),
        (owned("units"), owned("metric")),
        (owned("lang"), owned("ru")),
        (owned("appid"), owned(app_id)),
    ];
    assert(r.deep_view() =~= seq![
        ("lat"@, lat@),
        ("lon"@, lon@),
        ("units"@, "metric"@),
        ("lang"@, "ru"@),
        ("appid"@, app_id@),
    ]);
    r
}

/// The record of a forecast document just received from the forecast service.
pub fn new_weather_record(forecast_json: String, user_id: i64, created: Timestamp) -> (r: NewForecast)
    ensures
        r.forecast_json == forecast_json,
        r.source@ == Source::OpenWeather.name(),
        r.duration@ == Duration::Weather.name(),
        r.created == created,
        r.user_id == user_id,
{
    NewForecast::new(forecast_json, Source::OpenWeather.to_str(), Duration::Weather.to_string(), created, user_id)
}

/// The line that shows one forecast value: caption, the converted value and the unit.
pub open spec fn forecast_line(f: Field, converted: Seq<char>) -> Seq<char> {
    f.ru_name() + ": "@ + converted + " "@ + f.unit_name()
}

/// What the line for a found value is: for a known field, its line around some value that
/// `convert` may give for it; for any other name, the value itself.
pub open spec fn message_for<F: Fn(Field, String) -> String>(
    field_name: Seq<char>,
    value: String,
    line: Seq<char>,
    convert: F,
) -> bool {
    match Field::parse(field_name) {
        Some(f) => exists|c: String| #[trigger]
            convert.ensures((f, value), c) && line == forecast_line(f, c@),
        None => line == value@,
    }
}

/// The line for one found value: a known field is shown with its caption and unit around
/// the value as `convert` renders it; a value of any other name is shown as it is.
pub fn format_forecast_message<F: Fn(Field, String) -> String>(
    field_name: &str,
    value: String,
    convert: &F,
) -> (r: String)
    requires
        forall|f: Field, v: String| convert.requires((f, v)),
    ensures
        message_for(field_name@, value, r@, *convert),
        Field::parse(field_name@) matches Some(f) ==> exists|c: String|
            #[trigger] convert.ensures((f, value), c) && r@ == f.ru_name() + ": "@ + c@ + " "@
                + f.unit_name(),
        Field::parse(field_name@) is None ==> r@ == value@,
{
    let ghost value0 = value;
    match Field::from_str(field_name) {
        Some(field) => {
            let converted = convert(field, value);
            let mut r = owned(field.as_ru_str());
            r.append(": ");
            r.append(converted.as_str());
            r.append(" ");
            r.append(field.units());
            assert(r@ =~= forecast_line(field, converted@));
            assert(convert.ensures((field, value0), converted));
            r
        },
        None => value,
    }
}

/// The forecast report: one line per found `(field name, value)` pair, in order, each as
/// `format_forecast_message` gives it, joined by line breaks.
pub fn compose_report<F: Fn(Field, String) -> String>(found: &Vec<(String, String)>, convert: &F) -> (r: String)
    requires
        forall|f: Field, v: String| convert.requires((f, v)),
    ensures
        exists|lines: Seq<Seq<char>>|
            {
                &&& lines.len() == found@.len()
                &&& forall|i: int|
                    0 <= i < lines.len() ==> message_for(
                        found@[i].0@,
                        found@[i].1,
                        #[trigger] lines[i],
                        *convert,
                    )
                &&& r@ == seq_join(lines, "\n"@)
            },
{
    let n = found.len();
    let mut messages: Vec<String> = Vec::new();
    let mut k: usize = 0;
    while k < n
        invariant
            n == found@.len(),
            k <= n,
            forall|f: Field, v: String| convert.requires((f, v)),
            messages@.len() == k,
            forall|i: int|
                0 <= i < k ==> message_for(
                    found@[i].0@,
                    found@[i].1,
                    #[trigger] messages@[i]@,
                    *convert,
                ),
        decreases n - k,
    {
        let value = found[k].1.clone();
        let m = format_forecast_message(found[k].0.as_str(), value, convert);
        messages.push(m);
        k = k + 1;
    }
    let r = crate::text::join_strings(&messages, "\n");
    proof {
        let lines = messages.deep_view();
        assert forall|i: int| 0 <= i < lines.len() implies message_for(
            found@[i].0@,
            found@[i].1,
            #[trigger] lines[i],
            *convert,
        ) by {
            assert(lines[i] == messages@[i]@);
        }
    }
    r
}

/// The integer that the JSON number text `t` writes, when it writes one: an optional `-`,
/// then `0` or digits without a leading zero, and no fraction or exponent.
pub open spec fn json_integer_value(t: Seq<char>) -> Option<int> {
    let neg = t.len() > 0 && t[0] == '-';
    let d = if neg { t.drop_first() } else { t };
    if d.len() > 0 && all_digits(d) && (d.len() == 1 || d[0] != '0') {
        Some(if neg { -digits_value(d) } else { digits_value(d) as int })
    } else {
        None
    }
}

/// The decimal notation of the integer `v`, with a `-` when it is negative.
pub open spec fn signed_decimal(v: int) -> Seq<char> {
    if v < 0 {
        seq!['-'] + decimal((-v) as nat)
    } else {
        decimal(v as nat)
    }
}

/// What reading the found JSON text `t` as an `i64` and writing it back gives: nothing
/// when `t` is no integer of the `i64` range.
pub open spec fn integer_text(t: Seq<char>) -> Option<Seq<char>> {
    match json_integer_value(t) {
        Some(v) => if i64::MIN <= v <= i64::MAX {
            Some(signed_decimal(v))
        } else {
            None
        },
        None => None,
    }
}

/// Reads the found JSON text `found` as an `i64` and writes it in decimal.
pub fn read_integer(found: &str) -> (r: Option<String>)
    ensures
        r.deep_view() == integer_text(found@),
{
    let t = chars_of(found);
    let n = t.len();
    let neg = n > 0 && t[0] == '-';
    let start: usize = if neg { 1 } else { 0 };
    let ghost d = t@.subrange(start as int, n as int);
    proof {
        if neg {
            assert(d =~= t@.drop_first());
        } else {
            assert(d =~= t@);
        }
    }
    if start == n || (n - start > 1 && t[start] == '0') {
        return None;
    }
    let limit: u64 = 0x8000_0000_0000_0000;
    let mut acc: u64 = 0;
    let mut i = start;
    while i < n
        invariant
            start <= i <= n,
            n == t@.len(),
            t@ == found@,
            d == t@.subrange(start as int, n as int),
            (neg && t@.len() > 0 && t@[0] == '-' && d == t@.drop_first()) || (!neg && !(t@.len()
                > 0 && t@[0] == '-') && d == t@),
            limit == 0x8000_0000_0000_0000,
            forall|j: int| start <= j < i ==> is_digit(#[trigger] t@[j]),
            acc == (if digits_value(t@.subrange(start as int, i as int)) > limit {
                limit + 1
            } else {
                digits_value(t@.subrange(start as int, i as int)) as int
            }),
        decreases n - i,
    {
        let c = t[i];
        if !('0' <= c && c <= '9') {
            proof {
                assert(d[i - start] == c);
                assert(!all_digits(d));
            }
            return None;
        }
        let dig = (c as u32 - 48) as u64;
        let ghost pre = t@.subrange(start as int, i as int);
        let ghost post = t@.subrange(start as int, i + 1);
        assert(post.drop_last() =~= pre);
        assert(digits_value(post) == digits_value(pre) * 10 + dig);
        if acc > limit {
            acc = limit + 1;
        } else {
            if acc > (limit - dig) / 10 {
                assert(acc * 10 + dig > limit) by (nonlinear_arith)
                    requires
                        acc > (limit - dig) / 10,
                        dig <= 9,
                        limit == 0x8000_0000_0000_0000,
                ;
                acc = limit + 1;
            } else {
                assert(acc * 10 + dig <= limit) by (nonlinear_arith)
                    requires
                        acc <= (limit - dig) / 10,
                        dig <= 9,
                        limit == 0x8000_0000_0000_0000,
                ;
                acc = acc * 10 + dig;
            }
        }
        i = i + 1;
    }
    proof {
        assert(t@.subrange(start as int, n as int) == d);
        assert forall|j: int| 0 <= j < d.len() implies is_digit(#[trigger] d[j]) by {
            assert(d[j] == t@[j + start]);
        }
        assert(all_digits(d));
    }
    if neg {
        if acc > limit {
            return None;
        }
        let mut r = String::new();
        if acc != 0 {
            push_char(&mut r, '-');
        }
        push_decimal(&mut r, acc);
        proof {
            if acc == 0 {
                assert(signed_decimal(0) == decimal(0));
            }
            assert(r@ =~= signed_decimal(-(acc as int)));
        }
        Some(r)
    } else {
        if acc >= limit {
            return None;
        }
        let mut r = String::new();
        push_decimal(&mut r, acc);
        assert(r@ =~= signed_decimal(acc as int));
        Some(r)
    }
}

/// Whether reading the found JSON text `found` by the result type `kind` may give `out`:
/// `"f64"` leaves it to `float_text`, `"i64"` is `integer_text`, and any other type gives
/// an empty text.
pub open spec fn cast_gives<G: Fn(String) -> Option<String>>(
    found: Seq<char>,
    kind: Seq<char>,
    out: Option<Seq<char>>,
    float_text: G,
) -> bool {
    if kind == "f64"@ {
        exists|f: String, x: Option<String>|
            #![trigger float_text.ensures((f,), x)]
            f@ == found && float_text.ensures((f,), x) && x.deep_view() == out
    } else if kind == "i64"@ {
        out == integer_text(found)
    } else {
        out == Some(Seq::<char>::empty())
    }
}

/// Reads a found value by the preference's result type; nothing when it is not of that type.
pub fn cast_by_type<G: Fn(String) -> Option<String>>(
    found: String,
    search_result_type: &str,
    float_text: &G,
) -> (r: Option<String>)
    requires
        forall|f: String| float_text.requires((f,)),
    ensures
        cast_gives(found@, search_result_type@, r.deep_view(), *float_text),
{
    let ghost found0 = found;
    if str_equals(search_result_type, "f64") {
        let r = float_text(found);
        assert(float_text.ensures((found0,), r));
        r
    } else if str_equals(search_result_type, "i64") {
        read_integer(found.as_str())
    } else {
        let r = Some(String::new());
        assert(r.deep_view() == Some(Seq::<char>::empty()));
        r
    }
}

/// The forecast report of a stored forecast document for the given field preferences:
/// each preference's path is looked up in the document, its first match is read by the
/// preference's result type (`cast_by_type`), and the lines are composed as
/// `compose_report` does. Nothing when some path selects nothing or some match is not of
/// its type. Every path must be one that the lookup can take (`json_path_is_safe` tests it).
pub fn forecast_report<G: Fn(String) -> Option<String>, F: Fn(Field, String) -> String>(
    forecast_json: &str,
    prefs: &Vec<ForecastFieldPreference>,
    float_text: &G,
    convert: &F,
) -> (r: Option<String>)
    requires
        forall|f: String| float_text.requires((f,)),
        forall|f: Field, v: String| convert.requires((f, v)),
        forall|i: int| 0 <= i < prefs@.len() ==> safe_json_path(#[trigger] prefs@[i].search_path@),
    ensures
        r is Some ==> forall|i: int|
            0 <= i < prefs@.len() ==> (#[trigger] json_path_first(
                forecast_json@,
                prefs@[i].search_path@,
            )) is Some,
        r is None ==> exists|i: int|
            0 <= i < prefs@.len() && ((#[trigger] json_path_first(
                forecast_json@,
                prefs@[i].search_path@,
            )) is None || cast_gives(
                json_path_first(forecast_json@, prefs@[i].search_path@)->0,
                prefs@[i].search_result_type@,
                None,
                *float_text,
            )),
        r matches Some(s) ==> exists|values: Seq<String>, lines: Seq<Seq<char>>|
            #![trigger values.len(), lines.len()]
            {
                &&& values.len() == prefs@.len()
                &&& lines.len() == prefs@.len()
                &&& forall|i: int|
                    #![trigger values[i]]
                    0 <= i < prefs@.len() ==> cast_gives(
                        json_path_first(forecast_json@, prefs@[i].search_path@)->0,
                        prefs@[i].search_result_type@,
                        Some(values[i]@),
                        *float_text,
                    )
                &&& forall|i: int|
                    #![trigger lines[i]]
                    0 <= i < prefs@.len() ==> message_for(
                        prefs@[i].field@,
                        values[i],
                        lines[i],
                        *convert,
                    )
                &&& s@ == seq_join(lines, "\n"@)
            },
{
    let n = prefs.len();
    let mut found: Vec<(String, String)> = Vec::new();
    let mut k: usize = 0;
    while k < n
        invariant
            n == prefs@.len(),
            k <= n,
            forall|f: String| float_text.requires((f,)),
            forall|i: int| 0 <= i < prefs@.len() ==> safe_json_path(#[trigger] prefs@[i].search_path@),
            found@.len() == k,
            forall|i: int|
                0 <= i < k ==> (#[trigger] json_path_first(
                    forecast_json@,
                    prefs@[i].search_path@,
                )) is Some,
            forall|i: int|
                #![trigger found@[i]]
                0 <= i < k ==> found@[i].0@ == prefs@[i].field@ && cast_gives(
                    json_path_first(forecast_json@, prefs@[i].search_path@)->0,
                    prefs@[i].search_result_type@,
                    Some(found@[i].1@),
                    *float_text,
                ),
        decreases n - k,
    {
        let pref = &prefs[k];
        match find_first(forecast_json, pref.search_path.as_str()) {
            Some(text) => {
                match cast_by_type(text, pref.search_result_type.as_str(), float_text) {
                    Some(value) => {
                        found.push((pref.field.clone(), value));
                    },
                    None => {
                        return None;
                    },
                }
            },
            None => {
                assert(json_path_first(forecast_json@, prefs@[k as int].search_path@) is None);
                return None;
            },
        }
        k = k + 1;
    }
    let report = compose_report(&found, convert);
    proof {
        let values = found@.map_values(|p: (String, String)| p.1);
        let lines = choose|lines: Seq<Seq<char>>|
            {
                &&& lines.len() == found@.len()
                &&& forall|i: int|
                    0 <= i < lines.len() ==> message_for(
                        found@[i].0@,
                        found@[i].1,
                        #[trigger] lines[i],
                        *convert,
                    )
                &&& report@ == seq_join(lines, "\n"@)
            };
        assert forall|i: int| #![trigger values[i]] 0 <= i < prefs@.len() implies cast_gives(
            json_path_first(forecast_json@, prefs@[i].search_path@)->0,
            prefs@[i].search_result_type@,
            Some(values[i]@),
            *float_text,
        ) by {
            assert(found@[i].1 == values[i]);
        }
        assert forall|i: int| #![trigger lines[i]] 0 <= i < prefs@.len() implies message_for(
            prefs@[i].field@,
            values[i],
            lines[i],
            *convert,
        ) by {
            assert(found@[i].1 == values[i]);
            assert(found@[i].0@ == prefs@[i].field@);
        }
        assert(values.len() == prefs@.len());
        assert(lines.len() == prefs@.len());
        assert(report@ == seq_join(lines, "\n"@));
    }
    Some(report)
}

/// The line of a known field shows the converted value verbatim: after the caption and
/// `": "` comes exactly the converted text, followed by one space and the unit, whatever
/// the text is.
pub proof fn lemma_line_shows_value_verbatim(f: Field, c: Seq<char>)
    ensures
        forecast_line(f, c).len() == f.ru_name().len() + 2 + c.len() + 1 + f.unit_name().len(),
        forecast_line(f, c).subrange(0, f.ru_name().len() as int) == f.ru_name(),
        forecast_line(f, c).subrange(f.ru_name().len() as int, (f.ru_name().len() + 2) as int) == ": "@,
        forecast_line(f, c).subrange(
            (f.ru_name().len() + 2) as int,
            (f.ru_name().len() + 2 + c.len()) as int,
        ) == c,
        forecast_line(f, c).subrange(
            (f.ru_name().len() + 2 + c.len()) as int,
            forecast_line(f, c).len() as int,
        ) == " "@ + f.unit_name(),
{
    reveal_strlit(": ");
    reveal_strlit(" ");
    let line = forecast_line(f, c);
    let a = f.ru_name().len() as int;
    assert(line.subrange(0, a) =~= f.ru_name());
    assert(line.subrange(a, a + 2) =~= ": "@);
    assert(line.subrange(a + 2, a + 2 + c.len()) =~= c);
    assert(line.subrange(a + 2 + c.len(), line.len() as int) =~= " "@ + f.unit_name());
}

/// The lines of a report are what `message_for` states: for a known field, its caption,
/// `": "`, a text `convert` gives for the value, a space and its unit; for any other name,
/// the value itself.
pub proof fn lemma_message_for_shows_converted_value<F: Fn(Field, String) -> String>(
    field_name: Seq<char>,
    value: String,
    line: Seq<char>,
    convert: F,
)
    requires
        message_for(field_name, value, line, convert),
    ensures
        Field::parse(field_name) matches Some(f) ==> exists|c: String|
            #[trigger] convert.ensures((f, value), c) && line == f.ru_name() + ": "@ + c@ + " "@
                + f.unit_name(),
        Field::parse(field_name) is None ==> line == value@,
{
}

/// Once a forecast kind is out of date after some number of hours, it stays out of date
/// after any later number; a forecast of unknown kind is never out of date.
pub proof fn lemma_expiry_monotone(duration: Seq<char>, h1: int, h2: int)
    requires
        h1 <= h2,
    ensures
        expired_after(duration, h1) ==> expired_after(duration, h2),
        Duration::parse(duration) is None ==> !expired_after(duration, h2),
{
}

/// Rounding toward zero keeps the order of the numbers divided.
proof fn lemma_div_toward_zero_monotone(x: int, y: int, d: int)
    requires
        x <= y,
        d > 0,
    ensures
        div_toward_zero(x, d) <= div_toward_zero(y, d),
{
    if x >= 0 {
        assert(x / d <= y / d) by (nonlinear_arith)
            requires
                0 <= x <= y,
                d > 0,
        ;
    } else if y >= 0 {
        assert((-x) / d >= 0) by (nonlinear_arith)
            requires
                -x > 0,
                d > 0,
        ;
        assert(y / d >= 0) by (nonlinear_arith)
            requires
                y >= 0,
                d > 0,
        ;
    } else {
        assert((-y) / d <= (-x) / d) by (nonlinear_arith)
            requires
                0 < -y <= -x,
                d > 0,
        ;
    }
}

/// A forecast that is out of date at one moment is out of date at every later moment.
pub proof fn lemma_expiry_monotone_in_time(
    duration: Seq<char>,
    created: Timestamp,
    earlier: Timestamp,
    later: Timestamp,
)
    requires
        elapsed_nanos(earlier, created) <= elapsed_nanos(later, created),
    ensures
        expired_after(duration, whole_hours(earlier, created)) ==> expired_after(
            duration,
            whole_hours(later, created),
        ),
{
    lemma_div_toward_zero_monotone(
        elapsed_nanos(earlier, created),
        elapsed_nanos(later, created),
        3_600_000_000_000,
    );
}

} // verus!
