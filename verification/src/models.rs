use vstd::prelude::*;

verus! {

/// A moment as whole seconds since the Unix epoch (UTC) and nanoseconds past that second.
#[derive(PartialEq, Eq, Structural, Debug, Clone, Copy)]
pub struct Timestamp {
    pub secs: i64,
    pub nanos: u32,
}

/// A forecast as it is stored for a user.
pub struct Forecast {
    pub forecast_id: i32,
    pub forecast_json: String,
    pub source: String,
    pub duration: String,
    pub created: Timestamp,
    pub user_id: i64,
}

/// A forecast about to be stored.
pub struct NewForecast {
    pub forecast_json: String,
    pub source: String,
    pub duration: String,
    pub created: Timestamp,
    pub user_id: i64,
}

impl NewForecast {
    pub fn new(
        forecast_json: String,
        source: String,
        duration: String,
        created: Timestamp,
        user_id: i64,
    ) -> (r: NewForecast)
        ensures
            r.forecast_json == forecast_json,
            r.source == source,
            r.duration == duration,
            r.created == created,
            r.user_id == user_id,
    {
        NewForecast { forecast_json, source, duration, created, user_id }
    }
}

/// Where a forecast field is found in the forecast document, and how its value is read.
pub struct ForecastFieldPreference {
    pub id: i32,
    pub source: String,
    pub field: String,
    pub search_path: String,
    pub search_result_type: String,
}

/// A forecast field description about to be stored.
pub struct NewForecastFieldPreference {
    pub source: String,
    pub field: String,
    pub search_path: String,
    pub search_result_type: String,
}

impl NewForecastFieldPreference {
    pub fn new(
        source: String,
        field: String,
        search_path: String,
        search_result_type: String,
    ) -> (r: NewForecastFieldPreference)
        ensures
            r.source == source,
            r.field == field,
            r.search_path == search_path,
            r.search_result_type == search_result_type,
    {
        NewForecastFieldPreference { source, field, search_path, search_result_type }
    }
}

/// A user's choice of one forecast field, about to be stored.
#[derive(PartialEq, Eq, Structural, Debug, Clone, Copy)]
pub struct NewUserFieldPreference {
    pub user_id: i64,
    pub pref_id: i32,
}

impl NewUserFieldPreference {
    pub fn new(user_id: i64, pref_id: i32) -> (r: NewUserFieldPreference)
        ensures
            r == (NewUserFieldPreference { user_id, pref_id }),
    {
        NewUserFieldPreference { user_id, pref_id }
    }
}

} // verus!
