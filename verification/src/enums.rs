use vstd::prelude::*;
use crate::text::str_equals;

verus! {

/// Where a forecast was obtained from.
#[derive(PartialEq, Eq, Structural, Debug, Clone, Copy)]
pub enum Source {
    OpenWeather,
}

impl Source {
    /// The name under which the value is stored and exchanged.
    pub open spec fn name(self) -> Seq<char> {
        match self {
            Source::OpenWeather => "OpenWeather"@,
        }
    }

    /// The value whose name is `s`, if any.
    pub open spec fn parse(s: Seq<char>) -> Option<Source> {
        if s == "OpenWeather"@ {
            Some(Source::OpenWeather)
        } else {
            None
        }
    }

    pub fn as_str(&self) -> (r: &'static str)
        ensures
            r@ == self.name(),
    {
        match self {
            Source::OpenWeather => "OpenWeather",
        }
    }

    pub fn to_str(&self) -> (r: String)
        ensures
            r@ == self.name(),
    {
        match self {
            Source::OpenWeather => String::from_str("OpenWeather"),
        }
    }

    pub fn from_str(str: &str) -> (r: Option<Source>)
        ensures
            r == Source::parse(str@),
    {
        if str_equals(str, "OpenWeather") {
            Some(Source::OpenWeather)
        } else {
            None
        }
    }
}

/// Every Source value is read back from its own name, and only from it.
pub proof fn lemma_source_name_roundtrip(v: Source)
    ensures
        Source::parse(v.name()) == Some(v),
        forall|s: Seq<char>| Source::parse(s) == Some(v) ==> s == v.name(),
{
    reveal_strlit("OpenWeather");
}

/// Distinct Source values have distinct names.
pub proof fn lemma_source_names_distinct(a: Source, b: Source)
    requires
        a.name() == b.name(),
    ensures
        a == b,
{
    lemma_source_name_roundtrip(a);
    lemma_source_name_roundtrip(b);
}

/// The period a stored forecast covers; it decides how long the forecast stays fresh.
#[derive(PartialEq, Eq, Structural, Debug, Clone, Copy)]
pub enum Duration {
    Weather,
    Nearest,
    LongTerm,
    Multi,
}

impl Duration {
    /// The name under which the value is stored and exchanged.
    pub open spec fn name(self) -> Seq<char> {
        match self {
            Duration::Weather => "Weather"@,
            Duration::Nearest => "Nearest"@,
            Duration::LongTerm => "LongTerm"@,
            Duration::Multi => "Multi"@,
        }
    }

    /// The value whose name is `s`, if any.
    pub open spec fn parse(s: Seq<char>) -> Option<Duration> {
        if s == "Weather"@ {
            Some(Duration::Weather)
        } else if s == "Nearest"@ {
            Some(Duration::Nearest)
        } else if s == "LongTerm"@ {
            Some(Duration::LongTerm)
        } else if s == "Multi"@ {
            Some(Duration::Multi)
        } else {
            None
        }
    }

    pub fn as_str(&self) -> (r: &'static str)
        ensures
            r@ == self.name(),
    {
        match self {
            Duration::Weather => "Weather",
            Duration::Nearest => "Nearest",
            Duration::LongTerm => "LongTerm",
            Duration::Multi => "Multi",
        }
    }

    pub fn to_string(&self) -> (r: String)
        ensures
            r@ == self.name(),
    {
        match self {
            Duration::Weather => String::from_str("Weather"),
            Duration::Nearest => String::from_str("Nearest"),
            Duration::LongTerm => String::from_str("LongTerm"),
            Duration::Multi => String::from_str("Multi"),
        }
    }

    pub fn from_str(str: &str) -> (r: Option<Duration>)
        ensures
            r == Duration::parse(str@),
    {
        if str_equals(str, "Weather") {
            Some(Duration::Weather)
        } else if str_equals(str, "Nearest") {
            Some(Duration::Nearest)
        } else if str_equals(str, "LongTerm") {
            Some(Duration::LongTerm)
        } else if str_equals(str, "Multi") {
            Some(Duration::Multi)
        } else {
            None
        }
    }
}

/// Every Duration value is read back from its own name, and only from it.
pub proof fn lemma_duration_name_roundtrip(v: Duration)
    ensures
        Duration::parse(v.name()) == Some(v),
        forall|s: Seq<char>| Duration::parse(s) == Some(v) ==> s == v.name(),
{
    reveal_strlit("Weather");
    reveal_strlit("Nearest");
    reveal_strlit("LongTerm");
    reveal_strlit("Multi");
    assert("Nearest"@[0] != "Weather"@[0]);
    assert("LongTerm"@.len() != "Weather"@.len());
    assert("LongTerm"@.len() != "Nearest"@.len());
    assert("Multi"@.len() != "Weather"@.len());
    assert("Multi"@.len() != "Nearest"@.len());
    assert("Multi"@.len() != "LongTerm"@.len());
}

/// Distinct Duration values have distinct names.
pub proof fn lemma_duration_names_distinct(a: Duration, b: Duration)
    requires
        a.name() == b.name(),
    ensures
        a == b,
{
    lemma_duration_name_roundtrip(a);
    lemma_duration_name_roundtrip(b);
}

/// A forecast value that a user may choose to see.
#[derive(PartialEq, Eq, Structural, Debug, Clone, Copy)]
pub enum Field {
    Temperature,
    WindSpeed,
    Pressure,
    Humidity,
}

impl Field {
    /// The name under which the value is stored and exchanged.
    pub open spec fn name(self) -> Seq<char> {
        match self {
            Field::Temperature => "Temperature"@,
            Field::WindSpeed => "WindSpeed"@,
            Field::Pressure => "Pressure"@,
            Field::Humidity => "Humidity"@,
        }
    }

    /// The value whose name is `s`, if any.
    pub open spec fn parse(s: Seq<char>) -> Option<Field> {
        if s == "Temperature"@ {
            Some(Field::Temperature)
        } else if s == "WindSpeed"@ {
            Some(Field::WindSpeed)
        } else if s == "Pressure"@ {
            Some(Field::Pressure)
        } else if s == "Humidity"@ {
            Some(Field::Humidity)
        } else {
            None
        }
    }

    /// The Russian caption shown to users.
    pub open spec fn ru_name(self) -> Seq<char> {
        match self {
            Field::Temperature => "Температура"@,
            Field::WindSpeed => "Скорость ветра"@,
            Field::Pressure => "Давление"@,
            Field::Humidity => "Влажность"@,
        }
    }

    /// The unit shown after a value.
    pub open spec fn unit_name(self) -> Seq<char> {
        match self {
            Field::Temperature => "°C"@,
            Field::WindSpeed => "м/с"@,
            Field::Pressure => "мм. рт. ст."@,
            Field::Humidity => "%"@,
        }
    }

    /// All fields, in the order in which they are offered to users.
    pub open spec fn all() -> Seq<Field> {
        seq![Field::Temperature, Field::WindSpeed, Field::Pressure, Field::Humidity]
    }

    /// The position of the field in `Field::all()`.
    pub open spec fn position(self) -> nat {
        match self {
            Field::Temperature => 0,
            Field::WindSpeed => 1,
            Field::Pressure => 2,
            Field::Humidity => 3,
        }
    }

    pub fn as_str(&self) -> (r: &'static str)
        ensures
            r@ == self.name(),
    {
        match self {
            Field::Temperature => "Temperature",
            Field::WindSpeed => "WindSpeed",
            Field::Pressure => "Pressure",
            Field::Humidity => "Humidity",
        }
    }

    pub fn to_str(&self) -> (r: String)
        ensures
            r@ == self.name(),
    {
        match self {
            Field::Temperature => String::from_str("Temperature"),
            Field::WindSpeed => String::from_str("WindSpeed"),
            Field::Pressure => String::from_str("Pressure"),
            Field::Humidity => String::from_str("Humidity"),
        }
    }

    pub fn from_str(str: &str) -> (r: Option<Field>)
        ensures
            r == Field::parse(str@),
    {
        if str_equals(str, "Temperature") {
            Some(Field::Temperature)
        } else if str_equals(str, "WindSpeed") {
            Some(Field::WindSpeed)
        } else if str_equals(str, "Pressure") {
            Some(Field::Pressure)
        } else if str_equals(str, "Humidity") {
            Some(Field::Humidity)
        } else {
            None
        }
    }

    pub fn as_ru_str(&self) -> (r: &'static str)
        ensures
            r@ == self.ru_name(),
    {
        match self {
            Field::Temperature => "Температура",
            Field::WindSpeed => "Скорость ветра",
            Field::Pressure => "Давление",
            Field::Humidity => "Влажность",
        }
    }

    pub fn units(&self) -> (r: &'static str)
        ensures
            r@ == self.unit_name(),
    {
        match self {
            Field::Temperature => "°C",
            Field::WindSpeed => "м/с",
            Field::Pressure => "мм. рт. ст.",
            Field::Humidity => "%",
        }
    }

    /// All fields, in the order in which they are offered to users.
    pub fn values() -> (r: Vec<Field>)
        ensures
            r@ == Field::all(),
    {
        let r = vec![Field::Temperature, Field::WindSpeed, Field::Pressure, Field::Humidity];
        assert(r@ =~= Field::all());
        r
    }
}

/// Every Field value is read back from its own name, and only from it.
pub proof fn lemma_field_name_roundtrip(v: Field)
    ensures
        Field::parse(v.name()) == Some(v),
        forall|s: Seq<char>| Field::parse(s) == Some(v) ==> s == v.name(),
{
    reveal_strlit("Temperature");
    reveal_strlit("WindSpeed");
    reveal_strlit("Pressure");
    reveal_strlit("Humidity");
    assert("WindSpeed"@.len() != "Temperature"@.len());
    assert("Pressure"@.len() != "Temperature"@.len());
    assert("Pressure"@.len() != "WindSpeed"@.len());
    assert("Humidity"@.len() != "Temperature"@.len());
    assert("Humidity"@.len() != "WindSpeed"@.len());
    assert("Humidity"@[0] != "Pressure"@[0]);
}

/// Distinct Field values have distinct names.
pub proof fn lemma_field_names_distinct(a: Field, b: Field)
    requires
        a.name() == b.name(),
    ensures
        a == b,
{
    lemma_field_name_roundtrip(a);
    lemma_field_name_roundtrip(b);
}

/// `Field::all()` lists every field once, each at its own position.
pub proof fn lemma_field_all_enumerates(f: Field)
    ensures
        Field::all().len() == 4,
        f.position() < 4,
        Field::all()[f.position() as int] == f,
        forall|i: int, j: int| 0 <= i < j < 4 ==> Field::all()[i] != Field::all()[j],
{
}

} // verus!
