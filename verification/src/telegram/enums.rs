use vstd::prelude::*;
use crate::text::str_equals;

verus! {

/// An action a user picks from the bot's menu; its name travels as callback data.
#[derive(PartialEq, Eq, Structural, Debug, Clone, Copy)]
pub enum Command {
    Weather,
    SetLocation,
    ChooseForecastPreferences,
    SetNotificationTime,
    DeleteNotification,
}

impl Command {
    /// The name under which the command travels and is stored.
    pub open spec fn name(self) -> Seq<char> {
        match self {
            Command::Weather => "Weather"@,
            Command::SetLocation => "SetLocation"@,
            Command::ChooseForecastPreferences => "ChooseForecastPreferences"@,
            Command::SetNotificationTime => "SetNotificationTime"@,
            Command::DeleteNotification => "DeleteNotification"@,
        }
    }

    /// The command whose name is `s`, if any.
    pub open spec fn parse(s: Seq<char>) -> Option<Command> {
        if s == "Weather"@ {
            Some(Command::Weather)
        } else if s == "SetLocation"@ {
            Some(Command::SetLocation)
        } else if s == "ChooseForecastPreferences"@ {
            Some(Command::ChooseForecastPreferences)
        } else if s == "SetNotificationTime"@ {
            Some(Command::SetNotificationTime)
        } else if s == "DeleteNotification"@ {
            Some(Command::DeleteNotification)
        } else {
            None
        }
    }

    /// All commands, in declaration order.
    pub open spec fn all() -> Seq<Command> {
        seq![Command::Weather, Command::SetLocation, Command::ChooseForecastPreferences, Command::SetNotificationTime, Command::DeleteNotification]
    }

    pub fn as_str(&self) -> (r: &'static str)
        ensures
            r@ == self.name(),
    {
        match self {
            Command::Weather => "Weather",
            Command::SetLocation => "SetLocation",
            Command::ChooseForecastPreferences => "ChooseForecastPreferences",
            Command::SetNotificationTime => "SetNotificationTime",
            Command::DeleteNotification => "DeleteNotification",
        }
    }

    pub fn to_string(&self) -> (r: String)
        ensures
            r@ == self.name(),
    {
        match self {
            Command::Weather => String::from_str("Weather"),
            Command::SetLocation => String::from_str("SetLocation"),
            Command::ChooseForecastPreferences => String::from_str("ChooseForecastPreferences"),
            Command::SetNotificationTime => String::from_str("SetNotificationTime"),
            Command::DeleteNotification => String::from_str("DeleteNotification"),
        }
    }

    pub fn from_str(str: &str) -> (r: Option<Command>)
        ensures
            r == Command::parse(str@),
    {
        if str_equals(str, "Weather") {
            Some(Command::Weather)
        } else if str_equals(str, "SetLocation") {
            Some(Command::SetLocation)
        } else if str_equals(str, "ChooseForecastPreferences") {
            Some(Command::ChooseForecastPreferences)
        } else if str_equals(str, "SetNotificationTime") {
            Some(Command::SetNotificationTime)
        } else if str_equals(str, "DeleteNotification") {
            Some(Command::DeleteNotification)
        } else {
            None
        }
    }

    /// All commands, in declaration order, whichever command it is asked of.
    pub fn values(&self) -> (r: Vec<Command>)
        ensures
            r@ == Command::all(),
    {
        let r = vec![Command::Weather, Command::SetLocation, Command::ChooseForecastPreferences, Command::SetNotificationTime, Command::DeleteNotification];
        assert(r@ =~= Command::all());
        r
    }
}

/// Every command is read back from its own name, and only from it.
pub proof fn lemma_command_name_roundtrip(v: Command)
    ensures
        Command::parse(v.name()) == Some(v),
        forall|s: Seq<char>| Command::parse(s) == Some(v) ==> s == v.name(),
{
    reveal_strlit("Weather");
    reveal_strlit("SetLocation");
    reveal_strlit("ChooseForecastPreferences");
    reveal_strlit("SetNotificationTime");
    reveal_strlit("DeleteNotification");
    assert("SetLocation"@.len() != "Weather"@.len());
    assert("ChooseForecastPreferences"@.len() != "Weather"@.len());
    assert("ChooseForecastPreferences"@.len() != "SetLocation"@.len());
    assert("SetNotificationTime"@.len() != "Weather"@.len());
    assert("SetNotificationTime"@.len() != "SetLocation"@.len());
    assert("SetNotificationTime"@.len() != "ChooseForecastPreferences"@.len());
    assert("DeleteNotification"@.len() != "Weather"@.len());
    assert("DeleteNotification"@.len() != "SetLocation"@.len());
    assert("DeleteNotification"@.len() != "ChooseForecastPreferences"@.len());
    assert("DeleteNotification"@.len() != "SetNotificationTime"@.len());
}

/// Distinct commands have distinct names.
pub proof fn lemma_command_names_distinct(a: Command, b: Command)
    requires
        a.name() == b.name(),
    ensures
        a == b,
{
    lemma_command_name_roundtrip(a);
    lemma_command_name_roundtrip(b);
}

/// `Command::all()` lists every command exactly once.
pub proof fn lemma_command_all_enumerates(c: Command)
    ensures
        Command::all().len() == 5,
        Command::all().contains(c),
        forall|i: int, j: int| 0 <= i < j < 5 ==> Command::all()[i] != Command::all()[j],
{
    match c {
        Command::Weather => assert(Command::all()[0] == c),
        Command::SetLocation => assert(Command::all()[1] == c),
        Command::ChooseForecastPreferences => assert(Command::all()[2] == c),
        Command::SetNotificationTime => assert(Command::all()[3] == c),
        Command::DeleteNotification => assert(Command::all()[4] == c),
    }
}

} // verus!
