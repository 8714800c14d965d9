use vstd::prelude::*;
use crate::text::owned;

verus! {

/// The last command of a user as read from the stored rows: the first row's command, or
/// `"None"` when there is no row or the row holds no command.
pub open spec fn last_command_of(rows: Seq<Option<Seq<char>>>) -> Seq<char> {
    if rows.len() > 0 && rows[0] is Some {
        rows[0]->0
    } else {
        "None"@
    }
}

/// The last command of a user, given the stored `last_command` rows for that user.
pub fn last_command_text(rows: &Vec<Option<String>>) -> (r: String)
    ensures
        r@ == last_command_of(rows.deep_view()),
        rows@.len() > 0 && rows@[0] is Some ==> r@ == rows@[0]->0@,
        rows@.len() == 0 || rows@[0] is None ==> r@ == "None"@,
{
    if rows.len() > 0 {
        match &rows[0] {
            Some(command) => {
                let r = owned(command.as_str());
                assert(rows.deep_view()[0] == rows@[0].deep_view());
                r
            },
            None => {
                assert(rows.deep_view()[0] == rows@[0].deep_view());
                owned("None")
            },
        }
    } else {
        owned("None")
    }
}

/// The last command is read from the first row alone: when that row holds a command, it
/// is the command, however many rows follow; when it holds none, the answer is `"None"`,
/// whatever the later rows hold.
pub proof fn lemma_last_command_reads_first_row(first: Option<Seq<char>>, more: Seq<Option<Seq<char>>>)
    ensures
        first matches Some(c) ==> last_command_of(seq![first] + more) == c,
        first is None ==> last_command_of(seq![first] + more) == "None"@,
        last_command_of(seq![first] + more) == last_command_of(seq![first]),
{
    assert((seq![first] + more)[0] == first);
}

} // verus!
