use vstd::prelude::*;
use crate::enums::Field;
use crate::models::NewUserFieldPreference;
use crate::text::{
    decimal, digit_char, trim_end, trim_start,
    chars_of, digits_value, is_digit, parse_unsigned, parse_usize, split_chars, split_on,
    trim, trim_bounds, unsigned_digits,
};

verus! {

/// The field a single comma-separated piece of a reply names: the piece, trimmed, must
/// parse as a `usize` that is a position in `Field::all()`.
pub open spec fn token_field(token: Seq<char>) -> Option<Field> {
    match parse_usize(trim(token)) {
        Some(v) => if v < Field::all().len() { Some(Field::all()[v as int]) } else { None },
        None => None,
    }
}

/// The fields that the pieces name, in order; pieces that name none are skipped.
pub open spec fn select_fields(tokens: Seq<Seq<char>>) -> Seq<Field>
    decreases tokens.len(),
{
    if tokens.len() == 0 {
        Seq::empty()
    } else {
        let prev = select_fields(tokens.drop_last());
        match token_field(tokens.last()) {
            Some(f) => prev.push(f),
            None => prev,
        }
    }
}

/// The fields that a reply such as `"1, 2,4"` chooses.
pub open spec fn preference_fields(text: Seq<char>) -> Seq<Field> {
    select_fields(split_on(text, ','))
}

/// `min(digits_value(s), 4)`, the only part of the number the choice depends on.
spec fn capped(v: nat) -> nat {
    if v >= 4 { 4 } else { v }
}

/// The field that one piece of a reply names, if any.
fn field_of_token(t: &Vec<char>) -> (r: Option<Field>)
    ensures
        r == token_field(t@),
{
    let (a, b) = trim_bounds(t);
    let ghost tr = t@.subrange(a as int, b as int);
    let mut start = a;
    if start < b && t[start] == '+' {
        start = start + 1;
    }
    let ghost digits = t@.subrange(start as int, b as int);
    proof {
        assert(tr.len() > 0 ==> tr[0] == t@[a as int]);
        if a < b && t@[a as int] == '+' {
            assert(tr[0] == '+');
            assert(digits =~= tr.drop_first());
        } else {
            assert(digits =~= tr);
        }
    }
    if start == b {
        return None;
    }
    let mut acc: usize = 0;
    let mut i = start;
    while i < b
        invariant
            start <= i <= b <= t@.len(),
            digits == t@.subrange(start as int, b as int),
            tr == trim(t@),
            (tr.len() > 0 && tr[0] == '+' && digits == tr.drop_first()) || (!(tr.len() > 0
                && tr[0] == '+') && digits == tr),
            forall|j: int| start <= j < i ==> is_digit(#[trigger] t@[j]),
            acc == capped(digits_value(t@.subrange(start as int, i as int))),
        decreases b - i,
    {
        let c = t[i];
        if !('0' <= c && c <= '9') {
            proof {
                assert(digits[i - start] == c);
                assert(!is_digit(digits[i - start]));
                assert(!is_digit(unsigned_digits(tr)[i - start]));
                assert(parse_unsigned(tr) is None);
            }
            return None;
        }
        let d = (c as u32 - 48) as usize;
        let ghost pre = t@.subrange(start as int, i as int);
        let ghost post = t@.subrange(start as int, i + 1);
        assert(post.drop_last() =~= pre);
        assert(post.last() == c);
        assert(digits_value(post) == digits_value(pre) * 10 + d);
        if acc >= 4 {
            acc = 4;
        } else {
            let v = acc * 10 + d;
            acc = if v >= 4 { 4 } else { v };
        }
        i = i + 1;
    }
    proof {
        assert(t@.subrange(start as int, b as int) =~= digits);
        assert forall|j: int| 0 <= j < digits.len() implies is_digit(#[trigger] digits[j]) by {
            assert(digits[j] == t@[j + start]);
        }
        assert(parse_unsigned(tr) == Some(digits_value(digits)));
    }
    if acc < 4 {
        let values = Field::values();
        Some(values[acc])
    } else {
        None
    }
}

/// The fields that a reply to the preferences prompt chooses: the reply is split at
/// commas, each piece is trimmed and read as a position in `Field::values()`, and pieces
/// that are no such position are skipped.
pub fn parse_preference_fields(response_text: &str) -> (r: Vec<Field>)
    ensures
        r@ == preference_fields(response_text@),
{
    let chars = chars_of(response_text);
    let tokens = split_chars(&chars, ',');
    let n = tokens.len();
    let mut r: Vec<Field> = Vec::new();
    let mut k: usize = 0;
    while k < n
        invariant
            n == tokens@.len(),
            tokens.deep_view() == split_on(response_text@, ','),
            k <= n,
            r@ == select_fields(tokens.deep_view().take(k as int)),
        decreases n - k,
    {
        let ghost pre = tokens.deep_view().take(k as int);
        let ghost post = tokens.deep_view().take(k + 1);
        assert(post.drop_last() =~= pre);
        assert(tokens[k as int].deep_view() =~= tokens[k as int]@);
        assert(post.last() == tokens[k as int]@);
        match field_of_token(&tokens[k]) {
            Some(f) => r.push(f),
            None => {},
        }
        k = k + 1;
    }
    assert(tokens.deep_view().take(n as int) =~= tokens.deep_view());
    r
}

/// The stored names of the fields that a reply to the preferences prompt chooses.
pub fn preference_field_names(response_text: &str) -> (r: Vec<String>)
    ensures
        r.deep_view() == preference_fields(response_text@).map_values(|f: Field| f.name()),
{
    let fields = parse_preference_fields(response_text);
    let n = fields.len();
    let mut r: Vec<String> = Vec::new();
    let mut k: usize = 0;
    while k < n
        invariant
            n == fields@.len(),
            k <= n,
            r@.len() == k,
            forall|j: int| 0 <= j < k ==> (#[trigger] r@[j])@ == fields@[j].name(),
        decreases n - k,
    {
        let name = fields[k].to_str();
        r.push(name);
        k = k + 1;
    }
    let ghost want = preference_fields(response_text@).map_values(|f: Field| f.name());
    assert forall|j: int| 0 <= j < n implies #[trigger] r.deep_view()[j] == want[j] by {
        assert(r.deep_view()[j] == r@[j]@);
    }
    assert(r.deep_view() =~= want);
    r
}

/// The rows that replace a user's stored choice, given the ids of the chosen fields:
/// nothing is replaced when no id was found, else one row per id, in order.
pub fn preference_rows_to_store(user_id: i64, pref_ids: &Vec<i32>) -> (r: Option<Vec<NewUserFieldPreference>>)
    ensures
        pref_ids@.len() == 0 <==> r is None,
        r matches Some(rows) ==> rows@ == pref_ids@.map_values(
            |id: i32| NewUserFieldPreference { user_id, pref_id: id },
        ),
{
    let n = pref_ids.len();
    if n == 0 {
        return None;
    }
    let mut rows: Vec<NewUserFieldPreference> = Vec::new();
    let mut k: usize = 0;
    while k < n
        invariant
            n == pref_ids@.len(),
            k <= n,
            rows@ == pref_ids@.take(k as int).map_values(
                |id: i32| NewUserFieldPreference { user_id, pref_id: id },
            ),
        decreases n - k,
    {
        rows.push(NewUserFieldPreference::new(user_id, pref_ids[k]));
        assert(rows@ =~= pref_ids@.take(k + 1).map_values(
            |id: i32| NewUserFieldPreference { user_id, pref_id: id },
        ));
        k = k + 1;
    }
    assert(pref_ids@.take(n as int) =~= pref_ids@);
    Some(rows)
}

/// The ids of a user's stored choice of fields after storing the ids `found_ids` that
/// the chosen names were found under, over the choice `before`: nothing changes when no
/// id was found, else the choice becomes exactly the found ids.
pub open spec fn stored_choice(before: Set<i32>, found_ids: Seq<i32>) -> Set<i32> {
    if found_ids.len() == 0 {
        before
    } else {
        found_ids.to_set()
    }
}

/// The rows that `preference_rows_to_store` gives hold exactly the stored choice.
pub proof fn lemma_rows_hold_stored_choice(
    user_id: i64,
    before: Set<i32>,
    found_ids: Seq<i32>,
    rows: Seq<NewUserFieldPreference>,
)
    requires
        found_ids.len() > 0,
        rows == found_ids.map_values(|id: i32| NewUserFieldPreference { user_id, pref_id: id }),
    ensures
        rows.map_values(|row: NewUserFieldPreference| row.pref_id).to_set() == stored_choice(
            before,
            found_ids,
        ),
        forall|i: int| 0 <= i < rows.len() ==> (#[trigger] rows[i]).user_id == user_id,
{
    assert(rows.map_values(|row: NewUserFieldPreference| row.pref_id) =~= found_ids);
}

/// Storing depends only on the set of found ids, and storing the same ids again right after
/// changes nothing.
pub proof fn lemma_stored_choice_set_only_and_idempotent(
    before: Set<i32>,
    a: Seq<i32>,
    b: Seq<i32>,
)
    requires
        a.to_set() == b.to_set(),
    ensures
        stored_choice(before, a) == stored_choice(before, b),
        stored_choice(stored_choice(before, a), a) == stored_choice(before, a),
{
    if a.len() > 0 {
        assert(a.to_set().contains(a[0]));
        assert(b.to_set().contains(a[0]));
        assert(b.len() > 0);
    }
    if b.len() > 0 {
        assert(b.to_set().contains(b[0]));
        assert(a.to_set().contains(b[0]));
        assert(a.len() > 0);
    }
}

/// Replies that choose the same set of fields ask for the same set of field names.
pub proof fn lemma_same_fields_same_names(a: Seq<char>, b: Seq<char>)
    requires
        preference_fields(a).to_set() == preference_fields(b).to_set(),
    ensures
        preference_fields(a).map_values(|f: Field| f.name()).to_set() == preference_fields(
            b,
        ).map_values(|f: Field| f.name()).to_set(),
{
    let fa = preference_fields(a);
    let fb = preference_fields(b);
    let na = fa.map_values(|f: Field| f.name());
    let nb = fb.map_values(|f: Field| f.name());
    assert forall|x: Seq<char>| na.to_set().contains(x) implies nb.to_set().contains(x) by {
        let i = choose|i: int| 0 <= i < na.len() && na[i] == x;
        assert(fa.to_set().contains(fa[i]));
        assert(fb.to_set().contains(fa[i]));
        let j = choose|j: int| 0 <= j < fb.len() && fb[j] == fa[i];
        assert(nb[j] == x);
    }
    assert forall|x: Seq<char>| nb.to_set().contains(x) implies na.to_set().contains(x) by {
        let i = choose|i: int| 0 <= i < nb.len() && nb[i] == x;
        assert(fb.to_set().contains(fb[i]));
        assert(fa.to_set().contains(fb[i]));
        let j = choose|j: int| 0 <= j < fa.len() && fa[j] == fb[i];
        assert(na[j] == x);
    }
    assert(na.to_set() =~= nb.to_set());
}

proof fn lemma_split_nonempty(s: Seq<char>, sep: char)
    ensures
        split_on(s, sep).len() >= 1,
    decreases s.len(),
{
    if s.len() > 0 {
        lemma_split_nonempty(s.drop_last(), sep);
    }
}

/// Splitting `a`, a comma and `b` gives the pieces of `a` followed by those of `b`.
pub proof fn lemma_split_at_comma(a: Seq<char>, b: Seq<char>)
    ensures
        split_on(a.push(',') + b, ',') == split_on(a, ',') + split_on(b, ','),
    decreases b.len(),
{
    let s = a.push(',') + b;
    if b.len() == 0 {
        assert(s =~= a.push(','));
        assert(s.drop_last() =~= a);
        assert(split_on(s, ',') =~= split_on(a, ',') + split_on(b, ','));
    } else {
        lemma_split_at_comma(a, b.drop_last());
        lemma_split_nonempty(b.drop_last(), ',');
        assert(s.drop_last() =~= a.push(',') + b.drop_last());
        assert(s.last() == b.last());
        let x = split_on(a, ',');
        let y = split_on(b.drop_last(), ',');
        if b.last() == ',' {
            assert(split_on(s, ',') =~= x + y.push(Seq::empty()));
        } else {
            assert((x + y).last() == y.last());
            assert(split_on(s, ',') =~= x + y.update(y.len() - 1, y.last().push(b.last())));
        }
    }
}

/// Choosing from two runs of pieces chooses from the first, then from the second.
pub proof fn lemma_select_fields_append(x: Seq<Seq<char>>, y: Seq<Seq<char>>)
    ensures
        select_fields(x + y) == select_fields(x) + select_fields(y),
    decreases y.len(),
{
    if y.len() == 0 {
        assert(x + y =~= x);
        assert(select_fields(x) + select_fields(y) =~= select_fields(x));
    } else {
        lemma_select_fields_append(x, y.drop_last());
        assert((x + y).drop_last() =~= x + y.drop_last());
        assert((x + y).last() == y.last());
        match token_field(y.last()) {
            Some(f) => {
                assert(select_fields(x + y) =~= select_fields(x) + select_fields(y));
            },
            None => {},
        }
    }
}

/// A reply made of two parts joined by a comma chooses every field the first part
/// chooses, then every field the second part chooses: nothing is dropped, whatever the
/// number of fields chosen.
pub proof fn lemma_reply_parts_choose_in_order(a: Seq<char>, b: Seq<char>)
    ensures
        preference_fields(a.push(',') + b) == preference_fields(a) + preference_fields(b),
{
    lemma_split_at_comma(a, b);
    lemma_select_fields_append(split_on(a, ','), split_on(b, ','));
}

/// A reply that is just the number a field has in `Field::all()` chooses that field alone.
pub proof fn lemma_field_number_selects_field(f: Field)
    ensures
        preference_fields(decimal(f.position())) == seq![f],
{
    let p = f.position();
    let c = digit_char(p);
    let s = decimal(p);
    assert(s == seq![c]);
    assert(s.drop_last() =~= Seq::<char>::empty());
    assert(split_on(s.drop_last(), ',') == seq![Seq::<char>::empty()]);
    assert(split_on(s, ',') =~= seq![seq![c]]);
    assert(seq![c].drop_first() =~= Seq::<char>::empty());
    assert(seq![c].drop_last() =~= Seq::<char>::empty());
    assert(trim_start(seq![c]) == seq![c]);
    assert(trim_end(seq![c]) == seq![c]);
    assert(unsigned_digits(seq![c]) == seq![c]);
    assert((c as u32) == 48 + p);
    assert(seq![c].last() == c);
    assert(digits_value(seq![c].drop_last()) == 0);
    assert(digits_value(seq![c]) == p);
    assert(parse_unsigned(seq![c]) == Some(p));
    assert(token_field(seq![c]) == Some(f));
    let tokens = seq![seq![c]];
    assert(tokens.drop_last() =~= Seq::<Seq<char>>::empty());
    assert(tokens.last() == seq![c]);
    assert(select_fields(tokens.drop_last()) == Seq::<Field>::empty());
    assert(select_fields(tokens) =~= seq![f]);
}

} // verus!
