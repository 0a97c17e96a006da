//! Rules for race documents: which folder a race goes to, which horse won,
//! and how a horse's name becomes part of a file name.
use vstd::prelude::*;
use crate::text::{text, text_eq, push_char};
use crate::value::{Value, Json, items_view, entries_view, lemma_entries_view};

verus! {

/// The value under key `k` of a mapping (its first entry with that key).
pub open spec fn json_get(j: Json, k: Seq<char>) -> Option<Json> {
    match j {
        Json::Object(e) => entries_get(e, k),
        _ => None,
    }
}

pub open spec fn entries_get(e: Seq<(Seq<char>, Json)>, k: Seq<char>) -> Option<Json>
    decreases e.len(),
{
    if e.len() == 0 {
        None
    } else if e[0].0 == k {
        Some(e[0].1)
    } else {
        entries_get(e.drop_first(), k)
    }
}

/// The value under key `k` when `v` is a mapping that has one.
pub fn object_get<'a>(v: &'a Value, k: &str) -> (r: Option<&'a Value>)
    ensures
        match r {
            Some(x) => json_get(v@, k@) == Some(x@),
            None => json_get(v@, k@) is None,
        },
{
    match v {
        Value::Object(entries) => {
            proof {
                lemma_entries_view(entries@);
            }
            let ghost e = entries_view(entries@);
            assert(v@ == Json::Object(e));
            assert(e.subrange(0, e.len() as int) =~= e);
            let mut i: usize = 0;
            while i < entries.len()
                invariant
                    v@ == Json::Object(e),
                    e == entries_view(entries@),
                    e.len() == entries.len(),
                    forall|j: int| 0 <= j < entries.len() ==> #[trigger] e[j] == (entries@[j].0@, entries@[j].1@),
                    i <= entries.len(),
                    entries_get(e, k@) == entries_get(e.subrange(i as int, e.len() as int), k@),
                decreases entries.len() - i,
            {
                assert(e.subrange(i as int, e.len() as int).drop_first() =~= e.subrange(i + 1, e.len() as int));
                if text_eq(entries[i].0.as_str(), k) {
                    assert(e.subrange(i as int, e.len() as int)[0] == e[i as int]);
                    assert(v@ == Json::Object(e));
                    return Some(&entries[i].1);
                }
                i = i + 1;
            }
            assert(v@ == Json::Object(e));
            None
        },
        _ => None,
    }
}

/// The folder of a race, by the race type recorded in its document.
pub open spec fn folder_for(race: Json) -> Seq<char> {
    match json_get(race, "<RaceType>k__BackingField"@) {
        Some(Json::Str(t)) => if t == "RoomMatch"@ {
            "Room match"@
        } else if t == "Champions"@ {
            "Champions meeting"@
        } else if t == "Single"@ {
            "Career"@
        } else if t == "Practice"@ {
            "Practice room"@
        } else {
            "Other"@
        },
        _ => "Other"@,
    }
}

pub fn race_folder(race: &Value) -> (r: String)
    ensures
        r@ == folder_for(race@),
{
    match object_get(race, "<RaceType>k__BackingField") {
        Some(Value::Str(t)) => {
            if text_eq(t.as_str(), "RoomMatch") {
                text("Room match")
            } else if text_eq(t.as_str(), "Champions") {
                text("Champions meeting")
            } else if text_eq(t.as_str(), "Single") {
                text("Career")
            } else if text_eq(t.as_str(), "Practice") {
                text("Practice room")
            } else {
                text("Other")
            }
        },
        _ => text("Other"),
    }
}

/// Whether a horse's record says it finished first.
pub open spec fn is_winner(h: Json) -> bool {
    json_get(h, "FinishOrder"@) == Some(Json::Int(0))
}

/// The first horse of the race's horse list that finished first.
pub open spec fn first_winner(horses: Seq<Json>) -> Option<Json>
    decreases horses.len(),
{
    if horses.len() == 0 {
        None
    } else if is_winner(horses[0]) {
        Some(horses[0])
    } else {
        first_winner(horses.drop_first())
    }
}

pub open spec fn winner_of(race: Json) -> Option<Json> {
    match json_get(race, "<RaceHorse>k__BackingField"@) {
        Some(Json::Array(horses)) => first_winner(horses),
        _ => None,
    }
}

pub proof fn lemma_items_view(s: Seq<Value>)
    ensures
        items_view(s).len() == s.len(),
        forall|i: int| 0 <= i < s.len() ==> #[trigger] items_view(s)[i] == s[i]@,
    decreases s.len(),
{
    if s.len() > 0 {
        lemma_items_view(s.drop_last());
        assert forall|i: int| 0 <= i < s.len() implies #[trigger] items_view(s)[i] == s[i]@ by {
            if i < s.len() - 1 {
                assert(s.drop_last()[i] == s[i]);
            }
        }
    }
}

fn finished_first(h: &Value) -> (r: bool)
    ensures
        r == is_winner(h@),
{
    match object_get(h, "FinishOrder") {
        Some(Value::Int(n)) => *n == 0,
        Some(Value::UInt(n)) => *n == 0,
        _ => false,
    }
}

/// The record of the horse that won the race, if the document names one.
pub fn find_winner(race: &Value) -> (r: Option<&Value>)
    ensures
        match r {
            Some(x) => winner_of(race@) == Some(x@),
            None => winner_of(race@) is None,
        },
{
    match object_get(race, "<RaceHorse>k__BackingField") {
        Some(Value::Array(horses)) => {
            proof {
                lemma_items_view(horses@);
            }
            let ghost s = items_view(horses@);
            assert(json_get(race@, "<RaceHorse>k__BackingField"@) == Some(Json::Array(s)));
            assert(s.subrange(0, s.len() as int) =~= s);
            let mut i: usize = 0;
            while i < horses.len()
                invariant
                    json_get(race@, "<RaceHorse>k__BackingField"@) == Some(Json::Array(s)),
                    s == items_view(horses@),
                    s.len() == horses.len(),
                    forall|j: int| 0 <= j < horses.len() ==> #[trigger] s[j] == horses@[j]@,
                    i <= horses.len(),
                    first_winner(s) == first_winner(s.subrange(i as int, s.len() as int)),
                decreases horses.len() - i,
            {
                assert(s.subrange(i as int, s.len() as int).drop_first() =~= s.subrange(i + 1, s.len() as int));
                if finished_first(&horses[i]) {
                    assert(s.subrange(i as int, s.len() as int)[0] == s[i as int]);
                    assert(json_get(race@, "<RaceHorse>k__BackingField"@) == Some(Json::Array(s)));
                    return Some(&horses[i]);
                }
                i = i + 1;
            }
            assert(json_get(race@, "<RaceHorse>k__BackingField"@) == Some(Json::Array(s)));
            None
        },
        _ => None,
    }
}

/// Whether a character is alphabetic or numeric in Unicode's sense.
pub uninterp spec fn alphanumeric(c: char) -> bool;

/// Relies on `char::is_alphanumeric`: the answer depends on the character alone.
#[verifier::external_body]
fn is_alphanumeric(c: char) -> (r: bool)
    ensures
        r == alphanumeric(c),
{
    c.is_alphanumeric()
}

/// A character kept in a file name; any other becomes `_`.
pub open spec fn safe_char(c: char) -> char {
    if alphanumeric(c) || c == ' ' || c == '-' {
        c
    } else {
        '_'
    }
}

/// `s` without the spaces at its start and at its end.
pub open spec fn trim_spaces(s: Seq<char>) -> Seq<char>
    decreases s.len(),
{
    if s.len() > 0 && s[0] == ' ' {
        trim_spaces(s.drop_first())
    } else if s.len() > 0 && s.last() == ' ' {
        trim_spaces(s.drop_last())
    } else {
        s
    }
}

/// The name with each character that may not stand in a file name replaced by
/// `_`, and the spaces at both ends removed.
pub open spec fn safe_name(name: Seq<char>) -> Seq<char> {
    trim_spaces(name.map_values(|c: char| safe_char(c)))
}

proof fn lemma_trim_front(s: Seq<char>, a: int)
    requires
        0 <= a <= s.len(),
        forall|j: int| 0 <= j < a ==> s[j] == ' ',
    ensures
        trim_spaces(s) == trim_spaces(s.subrange(a, s.len() as int)),
    decreases a,
{
    if a > 0 {
        assert(s.drop_first() =~= s.subrange(1, s.len() as int));
        lemma_trim_front(s.drop_first(), a - 1);
        assert(s.drop_first().subrange(a - 1, s.drop_first().len() as int) =~= s.subrange(a, s.len() as int));
    } else {
        assert(s.subrange(0, s.len() as int) =~= s);
    }
}

proof fn lemma_trim_back(s: Seq<char>, b: int)
    requires
        0 <= b <= s.len(),
        s.len() > 0 ==> s[0] != ' ',
        forall|j: int| b <= j < s.len() ==> s[j] == ' ',
        b > 0 ==> s[b - 1] != ' ',
    ensures
        trim_spaces(s) == s.subrange(0, b),
    decreases s.len() - b,
{
    if b < s.len() {
        assert(s.drop_last() =~= s.subrange(0, s.len() - 1));
        lemma_trim_back(s.drop_last(), b);
        assert(s.drop_last().subrange(0, b) =~= s.subrange(0, b));
    } else {
        assert(s.subrange(0, b) =~= s);
    }
}

/// Makes a horse's name fit for a file name, as `safe_name` describes.
pub fn safe_file_name(name: &str) -> (r: String)
    ensures
        r@ == safe_name(name@),
{
    let n = name.unicode_len();
    let mut mapped: Vec<char> = Vec::new();
    let mut i: usize = 0;
    while i < n
        invariant
            n == name@.len(),
            i <= n,
            mapped@ =~= name@.subrange(0, i as int).map_values(|c: char| safe_char(c)),
        decreases n - i,
    {
        let c = name.get_char(i);
        let k = if is_alphanumeric(c) || c == ' ' || c == '-' {
            c
        } else {
            '_'
        };
        mapped.push(k);
        i = i + 1;
    }
    let ghost m = name@.map_values(|c: char| safe_char(c));
    assert(mapped@ =~= m);
    let mut a: usize = 0;
    while a < n && mapped[a] == ' '
        invariant
            mapped@ == m,
            n == m.len(),
            a <= n,
            forall|j: int| 0 <= j < a ==> m[j] == ' ',
        decreases n - a,
    {
        a = a + 1;
    }
    proof {
        lemma_trim_front(m, a as int);
    }
    let ghost t = m.subrange(a as int, n as int);
    let mut b: usize = n;
    while b > a && mapped[b - 1] == ' '
        invariant
            mapped@ == m,
            n == m.len(),
            a <= b <= n,
            forall|j: int| b <= j < n ==> m[j] == ' ',
        decreases b,
    {
        b = b - 1;
    }
    proof {
        lemma_trim_back(t, b - a);
        assert(t.subrange(0, b - a) =~= m.subrange(a as int, b as int));
    }
    let mut out = String::new();
    let mut j: usize = a;
    while j < b
        invariant
            mapped@ == m,
            a <= j <= b,
            b <= n,
            n == m.len(),
            out@ =~= m.subrange(a as int, j as int),
        decreases b - j,
    {
        push_char(&mut out, mapped[j]);
        j = j + 1;
    }
    out
}

/// Whether a veteran list is worth saving: an array with at least one entry.
pub open spec fn worth_saving(list: Json) -> bool {
    match list {
        Json::Array(items) => items.len() > 0,
        _ => false,
    }
}

pub fn is_nonempty_array(list: &Value) -> (r: bool)
    ensures
        r == worth_saving(list@),
{
    match list {
        Value::Array(items) => {
            proof {
                lemma_items_view(items@);
            }
            items.len() > 0
        },
        _ => false,
    }
}

} // verus!
