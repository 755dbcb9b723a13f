//! What holds of every text that is put together, and of every JSON value.
use vstd::prelude::*;

use crate::json::{
    lemma_array_model, lemma_members_absent, lemma_members_last, lemma_object_model, member_of,
    members, Json, JsonModel,
};
use crate::text::{blank, decimal, digit, joined, line_below, white_space};

verus! {

/// Joining nothing gives the empty text, joining one piece gives the piece, and joining two lists
/// one behind the other puts a single separator between what either gives alone.
pub proof fn law_joining_puts_separators_between(
    first: Seq<Seq<char>>,
    second: Seq<Seq<char>>,
    piece: Seq<char>,
    separator: Seq<char>,
)
    ensures
        joined(Seq::empty(), separator) == Seq::<char>::empty(),
        joined(seq![piece], separator) == piece,
        first.len() > 0 && second.len() > 0 ==> joined(first + second, separator) == joined(
            first,
            separator,
        ) + separator + joined(second, separator),
    decreases second.len(),
{
    if first.len() > 0 && second.len() > 0 {
        let both = first + second;
        assert(both.last() == second.last());
        assert(both.drop_last() =~= first + second.drop_last());
        if second.len() == 1 {
            assert(both.drop_last() =~= first);
            assert(second.last() == second[0]);
        } else {
            law_joining_puts_separators_between(first, second.drop_last(), piece, separator);
            assert(joined(both, separator) =~= joined(first, separator) + separator + joined(
                second,
                separator,
            ));
        }
    }
}

/// A line below an empty text is the first line; below any other text it follows a line break.
pub proof fn law_lines_are_broken(above: Seq<char>, text: Seq<char>)
    ensures
        line_below(Seq::empty(), text) == text,
        above.len() > 0 ==> line_below(above, text) == above + seq!['\n'] + text,
{
    reveal_strlit("\n");
    assert("\n"@ =~= seq!['\n']);
}

/// The number that some decimal digits denote.
pub open spec fn number_of(digits: Seq<char>) -> int
    decreases digits.len(),
{
    if digits.len() == 0 {
        0
    } else {
        10 * number_of(digits.drop_last()) + (digits.last() as int - '0' as int)
    }
}

/// A number in decimal reads back as that number. It consists of digits, and the first of them is
/// no zero unless the number is zero.
pub proof fn law_decimal_reads_back(n: nat)
    ensures
        number_of(decimal(n)) == n,
        decimal(n).len() > 0,
        forall|i: int| 0 <= i < decimal(n).len() ==> '0' <= #[trigger] decimal(n)[i] <= '9',
        n > 0 ==> decimal(n)[0] != '0',
        n == 0 ==> decimal(n) == seq!['0'],
    decreases n,
{
    if n < 10 {
        assert(decimal(n).drop_last() =~= Seq::empty());
        assert(number_of(Seq::empty()) == 0);
    } else {
        law_decimal_reads_back(n / 10);
        assert(decimal(n).drop_last() =~= decimal(n / 10));
        assert(decimal(n).last() == digit(n % 10));
    }
}

/// A text is blank where each of its characters is white space, wherever it stands; white space is
/// the space, the tabs and line breaks, and the other spaces of Unicode.
pub proof fn law_blank_is_white_space(first: Seq<char>, second: Seq<char>, c: char)
    ensures
        blank(Seq::empty()),
        blank(first + second) <==> blank(first) && blank(second),
        blank(seq![c]) <==> {
            ||| c == ' ' || c == '\t' || c == '\n' || c == '\r'
            ||| c == '\u{b}' || c == '\u{c}' || c == '\u{85}' || c == '\u{a0}'
            ||| c == '\u{1680}' || '\u{2000}' <= c <= '\u{200a}'
            ||| c == '\u{2028}' || c == '\u{2029}' || c == '\u{202f}'
            ||| c == '\u{205f}' || c == '\u{3000}'
        },
{
    let both = first + second;
    if blank(both) {
        assert forall|i: int| 0 <= i < first.len() implies white_space(
            #[trigger] first[i],
        ) by {
            assert(both[i] == first[i]);
        }
        assert forall|i: int| 0 <= i < second.len() implies white_space(
            #[trigger] second[i],
        ) by {
            assert(both[first.len() + i] == second[i]);
        }
    }
    assert(blank(seq![c]) <==> white_space(c)) by {
        assert(seq![c][0] == c);
    }
}

/// The last entry with a key decides its member: an entry sets the member under its key, whatever
/// stood there, and no other.
pub proof fn law_last_entry_counts(
    entries: Seq<(Seq<char>, JsonModel)>,
    key: Seq<char>,
    value: JsonModel,
    other: Seq<char>,
)
    ensures
        member_of(JsonModel::Object(members(entries.push((key, value)))), key) == Some(value),
        other != key ==> member_of(JsonModel::Object(members(entries.push((key, value)))), other)
            == member_of(JsonModel::Object(members(entries)), other),
        member_of(JsonModel::Object(members(Seq::empty())), key) is None,
{
    assert(entries.push((key, value)).drop_last() =~= entries);
}

/// Only objects have members: those that their map holds.
pub proof fn law_only_objects_have_members(
    value: JsonModel,
    object: Map<Seq<char>, JsonModel>,
    key: Seq<char>,
)
    ensures
        !(value is Object) ==> member_of(value, key) is None,
        object.contains_key(key) ==> member_of(JsonModel::Object(object), key) == Some(object[key]),
        !object.contains_key(key) ==> member_of(JsonModel::Object(object), key) is None,
{
}

/// A JSON value means what it holds: scalars themselves, an array the items in order, and an
/// object the members that its entries set.
pub proof fn law_json_means_what_it_holds(json: Json)
    ensures
        json == Json::Null ==> json.deep_view() == JsonModel::Null,
        json matches Json::Bool(b) ==> json.deep_view() == JsonModel::Bool(b),
        json matches Json::Number(n) ==> json.deep_view() == JsonModel::Number(n),
        json matches Json::String(s) ==> json.deep_view() == JsonModel::String(s@),
        json matches Json::Array(items) ==> {
            &&& json.deep_view() is Array
            &&& json.deep_view()->Array_0.len() == items@.len()
            &&& forall|i: int|
                0 <= i < items@.len() ==> #[trigger] json.deep_view()->Array_0[i]
                    == items@[i].deep_view()
        },
        json matches Json::Object(entries) ==> {
            &&& json.deep_view() is Object
            &&& forall|i: int|
                0 <= i < entries@.len() && (forall|j: int|
                    i < j < entries@.len() ==> (#[trigger] entries@[j]).0@ != entries@[i].0@)
                    ==> member_of(json.deep_view(), (#[trigger] entries@[i]).0@) == Some(
                    entries@[i].1.deep_view(),
                )
            &&& forall|key: Seq<char>|
                (forall|j: int| 0 <= j < entries@.len() ==> (#[trigger] entries@[j]).0@ != key)
                    ==> #[trigger] member_of(json.deep_view(), key) is None
        },
{
    match json {
        Json::Array(items) => {
            lemma_array_model(items);
        },
        Json::Object(entries) => {
            lemma_object_model(entries);
            let listed = entries.deep_view();
            assert forall|i: int|
                0 <= i < entries@.len() && (forall|j: int|
                    i < j < entries@.len() ==> (#[trigger] entries@[j]).0@
                        != entries@[i].0@) implies member_of(
                json.deep_view(),
                (#[trigger] entries@[i]).0@,
            ) == Some(entries@[i].1.deep_view()) by {
                assert forall|j: int| i < j < listed.len() implies (#[trigger] listed[j]).0
                    != listed[i].0 by {
                    assert(entries@[j].0@ != entries@[i].0@);
                }
                lemma_members_last(listed, i);
            }
            assert forall|key: Seq<char>|
                (forall|j: int|
                    0 <= j < entries@.len() ==> (#[trigger] entries@[j]).0@
                        != key) implies #[trigger] member_of(json.deep_view(), key) is None by {
                assert forall|j: int| 0 <= j < listed.len() implies (#[trigger] listed[j]).0
                    != key by {
                    assert(entries@[j].0@ != key);
                }
                lemma_members_absent(listed, key);
            }
        },
        _ => {},
    }
}

} // verus!
