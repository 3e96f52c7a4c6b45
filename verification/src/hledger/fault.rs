//! What is wrong with a document that should be an amount.
//!
//! An amount is a record with other records in it. A record is an object with a member for
//! each of its fields, or an array with an element for each, in their order; other members are
//! passed over. What is reported is what `serde` says of the first thing that does not fit.

use vstd::prelude::*;

use crate::decimal::{decimal, decimal_text};
use crate::hledger::json::{Json, JsonView, find_member, json_view, jsons_view};
use crate::text::{cat, cat3, same};
use crate::write::{debug_text, quoted};

verus! {

/// What stands in a place of an amount.
#[derive(Debug, Clone, Copy, PartialEq, Eq, Structural)]
pub enum Part {
    Text,
    Flag,
    Mantissa,
    Places,
    Quantity,
    Style,
    Amount,
}

/// The name of a record, as it is reported.
pub open spec fn record_name(p: Part) -> Seq<char> {
    match p {
        Part::Quantity => "JsonQuantity"@,
        Part::Style => "JsonStyle"@,
        _ => "JsonAmount"@,
    }
}

/// The fields of a record, each with its name and what stands in it; none where it is no
/// record.
pub open spec fn fields(p: Part) -> Seq<(Seq<char>, Part)> {
    match p {
        Part::Quantity => seq![("decimalMantissa"@, Part::Mantissa), ("decimalPlaces"@, Part::Places)],
        Part::Style => seq![("ascommodityside"@, Part::Text), ("ascommodityspaced"@, Part::Flag)],
        Part::Amount => seq![("acommodity"@, Part::Text), ("aquantity"@, Part::Quantity), ("astyle"@, Part::Style)],
        _ => Seq::empty(),
    }
}

/// How deep records go in it.
pub open spec fn depth(p: Part) -> nat {
    match p {
        Part::Amount => 2,
        Part::Quantity | Part::Style => 1,
        _ => 0,
    }
}

/// What stands in the field of this name, where the record has one.
pub open spec fn field_named(p: Part, name: Seq<char>, k: int) -> Option<Part>
    decreases fields(p).len() - k,
{
    if k < 0 || k >= fields(p).len() {
        None
    } else if fields(p)[k].0 == name {
        Some(fields(p)[k].1)
    } else {
        field_named(p, name, k + 1)
    }
}

/// What a document is, as it is reported.
pub open spec fn unexpected(j: JsonView) -> Seq<char> {
    match j {
        JsonView::Null => "null"@,
        JsonView::Bool(b) => if b {
            "boolean `true`"@
        } else {
            "boolean `false`"@
        },
        JsonView::Number(Some(_), text) => "integer `"@ + text + "`"@,
        JsonView::Number(None, text) => "floating point `"@ + text + "`"@,
        JsonView::Text(s) => "string "@ + debug_text(s),
        JsonView::Array(_) => "sequence"@,
        JsonView::Object(_) => "map"@,
    }
}

/// The message for a document of another type than the expected one.
pub open spec fn type_message(j: JsonView, expected: Seq<char>) -> Seq<char> {
    "invalid type: "@ + unexpected(j) + ", expected "@ + expected
}

/// The message for an array of another length than the expected one.
pub open spec fn length_message(len: nat, expected: Seq<char>) -> Seq<char> {
    "invalid length "@ + decimal(len) + ", expected "@ + expected
}

/// What is wrong with a document in the place of a part, if anything is.
pub open spec fn fault(p: Part, j: JsonView) -> Option<Seq<char>>
    decreases depth(p), 1nat, 0int,
{
    match p {
        Part::Text => if j is Text {
            None
        } else {
            Some(type_message(j, "a string"@))
        },
        Part::Flag => if j is Bool {
            None
        } else {
            Some(type_message(j, "a boolean"@))
        },
        Part::Mantissa => match j {
            JsonView::Number(Some(_), _) => None,
            _ => Some(type_message(j, "i128"@)),
        },
        Part::Places => match j {
            JsonView::Number(Some(n), text) => if 0 <= n <= 255 {
                None
            } else {
                Some("invalid value: integer `"@ + text + "`, expected u8"@)
            },
            _ => Some(type_message(j, "u8"@)),
        },
        _ => match j {
            JsonView::Array(s) => elements_fault(p, s, 0),
            JsonView::Object(m) => members_fault(p, m, 0),
            _ => Some(type_message(j, "struct "@ + record_name(p))),
        },
    }
}

/// What is wrong with an array in the place of a record, from its element `i` on.
pub open spec fn elements_fault(p: Part, s: Seq<JsonView>, i: int) -> Option<Seq<char>>
    decreases depth(p), 0nat, fields(p).len() - i,
    via elements_fault_decreases
{
    if i < 0 || i >= fields(p).len() {
        if s.len() > fields(p).len() {
            Some(length_message(s.len(), "fewer elements in array"@))
        } else {
            None
        }
    } else if i >= s.len() {
        Some(
            length_message(
                i as nat,
                "struct "@ + record_name(p) + " with "@ + decimal(fields(p).len()) + " elements"@,
            ),
        )
    } else {
        match fault(fields(p)[i].1, s[i]) {
            Some(m) => Some(m),
            None => elements_fault(p, s, i + 1),
        }
    }
}

#[via_fn]
proof fn elements_fault_decreases(p: Part, s: Seq<JsonView>, i: int) {
    lemma_fields(p);
}

/// What is wrong with an object in the place of a record, from its member `i` on: the first
/// member that does not fit, and behind the last one the first field that is missing.
pub open spec fn members_fault(p: Part, m: Seq<(Seq<char>, JsonView)>, i: int) -> Option<Seq<char>>
    decreases depth(p), 0nat, m.len() - i,
    via members_fault_decreases
{
    if i < 0 || i >= m.len() {
        missing_fault(p, m, 0)
    } else {
        match field_named(p, m[i].0, 0) {
            Some(q) => match fault(q, m[i].1) {
                Some(e) => Some(e),
                None => members_fault(p, m, i + 1),
            },
            None => members_fault(p, m, i + 1),
        }
    }
}

#[via_fn]
proof fn members_fault_decreases(p: Part, m: Seq<(Seq<char>, JsonView)>, i: int) {
    if 0 <= i < m.len() {
        lemma_field_named(p, m[i].0, 0);
    }
}

/// The message for the first field, from the field `k` on, that no member is named after.
pub open spec fn missing_fault(p: Part, m: Seq<(Seq<char>, JsonView)>, k: int) -> Option<Seq<char>>
    decreases fields(p).len() - k,
{
    if k < 0 || k >= fields(p).len() {
        None
    } else if find_member(m, fields(p)[k].0) is None {
        Some("missing field `"@ + fields(p)[k].0 + "`"@)
    } else {
        missing_fault(p, m, k + 1)
    }
}

proof fn lemma_fields(p: Part)
    ensures
        forall|k: int| 0 <= k < fields(p).len() ==> depth((#[trigger] fields(p)[k]).1) < depth(p),
{
}

proof fn lemma_field_named(p: Part, name: Seq<char>, k: int)
    requires
        0 <= k,
    ensures
        field_named(p, name, k) matches Some(q) ==> depth(q) < depth(p),
    decreases fields(p).len() - k,
{
    lemma_fields(p);
    if k < fields(p).len() && fields(p)[k].0 != name {
        lemma_field_named(p, name, k + 1);
    }
}

// ---------------------------------------------------------------------------
// The same, computed
// ---------------------------------------------------------------------------

fn record_title(p: Part) -> (r: &'static str)
    ensures
        r@ == record_name(p),
{
    match p {
        Part::Quantity => "JsonQuantity",
        Part::Style => "JsonStyle",
        _ => "JsonAmount",
    }
}

pub(crate) fn field_count(p: Part) -> (r: usize)
    ensures
        r == fields(p).len(),
{
    match p {
        Part::Quantity => 2,
        Part::Style => 2,
        Part::Amount => 3,
        _ => 0,
    }
}

pub(crate) fn field_at(p: Part, k: usize) -> (r: (&'static str, Part))
    requires
        k < fields(p).len(),
    ensures
        (r.0@, r.1) == fields(p)[k as int],
{
    match p {
        Part::Quantity => if k == 0 {
            ("decimalMantissa", Part::Mantissa)
        } else {
            ("decimalPlaces", Part::Places)
        },
        Part::Style => if k == 0 {
            ("ascommodityside", Part::Text)
        } else {
            ("ascommodityspaced", Part::Flag)
        },
        _ => if k == 0 {
            ("acommodity", Part::Text)
        } else if k == 1 {
            ("aquantity", Part::Quantity)
        } else {
            ("astyle", Part::Style)
        },
    }
}

fn named_field(p: Part, name: &str) -> (r: Option<Part>)
    ensures
        r == field_named(p, name@, 0),
{
    let n: usize = field_count(p);
    let mut k: usize = 0;
    while k < n
        invariant
            n == fields(p).len(),
            k <= n,
            field_named(p, name@, 0) == field_named(p, name@, k as int),
        decreases n - k,
    {
        let (title, part) = field_at(p, k);
        if same(title, name) {
            return Some(part);
        }
        k += 1;
    }
    None
}

fn kind_of(j: &Json) -> (r: String)
    ensures
        r@ == unexpected(json_view(*j)),
{
    match j {
        Json::Null => "null".to_owned(),
        Json::Bool(b) => if *b {
            "boolean `true`".to_owned()
        } else {
            "boolean `false`".to_owned()
        },
        Json::Number(Some(_), text) => cat3("integer `", text, "`"),
        Json::Number(None, text) => cat3("floating point `", text, "`"),
        Json::Text(s) => cat("string ", &quoted(s)),
        Json::Array(_) => "sequence".to_owned(),
        Json::Object(_) => "map".to_owned(),
    }
}

/// The message for a document of another type than the expected one.
pub fn wrong_type(j: &Json, expected: &str) -> (r: String)
    ensures
        r@ == type_message(json_view(*j), expected@),
{
    let mut out: String = cat3("invalid type: ", &kind_of(j), ", expected ");
    out.append(expected);
    out
}

fn wrong_length(len: usize, expected: &str) -> (r: String)
    ensures
        r@ == length_message(len as nat, expected@),
{
    let mut out: String = cat3("invalid length ", &decimal_text(len as u128), ", expected ");
    out.append(expected);
    out
}

fn find_elements_fault(p: Part, items: &Vec<Json>) -> (r: Option<String>)
    ensures
        match r {
            Some(m) => elements_fault(p, jsons_view(items@), 0) == Some(m@),
            None => elements_fault(p, jsons_view(items@), 0) is None,
        },
    decreases depth(p), 0nat,
{
    let ghost s = jsons_view(items@);
    let n: usize = field_count(p);
    let mut i: usize = 0;
    while i < n
        invariant
            n == fields(p).len(),
            i <= n,
            s == jsons_view(items@),
            elements_fault(p, s, 0) == elements_fault(p, s, i as int),
        decreases n - i,
    {
        if i >= items.len() {
            let mut expected: String = cat3("struct ", record_title(p), " with ");
            expected.append(&decimal_text(n as u128));
            expected.append(" elements");
            return Some(wrong_length(i, &expected));
        }
        let (_, part) = field_at(p, i);
        proof {
            lemma_fields(p);
            assert(fields(p)[i as int].1 == part);
            assert(s[i as int] == json_view(items@[i as int]));
        }
        if let Some(m) = find_fault(part, &items[i]) {
            return Some(m);
        }
        i += 1;
    }
    if items.len() > n {
        return Some(wrong_length(items.len(), "fewer elements in array"));
    }
    None
}

fn find_members_fault(p: Part, j: &Json, members: &Vec<(String, Json)>) -> (r: Option<String>)
    requires
        *j == Json::Object(*members),
    ensures
        match r {
            Some(m) => members_fault(p, json_view(*j)->Object_0, 0) == Some(m@),
            None => members_fault(p, json_view(*j)->Object_0, 0) is None,
        },
    decreases depth(p), 0nat,
{
    let ghost all = json_view(*j)->Object_0;
    let mut i: usize = 0;
    while i < members.len()
        invariant
            i <= members.len(),
            *j == Json::Object(*members),
            all == json_view(*j)->Object_0,
            members_fault(p, all, 0) == members_fault(p, all, i as int),
        decreases members.len() - i,
    {
        assert(all[i as int] == (members@[i as int].0@, json_view(members@[i as int].1)));
        let part: Option<Part> = named_field(p, &members[i].0);
        if let Some(q) = part {
            proof {
                lemma_field_named(p, all[i as int].0, 0);
            }
            if let Some(m) = find_fault(q, &members[i].1) {
                return Some(m);
            }
        }
        i += 1;
    }
    let n: usize = field_count(p);
    let mut k: usize = 0;
    while k < n
        invariant
            n == fields(p).len(),
            k <= n,
            json_view(*j) is Object,
            all == json_view(*j)->Object_0,
            members_fault(p, all, 0) == missing_fault(p, all, k as int),
        decreases n - k,
    {
        let (title, _) = field_at(p, k);
        assert(fields(p)[k as int].0 == title@);
        if j.find(title).is_none() {
            return Some(cat3("missing field `", title, "`"));
        }
        k += 1;
    }
    None
}

/// What is wrong with a document in the place of a part, if anything is.
pub fn find_fault(p: Part, j: &Json) -> (r: Option<String>)
    ensures
        match r {
            Some(m) => fault(p, json_view(*j)) == Some(m@),
            None => fault(p, json_view(*j)) is None,
        },
    decreases depth(p), 1nat,
{
    match p {
        Part::Text => match j {
            Json::Text(_) => None,
            _ => Some(wrong_type(j, "a string")),
        },
        Part::Flag => match j {
            Json::Bool(_) => None,
            _ => Some(wrong_type(j, "a boolean")),
        },
        Part::Mantissa => match j {
            Json::Number(Some(_), _) => None,
            _ => Some(wrong_type(j, "i128")),
        },
        Part::Places => match j {
            Json::Number(Some(n), text) => if 0 <= *n && *n <= 255 {
                None
            } else {
                Some(cat3("invalid value: integer `", text, "`, expected u8"))
            },
            _ => Some(wrong_type(j, "u8")),
        },
        _ => match j {
            Json::Array(items) => {
                assert(json_view(*j)->Array_0 =~= jsons_view(items@));
                find_elements_fault(p, items)
            },
            Json::Object(members) => find_members_fault(p, j, members),
            _ => {
                let expected: String = cat("struct ", record_title(p));
                Some(wrong_type(j, &expected))
            },
        },
    }
}

// ---------------------------------------------------------------------------
// A record with no fault has its fields
// ---------------------------------------------------------------------------

/// The document in a field of a record: the element in its place, or the member of its name.
pub open spec fn field_of(p: Part, j: JsonView, k: int) -> Option<JsonView> {
    match j {
        JsonView::Array(s) => if s.len() == fields(p).len() && 0 <= k < s.len() {
            Some(s[k])
        } else {
            None
        },
        JsonView::Object(m) => find_member(m, fields(p)[k].0),
        _ => None,
    }
}

proof fn lemma_elements(p: Part, s: Seq<JsonView>, i: int)
    requires
        0 <= i <= fields(p).len(),
        elements_fault(p, s, i) is None,
        i <= s.len(),
    ensures
        s.len() == fields(p).len(),
        forall|k: int| i <= k < s.len() ==> fault((#[trigger] fields(p)[k]).1, s[k]) is None,
    decreases fields(p).len() - i,
{
    if i < fields(p).len() {
        lemma_elements(p, s, i + 1);
    }
}

proof fn lemma_members(p: Part, m: Seq<(Seq<char>, JsonView)>, i: int)
    requires
        0 <= i <= m.len(),
        members_fault(p, m, i) is None,
    ensures
        missing_fault(p, m, 0) is None,
        forall|k: int|
            i <= k < m.len() ==> (field_named(p, (#[trigger] m[k]).0, 0) matches Some(q) ==> fault(q, m[k].1) is None),
    decreases m.len() - i,
{
    if i < m.len() {
        lemma_members(p, m, i + 1);
    }
}

proof fn lemma_missing(p: Part, m: Seq<(Seq<char>, JsonView)>, k: int)
    requires
        0 <= k,
        missing_fault(p, m, k) is None,
    ensures
        forall|i: int| k <= i < fields(p).len() ==> find_member(m, (#[trigger] fields(p)[i]).0) is Some,
    decreases fields(p).len() - k,
{
    if k < fields(p).len() {
        lemma_missing(p, m, k + 1);
    }
}

proof fn lemma_find_member(m: Seq<(Seq<char>, JsonView)>, name: Seq<char>)
    ensures
        find_member(m, name) matches Some(v) ==> exists|k: int| 0 <= k < m.len() && #[trigger] m[k] == (name, v),
    decreases m.len(),
{
    if m.len() > 0 {
        if m[0].0 == name {
            assert(m[0] == (name, m[0].1));
        } else {
            lemma_find_member(m.skip(1), name);
            if let Some(v) = find_member(m.skip(1), name) {
                let k = choose|k: int| 0 <= k < m.skip(1).len() && #[trigger] m.skip(1)[k] == (name, v);
                assert(m[k + 1] == (name, v));
            }
        }
    }
}

/// The fields of a record have different names.
proof fn lemma_names_differ(p: Part, k: int)
    requires
        0 <= k < fields(p).len(),
    ensures
        field_named(p, fields(p)[k].0, 0) == Some(fields(p)[k].1),
{
    reveal_strlit("decimalMantissa");
    reveal_strlit("decimalPlaces");
    reveal_strlit("ascommodityside");
    reveal_strlit("ascommodityspaced");
    reveal_strlit("acommodity");
    reveal_strlit("aquantity");
    reveal_strlit("astyle");
    assert("decimalMantissa"@.len() != "decimalPlaces"@.len());
    assert("ascommodityside"@.len() != "ascommodityspaced"@.len());
    assert("acommodity"@.len() != "aquantity"@.len());
    assert("acommodity"@.len() != "astyle"@.len());
    assert("aquantity"@.len() != "astyle"@.len());
    reveal_with_fuel(field_named, 4);
}

/// A record without a fault has each of its fields, and none of them has a fault.
pub proof fn lemma_sound_record(p: Part, j: JsonView)
    requires
        fields(p).len() > 0,
        fault(p, j) is None,
    ensures
        forall|k: int|
            0 <= k < fields(p).len() ==> (#[trigger] field_of(p, j, k) matches Some(v) && fault(fields(p)[k].1, v) is None),
{
    match j {
        JsonView::Array(s) => {
            lemma_elements(p, s, 0);
            assert forall|k: int| 0 <= k < fields(p).len() implies (#[trigger] field_of(p, j, k) matches Some(v) && fault(
                fields(p)[k].1,
                v,
            ) is None) by {
                assert(fault(fields(p)[k].1, s[k]) is None);
            }
        },
        JsonView::Object(m) => {
            lemma_members(p, m, 0);
            lemma_missing(p, m, 0);
            assert forall|k: int| 0 <= k < fields(p).len() implies (#[trigger] field_of(p, j, k) matches Some(v) && fault(
                fields(p)[k].1,
                v,
            ) is None) by {
                let name = fields(p)[k].0;
                assert(find_member(m, name) is Some);
                lemma_find_member(m, name);
                let v = find_member(m, name)->0;
                let i = choose|i: int| 0 <= i < m.len() && #[trigger] m[i] == (name, v);
                lemma_names_differ(p, k);
                assert(field_named(p, m[i].0, 0) == Some(fields(p)[k].1));
            }
        },
        _ => {},
    }
}

/// A document of the wrong type is told by what it is and what was expected: `null`, a boolean or a
/// number with its value, a string in quotes, a sequence or a map. A text, a flag, a mantissa and
/// a number of places are expected as such, and anything else is a fault.
pub proof fn law_wrong_types_are_named(j: JsonView, expected: Seq<char>)
    ensures
        type_message(j, expected) == "invalid type: "@ + (match j {
            JsonView::Null => "null"@,
            JsonView::Bool(true) => "boolean `true`"@,
            JsonView::Bool(false) => "boolean `false`"@,
            JsonView::Number(Some(_), text) => "integer `"@ + text + "`"@,
            JsonView::Number(None, text) => "floating point `"@ + text + "`"@,
            JsonView::Text(s) => "string "@ + debug_text(s),
            JsonView::Array(_) => "sequence"@,
            JsonView::Object(_) => "map"@,
        }) + ", expected "@ + expected,
        fault(Part::Text, j) == if j is Text {
            None
        } else {
            Some(type_message(j, "a string"@))
        },
        fault(Part::Flag, j) == if j is Bool {
            None
        } else {
            Some(type_message(j, "a boolean"@))
        },
        fault(Part::Mantissa, j) is None <==> (j matches JsonView::Number(n, _) && n is Some),
        fault(Part::Places, j) is None <==> (j matches JsonView::Number(n, _) && n is Some && 0 <= n->0 <= 255),
        !(j is Array) && !(j is Object) ==> fault(Part::Amount, j) == Some(type_message(j, "struct JsonAmount"@))
            && fault(Part::Quantity, j) == Some(type_message(j, "struct JsonQuantity"@)) && fault(Part::Style, j) == Some(
            type_message(j, "struct JsonStyle"@),
        ),
{
    reveal_strlit("struct ");
    reveal_strlit("JsonAmount");
    reveal_strlit("JsonQuantity");
    reveal_strlit("JsonStyle");
    reveal_strlit("struct JsonAmount");
    reveal_strlit("struct JsonQuantity");
    reveal_strlit("struct JsonStyle");
    assert("struct "@ + "JsonAmount"@ =~= "struct JsonAmount"@);
    assert("struct "@ + "JsonQuantity"@ =~= "struct JsonQuantity"@);
    assert("struct "@ + "JsonStyle"@ =~= "struct JsonStyle"@);
}

/// A record has a fault wherever one of its fields has, or is missing: an amount without a fault
/// has its commodity as a text, an integer mantissa, up to 255 places, the side as a text and the
/// spacing as a flag.
pub proof fn law_sound_amounts_have_all_their_fields(j: JsonView)
    requires
        fault(Part::Amount, j) is None,
    ensures
        field_of(Part::Amount, j, 0) matches Some(commodity) && commodity is Text,
        field_of(Part::Amount, j, 1) matches Some(q) && (field_of(Part::Quantity, q, 0) matches Some(m)
            && m is Number && m->Number_0 is Some) && (field_of(Part::Quantity, q, 1) matches Some(p) && p is Number
            && p->Number_0 is Some && 0 <= p->Number_0->0 <= 255),
        field_of(Part::Amount, j, 2) matches Some(s) && (field_of(Part::Style, s, 0) matches Some(side) && side is Text)
            && (field_of(Part::Style, s, 1) matches Some(spaced) && spaced is Bool),
{
    lemma_sound_record(Part::Amount, j);
    assert(field_of(Part::Amount, j, 0) is Some);
    assert(field_of(Part::Amount, j, 1) is Some);
    assert(field_of(Part::Amount, j, 2) is Some);
    let c = field_of(Part::Amount, j, 0)->0;
    let q = field_of(Part::Amount, j, 1)->0;
    let s = field_of(Part::Amount, j, 2)->0;
    assert(fault(Part::Text, c) is None);
    assert(fault(Part::Quantity, q) is None);
    assert(fault(Part::Style, s) is None);
    lemma_sound_record(Part::Quantity, q);
    lemma_sound_record(Part::Style, s);
    assert(fault(Part::Mantissa, field_of(Part::Quantity, q, 0)->0) is None);
    assert(fault(Part::Places, field_of(Part::Quantity, q, 1)->0) is None);
    assert(fault(Part::Text, field_of(Part::Style, s, 0)->0) is None);
    assert(fault(Part::Flag, field_of(Part::Style, s, 1)->0) is None);
}

} // verus!
