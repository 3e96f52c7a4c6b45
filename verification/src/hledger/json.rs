//! hledger's reports in JSON.
//!
//! Only what is used is read, and everything else is passed over: an hledger that adds a
//! field or an element stays readable. A [`Json`] is a document as `serde_json` reads it;
//! the reports are read from that.

use vstd::prelude::*;

use crate::date::Date;
use crate::hledger::{
    AccountBalance, AccountBalanceView, BalanceReport, BalanceReportView, BudgetReport,
    BudgetReportView, BudgetRow, BudgetRowView, CompositeReport, CompositeReportView, HledgerError,
    Posting, PostingView, ReportRow, ReportRowView, Status, Subreport, SubreportView, Transaction,
    TransactionView, balances_view, budget_rows_view, postings_view, report_rows_view,
    subreports_view, tags_view,
};
use crate::hledger::fault::{
    Part, fault, field_at, field_count, field_named, field_of, fields, find_fault,
    lemma_sound_record, members_fault, missing_fault, type_message, wrong_type,
};
use crate::hledger::amount::{Amount, AmountView, Quantity, amounts_view};
use crate::text::{same, texts};

verus! {

// ---------------------------------------------------------------------------
// Documents
// ---------------------------------------------------------------------------

/// A JSON document.
#[derive(Debug)]
pub enum Json {
    Null,
    Bool(bool),
    /// A number: its value where it is an integer, and its text.
    Number(Option<i128>, String),
    Text(String),
    Array(Vec<Json>),
    /// The members, each with its name.
    Object(Vec<(String, Json)>),
}

/// What a [`Json`] holds.
pub enum JsonView {
    Null,
    Bool(bool),
    Number(Option<i128>, Seq<char>),
    Text(Seq<char>),
    Array(Seq<JsonView>),
    Object(Seq<(Seq<char>, JsonView)>),
}

/// What a [`Json`] holds.
pub open spec fn json_view(j: Json) -> JsonView
    decreases j,
{
    match j {
        Json::Null => JsonView::Null,
        Json::Bool(b) => JsonView::Bool(b),
        Json::Number(n, text) => JsonView::Number(n, text@),
        Json::Text(s) => JsonView::Text(s@),
        Json::Array(v) => JsonView::Array(
            Seq::new(
                v@.len(),
                |i: int|
                    if 0 <= i < v@.len() {
                        json_view(v@[i])
                    } else {
                        JsonView::Null
                    },
            ),
        ),
        Json::Object(v) => JsonView::Object(
            Seq::new(
                v@.len(),
                |i: int|
                    if 0 <= i < v@.len() {
                        (v@[i].0@, json_view(v@[i].1))
                    } else {
                        (Seq::empty(), JsonView::Null)
                    },
            ),
        ),
    }
}

/// What a list of documents holds.
pub open spec fn jsons_view(v: Seq<Json>) -> Seq<JsonView> {
    Seq::new(v.len(), |i: int| json_view(v[i]))
}

/// The value of the first member of that name, where there is one.
pub open spec fn find_member(members: Seq<(Seq<char>, JsonView)>, name: Seq<char>) -> Option<JsonView>
    decreases members.len(),
{
    if members.len() == 0 {
        None
    } else if members[0].0 == name {
        Some(members[0].1)
    } else {
        find_member(members.skip(1), name)
    }
}

/// The value of a member of an object; null where it has none or is no object.
pub open spec fn member(j: JsonView, name: Seq<char>) -> JsonView {
    match j {
        JsonView::Object(members) => match find_member(members, name) {
            Some(v) => v,
            None => JsonView::Null,
        },
        _ => JsonView::Null,
    }
}

impl Json {
    /// The elements of an array.
    fn elements(&self) -> (r: Option<&Vec<Json>>)
        ensures
            match r {
                Some(v) => json_view(*self) == JsonView::Array(jsons_view(v@)) && *self == Json::Array(*v),
                None => !(json_view(*self) is Array),
            },
    {
        match self {
            Json::Array(v) => {
                proof {
                    let s = json_view(*self)->Array_0;
                    assert(s =~= jsons_view(v@));
                }
                Some(v)
            },
            _ => None,
        }
    }

    /// The text.
    fn text(&self) -> (r: Option<&String>)
        ensures
            match r {
                Some(s) => json_view(*self) == JsonView::Text(s@),
                None => !(json_view(*self) is Text),
            },
    {
        match self {
            Json::Text(s) => Some(s),
            _ => None,
        }
    }

    /// The value of a member.
    pub(crate) fn find(&self, name: &str) -> (r: Option<&Json>)
        ensures
            match r {
                Some(j) => json_view(*self) is Object && find_member(json_view(*self)->Object_0, name@) == Some(
                    json_view(*j),
                ),
                None => json_view(*self) is Object ==> find_member(json_view(*self)->Object_0, name@) is None,
            },
    {
        match self {
            Json::Object(v) => {
                let ghost all = json_view(*self)->Object_0;
                let mut i: usize = 0;
                assert(all.skip(0) =~= all);
                while i < v.len()
                    invariant
                        i <= v.len(),
                        *self == Json::Object(*v),
                        all == json_view(*self)->Object_0,
                        find_member(all, name@) == find_member(all.skip(i as int), name@),
                    decreases v.len() - i,
                {
                    assert(all.skip(i as int)[0] == (v@[i as int].0@, json_view(v@[i as int].1)));
                    if same(&v[i].0, name) {
                        return Some(&v[i].1);
                    }
                    proof {
                        assert(all.skip(i as int).skip(1) =~= all.skip(i + 1));
                    }
                    i += 1;
                }
                None
            },
            _ => None,
        }
    }
}

// ---------------------------------------------------------------------------
// From text
// ---------------------------------------------------------------------------

/// `serde_json::Value`: a document, which [`outer_layer`] takes apart.
#[verifier::external_type_specification]
#[verifier::external_body]
pub struct ExValue(serde_json::Value);

/// `serde_json::Error`: why a text is no document.
#[verifier::external_type_specification]
#[verifier::external_body]
pub struct ExError(serde_json::Error);

/// What `serde_json::from_str` reads from a text: the document, or the message for a text that
/// is none.
pub uninterp spec fn json_text(text: Seq<char>) -> Result<JsonView, Seq<char>>;

/// What a `serde_json::Value` holds.
pub uninterp spec fn value_view(v: serde_json::Value) -> JsonView;

/// The message of a `serde_json::Error`: what is wrong, and at which line and column.
pub uninterp spec fn message_view(e: serde_json::Error) -> Seq<char>;

/// A document of which only the outermost layer is taken apart.
enum Layer<'a> {
    Null,
    Bool(bool),
    Number(Option<i128>, String),
    Text(&'a String),
    Array(&'a Vec<serde_json::Value>),
    Object(Vec<(&'a String, &'a serde_json::Value)>),
}

spec fn layer_view(l: Layer) -> JsonView {
    match l {
        Layer::Null => JsonView::Null,
        Layer::Bool(b) => JsonView::Bool(b),
        Layer::Number(n, text) => JsonView::Number(n, text@),
        Layer::Text(s) => JsonView::Text(s@),
        Layer::Array(v) => JsonView::Array(Seq::new(v@.len(), |i: int| value_view(v@[i]))),
        Layer::Object(v) => JsonView::Object(Seq::new(v@.len(), |i: int| (v@[i].0@, value_view(*v@[i].1)))),
    }
}

/// `serde_json::from_str`, into a `serde_json::Value`: succeeds exactly on the texts that
/// [`json_text`] has a document for, and gives that document, or else an error with the message
/// that it has. Both depend on the text alone.
#[verifier::external_body]
fn value_from_str(text: &str) -> (r: Result<serde_json::Value, serde_json::Error>)
    ensures
        match r {
            Ok(v) => json_text(text@) == Ok::<JsonView, Seq<char>>(value_view(v)),
            Err(e) => json_text(text@) == Err::<JsonView, Seq<char>>(message_view(e)),
        },
{
    serde_json::from_str::<serde_json::Value>(text)
}

/// The variants of `serde_json::Value`, told apart: [`value_view`] of a value is what its
/// variant and its fields hold. A number counts as an integer where
/// `serde_json::Number::as_i128` says so; its text is what its `to_string` writes.
#[verifier::external_body]
fn outer_layer(v: &serde_json::Value) -> (r: Layer<'_>)
    ensures
        layer_view(r) == value_view(*v),
{
    match v {
        serde_json::Value::Null => Layer::Null,
        serde_json::Value::Bool(b) => Layer::Bool(*b),
        serde_json::Value::Number(n) => Layer::Number(n.as_i128(), n.to_string()),
        serde_json::Value::String(s) => Layer::Text(s),
        serde_json::Value::Array(a) => Layer::Array(a),
        serde_json::Value::Object(m) => Layer::Object(m.iter().collect()),
    }
}

/// `serde_json::Error`'s `to_string`: the error's message, [`message_view`].
#[verifier::external_body]
fn error_message(e: &serde_json::Error) -> (r: String)
    ensures
        r@ == message_view(*e),
{
    e.to_string()
}

/// The document that a `serde_json::Value` holds.
fn json_from_value(v: &serde_json::Value) -> (r: Json)
    ensures
        json_view(r) == value_view(*v),
    decreases value_view(*v),
{
    match outer_layer(v) {
        Layer::Null => Json::Null,
        Layer::Bool(b) => Json::Bool(b),
        Layer::Number(n, text) => Json::Number(n, text),
        Layer::Text(s) => Json::Text(s.clone()),
        Layer::Array(a) => {
            let ghost all = value_view(*v)->Array_0;
            let mut out: Vec<Json> = Vec::new();
            let mut i: usize = 0;
            while i < a.len()
                invariant
                    i <= a.len(),
                    out.len() == i,
                    value_view(*v) == JsonView::Array(all),
                    all.len() == a.len(),
                    forall|j: int| 0 <= j < a.len() ==> #[trigger] all[j] == value_view(a@[j]),
                    forall|j: int| 0 <= j < i ==> json_view(#[trigger] out@[j]) == all[j],
                decreases a.len() - i,
            {
                assert(all[i as int] == value_view(a@[i as int]));
                assert(decreases_to!(value_view(*v) => value_view(*v)->Array_0));
                assert(decreases_to!(value_view(*v)->Array_0 => value_view(*v)->Array_0[i as int]));
                out.push(json_from_value(&a[i]));
                i += 1;
            }
            let r: Json = Json::Array(out);
            assert(json_view(r)->Array_0 =~= all);
            r
        },
        Layer::Object(m) => {
            let ghost all = value_view(*v)->Object_0;
            let mut out: Vec<(String, Json)> = Vec::new();
            let mut i: usize = 0;
            while i < m.len()
                invariant
                    i <= m.len(),
                    out.len() == i,
                    value_view(*v) == JsonView::Object(all),
                    all.len() == m.len(),
                    forall|j: int| 0 <= j < m.len() ==> #[trigger] all[j] == (m@[j].0@, value_view(*m@[j].1)),
                    forall|j: int|
                        0 <= j < i ==> (#[trigger] out@[j]).0@ == all[j].0 && json_view(out@[j].1) == all[j].1,
                decreases m.len() - i,
            {
                assert(all[i as int] == (m@[i as int].0@, value_view(*m@[i as int].1)));
                assert(decreases_to!(value_view(*v) => value_view(*v)->Object_0));
                assert(decreases_to!(value_view(*v)->Object_0 => value_view(*v)->Object_0[i as int]));
                assert(decreases_to!(value_view(*v)->Object_0[i as int] => value_view(*v)->Object_0[i as int].1));
                let value: Json = json_from_value(m[i].1);
                out.push((m[i].0.clone(), value));
                i += 1;
            }
            let r: Json = Json::Object(out);
            assert(json_view(r)->Object_0 =~= all);
            r
        },
    }
}

/// Why a report could not be read.
#[derive(Debug, PartialEq, Eq)]
pub enum JsonError {
    /// The text is no JSON document; the message of the parser.
    Syntax(String),
    /// The document has not the form of the report; what is wrong.
    Shape(String),
}

impl JsonError {
    /// The message.
    pub fn to_string(&self) -> (r: String)
        ensures
            r@ == match *self {
                JsonError::Syntax(m) => m@,
                JsonError::Shape(m) => m@,
            },
    {
        match self {
            JsonError::Syntax(m) => m.clone(),
            JsonError::Shape(m) => m.clone(),
        }
    }
}

/// The error of a report that could not be read, as one of hledger's.
pub fn parse_failure(e: JsonError) -> (r: HledgerError)
    ensures
        r matches HledgerError::Parse(reason) && reason@ == match e {
            JsonError::Syntax(m) => m@,
            JsonError::Shape(m) => m@,
        },
{
    match e {
        JsonError::Syntax(m) => HledgerError::Parse(m),
        JsonError::Shape(m) => HledgerError::Parse(m),
    }
}

/// Reads a JSON document.
pub fn parse_json(text: &str) -> (r: Result<Json, JsonError>)
    ensures
        match json_text(text@) {
            Ok(j) => r matches Ok(doc) && json_view(doc) == j,
            Err(m) => r matches Err(JsonError::Syntax(message)) && message@ == m,
        },
{
    match value_from_str(text) {
        Ok(v) => Ok(json_from_value(&v)),
        Err(e) => Err(JsonError::Syntax(error_message(&e))),
    }
}

/// An error about the form of a document.
fn shape<T>(message: &str) -> (r: Result<T, JsonError>)
    ensures
        r matches Err(JsonError::Shape(m)) && m@ == message@,
{
    Err(JsonError::Shape(message.to_owned()))
}

/// Is this how the outcome `expected` is reported?
pub open spec fn reported<T: View>(r: Result<T, JsonError>, expected: Result<T::V, Seq<char>>) -> bool {
    match expected {
        Ok(v) => r matches Ok(found) && found@ == v,
        Err(m) => r matches Err(JsonError::Shape(found)) && found@ == m,
    }
}

// ---------------------------------------------------------------------------
// All or the first error
// ---------------------------------------------------------------------------

/// All the values, or the first error.
pub open spec fn collect<T>(s: Seq<Result<T, Seq<char>>>) -> Result<Seq<T>, Seq<char>>
    decreases s.len(),
{
    if s.len() == 0 {
        Ok(Seq::empty())
    } else {
        match (collect(s.drop_last()), s.last()) {
            (Err(m), _) => Err(m),
            (Ok(_), Err(m)) => Err(m),
            (Ok(init), Ok(v)) => Ok(init.push(v)),
        }
    }
}

proof fn lemma_collect_fails<T>(s: Seq<Result<T, Seq<char>>>, i: int)
    requires
        0 <= i <= s.len(),
        collect(s.take(i)) is Err,
    ensures
        collect(s) == collect(s.take(i)),
    decreases s.len() - i,
{
    if i == s.len() {
        assert(s.take(i) =~= s);
    } else {
        assert(s.take(i + 1).drop_last() =~= s.take(i));
        lemma_collect_fails(s, i + 1);
    }
}

proof fn lemma_collect_next<T>(s: Seq<Result<T, Seq<char>>>, i: int)
    requires
        0 <= i < s.len(),
    ensures
        collect(s.take(i + 1)) == match (collect(s.take(i)), s[i]) {
            (Err(m), _) => Err(m),
            (Ok(_), Err(m)) => Err(m),
            (Ok(init), Ok(v)) => Ok(init.push(v)),
        },
{
    assert(s.take(i + 1).drop_last() =~= s.take(i));
    assert(s.take(i + 1).last() == s[i]);
}

// ---------------------------------------------------------------------------
// Amounts
// ---------------------------------------------------------------------------

/// A quantity as hledger writes it.
#[derive(Debug)]
pub struct JsonQuantity {
    pub mantissa: i128,
    pub places: u8,
}

/// The style of an amount as hledger writes it.
#[derive(Debug)]
pub struct JsonStyle {
    /// `L` where the commodity stands to the left.
    pub ascommodityside: String,
    pub ascommodityspaced: bool,
}

/// An amount as hledger writes it.
#[derive(Debug)]
pub struct JsonAmount {
    pub acommodity: String,
    pub aquantity: JsonQuantity,
    pub astyle: JsonStyle,
}

/// The amount that hledger wrote.
pub open spec fn amount_from(a: JsonAmount) -> AmountView {
    AmountView {
        commodity: a.acommodity@,
        quantity: Quantity { mantissa: a.aquantity.mantissa, places: a.aquantity.places as u32 },
        commodity_left: a.astyle.ascommodityside@ == "L"@,
        spaced: a.astyle.ascommodityspaced,
    }
}

impl JsonAmount {
    /// The amount that hledger wrote.
    pub fn into_amount(self) -> (r: Amount)
        ensures
            r@ == amount_from(self),
    {
        let left: bool = same(&self.astyle.ascommodityside, "L");
        Amount {
            commodity: self.acommodity,
            quantity: Quantity::new(self.aquantity.mantissa, self.aquantity.places as u32),
            commodity_left: left,
            spaced: self.astyle.ascommodityspaced,
        }
    }
}

/// The amounts that hledger wrote.
pub fn into_amounts(raw: Vec<JsonAmount>) -> (r: Vec<Amount>)
    ensures
        amounts_view(r@) == Seq::new(raw@.len(), |i: int| amount_from(raw@[i])),
{
    let ghost all = raw@;
    let mut rest: Vec<JsonAmount> = raw;
    let mut backwards: Vec<Amount> = Vec::new();
    let ghost n = all.len() as int;
    while rest.len() > 0
        invariant
            n == all.len(),
            rest@ == all.take(rest@.len() as int),
            rest.len() + backwards.len() == n,
            forall|k: int| 0 <= k < backwards.len() ==> (#[trigger] backwards@[k])@ == amount_from(all[n - 1 - k]),
        decreases rest.len(),
    {
        let ghost before = rest@;
        if let Some(a) = rest.pop() {
            assert(a == all[before.len() - 1]);
            backwards.push(a.into_amount());
            assert(rest@ =~= all.take(rest@.len() as int));
        }
    }
    let mut out: Vec<Amount> = Vec::new();
    while backwards.len() > 0
        invariant
            n == all.len(),
            out.len() + backwards.len() == n,
            forall|k: int| 0 <= k < backwards.len() ==> (#[trigger] backwards@[k])@ == amount_from(all[n - 1 - k]),
            forall|k: int| 0 <= k < out.len() ==> (#[trigger] out@[k])@ == amount_from(all[k]),
        decreases backwards.len(),
    {
        if let Some(a) = backwards.pop() {
            out.push(a);
        }
    }
    assert(amounts_view(out@) =~= Seq::new(all.len(), |i: int| amount_from(all[i])));
    out
}

/// A quantity: an integer mantissa and up to 255 decimal places.
pub open spec fn quantity_in(j: JsonView) -> Option<Quantity> {
    match (field_of(Part::Quantity, j, 0), field_of(Part::Quantity, j, 1)) {
        (Some(JsonView::Number(Some(m), _)), Some(JsonView::Number(Some(p), _))) => if 0 <= p <= 255 {
            Some(Quantity { mantissa: m, places: p as u32 })
        } else {
            None
        },
        _ => None,
    }
}

/// The side and the spacing of the commodity.
pub open spec fn style_in(j: JsonView) -> Option<(bool, bool)> {
    match (field_of(Part::Style, j, 0), field_of(Part::Style, j, 1)) {
        (Some(JsonView::Text(side)), Some(JsonView::Bool(spaced))) => Some((side == "L"@, spaced)),
        _ => None,
    }
}

/// An amount, where the document is one.
pub open spec fn amount_value(j: JsonView) -> Option<AmountView> {
    match (field_of(Part::Amount, j, 0), field_of(Part::Amount, j, 1), field_of(Part::Amount, j, 2)) {
        (Some(JsonView::Text(commodity)), Some(q), Some(s)) => match (quantity_in(q), style_in(s)) {
            (Some(quantity), Some((commodity_left, spaced))) => Some(
                AmountView { commodity, quantity, commodity_left, spaced },
            ),
            _ => None,
        },
        _ => None,
    }
}

/// An amount, or what is wrong with it.
pub open spec fn amount_in_json(j: JsonView) -> Result<AmountView, Seq<char>> {
    match fault(Part::Amount, j) {
        Some(m) => Err(m),
        None => Ok(amount_value(j)->0),
    }
}

/// Amounts, or what is wrong with the first that is none.
pub open spec fn amounts_in(j: JsonView) -> Result<Seq<AmountView>, Seq<char>> {
    match j {
        JsonView::Array(s) => collect(Seq::new(s.len(), |i: int| amount_in_json(s[i]))),
        _ => Err(type_message(j, "a sequence"@)),
    }
}

/// What nothing is wrong with is an amount.
pub proof fn law_sound_amounts_are_read(j: JsonView)
    requires
        fault(Part::Amount, j) is None,
    ensures
        amount_value(j) is Some,
        amount_in_json(j) == Ok::<AmountView, Seq<char>>(amount_value(j)->0),
{
    lemma_sound_record(Part::Amount, j);
    let c = field_of(Part::Amount, j, 0)->0;
    let q = field_of(Part::Amount, j, 1)->0;
    let s = field_of(Part::Amount, j, 2)->0;
    assert(field_of(Part::Amount, j, 0) is Some && fault(Part::Text, c) is None);
    assert(field_of(Part::Amount, j, 1) is Some && fault(Part::Quantity, q) is None);
    assert(field_of(Part::Amount, j, 2) is Some && fault(Part::Style, s) is None);
    lemma_sound_record(Part::Quantity, q);
    lemma_sound_record(Part::Style, s);
    assert(fault(Part::Mantissa, field_of(Part::Quantity, q, 0)->0) is None);
    assert(fault(Part::Places, field_of(Part::Quantity, q, 1)->0) is None);
    assert(fault(Part::Text, field_of(Part::Style, s, 0)->0) is None);
    assert(fault(Part::Flag, field_of(Part::Style, s, 1)->0) is None);
    assert(quantity_in(q) is Some);
    assert(style_in(s) is Some);
}

fn read_field<'a>(p: Part, j: &'a Json, k: usize) -> (r: Option<&'a Json>)
    requires
        k < fields(p).len(),
    ensures
        match r {
            Some(v) => field_of(p, json_view(*j), k as int) == Some(json_view(*v)),
            None => field_of(p, json_view(*j), k as int) is None,
        },
{
    match j {
        Json::Array(v) => {
            assert(json_view(*j)->Array_0 =~= jsons_view(v@));
            if v.len() == field_count(p) {
                Some(&v[k])
            } else {
                None
            }
        },
        Json::Object(_) => {
            let (name, _) = field_at(p, k);
            assert(fields(p)[k as int].0 == name@);
            j.find(name)
        },
        _ => None,
    }
}

fn read_quantity(j: &Json) -> (r: Option<JsonQuantity>)
    ensures
        match r {
            Some(q) => quantity_in(json_view(*j)) == Some(Quantity { mantissa: q.mantissa, places: q.places as u32 }),
            None => quantity_in(json_view(*j)) is None,
        },
{
    match (read_field(Part::Quantity, j, 0), read_field(Part::Quantity, j, 1)) {
        (Some(Json::Number(Some(m), _)), Some(Json::Number(Some(p), _))) => if 0 <= *p && *p <= 255 {
            Some(JsonQuantity { mantissa: *m, places: *p as u8 })
        } else {
            None
        },
        _ => None,
    }
}

fn read_style(j: &Json) -> (r: Option<JsonStyle>)
    ensures
        match r {
            Some(s) => style_in(json_view(*j)) == Some((s.ascommodityside@ == "L"@, s.ascommodityspaced)),
            None => style_in(json_view(*j)) is None,
        },
{
    match (read_field(Part::Style, j, 0), read_field(Part::Style, j, 1)) {
        (Some(Json::Text(side)), Some(Json::Bool(spaced))) => Some(
            JsonStyle { ascommodityside: side.clone(), ascommodityspaced: *spaced },
        ),
        _ => None,
    }
}

fn read_amount_value(j: &Json) -> (r: Option<JsonAmount>)
    ensures
        match r {
            Some(a) => amount_value(json_view(*j)) == Some(amount_from(a)),
            None => amount_value(json_view(*j)) is None,
        },
{
    match (read_field(Part::Amount, j, 0), read_field(Part::Amount, j, 1), read_field(Part::Amount, j, 2)) {
        (Some(Json::Text(commodity)), Some(q), Some(s)) => match (read_quantity(q), read_style(s)) {
            (Some(aquantity), Some(astyle)) => Some(JsonAmount { acommodity: commodity.clone(), aquantity, astyle }),
            _ => None,
        },
        _ => None,
    }
}

fn read_amount(j: &Json) -> (r: Result<JsonAmount, JsonError>)
    ensures
        match amount_in_json(json_view(*j)) {
            Ok(v) => r matches Ok(a) && amount_from(a) == v,
            Err(m) => r matches Err(JsonError::Shape(e)) && e@ == m,
        },
{
    if let Some(m) = find_fault(Part::Amount, j) {
        return Err(JsonError::Shape(m));
    }
    proof {
        law_sound_amounts_are_read(json_view(*j));
    }
    Ok(read_amount_value(j).unwrap())
}

/// Reads a list of amounts.
pub fn amounts_from_value(value: &Json) -> (r: Result<Vec<Amount>, JsonError>)
    ensures
        match amounts_in(json_view(*value)) {
            Ok(v) => r matches Ok(a) && amounts_view(a@) == v,
            Err(m) => r matches Err(JsonError::Shape(e)) && e@ == m,
        },
{
    let items: &Vec<Json> = match value.elements() {
        Some(items) => items,
        None => {
            return Err(JsonError::Shape(wrong_type(value, "a sequence")));
        },
    };
    let ghost s = jsons_view(items@);
    let ghost read = Seq::new(s.len(), |i: int| amount_in_json(s[i]));
    let mut raw: Vec<JsonAmount> = Vec::new();
    let mut i: usize = 0;
    assert(collect(read.take(0)) == Ok::<Seq<AmountView>, Seq<char>>(Seq::new(0, |k: int| amount_from(raw@[k])))) by {
        assert(Seq::new(0, |k: int| amount_from(raw@[k])) =~= Seq::<AmountView>::empty());
    }
    while i < items.len()
        invariant
            i <= items.len(),
            json_view(*value) == JsonView::Array(s),
            s == jsons_view(items@),
            read == Seq::new(s.len(), |i: int| amount_in_json(s[i])),
            raw.len() == i,
            collect(read.take(i as int)) == Ok::<Seq<AmountView>, Seq<char>>(
                Seq::new(i as nat, |k: int| amount_from(raw@[k])),
            ),
        decreases items.len() - i,
    {
        let ghost before = raw@;
        proof {
            lemma_collect_next(read, i as int);
        }
        match read_amount(&items[i]) {
            Ok(a) => {
                raw.push(a);
                proof {
                    assert(Seq::new(i as nat, |k: int| amount_from(before[k])).push(amount_from(a)) =~= Seq::new(
                        (i + 1) as nat,
                        |k: int| amount_from(raw@[k]),
                    ));
                }
            },
            Err(e) => {
                proof {
                    lemma_collect_fails(read, i + 1);
                }
                return Err(e);
            },
        }
        i += 1;
    }
    assert(read.take(i as int) =~= read);
    Ok(into_amounts(raw))
}

// ---------------------------------------------------------------------------
// Balances
// ---------------------------------------------------------------------------

/// One row of a balance report: the account first, the amounts fourth.
pub open spec fn balance_row_in(j: JsonView) -> Result<AccountBalanceView, Seq<char>> {
    match j {
        JsonView::Array(cells) => if cells.len() == 0 || !(cells[0] is Text) {
            Err("balance: row missing account name"@)
        } else if cells.len() < 4 {
            Err("balance: row missing amounts"@)
        } else {
            match amounts_in(cells[3]) {
                Ok(amounts) => Ok(AccountBalanceView { account: cells[0]->Text_0, amounts }),
                Err(m) => Err(m),
            }
        },
        _ => Err("balance: row is not an array"@),
    }
}

/// A balance report: the rows first, the totals second.
pub open spec fn balance_in(j: JsonView) -> Result<BalanceReportView, Seq<char>> {
    match j {
        JsonView::Array(top) => if top.len() == 0 {
            Err("balance: missing rows element"@)
        } else if top.len() == 1 {
            Err("balance: missing totals element"@)
        } else {
            match top[0] {
                JsonView::Array(rows) => match collect(Seq::new(rows.len(), |i: int| balance_row_in(rows[i]))) {
                    Err(m) => Err(m),
                    Ok(rows) => match amounts_in(top[1]) {
                        Err(m) => Err(m),
                        Ok(totals) => Ok(BalanceReportView { rows, totals }),
                    },
                },
                _ => Err("balance: rows is not an array"@),
            }
        },
        _ => Err("balance: expected a top-level array"@),
    }
}

fn read_balance_row(j: &Json) -> (r: Result<AccountBalance, JsonError>)
    ensures
        reported(r, balance_row_in(json_view(*j))),
{
    let cells: &Vec<Json> = match j.elements() {
        Some(cells) => cells,
        None => {
            return shape("balance: row is not an array");
        },
    };
    if cells.len() == 0 {
        return shape("balance: row missing account name");
    }
    assert(jsons_view(cells@)[0] == json_view(cells@[0]));
    let account: String = match cells[0].text() {
        Some(s) => s.clone(),
        None => {
            return shape("balance: row missing account name");
        },
    };
    if cells.len() < 4 {
        return shape("balance: row missing amounts");
    }
    assert(jsons_view(cells@)[3] == json_view(cells@[3]));
    match amounts_from_value(&cells[3]) {
        Ok(amounts) => Ok(AccountBalance { account, amounts }),
        Err(e) => Err(e),
    }
}

/// Reads a balance report.
pub fn balance_from_json(doc: &Json) -> (r: Result<BalanceReport, JsonError>)
    ensures
        reported(r, balance_in(json_view(*doc))),
{
    let top: &Vec<Json> = match doc.elements() {
        Some(top) => top,
        None => {
            return shape("balance: expected a top-level array");
        },
    };
    if top.len() == 0 {
        return shape("balance: missing rows element");
    }
    if top.len() == 1 {
        return shape("balance: missing totals element");
    }
    assert(jsons_view(top@)[0] == json_view(top@[0]));
    assert(jsons_view(top@)[1] == json_view(top@[1]));
    let items: &Vec<Json> = match top[0].elements() {
        Some(items) => items,
        None => {
            return shape("balance: rows is not an array");
        },
    };
    match read_balance_rows(items) {
        Err(e) => Err(e),
        Ok(rows) => match amounts_from_value(&top[1]) {
            Err(e) => Err(e),
            Ok(totals) => Ok(BalanceReport { rows, totals }),
        },
    }
}

fn read_balance_rows(items: &Vec<Json>) -> (r: Result<Vec<AccountBalance>, JsonError>)
    ensures
        match collect(Seq::new(items@.len(), |i: int| balance_row_in(jsons_view(items@)[i]))) {
            Ok(v) => r matches Ok(rows) && balances_view(rows@) == v,
            Err(m) => r matches Err(JsonError::Shape(e)) && e@ == m,
        },
{
    let ghost s = jsons_view(items@);
    let ghost read = Seq::new(items@.len(), |i: int| balance_row_in(s[i]));
    let mut rows: Vec<AccountBalance> = Vec::new();
    let mut i: usize = 0;
    assert(balances_view(rows@) =~= Seq::empty());
    while i < items.len()
        invariant
            i <= items.len(),
            s == jsons_view(items@),
            read == Seq::new(items@.len(), |i: int| balance_row_in(s[i])),
            collect(read.take(i as int)) == Ok::<Seq<AccountBalanceView>, Seq<char>>(balances_view(rows@)),
        decreases items.len() - i,
    {
        let ghost before = balances_view(rows@);
        proof {
            lemma_collect_next(read, i as int);
        }
        match read_balance_row(&items[i]) {
            Ok(row) => {
                let ghost added = row@;
                rows.push(row);
                assert(balances_view(rows@) =~= before.push(added));
            },
            Err(e) => {
                proof {
                    lemma_collect_fails(read, i + 1);
                }
                return Err(e);
            },
        }
        i += 1;
    }
    assert(read.take(i as int) =~= read);
    Ok(rows)
}

/// Is this how the outcome of reading the text is reported: a syntax error with the parser's
/// message where it is no JSON document, and otherwise what the document holds?
pub open spec fn reported_text<T: View>(
    r: Result<T, JsonError>,
    text: Seq<char>,
    read: spec_fn(JsonView) -> Result<T::V, Seq<char>>,
) -> bool {
    match json_text(text) {
        Ok(doc) => reported(r, read(doc)),
        Err(m) => r matches Err(JsonError::Syntax(message)) && message@ == m,
    }
}

/// Reads what `hledger balance -O json` printed.
pub fn parse_balance(stdout: &str) -> (r: Result<BalanceReport, JsonError>)
    ensures
        reported_text(r, stdout@, |doc: JsonView| balance_in(doc)),
{
    match parse_json(stdout) {
        Ok(doc) => balance_from_json(&doc),
        Err(e) => Err(e),
    }
}

// ---------------------------------------------------------------------------
// Statements
// ---------------------------------------------------------------------------

/// One row of a section.
pub open spec fn statement_row_in(j: JsonView) -> Result<ReportRowView, Seq<char>> {
    match member(j, "prrName"@) {
        JsonView::Text(account) => match amounts_in(member(j, "prrTotal"@)) {
            Ok(total) => Ok(ReportRowView { account, total }),
            Err(m) => Err(m),
        },
        _ => Err("composite: prrName not string"@),
    }
}

/// What a section of a statement holds: its name, its report, and whether it adds to the
/// total, in this order.
pub open spec fn section_in(j: JsonView) -> Result<SubreportView, Seq<char>> {
    match j {
        JsonView::Array(t) => if t.len() == 0 || !(t[0] is Text) {
            Err("composite: subreport missing name"@)
        } else if t.len() == 1 {
            Err("composite: subreport missing PeriodicReport"@)
        } else if t.len() == 2 || !(t[2] is Bool) {
            Err("composite: subreport missing isPositive"@)
        } else {
            match member(t[1], "prRows"@) {
                JsonView::Array(rows) => match collect(Seq::new(rows.len(), |i: int| statement_row_in(rows[i]))) {
                    Err(m) => Err(m),
                    Ok(rows) => match amounts_in(member(member(t[1], "prTotals"@), "prrTotal"@)) {
                        Err(m) => Err(m),
                        Ok(totals) => Ok(
                            SubreportView { name: t[0]->Text_0, rows, totals, is_positive: t[2]->Bool_0 },
                        ),
                    },
                },
                _ => Err("composite: prRows not array"@),
            }
        },
        _ => Err("composite: subreport entry not array"@),
    }
}

/// A statement.
pub open spec fn statement_in(j: JsonView) -> Result<CompositeReportView, Seq<char>> {
    match member(j, "cbrTitle"@) {
        JsonView::Text(title) => match member(j, "cbrSubreports"@) {
            JsonView::Array(subs) => match collect(Seq::new(subs.len(), |i: int| section_in(subs[i]))) {
                Err(m) => Err(m),
                Ok(subreports) => match amounts_in(member(member(j, "cbrTotals"@), "prrTotal"@)) {
                    Err(m) => Err(m),
                    Ok(totals) => Ok(CompositeReportView { title, subreports, totals }),
                },
            },
            _ => Err("composite: cbrSubreports not array"@),
        },
        _ => Err("composite: missing cbrTitle string"@),
    }
}

/// The amounts in a member of a member.
fn member_amounts(j: &Json, outer: &str, inner: &str) -> (r: Result<Vec<Amount>, JsonError>)
    ensures
        match amounts_in(member(member(json_view(*j), outer@), inner@)) {
            Ok(v) => r matches Ok(a) && amounts_view(a@) == v,
            Err(m) => r matches Err(JsonError::Shape(e)) && e@ == m,
        },
{
    match j.find(outer) {
        Some(o) => match o.find(inner) {
            Some(v) => amounts_from_value(v),
            None => Err(JsonError::Shape(wrong_type(&Json::Null, "a sequence"))),
        },
        None => Err(JsonError::Shape(wrong_type(&Json::Null, "a sequence"))),
    }
}

fn read_statement_row(j: &Json) -> (r: Result<ReportRow, JsonError>)
    ensures
        reported(r, statement_row_in(json_view(*j))),
{
    let account: String = match j.find("prrName") {
        Some(name) => match name.text() {
            Some(s) => s.clone(),
            None => {
                return shape("composite: prrName not string");
            },
        },
        None => {
            return shape("composite: prrName not string");
        },
    };
    match j.find("prrTotal") {
        Some(v) => match amounts_from_value(v) {
            Ok(total) => Ok(ReportRow { account, total }),
            Err(e) => Err(e),
        },
        None => Err(JsonError::Shape(wrong_type(&Json::Null, "a sequence"))),
    }
}

fn read_statement_rows(items: &Vec<Json>) -> (r: Result<Vec<ReportRow>, JsonError>)
    ensures
        match collect(Seq::new(items@.len(), |i: int| statement_row_in(jsons_view(items@)[i]))) {
            Ok(v) => r matches Ok(rows) && report_rows_view(rows@) == v,
            Err(m) => r matches Err(JsonError::Shape(e)) && e@ == m,
        },
{
    let ghost s = jsons_view(items@);
    let ghost read = Seq::new(items@.len(), |i: int| statement_row_in(s[i]));
    let mut rows: Vec<ReportRow> = Vec::new();
    let mut i: usize = 0;
    assert(report_rows_view(rows@) =~= Seq::empty());
    while i < items.len()
        invariant
            i <= items.len(),
            s == jsons_view(items@),
            read == Seq::new(items@.len(), |i: int| statement_row_in(s[i])),
            collect(read.take(i as int)) == Ok::<Seq<ReportRowView>, Seq<char>>(report_rows_view(rows@)),
        decreases items.len() - i,
    {
        let ghost before = report_rows_view(rows@);
        proof {
            lemma_collect_next(read, i as int);
        }
        match read_statement_row(&items[i]) {
            Ok(row) => {
                let ghost added = row@;
                rows.push(row);
                assert(report_rows_view(rows@) =~= before.push(added));
            },
            Err(e) => {
                proof {
                    lemma_collect_fails(read, i + 1);
                }
                return Err(e);
            },
        }
        i += 1;
    }
    assert(read.take(i as int) =~= read);
    Ok(rows)
}

fn read_section(j: &Json) -> (r: Result<Subreport, JsonError>)
    ensures
        reported(r, section_in(json_view(*j))),
{
    let t: &Vec<Json> = match j.elements() {
        Some(t) => t,
        None => {
            return shape("composite: subreport entry not array");
        },
    };
    let ghost s = jsons_view(t@);
    if t.len() == 0 {
        return shape("composite: subreport missing name");
    }
    assert(s[0] == json_view(t@[0]));
    let name: String = match t[0].text() {
        Some(name) => name.clone(),
        None => {
            return shape("composite: subreport missing name");
        },
    };
    if t.len() == 1 {
        return shape("composite: subreport missing PeriodicReport");
    }
    if t.len() == 2 {
        return shape("composite: subreport missing isPositive");
    }
    assert(s[1] == json_view(t@[1]));
    assert(s[2] == json_view(t@[2]));
    let is_positive: bool = match &t[2] {
        Json::Bool(b) => *b,
        _ => {
            return shape("composite: subreport missing isPositive");
        },
    };
    let items: &Vec<Json> = match t[1].find("prRows") {
        Some(v) => match v.elements() {
            Some(items) => items,
            None => {
                return shape("composite: prRows not array");
            },
        },
        None => {
            return shape("composite: prRows not array");
        },
    };
    match read_statement_rows(items) {
        Err(e) => Err(e),
        Ok(rows) => match member_amounts(&t[1], "prTotals", "prrTotal") {
            Err(e) => Err(e),
            Ok(totals) => Ok(Subreport { name, rows, totals, is_positive }),
        },
    }
}

fn read_sections(items: &Vec<Json>) -> (r: Result<Vec<Subreport>, JsonError>)
    ensures
        match collect(Seq::new(items@.len(), |i: int| section_in(jsons_view(items@)[i]))) {
            Ok(v) => r matches Ok(subs) && subreports_view(subs@) == v,
            Err(m) => r matches Err(JsonError::Shape(e)) && e@ == m,
        },
{
    let ghost s = jsons_view(items@);
    let ghost read = Seq::new(items@.len(), |i: int| section_in(s[i]));
    let mut subs: Vec<Subreport> = Vec::new();
    let mut i: usize = 0;
    assert(subreports_view(subs@) =~= Seq::empty());
    while i < items.len()
        invariant
            i <= items.len(),
            s == jsons_view(items@),
            read == Seq::new(items@.len(), |i: int| section_in(s[i])),
            collect(read.take(i as int)) == Ok::<Seq<SubreportView>, Seq<char>>(subreports_view(subs@)),
        decreases items.len() - i,
    {
        let ghost before = subreports_view(subs@);
        proof {
            lemma_collect_next(read, i as int);
        }
        match read_section(&items[i]) {
            Ok(sub) => {
                let ghost added = sub@;
                subs.push(sub);
                assert(subreports_view(subs@) =~= before.push(added));
            },
            Err(e) => {
                proof {
                    lemma_collect_fails(read, i + 1);
                }
                return Err(e);
            },
        }
        i += 1;
    }
    assert(read.take(i as int) =~= read);
    Ok(subs)
}

/// Reads a statement.
pub fn composite_from_json(doc: &Json) -> (r: Result<CompositeReport, JsonError>)
    ensures
        reported(r, statement_in(json_view(*doc))),
{
    let title: String = match doc.find("cbrTitle") {
        Some(v) => match v.text() {
            Some(title) => title.clone(),
            None => {
                return shape("composite: missing cbrTitle string");
            },
        },
        None => {
            return shape("composite: missing cbrTitle string");
        },
    };
    let items: &Vec<Json> = match doc.find("cbrSubreports") {
        Some(v) => match v.elements() {
            Some(items) => items,
            None => {
                return shape("composite: cbrSubreports not array");
            },
        },
        None => {
            return shape("composite: cbrSubreports not array");
        },
    };
    match read_sections(items) {
        Err(e) => Err(e),
        Ok(subreports) => match member_amounts(doc, "cbrTotals", "prrTotal") {
            Err(e) => Err(e),
            Ok(totals) => Ok(CompositeReport { title, subreports, totals }),
        },
    }
}

/// Reads what `hledger balancesheet -O json` or `hledger incomestatement -O json` printed.
pub fn parse_composite_report(stdout: &str) -> (r: Result<CompositeReport, JsonError>)
    ensures
        reported_text(r, stdout@, |doc: JsonView| statement_in(doc)),
{
    match parse_json(stdout) {
        Ok(doc) => composite_from_json(&doc),
        Err(e) => Err(e),
    }
}

// ---------------------------------------------------------------------------
// Budgets
// ---------------------------------------------------------------------------

/// One of the two parts of a cell; empty where it is missing or null.
pub open spec fn budget_part(pair: Seq<JsonView>, i: int) -> Result<Seq<AmountView>, Seq<char>> {
    if i < pair.len() && !(pair[i] is Null) {
        amounts_in(pair[i])
    } else {
        Ok(Seq::empty())
    }
}

/// A cell of a budget report: what was spent, and the goal.
pub open spec fn budget_pair_in(j: JsonView) -> Result<(Seq<AmountView>, Seq<AmountView>), Seq<char>> {
    match j {
        JsonView::Array(pair) => match (budget_part(pair, 0), budget_part(pair, 1)) {
            (Err(m), _) => Err(m),
            (Ok(_), Err(m)) => Err(m),
            (Ok(actual), Ok(goal)) => Ok((actual, goal)),
        },
        _ => Err("budget: cell is not an [actual, goal] pair"@),
    }
}

/// One row of a budget report.
pub open spec fn budget_row_in(j: JsonView) -> Result<BudgetRowView, Seq<char>> {
    match member(j, "prrName"@) {
        JsonView::Text(account) => match budget_pair_in(member(j, "prrTotal"@)) {
            Ok((actual, goal)) => Ok(BudgetRowView { account, actual, goal }),
            Err(m) => Err(m),
        },
        _ => Err("budget: prrName not string"@),
    }
}

/// A budget report.
pub open spec fn budget_in(j: JsonView) -> Result<BudgetReportView, Seq<char>> {
    match member(j, "prRows"@) {
        JsonView::Array(rows) => match collect(Seq::new(rows.len(), |i: int| budget_row_in(rows[i]))) {
            Err(m) => Err(m),
            Ok(rows) => match budget_pair_in(member(member(j, "prTotals"@), "prrTotal"@)) {
                Err(m) => Err(m),
                Ok((total_actual, total_goal)) => Ok(BudgetReportView { rows, total_actual, total_goal }),
            },
        },
        _ => Err("budget: prRows not array"@),
    }
}

fn read_budget_part(pair: &Vec<Json>, i: usize) -> (r: Result<Vec<Amount>, JsonError>)
    ensures
        match budget_part(jsons_view(pair@), i as int) {
            Ok(v) => r matches Ok(a) && amounts_view(a@) == v,
            Err(m) => r matches Err(JsonError::Shape(e)) && e@ == m,
        },
{
    let none: Vec<Amount> = Vec::new();
    assert(amounts_view(none@) =~= Seq::empty());
    if i < pair.len() {
        assert(jsons_view(pair@)[i as int] == json_view(pair@[i as int]));
        match &pair[i] {
            Json::Null => Ok(none),
            other => amounts_from_value(other),
        }
    } else {
        Ok(none)
    }
}

/// Reads a cell of a budget report: what was spent, and the goal.
pub fn budget_pair(cell: &Json) -> (r: Result<(Vec<Amount>, Vec<Amount>), JsonError>)
    ensures
        match budget_pair_in(json_view(*cell)) {
            Ok(v) => r matches Ok((actual, goal)) && amounts_view(actual@) == v.0 && amounts_view(goal@) == v.1,
            Err(m) => r matches Err(JsonError::Shape(e)) && e@ == m,
        },
{
    let pair: &Vec<Json> = match cell.elements() {
        Some(pair) => pair,
        None => {
            return shape("budget: cell is not an [actual, goal] pair");
        },
    };
    match read_budget_part(pair, 0) {
        Err(e) => Err(e),
        Ok(actual) => match read_budget_part(pair, 1) {
            Err(e) => Err(e),
            Ok(goal) => Ok((actual, goal)),
        },
    }
}

fn read_budget_row(j: &Json) -> (r: Result<BudgetRow, JsonError>)
    ensures
        reported(r, budget_row_in(json_view(*j))),
{
    let account: String = match j.find("prrName") {
        Some(v) => match v.text() {
            Some(s) => s.clone(),
            None => {
                return shape("budget: prrName not string");
            },
        },
        None => {
            return shape("budget: prrName not string");
        },
    };
    match j.find("prrTotal") {
        Some(cell) => match budget_pair(cell) {
            Ok((actual, goal)) => Ok(BudgetRow { account, actual, goal }),
            Err(e) => Err(e),
        },
        None => shape("budget: cell is not an [actual, goal] pair"),
    }
}

fn read_budget_rows(items: &Vec<Json>) -> (r: Result<Vec<BudgetRow>, JsonError>)
    ensures
        match collect(Seq::new(items@.len(), |i: int| budget_row_in(jsons_view(items@)[i]))) {
            Ok(v) => r matches Ok(rows) && budget_rows_view(rows@) == v,
            Err(m) => r matches Err(JsonError::Shape(e)) && e@ == m,
        },
{
    let ghost s = jsons_view(items@);
    let ghost read = Seq::new(items@.len(), |i: int| budget_row_in(s[i]));
    let mut rows: Vec<BudgetRow> = Vec::new();
    let mut i: usize = 0;
    assert(budget_rows_view(rows@) =~= Seq::empty());
    while i < items.len()
        invariant
            i <= items.len(),
            s == jsons_view(items@),
            read == Seq::new(items@.len(), |i: int| budget_row_in(s[i])),
            collect(read.take(i as int)) == Ok::<Seq<BudgetRowView>, Seq<char>>(budget_rows_view(rows@)),
        decreases items.len() - i,
    {
        let ghost before = budget_rows_view(rows@);
        proof {
            lemma_collect_next(read, i as int);
        }
        match read_budget_row(&items[i]) {
            Ok(row) => {
                let ghost added = row@;
                rows.push(row);
                assert(budget_rows_view(rows@) =~= before.push(added));
            },
            Err(e) => {
                proof {
                    lemma_collect_fails(read, i + 1);
                }
                return Err(e);
            },
        }
        i += 1;
    }
    assert(read.take(i as int) =~= read);
    Ok(rows)
}

/// Reads a budget report.
pub fn budget_from_json(doc: &Json) -> (r: Result<BudgetReport, JsonError>)
    ensures
        reported(r, budget_in(json_view(*doc))),
{
    let items: &Vec<Json> = match doc.find("prRows") {
        Some(v) => match v.elements() {
            Some(items) => items,
            None => {
                return shape("budget: prRows not array");
            },
        },
        None => {
            return shape("budget: prRows not array");
        },
    };
    let rows: Vec<BudgetRow> = match read_budget_rows(items) {
        Err(e) => {
            return Err(e);
        },
        Ok(rows) => rows,
    };
    let cell: Option<&Json> = match doc.find("prTotals") {
        Some(totals) => totals.find("prrTotal"),
        None => None,
    };
    match cell {
        Some(cell) => match budget_pair(cell) {
            Ok((total_actual, total_goal)) => Ok(BudgetReport { rows, total_actual, total_goal }),
            Err(e) => Err(e),
        },
        None => shape("budget: cell is not an [actual, goal] pair"),
    }
}

/// Reads what `hledger balance --budget -O json` printed.
pub fn parse_budget(stdout: &str) -> (r: Result<BudgetReport, JsonError>)
    ensures
        reported_text(r, stdout@, |doc: JsonView| budget_in(doc)),
{
    match parse_json(stdout) {
        Ok(doc) => budget_from_json(&doc),
        Err(e) => Err(e),
    }
}

// ---------------------------------------------------------------------------
// Transactions
// ---------------------------------------------------------------------------

/// A posting as hledger writes it.
#[derive(Debug)]
pub struct JsonPosting {
    pub paccount: String,
    pub pamount: Vec<JsonAmount>,
    pub pcomment: String,
    pub ptags: Vec<(String, String)>,
}

/// A transaction as hledger writes it.
#[derive(Debug)]
pub struct JsonTransaction {
    pub tdate: Date,
    pub tdescription: String,
    pub tindex: u64,
    pub tstatus: Status,
    pub tcomment: String,
    pub ttags: Vec<(String, String)>,
    pub tpostings: Vec<JsonPosting>,
}

/// The posting that hledger wrote.
pub open spec fn posting_from(p: JsonPosting) -> PostingView {
    PostingView {
        account: p.paccount@,
        amounts: Seq::new(p.pamount@.len(), |i: int| amount_from(p.pamount@[i])),
        comment: p.pcomment@,
        tags: tags_view(p.ptags@),
    }
}

/// The transaction that hledger wrote.
pub open spec fn transaction_from(t: JsonTransaction) -> TransactionView {
    TransactionView {
        date: t.tdate@,
        description: t.tdescription@,
        index: t.tindex,
        status: t.tstatus,
        comment: t.tcomment@,
        tags: tags_view(t.ttags@),
        postings: Seq::new(t.tpostings@.len(), |i: int| posting_from(t.tpostings@[i])),
    }
}

impl JsonPosting {
    /// The posting that hledger wrote.
    pub fn into_posting(self) -> (r: Posting)
        ensures
            r@ == posting_from(self),
    {
        Posting {
            account: self.paccount,
            amounts: into_amounts(self.pamount),
            comment: self.pcomment,
            tags: self.ptags,
        }
    }
}

fn into_postings(raw: Vec<JsonPosting>) -> (r: Vec<Posting>)
    ensures
        postings_view(r@) == Seq::new(raw@.len(), |i: int| posting_from(raw@[i])),
{
    let ghost all = raw@;
    let mut rest: Vec<JsonPosting> = raw;
    let mut backwards: Vec<Posting> = Vec::new();
    let ghost n = all.len() as int;
    while rest.len() > 0
        invariant
            n == all.len(),
            rest@ == all.take(rest@.len() as int),
            rest.len() + backwards.len() == n,
            forall|k: int| 0 <= k < backwards.len() ==> (#[trigger] backwards@[k])@ == posting_from(all[n - 1 - k]),
        decreases rest.len(),
    {
        let ghost before = rest@;
        if let Some(p) = rest.pop() {
            assert(p == all[before.len() - 1]);
            backwards.push(p.into_posting());
            assert(rest@ =~= all.take(rest@.len() as int));
        }
    }
    let mut out: Vec<Posting> = Vec::new();
    while backwards.len() > 0
        invariant
            n == all.len(),
            out.len() + backwards.len() == n,
            forall|k: int| 0 <= k < backwards.len() ==> (#[trigger] backwards@[k])@ == posting_from(all[n - 1 - k]),
            forall|k: int| 0 <= k < out.len() ==> (#[trigger] out@[k])@ == posting_from(all[k]),
        decreases backwards.len(),
    {
        if let Some(p) = backwards.pop() {
            out.push(p);
        }
    }
    assert(postings_view(out@) =~= Seq::new(all.len(), |i: int| posting_from(all[i])));
    out
}

impl JsonTransaction {
    /// The transaction that hledger wrote.
    pub fn into_transaction(self) -> (r: Transaction)
        ensures
            r@ == transaction_from(self),
    {
        Transaction {
            date: self.tdate,
            description: self.tdescription,
            index: self.tindex,
            status: self.tstatus,
            comment: self.tcomment,
            tags: self.ttags,
            postings: into_postings(self.tpostings),
        }
    }
}

// ---------------------------------------------------------------------------
// Laws
// ---------------------------------------------------------------------------

/// Elements and members that are not used are passed over: a row of a balance report reads
/// the same with anything behind its fourth element, and so does the report with anything
/// behind its second.
pub proof fn law_extra_elements_are_ignored(top: Seq<JsonView>, cells: Seq<JsonView>, extra: Seq<JsonView>)
    requires
        top.len() >= 2,
        cells.len() >= 4,
    ensures
        balance_in(JsonView::Array(top + extra)) == balance_in(JsonView::Array(top)),
        balance_row_in(JsonView::Array(cells + extra)) == balance_row_in(JsonView::Array(cells)),
{
    assert((top + extra)[0] == top[0] && (top + extra)[1] == top[1]);
    assert((cells + extra)[0] == cells[0] && (cells + extra)[3] == cells[3]);
}

/// A section of a statement reads the same with anything behind its third element.
pub proof fn law_extra_section_elements_are_ignored(section: Seq<JsonView>, extra: Seq<JsonView>)
    requires
        section.len() >= 3,
    ensures
        section_in(JsonView::Array(section + extra)) == section_in(JsonView::Array(section)),
{
    assert((section + extra)[0] == section[0] && (section + extra)[1] == section[1] && (section + extra)[2]
        == section[2]);
}

/// A member of another name, wherever it stands, changes nothing of the member that is read.
pub proof fn law_unknown_members_are_ignored(
    members: Seq<(Seq<char>, JsonView)>,
    at: int,
    unknown: (Seq<char>, JsonView),
    name: Seq<char>,
)
    requires
        0 <= at <= members.len(),
        unknown.0 != name,
    ensures
        find_member(members.insert(at, unknown), name) == find_member(members, name),
    decreases members.len(),
{
    let more = members.insert(at, unknown);
    if at == 0 {
        assert(more.skip(1) =~= members);
    } else {
        assert(more[0] == members[0]);
        assert(more.skip(1) =~= members.skip(1).insert(at - 1, unknown));
        law_unknown_members_are_ignored(members.skip(1), at - 1, unknown, name);
    }
}

/// An amount reads back from the document that holds it: mantissa and places exactly, the
/// side and the spacing as they are written, whatever the texts of the numbers are, and nothing
/// of a floating-point rendering.
pub proof fn law_amount_reads_back(
    commodity: Seq<char>,
    mantissa: i128,
    places: u8,
    side: Seq<char>,
    spaced: bool,
    float: JsonView,
    texts: (Seq<char>, Seq<char>),
)
    ensures
        amount_in_json(
            JsonView::Object(
                seq![
                    ("acommodity"@, JsonView::Text(commodity)),
                    (
                        "aquantity"@,
                        JsonView::Object(
                            seq![
                                ("decimalMantissa"@, JsonView::Number(Some(mantissa), texts.0)),
                                ("decimalPlaces"@, JsonView::Number(Some(places as i128), texts.1)),
                                ("floatingPoint"@, float),
                            ],
                        ),
                    ),
                    (
                        "astyle"@,
                        JsonView::Object(
                            seq![
                                ("ascommodityside"@, JsonView::Text(side)),
                                ("ascommodityspaced"@, JsonView::Bool(spaced)),
                            ],
                        ),
                    ),
                ],
            ),
        ) == Ok::<AmountView, Seq<char>>(
            AmountView {
                commodity,
                quantity: Quantity { mantissa, places: places as u32 },
                commodity_left: side == "L"@,
                spaced,
            },
        ),
{
    let q = seq![
        ("decimalMantissa"@, JsonView::Number(Some(mantissa), texts.0)),
        ("decimalPlaces"@, JsonView::Number(Some(places as i128), texts.1)),
        ("floatingPoint"@, float),
    ];
    let s = seq![
        ("ascommodityside"@, JsonView::Text(side)),
        ("ascommodityspaced"@, JsonView::Bool(spaced)),
    ];
    let a = seq![
        ("acommodity"@, JsonView::Text(commodity)),
        ("aquantity"@, JsonView::Object(q)),
        ("astyle"@, JsonView::Object(s)),
    ];
    reveal_strlit("decimalMantissa");
    reveal_strlit("decimalPlaces");
    reveal_strlit("ascommodityside");
    reveal_strlit("ascommodityspaced");
    reveal_strlit("acommodity");
    reveal_strlit("aquantity");
    reveal_strlit("astyle");
    assert("decimalMantissa"@.len() != "decimalPlaces"@.len());
    assert("ascommodityside"@.len() != "ascommodityspaced"@.len());
    assert("acommodity"@.len() != "aquantity"@.len());
    assert("acommodity"@.len() != "astyle"@.len());
    assert("aquantity"@.len() != "astyle"@.len());
    assert(q.skip(1)[0] == q[1]);
    assert(find_member(q.skip(1), "decimalPlaces"@) == Some(JsonView::Number(Some(places as i128), texts.1)));
    assert(s.skip(1)[0] == s[1]);
    assert(find_member(s.skip(1), "ascommodityspaced"@) == Some(JsonView::Bool(spaced)));
    assert(a.skip(1)[0] == a[1]);
    assert(find_member(a.skip(1), "aquantity"@) == Some(JsonView::Object(q)));
    assert(a.skip(1).skip(1) =~= a.skip(2));
    assert(a.skip(2)[0] == a[2]);
    assert(find_member(a.skip(2), "astyle"@) == Some(JsonView::Object(s)));
    assert(find_member(a.skip(1), "astyle"@) == Some(JsonView::Object(s)));
    reveal_strlit("floatingPoint");
    assert("floatingPoint"@[0] == 'f' && "decimalPlaces"@[0] == 'd');
    assert("floatingPoint"@.len() != "decimalMantissa"@.len());
    reveal_with_fuel(field_named, 4);
    assert(missing_fault(Part::Quantity, q, 2) is None);
    assert(missing_fault(Part::Quantity, q, 1) is None);
    assert(members_fault(Part::Quantity, q, 3) is None);
    assert(members_fault(Part::Quantity, q, 2) is None);
    assert(fault(Part::Places, q[1].1) is None);
    assert(members_fault(Part::Quantity, q, 1) is None);
    assert(fault(Part::Mantissa, q[0].1) is None);
    assert(fault(Part::Quantity, JsonView::Object(q)) is None);
    assert(missing_fault(Part::Style, s, 2) is None);
    assert(missing_fault(Part::Style, s, 1) is None);
    assert(members_fault(Part::Style, s, 2) is None);
    assert(fault(Part::Flag, s[1].1) is None);
    assert(members_fault(Part::Style, s, 1) is None);
    assert(fault(Part::Text, s[0].1) is None);
    assert(fault(Part::Style, JsonView::Object(s)) is None);
    assert(missing_fault(Part::Amount, a, 3) is None);
    assert(missing_fault(Part::Amount, a, 2) is None);
    assert(missing_fault(Part::Amount, a, 1) is None);
    assert(members_fault(Part::Amount, a, 3) is None);
    assert(members_fault(Part::Amount, a, 2) is None);
    assert(members_fault(Part::Amount, a, 1) is None);
    assert(fault(Part::Text, a[0].1) is None);
    assert(fault(Part::Amount, JsonView::Object(a)) is None);
}

// ---------------------------------------------------------------------------
// What is read stands there
// ---------------------------------------------------------------------------

/// All or the first error: where all are there, they are all there, each in its place; where
/// not, the error is that of the first one that is none.
pub proof fn law_all_or_the_first_error<T>(s: Seq<Result<T, Seq<char>>>)
    ensures
        match collect(s) {
            Ok(v) => v.len() == s.len() && forall|i: int|
                0 <= i < s.len() ==> #[trigger] s[i] == Ok::<T, Seq<char>>(v[i]),
            Err(m) => exists|k: int|
                0 <= k < s.len() && #[trigger] s[k] == Err::<T, Seq<char>>(m) && forall|i: int|
                    0 <= i < k ==> (#[trigger] s[i]) is Ok,
        },
    decreases s.len(),
{
    if s.len() > 0 {
        let init = s.drop_last();
        let n = s.len() - 1;
        law_all_or_the_first_error(init);
        match collect(init) {
            Err(m) => {
                let k = choose|k: int|
                    0 <= k < init.len() && #[trigger] init[k] == Err::<T, Seq<char>>(m) && forall|i: int|
                        0 <= i < k ==> (#[trigger] init[i]) is Ok;
                assert(s[k] == init[k]);
                assert forall|i: int| 0 <= i < k implies (#[trigger] s[i]) is Ok by {
                    assert(init[i] == s[i]);
                }
            },
            Ok(v) => {
                assert forall|i: int| 0 <= i < n implies #[trigger] s[i] == Ok::<T, Seq<char>>(v[i]) by {
                    assert(init[i] == s[i]);
                }
                match s[n] {
                    Ok(last) => {
                        assert(collect(s) == Ok::<Seq<T>, Seq<char>>(v.push(last)));
                    },
                    Err(m) => {
                        assert(s[n] == Err::<T, Seq<char>>(m));
                    },
                }
            },
        }
    }
}

/// The value of a member is that of the first one of its name.
pub proof fn law_member_is_the_first_of_its_name(members: Seq<(Seq<char>, JsonView)>, name: Seq<char>)
    ensures
        match find_member(members, name) {
            Some(v) => exists|k: int|
                0 <= k < members.len() && #[trigger] members[k] == (name, v) && forall|m: int|
                    0 <= m < k ==> (#[trigger] members[m]).0 != name,
            None => forall|m: int| 0 <= m < members.len() ==> (#[trigger] members[m]).0 != name,
        },
    decreases members.len(),
{
    if members.len() > 0 {
        if members[0].0 == name {
            assert(members[0] == (name, members[0].1));
        } else {
            let rest = members.skip(1);
            law_member_is_the_first_of_its_name(rest, name);
            match find_member(rest, name) {
                Some(v) => {
                    let k = choose|k: int|
                        0 <= k < rest.len() && #[trigger] rest[k] == (name, v) && forall|m: int|
                            0 <= m < k ==> (#[trigger] rest[m]).0 != name;
                    assert(members[k + 1] == (name, v));
                    assert forall|m: int| 0 <= m < k + 1 implies (#[trigger] members[m]).0 != name by {
                        if m > 0 {
                            assert(rest[m - 1] == members[m]);
                        }
                    }
                },
                None => {
                    assert forall|m: int| 0 <= m < members.len() implies (#[trigger] members[m]).0 != name by {
                        if m > 0 {
                            assert(rest[m - 1] == members[m]);
                        }
                    }
                },
            }
        }
    }
}

/// Amounts are read from an array, each from the element in its place, and none is left out.
pub proof fn law_every_amount_is_read(j: JsonView, i: int)
    requires
        amounts_in(j) is Ok,
    ensures
        ({
            let v = amounts_in(j)->Ok_0;
            &&& j is Array
            &&& v.len() == j->Array_0.len()
            &&& 0 <= i < v.len() ==> amount_in_json(j->Array_0[i]) == Ok::<AmountView, Seq<char>>(v[i])
        }),
{
    let s = j->Array_0;
    law_all_or_the_first_error(Seq::new(s.len(), |i: int| amount_in_json(s[i])));
    if 0 <= i < s.len() {
        assert(Seq::new(s.len(), |i: int| amount_in_json(s[i]))[i] == amount_in_json(s[i]));
    }
}

/// A balance report has a row for each row of the document, in their order: the account is the
/// first cell of it and the amounts are those of the fourth. The totals are the second element
/// of the document.
pub proof fn law_every_balance_is_read(j: JsonView, i: int)
    requires
        balance_in(j) is Ok,
    ensures
        ({
            let report = balance_in(j)->Ok_0;
            &&& j is Array && j->Array_0.len() >= 2 && j->Array_0[0] is Array
            &&& amounts_in(j->Array_0[1]) == Ok::<Seq<AmountView>, Seq<char>>(report.totals)
            &&& report.rows.len() == j->Array_0[0]->Array_0.len()
            &&& 0 <= i < report.rows.len() ==> {
                let cells = j->Array_0[0]->Array_0[i];
                &&& cells is Array && cells->Array_0.len() >= 4
                &&& cells->Array_0[0] == JsonView::Text(report.rows[i].account)
                &&& amounts_in(cells->Array_0[3]) == Ok::<Seq<AmountView>, Seq<char>>(report.rows[i].amounts)
            }
        }),
{
    let rows = j->Array_0[0]->Array_0;
    let read = Seq::new(rows.len(), |i: int| balance_row_in(rows[i]));
    law_all_or_the_first_error(read);
    if 0 <= i < rows.len() {
        assert(read[i] == balance_row_in(rows[i]));
    }
}

/// A section of a statement has a row for each of its rows, in their order, with its name and its
/// total; its own name, totals and sign are those that stand in it.
pub proof fn law_every_section_row_is_read(j: JsonView, i: int)
    requires
        section_in(j) is Ok,
    ensures
        ({
            let section = section_in(j)->Ok_0;
            let t = j->Array_0;
            &&& j is Array && t.len() >= 3
            &&& t[0] == JsonView::Text(section.name)
            &&& t[2] == JsonView::Bool(section.is_positive)
            &&& member(t[1], "prRows"@) is Array
            &&& amounts_in(member(member(t[1], "prTotals"@), "prrTotal"@)) == Ok::<Seq<AmountView>, Seq<char>>(
                section.totals,
            )
            &&& section.rows.len() == member(t[1], "prRows"@)->Array_0.len()
            &&& 0 <= i < section.rows.len() ==> {
                let row = member(t[1], "prRows"@)->Array_0[i];
                &&& member(row, "prrName"@) == JsonView::Text(section.rows[i].account)
                &&& amounts_in(member(row, "prrTotal"@)) == Ok::<Seq<AmountView>, Seq<char>>(section.rows[i].total)
            }
        }),
{
    let rows = member(j->Array_0[1], "prRows"@)->Array_0;
    let read = Seq::new(rows.len(), |i: int| statement_row_in(rows[i]));
    law_all_or_the_first_error(read);
    if 0 <= i < rows.len() {
        assert(read[i] == statement_row_in(rows[i]));
    }
}

/// A statement has a section for each section of the document, in their order; its title and its
/// totals are those of the document, whatever the sections are.
pub proof fn law_every_section_is_read(j: JsonView, i: int)
    requires
        statement_in(j) is Ok,
    ensures
        ({
            let report = statement_in(j)->Ok_0;
            &&& member(j, "cbrTitle"@) == JsonView::Text(report.title)
            &&& member(j, "cbrSubreports"@) is Array
            &&& amounts_in(member(member(j, "cbrTotals"@), "prrTotal"@)) == Ok::<Seq<AmountView>, Seq<char>>(
                report.totals,
            )
            &&& report.subreports.len() == member(j, "cbrSubreports"@)->Array_0.len()
            &&& 0 <= i < report.subreports.len() ==> section_in(member(j, "cbrSubreports"@)->Array_0[i]) == Ok::<
                SubreportView,
                Seq<char>,
            >(report.subreports[i])
        }),
{
    let subs = member(j, "cbrSubreports"@)->Array_0;
    let read = Seq::new(subs.len(), |i: int| section_in(subs[i]));
    law_all_or_the_first_error(read);
    if 0 <= i < subs.len() {
        assert(read[i] == section_in(subs[i]));
    }
}

/// Is it what a cell of a budget report says: in its first place what was spent, in its second
/// the goal, and nothing where there is nothing or null?
pub open spec fn is_cell(j: JsonView, actual: Seq<AmountView>, goal: Seq<AmountView>) -> bool {
    &&& j is Array
    &&& if j->Array_0.len() > 0 && j->Array_0[0] != JsonView::Null {
        amounts_in(j->Array_0[0]) == Ok::<Seq<AmountView>, Seq<char>>(actual)
    } else {
        actual.len() == 0
    }
    &&& if j->Array_0.len() > 1 && j->Array_0[1] != JsonView::Null {
        amounts_in(j->Array_0[1]) == Ok::<Seq<AmountView>, Seq<char>>(goal)
    } else {
        goal.len() == 0
    }
}

/// A budget report has a row for each row of the document, in their order, with its account, what
/// was spent and the goal; the totals are those of the document.
pub proof fn law_every_budget_row_is_read(j: JsonView, i: int)
    requires
        budget_in(j) is Ok,
    ensures
        ({
            let report = budget_in(j)->Ok_0;
            &&& member(j, "prRows"@) is Array
            &&& is_cell(member(member(j, "prTotals"@), "prrTotal"@), report.total_actual, report.total_goal)
            &&& report.rows.len() == member(j, "prRows"@)->Array_0.len()
            &&& 0 <= i < report.rows.len() ==> {
                let row = member(j, "prRows"@)->Array_0[i];
                &&& member(row, "prrName"@) == JsonView::Text(report.rows[i].account)
                &&& is_cell(member(row, "prrTotal"@), report.rows[i].actual, report.rows[i].goal)
            }
        }),
{
    let rows = member(j, "prRows"@)->Array_0;
    let read = Seq::new(rows.len(), |i: int| budget_row_in(rows[i]));
    law_all_or_the_first_error(read);
    if 0 <= i < rows.len() {
        assert(read[i] == budget_row_in(rows[i]));
    }
}

/// A transaction is what hledger wrote: its date, description and tags, each of its postings in
/// its place, with the account, and each amount of it in its place, with the exact quantity, the
/// commodity and how it is shown.
pub proof fn law_transaction_is_what_hledger_wrote(t: JsonTransaction, i: int, j: int)
    requires
        0 <= i < t.tpostings@.len(),
        0 <= j < t.tpostings@[i].pamount@.len(),
    ensures
        ({
            let read = transaction_from(t);
            let p = t.tpostings@[i];
            let a = p.pamount@[j];
            &&& read.date == t.tdate@ && read.description == t.tdescription@ && read.index == t.tindex
            &&& read.status == t.tstatus && read.comment == t.tcomment@
            &&& read.tags.len() == t.ttags@.len() && forall|k: int|
                0 <= k < read.tags.len() ==> #[trigger] read.tags[k] == (t.ttags@[k].0@, t.ttags@[k].1@)
            &&& read.postings.len() == t.tpostings@.len()
            &&& read.postings[i].account == p.paccount@
            &&& read.postings[i].comment == p.pcomment@
            &&& read.postings[i].tags.len() == p.ptags@.len() && forall|k: int|
                0 <= k < p.ptags@.len() ==> #[trigger] read.postings[i].tags[k] == (p.ptags@[k].0@, p.ptags@[k].1@)
            &&& read.postings[i].amounts.len() == p.pamount@.len()
            &&& read.postings[i].amounts[j].commodity == a.acommodity@
            &&& read.postings[i].amounts[j].quantity.mantissa == a.aquantity.mantissa
            &&& read.postings[i].amounts[j].quantity.places == a.aquantity.places
            &&& read.postings[i].amounts[j].commodity_left == (a.astyle.ascommodityside@ == "L"@)
            &&& read.postings[i].amounts[j].spaced == a.astyle.ascommodityspaced
        }),
{
}

} // verus!
