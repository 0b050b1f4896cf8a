//! Structured records as a persistence file holds them: nothing, truth
//! values, numbers, texts, lists and lists of named members.
//!
//! Turning a record into the text of a file and back is left to whoever owns
//! the file. A number comes with its readings, so that no floating-point
//! arithmetic is needed to read one.

use crate::float::Float;
use vstd::prelude::*;

verus! {

/// A number of a record, by the three ways in which it can be read.
#[derive(Debug, Clone, Copy, PartialEq, Eq, Structural)]
pub struct Number {
    /// The number as an unsigned integer, if it is a whole number that is not
    /// negative.
    pub unsigned: Option<u64>,
    /// The number as a signed integer, if it is a whole number in that range.
    pub signed: Option<i64>,
    /// The binary32 number nearest to the number.
    pub float: Float,
}

/// A record.
pub enum Json {
    Null,
    Bool(bool),
    Number(Number),
    String(String),
    Array(Vec<Json>),
    Object(Vec<Member>),
}

/// A named member of an object.
pub struct Member {
    pub key: String,
    pub value: Json,
}

/// What a record is.
pub enum JsonView {
    Null,
    Bool(bool),
    Number(Number),
    String(Seq<char>),
    Array(Seq<JsonView>),
    Object(Seq<(Seq<char>, JsonView)>),
}

/// What a record is: the record with every text and list taken by its view.
pub open spec fn json_view(j: Json) -> JsonView
    decreases j,
{
    match j {
        Json::Null => JsonView::Null,
        Json::Bool(b) => JsonView::Bool(b),
        Json::Number(n) => JsonView::Number(n),
        Json::String(s) => JsonView::String(s@),
        Json::Array(items) => JsonView::Array(
            Seq::new(
                items@.len(),
                |i: int|
                    if 0 <= i < items@.len() {
                        json_view(items@[i])
                    } else {
                        JsonView::Null
                    },
            ),
        ),
        Json::Object(members) => JsonView::Object(
            Seq::new(
                members@.len(),
                |i: int|
                    if 0 <= i < members@.len() {
                        (members@[i].key@, json_view(members@[i].value))
                    } else {
                        (Seq::empty(), JsonView::Null)
                    },
            ),
        ),
    }
}

impl View for Json {
    type V = JsonView;

    open spec fn view(&self) -> JsonView {
        json_view(*self)
    }
}

/// What the view of a list and of an object is, member by member.
pub proof fn lemma_view_unfold(j: Json)
    ensures
        j matches Json::Array(items) ==> j@ == JsonView::Array(views(items@)),
        j matches Json::Object(members) ==> j@ is Object && j@->Object_0.len() == members@.len()
            && forall|i: int|
            0 <= i < members@.len() ==> #[trigger] j@->Object_0[i] == (
                members@[i].key@,
                members@[i].value@,
            ),
{
    reveal_with_fuel(json_view, 2);
    match j {
        Json::Array(items) => {
            assert(j@->Array_0 =~= views(items@));
        },
        Json::Object(members) => {},
        _ => {},
    }
}

/// The views of a list of records, in order.
pub open spec fn views(items: Seq<Json>) -> Seq<JsonView> {
    Seq::new(items.len(), |i: int| items[i]@)
}

/// The value of the first of `members` from index `from` on that is named
/// `key`.
pub open spec fn lookup_from(members: Seq<(Seq<char>, JsonView)>, key: Seq<char>, from: int)
    -> Option<JsonView>
    decreases members.len() - from,
{
    if from < 0 || from >= members.len() {
        None
    } else if members[from].0 == key {
        Some(members[from].1)
    } else {
        lookup_from(members, key, from + 1)
    }
}

/// The index of the first of `members` from index `from` on that is named
/// `key`; the number of members if there is none.
pub open spec fn position_from(members: Seq<(Seq<char>, JsonView)>, key: Seq<char>, from: int)
    -> int
    decreases members.len() - from,
{
    if from < 0 || from >= members.len() {
        members.len() as int
    } else if members[from].0 == key {
        from
    } else {
        position_from(members, key, from + 1)
    }
}

impl Number {
    /// The readings of an unsigned word.
    pub open spec fn spec_from_u32(v: u32) -> Number {
        Number {
            unsigned: Some(v as u64),
            signed: Some(v as i64),
            float: Float::spec_from_u32(v),
        }
    }

    /// The readings of a signed word.
    pub open spec fn spec_from_i32(v: i32) -> Number {
        Number {
            unsigned: if v >= 0 {
                Some(v as u64)
            } else {
                None
            },
            signed: Some(v as i64),
            float: Float::spec_from_i32(v),
        }
    }

    /// The readings of a count.
    pub open spec fn spec_from_usize(v: usize) -> Number {
        Number {
            unsigned: Some(v as u64),
            signed: if v <= 0x7fff_ffff_ffff_ffff {
                Some(v as i64)
            } else {
                None
            },
            float: Float::spec_from_u64(v as u64),
        }
    }

    /// The readings of a binary32 number, which counts as no integer even
    /// where it is whole.
    pub open spec fn spec_from_float(v: Float) -> Number {
        Number { unsigned: None, signed: None, float: v }
    }

    /// The number as an unsigned word: its unsigned reading modulo 2^32.
    pub open spec fn spec_as_u32(self) -> Option<u32> {
        match self.unsigned {
            Some(v) => Some((v % 0x1_0000_0000) as u32),
            None => None,
        }
    }

    /// The number as a signed word: the signed word with the low 32 bits of
    /// its signed reading.
    pub open spec fn spec_as_i32(self) -> Option<i32> {
        match self.signed {
            Some(v) => Some(crate::bytes::bits_signed((v % 0x1_0000_0000) as u32)),
            None => None,
        }
    }

    /// The readings of an unsigned word.
    pub fn from_u32(v: u32) -> (n: Number)
        ensures
            n == Self::spec_from_u32(v),
    {
        Number { unsigned: Some(v as u64), signed: Some(v as i64), float: Float::from_u32(v) }
    }

    /// The readings of a signed word.
    pub fn from_i32(v: i32) -> (n: Number)
        ensures
            n == Self::spec_from_i32(v),
    {
        Number {
            unsigned: if v >= 0 {
                Some(v as u64)
            } else {
                None
            },
            signed: Some(v as i64),
            float: Float::from_i32(v),
        }
    }

    /// The readings of a binary32 number.
    pub fn from_float(v: Float) -> (n: Number)
        ensures
            n == Self::spec_from_float(v),
    {
        Number { unsigned: None, signed: None, float: v }
    }

    /// The number as an unsigned word, as a truncating cast of its unsigned
    /// reading gives it.
    pub fn as_u32(&self) -> (r: Option<u32>)
        ensures
            r == self.spec_as_u32(),
    {
        match self.unsigned {
            Some(v) => Some((v % 0x1_0000_0000) as u32),
            None => None,
        }
    }

    /// The number as a signed word, as a truncating cast of its signed
    /// reading gives it.
    pub fn as_i32(&self) -> (r: Option<i32>)
        ensures
            r == self.spec_as_i32(),
    {
        match self.signed {
            Some(v) => {
                let low: u32 = if v >= 0 {
                    (v % 0x1_0000_0000) as u32
                } else {
                    let below: i64 = v % 0x1_0000_0000;
                    if below == 0 {
                        0
                    } else {
                        (below + 0x1_0000_0000) as u32
                    }
                };
                Some(crate::bytes::bits_to_signed(low))
            },
            None => None,
        }
    }
}

impl JsonView {
    /// The value of the first member named `key`, if the record is an object
    /// that has one.
    pub open spec fn get(self, key: Seq<char>) -> Option<JsonView> {
        match self {
            JsonView::Object(members) => lookup_from(members, key, 0),
            _ => None,
        }
    }

    pub open spec fn as_str(self) -> Option<Seq<char>> {
        match self {
            JsonView::String(s) => Some(s),
            _ => None,
        }
    }

    pub open spec fn as_array(self) -> Option<Seq<JsonView>> {
        match self {
            JsonView::Array(items) => Some(items),
            _ => None,
        }
    }

    pub open spec fn as_number(self) -> Option<Number> {
        match self {
            JsonView::Number(n) => Some(n),
            _ => None,
        }
    }

    pub open spec fn as_bool(self) -> Option<bool> {
        match self {
            JsonView::Bool(b) => Some(b),
            _ => None,
        }
    }

    /// The record as an unsigned word.
    pub open spec fn as_u32(self) -> Option<u32> {
        match self {
            JsonView::Number(n) => n.spec_as_u32(),
            _ => None,
        }
    }

    /// The record as a signed word.
    pub open spec fn as_i32(self) -> Option<i32> {
        match self {
            JsonView::Number(n) => n.spec_as_i32(),
            _ => None,
        }
    }

    /// The record as a binary32 number.
    pub open spec fn as_float(self) -> Option<Float> {
        match self {
            JsonView::Number(n) => Some(n.float),
            _ => None,
        }
    }

    /// The record of a binary32 number: a number if it is finite, nothing if
    /// it is not.
    pub open spec fn of_float(v: Float) -> JsonView {
        if v.is_finite() {
            JsonView::Number(Number::spec_from_float(v))
        } else {
            JsonView::Null
        }
    }

    /// The object with `value` under `key`: in place of the first member of
    /// that name, or after the other members if there is none. A record that
    /// is no object counts as an object without members.
    pub open spec fn with_member(self, key: Seq<char>, value: JsonView) -> JsonView {
        let members = match self {
            JsonView::Object(members) => members,
            _ => Seq::empty(),
        };
        let at = position_from(members, key, 0);
        if at < members.len() {
            JsonView::Object(members.update(at, (key, value)))
        } else {
            JsonView::Object(members.push((key, value)))
        }
    }
}

/// Whether two texts are the same.
pub fn same_text(a: &str, b: &str) -> (r: bool)
    ensures
        r == (a@ == b@),
{
    let left = a.to_owned();
    let right = b.to_owned();
    left == right
}

impl Json {
    /// The record of a text.
    pub fn text(s: &str) -> (r: Json)
        ensures
            r@ == JsonView::String(s@),
    {
        Json::String(s.to_owned())
    }

    /// The record of an unsigned word.
    pub fn from_u32(v: u32) -> (r: Json)
        ensures
            r@ == JsonView::Number(Number::spec_from_u32(v)),
    {
        Json::Number(Number::from_u32(v))
    }

    /// The record of a signed word.
    pub fn from_i32(v: i32) -> (r: Json)
        ensures
            r@ == JsonView::Number(Number::spec_from_i32(v)),
    {
        Json::Number(Number::from_i32(v))
    }

    /// The record of a count.
    pub fn from_usize(v: usize) -> (r: Json)
        ensures
            r@ == JsonView::Number(Number::spec_from_usize(v)),
    {
        let as_signed: Option<i64> = if v as u64 <= 0x7fff_ffff_ffff_ffff {
            Some(v as i64)
        } else {
            None
        };
        Json::Number(
            Number { unsigned: Some(v as u64), signed: as_signed, float: Float::from_u64(v as u64) },
        )
    }

    /// The record of a binary32 number: a number if it is finite, nothing if
    /// it is not.
    pub fn from_float(v: Float) -> (r: Json)
        ensures
            r@ == JsonView::of_float(v),
    {
        if v.finite() {
            Json::Number(Number::from_float(v))
        } else {
            Json::Null
        }
    }

    /// The record of a list of binary32 numbers.
    pub fn float_array(values: &Vec<Float>) -> (r: Json)
        ensures
            r@ == JsonView::Array(Seq::new(values@.len(), |i: int| JsonView::of_float(values@[i]))),
    {
        let mut items: Vec<Json> = Vec::new();
        let mut i: usize = 0;
        while i < values.len()
            invariant
                i <= values@.len(),
                items@.len() == i,
                forall|j: int| 0 <= j < i ==> (#[trigger] items@[j])@ == JsonView::of_float(values@[j]),
            decreases values@.len() - i,
        {
            items.push(Json::from_float(values[i]));
            i = i + 1;
        }
        let r = Json::Array(items);
        proof {
            lemma_view_unfold(r);
            assert(r@->Array_0 =~= Seq::new(
                values@.len(),
                |i: int| JsonView::of_float(values@[i]),
            ));
        }
        r
    }

    /// The value of the first member named `key`, if the record is an object
    /// that has one.
    pub fn get(&self, key: &str) -> (r: Option<&Json>)
        ensures
            match r {
                Some(j) => self@.get(key@) == Some(j@),
                None => self@.get(key@) is None,
            },
    {
        match self {
            Json::Object(members) => {
                let mut i: usize = 0;
                proof {
                    lemma_view_unfold(*self);
                }
                while i < members.len()
                    invariant
                        i <= members@.len(),
                        self@ is Object,
                        self@->Object_0.len() == members@.len(),
                        forall|j: int|
                            0 <= j < members@.len() ==> #[trigger] self@->Object_0[j] == (
                                members@[j].key@,
                                members@[j].value@,
                            ),
                        lookup_from(self@->Object_0, key@, 0) == lookup_from(
                            self@->Object_0,
                            key@,
                            i as int,
                        ),
                    decreases members@.len() - i,
                {
                    if same_text(members[i].key.as_str(), key) {
                        return Some(&members[i].value);
                    }
                    i = i + 1;
                }
                None
            },
            _ => None,
        }
    }

    /// Puts `value` under `key`: in place of the first member of that name,
    /// or after the other members if there is none. A record that is no
    /// object is replaced by an object with that one member.
    pub fn insert(self, key: &str, value: Json) -> (r: Json)
        ensures
            r@ == self@.with_member(key@, value@),
    {
        proof {
            lemma_view_unfold(self);
        }
        let ghost before = self@;
        let mut members: Vec<Member> = match self {
            Json::Object(members) => members,
            _ => Vec::new(),
        };
        let ghost views = Seq::new(members@.len(), |i: int| (members@[i].key@, members@[i].value@));
        assert(views =~= match before {
            JsonView::Object(m) => m,
            _ => Seq::empty(),
        });
        let mut i: usize = 0;
        while i < members.len()
            invariant
                i <= members@.len(),
                views == Seq::new(members@.len(), |i: int| (members@[i].key@, members@[i].value@)),
                before == self@,
                views == (match before {
                    JsonView::Object(m) => m,
                    _ => Seq::empty(),
                }),
                position_from(views, key@, 0) == position_from(views, key@, i as int),
            decreases members@.len() - i,
        {
            if same_text(members[i].key.as_str(), key) {
                let ghost new_value = value@;
                members[i] = Member { key: key.to_owned(), value };
                let r = Json::Object(members);
                proof {
                    lemma_view_unfold(r);
                    assert(r@->Object_0 =~= views.update(i as int, (key@, new_value)));
                }
                return r;
            }
            i = i + 1;
        }
        let ghost new_value = value@;
        members.push(Member { key: key.to_owned(), value });
        let r = Json::Object(members);
        proof {
            lemma_view_unfold(r);
            assert(r@->Object_0 =~= views.push((key@, new_value)));
        }
        r
    }

    /// The text, if the record is one.
    pub fn as_str(&self) -> (r: Option<&str>)
        ensures
            match r {
                Some(s) => self@.as_str() == Some(s@),
                None => self@.as_str() is None,
            },
    {
        match self {
            Json::String(s) => Some(s.as_str()),
            _ => None,
        }
    }

    /// The items, if the record is a list.
    pub fn as_array(&self) -> (r: Option<&Vec<Json>>)
        ensures
            match r {
                Some(items) => self@.as_array() == Some(views(items@)),
                None => self@.as_array() is None,
            },
    {
        match self {
            Json::Array(items) => {
                proof {
                    lemma_view_unfold(*self);
                }
                Some(items)
            },
            _ => None,
        }
    }

    /// Whether the record is an object.
    pub fn is_object(&self) -> (r: bool)
        ensures
            r == (self@ is Object),
    {
        match self {
            Json::Object(_) => true,
            _ => false,
        }
    }

    /// The truth value, if the record is one.
    pub fn as_bool(&self) -> (r: Option<bool>)
        ensures
            r == self@.as_bool(),
    {
        match self {
            Json::Bool(b) => Some(*b),
            _ => None,
        }
    }

    /// The unsigned reading, if the record is a number that has one.
    pub fn as_u64(&self) -> (r: Option<u64>)
        ensures
            r == (match self@ {
                JsonView::Number(n) => n.unsigned,
                _ => None,
            }),
    {
        match self {
            Json::Number(n) => n.unsigned,
            _ => None,
        }
    }

    /// The record as an unsigned word.
    pub fn as_u32(&self) -> (r: Option<u32>)
        ensures
            r == self@.as_u32(),
    {
        match self {
            Json::Number(n) => n.as_u32(),
            _ => None,
        }
    }

    /// The record as a signed word.
    pub fn as_i32(&self) -> (r: Option<i32>)
        ensures
            r == self@.as_i32(),
    {
        match self {
            Json::Number(n) => n.as_i32(),
            _ => None,
        }
    }

    /// The record as a binary32 number.
    pub fn as_float(&self) -> (r: Option<Float>)
        ensures
            r == self@.as_float(),
    {
        match self {
            Json::Number(n) => Some(n.float),
            _ => None,
        }
    }
}

/// Before the first member named `key` no member is named `key`, and a
/// lookup from any index up to it finds it.
pub proof fn lemma_position(members: Seq<(Seq<char>, JsonView)>, key: Seq<char>, from: int)
    requires
        0 <= from <= members.len(),
    ensures
        from <= position_from(members, key, from) <= members.len(),
        position_from(members, key, from) < members.len() ==> members[position_from(
            members,
            key,
            from,
        )].0 == key,
        lookup_from(members, key, from) == if position_from(members, key, from) < members.len() {
            Some(members[position_from(members, key, from)].1)
        } else {
            None
        },
        forall|i: int| from <= i < position_from(members, key, from) ==> members[i].0 != key,
    decreases members.len() - from,
{
    if from < members.len() && members[from].0 != key {
        lemma_position(members, key, from + 1);
    }
}

/// A lookup depends only on the members up to the first of the name looked
/// for.
pub proof fn lemma_lookup_prefix(
    a: Seq<(Seq<char>, JsonView)>,
    b: Seq<(Seq<char>, JsonView)>,
    key: Seq<char>,
    at: int,
    from: int,
)
    requires
        0 <= from <= at < a.len(),
        at < b.len(),
        forall|i: int| from <= i < at ==> a[i].0 != key && b[i].0 != key,
        b[at].0 == key,
    ensures
        lookup_from(b, key, from) == Some(b[at].1),
    decreases at - from,
{
    if from < at {
        lemma_lookup_prefix(a, b, key, at, from + 1);
    }
}

/// What is put under a name is found under that name.
pub proof fn lemma_get_with_member(j: JsonView, key: Seq<char>, value: JsonView)
    ensures
        j.with_member(key, value).get(key) == Some(value),
{
    let members = match j {
        JsonView::Object(members) => members,
        _ => Seq::empty(),
    };
    lemma_position(members, key, 0);
    let at = position_from(members, key, 0);
    let after = j.with_member(key, value)->Object_0;
    if at < members.len() {
        assert forall|i: int| 0 <= i < at implies members[i].0 != key && after[i].0 != key by {}
        lemma_lookup_prefix(members, after, key, at, 0);
    } else {
        let padded = members.push((key, value));
        assert forall|i: int| 0 <= i < at implies padded[i].0 != key && after[i].0 != key by {}
        lemma_lookup_prefix(padded, after, key, at, 0);
    }
}

} // verus!
