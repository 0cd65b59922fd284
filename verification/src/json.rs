//! A JSON document model that the library reads and builds, with its compact
//! text encoding.
//!
//! Numbers are held as unsigned or negative integers; any other number keeps
//! its decimal text. Object members keep their order: a record serializes its
//! fields in declaration order, and lookups return the first member with the
//! requested key.

use vstd::prelude::*;
use crate::text::{concat2, push_char, strs};
use crate::model::ov;

verus! {

/// One JSON value.
pub enum JsonValue {
    Null,
    Bool(bool),
    UInt(u64),
    NegInt(i64),
    Float(String),
    Str(String),
    Array(Vec<JsonValue>),
    Object(Vec<JsonMember>),
}

/// One member of a JSON object.
pub struct JsonMember {
    pub key: String,
    pub value: JsonValue,
}

/// The first member of `members` with key `key`.
pub open spec fn members_get(members: Seq<JsonMember>, key: Seq<char>) -> Option<JsonValue>
    decreases members.len(),
{
    if members.len() == 0 {
        None
    } else if members[0].key@ == key {
        Some(members[0].value)
    } else {
        members_get(members.drop_first(), key)
    }
}

/// The value of field `key` of an object; nothing for any other value.
pub open spec fn json_get(v: JsonValue, key: Seq<char>) -> Option<JsonValue> {
    match v {
        JsonValue::Object(members) => members_get(members@, key),
        _ => None,
    }
}

/// The text of a string value.
pub open spec fn json_str(v: JsonValue) -> Option<Seq<char>> {
    match v {
        JsonValue::Str(s) => Some(s@),
        _ => None,
    }
}

/// The boolean of a boolean value.
pub open spec fn json_bool(v: JsonValue) -> Option<bool> {
    match v {
        JsonValue::Bool(b) => Some(b),
        _ => None,
    }
}

/// The number of a value that holds an unsigned integer.
pub open spec fn json_u64(v: JsonValue) -> Option<u64> {
    match v {
        JsonValue::UInt(n) => Some(n),
        _ => None,
    }
}

/// The signed integer of a value that holds an integer within `i64`.
pub open spec fn json_i64(v: JsonValue) -> Option<i64> {
    match v {
        JsonValue::UInt(n) => if n <= i64::MAX { Some(n as i64) } else { None },
        JsonValue::NegInt(n) => Some(n),
        _ => None,
    }
}

/// The signed integer of field `key`, when present and one.
pub open spec fn field_i64(v: JsonValue, key: Seq<char>) -> Option<i64> {
    match json_get(v, key) {
        Some(f) => json_i64(f),
        None => None,
    }
}

/// The text of string field `key`, when present and a string.
pub open spec fn field_str(v: JsonValue, key: Seq<char>) -> Option<Seq<char>> {
    match json_get(v, key) {
        Some(f) => json_str(f),
        None => None,
    }
}

/// The boolean of field `key`, when present and a boolean.
pub open spec fn field_bool(v: JsonValue, key: Seq<char>) -> Option<bool> {
    match json_get(v, key) {
        Some(f) => json_bool(f),
        None => None,
    }
}

/// The unsigned integer of field `key`, when present and one.
pub open spec fn field_u64(v: JsonValue, key: Seq<char>) -> Option<u64> {
    match json_get(v, key) {
        Some(f) => json_u64(f),
        None => None,
    }
}

/// A decimal digit.
pub open spec fn digit_char(d: nat) -> char {
    if d == 0 { '0' } else if d == 1 { '1' } else if d == 2 { '2' } else if d == 3 { '3' }
    else if d == 4 { '4' } else if d == 5 { '5' } else if d == 6 { '6' } else if d == 7 { '7' }
    else if d == 8 { '8' } else { '9' }
}

/// A lowercase hexadecimal digit.
pub open spec fn hex_char(d: nat) -> char {
    if d < 10 { digit_char(d) } else if d == 10 { 'a' } else if d == 11 { 'b' }
    else if d == 12 { 'c' } else if d == 13 { 'd' } else if d == 14 { 'e' } else { 'f' }
}

/// The decimal text of a natural number.
pub open spec fn decimal(n: nat) -> Seq<char>
    decreases n,
{
    if n < 10 {
        seq![digit_char(n)]
    } else {
        decimal(n / 10).push(digit_char(n % 10))
    }
}

/// How a string literal escapes one character.
pub open spec fn escape_char(c: char) -> Seq<char> {
    let u = c as u32;
    if c == '"' {
        seq!['\\', '"']
    } else if c == '\\' {
        seq!['\\', '\\']
    } else if u == 0x08u32 {
        seq!['\\', 'b']
    } else if u == 0x0Cu32 {
        seq!['\\', 'f']
    } else if c == '\n' {
        seq!['\\', 'n']
    } else if c == '\r' {
        seq!['\\', 'r']
    } else if c == '\t' {
        seq!['\\', 't']
    } else if u < 0x20u32 {
        seq!['\\', 'u', '0', '0', hex_char((u / 16) as nat), hex_char((u % 16) as nat)]
    } else {
        seq![c]
    }
}

/// The escaped body of a string literal.
pub open spec fn escape(s: Seq<char>) -> Seq<char>
    decreases s.len(),
{
    if s.len() == 0 {
        Seq::empty()
    } else {
        escape(s.drop_last()) + escape_char(s.last())
    }
}

/// A quoted string literal.
pub open spec fn quoted(s: Seq<char>) -> Seq<char> {
    seq!['"'] + escape(s) + seq!['"']
}

/// The compact text of a value.
pub open spec fn json_text(v: JsonValue) -> Seq<char>
    decreases v,
{
    match v {
        JsonValue::Null => "null"@,
        JsonValue::Bool(b) => if b { "true"@ } else { "false"@ },
        JsonValue::UInt(n) => decimal(n as nat),
        JsonValue::NegInt(n) => if n < 0 { seq!['-'] + decimal((-n) as nat) } else { decimal(n as nat) },
        JsonValue::Float(t) => t@,
        JsonValue::Str(s) => quoted(s@),
        JsonValue::Array(items) => seq!['['] + items_text(items@) + seq![']'],
        JsonValue::Object(members) => seq!['{'] + members_text(members@) + seq!['}'],
    }
}

/// The comma-separated texts of array items.
pub open spec fn items_text(items: Seq<JsonValue>) -> Seq<char>
    decreases items,
{
    if items.len() == 0 {
        Seq::empty()
    } else if items.len() == 1 {
        json_text(items[0])
    } else {
        items_text(items.drop_last()) + seq![','] + json_text(items.last())
    }
}

/// The text of one object member.
pub open spec fn member_text(m: JsonMember) -> Seq<char>
    decreases m,
{
    quoted(m.key@) + seq![':'] + json_text(m.value)
}

/// The comma-separated texts of object members.
pub open spec fn members_text(members: Seq<JsonMember>) -> Seq<char>
    decreases members,
{
    if members.len() == 0 {
        Seq::empty()
    } else if members.len() == 1 {
        quoted(members[0].key@) + seq![':'] + json_text(members[0].value)
    } else {
        members_text(members.drop_last()) + seq![','] + quoted(members.last().key@) + seq![':']
            + json_text(members.last().value)
    }
}

impl JsonValue {
    /// The value of field `key` of an object.
    pub fn get(&self, key: &str) -> (r: Option<&JsonValue>)
        ensures
            match r {
                Some(f) => json_get(*self, key@) == Some(*f),
                None => json_get(*self, key@) is None,
            },
    {
        match self {
            JsonValue::Object(members) => {
                let mut i: usize = 0;
                assert(members@.skip(0) =~= members@);
                while i < members.len()
                    invariant
                        i <= members@.len(),
                        *self == JsonValue::Object(*members),
                        members_get(members@, key@) == members_get(members@.skip(i as int), key@),
                    decreases members@.len() - i,
                {
                    assert(members@.skip(i as int).drop_first() =~= members@.skip(i + 1));
                    if crate::text::str_equal(members[i].key.as_str(), key) {
                        return Some(&members[i].value);
                    }
                    i = i + 1;
                }
                None
            },
            _ => None,
        }
    }

    /// The text of a string value.
    pub fn as_str(&self) -> (r: Option<&str>)
        ensures
            match r {
                Some(s) => json_str(*self) == Some(s@),
                None => json_str(*self) is None,
            },
    {
        match self {
            JsonValue::Str(s) => Some(s.as_str()),
            _ => None,
        }
    }

    /// The boolean of a boolean value.
    pub fn as_bool(&self) -> (r: Option<bool>)
        ensures
            r == json_bool(*self),
    {
        match self {
            JsonValue::Bool(b) => Some(*b),
            _ => None,
        }
    }

    /// The number of an unsigned integer value.
    pub fn as_u64(&self) -> (r: Option<u64>)
        ensures
            r == json_u64(*self),
    {
        match self {
            JsonValue::UInt(n) => Some(*n),
            _ => None,
        }
    }

    /// The signed integer of an integer value within `i64`.
    pub fn as_i64(&self) -> (r: Option<i64>)
        ensures
            r == json_i64(*self),
    {
        match self {
            JsonValue::UInt(n) => if *n <= 9223372036854775807u64 { Some(*n as i64) } else { None },
            JsonValue::NegInt(n) => Some(*n),
            _ => None,
        }
    }

    /// The signed integer of field `key`.
    pub fn field_i64(&self, key: &str) -> (r: Option<i64>)
        ensures
            r == field_i64(*self, key@),
    {
        match self.get(key) {
            Some(f) => f.as_i64(),
            None => None,
        }
    }

    /// The text of string field `key`.
    pub fn field_str(&self, key: &str) -> (r: Option<&str>)
        ensures
            match r {
                Some(s) => field_str(*self, key@) == Some(s@),
                None => field_str(*self, key@) is None,
            },
    {
        match self.get(key) {
            Some(f) => f.as_str(),
            None => None,
        }
    }

    /// The boolean of field `key`.
    pub fn field_bool(&self, key: &str) -> (r: Option<bool>)
        ensures
            r == field_bool(*self, key@),
    {
        match self.get(key) {
            Some(f) => f.as_bool(),
            None => None,
        }
    }

    /// The unsigned integer of field `key`.
    pub fn field_u64(&self, key: &str) -> (r: Option<u64>)
        ensures
            r == field_u64(*self, key@),
    {
        match self.get(key) {
            Some(f) => f.as_u64(),
            None => None,
        }
    }

    /// A string value.
    pub fn string(s: &str) -> (r: JsonValue)
        ensures
            r matches JsonValue::Str(t) && t@ == s@,
    {
        JsonValue::Str(s.to_owned())
    }
}

/// Whether two values are the same JSON: same kind, equal scalars and
/// texts, and pairwise the same items or members in order.
pub open spec fn json_same(a: JsonValue, b: JsonValue) -> bool
    decreases a,
{
    match a {
        JsonValue::Array(xs) => match b {
            JsonValue::Array(ys) => items_same(xs@, ys@),
            _ => false,
        },
        JsonValue::Object(xm) => match b {
            JsonValue::Object(ym) => members_same(xm@, ym@),
            _ => false,
        },
        JsonValue::Str(x) => match b {
            JsonValue::Str(y) => x@ == y@,
            _ => false,
        },
        JsonValue::Float(x) => match b {
            JsonValue::Float(y) => x@ == y@,
            _ => false,
        },
        JsonValue::Null => b is Null,
        JsonValue::Bool(x) => b == JsonValue::Bool(x),
        JsonValue::UInt(x) => b == JsonValue::UInt(x),
        JsonValue::NegInt(x) => b == JsonValue::NegInt(x),
    }
}

/// Whether two item lists are pairwise the same JSON.
pub open spec fn items_same(xs: Seq<JsonValue>, ys: Seq<JsonValue>) -> bool
    decreases xs,
{
    if xs.len() == 0 {
        ys.len() == 0
    } else {
        ys.len() == xs.len() && items_same(xs.drop_last(), ys.drop_last()) && json_same(
            xs[xs.len() - 1],
            ys[ys.len() - 1],
        )
    }
}

/// Whether two member lists have pairwise equal keys and the same values.
pub open spec fn members_same(xm: Seq<JsonMember>, ym: Seq<JsonMember>) -> bool
    decreases xm,
{
    if xm.len() == 0 {
        ym.len() == 0
    } else {
        ym.len() == xm.len() && members_same(xm.drop_last(), ym.drop_last()) && xm[xm.len() - 1].key@ == ym[ym.len()
            - 1].key@ && json_same(xm[xm.len() - 1].value, ym[ym.len() - 1].value)
    }
}

/// A copy of a value: the same JSON.
pub fn copy_value(v: &JsonValue) -> (r: JsonValue)
    ensures
        json_same(r, *v),
    decreases *v,
{
    match v {
        JsonValue::Null => JsonValue::Null,
        JsonValue::Bool(b) => JsonValue::Bool(*b),
        JsonValue::UInt(n) => JsonValue::UInt(*n),
        JsonValue::NegInt(n) => JsonValue::NegInt(*n),
        JsonValue::Float(t) => JsonValue::Float(t.clone()),
        JsonValue::Str(t) => JsonValue::Str(t.clone()),
        JsonValue::Array(xs) => {
            let mut out: Vec<JsonValue> = Vec::new();
            let mut i: usize = 0;
            while i < xs.len()
                invariant
                    i <= xs@.len(),
                    *v == JsonValue::Array(*xs),
                    out@.len() == i,
                    items_same(out@, xs@.take(i as int)),
                decreases xs@.len() - i,
            {
                proof {
                    assert(decreases_to!(*v => v->Array_0));
                    assert(decreases_to!(*xs => xs@));
                    assert(decreases_to!(xs@ => xs@[i as int]));
                }
                let c = copy_value(&xs[i]);
                let ghost before = out@;
                out.push(c);
                assert(out@.drop_last() =~= before);
                assert(xs@.take(i + 1).drop_last() =~= xs@.take(i as int));
                i = i + 1;
            }
            assert(xs@.take(xs@.len() as int) =~= xs@);
            JsonValue::Array(out)
        },
        JsonValue::Object(xm) => {
            let mut out: Vec<JsonMember> = Vec::new();
            let mut i: usize = 0;
            while i < xm.len()
                invariant
                    i <= xm@.len(),
                    *v == JsonValue::Object(*xm),
                    out@.len() == i,
                    members_same(out@, xm@.take(i as int)),
                decreases xm@.len() - i,
            {
                proof {
                    assert(decreases_to!(*v => v->Object_0));
                    assert(decreases_to!(*xm => xm@));
                    assert(decreases_to!(xm@ => xm@[i as int]));
                    assert(decreases_to!(xm@[i as int] => xm@[i as int].value));
                }
                let c = copy_value(&xm[i].value);
                let m = JsonMember { key: xm[i].key.clone(), value: c };
                let ghost before = out@;
                out.push(m);
                assert(out@.drop_last() =~= before);
                assert(xm@.take(i + 1).drop_last() =~= xm@.take(i as int));
                i = i + 1;
            }
            assert(xm@.take(xm@.len() as int) =~= xm@);
            JsonValue::Object(out)
        },
    }
}

/// Whether two values are the same JSON.
pub fn json_equal(a: &JsonValue, b: &JsonValue) -> (r: bool)
    ensures
        r == json_same(*a, *b),
    decreases *a,
{
    match (a, b) {
        (JsonValue::Null, JsonValue::Null) => true,
        (JsonValue::Bool(x), JsonValue::Bool(y)) => *x == *y,
        (JsonValue::UInt(x), JsonValue::UInt(y)) => *x == *y,
        (JsonValue::NegInt(x), JsonValue::NegInt(y)) => *x == *y,
        (JsonValue::Float(x), JsonValue::Float(y)) => crate::text::str_equal(x.as_str(), y.as_str()),
        (JsonValue::Str(x), JsonValue::Str(y)) => crate::text::str_equal(x.as_str(), y.as_str()),
        (JsonValue::Array(xs), JsonValue::Array(ys)) => {
            if xs.len() != ys.len() {
                proof {
                    lemma_items_same_len(xs@, ys@);
                }
                return false;
            }
            let mut i: usize = 0;
            while i < xs.len()
                invariant
                    i <= xs@.len(),
                    xs@.len() == ys@.len(),
                    *a == JsonValue::Array(*xs),
                    *b == JsonValue::Array(*ys),
                    items_same(xs@.take(i as int), ys@.take(i as int)),
                decreases xs@.len() - i,
            {
                proof {
                    assert(decreases_to!(*a => a->Array_0));
                    assert(decreases_to!(*xs => xs@));
                    assert(decreases_to!(xs@ => xs@[i as int]));
                }
                let same = json_equal(&xs[i], &ys[i]);
                assert(xs@.take(i + 1).drop_last() =~= xs@.take(i as int));
                assert(ys@.take(i + 1).drop_last() =~= ys@.take(i as int));
                if !same {
                    proof {
                        assert(xs@.take(i + 1)[i as int] == xs@[i as int]);
                        assert(ys@.take(i + 1)[i as int] == ys@[i as int]);
                        assert(!items_same(xs@.take(i + 1), ys@.take(i + 1)));
                        lemma_items_same_prefix(xs@, ys@, i + 1);
                        assert(json_same(*a, *b) == items_same(xs@, ys@));
                    }
                    return false;
                }
                i = i + 1;
            }
            assert(xs@.take(xs@.len() as int) =~= xs@);
            assert(ys@.take(ys@.len() as int) =~= ys@);
            true
        },
        (JsonValue::Object(xm), JsonValue::Object(ym)) => {
            if xm.len() != ym.len() {
                proof {
                    lemma_members_same_len(xm@, ym@);
                }
                return false;
            }
            let mut i: usize = 0;
            while i < xm.len()
                invariant
                    i <= xm@.len(),
                    xm@.len() == ym@.len(),
                    *a == JsonValue::Object(*xm),
                    *b == JsonValue::Object(*ym),
                    members_same(xm@.take(i as int), ym@.take(i as int)),
                decreases xm@.len() - i,
            {
                proof {
                    assert(decreases_to!(*a => a->Object_0));
                    assert(decreases_to!(*xm => xm@));
                    assert(decreases_to!(xm@ => xm@[i as int]));
                    assert(decreases_to!(xm@[i as int] => xm@[i as int].value));
                }
                let same = crate::text::str_equal(xm[i].key.as_str(), ym[i].key.as_str()) && json_equal(
                    &xm[i].value,
                    &ym[i].value,
                );
                assert(xm@.take(i + 1).drop_last() =~= xm@.take(i as int));
                assert(ym@.take(i + 1).drop_last() =~= ym@.take(i as int));
                if !same {
                    proof {
                        assert(xm@.take(i + 1)[i as int] == xm@[i as int]);
                        assert(ym@.take(i + 1)[i as int] == ym@[i as int]);
                        assert(!members_same(xm@.take(i + 1), ym@.take(i + 1)));
                        lemma_members_same_prefix(xm@, ym@, i + 1);
                        assert(json_same(*a, *b) == members_same(xm@, ym@));
                    }
                    return false;
                }
                i = i + 1;
            }
            assert(xm@.take(xm@.len() as int) =~= xm@);
            assert(ym@.take(ym@.len() as int) =~= ym@);
            true
        },
        _ => false,
    }
}

/// Lists that are the same have the same length.
proof fn lemma_items_same_len(xs: Seq<JsonValue>, ys: Seq<JsonValue>)
    ensures
        items_same(xs, ys) ==> xs.len() == ys.len(),
    decreases xs.len(),
{
}

/// Member lists that are the same have the same length.
proof fn lemma_members_same_len(xm: Seq<JsonMember>, ym: Seq<JsonMember>)
    ensures
        members_same(xm, ym) ==> xm.len() == ym.len(),
    decreases xm.len(),
{
}

/// Lists that are the same are the same on every prefix.
proof fn lemma_items_same_prefix(xs: Seq<JsonValue>, ys: Seq<JsonValue>, n: int)
    requires
        0 <= n <= xs.len(),
        xs.len() == ys.len(),
    ensures
        items_same(xs, ys) ==> items_same(xs.take(n), ys.take(n)),
    decreases xs.len() - n,
{
    if n < xs.len() {
        assert(xs.drop_last().take(n) =~= xs.take(n));
        assert(ys.drop_last().take(n) =~= ys.take(n));
        lemma_items_same_prefix(xs.drop_last(), ys.drop_last(), n);
    } else {
        assert(xs.take(n) =~= xs);
        assert(ys.take(n) =~= ys);
    }
}

/// Member lists that are the same are the same on every prefix.
proof fn lemma_members_same_prefix(xm: Seq<JsonMember>, ym: Seq<JsonMember>, n: int)
    requires
        0 <= n <= xm.len(),
        xm.len() == ym.len(),
    ensures
        members_same(xm, ym) ==> members_same(xm.take(n), ym.take(n)),
    decreases xm.len() - n,
{
    if n < xm.len() {
        assert(xm.drop_last().take(n) =~= xm.take(n));
        assert(ym.drop_last().take(n) =~= ym.take(n));
        lemma_members_same_prefix(xm.drop_last(), ym.drop_last(), n);
    } else {
        assert(xm.take(n) =~= xm);
        assert(ym.take(n) =~= ym);
    }
}

/// Replacing the first member with a key keeps every other key's value.
proof fn lemma_members_get_update(m: Seq<JsonMember>, i: int, x: JsonMember, k: Seq<char>)
    requires
        0 <= i < m.len(),
        m[i].key@ == x.key@,
        forall|j: int| 0 <= j < i ==> (#[trigger] m[j]).key@ != x.key@,
    ensures
        members_get(m.update(i, x), k) == if k == x.key@ { Some(x.value) } else { members_get(m, k) },
    decreases m.len(),
{
    let u = m.update(i, x);
    if i > 0 {
        assert(u[0] == m[0]);
        assert(u.drop_first() =~= m.drop_first().update(i - 1, x));
        assert forall|j: int| 0 <= j < i - 1 implies (#[trigger] m.drop_first()[j]).key@ != x.key@ by {
            assert(m.drop_first()[j] == m[j + 1]);
        }
        assert(m.drop_first()[i - 1] == m[i]);
        lemma_members_get_update(m.drop_first(), i - 1, x, k);
        assert(m[0].key@ != x.key@);
    } else {
        assert(u[0] == x);
        assert(u.drop_first() =~= m.drop_first());
    }
}

/// Appending a member with a new key keeps every other key's value.
proof fn lemma_members_get_push(m: Seq<JsonMember>, x: JsonMember, k: Seq<char>)
    requires
        forall|j: int| 0 <= j < m.len() ==> (#[trigger] m[j]).key@ != x.key@,
    ensures
        members_get(m.push(x), k) == if k == x.key@ { Some(x.value) } else { members_get(m, k) },
    decreases m.len(),
{
    let p = m.push(x);
    if m.len() > 0 {
        assert(p[0] == m[0]);
        assert(m[0].key@ != x.key@);
        assert(p.drop_first() =~= m.drop_first().push(x));
        assert forall|j: int| 0 <= j < m.drop_first().len() implies (#[trigger] m.drop_first()[j]).key@ != x.key@ by {
            assert(m.drop_first()[j] == m[j + 1]);
        }
        lemma_members_get_push(m.drop_first(), x, k);
    } else {
        assert(p[0] == x);
        assert(p.drop_first() =~= Seq::<JsonMember>::empty());
        assert(members_get(p.drop_first(), k) is None);
        assert(members_get(m, k) is None);
    }
}

/// Sets member `key` of an object to `value`, replacing its first
/// occurrence or appending it; every other member keeps its value.
pub fn set_member(v: &mut JsonValue, key: &str, value: JsonValue)
    requires
        *old(v) is Object,
    ensures
        *final(v) is Object,
        json_get(*final(v), key@) == Some(value),
        forall|k: Seq<char>| k != key@ ==> #[trigger] json_get(*final(v), k) == json_get(*old(v), k),
{
    let mut taken = JsonValue::Null;
    core::mem::swap(v, &mut taken);
    let mut members = match taken {
        JsonValue::Object(members) => members,
        _ => Vec::new(),
    };
    let ghost before = members@;
    assert(forall|k: Seq<char>| #[trigger] json_get(*old(v), k) == members_get(before, k));
    let member = JsonMember { key: crate::text::owned(key), value };
    let ghost gm = member;
    let mut i: usize = 0;
    while i < members.len()
        invariant
            i <= members@.len(),
            members@ == before,
            gm.key@ == key@,
            gm.value == value,
            member == gm,
            forall|k: Seq<char>| #[trigger] json_get(*old(v), k) == members_get(before, k),
            forall|j: int| 0 <= j < i ==> (#[trigger] members@[j]).key@ != key@,
        decreases members@.len() - i,
    {
        if crate::text::str_equal(members[i].key.as_str(), key) {
            assert(before[i as int].key@ == gm.key@);
            members.set(i, member);
            let ghost after = members@;
            assert(after == before.update(i as int, gm));
            *v = JsonValue::Object(members);
            assert(forall|k: Seq<char>| #[trigger] json_get(*v, k) == members_get(after, k));
            assert(json_get(*v, key@) == Some(value)) by {
                lemma_members_get_update(before, i as int, gm, key@);
            }
            assert forall|k: Seq<char>| k != key@ implies #[trigger] json_get(*v, k) == json_get(*old(v), k) by {
                lemma_members_get_update(before, i as int, gm, k);
            }
            return;
        }
        i = i + 1;
    }
    members.push(member);
    *v = JsonValue::Object(members);
    assert(json_get(*v, key@) == Some(value)) by {
        lemma_members_get_push(before, gm, key@);
    }
    assert forall|k: Seq<char>| k != key@ implies #[trigger] json_get(*v, k) == json_get(*old(v), k) by {
        lemma_members_get_push(before, gm, k);
    }
}

/// Appends the decimal text of `n`.
pub fn push_decimal(out: &mut String, n: u64)
    ensures
        final(out)@ == old(out)@ + decimal(n as nat),
    decreases n,
{
    if n >= 10 {
        push_decimal(out, n / 10);
    }
    let d = n % 10;
    let c = if d == 0 { '0' } else if d == 1 { '1' } else if d == 2 { '2' } else if d == 3 { '3' }
        else if d == 4 { '4' } else if d == 5 { '5' } else if d == 6 { '6' } else if d == 7 { '7' }
        else if d == 8 { '8' } else { '9' };
    push_char(out, c);
}

/// A lowercase hexadecimal digit.
pub fn hex_digit(d: u32) -> (c: char)
    requires
        d < 16,
    ensures
        c == hex_char(d as nat),
{
    if d == 0 { '0' } else if d == 1 { '1' } else if d == 2 { '2' } else if d == 3 { '3' }
    else if d == 4 { '4' } else if d == 5 { '5' } else if d == 6 { '6' } else if d == 7 { '7' }
    else if d == 8 { '8' } else if d == 9 { '9' } else if d == 10 { 'a' } else if d == 11 { 'b' }
    else if d == 12 { 'c' } else if d == 13 { 'd' } else if d == 14 { 'e' } else { 'f' }
}

/// Appends the escaped form of one character.
pub fn push_escaped_char(out: &mut String, c: char)
    ensures
        final(out)@ == old(out)@ + escape_char(c),
{
    let u = c as u32;
    if c == '"' {
        push_char(out, '\\');
        push_char(out, '"');
    } else if c == '\\' {
        push_char(out, '\\');
        push_char(out, '\\');
    } else if u == 0x08u32 {
        push_char(out, '\\');
        push_char(out, 'b');
    } else if u == 0x0Cu32 {
        push_char(out, '\\');
        push_char(out, 'f');
    } else if c == '\n' {
        push_char(out, '\\');
        push_char(out, 'n');
    } else if c == '\r' {
        push_char(out, '\\');
        push_char(out, 'r');
    } else if c == '\t' {
        push_char(out, '\\');
        push_char(out, 't');
    } else if u < 0x20u32 {
        push_char(out, '\\');
        push_char(out, 'u');
        push_char(out, '0');
        push_char(out, '0');
        push_char(out, hex_digit(u / 16));
        push_char(out, hex_digit(u % 16));
    } else {
        push_char(out, c);
    }
    assert(final(out)@ =~= old(out)@ + escape_char(c)) by {
        let ghost e = escape_char(c);
    }
}

/// Appends a quoted string literal.
pub fn push_quoted(out: &mut String, s: &str)
    ensures
        final(out)@ == old(out)@ + quoted(s@),
{
    let ghost start = out@;
    push_char(out, '"');
    let chars = crate::text::chars_of(s);
    let mut i: usize = 0;
    while i < chars.len()
        invariant
            i <= chars@.len(),
            chars@ == s@,
            out@ == start + seq!['"'] + escape(s@.take(i as int)),
        decreases chars@.len() - i,
    {
        assert(s@.take(i + 1).drop_last() =~= s@.take(i as int));
        push_escaped_char(out, chars[i]);
        assert(out@ =~= start + seq!['"'] + escape(s@.take(i + 1)));
        i = i + 1;
    }
    assert(s@.take(s@.len() as int) =~= s@);
    push_char(out, '"');
    assert(out@ =~= start + quoted(s@));
}

impl JsonValue {
    /// Appends the compact text of this value.
    pub fn encode_into(&self, out: &mut String)
        ensures
            final(out)@ == old(out)@ + json_text(*self),
        decreases *self,
    {
        let ghost start = out@;
        match self {
            JsonValue::Null => {
                out.append("null");
            },
            JsonValue::Bool(b) => {
                if *b {
                    out.append("true");
                } else {
                    out.append("false");
                }
            },
            JsonValue::UInt(n) => {
                push_decimal(out, *n);
            },
            JsonValue::NegInt(n) => {
                if *n < 0 {
                    push_char(out, '-');
                    let m: u64 = ((-(*n + 1)) as u64) + 1;
                    push_decimal(out, m);
                    assert(out@ =~= start + (seq!['-'] + decimal((-*n) as nat)));
                } else {
                    push_decimal(out, *n as u64);
                }
            },
            JsonValue::Float(t) => {
                out.append(t.as_str());
            },
            JsonValue::Str(s) => {
                push_quoted(out, s.as_str());
            },
            JsonValue::Array(items) => {
                push_char(out, '[');
                let mut i: usize = 0;
                while i < items.len()
                    invariant
                        i <= items@.len(),
                        *self == JsonValue::Array(*items),
                        out@ == start + seq!['['] + items_text(items@.take(i as int)),
                    decreases items@.len() - i,
                {
                    let ghost before = out@;
                    if i > 0 {
                        push_char(out, ',');
                    }
                    proof {
                        assert(decreases_to!(*self => self->Array_0));
                        assert(decreases_to!(*items => items@));
                        assert(decreases_to!(items@ => items@[i as int]));
                    }
                    items[i].encode_into(out);
                    assert(items@.take(i + 1).drop_last() =~= items@.take(i as int));
                    assert(out@ =~= start + seq!['['] + items_text(items@.take(i + 1)));
                    i = i + 1;
                }
                assert(items@.take(items@.len() as int) =~= items@);
                push_char(out, ']');
                assert(out@ =~= start + json_text(*self));
            },
            JsonValue::Object(members) => {
                push_char(out, '{');
                let mut i: usize = 0;
                while i < members.len()
                    invariant
                        i <= members@.len(),
                        *self == JsonValue::Object(*members),
                        out@ == start + seq!['{'] + members_text(members@.take(i as int)),
                    decreases members@.len() - i,
                {
                    if i > 0 {
                        push_char(out, ',');
                    }
                    push_quoted(out, members[i].key.as_str());
                    push_char(out, ':');
                    proof {
                        assert(decreases_to!(*self => self->Object_0));
                        assert(decreases_to!(*members => members@));
                        assert(decreases_to!(members@ => members@[i as int]));
                        assert(decreases_to!(members@[i as int] => members@[i as int].value));
                    }
                    members[i].value.encode_into(out);
                    assert(members@.take(i + 1).drop_last() =~= members@.take(i as int));
                    assert(out@ =~= start + seq!['{'] + members_text(members@.take(i + 1)));
                    i = i + 1;
                }
                assert(members@.take(members@.len() as int) =~= members@);
                push_char(out, '}');
                assert(out@ =~= start + json_text(*self));
            },
        }
    }

    /// The compact text of this value.
    pub fn encode(&self) -> (r: String)
        ensures
            r@ == json_text(*self),
    {
        let mut out = String::new();
        self.encode_into(&mut out);
        assert(out@ =~= json_text(*self));
        out
    }
}

/// A JSON list of string literals.
pub open spec fn quoted_list_body(items: Seq<Seq<char>>) -> Seq<char>
    decreases items.len(),
{
    if items.len() == 0 {
        Seq::empty()
    } else if items.len() == 1 {
        quoted(items[0])
    } else {
        quoted_list_body(items.drop_last()) + seq![','] + quoted(items.last())
    }
}

/// A JSON list of string literals.
pub open spec fn quoted_list(items: Seq<Seq<char>>) -> Seq<char> {
    seq!['['] + quoted_list_body(items) + seq![']']
}

/// A JSON optional string.
pub open spec fn opt_text(o: Option<Seq<char>>) -> Seq<char> {
    match o {
        Some(s) => quoted(s),
        None => "null"@,
    }
}

/// A JSON optional unsigned integer.
pub open spec fn opt_u64_text(o: Option<u64>) -> Seq<char> {
    match o {
        Some(n) => decimal(n as nat),
        None => "null"@,
    }
}

/// A JSON boolean.
pub open spec fn bool_text(b: bool) -> Seq<char> {
    if b { "true"@ } else { "false"@ }
}

/// Appends a JSON list of string literals.
pub fn push_quoted_list(out: &mut String, items: &Vec<String>)
    ensures
        final(out)@ == old(out)@ + quoted_list(strs(items@)),
{
    let ghost start = out@;
    let ghost views = strs(items@);
    push_char(out, '[');
    let mut i: usize = 0;
    while i < items.len()
        invariant
            i <= items@.len(),
            views == strs(items@),
            out@ == start + seq!['['] + quoted_list_body(views.take(i as int)),
        decreases items@.len() - i,
    {
        if i > 0 {
            push_char(out, ',');
        }
        push_quoted(out, items[i].as_str());
        assert(views.take(i + 1).drop_last() =~= views.take(i as int));
        assert(out@ =~= start + seq!['['] + quoted_list_body(views.take(i + 1)));
        i = i + 1;
    }
    assert(views.take(items@.len() as int) =~= views);
    push_char(out, ']');
    assert(out@ =~= start + quoted_list(views));
}

/// Appends a JSON optional string.
pub fn push_opt_text(out: &mut String, o: &Option<String>)
    ensures
        final(out)@ == old(out)@ + opt_text(ov(*o)),
{
    match o {
        Some(s) => push_quoted(out, s.as_str()),
        None => out.append("null"),
    }
}

/// Appends a JSON optional unsigned integer.
pub fn push_opt_u64(out: &mut String, o: Option<u64>)
    ensures
        final(out)@ == old(out)@ + opt_u64_text(o),
{
    match o {
        Some(n) => push_decimal(out, n),
        None => out.append("null"),
    }
}

} // verus!
