use vstd::prelude::*;
use vstd::utf8::*;
use vstd::slice::slice_to_vec;
use crate::host::{pairs_model, HostTree, KeyModel, LuaKey, LuaValue};
use crate::json::{
    finite_bits, items_model, lemma_array_view, lemma_object_view, keys_distinct, members_model, Json, JsonNumber, JsonTree,
};

verus! {

/// Why a value has no JSON form.
#[derive(Debug)]
pub enum ConversionError {
    /// A float that is NaN or infinite.
    NonFinite,
    /// A string whose bytes are not valid UTF-8.
    InvalidText,
    /// A value of a kind that JSON cannot hold; the name of its type.
    Unsupported(String),
    /// A JSON number that offers neither an integer nor a float representation.
    InvalidNumber,
}

/// The model of a [`ConversionError`].
pub enum ConversionFault {
    NonFinite,
    InvalidText,
    Unsupported(Seq<char>),
    InvalidNumber,
}

impl View for ConversionError {
    type V = ConversionFault;

    open spec fn view(&self) -> ConversionFault {
        match self {
            ConversionError::NonFinite => ConversionFault::NonFinite,
            ConversionError::InvalidText => ConversionFault::InvalidText,
            ConversionError::Unsupported(name) => ConversionFault::Unsupported(name@),
            ConversionError::InvalidNumber => ConversionFault::InvalidNumber,
        }
    }
}

/// The model of the result of a conversion to JSON.
pub open spec fn json_result(r: Result<Json, ConversionError>) -> Result<JsonTree, ConversionFault> {
    match r {
        Ok(j) => Ok(j@),
        Err(e) => Err(e@),
    }
}

/// The character of a decimal digit.
pub open spec fn digit_char(d: nat) -> char {
    if d == 0 {
        '0'
    } else if d == 1 {
        '1'
    } else if d == 2 {
        '2'
    } else if d == 3 {
        '3'
    } else if d == 4 {
        '4'
    } else if d == 5 {
        '5'
    } else if d == 6 {
        '6'
    } else if d == 7 {
        '7'
    } else if d == 8 {
        '8'
    } else {
        '9'
    }
}

/// The decimal digits of a natural number.
pub open spec fn decimal_digits(n: nat) -> Seq<char>
    decreases n,
{
    let digit = digit_char((n % 10) as nat);
    if n < 10 {
        seq![digit]
    } else {
        decimal_digits(n / 10).push(digit)
    }
}

/// The decimal text of an integer, with a leading `-` when it is negative.
pub open spec fn decimal(i: int) -> Seq<char> {
    if i < 0 {
        seq!['-'] + decimal_digits((-i) as nat)
    } else {
        decimal_digits(i as nat)
    }
}

/// The text under which a table key is stored in a JSON object; `None` when the
/// key is a string that is not valid UTF-8.
pub open spec fn key_text(k: KeyModel) -> Option<Seq<char>> {
    match k {
        KeyModel::Integer(i) => Some(decimal(i as int)),
        KeyModel::String(b) => if valid_utf8(b) {
            Some(decode_utf8(b))
        } else {
            None
        },
        KeyModel::Other(s) => Some(s),
    }
}

/// Whether some member of an object has the key `k`.
pub open spec fn has_key(members: Seq<(Seq<char>, JsonTree)>, k: Seq<char>) -> bool {
    exists|i: int| 0 <= i < members.len() && members[i].0 == k
}

/// Stores `v` under `k`: in place where a member has that key, else as a new last
/// member.
pub open spec fn object_insert(
    members: Seq<(Seq<char>, JsonTree)>,
    k: Seq<char>,
    v: JsonTree,
) -> Seq<(Seq<char>, JsonTree)> {
    if has_key(members, k) {
        members.update(choose|i: int| 0 <= i < members.len() && members[i].0 == k, (k, v))
    } else {
        members.push((k, v))
    }
}

/// What the scan over a table has gathered so far: every pair as an object
/// member, whether the keys so far were 1, 2, 3, ... in order, and the next
/// index that an array would expect.
pub struct ScanState {
    pub members: Seq<(Seq<char>, JsonTree)>,
    pub is_array: bool,
    pub next: int,
}

/// The scan state before any pair.
pub open spec fn scan_start() -> ScanState {
    ScanState { members: Seq::empty(), is_array: true, next: 1 }
}

/// One step of the scan: the pair's key and what its value converted to.
pub open spec fn scan_step(
    st: ScanState,
    k: KeyModel,
    converted: Result<JsonTree, ConversionFault>,
) -> Result<ScanState, ConversionFault> {
    match key_text(k) {
        None => Err(ConversionFault::InvalidText),
        Some(text) => match converted {
            Err(e) => Err(e),
            Ok(j) => {
                let matched = match k {
                    KeyModel::Integer(i) => i as int == st.next,
                    _ => false,
                };
                Ok(
                    ScanState {
                        members: object_insert(st.members, text, j),
                        is_array: st.is_array && matched,
                        next: if matched {
                            st.next + 1
                        } else {
                            st.next
                        },
                    },
                )
            },
        },
    }
}

/// The scan over the first `n` pairs of a table.
pub open spec fn scan(pairs: Seq<(KeyModel, HostTree)>, n: int) -> Result<ScanState, ConversionFault>
    decreases pairs, n,
{
    if n <= 0 || n > pairs.len() {
        Ok(scan_start())
    } else {
        match scan(pairs, n - 1) {
            Err(e) => Err(e),
            Ok(st) => scan_step(st, pairs[n - 1].0, to_json(pairs[n - 1].1)),
        }
    }
}

/// The JSON value that a finished scan stands for: an array of the values when
/// every key was 1, 2, 3, ... in order (so also for no pair at all), else an
/// object of all the pairs.
pub open spec fn scan_result(st: ScanState) -> JsonTree {
    if st.is_array {
        JsonTree::Array(st.members.map_values(|m: (Seq<char>, JsonTree)| m.1))
    } else {
        JsonTree::Object(st.members)
    }
}

/// The JSON form of a host value, or why it has none.
pub open spec fn to_json(v: HostTree) -> Result<JsonTree, ConversionFault>
    decreases v, 0nat,
{
    match v {
        HostTree::Nil => Ok(JsonTree::Null),
        HostTree::Boolean(b) => Ok(JsonTree::Bool(b)),
        HostTree::Integer(i) => Ok(JsonTree::Number(JsonNumber::Int(i))),
        HostTree::Number(bits) => if finite_bits(bits) {
            Ok(JsonTree::Number(JsonNumber::Float(bits)))
        } else {
            Err(ConversionFault::NonFinite)
        },
        HostTree::String(b) => if valid_utf8(b) {
            Ok(JsonTree::Str(decode_utf8(b)))
        } else {
            Err(ConversionFault::InvalidText)
        },
        HostTree::Table(pairs) => match scan(pairs, pairs.len() as int) {
            Err(e) => Err(e),
            Ok(st) => Ok(scan_result(st)),
        },
        HostTree::Unsupported(name) => Err(ConversionFault::Unsupported(name)),
    }
}

/// Once the scan has failed, it fails with the same error over every longer
/// prefix.
proof fn lemma_scan_error_persists(pairs: Seq<(KeyModel, HostTree)>, i: int, n: int)
    requires
        1 <= i <= n <= pairs.len(),
        scan(pairs, i) is Err,
    ensures
        scan(pairs, n) == scan(pairs, i),
    decreases n - i,
{
    if n > i {
        lemma_scan_error_persists(pairs, i, n - 1);
    }
}

/// Relies on `String::from_utf8`: it accepts exactly the valid UTF-8 byte
/// sequences, and the text it gives decodes them.
#[verifier::external_body]
pub(crate) fn text_from_bytes(b: &[u8]) -> (r: Option<String>)
    ensures
        r is Some <==> valid_utf8(b@),
        r matches Some(s) ==> s@ == decode_utf8(b@),
{
    String::from_utf8(b.to_vec()).ok()
}

/// Relies on the `Display` of `i64`: decimal digits, with `-` before a negative
/// number.
#[verifier::external_body]
fn integer_text(i: i64) -> (r: String)
    ensures
        r@ == decimal(i as int),
{
    i.to_string()
}

fn key_to_text(k: &LuaKey) -> (r: Option<String>)
    ensures
        r matches Some(s) ==> key_text(k@) == Some(s@),
        r is None ==> key_text(k@) is None,
{
    match k {
        LuaKey::Integer(i) => Some(integer_text(*i)),
        LuaKey::String(b) => text_from_bytes(b.as_slice()),
        LuaKey::Other(s) => Some(s.clone()),
    }
}

fn is_finite(bits: u64) -> (r: bool)
    ensures
        r == finite_bits(bits),
{
    (bits >> 52u64) & 0x7ffu64 != 0x7ffu64
}

/// Stores `value` under `key`, as `object_insert` says.
fn insert_member(members: &mut Vec<(String, Json)>, key: String, value: Json)
    requires
        keys_distinct(members_model(old(members)@)),
    ensures
        members_model(final(members)@) == object_insert(
            members_model(old(members)@),
            key@,
            value@,
        ),
        keys_distinct(members_model(final(members)@)),
{
    let ghost m0 = members_model(members@);
    let mut i: usize = 0;
    while i < members.len()
        invariant
            0 <= i <= members@.len(),
            m0 == members_model(members@),
            m0 == members_model(old(members)@),
            keys_distinct(m0),
            forall|j: int| 0 <= j < i ==> m0[j].0 != key@,
        decreases members@.len() - i,
    {
        if members[i].0 == key {
            assert(m0[i as int].0 == key@);
            assert(has_key(m0, key@));
            let ghost ch = choose|j: int| 0 <= j < m0.len() && m0[j].0 == key@;
            assert(ch == i);
            let _ = members.remove(i);
            members.insert(i, (key, value));
            assert(members_model(members@) =~= m0.update(i as int, (key@, value@)));
            assert(members_model(members@) == object_insert(m0, key@, value@));
            assert(keys_distinct(members_model(members@)));
            return;
        }
        i = i + 1;
    }
    assert(!has_key(m0, key@));
    members.push((key, value));
    assert(members_model(members@) =~= m0.push((key@, value@)));
    assert(keys_distinct(members_model(members@)));
}

/// Converts a host value to a JSON tree.
///
/// Scalars map one to one; a float must be finite and a string valid UTF-8. A
/// table becomes an array when its keys, in the order the host walks them, are
/// exactly 1, 2, 3, ... (an empty table included), and otherwise an object of all
/// its pairs, each key under its text.
pub fn lua_value_to_json(value: &LuaValue) -> (r: Result<Json, ConversionError>)
    ensures
        json_result(r) == to_json(value@),
    decreases value,
{
    match value {
        LuaValue::Nil => Ok(Json::Null),
        LuaValue::Boolean(b) => Ok(Json::Bool(*b)),
        LuaValue::Integer(i) => Ok(Json::Number(JsonNumber::Int(*i))),
        LuaValue::Number(bits) => {
            if is_finite(*bits) {
                Ok(Json::Number(JsonNumber::Float(*bits)))
            } else {
                Err(ConversionError::NonFinite)
            }
        },
        LuaValue::String(b) => match text_from_bytes(b.as_slice()) {
            Some(s) => Ok(Json::Str(s)),
            None => Err(ConversionError::InvalidText),
        },
        LuaValue::Table(pairs) => {
            proof {
                crate::host::lemma_table_view(*pairs);
            }
            let ghost model = value@->Table_0;
            let mut members: Vec<(String, Json)> = Vec::new();
            let mut is_array = true;
            let mut index: u64 = 1;
            let mut i: usize = 0;
            assert(members_model(members@) =~= Seq::empty());
            while i < pairs.len()
                invariant
                    0 <= i <= pairs@.len(),
                    model == value@->Table_0,
                    model.len() == pairs@.len(),
                    value == LuaValue::Table(*pairs),
                    1 <= index <= i + 1,
                    keys_distinct(members_model(members@)),
                    scan(model, i as int) == Ok::<ScanState, ConversionFault>(
                        ScanState {
                            members: members_model(members@),
                            is_array,
                            next: index as int,
                        },
                    ),
                decreases pairs@.len() - i,
            {
                let pair = &pairs[i];
                assert(model[i as int] == (pair.0@, pair.1@));
                let text = match key_to_text(&pair.0) {
                    Some(t) => t,
                    None => {
                        proof {
                            lemma_scan_error_persists(model, i as int + 1, model.len() as int);
                        }
                        return Err(ConversionError::InvalidText);
                    },
                };
                let converted = match lua_value_to_json(&pair.1) {
                    Ok(j) => j,
                    Err(e) => {
                        proof {
                            lemma_scan_error_persists(model, i as int + 1, model.len() as int);
                        }
                        return Err(e);
                    },
                };
                let matched = match pair.0 {
                    LuaKey::Integer(k) => k >= 1 && k as u64 == index,
                    _ => false,
                };
                insert_member(&mut members, text, converted);
                is_array = is_array && matched;
                if matched {
                    index = index + 1;
                }
                i = i + 1;
            }
            if is_array {
                Ok(Json::Array(member_values(members)))
            } else {
                proof {
                    crate::json::lemma_object_view(members);
                }
                Ok(Json::Object(members))
            }
        },
        LuaValue::Unsupported(name) => Err(ConversionError::Unsupported(name.clone())),
    }
}

/// The values of an object's members, in order.
fn member_values(members: Vec<(String, Json)>) -> (r: Vec<Json>)
    ensures
        Json::Array(r)@ == JsonTree::Array(
            members_model(members@).map_values(|m: (Seq<char>, JsonTree)| m.1),
        ),
{
    let ghost m0 = members@;
    let mut rest = members;
    let mut reversed: Vec<Json> = Vec::new();
    while rest.len() > 0
        invariant
            rest@ == m0.subrange(0, rest@.len() as int),
            reversed@.len() + rest@.len() == m0.len(),
            forall|j: int|
                0 <= j < reversed@.len() ==> reversed@[j] == m0[m0.len() - 1 - j].1,
        decreases rest@.len(),
    {
        let (_, v) = rest.pop().unwrap();
        reversed.push(v);
    }
    let mut values: Vec<Json> = Vec::new();
    while reversed.len() > 0
        invariant
            reversed@.len() + values@.len() == m0.len(),
            forall|j: int|
                0 <= j < reversed@.len() ==> reversed@[j] == m0[m0.len() - 1 - j].1,
            forall|j: int| 0 <= j < values@.len() ==> values@[j] == m0[j].1,
        decreases reversed@.len(),
    {
        let v = reversed.pop().unwrap();
        values.push(v);
    }
    proof {
        crate::json::lemma_array_view(values);
        assert(items_model(values@) =~= members_model(m0).map_values(
            |m: (Seq<char>, JsonTree)| m.1,
        ));
    }
    values
}

} // verus!

verus! {

/// The host value that a JSON tree becomes: an array is a table with keys 1, 2,
/// 3, ... in order, an object a table with its keys as strings, in its order.
pub open spec fn to_host(t: JsonTree) -> HostTree
    decreases t,
{
    match t {
        JsonTree::Null => HostTree::Nil,
        JsonTree::Bool(b) => HostTree::Boolean(b),
        JsonTree::Number(JsonNumber::Int(i)) => HostTree::Integer(i),
        JsonTree::Number(JsonNumber::Float(bits)) => HostTree::Number(bits),
        JsonTree::Str(s) => HostTree::String(encode_utf8(s)),
        JsonTree::Array(items) => HostTree::Table(
            Seq::new(
                items.len(),
                |i: int|
                    if 0 <= i < items.len() {
                        (KeyModel::Integer((i + 1) as i64), to_host(items[i]))
                    } else {
                        (KeyModel::Integer(0), HostTree::Nil)
                    },
            ),
        ),
        JsonTree::Object(members) => HostTree::Table(
            Seq::new(
                members.len(),
                |i: int|
                    if 0 <= i < members.len() {
                        (KeyModel::String(encode_utf8(members[i].0)), to_host(members[i].1))
                    } else {
                        (KeyModel::Integer(0), HostTree::Nil)
                    },
            ),
        ),
    }
}

/// Converts a JSON tree to a host value, as `to_host` says.
pub fn json_to_lua_value(value: &Json) -> (r: LuaValue)
    ensures
        r@ == to_host(value@),
    decreases value,
{
    match value {
        Json::Null => LuaValue::Nil,
        Json::Bool(b) => LuaValue::Boolean(*b),
        Json::Number(JsonNumber::Int(i)) => LuaValue::Integer(*i),
        Json::Number(JsonNumber::Float(bits)) => LuaValue::Number(*bits),
        Json::Str(s) => LuaValue::String(slice_to_vec(s.as_str().as_bytes())),
        Json::Array(items) => {
            proof {
                lemma_array_view(*items);
                assert(decreases_to!(*value => *items));
            }
            let ghost model = value@->Array_0;
            let mut pairs: Vec<(LuaKey, LuaValue)> = Vec::new();
            let mut i: usize = 0;
            while i < items.len()
                invariant
                    0 <= i <= items@.len(),
                    model == items_model(items@),
                    value == Json::Array(*items),
                    decreases_to!(*value => *items),
                    pairs@.len() == i,
                    forall|j: int|
                        0 <= j < i ==> (#[trigger] pairs@[j]).0@ == KeyModel::Integer(
                            (j + 1) as i64,
                        ) && pairs@[j].1@ == to_host(model[j]),
                decreases items@.len() - i,
            {
                assert(model[i as int] == items@[i as int]@);
                proof {
                    vstd::std_specs::vec::axiom_vec_index_decreases(*items, i as int);
                }
                let item = json_to_lua_value(&items[i]);
                pairs.push((LuaKey::Integer((i + 1) as i64), item));
                i = i + 1;
            }
            proof {
                crate::host::lemma_table_view(pairs);
                assert(pairs_model(pairs@) =~= to_host(value@)->Table_0);
            }
            LuaValue::Table(pairs)
        },
        Json::Object(members) => {
            proof {
                lemma_object_view(*members);
                assert(decreases_to!(*value => *members));
            }
            let ghost model = value@->Object_0;
            let mut pairs: Vec<(LuaKey, LuaValue)> = Vec::new();
            let mut i: usize = 0;
            while i < members.len()
                invariant
                    0 <= i <= members@.len(),
                    model == members_model(members@),
                    value == Json::Object(*members),
                    decreases_to!(*value => *members),
                    pairs@.len() == i,
                    forall|j: int|
                        0 <= j < i ==> (#[trigger] pairs@[j]).0@ == KeyModel::String(
                            encode_utf8(model[j].0),
                        ) && pairs@[j].1@ == to_host(model[j].1),
                decreases members@.len() - i,
            {
                let member = &members[i];
                assert(model[i as int] == (member.0@, member.1@));
                proof {
                    vstd::std_specs::vec::axiom_vec_index_decreases(*members, i as int);
                }
                let key = slice_to_vec(member.0.as_str().as_bytes());
                let item = json_to_lua_value(&member.1);
                pairs.push((LuaKey::String(key), item));
                i = i + 1;
            }
            proof {
                crate::host::lemma_table_view(pairs);
                assert(pairs_model(pairs@) =~= to_host(value@)->Table_0);
            }
            LuaValue::Table(pairs)
        },
    }
}

/// The number that a JSON number becomes, from the representations its parser
/// offers: the exact integer where there is one, else the float.
pub open spec fn number_from(integer: Option<i64>, float_bits: Option<u64>) -> Result<
    JsonNumber,
    ConversionFault,
> {
    match (integer, float_bits) {
        (Some(i), _) => Ok(JsonNumber::Int(i)),
        (None, Some(bits)) => Ok(JsonNumber::Float(bits)),
        (None, None) => Err(ConversionFault::InvalidNumber),
    }
}

/// Picks the representation of a parsed JSON number: its exact 64-bit integer
/// where it has one, else its double (by bit pattern); a number with neither is
/// refused.
pub fn number_from_parts(integer: Option<i64>, float_bits: Option<u64>) -> (r: Result<
    JsonNumber,
    ConversionError,
>)
    ensures
        match r {
            Ok(n) => number_from(integer, float_bits) == Ok::<JsonNumber, ConversionFault>(n),
            Err(e) => number_from(integer, float_bits) == Err::<JsonNumber, ConversionFault>(e@),
        },
{
    match (integer, float_bits) {
        (Some(i), _) => Ok(JsonNumber::Int(i)),
        (None, Some(bits)) => Ok(JsonNumber::Float(bits)),
        (None, None) => Err(ConversionError::InvalidNumber),
    }
}

} // verus!
