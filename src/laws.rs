use vstd::prelude::*;
use vstd::utf8::*;
use crate::convert::{
    decimal, decimal_digits, digit_char, has_key, key_text, object_insert, scan, to_host, to_json,
    ConversionFault, ScanState,
};
use crate::host::{HostTree, KeyModel};
use crate::json::{finite_bits, keys_distinct, JsonNumber, JsonTree};

verus! {

/// The JSON trees that come back unchanged from a trip through the host: every
/// float finite, every array shorter than the largest 64-bit integer, every
/// object non-empty, shorter than that and with distinct keys.
pub open spec fn round_trippable(t: JsonTree) -> bool
    decreases t,
{
    match t {
        JsonTree::Number(JsonNumber::Float(bits)) => finite_bits(bits),
        JsonTree::Array(items) => items.len() < i64::MAX && forall|i: int|
            0 <= i < items.len() ==> round_trippable(#[trigger] items[i]),
        JsonTree::Object(members) => 0 < members.len() < i64::MAX && keys_distinct(members)
            && forall|
            i: int,
        |
            0 <= i < members.len() ==> round_trippable(#[trigger] members[i].1),
        _ => true,
    }
}

/// Two naturals with the same decimal digits are equal.
pub proof fn lemma_decimal_digits_injective(a: nat, b: nat)
    requires
        decimal_digits(a) == decimal_digits(b),
    ensures
        a == b,
    decreases a,
{
    if a >= 10 {
        assert(decimal_digits(a / 10).len() >= 1) by { lemma_decimal_digits_nonempty((a / 10) as nat); }
    }
    if b >= 10 {
        assert(decimal_digits(b / 10).len() >= 1) by { lemma_decimal_digits_nonempty((b / 10) as nat); }
    }
    if a < 10 && b < 10 {
        assert(decimal_digits(a)[0] == digit_char(a % 10));
        assert(decimal_digits(b)[0] == digit_char(b % 10));
    } else if a >= 10 && b >= 10 {
        let da = decimal_digits(a);
        let db = decimal_digits(b);
        assert(da.last() == db.last());
        assert(da.drop_last() =~= decimal_digits(a / 10));
        assert(db.drop_last() =~= decimal_digits(b / 10));
        lemma_decimal_digits_injective(a / 10, b / 10);
    } else if a < 10 {
        assert(decimal_digits(a).len() == 1);
        assert(decimal_digits(b).len() == decimal_digits(b / 10).len() + 1);
    } else {
        assert(decimal_digits(b).len() == 1);
        assert(decimal_digits(a).len() == decimal_digits(a / 10).len() + 1);
    }
}

proof fn lemma_decimal_digits_nonempty(n: nat)
    ensures
        decimal_digits(n).len() >= 1,
    decreases n,
{
    if n >= 10 {
        lemma_decimal_digits_nonempty(n / 10);
    }
}

/// The scan over a table whose first `n` keys are 1, 2, ..., n, all of whose
/// values convert: an array so far, each value under the text of its index.
proof fn lemma_scan_sequential(pairs: Seq<(KeyModel, HostTree)>, n: int)
    requires
        0 <= n <= pairs.len(),
        pairs.len() < i64::MAX,
        forall|j: int| 0 <= j < pairs.len() ==> (#[trigger] pairs[j]).0 == KeyModel::Integer((j + 1) as i64),
        forall|j: int| 0 <= j < pairs.len() ==> (#[trigger] to_json(pairs[j].1)) is Ok,
    ensures
        scan(pairs, n) == Ok::<ScanState, ConversionFault>(
            ScanState {
                members: Seq::new(
                    n as nat,
                    |j: int| (decimal(j + 1), to_json(pairs[j].1)->Ok_0),
                ),
                is_array: true,
                next: n + 1,
            },
        ),
    decreases n,
{
    if n > 0 {
        lemma_scan_sequential(pairs, n - 1);
        let prev = Seq::new((n - 1) as nat, |j: int| (decimal(j + 1), to_json(pairs[j].1)->Ok_0));
        let k = pairs[n - 1].0;
        assert(k == KeyModel::Integer(n as i64));
        assert(key_text(k) == Some(decimal(n)));
        assert(!has_key(prev, decimal(n))) by {
            if has_key(prev, decimal(n)) {
                let j = choose|j: int| 0 <= j < prev.len() && prev[j].0 == decimal(n);
                lemma_decimal_digits_injective((j + 1) as nat, n as nat);
            }
        }
        assert(object_insert(prev, decimal(n), to_json(pairs[n - 1].1)->Ok_0) =~= Seq::new(
            n as nat,
            |j: int| (decimal(j + 1), to_json(pairs[j].1)->Ok_0),
        ));
    } else {
        assert(Seq::new(0, |j: int| (decimal(j + 1), to_json(pairs[j].1)->Ok_0)) =~= Seq::empty());
    }
}

/// A table whose keys, in the order the host walks them, are 1, 2, ..., n and
/// whose values all convert becomes the array of the converted values.
pub proof fn lemma_sequential_keys_make_array(pairs: Seq<(KeyModel, HostTree)>)
    requires
        pairs.len() < i64::MAX,
        forall|j: int| 0 <= j < pairs.len() ==> (#[trigger] pairs[j]).0 == KeyModel::Integer((j + 1) as i64),
        forall|j: int| 0 <= j < pairs.len() ==> (#[trigger] to_json(pairs[j].1)) is Ok,
    ensures
        to_json(HostTree::Table(pairs)) == Ok::<JsonTree, ConversionFault>(
            JsonTree::Array(Seq::new(pairs.len(), |j: int| to_json(pairs[j].1)->Ok_0)),
        ),
{
    lemma_scan_sequential(pairs, pairs.len() as int);
    let members = Seq::new(pairs.len(), |j: int| (decimal(j + 1), to_json(pairs[j].1)->Ok_0));
    assert(members.map_values(|m: (Seq<char>, JsonTree)| m.1) =~= Seq::new(
        pairs.len(),
        |j: int| to_json(pairs[j].1)->Ok_0,
    ));
}

/// Whether the first `n` keys of a table are 1, 2, ..., n.
pub open spec fn keys_sequential(pairs: Seq<(KeyModel, HostTree)>, n: int) -> bool {
    forall|j: int| 0 <= j < n ==> (#[trigger] pairs[j]).0 == KeyModel::Integer((j + 1) as i64)
}

/// The text of the `j`-th key of a table and the JSON form of its value.
pub open spec fn converted_member(pairs: Seq<(KeyModel, HostTree)>, j: int) -> (Seq<char>, JsonTree) {
    (key_text(pairs[j].0)->Some_0, to_json(pairs[j].1)->Ok_0)
}

/// Whether all keys of a table have texts, no two the same, and all its values
/// convert.
pub open spec fn members_convert(pairs: Seq<(KeyModel, HostTree)>) -> bool {
    &&& forall|j: int| 0 <= j < pairs.len() ==> (#[trigger] key_text(pairs[j].0)) is Some
    &&& forall|j: int| 0 <= j < pairs.len() ==> (#[trigger] to_json(pairs[j].1)) is Ok
    &&& forall|i: int, j: int|
        0 <= i < pairs.len() && 0 <= j < pairs.len() && i != j ==> key_text(pairs[i].0)
            != key_text(pairs[j].0)
}

proof fn lemma_scan_members(pairs: Seq<(KeyModel, HostTree)>, n: int)
    requires
        0 <= n <= pairs.len(),
        pairs.len() < i64::MAX,
        members_convert(pairs),
    ensures
        scan(pairs, n) matches Ok(st) && st.members == Seq::new(
            n as nat,
            |j: int| converted_member(pairs, j),
        ) && st.is_array == keys_sequential(pairs, n) && (st.is_array ==> st.next == n + 1),
    decreases n,
{
    if n > 0 {
        lemma_scan_members(pairs, n - 1);
        let prev = Seq::new((n - 1) as nat, |j: int| converted_member(pairs, j));
        let st = scan(pairs, n - 1)->Ok_0;
        let text = key_text(pairs[n - 1].0)->Some_0;
        assert(key_text(pairs[n - 1].0) is Some);
        assert(to_json(pairs[n - 1].1) is Ok);
        assert(!has_key(prev, text)) by {
            if has_key(prev, text) {
                let j = choose|j: int| 0 <= j < prev.len() && prev[j].0 == text;
                assert(key_text(pairs[j].0) == key_text(pairs[n - 1].0));
            }
        }
        assert(object_insert(prev, text, to_json(pairs[n - 1].1)->Ok_0) =~= Seq::new(
            n as nat,
            |j: int| converted_member(pairs, j),
        ));
        let next_st = scan(pairs, n)->Ok_0;
        if keys_sequential(pairs, n) {
            assert(keys_sequential(pairs, n - 1));
            assert(pairs[n - 1].0 == KeyModel::Integer(n as i64));
        } else if keys_sequential(pairs, n - 1) {
            let j = choose|j: int| 0 <= j < n && !((#[trigger] pairs[j]).0 == KeyModel::Integer((j + 1) as i64));
            assert(j == n - 1);
        }
    } else {
        assert(Seq::new(0, |j: int| converted_member(pairs, j)) =~= Seq::empty());
    }
}

/// A table whose keys are not 1, 2, ..., n in order, whose keys have distinct
/// texts and whose values all convert, becomes the object of all its pairs, each
/// value under the text of its key, in the order the host walks them.
pub proof fn lemma_other_keys_make_object(pairs: Seq<(KeyModel, HostTree)>)
    requires
        pairs.len() < i64::MAX,
        members_convert(pairs),
        !keys_sequential(pairs, pairs.len() as int),
    ensures
        to_json(HostTree::Table(pairs)) == Ok::<JsonTree, ConversionFault>(
            JsonTree::Object(Seq::new(pairs.len(), |j: int| converted_member(pairs, j))),
        ),
{
    lemma_scan_members(pairs, pairs.len() as int);
}

/// An empty table becomes the empty array, never an empty object.
pub proof fn lemma_empty_table_is_array()
    ensures
        to_json(HostTree::Table(Seq::empty())) == Ok::<JsonTree, ConversionFault>(
            JsonTree::Array(Seq::empty()),
        ),
{
    assert(Seq::<(Seq<char>, JsonTree)>::empty().map_values(|m: (Seq<char>, JsonTree)| m.1)
        =~= Seq::empty());
}

/// A float that is NaN or infinite has no JSON form: its conversion fails with
/// `NonFinite`, and never yields null or zero.
pub proof fn lemma_non_finite_rejected(bits: u64)
    requires
        !finite_bits(bits),
    ensures
        to_json(HostTree::Number(bits)) == Err::<JsonTree, ConversionFault>(
            ConversionFault::NonFinite,
        ),
{
}

/// A JSON tree taken to the host and back is the same tree, for every tree with
/// finite floats, arrays and objects shorter than the largest 64-bit integer, and
/// non-empty objects with distinct keys (an empty object comes back as an empty array).
pub proof fn lemma_round_trip(t: JsonTree)
    requires
        round_trippable(t),
    ensures
        to_json(to_host(t)) == Ok::<JsonTree, ConversionFault>(t),
    decreases t,
{
    match t {
        JsonTree::Str(s) => {
            encode_utf8_valid_utf8(s);
            encode_utf8_decode_utf8(s);
        },
        JsonTree::Array(items) => {
            let pairs = to_host(t)->Table_0;
            assert forall|j: int| 0 <= j < pairs.len() implies (#[trigger] to_json(pairs[j].1))
                == Ok::<JsonTree, ConversionFault>(items[j]) by {
                lemma_round_trip(items[j]);
            }
            lemma_sequential_keys_make_array(pairs);
            assert(Seq::new(pairs.len(), |j: int| to_json(pairs[j].1)->Ok_0) =~= items);
        },
        JsonTree::Object(members) => {
            let pairs = to_host(t)->Table_0;
            assert forall|j: int| 0 <= j < pairs.len() implies (#[trigger] to_json(pairs[j].1))
                == Ok::<JsonTree, ConversionFault>(members[j].1) by {
                lemma_round_trip(members[j].1);
            }
            assert forall|j: int| 0 <= j < pairs.len() implies (#[trigger] key_text(pairs[j].0))
                == Some(members[j].0) by {
                encode_utf8_valid_utf8(members[j].0);
                encode_utf8_decode_utf8(members[j].0);
            }
            assert(!keys_sequential(pairs, pairs.len() as int)) by {
                assert(pairs[0].0 is String);
            }
            assert(members_convert(pairs)) by {
                assert forall|i: int, j: int|
                    0 <= i < pairs.len() && 0 <= j < pairs.len() && i != j implies key_text(
                        pairs[i].0,
                    ) != key_text(pairs[j].0) by {
                    assert(key_text(pairs[i].0) == Some(members[i].0));
                    assert(key_text(pairs[j].0) == Some(members[j].0));
                }
            }
            lemma_other_keys_make_object(pairs);
            assert(Seq::new(pairs.len(), |j: int| converted_member(pairs, j)) =~= members);
        },
        _ => {},
    }
}

} // verus!
