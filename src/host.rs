use vstd::prelude::*;

verus! {

/// A key of a host table, as the host runtime presents it while walking the table.
#[derive(Debug)]
pub enum LuaKey {
    /// An integer key.
    Integer(i64),
    /// A string key: the host's string, a sequence of bytes.
    String(Vec<u8>),
    /// Any other key, with the text that the host's generic stringification gives it.
    Other(String),
}

/// A value of the host runtime.
#[derive(Debug)]
pub enum LuaValue {
    Nil,
    Boolean(bool),
    Integer(i64),
    /// A floating-point number, given by the bit pattern of its IEEE-754 double.
    Number(u64),
    /// A string: a sequence of bytes, not necessarily valid UTF-8.
    String(Vec<u8>),
    /// A table: its key/value pairs in the order in which the host walks them.
    Table(Vec<(LuaKey, LuaValue)>),
    /// A value that has no JSON form (a function, a thread, user data), with the
    /// name of its type.
    Unsupported(String),
}

/// The model of a [`LuaKey`].
pub enum KeyModel {
    Integer(i64),
    String(Seq<u8>),
    Other(Seq<char>),
}

/// The model of a [`LuaValue`].
pub enum HostTree {
    Nil,
    Boolean(bool),
    Integer(i64),
    Number(u64),
    String(Seq<u8>),
    Table(Seq<(KeyModel, HostTree)>),
    Unsupported(Seq<char>),
}

impl View for LuaKey {
    type V = KeyModel;

    open spec fn view(&self) -> KeyModel {
        match self {
            LuaKey::Integer(i) => KeyModel::Integer(*i),
            LuaKey::String(b) => KeyModel::String(b@),
            LuaKey::Other(s) => KeyModel::Other(s@),
        }
    }
}

/// The model of a host value.
pub open spec fn host_tree_of(v: LuaValue) -> HostTree
    decreases v,
{
    match v {
        LuaValue::Nil => HostTree::Nil,
        LuaValue::Boolean(b) => HostTree::Boolean(b),
        LuaValue::Integer(i) => HostTree::Integer(i),
        LuaValue::Number(bits) => HostTree::Number(bits),
        LuaValue::String(b) => HostTree::String(b@),
        LuaValue::Table(pairs) => HostTree::Table(
            Seq::new(
                pairs@.len(),
                |i: int|
                    if 0 <= i < pairs@.len() {
                        (pairs@[i].0@, host_tree_of(pairs@[i].1))
                    } else {
                        (KeyModel::Integer(0), HostTree::Nil)
                    },
            ),
        ),
        LuaValue::Unsupported(name) => HostTree::Unsupported(name@),
    }
}

impl View for LuaValue {
    type V = HostTree;

    open spec fn view(&self) -> HostTree {
        host_tree_of(*self)
    }
}

} // verus!

verus! {

/// The model of the pairs of a table, in order.
pub open spec fn pairs_model(pairs: Seq<(LuaKey, LuaValue)>) -> Seq<(KeyModel, HostTree)> {
    Seq::new(pairs.len(), |i: int| (pairs[i].0@, pairs[i].1@))
}

/// The model of a table is the models of its pairs.
pub proof fn lemma_table_view(pairs: Vec<(LuaKey, LuaValue)>)
    ensures
        LuaValue::Table(pairs)@ == HostTree::Table(pairs_model(pairs@)),
{
    assert(LuaValue::Table(pairs)@->Table_0 =~= pairs_model(pairs@));
}

} // verus!
