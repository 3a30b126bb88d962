//! A configuration file as a tree of values.

use vstd::prelude::*;

verus! {

/// A value of a configuration file.
#[derive(Debug)]
pub enum Toml {
    Text(String),
    Integer(i64),
    /// A number with a fraction, in decimal.
    Float(String),
    Boolean(bool),
    /// A date or a time, as it is written.
    Datetime(String),
    Array(Vec<Toml>),
    Table(Vec<(String, Toml)>),
}

/// A [`Toml`] as a mathematical value.
pub enum Tree {
    Text(Seq<char>),
    Integer(int),
    Float(Seq<char>),
    Boolean(bool),
    Datetime(Seq<char>),
    Array(Seq<Tree>),
    Table(Seq<(Seq<char>, Tree)>),
}

/// `toml::Value`, a parsed value.
#[verifier::external_type_specification]
#[verifier::external_body]
pub struct ExTomlValue(toml::Value);

/// What a `toml::Value` holds.
pub uninterp spec fn tree_of(value: toml::Value) -> Tree;

/// What `toml` reads out of a text, or why it cannot.
pub uninterp spec fn toml_of(text: Seq<char>) -> Result<Tree, Seq<char>>;

/// One level of a `toml::Value`.
pub enum Level {
    Text(String),
    Integer(i64),
    Float(String),
    Boolean(bool),
    Datetime(String),
    Array(Vec<toml::Value>),
    Table(Vec<(String, toml::Value)>),
}

impl Level {
    pub open spec fn tree(self) -> Tree {
        match self {
            Level::Text(s) => Tree::Text(s@),
            Level::Integer(n) => Tree::Integer(n as int),
            Level::Float(s) => Tree::Float(s@),
            Level::Boolean(b) => Tree::Boolean(b),
            Level::Datetime(s) => Tree::Datetime(s@),
            Level::Array(items) => Tree::Array(items@.map_values(|v: toml::Value| tree_of(v))),
            Level::Table(entries) => Tree::Table(
                entries@.map_values(|e: (String, toml::Value)| (e.0@, tree_of(e.1))),
            ),
        }
    }
}

/// Reads a text with `toml`'s parser, `str::parse::<toml::Table>`. What is read
/// is always a table; what it holds, and which texts are refused with what
/// words, is `toml_of`.
#[verifier::external_body]
fn read(text: &str) -> (out: Result<toml::Value, String>)
    ensures
        match out {
            Ok(value) => toml_of(text@) == Ok::<Tree, Seq<char>>(tree_of(value)) && tree_of(
                value,
            ) is Table,
            Err(error) => toml_of(text@) == Err::<Tree, Seq<char>>(error@),
        },
{
    match text.parse::<toml::Table>() {
        Ok(table) => Ok(toml::Value::Table(table)),
        Err(error) => Err(error.to_string()),
    }
}

/// Takes one level of a `toml::Value` apart, by its variants. A number with a
/// fraction, a date and a time are written out by their `Display`; a table gives
/// its entries in its own order.
#[verifier::external_body]
fn level(value: toml::Value) -> (out: Level)
    ensures
        out.tree() == tree_of(value),
{
    match value {
        toml::Value::String(s) => Level::Text(s),
        toml::Value::Integer(n) => Level::Integer(n),
        toml::Value::Float(f) => Level::Float(f.to_string()),
        toml::Value::Boolean(b) => Level::Boolean(b),
        toml::Value::Datetime(d) => Level::Datetime(d.to_string()),
        toml::Value::Array(items) => Level::Array(items),
        toml::Value::Table(table) => Level::Table(table.into_iter().collect()),
    }
}

// --- whole trees ---------------------------------------------------------------

impl Toml {
    /// The tree that this value is.
    pub open spec fn tree(self) -> Tree
        decreases self,
    {
        match self {
            Toml::Text(s) => Tree::Text(s@),
            Toml::Integer(n) => Tree::Integer(n as int),
            Toml::Float(s) => Tree::Float(s@),
            Toml::Boolean(b) => Tree::Boolean(b),
            Toml::Datetime(s) => Tree::Datetime(s@),
            Toml::Array(items) => Tree::Array(
                Seq::new(
                    items@.len(),
                    |i: int|
                        if 0 <= i < items@.len() {
                            items@[i].tree()
                        } else {
                            arbitrary()
                        },
                ),
            ),
            Toml::Table(entries) => Tree::Table(
                Seq::new(
                    entries@.len(),
                    |i: int|
                        if 0 <= i < entries@.len() {
                            (entries@[i].0@, entries@[i].1.tree())
                        } else {
                            arbitrary()
                        },
                ),
            ),
        }
    }
}

/// A `toml::Value` as a tree of the library's own.
fn grow(value: toml::Value) -> (out: Toml)
    ensures
        out.tree() == tree_of(value),
    decreases tree_of(value),
{
    let ghost whole = tree_of(value);
    match level(value) {
        Level::Text(s) => Toml::Text(s),
        Level::Integer(n) => Toml::Integer(n),
        Level::Float(s) => Toml::Float(s),
        Level::Boolean(b) => Toml::Boolean(b),
        Level::Datetime(s) => Toml::Datetime(s),
        Level::Array(items) => {
            let ghost trees = items@.map_values(|v: toml::Value| tree_of(v));
            let mut rest: Vec<toml::Value> = items;
            let mut grown: Vec<Toml> = Vec::new();
            while rest.len() > 0
                invariant
                    whole == tree_of(value),
                    whole == Tree::Array(trees),
                    grown@.len() + rest@.len() == trees.len(),
                    forall|i: int|
                        0 <= i < grown@.len() ==> (#[trigger] grown@[i]).tree() == trees[i],
                    forall|i: int|
                        0 <= i < rest@.len() ==> tree_of(#[trigger] rest@[i]) == trees[grown@.len()
                            + i],
                decreases rest.len(),
            {
                let ghost before = rest@;
                let item = rest.remove(0);
                proof {
                    assert(item == before[0]);
                    assert(tree_of(item) == trees[grown@.len() as int]);
                    assert(decreases_to!(whole => whole->Array_0));
                    assert(decreases_to!(whole->Array_0 => whole->Array_0[grown@.len() as int]));
                    assert forall|i: int| 0 <= i < rest@.len() implies tree_of(
                        #[trigger] rest@[i],
                    ) == trees[grown@.len() + 1 + i] by {
                        assert(rest@[i] == before[i + 1]);
                    }
                }
                grown.push(grow(item));
            }
            let out = Toml::Array(grown);
            proof {
                assert(out.tree()->Array_0 =~= trees);
            }
            out
        },
        Level::Table(entries) => {
            let ghost trees = entries@.map_values(
                |e: (String, toml::Value)| (e.0@, tree_of(e.1)),
            );
            let mut rest: Vec<(String, toml::Value)> = entries;
            let mut grown: Vec<(String, Toml)> = Vec::new();
            while rest.len() > 0
                invariant
                    whole == tree_of(value),
                    whole == Tree::Table(trees),
                    grown@.len() + rest@.len() == trees.len(),
                    forall|i: int|
                        #![trigger grown@[i]]
                        0 <= i < grown@.len() ==> (grown@[i].0@, grown@[i].1.tree()) == trees[i],
                    forall|i: int|
                        #![trigger rest@[i]]
                        0 <= i < rest@.len() ==> (rest@[i].0@, tree_of(rest@[i].1))
                            == trees[grown@.len() + i],
                decreases rest.len(),
            {
                let ghost before = rest@;
                let (key, item) = rest.remove(0);
                proof {
                    assert((key, item) == before[0]);
                    assert((key@, tree_of(item)) == trees[grown@.len() as int]);
                    assert(decreases_to!(whole => whole->Table_0));
                    assert(decreases_to!(whole->Table_0 => whole->Table_0[grown@.len() as int]));
                    assert(decreases_to!(whole->Table_0[grown@.len() as int] =>
                        whole->Table_0[grown@.len() as int].1));
                    assert forall|i: int|
                        #![trigger rest@[i]]
                        0 <= i < rest@.len() implies (rest@[i].0@, tree_of(rest@[i].1))
                        == trees[grown@.len() + 1 + i] by {
                        assert(rest@[i] == before[i + 1]);
                    }
                }
                grown.push((key, grow(item)));
            }
            let out = Toml::Table(grown);
            proof {
                assert(out.tree()->Table_0 =~= trees);
            }
            out
        },
    }
}

/// The entries of a table, as trees.
pub open spec fn entries_of(table: Seq<(String, Toml)>) -> Seq<(Seq<char>, Tree)> {
    table.map_values(|e: (String, Toml)| (e.0@, e.1.tree()))
}

/// The items of an array, as trees.
pub open spec fn items_of(array: Seq<Toml>) -> Seq<Tree> {
    array.map_values(|t: Toml| t.tree())
}

/// A table is its entries, an array is its items.
pub proof fn tree_is_its_parts(toml: Toml)
    ensures
        toml matches Toml::Table(entries) ==> toml.tree() == Tree::Table(entries_of(entries@)),
        toml matches Toml::Array(items) ==> toml.tree() == Tree::Array(items_of(items@)),
{
    if let Toml::Table(entries) = toml {
        assert(toml.tree()->Table_0 =~= entries_of(entries@));
    }
    if let Toml::Array(items) = toml {
        assert(toml.tree()->Array_0 =~= items_of(items@));
    }
}

impl Tree {
    /// What kind of value this is, in one word.
    pub open spec fn kind(self) -> Seq<char> {
        match self {
            Tree::Text(_) => "string"@,
            Tree::Integer(_) => "integer"@,
            Tree::Float(_) => "float"@,
            Tree::Boolean(_) => "boolean"@,
            Tree::Datetime(_) => "datetime"@,
            Tree::Array(_) => "array"@,
            Tree::Table(_) => "table"@,
        }
    }
}

impl Toml {
    /// What kind of value this is, in one word.
    pub fn type_str(&self) -> (out: &'static str)
        ensures
            out@ == self.tree().kind(),
    {
        match self {
            Toml::Text(_) => "string",
            Toml::Integer(_) => "integer",
            Toml::Float(_) => "float",
            Toml::Boolean(_) => "boolean",
            Toml::Datetime(_) => "datetime",
            Toml::Array(_) => "array",
            Toml::Table(_) => "table",
        }
    }
}

/// What a table holds under a key.
pub open spec fn find(table: Seq<(Seq<char>, Tree)>, key: Seq<char>) -> Option<Tree>
    decreases table.len(),
{
    if table.len() == 0 {
        None
    } else if table[0].0 == key {
        Some(table[0].1)
    } else {
        find(table.skip(1), key)
    }
}

/// What a table holds under `key`.
pub fn get<'a>(table: &'a Vec<(String, Toml)>, key: &str) -> (out: Option<&'a Toml>)
    ensures
        match out {
            Some(toml) => find(entries_of(table@), key@) == Some(toml.tree()),
            None => find(entries_of(table@), key@) is None,
        },
{
    let mut i: usize = 0;
    assert(entries_of(table@).skip(0) =~= entries_of(table@));
    while i < table.len()
        invariant
            i <= table.len(),
            find(entries_of(table@), key@) == find(entries_of(table@).skip(i as int), key@),
        decreases table.len() - i,
    {
        proof {
            assert(entries_of(table@).skip(i as int)[0] == (
                table@[i as int].0@,
                table@[i as int].1.tree(),
            ));
            assert(entries_of(table@).skip(i as int).skip(1) =~= entries_of(table@).skip(i + 1));
        }
        if crate::text::same(table[i].0.as_str(), key) {
            return Some(&table[i].1);
        }
        i += 1;
    }
    None
}

/// The entries of a configuration file, or what is wrong with its text.
pub fn parse(text: &str) -> (out: Result<Vec<(String, Toml)>, String>)
    ensures
        match out {
            Ok(table) => toml_of(text@) == Ok::<Tree, Seq<char>>(
                Tree::Table(entries_of(table@)),
            ),
            Err(error) => toml_of(text@) == Err::<Tree, Seq<char>>(error@),
        },
{
    match read(text) {
        Ok(value) => {
            let toml = grow(value);
            proof {
                tree_is_its_parts(toml);
            }
            match toml {
                Toml::Table(table) => Ok(table),
                _ => Ok(Vec::new()),
            }
        },
        Err(error) => Err(error),
    }
}

/// What is found under a key is the first entry that has it.
pub proof fn the_first_entry_is_found(table: Seq<(Seq<char>, Tree)>, i: int)
    requires
        0 <= i < table.len(),
        forall|k: int| 0 <= k < i ==> (#[trigger] table[k]).0 != table[i].0,
    ensures
        find(table, table[i].0) == Some(table[i].1),
    decreases table.len(),
{
    if i > 0 {
        assert(table[0].0 != table[i].0);
        let rest = table.skip(1);
        assert forall|k: int| 0 <= k < i - 1 implies (#[trigger] rest[k]).0 != rest[i - 1].0 by {
            assert(table[k + 1].0 != table[i].0);
        }
        the_first_entry_is_found(rest, i - 1);
    }
}

/// A key that no entry has is not found.
pub proof fn what_is_not_there_is_not_found(table: Seq<(Seq<char>, Tree)>, key: Seq<char>)
    requires
        forall|k: int| 0 <= k < table.len() ==> (#[trigger] table[k]).0 != key,
    ensures
        find(table, key) is None,
    decreases table.len(),
{
    if table.len() > 0 {
        assert(table[0].0 != key);
        let rest = table.skip(1);
        assert forall|k: int| 0 <= k < rest.len() implies (#[trigger] rest[k]).0 != key by {
            assert(table[k + 1].0 != key);
        }
        what_is_not_there_is_not_found(rest, key);
    }
}

/// Each kind of value is called by its own word.
pub proof fn a_value_is_called_by_its_kind(
    s: Seq<char>,
    n: int,
    b: bool,
    items: Seq<Tree>,
    entries: Seq<(Seq<char>, Tree)>,
)
    ensures
        Tree::Text(s).kind() == "string"@,
        Tree::Integer(n).kind() == "integer"@,
        Tree::Float(s).kind() == "float"@,
        Tree::Boolean(b).kind() == "boolean"@,
        Tree::Datetime(s).kind() == "datetime"@,
        Tree::Array(items).kind() == "array"@,
        Tree::Table(entries).kind() == "table"@,
{
}

} // verus!
