//! TOML documents as plain values, and how fields are read from them.

use vstd::prelude::*;
use vstd::string::*;

use crate::outside::{toml_contents, toml_level};
use crate::text::same_text;

verus! {

broadcast use vstd::seq_lib::group_seq_properties;

/// What a TOML value says. Floats and dates are of no interest here.
pub ghost enum ItemModel {
    Text(Seq<char>),
    Integer(i64),
    Boolean(bool),
    List(Seq<ItemModel>),
    Table(Seq<(Seq<char>, ItemModel)>),
    Other,
}

/// A TOML value.
pub enum Item {
    Text(String),
    Integer(i64),
    Boolean(bool),
    List(Vec<Item>),
    Table(Vec<(String, Item)>),
    /// A float or a date.
    Other,
}

impl Item {
    /// What the value says.
    pub open spec fn model(self) -> ItemModel
        decreases self,
    {
        match self {
            Item::Text(s) => ItemModel::Text(s@),
            Item::Integer(n) => ItemModel::Integer(n),
            Item::Boolean(b) => ItemModel::Boolean(b),
            Item::List(v) => ItemModel::List(
                Seq::new(
                    v@.len(),
                    |i: int|
                        if 0 <= i < v@.len() {
                            v@[i].model()
                        } else {
                            ItemModel::Other
                        },
                ),
            ),
            Item::Table(v) => ItemModel::Table(
                Seq::new(
                    v@.len(),
                    |i: int|
                        if 0 <= i < v@.len() {
                            (v@[i].0@, v@[i].1.model())
                        } else {
                            (Seq::empty(), ItemModel::Other)
                        },
                ),
            ),
            Item::Other => ItemModel::Other,
        }
    }
}

/// One level of a TOML value as the `toml` crate holds it.
pub enum Level<'a> {
    Text(&'a String),
    Integer(i64),
    Boolean(bool),
    List(&'a Vec<toml::Value>),
    Table(Vec<(&'a String, &'a toml::Value)>),
    /// A float or a date.
    Other,
}

impl<'a> Level<'a> {
    /// What the value says.
    pub open spec fn model(self) -> ItemModel {
        match self {
            Level::Text(s) => ItemModel::Text(s@),
            Level::Integer(n) => ItemModel::Integer(n),
            Level::Boolean(b) => ItemModel::Boolean(b),
            Level::List(v) => ItemModel::List(
                Seq::new(v@.len(), |i: int| toml_contents(v@[i])),
            ),
            Level::Table(v) => ItemModel::Table(
                Seq::new(v@.len(), |i: int| (v@[i].0@, toml_contents(*v@[i].1))),
            ),
            Level::Other => ItemModel::Other,
        }
    }
}

/// Takes a TOML value over, level by level.
pub fn item_of(value: &toml::Value) -> (r: Item)
    ensures
        r.model() == toml_contents(*value),
    decreases toml_contents(*value),
{
    match toml_level(value) {
        Level::Text(s) => Item::Text(s.clone()),
        Level::Integer(n) => Item::Integer(n),
        Level::Boolean(b) => Item::Boolean(b),
        Level::List(values) => {
            let ghost parts = Seq::new(values@.len(), |i: int| toml_contents(values@[i]));
            let mut items: Vec<Item> = Vec::new();
            let mut i: usize = 0;
            while i < values.len()
                invariant
                    i <= values@.len(),
                    parts == Seq::new(values@.len(), |j: int| toml_contents(values@[j])),
                    toml_contents(*value) == ItemModel::List(parts),
                    items@.len() == i,
                    forall|j: int| 0 <= j < i ==> (#[trigger] items@[j]).model() == parts[j],
                decreases values@.len() - i,
            {
                assert(parts[i as int] == toml_contents(values@[i as int]));
                assert(decreases_to!(toml_contents(*value) => toml_contents(*value)->List_0));
                assert(decreases_to!(parts => parts[i as int]));
                items.push(item_of(&values[i]));
                i = i + 1;
            }
            proof {
                lemma_list_model(items);
                assert(items_model(items@) =~= parts);
            }
            Item::List(items)
        },
        Level::Table(members) => {
            let ghost parts = Seq::new(
                members@.len(),
                |i: int| (members@[i].0@, toml_contents(*members@[i].1)),
            );
            let mut fields: Vec<(String, Item)> = Vec::new();
            let mut i: usize = 0;
            while i < members.len()
                invariant
                    i <= members@.len(),
                    parts == Seq::new(
                        members@.len(),
                        |j: int| (members@[j].0@, toml_contents(*members@[j].1)),
                    ),
                    toml_contents(*value) == ItemModel::Table(parts),
                    fields@.len() == i,
                    forall|j: int|
                        0 <= j < i ==> ((#[trigger] fields@[j]).0@, fields@[j].1.model())
                            == parts[j],
                decreases members@.len() - i,
            {
                let (key, member) = members[i];
                assert(parts[i as int] == (key@, toml_contents(*member)));
                assert(decreases_to!(toml_contents(*value) => toml_contents(*value)->Table_0));
                assert(decreases_to!(parts => parts[i as int]));
                assert(decreases_to!(parts[i as int] => parts[i as int].1));
                fields.push((key.clone(), item_of(member)));
                i = i + 1;
            }
            proof {
                lemma_table_model(fields);
                assert(fields_model(fields@) =~= parts);
            }
            Item::Table(fields)
        },
        Level::Other => Item::Other,
    }
}

/// What the members of a table say.
pub open spec fn fields_model(fields: Seq<(String, Item)>) -> Seq<(Seq<char>, ItemModel)> {
    Seq::new(fields.len(), |i: int| (fields[i].0@, fields[i].1.model()))
}

/// What the elements of a list say.
pub open spec fn items_model(items: Seq<Item>) -> Seq<ItemModel> {
    Seq::new(items.len(), |i: int| items[i].model())
}

pub proof fn lemma_table_model(fields: Vec<(String, Item)>)
    ensures
        Item::Table(fields).model() == ItemModel::Table(fields_model(fields@)),
{
    assert(Item::Table(fields).model()->Table_0 =~= fields_model(fields@));
}

pub proof fn lemma_list_model(items: Vec<Item>)
    ensures
        Item::List(items).model() == ItemModel::List(items_model(items@)),
{
    assert(Item::List(items).model()->List_0 =~= items_model(items@));
}

/// What a value says, where there is one.
pub open spec fn opt_model(item: Option<&Item>) -> Option<ItemModel> {
    match item {
        Some(i) => Some(i.model()),
        None => None,
    }
}

/// The value of a field.
pub open spec fn field_of(fields: Seq<(Seq<char>, ItemModel)>, key: Seq<char>) -> Option<ItemModel>
    decreases fields.len(),
{
    if fields.len() == 0 {
        None
    } else if fields[0].0 == key {
        Some(fields[0].1)
    } else {
        field_of(fields.skip(1), key)
    }
}

/// The value of a field.
pub fn field<'a>(fields: &'a Vec<(String, Item)>, key: &str) -> (r: Option<&'a Item>)
    ensures
        opt_model(r) == field_of(fields_model(fields@), key@),
{
    let ghost model = fields_model(fields@);
    let mut i: usize = 0;
    assert(model.skip(0) =~= model);
    while i < fields.len()
        invariant
            i <= fields@.len(),
            model == fields_model(fields@),
            field_of(model.skip(i as int), key@) == field_of(model, key@),
        decreases fields@.len() - i,
    {
        assert(model.skip(i as int)[0] == model[i as int]);
        if same_text(fields[i].0.as_str(), key) {
            return Some(&fields[i].1);
        }
        assert(model.skip(i as int).skip(1) =~= model.skip(i + 1));
        i = i + 1;
    }
    None
}

// ---------------------------------------------------------------------------
// Typed reading. The outer `None` says that the value has another type.
// ---------------------------------------------------------------------------

/// A text that has to be there.
pub open spec fn text_in(item: Option<ItemModel>) -> Option<Seq<char>> {
    match item {
        Some(ItemModel::Text(s)) => Some(s),
        _ => None,
    }
}

/// A text that may be missing.
pub open spec fn optional_text_in(item: Option<ItemModel>) -> Option<Option<Seq<char>>> {
    match item {
        None => Some(None),
        Some(ItemModel::Text(s)) => Some(Some(s)),
        _ => None,
    }
}

/// An integer that has to be there.
pub open spec fn integer_in(item: Option<ItemModel>) -> Option<i64> {
    match item {
        Some(ItemModel::Integer(n)) => Some(n),
        _ => None,
    }
}

/// A boolean, false where it is missing.
pub open spec fn boolean_in(item: Option<ItemModel>) -> Option<bool> {
    match item {
        None => Some(false),
        Some(ItemModel::Boolean(b)) => Some(b),
        _ => None,
    }
}

/// A declaration: a boolean, or a table whose presence declares it.
pub open spec fn declared_in(item: Option<ItemModel>) -> Option<bool> {
    match item {
        Some(ItemModel::Table(_)) => Some(true),
        _ => boolean_in(item),
    }
}

pub fn read_text(item: Option<&Item>) -> (r: Option<String>)
    ensures
        crate::db::opt_text(r) == text_in(opt_model(item)),
{
    match item {
        Some(Item::Text(s)) => Some(s.clone()),
        _ => None,
    }
}

pub fn read_optional_text(item: Option<&Item>) -> (r: Option<Option<String>>)
    ensures
        match r {
            Some(found) => optional_text_in(opt_model(item)) == Some(crate::db::opt_text(found)),
            None => optional_text_in(opt_model(item)) is None,
        },
{
    match item {
        None => Some(None),
        Some(Item::Text(s)) => Some(Some(s.clone())),
        _ => None,
    }
}

pub fn read_integer(item: Option<&Item>) -> (r: Option<i64>)
    ensures
        r == integer_in(opt_model(item)),
{
    match item {
        Some(Item::Integer(n)) => Some(*n),
        _ => None,
    }
}

pub fn read_boolean(item: Option<&Item>) -> (r: Option<bool>)
    ensures
        r == boolean_in(opt_model(item)),
{
    match item {
        None => Some(false),
        Some(Item::Boolean(b)) => Some(*b),
        _ => None,
    }
}

pub fn read_declared(item: Option<&Item>) -> (r: Option<bool>)
    ensures
        r == declared_in(opt_model(item)),
{
    match item {
        Some(Item::Table(_)) => Some(true),
        _ => read_boolean(item),
    }
}

} // verus!
