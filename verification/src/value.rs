//! Values of records and of mirrors, as the generated operations see them:
//! records of fields, slots that hold something or nothing, and leaves that
//! no operation looks into.
use vstd::prelude::*;

verus! {

/// A value of a record, of a mirror, or of one of their fields.
#[derive(Debug, PartialEq, Eq)]
pub enum Value<T> {
    /// A value that the operations move and never inspect.
    Leaf(T),
    /// A nullable slot that holds nothing.
    Absent,
    /// A nullable slot that holds a value.
    Present(Box<Value<T>>),
    /// A record or a mirror: the values of its fields, in declaration order.
    Record(Vec<Value<T>>),
}

/// The mathematical form of a [`Value`].
pub ghost enum Tree<T> {
    Leaf(T),
    Absent,
    Present(Box<Tree<T>>),
    Record(Seq<Tree<T>>),
}

/// The tree that a value stands for.
pub open spec fn tree_of<T>(v: Value<T>) -> Tree<T>
    decreases v,
{
    match v {
        Value::Leaf(t) => Tree::Leaf(t),
        Value::Absent => Tree::Absent,
        Value::Present(inner) => Tree::Present(Box::new(tree_of(*inner))),
        Value::Record(items) => Tree::Record(
            Seq::new(
                items@.len(),
                |i: int|
                    if 0 <= i < items@.len() {
                        tree_of(items@[i])
                    } else {
                        Tree::Absent
                    },
            ),
        ),
    }
}

impl<T> View for Value<T> {
    type V = Tree<T>;

    open spec fn view(&self) -> Tree<T> {
        tree_of(*self)
    }
}

/// The trees of a vector of values.
pub open spec fn trees<T>(items: Seq<Value<T>>) -> Seq<Tree<T>> {
    items.map_values(|v: Value<T>| v@)
}

/// A record's tree is the record of its fields' trees.
pub proof fn lemma_record_view<T>(items: Vec<Value<T>>)
    ensures
        Value::Record(items)@ == Tree::Record(trees(items@)),
{
    assert(Value::Record(items)@->Record_0 =~= trees(items@));
}

impl<T> Value<T> {
    /// A slot that holds `inner`.
    pub fn present(inner: Value<T>) -> (r: Self)
        ensures
            r@ == Tree::Present(Box::new(inner@)),
    {
        Value::Present(Box::new(inner))
    }

    /// A record of `items`.
    pub fn record(items: Vec<Value<T>>) -> (r: Self)
        ensures
            r@ == Tree::Record(trees(items@)),
    {
        proof {
            lemma_record_view(items);
        }
        Value::Record(items)
    }

    /// Whether this is a nullable slot that holds something.
    pub fn is_present(&self) -> (r: bool)
        ensures
            r == (self@ is Present),
    {
        match self {
            Value::Present(_) => true,
            _ => false,
        }
    }
}

} // verus!
