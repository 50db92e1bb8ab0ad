//! Settings as a tree of named values, and the filling of one tree from
//! another: what the first tree lacks it takes from the second.

use vstd::prelude::*;
use vstd::string::*;
use crate::art::same_text;

verus! {

/// A setting: a value, or a table of named settings.
#[derive(Debug)]
pub enum Setting<T> {
    Leaf(T),
    Table(Vec<(String, Setting<T>)>),
}

/// A setting as a mathematical value.
pub enum Tree<T> {
    Leaf(T),
    Table(Seq<(Seq<char>, Tree<T>)>),
}

/// The setting as a mathematical value.
pub open spec fn tree_of<T>(s: Setting<T>) -> Tree<T>
    decreases s,
{
    match s {
        Setting::Leaf(t) => Tree::Leaf(t),
        Setting::Table(v) => Tree::Table(trees_of(v@)),
    }
}

/// The named settings as mathematical values.
pub open spec fn trees_of<T>(e: Seq<(String, Setting<T>)>) -> Seq<(Seq<char>, Tree<T>)>
    decreases e,
{
    if e.len() == 0 {
        Seq::empty()
    } else {
        trees_of(e.drop_last()).push((e.last().0@, tree_of(e.last().1)))
    }
}

/// The first place at or after `i` where the table has a setting of that
/// name, or the length of the table where it has none.
pub open spec fn first_at<T>(a: Seq<(Seq<char>, Tree<T>)>, key: Seq<char>, i: int) -> int
    decreases a.len() - i,
{
    if i < 0 || i >= a.len() || a[i].0 == key {
        i
    } else {
        first_at(a, key, i + 1)
    }
}

/// The table filled with one named setting. A name that the table lacks
/// is added with its setting. Where the table has a table under the name
/// and the setting is a table too, the one is filled from the other. Else
/// the table stays as it is.
pub open spec fn filled_one<T>(a: Seq<(Seq<char>, Tree<T>)>, key: Seq<char>, value: Tree<T>) -> Seq<
    (Seq<char>, Tree<T>),
>
    decreases value,
{
    let i = first_at(a, key, 0);
    if i < 0 || i >= a.len() {
        a.push((key, value))
    } else {
        match (a[i].1, value) {
            (Tree::Table(x), Tree::Table(y)) => a.update(i, (a[i].0, Tree::Table(filled(x, y)))),
            _ => a,
        }
    }
}

/// The table `a` filled from the table `b`, one named setting of `b` after
/// the other.
pub open spec fn filled<T>(a: Seq<(Seq<char>, Tree<T>)>, b: Seq<(Seq<char>, Tree<T>)>) -> Seq<
    (Seq<char>, Tree<T>),
>
    decreases b,
{
    if b.len() == 0 {
        a
    } else {
        filled(filled_one(a, b[0].0, b[0].1), b.drop_first())
    }
}

/// Filling the table with the named setting adds something to it, at the
/// top or further down.
pub open spec fn adds_one<T>(a: Seq<(Seq<char>, Tree<T>)>, key: Seq<char>, value: Tree<T>) -> bool
    decreases value,
{
    let i = first_at(a, key, 0);
    if i < 0 || i >= a.len() {
        true
    } else {
        match (a[i].1, value) {
            (Tree::Table(x), Tree::Table(y)) => adds(x, y),
            _ => false,
        }
    }
}

/// Filling the table `a` from the table `b` adds something to it.
pub open spec fn adds<T>(a: Seq<(Seq<char>, Tree<T>)>, b: Seq<(Seq<char>, Tree<T>)>) -> bool
    decreases b,
{
    if b.len() == 0 {
        false
    } else {
        adds_one(a, b[0].0, b[0].1) || adds(filled_one(a, b[0].0, b[0].1), b.drop_first())
    }
}

/// The mathematical values of named settings stand in their places.
pub proof fn lemma_trees_of<T>(e: Seq<(String, Setting<T>)>)
    ensures
        trees_of(e).len() == e.len(),
        forall|i: int|
            0 <= i < e.len() ==> #[trigger] trees_of(e)[i] == (e[i].0@, tree_of(e[i].1)),
    decreases e.len(),
{
    if e.len() > 0 {
        lemma_trees_of(e.drop_last());
        assert forall|i: int| 0 <= i < e.len() implies #[trigger] trees_of(e)[i] == (
            e[i].0@,
            tree_of(e[i].1),
        ) by {
            if i < e.len() - 1 {
                assert(e.drop_last()[i] == e[i]);
            }
        }
    }
}

/// Where the table has the first setting of that name.
fn find<T>(a: &Vec<(String, Setting<T>)>, key: &String) -> (i: usize)
    ensures
        i == first_at(trees_of(a@), key@, 0),
        i <= a.len(),
{
    proof {
        lemma_trees_of(a@);
    }
    let mut i: usize = 0;
    while i < a.len()
        invariant
            i <= a.len(),
            trees_of(a@).len() == a.len(),
            forall|k: int|
                0 <= k < a.len() ==> #[trigger] trees_of(a@)[k] == (a@[k].0@, tree_of(a@[k].1)),
            first_at(trees_of(a@), key@, i as int) == first_at(trees_of(a@), key@, 0),
        decreases a.len() - i,
    {
        if same_text(a[i].0.as_str(), key.as_str()) {
            return i;
        }
        i = i + 1;
    }
    i
}

/// Fills the settings `a` from the settings `b` and tells whether anything
/// was added. A name that `a` lacks is added with its setting. Where both
/// have a table under one name, the table of `a` is filled from that of
/// `b` in the same way. What `a` has otherwise stays as it is.
pub fn merge_maps<T>(a: &mut Vec<(String, Setting<T>)>, b: Vec<(String, Setting<T>)>) -> (was_merged:
    bool)
    ensures
        trees_of(final(a)@) == filled(trees_of(old(a)@), trees_of(b@)),
        was_merged == adds(trees_of(old(a)@), trees_of(b@)),
    decreases b,
{
    let mut was_merged = false;
    let mut rest = b;
    let ghost mut done: int = 0;
    proof {
        assert(b@.subrange(0, b@.len() as int) == b@);
    }
    while rest.len() > 0
        invariant
            0 <= done <= b@.len(),
            rest@ == b@.subrange(done, b@.len() as int),
            filled(trees_of(a@), trees_of(rest@)) == filled(trees_of(old(a)@), trees_of(b@)),
            (was_merged || adds(trees_of(a@), trees_of(rest@))) == adds(
                trees_of(old(a)@),
                trees_of(b@),
            ),
        decreases rest.len(),
    {
        let ghost before = a@;
        let ghost todo = rest@;
        let ghost first = rest@[0];
        let (key, value) = rest.remove(0);
        proof {
            lemma_trees_of(todo);
            lemma_trees_of(rest@);
            lemma_trees_of(before);
            assert(rest@ == b@.subrange(done + 1, b@.len() as int));
            assert(first == b@[done]);
            assert(trees_of(rest@) == trees_of(todo).drop_first());
            assert(trees_of(todo)[0] == (key@, tree_of(value)));
        }
        let ghost was = was_merged;
        let ghost gain = adds_one(trees_of(before), key@, tree_of(value));
        proof {
            assert(adds(trees_of(before), trees_of(todo)) == (gain || adds(
                filled_one(trees_of(before), key@, tree_of(value)),
                trees_of(rest@),
            )));
        }
        let i = find(a, &key);
        if i >= a.len() {
            a.push((key, value));
            proof {
                assert(a@.drop_last() == before);
                assert(trees_of(a@) == filled_one(trees_of(before), key@, tree_of(value)));
            }
            was_merged = true;
        } else {
            let (name, mine) = a.remove(i);
            let ghost without = a@;
            match mine {
                Setting::Table(mut x) => {
                    match value {
                        Setting::Table(y) => {
                            let ghost inner = x@;
                            let deeper = merge_maps(&mut x, y);
                            if deeper {
                                was_merged = true;
                            }
                            a.insert(i, (name, Setting::Table(x)));
                            proof {
                                lemma_trees_of(a@);
                                assert(tree_of(Setting::Table(x)) == Tree::Table(trees_of(x@)));
                                assert(tree_of(mine) == Tree::<T>::Table(trees_of(inner)));
                                assert(trees_of(a@) =~= trees_of(before).update(
                                    i as int,
                                    (name@, Tree::Table(trees_of(x@))),
                                ));
                                assert(gain == deeper);
                            }
                        },
                        Setting::Leaf(t) => {
                            a.insert(i, (name, Setting::Table(x)));
                            proof {
                                assert(a@ == before);
                            }
                        },
                    }
                },
                Setting::Leaf(t) => {
                    a.insert(i, (name, Setting::Leaf(t)));
                    proof {
                        assert(a@ == before);
                    }
                },
            }
            proof {
                assert(trees_of(a@) == filled_one(trees_of(before), key@, tree_of(value)));
                assert(was_merged == (was || gain));
            }
        }
        proof {
            done = done + 1;
        }
    }
    was_merged
}

/// Where filling from one named setting adds nothing, the table stays as
/// it was.
pub proof fn lemma_nothing_added_one<T>(
    a: Seq<(Seq<char>, Tree<T>)>,
    key: Seq<char>,
    value: Tree<T>,
)
    requires
        !adds_one(a, key, value),
    ensures
        filled_one(a, key, value) == a,
    decreases value,
{
    let i = first_at(a, key, 0);
    if 0 <= i < a.len() {
        match (a[i].1, value) {
            (Tree::Table(x), Tree::Table(y)) => {
                nothing_added_changes_nothing(x, y);
                assert(a.update(i, (a[i].0, Tree::Table(x))) =~= a);
            },
            _ => {},
        }
    }
}

/// Where filling adds nothing, the settings stay as they were: what is
/// there already is never changed.
pub proof fn nothing_added_changes_nothing<T>(
    a: Seq<(Seq<char>, Tree<T>)>,
    b: Seq<(Seq<char>, Tree<T>)>,
)
    requires
        !adds(a, b),
    ensures
        filled(a, b) == a,
    decreases b,
{
    if b.len() > 0 {
        lemma_nothing_added_one(a, b[0].0, b[0].1);
        nothing_added_changes_nothing(a, b.drop_first());
    }
}

} // verus!
