//! The data access layer's query semantics: which rows each query
//! returns, and in what order.
//!
//! The driver outside the library hands over the raw rows of a table;
//! the functions here select and order them. Both queries return rows
//! in ascending `id` order, and an empty table yields an empty result,
//! not an error.

use vstd::prelude::*;
use crate::model::{List, Todo};

verus! {

/// Ascending `id` order over a run of lists.
pub open spec fn lists_sorted(s: Seq<List>) -> bool {
    forall|i: int, j: int| 0 <= i < j < s.len() ==> s[i].id <= s[j].id
}

/// Ascending `id` order over a run of todos.
pub open spec fn todos_sorted(s: Seq<Todo>) -> bool {
    forall|i: int, j: int| 0 <= i < j < s.len() ==> s[i].id <= s[j].id
}

/// Where a new list row lands in a run already in ascending order:
/// after every suffix element with a larger id.
pub open spec fn list_insert_pos(s: Seq<List>, x: List) -> int
    decreases s.len(),
{
    if s.len() == 0 {
        0
    } else if s.last().id <= x.id {
        s.len() as int
    } else {
        list_insert_pos(s.drop_last(), x)
    }
}

/// A list row inserted at its position.
pub open spec fn list_insert_sorted(s: Seq<List>, x: List) -> Seq<List> {
    s.insert(list_insert_pos(s, x), x)
}

/// The fetched list rows brought into ascending `id` order, one
/// insertion at a time.
pub open spec fn sorted_lists(s: Seq<List>) -> Seq<List>
    decreases s.len(),
{
    if s.len() == 0 {
        Seq::empty()
    } else {
        list_insert_sorted(sorted_lists(s.drop_last()), s.last())
    }
}

/// Where a new todo row lands in a run already in ascending order.
pub open spec fn todo_insert_pos(s: Seq<Todo>, x: Todo) -> int
    decreases s.len(),
{
    if s.len() == 0 {
        0
    } else if s.last().id <= x.id {
        s.len() as int
    } else {
        todo_insert_pos(s.drop_last(), x)
    }
}

/// A todo row inserted at its position.
pub open spec fn todo_insert_sorted(s: Seq<Todo>, x: Todo) -> Seq<Todo> {
    s.insert(todo_insert_pos(s, x), x)
}

/// The fetched todo rows brought into ascending `id` order.
pub open spec fn sorted_todos(s: Seq<Todo>) -> Seq<Todo>
    decreases s.len(),
{
    if s.len() == 0 {
        Seq::empty()
    } else {
        todo_insert_sorted(sorted_todos(s.drop_last()), s.last())
    }
}

/// Whether a todo row belongs to the asked-for list.
pub open spec fn has_list_id(t: Todo, list_id: i64) -> bool {
    t.list_id == list_id
}

/// The rows of the `todos` table bound to one list, in table order.
pub open spec fn matching_todos(s: Seq<Todo>, list_id: i64) -> Seq<Todo> {
    s.filter(|t: Todo| has_list_id(t, list_id))
}

/// What `GET /lists/{id}/todos` returns of the stored rows: the
/// matching rows, in ascending `id` order.
pub open spec fn todos_for(s: Seq<Todo>, list_id: i64) -> Seq<Todo> {
    sorted_todos(matching_todos(s, list_id))
}

proof fn lemma_list_insert_pos(s: Seq<List>, x: List)
    ensures
        0 <= list_insert_pos(s, x) <= s.len(),
        forall|j: int| list_insert_pos(s, x) <= j < s.len() ==> s[j].id > x.id,
        list_insert_pos(s, x) > 0 ==> s[list_insert_pos(s, x) - 1].id <= x.id,
    decreases s.len(),
{
    if s.len() == 0 {
    } else if s.last().id <= x.id {
    } else {
        lemma_list_insert_pos(s.drop_last(), x);
        let p = list_insert_pos(s, x);
        assert forall|j: int| p <= j < s.len() implies s[j].id > x.id by {
            if j < s.len() - 1 {
                assert(s.drop_last()[j] == s[j]);
            }
        }
        if p > 0 {
            assert(s.drop_last()[p - 1] == s[p - 1]);
        }
    }
}

proof fn lemma_todo_insert_pos(s: Seq<Todo>, x: Todo)
    ensures
        0 <= todo_insert_pos(s, x) <= s.len(),
        forall|j: int| todo_insert_pos(s, x) <= j < s.len() ==> s[j].id > x.id,
        todo_insert_pos(s, x) > 0 ==> s[todo_insert_pos(s, x) - 1].id <= x.id,
    decreases s.len(),
{
    if s.len() == 0 {
    } else if s.last().id <= x.id {
    } else {
        lemma_todo_insert_pos(s.drop_last(), x);
        let p = todo_insert_pos(s, x);
        assert forall|j: int| p <= j < s.len() implies s[j].id > x.id by {
            if j < s.len() - 1 {
                assert(s.drop_last()[j] == s[j]);
            }
        }
        if p > 0 {
            assert(s.drop_last()[p - 1] == s[p - 1]);
        }
    }
}

proof fn lemma_list_insert_sorted(s: Seq<List>, x: List)
    requires
        lists_sorted(s),
    ensures
        lists_sorted(list_insert_sorted(s, x)),
        list_insert_sorted(s, x).to_multiset() == s.to_multiset().insert(x),
        list_insert_sorted(s, x).len() == s.len() + 1,
{
    lemma_list_insert_pos(s, x);
    let p = list_insert_pos(s, x);
    vstd::seq_lib::to_multiset_insert(s, p, x);
    s.insert_ensures(p, x);
    let r = list_insert_sorted(s, x);
    assert forall|i: int, j: int| 0 <= i < j < r.len() implies r[i].id <= r[j].id by {
        if j < p {
            assert(r[i] == s[i] && r[j] == s[j]);
        } else if i > p {
            assert(r[i] == s[i - 1] && r[j] == s[j - 1]);
        } else if i == p {
            assert(r[j] == s[j - 1] && s[j - 1].id > x.id);
        } else if j == p {
            assert(r[i] == s[i]);
            if p > 0 {
                assert(s[i].id <= s[p - 1].id);
            }
        } else {
            assert(r[i] == s[i] && r[j] == s[j - 1]);
            if p > 0 && i < p {
                assert(s[i].id <= s[p - 1].id);
            }
            assert(s[j - 1].id > x.id);
        }
    }
}

proof fn lemma_todo_insert_sorted(s: Seq<Todo>, x: Todo)
    requires
        todos_sorted(s),
    ensures
        todos_sorted(todo_insert_sorted(s, x)),
        todo_insert_sorted(s, x).to_multiset() == s.to_multiset().insert(x),
        todo_insert_sorted(s, x).len() == s.len() + 1,
{
    lemma_todo_insert_pos(s, x);
    let p = todo_insert_pos(s, x);
    vstd::seq_lib::to_multiset_insert(s, p, x);
    s.insert_ensures(p, x);
    let r = todo_insert_sorted(s, x);
    assert forall|i: int, j: int| 0 <= i < j < r.len() implies r[i].id <= r[j].id by {
        if j < p {
            assert(r[i] == s[i] && r[j] == s[j]);
        } else if i > p {
            assert(r[i] == s[i - 1] && r[j] == s[j - 1]);
        } else if i == p {
            assert(r[j] == s[j - 1] && s[j - 1].id > x.id);
        } else if j == p {
            assert(r[i] == s[i]);
            if p > 0 {
                assert(s[i].id <= s[p - 1].id);
            }
        } else {
            assert(r[i] == s[i] && r[j] == s[j - 1]);
            if p > 0 && i < p {
                assert(s[i].id <= s[p - 1].id);
            }
            assert(s[j - 1].id > x.id);
        }
    }
}

/// The `lists` query is an ordered retrieval: its result is in
/// ascending `id` order and holds exactly the stored rows, however
/// they were inserted.
pub proof fn lemma_sorted_lists_correct(s: Seq<List>)
    ensures
        lists_sorted(sorted_lists(s)),
        sorted_lists(s).to_multiset() == s.to_multiset(),
        sorted_lists(s).len() == s.len(),
    decreases s.len(),
{
    broadcast use vstd::seq_lib::group_to_multiset_ensures;

    if s.len() == 0 {
        assert(sorted_lists(s).to_multiset() =~= s.to_multiset());
    } else {
        lemma_sorted_lists_correct(s.drop_last());
        lemma_list_insert_sorted(sorted_lists(s.drop_last()), s.last());
        assert(s =~= s.drop_last().push(s.last()));
        assert(s.drop_last().push(s.last()).to_multiset() == s.drop_last().to_multiset().insert(
            s.last(),
        ));
    }
}

/// The `todos` query is an ordered retrieval of the matching rows: in
/// ascending `id` order, exactly the stored rows whose `list_id` is
/// the one asked for, and nothing else.
pub proof fn lemma_todos_for_correct(s: Seq<Todo>, list_id: i64)
    ensures
        todos_sorted(todos_for(s, list_id)),
        todos_for(s, list_id).to_multiset() == matching_todos(s, list_id).to_multiset(),
        todos_for(s, list_id).len() == matching_todos(s, list_id).len(),
        forall|k: int|
            0 <= k < todos_for(s, list_id).len() ==> todos_for(s, list_id)[k].list_id == list_id,
    decreases s.len(),
{
    broadcast use vstd::seq_lib::group_to_multiset_ensures;

    lemma_sorted_todos_correct(matching_todos(s, list_id));
    let f = matching_todos(s, list_id);
    let r = todos_for(s, list_id);
    assert forall|k: int| 0 <= k < r.len() implies r[k].list_id == list_id by {
        broadcast use vstd::seq_lib::group_filter_ensures;

        assert(r.contains(r[k]));
        assert(r.to_multiset().count(r[k]) > 0);
        assert(f.contains(r[k]));
        let j = choose|j: int| 0 <= j < f.len() && f[j] == r[k];
        assert(has_list_id(f[j], list_id));
    }
}

proof fn lemma_sorted_todos_correct(s: Seq<Todo>)
    ensures
        todos_sorted(sorted_todos(s)),
        sorted_todos(s).to_multiset() == s.to_multiset(),
        sorted_todos(s).len() == s.len(),
    decreases s.len(),
{
    broadcast use vstd::seq_lib::group_to_multiset_ensures;

    if s.len() == 0 {
        assert(sorted_todos(s).to_multiset() =~= s.to_multiset());
    } else {
        lemma_sorted_todos_correct(s.drop_last());
        lemma_todo_insert_sorted(sorted_todos(s.drop_last()), s.last());
        assert(s =~= s.drop_last().push(s.last()));
        assert(s.drop_last().push(s.last()).to_multiset() == s.drop_last().to_multiset().insert(
            s.last(),
        ));
    }
}

/// Inserts a list row at its position in a vector held in ascending
/// `id` order.
fn insert_list(v: &mut Vec<List>, x: List)
    ensures
        final(v)@ == list_insert_sorted(old(v)@, x),
{
    let ghost s = v@;
    proof {
        assert(s.take(s.len() as int) =~= s);
    }
    let mut p: usize = v.len();
    while p > 0 && v[p - 1].id > x.id
        invariant
            p <= v@.len(),
            v@ == s,
            list_insert_pos(s, x) == list_insert_pos(s.take(p as int), x),
        decreases p,
    {
        proof {
            assert(s.take(p as int).last() == s[p - 1]);
            assert(s.take(p as int).drop_last() =~= s.take(p - 1));
        }
        p = p - 1;
    }
    proof {
        lemma_list_insert_pos(s, x);
        if p == 0 {
            assert(s.take(0).len() == 0);
        } else {
            assert(s.take(p as int).last() == s[p - 1]);
        }
        assert(list_insert_pos(s, x) == p as int);
    }
    v.insert(p, x);
}

/// Inserts a todo row at its position in a vector held in ascending
/// `id` order.
fn insert_todo(v: &mut Vec<Todo>, x: Todo)
    ensures
        final(v)@ == todo_insert_sorted(old(v)@, x),
{
    let ghost s = v@;
    proof {
        assert(s.take(s.len() as int) =~= s);
    }
    let mut p: usize = v.len();
    while p > 0 && v[p - 1].id > x.id
        invariant
            p <= v@.len(),
            v@ == s,
            todo_insert_pos(s, x) == todo_insert_pos(s.take(p as int), x),
        decreases p,
    {
        proof {
            assert(s.take(p as int).last() == s[p - 1]);
            assert(s.take(p as int).drop_last() =~= s.take(p - 1));
        }
        p = p - 1;
    }
    proof {
        lemma_todo_insert_pos(s, x);
        if p == 0 {
            assert(s.take(0).len() == 0);
        } else {
            assert(s.take(p as int).last() == s[p - 1]);
        }
        assert(todo_insert_pos(s, x) == p as int);
    }
    v.insert(p, x);
}

/// Selects all rows of the `lists` table, in ascending `id` order. An
/// empty table yields an empty result.
pub fn get_lists(rows: Vec<List>) -> (r: Vec<List>)
    ensures
        r@ == sorted_lists(rows@),
{
    let ghost orig = rows@;
    let mut rest = rows;
    let mut out: Vec<List> = Vec::new();
    let ghost mut i: int = 0;
    proof {
        assert(orig.skip(0) =~= orig);
        assert(orig.take(0) =~= Seq::<List>::empty());
    }
    while rest.len() > 0
        invariant
            0 <= i <= orig.len(),
            i + rest@.len() == orig.len(),
            rest@ == orig.skip(i),
            out@ == sorted_lists(orig.take(i)),
        decreases rest@.len(),
    {
        let x = rest.remove(0);
        proof {
            assert(x == orig[i]);
            assert(orig.skip(i).remove(0) =~= orig.skip(i + 1));
            assert(orig.take(i + 1).drop_last() =~= orig.take(i));
            assert(orig.take(i + 1).last() == orig[i]);
        }
        insert_list(&mut out, x);
        proof {
            i = i + 1;
        }
    }
    proof {
        assert(orig.take(orig.len() as int) =~= orig);
    }
    out
}

/// Selects the rows of the `todos` table whose `list_id` equals the
/// given id, in ascending `id` order. No row matching is an empty
/// result, indistinguishable from a list that does not exist.
pub fn get_todos(rows: Vec<Todo>, list_id: i64) -> (r: Vec<Todo>)
    ensures
        r@ == todos_for(rows@, list_id),
{
    let ghost orig = rows@;
    let mut rest = rows;
    let mut out: Vec<Todo> = Vec::new();
    let ghost mut i: int = 0;
    proof {
        assert(orig.skip(0) =~= orig);
        assert(matching_todos(orig.take(0), list_id) =~= Seq::<Todo>::empty());
    }
    while rest.len() > 0
        invariant
            0 <= i <= orig.len(),
            i + rest@.len() == orig.len(),
            rest@ == orig.skip(i),
            out@ == todos_for(orig.take(i), list_id),
        decreases rest@.len(),
    {
        let x = rest.remove(0);
        proof {
            reveal_with_fuel(Seq::<_>::filter, 2);
            assert(x == orig[i]);
            assert(orig.skip(i).remove(0) =~= orig.skip(i + 1));
            assert(orig.take(i + 1).drop_last() =~= orig.take(i));
            assert(orig.take(i + 1).last() == orig[i]);
            let prev = matching_todos(orig.take(i), list_id);
            let next = matching_todos(orig.take(i + 1), list_id);
            if has_list_id(orig[i], list_id) {
                assert(next == prev.push(orig[i]));
                assert(prev.push(orig[i]).drop_last() =~= prev);
                assert(prev.push(orig[i]).last() == orig[i]);
            } else {
                assert(next == prev);
            }
        }
        if x.list_id == list_id {
            insert_todo(&mut out, x);
        }
        proof {
            i = i + 1;
        }
    }
    proof {
        assert(orig.take(orig.len() as int) =~= orig);
    }
    out
}

} // verus!
