//! Lists that come in parts.
use crate::lists;
use vstd::prelude::*;

verus! {

/// What has come of a list, of which `max_total` items at most are wanted.
pub struct Pager<T> {
    pub items: Vec<T>,
    pub max_total: usize,
    /// No further part is asked for.
    pub done: bool,
}

impl<T> Pager<T> {
    /// Before the first part.
    pub fn new(max_total: usize) -> (r: Self)
        ensures
            r.items@ == Seq::<T>::empty(),
            r.max_total == max_total,
            !r.done,
    {
        Pager { items: Vec::new(), max_total, done: false }
    }

    /// Takes in a part. It is the last where the list ends with it or enough
    /// has come.
    pub fn receive(&mut self, part: Vec<T>, last: bool)
        ensures
            final(self).items@ == old(self).items@ + part@,
            final(self).max_total == old(self).max_total,
            final(self).done == (last || final(self).items@.len() >= old(self).max_total),
    {
        let mut part = part;
        self.items.append(&mut part);
        self.done = last || self.items.len() >= self.max_total;
    }

    /// What was wanted of what has come.
    pub fn finish(self) -> (r: Vec<T>)
        ensures
            r@ == lists::at_most(self.items@, self.max_total as int),
            r@.len() <= self.max_total,
    {
        let mut items = self.items;
        if items.len() > self.max_total {
            items.truncate(self.max_total);
            assert(items@ =~= self.items@.take(self.max_total as int));
        }
        items
    }
}

// ---------------------------------------------------------------------------
// The course of a list

/// A part of a list: its items, what the request for the next part carries,
/// and whether the list ends with it.
pub struct PartView<T> {
    pub items: Seq<T>,
    pub next: Option<Seq<char>>,
    pub last: bool,
}

/// A list that is being read: what has come, how many items are wanted at most,
/// whether no further part is asked for, and what the next request carries.
pub struct ListView<T> {
    pub items: Seq<T>,
    pub limit: Option<nat>,
    pub done: bool,
    pub next: Option<Seq<char>>,
}

/// Before the first part, whose request carries `next`.
pub open spec fn list_start<T>(limit: Option<nat>, next: Option<Seq<char>>) -> ListView<T> {
    ListView { items: Seq::empty(), limit, done: false, next }
}

/// Whether as many items as are wanted have come.
pub open spec fn is_enough<T>(items: Seq<T>, limit: Option<nat>) -> bool {
    limit matches Some(n) && items.len() >= n
}

/// After a part.
pub open spec fn list_step<T>(l: ListView<T>, part: PartView<T>) -> ListView<T> {
    let items = l.items + part.items;
    ListView { items, done: part.last || is_enough(items, l.limit), next: part.next, ..l }
}

/// What is wanted of items.
pub open spec fn wanted<T>(items: Seq<T>, limit: Option<nat>) -> Seq<T> {
    match limit {
        Some(n) => lists::at_most(items, n as int),
        None => items,
    }
}

/// After as many of the parts, in order, as are asked for.
pub open spec fn list_run<T>(l: ListView<T>, parts: Seq<PartView<T>>) -> ListView<T>
    decreases parts.len(),
{
    if l.done || parts.len() == 0 {
        l
    } else {
        list_run(list_step(l, parts[0]), parts.drop_first())
    }
}

/// What the requests carry, in order, where the parts are the answers to them:
/// the last is the request that has no answer yet, where there is one.
pub open spec fn list_requests<T>(l: ListView<T>, parts: Seq<PartView<T>>) -> Seq<
    Option<Seq<char>>,
>
    decreases parts.len(),
{
    if l.done {
        Seq::empty()
    } else if parts.len() == 0 {
        seq![l.next]
    } else {
        seq![l.next] + list_requests(list_step(l, parts[0]), parts.drop_first())
    }
}

/// The parts up to the first that ends the list, which is among them.
pub open spec fn up_to_last<T>(parts: Seq<PartView<T>>) -> Seq<PartView<T>>
    decreases parts.len(),
{
    if parts.len() == 0 {
        parts
    } else if parts[0].last {
        seq![parts[0]]
    } else {
        seq![parts[0]] + up_to_last(parts.drop_first())
    }
}

/// The items of all parts, in order.
pub open spec fn all_items<T>(parts: Seq<PartView<T>>) -> Seq<T>
    decreases parts.len(),
{
    if parts.len() == 0 {
        Seq::empty()
    } else {
        parts[0].items + all_items(parts.drop_first())
    }
}

// ---------------------------------------------------------------------------
// Laws

/// Nothing that is wanted is lost by not asking for further parts once enough
/// has come.
pub proof fn law_enough_is_enough<T>(come: Seq<T>, more: Seq<T>, max_total: nat)
    requires
        come.len() >= max_total,
    ensures
        lists::at_most(come + more, max_total as int) == lists::at_most(come, max_total as int),
        lists::at_most(come, max_total as int).len() == max_total,
{
    assert((come + more).take(max_total as int) =~= come.take(max_total as int));
    assert(come.take(come.len() as int) =~= come);
}

/// A limit that is reached stays reached, and nothing behind it is wanted.
proof fn lemma_enough<T>(come: Seq<T>, more: Seq<T>, limit: Option<nat>)
    requires
        is_enough(come, limit),
    ensures
        is_enough(come + more, limit),
        wanted(come + more, limit) == wanted(come, limit),
{
    law_enough_is_enough(come, more, limit->0);
}

proof fn lemma_up_to_last<T>(parts: Seq<PartView<T>>)
    requires
        parts.len() > 0,
    ensures
        up_to_last(parts).len() > 0,
        all_items(up_to_last(parts)) == parts[0].items + (if parts[0].last {
            Seq::empty()
        } else {
            all_items(up_to_last(parts.drop_first()))
        }),
        up_to_last(parts).last().last == (parts[0].last || (parts.len() > 1 && up_to_last(
            parts.drop_first(),
        ).last().last)),
    decreases parts.len(),
{
    let rest = parts.drop_first();
    if parts[0].last {
        assert(seq![parts[0]].drop_first() =~= Seq::empty());
        assert(all_items(Seq::<PartView<T>>::empty()) =~= Seq::empty());
    } else {
        let more = up_to_last(rest);
        assert((seq![parts[0]] + more).drop_first() =~= more);
        if rest.len() > 0 {
            lemma_up_to_last(rest);
            assert((seq![parts[0]] + more).last() == more.last());
        }
    }
}

/// How many items are wanted does not change.
pub proof fn law_limit_stays<T>(l: ListView<T>, parts: Seq<PartView<T>>)
    ensures
        list_run(l, parts).limit == l.limit,
    decreases parts.len(),
{
    if !l.done && parts.len() > 0 {
        law_limit_stays(list_step(l, parts[0]), parts.drop_first());
    }
}

proof fn lemma_whole_list<T>(l: ListView<T>, parts: Seq<PartView<T>>)
    requires
        !l.done,
    ensures
        wanted(list_run(l, parts).items, l.limit) == wanted(
            l.items + all_items(up_to_last(parts)),
            l.limit,
        ),
        list_run(l, parts).done == (parts.len() > 0 && (up_to_last(parts).last().last || is_enough(
            l.items + all_items(up_to_last(parts)),
            l.limit,
        ))),
    decreases parts.len(),
{
    if parts.len() == 0 {
        assert(l.items + all_items(up_to_last(parts)) =~= l.items);
    } else {
        let rest = parts.drop_first();
        let s = list_step(l, parts[0]);
        lemma_up_to_last(parts);
        let more = if parts[0].last {
            Seq::empty()
        } else {
            all_items(up_to_last(rest))
        };
        assert(l.items + (parts[0].items + more) =~= s.items + more);
        if s.done {
            assert(list_run(s, rest) == s);
            if parts[0].last {
                assert(s.items + more =~= s.items);
            } else {
                lemma_enough(s.items, more, l.limit);
            }
        } else {
            lemma_whole_list(s, rest);
            if rest.len() == 0 {
                assert(s.items + more =~= s.items);
            }
        }
    }
}

/// Whatever the answers are, what is wanted of a list that was read is what is
/// wanted of the items of all parts up to the first that ends the list. It is
/// read once such a part has come, or enough items have.
pub proof fn law_whole_list<T>(
    limit: Option<nat>,
    next: Option<Seq<char>>,
    parts: Seq<PartView<T>>,
)
    ensures
        wanted(list_run(list_start::<T>(limit, next), parts).items, limit) == wanted(
            all_items(up_to_last(parts)),
            limit,
        ),
        list_run(list_start::<T>(limit, next), parts).done == (parts.len() > 0 && (up_to_last(
            parts,
        ).last().last || is_enough(all_items(up_to_last(parts)), limit))),
{
    let all = all_items(up_to_last(parts));
    lemma_whole_list(list_start::<T>(limit, next), parts);
    assert(Seq::<T>::empty() + all =~= all);
}

/// The first request carries what the list begins with, and each further one
/// what the answer before it gave; behind an answer that ends the list there is
/// none. Where the list is not read yet, every answer has led to a request.
pub proof fn law_requests_follow_answers<T>(l: ListView<T>, parts: Seq<PartView<T>>)
    requires
        !l.done,
    ensures
        0 < list_requests(l, parts).len() <= parts.len() + 1,
        list_requests(l, parts)[0] == l.next,
        forall|i: int|
            0 < i < list_requests(l, parts).len() ==> #[trigger] list_requests(l, parts)[i]
                == parts[i - 1].next && !parts[i - 1].last,
        !list_run(l, parts).done ==> list_requests(l, parts).len() == parts.len() + 1,
    decreases parts.len(),
{
    if parts.len() > 0 {
        let rest = parts.drop_first();
        let s = list_step(l, parts[0]);
        let all = list_requests(l, parts);
        let more = list_requests(s, rest);
        if !s.done {
            law_requests_follow_answers(s, rest);
        }
        assert forall|i: int| 0 < i < all.len() implies #[trigger] all[i] == parts[i - 1].next
            && !parts[i - 1].last by {
            assert(all[i] == more[i - 1]);
            if i > 1 {
                assert(rest[i - 2] == parts[i - 1]);
            }
        }
    }
}

} // verus!
