//! Reaction aggregation for social posts.
//!
//! A [`ReactionSummary`] holds, per post, the multiset of (emoji, user)
//! reactions together with the identifier of the record each reaction came
//! from. A user contributes at most one counted reaction per emoji, so
//! re-delivery of the same reaction is a no-op, and the count of an emoji
//! always equals the number of distinct users holding it.

use vstd::prelude::*;

use crate::text::str_eq;
use vstd::multiset::Multiset;

verus! {

/// Mathematical model of a reaction summary: the emoji entries in insertion
/// order, each carrying its (user, record identifier) pairs in insertion
/// order.
pub type ReactionModel = Seq<(Seq<char>, Seq<(Seq<char>, Seq<char>)>)>;

/// One user's reaction, with the identifier of the record that carried it.
#[derive(Clone, Debug)]
pub struct UserReaction {
    /// The user who reacted.
    pub user_id: String,
    /// The identifier of the reaction record.
    pub event_id: String,
}

impl DeepView for UserReaction {
    type V = (Seq<char>, Seq<char>);

    open spec fn deep_view(&self) -> (Seq<char>, Seq<char>) {
        (self.user_id@, self.event_id@)
    }
}

/// All reactions carrying one emoji.
#[derive(Clone, Debug)]
pub struct EmojiReactions {
    /// The reaction emoji.
    pub emoji: String,
    /// The users who reacted with it, in insertion order.
    pub reactions: Vec<UserReaction>,
}

impl DeepView for EmojiReactions {
    type V = (Seq<char>, Seq<(Seq<char>, Seq<char>)>);

    open spec fn deep_view(&self) -> (Seq<char>, Seq<(Seq<char>, Seq<char>)>) {
        (self.emoji@, self.reactions.deep_view())
    }
}

/// Summary of reactions on a post: counts by emoji, the set of reacting
/// users per emoji, and the originating record of every (user, emoji) pair.
#[derive(Clone, Debug)]
pub struct ReactionSummary {
    entries: Vec<EmojiReactions>,
    total: u32,
}

impl View for ReactionSummary {
    type V = ReactionModel;

    closed spec fn view(&self) -> ReactionModel {
        self.entries.deep_view()
    }
}

/// Index of the entry for `emoji`; meaningful only when [`model_has_emoji`]
/// holds, and then unique under [`model_wf`].
pub open spec fn emoji_idx(m: ReactionModel, emoji: Seq<char>) -> int {
    choose|i: int| 0 <= i < m.len() && m[i].0 == emoji
}

/// Whether the model has an entry for `emoji`.
pub open spec fn model_has_emoji(m: ReactionModel, emoji: Seq<char>) -> bool {
    exists|i: int| 0 <= i < m.len() && m[i].0 == emoji
}

/// Index of `user` within an entry's reactions; meaningful only when the
/// user is present, and then unique under [`model_wf`].
pub open spec fn user_idx(users: Seq<(Seq<char>, Seq<char>)>, user: Seq<char>) -> int {
    choose|j: int| 0 <= j < users.len() && users[j].0 == user
}

/// Whether `user` appears in an entry's reactions.
pub open spec fn users_have(users: Seq<(Seq<char>, Seq<char>)>, user: Seq<char>) -> bool {
    exists|j: int| 0 <= j < users.len() && users[j].0 == user
}

/// Whether the model holds a reaction by `user` with `emoji`.
pub open spec fn model_has_reaction(m: ReactionModel, emoji: Seq<char>, user: Seq<char>) -> bool {
    model_has_emoji(m, emoji) && users_have(m[emoji_idx(m, emoji)].1, user)
}

/// The users holding `emoji`, in insertion order.
pub open spec fn model_users_of(m: ReactionModel, emoji: Seq<char>) -> Seq<Seq<char>> {
    if model_has_emoji(m, emoji) {
        m[emoji_idx(m, emoji)].1.map_values(|p: (Seq<char>, Seq<char>)| p.0)
    } else {
        Seq::empty()
    }
}

/// The count of `emoji`: the number of distinct users holding it.
pub open spec fn model_count_of(m: ReactionModel, emoji: Seq<char>) -> nat {
    if model_has_emoji(m, emoji) {
        m[emoji_idx(m, emoji)].1.len()
    } else {
        0
    }
}

/// The record identifier of `user`'s reaction with `emoji`, if any.
pub open spec fn model_event_of(m: ReactionModel, user: Seq<char>, emoji: Seq<char>) -> Option<
    Seq<char>,
> {
    if model_has_reaction(m, emoji, user) {
        Some(m[emoji_idx(m, emoji)].1[user_idx(m[emoji_idx(m, emoji)].1, user)].1)
    } else {
        None
    }
}

/// The total number of counted reactions: the sum of all entry counts.
pub open spec fn model_total(m: ReactionModel) -> nat
    decreases m.len(),
{
    if m.len() == 0 {
        0
    } else {
        model_total(m.drop_last()) + m.last().1.len()
    }
}

/// Well-formedness of a reaction model: emoji keys are distinct, no entry is
/// empty, and within an entry the users are distinct.
pub open spec fn model_wf(m: ReactionModel) -> bool {
    &&& forall|i: int, j: int|
        0 <= i < m.len() && 0 <= j < m.len() && i != j ==> #[trigger] m[i].0 != #[trigger] m[j].0
    &&& forall|i: int| 0 <= i < m.len() ==> #[trigger] m[i].1.len() >= 1
    &&& forall|i: int, j: int, k: int|
        0 <= i < m.len() && 0 <= j < m[i].1.len() && 0 <= k < m[i].1.len() && j != k
            ==> #[trigger] m[i].1[j].0 != #[trigger] m[i].1[k].0
}

/// The model after adding a reaction: a duplicate (emoji, user) pair leaves
/// the model unchanged; a new user joins the emoji's entry; a new emoji opens
/// an entry of its own at the end.
pub open spec fn spec_add(
    m: ReactionModel,
    emoji: Seq<char>,
    user: Seq<char>,
    event: Seq<char>,
) -> ReactionModel {
    if model_has_reaction(m, emoji, user) {
        m
    } else if model_has_emoji(m, emoji) {
        let i = emoji_idx(m, emoji);
        m.update(i, (emoji, m[i].1.push((user, event))))
    } else {
        m.push((emoji, seq![(user, event)]))
    }
}

/// The model after removing a reaction: absent (emoji, user) pairs leave the
/// model unchanged; the last user of an emoji prunes the whole entry.
pub open spec fn spec_remove(m: ReactionModel, emoji: Seq<char>, user: Seq<char>) -> ReactionModel {
    if model_has_reaction(m, emoji, user) {
        let i = emoji_idx(m, emoji);
        let j = user_idx(m[i].1, user);
        if m[i].1.len() == 1 {
            m.remove(i)
        } else {
            m.update(i, (emoji, m[i].1.remove(j)))
        }
    } else {
        m
    }
}

/// The model after replaying one entry's reactions, in order, through
/// [`spec_add`].
pub open spec fn merge_one_entry(
    m: ReactionModel,
    emoji: Seq<char>,
    users: Seq<(Seq<char>, Seq<char>)>,
) -> ReactionModel
    decreases users.len(),
{
    if users.len() == 0 {
        m
    } else {
        spec_add(
            merge_one_entry(m, emoji, users.drop_last()),
            emoji,
            users.last().0,
            users.last().1,
        )
    }
}

/// The model after replaying every (emoji, user, record) triple of `other`,
/// in order, through [`spec_add`].
pub open spec fn spec_merge(m: ReactionModel, other: ReactionModel) -> ReactionModel
    decreases other.len(),
{
    if other.len() == 0 {
        m
    } else {
        merge_one_entry(spec_merge(m, other.drop_last()), other.last().0, other.last().1)
    }
}

/// Replacing one entry changes the total by the difference of the entry
/// counts.
pub proof fn lemma_total_update(
    m: ReactionModel,
    i: int,
    entry: (Seq<char>, Seq<(Seq<char>, Seq<char>)>),
)
    requires
        0 <= i < m.len(),
    ensures
        model_total(m.update(i, entry)) + m[i].1.len() == model_total(m) + entry.1.len(),
    decreases m.len(),
{
    let mu = m.update(i, entry);
    if i == m.len() - 1 {
        assert(mu.drop_last() =~= m.drop_last());
        assert(mu.last() == entry);
    } else {
        assert(mu.drop_last() =~= m.drop_last().update(i, entry));
        assert(mu.last() == m.last());
        lemma_total_update(m.drop_last(), i, entry);
        assert(m.drop_last()[i] == m[i]);
    }
}

/// Appending an entry adds its count to the total.
pub proof fn lemma_total_push(m: ReactionModel, entry: (Seq<char>, Seq<(Seq<char>, Seq<char>)>))
    ensures
        model_total(m.push(entry)) == model_total(m) + entry.1.len(),
{
    assert(m.push(entry).drop_last() =~= m);
    assert(m.push(entry).last() == entry);
}

/// Removing an entry subtracts its count from the total.
pub proof fn lemma_total_remove(m: ReactionModel, i: int)
    requires
        0 <= i < m.len(),
    ensures
        model_total(m.remove(i)) + m[i].1.len() == model_total(m),
    decreases m.len(),
{
    let mr = m.remove(i);
    if i == m.len() - 1 {
        assert(mr =~= m.drop_last());
    } else {
        assert(mr.drop_last() =~= m.drop_last().remove(i));
        assert(mr.last() == m.last());
        lemma_total_remove(m.drop_last(), i);
        assert(m.drop_last()[i] == m[i]);
    }
}

/// No single entry counts more than the total.
pub proof fn lemma_entry_le_total(m: ReactionModel, i: int)
    requires
        0 <= i < m.len(),
    ensures
        m[i].1.len() <= model_total(m),
    decreases m.len(),
{
    if i < m.len() - 1 {
        lemma_entry_le_total(m.drop_last(), i);
        assert(m.drop_last()[i] == m[i]);
    }
}

/// The (emoji, count) pairs of a model, in entry order.
pub open spec fn model_counts(m: ReactionModel) -> Seq<(Seq<char>, u32)> {
    Seq::new(m.len(), |i: int| (m[i].0, m[i].1.len() as u32))
}

/// Insert a pair into a count-descending sequence, after every pair whose
/// count is at least as high: the insertion step of a stable sort.
pub open spec fn insert_count_desc(
    s: Seq<(Seq<char>, u32)>,
    x: (Seq<char>, u32),
) -> Seq<(Seq<char>, u32)>
    decreases s.len(),
{
    if s.len() == 0 {
        seq![x]
    } else if x.1 > s[0].1 {
        seq![x] + s
    } else {
        seq![s[0]] + insert_count_desc(s.drop_first(), x)
    }
}

/// Stable sort of (emoji, count) pairs by count descending: pairs with equal
/// counts keep their relative order.
pub open spec fn sort_counts_desc(s: Seq<(Seq<char>, u32)>) -> Seq<(Seq<char>, u32)>
    decreases s.len(),
{
    if s.len() == 0 {
        s
    } else {
        insert_count_desc(sort_counts_desc(s.drop_last()), s.last())
    }
}

/// Inserting grows the length by one.
pub proof fn lemma_insert_count_desc_len(s: Seq<(Seq<char>, u32)>, x: (Seq<char>, u32))
    ensures
        insert_count_desc(s, x).len() == s.len() + 1,
    decreases s.len(),
{
    if s.len() != 0 && !(x.1 > s[0].1) {
        lemma_insert_count_desc_len(s.drop_first(), x);
    }
}

/// Sorting keeps the length.
pub proof fn lemma_sort_counts_desc_len(s: Seq<(Seq<char>, u32)>)
    ensures
        sort_counts_desc(s).len() == s.len(),
    decreases s.len(),
{
    if s.len() != 0 {
        lemma_sort_counts_desc_len(s.drop_last());
        lemma_insert_count_desc_len(sort_counts_desc(s.drop_last()), s.last());
    }
}

/// Whether counts run highest first.
pub open spec fn counts_sorted_desc(s: Seq<(Seq<char>, u32)>) -> bool {
    forall|i: int, j: int| 0 <= i < j < s.len() ==> (#[trigger] s[i]).1 >= (#[trigger] s[j]).1
}

/// Inserting adds exactly the new pair to the contents.
pub proof fn lemma_insert_count_desc_multiset(s: Seq<(Seq<char>, u32)>, x: (Seq<char>, u32))
    ensures
        insert_count_desc(s, x).to_multiset() == s.to_multiset().insert(x),
    decreases s.len(),
{
    broadcast use vstd::seq_lib::group_to_multiset_ensures;
    broadcast use vstd::multiset::group_multiset_axioms;

    let e = Seq::<(Seq<char>, u32)>::empty();
    assert(seq![x] =~= e.push(x));
    vstd::multiset::lemma_multiset_empty_len(e.to_multiset());
    assert(e.to_multiset() =~= Multiset::<(Seq<char>, u32)>::empty());
    if s.len() == 0 {
        assert(insert_count_desc(s, x).to_multiset() =~= s.to_multiset().insert(x));
    } else if x.1 > s[0].1 {
        vstd::seq_lib::lemma_multiset_commutative(seq![x], s);
        assert((seq![x] + s).to_multiset() =~= s.to_multiset().insert(x));
    } else {
        lemma_insert_count_desc_multiset(s.drop_first(), x);
        let t = insert_count_desc(s.drop_first(), x);
        vstd::seq_lib::lemma_multiset_commutative(seq![s[0]], t);
        vstd::seq_lib::lemma_multiset_commutative(seq![s[0]], s.drop_first());
        assert(s =~= seq![s[0]] + s.drop_first());
        assert((seq![s[0]] + t).to_multiset() =~= s.to_multiset().insert(x));
    }
}

/// Inserting into a count-descending run keeps it descending.
pub proof fn lemma_insert_count_desc_sorted(s: Seq<(Seq<char>, u32)>, x: (Seq<char>, u32))
    requires
        counts_sorted_desc(s),
    ensures
        counts_sorted_desc(insert_count_desc(s, x)),
    decreases s.len(),
{
    if s.len() == 0 {
    } else if x.1 > s[0].1 {
        let r = seq![x] + s;
        assert forall|i: int, j: int|
            0 <= i < j < r.len() implies (#[trigger] r[i]).1 >= (#[trigger] r[j]).1 by {
            if i == 0 {
                if j > 1 {
                    assert(s[0].1 >= s[j - 1].1);
                }
            } else {
                assert(s[i - 1].1 >= s[j - 1].1);
            }
        }
    } else {
        assert forall|i: int, j: int|
            0 <= i < j < s.drop_first().len() implies (#[trigger] s.drop_first()[i]).1
            >= (#[trigger] s.drop_first()[j]).1 by {
            assert(s[i + 1].1 >= s[j + 1].1);
        }
        lemma_insert_count_desc_sorted(s.drop_first(), x);
        let t = insert_count_desc(s.drop_first(), x);
        lemma_insert_count_desc_multiset(s.drop_first(), x);
        let r = seq![s[0]] + t;
        assert forall|i: int, j: int|
            0 <= i < j < r.len() implies (#[trigger] r[i]).1 >= (#[trigger] r[j]).1 by {
            if i == 0 {
                broadcast use vstd::seq_lib::group_to_multiset_ensures;

                assert(t.to_multiset() =~= s.drop_first().to_multiset().insert(x));
                assert(t.to_multiset().contains(t[j - 1]));
                if t[j - 1] == x {
                    assert(s[0].1 >= x.1);
                } else {
                    assert(s.drop_first().to_multiset().contains(t[j - 1]));
                    assert(s.drop_first().contains(t[j - 1]));
                    let w = choose|w: int|
                        0 <= w < s.drop_first().len() && s.drop_first()[w] == t[j - 1];
                    assert(s[0].1 >= s[w + 1].1);
                }
            } else {
                assert(t[i - 1].1 >= t[j - 1].1);
            }
        }
    }
}

/// What the ranking guarantees: the pairs come out highest count first and
/// are exactly the input pairs.
pub proof fn lemma_sort_counts_desc_ensures(s: Seq<(Seq<char>, u32)>)
    ensures
        counts_sorted_desc(sort_counts_desc(s)),
        sort_counts_desc(s).to_multiset() == s.to_multiset(),
    decreases s.len(),
{
    broadcast use vstd::seq_lib::group_to_multiset_ensures;

    if s.len() != 0 {
        lemma_sort_counts_desc_ensures(s.drop_last());
        lemma_insert_count_desc_sorted(sort_counts_desc(s.drop_last()), s.last());
        lemma_insert_count_desc_multiset(sort_counts_desc(s.drop_last()), s.last());
        assert(s =~= s.drop_last().push(s.last()));
        assert(s.drop_last().push(s.last()).to_multiset() =~= s.drop_last().to_multiset().insert(
            s.last(),
        ));
    }
}

/// The insertion step splits the sequence at the first position whose count
/// is beaten by the new pair.
pub proof fn lemma_insert_count_desc_at(s: Seq<(Seq<char>, u32)>, x: (Seq<char>, u32), p: int)
    requires
        0 <= p <= s.len(),
        forall|q: int| 0 <= q < p ==> !(x.1 > #[trigger] s[q].1),
        p < s.len() ==> x.1 > s[p].1,
    ensures
        insert_count_desc(s, x) == s.take(p) + seq![x] + s.skip(p),
    decreases s.len(),
{
    if s.len() == 0 {
        assert(insert_count_desc(s, x) =~= s.take(p) + seq![x] + s.skip(p));
    } else if x.1 > s[0].1 {
        assert(p == 0);
        assert(insert_count_desc(s, x) =~= s.take(0) + seq![x] + s.skip(0));
    } else {
        assert(p >= 1);
        lemma_insert_count_desc_at(s.drop_first(), x, p - 1);
        assert(s.drop_first().take(p - 1) =~= s.take(p).drop_first());
        assert(s.drop_first().skip(p - 1) =~= s.skip(p));
        assert(seq![s[0]] + (s.take(p).drop_first() + seq![x] + s.skip(p)) =~= s.take(p) + seq![x]
            + s.skip(p));
    }
}

/// Sort (emoji, count) pairs by count descending, keeping pairs with equal
/// counts in their input order.
pub fn sort_counts(v: Vec<(String, u32)>) -> (r: Vec<(String, u32)>)
    ensures
        r.deep_view() == sort_counts_desc(v.deep_view()),
{
    let mut r: Vec<(String, u32)> = Vec::new();
    let mut k: usize = 0;
    proof {
        assert(v.deep_view().take(0) =~= Seq::<(Seq<char>, u32)>::empty());
    }
    while k < v.len()
        invariant
            k <= v.len(),
            v.deep_view().len() == v.len(),
            r.deep_view() == sort_counts_desc(v.deep_view().take(k as int)),
            r.deep_view().len() == k,
        decreases v.len() - k,
    {
        let x = (v[k].0.clone(), v[k].1);
        let ghost xv = v.deep_view()[k as int];
        proof {
            assert(v.deep_view()[k as int] == v@[k as int].deep_view());
            assert(x.deep_view() == xv);
        }
        let mut p: usize = 0;
        while p < r.len() && x.1 <= r[p].1
            invariant
                p <= r.len(),
                r.deep_view().len() == r.len(),
                x.deep_view() == xv,
                forall|q: int|
                    0 <= q < p ==> !(xv.1 > #[trigger] r.deep_view()[q].1),
                forall|q: int| 0 <= q < r.len() ==> r.deep_view()[q] == #[trigger] r@[q].deep_view(),
            decreases r.len() - p,
        {
            p = p + 1;
        }
        proof {
            if p < r.len() {
                assert(r.deep_view()[p as int] == r@[p as int].deep_view());
                assert(xv.1 > r.deep_view()[p as int].1);
            }
            lemma_insert_count_desc_at(r.deep_view(), xv, p as int);
        }
        let ghost rbefore = r.deep_view();
        r.insert(p, x);
        proof {
            assert(r.deep_view() =~= rbefore.take(p as int) + seq![xv] + rbefore.skip(p as int));
            assert(r.deep_view() == insert_count_desc(rbefore, xv));
            assert(v.deep_view().take(k as int + 1).drop_last() =~= v.deep_view().take(k as int));
            assert(v.deep_view().take(k as int + 1).last() == xv);
        }
        k = k + 1;
    }
    proof {
        assert(v.deep_view().take(k as int) =~= v.deep_view());
    }
    r
}

/// Taking one more entry adds its count to the prefix total.
pub proof fn lemma_total_take_succ(m: ReactionModel, i: int)
    requires
        0 <= i < m.len(),
    ensures
        model_total(m.take(i + 1)) == model_total(m.take(i)) + m[i].1.len(),
{
    assert(m.take(i + 1).drop_last() =~= m.take(i));
    assert(m.take(i + 1).last() == m[i]);
}

/// A prefix never counts more than the whole.
pub proof fn lemma_total_take_le(m: ReactionModel, i: int)
    requires
        0 <= i <= m.len(),
    ensures
        model_total(m.take(i)) <= model_total(m),
    decreases m.len() - i,
{
    if i == m.len() {
        assert(m.take(i) =~= m);
    } else {
        lemma_total_take_succ(m, i);
        lemma_total_take_le(m, i + 1);
    }
}

/// Adding one reaction raises the total by at most one, and never lowers it.
pub proof fn lemma_add_total_bound(m: ReactionModel, e: Seq<char>, u: Seq<char>, ev: Seq<char>)
    ensures
        model_total(m) <= model_total(spec_add(m, e, u, ev)) <= model_total(m) + 1,
{
    if model_has_reaction(m, e, u) {
    } else if model_has_emoji(m, e) {
        let i = emoji_idx(m, e);
        lemma_total_update(m, i, (e, m[i].1.push((u, ev))));
    } else {
        lemma_total_push(m, (e, seq![(u, ev)]));
    }
}

/// Under well-formedness the entry index of an emoji is unique.
pub proof fn lemma_emoji_idx_is(m: ReactionModel, emoji: Seq<char>, i: int)
    requires
        model_wf(m),
        0 <= i < m.len(),
        m[i].0 == emoji,
    ensures
        model_has_emoji(m, emoji),
        emoji_idx(m, emoji) == i,
{
    assert(model_has_emoji(m, emoji));
    let w = emoji_idx(m, emoji);
    assert(0 <= w < m.len() && m[w].0 == emoji);
    if w != i {
        assert(m[w].0 != m[i].0);
    }
}

/// Under well-formedness the index of a user within an entry is unique.
pub proof fn lemma_user_idx_is(users: Seq<(Seq<char>, Seq<char>)>, user: Seq<char>, j: int)
    requires
        forall|a: int, b: int|
            0 <= a < users.len() && 0 <= b < users.len() && a != b ==> #[trigger] users[a].0
                != #[trigger] users[b].0,
        0 <= j < users.len(),
        users[j].0 == user,
    ensures
        users_have(users, user),
        user_idx(users, user) == j,
{
    assert(users_have(users, user));
    let w = user_idx(users, user);
    assert(0 <= w < users.len() && users[w].0 == user);
    if w != j {
        assert(users[w].0 != users[j].0);
    }
}

/// The model after a whole sequence of add calls, each a (emoji, user,
/// record identifier) triple, applied in order.
pub open spec fn spec_add_all(
    m: ReactionModel,
    calls: Seq<(Seq<char>, Seq<char>, Seq<char>)>,
) -> ReactionModel
    decreases calls.len(),
{
    if calls.len() == 0 {
        m
    } else {
        spec_add(spec_add_all(m, calls.drop_last()), calls.last().0, calls.last().1, calls.last().2)
    }
}

/// The distinct users that a sequence of add calls names for an emoji,
/// however often each one occurs.
pub open spec fn spec_users_called(
    calls: Seq<(Seq<char>, Seq<char>, Seq<char>)>,
    emoji: Seq<char>,
) -> Set<Seq<char>> {
    Set::new(
        |u: Seq<char>|
            exists|i: int| 0 <= i < calls.len() && (#[trigger] calls[i]).0 == emoji && calls[i].1
                == u,
    )
}

/// One add either leaves an emoji's user set alone or adds exactly the
/// named user to the named emoji.
pub proof fn lemma_add_users_set(
    m: ReactionModel,
    e0: Seq<char>,
    u0: Seq<char>,
    ev0: Seq<char>,
    e: Seq<char>,
)
    requires
        model_wf(m),
    ensures
        model_users_of(spec_add(m, e0, u0, ev0), e).to_set() == if e == e0 {
            model_users_of(m, e).to_set().insert(u0)
        } else {
            model_users_of(m, e).to_set()
        },
{
    let m2 = spec_add(m, e0, u0, ev0);
    lemma_add_wf(m, e0, u0, ev0);
    if model_has_reaction(m, e0, u0) {
        assert(m2 == m);
        if e == e0 {
            let i = emoji_idx(m, e0);
            let j = user_idx(m[i].1, u0);
            assert(m[i].1[j].0 == u0);
            assert(model_users_of(m, e0)[j] == u0);
            assert(model_users_of(m, e0).contains(u0));
            assert(model_users_of(m, e).to_set() =~= model_users_of(m, e).to_set().insert(u0));
        }
    } else if model_has_emoji(m, e0) {
        let i = emoji_idx(m, e0);
        assert(0 <= i < m.len() && m[i].0 == e0);
        lemma_emoji_idx_is(m2, e0, i);
        if e == e0 {
            let before = model_users_of(m, e0);
            let after = model_users_of(m2, e0);
            assert(after =~= before.push(u0));
            assert forall|u: Seq<char>| #[trigger] after.to_set().contains(u) implies
                before.to_set().insert(u0).contains(u) by {
                let w = choose|w: int| 0 <= w < after.len() && after[w] == u;
                if w < before.len() {
                    assert(before.contains(u));
                }
            }
            assert forall|u: Seq<char>| #[trigger]
                before.to_set().insert(u0).contains(u) implies after.to_set().contains(u) by {
                if u == u0 {
                    assert(after[before.len() as int] == u0);
                    assert(after.contains(u0));
                } else {
                    let w = choose|w: int| 0 <= w < before.len() && before[w] == u;
                    assert(after[w] == u);
                    assert(after.contains(u));
                }
            }
            assert(after.to_set() =~= before.to_set().insert(u0));
        } else {
            if model_has_emoji(m, e) {
                let k = emoji_idx(m, e);
                assert(m[k].0 == e);
                assert(k != i);
                assert(m2[k] == m[k]);
                lemma_emoji_idx_is(m2, e, k);
                assert(model_users_of(m2, e) == model_users_of(m, e));
            } else {
                assert forall|w: int| 0 <= w < m2.len() implies #[trigger] m2[w].0 != e by {
                    assert(m2[w].0 == m[w].0);
                }
                assert(!model_has_emoji(m2, e));
            }
        }
    } else {
        assert(m2 == m.push((e0, seq![(u0, ev0)])));
        assert forall|a: int, b: int|
            0 <= a < m2.len() && 0 <= b < m2.len() && a != b implies #[trigger] m2[a].0
            != #[trigger] m2[b].0 by {
            if a < m.len() && b < m.len() {
                assert(m[a].0 != m[b].0);
            } else if a < m.len() {
                assert(m[a].0 != e0);
            } else {
                assert(m[b].0 != e0);
            }
        }
        if e == e0 {
            lemma_emoji_idx_is_from_unique(m2, e0, m.len() as int);
            let after = model_users_of(m2, e0);
            assert(after =~= seq![u0]);
            assert(after[0] == u0);
            assert(after.contains(u0));
            assert(!model_has_emoji(m, e0));
            assert(model_users_of(m, e0) =~= Seq::<Seq<char>>::empty());
            assert forall|u: Seq<char>| #[trigger] after.to_set().contains(u) implies u == u0 by {
                let w = choose|w: int| 0 <= w < after.len() && after[w] == u;
            }
            assert(after.to_set() =~= model_users_of(m, e0).to_set().insert(u0));
        } else {
            if model_has_emoji(m, e) {
                let k = emoji_idx(m, e);
                assert(m[k].0 == e);
                assert(m2[k] == m[k]);
                lemma_emoji_idx_is_from_unique(m2, e, k);
                assert(model_users_of(m2, e) == model_users_of(m, e));
            } else {
                assert forall|w: int| 0 <= w < m2.len() implies #[trigger] m2[w].0 != e by {
                    if w < m.len() {
                        assert(m[w].0 != e);
                    } else {
                        assert(m2[w].0 == e0);
                    }
                }
                assert(!model_has_emoji(m2, e));
            }
        }
    }
}

/// Whatever sequence of add calls builds a summary from nothing, and
/// however often any call was repeated, every emoji's users are exactly the
/// distinct users the calls named for it, and its count is the number of
/// those users.
pub proof fn lemma_adds_count_distinct_users(
    calls: Seq<(Seq<char>, Seq<char>, Seq<char>)>,
    emoji: Seq<char>,
)
    ensures
        model_wf(spec_add_all(Seq::empty(), calls)),
        model_users_of(spec_add_all(Seq::empty(), calls), emoji).to_set() == spec_users_called(
            calls,
            emoji,
        ),
        model_count_of(spec_add_all(Seq::empty(), calls), emoji) == model_users_of(
            spec_add_all(Seq::empty(), calls),
            emoji,
        ).len(),
    decreases calls.len(),
{
    let m = spec_add_all(Seq::empty(), calls);
    if calls.len() == 0 {
        assert(m =~= Seq::<(Seq<char>, Seq<(Seq<char>, Seq<char>)>)>::empty());
        assert(model_users_of(m, emoji) =~= Seq::<Seq<char>>::empty());
        assert(model_users_of(m, emoji).to_set() =~= spec_users_called(calls, emoji));
    } else {
        let prefix = calls.drop_last();
        let m1 = spec_add_all(Seq::empty(), prefix);
        let last = calls.last();
        lemma_adds_count_distinct_users(prefix, emoji);
        lemma_add_wf(m1, last.0, last.1, last.2);
        lemma_add_users_set(m1, last.0, last.1, last.2, emoji);
        let stepped = if emoji == last.0 {
            spec_users_called(prefix, emoji).insert(last.1)
        } else {
            spec_users_called(prefix, emoji)
        };
        assert forall|u: Seq<char>| #[trigger]
            spec_users_called(calls, emoji).contains(u) implies stepped.contains(u) by {
            let i = choose|i: int|
                0 <= i < calls.len() && (#[trigger] calls[i]).0 == emoji && calls[i].1 == u;
            if i < prefix.len() {
                assert(prefix[i] == calls[i]);
                assert(spec_users_called(prefix, emoji).contains(u));
            }
        }
        assert forall|u: Seq<char>| #[trigger] stepped.contains(u) implies spec_users_called(
            calls,
            emoji,
        ).contains(u) by {
            if spec_users_called(prefix, emoji).contains(u) {
                let i = choose|i: int|
                    0 <= i < prefix.len() && (#[trigger] prefix[i]).0 == emoji && prefix[i].1 == u;
                assert(calls[i] == prefix[i]);
            } else {
                assert(emoji == last.0 && u == last.1);
                assert(calls[calls.len() - 1].0 == emoji && calls[calls.len() - 1].1 == u);
            }
        }
        assert(spec_users_called(calls, emoji) =~= stepped);
        lemma_count_is_distinct_users(m, emoji);
    }
}

/// The count of an emoji is exactly the number of users listed for it, and
/// those users are pairwise distinct: a count never exceeds the number of
/// distinct users who reacted.
pub proof fn lemma_count_is_distinct_users(m: ReactionModel, e: Seq<char>)
    requires
        model_wf(m),
    ensures
        model_count_of(m, e) == model_users_of(m, e).len(),
        forall|a: int, b: int|
            0 <= a < model_users_of(m, e).len() && 0 <= b < model_users_of(m, e).len() && a != b
                ==> #[trigger] model_users_of(m, e)[a] != #[trigger] model_users_of(m, e)[b],
{
    if model_has_emoji(m, e) {
        let i = emoji_idx(m, e);
        assert(0 <= i < m.len() && m[i].0 == e);
        assert forall|a: int, b: int|
            0 <= a < model_users_of(m, e).len() && 0 <= b < model_users_of(m, e).len() && a
                != b implies #[trigger] model_users_of(m, e)[a] != #[trigger] model_users_of(
            m,
            e,
        )[b] by {
            assert(m[i].1[a].0 != m[i].1[b].0);
            assert(model_users_of(m, e)[a] == m[i].1[a].0);
            assert(model_users_of(m, e)[b] == m[i].1[b].0);
        }
    }
}

/// Adding one reaction keeps the model well-formed.
pub proof fn lemma_add_wf(m: ReactionModel, e: Seq<char>, u: Seq<char>, ev: Seq<char>)
    requires
        model_wf(m),
    ensures
        model_wf(spec_add(m, e, u, ev)),
{
    let ma = spec_add(m, e, u, ev);
    if model_has_reaction(m, e, u) {
    } else if model_has_emoji(m, e) {
        let i = emoji_idx(m, e);
        assert(0 <= i < m.len() && m[i].0 == e);
        assert forall|a: int, b: int|
            0 <= a < ma.len() && 0 <= b < ma.len() && a != b implies #[trigger] ma[a].0
            != #[trigger] ma[b].0 by {
            assert(ma[a].0 == m[a].0);
            assert(ma[b].0 == m[b].0);
        }
        assert forall|a: int, j: int, k: int|
            0 <= a < ma.len() && 0 <= j < ma[a].1.len() && 0 <= k < ma[a].1.len() && j
                != k implies #[trigger] ma[a].1[j].0 != #[trigger] ma[a].1[k].0 by {
            if a == i {
                assert(!users_have(m[i].1, u));
                if j < m[i].1.len() && k < m[i].1.len() {
                    assert(m[i].1[j].0 != m[i].1[k].0);
                } else if j < m[i].1.len() {
                    assert(m[i].1[j].0 != u);
                } else {
                    assert(m[i].1[k].0 != u);
                }
            } else {
                assert(m[a].1[j].0 != m[a].1[k].0);
            }
        }
    } else {
        assert forall|a: int, b: int|
            0 <= a < ma.len() && 0 <= b < ma.len() && a != b implies #[trigger] ma[a].0
            != #[trigger] ma[b].0 by {
            if a < m.len() && b < m.len() {
                assert(m[a].0 != m[b].0);
            } else if a < m.len() {
                assert(m[a].0 != e);
            } else {
                assert(m[b].0 != e);
            }
        }
    }
}

/// Re-adding an already counted (emoji, user) pair is a no-op, whatever
/// record identifier the duplicate carries: the count of every emoji stays
/// the number of distinct users who added it, however often each add was
/// delivered.
pub proof fn lemma_add_idempotent(
    m: ReactionModel,
    e: Seq<char>,
    u: Seq<char>,
    ev1: Seq<char>,
    ev2: Seq<char>,
)
    requires
        model_wf(m),
    ensures
        spec_add(spec_add(m, e, u, ev1), e, u, ev2) == spec_add(m, e, u, ev1),
{
    let m1 = spec_add(m, e, u, ev1);
    if model_has_reaction(m, e, u) {
        assert(m1 == m);
    } else if model_has_emoji(m, e) {
        let i = emoji_idx(m, e);
        assert(0 <= i < m.len() && m[i].0 == e);
        lemma_add_wf(m, e, u, ev1);
        lemma_emoji_idx_is(m1, e, i);
        assert(m1[i].1[m[i].1.len() as int].0 == u);
        assert(users_have(m1[i].1, u));
        assert(model_has_reaction(m1, e, u));
    } else {
        lemma_add_wf(m, e, u, ev1);
        lemma_emoji_idx_is(m1, e, m.len() as int);
        assert(m1[m.len() as int].1[0].0 == u);
        assert(users_have(m1[m.len() as int].1, u));
        assert(model_has_reaction(m1, e, u));
    }
}

/// Removing a reaction undoes exactly the successful add that counted it:
/// the model returns to its previous value, an entry opened by the add is
/// pruned again, and the removal yields the very record identifier the add
/// stored.
pub proof fn lemma_remove_inverts_add(m: ReactionModel, e: Seq<char>, u: Seq<char>, ev: Seq<char>)
    requires
        model_wf(m),
        !model_has_reaction(m, e, u),
    ensures
        spec_remove(spec_add(m, e, u, ev), e, u) == m,
        model_event_of(spec_add(m, e, u, ev), u, e) == Some(ev),
{
    let m1 = spec_add(m, e, u, ev);
    lemma_add_wf(m, e, u, ev);
    if model_has_emoji(m, e) {
        let i = emoji_idx(m, e);
        assert(0 <= i < m.len() && m[i].0 == e);
        lemma_emoji_idx_is(m1, e, i);
        let users1 = m1[i].1;
        assert(users1 == m[i].1.push((u, ev)));
        assert(users1[m[i].1.len() as int].0 == u);
        assert forall|a: int, b: int|
            0 <= a < users1.len() && 0 <= b < users1.len() && a != b implies users1[a].0
            != users1[b].0 by {
            assert(m1[i].1[a].0 != m1[i].1[b].0);
        }
        lemma_user_idx_is(users1, u, m[i].1.len() as int);
        assert(model_has_reaction(m1, e, u));
        assert(users1.len() >= 2);
        assert(users1.remove(m[i].1.len() as int) =~= m[i].1);
        assert(m1.update(i, (e, m[i].1)) =~= m);
        assert(spec_remove(m1, e, u) == m);
        assert(users1[user_idx(users1, u)].1 == ev);
    } else {
        lemma_emoji_idx_is(m1, e, m.len() as int);
        let users1 = m1[m.len() as int].1;
        assert(users1 =~= seq![(u, ev)]);
        lemma_user_idx_is(users1, u, 0);
        assert(model_has_reaction(m1, e, u));
        assert(users1.len() == 1);
        assert(m1.remove(m.len() as int) =~= m);
        assert(spec_remove(m1, e, u) == m);
    }
}

/// Well-formedness survives dropping the last entry.
pub proof fn lemma_wf_drop_last(m: ReactionModel)
    requires
        model_wf(m),
        m.len() >= 1,
    ensures
        model_wf(m.drop_last()),
{
    let d = m.drop_last();
    assert forall|i: int, j: int|
        0 <= i < d.len() && 0 <= j < d.len() && i != j implies #[trigger] d[i].0
        != #[trigger] d[j].0 by {
        assert(m[i].0 != m[j].0);
    }
    assert forall|i: int| 0 <= i < d.len() implies #[trigger] d[i].1.len() >= 1 by {
        assert(m[i].1.len() >= 1);
    }
    assert forall|i: int, j: int, k: int|
        0 <= i < d.len() && 0 <= j < d[i].1.len() && 0 <= k < d[i].1.len() && j
            != k implies #[trigger] d[i].1[j].0 != #[trigger] d[i].1[k].0 by {
        assert(m[i].1[j].0 != m[i].1[k].0);
    }
}

/// Replaying a fresh emoji's reactions onto a model appends exactly that
/// entry.
pub proof fn lemma_merge_one_entry_fresh(
    m0: ReactionModel,
    e: Seq<char>,
    users: Seq<(Seq<char>, Seq<char>)>,
)
    requires
        model_wf(m0),
        !model_has_emoji(m0, e),
        users.len() >= 1,
        forall|a: int, b: int|
            0 <= a < users.len() && 0 <= b < users.len() && a != b ==> #[trigger] users[a].0
                != #[trigger] users[b].0,
    ensures
        merge_one_entry(m0, e, users) == m0.push((e, users)),
    decreases users.len(),
{
    let u = users.last().0;
    let ev = users.last().1;
    if users.len() == 1 {
        assert(merge_one_entry(m0, e, users.drop_last()) == m0);
        assert(!model_has_reaction(m0, e, u));
        assert(spec_add(m0, e, u, ev) == m0.push((e, seq![(u, ev)])));
        assert(seq![(u, ev)] =~= users);
    } else {
        lemma_merge_one_entry_fresh(m0, e, users.drop_last());
        let m1 = m0.push((e, users.drop_last()));
        assert(merge_one_entry(m0, e, users) == spec_add(m1, e, u, ev));
        lemma_total_push(m0, (e, users.drop_last()));
        assert forall|a: int, b: int|
            0 <= a < m1.len() && 0 <= b < m1.len() && a != b implies #[trigger] m1[a].0
            != #[trigger] m1[b].0 by {
            if a < m0.len() && b < m0.len() {
                assert(m0[a].0 != m0[b].0);
            } else if a < m0.len() {
                assert(m0[a].0 != e);
            } else {
                assert(m0[b].0 != e);
            }
        }
        assert(m1[m0.len() as int].0 == e);
        lemma_emoji_idx_is_from_unique(m1, e, m0.len() as int);
        assert(!users_have(users.drop_last(), u));
        assert(!model_has_reaction(m1, e, u));
        assert(spec_add(m1, e, u, ev) == m1.update(
            m0.len() as int,
            (e, users.drop_last().push((u, ev))),
        ));
        assert(users.drop_last().push((u, ev)) =~= users);
        assert(m1.update(m0.len() as int, (e, users)) =~= m0.push((e, users)));
    }
}

/// Uniqueness of the emoji index needs only the key-distinctness part of
/// well-formedness.
pub proof fn lemma_emoji_idx_is_from_unique(m: ReactionModel, emoji: Seq<char>, i: int)
    requires
        forall|a: int, b: int|
            0 <= a < m.len() && 0 <= b < m.len() && a != b ==> #[trigger] m[a].0
                != #[trigger] m[b].0,
        0 <= i < m.len(),
        m[i].0 == emoji,
    ensures
        model_has_emoji(m, emoji),
        emoji_idx(m, emoji) == i,
{
    assert(model_has_emoji(m, emoji));
    let w = emoji_idx(m, emoji);
    assert(0 <= w < m.len() && m[w].0 == emoji);
    if w != i {
        assert(m[w].0 != m[i].0);
    }
}

/// Merging a summary into an empty one reproduces it exactly: same counts,
/// same user lists, same record identifiers, in the same order.
pub proof fn lemma_merge_into_empty(m: ReactionModel)
    requires
        model_wf(m),
    ensures
        spec_merge(Seq::empty(), m) == m,
    decreases m.len(),
{
    if m.len() == 0 {
        assert(spec_merge(Seq::empty(), m) =~= m);
    } else {
        lemma_wf_drop_last(m);
        lemma_merge_into_empty(m.drop_last());
        let e = m.last().0;
        let users = m.last().1;
        assert(spec_merge(Seq::empty(), m) == merge_one_entry(m.drop_last(), e, users));
        assert forall|a: int, b: int|
            0 <= a < users.len() && 0 <= b < users.len() && a != b implies #[trigger] users[a].0
            != #[trigger] users[b].0 by {
            let li = m.len() - 1;
            assert(m[li].1[a].0 != m[li].1[b].0);
        }
        assert(!model_has_emoji(m.drop_last(), e)) by {
            if model_has_emoji(m.drop_last(), e) {
                let w = emoji_idx(m.drop_last(), e);
                assert(0 <= w < m.len() - 1 && m.drop_last()[w].0 == e);
                assert(m[w].0 != m[m.len() - 1].0);
            }
        }
        lemma_merge_one_entry_fresh(m.drop_last(), e, users);
        assert(m.drop_last().push((e, users)) =~= m);
    }
}

impl ReactionSummary {
    /// Internal consistency: the model is well-formed and the cached total
    /// equals the model's total.
    pub closed spec fn wf(&self) -> bool {
        &&& model_wf(self@)
        &&& self.total == model_total(self@)
    }

    /// What well-formedness guarantees of the model: it is well-formed and
    /// its total fits the count type.
    pub proof fn lemma_wf(&self)
        requires
            self.wf(),
        ensures
            model_wf(self@),
            model_total(self@) <= u32::MAX,
    {
    }

    /// Create a new empty reaction summary.
    pub fn new() -> (r: ReactionSummary)
        ensures
            r.wf(),
            r@ == Seq::<(Seq<char>, Seq<(Seq<char>, Seq<char>)>)>::empty(),
    {
        let r = ReactionSummary { entries: Vec::new(), total: 0 };
        proof {
            assert(r@ =~= Seq::<(Seq<char>, Seq<(Seq<char>, Seq<char>)>)>::empty());
        }
        r
    }

    /// Index of the entry whose emoji is `emoji`, if there is one.
    fn find_emoji(&self, emoji: &str) -> (r: Option<usize>)
        ensures
            r matches Some(i) ==> i < self@.len() && self@[i as int].0 == emoji@,
            r is None ==> !model_has_emoji(self@, emoji@),
    {
        let mut i: usize = 0;
        while i < self.entries.len()
            invariant
                i <= self.entries.len(),
                self@.len() == self.entries.len(),
                forall|j: int| 0 <= j < i ==> self@[j].0 != emoji@,
            decreases self.entries.len() - i,
        {
            assert(self@[i as int].0 == self.entries[i as int].emoji@);
            if str_eq(self.entries[i].emoji.as_str(), emoji) {
                return Some(i);
            }
            i = i + 1;
        }
        None
    }

    /// Add a reaction to the summary. If `user_id` has already reacted with
    /// `emoji`, nothing changes: delivery of the same reaction twice is
    /// counted once.
    pub fn add_reaction(&mut self, emoji: &str, user_id: &str, event_id: &str)
        requires
            old(self).wf(),
            model_total(old(self)@) < u32::MAX,
        ensures
            final(self).wf(),
            final(self)@ == spec_add(old(self)@, emoji@, user_id@, event_id@),
    {
        let ghost m0 = self@;
        match self.find_emoji(emoji) {
            Some(i) => {
                proof {
                    lemma_emoji_idx_is(m0, emoji@, i as int);
                }
                let ghost users = m0[i as int].1;
                let n = self.entries[i].reactions.len();
                let mut j: usize = 0;
                while j < n
                    invariant
                        self == old(self),
                        m0 == self@,
                        self.wf(),
                        model_total(m0) < u32::MAX,
                        0 <= i < self.entries.len(),
                        self@.len() == self.entries.len(),
                        model_has_emoji(m0, emoji@),
                        emoji_idx(m0, emoji@) == i as int,
                        m0[i as int].0 == emoji@,
                        users == m0[i as int].1,
                        n == users.len(),
                        j <= n,
                        forall|k: int| 0 <= k < j ==> #[trigger] users[k].0 != user_id@,
                    decreases n - j,
                {
                    assert(users[j as int]
                        == self.entries@[i as int].reactions@[j as int].deep_view());
                    if str_eq(self.entries[i].reactions[j].user_id.as_str(), user_id) {
                        proof {
                            assert forall|a: int, b: int|
                                0 <= a < users.len() && 0 <= b < users.len() && a
                                    != b implies #[trigger] users[a].0 != #[trigger] users[b].0 by {
                                assert(m0[i as int].1[a].0 != m0[i as int].1[b].0);
                            }
                            lemma_user_idx_is(users, user_id@, j as int);
                            assert(model_has_reaction(m0, emoji@, user_id@));
                        }
                        return;
                    }
                    j = j + 1;
                }
                proof {
                    assert(!users_have(users, user_id@));
                    assert(!model_has_reaction(m0, emoji@, user_id@));
                }
                let ghost pair = (user_id@, event_id@);
                let ghost newentry = (emoji@, users.push(pair));
                let mut entry = self.entries.remove(i);
                proof {
                    assert(entry.deep_view() == m0[i as int]);
                }
                entry.reactions.push(
                    UserReaction { user_id: user_id.to_owned(), event_id: event_id.to_owned() },
                );
                proof {
                    assert(entry.deep_view().1 =~= users.push(pair));
                    assert(entry.deep_view() == newentry);
                }
                self.entries.insert(i, entry);
                self.total = self.total + 1;
                proof {
                    let target = m0.update(i as int, newentry);
                    assert(self@ =~= target);
                    lemma_total_update(m0, i as int, newentry);
                    assert(model_total(self@) == model_total(m0) + 1);
                    assert forall|a: int, b: int|
                        0 <= a < target.len() && 0 <= b < target.len() && a
                            != b implies #[trigger] target[a].0 != #[trigger] target[b].0 by {
                        assert(target[a].0 == m0[a].0);
                        assert(target[b].0 == m0[b].0);
                    }
                    assert(model_wf(self@));
                    assert(self@ == spec_add(m0, emoji@, user_id@, event_id@));
                }
            },
            None => {
                let mut reactions: Vec<UserReaction> = Vec::new();
                reactions.push(
                    UserReaction { user_id: user_id.to_owned(), event_id: event_id.to_owned() },
                );
                let ghost pair = (user_id@, event_id@);
                proof {
                    assert(reactions.deep_view() =~= seq![pair]);
                }
                self.entries.push(EmojiReactions { emoji: emoji.to_owned(), reactions });
                self.total = self.total + 1;
                proof {
                    let target = m0.push((emoji@, seq![pair]));
                    assert(self@ =~= target);
                    lemma_total_push(m0, (emoji@, seq![pair]));
                    assert(model_total(self@) == model_total(m0) + 1);
                    assert forall|a: int, b: int|
                        0 <= a < target.len() && 0 <= b < target.len() && a
                            != b implies #[trigger] target[a].0 != #[trigger] target[b].0 by {
                        if a < m0.len() && b < m0.len() {
                        } else if a < m0.len() {
                            assert(m0[a].0 != emoji@);
                        } else if b < m0.len() {
                            assert(m0[b].0 != emoji@);
                        }
                    }
                    assert(model_wf(self@));
                    assert(!model_has_reaction(m0, emoji@, user_id@));
                    assert(self@ == spec_add(m0, emoji@, user_id@, event_id@));
                }
            },
        }
    }

    /// Remove a reaction from the summary, returning the identifier of the
    /// removed record, if the user had reacted with that emoji. An emoji
    /// whose last reaction is removed is pruned entirely.
    pub fn remove_reaction(&mut self, emoji: &str, user_id: &str) -> (r: Option<String>)
        requires
            old(self).wf(),
        ensures
            final(self).wf(),
            final(self)@ == spec_remove(old(self)@, emoji@, user_id@),
            r is Some <==> model_has_reaction(old(self)@, emoji@, user_id@),
            r matches Some(ev) ==> model_event_of(old(self)@, user_id@, emoji@) == Some(ev@),
    {
        let ghost m0 = self@;
        match self.find_emoji(emoji) {
            Some(i) => {
                proof {
                    lemma_emoji_idx_is(m0, emoji@, i as int);
                }
                let ghost users = m0[i as int].1;
                let n = self.entries[i].reactions.len();
                let mut j: usize = 0;
                while j < n
                    invariant
                        self == old(self),
                        m0 == self@,
                        self.wf(),
                        0 <= i < self.entries.len(),
                        self@.len() == self.entries.len(),
                        model_has_emoji(m0, emoji@),
                        emoji_idx(m0, emoji@) == i as int,
                        m0[i as int].0 == emoji@,
                        users == m0[i as int].1,
                        n == users.len(),
                        j <= n,
                        forall|k: int| 0 <= k < j ==> #[trigger] users[k].0 != user_id@,
                    decreases n - j,
                {
                    assert(users[j as int]
                        == self.entries@[i as int].reactions@[j as int].deep_view());
                    if str_eq(self.entries[i].reactions[j].user_id.as_str(), user_id) {
                        proof {
                            assert forall|a: int, b: int|
                                0 <= a < users.len() && 0 <= b < users.len() && a
                                    != b implies #[trigger] users[a].0 != #[trigger] users[b].0 by {
                                assert(m0[i as int].1[a].0 != m0[i as int].1[b].0);
                            }
                            lemma_user_idx_is(users, user_id@, j as int);
                            assert(model_has_reaction(m0, emoji@, user_id@));
                        }
                        let mut entry = self.entries.remove(i);
                        proof {
                            assert(entry.deep_view() == m0[i as int]);
                        }
                        let removed = entry.reactions.remove(j);
                        proof {
                            assert(removed.deep_view() == users[j as int]);
                        }
                        if entry.reactions.len() == 0 {
                            proof {
                                let target = m0.remove(i as int);
                                assert(users.len() == 1);
                                assert(self@ =~= target);
                                lemma_total_remove(m0, i as int);
                                assert forall|a: int, b: int|
                                    0 <= a < target.len() && 0 <= b < target.len() && a
                                        != b implies #[trigger] target[a].0
                                    != #[trigger] target[b].0 by {
                                    if a < i as int {
                                        assert(target[a].0 == m0[a].0);
                                    } else {
                                        assert(target[a].0 == m0[a + 1].0);
                                    }
                                    if b < i as int {
                                        assert(target[b].0 == m0[b].0);
                                    } else {
                                        assert(target[b].0 == m0[b + 1].0);
                                    }
                                }
                                assert(model_wf(target));
                            }
                            self.total = self.total - 1;
                            proof {
                                assert(self@ == spec_remove(m0, emoji@, user_id@));
                            }
                            return Some(removed.event_id);
                        }
                        proof {
                            assert(users.len() > 1);
                        }
                        let ghost newentry = (emoji@, users.remove(j as int));
                        proof {
                            assert(entry.deep_view().1 =~= users.remove(j as int));
                            assert(entry.deep_view() == newentry);
                        }
                        self.entries.insert(i, entry);
                        self.total = self.total - 1;
                        proof {
                            let target = m0.update(i as int, newentry);
                            assert(self@ =~= target);
                            lemma_total_update(m0, i as int, newentry);
                            assert forall|a: int, b: int|
                                0 <= a < target.len() && 0 <= b < target.len() && a
                                    != b implies #[trigger] target[a].0
                                != #[trigger] target[b].0 by {
                                assert(target[a].0 == m0[a].0);
                                assert(target[b].0 == m0[b].0);
                            }
                            assert(forall|a: int, b: int|
                                0 <= a < users.len() - 1 && 0 <= b < users.len() - 1 && a != b
                                    ==> #[trigger] users.remove(j as int)[a].0
                                    != #[trigger] users.remove(j as int)[b].0);
                            assert(model_wf(target));
                            assert(self@ == spec_remove(m0, emoji@, user_id@));
                        }
                        return Some(removed.event_id);
                    }
                    j = j + 1;
                }
                proof {
                    assert(!users_have(users, user_id@));
                    assert(!model_has_reaction(m0, emoji@, user_id@));
                    assert(spec_remove(m0, emoji@, user_id@) == m0);
                }
                None
            },
            None => {
                proof {
                    assert(!model_has_reaction(m0, emoji@, user_id@));
                    assert(spec_remove(m0, emoji@, user_id@) == m0);
                }
                None
            },
        }
    }

    /// Get the total number of counted reactions.
    pub fn total(&self) -> (r: u32)
        requires
            self.wf(),
        ensures
            r == model_total(self@),
    {
        self.total
    }

    /// Get the count for a specific emoji: the number of distinct users
    /// holding it, zero if nobody does.
    pub fn count(&self, emoji: &str) -> (r: u32)
        requires
            self.wf(),
        ensures
            r == model_count_of(self@, emoji@),
    {
        match self.find_emoji(emoji) {
            Some(i) => {
                proof {
                    lemma_emoji_idx_is(self@, emoji@, i as int);
                    lemma_entry_le_total(self@, i as int);
                }
                let n = self.entries[i].reactions.len();
                n as u32
            },
            None => 0,
        }
    }

    /// Check if a user has reacted with a specific emoji.
    pub fn has_user_reacted(&self, emoji: &str, user_id: &str) -> (r: bool)
        requires
            self.wf(),
        ensures
            r == model_has_reaction(self@, emoji@, user_id@),
    {
        match self.find_emoji(emoji) {
            Some(i) => {
                proof {
                    lemma_emoji_idx_is(self@, emoji@, i as int);
                }
                let ghost users = self@[i as int].1;
                let n = self.entries[i].reactions.len();
                let mut j: usize = 0;
                while j < n
                    invariant
                        self.wf(),
                        0 <= i < self.entries.len(),
                        self@.len() == self.entries.len(),
                        model_has_emoji(self@, emoji@),
                        emoji_idx(self@, emoji@) == i as int,
                        users == self@[i as int].1,
                        n == users.len(),
                        j <= n,
                        forall|k: int| 0 <= k < j ==> #[trigger] users[k].0 != user_id@,
                    decreases n - j,
                {
                    assert(users[j as int]
                        == self.entries@[i as int].reactions@[j as int].deep_view());
                    if str_eq(self.entries[i].reactions[j].user_id.as_str(), user_id) {
                        proof {
                            assert(users[j as int].0 == user_id@);
                            assert(users_have(users, user_id@));
                        }
                        return true;
                    }
                    j = j + 1;
                }
                proof {
                    assert(!users_have(users, user_id@));
                }
                false
            },
            None => false,
        }
    }

    /// Get the identifier of the reaction record for a specific user and
    /// emoji, if that user reacted with it.
    pub fn get_event_id(&self, user_id: &str, emoji: &str) -> (r: Option<String>)
        requires
            self.wf(),
        ensures
            r matches Some(ev) ==> model_event_of(self@, user_id@, emoji@) == Some(ev@),
            r is None <==> model_event_of(self@, user_id@, emoji@) is None,
    {
        match self.find_emoji(emoji) {
            Some(i) => {
                proof {
                    lemma_emoji_idx_is(self@, emoji@, i as int);
                }
                let ghost users = self@[i as int].1;
                let n = self.entries[i].reactions.len();
                let mut j: usize = 0;
                while j < n
                    invariant
                        self.wf(),
                        0 <= i < self.entries.len(),
                        self@.len() == self.entries.len(),
                        model_has_emoji(self@, emoji@),
                        emoji_idx(self@, emoji@) == i as int,
                        users == self@[i as int].1,
                        n == users.len(),
                        j <= n,
                        forall|k: int| 0 <= k < j ==> #[trigger] users[k].0 != user_id@,
                    decreases n - j,
                {
                    assert(users[j as int]
                        == self.entries@[i as int].reactions@[j as int].deep_view());
                    if str_eq(self.entries[i].reactions[j].user_id.as_str(), user_id) {
                        proof {
                            assert forall|a: int, b: int|
                                0 <= a < users.len() && 0 <= b < users.len() && a
                                    != b implies #[trigger] users[a].0 != #[trigger] users[b].0 by {
                                assert(self@[i as int].1[a].0 != self@[i as int].1[b].0);
                            }
                            lemma_user_idx_is(users, user_id@, j as int);
                        }
                        return Some(self.entries[i].reactions[j].event_id.clone());
                    }
                    j = j + 1;
                }
                proof {
                    assert(!users_have(users, user_id@));
                }
                None
            },
            None => None,
        }
    }

    /// Get all reaction counts as (emoji, count) pairs, in insertion order.
    pub fn counts(&self) -> (r: Vec<(String, u32)>)
        requires
            self.wf(),
        ensures
            r.deep_view() == model_counts(self@),
    {
        let mut r: Vec<(String, u32)> = Vec::new();
        let mut i: usize = 0;
        while i < self.entries.len()
            invariant
                self.wf(),
                i <= self.entries.len(),
                self@.len() == self.entries.len(),
                r@.len() == i,
                r.deep_view() =~= model_counts(self@).take(i as int),
            decreases self.entries.len() - i,
        {
            proof {
                lemma_entry_le_total(self@, i as int);
                assert(self@[i as int] == self.entries@[i as int].deep_view());
            }
            let n = self.entries[i].reactions.len();
            let e = self.entries[i].emoji.clone();
            let ghost ev = e@;
            let ghost pushed = (e, n as u32);
            proof {
                assert(ev == self@[i as int].0);
                assert(n == self@[i as int].1.len());
                assert(n <= u32::MAX);
                assert(pushed.deep_view() == (ev, n as u32));
            }
            r.push((e, n as u32));
            proof {
                assert(r@[i as int] == pushed);
                assert(r@[i as int].deep_view() == (self@[i as int].0, self@[
                    i as int
                ].1.len() as u32));
                assert(r.deep_view() =~= model_counts(self@).take(i as int + 1));
            }
            i = i + 1;
        }
        proof {
            assert(model_counts(self@).take(i as int) =~= model_counts(self@));
        }
        r
    }

    /// Get all emojis used in reactions, in insertion order.
    pub fn emojis(&self) -> (r: Vec<String>)
        requires
            self.wf(),
        ensures
            r.deep_view().len() == self@.len(),
            forall|i: int| 0 <= i < self@.len() ==> r.deep_view()[i] == self@[i].0,
    {
        let mut r: Vec<String> = Vec::new();
        let mut i: usize = 0;
        while i < self.entries.len()
            invariant
                i <= self.entries.len(),
                self@.len() == self.entries.len(),
                r@.len() == i,
                r.deep_view().len() == i,
                forall|j: int| 0 <= j < i ==> r.deep_view()[j] == self@[j].0,
            decreases self.entries.len() - i,
        {
            proof {
                assert(self@[i as int] == self.entries@[i as int].deep_view());
            }
            let ghost rb = r.deep_view();
            r.push(self.entries[i].emoji.clone());
            proof {
                assert forall|j: int| 0 <= j < i + 1 implies r.deep_view()[j] == self@[j].0 by {
                    if j < i {
                        assert(r.deep_view()[j] == rb[j]);
                    } else {
                        assert(r.deep_view()[j] == r@[j].deep_view());
                    }
                }
            }
            i = i + 1;
        }
        r
    }

    /// Get the users who reacted with a specific emoji, in insertion order,
    /// if any did.
    pub fn users_for_emoji(&self, emoji: &str) -> (r: Option<Vec<String>>)
        requires
            self.wf(),
        ensures
            r matches Some(users) ==> model_has_emoji(self@, emoji@) && users.deep_view()
                == model_users_of(self@, emoji@),
            r is None ==> !model_has_emoji(self@, emoji@),
    {
        match self.find_emoji(emoji) {
            Some(i) => {
                proof {
                    lemma_emoji_idx_is(self@, emoji@, i as int);
                }
                let ghost users = self@[i as int].1;
                let n = self.entries[i].reactions.len();
                let mut r: Vec<String> = Vec::new();
                let mut j: usize = 0;
                while j < n
                    invariant
                        self.wf(),
                        0 <= i < self.entries.len(),
                        self@.len() == self.entries.len(),
                        users == self@[i as int].1,
                        n == users.len(),
                        j <= n,
                        r@.len() == j,
                        r.deep_view().len() == j,
                        forall|k: int| 0 <= k < j ==> r.deep_view()[k] == users[k].0,
                    decreases n - j,
                {
                    proof {
                        assert(users[j as int]
                            == self.entries@[i as int].reactions@[j as int].deep_view());
                    }
                    let ghost rb = r.deep_view();
                    r.push(self.entries[i].reactions[j].user_id.clone());
                    proof {
                        assert forall|k: int| 0 <= k < j + 1 implies r.deep_view()[k] == users[
                            k
                        ].0 by {
                            if k < j {
                                assert(r.deep_view()[k] == rb[k]);
                            } else {
                                assert(r.deep_view()[k] == r@[k].deep_view());
                            }
                        }
                    }
                    j = j + 1;
                }
                proof {
                    assert(r.deep_view() =~= model_users_of(self@, emoji@));
                }
                Some(r)
            },
            None => None,
        }
    }

    /// Get the most popular reactions: the (emoji, count) pairs sorted by
    /// count descending, ties kept in insertion order, truncated to `limit`.
    pub fn top_reactions(&self, limit: usize) -> (r: Vec<(String, u32)>)
        requires
            self.wf(),
        ensures
            r.deep_view() == sort_counts_desc(model_counts(self@)).take(
                if limit as int <= self@.len() {
                    limit as int
                } else {
                    self@.len() as int
                },
            ),
    {
        let pairs = self.counts();
        let mut sorted = sort_counts(pairs);
        proof {
            lemma_sort_counts_desc_len(model_counts(self@));
        }
        sorted.truncate(limit);
        proof {
            if limit as int <= self@.len() {
                assert(sorted.deep_view() =~= sort_counts_desc(model_counts(self@)).take(
                    limit as int,
                ));
            } else {
                assert(sorted.deep_view() =~= sort_counts_desc(model_counts(self@)).take(
                    self@.len() as int,
                ));
            }
        }
        sorted
    }

    /// Merge another reaction summary into this one by replaying every
    /// (emoji, user, record) triple of `other` through
    /// [`ReactionSummary::add_reaction`], so merging inherits its
    /// idempotence: overlapping summaries never double-count.
    pub fn merge(&mut self, other: &ReactionSummary)
        requires
            old(self).wf(),
            other.wf(),
            model_total(old(self)@) + model_total(other@) <= u32::MAX,
        ensures
            final(self).wf(),
            final(self)@ == spec_merge(old(self)@, other@),
    {
        let ghost m0 = self@;
        let ghost o = other@;
        let mut i: usize = 0;
        proof {
            assert(o.take(0) =~= Seq::<(Seq<char>, Seq<(Seq<char>, Seq<char>)>)>::empty());
        }
        while i < other.entries.len()
            invariant
                self.wf(),
                other.wf(),
                o == other@,
                o.len() == other.entries.len(),
                model_total(m0) + model_total(o) <= u32::MAX,
                i <= other.entries.len(),
                self@ == spec_merge(m0, o.take(i as int)),
                model_total(self@) <= model_total(m0) + model_total(o.take(i as int)),
            decreases other.entries.len() - i,
        {
            let ghost e = o[i as int].0;
            let ghost users = o[i as int].1;
            proof {
                assert(o[i as int] == other.entries@[i as int].deep_view());
                assert(users.take(0) =~= Seq::<(Seq<char>, Seq<char>)>::empty());
                lemma_total_take_succ(o, i as int);
                lemma_total_take_le(o, i as int + 1);
            }
            let ghost base = self@;
            let n = other.entries[i].reactions.len();
            let mut j: usize = 0;
            while j < n
                invariant
                    self.wf(),
                    other.wf(),
                    o == other@,
                    o.len() == other.entries.len(),
                    0 <= i < other.entries.len(),
                    e == o[i as int].0,
                    users == o[i as int].1,
                    n == users.len(),
                    j <= n,
                    model_total(m0) + model_total(o) <= u32::MAX,
                    model_total(o.take(i as int)) + users.len() == model_total(
                        o.take(i as int + 1),
                    ),
                    model_total(o.take(i as int + 1)) <= model_total(o),
                    base == spec_merge(m0, o.take(i as int)),
                    self@ == merge_one_entry(base, e, users.take(j as int)),
                    model_total(self@) <= model_total(m0) + model_total(o.take(i as int)) + j,
                decreases n - j,
            {
                proof {
                    assert(users[j as int]
                        == other.entries@[i as int].reactions@[j as int].deep_view());
                }
                let ghost before = self@;
                self.add_reaction(
                    other.entries[i].emoji.as_str(),
                    other.entries[i].reactions[j].user_id.as_str(),
                    other.entries[i].reactions[j].event_id.as_str(),
                );
                proof {
                    assert(users.take(j as int + 1).drop_last() =~= users.take(j as int));
                    assert(users.take(j as int + 1).last() == users[j as int]);
                    assert(self@ == spec_add(before, e, users[j as int].0, users[j as int].1));
                    assert(self@ == merge_one_entry(base, e, users.take(j as int + 1)));
                    lemma_add_total_bound(before, e, users[j as int].0, users[j as int].1);
                }
                j = j + 1;
            }
            proof {
                assert(users.take(n as int) =~= users);
                assert(o.take(i as int + 1).drop_last() =~= o.take(i as int));
                assert(o.take(i as int + 1).last() == o[i as int]);
                assert(merge_one_entry(spec_merge(m0, o.take(i as int)), e, users) == spec_merge(
                    m0,
                    o.take(i as int + 1),
                ));
            }
            i = i + 1;
        }
        proof {
            assert(o.take(i as int) =~= o);
        }
    }

    /// Check if there are any reactions.
    pub fn is_empty(&self) -> (r: bool)
        requires
            self.wf(),
        ensures
            r == (model_total(self@) == 0),
    {
        self.total == 0
    }

    /// Clear all reactions.
    pub fn clear(&mut self)
        ensures
            final(self).wf(),
            final(self)@ == Seq::<(Seq<char>, Seq<(Seq<char>, Seq<char>)>)>::empty(),
    {
        self.entries = Vec::new();
        self.total = 0;
        proof {
            assert(self@ =~= Seq::<(Seq<char>, Seq<(Seq<char>, Seq<char>)>)>::empty());
        }
    }
}

/// A single reaction entry for display purposes.
#[derive(Clone, Debug)]
pub struct ReactionDisplay {
    /// The emoji used for the reaction.
    pub emoji: String,
    /// Number of users who used this reaction.
    pub count: u32,
    /// Whether the current user has used this reaction.
    pub is_selected: bool,
}

impl ReactionDisplay {
    /// Create a new reaction display entry.
    pub fn new(emoji: String, count: u32, is_selected: bool) -> (r: ReactionDisplay)
        ensures
            r.emoji@ == emoji@,
            r.count == count,
            r.is_selected == is_selected,
    {
        ReactionDisplay { emoji, count, is_selected }
    }
}

/// Convert a reaction summary to display entries for a specific user: its
/// ten most popular reactions, each marked if `current_user` holds it.
pub fn reactions_for_display(
    summary: &ReactionSummary,
    current_user: Option<&str>,
) -> (r: Vec<ReactionDisplay>)
    requires
        summary.wf(),
    ensures
        ({
            let top = sort_counts_desc(model_counts(summary@)).take(
                if 10 <= summary@.len() {
                    10
                } else {
                    summary@.len() as int
                },
            );
            &&& r@.len() == top.len()
            &&& forall|i: int|
                0 <= i < top.len() ==> #[trigger] r@[i].emoji@ == top[i].0 && r@[i].count
                    == top[i].1 && r@[i].is_selected == (current_user matches Some(u)
                    && model_has_reaction(summary@, top[i].0, u@))
        }),
{
    let top = summary.top_reactions(10);
    let ghost topv = top.deep_view();
    let mut r: Vec<ReactionDisplay> = Vec::new();
    let mut i: usize = 0;
    while i < top.len()
        invariant
            summary.wf(),
            topv == top.deep_view(),
            topv.len() == top.len(),
            i <= top.len(),
            r@.len() == i,
            forall|j: int|
                0 <= j < i ==> #[trigger] r@[j].emoji@ == topv[j].0 && r@[j].count == topv[j].1
                    && r@[j].is_selected == (current_user matches Some(u) && model_has_reaction(
                    summary@,
                    topv[j].0,
                    u@,
                )),
        decreases top.len() - i,
    {
        proof {
            assert(topv[i as int] == top@[i as int].deep_view());
        }
        let is_selected = match current_user {
            Some(user_id) => summary.has_user_reacted(top[i].0.as_str(), user_id),
            None => false,
        };
        r.push(ReactionDisplay::new(top[i].0.clone(), top[i].1, is_selected));
        i = i + 1;
    }
    r
}

} // verus!
