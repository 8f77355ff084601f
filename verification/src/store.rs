//! The subscriber store and the token store, in memory.
//!
//! Both tables live in one `Store`. Writes that must persist together are
//! made through a `Transaction`. It works on a copy of the tables; on commit
//! the rows that it has added are added to the store, all of them or none.

use vstd::prelude::*;
use vstd::string::StringExecFns;

verus! {

/// Where a subscriber stands.
#[derive(Clone, Copy, Debug, PartialEq, Eq, Structural)]
pub enum SubscriptionStatus {
    PendingConfirmation,
    Confirmed,
}

/// Why a store operation failed.
#[derive(Clone, Copy, Debug, PartialEq, Eq, Structural)]
pub enum StoreError {
    /// The write would have repeated a value that must be unique.
    Conflict,
    /// The store could not do its work.
    StorageError,
}

/// One row of the subscriber table.
#[derive(Debug)]
pub struct SubscriberRecord {
    pub id: u128,
    pub email: String,
    pub name: String,
    /// Nanoseconds since the Unix epoch.
    pub subscribed_at: i128,
    pub status: SubscriptionStatus,
}

/// One row of the token table.
#[derive(Debug)]
pub struct TokenRecord {
    pub subscription_token: String,
    pub subscriber_id: u128,
}

/// What a store holds: its two tables, rows in the order of their insertion,
/// and whether it can be reached.
pub struct Tables {
    pub subscribers: Seq<SubscriberRecord>,
    pub tokens: Seq<TokenRecord>,
    pub available: bool,
}

/// Everything but the status of `row` is as given, and the status is pending.
pub open spec fn is_pending_row(
    row: SubscriberRecord,
    id: u128,
    email: Seq<char>,
    name: Seq<char>,
    subscribed_at: i128,
) -> bool {
    &&& row.id == id
    &&& row.email@ == email
    &&& row.name@ == name
    &&& row.subscribed_at == subscribed_at
    &&& row.status == SubscriptionStatus::PendingConfirmation
}

/// `row` with the status confirmed.
pub open spec fn confirmed_row(row: SubscriberRecord) -> SubscriberRecord {
    SubscriberRecord { status: SubscriptionStatus::Confirmed, ..row }
}

/// The rows of `rows` whose status is confirmed, in their order.
pub open spec fn confirmed_rows(rows: Seq<SubscriberRecord>) -> Seq<SubscriberRecord>
    decreases rows.len(),
{
    if rows.len() == 0 {
        Seq::empty()
    } else if rows.last().status == SubscriptionStatus::Confirmed {
        confirmed_rows(rows.drop_last()).push(rows.last())
    } else {
        confirmed_rows(rows.drop_last())
    }
}

impl Tables {
    /// Some subscriber has the id `id`.
    pub open spec fn has_id(self, id: u128) -> bool {
        exists|i: int| 0 <= i < self.subscribers.len() && (#[trigger] self.subscribers[i]).id == id
    }

    /// Some subscriber has the address `email`.
    pub open spec fn has_email(self, email: Seq<char>) -> bool {
        exists|i: int|
            0 <= i < self.subscribers.len() && (#[trigger] self.subscribers[i]).email@ == email
    }

    /// Some token row holds `token`.
    pub open spec fn has_token(self, token: Seq<char>) -> bool {
        exists|i: int|
            0 <= i < self.tokens.len() && (#[trigger] self.tokens[i]).subscription_token@ == token
    }

    /// No id, no address and no token occurs twice, and every token belongs
    /// to a subscriber that is there.
    pub open spec fn wf(self) -> bool {
        &&& forall|i: int, j: int|
            0 <= i < j < self.subscribers.len() ==> (#[trigger] self.subscribers[i]).id != (
            #[trigger] self.subscribers[j]).id
        &&& forall|i: int, j: int|
            0 <= i < j < self.subscribers.len() ==> (#[trigger] self.subscribers[i]).email@ != (
            #[trigger] self.subscribers[j]).email@
        &&& forall|i: int, j: int|
            0 <= i < j < self.tokens.len() ==> (#[trigger] self.tokens[i]).subscription_token@ != (
            #[trigger] self.tokens[j]).subscription_token@
        &&& forall|i: int|
            0 <= i < self.tokens.len() ==> self.has_id((#[trigger] self.tokens[i]).subscriber_id)
    }

    /// The subscriber that `token` was issued to, if it was issued at all.
    pub open spec fn resolve(self, token: Seq<char>) -> Option<u128> {
        if self.has_token(token) {
            let i = choose|i: int|
                0 <= i < self.tokens.len() && (#[trigger] self.tokens[i]).subscription_token@
                    == token;
            Some(self.tokens[i].subscriber_id)
        } else {
            None
        }
    }

    /// The status of the subscriber `id`, if there is one.
    pub open spec fn status_of(self, id: u128) -> Option<SubscriptionStatus> {
        if self.has_id(id) {
            let i = choose|i: int|
                0 <= i < self.subscribers.len() && (#[trigger] self.subscribers[i]).id == id;
            Some(self.subscribers[i].status)
        } else {
            None
        }
    }

    /// The tables once the subscriber `id` is confirmed: every other row is
    /// as it was.
    pub open spec fn confirm(self, id: u128) -> Tables {
        Tables {
            subscribers: Seq::new(
                self.subscribers.len(),
                |i: int|
                    if self.subscribers[i].id == id {
                        confirmed_row(self.subscribers[i])
                    } else {
                        self.subscribers[i]
                    },
            ),
            ..self
        }
    }

    /// The confirmed subscribers, in the order of their insertion.
    pub open spec fn confirmed(self) -> Seq<SubscriberRecord> {
        confirmed_rows(self.subscribers)
    }

    /// `after` is `self` with one pending subscriber added at the end.
    pub open spec fn gains_subscriber(
        self,
        after: Tables,
        id: u128,
        email: Seq<char>,
        name: Seq<char>,
        subscribed_at: i128,
    ) -> bool {
        &&& after.subscribers.len() == self.subscribers.len() + 1
        &&& after.subscribers.drop_last() == self.subscribers
        &&& is_pending_row(after.subscribers.last(), id, email, name, subscribed_at)
        &&& after.tokens == self.tokens
        &&& after.available == self.available
    }

    /// `after` is `self` with one token for `subscriber_id` added at the end.
    pub open spec fn gains_token(
        self,
        after: Tables,
        token: Seq<char>,
        subscriber_id: u128,
    ) -> bool {
        &&& after.tokens.len() == self.tokens.len() + 1
        &&& after.tokens.drop_last() == self.tokens
        &&& after.tokens.last().subscription_token@ == token
        &&& after.tokens.last().subscriber_id == subscriber_id
        &&& after.subscribers == self.subscribers
        &&& after.available == self.available
    }

    /// What an insertion into the subscriber table does: a subscriber whose
    /// id and address are new is added as pending, and any other is refused
    /// as a conflict, which changes nothing.
    pub open spec fn inserts(
        self,
        after: Tables,
        outcome: Result<(), StoreError>,
        id: u128,
        email: Seq<char>,
        name: Seq<char>,
        subscribed_at: i128,
    ) -> bool {
        match outcome {
            Ok(()) => {
                &&& !self.has_id(id)
                &&& !self.has_email(email)
                &&& self.gains_subscriber(after, id, email, name, subscribed_at)
            },
            Err(e) => {
                &&& e == StoreError::Conflict
                &&& self.has_id(id) || self.has_email(email)
                &&& after == self
            },
        }
    }

    /// What an insertion into the token table does: a new token for a
    /// subscriber that is there is added. A token that is taken is refused
    /// as a conflict, and a new one for a subscriber that is not there as a
    /// storage error; neither changes anything.
    pub open spec fn stores_token(
        self,
        after: Tables,
        outcome: Result<(), StoreError>,
        token: Seq<char>,
        subscriber_id: u128,
    ) -> bool {
        match outcome {
            Ok(()) => {
                &&& !self.has_token(token)
                &&& self.has_id(subscriber_id)
                &&& self.gains_token(after, token, subscriber_id)
            },
            Err(StoreError::Conflict) => self.has_token(token) && after == self,
            Err(StoreError::StorageError) => {
                &&& !self.has_token(token)
                &&& !self.has_id(subscriber_id)
                &&& after == self
            },
        }
    }
}

impl Tables {
    /// The tables with `subscribers` and `tokens` added behind the rows that
    /// are there.
    pub open spec fn with_rows(
        self,
        subscribers: Seq<SubscriberRecord>,
        tokens: Seq<TokenRecord>,
    ) -> Tables {
        Tables {
            subscribers: self.subscribers + subscribers,
            tokens: self.tokens + tokens,
            available: self.available,
        }
    }

    /// One of `rows` has an id or an address that is taken here.
    pub open spec fn takes_subscriber(self, rows: Seq<SubscriberRecord>) -> bool {
        exists|i: int|
            0 <= i < rows.len() && (self.has_id((#[trigger] rows[i]).id) || self.has_email(
                rows[i].email@,
            ))
    }

    /// One of `rows` holds a token that is taken here.
    pub open spec fn takes_token(self, rows: Seq<TokenRecord>) -> bool {
        exists|i: int|
            0 <= i < rows.len() && self.has_token((#[trigger] rows[i]).subscription_token@)
    }

    /// One of `subscribers` has an id or an address that is taken here, or
    /// one of `tokens` holds a token that is.
    pub open spec fn clashes_with(
        self,
        subscribers: Seq<SubscriberRecord>,
        tokens: Seq<TokenRecord>,
    ) -> bool {
        self.takes_subscriber(subscribers) || self.takes_token(tokens)
    }

    /// One of `tokens` belongs to a subscriber that is neither here nor
    /// among `subscribers`.
    pub open spec fn leaves_orphans(
        self,
        subscribers: Seq<SubscriberRecord>,
        tokens: Seq<TokenRecord>,
    ) -> bool {
        exists|i: int|
            0 <= i < tokens.len() && !self.with_rows(subscribers, Seq::empty()).has_id(
                (#[trigger] tokens[i]).subscriber_id,
            )
    }

    /// What a commit of the rows `subscribers` and `tokens` does. Where the
    /// store can be reached, no row clashes with one that is there and no
    /// token is left without its subscriber, all the rows are added. Else
    /// the commit fails, as a conflict where a row clashes, and nothing is
    /// added.
    pub open spec fn commits(
        self,
        after: Tables,
        outcome: Result<(), StoreError>,
        subscribers: Seq<SubscriberRecord>,
        tokens: Seq<TokenRecord>,
    ) -> bool {
        if !self.available {
            outcome == Err::<(), StoreError>(StoreError::StorageError) && after == self
        } else if self.clashes_with(subscribers, tokens) {
            outcome == Err::<(), StoreError>(StoreError::Conflict) && after == self
        } else if self.leaves_orphans(subscribers, tokens) {
            outcome == Err::<(), StoreError>(StoreError::StorageError) && after == self
        } else {
            outcome is Ok && after == self.with_rows(subscribers, tokens)
        }
    }
}

/// The subscriber table and the token table, with a switch that makes the
/// store unreachable, as a database may be.
pub struct Store {
    subscribers: Vec<SubscriberRecord>,
    tokens: Vec<TokenRecord>,
    available: bool,
}

impl View for Store {
    type V = Tables;

    closed spec fn view(&self) -> Tables {
        Tables { subscribers: self.subscribers@, tokens: self.tokens@, available: self.available }
    }
}

/// A unit of work: the tables as they were when it was opened and, behind
/// them, the rows that it has added.
pub struct Transaction {
    staged: Store,
    added_subscribers: usize,
    added_tokens: usize,
}

impl View for Transaction {
    type V = Tables;

    /// The tables as the unit of work sees them.
    closed spec fn view(&self) -> Tables {
        self.staged@
    }
}

fn clone_subscriber(row: &SubscriberRecord) -> (r: SubscriberRecord)
    ensures
        r == *row,
{
    SubscriberRecord {
        id: row.id,
        email: row.email.clone(),
        name: row.name.clone(),
        subscribed_at: row.subscribed_at,
        status: row.status,
    }
}

fn clone_token(row: &TokenRecord) -> (r: TokenRecord)
    ensures
        r == *row,
{
    TokenRecord {
        subscription_token: row.subscription_token.clone(),
        subscriber_id: row.subscriber_id,
    }
}

/// Adds copies of the rows of `rows` from `first` on to `target`.
fn extend_subscribers(
    target: &mut Vec<SubscriberRecord>,
    rows: &Vec<SubscriberRecord>,
    first: usize,
)
    requires
        first <= rows@.len(),
    ensures
        final(target)@ == old(target)@ + rows@.skip(first as int),
{
    let mut i: usize = first;
    while i < rows.len()
        invariant
            first <= i <= rows@.len(),
            target@ == old(target)@ + rows@.subrange(first as int, i as int),
        decreases rows@.len() - i,
    {
        target.push(clone_subscriber(&rows[i]));
        proof {
            assert(rows@.subrange(first as int, i + 1) =~= rows@.subrange(
                first as int,
                i as int,
            ).push(rows@[i as int]));
        }
        i = i + 1;
    }
    proof {
        assert(rows@.subrange(first as int, rows@.len() as int) =~= rows@.skip(first as int));
    }
}

/// Adds copies of the rows of `rows` from `first` on to `target`.
fn extend_tokens(target: &mut Vec<TokenRecord>, rows: &Vec<TokenRecord>, first: usize)
    requires
        first <= rows@.len(),
    ensures
        final(target)@ == old(target)@ + rows@.skip(first as int),
{
    let mut i: usize = first;
    while i < rows.len()
        invariant
            first <= i <= rows@.len(),
            target@ == old(target)@ + rows@.subrange(first as int, i as int),
        decreases rows@.len() - i,
    {
        target.push(clone_token(&rows[i]));
        proof {
            assert(rows@.subrange(first as int, i + 1) =~= rows@.subrange(
                first as int,
                i as int,
            ).push(rows@[i as int]));
        }
        i = i + 1;
    }
    proof {
        assert(rows@.subrange(first as int, rows@.len() as int) =~= rows@.skip(first as int));
    }
}

fn copy_subscribers(rows: &Vec<SubscriberRecord>) -> (r: Vec<SubscriberRecord>)
    ensures
        r@ == rows@,
{
    let mut copy: Vec<SubscriberRecord> = Vec::new();
    extend_subscribers(&mut copy, rows, 0);
    proof {
        assert(Seq::<SubscriberRecord>::empty() + rows@.skip(0) =~= rows@);
    }
    copy
}

fn copy_tokens(rows: &Vec<TokenRecord>) -> (r: Vec<TokenRecord>)
    ensures
        r@ == rows@,
{
    let mut copy: Vec<TokenRecord> = Vec::new();
    extend_tokens(&mut copy, rows, 0);
    proof {
        assert(Seq::<TokenRecord>::empty() + rows@.skip(0) =~= rows@);
    }
    copy
}

/// The subscriber `id` stands in `rows` at `first` or behind.
spec fn stands_from(rows: Seq<SubscriberRecord>, first: int, id: u128) -> bool {
    exists|k: int| first <= k < rows.len() && (#[trigger] rows[k]).id == id
}

/// A subscriber is among the rows of `current` and the rows of `staged` from
/// `s` on where it is in `current`, or stands in `staged` at `s` or behind;
/// and it stands at `s` or behind where it stands there at all.
proof fn lemma_has_id_of_with_rows(current: Tables, staged: Tables, s: int, id: u128)
    requires
        staged.wf(),
        0 <= s <= staged.subscribers.len(),
    ensures
        current.with_rows(staged.subscribers.skip(s), Seq::empty()).has_id(id) <==> current.has_id(
            id,
        ) || stands_from(staged.subscribers, s, id),
        forall|at: int|
            0 <= at < staged.subscribers.len() && (#[trigger] staged.subscribers[at]).id == id
                ==> (at >= s <==> stands_from(staged.subscribers, s, id)),
{
    let merged = current.with_rows(staged.subscribers.skip(s), Seq::empty());
    let n = current.subscribers.len() as int;
    if merged.has_id(id) {
        let i = choose|i: int|
            0 <= i < merged.subscribers.len() && (#[trigger] merged.subscribers[i]).id == id;
        if i < n {
            assert(current.subscribers[i].id == id);
        } else {
            assert(staged.subscribers[s + i - n].id == id);
        }
    }
    if current.has_id(id) {
        let i = choose|i: int| 0 <= i < n && (#[trigger] current.subscribers[i]).id == id;
        assert(merged.subscribers[i].id == id);
    }
    if stands_from(staged.subscribers, s, id) {
        let k = choose|k: int|
            s <= k < staged.subscribers.len() && (#[trigger] staged.subscribers[k]).id == id;
        assert(merged.subscribers[n + k - s].id == id);
        assert forall|at: int|
            0 <= at < staged.subscribers.len() && (#[trigger] staged.subscribers[at]).id
                == id implies at >= s by {
            if at < k {
                assert(staged.subscribers[at].id != staged.subscribers[k].id);
            }
        }
    }
}

/// Tables stay well formed when rows are added that are distinct among
/// themselves, clash with none that is there and leave no token without
/// its subscriber: the rows that a unit of work has added, which are the
/// last rows of its own well-formed tables.
proof fn lemma_with_rows_keeps_wf(current: Tables, staged: Tables, s: int, t: int)
    requires
        current.wf(),
        staged.wf(),
        0 <= s <= staged.subscribers.len(),
        0 <= t <= staged.tokens.len(),
        !current.clashes_with(staged.subscribers.skip(s), staged.tokens.skip(t)),
        !current.leaves_orphans(staged.subscribers.skip(s), staged.tokens.skip(t)),
    ensures
        current.with_rows(staged.subscribers.skip(s), Seq::empty()).wf(),
        current.with_rows(staged.subscribers.skip(s), staged.tokens.skip(t)).wf(),
{
    let subscribers = staged.subscribers.skip(s);
    let tokens = staged.tokens.skip(t);
    let half = current.with_rows(subscribers, Seq::empty());
    let all = current.with_rows(subscribers, tokens);
    let n = current.subscribers.len() as int;
    let m = current.tokens.len() as int;
    assert(half.tokens =~= current.tokens);
    assert(all.subscribers == half.subscribers);
    assert forall|i: int, j: int| 0 <= i < j < half.subscribers.len() implies (
    #[trigger] half.subscribers[i]).id != (#[trigger] half.subscribers[j]).id by {
        if j < n {
        } else if i < n {
            assert(current.has_id(current.subscribers[i].id));
            assert(subscribers[j - n].id == half.subscribers[j].id);
        } else {
            assert(staged.subscribers[s + i - n].id != staged.subscribers[s + j - n].id);
        }
    }
    assert forall|i: int, j: int| 0 <= i < j < half.subscribers.len() implies (
    #[trigger] half.subscribers[i]).email@ != (#[trigger] half.subscribers[j]).email@ by {
        if j < n {
        } else if i < n {
            assert(current.has_email(current.subscribers[i].email@));
            assert(subscribers[j - n].email@ == half.subscribers[j].email@);
        } else {
            assert(staged.subscribers[s + i - n].email@ != staged.subscribers[s + j - n].email@);
        }
    }
    assert forall|i: int, j: int| 0 <= i < j < all.tokens.len() implies (
    #[trigger] all.tokens[i]).subscription_token@ != (
    #[trigger] all.tokens[j]).subscription_token@ by {
        if j < m {
        } else if i < m {
            assert(current.has_token(current.tokens[i].subscription_token@));
            assert(tokens[j - m].subscription_token@ == all.tokens[j].subscription_token@);
        } else {
            assert(staged.tokens[t + i - m].subscription_token@ != staged.tokens[t + j
                - m].subscription_token@);
        }
    }
    assert forall|i: int| 0 <= i < all.tokens.len() implies half.has_id(
        (#[trigger] all.tokens[i]).subscriber_id,
    ) by {
        if i < m {
            assert(current.has_id(current.tokens[i].subscriber_id));
            let k = choose|k: int|
                0 <= k < current.subscribers.len() && (#[trigger] current.subscribers[k]).id
                    == current.tokens[i].subscriber_id;
            assert(half.subscribers[k].id == current.tokens[i].subscriber_id);
        } else {
            assert(tokens[i - m].subscriber_id == all.tokens[i].subscriber_id);
        }
    }
    assert forall|i: int| 0 <= i < half.tokens.len() implies half.has_id(
        (#[trigger] half.tokens[i]).subscriber_id,
    ) by {
        assert(half.tokens[i] == all.tokens[i]);
    }
}

/// Tables stay well formed when a pending subscriber with a new id and a new
/// address is added.
proof fn lemma_gains_subscriber_keeps_wf(
    before: Tables,
    after: Tables,
    id: u128,
    email: Seq<char>,
    name: Seq<char>,
    subscribed_at: i128,
)
    requires
        before.wf(),
        !before.has_id(id),
        !before.has_email(email),
        before.gains_subscriber(after, id, email, name, subscribed_at),
    ensures
        after.wf(),
{
    assert forall|i: int| 0 <= i < before.subscribers.len() implies (
    #[trigger] after.subscribers[i]) == before.subscribers[i] by {
        assert(after.subscribers.drop_last()[i] == after.subscribers[i]);
    }
    assert forall|i: int| 0 <= i < after.tokens.len() implies after.has_id(
        (#[trigger] after.tokens[i]).subscriber_id,
    ) by {
        assert(before.has_id(before.tokens[i].subscriber_id));
        let k = choose|k: int|
            0 <= k < before.subscribers.len() && (#[trigger] before.subscribers[k]).id
                == before.tokens[i].subscriber_id;
        assert(after.subscribers[k].id == after.tokens[i].subscriber_id);
    }
}

/// Tables stay well formed when a new token is added for a subscriber that
/// is there.
proof fn lemma_gains_token_keeps_wf(
    before: Tables,
    after: Tables,
    token: Seq<char>,
    subscriber_id: u128,
)
    requires
        before.wf(),
        !before.has_token(token),
        before.has_id(subscriber_id),
        before.gains_token(after, token, subscriber_id),
    ensures
        after.wf(),
{
    assert forall|i: int| 0 <= i < before.tokens.len() implies (#[trigger] after.tokens[i])
        == before.tokens[i] by {
        assert(after.tokens.drop_last()[i] == after.tokens[i]);
    }
    assert forall|i: int| 0 <= i < after.tokens.len() implies after.has_id(
        (#[trigger] after.tokens[i]).subscriber_id,
    ) by {
        if i < before.tokens.len() {
            assert(before.has_id(before.tokens[i].subscriber_id));
        }
    }
}

/// Tables stay well formed when a subscriber is confirmed.
pub proof fn lemma_confirm_keeps_wf(before: Tables, id: u128)
    requires
        before.wf(),
    ensures
        before.confirm(id).wf(),
{
    let after = before.confirm(id);
    assert forall|i: int| 0 <= i < after.tokens.len() implies after.has_id(
        (#[trigger] after.tokens[i]).subscriber_id,
    ) by {
        assert(before.has_id(before.tokens[i].subscriber_id));
        let k = choose|k: int|
            0 <= k < before.subscribers.len() && (#[trigger] before.subscribers[k]).id
                == before.tokens[i].subscriber_id;
        assert(after.subscribers[k].id == after.tokens[i].subscriber_id);
    }
    assert forall|i: int, j: int| 0 <= i < j < after.subscribers.len() implies (
    #[trigger] after.subscribers[i]).id != (#[trigger] after.subscribers[j]).id by {
        assert(before.subscribers[i].id != before.subscribers[j].id);
    }
    assert forall|i: int, j: int| 0 <= i < j < after.subscribers.len() implies (
    #[trigger] after.subscribers[i]).email@ != (#[trigger] after.subscribers[j]).email@ by {
        assert(before.subscribers[i].email@ != before.subscribers[j].email@);
    }
}

/// Units of work do not interfere: where one commit follows another and both
/// go through, the store holds the rows that were there, behind them the
/// rows of the first and behind those the rows of the second, and no others.
pub proof fn lemma_commits_add_up(
    before: Tables,
    between: Tables,
    after: Tables,
    first: (Seq<SubscriberRecord>, Seq<TokenRecord>),
    second: (Seq<SubscriberRecord>, Seq<TokenRecord>),
)
    requires
        before.commits(between, Ok(()), first.0, first.1),
        between.commits(after, Ok(()), second.0, second.1),
    ensures
        after == before.with_rows(first.0 + second.0, first.1 + second.1),
{
    assert(after.subscribers =~= before.subscribers + (first.0 + second.0));
    assert(after.tokens =~= before.tokens + (first.1 + second.1));
}

/// Confirming changes nothing but a status, and a status only from pending
/// to confirmed: whoever is confirmed stays confirmed.
pub proof fn lemma_confirm_changes_status_only(before: Tables, id: u128, i: int)
    requires
        0 <= i < before.subscribers.len(),
    ensures
        before.confirm(id).subscribers.len() == before.subscribers.len(),
        before.confirm(id).tokens == before.tokens,
        before.confirm(id).available == before.available,
        before.confirm(id).subscribers[i] == (SubscriberRecord {
            status: before.confirm(id).subscribers[i].status,
            ..before.subscribers[i]
        }),
        before.confirm(id).subscribers[i].status == if before.subscribers[i].id == id {
            SubscriptionStatus::Confirmed
        } else {
            before.subscribers[i].status
        },
        before.subscribers[i].status == SubscriptionStatus::Confirmed ==> before.confirm(
            id,
        ).subscribers[i].status == SubscriptionStatus::Confirmed,
{
}

impl Store {
    /// What holds of every store: its tables are well formed.
    #[verifier::type_invariant]
    pub open spec fn well_formed(self) -> bool {
        self@.wf()
    }

    /// A store with no rows, which can be reached.
    pub fn new() -> (store: Self)
        ensures
            store@.wf(),
            store@.available,
            store@.subscribers.len() == 0,
            store@.tokens.len() == 0,
    {
        Self { subscribers: Vec::new(), tokens: Vec::new(), available: true }
    }

    /// The rows of the subscriber table, in the order of their insertion.
    pub fn subscribers(&self) -> (rows: &Vec<SubscriberRecord>)
        ensures
            rows@ == self@.subscribers,
            self@.wf(),
    {
        proof {
            use_type_invariant(self);
        }
        &self.subscribers
    }

    /// The rows of the token table, in the order of their insertion.
    pub fn tokens(&self) -> (rows: &Vec<TokenRecord>)
        ensures
            rows@ == self@.tokens,
            self@.wf(),
    {
        proof {
            use_type_invariant(self);
        }
        &self.tokens
    }

    /// Makes the store reachable or unreachable. While it is unreachable,
    /// every operation on it fails and changes nothing.
    pub fn set_available(&mut self, available: bool)
        ensures
            final(self)@ == (Tables { available, ..old(self)@ }),
    {
        proof {
            use_type_invariant(&*self);
            assert forall|i: int| 0 <= i < self@.tokens.len() implies (Tables {
                available,
                ..self@
            }).has_id((#[trigger] self@.tokens[i]).subscriber_id) by {
                assert(self@.has_id(self@.tokens[i].subscriber_id));
            }
        }
        self.available = available;
    }

    fn position_of_id(&self, id: u128) -> (r: Option<usize>)
        ensures
            match r {
                Some(i) => i < self@.subscribers.len() && self@.subscribers[i as int].id == id,
                None => !self@.has_id(id),
            },
    {
        let mut i: usize = 0;
        while i < self.subscribers.len()
            invariant
                i <= self.subscribers@.len(),
                forall|k: int| 0 <= k < i ==> (#[trigger] self.subscribers@[k]).id != id,
            decreases self.subscribers@.len() - i,
        {
            if self.subscribers[i].id == id {
                return Some(i);
            }
            i = i + 1;
        }
        None
    }

    fn holds_email(&self, email: &String) -> (r: bool)
        ensures
            r == self@.has_email(email@),
    {
        let mut i: usize = 0;
        while i < self.subscribers.len()
            invariant
                i <= self.subscribers@.len(),
                forall|k: int| 0 <= k < i ==> (#[trigger] self.subscribers@[k]).email@ != email@,
            decreases self.subscribers@.len() - i,
        {
            if self.subscribers[i].email == *email {
                return true;
            }
            i = i + 1;
        }
        false
    }

    fn position_of_token(&self, token: &String) -> (r: Option<usize>)
        ensures
            match r {
                Some(i) => i < self@.tokens.len() && self@.tokens[i as int].subscription_token@
                    == token@,
                None => !self@.has_token(token@),
            },
    {
        let mut i: usize = 0;
        while i < self.tokens.len()
            invariant
                i <= self.tokens@.len(),
                forall|k: int|
                    0 <= k < i ==> (#[trigger] self.tokens@[k]).subscription_token@ != token@,
            decreases self.tokens@.len() - i,
        {
            if self.tokens[i].subscription_token == *token {
                return Some(i);
            }
            i = i + 1;
        }
        None
    }

    /// Opens a unit of work on the tables as they are now.
    pub fn begin(&self) -> (r: Result<Transaction, StoreError>)
        ensures
            self@.wf(),
            match r {
                Ok(transaction) => {
                    &&& self@.available
                    &&& transaction@ == self@
                    &&& transaction.new_subscribers().len() == 0
                    &&& transaction.new_tokens().len() == 0
                },
                Err(e) => !self@.available && e == StoreError::StorageError,
            },
    {
        proof {
            use_type_invariant(self);
        }
        if !self.available {
            return Err(StoreError::StorageError);
        }
        let staged = Store {
            subscribers: copy_subscribers(&self.subscribers),
            tokens: copy_tokens(&self.tokens),
            available: self.available,
        };
        Ok(Transaction { staged, added_subscribers: 0, added_tokens: 0 })
    }

    /// Whether a row of `rows` from `first` on has an id or an address that
    /// is taken.
    fn takes_any_subscriber(&self, rows: &Vec<SubscriberRecord>, first: usize) -> (r: bool)
        requires
            first <= rows@.len(),
        ensures
            r == self@.takes_subscriber(rows@.skip(first as int)),
    {
        let ghost added = rows@.skip(first as int);
        let mut i: usize = first;
        while i < rows.len()
            invariant
                first <= i <= rows@.len(),
                added == rows@.skip(first as int),
                forall|k: int|
                    0 <= k < i - first ==> !self@.has_id((#[trigger] added[k]).id)
                        && !self@.has_email(added[k].email@),
            decreases rows@.len() - i,
        {
            if self.position_of_id(rows[i].id).is_some() || self.holds_email(&rows[i].email) {
                proof {
                    assert(added[i - first] == rows@[i as int]);
                }
                return true;
            }
            i = i + 1;
        }
        false
    }

    /// Whether a row of `rows` from `first` on holds a token that is taken.
    fn takes_any_token(&self, rows: &Vec<TokenRecord>, first: usize) -> (r: bool)
        requires
            first <= rows@.len(),
        ensures
            r == self@.takes_token(rows@.skip(first as int)),
    {
        let ghost added = rows@.skip(first as int);
        let mut i: usize = first;
        while i < rows.len()
            invariant
                first <= i <= rows@.len(),
                added == rows@.skip(first as int),
                forall|k: int|
                    0 <= k < i - first ==> !self@.has_token(
                        (#[trigger] added[k]).subscription_token@,
                    ),
            decreases rows@.len() - i,
        {
            if self.position_of_token(&rows[i].subscription_token).is_some() {
                proof {
                    assert(added[i - first] == rows@[i as int]);
                }
                return true;
            }
            i = i + 1;
        }
        false
    }

    /// Whether a token of `staged` from `first_token` on belongs to a
    /// subscriber that is neither here nor among the subscribers of `staged`
    /// from `first_subscriber` on.
    fn leaves_any_orphan(&self, staged: &Store, first_subscriber: usize, first_token: usize) -> (r:
        bool)
        requires
            first_subscriber <= staged@.subscribers.len(),
            first_token <= staged@.tokens.len(),
        ensures
            r == self@.leaves_orphans(
                staged@.subscribers.skip(first_subscriber as int),
                staged@.tokens.skip(first_token as int),
            ),
    {
        proof {
            use_type_invariant(staged);
        }
        let ghost subscribers = staged@.subscribers.skip(first_subscriber as int);
        let ghost tokens = staged@.tokens.skip(first_token as int);
        let ghost merged = self@.with_rows(subscribers, Seq::empty());
        let mut j: usize = first_token;
        while j < staged.tokens.len()
            invariant
                staged@.wf(),
                first_subscriber <= staged@.subscribers.len(),
                first_token <= j <= staged@.tokens.len(),
                subscribers == staged@.subscribers.skip(first_subscriber as int),
                tokens == staged@.tokens.skip(first_token as int),
                merged == self@.with_rows(subscribers, Seq::empty()),
                forall|k: int|
                    0 <= k < j - first_token ==> merged.has_id(
                        (#[trigger] tokens[k]).subscriber_id,
                    ),
            decreases staged@.tokens.len() - j,
        {
            let id = staged.tokens[j].subscriber_id;
            let added = match staged.position_of_id(id) {
                Some(at) => at >= first_subscriber,
                None => false,
            };
            let here = self.position_of_id(id);
            proof {
                assert(tokens[j - first_token] == staged@.tokens[j as int]);
                lemma_has_id_of_with_rows(self@, staged@, first_subscriber as int, id);
            }
            if !added && here.is_none() {
                return true;
            }
            j = j + 1;
        }
        false
    }

    /// Adds the rows that `transaction` has added to the store, all of them
    /// or none.
    pub fn commit(&mut self, transaction: Transaction) -> (r: Result<(), StoreError>)
        ensures
            final(self)@.wf(),
            old(self)@.commits(
                final(self)@,
                r,
                transaction.new_subscribers(),
                transaction.new_tokens(),
            ),
    {
        proof {
            use_type_invariant(&*self);
            use_type_invariant(&transaction);
            use_type_invariant(&transaction.staged);
        }
        if !self.available {
            return Err(StoreError::StorageError);
        }
        let staged = &transaction.staged;
        let first_subscriber = staged.subscribers.len() - transaction.added_subscribers;
        let first_token = staged.tokens.len() - transaction.added_tokens;
        if self.takes_any_subscriber(&staged.subscribers, first_subscriber)
            || self.takes_any_token(&staged.tokens, first_token) {
            return Err(StoreError::Conflict);
        }
        if self.leaves_any_orphan(staged, first_subscriber, first_token) {
            return Err(StoreError::StorageError);
        }
        let mut subscribers = copy_subscribers(&self.subscribers);
        extend_subscribers(&mut subscribers, &staged.subscribers, first_subscriber);
        let mut tokens = copy_tokens(&self.tokens);
        extend_tokens(&mut tokens, &staged.tokens, first_token);
        proof {
            lemma_with_rows_keeps_wf(
                self@,
                staged@,
                first_subscriber as int,
                first_token as int,
            );
        }
        self.subscribers = subscribers;
        self.tokens = tokens;
        Ok(())
    }

    /// The subscriber that `token` was issued to, if it was issued at all.
    pub fn resolve(&self, token: &str) -> (r: Result<Option<u128>, StoreError>)
        ensures
            self@.wf(),
            match r {
                Ok(found) => self@.available && found == self@.resolve(token@),
                Err(e) => !self@.available && e == StoreError::StorageError,
            },
    {
        proof {
            use_type_invariant(self);
        }
        if !self.available {
            return Err(StoreError::StorageError);
        }
        let key = String::from_str(token);
        match self.position_of_token(&key) {
            Some(i) => Ok(Some(self.tokens[i].subscriber_id)),
            None => Ok(None),
        }
    }

    /// Sets the status of the subscriber `id` to confirmed. Where there is no
    /// such subscriber, or it is confirmed already, nothing changes.
    pub fn confirm(&mut self, id: u128) -> (r: Result<(), StoreError>)
        ensures
            old(self)@.wf(),
            final(self)@.wf(),
            match r {
                Ok(()) => old(self)@.available && final(self)@ == old(self)@.confirm(id),
                Err(e) => !old(self)@.available && e == StoreError::StorageError && final(self)@
                    == old(self)@,
            },
    {
        proof {
            use_type_invariant(&*self);
            lemma_confirm_keeps_wf(self@, id);
        }
        if !self.available {
            return Err(StoreError::StorageError);
        }
        let mut subscribers: Vec<SubscriberRecord> = Vec::new();
        let mut i: usize = 0;
        while i < self.subscribers.len()
            invariant
                i <= self.subscribers@.len(),
                subscribers@ == self@.confirm(id).subscribers.take(i as int),
            decreases self.subscribers@.len() - i,
        {
            let row = &self.subscribers[i];
            let status = if row.id == id {
                SubscriptionStatus::Confirmed
            } else {
                row.status
            };
            subscribers.push(
                SubscriberRecord {
                    id: row.id,
                    email: row.email.clone(),
                    name: row.name.clone(),
                    subscribed_at: row.subscribed_at,
                    status,
                },
            );
            i = i + 1;
        }
        proof {
            let confirmed = self@.confirm(id).subscribers;
            assert(confirmed.take(confirmed.len() as int) =~= confirmed);
        }
        self.subscribers = subscribers;
        Ok(())
    }

    /// The id and the address of every confirmed subscriber, in the order of
    /// their insertion.
    pub fn list_confirmed(&self) -> (r: Result<Vec<(u128, String)>, StoreError>)
        ensures
            self@.wf(),
            match r {
                Ok(rows) => self@.available && rows@.len() == self@.confirmed().len() && forall|
                    k: int,
                |
                    0 <= k < rows@.len() ==> (#[trigger] rows@[k]).0 == self@.confirmed()[k].id
                        && rows@[k].1@ == self@.confirmed()[k].email@,
                Err(e) => !self@.available && e == StoreError::StorageError,
            },
    {
        proof {
            use_type_invariant(self);
        }
        if !self.available {
            return Err(StoreError::StorageError);
        }
        let mut rows: Vec<(u128, String)> = Vec::new();
        let mut i: usize = 0;
        while i < self.subscribers.len()
            invariant
                i <= self.subscribers@.len(),
                rows@.len() == confirmed_rows(self.subscribers@.take(i as int)).len(),
                forall|k: int|
                    0 <= k < rows@.len() ==> (#[trigger] rows@[k]).0 == confirmed_rows(
                        self.subscribers@.take(i as int),
                    )[k].id && rows@[k].1@ == confirmed_rows(
                        self.subscribers@.take(i as int),
                    )[k].email@,
            decreases self.subscribers@.len() - i,
        {
            proof {
                let next = self.subscribers@.take(i + 1);
                assert(next.drop_last() =~= self.subscribers@.take(i as int));
            }
            if self.subscribers[i].status == SubscriptionStatus::Confirmed {
                rows.push((self.subscribers[i].id, self.subscribers[i].email.clone()));
            }
            i = i + 1;
        }
        proof {
            assert(self.subscribers@.take(self.subscribers@.len() as int) =~= self.subscribers@);
        }
        Ok(rows)
    }

    /// The store with `row` behind its subscribers.
    fn with_subscriber(&self, row: SubscriberRecord) -> (r: Store)
        requires
            !self@.has_id(row.id),
            !self@.has_email(row.email@),
            row.status == SubscriptionStatus::PendingConfirmation,
        ensures
            self@.gains_subscriber(r@, row.id, row.email@, row.name@, row.subscribed_at),
            r@.subscribers.last() == row,
    {
        let mut subscribers = copy_subscribers(&self.subscribers);
        subscribers.push(row);
        proof {
            use_type_invariant(self);
            let after = Tables { subscribers: subscribers@, ..self@ };
            assert(after.subscribers.drop_last() =~= self@.subscribers);
            lemma_gains_subscriber_keeps_wf(
                self@,
                after,
                row.id,
                row.email@,
                row.name@,
                row.subscribed_at,
            );
        }
        Store { subscribers, tokens: copy_tokens(&self.tokens), available: self.available }
    }

    /// The store with `row` behind its tokens.
    fn with_token(&self, row: TokenRecord) -> (r: Store)
        requires
            !self@.has_token(row.subscription_token@),
            self@.has_id(row.subscriber_id),
        ensures
            self@.gains_token(r@, row.subscription_token@, row.subscriber_id),
            r@.tokens.last() == row,
    {
        let mut tokens = copy_tokens(&self.tokens);
        tokens.push(row);
        proof {
            use_type_invariant(self);
            let after = Tables { tokens: tokens@, ..self@ };
            assert(after.tokens.drop_last() =~= self@.tokens);
            lemma_gains_token_keeps_wf(self@, after, row.subscription_token@, row.subscriber_id);
        }
        Store {
            subscribers: copy_subscribers(&self.subscribers),
            tokens,
            available: self.available,
        }
    }
}

impl Transaction {
    #[verifier::type_invariant]
    spec fn well_formed(self) -> bool {
        &&& self.added_subscribers <= self.staged.subscribers@.len()
        &&& self.added_tokens <= self.staged.tokens@.len()
    }

    /// The subscribers that this unit of work has added, in the order of
    /// their insertion.
    pub closed spec fn new_subscribers(&self) -> Seq<SubscriberRecord> {
        self.staged@.subscribers.skip(self.staged@.subscribers.len() - self.added_subscribers)
    }

    /// The tokens that this unit of work has added, in the order of their
    /// insertion.
    pub closed spec fn new_tokens(&self) -> Seq<TokenRecord> {
        self.staged@.tokens.skip(self.staged@.tokens.len() - self.added_tokens)
    }

    /// Adds a pending subscriber. Refused where the id or the address is
    /// taken.
    pub fn insert(&mut self, id: u128, email: &str, name: &str, subscribed_at: i128) -> (r: Result<
        (),
        StoreError,
    >)
        ensures
            old(self)@.wf(),
            final(self)@.wf(),
            old(self)@.inserts(final(self)@, r, id, email@, name@, subscribed_at),
            final(self).new_tokens() == old(self).new_tokens(),
            final(self).new_subscribers() == if r is Ok {
                old(self).new_subscribers().push(final(self)@.subscribers.last())
            } else {
                old(self).new_subscribers()
            },
    {
        proof {
            use_type_invariant(&*self);
            use_type_invariant(&self.staged);
        }
        let email = String::from_str(email);
        if self.staged.position_of_id(id).is_some() || self.staged.holds_email(&email) {
            return Err(StoreError::Conflict);
        }
        let staged = self.staged.with_subscriber(
            SubscriberRecord {
                id,
                email,
                name: String::from_str(name),
                subscribed_at,
                status: SubscriptionStatus::PendingConfirmation,
            },
        );
        proof {
            use_type_invariant(&staged);
            assert(staged@.subscribers.skip(
                staged@.subscribers.len() - (self.added_subscribers + 1),
            ) =~= old(self).new_subscribers().push(staged@.subscribers.last()));
        }
        let added_subscribers = staged.subscribers.len() - (self.staged.subscribers.len()
            - self.added_subscribers);
        self.staged = staged;
        self.added_subscribers = added_subscribers;
        Ok(())
    }

    /// Adds a token for the subscriber `subscriber_id`. Refused as a conflict
    /// where the token is taken, and as a storage error where there is no such
    /// subscriber.
    pub fn insert_token(&mut self, token: &str, subscriber_id: u128) -> (r: Result<(), StoreError>)
        ensures
            old(self)@.wf(),
            final(self)@.wf(),
            old(self)@.stores_token(final(self)@, r, token@, subscriber_id),
            final(self).new_subscribers() == old(self).new_subscribers(),
            final(self).new_tokens() == if r is Ok {
                old(self).new_tokens().push(final(self)@.tokens.last())
            } else {
                old(self).new_tokens()
            },
    {
        proof {
            use_type_invariant(&*self);
            use_type_invariant(&self.staged);
        }
        let subscription_token = String::from_str(token);
        if self.staged.position_of_token(&subscription_token).is_some() {
            return Err(StoreError::Conflict);
        }
        if self.staged.position_of_id(subscriber_id).is_none() {
            return Err(StoreError::StorageError);
        }
        let staged = self.staged.with_token(TokenRecord { subscription_token, subscriber_id });
        proof {
            use_type_invariant(&staged);
            assert(staged@.tokens.skip(staged@.tokens.len() - (self.added_tokens + 1))
                =~= old(self).new_tokens().push(staged@.tokens.last()));
        }
        let added_tokens = staged.tokens.len() - (self.staged.tokens.len() - self.added_tokens);
        self.staged = staged;
        self.added_tokens = added_tokens;
        Ok(())
    }
}

} // verus!
