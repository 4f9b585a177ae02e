//! The coin server's state: the members, sorted by identifier, the coin
//! currently on offer and the message that announced it.

use vstd::prelude::*;
use crate::bot_user::BotUser;
use crate::coin::Coin;
use crate::user::CoinUser;

verus! {

/// The state the game keeps.  `M` is the handle of the chat message that
/// announced the current coin; the library only stores it and hands it
/// back when the message should be deleted or edited.
pub struct Server<M> {
    pub users: Vec<CoinUser>,
    pub coin: Coin,
    pub coin_message: Option<M>,
    pub time_of_last_interest: u64,
}

/// The members are held in strictly increasing order of identifier, so
/// each member appears once.
pub open spec fn ids_ascending(s: Seq<CoinUser>) -> bool {
    forall|i: int, j: int| 0 <= i < j < s.len() ==> s[i].id < s[j].id
}

/// Whether a member with this identifier is on record.
pub open spec fn has_user(s: Seq<CoinUser>, id: u64) -> bool {
    exists|i: int| 0 <= i < s.len() && s[i].id == id
}

/// The position of the member with this identifier.
pub open spec fn index_of_user(s: Seq<CoinUser>, id: u64) -> int {
    choose|i: int| 0 <= i < s.len() && s[i].id == id
}

/// The record of the member with this identifier, if there is one.
pub open spec fn lookup(s: Seq<CoinUser>, id: u64) -> Option<CoinUser> {
    if has_user(s, id) { Some(s[index_of_user(s, id)]) } else { None }
}

/// Whether `p` is where a member with a new identifier belongs: everyone
/// before has a smaller identifier and everyone from there on a larger one.
pub open spec fn is_insertion_point(s: Seq<CoinUser>, id: u64, p: int) -> bool {
    &&& 0 <= p <= s.len()
    &&& forall|k: int| 0 <= k < p ==> s[k].id < id
    &&& forall|k: int| p <= k < s.len() ==> s[k].id > id
}

/// Where a member with a new identifier belongs in an ascending record.
pub open spec fn insertion_point(s: Seq<CoinUser>, id: u64) -> int {
    choose|p: int| #[trigger] is_insertion_point(s, id, p)
}

/// The record with a fresh entry for the member where there was none.
pub open spec fn with_user(s: Seq<CoinUser>, b: BotUser) -> Seq<CoinUser> {
    if has_user(s, b.id) {
        s
    } else {
        s.insert(insertion_point(s, b.id), CoinUser::fresh(b.id, b.nickname, b.display_name))
    }
}

/// A member's record after they are seen again: it takes their current
/// display name, and their nickname when they have one that differs.
pub open spec fn renamed(u: CoinUser, b: BotUser) -> CoinUser {
    CoinUser {
        display_name: b.display_name,
        nickname: if b.nickname is Some && name_view(b.nickname) != name_view(u.nickname) {
            b.nickname
        } else {
            u.nickname
        },
        ..u
    }
}

/// A member's record as on file, or the fresh one they would be given.
pub open spec fn record_or_fresh(s: Seq<CoinUser>, b: BotUser) -> CoinUser {
    match lookup(s, b.id) {
        Some(u) => u,
        None => CoinUser::fresh(b.id, b.nickname, b.display_name),
    }
}

/// The record after a member is seen: renamed if on record, added if not.
pub open spec fn touch_seq(s: Seq<CoinUser>, b: BotUser) -> Seq<CoinUser> {
    if has_user(s, b.id) {
        s.update(index_of_user(s, b.id), renamed(s[index_of_user(s, b.id)], b))
    } else {
        with_user(s, b)
    }
}

/// In an ascending record, the place for a new identifier is unique.
pub proof fn lemma_insertion_point(s: Seq<CoinUser>, id: u64, p: int)
    requires
        ids_ascending(s),
        0 <= p <= s.len(),
        forall|k: int| 0 <= k < p ==> s[k].id < id,
        forall|k: int| p <= k < s.len() ==> s[k].id > id,
    ensures
        insertion_point(s, id) == p,
{
    assert(is_insertion_point(s, id, p));
    let q = insertion_point(s, id);
    assert(is_insertion_point(s, id, q));
    if q < p {
        assert(s[q].id > id);
    } else if q > p {
        assert(s[p].id < id);
    }
}

/// The coins held by all members together.
pub open spec fn total_coins(s: Seq<CoinUser>) -> int
    decreases s.len(),
{
    if s.len() == 0 { 0 } else { total_coins(s.drop_last()) + s.last().coins }
}

/// The view of an optional name.
pub open spec fn name_view(n: Option<String>) -> Option<Seq<char>> {
    match n {
        Some(s) => Some(s@),
        None => None,
    }
}

/// In an ascending record, an identifier sits at exactly one position.
pub proof fn lemma_index_of_user(s: Seq<CoinUser>, id: u64, i: int)
    requires
        ids_ascending(s),
        0 <= i < s.len(),
        s[i].id == id,
    ensures
        has_user(s, id),
        index_of_user(s, id) == i,
        lookup(s, id) == Some(s[i]),
{
    let k = index_of_user(s, id);
    assert(0 <= k < s.len() && s[k].id == id);
    if k < i {
        assert(s[k].id < s[i].id);
    } else if k > i {
        assert(s[i].id < s[k].id);
    }
}

/// Replacing one record changes the total by the difference in coins.
pub proof fn lemma_total_coins_update(s: Seq<CoinUser>, i: int, u: CoinUser)
    requires
        0 <= i < s.len(),
    ensures
        total_coins(s.update(i, u)) == total_coins(s) - s[i].coins + u.coins,
    decreases s.len(),
{
    let t = s.update(i, u);
    if i == s.len() - 1 {
        assert(t.drop_last() =~= s.drop_last());
    } else {
        lemma_total_coins_update(s.drop_last(), i, u);
        assert(t.drop_last() =~= s.drop_last().update(i, u));
    }
}

/// Inserting a record adds its coins to the total.
pub proof fn lemma_total_coins_insert(s: Seq<CoinUser>, i: int, u: CoinUser)
    requires
        0 <= i <= s.len(),
    ensures
        total_coins(s.insert(i, u)) == total_coins(s) + u.coins,
    decreases s.len(),
{
    let t = s.insert(i, u);
    if i == s.len() {
        assert(t.drop_last() =~= s);
    } else {
        lemma_total_coins_insert(s.drop_last(), i, u);
        assert(t.drop_last() =~= s.drop_last().insert(i, u));
    }
}

/// A copy of an optional name.
pub fn copy_name(n: &Option<String>) -> (r: Option<String>)
    ensures
        r == *n,
{
    match n {
        Some(s) => Some(s.clone()),
        None => None,
    }
}

impl<M> Server<M> {
    /// The server's records are well formed: identifiers ascend.
    pub open spec fn wf(&self) -> bool {
        ids_ascending(self.users@)
    }

    /// A server with nobody on record and no coin on offer.
    pub fn empty() -> (r: Self)
        ensures
            r.wf(),
            r.users@.len() == 0,
            r.coin.rarity == crate::rarity::Rarity::NONE,
            r.coin.value == 0,
            r.coin_message is None,
            r.time_of_last_interest == 0,
    {
        Server { users: Vec::new(), coin: Coin::none(), coin_message: None, time_of_last_interest: 0 }
    }

    /// Finds a member by identifier: `Ok` with their position, or `Err`
    /// with the position where they belong.
    pub fn find_user(&self, id: u64) -> (r: Result<usize, usize>)
        requires
            self.wf(),
        ensures
            match r {
                Ok(i) => i < self.users@.len() && self.users@[i as int].id == id,
                Err(p) => {
                    &&& p <= self.users@.len()
                    &&& forall|k: int| 0 <= k < p ==> self.users@[k].id < id
                    &&& forall|k: int| p <= k < self.users@.len() ==> self.users@[k].id > id
                },
            },
            r is Err <==> !has_user(self.users@, id),
    {
        let mut lo: usize = 0;
        let mut hi: usize = self.users.len();
        while lo < hi
            invariant
                lo <= hi <= self.users@.len(),
                ids_ascending(self.users@),
                forall|k: int| 0 <= k < lo ==> self.users@[k].id < id,
                forall|k: int| hi <= k < self.users@.len() ==> self.users@[k].id > id,
            decreases hi - lo,
        {
            let mid = lo + (hi - lo) / 2;
            let mid_id = self.users[mid].id;
            if mid_id == id {
                return Ok(mid);
            } else if mid_id < id {
                lo = mid + 1;
            } else {
                hi = mid;
            }
        }
        assert(!has_user(self.users@, id)) by {
            if has_user(self.users@, id) {
                let k = choose|k: int| 0 <= k < self.users@.len() && self.users@[k].id == id;
                assert(k < lo || k >= lo);
            }
        }
        Err(lo)
    }

    /// Puts a fresh record for a member where its identifier belongs, which
    /// keeps the records in increasing order of identifier.
    fn insert_user(&mut self, p: usize, user: &BotUser)
        requires
            old(self).wf(),
            p <= old(self).users@.len(),
            forall|k: int| 0 <= k < p ==> old(self).users@[k].id < user.id,
            forall|k: int| p <= k < old(self).users@.len() ==> old(self).users@[k].id > user.id,
        ensures
            final(self).wf(),
            final(self).users@ == old(self).users@.insert(
                p as int,
                CoinUser::fresh(user.id, user.nickname, user.display_name),
            ),
            final(self).coin == old(self).coin,
            final(self).coin_message == old(self).coin_message,
            final(self).time_of_last_interest == old(self).time_of_last_interest,
    {
        let fresh = CoinUser::new(user.id, copy_name(&user.nickname), user.display_name.clone());
        self.users.insert(p, fresh);
        assert(ids_ascending(self.users@)) by {
            assert forall|i: int, j: int| 0 <= i < j < self.users@.len() implies
                self.users@[i].id < self.users@[j].id by {
                if j < p {
                } else if i < p && j == p {
                } else if i < p {
                    assert(self.users@[j] == old(self).users@[j - 1]);
                } else if i == p {
                    assert(self.users@[j] == old(self).users@[j - 1]);
                } else {
                    assert(self.users@[i] == old(self).users@[i - 1]);
                    assert(self.users@[j] == old(self).users@[j - 1]);
                }
            }
        }
    }

    /// The position of a member's record, creating a fresh one where there
    /// is none.  The record is not otherwise changed.
    ///
    /// The records are kept in increasing order of identifier at all times,
    /// so a fresh record goes where its identifier belongs, not after the
    /// others.  A store that appended new members and sorted the records
    /// before every lookup and every save would show the same order to every
    /// lookup and every save; it would differ only to someone reading
    /// `users` between two calls.
    pub fn get_mut_user_from_id(&mut self, user: &BotUser) -> (idx: usize)
        requires
            old(self).wf(),
        ensures
            final(self).wf(),
            idx < final(self).users@.len(),
            idx <= old(self).users@.len(),
            final(self).users@[idx as int].id == user.id,
            has_user(old(self).users@, user.id) ==> final(self).users@ == old(self).users@,
            !has_user(old(self).users@, user.id) ==> final(self).users@ == old(self).users@.insert(
                idx as int,
                CoinUser::fresh(user.id, user.nickname, user.display_name),
            ),
            final(self).users@ == with_user(old(self).users@, *user),
            final(self).coin == old(self).coin,
            final(self).coin_message == old(self).coin_message,
            final(self).time_of_last_interest == old(self).time_of_last_interest,
    {
        match self.find_user(user.id) {
            Ok(i) => i,
            Err(p) => {
                proof { lemma_insertion_point(self.users@, user.id, p as int); }
                self.insert_user(p, user);
                p
            },
        }
    }

    /// The position of a member's record, creating a fresh one where there
    /// is none (where its identifier belongs, as in `get_mut_user_from_id`);
    /// an existing record takes the member's current display name, and
    /// their nickname when they have one.
    pub fn get_user_from_id(&mut self, user: &BotUser) -> (idx: usize)
        requires
            old(self).wf(),
        ensures
            final(self).wf(),
            idx < final(self).users@.len(),
            idx <= old(self).users@.len(),
            final(self).users@[idx as int].id == user.id,
            has_user(old(self).users@, user.id) ==> {
                let i = idx as int;
                let before = old(self).users@[i];
                let after = final(self).users@[i];
                &&& old(self).users@[i].id == user.id
                &&& final(self).users@.len() == old(self).users@.len()
                &&& forall|k: int| 0 <= k < final(self).users@.len() && k != i
                    ==> final(self).users@[k] == old(self).users@[k]
                &&& after.display_name == user.display_name
                &&& name_view(after.nickname) == (if user.nickname is Some {
                    name_view(user.nickname)
                } else {
                    name_view(before.nickname)
                })
                &&& after.coins == before.coins
                &&& after.style_points == before.style_points
                &&& after.xp == before.xp
                &&& after.level == before.level
                &&& after.time_of_last_trick == before.time_of_last_trick
                &&& after.time_of_last_investment == before.time_of_last_investment
            },
            !has_user(old(self).users@, user.id) ==> final(self).users@ == old(self).users@.insert(
                idx as int,
                CoinUser::fresh(user.id, user.nickname, user.display_name),
            ),
            final(self).users@ == touch_seq(old(self).users@, *user),
            final(self).coin == old(self).coin,
            final(self).coin_message == old(self).coin_message,
            final(self).time_of_last_interest == old(self).time_of_last_interest,
    {
        match self.find_user(user.id) {
            Ok(i) => {
                proof { lemma_index_of_user(self.users@, user.id, i as int); }
                let mut u = self.users.remove(i);
                u.display_name = user.display_name.clone();
                let replace = match &user.nickname {
                    Some(a) => match &u.nickname {
                        Some(b) => !a.eq(b),
                        None => true,
                    },
                    None => false,
                };
                if replace {
                    u.nickname = copy_name(&user.nickname);
                }
                self.users.insert(i, u);
                assert(ids_ascending(self.users@)) by {
                    assert forall|a: int, b: int| 0 <= a < b < self.users@.len() implies
                        self.users@[a].id < self.users@[b].id by {
                        assert(a != i ==> self.users@[a] == old(self).users@[a]);
                        assert(b != i ==> self.users@[b] == old(self).users@[b]);
                    }
                }
                assert(self.users@ =~= touch_seq(old(self).users@, *user));
                i
            },
            Err(p) => {
                proof { lemma_insertion_point(self.users@, user.id, p as int); }
                self.insert_user(p, user);
                p
            },
        }
    }

    /// Sets the coins of the member at `idx`.
    pub fn set_coins(&mut self, idx: usize, coins: i64)
        requires
            old(self).wf(),
            idx < old(self).users@.len(),
        ensures
            final(self).wf(),
            final(self).users@ == old(self).users@.update(idx as int, CoinUser { coins, ..old(self).users@[idx as int] }),
            forall|id: u64| #[trigger] lookup(final(self).users@, id) == (if id == old(self).users@[idx as int].id {
                Some(CoinUser { coins, ..old(self).users@[idx as int] })
            } else {
                lookup(old(self).users@, id)
            }),
            final(self).coin == old(self).coin,
            final(self).coin_message == old(self).coin_message,
            final(self).time_of_last_interest == old(self).time_of_last_interest,
    {
        let mut u = self.users.remove(idx);
        u.coins = coins;
        self.users.insert(idx, u);
        assert(self.users@ =~= old(self).users@.update(idx as int, u));
        proof {
            lemma_lookup_update(old(self).users@, idx as int, u);
        }
    }

    /// Records the time of the last investment of the member at `idx`.
    pub fn stamp_investment(&mut self, idx: usize, now: u64)
        requires
            old(self).wf(),
            idx < old(self).users@.len(),
        ensures
            final(self).wf(),
            final(self).users@ == old(self).users@.update(
                idx as int,
                CoinUser { time_of_last_investment: now, ..old(self).users@[idx as int] },
            ),
            forall|id: u64| #[trigger] lookup(final(self).users@, id) == (if id == old(self).users@[idx as int].id {
                Some(CoinUser { time_of_last_investment: now, ..old(self).users@[idx as int] })
            } else {
                lookup(old(self).users@, id)
            }),
            final(self).coin == old(self).coin,
            final(self).coin_message == old(self).coin_message,
            final(self).time_of_last_interest == old(self).time_of_last_interest,
    {
        let mut u = self.users.remove(idx);
        u.time_of_last_investment = now;
        self.users.insert(idx, u);
        assert(self.users@ =~= old(self).users@.update(idx as int, u));
        proof {
            lemma_lookup_update(old(self).users@, idx as int, u);
        }
    }

    /// The positions of two members' records, creating fresh records where
    /// there are none (the first member's before the second's).
    pub fn get_two_mut_users(&mut self, user1: &BotUser, user2: &BotUser) -> (r: (usize, usize))
        requires
            old(self).wf(),
        ensures
            final(self).wf(),
            r.0 < final(self).users@.len(),
            r.1 < final(self).users@.len(),
            final(self).users@[r.0 as int].id == user1.id,
            final(self).users@[r.1 as int].id == user2.id,
            forall|id: u64| id != user1.id && id != user2.id
                ==> lookup(final(self).users@, id) == lookup(old(self).users@, id),
            lookup(final(self).users@, user1.id) == (if has_user(old(self).users@, user1.id) {
                lookup(old(self).users@, user1.id)
            } else {
                Some(CoinUser::fresh(user1.id, user1.nickname, user1.display_name))
            }),
            user1.id != user2.id ==> lookup(final(self).users@, user2.id) == (
                if has_user(old(self).users@, user2.id) {
                    lookup(old(self).users@, user2.id)
                } else {
                    Some(CoinUser::fresh(user2.id, user2.nickname, user2.display_name))
                }),
            final(self).users@ == with_user(with_user(old(self).users@, *user1), *user2),
            final(self).coin == old(self).coin,
            final(self).coin_message == old(self).coin_message,
            final(self).time_of_last_interest == old(self).time_of_last_interest,
    {
        let ghost s0 = self.users@;
        let a = self.get_mut_user_from_id(user1);
        proof {
            if !has_user(s0, user1.id) {
                assert(self.users@.len() == s0.len() + 1);
                lemma_lookup_insert(s0, a as int, CoinUser::fresh(user1.id, user1.nickname, user1.display_name));
            }
        }
        let ghost s1 = self.users@;
        let b = self.get_mut_user_from_id(user2);
        proof {
            if !has_user(s1, user2.id) {
                assert(self.users@.len() == s1.len() + 1);
                lemma_lookup_insert(s1, b as int, CoinUser::fresh(user2.id, user2.nickname, user2.display_name));
            }
        }
        let a2 = match self.find_user(user1.id) {
            Ok(i) => i,
            Err(_) => {
                proof {
                    lemma_index_of_user(s1, user1.id, a as int);
                }
                0
            },
        };
        proof {
            lemma_index_of_user(self.users@, user1.id, a2 as int);
            lemma_index_of_user(self.users@, user2.id, b as int);
            lemma_index_of_user(s1, user1.id, a as int);
            if has_user(s0, user1.id) {
                let k = index_of_user(s0, user1.id);
                lemma_index_of_user(s0, user1.id, k);
            }
            if has_user(s1, user2.id) {
                let k = index_of_user(s1, user2.id);
                lemma_index_of_user(s1, user2.id, k);
            }
        }
        (a2, b)
    }

    /// The positions of two members who are both on record.
    pub fn get_mut_users_from_ids(&self, sender: &BotUser, recipient: &BotUser) -> (r: (usize, usize))
        requires
            self.wf(),
            has_user(self.users@, sender.id),
            has_user(self.users@, recipient.id),
        ensures
            r.0 == index_of_user(self.users@, sender.id),
            r.1 == index_of_user(self.users@, recipient.id),
            r.0 < self.users@.len(),
            r.1 < self.users@.len(),
            self.users@[r.0 as int].id == sender.id,
            self.users@[r.1 as int].id == recipient.id,
    {
        let a = match self.find_user(sender.id) {
            Ok(i) => i,
            Err(_) => 0,
        };
        let b = match self.find_user(recipient.id) {
            Ok(i) => i,
            Err(_) => 0,
        };
        proof {
            lemma_index_of_user(self.users@, sender.id, a as int);
            lemma_index_of_user(self.users@, recipient.id, b as int);
        }
        (a, b)
    }

    /// Sorts the records by identifier, keeping the order of records that
    /// share one.
    pub fn sort_by_ids(&mut self)
        ensures
            ids_nondecreasing(final(self).users@),
            final(self).users@.to_multiset() == old(self).users@.to_multiset(),
            forall|id: u64| #[trigger] with_id(final(self).users@, id) == with_id(old(self).users@, id),
            final(self).coin == old(self).coin,
            final(self).coin_message == old(self).coin_message,
            final(self).time_of_last_interest == old(self).time_of_last_interest,
    {
        broadcast use vstd::seq_lib::group_to_multiset_ensures;
        let ghost orig = self.users@;
        let mut sorted: Vec<CoinUser> = Vec::new();
        assert(sorted@.to_multiset().add(self.users@.to_multiset()) =~= orig.to_multiset());
        assert forall|id: u64| #[trigger] with_id(orig, id) == with_id(sorted@, id) + with_id(self.users@, id) by {
            assert(with_id(sorted@, id) =~= Seq::<CoinUser>::empty());
            assert(with_id(sorted@, id) + with_id(self.users@, id) =~= with_id(self.users@, id));
        }
        while self.users.len() > 0
            invariant
                ids_nondecreasing(sorted@),
                sorted@.to_multiset().add(self.users@.to_multiset()) == orig.to_multiset(),
                forall|id: u64| #[trigger] with_id(orig, id) == with_id(sorted@, id) + with_id(self.users@, id),
                self.coin == old(self).coin,
                self.coin_message == old(self).coin_message,
                self.time_of_last_interest == old(self).time_of_last_interest,
            decreases self.users@.len(),
        {
            let ghost rest = self.users@;
            let u = self.users.remove(0);
            let mut p: usize = sorted.len();
            while p > 0 && sorted[p - 1].id > u.id
                invariant
                    p <= sorted@.len(),
                    forall|k: int| p <= k < sorted@.len() ==> sorted@[k].id > u.id,
                decreases p,
            {
                p = p - 1;
            }
            let ghost before = sorted@;
            sorted.insert(p, u);
            assert(ids_nondecreasing(sorted@)) by {
                assert forall|i: int, j: int| 0 <= i < j < sorted@.len() implies
                    sorted@[i].id <= sorted@[j].id by {
                    if j < p {
                        assert(sorted@[i] == before[i] && sorted@[j] == before[j]);
                    } else if j == p {
                        assert(sorted@[i] == before[i]);
                        if p > 0 {
                            assert(before[p - 1].id <= u.id);
                            assert(before[i].id <= before[p - 1].id);
                        }
                    } else if i < p {
                        assert(sorted@[i] == before[i] && sorted@[j] == before[j - 1]);
                    } else if i == p {
                        assert(sorted@[j] == before[j - 1]);
                    } else {
                        assert(sorted@[i] == before[i - 1] && sorted@[j] == before[j - 1]);
                    }
                }
            }
            assert(rest =~= self.users@.insert(0, u));
            assert forall|id: u64| #[trigger] with_id(orig, id) == with_id(sorted@, id) + with_id(self.users@, id) by {
                lemma_insert_keeps_order(before, p as int, u, id);
                assert(rest =~= seq![u] + self.users@);
                Seq::filter_distributes_over_add(seq![u], self.users@, |x: CoinUser| x.id == id);
                let single = if u.id == id { seq![u] } else { Seq::<CoinUser>::empty() };
                assert(with_id(seq![u], id) =~= single) by {
                    reveal_with_fuel(Seq::filter, 2);
                }
                assert(with_id(orig, id) == with_id(before, id) + with_id(rest, id));
                assert(with_id(rest, id) == single + with_id(self.users@, id));
                assert(with_id(sorted@, id) == with_id(before, id) + single);
                assert(with_id(before, id) + (single + with_id(self.users@, id))
                    =~= (with_id(before, id) + single) + with_id(self.users@, id));
            }
            proof { vstd::seq_lib::to_multiset_insert(self.users@, 0, u); }
            assert(rest.to_multiset() == self.users@.to_multiset().insert(u));
            proof { vstd::seq_lib::to_multiset_insert(before, p as int, u); }
            assert(sorted@.to_multiset() == before.to_multiset().insert(u));
            assert(sorted@.to_multiset().add(self.users@.to_multiset()) =~= orig.to_multiset());
        }
        assert(self.users@ =~= Seq::<CoinUser>::empty());
        assert(sorted@.to_multiset() =~= orig.to_multiset());
        assert forall|id: u64| #[trigger] with_id(sorted@, id) == with_id(orig, id) by {
            assert(with_id(self.users@, id) =~= Seq::<CoinUser>::empty());
            assert(with_id(sorted@, id) + with_id(self.users@, id) =~= with_id(sorted@, id));
        }
        self.users = sorted;
    }

    /// A server holding the given records, sorted by identifier; where
    /// several records share an identifier, the first of them is kept and
    /// the others are dropped.  The server holds each member once, so that a
    /// lookup by identifier finds one definite record; a list holding several
    /// records for one member would leave it open which of them a lookup (a
    /// binary search) reaches, and which one a change updates.  No coin is on
    /// offer.
    pub fn from_records(records: Vec<CoinUser>, time_of_last_interest: u64) -> (r: Self)
        ensures
            r.wf(),
            forall|id: u64| #[trigger] lookup(r.users@, id) == first_with(records@, id),
            r.coin.rarity == crate::rarity::Rarity::NONE,
            r.coin.value == 0,
            r.coin_message is None,
            r.time_of_last_interest == time_of_last_interest,
    {
        let ghost orig = records@;
        let mut server: Server<M> = Server::empty();
        server.time_of_last_interest = time_of_last_interest;
        let mut rest = records;
        let mut i: usize = 0;
        let n = rest.len();
        assert(orig.take(0) =~= Seq::<CoinUser>::empty());
        while rest.len() > 0
            invariant
                n == orig.len(),
                i + rest@.len() == n,
                rest@ == orig.subrange(i as int, n as int),
                server.wf(),
                forall|id: u64| #[trigger] lookup(server.users@, id) == first_with(orig.take(i as int), id),
                server.coin.rarity == crate::rarity::Rarity::NONE,
                server.coin.value == 0,
                server.coin_message is None,
                server.time_of_last_interest == time_of_last_interest,
            decreases rest@.len(),
        {
            let ghost before = server.users@;
            let u = rest.remove(0);
            assert(u == orig[i as int]);
            assert(rest@ =~= orig.subrange(i + 1, n as int));
            assert(orig.take(i + 1).drop_last() =~= orig.take(i as int));
            assert(orig.take(i + 1).last() == u);
            match server.find_user(u.id) {
                Ok(k) => {
                    proof {
                        lemma_index_of_user(before, u.id, k as int);
                        assert(lookup(before, u.id) == first_with(orig.take(i as int), u.id));
                        assert(first_with(orig.take(i as int), u.id) is Some);
                    }
                },
                Err(p) => {
                    proof {
                        assert(lookup(before, u.id) == first_with(orig.take(i as int), u.id));
                        assert(first_with(orig.take(i as int), u.id) is None);
                    }
                    let ghost fresh = u;
                    server.users.insert(p, u);
                    assert(ids_ascending(server.users@)) by {
                        assert forall|a: int, b: int| 0 <= a < b < server.users@.len() implies
                            server.users@[a].id < server.users@[b].id by {
                            if b < p {
                            } else if a < p && b == p {
                            } else if a < p {
                                assert(server.users@[b] == before[b - 1]);
                            } else if a == p {
                                assert(server.users@[b] == before[b - 1]);
                            } else {
                                assert(server.users@[a] == before[a - 1]);
                                assert(server.users@[b] == before[b - 1]);
                            }
                        }
                    }
                    proof {
                        lemma_lookup_insert(before, p as int, fresh);
                    }
                },
            }
            i = i + 1;
        }
        assert(orig.take(n as int) =~= orig);
        server
    }
}

/// The first record with this identifier, if any.
pub open spec fn first_with(s: Seq<CoinUser>, id: u64) -> Option<CoinUser>
    decreases s.len(),
{
    if s.len() == 0 {
        None
    } else {
        match first_with(s.drop_last(), id) {
            Some(u) => Some(u),
            None => if s.last().id == id { Some(s.last()) } else { None },
        }
    }
}

/// The records with this identifier, in their order.
pub open spec fn with_id(s: Seq<CoinUser>, id: u64) -> Seq<CoinUser> {
    s.filter(|u: CoinUser| u.id == id)
}

/// Inserting a record before every record with a larger identifier (and
/// after the rest) puts it last among the records with its identifier.
proof fn lemma_insert_keeps_order(s: Seq<CoinUser>, p: int, u: CoinUser, id: u64)
    requires
        0 <= p <= s.len(),
        forall|k: int| p <= k < s.len() ==> s[k].id > u.id,
    ensures
        with_id(s.insert(p, u), id) == with_id(s, id) + (if u.id == id { seq![u] } else { Seq::<CoinUser>::empty() }),
{
    let pred = |x: CoinUser| x.id == id;
    let a = s.subrange(0, p);
    let b = s.subrange(p, s.len() as int);
    assert(s =~= a + b);
    assert(s.insert(p, u) =~= a + (seq![u] + b));
    Seq::filter_distributes_over_add(a, b, pred);
    Seq::filter_distributes_over_add(seq![u], b, pred);
    Seq::filter_distributes_over_add(a, seq![u] + b, pred);
    let single = if u.id == id { seq![u] } else { Seq::<CoinUser>::empty() };
    assert(seq![u].filter(pred) =~= single) by {
        reveal_with_fuel(Seq::filter, 2);
    }
    if u.id == id {
        assert forall|k: int| 0 <= k < b.len() implies !pred(b[k]) by {
            assert(b[k] == s[p + k]);
        }
        b.lemma_all_neg_filter_empty(pred);
        assert(b.filter(pred) =~= Seq::<CoinUser>::empty());
        assert(a.filter(pred) + (single + b.filter(pred)) =~= (a.filter(pred) + b.filter(pred)) + single);
    } else {
        assert(single =~= Seq::<CoinUser>::empty());
        assert(a.filter(pred) + (single + b.filter(pred)) =~= (a.filter(pred) + b.filter(pred)) + single);
    }
}

/// Identifiers never decrease along the record.
pub open spec fn ids_nondecreasing(s: Seq<CoinUser>) -> bool {
    forall|i: int, j: int| 0 <= i < j < s.len() ==> s[i].id <= s[j].id
}

/// Inserting a record with a new identifier into an ascending record makes
/// it found under that identifier and changes nothing else that is found.
pub proof fn lemma_lookup_insert(s: Seq<CoinUser>, p: int, u: CoinUser)
    requires
        ids_ascending(s),
        ids_ascending(s.insert(p, u)),
        0 <= p <= s.len(),
    ensures
        forall|id: u64| #[trigger] lookup(s.insert(p, u), id)
            == (if id == u.id { Some(u) } else { lookup(s, id) }),
{
    let t = s.insert(p, u);
    assert forall|id: u64| #[trigger] lookup(t, id) == (if id == u.id { Some(u) } else { lookup(s, id) }) by {
        if id == u.id {
            lemma_index_of_user(t, id, p);
        } else if has_user(s, id) {
            let k = index_of_user(s, id);
            lemma_index_of_user(s, id, k);
            let k2 = if k < p { k } else { k + 1 };
            assert(t[k2] == s[k]);
            lemma_index_of_user(t, id, k2);
        } else {
            if has_user(t, id) {
                let k = choose|k: int| 0 <= k < t.len() && t[k].id == id;
                if k < p {
                    assert(s[k].id == id);
                } else if k > p {
                    assert(s[k - 1].id == id);
                }
            }
        }
    }
}

/// Replacing a record by one with the same identifier changes only what is
/// found under that identifier.
pub proof fn lemma_lookup_update(s: Seq<CoinUser>, i: int, u: CoinUser)
    requires
        ids_ascending(s),
        0 <= i < s.len(),
        u.id == s[i].id,
    ensures
        ids_ascending(s.update(i, u)),
        forall|id: u64| #[trigger] lookup(s.update(i, u), id)
            == (if id == u.id { Some(u) } else { lookup(s, id) }),
{
    let t = s.update(i, u);
    assert(ids_ascending(t)) by {
        assert forall|a: int, b: int| 0 <= a < b < t.len() implies t[a].id < t[b].id by {
            assert(t[a].id == s[a].id);
            assert(t[b].id == s[b].id);
        }
    }
    assert forall|id: u64| #[trigger] lookup(t, id) == (if id == u.id { Some(u) } else { lookup(s, id) }) by {
        if id == u.id {
            lemma_index_of_user(t, id, i);
        } else if has_user(s, id) {
            let k = index_of_user(s, id);
            lemma_index_of_user(s, id, k);
            assert(t[k] == s[k]);
            lemma_index_of_user(t, id, k);
        } else {
            if has_user(t, id) {
                let k = choose|k: int| 0 <= k < t.len() && t[k].id == id;
                assert(s[k].id == id);
            }
        }
    }
}


/// A new identifier has a place in an ascending record.
pub proof fn lemma_insertion_point_exists(s: Seq<CoinUser>, id: u64)
    requires
        ids_ascending(s),
        !has_user(s, id),
    ensures
        is_insertion_point(s, id, insertion_point(s, id)),
    decreases s.len(),
{
    if s.len() == 0 {
        assert(is_insertion_point(s, id, 0));
    } else {
        let t = s.drop_last();
        assert(ids_ascending(t));
        assert(!has_user(t, id)) by {
            if has_user(t, id) {
                let k = choose|k: int| 0 <= k < t.len() && t[k].id == id;
                assert(s[k].id == id);
            }
        }
        lemma_insertion_point_exists(t, id);
        let q = insertion_point(t, id);
        assert(s.last().id != id) by {
            assert(s[s.len() - 1].id == s.last().id);
        }
        if s.last().id < id {
            assert(is_insertion_point(s, id, s.len() as int)) by {
                assert forall|k: int| 0 <= k < s.len() implies s[k].id < id by {
                    if k < s.len() - 1 {
                        assert(s[k].id < s[s.len() - 1].id);
                    }
                }
            }
        } else {
            assert(is_insertion_point(s, id, q)) by {
                assert forall|k: int| q <= k < s.len() implies s[k].id > id by {
                    if k < s.len() - 1 {
                        assert(s[k] == t[k]);
                    }
                }
                assert forall|k: int| 0 <= k < q implies s[k].id < id by {
                    assert(s[k] == t[k]);
                }
            }
        }
    }
}

/// Inserting at the insertion point keeps an ascending record ascending.
pub proof fn lemma_insert_ascending(s: Seq<CoinUser>, u: CoinUser)
    requires
        ids_ascending(s),
        !has_user(s, u.id),
    ensures
        is_insertion_point(s, u.id, insertion_point(s, u.id)),
        ids_ascending(s.insert(insertion_point(s, u.id), u)),
{
    lemma_insertion_point_exists(s, u.id);
    let p = insertion_point(s, u.id);
    let t = s.insert(p, u);
    assert forall|i: int, j: int| 0 <= i < j < t.len() implies t[i].id < t[j].id by {
        if j < p {
        } else if j == p {
        } else if i < p {
            assert(t[j] == s[j - 1]);
        } else if i == p {
            assert(t[j] == s[j - 1]);
        } else {
            assert(t[i] == s[i - 1] && t[j] == s[j - 1]);
        }
    }
}

/// Adding a fresh record leaves the coins held in all unchanged.
pub proof fn lemma_total_with_user(s: Seq<CoinUser>, b: BotUser)
    requires
        ids_ascending(s),
    ensures
        total_coins(with_user(s, b)) == total_coins(s),
{
    if !has_user(s, b.id) {
        let u = CoinUser::fresh(b.id, b.nickname, b.display_name);
        lemma_insertion_point_exists(s, b.id);
        lemma_total_coins_insert(s, insertion_point(s, b.id), u);
    }
}

/// Seeing a member leaves the coins held in all unchanged.
pub proof fn lemma_total_touch(s: Seq<CoinUser>, b: BotUser)
    requires
        ids_ascending(s),
    ensures
        total_coins(touch_seq(s, b)) == total_coins(s),
{
    if has_user(s, b.id) {
        let i = index_of_user(s, b.id);
        lemma_index_of_user(s, b.id, i);
        lemma_total_coins_update(s, i, renamed(s[i], b));
    } else {
        lemma_total_with_user(s, b);
    }
}

/// Seeing a member keeps the record ascending, and what is found under an
/// identifier changes only for that member.
pub proof fn lemma_touch(s: Seq<CoinUser>, b: BotUser)
    requires
        ids_ascending(s),
    ensures
        ids_ascending(touch_seq(s, b)),
        ids_ascending(with_user(s, b)),
        forall|id: u64| #[trigger] lookup(touch_seq(s, b), id) == (if id == b.id {
            Some(if has_user(s, id) {
                renamed(lookup(s, id).unwrap(), b)
            } else {
                CoinUser::fresh(b.id, b.nickname, b.display_name)
            })
        } else {
            lookup(s, id)
        }),
        forall|id: u64| #[trigger] lookup(with_user(s, b), id) == (if id == b.id {
            Some(if has_user(s, id) {
                lookup(s, id).unwrap()
            } else {
                CoinUser::fresh(b.id, b.nickname, b.display_name)
            })
        } else {
            lookup(s, id)
        }),
{
    if has_user(s, b.id) {
        let i = index_of_user(s, b.id);
        lemma_index_of_user(s, b.id, i);
        lemma_lookup_update(s, i, renamed(s[i], b));
        assert forall|id: u64| #[trigger] lookup(with_user(s, b), id) == (if id == b.id {
            Some(lookup(s, id).unwrap())
        } else {
            lookup(s, id)
        }) by {}
    } else {
        let u = CoinUser::fresh(b.id, b.nickname, b.display_name);
        lemma_insert_ascending(s, u);
        lemma_lookup_insert(s, insertion_point(s, b.id), u);
    }
}

} // verus!
