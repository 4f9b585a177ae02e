//! The flat ledger format: one record per line, fields separated by `;`.

use vstd::prelude::*;
use crate::text::{
    decimal, lemma_decimal_free_of, lemma_i32_text_round_trip, lemma_split_fields_append,
    lemma_split_fields_plain, int_text, parse_i32, parse_i32_spec, split_fields, split_on, str_views,
};

verus! {

/// A type stored as one line of `;`-separated fields.
pub trait Serialisable: Sized {
    /// The most fields a record of this type holds.
    const PART_COUNT: usize;

    /// The character between two fields.
    const DELIMITER: char = ';';

    /// The texts that `deserialise` accepts.
    spec fn accepts(text: Seq<char>) -> bool;

    /// The value that `deserialise` reads from an accepted text.
    spec fn read(text: Seq<char>) -> Self;

    /// The line that `serialise` writes for a value.
    spec fn written(&self) -> Seq<char>;

    /// The record's identifier.
    fn get_id(&self) -> i32;

    /// Writes the record as one line.
    fn serialise(&self) -> (r: String)
        ensures
            r@ == self.written();

    /// Reads a record back from one line.
    fn deserialise(to_deserialise: String) -> (r: Self)
        requires
            Self::accepts(to_deserialise@),
        ensures
            r == Self::read(to_deserialise@);

    /// Whether `deserialise` accepts a line.
    fn accepted(to_deserialise: &String) -> (r: bool)
        ensures
            r == Self::accepts(to_deserialise@);

    /// Splits a line into its fields; a line with more than `PART_COUNT`
    /// fields is malformed.
    fn split_string(to_deserialise: &String) -> (parts: Vec<&str>)
        requires
            split_fields(to_deserialise@, Self::DELIMITER).len() <= Self::PART_COUNT,
        ensures
            str_views(parts@) == split_fields(to_deserialise@, Self::DELIMITER),
            parts@.len() <= Self::PART_COUNT,
    {
        split_on(to_deserialise.as_str(), Self::DELIMITER)
    }
}


/// A ledger entry: a member and the coins they hold.
#[derive(Clone, Copy, Debug)]
pub struct User {
    pub user_id: i32,
    pub coin_count: i32,
}

impl User {
    /// The member's display name; the ledger does not record it, so every
    /// entry reads as `username`.
    pub fn get_username(&self) -> (r: String)
        ensures
            r@ == "username"@,
    {
        String::from_str("username")
    }
}

/// The fields of a ledger line.
pub open spec fn user_fields(text: Seq<char>) -> Seq<Seq<char>> {
    split_fields(text, ';')
}

impl Serialisable for User {
    const PART_COUNT: usize = 2;

    open spec fn accepts(text: Seq<char>) -> bool {
        let p = user_fields(text);
        &&& p.len() <= 2
        &&& parse_i32_spec(p[0]) is Some
        &&& p.len() > 1 ==> parse_i32_spec(p[1]) is Some
    }

    open spec fn read(text: Seq<char>) -> User {
        let p = user_fields(text);
        User {
            user_id: parse_i32_spec(p[0]).unwrap(),
            coin_count: if p.len() > 1 { parse_i32_spec(p[1]).unwrap() } else { 0 },
        }
    }

    open spec fn written(&self) -> Seq<char> {
        decimal(self.user_id as int) + seq![';'] + decimal(self.coin_count as int)
    }

    fn get_id(&self) -> (r: i32)
        ensures
            r == self.user_id,
    {
        self.user_id
    }

    fn serialise(&self) -> (r: String) {
        let mut result = int_text(self.get_id() as i64);
        proof { reveal_strlit(";"); }
        result.append(";");
        result.append(int_text(self.coin_count as i64).as_str());
        result
    }

    fn accepted(to_deserialise: &String) -> (r: bool) {
        proof { crate::text::lemma_split_fields_nonempty(to_deserialise@, ';'); }
        let parts = split_on(to_deserialise.as_str(), ';');
        if parts.len() > 2 {
            return false;
        }
        assert(parts@[0]@ == user_fields(to_deserialise@)[0]);
        let first = match parse_i32(parts[0]) {
            Some(_) => true,
            None => false,
        };
        let second = if parts.len() > 1 {
            assert(parts@[1]@ == user_fields(to_deserialise@)[1]);
            match parse_i32(parts[1]) {
                Some(_) => true,
                None => false,
            }
        } else {
            true
        };
        first && second
    }

    fn deserialise(to_deserialise: String) -> (r: User) {
        proof { crate::text::lemma_split_fields_nonempty(to_deserialise@, ';'); }
        let parts = Self::split_string(&to_deserialise);
        assert(parts@[0]@ == user_fields(to_deserialise@)[0]);
        let user_id = parse_i32(parts[0]).unwrap();
        let coin_count = if parts.len() > 1 {
            assert(parts@[1]@ == user_fields(to_deserialise@)[1]);
            parse_i32(parts[1]).unwrap()
        } else {
            0
        };
        User { user_id, coin_count }
    }
}


/// Reading back what `serialise` wrote gives the same entry: every written
/// line is accepted, and it reads as the entry that wrote it.
pub proof fn lemma_user_round_trip(u: User)
    ensures
        User::accepts(u.written()),
        User::read(u.written()) == u,
{
    let a = decimal(u.user_id as int);
    let b = decimal(u.coin_count as int);
    lemma_decimal_free_of(u.user_id as int, ';');
    lemma_decimal_free_of(u.coin_count as int, ';');
    lemma_split_fields_plain(a, ';');
    lemma_split_fields_append(a, b, ';');
    assert(u.written() =~= a.push(';') + b);
    lemma_i32_text_round_trip(u.user_id);
    lemma_i32_text_round_trip(u.coin_count);
    assert(user_fields(u.written()) =~= seq![a, b]);
}


/// The text of a ledger: each record's line, each followed by a newline.
pub open spec fn ledger_view<T: Serialisable>(items: Seq<T>) -> Seq<char>
    decreases items.len(),
{
    if items.len() == 0 {
        Seq::empty()
    } else {
        ledger_view(items.drop_last()) + items.last().written() + seq!['\n']
    }
}

/// Writes the text of a ledger: each record's line, each followed by a
/// newline.
pub fn ledger_text<T: Serialisable>(items: &Vec<T>) -> (r: String)
    ensures
        r@ == ledger_view(items@),
{
    let mut r = String::new();
    let mut i: usize = 0;
    while i < items.len()
        invariant
            i <= items@.len(),
            r@ == ledger_view(items@.take(i as int)),
        decreases items@.len() - i,
    {
        assert(items@.take(i + 1).drop_last() =~= items@.take(i as int));
        r.append(items[i].serialise().as_str());
        proof { reveal_strlit("\n"); }
        r.append("\n");
        assert(r@ =~= ledger_view(items@.take(i + 1)));
        i = i + 1;
    }
    assert(items@.take(items@.len() as int) =~= items@);
    r
}

/// Reads the records of a ledger, one per line.
pub fn read_ledger<T: Serialisable>(lines: Vec<String>) -> (r: Vec<T>)
    requires
        forall|k: int| 0 <= k < lines@.len() ==> T::accepts(#[trigger] lines@[k]@),
    ensures
        r@.len() == lines@.len(),
        forall|k: int| 0 <= k < lines@.len() ==> #[trigger] r@[k] == T::read(lines@[k]@),
{
    let mut r: Vec<T> = Vec::new();
    let mut lines = lines;
    let ghost all = lines@;
    let mut i: usize = 0;
    let n = lines.len();
    while i < n
        invariant
            n == all.len(),
            i <= n,
            lines@ == all.subrange(i as int, n as int),
            forall|k: int| 0 <= k < n ==> T::accepts(#[trigger] all[k]@),
            r@.len() == i,
            forall|k: int| 0 <= k < i ==> #[trigger] r@[k] == T::read(all[k]@),
        decreases n - i,
    {
        let line = lines.remove(0);
        assert(line == all[i as int]);
        assert(lines@ =~= all.subrange(i + 1, n as int));
        r.push(T::deserialise(line));
        i = i + 1;
    }
    r
}

/// The lines of a ledger of entries.
pub open spec fn written_lines(items: Seq<User>) -> Seq<Seq<char>> {
    items.map_values(|u: User| u.written())
}

/// A ledger of entries splits at its newlines into the entries' lines and
/// the empty text after the last newline, and each line reads back as the
/// entry that wrote it: what is saved is what is loaded.
#[verifier::spinoff_prover]
#[verifier::rlimit(40)]
pub proof fn lemma_ledger_round_trip(items: Seq<User>)
    ensures
        split_fields(ledger_view(items), '\n') == written_lines(items).push(Seq::empty()),
        forall|k: int| 0 <= k < items.len() ==> User::accepts(#[trigger] written_lines(items)[k])
            && User::read(written_lines(items)[k]) == items[k],
    decreases items.len(),
{
    if items.len() > 0 {
        let init = items.drop_last();
        let u = items.last();
        let w = u.written();
        lemma_ledger_round_trip(init);
        lemma_decimal_free_of(u.user_id as int, '\n');
        lemma_decimal_free_of(u.coin_count as int, '\n');
        assert(!w.contains('\n')) by {
            if w.contains('\n') {
                let k = choose|k: int| 0 <= k < w.len() && w[k] == '\n';
                let a = decimal(u.user_id as int);
                if k < a.len() {
                    assert(a[k] == '\n');
                } else if k > a.len() {
                    assert(decimal(u.coin_count as int)[k - a.len() - 1] == '\n');
                }
            }
        }
        let x = ledger_view(init) + w;
        assert(ledger_view(items) =~= x.push('\n'));
        assert(x.push('\n').drop_last() =~= x);
        if init.len() == 0 {
            assert(x =~= w);
            lemma_split_fields_plain(w, '\n');
        } else {
            let y = ledger_view(init.drop_last()) + init.last().written();
            assert(ledger_view(init) =~= y.push('\n'));
            assert(y.push('\n').drop_last() =~= y);
            lemma_split_fields_append(y, w, '\n');
            assert(split_fields(y, '\n') =~= written_lines(init)) by {
                assert(split_fields(y.push('\n'), '\n') == split_fields(y, '\n').push(Seq::empty()));
                assert(split_fields(y, '\n') =~= split_fields(y.push('\n'), '\n').drop_last());
            }
        }
        assert(written_lines(items) =~= written_lines(init).push(w));
        assert forall|k: int| 0 <= k < items.len() implies User::accepts(#[trigger] written_lines(items)[k])
            && User::read(written_lines(items)[k]) == items[k] by {
            lemma_user_round_trip(items[k]);
        }
    }
}

} // verus!
