//! The requests the chat sends to the coin server, and how a chat message
//! is read as one.

use vstd::prelude::*;
use crate::bot_user::BotUser;
use crate::text::{lowercase_of, parse_i64, parse_i64_spec, split_fields, split_on, str_views, string_views, to_lowercase};

verus! {

/// A request to the coin server.  `M` is the application's handle of the
/// chat message that announced a coin.
pub enum Command<M> {
    GetCoin(BotUser),
    CoinCount(BotUser),
    CoinCountMultiple(Vec<BotUser>),
    CoinLeaderboard(BotUser),
    GiveCoin(BotUser, BotUser, i64),
    EatCoin(BotUser, i64),
    Invest(BotUser, i64),
    Arena(BotUser, Vec<String>),
    Trick(BotUser, i64),
    TrickMax(BotUser),
    CreateCoin,
    CoinCreateNotification(M),
    UpdateCoins,
    ClearCoin,
    CoinEscape,
    NoCommand,
    Error(&'static str),
}

impl<M> Command<M> {
    /// The commands that change what members hold: claiming, giving,
    /// eating, investing, training and tricks.
    pub open spec fn saves(&self) -> bool {
        match self {
            Command::GetCoin(..) => true,
            Command::GiveCoin(..) => true,
            Command::EatCoin(..) => true,
            Command::Invest(..) => true,
            Command::Arena(..) => true,
            Command::Trick(..) => true,
            Command::TrickMax(..) => true,
            _ => false,
        }
    }

    /// Whether the records should be saved after this command.
    pub fn should_save(&self) -> (r: bool)
        ensures
            r == self.saves(),
    {
        match self {
            Command::GetCoin(..) => true,
            Command::GiveCoin(..) => true,
            Command::EatCoin(..) => true,
            Command::Invest(..) => true,
            Command::Arena(..) => true,
            Command::Trick(..) => true,
            Command::TrickMax(..) => true,
            _ => false,
        }
    }
}

/// The number a word denotes, or nothing for a word that is not a number.
pub open spec fn number_of(w: Seq<char>) -> int {
    match parse_i64_spec(w) {
        Some(v) => v as int,
        None => 0,
    }
}

/// The sum of the numbers among the words.
pub open spec fn word_total(words: Seq<Seq<char>>) -> int
    decreases words.len(),
{
    if words.len() == 0 {
        0
    } else {
        word_total(words.drop_last()) + number_of(words.last())
    }
}

/// Every running sum of the numbers among the words, from the left, fits
/// in an `i64`.
pub open spec fn total_fits(words: Seq<Seq<char>>) -> bool {
    forall|k: int| 0 <= k <= words.len() ==> i64::MIN <= #[trigger] word_total(words.take(k)) <= i64::MAX
}

/// Whether reading the words adds up the numbers in them: `coin invest`,
/// `coin eat`, and `coin give` with exactly one member mentioned.
pub open spec fn adds_numbers(words: Seq<Seq<char>>, mentions: int) -> bool {
    &&& words.len() >= 2
    &&& words[0] == "coin"@
    &&& (words[1] == "invest"@ || words[1] == "eat"@ || (words[1] == "give"@ && mentions == 1))
}

/// The command is the error with this text.
pub open spec fn errs<M>(r: Command<M>, text: Seq<char>) -> bool {
    match r {
        Command::Error(t) => t@ == text,
        _ => false,
    }
}

/// The command that the words of a message (in lower case), the members it
/// mentions and its author make.
pub open spec fn reads_as<M>(words: Seq<Seq<char>>, mentions: Seq<BotUser>, user: BotUser, r: Command<M>) -> bool {
    if words.len() == 0 {
        r is NoCommand
    } else if words[0] == "get"@ {
        r == Command::<M>::GetCoin(user)
    } else if words[0] != "coin"@ {
        r is NoCommand
    } else if words.len() == 1 {
        r == Command::<M>::GetCoin(user)
    } else {
        let w = words[1];
        let total = word_total(words);
        if w == "count"@ {
            if mentions.len() == 0 {
                r == Command::<M>::CoinCount(user)
            } else {
                r matches Command::CoinCountMultiple(v) && v@ == mentions
            }
        } else if w == "leaderboard"@ {
            r == Command::<M>::CoinLeaderboard(user)
        } else if w == "give"@ {
            if mentions.len() == 0 {
                errs(r, "You haven't mentioned anyone to give coins to."@)
            } else if mentions.len() > 1 {
                errs(r, "You can only give coins to one person."@)
            } else if total == 0 {
                errs(r, "Please make sure you're giving at least one coin."@)
            } else if total < 0 {
                errs(r, "You can't give negative coins!"@)
            } else {
                r == Command::<M>::GiveCoin(user, mentions[0], total as i64)
            }
        } else if w == "invest"@ {
            if total == 0 {
                errs(r, "Please make sure you're giving at least one coin."@)
            } else if total < 0 {
                errs(r, "You can't give negative coins!"@)
            } else {
                r == Command::<M>::Invest(user, total as i64)
            }
        } else if w == "arena"@ {
            r matches Command::Arena(u, v) && u == user && string_views(v@) == words
        } else if w == "eat"@ {
            r == Command::<M>::EatCoin(user, (if total == 0 { 1 } else { total }) as i64)
        } else {
            r == Command::<M>::GetCoin(user)
        }
    }
}

/// The sum of the numbers among the words, or `None` where a running sum
/// leaves the `i64` range.
pub fn numbers_total(words: &Vec<&str>) -> (r: Option<i64>)
    ensures
        r is Some <==> total_fits(str_views(words@)),
        r is Some ==> r.unwrap() == word_total(str_views(words@)),
{
    let ghost ws = str_views(words@);
    let mut acc: i64 = 0;
    let mut i: usize = 0;
    assert(ws.take(0) =~= Seq::<Seq<char>>::empty());
    while i < words.len()
        invariant
            i <= words@.len(),
            ws == str_views(words@),
            ws.len() == words@.len(),
            acc == word_total(ws.take(i as int)),
            forall|k: int| 0 <= k <= i ==> i64::MIN <= #[trigger] word_total(ws.take(k)) <= i64::MAX,
        decreases words@.len() - i,
    {
        assert(ws.take(i + 1).drop_last() =~= ws.take(i as int));
        assert(ws.take(i + 1).last() == words@[i as int]@);
        let n: i64 = match parse_i64(words[i]) {
            Some(v) => v,
            None => 0,
        };
        let wide: i128 = acc as i128 + n as i128;
        if wide < -0x8000_0000_0000_0000 || wide > 0x7fff_ffff_ffff_ffff {
            assert(!(i64::MIN <= word_total(ws.take(i + 1)) <= i64::MAX));
            return None;
        }
        acc = wide as i64;
        i = i + 1;
    }
    assert(ws.take(ws.len() as int) =~= ws);
    Some(acc)
}

/// A copy of every word.
fn owned_words(words: &Vec<&str>) -> (r: Vec<String>)
    ensures
        string_views(r@) == str_views(words@),
{
    let mut r: Vec<String> = Vec::new();
    let mut i: usize = 0;
    while i < words.len()
        invariant
            i <= words@.len(),
            string_views(r@) == str_views(words@).take(i as int),
        decreases words@.len() - i,
    {
        let ghost prev = string_views(r@);
        r.push(String::from_str(words[i]));
        assert(string_views(r@) =~= prev.push(words@[i as int]@));
        assert(str_views(words@).take(i + 1) =~= str_views(words@).take(i as int).push(words@[i as int]@));
        i = i + 1;
    }
    assert(str_views(words@).take(words@.len() as int) =~= str_views(words@));
    r
}

/// Whether a word reads as the given text.
fn is_word(w: &str, text: &str) -> (r: bool)
    ensures
        r == (w@ == text@),
{
    String::from_str(w) == String::from_str(text)
}

/// Reads the words of a message (already in lower case) from its author,
/// with the members it mentions.  `get` claims the coin; `coin` starts a
/// coin command (`count`, `leaderboard`, `give`, `invest`, `arena`, `eat`,
/// and anything else claims the coin); any other message is no command.
/// Amounts are the sum of every number among the words.
pub fn read_message<M>(words: Vec<&str>, mentions: Vec<BotUser>, user: BotUser) -> (r: Command<M>)
    requires
        adds_numbers(str_views(words@), mentions@.len() as int) ==> total_fits(str_views(words@)),
    ensures
        reads_as(str_views(words@), mentions@, user, r),
{
    let ghost ws = str_views(words@);
    if words.len() == 0 {
        return Command::NoCommand;
    }
    assert(ws[0] == words@[0]@);
    if is_word(words[0], "get") {
        return Command::GetCoin(user);
    }
    if !is_word(words[0], "coin") {
        return Command::NoCommand;
    }
    if words.len() == 1 {
        return Command::GetCoin(user);
    }
    assert(ws[1] == words@[1]@);
    let w = words[1];
    if is_word(w, "count") {
        if mentions.len() == 0 {
            Command::CoinCount(user)
        } else {
            Command::CoinCountMultiple(mentions)
        }
    } else if is_word(w, "leaderboard") {
        Command::CoinLeaderboard(user)
    } else if is_word(w, "give") {
        if mentions.len() == 0 {
            Command::Error("You haven't mentioned anyone to give coins to.")
        } else if mentions.len() > 1 {
            Command::Error("You can only give coins to one person.")
        } else {
            let total = match numbers_total(&words) {
                Some(t) => t,
                None => 0,
            };
            if total == 0 {
                Command::Error("Please make sure you're giving at least one coin.")
            } else if total < 0 {
                Command::Error("You can't give negative coins!")
            } else {
                let mut mentions = mentions;
                let recipient = mentions.remove(0);
                Command::GiveCoin(user, recipient, total)
            }
        }
    } else if is_word(w, "invest") {
        let total = match numbers_total(&words) {
            Some(t) => t,
            None => 0,
        };
        if total == 0 {
            Command::Error("Please make sure you're giving at least one coin.")
        } else if total < 0 {
            Command::Error("You can't give negative coins!")
        } else {
            Command::Invest(user, total)
        }
    } else if is_word(w, "arena") {
        Command::Arena(user, owned_words(&words))
    } else if is_word(w, "eat") {
        let total = match numbers_total(&words) {
            Some(t) => t,
            None => 0,
        };
        Command::EatCoin(user, if total == 0 { 1 } else { total })
    } else {
        Command::GetCoin(user)
    }
}

/// Whether a chat message may be a command: its text, in lower case,
/// starts with `coin` or `get`.
pub open spec fn may_be_command_view(content: Seq<char>) -> bool {
    let t = lowercase_of(content);
    ||| (t.len() >= 4 && t.take(4) == "coin"@)
    ||| (t.len() >= 3 && t.take(3) == "get"@)
}

/// Whether a text starts with the given prefix.
fn starts_with(t: &str, prefix: &str) -> (r: bool)
    ensures
        r == (t@.len() >= prefix@.len() && t@.take(prefix@.len() as int) == prefix@),
{
    let n = prefix.unicode_len();
    if t.unicode_len() < n {
        return false;
    }
    let mut k: usize = 0;
    while k < n
        invariant
            n == prefix@.len(),
            n <= t@.len(),
            k <= n,
            forall|j: int| 0 <= j < k ==> t@[j] == prefix@[j],
        decreases n - k,
    {
        if t.get_char(k) != prefix.get_char(k) {
            return false;
        }
        k = k + 1;
    }
    assert(t@.take(n as int) =~= prefix@);
    true
}

/// Whether a chat message may be a command: its text, in lower case,
/// starts with `coin` or `get`.  Only such messages are looked at further.
pub fn may_be_command(content: &str) -> (r: bool)
    ensures
        r == may_be_command_view(content@),
{
    let lower = to_lowercase(content);
    proof {
        reveal_strlit("coin");
        reveal_strlit("get");
    }
    starts_with(lower.as_str(), "coin") || starts_with(lower.as_str(), "get")
}

/// Reads a chat message from its author, with the members it mentions:
/// the text is put in lower case and split at each space, then read as
/// `read_message` reads words.  `None` where the numbers it adds up leave
/// the `i64` range.
pub fn read_text<M>(content: &str, mentions: Vec<BotUser>, user: BotUser) -> (r: Option<Command<M>>)
    ensures
        ({
            let ws = split_fields(lowercase_of(content@), ' ');
            &&& r is None <==> (adds_numbers(ws, mentions@.len() as int) && !total_fits(ws))
            &&& r is Some ==> reads_as(ws, mentions@, user, r.unwrap())
        }),
{
    let lower = to_lowercase(content);
    let words = split_on(lower.as_str(), ' ');
    let fits = match numbers_total(&words) {
        Some(_) => true,
        None => false,
    };
    let adds = words.len() >= 2 && is_word(words[0], "coin") && (is_word(words[1], "invest")
        || is_word(words[1], "eat") || (is_word(words[1], "give") && mentions.len() == 1));
    proof {
        let ws = str_views(words@);
        if words@.len() >= 2 {
            assert(ws[0] == words@[0]@);
            assert(ws[1] == words@[1]@);
        }
    }
    if adds && !fits {
        return None;
    }
    Some(read_message(words, mentions, user))
}

} // verus!
