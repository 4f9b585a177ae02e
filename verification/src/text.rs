//! Text building blocks: decimal rendering and parsing of integers,
//! plural suffixes and durations.

use vstd::prelude::*;
use vstd::string::StrSliceExecFns;

verus! {

/// The character of a decimal digit `d` (0 to 9).
pub open spec fn digit_char(d: int) -> char {
    if d == 0 { '0' }
    else if d == 1 { '1' }
    else if d == 2 { '2' }
    else if d == 3 { '3' }
    else if d == 4 { '4' }
    else if d == 5 { '5' }
    else if d == 6 { '6' }
    else if d == 7 { '7' }
    else if d == 8 { '8' }
    else { '9' }
}

/// The decimal digits of a natural number, without leading zeros.
pub open spec fn nat_digits(n: nat) -> Seq<char>
    decreases n,
{
    if n < 10 {
        seq![digit_char(n as int)]
    } else {
        nat_digits(n / 10) + seq![digit_char((n % 10) as int)]
    }
}

/// The decimal rendering of an integer, with a leading `-` when negative.
pub open spec fn decimal(n: int) -> Seq<char> {
    if n < 0 {
        seq!['-'] + nat_digits((-n) as nat)
    } else {
        nat_digits(n as nat)
    }
}

fn digit_str(d: u64) -> (s: &'static str)
    requires
        d < 10,
    ensures
        s@ == seq![digit_char(d as int)],
{
    if d == 0 {
        proof { reveal_strlit("0"); }
        "0"
    } else if d == 1 {
        proof { reveal_strlit("1"); }
        "1"
    } else if d == 2 {
        proof { reveal_strlit("2"); }
        "2"
    } else if d == 3 {
        proof { reveal_strlit("3"); }
        "3"
    } else if d == 4 {
        proof { reveal_strlit("4"); }
        "4"
    } else if d == 5 {
        proof { reveal_strlit("5"); }
        "5"
    } else if d == 6 {
        proof { reveal_strlit("6"); }
        "6"
    } else if d == 7 {
        proof { reveal_strlit("7"); }
        "7"
    } else if d == 8 {
        proof { reveal_strlit("8"); }
        "8"
    } else {
        proof { reveal_strlit("9"); }
        "9"
    }
}

fn append_digits(s: &mut String, m: u64)
    ensures
        final(s)@ == old(s)@ + nat_digits(m as nat),
    decreases m,
{
    if m >= 10 {
        append_digits(s, m / 10);
    }
    s.append(digit_str(m % 10));
    assert(final(s)@ == old(s)@ + nat_digits(m as nat)) by {
        assert(m < 10 ==> nat_digits(m as nat) == seq![digit_char(m as int)]);
    }
}

/// Renders an integer in decimal, as `to_string` does.
pub fn int_text(n: i64) -> (s: String)
    ensures
        s@ == decimal(n as int),
{
    let mut s = String::new();
    if n < 0 {
        proof { reveal_strlit("-"); }
        s.append("-");
        let m: u64 = (0i128 - (n as i128)) as u64;
        append_digits(&mut s, m);
    } else {
        append_digits(&mut s, n as u64);
    }
    s
}


/// Renders a count in decimal.
pub fn usize_text(n: usize) -> (s: String)
    ensures
        s@ == decimal(n as int),
{
    let mut s = String::new();
    append_digits(&mut s, n as u64);
    s
}

/// The lower-case form of a text, as `str::to_lowercase` gives it.
pub uninterp spec fn lowercase_of(s: Seq<char>) -> Seq<char>;

/// Whether every character is ASCII.
pub open spec fn all_ascii(s: Seq<char>) -> bool {
    forall|i: int| 0 <= i < s.len() ==> (s[i] as int) < 128
}

/// ASCII capitals made small, every other character left as it is.
pub open spec fn ascii_lower(s: Seq<char>) -> Seq<char> {
    s.map_values(|c: char| if 'A' <= c && c <= 'Z' { ((c as int) + 32) as char } else { c })
}

/// `str::to_lowercase`: the contract claims that the result is the
/// lower-case form of the argument, a function of the argument alone (the
/// Unicode lower-case mapping, which takes pages to state), and that on
/// ASCII text that mapping turns `A` to `Z` into `a` to `z` and leaves
/// every other character as it is.
#[verifier::external_body]
pub(crate) fn to_lowercase(s: &str) -> (r: String)
    ensures
        r@ == lowercase_of(s@),
        all_ascii(s@) ==> r@ == ascii_lower(s@),
{
    s.to_lowercase()
}

/// Truncating division, as Rust's `/` on signed integers computes it.
pub open spec fn tdiv(a: int, b: int) -> int {
    if a >= 0 { a / b } else { -((-a) / b) }
}

/// Truncating remainder, as Rust's `%` on signed integers computes it.
pub open spec fn trem(a: int, b: int) -> int {
    if a >= 0 { a % b } else { -((-a) % b) }
}

/// The plural suffix for a count: nothing for exactly one, `s` otherwise.
pub open spec fn plural(n: int) -> Seq<char> {
    if n == 1 { Seq::empty() } else { "s"@ }
}

/// `""` when `val` is one and `"s"` otherwise.
pub fn s_if(val: i64) -> (r: String)
    ensures
        r@ == plural(val as int),
{
    if val == 1 {
        String::new()
    } else {
        String::from_str("s")
    }
}

/// A number of seconds in words, as in `1 hour, 2 minutes, and 5 seconds`.
pub open spec fn duration_text(t: int) -> Seq<char> {
    let seconds = trem(t, 60);
    let minutes = trem(tdiv(t, 60), 60);
    let hours = tdiv(tdiv(t, 60), 60);
    (if hours > 0 { decimal(hours) + " hour"@ + plural(hours) + ", "@ } else { Seq::empty() })
        + (if minutes > 0 { decimal(minutes) + " minute"@ + plural(minutes) + ", "@ } else { Seq::empty() })
        + (if hours > 0 || minutes > 0 { "and "@ } else { Seq::empty() })
        + decimal(seconds) + " second"@ + plural(seconds)
}

/// Renders a number of seconds as hours, minutes and seconds.
pub fn seconds_to_string(full_time: i64) -> (r: String)
    ensures
        r@ == duration_text(full_time as int),
{
    let seconds = full_time % 60;
    let minutes = (full_time / 60) % 60;
    let hours = full_time / 60 / 60;
    let q = full_time / 60;
    assert(seconds == trem(full_time as int, 60));
    assert(q == tdiv(full_time as int, 60));
    assert(minutes == trem(tdiv(full_time as int, 60), 60));
    assert(hours == tdiv(tdiv(full_time as int, 60), 60));
    let mut r = String::new();
    if hours > 0 {
        r.append(int_text(hours).as_str());
        r.append(" hour");
        r.append(s_if(hours).as_str());
        r.append(", ");
    }
    if minutes > 0 {
        r.append(int_text(minutes).as_str());
        r.append(" minute");
        r.append(s_if(minutes).as_str());
        r.append(", ");
    }
    if hours > 0 || minutes > 0 {
        r.append("and ");
    }
    r.append(int_text(seconds).as_str());
    r.append(" second");
    r.append(s_if(seconds).as_str());
    r
}

/// An ASCII decimal digit.
pub open spec fn is_digit(c: char) -> bool {
    '0' <= c && c <= '9'
}

/// Every character is an ASCII decimal digit.
pub open spec fn all_digits(s: Seq<char>) -> bool {
    forall|i: int| 0 <= i < s.len() ==> is_digit(#[trigger] s[i])
}

/// The number that a string of decimal digits denotes.
pub open spec fn digits_value(s: Seq<char>) -> int
    decreases s.len(),
{
    if s.len() == 0 {
        0
    } else {
        digits_value(s.drop_last()) * 10 + (s.last() as int - '0' as int)
    }
}

/// The integer that a string denotes in the syntax of Rust's integer
/// `FromStr`: an optional `+` or `-`, then at least one decimal digit,
/// and nothing else.  `None` when the string is not of that form.
pub open spec fn int_value_of(s: Seq<char>) -> Option<int> {
    if s.len() > 0 && (s[0] == '+' || s[0] == '-') {
        let t = s.drop_first();
        if t.len() > 0 && all_digits(t) {
            Some(if s[0] == '-' { -digits_value(t) } else { digits_value(t) })
        } else {
            None
        }
    } else if s.len() > 0 && all_digits(s) {
        Some(digits_value(s))
    } else {
        None
    }
}

/// What `str::parse::<i64>` gives back, as an option.
pub open spec fn parse_i64_spec(s: Seq<char>) -> Option<i64> {
    match int_value_of(s) {
        Some(v) => if i64::MIN <= v <= i64::MAX { Some(v as i64) } else { None },
        None => None,
    }
}

/// What `str::parse::<i32>` gives back, as an option.
pub open spec fn parse_i32_spec(s: Seq<char>) -> Option<i32> {
    match int_value_of(s) {
        Some(v) => if i32::MIN <= v <= i32::MAX { Some(v as i32) } else { None },
        None => None,
    }
}

proof fn lemma_digits_value_nonneg(s: Seq<char>)
    requires
        all_digits(s),
    ensures
        digits_value(s) >= 0,
    decreases s.len(),
{
    if s.len() > 0 {
        lemma_digits_value_nonneg(s.drop_last());
    }
}

proof fn lemma_digits_value_prefix(s: Seq<char>, k: int)
    requires
        all_digits(s),
        0 <= k <= s.len(),
    ensures
        digits_value(s.take(k)) <= digits_value(s),
    decreases s.len(),
{
    if k < s.len() {
        let t = s.drop_last();
        assert(s.take(k) =~= t.take(k));
        lemma_digits_value_prefix(t, k);
        lemma_digits_value_nonneg(t);
    } else {
        assert(s.take(k) =~= s);
    }
}

/// Reads an optional sign followed by decimal digits; the magnitude is
/// accepted up to `2^64`, beyond which the reading gives up.
fn parse_wide(s: &str) -> (r: Option<i128>)
    ensures
        match r {
            Some(v) => int_value_of(s@) == Some(v as int),
            None => match int_value_of(s@) {
                Some(v) => v < -0x1_0000_0000_0000_0000 || v > 0x1_0000_0000_0000_0000,
                None => true,
            },
        },
{
    let n = s.unicode_len();
    if n == 0 {
        return None;
    }
    let first = s.get_char(0);
    let neg = first == '-';
    let start: usize = if first == '-' || first == '+' { 1 } else { 0 };
    if start == n {
        return None;
    }
    let ghost t = s@.subrange(start as int, n as int);
    proof {
        if start == 1 {
            assert(t =~= s@.drop_first());
        } else {
            assert(t =~= s@);
        }
    }
    let mut acc: i128 = 0;
    let mut i: usize = start;
    while i < n
        invariant
            start <= i <= n,
            start <= 1,
            n == s@.len(),
            t == s@.subrange(start as int, n as int),
            n > 0,
            neg == (s@[0] == '-'),
            start == 1 ==> t == s@.drop_first() && (s@[0] == '+' || s@[0] == '-'),
            start == 0 ==> t == s@ && !(s@[0] == '+' || s@[0] == '-'),
            t.len() > 0,
            all_digits(t.take(i - start)),
            acc == digits_value(t.take(i - start)),
            0 <= acc <= 0x1_0000_0000_0000_0000,
        decreases n - i,
    {
        let c = s.get_char(i);
        assert(c == t[i - start]);
        if !('0' <= c && c <= '9') {
            assert(!all_digits(t));
            proof {
                if start == 1 {
                    assert(s@.len() > 0 && (s@[0] == '+' || s@[0] == '-'));
                    assert(t == s@.drop_first());
                    assert(!(t.len() > 0 && all_digits(s@.drop_first())));
                } else {
                    assert(t == s@);
                    assert(!all_digits(s@));
                }
            }
            return None;
        }
        let d = (c as u32 - '0' as u32) as i128;
        assert(t.take(i + 1 - start).drop_last() =~= t.take(i - start));
        acc = acc * 10 + d;
        i = i + 1;
        assert(all_digits(t.take(i - start)));
        if acc > 0x1_0000_0000_0000_0000 {
            proof {
                if all_digits(t) {
                    lemma_digits_value_prefix(t, i - start);
                }
                assert(match int_value_of(s@) {
                    Some(v) => v < -0x1_0000_0000_0000_0000 || v > 0x1_0000_0000_0000_0000,
                    None => true,
                });
            }
            return None;
        }
    }
    assert(t.take(n - start) =~= t);
    if neg {
        Some(0 - acc)
    } else {
        Some(acc)
    }
}

/// `str::parse::<i64>`, with the error folded into `None`.
pub fn parse_i64(s: &str) -> (r: Option<i64>)
    ensures
        r == parse_i64_spec(s@),
{
    match parse_wide(s) {
        Some(v) => {
            if -0x8000_0000_0000_0000 <= v && v <= 0x7fff_ffff_ffff_ffff {
                Some(v as i64)
            } else {
                None
            }
        },
        None => None,
    }
}

/// `str::parse::<i32>`, with the error folded into `None`.
pub fn parse_i32(s: &str) -> (r: Option<i32>)
    ensures
        r == parse_i32_spec(s@),
{
    match parse_wide(s) {
        Some(v) => {
            if -0x8000_0000 <= v && v <= 0x7fff_ffff {
                Some(v as i32)
            } else {
                None
            }
        },
        None => None,
    }
}


proof fn lemma_digit_char(d: int)
    requires
        0 <= d < 10,
    ensures
        is_digit(digit_char(d)),
        digit_char(d) as int - '0' as int == d,
{
}

/// The digits of a natural number are digits, at least one of them, and
/// they denote that number.
pub proof fn lemma_nat_digits(m: nat)
    ensures
        nat_digits(m).len() > 0,
        all_digits(nat_digits(m)),
        digits_value(nat_digits(m)) == m,
    decreases m,
{
    if m < 10 {
        lemma_digit_char(m as int);
        assert(nat_digits(m).drop_last() =~= Seq::<char>::empty());
        assert(digits_value(Seq::<char>::empty()) == 0);
    } else {
        lemma_nat_digits(m / 10);
        lemma_digit_char((m % 10) as int);
        let s = nat_digits(m);
        assert(s.drop_last() =~= nat_digits(m / 10));
        assert(s.last() == digit_char((m % 10) as int));
        assert(digits_value(s) == digits_value(nat_digits(m / 10)) * 10 + (m % 10) as int);
        assert((m / 10) * 10 + m % 10 == m);
        assert(all_digits(s)) by {
            assert forall|i: int| 0 <= i < s.len() implies is_digit(#[trigger] s[i]) by {
                if i < s.len() - 1 {
                    assert(s[i] == nat_digits(m / 10)[i]);
                }
            }
        }
    }
}

/// Reading back the decimal rendering of an integer gives that integer.
pub proof fn lemma_decimal_reads_back(n: int)
    ensures
        int_value_of(decimal(n)) == Some(n),
{
    if n < 0 {
        let m = (-n) as nat;
        lemma_nat_digits(m);
        let s = decimal(n);
        assert(s.drop_first() =~= nat_digits(m));
    } else {
        lemma_nat_digits(n as nat);
        let s = nat_digits(n as nat);
        assert(is_digit(s[0]));
    }
}

/// Parsing the rendering of an `i64` as an `i64` gives it back.
pub proof fn lemma_i64_text_round_trip(n: i64)
    ensures
        parse_i64_spec(decimal(n as int)) == Some(n),
{
    lemma_decimal_reads_back(n as int);
}

/// Parsing the rendering of an `i32` as an `i32` gives it back.
pub proof fn lemma_i32_text_round_trip(n: i32)
    ensures
        parse_i32_spec(decimal(n as int)) == Some(n),
{
    lemma_decimal_reads_back(n as int);
}

/// The pieces of `s` between the occurrences of `d`, as `str::split` with a
/// one-character pattern yields them: the empty string gives one empty
/// piece, and each `d` starts a new piece.
pub open spec fn split_fields(s: Seq<char>, d: char) -> Seq<Seq<char>>
    decreases s.len(),
{
    if s.len() == 0 {
        seq![Seq::empty()]
    } else {
        let prev = split_fields(s.drop_last(), d);
        if s.last() == d {
            prev.push(Seq::empty())
        } else {
            prev.update(prev.len() - 1, prev.last().push(s.last()))
        }
    }
}

/// The views of a sequence of string slices.
pub open spec fn str_views(parts: Seq<&str>) -> Seq<Seq<char>> {
    parts.map_values(|p: &str| p@)
}

/// The views of a sequence of strings.
pub open spec fn string_views(parts: Seq<String>) -> Seq<Seq<char>> {
    parts.map_values(|p: String| p@)
}

/// Splitting always yields at least one piece.
pub proof fn lemma_split_fields_nonempty(s: Seq<char>, d: char)
    ensures
        split_fields(s, d).len() >= 1,
    decreases s.len(),
{
    if s.len() > 0 {
        lemma_split_fields_nonempty(s.drop_last(), d);
    }
}

/// Splits `s` at every occurrence of `d`, as `s.split(d)` does.
pub fn split_on<'a>(s: &'a str, d: char) -> (parts: Vec<&'a str>)
    ensures
        str_views(parts@) == split_fields(s@, d),
{
    let n = s.unicode_len();
    let mut parts: Vec<&'a str> = Vec::new();
    let mut start: usize = 0;
    let mut i: usize = 0;
    assert(s@.take(0).len() == 0);
    assert(str_views(parts@) =~= Seq::<Seq<char>>::empty());
    assert(s@.subrange(0, 0) =~= Seq::<char>::empty());
    assert(str_views(parts@).push(s@.subrange(0, 0)) =~= split_fields(s@.take(0), d));
    while i < n
        invariant
            n == s@.len(),
            start <= i <= n,
            str_views(parts@).push(s@.subrange(start as int, i as int)) == split_fields(s@.take(i as int), d),
        decreases n - i,
    {
        let c = s.get_char(i);
        let ghost before = str_views(parts@);
        assert(s@.take(i + 1).drop_last() =~= s@.take(i as int));
        assert(s@.take(i + 1).last() == c);
        proof { lemma_split_fields_nonempty(s@.take(i as int), d); }
        if c == d {
            let piece = s.substring_char(start, i);
            parts.push(piece);
            assert(str_views(parts@) =~= before.push(piece@));
            start = i + 1;
            assert(s@.subrange(start as int, i + 1) =~= Seq::<char>::empty());
        } else {
            assert(s@.subrange(start as int, i + 1) =~= s@.subrange(start as int, i as int).push(c));
        }
        i = i + 1;
        assert(str_views(parts@).push(s@.subrange(start as int, i as int)) =~= split_fields(s@.take(i as int), d));
    }
    let ghost before = str_views(parts@);
    let last = s.substring_char(start, n);
    parts.push(last);
    assert(s@.take(n as int) =~= s@);
    assert(str_views(parts@) =~= before.push(last@));
    parts
}


/// A text in which `d` does not occur splits into itself alone.
pub proof fn lemma_split_fields_plain(x: Seq<char>, d: char)
    requires
        !x.contains(d),
    ensures
        split_fields(x, d) == seq![x],
    decreases x.len(),
{
    if x.len() > 0 {
        let y = x.drop_last();
        assert(!y.contains(d)) by {
            if y.contains(d) {
                let k = choose|k: int| 0 <= k < y.len() && y[k] == d;
                assert(x[k] == d);
            }
        }
        lemma_split_fields_plain(y, d);
        assert(x.last() != d) by {
            assert(x[x.len() - 1] == x.last());
        }
        assert(y.push(x.last()) =~= x);
        assert(split_fields(x, d) =~= seq![x]);
    } else {
        assert(x =~= Seq::<char>::empty());
    }
}

/// Appending `d` and then a text free of `d` adds exactly one piece.
pub proof fn lemma_split_fields_append(p: Seq<char>, y: Seq<char>, d: char)
    requires
        !y.contains(d),
    ensures
        split_fields(p.push(d) + y, d) == split_fields(p, d).push(y),
    decreases y.len(),
{
    if y.len() == 0 {
        assert(p.push(d) + y =~= p.push(d));
        assert(y =~= Seq::<char>::empty());
        assert(p.push(d).drop_last() =~= p);
    } else {
        let y2 = y.drop_last();
        assert(!y2.contains(d)) by {
            if y2.contains(d) {
                let k = choose|k: int| 0 <= k < y2.len() && y2[k] == d;
                assert(y[k] == d);
            }
        }
        lemma_split_fields_append(p, y2, d);
        let whole = p.push(d) + y;
        assert(whole.drop_last() =~= p.push(d) + y2);
        assert(whole.last() == y.last());
        assert(y.last() != d) by {
            assert(y[y.len() - 1] == y.last());
        }
        assert(y2.push(y.last()) =~= y);
        assert(split_fields(whole, d) =~= split_fields(p, d).push(y));
    }
}

/// No decimal rendering contains a character other than `-` and digits.
pub proof fn lemma_decimal_free_of(n: int, c: char)
    requires
        c != '-',
        !is_digit(c),
    ensures
        !decimal(n).contains(c),
{
    let m: nat = if n < 0 { (-n) as nat } else { n as nat };
    lemma_nat_digits(m);
    let s = decimal(n);
    if s.contains(c) {
        let k = choose|k: int| 0 <= k < s.len() && s[k] == c;
        if n < 0 {
            assert(k > 0);
            assert(s[k] == nat_digits(m)[k - 1]);
        } else {
            assert(s[k] == nat_digits(m)[k]);
        }
    }
}


/// Texts joined with a separator between each two of them.
pub open spec fn join_view(parts: Seq<Seq<char>>, sep: Seq<char>) -> Seq<char>
    decreases parts.len(),
{
    if parts.len() == 0 {
        Seq::empty()
    } else if parts.len() == 1 {
        parts[0]
    } else {
        join_view(parts.drop_last(), sep) + sep + parts.last()
    }
}

/// Joins texts with a separator between each two of them.
pub fn join_strings(parts: &Vec<String>, sep: &str) -> (r: String)
    ensures
        r@ == join_view(string_views(parts@), sep@),
{
    let mut r = String::new();
    let mut i: usize = 0;
    while i < parts.len()
        invariant
            i <= parts@.len(),
            r@ == join_view(string_views(parts@).take(i as int), sep@),
        decreases parts@.len() - i,
    {
        let ghost views = string_views(parts@);
        assert(views.take(i + 1).drop_last() =~= views.take(i as int));
        if i > 0 {
            r.append(sep);
        } else {
            assert(views.take(1) =~= seq![views[0]]);
        }
        r.append(parts[i].as_str());
        i = i + 1;
    }
    assert(string_views(parts@).take(parts@.len() as int) =~= string_views(parts@));
    r
}

} // verus!
