use vstd::prelude::*;

verus! {

/// The ASCII digit for `d`, for `d < 10`.
pub open spec fn digit_char(d: nat) -> char {
    if d == 0 { '0' }
    else if d == 1 { '1' }
    else if d == 2 { '2' }
    else if d == 3 { '3' }
    else if d == 4 { '4' }
    else if d == 5 { '5' }
    else if d == 6 { '6' }
    else if d == 7 { '7' }
    else if d == 8 { '8' }
    else { '9' }
}

/// Base-ten digits of `n`, most significant first, without leading zeros.
pub open spec fn decimal(n: nat) -> Seq<char>
    decreases n,
{
    if n < 10 {
        seq![digit_char(n)]
    } else {
        decimal(n / 10).push(digit_char(n % 10))
    }
}

/// `n` in base ten, left-padded with `'0'` to at least `width` characters.
pub open spec fn padded(n: nat, width: nat) -> Seq<char> {
    let d = decimal(n);
    if d.len() >= width {
        d
    } else {
        Seq::new((width - d.len()) as nat, |i: int| '0') + d
    }
}

fn digit_str(d: u64) -> (r: &'static str)
    requires
        d < 10,
    ensures
        r@ == seq![digit_char(d as nat)],
{
    if d == 0 {
        proof { reveal_strlit("0"); }
        "0"
    } else if d == 1 {
        proof { reveal_strlit("1"); }
        "1"
    } else if d == 2 {
        proof { reveal_strlit("2"); }
        "2"
    } else if d == 3 {
        proof { reveal_strlit("3"); }
        "3"
    } else if d == 4 {
        proof { reveal_strlit("4"); }
        "4"
    } else if d == 5 {
        proof { reveal_strlit("5"); }
        "5"
    } else if d == 6 {
        proof { reveal_strlit("6"); }
        "6"
    } else if d == 7 {
        proof { reveal_strlit("7"); }
        "7"
    } else if d == 8 {
        proof { reveal_strlit("8"); }
        "8"
    } else {
        proof { reveal_strlit("9"); }
        "9"
    }
}

fn push_decimal(out: &mut String, n: u64)
    ensures
        final(out)@ == old(out)@ + decimal(n as nat),
    decreases n,
{
    if n >= 10 {
        push_decimal(out, n / 10);
    }
    out.append(digit_str(n % 10));
    proof {
        if n >= 10 {
            assert(old(out)@ + decimal(n as nat) =~= old(out)@ + decimal((n / 10) as nat) + seq![
                digit_char((n % 10) as nat),
            ]);
        } else {
            assert(n % 10 == n);
        }
    }
}

fn decimal_len(n: u64) -> (r: usize)
    ensures
        r as nat == decimal(n as nat).len(),
        r <= 20,
    decreases n,
{
    if n >= 10 {
        let k = decimal_len(n / 10);
        proof { lemma_decimal_len_bound(n as nat); }
        k + 1
    } else {
        1
    }
}

proof fn lemma_decimal_len_bound(n: nat)
    requires
        n <= u64::MAX,
    ensures
        decimal(n).len() <= 20,
        decimal(n).len() >= 1,
{
    reveal_with_fuel(pow10, 21);
    assert(pow10(20) == 100_000_000_000_000_000_000);
    lemma_decimal_len_small(n, 20);
}

proof fn lemma_decimal_len_small(n: nat, k: nat)
    requires
        n < pow10(k),
        k >= 1,
    ensures
        decimal(n).len() <= k,
        decimal(n).len() >= 1,
    decreases n,
{
    if n >= 10 {
        if k == 1 {
            reveal_with_fuel(pow10, 2);
            assert(false);
        } else {
            assert(n / 10 < pow10((k - 1) as nat)) by {
                assert(pow10(k) == 10 * pow10((k - 1) as nat));
            }
            lemma_decimal_len_small(n / 10, (k - 1) as nat);
        }
    }
}

pub open spec fn pow10(k: nat) -> nat
    decreases k,
{
    if k == 0 {
        1
    } else {
        10 * pow10((k - 1) as nat)
    }
}

/// Append `n` in base ten, zero-padded on the left to at least `width` digits.
pub fn push_padded(out: &mut String, n: u64, width: usize)
    ensures
        final(out)@ == old(out)@ + padded(n as nat, width as nat),
{
    let len = decimal_len(n);
    let ghost start = out@;
    let mut k: usize = len;
    while k < width
        invariant
            len as nat == decimal(n as nat).len(),
            len <= k,
            k <= width || k == len,
            out@ == start + Seq::new((k - len) as nat, |i: int| '0'),
        decreases width - k,
    {
        proof { reveal_strlit("0"); }
        out.append("0");
        assert(start + Seq::new((k + 1 - len) as nat, |i: int| '0') =~= start + Seq::new(
            (k - len) as nat,
            |i: int| '0',
        ) + "0"@);
        k = k + 1;
    }
    let ghost mid = out@;
    push_decimal(out, n);
    proof {
        if len >= width {
            assert(mid =~= start);
            assert(out@ =~= start + padded(n as nat, width as nat));
        } else {
            assert(k == width);
            assert(out@ =~= start + padded(n as nat, width as nat));
        }
    }
}

} // verus!

verus! {

pub open spec fn is_ascii_digit(c: char) -> bool {
    '0' <= c && c <= '9'
}

pub open spec fn digit_value(c: char) -> nat {
    (c as int - '0' as int) as nat
}

/// The number written by the digit string `s` (most significant first).
pub open spec fn digits_value(s: Seq<char>) -> nat
    decreases s.len(),
{
    if s.len() == 0 {
        0
    } else {
        digits_value(s.drop_last()) * 10 + digit_value(s.last())
    }
}

pub open spec fn all_digits(s: Seq<char>) -> bool {
    forall|i: int| 0 <= i < s.len() ==> is_ascii_digit(#[trigger] s[i])
}

/// What an unsigned decimal parser reads: the text after an optional leading `'+'`.
pub open spec fn unsigned_body(s: Seq<char>) -> Seq<char> {
    if s.len() > 0 && s[0] == '+' {
        s.skip(1)
    } else {
        s
    }
}

/// `s` read as a `u32` the way `str::parse::<u32>` reads it: an optional
/// `'+'`, then one or more ASCII digits whose value fits in a `u32`.
pub open spec fn parse_u32(s: Seq<char>) -> Option<u32> {
    let d = unsigned_body(s);
    if d.len() > 0 && all_digits(d) && digits_value(d) <= u32::MAX {
        Some(digits_value(d) as u32)
    } else {
        None
    }
}

proof fn lemma_digits_value_prefix(s: Seq<char>, k: int)
    requires
        0 <= k <= s.len(),
    ensures
        digits_value(s.take(k)) <= digits_value(s),
    decreases s.len(),
{
    if k < s.len() {
        lemma_digits_value_prefix(s.drop_last(), k);
        assert(s.drop_last().take(k) =~= s.take(k));
    } else {
        assert(s.take(k) =~= s);
    }
}

/// Parse the text of `s` from character `start` on, as `parse_u32` says.
pub fn parse_u32_from(s: &str, start: usize) -> (r: Option<u32>)
    requires
        start <= s@.len(),
    ensures
        r == parse_u32(s@.skip(start as int)),
{
    let n = s.unicode_len();
    let ghost t = s@.skip(start as int);
    let mut i = start;
    if i < n && s.get_char(i) == '+' {
        i = i + 1;
    }
    let body_start = i;
    let ghost d = s@.subrange(body_start as int, n as int);
    assert(unsigned_body(t) =~= d);
    if i == n {
        return None;
    }
    let mut acc: u64 = 0;
    while i < n
        invariant
            n == s@.len(),
            body_start <= i <= n,
            body_start < n,
            d == s@.subrange(body_start as int, n as int),
            unsigned_body(s@.skip(start as int)) == d,
            acc as nat == digits_value(d.take(i - body_start)),
            acc <= u32::MAX,
            all_digits(d.take(i - body_start)),
        decreases n - i,
    {
        let c = s.get_char(i);
        assert(d[i - body_start] == c);
        if !('0' <= c && c <= '9') {
            assert(!all_digits(d));
            return None;
        }
        let v = (c as u32 - '0' as u32) as u64;
        assert(d.take(i + 1 - body_start).drop_last() =~= d.take(i - body_start));
        acc = acc * 10 + v;
        i = i + 1;
        if acc > 0xffff_ffff {
            proof {
                lemma_digits_value_prefix(d, i - body_start);
            }
            return None;
        }
    }
    assert(d.take(n - body_start) =~= d);
    Some(acc as u32)
}

/// The sequence number that `id` carries after `prefix`, if it has one.
pub open spec fn suffix_sequence(id: Seq<char>, prefix: Seq<char>) -> Option<u32> {
    if prefix.is_prefix_of(id) {
        parse_u32(id.skip(prefix.len() as int))
    } else {
        None
    }
}

/// The largest sequence number carried by any of `ids` after `prefix`, 0 if none.
pub open spec fn highest_sequence(ids: Seq<Seq<char>>, prefix: Seq<char>) -> nat
    decreases ids.len(),
{
    if ids.len() == 0 {
        0
    } else {
        let h = highest_sequence(ids.drop_last(), prefix);
        match suffix_sequence(ids.last(), prefix) {
            Some(v) => if v > h {
                v as nat
            } else {
                h
            },
            None => h,
        }
    }
}

/// The highest sequence number in use is an upper bound of every number any
/// stored id carries after the prefix, whatever order the ids come in, and
/// (unless no id carries one) it is the number some stored id carries.
pub proof fn law_highest_sequence_is_maximum(ids: Seq<Seq<char>>, prefix: Seq<char>)
    ensures
        forall|i: int|
            0 <= i < ids.len() ==> match #[trigger] suffix_sequence(ids[i], prefix) {
                Some(v) => v <= highest_sequence(ids, prefix),
                None => true,
            },
        highest_sequence(ids, prefix) == 0 || exists|i: int|
            0 <= i < ids.len() && #[trigger] suffix_sequence(ids[i], prefix) == Some(
                highest_sequence(ids, prefix) as u32,
            ),
        highest_sequence(ids, prefix) <= u32::MAX,
    decreases ids.len(),
{
    if ids.len() > 0 {
        let init = ids.drop_last();
        law_highest_sequence_is_maximum(init, prefix);
        assert forall|i: int|
            0 <= i < ids.len() implies match #[trigger] suffix_sequence(ids[i], prefix) {
                Some(v) => v <= highest_sequence(ids, prefix),
                None => true,
            } by {
            if i < ids.len() - 1 {
                assert(ids[i] == init[i]);
                assert(match suffix_sequence(init[i], prefix) {
                    Some(v) => v <= highest_sequence(init, prefix),
                    None => true,
                });
            }
        }
        let h = highest_sequence(ids, prefix);
        if h != 0 {
            if h == highest_sequence(init, prefix) {
                let i = choose|i: int|
                    0 <= i < init.len() && #[trigger] suffix_sequence(init[i], prefix) == Some(h as u32);
                assert(ids[i] == init[i]);
            } else {
                assert(suffix_sequence(ids[ids.len() - 1], prefix) == Some(h as u32));
            }
        }
    }
}

pub open spec fn string_views(ids: Seq<String>) -> Seq<Seq<char>> {
    ids.map_values(|s: String| s@)
}

fn starts_with(s: &str, prefix: &str) -> (r: bool)
    ensures
        r == prefix@.is_prefix_of(s@),
{
    let n = s.unicode_len();
    let m = prefix.unicode_len();
    if m > n {
        return false;
    }
    let mut i: usize = 0;
    while i < m
        invariant
            m <= n,
            n == s@.len(),
            m == prefix@.len(),
            i <= m,
            forall|j: int| 0 <= j < i ==> prefix@[j] == s@[j],
        decreases m - i,
    {
        if s.get_char(i) != prefix.get_char(i) {
            return false;
        }
        i = i + 1;
    }
    true
}

fn suffix_sequence_of(id: &str, prefix: &str) -> (r: Option<u32>)
    ensures
        r == suffix_sequence(id@, prefix@),
{
    if starts_with(id, prefix) {
        parse_u32_from(id, prefix.unicode_len())
    } else {
        None
    }
}

fn highest_of(ids: &Vec<String>, prefix: &str) -> (r: u32)
    ensures
        r as nat == highest_sequence(string_views(ids@), prefix@),
{
    let mut highest: u32 = 0;
    let mut i: usize = 0;
    while i < ids.len()
        invariant
            i <= ids.len(),
            highest as nat == highest_sequence(string_views(ids@.take(i as int)), prefix@),
        decreases ids.len() - i,
    {
        assert(string_views(ids@.take(i + 1)).drop_last() =~= string_views(ids@.take(i as int)));
        match suffix_sequence_of(ids[i].as_str(), prefix) {
            Some(v) => {
                if v > highest {
                    highest = v;
                }
            },
            None => {},
        }
        i = i + 1;
    }
    assert(ids@.take(ids.len() as int) =~= ids@);
    highest
}

/// Next free sequence number for identifiers of the form `prefix` followed by
/// a number: one past the highest number in use. Errs when that number would
/// not fit in a `u32`.
pub fn next_sequence(ids: &Vec<String>, prefix: &str) -> (r: Result<u32, String>)
    ensures
        match r {
            Ok(v) => v as nat == highest_sequence(string_views(ids@), prefix@) + 1 && forall|i: int|
                0 <= i < ids@.len() ==> match #[trigger] suffix_sequence(ids@[i]@, prefix@) {
                    Some(w) => w < v,
                    None => true,
                },
            Err(msg) => highest_sequence(string_views(ids@), prefix@) == u32::MAX
                && msg@ == "ID sequence exhausted for "@ + prefix@,
        },
{
    let highest = highest_of(ids, prefix);
    proof {
        let vs = string_views(ids@);
        law_highest_sequence_is_maximum(vs, prefix@);
        assert forall|i: int| 0 <= i < ids@.len() implies match #[trigger] suffix_sequence(ids@[i]@, prefix@) {
            Some(w) => w <= highest,
            None => true,
        } by {
            assert(vs[i] == ids@[i]@);
            assert(match suffix_sequence(vs[i], prefix@) {
                Some(w) => w <= highest_sequence(vs, prefix@),
                None => true,
            });
        }
    }
    match highest.checked_add(1) {
        Some(v) => Ok(v),
        None => {
            let msg = String::from_str("ID sequence exhausted for ");
            Err(msg.concat(prefix))
        },
    }
}


/// Next free sequence number among the stored aim trial ids with `prefix`,
/// as `next_sequence` computes it; the error names aim trials.
pub fn next_aim_sequence(ids: &Vec<String>, prefix: &str) -> (r: Result<u32, String>)
    ensures
        match r {
            Ok(v) => v as nat == highest_sequence(string_views(ids@), prefix@) + 1 && forall|i: int|
                0 <= i < ids@.len() ==> match #[trigger] suffix_sequence(ids@[i]@, prefix@) {
                    Some(w) => w < v,
                    None => true,
                },
            Err(msg) => highest_sequence(string_views(ids@), prefix@) == u32::MAX
                && msg@ == "aim trial ID sequence exhausted for "@ + prefix@,
        },
{
    let highest = highest_of(ids, prefix);
    proof {
        let vs = string_views(ids@);
        law_highest_sequence_is_maximum(vs, prefix@);
        assert forall|i: int| 0 <= i < ids@.len() implies match #[trigger] suffix_sequence(ids@[i]@, prefix@) {
            Some(w) => w <= highest,
            None => true,
        } by {
            assert(vs[i] == ids@[i]@);
            assert(match suffix_sequence(vs[i], prefix@) {
                Some(w) => w <= highest_sequence(vs, prefix@),
                None => true,
            });
        }
    }
    match highest.checked_add(1) {
        Some(v) => Ok(v),
        None => {
            let msg = String::from_str("aim trial ID sequence exhausted for ");
            Err(msg.concat(prefix))
        },
    }
}

} // verus!

verus! {

/// `session_<date>_<seq, six digits>`.
pub fn next_session_id(date: &str, seq: u32) -> (r: String)
    ensures
        r@ == "session_"@ + date@ + "_"@ + padded(seq as nat, 6),
{
    let mut out = String::from_str("session_");
    out.append(date);
    out.append("_");
    push_padded(&mut out, seq as u64, 6);
    out
}

/// `config_<seq, six digits>`.
pub fn next_config_id(seq: u32) -> (r: String)
    ensures
        r@ == "config_"@ + padded(seq as nat, 6),
{
    let mut out = String::from_str("config_");
    push_padded(&mut out, seq as u64, 6);
    out
}

/// `target_<ordinal, three digits>`.
pub fn format_target_id(ordinal: u32) -> (r: String)
    ensures
        r@ == "target_"@ + padded(ordinal as nat, 3),
{
    let mut out = String::from_str("target_");
    push_padded(&mut out, ordinal as u64, 3);
    out
}

/// `aim_<date>_<seq, six digits>`: the identifier of a persisted aim trial.
pub fn aim_trial_id(date: &str, seq: u32) -> (r: String)
    ensures
        r@ == "aim_"@ + date@ + "_"@ + padded(seq as nat, 6),
{
    let mut out = String::from_str("aim_");
    out.append(date);
    out.append("_");
    push_padded(&mut out, seq as u64, 6);
    out
}

/// Where the telemetry database lives, relative to the working directory.
pub fn database_path() -> (r: String)
    ensures
        r@ == "data/sense_maxer.db"@,
{
    String::from_str("data/sense_maxer.db")
}

} // verus!
