use vstd::prelude::*;

verus! {

/// How many posts are fetched for a pair whose descriptor names no count.
pub const DEFAULT_FETCH_COUNT: u8 = 5;

/// The first `:` of `s` at or after `from`, or the length of `s` if there is none.
pub open spec fn find_colon(s: Seq<char>, from: int) -> int
    decreases s.len() - from,
{
    if from < 0 || from >= s.len() {
        s.len() as int
    } else if s[from] == ':' {
        from
    } else {
        find_colon(s, from + 1)
    }
}

/// The decimal value of a sequence of digits.
pub open spec fn digits_value(d: Seq<char>) -> int
    decreases d.len(),
{
    if d.len() == 0 {
        0
    } else {
        digits_value(d.drop_last()) * 10 + (d.last() as int - '0' as int)
    }
}

pub open spec fn all_digits(d: Seq<char>) -> bool {
    forall|i: int| 0 <= i < d.len() ==> '0' <= #[trigger] d[i] <= '9'
}

/// The digits of an unsigned number: its text without one leading `+`.
pub open spec fn unsigned_digits(f: Seq<char>) -> Seq<char> {
    if f.len() > 0 && f[0] == '+' {
        f.drop_first()
    } else {
        f
    }
}

/// The value of `f` read as a `u8` in decimal: an optional `+` and at least one
/// digit, at most 255.
pub open spec fn u8_value(f: Seq<char>) -> Option<int> {
    let d = unsigned_digits(f);
    if d.len() > 0 && all_digits(d) && digits_value(d) <= 255 {
        Some(digits_value(d))
    } else {
        None
    }
}

/// The owner of a descriptor `<owner>:<chat>[:<count>]`: its first field.
pub open spec fn pair_owner(s: Seq<char>) -> Seq<char> {
    s.subrange(0, find_colon(s, 0))
}

/// The chat of a descriptor: its second field, empty where there is none.
pub open spec fn pair_chat(s: Seq<char>) -> Seq<char> {
    let a = find_colon(s, 0);
    if a >= s.len() {
        seq![]
    } else {
        s.subrange(a + 1, find_colon(s, a + 1))
    }
}

/// The fetch count of a descriptor: its third field read as a `u8`, and the
/// default where it is absent or not such a number.
pub open spec fn pair_count(s: Seq<char>) -> int {
    let a = find_colon(s, 0);
    let b = find_colon(s, a + 1);
    if a >= s.len() || b >= s.len() {
        DEFAULT_FETCH_COUNT as int
    } else {
        match u8_value(s.subrange(b + 1, find_colon(s, b + 1))) {
            Some(v) => v,
            None => DEFAULT_FETCH_COUNT as int,
        }
    }
}

pub proof fn lemma_find_colon(s: Seq<char>, from: int)
    requires
        0 <= from <= s.len(),
    ensures
        from <= find_colon(s, from) <= s.len(),
        find_colon(s, from) < s.len() ==> s[find_colon(s, from)] == ':',
        forall|k: int| from <= k < find_colon(s, from) ==> s[k] != ':',
    decreases s.len() - from,
{
    if from < s.len() && s[from] != ':' {
        lemma_find_colon(s, from + 1);
    }
}

proof fn lemma_find_colon_at(s: Seq<char>, from: int, k: int)
    requires
        0 <= from <= k <= s.len(),
        forall|i: int| from <= i < k ==> s[i] != ':',
        k == s.len() || s[k] == ':',
    ensures
        find_colon(s, from) == k,
    decreases k - from,
{
    if from < k {
        lemma_find_colon_at(s, from + 1, k);
    }
}

pub open spec fn colon_free(s: Seq<char>) -> bool {
    forall|i: int| 0 <= i < s.len() ==> s[i] != ':'
}

/// A descriptor written from an owner and a chat without `:`, with or without
/// a count, decodes to that owner and chat; the count is the written one where
/// it reads as a `u8`, else the default.
pub proof fn lemma_descriptor_fields(owner: Seq<char>, chat: Seq<char>, count: Seq<char>)
    requires
        colon_free(owner),
        colon_free(chat),
        colon_free(count),
    ensures
        pair_owner(owner + seq![':'] + chat) == owner,
        pair_chat(owner + seq![':'] + chat) == chat,
        pair_count(owner + seq![':'] + chat) == DEFAULT_FETCH_COUNT as int,
        pair_owner(owner + seq![':'] + chat + seq![':'] + count) == owner,
        pair_chat(owner + seq![':'] + chat + seq![':'] + count) == chat,
        pair_count(owner + seq![':'] + chat + seq![':'] + count) == match u8_value(count) {
            Some(v) => v,
            None => DEFAULT_FETCH_COUNT as int,
        },
{
    let a = owner.len() as int;
    let s2 = owner + seq![':'] + chat;
    let b = s2.len() as int;
    let s3 = s2 + seq![':'] + count;
    assert forall|i: int| 0 <= i < a implies s2[i] != ':' && s3[i] != ':' by {
        assert(s2[i] == owner[i] && s3[i] == owner[i]);
    }
    assert(s2[a] == ':' && s3[a] == ':');
    lemma_find_colon_at(s2, 0, a);
    lemma_find_colon_at(s3, 0, a);
    assert forall|i: int| a + 1 <= i < b implies s2[i] != ':' && s3[i] != ':' by {
        assert(s2[i] == chat[i - a - 1] && s3[i] == chat[i - a - 1]);
    }
    assert(s3[b] == ':');
    lemma_find_colon_at(s2, a + 1, b);
    lemma_find_colon_at(s3, a + 1, b);
    assert forall|i: int| b + 1 <= i < s3.len() implies s3[i] != ':' by {
        assert(s3[i] == count[i - b - 1]);
    }
    lemma_find_colon_at(s3, b + 1, s3.len() as int);
    assert(s2.subrange(0, a) =~= owner);
    assert(s3.subrange(0, a) =~= owner);
    assert(s2.subrange(a + 1, b) =~= chat);
    assert(s3.subrange(a + 1, b) =~= chat);
    assert(s3.subrange(b + 1, s3.len() as int) =~= count);
}

/// The first `:` at or after `from`.
fn colon_from(s: &str, n: usize, from: usize) -> (r: usize)
    requires
        n == s@.len(),
        from <= n,
    ensures
        r == find_colon(s@, from as int),
        from <= r <= n,
{
    proof {
        lemma_find_colon(s@, from as int);
    }
    let mut i: usize = from;
    while i < n
        invariant
            n == s@.len(),
            from <= i <= n,
            find_colon(s@, i as int) == find_colon(s@, from as int),
        decreases n - i,
    {
        if s.get_char(i) == ':' {
            return i;
        }
        i += 1;
    }
    i
}

/// Reads `f` as a `u8` in decimal, as `str::parse` does.
pub fn parse_u8(f: &str) -> (r: Option<u8>)
    ensures
        match r {
            Some(v) => u8_value(f@) == Some(v as int),
            None => u8_value(f@) is None,
        },
{
    let n = f.unicode_len();
    let mut start: usize = 0;
    if n > 0 && f.get_char(0) == '+' {
        start = 1;
    }
    let ghost d = unsigned_digits(f@);
    assert(d =~= f@.subrange(start as int, n as int));
    if start >= n {
        return None;
    }
    let mut acc: u32 = 0;
    let mut too_big = false;
    let mut i: usize = start;
    while i < n
        invariant
            n == f@.len(),
            start <= i <= n,
            d == f@.subrange(start as int, n as int),
            d == unsigned_digits(f@),
            all_digits(f@.subrange(start as int, i as int)),
            !too_big ==> acc as int == digits_value(f@.subrange(start as int, i as int)),
            !too_big ==> acc <= 255,
            too_big ==> digits_value(f@.subrange(start as int, i as int)) > 255,
            digits_value(f@.subrange(start as int, i as int)) >= 0,
        decreases n - i,
    {
        let c = f.get_char(i);
        if c < '0' || c > '9' {
            assert(d[i - start] == c);
            return None;
        }
        let ghost prev = f@.subrange(start as int, i as int);
        let ghost next = f@.subrange(start as int, i + 1);
        assert(next.drop_last() =~= prev);
        assert(next.last() == c);
        let digit = (c as u32) - ('0' as u32);
        proof {
            let pv = digits_value(prev);
            assert(pv * 10 >= pv) by (nonlinear_arith)
                requires
                    pv >= 0,
            ;
        }
        if !too_big {
            acc = acc * 10 + digit;
            if acc > 255 {
                too_big = true;
            }
        }
        i += 1;
    }
    assert(f@.subrange(start as int, n as int) == d);
    if too_big {
        None
    } else {
        Some(acc as u8)
    }
}

/// Splits a descriptor `<owner>:<chat>[:<count>]` into owner, chat and fetch
/// count.
pub fn make_pair(pair: &str) -> (r: (String, String, u8))
    ensures
        r.0@ == pair_owner(pair@),
        r.1@ == pair_chat(pair@),
        r.2 as int == pair_count(pair@),
{
    let n = pair.unicode_len();
    let a = colon_from(pair, n, 0);
    let owner = pair.substring_char(0, a).to_owned();
    if a >= n {
        return (owner, String::new(), DEFAULT_FETCH_COUNT);
    }
    let b = colon_from(pair, n, a + 1);
    let chat = pair.substring_char(a + 1, b).to_owned();
    if b >= n {
        return (owner, chat, DEFAULT_FETCH_COUNT);
    }
    let c = colon_from(pair, n, b + 1);
    let count = match parse_u8(pair.substring_char(b + 1, c)) {
        Some(v) => v,
        None => DEFAULT_FETCH_COUNT,
    };
    (owner, chat, count)
}

/// Decodes every entry of the pair registry, in order.
pub fn get_pairs(entries: &Vec<String>) -> (r: Vec<(String, String, u8)>)
    ensures
        r@.len() == entries@.len(),
        forall|i: int|
            0 <= i < entries@.len() ==> {
                &&& (#[trigger] r@[i]).0@ == pair_owner(entries@[i]@)
                &&& r@[i].1@ == pair_chat(entries@[i]@)
                &&& r@[i].2 as int == pair_count(entries@[i]@)
            },
{
    let mut out: Vec<(String, String, u8)> = Vec::new();
    let mut i: usize = 0;
    while i < entries.len()
        invariant
            i <= entries@.len(),
            out@.len() == i,
            forall|k: int|
                0 <= k < i ==> {
                    &&& (#[trigger] out@[k]).0@ == pair_owner(entries@[k]@)
                    &&& out@[k].1@ == pair_chat(entries@[k]@)
                    &&& out@[k].2 as int == pair_count(entries@[k]@)
                },
        decreases entries@.len() - i,
    {
        out.push(make_pair(entries[i].as_str()));
        i += 1;
    }
    out
}

} // verus!
