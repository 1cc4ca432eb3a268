//! Encodings used on conversation records.
//!
//! A conversation stores its ordered message references as one
//! comma-delimited string of decimal ids; a trailing separator is produced
//! on write and empty reference tokens are ignored on read.  Tag lists are
//! comma-delimited strings as well; the archive command accepts its tags
//! space-delimited and stores them with commas.

use vstd::prelude::*;
use vstd::string::StrSliceExecFns;
use vstd::string::StringExecFns;

verus! {

pub open spec fn is_dec_digit(c: char) -> bool {
    48 <= (c as u32) <= 57
}

pub open spec fn dec_digit_val(c: char) -> int {
    (c as u32) - 48
}

pub open spec fn dec_digit_char(d: int) -> char {
    if d == 0 {
        '0'
    } else if d == 1 {
        '1'
    } else if d == 2 {
        '2'
    } else if d == 3 {
        '3'
    } else if d == 4 {
        '4'
    } else if d == 5 {
        '5'
    } else if d == 6 {
        '6'
    } else if d == 7 {
        '7'
    } else if d == 8 {
        '8'
    } else {
        '9'
    }
}

/// Decimal representation of `n`, most significant digit first, no leading
/// zeros (except for `n == 0` itself).
pub open spec fn dec_rep(n: nat) -> Seq<char>
    decreases n,
{
    if n < 10 {
        seq![dec_digit_char(n as int)]
    } else {
        dec_rep(n / 10).push(dec_digit_char((n % 10) as int))
    }
}

fn dec_digit_lit(d: u64) -> (s: &'static str)
    requires
        d < 10,
    ensures
        s@ == seq![dec_digit_char(d as int)],
{
    proof {
        reveal_strlit("0");
        reveal_strlit("1");
        reveal_strlit("2");
        reveal_strlit("3");
        reveal_strlit("4");
        reveal_strlit("5");
        reveal_strlit("6");
        reveal_strlit("7");
        reveal_strlit("8");
        reveal_strlit("9");
    }
    let s = if d == 0 {
        "0"
    } else if d == 1 {
        "1"
    } else if d == 2 {
        "2"
    } else if d == 3 {
        "3"
    } else if d == 4 {
        "4"
    } else if d == 5 {
        "5"
    } else if d == 6 {
        "6"
    } else if d == 7 {
        "7"
    } else if d == 8 {
        "8"
    } else {
        "9"
    };
    proof {
        assert(s@ =~= seq![dec_digit_char(d as int)]);
    }
    s
}

/// Decimal formatting, e.g. `fmt_u64(1024)` is `"1024"`.
pub fn fmt_u64(n: u64) -> (s: String)
    ensures
        s@ == dec_rep(n as nat),
    decreases n,
{
    if n < 10 {
        let mut s = String::new();
        s.append(dec_digit_lit(n));
        proof {
            assert(s@ =~= dec_rep(n as nat));
        }
        s
    } else {
        let mut s = fmt_u64(n / 10);
        s.append(dec_digit_lit(n % 10));
        proof {
            assert(s@ =~= dec_rep(n as nat));
        }
        s
    }
}

/// The stored form of an ordered id list: each id in decimal, each followed
/// by one comma (so a trailing separator is always produced).
pub open spec fn encode_ids(ids: Seq<u64>) -> Seq<char>
    decreases ids.len(),
{
    if ids.len() == 0 {
        Seq::empty()
    } else {
        dec_rep(ids[0] as nat) + seq![','] + encode_ids(ids.drop_first())
    }
}

pub proof fn lemma_encode_ids_push(ids: Seq<u64>, id: u64)
    ensures
        encode_ids(ids.push(id)) == encode_ids(ids) + dec_rep(id as nat) + seq![','],
    decreases ids.len(),
{
    if ids.len() == 0 {
        assert(ids.push(id).drop_first() =~= Seq::<u64>::empty());
        assert(ids.push(id)[0] == id);
        assert(encode_ids(ids.push(id)) == dec_rep(id as nat) + seq![','] + encode_ids(
            Seq::<u64>::empty(),
        ));
        assert(encode_ids(ids.push(id)) =~= encode_ids(ids) + dec_rep(id as nat) + seq![',']);
    } else {
        assert(ids.push(id).drop_first() =~= ids.drop_first().push(id));
        lemma_encode_ids_push(ids.drop_first(), id);
        assert(encode_ids(ids.push(id)) =~= encode_ids(ids) + dec_rep(id as nat) + seq![',']);
    }
}

/// Writes the delimited reference string for an ordered id list.
pub fn encode_message_ids(ids: &Vec<u64>) -> (s: String)
    ensures
        s@ == encode_ids(ids@),
{
    let mut s = String::new();
    let mut i: usize = 0;
    proof {
        assert(ids@.take(0) =~= Seq::<u64>::empty());
    }
    while i < ids.len()
        invariant
            i <= ids.len(),
            s@ == encode_ids(ids@.take(i as int)),
        decreases ids.len() - i,
    {
        let part = fmt_u64(ids[i]);
        s.append(part.as_str());
        s.append(",");
        proof {
            reveal_strlit(",");
            assert(","@ =~= seq![',']);
            lemma_encode_ids_push(ids@.take(i as int), ids@[i as int]);
            assert(ids@.take(i + 1) =~= ids@.take(i as int).push(ids@[i as int]));
            assert(s@ =~= encode_ids(ids@.take(i + 1)));
        }
        i += 1;
    }
    proof {
        assert(ids@.take(ids@.len() as int) =~= ids@);
    }
    s
}

/// Reference-list parsing, one character at a time.  `cur` is the value of
/// the digits read since the last separator (`None`: no digits pending);
/// `acc` are the ids already read.  Separators with no pending digits are
/// ignored, which makes the trailing separator (and any empty token)
/// harmless; any non-digit, non-separator character, or an id overflowing
/// 64 bits, rejects the whole string.
pub open spec fn parse_from(s: Seq<char>, cur: Option<u64>, acc: Seq<u64>) -> Option<Seq<u64>>
    decreases s.len(),
{
    if s.len() == 0 {
        match cur {
            None => Some(acc),
            Some(v) => Some(acc.push(v)),
        }
    } else {
        let c = s[0];
        if c == ',' {
            match cur {
                None => parse_from(s.drop_first(), None, acc),
                Some(v) => parse_from(s.drop_first(), None, acc.push(v)),
            }
        } else if is_dec_digit(c) {
            let base: int = match cur {
                None => 0,
                Some(v) => v as int,
            };
            let nv = base * 10 + dec_digit_val(c);
            if nv > u64::MAX {
                None
            } else {
                parse_from(s.drop_first(), Some(nv as u64), acc)
            }
        } else {
            None
        }
    }
}

/// The ids a stored reference string denotes, if it is well-formed.
pub open spec fn parse_ids(s: Seq<char>) -> Option<Seq<u64>> {
    parse_from(s, None, Seq::empty())
}

proof fn lemma_dec_digit_char_val(d: int)
    requires
        0 <= d < 10,
    ensures
        is_dec_digit(dec_digit_char(d)),
        dec_digit_val(dec_digit_char(d)) == d,
        dec_digit_char(d) != ',',
{
}

/// Reading the decimal digits of `n` from a no-digits-pending state leaves
/// `n` pending.
proof fn lemma_parse_number(n: u64, t: Seq<char>, acc: Seq<u64>)
    ensures
        parse_from(dec_rep(n as nat) + t, None, acc) == parse_from(t, Some(n), acc),
    decreases n,
{
    if n < 10 {
        let s = dec_rep(n as nat) + t;
        lemma_dec_digit_char_val(n as int);
        assert(s[0] == dec_digit_char(n as int));
        assert(s.drop_first() =~= t);
    } else {
        let last = dec_digit_char((n as nat % 10) as int);
        lemma_dec_digit_char_val((n as nat % 10) as int);
        assert(dec_rep(n as nat) + t =~= dec_rep(n as nat / 10) + (seq![last] + t));
        lemma_parse_number(n / 10, seq![last] + t, acc);
        let s2 = seq![last] + t;
        assert(s2[0] == last);
        assert(s2.drop_first() =~= t);
        assert((n / 10) as int * 10 + (n % 10) as int == n as int) by {
            vstd::arithmetic::div_mod::lemma_fundamental_div_mod(n as int, 10);
        }
    }
}

/// Reading an encoded id list from a no-digits-pending state appends
/// exactly those ids.
proof fn lemma_parse_encode(ids: Seq<u64>, t: Seq<char>, acc: Seq<u64>)
    ensures
        parse_from(encode_ids(ids) + t, None, acc) == parse_from(t, None, acc + ids),
    decreases ids.len(),
{
    if ids.len() == 0 {
        assert(encode_ids(ids) + t =~= t);
        assert(acc + ids =~= acc);
    } else {
        let rest = ids.drop_first();
        let tail = seq![','] + (encode_ids(rest) + t);
        assert(encode_ids(ids) + t =~= dec_rep(ids[0] as nat) + tail);
        lemma_parse_number(ids[0], tail, acc);
        assert(tail[0] == ',');
        assert(tail.drop_first() =~= encode_ids(rest) + t);
        lemma_parse_encode(rest, t, acc.push(ids[0]));
        assert(acc.push(ids[0]) + rest =~= acc + ids);
    }
}

/// Law: the reference-list encoding round-trips.  Whatever id list a
/// conversation was written with is exactly what parsing its stored string
/// yields.
pub proof fn lemma_parse_encode_round_trip(ids: Seq<u64>)
    ensures
        parse_ids(encode_ids(ids)) == Some(ids),
{
    lemma_parse_encode(ids, Seq::empty(), Seq::empty());
    assert(encode_ids(ids) + Seq::<char>::empty() =~= encode_ids(ids));
    assert(Seq::<u64>::empty() + ids =~= ids);
}

/// Parses a stored reference string back into its ordered id list.
pub fn decode_message_ids(s: &str) -> (r: Option<Vec<u64>>)
    ensures
        match r {
            Some(ids) => parse_ids(s@) == Some(ids@),
            None => parse_ids(s@) is None,
        },
{
    let n = s.unicode_len();
    let mut out: Vec<u64> = Vec::new();
    let mut cur: Option<u64> = None;
    let mut i: usize = 0;
    proof {
        assert(s@.skip(0) =~= s@);
    }
    while i < n
        invariant
            i <= n,
            n == s@.len(),
            parse_ids(s@) == parse_from(s@.skip(i as int), cur, out@),
        decreases n - i,
    {
        proof {
            assert(s@.skip(i as int)[0] == s@[i as int]);
            assert(s@.skip(i as int).drop_first() =~= s@.skip(i + 1));
        }
        let c = s.get_char(i);
        if c == ',' {
            if let Some(v) = cur {
                out.push(v);
            }
            cur = None;
        } else {
            let cu = c as u32;
            if 48 <= cu && cu <= 57 {
                let d = (cu - 48) as u64;
                let base = match cur {
                    Some(v) => v,
                    None => 0,
                };
                let stepped = match base.checked_mul(10) {
                    Some(b10) => b10.checked_add(d),
                    None => None,
                };
                match stepped {
                    Some(nv) => {
                        cur = Some(nv);
                    },
                    None => {
                        return None;
                    },
                }
            } else {
                return None;
            }
        }
        i += 1;
    }
    proof {
        assert(s@.skip(n as int) =~= Seq::<char>::empty());
    }
    if let Some(v) = cur {
        out.push(v);
    }
    Some(out)
}

/// The archive command takes its tags space-delimited; they are stored
/// comma-delimited.
pub open spec fn commas_for_spaces(s: Seq<char>) -> Seq<char> {
    Seq::new(s.len(), |i: int| if s[i] == ' ' { ',' } else { s[i] })
}

/// Turns raw space-delimited tag input into the stored comma-delimited
/// form; an empty input is stored as absent, not as an empty string.
pub fn normalize_tags(raw: &str) -> (r: Option<String>)
    ensures
        raw@.len() == 0 ==> r is None,
        raw@.len() > 0 ==> (r matches Some(t) && t@ == commas_for_spaces(raw@)),
{
    let n = raw.unicode_len();
    if n == 0 {
        return None;
    }
    let mut s = String::new();
    let mut i: usize = 0;
    proof {
        assert(s@ =~= commas_for_spaces(raw@).take(0));
    }
    while i < n
        invariant
            i <= n,
            n == raw@.len(),
            s@ == commas_for_spaces(raw@).take(i as int),
        decreases n - i,
    {
        let c = raw.get_char(i);
        if c == ' ' {
            s.append(",");
            proof {
                reveal_strlit(",");
            }
        } else {
            let piece = raw.substring_char(i, i + 1);
            s.append(piece);
        }
        proof {
            assert(s@ =~= commas_for_spaces(raw@).take(i + 1));
        }
        i += 1;
    }
    proof {
        assert(commas_for_spaces(raw@).take(n as int) =~= commas_for_spaces(raw@));
    }
    Some(s)
}

/// Splitting a comma-delimited tag string: every run between separators is
/// one tag, empty runs included.
pub open spec fn split_tags_from(s: Seq<char>, cur: Seq<char>) -> Seq<Seq<char>>
    decreases s.len(),
{
    if s.len() == 0 {
        seq![cur]
    } else if s[0] == ',' {
        seq![cur] + split_tags_from(s.drop_first(), Seq::empty())
    } else {
        split_tags_from(s.drop_first(), cur.push(s[0]))
    }
}

pub open spec fn split_tags_seq(s: Seq<char>) -> Seq<Seq<char>> {
    split_tags_from(s, Seq::empty())
}

/// The display tags a stored tag field denotes: none when absent.
pub open spec fn tags_of(stored: Option<Seq<char>>) -> Seq<Seq<char>> {
    match stored {
        None => Seq::empty(),
        Some(s) => split_tags_seq(s),
    }
}

/// Splits a comma-delimited tag string into its tags.
pub fn split_tags(s: &str) -> (r: Vec<String>)
    ensures
        r.deep_view() == split_tags_seq(s@),
{
    let n = s.unicode_len();
    let mut out: Vec<String> = Vec::new();
    let mut cur = String::new();
    let mut i: usize = 0;
    proof {
        assert(s@.skip(0) =~= s@);
        assert(out.deep_view() + split_tags_from(s@, cur@) =~= split_tags_seq(s@));
    }
    while i < n
        invariant
            i <= n,
            n == s@.len(),
            split_tags_seq(s@) == out.deep_view() + split_tags_from(s@.skip(i as int), cur@),
        decreases n - i,
    {
        proof {
            assert(s@.skip(i as int)[0] == s@[i as int]);
            assert(s@.skip(i as int).drop_first() =~= s@.skip(i + 1));
        }
        let c = s.get_char(i);
        if c == ',' {
            let done = cur;
            cur = String::new();
            let ghost prev = out.deep_view();
            out.push(done);
            proof {
                assert(out.deep_view() =~= prev.push(done@));
                assert(prev + (seq![done@] + split_tags_from(s@.skip(i + 1), cur@))
                    =~= out.deep_view() + split_tags_from(s@.skip(i + 1), cur@));
            }
        } else {
            let ghost prev_cur = cur@;
            let piece = s.substring_char(i, i + 1);
            cur.append(piece);
            proof {
                assert(cur@ =~= prev_cur.push(s@[i as int]));
            }
        }
        i += 1;
    }
    proof {
        assert(s@.skip(n as int) =~= Seq::<char>::empty());
    }
    let ghost prev = out.deep_view();
    let ghost last = cur@;
    out.push(cur);
    proof {
        assert(out.deep_view() =~= prev.push(last));
        assert(prev + seq![last] =~= out.deep_view());
    }
    out
}

} // verus!
