//! Small verified string tools: decimal rendering of integers, character
//! extraction, and first-occurrence substring search.

use vstd::prelude::*;

verus! {

/// The decimal digit character for a value below ten.
pub open spec fn dec_digit(d: int) -> char {
    if d == 0 {
        '0'
    } else if d == 1 {
        '1'
    } else if d == 2 {
        '2'
    } else if d == 3 {
        '3'
    } else if d == 4 {
        '4'
    } else if d == 5 {
        '5'
    } else if d == 6 {
        '6'
    } else if d == 7 {
        '7'
    } else if d == 8 {
        '8'
    } else {
        '9'
    }
}

/// The decimal rendering of a natural number, most significant digit
/// first, no leading zeroes (a lone zero for zero).
pub open spec fn dec_of(n: nat) -> Seq<char>
    decreases n,
{
    if n < 10 {
        seq![dec_digit(n as int)]
    } else {
        dec_of(n / 10).push(dec_digit((n % 10) as int))
    }
}

/// One decimal digit as a string slice.
fn dec_digit_str(d: u64) -> (r: &'static str)
    requires
        d < 10,
    ensures
        r@ == seq![dec_digit(d as int)],
{
    proof {
        reveal_strlit("0");
        reveal_strlit("1");
        reveal_strlit("2");
        reveal_strlit("3");
        reveal_strlit("4");
        reveal_strlit("5");
        reveal_strlit("6");
        reveal_strlit("7");
        reveal_strlit("8");
        reveal_strlit("9");
    }
    match d {
        0 => "0",
        1 => "1",
        2 => "2",
        3 => "3",
        4 => "4",
        5 => "5",
        6 => "6",
        7 => "7",
        8 => "8",
        _ => "9",
    }
}

/// Renders an integer in decimal, as timestamps and intervals appear in
/// wire commands.
pub fn u64_to_dec(n: u64) -> (r: String)
    ensures
        r@ == dec_of(n as nat),
    decreases n,
{
    if n < 10 {
        dec_digit_str(n).to_owned()
    } else {
        let mut s = u64_to_dec(n / 10);
        s.append(dec_digit_str(n % 10));
        s
    }
}

/// The characters of a string slice, one by one.
pub fn chars_vec(s: &str) -> (v: Vec<char>)
    ensures
        v@ == s@,
{
    let n = s.unicode_len();
    let mut v: Vec<char> = Vec::new();
    for i in 0..n
        invariant
            n == s@.len(),
            v@ =~= s@.subrange(0, i as int),
    {
        v.push(s.get_char(i));
        proof {
            assert(v@ =~= s@.subrange(0, i as int + 1));
        }
    }
    proof {
        assert(s@.subrange(0, n as int) =~= s@);
    }
    v
}

/// The first index at or after `from` where `pat` occurs in `s`, if any.
pub open spec fn first_match_from(s: Seq<char>, pat: Seq<char>, from: int) -> Option<int>
    decreases s.len() - from,
{
    if from < 0 || pat.len() == 0 || from + pat.len() > s.len() {
        None
    } else if s.subrange(from, from + pat.len()) == pat {
        Some(from)
    } else {
        first_match_from(s, pat, from + 1)
    }
}

pub proof fn lemma_first_match_from_props(s: Seq<char>, pat: Seq<char>, from: int)
    ensures
        match first_match_from(s, pat, from) {
            Some(i) => from <= i && i + pat.len() <= s.len() && s.subrange(i, i + pat.len())
                == pat,
            None => true,
        },
    decreases s.len() - from,
{
    if from < 0 || pat.len() == 0 || from + pat.len() > s.len() {
    } else if s.subrange(from, from + pat.len()) == pat {
    } else {
        lemma_first_match_from_props(s, pat, from + 1);
    }
}

/// Whether `pat` occurs at position `i` of `s`.
pub open spec fn matches_at(s: Seq<char>, pat: Seq<char>, i: int) -> bool {
    0 <= i && i + pat.len() <= s.len() && s.subrange(i, i + pat.len()) == pat
}

/// First-occurrence substring search from a starting position.
pub fn find_from(hay: &Vec<char>, pat: &Vec<char>, from: usize) -> (r: Option<usize>)
    requires
        pat@.len() >= 1,
    ensures
        match r {
            Some(i) => first_match_from(hay@, pat@, from as int) == Some(i as int),
            None => first_match_from(hay@, pat@, from as int) is None,
        },
{
    let mut i = from;
    loop
        invariant
            from <= i,
            pat@.len() >= 1,
            first_match_from(hay@, pat@, from as int) == first_match_from(hay@, pat@, i as int),
        decreases hay@.len() + 1 - i,
    {
        let hn = hay.len();
        let pn = pat.len();
        if i >= hn || hn - i < pn {
            return None;
        }
        let mut all_eq = true;
        let ghost mut mm: int = 0;
        for k in 0..pn
            invariant
                hn == hay@.len(),
                pn == pat@.len(),
                i + pn <= hn,
                all_eq ==> forall|j: int| 0 <= j < k ==> hay@[i + j] == pat@[j],
                !all_eq ==> 0 <= mm < pat@.len() && hay@[i + mm] != pat@[mm],
        {
            if hay[i + k] != pat[k] {
                if all_eq {
                    all_eq = false;
                    proof {
                        mm = k as int;
                    }
                }
            }
        }
        if all_eq {
            proof {
                assert(hay@.subrange(i as int, i as int + pat@.len() as int) =~= pat@);
            }
            return Some(i);
        }
        proof {
            assert(hay@.subrange(i as int, i as int + pat@.len() as int)[mm] == hay@[i + mm]);
            assert(hay@.subrange(i as int, i as int + pat@.len() as int) != pat@);
        }
        i = i + 1;
    }
}

/// Whether two character vectors hold the same characters.
pub fn chars_eq(a: &Vec<char>, b: &Vec<char>) -> (r: bool)
    ensures
        r == (a@ == b@),
{
    if a.len() != b.len() {
        return false;
    }
    let n = a.len();
    for k in 0..n
        invariant
            n == a@.len() == b@.len(),
            forall|j: int| 0 <= j < k ==> a@[j] == b@[j],
    {
        if a[k] != b[k] {
            return false;
        }
    }
    proof {
        assert(a@ =~= b@);
    }
    true
}

/// The text between the first occurrence of `marker` and the next
/// occurrence of `terminator` after it, if both occur.
pub open spec fn extract_after(
    s: Seq<char>,
    marker: Seq<char>,
    terminator: Seq<char>,
) -> Option<Seq<char>> {
    match first_match_from(s, marker, 0) {
        Some(i) => {
            let start = i + marker.len();
            match first_match_from(s, terminator, start) {
                Some(e) => Some(s.subrange(start, e)),
                None => None,
            }
        },
        None => None,
    }
}

/// Extracts the text between `marker` and the next `terminator`.
pub fn extract_between(s: &str, marker: &str, terminator: &str) -> (r: Option<String>)
    requires
        marker@.len() >= 1,
        terminator@.len() >= 1,
    ensures
        match r {
            Some(out) => extract_after(s@, marker@, terminator@) == Some(out@),
            None => extract_after(s@, marker@, terminator@) is None,
        },
{
    let cs = chars_vec(s);
    let mk = chars_vec(marker);
    let tm = chars_vec(terminator);
    let total = cs.len();
    match find_from(&cs, &mk, 0) {
        Some(i) => {
            proof {
                lemma_first_match_from_props(s@, marker@, 0);
                assert(i + mk@.len() <= total);
            }
            let start = i + mk.len();
            match find_from(&cs, &tm, start) {
                Some(e) => {
                    proof {
                        lemma_first_match_from_props(s@, terminator@, start as int);
                    }
                    let piece = s.substring_char(start, e);
                    Some(piece.to_owned())
                },
                None => None,
            }
        },
        None => None,
    }
}

} // verus!
