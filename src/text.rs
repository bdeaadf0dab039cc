use vstd::prelude::*;
use vstd::string::*;

verus! {

/// Index of the first occurrence of `c` in `s`, if any.
pub open spec fn first_index_of(s: Seq<char>, c: char) -> Option<int>
    decreases s.len(),
{
    if s.len() == 0 {
        None
    } else if s[0] == c {
        Some(0)
    } else {
        match first_index_of(s.drop_first(), c) {
            Some(i) => Some(i + 1),
            None => None,
        }
    }
}

/// `pat` occurs in `s` as a contiguous run of characters.
pub open spec fn contains_sub(s: Seq<char>, pat: Seq<char>) -> bool {
    exists|i: int| 0 <= i && i + pat.len() <= s.len() && #[trigger] s.subrange(i, i + pat.len()) == pat
}

/// `"source:target"` split at its first `:`; `None` when there is no `:`.
pub open spec fn split_binding(s: Seq<char>) -> Option<(Seq<char>, Seq<char>)> {
    match first_index_of(s, ':') {
        Some(i) => Some((s.subrange(0, i), s.subrange(i + 1, s.len() as int))),
        None => None,
    }
}

/// The first two `:`-separated fields of `s`: the text before the first
/// `:`, and the text after it up to the next `:` or the end. Later fields
/// are ignored. `None` when there is no `:`.
pub open spec fn split_fields(s: Seq<char>) -> Option<(Seq<char>, Seq<char>)> {
    match split_binding(s) {
        Some(p) => Some((p.0, match first_index_of(p.1, ':') {
            Some(j) => p.1.subrange(0, j),
            None => p.1,
        })),
        None => None,
    }
}

/// `s` with every `from` replaced by `to`.
pub open spec fn replace_char(s: Seq<char>, from: char, to: char) -> Seq<char> {
    s.map_values(|c: char| if c == from { to } else { c })
}

/// Decimal digits of a natural number, most significant first.
pub open spec fn nat_digits(n: nat) -> Seq<char>
    decreases n,
{
    if n < 10 {
        seq![digit_char(n)]
    } else {
        nat_digits(n / 10).push(digit_char(n % 10))
    }
}

pub open spec fn digit_char(d: nat) -> char {
    if d == 0 { '0' }
    else if d == 1 { '1' }
    else if d == 2 { '2' }
    else if d == 3 { '3' }
    else if d == 4 { '4' }
    else if d == 5 { '5' }
    else if d == 6 { '6' }
    else if d == 7 { '7' }
    else if d == 8 { '8' }
    else { '9' }
}

/// Decimal text of an integer, with a leading `-` when negative.
pub open spec fn decimal(n: int) -> Seq<char> {
    if n < 0 {
        seq!['-'] + nat_digits((-n) as nat)
    } else {
        nat_digits(n as nat)
    }
}

fn digit_str(d: u64) -> (r: &'static str)
    requires
        d < 10,
    ensures
        r@ == seq![digit_char(d as nat)],
{
    proof {
        reveal_strlit("0");
        reveal_strlit("1");
        reveal_strlit("2");
        reveal_strlit("3");
        reveal_strlit("4");
        reveal_strlit("5");
        reveal_strlit("6");
        reveal_strlit("7");
        reveal_strlit("8");
        reveal_strlit("9");
    }
    let r = if d == 0 {
        "0"
    } else if d == 1 {
        "1"
    } else if d == 2 {
        "2"
    } else if d == 3 {
        "3"
    } else if d == 4 {
        "4"
    } else if d == 5 {
        "5"
    } else if d == 6 {
        "6"
    } else if d == 7 {
        "7"
    } else if d == 8 {
        "8"
    } else {
        "9"
    };
    assert(r@ =~= seq![digit_char(d as nat)]);
    r
}

fn nat_to_string(n: u64) -> (r: String)
    ensures
        r@ == nat_digits(n as nat),
    decreases n,
{
    if n < 10 {
        String::from_str(digit_str(n))
    } else {
        let mut r = nat_to_string(n / 10);
        r.append(digit_str(n % 10));
        r
    }
}

/// The decimal text of `n`.
pub fn i64_to_string(n: i64) -> (r: String)
    ensures
        r@ == decimal(n as int),
{
    if n < 0 {
        let m: u64 = (0 - (n as i128)) as u64;
        let mut r = String::from_str("-");
        proof {
            reveal_strlit("-");
        }
        let digits = nat_to_string(m);
        r.append(digits.as_str());
        assert(r@ =~= seq!['-'] + nat_digits((-n) as nat));
        r
    } else {
        nat_to_string(n as u64)
    }
}

/// The characters of `s`, one by one.
pub fn to_chars(s: &str) -> (v: Vec<char>)
    ensures
        v@ == s@,
{
    let n = s.unicode_len();
    let mut v: Vec<char> = Vec::new();
    let mut i: usize = 0;
    while i < n
        invariant
            n == s@.len(),
            i <= n,
            v@ == s@.subrange(0, i as int),
        decreases n - i,
    {
        let c = s.get_char(i);
        v.push(c);
        i = i + 1;
        assert(v@ =~= s@.subrange(0, i as int));
    }
    assert(v@ =~= s@);
    v
}

/// Position of the first `c` in `s`.
pub fn find_char(s: &Vec<char>, c: char) -> (r: Option<usize>)
    ensures
        match r {
            Some(i) => i < s@.len() && s@[i as int] == c && first_index_of(s@, c) == Some(i as int),
            None => first_index_of(s@, c) is None,
        },
{
    let mut i: usize = 0;
    while i < s.len()
        invariant
            i <= s@.len(),
            forall|k: int| 0 <= k < i ==> s@[k] != c,
        decreases s.len() - i,
    {
        if s[i] == c {
            proof { lemma_first_index_found(s@, c, i as int); }
            return Some(i);
        }
        i = i + 1;
    }
    proof { lemma_first_index_absent(s@, c); }
    None
}

proof fn lemma_first_index_found(s: Seq<char>, c: char, i: int)
    requires
        0 <= i < s.len(),
        s[i] == c,
        forall|k: int| 0 <= k < i ==> s[k] != c,
    ensures
        first_index_of(s, c) == Some(i),
    decreases s.len(),
{
    if i > 0 {
        assert forall|k: int| 0 <= k < i - 1 implies s.drop_first()[k] != c by {
            assert(s.drop_first()[k] == s[k + 1]);
        }
        lemma_first_index_found(s.drop_first(), c, i - 1);
    }
}

proof fn lemma_first_index_absent(s: Seq<char>, c: char)
    requires
        forall|k: int| 0 <= k < s.len() ==> s[k] != c,
    ensures
        first_index_of(s, c) is None,
    decreases s.len(),
{
    if s.len() > 0 {
        assert forall|k: int| 0 <= k < s.drop_first().len() implies s.drop_first()[k] != c by {
            assert(s.drop_first()[k] == s[k + 1]);
        }
        lemma_first_index_absent(s.drop_first(), c);
    }
}

/// Whether `pat` occurs in `s`.
pub fn contains_text(s: &str, pat: &str) -> (r: bool)
    ensures
        r == contains_sub(s@, pat@),
{
    let sc = to_chars(s);
    let pc = to_chars(pat);
    if pc.len() == 0 {
        assert(s@.subrange(0, 0 + pat@.len() as int) =~= pat@);
        return true;
    }
    let n = sc.len();
    let mut i: usize = 0;
    while i <= n && pc.len() <= n - i
        invariant
            n == sc@.len(),
            sc@ == s@,
            pc@ == pat@,
            pc@.len() > 0,
            forall|k: int| 0 <= k < i ==> #[trigger] s@.subrange(k, k + pat@.len()) != pat@,
        decreases n + 1 - i,
    {
        let mut j: usize = 0;
        let mut same = true;
        while j < pc.len()
            invariant
                sc@ == s@,
                pc@ == pat@,
                n == sc@.len(),
                i + pc@.len() <= n,
                j <= pc@.len(),
                same == (forall|t: int| 0 <= t < j ==> sc@[i + t] == pc@[t]),
            decreases pc.len() - j,
        {
            if sc[i + j] != pc[j] {
                same = false;
            }
            j = j + 1;
        }
        if same {
            assert(s@.subrange(i as int, i + pat@.len()) =~= pat@);
            return true;
        }
        assert(s@.subrange(i as int, i + pat@.len()) != pat@) by {
            let t = choose|t: int| 0 <= t < pc@.len() && sc@[i + t] != pc@[t];
            assert(s@.subrange(i as int, i + pat@.len())[t] == sc@[i + t]);
        }
        i = i + 1;
    }
    assert(!contains_sub(s@, pat@)) by {
        if contains_sub(s@, pat@) {
            let k = choose|k: int| 0 <= k && k + pat@.len() <= s@.len() && #[trigger] s@.subrange(k, k + pat@.len()) == pat@;
            assert(k < i);
        }
    }
    false
}

/// `s` split at its first `:`, as two owned strings.
pub fn split_on_colon(s: &str) -> (r: Option<(String, String)>)
    ensures
        match r {
            Some(p) => split_binding(s@) == Some((p.0@, p.1@)),
            None => split_binding(s@) is None,
        },
{
    let cs = to_chars(s);
    match find_char(&cs, ':') {
        Some(i) => {
            let n = cs.len();
            let a = String::from_str(s.substring_char(0, i));
            let b = String::from_str(s.substring_char(i + 1, n));
            Some((a, b))
        },
        None => None,
    }
}

/// The first two `:`-separated fields of `s`.
pub fn split_two_fields(s: &str) -> (r: Option<(String, String)>)
    ensures
        match r {
            Some(p) => split_fields(s@) == Some((p.0@, p.1@)),
            None => split_fields(s@) is None,
        },
{
    match split_on_colon(s) {
        Some(p) => {
            let rest = to_chars(p.1.as_str());
            match find_char(&rest, ':') {
                Some(j) => {
                    let second = String::from_str(p.1.as_str().substring_char(0, j));
                    Some((p.0, second))
                },
                None => Some(p),
            }
        },
        None => None,
    }
}

/// `s` with every `from` replaced by `to`.
pub fn replace_all(s: &str, from: char, to: char) -> (r: String)
    ensures
        r@ == replace_char(s@, from, to),
{
    let cs = to_chars(s);
    let mut out = String::new();
    let mut i: usize = 0;
    while i < cs.len()
        invariant
            cs@ == s@,
            i <= cs@.len(),
            out@ == replace_char(s@.subrange(0, i as int), from, to),
        decreases cs.len() - i,
    {
        if cs[i] == from {
            let piece = to_string_of_char(to);
            out.append(piece.as_str());
        } else {
            out.append(s.substring_char(i, i + 1));
        }
        i = i + 1;
        assert(out@ =~= replace_char(s@.subrange(0, i as int), from, to));
    }
    assert(s@.subrange(0, s@.len() as int) =~= s@);
    out
}

/// Relies on `char::to_string`: the one-character string.
#[verifier::external_body]
fn to_string_of_char(c: char) -> (r: String)
    ensures
        r@ == seq![c],
{
    c.to_string()
}

} // verus!
