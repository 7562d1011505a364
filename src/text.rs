//! Program text: whitespace-separated tokens, index literals, and decimals.
use vstd::prelude::*;

verus! {

/// ASCII whitespace: space, tab, line feed, form feed and carriage return.
pub open spec fn is_blank(c: char) -> bool {
    c == ' ' || c == '\t' || c == '\n' || c == '\u{c}' || c == '\r'
}

/// The maximal runs of non-blank characters of `s`, from left to right.
pub open spec fn words(s: Seq<char>) -> Seq<Seq<char>>
    decreases s.len(),
{
    if s.len() == 0 {
        Seq::empty()
    } else {
        let p = words(s.drop_last());
        let c = s.last();
        if is_blank(c) {
            p
        } else if s.len() >= 2 && !is_blank(s[s.len() - 2]) {
            p.update(p.len() - 1, p.last().push(c))
        } else {
            p.push(seq![c])
        }
    }
}

/// The value of a run of decimal digits.
pub open spec fn digits_value(d: Seq<char>) -> nat
    decreases d.len(),
{
    if d.len() == 0 {
        0
    } else {
        (digits_value(d.drop_last()) * 10 + (d.last() as int - '0' as int)) as nat
    }
}

pub open spec fn is_digit(c: char) -> bool {
    '0' <= c <= '9'
}

/// `s` reads as an unsigned integer that fits a `usize`: an optional `+`, then
/// one or more decimal digits.
pub open spec fn unsigned_of(s: Seq<char>) -> Option<usize> {
    let d = unsigned_digits(s);
    if d.len() > 0 && all_digits(d) && digits_value(d) <= usize::MAX {
        Some(digits_value(d) as usize)
    } else {
        None
    }
}

/// `s` without its leading `+`, if any.
pub open spec fn unsigned_digits(s: Seq<char>) -> Seq<char> {
    if s.len() > 0 && s[0] == '+' {
        s.drop_first()
    } else {
        s
    }
}

pub open spec fn all_digits(d: Seq<char>) -> bool {
    forall|i: int| 0 <= i < d.len() ==> is_digit(#[trigger] d[i])
}

/// The decimal digits of `n`.
pub open spec fn decimal_of(n: nat) -> Seq<char>
    decreases n,
{
    if n < 10 {
        seq![digit_char(n)]
    } else {
        decimal_of(n / 10).push(digit_char(n % 10))
    }
}

pub open spec fn digit_char(d: nat) -> char {
    if d == 0 {
        '0'
    } else if d == 1 {
        '1'
    } else if d == 2 {
        '2'
    } else if d == 3 {
        '3'
    } else if d == 4 {
        '4'
    } else if d == 5 {
        '5'
    } else if d == 6 {
        '6'
    } else if d == 7 {
        '7'
    } else if d == 8 {
        '8'
    } else {
        '9'
    }
}

/// Splits `program` at ASCII whitespace into its tokens.
pub fn tokenize<'a>(program: &'a str) -> (r: Vec<&'a str>)
    ensures
        r@.map_values(|t: &str| t@) == words(program@),
{
    let n = program.unicode_len();
    let ghost s = program@;
    let mut done: Vec<&'a str> = Vec::new();
    let mut start: usize = 0;
    let mut inside = false;
    let mut i: usize = 0;
    while i < n
        invariant
            n == s.len(),
            s == program@,
            i <= n,
            start <= i,
            inside <==> (i > 0 && !is_blank(s[i - 1])),
            inside ==> start < i,
            words(s.take(i as int)) == done@.map_values(|t: &str| t@) + if inside {
                seq![s.subrange(start as int, i as int)]
            } else {
                Seq::empty()
            },
        decreases n - i,
    {
        let c = program.get_char(i);
        let ghost before = done@.map_values(|t: &str| t@);
        assert(s.take(i as int + 1).drop_last() =~= s.take(i as int));
        if c == ' ' || c == '\t' || c == '\n' || c == '\u{c}' || c == '\r' {
            if inside {
                let t = program.substring_char(start, i);
                done.push(t);
                assert(done@.map_values(|t: &str| t@) =~= before.push(t@));
            }
            inside = false;
        } else {
            if inside {
                assert(s.subrange(start as int, i as int + 1) =~= s.subrange(start as int, i as int).push(c));
            } else {
                start = i;
                assert(s.subrange(start as int, i as int + 1) =~= seq![c]);
            }
            inside = true;
        }
        i = i + 1;
    }
    assert(s.take(n as int) =~= s);
    if inside {
        let t = program.substring_char(start, n);
        let ghost before = done@.map_values(|t: &str| t@);
        done.push(t);
        assert(done@.map_values(|t: &str| t@) =~= before.push(t@));
    } else {
        assert(done@.map_values(|t: &str| t@) + Seq::empty() =~= done@.map_values(|t: &str| t@));
    }
    done
}

/// Whether two strings hold the same characters.
pub fn same_text(a: &str, b: &str) -> (r: bool)
    ensures
        r == (a@ == b@),
{
    let n = a.unicode_len();
    if n != b.unicode_len() {
        return false;
    }
    let mut i: usize = 0;
    while i < n
        invariant
            n == a@.len(),
            n == b@.len(),
            i <= n,
            forall|j: int| 0 <= j < i ==> a@[j] == b@[j],
        decreases n - i,
    {
        if a.get_char(i) != b.get_char(i) {
            return false;
        }
        i = i + 1;
    }
    assert(a@ =~= b@);
    true
}

proof fn lemma_digits_prefix(d: Seq<char>, j: int)
    requires
        0 <= j <= d.len(),
        forall|i: int| 0 <= i < d.len() ==> is_digit(#[trigger] d[i]),
    ensures
        digits_value(d.take(j)) <= digits_value(d),
    decreases d.len(),
{
    if j < d.len() {
        assert(d.drop_last().take(j) =~= d.take(j));
        lemma_digits_prefix(d.drop_last(), j);
    } else {
        assert(d.take(j) =~= d);
    }
}

/// Reads `s[from..to]` as an unsigned integer, as `unsigned_of` says.
pub fn parse_unsigned(s: &str, from: usize, to: usize) -> (r: Option<usize>)
    requires
        from <= to <= s@.len(),
    ensures
        r == unsigned_of(s@.subrange(from as int, to as int)),
{
    let ghost t = s@.subrange(from as int, to as int);
    let mut a = from;
    if from < to && s.get_char(from) == '+' {
        a = from + 1;
    }
    let ghost d = s@.subrange(a as int, to as int);
    assert(d =~= unsigned_digits(t));
    if a == to {
        return None;
    }
    let mut v: usize = 0;
    let mut j: usize = a;
    while j < to
        invariant
            a <= j <= to <= s@.len(),
            d == s@.subrange(a as int, to as int),
            t == s@.subrange(from as int, to as int),
            d == unsigned_digits(t),
            v == digits_value(d.take(j - a)),
            forall|k: int| 0 <= k < j - a ==> is_digit(#[trigger] d[k]),
        decreases to - j,
    {
        let c = s.get_char(j);
        assert(d[j - a] == c);
        if !('0' <= c && c <= '9') {
            assert(!is_digit(d[j - a]));
            assert(!all_digits(d));
            return None;
        }
        let x = (c as u32 - '0' as u32) as usize;
        assert(d.take(j - a + 1).drop_last() =~= d.take(j - a));
        if v > (usize::MAX - x) / 10 {
            proof {
                assert(v * 10 + x > usize::MAX) by (nonlinear_arith)
                    requires
                        v > (usize::MAX - x) / 10,
                        x <= 9,
                ;
                if all_digits(d) {
                    lemma_digits_prefix(d, j - a + 1);
                }
            }
            return None;
        }
        assert(v * 10 + x <= usize::MAX) by (nonlinear_arith)
            requires
                v <= (usize::MAX - x) / 10,
                x <= 9,
        ;
        v = v * 10 + x;
        j = j + 1;
    }
    assert(d.take(to - a) =~= d);
    assert(all_digits(d));
    Some(v)
}

fn digit_text(d: usize) -> (r: &'static str)
    requires
        d < 10,
    ensures
        r@ == seq![digit_char(d as nat)],
{
    proof {
        reveal_strlit("0");
        reveal_strlit("1");
        reveal_strlit("2");
        reveal_strlit("3");
        reveal_strlit("4");
        reveal_strlit("5");
        reveal_strlit("6");
        reveal_strlit("7");
        reveal_strlit("8");
        reveal_strlit("9");
    }
    let r = if d == 0 {
        "0"
    } else if d == 1 {
        "1"
    } else if d == 2 {
        "2"
    } else if d == 3 {
        "3"
    } else if d == 4 {
        "4"
    } else if d == 5 {
        "5"
    } else if d == 6 {
        "6"
    } else if d == 7 {
        "7"
    } else if d == 8 {
        "8"
    } else {
        "9"
    };
    assert(r@ =~= seq![digit_char(d as nat)]);
    r
}

/// The decimal form of `n`.
pub fn decimal(n: usize) -> (r: String)
    ensures
        r@ == decimal_of(n as nat),
    decreases n,
{
    if n < 10 {
        String::from_str(digit_text(n))
    } else {
        let mut s = decimal(n / 10);
        s.append(digit_text(n % 10));
        s
    }
}

} // verus!
