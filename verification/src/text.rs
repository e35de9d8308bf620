//! Text helpers: trimming, searching, comparing, decimal numerals.
use vstd::prelude::*;
use vstd::string::StrSliceExecFns;
use vstd::string::StringExecFns;
use vstd::utf8::encode_utf8;

verus! {

/// The code points that Unicode gives the property `White_Space`.
pub open spec fn is_white_space(c: char) -> bool {
    let u = c as u32;
    ||| 0x09 <= u <= 0x0d
    ||| u == 0x20
    ||| u == 0x85
    ||| u == 0xa0
    ||| u == 0x1680
    ||| 0x2000 <= u <= 0x200a
    ||| u == 0x2028
    ||| u == 0x2029
    ||| u == 0x202f
    ||| u == 0x205f
    ||| u == 0x3000
}

/// `s` without the run of characters at its front that satisfy `skip`.
pub open spec fn trim_front(s: Seq<char>, skip: spec_fn(char) -> bool) -> Seq<char>
    decreases s.len(),
{
    if s.len() > 0 && skip(s.first()) {
        trim_front(s.drop_first(), skip)
    } else {
        s
    }
}

/// `s` without the run of characters at its back that satisfy `skip`.
pub open spec fn trim_back(s: Seq<char>, skip: spec_fn(char) -> bool) -> Seq<char>
    decreases s.len(),
{
    if s.len() > 0 && skip(s.last()) {
        trim_back(s.drop_last(), skip)
    } else {
        s
    }
}

/// `s` without leading and trailing white space.
pub open spec fn trimmed(s: Seq<char>) -> Seq<char> {
    trim_back(trim_front(s, |c: char| is_white_space(c)), |c: char| is_white_space(c))
}

/// The characters of a text.
pub(crate) fn characters(s: &str) -> (r: Vec<char>)
    ensures
        r@ == s@,
{
    let mut out: Vec<char> = Vec::new();
    for c in it: s.chars()
        invariant
            it.seq() == s@,
            out@ == s@.take(it.index() as int),
    {
        out.push(c);
    }
    assert(s@.take(s@.len() as int) =~= s@);
    out
}

/// Whether a character is white space.
fn is_white(c: char) -> (r: bool)
    ensures
        r == is_white_space(c),
{
    let u: u32 = c as u32;
    (0x09 <= u && u <= 0x0d) || u == 0x20 || u == 0x85 || u == 0xa0 || u == 0x1680 || (0x2000 <= u
        && u <= 0x200a) || u == 0x2028 || u == 0x2029 || u == 0x202f || u == 0x205f || u == 0x3000
}

/// `s` without leading and trailing white space.
pub fn trim(s: &str) -> (r: &str)
    ensures
        r@ == trimmed(s@),
{
    let c = characters(s);
    let n: usize = c.len();
    let ghost skip = |c: char| is_white_space(c);
    let mut start: usize = 0;
    assert(s@.subrange(0, n as int) =~= s@);
    while start < n && is_white(c[start])
        invariant
            c@ == s@,
            n == c@.len(),
            start <= n,
            skip == (|c: char| is_white_space(c)),
            trim_front(s@, skip) == trim_front(s@.subrange(start as int, n as int), skip),
        decreases n - start,
    {
        let ghost rest = s@.subrange(start as int, n as int);
        assert(rest.drop_first() =~= s@.subrange(start + 1, n as int));
        start = start + 1;
    }
    let ghost front = s@.subrange(start as int, n as int);
    assert(trim_front(s@, skip) == front);
    let mut end: usize = n;
    while start < end && is_white(c[end - 1])
        invariant
            c@ == s@,
            n == c@.len(),
            start <= end <= n,
            skip == (|c: char| is_white_space(c)),
            trim_back(front, skip) == trim_back(s@.subrange(start as int, end as int), skip),
        decreases end - start,
    {
        let ghost rest = s@.subrange(start as int, end as int);
        assert(rest.drop_last() =~= s@.subrange(start as int, end - 1));
        end = end - 1;
    }
    assert(trim_back(front, skip) == s@.subrange(start as int, end as int));
    s.substring_char(start, end)
}

/// Where `c` first stands in `s`.
pub fn find_char(s: &str, c: char) -> (r: Option<usize>)
    ensures
        match r {
            Some(i) => i < s@.len() && s@[i as int] == c && forall|j: int|
                0 <= j < i ==> s@[j] != c,
            None => forall|j: int| 0 <= j < s@.len() ==> s@[j] != c,
        },
{
    let n: usize = s.unicode_len();
    let mut i: usize = 0;
    for x in it: s.chars()
        invariant
            n == s@.len(),
            it.seq() == s@,
            i == it.index(),
            forall|j: int| 0 <= j < i ==> s@[j] != c,
    {
        if x == c {
            return Some(i);
        }
        i = i + 1;
    }
    None
}

/// How many copies of `c` stand at the front of `s`.
fn leading_run(s: &str, c: char) -> (r: usize)
    ensures
        r <= s@.len(),
        s@.subrange(r as int, s@.len() as int) == trim_front(s@, |x: char| x == c),
{
    let n: usize = s.unicode_len();
    let mut i: usize = 0;
    let ghost skip = |x: char| x == c;
    assert(s@.subrange(0, s@.len() as int) =~= s@);
    for x in it: s.chars()
        invariant
            n == s@.len(),
            it.seq() == s@,
            i == it.index(),
            skip == (|x: char| x == c),
            trim_front(s@, skip) == trim_front(s@.subrange(i as int, s@.len() as int), skip),
    {
        let ghost rest = s@.subrange(i as int, s@.len() as int);
        assert(rest.first() == x);
        if x != c {
            return i;
        }
        assert(rest.drop_first() =~= s@.subrange(i + 1, s@.len() as int));
        i = i + 1;
    }
    i
}

/// `s` without the copies of `c` at its front.
pub fn trim_start_matches(s: &str, c: char) -> (r: &str)
    ensures
        r@ == trim_front(s@, |x: char| x == c),
{
    let n: usize = s.unicode_len();
    let k: usize = leading_run(s, c);
    s.substring_char(k, n)
}

/// The first `limit` characters of `s`, or all of it where it is shorter.
pub fn take_chars(s: &str, limit: usize) -> (r: &str)
    ensures
        r@ == (if s@.len() <= limit { s@ } else { s@.take(limit as int) }),
{
    let n: usize = s.unicode_len();
    if n <= limit {
        s
    } else {
        s.substring_char(0, limit)
    }
}

/// Whether two texts are the same.
pub fn same_text(a: &str, b: &str) -> (r: bool)
    ensures
        r == (a@ == b@),
{
    let x = a.as_bytes();
    let y = b.as_bytes();
    proof {
        vstd::utf8::encode_utf8_decode_utf8(a@);
        vstd::utf8::encode_utf8_decode_utf8(b@);
    }
    if x.len() != y.len() {
        return false;
    }
    for i in 0..x.len()
        invariant
            x@ == encode_utf8(a@),
            y@ == encode_utf8(b@),
            x@.len() == y@.len(),
            forall|j: int| 0 <= j < i ==> x@[j] == y@[j],
    {
        if x[i] != y[i] {
            return false;
        }
    }
    assert(x@ =~= y@);
    true
}

/// What follows `prefix` in `s`, where `s` starts with it.
pub fn strip_prefix<'a>(s: &'a str, prefix: &str) -> (r: Option<&'a str>)
    ensures
        match r {
            Some(rest) => s@ == prefix@ + rest@,
            None => !prefix@.is_prefix_of(s@),
        },
{
    let n: usize = s.unicode_len();
    let k: usize = prefix.unicode_len();
    if n < k {
        return None;
    }
    let head = s.substring_char(0, k);
    if same_text(head, prefix) {
        let rest = s.substring_char(k, n);
        assert(s@ =~= prefix@ + rest@);
        Some(rest)
    } else {
        None
    }
}

/// The decimal numeral of `n`, without leading zeros.
pub open spec fn decimal(n: nat) -> Seq<char>
    decreases n,
{
    if n < 10 {
        seq![digit(n)]
    } else {
        decimal(n / 10).push(digit(n % 10))
    }
}

/// The character of a digit.
pub open spec fn digit(d: nat) -> char {
    (48 + d) as u32 as char
}

fn digit_text(d: u64) -> (r: &'static str)
    requires
        d < 10,
    ensures
        r@ == seq![digit(d as nat)],
{
    proof {
        reveal_strlit("0");
        reveal_strlit("1");
        reveal_strlit("2");
        reveal_strlit("3");
        reveal_strlit("4");
        reveal_strlit("5");
        reveal_strlit("6");
        reveal_strlit("7");
        reveal_strlit("8");
        reveal_strlit("9");
    }
    let r: &'static str = match d {
        0 => "0",
        1 => "1",
        2 => "2",
        3 => "3",
        4 => "4",
        5 => "5",
        6 => "6",
        7 => "7",
        8 => "8",
        _ => "9",
    };
    assert(r@ =~= seq![digit(d as nat)]);
    r
}

/// Appends the decimal numeral of `n` to `out`.
pub fn push_decimal(out: &mut String, n: u64)
    ensures
        final(out)@ == old(out)@ + decimal(n as nat),
    decreases n,
{
    if n < 10 {
        out.append(digit_text(n));
    } else {
        push_decimal(out, n / 10);
        out.append(digit_text(n % 10));
        assert(decimal(n as nat) == decimal((n / 10) as nat).push(digit((n % 10) as nat)));
        assert(out@ =~= old(out)@ + decimal(n as nat));
    }
}

/// A run at the front that is to be skipped is skipped, and nothing behind it.
pub proof fn lemma_trim_front(run: Seq<char>, rest: Seq<char>, skip: spec_fn(char) -> bool)
    requires
        forall|i: int| 0 <= i < run.len() ==> skip(#[trigger] run[i]),
        rest.len() > 0 ==> !skip(rest.first()),
    ensures
        trim_front(run + rest, skip) == rest,
    decreases run.len(),
{
    if run.len() > 0 {
        let whole = run + rest;
        assert(whole.first() == run[0]);
        assert(whole.drop_first() =~= run.drop_first() + rest);
        assert forall|i: int| 0 <= i < run.drop_first().len() implies skip(
            #[trigger] run.drop_first()[i],
        ) by {
            assert(run.drop_first()[i] == run[i + 1]);
        }
        lemma_trim_front(run.drop_first(), rest, skip);
    } else {
        assert(run + rest =~= rest);
    }
}

/// A run at the back that is to be skipped is skipped, and nothing before it.
pub proof fn lemma_trim_back(rest: Seq<char>, run: Seq<char>, skip: spec_fn(char) -> bool)
    requires
        forall|i: int| 0 <= i < run.len() ==> skip(#[trigger] run[i]),
        rest.len() > 0 ==> !skip(rest.last()),
    ensures
        trim_back(rest + run, skip) == rest,
    decreases run.len(),
{
    if run.len() > 0 {
        let whole = rest + run;
        assert(whole.last() == run.last());
        assert(run.last() == run[run.len() - 1]);
        assert(whole.drop_last() =~= rest + run.drop_last());
        assert forall|i: int| 0 <= i < run.drop_last().len() implies skip(
            #[trigger] run.drop_last()[i],
        ) by {
            assert(run.drop_last()[i] == run[i]);
        }
        lemma_trim_back(rest, run.drop_last(), skip);
    } else {
        assert(rest + run =~= rest);
    }
}

/// Trimming takes off the white space around a text, and nothing else: what begins and ends with
/// anything else is left whole, whatever lies between.
pub proof fn law_trimming_takes_off_white_space(
    front: Seq<char>,
    core: Seq<char>,
    back: Seq<char>,
)
    requires
        forall|i: int| 0 <= i < front.len() ==> is_white_space(#[trigger] front[i]),
        forall|i: int| 0 <= i < back.len() ==> is_white_space(#[trigger] back[i]),
        core.len() > 0 ==> !is_white_space(core.first()) && !is_white_space(core.last()),
    ensures
        trimmed(front + core + back) == core,
{
    let skip = |c: char| is_white_space(c);
    if core.len() > 0 {
        let rest = core + back;
        assert(rest.first() == core.first());
        lemma_trim_front(front, rest, skip);
        lemma_trim_back(core, back, skip);
        assert(front + core + back =~= front + rest);
    } else {
        let run = front + back;
        assert(front + core + back =~= run + core);
        assert forall|i: int| 0 <= i < run.len() implies skip(#[trigger] run[i]) by {
            if i < front.len() {
                assert(run[i] == front[i]);
            } else {
                assert(run[i] == back[i - front.len()]);
            }
        }
        lemma_trim_front(run, core, skip);
        assert(trim_back(core, skip) == core);
    }
}

/// No letter, digit, sign of ordinary punctuation or character beyond U+3000 is white space; the
/// space, the tab and the ends of lines are.
pub proof fn law_white_space_is_no_text(c: char)
    ensures
        0x21 <= c as u32 <= 0x7e ==> !is_white_space(c),
        c as u32 > 0x3000 ==> !is_white_space(c),
        c == ' ' || c == '\t' || c == '\n' || c == '\r' ==> is_white_space(c),
{
}

/// The number that a row of digits stands for.
pub open spec fn numeral_value(s: Seq<char>) -> int
    decreases s.len(),
{
    if s.len() == 0 {
        0
    } else {
        numeral_value(s.drop_last()) * 10 + (s.last() as u32 - '0' as u32)
    }
}

/// The numeral of a number stands for it, is made of digits alone, and begins with a zero only where
/// the number is zero.
pub proof fn law_numerals_stand_for_their_numbers(n: nat)
    ensures
        numeral_value(decimal(n)) == n,
        forall|i: int| 0 <= i < decimal(n).len() ==> '0' <= #[trigger] decimal(n)[i] <= '9',
        decimal(n).len() > 0,
        n > 0 ==> decimal(n)[0] != '0',
    decreases n,
{
    let d = n % 10;
    assert(digit(d) as u32 == 48 + d);
    if n < 10 {
        assert(digit(n) as u32 == 48 + n);
        assert(decimal(n).drop_last() =~= Seq::<char>::empty());
        assert(decimal(n).last() == digit(n));
        assert(numeral_value(Seq::<char>::empty()) == 0);
    } else {
        law_numerals_stand_for_their_numbers(n / 10);
        assert(decimal(n).drop_last() =~= decimal(n / 10));
        assert(decimal(n).last() == digit(d));
    }
}

} // verus!
