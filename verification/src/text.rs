//! Character-level text utilities: Unicode white space, trimming and
//! decimal rendering of integers.

use vstd::prelude::*;

verus! {

/// Unicode `White_Space` property (PropList.txt), the set that
/// `char::is_whitespace` and `str::trim` use.
pub open spec fn is_white_space_spec(c: char) -> bool {
    let u = c as int;
    ||| 0x09 <= u <= 0x0D
    ||| u == 0x20
    ||| u == 0x85
    ||| u == 0xA0
    ||| u == 0x1680
    ||| 0x2000 <= u <= 0x200A
    ||| u == 0x2028
    ||| u == 0x2029
    ||| u == 0x202F
    ||| u == 0x205F
    ||| u == 0x3000
}

/// Whether `c` is Unicode white space.
#[verifier::when_used_as_spec(is_white_space_spec)]
pub fn is_white_space(c: char) -> (r: bool)
    ensures
        r == is_white_space_spec(c),
{
    let u = c as u32;
    (0x09 <= u && u <= 0x0D) || u == 0x20 || u == 0x85 || u == 0xA0 || u == 0x1680 || (0x2000
        <= u && u <= 0x200A) || u == 0x2028 || u == 0x2029 || u == 0x202F || u == 0x205F || u
        == 0x3000
}

/// `s` without its leading white space.
pub open spec fn trim_start_spec(s: Seq<char>) -> Seq<char>
    decreases s.len(),
{
    if s.len() > 0 && is_white_space_spec(s[0]) {
        trim_start_spec(s.drop_first())
    } else {
        s
    }
}

/// `s` without its trailing white space.
pub open spec fn trim_end_spec(s: Seq<char>) -> Seq<char>
    decreases s.len(),
{
    if s.len() > 0 && is_white_space_spec(s.last()) {
        trim_end_spec(s.drop_last())
    } else {
        s
    }
}

/// `s` without leading and trailing white space, as `str::trim` gives it.
pub open spec fn trim_spec(s: Seq<char>) -> Seq<char> {
    trim_end_spec(trim_start_spec(s))
}

proof fn lemma_trim_start_skip(s: Seq<char>, k: int)
    requires
        0 <= k <= s.len(),
        forall|j: int| 0 <= j < k ==> is_white_space_spec(#[trigger] s[j]),
    ensures
        trim_start_spec(s) == trim_start_spec(s.subrange(k, s.len() as int)),
    decreases k,
{
    if k == 0 {
        assert(s.subrange(0, s.len() as int) =~= s);
    } else {
        let t = s.drop_first();
        assert forall|j: int| 0 <= j < k - 1 implies is_white_space_spec(#[trigger] t[j]) by {
            assert(t[j] == s[j + 1]);
        }
        lemma_trim_start_skip(t, k - 1);
        assert(t.subrange(k - 1, t.len() as int) =~= s.subrange(k, s.len() as int));
    }
}

proof fn lemma_trim_end_take(s: Seq<char>, k: int)
    requires
        0 <= k <= s.len(),
        forall|j: int| k <= j < s.len() ==> is_white_space_spec(#[trigger] s[j]),
    ensures
        trim_end_spec(s) == trim_end_spec(s.subrange(0, k)),
    decreases s.len() - k,
{
    if k == s.len() {
        assert(s.subrange(0, k) =~= s);
    } else {
        let t = s.drop_last();
        assert forall|j: int| k <= j < t.len() implies is_white_space_spec(#[trigger] t[j]) by {
            assert(t[j] == s[j]);
        }
        lemma_trim_end_take(t, k);
        assert(t.subrange(0, k) =~= s.subrange(0, k));
    }
}

proof fn lemma_trim_start_head(s: Seq<char>)
    ensures
        trim_start_spec(s).len() > 0 ==> !is_white_space_spec(trim_start_spec(s)[0]),
    decreases s.len(),
{
    if s.len() > 0 && is_white_space_spec(s[0]) {
        lemma_trim_start_head(s.drop_first());
    }
}

proof fn lemma_trim_end_last(s: Seq<char>)
    ensures
        trim_end_spec(s).len() > 0 ==> !is_white_space_spec(trim_end_spec(s).last()),
    decreases s.len(),
{
    if s.len() > 0 && is_white_space_spec(s.last()) {
        lemma_trim_end_last(s.drop_last());
    }
}

proof fn lemma_trim_end_prefix(s: Seq<char>)
    ensures
        trim_end_spec(s).len() <= s.len(),
        trim_end_spec(s) =~= s.subrange(0, trim_end_spec(s).len() as int),
    decreases s.len(),
{
    if s.len() > 0 && is_white_space_spec(s.last()) {
        lemma_trim_end_prefix(s.drop_last());
    }
}

/// A trimmed text starts and ends with a character that is not white
/// space (or is empty).
pub proof fn law_trim_edges(s: Seq<char>)
    ensures
        trim_spec(s).len() > 0 ==> !is_white_space_spec(trim_spec(s)[0]),
        trim_spec(s).len() > 0 ==> !is_white_space_spec(trim_spec(s).last()),
{
    let a = trim_start_spec(s);
    lemma_trim_start_head(s);
    lemma_trim_end_last(a);
    lemma_trim_end_prefix(a);
    if trim_spec(s).len() > 0 {
        assert(trim_spec(s)[0] == a[0]);
    }
}

/// Trimming twice is trimming once.
pub proof fn law_trim_idempotent(s: Seq<char>)
    ensures
        trim_spec(trim_spec(s)) == trim_spec(s),
{
    let t = trim_spec(s);
    law_trim_edges(s);
    assert(trim_start_spec(t) == t);
    if t.len() > 0 {
        assert(trim_end_spec(t) == t);
    }
}

/// Wrapper for `String::push`: appends one character.
#[verifier::external_body]
fn push_char(s: &mut String, c: char)
    ensures
        final(s)@ == old(s)@.push(c),
{
    s.push(c);
}

/// The characters of `s`, in order.
pub fn chars_of(s: &str) -> (v: Vec<char>)
    ensures
        v@ == s@,
{
    broadcast use vstd::string::axiom_spec_iter;
    let mut v: Vec<char> = Vec::new();
    for c in it: s.chars()
        invariant
            it.seq() == s@,
            v@ == s@.take(it.index() as int),
    {
        v.push(c);
        assert(s@.take(it.index() as int + 1) =~= v@);
    }
    assert(s@.take(s@.len() as int) =~= s@);
    v
}

/// The string made of `v[lo..hi]`.
pub fn string_of_range(v: &Vec<char>, lo: usize, hi: usize) -> (r: String)
    requires
        lo <= hi <= v.len(),
    ensures
        r@ == v@.subrange(lo as int, hi as int),
{
    let mut r = String::new();
    let mut k = lo;
    while k < hi
        invariant
            lo <= k <= hi <= v.len(),
            r@ == v@.subrange(lo as int, k as int),
        decreases hi - k,
    {
        push_char(&mut r, v[k]);
        assert(v@.subrange(lo as int, k + 1) =~= v@.subrange(lo as int, k as int).push(v@[k as int]));
        k = k + 1;
    }
    r
}

/// `s` with leading and trailing Unicode white space removed.
pub fn trim(s: &str) -> (r: String)
    ensures
        r@ == trim_spec(s@),
{
    let v = chars_of(s);
    let n = v.len();
    let mut i: usize = 0;
    while i < n && is_white_space(v[i])
        invariant
            i <= n == v@.len(),
            forall|j: int| 0 <= j < i ==> is_white_space_spec(#[trigger] v@[j]),
        decreases n - i,
    {
        i = i + 1;
    }
    proof {
        lemma_trim_start_skip(v@, i as int);
        let t = v@.subrange(i as int, n as int);
        if i < n {
            assert(t[0] == v@[i as int]);
        } else {
            assert(t.len() == 0);
        }
        assert(trim_start_spec(v@) == t);
    }
    let mut j: usize = n;
    while j > i && is_white_space(v[j - 1])
        invariant
            i <= j <= n == v@.len(),
            forall|k: int| j <= k < n ==> is_white_space_spec(#[trigger] v@[k]),
        decreases j - i,
    {
        j = j - 1;
    }
    proof {
        let t = v@.subrange(i as int, n as int);
        assert forall|k: int| j - i <= k < t.len() implies is_white_space_spec(#[trigger] t[k]) by {
            assert(t[k] == v@[k + i]);
        }
        lemma_trim_end_take(t, j - i);
        let u = t.subrange(0, j - i);
        assert(u =~= v@.subrange(i as int, j as int));
        if j > i {
            assert(u.last() == v@[j - 1]);
        }
    }
    string_of_range(&v, i, j)
}

/// The decimal digit character for `d` (`0 <= d < 10`).
pub open spec fn digit_char(d: nat) -> char {
    if d == 0 { '0' }
    else if d == 1 { '1' }
    else if d == 2 { '2' }
    else if d == 3 { '3' }
    else if d == 4 { '4' }
    else if d == 5 { '5' }
    else if d == 6 { '6' }
    else if d == 7 { '7' }
    else if d == 8 { '8' }
    else { '9' }
}

/// Decimal notation of `n`, most significant digit first, without
/// leading zeros (`"0"` for zero), as `Display` writes an unsigned integer.
pub open spec fn decimal_spec(n: nat) -> Seq<char>
    decreases n,
{
    if n < 10 {
        seq![digit_char(n)]
    } else {
        decimal_spec(n / 10).push(digit_char(n % 10))
    }
}

/// Decimal notation of a signed integer, with a leading `-` when negative,
/// as `Display` writes a signed integer.
pub open spec fn signed_decimal_spec(x: int) -> Seq<char> {
    if x < 0 {
        seq!['-'] + decimal_spec((-x) as nat)
    } else {
        decimal_spec(x as nat)
    }
}

fn digit(d: u64) -> (c: char)
    requires
        d < 10,
    ensures
        c == digit_char(d as nat),
{
    if d == 0 { '0' }
    else if d == 1 { '1' }
    else if d == 2 { '2' }
    else if d == 3 { '3' }
    else if d == 4 { '4' }
    else if d == 5 { '5' }
    else if d == 6 { '6' }
    else if d == 7 { '7' }
    else if d == 8 { '8' }
    else { '9' }
}

/// The value of a decimal digit character.
pub open spec fn digit_value(c: char) -> int {
    if c == '1' { 1 }
    else if c == '2' { 2 }
    else if c == '3' { 3 }
    else if c == '4' { 4 }
    else if c == '5' { 5 }
    else if c == '6' { 6 }
    else if c == '7' { 7 }
    else if c == '8' { 8 }
    else if c == '9' { 9 }
    else { 0 }
}

/// Whether `c` is one of the digits `0` to `9`.
pub open spec fn is_digit(c: char) -> bool {
    c == '0' || c == '1' || c == '2' || c == '3' || c == '4' || c == '5' || c == '6' || c == '7'
        || c == '8' || c == '9'
}

/// The number that a string of digits denotes in base ten.
pub open spec fn digits_value(s: Seq<char>) -> int
    decreases s.len(),
{
    if s.len() == 0 {
        0
    } else {
        digits_value(s.drop_last()) * 10 + digit_value(s.last())
    }
}

/// Decimal notation reads back as the number: it is made of digits only,
/// it starts with a digit other than `0` (unless the number is zero), and
/// its digits taken in base ten give the number.
pub proof fn law_decimal_reads_back(n: nat)
    ensures
        decimal_spec(n).len() > 0,
        forall|k: int| 0 <= k < decimal_spec(n).len() ==> is_digit(#[trigger] decimal_spec(n)[k]),
        n > 0 ==> decimal_spec(n)[0] != '0',
        digits_value(decimal_spec(n)) == n,
    decreases n,
{
    if n < 10 {
        let s = decimal_spec(n);
        assert(s.len() == 1 && s.last() == digit_char(n));
        assert(s.drop_last() =~= Seq::<char>::empty());
        assert(digits_value(Seq::<char>::empty()) == 0);
        assert(digit_value(digit_char(n)) == n);
        assert(digits_value(s) == digits_value(s.drop_last()) * 10 + digit_value(s.last()));
    } else {
        let q = n / 10;
        let d = n % 10;
        law_decimal_reads_back(q);
        let s = decimal_spec(n);
        assert(s == decimal_spec(q).push(digit_char(d)));
        assert(s.drop_last() =~= decimal_spec(q));
        assert(s[0] == decimal_spec(q)[0]);
        assert(forall|k: int| 0 <= k < s.len() ==> is_digit(#[trigger] s[k])) by {
            assert forall|k: int| 0 <= k < s.len() implies is_digit(#[trigger] s[k]) by {
                if k < s.len() - 1 {
                    assert(s[k] == decimal_spec(q)[k]);
                }
            }
        }
        assert(digit_value(digit_char(d)) == d);
        assert(digits_value(s) == digits_value(decimal_spec(q)) * 10 + digit_value(digit_char(d)));
        assert(n == q * 10 + d);
    }
}

/// Different numbers have different decimal notations.
pub proof fn law_decimal_injective(a: nat, b: nat)
    requires
        decimal_spec(a) == decimal_spec(b),
    ensures
        a == b,
{
    law_decimal_reads_back(a);
    law_decimal_reads_back(b);
}

/// Signed decimal notation reads back as the number: a leading `-` exactly
/// for negative numbers, followed by the decimal notation of the magnitude.
pub proof fn law_signed_decimal_reads_back(x: int)
    ensures
        x < 0 ==> signed_decimal_spec(x)[0] == '-' && digits_value(signed_decimal_spec(x).drop_first())
            == -x,
        x >= 0 ==> signed_decimal_spec(x)[0] != '-' && digits_value(signed_decimal_spec(x)) == x,
{
    if x < 0 {
        law_decimal_reads_back((-x) as nat);
        assert(signed_decimal_spec(x).drop_first() =~= decimal_spec((-x) as nat));
    } else {
        law_decimal_reads_back(x as nat);
        assert(is_digit(decimal_spec(x as nat)[0]));
    }
}

/// Appends the decimal notation of `n` to `out`.
pub fn push_decimal(out: &mut String, n: u64)
    ensures
        final(out)@ == old(out)@ + decimal_spec(n as nat),
{
    let mut acc: Vec<char> = Vec::new();
    let mut q: u64 = n;
    loop
        invariant_except_break
            decimal_spec(n as nat) == decimal_spec(q as nat) + acc@,
        ensures
            acc@ == decimal_spec(n as nat),
        decreases q,
    {
        if q < 10 {
            let ghost before = acc@;
            acc.insert(0, digit(q));
            assert(acc@ =~= seq![digit_char(q as nat)] + before);
            assert(decimal_spec(n as nat) =~= acc@);
            break;
        }
        let d = digit(q % 10);
        let ghost before = acc@;
        acc.insert(0, d);
        proof {
            assert(acc@ =~= seq![d] + before);
            assert(decimal_spec(q as nat) == decimal_spec((q / 10) as nat).push(d));
            assert(decimal_spec(q as nat) + before =~= decimal_spec((q / 10) as nat) + acc@);
        }
        q = q / 10;
    }
    let ghost start = out@;
    let mut k: usize = 0;
    while k < acc.len()
        invariant
            0 <= k <= acc.len(),
            acc@ == decimal_spec(n as nat),
            out@ == start + acc@.take(k as int),
        decreases acc.len() - k,
    {
        push_char(out, acc[k]);
        assert(acc@.take(k + 1) =~= acc@.take(k as int).push(acc@[k as int]));
        k = k + 1;
    }
    assert(acc@.take(acc.len() as int) =~= acc@);
}

/// Decimal notation of `n`.
pub fn decimal_string(n: u64) -> (r: String)
    ensures
        r@ == decimal_spec(n as nat),
{
    let mut r = String::new();
    push_decimal(&mut r, n);
    assert(r@ =~= decimal_spec(n as nat));
    r
}

/// Decimal notation of `x`, with a leading `-` when negative.
pub fn signed_decimal_string(x: i64) -> (r: String)
    ensures
        r@ == signed_decimal_spec(x as int),
{
    let mut r = String::new();
    if x < 0 {
        push_char(&mut r, '-');
        let magnitude: u64 = ((-(x + 1)) as u64) + 1;
        push_decimal(&mut r, magnitude);
    } else {
        push_decimal(&mut r, x as u64);
        assert(r@ =~= decimal_spec(x as nat));
    }
    r
}

} // verus!
