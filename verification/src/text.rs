use vstd::prelude::*;

verus! {

/// Appends one character to a string.
///
/// Trusted: `String::push`, whose documentation says that it appends the
/// given `char` to the end of the string.
#[verifier::external_body]
pub(crate) fn string_push(s: &mut String, c: char)
    ensures
        final(s)@ == old(s)@.push(c),
{
    s.push(c)
}

/// What `{:?}` prints for a string: the text in double quotes with escapes.
pub uninterp spec fn str_debug(s: Seq<char>) -> Seq<char>;

/// The `Debug` rendering of a string.
///
/// Trusted: `<str as Debug>::fmt` through `format!("{:?}")`. Its escaping
/// rules depend on Unicode tables, so the result is named (`str_debug`),
/// not spelled out; it depends on the text alone.
#[verifier::external_body]
pub(crate) fn debug_string(s: &String) -> (r: String)
    ensures
        r@ == str_debug(s@),
{
    format!("{:?}", s)
}

/// The decimal digit for a value below ten.
pub open spec fn digit_char(d: int) -> char {
    if d == 0 {
        '0'
    } else if d == 1 {
        '1'
    } else if d == 2 {
        '2'
    } else if d == 3 {
        '3'
    } else if d == 4 {
        '4'
    } else if d == 5 {
        '5'
    } else if d == 6 {
        '6'
    } else if d == 7 {
        '7'
    } else if d == 8 {
        '8'
    } else {
        '9'
    }
}

/// The value of a decimal digit character.
pub open spec fn digit_value(c: char) -> int {
    (c as u32) - ('0' as u32)
}

pub open spec fn is_digit(c: char) -> bool {
    '0' <= c && c <= '9'
}

/// The decimal text of a natural number, without leading zeros.
pub open spec fn nat_text(n: nat) -> Seq<char>
    decreases n,
{
    if n < 10 {
        seq![digit_char(n as int)]
    } else {
        nat_text(n / 10) + seq![digit_char((n % 10) as int)]
    }
}

/// The decimal text of an integer, with a leading `-` when negative.
pub open spec fn int_text(n: int) -> Seq<char> {
    if n < 0 {
        seq!['-'] + nat_text((-n) as nat)
    } else {
        nat_text(n as nat)
    }
}

fn digit_of(d: u64) -> (c: char)
    requires
        d < 10,
    ensures
        c == digit_char(d as int),
{
    if d == 0 {
        '0'
    } else if d == 1 {
        '1'
    } else if d == 2 {
        '2'
    } else if d == 3 {
        '3'
    } else if d == 4 {
        '4'
    } else if d == 5 {
        '5'
    } else if d == 6 {
        '6'
    } else if d == 7 {
        '7'
    } else if d == 8 {
        '8'
    } else {
        '9'
    }
}

/// Appends the decimal text of `n`.
pub fn push_u64(out: &mut String, n: u64)
    ensures
        final(out)@ == old(out)@ + nat_text(n as nat),
{
    let mut m: u64 = n;
    let mut tail: Vec<char> = Vec::new();
    while m >= 10
        invariant
            nat_text(n as nat) == nat_text(m as nat) + tail@,
        decreases m,
    {
        let d = m % 10;
        let c = digit_of(d);
        let ghost old_tail = tail@;
        tail.insert(0, c);
        assert(nat_text(m as nat) == nat_text((m / 10) as nat) + seq![c]);
        assert(tail@ =~= seq![c] + old_tail);
        m = m / 10;
    }
    let c = digit_of(m);
    tail.insert(0, c);
    let ghost base = out@;
    let mut i: usize = 0;
    while i < tail.len()
        invariant
            0 <= i <= tail.len(),
            out@ == base + tail@.take(i as int),
        decreases tail.len() - i,
    {
        string_push(out, tail[i]);
        assert(tail@.take(i + 1) =~= tail@.take(i as int).push(tail@[i as int]));
        i = i + 1;
    }
    assert(tail@.take(tail.len() as int) =~= tail@);
}

/// Appends the decimal text of `n`.
pub fn push_usize(out: &mut String, n: usize)
    ensures
        final(out)@ == old(out)@ + nat_text(n as nat),
{
    push_u64(out, n as u64);
}

/// Appends the decimal text of `n`, with a leading `-` when negative.
pub fn push_i32(out: &mut String, n: i32)
    ensures
        final(out)@ == old(out)@ + int_text(n as int),
{
    if n < 0 {
        string_push(out, '-');
        let m: u64 = (0i64 - (n as i64)) as u64;
        push_u64(out, m);
        assert(final(out)@ =~= old(out)@ + int_text(n as int));
    } else {
        push_u64(out, n as u64);
    }
}

/// The number of bytes `c` takes in UTF-8.
pub open spec fn utf8_width(c: char) -> nat {
    vstd::utf8::encode_scalar(c as u32).len()
}

/// The number of bytes `c` takes in UTF-8.
pub fn char_width(c: char) -> (w: usize)
    ensures
        w == utf8_width(c),
        1 <= w <= 4,
{
    let u = c as u32;
    proof {
        vstd::utf8::char_is_scalar(c);
    }
    if u <= 0x7f {
        1
    } else if u <= 0x7ff {
        2
    } else if u <= 0xffff {
        3
    } else {
        4
    }
}

/// The UTF-8 encoding of a concatenation is the concatenation of the encodings.
pub proof fn lemma_encode_utf8_concat(a: Seq<char>, b: Seq<char>)
    ensures
        vstd::utf8::encode_utf8(a + b) == vstd::utf8::encode_utf8(a) + vstd::utf8::encode_utf8(b),
    decreases a.len(),
{
    if a.len() == 0 {
        assert(a + b =~= b);
        assert(vstd::utf8::encode_utf8(a) =~= Seq::<u8>::empty());
        assert(vstd::utf8::encode_utf8(a) + vstd::utf8::encode_utf8(b) =~= vstd::utf8::encode_utf8(b));
    } else {
        lemma_encode_utf8_concat(a.drop_first(), b);
        assert((a + b).drop_first() =~= a.drop_first() + b);
        assert((a + b)[0] == a[0]);
        let e = vstd::utf8::encode_scalar(a[0] as u32);
        assert(vstd::utf8::encode_utf8(a + b) == e + vstd::utf8::encode_utf8(a.drop_first() + b));
        assert(vstd::utf8::encode_utf8(a) == e + vstd::utf8::encode_utf8(a.drop_first()));
        assert(e + (vstd::utf8::encode_utf8(a.drop_first()) + vstd::utf8::encode_utf8(b))
            =~= (e + vstd::utf8::encode_utf8(a.drop_first())) + vstd::utf8::encode_utf8(b));
    }
}

/// Every character takes at least one byte.
pub proof fn lemma_encode_utf8_len(a: Seq<char>)
    ensures
        vstd::utf8::encode_utf8(a).len() >= a.len(),
    decreases a.len(),
{
    if a.len() > 0 {
        lemma_encode_utf8_len(a.drop_first());
    }
}

/// The byte offset of character index `i` in the UTF-8 encoding of `cs`.
pub open spec fn byte_offset(cs: Seq<char>, i: int) -> nat {
    vstd::utf8::encode_utf8(cs.take(i)).len()
}

pub proof fn lemma_byte_offset_step(cs: Seq<char>, i: int)
    requires
        0 <= i < cs.len(),
    ensures
        byte_offset(cs, i + 1) == byte_offset(cs, i) + utf8_width(cs[i]),
{
    assert(cs.take(i + 1) =~= cs.take(i) + seq![cs[i]]);
    lemma_encode_utf8_concat(cs.take(i), seq![cs[i]]);
    let one = seq![cs[i]];
    assert(one.drop_first() =~= Seq::<char>::empty());
    assert(vstd::utf8::encode_utf8(one.drop_first()) =~= Seq::<u8>::empty());
    assert(vstd::utf8::encode_utf8(one) == vstd::utf8::encode_scalar(cs[i] as u32)
        + vstd::utf8::encode_utf8(one.drop_first()));
    assert(vstd::utf8::encode_utf8(one) =~= vstd::utf8::encode_scalar(cs[i] as u32));
}

pub proof fn lemma_byte_offset_bound(cs: Seq<char>, i: int)
    requires
        0 <= i <= cs.len(),
    ensures
        byte_offset(cs, i) <= vstd::utf8::encode_utf8(cs).len(),
{
    assert(cs.take(i) + cs.skip(i) =~= cs);
    lemma_encode_utf8_concat(cs.take(i), cs.skip(i));
}

/// The characters of a string, and the number of bytes it takes.
pub fn string_chars(s: &str) -> (r: (Vec<char>, usize))
    ensures
        r.0@ == s@,
        r.1 == vstd::utf8::encode_utf8(s@).len(),
{
    let bytes = s.as_bytes();
    let nbytes = bytes.len();
    proof {
        lemma_encode_utf8_len(s@);
    }
    let mut v: Vec<char> = Vec::new();
    for c in it: s.chars()
        invariant
            it.seq() == s@,
            v@ == it.seq().take(it.index()),
    {
        assert(it.seq().take(it.index() + 1) =~= it.seq().take(it.index()).push(c));
        v.push(c);
    }
    assert(s@.take(s@.len() as int) =~= s@);
    (v, nbytes)
}

} // verus!

verus! {

/// Index of the first `.` at or after `i`, or the length when there is none.
pub open spec fn find_dot(t: Seq<char>, i: int) -> int
    decreases t.len() - i,
{
    if i >= t.len() {
        t.len() as int
    } else if t[i] == '.' {
        i
    } else {
        find_dot(t, i + 1)
    }
}

pub open spec fn strip_leading_zeros(s: Seq<char>) -> Seq<char>
    decreases s.len(),
{
    if s.len() > 0 && s[0] == '0' {
        strip_leading_zeros(s.drop_first())
    } else {
        s
    }
}

pub open spec fn strip_trailing_zeros(s: Seq<char>) -> Seq<char>
    decreases s.len(),
{
    if s.len() > 0 && s.last() == '0' {
        strip_trailing_zeros(s.drop_last())
    } else {
        s
    }
}

/// The integer digits of a decimal literal, without leading zeros ("0" when none are left).
pub open spec fn literal_int_part(t: Seq<char>) -> Seq<char> {
    let s = strip_leading_zeros(t.take(find_dot(t, 0)));
    if s.len() == 0 { seq!['0'] } else { s }
}

/// The fraction digits of a decimal literal, without trailing zeros.
pub open spec fn literal_frac_part(t: Seq<char>) -> Seq<char> {
    let d = find_dot(t, 0);
    if d >= t.len() { Seq::empty() } else { strip_trailing_zeros(t.skip(d + 1)) }
}

/// How a decimal literal such as `3.50` prints as a number: `3.5`, and `2.0` as `2`.
/// The digits are kept as written, less leading and trailing zeros. This is
/// the shortest text of the nearest binary double only when the literal has
/// at most 15 significant digits; a literal with more digits than a double
/// holds (`0.1000000000000000000001`) keeps them all here.
pub open spec fn double_display(t: Seq<char>) -> Seq<char> {
    if literal_frac_part(t).len() == 0 {
        literal_int_part(t)
    } else {
        literal_int_part(t) + seq!['.'] + literal_frac_part(t)
    }
}

/// How a decimal literal prints in debug form: as `double_display`, but `2.0` stays `2.0`.
pub open spec fn double_debug(t: Seq<char>) -> Seq<char> {
    if literal_frac_part(t).len() == 0 {
        literal_int_part(t) + seq!['.', '0']
    } else {
        literal_int_part(t) + seq!['.'] + literal_frac_part(t)
    }
}

proof fn lemma_find_dot(t: Seq<char>, i: int)
    requires
        0 <= i <= t.len(),
    ensures
        i <= find_dot(t, i) <= t.len(),
        find_dot(t, i) < t.len() ==> t[find_dot(t, i)] == '.',
        forall|k: int| i <= k < find_dot(t, i) ==> t[k] != '.',
    decreases t.len() - i,
{
    if i < t.len() && t[i] != '.' {
        lemma_find_dot(t, i + 1);
    }
}

proof fn lemma_strip_leading(s: Seq<char>, k: int)
    requires
        0 <= k <= s.len(),
        forall|m: int| 0 <= m < k ==> s[m] == '0',
        k == s.len() || s[k] != '0',
    ensures
        strip_leading_zeros(s) == s.skip(k),
    decreases k,
{
    if k > 0 {
        assert forall|m: int| 0 <= m < k - 1 implies s.drop_first()[m] == '0' by {
            assert(s.drop_first()[m] == s[m + 1]);
        }
        lemma_strip_leading(s.drop_first(), k - 1);
        assert(s.drop_first().skip(k - 1) =~= s.skip(k));
    } else {
        assert(s.skip(0) =~= s);
    }
}

proof fn lemma_strip_trailing(s: Seq<char>, k: int)
    requires
        0 <= k <= s.len(),
        forall|m: int| k <= m < s.len() ==> s[m] == '0',
        k == 0 || s[k - 1] != '0',
    ensures
        strip_trailing_zeros(s) == s.take(k),
    decreases s.len() - k,
{
    if k < s.len() {
        assert forall|m: int| k <= m < s.len() - 1 implies s.drop_last()[m] == '0' by {
            assert(s.drop_last()[m] == s[m]);
        }
        lemma_strip_trailing(s.drop_last(), k);
        assert(s.drop_last().take(k) =~= s.take(k));
    } else {
        assert(s.take(k) =~= s);
    }
}

/// Appends the characters `cs[i..j]`.
pub fn push_range(out: &mut String, cs: &Vec<char>, i: usize, j: usize)
    requires
        i <= j <= cs.len(),
    ensures
        final(out)@ == old(out)@ + cs@.subrange(i as int, j as int),
{
    let ghost base = out@;
    let mut k = i;
    while k < j
        invariant
            i <= k <= j <= cs.len(),
            out@ == base + cs@.subrange(i as int, k as int),
        decreases j - k,
    {
        string_push(out, cs[k]);
        assert(cs@.subrange(i as int, k + 1) =~= cs@.subrange(i as int, k as int).push(cs@[k as int]));
        k = k + 1;
    }
}

fn dot_index(cs: &Vec<char>) -> (d: usize)
    ensures
        d == find_dot(cs@, 0),
        d <= cs.len(),
{
    let n = cs.len();
    let mut d: usize = 0;
    while d < n && cs[d] != '.'
        invariant
            0 <= d <= n == cs@.len(),
            forall|k: int| 0 <= k < d ==> cs@[k] != '.',
        decreases n - d,
    {
        d = d + 1;
    }
    proof {
        lemma_find_dot(cs@, 0);
        if find_dot(cs@, 0) < d {
            assert(cs@[find_dot(cs@, 0)] == '.');
        }
        if d < find_dot(cs@, 0) {
            assert(cs@[d as int] != '.');
        }
    }
    d
}

fn int_part_start(cs: &Vec<char>, d: usize) -> (a: usize)
    requires
        d <= cs.len(),
    ensures
        a <= d,
        strip_leading_zeros(cs@.take(d as int)) == cs@.subrange(a as int, d as int),
{
    let mut a: usize = 0;
    while a < d && cs[a] == '0'
        invariant
            0 <= a <= d <= cs@.len(),
            forall|m: int| 0 <= m < a ==> cs@[m] == '0',
        decreases d - a,
    {
        a = a + 1;
    }
    proof {
        let ip = cs@.take(d as int);
        assert forall|m: int| 0 <= m < a implies ip[m] == '0' by {}
        lemma_strip_leading(ip, a as int);
        assert(ip.skip(a as int) =~= cs@.subrange(a as int, d as int));
    }
    a
}

fn frac_part_end(cs: &Vec<char>, d: usize) -> (b: usize)
    requires
        d < cs.len(),
    ensures
        d + 1 <= b <= cs.len(),
        strip_trailing_zeros(cs@.skip(d + 1)) == cs@.subrange(d + 1, b as int),
{
    let n = cs.len();
    let mut b: usize = n;
    while b > d + 1 && cs[b - 1] == '0'
        invariant
            d + 1 <= b <= n == cs@.len(),
            forall|m: int| b <= m < n ==> cs@[m] == '0',
        decreases b,
    {
        b = b - 1;
    }
    proof {
        let fp = cs@.skip(d + 1);
        assert forall|m: int| (b - d - 1) <= m < fp.len() implies fp[m] == '0' by {
            assert(fp[m] == cs@[m + d + 1]);
        }
        lemma_strip_trailing(fp, b - d - 1);
        assert(fp.take(b - d - 1) =~= cs@.subrange(d + 1, b as int));
    }
    b
}

/// Appends a decimal literal the way it prints as a number (`double_display`),
/// or in debug form (`double_debug`) when `debug` is set.
pub fn push_decimal_literal(out: &mut String, t: &String, debug: bool)
    ensures
        final(out)@ == old(out)@ + (if debug { double_debug(t@) } else { double_display(t@) }),
{
    let (cs, _) = string_chars(t.as_str());
    let n = cs.len();
    let d = dot_index(&cs);
    let a = int_part_start(&cs, d);
    let ghost ipart = literal_int_part(t@);
    let ghost fpart = literal_frac_part(t@);
    if a == d {
        string_push(out, '0');
        assert(ipart =~= seq!['0']);
    } else {
        push_range(out, &cs, a, d);
    }
    let ghost after_int = out@;
    assert(after_int == old(out)@ + ipart);
    let mut has_frac = false;
    if d < n {
        let b = frac_part_end(&cs, d);
        if b > d + 1 {
            has_frac = true;
            string_push(out, '.');
            push_range(out, &cs, d + 1, b);
            assert(out@ =~= after_int + seq!['.'] + fpart);
        } else {
            assert(fpart.len() == 0);
        }
    } else {
        assert(fpart =~= Seq::<char>::empty());
    }
    if !has_frac && debug {
        string_push(out, '.');
        string_push(out, '0');
        assert(out@ =~= after_int + seq!['.', '0']);
    }
}

} // verus!
