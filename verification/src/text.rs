//! Text over sequences of characters: trimming, comparing, numbers and colours.
use vstd::prelude::*;

verus! {

/// `String::push` appends one character.
pub assume_specification[ String::push ](s: &mut String, c: char)
    ensures
        final(s)@ == old(s)@.push(c),
;

/// The characters of a text.
pub fn chars_of(s: &str) -> (v: Vec<char>)
    ensures
        v@ == s@,
{
    let mut v: Vec<char> = Vec::new();
    for c in it: s.chars()
        invariant
            v@ =~= it.seq().take(it.index() as int),
            it.seq() == s@,
    {
        v.push(c);
    }
    v
}

/// The text made of the given characters.
pub fn text_of(v: &Vec<char>) -> (s: String)
    ensures
        s@ == v@,
{
    let mut s = String::new();
    let mut i: usize = 0;
    while i < v.len()
        invariant
            i <= v.len(),
            s@ =~= v@.take(i as int),
        decreases v.len() - i,
    {
        s.push(v[i]);
        i += 1;
    }
    assert(v@.take(v@.len() as int) =~= v@);
    s
}

/// The text made of the characters between two positions.
pub fn text_between(v: &Vec<char>, from: usize, to: usize) -> (s: String)
    requires
        from <= to <= v.len(),
    ensures
        s@ == v@.subrange(from as int, to as int),
{
    let mut s = String::new();
    let mut i: usize = from;
    while i < to
        invariant
            from <= i <= to <= v.len(),
            s@ =~= v@.subrange(from as int, i as int),
        decreases to - i,
    {
        s.push(v[i]);
        i += 1;
    }
    s
}

/// Whether two texts hold the same characters.
pub fn same_text(a: &str, b: &str) -> (r: bool)
    ensures
        r == (a@ == b@),
{
    let x = chars_of(a);
    let y = chars_of(b);
    same_chars(&x, &y)
}

/// Whether two character lists are equal.
pub fn same_chars(x: &Vec<char>, y: &Vec<char>) -> (r: bool)
    ensures
        r == (x@ == y@),
{
    if x.len() != y.len() {
        return false;
    }
    let mut i: usize = 0;
    while i < x.len()
        invariant
            i <= x.len(),
            x.len() == y.len(),
            forall|j: int| 0 <= j < i ==> x@[j] == y@[j],
        decreases x.len() - i,
    {
        if x[i] != y[i] {
            return false;
        }
        i += 1;
    }
    assert(x@ =~= y@);
    true
}

/// Two texts one after the other.
pub fn join2(a: &str, b: &str) -> (r: String)
    ensures
        r@ == a@ + b@,
{
    a.to_owned().concat(b)
}

/// Three texts one after the other.
pub fn join3(a: &str, b: &str, c: &str) -> (r: String)
    ensures
        r@ == a@ + b@ + c@,
{
    a.to_owned().concat(b).concat(c)
}

/// Whether a character is white space.
pub open spec fn white(c: char) -> bool {
    let n = c as u32;
    ||| 0x09 <= n <= 0x0D
    ||| n == 0x20
    ||| n == 0x85
    ||| n == 0xA0
    ||| n == 0x1680
    ||| 0x2000 <= n <= 0x200A
    ||| n == 0x2028
    ||| n == 0x2029
    ||| n == 0x202F
    ||| n == 0x205F
    ||| n == 0x3000
}

/// Whether a character has Unicode's White_Space property.
pub fn is_white(c: char) -> (r: bool)
    ensures
        r == white(c),
{
    let n: u32 = c as u32;
    (0x09 <= n && n <= 0x0D) || n == 0x20 || n == 0x85 || n == 0xA0 || n == 0x1680 || (0x2000 <= n
        && n <= 0x200A) || n == 0x2028 || n == 0x2029 || n == 0x202F || n == 0x205F || n == 0x3000
}

/// Whether a character is a control character.
pub open spec fn control(c: char) -> bool {
    (c as u32) < 0x20 || 0x7F <= (c as u32) <= 0x9F
}

/// Whether a character is in Unicode's control category.
pub fn is_control(c: char) -> (r: bool)
    ensures
        r == control(c),
{
    let n: u32 = c as u32;
    n < 0x20 || (0x7F <= n && n <= 0x9F)
}

/// The text without leading white space.
pub open spec fn trim_start(s: Seq<char>) -> Seq<char>
    decreases s.len(),
{
    if s.len() > 0 && white(s[0]) {
        trim_start(s.drop_first())
    } else {
        s
    }
}

/// The text without trailing white space.
pub open spec fn trim_end(s: Seq<char>) -> Seq<char>
    decreases s.len(),
{
    if s.len() > 0 && white(s.last()) {
        trim_end(s.drop_last())
    } else {
        s
    }
}

/// The text without white space at either end.
pub open spec fn trimmed(s: Seq<char>) -> Seq<char> {
    trim_end(trim_start(s))
}

/// The characters of a text without white space at either end.
pub fn trim(s: &str) -> (v: Vec<char>)
    ensures
        v@ == trimmed(s@),
{
    let all = chars_of(s);
    let mut a: usize = 0;
    assert(all@.skip(0) =~= all@);
    while a < all.len() && is_white(all[a])
        invariant
            a <= all.len(),
            trim_start(s@) == trim_start(all@.skip(a as int)),
            all@ == s@,
        decreases all.len() - a,
    {
        assert(all@.skip(a as int).drop_first() =~= all@.skip(a as int + 1));
        a += 1;
    }
    assert(trim_start(s@) == all@.skip(a as int));
    let mut b: usize = all.len();
    assert(all@.skip(a as int) =~= all@.subrange(a as int, b as int));
    while b > a && is_white(all[b - 1])
        invariant
            a <= b <= all.len(),
            trimmed(s@) == trim_end(all@.subrange(a as int, b as int)),
        decreases b,
    {
        assert(all@.subrange(a as int, b as int).drop_last() =~= all@.subrange(
            a as int,
            b as int - 1,
        ));
        b -= 1;
    }
    let mut v: Vec<char> = Vec::new();
    let mut i: usize = a;
    while i < b
        invariant
            a <= i <= b <= all.len(),
            v@ =~= all@.subrange(a as int, i as int),
        decreases b - i,
    {
        v.push(all[i]);
        i += 1;
    }
    v
}

/// A character with ASCII capitals made small.
pub open spec fn lower(c: char) -> char {
    if 'A' <= c && c <= 'Z' {
        ((c as u8) + 32) as u8 as char
    } else {
        c
    }
}

/// A text with ASCII capitals made small.
pub open spec fn lowered(s: Seq<char>) -> Seq<char> {
    Seq::new(s.len(), |i: int| lower(s[i]))
}

/// A character with ASCII capitals made small.
pub fn to_lower(c: char) -> (r: char)
    ensures
        r == lower(c),
{
    if 'A' <= c && c <= 'Z' {
        ((c as u8) + 32) as char
    } else {
        c
    }
}

/// Characters with ASCII capitals made small.
pub fn to_lowered(v: &Vec<char>) -> (r: Vec<char>)
    ensures
        r@ == lowered(v@),
{
    let mut r: Vec<char> = Vec::new();
    let mut i: usize = 0;
    while i < v.len()
        invariant
            i <= v.len(),
            r@ =~= lowered(v@).take(i as int),
        decreases v.len() - i,
    {
        r.push(to_lower(v[i]));
        i += 1;
    }
    assert(lowered(v@).take(v@.len() as int) =~= lowered(v@));
    r
}

/// Decimal digit as a character.
pub open spec fn digit(n: nat) -> char {
    (48 + n) as u8 as char
}

/// A number in decimal.
pub open spec fn decimal(n: nat) -> Seq<char>
    decreases n,
{
    if n < 10 {
        seq![digit(n)]
    } else {
        decimal(n / 10).push(digit(n % 10))
    }
}

/// A number in decimal.
pub fn to_decimal(n: u64) -> (r: String)
    ensures
        r@ == decimal(n as nat),
    decreases n,
{
    let d: char = (48 + (n % 10) as u8) as char;
    let mut s = if n < 10 {
        String::new()
    } else {
        to_decimal(n / 10)
    };
    s.push(d);
    proof {
        if n < 10 {
            assert(s@ =~= seq![digit(n as nat)]);
        }
    }
    s
}

/// A number in decimal, filled up with zeros to at least four digits.
pub open spec fn decimal4(n: nat) -> Seq<char> {
    if n < 10 {
        seq!['0', '0', '0'] + decimal(n)
    } else if n < 100 {
        seq!['0', '0'] + decimal(n)
    } else if n < 1000 {
        seq!['0'] + decimal(n)
    } else {
        decimal(n)
    }
}

/// A number in decimal, filled up with zeros to at least four digits.
pub fn to_decimal4(n: u64) -> (r: String)
    ensures
        r@ == decimal4(n as nat),
{
    proof {
        reveal_strlit("000");
        reveal_strlit("00");
        reveal_strlit("0");
    }
    let d = to_decimal(n);
    if n < 10 {
        assert("000"@ =~= seq!['0', '0', '0']);
        join2("000", d.as_str())
    } else if n < 100 {
        assert("00"@ =~= seq!['0', '0']);
        join2("00", d.as_str())
    } else if n < 1000 {
        assert("0"@ =~= seq!['0']);
        join2("0", d.as_str())
    } else {
        d
    }
}

/// Value of a hexadecimal digit.
pub open spec fn hex_digit(c: char) -> Option<int> {
    if '0' <= c && c <= '9' {
        Some(c as u32 - '0' as u32)
    } else if 'a' <= c && c <= 'f' {
        Some(c as u32 - 'a' as u32 + 10)
    } else if 'A' <= c && c <= 'F' {
        Some(c as u32 - 'A' as u32 + 10)
    } else {
        None
    }
}

/// Value of a pair of hexadecimal digits.
pub open spec fn hex_pair(a: char, b: char) -> Option<int> {
    match (hex_digit(a), hex_digit(b)) {
        (Some(x), Some(y)) => Some(16 * x + y),
        _ => None,
    }
}

/// Value of a hexadecimal digit.
pub fn read_hex_digit(c: char) -> (r: Option<u8>)
    ensures
        r == match hex_digit(c) {
            Some(x) => Some(x as u8),
            None => None,
        },
        r is Some ==> r->0 < 16,
{
    let n: u32 = c as u32;
    if '0' <= c && c <= '9' {
        Some((n - 48) as u8)
    } else if 'a' <= c && c <= 'f' {
        Some((n - 97 + 10) as u8)
    } else if 'A' <= c && c <= 'F' {
        Some((n - 65 + 10) as u8)
    } else {
        None
    }
}

/// Value of a pair of hexadecimal digits.
pub fn read_hex_pair(a: char, b: char) -> (r: Option<u8>)
    ensures
        r == match hex_pair(a, b) {
            Some(x) => Some(x as u8),
            None => None,
        },
{
    match (read_hex_digit(a), read_hex_digit(b)) {
        (Some(x), Some(y)) => Some(16 * x + y),
        _ => None,
    }
}

/// Position of the last occurrence of a character before a position.
pub fn last_position(v: &Vec<char>, end: usize, c: char) -> (r: Option<usize>)
    requires
        end <= v.len(),
    ensures
        match r {
            Some(i) => i < end && v@[i as int] == c && forall|j: int|
                i < j < end ==> v@[j] != c,
            None => forall|j: int| 0 <= j < end ==> v@[j] != c,
        },
{
    let mut i: usize = end;
    while i > 0
        invariant
            i <= end <= v.len(),
            forall|j: int| i <= j < end ==> v@[j] != c,
        decreases i,
    {
        if v[i - 1] == c {
            return Some(i - 1);
        }
        i -= 1;
    }
    None
}

/// Whether a text stands in another one.
pub open spec fn has_part(s: Seq<char>, part: Seq<char>) -> bool {
    exists|i: int|
        0 <= i <= s.len() - part.len() && #[trigger] s.subrange(i, i + part.len()) == part
}

/// Whether a text stands in another one.
pub fn contains_text(s: &str, part: &str) -> (r: bool)
    ensures
        r == has_part(s@, part@),
{
    let a = chars_of(s);
    let p = chars_of(part);
    if p.len() > a.len() {
        return false;
    }
    let last: usize = a.len() - p.len();
    let mut i: usize = 0;
    loop
        invariant
            i <= last,
            last + p@.len() == a@.len(),
            a@.len() <= usize::MAX,
            a@ == s@,
            p@ == part@,
            forall|k: int| 0 <= k < i ==> #[trigger] a@.subrange(k, k + p@.len()) != p@,
        decreases last - i,
    {
        let mut j: usize = 0;
        while j < p.len() && a[i + j] == p[j]
            invariant
                j <= p@.len(),
                i + p@.len() <= a@.len(),
                a@.len() <= usize::MAX,
                forall|k: int| 0 <= k < j ==> a@[i + k] == p@[k],
            decreases p@.len() - j,
        {
            j += 1;
        }
        if j == p.len() {
            assert(a@.subrange(i as int, i + p@.len()) =~= p@);
            return true;
        }
        assert(a@.subrange(i as int, i + p@.len())[j as int] != p@[j as int]);
        if i == last {
            return false;
        }
        i += 1;
    }
}

/// Hexadecimal digits count up from zero to fifteen, in small letters and in capitals.
pub proof fn hex_digits_count_up(n: int)
    requires
        0 <= n < 16,
    ensures
        hex_digit(seq!['0', '1', '2', '3', '4', '5', '6', '7', '8', '9', 'a', 'b', 'c', 'd', 'e', 'f'][n]) == Some(n),
        hex_digit(seq!['0', '1', '2', '3', '4', '5', '6', '7', '8', '9', 'A', 'B', 'C', 'D', 'E', 'F'][n]) == Some(n),
{
}

/// Nothing else is a hexadecimal digit, and a pair of them counts the first sixteenfold.
pub proof fn hex_pairs_are_two_digits(a: char, b: char)
    ensures
        hex_digit(a) is Some <==> ('0' <= a && a <= '9') || ('a' <= a && a <= 'f') || ('A' <= a && a
            <= 'F'),
        hex_pair(a, b) is Some <==> hex_digit(a) is Some && hex_digit(b) is Some,
        hex_pair(a, b) matches Some(x) ==> x == 16 * hex_digit(a)->0 + hex_digit(b)->0 && 0 <= x
            <= 255,
{
}

/// The number that decimal digits stand for.
pub open spec fn value_of(s: Seq<char>) -> nat
    decreases s.len(),
{
    if s.len() == 0 {
        0
    } else {
        10 * value_of(s.drop_last()) + (s.last() as nat - '0' as nat) as nat
    }
}

/// A number in decimal stands for itself, is made of digits, and starts with no zero of
/// its own: so different numbers are written differently.
pub proof fn decimals_stand_for_their_number(n: nat)
    ensures
        value_of(decimal(n)) == n,
        decimal(n).len() > 0,
        forall|i: int| 0 <= i < decimal(n).len() ==> '0' <= #[trigger] decimal(n)[i] && decimal(n)[i]
            <= '9',
        n > 0 ==> decimal(n)[0] != '0',
    decreases n,
{
    if n < 10 {
        let s = seq![digit(n)];
        assert(decimal(n) =~= s);
        assert(s.drop_last() =~= Seq::<char>::empty());
        assert(value_of(s.drop_last()) == 0);
        assert(s.last() == digit(n));
    } else {
        decimals_stand_for_their_number(n / 10);
        let a = decimal(n / 10);
        let s = a.push(digit(n % 10));
        assert(s.drop_last() =~= a);
        assert(s.last() == digit(n % 10));
        assert forall|i: int| 0 <= i < s.len() implies '0' <= #[trigger] s[i] && s[i] <= '9' by {
            if i < a.len() {
                assert(s[i] == a[i]);
            }
        }
        assert(s[0] == a[0]);
    }
}

/// Filled up with zeros, a number stands for itself still, in at least four digits.
pub proof fn filled_decimals_stand_for_their_number(n: nat)
    ensures
        decimal4(n).len() >= 4,
        n < 10 ==> decimal4(n).len() == 4 && decimal4(n).skip(3) == decimal(n),
        n >= 1000 ==> decimal4(n) == decimal(n),
        forall|i: int| 0 <= i < decimal4(n).len() - decimal(n).len() ==> decimal4(n)[i] == '0',
        decimal4(n).skip(decimal4(n).len() - decimal(n).len()) == decimal(n),
{
    decimals_have_length(n);
    assert(decimal4(n).skip(decimal4(n).len() - decimal(n).len()) =~= decimal(n));
    if n < 10 {
        assert(decimal4(n).skip(3) =~= decimal(n));
    }
}

proof fn decimals_have_length(n: nat)
    ensures
        n < 10 ==> decimal(n).len() == 1,
        10 <= n < 100 ==> decimal(n).len() == 2,
        100 <= n < 1000 ==> decimal(n).len() == 3,
        n >= 1000 ==> decimal(n).len() >= 4,
    decreases n,
{
    if n >= 10 {
        decimals_have_length(n / 10);
    }
}

/// Making letters small changes nothing but capitals, and doing it twice is doing it
/// once.
pub proof fn lowering_only_changes_capitals(s: Seq<char>)
    ensures
        lowered(s).len() == s.len(),
        lowered(lowered(s)) == lowered(s),
        forall|i: int|
            0 <= i < s.len() && !('A' <= s[i] && s[i] <= 'Z') ==> #[trigger] lowered(s)[i] == s[i],
        forall|i: int|
            0 <= i < s.len() && 'A' <= s[i] && s[i] <= 'Z' ==> (#[trigger] lowered(s)[i]) as u32
                == s[i] as u32 + 32,
{
    assert(lowered(lowered(s)) =~= lowered(s));
}

proof fn trimming_the_start(s: Seq<char>)
    ensures
        trim_start(s).is_suffix_of(s),
        trim_start(s).len() > 0 ==> !white(trim_start(s)[0]),
        forall|i: int| 0 <= i < s.len() - trim_start(s).len() ==> white(#[trigger] s[i]),
    decreases s.len(),
{
    if s.len() > 0 && white(s[0]) {
        let rest = s.drop_first();
        trimming_the_start(rest);
        let t = trim_start(rest);
        assert(rest.subrange(rest.len() - t.len(), rest.len() as int) == t);
        assert(s.subrange(s.len() - t.len(), s.len() as int) =~= t);
        assert forall|i: int| 0 <= i < s.len() - t.len() implies white(#[trigger] s[i]) by {
            if i > 0 {
                assert(rest[i - 1] == s[i]);
            }
        }
    } else {
        assert(s.subrange(0, s.len() as int) =~= s);
    }
}

proof fn trimming_the_end(s: Seq<char>)
    ensures
        trim_end(s).is_prefix_of(s),
        trim_end(s).len() > 0 ==> !white(trim_end(s).last()),
        forall|i: int| trim_end(s).len() <= i < s.len() ==> white(#[trigger] s[i]),
    decreases s.len(),
{
    if s.len() > 0 && white(s.last()) {
        let rest = s.drop_last();
        trimming_the_end(rest);
        let t = trim_end(rest);
        assert(rest.subrange(0, t.len() as int) == t);
        assert(s.subrange(0, t.len() as int) =~= t);
        assert forall|i: int| t.len() <= i < s.len() implies white(#[trigger] s[i]) by {
            if i < rest.len() {
                assert(rest[i] == s[i]);
            }
        }
    } else {
        assert(s.subrange(0, s.len() as int) =~= s);
    }
}

/// Trimming takes away white space at both ends and nothing else: what is left starts
/// and ends with something else, or is empty.
pub proof fn trimming_takes_white_space_only(s: Seq<char>)
    ensures
        trimmed(s).len() > 0 ==> !white(trimmed(s)[0]) && !white(trimmed(s).last()),
        exists|k: int|
            {
                &&& 0 <= k <= s.len() - trimmed(s).len()
                &&& #[trigger] s.subrange(k, k + trimmed(s).len()) == trimmed(s)
                &&& forall|i: int| 0 <= i < k ==> white(#[trigger] s[i])
                &&& forall|i: int| k + trimmed(s).len() <= i < s.len() ==> white(#[trigger] s[i])
            },
        white(' ') && white('\t') && white('\n') && white('\r'),
        forall|c: char| '!' <= c && c <= '~' ==> !#[trigger] white(c),
{
    let a = trim_start(s);
    let b = trimmed(s);
    trimming_the_start(s);
    trimming_the_end(a);
    let k = s.len() - a.len();
    assert(s.subrange(k, s.len() as int) == a);
    assert(a.subrange(0, b.len() as int) == b);
    assert(s.subrange(k, k + b.len()) =~= b) by {
        assert forall|i: int| 0 <= i < b.len() implies #[trigger] s[k + i] == b[i] by {
            assert(a[i] == s.subrange(k, s.len() as int)[i]);
            assert(b[i] == a.subrange(0, b.len() as int)[i]);
        }
    }
    assert forall|i: int| k + b.len() <= i < s.len() implies white(#[trigger] s[i]) by {
        assert(a[i - k] == s.subrange(k, s.len() as int)[i - k]);
    }
    if b.len() > 0 {
        assert(b[0] == a.subrange(0, b.len() as int)[0]);
    }
}

} // verus!
