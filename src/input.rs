use vstd::prelude::*;
use vstd::string::StrSliceExecFns;

verus! {

/// Whether `c` is white space in Unicode's sense (its `White_Space` property).
pub open spec fn is_space(c: char) -> bool {
    let u = c as u32;
    ||| 0x09 <= u <= 0x0d
    ||| u == 0x20
    ||| u == 0x85
    ||| u == 0xa0
    ||| u == 0x1680
    ||| 0x2000 <= u <= 0x200a
    ||| u == 0x2028
    ||| u == 0x2029
    ||| u == 0x202f
    ||| u == 0x205f
    ||| u == 0x3000
}

/// `s` without its leading white space.
pub open spec fn trim_start(s: Seq<char>) -> Seq<char>
    decreases s.len(),
{
    if s.len() > 0 && is_space(s[0]) {
        trim_start(s.drop_first())
    } else {
        s
    }
}

/// `s` without its trailing white space.
pub open spec fn trim_end(s: Seq<char>) -> Seq<char>
    decreases s.len(),
{
    if s.len() > 0 && is_space(s.last()) {
        trim_end(s.drop_last())
    } else {
        s
    }
}

/// `s` without white space at either end.
pub open spec fn trim(s: Seq<char>) -> Seq<char> {
    trim_end(trim_start(s))
}

/// Whether `c` is one of the ASCII digits `0` to `9`.
pub open spec fn is_digit(c: char) -> bool {
    '0' <= c <= '9'
}

/// Whether `d` holds ASCII digits only.
pub open spec fn all_digits(d: Seq<char>) -> bool {
    forall|i: int| 0 <= i < d.len() ==> is_digit(#[trigger] d[i])
}

/// The number that the decimal digits `d` write.
pub open spec fn digits_value(d: Seq<char>) -> int
    decreases d.len(),
{
    if d.len() == 0 {
        0
    } else {
        10 * digits_value(d.drop_last()) + (d.last() as u32 - '0' as u32)
    }
}

/// A decimal `i32` as Rust writes one: an optional `+` or `-`, then one or
/// more ASCII digits, with a value that fits; anything else is `None`.
pub open spec fn parse_i32(p: Seq<char>) -> Option<i32> {
    let neg = p.len() > 0 && p[0] == '-';
    let d = if p.len() > 0 && (p[0] == '-' || p[0] == '+') {
        p.skip(1)
    } else {
        p
    };
    let v = if neg {
        -digits_value(d)
    } else {
        digits_value(d)
    };
    if d.len() == 0 || !all_digits(d) || v < i32::MIN || v > i32::MAX {
        None
    } else {
        Some(v as i32)
    }
}

/// `k` is the place of the one and only comma in `t`.
pub open spec fn sole_comma(t: Seq<char>, k: int) -> bool {
    &&& 0 <= k < t.len()
    &&& t[k] == ','
    &&& forall|j: int| 0 <= j < t.len() && j != k ==> #[trigger] t[j] != ','
}

/// A move as typed: `<column>,<row>`, two decimal integers split by exactly
/// one comma, with white space allowed only around the whole line.
pub open spec fn spec_parse_input(s: Seq<char>) -> Option<(i32, i32)> {
    let t = trim(s);
    if exists|k: int| sole_comma(t, k) {
        let k = choose|k: int| sole_comma(t, k);
        match (parse_i32(t.take(k)), parse_i32(t.skip(k + 1))) {
            (Some(x), Some(y)) => Some((x, y)),
            _ => None,
        }
    } else {
        None
    }
}

/// The cap at which digits stop being added up: one past the largest
/// magnitude that an `i32` can hold.
const MAGNITUDE_CAP: u64 = 2147483649;

/// Reports whether `c` is white space in Unicode's sense.
fn is_space_char(c: char) -> (r: bool)
    ensures
        r == is_space(c),
{
    let u = c as u32;
    (0x09 <= u && u <= 0x0d) || u == 0x20 || u == 0x85 || u == 0xa0 || u == 0x1680 || (0x2000 <= u
        && u <= 0x200a) || u == 0x2028 || u == 0x2029 || u == 0x202f || u == 0x205f || u == 0x3000
}

/// Reads the characters `cs[a..b]` as a decimal `i32`.
fn parse_part(cs: &Vec<char>, a: usize, b: usize) -> (r: Option<i32>)
    requires
        a <= b <= cs@.len(),
    ensures
        r == parse_i32(cs@.subrange(a as int, b as int)),
{
    let ghost p = cs@.subrange(a as int, b as int);
    if a == b {
        return None;
    }
    let mut start: usize = a;
    let mut neg = false;
    if cs[a] == '-' {
        neg = true;
        start = a + 1;
    } else if cs[a] == '+' {
        start = a + 1;
    }
    let ghost d = cs@.subrange(start as int, b as int);
    assert(d =~= if p[0] == '-' || p[0] == '+' {
        p.skip(1)
    } else {
        p
    });
    if start == b {
        return None;
    }
    let mut acc: u64 = 0;
    let mut i: usize = start;
    while i < b
        invariant
            a <= start <= i <= b <= cs@.len(),
            p == cs@.subrange(a as int, b as int),
            d == cs@.subrange(start as int, b as int),
            d == if p[0] == '-' || p[0] == '+' {
                p.skip(1)
            } else {
                p
            },
            neg == (p[0] == '-'),
            all_digits(cs@.subrange(start as int, i as int)),
            acc <= MAGNITUDE_CAP,
            acc == if digits_value(cs@.subrange(start as int, i as int)) < MAGNITUDE_CAP {
                digits_value(cs@.subrange(start as int, i as int))
            } else {
                MAGNITUDE_CAP as int
            },
        decreases b - i,
    {
        let c = cs[i];
        if !('0' <= c && c <= '9') {
            assert(d[i - start] == c);
            return None;
        }
        let ghost before = cs@.subrange(start as int, i as int);
        let ghost after = cs@.subrange(start as int, i + 1 as int);
        assert(after.drop_last() =~= before);
        assert(after.last() == c);
        let digit = (c as u32 - '0' as u32) as u64;
        acc = acc * 10 + digit;
        if acc > MAGNITUDE_CAP {
            acc = MAGNITUDE_CAP;
        }
        i = i + 1;
        assert forall|k: int| 0 <= k < after.len() implies is_digit(#[trigger] after[k]) by {
            if k < before.len() {
                assert(after[k] == before[k]);
            }
        }
    }
    let v: i64 = if neg {
        -(acc as i64)
    } else {
        acc as i64
    };
    if v < i32::MIN as i64 || v > i32::MAX as i64 {
        return None;
    }
    Some(v as i32)
}

/// Reads a move typed as `<column>,<row>`: two decimal integers split by
/// one comma, with white space allowed only before and after the whole
/// line. Anything else gives `None`.
pub fn parse_input(input: &str) -> (r: Option<(i32, i32)>)
    ensures
        r == spec_parse_input(input@),
{
    let n = input.unicode_len();
    let mut cs: Vec<char> = Vec::new();
    let mut i: usize = 0;
    while i < n
        invariant
            i <= n,
            n == input@.len(),
            cs@ == input@.take(i as int),
        decreases n - i,
    {
        cs.push(input.get_char(i));
        i = i + 1;
        assert(cs@ =~= input@.take(i as int));
    }
    assert(cs@ =~= input@);
    let mut lo: usize = 0;
    while lo < n && is_space_char(cs[lo])
        invariant
            lo <= n,
            n == cs@.len(),
            trim_start(cs@) == trim_start(cs@.subrange(lo as int, n as int)),
        decreases n - lo,
    {
        let ghost rest = cs@.subrange(lo as int, n as int);
        assert(rest.drop_first() =~= cs@.subrange(lo + 1, n as int));
        lo = lo + 1;
    }
    let mut hi: usize = n;
    while hi > lo && is_space_char(cs[hi - 1])
        invariant
            lo <= hi <= n,
            n == cs@.len(),
            trim(cs@) == trim_end(cs@.subrange(lo as int, hi as int)),
        decreases hi,
    {
        let ghost rest = cs@.subrange(lo as int, hi as int);
        assert(rest.drop_last() =~= cs@.subrange(lo as int, hi - 1));
        hi = hi - 1;
    }
    let ghost t = cs@.subrange(lo as int, hi as int);
    assert(trim(cs@) == t);
    let mut found = false;
    let mut pos: usize = lo;
    let mut j: usize = lo;
    while j < hi
        invariant
            lo <= j <= hi <= n,
            n == cs@.len(),
            t == cs@.subrange(lo as int, hi as int),
            cs@ == input@,
            trim(input@) == t,
            !found ==> forall|k: int| 0 <= k < j - lo ==> #[trigger] t[k] != ',',
            found ==> lo <= pos < j && t[pos - lo] == ',',
            found ==> forall|k: int| 0 <= k < j - lo && k != pos - lo ==> #[trigger] t[k] != ',',
        decreases hi - j,
    {
        if cs[j] == ',' {
            assert(t[j - lo] == ',');
            if found {
                assert forall|k: int| !sole_comma(t, k) by {
                    if sole_comma(t, k) {
                        if k == pos - lo {
                            assert(t[j - lo] != ',');
                        } else {
                            assert(t[pos - lo] != ',');
                        }
                    }
                }
                return None;
            }
            found = true;
            pos = j;
        }
        j = j + 1;
    }
    if !found {
        assert forall|k: int| !sole_comma(t, k) by {
            if sole_comma(t, k) {
                assert(t[k] != ',');
            }
        }
        return None;
    }
    let ghost k = pos - lo;
    assert(sole_comma(t, k));
    let ghost kk = choose|kk: int| sole_comma(t, kk);
    assert(kk == k) by {
        assert(t[k] == ',');
    }
    assert(t.take(k) =~= cs@.subrange(lo as int, pos as int));
    assert(t.skip(k + 1) =~= cs@.subrange(pos + 1, hi as int));
    let x = parse_part(&cs, lo, pos);
    let y = parse_part(&cs, pos + 1, hi);
    match (x, y) {
        (Some(x), Some(y)) => Some((x, y)),
        _ => None,
    }
}

} // verus!
