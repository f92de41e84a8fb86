use vstd::prelude::*;

verus! {

/// The character of a decimal digit.
pub open spec fn digit_char(d: nat) -> char {
    (48 + d) as char
}

/// The decimal notation of `n`, without leading zeros.
pub open spec fn decimal(n: nat) -> Seq<char>
    decreases n,
{
    if n < 10 {
        seq![digit_char(n)]
    } else {
        decimal(n / 10).push(digit_char(n % 10))
    }
}

/// `s` preceded by as many `'0'` as it takes to reach `width` characters.
pub open spec fn zero_padded(s: Seq<char>, width: nat) -> Seq<char> {
    if s.len() < width {
        Seq::new((width - s.len()) as nat, |i: int| '0') + s
    } else {
        s
    }
}

/// Appends the decimal notation of `n`.
pub fn push_decimal(out: &mut Vec<char>, n: u64)
    ensures
        final(out)@ == old(out)@ + decimal(n as nat),
    decreases n,
{
    if n >= 10 {
        push_decimal(out, n / 10);
    }
    let d: u8 = (n % 10) as u8;
    let c = (48u8 + d) as char;
    out.push(c);
    proof {
        assert(old(out)@ + decimal(n as nat) =~= if n >= 10 {
            old(out)@ + decimal((n / 10) as nat) + seq![c]
        } else {
            old(out)@ + seq![c]
        });
    }
}

/// Appends `n` in decimal, padded with zeros to `width` characters.
pub fn push_padded_decimal(out: &mut Vec<char>, n: u64, width: usize)
    ensures
        final(out)@ == old(out)@ + zero_padded(decimal(n as nat), width as nat),
{
    let mut digits: Vec<char> = Vec::new();
    push_decimal(&mut digits, n);
    let mut i: usize = digits.len();
    while i < width
        invariant
            digits.len() <= i <= if width > digits.len() { width } else { digits.len() },
            out@ == old(out)@ + Seq::new((i - digits.len()) as nat, |k: int| '0'),
        decreases width - i,
    {
        out.push('0');
        proof {
            assert(old(out)@ + Seq::new((i + 1 - digits.len()) as nat, |k: int| '0') =~= old(
                out,
            )@ + Seq::new((i - digits.len()) as nat, |k: int| '0') + seq!['0']);
        }
        i = i + 1;
    }
    push_chars(out, &digits);
    proof {
        assert(digits@ == Seq::<char>::empty() + decimal(n as nat));
        assert(old(out)@ + zero_padded(decimal(n as nat), width as nat) =~= old(out)@ + Seq::new(
            (i - digits.len()) as nat,
            |k: int| '0',
        ) + digits@);
    }
}

/// Appends every character of `chars`.
pub fn push_chars(out: &mut Vec<char>, chars: &Vec<char>)
    ensures
        final(out)@ == old(out)@ + chars@,
{
    let mut i: usize = 0;
    while i < chars.len()
        invariant
            i <= chars.len(),
            out@ == old(out)@ + chars@.take(i as int),
        decreases chars.len() - i,
    {
        out.push(chars[i]);
        proof {
            assert(old(out)@ + chars@.take(i as int + 1) =~= old(out)@ + chars@.take(i as int)
                + seq![chars@[i as int]]);
        }
        i = i + 1;
    }
    proof {
        assert(chars@.take(chars.len() as int) =~= chars@);
    }
}

/// Appends every character of `s`.
pub fn push_str(out: &mut Vec<char>, s: &str)
    ensures
        final(out)@ == old(out)@ + s@,
{
    let n = s.unicode_len();
    let mut i: usize = 0;
    while i < n
        invariant
            n == s@.len(),
            i <= n,
            out@ == old(out)@ + s@.take(i as int),
        decreases n - i,
    {
        out.push(s.get_char(i));
        proof {
            assert(old(out)@ + s@.take(i as int + 1) =~= old(out)@ + s@.take(i as int) + seq![
                s@[i as int],
            ]);
        }
        i = i + 1;
    }
    proof {
        assert(s@.take(n as int) =~= s@);
    }
}

/// The characters of `s`.
pub fn chars_of(s: &str) -> (r: Vec<char>)
    ensures
        r@ == s@,
{
    let mut r: Vec<char> = Vec::new();
    push_str(&mut r, s);
    proof {
        assert(r@ =~= s@);
    }
    r
}

/// Collects characters into a `String` with `String::from_iter`; the string
/// holds exactly those characters, in order.
#[verifier::external_body]
pub(crate) fn string_from_chars(chars: &Vec<char>) -> (s: String)
    ensures
        s@ == chars@,
{
    String::from_iter(chars.iter())
}

/// `prefix` followed by `tail`.
pub fn joined(prefix: &str, tail: &str) -> (r: String)
    ensures
        r@ == prefix@ + tail@,
{
    let mut chars: Vec<char> = Vec::new();
    push_str(&mut chars, prefix);
    push_str(&mut chars, tail);
    proof {
        assert(chars@ =~= prefix@ + tail@);
    }
    string_from_chars(&chars)
}

/// Whether two texts are the same.
pub fn str_eq(a: &str, b: &str) -> (r: bool)
    ensures
        r == (a@ == b@),
{
    a.to_owned() == b.to_owned()
}

/// Whether `a[from..to]` holds exactly the characters of `b`.
pub fn chars_range_eq(a: &Vec<char>, from: usize, to: usize, b: &Vec<char>) -> (r: bool)
    requires
        from <= to <= a@.len(),
    ensures
        r == (a@.subrange(from as int, to as int) == b@),
{
    if to - from != b.len() {
        proof {
            assert(a@.subrange(from as int, to as int).len() != b@.len());
        }
        return false;
    }
    let mut k: usize = 0;
    while k < b.len()
        invariant
            to - from == b@.len(),
            from <= to <= a@.len(),
            k <= b@.len(),
            forall|m: int| 0 <= m < k ==> a@[from + m] == b@[m],
        decreases b.len() - k,
    {
        if a[from + k] != b[k] {
            proof {
                assert(a@.subrange(from as int, to as int)[k as int] != b@[k as int]);
            }
            return false;
        }
        k = k + 1;
    }
    proof {
        assert(a@.subrange(from as int, to as int) =~= b@);
    }
    true
}

} // verus!
