use vstd::prelude::*;

use crate::text::{chars_of, chars_range_eq, string_from_chars};

verus! {

/// The views of a sequence of character vectors.
pub open spec fn vviews(v: Seq<Vec<char>>) -> Seq<Seq<char>> {
    v.map_values(|x: Vec<char>| x@)
}

/// The pieces of `s` between occurrences of `sep`, as `str::split` gives
/// them: one more piece than there are separators.
pub open spec fn split_char(s: Seq<char>, sep: char) -> Seq<Seq<char>>
    decreases s.len(),
{
    if s.len() == 0 {
        seq![Seq::<char>::empty()]
    } else {
        let r = split_char(s.drop_last(), sep);
        if s.last() == sep {
            r.push(Seq::<char>::empty())
        } else {
            r.update(r.len() - 1, r.last().push(s.last()))
        }
    }
}

pub proof fn lemma_split_char_len(s: Seq<char>, sep: char)
    ensures
        split_char(s, sep).len() >= 1,
    decreases s.len(),
{
    if s.len() > 0 {
        lemma_split_char_len(s.drop_last(), sep);
    }
}

/// The position of the first `c` in `s`.
pub open spec fn first_char_index(s: Seq<char>, c: char) -> Option<int>
    decreases s.len(),
{
    if s.len() == 0 {
        None
    } else {
        match first_char_index(s.drop_last(), c) {
            Some(k) => Some(k),
            None => if s.last() == c {
                Some(s.len() - 1)
            } else {
                None
            },
        }
    }
}

pub proof fn lemma_first_char_index(s: Seq<char>, c: char)
    ensures
        match first_char_index(s, c) {
            Some(k) => 0 <= k < s.len() && s[k] == c && forall|m: int| 0 <= m < k ==> s[m] != c,
            None => forall|m: int| 0 <= m < s.len() ==> s[m] != c,
        },
    decreases s.len(),
{
    if s.len() > 0 {
        let d = s.drop_last();
        lemma_first_char_index(d, c);
        assert(forall|m: int| 0 <= m < d.len() ==> d[m] == s[m]);
    }
}

/// `s` cut at its first `c`, as `str::split_once` gives it.
pub open spec fn split_once_char(s: Seq<char>, c: char) -> Option<(Seq<char>, Seq<char>)> {
    match first_char_index(s, c) {
        Some(k) => Some((s.take(k), s.skip(k + 1))),
        None => None,
    }
}

/// Whether a `key=value` piece of a query string is `token=<token>`.
pub open spec fn grants_token(piece: Seq<char>, token: Seq<char>) -> bool {
    match split_once_char(piece, '=') {
        Some(kv) => kv.0 == "token"@ && kv.1 == token,
        None => false,
    }
}

/// Whether one of the `&`-separated pieces of the query is `token=<token>`.
pub open spec fn query_has_token(query: Seq<char>, token: Seq<char>) -> bool {
    exists|i: int|
        0 <= i < split_char(query, '&').len() && #[trigger] grants_token(
            split_char(query, '&')[i],
            token,
        )
}

/// The characters of `s` from `from` up to `to`.
pub fn sub_chars(s: &Vec<char>, from: usize, to: usize) -> (r: Vec<char>)
    requires
        from <= to <= s@.len(),
    ensures
        r@ == s@.subrange(from as int, to as int),
{
    let mut r: Vec<char> = Vec::new();
    let mut i: usize = from;
    while i < to
        invariant
            from <= i <= to <= s@.len(),
            r@ == s@.subrange(from as int, i as int),
        decreases to - i,
    {
        r.push(s[i]);
        proof {
            assert(s@.subrange(from as int, i + 1) =~= s@.subrange(from as int, i as int).push(
                s@[i as int],
            ));
        }
        i = i + 1;
    }
    r
}

/// The pieces of `s` between occurrences of `sep`.
pub fn split_chars(s: &Vec<char>, sep: char) -> (r: Vec<Vec<char>>)
    ensures
        vviews(r@) == split_char(s@, sep),
{
    let mut pieces: Vec<Vec<char>> = Vec::new();
    let mut cur: Vec<char> = Vec::new();
    let mut i: usize = 0;
    proof {
        assert(vviews(pieces@).push(cur@) =~= split_char(s@.take(0), sep));
    }
    while i < s.len()
        invariant
            i <= s.len(),
            vviews(pieces@).push(cur@) == split_char(s@.take(i as int), sep),
        decreases s.len() - i,
    {
        proof {
            assert(s@.take(i as int + 1).drop_last() =~= s@.take(i as int));
        }
        let c = s[i];
        if c == sep {
            let ghost before = pieces@;
            let done = cur;
            pieces.push(done);
            cur = Vec::new();
            proof {
                assert(vviews(pieces@) =~= vviews(before).push(done@));
                assert(vviews(pieces@).push(cur@) =~= vviews(before).push(done@).push(
                    Seq::<char>::empty(),
                ));
            }
        } else {
            let ghost before = cur@;
            cur.push(c);
            proof {
                let r = vviews(pieces@).push(before);
                assert(vviews(pieces@).push(cur@) =~= r.update(r.len() - 1, r.last().push(c)));
            }
        }
        i = i + 1;
    }
    proof {
        assert(s@.take(s.len() as int) =~= s@);
    }
    let ghost before = pieces@;
    pieces.push(cur);
    proof {
        assert(vviews(pieces@) =~= vviews(before).push(cur@));
    }
    pieces
}

/// The position of the first `c` in `s`.
pub fn find_char(s: &Vec<char>, c: char) -> (r: Option<usize>)
    ensures
        match r {
            Some(k) => first_char_index(s@, c) == Some(k as int),
            None => first_char_index(s@, c) is None,
        },
{
    proof {
        lemma_first_char_index(s@, c);
    }
    let mut i: usize = 0;
    while i < s.len()
        invariant
            i <= s.len(),
            forall|m: int| 0 <= m < i ==> s@[m] != c,
            match first_char_index(s@, c) {
                Some(k) => 0 <= k < s@.len() && s@[k] == c && forall|m: int|
                    0 <= m < k ==> s@[m] != c,
                None => forall|m: int| 0 <= m < s@.len() ==> s@[m] != c,
            },
        decreases s.len() - i,
    {
        if s[i] == c {
            return Some(i);
        }
        i = i + 1;
    }
    None
}

/// Whether a `key=value` piece of a query string is `token=<token>`.
pub fn piece_grants_token(piece: &Vec<char>, token: &Vec<char>) -> (r: bool)
    ensures
        r == grants_token(piece@, token@),
{
    match find_char(piece, '=') {
        Some(k) => {
            proof {
                lemma_first_char_index(piece@, '=');
                assert(k < piece@.len());
                assert(piece@.take(k as int) =~= piece@.subrange(0, k as int));
                assert(piece@.skip(k + 1) =~= piece@.subrange(k + 1, piece@.len() as int));
            }
            let n = piece.len();
            let after = k + 1;
            let key = chars_of("token");
            chars_range_eq(piece, 0, k, &key) && chars_range_eq(piece, after, n, token)
        },
        None => false,
    }
}

/// Whether the query string carries `token=<token>`.
pub fn query_grants_token(query: &str, token: &str) -> (r: bool)
    ensures
        r == query_has_token(query@, token@),
{
    let q = chars_of(query);
    let t = chars_of(token);
    let pieces = split_chars(&q, '&');
    let mut i: usize = 0;
    while i < pieces.len()
        invariant
            i <= pieces@.len(),
            vviews(pieces@) == split_char(q@, '&'),
            q@ == query@,
            t@ == token@,
            forall|m: int| 0 <= m < i ==> !grants_token(split_char(q@, '&')[m], t@),
        decreases pieces.len() - i,
    {
        if piece_grants_token(&pieces[i], &t) {
            proof {
                assert(vviews(pieces@)[i as int] == pieces@[i as int]@);
            }
            return true;
        }
        proof {
            assert(vviews(pieces@)[i as int] == pieces@[i as int]@);
        }
        i = i + 1;
    }
    false
}

/// Whether `c` is white space in Unicode's sense, as `char::is_whitespace` has it.
pub open spec fn is_space(c: char) -> bool {
    let u = c as u32;
    ||| 0x09 <= u <= 0x0d
    ||| u == 0x20
    ||| u == 0x85
    ||| u == 0xa0
    ||| u == 0x1680
    ||| 0x2000 <= u <= 0x200a
    ||| u == 0x2028
    ||| u == 0x2029
    ||| u == 0x202f
    ||| u == 0x205f
    ||| u == 0x3000
}

/// Whether `c` is white space.
pub fn char_is_space(c: char) -> (r: bool)
    ensures
        r == is_space(c),
{
    let u = c as u32;
    (0x09 <= u && u <= 0x0d) || u == 0x20 || u == 0x85 || u == 0xa0 || u == 0x1680 || (0x2000 <= u
        && u <= 0x200a) || u == 0x2028 || u == 0x2029 || u == 0x202f || u == 0x205f || u == 0x3000
}

/// `s` without its leading white space.
pub open spec fn trim_start(s: Seq<char>) -> Seq<char>
    decreases s.len(),
{
    if s.len() > 0 && is_space(s[0]) {
        trim_start(s.drop_first())
    } else {
        s
    }
}

/// `s` without its trailing white space.
pub open spec fn trim_end(s: Seq<char>) -> Seq<char>
    decreases s.len(),
{
    if s.len() > 0 && is_space(s.last()) {
        trim_end(s.drop_last())
    } else {
        s
    }
}

/// `s` without leading and trailing white space, as `str::trim` gives it.
pub open spec fn trim(s: Seq<char>) -> Seq<char> {
    trim_end(trim_start(s))
}

pub proof fn lemma_trim_start(s: Seq<char>, a: int)
    requires
        0 <= a <= s.len(),
        forall|k: int| 0 <= k < a ==> is_space(s[k]),
        a == s.len() || !is_space(s[a]),
    ensures
        trim_start(s) == s.skip(a),
    decreases a,
{
    if a == 0 {
        assert(s.skip(0) =~= s);
    } else {
        let d = s.drop_first();
        assert forall|k: int| 0 <= k < a - 1 implies is_space(d[k]) by {
            assert(d[k] == s[k + 1]);
        }
        lemma_trim_start(d, a - 1);
        assert(d.skip(a - 1) =~= s.skip(a));
    }
}

pub proof fn lemma_trim_end(s: Seq<char>, b: int)
    requires
        0 <= b <= s.len(),
        forall|k: int| b <= k < s.len() ==> is_space(s[k]),
        b == 0 || !is_space(s[b - 1]),
    ensures
        trim_end(s) == s.take(b),
    decreases s.len() - b,
{
    if b == s.len() {
        assert(s.take(b) =~= s);
    } else {
        let d = s.drop_last();
        lemma_trim_end(d, b);
        assert(d.take(b) =~= s.take(b));
    }
}

/// `s` without leading and trailing white space.
pub fn trim_chars(s: &Vec<char>) -> (r: Vec<char>)
    ensures
        r@ == trim(s@),
{
    let n = s.len();
    let mut a: usize = 0;
    while a < n && char_is_space(s[a])
        invariant
            n == s@.len(),
            a <= n,
            forall|k: int| 0 <= k < a ==> is_space(s@[k]),
        decreases n - a,
    {
        a = a + 1;
    }
    let mut b: usize = n;
    while b > a && char_is_space(s[b - 1])
        invariant
            n == s@.len(),
            a <= b <= n,
            forall|k: int| b <= k < n ==> is_space(s@[k]),
        decreases b,
    {
        b = b - 1;
    }
    proof {
        lemma_trim_start(s@, a as int);
        let t = s@.skip(a as int);
        assert forall|k: int| b - a <= k < t.len() implies is_space(t[k]) by {
            assert(t[k] == s@[k + a]);
        }
        if b > a {
            assert(t[b - a - 1] == s@[b - 1]);
        }
        lemma_trim_end(t, b - a);
        assert(t.take(b - a) =~= s@.subrange(a as int, b as int));
    }
    sub_chars(s, a, b)
}

/// The white-space separated words of `s`, and whether `s` ends inside a word.
pub open spec fn words_acc(s: Seq<char>) -> (Seq<Seq<char>>, bool)
    decreases s.len(),
{
    if s.len() == 0 {
        (seq![], false)
    } else {
        let (r, in_word) = words_acc(s.drop_last());
        let c = s.last();
        if is_space(c) {
            (r, false)
        } else if in_word {
            (r.update(r.len() - 1, r.last().push(c)), true)
        } else {
            (r.push(seq![c]), true)
        }
    }
}

/// The white-space separated words of `s`, as `str::split_whitespace` gives them.
pub open spec fn words(s: Seq<char>) -> Seq<Seq<char>> {
    words_acc(s).0
}

pub proof fn lemma_words_acc(s: Seq<char>)
    ensures
        words_acc(s).1 ==> words_acc(s).0.len() > 0,
    decreases s.len(),
{
    if s.len() > 0 {
        lemma_words_acc(s.drop_last());
    }
}

/// The white-space separated words of `s`.
pub fn split_words(s: &Vec<char>) -> (r: Vec<Vec<char>>)
    ensures
        vviews(r@) == words(s@),
{
    let mut done: Vec<Vec<char>> = Vec::new();
    let mut cur: Vec<char> = Vec::new();
    let mut in_word = false;
    let mut i: usize = 0;
    while i < s.len()
        invariant
            i <= s.len(),
            in_word == words_acc(s@.take(i as int)).1,
            !in_word ==> cur@.len() == 0 && vviews(done@) == words_acc(s@.take(i as int)).0,
            in_word ==> vviews(done@).push(cur@) == words_acc(s@.take(i as int)).0,
        decreases s.len() - i,
    {
        proof {
            assert(s@.take(i as int + 1).drop_last() =~= s@.take(i as int));
            lemma_words_acc(s@.take(i as int));
        }
        let c = s[i];
        if char_is_space(c) {
            if in_word {
                let ghost before = done@;
                let word = cur;
                done.push(word);
                cur = Vec::new();
                proof {
                    assert(vviews(done@) =~= vviews(before).push(word@));
                }
            }
            in_word = false;
        } else {
            let ghost before = cur@;
            cur.push(c);
            proof {
                if in_word {
                    let r = vviews(done@).push(before);
                    assert(vviews(done@).push(cur@) =~= r.update(r.len() - 1, r.last().push(c)));
                } else {
                    assert(cur@ =~= seq![c]);
                }
            }
            in_word = true;
        }
        i = i + 1;
    }
    proof {
        assert(s@.take(s.len() as int) =~= s@);
    }
    if in_word {
        let ghost before = done@;
        let word = cur;
        done.push(word);
        proof {
            assert(vviews(done@) =~= vviews(before).push(word@));
        }
    }
    done
}

/// A line without the carriage return that ended it.
pub open spec fn strip_cr(p: Seq<char>) -> Seq<char> {
    if p.len() > 0 && p.last() == '\r' {
        p.drop_last()
    } else {
        p
    }
}

/// The lines of `s`, as `str::lines` gives them: split at each newline,
/// each line that a newline ends losing one carriage return before it, and
/// no empty line after a final newline.
pub open spec fn lines_of(s: Seq<char>) -> Seq<Seq<char>> {
    let p = split_char(s, '\n');
    p.take(p.len() - 1).map_values(|x: Seq<char>| strip_cr(x)) + if p.last().len() > 0 {
        seq![p.last()]
    } else {
        Seq::<Seq<char>>::empty()
    }
}

/// The lines of `s`.
pub fn split_lines(s: &Vec<char>) -> (r: Vec<Vec<char>>)
    ensures
        vviews(r@) == lines_of(s@),
{
    let pieces = split_chars(s, '\n');
    proof {
        lemma_split_char_len(s@, '\n');
    }
    let n = pieces.len();
    let mut r: Vec<Vec<char>> = Vec::new();
    let mut i: usize = 0;
    let ghost p = split_char(s@, '\n');
    while i + 1 < n
        invariant
            n == pieces@.len(),
            n >= 1,
            i + 1 <= n,
            p == split_char(s@, '\n'),
            vviews(pieces@) == p,
            vviews(r@) == p.take(i as int).map_values(|x: Seq<char>| strip_cr(x)),
        decreases n - i,
    {
        let piece = &pieces[i];
        let len = piece.len();
        let line = if len > 0 && piece[len - 1] == '\r' {
            sub_chars(piece, 0, len - 1)
        } else {
            sub_chars(piece, 0, len)
        };
        let ghost before = r@;
        r.push(line);
        proof {
            assert(p[i as int] == piece@);
            assert(line@ =~= strip_cr(piece@));
            assert(vviews(r@) =~= vviews(before).push(line@));
            assert(p.take(i as int + 1).map_values(|x: Seq<char>| strip_cr(x)) =~= p.take(
                i as int,
            ).map_values(|x: Seq<char>| strip_cr(x)).push(strip_cr(p[i as int])));
        }
        i = i + 1;
    }
    let last = &pieces[n - 1];
    proof {
        assert(p.last() == last@);
    }
    if last.len() > 0 {
        let ghost before = r@;
        let copy = sub_chars(last, 0, last.len());
        r.push(copy);
        proof {
            assert(vviews(r@) =~= vviews(before).push(copy@));
            assert(copy@ =~= p.last());
            assert(p.last().len() > 0);
            assert(p.len() == n);
            assert(lines_of(s@) == p.take(p.len() - 1).map_values(|x: Seq<char>| strip_cr(x)) + seq![p.last()]);
            assert(vviews(r@) =~= lines_of(s@));
        }
    } else {
        proof {
            assert(p.last().len() == 0);
            assert(lines_of(s@) =~= p.take(p.len() - 1).map_values(|x: Seq<char>| strip_cr(x)));
            assert(vviews(r@) =~= lines_of(s@));
        }
    }
    r
}

/// The ASCII lower case of a character's code.
pub open spec fn ascii_lower(c: char) -> u32 {
    if 65 <= (c as u32) <= 90 {
        (c as u32 + 32) as u32
    } else {
        c as u32
    }
}

/// Whether two texts are equal ignoring ASCII case, as
/// `str::eq_ignore_ascii_case` has it.
pub open spec fn eq_ignore_ascii_case(a: Seq<char>, b: Seq<char>) -> bool {
    a.len() == b.len() && forall|i: int| 0 <= i < a.len() ==> ascii_lower(a[i]) == ascii_lower(b[i])
}

/// Whether two texts are equal ignoring ASCII case.
pub fn chars_eq_ignore_ascii_case(a: &Vec<char>, b: &Vec<char>) -> (r: bool)
    ensures
        r == eq_ignore_ascii_case(a@, b@),
{
    if a.len() != b.len() {
        return false;
    }
    let mut i: usize = 0;
    while i < a.len()
        invariant
            a@.len() == b@.len(),
            i <= a@.len(),
            forall|k: int| 0 <= k < i ==> ascii_lower(a@[k]) == ascii_lower(b@[k]),
        decreases a.len() - i,
    {
        let x = a[i] as u32;
        let y = b[i] as u32;
        let lx = if 65 <= x && x <= 90 { x + 32 } else { x };
        let ly = if 65 <= y && y <= 90 { y + 32 } else { y };
        if lx != ly {
            return false;
        }
        i = i + 1;
    }
    true
}

/// The number that a string of decimal digits denotes.
pub open spec fn digits_value(d: Seq<char>) -> nat
    decreases d.len(),
{
    if d.len() == 0 {
        0
    } else {
        digits_value(d.drop_last()) * 10 + ((d.last() as u32) - 48) as nat
    }
}

/// Whether every character of `d` is a decimal digit.
pub open spec fn all_digits(d: Seq<char>) -> bool {
    forall|i: int| 0 <= i < d.len() ==> '0' <= #[trigger] d[i] <= '9'
}

/// `s` read as a `usize` in decimal, as `str::parse::<usize>` reads it: an
/// optional `+`, then at least one digit, and no more than `usize::MAX`.
pub open spec fn parse_usize(s: Seq<char>) -> Option<usize> {
    let d = if s.len() > 0 && s[0] == '+' {
        s.drop_first()
    } else {
        s
    };
    if d.len() > 0 && all_digits(d) && digits_value(d) <= usize::MAX {
        Some(digits_value(d) as usize)
    } else {
        None
    }
}

/// Reads a decimal `usize`.
pub fn parse_usize_chars(s: &Vec<char>) -> (r: Option<usize>)
    ensures
        r == parse_usize(s@),
{
    let start: usize = if s.len() > 0 && s[0] == '+' { 1 } else { 0 };
    let ghost d = if s@.len() > 0 && s@[0] == '+' {
        s@.drop_first()
    } else {
        s@
    };
    proof {
        assert(d =~= s@.skip(start as int));
    }
    if start == s.len() {
        return None;
    }
    let mut value: u128 = 0;
    let mut overflow = false;
    let mut i: usize = start;
    while i < s.len()
        invariant
            start <= i <= s@.len(),
            d =~= s@.skip(start as int),
            d == (if s@.len() > 0 && s@[0] == '+' {
                s@.drop_first()
            } else {
                s@
            }),
            all_digits(d.take(i - start)),
            !overflow ==> value == digits_value(d.take(i - start)) && value <= usize::MAX,
            overflow ==> digits_value(d.take(i - start)) > usize::MAX,
        decreases s.len() - i,
    {
        let c = s[i];
        proof {
            assert(d.take(i - start + 1).drop_last() =~= d.take(i - start));
            assert(d[i - start] == c);
        }
        if !('0' <= c && c <= '9') {
            proof {
                assert(!all_digits(d)) by {
                    assert(d[i - start] == c);
                }
                assert(d == if s@.len() > 0 && s@[0] == '+' {
                    s@.drop_first()
                } else {
                    s@
                });
                assert(parse_usize(s@) is None);
            }
            return None;
        }
        let digit = (c as u32 - 48) as u128;
        proof {
            assert(all_digits(d.take(i - start + 1))) by {
                assert forall|k: int| 0 <= k < i - start + 1 implies '0' <= #[trigger] d.take(
                    i - start + 1,
                )[k] <= '9' by {
                    if k < i - start {
                        assert(d.take(i - start + 1)[k] == d.take(i - start)[k]);
                    }
                }
            }
        }
        if !overflow {
            let next = value * 10 + digit;
            if next > usize::MAX as u128 {
                overflow = true;
            } else {
                value = next;
            }
        } else {
            proof {
                assert(digits_value(d.take(i - start + 1)) >= digits_value(d.take(i - start)));
            }
        }
        i = i + 1;
    }
    proof {
        assert(d.take(s@.len() - start) =~= d);
    }
    if overflow {
        None
    } else {
        Some(value as usize)
    }
}

/// The value a header line gives `Content-Length`, if it is that header.
pub open spec fn content_length_header(line: Seq<char>) -> Option<usize> {
    match split_once_char(line, ':') {
        Some(kv) => if eq_ignore_ascii_case(trim(kv.0), "content-length"@) {
            Some(
                match parse_usize(trim(kv.1)) {
                    Some(v) => v,
                    None => 0,
                },
            )
        } else {
            None
        },
        None => None,
    }
}

/// The body length the header lines announce: the last `Content-Length`
/// line counts, and zero when there is none.
pub open spec fn content_length_of(lines: Seq<Seq<char>>) -> usize
    decreases lines.len(),
{
    if lines.len() == 0 {
        0
    } else {
        match content_length_header(lines.last()) {
            Some(v) => v,
            None => content_length_of(lines.drop_last()),
        }
    }
}

/// The parts of a request head.
pub struct RequestHead {
    pub method: String,
    pub path: String,
    pub query: String,
    pub content_length: usize,
}

/// The parts of a request head, as text.
pub struct RequestHeadView {
    pub method: Seq<char>,
    pub path: Seq<char>,
    pub query: Seq<char>,
    pub content_length: usize,
}

/// The meaning of the text of a request head, or the reason it has none.
pub open spec fn parse_head(h: Seq<char>) -> Result<RequestHeadView, Seq<char>> {
    let ls = lines_of(h);
    if ls.len() == 0 {
        Err("missing request line"@)
    } else {
        let ws = words(ls[0]);
        if ws.len() == 0 {
            Err("missing method"@)
        } else if ws.len() == 1 {
            Err("missing request target"@)
        } else {
            let target = ws[1];
            let (path, query) = match split_once_char(target, '?') {
                Some(pq) => (pq.0, pq.1),
                None => (target, Seq::<char>::empty()),
            };
            Ok(
                RequestHeadView {
                    method: ws[0],
                    path: path,
                    query: query,
                    content_length: content_length_of(ls.drop_first()),
                },
            )
        }
    }
}

/// The `Content-Length` that one header line gives, if it is that header.
pub fn header_content_length(line: &Vec<char>) -> (r: Option<usize>)
    ensures
        r == content_length_header(line@),
{
    match find_char(line, ':') {
        Some(k) => {
            proof {
                lemma_first_char_index(line@, ':');
                assert(k < line@.len());
                assert(line@.take(k as int) =~= line@.subrange(0, k as int));
                assert(line@.skip(k + 1) =~= line@.subrange(k + 1, line@.len() as int));
            }
            let n = line.len();
            let key = trim_chars(&sub_chars(line, 0, k));
            let name = chars_of("content-length");
            if chars_eq_ignore_ascii_case(&key, &name) {
                let value = trim_chars(&sub_chars(line, k + 1, n));
                match parse_usize_chars(&value) {
                    Some(v) => Some(v),
                    None => Some(0),
                }
            } else {
                None
            }
        },
        None => None,
    }
}

/// Reads the request line and headers of an HTTP request.
pub fn parse_head_text(text: &Vec<char>) -> (r: Result<RequestHead, String>)
    ensures
        match parse_head(text@) {
            Ok(h) => r matches Ok(x) && x.method@ == h.method && x.path@ == h.path && x.query@
                == h.query && x.content_length == h.content_length,
            Err(e) => r matches Err(x) && x@ == e,
        },
{
    let lines = split_lines(text);
    if lines.len() == 0 {
        return Err("missing request line".to_string());
    }
    proof {
        assert(vviews(lines@)[0] == lines@[0]@);
    }
    let ws = split_words(&lines[0]);
    if ws.len() == 0 {
        return Err("missing method".to_string());
    }
    if ws.len() == 1 {
        return Err("missing request target".to_string());
    }
    proof {
        assert(vviews(ws@)[0] == ws@[0]@);
        assert(vviews(ws@)[1] == ws@[1]@);
    }
    let target = &ws[1];
    let (path, query) = match find_char(target, '?') {
        Some(k) => {
            proof {
                lemma_first_char_index(target@, '?');
                assert(k < target@.len());
                assert(target@.take(k as int) =~= target@.subrange(0, k as int));
                assert(target@.skip(k + 1) =~= target@.subrange(k + 1, target@.len() as int));
            }
            let n = target.len();
            (sub_chars(target, 0, k), sub_chars(target, k + 1, n))
        },
        None => {
            let n = target.len();
            proof {
                assert(target@.subrange(0, n as int) =~= target@);
            }
            (sub_chars(target, 0, n), Vec::new())
        },
    };
    let mut content_length: usize = 0;
    let mut i: usize = 1;
    let ghost rest = vviews(lines@).drop_first();
    while i < lines.len()
        invariant
            1 <= i <= lines@.len(),
            rest == vviews(lines@).drop_first(),
            content_length == content_length_of(rest.take(i - 1)),
        decreases lines.len() - i,
    {
        proof {
            assert(rest.take(i as int).drop_last() =~= rest.take(i - 1));
            assert(rest.take(i as int).last() == lines@[i as int]@);
        }
        match header_content_length(&lines[i]) {
            Some(v) => {
                content_length = v;
            },
            None => {},
        }
        i = i + 1;
    }
    proof {
        assert(rest.take(lines@.len() - 1) =~= rest);
        assert(query@ =~= match split_once_char(vviews(ws@)[1], '?') {
            Some(pq) => pq.1,
            None => Seq::<char>::empty(),
        });
    }
    Ok(
        RequestHead {
            method: string_from_chars(&ws[0]),
            path: string_from_chars(&path),
            query: string_from_chars(&query),
            content_length,
        },
    )
}

/// The text that `String::from_utf8_lossy` makes of `bytes`: UTF-8 decoding
/// in which each invalid sequence becomes U+FFFD.
pub uninterp spec fn utf8_lossy(bytes: Seq<u8>) -> Seq<char>;

/// Whether every byte is ASCII.
pub open spec fn all_ascii(bytes: Seq<u8>) -> bool {
    forall|i: int| 0 <= i < bytes.len() ==> #[trigger] bytes[i] < 128
}

/// ASCII bytes read as the characters they encode.
pub open spec fn ascii_text(bytes: Seq<u8>) -> Seq<char> {
    bytes.map_values(|b: u8| b as char)
}

/// `String::from_utf8_lossy` on `bytes`. It is a function of the bytes alone,
/// named `utf8_lossy`. Valid UTF-8 comes back unchanged, as std documents,
/// so ASCII bytes read as the characters they encode; of other bytes,
/// nothing more is stated.
#[verifier::external_body]
pub(crate) fn decode_utf8_lossy(bytes: &[u8]) -> (r: String)
    ensures
        r@ == utf8_lossy(bytes@),
        all_ascii(bytes@) ==> r@ == ascii_text(bytes@),
{
    String::from_utf8_lossy(bytes).into_owned()
}

/// Reads the request line and headers from the bytes before the blank line.
pub fn parse_request_head(head: &[u8]) -> (r: Result<RequestHead, String>)
    ensures
        match parse_head(utf8_lossy(head@)) {
            Ok(h) => r matches Ok(x) && x.method@ == h.method && x.path@ == h.path && x.query@
                == h.query && x.content_length == h.content_length,
            Err(e) => r matches Err(x) && x@ == e,
        },
        all_ascii(head@) ==> utf8_lossy(head@) == ascii_text(head@),
{
    let text = decode_utf8_lossy(head);
    let chars = chars_of(text.as_str());
    parse_head_text(&chars)
}

} // verus!
