use vstd::prelude::*;

verus! {

// ---------------------------------------------------------------------------
// Characters
// ---------------------------------------------------------------------------

/// The characters with the Unicode `White_Space` property (as `char::is_whitespace`).
pub open spec fn is_white_space(c: char) -> bool {
    let n = c as u32;
    (9 <= n <= 13) || n == 32 || n == 0x85 || n == 0xA0 || n == 0x1680 || (0x2000 <= n
        <= 0x200A) || n == 0x2028 || n == 0x2029 || n == 0x202F || n == 0x205F || n == 0x3000
}

pub open spec fn is_digit(c: char) -> bool {
    '0' <= c <= '9'
}

pub open spec fn digit_value(c: char) -> nat {
    (c as u32 - '0' as u32) as nat
}

pub open spec fn all_digits(s: Seq<char>) -> bool {
    forall|i: int| 0 <= i < s.len() ==> is_digit(#[trigger] s[i])
}

pub fn white_space(c: char) -> (b: bool)
    ensures
        b == is_white_space(c),
{
    let n = c as u32;
    (9 <= n && n <= 13) || n == 32 || n == 0x85 || n == 0xA0 || n == 0x1680 || (0x2000 <= n && n
        <= 0x200A) || n == 0x2028 || n == 0x2029 || n == 0x202F || n == 0x205F || n == 0x3000
}

fn digit(c: char) -> (b: bool)
    ensures
        b == is_digit(c),
{
    '0' <= c && c <= '9'
}

// ---------------------------------------------------------------------------
// Splitting at white space (as `str::split_whitespace`)
// ---------------------------------------------------------------------------

/// The end of the run of non-white-space characters that starts at `i`.
pub open spec fn token_end(s: Seq<char>, i: int) -> int
    decreases s.len() - i,
{
    if i < 0 || i >= s.len() || is_white_space(s[i]) {
        i
    } else {
        token_end(s, i + 1)
    }
}

pub proof fn lemma_token_end(s: Seq<char>, i: int)
    requires
        0 <= i <= s.len(),
    ensures
        i <= token_end(s, i) <= s.len(),
        i < s.len() && !is_white_space(s[i]) ==> i < token_end(s, i),
        forall|k: int| i <= k < token_end(s, i) ==> !is_white_space(#[trigger] s[k]),
        token_end(s, i) < s.len() ==> is_white_space(s[token_end(s, i)]),
    decreases s.len() - i,
{
    if i < s.len() && !is_white_space(s[i]) {
        lemma_token_end(s, i + 1);
    }
}

/// The maximal runs of non-white-space characters of `s` from position `i` on.
pub open spec fn tokens_from(s: Seq<char>, i: int) -> Seq<Seq<char>>
    decreases s.len() - i,
{
    if i < 0 || i >= s.len() {
        seq![]
    } else if is_white_space(s[i]) {
        tokens_from(s, i + 1)
    } else {
        proof {
            lemma_token_end(s, i);
        }
        let j = token_end(s, i);
        seq![s.subrange(i, j)] + tokens_from(s, j)
    }
}

/// The maximal runs of non-white-space characters of `s`, in order.
pub open spec fn tokens(s: Seq<char>) -> Seq<Seq<char>> {
    tokens_from(s, 0)
}

/// Copies `s[from..to]`.
pub fn copy_range(s: &[char], from: usize, to: usize) -> (v: Vec<char>)
    requires
        from <= to <= s@.len(),
    ensures
        v@ == s@.subrange(from as int, to as int),
{
    let mut v: Vec<char> = Vec::new();
    let mut k = from;
    while k < to
        invariant
            from <= k <= to <= s@.len(),
            v@ == s@.subrange(from as int, k as int),
        decreases to - k,
    {
        v.push(s[k]);
        k = k + 1;
        assert(v@ =~= s@.subrange(from as int, k as int));
    }
    v
}

/// Splits `s` at white space.
pub fn split_white_space(s: &[char]) -> (toks: Vec<Vec<char>>)
    ensures
        toks@.map_values(|v: Vec<char>| v@) == tokens(s@),
{
    let mut toks: Vec<Vec<char>> = Vec::new();
    let mut i: usize = 0;
    let n = s.len();
    while i < n
        invariant
            n == s@.len(),
            i <= n,
            toks@.map_values(|v: Vec<char>| v@) + tokens_from(s@, i as int) == tokens(s@),
        decreases n - i,
    {
        if white_space(s[i]) {
            i = i + 1;
        } else {
            let mut j = i;
            while j < n && !white_space(s[j])
                invariant
                    n == s@.len(),
                    i <= j <= n,
                    token_end(s@, i as int) == token_end(s@, j as int),
                decreases n - j,
            {
                j = j + 1;
            }
            proof {
                lemma_token_end(s@, i as int);
            }
            let t = copy_range(s, i, j);
            let ghost before = toks@.map_values(|v: Vec<char>| v@);
            let ghost tv = t@;
            toks.push(t);
            assert(toks@.map_values(|v: Vec<char>| v@) =~= before.push(tv));
            assert(tokens_from(s@, i as int) == seq![s@.subrange(i as int, j as int)]
                + tokens_from(s@, j as int));
            assert(toks@.map_values(|v: Vec<char>| v@) + tokens_from(s@, j as int) =~= before + tokens_from(
                s@,
                i as int,
            ));
            i = j;
        }
    }
    assert(toks@.map_values(|v: Vec<char>| v@) + tokens_from(s@, i as int) =~= toks@.map_values(|v: Vec<char>| v@));
    toks
}

// ---------------------------------------------------------------------------
// Decimal indices (as `str::parse::<usize>`)
// ---------------------------------------------------------------------------

/// The value of a string of decimal digits.
pub open spec fn digits_value(s: Seq<char>) -> nat
    decreases s.len(),
{
    if s.len() == 0 {
        0
    } else {
        digits_value(s.drop_last()) * 10 + digit_value(s.last())
    }
}

/// The digits of an index: the text without one leading `+`.
pub open spec fn unsigned_digits(s: Seq<char>) -> Seq<char> {
    if s.len() > 0 && s[0] == '+' {
        s.skip(1)
    } else {
        s
    }
}

/// An optional `+` followed by at least one decimal digit, whose value fits in `usize`.
pub open spec fn parse_index_spec(s: Seq<char>) -> Option<usize> {
    let d = unsigned_digits(s);
    if d.len() > 0 && all_digits(d) && digits_value(d) <= usize::MAX {
        Some(digits_value(d) as usize)
    } else {
        None
    }
}

proof fn lemma_digits_value_grows(s: Seq<char>, k: int)
    requires
        0 <= k <= s.len(),
        all_digits(s),
    ensures
        digits_value(s.take(k)) <= digits_value(s),
    decreases s.len() - k,
{
    if k < s.len() {
        lemma_digits_value_grows(s, k + 1);
        assert(s.take(k + 1).drop_last() =~= s.take(k));
    } else {
        assert(s.take(k) =~= s);
    }
}

/// Parses an index as `str::parse::<usize>` does.
pub fn parse_index(s: &[char]) -> (r: Option<usize>)
    ensures
        r == parse_index_spec(s@),
{
    let n = s.len();
    let start: usize = if n > 0 && s[0] == '+' {
        1
    } else {
        0
    };
    let ghost d = unsigned_digits(s@);
    assert(d =~= s@.skip(start as int));
    if start == n {
        return None;
    }
    let mut k = start;
    let mut acc: usize = 0;
    while k < n
        invariant
            n == s@.len(),
            start < n,
            start <= k <= n,
            d == s@.skip(start as int),
            d == unsigned_digits(s@),
            all_digits(d.take(k - start)),
            acc == digits_value(d.take(k - start)),
        decreases n - k,
    {
        if !digit(s[k]) {
            assert(d[k - start] == s@[k as int]);
            assert(!all_digits(d));
            return None;
        }
        let dv = (s[k] as u32 - '0' as u32) as usize;
        proof {
            assert(d.take(k + 1 - start).drop_last() =~= d.take(k - start));
            assert(d.take(k + 1 - start).last() == s@[k as int]);
        }
        match acc.checked_mul(10) {
            Some(m) => match m.checked_add(dv) {
                Some(v) => {
                    acc = v;
                },
                None => {
                    proof {
                        assert(all_digits(d.take(k + 1 - start)));
                        if all_digits(d) {
                            lemma_digits_value_grows(d, k + 1 - start);
                        }
                    }
                    return None;
                },
            },
            None => {
                proof {
                    assert(all_digits(d.take(k + 1 - start)));
                    if all_digits(d) {
                        lemma_digits_value_grows(d, k + 1 - start);
                    }
                }
                return None;
            },
        }
        k = k + 1;
    }
    assert(d.take(n - start) =~= d);
    Some(acc)
}

// ---------------------------------------------------------------------------
// Decimal floating-point literals (as `str::parse::<f64>`)
// ---------------------------------------------------------------------------

pub open spec fn is_sign(c: char) -> bool {
    c == '+' || c == '-'
}

pub open spec fn is_exp_mark(c: char) -> bool {
    c == 'e' || c == 'E'
}

/// ASCII letters to lower case; every other character is left as it is.
pub open spec fn ascii_lower(c: char) -> char {
    if 'A' <= c <= 'Z' {
        ((c as u32) + 32) as char
    } else {
        c
    }
}

pub open spec fn lower(s: Seq<char>) -> Seq<char> {
    s.map_values(|c: char| ascii_lower(c))
}

/// `inf`, `infinity` or `nan`, in any case.
pub open spec fn is_special(s: Seq<char>) -> bool {
    lower(s) == seq!['i', 'n', 'f'] || lower(s) == seq!['i', 'n', 'f', 'i', 'n', 'i', 't', 'y']
        || lower(s) == seq!['n', 'a', 'n']
}

/// `Digit+ | Digit+ '.' Digit* | Digit* '.' Digit+`: digits and at most one point, with at
/// least one digit.
pub open spec fn is_mantissa(s: Seq<char>) -> bool {
    &&& forall|i: int| 0 <= i < s.len() ==> is_digit(#[trigger] s[i]) || s[i] == '.'
    &&& exists|i: int| 0 <= i < s.len() && is_digit(#[trigger] s[i])
    &&& forall|i: int, j: int|
        0 <= i < s.len() && 0 <= j < s.len() && #[trigger] s[i] == '.' && #[trigger] s[j] == '.'
            ==> i == j
}

/// `'e' Sign? Digit+` (with `e` in any case).
pub open spec fn is_exponent(s: Seq<char>) -> bool {
    &&& s.len() > 0
    &&& is_exp_mark(s[0])
    &&& {
        let r = s.skip(1);
        let d = if r.len() > 0 && is_sign(r[0]) {
            r.skip(1)
        } else {
            r
        };
        d.len() > 0 && all_digits(d)
    }
}

/// The position of the first exponent mark at or after `i`, or the length.
pub open spec fn exp_start(s: Seq<char>, i: int) -> int
    decreases s.len() - i,
{
    if i < 0 || i >= s.len() || is_exp_mark(s[i]) {
        i
    } else {
        exp_start(s, i + 1)
    }
}

pub open spec fn is_number(s: Seq<char>) -> bool {
    let k = exp_start(s, 0);
    is_mantissa(s.take(k)) && (k == s.len() || is_exponent(s.skip(k)))
}

/// The text without one leading sign.
pub open spec fn unsigned_part(s: Seq<char>) -> Seq<char> {
    if s.len() > 0 && is_sign(s[0]) {
        s.skip(1)
    } else {
        s
    }
}

/// `Sign? ( 'inf' | 'infinity' | 'nan' | Number )`, case-insensitive: the strings that
/// `str::parse::<f64>` accepts.
pub open spec fn is_float_literal(s: Seq<char>) -> bool {
    is_special(unsigned_part(s)) || is_number(unsigned_part(s))
}

fn lower_char(c: char) -> (l: char)
    ensures
        l == ascii_lower(c),
{
    if 'A' <= c && c <= 'Z' {
        if c == 'A' { 'a' } else if c == 'B' { 'b' } else if c == 'C' { 'c' } else if c == 'D' { 'd' }
        else if c == 'E' { 'e' } else if c == 'F' { 'f' } else if c == 'G' { 'g' } else if c == 'H' { 'h' }
        else if c == 'I' { 'i' } else if c == 'J' { 'j' } else if c == 'K' { 'k' } else if c == 'L' { 'l' }
        else if c == 'M' { 'm' } else if c == 'N' { 'n' } else if c == 'O' { 'o' } else if c == 'P' { 'p' }
        else if c == 'Q' { 'q' } else if c == 'R' { 'r' } else if c == 'S' { 's' } else if c == 'T' { 't' }
        else if c == 'U' { 'u' } else if c == 'V' { 'v' } else if c == 'W' { 'w' } else if c == 'X' { 'x' }
        else if c == 'Y' { 'y' } else { 'z' }
    } else {
        c
    }
}

/// Whether `s[from..]` is, in lower case, the word `w`.
fn rest_is_word(s: &[char], from: usize, w: &[char]) -> (b: bool)
    requires
        from <= s@.len(),
    ensures
        b == (lower(s@.skip(from as int)) == w@),
{
    let n = s.len();
    let ghost r = s@.skip(from as int);
    if n - from != w.len() {
        assert(lower(r).len() != w@.len());
        return false;
    }
    let mut k: usize = 0;
    while k < w.len()
        invariant
            n == s@.len(),
            from <= n,
            n - from == w@.len(),
            r == s@.skip(from as int),
            0 <= k <= w@.len(),
            forall|j: int| 0 <= j < k ==> ascii_lower(#[trigger] r[j]) == w@[j],
        decreases w@.len() - k,
    {
        if lower_char(s[from + k]) != w[k] {
            assert(lower(r)[k as int] != w@[k as int]);
            return false;
        }
        k = k + 1;
    }
    assert(lower(r) =~= w@);
    true
}

/// Whether `s` is a literal that `str::parse::<f64>` accepts.
pub fn float_literal(s: &[char]) -> (b: bool)
    ensures
        b == is_float_literal(s@),
{
    let n = s.len();
    let start: usize = if n > 0 && (s[0] == '+' || s[0] == '-') {
        1
    } else {
        0
    };
    let ghost u = unsigned_part(s@);
    assert(u =~= s@.skip(start as int));
    let inf = ['i', 'n', 'f'];
    let infinity = ['i', 'n', 'f', 'i', 'n', 'i', 't', 'y'];
    let nan = ['n', 'a', 'n'];
    assert(inf@ =~= seq!['i', 'n', 'f']);
    assert(infinity@ =~= seq!['i', 'n', 'f', 'i', 'n', 'i', 't', 'y']);
    assert(nan@ =~= seq!['n', 'a', 'n']);
    if rest_is_word(s, start, &inf) || rest_is_word(s, start, &infinity)
        || rest_is_word(s, start, &nan) {
        return true;
    }
    let b = number(s, start);
    b
}

/// Whether `s[start..]` is a `Number`.
fn number(s: &[char], start: usize) -> (b: bool)
    requires
        start <= s@.len(),
    ensures
        b == is_number(s@.skip(start as int)),
{
    let n = s.len();
    let ghost u = s@.skip(start as int);
    // mantissa
    let mut k = start;
    let mut seen_digit = false;
    let mut seen_point = false;
    let ghost mut point_at: int = -1;
    while k < n && s[k] != 'e' && s[k] != 'E'
        invariant
            n == s@.len(),
            start <= k <= n,
            u == s@.skip(start as int),
            exp_start(u, 0) == exp_start(u, k - start),
            forall|i: int| 0 <= i < k - start ==> is_digit(#[trigger] u[i]) || u[i] == '.',
            forall|i: int| 0 <= i < k - start ==> !is_exp_mark(#[trigger] u[i]),
            seen_digit == (exists|i: int| 0 <= i < k - start && is_digit(#[trigger] u[i])),
            seen_point ==> 0 <= point_at < k - start && u[point_at] == '.',
            forall|i: int| 0 <= i < k - start && #[trigger] u[i] == '.' ==> seen_point && i
                == point_at,
        decreases n - k,
    {
        let c = s[k];
        if digit(c) {
            seen_digit = true;
            assert(is_digit(u[k - start]));
        } else if c == '.' {
            if seen_point {
                proof {
                    assert(u[k - start] == s@[k as int]);
                    lemma_exp_start_at_least(u, k - start + 1);
                    let m = exp_start(u, 0);
                    assert(u.take(m)[point_at] == '.');
                    assert(u.take(m)[k - start] == '.');
                }
                return false;
            }
            seen_point = true;
            proof {
                point_at = k - start;
            }
        } else {
            proof {
                assert(u[k - start] == s@[k as int]);
                lemma_exp_start_at_least(u, k - start + 1);
                let m = exp_start(u, 0);
                assert(!is_digit(u.take(m)[k - start]) && u.take(m)[k - start] != '.');
            }
            return false;
        }
        k = k + 1;
    }
    let ghost m = k - start;
    assert(exp_start(u, 0) == m);
    assert(u.take(m) =~= s@.subrange(start as int, k as int));
    if !seen_digit {
        assert forall|i: int| 0 <= i < u.take(m).len() implies !is_digit(#[trigger] u.take(m)[i]) by {
            assert(u.take(m)[i] == u[i]);
        }
        return false;
    }
    assert(is_mantissa(u.take(m))) by {
        let w = choose|i: int| 0 <= i < k - start && is_digit(#[trigger] u[i]);
        assert(is_digit(u.take(m)[w]));
        assert forall|i: int, j: int|
            0 <= i < u.take(m).len() && 0 <= j < u.take(m).len() && #[trigger] u.take(m)[i] == '.'
                && #[trigger] u.take(m)[j] == '.' implies i == j by {
            assert(u[i] == '.');
            assert(u[j] == '.');
        }
        assert forall|i: int| 0 <= i < u.take(m).len() implies is_digit(#[trigger] u.take(m)[i])
            || u.take(m)[i] == '.' by {
            assert(u.take(m)[i] == u[i]);
        }
    }
    if k == n {
        return true;
    }
    // exponent
    let ghost x = u.skip(m);
    assert(x =~= s@.skip(k as int));
    let mut j = k + 1;
    if j < n && (s[j] == '+' || s[j] == '-') {
        j = j + 1;
    }
    let ghost d = if x.skip(1).len() > 0 && is_sign(x.skip(1)[0]) {
        x.skip(1).skip(1)
    } else {
        x.skip(1)
    };
    assert(d =~= s@.skip(j as int));
    if j == n {
        return false;
    }
    let j0 = j;
    while j < n
        invariant
            n == s@.len(),
            j0 <= j <= n,
            j0 < n,
            d == s@.skip(j0 as int),
            u == s@.skip(start as int),
            x == u.skip(exp_start(u, 0)),
            exp_start(u, 0) < u.len(),
            d == (if x.skip(1).len() > 0 && is_sign(x.skip(1)[0]) {
                x.skip(1).skip(1)
            } else {
                x.skip(1)
            }),
            forall|i: int| 0 <= i < j - j0 ==> is_digit(#[trigger] d[i]),
        decreases n - j,
    {
        if !digit(s[j]) {
            assert(d[j - j0] == s@[j as int]);
            assert(!is_digit(d[j - j0]));
            assert(!all_digits(d));
            assert(!is_exponent(x));
            return false;
        }
        j = j + 1;
    }
    true
}

proof fn lemma_exp_start_at_least(s: Seq<char>, i: int)
    requires
        0 <= i <= s.len(),
    ensures
        i <= exp_start(s, i) <= s.len(),
        forall|k: int| i <= k < exp_start(s, i) ==> !is_exp_mark(#[trigger] s[k]),
    decreases s.len() - i,
{
    if i < s.len() && !is_exp_mark(s[i]) {
        lemma_exp_start_at_least(s, i + 1);
    }
}


// ---------------------------------------------------------------------------
// Laws of the readers
// ---------------------------------------------------------------------------

/// Every token is a non-empty run without white space.
pub proof fn lemma_tokens_are_runs(s: Seq<char>, i: int)
    requires
        0 <= i <= s.len(),
    ensures
        forall|k: int|
            0 <= k < tokens_from(s, i).len() ==> #[trigger] tokens_from(s, i)[k].len() > 0,
        forall|k: int, c: int|
            0 <= k < tokens_from(s, i).len() && 0 <= c < tokens_from(s, i)[k].len()
                ==> !is_white_space(#[trigger] tokens_from(s, i)[k][c]),
    decreases s.len() - i,
{
    if i < s.len() {
        if is_white_space(s[i]) {
            lemma_tokens_are_runs(s, i + 1);
            assert(tokens_from(s, i) == tokens_from(s, i + 1));
        } else {
            lemma_token_end(s, i);
            let j = token_end(s, i);
            lemma_tokens_are_runs(s, j);
            let ts = tokens_from(s, i);
            assert(ts == seq![s.subrange(i, j)] + tokens_from(s, j));
            assert forall|k: int, c: int|
                0 <= k < ts.len() && 0 <= c < ts[k].len() implies !is_white_space(
                #[trigger] ts[k][c],
            ) by {
                if k == 0 {
                    assert(ts[0][c] == s[i + c]);
                } else {
                    assert(ts[k] == tokens_from(s, j)[k - 1]);
                }
            }
            assert forall|k: int| 0 <= k < ts.len() implies #[trigger] ts[k].len() > 0 by {
                if k > 0 {
                    assert(ts[k] == tokens_from(s, j)[k - 1]);
                }
            }
        }
    }
}

/// The decimal digits of a number, without leading zeros.
pub open spec fn decimal(v: nat) -> Seq<char>
    decreases v,
{
    if v < 10 {
        seq![((v + 48) as u32) as char]
    } else {
        decimal(v / 10).push((((v % 10) + 48) as u32) as char)
    }
}

proof fn lemma_decimal_value(v: nat)
    ensures
        decimal(v).len() > 0,
        all_digits(decimal(v)),
        digits_value(decimal(v)) == v,
    decreases v,
{
    if v < 10 {
        let c = ((v + 48) as u32) as char;
        assert(c as u32 == v + 48);
        assert(decimal(v).drop_last() =~= Seq::<char>::empty());
        assert(digits_value(decimal(v)) == digits_value(Seq::<char>::empty()) * 10 + digit_value(c));
    } else {
        lemma_decimal_value(v / 10);
        let d = decimal(v);
        let c = (((v % 10) + 48) as u32) as char;
        assert(c as u32 == (v % 10) + 48);
        assert(d.drop_last() =~= decimal(v / 10));
        assert(d.last() == c);
        assert(digit_value(c) == v % 10);
        assert(v == (v / 10) * 10 + v % 10);
        assert forall|i: int| 0 <= i < d.len() implies is_digit(#[trigger] d[i]) by {
            if i < d.len() - 1 {
                assert(d[i] == decimal(v / 10)[i]);
            }
        }
    }
}

/// Every index reads back from its decimal digits, with or without a leading `+`.
pub proof fn lemma_index_round_trip(v: usize)
    ensures
        parse_index_spec(decimal(v as nat)) == Some(v),
        parse_index_spec(seq!['+'] + decimal(v as nat)) == Some(v),
{
    lemma_decimal_value(v as nat);
    let d = decimal(v as nat);
    assert(d[0] != '+');
    assert((seq!['+'] + d).skip(1) =~= d);
}

proof fn lemma_digits_value_leading_zero(d: Seq<char>)
    requires
        all_digits(d),
    ensures
        digits_value(seq!['0'] + d) == digits_value(d),
    decreases d.len(),
{
    if d.len() > 0 {
        assert(all_digits(d.drop_last()));
        lemma_digits_value_leading_zero(d.drop_last());
        assert((seq!['0'] + d).drop_last() =~= seq!['0'] + d.drop_last());
        assert((seq!['0'] + d).last() == d.last());
    } else {
        assert((seq!['0'] + d).drop_last() =~= Seq::<char>::empty());
        assert((seq!['0'] + d).last() == '0');
        assert(d =~= Seq::<char>::empty());
    }
}

/// A leading zero does not change an index.
pub proof fn lemma_index_leading_zero(d: Seq<char>)
    requires
        d.len() > 0,
        all_digits(d),
    ensures
        parse_index_spec(seq!['0'] + d) == parse_index_spec(d),
{
    lemma_digits_value_leading_zero(d);
    assert(d[0] != '+');
    assert forall|i: int| 0 <= i < (seq!['0'] + d).len() implies is_digit(
        #[trigger] (seq!['0'] + d)[i],
    ) by {
        if i > 0 {
            assert((seq!['0'] + d)[i] == d[i - 1]);
        }
    }
}

/// A non-empty run of decimal digits is a floating-point literal, also with a sign in
/// front, and so is such a run with one point inside or at either end.
pub proof fn lemma_digits_are_float_literals(d: Seq<char>, e: Seq<char>)
    requires
        d.len() > 0,
        all_digits(d),
        all_digits(e),
    ensures
        is_float_literal(d),
        is_float_literal(seq!['-'] + d),
        is_float_literal(seq!['+'] + d),
        is_float_literal(d + seq!['.'] + e),
        is_float_literal(e + seq!['.'] + d),
{
    lemma_digit_run_number(d);
    assert((seq!['-'] + d).skip(1) =~= d);
    assert((seq!['+'] + d).skip(1) =~= d);
    lemma_point_number(d + seq!['.'] + e, d.len() as int);
    lemma_point_number(e + seq!['.'] + d, e.len() as int);
}

proof fn lemma_no_exp_mark(s: Seq<char>, i: int)
    requires
        0 <= i <= s.len(),
        forall|k: int| 0 <= k < s.len() ==> !is_exp_mark(#[trigger] s[k]),
    ensures
        exp_start(s, i) == s.len(),
    decreases s.len() - i,
{
    if i < s.len() {
        lemma_no_exp_mark(s, i + 1);
    }
}

proof fn lemma_digit_run_number(d: Seq<char>)
    requires
        d.len() > 0,
        all_digits(d),
    ensures
        is_number(d),
        is_float_literal(d),
{
    assert forall|k: int| 0 <= k < d.len() implies !is_exp_mark(#[trigger] d[k]) by {
        assert(is_digit(d[k]));
    }
    lemma_no_exp_mark(d, 0);
    assert(d.take(d.len() as int) =~= d);
    assert(is_digit(d[0]));
    assert(unsigned_part(d) == d);
}

proof fn lemma_point_number(s: Seq<char>, p: int)
    requires
        0 <= p < s.len(),
        s[p] == '.',
        forall|k: int| 0 <= k < s.len() && k != p ==> is_digit(#[trigger] s[k]),
        s.len() >= 2,
    ensures
        is_float_literal(s),
{
    assert forall|k: int| 0 <= k < s.len() implies !is_exp_mark(#[trigger] s[k]) by {
        if k != p {
            assert(is_digit(s[k]));
        }
    }
    lemma_no_exp_mark(s, 0);
    assert(s.take(s.len() as int) =~= s);
    let w = if p == 0 { 1int } else { 0int };
    assert(is_digit(s[w]));
    assert forall|i: int, j: int|
        0 <= i < s.len() && 0 <= j < s.len() && #[trigger] s[i] == '.' && #[trigger] s[j] == '.'
            implies i == j by {
        if i != p {
            assert(is_digit(s[i]));
        }
        if j != p {
            assert(is_digit(s[j]));
        }
    }
    if s[0] == '+' || s[0] == '-' {
        if 0 != p {
            assert(is_digit(s[0]));
        }
    }
    assert(unsigned_part(s) == s);
}


proof fn lemma_token_end_shift(s: Seq<char>, i: int, u: Seq<char>, j: int)
    requires
        0 <= i <= s.len(),
        0 <= j <= u.len(),
        s.skip(i) == u.skip(j),
    ensures
        token_end(s, i) - i == token_end(u, j) - j,
    decreases s.len() - i,
{
    assert(s.skip(i).len() == s.len() - i);
    assert(u.skip(j).len() == u.len() - j);
    if i < s.len() {
        assert(s[i] == s.skip(i)[0]);
        assert(u[j] == u.skip(j)[0]);
        if !is_white_space(s[i]) {
            assert(s.skip(i + 1) =~= s.skip(i).drop_first());
            assert(u.skip(j + 1) =~= u.skip(j).drop_first());
            lemma_token_end_shift(s, i + 1, u, j + 1);
        }
    }
}

/// The tokens from a position depend only on the text from that position on.
proof fn lemma_tokens_shift(s: Seq<char>, i: int, u: Seq<char>, j: int)
    requires
        0 <= i <= s.len(),
        0 <= j <= u.len(),
        s.skip(i) == u.skip(j),
    ensures
        tokens_from(s, i) == tokens_from(u, j),
    decreases s.len() - i,
{
    assert(s.skip(i).len() == s.len() - i);
    assert(u.skip(j).len() == u.len() - j);
    if i < s.len() {
        assert(s[i] == s.skip(i)[0]);
        assert(u[j] == u.skip(j)[0]);
        if is_white_space(s[i]) {
            assert(s.skip(i + 1) =~= s.skip(i).drop_first());
            assert(u.skip(j + 1) =~= u.skip(j).drop_first());
            lemma_tokens_shift(s, i + 1, u, j + 1);
        } else {
            lemma_token_end(s, i);
            lemma_token_end(u, j);
            lemma_token_end_shift(s, i, u, j);
            let a = token_end(s, i);
            let b = token_end(u, j);
            assert(s.subrange(i, a) =~= s.skip(i).take(a - i));
            assert(u.subrange(j, b) =~= u.skip(j).take(b - j));
            assert(s.skip(a) =~= s.skip(i).skip(a - i));
            assert(u.skip(b) =~= u.skip(j).skip(b - j));
            lemma_tokens_shift(s, a, u, b);
        }
    }
}

proof fn lemma_token_end_of_run(s: Seq<char>, i: int, e: int)
    requires
        0 <= i <= e <= s.len(),
        forall|k: int| i <= k < e ==> !is_white_space(#[trigger] s[k]),
        e == s.len() || is_white_space(s[e]),
    ensures
        token_end(s, i) == e,
    decreases e - i,
{
    if i < e {
        lemma_token_end_of_run(s, i + 1, e);
    }
}

/// A word without white space, followed by a space and more text, is the first token,
/// and the tokens of the rest follow it.
pub proof fn lemma_tokens_join(w: Seq<char>, rest: Seq<char>)
    requires
        w.len() > 0,
        forall|k: int| 0 <= k < w.len() ==> !is_white_space(#[trigger] w[k]),
    ensures
        tokens(w + seq![' '] + rest) == seq![w] + tokens(rest),
{
    let t = w + seq![' '] + rest;
    let n = w.len() as int;
    assert forall|k: int| 0 <= k < n implies !is_white_space(#[trigger] t[k]) by {
        assert(t[k] == w[k]);
    }
    assert(t[n] == ' ');
    lemma_token_end_of_run(t, 0, n);
    assert(t.subrange(0, n) =~= w);
    assert(tokens_from(t, 0) == seq![w] + tokens_from(t, n));
    assert(tokens_from(t, n) == tokens_from(t, n + 1));
    assert(t.skip(n + 1) =~= rest.skip(0));
    lemma_tokens_shift(t, n + 1, rest, 0);
}

/// A word without white space is its only token.
pub proof fn lemma_tokens_word(w: Seq<char>)
    requires
        w.len() > 0,
        forall|k: int| 0 <= k < w.len() ==> !is_white_space(#[trigger] w[k]),
    ensures
        tokens(w) == seq![w],
{
    lemma_token_end_of_run(w, 0, w.len() as int);
    assert(w.subrange(0, w.len() as int) =~= w);
    assert(tokens_from(w, w.len() as int) == Seq::<Seq<char>>::empty());
    assert(seq![w] + Seq::<Seq<char>>::empty() =~= seq![w]);
}

/// The decimal digits of a number contain no white space.
pub proof fn lemma_decimal_is_word(v: nat)
    ensures
        decimal(v).len() > 0,
        forall|k: int| 0 <= k < decimal(v).len() ==> !is_white_space(#[trigger] decimal(v)[k]),
        parse_index_spec(decimal(v)) == (if v <= usize::MAX { Some(v as usize) } else { None }),
{
    lemma_decimal_value(v);
    assert forall|k: int| 0 <= k < decimal(v).len() implies !is_white_space(
        #[trigger] decimal(v)[k],
    ) by {
        assert(is_digit(decimal(v)[k]));
    }
    assert(decimal(v)[0] != '+');
}

} // verus!
