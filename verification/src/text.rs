//! Character-level text utilities: lexical order and prefix tests over
//! `Seq<char>`, with their executable forms. Rates of use are tiny (interface
//! names, short protocol tokens), so the executable forms favour clarity over
//! speed.

use vstd::prelude::*;

verus! {

/// Lexical order on character sequences, by code point, shorter prefixes
/// first.
pub open spec fn lex_le(a: Seq<char>, b: Seq<char>) -> bool
    decreases a.len(),
{
    if a.len() == 0 {
        true
    } else if b.len() == 0 {
        false
    } else if (a[0] as u32) == (b[0] as u32) {
        lex_le(a.drop_first(), b.drop_first())
    } else {
        (a[0] as u32) < (b[0] as u32)
    }
}

/// Lexical order is total: one of the two directions always holds.
pub proof fn lemma_lex_le_total(a: Seq<char>, b: Seq<char>)
    ensures
        lex_le(a, b) || lex_le(b, a),
    decreases a.len(),
{
    if a.len() > 0 && b.len() > 0 && (a[0] as u32) == (b[0] as u32) {
        lemma_lex_le_total(a.drop_first(), b.drop_first());
    }
}

/// Lexical order is transitive.
pub proof fn lemma_lex_le_trans(a: Seq<char>, b: Seq<char>, c: Seq<char>)
    requires
        lex_le(a, b),
        lex_le(b, c),
    ensures
        lex_le(a, c),
    decreases a.len(),
{
    if a.len() > 0 && b.len() > 0 && c.len() > 0 {
        if (a[0] as u32) == (b[0] as u32) && (b[0] as u32) == (c[0] as u32) {
            lemma_lex_le_trans(a.drop_first(), b.drop_first(), c.drop_first());
        }
    }
}

/// Dropping an equal prefix does not change how two sequences compare.
pub proof fn lemma_lex_le_skip(a: Seq<char>, b: Seq<char>, i: int)
    requires
        0 <= i <= a.len(),
        i <= b.len(),
        forall|k: int| 0 <= k < i ==> (a[k] as u32) == (b[k] as u32),
    ensures
        lex_le(a, b) == lex_le(a.skip(i), b.skip(i)),
    decreases i,
{
    if i > 0 {
        assert(a.len() > 0 && b.len() > 0 && (a[0] as u32) == (b[0] as u32));
        let a2 = a.drop_first();
        let b2 = b.drop_first();
        assert(forall|k: int| 0 <= k < i - 1 ==> a2[k] == a[k + 1] && b2[k] == b[k + 1]);
        assert(forall|k: int| 0 <= k < i - 1 ==> (a2[k] as u32) == (b2[k] as u32));
        lemma_lex_le_skip(a2, b2, i - 1);
        assert(a2.skip(i - 1) =~= a.skip(i));
        assert(b2.skip(i - 1) =~= b.skip(i));
    } else {
        assert(a.skip(0) =~= a);
        assert(b.skip(0) =~= b);
    }
}

/// Executable form of `lex_le`.
pub fn str_le(a: &str, b: &str) -> (r: bool)
    ensures
        r == lex_le(a@, b@),
{
    let la = a.unicode_len();
    let lb = b.unicode_len();
    let mut i: usize = 0;
    loop
        invariant
            i <= la,
            i <= lb,
            la == a@.len(),
            lb == b@.len(),
            forall|k: int| 0 <= k < i ==> (a@[k] as u32) == (b@[k] as u32),
        decreases la - i,
    {
        proof {
            lemma_lex_le_skip(a@, b@, i as int);
        }
        if i >= la {
            return true;
        }
        if i >= lb {
            return false;
        }
        let ca = a.get_char(i) as u32;
        let cb = b.get_char(i) as u32;
        if ca != cb {
            proof {
                assert(a@.skip(i as int)[0] == a@[i as int]);
                assert(b@.skip(i as int)[0] == b@[i as int]);
            }
            return ca < cb;
        }
        i = i + 1;
    }
}

/// Whether `p` is a prefix of `s`.
pub open spec fn has_prefix(s: Seq<char>, p: Seq<char>) -> bool {
    p.len() <= s.len() && s.subrange(0, p.len() as int) == p
}

/// Executable form of `has_prefix`.
pub fn starts_with(s: &str, p: &str) -> (r: bool)
    ensures
        r == has_prefix(s@, p@),
{
    let ls = s.unicode_len();
    let lp = p.unicode_len();
    if lp > ls {
        return false;
    }
    let mut i: usize = 0;
    while i < lp
        invariant
            i <= lp,
            lp <= ls,
            ls == s@.len(),
            lp == p@.len(),
            forall|k: int| 0 <= k < i ==> s@[k] == p@[k],
        decreases lp - i,
    {
        if s.get_char(i) != p.get_char(i) {
            proof {
                assert(s@.subrange(0, p@.len() as int)[i as int] == s@[i as int]);
            }
            return false;
        }
        i = i + 1;
    }
    proof {
        assert(s@.subrange(0, p@.len() as int) =~= p@);
    }
    true
}

/// Whether `p` occurs in `s` as a contiguous run.
pub open spec fn contains_sub(s: Seq<char>, p: Seq<char>) -> bool {
    exists|i: int|
        0 <= i && i + p.len() <= s.len() && #[trigger] s.subrange(i, i + p.len()) == p
}

/// Executable form of `contains_sub`.
pub fn contains_str(s: &str, p: &str) -> (r: bool)
    ensures
        r == contains_sub(s@, p@),
{
    let ls = s.unicode_len();
    let lp = p.unicode_len();
    if lp > ls {
        proof {
            assert(!contains_sub(s@, p@));
        }
        return false;
    }
    if lp == 0 {
        proof {
            let w: int = 0;
            assert(s@.subrange(w, w + p@.len()) =~= p@);
            assert(contains_sub(s@, p@));
        }
        return true;
    }
    let mut i: usize = 0;
    while i <= ls - lp
        invariant
            1 <= lp <= ls,
            ls == s@.len(),
            lp == p@.len(),
            i <= ls - lp + 1,
            forall|x: int| 0 <= x < i ==> #[trigger] s@.subrange(x, x + p@.len()) != p@,
        decreases ls - i,
    {
        let mut j: usize = 0;
        let mut matched = true;
        while matched && j < lp
            invariant
                i + lp <= ls,
                ls == s@.len(),
                lp == p@.len(),
                j <= lp,
                matched ==> forall|y: int| 0 <= y < j ==> s@[i + y] == #[trigger] p@[y],
                !matched ==> s@.subrange(i as int, i + p@.len()) != p@,
            decreases lp - j + (if matched { 1int } else { 0int }),
        {
            if s.get_char(i + j) != p.get_char(j) {
                matched = false;
                proof {
                    assert(s@.subrange(i as int, i + p@.len())[j as int] == s@[i + j]);
                }
            } else {
                j = j + 1;
            }
        }
        if matched {
            proof {
                assert(j == lp);
            }
            proof {
                assert(s@.subrange(i as int, i + p@.len()) =~= p@);
            }
            return true;
        }
        proof {
            assert(s@.subrange(i as int, i + p@.len()) != p@);
        }
        i = i + 1;
    }
    proof {
        assert forall|x: int|
            0 <= x && x + p@.len() <= s@.len() implies #[trigger] s@.subrange(x, x + p@.len())
            != p@ by {
            assert(x < i);
        }
    }
    false
}

/// Relies on `String::push`: appends the given character to the end of the
/// string.
#[verifier::external_body]
pub(crate) fn push_char(s: &mut String, c: char)
    ensures
        final(s)@ == old(s)@.push(c),
{
    s.push(c);
}

/// Whether `c` is a decimal digit.
pub open spec fn is_digit(c: char) -> bool {
    48 <= (c as u32) <= 57
}

/// The numeric value of a digit character.
pub open spec fn digit_val(c: char) -> nat {
    (((c as u32) - 48) as nat) % 10
}

/// The digit character for a value below ten.
pub open spec fn digit_char(d: nat) -> char {
    if d == 0 {
        '0'
    } else if d == 1 {
        '1'
    } else if d == 2 {
        '2'
    } else if d == 3 {
        '3'
    } else if d == 4 {
        '4'
    } else if d == 5 {
        '5'
    } else if d == 6 {
        '6'
    } else if d == 7 {
        '7'
    } else if d == 8 {
        '8'
    } else {
        '9'
    }
}

/// Every character is a decimal digit.
pub open spec fn all_digits(s: Seq<char>) -> bool {
    forall|i: int| 0 <= i < s.len() ==> is_digit(#[trigger] s[i])
}

/// The decimal rendering of a number, most significant digit first, no
/// leading zeros (zero itself renders as one digit).
pub open spec fn u64_digits(n: nat) -> Seq<char>
    decreases n,
{
    if n < 10 {
        seq![digit_char(n)]
    } else {
        u64_digits(n / 10).push(digit_char(n % 10))
    }
}

/// The numeric value of a digit string, most significant digit first.
pub open spec fn digits_val(s: Seq<char>) -> nat
    decreases s.len(),
{
    if s.len() == 0 {
        0
    } else {
        digits_val(s.drop_last()) * 10 + digit_val(s.last())
    }
}

/// The decimal rendering consists of digits, is never empty, and reads back
/// as the rendered number.
pub proof fn lemma_u64_digits(n: nat)
    ensures
        u64_digits(n).len() >= 1,
        all_digits(u64_digits(n)),
        digits_val(u64_digits(n)) == n,
    decreases n,
{
    if n < 10 {
        let s = u64_digits(n);
        assert(s =~= seq![digit_char(n)]);
        assert(s.last() == digit_char(n));
        assert(s.drop_last() =~= Seq::<char>::empty());
        assert(digits_val(Seq::<char>::empty()) == 0);
        assert(digits_val(s) == digits_val(s.drop_last()) * 10 + digit_val(s.last()));
        assert(digit_val(digit_char(n)) == n);
    } else {
        lemma_u64_digits(n / 10);
        let p = u64_digits(n / 10);
        let s = p.push(digit_char(n % 10));
        assert(s.drop_last() =~= p);
        assert(digits_val(s) == digits_val(p) * 10 + digit_val(digit_char(n % 10)));
        assert(digit_val(digit_char(n % 10)) == n % 10);
        assert((n / 10) * 10 + n % 10 == n) by (nonlinear_arith);
        assert forall|i: int| 0 <= i < s.len() implies is_digit(#[trigger] s[i]) by {
            if i < p.len() {
                assert(s[i] == p[i]);
            }
        }
    }
}

/// Appending a digit multiplies the value by ten and adds the digit.
pub proof fn lemma_digits_val_snoc(s: Seq<char>, c: char)
    ensures
        digits_val(s.push(c)) == digits_val(s) * 10 + digit_val(c),
{
    assert(s.push(c).drop_last() =~= s);
    assert(s.push(c).last() == c);
}

/// A digit string's value only grows as more digits follow.
pub proof fn lemma_digits_val_prefix(s: Seq<char>, k: int)
    requires
        0 <= k <= s.len(),
    ensures
        digits_val(s.take(k)) <= digits_val(s),
    decreases s.len() - k,
{
    if k < s.len() {
        lemma_digits_val_prefix(s, k + 1);
        let p = s.take(k);
        let q = s.take(k + 1);
        assert(q.drop_last() =~= p);
        assert(digits_val(q) == digits_val(p) * 10 + digit_val(q.last()));
        assert(digits_val(p) * 10 >= digits_val(p)) by (nonlinear_arith);
    } else {
        assert(s.take(k) =~= s);
    }
}

/// Executable form of `digit_char`.
fn digit_char_exec(d: u64) -> (c: char)
    requires
        d < 10,
    ensures
        c == digit_char(d as nat),
{
    match d {
        0 => '0',
        1 => '1',
        2 => '2',
        3 => '3',
        4 => '4',
        5 => '5',
        6 => '6',
        7 => '7',
        8 => '8',
        _ => '9',
    }
}

/// Render a number in decimal.
pub fn u64_to_string(n: u64) -> (r: String)
    ensures
        r@ == u64_digits(n as nat),
    decreases n,
{
    if n < 10 {
        let mut s = String::new();
        push_char(&mut s, digit_char_exec(n));
        proof {
            assert(s@ =~= seq![digit_char(n as nat)]);
        }
        s
    } else {
        let mut s = u64_to_string(n / 10);
        push_char(&mut s, digit_char_exec(n % 10));
        s
    }
}

/// Parse a decimal number: succeeds exactly on non-empty all-digit strings
/// whose value fits, and then yields that value.
pub fn parse_u64(s: &str) -> (r: Option<u64>)
    ensures
        match r {
            Option::Some(v) => s@.len() > 0 && all_digits(s@) && digits_val(s@) == v as nat,
            Option::None => s@.len() == 0 || !all_digits(s@) || digits_val(s@) > u64::MAX as nat,
        },
{
    let len = s.unicode_len();
    if len == 0 {
        return Option::None;
    }
    let mut acc: u64 = 0;
    let mut i: usize = 0;
    while i < len
        invariant
            i <= len,
            len == s@.len(),
            forall|k: int| 0 <= k < i ==> is_digit(#[trigger] s@[k]),
            acc as nat == digits_val(s@.take(i as int)),
        decreases len - i,
    {
        let c = s.get_char(i);
        let code = c as u32;
        if code < 48 || code > 57 {
            return Option::None;
        }
        let d: u64 = (code - 48) as u64;
        proof {
            assert(digit_val(c) == d as nat);
            lemma_digits_val_snoc(s@.take(i as int), c);
            assert(s@.take(i + 1) =~= s@.take(i as int).push(s@[i as int]));
        }
        if acc > (u64::MAX - d) / 10 {
            proof {
                assert(digits_val(s@.take(i + 1)) == (acc as nat) * 10 + d as nat);
                assert((acc as nat) * 10 + d as nat > u64::MAX as nat) by (nonlinear_arith)
                    requires
                        acc as nat > ((u64::MAX - d) / 10) as nat,
                        d < 10,
                ;
                lemma_digits_val_prefix(s@, i + 1);
            }
            return Option::None;
        }
        proof {
            assert((acc as nat) * 10 + d as nat <= u64::MAX as nat) by (nonlinear_arith)
                requires
                    acc as nat <= ((u64::MAX - d) / 10) as nat,
                    d < 10,
            ;
        }
        acc = acc * 10 + d;
        i = i + 1;
    }
    proof {
        assert(s@.take(len as int) =~= s@);
    }
    Option::Some(acc)
}

/// Parse a decimal number into 32 bits: succeeds exactly on non-empty
/// all-digit strings whose value fits.
pub fn parse_u32(s: &str) -> (r: Option<u32>)
    ensures
        match r {
            Option::Some(v) => s@.len() > 0 && all_digits(s@) && digits_val(s@) == v as nat,
            Option::None => s@.len() == 0 || !all_digits(s@) || digits_val(s@) > u32::MAX as nat,
        },
{
    match parse_u64(s) {
        Option::Some(v) => if v <= u32::MAX as u64 {
            Option::Some(v as u32)
        } else {
            Option::None
        },
        Option::None => Option::None,
    }
}

/// No character of `s` is `c`.
pub open spec fn free_of(s: Seq<char>, c: char) -> bool {
    forall|i: int| 0 <= i < s.len() ==> #[trigger] s[i] != c
}

/// Split at every occurrence of `sep`: n separators give n+1 tokens, empty
/// tokens included; the empty input gives one empty token.
pub open spec fn split_char_spec(s: Seq<char>, sep: char) -> Seq<Seq<char>>
    decreases s.len(),
{
    if s.len() == 0 {
        seq![Seq::<char>::empty()]
    } else if s[0] == sep {
        seq![Seq::<char>::empty()] + split_char_spec(s.drop_first(), sep)
    } else {
        let r = split_char_spec(s.drop_first(), sep);
        r.update(0, seq![s[0]] + r[0])
    }
}

/// A split is never empty.
pub proof fn lemma_split_len(s: Seq<char>, sep: char)
    ensures
        split_char_spec(s, sep).len() >= 1,
    decreases s.len(),
{
    if s.len() > 0 {
        lemma_split_len(s.drop_first(), sep);
    }
}

/// Prepending a separator-free prefix extends the first token of the split.
pub proof fn lemma_split_prepend(t: Seq<char>, tail: Seq<char>, sep: char)
    requires
        free_of(t, sep),
    ensures
        split_char_spec(t + tail, sep) == split_char_spec(tail, sep).update(
            0,
            t + split_char_spec(tail, sep)[0],
        ),
    decreases t.len(),
{
    lemma_split_len(tail, sep);
    let r = split_char_spec(tail, sep);
    if t.len() == 0 {
        assert(t + tail =~= tail);
        assert(t + r[0] =~= r[0]);
        assert(r.update(0, t + r[0]) =~= r);
    } else {
        let t2 = t.drop_first();
        assert(forall|i: int| 0 <= i < t2.len() ==> t2[i] == t[i + 1]);
        lemma_split_prepend(t2, tail, sep);
        let whole = t + tail;
        assert(whole[0] == t[0]);
        assert(whole.drop_first() =~= t2 + tail);
        let rr = split_char_spec(t2 + tail, sep);
        assert(rr == r.update(0, t2 + r[0]));
        assert(split_char_spec(whole, sep) == rr.update(0, seq![t[0]] + rr[0]));
        assert(seq![t[0]] + (t2 + r[0]) =~= t + r[0]);
        assert(rr.update(0, seq![t[0]] + rr[0]) =~= r.update(0, t + r[0]));
    }
}

/// Join tokens with a separator between neighbours.
pub open spec fn join_char_spec(ts: Seq<Seq<char>>, sep: char) -> Seq<char>
    decreases ts.len(),
{
    if ts.len() == 0 {
        Seq::<char>::empty()
    } else if ts.len() == 1 {
        ts[0]
    } else {
        ts[0] + seq![sep] + join_char_spec(ts.drop_first(), sep)
    }
}

/// Splitting a join of separator-free tokens gives the tokens back.
pub proof fn lemma_split_join(ts: Seq<Seq<char>>, sep: char)
    requires
        ts.len() >= 1,
        forall|i: int| 0 <= i < ts.len() ==> free_of(#[trigger] ts[i], sep),
    ensures
        split_char_spec(join_char_spec(ts, sep), sep) == ts,
    decreases ts.len(),
{
    if ts.len() == 1 {
        lemma_split_prepend(ts[0], Seq::<char>::empty(), sep);
        assert(ts[0] + Seq::<char>::empty() =~= ts[0]);
        assert(split_char_spec(Seq::<char>::empty(), sep) == seq![Seq::<char>::empty()]);
        assert(ts[0] + Seq::<char>::empty() =~= ts[0]);
        assert(seq![Seq::<char>::empty()].update(0, ts[0] + Seq::<char>::empty()) =~= seq![
            ts[0],
        ]);
        assert(seq![ts[0]] =~= ts);
    } else {
        let rest = ts.drop_first();
        assert(forall|i: int| 0 <= i < rest.len() ==> rest[i] == ts[i + 1]);
        lemma_split_join(rest, sep);
        let jr = join_char_spec(rest, sep);
        let whole = join_char_spec(ts, sep);
        assert(whole == ts[0] + seq![sep] + jr);
        let sep_tail = seq![sep] + jr;
        assert(whole =~= ts[0] + sep_tail);
        lemma_split_prepend(ts[0], sep_tail, sep);
        assert(sep_tail[0] == sep);
        assert(sep_tail.drop_first() =~= jr);
        assert(split_char_spec(sep_tail, sep) == seq![Seq::<char>::empty()] + split_char_spec(
            jr,
            sep,
        ));
        let rsep = split_char_spec(sep_tail, sep);
        assert(rsep == seq![Seq::<char>::empty()] + rest);
        assert(rsep[0] == Seq::<char>::empty());
        assert(ts[0] + rsep[0] =~= ts[0]);
        assert(rsep.update(0, ts[0] + rsep[0]) =~= seq![ts[0]] + rest);
        assert(seq![ts[0]] + rest =~= ts);
    }
}

/// Joining the split of any text gives the text back.
pub proof fn lemma_join_split(s: Seq<char>, sep: char)
    ensures
        join_char_spec(split_char_spec(s, sep), sep) == s,
    decreases s.len(),
{
    if s.len() == 0 {
    } else {
        let s2 = s.drop_first();
        lemma_join_split(s2, sep);
        lemma_split_len(s2, sep);
        let r2 = split_char_spec(s2, sep);
        if s[0] == sep {
            let r = seq![Seq::<char>::empty()] + r2;
            assert(split_char_spec(s, sep) == r);
            assert(r.len() >= 2);
            assert(r[0] == Seq::<char>::empty());
            assert(r.drop_first() =~= r2);
            assert(join_char_spec(r, sep) == r[0] + seq![sep] + join_char_spec(r2, sep));
            assert(r[0] + seq![sep] + s2 =~= s);
        } else {
            let r = r2.update(0, seq![s[0]] + r2[0]);
            assert(split_char_spec(s, sep) == r);
            if r2.len() == 1 {
                assert(r =~= seq![seq![s[0]] + r2[0]]);
                assert(join_char_spec(r, sep) == seq![s[0]] + r2[0]);
                assert(join_char_spec(r2, sep) == r2[0]);
                assert(seq![s[0]] + s2 =~= s);
            } else {
                assert(r[0] == seq![s[0]] + r2[0]);
                assert(r.drop_first() =~= r2.drop_first());
                assert(join_char_spec(r, sep) == r[0] + seq![sep] + join_char_spec(
                    r.drop_first(),
                    sep,
                ));
                assert(join_char_spec(r2, sep) == r2[0] + seq![sep] + join_char_spec(
                    r2.drop_first(),
                    sep,
                ));
                assert(r[0] + seq![sep] + join_char_spec(r2.drop_first(), sep) =~= seq![s[0]] + (
                r2[0] + seq![sep] + join_char_spec(r2.drop_first(), sep)));
                assert(seq![s[0]] + s2 =~= s);
            }
        }
    }
}

/// Executable form of `split_char_spec`.
pub fn split_char(s: &str, sep: char) -> (r: Vec<String>)
    ensures
        r.deep_view() == split_char_spec(s@, sep),
{
    let len = s.unicode_len();
    let mut toks: Vec<String> = Vec::new();
    let mut cur: String = String::new();
    proof {
        lemma_split_len(s@, sep);
        assert(s@.skip(0) =~= s@);
        let rem0 = split_char_spec(s@, sep);
        assert(cur@ + rem0[0] =~= rem0[0]);
        assert(rem0.update(0, cur@ + rem0[0]) =~= rem0);
        assert(toks.deep_view() =~= Seq::<Seq<char>>::empty());
        assert(Seq::<Seq<char>>::empty() + rem0 =~= rem0);
    }
    let mut i: usize = 0;
    while i < len
        invariant
            i <= len,
            len == s@.len(),
            ({
                let rem = split_char_spec(s@.skip(i as int), sep);
                split_char_spec(s@, sep) == toks.deep_view() + rem.update(0, cur@ + rem[0])
            }),
        decreases len - i,
    {
        proof {
            lemma_split_len(s@.skip(i as int), sep);
            lemma_split_len(s@.skip(i + 1), sep);
            assert(s@.skip(i as int)[0] == s@[i as int]);
            assert(s@.skip(i as int).drop_first() =~= s@.skip(i + 1));
        }
        let ghost rem = split_char_spec(s@.skip(i as int), sep);
        let ghost r2 = split_char_spec(s@.skip(i + 1), sep);
        let c = s.get_char(i);
        if c == sep {
            let ghost pre_toks = toks.deep_view();
            let ghost pre_cur = cur@;
            toks.push(cur);
            cur = String::new();
            proof {
                assert(toks.deep_view() =~= pre_toks.push(pre_cur));
                assert(rem == seq![Seq::<char>::empty()] + r2);
                assert(rem[0] == Seq::<char>::empty());
                assert(pre_cur + Seq::<char>::empty() =~= pre_cur);
                assert(Seq::<char>::empty() + r2[0] =~= r2[0]);
                assert(rem.update(0, pre_cur + rem[0]) =~= seq![pre_cur] + r2);
                assert(pre_toks + (seq![pre_cur] + r2) =~= pre_toks.push(pre_cur) + r2);
                assert(cur@ + r2[0] =~= r2[0]);
                assert(r2.update(0, cur@ + r2[0]) =~= r2);
                assert(pre_toks.push(pre_cur) + r2 =~= toks.deep_view() + r2.update(
                    0,
                    cur@ + r2[0],
                ));
            }
        } else {
            proof {
                assert(rem == r2.update(0, seq![s@[i as int]] + r2[0]));
                assert(rem[0] == seq![s@[i as int]] + r2[0]);
                assert(cur@ + (seq![s@[i as int]] + r2[0]) =~= (cur@ + seq![s@[i as int]])
                    + r2[0]);
                assert(cur@.push(s@[i as int]) =~= cur@ + seq![s@[i as int]]);
                assert(rem.update(0, cur@ + rem[0]) =~= r2.update(
                    0,
                    (cur@ + seq![s@[i as int]]) + r2[0],
                ));
            }
            push_char(&mut cur, c);
        }
        i = i + 1;
    }
    let ghost pre_toks = toks.deep_view();
    let ghost pre_cur = cur@;
    proof {
        assert(s@.skip(len as int) =~= Seq::<char>::empty());
        let rem = split_char_spec(s@.skip(len as int), sep);
        assert(rem == seq![Seq::<char>::empty()]);
        assert(pre_cur + Seq::<char>::empty() =~= pre_cur);
        assert(rem.update(0, pre_cur + rem[0]) =~= seq![pre_cur]);
    }
    toks.push(cur);
    proof {
        assert(toks.deep_view() =~= pre_toks.push(pre_cur));
        assert(pre_toks + seq![pre_cur] =~= pre_toks.push(pre_cur));
    }
    toks
}

/// Executable form of `join_char_spec`.
pub fn join_char(ts: &Vec<String>, sep: char) -> (r: String)
    ensures
        r@ == join_char_spec(ts.deep_view(), sep),
{
    let mut out = String::new();
    let mut k: usize = 0;
    while k < ts.len()
        invariant
            k <= ts.len(),
            out@ == join_char_spec(ts.deep_view().take(k as int), sep),
        decreases ts.len() - k,
    {
        proof {
            lemma_join_snoc(ts.deep_view().take(k as int), ts.deep_view()[k as int], sep);
            assert(ts.deep_view().take(k + 1) =~= ts.deep_view().take(k as int).push(
                ts.deep_view()[k as int],
            ));
        }
        if k > 0 {
            push_char(&mut out, sep);
        }
        out.append(ts[k].as_str());
        k = k + 1;
    }
    proof {
        assert(ts.deep_view().take(ts.len() as int) =~= ts.deep_view());
    }
    out
}

/// The escape of one character: `%`, `|` and newline become percent pairs,
/// everything else stands for itself.
pub open spec fn esc_char(c: char) -> Seq<char> {
    if c == '%' {
        seq!['%', '2', '5']
    } else if c == '|' {
        seq!['%', '7', 'C']
    } else if c == '\n' {
        seq!['%', '0', 'A']
    } else {
        seq![c]
    }
}

/// The escape of a string, character by character.
pub open spec fn esc_spec(s: Seq<char>) -> Seq<char>
    decreases s.len(),
{
    if s.len() == 0 {
        Seq::<char>::empty()
    } else {
        esc_char(s[0]) + esc_spec(s.drop_first())
    }
}

/// Prepend a decoded character to a decoding that may have failed.
pub open spec fn opt_prepend(c: char, rest: Option<Seq<char>>) -> Option<Seq<char>> {
    match rest {
        Option::Some(t) => Option::Some(seq![c] + t),
        Option::None => Option::None,
    }
}

/// The inverse of `esc_spec`: exactly the three emitted percent pairs are
/// accepted, and a bare `|` or newline makes the token invalid.
pub open spec fn unesc_spec(s: Seq<char>) -> Option<Seq<char>>
    decreases s.len(),
{
    if s.len() == 0 {
        Option::Some(Seq::<char>::empty())
    } else if s[0] == '%' {
        if s.len() >= 3 && s[1] == '2' && s[2] == '5' {
            opt_prepend('%', unesc_spec(s.skip(3)))
        } else if s.len() >= 3 && s[1] == '7' && s[2] == 'C' {
            opt_prepend('|', unesc_spec(s.skip(3)))
        } else if s.len() >= 3 && s[1] == '0' && s[2] == 'A' {
            opt_prepend('\n', unesc_spec(s.skip(3)))
        } else {
            Option::None
        }
    } else if s[0] == '|' || s[0] == '\n' {
        Option::None
    } else {
        opt_prepend(s[0], unesc_spec(s.drop_first()))
    }
}

/// An escaped string holds no separator and no newline.
pub proof fn lemma_esc_free(s: Seq<char>)
    ensures
        free_of(esc_spec(s), '|'),
        free_of(esc_spec(s), '\n'),
    decreases s.len(),
{
    if s.len() > 0 {
        lemma_esc_free(s.drop_first());
        let e = esc_char(s[0]) + esc_spec(s.drop_first());
        assert forall|i: int| 0 <= i < e.len() implies #[trigger] e[i] != '|' && e[i] != '\n' by {
            if i < esc_char(s[0]).len() {
                assert(e[i] == esc_char(s[0])[i]);
            } else {
                assert(e[i] == esc_spec(s.drop_first())[i - esc_char(s[0]).len()]);
            }
        }
    }
}

/// Unescaping an escape gives the original back.
pub proof fn lemma_unesc_esc(s: Seq<char>)
    ensures
        unesc_spec(esc_spec(s)) == Option::Some(s),
    decreases s.len(),
{
    if s.len() > 0 {
        lemma_unesc_esc(s.drop_first());
        let chunk = esc_char(s[0]);
        let rest = esc_spec(s.drop_first());
        let e = chunk + rest;
        assert(forall|i: int| 0 <= i < chunk.len() ==> e[i] == chunk[i]);
        if s[0] == '%' || s[0] == '|' || s[0] == '\n' {
            assert(chunk.len() == 3);
            assert(e.skip(3) =~= rest);
            assert(seq![s[0]] + s.drop_first() =~= s);
        } else {
            assert(e[0] == s[0]);
            assert(e.drop_first() =~= rest);
            assert(seq![s[0]] + s.drop_first() =~= s);
        }
    } else {
        assert(esc_spec(s) =~= Seq::<char>::empty());
    }
}

/// Appending a character extends the escape by that character's escape.
pub proof fn lemma_esc_snoc(s: Seq<char>, c: char)
    ensures
        esc_spec(s.push(c)) == esc_spec(s) + esc_char(c),
    decreases s.len(),
{
    let w = s.push(c);
    assert(esc_spec(Seq::<char>::empty()) == Seq::<char>::empty());
    if s.len() == 0 {
        assert(w[0] == c);
        assert(w.drop_first() =~= Seq::<char>::empty());
        assert(esc_spec(w) == esc_char(c) + esc_spec(w.drop_first()));
        assert(esc_char(c) + Seq::<char>::empty() =~= esc_char(c));
        assert(esc_spec(s) =~= Seq::<char>::empty());
        assert(Seq::<char>::empty() + esc_char(c) =~= esc_char(c));
    } else {
        assert(w[0] == s[0]);
        assert(w.drop_first() =~= s.drop_first().push(c));
        lemma_esc_snoc(s.drop_first(), c);
        assert(esc_char(s[0]) + (esc_spec(s.drop_first()) + esc_char(c)) =~= (esc_char(s[0])
            + esc_spec(s.drop_first())) + esc_char(c));
    }
}

/// Executable form of `esc_spec`.
pub fn escape_token(s: &str) -> (r: String)
    ensures
        r@ == esc_spec(s@),
{
    let len = s.unicode_len();
    let mut out = String::new();
    let mut i: usize = 0;
    proof {
        assert(s@.take(0) =~= Seq::<char>::empty());
        assert(out@ =~= esc_spec(s@.take(0)));
    }
    while i < len
        invariant
            i <= len,
            len == s@.len(),
            out@ == esc_spec(s@.take(i as int)),
        decreases len - i,
    {
        proof {
            lemma_esc_snoc(s@.take(i as int), s@[i as int]);
            assert(s@.take(i + 1) =~= s@.take(i as int).push(s@[i as int]));
        }
        let c = s.get_char(i);
        if c == '%' {
            push_char(&mut out, '%');
            push_char(&mut out, '2');
            push_char(&mut out, '5');
            proof {
                assert(out@ =~= esc_spec(s@.take(i as int)) + esc_char(s@[i as int]));
            }
        } else if c == '|' {
            push_char(&mut out, '%');
            push_char(&mut out, '7');
            push_char(&mut out, 'C');
            proof {
                assert(out@ =~= esc_spec(s@.take(i as int)) + esc_char(s@[i as int]));
            }
        } else if c == '\n' {
            push_char(&mut out, '%');
            push_char(&mut out, '0');
            push_char(&mut out, 'A');
            proof {
                assert(out@ =~= esc_spec(s@.take(i as int)) + esc_char(s@[i as int]));
            }
        } else {
            push_char(&mut out, c);
            proof {
                assert(out@ =~= esc_spec(s@.take(i as int)) + esc_char(s@[i as int]));
            }
        }
        i = i + 1;
    }
    proof {
        assert(s@.take(len as int) =~= s@);
    }
    out
}

/// Executable form of `unesc_spec`.
pub fn unescape_token(s: &str) -> (r: Option<String>)
    ensures
        match r {
            Option::Some(v) => unesc_spec(s@) == Option::Some(v@),
            Option::None => unesc_spec(s@) is None,
        },
{
    let len = s.unicode_len();
    let mut out = String::new();
    let mut i: usize = 0;
    proof {
        assert(s@.skip(0) =~= s@);
        match unesc_spec(s@) {
            Option::Some(t) => {
                assert(out@ + t =~= t);
            },
            Option::None => {},
        }
    }
    while i < len
        invariant
            i <= len,
            len == s@.len(),
            unesc_spec(s@) == opt_prepend_all(out@, unesc_spec(s@.skip(i as int))),
        decreases len - i,
    {
        let ghost rem = s@.skip(i as int);
        proof {
            assert(rem[0] == s@[i as int]);
        }
        let c = s.get_char(i);
        if c == '%' {
            if len - i < 3 {
                proof {
                    assert(rem.len() < 3);
                    assert(unesc_spec(rem) is None);
                }
                return Option::None;
            }
            let c1 = s.get_char(i + 1);
            let c2 = s.get_char(i + 2);
            proof {
                assert(rem[1] == s@[i + 1]);
                assert(rem[2] == s@[i + 2]);
                assert(rem.skip(3) =~= s@.skip(i + 3));
            }
            let d: char;
            if c1 == '2' && c2 == '5' {
                d = '%';
            } else if c1 == '7' && c2 == 'C' {
                d = '|';
            } else if c1 == '0' && c2 == 'A' {
                d = '\n';
            } else {
                proof {
                    assert(unesc_spec(rem) is None);
                }
                return Option::None;
            }
            let ghost pre = out@;
            push_char(&mut out, d);
            proof {
                assert(unesc_spec(rem) == opt_prepend(d, unesc_spec(s@.skip(i + 3))));
                lemma_opt_prepend_all(pre, d, unesc_spec(s@.skip(i + 3)));
            }
            i = i + 3;
        } else if c == '|' || c == '\n' {
            proof {
                assert(unesc_spec(rem) is None);
            }
            return Option::None;
        } else {
            let ghost pre = out@;
            push_char(&mut out, c);
            proof {
                assert(rem.drop_first() =~= s@.skip(i + 1));
                assert(unesc_spec(rem) == opt_prepend(s@[i as int], unesc_spec(s@.skip(i + 1))));
                lemma_opt_prepend_all(pre, s@[i as int], unesc_spec(s@.skip(i + 1)));
            }
            i = i + 1;
        }
    }
    proof {
        assert(s@.skip(len as int) =~= Seq::<char>::empty());
        assert(out@ + Seq::<char>::empty() =~= out@);
    }
    Option::Some(out)
}

/// Prepend an already-decoded prefix to a decoding that may have failed.
pub open spec fn opt_prepend_all(p: Seq<char>, rest: Option<Seq<char>>) -> Option<Seq<char>> {
    match rest {
        Option::Some(t) => Option::Some(p + t),
        Option::None => Option::None,
    }
}

/// Shifting one decoded character from the remainder onto the prefix.
pub proof fn lemma_opt_prepend_all(p: Seq<char>, c: char, rest: Option<Seq<char>>)
    ensures
        opt_prepend_all(p, opt_prepend(c, rest)) == opt_prepend_all(p.push(c), rest),
{
    match rest {
        Option::Some(t) => {
            assert(p + (seq![c] + t) =~= p.push(c) + t);
        },
        Option::None => {},
    }
}

/// Appending one token to a join adds a separator and the token.
pub proof fn lemma_join_snoc(ts: Seq<Seq<char>>, t: Seq<char>, sep: char)
    ensures
        join_char_spec(ts.push(t), sep) == if ts.len() == 0 {
            t
        } else {
            join_char_spec(ts, sep) + seq![sep] + t
        },
    decreases ts.len(),
{
    let w = ts.push(t);
    if ts.len() == 0 {
        assert(w.len() == 1);
        assert(w[0] == t);
    } else if ts.len() == 1 {
        assert(w.len() == 2);
        assert(w[0] == ts[0]);
        assert(w.drop_first() =~= seq![t]);
        assert(join_char_spec(w, sep) == w[0] + seq![sep] + join_char_spec(seq![t], sep));
    } else {
        assert(w.drop_first() =~= ts.drop_first().push(t));
        lemma_join_snoc(ts.drop_first(), t, sep);
        assert(join_char_spec(w, sep) == w[0] + seq![sep] + join_char_spec(
            ts.drop_first().push(t),
            sep,
        ));
        assert(ts[0] + seq![sep] + (join_char_spec(ts.drop_first(), sep) + seq![sep] + t) =~= (
        ts[0] + seq![sep] + join_char_spec(ts.drop_first(), sep)) + seq![sep] + t);
    }
}

} // verus!
