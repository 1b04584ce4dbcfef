//! Opaque continuation cursors. A cursor names a position in the feed's
//! total order as `<ordering-key>::<unique-key>`, both in decimal. Cursors
//! are produced by the serving path and validated on the way back in; they
//! are not raw offsets, so pagination stays stable under concurrent writes.

use vstd::prelude::*;

verus! {

/// The decimal digit characters.
pub open spec fn is_digit(c: char) -> bool {
    48 <= c as u32 <= 57
}

/// The character for one digit value.
pub open spec fn digit_char(d: nat) -> char
    recommends
        d < 10,
{
    if d == 0 {
        '0'
    } else if d == 1 {
        '1'
    } else if d == 2 {
        '2'
    } else if d == 3 {
        '3'
    } else if d == 4 {
        '4'
    } else if d == 5 {
        '5'
    } else if d == 6 {
        '6'
    } else if d == 7 {
        '7'
    } else if d == 8 {
        '8'
    } else {
        '9'
    }
}

/// The digit value of one character.
pub open spec fn char_digit(c: char) -> nat
    recommends
        is_digit(c),
{
    (c as u32 - 48) as nat
}

/// The canonical decimal spelling of a number, most significant digit first.
pub open spec fn dec_digits(n: nat) -> Seq<char>
    decreases n,
{
    if n < 10 {
        seq![digit_char(n)]
    } else {
        dec_digits(n / 10).push(digit_char(n % 10))
    }
}

/// A non-empty run of decimal digits.
pub open spec fn is_dec(s: Seq<char>) -> bool {
    s.len() > 0 && forall|i: int| 0 <= i < s.len() ==> is_digit(s[i])
}

/// The number a digit run denotes.
pub open spec fn dec_val(s: Seq<char>) -> nat
    decreases s.len(),
{
    if s.len() == 0 {
        0
    } else {
        dec_val(s.drop_last()) * 10 + char_digit(s.last())
    }
}

/// Spelling a number and reading it back is the identity, and the spelling
/// is always a digit run.
pub proof fn lemma_dec_round_trip(n: nat)
    ensures
        is_dec(dec_digits(n)),
        dec_val(dec_digits(n)) == n,
    decreases n,
{
    if n < 10 {
        let s1 = seq![digit_char(n)];
        assert(dec_digits(n) == s1);
        assert(s1.drop_last() =~= Seq::<char>::empty());
        assert(dec_val(Seq::<char>::empty()) == 0);
        assert(dec_val(s1) == dec_val(s1.drop_last()) * 10 + char_digit(s1.last()));
        assert(dec_val(s1) == char_digit(digit_char(n)));
    } else {
        lemma_dec_round_trip(n / 10);
        assert(dec_digits(n).drop_last() =~= dec_digits(n / 10));
        assert(dec_val(dec_digits(n)) == dec_val(dec_digits(n / 10)) * 10 + char_digit(
            digit_char(n % 10),
        ));
        assert(n == (n / 10) * 10 + n % 10);
        assert(forall|i: int|
            0 <= i < dec_digits(n).len() - 1 ==> dec_digits(n)[i] == dec_digits(n / 10)[i]);
    }
}

/// Reading a prefix of a digit run never exceeds reading the whole run.
pub proof fn lemma_dec_val_prefix_le(s: Seq<char>, k: int)
    requires
        0 <= k <= s.len(),
    ensures
        dec_val(s.subrange(0, k)) <= dec_val(s),
    decreases s.len(),
{
    if k == s.len() {
        assert(s.subrange(0, k) =~= s);
    } else {
        let t = s.drop_last();
        assert(t.subrange(0, k) =~= s.subrange(0, k));
        lemma_dec_val_prefix_le(t, k);
        assert(dec_val(t) * 10 >= dec_val(t));
    }
}

/// A single digit as text.
fn digit_str(d: u64) -> (r: &'static str)
    requires
        d < 10,
    ensures
        r@ == seq![digit_char(d as nat)],
{
    if d == 0 {
        proof {
            reveal_strlit("0");
            assert("0"@ =~= seq![digit_char(0)]);
        }
        "0"
    } else if d == 1 {
        proof {
            reveal_strlit("1");
            assert("1"@ =~= seq![digit_char(1)]);
        }
        "1"
    } else if d == 2 {
        proof {
            reveal_strlit("2");
            assert("2"@ =~= seq![digit_char(2)]);
        }
        "2"
    } else if d == 3 {
        proof {
            reveal_strlit("3");
            assert("3"@ =~= seq![digit_char(3)]);
        }
        "3"
    } else if d == 4 {
        proof {
            reveal_strlit("4");
            assert("4"@ =~= seq![digit_char(4)]);
        }
        "4"
    } else if d == 5 {
        proof {
            reveal_strlit("5");
            assert("5"@ =~= seq![digit_char(5)]);
        }
        "5"
    } else if d == 6 {
        proof {
            reveal_strlit("6");
            assert("6"@ =~= seq![digit_char(6)]);
        }
        "6"
    } else if d == 7 {
        proof {
            reveal_strlit("7");
            assert("7"@ =~= seq![digit_char(7)]);
        }
        "7"
    } else if d == 8 {
        proof {
            reveal_strlit("8");
            assert("8"@ =~= seq![digit_char(8)]);
        }
        "8"
    } else {
        proof {
            reveal_strlit("9");
            assert("9"@ =~= seq![digit_char(9)]);
        }
        "9"
    }
}

/// Spells a number in decimal.
pub fn u64_to_dec(n: u64) -> (r: String)
    ensures
        r@ == dec_digits(n as nat),
    decreases n,
{
    if n < 10 {
        digit_str(n).to_owned()
    } else {
        let mut s = u64_to_dec(n / 10);
        s.append(digit_str(n % 10));
        proof {
            assert(s@ =~= dec_digits(n as nat));
        }
        s
    }
}

/// Reads a decimal digit run. Returns the value exactly when the text is a
/// non-empty run of digits whose value fits in the machine word.
pub fn parse_dec(s: &str) -> (r: Option<u64>)
    ensures
        r is Some <==> is_dec(s@) && dec_val(s@) <= u64::MAX,
        r is Some ==> r->Some_0 == dec_val(s@),
{
    let n = s.unicode_len();
    if n == 0 {
        return None;
    }
    let mut acc: u64 = 0;
    let mut i: usize = 0;
    proof {
        assert(s@.subrange(0, 0) =~= Seq::<char>::empty());
    }
    while i < n
        invariant
            n == s@.len(),
            0 <= i <= n,
            forall|j: int| 0 <= j < i ==> is_digit(s@[j]),
            acc == dec_val(s@.subrange(0, i as int)),
        decreases n - i,
    {
        let c = s.get_char(i);
        let u = c as u32;
        if !(48 <= u && u <= 57) {
            return None;
        }
        let d = (u - 48) as u64;
        proof {
            assert(s@.subrange(0, i + 1).drop_last() =~= s@.subrange(0, i as int));
            assert(s@.subrange(0, i + 1).last() == s@[i as int]);
        }
        if acc > (u64::MAX - d) / 10 {
            proof {
                let ext = s@.subrange(0, i + 1);
                assert((u64::MAX - d) / 10 * 10 + (u64::MAX - d) % 10 == u64::MAX - d);
                assert(acc * 10 >= ((u64::MAX - d) / 10 + 1) * 10);
                assert(dec_val(ext) == acc * 10 + d);
                assert(dec_val(ext) > u64::MAX);
                lemma_dec_val_prefix_le(s@, i + 1);
            }
            return None;
        }
        proof {
            assert((u64::MAX - d) / 10 * 10 + (u64::MAX - d) % 10 == u64::MAX - d);
            assert(acc * 10 <= (u64::MAX - d) / 10 * 10);
        }
        acc = acc * 10 + d;
        i = i + 1;
    }
    proof {
        assert(s@.subrange(0, n as int) =~= s@);
    }
    Some(acc)
}

/// Length of the run of digits that opens the text.
pub open spec fn digits_prefix_len(s: Seq<char>) -> int
    decreases s.len(),
{
    if s.len() == 0 || !is_digit(s[0]) {
        0
    } else {
        1 + digits_prefix_len(s.drop_first())
    }
}

proof fn lemma_digits_prefix_len(s: Seq<char>, k: int)
    requires
        0 <= k <= s.len(),
        forall|j: int| 0 <= j < k ==> is_digit(s[j]),
        k < s.len() ==> !is_digit(s[k]),
    ensures
        digits_prefix_len(s) == k,
    decreases s.len(),
{
    if s.len() == 0 {
    } else if k == 0 {
    } else {
        lemma_digits_prefix_len(s.drop_first(), k - 1);
    }
}

/// What a cursor for a given position reads as.
pub open spec fn cursor_text(at: nat, uid: nat) -> Seq<char> {
    dec_digits(at) + "::"@ + dec_digits(uid)
}

/// The grammar of a cursor: a digit run, the `::` separator, a digit run.
/// Nothing else is accepted.
pub open spec fn spec_parse_cursor(s: Seq<char>) -> Option<(nat, nat)> {
    let i = digits_prefix_len(s);
    if i == 0 {
        None
    } else if s.len() < i + 2 {
        None
    } else if s[i] != ':' || s[i + 1] != ':' {
        None
    } else if !is_dec(s.subrange(i + 2, s.len() as int)) {
        None
    } else {
        Some((dec_val(s.subrange(0, i)), dec_val(s.subrange(i + 2, s.len() as int))))
    }
}

/// Renders the cursor for a position.
pub fn format_cursor(at: u64, uid: u64) -> (r: String)
    ensures
        r@ == cursor_text(at as nat, uid as nat),
{
    let mut s = u64_to_dec(at);
    proof {
        reveal_strlit("::");
    }
    s.append("::");
    let tail = u64_to_dec(uid);
    s.append(tail.as_str());
    proof {
        assert(s@ =~= cursor_text(at as nat, uid as nat));
    }
    s
}

/// Validates and reads a cursor. Returns the position exactly when the text
/// is a well-formed cursor whose two numbers fit in the machine word.
pub fn parse_cursor(s: &str) -> (r: Option<(u64, u64)>)
    ensures
        r is Some <==> spec_parse_cursor(s@) is Some && spec_parse_cursor(s@)->Some_0.0
            <= u64::MAX && spec_parse_cursor(s@)->Some_0.1 <= u64::MAX,
        r is Some ==> ((r->Some_0).0 as nat, (r->Some_0).1 as nat) == spec_parse_cursor(
            s@,
        )->Some_0,
{
    let n = s.unicode_len();
    let mut i: usize = 0;
    while i < n
        invariant
            n == s@.len(),
            0 <= i <= n,
            forall|j: int| 0 <= j < i ==> is_digit(s@[j]),
        ensures
            0 <= i <= n,
            forall|j: int| 0 <= j < i ==> is_digit(s@[j]),
            i < n ==> !is_digit(s@[i as int]),
        decreases n - i,
    {
        let u = s.get_char(i) as u32;
        if !(48 <= u && u <= 57) {
            break;
        }
        i = i + 1;
    }
    proof {
        lemma_digits_prefix_len(s@, i as int);
    }
    if i == 0 {
        return None;
    }
    if n < 2 || i > n - 2 {
        return None;
    }
    if !(s.get_char(i) == ':' && s.get_char(i + 1) == ':') {
        return None;
    }
    let left = s.substring_char(0, i);
    let right = s.substring_char(i + 2, n);
    proof {
        assert(right@ =~= s@.subrange(i + 2, n as int));
        assert(left@ =~= s@.subrange(0, i as int));
    }
    let at = match parse_dec(left) {
        None => { return None },
        Some(v) => v,
    };
    let uid = match parse_dec(right) {
        None => { return None },
        Some(v) => v,
    };
    Some((at, uid))
}

/// A cursor handed out by the serving path reads back as exactly the
/// position it was rendered from: continuation is deterministic.
pub proof fn lemma_cursor_round_trip(at: nat, uid: nat)
    ensures
        spec_parse_cursor(cursor_text(at, uid)) == Some((at, uid)),
{
    reveal_strlit("::");
    lemma_dec_round_trip(at);
    lemma_dec_round_trip(uid);
    let a = dec_digits(at);
    let b = dec_digits(uid);
    let s = cursor_text(at, uid);
    assert(s.len() == a.len() + 2 + b.len());
    assert(forall|j: int| 0 <= j < a.len() ==> s[j] == a[j]);
    assert(s[a.len() as int] == ':');
    assert(s[a.len() as int + 1] == ':');
    assert(!is_digit(':'));
    lemma_digits_prefix_len(s, a.len() as int);
    assert(s.subrange(0, a.len() as int) =~= a);
    assert(s.subrange(a.len() as int + 2, s.len() as int) =~= b);
}

} // verus!
