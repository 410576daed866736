//! Small text routines on `str`/`String` with contracts over their character
//! sequences: digit rendering, equality, prefixes and lexicographic order.
use vstd::prelude::*;
use vstd::string::*;

verus! {

/// Lower-case character of the digit `d` (`d < 16`).
pub open spec fn digit_char(d: nat) -> char {
    if d < 10 {
        ((d + 48) as u32) as char
    } else {
        ((d + 87) as u32) as char
    }
}

/// Decimal rendering of `n` without leading zeros.
pub open spec fn decimal(n: nat) -> Seq<char>
    decreases n,
{
    if n < 10 {
        seq![digit_char(n)]
    } else {
        decimal(n / 10).push(digit_char(n % 10))
    }
}

/// The last `width` lower-case hexadecimal digits of `n`, zero padded.
pub open spec fn hex_fixed(n: nat, width: nat) -> Seq<char>
    decreases width,
{
    if width == 0 {
        Seq::empty()
    } else {
        hex_fixed(n / 16, (width - 1) as nat).push(digit_char(n % 16))
    }
}

/// Appends one character to a string.
/// Wraps `String::push`; the contract claims that the character is added at
/// the end and nothing else changes.
#[verifier::external_body]
pub(crate) fn push_char(s: &mut String, c: char)
    ensures
        final(s)@ == old(s)@.push(c),
{
    s.push(c)
}

/// The text `{:?}` gives for a string: the string in double quotes, with
/// quotes, backslashes and unprintable characters escaped.
pub uninterp spec fn debug_quoted(s: Seq<char>) -> Seq<char>;

/// The debug text of a string.
/// Wraps `<str as Debug>::fmt` through `format!("{:?}", ..)`; the contract
/// names its result, a function of the string alone, and says nothing more
/// of the escaping.
#[verifier::external_body]
pub(crate) fn debug_text(s: &str) -> (r: String)
    ensures
        r@ == debug_quoted(s@),
{
    format!("{:?}", s)
}

/// The three texts one after another.
pub fn text3(a: &str, b: &str, c: &str) -> (r: String)
    ensures
        r@ == a@ + b@ + c@,
{
    let mut r = String::from_str(a);
    r.append(b);
    r.append(c);
    r
}

fn digit(d: u8) -> (c: char)
    requires
        d < 16,
    ensures
        c == digit_char(d as nat),
{
    if d < 10 {
        (d + 48) as char
    } else {
        (d + 87) as char
    }
}

/// Decimal text of `n`, as `n.to_string()` renders it.
pub fn decimal_text(n: u64) -> (s: String)
    ensures
        s@ == decimal(n as nat),
    decreases n,
{
    if n < 10 {
        let mut s = String::new();
        push_char(&mut s, digit(n as u8));
        s
    } else {
        let mut s = decimal_text(n / 10);
        push_char(&mut s, digit((n % 10) as u8));
        s
    }
}

/// Appends the last `width` hexadecimal digits of `n` to `out`.
pub fn push_hex_fixed(out: &mut String, n: u64, width: usize)
    ensures
        final(out)@ == old(out)@ + hex_fixed(n as nat, width as nat),
    decreases width,
{
    if width == 0 {
        assert(old(out)@ + hex_fixed(n as nat, 0) =~= old(out)@);
    } else {
        push_hex_fixed(out, n / 16, width - 1);
        push_char(out, digit((n % 16) as u8));
        assert(old(out)@ + hex_fixed(n as nat, width as nat) =~= old(out)@ + hex_fixed(
            (n / 16) as nat,
            (width - 1) as nat,
        ).push(digit_char((n % 16) as nat)));
    }
}

/// Whether two texts hold the same characters.
pub fn text_eq(a: &str, b: &str) -> (r: bool)
    ensures
        r == (a@ == b@),
{
    let la = a.unicode_len();
    let lb = b.unicode_len();
    if la != lb {
        return false;
    }
    let mut i: usize = 0;
    while i < la
        invariant
            la == a@.len(),
            lb == b@.len(),
            la == lb,
            i <= la,
            forall|k: int| 0 <= k < i ==> a@[k] == b@[k],
        decreases la - i,
    {
        if a.get_char(i) != b.get_char(i) {
            return false;
        }
        i = i + 1;
    }
    assert(a@ =~= b@);
    true
}

/// `p` is a prefix of `s`.
pub open spec fn is_prefix(p: Seq<char>, s: Seq<char>) -> bool {
    p.len() <= s.len() && s.subrange(0, p.len() as int) == p
}

/// Whether `s` starts with `prefix`, as `str::starts_with` with a `&str`
/// pattern decides it.
pub fn starts_with_text(s: &str, prefix: &str) -> (r: bool)
    ensures
        r == is_prefix(prefix@, s@),
{
    let ls = s.unicode_len();
    let lp = prefix.unicode_len();
    if lp > ls {
        return false;
    }
    let mut i: usize = 0;
    while i < lp
        invariant
            ls == s@.len(),
            lp == prefix@.len(),
            lp <= ls,
            i <= lp,
            forall|k: int| 0 <= k < i ==> s@[k] == prefix@[k],
        decreases lp - i,
    {
        if s.get_char(i) != prefix.get_char(i) {
            assert(s@.subrange(0, lp as int)[i as int] != prefix@[i as int]);
            return false;
        }
        i = i + 1;
    }
    assert(s@.subrange(0, lp as int) =~= prefix@);
    true
}

/// `a` and `b` agree on their first `i` characters, and both have at least `i`.
pub open spec fn agree_before(a: Seq<char>, b: Seq<char>, i: int) -> bool {
    &&& 0 <= i <= a.len()
    &&& i <= b.len()
    &&& forall|k: int| 0 <= k < i ==> a[k] == b[k]
}

/// `a` comes before `b` where the first difference is found at `i`.
pub open spec fn less_at(a: Seq<char>, b: Seq<char>, i: int) -> bool {
    &&& agree_before(a, b, i)
    &&& if i == a.len() {
        i < b.len()
    } else {
        i < b.len() && (a[i] as int) < (b[i] as int)
    }
}

/// Lexicographic order on character sequences. On UTF-8 text it is the order
/// of `str` (`Ord for str` compares the bytes, and UTF-8 keeps code point order).
pub open spec fn text_less(a: Seq<char>, b: Seq<char>) -> bool {
    exists|i: int| #[trigger] less_at(a, b, i)
}

/// The order is irreflexive.
pub proof fn lemma_text_less_irreflexive(a: Seq<char>)
    ensures
        !text_less(a, a),
{
}

/// The order is transitive.
pub proof fn lemma_text_less_transitive(a: Seq<char>, b: Seq<char>, c: Seq<char>)
    requires
        text_less(a, b),
        text_less(b, c),
    ensures
        text_less(a, c),
{
    let i = choose|i: int| #[trigger] less_at(a, b, i);
    let j = choose|j: int| #[trigger] less_at(b, c, j);
    if i < j {
        assert(less_at(a, c, i));
    } else if j < i {
        assert(a[j] == b[j]);
        assert(less_at(a, c, j));
    } else {
        assert(less_at(a, c, i));
    }
}

/// The order is total: different sequences are comparable.
pub proof fn lemma_text_less_total(a: Seq<char>, b: Seq<char>)
    ensures
        a == b || text_less(a, b) || text_less(b, a),
{
    if a != b {
        if forall|k: int| 0 <= k < a.len() && k < b.len() ==> a[k] == b[k] {
            if a.len() == b.len() {
                assert(a =~= b);
            } else if a.len() < b.len() {
                assert(less_at(a, b, a.len() as int));
            } else {
                assert(less_at(b, a, b.len() as int));
            }
        } else {
            let k = choose|k: int| 0 <= k < a.len() && k < b.len() && a[k] != b[k];
            lemma_first_difference(a, b, k);
        }
    }
}

proof fn lemma_first_difference(a: Seq<char>, b: Seq<char>, k: int)
    requires
        0 <= k < a.len(),
        k < b.len(),
        a[k] != b[k],
    ensures
        text_less(a, b) || text_less(b, a),
    decreases k,
{
    if forall|m: int| 0 <= m < k ==> a[m] == b[m] {
        assert((a[k] as int) != (b[k] as int));
        if (a[k] as int) < (b[k] as int) {
            assert(less_at(a, b, k));
        } else {
            assert(less_at(b, a, k));
        }
    } else {
        let m = choose|m: int| 0 <= m < k && a[m] != b[m];
        lemma_first_difference(a, b, m);
    }
}

/// The outcome of comparing two texts.
#[derive(Clone, Copy, PartialEq, Eq, Debug)]
pub enum TextOrder {
    Less,
    Equal,
    Greater,
}

/// Compares two texts in the order of `str`.
pub fn compare_text(a: &str, b: &str) -> (r: TextOrder)
    ensures
        r == TextOrder::Less <==> text_less(a@, b@),
        r == TextOrder::Equal <==> a@ == b@,
        r == TextOrder::Greater <==> text_less(b@, a@),
{
    let la = a.unicode_len();
    let lb = b.unicode_len();
    let mut i: usize = 0;
    while i < la && i < lb
        invariant
            la == a@.len(),
            lb == b@.len(),
            agree_before(a@, b@, i as int),
        decreases la - i,
    {
        let ca = a.get_char(i);
        let cb = b.get_char(i);
        if ca != cb {
            proof {
                lemma_text_less_irreflexive(a@);
                lemma_text_less_irreflexive(b@);
            }
            if (ca as u32) < (cb as u32) {
                assert(less_at(a@, b@, i as int));
                proof {
                    lemma_asymmetric(a@, b@);
                }
                return TextOrder::Less;
            } else {
                assert(less_at(b@, a@, i as int));
                proof {
                    lemma_asymmetric(b@, a@);
                }
                return TextOrder::Greater;
            }
        }
        i = i + 1;
    }
    proof {
        lemma_text_less_irreflexive(a@);
        lemma_text_less_irreflexive(b@);
    }
    if la == lb {
        assert(a@ =~= b@);
        TextOrder::Equal
    } else if la < lb {
        assert(less_at(a@, b@, la as int));
        proof {
            lemma_asymmetric(a@, b@);
        }
        TextOrder::Less
    } else {
        assert(less_at(b@, a@, lb as int));
        proof {
            lemma_asymmetric(b@, a@);
        }
        TextOrder::Greater
    }
}

/// The order is asymmetric.
pub proof fn lemma_asymmetric(a: Seq<char>, b: Seq<char>)
    requires
        text_less(a, b),
    ensures
        !text_less(b, a),
{
    if text_less(b, a) {
        lemma_text_less_transitive(a, b, a);
        lemma_text_less_irreflexive(a);
    }
}

} // verus!
verus! {

/// The UTF-8 encoding of a character sequence, as `str::as_bytes` gives it.
pub open spec fn utf8_bytes(s: Seq<char>) -> Seq<u8> {
    vstd::utf8::encode_utf8(s)
}

} // verus!
