//! Text helpers shared by the commands: decimal rendering, the order of
//! strings, prefixes and clipping to a byte width.
use vstd::prelude::*;
use vstd::string::*;
use vstd::utf8::*;

verus! {

/// The character that stands for the decimal digit `d`.
pub open spec fn digit(d: nat) -> char {
    if d == 0 {
        '0'
    } else if d == 1 {
        '1'
    } else if d == 2 {
        '2'
    } else if d == 3 {
        '3'
    } else if d == 4 {
        '4'
    } else if d == 5 {
        '5'
    } else if d == 6 {
        '6'
    } else if d == 7 {
        '7'
    } else if d == 8 {
        '8'
    } else {
        '9'
    }
}

/// The decimal digits of `n`, most significant first, without padding.
pub open spec fn decimal(n: nat) -> Seq<char>
    decreases n,
{
    if n < 10 {
        seq![digit(n)]
    } else {
        decimal(n / 10).push(digit(n % 10))
    }
}

/// Returns the one-character text of the decimal digit `d`.
fn digit_text(d: usize) -> (r: &'static str)
    requires
        d < 10,
    ensures
        r@ == seq![digit(d as nat)],
{
    proof {
        reveal_strlit("0");
        reveal_strlit("1");
        reveal_strlit("2");
        reveal_strlit("3");
        reveal_strlit("4");
        reveal_strlit("5");
        reveal_strlit("6");
        reveal_strlit("7");
        reveal_strlit("8");
        reveal_strlit("9");
    }
    let r = if d == 0 {
        "0"
    } else if d == 1 {
        "1"
    } else if d == 2 {
        "2"
    } else if d == 3 {
        "3"
    } else if d == 4 {
        "4"
    } else if d == 5 {
        "5"
    } else if d == 6 {
        "6"
    } else if d == 7 {
        "7"
    } else if d == 8 {
        "8"
    } else {
        "9"
    };
    assert(r@ =~= seq![digit(d as nat)]);
    r
}

/// Renders `n` in decimal.
pub fn decimal_string(n: usize) -> (s: String)
    ensures
        s@ == decimal(n as nat),
    decreases n,
{
    if n < 10 {
        digit_text(n).to_owned()
    } else {
        let mut s = decimal_string(n / 10);
        s.append(digit_text(n % 10));
        assert(s@ =~= decimal(n as nat));
        s
    }
}

/// Returns whether two texts are the same.
pub fn same_text(a: &str, b: &str) -> (r: bool)
    ensures
        r == (a@ == b@),
{
    let x = a.to_owned();
    let y = b.to_owned();
    x.eq(&y)
}

/// Strict lexicographic order of two sequences of bytes. A proper prefix
/// comes before the longer sequence.
pub open spec fn bytes_less(a: Seq<u8>, b: Seq<u8>) -> bool
    decreases a.len(),
{
    if b.len() == 0 {
        false
    } else if a.len() == 0 {
        true
    } else if a[0] != b[0] {
        a[0] < b[0]
    } else {
        bytes_less(a.drop_first(), b.drop_first())
    }
}

/// Strict order of two texts: the lexicographic order of their bytes in
/// UTF-8, which is the order of strings.
pub open spec fn lex_less(a: Seq<char>, b: Seq<char>) -> bool {
    bytes_less(encode_utf8(a), encode_utf8(b))
}

/// No sequence of bytes comes before itself.
proof fn lemma_bytes_irreflexive(a: Seq<u8>)
    ensures
        !bytes_less(a, a),
    decreases a.len(),
{
    if a.len() > 0 {
        lemma_bytes_irreflexive(a.drop_first());
    }
}

/// Of two different sequences of bytes exactly one comes before the other.
proof fn lemma_bytes_total(a: Seq<u8>, b: Seq<u8>)
    ensures
        a != b ==> (bytes_less(a, b) <==> !bytes_less(b, a)),
        a == b ==> !bytes_less(a, b),
    decreases a.len(),
{
    if a == b {
        lemma_bytes_irreflexive(a);
    } else if a.len() == 0 || b.len() == 0 {
        if a.len() == b.len() {
            assert(a =~= b);
        }
    } else if a[0] != b[0] {
    } else {
        assert(a.drop_first() != b.drop_first()) by {
            if a.drop_first() == b.drop_first() {
                assert(a =~= seq![a[0]] + a.drop_first());
                assert(b =~= seq![b[0]] + b.drop_first());
            }
        }
        lemma_bytes_total(a.drop_first(), b.drop_first());
    }
}

/// The order of sequences of bytes is transitive.
proof fn lemma_bytes_transitive(a: Seq<u8>, b: Seq<u8>, c: Seq<u8>)
    requires
        bytes_less(a, b),
        bytes_less(b, c),
    ensures
        bytes_less(a, c),
    decreases a.len(),
{
    if a.len() == 0 {
    } else if a[0] != b[0] || b[0] != c[0] {
    } else {
        lemma_bytes_transitive(a.drop_first(), b.drop_first(), c.drop_first());
    }
}

/// No text comes before itself.
pub proof fn lemma_lex_irreflexive(a: Seq<char>)
    ensures
        !lex_less(a, a),
{
    lemma_bytes_irreflexive(encode_utf8(a));
}

/// Of two different texts exactly one comes before the other.
pub proof fn lemma_lex_total(a: Seq<char>, b: Seq<char>)
    ensures
        a != b ==> (lex_less(a, b) <==> !lex_less(b, a)),
        a == b ==> !lex_less(a, b),
{
    lemma_bytes_total(encode_utf8(a), encode_utf8(b));
    if encode_utf8(a) == encode_utf8(b) {
        // Texts with the same bytes are the same text.
        encode_utf8_decode_utf8(a);
        encode_utf8_decode_utf8(b);
    }
}

/// The order of texts is transitive.
pub proof fn lemma_lex_transitive(a: Seq<char>, b: Seq<char>, c: Seq<char>)
    requires
        lex_less(a, b),
        lex_less(b, c),
    ensures
        lex_less(a, c),
{
    lemma_bytes_transitive(encode_utf8(a), encode_utf8(b), encode_utf8(c));
}

/// Returns whether `a` comes before `b` in the order of strings.
pub fn str_less(a: &str, b: &str) -> (r: bool)
    ensures
        r == lex_less(a@, b@),
{
    let x = a.as_bytes();
    let y = b.as_bytes();
    let mut i: usize = 0;
    assert(x@.skip(0) =~= x@ && y@.skip(0) =~= y@);
    while i < x.len() && i < y.len() && x[i] == y[i]
        invariant
            i <= x@.len(),
            i <= y@.len(),
            bytes_less(x@.skip(i as int), y@.skip(i as int)) == bytes_less(x@, y@),
        decreases x@.len() - i,
    {
        assert(x@.skip(i as int).drop_first() =~= x@.skip(i + 1));
        assert(y@.skip(i as int).drop_first() =~= y@.skip(i + 1));
        i = i + 1;
    }
    if i == y.len() {
        false
    } else if i == x.len() {
        true
    } else {
        x[i] < y[i]
    }
}

/// Whether `prefix` is how `s` begins: the bytes of `prefix` in UTF-8 are
/// the first bytes of `s`.
pub open spec fn begins_with(s: Seq<char>, prefix: Seq<char>) -> bool {
    encode_utf8(prefix).len() <= encode_utf8(s).len() && encode_utf8(s).subrange(
        0,
        encode_utf8(prefix).len() as int,
    ) == encode_utf8(prefix)
}

/// Returns whether `prefix` is how `s` begins.
pub fn has_prefix(s: &str, prefix: &str) -> (r: bool)
    ensures
        r == begins_with(s@, prefix@),
{
    let text = s.as_bytes();
    let head = prefix.as_bytes();
    if head.len() > text.len() {
        return false;
    }
    let mut i: usize = 0;
    while i < head.len()
        invariant
            i <= head@.len() <= text@.len(),
            text@ == encode_utf8(s@),
            head@ == encode_utf8(prefix@),
            forall|k: int| 0 <= k < i ==> text@[k] == head@[k],
        decreases head@.len() - i,
    {
        if text[i] != head[i] {
            proof {
                let start = text@.subrange(0, head@.len() as int);
                assert(start[i as int] == text@[i as int]);
                assert(start != head@);
            }
            return false;
        }
        i = i + 1;
    }
    assert(text@.subrange(0, head@.len() as int) =~= head@);
    true
}

/// Width of a text in bytes of UTF-8, the unit in which columns are counted.
pub open spec fn width(s: Seq<char>) -> nat {
    encode_utf8(s).len()
}

/// The largest character boundary of `bytes` that is at most `limit`.
pub open spec fn clip_at(bytes: Seq<u8>, limit: int) -> int
    decreases limit,
{
    if limit <= 0 {
        0
    } else if limit >= bytes.len() {
        bytes.len() as int
    } else if is_char_boundary(bytes, limit) {
        limit
    } else {
        clip_at(bytes, limit - 1)
    }
}

/// The longest prefix of `s` that is made of whole characters and is at most
/// `limit` bytes wide.
pub open spec fn clipped(s: Seq<char>, limit: int) -> Seq<char> {
    decode_utf8(encode_utf8(s).subrange(0, clip_at(encode_utf8(s), limit)))
}

/// The clipping point is a character boundary within both bounds.
pub proof fn lemma_clip_at(bytes: Seq<u8>, limit: int)
    requires
        valid_utf8(bytes),
    ensures
        0 <= clip_at(bytes, limit) <= bytes.len(),
        limit >= 0 ==> clip_at(bytes, limit) <= limit,
        limit >= bytes.len() ==> clip_at(bytes, limit) == bytes.len(),
        is_char_boundary(bytes, clip_at(bytes, limit)),
    decreases limit,
{
    is_char_boundary_start_end_of_seq(bytes);
    if limit <= 0 {
    } else if limit >= bytes.len() {
    } else if is_char_boundary(bytes, limit) {
    } else {
        lemma_clip_at(bytes, limit - 1);
    }
}

/// A clipped text is as wide as its clipping point, never wider than the
/// limit nor than the text, and the whole text where that fits.
pub proof fn lemma_clipped_width(s: Seq<char>, limit: int)
    ensures
        width(clipped(s, limit)) == clip_at(encode_utf8(s), limit),
        width(clipped(s, limit)) <= width(s),
        limit >= 0 ==> width(clipped(s, limit)) <= limit,
        limit >= width(s) ==> clipped(s, limit) == s,
{
    let bytes = encode_utf8(s);
    encode_utf8_valid_utf8(s);
    lemma_clip_at(bytes, limit);
    let k = clip_at(bytes, limit);
    valid_utf8_split(bytes, k);
    decode_utf8_encode_utf8(bytes.subrange(0, k));
    if limit >= width(s) {
        assert(bytes.subrange(0, k) =~= bytes);
        encode_utf8_decode_utf8(s);
    }
}

/// A clipped text is how the text begins.
pub proof fn lemma_clipped_prefix(s: Seq<char>, limit: int)
    ensures
        clipped(s, limit).len() <= s.len(),
        clipped(s, limit) == s.subrange(0, clipped(s, limit).len() as int),
{
    let bytes = encode_utf8(s);
    encode_utf8_valid_utf8(s);
    lemma_clip_at(bytes, limit);
    let k = clip_at(bytes, limit);
    decode_utf8_split(bytes, k);
    encode_utf8_decode_utf8(s);
    let head = decode_utf8(bytes.subrange(0, k));
    let tail = decode_utf8(bytes.subrange(k, bytes.len() as int));
    assert(s =~= head + tail);
    assert(head =~= s.subrange(0, head.len() as int));
}

/// Returns the width of `s` in bytes.
pub fn byte_len(s: &str) -> (n: usize)
    ensures
        n == width(s@),
{
    s.as_bytes().len()
}

/// Returns the longest prefix of `s` that is made of whole characters and is
/// at most `limit` bytes long.
pub fn clip<'a>(s: &'a str, limit: usize) -> (r: &'a str)
    ensures
        r@ == clipped(s@, limit as int),
        r.spec_bytes().len() == clip_at(s.spec_bytes(), limit as int),
{
    proof {
        encode_utf8_valid_utf8(s@);
        is_char_boundary_start_end_of_seq(s.spec_bytes());
        lemma_clip_at(s.spec_bytes(), limit as int);
    }
    if limit >= byte_len(s) {
        proof {
            lemma_clipped_width(s@, limit as int);
        }
        return s;
    }
    let mut k = limit;
    while !s.is_char_boundary(k)
        invariant
            k <= limit < s.spec_bytes().len(),
            valid_utf8(s.spec_bytes()),
            is_char_boundary(s.spec_bytes(), 0),
            clip_at(s.spec_bytes(), k as int) == clip_at(s.spec_bytes(), limit as int),
        decreases k,
    {
        k = k - 1;
    }
    let (head, _) = s.split_at(k);
    proof {
        assert(clip_at(s.spec_bytes(), k as int) == k);
        encode_utf8_decode_utf8(head@);
    }
    head
}

} // verus!
