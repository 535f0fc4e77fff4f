//! Text helpers shared by the rest of the crate: comparison, suffix test and
//! the decimal rendering of a count.

use vstd::prelude::*;
use vstd::string::StringExecFns;
use vstd::string::StringSliceAdditionalSpecFns;
use vstd::utf8::decode_utf8;
use vstd::utf8::decode_utf8_split;
use vstd::utf8::encode_scalar;
use vstd::utf8::encode_utf8;
use vstd::utf8::encode_utf8_decode_utf8;
use vstd::utf8::encode_utf8_first_scalar;
use vstd::utf8::encode_utf8_valid_utf8;
use vstd::utf8::is_char_boundary;
use vstd::utf8::pop_first_scalar;
use vstd::utf8::valid_utf8_split;

verus! {

/// Whether two strings hold the same characters.
pub fn same_text(a: &str, b: &str) -> (same: bool)
    ensures
        same == (a@ == b@),
{
    let x = a.as_bytes();
    let y = b.as_bytes();
    proof {
        // A string is recovered from its bytes, so equal bytes mean equal text.
        encode_utf8_decode_utf8(a@);
        encode_utf8_decode_utf8(b@);
    }
    if x.len() != y.len() {
        return false;
    }
    let mut i: usize = 0;
    while i < x.len()
        invariant
            i <= x.len(),
            x.len() == y.len(),
            x@ == a.spec_bytes(),
            y@ == b.spec_bytes(),
            forall|j: int| 0 <= j < i ==> x@[j] == y@[j],
        decreases x.len() - i,
    {
        if x[i] != y[i] {
            return false;
        }
        i += 1;
    }
    assert(x@ =~= y@);
    true
}

/// The decimal digit for a value below ten.
pub open spec fn digit(d: nat) -> char {
    if d == 0 {
        '0'
    } else if d == 1 {
        '1'
    } else if d == 2 {
        '2'
    } else if d == 3 {
        '3'
    } else if d == 4 {
        '4'
    } else if d == 5 {
        '5'
    } else if d == 6 {
        '6'
    } else if d == 7 {
        '7'
    } else if d == 8 {
        '8'
    } else {
        '9'
    }
}

/// The decimal numeral of `n`, most significant digit first, without leading zeros.
pub open spec fn decimal(n: nat) -> Seq<char>
    decreases n,
{
    if n < 10 {
        seq![digit(n)]
    } else {
        decimal(n / 10).push(digit(n % 10))
    }
}

fn digit_text(d: usize) -> (text: &'static str)
    requires
        d < 10,
    ensures
        text@ == seq![digit(d as nat)],
{
    proof {
        reveal_strlit("0");
        reveal_strlit("1");
        reveal_strlit("2");
        reveal_strlit("3");
        reveal_strlit("4");
        reveal_strlit("5");
        reveal_strlit("6");
        reveal_strlit("7");
        reveal_strlit("8");
        reveal_strlit("9");
    }
    let text = if d == 0 {
        "0"
    } else if d == 1 {
        "1"
    } else if d == 2 {
        "2"
    } else if d == 3 {
        "3"
    } else if d == 4 {
        "4"
    } else if d == 5 {
        "5"
    } else if d == 6 {
        "6"
    } else if d == 7 {
        "7"
    } else if d == 8 {
        "8"
    } else {
        "9"
    };
    assert(text@ =~= seq![digit(d as nat)]);
    text
}

/// Renders a count as a decimal numeral.
pub fn decimal_text(n: usize) -> (text: String)
    ensures
        text@ == decimal(n as nat),
    decreases n,
{
    if n < 10 {
        digit_text(n).to_owned()
    } else {
        let mut text = decimal_text(n / 10);
        text.append(digit_text(n % 10));
        assert(text@ =~= decimal(n as nat));
        text
    }
}

/// The bytes of two texts joined are the bytes of the first followed by
/// those of the second.
proof fn lemma_encode_add(a: Seq<char>, b: Seq<char>)
    ensures
        encode_utf8(a + b) == encode_utf8(a) + encode_utf8(b),
    decreases a.len(),
{
    if a.len() == 0 {
        assert(a + b =~= b);
        assert(encode_utf8(a) + encode_utf8(b) =~= encode_utf8(b));
    } else {
        lemma_encode_add(a.drop_first(), b);
        assert((a + b).drop_first() =~= a.drop_first() + b);
        assert(encode_utf8(a + b) =~= encode_utf8(a) + encode_utf8(b));
    }
}

/// In the bytes of two texts joined, a character starts where the bytes of
/// the first end.
proof fn lemma_boundary_between(a: Seq<char>, b: Seq<char>)
    ensures
        is_char_boundary(encode_utf8(a + b), encode_utf8(a).len() as int),
    decreases a.len(),
{
    let bytes = encode_utf8(a + b);
    encode_utf8_valid_utf8(a + b);
    if a.len() > 0 {
        let first = encode_scalar(a[0] as u32);
        lemma_encode_add(a, b);
        lemma_boundary_between(a.drop_first(), b);
        encode_utf8_first_scalar(a + b);
        assert((a + b).drop_first() =~= a.drop_first() + b);
        assert(pop_first_scalar(bytes) =~= encode_utf8(a.drop_first() + b));
        assert(encode_utf8(a).len() == first.len() + encode_utf8(a.drop_first()).len());
    }
}

/// Whether `text` ends with the characters of `tail`.
pub fn has_suffix(text: &str, tail: &str) -> (hit: bool)
    ensures
        hit == tail@.is_suffix_of(text@),
{
    let ghost bytes = text.spec_bytes();
    proof {
        encode_utf8_valid_utf8(text@);
        encode_utf8_decode_utf8(text@);
        encode_utf8_decode_utf8(tail@);
        if tail@.is_suffix_of(text@) {
            // The text is some lead followed by the tail, and so are its bytes.
            let lead = text@.subrange(0, text@.len() - tail@.len());
            assert(text@ =~= lead + tail@);
            lemma_encode_add(lead, tail@);
            lemma_boundary_between(lead, tail@);
            assert(bytes == encode_utf8(lead) + tail.spec_bytes());
            assert(bytes.len() == encode_utf8(lead).len() + tail.spec_bytes().len());
            assert(is_char_boundary(bytes, bytes.len() - tail.spec_bytes().len()));
            assert(bytes.subrange(bytes.len() - tail.spec_bytes().len(), bytes.len() as int)
                =~= tail.spec_bytes());
        }
    }
    let n = text.as_bytes().len();
    let t = tail.as_bytes().len();
    if t > n {
        return false;
    }
    let mid = n - t;
    if !text.is_char_boundary(mid) {
        return false;
    }
    let (_, back) = text.split_at(mid);
    proof {
        encode_utf8_decode_utf8(back@);
        if tail@.is_suffix_of(text@) {
            assert(back.spec_bytes() == tail.spec_bytes());
            assert(back@ == tail@);
        }
        if back@ == tail@ {
            // The text is what its bytes before `mid` hold followed by `back`.
            valid_utf8_split(bytes, mid as int);
            decode_utf8_split(bytes, mid as int);
            let front = decode_utf8(bytes.subrange(0, mid as int));
            assert(text@ =~= front + back@);
            assert(text@.subrange(text@.len() - tail@.len(), text@.len() as int) =~= tail@);
        }
    }
    same_text(back, tail)
}

} // verus!
