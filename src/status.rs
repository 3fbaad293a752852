//! The one business rule: whether an object's `info` text is bad.
use vstd::prelude::*;
use vstd::string::StringSliceAdditionalSpecFns;
use vstd::utf8::{
    char_is_scalar, char_u32_cast, encode_scalar, encode_utf8, has_width_1_encoding,
    last_continuation_byte, leading_byte_width_1, leading_byte_width_2, leading_byte_width_3,
    leading_byte_width_4, second_last_continuation_byte, third_last_continuation_byte,
};

verus! {

/// The user-declared part of a managed object.
pub struct FooSpec {
    pub name: String,
    pub info: String,
}

/// The controller-computed part of a managed object.
#[derive(Clone, Copy, Debug, PartialEq, Eq, Structural)]
pub struct FooStatus {
    pub is_bad: bool,
}

/// The word `bad`, as the UTF-8 bytes that it is made of.
pub open spec fn bad_word() -> Seq<u8> {
    seq![98u8, 97u8, 100u8]
}

/// `pat` stands in `s` from position `i` on.
pub open spec fn occurs_at(s: Seq<u8>, pat: Seq<u8>, i: int) -> bool {
    0 <= i && i + pat.len() <= s.len() && s.subrange(i, i + pat.len()) == pat
}

/// `pat` stands somewhere in `s` as a contiguous run.
pub open spec fn contains_seq(s: Seq<u8>, pat: Seq<u8>) -> bool {
    exists|i: int| occurs_at(s, pat, i)
}

/// An `info` text is bad exactly when the word `bad` occurs in its UTF-8
/// encoding, also inside a longer word.
pub open spec fn is_bad_text(info: Seq<char>) -> bool {
    contains_seq(encode_utf8(info), bad_word())
}

/// UTF-8 encodes a concatenation piece by piece.
proof fn lemma_encode_concat(a: Seq<char>, b: Seq<char>)
    ensures
        encode_utf8(a + b) == encode_utf8(a) + encode_utf8(b),
    decreases a.len(),
{
    if a.len() == 0 {
        assert(a + b =~= b);
        assert(encode_utf8(a) + encode_utf8(b) =~= encode_utf8(b));
    } else {
        assert((a + b).drop_first() =~= a.drop_first() + b);
        lemma_encode_concat(a.drop_first(), b);
        assert(encode_utf8(a + b) =~= encode_utf8(a) + encode_utf8(b));
    }
}

/// The characters of the word `bad`.
pub open spec fn bad_chars() -> Seq<char> {
    seq!['b', 'a', 'd']
}

/// Any text that holds the word `bad`, alone or inside a longer word, is bad.
pub proof fn lemma_bad_anywhere(before: Seq<char>, after: Seq<char>)
    ensures
        is_bad_text(before + bad_chars() + after),
{
    let w = bad_chars();
    reveal_with_fuel(encode_utf8, 4);
    assert(w.drop_first() =~= seq!['a', 'd']);
    assert(w.drop_first().drop_first() =~= seq!['d']);
    assert(w.drop_first().drop_first().drop_first() =~= Seq::<char>::empty());
    assert(('b' as u32) == 98u32 && ('a' as u32) == 97u32 && ('d' as u32) == 100u32);
    assert(leading_byte_width_1(98u32) == 98u8) by (bit_vector);
    assert(leading_byte_width_1(97u32) == 97u8) by (bit_vector);
    assert(leading_byte_width_1(100u32) == 100u8) by (bit_vector);
    assert(encode_utf8(w) =~= bad_word());
    lemma_encode_concat(before + w, after);
    lemma_encode_concat(before, w);
    let all = encode_utf8(before + w + after);
    let i = encode_utf8(before).len() as int;
    assert(all.subrange(i, i + 3) =~= bad_word());
    assert(occurs_at(all, bad_word(), i));
}

/// The word `bad` stands in `text` from character `k` on.
pub open spec fn bad_at(text: Seq<char>, k: int) -> bool {
    0 <= k && k + 3 <= text.len() && text.subrange(k, k + 3) == bad_chars()
}

/// A character outside ASCII is encoded with bytes of the upper half only.
proof fn lemma_wide_bytes_high(c: u32)
    requires
        !has_width_1_encoding(c),
    ensures
        forall|j: int| 0 <= j < encode_scalar(c).len() ==> encode_scalar(c)[j] >= 0x80,
{
    assert(leading_byte_width_2(c) >= 0x80) by (bit_vector);
    assert(leading_byte_width_3(c) >= 0x80) by (bit_vector);
    assert(leading_byte_width_4(c) >= 0x80) by (bit_vector);
    assert(last_continuation_byte(c) >= 0x80) by (bit_vector);
    assert(second_last_continuation_byte(c) >= 0x80) by (bit_vector);
    assert(third_last_continuation_byte(c) >= 0x80) by (bit_vector);
}

/// An encoding that starts with an ASCII byte starts with that character.
proof fn lemma_first_ascii_byte(t: Seq<char>)
    requires
        encode_utf8(t).len() > 0,
        encode_utf8(t)[0] < 0x80,
    ensures
        t.len() > 0,
        t[0] as u32 == encode_utf8(t)[0] as u32,
        encode_utf8(t) == seq![encode_utf8(t)[0]] + encode_utf8(t.drop_first()),
{
    if t.len() == 0 {
        assert(encode_utf8(t).len() == 0);
    }
    let c = t[0] as u32;
    char_is_scalar(t[0]);
    let e0 = encode_scalar(c);
    assert(encode_utf8(t) == e0 + encode_utf8(t.drop_first()));
    if !has_width_1_encoding(c) {
        lemma_wide_bytes_high(c);
        assert(encode_utf8(t)[0] == e0[0]);
    }
    assert(c <= 0x7F ==> (leading_byte_width_1(c) as u32) == c) by (bit_vector);
    assert(encode_utf8(t) =~= seq![encode_utf8(t)[0]] + encode_utf8(t.drop_first()));
}

/// Where `bad` stands in the bytes of a text, it stands in its characters.
proof fn lemma_bad_bytes_to_chars(t: Seq<char>, i: int)
    requires
        occurs_at(encode_utf8(t), bad_word(), i),
    ensures
        exists|k: int| bad_at(t, k),
    decreases t.len(),
{
    let e = encode_utf8(t);
    if t.len() == 0 {
        assert(e.len() == 0);
    }
    let c = t[0] as u32;
    char_is_scalar(t[0]);
    let e0 = encode_scalar(c);
    let rest = t.drop_first();
    assert(e == e0 + encode_utf8(rest));
    assert(e[i] == 98u8 && e[i + 1] == 97u8 && e[i + 2] == 100u8) by {
        assert(e.subrange(i, i + 3)[0] == e[i]);
        assert(e.subrange(i, i + 3)[1] == e[i + 1]);
        assert(e.subrange(i, i + 3)[2] == e[i + 2]);
    }
    if i >= e0.len() {
        let j = i - e0.len();
        assert(encode_utf8(rest).subrange(j, j + 3) =~= e.subrange(i, i + 3));
        lemma_bad_bytes_to_chars(rest, j);
        let k = choose|k: int| bad_at(rest, k);
        assert(t.subrange(k + 1, k + 4) =~= rest.subrange(k, k + 3));
        assert(bad_at(t, k + 1));
    } else {
        if !has_width_1_encoding(c) {
            lemma_wide_bytes_high(c);
            assert(e[i] == e0[i]);
        }
        assert(i == 0);
        lemma_first_ascii_byte(t);
        let e1 = encode_utf8(rest);
        assert(e1[0] == e[1] && e1[1] == e[2]);
        lemma_first_ascii_byte(rest);
        let e2 = encode_utf8(rest.drop_first());
        assert(e2[0] == e1[1]);
        lemma_first_ascii_byte(rest.drop_first());
        char_u32_cast(t[0], 98u32);
        char_u32_cast('b', 98u32);
        char_u32_cast(rest[0], 97u32);
        char_u32_cast('a', 97u32);
        char_u32_cast(rest.drop_first()[0], 100u32);
        char_u32_cast('d', 100u32);
        assert(t.subrange(0, 3) =~= bad_chars());
        assert(bad_at(t, 0));
    }
}

/// A text is bad exactly when the word `bad` stands among its characters, also
/// inside a longer word.
pub proof fn lemma_bad_text_iff_chars(text: Seq<char>)
    ensures
        is_bad_text(text) <==> exists|k: int| bad_at(text, k),
{
    if is_bad_text(text) {
        let i = choose|i: int| occurs_at(encode_utf8(text), bad_word(), i);
        lemma_bad_bytes_to_chars(text, i);
    }
    if exists|k: int| bad_at(text, k) {
        let k = choose|k: int| bad_at(text, k);
        lemma_bad_anywhere(text.subrange(0, k), text.subrange(k + 3, text.len() as int));
        assert(text.subrange(0, k) + bad_chars() + text.subrange(k + 3, text.len() as int) =~= text);
    }
}

/// Whether `info` holds the word `bad` anywhere.
pub fn info_is_bad(info: &str) -> (r: bool)
    ensures
        r == is_bad_text(info@),
        r == (exists|k: int| bad_at(info@, k)),
{
    let b = info.as_bytes();
    let n = b.len();
    let mut i: usize = 0;
    while i < n && n - i >= 3
        invariant
            b@ == info.spec_bytes(),
            n == b@.len(),
            i <= n,
            forall|j: int| 0 <= j < i ==> !occurs_at(b@, bad_word(), j),
        decreases n - i,
    {
        if b[i] == 98u8 && b[i + 1] == 97u8 && b[i + 2] == 100u8 {
            assert(b@.subrange(i as int, i + 3) =~= bad_word());
            assert(occurs_at(b@, bad_word(), i as int));
            proof {
                lemma_bad_text_iff_chars(info@);
            }
            return true;
        }
        assert(!occurs_at(b@, bad_word(), i as int)) by {
            if occurs_at(b@, bad_word(), i as int) {
                let w = b@.subrange(i as int, i + 3);
                assert(w[0] == b@[i as int] && w[1] == b@[i + 1] && w[2] == b@[i + 2]);
            }
        }
        i = i + 1;
    }
    assert forall|j: int| !occurs_at(b@, bad_word(), j) by {
        if 0 <= j < i {
        } else {
            assert(!(0 <= j && j + 3 <= n));
        }
    }
    proof {
        lemma_bad_text_iff_chars(info@);
    }
    false
}

/// The status that `spec` asks for.
pub fn desired_status(spec: &FooSpec) -> (r: FooStatus)
    ensures
        r.is_bad == is_bad_text(spec.info@),
        r.is_bad == (exists|k: int| bad_at(spec.info@, k)),
{
    FooStatus { is_bad: info_is_bad(spec.info.as_str()) }
}

/// The JSON text of `value`.
pub open spec fn json_bool(value: bool) -> Seq<char> {
    if value {
        "true"@
    } else {
        "false"@
    }
}

/// The merge patch that sets an object's status and nothing else, as JSON
/// text: `{"status":{"is_bad":<value>}}`.
pub open spec fn status_patch_text(is_bad: bool) -> Seq<char> {
    "{\"status\":{\"is_bad\":"@ + json_bool(is_bad) + "}}"@
}

/// The status-only merge patch that writes `status`.
pub fn status_patch(status: &FooStatus) -> (r: String)
    ensures
        r@ == status_patch_text(status.is_bad),
{
    let mut text = String::from_str("{\"status\":{\"is_bad\":");
    if status.is_bad {
        text.append("true");
    } else {
        text.append("false");
    }
    text.append("}}");
    text
}

} // verus!
