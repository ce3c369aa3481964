//! Text helpers shared by the store and the reports: trimming, bounding,
//! joining and decimal rendering, each stated over `Seq<char>`.

use vstd::prelude::*;
use vstd::utf8::{
    decode_utf8, decode_utf8_split, encode_scalar, encode_utf8, encode_utf8_decode_utf8,
    encode_utf8_first_scalar, encode_utf8_valid_utf8, is_char_boundary,
    is_char_boundary_start_end_of_seq, pop_first_scalar,
};

verus! {

/// Whether `c` is white space: the answer of `char::is_whitespace`, that is
/// Unicode's `White_Space` property.
pub uninterp spec fn is_whitespace(c: char) -> bool;

/// `char::is_whitespace` of std. Nothing is claimed of it but that its answer
/// depends on the character alone; [`is_whitespace`] names that answer.
pub assume_specification[ char::is_whitespace ](c: char) -> (b: bool)
    ensures
        b == is_whitespace(c),
;

/// Equality of string slices, `<str as PartialEq>::eq` of std: two slices are
/// equal exactly when they hold the same characters.
pub assume_specification[ <str as PartialEq>::eq ](a: &str, b: &str) -> (r: bool)
    ensures
        r == (a@ == b@),
;

/// `s` without its trailing white space.
pub open spec fn trim_end_of(s: Seq<char>) -> Seq<char>
    decreases s.len(),
{
    if s.len() > 0 && is_whitespace(s.last()) {
        trim_end_of(s.drop_last())
    } else {
        s
    }
}

/// `s` without its leading white space.
pub open spec fn trim_start_of(s: Seq<char>) -> Seq<char>
    decreases s.len(),
{
    if s.len() > 0 && is_whitespace(s.first()) {
        trim_start_of(s.drop_first())
    } else {
        s
    }
}

/// `s` without leading and trailing white space.
pub open spec fn trim_of(s: Seq<char>) -> Seq<char> {
    trim_end_of(trim_start_of(s))
}

/// The number of bytes that `s` takes in UTF-8.
pub open spec fn utf8_len(s: Seq<char>) -> nat {
    encode_utf8(s).len()
}

/// The longest prefix of `s` that takes at most `limit` bytes in UTF-8: `s`
/// cut between two characters, at the limit or as close before it as can be.
pub open spec fn bounded(s: Seq<char>, limit: nat) -> Seq<char>
    decreases s.len(),
{
    if utf8_len(s) <= limit {
        s
    } else {
        bounded(s.drop_last(), limit)
    }
}

/// A bounded text keeps to the bound.
pub proof fn lemma_bounded_fits(s: Seq<char>, limit: nat)
    ensures
        utf8_len(bounded(s, limit)) <= limit,
    decreases s.len(),
{
    if utf8_len(s) > limit {
        lemma_bounded_fits(s.drop_last(), limit);
    }
}

/// The encoding of two texts put together is their encodings put together.
proof fn lemma_encode_concat(a: Seq<char>, b: Seq<char>)
    ensures
        encode_utf8(a + b) == encode_utf8(a) + encode_utf8(b),
    decreases a.len(),
{
    if a.len() == 0 {
        assert(a + b =~= b);
        assert(encode_utf8(a) + encode_utf8(b) =~= encode_utf8(b));
    } else {
        lemma_encode_concat(a.drop_first(), b);
        assert((a + b).drop_first() =~= a.drop_first() + b);
        assert((a + b)[0] == a[0]);
        assert(encode_utf8(a + b) =~= encode_utf8(a) + encode_utf8(b));
    }
}

/// A text that is not empty takes at least one byte.
proof fn lemma_encode_some(s: Seq<char>)
    requires
        s.len() > 0,
    ensures
        encode_utf8(s).len() > 0,
{
    assert(encode_scalar(s[0] as u32).len() > 0);
}

/// The encoding of a prefix ends at a character boundary of the encoding of
/// the whole.
proof fn lemma_prefix_ends_at_boundary(s: Seq<char>, j: int)
    requires
        0 <= j <= s.len(),
    ensures
        is_char_boundary(encode_utf8(s), encode_utf8(s.take(j)).len() as int),
        encode_utf8(s.take(j)).len() <= encode_utf8(s).len(),
    decreases j,
{
    let bytes = encode_utf8(s);
    encode_utf8_valid_utf8(s);
    lemma_encode_concat(s.take(j), s.skip(j));
    assert(s.take(j) + s.skip(j) =~= s);
    if j == 0 {
        assert(s.take(0) =~= Seq::<char>::empty());
    } else {
        let rest = s.drop_first();
        encode_utf8_first_scalar(s);
        assert(pop_first_scalar(bytes) =~= encode_utf8(rest));
        lemma_prefix_ends_at_boundary(rest, j - 1);
        assert(s.take(j).drop_first() =~= rest.take(j - 1));
        assert(s.take(j)[0] == s[0]);
        lemma_encode_some(s.take(j));
    }
}

/// Cutting the encoding of `s` at the last character boundary that is not
/// beyond `limit` gives the encoding of the bounded text.
proof fn lemma_cut_at_boundary(s: Seq<char>, head: Seq<char>, cut: int, limit: nat)
    requires
        0 <= cut <= limit < encode_utf8(s).len(),
        is_char_boundary(encode_utf8(s), cut),
        forall|j: int| cut < j <= limit ==> !is_char_boundary(encode_utf8(s), j),
        encode_utf8(head) == encode_utf8(s).subrange(0, cut),
    ensures
        head == bounded(s, limit),
{
    let bytes = encode_utf8(s);
    encode_utf8_valid_utf8(s);
    encode_utf8_decode_utf8(s);
    encode_utf8_decode_utf8(head);
    decode_utf8_split(bytes, cut);
    let tail = decode_utf8(bytes.subrange(cut, bytes.len() as int));
    assert(s =~= head + tail);
    let m = head.len() as int;
    assert(s.take(m) =~= head);
    lemma_bounded_down_to(s, m, s.len() as int, limit);
    assert(s.take(s.len() as int) =~= s);
}

/// Where the prefix of length `m` fits the bound and no longer prefix ends
/// at a character boundary within the bound, bounding any longer prefix
/// gives the prefix of length `m`.
proof fn lemma_bounded_down_to(s: Seq<char>, m: int, j: int, limit: nat)
    requires
        0 <= m <= j <= s.len(),
        encode_utf8(s.take(m)).len() <= limit,
        forall|i: int|
            encode_utf8(s.take(m)).len() < i <= limit ==> !is_char_boundary(encode_utf8(s), i),
    ensures
        bounded(s.take(j), limit) == s.take(m),
    decreases j - m,
{
    if j > m {
        let longer = s.take(j);
        lemma_prefix_ends_at_boundary(s, j);
        lemma_encode_concat(s.take(m), s.subrange(m, j));
        assert(s.take(m) + s.subrange(m, j) =~= longer);
        lemma_encode_some(s.subrange(m, j));
        assert(utf8_len(longer) > limit);
        assert(longer.drop_last() =~= s.take(j - 1));
        lemma_bounded_down_to(s, m, j - 1, limit);
    }
}

/// A prefix that ends in a non-blank character and is followed by blanks only
/// is what trimming the end leaves.
proof fn lemma_trim_end_prefix(s: Seq<char>, keep: int)
    requires
        0 <= keep <= s.len(),
        keep > 0 ==> !is_whitespace(s[keep - 1]),
        forall|j: int| keep <= j < s.len() ==> is_whitespace(#[trigger] s[j]),
    ensures
        trim_end_of(s) == s.take(keep),
    decreases s.len() - keep,
{
    if keep == s.len() {
        assert(s.take(keep) =~= s);
    } else {
        assert(is_whitespace(s.last()));
        let shorter = s.drop_last();
        lemma_trim_end_prefix(shorter, keep);
        assert(shorter.take(keep) =~= s.take(keep));
    }
}

/// A suffix that starts with a non-blank character and is preceded by blanks
/// only is what trimming the start leaves.
proof fn lemma_trim_start_suffix(s: Seq<char>, skip: int)
    requires
        0 <= skip <= s.len(),
        skip < s.len() ==> !is_whitespace(s[skip]),
        forall|j: int| 0 <= j < skip ==> is_whitespace(#[trigger] s[j]),
    ensures
        trim_start_of(s) == s.skip(skip),
    decreases skip,
{
    if skip == 0 {
        assert(s.skip(0) =~= s);
    } else {
        assert(is_whitespace(s.first()));
        let shorter = s.drop_first();
        assert forall|j: int| 0 <= j < skip - 1 implies is_whitespace(#[trigger] shorter[j]) by {
            assert(shorter[j] == s[j + 1]);
        }
        lemma_trim_start_suffix(shorter, skip - 1);
        assert(shorter.skip(skip - 1) =~= s.skip(skip));
    }
}

/// Copies `s` without its trailing white space.
pub fn trim_end(s: &str) -> (r: String)
    ensures
        r@ == trim_end_of(s@),
{
    let n: usize = s.unicode_len();
    let mut keep: usize = 0;
    let mut i: usize = 0;
    for c in it: s.chars()
        invariant
            it.seq() == s@,
            n == s@.len(),
            i == it.index(),
            0 <= keep <= i,
            keep > 0 ==> !is_whitespace(s@[keep - 1]),
            forall|j: int| keep <= j < i ==> is_whitespace(#[trigger] s@[j]),
    {
        i = i + 1;
        if !c.is_whitespace() {
            keep = i;
        }
    }
    proof {
        lemma_trim_end_prefix(s@, keep as int);
    }
    String::from_str(s.substring_char(0, keep))
}

/// Copies `s` without leading and trailing white space.
pub fn trim(s: &str) -> (r: String)
    ensures
        r@ == trim_of(s@),
{
    let n: usize = s.unicode_len();
    let mut skip: usize = 0;
    let mut keep: usize = 0;
    let mut i: usize = 0;
    for c in it: s.chars()
        invariant
            it.seq() == s@,
            n == s@.len(),
            i == it.index(),
            0 <= keep <= i,
            keep == 0 ==> skip == i,
            keep > 0 ==> skip < keep && !is_whitespace(s@[keep - 1]) && !is_whitespace(
                s@[skip as int],
            ),
            forall|j: int| 0 <= j < skip ==> is_whitespace(#[trigger] s@[j]),
            forall|j: int| keep <= j < i ==> is_whitespace(#[trigger] s@[j]),
    {
        i = i + 1;
        if !c.is_whitespace() {
            keep = i;
        } else if keep == 0 {
            skip = i;
        }
    }
    let end: usize = if keep == 0 { skip } else { keep };
    proof {
        let rest = s@.skip(skip as int);
        lemma_trim_start_suffix(s@, skip as int);
        lemma_trim_end_prefix(rest, end - skip);
        assert(rest.take(end - skip) =~= s@.subrange(skip as int, end as int));
    }
    String::from_str(s.substring_char(skip, end))
}

/// Copies as much of `s` from its start as takes at most `limit` bytes in
/// UTF-8; no character is cut in two.
pub fn clip(s: &str, limit: usize) -> (r: String)
    ensures
        r@ == bounded(s@, limit as nat),
{
    let size: usize = s.as_bytes().len();
    assert(size == utf8_len(s@));
    if size <= limit {
        return String::from_str(s);
    }
    proof {
        encode_utf8_valid_utf8(s@);
        is_char_boundary_start_end_of_seq(encode_utf8(s@));
    }
    let mut cut: usize = limit;
    while !s.is_char_boundary(cut)
        invariant
            0 <= cut <= limit < encode_utf8(s@).len(),
            is_char_boundary(encode_utf8(s@), 0),
            forall|j: int| cut < j <= limit ==> !is_char_boundary(encode_utf8(s@), j),
        decreases cut,
    {
        cut = cut - 1;
    }
    let (head, _) = s.split_at(cut);
    proof {
        lemma_cut_at_boundary(s@, head@, cut as int, limit as nat);
    }
    String::from_str(head)
}

/// The decimal digit for `d`, which is below ten.
pub open spec fn digit_of(d: nat) -> char {
    if d == 0 {
        '0'
    } else if d == 1 {
        '1'
    } else if d == 2 {
        '2'
    } else if d == 3 {
        '3'
    } else if d == 4 {
        '4'
    } else if d == 5 {
        '5'
    } else if d == 6 {
        '6'
    } else if d == 7 {
        '7'
    } else if d == 8 {
        '8'
    } else {
        '9'
    }
}

/// `n` in decimal, most significant digit first, without leading zeros.
pub open spec fn decimal_of(n: nat) -> Seq<char>
    decreases n,
{
    if n < 10 {
        seq![digit_of(n)]
    } else {
        decimal_of(n / 10).push(digit_of(n % 10))
    }
}

fn digit_str(d: u32) -> (r: &'static str)
    requires
        d < 10,
    ensures
        r@ == seq![digit_of(d as nat)],
{
    proof {
        reveal_strlit("0");
        reveal_strlit("1");
        reveal_strlit("2");
        reveal_strlit("3");
        reveal_strlit("4");
        reveal_strlit("5");
        reveal_strlit("6");
        reveal_strlit("7");
        reveal_strlit("8");
        reveal_strlit("9");
    }
    let r = match d {
        0 => "0",
        1 => "1",
        2 => "2",
        3 => "3",
        4 => "4",
        5 => "5",
        6 => "6",
        7 => "7",
        8 => "8",
        _ => "9",
    };
    assert(r@ =~= seq![digit_of(d as nat)]);
    r
}

/// Renders `n` in decimal.
pub fn decimal(n: u32) -> (r: String)
    ensures
        r@ == decimal_of(n as nat),
    decreases n,
{
    if n < 10 {
        String::from_str(digit_str(n))
    } else {
        let mut r = decimal(n / 10);
        r.append(digit_str(n % 10));
        assert(r@ =~= decimal_of(n as nat / 10).push(digit_of(n as nat % 10)));
        r
    }
}

/// Every word of `words` in order, each followed by `tail`.
pub open spec fn each_followed_by(words: Seq<Seq<char>>, tail: Seq<char>) -> Seq<char>
    decreases words.len(),
{
    if words.len() == 0 {
        Seq::empty()
    } else {
        each_followed_by(words.drop_last(), tail) + words.last() + tail
    }
}

/// The characters of each string of `v`, in order.
pub open spec fn texts(v: Seq<String>) -> Seq<Seq<char>> {
    v.map_values(|s: String| s@)
}

/// Concatenates the strings of `words`, putting `tail` after each of them.
pub fn join_each(words: &[String], tail: &str) -> (r: String)
    ensures
        r@ == each_followed_by(texts(words@), tail@),
{
    let mut r = String::new();
    let mut i: usize = 0;
    while i < words.len()
        invariant
            0 <= i <= words.len(),
            r@ == each_followed_by(texts(words@).take(i as int), tail@),
        decreases words.len() - i,
    {
        r.append(words[i].as_str());
        r.append(tail);
        proof {
            let done = texts(words@).take(i + 1);
            assert(done.drop_last() =~= texts(words@).take(i as int));
            assert(done.last() == words@[i as int]@);
        }
        i = i + 1;
    }
    assert(texts(words@).take(i as int) =~= texts(words@));
    r
}

} // verus!
