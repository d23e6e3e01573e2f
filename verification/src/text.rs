//! Literal search and replacement on text, taken as a sequence of characters.

use vstd::prelude::*;
use vstd::utf8::*;

verus! {

/// `needle` stands in `hay` at offset `at`.
pub open spec fn occurs_at(hay: Seq<char>, needle: Seq<char>, at: int) -> bool {
    &&& 0 <= at
    &&& at + needle.len() <= hay.len()
    &&& hay.subrange(at, at + needle.len()) == needle
}

/// `needle` stands somewhere in `hay`.
pub open spec fn occurs(hay: Seq<char>, needle: Seq<char>) -> bool {
    exists|at: int| occurs_at(hay, needle, at)
}

/// `text` with every occurrence of `token` replaced by `value`.
///
/// Occurrences are found from left to right and do not overlap: once one is
/// replaced, the search goes on behind it, and what was put in is not searched
/// again. An empty `token` occurs nowhere, so the text stays as it is.
pub open spec fn replaced(text: Seq<char>, token: Seq<char>, value: Seq<char>) -> Seq<char>
    decreases text.len(),
{
    if token.len() == 0 || text.len() < token.len() {
        text
    } else if occurs_at(text, token, 0) {
        value + replaced(text.skip(token.len() as int), token, value)
    } else {
        seq![text[0]] + replaced(text.skip(1), token, value)
    }
}

/// The characters of `s`, in order.
pub fn chars_of(s: &str) -> (out: Vec<char>)
    ensures
        out@ == s@,
{
    let mut out: Vec<char> = Vec::new();
    for c in it: s.chars()
        invariant
            out@ == it.seq().take(it.index()),
            it.seq() == s@,
    {
        out.push(c);
    }
    out
}

/// Whether two string slices hold the same text.
pub fn same_text(a: &str, b: &str) -> (r: bool)
    ensures
        r == (a@ == b@),
{
    let x = a.as_bytes();
    let y = b.as_bytes();
    proof {
        encode_utf8_decode_utf8(a@);
        encode_utf8_decode_utf8(b@);
    }
    if x.len() != y.len() {
        return false;
    }
    let mut i: usize = 0;
    while i < x.len()
        invariant
            x@.len() == y@.len(),
            a@ == b@ ==> x@ == y@,
            i <= x@.len(),
            x@.take(i as int) == y@.take(i as int),
        decreases x@.len() - i,
    {
        if x[i] != y[i] {
            assert(x@[i as int] != y@[i as int]);
            return false;
        }
        assert(x@.take(i + 1) == x@.take(i as int).push(x@[i as int]));
        assert(y@.take(i + 1) == y@.take(i as int).push(y@[i as int]));
        i += 1;
    }
    assert(x@ == x@.take(i as int));
    assert(y@ == y@.take(i as int));
    true
}

/// Whether `token` stands in `text` at offset `at`.
pub fn matches_at(text: &Vec<char>, token: &Vec<char>, at: usize) -> (r: bool)
    ensures
        r == occurs_at(text@, token@, at as int),
{
    if token.len() > text.len() || at > text.len() - token.len() {
        return false;
    }
    let mut j: usize = 0;
    while j < token.len()
        invariant
            at + token@.len() <= text@.len() <= usize::MAX,
            j <= token@.len(),
            text@.subrange(at as int, at + j) == token@.take(j as int),
        decreases token@.len() - j,
    {
        if text[at + j] != token[j] {
            assert(text@.subrange(at as int, at + token@.len())[j as int] != token@[j as int]);
            return false;
        }
        assert(text@.subrange(at as int, at + j + 1) == text@.subrange(at as int, at + j).push(
            text@[at + j],
        ));
        assert(token@.take(j + 1) == token@.take(j as int).push(token@[j as int]));
        j += 1;
    }
    assert(token@ == token@.take(j as int));
    true
}

/// Where no token begins at the start of a text, the first character is kept
/// and the replacement goes on behind it.
proof fn lemma_replaced_step(text: Seq<char>, token: Seq<char>, value: Seq<char>)
    requires
        text.len() > 0,
        !occurs_at(text, token, 0) || token.len() == 0,
    ensures
        replaced(text, token, value) == seq![text[0]] + replaced(text.skip(1), token, value),
    decreases text.len(),
{
    if token.len() == 0 || text.len() < token.len() {
        assert(replaced(text.skip(1), token, value) == text.skip(1));
        assert(text == seq![text[0]] + text.skip(1));
    }
}

/// Replaces every occurrence of `token` in `text` by `value`, from left to
/// right; an empty `token` changes nothing.
pub fn replace_all(text: &str, token: &str, value: &str) -> (out: String)
    ensures
        out@ == replaced(text@, token@, value@),
{
    let t = chars_of(text);
    let k = chars_of(token);
    let mut out = String::new();
    let n = t.len();
    let mut from: usize = 0;
    let mut i: usize = 0;
    proof {
        assert(t@.skip(0) == t@);
        assert(out@ + t@.subrange(0, 0) == Seq::<char>::empty());
    }
    while i < n
        invariant
            t@ == text@,
            k@ == token@,
            n == t@.len(),
            from <= i <= n,
            out@ + t@.subrange(from as int, i as int) + replaced(t@.skip(i as int), k@, value@)
                == replaced(t@, k@, value@),
        decreases n - i,
    {
        if k.len() > 0 && matches_at(&t, &k, i) {
            out.append(text.substring_char(from, i));
            out.append(value);
            proof {
                let rest = t@.skip(i as int);
                assert(rest.subrange(0, k@.len() as int) == t@.subrange(
                    i as int,
                    i + k@.len(),
                ));
                assert(occurs_at(rest, k@, 0));
                assert(rest.skip(k@.len() as int) == t@.skip(i + k@.len()));
                assert(t@.subrange(i + k@.len(), i + k@.len()) == Seq::<char>::empty());
            }
            i += k.len();
            from = i;
        } else {
            proof {
                let rest = t@.skip(i as int);
                if k@.len() > 0 {
                    assert(occurs_at(rest, k@, 0) ==> occurs_at(t@, k@, i as int)) by {
                        if occurs_at(rest, k@, 0) {
                            assert(rest.subrange(0, k@.len() as int) == t@.subrange(
                                i as int,
                                i + k@.len(),
                            ));
                        }
                    }
                }
                lemma_replaced_step(rest, k@, value@);
                assert(rest.skip(1) == t@.skip(i + 1));
                assert(t@.subrange(from as int, i + 1) == t@.subrange(from as int, i as int)
                    + seq![rest[0]]);
            }
            i += 1;
        }
    }
    out.append(text.substring_char(from, n));
    proof {
        assert(t@.skip(n as int) == Seq::<char>::empty());
    }
    out
}

/// A text in which the token does not stand is left as it is.
pub proof fn lemma_replaced_without_token(text: Seq<char>, token: Seq<char>, value: Seq<char>)
    requires
        !occurs(text, token),
    ensures
        replaced(text, token, value) == text,
    decreases text.len(),
{
    if token.len() > 0 && text.len() >= token.len() {
        assert(!occurs_at(text, token, 0));
        assert forall|at: int| !occurs_at(text.skip(1), token, at) by {
            if 0 <= at {
                lemma_occurs_at_shifted(text, token, 1, at);
                assert(!occurs_at(text, token, 1 + at));
            }
        }
        lemma_replaced_without_token(text.skip(1), token, value);
        assert(seq![text[0]] + text.skip(1) == text);
    }
}

/// `value`, laid over `token` with its first character at place `shift` of
/// the token, meets the token: it begins before the token ends and ends
/// behind the token's beginning, and wherever both have a character it is the
/// same one. A value that lies within the token, one that the token lies
/// within, and one whose end is the token's beginning, or the other way
/// round, all meet the token. The empty value meets a token between any two
/// of its characters.
pub open spec fn overlaps_at(value: Seq<char>, token: Seq<char>, shift: int) -> bool {
    &&& -value.len() < shift < token.len()
    &&& forall|i: int|
        0 <= i < value.len() && 0 <= shift + i < token.len() ==> #[trigger] value[i] == token[shift
            + i]
}

/// `value` can stand in for `token` without giving rise to a new `token`:
/// however it is laid over the token, it does not meet it. Where it does
/// meet the token, the text around an occurrence can hold the rest of the
/// token, and replacing the occurrence then brings the token about anew.
pub open spec fn keeps_clear_of(value: Seq<char>, token: Seq<char>) -> bool {
    &&& token.len() > 0
    &&& forall|shift: int| !overlaps_at(value, token, shift)
}

/// `window` was copied from `text` at offset `at`, where no `token` begins.
pub open spec fn copied_from(text: Seq<char>, token: Seq<char>, window: Seq<char>, at: int) -> bool {
    &&& occurs_at(text, window, at)
    &&& !occurs_at(text, token, at)
}

/// Where a stretch of the replaced text comes from: it was copied from a place
/// where no `token` begins, or it meets a `value` that was put in.
pub open spec fn accounted_for(
    text: Seq<char>,
    token: Seq<char>,
    value: Seq<char>,
    window: Seq<char>,
) -> bool {
    ||| exists|at: int| copied_from(text, token, window, at)
    ||| exists|shift: int| overlaps_at(value, window, shift)
}

proof fn lemma_occurs_at_shifted(text: Seq<char>, needle: Seq<char>, by: int, at: int)
    requires
        0 <= by <= text.len(),
        0 <= at,
    ensures
        occurs_at(text.skip(by), needle, at) == occurs_at(text, needle, by + at),
{
    if at + needle.len() <= text.len() - by {
        assert(text.skip(by).subrange(at, at + needle.len()) == text.subrange(
            by + at,
            by + at + needle.len(),
        ));
    }
}

/// The first `len` characters of the replaced text were copied from the
/// start of the text, or meet a value that begins among them.
proof fn lemma_replaced_prefix(text: Seq<char>, token: Seq<char>, value: Seq<char>, len: int)
    requires
        token.len() > 0,
        value.len() > 0,
        1 <= len <= replaced(text, token, value).len(),
    ensures
        ({
            let window = replaced(text, token, value).subrange(0, len);
            ||| copied_from(text, token, window, 0)
            ||| exists|shift: int| shift >= 0 && overlaps_at(value, window, shift)
        }),
    decreases text.len(),
{
    let out = replaced(text, token, value);
    let window = out.subrange(0, len);
    if text.len() < token.len() {
        assert(copied_from(text, token, window, 0));
    } else if occurs_at(text, token, 0) {
        assert(overlaps_at(value, window, 0));
    } else {
        let rest = replaced(text.skip(1), token, value);
        if len == 1 {
            assert(window == text.subrange(0, 1));
        } else {
            lemma_replaced_prefix(text.skip(1), token, value, len - 1);
            let inner = rest.subrange(0, len - 1);
            assert(window == seq![text[0]] + inner);
            if copied_from(text.skip(1), token, inner, 0) {
                assert(inner == text.skip(1).subrange(0, len - 1));
                assert(window == text.subrange(0, len));
            } else {
                let shift = choose|shift: int| shift >= 0 && overlaps_at(value, inner, shift);
                assert forall|i: int|
                    0 <= i < value.len() && 0 <= shift + 1 + i < window.len() implies #[trigger] value[i]
                    == window[shift + 1 + i] by {
                    assert(window[shift + 1 + i] == inner[shift + i]);
                }
                assert(overlaps_at(value, window, shift + 1));
            }
        }
    }
}

/// Where nothing is put in for the token, every character of the replaced
/// text was copied from a place where no `token` begins.
proof fn lemma_replaced_character(text: Seq<char>, token: Seq<char>, at: int)
    requires
        token.len() > 0,
        0 <= at < replaced(text, token, Seq::empty()).len(),
    ensures
        exists|p: int| #[trigger]
            copied_from(text, token, replaced(text, token, Seq::empty()).subrange(at, at + 1), p),
    decreases text.len(),
{
    let nothing = Seq::<char>::empty();
    let out = replaced(text, token, nothing);
    let window = out.subrange(at, at + 1);
    if text.len() < token.len() {
        assert(copied_from(text, token, window, at));
    } else if occurs_at(text, token, 0) {
        let by = token.len() as int;
        let rest = replaced(text.skip(by), token, nothing);
        assert(out == rest) by {
            assert(nothing + rest == rest);
        }
        lemma_replaced_character(text.skip(by), token, at);
        let p = choose|p: int| copied_from(text.skip(by), token, window, p);
        lemma_occurs_at_shifted(text, window, by, p);
        lemma_occurs_at_shifted(text, token, by, p);
        assert(copied_from(text, token, window, by + p));
    } else if at == 0 {
        assert(window == text.subrange(0, 1));
        assert(copied_from(text, token, window, 0));
    } else {
        let rest = replaced(text.skip(1), token, nothing);
        lemma_replaced_character(text.skip(1), token, at - 1);
        assert(window == rest.subrange(at - 1, at));
        let p = choose|p: int| copied_from(text.skip(1), token, window, p);
        lemma_occurs_at_shifted(text, window, 1, p);
        lemma_occurs_at_shifted(text, token, 1, p);
        assert(copied_from(text, token, window, 1 + p));
    }
}

/// Every stretch of the replaced text is accounted for.
proof fn lemma_replaced_window(
    text: Seq<char>,
    token: Seq<char>,
    value: Seq<char>,
    at: int,
    len: int,
)
    requires
        token.len() > 0,
        0 <= at,
        1 <= len,
        at + len <= replaced(text, token, value).len(),
    ensures
        accounted_for(text, token, value, replaced(text, token, value).subrange(at, at + len)),
    decreases text.len(),
{
    let out = replaced(text, token, value);
    let window = out.subrange(at, at + len);
    if value.len() == 0 {
        assert(value == Seq::<char>::empty());
        if len == 1 {
            lemma_replaced_character(text, token, at);
        } else {
            assert(overlaps_at(value, window, 1));
        }
    } else if text.len() < token.len() {
        assert(copied_from(text, token, window, at));
    } else if occurs_at(text, token, 0) {
        if at < value.len() {
            assert(overlaps_at(value, window, -at));
        } else {
            let by = token.len() as int;
            let rest = replaced(text.skip(by), token, value);
            lemma_replaced_window(text.skip(by), token, value, at - value.len(), len);
            assert(window == rest.subrange(at - value.len(), at - value.len() + len));
            if exists|p: int| copied_from(text.skip(by), token, window, p) {
                let p = choose|p: int| copied_from(text.skip(by), token, window, p);
                lemma_occurs_at_shifted(text, window, by, p);
                lemma_occurs_at_shifted(text, token, by, p);
                assert(copied_from(text, token, window, by + p));
            }
        }
    } else {
        let rest = replaced(text.skip(1), token, value);
        if at == 0 {
            lemma_replaced_prefix(text, token, value, len);
        } else {
            lemma_replaced_window(text.skip(1), token, value, at - 1, len);
            assert(window == rest.subrange(at - 1, at - 1 + len));
            if exists|p: int| copied_from(text.skip(1), token, window, p) {
                let p = choose|p: int| copied_from(text.skip(1), token, window, p);
                lemma_occurs_at_shifted(text, window, 1, p);
                lemma_occurs_at_shifted(text, token, 1, p);
                assert(copied_from(text, token, window, 1 + p));
            }
        }
    }
}

/// Once a token is replaced by a value that keeps clear of it, the token
/// stands nowhere in the result.
pub proof fn lemma_replaced_holds_no_token(text: Seq<char>, token: Seq<char>, value: Seq<char>)
    requires
        keeps_clear_of(value, token),
    ensures
        !occurs(replaced(text, token, value), token),
{
    let out = replaced(text, token, value);
    if occurs(out, token) {
        let at = choose|at: int| occurs_at(out, token, at);
        lemma_replaced_window(text, token, value, at, token.len() as int);
        assert(forall|p: int| !copied_from(text, token, token, p));
    }
}

/// A text in which `other` does not stand still holds no `other` after
/// `token` is replaced by a value that keeps clear of `other`.
pub proof fn lemma_replaced_brings_no_other(
    text: Seq<char>,
    token: Seq<char>,
    value: Seq<char>,
    other: Seq<char>,
)
    requires
        !occurs(text, other),
        keeps_clear_of(value, other),
    ensures
        !occurs(replaced(text, token, value), other),
{
    let out = replaced(text, token, value);
    if token.len() > 0 && occurs(out, other) {
        let at = choose|at: int| occurs_at(out, other, at);
        lemma_replaced_window(text, token, value, at, other.len() as int);
        assert(forall|p: int| copied_from(text, token, other, p) ==> occurs_at(text, other, p));
    }
}

/// A value keeps clear of a token if it holds neither the first nor the last
/// character of the token, and holds a character that the token does not
/// hold.
pub proof fn lemma_sealed_value_keeps_clear(value: Seq<char>, token: Seq<char>, at: int)
    requires
        token.len() > 0,
        !value.contains(token.first()),
        !value.contains(token.last()),
        0 <= at < value.len(),
        !token.contains(value[at]),
    ensures
        keeps_clear_of(value, token),
{
    assert forall|shift: int| !overlaps_at(value, token, shift) by {
        if overlaps_at(value, token, shift) {
            if shift < 0 {
                assert(value[-shift] == token[shift + (-shift)]);
            } else if shift + value.len() > token.len() {
                let i = token.len() - 1 - shift;
                assert(value[i] == token[shift + i]);
            } else {
                assert(value[at] == token[shift + at]);
            }
        }
    }
}

} // verus!
