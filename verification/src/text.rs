//! Character-level helpers on strings: suffix tests, trimming, splitting
//! at a separator, joining and decimal numerals.
//!
//! Every function here works on the characters of a string, so that its
//! contract can be stated over `Seq<char>`.

use vstd::prelude::*;
use vstd::std_specs::iter::IteratorSpec;
use vstd::string::StringExecFns;

verus! {

/// Whether `c` counts as white space when a string is trimmed: the
/// Unicode property `White_Space`, as `char::is_whitespace` decides it.
pub uninterp spec fn is_white_space(c: char) -> bool;

/// `char::is_whitespace` of the standard library. The contract only ties
/// its answer to the name `is_white_space`; nothing is claimed of which
/// characters have the property.
pub assume_specification[ char::is_whitespace ](c: char) -> (b: bool)
    ensures
        b == is_white_space(c),
;

/// `suffix` is what `s` ends with.
pub open spec fn is_suffix(suffix: Seq<char>, s: Seq<char>) -> bool {
    suffix.len() <= s.len() && s.subrange(s.len() - suffix.len(), s.len() as int) == suffix
}

/// `s` without its leading white space.
pub open spec fn trim_start(s: Seq<char>) -> Seq<char>
    decreases s.len(),
{
    if s.len() > 0 && is_white_space(s[0]) {
        trim_start(s.skip(1))
    } else {
        s
    }
}

/// `s` without its trailing white space.
pub open spec fn trim_end(s: Seq<char>) -> Seq<char>
    decreases s.len(),
{
    if s.len() > 0 && is_white_space(s.last()) {
        trim_end(s.drop_last())
    } else {
        s
    }
}

/// `s` without leading and trailing white space.
pub open spec fn trim(s: Seq<char>) -> Seq<char> {
    trim_end(trim_start(s))
}

/// The pieces of `s` between occurrences of `sep`, in order. There is
/// always at least one piece; a separator closes the last piece and opens
/// an empty one, any other character extends the last piece.
pub open spec fn split(s: Seq<char>, sep: char) -> Seq<Seq<char>>
    decreases s.len(),
{
    if s.len() == 0 {
        seq![Seq::<char>::empty()]
    } else {
        let before = split(s.drop_last(), sep);
        if s.last() == sep {
            before.push(Seq::<char>::empty())
        } else {
            before.drop_last().push(before.last().push(s.last()))
        }
    }
}

/// The pieces of `s` between occurrences of `sep`, each one trimmed.
pub open spec fn split_trimmed(s: Seq<char>, sep: char) -> Seq<Seq<char>> {
    split(s, sep).map_values(|piece: Seq<char>| trim(piece))
}

/// The views of a vector of character vectors.
pub open spec fn views(v: Seq<Vec<char>>) -> Seq<Seq<char>> {
    v.map_values(|piece: Vec<char>| piece@)
}

/// The items of `parts` written one after another with `sep` between
/// neighbours.
pub open spec fn join(parts: Seq<Seq<char>>, sep: Seq<char>) -> Seq<char>
    decreases parts.len(),
{
    if parts.len() == 0 {
        Seq::<char>::empty()
    } else if parts.len() == 1 {
        parts[0]
    } else {
        join(parts.drop_last(), sep) + sep + parts.last()
    }
}

/// The character that writes the digit `d`.
pub open spec fn digit_char(d: nat) -> char {
    if d == 0 {
        '0'
    } else if d == 1 {
        '1'
    } else if d == 2 {
        '2'
    } else if d == 3 {
        '3'
    } else if d == 4 {
        '4'
    } else if d == 5 {
        '5'
    } else if d == 6 {
        '6'
    } else if d == 7 {
        '7'
    } else if d == 8 {
        '8'
    } else {
        '9'
    }
}

/// The decimal numeral of `n`, without leading zeros.
pub open spec fn decimal(n: nat) -> Seq<char>
    decreases n,
{
    if n < 10 {
        seq![digit_char(n)]
    } else {
        decimal(n / 10).push(digit_char(n % 10))
    }
}

/// A string without the separator splits into itself alone.
pub proof fn lemma_split_single(s: Seq<char>, sep: char)
    requires
        !s.contains(sep),
    ensures
        split(s, sep) == seq![s],
    decreases s.len(),
{
    if s.len() > 0 {
        assert(s.contains(s.last()));
        assert forall|k: int| 0 <= k < s.drop_last().len() implies s.drop_last()[k] != sep by {
            assert(s.contains(s[k]));
        }
        lemma_split_single(s.drop_last(), sep);
        assert(s.drop_last().push(s.last()) == s);
        assert(split(s, sep) == seq![s]);
    } else {
        assert(s == Seq::<char>::empty());
    }
}

/// Splitting `a`, a separator and a separator-free `b` gives the pieces of
/// `a` followed by `b`.
pub proof fn lemma_split_append(a: Seq<char>, b: Seq<char>, sep: char)
    requires
        !b.contains(sep),
    ensures
        split(a + seq![sep] + b, sep) == split(a, sep).push(b),
    decreases b.len(),
{
    let whole = a + seq![sep] + b;
    if b.len() == 0 {
        assert(whole.drop_last() == a);
        assert(b == Seq::<char>::empty());
    } else {
        let shorter = b.drop_last();
        assert forall|k: int| 0 <= k < shorter.len() implies shorter[k] != sep by {
            assert(b.contains(b[k]));
        }
        assert(b.contains(b.last()));
        lemma_split_append(a, shorter, sep);
        assert(whole.drop_last() == a + seq![sep] + shorter);
        assert(whole.last() == b.last());
        let before = split(a, sep).push(shorter);
        assert(before.drop_last() == split(a, sep));
        assert(shorter.push(b.last()) == b);
    }
}

/// Every character of `w` is white space.
pub open spec fn blank(w: Seq<char>) -> bool {
    forall|i: int| 0 <= i < w.len() ==> is_white_space(#[trigger] w[i])
}

/// `s` neither begins nor ends with white space.
pub open spec fn tight(s: Seq<char>) -> bool {
    s.len() > 0 ==> !is_white_space(s[0]) && !is_white_space(s.last())
}

/// White space in front of a string is trimmed away.
pub proof fn lemma_trim_start_blank(w: Seq<char>, s: Seq<char>)
    requires
        blank(w),
    ensures
        trim_start(w + s) == trim_start(s),
    decreases w.len(),
{
    if w.len() == 0 {
        assert(w + s == s);
    } else {
        assert((w + s)[0] == w[0]);
        assert((w + s).skip(1) == w.skip(1) + s);
        assert forall|i: int| 0 <= i < w.skip(1).len() implies is_white_space(
            #[trigger] w.skip(1)[i],
        ) by {
            assert(w.skip(1)[i] == w[i + 1]);
        }
        lemma_trim_start_blank(w.skip(1), s);
    }
}

/// White space behind a string is trimmed away.
pub proof fn lemma_trim_end_blank(s: Seq<char>, w: Seq<char>)
    requires
        blank(w),
    ensures
        trim_end(s + w) == trim_end(s),
    decreases w.len(),
{
    if w.len() == 0 {
        assert(s + w == s);
    } else {
        assert((s + w).last() == w.last());
        assert((s + w).drop_last() == s + w.drop_last());
        assert forall|i: int| 0 <= i < w.drop_last().len() implies is_white_space(
            #[trigger] w.drop_last()[i],
        ) by {
            assert(w.drop_last()[i] == w[i]);
        }
        lemma_trim_end_blank(s, w.drop_last());
    }
}

/// Trimming takes the white space around a string away and leaves the
/// string, if the string itself neither begins nor ends with white
/// space.
pub proof fn lemma_trim_padded(before: Seq<char>, s: Seq<char>, after: Seq<char>)
    requires
        blank(before),
        blank(after),
        tight(s),
    ensures
        trim(before + s + after) == s,
{
    assert(before + s + after == before + (s + after));
    lemma_trim_start_blank(before, s + after);
    if s.len() == 0 {
        assert(s + after == after + s);
        lemma_trim_start_blank(after, s);
    } else {
        assert((s + after)[0] == s[0]);
        lemma_trim_end_blank(s, after);
    }
}

/// The characters of `s`, in order.
pub fn chars_of(s: &str) -> (v: Vec<char>)
    ensures
        v@ == s@,
{
    let mut v: Vec<char> = Vec::new();
    for c in it: s.chars()
        invariant
            it.seq() == s@,
            v@ == s@.take(it.index() as int),
    {
        v.push(c);
    }
    v
}

/// Whether two character vectors hold the same characters.
pub fn same_chars(a: &Vec<char>, b: &Vec<char>) -> (r: bool)
    ensures
        r == (a@ == b@),
{
    if a.len() != b.len() {
        return false;
    }
    let mut i: usize = 0;
    while i < a.len()
        invariant
            a.len() == b.len(),
            i <= a.len(),
            a@.take(i as int) == b@.take(i as int),
        decreases a.len() - i,
    {
        if a[i] != b[i] {
            return false;
        }
        assert(a@.take(i + 1) == a@.take(i as int).push(a@[i as int]));
        assert(b@.take(i + 1) == b@.take(i as int).push(b@[i as int]));
        i += 1;
    }
    assert(a@.take(i as int) == a@);
    assert(b@.take(i as int) == b@);
    true
}

/// Whether `s` ends with `suffix`.
pub fn ends_with(s: &Vec<char>, suffix: &Vec<char>) -> (r: bool)
    ensures
        r == is_suffix(suffix@, s@),
{
    if suffix.len() > s.len() {
        return false;
    }
    let offset: usize = s.len() - suffix.len();
    let ghost tail = s@.subrange(offset as int, s.len() as int);
    let mut i: usize = 0;
    while i < suffix.len()
        invariant
            offset + suffix.len() == s.len(),
            i <= suffix.len(),
            tail == s@.subrange(offset as int, s.len() as int),
            tail.take(i as int) == suffix@.take(i as int),
        decreases suffix.len() - i,
    {
        if s[offset + i] != suffix[i] {
            assert(tail[i as int] != suffix@[i as int]);
            return false;
        }
        assert(tail.take(i + 1) == tail.take(i as int).push(tail[i as int]));
        assert(suffix@.take(i + 1) == suffix@.take(i as int).push(suffix@[i as int]));
        i += 1;
    }
    assert(tail.take(i as int) == tail);
    assert(suffix@.take(i as int) == suffix@);
    true
}

/// A copy of `v` without leading and trailing white space.
pub fn trimmed(v: &Vec<char>) -> (r: Vec<char>)
    ensures
        r@ == trim(v@),
{
    let mut lo: usize = 0;
    assert(v@.skip(0) == v@);
    while lo < v.len() && v[lo].is_whitespace()
        invariant
            lo <= v.len(),
            trim_start(v@) == trim_start(v@.skip(lo as int)),
        decreases v.len() - lo,
    {
        assert(v@.skip(lo as int).skip(1) == v@.skip(lo + 1));
        lo += 1;
    }
    let mut hi: usize = v.len();
    assert(v@.subrange(lo as int, hi as int) == v@.skip(lo as int));
    while hi > lo && v[hi - 1].is_whitespace()
        invariant
            lo <= hi <= v.len(),
            trim(v@) == trim_end(v@.subrange(lo as int, hi as int)),
        decreases hi - lo,
    {
        assert(v@.subrange(lo as int, hi as int).drop_last() == v@.subrange(lo as int, hi - 1));
        hi -= 1;
    }
    let mut r: Vec<char> = Vec::new();
    let mut i: usize = lo;
    while i < hi
        invariant
            lo <= i <= hi <= v.len(),
            r@ == v@.subrange(lo as int, i as int),
        decreases hi - i,
    {
        r.push(v[i]);
        assert(v@.subrange(lo as int, i + 1) == v@.subrange(lo as int, i as int).push(v@[i as int]));
        i += 1;
    }
    r
}

/// The trimmed pieces of `s` between occurrences of `sep`.
pub fn split_and_trim(s: &str, sep: char) -> (r: Vec<Vec<char>>)
    ensures
        views(r@) == split_trimmed(s@, sep),
{
    let chars = chars_of(s);
    let mut done: Vec<Vec<char>> = Vec::new();
    let mut piece: Vec<char> = Vec::new();
    let mut i: usize = 0;
    assert(chars@.take(0) == Seq::<char>::empty());
    while i < chars.len()
        invariant
            i <= chars.len(),
            split(chars@.take(i as int), sep).len() == done.len() + 1,
            split(chars@.take(i as int), sep).last() == piece@,
            views(done@) == split(chars@.take(i as int), sep).drop_last().map_values(
                |piece: Seq<char>| trim(piece),
            ),
        decreases chars.len() - i,
    {
        let c = chars[i];
        let ghost before = split(chars@.take(i as int), sep);
        let ghost after = split(chars@.take(i + 1), sep);
        assert(chars@.take(i + 1).drop_last() == chars@.take(i as int));
        if c == sep {
            let t = trimmed(&piece);
            let ghost old_done = done@;
            done.push(t);
            piece = Vec::new();
            assert(after == before.push(Seq::<char>::empty()));
            assert(after.drop_last() == before);
            assert(done@ == old_done.push(t));
            assert(views(done@) =~= before.map_values(|piece: Seq<char>| trim(piece))) by {
                assert forall|k: int| 0 <= k < done.len() implies views(done@)[k] == trim(
                    before[k],
                ) by {
                    if k < old_done.len() {
                        assert(views(old_done)[k] == trim(before.drop_last()[k]));
                    }
                }
            }
        } else {
            piece.push(c);
            assert(after == before.drop_last().push(before.last().push(c)));
            assert(after.drop_last() == before.drop_last());
        }
        i += 1;
    }
    assert(chars@.take(i as int) == chars@);
    let t = trimmed(&piece);
    let ghost old_done = done@;
    done.push(t);
    let ghost all = split(chars@, sep);
    assert(views(done@) =~= split_trimmed(s@, sep)) by {
        assert forall|k: int| 0 <= k < done.len() implies views(done@)[k] == trim(all[k]) by {
            if k < old_done.len() {
                assert(views(old_done)[k] == trim(all.drop_last()[k]));
            }
        }
    }
    done
}

/// Whether one of `items` holds exactly the characters of `wanted`.
pub fn contains_chars(items: &Vec<Vec<char>>, wanted: &Vec<char>) -> (r: bool)
    ensures
        r == views(items@).contains(wanted@),
{
    let mut i: usize = 0;
    while i < items.len()
        invariant
            i <= items.len(),
            forall|k: int| 0 <= k < i ==> views(items@)[k] != wanted@,
        decreases items.len() - i,
    {
        if same_chars(&items[i], wanted) {
            assert(views(items@)[i as int] == wanted@);
            return true;
        }
        i += 1;
    }
    false
}

/// `String::push` of the standard library: appends one character.
#[verifier::external_body]
pub(crate) fn push_char(s: &mut String, c: char)
    ensures
        final(s)@ == old(s)@.push(c),
{
    s.push(c)
}

/// The items of `parts` written one after another with `sep` between
/// neighbours.
pub fn join_with(parts: &Vec<String>, sep: &str) -> (r: String)
    ensures
        r@ == join(parts@.map_values(|p: String| p@), sep@),
{
    let ghost texts = parts@.map_values(|p: String| p@);
    let mut r = String::new();
    let mut i: usize = 0;
    assert(texts.take(0).len() == 0);
    while i < parts.len()
        invariant
            i <= parts.len(),
            texts == parts@.map_values(|p: String| p@),
            r@ == join(texts.take(i as int), sep@),
        decreases parts.len() - i,
    {
        let ghost so_far = texts.take(i as int);
        let ghost next = texts.take(i + 1);
        assert(next.drop_last() == so_far);
        assert(next.last() == parts@[i as int]@);
        if i > 0 {
            r.append(sep);
        } else {
            assert(r@ == Seq::<char>::empty());
            assert(r@ + parts@[i as int]@ == parts@[i as int]@);
        }
        r.append(parts[i].as_str());
        i += 1;
    }
    assert(texts.take(i as int) == texts);
    r
}

/// The decimal numeral of `n`.
pub fn decimal_string(n: u64) -> (r: String)
    ensures
        r@ == decimal(n as nat),
{
    let mut digits: Vec<char> = Vec::new();
    let mut rest: u64 = n;
    // Digits are produced from the last to the first.
    while rest >= 10
        invariant
            forall|head: Seq<char>| #[trigger] (head + digits@.reverse()) == head + digits@.reverse(),
            decimal(n as nat) == decimal(rest as nat) + digits@.reverse(),
        decreases rest,
    {
        let d = digit_of(rest % 10);
        let ghost old_digits = digits@;
        digits.push(d);
        assert(digits@.reverse() == seq![d] + old_digits.reverse());
        assert(decimal(rest as nat) == decimal((rest / 10) as nat).push(d));
        assert(decimal((rest / 10) as nat).push(d) + old_digits.reverse() == decimal(
            (rest / 10) as nat,
        ) + digits@.reverse());
        rest = rest / 10;
    }
    digits.push(digit_of(rest));
    let ghost shown = digits@.drop_last();
    assert(digits@.reverse() == seq![digit_char(rest as nat)] + shown.reverse());
    assert(decimal(rest as nat) == seq![digit_char(rest as nat)]);
    let mut r = String::new();
    let mut i: usize = digits.len();
    assert(digits@.reverse().take(0) == Seq::<char>::empty());
    while i > 0
        invariant
            i <= digits.len(),
            r@ == digits@.reverse().take(digits.len() - i),
        decreases i,
    {
        i -= 1;
        push_char(&mut r, digits[i]);
        assert(digits@.reverse().take(digits.len() - i) == digits@.reverse().take(
            digits.len() - i - 1,
        ).push(digits@.reverse()[digits.len() - i - 1]));
    }
    assert(digits@.reverse().take(digits.len() as int) == digits@.reverse());
    r
}

fn digit_of(d: u64) -> (c: char)
    requires
        d < 10,
    ensures
        c == digit_char(d as nat),
{
    if d == 0 {
        '0'
    } else if d == 1 {
        '1'
    } else if d == 2 {
        '2'
    } else if d == 3 {
        '3'
    } else if d == 4 {
        '4'
    } else if d == 5 {
        '5'
    } else if d == 6 {
        '6'
    } else if d == 7 {
        '7'
    } else if d == 8 {
        '8'
    } else {
        '9'
    }
}

} // verus!
