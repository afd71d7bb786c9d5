//! Text as sequences of characters.

use vstd::prelude::*;
use vstd::string::*;
use vstd::utf8::*;
use vstd::std_specs::iter::IteratorSpec;

verus! {

/// Whether two strings hold the same characters.
pub fn str_eq(a: &str, b: &str) -> (r: bool)
    ensures
        r == (a@ == b@),
{
    let x = a.as_bytes();
    let y = b.as_bytes();
    proof {
        encode_utf8_decode_utf8(a@);
        encode_utf8_decode_utf8(b@);
    }
    if x.len() != y.len() {
        return false;
    }
    let mut i: usize = 0;
    while i < x.len()
        invariant
            i <= x@.len(),
            x@.len() == y@.len(),
            x@ == a.spec_bytes(),
            y@ == b.spec_bytes(),
            forall|j: int| 0 <= j < i ==> x@[j] == y@[j],
        decreases x@.len() - i,
    {
        if x[i] != y[i] {
            return false;
        }
        i += 1;
    }
    assert(x@ =~= y@);
    true
}

/// The characters of `s`, in order.
pub fn chars_of(s: &str) -> (r: Vec<char>)
    ensures
        r@ == s@,
{
    broadcast use group_string_axioms;

    let mut out: Vec<char> = Vec::new();
    let mut it = s.chars();
    loop
        invariant
            it.obeys_prophetic_iter_laws(),
            it.decrease() is Some,
            out@ + it.remaining() == s@,
        ensures
            out@ == s@,
        decreases it.decrease()->0,
    {
        let ghost before = it.remaining();
        match it.next() {
            Some(c) => {
                out.push(c);
                assert(out@ + it.remaining() =~= s@) by {
                    assert(before =~= seq![c] + before.drop_first());
                }
            },
            None => {
                assert(out@ =~= s@);
                break ;
            },
        }
    }
    out
}

/// Whether `pat` stands in `text` at position `i`.
pub open spec fn occurs_at(text: Seq<char>, pat: Seq<char>, i: int) -> bool {
    &&& 0 <= i
    &&& i + pat.len() <= text.len()
    &&& text.subrange(i, i + pat.len()) == pat
}

/// `text` with the occurrences of `pat` taken out, as a scan from the left
/// finds them: after an occurrence the scan goes on behind it. An empty `pat`
/// takes nothing out.
pub open spec fn without(text: Seq<char>, pat: Seq<char>) -> Seq<char>
    decreases text.len(),
{
    if pat.len() == 0 || text.len() < pat.len() {
        text
    } else if occurs_at(text, pat, 0) {
        without(text.skip(pat.len() as int), pat)
    } else {
        seq![text[0]] + without(text.skip(1), pat)
    }
}

/// Whether the character at position `i` of `text` belongs to an occurrence
/// of `pat`.
pub open spec fn covered(text: Seq<char>, pat: Seq<char>, i: int) -> bool {
    exists|k: int| i - pat.len() < k <= i && occurs_at(text, pat, k)
}

/// The characters of `text` from position `from` on that belong to no
/// occurrence of `pat`, in order.
pub open spec fn uncovered_from(text: Seq<char>, pat: Seq<char>, from: int) -> Seq<char>
    decreases text.len() - from,
{
    if from < 0 || from >= text.len() {
        Seq::empty()
    } else if covered(text, pat, from) {
        uncovered_from(text, pat, from + 1)
    } else {
        seq![text[from]] + uncovered_from(text, pat, from + 1)
    }
}

/// Whether two occurrences of `pat` can overlap: an end of `pat` is also a
/// beginning of it.
pub open spec fn overlaps_itself(pat: Seq<char>) -> bool {
    exists|d: int| 0 < d < pat.len() && pat.skip(d) == pat.take(pat.len() - d)
}

/// Whether no occurrence of `pat` in `text` begins before position `at` and
/// ends behind it.
spec fn clear_at(text: Seq<char>, pat: Seq<char>, at: int) -> bool {
    forall|k: int| occurs_at(text, pat, k) ==> !(k < at < k + pat.len())
}

proof fn lemma_uncovered_rest(text: Seq<char>, pat: Seq<char>, from: int)
    requires
        0 <= from <= text.len(),
        forall|i: int| from <= i < text.len() ==> !covered(text, pat, i),
    ensures
        uncovered_from(text, pat, from) == text.skip(from),
    decreases text.len() - from,
{
    if from < text.len() {
        lemma_uncovered_rest(text, pat, from + 1);
        assert(seq![text[from]] + text.skip(from + 1) =~= text.skip(from));
    } else {
        assert(text.skip(from) =~= Seq::<char>::empty());
    }
}

proof fn lemma_covered_run(text: Seq<char>, pat: Seq<char>, from: int, to: int)
    requires
        0 <= from <= to <= text.len(),
        forall|i: int| from <= i < to ==> covered(text, pat, i),
    ensures
        uncovered_from(text, pat, from) == uncovered_from(text, pat, to),
    decreases to - from,
{
    if from < to {
        lemma_covered_run(text, pat, from + 1, to);
    }
}

proof fn lemma_occurrences_apart(text: Seq<char>, pat: Seq<char>, j: int, k: int)
    requires
        !overlaps_itself(pat),
        occurs_at(text, pat, j),
        occurs_at(text, pat, k),
        j < k,
    ensures
        k >= j + pat.len(),
{
    if k < j + pat.len() {
        let d = k - j;
        let at_j = text.subrange(j, j + pat.len());
        let at_k = text.subrange(k, k + pat.len());
        assert(pat.skip(d) =~= pat.take(pat.len() - d)) by {
            assert forall|i: int| 0 <= i < pat.len() - d implies pat.skip(d)[i] == pat.take(
                pat.len() - d,
            )[i] by {
                assert(at_j[d + i] == text[k + i]);
                assert(at_k[i] == text[k + i]);
            }
        }
    }
}

proof fn lemma_without_from(text: Seq<char>, pat: Seq<char>, from: int)
    requires
        pat.len() > 0,
        !overlaps_itself(pat),
        0 <= from <= text.len(),
        clear_at(text, pat, from),
    ensures
        without(text.skip(from), pat) == uncovered_from(text, pat, from),
    decreases text.len() - from,
{
    let rest = text.skip(from);
    if rest.len() < pat.len() {
        assert forall|i: int| from <= i < text.len() implies !covered(text, pat, i) by {
            if covered(text, pat, i) {
                let k = choose|k: int| i - pat.len() < k <= i && occurs_at(text, pat, k);
                assert(k < from < k + pat.len());
            }
        }
        lemma_uncovered_rest(text, pat, from);
    } else {
        assert(rest.subrange(0, pat.len() as int) =~= text.subrange(from, from + pat.len()));
        if occurs_at(text, pat, from) {
            let next = from + pat.len();
            assert(rest.skip(pat.len() as int) =~= text.skip(next));
            assert forall|i: int| from <= i < next implies covered(text, pat, i) by {
                assert(i - pat.len() < from <= i && occurs_at(text, pat, from));
            }
            lemma_covered_run(text, pat, from, next);
            assert forall|k: int| occurs_at(text, pat, k) implies !(k < next < k + pat.len()) by {
                if k < next < k + pat.len() {
                    if k < from {
                        assert(k < from < k + pat.len());
                    } else {
                        lemma_occurrences_apart(text, pat, from, k);
                    }
                }
            }
            lemma_without_from(text, pat, next);
        } else {
            assert(rest.skip(1) =~= text.skip(from + 1));
            assert(!covered(text, pat, from)) by {
                if covered(text, pat, from) {
                    let k = choose|k: int| from - pat.len() < k <= from && occurs_at(text, pat, k);
                    assert(k < from < k + pat.len());
                }
            }
            assert forall|k: int| occurs_at(text, pat, k) implies !(k < from + 1 < k + pat.len()) by {
                if k < from + 1 < k + pat.len() {
                    assert(k < from < k + pat.len());
                }
            }
            lemma_without_from(text, pat, from + 1);
        }
    }
}

/// Taking out a pattern that cannot overlap itself takes out every
/// occurrence of it: what is left of the text are its characters that belong
/// to no occurrence, in order.
pub proof fn lemma_without_takes_out_every_occurrence(text: Seq<char>, pat: Seq<char>)
    requires
        pat.len() > 0,
        !overlaps_itself(pat),
    ensures
        without(text, pat) == uncovered_from(text, pat, 0),
{
    assert(text.skip(0) =~= text);
    lemma_without_from(text, pat, 0);
}

/// A text in which the pattern does not occur stays as it is.
pub proof fn lemma_without_keeps_text_without_occurrence(text: Seq<char>, pat: Seq<char>)
    requires
        forall|k: int| !occurs_at(text, pat, k),
    ensures
        without(text, pat) == text,
    decreases text.len(),
{
    if pat.len() > 0 && text.len() >= pat.len() {
        let rest = text.skip(1);
        assert forall|k: int| !occurs_at(rest, pat, k) by {
            if occurs_at(rest, pat, k) {
                assert(text.subrange(k + 1, k + 1 + pat.len()) =~= rest.subrange(
                    k,
                    k + pat.len(),
                ));
                assert(occurs_at(text, pat, k + 1));
            }
        }
        lemma_without_keeps_text_without_occurrence(rest, pat);
        assert(seq![text[0]] + rest =~= text);
    }
}

/// What `current` adds to `previous`: the rest of `current` where it starts
/// with `previous`, and the whole of `current` where it does not.
pub open spec fn added_text(current: Seq<char>, previous: Seq<char>) -> Seq<char> {
    if previous.is_prefix_of(current) {
        current.skip(previous.len() as int)
    } else {
        current
    }
}

/// Whether `pat` stands in `text` at position `i`.
pub fn matches_at(text: &[char], pat: &[char], i: usize) -> (r: bool)
    ensures
        r == occurs_at(text@, pat@, i as int),
{
    if pat.len() > text.len() || i > text.len() - pat.len() {
        return false;
    }
    let mut k: usize = 0;
    while k < pat.len()
        invariant
            k <= pat@.len(),
            i + pat@.len() <= text@.len() <= usize::MAX,
            forall|j: int| 0 <= j < k ==> text@[i + j] == pat@[j],
        decreases pat@.len() - k,
    {
        if text[i + k] != pat[k] {
            assert(text@.subrange(i as int, i + pat@.len())[k as int] != pat@[k as int]);
            return false;
        }
        k += 1;
    }
    assert(text@.subrange(i as int, i + pat@.len()) =~= pat@);
    true
}

/// `text` with the occurrences of `pat` taken out.
pub fn remove_all(text: &str, pat: &str) -> (r: String)
    ensures
        r@ == without(text@, pat@),
{
    let t = chars_of(text);
    let p = chars_of(pat);
    let mut out = String::new();
    if p.len() == 0 || t.len() < p.len() {
        out.append(text);
        assert(out@ =~= text@);
        return out;
    }
    let mut start: usize = 0;
    let mut i: usize = 0;
    proof {
        assert(t@.skip(0) =~= t@);
        assert(out@ + without(t@, p@) =~= without(t@, p@));
        assert(t@.subrange(0, 0) + without(t@, p@) =~= without(t@, p@));
    }
    while i <= t.len() - p.len()
        invariant
            t@ == text@,
            p@ == pat@,
            0 < p@.len() <= t@.len(),
            start <= i <= t@.len(),
            out@ + without(t@.skip(start as int), p@) == without(t@, p@),
            without(t@.skip(start as int), p@) == t@.subrange(start as int, i as int) + without(
                t@.skip(i as int),
                p@,
            ),
        decreases t@.len() - i,
    {
        let ghost rest = t@.skip(i as int);
        if matches_at(t.as_slice(), p.as_slice(), i) {
            let kept = text.substring_char(start, i);
            let ghost before = out@;
            out.append(kept);
            proof {
                assert(rest.subrange(0, p@.len() as int) =~= t@.subrange(i as int, i + p@.len()));
                assert(rest.skip(p@.len() as int) =~= t@.skip(i + p@.len()));
                assert(t@.subrange(i + p@.len(), i + p@.len()) + without(t@.skip(i + p@.len()), p@)
                    =~= without(t@.skip(i + p@.len()), p@));
                assert(before + t@.subrange(start as int, i as int) + without(
                    t@.skip(i + p@.len()),
                    p@,
                ) =~= before + (t@.subrange(start as int, i as int) + without(
                    t@.skip(i + p@.len()),
                    p@,
                )));
            }
            i += p.len();
            start = i;
        } else {
            proof {
                assert(rest.subrange(0, p@.len() as int) =~= t@.subrange(i as int, i + p@.len()));
                assert(rest.skip(1) =~= t@.skip(i + 1));
                assert(t@.subrange(start as int, i as int) + (seq![rest[0]] + without(
                    t@.skip(i + 1),
                    p@,
                )) =~= t@.subrange(start as int, i + 1) + without(t@.skip(i + 1), p@));
            }
            i += 1;
        }
    }
    let kept = text.substring_char(start, t.len());
    out.append(kept);
    proof {
        assert(t@.subrange(start as int, i as int) + t@.skip(i as int) =~= t@.subrange(
            start as int,
            t@.len() as int,
        ));
    }
    out
}

/// What `current` adds to `previous`: see [`added_text`].
pub fn text_added(current: &str, previous: &str) -> (r: String)
    ensures
        r@ == added_text(current@, previous@),
{
    let c = chars_of(current);
    let p = chars_of(previous);
    let mut out = String::new();
    if matches_at(c.as_slice(), p.as_slice(), 0) {
        let rest = current.substring_char(p.len(), c.len());
        out.append(rest);
        assert(out@ =~= current@.skip(previous@.len() as int));
    } else {
        out.append(current);
        assert(out@ =~= current@);
    }
    out
}

/// The strings of `parts` one after the other, as one string.
pub fn join(parts: &Vec<String>) -> (r: String)
    ensures
        r@ == parts@.map_values(|s: String| s@).flatten(),
{
    let mut out = String::new();
    let mut i: usize = 0;
    assert(parts@.take(0).map_values(|s: String| s@) =~= Seq::<Seq<char>>::empty());
    while i < parts.len()
        invariant
            i <= parts@.len(),
            out@ == parts@.take(i as int).map_values(|s: String| s@).flatten(),
        decreases parts@.len() - i,
    {
        out.append(parts[i].as_str());
        proof {
            let views = parts@.take(i as int).map_values(|s: String| s@);
            views.lemma_flatten_push(parts@[i as int]@);
            assert(parts@.take(i + 1).map_values(|s: String| s@) =~= views.push(parts@[i as int]@));
        }
        i += 1;
    }
    assert(parts@.take(i as int) =~= parts@);
    out
}

/// Whether `c` is white space: a character with Unicode's `White_Space`
/// property.
pub open spec fn is_whitespace(c: char) -> bool {
    let u = c as u32;
    ||| 0x09 <= u <= 0x0D
    ||| u == 0x20
    ||| u == 0x85
    ||| u == 0xA0
    ||| u == 0x1680
    ||| 0x2000 <= u <= 0x200A
    ||| u == 0x2028
    ||| u == 0x2029
    ||| u == 0x202F
    ||| u == 0x205F
    ||| u == 0x3000
}

/// Whether `c` is white space.
pub fn char_is_whitespace(c: char) -> (r: bool)
    ensures
        r == is_whitespace(c),
{
    let u: u32 = c as u32;
    (0x09 <= u && u <= 0x0D) || u == 0x20 || u == 0x85 || u == 0xA0 || u == 0x1680 || (0x2000 <= u
        && u <= 0x200A) || u == 0x2028 || u == 0x2029 || u == 0x202F || u == 0x205F || u == 0x3000
}

/// How many characters of white space `s` begins with.
pub open spec fn leading_whitespace(s: Seq<char>) -> nat
    decreases s.len(),
{
    if s.len() > 0 && is_whitespace(s[0]) {
        1 + leading_whitespace(s.skip(1))
    } else {
        0
    }
}

/// How many characters of white space `s` ends with.
pub open spec fn trailing_whitespace(s: Seq<char>) -> nat
    decreases s.len(),
{
    if s.len() > 0 && is_whitespace(s.last()) {
        1 + trailing_whitespace(s.drop_last())
    } else {
        0
    }
}

/// `s` from its first character that is not white space.
pub open spec fn trimmed_start(s: Seq<char>) -> Seq<char> {
    s.skip(leading_whitespace(s) as int)
}

/// `s` from its first to its last character that is not white space.
pub open spec fn trimmed(s: Seq<char>) -> Seq<char> {
    let t = trimmed_start(s);
    t.take(t.len() - trailing_whitespace(t))
}

proof fn lemma_trailing_whitespace_bound(s: Seq<char>)
    ensures
        trailing_whitespace(s) <= s.len(),
    decreases s.len(),
{
    if s.len() > 0 && is_whitespace(s.last()) {
        lemma_trailing_whitespace_bound(s.drop_last());
    }
}

/// The position of the first character at or after `from` that is not white
/// space, or the length where there is none.
fn skip_whitespace(chars: &[char], from: usize) -> (r: usize)
    requires
        from <= chars@.len(),
    ensures
        r == from + leading_whitespace(chars@.skip(from as int)),
        r <= chars@.len(),
{
    let mut i: usize = from;
    while i < chars.len() && char_is_whitespace(chars[i])
        invariant
            from <= i <= chars@.len(),
            from + leading_whitespace(chars@.skip(from as int)) == i + leading_whitespace(
                chars@.skip(i as int),
            ),
        decreases chars@.len() - i,
    {
        assert(chars@.skip(i as int).skip(1) =~= chars@.skip(i + 1));
        i += 1;
    }
    i
}

/// The position behind the last character before `to`, and not before
/// `from`, that is not white space, or `from` where there is none.
fn skip_whitespace_back(chars: &[char], from: usize, to: usize) -> (r: usize)
    requires
        from <= to <= chars@.len(),
    ensures
        r == to - trailing_whitespace(chars@.subrange(from as int, to as int)),
        from <= r <= to,
{
    let mut i: usize = to;
    while i > from && char_is_whitespace(chars[i - 1])
        invariant
            from <= i <= to <= chars@.len(),
            to - trailing_whitespace(chars@.subrange(from as int, to as int)) == i
                - trailing_whitespace(chars@.subrange(from as int, i as int)),
        decreases i,
    {
        assert(chars@.subrange(from as int, i as int).drop_last() =~= chars@.subrange(
            from as int,
            i - 1,
        ));
        i -= 1;
    }
    proof {
        lemma_trailing_whitespace_bound(chars@.subrange(from as int, to as int));
    }
    i
}

/// `s` without the white space it begins with.
pub fn trim_start(s: &str) -> (r: String)
    ensures
        r@ == trimmed_start(s@),
{
    let chars = chars_of(s);
    assert(chars@.skip(0) =~= chars@);
    let from = skip_whitespace(chars.as_slice(), 0);
    let mut out = String::new();
    out.append(s.substring_char(from, chars.len()));
    assert(out@ =~= s@.skip(from as int));
    out
}

/// `s` without the white space it begins and ends with.
pub fn trim(s: &str) -> (r: String)
    ensures
        r@ == trimmed(s@),
{
    let chars = chars_of(s);
    assert(chars@.skip(0) =~= chars@);
    let from = skip_whitespace(chars.as_slice(), 0);
    let to = skip_whitespace_back(chars.as_slice(), from, chars.len());
    let mut out = String::new();
    out.append(s.substring_char(from, to));
    proof {
        let t = trimmed_start(s@);
        assert(t =~= chars@.subrange(from as int, chars@.len() as int));
        assert(out@ =~= t.take(t.len() - trailing_whitespace(t)));
    }
    out
}

/// The decimal digit for `d`.
pub open spec fn digit_char(d: nat) -> char
    recommends
        d < 10,
{
    if d == 0 {
        '0'
    } else if d == 1 {
        '1'
    } else if d == 2 {
        '2'
    } else if d == 3 {
        '3'
    } else if d == 4 {
        '4'
    } else if d == 5 {
        '5'
    } else if d == 6 {
        '6'
    } else if d == 7 {
        '7'
    } else if d == 8 {
        '8'
    } else {
        '9'
    }
}

/// `n` written in decimal, without leading zeros.
pub open spec fn decimal(n: nat) -> Seq<char>
    decreases n,
{
    if n < 10 {
        seq![digit_char(n)]
    } else {
        decimal(n / 10).push(digit_char(n % 10))
    }
}

fn digit_str(d: usize) -> (r: &'static str)
    requires
        d < 10,
    ensures
        r@ == seq![digit_char(d as nat)],
{
    proof {
        reveal_strlit("0");
        reveal_strlit("1");
        reveal_strlit("2");
        reveal_strlit("3");
        reveal_strlit("4");
        reveal_strlit("5");
        reveal_strlit("6");
        reveal_strlit("7");
        reveal_strlit("8");
        reveal_strlit("9");
    }
    let r = if d == 0 {
        "0"
    } else if d == 1 {
        "1"
    } else if d == 2 {
        "2"
    } else if d == 3 {
        "3"
    } else if d == 4 {
        "4"
    } else if d == 5 {
        "5"
    } else if d == 6 {
        "6"
    } else if d == 7 {
        "7"
    } else if d == 8 {
        "8"
    } else {
        "9"
    };
    assert(r@ =~= seq![digit_char(d as nat)]);
    r
}

/// `n` written in decimal, without leading zeros.
pub fn to_decimal(n: usize) -> (r: String)
    ensures
        r@ == decimal(n as nat),
{
    let mut digits: Vec<usize> = Vec::new();
    let mut rest: usize = n;
    while rest >= 10
        invariant
            forall|k: int| 0 <= k < digits@.len() ==> digits@[k] < 10,
            decimal(n as nat) == decimal(rest as nat) + Seq::new(
                digits@.len(),
                |k: int| digit_char(digits@[digits@.len() - 1 - k] as nat),
            ),
        decreases rest,
    {
        proof {
            let tail = Seq::new(
                digits@.len(),
                |k: int| digit_char(digits@[digits@.len() - 1 - k] as nat),
            );
            let pushed = digits@.push(rest % 10);
            let tail2 = Seq::new(
                pushed.len(),
                |k: int| digit_char(pushed[pushed.len() - 1 - k] as nat),
            );
            assert(decimal((rest / 10) as nat).push(digit_char((rest % 10) as nat)) + tail
                =~= decimal((rest / 10) as nat) + tail2);
        }
        digits.push(rest % 10);
        rest = rest / 10;
    }
    let mut out = String::new();
    out.append(digit_str(rest));
    let mut i: usize = digits.len();
    assert(out@ + Seq::new(
        digits@.len(),
        |k: int| digit_char(digits@[digits@.len() - 1 - k] as nat),
    ).skip(0) =~= decimal(n as nat));
    while i > 0
        invariant
            i <= digits@.len(),
            forall|k: int| 0 <= k < digits@.len() ==> digits@[k] < 10,
            out@ + Seq::new(
                digits@.len(),
                |k: int| digit_char(digits@[digits@.len() - 1 - k] as nat),
            ).skip(digits@.len() - i) == decimal(n as nat),
        decreases i,
    {
        let ghost tail = Seq::new(
            digits@.len(),
            |k: int| digit_char(digits@[digits@.len() - 1 - k] as nat),
        );
        let ghost before = out@;
        i -= 1;
        out.append(digit_str(digits[i]));
        proof {
            assert(before + tail.skip(digits@.len() - i - 1) =~= out@ + tail.skip(
                digits@.len() - i,
            ));
        }
    }
    proof {
        let tail = Seq::new(
            digits@.len(),
            |k: int| digit_char(digits@[digits@.len() - 1 - k] as nat),
        );
        assert(out@ + tail.skip(digits@.len() as int) =~= out@);
    }
    out
}

} // verus!
