//! Character-level text handling shared by the command protocol and the
//! websocket layer: Unicode whitespace, prefixes, removal of every
//! occurrence of a pattern, whitespace-separated words and trimming.
//!
//! Text is modelled as `Seq<char>`, the view of `String` and `str`.
use vstd::prelude::*;

verus! {

/// Unicode `White_Space`, the set that `char::is_whitespace` tests.
pub open spec fn is_white(c: char) -> bool {
    let u = c as u32;
    ||| 0x9 <= u <= 0xD
    ||| u == 0x20
    ||| u == 0x85
    ||| u == 0xA0
    ||| u == 0x1680
    ||| 0x2000 <= u <= 0x200A
    ||| u == 0x2028
    ||| u == 0x2029
    ||| u == 0x202F
    ||| u == 0x205F
    ||| u == 0x3000
}

/// `s` begins with `p`.
pub open spec fn has_prefix(s: Seq<char>, p: Seq<char>) -> bool {
    p.len() <= s.len() && s.take(p.len() as int) =~= p
}

/// `pat` occurs somewhere in `s`.
pub open spec fn occurs_in(s: Seq<char>, pat: Seq<char>) -> bool {
    exists|i: int| 0 <= i <= s.len() && #[trigger] has_prefix(s.skip(i), pat)
}

/// No character of `s` is whitespace.
pub open spec fn no_white(s: Seq<char>) -> bool {
    forall|i: int| 0 <= i < s.len() ==> !is_white(#[trigger] s[i])
}

/// `s` with every occurrence of `pat` removed, occurrences being found from
/// left to right without overlap (what `str::replace(pat, "")` gives).
pub open spec fn remove_all(s: Seq<char>, pat: Seq<char>) -> Seq<char>
    decreases s.len(),
{
    if s.len() == 0 || pat.len() == 0 {
        s
    } else if has_prefix(s, pat) {
        remove_all(s.skip(pat.len() as int), pat)
    } else {
        seq![s[0]] + remove_all(s.drop_first(), pat)
    }
}

/// Number of whitespace characters at the start of `s`.
pub open spec fn leading_white(s: Seq<char>) -> nat
    decreases s.len(),
{
    if s.len() > 0 && is_white(s[0]) {
        1 + leading_white(s.drop_first())
    } else {
        0
    }
}

/// Number of non-whitespace characters at the start of `s`.
pub open spec fn leading_word(s: Seq<char>) -> nat
    decreases s.len(),
{
    if s.len() > 0 && !is_white(s[0]) {
        1 + leading_word(s.drop_first())
    } else {
        0
    }
}

/// Number of whitespace characters at the end of `s`.
pub open spec fn trailing_white(s: Seq<char>) -> nat
    decreases s.len(),
{
    if s.len() > 0 && is_white(s.last()) {
        1 + trailing_white(s.drop_last())
    } else {
        0
    }
}

/// The first whitespace-separated word of `s` and the text that follows it,
/// or `None` when `s` holds nothing but whitespace: one step of
/// `str::split_whitespace`.
pub open spec fn next_word(s: Seq<char>) -> Option<(Seq<char>, Seq<char>)> {
    let t = s.skip(leading_white(s) as int);
    if t.len() == 0 {
        None
    } else {
        let w = leading_word(t) as int;
        Some((t.take(w), t.skip(w)))
    }
}

/// The first two words of `s`, when it has at least two.
pub open spec fn two_words(s: Seq<char>) -> Option<(Seq<char>, Seq<char>)> {
    match next_word(s) {
        Some((first, rest)) => match next_word(rest) {
            Some((second, _)) => Some((first, second)),
            None => None,
        },
        None => None,
    }
}

/// `s` without its leading and trailing whitespace (what `str::trim` gives).
pub open spec fn trimmed(s: Seq<char>) -> Seq<char> {
    let a = leading_white(s) as int;
    if a == s.len() {
        Seq::empty()
    } else {
        s.subrange(a, s.len() - trailing_white(s))
    }
}

// ---------------------------------------------------------------------------
// Facts about the definitions above.
// ---------------------------------------------------------------------------

proof fn lemma_skip_step(s: Seq<char>, i: int)
    requires
        0 <= i < s.len(),
    ensures
        s.skip(i).len() > 0,
        s.skip(i)[0] == s[i],
        s.skip(i).drop_first() =~= s.skip(i + 1),
{
}

proof fn lemma_leading_white_bounds(s: Seq<char>)
    ensures
        leading_white(s) <= s.len(),
        forall|j: int| 0 <= j < leading_white(s) ==> is_white(#[trigger] s[j]),
        leading_white(s) < s.len() ==> !is_white(s[leading_white(s) as int]),
    decreases s.len(),
{
    if s.len() > 0 && is_white(s[0]) {
        lemma_leading_white_bounds(s.drop_first());
        assert forall|j: int| 0 <= j < leading_white(s) implies is_white(#[trigger] s[j]) by {
            if j > 0 {
                assert(s[j] == s.drop_first()[j - 1]);
            }
        }
    }
}

proof fn lemma_leading_word_bounds(s: Seq<char>)
    ensures
        leading_word(s) <= s.len(),
        forall|j: int| 0 <= j < leading_word(s) ==> !is_white(#[trigger] s[j]),
        leading_word(s) < s.len() ==> is_white(s[leading_word(s) as int]),
    decreases s.len(),
{
    if s.len() > 0 && !is_white(s[0]) {
        lemma_leading_word_bounds(s.drop_first());
        assert forall|j: int| 0 <= j < leading_word(s) implies !is_white(#[trigger] s[j]) by {
            if j > 0 {
                assert(s[j] == s.drop_first()[j - 1]);
            }
        }
    }
}

proof fn lemma_trailing_white_bounds(s: Seq<char>)
    ensures
        trailing_white(s) <= s.len(),
        forall|j: int| s.len() - trailing_white(s) <= j < s.len() ==> is_white(#[trigger] s[j]),
        trailing_white(s) < s.len() ==> !is_white(s[s.len() - trailing_white(s) - 1]),
    decreases s.len(),
{
    if s.len() > 0 && is_white(s.last()) {
        lemma_trailing_white_bounds(s.drop_last());
        assert forall|j: int| s.len() - trailing_white(s) <= j < s.len() implies is_white(
            #[trigger] s[j],
        ) by {
            if j < s.len() - 1 {
                assert(s[j] == s.drop_last()[j]);
            }
        }
    }
}

/// A word made of non-whitespace characters, followed by text that is empty
/// or begins with whitespace, is read whole.
proof fn lemma_leading_word_of_concat(w: Seq<char>, rest: Seq<char>)
    requires
        no_white(w),
        rest.len() == 0 || is_white(rest[0]),
    ensures
        leading_word(w + rest) == w.len(),
    decreases w.len(),
{
    if w.len() == 0 {
        assert(w + rest =~= rest);
    } else {
        assert((w + rest).drop_first() =~= w.drop_first() + rest);
        lemma_leading_word_of_concat(w.drop_first(), rest);
    }
}

/// Text that does not begin with whitespace has no leading whitespace.
proof fn lemma_leading_white_zero(s: Seq<char>)
    requires
        s.len() == 0 || !is_white(s[0]),
    ensures
        leading_white(s) == 0,
{
}

/// The text after a word: its single separating space is skipped.
proof fn lemma_next_word_of_word(w: Seq<char>, rest: Seq<char>)
    requires
        w.len() > 0,
        no_white(w),
        rest.len() == 0 || is_white(rest[0]),
    ensures
        next_word(w + rest) == Some((w, rest)),
{
    let s = w + rest;
    lemma_leading_white_zero(s);
    assert(s.skip(0) =~= s);
    lemma_leading_word_of_concat(w, rest);
    assert(s.take(w.len() as int) =~= w);
    assert(s.skip(w.len() as int) =~= rest);
}

/// `remove_all` leaves text in which the pattern never occurs untouched.
proof fn lemma_remove_all_absent(s: Seq<char>, pat: Seq<char>)
    requires
        pat.len() > 0,
        !occurs_in(s, pat),
    ensures
        remove_all(s, pat) == s,
    decreases s.len(),
{
    if s.len() > 0 {
        assert(s.skip(0) =~= s);
        assert(!has_prefix(s, pat));
        let t = s.drop_first();
        assert forall|i: int| 0 <= i <= t.len() implies !#[trigger] has_prefix(t.skip(i), pat) by {
            assert(t.skip(i) =~= s.skip(i + 1));
            assert(!has_prefix(s.skip(i + 1), pat));
        }
        lemma_remove_all_absent(t, pat);
        assert(seq![s[0]] + t =~= s);
    }
}

/// Removal after a leading occurrence of the pattern.
proof fn lemma_remove_all_after_prefix(pat: Seq<char>, s: Seq<char>)
    requires
        pat.len() > 0,
    ensures
        remove_all(pat + s, pat) == remove_all(s, pat),
{
    let t = pat + s;
    assert(t.take(pat.len() as int) =~= pat);
    assert(t.skip(pat.len() as int) =~= s);
}

// ---------------------------------------------------------------------------
// Executable text functions.
// ---------------------------------------------------------------------------

/// Appends one character to a `String`.
#[verifier::external_body]
fn push_char(s: &mut String, c: char)
    ensures
        final(s)@ == old(s)@.push(c),
{
    s.push(c);
}

/// The characters of `s`, in order.
pub fn chars_of(s: &str) -> (v: Vec<char>)
    ensures
        v@ == s@,
{
    let mut v: Vec<char> = Vec::new();
    for c in it: s.chars()
        invariant
            v@ == it.seq().take(it.index()),
    {
        v.push(c);
    }
    assert(v@ =~= s@);
    v
}

/// A `String` holding the characters `v[from..to]`.
pub fn string_of(v: &Vec<char>, from: usize, to: usize) -> (s: String)
    requires
        from <= to <= v.len(),
    ensures
        s@ == v@.subrange(from as int, to as int),
{
    let mut s = String::new();
    let mut i = from;
    while i < to
        invariant
            from <= i <= to <= v.len(),
            s@ == v@.subrange(from as int, i as int),
        decreases to - i,
    {
        push_char(&mut s, v[i]);
        i = i + 1;
        assert(s@ =~= v@.subrange(from as int, i as int));
    }
    s
}

/// Whether `c` is Unicode whitespace.
pub fn is_whitespace(c: char) -> (b: bool)
    ensures
        b == is_white(c),
{
    let u = c as u32;
    (0x9 <= u && u <= 0xD) || u == 0x20 || u == 0x85 || u == 0xA0 || u == 0x1680 || (0x2000 <= u
        && u <= 0x200A) || u == 0x2028 || u == 0x2029 || u == 0x202F || u == 0x205F || u == 0x3000
}

/// Whether `v[at..]` begins with `pat`.
pub fn prefix_at(v: &Vec<char>, at: usize, pat: &Vec<char>) -> (b: bool)
    requires
        at <= v.len(),
    ensures
        b == has_prefix(v@.skip(at as int), pat@),
{
    if pat.len() > v.len() - at {
        return false;
    }
    let mut k: usize = 0;
    while k < pat.len()
        invariant
            at <= v.len(),
            pat.len() <= v.len() - at,
            k <= pat.len(),
            forall|j: int| 0 <= j < k ==> v@[at + j] == pat@[j],
        decreases pat.len() - k,
    {
        if v[at + k] != pat[k] {
            assert(v@.skip(at as int).take(pat.len() as int)[k as int] != pat@[k as int]);
            return false;
        }
        k = k + 1;
    }
    assert(v@.skip(at as int).take(pat.len() as int) =~= pat@);
    true
}

/// Whether the text `v` begins with `pat`.
pub fn starts_with(v: &Vec<char>, pat: &Vec<char>) -> (b: bool)
    ensures
        b == has_prefix(v@, pat@),
{
    let b = prefix_at(v, 0, pat);
    assert(v@.skip(0) =~= v@);
    b
}

/// `v` with every occurrence of `pat` removed, scanning left to right.
pub fn remove_every(v: &Vec<char>, pat: &Vec<char>) -> (out: Vec<char>)
    requires
        pat.len() > 0,
    ensures
        out@ == remove_all(v@, pat@),
{
    let mut out: Vec<char> = Vec::new();
    let mut i: usize = 0;
    assert(v@.skip(0) =~= v@);
    while i < v.len()
        invariant
            pat.len() > 0,
            i <= v.len(),
            out@ + remove_all(v@.skip(i as int), pat@) == remove_all(v@, pat@),
        decreases v.len() - i,
    {
        let ghost rest = v@.skip(i as int);
        proof {
            lemma_skip_step(v@, i as int);
        }
        if prefix_at(v, i, pat) {
            assert(rest.skip(pat.len() as int) =~= v@.skip(i + pat.len()));
            i = i + pat.len();
        } else {
            let ghost before = out@;
            out.push(v[i]);
            assert(out@ + remove_all(v@.skip(i + 1), pat@) =~= before + (seq![v@[i as int]]
                + remove_all(rest.drop_first(), pat@)));
            i = i + 1;
        }
    }
    assert(v@.skip(i as int).len() == 0);
    assert(out@ + remove_all(v@.skip(i as int), pat@) =~= out@);
    out
}

/// The position of the first non-whitespace character of `v` at or after `from`.
fn skip_white(v: &Vec<char>, from: usize) -> (j: usize)
    requires
        from <= v.len(),
    ensures
        j == from + leading_white(v@.skip(from as int)),
        j <= v.len(),
{
    let mut j = from;
    while j < v.len() && is_whitespace(v[j])
        invariant
            from <= j <= v.len(),
            leading_white(v@.skip(from as int)) == (j - from) + leading_white(v@.skip(j as int)),
        decreases v.len() - j,
    {
        proof {
            lemma_skip_step(v@, j as int);
        }
        j = j + 1;
    }
    proof {
        if j < v.len() {
            lemma_skip_step(v@, j as int);
        }
    }
    j
}

/// The position just after the word of `v` that starts at `from`.
fn skip_word(v: &Vec<char>, from: usize) -> (j: usize)
    requires
        from <= v.len(),
    ensures
        j == from + leading_word(v@.skip(from as int)),
        j <= v.len(),
{
    let mut j = from;
    while j < v.len() && !is_whitespace(v[j])
        invariant
            from <= j <= v.len(),
            leading_word(v@.skip(from as int)) == (j - from) + leading_word(v@.skip(j as int)),
        decreases v.len() - j,
    {
        proof {
            lemma_skip_step(v@, j as int);
        }
        j = j + 1;
    }
    proof {
        if j < v.len() {
            lemma_skip_step(v@, j as int);
        }
    }
    j
}

/// The bounds `(start, end)` of the first word of `v[from..]`, or `None`
/// when only whitespace remains; the text after the word is `v[end..]`.
pub fn find_word(v: &Vec<char>, from: usize) -> (r: Option<(usize, usize)>)
    requires
        from <= v.len(),
    ensures
        match r {
            Some((b, e)) => {
                &&& from <= b < e <= v.len()
                &&& next_word(v@.skip(from as int)) == Some(
                    (v@.subrange(b as int, e as int), v@.skip(e as int)),
                )
            },
            None => next_word(v@.skip(from as int)) is None,
        },
{
    let b = skip_white(v, from);
    let ghost s = v@.skip(from as int);
    let ghost t = s.skip(leading_white(s) as int);
    assert(t =~= v@.skip(b as int));
    if b == v.len() {
        return None;
    }
    let e = skip_word(v, b);
    proof {
        lemma_skip_step(v@, b as int);
        lemma_leading_white_bounds(s);
        assert(!is_white(v@[b as int])) by {
            assert(s[leading_white(s) as int] == v@[b as int]);
        }
        assert(t.take(leading_word(t) as int) =~= v@.subrange(b as int, e as int));
        assert(t.skip(leading_word(t) as int) =~= v@.skip(e as int));
    }
    Some((b, e))
}

/// `v` without leading and trailing whitespace.
pub fn trim_chars(v: &Vec<char>) -> (out: Vec<char>)
    ensures
        out@ == trimmed(v@),
{
    let b = skip_white(v, 0);
    assert(v@.skip(0) =~= v@);
    if b == v.len() {
        return Vec::new();
    }
    let mut e = v.len();
    proof {
        lemma_leading_white_bounds(v@);
    }
    while e > b + 1 && is_whitespace(v[e - 1])
        invariant
            b < e <= v.len(),
            b == leading_white(v@),
            !is_white(v@[b as int]),
            trailing_white(v@) == (v.len() - e) + trailing_white(v@.take(e as int)),
        decreases e,
    {
        assert(v@.take(e as int).drop_last() =~= v@.take(e - 1));
        e = e - 1;
    }
    proof {
        // the last kept character is not whitespace
        assert(v@.take(e as int).last() == v@[e - 1]);
        if e == b + 1 {
            assert(!is_white(v@[e - 1]));
        }
        assert(trailing_white(v@.take(e as int)) == 0);
    }
    let mut out: Vec<char> = Vec::new();
    let mut i = b;
    while i < e
        invariant
            b <= i <= e <= v.len(),
            out@ == v@.subrange(b as int, i as int),
        decreases e - i,
    {
        out.push(v[i]);
        i = i + 1;
        assert(out@ =~= v@.subrange(b as int, i as int));
    }
    out
}

/// `s` without leading and trailing whitespace, as `str::trim` gives it.
pub fn trim(s: &str) -> (out: String)
    ensures
        out@ == trimmed(s@),
{
    let v = chars_of(s);
    let t = trim_chars(&v);
    string_of(&t, 0, t.len())
}

// ---------------------------------------------------------------------------
// Laws.
// ---------------------------------------------------------------------------

/// Trimming twice gives what trimming once gives.
pub proof fn law_trim_idempotent(s: Seq<char>)
    ensures
        trimmed(trimmed(s)) == trimmed(s),
{
    let t = trimmed(s);
    lemma_leading_white_bounds(s);
    lemma_trailing_white_bounds(s);
    if leading_white(s) < s.len() {
        let a = leading_white(s) as int;
        let z = s.len() - trailing_white(s);
        // The first non-white character of s lies before its trailing white run.
        assert(a < z) by {
            if a >= z {
                assert(is_white(s[a]));
            }
        }
        assert(t.len() > 0);
        assert(t[0] == s[a]);
        assert(t.last() == s[z - 1]);
        assert(leading_white(t) == 0);
        assert(trailing_white(t) == 0);
        assert(t.subrange(0, t.len() as int) =~= t);
    }
}

/// A word followed by a single space and a second word reads back as those
/// two words.
pub proof fn law_two_words(first: Seq<char>, second: Seq<char>)
    requires
        first.len() > 0,
        second.len() > 0,
        no_white(first),
        no_white(second),
    ensures
        two_words(first + seq![' '] + second) == Some((first, second)),
{
    let rest = seq![' '] + second;
    assert(first + seq![' '] + second =~= first + rest);
    lemma_next_word_of_word(first, rest);
    assert(leading_white(rest) == 1) by {
        assert(rest.drop_first() =~= second);
        lemma_leading_white_zero(second);
    }
    let t = rest.skip(1);
    assert(t =~= second);
    assert(second + Seq::<char>::empty() =~= second);
    lemma_leading_word_of_concat(second, Seq::<char>::empty());
    assert(t.take(second.len() as int) =~= second);
    assert(t.skip(second.len() as int) =~= Seq::<char>::empty());
    assert(next_word(rest) == Some((second, Seq::<char>::empty())));
}

/// `s` ends with `p`.
pub open spec fn has_suffix(s: Seq<char>, p: Seq<char>) -> bool {
    p.len() <= s.len() && s.skip(s.len() - p.len()) =~= p
}

/// A space in front of text changes none of its words.
proof fn lemma_next_word_after_space(s: Seq<char>)
    ensures
        next_word(seq![' '] + s) == next_word(s),
{
    let t = seq![' '] + s;
    assert(t.drop_first() =~= s);
    assert(leading_white(t) == 1 + leading_white(s));
    lemma_leading_white_bounds(s);
    assert(t.skip(leading_white(t) as int) =~= s.skip(leading_white(s) as int));
}

/// A word, a single space and any text: the first two words are that word
/// and the first word of the text.
pub proof fn law_word_then_text(first: Seq<char>, text: Seq<char>)
    requires
        first.len() > 0,
        no_white(first),
        next_word(text) is Some,
    ensures
        two_words(first + seq![' '] + text) == Some((first, next_word(text).unwrap().0)),
        text.len() > 0 && no_white(text) ==> next_word(text).unwrap().0 == text,
{
    if text.len() > 0 && no_white(text) {
        assert(text + Seq::<char>::empty() =~= text);
        lemma_next_word_of_word(text, Seq::<char>::empty());
    }
    let rest = seq![' '] + text;
    assert(first + seq![' '] + text =~= first + rest);
    lemma_next_word_of_word(first, rest);
    lemma_next_word_after_space(text);
}

/// Where `pat` ends with a space and holds no other whitespace, it occurs in
/// `first + " " + second` only inside `second`, or where `first` ends with
/// the part of `pat` before its space, when `first` holds no whitespace.
pub proof fn lemma_occurs_across_space(first: Seq<char>, second: Seq<char>, pat: Seq<char>)
    requires
        pat.len() > 0,
        pat.last() == ' ',
        no_white(pat.drop_last()),
        no_white(first),
        !has_suffix(first, pat.drop_last()),
        !occurs_in(second, pat),
    ensures
        !occurs_in(first + seq![' '] + second, pat),
{
    let body = first + seq![' '] + second;
    let n = first.len() as int;
    let k = pat.len() as int;
    assert forall|i: int| 0 <= i <= body.len() implies !#[trigger] has_prefix(body.skip(i), pat) by {
        if has_prefix(body.skip(i), pat) {
            let m = body.skip(i).take(k);
            assert(m =~= pat);
            if i + k - 1 < n {
                // the space that ends the pattern would lie in `first`
                assert(body[i + k - 1] == first[i + k - 1]);
                assert(m[k - 1] == body[i + k - 1]);
                assert(is_white(first[i + k - 1]));
            } else if i <= n {
                if i + k - 1 > n {
                    // the space at n would lie inside the pattern before its end
                    assert(m[n - i] == body[n]);
                    assert(body[n] == ' ');
                    assert(pat.drop_last()[n - i] == pat[n - i]);
                    assert(is_white(pat.drop_last()[n - i]));
                } else {
                    // the pattern ends on the space at n: `first` ends with the rest
                    assert(first.skip(n - (k - 1)) =~= pat.drop_last()) by {
                        assert forall|j: int| 0 <= j < k - 1 implies #[trigger] first.skip(n - (k - 1))[j]
                            == pat.drop_last()[j] by {
                            assert(m[j] == body[i + j]);
                            assert(body[i + j] == first[i + j]);
                        }
                    }
                }
            } else {
                let j = i - n - 1;
                assert(body.skip(i) =~= second.skip(j));
                assert(has_prefix(second.skip(j), pat));
            }
        }
    }
}

/// Removing the occurrences of a pattern from text that begins with the
/// pattern and then holds no other occurrence gives back that text.
pub proof fn law_remove_prefix_occurrence(pat: Seq<char>, s: Seq<char>)
    requires
        pat.len() > 0,
        !occurs_in(s, pat),
    ensures
        remove_all(pat + s, pat) == s,
{
    lemma_remove_all_after_prefix(pat, s);
    lemma_remove_all_absent(s, pat);
}

} // verus!
