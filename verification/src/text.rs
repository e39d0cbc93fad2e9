//! Text matching used by search and by response handling: lowercase folding,
//! Unicode whitespace and substring search over characters.

use vstd::prelude::*;

verus! {

/// What `str::to_lowercase` returns for a string with these characters (full
/// Unicode case folding to lowercase; a function of the characters alone).
pub uninterp spec fn lowercase(s: Seq<char>) -> Seq<char>;

/// Every character is ASCII.
pub open spec fn is_ascii_text(s: Seq<char>) -> bool {
    forall|i: int| 0 <= i < s.len() ==> #[trigger] s[i] <= '\u{7f}'
}

/// ASCII lowercase of one character: `A`..`Z` become `a`..`z`, others stay.
pub open spec fn ascii_lower_char(c: char) -> char {
    if 'A' <= c <= 'Z' {
        ((c as int) + 32) as char
    } else {
        c
    }
}

/// ASCII uppercase of one character: `a`..`z` become `A`..`Z`, others stay.
pub open spec fn ascii_upper_char(c: char) -> char {
    if 'a' <= c <= 'z' {
        ((c as int) - 32) as char
    } else {
        c
    }
}

/// `str::to_ascii_lowercase`, character by character.
pub open spec fn ascii_lower(s: Seq<char>) -> Seq<char> {
    s.map_values(|c: char| ascii_lower_char(c))
}

/// `str::to_ascii_uppercase`, character by character.
pub open spec fn ascii_upper(s: Seq<char>) -> Seq<char> {
    s.map_values(|c: char| ascii_upper_char(c))
}

/// `str::to_lowercase`: the result's characters are [`lowercase`] of the
/// argument's. On ASCII text it lowercases as `str::to_ascii_lowercase` does
/// (whose documentation points to `to_lowercase` for lowercasing ASCII
/// characters together with the others).
#[verifier::external_body]
pub fn to_lowercase(s: &str) -> (r: String)
    ensures
        r@ == lowercase(s@),
        is_ascii_text(s@) ==> r@ == ascii_lower(s@),
{
    s.to_lowercase()
}

/// `pat` occurs in `s` at position `i`.
pub open spec fn occurs_at(s: Seq<char>, pat: Seq<char>, i: int) -> bool {
    0 <= i && i + pat.len() <= s.len() && s.subrange(i, i + pat.len()) == pat
}

/// `pat` occurs somewhere in `s` (the empty pattern occurs everywhere).
pub open spec fn contains_chars(s: Seq<char>, pat: Seq<char>) -> bool {
    exists|i: int| occurs_at(s, pat, i)
}

/// The characters of a string, in order.
pub fn chars_of(s: &str) -> (v: Vec<char>)
    ensures
        v@ == s@,
{
    let mut v: Vec<char> = Vec::new();
    for c in it: s.chars()
        invariant
            it.seq() == s@,
            v@ == it.seq().take(it.index() as int),
    {
        v.push(c);
        assert(it.seq().take(it.index() + 1) == it.seq().take(it.index() as int).push(c));
    }
    v
}

/// Whether `pat` occurs in `s` at position `i`, for `i + pat.len() <= s.len()`.
fn matches_at(s: &Vec<char>, pat: &Vec<char>, i: usize) -> (r: bool)
    requires
        i + pat@.len() <= s@.len(),
    ensures
        r == occurs_at(s@, pat@, i as int),
{
    let mut j: usize = 0;
    while j < pat.len()
        invariant
            i + pat@.len() <= s@.len(),
            j <= pat@.len(),
            forall|k: int| 0 <= k < j ==> s@[i + k] == pat@[k],
        decreases pat@.len() - j,
    {
        assert(i + j < s.len());
        if s[i + j] != pat[j] {
            assert(s@.subrange(i as int, i + pat@.len())[j as int] != pat@[j as int]);
            return false;
        }
        j = j + 1;
    }
    assert(s@.subrange(i as int, i + pat@.len()) =~= pat@);
    true
}

/// `str::contains` with a string pattern: whether `pat` occurs in `s`.
pub fn str_contains(s: &str, pat: &str) -> (r: bool)
    ensures
        r == contains_chars(s@, pat@),
{
    let sv = chars_of(s);
    let pv = chars_of(pat);
    if pv.len() > sv.len() {
        assert forall|i: int| !occurs_at(s@, pat@, i) by {}
        return false;
    }
    let last: usize = sv.len() - pv.len();
    let mut i: usize = 0;
    loop
        invariant
            sv@ == s@,
            pv@ == pat@,
            last == sv@.len() - pv@.len(),
            i <= last,
            forall|k: int| 0 <= k < i ==> !occurs_at(s@, pat@, k),
        decreases last - i,
    {
        if matches_at(&sv, &pv, i) {
            return true;
        }
        if i == last {
            assert forall|k: int| !occurs_at(s@, pat@, k) by {
                if 0 <= k < i {
                }
            }
            return false;
        }
        i = i + 1;
    }
}

/// `String::push`: appends one character.
pub assume_specification[ String::push ](s: &mut String, ch: char)
    ensures
        final(s)@ == old(s)@.push(ch),
;

/// The Unicode `White_Space` property, which `char::is_whitespace` tests.
pub open spec fn is_white_space(c: char) -> bool {
    ||| '\u{9}' <= c <= '\u{d}'
    ||| c == ' '
    ||| c == '\u{85}'
    ||| c == '\u{a0}'
    ||| c == '\u{1680}'
    ||| '\u{2000}' <= c <= '\u{200a}'
    ||| c == '\u{2028}'
    ||| c == '\u{2029}'
    ||| c == '\u{202f}'
    ||| c == '\u{205f}'
    ||| c == '\u{3000}'
}

/// Whether `c` is Unicode white space.
pub fn is_whitespace(c: char) -> (r: bool)
    ensures
        r == is_white_space(c),
{
    ('\u{9}' <= c && c <= '\u{d}') || c == ' ' || c == '\u{85}' || c == '\u{a0}' || c == '\u{1680}'
        || ('\u{2000}' <= c && c <= '\u{200a}') || c == '\u{2028}' || c == '\u{2029}' || c
        == '\u{202f}' || c == '\u{205f}' || c == '\u{3000}'
}

/// The maximal runs of non-white-space characters of `s`, in order
/// (what `str::split_whitespace` yields).
pub open spec fn words(s: Seq<char>) -> Seq<Seq<char>>
    decreases s.len(),
{
    if s.len() == 0 {
        Seq::empty()
    } else {
        let rest = s.drop_last();
        let c = s.last();
        if is_white_space(c) {
            words(rest)
        } else if rest.len() > 0 && !is_white_space(rest.last()) {
            let ws = words(rest);
            ws.update(ws.len() - 1, ws.last().push(c))
        } else {
            words(rest).push(seq![c])
        }
    }
}

/// The words joined with `sep` between consecutive ones.
pub open spec fn join_words(ws: Seq<Seq<char>>, sep: Seq<char>) -> Seq<char>
    decreases ws.len(),
{
    if ws.len() == 0 {
        Seq::empty()
    } else if ws.len() == 1 {
        ws[0]
    } else {
        join_words(ws.drop_last(), sep) + sep + ws.last()
    }
}

/// `s` with leading and trailing white space removed and every inner run of
/// white space replaced by one space.
pub open spec fn collapse_whitespace(s: Seq<char>) -> Seq<char> {
    join_words(words(s), seq![' '])
}

/// A text whose last character is not white space has at least one word.
proof fn lemma_words_nonempty(s: Seq<char>)
    requires
        s.len() > 0,
        !is_white_space(s.last()),
    ensures
        words(s).len() > 0,
    decreases s.len(),
{
    let rest = s.drop_last();
    if rest.len() > 0 && !is_white_space(rest.last()) {
        lemma_words_nonempty(rest);
    }
}

/// Appending to the last word appends to the joined text.
proof fn lemma_join_extend_last(ws: Seq<Seq<char>>, sep: Seq<char>, c: char)
    requires
        ws.len() > 0,
    ensures
        join_words(ws.update(ws.len() - 1, ws.last().push(c)), sep) == join_words(ws, sep).push(c),
{
    let ws2 = ws.update(ws.len() - 1, ws.last().push(c));
    if ws.len() > 1 {
        assert(ws2.drop_last() == ws.drop_last());
    }
}

/// A word is a non-empty run of characters that are not white space.
pub open spec fn is_word(w: Seq<char>) -> bool {
    w.len() > 0 && forall|j: int| 0 <= j < w.len() ==> !is_white_space(#[trigger] w[j])
}

/// Every word is non-empty and free of white space.
proof fn lemma_words_clean(s: Seq<char>)
    ensures
        forall|i: int| 0 <= i < words(s).len() ==> is_word(#[trigger] words(s)[i]),
    decreases s.len(),
{
    if s.len() > 0 {
        let rest = s.drop_last();
        let c = s.last();
        lemma_words_clean(rest);
        let ws = words(rest);
        if is_white_space(c) {
        } else if rest.len() > 0 && !is_white_space(rest.last()) {
            lemma_words_nonempty(rest);
            let w2 = ws.update(ws.len() - 1, ws.last().push(c));
            assert forall|i: int| 0 <= i < w2.len() implies is_word(#[trigger] w2[i]) by {
                if i != ws.len() - 1 {
                    assert(w2[i] == ws[i]);
                } else {
                    let w = ws.last();
                    assert(is_word(ws[ws.len() - 1]));
                    assert forall|j: int| 0 <= j < w2[i].len() implies !is_white_space(
                        #[trigger] w2[i][j],
                    ) by {
                        if j < w.len() {
                            assert(w2[i][j] == w[j]);
                        }
                    }
                }
            }
        } else {
            let w2 = ws.push(seq![c]);
            assert forall|i: int| 0 <= i < w2.len() implies is_word(#[trigger] w2[i]) by {
                if i < ws.len() {
                    assert(w2[i] == ws[i]);
                }
            }
        }
    }
}

/// Joined words: white space occurs only as single spaces, each between two
/// characters that are not white space.
pub open spec fn spaces_only_between_words(r: Seq<char>) -> bool {
    forall|i: int|
        0 <= i < r.len() && is_white_space(#[trigger] r[i]) ==> {
            &&& r[i] == ' '
            &&& 0 < i < r.len() - 1
            &&& !is_white_space(r[i - 1])
            &&& !is_white_space(r[i + 1])
        }
}

/// Joining words with one space gives a text whose only white space are single
/// spaces between words; it is empty exactly when there are no words.
proof fn lemma_join_shape(ws: Seq<Seq<char>>)
    requires
        forall|i: int| 0 <= i < ws.len() ==> is_word(#[trigger] ws[i]),
    ensures
        spaces_only_between_words(join_words(ws, seq![' '])),
        (join_words(ws, seq![' ']).len() == 0) == (ws.len() == 0),
        ws.len() > 0 ==> !is_white_space(join_words(ws, seq![' ']).last()),
        ws.len() > 0 ==> !is_white_space(join_words(ws, seq![' '])[0]),
    decreases ws.len(),
{
    let sp = seq![' '];
    if ws.len() == 1 {
        assert(is_word(ws[0]));
        let w = ws[0];
        assert(join_words(ws, sp) == w);
        assert(!is_white_space(w[w.len() - 1]));
        assert(!is_white_space(w[0]));
    } else if ws.len() > 1 {
        let init = ws.drop_last();
        assert forall|i: int| 0 <= i < init.len() implies is_word(#[trigger] init[i]) by {
            assert(init[i] == ws[i]);
        }
        lemma_join_shape(init);
        let a = join_words(init, sp);
        let w = ws.last();
        assert(is_word(ws[ws.len() - 1]));
        let r = join_words(ws, sp);
        assert(r == a + sp + w);
        assert(!is_white_space(w[w.len() - 1]));
        assert(!is_white_space(w[0]));
        assert(r[0] == a[0]);
        assert(r.last() == w[w.len() - 1]);
        assert forall|i: int| 0 <= i < r.len() && is_white_space(#[trigger] r[i]) implies {
            &&& r[i] == ' '
            &&& 0 < i < r.len() - 1
            &&& !is_white_space(r[i - 1])
            &&& !is_white_space(r[i + 1])
        } by {
            if i < a.len() {
                assert(r[i] == a[i]);
                if i + 1 < a.len() {
                    assert(r[i + 1] == a[i + 1]);
                }
                if i > 0 {
                    assert(r[i - 1] == a[i - 1]);
                }
            } else if i == a.len() {
                assert(r[i - 1] == a[a.len() - 1]);
                assert(r[i + 1] == w[0]);
            } else {
                assert(r[i] == w[i - a.len() - 1]);
            }
        }
    }
}

/// Collapsing white space leaves no leading or trailing white space and no
/// white space but single spaces between words.
pub proof fn law_collapse_whitespace_shape(s: Seq<char>)
    ensures
        spaces_only_between_words(collapse_whitespace(s)),
{
    lemma_words_clean(s);
    lemma_join_shape(words(s));
}

/// The words of a single word are that word.
proof fn lemma_words_of_word(w: Seq<char>)
    requires
        is_word(w),
    ensures
        words(w) == seq![w],
    decreases w.len(),
{
    let rest = w.drop_last();
    if rest.len() > 0 {
        assert(is_word(rest)) by {
            assert forall|j: int| 0 <= j < rest.len() implies !is_white_space(#[trigger] rest[j]) by {
                assert(rest[j] == w[j]);
            }
        }
        lemma_words_of_word(rest);
        assert(!is_white_space(rest.last())) by {
            assert(rest.last() == w[rest.len() - 1]);
        }
        assert(!is_white_space(w.last())) by {
            assert(w.last() == w[w.len() - 1]);
        }
        assert(rest.push(w.last()) == w);
        assert(seq![rest].update(0, rest.push(w.last())) == seq![w]);
    } else {
        assert(!is_white_space(w.last())) by {
            assert(w.last() == w[w.len() - 1]);
        }
        assert(w == seq![w.last()]);
        assert(words(rest) == Seq::<Seq<char>>::empty());
        assert(Seq::<Seq<char>>::empty().push(seq![w.last()]) == seq![w]);
    }
}

/// Appending a space and a word to a text that ends in a word appends that word
/// to its words.
proof fn lemma_words_append_word(x: Seq<char>, w: Seq<char>)
    requires
        x.len() > 0,
        !is_white_space(x.last()),
        is_word(w),
    ensures
        words(x + seq![' '] + w) == words(x).push(w),
    decreases w.len(),
{
    let sp = x + seq![' '];
    assert(sp.drop_last() == x);
    assert(is_white_space(sp.last()));
    assert(words(sp) == words(x));
    let y = sp + w;
    assert(!is_white_space(w.last())) by {
        assert(w.last() == w[w.len() - 1]);
    }
    assert(y.last() == w.last());
    let wd = w.drop_last();
    assert(y.drop_last() == sp + wd);
    if wd.len() == 0 {
        assert(sp + wd == sp);
        assert(w == seq![w.last()]);
    } else {
        assert(is_word(wd)) by {
            assert forall|j: int| 0 <= j < wd.len() implies !is_white_space(#[trigger] wd[j]) by {
                assert(wd[j] == w[j]);
            }
        }
        lemma_words_append_word(x, wd);
        assert(x + seq![' '] + wd == sp + wd);
        assert((sp + wd).last() == wd.last());
        assert(!is_white_space(wd.last())) by {
            assert(wd.last() == wd[wd.len() - 1]);
        }
        let ws = words(x).push(wd);
        assert(ws.update(ws.len() - 1, ws.last().push(w.last())) == words(x).push(w)) by {
            assert(wd.push(w.last()) == w);
        }
    }
}

/// Splitting joined words gives the words back.
proof fn lemma_words_of_join(ws: Seq<Seq<char>>)
    requires
        forall|i: int| 0 <= i < ws.len() ==> is_word(#[trigger] ws[i]),
    ensures
        words(join_words(ws, seq![' '])) == ws,
    decreases ws.len(),
{
    if ws.len() == 0 {
    } else if ws.len() == 1 {
        assert(is_word(ws[0]));
        lemma_words_of_word(ws[0]);
        assert(ws == seq![ws[0]]);
    } else {
        let init = ws.drop_last();
        assert forall|i: int| 0 <= i < init.len() implies is_word(#[trigger] init[i]) by {
            assert(init[i] == ws[i]);
        }
        lemma_words_of_join(init);
        lemma_join_shape(init);
        assert(is_word(ws[ws.len() - 1]));
        lemma_words_append_word(join_words(init, seq![' ']), ws.last());
        assert(init.push(ws.last()) == ws);
    }
}

/// Collapsing white space twice is collapsing it once.
pub proof fn law_collapse_whitespace_idempotent(s: Seq<char>)
    ensures
        collapse_whitespace(collapse_whitespace(s)) == collapse_whitespace(s),
{
    lemma_words_clean(s);
    lemma_words_of_join(words(s));
}

/// `split_whitespace` followed by `join(" ")`: the words of `text` separated by
/// single spaces.
pub fn collapse_spaces(text: &str) -> (r: String)
    ensures
        r@ == collapse_whitespace(text@),
{
    let cs = chars_of(text);
    let mut out = String::new();
    let mut any = false;
    let mut i: usize = 0;
    while i < cs.len()
        invariant
            cs@ == text@,
            i <= cs@.len(),
            out@ == collapse_whitespace(cs@.take(i as int)),
            any == (words(cs@.take(i as int)).len() > 0),
        decreases cs@.len() - i,
    {
        let c = cs[i];
        let ghost prefix = cs@.take(i as int);
        assert(cs@.take(i + 1) == prefix.push(c));
        assert(cs@.take(i + 1).drop_last() == prefix);
        if !is_whitespace(c) {
            let continues = i > 0 && !is_whitespace(cs[i - 1]);
            if continues {
                assert(prefix.last() == cs@[i - 1]);
                proof {
                    lemma_words_nonempty(prefix);
                    lemma_join_extend_last(words(prefix), seq![' '], c);
                }
                out.push(c);
            } else {
                if any {
                    out.push(' ');
                }
                out.push(c);
                any = true;
                proof {
                    let ws = words(prefix);
                    if ws.len() > 0 {
                        assert(ws.push(seq![c]).drop_last() == ws);
                    }
                }
            }
        }
        i = i + 1;
    }
    assert(cs@.take(cs@.len() as int) == cs@);
    out
}

/// Upper- or lower-casing ASCII text keeps it ASCII and changes nothing of its
/// ASCII lowercase.
pub proof fn law_ascii_case_folds_alike(q: Seq<char>)
    requires
        is_ascii_text(q),
    ensures
        is_ascii_text(ascii_upper(q)),
        is_ascii_text(ascii_lower(q)),
        ascii_lower(ascii_upper(q)) == ascii_lower(q),
        ascii_lower(ascii_lower(q)) == ascii_lower(q),
{
    assert forall|i: int| 0 <= i < q.len() implies #[trigger] ascii_upper(q)[i] <= '\u{7f}' by {
        assert(q[i] <= '\u{7f}');
    }
    assert forall|i: int| 0 <= i < q.len() implies #[trigger] ascii_lower(q)[i] <= '\u{7f}' by {
        assert(q[i] <= '\u{7f}');
    }
    assert(ascii_lower(ascii_upper(q)) =~= ascii_lower(q));
    assert(ascii_lower(ascii_lower(q)) =~= ascii_lower(q));
}

} // verus!
