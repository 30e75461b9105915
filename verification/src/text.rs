//! Character-level text utilities: whitespace, search, replacement.

use vstd::prelude::*;

verus! {

/// The Unicode `White_Space` property, which `char::is_whitespace` tests.
pub open spec fn is_ws(c: char) -> bool {
    let u = c as u32;
    ||| 0x09 <= u <= 0x0d
    ||| u == 0x20
    ||| u == 0x85
    ||| u == 0xa0
    ||| u == 0x1680
    ||| 0x2000 <= u <= 0x200a
    ||| u == 0x2028
    ||| u == 0x2029
    ||| u == 0x202f
    ||| u == 0x205f
    ||| u == 0x3000
}

/// Whether `c` is a whitespace character (Unicode `White_Space`).
pub fn is_whitespace(c: char) -> (r: bool)
    ensures
        r == is_ws(c),
        r <==> is_white_space_char(c),
{
    proof {
        lemma_whitespace_chars(c);
    }
    let u = c as u32;
    (0x09 <= u && u <= 0x0d) || u == 0x20 || u == 0x85 || u == 0xa0 || u == 0x1680 || (0x2000
        <= u && u <= 0x200a) || u == 0x2028 || u == 0x2029 || u == 0x202f || u == 0x205f || u
        == 0x3000
}

/// Appends one character to a string (`String::push`).
#[verifier::external_body]
pub(crate) fn push_char(s: &mut String, c: char)
    ensures
        final(s)@ == old(s)@.push(c),
{
    s.push(c)
}

/// The characters of `s`, in order.
pub fn chars_of(s: &str) -> (v: Vec<char>)
    ensures
        v@ == s@,
{
    let mut v: Vec<char> = Vec::new();
    for c in it: s.chars()
        invariant
            v@ == it.seq().take(it.index() as int),
            it.seq() == s@,
    {
        v.push(c);
    }
    v
}

} // verus!

verus! {

/// Whether `pat` occurs in `s` starting at position `i`.
pub open spec fn occurs_at(s: Seq<char>, pat: Seq<char>, i: int) -> bool {
    0 <= i && i + pat.len() <= s.len() && s.subrange(i, i + pat.len()) == pat
}

/// Whether `pat` occurs anywhere in `s` (an empty pattern occurs everywhere).
pub open spec fn contains_seq(s: Seq<char>, pat: Seq<char>) -> bool {
    exists|i: int| occurs_at(s, pat, i)
}

/// `to` before each character of `s` and once more at its end (what
/// `str::replace` does with an empty pattern).
pub open spec fn interleave(s: Seq<char>, to: Seq<char>) -> Seq<char>
    decreases s.len(),
{
    if s.len() == 0 {
        to
    } else {
        to + seq![s[0]] + interleave(s.drop_first(), to)
    }
}

/// `s` with every occurrence of `from` replaced by `to`, scanning left to right and
/// never looking inside a replacement (the semantics of `str::replace`); an
/// empty `from` occurs before each character and at the end.
pub open spec fn replace_all(s: Seq<char>, from: Seq<char>, to: Seq<char>) -> Seq<char>
    decreases s.len(),
{
    if from.len() == 0 {
        interleave(s, to)
    } else if s.len() < from.len() {
        s
    } else if s.take(from.len() as int) == from {
        to + replace_all(s.skip(from.len() as int), from, to)
    } else {
        seq![s[0]] + replace_all(s.drop_first(), from, to)
    }
}

/// `s` without its leading whitespace.
pub open spec fn trim_start(s: Seq<char>) -> Seq<char>
    decreases s.len(),
{
    if s.len() > 0 && is_ws(s[0]) {
        trim_start(s.drop_first())
    } else {
        s
    }
}

/// `s` without its trailing whitespace.
pub open spec fn trim_end(s: Seq<char>) -> Seq<char>
    decreases s.len(),
{
    if s.len() > 0 && is_ws(s.last()) {
        trim_end(s.drop_last())
    } else {
        s
    }
}

/// `s` without leading and trailing whitespace (the semantics of `str::trim`).
pub open spec fn trimmed(s: Seq<char>) -> Seq<char> {
    trim_end(trim_start(s))
}

/// Whether `pat` occurs in `cs` at position `i`.
fn occurs_at_exec(cs: &Vec<char>, pat: &Vec<char>, i: usize) -> (r: bool)
    ensures
        r == occurs_at(cs@, pat@, i as int),
{
    if pat.len() > cs.len() || i > cs.len() - pat.len() {
        return false;
    }
    let mut j: usize = 0;
    while j < pat.len()
        invariant
            i + pat@.len() <= cs.len(),
            j <= pat@.len(),
            forall|k: int| 0 <= k < j ==> cs@[i + k] == pat@[k],
        decreases pat.len() - j,
    {
        if cs[i + j] != pat[j] {
            assert(cs@.subrange(i as int, i + pat@.len())[j as int] != pat@[j as int]);
            return false;
        }
        j = j + 1;
    }
    assert(cs@.subrange(i as int, i + pat@.len()) =~= pat@);
    true
}

/// The string made of the characters of `cs`.
pub fn string_of(cs: &Vec<char>) -> (r: String)
    ensures
        r@ == cs@,
{
    let mut r = String::new();
    let mut i: usize = 0;
    while i < cs.len()
        invariant
            i <= cs@.len(),
            r@ == cs@.take(i as int),
        decreases cs.len() - i,
    {
        push_char(&mut r, cs[i]);
        assert(cs@.take(i + 1) =~= cs@.take(i as int).push(cs@[i as int]));
        i = i + 1;
    }
    assert(cs@.take(cs@.len() as int) =~= cs@);
    r
}

/// Appends the characters of `cs` to `r`.
fn push_all(r: &mut String, cs: &Vec<char>)
    ensures
        final(r)@ == old(r)@ + cs@,
{
    let mut i: usize = 0;
    while i < cs.len()
        invariant
            i <= cs@.len(),
            r@ == old(r)@ + cs@.take(i as int),
        decreases cs.len() - i,
    {
        push_char(r, cs[i]);
        assert(cs@.take(i + 1) =~= cs@.take(i as int).push(cs@[i as int]));
        i = i + 1;
    }
    assert(cs@.take(cs@.len() as int) =~= cs@);
}

/// Whether `pat` occurs in `s` (`str::contains`).
pub fn contains(s: &str, pat: &str) -> (r: bool)
    ensures
        r == contains_seq(s@, pat@),
{
    let cs = chars_of(s);
    let ps = chars_of(pat);
    if ps.len() > cs.len() {
        assert forall|i: int| !occurs_at(s@, pat@, i) by {}
        return false;
    }
    let last = cs.len() - ps.len();
    let mut i: usize = 0;
    loop
        invariant
            last == cs@.len() - ps@.len(),
            i <= last,
            cs@ == s@,
            ps@ == pat@,
            forall|k: int| 0 <= k < i ==> !occurs_at(s@, pat@, k),
        ensures
            forall|k: int| 0 <= k <= last ==> !occurs_at(s@, pat@, k),
        decreases last - i,
    {
        if occurs_at_exec(&cs, &ps, i) {
            return true;
        }
        if i == last {
            break;
        }
        i = i + 1;
    }
    assert forall|k: int| !occurs_at(s@, pat@, k) by {
        if occurs_at(s@, pat@, k) {
            assert(k <= last);
        }
    }
    false
}

/// `s` with every occurrence of `from` replaced by `to` (`str::replace`).
pub fn replace(s: &str, from: &str, to: &str) -> (r: String)
    ensures
        r@ == replace_all(s@, from@, to@),
{
    let cs = chars_of(s);
    let fs = chars_of(from);
    let ts = chars_of(to);
    let mut r = String::new();
    let mut i: usize = 0;
    assert(cs@.skip(0) =~= cs@);
    if fs.len() == 0 {
        while i < cs.len()
            invariant
                cs@ == s@,
                ts@ == to@,
                from@.len() == 0,
                i <= cs@.len(),
                r@ + interleave(cs@.skip(i as int), ts@) == replace_all(s@, from@, to@),
            decreases cs.len() - i,
        {
            let ghost rest = cs@.skip(i as int);
            assert(rest.drop_first() =~= cs@.skip(i + 1));
            push_all(&mut r, &ts);
            push_char(&mut r, cs[i]);
            i = i + 1;
        }
        assert(cs@.skip(i as int) =~= Seq::<char>::empty());
        push_all(&mut r, &ts);
        return r;
    }
    while i < cs.len()
        invariant
            cs@ == s@,
            fs@ == from@,
            ts@ == to@,
            fs@.len() > 0,
            i <= cs@.len(),
            r@ + replace_all(cs@.skip(i as int), fs@, ts@) == replace_all(s@, from@, to@),
        decreases cs.len() - i,
    {
        let ghost rest = cs@.skip(i as int);
        if occurs_at_exec(&cs, &fs, i) {
            assert(rest.take(fs@.len() as int) =~= cs@.subrange(i as int, i + fs@.len()));
            assert(rest.skip(fs@.len() as int) =~= cs@.skip(i + fs@.len()));
            push_all(&mut r, &ts);
            i = i + fs.len();
        } else {
            proof {
                if rest.len() >= fs@.len() {
                    assert(rest.take(fs@.len() as int) =~= cs@.subrange(i as int, i + fs@.len()));
                }
                assert(rest.drop_first() =~= cs@.skip(i + 1));
                if rest.len() < fs@.len() {
                    // the tail is too short to hold `from`: it stays as it is
                    assert(replace_all(rest, fs@, ts@) == rest);
                    assert(replace_all(cs@.skip(i + 1), fs@, ts@) == cs@.skip(i + 1));
                    assert(rest =~= seq![cs@[i as int]] + cs@.skip(i + 1));
                }
            }
            push_char(&mut r, cs[i]);
            i = i + 1;
        }
    }
    assert(cs@.skip(i as int) =~= Seq::<char>::empty());
    r
}

} // verus!

verus! {

proof fn lemma_trim_start_skip(s: Seq<char>, a: int)
    requires
        0 <= a <= s.len(),
        forall|k: int| 0 <= k < a ==> is_ws(#[trigger] s[k]),
        a == s.len() || !is_ws(s[a]),
    ensures
        trim_start(s) == s.skip(a),
    decreases a,
{
    if a == 0 {
        assert(s.skip(0) =~= s);
    } else {
        assert(is_ws(s[0]));
        let t = s.drop_first();
        assert forall|k: int| 0 <= k < a - 1 implies is_ws(#[trigger] t[k]) by {
            assert(t[k] == s[k + 1]);
        }
        lemma_trim_start_skip(t, a - 1);
        assert(t.skip(a - 1) =~= s.skip(a));
    }
}

proof fn lemma_trim_end_take(s: Seq<char>, b: int)
    requires
        0 <= b <= s.len(),
        forall|k: int| b <= k < s.len() ==> is_ws(#[trigger] s[k]),
        b == 0 || !is_ws(s[b - 1]),
    ensures
        trim_end(s) == s.take(b),
    decreases s.len() - b,
{
    if b == s.len() {
        assert(s.take(b) =~= s);
    } else {
        assert(is_ws(s.last()));
        let t = s.drop_last();
        lemma_trim_end_take(t, b);
        assert(t.take(b) =~= s.take(b));
    }
}

/// The characters `cs[from..to]` as a string.
fn string_of_range(cs: &Vec<char>, from: usize, to: usize) -> (r: String)
    requires
        from <= to <= cs@.len(),
    ensures
        r@ == cs@.subrange(from as int, to as int),
{
    let mut r = String::new();
    let mut i: usize = from;
    while i < to
        invariant
            from <= i <= to <= cs@.len(),
            r@ == cs@.subrange(from as int, i as int),
        decreases to - i,
    {
        push_char(&mut r, cs[i]);
        assert(cs@.subrange(from as int, i + 1) =~= cs@.subrange(from as int, i as int).push(
            cs@[i as int],
        ));
        i = i + 1;
    }
    r
}

/// `s` without leading and trailing whitespace (`str::trim`).
pub fn trim(s: &str) -> (r: String)
    ensures
        r@ == trimmed(s@),
{
    let cs = chars_of(s);
    let n = cs.len();
    let mut a: usize = 0;
    while a < n && is_whitespace(cs[a])
        invariant
            a <= n == cs@.len(),
            forall|k: int| 0 <= k < a ==> is_ws(#[trigger] cs@[k]),
        decreases n - a,
    {
        a = a + 1;
    }
    let mut b: usize = n;
    while b > a && is_whitespace(cs[b - 1])
        invariant
            a <= b <= n == cs@.len(),
            forall|k: int| b <= k < n ==> is_ws(#[trigger] cs@[k]),
        decreases b,
    {
        b = b - 1;
    }
    proof {
        lemma_trim_start_skip(s@, a as int);
        let t = s@.skip(a as int);
        assert forall|k: int| b - a <= k < t.len() implies is_ws(#[trigger] t[k]) by {
            assert(t[k] == s@[a + k]);
        }
        if b > a {
            assert(t[b - a - 1] == s@[b - 1]);
        }
        lemma_trim_end_take(t, b - a);
        assert(t.take(b - a) =~= s@.subrange(a as int, b as int));
    }
    string_of_range(&cs, a, b)
}

} // verus!

verus! {

/// The words of `s`: its maximal runs of non-whitespace characters, in order
/// (the semantics of `str::split_whitespace`). Read left to right, a
/// non-whitespace character that follows another one extends the last word,
/// and one that follows whitespace (or starts the text) begins a new word.
pub open spec fn words(s: Seq<char>) -> Seq<Seq<char>>
    decreases s.len(),
{
    if s.len() == 0 {
        seq![]
    } else {
        let prev = words(s.drop_last());
        let c = s.last();
        if is_ws(c) {
            prev
        } else if s.len() >= 2 && !is_ws(s[s.len() - 2]) {
            prev.update(prev.len() - 1, prev.last().push(c))
        } else {
            prev.push(seq![c])
        }
    }
}

/// The pieces of `ws` with `sep` between each two neighbours (`[T]::join`).
pub open spec fn join(ws: Seq<Seq<char>>, sep: Seq<char>) -> Seq<char>
    decreases ws.len(),
{
    if ws.len() == 0 {
        seq![]
    } else if ws.len() == 1 {
        ws[0]
    } else {
        join(ws.drop_last(), sep) + sep + ws.last()
    }
}

/// The single space that joins words.
pub open spec fn space() -> Seq<char> {
    seq![' ']
}

/// The views of a vector of character vectors.
pub open spec fn views(v: Seq<Vec<char>>) -> Seq<Seq<char>> {
    v.map_values(|w: Vec<char>| w@)
}

/// The words of `cs`, each as a vector of characters.
pub fn split_words(cs: &Vec<char>) -> (r: Vec<Vec<char>>)
    ensures
        views(r@) == words(cs@),
{
    let mut done: Vec<Vec<char>> = Vec::new();
    let mut cur: Vec<char> = Vec::new();
    let n = cs.len();
    let mut i: usize = 0;
    while i < n
        invariant
            i <= n == cs@.len(),
            cur@.len() > 0 ==> words(cs@.take(i as int)) == views(done@).push(cur@),
            cur@.len() > 0 ==> i > 0 && !is_ws(cs@[i - 1]),
            cur@.len() == 0 ==> words(cs@.take(i as int)) == views(done@),
            cur@.len() == 0 && i > 0 ==> is_ws(cs@[i - 1]),
        decreases n - i,
    {
        let c = cs[i];
        let ghost t = cs@.take(i + 1);
        assert(t.drop_last() =~= cs@.take(i as int));
        assert(t.last() == c);
        if is_whitespace(c) {
            if cur.len() > 0 {
                let w = cur;
                cur = Vec::new();
                done.push(w);
                assert(views(done@) =~= words(cs@.take(i as int)));
            }
        } else {
            if cur.len() > 0 {
                assert(t[t.len() - 2] == cs@[i - 1]);
                let ghost before = views(done@);
                cur.push(c);
                assert(words(t) =~= before.push(cur@));
            } else {
                cur.push(c);
                assert(cur@ =~= seq![c]);
                assert(words(t) =~= views(done@).push(cur@));
            }
        }
        i = i + 1;
    }
    assert(cs@.take(n as int) =~= cs@);
    if cur.len() > 0 {
        done.push(cur);
        assert(views(done@) =~= words(cs@));
    }
    done
}

/// The words `ws[from..to]` joined by single spaces.
pub fn join_words(ws: &Vec<Vec<char>>, from: usize, to: usize) -> (r: String)
    requires
        from <= to <= ws@.len(),
    ensures
        r@ == join(views(ws@).subrange(from as int, to as int), space()),
{
    let mut r = String::new();
    let mut k: usize = from;
    while k < to
        invariant
            from <= k <= to <= ws@.len(),
            r@ == join(views(ws@).subrange(from as int, k as int), space()),
        decreases to - k,
    {
        let ghost prev = views(ws@).subrange(from as int, k as int);
        let ghost next = views(ws@).subrange(from as int, k + 1);
        assert(next.drop_last() =~= prev);
        assert(next.last() == ws@[k as int]@);
        if k > from {
            push_char(&mut r, ' ');
        } else {
            assert(prev.len() == 0);
        }
        push_all(&mut r, &ws[k]);
        k = k + 1;
    }
    r
}

} // verus!

verus! {

/// Whether `a` and `b` hold the same text.
pub fn eq_text(a: &str, b: &str) -> (r: bool)
    ensures
        r == (a@ == b@),
{
    let xs = chars_of(a);
    let ys = chars_of(b);
    if xs.len() != ys.len() {
        return false;
    }
    let mut i: usize = 0;
    while i < xs.len()
        invariant
            xs@ == a@,
            ys@ == b@,
            xs@.len() == ys@.len(),
            i <= xs@.len(),
            forall|k: int| 0 <= k < i ==> xs@[k] == ys@[k],
        decreases xs.len() - i,
    {
        if xs[i] != ys[i] {
            assert(a@ != b@) by {
                if a@ == b@ {
                    assert(xs@[i as int] == ys@[i as int]);
                }
            }
            return false;
        }
        i = i + 1;
    }
    assert(xs@ =~= ys@);
    true
}

/// The text `a` followed by the text `b`.
pub fn join_two(a: &str, b: &str) -> (r: String)
    ensures
        r@ == a@ + b@,
{
    let mut r = String::new();
    let xs = chars_of(a);
    let ys = chars_of(b);
    push_all(&mut r, &xs);
    push_all(&mut r, &ys);
    r
}

} // verus!

verus! {

/// Whether every piece of `ws` is a nonempty run of non-whitespace characters.
pub open spec fn all_words(ws: Seq<Seq<char>>) -> bool {
    forall|i: int|
        0 <= i < ws.len() ==> (#[trigger] ws[i]).len() > 0 && forall|k: int|
            0 <= k < ws[i].len() ==> !is_ws(#[trigger] ws[i][k])
}

/// Every word of `s` is a nonempty run of non-whitespace characters taken from
/// `s`, and a text that ends in a non-whitespace character has a word.
pub proof fn lemma_words_are_words(s: Seq<char>)
    ensures
        all_words(words(s)),
        forall|i: int, k: int|
            0 <= i < words(s).len() && 0 <= k < words(s)[i].len() ==> s.contains(
                #[trigger] words(s)[i][k],
            ),
        s.len() > 0 && !is_ws(s.last()) ==> words(s).len() > 0,
    decreases s.len(),
{
    if s.len() > 0 {
        let p = s.drop_last();
        lemma_words_are_words(p);
        let c = s.last();
        assert forall|x: char| p.contains(x) implies s.contains(x) by {
            let j = choose|j: int| 0 <= j < p.len() && p[j] == x;
            assert(s[j] == x);
        }
        assert(s[s.len() - 1] == c);
        if !is_ws(c) && s.len() >= 2 && !is_ws(s[s.len() - 2]) {
            assert(p.last() == s[s.len() - 2]);
        }
    }
}

/// A nonempty run of non-whitespace characters is a single word.
pub proof fn lemma_words_of_word(w: Seq<char>)
    requires
        w.len() > 0,
        forall|k: int| 0 <= k < w.len() ==> !is_ws(#[trigger] w[k]),
    ensures
        words(w) == seq![w],
    decreases w.len(),
{
    assert(!is_ws(w[w.len() - 1]));
    if w.len() == 1 {
        assert(w.drop_last() =~= Seq::<char>::empty());
        assert(seq![w.last()] =~= w);
        assert(words(w.drop_last()) == Seq::<Seq<char>>::empty());
        assert(words(w) == Seq::<Seq<char>>::empty().push(seq![w.last()]));
        assert(Seq::<Seq<char>>::empty().push(w) =~= seq![w]);
    } else {
        let p = w.drop_last();
        assert forall|k: int| 0 <= k < p.len() implies !is_ws(#[trigger] p[k]) by {
            assert(p[k] == w[k]);
        }
        lemma_words_of_word(p);
        assert(p.push(w.last()) =~= w);
        assert(!is_ws(w[w.len() - 2]));
        assert(seq![p].update(0, p.push(w.last())) =~= seq![w]);
    }
}

/// Appending a space and a word to a text appends that word to its words.
pub proof fn lemma_words_append_word(x: Seq<char>, w: Seq<char>)
    requires
        w.len() > 0,
        forall|k: int| 0 <= k < w.len() ==> !is_ws(#[trigger] w[k]),
    ensures
        words(x + space() + w) == words(x).push(w),
    decreases w.len(),
{
    let s = x + space() + w;
    let xs = x + space();
    assert(xs.drop_last() =~= x);
    assert(xs.last() == ' ');
    assert(is_ws(' '));
    assert(words(xs) == words(x));
    if w.len() == 1 {
        assert(s.drop_last() =~= xs);
        assert(s[s.len() - 2] == ' ');
        assert(seq![w.last()] =~= w);
    } else {
        let p = w.drop_last();
        lemma_words_append_word(x, p);
        assert(s.drop_last() =~= x + space() + p);
        assert(s[s.len() - 2] == w[w.len() - 2]);
        assert(p.push(w.last()) =~= w);
        assert(words(x).push(p).update(words(x).len() as int, w) =~= words(x).push(w));
    }
}

/// Joining words with single spaces and splitting the result again gives the
/// same words.
pub proof fn lemma_words_of_join(ws: Seq<Seq<char>>)
    requires
        all_words(ws),
    ensures
        words(join(ws, space())) == ws,
    decreases ws.len(),
{
    if ws.len() == 0 {
    } else if ws.len() == 1 {
        lemma_words_of_word(ws[0]);
        assert(seq![ws[0]] =~= ws);
    } else {
        let p = ws.drop_last();
        assert(all_words(p)) by {
            assert forall|i: int| 0 <= i < p.len() implies (#[trigger] p[i]).len() > 0 && forall|k: int|
                0 <= k < p[i].len() ==> !is_ws(#[trigger] p[i][k]) by {
                assert(p[i] == ws[i]);
            }
        }
        lemma_words_of_join(p);
        let w = ws.last();
        assert(w == ws[ws.len() - 1]);
        lemma_words_append_word(join(p, space()), w);
        assert(p.push(w) =~= ws);
    }
}

/// A text of joined words starts and ends with a word, and each of its
/// whitespace characters is a single space between two non-whitespace ones.
pub open spec fn single_spaced(j: Seq<char>) -> bool {
    &&& j.len() > 0 ==> !is_ws(j[0]) && !is_ws(j.last())
    &&& forall|i: int|
        0 <= i < j.len() && is_ws(#[trigger] j[i]) ==> j[i] == ' ' && 0 < i < j.len() - 1
            && !is_ws(j[i - 1]) && !is_ws(j[i + 1])
}

/// Words joined by single spaces are single spaced.
pub proof fn lemma_join_single_spaced(ws: Seq<Seq<char>>)
    requires
        all_words(ws),
    ensures
        single_spaced(join(ws, space())),
        ws.len() > 0 ==> join(ws, space()).len() > 0,
    decreases ws.len(),
{
    if ws.len() == 0 {
    } else if ws.len() == 1 {
        assert(ws[0].len() > 0);
        assert(!is_ws(ws[0][0]));
        assert(!is_ws(ws[0][ws[0].len() - 1]));
    } else {
        let p = ws.drop_last();
        assert(all_words(p)) by {
            assert forall|i: int| 0 <= i < p.len() implies (#[trigger] p[i]).len() > 0 && forall|k: int|
                0 <= k < p[i].len() ==> !is_ws(#[trigger] p[i][k]) by {
                assert(p[i] == ws[i]);
            }
        }
        lemma_join_single_spaced(p);
        let jp = join(p, space());
        let w = ws.last();
        assert(w == ws[ws.len() - 1]);
        let j = join(ws, space());
        assert(j == jp + space() + w);
        let n = jp.len();
        assert(n > 0);
        assert forall|i: int| 0 <= i < j.len() && is_ws(#[trigger] j[i]) implies j[i] == ' ' && 0 < i
            < j.len() - 1 && !is_ws(j[i - 1]) && !is_ws(j[i + 1]) by {
            if i < n {
                assert(j[i] == jp[i]);
                assert(is_ws(jp[i]));
                assert(j[i - 1] == jp[i - 1]);
                assert(j[i + 1] == jp[i + 1]);
            } else if i == n {
                assert(j[i - 1] == jp[n - 1]);
                assert(j[i + 1] == w[0]);
            } else {
                assert(j[i] == w[i - n - 1]);
            }
        }
        assert(j[0] == jp[0]);
        assert(j.last() == w[w.len() - 1]);
    }
}

/// Trimming a text that neither starts nor ends with whitespace leaves it as
/// it is.
pub proof fn lemma_trimmed_unchanged(s: Seq<char>)
    requires
        s.len() > 0 ==> !is_ws(s[0]) && !is_ws(s.last()),
    ensures
        trimmed(s) == s,
{
}

/// Trimming twice trims no more than trimming once.
pub proof fn lemma_trim_idempotent(s: Seq<char>)
    ensures
        trimmed(trimmed(s)) == trimmed(s),
{
    lemma_trim_start_ends(s);
    lemma_trim_end_ends(trim_start(s));
    let t = trimmed(s);
    if t.len() > 0 {
        lemma_trim_end_prefix(trim_start(s));
    }
}

proof fn lemma_trim_start_ends(s: Seq<char>)
    ensures
        trim_start(s).len() > 0 ==> !is_ws(trim_start(s)[0]),
    decreases s.len(),
{
    if s.len() > 0 && is_ws(s[0]) {
        lemma_trim_start_ends(s.drop_first());
    }
}

proof fn lemma_trim_end_ends(s: Seq<char>)
    ensures
        trim_end(s).len() > 0 ==> !is_ws(trim_end(s).last()),
    decreases s.len(),
{
    if s.len() > 0 && is_ws(s.last()) {
        lemma_trim_end_ends(s.drop_last());
    }
}

proof fn lemma_trim_end_prefix(s: Seq<char>)
    ensures
        trim_end(s) =~= s.take(trim_end(s).len() as int),
        trim_end(s).len() <= s.len(),
    decreases s.len(),
{
    if s.len() > 0 && is_ws(s.last()) {
        lemma_trim_end_prefix(s.drop_last());
    }
}

} // verus!

verus! {

/// Replacing a pattern whose first character does not occur in `s` leaves
/// `s` as it is.
pub proof fn lemma_replace_absent(s: Seq<char>, from: Seq<char>, to: Seq<char>)
    requires
        from.len() > 0,
        forall|i: int| 0 <= i < s.len() ==> #[trigger] s[i] != from[0],
    ensures
        replace_all(s, from, to) == s,
    decreases s.len(),
{
    if s.len() >= from.len() {
        assert(s.take(from.len() as int)[0] != from[0]);
        let t = s.drop_first();
        assert forall|i: int| 0 <= i < t.len() implies #[trigger] t[i] != from[0] by {
            assert(t[i] == s[i + 1]);
        }
        lemma_replace_absent(t, from, to);
        assert(seq![s[0]] + t =~= s);
    }
}

} // verus!

verus! {

/// Whether every character of `s` is whitespace.
pub open spec fn all_ws(s: Seq<char>) -> bool {
    forall|i: int| 0 <= i < s.len() ==> is_ws(#[trigger] s[i])
}

proof fn lemma_trim_start_ws_prefix(p: Seq<char>, x: Seq<char>)
    requires
        all_ws(p),
    ensures
        trim_start(p + x) == trim_start(x),
    decreases p.len(),
{
    if p.len() > 0 {
        assert((p + x)[0] == p[0]);
        let q = p.drop_first();
        assert forall|i: int| 0 <= i < q.len() implies is_ws(#[trigger] q[i]) by {
            assert(q[i] == p[i + 1]);
        }
        lemma_trim_start_ws_prefix(q, x);
        assert((p + x).drop_first() =~= q + x);
    } else {
        assert(p + x =~= x);
    }
}

proof fn lemma_trim_end_ws_suffix(x: Seq<char>, q: Seq<char>)
    requires
        all_ws(q),
    ensures
        trim_end(x + q) == trim_end(x),
    decreases q.len(),
{
    if q.len() > 0 {
        assert((x + q).last() == q.last());
        let r = q.drop_last();
        assert forall|i: int| 0 <= i < r.len() implies is_ws(#[trigger] r[i]) by {
            assert(r[i] == q[i]);
        }
        lemma_trim_end_ws_suffix(x, r);
        assert((x + q).drop_last() =~= x + r);
    } else {
        assert(x + q =~= x);
    }
}

proof fn lemma_trim_start_all_ws(q: Seq<char>)
    requires
        all_ws(q),
    ensures
        trim_start(q).len() == 0,
    decreases q.len(),
{
    if q.len() > 0 {
        let r = q.drop_first();
        assert forall|i: int| 0 <= i < r.len() implies is_ws(#[trigger] r[i]) by {
            assert(r[i] == q[i + 1]);
        }
        lemma_trim_start_all_ws(r);
    }
}

proof fn lemma_trimmed_ws_suffix(x: Seq<char>, q: Seq<char>)
    requires
        all_ws(q),
    ensures
        trimmed(x + q) == trimmed(x),
    decreases x.len(),
{
    if x.len() == 0 {
        assert(x + q =~= q);
        lemma_trim_start_all_ws(q);
        assert(trim_start(q) =~= Seq::<char>::empty());
    } else if is_ws(x[0]) {
        assert((x + q)[0] == x[0]);
        assert((x + q).drop_first() =~= x.drop_first() + q);
        lemma_trimmed_ws_suffix(x.drop_first(), q);
    } else {
        assert((x + q)[0] == x[0]);
        lemma_trim_end_ws_suffix(x, q);
    }
}

/// Whitespace put around a text does not change its trim.
pub proof fn lemma_trimmed_ignores_padding(p: Seq<char>, x: Seq<char>, q: Seq<char>)
    requires
        all_ws(p),
        all_ws(q),
    ensures
        trimmed(p + x + q) == trimmed(x),
{
    assert(p + x + q =~= p + (x + q));
    lemma_trim_start_ws_prefix(p, x + q);
    lemma_trimmed_ws_suffix(x, q);
}

} // verus!

verus! {

/// The characters with the Unicode `White_Space` property, one by one: tab,
/// line feed, vertical tab, form feed, carriage return, space, next line,
/// no-break space, ogham space mark, the spaces U+2000 to U+200A, line
/// separator, paragraph separator, narrow no-break space, medium mathematical
/// space and ideographic space.
pub open spec fn is_white_space_char(c: char) -> bool {
    ||| c == '\t'
    ||| c == '\n'
    ||| c == '\x0b'
    ||| c == '\x0c'
    ||| c == '\r'
    ||| c == ' '
    ||| c == '\u{85}'
    ||| c == '\u{a0}'
    ||| c == '\u{1680}'
    ||| c == '\u{2000}'
    ||| c == '\u{2001}'
    ||| c == '\u{2002}'
    ||| c == '\u{2003}'
    ||| c == '\u{2004}'
    ||| c == '\u{2005}'
    ||| c == '\u{2006}'
    ||| c == '\u{2007}'
    ||| c == '\u{2008}'
    ||| c == '\u{2009}'
    ||| c == '\u{200a}'
    ||| c == '\u{2028}'
    ||| c == '\u{2029}'
    ||| c == '\u{202f}'
    ||| c == '\u{205f}'
    ||| c == '\u{3000}'
}

/// `is_ws` holds of exactly the characters with the `White_Space` property.
pub proof fn lemma_whitespace_chars(c: char)
    ensures
        is_ws(c) <==> is_white_space_char(c),
{
}

/// Among ASCII characters, exactly tab, line feed, vertical tab, form feed,
/// carriage return and space are whitespace.
pub proof fn lemma_ascii_whitespace(c: char)
    requires
        (c as u32) < 128,
    ensures
        is_ws(c) <==> (c == ' ' || c == '\t' || c == '\n' || c == '\x0b' || c == '\x0c' || c
            == '\r'),
{
}

} // verus!
