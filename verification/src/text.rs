use vstd::prelude::*;
use crate::storage::strings_view;

verus! {

/// Whether `c` has the Unicode `White_Space` property, which is what
/// `char::is_whitespace` tests.
pub open spec fn is_whitespace_spec(c: char) -> bool {
    let u = c as u32;
    ||| 0x09 <= u <= 0x0D
    ||| u == 0x20
    ||| u == 0x85
    ||| u == 0xA0
    ||| u == 0x1680
    ||| 0x2000 <= u <= 0x200A
    ||| u == 0x2028
    ||| u == 0x2029
    ||| u == 0x202F
    ||| u == 0x205F
    ||| u == 0x3000
}

/// Whether `c` is a whitespace character (Unicode `White_Space`).
pub fn is_whitespace(c: char) -> (r: bool)
    ensures
        r == is_whitespace_spec(c),
{
    let u = c as u32;
    (0x09 <= u && u <= 0x0D) || u == 0x20 || u == 0x85 || u == 0xA0 || u == 0x1680 || (0x2000
        <= u && u <= 0x200A) || u == 0x2028 || u == 0x2029 || u == 0x202F || u == 0x205F || u
        == 0x3000
}

/// Where reading a line has got to: the words completed so far, the word
/// being read, whether a word is being read (a pair of quotes starts one,
/// even an empty one), and whether the reader is inside double quotes.
pub type ScanState = (Seq<Seq<char>>, Seq<char>, bool, bool);

/// Reading the character `c` in the state `st`. Inside double quotes every
/// character but `"` belongs to the word; outside them whitespace ends the
/// word, `"` opens quotes, and any other character belongs to the word. The
/// quote characters themselves are dropped.
pub open spec fn scan_step(st: ScanState, c: char) -> ScanState {
    let (done, cur, in_word, quoted) = st;
    if quoted {
        if c == '"' {
            (done, cur, true, false)
        } else {
            (done, cur.push(c), true, true)
        }
    } else if c == '"' {
        (done, cur, true, true)
    } else if is_whitespace_spec(c) {
        if in_word {
            (done.push(cur), seq![], false, false)
        } else {
            st
        }
    } else {
        (done, cur.push(c), true, false)
    }
}

/// The state after reading `s` from the left.
pub open spec fn word_scan(s: Seq<char>) -> ScanState
    decreases s.len(),
{
    if s.len() == 0 {
        (seq![], seq![], false, false)
    } else {
        scan_step(word_scan(s.drop_last()), s.last())
    }
}

/// The words of `s`, in order: runs of characters separated by whitespace,
/// where a double-quoted part belongs to its word whatever it holds (the
/// quotes are dropped; `""` is an empty word, and quotes left open run to the
/// end of the line). Without quotes these are what `str::split_whitespace`
/// yields.
pub open spec fn words_spec(s: Seq<char>) -> Seq<Seq<char>> {
    let st = word_scan(s);
    if st.2 {
        st.0.push(st.1)
    } else {
        st.0
    }
}

/// Whether `s` ends inside double quotes that it opened and did not close.
pub open spec fn ends_quoted(s: Seq<char>) -> bool {
    word_scan(s).3
}

/// Appends `c` to `s`.
#[verifier::external_body]
fn string_push(s: &mut String, c: char)
    ensures
        final(s)@ == old(s)@.push(c),
{
    s.push(c)
}

/// Splits `input` into its words: whitespace separates them, and a
/// double-quoted part keeps its whitespace inside its word.
pub fn split_words(input: &str) -> (r: Vec<String>)
    ensures
        strings_view(r@) == words_spec(input@),
{
    let mut done: Vec<String> = Vec::new();
    let mut cur = String::new();
    let mut in_word = false;
    let mut quoted = false;
    let ghost s = input@;
    for c in it: input.chars()
        invariant
            it.seq() == s,
            word_scan(s.take(it.index() as int)) == (strings_view(done@), cur@, in_word, quoted),
    {
        proof {
            assert(s.take(it.index() as int + 1).drop_last() =~= s.take(it.index() as int));
        }
        let ghost before = (strings_view(done@), cur@, in_word, quoted);
        if quoted {
            if c == '"' {
                quoted = false;
            } else {
                string_push(&mut cur, c);
            }
        } else if c == '"' {
            in_word = true;
            quoted = true;
        } else if is_whitespace(c) {
            if in_word {
                done.push(cur);
                cur = String::new();
                in_word = false;
            }
        } else {
            string_push(&mut cur, c);
            in_word = true;
        }
        proof {
            assert(word_scan(s.take(it.index() as int + 1)) == scan_step(before, c));
            assert(strings_view(done@) =~= scan_step(before, c).0);
        }
    }
    proof {
        assert(s.take(s.len() as int) =~= s);
    }
    if in_word {
        done.push(cur);
    }
    proof {
        assert(strings_view(done@) =~= words_spec(input@));
    }
    done
}

/// Whether `w` is the word `lit`.
pub(crate) fn word_is(w: &String, lit: &str) -> (r: bool)
    ensures
        r == (w@ == lit@),
{
    let l = lit.to_string();
    *w == l
}

/// Whether every character of `w` is whitespace.
pub open spec fn all_whitespace(w: Seq<char>) -> bool {
    forall|i: int| 0 <= i < w.len() ==> is_whitespace_spec(#[trigger] w[i])
}

/// Reading whitespace only completes no word.
proof fn lemma_scan_whitespace(w: Seq<char>)
    requires
        all_whitespace(w),
    ensures
        word_scan(w) == (Seq::<Seq<char>>::empty(), Seq::<char>::empty(), false, false),
    decreases w.len(),
{
    if w.len() > 0 {
        assert(is_whitespace_spec(w[w.len() - 1]));
        lemma_scan_whitespace(w.drop_last());
    }
}

/// Leading whitespace does not change how the rest is read.
pub(crate) proof fn lemma_scan_after_whitespace(w: Seq<char>, s: Seq<char>)
    requires
        all_whitespace(w),
    ensures
        word_scan(w + s) == word_scan(s),
    decreases s.len(),
{
    if s.len() == 0 {
        assert(w + s =~= w);
        lemma_scan_whitespace(w);
    } else {
        lemma_scan_after_whitespace(w, s.drop_last());
        assert((w + s).drop_last() =~= w + s.drop_last());
        assert((w + s).last() == s.last());
    }
}

/// Trailing whitespace outside quotes completes the word being read, and
/// adds nothing.
pub(crate) proof fn lemma_words_before_whitespace(s: Seq<char>, w: Seq<char>)
    requires
        all_whitespace(w),
        !ends_quoted(s),
    ensures
        words_spec(s + w) == words_spec(s),
        !ends_quoted(s + w),
    decreases w.len(),
{
    if w.len() == 0 {
        assert(s + w =~= s);
    } else {
        lemma_words_before_whitespace(s, w.drop_last());
        let t = s + w.drop_last();
        assert((s + w).drop_last() =~= t);
        assert((s + w).last() == w[w.len() - 1]);
        assert(is_whitespace_spec(w[w.len() - 1]));
        let c = w[w.len() - 1];
        assert(c != '"') by {
            assert(('"' as u32) == 0x22);
        }
    }
}

/// The characters of `s`, in order.
fn chars_of(s: &str) -> (r: Vec<char>)
    ensures
        r@ == s@,
{
    let mut r: Vec<char> = Vec::new();
    let ghost t = s@;
    for c in it: s.chars()
        invariant
            it.seq() == t,
            r@ == t.take(it.index() as int),
    {
        r.push(c);
        proof {
            assert(r@ =~= t.take(it.index() as int + 1));
        }
    }
    proof {
        assert(t.take(t.len() as int) =~= t);
    }
    r
}

/// Whether `p` occurs in `s` as a contiguous run of characters.
pub open spec fn contains_spec(s: Seq<char>, p: Seq<char>) -> bool {
    exists|i: int| 0 <= i && i + p.len() <= s.len() && #[trigger] s.subrange(i, i + p.len()) == p
}

/// Whether `p` occurs in `s` at position `i`.
fn occurs_at(s: &Vec<char>, p: &Vec<char>, i: usize) -> (r: bool)
    requires
        i + p.len() <= s.len(),
    ensures
        r == (s@.subrange(i as int, i + p.len()) == p@),
{
    let mut j: usize = 0;
    while j < p.len()
        invariant
            i + p.len() <= s.len(),
            j <= p.len(),
            forall|k: int| 0 <= k < j ==> s@[i + k] == p@[k],
        decreases p.len() - j,
    {
        if s[i + j] != p[j] {
            assert(s@.subrange(i as int, i + p.len())[j as int] != p@[j as int]);
            return false;
        }
        j = j + 1;
    }
    proof {
        assert(s@.subrange(i as int, i + p.len()) =~= p@);
    }
    true
}

/// Whether `pattern` occurs in `s`, as `str::contains` tests.
pub fn contains(s: &str, pattern: &str) -> (r: bool)
    ensures
        r == contains_spec(s@, pattern@),
{
    let sc = chars_of(s);
    let pc = chars_of(pattern);
    if pc.len() > sc.len() {
        return false;
    }
    if pc.len() == 0 {
        assert(s@.subrange(0, 0int + pattern@.len()) =~= pattern@);
        return true;
    }
    let last = sc.len() - pc.len();
    let mut i: usize = 0;
    while i <= last
        invariant
            sc@ == s@,
            pc@ == pattern@,
            pc.len() > 0,
            last + pc.len() == sc.len(),
            i <= last + 1,
            forall|k: int| 0 <= k < i ==> #[trigger] s@.subrange(k, k + pattern@.len()) != pattern@,
        decreases last + 1 - i,
    {
        if occurs_at(&sc, &pc, i) {
            return true;
        }
        i = i + 1;
    }
    false
}

/// `s` without its `-` characters.
pub open spec fn without_dashes(s: Seq<char>) -> Seq<char>
    decreases s.len(),
{
    if s.len() == 0 {
        seq![]
    } else if s.last() == '-' {
        without_dashes(s.drop_last())
    } else {
        without_dashes(s.drop_last()).push(s.last())
    }
}

/// `s` without its `-` characters, as `s.replace("-", "")` gives it.
pub fn remove_dashes(s: &str) -> (r: String)
    ensures
        r@ == without_dashes(s@),
{
    let mut r = String::new();
    let ghost t = s@;
    for c in it: s.chars()
        invariant
            it.seq() == t,
            r@ == without_dashes(t.take(it.index() as int)),
    {
        proof {
            assert(t.take(it.index() as int + 1).drop_last() =~= t.take(it.index() as int));
        }
        if c != '-' {
            string_push(&mut r, c);
        }
    }
    proof {
        assert(t.take(t.len() as int) =~= t);
    }
    r
}

} // verus!
