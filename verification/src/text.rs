//! Text analysis over a borrowed piece of text: splitting into words and
//! the questions one asks of the word list. A word is a maximal run of
//! characters containing no ASCII whitespace.

use vstd::prelude::*;

verus! {

/// Whether `c` is ASCII whitespace.
pub open spec fn is_space(c: char) -> bool {
    c == ' ' || c == '\t' || c == '\n' || c == '\r' || c == '\u{b}' || c == '\u{c}'
}

/// The length of the longest whitespace-free prefix of `t`.
pub open spec fn nonspace_prefix_len(t: Seq<char>) -> nat
    decreases t.len(),
{
    if t.len() == 0 || is_space(t[0]) {
        0
    } else {
        1 + nonspace_prefix_len(t.drop_first())
    }
}

/// The words of `t`: its maximal whitespace-free runs, in order.
pub open spec fn words(t: Seq<char>) -> Seq<Seq<char>>
    decreases t.len(),
    via words_decreases
{
    if t.len() == 0 {
        Seq::empty()
    } else if is_space(t[0]) {
        words(t.drop_first())
    } else {
        let k = nonspace_prefix_len(t) as int;
        seq![t.take(k)] + words(t.skip(k))
    }
}

#[via_fn]
proof fn words_decreases(t: Seq<char>) {
    if t.len() > 0 && !is_space(t[0]) {
        assert(nonspace_prefix_len(t) == 1 + nonspace_prefix_len(t.drop_first()));
        lemma_nonspace_prefix_le_len(t);
    }
}

/// The whitespace-free prefix never runs past the end.
proof fn lemma_nonspace_prefix_le_len(t: Seq<char>)
    ensures
        nonspace_prefix_len(t) <= t.len(),
    decreases t.len(),
{
    if t.len() > 0 && !is_space(t[0]) {
        lemma_nonspace_prefix_le_len(t.drop_first());
    }
}

/// A whitespace-free stretch `[i, j)` of `s`, delimited on the right,
/// is exactly the whitespace-free prefix of the suffix at `i`.
proof fn lemma_nonspace_prefix(t: Seq<char>, k: int)
    requires
        0 <= k <= t.len(),
        forall|j: int| 0 <= j < k ==> !is_space(#[trigger] t[j]),
        k < t.len() ==> is_space(t[k]),
    ensures
        nonspace_prefix_len(t) == k,
    decreases k,
{
    if k > 0 {
        lemma_nonspace_prefix(t.drop_first(), k - 1);
    }
}

/// Whether `a` and `b` read the same.
pub fn str_eq(a: &str, b: &str) -> (r: bool)
    ensures
        r == (a@ == b@),
{
    let n = a.unicode_len();
    let m = b.unicode_len();
    if n != m {
        return false;
    }
    let mut i: usize = 0;
    while i < n
        invariant
            0 <= i <= n,
            n == a@.len(),
            n == b@.len(),
            forall|j: int| 0 <= j < i ==> a@[j] == b@[j],
        decreases n - i,
    {
        if a.get_char(i) != b.get_char(i) {
            return false;
        }
        i = i + 1;
    }
    proof {
        assert(a@ =~= b@);
    }
    true
}

/// Analyses a piece of text it holds on to.
#[derive(Debug)]
pub struct TextContext {
    content: String,
}

impl View for TextContext {
    type V = Seq<char>;

    closed spec fn view(&self) -> Seq<char> {
        self.content@
    }
}

impl TextContext {
    /// A context over a copy of `content`.
    pub fn new(content: &str) -> (r: TextContext)
        ensures
            r@ == content@,
    {
        TextContext { content: content.to_owned() }
    }

    /// The text under analysis.
    pub fn get_content(&self) -> (r: &str)
        ensures
            r@ == self@,
    {
        self.content.as_str()
    }

    /// The words of the text, in order.
    pub fn split_words(&self) -> (r: Vec<String>)
        ensures
            r.deep_view() == words(self@),
    {
        let text = self.content.as_str();
        let n = text.unicode_len();
        let mut out: Vec<String> = Vec::new();
        let mut i: usize = 0;
        proof {
            assert(self@.skip(0) =~= self@);
        }
        while i < n
            invariant
                0 <= i <= n,
                n == self@.len(),
                text@ == self@,
                out.deep_view() + words(self@.skip(i as int)) == words(self@),
            decreases n - i,
        {
            let c = text.get_char(i);
            if is_space_exec(c) {
                proof {
                    assert(self@.skip(i as int).drop_first() =~= self@.skip(i + 1));
                }
                i = i + 1;
            } else {
                let mut j: usize = i + 1;
                while j < n
                    invariant_except_break
                        i < j <= n,
                        n == self@.len(),
                        text@ == self@,
                        forall|t: int| i <= t < j ==> !is_space(#[trigger] self@[t]),
                    ensures
                        i < j <= n,
                        n == self@.len(),
                        forall|t: int| i <= t < j ==> !is_space(#[trigger] self@[t]),
                        j < n ==> is_space(self@[j as int]),
                    decreases n - j,
                {
                    if is_space_exec(text.get_char(j)) {
                        break;
                    }
                    j = j + 1;
                }
                proof {
                    lemma_nonspace_prefix(self@.skip(i as int), j - i);
                    assert(self@.skip(i as int).take(j - i) =~= self@.subrange(
                        i as int,
                        j as int,
                    ));
                    assert(self@.skip(i as int).skip(j - i) =~= self@.skip(j as int));
                }
                let word = text.substring_char(i, j).to_owned();
                let ghost before = out.deep_view();
                out.push(word);
                proof {
                    assert(out.deep_view() =~= before.push(self@.subrange(i as int, j as int)));
                    assert(out.deep_view() + words(self@.skip(j as int)) =~= words(self@));
                }
                i = j;
            }
        }
        proof {
            assert(self@.skip(n as int) =~= Seq::<char>::empty());
            assert(out.deep_view() =~= words(self@));
        }
        out
    }

    /// How many words the text holds.
    pub fn count_words(&self) -> (r: usize)
        ensures
            r == words(self@).len(),
    {
        self.split_words().len()
    }

    /// The longest word; among equally long words the one standing last,
    /// and the empty string when there are no words at all.
    pub fn longest_word(&self) -> (r: String)
        ensures
            words(self@).len() == 0 ==> r@ == Seq::<char>::empty(),
            words(self@).len() > 0 ==> exists|i: int|
                0 <= i < words(self@).len() && r@ == #[trigger] words(self@)[i] && (forall|j: int|
                    0 <= j < words(self@).len() ==> (#[trigger] words(self@)[j]).len()
                        <= r@.len()) && (forall|j: int|
                    i < j < words(self@).len() ==> (#[trigger] words(self@)[j]).len() < r@.len()),
    {
        let ws = self.split_words();
        let n = ws.len();
        if n == 0 {
            return String::new();
        }
        let mut best: usize = 0;
        let mut i: usize = 1;
        while i < n
            invariant
                1 <= i <= n,
                n == ws.deep_view().len(),
                n == ws@.len(),
                0 <= best < i,
                forall|j: int|
                    0 <= j < i ==> (#[trigger] ws.deep_view()[j]).len() <= ws.deep_view()[best as int].len(),
                forall|j: int|
                    best < j < i ==> (#[trigger] ws.deep_view()[j]).len() < ws.deep_view()[best as int].len(),
            decreases n - i,
        {
            if ws[i].as_str().unicode_len() >= ws[best].as_str().unicode_len() {
                best = i;
            }
            i = i + 1;
        }
        let r = ws[best].clone();
        proof {
            assert(r@ == ws.deep_view()[best as int]);
        }
        r
    }

    /// The position of `word` in the word list, counted in words, if it
    /// occurs; the first occurrence counts.
    pub fn find_word(&self, word: &str) -> (r: Option<usize>)
        ensures
            match r {
                Some(i) => i < words(self@).len() && words(self@)[i as int] == word@
                    && forall|j: int| 0 <= j < i ==> #[trigger] words(self@)[j] != word@,
                None => forall|j: int|
                    0 <= j < words(self@).len() ==> #[trigger] words(self@)[j] != word@,
            },
    {
        let ws = self.split_words();
        let n = ws.len();
        let mut i: usize = 0;
        while i < n
            invariant
                0 <= i <= n,
                n == ws.deep_view().len(),
                n == ws@.len(),
                ws.deep_view() == words(self@),
                forall|j: int| 0 <= j < i ==> #[trigger] words(self@)[j] != word@,
            decreases n - i,
        {
            if str_eq(ws[i].as_str(), word) {
                return Some(i);
            }
            i = i + 1;
        }
        None
    }

    /// Whether `word` occurs among the words of the text.
    pub fn contains_word(&self, word: &str) -> (r: bool)
        ensures
            r == exists|i: int| 0 <= i < words(self@).len() && #[trigger] words(self@)[i] == word@,
    {
        match self.find_word(word) {
            Some(_) => true,
            None => false,
        }
    }

    /// How often `word` occurs among the words of the text.
    pub fn count_word_occurrences(&self, word: &str) -> (r: usize)
        ensures
            r == count_matching(words(self@), word@),
    {
        let ws = self.split_words();
        let n = ws.len();
        let mut count: usize = 0;
        let mut i: usize = 0;
        while i < n
            invariant
                0 <= i <= n,
                n == ws.deep_view().len(),
                n == ws@.len(),
                ws.deep_view() == words(self@),
                count == count_matching(words(self@).subrange(0, i as int), word@),
                count <= i,
            decreases n - i,
        {
            proof {
                assert(words(self@).subrange(0, i + 1).drop_last() =~= words(self@).subrange(
                    0,
                    i as int,
                ));
            }
            if str_eq(ws[i].as_str(), word) {
                count = count + 1;
            }
            i = i + 1;
        }
        proof {
            assert(words(self@).subrange(0, n as int) =~= words(self@));
        }
        count
    }
}

/// How many entries of `ws` read exactly `w`.
pub open spec fn count_matching(ws: Seq<Seq<char>>, w: Seq<char>) -> nat
    decreases ws.len(),
{
    if ws.len() == 0 {
        0
    } else {
        count_matching(ws.drop_last(), w) + if ws.last() == w {
            1nat
        } else {
            0nat
        }
    }
}

/// Whether `c` is ASCII whitespace.
fn is_space_exec(c: char) -> (r: bool)
    ensures
        r == is_space(c),
{
    c == ' ' || c == '\t' || c == '\n' || c == '\r' || c == '\u{b}' || c == '\u{c}'
}

} // verus!
