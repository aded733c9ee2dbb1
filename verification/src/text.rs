//! Lines and words: how a line of protocol text falls apart into words at
//! white space, and how words are put together again with single spaces.

use vstd::prelude::*;
use vstd::std_specs::iter::IteratorSpec;

verus! {

/// `String::push` appends exactly the given character at the end of the string
/// and leaves what was there before untouched.
pub assume_specification[ std::string::String::push ](s: &mut std::string::String, ch: char)
    ensures
        final(s)@ == old(s)@.push(ch),
;

/// The characters that separate words: space, tab, line feed, form feed and
/// carriage return.
pub open spec fn is_space(c: char) -> bool {
    c == ' ' || c == '\t' || c == '\n' || c == '\x0C' || c == '\r'
}

/// A non-empty run of characters without white space.
pub open spec fn is_word(w: Seq<char>) -> bool {
    w.len() > 0 && forall|i: int| 0 <= i < w.len() ==> !is_space(#[trigger] w[i])
}

/// The words of `s`: its maximal runs of characters that are not white space,
/// from left to right.
///
/// Read from the left, a white-space character adds nothing, a character that
/// follows another character of a word extends the last word, and any other
/// character starts a new word.
pub open spec fn words(s: Seq<char>) -> Seq<Seq<char>>
    decreases s.len(),
{
    if s.len() == 0 {
        Seq::empty()
    } else {
        let before = words(s.drop_last());
        if is_space(s.last()) {
            before
        } else if s.len() >= 2 && !is_space(s[s.len() - 2]) {
            before.drop_last().push(before.last().push(s.last()))
        } else {
            before.push(seq![s.last()])
        }
    }
}

/// The given words, in order, with one space between neighbours.
pub open spec fn join(ws: Seq<Seq<char>>) -> Seq<char>
    decreases ws.len(),
{
    if ws.len() == 0 {
        Seq::empty()
    } else if ws.len() == 1 {
        ws[0]
    } else {
        join(ws.drop_last()) + seq![' '] + ws.last()
    }
}

/// What a vector of words holds, word by word.
pub open spec fn word_views(ws: Seq<Vec<char>>) -> Seq<Seq<char>> {
    Seq::new(ws.len(), |i: int| ws[i]@)
}

/// Tells whether `c` separates words.
pub fn is_space_char(c: char) -> (b: bool)
    ensures
        b == is_space(c),
{
    c == ' ' || c == '\t' || c == '\n' || c == '\x0C' || c == '\r'
}

/// The characters of `s`, in order.
pub fn chars_of(s: &str) -> (v: Vec<char>)
    ensures
        v@ == s@,
{
    broadcast use vstd::string::group_string_axioms;

    let mut it = s.chars();
    let mut v: Vec<char> = Vec::new();
    loop
        invariant
            it.obeys_prophetic_iter_laws(),
            it.decrease() is Some,
            v@ + it.remaining() == s@,
        decreases it.decrease()->0,
    {
        let ghost rest = it.remaining();
        let ghost done = v@;
        match it.next() {
            Some(c) => {
                v.push(c);
                assert(v@ + it.remaining() =~= done + rest);
            },
            None => {
                assert(v@ + it.remaining() =~= v@);
                return v;
            },
        }
    }
}

/// Tells whether the word `w` is spelled exactly as `keyword`.
pub fn word_is(w: &Vec<char>, keyword: &str) -> (b: bool)
    ensures
        b == (w@ == keyword@),
{
    let k = chars_of(keyword);
    if k.len() != w.len() {
        return false;
    }
    let mut i: usize = 0;
    while i < k.len()
        invariant
            i <= k.len(),
            k.len() == w.len(),
            k@ == keyword@,
            forall|j: int| 0 <= j < i ==> w@[j] == k@[j],
        decreases k.len() - i,
    {
        if w[i] != k[i] {
            return false;
        }
        i += 1;
    }
    assert(w@ =~= k@);
    true
}

/// Splits a line into its words.
pub fn split_words(line: &str) -> (ws: Vec<Vec<char>>)
    ensures
        word_views(ws@) == words(line@),
{
    let cs = chars_of(line);
    let mut out: Vec<Vec<char>> = Vec::new();
    let mut cur: Vec<char> = Vec::new();
    let mut i: usize = 0;
    assert(word_views(out@) =~= words(cs@.take(0)));
    while i < cs.len()
        invariant
            i <= cs.len(),
            cur@.len() > 0 <==> (i > 0 && !is_space(cs@[i - 1])),
            words(cs@.take(i as int)) == if cur@.len() > 0 {
                word_views(out@).push(cur@)
            } else {
                word_views(out@)
            },
        decreases cs.len() - i,
    {
        let c = cs[i];
        let ghost seen = cs@.take(i as int);
        let ghost next = cs@.take(i + 1);
        let ghost had = word_views(out@);
        let ghost run = cur@;
        assert(next.drop_last() =~= seen);
        assert(next.last() == c);
        if is_space_char(c) {
            if cur.len() > 0 {
                out.push(cur);
                cur = Vec::new();
                assert(word_views(out@) =~= had.push(run));
            }
        } else {
            cur.push(c);
            proof {
                if run.len() > 0 {
                    assert(next[next.len() - 2] == cs@[i - 1]);
                    assert(had.push(run).drop_last() =~= had);
                    assert(words(next) == had.push(run.push(c)));
                } else {
                    assert(cur@ =~= seq![c]);
                    assert(words(next) == had.push(seq![c]));
                }
            }
        }
        assert(next.len() >= 2 ==> next[next.len() - 2] == cs@[i - 1]);
        i += 1;
    }
    assert(cs@.take(i as int) =~= cs@);
    if cur.len() > 0 {
        let ghost had = word_views(out@);
        let ghost run = cur@;
        out.push(cur);
        assert(word_views(out@) =~= had.push(run));
    }
    out
}

/// Appends to `out` the words `ws[from..to]`, with one space between neighbours.
pub fn push_joined(out: &mut String, ws: &Vec<Vec<char>>, from: usize, to: usize)
    requires
        from <= to <= ws.len(),
    ensures
        final(out)@ == old(out)@ + join(word_views(ws@).subrange(from as int, to as int)),
{
    let ghost all = word_views(ws@);
    let ghost start = out@;
    let mut i: usize = from;
    assert(all.subrange(from as int, from as int) =~= Seq::empty());
    assert(start + join(Seq::empty()) =~= start);
    while i < to
        invariant
            from <= i <= to <= ws.len(),
            all == word_views(ws@),
            out@ == start + join(all.subrange(from as int, i as int)),
        decreases to - i,
    {
        let ghost had = all.subrange(from as int, i as int);
        let ghost now = all.subrange(from as int, i + 1);
        assert(now.drop_last() =~= had);
        assert(now.last() == ws@[i as int]@);
        if i > from {
            out.push(' ');
        }
        let w = &ws[i];
        let ghost base = out@;
        let mut k: usize = 0;
        while k < w.len()
            invariant
                k <= w.len(),
                out@ == base + w@.take(k as int),
            decreases w.len() - k,
        {
            out.push(w[k]);
            assert(w@.take(k + 1) =~= w@.take(k as int).push(w@[k as int]));
            k += 1;
        }
        assert(w@.take(k as int) =~= w@);
        assert(out@ =~= start + join(now));
        i += 1;
    }
}

/// A text that ends in a character of a word has at least one word.
pub proof fn lemma_words_nonempty(s: Seq<char>)
    requires
        s.len() > 0,
        !is_space(s.last()),
    ensures
        words(s).len() > 0,
{
}

/// Behind white space, or at the start of a line, words begin afresh: the
/// words of `a + b` are those of `a`, then those of `b`.
pub proof fn lemma_words_concat(a: Seq<char>, b: Seq<char>)
    requires
        a.len() == 0 || is_space(a.last()),
    ensures
        words(a + b) == words(a) + words(b),
    decreases b.len(),
{
    if b.len() == 0 {
        assert(a + b =~= a);
        assert(words(a) + words(b) =~= words(a));
    } else {
        let b0 = b.drop_last();
        let c = b.last();
        let s = a + b;
        assert(s.drop_last() =~= a + b0);
        assert(s.last() == c);
        lemma_words_concat(a, b0);
        let x = words(a) + words(b0);
        if is_space(c) {
        } else if b0.len() > 0 && !is_space(b0.last()) {
            assert(s[s.len() - 2] == b0.last());
            assert(b[b.len() - 2] == b0.last());
            lemma_words_nonempty(b0);
            assert(x.drop_last() =~= words(a) + words(b0).drop_last());
            assert(x.last() == words(b0).last());
            assert(words(s) =~= words(a) + words(b));
        } else {
            if b0.len() > 0 {
                assert(s[s.len() - 2] == b0.last());
                assert(b[b.len() - 2] == b0.last());
            } else if a.len() > 0 {
                assert(s[s.len() - 2] == a.last());
            }
            assert(words(s) =~= words(a) + words(b));
        }
    }
}

/// A word is the one word of itself.
pub proof fn lemma_words_of_word(w: Seq<char>)
    requires
        is_word(w),
    ensures
        words(w) == seq![w],
    decreases w.len(),
{
    let w0 = w.drop_last();
    if w0.len() == 0 {
        assert(words(w0) =~= Seq::empty());
        assert(seq![w.last()] =~= w);
        assert(words(w) =~= seq![w]);
    } else {
        assert(is_word(w0));
        lemma_words_of_word(w0);
        assert(w[w.len() - 2] == w0.last());
        assert(w0.push(w.last()) =~= w);
        assert(seq![w0].drop_last().push(w) =~= seq![w]);
    }
}

/// Joining one more piece to some pieces adds a space and the piece.
pub proof fn lemma_join_push(ps: Seq<Seq<char>>, piece: Seq<char>)
    requires
        ps.len() > 0,
    ensures
        join(ps.push(piece)) == join(ps) + seq![' '] + piece,
{
    assert(ps.push(piece).drop_last() =~= ps);
}

/// The words of joined pieces are the words of the pieces, one piece after
/// the other.
pub proof fn lemma_words_join_push(ps: Seq<Seq<char>>, piece: Seq<char>)
    ensures
        words(join(ps.push(piece))) == words(join(ps)) + words(piece),
{
    if ps.len() == 0 {
        assert(ps.push(piece) =~= seq![piece]);
        assert(words(join(ps)) + words(piece) =~= words(piece));
    } else {
        lemma_join_push(ps, piece);
        let head = join(ps).push(' ');
        assert(join(ps) + seq![' '] =~= head);
        assert(head.drop_last() =~= join(ps));
        lemma_words_concat(head, piece);
    }
}

/// The words of two runs of pieces, joined, are the words of the first run,
/// then those of the second.
pub proof fn lemma_words_join_concat(ps: Seq<Seq<char>>, qs: Seq<Seq<char>>)
    ensures
        words(join(ps + qs)) == words(join(ps)) + words(join(qs)),
    decreases qs.len(),
{
    if qs.len() == 0 {
        assert(ps + qs =~= ps);
        assert(words(join(ps)) + words(join(qs)) =~= words(join(ps)));
    } else {
        let q0 = qs.drop_last();
        assert(ps + qs =~= (ps + q0).push(qs.last()));
        assert(qs =~= q0.push(qs.last()));
        lemma_words_join_push(ps + q0, qs.last());
        lemma_words_join_push(q0, qs.last());
        lemma_words_join_concat(ps, q0);
        assert(words(join(ps + qs)) =~= words(join(ps)) + words(join(qs)));
    }
}

/// Words that are joined fall apart into the same words.
pub proof fn lemma_words_of_joined_words(ws: Seq<Seq<char>>)
    requires
        forall|i: int| 0 <= i < ws.len() ==> is_word(#[trigger] ws[i]),
    ensures
        words(join(ws)) == ws,
    decreases ws.len(),
{
    if ws.len() == 0 {
        assert(words(join(ws)) =~= ws);
    } else {
        let w0 = ws.drop_last();
        assert(ws =~= w0.push(ws.last()));
        lemma_words_of_joined_words(w0);
        lemma_words_join_push(w0, ws.last());
        lemma_words_of_word(ws.last());
        assert(words(join(ws)) =~= ws);
    }
}

/// Every word of a text is a word: it is not empty and holds no white space.
pub proof fn lemma_words_are_words(s: Seq<char>)
    ensures
        forall|i: int| 0 <= i < words(s).len() ==> is_word(#[trigger] words(s)[i]),
    decreases s.len(),
{
    if s.len() > 0 {
        lemma_words_are_words(s.drop_last());
        let before = words(s.drop_last());
        if !is_space(s.last()) && s.len() >= 2 && !is_space(s[s.len() - 2]) {
            assert(s.drop_last().last() == s[s.len() - 2]);
            lemma_words_nonempty(s.drop_last());
            assert(is_word(before.last()));
            assert(is_word(before.last().push(s.last())));
        } else if !is_space(s.last()) {
            assert(is_word(seq![s.last()]));
        }
    }
}

} // verus!
