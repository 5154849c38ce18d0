//! Byte-level text utilities shared by the protocol codec: whitespace
//! tokenisation, joining and decimal numbers, each with its mathematical
//! model over `Seq<u8>`.

use vstd::prelude::*;
use vstd::string::StringSliceAdditionalSpecFns;

verus! {

/// The bytes that separate words on a protocol line: the ASCII white space
/// (space, tab, line feed, vertical tab, form feed and carriage return).
pub open spec fn is_space(b: u8) -> bool {
    b == 32 || (9 <= b <= 13)
}

/// A word is a non-empty run of bytes none of which is whitespace.
pub open spec fn is_word(w: Seq<u8>) -> bool {
    w.len() > 0 && forall|i: int| 0 <= i < w.len() ==> !is_space(#[trigger] w[i])
}

/// A blank text holds nothing but whitespace.
pub open spec fn is_blank(s: Seq<u8>) -> bool {
    forall|i: int| 0 <= i < s.len() ==> is_space(#[trigger] s[i])
}

/// The bytes of a string.
pub open spec fn bytes_of(s: &str) -> Seq<u8> {
    s.spec_bytes()
}

/// Length of the longest prefix of `s` free of whitespace.
pub open spec fn word_len(s: Seq<u8>) -> nat
    decreases s.len(),
{
    if s.len() > 0 && !is_space(s[0]) {
        1 + word_len(s.skip(1))
    } else {
        0
    }
}

/// The words of `s`: its maximal whitespace-free runs, left to right.
pub open spec fn tokens(s: Seq<u8>) -> Seq<Seq<u8>>
    decreases s.len(),
{
    if s.len() == 0 {
        Seq::empty()
    } else if is_space(s[0]) {
        tokens(s.skip(1))
    } else {
        let n = word_len(s) as int;
        if 0 < n <= s.len() {
            seq![s.take(n)] + tokens(s.skip(n))
        } else {
            Seq::empty()
        }
    }
}

/// The words of `ws` written one after another with a single space between.
pub open spec fn join(ws: Seq<Seq<u8>>) -> Seq<u8>
    decreases ws.len(),
{
    if ws.len() == 0 {
        Seq::empty()
    } else if ws.len() == 1 {
        ws[0]
    } else {
        join(ws.drop_last()) + seq![32u8] + ws.last()
    }
}

/// A text in normal form: at least one word, single spaces between words and
/// no whitespace at either end.
pub open spec fn is_phrase(s: Seq<u8>) -> bool {
    s.len() > 0 && join(tokens(s)) == s
}

/// The model of a list of owned byte strings.
pub open spec fn views(v: Seq<Vec<u8>>) -> Seq<Seq<u8>> {
    Seq::new(v.len(), |i: int| v[i]@)
}

/// The first word of a text ends at white space or at the end of the text.
pub proof fn lemma_word_len_bound(s: Seq<u8>)
    ensures
        word_len(s) <= s.len(),
        forall|i: int| 0 <= i < word_len(s) ==> !is_space(#[trigger] s[i]),
        word_len(s) < s.len() ==> is_space(s[word_len(s) as int]),
        s.len() > 0 && !is_space(s[0]) ==> word_len(s) > 0,
    decreases s.len(),
{
    if s.len() > 0 && !is_space(s[0]) {
        let t = s.skip(1);
        lemma_word_len_bound(t);
        assert forall|i: int| 0 <= i < word_len(s) implies !is_space(#[trigger] s[i]) by {
            if i > 0 {
                assert(s[i] == t[i - 1]);
            }
        }
        if word_len(s) < s.len() {
            assert(s[word_len(s) as int] == t[word_len(t) as int]);
        }
    }
}

/// A word followed by nothing or by whitespace is measured whole.
pub proof fn lemma_word_len_prefix(w: Seq<u8>, rest: Seq<u8>)
    requires
        forall|i: int| 0 <= i < w.len() ==> !is_space(#[trigger] w[i]),
        rest.len() == 0 || is_space(rest[0]),
    ensures
        word_len(w + rest) == w.len(),
    decreases w.len(),
{
    let s = w + rest;
    if w.len() == 0 {
        assert(s =~= rest);
    } else {
        assert(s[0] == w[0]);
        assert(s.skip(1) =~= w.skip(1) + rest);
        lemma_word_len_prefix(w.skip(1), rest);
    }
}

/// The first word of a text that starts with one.
pub proof fn lemma_tokens_word(w: Seq<u8>, rest: Seq<u8>)
    requires
        is_word(w),
        rest.len() == 0 || is_space(rest[0]),
    ensures
        tokens(w + rest) == seq![w] + tokens(rest),
{
    let s = w + rest;
    lemma_word_len_prefix(w, rest);
    assert(s[0] == w[0]);
    assert(s.take(w.len() as int) =~= w);
    assert(s.skip(w.len() as int) =~= rest);
}

/// Whitespace in front of a text adds no word.
pub proof fn lemma_tokens_leading(pre: Seq<u8>, s: Seq<u8>)
    requires
        is_blank(pre),
    ensures
        tokens(pre + s) == tokens(s),
    decreases pre.len(),
{
    if pre.len() == 0 {
        assert(pre + s =~= s);
    } else {
        let t = pre + s;
        assert(t[0] == pre[0]);
        assert(t.skip(1) =~= pre.skip(1) + s);
        assert forall|i: int| 0 <= i < pre.skip(1).len() implies is_space(
            #[trigger] pre.skip(1)[i],
        ) by {
            assert(pre.skip(1)[i] == pre[i + 1]);
        }
        lemma_tokens_leading(pre.skip(1), s);
    }
}

/// A blank text has no words.
pub proof fn lemma_tokens_blank(s: Seq<u8>)
    requires
        is_blank(s),
    ensures
        tokens(s).len() == 0,
{
    lemma_tokens_leading(s, Seq::empty());
    assert(s + Seq::<u8>::empty() =~= s);
}

/// Whitespace behind a text adds no word.
pub proof fn lemma_tokens_trailing(s: Seq<u8>, post: Seq<u8>)
    requires
        is_blank(post),
    ensures
        tokens(s + post) == tokens(s),
    decreases s.len(),
{
    if s.len() == 0 {
        assert(s + post =~= post);
        lemma_tokens_blank(post);
    } else if is_space(s[0]) {
        let t = s + post;
        assert(t[0] == s[0]);
        assert(t.skip(1) =~= s.skip(1) + post);
        lemma_tokens_trailing(s.skip(1), post);
    } else {
        let t = s + post;
        lemma_word_len_bound(s);
        let n = word_len(s) as int;
        let w = s.take(n);
        let tail = s.skip(n);
        assert(s =~= w + tail);
        assert(t =~= w + (tail + post));
        assert(tail.len() > 0 ==> tail[0] == s[n]);
        assert((tail + post).len() > 0 ==> is_space((tail + post)[0])) by {
            if tail.len() > 0 {
                assert((tail + post)[0] == tail[0]);
            } else if post.len() > 0 {
                assert((tail + post)[0] == post[0]);
            }
        }
        assert(is_word(w));
        lemma_tokens_word(w, tail + post);
        lemma_tokens_word(w, tail);
        lemma_tokens_trailing(tail, post);
    }
}

/// A text has no words exactly when it is blank.
pub proof fn lemma_tokens_empty_iff_blank(s: Seq<u8>)
    ensures
        tokens(s).len() == 0 <==> is_blank(s),
    decreases s.len(),
{
    if s.len() == 0 {
    } else if is_space(s[0]) {
        lemma_tokens_empty_iff_blank(s.skip(1));
        if is_blank(s.skip(1)) {
            assert forall|i: int| 0 <= i < s.len() implies is_space(#[trigger] s[i]) by {
                if i > 0 {
                    assert(s[i] == s.skip(1)[i - 1]);
                }
            }
        }
        if is_blank(s) {
            assert forall|i: int| 0 <= i < s.skip(1).len() implies is_space(
                #[trigger] s.skip(1)[i],
            ) by {
                assert(s.skip(1)[i] == s[i + 1]);
            }
        }
    } else {
        lemma_word_len_bound(s);
    }
}

/// The words of two texts with a space between them are the words of the
/// first followed by the words of the second.
pub proof fn lemma_tokens_concat(a: Seq<u8>, b: Seq<u8>)
    ensures
        tokens(a + seq![32u8] + b) == tokens(a) + tokens(b),
    decreases a.len(),
{
    let sp = seq![32u8];
    let t = a + sp + b;
    if a.len() == 0 {
        assert(t =~= sp + b);
        assert(is_blank(sp));
        lemma_tokens_leading(sp, b);
        assert(tokens(a) + tokens(b) =~= tokens(b));
    } else if is_space(a[0]) {
        assert(t[0] == a[0]);
        assert(t.skip(1) =~= a.skip(1) + sp + b);
        lemma_tokens_concat(a.skip(1), b);
    } else {
        lemma_word_len_bound(a);
        let n = word_len(a) as int;
        let w = a.take(n);
        let tail = a.skip(n);
        assert(a =~= w + tail);
        let rest = tail + sp + b;
        assert(t =~= w + rest);
        assert(is_space(rest[0])) by {
            if tail.len() > 0 {
                assert(rest[0] == tail[0]);
                assert(tail[0] == a[n]);
            } else {
                assert(rest[0] == sp[0]);
            }
        }
        assert(tail.len() > 0 ==> tail[0] == a[n]);
        assert(is_word(w));
        lemma_tokens_word(w, rest);
        lemma_tokens_word(w, tail);
        lemma_tokens_concat(tail, b);
        assert(tokens(t) =~= tokens(a) + tokens(b));
    }
}

/// A word is its own only token.
pub proof fn lemma_tokens_single(w: Seq<u8>)
    requires
        is_word(w),
    ensures
        tokens(w) == seq![w],
{
    lemma_tokens_word(w, Seq::empty());
    assert(w + Seq::<u8>::empty() =~= w);
    assert(tokens(Seq::<u8>::empty()) =~= Seq::<Seq<u8>>::empty());
    assert(seq![w] + Seq::<Seq<u8>>::empty() =~= seq![w]);
}

/// Words joined by spaces come apart into the same words.
pub proof fn lemma_tokens_join(ws: Seq<Seq<u8>>)
    requires
        forall|i: int| 0 <= i < ws.len() ==> is_word(#[trigger] ws[i]),
    ensures
        tokens(join(ws)) == ws,
    decreases ws.len(),
{
    if ws.len() == 0 {
        assert(tokens(join(ws)) =~= ws);
    } else if ws.len() == 1 {
        lemma_tokens_single(ws[0]);
        assert(seq![ws[0]] =~= ws);
    } else {
        lemma_tokens_join(ws.drop_last());
        lemma_tokens_concat(join(ws.drop_last()), ws.last());
        lemma_tokens_single(ws.last());
        assert(ws.drop_last() + seq![ws.last()] =~= ws);
    }
}

/// Words and a closing text joined by spaces come apart into the words and
/// the words of the closing text.
pub proof fn lemma_tokens_join_tail(ws: Seq<Seq<u8>>, tail: Seq<u8>)
    requires
        ws.len() > 0,
        forall|i: int| 0 <= i < ws.len() ==> is_word(#[trigger] ws[i]),
    ensures
        tokens(join(ws.push(tail))) == ws + tokens(tail),
{
    lemma_tokens_join(ws);
    assert(ws.push(tail).drop_last() =~= ws);
    lemma_tokens_concat(join(ws), tail);
}

/// Whether `b` separates words.
pub fn space(b: u8) -> (r: bool)
    ensures
        r == is_space(b),
{
    b == 32 || (9 <= b && b <= 13)
}

/// Copies `s[from..to]`.
pub fn slice_copy(s: &[u8], from: usize, to: usize) -> (out: Vec<u8>)
    requires
        from <= to <= s.len(),
    ensures
        out@ == s@.subrange(from as int, to as int),
{
    let mut out: Vec<u8> = Vec::new();
    let mut i: usize = from;
    while i < to
        invariant
            from <= i <= to <= s.len(),
            out@ == s@.subrange(from as int, i as int),
        decreases to - i,
    {
        out.push(s[i]);
        proof {
            assert(out@ =~= s@.subrange(from as int, i + 1));
        }
        i += 1;
    }
    out
}

/// Copies `s`.
pub fn copy(s: &[u8]) -> (out: Vec<u8>)
    ensures
        out@ == s@,
{
    let out = slice_copy(s, 0, s.len());
    proof {
        assert(s@.subrange(0, s.len() as int) =~= s@);
    }
    out
}

/// Appends `tail` to `out`.
pub fn append(out: &mut Vec<u8>, tail: &[u8])
    ensures
        final(out)@ == old(out)@ + tail@,
{
    let mut i: usize = 0;
    while i < tail.len()
        invariant
            i <= tail.len(),
            out@ == old(out)@ + tail@.take(i as int),
        decreases tail.len() - i,
    {
        out.push(tail[i]);
        proof {
            assert(out@ =~= old(out)@ + tail@.take(i + 1));
        }
        i += 1;
    }
    proof {
        assert(tail@.take(tail.len() as int) =~= tail@);
    }
}

/// Whether two byte strings are equal.
pub fn same(a: &[u8], b: &[u8]) -> (r: bool)
    ensures
        r == (a@ == b@),
{
    if a.len() != b.len() {
        return false;
    }
    let mut i: usize = 0;
    while i < a.len()
        invariant
            i <= a.len(),
            a.len() == b.len(),
            forall|j: int| 0 <= j < i ==> a@[j] == b@[j],
        decreases a.len() - i,
    {
        if a[i] != b[i] {
            return false;
        }
        i += 1;
    }
    proof {
        assert(a@ =~= b@);
    }
    true
}

/// Whether `a` spells the string `word`.
pub fn spells(a: &[u8], word: &str) -> (r: bool)
    ensures
        r == (a@ == bytes_of(word)),
{
    same(a, word.as_bytes())
}

/// Splits a line into its words.
pub fn split(line: &[u8]) -> (out: Vec<Vec<u8>>)
    ensures
        views(out@) == tokens(line@),
{
    let mut out: Vec<Vec<u8>> = Vec::new();
    let mut i: usize = 0;
    proof {
        assert(line@.skip(0) =~= line@);
        assert(views(out@) =~= Seq::<Seq<u8>>::empty());
    }
    while i < line.len()
        invariant
            i <= line.len(),
            tokens(line@) == views(out@) + tokens(line@.skip(i as int)),
        decreases line.len() - i,
    {
        let ghost rest = line@.skip(i as int);
        if space(line[i]) {
            proof {
                assert(rest[0] == line@[i as int]);
                assert(rest.skip(1) =~= line@.skip(i + 1));
            }
            i += 1;
        } else {
            let start = i;
            let ghost before = views(out@);
            proof {
                lemma_word_len_bound(rest);
                assert(rest[0] == line@[i as int]);
            }
            while i < line.len() && !space(line[i])
                invariant
                    start <= i <= line.len(),
                    rest == line@.skip(start as int),
                    i - start <= word_len(rest) <= rest.len(),
                    forall|k: int| 0 <= k < word_len(rest) ==> !is_space(#[trigger] rest[k]),
                    word_len(rest) < rest.len() ==> is_space(rest[word_len(rest) as int]),
                decreases line.len() - i,
            {
                proof {
                    assert(rest[i - start] == line@[i as int]);
                }
                i += 1;
            }
            proof {
                if i < line.len() {
                    assert(rest[i - start] == line@[i as int]);
                }
                assert(word_len(rest) == i - start);
            }
            let word = slice_copy(line, start, i);
            out.push(word);
            proof {
                let n = (i - start) as int;
                assert(rest.take(n) =~= line@.subrange(start as int, i as int));
                assert(rest.skip(n) =~= line@.skip(i as int));
                assert(views(out@) =~= before + seq![rest.take(n)]);
                assert(tokens(rest) == seq![rest.take(n)] + tokens(rest.skip(n)));
                assert(tokens(line@) =~= views(out@) + tokens(line@.skip(i as int)));
            }
        }
    }
    proof {
        assert(line@.skip(i as int) =~= Seq::<u8>::empty());
        assert(views(out@) + Seq::<Seq<u8>>::empty() =~= views(out@));
    }
    out
}

/// Writes the words `ws[from..]` with single spaces between them.
pub fn join_from(ws: &Vec<Vec<u8>>, from: usize) -> (out: Vec<u8>)
    requires
        from <= ws.len(),
    ensures
        out@ == join(views(ws@).skip(from as int)),
{
    let mut out: Vec<u8> = Vec::new();
    let mut i: usize = from;
    let ghost all = views(ws@);
    proof {
        assert(all.subrange(from as int, from as int) =~= Seq::<Seq<u8>>::empty());
    }
    while i < ws.len()
        invariant
            from <= i <= ws.len(),
            all == views(ws@),
            out@ == join(all.subrange(from as int, i as int)),
        decreases ws.len() - i,
    {
        let ghost done = all.subrange(from as int, i as int);
        let ghost next = all.subrange(from as int, i + 1);
        proof {
            assert(next.drop_last() =~= done);
            assert(next.last() == ws@[i as int]@);
        }
        if i > from {
            out.push(32u8);
        }
        append(&mut out, ws[i].as_slice());
        proof {
            if i > from {
                assert(out@ =~= join(done) + seq![32u8] + ws@[i as int]@);
            } else {
                assert(out@ =~= ws@[i as int]@);
            }
        }
        i += 1;
    }
    proof {
        assert(all.subrange(from as int, ws.len() as int) =~= all.skip(from as int));
    }
    out
}

} // verus!
