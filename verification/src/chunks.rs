//! Cutting long messages into chunks that Discord takes.

use vstd::prelude::*;

use crate::text;
use crate::text::texts;

verus! {

/// Where `c` last occurs in `s`; -1 where it does not.
pub open spec fn last_index(s: Seq<char>, c: char) -> int
    decreases s.len(),
{
    if s.len() == 0 {
        -1
    } else if s.last() == c {
        s.len() - 1
    } else {
        last_index(s.drop_last(), c)
    }
}

/// How long the first chunk is: all that is left where that fits, else up to
/// and with the last newline that fits (one that begins the text is not worth
/// a chunk of its own), else as much as fits.
pub open spec fn first_cut(s: Seq<char>, max: nat) -> int {
    if s.len() <= max {
        s.len() as int
    } else if last_index(s.take(max as int), '\n') > 0 {
        last_index(s.take(max as int), '\n') + 1
    } else {
        max as int
    }
}

proof fn lemma_last_index(s: Seq<char>, c: char)
    ensures
        -1 <= last_index(s, c) < s.len(),
        last_index(s, c) >= 0 ==> s[last_index(s, c)] == c,
        forall|i: int| last_index(s, c) < i < s.len() ==> s[i] != c,
    decreases s.len(),
{
    if s.len() > 0 && s.last() != c {
        let t = s.drop_last();
        lemma_last_index(t, c);
        assert(forall|i: int| 0 <= i < t.len() ==> t[i] == s[i]);
    }
}

/// The chunks of a text, each of at most `max` characters.
pub open spec fn chunks(s: Seq<char>, max: nat) -> Seq<Seq<char>>
    decreases s.len(),
{
    if s.len() == 0 || max == 0 {
        Seq::empty()
    } else {
        let n = first_cut(s, max);
        if 0 < n <= s.len() {
            seq![s.take(n)] + chunks(s.skip(n), max)
        } else {
            Seq::empty()
        }
    }
}

/// The texts of a row, one after another.
pub open spec fn joined(parts: Seq<Seq<char>>) -> Seq<char>
    decreases parts.len(),
{
    if parts.len() == 0 {
        Seq::empty()
    } else {
        parts[0] + joined(parts.skip(1))
    }
}

proof fn lemma_first_cut(s: Seq<char>, max: nat)
    requires
        s.len() > 0,
        max > 0,
    ensures
        0 < first_cut(s, max) <= s.len(),
        first_cut(s, max) <= max,
{
    if s.len() > max {
        lemma_last_index(s.take(max as int), '\n');
    }
}

fn newline_before(chars: &Vec<char>, from: usize, to: usize) -> (res: Option<usize>)
    requires
        from <= to <= chars@.len(),
    ensures
        match res {
            Some(i) => i == last_index(chars@.subrange(from as int, to as int), '\n'),
            None => last_index(chars@.subrange(from as int, to as int), '\n') == -1,
        },
{
    let mut i: usize = to;
    while i > from
        invariant
            from <= i <= to <= chars@.len(),
            last_index(chars@.subrange(from as int, i as int), '\n') == last_index(
                chars@.subrange(from as int, to as int),
                '\n',
            ),
        decreases i - from,
    {
        let ghost w = chars@.subrange(from as int, i as int);
        assert(w.drop_last() =~= chars@.subrange(from as int, i - 1));
        if chars[i - 1] == '\n' {
            return Some(i - 1 - from);
        }
        i -= 1;
    }
    None
}

/// Chunks of at most `max_chars` characters (Discord caps messages at 2000),
/// preferring newline breaks.
pub fn split_chunks(s: &str, max_chars: usize) -> (out: Vec<String>)
    requires
        max_chars > 0 || s@.len() == 0,
    ensures
        texts(out@) == chunks(s@, max_chars as nat),
{
    let chars = text::chars_of(s);
    let ghost max = max_chars as nat;
    let mut out: Vec<String> = Vec::new();
    let mut start: usize = 0;
    assert(s@.skip(0) =~= s@);
    while start < chars.len()
        invariant
            chars@ == s@,
            max == max_chars,
            max_chars > 0 || s@.len() == 0,
            start <= chars@.len(),
            texts(out@) + chunks(s@.skip(start as int), max) == chunks(s@, max),
        decreases chars@.len() - start,
    {
        let ghost rest = s@.skip(start as int);
        proof {
            lemma_first_cut(rest, max);
        }
        let cut: usize = if max_chars < chars.len() - start {
            let end: usize = start + max_chars;
            assert(chars@.subrange(start as int, end as int) =~= rest.take(max as int));
            match newline_before(&chars, start, end) {
                Some(nl) => if nl > 0 {
                    start + nl + 1
                } else {
                    end
                },
                None => end,
            }
        } else {
            chars.len()
        };
        assert(cut - start == first_cut(rest, max));
        let ghost before = out@;
        out.push(text::string_of(&chars, start, cut));
        proof {
            let n = first_cut(rest, max);
            assert(chars@.subrange(start as int, cut as int) =~= rest.take(n));
            assert(rest.skip(n) =~= s@.skip(cut as int));
            assert(texts(out@) =~= texts(before).push(rest.take(n)));
            assert(texts(out@) + chunks(s@.skip(cut as int), max) =~= texts(before) + chunks(
                rest,
                max,
            ));
        }
        start = cut;
    }
    assert(texts(out@) =~= chunks(s@, max));
    out
}

/// The chunks hold the text and nothing else, each is at least one and at most
/// `max` characters long, and every one but the last is cut behind a newline
/// wherever one that fits does not begin it.
pub proof fn chunks_hold_the_text(s: Seq<char>, max: nat)
    requires
        max > 0,
    ensures
        joined(chunks(s, max)) == s,
        forall|i: int| 0 <= i < chunks(s, max).len() ==> 0 < (#[trigger] chunks(s, max)[i]).len() <= max,
        forall|i: int|
            0 <= i < chunks(s, max).len() - 1 ==> (#[trigger] chunks(s, max)[i]).last() == '\n' || (
            chunks(s, max)[i].len() == max && !chunks(s, max)[i].skip(1).contains('\n')),
    decreases s.len(),
{
    let all = chunks(s, max);
    if s.len() > 0 {
        lemma_first_cut(s, max);
        let n = first_cut(s, max);
        let rest = chunks(s.skip(n), max);
        chunks_hold_the_text(s.skip(n), max);
        assert(all.skip(1) =~= rest);
        assert(s.take(n) + s.skip(n) =~= s);
        assert(all[0] == s.take(n));
        if s.len() > max {
            lemma_last_index(s.take(max as int), '\n');
            let w = s.take(max as int);
            if n == max && w.last() != '\n' {
                assert(all[0] == w);
                assert(!w.skip(1).contains('\n')) by {
                    if w.skip(1).contains('\n') {
                        let i = choose|i: int| 0 <= i < w.skip(1).len() && w.skip(1)[i] == '\n';
                        assert(w[i + 1] == '\n');
                    }
                }
            }
        } else {
            assert(s.skip(n) =~= Seq::empty());
            assert(rest =~= Seq::empty());
        }
        assert forall|i: int| 0 <= i < all.len() implies 0 < (#[trigger] all[i]).len() <= max by {
            if i > 0 {
                assert(all[i] == rest[i - 1]);
            }
        }
        assert forall|i: int| 0 <= i < all.len() - 1 implies (#[trigger] all[i]).last() == '\n' || (
        all[i].len() == max && !all[i].skip(1).contains('\n')) by {
            if i > 0 {
                assert(all[i] == rest[i - 1]);
            }
        }
    } else {
        assert(joined(all) =~= s);
    }
}

/// How a text is cut: whole where it fits. Else its first chunk is a piece of it
/// that ends behind the last newline that fits, except for one that begins the
/// text, and is as long as can be where there is none; what follows is cut in
/// the same way.
pub proof fn each_chunk_is_cut_late(s: Seq<char>, max: nat)
    requires
        max > 0,
    ensures
        s.len() == 0 ==> chunks(s, max) == Seq::<Seq<char>>::empty(),
        0 < s.len() <= max ==> chunks(s, max) == seq![s],
        s.len() > max ==> {
            let c = chunks(s, max)[0];
            &&& chunks(s, max).len() > 1
            &&& 0 < c.len() <= max
            &&& c == s.take(c.len() as int)
            &&& chunks(s, max).skip(1) == chunks(s.skip(c.len() as int), max)
            &&& forall|j: int| c.len() <= j < max ==> #[trigger] s[j] != '\n'
            &&& c.len() < max ==> c.len() > 1 && c.last() == '\n'
            &&& (exists|j: int| 0 < j < max && #[trigger] s[j] == '\n') ==> c.last() == '\n'
        },
{
    if s.len() > 0 {
        lemma_first_cut(s, max);
        let n = first_cut(s, max);
        let c = s.take(n);
        assert(chunks(s, max)[0] == c);
        assert(chunks(s, max).skip(1) =~= chunks(s.skip(n), max));
        if s.len() <= max {
            assert(c =~= s);
            assert(s.skip(n).len() == 0);
            assert(chunks(s, max) =~= seq![s]);
        } else {
            let w = s.take(max as int);
            lemma_last_index(w, '\n');
            lemma_first_cut(s.skip(n), max);
            assert(forall|j: int| 0 <= j < max ==> w[j] == s[j]);
        }
    }
}

} // verus!
