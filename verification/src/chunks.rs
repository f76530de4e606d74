//! Newline-respecting text chunking for the paginated display.
//!
//! Text is cut into chunks of at most `chunk_size` characters. Within each
//! window of `chunk_size` characters, the cut is placed just before the last
//! newline inside the window when one exists (the newline itself is dropped);
//! otherwise the cut falls exactly at the window end. Empty input still yields
//! one (empty) chunk, so a page always exists.

use vstd::prelude::*;

verus! {

/// Index of the last `'\n'` in `w`, or `-1` when `w` contains none.
pub open spec fn last_newline_index(w: Seq<char>) -> int
    decreases w.len(),
{
    if w.len() == 0 {
        -1
    } else if w.last() == '\n' {
        w.len() - 1
    } else {
        last_newline_index(w.drop_last())
    }
}

/// `last_newline_index` stays inside `w` and points at a newline when it is
/// not `-1`.
pub proof fn lemma_last_newline_index_bounds(w: Seq<char>)
    ensures
        -1 <= last_newline_index(w) < w.len(),
        last_newline_index(w) >= 0 ==> w[last_newline_index(w)] == '\n',
    decreases w.len(),
{
    if w.len() > 0 && w.last() != '\n' {
        lemma_last_newline_index_bounds(w.drop_last());
    }
}

/// The chunks cut from `t` starting at position `cur`: each window is at most
/// `s` characters; a window holding a newline is cut at its last newline
/// (which is consumed but not kept), otherwise at the window end.
pub open spec fn chunks_from(t: Seq<char>, s: int, cur: int) -> Seq<Seq<char>>
    decreases t.len() - cur
        when 1 <= s && 0 <= cur <= t.len()
        via chunks_from_decreases
{
    if cur >= t.len() {
        Seq::empty()
    } else {
        let next = if cur + s <= t.len() {
            cur + s
        } else {
            t.len() as int
        };
        let w = t.subrange(cur, next);
        let nl = last_newline_index(w);
        if nl >= 0 {
            seq![w.subrange(0, nl)] + chunks_from(t, s, cur + nl + 1)
        } else {
            seq![w] + chunks_from(t, s, next)
        }
    }
}

#[via_fn]
proof fn chunks_from_decreases(t: Seq<char>, s: int, cur: int) {
    if cur < t.len() {
        let next = if cur + s <= t.len() {
            cur + s
        } else {
            t.len() as int
        };
        lemma_last_newline_index_bounds(t.subrange(cur, next));
    }
}

/// All chunks of `t` under chunk size `s`: at least one chunk, even for empty
/// input (one empty chunk).
pub open spec fn split_chunks(t: Seq<char>, s: int) -> Seq<Seq<char>> {
    if t.len() == 0 {
        seq![Seq::<char>::empty()]
    } else {
        chunks_from(t, s, 0)
    }
}

/// The views of a sequence of owned strings.
pub open spec fn views_of(cs: Seq<String>) -> Seq<Seq<char>> {
    cs.map_values(|c: String| c@)
}

/// Splits a string into chunks of at most `chunk_size` characters, cutting at
/// the last newline of each window when there is one.
pub fn split_string_into_chunks_newline(string: &str, chunk_size: usize) -> (chunks: Vec<String>)
    requires
        chunk_size >= 1,
    ensures
        views_of(chunks@) == split_chunks(string@, chunk_size as int),
{
    let ghost t = string@;
    let ghost s = chunk_size as int;
    let end = string.unicode_len();
    let mut chunks: Vec<String> = Vec::new();
    if end == 0 {
        chunks.push(String::new());
        proof {
            assert(views_of(chunks@) =~= seq![Seq::<char>::empty()]);
        }
        return chunks;
    }
    let mut cur: usize = 0;
    while cur < end
        invariant
            string@ == t,
            s == chunk_size as int,
            1 <= s,
            end == t.len(),
            0 <= cur <= end,
            views_of(chunks@) + chunks_from(t, s, cur as int) == chunks_from(t, s, 0),
        decreases end - cur,
    {
        let next0: usize = if end - cur >= chunk_size {
            cur + chunk_size
        } else {
            end
        };
        let ghost w = t.subrange(cur as int, next0 as int);
        let mut found: Option<usize> = None;
        let mut j: usize = cur;
        while j < next0
            invariant
                cur <= j <= next0 <= end,
                end == t.len(),
                string@ == t,
                w == t.subrange(cur as int, next0 as int),
                match found {
                    None => last_newline_index(t.subrange(cur as int, j as int)) == -1,
                    Some(i) => cur <= i < j && last_newline_index(
                        t.subrange(cur as int, j as int),
                    ) == i - cur,
                },
            decreases next0 - j,
        {
            let c = string.get_char(j);
            proof {
                let wj = t.subrange(cur as int, j as int);
                let wj1 = t.subrange(cur as int, j as int + 1);
                assert(wj1.drop_last() =~= wj);
                assert(wj1.last() == t[j as int]);
            }
            if c == '\n' {
                found = Some(j);
            }
            j += 1;
        }
        let ghost old_chunks = chunks@;
        let ghost nl = last_newline_index(w);
        proof {
            lemma_last_newline_index_bounds(w);
        }
        let new_cur: usize;
        match found {
            Some(i) => {
                let chunk = string.substring_char(cur, i);
                chunks.push(String::from_str(chunk));
                new_cur = i + 1;
                proof {
                    assert(nl == i - cur);
                    assert(chunk@ =~= w.subrange(0, nl));
                    assert(chunks_from(t, s, cur as int) == seq![w.subrange(0, nl)] + chunks_from(
                        t,
                        s,
                        new_cur as int,
                    ));
                    assert(views_of(chunks@) =~= views_of(old_chunks).push(chunk@));
                    assert(views_of(old_chunks).push(chunk@) + chunks_from(t, s, new_cur as int)
                        =~= views_of(old_chunks) + chunks_from(t, s, cur as int));
                }
            },
            None => {
                let chunk = string.substring_char(cur, next0);
                chunks.push(String::from_str(chunk));
                new_cur = next0;
                proof {
                    assert(nl == -1);
                    assert(chunk@ == w);
                    assert(chunks_from(t, s, cur as int) == seq![w] + chunks_from(
                        t,
                        s,
                        new_cur as int,
                    ));
                    assert(views_of(chunks@) =~= views_of(old_chunks).push(chunk@));
                    assert(views_of(old_chunks).push(chunk@) + chunks_from(t, s, new_cur as int)
                        =~= views_of(old_chunks) + chunks_from(t, s, cur as int));
                }
            },
        }
        cur = new_cur;
    }
    proof {
        assert(chunks_from(t, s, cur as int) =~= Seq::<Seq<char>>::empty());
        assert(views_of(chunks@) =~= views_of(chunks@) + chunks_from(t, s, cur as int));
    }
    chunks
}

/// No chunk is longer than the chunk size.
proof fn lemma_chunks_from_bounded(t: Seq<char>, s: int, cur: int)
    requires
        1 <= s,
        0 <= cur <= t.len(),
    ensures
        forall|i: int|
            0 <= i < chunks_from(t, s, cur).len() ==> #[trigger] chunks_from(t, s, cur)[i].len()
                <= s,
    decreases t.len() - cur,
{
    if cur < t.len() {
        let next = if cur + s <= t.len() {
            cur + s
        } else {
            t.len() as int
        };
        let w = t.subrange(cur, next);
        lemma_last_newline_index_bounds(w);
        let nl = last_newline_index(w);
        if nl >= 0 {
            lemma_chunks_from_bounded(t, s, cur + nl + 1);
            let rec = chunks_from(t, s, cur + nl + 1);
            assert forall|i: int| 0 <= i < chunks_from(t, s, cur).len() implies #[trigger] chunks_from(
                t,
                s,
                cur,
            )[i].len() <= s by {
                if i == 0 {
                    assert(chunks_from(t, s, cur)[0] == w.subrange(0, nl));
                } else {
                    assert(chunks_from(t, s, cur)[i] == rec[i - 1]);
                }
            }
        } else {
            lemma_chunks_from_bounded(t, s, next);
            let rec = chunks_from(t, s, next);
            assert forall|i: int| 0 <= i < chunks_from(t, s, cur).len() implies #[trigger] chunks_from(
                t,
                s,
                cur,
            )[i].len() <= s by {
                if i == 0 {
                    assert(chunks_from(t, s, cur)[0] == w);
                } else {
                    assert(chunks_from(t, s, cur)[i] == rec[i - 1]);
                }
            }
        }
    }
}

/// Law: for every chunk size `s >= 1` and text `t`, no chunk of
/// `split_chunks(t, s)` exceeds `s` characters.
pub proof fn lemma_chunks_bounded(t: Seq<char>, s: int)
    requires
        1 <= s,
    ensures
        forall|i: int|
            0 <= i < split_chunks(t, s).len() ==> #[trigger] split_chunks(t, s)[i].len() <= s,
{
    lemma_chunks_from_bounded(t, s, 0);
}

/// `chunks` rebuilds `t`: each chunk is the next prefix of what is left of
/// `t`, and between one chunk and the next either nothing or exactly one
/// newline of `t` was dropped.
pub open spec fn rejoins(chunks: Seq<Seq<char>>, t: Seq<char>) -> bool
    decreases chunks.len(),
{
    if chunks.len() == 0 {
        t.len() == 0
    } else {
        chunks[0].is_prefix_of(t) && {
            let rest = t.skip(chunks[0].len() as int);
            ||| rejoins(chunks.skip(1), rest)
            ||| (rest.len() > 0 && rest[0] == '\n' && rejoins(chunks.skip(1), rest.skip(1)))
        }
    }
}

proof fn lemma_chunks_from_rejoins(t: Seq<char>, s: int, cur: int)
    requires
        1 <= s,
        0 <= cur <= t.len(),
    ensures
        rejoins(chunks_from(t, s, cur), t.skip(cur)),
    decreases t.len() - cur,
{
    let rest0 = t.skip(cur);
    if cur >= t.len() {
        assert(rest0.len() == 0);
    } else {
        let next = if cur + s <= t.len() {
            cur + s
        } else {
            t.len() as int
        };
        let w = t.subrange(cur, next);
        lemma_last_newline_index_bounds(w);
        let nl = last_newline_index(w);
        if nl >= 0 {
            let chunk = w.subrange(0, nl);
            let cs = chunks_from(t, s, cur);
            assert(cs[0] == chunk);
            assert(cs.skip(1) =~= chunks_from(t, s, cur + nl + 1));
            assert(chunk =~= rest0.subrange(0, nl));
            let rest = rest0.skip(nl);
            assert(rest[0] == t[cur + nl]);
            assert(w[nl] == t[cur + nl]);
            lemma_chunks_from_rejoins(t, s, cur + nl + 1);
            assert(rest.skip(1) =~= t.skip(cur + nl + 1));
            assert(rest0.skip(chunk.len() as int) == rest);
        } else {
            let chunk = w;
            let cs = chunks_from(t, s, cur);
            assert(cs[0] == chunk);
            assert(cs.skip(1) =~= chunks_from(t, s, next));
            assert(chunk =~= rest0.subrange(0, next - cur));
            lemma_chunks_from_rejoins(t, s, next);
            assert(rest0.skip(chunk.len() as int) =~= t.skip(next));
        }
    }
}

/// Law: for every chunk size `s >= 1` and text `t`, the chunks of
/// `split_chunks(t, s)`, concatenated with the newlines that were dropped at
/// the cuts, rebuild `t` exactly.
pub proof fn lemma_chunks_rejoin(t: Seq<char>, s: int)
    requires
        1 <= s,
    ensures
        rejoins(split_chunks(t, s), t),
{
    if t.len() == 0 {
        reveal_with_fuel(rejoins, 2);
        let cs = split_chunks(t, s);
        assert(cs[0].is_prefix_of(t));
        assert(t.skip(0) =~= t);
        assert(rejoins(cs.skip(1), t.skip(0)));
    } else {
        lemma_chunks_from_rejoins(t, s, 0);
        assert(t.skip(0) =~= t);
    }
}

/// Law: empty input yields exactly one chunk, the empty string, for every
/// chunk size.
pub proof fn lemma_empty_input_one_empty_chunk(s: int)
    requires
        1 <= s,
    ensures
        split_chunks(Seq::<char>::empty(), s) == seq![Seq::<char>::empty()],
{
}

/// Law: splitting always yields at least one chunk, even for empty input.
pub proof fn lemma_at_least_one_chunk(t: Seq<char>, s: int)
    requires
        1 <= s,
    ensures
        split_chunks(t, s).len() >= 1,
{
    if t.len() > 0 {
        lemma_last_newline_index_bounds(
            t.subrange(
                0,
                if s <= t.len() {
                    s
                } else {
                    t.len() as int
                },
            ),
        );
    }
}

/// A splitter's result, kept for page lookups. Page indices wrap modulo the
/// actual chunk count, so any index yields a page.
pub struct PageGetter {
    /// The chunks, in order; never empty.
    pub chunks: Vec<String>,
}

impl PageGetter {
    /// The page for `page_index`, wrapping modulo the chunk count.
    pub fn get(&self, page_index: usize) -> (r: String)
        requires
            self.chunks@.len() >= 1,
        ensures
            r@ == views_of(self.chunks@)[page_index as int % self.chunks@.len() as int],
    {
        let idx = page_index % self.chunks.len();
        self.chunks[idx].clone()
    }
}

/// Splits `string` into newline-respecting chunks of at most `chunk_size`
/// characters and returns a page getter over them.
pub fn create_page_getter_newline(string: &str, chunk_size: usize) -> (r: PageGetter)
    requires
        chunk_size >= 1,
    ensures
        views_of(r.chunks@) == split_chunks(string@, chunk_size as int),
        r.chunks@.len() >= 1,
{
    let chunks = split_string_into_chunks_newline(string, chunk_size);
    proof {
        lemma_at_least_one_chunk(string@, chunk_size as int);
    }
    PageGetter { chunks }
}

} // verus!
