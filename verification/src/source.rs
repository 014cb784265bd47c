//! Compilation sources: a source wraps a buffer of input for one
//! compilation, taken from a raw byte buffer or from a NUL-terminated C
//! string, and can be split into independent sub-sources at the fixed
//! textual delimiter line.

use vstd::prelude::*;
use crate::compiler::CompilerError;

verus! {

/// The delimiter that separates sub-sources: a line reading `// -----`,
/// recognized here between two line breaks.
pub open spec fn split_separator() -> Seq<u8> {
    seq![0x0Au8, 0x2Fu8, 0x2Fu8, 0x20u8, 0x2Du8, 0x2Du8, 0x2Du8, 0x2Du8, 0x2Du8, 0x0Au8]
}

/// Whether the pattern occurs in `b` starting at `i`.
pub open spec fn matches_at(b: Seq<u8>, pat: Seq<u8>, i: int) -> bool {
    &&& 0 <= i
    &&& i + pat.len() <= b.len()
    &&& b.subrange(i, i + pat.len()) == pat
}

/// First position at or after `i` where the pattern occurs, or -1.
pub open spec fn find_pattern(b: Seq<u8>, pat: Seq<u8>, i: int) -> int
    decreases b.len() - i when 0 <= i && 0 < pat.len()
{
    if i + pat.len() > b.len() {
        -1
    } else if matches_at(b, pat, i) {
        i
    } else {
        find_pattern(b, pat, i + 1)
    }
}

/// The sub-source pieces of a buffer: the text up to each delimiter, in
/// order, and the remainder after the last one.
pub open spec fn split_spec(b: Seq<u8>) -> Seq<Seq<u8>>
    decreases b.len(),
{
    let idx = find_pattern(b, split_separator(), 0);
    if idx < 0 || idx + split_separator().len() > b.len() {
        seq![b]
    } else {
        seq![b.subrange(0, idx)] + split_spec(b.skip(idx + split_separator().len()))
    }
}

/// A compilation source: one buffer of input text or bytes.
pub struct Source {
    pub data: Vec<u8>,
}

impl Source {
    /// Wraps a NUL-terminated buffer: the terminator must be the last
    /// byte and must not occur inside, as the C string convention
    /// requires; the source holds the text without it.
    pub fn from_cstr(buffer: &[u8]) -> (r: Result<Source, CompilerError>)
        ensures
            (buffer@.len() > 0 && buffer@.last() == 0 && (forall|j: int|
                0 <= j < buffer@.len() - 1 ==> buffer@[j] != 0)) <==> r is Ok,
            r matches Ok(s) ==> s.data@ == buffer@.subrange(0, buffer@.len() - 1),
            r matches Err(e) ==> e is NulError,
    {
        let n = buffer.len();
        if n == 0 {
            return Err(CompilerError::NulError);
        }
        if *vstd::slice::slice_index_get(buffer, n - 1) != 0 {
            return Err(CompilerError::NulError);
        }
        let mut i: usize = 0;
        while i < n - 1
            invariant
                n == buffer@.len(),
                n > 0,
                0 <= i <= n - 1,
                forall|j: int| 0 <= j < i ==> buffer@[j] != 0,
            decreases n - 1 - i,
        {
            if *vstd::slice::slice_index_get(buffer, i) == 0 {
                return Err(CompilerError::NulError);
            }
            i = i + 1;
        }
        let data = vstd::slice::slice_to_vec(vstd::slice::slice_subrange(buffer, 0, n - 1));
        Ok(Source { data })
    }

    /// Wraps a raw byte buffer as a source.
    pub fn from_buf(buffer: &[u8]) -> (r: Result<Source, CompilerError>)
        ensures
            r is Ok,
            r matches Ok(s) ==> s.data@ == buffer@,
    {
        Ok(Source { data: vstd::slice::slice_to_vec(buffer) })
    }

    /// Splits the source at each delimiter line into independent
    /// sub-sources, in order.
    pub fn split(&self) -> (r: Result<Vec<Source>, CompilerError>)
        ensures
            r is Ok,
            r matches Ok(pieces) ==> {
                &&& pieces@.len() == split_spec(self.data@).len()
                &&& forall|j: int| 0 <= j < pieces@.len() ==> (#[trigger] pieces@[j].data@)
                    == split_spec(self.data@)[j]
            },
    {
        let mut pieces: Vec<Source> = Vec::new();
        let n = self.data.len();
        let mut start: usize = 0;
        let ghost whole = self.data@;
        proof {
            assert(whole.skip(0) =~= whole);
            assert(seq_views(pieces@) + split_spec(whole.skip(0)) =~= split_spec(whole));
        }
        loop
            invariant_except_break
                split_spec(whole) == seq_views(pieces@) + split_spec(whole.skip(start as int)),
            invariant
                0 <= start <= n,
                n == self.data@.len(),
                whole == self.data@,
            ensures
                pieces@.len() == split_spec(whole).len(),
                forall|j: int| 0 <= j < pieces@.len() ==> (#[trigger] pieces@[j].data@)
                    == split_spec(whole)[j],
            decreases n - start,
        {
            let found = Self::find_separator(&self.data, start);
            match found {
                Some(idx) => {
                    let piece = vstd::slice::slice_to_vec(
                        vstd::slice::slice_subrange(self.data.as_slice(), start, idx),
                    );
                    proof {
                        let rest = whole.skip(start as int);
                        let idx_rel = idx - start;
                        assert(rest.subrange(0, idx_rel) =~= whole.subrange(
                            start as int,
                            idx as int,
                        ));
                        assert(rest.skip(idx_rel + split_separator().len() as int) =~= whole.skip(
                            idx + split_separator().len() as int,
                        ));
                        assert(split_spec(rest) == seq![rest.subrange(0, idx_rel)] + split_spec(
                            rest.skip(idx_rel + split_separator().len() as int),
                        ));
                        assert(piece@ == rest.subrange(0, idx_rel));
                        assert(seq_views(pieces@.push(Source { data: piece })) =~= seq_views(
                            pieces@,
                        ) + seq![piece@]);
                        assert(seq_views(pieces@) + (seq![rest.subrange(0, idx_rel)] + split_spec(
                            whole.skip(idx + split_separator().len() as int),
                        )) =~= (seq_views(pieces@) + seq![rest.subrange(0, idx_rel)]) + split_spec(
                            whole.skip(idx + split_separator().len() as int),
                        ));
                    }
                    pieces.push(Source { data: piece });
                    start = idx + 10;
                },
                None => {
                    let piece = vstd::slice::slice_to_vec(
                        vstd::slice::slice_subrange(self.data.as_slice(), start, n),
                    );
                    proof {
                        let rest = whole.skip(start as int);
                        assert(rest.subrange(0, rest.len() as int) =~= rest);
                        assert(rest =~= whole.subrange(start as int, n as int));
                        assert(seq_views(pieces@.push(Source { data: piece })) =~= seq_views(
                            pieces@,
                        ) + seq![rest]);
                        assert(seq_views(pieces@) + seq![rest] =~= seq_views(pieces@.push(Source {
                            data: piece,
                        })));
                    }
                    pieces.push(Source { data: piece });
                    proof {
                        assert(split_spec(whole) =~= seq_views(pieces@));
                    }
                    break ;
                },
            }
        }
        Ok(pieces)
    }

    /// Finds the first delimiter occurrence at or after `start`, reported
    /// as an absolute position; the contract speaks of the suffix that
    /// starts there.
    fn find_separator(data: &Vec<u8>, start: usize) -> (r: Option<usize>)
        requires
            start <= data@.len(),
        ensures
            match r {
                Some(idx) => {
                    &&& start <= idx
                    &&& idx + split_separator().len() <= data@.len()
                    &&& find_pattern(data@.skip(start as int), split_separator(), 0) == idx
                        - start
                    &&& matches_at(data@, split_separator(), idx as int)
                },
                None => find_pattern(data@.skip(start as int), split_separator(), 0) == -1,
            },
    {
        let n = data.len();
        let ghost rest = data@.skip(start as int);
        let mut i: usize = start;
        while i < n && n - i >= 10
            invariant
                start <= i <= n,
                n == data@.len(),
                rest == data@.skip(start as int),
                find_pattern(rest, split_separator(), 0) == find_pattern(
                    rest,
                    split_separator(),
                    i - start,
                ),
            decreases n - i,
        {
            let w = [0x0Au8, 0x2Fu8, 0x2Fu8, 0x20u8, 0x2Du8, 0x2Du8, 0x2Du8, 0x2Du8, 0x2Du8,
                0x0Au8];
            proof {
                assert(w@ =~= split_separator());
            }
            let mut k: usize = 0;
            let mut matched = true;
            while k < 10
                invariant
                    0 <= k <= 10,
                    start <= i,
                    i + 10 <= n == data@.len(),
                    rest == data@.skip(start as int),
                    w@ == split_separator(),
                    matched <==> (forall|t: int| 0 <= t < k ==> data@[i + t] == split_separator()[
                        t
                    ]),
                decreases 10 - k,
            {
                if *vstd::slice::slice_index_get(data.as_slice(), i + k) != w[k] {
                    proof {
                        assert(data@[i + k as int] != split_separator()[k as int]);
                    }
                    matched = false;
                    k = 10;
                } else {
                    proof {
                        assert(data@[i + k as int] == split_separator()[k as int]);
                    }
                    k = k + 1;
                }
            }
            proof {
                assert(rest.len() == n - start);
                assert forall|t: int| 0 <= t < rest.len() implies #[trigger] rest[t] == data@[
                    start + t
                ] by {
                }
            }
            if matched {
                proof {
                    assert(rest.subrange(i - start, i - start + 10) =~= split_separator());
                    assert(matches_at(rest, split_separator(), i - start));
                    assert(find_pattern(rest, split_separator(), i - start) == i - start);
                    assert(data@.subrange(i as int, i + 10) =~= split_separator());
                    assert(matches_at(data@, split_separator(), i as int));
                }
                return Some(i);
            }
            proof {
                let t = choose|t: int| 0 <= t < 10 && data@[i + t] != split_separator()[t];
                assert(rest.subrange(i - start, i - start + 10).len() == 10);
                assert(rest.subrange(i - start, i - start + 10)[t] == rest[i - start + t]);
                assert(!matches_at(rest, split_separator(), i - start));
            }
            i = i + 1;
        }
        proof {
            assert(i - start + split_separator().len() > rest.len());
            assert(find_pattern(rest, split_separator(), i - start) == -1);
        }
        None
    }
}

/// The byte contents of a list of sources.
pub open spec fn seq_views(ss: Seq<Source>) -> Seq<Seq<u8>> {
    ss.map_values(|s: Source| s.data@)
}

} // verus!
