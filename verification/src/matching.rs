use vstd::prelude::*;

use crate::error::TapeResult;
use crate::token::{Token, EOF_KIND};
use crate::token_reader::TokenReader;

verus! {

/// The outcome of a match attempt: `Ok(Some(..))` for a match, `Ok(None)`
/// for a backtrackable no-match that left the reader unchanged, `Err(..)`
/// for a hard error that aborts the whole attempt.
pub type MatchResult<T> = TapeResult<Option<T>>;

/// The length of the run of tokens with a kind in `ids` starting at `i`
/// (the end-marker handed out past the backing sequence never extends it).
pub open spec fn match_run_len(toks: Seq<Token>, i: int, ids: Seq<u64>) -> int
    decreases toks.len() - i,
{
    if i < 0 || i >= toks.len() {
        0
    } else if ids.contains(toks[i].kind) {
        1 + match_run_len(toks, i + 1, ids)
    } else {
        0
    }
}

/// Whether the run of matching tokens starting at `i` is sure to stop: some
/// token at or after `i` has a kind outside `ids`, or the end-marker kind
/// lies outside `ids` (the sentinel handed out past the end then stops every
/// run). Without this, a repeated match would never return.
pub open spec fn run_stops(toks: Seq<Token>, i: int, ids: Seq<u64>) -> bool {
    !ids.contains(EOF_KIND) || (exists|j: int|
        i <= j < toks.len() && !ids.contains(#[trigger] toks[j].kind))
}

/// Whether `x` is among `ids`.
#[verifier::loop_isolation(false)]
fn contains_id(ids: &[u64], x: u64) -> (r: bool)
    ensures
        r == ids@.contains(x),
{
    let mut i: usize = 0;
    while i < ids.len()
        invariant
            i <= ids.len(),
            forall|j: int| 0 <= j < i ==> ids@[j] != x,
        decreases ids.len() - i,
    {
        if ids[i] == x {
            assert(ids@[i as int] == x);
            return true;
        }
        i = i + 1;
    }
    false
}

/// Matches exactly one token: when the token under the cursor is of kind
/// `kind` it is consumed and returned, otherwise the reader is left unchanged
/// and the attempt reports no-match. Never errs.
pub fn match_one(reader: &mut TokenReader, kind: u64) -> (r: MatchResult<&Token>)
    requires
        old(reader).spec_peek().kind == kind ==> old(reader).cursor() < usize::MAX,
    ensures
        final(reader).toks() == old(reader).toks(),
        final(reader).eof_token() == old(reader).eof_token(),
        old(reader).spec_peek().kind == kind ==> (r matches Ok(Some(t)) && *t == old(
            reader,
        ).spec_peek() && final(reader).cursor() == old(reader).cursor() + 1),
        old(reader).spec_peek().kind != kind ==> (r matches Ok(None)) && *final(reader) == *old(
            reader,
        ),
{
    if reader.peek_is(kind) {
        Ok(Some(reader.consume()))
    } else {
        Ok(None)
    }
}

/// Matches one token whose kind is among `ids`: consumed and returned on a
/// match, no-match with the reader unchanged otherwise. Never errs.
pub fn match_many<'a>(reader: &'a mut TokenReader, ids: &[u64]) -> (r: MatchResult<&'a Token>)
    requires
        ids@.contains(old(reader).spec_peek().kind) ==> old(reader).cursor() < usize::MAX,
    ensures
        final(reader).toks() == old(reader).toks(),
        final(reader).eof_token() == old(reader).eof_token(),
        ids@.contains(old(reader).spec_peek().kind) ==> (r matches Ok(Some(t)) && *t == old(
            reader,
        ).spec_peek() && final(reader).cursor() == old(reader).cursor() + 1),
        !ids@.contains(old(reader).spec_peek().kind) ==> (r matches Ok(None)) && *final(reader)
            == *old(reader),
{
    let kind = reader.peek().inner_type_id();
    if contains_id(ids, kind) {
        Ok(Some(reader.consume()))
    } else {
        Ok(None)
    }
}

/// Matches the whole run of tokens with a kind in `ids` and reports its
/// length: always a match, also over zero matching tokens (`Ok(Some(0))`),
/// never a no-match, never an error. Something must stop the run (see
/// `run_stops`), else the call would never return.
pub fn match_many_mul(reader: &mut TokenReader, ids: &[u64]) -> (r: MatchResult<usize>)
    requires
        old(reader).wf(),
        run_stops(old(reader).toks(), old(reader).cursor(), ids@),
    ensures
        final(reader).toks() == old(reader).toks(),
        final(reader).eof_token() == old(reader).eof_token(),
        r matches Ok(Some(n)) && n == match_run_len(old(reader).toks(), old(reader).cursor(), ids@),
        final(reader).cursor() == old(reader).cursor() + match_run_len(
            old(reader).toks(),
            old(reader).cursor(),
            ids@,
        ),
        match_run_len(old(reader).toks(), old(reader).cursor(), ids@) == 0 ==> *final(reader)
            == *old(reader),
{
    let mut count: usize = 0;
    loop
        invariant
            reader.wf(),
            run_stops(reader.toks(), reader.cursor(), ids@),
            0 <= old(reader).cursor(),
            reader.toks() == old(reader).toks(),
            reader.eof_token() == old(reader).eof_token(),
            count == reader.cursor() - old(reader).cursor(),
            match_run_len(reader.toks(), old(reader).cursor(), ids@) == count + match_run_len(
                reader.toks(),
                reader.cursor(),
                ids@,
            ),
            count == 0 ==> *reader == *old(reader),
        ensures
            match_run_len(reader.toks(), reader.cursor(), ids@) == 0,
        decreases reader.toks().len() - reader.cursor(),
    {
        proof {
            crate::token_reader::lemma_reader_bounds(reader);
        }
        let ghost pre = *reader;
        let m = match_many(reader, ids);
        match m {
            Ok(Some(_)) => {
                proof {
                    if ids@.contains(EOF_KIND) {
                        let j = choose|j: int|
                            pre.cursor() <= j < pre.toks().len() && !ids@.contains(
                                #[trigger] pre.toks()[j].kind,
                            );
                        assert(reader.cursor() <= j < reader.toks().len() && !ids@.contains(
                            reader.toks()[j].kind,
                        ));
                    }
                }
                count = count + 1;
            },
            Ok(None) => {
                break ;
            },
            Err(e) => {
                return Err(e);
            },
        }
    }
    Ok(Some(count))
}

/// Matches the whole run of tokens with a kind in `ids`, reporting no-match
/// (with the reader unchanged) when the run is empty, its length otherwise.
/// Something must stop the run (see `run_stops`).
pub fn match_many_mul_plus(reader: &mut TokenReader, ids: &[u64]) -> (r: MatchResult<usize>)
    requires
        old(reader).wf(),
        run_stops(old(reader).toks(), old(reader).cursor(), ids@),
    ensures
        final(reader).toks() == old(reader).toks(),
        final(reader).eof_token() == old(reader).eof_token(),
        final(reader).cursor() == old(reader).cursor() + match_run_len(
            old(reader).toks(),
            old(reader).cursor(),
            ids@,
        ),
        match_run_len(old(reader).toks(), old(reader).cursor(), ids@) == 0 ==> (r matches Ok(None))
            && *final(reader) == *old(reader),
        match_run_len(old(reader).toks(), old(reader).cursor(), ids@) > 0 ==> (r matches Ok(
            Some(n),
        ) && n == match_run_len(old(reader).toks(), old(reader).cursor(), ids@)),
{
    let count = match match_many_mul(reader, ids) {
        Ok(Some(c)) => c,
        Ok(None) => {
            return Ok(None);
        },
        Err(e) => {
            return Err(e);
        },
    };
    if count > 0 {
        Ok(Some(count))
    } else {
        Ok(None)
    }
}

} // verus!
