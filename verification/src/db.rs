//! The database schema script: which statements it is run as.
use vstd::prelude::*;
use crate::text::{lemma_trim_idempotent, chars_of, find_char, lemma_segments_step, segments, string_of_range, trim, trim_range};

verus! {

/// The statements among `pieces`: each piece trimmed, empty ones left out.
pub open spec fn statements_of(pieces: Seq<Seq<char>>) -> Seq<Seq<char>>
    decreases pieces.len(),
{
    if pieces.len() == 0 {
        Seq::empty()
    } else {
        (if trim(pieces[0]).len() > 0 {
            seq![trim(pieces[0])]
        } else {
            Seq::empty()
        }) + statements_of(pieces.drop_first())
    }
}

/// The statements of a script: its `;`-separated pieces, trimmed, without
/// the empty ones.
pub open spec fn script_statements(script: Seq<char>) -> Seq<Seq<char>> {
    statements_of(segments(script, ';'))
}

/// Every statement of a script is non-empty and has no surrounding whitespace.
pub proof fn lemma_statements_are_trimmed(pieces: Seq<Seq<char>>)
    ensures
        forall|i: int|
            0 <= i < statements_of(pieces).len() ==> #[trigger] statements_of(pieces)[i].len() > 0
                && trim(statements_of(pieces)[i]) == statements_of(pieces)[i],
    decreases pieces.len(),
{
    if pieces.len() > 0 {
        lemma_statements_are_trimmed(pieces.drop_first());
        lemma_trim_idempotent(pieces[0]);
        let head = if trim(pieces[0]).len() > 0 { seq![trim(pieces[0])] } else { Seq::<Seq<char>>::empty() };
        let tail = statements_of(pieces.drop_first());
        assert forall|i: int|
            0 <= i < statements_of(pieces).len() implies #[trigger] statements_of(pieces)[i].len() > 0
                && trim(statements_of(pieces)[i]) == statements_of(pieces)[i] by {
            if i >= head.len() {
                assert(statements_of(pieces)[i] == tail[i - head.len()]);
            }
        }
    }
}

/// Splits a schema script into the statements to run, in order.
pub fn migration_statements(script: &str) -> (r: Vec<String>)
    ensures
        r@.map_values(|s: String| s@) == script_statements(script@),
{
    let v = chars_of(script);
    let n = v.len();
    let mut out: Vec<String> = Vec::new();
    let mut pos: usize = 0;
    assert(v@.skip(0) =~= v@);
    assert(out@.map_values(|s: String| s@) + statements_of(segments(v@, ';')) =~= statements_of(
        segments(v@, ';'),
    ));
    loop
        invariant
            pos <= n == v.len(),
            v@ == script@,
            out@.map_values(|s: String| s@) + statements_of(segments(v@.skip(pos as int), ';'))
                == statements_of(segments(v@, ';')),
        decreases n - pos,
    {
        let end = find_char(&v, ';', pos, n);
        proof {
            lemma_segments_step(v@, ';', pos as int, end as int);
        }
        let ghost piece = v@.subrange(pos as int, end as int);
        let ghost rest = if end < n { segments(v@.skip(end + 1), ';') } else { Seq::empty() };
        let ghost pieces = seq![piece] + rest;
        assert(pieces.drop_first() =~= rest);
        assert(pieces[0] == piece);
        let ghost before = out@.map_values(|s: String| s@);
        let (a, b) = trim_range(&v, pos, end);
        if a < b {
            let s = string_of_range(&v, a, b);
            out.push(s);
            assert(out@.map_values(|s: String| s@) =~= before.push(trim(piece)));
            assert(before.push(trim(piece)) + statements_of(rest) =~= before + (seq![trim(piece)]
                + statements_of(rest)));
        } else {
            assert(before + (Seq::<Seq<char>>::empty() + statements_of(rest)) =~= before
                + statements_of(rest));
        }
        if end == n {
            assert(statements_of(rest) =~= Seq::<Seq<char>>::empty());
            assert(out@.map_values(|s: String| s@) + Seq::<Seq<char>>::empty() =~= out@.map_values(
                |s: String| s@,
            ));
            return out;
        }
        pos = end + 1;
    }
}

} // verus!
