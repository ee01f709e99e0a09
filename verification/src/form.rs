//! Form data: `key=value` pairs separated by `&`.

use vstd::prelude::*;
use crate::text::{
    find_char, first_index, lemma_first_index, piece, pieces_at, ranges_within, split,
    split_ranges, substring, to_chars,
};

verus! {

/// A key and its value.
pub type PairView = (Seq<char>, Seq<char>);

/// One piece of form data cut at its first `=`: the key before it, the value
/// behind it. A piece without `=` is a key with an empty value.
pub open spec fn form_pair(piece: Seq<char>) -> PairView {
    let i = first_index(piece, '=');
    if 0 <= i < piece.len() {
        (piece.take(i), piece.skip(i + 1))
    } else {
        (piece, Seq::<char>::empty())
    }
}

/// The pairs of a form data text: one for each piece between `&`s, in order.
pub open spec fn form_pairs(data: Seq<char>) -> Seq<PairView> {
    split(data, '&').map_values(|piece: Seq<char>| form_pair(piece))
}

/// The views of a list of pairs, in order.
pub open spec fn pairs_view(pairs: Seq<(String, String)>) -> Seq<PairView> {
    pairs.map_values(|p: (String, String)| (p.0@, p.1@))
}

/// Every form data text has at least one pair, the empty text too.
pub proof fn lemma_form_pairs_len(data: Seq<char>)
    ensures
        form_pairs(data).len() == split(data, '&').len(),
        form_pairs(data).len() >= 1,
{
}

/// A piece without `=` is a key with an empty value; a piece with one gives
/// back the piece when key, `=` and value are joined.
pub proof fn lemma_form_pair_parts(piece: Seq<char>)
    ensures
        !piece.contains('=') ==> form_pair(piece) == (piece, Seq::<char>::empty()),
        piece.contains('=') ==> form_pair(piece).0 + seq!['='] + form_pair(piece).1 == piece,
        !form_pair(piece).0.contains('='),
{
    lemma_first_index(piece, '=');
}

/// Splits form data into its pairs.
pub fn parse_form_data(data: &str) -> (r: Vec<(String, String)>)
    ensures
        pairs_view(r@) == form_pairs(data@),
{
    let chars = to_chars(data);
    let s = chars.as_slice();
    let ranges = split_ranges(s, '&');
    let ghost pieces = split(data@, '&');
    let mut out: Vec<(String, String)> = Vec::new();
    let mut k: usize = 0;
    while k < ranges.len()
        invariant
            k <= ranges@.len(),
            s@ == data@,
            pieces == split(data@, '&'),
            pieces_at(s@, ranges@) == pieces,
            ranges_within(ranges@, s@.len()),
            out@.len() == k,
            forall|j: int| 0 <= j < k ==> (#[trigger] out@[j]).0@ == form_pair(pieces[j]).0 && out@[j].1@
                == form_pair(pieces[j]).1,
        decreases ranges@.len() - k,
    {
        let (from, to) = ranges[k];
        let part = piece(s, ranges[k]);
        let eq = find_char(part, '=');
        let key = substring(data, from, from + eq);
        let value = if eq < part.len() {
            substring(data, from + eq + 1, to)
        } else {
            substring(data, to, to)
        };
        out.push((key, value));
        k += 1;
    }
    out
}

} // verus!
