use vstd::prelude::*;

verus! {

/// The content of one complete compressed frame, decoded with the given
/// dictionary, or `None` if the bytes are not one complete valid frame.
///
/// This names what the decompression engine computes: decoding is a pure
/// function of the frame bytes and the dictionary. The name is given meaning
/// only by the contracts of the trusted engine bindings in `raw`.
pub uninterp spec fn frame_content(frame: Seq<u8>, dict: Seq<u8>) -> Option<Seq<u8>>;

/// The input halves of a list of (input, output) exchange units, concatenated.
pub open spec fn concat_ins(units: Seq<(Seq<u8>, Seq<u8>)>) -> Seq<u8>
    decreases units.len(),
{
    if units.len() == 0 {
        Seq::empty()
    } else {
        concat_ins(units.drop_last()) + units.last().0
    }
}

/// The output halves of a list of (input, output) exchange units, concatenated.
pub open spec fn concat_outs(units: Seq<(Seq<u8>, Seq<u8>)>) -> Seq<u8>
    decreases units.len(),
{
    if units.len() == 0 {
        Seq::empty()
    } else {
        concat_outs(units.drop_last()) + units.last().1
    }
}

/// Every unit in the list is a complete frame together with its decoded
/// content.
pub open spec fn frame_units_ok(dict: Seq<u8>, units: Seq<(Seq<u8>, Seq<u8>)>) -> bool {
    forall|i: int|
        0 <= i < units.len() ==> frame_content(#[trigger] units[i].0, dict) == Some(units[i].1)
}

/// `data` splits into complete frames whose decoded contents concatenate to
/// `out`. This is what decoding a whole stream yields.
pub open spec fn decodes_to(data: Seq<u8>, dict: Seq<u8>, out: Seq<u8>) -> bool {
    exists|units: Seq<(Seq<u8>, Seq<u8>)>|
        frame_units_ok(dict, units) && #[trigger] concat_ins(units) == data && concat_outs(units)
            == out
}

pub proof fn lemma_concat_ins_push(units: Seq<(Seq<u8>, Seq<u8>)>, u: (Seq<u8>, Seq<u8>))
    ensures
        concat_ins(units.push(u)) == concat_ins(units) + u.0,
        concat_outs(units.push(u)) == concat_outs(units) + u.1,
{
    assert(units.push(u).drop_last() =~= units);
}

/// An empty stream decodes to empty output: zero frames.
pub proof fn lemma_decodes_empty(dict: Seq<u8>)
    ensures
        decodes_to(Seq::empty(), dict, Seq::empty()),
{
    let units: Seq<(Seq<u8>, Seq<u8>)> = Seq::empty();
    assert(frame_units_ok(dict, units) && concat_ins(units) == Seq::<u8>::empty()
        && concat_outs(units) == Seq::<u8>::empty());
}

/// One complete frame decodes to exactly its content.
pub proof fn lemma_decodes_single_frame(frame: Seq<u8>, dict: Seq<u8>, content: Seq<u8>)
    requires
        frame_content(frame, dict) == Some(content),
    ensures
        decodes_to(frame, dict, content),
{
    let units: Seq<(Seq<u8>, Seq<u8>)> = Seq::empty().push((frame, content));
    lemma_concat_ins_push(Seq::empty(), (frame, content));
    assert(concat_ins(units) =~= frame);
    assert(concat_outs(units) =~= content);
}

/// Concatenating two decodable streams gives a decodable stream whose content
/// is the concatenation of the two contents: decoding a stream of several
/// frames yields the concatenation of the frames' contents.
pub proof fn lemma_decodes_concat(a: Seq<u8>, b: Seq<u8>, dict: Seq<u8>, x: Seq<u8>, y: Seq<u8>)
    requires
        decodes_to(a, dict, x),
        decodes_to(b, dict, y),
    ensures
        decodes_to(a + b, dict, x + y),
{
    let ua = choose|ua: Seq<(Seq<u8>, Seq<u8>)>|
        frame_units_ok(dict, ua) && #[trigger] concat_ins(ua) == a && concat_outs(ua) == x;
    let ub = choose|ub: Seq<(Seq<u8>, Seq<u8>)>|
        frame_units_ok(dict, ub) && #[trigger] concat_ins(ub) == b && concat_outs(ub) == y;
    lemma_concat_units(ua, ub);
    assert(frame_units_ok(dict, ua + ub)) by {
        assert forall|i: int| 0 <= i < (ua + ub).len() implies frame_content(
            #[trigger] (ua + ub)[i].0,
            dict,
        ) == Some((ua + ub)[i].1) by {
            if i < ua.len() {
                assert((ua + ub)[i] == ua[i]);
            } else {
                assert((ua + ub)[i] == ub[i - ua.len()]);
            }
        }
    }
}

proof fn lemma_concat_units(a: Seq<(Seq<u8>, Seq<u8>)>, b: Seq<(Seq<u8>, Seq<u8>)>)
    ensures
        concat_ins(a + b) == concat_ins(a) + concat_ins(b),
        concat_outs(a + b) == concat_outs(a) + concat_outs(b),
    decreases b.len(),
{
    if b.len() == 0 {
        assert(a + b =~= a);
        assert(concat_ins(a) + concat_ins(b) =~= concat_ins(a));
        assert(concat_outs(a) + concat_outs(b) =~= concat_outs(a));
    } else {
        lemma_concat_units(a, b.drop_last());
        assert((a + b).drop_last() =~= a + b.drop_last());
        assert(concat_ins(a) + concat_ins(b.drop_last()) + b.last().0 =~= concat_ins(a) + (
        concat_ins(b.drop_last()) + b.last().0));
        assert(concat_outs(a) + concat_outs(b.drop_last()) + b.last().1 =~= concat_outs(a) + (
        concat_outs(b.drop_last()) + b.last().1));
    }
}

} // verus!
