//! The body of the batch request: the blocks as one JSON array.

use vstd::prelude::*;

verus! {

/// `[`
pub const ARRAY_OPEN: u8 = 0x5b;

/// `]`
pub const ARRAY_CLOSE: u8 = 0x5d;

/// `,`
pub const ARRAY_SEPARATOR: u8 = 0x2c;

/// The items in order, with a separator between neighbours.
pub open spec fn separated(items: Seq<Seq<u8>>) -> Seq<u8>
    decreases items.len(),
{
    if items.len() == 0 {
        Seq::empty()
    } else if items.len() == 1 {
        items[0]
    } else {
        separated(items.drop_last()) + seq![ARRAY_SEPARATOR] + items.last()
    }
}

/// The compact JSON array whose elements are the given JSON texts, in order.
pub open spec fn json_array_of(items: Seq<Seq<u8>>) -> Seq<u8> {
    seq![ARRAY_OPEN] + separated(items) + seq![ARRAY_CLOSE]
}

/// Frames JSON texts as one compact JSON array, keeping their order. The
/// texts themselves are taken as they are.
pub fn json_array(items: &Vec<Vec<u8>>) -> (body: Vec<u8>)
    ensures
        body@ == json_array_of(items.deep_view()),
{
    let ghost texts = items.deep_view();
    let mut body: Vec<u8> = Vec::new();
    body.push(ARRAY_OPEN);
    let mut i: usize = 0;
    while i < items.len()
        invariant
            i <= items.len(),
            texts == items.deep_view(),
            body@ == seq![ARRAY_OPEN] + separated(texts.take(i as int)),
        decreases items.len() - i,
    {
        if i > 0 {
            body.push(ARRAY_SEPARATOR);
        }
        let item = &items[i];
        let mut j: usize = 0;
        let ghost before = body@;
        while j < item.len()
            invariant
                j <= item.len(),
                body@ == before + item@.take(j as int),
            decreases item.len() - j,
        {
            body.push(item[j]);
            assert(item@.take(j + 1) =~= item@.take(j as int).push(item@[j as int]));
            j += 1;
        }
        proof {
            assert(item@.take(item.len() as int) =~= item@);
            assert(texts[i as int] =~= item@);
            let next = texts.take(i + 1);
            assert(next.drop_last() =~= texts.take(i as int));
            assert(next.last() == item@);
            if i == 0 {
                assert(separated(texts.take(0)) =~= Seq::<u8>::empty());
                assert(body@ =~= seq![ARRAY_OPEN] + separated(next));
            } else {
                assert(body@ =~= seq![ARRAY_OPEN] + separated(next));
            }
        }
        i += 1;
    }
    body.push(ARRAY_CLOSE);
    proof {
        assert(texts.take(items.len() as int) =~= texts);
        assert(body@ =~= json_array_of(texts));
    }
    body
}

} // verus!
