//! The textual header of a file: a dictionary that names the element type,
//! the memory order and the shape.

use crate::ascii::lemma_ascii_bytes;
use crate::byte_order::ByteOrder;
use crate::decimal::{decimal, is_digits, lemma_decimal_digits, lemma_decimal_value, push_decimal};
use vstd::prelude::*;
use vstd::string::StringSliceAdditionalSpecFns;

verus! {

/// The text of a shape between the brackets of its tuple: each dimension
/// size in decimal, each followed by a comma. The empty shape has the empty
/// text, and a single dimension `n` has the text `n,`.
pub open spec fn shape_text(shape: Seq<usize>) -> Seq<u8>
    decreases shape.len(),
{
    if shape.len() == 0 {
        Seq::empty()
    } else {
        shape_text(shape.drop_last()) + decimal(shape.last() as nat) + seq![0x2cu8]
    }
}

/// The header text of an array in C order with the given byte order, type
/// code and shape. Nothing pads it to an alignment boundary.
pub open spec fn header_text(order: ByteOrder, data_type: Seq<u8>, shape: Seq<usize>) -> Seq<u8> {
    "{'descr': '".spec_bytes() + seq![order.spec_tag()] + data_type
        + "', 'fortran_order': False, 'shape': (".spec_bytes() + shape_text(shape)
        + "), }".spec_bytes()
}

/// The fixed parts of the header are 11, 37 and 4 bytes long.
pub proof fn lemma_fixed_parts()
    ensures
        "{'descr': '".spec_bytes().len() == 11,
        "', 'fortran_order': False, 'shape': (".spec_bytes().len() == 37,
        "), }".spec_bytes().len() == 4,
{
    reveal_strlit("{'descr': '");
    reveal_strlit("', 'fortran_order': False, 'shape': (");
    reveal_strlit("), }");
    lemma_ascii_bytes("{'descr': '");
    lemma_ascii_bytes("', 'fortran_order': False, 'shape': (");
    lemma_ascii_bytes("), }");
}

/// Where the parts of a header stand: the opening text, the byte-order tag
/// at offset 11, the type code from offset 12, the middle text, the shape
/// text, and the closing text in the last four bytes.
pub proof fn lemma_header_layout(order: ByteOrder, data_type: Seq<u8>, shape: Seq<usize>)
    ensures
        ({
            let header = header_text(order, data_type, shape);
            let code_end: int = 12 + data_type.len() as int;
            let shape_start: int = code_end + 37;
            let shape_end: int = shape_start + shape_text(shape).len();
            &&& header.len() == shape_end + 4
            &&& header.subrange(0, 11) == "{'descr': '".spec_bytes()
            &&& header[11] == order.spec_tag()
            &&& header.subrange(12, code_end) == data_type
            &&& header.subrange(code_end, shape_start)
                == "', 'fortran_order': False, 'shape': (".spec_bytes()
            &&& header.subrange(shape_start, shape_end) == shape_text(shape)
            &&& header.subrange(shape_end, shape_end + 4) == "), }".spec_bytes()
        }),
{
    lemma_fixed_parts();
}

/// The shape text of a scalar is empty, so its tuple reads `()`; that of a
/// single dimension is its size and a comma, so its tuple reads `(n,)`.
pub proof fn lemma_shape_text_small(n: usize)
    ensures
        shape_text(Seq::empty()) == Seq::<u8>::empty(),
        shape_text(seq![n]) == decimal(n as nat) + seq![0x2cu8],
{
    assert(seq![n].drop_last() =~= Seq::empty());
}

/// The shape text of a shape that is not empty is the shape text of the
/// dimensions before the last, the digits of the last size, and a comma.
proof fn lemma_shape_text_end(shape: Seq<usize>)
    requires
        shape.len() > 0,
    ensures
        ({
            let text = shape_text(shape);
            let front = shape_text(shape.drop_last());
            let digits = decimal(shape.last() as nat);
            &&& text.len() == front.len() + digits.len() + 1
            &&& digits.len() >= 1
            &&& is_digits(digits)
            &&& text.last() == 0x2c
            &&& text.subrange(0, front.len() as int) == front
            &&& text.subrange(front.len() as int, text.len() - 1) == digits
        }),
{
    let text = shape_text(shape);
    let front = shape_text(shape.drop_last());
    let digits = decimal(shape.last() as nat);
    lemma_decimal_digits(shape.last() as nat);
    assert(text.subrange(0, front.len() as int) =~= front);
    assert(text.subrange(front.len() as int, text.len() - 1) =~= digits);
}

/// The shape text tells the shape: two shapes with the same text are the
/// same shape.
pub proof fn lemma_shape_text_injective(a: Seq<usize>, b: Seq<usize>)
    requires
        shape_text(a) == shape_text(b),
    ensures
        a == b,
    decreases a.len(),
{
    if a.len() == 0 || b.len() == 0 {
        if a.len() > 0 {
            lemma_shape_text_end(a);
        }
        if b.len() > 0 {
            lemma_shape_text_end(b);
        }
        assert(a =~= b);
    } else {
        let text = shape_text(a);
        let front_a = shape_text(a.drop_last());
        let front_b = shape_text(b.drop_last());
        let digits_a = decimal(a.last() as nat);
        let digits_b = decimal(b.last() as nat);
        lemma_shape_text_end(a);
        lemma_shape_text_end(b);
        if front_a.len() > front_b.len() {
            // The comma that ends the front of `a` would be a digit of `b`.
            lemma_shape_text_end(a.drop_last());
            let at = front_a.len() - 1;
            assert(text[at] == front_a[at]);
            assert(text[at] == digits_b[at - front_b.len()]);
            assert(false);
        }
        if front_b.len() > front_a.len() {
            lemma_shape_text_end(b.drop_last());
            let at = front_b.len() - 1;
            assert(text[at] == front_b[at]);
            assert(text[at] == digits_a[at - front_a.len()]);
            assert(false);
        }
        assert(front_a == front_b);
        assert(digits_a == digits_b);
        lemma_decimal_value(a.last() as nat);
        lemma_decimal_value(b.last() as nat);
        lemma_shape_text_injective(a.drop_last(), b.drop_last());
        assert(a =~= a.drop_last().push(a.last()));
        assert(b =~= b.drop_last().push(b.last()));
    }
}

/// The header tells what it was built from: two headers with type codes of
/// the same length are the same text only for the same byte order, the same
/// type code and the same shape.
pub proof fn lemma_header_injective(
    order_a: ByteOrder,
    data_type_a: Seq<u8>,
    shape_a: Seq<usize>,
    order_b: ByteOrder,
    data_type_b: Seq<u8>,
    shape_b: Seq<usize>,
)
    requires
        data_type_a.len() == data_type_b.len(),
        header_text(order_a, data_type_a, shape_a) == header_text(order_b, data_type_b, shape_b),
    ensures
        order_a == order_b,
        data_type_a == data_type_b,
        shape_a == shape_b,
{
    lemma_header_layout(order_a, data_type_a, shape_a);
    lemma_header_layout(order_b, data_type_b, shape_b);
    lemma_shape_text_injective(shape_a, shape_b);
}

/// Builds the header text for the given byte order.
pub fn build_header_for(order: ByteOrder, shape: &[usize], data_type: &[u8]) -> (header: Vec<u8>)
    ensures
        header@ == header_text(order, data_type@, shape@),
{
    let mut header: Vec<u8> = Vec::new();
    header.extend_from_slice("{'descr': '".as_bytes());
    header.push(order.tag());
    header.extend_from_slice(data_type);
    header.extend_from_slice("', 'fortran_order': False, 'shape': (".as_bytes());
    let ghost front = header@;
    let mut i: usize = 0;
    while i < shape.len()
        invariant
            i <= shape.len(),
            header@ == front + shape_text(shape@.take(i as int)),
        decreases shape.len() - i,
    {
        let ghost before = header@;
        push_decimal(shape[i], &mut header);
        header.push(0x2c);
        proof {
            let done = shape@.take(i as int);
            let next = shape@.take(i + 1);
            assert(next.drop_last() =~= done);
            assert(header@ =~= front + shape_text(next));
        }
        i = i + 1;
    }
    proof {
        assert(shape@.take(i as int) =~= shape@);
    }
    header.extend_from_slice("), }".as_bytes());
    header
}

/// Builds the header text for the byte order of this machine.
///
/// The text is that of one of the two byte orders; `build_header_for` says
/// which text belongs to which.
pub fn build_header(shape: &[usize], data_type: &[u8]) -> (header: Vec<u8>)
    ensures
        header@ == header_text(ByteOrder::Little, data_type@, shape@) || header@ == header_text(
            ByteOrder::Big,
            data_type@,
            shape@,
        ),
{
    build_header_for(ByteOrder::native(), shape, data_type)
}

} // verus!
