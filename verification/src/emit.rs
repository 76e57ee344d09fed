//! Writing a whole file: signature and version, header length, header, and
//! payload.

use crate::byte_order::{
    decode, lemma_decode_encode, lemma_encode_len, little_endian, push_little_endian, ByteOrder,
};
use crate::ascii::lemma_ascii_bytes;
use crate::element::{lemma_code, lemma_code_injective, lemma_limits, Element, ElementType};
use crate::header::{
    build_header_for, header_text, lemma_header_injective, lemma_header_layout, shape_text,
};
use crate::serializeable::{
    bits_of, fits, lemma_payload_injective, lemma_payload_len, lemma_reshaped, lemma_scalar,
    payload, reshape, write_elements, Serializeable,
};
use crate::shape::{checked_count, element_count};
use vstd::prelude::*;
use vstd::string::StringSliceAdditionalSpecFns;

verus! {

/// The longest header that the two-byte length field can announce.
pub const MAX_HEADER_LEN: usize = 0xffff;

/// Why an array was not written.
#[derive(Clone, Copy, Debug, PartialEq, Eq, Structural)]
pub enum SaveError {
    /// The header text is longer than the length field can announce.
    HeaderTooLong,
    /// The shape does not hold as many elements as the array has.
    ShapeMismatch,
}

/// The first eight bytes of every file: the signature, then the format
/// version, major 1 and minor 0.
pub open spec fn signature() -> Seq<u8> {
    seq![0x93u8] + "NUMPY".spec_bytes() + seq![1u8, 0u8]
}

/// The bytes of the file of an array: the signature and version, the length
/// of the header as two bytes, least significant first, the header, and the
/// payload.
pub open spec fn file_bytes(
    order: ByteOrder,
    ty: ElementType,
    shape: Seq<usize>,
    items: Seq<nat>,
) -> Seq<u8> {
    let header = header_text(order, ty.spec_code(), shape);
    signature() + little_endian(2, header.len()) + header + payload(order, ty.spec_width(), items)
}

/// The length of the header of an array, which is the same in either byte
/// order.
pub open spec fn header_len(ty: ElementType, shape: Seq<usize>) -> nat {
    header_text(ByteOrder::Little, ty.spec_code(), shape).len()
}

/// The header is as long in one byte order as in the other.
pub proof fn lemma_header_len(order: ByteOrder, ty: ElementType, shape: Seq<usize>)
    ensures
        header_text(order, ty.spec_code(), shape).len() == header_len(ty, shape),
{
}

/// Why an array of `count` elements of the given type cannot be written
/// under the given shape, if it cannot: its header is too long for the
/// length field, or else the shape holds another number of elements.
pub open spec fn rejection(ty: ElementType, shape: Seq<usize>, count: nat) -> Option<SaveError> {
    if header_len(ty, shape) > MAX_HEADER_LEN {
        Some(SaveError::HeaderTooLong)
    } else if element_count(shape) != count {
        Some(SaveError::ShapeMismatch)
    } else {
        None
    }
}

/// The signature is the byte `0x93`, the letters `NUMPY`, and the version
/// bytes 1 and 0.
pub proof fn lemma_signature()
    ensures
        signature() == seq![0x93u8, 0x4e, 0x55, 0x4d, 0x50, 0x59, 1, 0],
{
    reveal_strlit("NUMPY");
    lemma_ascii_bytes("NUMPY");
    assert(signature() =~= seq![0x93u8, 0x4e, 0x55, 0x4d, 0x50, 0x59, 1, 0]);
}

/// Where the parts of a file stand, for a header that fits the length
/// field: the signature and version in the first eight bytes; the length
/// field in the next two, which read least significant byte first is the
/// exact length of the header; the header from offset 10; and the payload
/// from the end of the header to the end of the file.
pub proof fn lemma_file_layout(
    order: ByteOrder,
    ty: ElementType,
    shape: Seq<usize>,
    items: Seq<nat>,
)
    requires
        header_len(ty, shape) <= MAX_HEADER_LEN,
    ensures
        ({
            let file = file_bytes(order, ty, shape, items);
            let header = header_text(order, ty.spec_code(), shape);
            let body = payload(order, ty.spec_width(), items);
            let header_end: int = 10 + header.len() as int;
            &&& file.len() == header_end + items.len() * ty.spec_width()
            &&& file.subrange(0, 8) == signature()
            &&& decode(ByteOrder::Little, file.subrange(8, 10)) == header.len()
            &&& file.subrange(10, header_end) == header
            &&& file.subrange(header_end, file.len() as int) == body
        }),
{
    let file = file_bytes(order, ty, shape, items);
    let header = header_text(order, ty.spec_code(), shape);
    let body = payload(order, ty.spec_width(), items);
    let field = little_endian(2, header.len());
    lemma_signature();
    lemma_header_len(order, ty, shape);
    lemma_limits();
    lemma_encode_len(ByteOrder::Little, 2, header.len());
    lemma_decode_encode(ByteOrder::Little, 2, header.len());
    lemma_payload_len(order, ty.spec_width(), items);
    assert(file.subrange(0, 8) =~= signature());
    assert(file.subrange(8, 10) =~= field);
    let header_end: int = 10 + header.len() as int;
    assert(file.subrange(10, header_end) =~= header);
    assert(file.subrange(header_end, file.len() as int) =~= body);
}

/// What the header of a file says of the array: the byte-order tag and the
/// type code of the elements stand at offsets 21 to 24 of the file, and the
/// shape text, each dimension size in decimal with a comma after it, stands
/// from offset 61, followed by the four closing characters of the header.
pub proof fn lemma_file_header(
    order: ByteOrder,
    ty: ElementType,
    shape: Seq<usize>,
    items: Seq<nat>,
)
    requires
        header_len(ty, shape) <= MAX_HEADER_LEN,
    ensures
        ({
            let file = file_bytes(order, ty, shape, items);
            let shape_end: int = 61 + shape_text(shape).len() as int;
            &&& header_len(ty, shape) == 55 + shape_text(shape).len()
            &&& file.subrange(21, 24) == seq![order.spec_tag()] + ty.spec_code()
            &&& file.subrange(61, shape_end) == shape_text(shape)
            &&& file.subrange(shape_end, shape_end + 4) == "), }".spec_bytes()
        }),
{
    let file = file_bytes(order, ty, shape, items);
    let header = header_text(order, ty.spec_code(), shape);
    let shape_end: int = 61 + shape_text(shape).len() as int;
    lemma_file_layout(order, ty, shape, items);
    lemma_header_layout(order, ty.spec_code(), shape);
    lemma_code(ty);
    assert(file.subrange(21, 24) =~= header.subrange(11, 14));
    assert(header.subrange(11, 14) =~= seq![order.spec_tag()] + header.subrange(12, 14));
    assert(file.subrange(61, shape_end) =~= header.subrange(51, shape_end - 10));
    assert(file.subrange(shape_end, shape_end + 4) =~= header.subrange(
        shape_end - 10,
        shape_end - 6,
    ));
}

/// A file tells what it holds: two arrays whose headers fit the length field
/// and whose elements are as wide as their types say have the same file only
/// if they have the same byte order, element type, shape and elements.
pub proof fn lemma_file_injective(
    order_a: ByteOrder,
    ty_a: ElementType,
    shape_a: Seq<usize>,
    items_a: Seq<nat>,
    order_b: ByteOrder,
    ty_b: ElementType,
    shape_b: Seq<usize>,
    items_b: Seq<nat>,
)
    requires
        header_len(ty_a, shape_a) <= MAX_HEADER_LEN,
        header_len(ty_b, shape_b) <= MAX_HEADER_LEN,
        fits(ty_a.spec_width(), items_a),
        fits(ty_b.spec_width(), items_b),
        file_bytes(order_a, ty_a, shape_a, items_a) == file_bytes(order_b, ty_b, shape_b, items_b),
    ensures
        order_a == order_b,
        ty_a == ty_b,
        shape_a == shape_b,
        items_a == items_b,
{
    lemma_file_layout(order_a, ty_a, shape_a, items_a);
    lemma_file_layout(order_b, ty_b, shape_b, items_b);
    lemma_code(ty_a);
    lemma_code(ty_b);
    lemma_header_injective(
        order_a,
        ty_a.spec_code(),
        shape_a,
        order_b,
        ty_b.spec_code(),
        shape_b,
    );
    lemma_code_injective(ty_a, ty_b);
    lemma_payload_injective(order_a, ty_a.spec_width(), items_a, items_b);
}

/// Only the outermost of two shapes given to an array is seen: an array
/// reshaped twice has the element type, the shape and the elements of the
/// same array reshaped once to the second shape, so the two are written as
/// the same file or rejected for the same reason.
pub proof fn lemma_reshape_outermost<D: Serializeable>(
    data: D,
    first: Vec<usize>,
    second: Vec<usize>,
)
    ensures
        ({
            let twice = reshape(reshape(data, first), second);
            let once = reshape(data, second);
            &&& twice.element() == data.element() && once.element() == data.element()
            &&& twice.shape() == second@ && once.shape() == second@
            &&& twice.items() == data.items() && once.items() == data.items()
            &&& rejection(twice.element(), twice.shape(), twice.items().len()) == rejection(
                once.element(),
                once.shape(),
                once.items().len(),
            )
            &&& forall|order: ByteOrder|
                #![auto]
                file_bytes(order, twice.element(), twice.shape(), twice.items()) == file_bytes(
                    order,
                    once.element(),
                    once.shape(),
                    once.items(),
                )
        }),
{
    lemma_reshaped(data, first);
    lemma_reshaped(reshape(data, first), second);
    lemma_reshaped(data, second);
}

/// A single element is always written: its header is 55 bytes long, which
/// fits the length field, its shape text is empty, and its empty shape
/// holds the one element it has.
pub proof fn lemma_scalar_file<T: Element>(value: T)
    ensures
        shape_text(value.shape()) == Seq::<u8>::empty(),
        header_len(value.element(), value.shape()) == 55,
        rejection(value.element(), value.shape(), value.items().len()) is None,
{
    lemma_header_layout(ByteOrder::Little, T::kind().spec_code(), value.shape());
    lemma_code(T::kind());
    lemma_scalar(ByteOrder::Little, value);
}

/// Appends the signature, the version, the length field and the header.
fn write_preamble(header: &Vec<u8>, output: &mut Vec<u8>)
    requires
        header@.len() <= MAX_HEADER_LEN,
    ensures
        final(output)@ == old(output)@ + signature() + little_endian(2, header@.len()) + header@,
{
    output.push(0x93);
    output.extend_from_slice("NUMPY".as_bytes());
    output.push(1);
    output.push(0);
    assert(output@ =~= old(output)@ + signature());
    push_little_endian(2, header.len() as u64, output);
    output.extend_from_slice(header.as_slice());
}

/// Writes the file of `data` under `shape` in the given byte order.
///
/// Nothing is written unless the whole file can be: the header must fit the
/// length field, and the shape must hold exactly as many elements as `data`
/// has.
pub fn save_for<T: Element>(
    output: &mut Vec<u8>,
    order: ByteOrder,
    data: &[T],
    shape: &[usize],
) -> (result: Result<(), SaveError>)
    ensures
        match result {
            Ok(()) => {
                &&& rejection(T::kind(), shape@, data@.len()) is None
                &&& final(output)@ == old(output)@ + file_bytes(
                    order,
                    T::kind(),
                    shape@,
                    bits_of(data@),
                )
            },
            Err(error) => {
                &&& rejection(T::kind(), shape@, data@.len()) == Some(error)
                &&& final(output)@ == old(output)@
            },
        },
{
    let header = build_header_for(order, shape, T::element_type().code());
    proof {
        lemma_header_len(order, T::kind(), shape@);
    }
    if header.len() > MAX_HEADER_LEN {
        return Err(SaveError::HeaderTooLong);
    }
    let len = data.len();
    match checked_count(shape) {
        Some(count) => {
            if count != len {
                return Err(SaveError::ShapeMismatch);
            }
        },
        None => {
            return Err(SaveError::ShapeMismatch);
        },
    }
    write_preamble(&header, output);
    write_elements(data, order, output);
    Ok(())
}

/// Writes the file of `data` under `shape` in the byte order of this
/// machine.
///
/// The file is that of one of the two byte orders; `save_for` says which
/// file belongs to which.
pub fn save<T: Element>(output: &mut Vec<u8>, data: &[T], shape: &[usize]) -> (result: Result<
    (),
    SaveError,
>)
    ensures
        match result {
            Ok(()) => {
                &&& rejection(T::kind(), shape@, data@.len()) is None
                &&& {
                    ||| final(output)@ == old(output)@ + file_bytes(
                        ByteOrder::Little,
                        T::kind(),
                        shape@,
                        bits_of(data@),
                    )
                    ||| final(output)@ == old(output)@ + file_bytes(
                        ByteOrder::Big,
                        T::kind(),
                        shape@,
                        bits_of(data@),
                    )
                }
            },
            Err(error) => {
                &&& rejection(T::kind(), shape@, data@.len()) == Some(error)
                &&& final(output)@ == old(output)@
            },
        },
{
    save_for(output, ByteOrder::native(), data, shape)
}

/// Elements of `width` bytes that fill exactly as many bytes as `slots`
/// elements take are `slots` elements.
proof fn lemma_same_count(items: nat, slots: nat, width: nat)
    requires
        width >= 1,
    ensures
        items <= items * width,
        items * width == slots * width <==> items == slots,
{
    assert(items <= items * width) by (nonlinear_arith)
        requires
            width >= 1,
    ;
    assert(items * width == slots * width ==> items == slots) by (nonlinear_arith)
        requires
            width >= 1,
    ;
}

/// The element width that a type code announces: the value of its digit.
fn code_width(code: &[u8]) -> (width: usize)
    requires
        code@.len() == 2,
        0x30 <= code@[1] <= 0x39,
    ensures
        width == code@[1] - 0x30,
{
    (code[1] - 0x30) as usize
}

/// Writes the file of the array `data` in the given byte order.
///
/// The output is left as it was unless the whole file can be written: the
/// header must fit the length field, and the shape that `data` reports must
/// hold exactly as many elements as `data` writes. The elements are counted
/// as they are written, and a file whose shape turns out to be wrong is
/// taken back.
pub fn npy_for<D: Serializeable>(output: &mut Vec<u8>, order: ByteOrder, data: &D) -> (result:
    Result<(), SaveError>)
    ensures
        match result {
            Ok(()) => {
                &&& rejection(data.element(), data.shape(), data.items().len()) is None
                &&& final(output)@ == old(output)@ + file_bytes(
                    order,
                    data.element(),
                    data.shape(),
                    data.items(),
                )
            },
            Err(error) => {
                &&& rejection(data.element(), data.shape(), data.items().len()) == Some(error)
                &&& final(output)@ == old(output)@
            },
        },
{
    let code = data.data_type();
    let shape = data.data_shape();
    let header = build_header_for(order, shape.as_slice(), code);
    proof {
        lemma_header_len(order, data.element(), shape@);
        lemma_code(data.element());
    }
    if header.len() > MAX_HEADER_LEN {
        return Err(SaveError::HeaderTooLong);
    }
    let start = output.len();
    write_preamble(&header, output);
    let body = output.len();
    data.write(order, output);
    let written = output.len() - body;
    let width = code_width(code);
    let expected = match checked_count(shape.as_slice()) {
        Some(count) => count.checked_mul(width),
        None => None,
    };
    proof {
        lemma_payload_len(order, width as nat, data.items());
        lemma_same_count(data.items().len(), element_count(shape@), width as nat);
    }
    let consistent = match expected {
        Some(bytes) => bytes == written,
        None => false,
    };
    if !consistent {
        output.truncate(start);
        assert(output@ =~= old(output)@);
        return Err(SaveError::ShapeMismatch);
    }
    Ok(())
}

/// Writes the file of the array `data` in the byte order of this machine.
///
/// The file is that of one of the two byte orders; `npy_for` says which
/// file belongs to which.
pub fn npy<D: Serializeable>(output: &mut Vec<u8>, data: &D) -> (result: Result<(), SaveError>)
    ensures
        match result {
            Ok(()) => {
                &&& rejection(data.element(), data.shape(), data.items().len()) is None
                &&& {
                    ||| final(output)@ == old(output)@ + file_bytes(
                        ByteOrder::Little,
                        data.element(),
                        data.shape(),
                        data.items(),
                    )
                    ||| final(output)@ == old(output)@ + file_bytes(
                        ByteOrder::Big,
                        data.element(),
                        data.shape(),
                        data.items(),
                    )
                }
            },
            Err(error) => {
                &&& rejection(data.element(), data.shape(), data.items().len()) == Some(error)
                &&& final(output)@ == old(output)@
            },
        },
{
    npy_for(output, ByteOrder::native(), data)
}

} // verus!
