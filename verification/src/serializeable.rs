//! What can be written as an array: a value that tells its element type and
//! its shape, and writes its elements in row-major order.

use crate::byte_order::{
    decode, encode, lemma_decode_encode, lemma_encode_len, limit, push_word, ByteOrder,
};
use crate::element::{Element, ElementType};
use crate::shape::{element_count, lemma_count_one, lemma_count_two};
use vstd::prelude::*;

verus! {

/// The payload of an array: the words of its elements, each `width` bytes in
/// the given byte order, one after the other with nothing between them.
pub open spec fn payload(order: ByteOrder, width: nat, items: Seq<nat>) -> Seq<u8>
    decreases items.len(),
{
    if items.len() == 0 {
        Seq::empty()
    } else {
        payload(order, width, items.drop_last()) + encode(order, width, items.last())
    }
}

/// The payload of `n` elements is `n` times the element width long.
pub proof fn lemma_payload_len(order: ByteOrder, width: nat, items: Seq<nat>)
    ensures
        payload(order, width, items).len() == items.len() * width,
    decreases items.len(),
{
    if items.len() > 0 {
        lemma_payload_len(order, width, items.drop_last());
        lemma_encode_len(order, width, items.last());
        assert((items.len() - 1) * width + width == items.len() * width) by (nonlinear_arith);
    } else {
        assert(0 * width == 0) by (nonlinear_arith);
    }
}

/// The payload of one more element is the payload so far and the bytes of
/// that element.
pub proof fn lemma_payload_push(order: ByteOrder, width: nat, items: Seq<nat>, item: nat)
    ensures
        payload(order, width, items.push(item)) == payload(order, width, items) + encode(
            order,
            width,
            item,
        ),
{
    assert(items.push(item).drop_last() =~= items);
}

/// The payload has no gaps: the bytes of element `i` stand at offset `i`
/// times the element width.
pub proof fn lemma_payload_chunk(order: ByteOrder, width: nat, items: Seq<nat>, i: int)
    requires
        0 <= i < items.len(),
    ensures
        i * width + width <= payload(order, width, items).len(),
        payload(order, width, items).subrange(i * width, i * width + width) == encode(
            order,
            width,
            items[i],
        ),
    decreases items.len(),
{
    let front = items.drop_last();
    let head = payload(order, width, front);
    let tail = encode(order, width, items.last());
    lemma_payload_len(order, width, front);
    lemma_encode_len(order, width, items.last());
    if i == items.len() - 1 {
        assert((head + tail).subrange(i * width, i * width + width) =~= tail);
    } else {
        lemma_payload_chunk(order, width, front, i);
        assert((head + tail).subrange(i * width, i * width + width) =~= head.subrange(
            i * width,
            i * width + width,
        ));
    }
}

/// Whether every item is a word of `width` bytes.
pub open spec fn fits(width: nat, items: Seq<nat>) -> bool {
    forall|i: int| 0 <= i < items.len() ==> #[trigger] items[i] < limit(width)
}

/// The payload tells the elements: words of the same width, one byte or
/// more, with the same payload in the same byte order are the same words.
pub proof fn lemma_payload_injective(order: ByteOrder, width: nat, a: Seq<nat>, b: Seq<nat>)
    requires
        width >= 1,
        fits(width, a),
        fits(width, b),
        payload(order, width, a) == payload(order, width, b),
    ensures
        a == b,
{
    lemma_payload_len(order, width, a);
    lemma_payload_len(order, width, b);
    assert(a.len() * width == b.len() * width ==> a.len() == b.len()) by (nonlinear_arith)
        requires
            width >= 1,
    ;
    assert forall|i: int| 0 <= i < a.len() implies a[i] == b[i] by {
        lemma_payload_chunk(order, width, a, i);
        lemma_payload_chunk(order, width, b, i);
        lemma_decode_encode(order, width, a[i]);
        lemma_decode_encode(order, width, b[i]);
    }
    assert(a =~= b);
}

/// A value that can be written as an array.
///
/// Its model is an element type, a shape, and its elements in row-major
/// order, each as the bit pattern that the element type gives it.
pub trait Serializeable {
    /// The element type of the array.
    spec fn element(&self) -> ElementType;

    /// The shape of the array, outermost dimension first.
    spec fn shape(&self) -> Seq<usize>;

    /// The bit patterns of the elements, in row-major order.
    spec fn items(&self) -> Seq<nat>;

    /// Every bit pattern is as wide as the element type says.
    proof fn lemma_items_fit(&self)
        ensures
            fits(self.element().spec_width(), self.items()),
    ;

    /// The type code of the elements of the array.
    fn data_type(&self) -> (code: &'static [u8])
        ensures
            code@ == self.element().spec_code(),
    ;

    /// The shape of the array, outermost dimension first.
    fn data_shape(&self) -> (shape: Vec<usize>)
        ensures
            shape@ == self.shape(),
    ;

    /// Appends the payload of the array in the given byte order.
    fn write(&self, order: ByteOrder, output: &mut Vec<u8>)
        ensures
            final(output)@ == old(output)@ + payload(
                order,
                self.element().spec_width(),
                self.items(),
            ),
    ;
}

/// A single element is an array of no dimensions.
impl<T: Element> Serializeable for T {
    open spec fn element(&self) -> ElementType {
        T::kind()
    }

    open spec fn shape(&self) -> Seq<usize> {
        Seq::empty()
    }

    open spec fn items(&self) -> Seq<nat> {
        seq![self.bits()]
    }

    proof fn lemma_items_fit(&self) {
        self.lemma_bits();
    }

    fn data_type(&self) -> (code: &'static [u8]) {
        T::element_type().code()
    }

    fn data_shape(&self) -> (shape: Vec<usize>) {
        Vec::new()
    }

    fn write(&self, order: ByteOrder, output: &mut Vec<u8>) {
        proof {
            lemma_payload_push(order, T::kind().spec_width(), Seq::empty(), self.bits());
        }
        push_word(order, T::element_type().width(), self.word(), output);
    }
}

/// The bit patterns of a sequence of elements.
pub open spec fn bits_of<T: Element>(values: Seq<T>) -> Seq<nat> {
    Seq::new(values.len(), |i: int| values[i].bits())
}

/// The bit patterns of elements are as wide as their element type says.
pub proof fn lemma_bits_fit<T: Element>(values: Seq<T>)
    ensures
        fits(T::kind().spec_width(), bits_of(values)),
{
    assert forall|i: int| 0 <= i < values.len() implies #[trigger] bits_of(values)[i] < limit(
        T::kind().spec_width(),
    ) by {
        values[i].lemma_bits();
    }
}

/// Appends the payload of a sequence of elements in the given byte order.
pub fn write_elements<T: Element>(values: &[T], order: ByteOrder, output: &mut Vec<u8>)
    ensures
        final(output)@ == old(output)@ + payload(order, T::kind().spec_width(), bits_of(values@)),
{
    let width = T::element_type().width();
    let mut i: usize = 0;
    while i < values.len()
        invariant
            i <= values.len(),
            width == T::kind().spec_width(),
            output@ == old(output)@ + payload(
                order,
                T::kind().spec_width(),
                bits_of(values@.take(i as int)),
            ),
        decreases values.len() - i,
    {
        proof {
            let done = bits_of(values@.take(i as int));
            assert(bits_of(values@.take(i + 1)) =~= done.push(values@[i as int].bits()));
            lemma_payload_push(order, T::kind().spec_width(), done, values@[i as int].bits());
        }
        push_word(order, width, values[i].word(), output);
        i = i + 1;
    }
    proof {
        assert(values@.take(i as int) =~= values@);
    }
}

/// The payload of a sequence of elements can be read back: it is as long as
/// the elements are wide, the bytes of element `i` stand at offset `i` times
/// the width, and decoding them in the same byte order gives the bit pattern
/// of that element, which determines the element.
pub proof fn lemma_elements_read_back<T: Element>(order: ByteOrder, values: Seq<T>, i: int)
    requires
        0 <= i < values.len(),
    ensures
        ({
            let width = T::kind().spec_width();
            let body = payload(order, width, bits_of(values));
            let chunk = body.subrange(i * width, i * width + width);
            &&& body.len() == values.len() * width
            &&& chunk == encode(order, width, values[i].bits())
            &&& decode(order, chunk) == values[i].bits()
            &&& T::of_bits(decode(order, chunk)) == values[i]
        }),
{
    let width = T::kind().spec_width();
    lemma_payload_len(order, width, bits_of(values));
    lemma_payload_chunk(order, width, bits_of(values), i);
    values[i].lemma_bits();
    lemma_decode_encode(order, width, values[i].bits());
}

/// A single element is a scalar: its shape is empty, which holds exactly the
/// one element it has, and its payload is the bytes of that element alone,
/// as many as the element is wide.
pub proof fn lemma_scalar<T: Element>(order: ByteOrder, value: T)
    ensures
        value.shape() == Seq::<usize>::empty(),
        element_count(value.shape()) == 1,
        value.items().len() == 1,
        payload(order, T::kind().spec_width(), value.items()) == encode(
            order,
            T::kind().spec_width(),
            value.bits(),
        ),
        payload(order, T::kind().spec_width(), value.items()).len() == T::kind().spec_width(),
{
    lemma_payload_push(order, T::kind().spec_width(), Seq::empty(), value.bits());
    lemma_encode_len(order, T::kind().spec_width(), value.bits());
    assert(value.items() =~= Seq::<nat>::empty().push(value.bits()));
}

/// The shape of a slice holds exactly the elements of the slice.
pub proof fn lemma_slice_shape<T: Element>(values: &[T])
    ensures
        element_count(values.shape()) == values.items().len(),
{
    lemma_count_one(values.shape());
}

/// A slice of elements is an array of one dimension.
impl<'a, T: Element> Serializeable for &'a [T] {
    open spec fn element(&self) -> ElementType {
        T::kind()
    }

    open spec fn shape(&self) -> Seq<usize> {
        seq![self.len()]
    }

    open spec fn items(&self) -> Seq<nat> {
        bits_of(self@)
    }

    proof fn lemma_items_fit(&self) {
        lemma_bits_fit(self@);
    }

    fn data_type(&self) -> (code: &'static [u8]) {
        T::element_type().code()
    }

    fn data_shape(&self) -> (shape: Vec<usize>) {
        let mut shape: Vec<usize> = Vec::new();
        shape.push(self.len());
        shape
    }

    fn write(&self, order: ByteOrder, output: &mut Vec<u8>) {
        write_elements(*self, order, output);
    }
}

/// The bit patterns of the elements of rows of `N` elements each, in
/// row-major order: the element in column `c` of row `r` stands at position
/// `r * N + c`.
pub open spec fn bits_of_rows<T: Element, const N: usize>(rows: Seq<[T; N]>) -> Seq<nat> {
    Seq::new(rows.len() * (N as nat), |k: int| rows[k / (N as int)]@[k % (N as int)].bits())
}

/// Position `r * n + c` lies in row `r` and column `c` of a grid of `rows`
/// rows and `n` columns.
pub proof fn lemma_row_major(rows: int, n: int, r: int, c: int)
    requires
        0 <= r < rows,
        0 <= c < n,
    ensures
        0 <= r * n + c < rows * n,
        (r * n + c) / n == r,
        (r * n + c) % n == c,
{
    assert(0 <= r * n && r * n + n <= rows * n) by (nonlinear_arith)
        requires
            0 <= r < rows,
            0 < n,
    ;
    vstd::arithmetic::div_mod::lemma_fundamental_div_mod_converse(r * n + c, n, r, c);
}

/// Rows are written row-major: there are rows times `N` elements, and the
/// element in column `c` of row `r` is element `r * N + c`.
pub proof fn lemma_rows_row_major<T: Element, const N: usize>(rows: Seq<[T; N]>, r: int, c: int)
    requires
        0 <= r < rows.len(),
        0 <= c < N,
    ensures
        bits_of_rows(rows).len() == rows.len() * N,
        0 <= r * N + c < bits_of_rows(rows).len(),
        bits_of_rows(rows)[r * N + c] == rows[r]@[c].bits(),
{
    lemma_row_major(rows.len() as int, N as int, r, c);
}

/// The shape of a slice of rows holds exactly the elements of the rows.
pub proof fn lemma_rows_shape<T: Element, const N: usize>(rows: &[[T; N]])
    ensures
        element_count(rows.shape()) == rows.items().len(),
{
    lemma_count_two(rows.shape());
}

/// A slice of rows of `N` elements each is an array of two dimensions.
impl<'a, T: Element, const N: usize> Serializeable for &'a [[T; N]] {
    open spec fn element(&self) -> ElementType {
        T::kind()
    }

    open spec fn shape(&self) -> Seq<usize> {
        seq![self.len(), N]
    }

    open spec fn items(&self) -> Seq<nat> {
        bits_of_rows(self@)
    }

    proof fn lemma_items_fit(&self) {
        let rows = self@;
        assert forall|k: int| 0 <= k < bits_of_rows(rows).len() implies #[trigger] bits_of_rows(
            rows,
        )[k] < limit(T::kind().spec_width()) by {
            rows[k / (N as int)]@[k % (N as int)].lemma_bits();
        }
    }

    fn data_type(&self) -> (code: &'static [u8]) {
        T::element_type().code()
    }

    fn data_shape(&self) -> (shape: Vec<usize>) {
        let mut shape: Vec<usize> = Vec::new();
        shape.push(self.len());
        shape.push(N);
        shape
    }

    fn write(&self, order: ByteOrder, output: &mut Vec<u8>) {
        let rows: &[[T; N]] = *self;
        let width = T::element_type().width();
        let ghost items = bits_of_rows(rows@);
        let mut r: usize = 0;
        while r < rows.len()
            invariant
                r <= rows.len(),
                width == T::kind().spec_width(),
                items == bits_of_rows(rows@),
                output@ == old(output)@ + payload(
                    order,
                    T::kind().spec_width(),
                    items.take(r * N),
                ),
            decreases rows.len() - r,
        {
            let row: &[T; N] = &rows[r];
            let mut c: usize = 0;
            while c < N
                invariant
                    r < rows.len(),
                    c <= N,
                    row == rows@[r as int],
                    width == T::kind().spec_width(),
                    items == bits_of_rows(rows@),
                    output@ == old(output)@ + payload(
                        order,
                        T::kind().spec_width(),
                        items.take(r * N + c),
                    ),
                decreases N - c,
            {
                proof {
                    let k = r * N + c;
                    lemma_row_major(rows@.len() as int, N as int, r as int, c as int);
                    assert(items.take(k + 1) =~= items.take(k).push(row@[c as int].bits()));
                    lemma_payload_push(
                        order,
                        T::kind().spec_width(),
                        items.take(k),
                        row@[c as int].bits(),
                    );
                }
                push_word(order, width, row[c].word(), output);
                c = c + 1;
            }
            proof {
                assert(r * N + N == (r + 1) * N) by (nonlinear_arith);
            }
            r = r + 1;
        }
        proof {
            assert(items.take(r * N) =~= items);
        }
    }
}

/// The bit patterns of the components of pairs, each pair's first component
/// before its second.
pub open spec fn bits_of_pairs<T: Element>(pairs: Seq<(T, T)>) -> Seq<nat> {
    Seq::new(
        2 * pairs.len(),
        |k: int|
            if k % 2 == 0 {
                pairs[k / 2].0.bits()
            } else {
                pairs[k / 2].1.bits()
            },
    )
}

/// Pairs are written as rows of two: there are twice as many elements as
/// pairs, and the components of pair `i` are elements `2 * i` and
/// `2 * i + 1`.
pub proof fn lemma_pairs_row_major<T: Element>(pairs: Seq<(T, T)>, i: int)
    requires
        0 <= i < pairs.len(),
    ensures
        bits_of_pairs(pairs).len() == 2 * pairs.len(),
        bits_of_pairs(pairs)[2 * i] == pairs[i].0.bits(),
        bits_of_pairs(pairs)[2 * i + 1] == pairs[i].1.bits(),
{
}

/// The shape of a vector of pairs holds exactly the components of the pairs.
pub proof fn lemma_pairs_shape<T: Element>(pairs: Vec<(T, T)>)
    ensures
        element_count(pairs.shape()) == pairs.items().len(),
{
    lemma_count_two(pairs.shape());
    assert(pairs@.len() * 2 == 2 * pairs@.len()) by (nonlinear_arith);
}

/// A vector of pairs is an array of two dimensions with two columns.
impl<T: Element> Serializeable for Vec<(T, T)> {
    open spec fn element(&self) -> ElementType {
        T::kind()
    }

    open spec fn shape(&self) -> Seq<usize> {
        seq![self.len(), 2]
    }

    open spec fn items(&self) -> Seq<nat> {
        bits_of_pairs(self@)
    }

    proof fn lemma_items_fit(&self) {
        let pairs = self@;
        assert forall|k: int| 0 <= k < bits_of_pairs(pairs).len() implies #[trigger] bits_of_pairs(
            pairs,
        )[k] < limit(T::kind().spec_width()) by {
            pairs[k / 2].0.lemma_bits();
            pairs[k / 2].1.lemma_bits();
        }
    }

    fn data_type(&self) -> (code: &'static [u8]) {
        T::element_type().code()
    }

    fn data_shape(&self) -> (shape: Vec<usize>) {
        let mut shape: Vec<usize> = Vec::new();
        shape.push(self.len());
        shape.push(2);
        shape
    }

    fn write(&self, order: ByteOrder, output: &mut Vec<u8>) {
        let width = T::element_type().width();
        let ghost items = bits_of_pairs(self@);
        let mut i: usize = 0;
        while i < self.len()
            invariant
                i <= self.len(),
                width == T::kind().spec_width(),
                items == bits_of_pairs(self@),
                output@ == old(output)@ + payload(
                    order,
                    T::kind().spec_width(),
                    items.take(2 * i),
                ),
            decreases self.len() - i,
        {
            let pair = &self[i];
            proof {
                let first = pair.0.bits();
                let second = pair.1.bits();
                assert(items.take(2 * i + 1) =~= items.take(2 * i).push(first));
                assert(items.take(2 * i + 2) =~= items.take(2 * i + 1).push(second));
                lemma_payload_push(order, T::kind().spec_width(), items.take(2 * i), first);
                lemma_payload_push(order, T::kind().spec_width(), items.take(2 * i + 1), second);
            }
            push_word(order, width, pair.0.word(), output);
            push_word(order, width, pair.1.word(), output);
            i = i + 1;
        }
        proof {
            assert(items.take(2 * i) =~= items);
        }
    }
}

/// An array under another shape: the element type and the elements of the
/// array it wraps, and a shape of its own.
///
/// Nothing is checked when the shape is given. Whether the shape holds as
/// many elements as the array has is decided when the array is written.
pub struct Reshaped<T: Serializeable> {
    data: T,
    shape: Vec<usize>,
}

impl<T: Serializeable> Reshaped<T> {
    /// The array that is wrapped.
    pub closed spec fn inner(&self) -> T {
        self.data
    }

    /// The shape that was given.
    pub closed spec fn dims(&self) -> Seq<usize> {
        self.shape@
    }
}

/// The array `data` under the shape `shape`.
pub closed spec fn reshaped<T: Serializeable>(data: T, shape: Vec<usize>) -> Reshaped<T> {
    Reshaped { data, shape }
}

/// A reshaped array wraps the array it was made from and has the shape it
/// was made with.
pub proof fn lemma_reshaped<T: Serializeable>(data: T, shape: Vec<usize>)
    ensures
        reshaped(data, shape).inner() == data,
        reshaped(data, shape).dims() == shape@,
{
}

/// Wraps `data` so that it reports `shape` as its shape.
#[verifier::when_used_as_spec(reshaped)]
pub fn reshape<T: Serializeable>(data: T, shape: Vec<usize>) -> (wrapped: Reshaped<T>)
    ensures
        wrapped == reshaped(data, shape),
        wrapped.inner() == data,
        wrapped.dims() == shape@,
{
    Reshaped { data, shape }
}

impl<T: Serializeable> Serializeable for Reshaped<T> {
    open spec fn element(&self) -> ElementType {
        self.inner().element()
    }

    open spec fn shape(&self) -> Seq<usize> {
        self.dims()
    }

    open spec fn items(&self) -> Seq<nat> {
        self.inner().items()
    }

    proof fn lemma_items_fit(&self) {
        self.inner().lemma_items_fit();
    }

    fn data_type(&self) -> (code: &'static [u8]) {
        self.data.data_type()
    }

    fn data_shape(&self) -> (shape: Vec<usize>) {
        self.shape.clone()
    }

    fn write(&self, order: ByteOrder, output: &mut Vec<u8>) {
        self.data.write(order, output)
    }
}

} // verus!
