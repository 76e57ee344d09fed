use npy::{npy, npy_for, reshape, save, save_for, ByteOrder, Float32, Float64, SaveError};

fn native_is_little() -> bool {
    u16::from_ne_bytes([1, 0]) == 1
}

fn native_tag() -> char {
    if native_is_little() {
        '<'
    } else {
        '>'
    }
}

fn header(tag: char, code: &str, shape: &str) -> Vec<u8> {
    format!("{{'descr': '{}{}', 'fortran_order': False, 'shape': ({}), }}", tag, code, shape)
        .into_bytes()
}

fn file(tag: char, code: &str, shape: &str, payload: &[u8]) -> Vec<u8> {
    let text = header(tag, code, shape);
    let mut bytes = vec![0x93, b'N', b'U', b'M', b'P', b'Y', 1, 0];
    bytes.extend_from_slice(&(text.len() as u16).to_le_bytes());
    bytes.extend_from_slice(&text);
    bytes.extend_from_slice(payload);
    bytes
}

fn doubles(values: &[f64]) -> Vec<Float64> {
    values.iter().map(|x| Float64::from_bits(x.to_bits())).collect()
}

#[test]
fn save_one_by_three_integers() {
    let mut out = Vec::new();
    assert_eq!(save(&mut out, &vec![1, 2, 3], &[1, 3]), Ok(()));
    assert_eq!(&out[..8], b"\x93NUMPY\x01\x00");
    let text = header(native_tag(), "i4", "1,3,");
    assert_eq!(text.len(), 59);
    assert_eq!(&out[8..10], &[59, 0]);
    assert_eq!(&out[10..69], &text[..]);
    let mut payload = Vec::new();
    for x in [1i32, 2, 3] {
        payload.extend_from_slice(&x.to_ne_bytes());
    }
    assert_eq!(payload.len(), 12);
    assert_eq!(&out[69..], &payload[..]);
    assert_eq!(out.len(), 81);
}

#[test]
fn save_one_by_three_integers_little_endian_bytes() {
    let mut out = Vec::new();
    let data: Vec<i32> = vec![1, 2, 3];
    assert_eq!(save_for(&mut out, ByteOrder::Little, &data, &[1, 3]), Ok(()));
    let mut expected = b"\x93NUMPY\x01\x00\x3b\x00".to_vec();
    expected.extend_from_slice(b"{'descr': '<i4', 'fortran_order': False, 'shape': (1,3,), }");
    expected.extend_from_slice(&[1, 0, 0, 0, 2, 0, 0, 0, 3, 0, 0, 0]);
    assert_eq!(out, expected);
}

#[test]
fn save_one_by_three_integers_big_endian_bytes() {
    let mut out = Vec::new();
    let data: Vec<i32> = vec![1, 2, 3];
    assert_eq!(save_for(&mut out, ByteOrder::Big, &data, &[1, 3]), Ok(()));
    let mut expected = b"\x93NUMPY\x01\x00\x3b\x00".to_vec();
    expected.extend_from_slice(b"{'descr': '>i4', 'fortran_order': False, 'shape': (1,3,), }");
    expected.extend_from_slice(&[0, 0, 0, 1, 0, 0, 0, 2, 0, 0, 0, 3]);
    assert_eq!(out, expected);
}

#[test]
fn save_singleton_as_scalar() {
    let mut out = Vec::new();
    assert_eq!(save(&mut out, &vec![42u64], &[]), Ok(()));
    let text = header(native_tag(), "u8", "");
    assert!(text.ends_with(b"'shape': (), }"));
    assert_eq!(&out[10..10 + text.len()], &text[..]);
    let payload = &out[10 + text.len()..];
    assert_eq!(payload.len(), 8);
    assert_eq!(payload, &42u64.to_ne_bytes());
    assert_eq!(out, file(native_tag(), "u8", "", &42u64.to_ne_bytes()));
}

#[test]
fn npy_reshaped_doubles() {
    let values = [1.0, 2.0, 3.0, 4.0, 5.0, 6.0];
    let data = doubles(&values);
    let mut out = Vec::new();
    assert_eq!(npy(&mut out, &reshape(&data[..], vec![3, 2])), Ok(()));
    let mut payload = Vec::new();
    for x in values {
        payload.extend_from_slice(&x.to_ne_bytes());
    }
    assert_eq!(payload.len(), 48);
    assert_eq!(out, file(native_tag(), "f8", "3,2,", &payload));
}

#[test]
fn save_two_by_two_doubles() {
    let values = [1.0, 2.0, 3.0, 4.0];
    let mut out = Vec::new();
    assert_eq!(save(&mut out, &doubles(&values), &[2, 2]), Ok(()));
    let mut payload = Vec::new();
    for x in values {
        payload.extend_from_slice(&x.to_ne_bytes());
    }
    assert_eq!(out, file(native_tag(), "f8", "2,2,", &payload));
}

#[test]
fn save_two_by_two_bytes() {
    let x = vec![1i8, 2, 3, 4];
    let mut out = Vec::new();
    assert_eq!(save(&mut out, &x, &[2, 2]), Ok(()));
    assert_eq!(out, file(native_tag(), "i1", "2,2,", &[1, 2, 3, 4]));
}

#[test]
fn save_appends_to_what_the_output_holds() {
    let mut out = vec![7u8, 8, 9];
    assert_eq!(save_for(&mut out, ByteOrder::Little, &[0x0102u16], &[1]), Ok(()));
    let mut expected = vec![7u8, 8, 9];
    expected.extend_from_slice(&file('<', "u2", "1,", &[2, 1]));
    assert_eq!(out, expected);
}

#[test]
fn save_singles_keep_their_encoding() {
    let values = [1.5f32, -0.0, f32::INFINITY, f32::NAN];
    let data: Vec<Float32> = values.iter().map(|x| Float32::from_bits(x.to_bits())).collect();
    let mut out = Vec::new();
    assert_eq!(save(&mut out, &data, &[4]), Ok(()));
    let mut payload = Vec::new();
    for x in values {
        payload.extend_from_slice(&x.to_ne_bytes());
    }
    assert_eq!(out, file(native_tag(), "f4", "4,", &payload));
    let mut little = Vec::new();
    assert_eq!(save_for(&mut little, ByteOrder::Little, &data[..1], &[1]), Ok(()));
    assert_eq!(&little[little.len() - 4..], &[0x00, 0x00, 0xc0, 0x3f]);
}

#[test]
fn save_signed_integers_in_twos_complement() {
    let mut out = Vec::new();
    assert_eq!(save_for(&mut out, ByteOrder::Big, &[-1i8, i8::MIN, i8::MAX], &[3]), Ok(()));
    assert_eq!(out, file('>', "i1", "3,", &[0xff, 0x80, 0x7f]));

    let mut out = Vec::new();
    assert_eq!(save_for(&mut out, ByteOrder::Big, &[-2i16, i16::MIN], &[2]), Ok(()));
    assert_eq!(out, file('>', "i2", "2,", &[0xff, 0xfe, 0x80, 0x00]));

    let mut out = Vec::new();
    assert_eq!(save_for(&mut out, ByteOrder::Little, &[-2i32, i32::MIN], &[2]), Ok(()));
    assert_eq!(out, file('<', "i4", "2,", &[0xfe, 0xff, 0xff, 0xff, 0, 0, 0, 0x80]));

    let mut out = Vec::new();
    assert_eq!(save_for(&mut out, ByteOrder::Little, &[-1i64, i64::MIN, i64::MAX], &[3]), Ok(()));
    let mut payload = vec![0xff; 8];
    payload.extend_from_slice(&[0, 0, 0, 0, 0, 0, 0, 0x80]);
    payload.extend_from_slice(&[0xff, 0xff, 0xff, 0xff, 0xff, 0xff, 0xff, 0x7f]);
    assert_eq!(out, file('<', "i8", "3,", &payload));
}

#[test]
fn save_payload_is_native_for_every_integer_type() {
    let tag = native_tag();

    let mut out = Vec::new();
    assert_eq!(save(&mut out, &[0x12u8, 0xfe], &[2]), Ok(()));
    assert_eq!(out, file(tag, "u1", "2,", &[0x12, 0xfe]));

    let mut out = Vec::new();
    assert_eq!(save(&mut out, &[0x1234u16], &[1]), Ok(()));
    assert_eq!(out, file(tag, "u2", "1,", &0x1234u16.to_ne_bytes()));

    let mut out = Vec::new();
    assert_eq!(save(&mut out, &[0x1234_5678u32], &[1]), Ok(()));
    assert_eq!(out, file(tag, "u4", "1,", &0x1234_5678u32.to_ne_bytes()));

    let mut out = Vec::new();
    assert_eq!(save(&mut out, &[u64::MAX - 1], &[1]), Ok(()));
    assert_eq!(out, file(tag, "u8", "1,", &(u64::MAX - 1).to_ne_bytes()));

    let mut out = Vec::new();
    assert_eq!(save(&mut out, &[-100i8], &[1]), Ok(()));
    assert_eq!(out, file(tag, "i1", "1,", &(-100i8).to_ne_bytes()));

    let mut out = Vec::new();
    assert_eq!(save(&mut out, &[-12345i16], &[1]), Ok(()));
    assert_eq!(out, file(tag, "i2", "1,", &(-12345i16).to_ne_bytes()));

    let mut out = Vec::new();
    assert_eq!(save(&mut out, &[-123_456_789i32], &[1]), Ok(()));
    assert_eq!(out, file(tag, "i4", "1,", &(-123_456_789i32).to_ne_bytes()));

    let mut out = Vec::new();
    assert_eq!(save(&mut out, &[-1_234_567_890_123i64], &[1]), Ok(()));
    assert_eq!(out, file(tag, "i8", "1,", &(-1_234_567_890_123i64).to_ne_bytes()));
}

#[test]
fn native_order_is_that_of_the_machine() {
    let expected = if native_is_little() { ByteOrder::Little } else { ByteOrder::Big };
    assert_eq!(ByteOrder::native(), expected);
}

#[test]
fn save_rejects_too_few_elements() {
    let mut out = vec![1u8, 2, 3];
    assert_eq!(save(&mut out, &[1u32, 2, 3], &[2, 2]), Err(SaveError::ShapeMismatch));
    assert_eq!(out, vec![1u8, 2, 3]);
}

#[test]
fn save_rejects_too_many_elements() {
    let mut out = Vec::new();
    assert_eq!(save(&mut out, &[1u32, 2, 3, 4, 5], &[2, 2]), Err(SaveError::ShapeMismatch));
    assert!(out.is_empty());
    assert_eq!(save(&mut out, &[1u32, 2], &[]), Err(SaveError::ShapeMismatch));
    assert!(out.is_empty());
}

#[test]
fn save_counts_a_shape_too_large_for_the_machine() {
    let mut out = Vec::new();
    let none: [u8; 0] = [];
    assert_eq!(save(&mut out, &none, &[usize::MAX, usize::MAX]), Err(SaveError::ShapeMismatch));
    assert!(out.is_empty());
    assert_eq!(save(&mut out, &[1u8], &[usize::MAX, 2]), Err(SaveError::ShapeMismatch));
    assert!(out.is_empty());
}

#[test]
fn save_empty_array_with_a_zero_dimension() {
    let mut out = Vec::new();
    let none: [u16; 0] = [];
    assert_eq!(save(&mut out, &none, &[usize::MAX, 2, 0]), Ok(()));
    let shape = format!("{},2,0,", usize::MAX);
    assert_eq!(out, file(native_tag(), "u2", &shape, &[]));

    let mut out = Vec::new();
    assert_eq!(save(&mut out, &none, &[0]), Ok(()));
    assert_eq!(out, file(native_tag(), "u2", "0,", &[]));
}

#[test]
fn save_longest_header_that_fits() {
    let shape = vec![1usize; 32740];
    let mut out = Vec::new();
    assert_eq!(save(&mut out, &[9u8], &shape), Ok(()));
    assert_eq!(&out[8..10], &[0xff, 0xff]);
    assert_eq!(out.len(), 10 + 65535 + 1);
    assert_eq!(out[out.len() - 1], 9);
    assert_eq!(&out[out.len() - 5..out.len() - 1], b"), }");
}

#[test]
fn save_rejects_a_header_too_long_for_the_length_field() {
    let shape = vec![1usize; 32741];
    let mut out = vec![5u8];
    assert_eq!(save(&mut out, &[9u8], &shape), Err(SaveError::HeaderTooLong));
    assert_eq!(out, vec![5u8]);
}

#[test]
fn header_too_long_comes_before_shape_mismatch() {
    let shape = vec![2usize; 40000];
    let mut out = Vec::new();
    assert_eq!(save(&mut out, &[9u8], &shape), Err(SaveError::HeaderTooLong));
    assert_eq!(npy(&mut out, &reshape(&[9u8][..], shape)), Err(SaveError::HeaderTooLong));
    assert!(out.is_empty());
}

#[test]
fn npy_scalar() {
    let mut out = Vec::new();
    assert_eq!(npy(&mut out, &0x0102u16), Ok(()));
    assert_eq!(out, file(native_tag(), "u2", "", &0x0102u16.to_ne_bytes()));

    let mut out = Vec::new();
    assert_eq!(npy_for(&mut out, ByteOrder::Big, &-2i32), Ok(()));
    assert_eq!(out, file('>', "i4", "", &[0xff, 0xff, 0xff, 0xfe]));

    let mut out = Vec::new();
    assert_eq!(npy_for(&mut out, ByteOrder::Little, &Float64::from_bits(1.0f64.to_bits())), Ok(()));
    assert_eq!(out, file('<', "f8", "", &[0, 0, 0, 0, 0, 0, 0xf0, 0x3f]));
}

#[test]
fn npy_slice_has_one_dimension() {
    let data = [10u32, 20, 30];
    let mut out = Vec::new();
    assert_eq!(npy_for(&mut out, ByteOrder::Little, &&data[..]), Ok(()));
    assert_eq!(out, file('<', "u4", "3,", &[10, 0, 0, 0, 20, 0, 0, 0, 30, 0, 0, 0]));

    let none: [i64; 0] = [];
    let mut out = Vec::new();
    assert_eq!(npy(&mut out, &&none[..]), Ok(()));
    assert_eq!(out, file(native_tag(), "i8", "0,", &[]));
}

#[test]
fn npy_rows_are_written_row_major() {
    let rows = [[1u16, 2, 3], [4, 5, 6]];
    let mut out = Vec::new();
    assert_eq!(npy_for(&mut out, ByteOrder::Big, &&rows[..]), Ok(()));
    assert_eq!(out, file('>', "u2", "2,3,", &[0, 1, 0, 2, 0, 3, 0, 4, 0, 5, 0, 6]));

    let mut out = Vec::new();
    assert_eq!(npy(&mut out, &&rows[..]), Ok(()));
    let mut payload = Vec::new();
    for x in [1u16, 2, 3, 4, 5, 6] {
        payload.extend_from_slice(&x.to_ne_bytes());
    }
    assert_eq!(out, file(native_tag(), "u2", "2,3,", &payload));
}

#[test]
fn npy_rows_of_no_width() {
    let rows: [[u8; 0]; 3] = [[], [], []];
    let mut out = Vec::new();
    assert_eq!(npy(&mut out, &&rows[..]), Ok(()));
    assert_eq!(out, file(native_tag(), "u1", "3,0,", &[]));
}

#[test]
fn npy_pairs_have_two_columns() {
    let pairs = vec![(1i16, -1i16), (2, -2), (3, -3)];
    let mut out = Vec::new();
    assert_eq!(npy_for(&mut out, ByteOrder::Little, &pairs), Ok(()));
    assert_eq!(
        out,
        file('<', "i2", "3,2,", &[1, 0, 0xff, 0xff, 2, 0, 0xfe, 0xff, 3, 0, 0xfd, 0xff])
    );

    let none: Vec<(u8, u8)> = Vec::new();
    let mut out = Vec::new();
    assert_eq!(npy(&mut out, &none), Ok(()));
    assert_eq!(out, file(native_tag(), "u1", "0,2,", &[]));
}

#[test]
fn npy_rejects_a_shape_of_another_count() {
    let data = [1u8, 2, 3];
    let mut out = vec![0xaau8, 0xbb];
    assert_eq!(npy(&mut out, &reshape(&data[..], vec![2, 2])), Err(SaveError::ShapeMismatch));
    assert_eq!(out, vec![0xaau8, 0xbb]);
    assert_eq!(npy(&mut out, &reshape(&data[..], vec![2])), Err(SaveError::ShapeMismatch));
    assert_eq!(out, vec![0xaau8, 0xbb]);
    assert_eq!(npy(&mut out, &reshape(&data[..], vec![])), Err(SaveError::ShapeMismatch));
    assert_eq!(out, vec![0xaau8, 0xbb]);
    assert_eq!(
        npy(&mut out, &reshape(&data[..], vec![usize::MAX, usize::MAX])),
        Err(SaveError::ShapeMismatch)
    );
    assert_eq!(npy(&mut out, &reshape(&data[..], vec![usize::MAX, 3])), Err(SaveError::ShapeMismatch));
    assert_eq!(npy(&mut out, &reshape(&data[..], vec![usize::MAX / 4 + 1])), Err(SaveError::ShapeMismatch));
    assert_eq!(out, vec![0xaau8, 0xbb]);
    let wide = [1u32, 2, 3];
    assert_eq!(
        npy(&mut out, &reshape(&wide[..], vec![usize::MAX / 4 + 1, 4])),
        Err(SaveError::ShapeMismatch)
    );
    assert_eq!(out, vec![0xaau8, 0xbb]);
}

#[test]
fn npy_reshaped_scalar_as_one_by_one() {
    let mut out = Vec::new();
    assert_eq!(npy_for(&mut out, ByteOrder::Little, &reshape(5u8, vec![1, 1])), Ok(()));
    assert_eq!(out, file('<', "u1", "1,1,", &[5]));
}

#[test]
fn reshape_twice_shows_the_outer_shape() {
    let data = [1u16, 2, 3, 4, 5, 6];
    let mut twice = Vec::new();
    let nested = reshape(reshape(&data[..], vec![6, 1]), vec![2, 3]);
    assert_eq!(npy(&mut twice, &nested), Ok(()));
    let mut once = Vec::new();
    assert_eq!(npy(&mut once, &reshape(&data[..], vec![2, 3])), Ok(()));
    assert_eq!(twice, once);

    let mut twice = Vec::new();
    let nested = reshape(reshape(&data[..], vec![2, 3]), vec![7]);
    assert_eq!(npy(&mut twice, &nested), Err(SaveError::ShapeMismatch));
    let nested = reshape(reshape(&data[..], vec![7]), vec![3, 2]);
    assert_eq!(npy_for(&mut twice, ByteOrder::Big, &nested), Ok(()));
    assert_eq!(twice, file('>', "u2", "3,2,", &[0, 1, 0, 2, 0, 3, 0, 4, 0, 5, 0, 6]));
}

#[test]
fn length_field_is_the_length_of_the_header() {
    let shapes: [&[usize]; 6] =
        [&[], &[1], &[1, 12], &[3, 4, 1], &[1, 2, 3, 20], &[1000000, 0, 7, 1, 1]];
    for shape in shapes {
        let count: usize = shape.iter().product();
        let mut out = Vec::new();
        assert_eq!(save(&mut out, &vec![0u8; count], shape), Ok(()));
        let announced = u16::from_le_bytes([out[8], out[9]]) as usize;
        assert_eq!(out.len(), 10 + announced + count);
        assert_eq!(out[10], b'{');
        assert_eq!(&out[10 + announced - 4..10 + announced], b"), }");

        let mut out = Vec::new();
        assert_eq!(save(&mut out, &vec![0i64; count], shape), Ok(()));
        let announced = u16::from_le_bytes([out[8], out[9]]) as usize;
        assert_eq!(out.len(), 10 + announced + 8 * count);
        assert_eq!(&out[10 + announced - 4..10 + announced], b"), }");

        let mut out = Vec::new();
        assert_eq!(save(&mut out, &vec![Float32::from_bits(0); count], shape), Ok(()));
        let announced = u16::from_le_bytes([out[8], out[9]]) as usize;
        assert_eq!(out.len(), 10 + announced + 4 * count);
        assert_eq!(&out[10 + announced - 4..10 + announced], b"), }");
    }
}
