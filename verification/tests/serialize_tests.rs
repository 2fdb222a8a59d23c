use bitcoin_cash::serialize::{
    encode_bool, encode_int, encode_int_n, encode_minimally, read_var_int, read_var_str,
    var_int_to_vec, vec_to_int, write_var_int, write_var_str,
};
use bitcoin_cash::InvalidData;

#[test]
fn var_int_widths() {
    assert_eq!(var_int_to_vec(0), vec![0x00]);
    assert_eq!(var_int_to_vec(0xfc), vec![0xfc]);
    assert_eq!(var_int_to_vec(0xfd), vec![0xfd, 0xfd, 0x00]);
    assert_eq!(var_int_to_vec(0xffff), vec![0xfd, 0xff, 0xff]);
    assert_eq!(var_int_to_vec(0x10000), vec![0xfe, 0x00, 0x00, 0x01, 0x00]);
    assert_eq!(var_int_to_vec(0xffff_ffff), vec![0xfe, 0xff, 0xff, 0xff, 0xff]);
    assert_eq!(
        var_int_to_vec(0x1_0000_0000),
        vec![0xff, 0x00, 0x00, 0x00, 0x00, 0x01, 0x00, 0x00, 0x00]
    );
    assert_eq!(
        var_int_to_vec(0x0102_0304_0506_0708),
        vec![0xff, 0x08, 0x07, 0x06, 0x05, 0x04, 0x03, 0x02, 0x01]
    );
}

#[test]
fn var_int_is_appended() {
    let mut buf = vec![0xaa];
    write_var_int(&mut buf, 0x1234);
    assert_eq!(buf, vec![0xaa, 0xfd, 0x34, 0x12]);
}

#[test]
fn var_int_round_trip() {
    for n in [
        0u64,
        1,
        0xfc,
        0xfd,
        0xfe,
        0xff,
        0x100,
        0xffff,
        0x10000,
        0xffff_ffff,
        0x1_0000_0000,
        u64::MAX,
    ] {
        let mut bytes = var_int_to_vec(n);
        let len = bytes.len();
        bytes.push(0x99);
        assert_eq!(read_var_int(&bytes, 0), Ok((n, len)));
    }
}

#[test]
fn var_int_reads_at_a_position() {
    let bytes = vec![0x00, 0x00, 0xfd, 0x34, 0x12, 0x07];
    assert_eq!(read_var_int(&bytes, 2), Ok((0x1234, 5)));
    assert_eq!(read_var_int(&bytes, 5), Ok((7, 6)));
}

#[test]
fn var_int_reads_a_wider_form_than_needed() {
    assert_eq!(read_var_int(&[0xfd, 0x01, 0x00], 0), Ok((1, 3)));
    assert_eq!(read_var_int(&[0xfe, 0x01, 0x00, 0x00, 0x00], 0), Ok((1, 5)));
}

#[test]
fn var_int_truncated() {
    assert_eq!(read_var_int(&[], 0), Err(InvalidData::Truncated));
    assert_eq!(read_var_int(&[0xfd, 0x01], 0), Err(InvalidData::Truncated));
    assert_eq!(read_var_int(&[0xfe, 0x01, 0x02, 0x03], 0), Err(InvalidData::Truncated));
    assert_eq!(
        read_var_int(&[0xff, 1, 2, 3, 4, 5, 6, 7], 0),
        Err(InvalidData::Truncated)
    );
    assert_eq!(read_var_int(&[0x01], 1), Err(InvalidData::Truncated));
}

#[test]
fn var_str_round_trip() {
    let mut buf = Vec::new();
    write_var_str(&mut buf, b"hello");
    assert_eq!(buf, vec![5, b'h', b'e', b'l', b'l', b'o']);
    buf.push(0xff);
    assert_eq!(read_var_str(&buf, 0), Ok((b"hello".to_vec(), 6)));
    let long = vec![7u8; 300];
    let mut buf = Vec::new();
    write_var_str(&mut buf, &long);
    assert_eq!(&buf[..3], &[0xfd, 0x2c, 0x01]);
    assert_eq!(read_var_str(&buf, 0), Ok((long, 303)));
}

#[test]
fn var_str_truncated() {
    assert_eq!(read_var_str(&[3, 1, 2], 0), Err(InvalidData::Truncated));
    assert_eq!(read_var_str(&[], 0), Err(InvalidData::Truncated));
    assert_eq!(read_var_str(&[0], 0), Ok((vec![], 1)));
}

#[test]
fn script_numbers() {
    assert_eq!(encode_int(0), Vec::<u8>::new());
    assert_eq!(encode_int(1), vec![1]);
    assert_eq!(encode_int(-1), vec![0x81]);
    assert_eq!(encode_int(127), vec![0x7f]);
    assert_eq!(encode_int(128), vec![0x80, 0x00]);
    assert_eq!(encode_int(-128), vec![0x80, 0x80]);
    assert_eq!(encode_int(255), vec![0xff, 0x00]);
    assert_eq!(encode_int(256), vec![0x00, 0x01]);
    assert_eq!(encode_int(546), vec![0x22, 0x02]);
    assert_eq!(encode_int(-546), vec![0x22, 0x82]);
    assert_eq!(encode_int(32767), vec![0xff, 0x7f]);
    assert_eq!(encode_int(32768), vec![0x00, 0x80, 0x00]);
    assert_eq!(encode_int(0x41), vec![0x41]);
    assert_eq!(encode_int(i32::MAX), vec![0xff, 0xff, 0xff, 0x7f]);
    assert_eq!(encode_int(-i32::MAX), vec![0xff, 0xff, 0xff, 0xff]);
    assert_eq!(encode_int(i32::MIN), vec![0x00, 0x00, 0x00, 0x80, 0x80]);
}

#[test]
fn script_number_round_trip() {
    for i in [
        0,
        1,
        -1,
        16,
        17,
        127,
        128,
        -127,
        -128,
        255,
        256,
        -255,
        -256,
        65535,
        65536,
        -65536,
        8_388_607,
        8_388_608,
        -8_388_608,
        1_000_000_000,
        i32::MAX,
        -i32::MAX,
    ] {
        assert_eq!(vec_to_int(&encode_int(i)), i, "{}", i);
    }
}

#[test]
fn fixed_width_script_numbers() {
    assert_eq!(encode_int_n(3, 8), vec![3, 0, 0, 0, 0, 0, 0, 0]);
    assert_eq!(encode_int_n(-3, 8), vec![3, 0, 0, 0, 0, 0, 0, 0x80]);
    assert_eq!(encode_int_n(0x01020304, 5), vec![4, 3, 2, 1, 0]);
    assert_eq!(encode_int_n(-0x01020304, 5), vec![4, 3, 2, 1, 0x80]);
    assert_eq!(encode_int_n(i32::MIN, 6), vec![0, 0, 0, 0x80, 0, 0x80]);
    for n in 5..12 {
        for i in [0, 1, -1, 5, -5, 300, -300, i32::MAX, -i32::MAX] {
            let enc = encode_int_n(i, n);
            assert_eq!(enc.len(), n);
            assert_eq!(vec_to_int(&enc), i);
        }
    }
}

#[test]
fn minimal_form() {
    let mut v = vec![0x00];
    encode_minimally(&mut v);
    assert_eq!(v, Vec::<u8>::new());
    let mut v = vec![0x80];
    encode_minimally(&mut v);
    assert_eq!(v, Vec::<u8>::new());
    let mut v = vec![0x01, 0x00, 0x00, 0x00];
    encode_minimally(&mut v);
    assert_eq!(v, vec![0x01]);
    let mut v = vec![0x01, 0x00, 0x00, 0x80];
    encode_minimally(&mut v);
    assert_eq!(v, vec![0x81]);
    let mut v = vec![0x80, 0x00, 0x00, 0x00];
    encode_minimally(&mut v);
    assert_eq!(v, vec![0x80, 0x00]);
    let mut v = vec![0x80, 0x00, 0x00, 0x80];
    encode_minimally(&mut v);
    assert_eq!(v, vec![0x80, 0x80]);
    let mut v = vec![0x00, 0x00, 0x00, 0x80];
    encode_minimally(&mut v);
    assert_eq!(v, Vec::<u8>::new());
    let mut v = vec![0x12, 0x34];
    encode_minimally(&mut v);
    assert_eq!(v, vec![0x12, 0x34]);
    let mut v = vec![0xff, 0x00];
    encode_minimally(&mut v);
    assert_eq!(v, vec![0xff, 0x00]);
    let mut v: Vec<u8> = vec![];
    encode_minimally(&mut v);
    assert_eq!(v, Vec::<u8>::new());
}

#[test]
fn decoding_takes_sign_from_the_top_bit() {
    assert_eq!(vec_to_int(&[]), 0);
    assert_eq!(vec_to_int(&[0x80]), 0);
    assert_eq!(vec_to_int(&[0x05]), 5);
    assert_eq!(vec_to_int(&[0x85]), -5);
    assert_eq!(vec_to_int(&[0x00, 0x01]), 256);
    assert_eq!(vec_to_int(&[0x00, 0x81]), -256);
    assert_eq!(vec_to_int(&[0xff, 0xff, 0xff, 0x7f]), i32::MAX);
    assert_eq!(vec_to_int(&[0x00, 0x00, 0x00, 0x80, 0x80]), i32::MIN);
}

#[test]
fn booleans() {
    assert_eq!(encode_bool(true), vec![1]);
    assert_eq!(encode_bool(false), Vec::<u8>::new());
}
