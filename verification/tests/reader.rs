use licore::read::{to_i16, to_i32, to_i64, to_i8, NotEnoughData, Reader};
use licore::util::{bytes_eq, trim_c_string};

#[test]
fn read_slice_takes_the_front() {
    let data = [1u8, 2, 3, 4, 5];
    let mut r = Reader::new(&data);
    assert_eq!(r.read_slice(2), Ok(&[1u8, 2][..]));
    assert_eq!(r.remaining(), &[3, 4, 5]);
    assert_eq!(r.read_slice(0), Ok(&[][..]));
    assert_eq!(r.remaining(), &[3, 4, 5]);
    assert_eq!(r.read_slice(3), Ok(&[3u8, 4, 5][..]));
    assert_eq!(r.remaining(), &[] as &[u8]);
    assert_eq!(r.read_slice(0), Ok(&[][..]));
}

#[test]
fn failed_read_moves_nothing() {
    let data = [1u8, 2, 3];
    let mut r = Reader::new(&data);
    assert_eq!(r.read_slice(4), Err(NotEnoughData));
    assert_eq!(r.remaining(), &[1, 2, 3]);
    assert_eq!(r.read_u32(), Err(NotEnoughData));
    assert_eq!(r.read_i32(), Err(NotEnoughData));
    assert_eq!(r.read_u64(), Err(NotEnoughData));
    assert_eq!(r.read_i64(), Err(NotEnoughData));
    assert_eq!(r.read_array::<4>(), Err(NotEnoughData));
    assert_eq!(r.remaining(), &[1, 2, 3]);
    assert_eq!(r.read_u16(), Ok(0x0201));
    assert_eq!(r.read_u16(), Err(NotEnoughData));
    assert_eq!(r.read_i16(), Err(NotEnoughData));
    assert_eq!(r.read_u8(), Ok(3));
    assert_eq!(r.read_u8(), Err(NotEnoughData));
    assert_eq!(r.read_i8(), Err(NotEnoughData));
    assert_eq!(r.read_slice(usize::MAX), Err(NotEnoughData));
}

#[test]
fn read_slice_borrows_from_the_buffer() {
    let data = [9u8; 16];
    let mut r = Reader::new(&data);
    let _ = r.read_slice(4).unwrap();
    let part = r.read_slice(8).unwrap();
    assert!(std::ptr::eq(part, &data[4..12]));
}

#[test]
fn read_array_takes_the_front() {
    let data = [1u8, 2, 3, 4, 5];
    let mut r = Reader::new(&data);
    let a: &[u8; 3] = r.read_array::<3>().unwrap();
    assert_eq!(a, &[1, 2, 3]);
    assert_eq!(r.remaining(), &[4, 5]);
    let b: &[u8; 0] = r.read_array::<0>().unwrap();
    assert_eq!(b, &[]);
    let c: &[u8; 2] = r.read_array::<2>().unwrap();
    assert_eq!(c, &[4, 5]);
    assert!(std::ptr::eq(&c[..], &data[3..5]));
}

#[test]
fn unsigned_reads_are_little_endian() {
    let data = [0x01u8, 0x02, 0x03, 0x04, 0x05, 0x06, 0x07, 0x08, 0x09];
    assert_eq!(Reader::new(&data).read_u8(), Ok(0x01));
    assert_eq!(Reader::new(&data).read_u16(), Ok(0x0201));
    assert_eq!(Reader::new(&data).read_u32(), Ok(0x0403_0201));
    assert_eq!(Reader::new(&data).read_u64(), Ok(0x0807_0605_0403_0201));
    let mut r = Reader::new(&data);
    assert_eq!(r.read_u64(), Ok(0x0807_0605_0403_0201));
    assert_eq!(r.remaining(), &[9]);
}

#[test]
fn largest_values_are_read() {
    let data = [0xffu8; 8];
    assert_eq!(Reader::new(&data).read_u8(), Ok(u8::MAX));
    assert_eq!(Reader::new(&data).read_u16(), Ok(u16::MAX));
    assert_eq!(Reader::new(&data).read_u32(), Ok(u32::MAX));
    assert_eq!(Reader::new(&data).read_u64(), Ok(u64::MAX));
    assert_eq!(Reader::new(&data).read_i8(), Ok(-1));
    assert_eq!(Reader::new(&data).read_i16(), Ok(-1));
    assert_eq!(Reader::new(&data).read_i32(), Ok(-1));
    assert_eq!(Reader::new(&data).read_i64(), Ok(-1));
}

#[test]
fn signed_reads_are_twos_complement() {
    let data = [0x00u8, 0x00, 0x00, 0x00, 0x00, 0x00, 0x00, 0x80];
    assert_eq!(Reader::new(&data).read_i64(), Ok(i64::MIN));
    assert_eq!(Reader::new(&data[4..]).read_i32(), Ok(i32::MIN));
    assert_eq!(Reader::new(&data[6..]).read_i16(), Ok(i16::MIN));
    assert_eq!(Reader::new(&data[7..]).read_i8(), Ok(i8::MIN));
    let data = [0xfeu8, 0xff, 0xff, 0x7f];
    assert_eq!(Reader::new(&data).read_i32(), Ok(0x7fff_fffe));
    assert_eq!(Reader::new(&data).read_i16(), Ok(-2));
    assert_eq!(Reader::new(&data[3..]).read_i8(), Ok(127));
}

#[test]
fn reads_agree_with_the_standard_library() {
    let data: Vec<u8> = (0..64u32).map(|i| (i * 37 + 11) as u8).collect();
    for at in 0..56 {
        let s = &data[at..];
        assert_eq!(Reader::new(s).read_u16().unwrap(), u16::from_le_bytes([s[0], s[1]]));
        assert_eq!(Reader::new(s).read_i16().unwrap(), i16::from_le_bytes([s[0], s[1]]));
        assert_eq!(
            Reader::new(s).read_u32().unwrap(),
            u32::from_le_bytes([s[0], s[1], s[2], s[3]])
        );
        assert_eq!(
            Reader::new(s).read_i32().unwrap(),
            i32::from_le_bytes([s[0], s[1], s[2], s[3]])
        );
        let mut eight = [0u8; 8];
        eight.copy_from_slice(&s[..8]);
        assert_eq!(Reader::new(s).read_u64().unwrap(), u64::from_le_bytes(eight));
        assert_eq!(Reader::new(s).read_i64().unwrap(), i64::from_le_bytes(eight));
        assert_eq!(Reader::new(s).read_i8().unwrap(), i8::from_le_bytes([s[0]]));
    }
}

#[test]
fn signed_readings_of_the_edges() {
    assert_eq!(to_i8(0), 0);
    assert_eq!(to_i8(0x7f), i8::MAX);
    assert_eq!(to_i8(0x80), i8::MIN);
    assert_eq!(to_i8(0xff), -1);
    assert_eq!(to_i16(0x7fff), i16::MAX);
    assert_eq!(to_i16(0x8000), i16::MIN);
    assert_eq!(to_i16(0xffff), -1);
    assert_eq!(to_i32(0x7fff_ffff), i32::MAX);
    assert_eq!(to_i32(0x8000_0000), i32::MIN);
    assert_eq!(to_i32(0xffff_fff9), -7);
    assert_eq!(to_i64(0x7fff_ffff_ffff_ffff), i64::MAX);
    assert_eq!(to_i64(0x8000_0000_0000_0000), i64::MIN);
    assert_eq!(to_i64(u64::MAX), -1);
}

#[test]
fn trim_stops_at_the_first_nul() {
    assert_eq!(trim_c_string(b"init\0\0\0\0\0\0\0\0\0\0\0\0"), b"init");
    assert_eq!(trim_c_string(b"ab\0cd\0"), b"ab");
    assert_eq!(trim_c_string(b"\0abc"), b"");
    assert_eq!(trim_c_string(b"abc"), b"abc");
    assert_eq!(trim_c_string(b""), b"");
    assert_eq!(trim_c_string(b"\0"), b"");
}

#[test]
fn trim_borrows_the_front() {
    let data = *b"name\0rest";
    let t = trim_c_string(&data);
    assert!(std::ptr::eq(t, &data[..4]));
    assert!(!t.contains(&0));
}

#[test]
fn bytes_eq_compares_contents() {
    assert!(bytes_eq(b"CORE", b"CORE"));
    assert!(bytes_eq(b"", b""));
    assert!(!bytes_eq(b"CORE", b"CORF"));
    assert!(!bytes_eq(b"CORE", b"BORE"));
    assert!(!bytes_eq(b"CORE", b"COR"));
    assert!(!bytes_eq(b"COR", b"CORE"));
    assert!(!bytes_eq(b"", b"\0"));
}
