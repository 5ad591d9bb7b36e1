use bit_kernels::bit_count_u8_avx2;
use bit_kernels::bit_count_u8_scalar;
use bit_kernels::bit_count_u8_slice_avx2;
use bit_kernels::bit_count_u8_slice_scalar;
use bit_kernels::bit_count_u8_slice_table;
use bit_kernels::OversizedInput;
use bit_kernels::BIT_COUNT_AVX2_LEN_LIMIT;

#[test]
fn test_bit_count_u8_scalar() {
    let slow_bit_count = |n: u8| -> u32 {
        let mut count = 0;
        let mut i = n;
        while i != 0 {
            count += (i & 1) as u32;
            i = i >> 1;
        }
        count
    };

    for i in 0..=255u8 {
        assert_eq!(bit_count_u8_scalar(i), slow_bit_count(i));
    }
}

#[test]
fn test_bit_count_u8_avx2() {
    for i in 0..=255u8 {
        assert_eq!(bit_count_u8_avx2(i), bit_count_u8_scalar(i));
    }
}

#[test]
fn test_bit_count_u8_slice_scalar() {
    let slow_bit_count =
        |n: &[u8]| -> u32 { n.iter().fold(0, |count, &u| count + bit_count_u8_scalar(u)) };

    let s = [
        0u8, 1, 2, 3, 4, 5, 6, 7, 8, 9, 10, 11, 12, 13, 14, 15, 16, 17, 18, 19, 20, 21, 22, 23,
        24, 25, 26, 27, 28, 29, 30, 31,
    ];

    assert_eq!(bit_count_u8_slice_scalar(&s), slow_bit_count(&s));
}

#[test]
fn test_bit_count_u8_slice_table() {
    let s = vec![255u8; 256];
    assert_eq!(bit_count_u8_slice_table(&s), bit_count_u8_slice_scalar(&s));
}

#[test]
fn test_bit_count_u8_slice_avx2() {
    for n in 1usize..128 {
        let s = vec![255u8; n];
        let avx2 = bit_count_u8_slice_avx2(&s).unwrap();
        let scalar = bit_count_u8_slice_scalar(&s);
        println!("{}: avx2: {}, scalar: {}", n, avx2, scalar);
        assert_eq!(avx2, scalar);
    }
}

#[test]
fn test_bit_count_extremes() {
    assert_eq!(bit_count_u8_scalar(0xFF), 8);
    assert_eq!(bit_count_u8_scalar(0x00), 0);
}

#[test]
fn test_table_slice_all_ones() {
    let s = vec![0xFFu8; 32];
    assert_eq!(bit_count_u8_slice_table(&s), 256);
}

#[test]
fn test_slice_strategies_agree() {
    for &len in &[0usize, 1, 31, 32, 33, 255, 256, 257, 130000] {
        let s: Vec<u8> = (0..len).map(|i| (i * 37 + 11) as u8).collect();
        let scalar = bit_count_u8_slice_scalar(&s);
        let table = bit_count_u8_slice_table(&s);
        let avx2 = bit_count_u8_slice_avx2(&s).unwrap();
        assert_eq!(scalar, table);
        assert_eq!(scalar, avx2);
    }
}

#[test]
fn test_vector_slice_boundary() {
    let over = vec![0xFFu8; BIT_COUNT_AVX2_LEN_LIMIT];
    assert_eq!(
        bit_count_u8_slice_avx2(&over),
        Err(OversizedInput { len: BIT_COUNT_AVX2_LEN_LIMIT })
    );

    let under = vec![0xFFu8; BIT_COUNT_AVX2_LEN_LIMIT - 1];
    let avx2 = bit_count_u8_slice_avx2(&under).unwrap();
    assert_eq!(avx2, bit_count_u8_slice_table(&under));
    assert_eq!(avx2, (BIT_COUNT_AVX2_LEN_LIMIT as u32 - 1) * 8);
}

#[test]
fn test_slice_repeated_calls_agree() {
    let s: Vec<u8> = (0..1000).map(|i| (i % 251) as u8).collect();
    assert_eq!(
        bit_count_u8_slice_avx2(&s).unwrap(),
        bit_count_u8_slice_avx2(&s).unwrap()
    );
    assert_eq!(bit_count_u8_slice_table(&s), bit_count_u8_slice_table(&s));
}
