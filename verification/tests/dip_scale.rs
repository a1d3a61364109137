use wasamo_runtime::dip_scale::DipScale;

const DPI_100: u32 = 96;
const DPI_125: u32 = 120;
const DPI_150: u32 = 144;
const DPI_200: u32 = 192;

#[test]
fn window_size_converts_at_125_150_200_percent() {
    let sizes = [
        (DPI_125, (1000, 750)),
        (DPI_150, (1200, 900)),
        (DPI_200, (1600, 1200)),
    ];
    for (dpi, expected) in sizes {
        assert_eq!(
            DipScale::from_dpi(dpi).window_size_to_physical((800, 600)),
            expected,
            "dpi={dpi}"
        );
    }
}

#[test]
fn window_size_rounds_to_nearest_in_both_directions() {
    let s125 = DipScale::from_dpi(DPI_125);
    assert_eq!(s125.window_size_to_physical((801, 801)), (1001, 1001));
    assert_eq!(s125.window_size_to_physical((803, 803)), (1004, 1004));
    assert_eq!(
        DipScale::from_dpi(DPI_150).window_size_to_physical((801, 801)),
        (1202, 1202)
    );
    assert_eq!(s125.window_size_to_physical((801, 803)), (1001, 1004));
}

#[test]
fn window_size_is_exact_at_a_dpi_no_f32_factor_can_hold() {
    assert_eq!(
        DipScale::from_dpi(100).window_size_to_physical((804, 804)),
        (838, 838)
    );

    fn exact_mul_div(dip: i32, dpi: u32) -> i32 {
        let doubled = dip as i128 * dpi as i128 * 2;
        let biased = if dip >= 0 { doubled + 96 } else { doubled - 96 };
        (biased / 192) as i32
    }
    for dpi in [97u32, 100, 101, 110, 123, 137, 149, 175, 199, 250, 401] {
        let s = DipScale::from_dpi(dpi);
        for dip in [-4000, -804, -1, 0, 1, 13, 96, 240, 799, 800, 804, 4000] {
            assert_eq!(
                s.window_size_to_physical((dip, dip)),
                (exact_mul_div(dip, dpi), exact_mul_div(dip, dpi)),
                "dpi={dpi} dip={dip}"
            );
        }
    }
}

#[test]
fn window_size_saturates_rather_than_wrapping() {
    let s400 = DipScale::from_dpi(384);
    assert_eq!(
        s400.window_size_to_physical((i32::MAX, i32::MAX)),
        (i32::MAX, i32::MAX)
    );
    assert_eq!(
        s400.window_size_to_physical((i32::MIN, i32::MIN)),
        (i32::MIN, i32::MIN)
    );
    assert_eq!(
        DipScale::from_dpi(192).window_size_to_physical((1_000_000, -1_000_000)),
        (2_000_000, -2_000_000)
    );
}

#[test]
fn window_size_is_the_exact_identity_at_one_hundred_percent() {
    for s in [
        DipScale::identity(),
        DipScale::default(),
        DipScale::from_dpi(DPI_100),
    ] {
        for dip in [0, 1, -1, 800, 16_777_217, i32::MAX, i32::MIN] {
            assert_eq!(
                s.window_size_to_physical((dip, dip)),
                (dip, dip),
                "dip={dip}"
            );
        }
    }
}
