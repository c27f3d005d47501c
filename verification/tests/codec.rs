use wiegand::count_ones;
use wiegand::is_odd;
use wiegand::Error;
use wiegand::WiegandData;

#[test]
fn even_parity_success() {
    let data = WiegandData::try_from(0x37E0002);

    assert_eq!(
        data,
        Ok(WiegandData {
            facility: 0xBF,
            id: 0x01
        })
    );
}

#[test]
fn even_parity_fail() {
    let data = WiegandData::try_from(0x17E0002);

    assert_eq!(data, Err(Error::Parity));
}

#[test]
fn odd_parity_success() {
    let data = WiegandData::try_from(0x2511055);

    assert_eq!(
        data,
        Ok(WiegandData {
            facility: 0x28,
            id: 0x882A
        })
    );
}

#[test]
fn odd_parity_fail() {
    let data = WiegandData::try_from(0x2511015);
    assert_eq!(data, Err(Error::Parity));
}

#[test]
fn into_u32_max() {
    let data = WiegandData {
        facility: 0xFF,
        id: 0xFFFF,
    };

    let data_out: u32 = data.into();
    assert_eq!(data_out, 0x1FFFFFF);
}

#[test]
fn into_u32_min() {
    let data = WiegandData {
        facility: 0x0,
        id: 0x0,
    };

    let data_out: u32 = data.into();
    assert_eq!(data_out, 0x0000001);
}

#[test]
fn into_u32_additional() {
    let data = WiegandData {
        facility: 0x7E,
        id: 0x7FFE,
    };

    let data_out: u32 = data.into();
    assert_eq!(data_out, 0x2FCFFFC);
}

#[test]
fn round_trip_samples() {
    let samples = [
        WiegandData {
            facility: 0x00,
            id: 0x0000,
        },
        WiegandData {
            facility: 0xFF,
            id: 0xFFFF,
        },
        WiegandData {
            facility: 0xBF,
            id: 0x0001,
        },
        WiegandData {
            facility: 0x28,
            id: 0x882A,
        },
        WiegandData {
            facility: 0x7E,
            id: 0x7FFE,
        },
        WiegandData {
            facility: 0x01,
            id: 0x8000,
        },
    ];
    for data in samples {
        let word: u32 = data.into();
        assert_eq!(WiegandData::try_from(word), Ok(data));
    }
}

#[test]
fn decode_rejects_flipped_parity_bit() {
    // 0x1FFFFFF is the valid encoding of {0xFF, 0xFFFF}; clearing its
    // odd-parity bit must break the parity relation.
    assert_eq!(WiegandData::try_from(0x1FFFFFE), Err(Error::Parity));
    // Setting the even-parity bit on top of a valid word breaks it too.
    assert_eq!(WiegandData::try_from(0x3FFFFFF), Err(Error::Parity));
}

#[test]
fn count_ones_exact_values() {
    assert_eq!(count_ones(0), 0);
    assert_eq!(count_ones(1), 1);
    assert_eq!(count_ones(0x2511055), 9);
    assert_eq!(count_ones(0x7FFFFFFF), 31);
}

#[test]
fn is_odd_exact_values() {
    assert!(!is_odd(0));
    assert!(is_odd(1));
    assert!(is_odd(31));
    assert!(!is_odd(254));
}
