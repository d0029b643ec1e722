use openlogi_onboard::dpi::{expand_dpi_ranges, DpiRange};
use openlogi_onboard::feature::be16;
use openlogi_onboard::lighting::{collect_present_zones, per_key_reports};
use openlogi_onboard::scripted::{
    extended_dpi_scripted_response, per_key_v2_scripted_response, scripted_response,
};

/// A short request to the device with index `0xff`.
fn short(feature: u8, function: u8, arguments: [u8; 3]) -> Vec<u8> {
    let mut request = vec![0x10, 0xff, feature, function << 4 | 0x0a];
    request.extend(arguments);
    request
}

/// A long request to the device with index `0xff`.
fn long(feature: u8, function: u8, arguments: &[u8]) -> Vec<u8> {
    let mut request = vec![0x11, 0xff, feature, function << 4 | 0x0a];
    request.extend(arguments);
    request.resize(20, 0);
    request
}

/// The payload of a response to a request for `feature` and `function`.
fn payload(response: Option<Vec<u8>>, feature: u8, function: u8) -> Vec<u8> {
    let response = response.expect("the call is scripted");
    assert_eq!(response[1..4], [0xff, feature, function << 4 | 0x0a]);
    match response[0] {
        0x10 => assert_eq!(response.len(), 7),
        0x11 => assert_eq!(response.len(), 20),
        _ => panic!("no such report"),
    }
    response[4..].to_vec()
}

#[test]
fn scripted_mouse_answers_its_features() {
    let ask = |feature, function, arguments| {
        payload(
            scripted_response(&short(feature, function, arguments)),
            feature,
            function,
        )
    };
    assert_eq!(ask(0, 1, [0, 0, 0]), [4, 0, 0]);
    assert_eq!(ask(0, 0, [0x22, 0x01, 0]), [5, 0, 0]);
    assert_eq!(ask(0, 0, [0x21, 0x11, 0]), [6, 0, 0]);
    assert_eq!(ask(0, 0, [0x80, 0x80, 0]), [7, 0, 0]);
    assert_eq!(ask(0, 0, [0x81, 0x00, 0]), [0, 0, 0]);
    assert_eq!(ask(5, 0, [0, 0, 0]), [1, 0, 0]);
    assert_eq!(be16(&ask(5, 2, [0, 0, 0]), 1), 800);
    let list = ask(5, 1, [0, 0, 0]);
    let values: Vec<u16> = [1, 3, 5].iter().map(|at| be16(&list, *at)).collect();
    assert_eq!(values, [400, 800, 1600]);
    assert_eq!(ask(6, 1, [0, 0, 0]), [2, 10, 33]);
}

#[test]
fn scripted_devices_ignore_what_they_do_not_know() {
    for respond in [
        scripted_response,
        extended_dpi_scripted_response,
        per_key_v2_scripted_response,
    ] {
        assert_eq!(respond(&[]), None);
        assert_eq!(respond(&[0x10, 0xff, 0, 0x10, 0, 0]), None);
        assert_eq!(respond(&short(9, 0, [0, 0, 0])), None);
        assert_eq!(respond(&[0x12; 64]), None);
        assert_eq!(
            payload(respond(&short(0, 1, [0, 0, 0])), 0, 1),
            [4, 0, 0]
        );
    }
    // The commit of raw key frames gets no reply.
    let reports = per_key_reports(0xff, 7, 1, 2, 3);
    assert!(reports.iter().all(|report| scripted_response(report).is_none()));
}

#[test]
fn scripted_extended_dpi_describes_its_ranges() {
    let ask = |function, arguments| {
        payload(
            extended_dpi_scripted_response(&short(5, function, arguments)),
            5,
            function,
        )
    };
    assert_eq!(
        payload(
            extended_dpi_scripted_response(&short(0, 0, [0x22, 0x02, 0])),
            0,
            0
        ),
        [5, 0, 0]
    );
    assert_eq!(
        payload(
            extended_dpi_scripted_response(&short(0, 0, [0x22, 0x01, 0])),
            0,
            0
        ),
        [0, 0, 0]
    );
    assert_eq!(ask(0, [0, 0, 0]), [1, 0, 0]);
    let ranges = ask(2, [7, 8, 9]);
    assert_eq!(ranges[..3], [7, 8, 9]);
    assert_eq!(be16(&ranges, 5), 0xe064);
    assert_eq!(
        expand_dpi_ranges(&[
            DpiRange::Stepped {
                from: be16(&ranges, 3),
                to: be16(&ranges, 7),
                step: 100
            },
            DpiRange::Fixed(be16(&ranges, 9))
        ]),
        [400, 500, 600, 700, 800, 1200]
    );
    assert_eq!(ranges[11..], [0, 0, 0, 0, 0]);
    let parameters = ask(5, [0, 0, 0]);
    assert_eq!(be16(&parameters, 1), 800);
    assert_eq!(be16(&parameters, 3), 800);
    assert_eq!(parameters[9], 1);
    assert_eq!(
        payload(
            extended_dpi_scripted_response(&long(5, 6, &[0, 4, 0xb0, 0, 0, 1, 9])),
            5,
            6
        ),
        [0, 4, 0xb0, 0, 0, 1, 0, 0, 0, 0, 0, 0, 0, 0, 0, 0]
    );
}

#[test]
fn scripted_keyboard_reports_four_zones() {
    let mut zones = Vec::new();
    for page in 0..3 {
        let reply = payload(
            per_key_v2_scripted_response(&short(7, 0, [5, page, 0])),
            7,
            0,
        );
        assert_eq!(reply[..2], [5, page]);
        let mut bitfield = [0u8; 14];
        bitfield.copy_from_slice(&reply[2..]);
        collect_present_zones(u16::from(page) * 112, &bitfield, &mut zones);
    }
    assert_eq!(zones, [1, 2, 3, 4]);
    for function in [6, 7] {
        let arguments = [1, 2, 3, 4, 5, 6, 7, 8, 9, 10, 11, 12, 13];
        assert_eq!(
            payload(
                per_key_v2_scripted_response(&long(7, function, &arguments)),
                7,
                function
            ),
            [1, 2, 3, 4, 5, 6, 7, 8, 9, 10, 11, 12, 0, 0, 0, 0]
        );
    }
}

#[test]
fn padding_of_the_last_key_frame_is_zero() {
    let reports = per_key_reports(1, 2, 3, 4, 5);
    // 233 keys fill sixteen frames and nine slots of the last one.
    assert_eq!(reports[16][8 + 4 * 8..8 + 4 * 9], [0xe8, 3, 4, 5]);
    assert!(reports[16][8 + 4 * 9..].iter().all(|byte| *byte == 0));
    assert_eq!((reports[0][4], reports[0][6]), (0, 0));
}
