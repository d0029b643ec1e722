use openlogi_onboard::error::Hidpp20Error;
use openlogi_onboard::feature::{
    be16, contains_terminator, parse_directory, CallArguments, DirectoryStep, FeatureEndpoint,
    OnboardMode, OnboardProfilesFeature, ProfilesDescription,
};

const FEATURE: OnboardProfilesFeature = OnboardProfilesFeature {
    endpoint: FeatureEndpoint {
        device_index: 0xff,
        feature_index: 0x0b,
    },
};

/// A description payload with room for `user` user and `rom` ROM profiles.
fn description(user: u8, rom: u8) -> ProfilesDescription {
    FEATURE.get_description(&[
        1, 2, 3, user, rom, 11, 16, 0x01, 0xfe, 7, 8, 0, 0, 0, 0, 0,
    ])
}

/// The sectors and enabled flags of a directory.
fn entries(bytes: &[u8], max_entries: usize) -> Option<Vec<(u16, bool)>> {
    match parse_directory(bytes, max_entries) {
        Ok(entries) => Some(
            entries
                .iter()
                .map(|entry| (entry.sector, entry.enabled))
                .collect(),
        ),
        Err(error) => {
            assert_eq!(error, Hidpp20Error::UnsupportedResponse);
            None
        }
    }
}

#[test]
fn numbers_are_big_endian() {
    assert_eq!(be16(&[0x12, 0x34, 0x56], 0), 0x1234);
    assert_eq!(be16(&[0x12, 0xff, 0xff], 1), 0xffff);
}

#[test]
fn description_is_read_field_by_field() {
    let description = description(5, 3);
    assert_eq!(description.memory_model_id, 1);
    assert_eq!(description.profile_format_id, 2);
    assert_eq!(description.macro_format_id, 3);
    assert_eq!(description.profile_count, 5);
    assert_eq!(description.profile_count_oob, 3);
    assert_eq!(description.button_count, 11);
    assert_eq!(description.sector_count, 16);
    assert_eq!(description.sector_size, 0x01fe);
    assert_eq!(description.mechanical_layout, 7);
    assert_eq!(description.various_info, 8);
    assert_eq!(description.total_profile_count(), 8);
}

#[test]
fn mode_bytes_read_back() {
    for mode in [OnboardMode::Onboard, OnboardMode::Host] {
        assert_eq!(OnboardMode::from_byte(mode.to_byte()), Some(mode));
    }
    assert_eq!(OnboardMode::Onboard.to_byte(), 1);
    assert_eq!(OnboardMode::Host.to_byte(), 2);
    // "No change" is legal in a request only.
    assert_eq!(OnboardMode::from_byte(0), None);
    assert_eq!(OnboardMode::from_byte(3), None);
}

#[test]
fn mode_replies_are_decoded() {
    assert_eq!(FEATURE.get_onboard_mode(&[1; 16]), Ok(OnboardMode::Onboard));
    assert_eq!(FEATURE.get_onboard_mode(&[2; 16]), Ok(OnboardMode::Host));
    assert_eq!(
        FEATURE.get_onboard_mode(&[0; 16]),
        Err(Hidpp20Error::UnsupportedResponse)
    );
    let mut payload = [0u8; 16];
    payload[0] = 0x01;
    payload[1] = 0x02;
    assert_eq!(FEATURE.get_current_profile(&payload), 0x0102);
}

#[test]
fn calls_carry_function_and_arguments() {
    let cases = [
        (FEATURE.get_description_call(), 0, [0, 0, 0]),
        (FEATURE.set_onboard_mode(OnboardMode::Host), 1, [2, 0, 0]),
        (FEATURE.get_onboard_mode_call(), 2, [0, 0, 0]),
        (FEATURE.set_current_profile(0x0102), 3, [1, 2, 0]),
        (FEATURE.get_current_profile_call(), 4, [0, 0, 0]),
    ];
    for (call, function, arguments) in cases {
        assert_eq!(call.endpoint, FEATURE.endpoint);
        assert_eq!(call.function, function);
        assert_eq!(call.arguments, CallArguments::Short(arguments));
    }
    let read = FEATURE.memory_read(0x0102, 0x0304);
    assert_eq!(read.endpoint, FEATURE.endpoint);
    assert_eq!(read.function, 5);
    assert_eq!(
        read.arguments,
        CallArguments::Long([1, 2, 3, 4, 0, 0, 0, 0, 0, 0, 0, 0, 0, 0, 0, 0])
    );
}

#[test]
fn directory_ends_at_the_terminator_or_the_bound() {
    let bytes = [
        0x00, 0x01, 1, 0xaa, 0x01, 0x01, 0, 0x00, 0xff, 0xff, 0xff, 0xff,
    ];
    assert_eq!(
        entries(&bytes, 5),
        Some(vec![(1, true), (0x0101, false)])
    );
    assert_eq!(entries(&bytes, 1), Some(vec![(1, true)]));
    assert_eq!(entries(&bytes, 0), Some(vec![]));
    assert_eq!(entries(&bytes[..8], 2), Some(vec![(1, true), (0x0101, false)]));
}

#[test]
fn erased_flash_is_an_empty_directory() {
    assert_eq!(entries(&[0xff; 16], 3), Some(vec![]));
}

#[test]
fn short_or_malformed_directories_are_refused() {
    assert_eq!(entries(&[], 1), None);
    assert_eq!(entries(&[0, 1, 1, 0, 0, 2, 1], 2), None);
    assert_eq!(entries(&[0, 1, 2, 0, 0xff, 0xff, 0, 0], 2), None);
}

#[test]
fn only_aligned_entries_terminate() {
    assert!(contains_terminator(&[0, 1, 1, 0, 0xff, 0xff, 0, 0]));
    assert!(!contains_terminator(&[0, 1, 0xff, 0xff, 0, 2, 1, 0]));
    assert!(!contains_terminator(&[0, 1, 1, 0, 0xff, 0xff, 0]));
    assert!(!contains_terminator(&[]));
}

#[test]
fn directory_is_read_until_it_terminates() {
    let mut read = FEATURE.read_profile_directory(&description(5, 3));
    let DirectoryStep::Read { sector, offset } = read.next() else {
        panic!("nothing is read yet");
    };
    assert_eq!((sector, offset), (0, 0));
    read.accept(&[0, 1, 1, 0, 0, 2, 0, 0, 0, 3, 1, 0, 0, 4, 1, 0]);
    let DirectoryStep::Read { sector, offset } = read.next() else {
        panic!("no terminator is read yet");
    };
    assert_eq!((sector, offset), (0, 16));
    read.accept(&[1, 1, 1, 0, 0xff, 0xff, 0, 0, 0, 9, 9, 9, 0, 9, 9, 9]);
    let DirectoryStep::Done(result) = read.next() else {
        panic!("the terminator is read");
    };
    let sectors: Vec<u16> = result
        .expect("well-formed")
        .iter()
        .map(|entry| entry.sector)
        .collect();
    assert_eq!(sectors, [1, 2, 3, 4, 0x0101]);
}

#[test]
fn directory_without_terminator_is_read_up_to_its_bound() {
    let mut read = FEATURE.read_profile_directory(&description(3, 0));
    let mut reads = 0;
    loop {
        match read.next() {
            DirectoryStep::Read { offset, .. } => {
                assert_eq!(offset, 16 * reads);
                read.accept(&[0, 1, 1, 0, 0, 2, 0, 0, 0, 3, 1, 0, 0, 4, 1, 0]);
                reads += 1;
            }
            DirectoryStep::Done(result) => {
                assert_eq!(result.expect("well-formed").len(), 3);
                break;
            }
        }
    }
    assert_eq!(reads, 1);

    let mut read = FEATURE.read_profile_directory(&description(4, 0));
    read.accept(&[0, 1, 1, 0, 0, 2, 0, 0, 0, 3, 1, 0, 0, 4, 7, 0]);
    assert!(matches!(read.next(), DirectoryStep::Read { offset: 16, .. }));
    read.accept(&[0xff; 16]);
    assert!(matches!(
        read.next(),
        DirectoryStep::Done(Err(Hidpp20Error::UnsupportedResponse))
    ));
}
