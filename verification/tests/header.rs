use elf2tab::checksum::{checksum_of, inject_checksum};
use elf2tab::header::{
    TbfFooterCredentials, TbfFooterCredentialsType, TbfHeader, TbfHeaderTlv, TbfHeaderTypes,
};
use elf2tab::permissions::merge_permissions;

/// The exclusive-or of the little-endian words of `bytes`.
fn fold(bytes: &[u8]) -> u32 {
    bytes.chunks(4).fold(0, |sum, chunk| {
        let mut word = [0u8; 4];
        word[..chunk.len()].copy_from_slice(chunk);
        sum ^ u32::from_le_bytes(word)
    })
}

fn words(values: &[u32]) -> Vec<u8> {
    values.iter().flat_map(|value| value.to_le_bytes()).collect()
}

fn created(
    regions: usize,
    name: &str,
    ram: Option<u32>,
    flash: Option<u32>,
    permissions: Vec<(u32, u32)>,
    storage: (Option<u32>, Option<Vec<u32>>, Option<Vec<u32>>),
    kernel: Option<(u16, u16)>,
) -> (TbfHeader, usize) {
    let mut header = TbfHeader::new();
    let length = header.create(
        4096,
        regions,
        name.to_string(),
        ram,
        flash,
        permissions,
        storage,
        kernel,
        false,
    );
    (header, length)
}

#[test]
fn codes_of_record_kinds_and_formats() {
    assert_eq!(TbfHeaderTypes::Main.code(), 1);
    assert_eq!(TbfHeaderTypes::WriteableFlashRegions.code(), 2);
    assert_eq!(TbfHeaderTypes::PackageName.code(), 3);
    assert_eq!(TbfHeaderTypes::PicOption1.code(), 4);
    assert_eq!(TbfHeaderTypes::FixedAddresses.code(), 5);
    assert_eq!(TbfHeaderTypes::Permissions.code(), 6);
    assert_eq!(TbfHeaderTypes::Persistent.code(), 7);
    assert_eq!(TbfHeaderTypes::KernelVersion.code(), 8);
    assert_eq!(TbfHeaderTypes::Program.code(), 9);
    assert_eq!(TbfHeaderTypes::Credentials.code(), 128);
    assert_eq!(TbfFooterCredentialsType::Reserved.code(), 0);
    assert_eq!(TbfFooterCredentialsType::Rsa3072Key.code(), 1);
    assert_eq!(TbfFooterCredentialsType::Rsa4096Key.code(), 2);
    assert_eq!(TbfFooterCredentialsType::SHA256.code(), 3);
    assert_eq!(TbfFooterCredentialsType::SHA384.code(), 4);
    assert_eq!(TbfFooterCredentialsType::SHA512.code(), 5);
}

#[test]
fn new_header_holds_base_and_main() {
    let header = TbfHeader::new();
    let bytes = header.generate();
    let expected = words(&[0x0000_0002, 0, 0, 0x000C_0003, 0x000C_0001, 0, 0, 0]);
    assert_eq!(bytes, expected);
    assert_eq!(header.binary_end_offset(), 0);
    assert_eq!(header.program().is_none(), true);
}

#[test]
fn header_without_optional_records() {
    let (header, length) = created(0, "", None, None, Vec::new(), (None, None, None), None);
    assert_eq!(length, 56);
    assert_eq!(header.header_size(), 56);
    let bytes = header.generate();
    let expected = words(&[
        0x0038_0002,
        0,
        1,
        0x0020_000B,
        0x000C_0001,
        0,
        0,
        4096,
        0x0014_0009,
        0,
        0,
        4096,
        0,
        0,
    ]);
    assert_eq!(bytes, expected);
    assert_eq!(fold(&bytes), 0);
}

#[test]
fn disabled_application_has_no_enable_flag() {
    let mut header = TbfHeader::new();
    header.create(0, 0, String::new(), None, None, Vec::new(), (None, None, None), None, true);
    assert_eq!(header.base().flags, 0);
    let mut header = TbfHeader::new();
    header.create(0, 0, String::new(), None, None, Vec::new(), (None, None, None), None, false);
    assert_eq!(header.base().flags, 1);
}

#[test]
fn package_name_is_padded_to_a_multiple_of_four() {
    for (name, length) in [("a", 64), ("ab", 64), ("abc", 64), ("abcd", 64), ("blink", 68)] {
        let (header, created_length) =
            created(0, name, None, None, Vec::new(), (None, None, None), None);
        assert_eq!(created_length, length);
        let bytes = header.generate();
        assert_eq!(bytes.len(), length);
        assert_eq!(&bytes[56..58], &3u16.to_le_bytes());
        assert_eq!(&bytes[58..60], &(name.len() as u16).to_le_bytes());
        assert_eq!(&bytes[60..60 + name.len()], name.as_bytes());
        assert!(bytes[60 + name.len()..].iter().all(|byte| *byte == 0));
    }
    let (header, length) = created(0, "grüße", None, None, Vec::new(), (None, None, None), None);
    assert_eq!(length, 56 + 4 + 8);
    assert_eq!(&header.generate()[60..67], "grüße".as_bytes());
}

#[test]
fn header_with_every_record() {
    let (mut header, length) = created(
        2,
        "blink",
        Some(0x2000_4000),
        None,
        vec![(1, 2), (1, 3), (2, 64), (1, 2)],
        (Some(0x1234_5678), Some(vec![1, 2]), None),
        Some((2, 1)),
    );
    assert_eq!(length, 56 + 12 + 24 + 12 + 40 + 20 + 8);
    header.set_protected_size(8);
    header.set_init_fn_offset(0x29);
    header.set_writeable_flash_region_values(0x100, 0x40);
    header.set_writeable_flash_region_values(0x200, 0x80);
    header.set_writeable_flash_region_values(0x300, 0xC0);
    header.set_binary_end_offset(0x1000);
    header.set_app_version(3);
    header.set_total_size(0x2000);

    let mut expected = Vec::new();
    expected.extend(2u16.to_le_bytes());
    expected.extend(172u16.to_le_bytes());
    expected.extend(words(&[0x2000, 1, 0]));
    expected.extend(words(&[0x000C_0001, 0x29, 8, 4096]));
    expected.extend(words(&[0x0014_0009, 0x29, 8, 4096, 0x1000, 3]));
    expected.extend(words(&[0x0005_0003]));
    expected.extend(b"blink\0\0\0");
    expected.extend(words(&[0x0008_0002, 0x100, 0x40]));
    expected.extend(words(&[0x0008_0002, 0x200, 0x80]));
    expected.extend(words(&[0x0008_0005, 0x2000_4000, 0xFFFF_FFFF]));
    expected.extend(words(&[0x0022_0006]));
    expected.extend(2u16.to_le_bytes());
    expected.extend(words(&[1, 0]));
    expected.extend(0b1100u64.to_le_bytes());
    expected.extend(words(&[2, 1]));
    expected.extend(1u64.to_le_bytes());
    expected.extend([0u8, 0]);
    expected.extend(words(&[0x0010_0007, 0x1234_5678]));
    expected.extend(2u16.to_le_bytes());
    expected.extend(words(&[1, 2]));
    expected.extend(0u16.to_le_bytes());
    expected.extend(words(&[0x0004_0008]));
    expected.extend(2u16.to_le_bytes());
    expected.extend(1u16.to_le_bytes());
    let sum = fold(&expected);
    expected[12..16].copy_from_slice(&sum.to_le_bytes());

    let bytes = header.generate();
    assert_eq!(bytes.len(), 172);
    assert_eq!(bytes, expected);
    assert_eq!(fold(&bytes), 0);
    assert_eq!(header.binary_end_offset(), 0x1000);
}

#[test]
fn header_length_is_a_multiple_of_four_and_the_checksum_closes_it() {
    let names = ["", "a", "ab", "abc", "abcd", "abcde"];
    let mut seen = 0;
    for choice in 0..(6 * 32) {
        let name = names[choice % 6];
        let bits = choice / 6;
        let fixed = if bits & 1 != 0 { Some(0x2000_0000) } else { None };
        let permissions = if bits & 2 != 0 { vec![(7, 1), (7, 70), (8, 0)] } else { Vec::new() };
        let storage = if bits & 4 != 0 {
            (None, Some(vec![5]), Some(vec![6, 7, 8]))
        } else {
            (None, None, None)
        };
        let kernel = if bits & 8 != 0 { Some((2, 0)) } else { None };
        let regions = if bits & 16 != 0 { 3 } else { 0 };
        let (header, length) = created(regions, name, fixed, None, permissions, storage, kernel);
        let bytes = header.generate();
        assert_eq!(length % 4, 0);
        assert_eq!(bytes.len(), length);
        assert_eq!(header.header_size() as usize, length);
        assert_eq!(fold(&bytes), 0);
        assert_eq!(checksum_of(&bytes), 0);
        seen += 1;
    }
    assert_eq!(seen, 192);
}

#[test]
fn checksum_is_the_fold_of_the_words() {
    let mut buffer: Vec<u8> = (1..=20).collect();
    buffer[12..16].fill(0);
    let sum = checksum_of(&buffer);
    assert_eq!(sum, 0x0403_0201 ^ 0x0807_0605 ^ 0x0C0B_0A09 ^ 0x1413_1211);
    inject_checksum(&mut buffer);
    assert_eq!(&buffer[12..16], &sum.to_le_bytes());
    assert_eq!(checksum_of(&buffer), 0);
    // A last word that is cut short counts with zero bytes behind it.
    assert_eq!(checksum_of(&vec![1, 2, 3, 4, 5, 6]), 0x0403_0201 ^ 0x0000_0605);
    assert_eq!(checksum_of(&Vec::new()), 0);
}

#[test]
fn permissions_in_one_word_are_merged() {
    let merged = merge_permissions(&vec![(1, 0), (1, 63), (1, 64), (2, 0), (1, 1), (1, 64)]);
    assert_eq!(merged.len(), 3);
    assert_eq!(
        (merged[0].driver_number, merged[0].offset, merged[0].allowed_commands),
        (1, 0, (1u64 << 63) | 0b11)
    );
    assert_eq!(
        (merged[1].driver_number, merged[1].offset, merged[1].allowed_commands),
        (1, 1, 1)
    );
    assert_eq!(
        (merged[2].driver_number, merged[2].offset, merged[2].allowed_commands),
        (2, 0, 1)
    );
    assert!(merge_permissions(&Vec::new()).is_empty());
    let far = merge_permissions(&vec![(u32::MAX, u32::MAX)]);
    assert_eq!(
        (far[0].driver_number, far[0].offset, far[0].allowed_commands),
        (u32::MAX, 0x03FF_FFFF, 1u64 << 63)
    );
}

#[test]
fn regions_are_recorded_in_the_first_unused_record() {
    let (mut header, _) = created(2, "", None, None, Vec::new(), (None, None, None), None);
    header.set_writeable_flash_region_values(10, 0);
    header.set_writeable_flash_region_values(20, 4);
    header.set_writeable_flash_region_values(30, 8);
    header.set_writeable_flash_region_values(40, 12);
    let regions = header.writeable_flash_regions();
    assert_eq!((regions[0].offset, regions[0].size), (20, 4));
    assert_eq!((regions[1].offset, regions[1].size), (30, 8));
    assert_eq!(regions.len(), 2);
}

#[test]
fn binary_end_offset_comes_from_the_program_record() {
    let mut header = TbfHeader::new();
    header.set_total_size(77);
    assert_eq!(header.binary_end_offset(), 77);
    header.set_app_version(5);
    assert!(header.program().is_none());
    header.set_minimum_ram_size(9);
    header.set_init_fn_offset(3);
    header.set_protected_size(4);
    header.set_binary_end_offset(60);
    assert_eq!(header.binary_end_offset(), 60);
    let program = header.program().unwrap();
    assert_eq!(
        (program.init_fn_offset, program.protected_size, program.minimum_ram_size),
        (3, 4, 9)
    );
    assert_eq!(program.app_version, 0);
    header.set_app_version(5);
    header.set_minimum_ram_size(10);
    let program = header.program().unwrap();
    assert_eq!((program.app_version, program.minimum_ram_size), (5, 10));
    assert_eq!(header.main().minimum_ram_size, 10);
    assert_eq!(header.generate().len(), 56);
}

#[test]
fn header_that_does_not_fit_its_size_field_is_refused() {
    let mut header = TbfHeader::new();
    let long = "x".repeat(65_473);
    assert_eq!(
        header.planned_length(0, &long, None, None, &Vec::new(), &(None, None, None), None),
        None
    );
    let created = header.try_create(
        1,
        0,
        long,
        None,
        None,
        Vec::new(),
        (None, None, None),
        None,
        false,
    );
    assert_eq!(created, None);
    assert_eq!(header.generate().len(), 32);
    let fits = "x".repeat(65_472);
    assert_eq!(
        header.planned_length(0, &fits, None, None, &Vec::new(), &(None, None, None), None),
        Some(65_536 - 4)
    );
    let created = header.try_create(
        1,
        0,
        fits,
        None,
        None,
        Vec::new(),
        (None, None, None),
        None,
        false,
    );
    assert_eq!(created, Some(65_532));
    assert_eq!(header.generate().len(), 65_532);
    let mut header = TbfHeader::new();
    assert_eq!(
        header.try_create(
            1,
            5_457,
            String::new(),
            None,
            None,
            Vec::new(),
            (None, None, None),
            None,
            false
        ),
        None
    );
}

#[test]
fn footer_in_binary_form() {
    let footer = TbfFooterCredentials {
        base: TbfHeaderTlv { tipe: TbfHeaderTypes::Credentials, length: 7 },
        format: TbfFooterCredentialsType::SHA512,
        data: vec![0xAA, 0xBB, 0xCC],
    };
    assert_eq!(footer.generate(), vec![128, 0, 7, 0, 5, 0, 0, 0, 0xAA, 0xBB, 0xCC]);
}
