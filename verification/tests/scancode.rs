use maplehelper::error::HelperError;
use maplehelper::scancode::ERROR_ACCESS_DENIED;
use maplehelper::scancode::ERROR_FILE_NOT_FOUND;
use maplehelper::scancode::RegistryWrite;
use maplehelper::scancode::encode_scancode_map;
use maplehelper::scancode::get_hanja_removal;
use maplehelper::scancode::merge_hanja_removal;
use maplehelper::scancode::open_scancode_key;
use maplehelper::scancode::parse_scancode_map;
use maplehelper::scancode::read_scancode_entries;
use maplehelper::scancode::scancode_entries;
use maplehelper::scancode::scancode_value_exists;
use maplehelper::scancode::scancode_write_result;
use maplehelper::scancode::set_hanja_removal;
use maplehelper::scancode::write_scancode_entries;

fn stored(change: &RegistryWrite) -> Option<Vec<u8>> {
    match change {
        RegistryWrite::Delete => None,
        RegistryWrite::Store(bytes) => Some(bytes.clone()),
    }
}

#[test]
fn the_value_has_its_layout() {
    let bytes = encode_scancode_map(&vec![(0xE01D, 0x001D), (0x0071, 0x0000)]);
    assert_eq!(
        bytes,
        vec![
            0, 0, 0, 0, 0, 0, 0, 0, // header
            3, 0, 0, 0, // entries and terminator
            0x1D, 0x00, 0x1D, 0xE0, // right control
            0x00, 0x00, 0x71, 0x00, // hanja
            0, 0, 0, 0, // terminator
        ]
    );
}

#[test]
fn reading_stops_at_the_terminator_or_the_end() {
    let mut bytes = encode_scancode_map(&vec![(1, 2)]);
    bytes.extend([9, 9, 9, 9]);
    assert_eq!(parse_scancode_map(&bytes), vec![(1, 2)]);
    let open = [0u8, 0, 0, 0, 0, 0, 0, 0, 9, 9, 9, 9, 2, 0, 1, 0, 4, 0, 3, 0, 7, 7, 7];
    assert_eq!(parse_scancode_map(&open), vec![(1, 2), (3, 4)]);
    assert!(parse_scancode_map(&[]).is_empty());
    assert!(parse_scancode_map(&open[..11]).is_empty());
    assert!(parse_scancode_map(&open[..15]).is_empty());
    assert_eq!(parse_scancode_map(&open[..16]), vec![(1, 2)]);
}

#[test]
fn stored_entries_are_read_back() {
    let entries = vec![(0xE01D, 0x001D), (0x0071, 0), (0, 5), (u16::MAX, u16::MAX)];
    let change = write_scancode_entries(&entries);
    let bytes = stored(&change).unwrap();
    assert_eq!(read_scancode_entries(0, &bytes), Ok(entries));
}

#[test]
fn an_entry_of_zeros_ends_the_list() {
    let bytes = encode_scancode_map(&vec![(1, 2), (0, 0), (3, 4)]);
    assert_eq!(parse_scancode_map(&bytes), vec![(1, 2)]);
}

#[test]
fn no_entry_that_is_read_is_zero() {
    let bytes: Vec<u8> = (0..64).map(|i| (i % 3) as u8).collect();
    assert!(!parse_scancode_map(&bytes).contains(&(0, 0)));
}

#[test]
fn no_entries_are_stored_as_no_value() {
    assert!(matches!(write_scancode_entries(&Vec::new()), RegistryWrite::Delete));
    assert!(matches!(write_scancode_entries(&vec![(1, 2)]), RegistryWrite::Store(_)));
}

#[test]
fn codes_of_reading() {
    assert_eq!(open_scancode_key(0), Ok(()));
    assert_eq!(open_scancode_key(5), Err(HelperError::RegistryOpen(5)));
    assert_eq!(scancode_value_exists(0), Ok(true));
    assert_eq!(scancode_value_exists(ERROR_FILE_NOT_FOUND), Ok(false));
    assert_eq!(scancode_value_exists(6), Err(HelperError::RegistryQuery(6)));
    assert_eq!(read_scancode_entries(234, &[]), Err(HelperError::RegistryRead(234)));
    assert_eq!(read_scancode_entries(0, &[]), Ok(Vec::new()));
}

#[test]
fn a_missing_value_has_no_entries() {
    let bytes = encode_scancode_map(&vec![(1, 2)]);
    assert_eq!(scancode_entries(0, 0, &bytes), Ok(vec![(1, 2)]));
    assert_eq!(scancode_entries(ERROR_FILE_NOT_FOUND, 0, &[]), Ok(Vec::new()));
    assert_eq!(scancode_entries(ERROR_FILE_NOT_FOUND, 9, &bytes), Ok(Vec::new()));
    assert_eq!(scancode_entries(6, 0, &bytes), Err(HelperError::RegistryQuery(6)));
    assert_eq!(scancode_entries(0, 2, &bytes), Err(HelperError::RegistryRead(2)));
}

#[test]
fn codes_of_writing() {
    let store = RegistryWrite::Store(vec![1]);
    let delete = RegistryWrite::Delete;
    assert_eq!(scancode_write_result(&store, 0), Ok(()));
    assert_eq!(scancode_write_result(&delete, 0), Ok(()));
    assert_eq!(scancode_write_result(&delete, ERROR_FILE_NOT_FOUND), Ok(()));
    assert_eq!(
        scancode_write_result(&store, ERROR_FILE_NOT_FOUND),
        Err(HelperError::RegistryWrite(2))
    );
    for change in [&store, &delete] {
        assert_eq!(
            scancode_write_result(change, ERROR_ACCESS_DENIED),
            Err(HelperError::AccessDenied)
        );
        assert_eq!(scancode_write_result(change, 87), Err(HelperError::RegistryWrite(87)));
    }
}

#[test]
fn removal_is_found_by_the_right_control_entry() {
    assert!(get_hanja_removal(&Ok(vec![(1, 2), (0xE01D, 0x001D)])));
    assert!(!get_hanja_removal(&Ok(vec![(0xE01D, 0x0038), (0x0071, 0)])));
    assert!(!get_hanja_removal(&Ok(Vec::new())));
    assert!(!get_hanja_removal(&Err(HelperError::RegistryOpen(2))));
}

#[test]
fn removal_keeps_other_entries() {
    let mut entries = vec![(0x003A, 0x001D), (0x0046, 0)];
    merge_hanja_removal(&mut entries, true);
    assert_eq!(entries, vec![(0x003A, 0x001D), (0x0046, 0), (0xE01D, 0x001D), (0x0071, 0)]);
    let once = entries.clone();
    merge_hanja_removal(&mut entries, true);
    assert_eq!(entries, once);
}

#[test]
fn removal_leaves_an_own_entry_for_the_key_alone() {
    let mut entries = vec![(0xE01D, 0x0038)];
    merge_hanja_removal(&mut entries, true);
    assert_eq!(entries, vec![(0xE01D, 0x0038), (0x0071, 0)]);
}

#[test]
fn restoring_undoes_removal() {
    let before = vec![(0x003A, 0x001D), (0x0046, 0)];
    let mut entries = before.clone();
    merge_hanja_removal(&mut entries, true);
    merge_hanja_removal(&mut entries, false);
    assert_eq!(entries, before);
}

#[test]
fn restoring_takes_every_entry_for_the_two_keys() {
    let mut entries = vec![(0xE01D, 0x0038), (1, 2), (0x0071, 5), (0xE01D, 0x001D)];
    merge_hanja_removal(&mut entries, false);
    assert_eq!(entries, vec![(1, 2)]);
    merge_hanja_removal(&mut entries, false);
    assert_eq!(entries, vec![(1, 2)]);
}

#[test]
fn removal_takes_effect_once_stored() {
    let change = set_hanja_removal(Ok(vec![(1, 2)]), true).unwrap();
    let read = read_scancode_entries(0, &stored(&change).unwrap());
    assert!(get_hanja_removal(&read));
    let change = set_hanja_removal(read, false).unwrap();
    let read = read_scancode_entries(0, &stored(&change).unwrap());
    assert_eq!(read, Ok(vec![(1, 2)]));
    assert!(!get_hanja_removal(&read));
}

#[test]
fn removal_is_found_once_stored() {
    let maps: Vec<Vec<(u16, u16)>> =
        vec![vec![], vec![(1, 2)], vec![(0xE01D, 0x001D)], vec![(0x0071, 7), (1, 2)]];
    for map in maps {
        for enable in [false, true] {
            let change = set_hanja_removal(Ok(map.clone()), enable).unwrap();
            let read = match stored(&change) {
                Some(bytes) => read_scancode_entries(0, &bytes),
                None => Ok(Vec::new()),
            };
            assert_eq!(get_hanja_removal(&read), enable);
        }
    }
}

#[test]
fn the_last_entry_takes_the_value_with_it() {
    let change = set_hanja_removal(Ok(vec![(0xE01D, 0x001D), (0x0071, 0)]), false).unwrap();
    assert!(matches!(change, RegistryWrite::Delete));
}

#[test]
fn removal_fails_where_the_entries_could_not_be_read() {
    let r = set_hanja_removal(Err(HelperError::RegistryQuery(6)), true);
    assert!(matches!(r, Err(HelperError::RegistryQuery(6))));
}
