use code_hunt::elf::elf_counter;

#[test]
fn counts_elves_on_shelves() {
    let r = elf_counter(b"elf on a shelf, elf on a shelf");
    assert_eq!(r.elf, 4);
    assert_eq!(r.elf_on_a_shelf, Some(2));
    assert_eq!(r.shelf_with_no_elf, None);
}

#[test]
fn counts_bare_shelves() {
    let r = elf_counter(b"there is a shelf and another shelf");
    assert_eq!(r.elf, 2);
    assert_eq!(r.elf_on_a_shelf, None);
    assert_eq!(r.shelf_with_no_elf, Some(2));
}

#[test]
fn counts_standalone_elves() {
    let r = elf_counter(b"elf elf elf");
    assert_eq!(r.elf, 3);
    assert_eq!(r.elf_on_a_shelf, None);
    assert_eq!(r.shelf_with_no_elf, None);
}

#[test]
fn shelf_count_is_omitted_whenever_elf_on_a_shelf_is_present() {
    // The first shelf is not part of an " elf on a shelf", so the bare-shelf
    // count is 1; it is still omitted because elf-on-a-shelf is present.
    let r = elf_counter(b"shelf on a shelf");
    assert_eq!(r.elf, 2);
    assert_eq!(r.elf_on_a_shelf, Some(1));
    assert_eq!(r.shelf_with_no_elf, None);
}

#[test]
fn shelf_needs_its_exact_ten_byte_prefix() {
    let r = elf_counter(b"In Belfast I heard an elf on a shelf on a shelf on a");
    assert_eq!(r.elf, 4);
    assert_eq!(r.elf_on_a_shelf, Some(1));
    assert_eq!(r.shelf_with_no_elf, None);
}

#[test]
fn empty_body_counts_nothing() {
    let r = elf_counter(b"");
    assert_eq!(r.elf, 0);
    assert_eq!(r.elf_on_a_shelf, None);
    assert_eq!(r.shelf_with_no_elf, None);
}
