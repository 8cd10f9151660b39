use std::collections::HashSet;

use microsandbox_vfs::abi::DirEntry;
use microsandbox_vfs::dirent::{provisional_inode, provisional_inode_salted, unique_dirent_inode};
use microsandbox_vfs::paging::{page_end, serve_page, FUSE_DIRENT_HEADER};
use microsandbox_vfs::paths::{is_at_or_under, is_tombstone, join, parent_path, tombstone_key};

#[test]
fn children_are_joined_to_their_directory() {
    assert_eq!(join(b"/", b"a"), b"/a");
    assert_eq!(join(b"/a", b"b"), b"/a/b");
    assert_eq!(parent_path(b"/a/b"), b"/a");
    assert_eq!(parent_path(b"/a"), b"/");
    assert_eq!(parent_path(b"/"), b"/");
}

#[test]
fn containment_goes_by_whole_components() {
    assert!(is_at_or_under(b"/a", b"/a"));
    assert!(is_at_or_under(b"/a/b", b"/a"));
    assert!(!is_at_or_under(b"/ab", b"/a"));
    assert!(!is_at_or_under(b"/a", b"/a/b"));
    assert!(is_at_or_under(b"/a", b"/"));
    assert!(is_at_or_under(b"/", b"/"));
}

#[test]
fn tombstones_are_no_guest_paths() {
    assert_eq!(tombstone_key(0x0102), [0, 0, 0, 0, 0, 0, 0, 1, 2]);
    assert!(is_tombstone(&tombstone_key(7)));
    assert!(!is_tombstone(b"/a"));
    assert!(!is_tombstone(b""));
}

#[test]
fn provisional_numbers_are_marked_hashes() {
    assert_eq!(provisional_inode(b"a"), 0xaf63_dc4c_8601_ec8c);
    assert_eq!(provisional_inode(b""), 0xcbf2_9ce4_8422_2325);
    assert_ne!(provisional_inode_salted(b"a", 1), provisional_inode(b"a"));
    assert!(provisional_inode_salted(b"a", 1) >= 1 << 63);
}

#[test]
fn numbers_of_one_listing_differ() {
    let mut seen = HashSet::new();
    assert_eq!(unique_dirent_inode(5, b"/x", &mut seen), 5);
    let second = unique_dirent_inode(5, b"/x", &mut seen);
    assert_eq!(second, provisional_inode_salted(b"/x", 1));
    let third = unique_dirent_inode(5, b"/x", &mut seen);
    assert_eq!(third, provisional_inode_salted(b"/x", 2));
    assert_eq!(seen.len(), 3);
}

fn listing(n: u64) -> Vec<DirEntry> {
    (1..=n)
        .map(|i| DirEntry {
            ino: i,
            offset: i,
            type_: 8,
            name: vec![b'a'; 1],
        })
        .collect()
}

#[test]
fn pages_take_as_much_as_fits() {
    // Each entry takes 40 bytes.
    let entries = listing(5);
    assert_eq!(page_end(&entries, 0, 120, FUSE_DIRENT_HEADER), 3);
    assert_eq!(page_end(&entries, 0, 119, FUSE_DIRENT_HEADER), 2);
    assert_eq!(page_end(&entries, 3, 120, FUSE_DIRENT_HEADER), 5);
    // At least one entry is served, and none past the end.
    assert_eq!(page_end(&entries, 1, 0, FUSE_DIRENT_HEADER), 2);
    assert_eq!(page_end(&entries, 5, 4096, FUSE_DIRENT_HEADER), 5);
    let page = serve_page(&entries, 2, 80, FUSE_DIRENT_HEADER);
    let cookies: Vec<u64> = page.iter().map(|e| e.offset).collect();
    assert_eq!(cookies, [3, 4]);
    assert!(serve_page(&entries, 5, 80, FUSE_DIRENT_HEADER).is_empty());
}
