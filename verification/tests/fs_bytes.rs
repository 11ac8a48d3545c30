//! Filesystem unit records and byte-wise prefix comparison.

use lateral::byte::ByteCompare;
use lateral::byte::StartsWith;
use lateral::fs::File;
use lateral::fs::FileType;
use lateral::fs::Filesystem;
use lateral::fs::Directory;
use lateral::fs::DATA_SEP;
use lateral::fs::TYPE_DIR;
use lateral::fs::TYPE_FILE;

#[test]
fn unit_round_trips_through_the_index() {
    let mut fs = Filesystem::new();
    assert_eq!(fs.heading, 0);
    assert_eq!(fs.ptr, 0);

    fs.write_unit(FileType::File(File { label: b"boot".to_vec(), data: 0x0102_0304 }));
    // label, separator, tag, then the payload little-endian.
    assert_eq!(&fs.index[0..4], b"boot");
    assert_eq!(fs.index[4], DATA_SEP);
    assert_eq!(fs.index[5], TYPE_FILE);
    assert_eq!(&fs.index[6..10], &[0x04, 0x03, 0x02, 0x01]);
    assert_eq!(fs.heading, 10);

    let read = fs.read_unit();
    match read {
        FileType::File(f) => {
            assert_eq!(f.label, b"boot".to_vec());
            assert_eq!(f.data, 0x0102_0304);
        }
        FileType::Directory(_) => panic!("file read back as directory"),
    }
    assert_eq!(fs.heading, 10);

    // A second unit starts where the first ended once the head commits.
    fs.forward();
    assert_eq!(fs.ptr, 10);
    fs.write_unit(FileType::Directory(Directory { label: b"sys".to_vec(), data: 7 }));
    assert_eq!(&fs.index[10..13], b"sys");
    assert_eq!(fs.index[13], DATA_SEP);
    assert_eq!(fs.index[14], TYPE_DIR);
    assert_eq!(&fs.index[15..19], &[7, 0, 0, 0]);
    match fs.read_unit() {
        FileType::Directory(d) => {
            assert_eq!(d.label, b"sys".to_vec());
            assert_eq!(d.data, 7);
        }
        FileType::File(_) => panic!("directory read back as file"),
    }
}

#[test]
fn starts_with_compares_bytes() {
    assert!(ByteCompare::starts_with("panicked at x", "panicked"));
    assert!(ByteCompare::starts_with("abc", "abc"));
    assert!(ByteCompare::starts_with("abc", ""));
    assert!(!ByteCompare::starts_with("abc", "abd"));
    assert!(!ByteCompare::starts_with("ab", "abc"));
}

#[test]
fn streamed_prefix_consumption() {
    let mut s = StartsWith::new("hello");
    assert_eq!(s.len(), 5);
    assert!(!s.is_empty());
    assert!(s.write_str("he"));
    assert_eq!(s.len(), 3);
    assert!(s.write_str("llo and more"));
    assert!(s.is_empty());

    let mut t = StartsWith::new("hello");
    assert!(!t.write_str("hex"));

    let mut u = StartsWith::new("abc");
    let taken = u.take(2);
    assert_eq!(taken, vec![b'a', b'b']);
    assert_eq!(u.len(), 1);
}
