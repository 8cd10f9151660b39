use microsandbox_vfs::abi::StatVfs64;
use microsandbox_vfs::error::{DataFault, FsError};
use microsandbox_vfs::path_fs::{NodeKind, VAttr, VDirEntry};
use microsandbox_vfs::platform::{LINUX_EINVAL, LINUX_EIO, LINUX_ENAMETOOLONG, LINUX_EPERM};
use microsandbox_vfs::rpc::framing::{
    read_frame, read_frame_header, read_hello, write_frame, write_hello,
};
use microsandbox_vfs::rpc::limits::{clamp_io_size, clamp_write_len};
use microsandbox_vfs::rpc::messages::{
    decode_error_errno, node_kind_from_u8, node_kind_to_u8, validate_request_limits, StatFsWire,
    VAttrWire, VDirEntryWire, VfsRequest, VfsResponse,
};
use microsandbox_vfs::rpc::protocol::{
    MAX_BATCH_PATHS, MAX_BATCH_PATH_BYTES, MAX_FRAME_LEN, MAX_IO_SIZE, MAX_XATTR_VALUE,
    PROTOCOL_VERSION,
};
use microsandbox_vfs::rpc::serve::decode_request;
use microsandbox_vfs::rpc::transport::{default_call_timeout, SocketTransport};
use microsandbox_vfs::time::{Span, VTime};

#[test]
fn node_kind_rejects_out_of_range_byte() {
    assert!(node_kind_from_u8(6).is_ok());
    assert!(node_kind_from_u8(7).is_err());
}

#[test]
fn frame_round_trips() {
    let mut buf = Vec::new();
    write_frame(&mut buf, 42, b"hello").unwrap();
    let (id, payload) = read_frame(&mut buf.as_slice()).unwrap();
    assert_eq!(id, 42);
    assert_eq!(payload, b"hello");
}

#[test]
fn max_frame_len_bounds_write_payload() {
    let oversized = vec![0u8; MAX_FRAME_LEN as usize + 1];
    assert!(write_frame(&mut Vec::new(), 1, &oversized).is_err());
}

#[test]
fn decode_request_rejects_oversized_batch() {
    let paths: Vec<Vec<u8>> = (0..=MAX_BATCH_PATHS)
        .map(|i| format!("/p{i}").into_bytes())
        .collect();
    assert!(decode_request(Ok(VfsRequest::GetAttrMany { paths })).is_err());
}

#[test]
fn call_rejects_mismatched_response_id() {
    // A reply stamped with an id the client will never have sent: ids start at 1.
    let mut framed = Vec::new();
    write_frame(&mut framed, 999, b"reply").unwrap();

    let mut transport = SocketTransport::new();
    let (id, _) = transport.begin_call(b"request").unwrap();
    let reply = read_frame(&mut framed.as_slice());
    assert_eq!(
        SocketTransport::finish_call(id, reply),
        Err(FsError::InvalidData(DataFault::ResponseIdMismatch))
    );
}

#[test]
fn frames_have_their_exact_layout() {
    let mut buf = vec![9u8];
    write_frame(&mut buf, 0x0102_0304_0506_0708, b"ab").unwrap();
    assert_eq!(
        buf,
        [9, 0, 0, 0, 2, 1, 2, 3, 4, 5, 6, 7, 8, b'a', b'b']
    );
    let mut input: &[u8] = &buf[1..];
    read_frame(&mut input).unwrap();
    assert!(input.is_empty());
}

#[test]
fn frames_are_read_one_after_the_other() {
    let mut buf = Vec::new();
    write_frame(&mut buf, 1, b"").unwrap();
    write_frame(&mut buf, 2, b"xyz").unwrap();
    let mut input: &[u8] = &buf;
    assert_eq!(read_frame(&mut input), Ok((1, vec![])));
    assert_eq!(read_frame(&mut input), Ok((2, b"xyz".to_vec())));
    assert_eq!(read_frame(&mut input), Err(FsError::UnexpectedEof));
}

#[test]
fn broken_frames_are_refused() {
    let mut short: &[u8] = &[0, 0, 0];
    assert_eq!(read_frame(&mut short), Err(FsError::UnexpectedEof));
    let mut cut: &[u8] = &[0, 0, 0, 5, 0, 0, 0, 0, 0, 0, 0, 1, b'a'];
    assert_eq!(read_frame(&mut cut), Err(FsError::UnexpectedEof));
    assert!(cut.is_empty());
    let mut large: &[u8] = &[255, 0, 0, 0, 0, 0, 0, 0, 0, 0, 0, 1, b'a'];
    assert_eq!(
        read_frame(&mut large),
        Err(FsError::InvalidData(DataFault::FrameTooLarge))
    );
    assert_eq!(large, b"a");
    assert_eq!(
        write_frame(
            &mut Vec::new(),
            1,
            &vec![0u8; MAX_FRAME_LEN as usize + 1]
        ),
        Err(FsError::InvalidInput)
    );
    assert_eq!(
        read_frame_header(&[0, 0, 0, 3, 0, 0, 0, 0, 0, 0, 0, 7]),
        Ok((3, 7))
    );
}

#[test]
fn hello_has_its_exact_layout_and_is_accepted() {
    let mut buf = Vec::new();
    write_hello(&mut buf).unwrap();
    assert_eq!(buf, b"MVFS\x00\x00\x00\x01");
    assert_eq!(read_hello(&mut buf.as_slice()), Ok(PROTOCOL_VERSION));
    let t = SocketTransport::connect(&buf).unwrap();
    assert_eq!(t.peer_protocol_version(), 1);
}

#[test]
fn foreign_hellos_are_refused() {
    let mut short: &[u8] = b"MVFS";
    assert_eq!(read_hello(&mut short), Err(FsError::UnexpectedEof));
    let mut magic: &[u8] = b"MVFX\x00\x00\x00\x01";
    assert_eq!(
        read_hello(&mut magic),
        Err(FsError::InvalidData(DataFault::BadMagic))
    );
    let mut version: &[u8] = b"MVFS\x00\x00\x01\x02";
    assert_eq!(
        read_hello(&mut version),
        Err(FsError::InvalidData(DataFault::UnsupportedVersion(258)))
    );
    assert!(SocketTransport::connect(b"GET / HT").is_err());
}

#[test]
fn calls_are_stamped_in_order() {
    let mut t = SocketTransport::with_peer_version(1);
    let (first, frame) = t.begin_call(b"a").unwrap();
    assert_eq!(first, 1);
    assert_eq!(read_frame(&mut frame.as_slice()), Ok((1, b"a".to_vec())));
    let oversized = vec![0u8; MAX_FRAME_LEN as usize + 1];
    assert_eq!(t.begin_call(&oversized), Err(FsError::InvalidInput));
    let (third, _) = t.begin_call(b"b").unwrap();
    assert_eq!(third, 3);
    assert_eq!(
        SocketTransport::finish_call(3, Ok((3, b"ok".to_vec()))),
        Ok(b"ok".to_vec())
    );
    assert_eq!(
        SocketTransport::finish_call(3, Err(FsError::UnexpectedEof)),
        Err(FsError::UnexpectedEof)
    );
    assert_eq!(default_call_timeout(), Span { secs: 30, nanos: 0 });
}

#[test]
fn kinds_cross_the_wire() {
    for kind in [
        NodeKind::File,
        NodeKind::Dir,
        NodeKind::Symlink,
        NodeKind::Char,
        NodeKind::Block,
        NodeKind::Fifo,
        NodeKind::Socket,
    ] {
        assert_eq!(node_kind_from_u8(node_kind_to_u8(kind)), Ok(kind));
        assert_eq!(NodeKind::from_mode(kind.type_bits() | 0o644), Some(kind));
    }
    assert_eq!(node_kind_to_u8(NodeKind::Socket), 6);
    assert_eq!(NodeKind::from_mode(0o644), None);
    assert_eq!(
        node_kind_from_u8(255),
        Err(FsError::InvalidData(DataFault::UnknownNodeKind))
    );
}

#[test]
fn attributes_entries_and_statistics_cross_the_wire() {
    let mut attr = VAttr::file(0o640, 12);
    attr.nlink = Some(3);
    attr.mtime = VTime::before_epoch(Span {
        secs: 1,
        nanos: 250_000_000,
    });
    let wire = VAttrWire::from(&attr);
    assert_eq!(wire.kind, 0);
    assert_eq!(wire.mtime, Some((-2, 750_000_000)));
    assert_eq!(wire.into_vattr(), Ok(attr));
    let mut bad = wire;
    bad.kind = 9;
    assert!(bad.into_vattr().is_err());

    let entry = VDirEntry::new(b"sub".to_vec(), NodeKind::Dir);
    let back = VDirEntryWire::from_entry(&entry).into_entry().unwrap();
    assert_eq!(back.name, b"sub");
    assert_eq!(back.kind, NodeKind::Dir);
    assert!(VDirEntryWire {
        name: b"x".to_vec(),
        kind: 8
    }
    .into_entry()
    .is_err());

    let stat = StatVfs64 {
        f_bsize: 1,
        f_frsize: 2,
        f_blocks: 3,
        f_bfree: 4,
        f_bavail: 5,
        f_files: 6,
        f_ffree: 7,
        f_namemax: 8,
    };
    assert_eq!(StatFsWire::from(&stat).into_statvfs(), stat);
    assert_eq!(StatFsWire::from(&stat).bavail, 5);
}

#[test]
fn request_limits() {
    let path = b"/p".to_vec();
    let within = VfsRequest::GetAttrMany {
        paths: vec![vec![b'a'; MAX_BATCH_PATH_BYTES]],
    };
    assert_eq!(validate_request_limits(&within), Ok(()));
    let beyond = VfsRequest::GetAttrMany {
        paths: vec![vec![b'a'; MAX_BATCH_PATH_BYTES], vec![b'b']],
    };
    assert_eq!(
        validate_request_limits(&beyond),
        Err(FsError::Os(LINUX_EINVAL))
    );
    let read = VfsRequest::Read {
        path: path.clone(),
        offset: 0,
        size: MAX_IO_SIZE + 1,
    };
    assert_eq!(
        validate_request_limits(&read),
        Err(FsError::Os(LINUX_EINVAL))
    );
    let write = VfsRequest::Write {
        path: path.clone(),
        offset: 0,
        data: vec![0; MAX_IO_SIZE as usize + 1],
    };
    assert_eq!(
        validate_request_limits(&write),
        Err(FsError::Os(LINUX_EINVAL))
    );
    let link = VfsRequest::Symlink {
        path: path.clone(),
        target: vec![b'a'; 4097],
    };
    assert_eq!(
        validate_request_limits(&link),
        Err(FsError::Os(LINUX_ENAMETOOLONG))
    );
    let xattr = VfsRequest::SetXattr {
        path,
        name: b"n".to_vec(),
        value: vec![0; MAX_XATTR_VALUE + 1],
        flags: 0,
    };
    assert_eq!(
        validate_request_limits(&xattr),
        Err(FsError::Os(LINUX_EINVAL))
    );
    assert_eq!(validate_request_limits(&VfsRequest::StatFs), Ok(()));
    assert_eq!(clamp_io_size(MAX_IO_SIZE), Ok(MAX_IO_SIZE));
    assert_eq!(clamp_io_size(MAX_IO_SIZE + 1), Ok(MAX_IO_SIZE));
    assert_eq!(clamp_io_size(u32::MAX), Ok(MAX_IO_SIZE));
    assert_eq!(clamp_io_size(0), Ok(0));
    assert_eq!(clamp_write_len(MAX_IO_SIZE as usize), Ok(()));
    assert!(clamp_write_len(MAX_IO_SIZE as usize + 1).is_err());
}

#[test]
fn decode_failures_have_an_errno() {
    assert_eq!(decode_error_errno(&FsError::Os(LINUX_EPERM)), LINUX_EPERM);
    assert_eq!(
        decode_error_errno(&FsError::InvalidData(DataFault::Malformed)),
        LINUX_EINVAL
    );
    assert_eq!(
        decode_request(Err(FsError::InvalidData(DataFault::Malformed))),
        Err(FsError::InvalidData(DataFault::Malformed))
    );
    assert_eq!(
        decode_request(Ok(VfsRequest::StatFs)),
        Ok(VfsRequest::StatFs)
    );
    assert_ne!(VfsResponse::Errno(LINUX_EIO), VfsResponse::Done);
}
