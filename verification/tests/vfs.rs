use std::collections::{BTreeMap, BTreeSet};
use std::sync::{Arc, Mutex};

use microsandbox_vfs::abi::{
    Context, Entry, GetxattrReply, ListxattrReply, Stat64, StatVfs64, FS_ASYNC_READ, FS_BIG_WRITES,
    FS_DO_READDIRPLUS, FS_READDIRPLUS_AUTO, FS_WRITEBACK_CACHE, OPEN_CACHE_DIR, OPEN_DIRECT_IO,
    OPEN_KEEP_CACHE, SETATTR_ATIME, SETATTR_ATIME_NOW, SETATTR_CTIME, SETATTR_GID, SETATTR_MODE,
    SETATTR_MTIME, SETATTR_SIZE, SETATTR_UID,
};
use microsandbox_vfs::config::{CachePolicy, VirtualFsConfig};
use microsandbox_vfs::error::{DataFault, FsError};
use microsandbox_vfs::path_fs::{NodeKind, PathFs, VAttr, VDirEntry};
use microsandbox_vfs::platform::{
    eacces, eagain, ebadf, eexist, efbig, einval, eio, eisdir, enodata, enoent, enosys, enotdir,
    enotempty, enxio, eopnotsupp, erange, estale, LINUX_EINVAL, LINUX_EISDIR, LINUX_ENOENT,
    MODE_LNK, MODE_REG, MODE_TYPE_MASK,
};
use microsandbox_vfs::rpc::client::{RpcPathFs, VfsTransport};
use microsandbox_vfs::rpc::dispatch::dispatch;
use microsandbox_vfs::rpc::framing::{read_frame, write_hello};
use microsandbox_vfs::rpc::messages::{VAttrResult, VfsRequest, VfsResponse};
use microsandbox_vfs::rpc::protocol::{MAX_BATCH_PATHS, MAX_FRAME_LEN, MAX_IO_SIZE};
use microsandbox_vfs::rpc::serve::{serve, ServeAction, ServeEvent, ServeState};
use microsandbox_vfs::rpc::transport::SocketTransport;
use microsandbox_vfs::time::{Span, VTime};
use microsandbox_vfs::vfs::metadata::check_access;
use microsandbox_vfs::vfs::VirtualFs;

const ROOT: u64 = 1;

#[derive(Clone)]
struct Node {
    attr: VAttr,
    data: Vec<u8>,
    xattrs: BTreeMap<Vec<u8>, Vec<u8>>,
}

/// A provider that keeps everything in memory.
struct InMemoryFs {
    nodes: Mutex<BTreeMap<Vec<u8>, Node>>,
}

fn node(attr: VAttr) -> Node {
    Node {
        attr,
        data: Vec::new(),
        xattrs: BTreeMap::new(),
    }
}

fn parent(path: &[u8]) -> Vec<u8> {
    let idx = path.iter().rposition(|&b| b == b'/').unwrap();
    if idx == 0 {
        b"/".to_vec()
    } else {
        path[..idx].to_vec()
    }
}

impl InMemoryFs {
    fn new() -> Self {
        let mut nodes = BTreeMap::new();
        nodes.insert(b"/".to_vec(), node(VAttr::dir(0o755)));
        InMemoryFs {
            nodes: Mutex::new(nodes),
        }
    }

    fn with<R>(
        &self,
        path: &[u8],
        f: impl FnOnce(&mut Node) -> Result<R, FsError>,
    ) -> Result<R, FsError> {
        match self.nodes.lock().unwrap().get_mut(path) {
            Some(n) => f(n),
            None => Err(enoent()),
        }
    }

    fn insert(&self, path: &[u8], n: Node) -> Result<VAttr, FsError> {
        let mut nodes = self.nodes.lock().unwrap();
        if nodes.contains_key(path) {
            return Err(eexist());
        }
        if !nodes.contains_key(&parent(path)) {
            return Err(enoent());
        }
        let attr = n.attr;
        nodes.insert(path.to_vec(), n);
        Ok(attr)
    }
}

impl PathFs for InMemoryFs {
    fn getattr(&self, path: &[u8]) -> Result<VAttr, FsError> {
        self.with(path, |n| Ok(n.attr))
    }

    fn readdir(&self, path: &[u8]) -> Result<Vec<VDirEntry>, FsError> {
        let nodes = self.nodes.lock().unwrap();
        if !nodes.contains_key(path) {
            return Err(enoent());
        }
        Ok(nodes
            .iter()
            .filter(|(p, _)| p.len() > 1 && parent(p) == path)
            .map(|(p, n)| {
                let idx = p.iter().rposition(|&b| b == b'/').unwrap();
                VDirEntry::new(p[idx + 1..].to_vec(), n.attr.kind)
            })
            .collect())
    }

    fn read(&self, path: &[u8], offset: u64, size: u32) -> Result<Vec<u8>, FsError> {
        self.with(path, |n| {
            let start = (offset as usize).min(n.data.len());
            let end = (start + size as usize).min(n.data.len());
            Ok(n.data[start..end].to_vec())
        })
    }

    fn write(&self, path: &[u8], offset: u64, data: &[u8]) -> Result<usize, FsError> {
        self.with(path, |n| {
            let end = offset as usize + data.len();
            if n.data.len() < end {
                n.data.resize(end, 0);
            }
            n.data[offset as usize..end].copy_from_slice(data);
            n.attr.size = n.data.len() as u64;
            Ok(data.len())
        })
    }

    fn create(&self, path: &[u8], attr: &VAttr) -> Result<VAttr, FsError> {
        self.insert(path, node(*attr))
    }

    fn mkdir(&self, path: &[u8], mode: u32) -> Result<VAttr, FsError> {
        self.insert(path, node(VAttr::dir(mode)))
    }

    fn remove(&self, path: &[u8]) -> Result<(), FsError> {
        match self.nodes.lock().unwrap().remove(path) {
            Some(_) => Ok(()),
            None => Err(enoent()),
        }
    }

    fn rename(&self, from: &[u8], to: &[u8]) -> Result<(), FsError> {
        let mut nodes = self.nodes.lock().unwrap();
        if !nodes.contains_key(from) {
            return Err(enoent());
        }
        let moved: Vec<Vec<u8>> = nodes
            .keys()
            .filter(|p| {
                p.as_slice() == from || (p.starts_with(from) && p.get(from.len()) == Some(&b'/'))
            })
            .cloned()
            .collect();
        for old in moved {
            let n = nodes.remove(&old).unwrap();
            let mut new = to.to_vec();
            new.extend_from_slice(&old[from.len()..]);
            nodes.insert(new, n);
        }
        Ok(())
    }

    fn setattr(&self, path: &[u8], attr: &VAttr, valid: u32) -> Result<VAttr, FsError> {
        self.with(path, |n| {
            if valid & SETATTR_SIZE != 0 {
                n.data.resize(attr.size as usize, 0);
            }
            n.attr = *attr;
            Ok(n.attr)
        })
    }

    fn symlink(&self, path: &[u8], target: &[u8]) -> Result<VAttr, FsError> {
        let mut n = node(VAttr::new(NodeKind::Symlink, 0o777, target.len() as u64));
        n.data = target.to_vec();
        self.insert(path, n)
    }

    fn readlink(&self, path: &[u8]) -> Result<Vec<u8>, FsError> {
        self.with(path, |n| Ok(n.data.clone()))
    }

    fn setxattr(&self, path: &[u8], name: &[u8], value: &[u8], _: u32) -> Result<(), FsError> {
        self.with(path, |n| {
            n.xattrs.insert(name.to_vec(), value.to_vec());
            Ok(())
        })
    }

    fn getxattr(&self, path: &[u8], name: &[u8]) -> Result<Vec<u8>, FsError> {
        self.with(path, |n| match n.xattrs.get(name) {
            Some(v) => Ok(v.clone()),
            None => Err(enodata()),
        })
    }

    fn listxattr(&self, path: &[u8]) -> Result<Vec<Vec<u8>>, FsError> {
        self.with(path, |n| Ok(n.xattrs.keys().cloned().collect()))
    }

    fn removexattr(&self, path: &[u8], name: &[u8]) -> Result<(), FsError> {
        self.with(path, |n| match n.xattrs.remove(name) {
            Some(_) => Ok(()),
            None => Err(enodata()),
        })
    }
}

/// A transport whose peer is a provider in this process.
struct Loopback {
    provider: InMemoryFs,
    requests: Mutex<Vec<VfsRequest>>,
}

impl VfsTransport for Loopback {
    fn call(&self, req: VfsRequest) -> Result<VfsResponse, FsError> {
        self.requests.lock().unwrap().push(req.clone());
        Ok(dispatch(&self.provider, req))
    }
}

type MountedFs = VirtualFs<RpcPathFs<Loopback>>;

fn mount() -> MountedFs {
    VirtualFs::new(RpcPathFs::new(Loopback {
        provider: InMemoryFs::new(),
        requests: Mutex::new(Vec::new()),
    }))
    .unwrap()
}

fn fs() -> VirtualFs<InMemoryFs> {
    VirtualFs::new(InMemoryFs::new()).unwrap()
}

fn ftype(st: &Stat64) -> u32 {
    st.st_mode & MODE_TYPE_MASK
}

fn err_no<T>(r: Result<T, FsError>) -> Option<i32> {
    r.err().expect("expected an error").raw_os_error()
}

fn create_file<P: PathFs>(fs: &mut VirtualFs<P>, name: &str) -> (u64, u64) {
    let (entry, handle, _) = fs.do_create(ROOT, name.as_bytes(), 0o644, 0).expect("create");
    (entry.inode, handle.expect("handle"))
}

fn write_all<P: PathFs>(fs: &VirtualFs<P>, handle: u64, offset: u64, data: &[u8]) -> usize {
    fs.do_write(handle, data, offset).expect("write")
}

fn read_all<P: PathFs>(fs: &VirtualFs<P>, handle: u64, offset: u64, size: u32) -> Vec<u8> {
    fs.do_read(handle, size, offset).expect("read")
}

#[test]
fn lookup_missing_is_enoent() {
    let mut fs = fs();
    assert_eq!(err_no(fs.do_lookup(ROOT, b"nope")), Some(LINUX_ENOENT));
}

#[test]
fn create_write_read_round_trips() {
    let mut fs = fs();
    let (ino, handle) = create_file(&mut fs, "hello.txt");

    let payload = b"the quick brown fox";
    assert_eq!(write_all(&fs, handle, 0, payload), payload.len());
    assert_eq!(read_all(&fs, handle, 0, 64), payload);

    let (st, _) = fs.do_getattr(ino).unwrap();
    assert_eq!(st.st_size as usize, payload.len());
    assert_eq!(ftype(&st), MODE_REG);
}

#[test]
fn lookup_after_create_sees_file() {
    let mut fs = fs();
    create_file(&mut fs, "a.txt");
    let entry = fs.do_lookup(ROOT, b"a.txt").unwrap();
    assert_eq!(ftype(&entry.attr), MODE_REG);
}

#[test]
fn mkdir_then_readdir_lists_children() {
    let mut fs = fs();
    fs.do_mkdir(ROOT, b"dir", 0o755, 0).unwrap();
    let dir = fs.do_lookup(ROOT, b"dir").unwrap();
    create_file(&mut fs, "top.txt");

    fs.do_create(dir.inode, b"inner.txt", 0o644, 0).unwrap();

    let (handle, _) = fs.do_opendir(dir.inode).unwrap();
    let entries = fs.do_readdir(dir.inode, handle.unwrap(), 4096, 0).unwrap();
    let names: Vec<&[u8]> = entries.iter().map(|e| e.name.as_slice()).collect();
    assert!(names.contains(&b".".as_slice()));
    assert!(names.contains(&b"..".as_slice()));
    assert!(names.contains(&b"inner.txt".as_slice()));
    assert!(!names.contains(&b"top.txt".as_slice()));
}

#[test]
fn readdirplus_carries_attrs() {
    let mut fs = fs();
    create_file(&mut fs, "x.txt");
    let (handle, _) = fs.do_opendir(ROOT).unwrap();
    let entries = fs.do_readdirplus(ROOT, handle.unwrap(), 4096, 0).unwrap();
    let x = entries
        .iter()
        .find(|(de, _)| de.name == b"x.txt")
        .expect("x.txt present");
    assert_eq!(ftype(&x.1.attr), MODE_REG);
}

#[test]
fn rename_moves_file() {
    let mut fs = fs();
    let (_, handle) = create_file(&mut fs, "old.txt");
    write_all(&fs, handle, 0, b"data");

    fs.do_rename(ROOT, b"old.txt", ROOT, b"new.txt", 0).unwrap();

    assert_eq!(err_no(fs.do_lookup(ROOT, b"old.txt")), Some(LINUX_ENOENT));
    fs.do_lookup(ROOT, b"new.txt").unwrap();
    // The handle opened before the rename still reads the moved content.
    assert_eq!(read_all(&fs, handle, 0, 64), b"data");
}

#[test]
fn unlink_removes_file_and_rejects_dir() {
    let mut fs = fs();
    create_file(&mut fs, "f.txt");
    fs.do_mkdir(ROOT, b"d", 0o755, 0).unwrap();

    fs.do_unlink(ROOT, b"f.txt").unwrap();
    assert_eq!(err_no(fs.do_lookup(ROOT, b"f.txt")), Some(LINUX_ENOENT));

    assert_eq!(err_no(fs.do_unlink(ROOT, b"d")), Some(LINUX_EISDIR));
}

#[test]
fn rmdir_requires_empty() {
    let mut fs = fs();
    fs.do_mkdir(ROOT, b"d", 0o755, 0).unwrap();
    let d = fs.do_lookup(ROOT, b"d").unwrap();
    fs.do_create(d.inode, b"child", 0o644, 0).unwrap();

    assert_eq!(
        err_no(fs.do_rmdir(ROOT, b"d")),
        enotempty().raw_os_error()
    );
    fs.do_unlink(d.inode, b"child").unwrap();
    fs.do_rmdir(ROOT, b"d").unwrap();
    assert_eq!(err_no(fs.do_lookup(ROOT, b"d")), Some(LINUX_ENOENT));
}

#[test]
fn symlink_and_readlink_round_trip() {
    let mut fs = fs();
    let entry = fs.do_symlink(b"target.txt", ROOT, b"link").unwrap();
    assert_eq!(ftype(&entry.attr), MODE_LNK);
    let target = fs.do_readlink(entry.inode).unwrap();
    assert_eq!(target, b"target.txt");
}

#[test]
fn readdir_paginates_and_returns_every_entry_once() {
    let mut fs = fs();
    let total = 50usize;
    for i in 0..total {
        create_file(&mut fs, &format!("f{i:02}"));
    }
    let (h, _) = fs.do_opendir(ROOT).unwrap();
    let h = h.unwrap();

    // A small reply buffer forces multiple pages.
    let first = fs.do_readdir(ROOT, h, 200, 0).unwrap();
    assert!(!first.is_empty());
    assert!(
        first.len() < total + 2,
        "small buffer must not return the whole listing in one page"
    );

    let mut names: Vec<Vec<u8>> = Vec::new();
    let mut offset = 0u64;
    let mut pages = 0;
    loop {
        let page = fs.do_readdir(ROOT, h, 200, offset).unwrap();
        if page.is_empty() {
            break;
        }
        for de in &page {
            names.push(de.name.to_vec());
            offset = de.offset;
        }
        pages += 1;
        assert!(pages < 1000, "pagination did not terminate");
    }
    assert!(pages > 1, "expected multiple pages");

    let unique: BTreeSet<_> = names.iter().cloned().collect();
    assert_eq!(
        unique.len(),
        names.len(),
        "an entry was served on more than one page"
    );
    assert!(unique.contains(b".".as_slice()));
    assert!(unique.contains(b"..".as_slice()));
    for i in 0..total {
        assert!(
            unique.contains(format!("f{i:02}").as_bytes()),
            "missing entry f{i:02}"
        );
    }
    assert_eq!(unique.len(), total + 2);
}

#[test]
fn readdirplus_paginates_with_small_buffer() {
    let mut fs = fs();
    let total = 40usize;
    for i in 0..total {
        create_file(&mut fs, &format!("p{i:02}"));
    }
    let (h, _) = fs.do_opendir(ROOT).unwrap();
    let h = h.unwrap();

    let first = fs.do_readdirplus(ROOT, h, 2000, 0).unwrap();
    assert!(!first.is_empty());
    assert!(
        first.len() < total,
        "readdirplus must paginate under a modest buffer"
    );

    let mut names: Vec<Vec<u8>> = Vec::new();
    let mut offset = 0u64;
    loop {
        let page = fs.do_readdirplus(ROOT, h, 2000, offset).unwrap();
        if page.is_empty() {
            break;
        }
        for (de, ent) in &page {
            if de.name != b"." && de.name != b".." {
                assert_eq!(ftype(&ent.attr), MODE_REG);
            }
            names.push(de.name.to_vec());
            offset = de.offset;
        }
        assert!(names.len() < 100_000, "pagination did not terminate");
    }
    for i in 0..total {
        assert!(
            names.contains(&format!("p{i:02}").into_bytes()),
            "missing p{i:02}"
        );
    }
}

#[test]
fn symlink_rejects_empty_target() {
    let mut fs = fs();
    assert_eq!(
        err_no(fs.do_symlink(b"", ROOT, b"link")),
        Some(LINUX_EINVAL)
    );
}

#[test]
fn setattr_truncate_changes_size() {
    let mut fs = fs();
    let (ino, handle) = create_file(&mut fs, "t.txt");
    write_all(&fs, handle, 0, b"0123456789");

    let mut st = Stat64::zeroed();
    st.st_size = 4;
    let (new, _) = fs.do_setattr(ino, &st, SETATTR_SIZE).unwrap();
    assert_eq!(new.st_size, 4);
    assert_eq!(read_all(&fs, handle, 0, 64), b"0123");
}

#[test]
fn xattr_set_get_list_remove() {
    let mut fs = fs();
    let (ino, _) = create_file(&mut fs, "x.txt");
    fs.do_setxattr(ino, b"user.k", b"v", 0).unwrap();

    match fs.do_getxattr(ino, b"user.k", 64).unwrap() {
        GetxattrReply::Value(v) => assert_eq!(v, b"v"),
        _ => panic!("unexpected getxattr reply"),
    }
    fs.do_removexattr(ino, b"user.k").unwrap();
    assert!(fs.do_getxattr(ino, b"user.k", 64).is_err());
}

#[test]
fn lookup_rejects_traversal_names() {
    let mut fs = fs();
    assert!(fs.do_lookup(ROOT, b"..").is_err());
}

/// A provider that lists two children of which one has vanished.
struct Flaky;

impl PathFs for Flaky {
    fn getattr(&self, path: &[u8]) -> Result<VAttr, FsError> {
        match path {
            b"/" => Ok(VAttr::dir(0o755)),
            b"/good" => Ok(VAttr::file(0o644, 0)),
            _ => Err(FsError::Os(LINUX_ENOENT)),
        }
    }
    fn readdir(&self, _: &[u8]) -> Result<Vec<VDirEntry>, FsError> {
        Ok(vec![
            VDirEntry::new(b"good".to_vec(), NodeKind::File),
            VDirEntry::new(b"bad".to_vec(), NodeKind::File),
        ])
    }
    fn read(&self, _: &[u8], _: u64, _: u32) -> Result<Vec<u8>, FsError> {
        Ok(Vec::new())
    }
}

#[test]
fn readdirplus_skips_a_vanished_child_instead_of_aborting() {
    let mut fs = VirtualFs::new(Flaky).unwrap();
    let (h, _) = fs.do_opendir(ROOT).unwrap();

    let entries = fs
        .do_readdirplus(ROOT, h.unwrap(), 4096, 0)
        .expect("one bad child must not fail the whole readdirplus");
    let names: Vec<&[u8]> = entries.iter().map(|(de, _)| de.name.as_slice()).collect();
    assert!(
        names.contains(&b"good".as_slice()),
        "good child must be listed"
    );
    assert!(
        !names.contains(&b"bad".as_slice()),
        "vanished child must be skipped"
    );

    // The skipped child is never interned, so no lookup reference is leaked.
    assert!(
        fs.inode_of(b"/bad").is_none(),
        "no node should be interned for the vanished child"
    );
    assert!(fs.inode_of(b"/good").is_some());
}

#[test]
fn provider_is_accessible() {
    let mut fs = fs();
    create_file(&mut fs, "p.txt");
    let provider: &InMemoryFs = fs.provider();
    assert!(provider.getattr(b"/p.txt").is_ok());
}

/// A provider with the required methods alone.
struct ReadOnly;

impl PathFs for ReadOnly {
    fn getattr(&self, path: &[u8]) -> Result<VAttr, FsError> {
        match path {
            b"/" => Ok(VAttr::dir(0o755)),
            b"/readme" => Ok(VAttr::file(0o444, 5)),
            _ => Err(FsError::Os(LINUX_ENOENT)),
        }
    }
    fn readdir(&self, _: &[u8]) -> Result<Vec<VDirEntry>, FsError> {
        Ok(vec![VDirEntry::new(b"readme".to_vec(), NodeKind::File)])
    }
    fn read(&self, _: &[u8], _: u64, _: u32) -> Result<Vec<u8>, FsError> {
        Ok(b"hello".to_vec())
    }
}

#[test]
fn read_only_provider_rejects_writes() {
    let mut fs = VirtualFs::new(ReadOnly).unwrap();
    assert_eq!(
        err_no(fs.do_create(ROOT, b"x", 0o644, 0)),
        enosys().raw_os_error()
    );

    // ...but reading the read-only file works.
    let entry = fs.do_lookup(ROOT, b"readme").unwrap();
    let (handle, _) = fs.do_open(entry.inode, 0).unwrap();
    assert_eq!(fs.do_read(handle.unwrap(), 16, 0).unwrap(), b"hello");
}

#[test]
fn provided_methods_do_what_they_say() {
    let p = ReadOnly;
    assert_eq!(p.write(b"/readme", 0, b"x"), Err(enosys()));
    assert_eq!(p.mkdir(b"/d", 0o755), Err(enosys()));
    assert_eq!(p.rmdir(b"/readme"), Err(enotdir()));
    assert_eq!(p.rmdir(b"/"), Err(enotempty()));
    assert_eq!(p.rmdir(b"/gone"), Err(enoent()));
    assert_eq!(p.rename_with_flags(b"/readme", b"/x", 2), Err(enosys()));
    assert_eq!(p.rename_with_flags(b"/x", b"/readme", 1), Err(eexist()));
    assert_eq!(p.rename_with_flags(b"/readme", b"/x", 1), Err(enosys()));
    assert_eq!(p.listxattr(b"/readme"), Ok(vec![]));
    assert_eq!(p.flush(b"/readme"), Ok(()));
    assert_eq!(p.fsyncdir(b"/"), Ok(()));
    let many = p.getattr_many(&[b"/readme", b"/gone"]).unwrap();
    assert_eq!(many, vec![Ok(VAttr::file(0o444, 5)), Err(enoent())]);
    assert_eq!(
        p.statfs(),
        Ok(StatVfs64 {
            f_bsize: 4096,
            f_frsize: 4096,
            f_blocks: 0,
            f_bfree: 0,
            f_bavail: 0,
            f_files: 0,
            f_ffree: 0,
            f_namemax: 255,
        })
    );
}

#[test]
fn rpc_create_write_read_round_trips() {
    let mut fs = mount();
    let (ino, handle) = create_file(&mut fs, "hello.txt");

    let payload = b"data over the wire";
    let n = fs.do_write(handle, payload, 0).unwrap();
    assert_eq!(n, payload.len());

    assert_eq!(fs.do_read(handle, 64, 0).unwrap(), payload);

    let (st, _) = fs.do_getattr(ino).unwrap();
    assert_eq!(st.st_size as usize, payload.len());
}

#[test]
fn rpc_mkdir_readdir_rename_unlink() {
    let mut fs = mount();

    fs.do_mkdir(ROOT, b"dir", 0o755, 0).unwrap();
    let dir = fs.do_lookup(ROOT, b"dir").unwrap();
    fs.do_create(dir.inode, b"a.txt", 0o644, 0).unwrap();

    let (h, _) = fs.do_opendir(dir.inode).unwrap();
    let entries = fs.do_readdir(dir.inode, h.unwrap(), 4096, 0).unwrap();
    let names: Vec<&[u8]> = entries.iter().map(|e| e.name.as_slice()).collect();
    assert!(names.contains(&b"a.txt".as_slice()));

    fs.do_rename(dir.inode, b"a.txt", ROOT, b"b.txt", 0).unwrap();
    assert!(fs.do_lookup(ROOT, b"b.txt").is_ok());

    fs.do_unlink(ROOT, b"b.txt").unwrap();
    assert_eq!(err_no(fs.do_lookup(ROOT, b"b.txt")), Some(LINUX_ENOENT));
}

#[test]
fn rpc_setattr_truncate_and_statfs() {
    let mut fs = mount();
    let (ino, handle) = create_file(&mut fs, "t.txt");
    fs.do_write(handle, b"0123456789", 0).unwrap();

    let mut st = Stat64::zeroed();
    st.st_size = 4;
    let (new, _) = fs.do_setattr(ino, &st, SETATTR_SIZE).unwrap();
    assert_eq!(new.st_size, 4);

    let stat = fs.statfs().unwrap();
    assert_eq!(stat.f_namemax, 255);
}

#[test]
fn rpc_rmdir_nonempty_returns_enotempty_wire() {
    let mut fs = mount();
    fs.do_mkdir(ROOT, b"d", 0o755, 0).unwrap();
    let d = fs.do_lookup(ROOT, b"d").unwrap();
    fs.do_create(d.inode, b"c", 0o644, 0).unwrap();

    assert_eq!(err_no(fs.do_rmdir(ROOT, b"d")), Some(39));
}

#[test]
fn rpc_xattr_round_trips() {
    let mut fs = mount();
    let (ino, _) = create_file(&mut fs, "x.txt");
    fs.do_setxattr(ino, b"user.k", b"v", 0).unwrap();
    match fs.do_getxattr(ino, b"user.k", 64).unwrap() {
        GetxattrReply::Value(v) => assert_eq!(v, b"v"),
        _ => panic!("unexpected getxattr reply"),
    }
}

#[test]
fn dispatch_translates_provider_errors_to_wire_errno() {
    let provider = InMemoryFs::new();
    let resp = dispatch(
        &provider,
        VfsRequest::GetAttr {
            path: b"/missing".to_vec(),
        },
    );
    assert!(matches!(resp, VfsResponse::Errno(2)));
}

#[test]
fn dispatch_rejects_relative_path() {
    let provider = InMemoryFs::new();
    let resp = dispatch(
        &provider,
        VfsRequest::GetAttr {
            path: b"relative".to_vec(),
        },
    );
    assert!(matches!(resp, VfsResponse::Errno(_)));
}

#[test]
fn dispatch_getattr_many_reports_per_path_errors() {
    let provider = InMemoryFs::new();
    provider.create(b"/here", &VAttr::file(0o644, 0)).unwrap();
    let resp = dispatch(
        &provider,
        VfsRequest::GetAttrMany {
            paths: vec![b"/here".to_vec(), b"/gone".to_vec()],
        },
    );
    match resp {
        VfsResponse::AttrMany(results) => {
            assert!(matches!(results[0], VAttrResult::Found(_)));
            assert!(matches!(results[1], VAttrResult::Errno(2)));
        }
        other => panic!("unexpected: {other:?}"),
    }
}

#[test]
fn forgetting_a_lookup_restores_the_tables() {
    let mut fs = fs();
    let (ino, handle) = create_file(&mut fs, "f");
    assert_eq!(ino, 2);
    fs.do_release(handle, false).unwrap();
    assert_eq!(fs.do_lookup(ROOT, b"f").unwrap().inode, 2);
    fs.forget(ino, 1);
    assert_eq!(fs.inode_of(b"/f"), Some(2));
    fs.forget(ino, 1);
    assert_eq!(fs.inode_of(b"/f"), None);
    assert_eq!(fs.do_getattr(ino).err(), Some(ebadf()));
    // The next lookup hands out a number that was never used before.
    assert_eq!(fs.do_lookup(ROOT, b"f").unwrap().inode, 3);
    fs.batch_forget(&vec![(3, 5), (ROOT, u64::MAX)]);
    assert_eq!(fs.inode_of(b"/f"), None);
    assert_eq!(fs.inode_of(b"/"), Some(ROOT));
}

#[test]
fn dot_is_the_directory_itself() {
    let mut fs = fs();
    let entry = fs.do_lookup(ROOT, b".").unwrap();
    assert_eq!(entry.inode, ROOT);
    assert_eq!(entry.attr.st_nlink, 2);
    assert_eq!(entry.attr.st_mode, 0o040755);
}

#[test]
fn unlinked_files_stay_readable_through_their_handle() {
    let mut fs = fs();
    let (ino, handle) = create_file(&mut fs, "gone");
    write_all(&fs, handle, 0, b"kept");
    fs.do_unlink(ROOT, b"gone").unwrap();
    assert_eq!(fs.do_getattr(ino).err(), Some(estale()));
    assert_eq!(fs.inode_of(b"/gone"), None);
    // The handle goes on under the path it was opened with.
    assert_eq!(fs.file_handle_path(handle), Ok(b"/gone".to_vec()));
    fs.forget(ino, 1);
    assert_eq!(fs.do_getattr(ino).err(), Some(ebadf()));
    assert_eq!(fs.file_handle_path(handle), Ok(b"/gone".to_vec()));
    fs.do_release(handle, false).unwrap();
    assert_eq!(fs.file_handle_path(handle), Err(ebadf()));
}

#[test]
fn renames_carry_the_whole_subtree() {
    let mut fs = fs();
    let a = fs.do_mkdir(ROOT, b"a", 0o755, 0).unwrap().inode;
    let b = fs.do_mkdir(a, b"b", 0o755, 0).unwrap().inode;
    let (f, handle, _) = fs.do_create(b, b"f", 0o644, 0).unwrap();
    let ab = fs.do_mkdir(ROOT, b"ab", 0o755, 0).unwrap().inode;
    let z = fs.do_mkdir(ROOT, b"z", 0o755, 0).unwrap().inode;
    fs.do_rename(ROOT, b"a", ROOT, b"z", 0).unwrap();
    assert_eq!(fs.path_of(a), Ok(b"/z".to_vec()));
    assert_eq!(fs.path_of(b), Ok(b"/z/b".to_vec()));
    assert_eq!(fs.path_of(f.inode), Ok(b"/z/b/f".to_vec()));
    assert_eq!(fs.path_of(ab), Ok(b"/ab".to_vec()));
    // What lived at the destination has lost its name.
    assert_eq!(fs.path_of(z), Err(estale()));
    assert_eq!(
        fs.file_handle_path(handle.unwrap()),
        Ok(b"/z/b/f".to_vec())
    );
}

#[test]
fn rename_verdicts() {
    let mut fs = fs();
    let d = fs.do_mkdir(ROOT, b"d", 0o755, 0).unwrap().inode;
    assert_eq!(fs.do_rename(ROOT, b"d", ROOT, b"e", 4), Err(einval()));
    assert_eq!(fs.do_rename(ROOT, b"d", ROOT, b"e", 3), Err(einval()));
    assert_eq!(fs.do_rename(ROOT, b"d", ROOT, b"e", 2), Err(enosys()));
    assert_eq!(fs.do_rename(ROOT, b"d", d, b"in", 0), Err(einval()));
    assert_eq!(fs.do_rename(ROOT, b"d", ROOT, b"d", 0), Ok(()));
    assert_eq!(fs.do_rename(ROOT, b"nope", ROOT, b"e", 0), Err(enoent()));
    assert_eq!(fs.do_rename(77, b"d", ROOT, b"e", 0), Err(ebadf()));
    fs.do_mkdir(ROOT, b"e", 0o755, 0).unwrap();
    assert_eq!(fs.do_rename(ROOT, b"d", ROOT, b"e", 1), Err(eexist()));
}

#[test]
fn mutations_refresh_open_listings() {
    let mut fs = fs();
    let (h, _) = fs.do_opendir(ROOT).unwrap();
    let h = h.unwrap();
    assert_eq!(fs.do_readdir(ROOT, h, 4096, 1).err(), Some(eagain()));
    assert_eq!(fs.do_readdir(ROOT, h, 4096, 0).unwrap().len(), 2);
    create_file(&mut fs, "new");
    assert!(fs.do_readdir(ROOT, h, 4096, 2).is_err());
    let entries = fs.do_readdir(ROOT, h, 4096, 0).unwrap();
    assert_eq!(entries.len(), 3);
    assert_eq!(entries[2].name, b"new");
    assert_eq!(entries[2].offset, 3);
    assert_eq!(entries[2].ino, fs.inode_of(b"/new").unwrap());
    fs.do_unlink(ROOT, b"new").unwrap();
    assert_eq!(fs.do_readdir(ROOT, h, 4096, 0).unwrap().len(), 2);
    fs.do_fsyncdir(ROOT, h).unwrap();
    assert!(fs.do_readdir(ROOT, h, 4096, 1).is_err());
    assert_eq!(fs.do_fsyncdir(2, h), Err(ebadf()));
    fs.do_releasedir(h).unwrap();
    assert!(fs.do_readdir(ROOT, h, 4096, 0).is_err());
}

#[test]
fn opening_the_wrong_kind_is_refused() {
    let mut fs = fs();
    let (f, _) = create_file(&mut fs, "f");
    assert_eq!(fs.do_opendir(f).err(), Some(enotdir()));
    assert_eq!(fs.do_open(ROOT, 0).err(), Some(eisdir()));
    assert_eq!(fs.do_open(99, 0).err(), Some(ebadf()));
}

#[test]
fn truncating_opens() {
    let mut fs = fs();
    let (f, h) = create_file(&mut fs, "f");
    write_all(&fs, h, 0, b"content");
    let (again, _) = fs.do_open(f, 0x200).unwrap();
    assert_eq!(again, Some(2));
    assert_eq!(read_all(&fs, h, 0, 64), b"");
    let mut ro = VirtualFs::new(ReadOnly).unwrap();
    let readme = ro.do_lookup(ROOT, b"readme").unwrap().inode;
    assert_eq!(ro.do_open(readme, 0x200).err(), Some(eopnotsupp()));
}

/// A provider whose replies break every limit.
struct Greedy;

impl PathFs for Greedy {
    fn getattr(&self, path: &[u8]) -> Result<VAttr, FsError> {
        if path == b"/" {
            Ok(VAttr::dir(0o755))
        } else {
            Ok(VAttr::file(0o644, u64::MAX))
        }
    }
    fn getattr_many(&self, _: &[&[u8]]) -> Result<Vec<Result<VAttr, FsError>>, FsError> {
        Ok(Vec::new())
    }
    fn readdir(&self, _: &[u8]) -> Result<Vec<VDirEntry>, FsError> {
        Ok(vec![
            VDirEntry::new(b"ok".to_vec(), NodeKind::File),
            VDirEntry::new(b"..".to_vec(), NodeKind::Dir),
            VDirEntry::new(b"a/b".to_vec(), NodeKind::File),
            VDirEntry::new(b"ok".to_vec(), NodeKind::Fifo),
        ])
    }
    fn read(&self, _: &[u8], _: u64, size: u32) -> Result<Vec<u8>, FsError> {
        Ok(vec![0; size as usize + 1])
    }
    fn write(&self, _: &[u8], _: u64, data: &[u8]) -> Result<usize, FsError> {
        Ok(data.len() + 1)
    }
    fn readlink(&self, _: &[u8]) -> Result<Vec<u8>, FsError> {
        Ok(b"/etc/passwd".to_vec())
    }
    fn getxattr(&self, _: &[u8], _: &[u8]) -> Result<Vec<u8>, FsError> {
        Err(FsError::Other)
    }
}

#[test]
fn replies_beyond_the_request_are_refused() {
    let mut fs = VirtualFs::new(Greedy).unwrap();
    let f = fs.do_lookup(ROOT, b"f").unwrap();
    assert_eq!(f.attr.st_size, i64::MAX);
    assert_eq!(f.attr.st_blocks, 0x80_0000_0000_0000);
    let (h, _) = fs.do_open(f.inode, 0).unwrap();
    let h = h.unwrap();
    assert_eq!(fs.do_read(h, 10, 0), Err(eio()));
    assert_eq!(fs.do_read(h, u32::MAX, 0), Err(eio()));
    assert_eq!(fs.do_write(h, b"abc", 0), Err(eio()));
    assert_eq!(fs.do_write(h, b"", 0), Ok(0));
    assert!(fs.do_readlink(f.inode).is_err());
    assert_eq!(fs.do_setxattr(f.inode, b"n", b"v", 1), Err(FsError::Other));

    let data = dispatch(
        &Greedy,
        VfsRequest::Read {
            path: b"/f".to_vec(),
            offset: 0,
            size: 4,
        },
    );
    assert_eq!(data, VfsResponse::Errno(5));
    let count = dispatch(
        &Greedy,
        VfsRequest::Write {
            path: b"/f".to_vec(),
            offset: 0,
            data: b"abc".to_vec(),
        },
    );
    assert_eq!(count, VfsResponse::Errno(5));
    let clamped = dispatch(
        &Greedy,
        VfsRequest::Read {
            path: b"/f".to_vec(),
            offset: 0,
            size: MAX_IO_SIZE + 1,
        },
    );
    assert_eq!(clamped, VfsResponse::Errno(5));
}

#[test]
fn listings_hide_bad_names_and_number_duplicates_apart() {
    let mut fs = VirtualFs::new(Greedy).unwrap();
    let (h, _) = fs.do_opendir(ROOT).unwrap();
    let entries = fs.do_readdir(ROOT, h.unwrap(), 4096, 0).unwrap();
    let names: Vec<&[u8]> = entries.iter().map(|e| e.name.as_slice()).collect();
    assert_eq!(names, [b".".as_slice(), b"..", b"ok", b"ok"]);
    let numbers: BTreeSet<u64> = entries.iter().map(|e| e.ino).collect();
    assert_eq!(numbers.len(), 4);
    // The root is its own parent, and shows the second time under another number.
    assert_eq!(entries[0].ino, ROOT);
    assert!(entries[1].ino >= 1 << 63);
    assert!(entries[2].ino >= 1 << 63);
    assert_eq!(entries[3].type_, 1);
    let (h, _) = fs.do_opendir(ROOT).unwrap();
    assert_eq!(
        fs.do_readdirplus(ROOT, h.unwrap(), 4096, 0).err(),
        Some(eio())
    );
}

#[test]
fn access_is_checked_by_class() {
    let mut attr = VAttr::file(0o640, 0);
    attr.uid = 10;
    attr.gid = 20;
    let caller = |uid: u32, gid: u32| Context { uid, gid, pid: 1 };
    assert_eq!(check_access(&attr, caller(10, 1), 6), Ok(()));
    assert_eq!(check_access(&attr, caller(11, 20), 4), Ok(()));
    assert_eq!(check_access(&attr, caller(11, 20), 2), Err(eacces()));
    assert_eq!(check_access(&attr, caller(11, 21), 4), Err(eacces()));
    assert_eq!(check_access(&attr, caller(11, 21), 0), Ok(()));
    assert_eq!(check_access(&attr, caller(0, 0), 6), Ok(()));
    assert_eq!(check_access(&attr, caller(0, 0), 1), Err(eacces()));
    let fs = fs();
    assert_eq!(fs.do_access(caller(5, 5), ROOT, 5), Ok(()));
    assert_eq!(fs.do_access(caller(5, 5), ROOT, 2), Err(eacces()));
}

#[test]
fn setattr_overlays_the_selected_fields() {
    let mut fs = fs();
    let (ino, _) = create_file(&mut fs, "f");
    let mut st = Stat64::zeroed();
    st.st_mode = 0o107755;
    st.st_uid = 7;
    st.st_gid = 8;
    st.st_atime = 9;
    st.st_mtime = -1;
    st.st_mtime_nsec = 5;
    st.st_ctime = 11;
    let all = SETATTR_MODE | SETATTR_UID | SETATTR_GID | SETATTR_ATIME | SETATTR_MTIME
        | SETATTR_CTIME;
    let (new, timeout) = fs.do_setattr(ino, &st, all).unwrap();
    assert_eq!(new.st_mode, MODE_REG | 0o7755);
    assert_eq!((new.st_uid, new.st_gid), (7, 8));
    assert_eq!((new.st_atime, new.st_ctime), (9, 11));
    // Instants before the epoch show as the epoch.
    assert_eq!((new.st_mtime, new.st_mtime_nsec), (0, 0));
    assert_eq!(timeout, Span { secs: 1, nanos: 0 });
    let (now, _) = fs
        .do_setattr(ino, &st, SETATTR_ATIME | SETATTR_ATIME_NOW)
        .unwrap();
    assert!(now.st_atime > 1_000_000_000);
    st.st_size = -1;
    assert_eq!(fs.do_setattr(ino, &st, SETATTR_SIZE).err(), Some(einval()));
}

#[test]
fn seeking() {
    let mut fs = fs();
    let (ino, h) = create_file(&mut fs, "f");
    write_all(&fs, h, 0, b"0123456789");
    assert_eq!(fs.do_lseek(ino, 77, 0), Ok(77));
    assert_eq!(fs.do_lseek(ino, 5, 2), Ok(15));
    assert_eq!(fs.do_lseek(ino, (-4i64) as u64, 2), Ok(6));
    assert_eq!(fs.do_lseek(ino, (-11i64) as u64, 2), Err(einval()));
    assert_eq!(fs.do_lseek(ino, i64::MAX as u64, 2), Err(einval()));
    assert_eq!(fs.do_lseek(ino, 3, 3), Ok(3));
    assert_eq!(fs.do_lseek(ino, 10, 3), Err(enxio()));
    assert_eq!(fs.do_lseek(ino, 3, 4), Ok(10));
    assert_eq!(fs.do_lseek(ino, 10, 4), Err(enxio()));
    assert_eq!(fs.do_lseek(ino, 0, 1), Err(einval()));
}

#[test]
fn reserving_space() {
    let mut fs = fs();
    let (ino, h) = create_file(&mut fs, "f");
    write_all(&fs, h, 0, b"abc");
    assert_eq!(fs.do_fallocate(ino, 1, 0, 1), Err(eopnotsupp()));
    assert_eq!(fs.do_fallocate(ino, 0, u64::MAX, 1), Err(einval()));
    assert_eq!(
        fs.do_fallocate(ino, 0, i64::MAX as u64, 1),
        Err(efbig())
    );
    fs.do_fallocate(ino, 0, 0, 2).unwrap();
    assert_eq!(fs.do_getattr(ino).unwrap().0.st_size, 3);
    fs.do_fallocate(ino, 0, 2, 8).unwrap();
    assert_eq!(fs.do_getattr(ino).unwrap().0.st_size, 10);
    assert_eq!(read_all(&fs, h, 0, 64), b"abc\0\0\0\0\0\0\0");
}

#[test]
fn nodes_of_every_kind() {
    let mut fs = fs();
    let dev = fs.do_mknod(ROOT, b"dev", 0o020666, 0x103, 0o022).unwrap();
    assert_eq!(dev.attr.st_mode, 0o020644);
    assert_eq!(dev.attr.st_rdev, 0x103);
    assert_eq!(dev.attr.st_nlink, 1);
    assert_eq!(fs.do_mknod(ROOT, b"odd", 0o644, 0, 0).err(), Some(einval()));
    let d = fs.do_mkdir(ROOT, b"d", 0o7777, 0o027).unwrap();
    assert_eq!(d.attr.st_mode, 0o047750);
    assert_eq!(fs.link(dev.inode, ROOT, b"again").err(), Some(enosys()));
}

#[test]
fn xattr_buffers_and_flags() {
    let mut fs = fs();
    let (ino, _) = create_file(&mut fs, "f");
    assert_eq!(fs.do_setxattr(ino, b"user.a", b"1", 2), Err(enodata()));
    fs.do_setxattr(ino, b"user.a", b"12345", 1).unwrap();
    assert_eq!(fs.do_setxattr(ino, b"user.a", b"1", 1), Err(eexist()));
    fs.do_setxattr(ino, b"user.a", b"123", 2).unwrap();
    fs.do_setxattr(ino, b"user.bc", b"", 0).unwrap();
    assert!(matches!(
        fs.do_getxattr(ino, b"user.a", 0),
        Ok(GetxattrReply::Count(3))
    ));
    assert_eq!(fs.do_getxattr(ino, b"user.a", 2).err(), Some(erange()));
    assert!(matches!(
        fs.do_listxattr(ino, 0),
        Ok(ListxattrReply::Count(15))
    ));
    assert_eq!(fs.do_listxattr(ino, 14).err(), Some(erange()));
    match fs.do_listxattr(ino, 15).unwrap() {
        ListxattrReply::Names(v) => assert_eq!(v, b"user.a\0user.bc\0"),
        _ => panic!("unexpected listxattr reply"),
    }
    assert!(fs.do_setxattr(ino, b"a/b", b"", 0).is_err());
    assert!(fs.do_getxattr(ino, b"", 1).is_err());
}

#[test]
fn options_follow_the_configuration() {
    let fs = fs();
    let capable = FS_ASYNC_READ | FS_BIG_WRITES | FS_DO_READDIRPLUS | FS_WRITEBACK_CACHE | 0x8000;
    assert_eq!(
        fs.init(capable),
        Ok(FS_ASYNC_READ | FS_BIG_WRITES | FS_DO_READDIRPLUS | FS_READDIRPLUS_AUTO)
    );
    assert_eq!(fs.init(0), Ok(0));
    assert_eq!(fs.cache_options(OPEN_KEEP_CACHE), 0);
    let cfg = VirtualFsConfig {
        entry_timeout: Span { secs: 5, nanos: 0 },
        attr_timeout: Span { secs: 6, nanos: 0 },
        cache_policy: CachePolicy::Always,
        writeback: true,
    };
    let mut eager = VirtualFs::with_config(InMemoryFs::new(), cfg).unwrap();
    assert_eq!(eager.init(FS_WRITEBACK_CACHE), Ok(FS_WRITEBACK_CACHE));
    let (_, flags) = eager.do_opendir(ROOT).unwrap();
    assert_eq!(flags, OPEN_CACHE_DIR);
    let entry: Entry = eager.do_mkdir(ROOT, b"d", 0o755, 0).unwrap();
    assert_eq!(entry.entry_timeout, Span { secs: 5, nanos: 0 });
    assert_eq!(entry.attr_timeout, Span { secs: 6, nanos: 0 });
    let never = VirtualFsConfig {
        cache_policy: CachePolicy::Never,
        ..VirtualFsConfig::default()
    };
    let direct = VirtualFs::with_config(InMemoryFs::new(), never).unwrap();
    assert_eq!(direct.cache_options(OPEN_KEEP_CACHE), OPEN_DIRECT_IO);
}

#[test]
fn destroy_forgets_everything() {
    let mut fs = fs();
    let (_, h) = create_file(&mut fs, "f");
    fs.destroy();
    assert_eq!(fs.path_of(ROOT), Err(ebadf()));
    assert_eq!(fs.do_flush(h), Err(ebadf()));
    assert_eq!(fs.do_fsync(h, true), Err(ebadf()));
    assert_eq!(fs.do_release(h, true), Err(ebadf()));
}

#[test]
fn missing_times_show_the_present() {
    let fs = fs();
    let (st, _) = fs.do_getattr(ROOT).unwrap();
    assert!(st.st_atime > 1_000_000_000);
    assert_eq!(st.st_blksize, 4096);
    assert_eq!(st.st_blocks, 0);
    let mut attr = VAttr::file(0o644, 513);
    attr.mtime = VTime::after_epoch(Span { secs: 3, nanos: 4 });
    let st = microsandbox_vfs::stat::vattr_to_stat(9, &attr);
    assert_eq!(st.st_blocks, 2);
    assert_eq!((st.st_mtime, st.st_mtime_nsec), (3, 4));
}

#[test]
fn rpc_batches_are_split_and_joined() {
    let rpc = RpcPathFs::new(Loopback {
        provider: InMemoryFs::new(),
        requests: Mutex::new(Vec::new()),
    });
    let paths: Vec<Vec<u8>> = (0..MAX_BATCH_PATHS + 1)
        .map(|i| format!("/p{i}").into_bytes())
        .collect();
    rpc.create(b"/p4096", &VAttr::file(0o600, 0)).unwrap();
    let refs: Vec<&[u8]> = paths.iter().map(|p| p.as_slice()).collect();
    let attrs = rpc.getattr_many(&refs).unwrap();
    assert_eq!(attrs.len(), MAX_BATCH_PATHS + 1);
    assert_eq!(attrs[0], Err(enoent()));
    assert_eq!(attrs[MAX_BATCH_PATHS].unwrap().mode, 0o600);
    let sent = rpc.transport().requests.lock().unwrap();
    assert_eq!(sent.len(), 3);
    assert!(matches!(&sent[1], VfsRequest::GetAttrMany { paths } if paths.len() == 4096));
    assert!(matches!(&sent[2], VfsRequest::GetAttrMany { paths } if paths.len() == 1));
}

/// A transport with one fixed response.
struct Fixed(VfsResponse);

impl VfsTransport for Fixed {
    fn call(&self, _: VfsRequest) -> Result<VfsResponse, FsError> {
        Ok(self.0.clone())
    }
}

#[test]
fn rpc_replies_of_the_wrong_shape_are_refused() {
    let odd = RpcPathFs::new(Fixed(VfsResponse::Count(7)));
    assert_eq!(odd.getattr(b"/"), Err(eio()));
    assert_eq!(
        odd.write(b"/", 0, b"abc"),
        Err(FsError::InvalidData(DataFault::WriteTooLong))
    );
    assert_eq!(odd.write(b"/", 0, b"1234567"), Ok(7));
    assert_eq!(
        odd.write(b"/", 0, &vec![0; MAX_IO_SIZE as usize + 1]),
        Err(einval())
    );
    assert_eq!(odd.read(b"/", 0, MAX_IO_SIZE + 1), Err(eio()));
    let long = RpcPathFs::new(Fixed(VfsResponse::Bytes(vec![1; 9])));
    assert_eq!(
        long.read(b"/", 0, 8),
        Err(FsError::InvalidData(DataFault::ReadTooLong))
    );
    assert_eq!(long.read(b"/", 0, 9), Ok(vec![1; 9]));
    let few = RpcPathFs::new(Fixed(VfsResponse::AttrMany(vec![])));
    assert_eq!(
        few.getattr_many(&[b"/"]),
        Err(FsError::InvalidData(DataFault::BatchMismatch))
    );
    assert_eq!(few.getattr_many(&[]), Ok(vec![]));
    let failing = RpcPathFs::new(Fixed(VfsResponse::Errno(39)));
    assert_eq!(failing.remove(b"/d"), Err(enotempty()));
    assert_eq!(failing.rename(b"/a", b"/b"), Err(enotempty()));
}

/// A provider of files without end.
struct Endless;

impl PathFs for Endless {
    fn getattr(&self, _: &[u8]) -> Result<VAttr, FsError> {
        Ok(VAttr::dir(0o755))
    }
    fn readdir(&self, _: &[u8]) -> Result<Vec<VDirEntry>, FsError> {
        Ok(vec![])
    }
    fn read(&self, _: &[u8], _: u64, size: u32) -> Result<Vec<u8>, FsError> {
        Ok(vec![3; size as usize])
    }
}

/// A transport to endless files that keeps the sizes asked for.
struct Sizes(Arc<Mutex<Vec<u32>>>);

impl VfsTransport for Sizes {
    fn call(&self, req: VfsRequest) -> Result<VfsResponse, FsError> {
        if let VfsRequest::Read { size, .. } = &req {
            self.0.lock().unwrap().push(*size);
        }
        Ok(dispatch(&Endless, req))
    }
}

#[test]
fn large_reads_are_clamped_to_the_wire_maximum() {
    let max = MAX_IO_SIZE as usize;
    let sizes = Arc::new(Mutex::new(Vec::new()));
    let remote = RpcPathFs::new(Sizes(sizes.clone()));
    assert_eq!(remote.read(b"/f", 0, 5), Ok(vec![3; 5]));
    assert_eq!(remote.read(b"/f", 0, MAX_IO_SIZE), Ok(vec![3; max]));
    assert_eq!(remote.read(b"/f", 0, MAX_IO_SIZE + 1), Ok(vec![3; max]));
    assert_eq!(remote.read(b"/f", 0, u32::MAX), Ok(vec![3; max]));
    assert_eq!(
        *sizes.lock().unwrap(),
        vec![5, MAX_IO_SIZE, MAX_IO_SIZE, MAX_IO_SIZE]
    );

    let served = dispatch(
        &Endless,
        VfsRequest::Read {
            path: b"/f".to_vec(),
            offset: 0,
            size: MAX_IO_SIZE + 1,
        },
    );
    assert_eq!(served, VfsResponse::Bytes(vec![3; max]));
    let long = RpcPathFs::new(Fixed(VfsResponse::Bytes(vec![1; max + 1])));
    assert_eq!(
        long.read(b"/f", 0, MAX_IO_SIZE + 1),
        Err(FsError::InvalidData(DataFault::ReadTooLong))
    );
}

#[test]
fn serving_goes_from_hello_to_the_end() {
    let provider = InMemoryFs::new();
    let mut hello = Vec::new();
    write_hello(&mut hello).unwrap();
    let (state, action) = serve(
        &provider,
        ServeState::AwaitingHello,
        ServeEvent::Hello(hello.clone()),
    );
    assert!(matches!(&action, ServeAction::Write(bytes) if *bytes == hello));
    let (state, action) = serve(&provider, state, ServeEvent::Written(Ok(())));
    assert!(matches!(action, ServeAction::ReadRequest));
    let (state, action) = serve(
        &provider,
        state,
        ServeEvent::Request {
            id: 7,
            request: Ok(VfsRequest::GetAttr {
                path: b"/gone".to_vec(),
            }),
        },
    );
    assert_eq!(state, ServeState::Encoding { id: 7 });
    assert!(matches!(
        action,
        ServeAction::Encode(VfsResponse::Errno(2))
    ));
    let (again, action) = serve(
        &provider,
        state,
        ServeEvent::Encoded(vec![0; MAX_FRAME_LEN as usize + 1]),
    );
    assert_eq!(again, ServeState::EncodingFailure { id: 7 });
    assert!(matches!(
        action,
        ServeAction::Encode(VfsResponse::Errno(5))
    ));
    let (state, action) = serve(&provider, again, ServeEvent::Encoded(b"x".to_vec()));
    match action {
        ServeAction::Write(bytes) => {
            assert_eq!(read_frame(&mut bytes.as_slice()), Ok((7, b"x".to_vec())))
        }
        _ => panic!("expected a frame"),
    }
    let (state, _) = serve(&provider, state, ServeEvent::Written(Ok(())));
    let (state, action) = serve(
        &provider,
        state,
        ServeEvent::ReadFailed(FsError::UnexpectedEof),
    );
    assert_eq!(state, ServeState::Closed);
    assert!(matches!(action, ServeAction::Stop(Ok(()))));
}

/// Serve a connection of these requests, every response encoding to `payload`,
/// until reading fails with `end`: what was written, what was encoded, and the
/// last action.
fn serve_all(
    requests: Vec<(u64, VfsRequest)>,
    payload: &[u8],
    end: FsError,
) -> (Vec<Vec<u8>>, Vec<VfsResponse>, ServeAction) {
    let provider = InMemoryFs::new();
    let mut peer = Vec::new();
    write_hello(&mut peer).unwrap();
    let mut requests = requests.into_iter();
    let mut written = Vec::new();
    let mut encoded = Vec::new();
    let mut state = ServeState::AwaitingHello;
    let mut event = ServeEvent::Hello(peer);
    loop {
        let (next, action) = serve(&provider, state, event);
        state = next;
        event = match action {
            ServeAction::Write(bytes) => {
                written.push(bytes);
                ServeEvent::Written(Ok(()))
            }
            ServeAction::ReadRequest => match requests.next() {
                Some((id, request)) => ServeEvent::Request {
                    id,
                    request: Ok(request),
                },
                None => ServeEvent::ReadFailed(end),
            },
            ServeAction::Encode(resp) => {
                encoded.push(resp);
                match state {
                    ServeState::EncodingFailure { .. } => ServeEvent::Encoded(b"e".to_vec()),
                    _ => ServeEvent::Encoded(payload.to_vec()),
                }
            }
            stop => return (written, encoded, stop),
        };
    }
}

#[test]
fn a_connection_answers_every_request_once_in_order() {
    let gone = VfsRequest::GetAttr {
        path: b"/gone".to_vec(),
    };
    let root = VfsRequest::GetAttr {
        path: b"/".to_vec(),
    };
    let bad = VfsRequest::GetAttr {
        path: b"no".to_vec(),
    };
    let mut hello = Vec::new();
    write_hello(&mut hello).unwrap();

    let requests = vec![(9, gone.clone()), (3, root), (9, bad)];
    let (written, encoded, stop) = serve_all(requests, b"payload", FsError::UnexpectedEof);
    assert_eq!(written.len(), 4);
    assert_eq!(written[0], hello);
    for (i, id) in [(1, 9), (2, 3), (3, 9)] {
        assert_eq!(
            read_frame(&mut written[i].as_slice()),
            Ok((id, b"payload".to_vec()))
        );
    }
    assert_eq!(encoded.len(), 3);
    assert_eq!(encoded[0], VfsResponse::Errno(2));
    assert!(matches!(encoded[1], VfsResponse::Attr(_)));
    assert_eq!(encoded[2], VfsResponse::Errno(22));
    assert!(matches!(stop, ServeAction::Stop(Ok(()))));

    let (written, encoded, stop) = serve_all(
        vec![(4, gone)],
        &vec![0; MAX_FRAME_LEN as usize + 1],
        eio(),
    );
    assert_eq!(written.len(), 2);
    assert_eq!(
        read_frame(&mut written[1].as_slice()),
        Ok((4, b"e".to_vec()))
    );
    assert_eq!(encoded, vec![VfsResponse::Errno(2), VfsResponse::Errno(5)]);
    assert!(matches!(stop, ServeAction::Stop(Err(FsError::Os(5)))));

    let (written, encoded, stop) = serve_all(vec![], b"", FsError::UnexpectedEof);
    assert_eq!(written, vec![hello]);
    assert_eq!(encoded, vec![]);
    assert!(matches!(stop, ServeAction::Stop(Ok(()))));
}

#[test]
fn serving_stops_on_failures() {
    let provider = InMemoryFs::new();
    let (state, action) = serve(
        &provider,
        ServeState::AwaitingHello,
        ServeEvent::Hello(b"nonsense".to_vec()),
    );
    assert_eq!(state, ServeState::Closed);
    assert!(matches!(
        action,
        ServeAction::Stop(Err(FsError::InvalidData(DataFault::BadMagic)))
    ));
    let (_, action) = serve(
        &provider,
        ServeState::Writing,
        ServeEvent::Written(Err(eio())),
    );
    assert!(matches!(action, ServeAction::Stop(Err(FsError::Os(5)))));
    let (_, action) = serve(
        &provider,
        ServeState::AwaitingRequest,
        ServeEvent::ReadFailed(eio()),
    );
    assert!(matches!(action, ServeAction::Stop(Err(FsError::Os(5)))));
    let (_, action) = serve(
        &provider,
        ServeState::AwaitingRequest,
        ServeEvent::Request {
            id: 1,
            request: Err(FsError::InvalidData(DataFault::Malformed)),
        },
    );
    assert!(matches!(
        action,
        ServeAction::Encode(VfsResponse::Errno(22))
    ));
    let (_, action) = serve(
        &provider,
        ServeState::EncodingFailure { id: 1 },
        ServeEvent::Encoded(vec![0; MAX_FRAME_LEN as usize + 1]),
    );
    assert!(matches!(
        action,
        ServeAction::Stop(Err(FsError::InvalidInput))
    ));
    let (_, action) = serve(
        &provider,
        ServeState::Closed,
        ServeEvent::Written(Ok(())),
    );
    assert!(matches!(action, ServeAction::Stop(Err(FsError::Other))));
}

#[test]
fn lookups_agree_and_paths_are_told_apart() {
    let mut fs = fs();
    create_file(&mut fs, "a");
    create_file(&mut fs, "b");
    let a = fs.do_lookup(ROOT, b"a").unwrap();
    let b = fs.do_lookup(ROOT, b"b").unwrap();
    assert_eq!(fs.do_lookup(ROOT, b"a").unwrap().inode, a.inode);
    assert_ne!(a.inode, b.inode);
    assert_eq!(fs.inode_of(b"/b"), Some(b.inode));

    // A listing shows the numbers that lookups return.
    let (h, _) = fs.do_opendir(ROOT).unwrap();
    let entries = fs.do_readdir(ROOT, h.unwrap(), 4096, 0).unwrap();
    let shown: Vec<(Vec<u8>, u64)> = entries.into_iter().map(|e| (e.name, e.ino)).collect();
    assert!(shown.contains(&(b"a".to_vec(), a.inode)));
    assert!(shown.contains(&(b"b".to_vec(), b.inode)));
}

#[test]
fn renaming_there_and_back_restores_every_path() {
    let mut fs = fs();
    fs.do_mkdir(ROOT, b"d", 0o755, 0).unwrap();
    let d = fs.do_lookup(ROOT, b"d").unwrap().inode;
    fs.do_create(d, b"f", 0o644, 0).unwrap();
    let f = fs.do_lookup(d, b"f").unwrap().inode;
    let (other, _) = create_file(&mut fs, "dd");

    fs.do_rename(ROOT, b"d", ROOT, b"e", 0).unwrap();
    assert_eq!(fs.inode_of(b"/e"), Some(d));
    assert_eq!(fs.inode_of(b"/e/f"), Some(f));
    assert_eq!(fs.inode_of(b"/d"), None);
    assert_eq!(fs.inode_of(b"/d/f"), None);
    // A name that merely starts alike is not moved.
    assert_eq!(fs.path_of(other).unwrap(), b"/dd");

    fs.do_rename(ROOT, b"e", ROOT, b"d", 0).unwrap();
    assert_eq!(fs.path_of(d).unwrap(), b"/d");
    assert_eq!(fs.path_of(f).unwrap(), b"/d/f");
    assert_eq!(fs.inode_of(b"/e"), None);
}

#[test]
fn renames_take_over_the_destination() {
    let mut fs = fs();
    let (from, _) = create_file(&mut fs, "from");
    let (to, handle) = create_file(&mut fs, "to");
    fs.do_rename(ROOT, b"from", ROOT, b"to", 0).unwrap();
    assert_eq!(fs.path_of(from).unwrap(), b"/to");
    assert_eq!(err_no(fs.path_of(to)), estale().raw_os_error());
    // The file that was replaced goes on under the path it was opened with.
    assert_eq!(fs.file_handle_path(handle).unwrap(), b"/to");
}

#[test]
fn unlinked_inodes_are_stale_until_forgotten() {
    let mut fs = fs();
    let (ino, _) = create_file(&mut fs, "f");
    fs.do_unlink(ROOT, b"f").unwrap();
    assert_eq!(err_no(fs.do_getattr(ino)), estale().raw_os_error());
    assert_eq!(fs.inode_of(b"/f"), None);
    fs.forget(ino, 1);
    assert_eq!(err_no(fs.do_getattr(ino)), ebadf().raw_os_error());
    // The root is pinned.
    fs.forget(ROOT, u64::MAX);
    assert!(fs.do_getattr(ROOT).is_ok());
}

#[test]
fn umask_bits_are_cleared_on_creation() {
    let mut fs = fs();
    let (entry, _, _) = fs.do_create(ROOT, b"f", 0o100777, 0o027).unwrap();
    assert_eq!(entry.attr.st_mode & 0o7777, 0o750);
    let dir = fs.do_mkdir(ROOT, b"d", 0o1777, 0o002).unwrap();
    assert_eq!(dir.attr.st_mode & 0o7777, 0o1775);
}

#[test]
fn only_devices_show_a_device_number() {
    let mut fs = fs();
    let chr = fs.do_mknod(ROOT, b"c", 0o020666, 259, 0).unwrap();
    assert_eq!(chr.attr.st_rdev, 259);
    let fifo = fs.do_mknod(ROOT, b"p", 0o010666, 259, 0).unwrap();
    assert_eq!(fifo.attr.st_rdev, 0);
}

#[test]
fn selecting_nothing_keeps_the_attributes() {
    let mut fs = fs();
    let (ino, handle) = create_file(&mut fs, "f");
    write_all(&fs, handle, 0, b"abc");
    let mut st = Stat64::zeroed();
    st.st_mode = 0o7777;
    st.st_uid = 7;
    let (shown, _) = fs.do_setattr(ino, &st, 0).unwrap();
    assert_eq!(shown.st_mode & 0o7777, 0o644);
    assert_eq!(shown.st_uid, 0);
    assert_eq!(shown.st_size, 3);
}

#[test]
fn attribute_names_are_listed_apart() {
    let mut fs = fs();
    let (ino, _) = create_file(&mut fs, "f");
    fs.do_setxattr(ino, b"user.a", b"1", 0).unwrap();
    fs.do_setxattr(ino, b"user.ab", b"2", 0).unwrap();
    match fs.do_listxattr(ino, 64).unwrap() {
        ListxattrReply::Names(names) => assert_eq!(names, b"user.a\0user.ab\0"),
        _ => panic!("unexpected listxattr reply"),
    }
}

#[test]
fn a_provider_behind_the_wire_answers_like_a_direct_one() {
    let mut direct = fs();
    let mut remote = mount();
    for step in 0..2 {
        let name = if step == 0 { "x" } else { "y" };
        assert_eq!(create_file(&mut direct, name), create_file(&mut remote, name));
    }
    let handle = 1;
    assert_eq!(
        direct.do_write(handle, b"data", 2),
        remote.do_write(handle, b"data", 2)
    );
    assert_eq!(direct.do_read(handle, 9, 1), remote.do_read(handle, 9, 1));
    assert_eq!(direct.do_flush(handle), remote.do_flush(handle));
    assert_eq!(direct.do_fsync(handle, true), remote.do_fsync(handle, true));
    assert_eq!(
        direct.do_setxattr(2, b"user.k", b"v", 0),
        remote.do_setxattr(2, b"user.k", b"v", 0)
    );
    assert_eq!(
        direct.do_removexattr(2, b"user.none"),
        remote.do_removexattr(2, b"user.none")
    );
    assert_eq!(
        direct.do_rename(ROOT, b"x", ROOT, b"z", 1),
        remote.do_rename(ROOT, b"x", ROOT, b"z", 1)
    );
    assert_eq!(
        direct.do_rename(ROOT, b"z", ROOT, b"y", 1),
        remote.do_rename(ROOT, b"z", ROOT, b"y", 1)
    );
    assert_eq!(err_no(direct.do_unlink(ROOT, b"x")), err_no(remote.do_unlink(ROOT, b"x")));
    assert_eq!(direct.do_unlink(ROOT, b"y"), remote.do_unlink(ROOT, b"y"));
    assert_eq!(direct.statfs(), remote.statfs());
    let (h, _) = direct.do_opendir(ROOT).unwrap();
    let (g, _) = remote.do_opendir(ROOT).unwrap();
    assert_eq!(h, g);
    assert_eq!(
        direct.do_fsyncdir(ROOT, h.unwrap()),
        remote.do_fsyncdir(ROOT, g.unwrap())
    );
    let near = direct.do_readdir(ROOT, h.unwrap(), 4096, 0).unwrap();
    let far = remote.do_readdir(ROOT, g.unwrap(), 4096, 0).unwrap();
    assert_eq!(near.len(), 3);
    for (a, b) in near.iter().zip(&far) {
        assert_eq!((a.ino, a.offset, a.type_, &a.name), (b.ino, b.offset, b.type_, &b.name));
    }
}

#[test]
fn refused_requests_get_the_errno_of_the_verdict() {
    let provider = InMemoryFs::new();
    let cases = vec![
        (VfsRequest::ReadDir { path: b"/a/../b".to_vec() }, 1),
        (VfsRequest::Mkdir { path: b"/a//b".to_vec(), mode: 0 }, 22),
        (VfsRequest::Remove { path: vec![b'/'; 5000] }, 36),
        (
            VfsRequest::Symlink {
                path: b"/l".to_vec(),
                target: b"/abs".to_vec(),
            },
            1,
        ),
        (
            VfsRequest::GetXattr {
                path: b"/".to_vec(),
                name: b"a/b".to_vec(),
            },
            22,
        ),
        (
            VfsRequest::Rename {
                from: b"/a".to_vec(),
                to: b"b".to_vec(),
                flags: 0,
            },
            22,
        ),
        (
            VfsRequest::Read {
                path: b"/a".to_vec(),
                offset: 0,
                size: MAX_IO_SIZE + 1,
            },
            22,
        ),
    ];
    for (request, errno) in cases {
        let event = ServeEvent::Request {
            id: 4,
            request: Ok(request),
        };
        let (state, action) = serve(&provider, ServeState::AwaitingRequest, event);
        assert_eq!(state, ServeState::Encoding { id: 4 });
        match action {
            ServeAction::Encode(VfsResponse::Errno(got)) => assert_eq!(got, errno),
            _ => panic!("expected an errno"),
        }
    }
    let remote = RpcPathFs::new(Loopback {
        provider,
        requests: Mutex::new(Vec::new()),
    });
    assert_eq!(err_no(remote.getattr(b"relative")), Some(LINUX_EINVAL));
    assert_eq!(err_no(remote.readlink(b"/a/.")), Some(1));
}

#[test]
fn the_root_stays_whatever_is_forgotten() {
    let mut fs = fs();
    fs.forget(ROOT, u64::MAX);
    fs.batch_forget(&vec![(ROOT, u64::MAX), (ROOT, 1)]);
    assert_eq!(fs.path_of(ROOT), Ok(b"/".to_vec()));
    assert_eq!(fs.inode_of(b"/"), Some(ROOT));
    let (ino, _) = create_file(&mut fs, "a");
    assert_eq!(ino, 2);
}

#[test]
fn readdirplus_rows_are_given_back() {
    let mut fs = fs();
    for name in ["a", "b", "c"] {
        let (ino, handle) = create_file(&mut fs, name);
        fs.do_release(handle, false).unwrap();
        fs.forget(ino, 1);
    }
    let known = fs.do_lookup(ROOT, b"b").unwrap().inode;
    let (dir, _) = fs.do_opendir(ROOT).unwrap();
    let rows = fs.do_readdirplus(ROOT, dir.unwrap(), 1 << 16, 0).unwrap();
    assert_eq!(rows.len(), 3);
    for (row, entry) in &rows {
        assert_eq!(row.ino, entry.inode);
        assert!(fs.path_of(entry.inode).is_ok());
    }
    let requests: Vec<(u64, u64)> = rows.iter().rev().map(|(_, e)| (e.inode, 1)).collect();
    fs.batch_forget(&requests);
    assert_eq!(fs.inode_of(b"/a"), None);
    assert_eq!(fs.inode_of(b"/b"), Some(known));
    assert_eq!(fs.inode_of(b"/c"), None);
    fs.forget(known, 1);
    assert_eq!(fs.inode_of(b"/b"), None);
}

#[test]
fn inodes_live_while_they_are_referenced() {
    let mut fs = fs();
    let (ino, _) = create_file(&mut fs, "a");
    let (other, _) = create_file(&mut fs, "b");
    assert_eq!(fs.do_lookup(ROOT, b"a").unwrap().inode, ino);
    fs.forget(ino, 1);
    assert_eq!(fs.path_of(ino), Ok(b"/a".to_vec()));
    fs.forget(ino, 1);
    assert_eq!(fs.path_of(ino), Err(ebadf()));
    assert_eq!(fs.path_of(other), Ok(b"/b".to_vec()));
}

#[test]
fn handles_are_told_apart_and_closed_alone() {
    let mut fs = fs();
    let (_, first) = create_file(&mut fs, "a");
    let (_, second) = create_file(&mut fs, "b");
    let (dir, _) = fs.do_opendir(ROOT).unwrap();
    assert_eq!((first, second, dir), (1, 2, Some(3)));
    assert_eq!(fs.file_handle_path(first), Ok(b"/a".to_vec()));
    assert_eq!(fs.file_handle_path(second), Ok(b"/b".to_vec()));
    fs.do_release(first, true).unwrap();
    assert_eq!(fs.file_handle_path(first), Err(ebadf()));
    assert_eq!(fs.file_handle_path(second), Ok(b"/b".to_vec()));
    assert_eq!(fs.do_release(first, true), Err(ebadf()));
    assert_eq!(fs.do_release(first, false), Ok(()));
}

#[test]
fn names_that_are_gone_leave_stale_inodes() {
    let mut fs = fs();
    let dir = fs.do_mkdir(ROOT, b"d", 0o755, 0).unwrap().inode;
    fs.do_rmdir(ROOT, b"d").unwrap();
    assert_eq!(fs.path_of(dir), Err(estale()));
    let (old, _) = create_file(&mut fs, "x");
    fs.do_unlink(ROOT, b"x").unwrap();
    let (new, _) = create_file(&mut fs, "x");
    assert_ne!(old, new);
    assert_eq!(fs.path_of(old), Err(estale()));
    let (moved, _) = create_file(&mut fs, "y");
    fs.do_rename(ROOT, b"y", ROOT, b"x", 0).unwrap();
    assert_eq!(fs.path_of(new), Err(estale()));
    assert_eq!(fs.path_of(moved), Ok(b"/x".to_vec()));
}

#[test]
fn renames_refresh_the_listings_they_change() {
    let mut fs = fs();
    let from = fs.do_mkdir(ROOT, b"from", 0o755, 0).unwrap().inode;
    let to = fs.do_mkdir(ROOT, b"to", 0o755, 0).unwrap().inode;
    let sub = fs.do_mkdir(from, b"sub", 0o755, 0).unwrap().inode;
    let side = fs.do_mkdir(ROOT, b"side", 0o755, 0).unwrap().inode;
    let mut open = Vec::new();
    for ino in [from, to, sub, side] {
        let handle = fs.do_opendir(ino).unwrap().0.unwrap();
        fs.do_readdir(ino, handle, 4096, 0).unwrap();
        open.push((ino, handle));
    }
    fs.do_rename(from, b"sub", to, b"sub", 0).unwrap();
    for (ino, handle) in open {
        let reply = fs.do_readdir(ino, handle, 4096, 1);
        if ino == side {
            assert_eq!(reply.unwrap().len(), 1);
        } else {
            assert_eq!(reply.err(), Some(eagain()));
        }
    }
}

#[test]
fn whoever_may_do_more_may_do_less() {
    let mut attr = VAttr::file(0o640, 0);
    attr.uid = 7;
    attr.gid = 8;
    let owner = Context { uid: 7, gid: 1, pid: 1 };
    let group = Context { uid: 1, gid: 8, pid: 1 };
    let root = Context { uid: 0, gid: 0, pid: 1 };
    assert_eq!(check_access(&attr, owner, 6), Ok(()));
    for less in [0, 2, 4] {
        assert_eq!(check_access(&attr, owner, less), Ok(()));
    }
    assert_eq!(check_access(&attr, group, 4), Ok(()));
    assert_eq!(check_access(&attr, group, 6), Err(eacces()));
    assert_eq!(check_access(&attr, root, 6), Ok(()));
    assert_eq!(check_access(&attr, root, 7), Err(eacces()));
}

#[test]
fn both_ends_greet_each_other() {
    let provider = InMemoryFs::new();
    let mut greeting = Vec::new();
    write_hello(&mut greeting).unwrap();
    let (state, action) = serve(
        &provider,
        ServeState::AwaitingHello,
        ServeEvent::Hello(greeting),
    );
    assert_eq!(state, ServeState::Writing);
    let answer = match action {
        ServeAction::Write(bytes) => bytes,
        _ => panic!("expected a hello"),
    };
    assert_eq!(SocketTransport::connect(&answer).unwrap().peer_protocol_version(), 1);
    let (state, action) = serve(
        &provider,
        ServeState::Closed,
        ServeEvent::ReadFailed(FsError::UnexpectedEof),
    );
    assert_eq!(state, ServeState::Closed);
    assert!(matches!(action, ServeAction::Stop(Err(FsError::Other))));
}
