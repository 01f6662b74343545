use vstd::prelude::*;

use crate::device::Device;
use crate::error::Error;
use crate::layout::{geometry, geometry_of, lemma_cluster_bound, ntfs_signed, zeroed, Geometry, SECTOR_SIZE};
use crate::record::{
    record_header_at, views, walk, walk_attributes, Attribute, AttributeView, RecordHeader,
    FILE_SIGNATURE, RECORD_HEADER_SIZE,
};
use crate::source::{SeekFrom, Stream};

verus! {

/// Reads `len` bytes at `offset` of the device.
pub fn read_block<R: Stream>(device: &mut Device<R>, offset: u64, len: usize) -> (r: Result<
    Vec<u8>,
    Error,
>)
    requires
        old(device).wf(),
    ensures
        final(device).wf(),
        final(device).block() == old(device).block(),
        final(device).content() == old(device).content(),
        final(device).source().reliable() == old(device).source().reliable(),
        final(device).source().unit() == old(device).source().unit(),
        old(device).source().reliable() ==> (r is Ok <==> (len == 0 || offset + len <= old(
            device,
        ).content().len())),
        old(device).source().reliable() && len > 0 && offset + len > old(device).content().len()
            ==> r == Err::<Vec<u8>, Error>(Error::UnexpectedEof),
        r is Ok ==> r->Ok_0@.len() == len,
        r is Ok && len > 0 ==> r->Ok_0@ == old(device).content().subrange(
            offset as int,
            offset + len,
        ),
{
    match device.seek(SeekFrom::Start(offset)) {
        Ok(_) => {},
        Err(e) => {
            return Err(e);
        },
    }
    let mut buffer = zeroed(len);
    match device.read_exact(buffer.as_mut_slice()) {
        Ok(()) => Ok(buffer),
        Err(e) => Err(e),
    }
}

/// The header of the file record at `offset` of the volume bytes `c`.
pub open spec fn header_of(c: Seq<u8>, offset: nat) -> RecordHeader {
    record_header_at(c.subrange(offset as int, offset + RECORD_HEADER_SIZE), 0)
}

/// Reads the header of the file record at `offset` of the device.
fn read_header<R: Stream>(device: &mut Device<R>, offset: u64) -> (r: Result<RecordHeader, Error>)
    requires
        old(device).wf(),
    ensures
        final(device).wf(),
        final(device).block() == old(device).block(),
        final(device).content() == old(device).content(),
        final(device).source().reliable() == old(device).source().reliable(),
        final(device).source().unit() == old(device).source().unit(),
        old(device).source().reliable() ==> (r is Ok <==> offset + RECORD_HEADER_SIZE <= old(
            device,
        ).content().len()),
        old(device).source().reliable() && offset + RECORD_HEADER_SIZE > old(
            device,
        ).content().len() ==> r == Err::<RecordHeader, Error>(Error::UnexpectedEof),
        r is Ok ==> r->Ok_0 == header_of(old(device).content(), offset as nat),
{
    let head = match read_block(device, offset, RECORD_HEADER_SIZE) {
        Ok(b) => b,
        Err(e) => {
            return Err(e);
        },
    };
    Ok(RecordHeader::decode(head.as_slice(), 0))
}

/// The attributes of the file record at `offset` of the volume bytes `c`, for records of
/// `size` bytes: the header must fit in a record and carry the `FILE` signature, and the
/// attributes are walked within the smaller of the record size and the size that the
/// header gives.
#[verifier::opaque]
pub open spec fn record_of(c: Seq<u8>, offset: nat, size: nat) -> Result<Seq<AttributeView>, Error> {
    if size < RECORD_HEADER_SIZE {
        Err(Error::InvalidData)
    } else if offset + RECORD_HEADER_SIZE > c.len() {
        Err(Error::UnexpectedEof)
    } else {
        let h = header_of(c, offset);
        if h.signature != FILE_SIGNATURE {
            Err(Error::InvalidData)
        } else {
            let max: nat = if size <= h.real_size {
                size
            } else {
                h.real_size as nat
            };
            if max > 0 && offset + max > c.len() {
                Err(Error::UnexpectedEof)
            } else {
                walk(c.subrange(offset as int, (offset + max) as int), h.first_attribute_offset as nat)
            }
        }
    }
}

/// A file record segment of the MFT, known by its offset on the volume, with the
/// attributes read from it last.
#[derive(Debug)]
pub struct FileRecord {
    offset: u64,
    attributes: Vec<Attribute>,
}

impl FileRecord {
    /// The offset of the record on the volume.
    pub closed spec fn spec_offset(&self) -> nat {
        self.offset as nat
    }

    /// The models of the attributes read last.
    pub closed spec fn spec_attributes(&self) -> Seq<AttributeView> {
        views(self.attributes@)
    }

    /// Reads the file record at `offset` of the device, for records of `size` bytes.
    pub fn new<R: Stream>(device: &mut Device<R>, offset: u64, size: u64) -> (r: Result<
        Self,
        Error,
    >)
        requires
            old(device).wf(),
        ensures
            final(device).wf(),
            final(device).block() == old(device).block(),
            final(device).content() == old(device).content(),
            final(device).source().reliable() == old(device).source().reliable(),
            final(device).source().unit() == old(device).source().unit(),
        final(device).source().unit() == old(device).source().unit(),
            old(device).source().reliable() ==> match record_of(
                old(device).content(),
                offset as nat,
                size as nat,
            ) {
                Ok(s) => r matches Ok(f) && f.spec_attributes() == s && f.spec_offset()
                    == offset,
                Err(e) => r matches Err(x) && x == e,
            },
    {
        let mut record = FileRecord { offset, attributes: Vec::new() };
        match record.refresh(device, size) {
            Ok(()) => Ok(record),
            Err(e) => Err(e),
        }
    }

    /// Reads the record again from the device, for records of `size` bytes, and walks its
    /// attributes. On failure the attributes read before are kept.
    pub fn refresh<R: Stream>(&mut self, device: &mut Device<R>, size: u64) -> (r: Result<
        (),
        Error,
    >)
        requires
            old(device).wf(),
        ensures
            final(device).wf(),
            final(device).block() == old(device).block(),
            final(device).content() == old(device).content(),
            final(device).source().reliable() == old(device).source().reliable(),
            final(device).source().unit() == old(device).source().unit(),
        final(device).source().unit() == old(device).source().unit(),
            final(self).spec_offset() == old(self).spec_offset(),
            r is Err ==> final(self).spec_attributes() == old(self).spec_attributes(),
            old(device).source().reliable() ==> match record_of(
                old(device).content(),
                old(self).spec_offset(),
                size as nat,
            ) {
                Ok(s) => r is Ok && final(self).spec_attributes() == s,
                Err(e) => r == Err::<(), Error>(e),
            },
    {
        reveal(record_of);
        if size < RECORD_HEADER_SIZE as u64 {
            return Err(Error::InvalidData);
        }
        let header = match read_header(device, self.offset) {
            Ok(h) => h,
            Err(e) => {
                return Err(e);
            },
        };
        if header.signature != FILE_SIGNATURE {
            return Err(Error::InvalidData);
        }
        let max: u64 = if size <= header.real_size as u64 {
            size
        } else {
            header.real_size as u64
        };
        let bytes = match read_block(device, self.offset, max as usize) {
            Ok(b) => b,
            Err(e) => {
                return Err(e);
            },
        };
        match walk_attributes(bytes.as_slice(), header.first_attribute_offset as usize) {
            Ok(attributes) => {
                self.attributes = attributes;
                Ok(())
            },
            Err(e) => Err(e),
        }
    }

    /// The offset of the record on the volume.
    pub fn offset(&self) -> (r: u64)
        ensures
            r == self.spec_offset(),
    {
        self.offset
    }

    /// The attributes read last.
    pub fn attributes(&self) -> (r: &Vec<Attribute>)
        ensures
            views(r@) == self.spec_attributes(),
    {
        &self.attributes
    }
}

/// What opening an NTFS volume over a source with contents `c` and block size `unit`
/// gives, from its boot sector `h`: the layout, whether the MFT mirror was used, and the
/// attributes of the MFT's own record. The MFT is read at its primary location, and at the
/// mirror where that fails; the error of the mirror is the one returned.
pub open spec fn volume_of(h: Seq<u8>, c: Seq<u8>, unit: nat) -> Result<
    (Geometry, bool, Seq<AttributeView>),
    Error,
> {
    match geometry_of(h) {
        None => Err(Error::InvalidData),
        Some(g) => if unit > 0 && (g.cluster_size as nat) % unit != 0 {
            Err(Error::InvalidInput)
        } else {
            match record_of(c, g.mft_offset as nat, g.record_size as nat) {
                Ok(s) => Ok((g, false, s)),
                Err(_) => match record_of(c, g.backup_mft_offset as nat, g.record_size as nat) {
                    Ok(s) => Ok((g, true, s)),
                    Err(e) => Err(e),
                },
            }
        },
    }
}

/// An NTFS volume: a device whose block size is the cluster size, and the MFT's own record.
pub struct Ntfs<R> {
    inner: Device<R>,
    mft: FileRecord,
    record_size: u64,
    layout: Geometry,
    used_backup: bool,
}

impl<R: Stream> Ntfs<R> {
    /// The device over the source, with the cluster size as block size.
    pub closed spec fn device(&self) -> Device<R> {
        self.inner
    }

    /// The MFT's own record.
    pub closed spec fn spec_mft(&self) -> FileRecord {
        self.mft
    }

    /// The layout that the boot sector gives.
    pub closed spec fn spec_layout(&self) -> Geometry {
        self.layout
    }

    /// Whether the MFT was read from its mirror.
    pub closed spec fn spec_used_backup(&self) -> bool {
        self.used_backup
    }

    /// The volume is well formed: its device is, with the cluster size as block size, and
    /// the record size is the one of the layout.
    pub closed spec fn wf(&self) -> bool {
        &&& self.inner.wf()
        &&& self.inner.block() == self.layout.cluster_size
        &&& self.record_size == self.layout.record_size
    }

    /// Whether a 512-byte header is the boot sector of an NTFS volume: bytes 3 to 6 spell
    /// `NTFS`.
    pub fn has_signature(header: &[u8]) -> (r: bool)
        ensures
            r == ntfs_signed(header@),
    {
        header.len() >= 7 && header[3] == 0x4e && header[4] == 0x54 && header[5] == 0x46
            && header[6] == 0x53
    }

    /// Opens the volume whose boot sector `header` has already been read from `inner`: the
    /// source is wrapped in a device whose block size is the cluster size, and the MFT's
    /// record is read, at the mirror where the primary copy fails.
    pub fn open_with_header(inner: R, header: &[u8]) -> (r: Result<Self, Error>)
        requires
            header@.len() >= SECTOR_SIZE,
            inner.valid(),
            inner.content().len() <= u64::MAX,
            inner.cursor() <= u64::MAX,
        ensures
            inner.reliable() && inner.unit() > 0 ==> match volume_of(
                header@,
                inner.content(),
                inner.unit(),
            ) {
                Ok((g, backup, s)) => r matches Ok(v) && {
                    &&& v.wf()
                    &&& v.spec_layout() == g
                    &&& v.spec_used_backup() == backup
                    &&& v.spec_mft().spec_attributes() == s
                    &&& v.spec_mft().spec_offset() == if backup {
                        g.backup_mft_offset
                    } else {
                        g.mft_offset
                    }
                    &&& v.device().content() == inner.content()
                },
                Err(e) => r matches Err(x) && x == e,
            },
            r matches Ok(v) ==> v.wf(),
    {
        let g = match geometry(header) {
            Ok(g) => g,
            Err(e) => {
                return Err(e);
            },
        };
        proof {
            lemma_cluster_bound(header@);
        }
        let mut device = match Device::with_block_size(inner, g.cluster_size as usize) {
            Ok(d) => d,
            Err(e) => {
                return Err(e);
            },
        };
        let (mft, used_backup) = match FileRecord::new(&mut device, g.mft_offset, g.record_size) {
            Ok(f) => (f, false),
            Err(_) => match FileRecord::new(&mut device, g.backup_mft_offset, g.record_size) {
                Ok(f) => (f, true),
                Err(e) => {
                    return Err(e);
                },
            },
        };
        Ok(Ntfs { inner: device, mft, record_size: g.record_size, layout: g, used_backup })
    }

    /// Reads the MFT's record again from the device.
    pub fn reload(&mut self) -> (r: Result<(), Error>)
        requires
            old(self).wf(),
        ensures
            final(self).wf(),
            final(self).spec_layout() == old(self).spec_layout(),
            final(self).device().content() == old(self).device().content(),
            final(self).spec_mft().spec_offset() == old(self).spec_mft().spec_offset(),
            old(self).device().source().reliable() ==> match record_of(
                old(self).device().content(),
                old(self).spec_mft().spec_offset(),
                old(self).spec_layout().record_size as nat,
            ) {
                Ok(s) => r is Ok && final(self).spec_mft().spec_attributes() == s,
                Err(e) => r == Err::<(), Error>(e),
            },
    {
        self.mft.refresh(&mut self.inner, self.record_size)
    }

    /// The MFT's own record.
    pub fn mft(&self) -> (r: &FileRecord)
        ensures
            *r == self.spec_mft(),
    {
        &self.mft
    }

    /// The layout that the boot sector gives.
    pub fn geometry(&self) -> (r: Geometry)
        ensures
            r == self.spec_layout(),
    {
        self.layout
    }

    /// Whether the MFT had to be read from its mirror.
    pub fn used_backup(&self) -> (r: bool)
        ensures
            r == self.spec_used_backup(),
    {
        self.used_backup
    }

    /// Gets a reference to the underlying source.
    pub fn get_ref(&self) -> (r: &R)
        ensures
            *r == self.device().source(),
    {
        self.inner.get_ref()
    }

    /// Gets a mutable reference to the underlying source.
    pub fn get_mut(&mut self) -> (r: &mut R)
        ensures
            *r == old(self).device().source(),
            final(self).device() == old(self).device().with_source(*final(r)),
            final(self).spec_mft() == old(self).spec_mft(),
            final(self).spec_layout() == old(self).spec_layout(),
            final(self).spec_used_backup() == old(self).spec_used_backup(),
    {
        self.inner.get_mut()
    }

    /// Unwraps the volume, returning the underlying source.
    pub fn into_inner(self) -> (r: R)
        ensures
            r == self.device().source(),
    {
        self.inner.into_inner()
    }
}

/// A filesystem opened over a byte source.
pub trait Volume<R: Stream>: Sized {
    /// Whether the volume is ready to be read.
    spec fn ready(&self) -> bool;

    /// Opens the volume whose 512-byte header has already been read from `inner`.
    fn with_header(inner: R, header: &[u8]) -> (r: Result<Self, Error>)
        requires
            header@.len() >= SECTOR_SIZE,
            inner.valid(),
            inner.content().len() <= u64::MAX,
            inner.cursor() <= u64::MAX,
        ensures
            r matches Ok(v) ==> v.ready(),
    ;

    /// Reads the 512-byte header from `inner` and opens the volume.
    fn new(inner: R) -> (r: Result<Self, Error>)
        requires
            inner.valid(),
            inner.content().len() <= u64::MAX,
            inner.cursor() <= u64::MAX,
        ensures
            r matches Ok(v) ==> v.ready(),
    ;

    /// Whether a 512-byte header is one of a volume of this kind.
    fn is_supported(header: &[u8]) -> bool;

    /// Reads the volume's metadata again from disk.
    fn refresh(&mut self) -> (r: Result<(), Error>)
        requires
            old(self).ready(),
        ensures
            final(self).ready(),
    ;
}

impl<R: Stream> Volume<R> for Ntfs<R> {
    open spec fn ready(&self) -> bool {
        self.wf()
    }

    fn with_header(inner: R, header: &[u8]) -> (r: Result<Self, Error>)
        ensures
            inner.reliable() && inner.unit() > 0 ==> match volume_of(
                header@,
                inner.content(),
                inner.unit(),
            ) {
                Ok((g, backup, s)) => r matches Ok(v) && v.spec_layout() == g
                    && v.spec_used_backup() == backup && v.spec_mft().spec_attributes() == s,
                Err(e) => r matches Err(x) && x == e,
            },
    {
        Ntfs::open_with_header(inner, header)
    }

    fn new(inner: R) -> (r: Result<Self, Error>)
        ensures
            inner.reliable() && inner.unit() > 0 ==> {
                let c = inner.content();
                let at = inner.cursor();
                if at + SECTOR_SIZE > c.len() {
                    r == Err::<Self, Error>(Error::UnexpectedEof)
                } else {
                    match volume_of(c.subrange(at as int, at + SECTOR_SIZE), c, inner.unit()) {
                        Ok((g, backup, s)) => r matches Ok(v) && v.spec_layout() == g
                            && v.spec_used_backup() == backup && v.spec_mft().spec_attributes()
                            == s,
                        Err(e) => r matches Err(x) && x == e,
                    }
                }
            },
    {
        let mut inner = inner;
        let mut header = zeroed(SECTOR_SIZE);
        let n = match inner.read(header.as_mut_slice()) {
            Ok(n) => n,
            Err(e) => {
                return Err(e);
            },
        };
        if n < SECTOR_SIZE {
            return Err(Error::UnexpectedEof);
        }
        assert(header@.subrange(0, SECTOR_SIZE as int) =~= header@);
        Ntfs::open_with_header(inner, header.as_slice())
    }

    fn is_supported(header: &[u8]) -> (r: bool)
        ensures
            r == ntfs_signed(header@),
    {
        Ntfs::<R>::has_signature(header)
    }

    fn refresh(&mut self) -> (r: Result<(), Error>)
        ensures
            final(self).spec_layout() == old(self).spec_layout(),
            final(self).spec_mft().spec_offset() == old(self).spec_mft().spec_offset(),
            old(self).device().source().reliable() ==> match record_of(
                old(self).device().content(),
                old(self).spec_mft().spec_offset(),
                old(self).spec_layout().record_size as nat,
            ) {
                Ok(s) => r is Ok && final(self).spec_mft().spec_attributes() == s,
                Err(e) => r == Err::<(), Error>(e),
            },
    {
        self.reload()
    }
}

/// Reads the first 512 bytes of the device and opens the filesystem that they identify;
/// fails with `NotFound` where it is not NTFS. The volume's cluster-sized device is stacked
/// on `device`.
pub fn parse<R: Stream>(device: Device<R>) -> (r: Result<Ntfs<Device<R>>, Error>)
    requires
        device.wf(),
    ensures
        device.source().reliable() && device.block() > 0 ==> {
            let c = device.content();
            if c.len() < SECTOR_SIZE {
                r == Err::<Ntfs<Device<R>>, Error>(Error::UnexpectedEof)
            } else if !ntfs_signed(c.subrange(0, SECTOR_SIZE as int)) {
                r == Err::<Ntfs<Device<R>>, Error>(Error::NotFound)
            } else {
                match volume_of(c.subrange(0, SECTOR_SIZE as int), c, device.block()) {
                    Ok((g, backup, s)) => r matches Ok(v) && v.spec_layout() == g
                        && v.spec_used_backup() == backup && v.spec_mft().spec_attributes() == s,
                    Err(e) => r matches Err(x) && x == e,
                }
            }
        },
{
    let mut device = device;
    let header = match read_block(&mut device, 0, SECTOR_SIZE) {
        Ok(h) => h,
        Err(e) => {
            return Err(e);
        },
    };
    if Ntfs::<Device<R>>::has_signature(header.as_slice()) {
        proof {
            device.lemma_bounds();
        }
        Ntfs::open_with_header(device, header.as_slice())
    } else {
        Err(Error::NotFound)
    }
}

} // verus!
