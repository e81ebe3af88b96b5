//! APP-META: the firmware-image descriptor record.
//!
//! One 2 KB flash page at [`META_BASE`] holds a single [`AppMeta`] record
//! describing the application image in the app region
//! (`APP_BASE .. APP_BASE + APP_REGION_LEN`). The CRC-32 covers exactly
//! `length` bytes of the app region, starting at `APP_BASE`; the meta page is
//! not included.

use vstd::prelude::*;

verus! {

/// Base of the application region (just past the 16 K bootloader).
pub const APP_BASE: u32 = 0x0800_4000;

/// Length of the usable application region: 108 K.
pub const APP_REGION_LEN: u32 = 108 * 1024;

/// Base of the APP-META page: the last 2 K page of the 128 K device.
pub const META_BASE: u32 = 0x0801_F800;

/// Size of the APP-META page (one flash page).
pub const META_PAGE_LEN: u32 = 2 * 1024;

/// Magic identifying a populated record ("N32M").
pub const APP_META_MAGIC: u32 = 0x4E33_324D;

/// Format version of this record layout.
pub const APP_META_VERSION: u16 = 1;

/// CRC-32/ISO-HDLC (zlib / PNG / Ethernet) of a byte sequence, as computed
/// by the `crc` crate's `CRC_32_ISO_HDLC` engine.
pub uninterp spec fn spec_crc32(bytes: Seq<u8>) -> u32;

/// CRC-32/ISO-HDLC checksum of `bytes`.
///
/// Calls `crc::Crc::<u32>::new(&crc::CRC_32_ISO_HDLC).checksum(bytes)`. The
/// contract claims only that the result is a function of the bytes alone,
/// named by [`spec_crc32`]; the table-driven algorithm is not restated.
#[verifier::external_body]
fn crc32_iso_hdlc(bytes: &[u8]) -> (r: u32)
    ensures
        r == spec_crc32(bytes@),
{
    crc::Crc::<u32>::new(&crc::CRC_32_ISO_HDLC).checksum(bytes)
}

/// The firmware-image descriptor, laid out as 32 little-endian bytes.
#[derive(Clone, Copy, Debug, PartialEq, Eq)]
pub struct AppMeta {
    /// Must equal [`APP_META_MAGIC`] for the record to be considered present.
    pub magic: u32,
    /// CRC-32 over `APP_BASE .. APP_BASE + length`.
    pub crc32: u32,
    /// Exact application image length in bytes (not the padded region).
    pub length: u32,
    /// Application firmware version.
    pub fw_version: u32,
    /// Layout version of this record ([`APP_META_VERSION`]).
    pub meta_version: u16,
    /// Reserved; written as 0.
    pub _reserved: u16,
    /// Reserved tail rounding the record to 32 bytes; written as 0.
    pub _reserved2: [u32; 3],
}

/// Little-endian bytes of a `u32`.
pub open spec fn le32(x: u32) -> Seq<u8> {
    seq![(x % 256) as u8, ((x / 256) % 256) as u8, ((x / 65536) % 256) as u8, (x / 16777216) as u8]
}

/// Little-endian bytes of a `u16`.
pub open spec fn le16(x: u16) -> Seq<u8> {
    seq![(x % 256) as u8, (x / 256) as u8]
}

/// The `u32` whose little-endian bytes start at `s[i]`.
pub open spec fn from_le32(s: Seq<u8>, i: int) -> u32 {
    (s[i] + 256 * s[i + 1] + 65536 * s[i + 2] + 16777216 * s[i + 3]) as u32
}

/// The `u16` whose little-endian bytes start at `s[i]`.
pub open spec fn from_le16(s: Seq<u8>, i: int) -> u16 {
    (s[i] + 256 * s[i + 1]) as u16
}

impl AppMeta {
    /// Size of the serialized record in bytes.
    pub const SIZE: usize = 32;

    /// The record carries the expected magic and a layout version this
    /// firmware understands.
    pub open spec fn present(&self) -> bool {
        self.magic == APP_META_MAGIC && self.meta_version == APP_META_VERSION
    }

    /// `length` is a usable image length: non-zero and within the region.
    pub open spec fn length_sane(&self) -> bool {
        0 < self.length <= APP_REGION_LEN
    }

    /// The record vouches for the app-region contents `region`.
    pub open spec fn vouches_for(&self, region: Seq<u8>) -> bool {
        &&& self.present()
        &&& self.length_sane()
        &&& spec_crc32(region.take(self.length as int)) == self.crc32
    }

    /// The serialized record: fields little-endian in declaration order, the
    /// reserved tail zero.
    pub open spec fn spec_bytes(&self) -> Seq<u8> {
        le32(self.magic) + le32(self.crc32) + le32(self.length) + le32(self.fw_version)
            + le16(self.meta_version) + le16(self._reserved) + Seq::new(12, |i: int| 0u8)
    }

    /// The record stamped for an image of `total_len` bytes whose app-region
    /// contents are `region`.
    pub open spec fn for_image_spec(region: Seq<u8>, total_len: u32) -> AppMeta {
        Self::stamped_spec(spec_crc32(region.take(total_len as int)), total_len)
    }

    /// The record stamped for an image of `length` bytes with CRC-32 `crc32`:
    /// magic, current layout version, firmware version and reserved fields
    /// zero.
    pub open spec fn stamped_spec(crc32: u32, length: u32) -> AppMeta {
        AppMeta {
            magic: APP_META_MAGIC,
            crc32,
            length,
            fw_version: 0,
            meta_version: APP_META_VERSION,
            _reserved: 0,
            _reserved2: [0, 0, 0],
        }
    }

    /// The record decoded from 32 little-endian bytes.
    pub open spec fn spec_from_bytes(s: Seq<u8>) -> AppMeta {
        AppMeta {
            magic: from_le32(s, 0),
            crc32: from_le32(s, 4),
            length: from_le32(s, 8),
            fw_version: from_le32(s, 12),
            meta_version: from_le16(s, 16),
            _reserved: from_le16(s, 18),
            _reserved2: [from_le32(s, 20), from_le32(s, 24), from_le32(s, 28)],
        }
    }

    /// True if the record carries the expected magic and a layout version this
    /// firmware understands.
    pub fn is_present(&self) -> (r: bool)
        ensures
            r == self.present(),
    {
        self.magic == APP_META_MAGIC && self.meta_version == APP_META_VERSION
    }

    /// Validate the record against the app-region contents `region` (the
    /// bytes at `APP_BASE ..`).
    ///
    /// True iff the record is present, `length` is non-zero and fits the
    /// region, and the CRC-32 over exactly `length` bytes matches `crc32`.
    pub fn verify_app(&self, region: &[u8]) -> (r: bool)
        requires
            self.present() && self.length_sane() ==> self.length <= region@.len(),
        ensures
            r == self.vouches_for(region@),
    {
        if !self.is_present() {
            return false;
        }
        if self.length == 0 || self.length > APP_REGION_LEN {
            return false;
        }
        let n = self.length as usize;
        let image = &region[0..n];
        proof {
            assert(image@ == region@.take(self.length as int));
        }
        self.accepts_crc(crc32_iso_hdlc(image))
    }

    /// Whether the record accepts an image whose first `length` bytes have
    /// CRC-32 `image_crc`: present, sane length, and a matching CRC.
    pub fn accepts_crc(&self, image_crc: u32) -> (r: bool)
        ensures
            r == (self.present() && self.length_sane() && image_crc == self.crc32),
    {
        self.is_present() && self.length != 0 && self.length <= APP_REGION_LEN && image_crc
            == self.crc32
    }

    /// The record stamped for an image of `length` bytes with CRC-32 `crc32`.
    pub fn stamped(crc32: u32, length: u32) -> (r: AppMeta)
        ensures
            r == Self::stamped_spec(crc32, length),
    {
        AppMeta {
            magic: APP_META_MAGIC,
            crc32,
            length,
            fw_version: 0,
            meta_version: APP_META_VERSION,
            _reserved: 0,
            _reserved2: [0, 0, 0],
        }
    }

    /// The record describing an image of `total_len` bytes whose app-region
    /// contents are `region`: magic, current layout version, the CRC-32 over
    /// exactly `total_len` bytes, firmware version and reserved fields zero.
    pub fn for_image(region: &[u8], total_len: u32) -> (r: AppMeta)
        requires
            total_len <= region@.len(),
        ensures
            r == Self::for_image_spec(region@, total_len),
            r.magic == APP_META_MAGIC,
            r.crc32 == spec_crc32(region@.take(total_len as int)),
            r.length == total_len,
            r.fw_version == 0,
            r.meta_version == APP_META_VERSION,
            r._reserved == 0,
            r._reserved2@ == seq![0u32, 0u32, 0u32],
    {
        let image = &region[0..total_len as usize];
        proof {
            assert(image@ == region@.take(total_len as int));
        }
        Self::stamped(crc32_iso_hdlc(image), total_len)
    }

    /// Serialize to the raw 32-byte little-endian record; the reserved tail
    /// is written as zero.
    pub fn to_bytes(&self) -> (out: [u8; 32])
        ensures
            out@ == self.spec_bytes(),
    {
        let m = u32_le(self.magic);
        let c = u32_le(self.crc32);
        let l = u32_le(self.length);
        let f = u32_le(self.fw_version);
        let v = u16_le(self.meta_version);
        let r = u16_le(self._reserved);
        let out = [
            m.0, m.1, m.2, m.3, c.0, c.1, c.2, c.3, l.0, l.1, l.2, l.3, f.0, f.1, f.2, f.3,
            v.0, v.1, r.0, r.1, 0, 0, 0, 0, 0, 0, 0, 0, 0, 0, 0, 0,
        ];
        assert(out@ =~= self.spec_bytes());
        out
    }

    /// Decode a record from its 32 raw little-endian bytes, as laid out in the
    /// meta page.
    pub fn from_bytes(b: &[u8; 32]) -> (r: AppMeta)
        ensures
            r == Self::spec_from_bytes(b@),
    {
        AppMeta {
            magic: u32_from_le(b[0], b[1], b[2], b[3]),
            crc32: u32_from_le(b[4], b[5], b[6], b[7]),
            length: u32_from_le(b[8], b[9], b[10], b[11]),
            fw_version: u32_from_le(b[12], b[13], b[14], b[15]),
            meta_version: u16_from_le(b[16], b[17]),
            _reserved: u16_from_le(b[18], b[19]),
            _reserved2: [
                u32_from_le(b[20], b[21], b[22], b[23]),
                u32_from_le(b[24], b[25], b[26], b[27]),
                u32_from_le(b[28], b[29], b[30], b[31]),
            ],
        }
    }
}

/// Little-endian bytes of `x`.
pub(crate) fn u32_le(x: u32) -> (r: (u8, u8, u8, u8))
    ensures
        seq![r.0, r.1, r.2, r.3] == le32(x),
{
    let b0 = (x & 0xff) as u8;
    let b1 = ((x >> 8) & 0xff) as u8;
    let b2 = ((x >> 16) & 0xff) as u8;
    let b3 = (x >> 24) as u8;
    assert(b0 == x % 256) by (bit_vector)
        requires b0 == (x & 0xff) as u8;
    assert(b1 == (x / 256) % 256) by (bit_vector)
        requires b1 == ((x >> 8) & 0xff) as u8;
    assert(b2 == (x / 65536) % 256) by (bit_vector)
        requires b2 == ((x >> 16) & 0xff) as u8;
    assert(b3 == x / 16777216) by (bit_vector)
        requires b3 == (x >> 24) as u8;
    (b0, b1, b2, b3)
}

/// Little-endian bytes of `x`.
fn u16_le(x: u16) -> (r: (u8, u8))
    ensures
        seq![r.0, r.1] == le16(x),
{
    let b0 = (x & 0xff) as u8;
    let b1 = (x >> 8) as u8;
    assert(b0 == x % 256) by (bit_vector)
        requires b0 == (x & 0xff) as u8;
    assert(b1 == x / 256) by (bit_vector)
        requires b1 == (x >> 8) as u8;
    (b0, b1)
}

/// The `u32` with little-endian bytes `b0 b1 b2 b3`.
fn u32_from_le(b0: u8, b1: u8, b2: u8, b3: u8) -> (r: u32)
    ensures
        r == b0 + 256 * b1 + 65536 * b2 + 16777216 * b3,
{
    let r = (b0 as u32) | ((b1 as u32) << 8) | ((b2 as u32) << 16) | ((b3 as u32) << 24);
    assert(r == b0 + 256 * b1 + 65536 * b2 + 16777216 * b3) by (bit_vector)
        requires r == (b0 as u32) | ((b1 as u32) << 8) | ((b2 as u32) << 16) | ((b3 as u32) << 24);
    r
}

/// The `u16` with little-endian bytes `b0 b1`.
fn u16_from_le(b0: u8, b1: u8) -> (r: u16)
    ensures
        r == b0 + 256 * b1,
{
    let r = (b0 as u16) | ((b1 as u16) << 8);
    assert(r == b0 + 256 * b1) by (bit_vector)
        requires r == (b0 as u16) | ((b1 as u16) << 8);
    r
}

/// Decoding the serialized record gives back the record, with its reserved
/// tail zeroed (serialization always writes the tail as zero).
pub proof fn lemma_bytes_roundtrip(m: AppMeta)
    ensures
        AppMeta::spec_from_bytes(m.spec_bytes()).magic == m.magic,
        AppMeta::spec_from_bytes(m.spec_bytes()).crc32 == m.crc32,
        AppMeta::spec_from_bytes(m.spec_bytes()).length == m.length,
        AppMeta::spec_from_bytes(m.spec_bytes()).fw_version == m.fw_version,
        AppMeta::spec_from_bytes(m.spec_bytes()).meta_version == m.meta_version,
        AppMeta::spec_from_bytes(m.spec_bytes())._reserved == m._reserved,
        AppMeta::spec_from_bytes(m.spec_bytes())._reserved2@ == seq![0u32, 0u32, 0u32],
{
    let s = m.spec_bytes();
    lemma_le32_roundtrip(m.magic);
    lemma_le32_roundtrip(m.crc32);
    lemma_le32_roundtrip(m.length);
    lemma_le32_roundtrip(m.fw_version);
    lemma_le16_roundtrip(m.meta_version);
    lemma_le16_roundtrip(m._reserved);
    assert(from_le32(s, 0) == from_le32(le32(m.magic), 0));
    assert(from_le32(s, 4) == from_le32(le32(m.crc32), 0));
    assert(from_le32(s, 8) == from_le32(le32(m.length), 0));
    assert(from_le32(s, 12) == from_le32(le32(m.fw_version), 0));
    assert(from_le16(s, 16) == from_le16(le16(m.meta_version), 0));
    assert(from_le16(s, 18) == from_le16(le16(m._reserved), 0));
    let r = AppMeta::spec_from_bytes(s);
    assert(r._reserved2@ =~= seq![0u32, 0u32, 0u32]);
}

/// A `u32` read back from its little-endian bytes is unchanged.
pub proof fn lemma_le32_roundtrip(x: u32)
    ensures
        from_le32(le32(x), 0) == x,
{
    let b0 = x % 256;
    let b1 = (x / 256) % 256;
    let b2 = (x / 65536) % 256;
    let b3 = x / 16777216;
    assert(b0 + 256 * b1 + 65536 * b2 + 16777216 * b3 == x) by (nonlinear_arith)
        requires
            b0 == x % 256,
            b1 == (x / 256) % 256,
            b2 == (x / 65536) % 256,
            b3 == x / 16777216,
    {
        vstd::arithmetic::div_mod::lemma_fundamental_div_mod(x as int, 256);
        vstd::arithmetic::div_mod::lemma_fundamental_div_mod(x as int / 256, 256);
        vstd::arithmetic::div_mod::lemma_fundamental_div_mod(x as int / 65536, 256);
        vstd::arithmetic::div_mod::lemma_div_denominator(x as int, 256, 256);
        vstd::arithmetic::div_mod::lemma_div_denominator(x as int, 65536, 256);
    }
}

/// A `u16` read back from its little-endian bytes is unchanged.
pub proof fn lemma_le16_roundtrip(x: u16)
    ensures
        from_le16(le16(x), 0) == x,
{
}

/// The record stamped for an image vouches for that image: stamping a record
/// for `total_len` bytes of `region`, serializing it and reading it back, the
/// boot-time check accepts it, for every non-zero length that fits the app
/// region.
pub proof fn lemma_stamped_record_verifies(region: Seq<u8>, total_len: u32, m: AppMeta)
    requires
        0 < total_len <= APP_REGION_LEN,
        total_len <= region.len(),
        m.magic == APP_META_MAGIC,
        m.crc32 == spec_crc32(region.take(total_len as int)),
        m.length == total_len,
        m.meta_version == APP_META_VERSION,
    ensures
        AppMeta::spec_from_bytes(m.spec_bytes()).vouches_for(region),
{
    lemma_bytes_roundtrip(m);
}


/// The verdict covers exactly `length` bytes: two app regions that agree on
/// the first `length` bytes (whatever follows, such as erased padding) get
/// the same verdict from a record.
pub proof fn lemma_verdict_ignores_padding(m: AppMeta, a: Seq<u8>, b: Seq<u8>)
    requires
        m.present() && m.length_sane() ==> m.length <= a.len() && m.length <= b.len() && a.take(
            m.length as int,
        ) == b.take(m.length as int),
    ensures
        m.vouches_for(a) == m.vouches_for(b),
{
}


/// The record's layout on flash: magic at bytes 0..4, CRC at 4..8, length
/// at 8..12, firmware version at 12..16, layout version at 16..18, the
/// reserved half-word at 18..20, then 12 zero bytes; every field low byte
/// first.
pub proof fn lemma_record_layout(m: AppMeta)
    ensures
        m.spec_bytes().len() == 32,
        forall|k: int|
            0 <= k < 4 ==> {
                &&& #[trigger] m.spec_bytes()[k] == (m.magic as int / pow256(k)) % 256
                &&& m.spec_bytes()[4 + k] == (m.crc32 as int / pow256(k)) % 256
                &&& m.spec_bytes()[8 + k] == (m.length as int / pow256(k)) % 256
                &&& m.spec_bytes()[12 + k] == (m.fw_version as int / pow256(k)) % 256
            },
        m.spec_bytes()[16] == m.meta_version % 256,
        m.spec_bytes()[17] == m.meta_version / 256,
        m.spec_bytes()[18] == m._reserved % 256,
        m.spec_bytes()[19] == m._reserved / 256,
        forall|k: int| 20 <= k < 32 ==> #[trigger] m.spec_bytes()[k] == 0,
{
    assert forall|k: int| 0 <= k < 4 implies {
        &&& #[trigger] m.spec_bytes()[k] == (m.magic as int / pow256(k)) % 256
        &&& m.spec_bytes()[4 + k] == (m.crc32 as int / pow256(k)) % 256
        &&& m.spec_bytes()[8 + k] == (m.length as int / pow256(k)) % 256
        &&& m.spec_bytes()[12 + k] == (m.fw_version as int / pow256(k)) % 256
    } by {
        lemma_le32_bytes(m.magic, k);
        lemma_le32_bytes(m.crc32, k);
        lemma_le32_bytes(m.length, k);
        lemma_le32_bytes(m.fw_version, k);
    }
}

/// `256^k` for the byte positions of a word.
pub open spec fn pow256(k: int) -> int {
    if k == 0 {
        1
    } else if k == 1 {
        256
    } else if k == 2 {
        65536
    } else {
        16777216
    }
}

/// Byte `k` of a word's little-endian bytes.
proof fn lemma_le32_bytes(x: u32, k: int)
    requires
        0 <= k < 4,
    ensures
        le32(x)[k] == (x as int / pow256(k)) % 256,
{
    if k == 3 {
        assert(x / 16777216 < 256);
        vstd::arithmetic::div_mod::lemma_small_mod((x / 16777216) as nat, 256);
    }
}


/// What a record that vouches for a region carries: the magic "N32M"
/// (`0x4E33_324D`), layout version 1, a length from 1 to 108 K, and the
/// CRC-32 of exactly the first `length` bytes of the region.
pub proof fn lemma_vouching_record(m: AppMeta, region: Seq<u8>)
    ensures
        m.vouches_for(region) <==> (m.magic == 0x4E33_324D && m.meta_version == 1 && 0 < m.length
            <= 110592 && m.crc32 == spec_crc32(region.take(m.length as int))),
{
}

} // verus!
