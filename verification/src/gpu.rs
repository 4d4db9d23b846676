//! GPU identity data and the selection queries over it.
//!
//! Enumerating the devices themselves means running system tools and
//! walking device files, which happens outside; this module holds the
//! data those results are read into and the queries the rest of the
//! program asks of them — by vendor, by device-name fragment, by device
//! path, by index.  Name and vendor comparisons fold ASCII case at the
//! byte level.

use vstd::prelude::*;

verus! {

use vstd::utf8::encode_utf8;

/// PCI vendor of a GPU.
#[derive(Debug, Eq, PartialEq, Clone, Copy, Structural)]
pub enum GPUVendor {
    UNKNOWN,
    INTEL,
    NVIDIA,
    AMD,
}

/// One GPU: its vendor, device paths and marketed name.
#[derive(Debug)]
pub struct GPUInfo {
    vendor: GPUVendor,
    card_path: String,
    render_path: String,
    device_name: String,
}

/// The display name of a vendor.
pub open spec fn spec_vendor_string(v: GPUVendor) -> Seq<char> {
    match v {
        GPUVendor::INTEL => "Intel"@,
        GPUVendor::NVIDIA => "NVIDIA"@,
        GPUVendor::AMD => "AMD"@,
        GPUVendor::UNKNOWN => "Unknown"@,
    }
}

impl GPUInfo {
    pub closed spec fn spec_vendor(self) -> GPUVendor {
        self.vendor
    }

    pub closed spec fn spec_card_path(self) -> Seq<char> {
        self.card_path@
    }

    pub closed spec fn spec_render_path(self) -> Seq<char> {
        self.render_path@
    }

    pub closed spec fn spec_device_name(self) -> Seq<char> {
        self.device_name@
    }

    /// Assemble one entry from enumerated facts.
    pub fn new(
        vendor: GPUVendor,
        card_path: String,
        render_path: String,
        device_name: String,
    ) -> (r: GPUInfo)
        ensures
            r.spec_vendor() == vendor,
            r.spec_card_path() == card_path@,
            r.spec_render_path() == render_path@,
            r.spec_device_name() == device_name@,
    {
        GPUInfo { vendor, card_path, render_path, device_name }
    }

    pub fn vendor(&self) -> (r: &GPUVendor)
        ensures
            *r == self.spec_vendor(),
    {
        &self.vendor
    }

    /// The vendor's display name.
    pub fn vendor_string(&self) -> (r: &'static str)
        ensures
            r@ == spec_vendor_string(self.spec_vendor()),
    {
        match self.vendor {
            GPUVendor::INTEL => "Intel",
            GPUVendor::NVIDIA => "NVIDIA",
            GPUVendor::AMD => "AMD",
            GPUVendor::UNKNOWN => "Unknown",
        }
    }

    pub fn card_path(&self) -> (r: &str)
        ensures
            r@ == self.spec_card_path(),
    {
        self.card_path.as_str()
    }

    pub fn render_path(&self) -> (r: &str)
        ensures
            r@ == self.spec_render_path(),
    {
        self.render_path.as_str()
    }

    pub fn device_name(&self) -> (r: &str)
        ensures
            r@ == self.spec_device_name(),
    {
        self.device_name.as_str()
    }
}

pub(crate) fn clone_gpu(g: &GPUInfo) -> (r: GPUInfo)
    ensures
        r == *g,
{
    GPUInfo {
        vendor: g.vendor,
        card_path: g.card_path.clone(),
        render_path: g.render_path.clone(),
        device_name: g.device_name.clone(),
    }
}

/// The vendor a PCI vendor identifier names.
pub fn get_gpu_vendor(vendor_id: &str) -> (r: GPUVendor)
    ensures
        r == (if vendor_id@ == "8086"@ {
            GPUVendor::INTEL
        } else if vendor_id@ == "10de"@ {
            GPUVendor::NVIDIA
        } else if vendor_id@ == "1002"@ {
            GPUVendor::AMD
        } else {
            GPUVendor::UNKNOWN
        }),
{
    if crate::json::str_eq(vendor_id, "8086") {
        GPUVendor::INTEL
    } else if crate::json::str_eq(vendor_id, "10de") {
        GPUVendor::NVIDIA
    } else if crate::json::str_eq(vendor_id, "1002") {
        GPUVendor::AMD
    } else {
        GPUVendor::UNKNOWN
    }
}

// ---------------------------------------------------------------------
// ASCII case folding and search, at the byte level
// ---------------------------------------------------------------------
/// One byte with an ASCII capital folded to lower case.
pub open spec fn lower_byte(b: u8) -> u8 {
    if 0x41 <= b && b <= 0x5a {
        (b + 0x20) as u8
    } else {
        b
    }
}

/// A byte string folded to ASCII lower case.
pub open spec fn lower_bytes(s: Seq<u8>) -> Seq<u8> {
    s.map_values(|b: u8| lower_byte(b))
}

/// The ASCII-lowered UTF-8 bytes of a string — the form in which names
/// are compared.
pub open spec fn folded(s: Seq<char>) -> Seq<u8> {
    lower_bytes(encode_utf8(s))
}

/// `needle` occurs in `hay` starting at `i`.
pub open spec fn occurs_at(hay: Seq<u8>, needle: Seq<u8>, i: int) -> bool {
    0 <= i && i + needle.len() <= hay.len() && hay.subrange(i, i + needle.len()) == needle
}

/// `needle` occurs somewhere in `hay`.
pub open spec fn contains_bytes(hay: Seq<u8>, needle: Seq<u8>) -> bool {
    exists|i: int| occurs_at(hay, needle, i)
}

/// The ASCII-lowered UTF-8 bytes of a string.
fn fold_str(s: &str) -> (r: Vec<u8>)
    ensures
        r@ == folded(s@),
{
    let bytes = s.as_bytes_vec();
    let mut out: Vec<u8> = Vec::new();
    let mut i: usize = 0;
    while i < bytes.len()
        invariant
            i <= bytes@.len(),
            bytes@ == encode_utf8(s@),
            out@ =~= lower_bytes(bytes@.subrange(0, i as int)),
        decreases bytes@.len() - i,
    {
        let b = bytes[i];
        if 0x41 <= b && b <= 0x5a {
            out.push(b + 0x20);
        } else {
            out.push(b);
        }
        i = i + 1;
        proof {
            assert(out@ =~= lower_bytes(bytes@.subrange(0, i as int)));
        }
    }
    proof {
        assert(bytes@.subrange(0, bytes@.len() as int) =~= bytes@);
    }
    out
}

/// Case-insensitive string equality, folding ASCII case only — the
/// documented behaviour of byte-wise ASCII comparison.
pub fn eq_ignore_ascii_case(a: &str, b: &str) -> (r: bool)
    ensures
        r == (folded(a@) == folded(b@)),
{
    let fa = fold_str(a);
    let fb = fold_str(b);
    if fa.len() != fb.len() {
        return false;
    }
    let mut i: usize = 0;
    while i < fa.len()
        invariant
            i <= fa@.len(),
            fa@.len() == fb@.len(),
            fa@ == folded(a@),
            fb@ == folded(b@),
            forall|j: int| 0 <= j < i ==> fa@[j] == fb@[j],
        decreases fa@.len() - i,
    {
        if fa[i] != fb[i] {
            return false;
        }
        i = i + 1;
    }
    proof {
        assert(fa@ =~= fb@);
    }
    true
}

/// Whether `needle` occurs inside `hay`, ASCII case ignored.
pub fn contains_ignore_ascii_case(hay: &str, needle: &str) -> (r: bool)
    ensures
        r == contains_bytes(folded(hay@), folded(needle@)),
{
    let h = fold_str(hay);
    let n = fold_str(needle);
    bytes_contains(&h, &n)
}

/// Whether `needle`'s bytes occur inside `hay`'s bytes.
fn bytes_contains(hay: &Vec<u8>, needle: &Vec<u8>) -> (r: bool)
    ensures
        r == contains_bytes(hay@, needle@),
{
    let m = needle.len();
    let n = hay.len();
    if m > n {
        proof {
            assert forall|i: int| !occurs_at(hay@, needle@, i) by {}
        }
        return false;
    }
    if m == 0 {
        proof {
            assert(hay@.subrange(0, 0) =~= needle@);
            assert(occurs_at(hay@, needle@, 0));
        }
        return true;
    }
    let mut i: usize = 0;
    while i <= n - m
        invariant
            m == needle@.len(),
            n == hay@.len(),
            m <= n,
            i <= n - m + 1,
            1 <= m,
            forall|k: int| 0 <= k < i ==> !occurs_at(hay@, needle@, k),
        decreases n - m + 1 - i,
    {
        let mut j: usize = 0;
        let mut matched = true;
        while j < m
            invariant
                m == needle@.len(),
                n == hay@.len(),
                i + m <= n,
                j <= m,
                matched ==> forall|l: int| 0 <= l < j ==> hay@[i + l] == needle@[l],
                !matched ==> !occurs_at(hay@, needle@, i as int),
            decreases m - j,
        {
            if hay[i + j] != needle[j] {
                proof {
                    if occurs_at(hay@, needle@, i as int) {
                        assert(hay@.subrange(i as int, i + needle@.len())[j as int] == needle@[j as int]);
                    }
                }
                matched = false;
                j = m;
            } else {
                j = j + 1;
            }
        }
        if matched {
            proof {
                assert(hay@.subrange(i as int, i + needle@.len()) =~= needle@);
                assert(occurs_at(hay@, needle@, i as int));
            }
            return true;
        }
        i = i + 1;
    }
    proof {
        assert forall|k: int| !occurs_at(hay@, needle@, k) by {
            if 0 <= k <= n - m {
                assert(!occurs_at(hay@, needle@, k));
            }
        }
    }
    false
}

// ---------------------------------------------------------------------
// Enumeration-line parsing
// ---------------------------------------------------------------------
/// An ASCII whitespace byte, as the enumeration tool prints between
/// fields.
pub open spec fn is_ws_byte(b: u8) -> bool {
    b == 0x20 || b == 0x09
}

/// A lower-case hexadecimal digit byte.
pub open spec fn is_hex_lower(b: u8) -> bool {
    (0x30 <= b && b <= 0x39) || (0x61 <= b && b <= 0x66)
}

/// All four bytes of an identifier are lower-case hexadecimal.
pub open spec fn is_hex_id(s: Seq<u8>) -> bool {
    s.len() == 4 && forall|i: int| 0 <= i < 4 ==> is_hex_lower(#[trigger] s[i])
}

fn skip_ws_bytes(b: &Vec<u8>, pos: usize) -> (r: usize)
    requires
        pos <= b@.len(),
    ensures
        pos <= r <= b@.len(),
{
    let mut p = pos;
    while p < b.len() && (b[p] == 0x20 || b[p] == 0x09)
        invariant
            pos <= p <= b@.len(),
        decreases b@.len() - p,
    {
        p = p + 1;
    }
    p
}

/// A four-digit identifier standing in brackets somewhere in `hay`.
pub open spec fn bracketed_in(id: Seq<u8>, hay: Seq<u8>) -> bool {
    exists|i: int|
        0 <= i && i + 6 <= hay.len() && #[trigger] hay.subrange(i + 1, i + 5) == id && hay[i]
            == 0x5b && hay[i + 5] == 0x5d
}

/// The first bracketed group of exactly four lower-case hex digits in
/// `seg`, if any.
fn find_hex_id(seg: &Vec<u8>) -> (r: Option<Vec<u8>>)
    ensures
        r matches Some(id) ==> is_hex_id(id@) && bracketed_in(id@, seg@),
{
    if seg.len() < 6 {
        return None;
    }
    let n = seg.len();
    let mut i: usize = 0;
    while i <= n - 6
        invariant
            n == seg@.len(),
            n >= 6,
            i <= n - 5,
        decreases n - i,
    {
        if seg[i] == 0x5b && seg[i + 5] == 0x5d {
            let mut ok = true;
            let mut j: usize = 0;
            while j < 4
                invariant
                    j <= 4,
                    n == seg@.len(),
                    i + 6 <= n,
                    ok ==> forall|l: int| 0 <= l < j ==> is_hex_lower(#[trigger] seg@[i + 1 + l]),
                decreases 4 - j,
            {
                let c = seg[i + 1 + j];
                if !((0x30 <= c && c <= 0x39) || (0x61 <= c && c <= 0x66)) {
                    ok = false;
                    j = 4;
                } else {
                    j = j + 1;
                }
            }
            if ok {
                let mut id: Vec<u8> = Vec::new();
                id.push(seg[i + 1]);
                id.push(seg[i + 2]);
                id.push(seg[i + 3]);
                id.push(seg[i + 4]);
                proof {
                    assert forall|l: int| 0 <= l < 4 implies is_hex_lower(#[trigger] id@[l]) by {
                        assert(id@[l] == seg@[i + 1 + l]);
                    }
                    assert(seg@.subrange(i + 1, i + 5) =~= id@);
                }
                return Some(id);
            }
        }
        i = i + 1;
    }
    None
}

/// Read one quoted segment starting at the opening quote; the content
/// runs to the next quote.
fn read_quoted(b: &Vec<u8>, pos: usize) -> (r: Option<(Vec<u8>, usize)>)
    requires
        pos <= b@.len(),
    ensures
        r matches Some((seg, next)) ==> pos + 2 <= next <= b@.len() && seg@ == b@.subrange(
            pos + 1,
            next - 1,
        ),
{
    let n = b.len();
    if !(pos < n && b[pos] == 0x22) {
        return None;
    }
    let mut content: Vec<u8> = Vec::new();
    let mut p = pos + 1;
    while p < n && b[p] != 0x22
        invariant
            pos < p <= n,
            n == b@.len(),
            content@ == b@.subrange(pos + 1, p as int),
        decreases b@.len() - p,
    {
        content.push(b[p]);
        p = p + 1;
        proof {
            assert(content@ =~= b@.subrange(pos + 1, p as int));
        }
    }
    if p >= n {
        return None;
    }
    Some((content, p + 1))
}

/// `part` is a contiguous slice of `whole`.
pub open spec fn slice_of(part: Seq<u8>, whole: Seq<u8>) -> bool {
    exists|i: int, j: int| 0 <= i <= j <= whole.len() && part == #[trigger] whole.subrange(i, j)
}

/// Trim ASCII whitespace from both ends.
fn trim_ws(b: Vec<u8>) -> (r: Vec<u8>)
    ensures
        slice_of(r@, b@),
{
    let mut start: usize = 0;
    let n = b.len();
    while start < n && (b[start] == 0x20 || b[start] == 0x09)
        invariant
            start <= n,
            n == b@.len(),
        decreases n - start,
    {
        start = start + 1;
    }
    let mut end: usize = n;
    while end > start && (b[end - 1] == 0x20 || b[end - 1] == 0x09)
        invariant
            start <= end <= n,
            n == b@.len(),
        decreases end,
    {
        end = end - 1;
    }
    let mut out: Vec<u8> = Vec::new();
    let mut i = start;
    while i < end
        invariant
            start <= i <= end,
            end <= n,
            n == b@.len(),
            out@ == b@.subrange(start as int, i as int),
        decreases end - i,
    {
        out.push(b[i]);
        i = i + 1;
        proof {
            assert(out@ =~= b@.subrange(start as int, i as int));
        }
    }
    proof {
        assert(out@ == b@.subrange(start as int, end as int));
    }
    out
}

/// Drop a trailing ` [xxxx]` device identifier, as the cleaned display
/// name omits it.
fn strip_trailing_id(b: Vec<u8>) -> (r: Vec<u8>)
    ensures
        slice_of(r@, b@),
{
    let n = b.len();
    if n >= 7 && b[n - 1] == 0x5d && b[n - 7] == 0x20 && b[n - 6] == 0x5b {
        let mut hex = true;
        let mut j: usize = 0;
        while j < 4
            invariant
                j <= 4,
                n == b@.len(),
                n >= 7,
            decreases 4 - j,
        {
            let c = b[n - 5 + j];
            if !((0x30 <= c && c <= 0x39) || (0x61 <= c && c <= 0x66)) {
                hex = false;
                j = 4;
            } else {
                j = j + 1;
            }
        }
        if hex {
            let mut out: Vec<u8> = Vec::new();
            let mut i: usize = 0;
            while i < n - 7
                invariant
                    i <= n - 7,
                    n == b@.len(),
                    n >= 7,
                    out@ == b@.subrange(0, i as int),
                decreases n - 7 - i,
            {
                out.push(b[i]);
                i = i + 1;
                proof {
                    assert(out@ =~= b@.subrange(0, i as int));
                }
            }
            let trimmed = trim_ws(out);
            proof {
                lemma_slice_of_trans(trimmed@, b@.subrange(0, n - 7), b@);
            }
            return trimmed;
        }
    }
    proof {
        assert(b@ == b@.subrange(0, b@.len() as int));
    }
    b
}

/// A slice of a slice is a slice of the whole.
proof fn lemma_slice_of_trans(part: Seq<u8>, mid: Seq<u8>, whole: Seq<u8>)
    requires
        slice_of(part, mid),
        slice_of(mid, whole),
    ensures
        slice_of(part, whole),
{
    let (i1, j1) = choose|i1: int, j1: int|
        0 <= i1 <= j1 <= mid.len() && part == #[trigger] mid.subrange(i1, j1);
    let (i2, j2) = choose|i2: int, j2: int|
        0 <= i2 <= j2 <= whole.len() && mid == #[trigger] whole.subrange(i2, j2);
    assert(whole.subrange(i2 + i1, i2 + j1) =~= mid.subrange(i1, j1));
}

/// A four-digit identifier standing bracketed in a slice of `whole`.
proof fn lemma_bracketed_lift(id: Seq<u8>, seg: Seq<u8>, whole: Seq<u8>, at: int)
    requires
        0 <= at,
        at + seg.len() <= whole.len(),
        seg == whole.subrange(at, at + seg.len() as int),
        bracketed_in(id, seg),
    ensures
        bracketed_in(id, whole),
{
    let i = choose|i: int|
        0 <= i && i + 6 <= seg.len() && #[trigger] seg.subrange(i + 1, i + 5) == id && seg[i]
            == 0x5b && seg[i + 5] == 0x5d;
    assert(whole.subrange(at + i + 1, at + i + 5) =~= seg.subrange(i + 1, i + 5));
    assert(whole[at + i] == seg[i]);
    assert(whole[at + i + 5] == seg[i + 5]);
}

/// Parse one line of the PCI enumeration tool's machine-readable
/// listing: the device address, then three quoted fields — the class
/// with its bracketed identifier, the vendor with its bracketed
/// identifier, and the device's display name, whose trailing bracketed
/// identifier is dropped.  The result is `(class, vendor, name,
/// address)`: the address is the line's whitespace-free leading run, the
/// identifiers stand bracketed in the line, and the name is a non-empty
/// slice of it.  A line without that shape yields nothing.
#[verifier::rlimit(100)]
pub fn parse_pci_device(line: &str) -> (r: Option<(String, String, String, String)>)
    ensures
        r matches Some(f) ==> ({
            let lb = vstd::utf8::encode_utf8(line@);
            let addr = vstd::utf8::encode_utf8(f.3@);
            &&& addr.len() > 0
            &&& addr.len() <= lb.len()
            &&& addr == lb.subrange(0, addr.len() as int)
            &&& forall|j: int| 0 <= j < addr.len() ==> !is_ws_byte(#[trigger] lb[j])
            &&& is_hex_id(vstd::utf8::encode_utf8(f.0@))
            &&& bracketed_in(vstd::utf8::encode_utf8(f.0@), lb)
            &&& is_hex_id(vstd::utf8::encode_utf8(f.1@))
            &&& bracketed_in(vstd::utf8::encode_utf8(f.1@), lb)
            &&& f.2@.len() > 0
            &&& slice_of(vstd::utf8::encode_utf8(f.2@), lb)
        }),
{
    let bytes = line.as_bytes_vec();
    let n = bytes.len();
    // The address: everything before the first whitespace.
    let mut p: usize = 0;
    let mut addr: Vec<u8> = Vec::new();
    while p < n && !(bytes[p] == 0x20 || bytes[p] == 0x09)
        invariant
            p <= n,
            n == bytes@.len(),
            bytes@ == vstd::utf8::encode_utf8(line@),
            addr@ == bytes@.subrange(0, p as int),
            forall|j: int| 0 <= j < p ==> !is_ws_byte(#[trigger] bytes@[j]),
        decreases n - p,
    {
        addr.push(bytes[p]);
        p = p + 1;
        proof {
            assert(addr@ =~= bytes@.subrange(0, p as int));
        }
    }
    if addr.len() == 0 {
        return None;
    }
    let p = skip_ws_bytes(&bytes, p);
    let ghost class_at = p as int;
    // The class field, carrying the class identifier in brackets.
    let (class_seg, p) = match read_quoted(&bytes, p) {
        Some(x) => x,
        None => {
            return None;
        },
    };
    let ghost class_seg_snap = class_seg@;
    let ghost class_end = p as int;
    let class_id = match find_hex_id(&class_seg) {
        Some(x) => x,
        None => {
            return None;
        },
    };
    let p = skip_ws_bytes(&bytes, p);
    let ghost vendor_at = p as int;
    // The vendor field, carrying the vendor identifier in brackets.
    let (vendor_seg, p) = match read_quoted(&bytes, p) {
        Some(x) => x,
        None => {
            return None;
        },
    };
    let ghost vendor_seg_snap = vendor_seg@;
    let ghost vendor_end = p as int;
    let vendor_id = match find_hex_id(&vendor_seg) {
        Some(x) => x,
        None => {
            return None;
        },
    };
    let p = skip_ws_bytes(&bytes, p);
    let ghost name_at = p as int;
    // The device's display name.
    let (name_seg, _p) = match read_quoted(&bytes, p) {
        Some(x) => x,
        None => {
            return None;
        },
    };
    let ghost name_seg_snap = name_seg@;
    let trimmed = trim_ws(name_seg);
    let ghost trimmed_snap = trimmed@;
    let name = strip_trailing_id(trimmed);
    proof {
        assert(slice_of(name_seg_snap, name_seg_snap)) by {
            assert(name_seg_snap.subrange(0, name_seg_snap.len() as int) =~= name_seg_snap);
        }
        lemma_slice_of_trans(trimmed_snap, name_seg_snap, name_seg_snap);
        lemma_slice_of_trans(name@, trimmed_snap, name_seg_snap);
    }
    if name.len() == 0 {
        return None;
    }
    let class_s = match crate::json::bytes_to_string(class_id) {
        Some(s) => s,
        None => {
            return None;
        },
    };
    let vendor_s = match crate::json::bytes_to_string(vendor_id) {
        Some(s) => s,
        None => {
            return None;
        },
    };
    let name_s = match crate::json::bytes_to_string(name) {
        Some(s) => s,
        None => {
            return None;
        },
    };
    let addr_s = match crate::json::bytes_to_string(addr) {
        Some(s) => s,
        None => {
            return None;
        },
    };
    if name_s.as_str().is_empty() || addr_s.as_str().is_empty() {
        return None;
    }
    proof {
        let lb = vstd::utf8::encode_utf8(line@);
        assert(lb == bytes@);
        assert(class_seg_snap == bytes@.subrange(class_at + 1, class_end - 1));
        assert(class_seg_snap.len() == class_end - 1 - (class_at + 1));
        assert(class_seg_snap =~= lb.subrange(
            class_at + 1,
            class_at + 1 + class_seg_snap.len() as int,
        ));
        assert(vendor_seg_snap == bytes@.subrange(vendor_at + 1, vendor_end - 1));
        assert(vendor_seg_snap.len() == vendor_end - 1 - (vendor_at + 1));
        assert(vendor_seg_snap =~= lb.subrange(
            vendor_at + 1,
            vendor_at + 1 + vendor_seg_snap.len() as int,
        ));
        lemma_bracketed_lift(
            vstd::utf8::encode_utf8(class_s@),
            class_seg_snap,
            lb,
            class_at + 1,
        );
        lemma_bracketed_lift(
            vstd::utf8::encode_utf8(vendor_s@),
            vendor_seg_snap,
            lb,
            vendor_at + 1,
        );
        assert(name_seg_snap == lb.subrange(name_at + 1, name_at + 1 + name_seg_snap.len() as int));
        lemma_slice_of_trans(vstd::utf8::encode_utf8(name_s@), name_seg_snap, lb);
    }
    Some((class_s, vendor_s, name_s, addr_s))
}

/// The name designates a card node.
pub open spec fn is_card_name(s: Seq<char>) -> bool {
    encode_utf8("card"@).len() <= encode_utf8(s).len() && encode_utf8(s).subrange(
        0,
        encode_utf8("card"@).len() as int,
    ) == encode_utf8("card"@)
}

/// The name designates a render node.
pub open spec fn is_render_name(s: Seq<char>) -> bool {
    encode_utf8("renderD"@).len() <= encode_utf8(s).len() && encode_utf8(s).subrange(
        0,
        encode_utf8("renderD"@).len() as int,
    ) == encode_utf8("renderD"@)
}

/// No name designates both node kinds.
proof fn lemma_card_render_disjoint(s: Seq<char>)
    ensures
        !(is_card_name(s) && is_render_name(s)),
{
    reveal_strlit("card");
    reveal_strlit("renderD");
    assert("card"@.len() == 4);
    assert("renderD"@.len() == 7);
    assert(vstd::utf8::is_ascii_chars("card"@));
    assert(vstd::utf8::is_ascii_chars("renderD"@));
    vstd::utf8::is_ascii_chars_encode_utf8("card"@);
    vstd::utf8::is_ascii_chars_encode_utf8("renderD"@);
    if is_card_name(s) && is_render_name(s) {
        assert(encode_utf8(s).subrange(0, 4)[0] == encode_utf8(s)[0]);
        assert(encode_utf8(s).subrange(0, 7)[0] == encode_utf8(s)[0]);
        assert(encode_utf8("card"@)[0] == 'c' as u8);
        assert(encode_utf8("renderD"@)[0] == 'r' as u8);
    }
}

/// From the names inside a device's render directory, the card node and
/// the render node: the first name designating each kind, prefixed with
/// the device directory.
pub fn select_dri_nodes(names: &Vec<String>) -> (r: (Option<String>, Option<String>))
    ensures
        match r.0 {
            Some(c) => exists|i: int|
                0 <= i < names@.len() && #[trigger] is_card_name(names@[i]@) && c@ == "/dev/dri/"@
                    + names@[i]@ && (forall|j: int| 0 <= j < i ==> !is_card_name(names@[j]@)),
            None => forall|i: int| 0 <= i < names@.len() ==> !is_card_name(names@[i]@),
        },
        match r.1 {
            Some(d) => exists|i: int|
                0 <= i < names@.len() && #[trigger] is_render_name(names@[i]@) && d@ == "/dev/dri/"@
                    + names@[i]@ && (forall|j: int| 0 <= j < i ==> !is_render_name(names@[j]@)),
            None => forall|i: int| 0 <= i < names@.len() ==> !is_render_name(names@[i]@),
        },
{
    let mut card: Option<String> = None;
    let mut render: Option<String> = None;
    let ghost mut card_at: int = 0;
    let ghost mut render_at: int = 0;
    let mut i: usize = 0;
    while i < names.len()
        invariant
            i <= names@.len(),
            match card {
                Some(c) => 0 <= card_at < i && is_card_name(names@[card_at]@) && c@ == "/dev/dri/"@
                    + names@[card_at]@ && (forall|j: int|
                    0 <= j < card_at ==> !is_card_name(names@[j]@)),
                None => forall|j: int| 0 <= j < i ==> !is_card_name(names@[j]@),
            },
            match render {
                Some(d) => 0 <= render_at < i && is_render_name(names@[render_at]@) && d@
                    == "/dev/dri/"@ + names@[render_at]@ && (forall|j: int|
                    0 <= j < render_at ==> !is_render_name(names@[j]@)),
                None => forall|j: int| 0 <= j < i ==> !is_render_name(names@[j]@),
            },
        decreases names@.len() - i,
    {
        let name = &names[i];
        if card.is_none() && starts_with(name.as_str(), "card") {
            proof {
                lemma_card_render_disjoint(names@[i as int]@);
                card_at = i as int;
            }
            card = Some(
                <String as vstd::string::StringExecFns>::from_str("/dev/dri/").concat(
                    name.as_str(),
                ),
            );
        } else if render.is_none() && starts_with(name.as_str(), "renderD") {
            proof {
                lemma_card_render_disjoint(names@[i as int]@);
                render_at = i as int;
            }
            render = Some(
                <String as vstd::string::StringExecFns>::from_str("/dev/dri/").concat(
                    name.as_str(),
                ),
            );
        }
        i = i + 1;
    }
    (card, render)
}

/// Whether `s` begins with `prefix`, byte for byte.
pub fn starts_with(s: &str, prefix: &str) -> (r: bool)
    ensures
        r == (encode_utf8(prefix@).len() <= encode_utf8(s@).len() && encode_utf8(s@).subrange(
            0,
            encode_utf8(prefix@).len() as int,
        ) == encode_utf8(prefix@)),
{
    let sb = s.as_bytes();
    let pb = prefix.as_bytes();
    if pb.len() > sb.len() {
        return false;
    }
    let mut i: usize = 0;
    while i < pb.len()
        invariant
            i <= pb@.len(),
            pb@.len() <= sb@.len(),
            sb@ == encode_utf8(s@),
            pb@ == encode_utf8(prefix@),
            forall|j: int| 0 <= j < i ==> sb@[j] == pb@[j],
        decreases pb@.len() - i,
    {
        if sb[i] != pb[i] {
            proof {
                if sb@.subrange(0, pb@.len() as int) == pb@ {
                    assert(sb@.subrange(0, pb@.len() as int)[i as int] == sb@[i as int]);
                }
            }
            return false;
        }
        i = i + 1;
    }
    proof {
        assert(sb@.subrange(0, pb@.len() as int) =~= pb@);
    }
    true
}

// ---------------------------------------------------------------------
// Queries
// ---------------------------------------------------------------------
/// The entries whose vendor's display name equals `vendor`, ASCII case
/// ignored, in their order of appearance.
pub fn get_gpus_by_vendor(gpus: &Vec<GPUInfo>, vendor: &str) -> (r: Vec<GPUInfo>)
    ensures
        r@ == gpus@.filter(
            |g: GPUInfo| folded(spec_vendor_string(g.spec_vendor())) == folded(vendor@),
        ),
{
    let ghost pred = |g: GPUInfo| folded(spec_vendor_string(g.spec_vendor())) == folded(vendor@);
    let mut r: Vec<GPUInfo> = Vec::new();
    let mut i: usize = 0;
    proof {
        reveal(Seq::filter);
        assert(gpus@.subrange(0, 0) =~= Seq::<GPUInfo>::empty());
        assert(r@ =~= gpus@.subrange(0, 0).filter(pred));
    }
    while i < gpus.len()
        invariant
            i <= gpus@.len(),
            r@ == gpus@.subrange(0, i as int).filter(pred),
            pred == (|g: GPUInfo| folded(spec_vendor_string(g.spec_vendor())) == folded(vendor@)),
        decreases gpus@.len() - i,
    {
        if eq_ignore_ascii_case(gpus[i].vendor_string(), vendor) {
            r.push(clone_gpu(&gpus[i]));
        }
        i = i + 1;
        proof {
            reveal(Seq::filter);
            assert(gpus@.subrange(0, i as int).drop_last() =~= gpus@.subrange(0, i - 1));
            assert(gpus@.subrange(0, i as int).last() == gpus@[i - 1]);
        }
    }
    proof {
        assert(gpus@.subrange(0, gpus@.len() as int) =~= gpus@);
    }
    r
}

/// The entries whose device name contains `substring`, ASCII case
/// ignored, in their order of appearance.
pub fn get_gpus_by_device_name(gpus: &Vec<GPUInfo>, substring: &str) -> (r: Vec<GPUInfo>)
    ensures
        r@ == gpus@.filter(
            |g: GPUInfo| contains_bytes(folded(g.spec_device_name()), folded(substring@)),
        ),
{
    let ghost pred = |g: GPUInfo| contains_bytes(folded(g.spec_device_name()), folded(substring@));
    let target = fold_str(substring);
    let mut r: Vec<GPUInfo> = Vec::new();
    let mut i: usize = 0;
    proof {
        reveal(Seq::filter);
        assert(gpus@.subrange(0, 0) =~= Seq::<GPUInfo>::empty());
        assert(r@ =~= gpus@.subrange(0, 0).filter(pred));
    }
    while i < gpus.len()
        invariant
            i <= gpus@.len(),
            target@ == folded(substring@),
            r@ == gpus@.subrange(0, i as int).filter(pred),
            pred == (|g: GPUInfo|
                contains_bytes(folded(g.spec_device_name()), folded(substring@))),
        decreases gpus@.len() - i,
    {
        let name = fold_str(gpus[i].device_name());
        if bytes_contains(&name, &target) {
            r.push(clone_gpu(&gpus[i]));
        }
        i = i + 1;
        proof {
            reveal(Seq::filter);
            assert(gpus@.subrange(0, i as int).drop_last() =~= gpus@.subrange(0, i - 1));
            assert(gpus@.subrange(0, i as int).last() == gpus@[i - 1]);
        }
    }
    proof {
        assert(gpus@.subrange(0, gpus@.len() as int) =~= gpus@);
    }
    r
}

/// Whether `g` answers to `path` as its card or render node, ASCII case
/// ignored.
pub open spec fn matches_path(g: GPUInfo, path: Seq<char>) -> bool {
    folded(g.spec_card_path()) == folded(path) || folded(g.spec_render_path()) == folded(path)
}

/// The first entry whose card or render path equals `path`, ASCII case
/// ignored.
pub fn get_gpu_by_card_path(gpus: &Vec<GPUInfo>, path: &str) -> (r: Option<GPUInfo>)
    ensures
        match r {
            Some(g) => exists|i: int|
                0 <= i < gpus@.len() && #[trigger] matches_path(gpus@[i], path@) && g == gpus@[i]
                    && forall|j: int| 0 <= j < i ==> !matches_path(gpus@[j], path@),
            None => forall|i: int| 0 <= i < gpus@.len() ==> !matches_path(gpus@[i], path@),
        },
{
    let mut i: usize = 0;
    while i < gpus.len()
        invariant
            i <= gpus@.len(),
            forall|j: int| 0 <= j < i ==> !matches_path(gpus@[j], path@),
        decreases gpus@.len() - i,
    {
        if eq_ignore_ascii_case(gpus[i].card_path(), path) || eq_ignore_ascii_case(
            gpus[i].render_path(),
            path,
        ) {
            let g = clone_gpu(&gpus[i]);
            proof {
                assert(matches_path(gpus@[i as int], path@));
            }
            return Some(g);
        }
        i = i + 1;
    }
    None
}

/// The first entry whose vendor is known, scanning front to back.
pub open spec fn spec_first_known_vendor(s: Seq<GPUInfo>) -> Option<GPUInfo>
    decreases s.len(),
{
    if s.len() == 0 {
        Option::None
    } else if s[0].spec_vendor() != GPUVendor::UNKNOWN {
        Option::Some(s[0])
    } else {
        spec_first_known_vendor(s.drop_first())
    }
}

/// The candidates left after the non-empty filters run: vendor first,
/// then device-name fragment.
pub open spec fn spec_filtered_candidates(
    gpus: Seq<GPUInfo>,
    vendor: Seq<char>,
    name: Seq<char>,
) -> Seq<GPUInfo> {
    let by_vendor = if vendor.len() > 0 {
        gpus.filter(|g: GPUInfo| folded(spec_vendor_string(g.spec_vendor())) == folded(vendor))
    } else {
        gpus
    };
    if name.len() > 0 {
        by_vendor.filter(|g: GPUInfo| contains_bytes(folded(g.spec_device_name()), folded(name)))
    } else {
        by_vendor
    }
}

fn clone_gpus(gpus: &Vec<GPUInfo>) -> (r: Vec<GPUInfo>)
    ensures
        r@ == gpus@,
{
    let mut r: Vec<GPUInfo> = Vec::new();
    let mut i: usize = 0;
    while i < gpus.len()
        invariant
            i <= gpus@.len(),
            r@ =~= gpus@.subrange(0, i as int),
        decreases gpus@.len() - i,
    {
        r.push(clone_gpu(&gpus[i]));
        i = i + 1;
        proof {
            assert(r@ =~= gpus@.subrange(0, i as int));
        }
    }
    proof {
        assert(gpus@.subrange(0, gpus@.len() as int) =~= gpus@);
    }
    r
}

/// Pick one GPU the way the configuration asks: an explicit card or
/// render path overrides everything; otherwise the non-empty vendor and
/// name filters narrow the list, and either the requested index or the
/// first entry with a known vendor is taken.
pub fn select_gpu(
    gpus: &Vec<GPUInfo>,
    vendor: &str,
    name: &str,
    index: i32,
    card_path: &str,
) -> (r: Option<GPUInfo>)
    ensures
        card_path@.len() > 0 ==> (match r {
            Some(g) => exists|i: int|
                0 <= i < gpus@.len() && #[trigger] matches_path(gpus@[i], card_path@) && g
                    == gpus@[i],
            None => forall|i: int| 0 <= i < gpus@.len() ==> !matches_path(gpus@[i], card_path@),
        }),
        card_path@.len() == 0 ==> ({
            let cands = spec_filtered_candidates(gpus@, vendor@, name@);
            if index >= 0 {
                (index < cands.len() ==> r == Option::Some(cands[index as int])) && (index
                    >= cands.len() ==> r is None)
            } else {
                r == spec_first_known_vendor(cands)
            }
        }),
{
    if !card_path.is_empty() {
        return get_gpu_by_card_path(gpus, card_path);
    }
    let mut cands: Vec<GPUInfo> = clone_gpus(gpus);
    if !vendor.is_empty() {
        cands = get_gpus_by_vendor(&cands, vendor);
    }
    if !name.is_empty() {
        cands = get_gpus_by_device_name(&cands, name);
    }
    proof {
        assert(cands@ == spec_filtered_candidates(gpus@, vendor@, name@));
    }
    if index >= 0 {
        return get_gpu_by_index(&cands, index);
    }
    proof {
        assert(cands@.skip(0) =~= cands@);
    }
    let mut i: usize = 0;
    while i < cands.len()
        invariant
            i <= cands@.len(),
            card_path@.len() == 0,
            index < 0,
            cands@ == spec_filtered_candidates(gpus@, vendor@, name@),
            spec_first_known_vendor(cands@) == spec_first_known_vendor(cands@.skip(i as int)),
        decreases cands@.len() - i,
    {
        if !matches!(cands[i].vendor(), GPUVendor::UNKNOWN) {
            proof {
                assert(cands@.skip(i as int)[0] == cands@[i as int]);
            }
            return Some(clone_gpu(&cands[i]));
        }
        i = i + 1;
        proof {
            assert(cands@.skip(i - 1).drop_first() =~= cands@.skip(i as int));
            assert(cands@.skip(i - 1)[0] == cands@[i - 1]);
        }
    }
    proof {
        assert(cands@.skip(cands@.len() as int).len() == 0);
    }
    None
}

/// The entry at `index`, or nothing when the index is negative or past
/// the end.
pub fn get_gpu_by_index(gpus: &Vec<GPUInfo>, index: i32) -> (r: Option<GPUInfo>)
    ensures
        index < 0 || index >= gpus@.len() ==> r is None,
        0 <= index < gpus@.len() ==> (r matches Some(g) && g == gpus@[index as int]),
{
    if index < 0 {
        return None;
    }
    let idx = index as usize;
    if idx >= gpus.len() {
        return None;
    }
    Some(clone_gpu(&gpus[idx]))
}


/// Folding plain ASCII text keeps its length and folds character by
/// character.
pub proof fn lemma_folded_ascii(s: Seq<char>)
    requires
        vstd::utf8::is_ascii_chars(s),
    ensures
        folded(s).len() == s.len(),
        forall|i: int| 0 <= i < s.len() ==> #[trigger] folded(s)[i] == lower_byte(s[i] as u8),
{
    vstd::utf8::is_ascii_chars_encode_utf8(s);
    assert forall|i: int| 0 <= i < s.len() implies #[trigger] folded(s)[i] == lower_byte(
        s[i] as u8,
    ) by {
        assert(encode_utf8(s)[i] == s[i] as u8);
    }
}

} // verus!
